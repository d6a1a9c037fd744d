//! Account autodiscovery: what `https://<domain>/.well-known/ferroma` says about a
//! domain, and what is assumed when it says nothing.
//!
//! 1. A `200` carrying the documented JSON wins.
//! 2. A **`404`**, and only a `404`, means the domain does not publish a record:
//!    [`Discovery::guessed`] then assumes the conventional hostnames.
//! 3. **Anything else is an error, and never guesses.**
//!
//! Unknown fields of the document are ignored and missing ones fall back; only
//! `api` is load-bearing.

use vstd::prelude::*;

use crate::address::{parse_url, parsed_view, url_read, UrlParts, UrlView};
use crate::api::{envelope_view, error_of, lossy_text, ApiError, Envelope, TransportFailure};
use crate::error::{ClientError, ClientResult};
use crate::json::{option_view, Json, JsonView};
use crate::text::{
    concat3, debug_quoted, debug_text, ends_with, finishes_with, is_blank, lower_char,
    lowered, opt_view, same, to_lower, trim, trim_trailing, trimmed, without_trailing,
};

verus! {

/// The path a Ferroma deployment publishes its discovery document at.
pub const WELL_KNOWN_PATH: &'static str = "/.well-known/ferroma";

/// The protocol version assumed when the document does not name one.
pub const DEFAULT_PROTOCOL_VERSION: u32 = 1;

/// Where a [`Discovery`] came from.
#[derive(Debug, Clone, Copy, PartialEq, Eq, Structural)]
pub enum DiscoverySource {
    /// The domain published its document and it was used as it was.
    WellKnown,
    /// No document was published, so the conventional hostnames were assumed. The
    /// UI shows this as a guess and asks the user to confirm it.
    Guessed,
}

impl DiscoverySource {
    /// The stable name of the source.
    pub open spec fn name(self) -> Seq<char> {
        match self {
            DiscoverySource::WellKnown => "well_known"@,
            DiscoverySource::Guessed => "guessed"@,
        }
    }

    /// A short, stable name for logs and the UI.
    pub fn as_str(self) -> (result: &'static str)
        ensures
            result@ == self.name(),
    {
        match self {
            DiscoverySource::WellKnown => "well_known",
            DiscoverySource::Guessed => "guessed",
        }
    }
}

/// One mail service endpoint the document advertises.
#[derive(Debug, Clone, PartialEq, Eq)]
pub struct ServiceEndpoint {
    /// The hostname, e.g. `mail.example.com`.
    pub host: String,
    /// The TCP port, e.g. `993`.
    pub port: u16,
    /// Whether the connection is wrapped in TLS from the first byte.
    pub tls: bool,
}

/// What a [`ServiceEndpoint`] stands for.
pub struct EndpointView {
    /// The hostname.
    pub host: Seq<char>,
    /// The port.
    pub port: u16,
    /// Whether TLS is used.
    pub tls: bool,
}

impl ServiceEndpoint {
    /// What the endpoint stands for.
    pub open spec fn view(&self) -> EndpointView {
        EndpointView { host: self.host@, port: self.port, tls: self.tls }
    }
}

/// The view of an optional endpoint.
pub open spec fn endpoint_view(endpoint: Option<ServiceEndpoint>) -> Option<EndpointView> {
    match endpoint {
        Some(endpoint) => Some(endpoint@),
        None => None,
    }
}

/// A resolved server configuration for one address domain.
#[derive(Debug, Clone, PartialEq, Eq)]
pub struct Discovery {
    /// The FCP API root. Append `/client`, or call [`Discovery::fcp_base_url`],
    /// before talking to it.
    pub api: String,
    /// The IMAP endpoint, when the document names one.
    pub imap: Option<ServiceEndpoint>,
    /// The SMTP submission endpoint, when the document names one.
    pub smtp: Option<ServiceEndpoint>,
    /// The webmail URL, when the document names one.
    pub web: Option<String>,
    /// The protocol version the document advertises.
    pub protocol_version: u32,
    /// Whether this configuration was published or assumed.
    pub source: DiscoverySource,
    /// The lower-cased domain the record was looked up for.
    pub domain: String,
}

/// What a [`Discovery`] stands for.
pub struct DiscoveryView {
    /// The API root.
    pub api: Seq<char>,
    /// The IMAP endpoint.
    pub imap: Option<EndpointView>,
    /// The SMTP endpoint.
    pub smtp: Option<EndpointView>,
    /// The webmail URL.
    pub web: Option<Seq<char>>,
    /// The protocol version.
    pub protocol_version: u32,
    /// Whether it was published or assumed.
    pub source: DiscoverySource,
    /// The domain.
    pub domain: Seq<char>,
}

impl Discovery {
    /// What the configuration stands for.
    pub open spec fn view(&self) -> DiscoveryView {
        DiscoveryView {
            api: self.api@,
            imap: endpoint_view(self.imap),
            smtp: endpoint_view(self.smtp),
            web: opt_view(self.web),
            protocol_version: self.protocol_version,
            source: self.source,
            domain: self.domain@,
        }
    }
}

/// The protocol version a silent document is assumed to speak.
pub fn default_protocol_version() -> (result: u32)
    ensures
        result == DEFAULT_PROTOCOL_VERSION,
{
    DEFAULT_PROTOCOL_VERSION
}

/// A domain without the blanks around it and the root label's trailing dots, in
/// lower case.
pub open spec fn normalised(domain: Seq<char>) -> Seq<char> {
    lowered(without_trailing(trimmed(domain), '.'))
}

/// The API root with `/client` at its end.
pub open spec fn client_base(api: Seq<char>) -> Seq<char> {
    let root = without_trailing(api, '/');
    if finishes_with(root, "/client"@) {
        root
    } else {
        root + "/client"@
    }
}

/// What is assumed about a domain that publishes nothing.
pub open spec fn guess(domain: Seq<char>) -> DiscoveryView {
    let domain = normalised(domain);
    let mail = "mail."@ + domain;
    DiscoveryView {
        api: "https://"@ + mail + "/api/v1"@,
        imap: Some(EndpointView { host: "imap."@ + domain, port: 993, tls: true }),
        smtp: Some(EndpointView { host: mail, port: 587, tls: true }),
        web: Some("https://"@ + mail),
        protocol_version: DEFAULT_PROTOCOL_VERSION,
        source: DiscoverySource::Guessed,
        domain,
    }
}

/// Lower-case a domain and drop the root label's trailing dot, so
/// `Mail.Example.COM.` and `mail.example.com` are one host.
pub fn normalise_domain(domain: &str) -> (result: String)
    ensures
        result@ == normalised(domain@),
{
    to_lower(trim_trailing(trim(domain).as_str(), '.').as_str())
}

fn prefixed(prefix: &str, domain: &str) -> (result: String)
    ensures
        result@ == prefix@ + domain@,
{
    let mut out = prefix.to_owned();
    out.append(domain);
    out
}

impl Discovery {
    /// The FCP base URL: the API root with `/client` appended when it does not
    /// already end in it.
    pub fn fcp_base_url(&self) -> (result: String)
        ensures
            result@ == client_base(self.api@),
    {
        let mut api = trim_trailing(self.api.as_str(), '/');
        if !ends_with(api.as_str(), "/client") {
            api.append("/client");
        }
        api
    }

    /// The conventional-hostname fallback.
    ///
    /// * `api`: `https://mail.<domain>/api/v1`
    /// * `imap`: `imap.<domain>:993`, implicit TLS
    /// * `smtp`: `mail.<domain>:587`, implicit TLS
    /// * `web`: `https://mail.<domain>`
    pub fn guessed(domain: &str) -> (result: Discovery)
        ensures
            result@ == guess(domain@),
    {
        let domain = normalise_domain(domain);
        let mail = prefixed("mail.", domain.as_str());
        Discovery {
            api: concat3("https://", mail.as_str(), "/api/v1"),
            imap: Some(
                ServiceEndpoint { host: prefixed("imap.", domain.as_str()), port: 993, tls: true },
            ),
            smtp: Some(ServiceEndpoint { host: mail.clone(), port: 587, tls: true }),
            web: Some(prefixed("https://", mail.as_str())),
            protocol_version: DEFAULT_PROTOCOL_VERSION,
            source: DiscoverySource::Guessed,
            domain,
        }
    }

    /// The candidate hostnames to try, in order, for the UI's "advanced" pane:
    /// `["mail.<domain>", "imap.<domain>", "<domain>"]`.
    pub fn candidate_hosts(domain: &str) -> (result: Vec<String>)
        ensures
            result@.len() == 3,
            result@[0]@ == "mail."@ + normalised(domain@),
            result@[1]@ == "imap."@ + normalised(domain@),
            result@[2]@ == normalised(domain@),
    {
        let domain = normalise_domain(domain);
        let mut out: Vec<String> = Vec::new();
        out.push(prefixed("mail.", domain.as_str()));
        out.push(prefixed("imap.", domain.as_str()));
        out.push(domain);
        out
    }
}

// -- the document ----------------------------------------------------------

/// The document as it arrives, before any of it is trusted.
///
/// Every field is optional and every field is any JSON value, so a document that is
/// *almost* right still yields a usable [`Discovery`] instead of failing the whole account
/// setup.
#[derive(Debug, Clone, PartialEq, Eq)]
pub struct WellKnownDocument {
    /// The FCP API root. The only field this client requires.
    pub api: Option<Json>,
    /// The IMAP endpoint.
    pub imap: Option<Json>,
    /// The SMTP endpoint.
    pub smtp: Option<Json>,
    /// The webmail URL.
    pub web: Option<Json>,
    /// The advertised protocol version.
    pub protocol_version: Option<Json>,
}

/// What a [`WellKnownDocument`] stands for.
pub struct DocumentView {
    /// The FCP API root.
    pub api: Option<JsonView>,
    /// The IMAP endpoint.
    pub imap: Option<JsonView>,
    /// The SMTP endpoint.
    pub smtp: Option<JsonView>,
    /// The webmail URL.
    pub web: Option<JsonView>,
    /// The advertised protocol version.
    pub protocol_version: Option<JsonView>,
}

impl WellKnownDocument {
    /// What the document stands for.
    pub open spec fn view(&self) -> DocumentView {
        DocumentView {
            api: option_view(self.api),
            imap: option_view(self.imap),
            smtp: option_view(self.smtp),
            web: option_view(self.web),
            protocol_version: option_view(self.protocol_version),
        }
    }
}

/// The text of a value without the blanks around it, when anything is left.
pub open spec fn trimmed_text(value: Option<JsonView>) -> Option<Seq<char>> {
    match value {
        Some(JsonView::Text(text)) => if trimmed(text).len() > 0 {
            Some(trimmed(text))
        } else {
            None
        },
        _ => None,
    }
}

/// An `imap`/`smtp` section: it needs a host and a port from 1 to 65535; without
/// `tls` there is none.
pub open spec fn endpoint_in(section: JsonView) -> Option<EndpointView> {
    match (trimmed_text(section.member("host"@)), section.member_uint64("port"@)) {
        (Some(host), Some(port)) => if 1 <= port <= u16::MAX {
            Some(
                EndpointView {
                    host,
                    port: port as u16,
                    tls: section.member_boolean("tls"@) == Some(true),
                },
            )
        } else {
            None
        },
        _ => None,
    }
}

/// The endpoint in a section of the document, if it has one that is usable.
pub open spec fn section_in(section: Option<JsonView>) -> Option<EndpointView> {
    match section {
        Some(section) => endpoint_in(section),
        None => None,
    }
}

/// The protocol version that a document advertises.
pub open spec fn version_in(value: Option<JsonView>) -> u32 {
    match value {
        Some(value) => match value.uint64() {
            Some(version) => version as u64 as u32,
            None => DEFAULT_PROTOCOL_VERSION,
        },
        None => DEFAULT_PROTOCOL_VERSION,
    }
}

/// Whether the URL parser found an absolute `http`/`https` URL with a host.
pub open spec fn usable_parts(parsed: Result<UrlView, Seq<char>>) -> bool {
    parsed matches Ok(parts) && (parts.scheme == "http"@ || parts.scheme == "https"@)
        && parts.host is Some
}

/// The configuration that a document stands for, or the message of the error. `usable`
/// says whether its `api` is a URL that can be talked to.
pub open spec fn document_in(
    domain: Seq<char>,
    document: DocumentView,
    usable: bool,
    source: DiscoverySource,
) -> Result<DiscoveryView, Seq<char>> {
    match trimmed_text(document.api) {
        None => Err("the discovery document for "@ + domain + " has no usable `api` URL"@),
        Some(api) => if !usable {
            Err(
                "the discovery document for "@ + domain + " has an unusable `api` URL: "@
                    + debug_text(api),
            )
        } else {
            Ok(
                DiscoveryView {
                    api: without_trailing(api, '/'),
                    imap: section_in(document.imap),
                    smtp: section_in(document.smtp),
                    web: trimmed_text(document.web),
                    protocol_version: version_in(document.protocol_version),
                    source,
                    domain: normalised(domain),
                },
            )
        },
    }
}

/// Whether the document's `api` is a URL that can be talked to.
pub open spec fn api_usable(document: DocumentView) -> bool {
    trimmed_text(document.api) matches Some(api) && usable_parts(url_read(api))
}

/// The configuration that a `200` body stands for, or the message of the error, given the
/// document that was read from it, or why it is none.
pub open spec fn body_in(
    domain: Seq<char>,
    document: Result<DocumentView, Seq<char>>,
    source: DiscoverySource,
) -> Result<DiscoveryView, Seq<char>> {
    match document {
        Err(message) => Err(
            "the discovery document for "@ + domain + " was not the expected JSON: "@ + message,
        ),
        Ok(document) => document_in(domain, document, api_usable(document), source),
    }
}

/// What was read from a body: the document, or why it is none.
pub open spec fn read_view(document: Result<WellKnownDocument, String>) -> Result<
    DocumentView,
    Seq<char>,
> {
    match document {
        Ok(document) => Ok(document@),
        Err(message) => Err(message@),
    }
}

/// The text of a value without the blanks around it, when anything is left.
fn text_of_value(value: &Option<Json>) -> (result: Option<String>)
    ensures
        opt_view(result) == trimmed_text(option_view(*value)),
{
    match value {
        Some(Json::Text(text)) => {
            let text = trim(text.as_str());
            if text.as_str().is_empty() {
                None
            } else {
                Some(text)
            }
        },
        _ => None,
    }
}

/// Read an `imap`/`smtp` section, or `None` when it is not usable: a guessed port
/// is worse than no port, and the endpoint is optional anyway.
fn service_endpoint(section: &Json) -> (result: Option<ServiceEndpoint>)
    ensures
        endpoint_view(result) == endpoint_in(section@),
{
    let host = match section.text_at("host") {
        Some(host) => trim(host.as_str()),
        None => {
            return None;
        },
    };
    if host.as_str().is_empty() {
        return None;
    }
    let port: u64 = match section.uint_at("port") {
        Some(port) => port,
        None => {
            return None;
        },
    };
    if port == 0 || port > 65535 {
        return None;
    }
    let tls = match section.bool_at("tls") {
        Some(tls) => tls,
        None => false,
    };
    Some(ServiceEndpoint { host, port: port as u16, tls })
}

fn section(value: &Option<Json>) -> (result: Option<ServiceEndpoint>)
    ensures
        endpoint_view(result) == section_in(option_view(*value)),
{
    match value {
        Some(section) => service_endpoint(section),
        None => None,
    }
}

fn version_of(value: &Option<Json>) -> (result: u32)
    ensures
        result == version_in(option_view(*value)),
{
    match value {
        Some(value) => match value.as_u64() {
            Some(version) => version as u32,
            None => DEFAULT_PROTOCOL_VERSION,
        },
        None => DEFAULT_PROTOCOL_VERSION,
    }
}

/// Whether the URL parser found an absolute `http`/`https` URL with a host.
pub fn usable_url(parsed: &Result<UrlParts, String>) -> (result: bool)
    ensures
        result == usable_parts(parsed_view(*parsed)),
{
    match parsed {
        Ok(parts) => (same(parts.scheme.as_str(), "http") || same(parts.scheme.as_str(), "https"))
            && parts.host.is_some(),
        Err(_) => false,
    }
}

/// Whether `api` is a URL this client could actually talk to: an absolute
/// `http`/`https` URL with a host.
pub fn is_usable_api_url(api: &str) -> (result: bool)
    ensures
        result == usable_parts(url_read(api@)),
{
    usable_url(&parse_url(api))
}

/// Read a document; `usable` says whether its `api` is a URL that can be talked to.
pub fn discovery_from(
    domain: &str,
    document: &WellKnownDocument,
    usable: bool,
    source: DiscoverySource,
) -> (result: ClientResult<Discovery>)
    ensures
        match document_in(domain@, document@, usable, source) {
            Ok(view) => result is Ok && result->Ok_0@ == view,
            Err(message) => result matches Err(ClientError::Parse(m)) && m@ == message,
        },
{
    let api = match text_of_value(&document.api) {
        Some(api) => api,
        None => {
            return Err(
                ClientError::Parse(
                    concat3(
                        "the discovery document for ",
                        domain,
                        " has no usable `api` URL",
                    ),
                ),
            );
        },
    };
    if !usable {
        let mut message = concat3(
            "the discovery document for ",
            domain,
            " has an unusable `api` URL: ",
        );
        message.append(debug_quoted(api.as_str()).as_str());
        return Err(ClientError::Parse(message));
    }
    let protocol_version: u32 = version_of(&document.protocol_version);
    Ok(
        Discovery {
            api: trim_trailing(api.as_str(), '/'),
            imap: section(&document.imap),
            smtp: section(&document.smtp),
            web: text_of_value(&document.web),
            protocol_version,
            source,
            domain: normalise_domain(domain),
        },
    )
}

/// Parse a `200` body into a [`Discovery`], given the document that was read from it, or the
/// reader's words on why it is none.
///
/// A body that is not the document, or a document without a usable `api` URL, is
/// [`ClientError::Parse`]: the caller decides whether that is worth guessing around.
pub fn parse_document(
    domain: &str,
    document: Result<WellKnownDocument, String>,
    source: DiscoverySource,
) -> (result: ClientResult<Discovery>)
    ensures
        match body_in(domain@, read_view(document), source) {
            Ok(view) => result is Ok && result->Ok_0@ == view,
            Err(message) => result matches Err(ClientError::Parse(m)) && m@ == message,
        },
{
    let document = match document {
        Ok(document) => document,
        Err(message) => {
            let mut text = concat3(
                "the discovery document for ",
                domain,
                " was not the expected JSON: ",
            );
            text.append(message.as_str());
            return Err(ClientError::Parse(text));
        },
    };
    let usable = match text_of_value(&document.api) {
        Some(api) => is_usable_api_url(api.as_str()),
        None => false,
    };
    discovery_from(domain, &document, usable, source)
}

// -- the fetch -------------------------------------------------------------

/// The autodiscovery client, without its transport: the path it fetches, and what
/// it makes of the answer.
#[derive(Debug, Clone, PartialEq, Eq)]
pub struct Autodiscover {
    well_known_path: String,
}

impl Autodiscover {
    /// The path this client fetches.
    pub closed spec fn path(&self) -> Seq<char> {
        self.well_known_path@
    }

    /// A client that fetches [`WELL_KNOWN_PATH`].
    pub fn new() -> (result: Autodiscover)
        ensures
            result.path() == WELL_KNOWN_PATH@,
    {
        Autodiscover::with_path(WELL_KNOWN_PATH)
    }

    /// A client that fetches `path` instead, for a deployment that has to publish
    /// the record somewhere else.
    pub fn with_path(path: &str) -> (result: Autodiscover)
        ensures
            result.path() == path@,
    {
        Autodiscover { well_known_path: path.to_owned() }
    }

    /// The document path this client fetches.
    pub fn well_known_path(&self) -> (result: &str)
        ensures
            result@ == self.path(),
    {
        self.well_known_path.as_str()
    }

    /// The URL of the document below `base`, a scheme-and-host root such as
    /// `https://example.com`; a trailing `/` is ignored.
    pub fn document_url(&self, base: &str) -> (result: String)
        ensures
            result@ == without_trailing(base@, '/') + self.path(),
    {
        let mut out = trim_trailing(base, '/');
        out.append(self.well_known_path.as_str());
        out
    }

    /// What an answer to the document fetch comes to, given its body and what was read from
    /// it: the document, or why it is none, and the error envelope, if it holds one.
    ///
    /// A `404` is the documented "this domain does not publish a record" answer. Any
    /// other refusal is an error and never guesses, because "the server is down" and
    /// "there is no server" are different facts.
    pub fn discover_at(
        domain: &str,
        status: u16,
        document: Result<WellKnownDocument, String>,
        envelope: Option<Envelope>,
        body: &[u8],
    ) -> (result: ClientResult<Discovery>)
        ensures
            if status == 404 {
                result is Ok && result->Ok_0@ == guess(domain@)
            } else if 200 <= status < 300 {
                match body_in(domain@, read_view(document), DiscoverySource::WellKnown) {
                    Ok(view) => result is Ok && result->Ok_0@ == view,
                    Err(message) => result matches Err(ClientError::Parse(m)) && m@ == message,
                }
            } else {
                &&& result matches Err(ClientError::Api(api))
                &&& error_of(api, status, envelope_view(envelope), lossy_text(body@), None)
            },
    {
        if status == 404 {
            return Ok(Discovery::guessed(domain));
        }
        if !(200 <= status && status < 300) {
            return Err(ClientError::Api(ApiError::parse(status, envelope, body, None)));
        }
        parse_document(domain, document, DiscoverySource::WellKnown)
    }

    /// Where to look a domain up: the domain as it is looked up, and the root its
    /// document lies below. The fetch is HTTPS-only; a blank domain has nothing to look
    /// up.
    pub fn discover(domain: &str) -> (result: ClientResult<(String, String)>)
        ensures
            if normalised(domain@).len() == 0 {
                result matches Err(ClientError::Invalid(m)) && m@ == "autodiscovery needs a domain"@
            } else {
                &&& result is Ok
                &&& result->Ok_0.0@ == normalised(domain@)
                &&& result->Ok_0.1@ == "https://"@ + normalised(domain@)
            },
    {
        let domain = normalise_domain(domain);
        if domain.as_str().is_empty() {
            return Err(ClientError::invalid("autodiscovery needs a domain"));
        }
        let base = prefixed("https://", domain.as_str());
        Ok((domain, base))
    }
}

/// The text of an address that the address parser gets: without the blanks around it.
pub fn address_text(address: &str) -> (result: String)
    ensures
        result@ == trimmed(address@),
{
    trim(address)
}

/// The domain part of an address, for autodiscovery, given what the address parser made of
/// its [`address_text`]: its domain, or why it is no address.
///
/// `alice@Example.COM` yields `example.com`: the domain is the lookup key, and DNS is
/// case-insensitive, so it is normalised here rather than at every call site. Nothing is
/// guessed, because guessing here means discovering the wrong server.
pub fn domain_of(address: &str, parsed: Result<String, String>) -> (result: ClientResult<String>)
    ensures
        match parsed {
            Ok(domain) => result is Ok && result->Ok_0@ == lowered(domain@),
            Err(message) => result matches Err(ClientError::Invalid(m)) && m@ == debug_text(
                address@,
            ) + " is not an address: "@ + message@,
        },
{
    match parsed {
        Ok(domain) => Ok(to_lower(domain.as_str())),
        Err(message) => Err(
            ClientError::Invalid(
                concat3(
                    debug_quoted(address).as_str(),
                    " is not an address: ",
                    message.as_str(),
                ),
            ),
        ),
    }
}

// -- laws ------------------------------------------------------------------

proof fn lemma_ends_with_client(root: Seq<char>)
    requires
        finishes_with(root, "/client"@),
    ensures
        without_trailing(root, '/') == root,
{
    reveal_strlit("/client");
    let n = root.len() as int;
    assert(root.subrange(n - 7, n)[6] == 't');
    assert(root.last() == 't');
}

/// `/client` is appended exactly once: the base URL of a base URL is itself, and it
/// always ends in `/client`.
pub proof fn law_client_is_appended_once(api: Seq<char>)
    ensures
        finishes_with(client_base(api), "/client"@),
        client_base(client_base(api)) == client_base(api),
{
    let root = without_trailing(api, '/');
    let base = client_base(api);
    if !finishes_with(root, "/client"@) {
        assert(base.subrange(base.len() - "/client"@.len(), base.len() as int) =~= "/client"@);
    }
    lemma_ends_with_client(base);
}

/// Whether no character is white space.
pub open spec fn unbroken(s: Seq<char>) -> bool {
    forall|i: int| 0 <= i < s.len() ==> !is_blank(#[trigger] s[i])
}

proof fn lemma_trim_unbroken(s: Seq<char>)
    requires
        unbroken(s),
    ensures
        trimmed(s) == s,
{
    if s.len() > 0 {
        assert(!is_blank(s[0]));
        assert(!is_blank(s[s.len() - 1]));
    }
}

proof fn lemma_without_trailing_prefix(s: Seq<char>, c: char)
    ensures
        without_trailing(s, c).len() <= s.len(),
        without_trailing(s, c) == s.take(without_trailing(s, c).len() as int),
        without_trailing(without_trailing(s, c), c) == without_trailing(s, c),
    decreases s.len(),
{
    if s.len() > 0 && s.last() == c {
        lemma_without_trailing_prefix(s.drop_last(), c);
        let n = without_trailing(s, c).len() as int;
        assert(s.drop_last().take(n) =~= s.take(n));
    } else {
        assert(s.take(s.len() as int) =~= s);
    }
}

proof fn lemma_lower_without_trailing(s: Seq<char>)
    ensures
        without_trailing(lowered(s), '.') == lowered(without_trailing(s, '.')),
    decreases s.len(),
{
    if s.len() > 0 {
        assert(lowered(s).last() == lower_char(s.last()));
        assert(lowered(s).drop_last() =~= lowered(s.drop_last()));
        if s.last() == '.' {
            lemma_lower_without_trailing(s.drop_last());
        }
    }
}

/// `Mail.Example.COM.` and `mail.example.com` are one host: a trailing dot and the
/// case of the letters do not matter, and a normalised domain stays as it is.
pub proof fn law_one_host(domain: Seq<char>)
    requires
        unbroken(domain),
    ensures
        normalised(domain.push('.')) == normalised(domain),
        normalised(lowered(domain)) == normalised(domain),
        normalised(normalised(domain)) == normalised(domain),
{
    let dotted = domain.push('.');
    assert(unbroken(dotted));
    assert(unbroken(lowered(domain))) by {
        assert forall|i: int| 0 <= i < lowered(domain).len() implies !is_blank(
            #[trigger] lowered(domain)[i],
        ) by {
            assert(!is_blank(domain[i]));
        }
    }
    lemma_trim_unbroken(domain);
    lemma_trim_unbroken(dotted);
    lemma_trim_unbroken(lowered(domain));
    assert(dotted.drop_last() =~= domain);
    lemma_lower_without_trailing(domain);
    let root = without_trailing(domain, '.');
    assert(lowered(lowered(root)) =~= lowered(root));
    lemma_without_trailing_prefix(domain, '.');
    let low = lowered(root);
    assert(unbroken(low)) by {
        assert forall|i: int| 0 <= i < low.len() implies !is_blank(#[trigger] low[i]) by {
            assert(root[i] == domain[i]);
            assert(!is_blank(domain[i]));
        }
    }
    lemma_trim_unbroken(low);
    lemma_lower_without_trailing(root);
}

/// Only a `404` guesses: whatever else a server answers, the configuration is the
/// published one or there is none.
pub proof fn law_guesses_are_marked(domain: Seq<char>, document: Result<DocumentView, Seq<char>>)
    ensures
        guess(domain).source == DiscoverySource::Guessed,
        body_in(domain, document, DiscoverySource::WellKnown) matches Ok(view) ==> view.source
            == DiscoverySource::WellKnown,
{
}

/// A published configuration is taken at its word: each service from the section of its own name,
/// with the host, the port and the encryption that it states there, and the rest from the members
/// of their own names. It is for the domain that was asked about. A document is refused only for
/// its `api`.
pub proof fn law_a_document_is_taken_at_its_word(
    domain: Seq<char>,
    document: DocumentView,
    usable: bool,
    source: DiscoverySource,
)
    ensures
        ({
            let found = document_in(domain, document, usable, source);
            &&& found is Ok <==> usable && (document.api matches Some(JsonView::Text(api)) && trimmed(
                api,
            ).len() > 0)
            &&& found matches Ok(view) ==> {
                &&& document.api matches Some(JsonView::Text(api)) && view.api == without_trailing(
                    trimmed(api),
                    '/',
                )
                &&& document.imap is None ==> view.imap is None
                &&& document.imap matches Some(section) ==> view.imap == endpoint_in(section)
                &&& document.smtp is None ==> view.smtp is None
                &&& document.smtp matches Some(section) ==> view.smtp == endpoint_in(section)
                &&& document.web matches Some(JsonView::Text(web)) ==> (trimmed(web).len() > 0
                    ==> view.web == Some(trimmed(web)))
                &&& document.web is None ==> view.web is None
                &&& document.protocol_version matches Some(value) ==> (value.uint64() matches Some(
                    version,
                ) ==> (version <= u32::MAX ==> view.protocol_version == version))
                &&& document.protocol_version is None ==> view.protocol_version == 1
                &&& view.source == source
                &&& view.domain == normalised(domain)
            }
        }),
{
    if let Some(value) = document.protocol_version {
        if let Some(version) = value.uint64() {
            if version <= u32::MAX {
                let wide = version as u64;
                assert(wide <= 0xffff_ffff ==> wide as u32 == wide) by (bit_vector);
            }
        }
    }
}

/// A service is where its section says: at its host and its port, encrypted only if the section
/// says so. One without a host or without a port that can be is none.
pub proof fn law_a_service_is_where_its_section_says(section: JsonView)
    ensures
        endpoint_in(section) matches Some(endpoint) ==> {
            &&& section.member("host"@) matches Some(JsonView::Text(host)) && endpoint.host
                == trimmed(host) && endpoint.host.len() > 0
            &&& section.member_uint64("port"@) matches Some(port) && endpoint.port == port
            &&& endpoint.port > 0
            &&& endpoint.tls <==> section.member("tls"@) == Some(JsonView::Bool(true))
        },
        endpoint_in(section) is None <==> trimmed_text(section.member("host"@)) is None
            || !(section.member_uint64("port"@) matches Some(port) && 1 <= port < 65536),
{
}

/// What is assumed of a domain hangs together: everything is on a host of that domain and
/// encrypted, mail is fetched from the `imap` host and handed in at the `mail` host, which also
/// has the web pages, and the API is below those. Each service has the port that is registered for
/// it.
pub proof fn law_a_guess_hangs_together(domain: Seq<char>)
    ensures
        ({
            let view = guess(domain);
            &&& view.imap matches Some(imap) && imap.host == "imap."@ + view.domain && imap.port
                == 993 && imap.tls
            &&& view.smtp matches Some(smtp) && smtp.host == "mail."@ + view.domain && smtp.port
                == 587 && smtp.tls
            &&& view.web matches Some(web) && web == "https://"@ + view.smtp->0.host && view.api
                == web + "/api/v1"@
            &&& view.domain == normalised(domain)
        }),
{
}

// -- failures of the transport ---------------------------------------------

/// The error for a document that could not be fetched.
///
/// The distinction matters: a timeout and a refused connection are temporary and
/// the caller may retry, while a URL that cannot be used never will be.
pub fn fetch_error(url: &str, failure: TransportFailure) -> (result: ClientError)
    ensures
        match failure {
            TransportFailure::TimedOut(_) => result matches ClientError::Timeout(m) && m@ == "fetching "@
                + url@ + " timed out"@,
            TransportFailure::NotBuilt(message) => result matches ClientError::Invalid(m) && m@
                == "could not build the request for "@ + url@ + ": "@ + message@,
            TransportFailure::Broken(message) => result matches ClientError::Network(m) && m@
                == "fetching "@ + url@ + " failed: "@ + message@,
        },
{
    match failure {
        TransportFailure::TimedOut(_) => ClientError::Timeout(concat3("fetching ", url, " timed out")),
        TransportFailure::NotBuilt(message) => {
            let mut text = concat3("could not build the request for ", url, ": ");
            text.append(message.as_str());
            ClientError::Invalid(text)
        },
        TransportFailure::Broken(message) => {
            let mut text = concat3("fetching ", url, " failed: ");
            text.append(message.as_str());
            ClientError::Network(text)
        },
    }
}

} // verus!
