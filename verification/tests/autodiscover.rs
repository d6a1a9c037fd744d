use ferroma_client::api::{Envelope, TransportFailure};
use ferroma_client::autodiscover::{
    address_text, discovery_from, domain_of, fetch_error, is_usable_api_url, normalise_domain,
    parse_document, Autodiscover, Discovery, DiscoverySource, ServiceEndpoint, WellKnownDocument,
    DEFAULT_PROTOCOL_VERSION,
};
use ferroma_client::error::{ClientError, ClientResult};
use ferroma_client::json::{parse_json, Json};

const DOCUMENT: &[u8] = br#"{
    "api": "https://mail.example.com/api/v1",
    "imap": { "host": "mail.example.com", "port": 993, "tls": true },
    "smtp": { "host": "mail.example.com", "port": 587, "tls": true },
    "web": "https://mail.example.com",
    "protocol_version": 1
}"#;

/// The document that a transport reads from a body.
fn document(body: &[u8]) -> Result<WellKnownDocument, String> {
    let value = parse_json(std::str::from_utf8(body).map_err(|err| err.to_string())?)?;
    let field = |key: &str| value.get(key).filter(|value| **value != Json::Null).cloned();
    Ok(WellKnownDocument {
        api: field("api"),
        imap: field("imap"),
        smtp: field("smtp"),
        web: field("web"),
        protocol_version: field("protocol_version"),
    })
}

/// What an answer with this body comes to.
fn discover_at(domain: &str, status: u16, body: &[u8]) -> ClientResult<Discovery> {
    let error = std::str::from_utf8(body).ok().and_then(|text| parse_json(text).ok());
    let envelope = error.as_ref().and_then(|value| value.get("error")).map(|error| Envelope {
        code: error.text_at("code").unwrap_or_default(),
        message: error.text_at("message").unwrap_or_default(),
        details: None,
    });
    Autodiscover::discover_at(domain, status, document(body), envelope, body)
}

fn endpoint(host: &str, port: u16) -> Option<ServiceEndpoint> {
    Some(ServiceEndpoint { host: host.to_string(), port, tls: true })
}

#[test]
fn a_published_document_is_used_field_for_field() {
    let discovery = discover_at("example.com", 200, DOCUMENT).expect("discovery");
    assert_eq!(discovery.api, "https://mail.example.com/api/v1");
    assert_eq!(discovery.imap, endpoint("mail.example.com", 993));
    assert_eq!(discovery.smtp, endpoint("mail.example.com", 587));
    assert_eq!(discovery.web.as_deref(), Some("https://mail.example.com"));
    assert_eq!(discovery.protocol_version, 1);
    assert_eq!(discovery.source, DiscoverySource::WellKnown);
    assert_eq!(discovery.domain, "example.com");
    assert_eq!(discovery.source.as_str(), "well_known");
}

#[test]
fn the_document_is_fetched_from_the_well_known_path() {
    assert_eq!(
        Autodiscover::new().document_url("https://example.com/"),
        "https://example.com/.well-known/ferroma"
    );
    // A client with a custom path asks for exactly that path.
    let custom = Autodiscover::with_path("/.well-known/ferroma.json");
    assert_eq!(custom.well_known_path(), "/.well-known/ferroma.json");
}

#[test]
fn a_404_falls_back_to_the_conventional_hostnames() {
    let discovery = discover_at("example.com", 404, b"").expect("the documented fallback");
    assert_eq!(discovery.source, DiscoverySource::Guessed);
    assert_eq!(discovery.domain, "example.com");
    assert_eq!(discovery.api, "https://mail.example.com/api/v1");
    assert_eq!(discovery.imap, endpoint("imap.example.com", 993));
    assert_eq!(discovery.smtp, endpoint("mail.example.com", 587));
    assert_eq!(discovery.web.as_deref(), Some("https://mail.example.com"));
    assert_eq!(discovery.protocol_version, 1);
}

#[test]
fn a_404_envelope_also_falls_back() {
    let body = br#"{"error":{"code":"not_found","message":"no record"}}"#;
    let discovery = discover_at("example.com", 404, body).expect("discovery");
    assert_eq!(discovery, Discovery::guessed("example.com"));
}

#[test]
fn a_malformed_body_is_a_parse_error_and_does_not_guess() {
    let err = discover_at("example.com", 200, b"{ this is not json").expect_err("no guess");
    assert!(matches!(err, ClientError::Parse(_)), "{err:?}");
    assert_eq!(err.api_status(), Some(400));
}

#[test]
fn json_without_an_api_url_is_a_parse_error() {
    let body = br#"{"imap":{"host":"mail.example.com","port":993,"tls":true}}"#;
    match discover_at("example.com", 200, body) {
        Err(ClientError::Parse(message)) => assert_eq!(
            message,
            "the discovery document for example.com has no usable `api` URL"
        ),
        other => panic!("unexpected {other:?}"),
    }
}

#[test]
fn an_api_url_without_a_scheme_is_a_parse_error() {
    let body = br#"{"api":"mail.example.com/api/v1"}"#;
    match discover_at("example.com", 200, body) {
        Err(ClientError::Parse(message)) => assert_eq!(
            message,
            "the discovery document for example.com has an unusable `api` URL: \"mail.example.com/api/v1\""
        ),
        other => panic!("unexpected {other:?}"),
    }
    assert!(!is_usable_api_url("mail.example.com/api/v1"));
    assert!(!is_usable_api_url(""));
    assert!(!is_usable_api_url("ftp://mail.example.com"));
    assert!(is_usable_api_url("https://mail.example.com/api/v1"));
    assert!(is_usable_api_url("http://127.0.0.1:8080/api/v1"));
}

#[test]
fn a_server_error_is_an_error_and_does_not_guess() {
    let body = br#"{"error":{"code":"internal_error","message":"boom"}}"#;
    let err = discover_at("example.com", 500, body).expect_err("we could not ask");
    assert!(matches!(&err, ClientError::Api(api) if api.status == 500), "{err:?}");
    // A 5xx is temporary; the caller may retry the very same request.
    assert!(err.is_retryable());
}

#[test]
fn a_body_without_the_optional_sections_still_parses() {
    let body = br#"{"api":"https://mail.example.com/api/v1"}"#;
    let discovery = discover_at("example.com", 200, body).expect("discovery");
    assert_eq!(discovery.api, "https://mail.example.com/api/v1");
    assert_eq!(discovery.imap, None);
    assert_eq!(discovery.smtp, None);
    assert_eq!(discovery.web, None);
    assert_eq!(discovery.protocol_version, DEFAULT_PROTOCOL_VERSION);
    assert_eq!(discovery.source, DiscoverySource::WellKnown);
}

#[test]
fn null_and_unusable_optional_sections_become_none() {
    let body = br#"{"api":"https://mail.example.com/api/v1","imap":null,
        "smtp":{"host":"mail.example.com","port":99999,"tls":true},
        "web":123,"protocol_version":"one"}"#;
    let discovery = discover_at("example.com", 200, body).expect("almost right is usable");
    assert_eq!(discovery.imap, None);
    assert_eq!(discovery.smtp, None);
    assert_eq!(discovery.web, None);
    assert_eq!(discovery.protocol_version, DEFAULT_PROTOCOL_VERSION);
}

#[test]
fn a_trailing_slash_on_the_api_url_is_normalised() {
    let body = br#"{"api":"https://mail.example.com/api/v1/"}"#;
    let discovery = parse_document("example.com", document(body), DiscoverySource::WellKnown).expect("document");
    assert_eq!(discovery.api, "https://mail.example.com/api/v1");
    assert_eq!(discovery.fcp_base_url(), "https://mail.example.com/api/v1/client");
}

#[test]
fn fcp_base_url_appends_client_exactly_once() {
    let mut discovery = Discovery::guessed("example.com");
    assert_eq!(discovery.fcp_base_url(), "https://mail.example.com/api/v1/client");

    discovery.api = "https://mail.example.com/api/v1/client".to_string();
    assert_eq!(discovery.fcp_base_url(), "https://mail.example.com/api/v1/client");

    discovery.api = "https://mail.example.com/api/v1/client/".to_string();
    assert_eq!(discovery.fcp_base_url(), "https://mail.example.com/api/v1/client");
}

#[test]
fn guessed_uses_the_documented_hostnames() {
    let discovery = Discovery::guessed("example.com");
    assert_eq!(discovery.api, "https://mail.example.com/api/v1");
    assert_eq!(discovery.web.as_deref(), Some("https://mail.example.com"));
    assert_eq!(discovery.protocol_version, 1);
    assert_eq!(discovery.source, DiscoverySource::Guessed);
    assert_eq!(discovery.domain, "example.com");
    assert_eq!(discovery.source.as_str(), "guessed");

    // `Mail.Example.COM.` and `mail.example.com` are one host.
    assert_eq!(
        Discovery::guessed(" Mail.Example.COM. "),
        Discovery::guessed("mail.example.com")
    );
}

#[test]
fn candidate_hosts_are_ordered_mail_then_imap_then_the_domain() {
    assert_eq!(
        Discovery::candidate_hosts("example.com"),
        vec![
            "mail.example.com".to_string(),
            "imap.example.com".to_string(),
            "example.com".to_string(),
        ]
    );
    assert_eq!(
        Discovery::candidate_hosts(" Example.COM. "),
        Discovery::candidate_hosts("example.com")
    );
}

#[test]
fn a_domain_is_normalised_once() {
    assert_eq!(normalise_domain("EXAMPLE.com.."), "example.com");
    assert_eq!(normalise_domain(&normalise_domain("EXAMPLE.com..")), "example.com");
    assert_eq!(normalise_domain("\u{dc}ml.EX"), "\u{dc}ml.ex", "only ASCII letters change");
}

#[test]
fn domain_of_takes_what_the_parser_found() {
    let parsed: Result<String, String> = Ok("example.com".into());
    assert_eq!(domain_of("alice@example.com", parsed).expect("domain"), "example.com");
    // The parser gets the address without its blanks; the domain is in lower case.
    assert_eq!(address_text("  Bob@Mail.Example.COM  "), "Bob@Mail.Example.COM");
    assert_eq!(
        domain_of("  Bob@Mail.Example.COM  ", Ok("Mail.Example.COM".into())).expect("domain"),
        "mail.example.com"
    );
    match domain_of("alice", Err("no @".into())) {
        Err(ClientError::Invalid(message)) => {
            assert_eq!(message, "\"alice\" is not an address: no @");
        }
        other => panic!("unexpected {other:?}"),
    }
}

#[test]
fn discover_rejects_an_empty_domain_before_it_dials() {
    let err = Autodiscover::discover("   ").expect_err("an empty domain has nothing to look up");
    assert!(matches!(err, ClientError::Invalid(_)), "{err:?}");
    assert!(Autodiscover::discover(" . ").is_err());
    assert_eq!(
        Autodiscover::discover(" Example.com. ").expect("lookup"),
        ("example.com".to_string(), "https://example.com".to_string())
    );
}

#[test]
fn usability_is_decided_apart_from_the_document() {
    let document = document(br#"{"api":" ftp://x/ ","imap":{"host":" h ","port":1}}"#).expect("json");
    let used = discovery_from("X.", &document, true, DiscoverySource::WellKnown).expect("used");
    assert_eq!(used.api, "ftp://x");
    assert_eq!(used.domain, "x");
    assert_eq!(used.imap, Some(ServiceEndpoint { host: "h".into(), port: 1, tls: false }));
    assert!(discovery_from("X.", &document, false, DiscoverySource::WellKnown).is_err());
}

#[test]
fn a_failed_fetch_says_what_was_fetched() {
    let url = "https://example.com/.well-known/ferroma";
    let timeout = fetch_error(url, TransportFailure::TimedOut("slow".into()));
    assert_eq!(
        timeout,
        ClientError::Timeout("fetching https://example.com/.well-known/ferroma timed out".into())
    );
    assert!(timeout.is_retryable());
    let broken = fetch_error(url, TransportFailure::Broken("refused".into()));
    assert!(broken.is_retryable());
    let unbuilt = fetch_error("x", TransportFailure::NotBuilt("no host".into()));
    assert_eq!(
        unbuilt,
        ClientError::Invalid("could not build the request for x: no host".into())
    );
    assert!(!unbuilt.is_retryable());
}

#[test]
fn a_body_that_is_no_document_is_refused_in_the_readers_words() {
    let words = "duplicate field `api` at line 1 column 9".to_string();
    match parse_document("Example.com", Err(words), DiscoverySource::WellKnown) {
        Err(ClientError::Parse(message)) => assert_eq!(
            message,
            "the discovery document for Example.com was not the expected JSON: \
             duplicate field `api` at line 1 column 9"
        ),
        other => panic!("unexpected {other:?}"),
    }
    // An error is read from the body, whether or not that is a document.
    let err = discover_at("example.com", 503, DOCUMENT).expect_err("an error");
    assert_eq!(err.code(), "http_503");
}
