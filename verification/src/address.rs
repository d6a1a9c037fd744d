//! URLs, taken apart by the URL parser.

use vstd::prelude::*;

use crate::text::opt_view;

verus! {

/// The parts of a URL that the client looks at.
#[derive(Debug, Clone, PartialEq, Eq)]
pub struct UrlParts {
    /// The scheme, in lower case and without its colon.
    pub scheme: String,
    /// The host, when there is one.
    pub host: Option<String>,
    /// The port, or the one that the scheme implies.
    pub port: Option<u16>,
}

/// What [`UrlParts`] stand for.
pub struct UrlView {
    /// The scheme.
    pub scheme: Seq<char>,
    /// The host.
    pub host: Option<Seq<char>>,
    /// The port.
    pub port: Option<u16>,
}

impl UrlParts {
    /// What the parts stand for.
    pub open spec fn view(&self) -> UrlView {
        UrlView { scheme: self.scheme@, host: opt_view(self.host), port: self.port }
    }
}

/// The view of what the URL parser made of a text.
pub open spec fn parsed_view(parsed: Result<UrlParts, String>) -> Result<UrlView, Seq<char>> {
    match parsed {
        Ok(parts) => Ok(parts@),
        Err(message) => Err(message@),
    }
}

/// What the URL parser makes of a text: the parts, or its message on why the text
/// is no URL.
pub uninterp spec fn url_read(text: Seq<char>) -> Result<UrlView, Seq<char>>;

/// `url::Url::parse`, with the scheme, the host and the port (or the scheme's own)
/// that the `Url` reports; what it makes of a text is called [`url_read`], and the
/// message of its error is the error's `Display`.
#[verifier::external_body]
fn split_url(text: &str) -> (result: Result<UrlParts, String>)
    ensures
        parsed_view(result) == url_read(text@),
{
    let parsed = url::Url::parse(text).map_err(|e| e.to_string())?;
    Ok(
        UrlParts {
            scheme: parsed.scheme().to_string(),
            host: parsed.host_str().map(|host| host.to_string()),
            port: parsed.port_or_known_default(),
        },
    )
}

/// Take a URL apart.
pub fn parse_url(text: &str) -> (result: Result<UrlParts, String>)
    ensures
        parsed_view(result) == url_read(text@),
{
    split_url(text)
}

} // verus!
