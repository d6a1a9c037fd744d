//! The client's error type.

use vstd::prelude::*;

use crate::api::ApiError;
use crate::delay::Delay;

verus! {

/// The client's result alias.
pub type ClientResult<T> = Result<T, ClientError>;

/// A failure of the platform core, as the client sees it.
#[derive(Debug, Clone, PartialEq, Eq)]
pub struct CoreError {
    /// The stable machine-readable code.
    pub code: String,
    /// The human-readable message.
    pub message: String,
    /// Whether the core calls the failure temporary.
    pub temporary: bool,
}

/// Everything the client core can fail with.
#[derive(Debug, Clone, PartialEq, Eq)]
pub enum ClientError {
    /// The server answered with the documented error envelope.
    Api(ApiError),
    /// A refresh was attempted and the server refused the credentials again:
    /// the user must sign in again; the local cache is kept.
    SessionExpired,
    /// An authenticated request was made before any token was available.
    NotAuthenticated,
    /// A local cache database failure, in words.
    Database(String),
    /// The local cache is structurally unusable.
    Cache(String),
    /// A file system failure, in words.
    Io(String),
    /// A transport failure that never produced a structured server error.
    Network(String),
    /// A request exceeded its deadline.
    Timeout(String),
    /// The server (or the local cache) sent something that could not be parsed.
    Parse(String),
    /// A state precondition was violated.
    Conflict(String),
    /// The caller supplied invalid input.
    Invalid(String),
    /// The server does not implement the capability.
    Unsupported(String),
    /// The entity does not exist or is not cached locally.
    NotFound(String),
    /// The realtime socket failed.
    WebSocket(String),
    /// The server asked the client to slow down.
    RateLimited {
        /// The wait the server asked for, if it sent `Retry-After`.
        retry_after: Option<Delay>,
    },
    /// A failure of the platform core, surfaced unchanged.
    Core(CoreError),
}

/// The platform-wide error vocabulary that a [`ClientError`] turns into at the
/// boundary.
#[derive(Debug, Clone, PartialEq, Eq)]
pub enum FerromaError {
    /// A failure of the core itself, handed back unchanged.
    Core(CoreError),
    /// Storage failed.
    Storage(String),
    /// The file system failed.
    Io(String),
    /// The peer answered with a protocol-level error.
    Protocol(String),
    /// The credentials were refused.
    Unauthorized(String),
    /// The transport failed.
    Network(String),
    /// A deadline passed.
    Timeout(String),
    /// Something could not be parsed.
    Parse(String),
    /// A state precondition was violated.
    Conflict(String),
    /// The input was invalid.
    Invalid(String),
    /// The capability is missing.
    Unsupported(String),
    /// The entity does not exist.
    NotFound(String),
    /// The peer asked to slow down.
    RateLimited,
}

/// Whether repeating the identical request later could plausibly succeed: `429`,
/// every `5xx`, transport failures, and what the core calls temporary.
pub open spec fn retryable(error: ClientError) -> bool {
    match error {
        ClientError::Api(api) => crate::api::retryable_status(api.status),
        ClientError::Network(_) => true,
        ClientError::Timeout(_) => true,
        ClientError::RateLimited { .. } => true,
        ClientError::WebSocket(_) => true,
        ClientError::Core(core) => core.temporary,
        _ => false,
    }
}

/// The HTTP status behind an error, when it has one.
pub open spec fn status_of(error: ClientError) -> Option<u16> {
    match error {
        ClientError::Api(api) => Some(api.status),
        ClientError::SessionExpired => Some(401u16),
        ClientError::NotAuthenticated => Some(401u16),
        ClientError::Conflict(_) => Some(409u16),
        ClientError::Unsupported(_) => Some(501u16),
        ClientError::NotFound(_) => Some(404u16),
        ClientError::Invalid(_) => Some(400u16),
        ClientError::Parse(_) => Some(400u16),
        ClientError::RateLimited { .. } => Some(429u16),
        _ => None,
    }
}

/// The stable machine-readable code of an error.
pub open spec fn code_of(error: ClientError) -> Seq<char> {
    match error {
        ClientError::Api(api) => api.code@,
        ClientError::SessionExpired => "unauthorized"@,
        ClientError::NotAuthenticated => "unauthorized"@,
        ClientError::Database(_) => "storage_error"@,
        ClientError::Cache(_) => "storage_error"@,
        ClientError::Io(_) => "io_error"@,
        ClientError::Network(_) => "network_error"@,
        ClientError::Timeout(_) => "timeout"@,
        ClientError::Parse(_) => "parse_error"@,
        ClientError::Conflict(_) => "conflict"@,
        ClientError::Invalid(_) => "invalid_input"@,
        ClientError::Unsupported(_) => "unsupported"@,
        ClientError::NotFound(_) => "not_found"@,
        ClientError::WebSocket(_) => "network_error"@,
        ClientError::RateLimited { .. } => "rate_limited"@,
        ClientError::Core(core) => core.code@,
    }
}

/// The message of an error.
pub open spec fn message_of(error: ClientError) -> Seq<char> {
    match error {
        ClientError::Api(api) => crate::api::api_error_text(api.status, api.code@, api.message@),
        ClientError::SessionExpired =>
            "session expired: the server rejected the refreshed credentials; sign in again"@,
        ClientError::NotAuthenticated => "not signed in"@,
        ClientError::Database(m) => "cache database error: "@ + m@,
        ClientError::Cache(m) => "cache error: "@ + m@,
        ClientError::Io(m) => "i/o error: "@ + m@,
        ClientError::Network(m) => "network error: "@ + m@,
        ClientError::Timeout(m) => "timeout: "@ + m@,
        ClientError::Parse(m) => "parse error: "@ + m@,
        ClientError::Conflict(m) => "conflict: "@ + m@,
        ClientError::Invalid(m) => "invalid input: "@ + m@,
        ClientError::Unsupported(m) => "unsupported: "@ + m@,
        ClientError::NotFound(m) => "not found: "@ + m@,
        ClientError::WebSocket(m) => "realtime socket error: "@ + m@,
        ClientError::RateLimited { .. } => "rate limited"@,
        ClientError::Core(core) => core.message@,
    }
}

/// The wait that an error carries.
pub open spec fn wait_of(error: ClientError) -> Option<Delay> {
    match error {
        ClientError::Api(api) => api.retry_after,
        ClientError::RateLimited { retry_after } => retry_after,
        _ => None,
    }
}

/// `prefix` followed by `rest`.
fn labelled(prefix: &str, rest: &str) -> (result: String)
    ensures
        result@ == prefix@ + rest@,
{
    let mut out = prefix.to_owned();
    out.append(rest);
    out
}

impl ClientError {
    /// Whether retrying the identical request later could plausibly succeed:
    /// `429`, every `5xx`, and transport failures.
    ///
    /// Every other `4xx` is permanent, so the caller must surface it instead.
    pub fn is_retryable(&self) -> (result: bool)
        ensures
            result == retryable(*self),
    {
        match self {
            ClientError::Api(api) => api.is_retryable(),
            ClientError::Network(_) => true,
            ClientError::Timeout(_) => true,
            ClientError::RateLimited { .. } => true,
            ClientError::WebSocket(_) => true,
            ClientError::Core(core) => core.temporary,
            _ => false,
        }
    }

    /// The HTTP status behind this error, when it came from the wire.
    pub fn api_status(&self) -> (result: Option<u16>)
        ensures
            result == status_of(*self),
    {
        match self {
            ClientError::Api(api) => Some(api.status),
            ClientError::SessionExpired => Some(401),
            ClientError::NotAuthenticated => Some(401),
            ClientError::Conflict(_) => Some(409),
            ClientError::Unsupported(_) => Some(501),
            ClientError::NotFound(_) => Some(404),
            ClientError::Invalid(_) => Some(400),
            ClientError::Parse(_) => Some(400),
            ClientError::RateLimited { .. } => Some(429),
            _ => None,
        }
    }

    /// The stable machine-readable code.
    pub fn code(&self) -> (result: &str)
        ensures
            result@ == code_of(*self),
    {
        match self {
            ClientError::Api(api) => api.code.as_str(),
            ClientError::SessionExpired => "unauthorized",
            ClientError::NotAuthenticated => "unauthorized",
            ClientError::Database(_) => "storage_error",
            ClientError::Cache(_) => "storage_error",
            ClientError::Io(_) => "io_error",
            ClientError::Network(_) => "network_error",
            ClientError::Timeout(_) => "timeout",
            ClientError::Parse(_) => "parse_error",
            ClientError::Conflict(_) => "conflict",
            ClientError::Invalid(_) => "invalid_input",
            ClientError::Unsupported(_) => "unsupported",
            ClientError::NotFound(_) => "not_found",
            ClientError::WebSocket(_) => "network_error",
            ClientError::RateLimited { .. } => "rate_limited",
            ClientError::Core(core) => core.code.as_str(),
        }
    }

    /// The whole message, for a log or a terminal.
    pub fn to_string(&self) -> (result: String)
        ensures
            result@ == message_of(*self),
    {
        match self {
            ClientError::Api(api) => api.to_string(),
            ClientError::SessionExpired =>
                "session expired: the server rejected the refreshed credentials; sign in again".to_owned(),
            ClientError::NotAuthenticated => "not signed in".to_owned(),
            ClientError::Database(m) => labelled("cache database error: ", m.as_str()),
            ClientError::Cache(m) => labelled("cache error: ", m.as_str()),
            ClientError::Io(m) => labelled("i/o error: ", m.as_str()),
            ClientError::Network(m) => labelled("network error: ", m.as_str()),
            ClientError::Timeout(m) => labelled("timeout: ", m.as_str()),
            ClientError::Parse(m) => labelled("parse error: ", m.as_str()),
            ClientError::Conflict(m) => labelled("conflict: ", m.as_str()),
            ClientError::Invalid(m) => labelled("invalid input: ", m.as_str()),
            ClientError::Unsupported(m) => labelled("unsupported: ", m.as_str()),
            ClientError::NotFound(m) => labelled("not found: ", m.as_str()),
            ClientError::WebSocket(m) => labelled("realtime socket error: ", m.as_str()),
            ClientError::RateLimited { .. } => "rate limited".to_owned(),
            ClientError::Core(core) => core.message.clone(),
        }
    }

    /// A short message to show the user.
    pub fn user_message(&self) -> (result: String)
        ensures
            result@ == match *self {
                ClientError::Api(api) => api.message@,
                _ => message_of(*self),
            },
    {
        match self {
            ClientError::Api(api) => api.message.clone(),
            _ => self.to_string(),
        }
    }

    /// Build a [`ClientError::Cache`].
    pub fn cache(msg: &str) -> (result: ClientError)
        ensures
            result matches ClientError::Cache(m) && m@ == msg@,
    {
        ClientError::Cache(msg.to_owned())
    }

    /// Build a [`ClientError::Parse`].
    pub fn parse(msg: &str) -> (result: ClientError)
        ensures
            result matches ClientError::Parse(m) && m@ == msg@,
    {
        ClientError::Parse(msg.to_owned())
    }

    /// Build a [`ClientError::Invalid`].
    pub fn invalid(msg: &str) -> (result: ClientError)
        ensures
            result matches ClientError::Invalid(m) && m@ == msg@,
    {
        ClientError::Invalid(msg.to_owned())
    }

    /// Build a [`ClientError::Conflict`].
    pub fn conflict(msg: &str) -> (result: ClientError)
        ensures
            result matches ClientError::Conflict(m) && m@ == msg@,
    {
        ClientError::Conflict(msg.to_owned())
    }

    /// Build a [`ClientError::NotFound`].
    pub fn not_found(msg: &str) -> (result: ClientError)
        ensures
            result matches ClientError::NotFound(m) && m@ == msg@,
    {
        ClientError::NotFound(msg.to_owned())
    }

    /// Build a [`ClientError::Network`].
    pub fn network(msg: &str) -> (result: ClientError)
        ensures
            result matches ClientError::Network(m) && m@ == msg@,
    {
        ClientError::Network(msg.to_owned())
    }

    /// The time a `429` asked the client to wait, if this error carries one.
    pub fn retry_after(&self) -> (result: Option<Delay>)
        ensures
            result == wait_of(*self),
    {
        match self {
            ClientError::Api(api) => api.retry_after,
            ClientError::RateLimited { retry_after } => *retry_after,
            _ => None,
        }
    }

    /// The error in the platform-wide vocabulary.
    pub fn into_core(self) -> (result: FerromaError)
        ensures
            match self {
                ClientError::Core(core) => result == FerromaError::Core(core),
                ClientError::Database(m) => result == FerromaError::Storage(m),
                ClientError::Io(m) => result == FerromaError::Io(m),
                ClientError::Api(api) => result matches FerromaError::Protocol(m) && m@
                    == crate::api::status_line(api.status, api.code@, api.message@),
                ClientError::SessionExpired => result matches FerromaError::Unauthorized(m) && m@
                    == "session expired"@,
                ClientError::NotAuthenticated => result matches FerromaError::Unauthorized(m) && m@
                    == "session expired"@,
                ClientError::Cache(m) => result == FerromaError::Storage(m),
                ClientError::Network(m) => result == FerromaError::Network(m),
                ClientError::Timeout(m) => result == FerromaError::Timeout(m),
                ClientError::Parse(m) => result == FerromaError::Parse(m),
                ClientError::Conflict(m) => result == FerromaError::Conflict(m),
                ClientError::Invalid(m) => result == FerromaError::Invalid(m),
                ClientError::Unsupported(m) => result == FerromaError::Unsupported(m),
                ClientError::NotFound(m) => result == FerromaError::NotFound(m),
                ClientError::WebSocket(m) => result == FerromaError::Network(m),
                ClientError::RateLimited { .. } => result == FerromaError::RateLimited,
            },
            own(self) && retryable(self) <==> result is Network || result is Timeout || result
                is RateLimited,
            own(self) && status_of(self) == Some(401u16) <==> result is Unauthorized,
            self is Database || self is Cache <==> result is Storage,
    {
        proof {
            if own(self) {
                law_codes_statuses_and_retries_agree(self);
            }
        }
        match self {
            ClientError::Core(core) => FerromaError::Core(core),
            ClientError::Database(m) => FerromaError::Storage(m),
            ClientError::Io(m) => FerromaError::Io(m),
            ClientError::Api(api) => FerromaError::Protocol(api.status_line()),
            ClientError::SessionExpired => FerromaError::Unauthorized("session expired".to_owned()),
            ClientError::NotAuthenticated => FerromaError::Unauthorized(
                "session expired".to_owned(),
            ),
            ClientError::Cache(m) => FerromaError::Storage(m),
            ClientError::Network(m) => FerromaError::Network(m),
            ClientError::Timeout(m) => FerromaError::Timeout(m),
            ClientError::Parse(m) => FerromaError::Parse(m),
            ClientError::Conflict(m) => FerromaError::Conflict(m),
            ClientError::Invalid(m) => FerromaError::Invalid(m),
            ClientError::Unsupported(m) => FerromaError::Unsupported(m),
            ClientError::NotFound(m) => FerromaError::NotFound(m),
            ClientError::WebSocket(m) => FerromaError::Network(m),
            ClientError::RateLimited { .. } => FerromaError::RateLimited,
        }
    }

    /// The error for JSON that could not be read, with `serde_json`'s message.
    pub fn json(message: &str) -> (result: ClientError)
        ensures
            result matches ClientError::Parse(m) && m@ == "json: "@ + message@,
    {
        ClientError::Parse(labelled("json: ", message))
    }
}

/// A refusal is final: no error with a `4xx` status other than `429` is
/// retryable, while every server error envelope with `429` or `5xx` is.
pub proof fn law_refusals_are_final(error: ClientError)
    ensures
        match status_of(error) {
            Some(status) => 400 <= status < 500 && status != 429 ==> !retryable(error),
            None => true,
        },
        error matches ClientError::Api(api) ==> (retryable(error) <==> api.status == 429 || 500
            <= api.status < 600),
{
}

/// Whether an error is the client's own, not one that the server or the core put in words.
pub open spec fn own(error: ClientError) -> bool {
    !(error is Api) && !(error is Core)
}

/// The code, the status and the verdict on a retry agree. Of the client's own errors those may
/// pass whose code speaks of the way to the server: the network, a deadline, or a request to slow
/// down. Each status stands for the code that the protocol gives it, and an error without a
/// status never reached the server's judgement.
pub proof fn law_codes_statuses_and_retries_agree(error: ClientError)
    requires
        own(error),
    ensures
        ({
            let code = code_of(error);
            let status = status_of(error);
            &&& retryable(error) <==> code == "network_error"@ || code == "timeout"@ || code
                == "rate_limited"@
            &&& status == Some(401u16) <==> code == "unauthorized"@
            &&& status == Some(404u16) <==> code == "not_found"@
            &&& status == Some(409u16) <==> code == "conflict"@
            &&& status == Some(429u16) <==> code == "rate_limited"@
            &&& status == Some(501u16) <==> code == "unsupported"@
            &&& status == Some(400u16) <==> code == "invalid_input"@ || code == "parse_error"@
            &&& status is None <==> code == "storage_error"@ || code == "io_error"@ || code
                == "network_error"@ || code == "timeout"@
        }),
        wait_of(error) is Some ==> retryable(error),
        code_of(error) == "storage_error"@ <==> error is Database || error is Cache,
        code_of(error) == "io_error"@ <==> error is Io,
        code_of(error) == "timeout"@ <==> error is Timeout,
        code_of(error) == "parse_error"@ <==> error is Parse,
        code_of(error) == "network_error"@ <==> error is Network || error is WebSocket,
{
    reveal_strlit("unauthorized");
    reveal_strlit("storage_error");
    reveal_strlit("io_error");
    reveal_strlit("network_error");
    reveal_strlit("timeout");
    reveal_strlit("parse_error");
    reveal_strlit("conflict");
    reveal_strlit("invalid_input");
    reveal_strlit("unsupported");
    reveal_strlit("not_found");
    reveal_strlit("rate_limited");
    assert("unauthorized"@.len() == 12 && "storage_error"@.len() == 13 && "io_error"@.len() == 8);
    assert("network_error"@.len() == 13 && "timeout"@.len() == 7 && "parse_error"@.len() == 11);
    assert("conflict"@.len() == 8 && "invalid_input"@.len() == 13 && "unsupported"@.len() == 11);
    assert("not_found"@.len() == 9 && "rate_limited"@.len() == 12);
    assert("unauthorized"@[0] == 'u' && "rate_limited"@[0] == 'r');
    assert("storage_error"@[0] == 's' && "network_error"@[0] == 'n' && "invalid_input"@[0] == 'i');
    assert("io_error"@[0] == 'i' && "conflict"@[0] == 'c');
    assert("parse_error"@[0] == 'p' && "unsupported"@[0] == 'u');
}

/// What an error says in words is never lost: whoever made the error finds their words at the
/// end of its message, after the name of the trouble.
pub proof fn law_messages_keep_the_words(error: ClientError)
    ensures
        match error {
            ClientError::Database(m) | ClientError::Cache(m) | ClientError::Io(m)
            | ClientError::Network(m) | ClientError::Timeout(m) | ClientError::Parse(m)
            | ClientError::Conflict(m) | ClientError::Invalid(m) | ClientError::Unsupported(m)
            | ClientError::NotFound(m) | ClientError::WebSocket(m) => {
                &&& m@.len() < message_of(error).len()
                &&& message_of(error).skip(message_of(error).len() - m@.len()) == m@
            },
            _ => true,
        },
{
    reveal_strlit("cache database error: ");
    reveal_strlit("cache error: ");
    reveal_strlit("i/o error: ");
    reveal_strlit("network error: ");
    reveal_strlit("timeout: ");
    reveal_strlit("parse error: ");
    reveal_strlit("conflict: ");
    reveal_strlit("invalid input: ");
    reveal_strlit("unsupported: ");
    reveal_strlit("not found: ");
    reveal_strlit("realtime socket error: ");
}

} // verus!
