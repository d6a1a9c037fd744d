use ferroma_client::api::ApiError;
use ferroma_client::delay::Delay;
use ferroma_client::error::{ClientError, CoreError, FerromaError};

#[test]
fn retryable_classification_follows_fcp_section_11() {
    assert!(ClientError::Api(ApiError::new(429, "rate_limited", "slow down")).is_retryable());
    assert!(ClientError::Api(ApiError::new(503, "internal_error", "boom")).is_retryable());
    assert!(ClientError::Network("reset".into()).is_retryable());
    assert!(ClientError::Timeout("slow".into()).is_retryable());
    assert!(!ClientError::Api(ApiError::new(403, "forbidden", "no")).is_retryable());
    assert!(!ClientError::Api(ApiError::new(400, "invalid_input", "no")).is_retryable());
    assert!(!ClientError::SessionExpired.is_retryable());
    assert!(!ClientError::Conflict("x".into()).is_retryable());
}

#[test]
fn codes_and_statuses_are_stable() {
    assert_eq!(ClientError::SessionExpired.code(), "unauthorized");
    assert_eq!(ClientError::SessionExpired.api_status(), Some(401));
    assert_eq!(ClientError::RateLimited { retry_after: None }.api_status(), Some(429));
    assert_eq!(
        ClientError::Api(ApiError::new(500, "storage_error", "x")).code(),
        "storage_error"
    );
}

#[test]
fn converts_into_core_error_without_losing_the_class() {
    let err: FerromaError = ClientError::SessionExpired.into_core();
    assert!(matches!(err, FerromaError::Unauthorized(_)));
    let err: FerromaError = ClientError::Network("reset".into()).into_core();
    assert!(matches!(err, FerromaError::Network(_)));
    let err: FerromaError = ClientError::Conflict("cursor".into()).into_core();
    assert!(matches!(err, FerromaError::Conflict(_)));
}

#[test]
fn api_errors_keep_their_envelope_and_retry_after() {
    let mut api = ApiError::new(429, "rate_limited", "slow down");
    api.retry_after = Some(Delay::from_secs(7));
    let err = ClientError::Api(api);
    assert_eq!(err.retry_after(), Some(Delay::from_secs(7)));
    assert_eq!(err.user_message(), "slow down");
}

#[test]
fn user_messages_never_echo_a_token() {
    let err = ClientError::Network("connection reset".into());
    assert!(!err.user_message().contains("Bearer"));
}

#[test]
fn every_error_has_a_code_a_status_and_a_message() {
    assert_eq!(ClientError::not_found("no row").to_string(), "not found: no row");
    assert_eq!(ClientError::not_found("no row").code(), "not_found");
    assert_eq!(ClientError::not_found("no row").api_status(), Some(404));
    assert_eq!(ClientError::conflict("x").code(), "conflict");
    assert_eq!(ClientError::conflict("x").api_status(), Some(409));
    assert_eq!(ClientError::invalid("x").api_status(), Some(400));
    assert_eq!(ClientError::parse("x").api_status(), Some(400));
    assert_eq!(ClientError::network("reset").api_status(), None);
    assert_eq!(ClientError::cache("torn").code(), "storage_error");
}

#[test]
fn a_core_error_keeps_its_class() {
    let core = CoreError {
        code: "storage_error".into(),
        message: "disk full".into(),
        temporary: true,
    };
    let err = ClientError::Core(core.clone());
    assert!(err.is_retryable());
    assert_eq!(err.into_core(), FerromaError::Core(core));
}

#[test]
fn a_refusal_is_final() {
    for status in [400u16, 401, 403, 404, 409, 413, 422] {
        assert!(!ClientError::Api(ApiError::new(status, "x", "y")).is_retryable(), "{status}");
    }
}
