use ferroma_client::api::{
    check_response, client_version_string, jittered, platform_name, retry_after_of,
    status_is_retryable, transport_error, unexpected_body, version_headers, AccountInfo,
    AddressDto, ApiError, Envelope, MemoryTokenStore, MessageAction, RetryPolicy, ServerLimits,
    TransportFailure, UserRef, CLIENT_PROTOCOL_VERSION,
};
use ferroma_client::delay::Delay;
use ferroma_client::error::ClientError;
use ferroma_client::fcp::FcpClient;
use ferroma_client::json::parse_json;

/// The envelope that a transport reads from a body.
fn envelope(body: &[u8]) -> Option<Envelope> {
    let value = parse_json(std::str::from_utf8(body).ok()?).ok()?;
    let error = value.get("error")?;
    Some(Envelope {
        code: error.text_at("code")?,
        message: error.text_at("message")?,
        details: error.get("details").cloned(),
    })
}

/// The error of a body, as it is parsed when it arrives.
fn parse(status: u16, body: &[u8], retry_after: Option<Delay>) -> ApiError {
    ApiError::parse(status, envelope(body), body, retry_after)
}

fn account_info(features: Vec<String>) -> AccountInfo {
    AccountInfo {
        user: UserRef { id: 1, email: "a@b.c".into(), display_name: None },
        mailboxes: Vec::new(),
        protocol_version: ferroma_client::api::default_protocol(),
        min_protocol_version: 1,
        server_version: String::new(),
        server_hostname: String::new(),
        limits: ServerLimits::default(),
        features,
    }
}

#[test]
fn api_backoff_is_exponential_and_capped() {
    let policy = RetryPolicy {
        max_attempts: 6,
        base_delay: Delay::from_millis(10),
        max_delay: Delay::from_millis(50),
        max_retry_after: Delay::from_secs(1),
    };
    assert_eq!(policy.delay_for(1, 0), Delay::from_millis(10));
    assert_eq!(policy.delay_for(2, 0), Delay::from_millis(20));
    assert_eq!(policy.delay_for(3, 0), Delay::from_millis(40));
    assert_eq!(policy.delay_for(4, 0), Delay::from_millis(50));
    assert_eq!(policy.delay_for(9, 0), Delay::from_millis(50));
}

#[test]
fn jitter_stays_within_its_band() {
    let policy = RetryPolicy {
        base_delay: Delay::from_millis(100),
        max_delay: Delay::from_millis(1000),
        ..RetryPolicy::default()
    };
    for _ in 0..50 {
        let delay = policy.delay_for(1, 50).as_millis() as u64;
        assert!((50..=150).contains(&delay), "delay out of band: {delay}");
    }
}

#[test]
fn retry_after_clamps_a_hostile_server() {
    let policy = RetryPolicy {
        max_retry_after: Delay::from_secs(30),
        ..RetryPolicy::default()
    };
    assert_eq!(
        policy.retry_after_or(Some(Delay::from_secs(600)), 1, 0),
        Delay::from_secs(30)
    );
    assert_eq!(
        policy.retry_after_or(Some(Delay::from_secs(2)), 1, 0),
        Delay::from_secs(2)
    );
}

#[test]
fn retry_after_header_parses_or_is_ignored() {
    assert_eq!(retry_after_of(Some("7")), Some(Delay::from_secs(7)));
    assert_eq!(retry_after_of(Some("Wed, 21 Oct 2026 07:28:00 GMT")), None);
    assert_eq!(retry_after_of(None), None);
}

#[test]
fn status_classification_matches_fcp_11() {
    assert!(status_is_retryable(429));
    assert!(status_is_retryable(502));
    assert!(!status_is_retryable(403));
    assert!(!status_is_retryable(404));
}

#[test]
fn the_error_envelope_is_parsed_with_details() {
    let body = br#"{"error":{"code":"invalid_input","message":"no domain: bob","details":{"field":"to"}}}"#;
    let err = parse(400, body, None);
    assert_eq!(err.status, 400);
    assert_eq!(err.code, "invalid_input");
    assert_eq!(err.message, "no domain: bob");
    assert_eq!(
        err.details.as_ref().and_then(|d| d.get("field")).and_then(|v| v.as_str()),
        Some("to")
    );
    assert!(!err.is_retryable());
}

#[test]
fn a_malformed_error_body_still_produces_a_typed_error() {
    let err = parse(502, b"<html>bad gateway</html>", None);
    assert_eq!(err.status, 502);
    assert_eq!(err.code, "http_502");
    assert!(err.message.contains("bad gateway"));
    assert!(err.is_retryable());

    let empty = parse(500, b"", None);
    assert_eq!(empty.code, "http_500");
    assert!(empty.message.contains("empty body"));
}

#[test]
fn a_very_long_error_body_is_truncated() {
    let body = vec![b'x'; 10_000];
    let err = parse(500, &body, None);
    assert!(err.message.chars().count() < 260);
}

#[test]
fn upgrade_required_is_recognised() {
    let err = parse(
        426,
        br#"{"error":{"code":"unsupported","message":"upgrade to FCP/1"}}"#,
        None,
    );
    assert!(err.is_upgrade_required());
}

#[test]
fn base64_helper_is_standard_alphabet() {
    assert_eq!(FcpClient::encode_base64(b"abc"), "YWJj");
}

#[test]
fn account_info_feature_discovery() {
    let info = account_info(vec!["sync".into(), "drafts".into()]);
    assert!(info.supports("sync"));
    assert!(!info.supports("events"));
    assert_eq!(info.limits.sync_page_size, 500);

    let bare = account_info(Vec::new());
    assert!(bare.supports("anything"), "no features list means core only");
    assert_eq!(bare.protocol_version, CLIENT_PROTOCOL_VERSION);
}

#[test]
fn an_envelope_without_its_error_object_is_no_envelope() {
    let err = parse(400, br#"{"message":"flat"}"#, Some(Delay::from_secs(3)));
    assert_eq!(err.code, "http_400");
    assert_eq!(err.message, "HTTP 400: {\"message\":\"flat\"}");
    assert_eq!(err.retry_after, Some(Delay::from_secs(3)));

    let bytes = parse(500, &[0x66, 0x6f, 0xff, 0x6f], None);
    assert_eq!(bytes.message, "HTTP 500: fo\u{fffd}o");
}

#[test]
fn a_success_is_not_an_error_and_a_refusal_is() {
    assert!(check_response(204, None, b"", None).is_ok());
    let body = br#"{"error":{"code":"not_found","message":"no"}}"#;
    match check_response(404, envelope(body), body, None) {
        Err(api) => {
            assert_eq!(api.status, 404);
            assert_eq!(api.code, "not_found");
            assert_eq!(api.status_line(), "404 not_found: no");
            assert_eq!(api.to_string(), "HTTP 404 not_found: no");
        }
        Ok(()) => panic!("a refusal is an error"),
    }
    assert!(matches!(unexpected_body(200, "eof"), ClientError::Parse(_)));
}

#[test]
fn one_attempt_means_no_retry() {
    assert!(!RetryPolicy::none().allows(1));
    let usual = RetryPolicy::default();
    assert!(usual.allows(1) && usual.allows(3) && !usual.allows(4));
    assert_eq!(usual.base_delay_for(1), 250);
    assert_eq!(usual.base_delay_for(2), 500);
    assert_eq!(usual.base_delay_for(30), 20_000);
    // Without a header the schedule decides.
    assert_eq!(usual.retry_after_or(None, 3, 0), Delay::from_millis(1000));
}

#[test]
fn a_jittered_delay_is_an_exact_function_of_its_roll() {
    assert_eq!(jittered(100, 50, 0), 50);
    assert_eq!(jittered(100, 50, 50), 100);
    assert_eq!(jittered(100, 50, 100), 150);
    assert_eq!(jittered(100, 50, 101), 50);
    assert_eq!(jittered(100, 0, 7), 100);
    assert_eq!(jittered(10, 50, 0), 0);
}

#[test]
fn the_token_store_keeps_one_token() {
    let mut store = MemoryTokenStore::new();
    assert_eq!(store.load(), None);
    store.save("rt_1".into());
    assert_eq!(store.load().as_deref(), Some("rt_1"));
    store.clear();
    assert_eq!(store.load(), None);
    assert_eq!(MemoryTokenStore::with_token("rt_2").load().as_deref(), Some("rt_2"));
}

#[test]
fn the_version_headers_name_the_client() {
    assert_eq!(platform_name("linux"), "linux");
    assert_eq!(platform_name("plan9"), "unknown");
    assert_eq!(client_version_string(), "FerromaClient/0.1.0");
    let headers = version_headers(1, "linux", "x86_64");
    assert!(headers.contains(&("X-Ferroma-Protocol".to_string(), "1".to_string())));
    assert_eq!(AddressDto::bare("a@b.c").address, "a@b.c");
    assert_eq!(MessageAction::Trash.path_segment(), "trash");
}

#[test]
fn a_failed_transport_keeps_timeouts_apart() {
    assert_eq!(
        transport_error(TransportFailure::TimedOut("slow".into())),
        ClientError::Timeout("slow".into())
    );
    assert_eq!(
        transport_error(TransportFailure::NotBuilt("bad url".into())),
        ClientError::Invalid("bad url".into())
    );
    assert_eq!(
        transport_error(TransportFailure::Broken("reset".into())),
        ClientError::Network("reset".into())
    );
}

#[test]
fn an_envelope_is_taken_as_it_was_read() {
    let read = Envelope { code: String::new(), message: "no".into(), details: None };
    let err = ApiError::parse(400, Some(read), b"anything", Some(Delay::from_secs(1)));
    assert_eq!((err.code.as_str(), err.message.as_str()), ("", "no"));
    assert_eq!(err.details, None);
    assert_eq!(err.retry_after, Some(Delay::from_secs(1)));
    // Without one, the same bytes are an excerpt.
    let err = ApiError::parse(400, None, br#"{"error":{"message":"no"}}"#, None);
    assert_eq!(err.code, "http_400");
    assert_eq!(err.message, r#"HTTP 400: {"error":{"message":"no"}}"#);
}

#[test]
fn an_upgrade_required_error_is_surfaced_verbatim() {
    let body = br#"{"error":{"code":"unsupported","message":"client protocol 0 is no longer supported"}}"#;
    let err = check_response(426, envelope(body), body, None).expect_err("must fail");
    assert!(err.is_upgrade_required());
    assert!(err.message.contains("no longer supported"));
}

#[test]
fn a_failed_upload_surfaces_the_envelope() {
    let body = br#"{"error":{"code":"limit_exceeded","message":"too big"}}"#;
    let err = ClientError::Api(check_response(413, envelope(body), body, None).expect_err("must fail"));
    assert_eq!(err.api_status(), Some(413));
    assert_eq!(err.code(), "limit_exceeded");
}
