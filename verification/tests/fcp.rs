use ferroma_client::api::{
    ApiError, DraftPayload, MessageAction, MessagePatch, RefreshResponse, RetryPolicy, SendRequest,
};
use ferroma_client::delay::Delay;
use ferroma_client::error::ClientError;
use ferroma_client::fcp::{
    draft_list, etag_digest, logout_outcome, refresh_outcome, DraftList, Exchange, FcpClient,
    Method, Preparation, RefreshOutcome, RequestSpec, Step,
};
use ferroma_client::json::{parse_json, Json};

const SECOND: i128 = 1_000_000_000;

fn client() -> FcpClient {
    FcpClient::new("https://mail.example.com/api/v1/client//")
}

fn policy(max_attempts: u32) -> RetryPolicy {
    RetryPolicy {
        max_attempts,
        base_delay: Delay::from_millis(1),
        max_delay: Delay::from_millis(5),
        max_retry_after: Delay::from_secs(5),
    }
}

fn pair(key: &str, value: &str) -> (String, String) {
    (key.to_string(), value.to_string())
}

#[test]
fn a_401_triggers_one_refresh_and_then_succeeds() {
    let mut exchange = Exchange::start(policy(3), true);
    assert_eq!(exchange.on_answer(401, None), Step::Refresh);
    assert_eq!(exchange.on_refresh(Ok(())), Step::Send);
    assert_eq!(exchange.on_answer(200, None), Step::Deliver);
}

#[test]
fn a_second_401_gives_up_with_session_expired() {
    let mut exchange = Exchange::start(policy(3), true);
    assert_eq!(exchange.on_answer(401, None), Step::Refresh);
    assert_eq!(exchange.on_refresh(Ok(())), Step::Send);
    assert_eq!(exchange.on_answer(401, None), Step::Fail(ClientError::SessionExpired));
}

#[test]
fn an_anonymous_401_is_delivered() {
    let mut exchange = Exchange::start(policy(3), false);
    assert_eq!(exchange.on_answer(401, None), Step::Deliver);
}

#[test]
fn a_refused_refresh_means_the_token_family_is_revoked() {
    let refused = Err(ClientError::Api(ApiError::new(401, "unauthorized", "used")));
    assert_eq!(refresh_outcome(refused), RefreshOutcome::Revoked);
    let broken = Err(ClientError::Network("reset".into()));
    assert!(matches!(refresh_outcome(broken), RefreshOutcome::Failed(_)));
    let rotated = RefreshResponse {
        access_token: "a2".into(),
        refresh_token: "r2".into(),
        expires_in: 60,
    };
    assert_eq!(refresh_outcome(Ok(rotated.clone())), RefreshOutcome::Rotated(rotated));
    let mut exchange = Exchange::start(policy(3), true);
    assert_eq!(exchange.on_answer(401, None), Step::Refresh);
    assert_eq!(
        exchange.on_refresh(Err(ClientError::SessionExpired)),
        Step::Fail(ClientError::SessionExpired)
    );
}

#[test]
fn a_client_without_tokens_reports_not_signed_in() {
    let mut client = client();
    let spec = client.account();
    assert_eq!(client.prepare_auth(&spec, 0, false), Err(ClientError::NotAuthenticated));
    assert!(matches!(client.refresh(None), Err(ClientError::SessionExpired)));
}

#[test]
fn a_restart_with_only_a_refresh_token_refreshes_before_calling() {
    let mut client = client();
    let spec = client.account();
    assert_eq!(client.prepare_auth(&spec, 0, true), Ok(Preparation::Refresh));
    client.set_access_token("a1", 100 * SECOND);
    assert_eq!(client.prepare_auth(&spec, 0, true), Ok(Preparation::Ready));
    assert_eq!(client.bearer(&spec).as_deref(), Some("a1"));
    // Within thirty seconds of its end a token is stale.
    assert_eq!(client.prepare_auth(&spec, 70 * SECOND, true), Ok(Preparation::Refresh));
    assert_eq!(client.access_token(), None);
}

#[test]
fn logout_clears_the_tokens_even_when_the_call_fails() {
    let mut client = client();
    client.set_access_token("a1", 100 * SECOND);
    client.clear_tokens();
    assert_eq!(client.access_token(), None);
    let over = Err(ClientError::Api(ApiError::new(401, "unauthorized", "over")));
    assert!(logout_outcome(over).is_ok());
    assert!(logout_outcome(Err(ClientError::SessionExpired)).is_ok());
    assert!(logout_outcome(Err(ClientError::Network("reset".into()))).is_err());
}

#[test]
fn a_429_is_retried_honouring_retry_after() {
    let mut exchange = Exchange::start(policy(3), true);
    assert_eq!(
        exchange.on_answer(429, Some(Delay::from_secs(1))),
        Step::Wait(Delay::from_secs(1))
    );
    assert_eq!(
        exchange.on_answer(429, Some(Delay::from_secs(600))),
        Step::Wait(Delay::from_secs(5)),
        "a hostile server is clamped"
    );
    assert_eq!(exchange.attempt(), 3);
    assert_eq!(exchange.on_answer(200, None), Step::Deliver);
}

#[test]
fn a_429_that_never_clears_is_surfaced_with_its_retry_after() {
    let mut exchange = Exchange::start(policy(1), true);
    assert_eq!(
        exchange.on_answer(429, Some(Delay::from_secs(9))),
        Step::Fail(ClientError::RateLimited { retry_after: Some(Delay::from_secs(9)) })
    );
}

#[test]
fn a_500_is_retried_and_then_surfaced() {
    let mut exchange = Exchange::start(policy(3), true);
    assert_eq!(exchange.on_answer(500, None), Step::Backoff { attempt: 1 });
    assert_eq!(exchange.on_answer(503, None), Step::Backoff { attempt: 2 });
    assert_eq!(exchange.on_answer(500, None), Step::Deliver, "the body tells what went wrong");
}

#[test]
fn a_404_is_never_retried() {
    let mut exchange = Exchange::start(policy(3), true);
    assert_eq!(exchange.on_answer(404, None), Step::Deliver);
}

#[test]
fn a_403_is_never_retried() {
    let mut exchange = Exchange::start(policy(3), true);
    assert_eq!(exchange.on_answer(403, None), Step::Deliver);
}

#[test]
fn a_connection_reset_before_any_response_is_a_network_error() {
    let reset = || ClientError::Network("reset".into());
    let mut exchange = Exchange::start(policy(2), true);
    assert_eq!(exchange.on_failure(reset()), Step::Backoff { attempt: 1 });
    assert_eq!(exchange.on_failure(reset()), Step::Fail(reset()));
    let mut hopeless = Exchange::start(policy(2), true);
    let invalid = ClientError::Invalid("bad url".into());
    assert_eq!(hopeless.on_failure(invalid.clone()), Step::Fail(invalid));
}

#[test]
fn sync_parameters_are_sent_as_they_are() {
    let spec = client().sync(3, Some(5), "1841", Some(200));
    assert_eq!(spec.method, Method::Get);
    assert_eq!(spec.path, "/sync");
    assert_eq!(
        spec.query,
        vec![
            pair("mailbox_id", "3"),
            pair("cursor", "1841"),
            pair("folder_id", "5"),
            pair("limit", "200"),
        ]
    );
    assert!(spec.authenticated);
    assert_eq!(client().url(&spec.path), "https://mail.example.com/api/v1/client/sync");
}

#[test]
fn sending_carries_the_operation_id_generated_before_the_call() {
    let request = SendRequest {
        operation_id: "op-1".into(),
        to: vec!["bob@example.net".into()],
        subject: "Hi".into(),
        ..SendRequest::default()
    };
    let spec = client().send(&request);
    assert_eq!(spec.path, "/messages");
    let body = spec.body.expect("body");
    assert_eq!(body.text_at("operation_id").as_deref(), Some("op-1"));
    assert_eq!(body.get("text"), None, "what is not there is not sent");
}

#[test]
fn message_actions_and_moves_hit_the_documented_paths() {
    let read = client().message_action(7, MessageAction::Read, "op-1");
    assert_eq!(read.method, Method::Post);
    assert_eq!(read.path, "/messages/7/read");
    let moved = client().move_message(7, 9, "op-2");
    assert_eq!(moved.path, "/messages/7/move");
    let body = moved.body.expect("body");
    assert_eq!(body.int_at("folder_id"), Some(9));
    assert_eq!(body.text_at("operation_id").as_deref(), Some("op-2"));
}

#[test]
fn patch_and_delete_shape_the_request_correctly() {
    let patch = MessagePatch::default();
    let spec = client().patch_message(7, &patch);
    assert_eq!(spec.method, Method::Patch);
    assert_eq!(spec.path, "/messages/7");
    let deleted = client().delete_message(7, true);
    assert_eq!(deleted.method, Method::Delete);
    assert_eq!(deleted.query, vec![pair("permanent", "true")]);
    assert!(client().delete_message(7, false).query.is_empty());
}

#[test]
fn the_draft_list_accepts_both_documented_shapes() {
    let json = |text: &str| parse_json(text).expect("json");
    match draft_list(json(r#"[{"id":1}]"#)) {
        DraftList::Entries(items) => assert_eq!(items.len(), 1),
        other => panic!("unexpected {other:?}"),
    }
    assert_eq!(
        draft_list(json(r#"{"drafts":[{"id":1}]}"#)),
        DraftList::Member(json(r#"[{"id":1}]"#))
    );
    assert_eq!(draft_list(json("{}")), DraftList::Member(Json::Array(Vec::new())));
    assert_eq!(draft_list(json("7")), DraftList::Unexpected(Json::Int(7)));
    assert_eq!(client().create_draft(&DraftPayload::default()).path, "/drafts");
}

#[test]
fn devices_are_listed_and_revoked() {
    assert_eq!(client().devices().path, "/devices");
    let revoked = client().revoke_device(12);
    assert_eq!(revoked.path, "/devices/12/revoke");
    assert_eq!(client().delete_device(12).method, Method::Delete);
}

#[test]
fn search_passes_the_query_through_verbatim() {
    let spec = client().search("from:bob \"a b\"", None, None, Some(50));
    assert_eq!(spec.query, vec![pair("q", "from:bob \"a b\""), pair("limit", "50")]);
}

#[test]
fn a_range_download_asks_for_the_right_bytes() {
    let range = |range: Option<(u64, Option<u64>)>| -> Option<String> {
        let spec: RequestSpec = client().download_attachment(9, range);
        spec.range
    };
    assert_eq!(range(Some((2, Some(5)))).as_deref(), Some("bytes=2-5"));
    assert_eq!(range(Some((6, None))).as_deref(), Some("bytes=6-"));
    assert_eq!(range(None), None);
    assert_eq!(etag_digest("\"abc\""), "abc");
}
