use ferroma_client::api::{ApiError, DraftPayload, SendRequest};
use ferroma_client::database::Bind;
use ferroma_client::error::ClientError;
use ferroma_client::fcp::{FcpClient, Method, RequestSpec};
use ferroma_client::json::{parse_json, Json};
use ferroma_client::operations::{
    FcpSubmitter, FlushAction, OperationFlusher, OperationKind, OperationRow, PendingOperation,
    PendingQueue, ScriptedSubmitter, Submission,
};
use ferroma_client::time::Timestamp;

const NOW: Timestamp = Timestamp { secs: 1_789_560_000, nanos: 0 };

fn submitter() -> FcpSubmitter {
    FcpSubmitter::new(FcpClient::new("https://mail.example.com/api/v1/client/"))
}

fn row(kind: &str, payload: &str) -> OperationRow {
    OperationRow {
        seq: 1,
        operation_id: "op-1".into(),
        account_id: 1,
        kind: kind.into(),
        payload: payload.into(),
        created_at: "2026-09-16T12:00:00Z".into(),
        attempts: 0,
        last_error: None,
    }
}

fn operation(kind: &str, payload: &str) -> PendingOperation {
    PendingOperation::from_row(row(kind, payload), NOW).expect("operation")
}

fn numbered(id: &str) -> PendingOperation {
    let mut operation = operation("star", r#"{"message_id": 1}"#);
    operation.operation_id = id.into();
    operation
}

fn request(kind: &str, payload: &str) -> RequestSpec {
    match submitter().submit(&operation(kind, payload)) {
        Ok(Submission::Request(request)) => request,
        other => panic!("unexpected {other:?}"),
    }
}

fn flush(
    operations: Vec<PendingOperation>,
    submitter: &mut ScriptedSubmitter,
) -> (OperationFlusher, Vec<FlushAction>) {
    let mut pass = OperationFlusher::new(operations);
    let mut actions = Vec::new();
    loop {
        let outcome = match pass.next() {
            Some(operation) => submitter.submit(operation),
            None => break,
        };
        actions.push(pass.on_result(outcome));
    }
    (pass, actions)
}

#[test]
fn operation_kinds_round_trip_through_their_strings() {
    for kind in [
        OperationKind::MarkRead,
        OperationKind::MarkUnread,
        OperationKind::Star,
        OperationKind::Archive,
        OperationKind::Trash,
        OperationKind::Move,
        OperationKind::Delete,
        OperationKind::SendMessage,
        OperationKind::SaveDraft,
        OperationKind::DeleteDraft,
    ] {
        assert_eq!(OperationKind::parse(kind.as_str()).expect("parse"), kind);
    }
    assert!(OperationKind::parse("nonsense").is_err());
    assert!(OperationKind::MarkRead.is_message_operation());
    assert!(!OperationKind::SendMessage.is_message_operation());
}

#[test]
fn an_operation_is_read_from_its_row() {
    let read = operation("move", r#"{"message_id": 5, "folder_id": 9}"#);
    assert_eq!(read.kind, OperationKind::Move);
    assert_eq!(read.message_id(), Some(5));
    assert_eq!(read.folder_id(), Some(9));
    assert_eq!(read.created_at.secs, NOW.secs);
    let torn = operation("star", "{ torn");
    assert_eq!(torn.payload, Json::Null);
    assert!(matches!(
        PendingOperation::from_row(row("nonsense", "{}"), NOW),
        Err(ClientError::Cache(_))
    ));
}

#[test]
fn the_operation_id_is_generated_at_enqueue_time() {
    let statement = PendingQueue::enqueue_with_id(1, OperationKind::Star, "{}", "op-7", "now");
    assert!(statement.sql.ends_with("ON CONFLICT(operation_id) DO NOTHING"));
    assert_eq!(statement.binds[0], Bind::Text("op-7".into()));
    assert_eq!(statement.binds[2], Bind::Text("star".into()));
    assert!(matches!(PendingQueue::queued(None, NOW), Err(ClientError::Cache(_))));
    let read = PendingQueue::queued(Some(row("star", "{}")), NOW).expect("queued");
    assert_eq!(read.operation_id, "op-1");
    let attempt = PendingQueue::record_attempt("op-7", &Some("reset".into()));
    assert_eq!(attempt.binds, vec![Bind::Text("reset".into()), Bind::Text("op-7".into())]);
    assert_eq!(PendingQueue::remove("op-7").binds, vec![Bind::Text("op-7".into())]);
}

#[test]
fn queue_then_flush_then_empty() {
    let mut submitter = ScriptedSubmitter::new();
    let (pass, actions) = flush(vec![numbered("a"), numbered("b")], &mut submitter);
    assert_eq!(actions.len(), 2);
    assert_eq!(submitter.seen(), vec!["a".to_string(), "b".to_string()]);
    let report = pass.finish(0);
    assert_eq!(report.applied, vec!["a".to_string(), "b".to_string()]);
    assert!(report.is_complete());
}

#[test]
fn a_permanent_failure_is_surfaced_and_removed() {
    let mut submitter = ScriptedSubmitter::new();
    submitter.push(Err(ClientError::Api(ApiError::new(404, "not_found", "gone"))));
    let (pass, actions) = flush(vec![numbered("a"), numbered("b")], &mut submitter);
    assert_eq!(
        actions[0],
        FlushAction::Discard { operation_id: "a".into(), message: "gone".into() }
    );
    assert_eq!(actions[1], FlushAction::Remove { operation_id: "b".into() });
    let report = pass.finish(0);
    assert_eq!(report.failed, vec![("a".to_string(), "gone".to_string())]);
    assert_eq!(report.applied, vec!["b".to_string()]);
    assert!(!report.retryable);
    assert!(!report.is_complete(), "what was refused was not accepted");
}

#[test]
fn a_pass_hands_out_the_queued_operations_themselves() {
    let queued = vec![operation("move", r#"{"message_id":1,"folder_id":2}"#), numbered("b")];
    let mut pass = OperationFlusher::new(queued.clone());
    assert_eq!(pass.next(), Some(&queued[0]));
    pass.on_result(Ok(()));
    assert_eq!(pass.next(), Some(&queued[1]));
    pass.on_result(Ok(()));
    assert_eq!(pass.next(), None);
}

#[test]
fn a_retryable_failure_keeps_the_entry_and_stops_the_pass() {
    let mut submitter = ScriptedSubmitter::new();
    submitter.push(Ok(()));
    submitter.push(Err(ClientError::Network("reset".into())));
    let (pass, actions) = flush(vec![numbered("a"), numbered("b"), numbered("c")], &mut submitter);
    assert_eq!(actions.len(), 2, "nothing overtakes the blocked operation");
    assert!(matches!(&actions[1], FlushAction::Keep { operation_id, .. } if operation_id == "b"));
    let report = pass.finish(2);
    assert_eq!(report.applied, vec!["a".to_string()]);
    assert_eq!(report.blocked_on.as_deref(), Some("b"));
    assert!(report.retryable);
    assert_eq!(report.remaining, 2);
    assert!(!report.is_complete());
}

#[test]
fn a_delete_that_already_happened_counts_as_done() {
    let gone = || Err(ClientError::Api(ApiError::new(404, "not_found", "gone")));
    assert!(FcpSubmitter::submitted(OperationKind::Delete, gone()).is_ok());
    assert!(FcpSubmitter::submitted(OperationKind::Trash, gone()).is_err());
}

#[test]
fn a_move_without_a_folder_is_a_permanent_failure() {
    match submitter().submit(&operation("move", r#"{"message_id": 5}"#)) {
        Err(error) => {
            assert!(matches!(error, ClientError::Invalid(_)));
            assert!(!error.is_retryable());
        }
        other => panic!("unexpected {other:?}"),
    }
    assert!(submitter().submit(&operation("star", "{}")).is_err());
}

#[test]
fn the_fcp_submitter_drives_the_documented_endpoints() {
    let read = request("mark_read", r#"{"message_id": 5}"#);
    assert_eq!(read.method, Method::Post);
    assert_eq!(read.path, "/messages/5/read");
    let body = read.body.expect("body");
    assert_eq!(body.text_at("operation_id").as_deref(), Some("op-1"));

    let moved = request("move", r#"{"message_id": 5, "folder_id": 9}"#);
    assert_eq!(moved.path, "/messages/5/move");
    assert_eq!(moved.body.expect("body").int_at("folder_id"), Some(9));

    let deleted = request("delete", r#"{"message_id": 5}"#);
    assert_eq!(deleted.method, Method::Delete);

    assert!(matches!(
        submitter().submit(&operation("send_message", "{}")),
        Ok(Submission::DecodeSend)
    ));
    assert!(matches!(
        submitter().submit(&operation("save_draft", "{}")),
        Ok(Submission::DecodeDraft)
    ));
}

#[test]
fn a_queued_send_carries_its_own_key() {
    let payload = SendRequest { operation_id: "stale".into(), subject: "Hi".into(), ..SendRequest::default() };
    let queued = operation("send_message", "{}");
    let request = submitter().submit_send(&queued, Ok(payload)).expect("request");
    assert_eq!(request.path, "/messages");
    assert_eq!(request.body.expect("body").text_at("operation_id").as_deref(), Some("op-1"));
    assert!(matches!(
        submitter().submit_send(&queued, Err("no field".into())),
        Err(ClientError::Invalid(_))
    ));

    let known = operation("save_draft", r#"{"draft_id": 44}"#);
    let update = submitter().submit_draft(&known, Ok(DraftPayload::default())).expect("update");
    assert_eq!(update.path, "/drafts/44");
    assert_eq!(update.method, Method::Patch);
    let fresh = operation("save_draft", r#"{"draft_id": 0}"#);
    let create = submitter().submit_draft(&fresh, Ok(DraftPayload::default())).expect("create");
    assert_eq!(create.path, "/drafts");
    assert_eq!(parse_json("{}").expect("json"), Json::Object(Vec::new()));
}

#[test]
fn a_later_flush_drains_what_the_first_one_blocked_on() {
    let queued = || vec![numbered("op-1"), numbered("op-2")];
    let mut submitter = ScriptedSubmitter::new();
    submitter.push(Err(ClientError::Timeout("slow".into())));
    let (first, _) = flush(queued(), &mut submitter);
    assert_eq!(first.finish(2).remaining, 2);
    let (second, actions) = flush(queued(), &mut submitter);
    assert_eq!(second.finish(0).applied.len(), 2);
    assert_eq!(actions.len(), 2);
}
