use ferroma_client::account::{Account, AccountId};
use ferroma_client::api::{ApiError, DeviceRecord, SendResponse};
use ferroma_client::cli::{
    account_json, account_line, accounts_to_sync, added_line, delivery_steps, device_json,
    device_line, flush_policy, from_address, hit_line, item_line, message_json, message_line,
    outbox_json, password_of, paused_line, print_message, resolve_account, resolve_folder,
    results_json, send_detail, send_request, synced_line, truncate, Delivery, FlushSummary,
    FolderView, MessageView, OutboxPass, OutboxStep,
};
use ferroma_client::error::ClientError;
use ferroma_client::json::Json;
use ferroma_client::operations::FlushReport;
use ferroma_client::outbox::{OutboxCounts, OutboxItem, OutboxState};
use ferroma_client::search::{SearchHit, SearchResults, SearchSource};
use ferroma_client::time::Timestamp;

const NOW: Timestamp = Timestamp { secs: 1_789_560_000, nanos: 0 };

fn account(id: i64) -> Account {
    Account {
        id: AccountId(id),
        email: "a@b.c".into(),
        display_name: None,
        base_url: "http://x/api/v1/client".into(),
        device_uid: "dev".into(),
        device_id: None,
        user_id: None,
        paused: false,
        sync_window_days: Some(30),
        cache_limit_bytes: None,
        protocol_version: Some(1),
        server_version: None,
        created_at: NOW,
        updated_at: NOW,
        last_sync_at: Some(NOW),
        last_error: None,
        refresh_token_present: true,
    }
}

fn message() -> MessageView {
    MessageView {
        account_id: AccountId(1),
        id: 1,
        folder_id: Some(5),
        subject: "Hi".into(),
        from_address: "bob@example.net".into(),
        from_name: Some("Bob".into()),
        to_summary: Some("alice@example.com".into()),
        snippet: None,
        flags: "seen".into(),
        internal_date: Some("2026-09-16T09:12:44Z".into()),
        has_attachments: false,
        attachment_count: 0,
        body_state: "pending".into(),
        text_body: None,
        html_body: None,
    }
}

fn item(state: OutboxState) -> OutboxItem {
    OutboxItem {
        id: 12,
        account_id: 1,
        operation_id: "op-12".into(),
        state,
        mailbox_id: Some(3),
        from_address: "a@b.c".into(),
        to: vec!["c@d.e".into(), "f@g.h".into()],
        cc: Vec::new(),
        bcc: Vec::new(),
        subject: "Invoice".into(),
        text_body: Some("hello".into()),
        html_body: None,
        attachment_ids: vec![7],
        in_reply_to: None,
        references: Vec::new(),
        created_at: NOW,
        updated_at: NOW,
        attempts: 2,
        last_error: Some("reset".into()),
        server_message_id: None,
        queued_recipients: None,
        sent_at: None,
    }
}

#[test]
fn truncation_is_by_characters_not_bytes() {
    assert_eq!(truncate("hello", 10), "hello");
    assert_eq!(truncate("hello world", 8), "hello w…");
    assert_eq!(truncate("电子邮件地址", 3), "电子…");
}

#[test]
fn a_cut_to_nothing_is_an_ellipsis() {
    assert_eq!(truncate("hello", 0), "…");
    assert_eq!(truncate("", 0), "");
}

#[test]
fn a_message_renders_without_bodies() {
    let view = message();
    let value = message_json(&view);
    assert_eq!(value.int_at("id"), Some(1));
    assert_eq!(value.bool_at("read"), Some(true));
    assert_eq!(value.bool_at("flagged"), Some(false));
    assert_eq!(value.get("snippet"), Some(&Json::Null));
    assert_eq!(
        print_message(&view, "Bob"),
        "From:    Bob\nTo:      alice@example.com\nDate:    2026-09-16T09:12:44Z\nFlags:   seen\n\n(body not cached)"
    );
}

#[test]
fn a_folder_can_be_resolved_by_name_id_or_suffix() {
    let folders = vec![FolderView { id: 5, name: "Archive/Newsletter".into() }];
    // A numeric argument is an id, never a folder name.
    assert_eq!(resolve_folder(&folders, "5").expect("id"), 5);
    assert_eq!(resolve_folder(&folders, "archive/newsletter").expect("name"), 5);
    assert_eq!(resolve_folder(&folders, "newsletter").expect("suffix"), 5);
    match resolve_folder(&folders, "nope") {
        Err(ClientError::NotFound(message)) => assert_eq!(message, "no folder named \"nope\""),
        other => panic!("unexpected {other:?}"),
    }
    assert_eq!(resolve_folder(&folders, "-7").expect("a negative id"), -7);
}

#[test]
fn a_full_name_wins_over_an_earlier_suffix() {
    let folders = vec![
        FolderView { id: 1, name: "Archive/Sent".into() },
        FolderView { id: 2, name: "SENT".into() },
    ];
    assert_eq!(resolve_folder(&folders, "sent").expect("name"), 2);
    assert_eq!(resolve_folder(&folders, "nt").expect("suffix"), 1);
}

#[test]
fn an_account_is_resolved_to_the_first_one_by_default() {
    assert!(resolve_account(None, &Vec::new()).is_err(), "no accounts yet");
    let accounts = vec![account(7)];
    assert_eq!(resolve_account(None, &accounts).expect("first").get(), 7);
    assert_eq!(resolve_account(Some(3), &accounts).expect("explicit").get(), 3);
}

#[test]
fn a_sync_needs_something_to_sync() {
    assert!(matches!(
        accounts_to_sync(Some(9), None, Vec::new()),
        Err(ClientError::NotFound(_))
    ));
    assert!(matches!(accounts_to_sync(None, None, Vec::new()), Err(ClientError::NotFound(_))));
    let one = accounts_to_sync(Some(9), Some(account(9)), vec![account(1)]).expect("one");
    assert_eq!(one.len(), 1);
    assert_eq!(one[0].id, AccountId(9));
}

#[test]
fn a_password_is_the_line_without_its_break() {
    assert_eq!(password_of("secret\r\n").expect("password"), "secret");
    assert_eq!(password_of(" spaced \n").expect("password"), " spaced ");
    assert!(matches!(password_of("\n"), Err(ClientError::Invalid(_))));
}

#[test]
fn the_from_line_prefers_what_was_given() {
    let given = Some("me@x.y".to_string());
    let primary = Some("primary@x.y".to_string());
    assert_eq!(from_address(given, primary.clone(), "a@b.c"), "me@x.y");
    assert_eq!(from_address(None, primary, "a@b.c"), "primary@x.y");
    assert_eq!(from_address(None, None, "a@b.c"), "a@b.c");
}

#[test]
fn a_waiting_item_is_walked_to_sending() {
    assert_eq!(
        delivery_steps(OutboxState::Pending, 0),
        vec![OutboxState::Queued, OutboxState::Sending]
    );
    assert_eq!(
        delivery_steps(OutboxState::Pending, 2),
        vec![OutboxState::Uploading, OutboxState::Queued, OutboxState::Sending]
    );
    assert_eq!(delivery_steps(OutboxState::Retrying, 2), vec![OutboxState::Sending]);
    let mut from = OutboxState::Pending;
    for next in delivery_steps(from, 1) {
        assert!(from.can_transition_to(next));
        from = next;
    }
}

#[test]
fn a_flush_counts_what_the_server_said() {
    let mut summary = FlushSummary::new(3);
    let response = SendResponse { message_id: Some(9), queued: 2, recipients: Vec::new() };
    assert_eq!(
        summary.on_answer(Ok(response)),
        Delivery::Sent { message_id: Some(9), queued: 2 }
    );
    let refused = ClientError::Api(ApiError::new(503, "unavailable", "try later"));
    assert_eq!(
        summary.on_answer(Err(refused)),
        Delivery::Failed { message: "try later".into(), retryable: true }
    );
    assert_eq!(summary, FlushSummary { operations_applied: 3, sent: 1, failed: 1 });
    assert_eq!(send_detail(&Ok(summary)), (true, None));
    assert_eq!(
        send_detail(&Ok(FlushSummary::new(0))),
        (false, Some("the server did not accept it yet".to_string()))
    );
    assert_eq!(send_detail(&Err(ClientError::NotAuthenticated)).0, false);
    assert_eq!(flush_policy(true).max_attempts, 1);
    assert_eq!(flush_policy(false).max_attempts, 4);
}

#[test]
fn a_send_keeps_the_idempotency_key() {
    let request = send_request(&item(OutboxState::Sending));
    assert_eq!(request.operation_id, "op-12");
    assert_eq!(request.from.as_deref(), Some("a@b.c"));
    assert_eq!(request.to, vec!["c@d.e".to_string(), "f@g.h".to_string()]);
    assert_eq!(request.attachment_ids, vec![7]);
}

#[test]
fn the_lines_are_aligned() {
    assert_eq!(added_line(&account(1)), "added account 1 <a@b.c> at http://x/api/v1/client");
    assert_eq!(paused_line(&account(1)), "account 1 is now active");
    assert_eq!(
        account_line(&account(1)),
        format!("{}  {:<32} {:<40} {}", 1, "a@b.c", "http://x/api/v1/client", "active")
    );
    assert_eq!(synced_line("a@b.c", 4, 2), "a@b.c: applied 4 change(s) across 2 stream(s)");
    assert_eq!(
        message_line(&message(), "Bob"),
        format!("{:>8}  {}  {:<48} {}", 1, "2026-09-16T09:12:44Z", "Bob", "")
    );
    let mut unread = message();
    unread.flags = String::new();
    assert!(message_line(&unread, "Bob").ends_with(" *"));
    assert_eq!(
        item_line(&item(OutboxState::Retrying)),
        format!("{:>5}  {} {:<40} {}", 12, "retrying", "Invoice", "c@d.e, f@g.h")
    );
    let device = DeviceRecord { id: 3, revoked: true, ..DeviceRecord::default() };
    assert_eq!(
        device_line(&device),
        format!("{:>5}  {:<24} {:<10} {:<10} {}", 3, "(unnamed)", "", "", "revoked")
    );
    assert_eq!(device_json(&device).bool_at("revoked"), Some(true));
}

#[test]
fn accounts_and_results_render_as_json() {
    let value = account_json(&account(1));
    assert_eq!(value.int_at("id"), Some(1));
    assert_eq!(value.int_at("sync_window_days"), Some(30));
    assert_eq!(value.get("cache_limit_bytes"), Some(&Json::Null));
    assert_eq!(value.text_at("last_sync_at").as_deref(), Some("2026-09-16T12:00:00+00:00"));
    assert_eq!(value.get("refresh_token"), None);

    let hit = SearchHit {
        account_id: 1,
        message_id: 101,
        folder_id: None,
        subject: "Invoice".into(),
        from_address: "bob@example.net".into(),
        snippet: None,
        flags: String::new(),
        internal_date: None,
    };
    assert_eq!(
        hit_line(&hit),
        format!("{:>8}  {:<40}  {}", 101, "Invoice", "bob@example.net")
    );
    let results = SearchResults { hits: vec![hit], source: SearchSource::Server, total: 3 };
    let value = results_json(&results);
    assert_eq!(value.text_at("source").as_deref(), Some("server"));
    assert_eq!(value.int_at("total"), Some(3));

    let counts = OutboxCounts { sent: 2, ..OutboxCounts::default() };
    let value = outbox_json(&counts, &vec![item(OutboxState::Failed)]);
    assert_eq!(value.text_at("summary").as_deref(), Some("sending 0, failed 0, sent 2"));
    assert_eq!(value.int_at("sent"), Some(2));
}

#[test]
fn a_pass_flushes_the_queue_and_walks_each_item_before_it_is_sent() {
    let mut pass = OutboxPass::new();
    assert_eq!(pass.next(), OutboxStep::FlushQueue);
    let report = FlushReport { applied: vec!["op-9".into()], ..FlushReport::default() };
    pass.on_queue(&report);

    assert_eq!(pass.next(), OutboxStep::List(OutboxState::Pending));
    let mut waiting = item(OutboxState::Pending);
    waiting.attachment_ids = vec![4];
    pass.on_items(vec![waiting.clone()]);
    for next in [OutboxState::Uploading, OutboxState::Queued, OutboxState::Sending] {
        assert_eq!(pass.next(), OutboxStep::Move { id: waiting.id, next });
        pass.on_moved();
    }
    assert_eq!(
        pass.next(),
        OutboxStep::Send { id: waiting.id, request: send_request(&waiting) }
    );
    let response = SendResponse { message_id: Some(5), queued: 1, recipients: Vec::new() };
    assert_eq!(
        pass.on_answer(Ok(response)),
        Delivery::Sent { message_id: Some(5), queued: 1 }
    );

    assert_eq!(pass.next(), OutboxStep::List(OutboxState::Retrying));
    let retried = item(OutboxState::Retrying);
    pass.on_items(vec![retried.clone()]);
    assert_eq!(
        pass.next(),
        OutboxStep::Move { id: retried.id, next: OutboxState::Sending }
    );
    pass.on_moved();
    assert!(matches!(pass.next(), OutboxStep::Send { .. }));
    assert_eq!(
        pass.on_answer(Err(ClientError::Network("reset".into()))),
        Delivery::Failed {
            message: ClientError::Network("reset".into()).user_message(),
            retryable: true,
        }
    );
    assert_eq!(pass.next(), OutboxStep::Done);
    assert_eq!(pass.summary(), FlushSummary { operations_applied: 1, sent: 1, failed: 1 });
}
