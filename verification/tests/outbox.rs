use ferroma_client::columns::{parse_ids, parse_list};
use ferroma_client::database::{Bind, Statement};
use ferroma_client::error::ClientError;
use ferroma_client::outbox::{
    Acceptance, NewOutboxItem, Outbox, OutboxCounts, OutboxItem, OutboxRow, OutboxState,
};
use ferroma_client::time::Timestamp;

#[test]
fn every_state_round_trips_through_its_string() {
    for state in OutboxState::ALL {
        assert_eq!(OutboxState::parse(state.as_str()).expect("parse"), state);
        assert_eq!(state.to_string(), state.as_str());
    }
    assert!(OutboxState::parse("teleporting").is_err());
}

#[test]
fn every_legal_transition_is_allowed_and_every_illegal_one_is_not() {
    let legal = [
        (OutboxState::Draft, OutboxState::Pending),
        (OutboxState::Pending, OutboxState::Uploading),
        (OutboxState::Pending, OutboxState::Queued),
        (OutboxState::Pending, OutboxState::Failed),
        (OutboxState::Pending, OutboxState::Draft),
        (OutboxState::Uploading, OutboxState::Queued),
        (OutboxState::Uploading, OutboxState::Failed),
        (OutboxState::Uploading, OutboxState::Retrying),
        (OutboxState::Queued, OutboxState::Sending),
        (OutboxState::Queued, OutboxState::Failed),
        (OutboxState::Queued, OutboxState::Draft),
        (OutboxState::Sending, OutboxState::Sent),
        (OutboxState::Sending, OutboxState::Retrying),
        (OutboxState::Sending, OutboxState::Failed),
        (OutboxState::Failed, OutboxState::Pending),
        (OutboxState::Failed, OutboxState::Draft),
        (OutboxState::Retrying, OutboxState::Sending),
        (OutboxState::Retrying, OutboxState::Failed),
    ];
    for from in OutboxState::ALL {
        for to in OutboxState::ALL {
            let expected = legal.contains(&(from, to));
            assert_eq!(
                from.can_transition_to(to),
                expected,
                "{from:?} -> {to:?} should be {}",
                if expected { "legal" } else { "illegal" }
            );
        }
    }
}

#[test]
fn terminal_states_are_exactly_sent() {
    assert!(OutboxState::Sent.is_terminal());
    for state in OutboxState::ALL {
        if state != OutboxState::Sent {
            assert!(!state.is_terminal(), "{state:?} must not be terminal");
        }
    }
    assert!(!OutboxState::Failed.needs_resume(), "failed waits for the user");
    assert!(OutboxState::Sending.needs_resume());
    assert!(!OutboxState::Sent.needs_resume());
}

const NOW: Timestamp = Timestamp { secs: 1_789_560_000, nanos: 0 };

fn text(value: &str) -> Bind {
    Bind::Text(value.to_string())
}

fn bound(statement: &Statement, index: usize) -> String {
    match &statement.binds[index] {
        Bind::Text(value) => value.clone(),
        other => panic!("not text: {other:?}"),
    }
}

/// The row that an insert leaves behind.
fn stored(statement: &Statement) -> OutboxRow {
    let optional = |index: usize| match &statement.binds[index] {
        Bind::Text(value) => Some(value.clone()),
        _ => None,
    };
    OutboxRow {
        id: 5,
        account_id: 1,
        operation_id: bound(statement, 1),
        state: bound(statement, 2),
        mailbox_id: None,
        from_address: bound(statement, 4),
        to_json: bound(statement, 5),
        cc_json: bound(statement, 6),
        bcc_json: bound(statement, 7),
        subject: bound(statement, 8),
        text_body: optional(9),
        html_body: optional(10),
        attachment_ids_json: bound(statement, 11),
        in_reply_to: optional(12),
        references_json: bound(statement, 13),
        created_at: bound(statement, 14),
        updated_at: bound(statement, 15),
        attempts: 0,
        last_error: None,
        server_message_id: None,
        queued_recipients: None,
        sent_at: None,
    }
}

fn message(to: &[&str]) -> NewOutboxItem {
    let to: Vec<String> = to.iter().map(|address| address.to_string()).collect();
    NewOutboxItem::simple(1, "alice@example.com", &to, "Invoice", "hello")
}

#[test]
fn a_new_message_starts_pending_or_draft() {
    let sending = message(&["bob@example.net"]);
    assert_eq!(sending.initial_state(), OutboxState::Pending);
    let mut saved = message(&["bob@example.net"]);
    saved.send_now = false;
    assert_eq!(saved.initial_state(), OutboxState::Draft);
    let statement = Outbox::enqueue_with_id(&saved, "op-1", "now").expect("statement");
    assert_eq!(statement.binds[2], text("draft"));
    assert_eq!(statement.binds.len(), 16);
}

#[test]
fn a_queued_message_reads_back_as_it_was_typed() {
    let mut item = message(&["bob@example.net", "\"quoted, name\" <c@d.e>"]);
    item.attachment_ids = vec![3, -9, i64::MAX];
    item.references = vec!["<a@b>".to_string(), String::new()];
    let statement = Outbox::enqueue_with_id(&item, "op-2", "2026-09-16T12:00:00Z").expect("insert");
    let read = OutboxItem::from_row(stored(&statement), NOW).expect("item");
    assert_eq!(read.operation_id, "op-2");
    assert_eq!(read.state, OutboxState::Pending);
    assert_eq!(read.to, item.to);
    assert_eq!(read.attachment_ids, item.attachment_ids);
    assert_eq!(read.references, item.references);
    assert_eq!(read.text_body.as_deref(), Some("hello"));
    assert_eq!(read.created_at.secs, 1_789_560_000);
    assert_eq!(read.attempts, 0);
    assert_eq!(parse_list(&bound(&statement, 5)), item.to);
    assert_eq!(parse_ids(&bound(&statement, 11)), item.attachment_ids);
}

#[test]
fn columns_that_cannot_be_read_are_empty() {
    assert!(parse_list("not json").is_empty());
    assert!(parse_list("[\"a\", 1]").is_empty());
    assert!(parse_ids("[1, \"b\"]").is_empty());
    assert_eq!(parse_list("[\"a\",\"\\u00e9\"]"), vec!["a".to_string(), "\u{e9}".to_string()]);
    let statement = Outbox::enqueue_with_id(&message(&["b@c.d"]), "op", "never").expect("insert");
    let mut row = stored(&statement);
    row.to_json = "{".to_string();
    row.attempts = -3;
    let read = OutboxItem::from_row(row.clone(), NOW).expect("item");
    assert!(read.to.is_empty());
    assert_eq!(read.attempts, 0);
    assert_eq!(read.created_at, NOW, "a time that cannot be read is now");
    row.state = "teleporting".to_string();
    assert!(matches!(OutboxItem::from_row(row, NOW), Err(ClientError::Cache(_))));
}

#[test]
fn an_illegal_transition_is_refused_and_changes_nothing() {
    match Outbox::transition(1, Some("pending"), OutboxState::Sent, "now") {
        Err(ClientError::Conflict(message)) => {
            assert_eq!(message, "an outbox item cannot go from pending to sent");
        }
        other => panic!("unexpected {other:?}"),
    }
    let legal = Outbox::transition(1, Some("pending"), OutboxState::Queued, "now").expect("legal");
    assert_eq!(legal.binds, vec![text("queued"), text("now"), Bind::Int(1)]);
    assert!(matches!(
        Outbox::transition(1, Some("lost"), OutboxState::Queued, "now"),
        Err(ClientError::Cache(_))
    ));
}

#[test]
fn a_sent_message_can_never_move_again() {
    for next in OutboxState::ALL {
        assert!(Outbox::transition(1, Some("sent"), next, "now").is_err());
    }
}

#[test]
fn marking_sent_twice_is_idempotent() {
    let first = Outbox::mark_sent(4, Some("sending"), Some(99), Some(1), "now").expect("first");
    match first {
        Acceptance::NowSent(statement) => assert_eq!(
            statement.binds,
            vec![Bind::Int(99), Bind::Int(1), text("now"), text("now"), Bind::Int(4)]
        ),
        other => panic!("unexpected {other:?}"),
    }
    assert_eq!(
        Outbox::mark_sent(4, Some("sent"), Some(99), Some(1), "now"),
        Ok(Acceptance::AlreadySent)
    );
    // The short cut from the queue is legal; a draft is not.
    assert!(Outbox::mark_sent(4, Some("queued"), None, None, "now").is_ok());
    assert!(matches!(
        Outbox::mark_sent(4, Some("draft"), None, None, "now"),
        Err(ClientError::Conflict(_))
    ));
}

#[test]
fn a_retryable_failure_moves_to_retrying_and_a_permanent_one_to_failed() {
    let after = |state: OutboxState, retryable: bool| {
        let result = Outbox::record_failure(1, Some(state), "reset", retryable, "now");
        result.expect("recorded").0
    };
    assert_eq!(after(OutboxState::Sending, true), OutboxState::Retrying);
    assert_eq!(after(OutboxState::Sending, false), OutboxState::Failed);
    // `Retrying` cannot be reached from every state.
    assert_eq!(after(OutboxState::Pending, true), OutboxState::Failed);
    assert_eq!(after(OutboxState::Sent, true), OutboxState::Sent);
    let (_, statement) =
        Outbox::record_failure(1, Some(OutboxState::Sending), "reset", true, "now").expect("ok");
    assert_eq!(
        statement.binds,
        vec![text("retrying"), text("reset"), text("now"), Bind::Int(1)]
    );
}

#[test]
fn a_queued_message_is_no_longer_editable() {
    let to = vec!["c@d.e".to_string()];
    let edit = |state: OutboxState| {
        Outbox::update_draft(1, Some(state), "New", &Some("text".into()), &None, &to, "now")
    };
    assert!(edit(OutboxState::Draft).is_ok());
    assert!(edit(OutboxState::Failed).is_ok());
    match edit(OutboxState::Queued) {
        Err(ClientError::Conflict(message)) => {
            assert_eq!(message, "an outbox item in state queued is no longer editable");
        }
        other => panic!("unexpected {other:?}"),
    }
}

#[test]
fn counts_and_the_summary_line_match_the_specification() {
    let rows = vec![
        ("pending".to_string(), 1),
        ("sending".to_string(), 1),
        ("failed".to_string(), 1),
        ("sent".to_string(), 152),
    ];
    let counts = OutboxCounts::from_rows(&rows).expect("counts");
    assert_eq!(counts.in_flight(), 2);
    assert_eq!(counts.get(OutboxState::Sent), 152);
    assert_eq!(counts.get(OutboxState::Draft), 0);
    assert_eq!(counts.summary(), "sending 2, failed 1, sent 152");
    assert!(OutboxCounts::from_rows(&vec![("lost".to_string(), 1)]).is_err());
}

#[test]
fn a_sent_message_is_not_resumed_after_a_restart() {
    let statement = Outbox::enqueue_with_id(&message(&["b@c.d"]), "op", "now").expect("insert");
    let items: Vec<OutboxItem> = ["pending", "sent", "failed", "retrying"]
        .iter()
        .map(|state| {
            let mut row = stored(&statement);
            row.state = state.to_string();
            OutboxItem::from_row(row, NOW).expect("item")
        })
        .collect();
    let states: Vec<OutboxState> = Outbox::resumable(items).iter().map(|item| item.state).collect();
    assert_eq!(states, vec![OutboxState::Pending, OutboxState::Retrying]);
}

#[test]
fn a_missing_item_reports_not_found() {
    match Outbox::transition(404, None, OutboxState::Queued, "now") {
        Err(ClientError::NotFound(message)) => assert_eq!(message, "no outbox item 404"),
        other => panic!("unexpected {other:?}"),
    }
    assert!(Outbox::mark_sent(404, None, None, None, "now").is_err());
    assert!(Outbox::record_failure(404, None, "x", true, "now").is_err());
}

#[test]
fn the_summary_line_names_the_recipients_when_there_is_no_subject() {
    let mut item = message(&["bob@example.net", "c@d.e"]);
    item.subject = "  ".to_string();
    let statement = Outbox::enqueue_with_id(&item, "op", "now").expect("insert");
    let read = OutboxItem::from_row(stored(&statement), NOW).expect("item");
    assert_eq!(read.summary(), "(no subject) \u{2192} bob@example.net, c@d.e");
}
