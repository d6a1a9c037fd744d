use ferroma_client::database::Bind;
use ferroma_client::json::{parse_json, Json};
use ferroma_client::notification::{
    mark_delivered, pending_notifications, record_notification, AccountAwarePolicy, AlwaysNotify,
    NoopNotifier, Notification, NotificationKind, NotificationPolicy, NotificationService,
    Notifier, PauseLookup, RecordingNotifier,
};
use ferroma_client::time::{parse_rfc3339, to_rfc3339, Timestamp};

const NOW: Timestamp = Timestamp { secs: 1_789_560_000, nanos: 0 };

fn json(text: &str) -> Json {
    parse_json(text).expect("json")
}

/// A `mail.received` frame.
fn received_frame() -> Json {
    json(
        r#"{"seq": 1842, "type": "mail.received", "mailbox_id": 3, "message_id": 4822,
            "from": "bob@example.net", "subject": "Re: Invoice",
            "snippet": "Thanks, got it.", "at": "2026-09-16T12:00:00Z"}"#,
    )
}

fn mail_notification(account_id: Option<i64>) -> Notification {
    Notification::from_event("mail.received", account_id, &received_frame(), NOW)
}

#[test]
fn notification_kinds_round_trip_through_their_wire_names() {
    let kinds = [
        NotificationKind::MailReceived,
        NotificationKind::MailFlagChanged,
        NotificationKind::MailDeleted,
        NotificationKind::MailMoved,
        NotificationKind::DraftUpdated,
        NotificationKind::DeliveryUpdated,
        NotificationKind::DeviceRevoked,
        NotificationKind::ReplayGap,
        NotificationKind::Other("mail.sent".to_string()),
    ];
    for kind in kinds {
        let name = kind.as_str();
        assert_eq!(
            NotificationKind::from_str_opt(name).expect("round trip"),
            kind,
            "{name} did not round-trip"
        );
    }

    assert_eq!(NotificationKind::MailReceived.as_str(), "mail.received");
    assert_eq!(
        NotificationKind::MailFlagChanged.as_str(),
        "mail.flag_changed"
    );
    assert_eq!(NotificationKind::MailDeleted.as_str(), "mail.deleted");
    assert_eq!(NotificationKind::MailMoved.as_str(), "mail.moved");
    assert_eq!(NotificationKind::DraftUpdated.as_str(), "draft.updated");
    assert_eq!(
        NotificationKind::DeliveryUpdated.as_str(),
        "delivery.updated"
    );
    assert_eq!(NotificationKind::DeviceRevoked.as_str(), "device.revoked");
}

#[test]
fn an_unknown_event_kind_maps_to_other() {
    assert_eq!(
        NotificationKind::from_str_opt("mail.read"),
        Some(NotificationKind::Other("mail.read".to_string()))
    );
    assert_eq!(
        NotificationKind::from_str_opt("something.new").expect("known"),
        NotificationKind::Other("something.new".to_string())
    );
    // The gap marker is read under both spellings.
    assert_eq!(
        NotificationKind::from_str_opt("replay_gap"),
        Some(NotificationKind::ReplayGap)
    );
    assert_eq!(NotificationKind::ReplayGap.as_str(), "replay.gap");
    // Only the empty name is unknown-unknown.
    assert_eq!(NotificationKind::from_str_opt(""), None);
}

#[test]
fn notification_kinds_know_the_mail_family() {
    assert!(NotificationKind::MailReceived.is_mail());
    assert!(NotificationKind::MailMoved.is_mail());
    assert!(NotificationKind::Other("mail.sent".to_string()).is_mail());
    assert!(!NotificationKind::DraftUpdated.is_mail());
    assert!(!NotificationKind::DeviceRevoked.is_mail());
    assert!(!NotificationKind::ReplayGap.is_mail());
}

#[test]
fn a_mail_received_event_becomes_the_documented_banner() {
    let notification = Notification::from_event("mail.received", Some(7), &received_frame(), NOW);
    assert_eq!(notification.kind, NotificationKind::MailReceived);
    assert_eq!(notification.account_id, Some(7));
    assert_eq!(notification.title, "bob@example.net");
    assert_eq!(notification.body.as_deref(), Some("Re: Invoice"));
    assert_eq!(notification.message_id, Some(4822));
    assert_eq!(
        Some(notification.at),
        parse_rfc3339("2026-09-16T12:00:00Z"),
        "the frame's `at` is the event time"
    );
    assert_eq!(to_rfc3339(notification.at).as_deref(), Some("2026-09-16T12:00:00+00:00"));
    let payload = notification.payload.expect("payload kept");
    assert_eq!(payload.text_at("snippet").as_deref(), Some("Thanks, got it."));
    assert_eq!(payload.int_at("mailbox_id"), Some(3));
}

#[test]
fn an_unknown_event_kind_becomes_an_other_notification() {
    let payload = json(r#"{"sequence": 9, "device_uid": "dev-1"}"#);
    let notification = Notification::from_event("device.revoked", None, &payload, NOW);
    // A known kind, but one without banner content of its own.
    assert_eq!(notification.kind, NotificationKind::DeviceRevoked);
    assert_eq!(notification.title, "Device signed out");
    assert_eq!(notification.body, None);
    assert_eq!(notification.message_id, None);

    let notification = Notification::from_event("team.invited", None, &payload, NOW);
    assert_eq!(
        notification.kind,
        NotificationKind::Other("team.invited".to_string())
    );
    assert_eq!(notification.title, "team.invited");
}

#[test]
fn a_banner_always_has_a_title() {
    let notification = Notification::from_event("mail.received", None, &json("{}"), NOW);
    assert_eq!(notification.title, "New message");
    assert_eq!(notification.body, None);
    assert!(notification.payload.is_some(), "an empty object is still a payload");

    let notification = Notification::from_event("mail.received", None, &json("null"), NOW);
    assert_eq!(notification.title, "New message");
    assert!(notification.payload.is_none(), "a null payload is no payload");
    assert!(notification.message_id.is_none());

    // A blank sender must not produce a blank banner.
    let blank = json(r#"{"from": "  ", "subject": "   "}"#);
    let notification = Notification::from_event("mail.received", None, &blank, NOW);
    assert_eq!(notification.title, "New message");
    assert_eq!(notification.body, None);
}

#[test]
fn a_frame_without_a_timestamp_is_stamped_now() {
    let payload = json(r#"{"draft_id": 5}"#);
    let notification = Notification::from_event("draft.updated", None, &payload, NOW);
    assert_eq!(notification.at, NOW);
}

#[test]
fn a_paused_account_is_suppressed() {
    let mut policy = AccountAwarePolicy::new();
    policy.record(1, PauseLookup::Flag(1));
    assert!(policy.is_paused(1));
    assert!(!policy.should_notify(&mail_notification(Some(1))));
    assert!(policy.should_notify(&mail_notification(Some(2))));
    // What is not mail still gets through.
    let revoked = Notification::from_event("device.revoked", Some(1), &json("{}"), NOW);
    assert!(policy.should_notify(&revoked));
    policy.record(1, PauseLookup::Flag(0));
    assert!(policy.should_notify(&mail_notification(Some(1))));
}

#[test]
fn an_unknown_account_and_no_account_are_both_allowed() {
    let mut policy = AccountAwarePolicy::new();
    policy.record(99, PauseLookup::UnknownAccount);
    assert!(policy.should_notify(&mail_notification(Some(99))));
    assert!(policy.should_notify(&mail_notification(None)));
}

#[test]
fn disabling_kinds_suppresses_everything() {
    let mut policy = AccountAwarePolicy::new();
    assert!(policy.kinds_enabled());
    policy.set_kinds_enabled(false);
    assert!(!policy.should_notify(&mail_notification(None)));
    policy.set_kinds_enabled(true);
    assert!(policy.should_notify(&mail_notification(None)));
}

#[test]
fn a_policy_of_always_notify_delivers_everything() {
    let mut service = NotificationService::new(NoopNotifier, AlwaysNotify);
    assert!(service.notify(&mail_notification(Some(1))));
    assert!(service.handle_event("mail.received", None, &received_frame(), NOW));
}

#[test]
fn a_notification_is_recorded_with_its_wire_name() {
    let notification = mail_notification(Some(1));
    let statement = record_notification(&notification, &Some("{}".to_string()), "now");
    assert!(statement.sql.starts_with("INSERT INTO notifications"));
    assert_eq!(
        statement.binds,
        vec![
            Bind::Int(1),
            Bind::Text("mail.received".into()),
            Bind::Text("bob@example.net".into()),
            Bind::Text("Re: Invoice".into()),
            Bind::Text("{}".into()),
            Bind::Text("now".into()),
        ]
    );
    assert_eq!(pending_notifications(20).binds, vec![Bind::Int(20)]);
    let marks = mark_delivered(&[4, 7]);
    assert_eq!(marks.len(), 2);
    assert_eq!(marks[1].binds, vec![Bind::Int(7)]);
    assert!(mark_delivered(&[]).is_empty());
}

#[test]
fn a_recording_notifier_keeps_exactly_what_it_is_given() {
    let mut notifier = RecordingNotifier::new();
    notifier.notify(&mail_notification(Some(1)));
    assert_eq!(notifier.take(), vec![mail_notification(Some(1))]);
    assert!(notifier.take().is_empty());
}

#[test]
fn the_service_records_a_received_frame() {
    let mut service =
        NotificationService::new(RecordingNotifier::new(), AccountAwarePolicy::new());
    assert!(service.handle_event("mail.received", Some(1), &received_frame(), NOW));
    assert!(service.notify(&mail_notification(None)));
    let recorded = service.notifier.take();
    assert_eq!(recorded.len(), 2);
    assert_eq!(recorded[0].title, "bob@example.net");
    assert_eq!(recorded[0].account_id, Some(1));
    assert_eq!(recorded[1].account_id, None);
}

#[test]
fn a_suppressed_notification_is_neither_delivered_nor_recorded() {
    let mut policy = AccountAwarePolicy::new();
    policy.record(1, PauseLookup::Flag(1));
    let mut service = NotificationService::new(RecordingNotifier::new(), policy);
    assert!(!service.notify(&mail_notification(Some(1))));
    assert!(!service.handle_event("mail.received", Some(1), &received_frame(), NOW));
    assert!(service.notifier.take().is_empty());
}
