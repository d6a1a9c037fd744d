use ferroma_client::api::CLIENT_PROTOCOL_VERSION;
use ferroma_client::delay::Delay;
use ferroma_client::error::ClientError;
use ferroma_client::events::{
    is_event_kind, parse_frame, socket_target, url_with_cursor, Backoff, EventClient,
    EventConnection, EventRouter, EventStreamConfig, Hello, Received, RouterAction,
    ServerFrame, SocketMessage, DEFAULT_HEARTBEAT_SECS, EVENT_KINDS, PING_FRAME, PONG_FRAME,
};
use ferroma_client::json::{parse_json, Json};

const SECOND: i128 = 1_000_000_000;

fn seconds(count: i128) -> i128 {
    count * SECOND
}

fn json(text: &str) -> Json {
    parse_json(text).expect("json")
}

/// A connection whose socket is gone, to watch its clock.
fn detached(heartbeat_secs: u64, now: i128) -> EventConnection {
    let mut connection = EventConnection::start(heartbeat_secs, now);
    connection.close();
    connection
}

/// Parse a frame that is expected to be valid.
fn frame(text: &str) -> ServerFrame {
    parse_frame(text).expect("frame")
}

/// An event frame, for the router tests.
fn event(text: &str) -> ServerFrame {
    frame(text)
}

#[test]
fn a_hello_frame_is_parsed() {
    let parsed = frame(
        r#"{"type":"hello","protocol_version":1,"heartbeat_secs":30,"last_seq":1841}"#,
    );
    assert_eq!(
        parsed,
        ServerFrame::Hello(Hello {
            protocol_version: 1,
            heartbeat_secs: 30,
            last_seq: Some(1841),
        })
    );
    if let ServerFrame::Hello(hello) = parsed {
        assert_eq!(hello.heartbeat(), Delay::from_secs(30));
    } else {
        panic!("expected a hello");
    }
}

#[test]
fn a_hello_frame_falls_back_to_the_documented_defaults() {
    assert_eq!(
        frame(r#"{"type":"hello","last_seq":null}"#),
        ServerFrame::Hello(Hello {
            protocol_version: CLIENT_PROTOCOL_VERSION,
            heartbeat_secs: DEFAULT_HEARTBEAT_SECS,
            last_seq: None,
        })
    );
    assert_eq!(
        frame(r#"{"type":"hello"}"#),
        ServerFrame::Hello(Hello {
            protocol_version: 1,
            heartbeat_secs: 30,
            last_seq: None,
        })
    );
}

#[test]
fn ping_and_pong_frames_are_parsed() {
    assert_eq!(frame(r#"{"type":"ping"}"#), ServerFrame::Ping);
    assert_eq!(frame(r#"{"type":"pong"}"#), ServerFrame::Pong);
    // Whitespace around a frame is not significant.
    assert_eq!(frame("  {\"type\":\"ping\"}\n"), ServerFrame::Ping);
}

#[test]
fn a_full_mail_received_frame_keeps_every_field() {
    let parsed = frame(
        r#"{"seq":1842,"id":"0f4c8f1e","at":"2026-09-16T12:00:00Z","scope":"user:7",
            "type":"mail.received","mailbox_id":3,"message_id":4822,
            "from":"bob@example.net","subject":"Re: Invoice","snippet":"Thanks, got it."}"#,
    );
    let event = match parsed {
        ServerFrame::Event(event) => event,
        other => panic!("expected an event frame, got {other:?}"),
    };

    assert_eq!(event.seq, Some(1842));
    assert_eq!(event.id.as_deref(), Some("0f4c8f1e"));
    assert_eq!(event.at.as_deref(), Some("2026-09-16T12:00:00Z"));
    assert_eq!(event.scope.as_deref(), Some("user:7"));
    assert_eq!(event.kind, "mail.received");
    assert_eq!(event.mailbox_id, Some(3));
    assert_eq!(event.message_id, Some(4822));
    assert_eq!(event.from.as_deref(), Some("bob@example.net"));
    assert_eq!(event.subject.as_deref(), Some("Re: Invoice"));
    assert_eq!(event.snippet.as_deref(), Some("Thanks, got it."));
    assert!(!event.replay_gap);
    // The raw frame is kept for the layers that read fields this struct does
    // not name.
    assert_eq!(event.raw.int_at("message_id"), Some(4822));
}

#[test]
fn an_event_without_the_optional_fields_still_parses() {
    let event = match frame(r#"{"type":"draft.updated","seq":9}"#) {
        ServerFrame::Event(event) => event,
        other => panic!("expected an event frame, got {other:?}"),
    };
    assert_eq!(event.kind, "draft.updated");
    assert_eq!(event.seq, Some(9));
    assert_eq!(event.id, None);
    assert_eq!(event.at, None);
    assert_eq!(event.scope, None);
    assert_eq!(event.mailbox_id, None);
    assert_eq!(event.message_id, None);
    assert_eq!(event.from, None);
    assert_eq!(event.subject, None);
    assert_eq!(event.snippet, None);
    assert_eq!(event.raw.text_at("type").as_deref(), Some("draft.updated"));
}

#[test]
fn a_replay_gap_frame_is_recognised_with_and_without_a_type() {
    assert_eq!(frame(r#"{"replay_gap":true}"#), ServerFrame::ReplayGap);
    assert_eq!(
        frame(r#"{"type":"replay_gap","replay_gap":true}"#),
        ServerFrame::ReplayGap
    );
    // The server's own name for the frame is a signal on its own…
    assert_eq!(frame(r#"{"type":"replay_gap"}"#), ServerFrame::ReplayGap);
    // …and the flag is the signal, whatever else the frame carries.
    assert_eq!(
        frame(r#"{"seq":1843,"type":"mail.received","replay_gap":true}"#),
        ServerFrame::ReplayGap
    );
    // `false` is not a gap.
    assert!(matches!(
        frame(r#"{"replay_gap":false}"#),
        ServerFrame::Unknown(_)
    ));
}

#[test]
fn an_unknown_type_is_unknown_not_an_error() {
    assert_eq!(
        frame(r#"{"type":"team.invited","seq":5}"#),
        ServerFrame::Unknown(json(r#"{"type": "team.invited", "seq": 5}"#))
    );
    // A JSON object with no `type` at all is unknown too.
    assert!(matches!(frame(r#"{"seq":5}"#), ServerFrame::Unknown(_)));
    // …and so is a JSON scalar that is neither ping nor pong.
    assert!(matches!(frame("42"), ServerFrame::Unknown(_)));
    assert!(matches!(frame("null"), ServerFrame::Unknown(_)));
    assert!(matches!(frame(r#""hello""#), ServerFrame::Unknown(_)));
}

#[test]
fn a_frame_that_is_not_json_is_a_parse_error() {
    for bad in ["{ this is not json", "not json at all", "{\"seq\":}"] {
        let err = parse_frame(bad).expect_err("not JSON");
        assert!(matches!(err, ClientError::Parse(_)), "{bad}: {err:?}");
    }
    let err = parse_frame("   ").expect_err("an empty frame");
    assert!(matches!(err, ClientError::Parse(_)));
}

#[test]
fn a_json_array_is_unknown_and_does_not_panic() {
    assert_eq!(
        frame(r#"[{"type":"ping"},1,null]"#),
        ServerFrame::Unknown(json(r#"[{"type": "ping"}, 1, null]"#))
    );
}

#[test]
fn a_bare_ping_string_is_accepted() {
    // The JSON string the protocol allows…
    assert_eq!(frame(r#""ping""#), ServerFrame::Ping);
    assert_eq!(frame(r#""pong""#), ServerFrame::Pong);
    // …and the unquoted word some proxies leave behind.
    assert_eq!(frame("ping"), ServerFrame::Ping);
    assert_eq!(frame("PONG"), ServerFrame::Pong);
}

#[test]
fn the_event_kinds_are_the_documented_ten() {
    assert_eq!(EVENT_KINDS.len(), 10);
    for kind in EVENT_KINDS {
        assert!(is_event_kind(kind), "{kind}");
        assert!(matches!(
            frame(&format!(r#"{{"type":"{kind}","seq":1}}"#)),
            ServerFrame::Event(_)
        ));
    }
    assert!(!is_event_kind("mail.updated"));
    assert!(!is_event_kind(""));
}

#[test]
fn hello_refreshes_the_folders() {
    let mut router = EventRouter::new();
    assert_eq!(
        router.observe(&frame(r#"{"type":"hello","heartbeat_secs":30}"#)),
        vec![RouterAction::RefreshFolders]
    );
    // A hello is not an event: it must not touch the counters.
    assert_eq!(router.events_seen(), 0);
    assert_eq!(router.last_seq(), None);
}

#[test]
fn mail_received_notifies_and_syncs() {
    let mut router = EventRouter::new();
    assert_eq!(
        router.observe(&event(
            r#"{"seq":1842,"type":"mail.received","mailbox_id":3,"message_id":4822}"#
        )),
        vec![RouterAction::Notify, RouterAction::SyncNow]
    );
    assert_eq!(router.events_seen(), 1);
    assert_eq!(router.last_seq(), Some(1842));
}

#[test]
fn mail_state_changes_only_sync() {
    for kind in [
        "mail.sent",
        "mail.deleted",
        "mail.moved",
        "mail.flag_changed",
        "mail.read",
    ] {
        let mut router = EventRouter::new();
        let actions = router.observe(&event(&format!(r#"{{"seq":10,"type":"{kind}"}}"#)));
        assert_eq!(actions, vec![RouterAction::SyncNow], "{kind}");
        assert!(
            !actions.contains(&RouterAction::Notify),
            "{kind} must not ring the bell: the user caused it"
        );
    }
}

#[test]
fn drafts_reload_the_drafts_pane() {
    for kind in ["draft.created", "draft.updated"] {
        let mut router = EventRouter::new();
        assert_eq!(
            router.observe(&event(&format!(r#"{{"seq":3,"type":"{kind}"}}"#))),
            vec![RouterAction::ReloadDrafts],
            "{kind}"
        );
    }
}

#[test]
fn device_revoked_expires_the_session() {
    let mut router = EventRouter::new();
    assert_eq!(
        router.observe(&event(r#"{"seq":7,"type":"device.revoked","scope":"user:7"}"#)),
        vec![RouterAction::SessionExpired]
    );
}

#[test]
fn delivery_updated_notifies_without_forcing_a_sync() {
    let mut router = EventRouter::new();
    assert_eq!(
        router.observe(&event(r#"{"seq":8,"type":"delivery.updated"}"#)),
        vec![RouterAction::Notify]
    );
}

#[test]
fn anything_else_is_ignored() {
    let mut router = EventRouter::new();
    assert_eq!(
        router.observe(&frame(r#"{"seq":1,"type":"team.invited"}"#)),
        vec![RouterAction::Ignore]
    );
    assert_eq!(
        router.observe(&frame(r#"{"unexpected":true}"#)),
        vec![RouterAction::Ignore]
    );
    assert_eq!(router.observe(&ServerFrame::Ping), vec![RouterAction::Ignore]);
    assert_eq!(router.observe(&ServerFrame::Pong), vec![RouterAction::Ignore]);
}

#[test]
fn a_replay_gap_syncs_immediately() {
    let mut router = EventRouter::new();
    assert_eq!(
        router.observe(&frame(r#"{"replay_gap":true}"#)),
        vec![RouterAction::SyncNow]
    );
    assert_eq!(router.observe(&ServerFrame::ReplayGap), vec![RouterAction::SyncNow]);
}

#[test]
fn the_router_advances_its_sequence_high_water_mark() {
    let mut router = EventRouter::new();
    assert_eq!(router.last_seq(), None);

    router.observe(&event(r#"{"seq":1842,"type":"mail.received"}"#));
    assert_eq!(router.last_seq(), Some(1842));
    router.observe(&event(r#"{"seq":1843,"type":"mail.read"}"#));
    assert_eq!(router.last_seq(), Some(1843));

    // A frame without a `seq` routes by kind and leaves the cursor alone.
    assert_eq!(
        router.observe(&event(r#"{"type":"draft.updated"}"#)),
        vec![RouterAction::ReloadDrafts]
    );
    assert_eq!(router.last_seq(), Some(1843));
}

#[test]
fn a_duplicate_or_regressing_seq_syncs_again() {
    let mut router = EventRouter::new();
    let first = event(r#"{"seq":10,"type":"draft.updated"}"#);
    assert_eq!(router.observe(&first), vec![RouterAction::ReloadDrafts]);
    assert_eq!(router.last_seq(), Some(10));

    // The same frame twice is a duplicate: re-sync rather than trust it. The
    // sync is reported once, after the kind's own action.
    assert_eq!(
        router.observe(&first),
        vec![RouterAction::ReloadDrafts, RouterAction::SyncNow]
    );
    assert_eq!(router.last_seq(), Some(10));

    // A seq that went backwards must never move the watermark back.
    assert_eq!(
        router.observe(&event(r#"{"seq":4,"type":"draft.updated"}"#)),
        vec![RouterAction::ReloadDrafts, RouterAction::SyncNow]
    );
    assert_eq!(router.last_seq(), Some(10));

    // Forward again: no gap.
    assert_eq!(
        router.observe(&event(r#"{"seq":11,"type":"draft.updated"}"#)),
        vec![RouterAction::ReloadDrafts]
    );
    assert_eq!(router.last_seq(), Some(11));

    // A duplicate of an event that already syncs does not report it twice.
    let received = event(r#"{"seq":11,"type":"mail.received"}"#);
    assert_eq!(
        router.observe(&received),
        vec![RouterAction::Notify, RouterAction::SyncNow]
    );
}

#[test]
fn the_router_counts_every_event_frame() {
    let mut router = EventRouter::new();
    router.observe(&frame(r#"{"type":"hello"}"#));
    router.observe(&ServerFrame::Ping);
    router.observe(&ServerFrame::ReplayGap);
    router.observe(&event(r#"{"seq":1,"type":"mail.received"}"#));
    router.observe(&event(r#"{"seq":2,"type":"mail.read"}"#));
    // Not one of the documented kinds: parsed as unknown, so not an event.
    assert_eq!(
        router.observe(&frame(r#"{"seq":3,"type":"team.invited"}"#)),
        vec![RouterAction::Ignore]
    );
    assert_eq!(router.events_seen(), 2);

    // An event frame whose kind the routing table does not know still counts,
    // and still routes to `Ignore`.
    let mut unrouted = event(r#"{"seq":4,"type":"mail.read"}"#);
    if let ServerFrame::Event(inner) = &mut unrouted {
        inner.kind = "mail.updated".to_string();
    }
    assert_eq!(router.observe(&unrouted), vec![RouterAction::Ignore]);
    assert_eq!(router.events_seen(), 3);
}

#[test]
fn events_backoff_is_exponential_and_capped() {
    let backoff = Backoff::new(Delay::from_millis(100), Delay::from_millis(1000));
    assert_eq!(backoff.delay(1, 0), Delay::from_millis(100));
    assert_eq!(backoff.delay(2, 0), Delay::from_millis(200));
    assert_eq!(backoff.delay(3, 0), Delay::from_millis(400));
    assert_eq!(backoff.delay(4, 0), Delay::from_millis(800));
    assert_eq!(backoff.delay(5, 0), Delay::from_millis(1000));
    assert_eq!(backoff.delay(64, 0), Delay::from_millis(1000));
    // Attempt 0 is the first attempt, and a base above the ceiling is capped.
    assert_eq!(backoff.delay(0, 0), Delay::from_millis(100));
    let inverted = Backoff::new(Delay::from_secs(30), Delay::from_secs(2));
    assert_eq!(inverted.delay(1, 0), Delay::from_secs(2));
}

#[test]
fn jitter_stays_inside_the_band() {
    let backoff = Backoff::new(Delay::from_millis(100), Delay::from_secs(10));
    for _ in 0..200 {
        let millis = backoff.delay(1, 25).as_millis() as u64;
        assert!((75..=125).contains(&millis), "out of band: {millis}");
    }
    for _ in 0..200 {
        let millis = backoff.delay(3, 100).as_millis() as u64;
        assert!((300..=500).contains(&millis), "out of band: {millis}");
    }
    // Without a spread the delay never exceeds the ceiling.
    let short = Backoff::new(Delay::from_millis(10), Delay::from_millis(20));
    assert!(short.delay(1, 0) <= Delay::from_millis(20));
    assert!(short.delay(9, 0) <= Delay::from_millis(20));
}

#[test]
fn a_delay_that_grew_by_any_factor_is_capped() {
    let backoff = Backoff::new(Delay::from_millis(100), Delay::from_millis(1000));
    let factor: f64 = 1.5;
    let mut waits = Vec::new();
    for attempt in [0, 1, 2, 3, 7, 64] {
        let grown = 100.0 * factor.powi(Backoff::growths(attempt) as i32);
        waits.push(backoff.delay_grown(Some(grown as u64), 0).as_millis());
    }
    assert_eq!(waits, vec![100, 100, 150, 225, 1000, 1000]);
    assert_eq!(Backoff::growths(17), 16);
    assert_eq!(Backoff::growths(u32::MAX), 16);
    // Growth past counting waits as long as the ceiling says.
    assert_eq!(backoff.capped(None), 1000);
    for _ in 0..50 {
        let millis = backoff.delay_grown(None, 250).as_millis();
        assert!((750..=1250).contains(&millis), "out of band: {millis}");
    }
}

#[test]
fn the_default_backoff_is_one_to_sixty_seconds() {
    let backoff = Backoff::default();
    assert_eq!(backoff, Backoff::new(Delay::from_secs(1), Delay::from_secs(60)));
    assert_eq!(backoff.base, Delay::from_secs(1));
    assert_eq!(backoff.max, Delay::from_secs(60));
    assert_eq!(backoff.base_delay(2), 2 * backoff.base_delay(1));
}

#[test]
fn the_event_url_carries_the_cursor() {
    assert_eq!(
        EventClient::event_url("https://mail.example.com/api/v1/client", Some("1841")),
        "https://mail.example.com/api/v1/client/events?cursor=1841"
    );
    assert_eq!(
        EventClient::event_url("https://mail.example.com/api/v1/client", None),
        "https://mail.example.com/api/v1/client/events"
    );
    // A trailing slash is not doubled, and an empty cursor is no cursor.
    assert_eq!(
        EventClient::event_url("https://mail.example.com/api/v1/client/", Some("")),
        "https://mail.example.com/api/v1/client/events"
    );
    // An opaque cursor cannot smuggle in a second query parameter.
    assert_eq!(
        EventClient::event_url("https://mail.example.com", Some("1&limit=999")),
        "https://mail.example.com/events?cursor=1%26limit%3D999"
    );
    assert_eq!(
        EventClient::event_url("http://127.0.0.1:8080/api/v1/client", Some("0")),
        "http://127.0.0.1:8080/api/v1/client/events?cursor=0"
    );
}

#[test]
fn the_connect_url_takes_the_cursor_from_the_config() {
    assert_eq!(
        url_with_cursor("wss://mail.example.com/api/v1/client/events", Some("42")),
        "wss://mail.example.com/api/v1/client/events?cursor=42"
    );
    // A cursor already in the URL is not added twice.
    assert_eq!(
        url_with_cursor(
            "wss://mail.example.com/api/v1/client/events?cursor=42",
            Some("7")
        ),
        "wss://mail.example.com/api/v1/client/events?cursor=42"
    );
    assert_eq!(
        url_with_cursor("wss://mail.example.com/api/v1/client/events", None),
        "wss://mail.example.com/api/v1/client/events"
    );

    let config = EventStreamConfig::new("wss://mail.example.com/events", "s3cr3t-bearer-value")
        .resuming_from("1841");
    assert_eq!(config.cursor.as_deref(), Some("1841"));
    assert_eq!(config.heartbeat_secs, DEFAULT_HEARTBEAT_SECS);
    assert_eq!(config.backoff, Backoff::default());
    // The bearer token never reaches a log line, not even through `{:?}`:
    // the field *name* is printed, the secret must not be.
    assert!(!config.to_debug_string("2.0", "0.25").contains("s3cr3t-bearer-value"));
}

#[test]
fn the_heartbeat_clock_tracks_inbound_frames() {
    let now: i128 = 1_789_560_000 * SECOND;
    let mut connection = detached(30, now);

    assert_eq!(connection.heartbeat(), Delay::from_secs(30));
    assert!(!connection.is_open());
    // Nothing has arrived yet: the clock starts when the connection does.
    assert!(!connection.should_ping(now));
    assert!(!connection.should_ping(now + seconds(29)));
    assert!(connection.should_ping(now + seconds(30)));
    assert!(connection.should_ping(now + seconds(3600)));

    // A frame resets the clock.
    let later = now + seconds(300);
    connection.note_inbound(later);
    assert!(!connection.should_ping(later));
    assert!(!connection.should_ping(later + seconds(29)));
    assert!(connection.should_ping(later + seconds(30)));

    // A clock that stepped backwards must not become a ping storm.
    assert!(!connection.should_ping(now));
}

#[test]
fn the_hello_heartbeat_replaces_the_configured_one() {
    let now: i128 = 1_789_560_000 * SECOND;
    let mut connection = detached(DEFAULT_HEARTBEAT_SECS, now);
    assert!(!connection.should_ping(now + seconds(20)));

    connection.adopt_heartbeat(&frame(r#"{"type":"hello","heartbeat_secs":5}"#));
    assert_eq!(connection.heartbeat(), Delay::from_secs(5));
    assert!(connection.should_ping(now + seconds(5)));

    // A server asking for zero still gets a sane one-second heartbeat.
    connection.adopt_heartbeat(&frame(r#"{"type":"hello","heartbeat_secs":0}"#));
    assert_eq!(connection.heartbeat(), Delay::from_secs(1));

    // Any other frame leaves it alone.
    connection.adopt_heartbeat(&frame(r#"{"seq":1,"type":"mail.read"}"#));
    assert_eq!(connection.heartbeat(), Delay::from_secs(1));
}

#[test]
fn the_client_frames_match_the_server_parser() {
    assert_eq!(PING_FRAME, r#"{"type":"ping"}"#);
    assert_eq!(PONG_FRAME, r#"{"type":"pong"}"#);
    assert_eq!(json(PING_FRAME).text_at("type").as_deref(), Some("ping"));
    assert_eq!(json(PONG_FRAME).text_at("type").as_deref(), Some("pong"));
}

#[test]
fn the_token_is_named_but_never_shown() {
    let config = EventStreamConfig::new("wss://h/events", "s3cr3t");
    assert_eq!(
        config.to_debug_string(&format!("{:?}", 2.0), &format!("{:?}", 0.25)),
        "EventStreamConfig { url: \"wss://h/events\", token: \"<redacted>\", cursor: None, heartbeat_secs: 30, backoff: Backoff { base: 1s, max: 60s, factor: 2.0, jitter: 0.25 } }"
    );
}

#[test]
fn a_socket_needs_a_realtime_scheme_and_a_host() {
    let target = socket_target("wss://mail.example.com/api/v1/client/events?cursor=1").expect("target");
    assert!(target.tls);
    assert_eq!(target.host, "mail.example.com");
    assert_eq!(target.port, 443);
    let plain = socket_target("ws://127.0.0.1:8080/events").expect("target");
    assert!(!plain.tls);
    assert_eq!(plain.port, 8080);
    assert!(socket_target("ftp://mail.example.com").is_err());
    assert!(socket_target("not a url").is_err());
}

#[test]
fn a_message_is_a_frame_nothing_or_the_end() {
    let now: i128 = 1_789_560_000 * SECOND;
    let mut connection = EventConnection::start(30, now);
    assert!(connection.is_open());

    assert_eq!(
        connection.on_message(SocketMessage::Text(r#"{"type":"ping"}"#.into()), now),
        Ok(Received::Frame(ServerFrame::Ping))
    );
    // Binary that happens to be UTF-8 is read like text, and a hello is adopted.
    let bytes = br#"{"type":"hello","heartbeat_secs":5}"#.to_vec();
    assert!(matches!(
        connection.on_message(SocketMessage::Binary(bytes), now),
        Ok(Received::Frame(ServerFrame::Hello(_)))
    ));
    assert_eq!(connection.heartbeat(), Delay::from_secs(5));
    assert_eq!(
        connection.on_message(SocketMessage::Binary(vec![0xff, 0xfe]), now),
        Ok(Received::Skipped)
    );
    assert!(matches!(
        connection.on_message(SocketMessage::Text("nope".into()), now),
        Err(ClientError::Parse(_))
    ));
    assert_eq!(connection.on_message(SocketMessage::Close, now), Ok(Received::Closed));
    assert!(!connection.is_open());

    // A closed connection gives nothing more, and hears nothing more.
    let heard = connection.clone();
    for late in [
        SocketMessage::Text(r#"{"type":"hello","heartbeat_secs":9}"#.into()),
        SocketMessage::Ping,
        SocketMessage::Failed("reset".into()),
    ] {
        assert_eq!(connection.on_message(late, now + 1), Ok(Received::Closed));
    }
    assert_eq!(connection, heard);

    let mut failing = EventConnection::start(30, now);
    match failing.on_message(SocketMessage::Failed("reset".into()), now) {
        Err(ClientError::WebSocket(message)) => {
            assert_eq!(message, "the realtime socket failed: reset");
        }
        other => panic!("unexpected {other:?}"),
    }
    assert!(!failing.is_open());
}
