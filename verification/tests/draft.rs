use ferroma_client::api::{ApiError, DraftConflict, DraftRecord};
use ferroma_client::error::ClientError;
use ferroma_client::draft::{
    local_uid_from, Draft, DraftRow, DraftStore, NewDraft, OverwriteNotice, PullPass, PushOutcome,
    PushPass,
};
use ferroma_client::fcp::{FcpClient, Method};
use ferroma_client::time::Timestamp;

const NOW: Timestamp = Timestamp { secs: 1_789_560_000, nanos: 0 };

fn draft(uid: &str, server_id: Option<i64>, dirty: bool) -> Draft {
    let row = DraftRow {
        account_id: 1,
        local_uid: uid.into(),
        id: server_id,
        mailbox_id: None,
        subject: "Invoice".into(),
        text_body: Some("hello".into()),
        html_body: None,
        to_json: "[\"bob@example.net\"]".into(),
        cc_json: "[\"c@d.e\"]".into(),
        bcc_json: "torn".into(),
        in_reply_to: None,
        references_json: "[]".into(),
        attachment_ids_json: "[7,8]".into(),
        server_updated_at: None,
        local_updated_at: "2026-09-16T12:00:00Z".into(),
        dirty: i64::from(dirty),
        deleted: 0,
    };
    Draft::from_row(row, NOW)
}

fn online() -> DraftStore {
    DraftStore::with_client(FcpClient::new("http://x/client"))
}

#[test]
fn the_display_helpers_are_usable_by_the_list_view() {
    let mut shown = draft("local_1", None, true);
    assert_eq!(shown.display_subject(), "Invoice");
    assert_eq!(shown.recipients(), "bob@example.net, c@d.e");
    shown.subject = "  ".into();
    assert_eq!(shown.display_subject(), "(no subject)");
    let payload = shown.payload();
    assert_eq!(payload.text.as_deref(), Some("hello"));
    assert_eq!(payload.attachment_ids, vec![7, 8]);
}

#[test]
fn editing_an_unknown_draft_is_not_found() {
    match DraftStore::update(1, "local_9", None, &NewDraft::default(), "now") {
        Err(ClientError::NotFound(message)) => assert_eq!(message, "no draft local_9"),
        other => panic!("unexpected {other:?}"),
    }
}

#[test]
fn pushing_creates_then_updates_on_the_server() {
    let store = online();
    let fresh = draft("local_1", None, true);
    let created = store.push("local_1", Some(&fresh)).expect("request");
    assert_eq!(created.method, Method::Post);
    assert_eq!(created.path, "/drafts");
    assert_eq!(created.body.expect("body").text_at("subject").as_deref(), Some("Invoice"));

    let known = draft("local_1", Some(44), true);
    let updated = store.push("local_1", Some(&known)).expect("request");
    assert_eq!(updated.method, Method::Patch);
    assert_eq!(updated.path, "/drafts/44");
    assert!(matches!(store.push("local_1", None), Err(ClientError::NotFound(_))));
}

#[test]
fn pushing_reports_what_it_overwrote() {
    let known = draft("local_1", Some(44), true);
    let mut record = DraftRecord {
        id: 44,
        conflict: Some(DraftConflict {
            detected: true,
            server_updated_at: Some("2026-09-16T12:00:00Z".into()),
        }),
        ..DraftRecord::default()
    };
    let (_, notice) = DraftStore::pushed(&known, &record);
    let notice = notice.expect("a notice");
    assert_eq!(notice.server_id, 44);
    assert_eq!(notice.server_updated_at, Some(NOW));
    assert_eq!(
        notice.message(),
        "this draft had also been changed elsewhere (2026-09-16 12:00:00 UTC); your version was kept"
    );
    let silent = OverwriteNotice { server_updated_at: None, ..notice };
    assert_eq!(
        silent.message(),
        "this draft had also been changed elsewhere; your version was kept"
    );
    record.conflict = Some(DraftConflict { detected: false, server_updated_at: None });
    assert!(DraftStore::pushed(&known, &record).1.is_none());
}

#[test]
fn pushing_without_a_server_is_unsupported() {
    let fresh = draft("local_1", None, true);
    assert!(matches!(
        DraftStore::new().push("local_1", Some(&fresh)),
        Err(ClientError::Unsupported(_))
    ));
    assert!(matches!(DraftStore::new().pull(), Err(ClientError::Unsupported(_))));
    assert_eq!(online().pull().expect("request").path, "/drafts");
}

#[test]
fn pulling_adopts_the_servers_drafts() {
    let record = DraftRecord { id: 44, subject: "Server".into(), ..DraftRecord::default() };
    let mut pass = PullPass::new(vec![record.clone(), record]);
    let written = pass.on_existing(1, None, "now").expect("ok").expect("written");
    assert_eq!(
        written.binds[1],
        ferroma_client::database::Bind::Text("srv:44".into())
    );
    // A draft that is known keeps its uid.
    let written = pass
        .on_existing(1, Some(draft("local_1", Some(44), false)), "now")
        .expect("ok")
        .expect("written");
    assert_eq!(
        written.binds[1],
        ferroma_client::database::Bind::Text("local_1".into())
    );
    assert_eq!(pass.finish(), 2);
}

#[test]
fn push_all_pushes_every_dirty_draft_in_order() {
    let dirty = vec![draft("a", None, true), draft("b", None, true), draft("c", None, true)];
    let mut pass = PushPass::new(&dirty);
    let mut seen = Vec::new();
    while let Some(uid) = pass.next().map(|uid| uid.to_string()) {
        let outcome = PushOutcome { draft: draft(&uid, Some(1), false), notice: None };
        seen.push(uid);
        pass.on_result(Ok(outcome));
    }
    assert_eq!(seen, vec!["a".to_string(), "b".to_string(), "c".to_string()]);
    assert_eq!(pass.finish().expect("all").len(), 3);

    let mut pass = PushPass::new(&dirty);
    pass.on_result(Ok(PushOutcome { draft: draft("a", Some(1), false), notice: None }));
    pass.on_result(Err(ClientError::Network("reset".into())));
    assert!(pass.next().is_none(), "a failure stops the pass");
    assert!(matches!(pass.finish(), Err(ClientError::Network(_))));
}

#[test]
fn deleting_a_pushed_draft_also_deletes_it_on_the_server() {
    let known = draft("local_1", Some(44), false);
    let (_, request) = online().delete(1, "local_1", Some(&known)).expect("delete");
    let request = request.expect("request");
    assert_eq!(request.method, Method::Delete);
    assert_eq!(request.path, "/drafts/44");
    let local = draft("local_2", None, true);
    assert!(online().delete(1, "local_2", Some(&local)).expect("delete").1.is_none());
    assert!(online().delete(1, "local_3", None).is_err());
}

#[test]
fn a_deleted_draft_on_the_server_does_not_break_a_delete() {
    let refused = |status: u16| Err(ClientError::Api(ApiError::new(status, "x", "y")));
    assert!(DraftStore::deleted(refused(404)).is_ok());
    assert!(DraftStore::deleted(refused(500)).is_err());
    assert!(DraftStore::deleted(Err(ClientError::SessionExpired)).is_err());
    assert!(DraftStore::deleted(Ok(())).is_ok());
}

#[test]
fn a_local_uid_is_made_of_its_random_part() {
    assert_eq!(local_uid_from("abc"), "local_abc");
    let (uid, _) = DraftStore::create(1, &NewDraft::default(), "now").expect("create");
    assert_eq!(uid.len(), 38);
    let (other, _) = DraftStore::create(1, &NewDraft::default(), "now").expect("create");
    assert_ne!(uid, other);
}
