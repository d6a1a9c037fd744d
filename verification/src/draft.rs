//! Local drafts that sync to the server.
//!
//! Text the user typed is written to the cache first and pushed afterwards. A draft
//! carries a stable `local_uid`, so the compose window survives a restart even
//! before the server has assigned an id.
//!
//! The conflict policy is last write wins, and the client is told what it
//! overwrote:
//!
//! * pushing a dirty draft always wins locally, and the server's answer says whether
//!   it replaced a newer version: that is an [`OverwriteNotice`];
//! * pulling never overwrites a draft that is still `dirty`, because losing typed
//!   text is the one failure that is never acceptable.

use vstd::prelude::*;

use crate::api::{DraftPayload, DraftRecord};
use crate::columns::{
    numbers_text, parse_ids, parse_list, store_ids, store_list, stored_numbers, stored_strings,
    strings_text,
};
use crate::database::{int_bind, text_bind, Bind, BindView, Statement};
use crate::error::{ClientError, ClientResult};
use crate::fcp::{
    call_request, draft_view, law_a_draft_reads_back, path_with_id, plain_request, text_or_none, Call,
    FcpClient, Method, RequestSpec, RequestView,
};
use crate::json::{ints_view, texts_view, JsonView};
use crate::text::{
    concat3, copy_list, copy_opt, decimal_signed, join, joined, lemma_signed_digits_injective,
    opt_view, signed_digits,
    trim, trimmed, views,
};
use crate::time::{
    optional_time, parse_optional, parse_or, show_time, shown_time, time_or, Timestamp,
};
use crate::util::{all_hex, random_uuid};

verus! {

/// A draft, as the client stores it.
#[derive(Debug, Clone, PartialEq, Eq)]
pub struct Draft {
    /// The owning account.
    pub account_id: i64,
    /// A client-generated, stable identifier for this draft.
    pub local_uid: String,
    /// The server's id, once the draft has been pushed.
    pub server_id: Option<i64>,
    /// Which address it will be sent from.
    pub mailbox_id: Option<i64>,
    /// The subject.
    pub subject: String,
    /// The plain-text body.
    pub text_body: Option<String>,
    /// The HTML body.
    pub html_body: Option<String>,
    /// `To:` addresses.
    pub to: Vec<String>,
    /// `Cc:` addresses.
    pub cc: Vec<String>,
    /// `Bcc:` addresses.
    pub bcc: Vec<String>,
    /// The `In-Reply-To` header.
    pub in_reply_to: Option<String>,
    /// The `References` header.
    pub references: Vec<String>,
    /// Already-uploaded attachments.
    pub attachment_ids: Vec<i64>,
    /// The `updated_at` the server last reported.
    pub server_updated_at: Option<Timestamp>,
    /// The last local edit.
    pub local_updated_at: Timestamp,
    /// Whether local edits have not been pushed yet.
    pub dirty: bool,
    /// Whether the server, or the user, deleted it.
    pub deleted: bool,
}

/// The columns of a `drafts` row, as they are stored.
#[derive(Debug, Clone, PartialEq, Eq)]
pub struct DraftRow {
    /// `account_id`
    pub account_id: i64,
    /// `local_uid`
    pub local_uid: String,
    /// `id`
    pub id: Option<i64>,
    /// `mailbox_id`
    pub mailbox_id: Option<i64>,
    /// `subject`
    pub subject: String,
    /// `text_body`
    pub text_body: Option<String>,
    /// `html_body`
    pub html_body: Option<String>,
    /// `to_json`
    pub to_json: String,
    /// `cc_json`
    pub cc_json: String,
    /// `bcc_json`
    pub bcc_json: String,
    /// `in_reply_to`
    pub in_reply_to: Option<String>,
    /// `references_json`
    pub references_json: String,
    /// `attachment_ids_json`
    pub attachment_ids_json: String,
    /// `server_updated_at`
    pub server_updated_at: Option<String>,
    /// `local_updated_at`
    pub local_updated_at: String,
    /// `dirty`
    pub dirty: i64,
    /// `deleted`
    pub deleted: i64,
}

/// Whether `draft` is what `row` stands for at `now`.
pub open spec fn draft_of_row(draft: Draft, row: DraftRow, now: Timestamp) -> bool {
    &&& draft.account_id == row.account_id
    &&& draft.local_uid == row.local_uid
    &&& draft.server_id == row.id
    &&& draft.mailbox_id == row.mailbox_id
    &&& draft.subject == row.subject
    &&& draft.text_body == row.text_body
    &&& draft.html_body == row.html_body
    &&& views(draft.to@) == stored_strings(row.to_json@)
    &&& views(draft.cc@) == stored_strings(row.cc_json@)
    &&& views(draft.bcc@) == stored_strings(row.bcc_json@)
    &&& draft.in_reply_to == row.in_reply_to
    &&& views(draft.references@) == stored_strings(row.references_json@)
    &&& draft.attachment_ids@.map_values(|n: i64| n as int) == stored_numbers(
        row.attachment_ids_json@,
    )
    &&& draft.server_updated_at == optional_time(row.server_updated_at)
    &&& draft.local_updated_at == time_or(row.local_updated_at@, now)
    &&& draft.dirty == (row.dirty != 0)
    &&& draft.deleted == (row.deleted != 0)
}

/// Whether `payload` carries the content of `draft`.
pub open spec fn payload_of(payload: DraftPayload, draft: Draft) -> bool {
    &&& payload.subject == draft.subject
    &&& payload.text == draft.text_body
    &&& payload.html == draft.html_body
    &&& payload.to@ == draft.to@
    &&& payload.cc@ == draft.cc@
    &&& payload.bcc@ == draft.bcc@
    &&& payload.in_reply_to == draft.in_reply_to
    &&& payload.references@ == draft.references@
    &&& payload.attachment_ids@ == draft.attachment_ids@
}

fn extend(all: &mut Vec<String>, more: &Vec<String>)
    ensures
        views(final(all)@) == views(old(all)@) + views(more@),
{
    let ghost start = views(all@);
    let mut i: usize = 0;
    assert(start + views(more@.take(0)) =~= start);
    while i < more.len()
        invariant
            i <= more@.len(),
            views(all@) == start + views(more@.take(i as int)),
        decreases more@.len() - i,
    {
        let ghost before = all@;
        let item = more[i].clone();
        all.push(item);
        proof {
            assert(views(all@) =~= views(before).push(item@));
            assert(views(more@.take(i + 1)) =~= views(more@.take(i as int)).push(more@[i as int]@));
            assert(start + views(more@.take(i + 1)) =~= (start + views(more@.take(i as int))).push(
                item@,
            ));
        }
        i = i + 1;
    }
    assert(more@.take(more@.len() as int) =~= more@);
}

impl Draft {
    /// The subject, or a placeholder for the list view.
    pub fn display_subject(&self) -> (result: &str)
        ensures
            result@ == (if trimmed(self.subject@).len() == 0 {
                "(no subject)"@
            } else {
                self.subject@
            }),
    {
        if trim(self.subject.as_str()).as_str().is_empty() {
            "(no subject)"
        } else {
            self.subject.as_str()
        }
    }

    /// The recipients, as one line.
    pub fn recipients(&self) -> (result: String)
        ensures
            result@ == joined(views(self.to@) + views(self.cc@) + views(self.bcc@), ", "@),
    {
        let mut all = copy_list(&self.to);
        extend(&mut all, &self.cc);
        extend(&mut all, &self.bcc);
        join(&all, ", ")
    }

    /// The wire payload for `POST`/`PATCH /drafts`.
    pub fn payload(&self) -> (result: DraftPayload)
        ensures
            payload_of(result, *self),
    {
        DraftPayload {
            subject: self.subject.clone(),
            text: copy_opt(&self.text_body),
            html: copy_opt(&self.html_body),
            to: copy_list(&self.to),
            cc: copy_list(&self.cc),
            bcc: copy_list(&self.bcc),
            in_reply_to: copy_opt(&self.in_reply_to),
            references: copy_list(&self.references),
            attachment_ids: self.attachment_ids.clone(),
        }
    }

    /// Read a draft from its stored columns. Lists that cannot be read are empty,
    /// and a time that cannot be read is `now`.
    pub fn from_row(row: DraftRow, now: Timestamp) -> (result: Draft)
        ensures
            draft_of_row(result, row, now),
    {
        Draft {
            account_id: row.account_id,
            local_uid: row.local_uid,
            server_id: row.id,
            mailbox_id: row.mailbox_id,
            subject: row.subject,
            text_body: row.text_body,
            html_body: row.html_body,
            to: parse_list(row.to_json.as_str()),
            cc: parse_list(row.cc_json.as_str()),
            bcc: parse_list(row.bcc_json.as_str()),
            in_reply_to: row.in_reply_to,
            references: parse_list(row.references_json.as_str()),
            attachment_ids: parse_ids(row.attachment_ids_json.as_str()),
            server_updated_at: parse_optional(&row.server_updated_at),
            local_updated_at: parse_or(row.local_updated_at.as_str(), now),
            dirty: row.dirty != 0,
            deleted: row.deleted != 0,
        }
    }
}

/// The content of a draft the caller wants to store.
#[derive(Debug, Clone, PartialEq, Eq)]
pub struct NewDraft {
    /// Which address to send from.
    pub mailbox_id: Option<i64>,
    /// The subject.
    pub subject: String,
    /// The plain-text body.
    pub text_body: Option<String>,
    /// The HTML body.
    pub html_body: Option<String>,
    /// `To:` addresses.
    pub to: Vec<String>,
    /// `Cc:` addresses.
    pub cc: Vec<String>,
    /// `Bcc:` addresses.
    pub bcc: Vec<String>,
    /// The `In-Reply-To` header.
    pub in_reply_to: Option<String>,
    /// The `References` header.
    pub references: Vec<String>,
    /// Attachments to keep attached.
    pub attachment_ids: Vec<i64>,
}

impl Default for NewDraft {
    fn default() -> (result: NewDraft)
        ensures
            result.mailbox_id is None,
            result.subject@ == Seq::<char>::empty(),
            result.text_body is None,
            result.html_body is None,
            result.to@.len() == 0,
            result.cc@.len() == 0,
            result.bcc@.len() == 0,
            result.in_reply_to is None,
            result.references@.len() == 0,
            result.attachment_ids@.len() == 0,
    {
        NewDraft {
            mailbox_id: None,
            subject: String::new(),
            text_body: None,
            html_body: None,
            to: Vec::new(),
            cc: Vec::new(),
            bcc: Vec::new(),
            in_reply_to: None,
            references: Vec::new(),
            attachment_ids: Vec::new(),
        }
    }
}

/// What a push overwrote on the server.
#[derive(Debug, Clone, Copy, PartialEq, Eq, Structural)]
pub struct OverwriteNotice {
    /// The server-side draft id.
    pub server_id: i64,
    /// The local edit that won.
    pub local_updated_at: Timestamp,
    /// The server version that was replaced, when the server reported one.
    pub server_updated_at: Option<Timestamp>,
}

/// The sentence about an overwritten version, given how its time is shown.
pub open spec fn notice_text(when: Option<Seq<char>>) -> Seq<char> {
    match when {
        Some(when) => "this draft had also been changed elsewhere ("@ + when
            + "); your version was kept"@,
        None => "this draft had also been changed elsewhere; your version was kept"@,
    }
}

impl OverwriteNotice {
    /// A sentence the UI can show verbatim.
    pub fn message(&self) -> (result: String)
        ensures
            result@ == notice_text(
                match self.server_updated_at {
                    Some(time) => shown_time(time),
                    None => None,
                },
            ),
    {
        let when = match self.server_updated_at {
            Some(time) => show_time(time),
            None => None,
        };
        match when {
            Some(when) => concat3(
                "this draft had also been changed elsewhere (",
                when.as_str(),
                "); your version was kept",
            ),
            None => "this draft had also been changed elsewhere; your version was kept".to_owned(),
        }
    }
}

/// The result of pushing one draft.
#[derive(Debug, Clone, PartialEq, Eq)]
pub struct PushOutcome {
    /// The draft as it now stands locally.
    pub draft: Draft,
    /// Set when the push replaced a newer server-side copy.
    pub notice: Option<OverwriteNotice>,
}

// -- the store -------------------------------------------------------------

/// Local draft storage that syncs to the server.
#[derive(Debug, Clone)]
pub struct DraftStore {
    client: Option<FcpClient>,
}

/// Writes a draft's content, and marks it as live.
pub const UPSERT_DRAFT: &'static str =
    "INSERT INTO drafts (account_id, local_uid, mailbox_id, subject, text_body, html_body, to_json, cc_json, bcc_json, in_reply_to, references_json, attachment_ids_json, local_updated_at, dirty, deleted) VALUES (?, ?, ?, ?, ?, ?, ?, ?, ?, ?, ?, ?, ?, ?, 0) ON CONFLICT(account_id, local_uid) DO UPDATE SET mailbox_id = excluded.mailbox_id, subject = excluded.subject, text_body = excluded.text_body, html_body = excluded.html_body, to_json = excluded.to_json, cc_json = excluded.cc_json, bcc_json = excluded.bcc_json, in_reply_to = excluded.in_reply_to, references_json = excluded.references_json, attachment_ids_json = excluded.attachment_ids_json, local_updated_at = excluded.local_updated_at, dirty = excluded.dirty, deleted = 0";

/// Writes the server's version of a draft, which is then clean.
pub const APPLY_DRAFT: &'static str =
    "INSERT INTO drafts (account_id, local_uid, id, subject, text_body, html_body, to_json, cc_json, bcc_json, server_updated_at, local_updated_at, dirty, deleted) VALUES (?, ?, ?, ?, ?, ?, ?, ?, ?, ?, ?, 0, 0) ON CONFLICT(account_id, local_uid) DO UPDATE SET id = excluded.id, subject = excluded.subject, text_body = excluded.text_body, html_body = excluded.html_body, to_json = excluded.to_json, cc_json = excluded.cc_json, bcc_json = excluded.bcc_json, server_updated_at = excluded.server_updated_at, dirty = 0, deleted = 0";

/// Marks a draft as pushed.
pub const MARK_PUSHED: &'static str =
    "UPDATE drafts SET id = ?, server_updated_at = ?, dirty = 0 WHERE account_id = ? AND local_uid = ?";

/// Deletes a draft.
pub const DELETE_DRAFT: &'static str = "DELETE FROM drafts WHERE account_id = ? AND local_uid = ?";

/// The message for a draft that is not there.
pub open spec fn no_draft(local_uid: Seq<char>) -> Seq<char> {
    "no draft "@ + local_uid
}

/// The parameters that write a draft's content.
pub open spec fn upsert_binds(
    account_id: i64,
    local_uid: Seq<char>,
    draft: NewDraft,
    dirty: bool,
    now: Seq<char>,
) -> Seq<BindView> {
    seq![
        BindView::Int(account_id as int),
        BindView::Text(local_uid),
        int_bind(draft.mailbox_id),
        BindView::Text(draft.subject@),
        text_bind(draft.text_body),
        text_bind(draft.html_body),
        BindView::Text(strings_text(views(draft.to@))),
        BindView::Text(strings_text(views(draft.cc@))),
        BindView::Text(strings_text(views(draft.bcc@))),
        text_bind(draft.in_reply_to),
        BindView::Text(strings_text(views(draft.references@))),
        BindView::Text(numbers_text(draft.attachment_ids@)),
        BindView::Text(now),
        BindView::Int(if dirty { 1int } else { 0int }),
    ]
}

/// Whether the list columns of a draft read back as the lists.
pub open spec fn lists_read_back(draft: NewDraft) -> bool {
    &&& stored_strings(strings_text(views(draft.to@))) == views(draft.to@)
    &&& stored_strings(strings_text(views(draft.cc@))) == views(draft.cc@)
    &&& stored_strings(strings_text(views(draft.bcc@))) == views(draft.bcc@)
    &&& stored_strings(strings_text(views(draft.references@))) == views(draft.references@)
    &&& stored_numbers(numbers_text(draft.attachment_ids@)) == draft.attachment_ids@.map_values(
        |n: i64| n as int,
    )
}

/// The parameters that write the server's version of a draft.
pub open spec fn apply_binds(
    account_id: i64,
    local_uid: Seq<char>,
    record: DraftRecord,
    now: Seq<char>,
) -> Seq<BindView> {
    seq![
        BindView::Int(account_id as int),
        BindView::Text(local_uid),
        BindView::Int(record.id as int),
        BindView::Text(record.subject@),
        text_bind(record.text),
        text_bind(record.html),
        BindView::Text(strings_text(views(record.to@))),
        BindView::Text(strings_text(views(record.cc@))),
        BindView::Text(strings_text(views(record.bcc@))),
        text_bind(record.updated_at),
        BindView::Text(now),
    ]
}

/// Whether the list columns of a server's draft read back as the lists.
pub open spec fn record_lists_read_back(record: DraftRecord) -> bool {
    &&& stored_strings(strings_text(views(record.to@))) == views(record.to@)
    &&& stored_strings(strings_text(views(record.cc@))) == views(record.cc@)
    &&& stored_strings(strings_text(views(record.bcc@))) == views(record.bcc@)
}

/// The parameters that mark a draft as pushed.
pub open spec fn pushed_binds(draft: Draft, record: DraftRecord) -> Seq<BindView> {
    seq![
        BindView::Int(record.id as int),
        text_bind(record.updated_at),
        BindView::Int(draft.account_id as int),
        BindView::Text(draft.local_uid@),
    ]
}

/// The local uid of a server draft: the one it already has here, or one that is
/// made from its server id.
pub open spec fn uid_for(existing: Option<Draft>, server_id: int) -> Seq<char> {
    match existing {
        Some(draft) => draft.local_uid@,
        None => "srv:"@ + signed_digits(server_id),
    }
}

/// Whether the server's version may be written over what is here: always, except
/// over text that has not been pushed.
pub open spec fn may_apply(existing: Option<Draft>) -> bool {
    existing matches Some(draft) ==> !draft.dirty
}

/// What a push overwrote: there is a notice exactly when the server detected a
/// conflict.
pub open spec fn notice_of(draft: Draft, record: DraftRecord) -> Option<OverwriteNotice> {
    match record.conflict {
        Some(conflict) => if conflict.detected {
            Some(
                OverwriteNotice {
                    server_id: match draft.server_id {
                        Some(id) => id,
                        None => record.id,
                    },
                    local_updated_at: draft.local_updated_at,
                    server_updated_at: optional_time(conflict.server_updated_at),
                },
            )
        } else {
            None
        },
        None => None,
    }
}

/// The request that pushes a draft: a `POST` for one that the server has never seen, a `PATCH`
/// of the one it knows afterwards.
pub open spec fn push_request(server_id: Option<i64>, payload: DraftPayload) -> RequestView {
    (match server_id {
        Some(id) => plain_request(Method::Patch, path_with_id("/drafts/"@, id as int)),
        None => plain_request(Method::Post, "/drafts"@),
    }).with_body(draft_view(payload))
}

/// The local uid of a new draft, given a fresh random text.
pub fn local_uid_from(random: &str) -> (result: String)
    ensures
        result@ == "local_"@ + random@,
{
    let mut out = "local_".to_owned();
    out.append(random);
    out
}

fn missing_draft(local_uid: &str) -> (result: ClientError)
    ensures
        result matches ClientError::NotFound(m) && m@ == no_draft(local_uid@),
{
    let mut message = "no draft ".to_owned();
    message.append(local_uid);
    ClientError::NotFound(message)
}

impl DraftStore {
    /// Whether the store can push and pull.
    pub closed spec fn online(&self) -> bool {
        self.client is Some
    }

    /// A store with no server: everything stays local, and dirty.
    pub fn new() -> (result: DraftStore)
        ensures
            !result.online(),
    {
        DraftStore { client: None }
    }

    /// A store that can push and pull.
    pub fn with_client(client: FcpClient) -> (result: DraftStore)
        ensures
            result.online(),
    {
        DraftStore { client: Some(client) }
    }

    /// Store a new draft: its local uid and the statement that writes it. Nothing
    /// is sent.
    pub fn create(account_id: i64, draft: &NewDraft, now: &str) -> (result: ClientResult<
        (String, Statement),
    >)
        ensures
            result matches Ok((uid, statement)) && statement.stands_for(
                UPSERT_DRAFT@,
                upsert_binds(account_id, uid@, *draft, true, now@),
            ) && fresh_local_uid(uid@) && lists_read_back(*draft),
    {
        let random = random_uuid();
        let uid = local_uid_from(random.as_str());
        assert(uid@ == "local_"@ + random@);
        match DraftStore::upsert(account_id, uid.as_str(), draft, true, now) {
            Ok(statement) => Ok((uid, statement)),
            Err(error) => Err(error),
        }
    }

    /// Overwrite an existing draft's content, given what is stored under its uid.
    pub fn update(
        account_id: i64,
        local_uid: &str,
        existing: Option<&Draft>,
        draft: &NewDraft,
        now: &str,
    ) -> (result: ClientResult<Statement>)
        ensures
            match existing {
                None => result matches Err(ClientError::NotFound(m)) && m@ == no_draft(local_uid@),
                Some(_) => result is Ok && result->Ok_0.stands_for(
                    UPSERT_DRAFT@,
                    upsert_binds(account_id, local_uid@, *draft, true, now@),
                ) && lists_read_back(*draft),
            },
    {
        match existing {
            None => Err(missing_draft(local_uid)),
            Some(_) => DraftStore::upsert(account_id, local_uid, draft, true, now),
        }
    }

    /// The statement that writes a draft's content.
    pub fn upsert(account_id: i64, local_uid: &str, draft: &NewDraft, dirty: bool, now: &str) -> (result:
        ClientResult<Statement>)
        ensures
            result is Ok,
            result->Ok_0.stands_for(
                UPSERT_DRAFT@,
                upsert_binds(account_id, local_uid@, *draft, dirty, now@),
            ),
            lists_read_back(*draft),
    {
        let to = store_list(&draft.to)?;
        let cc = store_list(&draft.cc)?;
        let bcc = store_list(&draft.bcc)?;
        let references = store_list(&draft.references)?;
        let attachment_ids = store_ids(&draft.attachment_ids)?;
        let flag: i64 = if dirty {
            1
        } else {
            0
        };
        Ok(
            Statement::new(UPSERT_DRAFT).bind(Bind::Int(account_id)).bind(
                Bind::text(local_uid),
            ).bind(Bind::int_if(draft.mailbox_id)).bind(Bind::text(draft.subject.as_str())).bind(
                Bind::text_if(&draft.text_body),
            ).bind(Bind::text_if(&draft.html_body)).bind(Bind::Text(to)).bind(Bind::Text(cc)).bind(
                Bind::Text(bcc),
            ).bind(Bind::text_if(&draft.in_reply_to)).bind(Bind::Text(references)).bind(
                Bind::Text(attachment_ids),
            ).bind(Bind::text(now)).bind(Bind::Int(flag)),
        )
    }

    /// Delete a draft, given what is stored under its uid: the statement that
    /// deletes it here, and the request that deletes it on the server, when there
    /// is a server that knows it.
    ///
    /// The local delete comes first and wins even if the server call fails: the
    /// user asked for the draft to be gone.
    pub fn delete(&self, account_id: i64, local_uid: &str, existing: Option<&Draft>) -> (result:
        ClientResult<(Statement, Option<RequestSpec>)>)
        ensures
            match existing {
                None => result matches Err(ClientError::NotFound(m)) && m@ == no_draft(local_uid@),
                Some(draft) => {
                    &&& result matches Ok((statement, request))
                    &&& statement.stands_for(
                        DELETE_DRAFT@,
                        seq![BindView::Int(account_id as int), BindView::Text(local_uid@)],
                    )
                    &&& match delete_request(self.online(), draft.server_id) {
                        Some(expected) => request is Some && request->0@ == expected,
                        None => request is None,
                    }
                },
            },
    {
        let draft = match existing {
            Some(draft) => draft,
            None => {
                return Err(missing_draft(local_uid));
            },
        };
        let statement = Statement::new(DELETE_DRAFT).bind(Bind::Int(account_id)).bind(
            Bind::text(local_uid),
        );
        let request = match (&self.client, draft.server_id) {
            (Some(client), Some(server_id)) => Some(client.delete_draft(server_id)),
            _ => None,
        };
        Ok((statement, request))
    }

    /// What the server's answer to a delete comes to: a draft that was already gone
    /// there is deleted.
    pub fn deleted(answer: ClientResult<()>) -> (result: ClientResult<()>)
        ensures
            match answer {
                Err(ClientError::Api(api)) => if gone_already(api.status as int) {
                    result is Ok
                } else {
                    result == answer
                },
                _ => result == answer,
            },
    {
        match answer {
            Err(ClientError::Api(api)) => if api.status == 404 {
                Ok(())
            } else {
                Err(ClientError::Api(api))
            },
            other => other,
        }
    }

    /// The request that pushes a draft, given what is stored under its uid: a
    /// `POST` for a draft the server has never seen, a `PATCH` afterwards.
    pub fn push(&self, local_uid: &str, existing: Option<&Draft>) -> (result: ClientResult<
        RequestSpec,
    >)
        ensures
            if !self.online() {
                result matches Err(ClientError::Unsupported(m)) && m@
                    == "this draft store has no server"@
            } else {
                match existing {
                    None => result matches Err(ClientError::NotFound(m)) && m@ == no_draft(
                        local_uid@,
                    ),
                    Some(draft) => result is Ok && exists|payload: DraftPayload|
                        payload_of(payload, *draft) && result->Ok_0@ == #[trigger] push_request(
                            draft.server_id,
                            payload,
                        ),
                }
            },
    {
        let client = match &self.client {
            Some(client) => client,
            None => {
                return Err(ClientError::Unsupported("this draft store has no server".to_owned()));
            },
        };
        let draft = match existing {
            Some(draft) => draft,
            None => {
                return Err(missing_draft(local_uid));
            },
        };
        let payload = draft.payload();
        let request = match draft.server_id {
            Some(server_id) => client.update_draft(server_id, &payload),
            None => client.create_draft(&payload),
        };
        assert(payload_of(payload, *draft));
        assert(request@ == push_request(draft.server_id, payload));
        Ok(request)
    }

    /// What the server's answer to a push comes to: the statement that marks the
    /// draft as pushed, and what the push overwrote.
    pub fn pushed(draft: &Draft, record: &DraftRecord) -> (result: (
        Statement,
        Option<OverwriteNotice>,
    ))
        ensures
            result.0.stands_for(MARK_PUSHED@, pushed_binds(*draft, *record)),
            result.1 == notice_of(*draft, *record),
    {
        let notice = match &record.conflict {
            Some(conflict) => if conflict.detected {
                let server_id: i64 = match draft.server_id {
                    Some(id) => id,
                    None => record.id,
                };
                Some(
                    OverwriteNotice {
                        server_id,
                        local_updated_at: draft.local_updated_at,
                        server_updated_at: parse_optional(&conflict.server_updated_at),
                    },
                )
            } else {
                None
            },
            None => None,
        };
        let statement = Statement::new(MARK_PUSHED).bind(Bind::Int(record.id)).bind(
            Bind::text_if(&record.updated_at),
        ).bind(Bind::Int(draft.account_id)).bind(Bind::text(draft.local_uid.as_str()));
        (statement, notice)
    }

    /// The request that lists the server's drafts, for a pull.
    pub fn pull(&self) -> (result: ClientResult<RequestSpec>)
        ensures
            if self.online() {
                result is Ok && result->Ok_0@ == plain_request(Method::Get, "/drafts"@)
            } else {
                result matches Err(ClientError::Unsupported(m)) && m@
                    == "this draft store has no server"@
            },
    {
        match &self.client {
            Some(client) => Ok(client.list_drafts()),
            None => Err(ClientError::Unsupported("this draft store has no server".to_owned())),
        }
    }
}

/// The request that deletes a draft on the server, when there is a server that knows it.
pub open spec fn delete_request(online: bool, server_id: Option<i64>) -> Option<RequestView> {
    match server_id {
        Some(id) => if online {
            Some(plain_request(Method::Delete, path_with_id("/drafts/"@, id as int)))
        } else {
            None
        },
        None => None,
    }
}

/// Whether the status of a refused delete says that there is nothing to delete.
pub open spec fn gone_already(status: int) -> bool {
    status == 404
}

/// Deleting a draft deletes the one that a push of it would change, and asks the server for
/// nothing else: a draft that it never saw, and a store without a server, make no request. A
/// draft and a message that are gone are recognised alike, whichever way they were deleted.
pub proof fn law_a_delete_undoes_a_push(
    online: bool,
    server_id: Option<i64>,
    payload: DraftPayload,
    status: int,
)
    ensures
        delete_request(online, server_id) is Some <==> online && push_request(
            server_id,
            payload,
        ).method == Method::Patch,
        delete_request(online, server_id) matches Some(request) ==> request.path == push_request(
            server_id,
            payload,
        ).path && request == call_request(Call::DeleteDraft(server_id->0 as int)),
        gone_already(status) <==> crate::operations::already_done(
            crate::operations::OperationKind::Delete,
            status,
        ),
{
}

/// A pass pushes every draft or stops at the first that cannot be pushed: it goes on exactly
/// while nothing has failed and a draft is left.
pub proof fn law_a_pass_stops_at_a_failure(pass: PushPass)
    requires
        pass.wf(),
    ensures
        pass.failure() is Some ==> pass.finished() && pass.outcomes().len() < pass.uids().len(),
        pass.finished() && pass.failure() is None ==> pass.outcomes().len() == pass.uids().len(),
        pass.failure() is None && pass.outcomes().len() < pass.uids().len() ==> !pass.finished(),
{
}

/// Whether a uid is one that a new draft gets: `local_` and thirty two hexadecimal
/// digits.
pub open spec fn fresh_local_uid(uid: Seq<char>) -> bool {
    exists|random: Seq<char>| random.len() == 32 && all_hex(random) && uid == "local_"@ + random
}

// -- pushing every draft ---------------------------------------------------

/// One pass that pushes every dirty draft, oldest edit first. A failure stops the
/// pass so the order of edits is preserved; the drafts that were already pushed stay
/// pushed.
pub struct PushPass {
    uids: Vec<String>,
    done: usize,
    outcomes: Vec<PushOutcome>,
    failure: Option<ClientError>,
}

impl PushPass {
    /// The local uids to push, in order.
    pub closed spec fn uids(&self) -> Seq<Seq<char>> {
        views(self.uids@)
    }

    /// What was pushed so far, in order.
    pub closed spec fn outcomes(&self) -> Seq<PushOutcome> {
        self.outcomes@
    }

    /// What stopped the pass.
    pub closed spec fn failure(&self) -> Option<ClientError> {
        self.failure
    }

    /// Whether the pass has anything left to push.
    pub open spec fn finished(&self) -> bool {
        self.failure() is Some || self.outcomes().len() == self.uids().len()
    }

    /// The pass has pushed a prefix of the drafts, and at most one more has failed.
    pub closed spec fn wf(&self) -> bool {
        &&& self.done <= self.uids@.len()
        &&& self.done == self.outcomes@.len() + (if self.failure is Some {
            1int
        } else {
            0int
        })
    }

    /// A pass over the dirty drafts, which are in the order of their edits.
    pub fn new(dirty: &Vec<Draft>) -> (result: PushPass)
        ensures
            result.wf(),
            result.uids() == dirty@.map_values(|draft: Draft| draft.local_uid@),
            result.outcomes() == Seq::<PushOutcome>::empty(),
            result.failure() is None,
    {
        let mut uids: Vec<String> = Vec::new();
        let mut i: usize = 0;
        while i < dirty.len()
            invariant
                i <= dirty@.len(),
                uids@.len() == i,
                forall|j: int| 0 <= j < i ==> (#[trigger] uids@[j])@ == dirty@[j].local_uid@,
            decreases dirty@.len() - i,
        {
            uids.push(dirty[i].local_uid.clone());
            i = i + 1;
        }
        assert(views(uids@) =~= dirty@.map_values(|draft: Draft| draft.local_uid@));
        PushPass { uids, done: 0, outcomes: Vec::new(), failure: None }
    }

    /// The draft to push next; none when the pass is over.
    pub fn next(&self) -> (result: Option<&str>)
        requires
            self.wf(),
        ensures
            match result {
                Some(uid) => !self.finished() && uid@ == self.uids()[self.outcomes().len() as int],
                None => self.finished(),
            },
    {
        if self.failure.is_some() || self.done >= self.uids.len() {
            None
        } else {
            Some(self.uids[self.done].as_str())
        }
    }

    /// Record how the push from [`PushPass::next`] ended.
    pub fn on_result(&mut self, result: ClientResult<PushOutcome>)
        requires
            old(self).wf(),
            !old(self).finished(),
        ensures
            final(self).wf(),
            final(self).uids() == old(self).uids(),
            match result {
                Ok(outcome) => final(self).outcomes() == old(self).outcomes().push(outcome)
                    && final(self).failure() is None,
                Err(error) => final(self).outcomes() == old(self).outcomes()
                    && final(self).failure() == Some(error),
            },
    {
        let total: usize = self.uids.len();
        assert(self.done < total);
        self.done = self.done + 1;
        match result {
            Ok(outcome) => {
                self.outcomes.push(outcome);
            },
            Err(error) => {
                self.failure = Some(error);
            },
        }
    }

    /// What the pass comes to: every outcome, or the failure that stopped it.
    pub fn finish(self) -> (result: ClientResult<Vec<PushOutcome>>)
        requires
            self.wf(),
            self.finished(),
        ensures
            match self.failure() {
                Some(error) => result == ClientResult::<Vec<PushOutcome>>::Err(error),
                None => result is Ok && result->Ok_0@ == self.outcomes() && result->Ok_0@.len()
                    == self.uids().len(),
            },
    {
        match self.failure {
            Some(error) => Err(error),
            None => Ok(self.outcomes),
        }
    }
}

// -- pulling ---------------------------------------------------------------

/// How many of the drafts that were found may be written over.
pub open spec fn applicable(found: Seq<Option<Draft>>) -> nat {
    found.filter(|existing: Option<Draft>| may_apply(existing)).len()
}

/// One pass that writes the server's drafts into the cache. A draft that is still
/// dirty here is **not** overwritten: the user's unsent text wins until it has been
/// pushed. Everything else follows the server.
pub struct PullPass {
    records: Vec<DraftRecord>,
    done: usize,
    applied: usize,
    found: Ghost<Seq<Option<Draft>>>,
}

impl PullPass {
    /// The server's drafts, in its order.
    pub closed spec fn records(&self) -> Seq<DraftRecord> {
        self.records@
    }

    /// What the cache held for each of the drafts so far.
    pub closed spec fn found(&self) -> Seq<Option<Draft>> {
        self.found@
    }

    /// The pass has looked at a prefix of the drafts, and has written those that may
    /// be written.
    pub closed spec fn wf(&self) -> bool {
        &&& self.done == self.found@.len()
        &&& self.done <= self.records@.len()
        &&& self.applied <= self.done
        &&& self.applied == applicable(self.found@)
    }

    /// A pass over the server's drafts.
    pub fn new(records: Vec<DraftRecord>) -> (result: PullPass)
        ensures
            result.wf(),
            result.records() == records@,
            result.found() == Seq::<Option<Draft>>::empty(),
    {
        proof {
            reveal(Seq::filter);
        }
        PullPass { records, done: 0, applied: 0, found: Ghost(Seq::empty()) }
    }

    /// The draft to look up next, by its server id; none when the pass is over.
    pub fn next(&self) -> (result: Option<&DraftRecord>)
        requires
            self.wf(),
        ensures
            match result {
                Some(record) => self.found().len() < self.records().len() && *record
                    == self.records()[self.found().len() as int],
                None => self.found().len() == self.records().len(),
            },
    {
        if self.done >= self.records.len() {
            None
        } else {
            Some(&self.records[self.done])
        }
    }

    /// Take what the cache holds for the draft from [`PullPass::next`], and say what
    /// to write: nothing over unsent text, the server's version otherwise.
    pub fn on_existing(&mut self, account_id: i64, existing: Option<Draft>, now: &str) -> (result:
        ClientResult<Option<Statement>>)
        requires
            old(self).wf(),
            old(self).found().len() < old(self).records().len(),
        ensures
            final(self).wf(),
            final(self).records() == old(self).records(),
            final(self).found() == old(self).found().push(existing),
            result is Ok,
            ({
                let record = old(self).records()[old(self).found().len() as int];
                if may_apply(existing) {
                    result->Ok_0 is Some && result->Ok_0->0.stands_for(
                        APPLY_DRAFT@,
                        apply_binds(account_id, uid_for(existing, record.id as int), record, now@),
                    ) && record_lists_read_back(record)
                } else {
                    result->Ok_0 is None
                }
            }),
    {
        let ghost before = self.found@;
        let ghost here = existing;
        let total: usize = self.records.len();
        let index: usize = self.done;
        assert(index < total);
        proof {
            reveal(Seq::filter);
            self.found@ = before.push(existing);
            assert(self.found@.drop_last() =~= before);
        }
        self.done = self.done + 1;
        match &existing {
            Some(draft) => {
                if draft.dirty {
                    return Ok(None);
                }
            },
            None => {},
        }
        self.applied = self.applied + 1;
        let record = &self.records[index];
        let local_uid = match existing {
            Some(draft) => draft.local_uid,
            None => {
                let mut uid = "srv:".to_owned();
                uid.append(decimal_signed(record.id).as_str());
                uid
            },
        };
        assert(local_uid@ == uid_for(here, record.id as int));
        let to = store_list(&record.to)?;
        let cc = store_list(&record.cc)?;
        let bcc = store_list(&record.bcc)?;
        Ok(
            Some(
                Statement::new(APPLY_DRAFT).bind(Bind::Int(account_id)).bind(
                    Bind::Text(local_uid),
                ).bind(Bind::Int(record.id)).bind(Bind::text(record.subject.as_str())).bind(
                    Bind::text_if(&record.text),
                ).bind(Bind::text_if(&record.html)).bind(Bind::Text(to)).bind(Bind::Text(cc)).bind(
                    Bind::Text(bcc),
                ).bind(Bind::text_if(&record.updated_at)).bind(Bind::text(now)),
            ),
        )
    }

    /// How many drafts the pass has written.
    pub fn finish(self) -> (result: usize)
        requires
            self.wf(),
        ensures
            result == applicable(self.found()),
    {
        self.applied
    }
}

// -- laws ------------------------------------------------------------------

/// A push is recorded with the draft that was pushed and with no other, and every parameter of a
/// written draft is of the kind that its column holds, so that none of them is refused or stored
/// as something else.
pub proof fn law_a_change_picks_its_draft(
    draft: Draft,
    record: DraftRecord,
    new: NewDraft,
    uid: Seq<char>,
    dirty: bool,
    now: Seq<char>,
)
    ensures
        ({
            let pushed = pushed_binds(draft, record);
            &&& pushed.len() == 4 && pushed[0] is Int && pushed[1] !is Int
            &&& pushed[2] == BindView::Int(draft.account_id as int)
            &&& pushed[3] == BindView::Text(draft.local_uid@)
        }),
        ({
            let written = upsert_binds(draft.account_id, uid, new, dirty, now);
            &&& written.len() == 14
            &&& written[0] == BindView::Int(draft.account_id as int)
            &&& written[1] == BindView::Text(uid)
            &&& written[2] !is Text && written[3] is Text && written[4] !is Int
            &&& written[5] !is Int && written[6] is Text && written[7] is Text
            &&& written[8] is Text && written[9] !is Int && written[10] is Text
            &&& written[11] is Text && written[12] is Text && written[13] is Int
        }),
        ({
            let applied = apply_binds(draft.account_id, uid, record, now);
            &&& applied.len() == 11
            &&& applied[0] == BindView::Int(draft.account_id as int)
            &&& applied[1] == BindView::Text(uid)
            &&& applied[2] is Int && applied[3] is Text && applied[4] !is Int
            &&& applied[5] !is Int && applied[6] is Text && applied[7] is Text
            &&& applied[8] is Text && applied[9] !is Int && applied[10] is Text
        }),
{
}

/// Text that has not been pushed outranks the server: a pull never writes over a
/// dirty draft, and it writes over every other one, under the uid it already has.
pub proof fn law_unsent_text_wins(existing: Draft, server_id: int)
    ensures
        may_apply(Some(existing)) <==> !existing.dirty,
        uid_for(Some(existing), server_id) == existing.local_uid@,
{
}

/// Two server drafts never share a uid that is made here, and neither shares one
/// with a draft that was made here: a pull writes no two drafts over each other.
pub proof fn law_uids_do_not_clash(a: int, b: int, local: Seq<char>)
    requires
        fresh_local_uid(local),
    ensures
        uid_for(None, a) == uid_for(None, b) ==> a == b,
        uid_for(None, a) != local,
{
    reveal_strlit("srv:");
    reveal_strlit("local_");
    assert(uid_for(None, a)[0] == 's');
    assert(local[0] == 'l');
    if uid_for(None, a) == uid_for(None, b) {
        assert(uid_for(None, a).skip(4) =~= signed_digits(a));
        assert(uid_for(None, b).skip(4) =~= signed_digits(b));
        lemma_signed_digits_injective(a, b);
    }
}

/// Whether the columns of `row` are the parameters that wrote it.
pub open spec fn row_written(row: DraftRow, binds: Seq<BindView>) -> bool {
    &&& binds[0] == BindView::Int(row.account_id as int)
    &&& binds[1] == BindView::Text(row.local_uid@)
    &&& binds[2] == int_bind(row.mailbox_id)
    &&& binds[3] == BindView::Text(row.subject@)
    &&& binds[4] == text_bind(row.text_body)
    &&& binds[5] == text_bind(row.html_body)
    &&& binds[6] == BindView::Text(row.to_json@)
    &&& binds[7] == BindView::Text(row.cc_json@)
    &&& binds[8] == BindView::Text(row.bcc_json@)
    &&& binds[9] == text_bind(row.in_reply_to)
    &&& binds[10] == BindView::Text(row.references_json@)
    &&& binds[11] == BindView::Text(row.attachment_ids_json@)
    &&& binds[12] == BindView::Text(row.local_updated_at@)
    &&& binds[13] == BindView::Int(row.dirty as int)
    &&& row.deleted == 0
}

/// Nothing the user typed is lost: a draft that is read from the row that a write
/// left has the content that was written, is live, and is dirty if it was written
/// as such. That the lists read back is what every write promises.
pub proof fn law_content_survives_the_row(
    draft: Draft,
    row: DraftRow,
    account_id: i64,
    local_uid: Seq<char>,
    content: NewDraft,
    dirty: bool,
    written_at: Seq<char>,
    now: Timestamp,
)
    requires
        lists_read_back(content),
        row_written(row, upsert_binds(account_id, local_uid, content, dirty, written_at)),
        draft_of_row(draft, row, now),
    ensures
        draft.account_id == account_id,
        draft.local_uid@ == local_uid,
        draft.mailbox_id == content.mailbox_id,
        draft.subject@ == content.subject@,
        opt_view(draft.text_body) == opt_view(content.text_body),
        opt_view(draft.html_body) == opt_view(content.html_body),
        views(draft.to@) == views(content.to@),
        views(draft.cc@) == views(content.cc@),
        views(draft.bcc@) == views(content.bcc@),
        opt_view(draft.in_reply_to) == opt_view(content.in_reply_to),
        views(draft.references@) == views(content.references@),
        draft.attachment_ids@ == content.attachment_ids@,
        draft.local_updated_at == time_or(written_at, now),
        draft.dirty == dirty,
        !draft.deleted,
{
    let a = draft.attachment_ids@;
    let b = content.attachment_ids@;
    assert(a.map_values(|n: i64| n as int) == b.map_values(|n: i64| n as int));
    assert(a.len() == a.map_values(|n: i64| n as int).len());
    assert(b.len() == b.map_values(|n: i64| n as int).len());
    assert forall|i: int| 0 <= i < a.len() implies a[i] == b[i] by {
        assert(a.map_values(|n: i64| n as int)[i] == a[i] as int);
        assert(b.map_values(|n: i64| n as int)[i] == b[i] as int);
    }
    assert(a =~= b);
}

/// Whether the columns of `row` are the parameters that wrote the server's version into it.
pub open spec fn row_applied(row: DraftRow, binds: Seq<BindView>) -> bool {
    &&& binds[0] == BindView::Int(row.account_id as int)
    &&& binds[1] == BindView::Text(row.local_uid@)
    &&& row.id is Some && binds[2] == BindView::Int(row.id->0 as int)
    &&& binds[3] == BindView::Text(row.subject@)
    &&& binds[4] == text_bind(row.text_body)
    &&& binds[5] == text_bind(row.html_body)
    &&& binds[6] == BindView::Text(row.to_json@)
    &&& binds[7] == BindView::Text(row.cc_json@)
    &&& binds[8] == BindView::Text(row.bcc_json@)
    &&& binds[9] == text_bind(row.server_updated_at)
    &&& row.dirty == 0
    &&& row.deleted == 0
}

/// What the server has is what is shown: a draft that is read from the row that a pull left has
/// the content and the id of the server's record, and is clean and live. It keeps the uid that
/// it had here. That the lists read back is what every pull that writes promises.
pub proof fn law_a_pull_takes_over_the_record(
    draft: Draft,
    row: DraftRow,
    account_id: i64,
    existing: Option<Draft>,
    record: DraftRecord,
    written_at: Seq<char>,
    now: Timestamp,
)
    requires
        record_lists_read_back(record),
        row_applied(
            row,
            apply_binds(account_id, uid_for(existing, record.id as int), record, written_at),
        ),
        draft_of_row(draft, row, now),
    ensures
        draft.account_id == account_id,
        existing matches Some(before) ==> draft.local_uid@ == before.local_uid@,
        draft.server_id == Some(record.id),
        draft.subject@ == record.subject@,
        opt_view(draft.text_body) == opt_view(record.text),
        opt_view(draft.html_body) == opt_view(record.html),
        views(draft.to@) == views(record.to@),
        views(draft.cc@) == views(record.cc@),
        views(draft.bcc@) == views(record.bcc@),
        opt_view(row.server_updated_at) == opt_view(record.updated_at),
        draft.server_updated_at == optional_time(record.updated_at),
        !draft.dirty,
        !draft.deleted,
        // What was pulled may be pulled again.
        may_apply(Some(draft)),
{
}

/// Whether `row` is `before`, marked by the parameters of a push.
pub open spec fn row_pushed(row: DraftRow, before: DraftRow, binds: Seq<BindView>) -> bool {
    &&& row.id is Some && binds[0] == BindView::Int(row.id->0 as int)
    &&& binds[1] == text_bind(row.server_updated_at)
    &&& binds[2] == BindView::Int(row.account_id as int)
    &&& binds[3] == BindView::Text(row.local_uid@)
    &&& row == (DraftRow {
        id: row.id,
        server_updated_at: row.server_updated_at,
        dirty: 0,
        ..before
    })
}

/// A push loses nothing: the draft has the server's id and time, is clean, and is otherwise
/// what it was. It can be pulled from then on, and is not pushed again.
pub proof fn law_a_push_keeps_the_text(
    draft: Draft,
    before: Draft,
    row: DraftRow,
    stored: DraftRow,
    record: DraftRecord,
    now: Timestamp,
)
    requires
        draft_of_row(before, stored, now),
        row_pushed(row, stored, pushed_binds(before, record)),
        draft_of_row(draft, row, now),
    ensures
        draft.account_id == before.account_id,
        draft.local_uid@ == before.local_uid@,
        draft.server_id == Some(record.id),
        opt_view(row.server_updated_at) == opt_view(record.updated_at),
        !draft.dirty,
        may_apply(Some(draft)),
        draft.subject == before.subject,
        draft.text_body == before.text_body,
        draft.html_body == before.html_body,
        views(draft.to@) == views(before.to@),
        views(draft.cc@) == views(before.cc@),
        views(draft.bcc@) == views(before.bcc@),
        draft.in_reply_to == before.in_reply_to,
        views(draft.references@) == views(before.references@),
        draft.mailbox_id == before.mailbox_id,
        draft.deleted == before.deleted,
{
}

/// What the user typed is what the server gets: each field of the draft is found in the request
/// under its own name, each recipient in the list it was put in and each body as what it is. A
/// draft that the server knows is changed in its place, and only one that it has never seen is
/// made anew.
pub proof fn law_a_push_sends_what_was_typed(draft: Draft, payload: DraftPayload)
    requires
        payload_of(payload, draft),
    ensures
        ({
            let request = push_request(draft.server_id, payload);
            &&& request.field("subject"@) == Some(JsonView::Text(draft.subject@))
            &&& request.field("text"@) == text_or_none(draft.text_body)
            &&& request.field("html"@) == text_or_none(draft.html_body)
            &&& request.field("to"@) == Some(texts_view(draft.to@))
            &&& request.field("cc"@) == Some(texts_view(draft.cc@))
            &&& request.field("bcc"@) == Some(texts_view(draft.bcc@))
            &&& request.field("in_reply_to"@) == text_or_none(draft.in_reply_to)
            &&& request.field("references"@) == Some(texts_view(draft.references@))
            &&& request.field("attachment_ids"@) == Some(ints_view(draft.attachment_ids@))
            &&& request.query.len() == 0
            &&& match draft.server_id {
                Some(id) => request.method == Method::Patch && request.path == "/drafts/"@
                    + signed_digits(id as int),
                None => request.method == Method::Post && request.path == "/drafts"@,
            }
        }),
{
    law_a_draft_reads_back(payload);
}

/// The user is told of an overwrite exactly when the server detected one. The notice is about
/// that draft: it names the local edit that was kept and the version that it replaced.
pub proof fn law_an_overwrite_is_told(draft: Draft, record: DraftRecord)
    ensures
        notice_of(draft, record) is Some <==> (record.conflict matches Some(conflict)
            && conflict.detected),
        notice_of(draft, record) matches Some(notice) ==> {
            &&& notice.local_updated_at == draft.local_updated_at
            &&& notice.server_updated_at == optional_time(record.conflict->0.server_updated_at)
            &&& draft.server_id is Some ==> draft.server_id == Some(notice.server_id)
            &&& draft.server_id is None ==> notice.server_id == record.id
        },
{
}

// -- reading ---------------------------------------------------------------

/// Selects one draft.
pub const SELECT_DRAFT: &'static str =
    "SELECT * FROM drafts WHERE account_id = ? AND local_uid = ?";

/// Selects one draft by its server id.
pub const SELECT_BY_SERVER_ID: &'static str =
    "SELECT * FROM drafts WHERE account_id = ? AND id = ?";

/// Lists the live drafts of an account, newest first.
pub const SELECT_DRAFTS: &'static str =
    "SELECT * FROM drafts WHERE account_id = ? AND deleted = 0 ORDER BY local_updated_at DESC";

/// Lists the drafts that need pushing, oldest edit first.
pub const SELECT_DIRTY: &'static str =
    "SELECT * FROM drafts WHERE account_id = ? AND dirty = 1 AND deleted = 0 ORDER BY local_updated_at ASC";

impl DraftStore {
    /// The statement that selects one draft by its local uid.
    pub fn get(account_id: i64, local_uid: &str) -> (result: Statement)
        ensures
            result.stands_for(
                SELECT_DRAFT@,
                seq![BindView::Int(account_id as int), BindView::Text(local_uid@)],
            ),
    {
        Statement::new(SELECT_DRAFT).bind(Bind::Int(account_id)).bind(Bind::text(local_uid))
    }

    /// The statement that selects one draft by its server id.
    pub fn get_by_server_id(account_id: i64, server_id: i64) -> (result: Statement)
        ensures
            result.stands_for(
                SELECT_BY_SERVER_ID@,
                seq![BindView::Int(account_id as int), BindView::Int(server_id as int)],
            ),
    {
        Statement::new(SELECT_BY_SERVER_ID).bind(Bind::Int(account_id)).bind(Bind::Int(server_id))
    }

    /// The statement that lists every live draft of an account, newest first.
    pub fn list(account_id: i64) -> (result: Statement)
        ensures
            result.stands_for(SELECT_DRAFTS@, seq![BindView::Int(account_id as int)]),
    {
        Statement::new(SELECT_DRAFTS).bind(Bind::Int(account_id))
    }

    /// The statement that lists the drafts which still need pushing, oldest edit first.
    pub fn dirty(account_id: i64) -> (result: Statement)
        ensures
            result.stands_for(SELECT_DIRTY@, seq![BindView::Int(account_id as int)]),
    {
        Statement::new(SELECT_DIRTY).bind(Bind::Int(account_id))
    }
}

} // verus!
