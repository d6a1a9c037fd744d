//! Offline work: the queue of pending operations and its flusher.
//!
//! Two rules drive this module:
//!
//! 1. **Nothing the user typed may be lost to a network error.** An operation is
//!    removed from the queue only after the server accepted it, or refused it for
//!    good.
//! 2. **Order is part of the meaning.** A pass walks the queue in order and stops
//!    at the first retryable failure, so a later operation can never overtake an
//!    earlier one.
//!
//! The `operation_id` is generated when the operation is *queued*, never at send
//! time, so a replay carries the same key.

use vstd::prelude::*;

use crate::api::{DraftPayload, MessageAction, SendRequest};
use crate::database::{text_bind, Bind, BindView, Statement};
use crate::error::{message_of, retryable, ClientError, ClientResult};
use crate::fcp::{
    draft_view, law_a_submission_reads_back, path_with_id, plain_request, send_view, text_or_none,
    FcpClient, Method, RequestSpec, RequestView,
};
use crate::json::{json_read, parse_json, texts_view, Json, JsonView};
use crate::outbox::counter;
use crate::text::{concat3, debug_quoted, debug_text, opt_view, same, signed_digits, views};
use crate::time::{parse_or, time_or, Timestamp};

verus! {

/// The kinds of work the offline queue can carry.
#[derive(Debug, Clone, Copy, PartialEq, Eq, Structural)]
pub enum OperationKind {
    /// `POST /messages/:id/read`
    MarkRead,
    /// `POST /messages/:id/unread`
    MarkUnread,
    /// `POST /messages/:id/star`
    Star,
    /// `POST /messages/:id/archive`
    Archive,
    /// `POST /messages/:id/trash`
    Trash,
    /// `POST /messages/:id/move` with `folder_id` in the payload.
    Move,
    /// `DELETE /messages/:id`
    Delete,
    /// `POST /messages`: the payload is a serialised [`SendRequest`].
    SendMessage,
    /// `POST`/`PATCH /drafts`: the payload carries the draft id and body.
    SaveDraft,
    /// `DELETE /drafts/:id`
    DeleteDraft,
}

/// The stored name of a kind.
pub open spec fn kind_name(kind: OperationKind) -> Seq<char> {
    match kind {
        OperationKind::MarkRead => "mark_read"@,
        OperationKind::MarkUnread => "mark_unread"@,
        OperationKind::Star => "star"@,
        OperationKind::Archive => "archive"@,
        OperationKind::Trash => "trash"@,
        OperationKind::Move => "move"@,
        OperationKind::Delete => "delete"@,
        OperationKind::SendMessage => "send_message"@,
        OperationKind::SaveDraft => "save_draft"@,
        OperationKind::DeleteDraft => "delete_draft"@,
    }
}

/// The kind with a stored name.
pub open spec fn kind_named(raw: Seq<char>) -> Option<OperationKind> {
    if raw == "mark_read"@ {
        Some(OperationKind::MarkRead)
    } else if raw == "mark_unread"@ {
        Some(OperationKind::MarkUnread)
    } else if raw == "star"@ {
        Some(OperationKind::Star)
    } else if raw == "archive"@ {
        Some(OperationKind::Archive)
    } else if raw == "trash"@ {
        Some(OperationKind::Trash)
    } else if raw == "move"@ {
        Some(OperationKind::Move)
    } else if raw == "delete"@ {
        Some(OperationKind::Delete)
    } else if raw == "send_message"@ {
        Some(OperationKind::SendMessage)
    } else if raw == "save_draft"@ {
        Some(OperationKind::SaveDraft)
    } else if raw == "delete_draft"@ {
        Some(OperationKind::DeleteDraft)
    } else {
        None
    }
}

/// The message of the error for a stored kind that does not exist.
pub open spec fn unknown_kind(raw: Seq<char>) -> Seq<char> {
    "unknown queued operation kind "@ + debug_text(raw)
}

/// Whether a kind works on a message.
pub open spec fn touches_message(kind: OperationKind) -> bool {
    kind != OperationKind::SendMessage && kind != OperationKind::SaveDraft && kind
        != OperationKind::DeleteDraft
}

impl OperationKind {
    /// The stored name of the kind.
    pub fn as_str(self) -> (result: &'static str)
        ensures
            result@ == kind_name(self),
    {
        match self {
            OperationKind::MarkRead => "mark_read",
            OperationKind::MarkUnread => "mark_unread",
            OperationKind::Star => "star",
            OperationKind::Archive => "archive",
            OperationKind::Trash => "trash",
            OperationKind::Move => "move",
            OperationKind::Delete => "delete",
            OperationKind::SendMessage => "send_message",
            OperationKind::SaveDraft => "save_draft",
            OperationKind::DeleteDraft => "delete_draft",
        }
    }

    /// Parse a `kind` column back into an enum.
    pub fn parse(raw: &str) -> (result: ClientResult<OperationKind>)
        ensures
            match kind_named(raw@) {
                Some(kind) => result == ClientResult::Ok(kind),
                None => result matches Err(ClientError::Cache(m)) && m@ == unknown_kind(raw@),
            },
    {
        if same(raw, "mark_read") {
            Ok(OperationKind::MarkRead)
        } else if same(raw, "mark_unread") {
            Ok(OperationKind::MarkUnread)
        } else if same(raw, "star") {
            Ok(OperationKind::Star)
        } else if same(raw, "archive") {
            Ok(OperationKind::Archive)
        } else if same(raw, "trash") {
            Ok(OperationKind::Trash)
        } else if same(raw, "move") {
            Ok(OperationKind::Move)
        } else if same(raw, "delete") {
            Ok(OperationKind::Delete)
        } else if same(raw, "send_message") {
            Ok(OperationKind::SendMessage)
        } else if same(raw, "save_draft") {
            Ok(OperationKind::SaveDraft)
        } else if same(raw, "delete_draft") {
            Ok(OperationKind::DeleteDraft)
        } else {
            let mut message = "unknown queued operation kind ".to_owned();
            message.append(debug_quoted(raw).as_str());
            Err(ClientError::Cache(message))
        }
    }

    /// Whether this kind touches a message (and therefore carries a `message_id`
    /// in its payload).
    pub fn is_message_operation(self) -> (result: bool)
        ensures
            result == touches_message(self),
    {
        match self {
            OperationKind::SendMessage => false,
            OperationKind::SaveDraft => false,
            OperationKind::DeleteDraft => false,
            _ => true,
        }
    }
}

/// Every kind is found again under the name it is stored by.
pub proof fn law_kind_names_round_trip(kind: OperationKind)
    ensures
        kind_named(kind_name(kind)) == Some(kind),
{
    reveal_strlit("mark_read");
    reveal_strlit("mark_unread");
    reveal_strlit("star");
    reveal_strlit("archive");
    reveal_strlit("trash");
    reveal_strlit("move");
    reveal_strlit("delete");
    reveal_strlit("send_message");
    reveal_strlit("save_draft");
    reveal_strlit("delete_draft");
    assert("mark_read"@.len() == 9 && "mark_unread"@.len() == 11 && "star"@.len() == 4);
    assert("archive"@.len() == 7 && "trash"@.len() == 5 && "move"@.len() == 4);
    assert("delete"@.len() == 6 && "send_message"@.len() == 12 && "save_draft"@.len() == 10);
    assert("delete_draft"@.len() == 12);
    assert("star"@[0] == 's' && "move"@[0] == 'm');
    assert("send_message"@[0] == 's' && "delete_draft"@[0] == 'd');
}

// -- queued operations -----------------------------------------------------

/// One queued operation.
#[derive(Debug, Clone, PartialEq, Eq)]
pub struct PendingOperation {
    /// The FIFO order: the flusher must never reorder these.
    pub seq: i64,
    /// The idempotency key, generated at enqueue time.
    pub operation_id: String,
    /// The account it belongs to.
    pub account_id: i64,
    /// What to do.
    pub kind: OperationKind,
    /// The arguments.
    pub payload: Json,
    /// When it was queued.
    pub created_at: Timestamp,
    /// How many times the flusher has tried.
    pub attempts: u32,
    /// The last failure, for the UI.
    pub last_error: Option<String>,
}

/// The columns of a queued operation, as they are stored.
#[derive(Debug, Clone, PartialEq, Eq)]
pub struct OperationRow {
    /// `seq`
    pub seq: i64,
    /// `operation_id`
    pub operation_id: String,
    /// `account_id`
    pub account_id: i64,
    /// `kind`
    pub kind: String,
    /// `payload`
    pub payload: String,
    /// `created_at`
    pub created_at: String,
    /// `attempts`
    pub attempts: i64,
    /// `last_error`
    pub last_error: Option<String>,
}

/// The payload that a column holds: `null` when it is no JSON.
pub open spec fn stored_payload(raw: Seq<char>) -> JsonView {
    match json_read(raw) {
        Ok(value) => value,
        Err(_) => JsonView::Null,
    }
}

/// Whether `operation` is what `row` stands for at `now`.
pub open spec fn operation_of_row(
    operation: PendingOperation,
    row: OperationRow,
    now: Timestamp,
) -> bool {
    &&& operation.seq == row.seq
    &&& operation.operation_id == row.operation_id
    &&& operation.account_id == row.account_id
    &&& kind_named(row.kind@) == Some(operation.kind)
    &&& operation.payload@ == stored_payload(row.payload@)
    &&& operation.created_at == time_or(row.created_at@, now)
    &&& operation.attempts == counter(row.attempts)
    &&& operation.last_error == row.last_error
}

impl PendingOperation {
    /// The `message_id` in the payload, when it carries one.
    pub fn message_id(&self) -> (result: Option<i64>)
        ensures
            match result {
                Some(id) => self.payload@.member_int64("message_id"@) == Some(id as int),
                None => self.payload@.member_int64("message_id"@) is None,
            },
    {
        self.payload.int_at("message_id")
    }

    /// The `folder_id` in the payload, when it carries one.
    pub fn folder_id(&self) -> (result: Option<i64>)
        ensures
            match result {
                Some(id) => self.payload@.member_int64("folder_id"@) == Some(id as int),
                None => self.payload@.member_int64("folder_id"@) is None,
            },
    {
        self.payload.int_at("folder_id")
    }

    /// Read an operation from its stored columns. A payload that cannot be read is
    /// `null`, a time that cannot be read is `now`; an unknown kind is an error.
    pub fn from_row(row: OperationRow, now: Timestamp) -> (result: ClientResult<PendingOperation>)
        ensures
            match kind_named(row.kind@) {
                Some(_) => result is Ok && operation_of_row(result->Ok_0, row, now),
                None => result matches Err(ClientError::Cache(m)) && m@ == unknown_kind(row.kind@),
            },
    {
        let kind = match OperationKind::parse(row.kind.as_str()) {
            Ok(kind) => kind,
            Err(error) => {
                return Err(error);
            },
        };
        let payload = match parse_json(row.payload.as_str()) {
            Ok(value) => value,
            Err(_) => Json::Null,
        };
        let attempts: i64 = if row.attempts < 0 {
            0
        } else {
            row.attempts
        };
        Ok(
            PendingOperation {
                seq: row.seq,
                operation_id: row.operation_id,
                account_id: row.account_id,
                kind,
                payload,
                created_at: parse_or(row.created_at.as_str(), now),
                attempts: attempts as u32,
                last_error: row.last_error,
            },
        )
    }
}

// -- submitting ------------------------------------------------------------

/// How a queued operation reaches the server.
#[derive(Debug, Clone, PartialEq, Eq)]
pub enum Submission {
    /// By this request.
    Request(RequestSpec),
    /// The payload has to be decoded as a [`SendRequest`] first.
    DecodeSend,
    /// The payload has to be decoded as a [`DraftPayload`] first.
    DecodeDraft,
}

/// The single-message action of a kind.
pub open spec fn action_of(kind: OperationKind) -> Option<MessageAction> {
    match kind {
        OperationKind::MarkRead => Some(MessageAction::Read),
        OperationKind::MarkUnread => Some(MessageAction::Unread),
        OperationKind::Star => Some(MessageAction::Star),
        OperationKind::Archive => Some(MessageAction::Archive),
        OperationKind::Trash => Some(MessageAction::Trash),
        _ => None,
    }
}

/// The message for a payload without a message id.
pub open spec fn needs_message_id(kind: OperationKind) -> Seq<char> {
    "a "@ + kind_name(kind) + " operation needs a message_id in its payload"@
}

/// The request that an operation becomes, or the message of the error.
///
/// A message operation needs a `message_id`, a move also a `folder_id`, and a
/// draft deletion a `draft_id`. The idempotency key is the operation's own.
pub open spec fn submission_of(operation: PendingOperation) -> Result<
    Option<RequestView>,
    Seq<char>,
> {
    let payload = operation.payload@;
    let key = JsonView::Text(operation.operation_id@);
    if operation.kind == OperationKind::SendMessage || operation.kind == OperationKind::SaveDraft {
        Ok(None)
    } else if operation.kind == OperationKind::DeleteDraft {
        match payload.member_int64("draft_id"@) {
            Some(id) => Ok(Some(plain_request(Method::Delete, path_with_id("/drafts/"@, id)))),
            None => Err("a draft deletion needs a draft_id in its payload"@),
        }
    } else {
        match payload.member_int64("message_id"@) {
            None => Err(needs_message_id(operation.kind)),
            Some(id) => {
                let path = path_with_id("/messages/"@, id);
                if operation.kind == OperationKind::Move {
                    match payload.member_int64("folder_id"@) {
                        None => Err("a move operation needs a folder_id in its payload"@),
                        Some(folder) => Ok(
                            Some(
                                plain_request(Method::Post, path + "/move"@).with_body(
                                    JsonView::Object(
                                        seq![
                                            ("folder_id"@, JsonView::Int(folder)),
                                            ("operation_id"@, key),
                                        ],
                                    ),
                                ),
                            ),
                        ),
                    }
                } else if operation.kind == OperationKind::Delete {
                    let plain = plain_request(Method::Delete, path);
                    Ok(
                        Some(
                            if payload.member_boolean("permanent"@) == Some(true) {
                                plain.with_query("permanent"@, "true"@)
                            } else {
                                plain
                            },
                        ),
                    )
                } else {
                    Ok(
                        Some(
                            plain_request(
                                Method::Post,
                                path + "/"@ + action_of(operation.kind)->0.segment(),
                            ).with_body(JsonView::Object(seq![("operation_id"@, key)])),
                        ),
                    )
                }
            },
        }
    }
}

/// The request of a queued draft: an update of the draft whose positive `draft_id` the payload
/// names, else a new draft.
pub open spec fn draft_submission(payload: JsonView, draft: DraftPayload) -> RequestView {
    match payload.member_int64("draft_id"@) {
        Some(id) => if id > 0 {
            plain_request(Method::Patch, path_with_id("/drafts/"@, id)).with_body(draft_view(draft))
        } else {
            plain_request(Method::Post, "/drafts"@).with_body(draft_view(draft))
        },
        None => plain_request(Method::Post, "/drafts"@).with_body(draft_view(draft)),
    }
}

/// Whether a refusal with this status says that the operation was done before.
pub open spec fn already_done(kind: OperationKind, status: int) -> bool {
    kind == OperationKind::Delete && status == 404
}

/// The message id of an operation that needs one.
fn require_message_id(operation: &PendingOperation) -> (result: ClientResult<i64>)
    ensures
        match operation.payload@.member_int64("message_id"@) {
            Some(id) => result is Ok && result->Ok_0 == id,
            None => result matches Err(ClientError::Invalid(m)) && m@ == needs_message_id(
                operation.kind,
            ),
        },
{
    match operation.message_id() {
        Some(id) => Ok(id),
        None => Err(
            ClientError::Invalid(
                concat3(
                    "a ",
                    operation.kind.as_str(),
                    " operation needs a message_id in its payload",
                ),
            ),
        ),
    }
}

/// Works out how queued operations reach the server: it makes the client's requests.
#[derive(Debug, Clone)]
pub struct FcpSubmitter {
    client: FcpClient,
}

impl FcpSubmitter {
    /// The client that makes the requests.
    pub closed spec fn client(&self) -> FcpClient {
        self.client
    }

    /// A submitter for one account's client.
    pub fn new(client: FcpClient) -> (result: FcpSubmitter)
        ensures
            result.client() == client,
    {
        FcpSubmitter { client }
    }

    /// Work out how a queued operation reaches the server.
    pub fn submit(&self, operation: &PendingOperation) -> (result: ClientResult<Submission>)
        ensures
            match submission_of(*operation) {
                Ok(Some(request)) => {
                    &&& result matches Ok(Submission::Request(spec))
                    &&& spec@ == request
                },
                Ok(None) => if operation.kind == OperationKind::SendMessage {
                    result matches Ok(Submission::DecodeSend)
                } else {
                    result matches Ok(Submission::DecodeDraft)
                },
                Err(message) => result matches Err(ClientError::Invalid(m)) && m@ == message,
            },
    {
        let key = operation.operation_id.as_str();
        match operation.kind {
            OperationKind::SendMessage => {
                return Ok(Submission::DecodeSend);
            },
            OperationKind::SaveDraft => {
                return Ok(Submission::DecodeDraft);
            },
            OperationKind::DeleteDraft => {
                return match operation.payload.int_at("draft_id") {
                    Some(id) => Ok(Submission::Request(self.client.delete_draft(id))),
                    None => Err(
                        ClientError::invalid("a draft deletion needs a draft_id in its payload"),
                    ),
                };
            },
            _ => {},
        }
        let id: i64 = match require_message_id(operation) {
            Ok(id) => id,
            Err(error) => {
                return Err(error);
            },
        };
        let action = match operation.kind {
            OperationKind::MarkRead => MessageAction::Read,
            OperationKind::MarkUnread => MessageAction::Unread,
            OperationKind::Star => MessageAction::Star,
            OperationKind::Archive => MessageAction::Archive,
            OperationKind::Trash => MessageAction::Trash,
            OperationKind::Move => {
                return match operation.folder_id() {
                    Some(folder) => Ok(Submission::Request(self.client.move_message(id, folder, key))),
                    None => Err(
                        ClientError::invalid("a move operation needs a folder_id in its payload"),
                    ),
                };
            },
            _ => {
                let permanent = match operation.payload.bool_at("permanent") {
                    Some(permanent) => permanent,
                    None => false,
                };
                return Ok(Submission::Request(self.client.delete_message(id, permanent)));
            },
        };
        Ok(Submission::Request(self.client.message_action(id, action, key)))
    }

    /// The request of a queued send, once its payload is decoded.
    ///
    /// The key belongs to the queued operation, not to whatever the payload happened
    /// to carry.
    pub fn submit_send(
        &self,
        operation: &PendingOperation,
        decoded: Result<SendRequest, String>,
    ) -> (result: ClientResult<RequestSpec>)
        ensures
            match decoded {
                Ok(request) => result is Ok && result->Ok_0@ == send_submission(
                    operation.operation_id,
                    request,
                ),
                Err(message) => result matches Err(ClientError::Invalid(m)) && m@
                    == "a queued send has an unusable payload: "@ + message@,
            },
    {
        match decoded {
            Ok(request) => {
                let mut request = request;
                request.operation_id = operation.operation_id.clone();
                Ok(self.client.send(&request))
            },
            Err(message) => {
                let mut text = "a queued send has an unusable payload: ".to_owned();
                text.append(message.as_str());
                Err(ClientError::Invalid(text))
            },
        }
    }

    /// The request of a queued draft, once its payload is decoded: an update of the
    /// draft whose positive `draft_id` the payload names, else a new draft.
    pub fn submit_draft(
        &self,
        operation: &PendingOperation,
        decoded: Result<DraftPayload, String>,
    ) -> (result: ClientResult<RequestSpec>)
        ensures
            match decoded {
                Ok(draft) => result is Ok && result->Ok_0@ == draft_submission(operation.payload@, draft),
                Err(message) => result matches Err(ClientError::Invalid(m)) && m@
                    == "a queued draft has an unusable payload: "@ + message@,
            },
    {
        match decoded {
            Ok(draft) => match operation.payload.int_at("draft_id") {
                Some(id) => if id > 0 {
                    Ok(self.client.update_draft(id, &draft))
                } else {
                    Ok(self.client.create_draft(&draft))
                },
                None => Ok(self.client.create_draft(&draft)),
            },
            Err(message) => {
                let mut text = "a queued draft has an unusable payload: ".to_owned();
                text.append(message.as_str());
                Err(ClientError::Invalid(text))
            },
        }
    }

    /// What the server's answer to a submission means. A delete has no idempotency
    /// key, so a replayed one can come back as `404`: the message is gone either way.
    pub fn submitted(kind: OperationKind, answer: ClientResult<()>) -> (result: ClientResult<()>)
        ensures
            match answer {
                Ok(()) => result is Ok,
                Err(ClientError::Api(api)) => if already_done(kind, api.status as int) {
                    result is Ok
                } else {
                    result == ClientResult::<()>::Err(ClientError::Api(api))
                },
                Err(error) => result == ClientResult::<()>::Err(error),
            },
    {
        match answer {
            Ok(()) => Ok(()),
            Err(ClientError::Api(api)) => if kind == OperationKind::Delete && api.status == 404 {
                Ok(())
            } else {
                Err(ClientError::Api(api))
            },
            Err(error) => Err(error),
        }
    }
}

/// Whether a request carries an idempotency key.
pub open spec fn carries_key(request: RequestView, key: Seq<char>) -> bool {
    request.body matches Some(JsonView::Object(members)) && members.contains(
        ("operation_id"@, JsonView::Text(key)),
    )
}

/// A retry carries the same key: every request of a queued send, and of a queued message
/// operation other than a delete, carries the key that the operation was queued with,
/// whatever key the payload holds.
pub proof fn law_retries_carry_the_same_key(operation: PendingOperation, decoded: SendRequest)
    ensures
        (submission_of(operation) matches Ok(Some(request)) && operation.kind
            != OperationKind::Delete && operation.kind != OperationKind::DeleteDraft)
            ==> carries_key(submission_of(operation)->Ok_0->0, operation.operation_id@),
        carries_key(send_submission(operation.operation_id, decoded), operation.operation_id@),
{
    let key = ("operation_id"@, JsonView::Text(operation.operation_id@));
    let sent = send_view(SendRequest { operation_id: operation.operation_id, ..decoded });
    assert(sent->Object_0[0] == key);
    match submission_of(operation) {
        Ok(Some(request)) => match request.body {
            Some(JsonView::Object(members)) => {
                if members.len() == 1 {
                    assert(members[0] == key);
                } else {
                    assert(members[1] == key);
                }
            },
            _ => {},
        },
        _ => {},
    }
}

/// The request of a queued send: the message of its payload, under the key that it was queued
/// with.
pub open spec fn send_submission(key: String, request: SendRequest) -> RequestView {
    plain_request(Method::Post, "/messages"@).with_body(
        send_view(SendRequest { operation_id: key, ..request }),
    )
}

/// The word that the server knows the action of a kind by.
pub open spec fn action_word(kind: OperationKind) -> Option<Seq<char>> {
    match kind {
        OperationKind::MarkRead => Some("read"@),
        OperationKind::MarkUnread => Some("unread"@),
        OperationKind::Star => Some("star"@),
        OperationKind::Archive => Some("archive"@),
        OperationKind::Trash => Some("trash"@),
        OperationKind::Move => Some("move"@),
        _ => None,
    }
}

/// What the user did offline is what the server is asked to do. A read, unread, star, archive,
/// trash or move is a `POST` to the message, and the last segment of its path is the word for
/// that very action: the word that the kind is stored by, without the `mark_` of a flag. A
/// deletion is a `DELETE` of the message or the draft itself, and only a permanent one says so.
pub proof fn law_an_operation_asks_for_what_was_done(operation: PendingOperation)
    requires
        submission_of(operation) matches Ok(Some(_)),
    ensures
        ({
            let request = submission_of(operation)->Ok_0->0;
            let payload = operation.payload@;
            let message = "/messages/"@ + signed_digits(payload.member_int64("message_id"@)->0);
            let draft = "/drafts/"@ + signed_digits(payload.member_int64("draft_id"@)->0);
            match action_word(operation.kind) {
                Some(word) => {
                    &&& payload.member_int64("message_id"@) is Some
                    &&& request.method == Method::Post
                    &&& request.path == message + "/"@ + word
                    &&& request.query.len() == 0
                    &&& kind_name(operation.kind) == word || kind_name(operation.kind) == "mark_"@
                        + word
                },
                None => {
                    &&& request.method == Method::Delete
                    &&& request.body is None
                    &&& operation.kind == OperationKind::Delete ==> request.path == message
                        && payload.member_int64("message_id"@) is Some
                    &&& operation.kind == OperationKind::DeleteDraft ==> request.path == draft
                        && payload.member_int64("draft_id"@) is Some
                    &&& request.query.len() > 0 <==> operation.kind == OperationKind::Delete
                        && payload.member_boolean("permanent"@) == Some(true)
                },
            }
        }),
        operation.kind == OperationKind::Move ==> {
            let body = submission_of(operation)->Ok_0->0.body->0;
            &&& operation.payload@.member_int64("folder_id"@) is Some
            &&& body.member("folder_id"@) == Some(
                JsonView::Int(operation.payload@.member_int64("folder_id"@)->0),
            )
        },
{
    reveal_strlit("mark_");
    reveal_strlit("mark_read");
    reveal_strlit("mark_unread");
    reveal_strlit("read");
    reveal_strlit("unread");
    reveal_strlit("/");
    reveal_strlit("move");
    reveal_strlit("/move");
    assert("mark_"@ + "read"@ =~= "mark_read"@);
    assert("mark_"@ + "unread"@ =~= "mark_unread"@);
    assert("/"@ + "move"@ =~= "/move"@);
    let message = "/messages/"@ + signed_digits(operation.payload@.member_int64("message_id"@)->0);
    assert(message + "/"@ + "move"@ =~= message + ("/"@ + "move"@));
    if operation.kind == OperationKind::Move {
        let request = submission_of(operation)->Ok_0->0;
        let members = request.body->0->Object_0;
        assert(members[0].0 == "folder_id"@);
        assert(request.body->0.member("folder_id"@) == Some(members[0].1));
    }
}

/// The kinds that work on a message are those that cannot be submitted without one: without a
/// `message_id` they are refused, and the others are not refused for it.
pub proof fn law_message_operations_need_a_message(operation: PendingOperation)
    requires
        operation.payload@.member_int64("message_id"@) is None,
    ensures
        touches_message(operation.kind) <==> submission_of(operation) == Err::<
            Option<RequestView>,
            Seq<char>,
        >(needs_message_id(operation.kind)),
        touches_message(operation.kind) <==> action_word(operation.kind) is Some || operation.kind
            == OperationKind::Delete,
{
    reveal_strlit("a draft deletion needs a draft_id in its payload");
    reveal_strlit("a ");
    reveal_strlit("delete_draft");
    reveal_strlit(" operation needs a message_id in its payload");
    let other = "a draft deletion needs a draft_id in its payload"@;
    let own = needs_message_id(OperationKind::DeleteDraft);
    assert(other[4] == 'a' && other[3] == 'r');
    assert(own[2] == 'd' && own[3] == 'e');
}

/// No two actions share a word.
pub proof fn law_action_words_differ(a: OperationKind, b: OperationKind)
    requires
        action_word(a) is Some,
        action_word(a) == action_word(b),
    ensures
        a == b,
{
    reveal_strlit("read");
    reveal_strlit("unread");
    reveal_strlit("star");
    reveal_strlit("archive");
    reveal_strlit("trash");
    reveal_strlit("move");
    assert("read"@[0] == 'r' && "star"@[0] == 's' && "move"@[0] == 'm');
    assert("read"@.len() == 4 && "star"@.len() == 4 && "move"@.len() == 4);
    assert("unread"@.len() == 6 && "archive"@.len() == 7 && "trash"@.len() == 5);
}

/// A queued send is sent under its own key, whatever key its payload holds, and as it was written:
/// two payloads that differ in nothing but the key make the same request.
pub proof fn law_a_queued_send_is_sent_as_written(key: String, request: SendRequest, other: String)
    ensures
        ({
            let sent = send_submission(key, request);
            &&& sent.method == Method::Post && sent.path == "/messages"@ && sent.query.len() == 0
            &&& sent == send_submission(key, SendRequest { operation_id: other, ..request })
            &&& sent.body matches Some(body) && {
                &&& body.member("operation_id"@) == Some(JsonView::Text(key@))
                &&& body.member("from"@) == text_or_none(request.from)
                &&& body.member("to"@) == Some(texts_view(request.to@))
                &&& body.member("cc"@) == Some(texts_view(request.cc@))
                &&& body.member("bcc"@) == Some(texts_view(request.bcc@))
                &&& body.member("subject"@) == Some(JsonView::Text(request.subject@))
            }
        }),
{
    law_a_submission_reads_back(SendRequest { operation_id: key, ..request });
}

/// A queued draft never becomes two drafts on the server: if its payload names one that the
/// server has, the request changes that very draft, and only otherwise does it make a new one.
/// Either way the text is the one that was queued.
pub proof fn law_a_queued_draft_keeps_its_place(payload: JsonView, draft: DraftPayload)
    ensures
        ({
            let request = draft_submission(payload, draft);
            let named = payload.member_int64("draft_id"@);
            &&& request.body == Some(draft_view(draft))
            &&& request.method == Method::Patch <==> (named matches Some(id) && id >= 1)
            &&& request.method == Method::Patch ==> request.path == "/drafts/"@ + signed_digits(
                named->0,
            )
            &&& request.method != Method::Patch ==> request.method == Method::Post && request.path
                == "/drafts"@
            &&& request.query.len() == 0
        }),
{
}

/// Only the deletion of a message that is not there counts as done: deleting is the one
/// operation whose replay finds its own work, and no other refusal and no other kind is taken
/// for a success.
pub proof fn law_only_a_repeated_deletion_is_done(kind: OperationKind, status: int)
    ensures
        already_done(kind, status) ==> kind_name(kind) == "delete"@ && status == 404,
        status == 404 && kind_name(kind) == "delete"@ ==> already_done(kind, status),
{
    law_kind_names_round_trip(kind);
    law_kind_names_round_trip(OperationKind::Delete);
}

// -- flushing --------------------------------------------------------------

/// The outcome of one flush pass.
#[derive(Debug, Clone, PartialEq, Eq)]
pub struct FlushReport {
    /// The ids of the operations the server accepted (and that were removed).
    pub applied: Vec<String>,
    /// The operations that failed permanently: id and message.
    pub failed: Vec<(String, String)>,
    /// The operation that stopped the pass, if any.
    pub blocked_on: Option<String>,
    /// Whether the block was a retryable failure (the queue is intact and will be
    /// retried later).
    pub retryable: bool,
    /// How many operations are still queued for the account.
    pub remaining: usize,
}

impl FlushReport {
    /// Whether everything queued was accepted.
    pub fn is_complete(&self) -> (result: bool)
        ensures
            result == (self.failed@.len() == 0 && self.blocked_on is None && self.remaining == 0),
    {
        self.failed.len() == 0 && self.blocked_on.is_none() && self.remaining == 0
    }
}

impl Default for FlushReport {
    fn default() -> (result: FlushReport)
        ensures
            result.applied@.len() == 0 && result.failed@.len() == 0,
            result.blocked_on is None && !result.retryable && result.remaining == 0,
    {
        FlushReport {
            applied: Vec::new(),
            failed: Vec::new(),
            blocked_on: None,
            retryable: false,
            remaining: 0,
        }
    }
}

/// How one submission ended.
pub enum Outcome {
    /// The server accepted it.
    Accepted,
    /// It failed for now, with a message.
    Retryable(Seq<char>),
    /// It failed for good, with a message.
    Permanent(Seq<char>),
}

/// The message that an error shows the user.
pub open spec fn shown(error: ClientError) -> Seq<char> {
    match error {
        ClientError::Api(api) => api.message@,
        _ => message_of(error),
    }
}

/// How a submission with this result ended.
pub open spec fn outcome_of(result: ClientResult<()>) -> Outcome {
    match result {
        Ok(()) => Outcome::Accepted,
        Err(error) => if retryable(error) {
            Outcome::Retryable(shown(error))
        } else {
            Outcome::Permanent(shown(error))
        },
    }
}

/// Nothing is lost to a failure that may pass: an operation is kept exactly if its failure is
/// one that may pass, it leaves the queue otherwise, and what the user is shown of a refusal is
/// the server's own message.
pub proof fn law_what_may_pass_is_kept(result: ClientResult<()>)
    ensures
        outcome_of(result) is Accepted <==> result is Ok,
        outcome_of(result) is Retryable <==> result is Err && retryable(result->Err_0),
        outcome_of(result) is Permanent <==> result is Err && !retryable(result->Err_0),
        result matches Err(ClientError::Api(api)) ==> outcome_of(result) == (if retryable(
            ClientError::Api(api),
        ) {
            Outcome::Retryable(api.message@)
        } else {
            Outcome::Permanent(api.message@)
        }),
{
}

/// What a pass over `ids` has to report.
#[verifier::ext_equal]
pub struct ReportView {
    /// The accepted operations.
    pub applied: Seq<Seq<char>>,
    /// The operations that failed for good, with their messages.
    pub failed: Seq<(Seq<char>, Seq<char>)>,
    /// The operation that stopped the pass.
    pub blocked_on: Option<Seq<char>>,
}

/// The report after the first operations ended as `outcomes` says. A retryable
/// failure stops the pass: nothing after it counts.
pub open spec fn flushed(ids: Seq<Seq<char>>, outcomes: Seq<Outcome>) -> ReportView
    decreases outcomes.len(),
{
    if outcomes.len() == 0 {
        ReportView { applied: Seq::empty(), failed: Seq::empty(), blocked_on: None }
    } else {
        let before = flushed(ids, outcomes.drop_last());
        let id = ids[outcomes.len() - 1];
        if before.blocked_on is Some {
            before
        } else {
            match outcomes.last() {
                Outcome::Accepted => ReportView { applied: before.applied.push(id), ..before },
                Outcome::Retryable(_) => ReportView { blocked_on: Some(id), ..before },
                Outcome::Permanent(message) => ReportView {
                    failed: before.failed.push((id, message)),
                    ..before
                },
            }
        }
    }
}

/// What the flusher does to the queue after a submission.
#[derive(Debug, Clone, PartialEq, Eq)]
pub enum FlushAction {
    /// Remove the operation: the server accepted it.
    Remove {
        /// The operation.
        operation_id: String,
    },
    /// Count the attempt, keep the operation, and stop the pass.
    Keep {
        /// The operation.
        operation_id: String,
        /// What to record.
        message: String,
    },
    /// Count the attempt, then remove the operation: it can never succeed.
    Discard {
        /// The operation.
        operation_id: String,
        /// What to record.
        message: String,
    },
}

/// The ids of a list of operations.
pub open spec fn ids_of(operations: Seq<PendingOperation>) -> Seq<Seq<char>> {
    operations.map_values(|op: PendingOperation| op.operation_id@)
}

/// The views of a list of failures.
pub open spec fn failures_view(failed: Seq<(String, String)>) -> Seq<(Seq<char>, Seq<char>)> {
    failed.map_values(|f: (String, String)| (f.0@, f.1@))
}

/// One pass over the queue, in order.
pub struct OperationFlusher {
    operations: Vec<PendingOperation>,
    done: usize,
    report: FlushReport,
    outcomes: Ghost<Seq<Outcome>>,
}

impl OperationFlusher {
    /// The queued operations, in order.
    pub closed spec fn operations(&self) -> Seq<PendingOperation> {
        self.operations@
    }

    /// The ids of the queued operations, in order.
    pub open spec fn ids(&self) -> Seq<Seq<char>> {
        ids_of(self.operations())
    }

    /// How the submissions so far ended, in order.
    pub closed spec fn outcomes(&self) -> Seq<Outcome> {
        self.outcomes@
    }

    /// The report so far.
    pub closed spec fn so_far(&self) -> ReportView {
        ReportView {
            applied: views(self.report.applied@),
            failed: failures_view(self.report.failed@),
            blocked_on: opt_view(self.report.blocked_on),
        }
    }

    /// Whether the pass has anything left to submit.
    pub open spec fn finished(&self) -> bool {
        self.so_far().blocked_on is Some || self.outcomes().len() >= self.ids().len()
    }

    /// The pass has submitted a prefix of the queue, and its report is the one for
    /// that prefix.
    pub closed spec fn wf(&self) -> bool {
        &&& self.done == self.outcomes@.len()
        &&& self.done <= self.operations@.len()
        &&& self.so_far() == flushed(self.ids(), self.outcomes@)
        &&& self.report.retryable == (self.report.blocked_on is Some)
    }

    /// A pass over `operations`, which are in queue order.
    pub fn new(operations: Vec<PendingOperation>) -> (result: OperationFlusher)
        ensures
            result.wf(),
            result.operations() == operations@,
            result.outcomes() == Seq::<Outcome>::empty(),
    {
        let result = OperationFlusher {
            operations,
            done: 0,
            report: FlushReport::default(),
            outcomes: Ghost(Seq::empty()),
        };
        proof {
            assert(result.so_far() =~= flushed(result.ids(), result.outcomes@));
        }
        result
    }

    /// The operation to submit next; none when the pass is over.
    pub fn next(&self) -> (result: Option<&PendingOperation>)
        requires
            self.wf(),
        ensures
            match result {
                Some(operation) => !self.finished() && *operation
                    == self.operations()[self.outcomes().len() as int],
                None => self.finished(),
            },
    {
        if self.report.blocked_on.is_some() || self.done >= self.operations.len() {
            None
        } else {
            Some(&self.operations[self.done])
        }
    }

    /// Record how the operation from [`OperationFlusher::next`] ended, and say what that
    /// does to the queue.
    ///
    /// * a success is removed from the queue;
    /// * a permanent failure is reported and removed: retrying it would only repeat
    ///   the rejection;
    /// * a retryable failure keeps the entry and **stops the pass**, so ordering is
    ///   preserved.
    pub fn on_result(&mut self, outcome: ClientResult<()>) -> (result: FlushAction)
        requires
            old(self).wf(),
            !old(self).finished(),
        ensures
            final(self).wf(),
            final(self).operations() == old(self).operations(),
            final(self).outcomes() == old(self).outcomes().push(outcome_of(outcome)),
            final(self).so_far() == flushed(final(self).ids(), final(self).outcomes()),
            result is Remove <==> final(self).so_far().applied.len()
                == old(self).so_far().applied.len() + 1,
            result is Discard <==> final(self).so_far().failed.len()
                == old(self).so_far().failed.len() + 1,
            result is Keep <==> final(self).so_far().blocked_on is Some,
            ({
                let id = old(self).ids()[old(self).outcomes().len() as int];
                match outcome_of(outcome) {
                    Outcome::Accepted => result matches FlushAction::Remove { operation_id }
                        && operation_id@ == id,
                    Outcome::Retryable(text) => result matches FlushAction::Keep {
                        operation_id,
                        message,
                    } && operation_id@ == id && message@ == text,
                    Outcome::Permanent(text) => result matches FlushAction::Discard {
                        operation_id,
                        message,
                    } && operation_id@ == id && message@ == text,
                }
            }),
    {
        let ghost before = self.so_far();
        let ghost earlier = self.outcomes@;
        let ghost applied = self.report.applied@;
        let ghost failed = self.report.failed@;
        let total: usize = self.operations.len();
        let id = self.operations[self.done].operation_id.clone();
        proof {
            assert(self.done < total);
            self.outcomes@ = earlier.push(outcome_of(outcome));
            assert(self.outcomes@.drop_last() =~= earlier);
        }
        self.done = self.done + 1;
        match outcome {
            Ok(()) => {
                self.report.applied.push(id.clone());
                proof {
                    assert(views(self.report.applied@) =~= views(applied).push(id@));
                    assert(self.so_far() =~= flushed(self.ids(), self.outcomes@));
                }
                FlushAction::Remove { operation_id: id }
            },
            Err(error) => {
                let message = error.user_message();
                if error.is_retryable() {
                    self.report.blocked_on = Some(id.clone());
                    self.report.retryable = true;
                    proof {
                        assert(self.so_far() =~= flushed(self.ids(), self.outcomes@));
                    }
                    FlushAction::Keep { operation_id: id, message }
                } else {
                    self.report.failed.push((id.clone(), message.clone()));
                    proof {
                        assert(failures_view(self.report.failed@) =~= failures_view(failed).push(
                            (id@, message@),
                        ));
                        assert(self.so_far() =~= flushed(self.ids(), self.outcomes@));
                    }
                    FlushAction::Discard { operation_id: id, message }
                }
            },
        }
    }

    /// The report of the pass, with the number of operations that are still queued.
    pub fn finish(self, remaining: i64) -> (result: FlushReport)
        requires
            self.wf(),
        ensures
            views(result.applied@) == flushed(self.ids(), self.outcomes()).applied,
            failures_view(result.failed@) == flushed(self.ids(), self.outcomes()).failed,
            opt_view(result.blocked_on) == flushed(self.ids(), self.outcomes()).blocked_on,
            result.retryable == (result.blocked_on is Some),
            result.remaining == (if remaining < 0 { 0i64 } else { remaining }) as usize,
    {
        let mut report = self.report;
        report.remaining = if remaining < 0 {
            0
        } else {
            remaining as usize
        };
        report
    }
}

/// How many operations a pass takes off the queue.
pub open spec fn taken(ids: Seq<Seq<char>>, outcomes: Seq<Outcome>) -> int {
    (flushed(ids, outcomes).applied.len() + flushed(ids, outcomes).failed.len()) as int
}

/// A pass goes on exactly while nothing blocks it and an operation is left: what blocks it ends
/// it, and a pass that nothing blocks ends only when every operation was answered.
pub proof fn law_a_pass_stops_where_it_is_blocked(pass: OperationFlusher)
    requires
        pass.wf(),
    ensures
        pass.so_far().blocked_on is Some ==> pass.finished(),
        pass.so_far().blocked_on is None && pass.outcomes().len() < pass.operations().len()
            ==> !pass.finished(),
        pass.so_far().blocked_on is None && pass.finished() ==> pass.outcomes().len()
            == pass.operations().len(),
{
}

/// Order is kept and nothing is lost: what leaves the queue is exactly its first
/// operations, all of which the server answered for good; the first operation that
/// stays is the one that blocked the pass, and nothing after it was submitted.
pub proof fn law_flush_takes_a_prefix(ids: Seq<Seq<char>>, outcomes: Seq<Outcome>)
    requires
        outcomes.len() <= ids.len(),
        forall|i: int|
            0 <= i < outcomes.len() - 1 ==> !((#[trigger] outcomes[i]) is Retryable),
    ensures
        taken(ids, outcomes) <= outcomes.len(),
        flushed(ids, outcomes).blocked_on is None ==> taken(ids, outcomes) == outcomes.len(),
        flushed(ids, outcomes).blocked_on matches Some(id) ==> taken(ids, outcomes)
            == outcomes.len() - 1 && id == ids[taken(ids, outcomes)],
        flushed(ids, outcomes).blocked_on is Some <==> outcomes.len() > 0
            && outcomes.last() is Retryable,
    decreases outcomes.len(),
{
    if outcomes.len() > 0 {
        let earlier = outcomes.drop_last();
        assert forall|i: int| 0 <= i < earlier.len() - 1 implies !((#[trigger] earlier[i])
            is Retryable) by {
            assert(earlier[i] == outcomes[i]);
        }
        law_flush_takes_a_prefix(ids, earlier);
        if earlier.len() > 0 {
            assert(earlier.last() == outcomes[outcomes.len() - 2]);
        }
    }
}

/// Every operation that a pass takes off the queue is reported: the `i`-th answered
/// operation is among the accepted ones or among the failed ones.
pub proof fn law_flush_reports_what_it_takes(ids: Seq<Seq<char>>, outcomes: Seq<Outcome>, i: int)
    requires
        outcomes.len() <= ids.len(),
        forall|j: int| 0 <= j < outcomes.len() ==> !((#[trigger] outcomes[j]) is Retryable),
        0 <= i < outcomes.len(),
    ensures
        outcomes[i] is Accepted ==> flushed(ids, outcomes).applied.contains(ids[i]),
        outcomes[i] matches Outcome::Permanent(message) ==> flushed(ids, outcomes).failed.contains(
            (ids[i], message),
        ),
        flushed(ids, outcomes).blocked_on is None,
    decreases outcomes.len(),
{
    let earlier = outcomes.drop_last();
    let n = earlier.len() as int;
    assert forall|j: int| 0 <= j < earlier.len() implies !((#[trigger] earlier[j])
        is Retryable) by {
        assert(earlier[j] == outcomes[j]);
    }
    assert(!(outcomes[n] is Retryable));
    let before = flushed(ids, earlier);
    let after = flushed(ids, outcomes);
    if n > 0 {
        law_flush_reports_what_it_takes(
            ids,
            earlier,
            if i < n {
                i
            } else {
                0
            },
        );
    }
    if i < n {
        assert(earlier[i] == outcomes[i]);
        match outcomes[i] {
            Outcome::Accepted => {
                let k = choose|k: int| 0 <= k < before.applied.len() && before.applied[k] == ids[i];
                assert(after.applied[k] == ids[i]);
            },
            Outcome::Permanent(message) => {
                let k = choose|k: int|
                    0 <= k < before.failed.len() && before.failed[k] == (ids[i], message);
                assert(after.failed[k] == (ids[i], message));
            },
            Outcome::Retryable(_) => {},
        }
    } else {
        match outcomes[i] {
            Outcome::Accepted => {
                assert(after.applied[before.applied.len() as int] == ids[i]);
            },
            Outcome::Permanent(message) => {
                assert(after.failed[before.failed.len() as int] == (ids[i], message));
            },
            Outcome::Retryable(_) => {},
        }
    }
}

// -- a scripted submitter --------------------------------------------------

/// A submitter that answers from a script, for a dry run.
#[derive(Debug)]
pub struct ScriptedSubmitter {
    outcomes: Vec<ClientResult<()>>,
    seen: Vec<String>,
}

impl ScriptedSubmitter {
    /// The outcomes that are left, in order.
    pub closed spec fn script(&self) -> Seq<ClientResult<()>> {
        self.outcomes@
    }

    /// The ids submitted so far, in order.
    pub closed spec fn submitted(&self) -> Seq<Seq<char>> {
        views(self.seen@)
    }

    /// An empty script: every submission succeeds.
    pub fn new() -> (result: ScriptedSubmitter)
        ensures
            result.script() == Seq::<ClientResult<()>>::empty(),
            result.submitted() == Seq::<Seq<char>>::empty(),
    {
        let result = ScriptedSubmitter { outcomes: Vec::new(), seen: Vec::new() };
        proof {
            assert(views(result.seen@) =~= Seq::empty());
        }
        result
    }

    /// Append an outcome. Outcomes are consumed in order; when the script runs out,
    /// submissions succeed.
    pub fn push(&mut self, outcome: ClientResult<()>)
        ensures
            final(self).script() == old(self).script().push(outcome),
            final(self).submitted() == old(self).submitted(),
    {
        self.outcomes.push(outcome);
    }

    /// Which submissions were attempted, by id.
    pub fn seen(&self) -> (result: Vec<String>)
        ensures
            views(result@) == self.submitted(),
    {
        crate::text::copy_list(&self.seen)
    }

    /// Answer one submission from the script.
    pub fn submit(&mut self, operation: &PendingOperation) -> (result: ClientResult<()>)
        ensures
            final(self).submitted() == old(self).submitted().push(operation.operation_id@),
            if old(self).script().len() == 0 {
                result is Ok && final(self).script() == old(self).script()
            } else {
                result == old(self).script()[0] && final(self).script() == old(
                    self,
                ).script().drop_first()
            },
    {
        let ghost before = self.seen@;
        let ghost script = self.outcomes@;
        self.seen.push(operation.operation_id.clone());
        proof {
            assert(views(self.seen@) =~= views(before).push(operation.operation_id@));
        }
        if self.outcomes.len() == 0 {
            Ok(())
        } else {
            let outcome = self.outcomes.remove(0);
            proof {
                assert(self.outcomes@ =~= script.drop_first());
            }
            outcome
        }
    }
}

// -- the stored queue ------------------------------------------------------

/// Queues an operation; a key that is queued already is left as it is.
pub const ENQUEUE: &'static str =
    "INSERT INTO pending_operations (operation_id, account_id, kind, payload, created_at) VALUES (?, ?, ?, ?, ?) ON CONFLICT(operation_id) DO NOTHING";

/// Records a failed attempt.
pub const RECORD_ATTEMPT: &'static str =
    "UPDATE pending_operations SET attempts = attempts + 1, last_error = ? WHERE operation_id = ?";

/// Drops an operation.
pub const REMOVE: &'static str = "DELETE FROM pending_operations WHERE operation_id = ?";

/// The parameters that queue an operation.
pub open spec fn enqueue_binds(
    account_id: int,
    kind: OperationKind,
    payload: Seq<char>,
    operation_id: Seq<char>,
    now: Seq<char>,
) -> Seq<BindView> {
    seq![
        BindView::Text(operation_id),
        BindView::Int(account_id),
        BindView::Text(kind_name(kind)),
        BindView::Text(payload),
        BindView::Text(now),
    ]
}

/// An operation is queued for its account, and every parameter is of the kind that its column
/// holds, so that none of them is refused or stored as something else.
pub proof fn law_an_operation_is_queued_for_its_account(
    account_id: int,
    kind: OperationKind,
    payload: Seq<char>,
    operation_id: Seq<char>,
    now: Seq<char>,
)
    ensures
        ({
            let queued = enqueue_binds(account_id, kind, payload, operation_id, now);
            &&& queued.len() == 5 && queued[0] is Text && queued[2] is Text
            &&& queued[1] == BindView::Int(account_id)
            &&& queued[3] is Text && queued[4] is Text
        }),
{
}

/// Whether the columns of `row` are the parameters that queued it.
pub open spec fn row_queued(row: OperationRow, binds: Seq<BindView>) -> bool {
    &&& binds[0] == BindView::Text(row.operation_id@)
    &&& binds[1] == BindView::Int(row.account_id as int)
    &&& binds[2] == BindView::Text(row.kind@)
    &&& binds[3] == BindView::Text(row.payload@)
    &&& binds[4] == BindView::Text(row.created_at@)
    &&& row.attempts == 0
    &&& row.last_error is None
}

/// What the user did offline survives a restart: the operation that is read from the row of an
/// enqueue is the one that was queued, with its key, its kind and its payload, and has not been
/// tried yet.
pub proof fn law_a_queued_operation_survives(
    operation: PendingOperation,
    row: OperationRow,
    account_id: int,
    kind: OperationKind,
    payload: Seq<char>,
    operation_id: Seq<char>,
    written_at: Seq<char>,
    now: Timestamp,
)
    requires
        row_queued(row, enqueue_binds(account_id, kind, payload, operation_id, written_at)),
        operation_of_row(operation, row, now),
    ensures
        operation.operation_id@ == operation_id,
        operation.account_id == account_id,
        operation.kind == kind,
        json_read(payload) matches Ok(value) ==> operation.payload@ == value,
        operation.created_at == time_or(written_at, now),
        operation.attempts == 0,
        operation.last_error is None,
{
    law_kind_names_round_trip(kind);
}

/// The persisted queue: the statements that change it.
#[derive(Debug, Clone, Copy, PartialEq, Eq, Structural)]
pub struct PendingQueue;

impl PendingQueue {
    /// Queue an operation under its idempotency key, given the JSON text of its
    /// payload.
    ///
    /// This is what makes "the user pressed the button twice" and "we retried after
    /// a timeout" the same operation rather than two.
    pub fn enqueue_with_id(
        account_id: i64,
        kind: OperationKind,
        payload: &str,
        operation_id: &str,
        now: &str,
    ) -> (result: Statement)
        ensures
            result.stands_for(
                ENQUEUE@,
                enqueue_binds(account_id as int, kind, payload@, operation_id@, now@),
            ),
    {
        Statement::new(ENQUEUE).bind(Bind::text(operation_id)).bind(Bind::Int(account_id)).bind(
            Bind::text(kind.as_str()),
        ).bind(Bind::text(payload)).bind(Bind::text(now))
    }

    /// The operation that is stored under a key that was just queued.
    pub fn queued(row: Option<OperationRow>, now: Timestamp) -> (result: ClientResult<
        PendingOperation,
    >)
        ensures
            match row {
                None => result matches Err(ClientError::Cache(m)) && m@
                    == "queued operation vanished"@,
                Some(row) => match kind_named(row.kind@) {
                    Some(_) => result is Ok && operation_of_row(result->Ok_0, row, now),
                    None => result matches Err(ClientError::Cache(m)) && m@ == unknown_kind(
                        row.kind@,
                    ),
                },
            },
    {
        match row {
            None => Err(ClientError::cache("queued operation vanished")),
            Some(row) => PendingOperation::from_row(row, now),
        }
    }

    /// The statement that records a failed attempt without losing the operation.
    pub fn record_attempt(operation_id: &str, error: &Option<String>) -> (result: Statement)
        ensures
            result.stands_for(
                RECORD_ATTEMPT@,
                seq![text_bind(*error), BindView::Text(operation_id@)],
            ),
    {
        Statement::new(RECORD_ATTEMPT).bind(Bind::text_if(error)).bind(Bind::text(operation_id))
    }

    /// The statement that drops an operation which the server has accepted, or
    /// which can never succeed.
    pub fn remove(operation_id: &str) -> (result: Statement)
        ensures
            result.stands_for(REMOVE@, seq![BindView::Text(operation_id@)]),
    {
        Statement::new(REMOVE).bind(Bind::text(operation_id))
    }
}

// -- reading ---------------------------------------------------------------

/// Lists the queue of an account, oldest first.
pub const SELECT_QUEUED: &'static str =
    "SELECT seq, operation_id, account_id, kind, payload, created_at, attempts, last_error FROM pending_operations WHERE account_id = ? ORDER BY seq ASC";

/// Lists every queue, oldest first.
pub const SELECT_EVERY_QUEUED: &'static str =
    "SELECT seq, operation_id, account_id, kind, payload, created_at, attempts, last_error FROM pending_operations ORDER BY seq ASC";

/// Counts the queue of an account.
pub const COUNT_QUEUED: &'static str =
    "SELECT COUNT(*) AS n FROM pending_operations WHERE account_id = ?";

/// Selects one operation.
pub const SELECT_OPERATION: &'static str =
    "SELECT seq, operation_id, account_id, kind, payload, created_at, attempts, last_error FROM pending_operations WHERE operation_id = ?";

/// Forgets the queue of an account.
pub const CLEAR_QUEUE: &'static str =
    "DELETE FROM pending_operations WHERE account_id = ?";

impl PendingQueue {
    /// The statement that lists what is queued for an account, oldest first.
    pub fn list(account_id: i64) -> (result: Statement)
        ensures
            result.stands_for(SELECT_QUEUED@, seq![BindView::Int(account_id as int)]),
    {
        Statement::new(SELECT_QUEUED).bind(Bind::Int(account_id))
    }

    /// The statement that lists what is queued for every account, oldest first.
    pub fn list_all() -> (result: Statement)
        ensures
            result.stands_for(SELECT_EVERY_QUEUED@, Seq::empty()),
    {
        Statement::new(SELECT_EVERY_QUEUED)
    }

    /// The statement that counts what is waiting for an account; its one column is called
    /// `n`.
    pub fn len(account_id: i64) -> (result: Statement)
        ensures
            result.stands_for(COUNT_QUEUED@, seq![BindView::Int(account_id as int)]),
    {
        Statement::new(COUNT_QUEUED).bind(Bind::Int(account_id))
    }

    /// The statement that selects one operation by its idempotency key.
    pub fn find(operation_id: &str) -> (result: Statement)
        ensures
            result.stands_for(SELECT_OPERATION@, seq![BindView::Text(operation_id@)]),
    {
        Statement::new(SELECT_OPERATION).bind(Bind::text(operation_id))
    }

    /// The statement that forgets everything queued for an account.
    pub fn clear_account(account_id: i64) -> (result: Statement)
        ensures
            result.stands_for(CLEAR_QUEUE@, seq![BindView::Int(account_id as int)]),
    {
        Statement::new(CLEAR_QUEUE).bind(Bind::Int(account_id))
    }
}

} // verus!
