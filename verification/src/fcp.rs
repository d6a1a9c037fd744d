//! The FCP HTTP client without its transport: the requests it makes, the tokens
//! it holds, and what it decides after each answer.
//!
//! Nothing here touches the network. A transport executes a [`RequestSpec`] and
//! hands what happened to an [`Exchange`], which says what to do next.

use vstd::prelude::*;

use crate::api::{
    base64_text, is_base64_char, least, DeviceInfo, DraftPayload, MessageAction, MessagePatch,
    retryable_status, RefreshResponse, RetryPolicy, SendRequest,
};
use crate::delay::Delay;
use crate::error::{retryable, status_of, ClientError, ClientResult};
use crate::json::{
    bool_member_if, int_member_if, ints_view, json_ints, json_texts, lemma_members_pushed,
    member_of, option_view, text_member_if, texts_view, Json, JsonView, Members,
};
use crate::text::{
    decimal, decimal_signed, digits, opt_view, signed_digits, trim_trailing, without_trailing,
};

verus! {

// -- requests --------------------------------------------------------------

/// The HTTP methods the protocol uses.
#[derive(Debug, Clone, Copy, PartialEq, Eq, Structural)]
pub enum Method {
    /// `GET`
    Get,
    /// `POST`
    Post,
    /// `PATCH`
    Patch,
    /// `PUT`
    Put,
    /// `DELETE`
    Delete,
}

/// What a request needs, independent of how many times it is attempted.
#[derive(Debug, Clone, PartialEq, Eq)]
pub struct RequestSpec {
    /// The method.
    pub method: Method,
    /// The path below the base URL.
    pub path: String,
    /// The query parameters, in order.
    pub query: Vec<(String, String)>,
    /// The JSON body.
    pub body: Option<Json>,
    /// Whether to attach the bearer token.
    pub authenticated: bool,
    /// A raw body with its content type, which overrides the JSON body.
    pub raw: Option<(Vec<u8>, String)>,
    /// The value of a `Range` header, for resumable downloads.
    pub range: Option<String>,
}

/// What a [`RequestSpec`] stands for.
#[verifier::ext_equal]
pub struct RequestView {
    /// The method.
    pub method: Method,
    /// The path.
    pub path: Seq<char>,
    /// The query parameters.
    pub query: Seq<(Seq<char>, Seq<char>)>,
    /// The JSON body.
    pub body: Option<JsonView>,
    /// Whether the bearer token is attached.
    pub authenticated: bool,
    /// The raw body and its content type.
    pub raw: Option<(Seq<u8>, Seq<char>)>,
    /// The `Range` header.
    pub range: Option<Seq<char>>,
}

/// The view of a list of query parameters.
pub open spec fn pairs_view(pairs: Seq<(String, String)>) -> Seq<(Seq<char>, Seq<char>)> {
    pairs.map_values(|p: (String, String)| (p.0@, p.1@))
}

impl RequestSpec {
    /// What the request stands for.
    pub open spec fn view(&self) -> RequestView {
        RequestView {
            method: self.method,
            path: self.path@,
            query: pairs_view(self.query@),
            body: option_view(self.body),
            authenticated: self.authenticated,
            raw: match self.raw {
                Some((bytes, content_type)) => Some((bytes@, content_type@)),
                None => None,
            },
            range: opt_view(self.range),
        }
    }
}

/// An authenticated request with neither parameters nor a body.
pub open spec fn plain_request(method: Method, path: Seq<char>) -> RequestView {
    RequestView {
        method,
        path,
        query: Seq::empty(),
        body: None,
        authenticated: true,
        raw: None,
        range: None,
    }
}

impl RequestView {
    /// The request with one more query parameter.
    pub open spec fn with_query(self, key: Seq<char>, value: Seq<char>) -> RequestView {
        RequestView { query: self.query.push((key, value)), ..self }
    }

    /// The request with one more query parameter, when there is a number for it.
    pub open spec fn with_number_if(self, key: Seq<char>, value: Option<int>) -> RequestView {
        match value {
            Some(n) => self.with_query(key, signed_digits(n)),
            None => self,
        }
    }

    /// The request with a JSON body.
    pub open spec fn with_body(self, body: JsonView) -> RequestView {
        RequestView { body: Some(body), ..self }
    }

    /// The request without the bearer token.
    pub open spec fn without_token(self) -> RequestView {
        RequestView { authenticated: false, ..self }
    }
}

/// The optional size as an optional number.
pub open spec fn opt_size(value: Option<usize>) -> Option<int> {
    match value {
        Some(n) => Some(n as int),
        None => None,
    }
}

/// The optional id as an optional number.
pub open spec fn opt_id(value: Option<i64>) -> Option<int> {
    match value {
        Some(n) => Some(n as int),
        None => None,
    }
}

impl RequestSpec {
    fn new(method: Method, path: &str) -> (result: RequestSpec)
        ensures
            result@ == plain_request(method, path@),
    {
        let result = RequestSpec {
            method,
            path: path.to_owned(),
            query: Vec::new(),
            body: None,
            authenticated: true,
            raw: None,
            range: None,
        };
        proof {
            assert(result@ =~= plain_request(method, path@));
        }
        result
    }

    fn query(self, key: &str, value: &str) -> (result: RequestSpec)
        ensures
            result@ == self@.with_query(key@, value@),
    {
        let ghost before = self.query@;
        let mut result = self;
        result.query.push((key.to_owned(), value.to_owned()));
        proof {
            assert(pairs_view(result.query@) =~= pairs_view(before).push((key@, value@)));
            assert(result@ =~= self@.with_query(key@, value@));
        }
        result
    }

    fn query_id_if(self, key: &str, value: Option<i64>) -> (result: RequestSpec)
        ensures
            result@ == self@.with_number_if(key@, opt_id(value)),
    {
        match value {
            Some(n) => self.query(key, decimal_signed(n).as_str()),
            None => self,
        }
    }

    fn query_size_if(self, key: &str, value: Option<usize>) -> (result: RequestSpec)
        ensures
            result@ == self@.with_number_if(key@, opt_size(value)),
    {
        match value {
            Some(n) => self.query(key, decimal(n as u64).as_str()),
            None => self,
        }
    }

    fn json(self, body: Json) -> (result: RequestSpec)
        ensures
            result@ == self@.with_body(body@),
    {
        let mut result = self;
        result.body = Some(body);
        proof {
            assert(result@ =~= self@.with_body(body@));
        }
        result
    }

    fn anonymous(self) -> (result: RequestSpec)
        ensures
            result@ == self@.without_token(),
    {
        let mut result = self;
        result.authenticated = false;
        proof {
            assert(result@ =~= self@.without_token());
        }
        result
    }

    fn raw(self, bytes: Vec<u8>, content_type: &str) -> (result: RequestSpec)
        ensures
            result@ == (RequestView { raw: Some((bytes@, content_type@)), ..self@ }),
    {
        let mut result = self;
        result.raw = Some((bytes, content_type.to_owned()));
        proof {
            assert(result@ =~= (RequestView { raw: Some((bytes@, content_type@)), ..self@ }));
        }
        result
    }

    fn range(self, range: String) -> (result: RequestSpec)
        ensures
            result@ == (RequestView { range: Some(range@), ..self@ }),
    {
        let mut result = self;
        result.range = Some(range);
        proof {
            assert(result@ =~= (RequestView { range: Some(range@), ..self@ }));
        }
        result
    }
}

/// `<head><id>`
pub open spec fn path_with_id(head: Seq<char>, id: int) -> Seq<char> {
    head + signed_digits(id)
}

fn with_id(head: &str, id: i64, tail: &str) -> (result: String)
    ensures
        result@ == path_with_id(head@, id as int) + tail@,
{
    let mut out = head.to_owned();
    out.append(decimal_signed(id).as_str());
    out.append(tail);
    out
}

fn just_id(head: &str, id: i64) -> (result: String)
    ensures
        result@ == path_with_id(head@, id as int),
{
    let mut out = head.to_owned();
    out.append(decimal_signed(id).as_str());
    out
}

// -- bodies ----------------------------------------------------------------

/// The members of a device record.
pub open spec fn device_view(device: DeviceInfo) -> JsonView {
    JsonView::Object(
        seq![
            ("device_uid"@, JsonView::Text(device.device_uid@)),
            ("name"@, JsonView::Text(device.name@)),
            ("platform"@, JsonView::Text(device.platform@)),
            ("client_version"@, JsonView::Text(device.client_version@)),
        ],
    )
}

fn device_json(device: &DeviceInfo) -> (result: Json)
    ensures
        result@ == device_view(*device),
{
    let mut members = Members::new();
    members.put_text("device_uid", device.device_uid.as_str());
    members.put_text("name", device.name.as_str());
    members.put_text("platform", device.platform.as_str());
    members.put_text("client_version", device.client_version.as_str());
    proof {
        assert(JsonView::Object(members@) == device_view(*device)) by {
            assert(members@ =~= device_view(*device)->Object_0);
        }
    }
    members.finish()
}

/// The body of a submission: what has no value is left out.
pub open spec fn send_view(request: SendRequest) -> JsonView {
    JsonView::Object(
        seq![("operation_id"@, JsonView::Text(request.operation_id@))] + int_member_if(
            "mailbox_id"@,
            request.mailbox_id,
        ) + text_member_if("from"@, request.from) + seq![
            ("to"@, texts_view(request.to@)),
            ("cc"@, texts_view(request.cc@)),
            ("bcc"@, texts_view(request.bcc@)),
            ("subject"@, JsonView::Text(request.subject@)),
        ] + text_member_if("text"@, request.text) + text_member_if("html"@, request.html) + seq![
            ("attachment_ids"@, ints_view(request.attachment_ids@)),
        ] + text_member_if("in_reply_to"@, request.in_reply_to) + seq![
            ("references"@, texts_view(request.references@)),
        ],
    )
}

fn send_json(request: &SendRequest) -> (result: Json)
    ensures
        result@ == send_view(*request),
{
    let mut members = Members::new();
    members.put_text("operation_id", request.operation_id.as_str());
    members.put_int_if("mailbox_id", request.mailbox_id);
    members.put_text_if("from", &request.from);
    members.put("to", json_texts(&request.to));
    members.put("cc", json_texts(&request.cc));
    members.put("bcc", json_texts(&request.bcc));
    members.put_text("subject", request.subject.as_str());
    members.put_text_if("text", &request.text);
    members.put_text_if("html", &request.html);
    members.put("attachment_ids", json_ints(&request.attachment_ids));
    members.put_text_if("in_reply_to", &request.in_reply_to);
    members.put("references", json_texts(&request.references));
    proof {
        assert(members@ =~= send_view(*request)->Object_0);
    }
    members.finish()
}

/// The body of a flag change: a flag that is not set is left out.
pub open spec fn patch_view(patch: MessagePatch) -> JsonView {
    JsonView::Object(
        bool_member_if("seen"@, patch.seen) + bool_member_if("flagged"@, patch.flagged)
            + bool_member_if("answered"@, patch.answered) + bool_member_if(
            "deleted"@,
            patch.deleted,
        ),
    )
}

fn patch_json(patch: &MessagePatch) -> (result: Json)
    ensures
        result@ == patch_view(*patch),
{
    let mut members = Members::new();
    members.put_bool_if("seen", patch.seen);
    members.put_bool_if("flagged", patch.flagged);
    members.put_bool_if("answered", patch.answered);
    members.put_bool_if("deleted", patch.deleted);
    proof {
        assert(members@ =~= patch_view(*patch)->Object_0);
    }
    members.finish()
}

/// The body of a draft: what has no value is left out.
pub open spec fn draft_view(draft: DraftPayload) -> JsonView {
    JsonView::Object(
        seq![("subject"@, JsonView::Text(draft.subject@))] + text_member_if("text"@, draft.text)
            + text_member_if("html"@, draft.html) + seq![
            ("to"@, texts_view(draft.to@)),
            ("cc"@, texts_view(draft.cc@)),
            ("bcc"@, texts_view(draft.bcc@)),
        ] + text_member_if("in_reply_to"@, draft.in_reply_to) + seq![
            ("references"@, texts_view(draft.references@)),
            ("attachment_ids"@, ints_view(draft.attachment_ids@)),
        ],
    )
}

/// A draft as JSON.
pub fn draft_json(draft: &DraftPayload) -> (result: Json)
    ensures
        result@ == draft_view(*draft),
{
    let mut members = Members::new();
    members.put_text("subject", draft.subject.as_str());
    members.put_text_if("text", &draft.text);
    members.put_text_if("html", &draft.html);
    members.put("to", json_texts(&draft.to));
    members.put("cc", json_texts(&draft.cc));
    members.put("bcc", json_texts(&draft.bcc));
    members.put_text_if("in_reply_to", &draft.in_reply_to);
    members.put("references", json_texts(&draft.references));
    members.put("attachment_ids", json_ints(&draft.attachment_ids));
    proof {
        assert(members@ =~= draft_view(*draft)->Object_0);
    }
    members.finish()
}

// -- requests with several parts ---------------------------------------------

/// The request that signs in.
pub open spec fn login_request(email: Seq<char>, password: Seq<char>, device: DeviceInfo) -> RequestView {
    plain_request(Method::Post, "/auth/login"@).with_body(
        JsonView::Object(
            seq![
                ("email"@, JsonView::Text(email)),
                ("password"@, JsonView::Text(password)),
                ("device"@, device_view(device)),
            ],
        ),
    ).without_token()
}

/// The request that spends a refresh token.
pub open spec fn refresh_request(token: Seq<char>, uid: Seq<char>) -> RequestView {
    plain_request(Method::Post, "/auth/refresh"@).with_body(
        JsonView::Object(
            seq![("refresh_token"@, JsonView::Text(token)), ("device_uid"@, JsonView::Text(uid))],
        ),
    ).without_token()
}

/// The request for what has changed since a cursor.
pub open spec fn sync_request(
    mailbox: int,
    folder: Option<int>,
    cursor: Seq<char>,
    limit: Option<int>,
) -> RequestView {
    plain_request(Method::Get, "/sync"@).with_query(
        "mailbox_id"@,
        signed_digits(mailbox),
    ).with_query("cursor"@, cursor).with_number_if("folder_id"@, folder).with_number_if(
        "limit"@,
        limit,
    )
}

/// The request for a page of messages.
pub open spec fn messages_request(
    mailbox: int,
    folder: Option<int>,
    limit: Option<int>,
    offset: Option<int>,
) -> RequestView {
    plain_request(Method::Get, "/messages"@).with_query(
        "mailbox_id"@,
        signed_digits(mailbox),
    ).with_number_if("folder_id"@, folder).with_number_if("limit"@, limit).with_number_if(
        "offset"@,
        offset,
    )
}

/// The request that searches on the server.
pub open spec fn search_request(
    query: Seq<char>,
    mailbox: Option<int>,
    folder: Option<int>,
    limit: Option<int>,
) -> RequestView {
    plain_request(Method::Get, "/search"@).with_query("q"@, query).with_number_if(
        "mailbox_id"@,
        mailbox,
    ).with_number_if("folder_id"@, folder).with_number_if("limit"@, limit)
}

/// The request that announces an upload.
pub open spec fn init_request(filename: Seq<char>, content_type: Seq<char>, size: int) -> RequestView {
    plain_request(Method::Post, "/attachments/init"@).with_body(
        JsonView::Object(
            seq![
                ("filename"@, JsonView::Text(filename)),
                ("content_type"@, JsonView::Text(content_type)),
                ("size_bytes"@, JsonView::Int(size)),
            ],
        ),
    )
}

/// The request that sends one chunk of an upload.
pub open spec fn chunk_request(attachment: int, index: nat, bytes: Seq<u8>) -> RequestView {
    RequestView {
        raw: Some((bytes, "application/octet-stream"@)),
        ..plain_request(
            Method::Put,
            path_with_id("/attachments/"@, attachment) + "/chunk"@,
        ).with_query("index"@, digits(index))
    }
}

/// The request that closes an upload.
pub open spec fn complete_request(attachment: int, sha256: Seq<char>) -> RequestView {
    plain_request(
        Method::Post,
        path_with_id("/attachments/"@, attachment) + "/complete"@,
    ).with_body(JsonView::Object(seq![("sha256"@, JsonView::Text(sha256))]))
}

/// The calls that need nothing but a place.
pub enum Call {
    /// Read the account.
    Account,
    /// List the mailboxes.
    Mailboxes,
    /// Read a message.
    Message(int),
    /// Read a message as it was received.
    RawMessage(int),
    /// Send a message.
    Send,
    /// Change the flags of a message.
    PatchMessage(int),
    /// List the drafts.
    Drafts,
    /// Make a draft.
    CreateDraft,
    /// Change a draft.
    UpdateDraft(int),
    /// Delete a draft.
    DeleteDraft(int),
    /// List the devices.
    Devices,
    /// Sign a device out.
    RevokeDevice(int),
    /// Delete a device.
    DeleteDevice(int),
    /// Upload a small file.
    Upload,
    /// Ask which chunks of an upload have arrived.
    UploadStatus(int),
    /// Sign out.
    Logout,
}

/// The request of a call, without its body.
pub open spec fn call_request(call: Call) -> RequestView {
    match call {
        Call::Account => plain_request(Method::Get, "/account"@),
        Call::Mailboxes => plain_request(Method::Get, "/mailboxes"@),
        Call::Message(id) => plain_request(Method::Get, path_with_id("/messages/"@, id)),
        Call::RawMessage(id) => plain_request(
            Method::Get,
            path_with_id("/messages/"@, id) + "/raw"@,
        ),
        Call::Send => plain_request(Method::Post, "/messages"@),
        Call::PatchMessage(id) => plain_request(Method::Patch, path_with_id("/messages/"@, id)),
        Call::Drafts => plain_request(Method::Get, "/drafts"@),
        Call::CreateDraft => plain_request(Method::Post, "/drafts"@),
        Call::UpdateDraft(id) => plain_request(Method::Patch, path_with_id("/drafts/"@, id)),
        Call::DeleteDraft(id) => plain_request(Method::Delete, path_with_id("/drafts/"@, id)),
        Call::Devices => plain_request(Method::Get, "/devices"@),
        Call::RevokeDevice(id) => plain_request(
            Method::Post,
            path_with_id("/devices/"@, id) + "/revoke"@,
        ),
        Call::DeleteDevice(id) => plain_request(Method::Delete, path_with_id("/devices/"@, id)),
        Call::Upload => plain_request(Method::Post, "/attachments"@),
        Call::UploadStatus(id) => plain_request(
            Method::Get,
            path_with_id("/attachments/"@, id) + "/status"@,
        ),
        Call::Logout => plain_request(Method::Post, "/auth/logout"@),
    }
}

/// Whether a call only reads.
pub open spec fn only_reads(call: Call) -> bool {
    match call {
        Call::Account | Call::Mailboxes | Call::Message(_) | Call::RawMessage(_) | Call::Drafts
        | Call::Devices | Call::UploadStatus(_) => true,
        _ => false,
    }
}

/// Whether a call deletes something.
pub open spec fn deletes(call: Call) -> bool {
    call is DeleteDraft || call is DeleteDevice
}

/// Each call goes by its own method: what only reads is a `GET`, what deletes is a `DELETE`, what
/// changes a thing is a `PATCH`, and the rest is a `POST`. Every call carries the token.
pub proof fn law_each_call_has_its_method(call: Call)
    ensures
        ({
            let request = call_request(call);
            &&& request.authenticated
            &&& request.query.len() == 0
            &&& request.method == Method::Get <==> only_reads(call)
            &&& request.method == Method::Delete <==> deletes(call)
            &&& request.method == Method::Patch <==> call is PatchMessage || call is UpdateDraft
            &&& request.method != Method::Put
        }),
{
}

/// Each call goes to its own place: what makes a thing to the place where such things are listed,
/// and what changes or deletes one to the place of that very one.
pub proof fn law_each_call_has_its_place(id: int)
    ensures
        call_request(Call::Account).path == "/account"@,
        call_request(Call::Mailboxes).path == "/mailboxes"@,
        call_request(Call::Send).path == "/messages"@,
        call_request(Call::Message(id)).path == "/messages/"@ + signed_digits(id),
        call_request(Call::PatchMessage(id)).path == call_request(Call::Message(id)).path,
        call_request(Call::RawMessage(id)).path == call_request(Call::Message(id)).path + "/raw"@,
        call_request(Call::Drafts).path == "/drafts"@,
        call_request(Call::CreateDraft).path == call_request(Call::Drafts).path,
        call_request(Call::UpdateDraft(id)).path == "/drafts/"@ + signed_digits(id),
        call_request(Call::DeleteDraft(id)).path == call_request(Call::UpdateDraft(id)).path,
        call_request(Call::Devices).path == "/devices"@,
        call_request(Call::DeleteDevice(id)).path == "/devices/"@ + signed_digits(id),
        call_request(Call::RevokeDevice(id)).path == call_request(Call::DeleteDevice(id)).path
            + "/revoke"@,
        call_request(Call::Upload).path == "/attachments"@,
        call_request(Call::UploadStatus(id)).path == "/attachments/"@ + signed_digits(id)
            + "/status"@,
        call_request(Call::Logout).path == "/auth/logout"@,
{
}

// -- what a request carries --------------------------------------------------

/// The value of a query parameter.
pub open spec fn param_of(query: Seq<(Seq<char>, Seq<char>)>, key: Seq<char>) -> Option<Seq<char>>
    decreases query.len(),
{
    if query.len() == 0 {
        None
    } else {
        match param_of(query.drop_last(), key) {
            Some(value) => Some(value),
            None => if query.last().0 == key {
                Some(query.last().1)
            } else {
                None
            },
        }
    }
}

impl RequestView {
    /// The value of a query parameter.
    pub open spec fn param(self, key: Seq<char>) -> Option<Seq<char>> {
        param_of(self.query, key)
    }

    /// The member of the JSON body called `key`.
    pub open spec fn field(self, key: Seq<char>) -> Option<JsonView> {
        match self.body {
            Some(body) => body.member(key),
            None => None,
        }
    }
}

proof fn lemma_query_added(request: RequestView, name: Seq<char>, value: Seq<char>)
    ensures
        forall|key: Seq<char>| #[trigger]
            request.with_query(name, value).param(key) == (match request.param(key) {
                Some(found) => Some(found),
                None => if name == key {
                    Some(value)
                } else {
                    None
                },
            }),
{
    let query = request.query.push((name, value));
    assert(query.drop_last() =~= request.query);
    assert forall|key: Seq<char>| #[trigger] request.with_query(name, value).param(key) == (
    match request.param(key) {
        Some(found) => Some(found),
        None => if name == key {
            Some(value)
        } else {
            None
        },
    }) by {
        assert(request.with_query(name, value).param(key) == param_of(query, key));
    }
}

proof fn lemma_number_added(request: RequestView, name: Seq<char>, value: Option<int>)
    ensures
        forall|key: Seq<char>| #[trigger]
            request.with_number_if(name, value).param(key) == (match request.param(key) {
                Some(found) => Some(found),
                None => if name == key {
                    shown_number(value)
                } else {
                    None
                },
            }),
{
    if let Some(n) = value {
        lemma_query_added(request, name, signed_digits(n));
    }
}

/// An optional number as it is written into a parameter.
pub open spec fn shown_number(value: Option<int>) -> Option<Seq<char>> {
    match value {
        Some(n) => Some(signed_digits(n)),
        None => None,
    }
}

/// The text member of an optional string.
pub open spec fn text_or_none(value: Option<String>) -> Option<JsonView> {
    match value {
        Some(text) => Some(JsonView::Text(text@)),
        None => None,
    }
}

/// The flag member of an optional boolean.
pub open spec fn flag_or_none(value: Option<bool>) -> Option<JsonView> {
    match value {
        Some(flag) => Some(JsonView::Bool(flag)),
        None => None,
    }
}

proof fn lemma_text_added(
    members: Seq<(Seq<char>, JsonView)>,
    name: Seq<char>,
    value: Option<String>,
)
    ensures
        forall|key: Seq<char>| #[trigger]
            member_of(members + text_member_if(name, value), key) == (match member_of(members, key) {
                Some(found) => Some(found),
                None => if name == key {
                    text_or_none(value)
                } else {
                    None
                },
            }),
{
    match value {
        Some(text) => {
            lemma_members_pushed(members, name, JsonView::Text(text@));
            assert(members + text_member_if(name, value) =~= members.push(
                (name, JsonView::Text(text@)),
            ));
        },
        None => {
            assert(members + text_member_if(name, value) =~= members);
        },
    }
}

proof fn lemma_flag_added(
    members: Seq<(Seq<char>, JsonView)>,
    name: Seq<char>,
    value: Option<bool>,
)
    ensures
        forall|key: Seq<char>| #[trigger]
            member_of(members + bool_member_if(name, value), key) == (match member_of(members, key) {
                Some(found) => Some(found),
                None => if name == key {
                    flag_or_none(value)
                } else {
                    None
                },
            }),
{
    match value {
        Some(flag) => {
            lemma_members_pushed(members, name, JsonView::Bool(flag));
            assert(members + bool_member_if(name, value) =~= members.push(
                (name, JsonView::Bool(flag)),
            ));
        },
        None => {
            assert(members + bool_member_if(name, value) =~= members);
        },
    }
}

/// Every field of a submission is found under its own name, so that the server reads the
/// message that was composed: each recipient in the list it was put in, each body as what it
/// is, and the key that makes a retry harmless.
pub proof fn law_a_submission_reads_back(request: SendRequest)
    ensures
        ({
            let body = send_view(request);
            &&& body.member("operation_id"@) == Some(JsonView::Text(request.operation_id@))
            &&& body.member("mailbox_id"@) == (match request.mailbox_id {
                Some(id) => Some(JsonView::Int(id as int)),
                None => None,
            })
            &&& body.member("from"@) == text_or_none(request.from)
            &&& body.member("to"@) == Some(texts_view(request.to@))
            &&& body.member("cc"@) == Some(texts_view(request.cc@))
            &&& body.member("bcc"@) == Some(texts_view(request.bcc@))
            &&& body.member("subject"@) == Some(JsonView::Text(request.subject@))
            &&& body.member("text"@) == text_or_none(request.text)
            &&& body.member("html"@) == text_or_none(request.html)
            &&& body.member("attachment_ids"@) == Some(ints_view(request.attachment_ids@))
            &&& body.member("in_reply_to"@) == text_or_none(request.in_reply_to)
            &&& body.member("references"@) == Some(texts_view(request.references@))
        }),
{
    lemma_field_names_differ();
    let none = Seq::<(Seq<char>, JsonView)>::empty();
    let key = ("operation_id"@, JsonView::Text(request.operation_id@));
    let a = seq![key];
    lemma_members_pushed(none, key.0, key.1);
    assert(a =~= none.push(key));
    let b = a + int_member_if("mailbox_id"@, request.mailbox_id);
    if let Some(id) = request.mailbox_id {
        lemma_members_pushed(a, "mailbox_id"@, JsonView::Int(id as int));
        assert(b =~= a.push(("mailbox_id"@, JsonView::Int(id as int))));
    } else {
        assert(b =~= a);
    }
    let c = b + text_member_if("from"@, request.from);
    lemma_text_added(b, "from"@, request.from);
    let to = ("to"@, texts_view(request.to@));
    let cc = ("cc"@, texts_view(request.cc@));
    let bcc = ("bcc"@, texts_view(request.bcc@));
    let subject = ("subject"@, JsonView::Text(request.subject@));
    lemma_members_pushed(c, to.0, to.1);
    lemma_members_pushed(c.push(to), cc.0, cc.1);
    lemma_members_pushed(c.push(to).push(cc), bcc.0, bcc.1);
    lemma_members_pushed(c.push(to).push(cc).push(bcc), subject.0, subject.1);
    let d = c + seq![to, cc, bcc, subject];
    assert(d =~= c.push(to).push(cc).push(bcc).push(subject));
    let e = d + text_member_if("text"@, request.text);
    lemma_text_added(d, "text"@, request.text);
    let f = e + text_member_if("html"@, request.html);
    lemma_text_added(e, "html"@, request.html);
    let ids = ("attachment_ids"@, ints_view(request.attachment_ids@));
    let g = f + seq![ids];
    lemma_members_pushed(f, ids.0, ids.1);
    assert(g =~= f.push(ids));
    let h = g + text_member_if("in_reply_to"@, request.in_reply_to);
    lemma_text_added(g, "in_reply_to"@, request.in_reply_to);
    let references = ("references"@, texts_view(request.references@));
    lemma_members_pushed(h, references.0, references.1);
    assert(h + seq![references] =~= h.push(references));
    assert(send_view(request)->Object_0 == h + seq![references]);
}

/// The names of the fields of a message are all different.
proof fn lemma_field_names_differ()
    ensures
        "operation_id"@ != "mailbox_id"@ && "operation_id"@ != "from"@ && "operation_id"@ != "to"@
            && "operation_id"@ != "cc"@ && "operation_id"@ != "bcc"@ && "operation_id"@
            != "subject"@ && "operation_id"@ != "text"@ && "operation_id"@ != "html"@
            && "operation_id"@ != "attachment_ids"@ && "operation_id"@ != "in_reply_to"@
            && "operation_id"@ != "references"@,
        "mailbox_id"@ != "from"@ && "mailbox_id"@ != "to"@ && "mailbox_id"@ != "cc"@ && "mailbox_id"@
            != "bcc"@ && "mailbox_id"@ != "subject"@ && "mailbox_id"@ != "text"@ && "mailbox_id"@
            != "html"@ && "mailbox_id"@ != "attachment_ids"@ && "mailbox_id"@ != "in_reply_to"@
            && "mailbox_id"@ != "references"@,
        "from"@ != "to"@ && "from"@ != "cc"@ && "from"@ != "bcc"@ && "from"@ != "subject"@ && "from"@
            != "text"@ && "from"@ != "html"@ && "from"@ != "attachment_ids"@ && "from"@
            != "in_reply_to"@ && "from"@ != "references"@,
        "to"@ != "cc"@ && "to"@ != "bcc"@ && "to"@ != "subject"@ && "to"@ != "text"@ && "to"@
            != "html"@ && "to"@ != "attachment_ids"@ && "to"@ != "in_reply_to"@ && "to"@
            != "references"@,
        "cc"@ != "bcc"@ && "cc"@ != "subject"@ && "cc"@ != "text"@ && "cc"@ != "html"@ && "cc"@
            != "attachment_ids"@ && "cc"@ != "in_reply_to"@ && "cc"@ != "references"@,
        "bcc"@ != "subject"@ && "bcc"@ != "text"@ && "bcc"@ != "html"@ && "bcc"@
            != "attachment_ids"@ && "bcc"@ != "in_reply_to"@ && "bcc"@ != "references"@,
        "subject"@ != "text"@ && "subject"@ != "html"@ && "subject"@ != "attachment_ids"@
            && "subject"@ != "in_reply_to"@ && "subject"@ != "references"@,
        "text"@ != "html"@ && "text"@ != "attachment_ids"@ && "text"@ != "in_reply_to"@ && "text"@
            != "references"@,
        "html"@ != "attachment_ids"@ && "html"@ != "in_reply_to"@ && "html"@ != "references"@,
        "attachment_ids"@ != "in_reply_to"@ && "attachment_ids"@ != "references"@,
        "in_reply_to"@ != "references"@,
{
    reveal_strlit("operation_id");
    reveal_strlit("mailbox_id");
    reveal_strlit("from");
    reveal_strlit("to");
    reveal_strlit("cc");
    reveal_strlit("bcc");
    reveal_strlit("subject");
    reveal_strlit("text");
    reveal_strlit("html");
    reveal_strlit("attachment_ids");
    reveal_strlit("in_reply_to");
    reveal_strlit("references");
    assert("operation_id"@.len() == 12 && "mailbox_id"@.len() == 10 && "from"@.len() == 4);
    assert("to"@.len() == 2 && "cc"@.len() == 2 && "bcc"@.len() == 3 && "subject"@.len() == 7);
    assert("text"@.len() == 4 && "html"@.len() == 4 && "attachment_ids"@.len() == 14);
    assert("in_reply_to"@.len() == 11 && "references"@.len() == 10);
    assert("from"@[0] == 'f' && "text"@[0] == 't' && "html"@[0] == 'h');
    assert("to"@[0] == 't' && "cc"@[0] == 'c');
    assert("mailbox_id"@[0] == 'm' && "references"@[0] == 'r');
}

/// Every field of a draft is found under its own name, so that the server keeps the draft that
/// was written.
pub proof fn law_a_draft_reads_back(draft: DraftPayload)
    ensures
        ({
            let body = draft_view(draft);
            &&& body.member("subject"@) == Some(JsonView::Text(draft.subject@))
            &&& body.member("text"@) == text_or_none(draft.text)
            &&& body.member("html"@) == text_or_none(draft.html)
            &&& body.member("to"@) == Some(texts_view(draft.to@))
            &&& body.member("cc"@) == Some(texts_view(draft.cc@))
            &&& body.member("bcc"@) == Some(texts_view(draft.bcc@))
            &&& body.member("in_reply_to"@) == text_or_none(draft.in_reply_to)
            &&& body.member("references"@) == Some(texts_view(draft.references@))
            &&& body.member("attachment_ids"@) == Some(ints_view(draft.attachment_ids@))
        }),
{
    lemma_field_names_differ();
    let none = Seq::<(Seq<char>, JsonView)>::empty();
    let subject = ("subject"@, JsonView::Text(draft.subject@));
    let a = seq![subject];
    lemma_members_pushed(none, subject.0, subject.1);
    assert(a =~= none.push(subject));
    let b = a + text_member_if("text"@, draft.text);
    lemma_text_added(a, "text"@, draft.text);
    let c = b + text_member_if("html"@, draft.html);
    lemma_text_added(b, "html"@, draft.html);
    let to = ("to"@, texts_view(draft.to@));
    let cc = ("cc"@, texts_view(draft.cc@));
    let bcc = ("bcc"@, texts_view(draft.bcc@));
    lemma_members_pushed(c, to.0, to.1);
    lemma_members_pushed(c.push(to), cc.0, cc.1);
    lemma_members_pushed(c.push(to).push(cc), bcc.0, bcc.1);
    let d = c + seq![to, cc, bcc];
    assert(d =~= c.push(to).push(cc).push(bcc));
    let e = d + text_member_if("in_reply_to"@, draft.in_reply_to);
    lemma_text_added(d, "in_reply_to"@, draft.in_reply_to);
    let references = ("references"@, texts_view(draft.references@));
    let ids = ("attachment_ids"@, ints_view(draft.attachment_ids@));
    lemma_members_pushed(e, references.0, references.1);
    lemma_members_pushed(e.push(references), ids.0, ids.1);
    assert(e + seq![references, ids] =~= e.push(references).push(ids));
    assert(draft_view(draft)->Object_0 == e + seq![references, ids]);
}

/// A flag change sets the flags that it names, each to its own value, and says nothing of the
/// others.
pub proof fn law_a_patch_sets_its_own_flags(patch: MessagePatch)
    ensures
        patch_view(patch).member("seen"@) == flag_or_none(patch.seen),
        patch_view(patch).member("flagged"@) == flag_or_none(patch.flagged),
        patch_view(patch).member("answered"@) == flag_or_none(patch.answered),
        patch_view(patch).member("deleted"@) == flag_or_none(patch.deleted),
{
    reveal_strlit("seen");
    reveal_strlit("flagged");
    reveal_strlit("answered");
    reveal_strlit("deleted");
    assert("seen"@.len() == 4 && "flagged"@.len() == 7 && "answered"@.len() == 8);
    assert("deleted"@.len() == 7 && "flagged"@[0] == 'f' && "deleted"@[0] == 'd');
    let none = Seq::<(Seq<char>, JsonView)>::empty();
    let a = bool_member_if("seen"@, patch.seen);
    lemma_flag_added(none, "seen"@, patch.seen);
    assert(none + a =~= a);
    let b = a + bool_member_if("flagged"@, patch.flagged);
    lemma_flag_added(a, "flagged"@, patch.flagged);
    let c = b + bool_member_if("answered"@, patch.answered);
    lemma_flag_added(b, "answered"@, patch.answered);
    lemma_flag_added(c, "deleted"@, patch.deleted);
    assert(patch_view(patch)->Object_0 == c + bool_member_if("deleted"@, patch.deleted));
}

/// A sign-in names the address, the password and the device, each as what it is, and carries no
/// token; a refresh names the token that it spends and the same device, and carries none either.
pub proof fn law_a_sign_in_names_its_parts(
    email: Seq<char>,
    password: Seq<char>,
    device: DeviceInfo,
    token: Seq<char>,
    uid: Seq<char>,
)
    ensures
        login_request(email, password, device).field("email"@) == Some(JsonView::Text(email)),
        login_request(email, password, device).field("password"@) == Some(JsonView::Text(password)),
        login_request(email, password, device).field("device"@) == Some(device_view(device)),
        !login_request(email, password, device).authenticated,
        device_view(device).member("device_uid"@) == Some(JsonView::Text(device.device_uid@)),
        device_view(device).member("name"@) == Some(JsonView::Text(device.name@)),
        device_view(device).member("platform"@) == Some(JsonView::Text(device.platform@)),
        device_view(device).member("client_version"@) == Some(
            JsonView::Text(device.client_version@),
        ),
        refresh_request(token, uid).field("refresh_token"@) == Some(JsonView::Text(token)),
        refresh_request(token, uid).field("device_uid"@) == Some(JsonView::Text(uid)),
        !refresh_request(token, uid).authenticated,
{
    reveal_strlit("email");
    reveal_strlit("password");
    reveal_strlit("device");
    reveal_strlit("device_uid");
    reveal_strlit("name");
    reveal_strlit("platform");
    reveal_strlit("client_version");
    reveal_strlit("refresh_token");
    assert("email"@.len() == 5 && "password"@.len() == 8 && "device"@.len() == 6);
    assert("device_uid"@.len() == 10 && "name"@.len() == 4 && "platform"@.len() == 8);
    assert("client_version"@.len() == 14 && "refresh_token"@.len() == 13);
    let none = Seq::<(Seq<char>, JsonView)>::empty();
    let a = ("email"@, JsonView::Text(email));
    let b = ("password"@, JsonView::Text(password));
    let c = ("device"@, device_view(device));
    lemma_members_pushed(none, a.0, a.1);
    lemma_members_pushed(none.push(a), b.0, b.1);
    lemma_members_pushed(none.push(a).push(b), c.0, c.1);
    assert(seq![a, b, c] =~= none.push(a).push(b).push(c));
    assert(login_request(email, password, device).body->0->Object_0 == seq![a, b, c]);
    let d = ("device_uid"@, JsonView::Text(device.device_uid@));
    let e = ("name"@, JsonView::Text(device.name@));
    let f = ("platform"@, JsonView::Text(device.platform@));
    let g = ("client_version"@, JsonView::Text(device.client_version@));
    lemma_members_pushed(none, d.0, d.1);
    lemma_members_pushed(none.push(d), e.0, e.1);
    lemma_members_pushed(none.push(d).push(e), f.0, f.1);
    lemma_members_pushed(none.push(d).push(e).push(f), g.0, g.1);
    assert(seq![d, e, f, g] =~= none.push(d).push(e).push(f).push(g));
    assert(device_view(device)->Object_0 == seq![d, e, f, g]);
    let h = ("refresh_token"@, JsonView::Text(token));
    let i = ("device_uid"@, JsonView::Text(uid));
    lemma_members_pushed(none, h.0, h.1);
    lemma_members_pushed(none.push(h), i.0, i.1);
    assert(seq![h, i] =~= none.push(h).push(i));
    assert(refresh_request(token, uid).body->0->Object_0 == seq![h, i]);
}

/// What a listing asks for is asked for under its own name: the mailbox, the folder, the cursor
/// as it was given, and how much; what is not asked for is not mentioned.
pub proof fn law_a_listing_names_what_it_asks_for(
    mailbox: int,
    folder: Option<int>,
    cursor: Seq<char>,
    limit: Option<int>,
    offset: Option<int>,
)
    ensures
        ({
            let sync = sync_request(mailbox, folder, cursor, limit);
            &&& sync.param("mailbox_id"@) == Some(signed_digits(mailbox))
            &&& sync.param("cursor"@) == Some(cursor)
            &&& sync.param("folder_id"@) == shown_number(folder)
            &&& sync.param("limit"@) == shown_number(limit)
        }),
        ({
            let list = messages_request(mailbox, folder, limit, offset);
            &&& list.param("mailbox_id"@) == Some(signed_digits(mailbox))
            &&& list.param("folder_id"@) == shown_number(folder)
            &&& list.param("limit"@) == shown_number(limit)
            &&& list.param("offset"@) == shown_number(offset)
        }),
{
    lemma_parameter_names_differ();
    let a = plain_request(Method::Get, "/sync"@);
    let b = a.with_query("mailbox_id"@, signed_digits(mailbox));
    let c = b.with_query("cursor"@, cursor);
    let d = c.with_number_if("folder_id"@, folder);
    lemma_query_added(a, "mailbox_id"@, signed_digits(mailbox));
    lemma_query_added(b, "cursor"@, cursor);
    lemma_number_added(c, "folder_id"@, folder);
    lemma_number_added(d, "limit"@, limit);
    let e = plain_request(Method::Get, "/messages"@);
    let f = e.with_query("mailbox_id"@, signed_digits(mailbox));
    let g = f.with_number_if("folder_id"@, folder);
    let h = g.with_number_if("limit"@, limit);
    lemma_query_added(e, "mailbox_id"@, signed_digits(mailbox));
    lemma_number_added(f, "folder_id"@, folder);
    lemma_number_added(g, "limit"@, limit);
    lemma_number_added(h, "offset"@, offset);
}

/// The search on the server gets the text that was searched for, and the mailbox, the folder
/// and the limit under their own names.
pub proof fn law_a_server_search_names_what_it_asks_for(
    query: Seq<char>,
    mailbox: Option<int>,
    folder: Option<int>,
    limit: Option<int>,
)
    ensures
        ({
            let search = search_request(query, mailbox, folder, limit);
            &&& search.param("q"@) == Some(query)
            &&& search.param("mailbox_id"@) == shown_number(mailbox)
            &&& search.param("folder_id"@) == shown_number(folder)
            &&& search.param("limit"@) == shown_number(limit)
        }),
{
    lemma_parameter_names_differ();
    let a = plain_request(Method::Get, "/search"@);
    let b = a.with_query("q"@, query);
    let c = b.with_number_if("mailbox_id"@, mailbox);
    let d = c.with_number_if("folder_id"@, folder);
    lemma_query_added(a, "q"@, query);
    lemma_number_added(b, "mailbox_id"@, mailbox);
    lemma_number_added(c, "folder_id"@, folder);
    lemma_number_added(d, "limit"@, limit);
}

proof fn lemma_parameter_names_differ()
    ensures
        "q"@ != "mailbox_id"@ && "q"@ != "folder_id"@ && "q"@ != "limit"@,
        "mailbox_id"@ != "folder_id"@ && "mailbox_id"@ != "limit"@ && "mailbox_id"@ != "cursor"@
            && "mailbox_id"@ != "offset"@,
        "folder_id"@ != "limit"@ && "folder_id"@ != "cursor"@ && "folder_id"@ != "offset"@,
        "limit"@ != "cursor"@ && "limit"@ != "offset"@,
{
    reveal_strlit("q");
    reveal_strlit("mailbox_id");
    reveal_strlit("folder_id");
    reveal_strlit("limit");
    reveal_strlit("cursor");
    reveal_strlit("offset");
    assert("q"@.len() == 1 && "mailbox_id"@.len() == 10 && "folder_id"@.len() == 9);
    assert("limit"@.len() == 5 && "cursor"@.len() == 6 && "offset"@.len() == 6);
}

/// An upload announces the file it sends: its name, its type and its size, each under its own
/// name; a chunk carries its bytes and its index, to the upload it belongs to; and the digest of
/// the whole closes it. All of it goes to one attachment.
pub proof fn law_an_upload_names_its_parts(
    filename: Seq<char>,
    content_type: Seq<char>,
    size: int,
    attachment: int,
    index: nat,
    bytes: Seq<u8>,
    sha256: Seq<char>,
)
    ensures
        ({
            let start = init_request(filename, content_type, size);
            &&& start.field("filename"@) == Some(JsonView::Text(filename))
            &&& start.field("content_type"@) == Some(JsonView::Text(content_type))
            &&& start.field("size_bytes"@) == Some(JsonView::Int(size))
        }),
        ({
            let chunk = chunk_request(attachment, index, bytes);
            let close = complete_request(attachment, sha256);
            let place = "/attachments/"@ + signed_digits(attachment);
            &&& chunk.method == Method::Put && chunk.path == place + "/chunk"@
            &&& chunk.param("index"@) == Some(digits(index))
            &&& chunk.raw matches Some((sent, _)) && sent == bytes
            &&& close.method == Method::Post && close.path == place + "/complete"@
            &&& close.field("sha256"@) == Some(JsonView::Text(sha256))
        }),
{
    reveal_strlit("filename");
    reveal_strlit("content_type");
    reveal_strlit("size_bytes");
    assert("filename"@.len() == 8 && "content_type"@.len() == 12 && "size_bytes"@.len() == 10);
    let none = Seq::<(Seq<char>, JsonView)>::empty();
    let a = ("filename"@, JsonView::Text(filename));
    let b = ("content_type"@, JsonView::Text(content_type));
    let c = ("size_bytes"@, JsonView::Int(size));
    lemma_members_pushed(none, a.0, a.1);
    lemma_members_pushed(none.push(a), b.0, b.1);
    lemma_members_pushed(none.push(a).push(b), c.0, c.1);
    assert(seq![a, b, c] =~= none.push(a).push(b).push(c));
    assert(init_request(filename, content_type, size).body->0->Object_0 == seq![a, b, c]);
    let d = ("sha256"@, JsonView::Text(sha256));
    lemma_members_pushed(none, d.0, d.1);
    assert(seq![d] =~= none.push(d));
    assert(complete_request(attachment, sha256).body->0->Object_0 == seq![d]);
    let place = plain_request(Method::Put, path_with_id("/attachments/"@, attachment) + "/chunk"@);
    lemma_query_added(place, "index"@, digits(index));
    let chunk = chunk_request(attachment, index, bytes);
    assert(chunk.query == place.with_query("index"@, digits(index)).query);
    assert(place.with_query("index"@, digits(index)).param("index"@) == Some(digits(index)));
    assert(chunk.param("index"@) == Some(digits(index)));
    assert(complete_request(attachment, sha256).field("sha256"@) == member_of(seq![d], "sha256"@));
}

// -- the client ------------------------------------------------------------

/// An access token held in memory.
#[derive(Debug, Clone, PartialEq, Eq)]
pub struct AccessToken {
    /// The bearer token.
    pub value: String,
    /// When it runs out, in nanoseconds since the Unix epoch.
    pub expires_at: i128,
}

/// The Ferroma Client Protocol client, without its transport.
#[derive(Debug, Clone)]
pub struct FcpClient {
    base: String,
    device_uid: String,
    retry: RetryPolicy,
    access: Option<AccessToken>,
}

/// Head room kept before an access token is considered stale, in nanoseconds.
pub const EXPIRY_SKEW: i128 = 30_000_000_000;

/// What has to happen before a request can be sent.
#[derive(Debug, Clone, Copy, PartialEq, Eq, Structural)]
pub enum Preparation {
    /// Nothing.
    Ready,
    /// The access token has to be refreshed first.
    Refresh,
}

impl FcpClient {
    /// The base URL, without a trailing `/`.
    pub closed spec fn base(&self) -> Seq<char> {
        self.base@
    }

    /// The installation uid.
    pub closed spec fn uid(&self) -> Seq<char> {
        self.device_uid@
    }

    /// The retry policy.
    pub closed spec fn policy(&self) -> RetryPolicy {
        self.retry
    }

    /// The access token held in memory: its text and when it runs out.
    pub closed spec fn token(&self) -> Option<(Seq<char>, int)> {
        match self.access {
            Some(token) => Some((token.value@, token.expires_at as int)),
            None => None,
        }
    }

    /// Whether only the token differs between two clients.
    pub open spec fn same_but_token(&self, other: &FcpClient) -> bool {
        self.base() == other.base() && self.uid() == other.uid() && self.policy() == other.policy()
    }

    /// Build a client for `base_url`. Trailing slashes are stripped so paths can be
    /// appended directly.
    pub fn new(base_url: &str) -> (result: FcpClient)
        ensures
            result.base() == without_trailing(base_url@, '/'),
            result.uid() == Seq::<char>::empty(),
            result.policy() == (RetryPolicy {
                max_attempts: 4,
                base_delay: Delay { millis: 250 },
                max_delay: Delay { millis: 20_000 },
                max_retry_after: Delay { millis: 60_000 },
            }),
            result.token() is None,
    {
        FcpClient::with_retry(base_url, RetryPolicy::default())
    }

    /// Build a client with an explicit retry policy.
    pub fn with_retry(base_url: &str, retry: RetryPolicy) -> (result: FcpClient)
        ensures
            result.base() == without_trailing(base_url@, '/'),
            result.uid() == Seq::<char>::empty(),
            result.policy() == retry,
            result.token() is None,
    {
        FcpClient {
            base: trim_trailing(base_url, '/'),
            device_uid: String::new(),
            retry,
            access: None,
        }
    }

    /// The base URL this client talks to.
    pub fn base_url(&self) -> (result: &str)
        ensures
            result@ == self.base(),
    {
        self.base.as_str()
    }

    /// The retry policy in force.
    pub fn retry_policy(&self) -> (result: RetryPolicy)
        ensures
            result == self.policy(),
    {
        self.retry
    }

    /// Record the installation's device uid, sent with `refresh`.
    pub fn set_device_uid(&mut self, device_uid: &str)
        ensures
            final(self).uid() == device_uid@,
            final(self).base() == old(self).base(),
            final(self).policy() == old(self).policy(),
            final(self).token() == old(self).token(),
    {
        self.device_uid = device_uid.to_owned();
    }

    /// The installation uid this client presents.
    pub fn device_uid(&self) -> (result: String)
        ensures
            result@ == self.uid(),
    {
        self.device_uid.clone()
    }

    /// Install an access token that runs out at `expires_at`.
    pub fn set_access_token(&mut self, token: &str, expires_at: i128)
        ensures
            final(self).token() == Some((token@, expires_at as int)),
            final(self).same_but_token(old(self)),
    {
        self.access = Some(AccessToken { value: token.to_owned(), expires_at });
    }

    /// The access token currently held in memory, if any.
    pub fn access_token(&self) -> (result: Option<String>)
        ensures
            match result {
                Some(value) => self.token() matches Some(t) && t.0 == value@,
                None => self.token() is None,
            },
    {
        match &self.access {
            Some(token) => Some(token.value.clone()),
            None => None,
        }
    }

    /// Forget the in-memory token.
    pub fn clear_tokens(&mut self)
        ensures
            final(self).token() is None,
            final(self).same_but_token(old(self)),
    {
        self.access = None;
    }

    /// Whether the token in memory is good for a while yet at `now`.
    pub open spec fn usable(&self, now: int) -> bool {
        match self.token() {
            Some(token) => token.1 - EXPIRY_SKEW > now,
            None => false,
        }
    }

    /// Make sure an access token is available for `spec` at `now`.
    ///
    /// An anonymous request needs none, and a token with enough head room will do.
    /// Otherwise the token in memory is dropped; with a stored refresh token a new
    /// one is asked for, and without one the user is not signed in.
    pub fn prepare_auth(
        &mut self,
        spec: &RequestSpec,
        now: i128,
        has_refresh_token: bool,
    ) -> (result: ClientResult<Preparation>)
        ensures
            final(self).same_but_token(old(self)),
            if !spec.authenticated || old(self).usable(now as int) {
                result == ClientResult::Ok(Preparation::Ready) && final(self).token() == old(
                    self,
                ).token()
            } else {
                &&& final(self).token() is None
                &&& has_refresh_token ==> result == ClientResult::Ok(Preparation::Refresh)
                &&& !has_refresh_token ==> result == ClientResult::<Preparation>::Err(
                    ClientError::NotAuthenticated,
                )
            },
    {
        if !spec.authenticated {
            return Ok(Preparation::Ready);
        }
        let usable = match &self.access {
            Some(token) => if token.expires_at <= now {
                false
            } else {
                match token.expires_at.checked_sub(now) {
                    Some(left) => left > EXPIRY_SKEW,
                    None => true,
                }
            },
            None => false,
        };
        if usable {
            return Ok(Preparation::Ready);
        }
        self.access = None;
        if has_refresh_token {
            return Ok(Preparation::Refresh);
        }
        Err(ClientError::NotAuthenticated)
    }

    /// The bearer token that goes with a request.
    pub fn bearer(&self, spec: &RequestSpec) -> (result: Option<String>)
        ensures
            match result {
                Some(value) => spec.authenticated && (self.token() matches Some(t) && t.0 == value@),
                None => !spec.authenticated || self.token() is None,
            },
    {
        if spec.authenticated {
            self.access_token()
        } else {
            None
        }
    }

    /// The URL of a path below the base.
    pub fn url(&self, path: &str) -> (result: String)
        ensures
            result@ == self.base() + path@,
    {
        let mut out = self.base.clone();
        out.append(path);
        out
    }

    /// The standard base64 form of some bytes.
    pub fn encode_base64(bytes: &[u8]) -> (result: String)
        ensures
            result@ == base64_text(bytes@),
            result@.len() == (bytes@.len() + 2) / 3 * 4,
            forall|i: int| 0 <= i < result@.len() ==> is_base64_char(#[trigger] result@[i]),
    {
        crate::api::base64_encode(bytes)
    }

    // -- authentication ----------------------------------------------------

    /// `POST /auth/login`, without a token.
    pub fn login(&self, email: &str, password: &str, device: &DeviceInfo) -> (result: RequestSpec)
        ensures
            result@ == login_request(email@, password@, *device),
    {
        let mut members = Members::new();
        members.put_text("email", email);
        members.put_text("password", password);
        members.put("device", device_json(device));
        proof {
            assert(members@ =~= seq![
                ("email"@, JsonView::Text(email@)),
                ("password"@, JsonView::Text(password@)),
                ("device"@, device_view(*device)),
            ]);
        }
        RequestSpec::new(Method::Post, "/auth/login").json(members.finish()).anonymous()
    }

    /// `POST /auth/refresh`, without a token. With nothing to refresh from, the
    /// session is over.
    pub fn refresh(&self, refresh_token: Option<String>) -> (result: ClientResult<RequestSpec>)
        ensures
            match refresh_token {
                Some(token) => result is Ok && result->Ok_0@ == refresh_request(
                    token@,
                    self.uid(),
                ),
                None => result == ClientResult::<RequestSpec>::Err(ClientError::SessionExpired),
            },
    {
        match refresh_token {
            Some(token) => {
                let mut members = Members::new();
                members.put_text("refresh_token", token.as_str());
                members.put_text("device_uid", self.device_uid.as_str());
                proof {
                    assert(members@ =~= seq![
                        ("refresh_token"@, JsonView::Text(token@)),
                        ("device_uid"@, JsonView::Text(self.uid())),
                    ]);
                }
                Ok(RequestSpec::new(Method::Post, "/auth/refresh").json(members.finish()).anonymous())
            },
            None => Err(ClientError::SessionExpired),
        }
    }

    /// `POST /auth/logout`, naming the refresh token when there is one.
    pub fn logout(&self, refresh_token: Option<String>) -> (result: RequestSpec)
        ensures
            result@ == call_request(Call::Logout).with_body(
                JsonView::Object(text_member_if("refresh_token"@, refresh_token)),
            ),
    {
        let mut members = Members::new();
        members.put_text_if("refresh_token", &refresh_token);
        proof {
            assert(members@ =~= text_member_if("refresh_token"@, refresh_token));
        }
        RequestSpec::new(Method::Post, "/auth/logout").json(members.finish())
    }

    // -- account and mailboxes ---------------------------------------------

    /// `GET /account`.
    pub fn account(&self) -> (result: RequestSpec)
        ensures
            result@ == call_request(Call::Account),
    {
        RequestSpec::new(Method::Get, "/account")
    }

    /// `GET /mailboxes`.
    pub fn mailboxes(&self) -> (result: RequestSpec)
        ensures
            result@ == call_request(Call::Mailboxes),
    {
        RequestSpec::new(Method::Get, "/mailboxes")
    }

    // -- sync --------------------------------------------------------------

    /// `GET /sync`. The cursor is opaque: it is only ever echoed back.
    pub fn sync(
        &self,
        mailbox_id: i64,
        folder_id: Option<i64>,
        cursor: &str,
        limit: Option<usize>,
    ) -> (result: RequestSpec)
        ensures
            result@ == sync_request(
                mailbox_id as int,
                opt_id(folder_id),
                cursor@,
                opt_size(limit),
            ),
    {
        RequestSpec::new(Method::Get, "/sync").query(
            "mailbox_id",
            decimal_signed(mailbox_id).as_str(),
        ).query("cursor", cursor).query_id_if("folder_id", folder_id).query_size_if("limit", limit)
    }

    // -- messages ----------------------------------------------------------

    /// `GET /messages`.
    pub fn messages(
        &self,
        mailbox_id: i64,
        folder_id: Option<i64>,
        limit: Option<usize>,
        offset: Option<usize>,
    ) -> (result: RequestSpec)
        ensures
            result@ == messages_request(
                mailbox_id as int,
                opt_id(folder_id),
                opt_size(limit),
                opt_size(offset),
            ),
    {
        RequestSpec::new(Method::Get, "/messages").query(
            "mailbox_id",
            decimal_signed(mailbox_id).as_str(),
        ).query_id_if("folder_id", folder_id).query_size_if("limit", limit).query_size_if(
            "offset",
            offset,
        )
    }

    /// `GET /messages/:id`.
    pub fn message(&self, message_id: i64) -> (result: RequestSpec)
        ensures
            result@ == call_request(Call::Message(message_id as int)),
    {
        RequestSpec::new(Method::Get, just_id("/messages/", message_id).as_str())
    }

    /// `GET /messages/:id/raw`: the RFC 5322 bytes.
    pub fn raw_message(&self, message_id: i64) -> (result: RequestSpec)
        ensures
            result@ == call_request(Call::RawMessage(message_id as int)),
    {
        RequestSpec::new(Method::Get, with_id("/messages/", message_id, "/raw").as_str())
    }

    /// `POST /messages`: send. The `operation_id` inside the body is the
    /// idempotency key, so a retry never double-sends.
    pub fn send(&self, request: &SendRequest) -> (result: RequestSpec)
        ensures
            result@ == call_request(Call::Send).with_body(send_view(*request)),
    {
        RequestSpec::new(Method::Post, "/messages").json(send_json(request))
    }

    /// `PATCH /messages/:id`.
    pub fn patch_message(&self, message_id: i64, patch: &MessagePatch) -> (result: RequestSpec)
        ensures
            result@ == call_request(Call::PatchMessage(message_id as int)).with_body(
                patch_view(*patch),
            ),
    {
        RequestSpec::new(Method::Patch, just_id("/messages/", message_id).as_str()).json(
            patch_json(patch),
        )
    }

    /// `DELETE /messages/:id`.
    pub fn delete_message(&self, message_id: i64, permanent: bool) -> (result: RequestSpec)
        ensures
            result@ == ({
                let plain = plain_request(
                    Method::Delete,
                    path_with_id("/messages/"@, message_id as int),
                );
                if permanent {
                    plain.with_query("permanent"@, "true"@)
                } else {
                    plain
                }
            }),
    {
        let spec = RequestSpec::new(Method::Delete, just_id("/messages/", message_id).as_str());
        if permanent {
            spec.query("permanent", "true")
        } else {
            spec
        }
    }

    /// `POST /messages/:id/{read,unread,star,archive,trash}`.
    pub fn message_action(
        &self,
        message_id: i64,
        action: MessageAction,
        operation_id: &str,
    ) -> (result: RequestSpec)
        ensures
            result@ == plain_request(
                Method::Post,
                path_with_id("/messages/"@, message_id as int) + "/"@ + action.segment(),
            ).with_body(
                JsonView::Object(seq![("operation_id"@, JsonView::Text(operation_id@))]),
            ),
    {
        let mut path = with_id("/messages/", message_id, "/");
        path.append(action.path_segment());
        let mut members = Members::new();
        members.put_text("operation_id", operation_id);
        proof {
            assert(members@ =~= seq![("operation_id"@, JsonView::Text(operation_id@))]);
        }
        RequestSpec::new(Method::Post, path.as_str()).json(members.finish())
    }

    /// `POST /messages/:id/move`.
    pub fn move_message(&self, message_id: i64, folder_id: i64, operation_id: &str) -> (result:
        RequestSpec)
        ensures
            result@ == plain_request(
                Method::Post,
                path_with_id("/messages/"@, message_id as int) + "/move"@,
            ).with_body(
                JsonView::Object(
                    seq![
                        ("folder_id"@, JsonView::Int(folder_id as int)),
                        ("operation_id"@, JsonView::Text(operation_id@)),
                    ],
                ),
            ),
    {
        let mut members = Members::new();
        members.put_int("folder_id", folder_id);
        members.put_text("operation_id", operation_id);
        proof {
            assert(members@ =~= seq![
                ("folder_id"@, JsonView::Int(folder_id as int)),
                ("operation_id"@, JsonView::Text(operation_id@)),
            ]);
        }
        RequestSpec::new(Method::Post, with_id("/messages/", message_id, "/move").as_str()).json(
            members.finish(),
        )
    }

    // -- drafts ------------------------------------------------------------

    /// `POST /drafts`.
    pub fn create_draft(&self, draft: &DraftPayload) -> (result: RequestSpec)
        ensures
            result@ == call_request(Call::CreateDraft).with_body(draft_view(*draft)),
    {
        RequestSpec::new(Method::Post, "/drafts").json(draft_json(draft))
    }

    /// `GET /drafts`.
    pub fn list_drafts(&self) -> (result: RequestSpec)
        ensures
            result@ == call_request(Call::Drafts),
    {
        RequestSpec::new(Method::Get, "/drafts")
    }

    /// `PATCH /drafts/:id`.
    pub fn update_draft(&self, draft_id: i64, draft: &DraftPayload) -> (result: RequestSpec)
        ensures
            result@ == call_request(Call::UpdateDraft(draft_id as int)).with_body(
                draft_view(*draft),
            ),
    {
        RequestSpec::new(Method::Patch, just_id("/drafts/", draft_id).as_str()).json(
            draft_json(draft),
        )
    }

    /// `DELETE /drafts/:id`.
    pub fn delete_draft(&self, draft_id: i64) -> (result: RequestSpec)
        ensures
            result@ == call_request(Call::DeleteDraft(draft_id as int)),
    {
        RequestSpec::new(Method::Delete, just_id("/drafts/", draft_id).as_str())
    }

    // -- devices -----------------------------------------------------------

    /// `GET /devices`.
    pub fn devices(&self) -> (result: RequestSpec)
        ensures
            result@ == call_request(Call::Devices),
    {
        RequestSpec::new(Method::Get, "/devices")
    }

    /// `POST /devices/:id/revoke`.
    pub fn revoke_device(&self, device_id: i64) -> (result: RequestSpec)
        ensures
            result@ == call_request(Call::RevokeDevice(device_id as int)),
    {
        RequestSpec::new(Method::Post, with_id("/devices/", device_id, "/revoke").as_str())
    }

    /// `DELETE /devices/:id`.
    pub fn delete_device(&self, device_id: i64) -> (result: RequestSpec)
        ensures
            result@ == call_request(Call::DeleteDevice(device_id as int)),
    {
        RequestSpec::new(Method::Delete, just_id("/devices/", device_id).as_str())
    }

    // -- search ------------------------------------------------------------

    /// `GET /search`: the server-side fallback.
    pub fn search(
        &self,
        query: &str,
        mailbox_id: Option<i64>,
        folder_id: Option<i64>,
        limit: Option<usize>,
    ) -> (result: RequestSpec)
        ensures
            result@ == search_request(
                query@,
                opt_id(mailbox_id),
                opt_id(folder_id),
                opt_size(limit),
            ),
    {
        RequestSpec::new(Method::Get, "/search").query("q", query).query_id_if(
            "mailbox_id",
            mailbox_id,
        ).query_id_if("folder_id", folder_id).query_size_if("limit", limit)
    }

    // -- attachments -------------------------------------------------------

    /// `POST /attachments`: where a one-shot multipart upload goes.
    pub fn upload_attachment(&self) -> (result: RequestSpec)
        ensures
            result@ == call_request(Call::Upload),
    {
        RequestSpec::new(Method::Post, "/attachments")
    }

    /// `POST /attachments/init`: start a resumable chunked upload.
    pub fn init_upload(&self, filename: &str, content_type: &str, size_bytes: u64) -> (result:
        RequestSpec)
        ensures
            result@ == init_request(filename@, content_type@, size_bytes as int),
    {
        let mut members = Members::new();
        members.put_text("filename", filename);
        members.put_text("content_type", content_type);
        members.put("size_bytes", Json::Int(size_bytes as i128));
        proof {
            assert(members@ =~= seq![
                ("filename"@, JsonView::Text(filename@)),
                ("content_type"@, JsonView::Text(content_type@)),
                ("size_bytes"@, JsonView::Int(size_bytes as int)),
            ]);
        }
        RequestSpec::new(Method::Post, "/attachments/init").json(members.finish())
    }

    /// `GET /attachments/:id/status`: which chunks the server already holds.
    pub fn upload_status(&self, attachment_id: i64) -> (result: RequestSpec)
        ensures
            result@ == call_request(Call::UploadStatus(attachment_id as int)),
    {
        RequestSpec::new(Method::Get, with_id("/attachments/", attachment_id, "/status").as_str())
    }

    /// `PUT /attachments/:id/chunk?index=N`.
    pub fn upload_chunk(&self, attachment_id: i64, index: u64, bytes: Vec<u8>) -> (result:
        RequestSpec)
        ensures
            result@ == chunk_request(attachment_id as int, index as nat, bytes@),
    {
        RequestSpec::new(
            Method::Put,
            with_id("/attachments/", attachment_id, "/chunk").as_str(),
        ).query("index", decimal(index).as_str()).raw(bytes, "application/octet-stream")
    }

    /// `POST /attachments/:id/complete`: the server verifies the digest.
    pub fn complete_upload(&self, attachment_id: i64, sha256: &str) -> (result: RequestSpec)
        ensures
            result@ == complete_request(attachment_id as int, sha256@),
    {
        let mut members = Members::new();
        members.put_text("sha256", sha256);
        proof {
            assert(members@ =~= seq![("sha256"@, JsonView::Text(sha256@))]);
        }
        RequestSpec::new(
            Method::Post,
            with_id("/attachments/", attachment_id, "/complete").as_str(),
        ).json(members.finish())
    }

    /// `GET /attachments/:id`: a download, of the inclusive byte range when one is
    /// given. `Some((n, None))` asks for `bytes=n-`, which is what a resume wants.
    pub fn download_attachment(&self, attachment_id: i64, range: Option<(u64, Option<u64>)>) -> (result:
        RequestSpec)
        ensures
            result@ == (RequestView {
                range: range_header(range),
                ..plain_request(
                    Method::Get,
                    path_with_id("/attachments/"@, attachment_id as int),
                )
            }),
    {
        let spec = RequestSpec::new(
            Method::Get,
            just_id("/attachments/", attachment_id).as_str(),
        );
        match range {
            Some((start, end)) => {
                let mut header = "bytes=".to_owned();
                header.append(decimal(start).as_str());
                header.append("-");
                match end {
                    Some(end) => {
                        header.append(decimal(end).as_str());
                    },
                    None => {},
                }
                spec.range(header)
            },
            None => spec,
        }
    }
}

/// The `Range` header of an inclusive byte range with an optional end.
pub open spec fn range_header(range: Option<(u64, Option<u64>)>) -> Option<Seq<char>> {
    match range {
        Some((start, Some(end))) => Some(
            "bytes="@ + digits(start as nat) + "-"@ + digits(end as nat),
        ),
        Some((start, None)) => Some("bytes="@ + digits(start as nat) + "-"@),
        None => None,
    }
}

/// The digest in an `ETag` header: its text without the quotation marks around it.
pub fn etag_digest(header: &str) -> (result: String)
    ensures
        result@ == without_trailing(
            crate::text::without_leading(header@, '"'),
            '"',
        ),
{
    trim_trailing(crate::text::trim_leading(header, '"').as_str(), '"')
}

// -- one request, several attempts -----------------------------------------

/// What the transport has to do next.
#[derive(Debug, Clone, PartialEq, Eq)]
pub enum Step {
    /// Send the request again.
    Send,
    /// Sleep for the policy's backoff after this many attempts, then send again.
    Backoff {
        /// How many attempts have been made.
        attempt: u32,
    },
    /// Sleep this long, then send again.
    Wait(Delay),
    /// Refresh the access token once, then say how that went.
    Refresh,
    /// Give up.
    Fail(ClientError),
    /// Hand the response to the caller, whatever its status.
    Deliver,
}

/// What happened to an attempt.
pub enum Event {
    /// The transport failed.
    Failed(ClientError),
    /// The server answered with a status, and a `Retry-After` if it sent one.
    Answered(u16, Option<Delay>),
    /// The refresh that was asked for went well.
    Refreshed,
    /// The refresh that was asked for failed.
    RefreshFailed(ClientError),
}

/// Where a request stands.
pub struct ExchangeView {
    /// The retry policy in force.
    pub policy: RetryPolicy,
    /// Whether the request carries the bearer token.
    pub authenticated: bool,
    /// The number of the attempt under way, from one.
    pub attempt: int,
    /// Whether the token has been refreshed on account of a `401`.
    pub refreshed: bool,
}

/// A request under way: it applies the `401`-refresh-retry rule and the retry
/// policy for `429`, `5xx` and transport failures.
#[derive(Debug)]
pub struct Exchange {
    policy: RetryPolicy,
    authenticated: bool,
    attempt: u64,
    refreshed: bool,
}

/// How many attempts a policy allows; the first is always made.
pub open spec fn allowed_attempts(policy: RetryPolicy) -> int {
    if policy.max_attempts > 1 {
        policy.max_attempts as int
    } else {
        1
    }
}

impl ExchangeView {
    /// The policy's attempts, and one more after a refresh, are never exceeded.
    pub open spec fn bounded(self) -> bool {
        1 <= self.attempt <= allowed_attempts(self.policy) + if self.refreshed {
            1int
        } else {
            0int
        }
    }

    /// The exchange with one more attempt under way.
    pub open spec fn next_attempt(self) -> ExchangeView {
        ExchangeView { attempt: self.attempt + 1, ..self }
    }

    /// What follows from an event: where the request then stands, and what to do.
    pub open spec fn after(self, event: Event) -> (ExchangeView, Step) {
        let again = self.attempt < self.policy.max_attempts;
        let backoff = (self.next_attempt(), Step::Backoff { attempt: self.attempt as u32 });
        match event {
            Event::Failed(error) => if retryable(error) && again {
                backoff
            } else {
                (self, Step::Fail(error))
            },
            Event::Answered(status, wait) => if status == 401 && self.authenticated {
                if self.refreshed {
                    (self, Step::Fail(ClientError::SessionExpired))
                } else {
                    (ExchangeView { refreshed: true, ..self }, Step::Refresh)
                }
            } else if status == 429 {
                if !again {
                    (self, Step::Fail(ClientError::RateLimited { retry_after: wait }))
                } else {
                    match wait {
                        Some(delay) => (
                            self.next_attempt(),
                            Step::Wait(
                                Delay {
                                    millis: least(
                                        delay.millis as int,
                                        self.policy.max_retry_after.millis as int,
                                    ) as u128,
                                },
                            ),
                        ),
                        None => backoff,
                    }
                }
            } else if 500 <= status < 600 && again {
                backoff
            } else {
                (self, Step::Deliver)
            },
            Event::Refreshed => (self.next_attempt(), Step::Send),
            Event::RefreshFailed(error) => (self, Step::Fail(error)),
        }
    }
}

impl Exchange {
    /// Where the request stands.
    pub closed spec fn view(&self) -> ExchangeView {
        ExchangeView {
            policy: self.policy,
            authenticated: self.authenticated,
            attempt: self.attempt as int,
            refreshed: self.refreshed,
        }
    }

    /// A request whose first attempt is under way.
    pub fn start(policy: RetryPolicy, authenticated: bool) -> (result: Exchange)
        ensures
            result@ == (ExchangeView { policy, authenticated, attempt: 1, refreshed: false }),
            result@.bounded(),
    {
        Exchange { policy, authenticated, attempt: 1, refreshed: false }
    }

    /// The number of the attempt under way, from one.
    pub fn attempt(&self) -> (result: u64)
        ensures
            result == self@.attempt,
    {
        self.attempt
    }

    /// The transport failed.
    pub fn on_failure(&mut self, error: ClientError) -> (result: Step)
        requires
            old(self)@.bounded(),
        ensures
            (final(self)@, result) == old(self)@.after(Event::Failed(error)),
            final(self)@.bounded(),
    {
        if error.is_retryable() && self.attempt < self.policy.max_attempts as u64 {
            let attempt: u32 = self.attempt as u32;
            self.attempt = self.attempt + 1;
            Step::Backoff { attempt }
        } else {
            Step::Fail(error)
        }
    }

    /// The server answered.
    ///
    /// The response may still be an error status: a `4xx` that is not retryable is
    /// handed to the caller so that it can read the envelope.
    pub fn on_answer(&mut self, status: u16, retry_after: Option<Delay>) -> (result: Step)
        requires
            old(self)@.bounded(),
        ensures
            (final(self)@, result) == old(self)@.after(Event::Answered(status, retry_after)),
            final(self)@.bounded(),
    {
        if status == 401 && self.authenticated {
            if self.refreshed {
                return Step::Fail(ClientError::SessionExpired);
            }
            self.refreshed = true;
            return Step::Refresh;
        }
        let again = self.attempt < self.policy.max_attempts as u64;
        let attempt: u32 = if again {
            self.attempt as u32
        } else {
            0
        };
        if status == 429 {
            if !again {
                return Step::Fail(ClientError::RateLimited { retry_after });
            }
            self.attempt = self.attempt + 1;
            return match retry_after {
                Some(delay) => Step::Wait(delay.shorter(self.policy.max_retry_after)),
                None => Step::Backoff { attempt },
            };
        }
        if 500 <= status && status < 600 && again {
            self.attempt = self.attempt + 1;
            return Step::Backoff { attempt };
        }
        Step::Deliver
    }

    /// The refresh that was asked for has ended.
    pub fn on_refresh(&mut self, outcome: Result<(), ClientError>) -> (result: Step)
        requires
            old(self)@.bounded(),
            old(self)@.attempt <= allowed_attempts(old(self)@.policy),
            old(self)@.refreshed,
        ensures
            (final(self)@, result) == old(self)@.after(
                match outcome {
                    Ok(()) => Event::Refreshed,
                    Err(error) => Event::RefreshFailed(error),
                },
            ),
            final(self)@.bounded(),
    {
        match outcome {
            Ok(()) => {
                self.attempt = self.attempt + 1;
                Step::Send
            },
            Err(error) => Step::Fail(error),
        }
    }
}

/// How often a run of events asks for a refresh.
pub open spec fn refreshes(exchange: ExchangeView, events: Seq<Event>) -> nat
    decreases events.len(),
{
    if events.len() == 0 {
        0
    } else {
        let (next, step) = exchange.after(events[0]);
        refreshes(next, events.drop_first()) + if step is Refresh {
            1nat
        } else {
            0nat
        }
    }
}

/// A `401` is recovered from at most once: whatever happens, a request never asks
/// for a second refresh, and a `401` after the first one ends the session.
pub proof fn law_refreshes_at_most_once(exchange: ExchangeView, events: Seq<Event>)
    ensures
        refreshes(exchange, events) <= if exchange.refreshed { 0nat } else { 1nat },
        exchange.refreshed && exchange.authenticated ==> forall|wait: Option<Delay>|
            (#[trigger] exchange.after(Event::Answered(401, wait))).1 == Step::Fail(
                ClientError::SessionExpired,
            ),
    decreases events.len(),
{
    if events.len() > 0 {
        let (next, _) = exchange.after(events[0]);
        law_refreshes_at_most_once(next, events.drop_first());
    }
}

/// How often a run of transport events sleeps and sends again.
pub open spec fn repeats(exchange: ExchangeView, events: Seq<Event>) -> nat
    decreases events.len(),
{
    if events.len() == 0 {
        0
    } else {
        let (next, step) = exchange.after(events[0]);
        repeats(next, events.drop_first()) + if step is Backoff || step is Wait {
            1nat
        } else {
            0nat
        }
    }
}

/// Retrying is bounded: whatever the server answers, a request is repeated after
/// a sleep at most `max_attempts - 1` times.
pub proof fn law_retries_are_bounded(exchange: ExchangeView, events: Seq<Event>)
    requires
        exchange.attempt >= 1,
    ensures
        exchange.attempt <= exchange.policy.max_attempts ==> repeats(exchange, events)
            <= exchange.policy.max_attempts - exchange.attempt,
        exchange.attempt >= exchange.policy.max_attempts ==> repeats(exchange, events) == 0,
    decreases events.len(),
{
    if events.len() > 0 {
        let (next, _) = exchange.after(events[0]);
        law_retries_are_bounded(next, events.drop_first());
    }
}

/// A refusal is never repeated: a `4xx` other than `401` and `429` goes to the
/// caller at once, on any attempt.
pub proof fn law_refusals_are_delivered(exchange: ExchangeView, status: u16, wait: Option<Delay>)
    requires
        400 <= status < 500,
        status != 401 && status != 429,
    ensures
        exchange.after(Event::Answered(status, wait)) == (exchange, Step::Deliver),
{
}

/// A hostile server cannot park the client: a wait that an answer asks for is never
/// longer than the policy allows.
pub proof fn law_waits_are_clamped(exchange: ExchangeView, status: u16, wait: Option<Delay>)
    ensures
        exchange.after(Event::Answered(status, wait)).1 matches Step::Wait(delay) ==> delay.millis
            <= exchange.policy.max_retry_after.millis,
{
}

/// Trouble that may pass is tried again for as long as the policy allows, and no other is. A
/// failure of the transport is repeated if it may pass, and is otherwise the outcome itself; a
/// `429` waits as long as it asks, up to the policy's limit, and a `429` without a wish and every
/// `5xx` wait for the backoff of that attempt. Each repetition counts, and the last answer goes to
/// the caller.
pub proof fn law_what_may_pass_is_tried_again(
    exchange: ExchangeView,
    status: u16,
    wait: Option<Delay>,
    error: ClientError,
)
    requires
        1 <= exchange.attempt <= u32::MAX,
    ensures
        ({
            let again = exchange.attempt < exchange.policy.max_attempts;
            let (next, step) = exchange.after(Event::Answered(status, wait));
            let repeated = step is Send || step is Backoff || step is Wait;
            let signed_out = status == 401 && exchange.authenticated;
            &&& repeated <==> retryable_status(status) && again
            &&& step matches Step::Backoff { attempt } ==> attempt == exchange.attempt
            &&& step is Wait <==> status == 429 && again && wait is Some
            &&& step matches Step::Wait(delay) ==> delay.millis == (if wait->0.millis
                <= exchange.policy.max_retry_after.millis {
                wait->0.millis
            } else {
                exchange.policy.max_retry_after.millis
            })
            &&& step matches Step::Fail(ClientError::RateLimited { retry_after }) ==> status == 429
                && !again && retry_after == wait
            &&& status == 429 && !again ==> step is Fail
            &&& status != 429 && !signed_out && !repeated ==> step is Deliver
            &&& signed_out && !exchange.refreshed ==> step is Refresh && next.refreshed
            &&& !signed_out ==> next.refreshed == exchange.refreshed && !(step is Refresh)
            &&& next.attempt == exchange.attempt + (if repeated {
                1int
            } else {
                0int
            })
            &&& next.policy == exchange.policy && next.authenticated == exchange.authenticated
        }),
        ({
            let again = exchange.attempt < exchange.policy.max_attempts;
            let (next, step) = exchange.after(Event::Failed(error));
            &&& retryable(error) && again ==> step == (Step::Backoff {
                attempt: exchange.attempt as u32,
            }) && next.attempt == exchange.attempt + 1
            &&& !(retryable(error) && again) ==> step == Step::Fail(error) && next == exchange
        }),
        exchange.after(Event::Refreshed).1 == Step::Send,
        exchange.after(Event::Refreshed).0.attempt == exchange.attempt + 1,
        exchange.after(Event::RefreshFailed(error)) == (exchange, Step::Fail(error)),
{
}

/// A token is used until half a minute before it runs out, and not after.
pub proof fn law_a_token_is_used_while_it_is_good(client: FcpClient, now: int)
    ensures
        client.token() is None ==> !client.usable(now),
        client.token() matches Some(token) ==> (client.usable(now) <==> now + 30_000_000_000
            < token.1),
{
}

// -- the outcome of authentication calls -----------------------------------

/// What a refresh call leads to.
#[derive(Debug, Clone, PartialEq, Eq)]
pub enum RefreshOutcome {
    /// Keep the rotated refresh token and use the new access token.
    Rotated(RefreshResponse),
    /// The whole token family was revoked: forget the stored token; the session is
    /// over.
    Revoked,
    /// It failed for another reason; the tokens stay as they are.
    Failed(ClientError),
}

/// Decide what a refresh call leads to. A `401` here means that an already-used
/// token was presented, which revokes the family.
pub fn refresh_outcome(answer: Result<RefreshResponse, ClientError>) -> (result: RefreshOutcome)
    ensures
        match answer {
            Ok(response) => result == RefreshOutcome::Rotated(response),
            Err(ClientError::Api(api)) => if api.status == 401 {
                result == RefreshOutcome::Revoked
            } else {
                result == RefreshOutcome::Failed(ClientError::Api(api))
            },
            Err(error) => result == RefreshOutcome::Failed(error),
        },
        result is Rotated <==> answer is Ok,
        result is Revoked <==> (answer matches Err(ClientError::Api(api)) && !retryable_status(
            api.status,
        ) && status_of(ClientError::Api(api)) == Some(401u16)),
        result matches RefreshOutcome::Failed(error) ==> answer == Err::<
            RefreshResponse,
            ClientError,
        >(error),
{
    match answer {
        Ok(response) => RefreshOutcome::Rotated(response),
        Err(ClientError::Api(api)) => if api.status == 401 {
            RefreshOutcome::Revoked
        } else {
            RefreshOutcome::Failed(ClientError::Api(api))
        },
        Err(error) => RefreshOutcome::Failed(error),
    }
}

/// What a logout call comes to, once the tokens are gone: a session that was
/// already over is the goal.
pub fn logout_outcome(answer: Result<(), ClientError>) -> (result: Result<(), ClientError>)
    ensures
        match answer {
            Ok(()) => result is Ok,
            Err(ClientError::Api(api)) => if api.status == 401 {
                result is Ok
            } else {
                result == Err::<(), ClientError>(ClientError::Api(api))
            },
            Err(ClientError::SessionExpired) => result is Ok,
            Err(error) => result == Err::<(), ClientError>(error),
        },
        result is Err ==> result == answer,
        answer matches Err(error) ==> (result is Ok <==> status_of(error) == Some(401u16) && !(error
            is NotAuthenticated)),
{
    match answer {
        Ok(()) => Ok(()),
        Err(ClientError::Api(api)) => if api.status == 401 {
            Ok(())
        } else {
            Err(ClientError::Api(api))
        },
        Err(ClientError::SessionExpired) => Ok(()),
        Err(error) => Err(error),
    }
}

/// Where the drafts are in the answer to `GET /drafts`.
#[derive(Debug, Clone, PartialEq, Eq)]
pub enum DraftList {
    /// The answer is the list.
    Entries(Vec<Json>),
    /// The `drafts` member of the answer, which should be the list.
    Member(Json),
    /// Neither an array nor an object.
    Unexpected(Json),
}

/// Find the drafts in the answer to `GET /drafts`: an array of drafts, or an object
/// with a `drafts` member. An object without one has no drafts.
pub fn draft_list(answer: Json) -> (result: DraftList)
    ensures
        match answer {
            Json::Array(items) => result == DraftList::Entries(items),
            Json::Object(_) => {
                &&& result matches DraftList::Member(value)
                &&& match answer@.member("drafts"@) {
                    Some(drafts) => value@ == drafts,
                    None => value@ == JsonView::Array(Seq::empty()),
                }
            },
            _ => result == DraftList::Unexpected(answer),
        },
{
    match answer {
        Json::Array(items) => DraftList::Entries(items),
        Json::Object(members) => {
            let answer = Json::Object(members);
            match answer.get("drafts") {
                Some(value) => DraftList::Member(value.copy()),
                None => DraftList::Member(Json::Array(Vec::new())),
            }
        },
        other => DraftList::Unexpected(other),
    }
}

} // verus!
