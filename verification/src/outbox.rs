//! The Outbox: the eight-state send pipeline.
//!
//! ```text
//! Compose -> Draft -> Pending -> Uploading -> Queued -> Sending -> Sent
//!                                 \ Failed /         \ Retrying /
//! ```
//!
//! The state is persisted, so closing the client in the middle of a send resumes
//! exactly where it stopped. Only the transitions in
//! [`OutboxState::can_transition_to`] are legal; every other one is refused with
//! [`ClientError::Conflict`].

use vstd::prelude::*;

use crate::columns::{
    numbers_text, parse_ids, parse_list, store_ids, store_list, stored_numbers, stored_strings,
    strings_text,
};
use crate::database::{int_bind, text_bind, Bind, BindView, Statement};
use crate::error::{ClientError, ClientResult};
use crate::text::{
    begins_with, concat3, debug_quoted, debug_text, decimal_signed, finishes_with, join, joined,
    opt_view, same, signed_digits, trim, trimmed, views,
};
use crate::time::{optional_time, parse_optional, parse_or, rfc3339_time, time_or, Timestamp};

verus! {

/// The eight states of a message on its way out.
#[derive(Debug, Clone, Copy, PartialEq, Eq, Hash, Structural)]
pub enum OutboxState {
    /// Composed but not yet queued for sending; the user can still edit it.
    Draft,
    /// Queued to send: durable, waiting for the network.
    Pending,
    /// Uploading this message's attachments.
    Uploading,
    /// Handed to the server's mail queue.
    Queued,
    /// The server is delivering it.
    Sending,
    /// Delivered to every recipient. Terminal.
    Sent,
    /// Given up. The message and its text are kept so nothing is lost.
    Failed,
    /// A previous attempt failed temporarily; another is scheduled.
    Retrying,
}

/// The stored name of a state.
pub open spec fn state_name(state: OutboxState) -> Seq<char> {
    match state {
        OutboxState::Draft => "draft"@,
        OutboxState::Pending => "pending"@,
        OutboxState::Uploading => "uploading"@,
        OutboxState::Queued => "queued"@,
        OutboxState::Sending => "sending"@,
        OutboxState::Sent => "sent"@,
        OutboxState::Failed => "failed"@,
        OutboxState::Retrying => "retrying"@,
    }
}

/// The state with a stored name.
pub open spec fn state_named(raw: Seq<char>) -> Option<OutboxState> {
    if raw == "draft"@ {
        Some(OutboxState::Draft)
    } else if raw == "pending"@ {
        Some(OutboxState::Pending)
    } else if raw == "uploading"@ {
        Some(OutboxState::Uploading)
    } else if raw == "queued"@ {
        Some(OutboxState::Queued)
    } else if raw == "sending"@ {
        Some(OutboxState::Sending)
    } else if raw == "sent"@ {
        Some(OutboxState::Sent)
    } else if raw == "failed"@ {
        Some(OutboxState::Failed)
    } else if raw == "retrying"@ {
        Some(OutboxState::Retrying)
    } else {
        None
    }
}

/// The legal transitions.
pub open spec fn legal(from: OutboxState, to: OutboxState) -> bool {
    match from {
        OutboxState::Draft => to == OutboxState::Pending,
        OutboxState::Pending => to == OutboxState::Uploading || to == OutboxState::Queued || to
            == OutboxState::Failed || to == OutboxState::Draft,
        OutboxState::Uploading => to == OutboxState::Queued || to == OutboxState::Failed || to
            == OutboxState::Retrying,
        OutboxState::Queued => to == OutboxState::Sending || to == OutboxState::Failed || to
            == OutboxState::Draft,
        OutboxState::Sending => to == OutboxState::Sent || to == OutboxState::Retrying || to
            == OutboxState::Failed,
        OutboxState::Sent => false,
        OutboxState::Failed => to == OutboxState::Pending || to == OutboxState::Draft,
        OutboxState::Retrying => to == OutboxState::Sending || to == OutboxState::Failed,
    }
}

/// The message of the error for a stored state that does not exist.
pub open spec fn unknown_state(raw: Seq<char>) -> Seq<char> {
    "unknown outbox state "@ + debug_text(raw)
}

impl OutboxState {
    /// Every state, in pipeline order.
    pub const ALL: [OutboxState; 8] = [
        OutboxState::Draft,
        OutboxState::Pending,
        OutboxState::Uploading,
        OutboxState::Queued,
        OutboxState::Sending,
        OutboxState::Sent,
        OutboxState::Failed,
        OutboxState::Retrying,
    ];

    /// The stored name of the state.
    pub fn as_str(self) -> (result: &'static str)
        ensures
            result@ == state_name(self),
    {
        match self {
            OutboxState::Draft => "draft",
            OutboxState::Pending => "pending",
            OutboxState::Uploading => "uploading",
            OutboxState::Queued => "queued",
            OutboxState::Sending => "sending",
            OutboxState::Sent => "sent",
            OutboxState::Failed => "failed",
            OutboxState::Retrying => "retrying",
        }
    }

    /// The stored name of the state.
    pub fn to_string(&self) -> (result: String)
        ensures
            result@ == state_name(*self),
    {
        self.as_str().to_owned()
    }

    /// Parse a `state` column back into an enum.
    pub fn parse(raw: &str) -> (result: ClientResult<OutboxState>)
        ensures
            match state_named(raw@) {
                Some(state) => result == ClientResult::Ok(state),
                None => result matches Err(ClientError::Cache(m)) && m@ == unknown_state(raw@),
            },
    {
        if same(raw, "draft") {
            Ok(OutboxState::Draft)
        } else if same(raw, "pending") {
            Ok(OutboxState::Pending)
        } else if same(raw, "uploading") {
            Ok(OutboxState::Uploading)
        } else if same(raw, "queued") {
            Ok(OutboxState::Queued)
        } else if same(raw, "sending") {
            Ok(OutboxState::Sending)
        } else if same(raw, "sent") {
            Ok(OutboxState::Sent)
        } else if same(raw, "failed") {
            Ok(OutboxState::Failed)
        } else if same(raw, "retrying") {
            Ok(OutboxState::Retrying)
        } else {
            let mut message = "unknown outbox state ".to_owned();
            message.append(debug_quoted(raw).as_str());
            Err(ClientError::Cache(message))
        }
    }

    /// Whether the message has left the pipeline for good.
    ///
    /// A `Sent` row is history; a `Failed` row is still the user's, and can be
    /// retried or turned back into a draft.
    pub fn is_terminal(self) -> (result: bool)
        ensures
            result == (self == OutboxState::Sent),
    {
        match self {
            OutboxState::Sent => true,
            _ => false,
        }
    }

    /// Whether a restart has to pick this row up again.
    pub fn needs_resume(self) -> (result: bool)
        ensures
            result == (self != OutboxState::Sent && self != OutboxState::Failed),
            result == resumes(self),
    {
        match self {
            OutboxState::Sent => false,
            OutboxState::Failed => false,
            _ => true,
        }
    }

    /// The legal transitions out of this state.
    ///
    /// | From | To |
    /// |---|---|
    /// | `Draft` | `Pending` |
    /// | `Pending` | `Uploading`, `Queued`, `Failed`, `Draft` |
    /// | `Uploading` | `Queued`, `Failed`, `Retrying` |
    /// | `Queued` | `Sending`, `Failed`, `Draft` |
    /// | `Sending` | `Sent`, `Retrying`, `Failed` |
    /// | `Sent` | (terminal) |
    /// | `Failed` | `Pending`, `Draft` |
    /// | `Retrying` | `Sending`, `Failed` |
    pub fn can_transition_to(self, next: OutboxState) -> (result: bool)
        ensures
            result == legal(self, next),
    {
        match self {
            OutboxState::Draft => matches!(next, OutboxState::Pending),
            OutboxState::Pending => matches!(
                next,
                OutboxState::Uploading | OutboxState::Queued | OutboxState::Failed
                    | OutboxState::Draft
            ),
            OutboxState::Uploading => matches!(
                next,
                OutboxState::Queued | OutboxState::Failed | OutboxState::Retrying
            ),
            OutboxState::Queued => matches!(
                next,
                OutboxState::Sending | OutboxState::Failed | OutboxState::Draft
            ),
            OutboxState::Sending => matches!(
                next,
                OutboxState::Sent | OutboxState::Retrying | OutboxState::Failed
            ),
            OutboxState::Sent => false,
            OutboxState::Failed => matches!(next, OutboxState::Pending | OutboxState::Draft),
            OutboxState::Retrying => matches!(next, OutboxState::Sending | OutboxState::Failed),
        }
    }
}

/// The list of the states holds every state, and holds it once.
pub proof fn law_every_state_is_listed_once(state: OutboxState)
    ensures
        exists|i: int| 0 <= i < OutboxState::ALL@.len() && #[trigger] OutboxState::ALL@[i] == state,
        forall|i: int, j: int|
            0 <= i < j < OutboxState::ALL@.len() ==> #[trigger] OutboxState::ALL@[i]
                != #[trigger] OutboxState::ALL@[j],
{
    let all = OutboxState::ALL@;
    assert(all.len() == 8);
    assert(all[0] == OutboxState::Draft && all[1] == OutboxState::Pending);
    assert(all[2] == OutboxState::Uploading && all[3] == OutboxState::Queued);
    assert(all[4] == OutboxState::Sending && all[5] == OutboxState::Sent);
    assert(all[6] == OutboxState::Failed && all[7] == OutboxState::Retrying);
}

/// Every state is found again under the name it is stored by.
pub proof fn law_state_names_round_trip(state: OutboxState)
    ensures
        state_named(state_name(state)) == Some(state),
{
    reveal_strlit("draft");
    reveal_strlit("pending");
    reveal_strlit("uploading");
    reveal_strlit("queued");
    reveal_strlit("sending");
    reveal_strlit("sent");
    reveal_strlit("failed");
    reveal_strlit("retrying");
    let name = state_name(state);
    assert("draft"@.len() == 5 && "pending"@.len() == 7 && "uploading"@.len() == 9);
    assert("queued"@.len() == 6 && "sending"@.len() == 7 && "sent"@.len() == 4);
    assert("failed"@.len() == 6 && "retrying"@.len() == 8);
    assert("pending"@[0] == 'p' && "sending"@[0] == 's');
    assert("queued"@[0] == 'q' && "failed"@[0] == 'f');
    assert(name == state_name(state));
}

/// A sent message can never move again: no transition leaves `Sent`, and of the
/// transitions only the one from `Sending` leads there.
pub proof fn law_sent_is_terminal(from: OutboxState, to: OutboxState)
    ensures
        !legal(OutboxState::Sent, to),
        legal(from, OutboxState::Sent) ==> from == OutboxState::Sending,
{
}

/// What leads to each state: a message is sent only by being handed over, and handed over only
/// from the queue or for another attempt; it is queued once its attachments are there, fails
/// only while it is on its way, and goes back to the user only before it was handed over or
/// after it failed.
pub proof fn law_what_leads_to_each_state(from: OutboxState)
    ensures
        legal(from, OutboxState::Sent) <==> from == OutboxState::Sending,
        legal(from, OutboxState::Sending) <==> from == OutboxState::Queued || from
            == OutboxState::Retrying,
        legal(from, OutboxState::Queued) <==> from == OutboxState::Uploading || from
            == OutboxState::Pending,
        legal(from, OutboxState::Uploading) <==> from == OutboxState::Pending,
        legal(from, OutboxState::Pending) <==> from == OutboxState::Draft || from
            == OutboxState::Failed,
        legal(from, OutboxState::Retrying) <==> from == OutboxState::Sending || from
            == OutboxState::Uploading,
        legal(from, OutboxState::Failed) <==> on_its_way(from),
        legal(from, OutboxState::Draft) <==> from == OutboxState::Pending || from
            == OutboxState::Queued || from == OutboxState::Failed,
{
}

// -- items -----------------------------------------------------------------

/// One message in the outbox.
#[derive(Debug, Clone, PartialEq, Eq)]
pub struct OutboxItem {
    /// Local row id.
    pub id: i64,
    /// The account that owns it.
    pub account_id: i64,
    /// The idempotency key, generated when the draft entered the outbox.
    pub operation_id: String,
    /// Where it is in the pipeline.
    pub state: OutboxState,
    /// The address to send from.
    pub mailbox_id: Option<i64>,
    /// The `From:` address.
    pub from_address: String,
    /// The `To:` addresses.
    pub to: Vec<String>,
    /// The `Cc:` addresses.
    pub cc: Vec<String>,
    /// The `Bcc:` addresses.
    pub bcc: Vec<String>,
    /// The subject.
    pub subject: String,
    /// The plain-text body.
    pub text_body: Option<String>,
    /// The HTML body.
    pub html_body: Option<String>,
    /// The attachments, by server id once uploaded.
    pub attachment_ids: Vec<i64>,
    /// The `In-Reply-To` header.
    pub in_reply_to: Option<String>,
    /// The `References` header.
    pub references: Vec<String>,
    /// When the item was created.
    pub created_at: Timestamp,
    /// When it last changed state.
    pub updated_at: Timestamp,
    /// How many delivery attempts have been made.
    pub attempts: u32,
    /// The last failure, for the UI.
    pub last_error: Option<String>,
    /// The stored copy in the Sent folder, once the server answered.
    pub server_message_id: Option<i64>,
    /// How many recipients were enqueued.
    pub queued_recipients: Option<i64>,
    /// When the server accepted it.
    pub sent_at: Option<Timestamp>,
}

/// The columns of an outbox row, as they are stored.
#[derive(Debug, Clone, PartialEq, Eq)]
pub struct OutboxRow {
    /// `id`
    pub id: i64,
    /// `account_id`
    pub account_id: i64,
    /// `operation_id`
    pub operation_id: String,
    /// `state`
    pub state: String,
    /// `mailbox_id`
    pub mailbox_id: Option<i64>,
    /// `from_address`
    pub from_address: String,
    /// `to_json`
    pub to_json: String,
    /// `cc_json`
    pub cc_json: String,
    /// `bcc_json`
    pub bcc_json: String,
    /// `subject`
    pub subject: String,
    /// `text_body`
    pub text_body: Option<String>,
    /// `html_body`
    pub html_body: Option<String>,
    /// `attachment_ids_json`
    pub attachment_ids_json: String,
    /// `in_reply_to`
    pub in_reply_to: Option<String>,
    /// `references_json`
    pub references_json: String,
    /// `created_at`
    pub created_at: String,
    /// `updated_at`
    pub updated_at: String,
    /// `attempts`
    pub attempts: i64,
    /// `last_error`
    pub last_error: Option<String>,
    /// `server_message_id`
    pub server_message_id: Option<i64>,
    /// `queued_recipients`
    pub queued_recipients: Option<i64>,
    /// `sent_at`
    pub sent_at: Option<String>,
}

/// A counter column as an unsigned number: never negative, and otherwise its low
/// 32 bits.
pub open spec fn counter(stored: i64) -> u32 {
    (if stored < 0 {
        0i64
    } else {
        stored
    }) as u32
}

/// Whether `item` is what `row` stands for at `now`.
pub open spec fn item_of_row(item: OutboxItem, row: OutboxRow, now: Timestamp) -> bool {
    &&& item.id == row.id
    &&& item.account_id == row.account_id
    &&& item.operation_id == row.operation_id
    &&& state_named(row.state@) == Some(item.state)
    &&& item.mailbox_id == row.mailbox_id
    &&& item.from_address == row.from_address
    &&& views(item.to@) == stored_strings(row.to_json@)
    &&& views(item.cc@) == stored_strings(row.cc_json@)
    &&& views(item.bcc@) == stored_strings(row.bcc_json@)
    &&& item.subject == row.subject
    &&& item.text_body == row.text_body
    &&& item.html_body == row.html_body
    &&& item.attachment_ids@.map_values(|n: i64| n as int) == stored_numbers(
        row.attachment_ids_json@,
    )
    &&& item.in_reply_to == row.in_reply_to
    &&& views(item.references@) == stored_strings(row.references_json@)
    &&& item.created_at == time_or(row.created_at@, now)
    &&& item.updated_at == time_or(row.updated_at@, now)
    &&& item.attempts == counter(row.attempts)
    &&& item.last_error == row.last_error
    &&& item.server_message_id == row.server_message_id
    &&& item.queued_recipients == row.queued_recipients
    &&& item.sent_at == optional_time(row.sent_at)
}

/// The subject, or a stand-in when it is blank, and the recipients.
pub open spec fn item_summary(subject: Seq<char>, to: Seq<Seq<char>>) -> Seq<char> {
    if trimmed(subject).len() == 0 {
        "(no subject) \u{2192} "@ + joined(to, ", "@)
    } else {
        subject + " \u{2192} "@ + joined(to, ", "@)
    }
}

impl OutboxItem {
    /// A one-line description for the Outbox list.
    pub fn summary(&self) -> (result: String)
        ensures
            result@ == item_summary(self.subject@, views(self.to@)),
    {
        let recipients = join(&self.to, ", ");
        if trim(self.subject.as_str()).as_str().is_empty() {
            let mut out = "(no subject) \u{2192} ".to_owned();
            out.append(recipients.as_str());
            out
        } else {
            concat3(self.subject.as_str(), " \u{2192} ", recipients.as_str())
        }
    }

    /// Read an item from its stored columns. Lists that cannot be read are empty,
    /// times that cannot be read are `now`; an unknown state is an error.
    pub fn from_row(row: OutboxRow, now: Timestamp) -> (result: ClientResult<OutboxItem>)
        ensures
            match state_named(row.state@) {
                Some(_) => result is Ok && item_of_row(result->Ok_0, row, now),
                None => result matches Err(ClientError::Cache(m)) && m@ == unknown_state(
                    row.state@,
                ),
            },
    {
        let state = match OutboxState::parse(row.state.as_str()) {
            Ok(state) => state,
            Err(error) => {
                return Err(error);
            },
        };
        let attempts: i64 = if row.attempts < 0 {
            0
        } else {
            row.attempts
        };
        Ok(
            OutboxItem {
                id: row.id,
                account_id: row.account_id,
                operation_id: row.operation_id,
                state,
                mailbox_id: row.mailbox_id,
                from_address: row.from_address,
                to: parse_list(row.to_json.as_str()),
                cc: parse_list(row.cc_json.as_str()),
                bcc: parse_list(row.bcc_json.as_str()),
                subject: row.subject,
                text_body: row.text_body,
                html_body: row.html_body,
                attachment_ids: parse_ids(row.attachment_ids_json.as_str()),
                in_reply_to: row.in_reply_to,
                references: parse_list(row.references_json.as_str()),
                created_at: parse_or(row.created_at.as_str(), now),
                updated_at: parse_or(row.updated_at.as_str(), now),
                attempts: attempts as u32,
                last_error: row.last_error,
                server_message_id: row.server_message_id,
                queued_recipients: row.queued_recipients,
                sent_at: parse_optional(&row.sent_at),
            },
        )
    }
}

/// A message being put into the outbox.
#[derive(Debug, Clone, PartialEq, Eq)]
pub struct NewOutboxItem {
    /// The owning account.
    pub account_id: i64,
    /// Which address to send from.
    pub mailbox_id: Option<i64>,
    /// The `From:` address.
    pub from_address: String,
    /// The `To:` addresses.
    pub to: Vec<String>,
    /// The `Cc:` addresses.
    pub cc: Vec<String>,
    /// The `Bcc:` addresses.
    pub bcc: Vec<String>,
    /// The subject.
    pub subject: String,
    /// The plain-text body.
    pub text_body: Option<String>,
    /// The HTML body.
    pub html_body: Option<String>,
    /// Attachments already uploaded.
    pub attachment_ids: Vec<i64>,
    /// The `In-Reply-To` header.
    pub in_reply_to: Option<String>,
    /// The `References` header.
    pub references: Vec<String>,
    /// Whether to stop at `Draft` (the user pressed "save") or go to `Pending`
    /// (the user pressed "send").
    pub send_now: bool,
}

impl NewOutboxItem {
    /// A minimal message to `to` with `subject` and `text`, to be sent now.
    pub fn simple(account_id: i64, from: &str, to: &[String], subject: &str, text: &str) -> (result:
        NewOutboxItem)
        ensures
            result.account_id == account_id,
            result.mailbox_id is None,
            result.from_address@ == from@,
            result.to@ == to@,
            result.cc@.len() == 0 && result.bcc@.len() == 0,
            result.subject@ == subject@,
            opt_view(result.text_body) == Some(text@),
            result.html_body is None,
            result.attachment_ids@.len() == 0,
            result.in_reply_to is None,
            result.references@.len() == 0,
            result.send_now,
    {
        let mut recipients: Vec<String> = Vec::new();
        let mut i: usize = 0;
        while i < to.len()
            invariant
                i <= to@.len(),
                recipients@ == to@.take(i as int),
            decreases to@.len() - i,
        {
            proof {
                assert(to@.take(i + 1) =~= to@.take(i as int).push(to@[i as int]));
            }
            recipients.push(to[i].clone());
            i = i + 1;
        }
        proof {
            assert(to@.take(to@.len() as int) =~= to@);
        }
        NewOutboxItem {
            account_id,
            mailbox_id: None,
            from_address: from.to_owned(),
            to: recipients,
            cc: Vec::new(),
            bcc: Vec::new(),
            subject: subject.to_owned(),
            text_body: Some(text.to_owned()),
            html_body: None,
            attachment_ids: Vec::new(),
            in_reply_to: None,
            references: Vec::new(),
            send_now: true,
        }
    }

    /// The state the message enters the outbox in.
    pub fn initial_state(&self) -> (result: OutboxState)
        ensures
            result == if self.send_now { OutboxState::Pending } else { OutboxState::Draft },
            on_its_way(result) == self.send_now,
            editable(result) == !self.send_now,
            !self.send_now ==> legal(result, OutboxState::Pending),
            resumes(result),
    {
        if self.send_now {
            OutboxState::Pending
        } else {
            OutboxState::Draft
        }
    }
}

// -- counts ----------------------------------------------------------------

/// How many messages sit in each state.
#[derive(Debug, Clone, Copy, PartialEq, Eq, Structural)]
pub struct OutboxCounts {
    /// Composed but not queued.
    pub draft: i64,
    /// Queued, waiting for the network.
    pub pending: i64,
    /// Uploading attachments.
    pub uploading: i64,
    /// Handed to the server's queue.
    pub queued: i64,
    /// Being delivered by the server.
    pub sending: i64,
    /// Delivered.
    pub sent: i64,
    /// Given up.
    pub failed: i64,
    /// Waiting for another attempt.
    pub retrying: i64,
}

impl Default for OutboxCounts {
    fn default() -> (result: OutboxCounts)
        ensures
            forall|state: OutboxState| #[trigger] result.of(state) == 0,
    {
        OutboxCounts {
            draft: 0,
            pending: 0,
            uploading: 0,
            queued: 0,
            sending: 0,
            sent: 0,
            failed: 0,
            retrying: 0,
        }
    }
}

impl OutboxCounts {
    /// The count for one state.
    pub open spec fn of(self, state: OutboxState) -> i64 {
        match state {
            OutboxState::Draft => self.draft,
            OutboxState::Pending => self.pending,
            OutboxState::Uploading => self.uploading,
            OutboxState::Queued => self.queued,
            OutboxState::Sending => self.sending,
            OutboxState::Sent => self.sent,
            OutboxState::Failed => self.failed,
            OutboxState::Retrying => self.retrying,
        }
    }

    /// Everything that is on its way.
    pub open spec fn on_its_way(self) -> int {
        self.pending + self.uploading + self.queued + self.sending + self.retrying
    }

    /// The counts with one of them replaced.
    pub open spec fn replaced(self, state: OutboxState, n: i64) -> OutboxCounts {
        match state {
            OutboxState::Draft => OutboxCounts { draft: n, ..self },
            OutboxState::Pending => OutboxCounts { pending: n, ..self },
            OutboxState::Uploading => OutboxCounts { uploading: n, ..self },
            OutboxState::Queued => OutboxCounts { queued: n, ..self },
            OutboxState::Sending => OutboxCounts { sending: n, ..self },
            OutboxState::Sent => OutboxCounts { sent: n, ..self },
            OutboxState::Failed => OutboxCounts { failed: n, ..self },
            OutboxState::Retrying => OutboxCounts { retrying: n, ..self },
        }
    }

    /// Everything that is on its way: `Pending + Uploading + Queued + Sending +
    /// Retrying`.
    ///
    /// A message the user pressed *send* on but that has not reached the server
    /// yet is exactly what they mean by "sending".
    pub fn in_flight(&self) -> (result: i64)
        requires
            i64::MIN <= self.on_its_way() <= i64::MAX,
        ensures
            result == self.on_its_way(),
    {
        let total: i128 = self.pending as i128 + self.uploading as i128 + self.queued as i128
            + self.sending as i128 + self.retrying as i128;
        total as i64
    }

    /// The one-line header: `sending 2, failed 1, sent 152`.
    pub fn summary(&self) -> (result: String)
        requires
            i64::MIN <= self.on_its_way() <= i64::MAX,
        ensures
            result@ == "sending "@ + signed_digits(self.on_its_way()) + ", failed "@
                + signed_digits(self.failed as int) + ", sent "@ + signed_digits(self.sent as int),
    {
        let mut out = "sending ".to_owned();
        out.append(decimal_signed(self.in_flight()).as_str());
        out.append(", failed ");
        out.append(decimal_signed(self.failed).as_str());
        out.append(", sent ");
        out.append(decimal_signed(self.sent).as_str());
        out
    }

    /// The count for one state.
    pub fn get(&self, state: OutboxState) -> (result: i64)
        ensures
            result == self.of(state),
    {
        match state {
            OutboxState::Draft => self.draft,
            OutboxState::Pending => self.pending,
            OutboxState::Uploading => self.uploading,
            OutboxState::Queued => self.queued,
            OutboxState::Sending => self.sending,
            OutboxState::Sent => self.sent,
            OutboxState::Failed => self.failed,
            OutboxState::Retrying => self.retrying,
        }
    }

    fn set(&mut self, state: OutboxState, n: i64)
        ensures
            *final(self) == old(self).replaced(state, n),
    {
        match state {
            OutboxState::Draft => self.draft = n,
            OutboxState::Pending => self.pending = n,
            OutboxState::Uploading => self.uploading = n,
            OutboxState::Queued => self.queued = n,
            OutboxState::Sending => self.sending = n,
            OutboxState::Sent => self.sent = n,
            OutboxState::Failed => self.failed = n,
            OutboxState::Retrying => self.retrying = n,
        }
    }

    /// The counts that grouped rows of `(state, count)` stand for, or the message of
    /// the first unknown state among them.
    pub open spec fn counted(self, rows: Seq<(String, i64)>) -> Result<OutboxCounts, Seq<char>>
        decreases rows.len(),
    {
        if rows.len() == 0 {
            Ok(self)
        } else {
            match state_named(rows[0].0@) {
                Some(state) => self.replaced(state, rows[0].1).counted(rows.drop_first()),
                None => Err(unknown_state(rows[0].0@)),
            }
        }
    }

    /// Collect grouped rows of `(state, count)`; a state without a row counts zero.
    pub fn from_rows(rows: &Vec<(String, i64)>) -> (result: ClientResult<OutboxCounts>)
        ensures
            match zero_counts().counted(rows@) {
                Ok(counts) => result == ClientResult::Ok(counts),
                Err(message) => result matches Err(ClientError::Cache(m)) && m@ == message,
            },
    {
        let mut counts = OutboxCounts::default();
        let mut i: usize = 0;
        proof {
            assert(counts.of(OutboxState::Draft) == 0 && counts.of(OutboxState::Pending) == 0);
            assert(counts.of(OutboxState::Uploading) == 0 && counts.of(OutboxState::Queued) == 0);
            assert(counts.of(OutboxState::Sending) == 0 && counts.of(OutboxState::Sent) == 0);
            assert(counts.of(OutboxState::Failed) == 0 && counts.of(OutboxState::Retrying) == 0);
            assert(rows@.skip(0) =~= rows@);
        }
        while i < rows.len()
            invariant
                i <= rows@.len(),
                counts.counted(rows@.skip(i as int)) == zero_counts().counted(rows@),
            decreases rows@.len() - i,
        {
            let row = &rows[i];
            proof {
                assert(rows@.skip(i as int).drop_first() =~= rows@.skip(i + 1));
            }
            match OutboxState::parse(row.0.as_str()) {
                Ok(state) => {
                    counts.set(state, row.1);
                },
                Err(error) => {
                    return Err(error);
                },
            }
            i = i + 1;
        }
        proof {
            assert(rows@.skip(i as int).len() == 0);
        }
        Ok(counts)
    }
}

/// Nothing in any state.
pub open spec fn zero_counts() -> OutboxCounts {
    OutboxCounts {
        draft: 0,
        pending: 0,
        uploading: 0,
        queued: 0,
        sending: 0,
        sent: 0,
        failed: 0,
        retrying: 0,
    }
}

// -- decisions -------------------------------------------------------------

/// The message for an item that is not there.
pub open spec fn no_item(id: int) -> Seq<char> {
    "no outbox item "@ + signed_digits(id)
}

fn missing(id: i64) -> (result: ClientError)
    ensures
        result matches ClientError::NotFound(m) && m@ == no_item(id as int),
{
    let mut message = "no outbox item ".to_owned();
    message.append(decimal_signed(id).as_str());
    ClientError::NotFound(message)
}

/// The message for a transition that is refused.
pub open spec fn refused_transition(from: OutboxState, to: OutboxState) -> Seq<char> {
    "an outbox item cannot go from "@ + state_name(from) + " to "@ + state_name(to)
}

fn refused(from: OutboxState, to: OutboxState) -> (result: ClientError)
    ensures
        result matches ClientError::Conflict(m) && m@ == refused_transition(from, to),
{
    let mut message = "an outbox item cannot go from ".to_owned();
    message.append(from.as_str());
    message.append(" to ");
    message.append(to.as_str());
    ClientError::Conflict(message)
}

/// Moves an item to another state.
pub const MOVE_ITEM: &'static str = "UPDATE outbox SET state = ?, updated_at = ? WHERE id = ?";

/// Records a failed attempt.
pub const RECORD_ATTEMPT: &'static str =
    "UPDATE outbox SET state = ?, attempts = attempts + 1, last_error = ?, updated_at = ? WHERE id = ?";

/// Records that the server accepted an item.
pub const RECORD_SENT: &'static str =
    "UPDATE outbox SET state = 'sent', server_message_id = ?, queued_recipients = ?, sent_at = ?, updated_at = ?, last_error = NULL WHERE id = ?";

/// Edits an item.
pub const EDIT_ITEM: &'static str =
    "UPDATE outbox SET subject = ?, text_body = ?, html_body = ?, to_json = ?, updated_at = ? WHERE id = ?";

/// Puts an item in the outbox.
pub const INSERT_ITEM: &'static str =
    "INSERT INTO outbox (account_id, operation_id, state, mailbox_id, from_address, to_json, cc_json, bcc_json, subject, text_body, html_body, attachment_ids_json, in_reply_to, references_json, created_at, updated_at, attempts) VALUES (?, ?, ?, ?, ?, ?, ?, ?, ?, ?, ?, ?, ?, ?, ?, ?, 0)";

/// The parameters that put an item in the outbox.
pub open spec fn insert_binds(item: NewOutboxItem, operation_id: Seq<char>, now: Seq<char>) -> Seq<
    BindView,
> {
    seq![
        BindView::Int(item.account_id as int),
        BindView::Text(operation_id),
        BindView::Text(
            state_name(
                if item.send_now {
                    OutboxState::Pending
                } else {
                    OutboxState::Draft
                },
            ),
        ),
        int_bind(item.mailbox_id),
        BindView::Text(item.from_address@),
        BindView::Text(strings_text(views(item.to@))),
        BindView::Text(strings_text(views(item.cc@))),
        BindView::Text(strings_text(views(item.bcc@))),
        BindView::Text(item.subject@),
        text_bind(item.text_body),
        text_bind(item.html_body),
        BindView::Text(numbers_text(item.attachment_ids@)),
        text_bind(item.in_reply_to),
        BindView::Text(strings_text(views(item.references@))),
        BindView::Text(now),
        BindView::Text(now),
    ]
}

/// The parameters that move an item.
pub open spec fn move_binds(id: int, next: OutboxState, now: Seq<char>) -> Seq<BindView> {
    seq![BindView::Text(state_name(next)), BindView::Text(now), BindView::Int(id)]
}

/// The parameters that record a failed attempt.
pub open spec fn attempt_binds(id: int, next: OutboxState, error: Seq<char>, now: Seq<char>) -> Seq<
    BindView,
> {
    seq![
        BindView::Text(state_name(next)),
        BindView::Text(error),
        BindView::Text(now),
        BindView::Int(id),
    ]
}

/// The parameters that record that the server accepted an item.
pub open spec fn sent_binds(
    id: int,
    server_message_id: Option<i64>,
    queued_recipients: Option<i64>,
    now: Seq<char>,
) -> Seq<BindView> {
    seq![
        int_bind(server_message_id),
        int_bind(queued_recipients),
        BindView::Text(now),
        BindView::Text(now),
        BindView::Int(id),
    ]
}

/// The parameters that edit an item.
pub open spec fn edit_binds(
    id: int,
    subject: Seq<char>,
    text_body: Option<String>,
    html_body: Option<String>,
    to: Seq<Seq<char>>,
    now: Seq<char>,
) -> Seq<BindView> {
    seq![
        BindView::Text(subject),
        text_bind(text_body),
        text_bind(html_body),
        BindView::Text(strings_text(to)),
        BindView::Text(now),
        BindView::Int(id),
    ]
}

/// Whether an item in this state may be edited.
pub open spec fn editable(state: OutboxState) -> bool {
    state == OutboxState::Draft || state == OutboxState::Failed
}

/// Whether the server's acceptance of an item in this state is recorded.
pub open spec fn acceptable(state: OutboxState) -> bool {
    state == OutboxState::Sending || state == OutboxState::Queued
}

/// Whether the list columns of an item read back as the lists.
pub open spec fn lists_read_back(item: NewOutboxItem) -> bool {
    &&& stored_strings(strings_text(views(item.to@))) == views(item.to@)
    &&& stored_strings(strings_text(views(item.cc@))) == views(item.cc@)
    &&& stored_strings(strings_text(views(item.bcc@))) == views(item.bcc@)
    &&& stored_strings(strings_text(views(item.references@))) == views(item.references@)
    &&& stored_numbers(numbers_text(item.attachment_ids@)) == item.attachment_ids@.map_values(
        |n: i64| n as int,
    )
}

/// Where a failed attempt leaves an item: retrying when the failure is temporary
/// and that can be reached, failed when that can be reached, else where it was.
pub open spec fn state_after_failure(state: OutboxState, retryable: bool) -> OutboxState {
    if retryable && legal(state, OutboxState::Retrying) {
        OutboxState::Retrying
    } else if legal(state, OutboxState::Failed) {
        OutboxState::Failed
    } else {
        state
    }
}

/// What recording an acceptance comes to.
#[derive(Debug, Clone, PartialEq, Eq)]
pub enum Acceptance {
    /// The item is already sent: a replay of the same send changes nothing.
    AlreadySent,
    /// The item becomes sent, by this statement.
    NowSent(Statement),
}

/// The persisted outbox: what each change of it comes to, given what is stored.
#[derive(Debug, Clone, Copy, PartialEq, Eq, Structural)]
pub struct Outbox;

impl Outbox {
    /// The statement that puts a message in the outbox under its idempotency key.
    ///
    /// The row is committed **before** anything touches the network, which is what
    /// makes "nothing the user typed is lost" true across a crash.
    pub fn enqueue_with_id(item: &NewOutboxItem, operation_id: &str, now: &str) -> (result:
        ClientResult<Statement>)
        ensures
            result is Ok,
            result->Ok_0.stands_for(INSERT_ITEM@, insert_binds(*item, operation_id@, now@)),
            lists_read_back(*item),
    {
        let to = store_list(&item.to)?;
        let cc = store_list(&item.cc)?;
        let bcc = store_list(&item.bcc)?;
        let attachment_ids = store_ids(&item.attachment_ids)?;
        let references = store_list(&item.references)?;
        let state = item.initial_state();
        Ok(
            Statement::new(INSERT_ITEM).bind(Bind::Int(item.account_id)).bind(
                Bind::text(operation_id),
            ).bind(Bind::text(state.as_str())).bind(Bind::int_if(item.mailbox_id)).bind(
                Bind::text(item.from_address.as_str()),
            ).bind(Bind::Text(to)).bind(Bind::Text(cc)).bind(Bind::Text(bcc)).bind(
                Bind::text(item.subject.as_str()),
            ).bind(Bind::text_if(&item.text_body)).bind(Bind::text_if(&item.html_body)).bind(
                Bind::Text(attachment_ids),
            ).bind(Bind::text_if(&item.in_reply_to)).bind(Bind::Text(references)).bind(
                Bind::text(now),
            ).bind(Bind::text(now)),
        )
    }

    /// Move item `id`, whose stored state is `current`, to `next`, refusing illegal
    /// transitions. The statement belongs in one transaction with the read of the
    /// state, so two concurrent senders cannot both drive the same row.
    pub fn transition(id: i64, current: Option<&str>, next: OutboxState, now: &str) -> (result:
        ClientResult<Statement>)
        ensures
            match current {
                None => result matches Err(ClientError::NotFound(m)) && m@ == no_item(id as int),
                Some(raw) => match state_named(raw@) {
                    None => result matches Err(ClientError::Cache(m)) && m@ == unknown_state(raw@),
                    Some(from) => if legal(from, next) {
                        result is Ok && result->Ok_0.stands_for(
                            MOVE_ITEM@,
                            move_binds(id as int, next, now@),
                        )
                    } else {
                        result matches Err(ClientError::Conflict(m)) && m@ == refused_transition(
                            from,
                            next,
                        )
                    },
                },
            },
    {
        let raw = match current {
            Some(raw) => raw,
            None => {
                return Err(missing(id));
            },
        };
        let from = match OutboxState::parse(raw) {
            Ok(from) => from,
            Err(error) => {
                return Err(error);
            },
        };
        if from.can_transition_to(next) {
            Ok(
                Statement::new(MOVE_ITEM).bind(Bind::text(next.as_str())).bind(Bind::text(now)).bind(
                    Bind::Int(id),
                ),
            )
        } else {
            Err(refused(from, next))
        }
    }

    /// Record a failed attempt of item `id`, which is in `state`: where it is left,
    /// and the statement that says so.
    pub fn record_failure(
        id: i64,
        state: Option<OutboxState>,
        error: &str,
        retryable: bool,
        now: &str,
    ) -> (result: ClientResult<(OutboxState, Statement)>)
        ensures
            match state {
                None => result matches Err(ClientError::NotFound(m)) && m@ == no_item(id as int),
                Some(state) => {
                    let next = state_after_failure(state, retryable);
                    &&& result is Ok
                    &&& result->Ok_0.0 == next
                    &&& result->Ok_0.1.stands_for(
                        RECORD_ATTEMPT@,
                        attempt_binds(id as int, next, error@, now@),
                    )
                },
            },
    {
        let state = match state {
            Some(state) => state,
            None => {
                return Err(missing(id));
            },
        };
        let wanted = if retryable {
            OutboxState::Retrying
        } else {
            OutboxState::Failed
        };
        let next = if state.can_transition_to(wanted) {
            wanted
        } else if state.can_transition_to(OutboxState::Failed) {
            // `Retrying` cannot be reached from every state.
            OutboxState::Failed
        } else {
            state
        };
        let statement = Statement::new(RECORD_ATTEMPT).bind(Bind::text(next.as_str())).bind(
            Bind::text(error),
        ).bind(Bind::text(now)).bind(Bind::Int(id));
        Ok((next, statement))
    }

    /// Record that the server accepted item `id`, whose stored state is `current`.
    ///
    /// Legal from `Sending` and, as a short cut, from `Queued`; a `Sent` row stays
    /// as it is.
    pub fn mark_sent(
        id: i64,
        current: Option<&str>,
        server_message_id: Option<i64>,
        queued_recipients: Option<i64>,
        now: &str,
    ) -> (result: ClientResult<Acceptance>)
        ensures
            match current {
                None => result matches Err(ClientError::NotFound(m)) && m@ == no_item(id as int),
                Some(raw) => match state_named(raw@) {
                    None => result matches Err(ClientError::Cache(m)) && m@ == unknown_state(raw@),
                    Some(OutboxState::Sent) => result == ClientResult::<Acceptance>::Ok(
                        Acceptance::AlreadySent,
                    ),
                    Some(from) => if acceptable(from) {
                        result matches Ok(Acceptance::NowSent(statement)) && statement.stands_for(
                            RECORD_SENT@,
                            sent_binds(id as int, server_message_id, queued_recipients, now@),
                        )
                    } else {
                        result matches Err(ClientError::Conflict(m)) && m@ == refused_transition(
                            from,
                            OutboxState::Sent,
                        )
                    },
                },
            },
    {
        let raw = match current {
            Some(raw) => raw,
            None => {
                return Err(missing(id));
            },
        };
        let from = match OutboxState::parse(raw) {
            Ok(from) => from,
            Err(error) => {
                return Err(error);
            },
        };
        if from == OutboxState::Sent {
            Ok(Acceptance::AlreadySent)
        } else if from.can_transition_to(OutboxState::Sent) || from == OutboxState::Queued {
            Ok(
                Acceptance::NowSent(
                    Statement::new(RECORD_SENT).bind(Bind::int_if(server_message_id)).bind(
                        Bind::int_if(queued_recipients),
                    ).bind(Bind::text(now)).bind(Bind::text(now)).bind(Bind::Int(id)),
                ),
            )
        } else {
            Err(refused(from, OutboxState::Sent))
        }
    }

    /// Edit item `id`, which is in `state`. Only `Draft` and `Failed` are editable,
    /// so a half-sent message can never change under the sender's feet.
    pub fn update_draft(
        id: i64,
        state: Option<OutboxState>,
        subject: &str,
        text_body: &Option<String>,
        html_body: &Option<String>,
        to: &Vec<String>,
        now: &str,
    ) -> (result: ClientResult<Statement>)
        ensures
            match state {
                None => result matches Err(ClientError::NotFound(m)) && m@ == no_item(id as int),
                Some(state) => if editable(state) {
                    &&& result is Ok
                    &&& result->Ok_0.stands_for(
                        EDIT_ITEM@,
                        edit_binds(id as int, subject@, *text_body, *html_body, views(to@), now@),
                    )
                    &&& stored_strings(strings_text(views(to@))) == views(to@)
                } else {
                    result matches Err(ClientError::Conflict(m)) && m@
                        == "an outbox item in state "@ + state_name(state)
                        + " is no longer editable"@
                },
            },
    {
        match state {
            None => Err(missing(id)),
            Some(state) => if state == OutboxState::Draft || state == OutboxState::Failed {
                let recipients = store_list(to)?;
                Ok(
                    Statement::new(EDIT_ITEM).bind(Bind::text(subject)).bind(
                        Bind::text_if(text_body),
                    ).bind(Bind::text_if(html_body)).bind(Bind::Text(recipients)).bind(
                        Bind::text(now),
                    ).bind(Bind::Int(id)),
                )
            } else {
                Err(
                    ClientError::Conflict(
                        concat3(
                            "an outbox item in state ",
                            state.as_str(),
                            " is no longer editable",
                        ),
                    ),
                )
            },
        }
    }

    /// The items of some rows that a restart has to pick up again, in their order:
    /// `Sent` is history and `Failed` is waiting for the user.
    pub fn resumable(items: Vec<OutboxItem>) -> (result: Vec<OutboxItem>)
        ensures
            result@ == items@.filter(|item: OutboxItem| resumes(item.state)),
    {
        let ghost all = items@;
        let mut out: Vec<OutboxItem> = Vec::new();
        for item in it: items.into_iter()
            invariant
                it.seq() == all,
                out@ == all.take(it.index() as int).filter(|item: OutboxItem| resumes(item.state)),
        {
            proof {
                let next = all.take(it.index() + 1);
                assert(next.drop_last() =~= all.take(it.index() as int));
                assert(next.last() == item);
                reveal(Seq::filter);
            }
            if item.state.needs_resume() {
                out.push(item);
            }
        }
        proof {
            assert(all.take(all.len() as int) =~= all);
        }
        out
    }
}

/// Whether a restart picks up an item in this state.
pub open spec fn resumes(state: OutboxState) -> bool {
    state != OutboxState::Sent && state != OutboxState::Failed
}

// -- laws ------------------------------------------------------------------

/// A change is for the item that it was asked for and for no other: the last parameter, the one
/// that picks the row, is that item's id. And every parameter is of the kind that its column
/// holds, so that none of them is refused or stored as something else.
pub proof fn law_a_change_picks_its_item(
    id: int,
    next: OutboxState,
    texts: (Seq<char>, Seq<char>),
    numbers: (Option<i64>, Option<i64>),
    bodies: (Option<String>, Option<String>),
    to: Seq<Seq<char>>,
    item: NewOutboxItem,
)
    ensures
        ({
            let moved = move_binds(id, next, texts.1);
            let attempt = attempt_binds(id, next, texts.0, texts.1);
            let sent = sent_binds(id, numbers.0, numbers.1, texts.1);
            let edit = edit_binds(id, texts.0, bodies.0, bodies.1, to, texts.1);
            &&& moved.len() == 3 && moved.last() == BindView::Int(id)
            &&& moved[0] is Text && moved[1] is Text
            &&& attempt.len() == 4 && attempt.last() == BindView::Int(id)
            &&& attempt[0] is Text && attempt[1] is Text && attempt[2] is Text
            &&& sent.len() == 5 && sent.last() == BindView::Int(id)
            &&& sent[0] !is Text && sent[1] !is Text && sent[2] is Text && sent[3] is Text
            &&& edit.len() == 6 && edit.last() == BindView::Int(id)
            &&& edit[0] is Text && edit[1] !is Int && edit[2] !is Int
            &&& edit[3] is Text && edit[4] is Text
        }),
        ({
            let insert = insert_binds(item, texts.0, texts.1);
            &&& insert.len() == 16 && insert[0] is Int && insert[1] is Text && insert[2] is Text
            &&& insert[3] !is Text && insert[4] is Text && insert[5] is Text && insert[6] is Text
            &&& insert[7] is Text && insert[8] is Text && insert[9] !is Int && insert[10] !is Int
            &&& insert[11] is Text && insert[12] !is Int && insert[13] is Text
            &&& insert[14] is Text && insert[15] is Text
        }),
{
}

/// A failure only ever takes a legal step, and it never touches a sent message, a
/// draft or one that has already failed.
pub proof fn law_failures_take_legal_steps(state: OutboxState, retryable: bool)
    ensures
        state_after_failure(state, retryable) == state || legal(
            state,
            state_after_failure(state, retryable),
        ),
        state == OutboxState::Sent || state == OutboxState::Draft || state == OutboxState::Failed
            ==> state_after_failure(state, retryable) == state,
        !retryable ==> state_after_failure(state, retryable) != OutboxState::Retrying || state
            == OutboxState::Retrying,
{
}

/// Whether a message has been handed over to be sent and has not got there yet.
pub open spec fn on_its_way(state: OutboxState) -> bool {
    state != OutboxState::Draft && state != OutboxState::Sent && state != OutboxState::Failed
}

/// A failure is never passed over. A permanent one leaves the item in `Failed` whenever that
/// can be reached, so that the user sees it and can edit it, and a restart leaves it alone; a
/// temporary one leaves it in `Retrying` whenever that can be reached, and in `Failed`
/// otherwise. The item stays where it was only if neither can be reached.
pub proof fn law_a_failure_shows(state: OutboxState, retryable: bool)
    ensures
        ({
            let next = state_after_failure(state, retryable);
            let can_retry = legal(state, OutboxState::Retrying);
            let can_fail = legal(state, OutboxState::Failed);
            &&& !retryable && can_fail ==> next == OutboxState::Failed && !resumes(next)
            &&& retryable && can_retry ==> next == OutboxState::Retrying && resumes(next)
            &&& retryable && !can_retry && can_fail ==> next == OutboxState::Failed
            &&& next == state ==> !can_fail && !(retryable && can_retry)
        }),
        on_its_way(state) ==> state_after_failure(state, false) == OutboxState::Failed,
        !on_its_way(state) ==> state_after_failure(state, retryable) == state,
{
}

/// Whether the columns of `row` are the parameters that put it in the outbox.
pub open spec fn row_inserted(row: OutboxRow, binds: Seq<BindView>) -> bool {
    &&& binds[0] == BindView::Int(row.account_id as int)
    &&& binds[1] == BindView::Text(row.operation_id@)
    &&& binds[2] == BindView::Text(row.state@)
    &&& binds[3] == int_bind(row.mailbox_id)
    &&& binds[4] == BindView::Text(row.from_address@)
    &&& binds[5] == BindView::Text(row.to_json@)
    &&& binds[6] == BindView::Text(row.cc_json@)
    &&& binds[7] == BindView::Text(row.bcc_json@)
    &&& binds[8] == BindView::Text(row.subject@)
    &&& binds[9] == text_bind(row.text_body)
    &&& binds[10] == text_bind(row.html_body)
    &&& binds[11] == BindView::Text(row.attachment_ids_json@)
    &&& binds[12] == text_bind(row.in_reply_to)
    &&& binds[13] == BindView::Text(row.references_json@)
    &&& binds[14] == BindView::Text(row.created_at@)
    &&& binds[15] == BindView::Text(row.updated_at@)
    &&& row.attempts == 0
}

/// Nothing the user typed is lost across a crash: the item that is read from the row
/// that an enqueue left is the message that was put in, under the same idempotency
/// key, and a restart picks it up. That the lists read back is what every enqueue
/// promises.
pub proof fn law_a_queued_message_survives(
    item: OutboxItem,
    row: OutboxRow,
    content: NewOutboxItem,
    operation_id: Seq<char>,
    written_at: Seq<char>,
    now: Timestamp,
)
    requires
        lists_read_back(content),
        row_inserted(row, insert_binds(content, operation_id, written_at)),
        item_of_row(item, row, now),
    ensures
        item.account_id == content.account_id,
        item.operation_id@ == operation_id,
        item.state == (if content.send_now {
            OutboxState::Pending
        } else {
            OutboxState::Draft
        }),
        resumes(item.state),
        item.mailbox_id == content.mailbox_id,
        item.from_address@ == content.from_address@,
        views(item.to@) == views(content.to@),
        views(item.cc@) == views(content.cc@),
        views(item.bcc@) == views(content.bcc@),
        item.subject@ == content.subject@,
        opt_view(item.text_body) == opt_view(content.text_body),
        opt_view(item.html_body) == opt_view(content.html_body),
        item.attachment_ids@ == content.attachment_ids@,
        opt_view(item.in_reply_to) == opt_view(content.in_reply_to),
        views(item.references@) == views(content.references@),
        item.attempts == 0,
{
    law_state_names_round_trip(OutboxState::Pending);
    law_state_names_round_trip(OutboxState::Draft);
    let a = item.attachment_ids@;
    let b = content.attachment_ids@;
    assert(a.map_values(|n: i64| n as int) == b.map_values(|n: i64| n as int));
    assert(a.len() == a.map_values(|n: i64| n as int).len());
    assert(b.len() == b.map_values(|n: i64| n as int).len());
    assert forall|i: int| 0 <= i < a.len() implies a[i] == b[i] by {
        assert(a.map_values(|n: i64| n as int)[i] == a[i] as int);
        assert(b.map_values(|n: i64| n as int)[i] == b[i] as int);
    }
    assert(a =~= b);
}

/// Whether `after` is what an edit with these parameters makes of the row `before`.
pub open spec fn row_edited(before: OutboxRow, after: OutboxRow, binds: Seq<BindView>) -> bool {
    &&& binds[0] == BindView::Text(after.subject@)
    &&& binds[1] == text_bind(after.text_body)
    &&& binds[2] == text_bind(after.html_body)
    &&& binds[3] == BindView::Text(after.to_json@)
    &&& binds[4] == BindView::Text(after.updated_at@)
    &&& binds[5] == BindView::Int(before.id as int)
    &&& after == OutboxRow {
        subject: after.subject,
        text_body: after.text_body,
        html_body: after.html_body,
        to_json: after.to_json,
        updated_at: after.updated_at,
        ..before
    }
}

/// An edit changes the subject, the two bodies and the recipients to what was typed, each in
/// its own place, and leaves everything else of the item as it was, its state and its
/// idempotency key included.
pub proof fn law_an_edit_reaches_the_item(
    before: OutboxRow,
    after: OutboxRow,
    old_item: OutboxItem,
    item: OutboxItem,
    subject: Seq<char>,
    text_body: Option<String>,
    html_body: Option<String>,
    to: Seq<Seq<char>>,
    written_at: Seq<char>,
    now: Timestamp,
)
    requires
        stored_strings(strings_text(to)) == to,
        row_edited(
            before,
            after,
            edit_binds(before.id as int, subject, text_body, html_body, to, written_at),
        ),
        item_of_row(old_item, before, now),
        item_of_row(item, after, now),
    ensures
        item.subject@ == subject,
        opt_view(item.text_body) == opt_view(text_body),
        opt_view(item.html_body) == opt_view(html_body),
        views(item.to@) == to,
        item.updated_at == time_or(written_at, now),
        item.id == old_item.id,
        item.account_id == old_item.account_id,
        item.operation_id == old_item.operation_id,
        item.state == old_item.state,
        item.mailbox_id == old_item.mailbox_id,
        item.from_address == old_item.from_address,
        views(item.cc@) == views(old_item.cc@),
        views(item.bcc@) == views(old_item.bcc@),
        item.in_reply_to == old_item.in_reply_to,
        views(item.references@) == views(old_item.references@),
        item.created_at == old_item.created_at,
        item.attempts == old_item.attempts,
        item.last_error == old_item.last_error,
        item.server_message_id == old_item.server_message_id,
        item.queued_recipients == old_item.queued_recipients,
        item.sent_at == old_item.sent_at,
{
}

/// Whether `after` is what recording an attempt with these parameters makes of the row
/// `before`.
pub open spec fn row_attempted(before: OutboxRow, after: OutboxRow, binds: Seq<BindView>) -> bool {
    &&& binds[0] == BindView::Text(after.state@)
    &&& binds[1] == text_bind(after.last_error)
    &&& binds[2] == BindView::Text(after.updated_at@)
    &&& binds[3] == BindView::Int(before.id as int)
    &&& after.attempts == before.attempts + 1
    &&& after == OutboxRow {
        state: after.state,
        attempts: after.attempts,
        last_error: after.last_error,
        updated_at: after.updated_at,
        ..before
    }
}

/// A failed attempt is remembered with its reason and counted, and the message stays whole: a
/// failure that was on its way is read back as failed or as retrying, with the same text and the
/// same recipients.
pub proof fn law_a_failed_attempt_keeps_the_message(
    before: OutboxRow,
    after: OutboxRow,
    old_item: OutboxItem,
    item: OutboxItem,
    retryable: bool,
    error: Seq<char>,
    written_at: Seq<char>,
    now: Timestamp,
)
    requires
        0 <= before.attempts < u32::MAX,
        item_of_row(old_item, before, now),
        row_attempted(
            before,
            after,
            attempt_binds(
                before.id as int,
                state_after_failure(old_item.state, retryable),
                error,
                written_at,
            ),
        ),
        item_of_row(item, after, now),
    ensures
        opt_view(item.last_error) == Some(error),
        item.attempts == old_item.attempts + 1,
        on_its_way(old_item.state) && !retryable ==> item.state == OutboxState::Failed,
        on_its_way(old_item.state) && retryable ==> item.state == OutboxState::Retrying
            || item.state == OutboxState::Failed,
        !on_its_way(old_item.state) ==> item.state == old_item.state,
        item.updated_at == time_or(written_at, now),
        item.id == old_item.id,
        item.account_id == old_item.account_id,
        item.operation_id == old_item.operation_id,
        item.from_address == old_item.from_address,
        views(item.to@) == views(old_item.to@),
        views(item.cc@) == views(old_item.cc@),
        views(item.bcc@) == views(old_item.bcc@),
        item.subject == old_item.subject,
        item.text_body == old_item.text_body,
        item.html_body == old_item.html_body,
        item.created_at == old_item.created_at,
{
    law_state_names_round_trip(state_after_failure(old_item.state, retryable));
    law_a_failure_shows(old_item.state, retryable);
}

/// Whether `after` is what moving an item with these parameters makes of the row `before`.
pub open spec fn row_moved(before: OutboxRow, after: OutboxRow, binds: Seq<BindView>) -> bool {
    &&& binds[0] == BindView::Text(after.state@)
    &&& binds[1] == BindView::Text(after.updated_at@)
    &&& binds[2] == BindView::Int(before.id as int)
    &&& after == OutboxRow { state: after.state, updated_at: after.updated_at, ..before }
}

/// Whether `after` is what recording an acceptance with these parameters makes of the row
/// `before`.
pub open spec fn row_sent(before: OutboxRow, after: OutboxRow, binds: Seq<BindView>) -> bool {
    &&& after.state@ == "sent"@
    &&& binds[0] == int_bind(after.server_message_id)
    &&& binds[1] == int_bind(after.queued_recipients)
    &&& binds[2] == text_bind(after.sent_at)
    &&& binds[3] == BindView::Text(after.updated_at@)
    &&& binds[4] == BindView::Int(before.id as int)
    &&& after.last_error is None
    &&& after == OutboxRow {
        state: after.state,
        server_message_id: after.server_message_id,
        queued_recipients: after.queued_recipients,
        sent_at: after.sent_at,
        updated_at: after.updated_at,
        last_error: after.last_error,
        ..before
    }
}

/// A moved item is read back in the state it was moved to, and an accepted one as sent, with
/// the server's id for the stored copy and its count of recipients, each in its own place, and
/// with no failure left to show; the message itself is untouched by both.
pub proof fn law_a_move_and_an_acceptance_show(
    before: OutboxRow,
    moved: OutboxRow,
    accepted: OutboxRow,
    old_item: OutboxItem,
    moved_item: OutboxItem,
    accepted_item: OutboxItem,
    next: OutboxState,
    server_message_id: Option<i64>,
    queued_recipients: Option<i64>,
    written_at: Seq<char>,
    now: Timestamp,
)
    requires
        item_of_row(old_item, before, now),
        row_moved(before, moved, move_binds(before.id as int, next, written_at)),
        item_of_row(moved_item, moved, now),
        row_sent(
            before,
            accepted,
            sent_binds(before.id as int, server_message_id, queued_recipients, written_at),
        ),
        item_of_row(accepted_item, accepted, now),
    ensures
        moved_item.state == next,
        moved_item.last_error == old_item.last_error,
        moved_item.attempts == old_item.attempts,
        accepted_item.state == OutboxState::Sent,
        accepted_item.server_message_id == server_message_id,
        accepted_item.queued_recipients == queued_recipients,
        accepted_item.sent_at == rfc3339_time(written_at),
        accepted_item.last_error is None,
        forall|item: OutboxItem|
            #![trigger item.operation_id]
            item == moved_item || item == accepted_item ==> {
                &&& item.id == old_item.id
                &&& item.operation_id == old_item.operation_id
                &&& item.from_address == old_item.from_address
                &&& views(item.to@) == views(old_item.to@)
                &&& views(item.cc@) == views(old_item.cc@)
                &&& views(item.bcc@) == views(old_item.bcc@)
                &&& item.subject == old_item.subject
                &&& item.text_body == old_item.text_body
                &&& item.html_body == old_item.html_body
                &&& item.created_at == old_item.created_at
                &&& item.updated_at == time_or(written_at, now)
            },
{
    law_state_names_round_trip(next);
    law_state_names_round_trip(OutboxState::Sent);
}

/// The user may edit exactly what they may send again, which is never a message that is on its
/// way or sent; an acceptance is recorded only for what has been handed to the server, where the
/// last step to `Sent` is one or two legal ones.
pub proof fn law_who_may_change_an_item(state: OutboxState)
    ensures
        editable(state) <==> legal(state, OutboxState::Pending),
        editable(state) <==> !on_its_way(state) && state != OutboxState::Sent,
        acceptable(state) ==> on_its_way(state) && !editable(state),
        acceptable(state) <==> legal(state, OutboxState::Sent) || (legal(
            state,
            OutboxState::Sending,
        ) && legal(state, OutboxState::Draft)),
        resumes(state) <==> state == OutboxState::Draft || on_its_way(state),
{
}

/// A refusal names the state that the item is in and the one that it was to go to, in this order;
/// and a line about an item begins with its subject, unless that is blank, and ends with its
/// recipients.
pub proof fn law_messages_name_what_they_are_about(
    from: OutboxState,
    to: OutboxState,
    subject: Seq<char>,
    recipients: Seq<Seq<char>>,
)
    ensures
        begins_with(refused_transition(from, to), "an outbox item cannot go from "@ + state_name(from)),
        finishes_with(refused_transition(from, to), " to "@ + state_name(to)),
        trimmed(subject).len() > 0 ==> begins_with(item_summary(subject, recipients), subject),
        trimmed(subject).len() == 0 ==> begins_with(
            item_summary(subject, recipients),
            "(no subject)"@,
        ),
        finishes_with(item_summary(subject, recipients), joined(recipients, ", "@)),
{
    reveal_strlit("(no subject)");
    reveal_strlit("(no subject) \u{2192} ");
    let refusal = refused_transition(from, to);
    let head = "an outbox item cannot go from "@ + state_name(from);
    let tail = " to "@ + state_name(to);
    assert(refusal.subrange(0, head.len() as int) =~= head);
    assert(refusal.subrange(refusal.len() - tail.len(), refusal.len() as int) =~= tail);
    let line = item_summary(subject, recipients);
    let end = joined(recipients, ", "@);
    assert(line.subrange(line.len() - end.len(), line.len() as int) =~= end);
    if trimmed(subject).len() > 0 {
        assert(line.subrange(0, subject.len() as int) =~= subject);
    } else {
        assert(line.subrange(0, 12) =~= "(no subject)"@);
    }
}

/// Each state is counted apart, and what counts as on its way is what the pipeline says is: one
/// more message in a state adds one to it exactly if that state is on its way.
pub proof fn law_states_are_counted_apart(
    counts: OutboxCounts,
    state: OutboxState,
    other: OutboxState,
    n: i64,
)
    ensures
        counts.replaced(state, n).of(state) == n,
        state != other ==> counts.replaced(state, n).of(other) == counts.of(other),
        counts.replaced(state, n).on_its_way() - counts.on_its_way() == (if on_its_way(state) {
            n - counts.of(state)
        } else {
            0
        }),
        zero_counts().of(state) == 0,
        zero_counts().on_its_way() == 0,
{
}

/// Whether every row names a state.
pub open spec fn all_named(rows: Seq<(String, i64)>) -> bool {
    forall|i: int| 0 <= i < rows.len() ==> state_named((#[trigger] rows[i]).0@) is Some
}

/// Whether no row names the state.
pub open spec fn none_named(rows: Seq<(String, i64)>, state: OutboxState) -> bool {
    forall|i: int| 0 <= i < rows.len() ==> state_named((#[trigger] rows[i]).0@) != Some(state)
}

/// What no row names keeps its count. Rows that all name a state are all taken.
pub proof fn law_what_no_row_names_keeps_its_count(
    counts: OutboxCounts,
    rows: Seq<(String, i64)>,
    state: OutboxState,
)
    requires
        all_named(rows),
    ensures
        counts.counted(rows) is Ok,
        none_named(rows, state) ==> counts.counted(rows)->Ok_0.of(state) == counts.of(state),
    decreases rows.len(),
{
    if rows.len() > 0 {
        let rest = rows.drop_first();
        let first = state_named(rows[0].0@);
        assert(first is Some);
        assert(all_named(rest)) by {
            assert forall|i: int| 0 <= i < rest.len() implies state_named((#[trigger] rest[i]).0@)
                is Some by {
                assert(rest[i] == rows[i + 1]);
            }
        }
        law_what_no_row_names_keeps_its_count(
            counts.replaced(first->0, rows[0].1),
            rest,
            state,
        );
        if none_named(rows, state) {
            assert(none_named(rest, state)) by {
                assert forall|i: int| 0 <= i < rest.len() implies state_named(
                    (#[trigger] rest[i]).0@,
                ) != Some(state) by {
                    assert(rest[i] == rows[i + 1]);
                }
            }
            assert(first != Some(state));
            law_states_are_counted_apart(counts, first->0, state, rows[0].1);
        }
    }
}

/// A count is the number of the row that names its state, the last one that does.
pub proof fn law_counts_are_the_rows(
    counts: OutboxCounts,
    rows: Seq<(String, i64)>,
    state: OutboxState,
    i: int,
)
    requires
        all_named(rows),
        0 <= i < rows.len(),
        state_named(rows[i].0@) == Some(state),
        none_named(rows.skip(i + 1), state),
    ensures
        counts.counted(rows) is Ok,
        counts.counted(rows)->Ok_0.of(state) == rows[i].1,
    decreases rows.len(),
{
    let rest = rows.drop_first();
    let first = state_named(rows[0].0@);
    assert(first is Some);
    let next = counts.replaced(first->0, rows[0].1);
    assert(all_named(rest)) by {
        assert forall|k: int| 0 <= k < rest.len() implies state_named((#[trigger] rest[k]).0@)
            is Some by {
            assert(rest[k] == rows[k + 1]);
        }
    }
    if i == 0 {
        assert(rows.skip(1) =~= rest);
        law_what_no_row_names_keeps_its_count(next, rest, state);
        law_states_are_counted_apart(counts, state, state, rows[0].1);
    } else {
        assert(rest[i - 1] == rows[i]);
        assert(rest.skip(i) =~= rows.skip(i + 1));
        law_counts_are_the_rows(next, rest, state, i - 1);
    }
}

// -- reading ---------------------------------------------------------------

/// Selects one item.
pub const SELECT_ITEM: &'static str =
    "SELECT * FROM outbox WHERE id = ?";

/// Selects one item by its idempotency key.
pub const SELECT_BY_OPERATION: &'static str =
    "SELECT * FROM outbox WHERE operation_id = ?";

/// Lists an outbox, newest first.
pub const SELECT_ITEMS: &'static str =
    "SELECT * FROM outbox WHERE account_id = ? ORDER BY id DESC";

/// Lists the items in one state, oldest first.
pub const SELECT_IN_STATE: &'static str =
    "SELECT * FROM outbox WHERE account_id = ? AND state = ? ORDER BY id ASC";

/// Lists the items that a restart picks up, oldest first.
pub const SELECT_RESUMABLE: &'static str =
    "SELECT * FROM outbox WHERE account_id = ? AND state NOT IN ('sent', 'failed') ORDER BY id ASC";

/// Forgets an item.
pub const REMOVE_ITEM: &'static str =
    "DELETE FROM outbox WHERE id = ?";

/// Counts the items in each state.
pub const COUNT_ITEMS: &'static str =
    "SELECT state, COUNT(*) AS n FROM outbox WHERE account_id = ? GROUP BY state";

impl Outbox {
    /// The statement that selects one item by row id.
    pub fn get(id: i64) -> (result: Statement)
        ensures
            result.stands_for(SELECT_ITEM@, seq![BindView::Int(id as int)]),
    {
        Statement::new(SELECT_ITEM).bind(Bind::Int(id))
    }

    /// The statement that selects one item by its idempotency key.
    pub fn find_by_operation(operation_id: &str) -> (result: Statement)
        ensures
            result.stands_for(SELECT_BY_OPERATION@, seq![BindView::Text(operation_id@)]),
    {
        Statement::new(SELECT_BY_OPERATION).bind(Bind::text(operation_id))
    }

    /// The statement that lists everything in the outbox, newest first.
    pub fn list(account_id: i64) -> (result: Statement)
        ensures
            result.stands_for(SELECT_ITEMS@, seq![BindView::Int(account_id as int)]),
    {
        Statement::new(SELECT_ITEMS).bind(Bind::Int(account_id))
    }

    /// The statement that lists everything in one state, oldest first: the order it must
    /// be sent in.
    pub fn list_in_state(account_id: i64, state: OutboxState) -> (result: Statement)
        ensures
            result.stands_for(
                SELECT_IN_STATE@,
                seq![BindView::Int(account_id as int), BindView::Text(state_name(state))],
            ),
    {
        Statement::new(SELECT_IN_STATE).bind(Bind::Int(account_id)).bind(Bind::text(state.as_str()))
    }

    /// The statement that lists what a restart has to pick up again, oldest first.
    pub fn select_resumable(account_id: i64) -> (result: Statement)
        ensures
            result.stands_for(SELECT_RESUMABLE@, seq![BindView::Int(account_id as int)]),
    {
        Statement::new(SELECT_RESUMABLE).bind(Bind::Int(account_id))
    }

    /// The statement that forgets an item for good.
    pub fn remove(id: i64) -> (result: Statement)
        ensures
            result.stands_for(REMOVE_ITEM@, seq![BindView::Int(id as int)]),
    {
        Statement::new(REMOVE_ITEM).bind(Bind::Int(id))
    }

    /// The statement that counts the items in each state.
    pub fn counts(account_id: i64) -> (result: Statement)
        ensures
            result.stands_for(COUNT_ITEMS@, seq![BindView::Int(account_id as int)]),
    {
        Statement::new(COUNT_ITEMS).bind(Bind::Int(account_id))
    }
}

} // verus!
