//! Push notifications: what a realtime event is worth telling the user.
//!
//! A frame becomes a [`Notification`], a [`NotificationPolicy`] says whether it is
//! shown at all, and a [`Notifier`] takes it from there. The core never draws a
//! toast; a shell does.
//!
//! A `mail.received` frame carries the sender, the subject and a snippet and never
//! a body, so a banner cannot leak message content: it is built from the sender and
//! the subject alone.

use vstd::prelude::*;

use crate::events::opt_int;
use crate::database::{int_bind, text_bind, Bind, BindView, Statement};
use crate::json::{option_view, Json, JsonView};
use crate::text::{begins_with, copy_opt, finishes_with, opt_view, same, starts_with, trim, trimmed};
use crate::time::{parse_rfc3339, rfc3339_time, Timestamp};

verus! {

/// What kind of thing happened.
///
/// [`NotificationKind::Other`] keeps the raw event name, so a server that grows a
/// new event is still announced rather than silently dropped.
#[derive(Debug, Clone, PartialEq, Eq)]
pub enum NotificationKind {
    /// A message arrived in a mailbox (`mail.received`).
    MailReceived,
    /// A message's flags changed (`mail.flag_changed`).
    MailFlagChanged,
    /// A message was deleted (`mail.deleted`).
    MailDeleted,
    /// A message moved between folders (`mail.moved`).
    MailMoved,
    /// A draft was updated (`draft.updated`).
    DraftUpdated,
    /// The delivery state of an outgoing message changed (`delivery.updated`).
    DeliveryUpdated,
    /// This device was revoked (`device.revoked`).
    DeviceRevoked,
    /// The event bus dropped frames for this subscriber; the client must run a sync
    /// immediately.
    ReplayGap,
    /// Any other event name, kept verbatim.
    Other(String),
}

/// What a [`NotificationKind`] stands for.
pub enum KindView {
    /// `mail.received`
    MailReceived,
    /// `mail.flag_changed`
    MailFlagChanged,
    /// `mail.deleted`
    MailDeleted,
    /// `mail.moved`
    MailMoved,
    /// `draft.updated`
    DraftUpdated,
    /// `delivery.updated`
    DeliveryUpdated,
    /// `device.revoked`
    DeviceRevoked,
    /// `replay.gap`
    ReplayGap,
    /// Any other event name.
    Other(Seq<char>),
}

impl KindView {
    /// The event name of the kind.
    pub open spec fn name(self) -> Seq<char> {
        match self {
            KindView::MailReceived => "mail.received"@,
            KindView::MailFlagChanged => "mail.flag_changed"@,
            KindView::MailDeleted => "mail.deleted"@,
            KindView::MailMoved => "mail.moved"@,
            KindView::DraftUpdated => "draft.updated"@,
            KindView::DeliveryUpdated => "delivery.updated"@,
            KindView::DeviceRevoked => "device.revoked"@,
            KindView::ReplayGap => "replay.gap"@,
            KindView::Other(name) => name,
        }
    }

    /// Whether the kind belongs to the `mail.*` family.
    pub open spec fn mail(self) -> bool {
        begins_with(self.name(), "mail."@)
    }
}

/// The kind that an event name stands for. Only the empty name is none; the gap
/// marker is read under both of its spellings.
pub open spec fn kind_called(name: Seq<char>) -> Option<KindView> {
    if name.len() == 0 {
        None
    } else if name == "mail.received"@ {
        Some(KindView::MailReceived)
    } else if name == "mail.flag_changed"@ {
        Some(KindView::MailFlagChanged)
    } else if name == "mail.deleted"@ {
        Some(KindView::MailDeleted)
    } else if name == "mail.moved"@ {
        Some(KindView::MailMoved)
    } else if name == "draft.updated"@ {
        Some(KindView::DraftUpdated)
    } else if name == "delivery.updated"@ {
        Some(KindView::DeliveryUpdated)
    } else if name == "device.revoked"@ {
        Some(KindView::DeviceRevoked)
    } else if name == "replay.gap"@ || name == "replay_gap"@ {
        Some(KindView::ReplayGap)
    } else {
        Some(KindView::Other(name))
    }
}

/// The kind of an event: the empty name is kept like any unknown one.
pub open spec fn event_kind_of(name: Seq<char>) -> KindView {
    match kind_called(name) {
        Some(kind) => kind,
        None => KindView::Other(name),
    }
}

impl NotificationKind {
    /// What the kind stands for.
    pub open spec fn view(&self) -> KindView {
        match self {
            NotificationKind::MailReceived => KindView::MailReceived,
            NotificationKind::MailFlagChanged => KindView::MailFlagChanged,
            NotificationKind::MailDeleted => KindView::MailDeleted,
            NotificationKind::MailMoved => KindView::MailMoved,
            NotificationKind::DraftUpdated => KindView::DraftUpdated,
            NotificationKind::DeliveryUpdated => KindView::DeliveryUpdated,
            NotificationKind::DeviceRevoked => KindView::DeviceRevoked,
            NotificationKind::ReplayGap => KindView::ReplayGap,
            NotificationKind::Other(name) => KindView::Other(name@),
        }
    }

    /// The event name this kind came from.
    ///
    /// This is exactly the string that is stored, so a shell can map a stored row
    /// back with [`NotificationKind::from_str_opt`].
    pub fn as_str(&self) -> (result: &str)
        ensures
            result@ == self@.name(),
    {
        match self {
            NotificationKind::MailReceived => "mail.received",
            NotificationKind::MailFlagChanged => "mail.flag_changed",
            NotificationKind::MailDeleted => "mail.deleted",
            NotificationKind::MailMoved => "mail.moved",
            NotificationKind::DraftUpdated => "draft.updated",
            NotificationKind::DeliveryUpdated => "delivery.updated",
            NotificationKind::DeviceRevoked => "device.revoked",
            NotificationKind::ReplayGap => "replay.gap",
            NotificationKind::Other(name) => name.as_str(),
        }
    }

    /// Parse an event name: anything unrecognised becomes
    /// [`NotificationKind::Other`], and only the empty string is `None`.
    pub fn from_str_opt(name: &str) -> (result: Option<NotificationKind>)
        ensures
            match result {
                Some(kind) => kind_called(name@) == Some(kind@),
                None => kind_called(name@) is None,
            },
    {
        if name.is_empty() {
            return None;
        }
        let kind = if same(name, "mail.received") {
            NotificationKind::MailReceived
        } else if same(name, "mail.flag_changed") {
            NotificationKind::MailFlagChanged
        } else if same(name, "mail.deleted") {
            NotificationKind::MailDeleted
        } else if same(name, "mail.moved") {
            NotificationKind::MailMoved
        } else if same(name, "draft.updated") {
            NotificationKind::DraftUpdated
        } else if same(name, "delivery.updated") {
            NotificationKind::DeliveryUpdated
        } else if same(name, "device.revoked") {
            NotificationKind::DeviceRevoked
        } else if same(name, "replay.gap") || same(name, "replay_gap") {
            NotificationKind::ReplayGap
        } else {
            NotificationKind::Other(name.to_owned())
        };
        Some(kind)
    }

    /// Whether this kind belongs to the `mail.*` family, which a paused account
    /// suppresses.
    pub fn is_mail(&self) -> (result: bool)
        ensures
            result == self@.mail(),
    {
        starts_with(self.as_str(), "mail.")
    }
}

/// A kind that came from a name is found again under its own name, so a stored row
/// is never misread.
pub proof fn law_kind_names_round_trip(name: Seq<char>)
    requires
        kind_called(name) is Some,
    ensures
        kind_called(kind_called(name)->0.name()) == kind_called(name),
{
    reveal_strlit("mail.received");
    reveal_strlit("mail.flag_changed");
    reveal_strlit("mail.deleted");
    reveal_strlit("mail.moved");
    reveal_strlit("draft.updated");
    reveal_strlit("delivery.updated");
    reveal_strlit("device.revoked");
    reveal_strlit("replay.gap");
    reveal_strlit("replay_gap");
    assert("mail.received"@.len() == 13 && "mail.flag_changed"@.len() == 17);
    assert("mail.deleted"@.len() == 12 && "mail.moved"@.len() == 10);
    assert("draft.updated"@.len() == 13 && "delivery.updated"@.len() == 16);
    assert("device.revoked"@.len() == 14 && "replay.gap"@.len() == 10);
    assert("mail.received"@[0] == 'm' && "draft.updated"@[0] == 'd');
    assert("mail.moved"@[0] == 'm' && "replay.gap"@[0] == 'r');
}

/// One notification, ready to be delivered.
#[derive(Debug, Clone, PartialEq, Eq)]
pub struct Notification {
    /// What happened.
    pub kind: NotificationKind,
    /// The account the event belongs to, when the frame said.
    pub account_id: Option<i64>,
    /// The banner title: never empty.
    pub title: String,
    /// The banner body, when there is one.
    pub body: Option<String>,
    /// The message the event is about, when it is about one.
    pub message_id: Option<i64>,
    /// When the event happened: the frame's `at` when it carried a parseable one,
    /// otherwise the moment it was turned into a notification.
    pub at: Timestamp,
    /// The frame's payload, verbatim, so a shell can word the banner itself.
    pub payload: Option<Json>,
}

/// A string field of the payload, without the blanks around it, when anything is
/// left.
pub open spec fn banner_text(payload: JsonView, field: Seq<char>) -> Option<Seq<char>> {
    match payload.member_text(field) {
        Some(text) => if trimmed(text).len() > 0 {
            Some(trimmed(text))
        } else {
            None
        },
        None => None,
    }
}

/// The title that a kind gets from its payload: only `mail.received` reads it.
pub open spec fn banner_title(kind: KindView, payload: JsonView) -> Seq<char> {
    match kind {
        KindView::MailReceived => match banner_text(payload, "from"@) {
            Some(from) => from,
            None => "New message"@,
        },
        KindView::MailFlagChanged => "Message updated"@,
        KindView::MailDeleted => "Message deleted"@,
        KindView::MailMoved => "Message moved"@,
        KindView::DraftUpdated => "Draft updated"@,
        KindView::DeliveryUpdated => "Delivery updated"@,
        KindView::DeviceRevoked => "Device signed out"@,
        KindView::ReplayGap => "Some events were missed"@,
        KindView::Other(name) => if name.len() == 0 {
            "Notification"@
        } else {
            name
        },
    }
}

/// The body that a kind gets from its payload: only `mail.received` has one.
pub open spec fn banner_body(kind: KindView, payload: JsonView) -> Option<Seq<char>> {
    match kind {
        KindView::MailReceived => banner_text(payload, "subject"@),
        _ => None,
    }
}

/// When an event happened, as far as its payload says.
pub open spec fn event_time(payload: JsonView, now: Timestamp) -> Timestamp {
    match payload.member_text("at"@) {
        Some(text) => match rfc3339_time(text) {
            Some(time) => time,
            None => now,
        },
        None => now,
    }
}

fn field_text(payload: &Json, field: &str) -> (result: Option<String>)
    ensures
        opt_view(result) == banner_text(payload@, field@),
{
    match payload.text_at(field) {
        Some(text) => {
            let text = trim(text.as_str());
            if text.as_str().is_empty() {
                None
            } else {
                Some(text)
            }
        },
        None => None,
    }
}

/// The title and body a kind gets from its payload.
fn banner(kind: &NotificationKind, payload: &Json) -> (result: (String, Option<String>))
    ensures
        result.0@ == banner_title(kind@, payload@),
        opt_view(result.1) == banner_body(kind@, payload@),
{
    match kind {
        NotificationKind::MailReceived => {
            let title = match field_text(payload, "from") {
                Some(from) => from,
                None => "New message".to_owned(),
            };
            (title, field_text(payload, "subject"))
        },
        NotificationKind::MailFlagChanged => ("Message updated".to_owned(), None),
        NotificationKind::MailDeleted => ("Message deleted".to_owned(), None),
        NotificationKind::MailMoved => ("Message moved".to_owned(), None),
        NotificationKind::DraftUpdated => ("Draft updated".to_owned(), None),
        NotificationKind::DeliveryUpdated => ("Delivery updated".to_owned(), None),
        NotificationKind::DeviceRevoked => ("Device signed out".to_owned(), None),
        NotificationKind::ReplayGap => ("Some events were missed".to_owned(), None),
        NotificationKind::Other(name) => if name.as_str().is_empty() {
            ("Notification".to_owned(), None)
        } else {
            (name.clone(), None)
        },
    }
}

/// Whether `notification` is what an event of this kind with this payload becomes.
pub open spec fn notification_of(
    notification: Notification,
    kind: Seq<char>,
    account_id: Option<i64>,
    payload: JsonView,
    now: Timestamp,
) -> bool {
    &&& notification.kind@ == event_kind_of(kind)
    &&& notification.account_id == account_id
    &&& notification.title@ == banner_title(event_kind_of(kind), payload)
    &&& opt_view(notification.body) == banner_body(event_kind_of(kind), payload)
    &&& opt_int(notification.message_id) == payload.member_int64("message_id"@)
    &&& notification.at == event_time(payload, now)
    &&& option_view(notification.payload) == (if payload is Null {
        None
    } else {
        Some(payload)
    })
}

impl Notification {
    /// Build the notification that a realtime event becomes, at `now`.
    ///
    /// A `mail.received` frame uses its `from` field as the title and its `subject`
    /// as the body. Every other kind gets a fixed title; the raw payload is kept for
    /// a shell that wants to say more.
    pub fn from_event(kind: &str, account_id: Option<i64>, payload: &Json, now: Timestamp) -> (result:
        Notification)
        ensures
            notification_of(result, kind@, account_id, payload@, now),
    {
        let kind = match NotificationKind::from_str_opt(kind) {
            Some(kind) => kind,
            None => NotificationKind::Other(kind.to_owned()),
        };
        let at = match payload.text_at("at") {
            Some(text) => match parse_rfc3339(text.as_str()) {
                Some(time) => time,
                None => now,
            },
            None => now,
        };
        let (title, body) = banner(&kind, payload);
        let kept = match payload {
            Json::Null => None,
            _ => Some(payload.copy()),
        };
        Notification {
            kind,
            account_id,
            title,
            body,
            message_id: payload.int_at("message_id"),
            at,
            payload: kept,
        }
    }
}

/// A banner always has a title.
pub proof fn law_a_banner_has_a_title(kind: KindView, payload: JsonView)
    ensures
        banner_title(kind, payload).len() > 0,
{
    reveal_strlit("New message");
    reveal_strlit("Message updated");
    reveal_strlit("Message deleted");
    reveal_strlit("Message moved");
    reveal_strlit("Draft updated");
    reveal_strlit("Delivery updated");
    reveal_strlit("Device signed out");
    reveal_strlit("Some events were missed");
    reveal_strlit("Notification");
}

/// New mail is announced by who wrote and what about: the sender is the title and the subject the
/// body, without the blanks around them. It is about the message that the event names, at the time
/// that the event says, and everything else of the event is kept beside.
pub proof fn law_new_mail_names_sender_and_subject(
    notification: Notification,
    account_id: Option<i64>,
    payload: JsonView,
    now: Timestamp,
)
    requires
        notification_of(notification, "mail.received"@, account_id, payload, now),
    ensures
        notification.kind@ is MailReceived,
        notification.account_id == account_id,
        payload.member_text("from"@) matches Some(from) ==> (trimmed(from).len() > 0
            ==> notification.title@ == trimmed(from)),
        payload.member_text("subject"@) matches Some(subject) ==> (trimmed(subject).len() > 0
            ==> opt_view(notification.body) == Some(trimmed(subject))),
        payload.member_text("subject"@) is None ==> notification.body is None,
        payload.member_int64("message_id"@) matches Some(id) ==> (notification.message_id matches Some(
            n,
        ) && n == id),
        payload.member_text("at"@) matches Some(at) ==> (rfc3339_time(at) matches Some(time)
            ==> notification.at == time),
        payload.member_text("at"@) is None ==> notification.at == now,
        !(payload is Null) ==> option_view(notification.payload) == Some(payload),
{
    reveal_strlit("mail.received");
}

/// Every other event is announced by what happened: the title of a known kind ends in the word
/// that its event name ends in, and an unknown kind is its own title. None of them has a body.
pub proof fn law_other_events_say_what_happened(kind: KindView, payload: JsonView)
    requires
        !(kind is MailReceived),
    ensures
        banner_body(kind, payload) is None,
        kind is MailDeleted ==> finishes_with(kind.name(), ".deleted"@) && finishes_with(
            banner_title(kind, payload),
            " deleted"@,
        ),
        kind is MailMoved ==> finishes_with(kind.name(), ".moved"@) && finishes_with(
            banner_title(kind, payload),
            " moved"@,
        ),
        kind is DraftUpdated ==> begins_with(banner_title(kind, payload), "Draft "@)
            && finishes_with(banner_title(kind, payload), " updated"@),
        kind is DeliveryUpdated ==> begins_with(banner_title(kind, payload), "Delivery "@)
            && finishes_with(banner_title(kind, payload), " updated"@),
        kind is MailFlagChanged ==> begins_with(banner_title(kind, payload), "Message "@)
            && finishes_with(banner_title(kind, payload), " updated"@),
        kind is DeviceRevoked ==> begins_with(banner_title(kind, payload), "Device "@),
        kind is ReplayGap ==> begins_with(banner_title(kind, payload), "Some events"@),
        kind matches KindView::Other(name) ==> (name.len() > 0 ==> banner_title(kind, payload)
            == name),
{
    reveal_strlit("mail.deleted");
    reveal_strlit("mail.moved");
    reveal_strlit(".deleted");
    reveal_strlit(".moved");
    reveal_strlit(" deleted");
    reveal_strlit(" moved");
    reveal_strlit(" updated");
    reveal_strlit("Draft ");
    reveal_strlit("Delivery ");
    reveal_strlit("Message ");
    reveal_strlit("Device ");
    reveal_strlit("Some events");
    reveal_strlit("Message updated");
    reveal_strlit("Message deleted");
    reveal_strlit("Message moved");
    reveal_strlit("Draft updated");
    reveal_strlit("Delivery updated");
    reveal_strlit("Device signed out");
    reveal_strlit("Some events were missed");
    assert("mail.deleted"@.subrange(4, 12) =~= ".deleted"@);
    assert("mail.moved"@.subrange(4, 10) =~= ".moved"@);
    assert("Message deleted"@.subrange(7, 15) =~= " deleted"@);
    assert("Message moved"@.subrange(7, 13) =~= " moved"@);
    assert("Draft updated"@.subrange(0, 6) =~= "Draft "@);
    assert("Draft updated"@.subrange(5, 13) =~= " updated"@);
    assert("Delivery updated"@.subrange(0, 9) =~= "Delivery "@);
    assert("Delivery updated"@.subrange(8, 16) =~= " updated"@);
    assert("Message updated"@.subrange(0, 8) =~= "Message "@);
    assert("Message updated"@.subrange(7, 15) =~= " updated"@);
    assert("Device signed out"@.subrange(0, 7) =~= "Device "@);
    assert("Some events were missed"@.subrange(0, 11) =~= "Some events"@);
}

// -- policy ----------------------------------------------------------------

/// Whether a notification should be delivered right now.
///
/// The policy is a separate seam from the notifier: a do-not-disturb window or a
/// per-account mute belong here.
pub trait NotificationPolicy {
    /// Whether the policy lets a notification through.
    spec fn allows(&self, notification: Notification) -> bool;

    /// Whether this notification should be delivered right now.
    fn should_notify(&self, notification: &Notification) -> (result: bool)
        ensures
            result == self.allows(*notification),
    ;
}

/// A policy that lets everything through.
#[derive(Debug, Clone, Copy)]
pub struct AlwaysNotify;

impl NotificationPolicy for AlwaysNotify {
    open spec fn allows(&self, notification: Notification) -> bool {
        true
    }

    fn should_notify(&self, notification: &Notification) -> (result: bool) {
        true
    }
}

/// What looking up an account's pause flag came to.
#[derive(Debug, Clone, Copy, PartialEq, Eq, Structural)]
pub enum PauseLookup {
    /// The stored flag.
    Flag(i64),
    /// The cache has never heard of the account.
    UnknownAccount,
    /// The cache could not be read.
    Failed,
    /// The cache did not answer in time.
    TimedOut,
}

impl PauseLookup {
    /// Whether the account is paused. Anything but a flag that is set means that it
    /// is not: a notification nobody asked to suppress must not be lost because the
    /// cache was busy.
    pub fn account_paused(self) -> (result: bool)
        ensures
            result == (self matches PauseLookup::Flag(flag) && flag != 0),
    {
        match self {
            PauseLookup::Flag(flag) => flag != 0,
            _ => false,
        }
    }
}

/// Whether a notification gets past the account's state: `mail.*` events of a
/// paused account are suppressed, and so is everything when notifications are off
/// as a whole. What belongs to no account is not paused.
pub open spec fn account_allows(enabled: bool, paused: bool, notification: Notification) -> bool {
    enabled && !(notification.account_id is Some && paused && notification.kind@.mail())
}

/// A policy that honours account state: a paused account is silent about mail.
#[derive(Debug, Clone, PartialEq, Eq)]
pub struct AccountAwarePolicy {
    kinds_enabled: bool,
    paused: Vec<i64>,
}

impl AccountAwarePolicy {
    /// Whether notifications are on as a whole.
    pub closed spec fn enabled(&self) -> bool {
        self.kinds_enabled
    }

    /// The accounts known to be paused.
    pub closed spec fn paused(&self) -> Set<int> {
        self.paused@.map_values(|id: i64| id as int).to_set()
    }

    /// A policy with notification kinds enabled and no account paused.
    pub fn new() -> (result: AccountAwarePolicy)
        ensures
            result.enabled(),
            result.paused() == Set::<int>::empty(),
    {
        let result = AccountAwarePolicy { kinds_enabled: true, paused: Vec::new() };
        proof {
            assert(result.paused() =~= Set::<int>::empty());
        }
        result
    }

    /// Turn whole-class suppression on or off: `false` suppresses every notification
    /// regardless of account.
    pub fn set_kinds_enabled(&mut self, enabled: bool)
        ensures
            final(self).enabled() == enabled,
            final(self).paused() == old(self).paused(),
    {
        self.kinds_enabled = enabled;
    }

    /// Whether notifications are on as a whole.
    pub fn kinds_enabled(&self) -> (result: bool)
        ensures
            result == self.enabled(),
    {
        self.kinds_enabled
    }

    /// The statement that looks up whether an account is paused; what comes of it goes into
    /// [`AccountAwarePolicy::record`].
    pub fn select_paused(account_id: i64) -> (result: Statement)
        ensures
            result.stands_for(SELECT_PAUSED@, seq![BindView::Int(account_id as int)]),
    {
        Statement::new(SELECT_PAUSED).bind(Bind::Int(account_id))
    }

    /// Whether an account is known to be paused.
    pub fn is_paused(&self, account_id: i64) -> (result: bool)
        ensures
            result == self.paused().contains(account_id as int),
    {
        let ghost ids = self.paused@.map_values(|id: i64| id as int);
        let mut i: usize = 0;
        while i < self.paused.len()
            invariant
                i <= self.paused@.len(),
                ids == self.paused@.map_values(|id: i64| id as int),
                forall|j: int| 0 <= j < i ==> self.paused@[j] != account_id,
            decreases self.paused@.len() - i,
        {
            if self.paused[i] == account_id {
                assert(ids[i as int] == account_id as int);
                return true;
            }
            i = i + 1;
        }
        proof {
            if ids.contains(account_id as int) {
                let j = choose|j: int| 0 <= j < ids.len() && ids[j] == account_id as int;
                assert(self.paused@[j] != account_id);
            }
        }
        false
    }

    /// Record what looking up an account's pause flag came to.
    pub fn record(&mut self, account_id: i64, lookup: PauseLookup)
        ensures
            final(self).enabled() == old(self).enabled(),
            final(self).paused() == (if lookup matches PauseLookup::Flag(flag) && flag != 0 {
                old(self).paused().insert(account_id as int)
            } else {
                old(self).paused().remove(account_id as int)
            }),
    {
        let ghost before = self.paused@;
        let ghost ids = before.map_values(|id: i64| id as int);
        let mut kept: Vec<i64> = Vec::new();
        let mut i: usize = 0;
        while i < self.paused.len()
            invariant
                i <= self.paused@.len(),
                self.paused@ == before,
                self.kinds_enabled == old(self).kinds_enabled,
                forall|j: int|
                    0 <= j < i && before[j] != account_id ==> kept@.contains(#[trigger] before[j]),
                forall|j: int|
                    0 <= j < kept@.len() ==> before.contains(#[trigger] kept@[j]) && kept@[j]
                        != account_id,
            decreases self.paused@.len() - i,
        {
            let id: i64 = self.paused[i];
            if id != account_id {
                let ghost earlier = kept@;
                kept.push(id);
                proof {
                    assert(kept@[earlier.len() as int] == before[i as int]);
                    assert forall|j: int| 0 <= j < i + 1 && before[j] != account_id implies kept@
                        .contains(#[trigger] before[j]) by {
                        if j < i {
                            let k = choose|k: int|
                                0 <= k < earlier.len() && earlier[k] == before[j];
                            assert(kept@[k] == before[j]);
                        }
                    }
                }
            }
            i = i + 1;
        }
        let ghost remaining = kept@;
        let paused = lookup.account_paused();
        if paused {
            kept.push(account_id);
        }
        self.paused = kept;
        proof {
            let after = self.paused@.map_values(|id: i64| id as int);
            let wanted = if paused {
                ids.to_set().insert(account_id as int)
            } else {
                ids.to_set().remove(account_id as int)
            };
            assert forall|x: int| after.to_set().contains(x) == wanted.contains(x) by {
                if after.contains(x) {
                    let k = choose|k: int| 0 <= k < after.len() && after[k] == x;
                    if k < remaining.len() {
                        assert(before.contains(remaining[k]));
                        let m = choose|m: int| 0 <= m < before.len() && before[m] == remaining[k];
                        assert(ids[m] == x);
                    }
                }
                if ids.contains(x) && x != account_id as int {
                    let m = choose|m: int| 0 <= m < ids.len() && ids[m] == x;
                    assert(remaining.contains(before[m]));
                    let k = choose|k: int| 0 <= k < remaining.len() && remaining[k] == before[m];
                    assert(after[k] == x);
                }
                if paused && x == account_id as int {
                    assert(after[remaining.len() as int] == x);
                }
            }
            assert(after.to_set() =~= wanted);
        }
    }
}

impl NotificationPolicy for AccountAwarePolicy {
    open spec fn allows(&self, notification: Notification) -> bool {
        account_allows(
            self.enabled(),
            notification.account_id matches Some(id) && self.paused().contains(id as int),
            notification,
        )
    }

    fn should_notify(&self, notification: &Notification) -> (result: bool) {
        if !self.kinds_enabled {
            return false;
        }
        match notification.account_id {
            Some(account_id) => !(self.is_paused(account_id) && notification.kind.is_mail()),
            None => true,
        }
    }
}

// -- delivery --------------------------------------------------------------

/// Delivers a notification.
///
/// The seam between the core and the platform: the core only ever calls
/// [`Notifier::notify`], and a shell decides what "deliver" means.
pub trait Notifier: Sized {
    /// Whether a notifier that was `before` is `after` once it has delivered
    /// `notification`.
    spec fn delivered(before: Self, after: Self, notification: Notification) -> bool;

    /// Deliver (or record) `notification`.
    fn notify(&mut self, notification: &Notification)
        ensures
            Self::delivered(*old(self), *final(self), *notification),
    ;
}

/// A notifier that does nothing at all.
#[derive(Debug, Clone, Copy)]
pub struct NoopNotifier;

impl Notifier for NoopNotifier {
    open spec fn delivered(before: Self, after: Self, notification: Notification) -> bool {
        after == before
    }

    fn notify(&mut self, notification: &Notification) {
    }
}

/// What a [`Notification`] stands for.
pub struct NotificationView {
    /// The kind.
    pub kind: KindView,
    /// The account.
    pub account_id: Option<i64>,
    /// The title.
    pub title: Seq<char>,
    /// The body.
    pub body: Option<Seq<char>>,
    /// The message.
    pub message_id: Option<i64>,
    /// The time.
    pub at: Timestamp,
    /// The payload.
    pub payload: Option<JsonView>,
}

impl Notification {
    /// What the notification stands for.
    pub open spec fn view(&self) -> NotificationView {
        NotificationView {
            kind: self.kind@,
            account_id: self.account_id,
            title: self.title@,
            body: opt_view(self.body),
            message_id: self.message_id,
            at: self.at,
            payload: option_view(self.payload),
        }
    }

    fn copy(&self) -> (result: Notification)
        ensures
            result@ == self@,
    {
        Notification {
            kind: self.kind.copy(),
            account_id: self.account_id,
            title: self.title.clone(),
            body: copy_opt(&self.body),
            message_id: self.message_id,
            at: self.at,
            payload: match &self.payload {
                Some(payload) => Some(payload.copy()),
                None => None,
            },
        }
    }
}

impl NotificationKind {
    fn copy(&self) -> (result: NotificationKind)
        ensures
            result@ == self@,
    {
        match self {
            NotificationKind::MailReceived => NotificationKind::MailReceived,
            NotificationKind::MailFlagChanged => NotificationKind::MailFlagChanged,
            NotificationKind::MailDeleted => NotificationKind::MailDeleted,
            NotificationKind::MailMoved => NotificationKind::MailMoved,
            NotificationKind::DraftUpdated => NotificationKind::DraftUpdated,
            NotificationKind::DeliveryUpdated => NotificationKind::DeliveryUpdated,
            NotificationKind::DeviceRevoked => NotificationKind::DeviceRevoked,
            NotificationKind::ReplayGap => NotificationKind::ReplayGap,
            NotificationKind::Other(name) => NotificationKind::Other(name.clone()),
        }
    }
}

/// The views of a list of notifications.
pub open spec fn notification_views(notifications: Seq<Notification>) -> Seq<NotificationView> {
    notifications.map_values(|n: Notification| n@)
}

/// A notifier that keeps every notification, for a shell to take and store.
#[derive(Debug)]
pub struct RecordingNotifier {
    recorded: Vec<Notification>,
}

impl RecordingNotifier {
    /// The notifications that were not taken yet, in order.
    pub closed spec fn recorded(&self) -> Seq<NotificationView> {
        notification_views(self.recorded@)
    }

    /// A recorder that holds nothing.
    pub fn new() -> (result: RecordingNotifier)
        ensures
            result.recorded() == Seq::<NotificationView>::empty(),
    {
        let result = RecordingNotifier { recorded: Vec::new() };
        proof {
            assert(result.recorded() =~= Seq::empty());
        }
        result
    }

    /// Take what was recorded.
    pub fn take(&mut self) -> (result: Vec<Notification>)
        ensures
            notification_views(result@) == old(self).recorded(),
            final(self).recorded() == Seq::<NotificationView>::empty(),
    {
        let mut taken: Vec<Notification> = Vec::new();
        taken.append(&mut self.recorded);
        proof {
            assert(notification_views(taken@) =~= old(self).recorded());
            assert(self.recorded() =~= Seq::empty());
        }
        taken
    }
}

impl Notifier for RecordingNotifier {
    open spec fn delivered(before: Self, after: Self, notification: Notification) -> bool {
        after.recorded() == before.recorded().push(notification@)
    }

    fn notify(&mut self, notification: &Notification) {
        let copy = notification.copy();
        let ghost before = self.recorded@;
        self.recorded.push(copy);
        proof {
            assert(notification_views(before.push(copy)) =~= notification_views(before).push(
                notification@,
            ));
        }
    }
}

/// Turns a realtime event into a notification and delivers it.
pub struct NotificationService<N: Notifier, P: NotificationPolicy> {
    /// What delivers.
    pub notifier: N,
    /// What is asked first.
    pub policy: P,
}

impl<N: Notifier, P: NotificationPolicy> NotificationService<N, P> {
    /// A service with an explicit delivery and policy seam.
    pub fn new(notifier: N, policy: P) -> (result: NotificationService<N, P>)
        ensures
            result.notifier == notifier,
            result.policy == policy,
    {
        NotificationService { notifier, policy }
    }

    /// Deliver `notification`, returning whether it was actually delivered.
    ///
    /// A suppressed notification is not delivered: the policy is consulted first,
    /// and the notifier is not touched.
    pub fn notify(&mut self, notification: &Notification) -> (result: bool)
        ensures
            result == old(self).policy.allows(*notification),
            final(self).policy == old(self).policy,
            result ==> N::delivered(old(self).notifier, final(self).notifier, *notification),
            !result ==> final(self).notifier == old(self).notifier,
    {
        if !self.policy.should_notify(notification) {
            return false;
        }
        self.notifier.notify(notification);
        true
    }

    /// Turn a realtime event into a notification and deliver it.
    pub fn handle_event(
        &mut self,
        kind: &str,
        account_id: Option<i64>,
        payload: &Json,
        now: Timestamp,
    ) -> (result: bool)
        ensures
            final(self).policy == old(self).policy,
            !result ==> final(self).notifier == old(self).notifier,
            exists|notification: Notification| #[trigger]
                notification_of(notification, kind@, account_id, payload@, now) && result == old(
                    self,
                ).policy.allows(notification) && (result ==> N::delivered(
                    old(self).notifier,
                    final(self).notifier,
                    notification,
                )),
    {
        let notification = Notification::from_event(kind, account_id, payload, now);
        assert(notification_of(notification, kind@, account_id, payload@, now));
        self.notify(&notification)
    }
}

/// The row a shell drains.
#[derive(Debug, Clone, PartialEq, Eq)]
pub struct PendingNotification {
    /// The row's id, to mark it as delivered with.
    pub id: i64,
    /// The account the event belongs to, when it was known.
    pub account_id: Option<i64>,
    /// The event name.
    pub kind: String,
    /// The banner title.
    pub title: String,
    /// The banner body, when there is one.
    pub body: Option<String>,
    /// When the notification was recorded (RFC 3339, UTC).
    pub created_at: String,
}

/// A paused account hears nothing of its mail, and nobody hears anything while
/// notifications are off; what is not mail still gets through.
pub proof fn law_a_paused_account_is_silent(enabled: bool, paused: bool, notification: Notification)
    ensures
        notification.account_id is Some && paused && notification.kind@.mail() ==> !account_allows(
            enabled,
            paused,
            notification,
        ),
        !enabled ==> !account_allows(enabled, paused, notification),
        enabled && (!paused || notification.account_id is None || !notification.kind@.mail())
            ==> account_allows(
            enabled,
            paused,
            notification,
        ),
{
}

// -- the recorded notifications --------------------------------------------

/// Whether an account is paused.
pub const SELECT_PAUSED: &'static str = "SELECT paused FROM accounts WHERE id = ?";

/// Records a notification for a shell to drain.
pub const RECORD_NOTIFICATION: &'static str =
    "INSERT INTO notifications (account_id, kind, title, body, payload, created_at, delivered) VALUES (?, ?, ?, ?, ?, ?, 0)";

/// The notifications that have not been shown, oldest first.
pub const PENDING_NOTIFICATIONS: &'static str =
    "SELECT id, account_id, kind, title, body, created_at FROM notifications WHERE delivered = 0 ORDER BY id ASC LIMIT ?";

/// Marks a notification as shown.
pub const MARK_DELIVERED: &'static str = "UPDATE notifications SET delivered = 1 WHERE id = ?";

/// The parameters that record a notification.
pub open spec fn notification_binds(
    notification: Notification,
    payload: Option<String>,
    at: Seq<char>,
) -> Seq<BindView> {
    seq![
        int_bind(notification.account_id),
        BindView::Text(notification.kind@.name()),
        BindView::Text(notification.title@),
        text_bind(notification.body),
        text_bind(payload),
        BindView::Text(at),
    ]
}

/// Every parameter of a recorded notification is of the kind that its column holds, so that none
/// of them is refused or stored as something else.
pub proof fn law_a_notification_fits_its_columns(
    notification: Notification,
    payload: Option<String>,
    at: Seq<char>,
)
    ensures
        ({
            let recorded = notification_binds(notification, payload, at);
            &&& recorded.len() == 6 && recorded[0] !is Text && recorded[1] is Text
            &&& recorded[2] is Text && recorded[3] !is Int && recorded[4] !is Int
            &&& recorded[5] is Text
        }),
{
}

/// Whether the columns of `row` are the parameters that recorded it.
pub open spec fn row_recorded(row: PendingNotification, binds: Seq<BindView>) -> bool {
    &&& binds[0] == int_bind(row.account_id)
    &&& binds[1] == BindView::Text(row.kind@)
    &&& binds[2] == BindView::Text(row.title@)
    &&& binds[3] == text_bind(row.body)
    &&& binds[5] == BindView::Text(row.created_at@)
}

/// What a shell drains is what happened: the row of a notification that an event became has its
/// account, its title and its body, each in its own place, and the name of its kind, under which
/// the kind is found again.
pub proof fn law_a_recorded_notification_is_shown(
    row: PendingNotification,
    notification: Notification,
    kind: Seq<char>,
    account_id: Option<i64>,
    payload: JsonView,
    kept: Option<String>,
    at: Seq<char>,
    now: Timestamp,
)
    requires
        kind.len() > 0,
        notification_of(notification, kind, account_id, payload, now),
        row_recorded(row, notification_binds(notification, kept, at)),
    ensures
        row.account_id == account_id,
        kind_called(row.kind@) == kind_called(kind),
        row.title@ == notification.title@,
        opt_view(row.body) == opt_view(notification.body),
        row.created_at@ == at,
{
    law_kind_names_round_trip(kind);
}

/// The statement that records a notification, given the JSON text of its payload and
/// the text of its time.
pub fn record_notification(notification: &Notification, payload: &Option<String>, at: &str) -> (result:
    Statement)
    ensures
        result.stands_for(
            RECORD_NOTIFICATION@,
            notification_binds(*notification, *payload, at@),
        ),
{
    Statement::new(RECORD_NOTIFICATION).bind(Bind::int_if(notification.account_id)).bind(
        Bind::text(notification.kind.as_str()),
    ).bind(Bind::text(notification.title.as_str())).bind(Bind::text_if(&notification.body)).bind(
        Bind::text_if(payload),
    ).bind(Bind::text(at))
}

/// The statement that lists what a shell has not shown yet. `limit` bounds one drain
/// so a long offline stretch cannot open fifty windows at once.
pub fn pending_notifications(limit: i64) -> (result: Statement)
    ensures
        result.stands_for(PENDING_NOTIFICATIONS@, seq![BindView::Int(limit as int)]),
{
    Statement::new(PENDING_NOTIFICATIONS).bind(Bind::Int(limit))
}

/// The statements that mark notifications as shown: one for each, so none at all for
/// an empty list.
pub fn mark_delivered(ids: &[i64]) -> (result: Vec<Statement>)
    ensures
        result@.len() == ids@.len(),
        forall|i: int|
            0 <= i < ids@.len() ==> (#[trigger] result@[i]).stands_for(
                MARK_DELIVERED@,
                seq![BindView::Int(ids@[i] as int)],
            ),
{
    let mut out: Vec<Statement> = Vec::new();
    let mut i: usize = 0;
    while i < ids.len()
        invariant
            i <= ids@.len(),
            out@.len() == i,
            forall|j: int|
                0 <= j < i ==> (#[trigger] out@[j]).stands_for(
                    MARK_DELIVERED@,
                    seq![BindView::Int(ids@[j] as int)],
                ),
        decreases ids@.len() - i,
    {
        out.push(Statement::new(MARK_DELIVERED).bind(Bind::Int(ids[i])));
        i = i + 1;
    }
    out
}

/// A banner cannot leak message content: it is made of the sender and the subject
/// alone, so two payloads that agree on those look the same, whatever else they
/// carry.
pub proof fn law_a_banner_shows_sender_and_subject_alone(kind: KindView, a: JsonView, b: JsonView)
    requires
        a.member_text("from"@) == b.member_text("from"@),
        a.member_text("subject"@) == b.member_text("subject"@),
    ensures
        banner_title(kind, a) == banner_title(kind, b),
        banner_body(kind, a) == banner_body(kind, b),
{
}

} // verus!
