//! The realtime event socket without its transport: framing, routing, the
//! heartbeat clock and the reconnect schedule.
//!
//! * [`parse_frame`] turns one text frame into a [`ServerFrame`]. It is total:
//!   everything it cannot place becomes [`ServerFrame::Unknown`] rather than an
//!   error, so a server that grows a new event kind cannot wedge an older client.
//! * [`EventRouter`] turns a frame into the [`RouterAction`]s the client owes.
//! * [`EventConnection`] keeps the heartbeat clock and decides what each message
//!   off the socket means.
//!
//! The stored cursor, not the socket, is the source of truth: a duplicated or
//! out-of-order frame, and a replay gap, all call for a sync.

use vstd::prelude::*;

use crate::address::{parse_url, parsed_view, url_read, UrlParts, UrlView};
use crate::api::{
    backoff, jittered, jittered_millis, law_jitter_stays_in_its_band, least, lemma_backoff_grows,
    random_u64, CLIENT_PROTOCOL_VERSION,
};
use crate::delay::{delay_text, Delay};
use crate::error::{ClientError, ClientResult};
use crate::json::{json_read, parse_json, Json, JsonView};
use crate::text::{
    begins_with, concat3, contains, debug_quoted, debug_text, decimal, digits, holds, lowered,
    opt_view, same, stands_at, to_lower, trim, trim_trailing, trimmed, without_trailing,
};
use crate::util::{url_encoded, urlencode};

verus! {

/// The heartbeat assumed when the server's `hello` does not name one.
pub const DEFAULT_HEARTBEAT_SECS: u64 = 30;

/// The frame the client sends when it has been silent for a heartbeat.
///
/// It is the application-level ping, not the WebSocket control frame of the same
/// name.
pub const PING_FRAME: &'static str = "{\"type\":\"ping\"}";

/// The frame that answers a server `ping`.
pub const PONG_FRAME: &'static str = "{\"type\":\"pong\"}";

/// Every event name the protocol defines.
///
/// A `type` outside this list is not an error: it becomes
/// [`ServerFrame::Unknown`] and routes to [`RouterAction::Ignore`].
pub const EVENT_KINDS: [&'static str; 10] = [
    "mail.received",
    "mail.sent",
    "mail.deleted",
    "mail.read",
    "mail.flag_changed",
    "mail.moved",
    "draft.created",
    "draft.updated",
    "delivery.updated",
    "device.revoked",
];

// -- the reconnect schedule ------------------------------------------------

/// Bounded exponential backoff for reconnect attempts, one schedule per account: the delay
/// grows with each failure up to a ceiling. It doubles unless the caller lets it grow by
/// another factor; see [`Backoff::capped`].
#[derive(Debug, Clone, Copy, PartialEq, Eq, Structural)]
pub struct Backoff {
    /// The delay before the first reconnect attempt.
    pub base: Delay,
    /// The ceiling for a single delay.
    pub max: Delay,
}

/// A length in whole milliseconds, at most the largest `u64`.
pub open spec fn capped_millis(delay: Delay) -> int {
    least(delay.millis as int, u64::MAX as int)
}

impl Backoff {
    /// The delay before reconnect attempt `attempt`, in milliseconds and without its
    /// randomised part.
    pub open spec fn plain(self, attempt: int) -> int {
        backoff(capped_millis(self.base), capped_millis(self.max), attempt)
    }

    /// A delay that has grown to so many milliseconds, under the ceiling; none stands for
    /// growth past everything that can be counted.
    pub open spec fn cut(self, grown: Option<u64>) -> int {
        match grown {
            Some(millis) => least(millis as int, capped_millis(self.max)),
            None => capped_millis(self.max),
        }
    }

    /// A backoff from `base` to `max`.
    pub fn new(base: Delay, max: Delay) -> (result: Backoff)
        ensures
            result.base == base,
            result.max == max,
    {
        Backoff { base, max }
    }

    /// The delay before reconnect attempt `attempt`, in milliseconds and without its
    /// randomised part. `attempt` counts from one; zero is treated as the first.
    pub fn base_delay(&self, attempt: u32) -> (result: u64)
        ensures
            result == self.plain(attempt as int),
    {
        let base = self.base.shorter(Delay { millis: u64::MAX as u128 });
        let max = self.max.shorter(Delay { millis: u64::MAX as u128 });
        crate::api::backoff_millis(base, max, attempt)
    }

    /// How many times the base has grown before reconnect attempt `attempt`, which stops
    /// where a hostile attempt could overflow.
    pub fn growths(attempt: u32) -> (result: u32)
        ensures
            result == least(if attempt > 1 { attempt - 1 } else { 0 }, 16),
            result <= 16,
            1 <= attempt <= 17 ==> result + 1 == attempt,
    {
        let steps: u32 = if attempt > 1 {
            attempt - 1
        } else {
            0
        };
        if steps < 16 {
            steps
        } else {
            16
        }
    }

    /// A delay that has grown to so many milliseconds, under the ceiling; none stands for
    /// growth past everything that can be counted.
    pub fn capped(&self, grown: Option<u64>) -> (result: u64)
        ensures
            result == self.cut(grown),
    {
        let max: u64 = self.max.shorter(Delay { millis: u64::MAX as u128 }).millis as u64;
        match grown {
            Some(millis) => if millis < max {
                millis
            } else {
                max
            },
            None => max,
        }
    }

    /// A delay that has grown to so many milliseconds, under the ceiling and moved at random
    /// by at most `spread` milliseconds.
    pub fn delay_grown(&self, grown: Option<u64>, spread: u64) -> (result: Delay)
        ensures
            spread == 0 ==> result.millis == self.cut(grown),
            exists|roll: u64|
                result.millis == #[trigger] jittered_millis(
                    self.cut(grown),
                    spread as int,
                    roll as int,
                ),
    {
        let millis: u64 = self.capped(grown);
        let roll: u64 = if spread > 0 {
            random_u64()
        } else {
            0
        };
        let moved: u64 = jittered(millis, spread, roll);
        Delay::from_millis(moved)
    }

    /// The delay before reconnect attempt `attempt`, moved at random by at most
    /// `spread` milliseconds. With a spread the result may exceed `max` by that
    /// much: the cap bounds the schedule, not each individual sleep.
    pub fn delay(&self, attempt: u32, spread: u64) -> (result: Delay)
        ensures
            spread == 0 ==> result.millis == self.plain(attempt as int),
            exists|roll: u64|
                result.millis == #[trigger] jittered_millis(
                    self.plain(attempt as int),
                    spread as int,
                    roll as int,
                ),
    {
        let millis: u64 = self.base_delay(attempt);
        proof {
            lemma_backoff_grows(
                capped_millis(self.base),
                capped_millis(self.max),
                attempt as int,
                attempt as int,
            );
        }
        self.delay_grown(Some(millis), spread)
    }
}

/// The reconnect delay never exceeds its ceiling and never shrinks from one attempt to a
/// later one, and attempt zero counts as the first. Moved by a spread, it stays that close
/// to what it was.
pub proof fn law_reconnects_are_capped_and_slow_down(
    schedule: Backoff,
    a: int,
    b: int,
    spread: int,
    roll: int,
)
    requires
        0 <= a <= b,
        0 <= spread <= schedule.plain(a),
        0 <= roll,
    ensures
        schedule.plain(a) <= schedule.plain(b) <= capped_millis(schedule.max),
        schedule.plain(0) == schedule.plain(1),
        schedule.plain(1) == least(capped_millis(schedule.base), capped_millis(schedule.max)),
        schedule.plain(a) - spread <= jittered_millis(schedule.plain(a), spread, roll)
            <= schedule.plain(a) + spread,
{
    lemma_backoff_grows(capped_millis(schedule.base), capped_millis(schedule.max), a, b);
    law_jitter_stays_in_its_band(schedule.plain(a), spread, roll);
}

/// The same of a schedule that grows by any other factor: where the delay has grown further,
/// or past counting, the wait is no shorter, and it never exceeds the ceiling.
pub proof fn law_further_growth_never_shortens_a_wait(
    schedule: Backoff,
    grown: Option<u64>,
    further: Option<u64>,
)
    requires
        further matches Some(later) ==> (grown matches Some(earlier) && earlier <= later),
    ensures
        schedule.cut(grown) <= schedule.cut(further) <= capped_millis(schedule.max),
{
}

impl Default for Backoff {
    /// One second, doubling to a ceiling of sixty seconds.
    fn default() -> (result: Backoff)
        ensures
            result == (Backoff { base: Delay { millis: 1000 }, max: Delay { millis: 60_000 } }),
    {
        Backoff::new(Delay::from_secs(1), Delay::from_secs(60))
    }
}

// -- frames ----------------------------------------------------------------

/// The first frame of every session.
#[derive(Debug, Clone, Copy, PartialEq, Eq, Structural)]
pub struct Hello {
    /// The protocol version the server will speak.
    pub protocol_version: u32,
    /// How often the server pings, and how often the client should.
    pub heartbeat_secs: u64,
    /// The newest sequence the bus had when the socket opened; `None` on an idle
    /// bus. It is *not* a cursor.
    pub last_seq: Option<i64>,
}

/// A number of seconds, but never zero.
pub open spec fn at_least_one(secs: u64) -> int {
    if secs >= 1 {
        secs as int
    } else {
        1
    }
}

impl Hello {
    /// The heartbeat, never zero.
    pub fn heartbeat(&self) -> (result: Delay)
        ensures
            result.millis == at_least_one(self.heartbeat_secs) * 1000,
    {
        Delay::from_secs(
            if self.heartbeat_secs >= 1 {
                self.heartbeat_secs
            } else {
                1
            },
        )
    }
}

/// One event as it arrived.
///
/// Every field but [`kind`](EventFrame::kind) is optional. The untouched JSON is
/// kept in [`raw`](EventFrame::raw) so that other layers can read fields this struct
/// does not name.
#[derive(Debug, Clone, PartialEq, Eq)]
pub struct EventFrame {
    /// The global, per-user sequence number.
    pub seq: Option<i64>,
    /// The event id, for de-duplication.
    pub id: Option<String>,
    /// When the server published it (RFC 3339, UTC).
    pub at: Option<String>,
    /// The scope it was published to, e.g. `user:7`.
    pub scope: Option<String>,
    /// The dotted wire name, e.g. `mail.received`.
    pub kind: String,
    /// The mailbox it concerns.
    pub mailbox_id: Option<i64>,
    /// The message it concerns.
    pub message_id: Option<i64>,
    /// The `From:` header, already formatted for display.
    pub from: Option<String>,
    /// The decoded subject.
    pub subject: Option<String>,
    /// A short, body-free preview for the notification banner.
    pub snippet: Option<String>,
    /// Whether the bus flagged a replay gap on this frame.
    pub replay_gap: bool,
    /// The frame exactly as it arrived.
    pub raw: Json,
}

/// What an [`EventFrame`] stands for.
pub struct EventView {
    /// The sequence number.
    pub seq: Option<int>,
    /// The event id.
    pub id: Option<Seq<char>>,
    /// When it was published.
    pub at: Option<Seq<char>>,
    /// The scope.
    pub scope: Option<Seq<char>>,
    /// The wire name.
    pub kind: Seq<char>,
    /// The mailbox.
    pub mailbox_id: Option<int>,
    /// The message.
    pub message_id: Option<int>,
    /// The sender.
    pub from: Option<Seq<char>>,
    /// The subject.
    pub subject: Option<Seq<char>>,
    /// The preview.
    pub snippet: Option<Seq<char>>,
    /// Whether a gap was flagged.
    pub replay_gap: bool,
    /// The frame as it arrived.
    pub raw: JsonView,
}

/// The view of an optional number.
pub open spec fn opt_int(value: Option<i64>) -> Option<int> {
    match value {
        Some(n) => Some(n as int),
        None => None,
    }
}

impl EventFrame {
    /// What the frame stands for.
    pub open spec fn view(&self) -> EventView {
        EventView {
            seq: opt_int(self.seq),
            id: opt_view(self.id),
            at: opt_view(self.at),
            scope: opt_view(self.scope),
            kind: self.kind@,
            mailbox_id: opt_int(self.mailbox_id),
            message_id: opt_int(self.message_id),
            from: opt_view(self.from),
            subject: opt_view(self.subject),
            snippet: opt_view(self.snippet),
            replay_gap: self.replay_gap,
            raw: self.raw@,
        }
    }
}

/// One frame off the socket.
#[derive(Debug, Clone, PartialEq, Eq)]
pub enum ServerFrame {
    /// The opening frame; the connection is usable from here on.
    Hello(Hello),
    /// One event.
    Event(Box<EventFrame>),
    /// A liveness probe; answer it with [`PONG_FRAME`].
    Ping,
    /// The answer to the client's own [`PING_FRAME`].
    Pong,
    /// The bus dropped events for this subscriber: sync now.
    ReplayGap,
    /// A frame this client build does not understand. Never an error.
    Unknown(Json),
}

/// What a [`ServerFrame`] stands for.
pub enum FrameView {
    /// The opening frame.
    Hello(Hello),
    /// One event.
    Event(EventView),
    /// A liveness probe.
    Ping,
    /// The answer to one.
    Pong,
    /// Events were dropped.
    ReplayGap,
    /// Anything else.
    Unknown(JsonView),
}

impl ServerFrame {
    /// What the frame stands for.
    pub open spec fn view(&self) -> FrameView {
        match self {
            ServerFrame::Hello(hello) => FrameView::Hello(*hello),
            ServerFrame::Event(event) => FrameView::Event((*event)@),
            ServerFrame::Ping => FrameView::Ping,
            ServerFrame::Pong => FrameView::Pong,
            ServerFrame::ReplayGap => FrameView::ReplayGap,
            ServerFrame::Unknown(value) => FrameView::Unknown(value@),
        }
    }
}

/// Whether `kind` is one of the event names the protocol defines.
pub open spec fn event_kind(kind: Seq<char>) -> bool {
    ||| kind == "mail.received"@
    ||| kind == "mail.sent"@
    ||| kind == "mail.deleted"@
    ||| kind == "mail.read"@
    ||| kind == "mail.flag_changed"@
    ||| kind == "mail.moved"@
    ||| kind == "draft.created"@
    ||| kind == "draft.updated"@
    ||| kind == "delivery.updated"@
    ||| kind == "device.revoked"@
}

/// The `hello` fields, with the documented defaults.
pub open spec fn hello_in(value: JsonView) -> Hello {
    Hello {
        protocol_version: match value.member_uint64("protocol_version"@) {
            Some(version) => version as u64 as u32,
            None => CLIENT_PROTOCOL_VERSION,
        },
        heartbeat_secs: match value.member_uint64("heartbeat_secs"@) {
            Some(secs) => secs as u64,
            None => DEFAULT_HEARTBEAT_SECS,
        },
        last_seq: match value.member_int64("last_seq"@) {
            Some(seq) => Some(seq as i64),
            None => None,
        },
    }
}

/// The named fields of an event, with the raw JSON alongside.
pub open spec fn event_in(value: JsonView) -> EventView {
    EventView {
        seq: value.member_int64("seq"@),
        id: value.member_text("id"@),
        at: value.member_text("at"@),
        scope: value.member_text("scope"@),
        kind: match value.member_text("type"@) {
            Some(kind) => kind,
            None => Seq::empty(),
        },
        mailbox_id: value.member_int64("mailbox_id"@),
        message_id: value.member_int64("message_id"@),
        from: value.member_text("from"@),
        subject: value.member_text("subject"@),
        snippet: value.member_text("snippet"@),
        replay_gap: value.member_boolean("replay_gap"@) == Some(true),
        raw: value,
    }
}

/// The frame that an object with this `type` is.
pub open spec fn typed_frame(value: JsonView, kind: Seq<char>) -> FrameView {
    if kind == "hello"@ {
        FrameView::Hello(hello_in(value))
    } else if kind == "ping"@ {
        FrameView::Ping
    } else if kind == "pong"@ {
        FrameView::Pong
    } else if kind == "replay_gap"@ {
        FrameView::ReplayGap
    } else if event_kind(kind) {
        FrameView::Event(event_in(value))
    } else {
        FrameView::Unknown(value)
    }
}

/// The frame that a JSON value is: the string `"ping"` or `"pong"`, an object by
/// its `replay_gap` flag and then by its `type`, and anything else unknown.
pub open spec fn frame_in(value: JsonView) -> FrameView {
    match value {
        JsonView::Text(text) => if lowered(text) == "ping"@ {
            FrameView::Ping
        } else if lowered(text) == "pong"@ {
            FrameView::Pong
        } else {
            FrameView::Unknown(value)
        },
        JsonView::Object(_) => if value.member_boolean("replay_gap"@) == Some(true) {
            FrameView::ReplayGap
        } else {
            match value.member_text("type"@) {
                Some(kind) => typed_frame(value, kind),
                None => FrameView::Unknown(value),
            }
        },
        _ => FrameView::Unknown(value),
    }
}

/// The frame that a text is, or the message of the parse error. A bare `ping` or
/// `pong` is accepted even without its quotes.
pub open spec fn frame_of(text: Seq<char>) -> Result<FrameView, Seq<char>> {
    let body = trimmed(text);
    if body.len() == 0 {
        Err("the realtime socket sent an empty frame"@)
    } else if lowered(body) == "ping"@ {
        Ok(FrameView::Ping)
    } else if lowered(body) == "pong"@ {
        Ok(FrameView::Pong)
    } else {
        match json_read(body) {
            Ok(value) => Ok(frame_in(value)),
            Err(message) => Err(
                "the realtime socket sent a frame that is not JSON: "@ + message,
            ),
        }
    }
}

/// Whether a JSON value is an object with a type that the protocol defines, or with the
/// replay gap flag.
pub open spec fn placed(value: JsonView) -> bool {
    ||| value.member_boolean("replay_gap"@) == Some(true)
    ||| value.member_text("type"@) matches Some(kind) && (event_kind(kind) || kind == "hello"@
        || kind == "ping"@ || kind == "pong"@ || kind == "replay_gap"@)
}

/// A server that grows a new kind of frame cannot wedge the client: every JSON text is a
/// frame, and an object that cannot be placed is kept as it is.
pub proof fn law_unknown_frames_are_kept(text: Seq<char>, value: JsonView)
    requires
        trimmed(text).len() > 0,
        lowered(trimmed(text)) != "ping"@,
        lowered(trimmed(text)) != "pong"@,
        json_read(trimmed(text)) == Ok::<JsonView, Seq<char>>(value),
    ensures
        frame_of(text) is Ok,
        value is Object && !placed(value) ==> frame_of(text)->Ok_0 == FrameView::Unknown(value),
        frame_of(text)->Ok_0 matches FrameView::Unknown(kept) ==> kept == value,
{
}

/// The listed event names are exactly the known ones.
pub proof fn law_the_known_events_are_listed(kind: Seq<char>)
    ensures
        event_kind(kind) <==> exists|i: int|
            0 <= i < EVENT_KINDS@.len() && (#[trigger] EVENT_KINDS@[i])@ == kind,
{
    let kinds = EVENT_KINDS@;
    assert(kinds.len() == 10);
    assert(kinds[0]@ == "mail.received"@ && kinds[1]@ == "mail.sent"@);
    assert(kinds[2]@ == "mail.deleted"@ && kinds[3]@ == "mail.read"@);
    assert(kinds[4]@ == "mail.flag_changed"@ && kinds[5]@ == "mail.moved"@);
    assert(kinds[6]@ == "draft.created"@ && kinds[7]@ == "draft.updated"@);
    assert(kinds[8]@ == "delivery.updated"@ && kinds[9]@ == "device.revoked"@);
}

/// An event is read as the server wrote it: each field from the member of its own name, and the
/// whole of it is kept beside. Its kind is one that the protocol defines.
pub proof fn law_an_event_keeps_its_fields(value: JsonView)
    requires
        frame_in(value) is Event,
    ensures
        ({
            let event = frame_in(value)->Event_0;
            &&& value.member_text("type"@) == Some(event.kind) && event_kind(event.kind)
            &&& event.seq == value.member_int64("seq"@)
            &&& event.id == value.member_text("id"@)
            &&& event.at == value.member_text("at"@)
            &&& event.scope == value.member_text("scope"@)
            &&& event.mailbox_id == value.member_int64("mailbox_id"@)
            &&& event.message_id == value.member_int64("message_id"@)
            &&& event.from == value.member_text("from"@)
            &&& event.subject == value.member_text("subject"@)
            &&& event.snippet == value.member_text("snippet"@)
            &&& !event.replay_gap
            &&& event.raw == value
        }),
{
}

/// The opening frame is read as the server wrote it, and what it leaves out is what the protocol
/// says: this client's version, the usual heartbeat, and no sequence number.
pub proof fn law_a_hello_keeps_its_fields(value: JsonView)
    requires
        frame_in(value) is Hello,
    ensures
        ({
            let hello = frame_in(value)->Hello_0;
            &&& value.member_text("type"@) == Some("hello"@)
            &&& value.member_uint64("heartbeat_secs"@) matches Some(secs) ==> hello.heartbeat_secs
                == secs
            &&& value.member_uint64("heartbeat_secs"@) is None ==> hello.heartbeat_secs
                == DEFAULT_HEARTBEAT_SECS
            &&& value.member_uint64("protocol_version"@) matches Some(version) ==> (version
                <= u32::MAX ==> hello.protocol_version == version)
            &&& value.member_uint64("protocol_version"@) is None ==> hello.protocol_version
                == CLIENT_PROTOCOL_VERSION
            &&& value.member_int64("last_seq"@) matches Some(seq) ==> (hello.last_seq matches Some(
                n,
            ) && n == seq)
            &&& value.member_int64("last_seq"@) is None ==> hello.last_seq is None
        }),
{
    reveal_strlit("hello");
    reveal_strlit("mail.received");
    reveal_strlit("ping");
    reveal_strlit("pong");
    reveal_strlit("replay_gap");
    if let Some(version) = value.member_uint64("protocol_version"@) {
        if version <= u32::MAX {
            let wide = version as u64;
            assert(wide <= 0xffff_ffff ==> wide as u32 == wide) by (bit_vector);
        }
    }
}

/// A frame is taken for what it says it is: a gap if it says so in either way, a ping or a pong
/// by its word, bare, quoted or as a type, whatever the case of a bare one.
pub proof fn law_frames_are_what_they_say(text: Seq<char>, value: JsonView)
    ensures
        value is Object && value.member_boolean("replay_gap"@) == Some(true) ==> frame_in(value)
            is ReplayGap,
        frame_in(value) is ReplayGap ==> value.member_boolean("replay_gap"@) == Some(true)
            || value.member_text("type"@) == Some("replay_gap"@),
        frame_in(value) is Ping ==> value.member_text("type"@) == Some("ping"@) || (value matches
            JsonView::Text(word) && lowered(word) == "ping"@),
        frame_in(value) is Pong ==> value.member_text("type"@) == Some("pong"@) || (value matches
            JsonView::Text(word) && lowered(word) == "pong"@),
        lowered(trimmed(text)) == "ping"@ ==> frame_of(text) == Ok::<FrameView, Seq<char>>(
            FrameView::Ping,
        ),
        lowered(trimmed(text)) == "pong"@ ==> frame_of(text) == Ok::<FrameView, Seq<char>>(
            FrameView::Pong,
        ),
        frame_of(text) is Err <==> trimmed(text).len() == 0 || (lowered(trimmed(text)) != "ping"@
            && lowered(trimmed(text)) != "pong"@ && json_read(trimmed(text)) is Err),
{
    reveal_strlit("ping");
    reveal_strlit("pong");
    assert("ping"@[1] == 'i' && "pong"@[1] == 'o');
    assert("ping"@.len() == 4 && "pong"@.len() == 4);
    assert(lowered(trimmed(text)).len() == trimmed(text).len());
}

/// Whether `kind` is one of the event names the protocol defines.
pub fn is_event_kind(kind: &str) -> (result: bool)
    ensures
        result == event_kind(kind@),
{
    same(kind, "mail.received") || same(kind, "mail.sent") || same(kind, "mail.deleted") || same(
        kind,
        "mail.read",
    ) || same(kind, "mail.flag_changed") || same(kind, "mail.moved") || same(kind, "draft.created")
        || same(kind, "draft.updated") || same(kind, "delivery.updated") || same(
        kind,
        "device.revoked",
    )
}

/// Read the `hello` fields, falling back to the documented defaults.
fn hello_from(value: &Json) -> (result: Hello)
    ensures
        result == hello_in(value@),
{
    Hello {
        protocol_version: match value.uint_at("protocol_version") {
            Some(version) => version as u32,
            None => CLIENT_PROTOCOL_VERSION,
        },
        heartbeat_secs: match value.uint_at("heartbeat_secs") {
            Some(secs) => secs,
            None => DEFAULT_HEARTBEAT_SECS,
        },
        last_seq: value.int_at("last_seq"),
    }
}

/// Read an event frame, keeping the raw JSON alongside the named fields.
fn event_frame_from(value: &Json) -> (result: EventFrame)
    ensures
        result@ == event_in(value@),
{
    let kind = match value.text_at("type") {
        Some(kind) => kind,
        None => String::new(),
    };
    let replay_gap = match value.bool_at("replay_gap") {
        Some(flag) => flag,
        None => false,
    };
    EventFrame {
        seq: value.int_at("seq"),
        id: value.text_at("id"),
        at: value.text_at("at"),
        scope: value.text_at("scope"),
        kind,
        mailbox_id: value.int_at("mailbox_id"),
        message_id: value.int_at("message_id"),
        from: value.text_at("from"),
        subject: value.text_at("subject"),
        snippet: value.text_at("snippet"),
        replay_gap,
        raw: value.copy(),
    }
}

/// A bare `"ping"` / `"pong"` JSON *string* frame.
fn bare_string_frame(value: &Json) -> (result: Option<ServerFrame>)
    ensures
        match value@ {
            JsonView::Text(text) => if lowered(text) == "ping"@ {
                result == Some(ServerFrame::Ping)
            } else if lowered(text) == "pong"@ {
                result == Some(ServerFrame::Pong)
            } else {
                result is None
            },
            _ => result is None,
        },
{
    match value.as_str() {
        Some(text) => {
            let word = to_lower(text);
            if same(word.as_str(), "ping") {
                Some(ServerFrame::Ping)
            } else if same(word.as_str(), "pong") {
                Some(ServerFrame::Pong)
            } else {
                None
            }
        },
        None => None,
    }
}

/// The frame that a parsed JSON value is.
pub fn frame_from(value: Json) -> (result: ServerFrame)
    ensures
        result@ == frame_in(value@),
{
    match bare_string_frame(&value) {
        Some(frame) => {
            return frame;
        },
        None => {},
    }
    match &value {
        Json::Object(_) => {
            let gap = match value.bool_at("replay_gap") {
                Some(flag) => flag,
                None => false,
            };
            if gap {
                return ServerFrame::ReplayGap;
            }
            match value.text_at("type") {
                Some(kind) => {
                    let kind = kind.as_str();
                    if same(kind, "hello") {
                        return ServerFrame::Hello(hello_from(&value));
                    } else if same(kind, "ping") {
                        return ServerFrame::Ping;
                    } else if same(kind, "pong") {
                        return ServerFrame::Pong;
                    } else if same(kind, "replay_gap") {
                        return ServerFrame::ReplayGap;
                    } else if is_event_kind(kind) {
                        return ServerFrame::Event(Box::new(event_frame_from(&value)));
                    }
                },
                None => {},
            }
        },
        _ => {},
    }
    ServerFrame::Unknown(value)
}

/// Parse one text frame from the realtime socket.
///
/// Accepts `{"type":"hello",..}`, `{"type":"ping"}`, `{"type":"pong"}`,
/// `{"replay_gap":true}` (with or without an enclosing `type`), one of the
/// [`EVENT_KINDS`], a bare `"ping"`/`"pong"` string, and anything else JSON, which
/// becomes [`ServerFrame::Unknown`] and never an error. A frame that is not JSON at
/// all is [`ClientError::Parse`].
pub fn parse_frame(text: &str) -> (result: ClientResult<ServerFrame>)
    ensures
        match frame_of(text@) {
            Ok(frame) => result is Ok && result->Ok_0@ == frame,
            Err(message) => result matches Err(ClientError::Parse(m)) && m@ == message,
        },
{
    let body = trim(text);
    if body.as_str().is_empty() {
        return Err(ClientError::parse("the realtime socket sent an empty frame"));
    }
    let word = to_lower(body.as_str());
    if same(word.as_str(), "ping") {
        return Ok(ServerFrame::Ping);
    }
    if same(word.as_str(), "pong") {
        return Ok(ServerFrame::Pong);
    }
    match parse_json(body.as_str()) {
        Ok(value) => Ok(frame_from(value)),
        Err(message) => {
            let mut text = "the realtime socket sent a frame that is not JSON: ".to_owned();
            text.append(message.as_str());
            Err(ClientError::Parse(text))
        },
    }
}

// -- routing ---------------------------------------------------------------

/// What the client owes after one frame.
#[derive(Debug, Clone, Copy, PartialEq, Eq, Structural)]
pub enum RouterAction {
    /// Show a desktop notification (subject to the account's pause settings).
    Notify,
    /// Sync from the stored cursor before trusting anything else.
    SyncNow,
    /// Re-read the folder tree.
    RefreshFolders,
    /// Reload the drafts pane.
    ReloadDrafts,
    /// This device was revoked: clear the tokens and the cache, and sign out.
    SessionExpired,
    /// Nothing to do: the frame carries no client obligation.
    Ignore,
}

/// The routing table, by event kind.
pub open spec fn kind_actions(kind: Seq<char>) -> Seq<RouterAction> {
    if kind == "mail.received"@ {
        seq![RouterAction::Notify, RouterAction::SyncNow]
    } else if kind == "mail.sent"@ || kind == "mail.deleted"@ || kind == "mail.moved"@ || kind
        == "mail.flag_changed"@ || kind == "mail.read"@ {
        seq![RouterAction::SyncNow]
    } else if kind == "draft.created"@ || kind == "draft.updated"@ {
        seq![RouterAction::ReloadDrafts]
    } else if kind == "device.revoked"@ {
        seq![RouterAction::SessionExpired]
    } else if kind == "delivery.updated"@ {
        seq![RouterAction::Notify]
    } else {
        seq![RouterAction::Ignore]
    }
}

/// `actions`, with `action` at the end unless it is asked for already.
pub open spec fn with_action(actions: Seq<RouterAction>, action: RouterAction) -> Seq<
    RouterAction,
> {
    if actions.contains(action) {
        actions
    } else {
        actions.push(action)
    }
}

/// What each event calls for. Mail that changed is synced, and drafts that changed are reloaded,
/// whatever the change; the user is told of new mail and of what became of their own, before
/// anything is synced; a revoked device is signed out and does nothing else; and only a kind that
/// the protocol does not define is passed over.
pub proof fn law_each_event_calls_for_its_actions(kind: Seq<char>)
    ensures
        ({
            let actions = kind_actions(kind);
            &&& actions.len() > 0 && actions.no_duplicates()
            &&& actions.contains(RouterAction::SyncNow) <==> event_kind(kind) && begins_with(
                kind,
                "mail."@,
            )
            &&& actions.contains(RouterAction::ReloadDrafts) <==> event_kind(kind) && begins_with(
                kind,
                "draft."@,
            )
            &&& actions.contains(RouterAction::Notify) <==> kind == "mail.received"@ || kind
                == "delivery.updated"@
            &&& actions.contains(RouterAction::Notify) ==> actions[0] == RouterAction::Notify
            &&& actions.contains(RouterAction::SessionExpired) <==> kind == "device.revoked"@
            &&& actions.contains(RouterAction::SessionExpired) ==> actions.len() == 1
            &&& actions.contains(RouterAction::Ignore) <==> !event_kind(kind)
            &&& actions.contains(RouterAction::Ignore) ==> actions.len() == 1
            &&& !actions.contains(RouterAction::RefreshFolders)
        }),
{
    reveal_strlit("mail.");
    reveal_strlit("draft.");
    reveal_strlit("mail.received");
    reveal_strlit("mail.sent");
    reveal_strlit("mail.deleted");
    reveal_strlit("mail.read");
    reveal_strlit("mail.flag_changed");
    reveal_strlit("mail.moved");
    reveal_strlit("draft.created");
    reveal_strlit("draft.updated");
    reveal_strlit("delivery.updated");
    reveal_strlit("device.revoked");
    assert("mail.received"@.subrange(0, 5) =~= "mail."@);
    assert("mail.sent"@.subrange(0, 5) =~= "mail."@);
    assert("mail.deleted"@.subrange(0, 5) =~= "mail."@);
    assert("mail.read"@.subrange(0, 5) =~= "mail."@);
    assert("mail.flag_changed"@.subrange(0, 5) =~= "mail."@);
    assert("mail.moved"@.subrange(0, 5) =~= "mail."@);
    assert("draft.created"@.subrange(0, 6) =~= "draft."@);
    assert("draft.updated"@.subrange(0, 6) =~= "draft."@);
    assert("mail.received"@.len() == 13 && "draft.created"@.len() == 13);
    assert("draft.updated"@.len() == 13 && "delivery.updated"@.len() == 16);
    assert("mail.received"@[0] == 'm' && "mail.sent"@[0] == 'm' && "mail.deleted"@[0] == 'm');
    assert("mail.read"@[0] == 'm' && "mail.flag_changed"@[0] == 'm' && "mail.moved"@[0] == 'm');
    assert("draft.created"@[0] == 'd' && "draft.created"@[1] == 'r');
    assert("draft.updated"@[0] == 'd' && "draft.updated"@[1] == 'r');
    assert("delivery.updated"@[0] == 'd' && "delivery.updated"@[1] == 'e');
    assert("device.revoked"@[0] == 'd' && "device.revoked"@[1] == 'e');
    assert("device.revoked"@.len() == 14);
    assert("mail.sent"@.len() == 9 && "mail.deleted"@.len() == 12 && "mail.read"@.len() == 9);
    assert("mail.flag_changed"@.len() == 17 && "mail.moved"@.len() == 10);
    assert("mail."@[0] == 'm' && "draft."@[0] == 'd' && "draft."@[1] == 'r');
    assert("mail."@.len() == 5 && "draft."@.len() == 6);
    let actions = kind_actions(kind);
    assert(actions[0] == kind_actions(kind)[0]);
    if actions.len() == 2 {
        assert(actions[1] == RouterAction::SyncNow);
    }
    if begins_with(kind, "mail."@) {
        assert(kind[0] == kind.subrange(0, 5)[0]);
    }
    if begins_with(kind, "draft."@) {
        assert(kind[0] == kind.subrange(0, 6)[0]);
        assert(kind[1] == kind.subrange(0, 6)[1]);
    }
}

/// What a router has seen.
pub struct RouterView {
    /// How many event frames.
    pub seen: nat,
    /// The highest sequence number among them.
    pub last_seq: Option<int>,
}

impl RouterView {
    /// Whether a sequence number is not strictly greater than all earlier ones.
    pub open spec fn is_replay(self, seq: Option<int>) -> bool {
        match (seq, self.last_seq) {
            (Some(seq), Some(previous)) => seq <= previous,
            _ => false,
        }
    }

    /// The router after one more frame.
    pub open spec fn after(self, frame: FrameView) -> RouterView {
        match frame {
            FrameView::Event(event) => RouterView {
                seen: if self.seen < u64::MAX {
                    self.seen + 1
                } else {
                    self.seen
                },
                last_seq: if event.seq is Some && !self.is_replay(event.seq) {
                    event.seq
                } else {
                    self.last_seq
                },
            },
            _ => self,
        }
    }

    /// The actions that a frame calls for, in the order to take them.
    pub open spec fn actions(self, frame: FrameView) -> Seq<RouterAction> {
        match frame {
            FrameView::Hello(_) => seq![RouterAction::RefreshFolders],
            FrameView::ReplayGap => seq![RouterAction::SyncNow],
            FrameView::Event(event) => if self.is_replay(event.seq) {
                with_action(kind_actions(event.kind), RouterAction::SyncNow)
            } else {
                kind_actions(event.kind)
            },
            _ => seq![RouterAction::Ignore],
        }
    }
}

/// Turns frames into actions: it holds the two counters the UI wants and no I/O.
#[derive(Debug, Clone)]
pub struct EventRouter {
    events_seen: u64,
    last_seq: Option<i64>,
}

/// The routing table, by event kind.
fn actions_for_kind(kind: &str) -> (result: Vec<RouterAction>)
    ensures
        result@ == kind_actions(kind@),
{
    let mut actions: Vec<RouterAction> = Vec::new();
    if same(kind, "mail.received") {
        actions.push(RouterAction::Notify);
        actions.push(RouterAction::SyncNow);
    } else if same(kind, "mail.sent") || same(kind, "mail.deleted") || same(kind, "mail.moved")
        || same(kind, "mail.flag_changed") || same(kind, "mail.read") {
        actions.push(RouterAction::SyncNow);
    } else if same(kind, "draft.created") || same(kind, "draft.updated") {
        actions.push(RouterAction::ReloadDrafts);
    } else if same(kind, "device.revoked") {
        actions.push(RouterAction::SessionExpired);
    } else if same(kind, "delivery.updated") {
        actions.push(RouterAction::Notify);
    } else {
        actions.push(RouterAction::Ignore);
    }
    proof {
        assert(actions@ =~= kind_actions(kind@));
    }
    actions
}

/// Append `action` unless the list already asks for it.
fn push_unique(actions: &mut Vec<RouterAction>, action: RouterAction)
    ensures
        final(actions)@ == with_action(old(actions)@, action),
{
    let mut i: usize = 0;
    while i < actions.len()
        invariant
            i <= actions@.len(),
            actions@ == old(actions)@,
            forall|j: int| 0 <= j < i ==> actions@[j] != action,
        decreases actions@.len() - i,
    {
        if actions[i] == action {
            assert(old(actions)@.contains(action));
            return;
        }
        i = i + 1;
    }
    actions.push(action);
}

impl EventRouter {
    /// What the router has seen.
    pub closed spec fn view(&self) -> RouterView {
        RouterView { seen: self.events_seen as nat, last_seq: opt_int(self.last_seq) }
    }

    /// A router that has seen nothing.
    pub fn new() -> (result: EventRouter)
        ensures
            result@ == (RouterView { seen: 0, last_seq: None }),
    {
        EventRouter { events_seen: 0, last_seq: None }
    }

    /// The highest sequence number seen on the socket.
    ///
    /// It is only used to pass `cursor` on reconnect. A frame whose `seq` goes
    /// backwards never moves it down, because a cursor that moves backwards would
    /// replay events forever.
    pub fn last_seq(&self) -> (result: Option<i64>)
        ensures
            opt_int(result) == self@.last_seq,
    {
        self.last_seq
    }

    /// How many event frames this router has seen, including those whose kind this
    /// build does not route.
    pub fn events_seen(&self) -> (result: u64)
        ensures
            result == self@.seen,
    {
        self.events_seen
    }

    /// The actions `frame` calls for, in the order the client should take them.
    ///
    /// * `hello` -> [`RouterAction::RefreshFolders`];
    /// * `mail.received` -> [`RouterAction::Notify`] + [`RouterAction::SyncNow`];
    /// * `mail.sent` / `mail.deleted` / `mail.moved` / `mail.flag_changed` /
    ///   `mail.read` -> [`RouterAction::SyncNow`]: the user caused them;
    /// * `draft.created` / `draft.updated` -> [`RouterAction::ReloadDrafts`];
    /// * `device.revoked` -> [`RouterAction::SessionExpired`];
    /// * `delivery.updated` -> [`RouterAction::Notify`];
    /// * a replay gap -> [`RouterAction::SyncNow`];
    /// * anything else -> [`RouterAction::Ignore`];
    /// * a `seq` that is not strictly greater than the previous ones is a gap signal
    ///   too -> [`RouterAction::SyncNow`], added once, after the kind's own actions.
    pub fn observe(&mut self, frame: &ServerFrame) -> (result: Vec<RouterAction>)
        ensures
            final(self)@ == old(self)@.after(frame@),
            result@ == old(self)@.actions(frame@),
    {
        let event = match frame {
            ServerFrame::Event(event) => event,
            ServerFrame::Hello(_) => {
                return vec![RouterAction::RefreshFolders];
            },
            ServerFrame::ReplayGap => {
                return vec![RouterAction::SyncNow];
            },
            _ => {
                return vec![RouterAction::Ignore];
            },
        };
        self.events_seen = self.events_seen.saturating_add(1);
        let mut out_of_order = false;
        match event.seq {
            Some(seq) => {
                let replay = match self.last_seq {
                    Some(previous) => seq <= previous,
                    None => false,
                };
                if replay {
                    out_of_order = true;
                } else {
                    self.last_seq = Some(seq);
                }
            },
            None => {},
        }
        let mut actions = actions_for_kind(event.kind.as_str());
        if out_of_order {
            push_unique(&mut actions, RouterAction::SyncNow);
        }
        actions
    }
}

impl Default for EventRouter {
    fn default() -> (result: EventRouter)
        ensures
            result@ == (RouterView { seen: 0, last_seq: None }),
    {
        EventRouter::new()
    }
}

/// The router after a run of frames.
pub open spec fn after_all(router: RouterView, frames: Seq<FrameView>) -> RouterView
    decreases frames.len(),
{
    if frames.len() == 0 {
        router
    } else {
        after_all(router, frames.drop_last()).after(frames.last())
    }
}

/// How many of the frames are events.
pub open spec fn event_count(frames: Seq<FrameView>) -> nat
    decreases frames.len(),
{
    if frames.len() == 0 {
        0
    } else {
        event_count(frames.drop_last()) + if frames.last() is Event {
            1nat
        } else {
            0nat
        }
    }
}

/// The sequence number of an event frame.
pub open spec fn frame_seq(frame: FrameView) -> Option<int> {
    match frame {
        FrameView::Event(event) => event.seq,
        _ => None,
    }
}

/// The high-water mark: after any run of frames the router's sequence number is at
/// least every number it saw, it is one that it saw (or had), and it never moves
/// down; and every event frame was counted.
pub proof fn law_router_keeps_the_high_water_mark(router: RouterView, frames: Seq<FrameView>)
    ensures
        forall|i: int|
            0 <= i < frames.len() && frame_seq(#[trigger] frames[i]) is Some ==> after_all(
                router,
                frames,
            ).last_seq is Some && frame_seq(frames[i])->0 <= after_all(
                router,
                frames,
            ).last_seq->0,
        router.last_seq is Some ==> after_all(router, frames).last_seq is Some
            && router.last_seq->0 <= after_all(router, frames).last_seq->0,
        after_all(router, frames).last_seq == router.last_seq || exists|i: int|
            0 <= i < frames.len() && frame_seq(#[trigger] frames[i]) == after_all(
                router,
                frames,
            ).last_seq,
        router.seen + event_count(frames) <= u64::MAX ==> after_all(router, frames).seen
            == router.seen + event_count(frames),
    decreases frames.len(),
{
    if frames.len() > 0 {
        let earlier = frames.drop_last();
        let before = after_all(router, earlier);
        let after = after_all(router, frames);
        law_router_keeps_the_high_water_mark(router, earlier);
        assert forall|i: int|
            0 <= i < frames.len() && frame_seq(
                #[trigger] frames[i],
            ) is Some implies after.last_seq is Some && frame_seq(frames[i])->0
            <= after.last_seq->0 by {
            if i < earlier.len() {
                assert(earlier[i] == frames[i]);
            }
        }
        if after.last_seq == before.last_seq {
            if before.last_seq != router.last_seq {
                let i = choose|i: int|
                    0 <= i < earlier.len() && frame_seq(#[trigger] earlier[i]) == before.last_seq;
                assert(frames[i] == earlier[i]);
            }
        } else {
            assert(frame_seq(frames[frames.len() - 1]) == after.last_seq);
        }
    }
}

/// A gap signal always leads to a sync: a replay gap, and any event whose number is
/// not greater than one already seen, call for [`RouterAction::SyncNow`].
pub proof fn law_gaps_lead_to_a_sync(router: RouterView, frame: FrameView)
    requires
        frame is ReplayGap || router.is_replay(frame_seq(frame)),
    ensures
        router.actions(frame).contains(RouterAction::SyncNow),
{
    match frame {
        FrameView::Event(event) => {
            let own = kind_actions(event.kind);
            if !own.contains(RouterAction::SyncNow) {
                assert(own.push(RouterAction::SyncNow)[own.len() as int] == RouterAction::SyncNow);
            }
        },
        _ => {
            assert(router.actions(frame)[0] == RouterAction::SyncNow);
        },
    }
}

/// A number that does not go up is a gap, also if it stands still, and never moves the mark; the
/// first number and every higher one are none, and become the mark. An event is asked to sync for
/// no other reason than its kind and a gap.
pub proof fn law_a_number_that_stands_still_is_a_gap(router: RouterView, event: EventView)
    ensures
        ({
            let frame = FrameView::Event(event);
            let gap = event.seq is Some && router.last_seq is Some && event.seq->0
                <= router.last_seq->0;
            let synced = router.actions(frame).contains(RouterAction::SyncNow);
            &&& gap ==> synced && router.after(frame).last_seq == router.last_seq
            &&& !gap ==> router.actions(frame) == kind_actions(event.kind)
            &&& !gap && event.seq is Some ==> router.after(frame).last_seq == event.seq
            &&& event.seq is None ==> router.after(frame).last_seq == router.last_seq
        }),
{
    if router.is_replay(event.seq) {
        law_gaps_lead_to_a_sync(router, FrameView::Event(event));
    }
}

/// What the other frames call for: an opening frame has the folders read again, a gap a sync, and
/// the rest nothing; none of them counts as an event or moves the mark.
pub proof fn law_other_frames_call_for_their_actions(router: RouterView, frame: FrameView)
    requires
        !(frame is Event),
    ensures
        router.after(frame) == router,
        router.actions(frame).len() == 1,
        router.actions(frame)[0] == (if frame is Hello {
            RouterAction::RefreshFolders
        } else if frame is ReplayGap {
            RouterAction::SyncNow
        } else {
            RouterAction::Ignore
        }),
{
}

// -- the socket's address --------------------------------------------------

/// Everything a connection needs.
#[derive(Clone, PartialEq, Eq)]
pub struct EventStreamConfig {
    /// The full socket URL, normally from [`EventClient::event_url`].
    pub url: String,
    /// The bearer token the handshake authenticates with.
    pub token: String,
    /// The last sequence the client applied; sent as `?cursor=` on reconnect so the
    /// bus can replay what was missed.
    pub cursor: Option<String>,
    /// The heartbeat to assume until the server's `hello` says otherwise.
    pub heartbeat_secs: u64,
    /// The reconnect schedule.
    pub backoff: Backoff,
}

impl EventStreamConfig {
    /// A configuration for `url` with the documented heartbeat and backoff.
    pub fn new(url: &str, token: &str) -> (result: EventStreamConfig)
        ensures
            result.url@ == url@,
            result.token@ == token@,
            result.cursor is None,
            result.heartbeat_secs == DEFAULT_HEARTBEAT_SECS,
            result.backoff == (Backoff {
                base: Delay { millis: 1000 },
                max: Delay { millis: 60_000 },
            }),
    {
        EventStreamConfig {
            url: url.to_owned(),
            token: token.to_owned(),
            cursor: None,
            heartbeat_secs: DEFAULT_HEARTBEAT_SECS,
            backoff: Backoff::default(),
        }
    }

    /// The same configuration, resuming from `cursor`.
    pub fn resuming_from(self, cursor: &str) -> (result: EventStreamConfig)
        ensures
            result.url == self.url,
            result.token == self.token,
            opt_view(result.cursor) == Some(cursor@),
            result.heartbeat_secs == self.heartbeat_secs,
            result.backoff == self.backoff,
    {
        EventStreamConfig {
            url: self.url,
            token: self.token,
            cursor: Some(cursor.to_owned()),
            heartbeat_secs: self.heartbeat_secs,
            backoff: self.backoff,
        }
    }
}

/// How a backoff is shown, given how its growth factor and its jitter are.
pub open spec fn backoff_text(backoff: Backoff, factor: Seq<char>, jitter: Seq<char>) -> Seq<char> {
    "Backoff { base: "@ + delay_text(backoff.base.millis as nat) + ", max: "@ + delay_text(
        backoff.max.millis as nat,
    ) + ", factor: "@ + factor + ", jitter: "@ + jitter + " }"@
}

impl Backoff {
    /// The backoff for a log line, given how the factor that it grows by and the fraction
    /// that is randomised are shown: both are floating point, and the caller's.
    pub fn to_debug_string(&self, factor: &str, jitter: &str) -> (result: String)
        ensures
            result@ == backoff_text(*self, factor@, jitter@),
    {
        let mut out = concat3(
            "Backoff { base: ",
            self.base.to_debug_string().as_str(),
            ", max: ",
        );
        out.append(self.max.to_debug_string().as_str());
        out.append(", factor: ");
        out.append(factor);
        out.append(", jitter: ");
        out.append(jitter);
        out.append(" }");
        out
    }
}

/// How an optional cursor is shown.
pub open spec fn cursor_text(cursor: Option<Seq<char>>) -> Seq<char> {
    match cursor {
        Some(cursor) => "Some("@ + debug_text(cursor) + ")"@,
        None => "None"@,
    }
}

impl EventStreamConfig {
    /// The configuration for a log line. The token is never rendered: the field is
    /// named, the secret is not part of the text. `factor` and `jitter` are those of the
    /// backoff, as they are shown.
    pub fn to_debug_string(&self, factor: &str, jitter: &str) -> (result: String)
        ensures
            result@ == "EventStreamConfig { url: "@ + debug_text(self.url@)
                + ", token: \"<redacted>\", cursor: "@ + cursor_text(opt_view(self.cursor))
                + ", heartbeat_secs: "@ + digits(self.heartbeat_secs as nat) + ", backoff: "@
                + backoff_text(self.backoff, factor@, jitter@) + " }"@,
    {
        let mut out = concat3(
            "EventStreamConfig { url: ",
            debug_quoted(self.url.as_str()).as_str(),
            ", token: \"<redacted>\", cursor: ",
        );
        match &self.cursor {
            Some(cursor) => {
                out.append(concat3("Some(", debug_quoted(cursor.as_str()).as_str(), ")").as_str());
            },
            None => {
                out.append("None");
            },
        }
        out.append(", heartbeat_secs: ");
        out.append(decimal(self.heartbeat_secs).as_str());
        out.append(", backoff: ");
        out.append(self.backoff.to_debug_string(factor, jitter).as_str());
        out.append(" }");
        out
    }
}

/// The stateless half of the realtime client.
#[derive(Debug, Clone, Copy)]
pub struct EventClient;

/// Where the events of a base URL are, from a cursor when there is one that is not
/// empty.
pub open spec fn event_address(api_base: Seq<char>, cursor: Option<Seq<char>>) -> Seq<char> {
    let base = without_trailing(api_base, '/');
    match cursor {
        Some(cursor) => if cursor.len() > 0 {
            base + "/events?cursor="@ + url_encoded(cursor)
        } else {
            base + "/events"@
        },
        None => base + "/events"@,
    }
}

/// The view of an optional string slice.
pub open spec fn opt_str(value: Option<&str>) -> Option<Seq<char>> {
    match value {
        Some(s) => Some(s@),
        None => None,
    }
}

impl EventClient {
    /// `<base>/events?cursor=<c>`.
    ///
    /// `api_base` is the FCP client base, not the site root; a trailing `/` is
    /// ignored and the cursor is percent-encoded, so an opaque cursor cannot inject
    /// a query parameter.
    pub fn event_url(api_base: &str, cursor: Option<&str>) -> (result: String)
        ensures
            result@ == event_address(api_base@, opt_str(cursor)),
    {
        let mut out = trim_trailing(api_base, '/');
        match cursor {
            Some(cursor) => if !cursor.is_empty() {
                out.append("/events?cursor=");
                out.append(urlencode(cursor).as_str());
            } else {
                out.append("/events");
            },
            None => {
                out.append("/events");
            },
        }
        out
    }
}

/// The URL to dial: `url`, with the cursor appended when there is one that is not
/// empty and the URL does not carry one already.
pub open spec fn dialled(url: Seq<char>, cursor: Option<Seq<char>>) -> Seq<char> {
    match cursor {
        Some(cursor) => if cursor.len() > 0 && !holds(url, "cursor="@) {
            url + (if holds(url, "?"@) {
                "&"@
            } else {
                "?"@
            }) + "cursor="@ + url_encoded(cursor)
        } else {
            url
        },
        None => url,
    }
}

/// The URL to dial: `url`, with `cursor` appended when the config names one the
/// URL does not already carry.
pub fn url_with_cursor(url: &str, cursor: Option<&str>) -> (result: String)
    ensures
        result@ == dialled(url@, opt_str(cursor)),
{
    match cursor {
        Some(cursor) => if !cursor.is_empty() && !contains(url, "cursor=") {
            let mut out = url.to_owned();
            if contains(url, "?") {
                out.append("&");
            } else {
                out.append("?");
            }
            out.append("cursor=");
            out.append(urlencode(cursor).as_str());
            out
        } else {
            url.to_owned()
        },
        None => url.to_owned(),
    }
}

/// Where to open a socket.
#[derive(Debug, Clone, PartialEq, Eq)]
pub struct SocketTarget {
    /// The host to connect to.
    pub host: String,
    /// The port to connect to.
    pub port: u16,
    /// Whether to wrap the connection in TLS.
    pub tls: bool,
}

/// What a [`SocketTarget`] stands for.
pub struct TargetView {
    /// The host.
    pub host: Seq<char>,
    /// The port.
    pub port: u16,
    /// Whether TLS is used.
    pub tls: bool,
}

impl SocketTarget {
    /// What the target stands for.
    pub open spec fn view(&self) -> TargetView {
        TargetView { host: self.host@, port: self.port, tls: self.tls }
    }
}

/// Where a realtime URL leads, given what the URL parser made of it, or the message
/// of the error: only `ws://` and `wss://` with a host will do.
pub open spec fn target_in(url: Seq<char>, parsed: Result<UrlView, Seq<char>>) -> Result<
    TargetView,
    Seq<char>,
> {
    match parsed {
        Err(message) => Err(
            "not a realtime URL: "@ + debug_text(url) + " ("@ + message + ")"@,
        ),
        Ok(parts) => if parts.scheme != "ws"@ && parts.scheme != "wss"@ {
            Err("a realtime URL must be ws:// or wss://, not "@ + parts.scheme + "://"@)
        } else {
            match parts.host {
                None => Err("the realtime URL "@ + debug_text(url) + " has no host"@),
                Some(host) => Ok(
                    TargetView {
                        host,
                        port: match parts.port {
                            Some(port) => port,
                            None => 80,
                        },
                        tls: parts.scheme == "wss"@,
                    },
                ),
            }
        },
    }
}

/// Where a realtime URL leads, given what the URL parser made of it.
pub fn target_from(url: &str, parsed: Result<UrlParts, String>) -> (result: ClientResult<
    SocketTarget,
>)
    ensures
        match target_in(url@, parsed_view(parsed)) {
            Ok(target) => result is Ok && result->Ok_0@ == target,
            Err(message) => result matches Err(ClientError::Invalid(m)) && m@ == message,
        },
{
    let parts = match parsed {
        Ok(parts) => parts,
        Err(message) => {
            let mut text = concat3("not a realtime URL: ", debug_quoted(url).as_str(), " (");
            text.append(message.as_str());
            text.append(")");
            return Err(ClientError::Invalid(text));
        },
    };
    if !same(parts.scheme.as_str(), "ws") && !same(parts.scheme.as_str(), "wss") {
        return Err(
            ClientError::Invalid(
                concat3(
                    "a realtime URL must be ws:// or wss://, not ",
                    parts.scheme.as_str(),
                    "://",
                ),
            ),
        );
    }
    match parts.host {
        None => Err(
            ClientError::Invalid(
                concat3("the realtime URL ", debug_quoted(url).as_str(), " has no host"),
            ),
        ),
        Some(host) => {
            let port: u16 = match parts.port {
                Some(port) => port,
                None => 80,
            };
            Ok(SocketTarget { host, port, tls: same(parts.scheme.as_str(), "wss") })
        },
    }
}

/// Where a realtime URL leads.
pub fn socket_target(url: &str) -> (result: ClientResult<SocketTarget>)
    ensures
        match target_in(url@, url_read(url@)) {
            Ok(target) => result is Ok && result->Ok_0@ == target,
            Err(message) => result matches Err(ClientError::Invalid(m)) && m@ == message,
        },
{
    target_from(url, parse_url(url))
}

/// A cursor is asked for once and as it is: dialling adds it to a URL that has none, after a
/// question mark or, where there is one, after an ampersand, and leaves the rest of the URL alone;
/// a URL that carries a cursor is dialled as it is. The address of the events is the same
/// whichever way the cursor got there.
pub proof fn law_a_cursor_is_asked_for_once(url: Seq<char>, cursor: Seq<char>)
    requires
        cursor.len() > 0,
    ensures
        ({
            let once = dialled(url, Some(cursor));
            &&& begins_with(once, url)
            &&& holds(once, "cursor="@)
            &&& dialled(once, Some(cursor)) == once
            &&& holds(url, "cursor="@) ==> once == url
            &&& !holds(url, "cursor="@) && !holds(url, "?"@) ==> once == url + "?cursor="@
                + url_encoded(cursor)
            &&& !holds(url, "cursor="@) && holds(url, "?"@) ==> once == url + "&cursor="@
                + url_encoded(cursor)
            &&& dialled(url, None) == url
            &&& dialled(url, Some(Seq::empty())) == url
        }),
        ({
            let plain = event_address(url, None);
            &&& plain == without_trailing(url, '/') + "/events"@
            &&& event_address(url, Some(Seq::empty())) == plain
            &&& !holds(plain, "cursor="@) && !holds(plain, "?"@) ==> event_address(
                url,
                Some(cursor),
            ) == dialled(plain, Some(cursor))
        }),
{
    reveal_strlit("?");
    reveal_strlit("&");
    reveal_strlit("cursor=");
    reveal_strlit("?cursor=");
    reveal_strlit("&cursor=");
    reveal_strlit("/events");
    reveal_strlit("/events?cursor=");
    let tail = url_encoded(cursor);
    assert("?cursor="@ =~= "?"@ + "cursor="@);
    assert("&cursor="@ =~= "&"@ + "cursor="@);
    assert("/events?cursor="@ =~= "/events"@ + "?cursor="@);
    let once = dialled(url, Some(cursor));
    assert(once.subrange(0, url.len() as int) =~= url);
    if !holds(url, "cursor="@) {
        let mark = if holds(url, "?"@) {
            "&"@
        } else {
            "?"@
        };
        assert(once =~= url + (mark + "cursor="@) + tail);
        let at = url.len() as int + 1;
        assert(stands_at(once, "cursor="@, at)) by {
            assert(once.subrange(at, at + "cursor="@.len()) =~= "cursor="@);
        }
    }
    let base = without_trailing(url, '/');
    let plain = event_address(url, None);
    assert(base + "/events?cursor="@ + tail =~= plain + "?cursor="@ + tail);
    if !holds(plain, "cursor="@) && !holds(plain, "?"@) {
        assert(plain + "?"@ + "cursor="@ + tail =~= plain + "?cursor="@ + tail);
    }
}

/// A realtime URL leads where it says: to its own host and port, encrypted exactly if its scheme
/// says so, and nothing but the two realtime schemes is dialled.
pub proof fn law_a_socket_goes_where_the_url_says(url: Seq<char>, parts: UrlView)
    ensures
        ({
            let target = target_in(url, Ok(parts));
            let realtime = parts.scheme == "ws"@ || parts.scheme == "wss"@;
            &&& target is Ok <==> realtime && parts.host is Some
            &&& target matches Ok(there) ==> {
                &&& parts.host == Some(there.host)
                &&& parts.port is Some ==> parts.port == Some(there.port)
                &&& there.tls <==> parts.scheme != "ws"@
            }
        }),
{
    reveal_strlit("ws");
    reveal_strlit("wss");
    assert("ws"@.len() == 2 && "wss"@.len() == 3);
}

// -- the connection --------------------------------------------------------

/// One thing off the socket.
#[derive(Debug, Clone, PartialEq, Eq)]
pub enum SocketMessage {
    /// A text message.
    Text(String),
    /// A binary message.
    Binary(Vec<u8>),
    /// A WebSocket ping.
    Ping,
    /// A WebSocket pong.
    Pong,
    /// A WebSocket close.
    Close,
    /// A raw frame, which is never handed out while reading.
    Raw,
    /// The stream ended.
    Ended,
    /// The socket failed, in words.
    Failed(String),
}

/// What a message comes to.
#[derive(Debug, Clone, PartialEq, Eq)]
pub enum Received {
    /// A frame for the caller.
    Frame(ServerFrame),
    /// Nothing; read on.
    Skipped,
    /// The connection is over.
    Closed,
}

/// `std::str::from_utf8` on bytes, made into an owned string: the text when the
/// bytes are valid UTF-8, and only then.
#[verifier::external_body]
fn decode_utf8(bytes: &[u8]) -> (result: Option<String>)
    ensures
        match result {
            Some(text) => vstd::utf8::valid_utf8(bytes@) && text@ == vstd::utf8::decode_utf8(
                bytes@,
            ),
            None => !vstd::utf8::valid_utf8(bytes@),
        },
{
    std::str::from_utf8(bytes).ok().map(|text| text.to_string())
}

/// What a connection knows.
pub struct ConnectionView {
    /// Whether the socket is open.
    pub open: bool,
    /// The heartbeat in milliseconds.
    pub heartbeat: int,
    /// When the last message arrived, in nanoseconds since the Unix epoch.
    pub last_inbound: int,
}

/// An open realtime socket, without the socket: whether it is open, and the
/// heartbeat clock.
#[derive(Debug, Clone, PartialEq, Eq)]
pub struct EventConnection {
    open: bool,
    heartbeat: Delay,
    last_inbound: i128,
}

/// The longest heartbeat, in milliseconds.
pub open spec fn longest_heartbeat() -> int {
    u64::MAX * 1000
}

impl ConnectionView {
    /// The heartbeat is at least a second.
    pub open spec fn wf(self) -> bool {
        1000 <= self.heartbeat <= longest_heartbeat()
    }

    /// Whether a heartbeat has passed since the last message.
    pub open spec fn ping_due(self, now: int) -> bool {
        now - self.last_inbound >= self.heartbeat * 1_000_000
    }

    /// The connection after a frame: a `hello` sets the heartbeat.
    pub open spec fn adopting(self, frame: FrameView) -> ConnectionView {
        match frame {
            FrameView::Hello(hello) => ConnectionView {
                heartbeat: at_least_one(hello.heartbeat_secs) * 1000,
                ..self
            },
            _ => self,
        }
    }

    /// The connection after a message at `now`, and what the message comes to (or
    /// the message of the parse error).
    pub open spec fn reading(self, text: Seq<char>, now: int) -> (
        ConnectionView,
        Result<FrameView, Seq<char>>,
    ) {
        let alive = ConnectionView { last_inbound: now, ..self };
        match frame_of(text) {
            Ok(frame) => (alive.adopting(frame), Ok(frame)),
            Err(message) => (alive, Err(message)),
        }
    }
}

impl EventConnection {
    /// What the connection knows.
    pub closed spec fn view(&self) -> ConnectionView {
        ConnectionView {
            open: self.open,
            heartbeat: self.heartbeat.millis as int,
            last_inbound: self.last_inbound as int,
        }
    }

    /// A connection whose socket was opened at `now`.
    pub fn start(heartbeat_secs: u64, now: i128) -> (result: EventConnection)
        ensures
            result@.wf(),
            result@ == (ConnectionView {
                open: true,
                heartbeat: at_least_one(heartbeat_secs) * 1000,
                last_inbound: now as int,
            }),
    {
        EventConnection {
            open: true,
            heartbeat: Delay::from_secs(
                if heartbeat_secs >= 1 {
                    heartbeat_secs
                } else {
                    1
                },
            ),
            last_inbound: now,
        }
    }

    /// Whether the socket is still open.
    pub fn is_open(&self) -> (result: bool)
        ensures
            result == self@.open,
    {
        self.open
    }

    /// The heartbeat currently in force.
    pub fn heartbeat(&self) -> (result: Delay)
        ensures
            result.millis == self@.heartbeat,
    {
        self.heartbeat
    }

    /// Note that the socket is done.
    pub fn close(&mut self)
        ensures
            final(self)@ == (ConnectionView { open: false, ..old(self)@ }),
    {
        self.open = false;
    }

    /// Whether a heartbeat has passed since the last inbound message, so the caller
    /// knows to send a ping.
    ///
    /// A `now` that is *before* the last inbound message (a clock that stepped
    /// backwards) answers `false`, so a bad clock cannot turn into a ping storm.
    pub fn should_ping(&self, now: i128) -> (result: bool)
        requires
            self@.wf(),
        ensures
            result == self@.ping_due(now as int),
    {
        if now <= self.last_inbound {
            return false;
        }
        let heartbeat: i128 = (self.heartbeat.millis * 1_000_000) as i128;
        match now.checked_sub(self.last_inbound) {
            Some(elapsed) => elapsed >= heartbeat,
            None => true,
        }
    }

    /// Record that a message arrived at `now`, restarting the heartbeat clock.
    pub fn note_inbound(&mut self, now: i128)
        ensures
            final(self)@ == (ConnectionView { last_inbound: now as int, ..old(self)@ }),
    {
        self.last_inbound = now;
    }

    /// Take the heartbeat the server asked for in its `hello`.
    pub fn adopt_heartbeat(&mut self, frame: &ServerFrame)
        requires
            old(self)@.wf(),
        ensures
            final(self)@ == old(self)@.adopting(frame@),
            final(self)@.wf(),
    {
        match frame {
            ServerFrame::Hello(hello) => {
                self.heartbeat = hello.heartbeat();
            },
            _ => {},
        }
    }

    /// Read a text message.
    fn read_text(&mut self, text: &str, now: i128) -> (result: ClientResult<Received>)
        requires
            old(self)@.wf(),
        ensures
            final(self)@ == old(self)@.reading(text@, now as int).0,
            final(self)@.wf(),
            match old(self)@.reading(text@, now as int).1 {
                Ok(view) => {
                    &&& result matches Ok(Received::Frame(frame))
                    &&& frame@ == view
                },
                Err(message) => result matches Err(ClientError::Parse(m)) && m@ == message,
            },
    {
        self.note_inbound(now);
        match parse_frame(text) {
            Ok(frame) => {
                self.adopt_heartbeat(&frame);
                Ok(Received::Frame(frame))
            },
            Err(error) => Err(error),
        }
    }

    /// Decide what one thing off the socket means.
    ///
    /// Anything that arrives is evidence of life, even if it is skipped. Text, and
    /// binary that happens to be UTF-8, is parsed as a frame; other binary and raw
    /// frames are skipped; a ping or pong is handed on; a close or the end of the
    /// stream closes the connection, and so does a failure, which is an error. A
    /// `hello` frame replaces the heartbeat with the one the server asked for. A
    /// connection that is closed gives nothing more.
    pub fn on_message(&mut self, message: SocketMessage, now: i128) -> (result: ClientResult<
        Received,
    >)
        requires
            old(self)@.wf(),
        ensures
            final(self)@.wf(),
            !old(self)@.open ==> final(self)@ == old(self)@ && result == ClientResult::Ok(
                Received::Closed,
            ),
            final(self)@.open <==> old(self)@.open && !(message is Close) && !(message is Ended)
                && !(message is Failed),
            old(self)@.open && !(message is Ended) && !(message is Failed)
                ==> final(self)@.last_inbound == now,
            final(self)@.heartbeat != old(self)@.heartbeat ==> (result matches Ok(Received::Frame(f))
                && f is Hello),
            result matches Ok(Received::Closed) ==> !final(self)@.open,
            old(self)@.open ==> ({
                let alive = ConnectionView { last_inbound: now as int, ..old(self)@ };
                let shut = ConnectionView { open: false, ..old(self)@ };
                match message {
                    SocketMessage::Text(text) => {
                        let (after, frame) = old(self)@.reading(text@, now as int);
                        &&& final(self)@ == after
                        &&& match frame {
                            Ok(view) => {
                                &&& result matches Ok(Received::Frame(f))
                                &&& f@ == view
                            },
                            Err(text) => result matches Err(ClientError::Parse(m)) && m@ == text,
                        }
                    },
                    SocketMessage::Binary(bytes) => if vstd::utf8::valid_utf8(bytes@) {
                        let (after, frame) = old(self)@.reading(
                            vstd::utf8::decode_utf8(bytes@),
                            now as int,
                        );
                        &&& final(self)@ == after
                        &&& match frame {
                            Ok(view) => {
                                &&& result matches Ok(Received::Frame(f))
                                &&& f@ == view
                            },
                            Err(text) => result matches Err(ClientError::Parse(m)) && m@ == text,
                        }
                    } else {
                        final(self)@ == alive && result == ClientResult::Ok(Received::Skipped)
                    },
                    SocketMessage::Ping => final(self)@ == alive && result == ClientResult::Ok(
                        Received::Frame(ServerFrame::Ping),
                    ),
                    SocketMessage::Pong => final(self)@ == alive && result == ClientResult::Ok(
                        Received::Frame(ServerFrame::Pong),
                    ),
                    SocketMessage::Close => final(self)@ == (ConnectionView {
                        open: false,
                        ..alive
                    }) && result == ClientResult::Ok(Received::Closed),
                    SocketMessage::Raw => final(self)@ == alive && result == ClientResult::Ok(
                        Received::Skipped,
                    ),
                    SocketMessage::Ended => final(self)@ == shut && result == ClientResult::Ok(
                        Received::Closed,
                    ),
                    SocketMessage::Failed(text) => {
                        &&& final(self)@ == shut
                        &&& result matches Err(ClientError::WebSocket(m)) && m@
                            == "the realtime socket failed: "@ + text@
                    },
                }
            }),
    {
        if !self.open {
            return Ok(Received::Closed);
        }
        match message {
            SocketMessage::Ended => {
                self.open = false;
                Ok(Received::Closed)
            },
            SocketMessage::Failed(text) => {
                self.open = false;
                let mut message = "the realtime socket failed: ".to_owned();
                message.append(text.as_str());
                Err(ClientError::WebSocket(message))
            },
            SocketMessage::Text(text) => self.read_text(text.as_str(), now),
            SocketMessage::Binary(bytes) => match decode_utf8(bytes.as_slice()) {
                Some(text) => self.read_text(text.as_str(), now),
                None => {
                    self.note_inbound(now);
                    Ok(Received::Skipped)
                },
            },
            SocketMessage::Ping => {
                self.note_inbound(now);
                Ok(Received::Frame(ServerFrame::Ping))
            },
            SocketMessage::Pong => {
                self.note_inbound(now);
                Ok(Received::Frame(ServerFrame::Pong))
            },
            SocketMessage::Close => {
                self.note_inbound(now);
                self.open = false;
                Ok(Received::Closed)
            },
            SocketMessage::Raw => {
                self.note_inbound(now);
                Ok(Received::Skipped)
            },
        }
    }
}

/// A clock that steps backwards never asks for a ping, and a message restarts the
/// clock: right after one there is nothing to ask for.
pub proof fn law_a_bad_clock_never_pings(connection: ConnectionView, now: int)
    requires
        connection.wf(),
        now <= connection.last_inbound,
    ensures
        !connection.ping_due(now),
{
}

/// A silent server is asked exactly when it has been silent for a heartbeat, which is counted in
/// milliseconds and told in nanoseconds, and from then on; a message puts the question off by a
/// whole heartbeat.
pub proof fn law_silence_is_measured_in_heartbeats(connection: ConnectionView, now: int, later: int)
    requires
        connection.wf(),
        now <= later,
    ensures
        ({
            let beat = connection.heartbeat * 1_000_000;
            let heard = ConnectionView { last_inbound: now, ..connection };
            &&& connection.ping_due(connection.last_inbound + beat)
            &&& !connection.ping_due(connection.last_inbound + beat - 1)
            &&& connection.ping_due(now) ==> connection.ping_due(later)
            &&& heard.ping_due(later) <==> later >= now + beat
        }),
{
}

/// Whatever is read is a sign of life, also if it cannot be understood, and reading never closes
/// the connection; what is read is what the text says.
pub proof fn law_whatever_is_read_is_a_sign_of_life(
    connection: ConnectionView,
    text: Seq<char>,
    now: int,
)
    requires
        connection.wf(),
    ensures
        connection.reading(text, now).0.last_inbound == now,
        connection.reading(text, now).0.open == connection.open,
        connection.reading(text, now).0.wf(),
        !connection.reading(text, now).0.ping_due(now),
        connection.reading(text, now).1 == frame_of(text),
        !(frame_of(text) matches Ok(FrameView::Hello(_))) ==> connection.reading(text, now).0.heartbeat
            == connection.heartbeat,
{
}

/// The heartbeat is the one that the server's last `hello` asked for, in seconds and never none,
/// and nothing else that it sends changes it or closes the connection.
pub proof fn law_a_hello_sets_the_heartbeat(connection: ConnectionView, frame: FrameView)
    ensures
        frame matches FrameView::Hello(hello) ==> {
            &&& hello.heartbeat_secs > 0 ==> connection.adopting(frame).heartbeat
                == hello.heartbeat_secs * 1000
            &&& hello.heartbeat_secs == 0 ==> connection.adopting(frame).heartbeat == 1000
            &&& connection.adopting(frame).wf()
        },
        !(frame is Hello) ==> connection.adopting(frame).heartbeat == connection.heartbeat,
        connection.adopting(frame).open == connection.open,
        connection.adopting(frame).last_inbound == connection.last_inbound,
{
}

} // verus!
