//! The FCP HTTP client: error envelopes, the retry policy, request building and
//! the data that travels.

use vstd::prelude::*;

use vstd::arithmetic::power2::{
    lemma2_to64, lemma_pow2_pos, lemma_pow2_strictly_increases, lemma_pow2_unfold, pow2,
};

use crate::delay::Delay;
use crate::json::{option_view, Json, JsonView};
use crate::text::{
    all_blank, begins_with, copy_opt, decimal, digits, finishes_with, is_blank, is_digit,
    law_numbers_read_back, law_trimming_takes_blanks_off_the_ends, lemma_digits, opt_view,
    parse_u64, parsed_u64, same, shortened, trim, trimmed, truncate, views,
};

verus! {

/// The client name sent in `X-Ferroma-Client` and `User-Agent`.
pub const CLIENT_NAME: &'static str = "FerromaClient";

/// The version of this client.
pub const VERSION: &'static str = "0.1.0";

/// Header announcing which client is calling.
pub const HEADER_CLIENT: &'static str = "X-Ferroma-Client";

/// Header announcing which protocol version the client speaks.
pub const HEADER_PROTOCOL: &'static str = "X-Ferroma-Protocol";

/// Header announcing the operating system.
pub const HEADER_PLATFORM: &'static str = "X-Ferroma-Platform";

/// The protocol version this client implements.
pub const CLIENT_PROTOCOL_VERSION: u32 = 1;

/// A structured FCP error: the documented envelope.
#[derive(Debug, Clone, PartialEq, Eq)]
pub struct ApiError {
    /// The HTTP status code.
    pub status: u16,
    /// The stable, machine-readable code.
    pub code: String,
    /// The human-readable message.
    pub message: String,
    /// Optional structured detail.
    pub details: Option<Json>,
    /// The wait a `429` asked for, parsed from `Retry-After`.
    pub retry_after: Option<Delay>,
}

/// Whether a status is one that may be repeated: `429`, or any `5xx`.
pub open spec fn retryable_status(status: u16) -> bool {
    status == 429 || 500 <= status < 600
}

/// A failure on the server's side, whichever of its class, may be repeated, and so may what came
/// too soon. No other answer is asked for twice.
pub proof fn law_only_the_servers_failures_are_repeated(status: u16, other: u16)
    ensures
        status / 100 == 5 ==> retryable_status(status),
        status / 100 == 4 && retryable_status(status) ==> status == 429,
        retryable_status(429),
        retryable_status(status) ==> status >= 400,
        retryable_status(status) && status != 429 && other / 100 == status / 100
            ==> retryable_status(other),
        retryable_status(status) ==> status / 100 == 4 || status / 100 == 5,
{
}

/// `<status> <code>: <message>`
pub open spec fn status_line(status: u16, code: Seq<char>, message: Seq<char>) -> Seq<char> {
    digits(status as nat) + " "@ + code + ": "@ + message
}

/// `HTTP <status> <code>: <message>`
pub open spec fn api_error_text(status: u16, code: Seq<char>, message: Seq<char>) -> Seq<char> {
    "HTTP "@ + status_line(status, code, message)
}

impl ApiError {
    /// Build an error from its parts.
    pub fn new(status: u16, code: &str, message: &str) -> (result: ApiError)
        ensures
            result.status == status,
            result.code@ == code@,
            result.message@ == message@,
            result.details is None,
            result.retry_after is None,
    {
        ApiError {
            status,
            code: code.to_owned(),
            message: message.to_owned(),
            details: None,
            retry_after: None,
        }
    }

    /// Whether retrying could plausibly succeed.
    pub fn is_retryable(&self) -> (result: bool)
        ensures
            result == retryable_status(self.status),
    {
        status_is_retryable(self.status)
    }

    /// Whether the server said the client's protocol is too old (`426`).
    pub fn is_upgrade_required(&self) -> (result: bool)
        ensures
            result == (self.status == 426),
    {
        self.status == 426
    }

    /// `<status> <code>: <message>`
    pub fn status_line(&self) -> (result: String)
        ensures
            result@ == status_line(self.status, self.code@, self.message@),
    {
        let mut out = decimal(self.status as u64);
        out.append(" ");
        out.append(self.code.as_str());
        out.append(": ");
        out.append(self.message.as_str());
        out
    }

    /// The whole message, for a log or a terminal.
    pub fn to_string(&self) -> (result: String)
        ensures
            result@ == api_error_text(self.status, self.code@, self.message@),
    {
        let mut out = "HTTP ".to_owned();
        out.append(self.status_line().as_str());
        out
    }
}

/// Whether a status is one the retry policy may repeat.
pub fn status_is_retryable(status: u16) -> (result: bool)
    ensures
        result == retryable_status(status),
{
    status == 429 || (500 <= status && status < 600)
}

// -- the error envelope ----------------------------------------------------

/// What `String::from_utf8_lossy` makes of bytes.
pub uninterp spec fn lossy_text(bytes: Seq<u8>) -> Seq<char>;

/// `String::from_utf8_lossy`, made into an owned string. Bytes that are valid
/// UTF-8 are decoded; what it makes of any other bytes is called [`lossy_text`].
#[verifier::external_body]
fn decode_lossy(bytes: &[u8]) -> (result: String)
    ensures
        result@ == lossy_text(bytes@),
        vstd::utf8::valid_utf8(bytes@) ==> result@ == vstd::utf8::decode_utf8(bytes@),
{
    String::from_utf8_lossy(bytes).into_owned()
}

/// The documented error envelope, `{"error": {"code": .., "message": .., "details": ..}}`.
#[derive(Debug, Clone, PartialEq, Eq)]
pub struct Envelope {
    /// The machine-readable code; empty when the server sent none.
    pub code: String,
    /// The human-readable message; empty when the server sent none.
    pub message: String,
    /// Structured detail, if any.
    pub details: Option<Json>,
}

/// What an [`Envelope`] stands for.
pub struct EnvelopeView {
    /// The code.
    pub code: Seq<char>,
    /// The message.
    pub message: Seq<char>,
    /// The detail.
    pub details: Option<JsonView>,
}

impl Envelope {
    /// What the envelope stands for.
    pub open spec fn view(&self) -> EnvelopeView {
        EnvelopeView {
            code: self.code@,
            message: self.message@,
            details: option_view(self.details),
        }
    }
}

/// The message of an error whose body is not the documented envelope: an excerpt
/// of at most two hundred characters, or a note that there was nothing.
pub open spec fn plain_message(status: u16, text: Seq<char>) -> Seq<char> {
    if trimmed(text).len() == 0 {
        "HTTP "@ + digits(status as nat) + " with an empty body"@
    } else {
        "HTTP "@ + digits(status as nat) + ": "@ + shortened(trimmed(text), 200)
    }
}

/// Whether `error` is what a response stands for, given the envelope that its body holds, if
/// it holds one, and the body as text.
pub open spec fn error_of(
    error: ApiError,
    status: u16,
    envelope: Option<EnvelopeView>,
    text: Seq<char>,
    retry_after: Option<Delay>,
) -> bool {
    &&& error.status == status
    &&& error.retry_after == retry_after
    &&& match envelope {
        Some(envelope) => error.code@ == envelope.code && error.message@ == envelope.message
            && option_view(error.details) == envelope.details,
        None => error.code@ == "http_"@ + digits(status as nat) && error.message@
            == plain_message(status, text) && error.details is None,
    }
}

/// What an optional envelope stands for.
pub open spec fn envelope_view(envelope: Option<Envelope>) -> Option<EnvelopeView> {
    match envelope {
        Some(envelope) => Some(envelope@),
        None => None,
    }
}

impl ApiError {
    /// The error that a response stands for, given its body's envelope when it
    /// has one and the body as text.
    pub fn from_envelope(
        status: u16,
        envelope: Option<Envelope>,
        text: &str,
        retry_after: Option<Delay>,
    ) -> (result: ApiError)
        ensures
            error_of(result, status, envelope_view(envelope), text@, retry_after),
    {
        match envelope {
            Some(envelope) => ApiError {
                status,
                code: envelope.code,
                message: envelope.message,
                details: envelope.details,
                retry_after,
            },
            None => {
                let mut code = "http_".to_owned();
                code.append(decimal(status as u64).as_str());
                let excerpt = trim(text);
                let mut message = "HTTP ".to_owned();
                message.append(decimal(status as u64).as_str());
                if excerpt.as_str().is_empty() {
                    message.append(" with an empty body");
                } else {
                    message.append(": ");
                    message.append(truncate(excerpt.as_str(), 200).as_str());
                }
                ApiError { status, code, message, details: None, retry_after }
            },
        }
    }

    /// Parse a response body into an [`ApiError`], given the documented envelope that was
    /// read from it, if it is one.
    ///
    /// A body that is not the documented envelope (HTML from a proxy, a truncated
    /// stream, an empty body) still yields a usable error: the code degrades to
    /// `http_<status>` and the message carries a truncated excerpt.
    pub fn parse(
        status: u16,
        envelope: Option<Envelope>,
        body: &[u8],
        retry_after: Option<Delay>,
    ) -> (result: ApiError)
        ensures
            error_of(result, status, envelope_view(envelope), lossy_text(body@), retry_after),
    {
        ApiError::from_envelope(status, envelope, decode_lossy(body).as_str(), retry_after)
    }
}

/// Turn a status, its body and the envelope that was read from it into success or a typed
/// error: every `2xx` is success, anything else is the [`ApiError`] of the body.
pub fn check_response(
    status: u16,
    envelope: Option<Envelope>,
    body: &[u8],
    retry_after: Option<Delay>,
) -> (result: Result<(), ApiError>)
    ensures
        result is Ok <==> 200 <= status < 300,
        result matches Err(error) ==> error_of(
            error,
            status,
            envelope_view(envelope),
            lossy_text(body@),
            retry_after,
        ),
{
    if 200 <= status && status < 300 {
        Ok(())
    } else {
        Err(ApiError::parse(status, envelope, body, retry_after))
    }
}

/// The error for a `2xx` body that is not the JSON that was expected.
pub fn unexpected_body(status: u16, message: &str) -> (result: crate::error::ClientError)
    ensures
        result matches crate::error::ClientError::Parse(m) && m@ == "HTTP "@ + digits(
            status as nat,
        ) + " body was not the expected JSON: "@ + message@,
{
    let mut text = "HTTP ".to_owned();
    text.append(decimal(status as u64).as_str());
    text.append(" body was not the expected JSON: ");
    text.append(message);
    crate::error::ClientError::Parse(text)
}

/// The wait that a `Retry-After` header asks for: only the seconds form is
/// honoured, and anything else is ignored rather than fatal.
pub open spec fn retry_after_in(header: Seq<char>) -> Option<u64> {
    parsed_u64(trimmed(header))
}

/// A whole number of seconds is understood, whatever blanks stand around it, and what is
/// understood is a number of digits.
pub proof fn law_a_wait_is_asked_for_in_seconds(secs: u64, before: Seq<char>, after: Seq<char>)
    requires
        all_blank(before),
        all_blank(after),
    ensures
        retry_after_in(before + digits(secs as nat) + after) == Some(secs),
{
    let text = digits(secs as nat);
    let header = before + text + after;
    lemma_digits(secs as nat);
    assert(is_digit(text[0]) && is_digit(text.last()));
    let (a, b) = law_trimming_takes_blanks_off_the_ends(header);
    let kept = header.subrange(a, b);
    let n = before.len() as int;
    let m = n + text.len();
    assert(header[n] == text[0] && header[m - 1] == text.last());
    if b <= n {
        assert(header.skip(b)[n - b] == header[n]);
        assert(is_blank(header.skip(b)[n - b]));
    }
    if a > n {
        assert(header.take(a)[n] == header[n]);
        assert(is_blank(header.take(a)[n]));
    }
    if b < m {
        assert(header.skip(b)[m - 1 - b] == header[m - 1]);
        assert(is_blank(header.skip(b)[m - 1 - b]));
    }
    if a < n {
        assert(kept[0] == before[a]);
    }
    if b > m {
        assert(kept.last() == after[b - 1 - m]);
    }
    assert(kept =~= text);
    law_numbers_read_back(secs as int);
}

/// Parse a `Retry-After` header, when there is one.
pub fn retry_after_of(header: Option<&str>) -> (result: Option<Delay>)
    ensures
        match header {
            Some(text) => match retry_after_in(text@) {
                Some(secs) => result matches Some(delay) && delay.millis == secs * 1000,
                None => result is None,
            },
            None => result is None,
        },
{
    match header {
        Some(text) => match parse_u64(trim(text).as_str()) {
            Some(secs) => Some(Delay::from_secs(secs)),
            None => None,
        },
        None => None,
    }
}

// -- the retry policy ------------------------------------------------------

/// Bounded exponential backoff.
///
/// The randomised part of a delay is a fraction of it; the caller says how many
/// milliseconds that fraction comes to.
#[derive(Debug, Clone, Copy, PartialEq, Eq, Structural)]
pub struct RetryPolicy {
    /// Total attempts, including the first one. `1` disables retrying.
    pub max_attempts: u32,
    /// The delay before the second attempt.
    pub base_delay: Delay,
    /// The ceiling for a single backoff sleep.
    pub max_delay: Delay,
    /// A `Retry-After` larger than this is clamped, so a hostile server cannot
    /// park the client for an hour.
    pub max_retry_after: Delay,
}

/// The low 64 bits of a number of milliseconds.
pub open spec fn low_millis(delay: Delay) -> int {
    delay.millis as int % 0x1_0000_0000_0000_0000
}

/// The lesser of two numbers.
pub open spec fn least(a: int, b: int) -> int {
    if a <= b {
        a
    } else {
        b
    }
}

/// The backoff after `attempt` failures, in milliseconds: the base doubled for
/// each failure after the first, at most sixteen times, and never above the cap.
pub open spec fn backoff(base: int, cap: int, attempt: int) -> int {
    least(base * pow2(least(if attempt > 1 { attempt - 1 } else { 0 }, 16) as nat) as int, cap)
}

impl RetryPolicy {
    /// The policy's backoff after `attempt` failures, in milliseconds.
    pub open spec fn backoff_after(self, attempt: int) -> int {
        least(
            backoff(low_millis(self.base_delay), low_millis(self.max_delay), attempt),
            u64::MAX as int,
        )
    }
}

impl Default for RetryPolicy {
    fn default() -> (result: RetryPolicy)
        ensures
            result == (RetryPolicy {
                max_attempts: 4,
                base_delay: Delay { millis: 250 },
                max_delay: Delay { millis: 20_000 },
                max_retry_after: Delay { millis: 60_000 },
            }),
    {
        RetryPolicy {
            max_attempts: 4,
            base_delay: Delay::from_millis(250),
            max_delay: Delay::from_secs(20),
            max_retry_after: Delay::from_secs(60),
        }
    }
}

/// `2` to the power `n`, for `n` up to sixteen.
fn power_of_two(n: u32) -> (result: u64)
    requires
        n <= 16,
    ensures
        result == pow2(n as nat),
        1 <= result <= 0x1_0000,
{
    proof {
        lemma2_to64();
    }
    let mut out: u64 = 1;
    let mut i: u32 = 0;
    while i < n
        invariant
            i <= n <= 16,
            out == pow2(i as nat),
            out * pow2((16 - i) as nat) == 0x1_0000,
        decreases n - i,
    {
        proof {
            lemma_pow2_unfold((i + 1) as nat);
            lemma_pow2_unfold((16 - i) as nat);
            lemma_pow2_pos((16 - i - 1) as nat);
            let p = pow2((16 - i - 1) as nat) as int;
            assert(out * (2 * p) == 0x1_0000);
            assert((2 * out) * p == 0x1_0000) by (nonlinear_arith)
                requires
                    out * (2 * p) == 0x1_0000,
            ;
            assert(2 * out <= 0x1_0000) by (nonlinear_arith)
                requires
                    (2 * out) * p == 0x1_0000,
                    p >= 1,
            ;
        }
        out = out * 2;
        i = i + 1;
    }
    proof {
        lemma_pow2_pos((16 - n) as nat);
        let p = pow2((16 - n) as nat) as int;
        assert(out <= 0x1_0000) by (nonlinear_arith)
            requires
                out * p == 0x1_0000,
                p >= 1,
        ;
        lemma_pow2_pos(n as nat);
    }
    out
}

/// The backoff in milliseconds for a base, a cap and a number of failures.
pub fn backoff_millis(base: Delay, cap: Delay, attempt: u32) -> (result: u64)
    ensures
        result == least(backoff(low_millis(base), low_millis(cap), attempt as int), u64::MAX as int),
{
    let base: u64 = (base.millis % 0x1_0000_0000_0000_0000) as u64;
    let cap: u64 = (cap.millis % 0x1_0000_0000_0000_0000) as u64;
    let steps: u32 = if attempt > 1 {
        attempt - 1
    } else {
        0
    };
    let steps: u32 = if steps < 16 {
        steps
    } else {
        16
    };
    let factor: u64 = power_of_two(steps);
    match base.checked_mul(factor) {
        Some(product) => if product <= cap {
            product
        } else {
            cap
        },
        None => cap,
    }
}

/// `rand::random::<u64>()`: a number that depends on chance, so nothing is
/// promised of it.
#[verifier::external_body]
pub(crate) fn random_u64() -> (result: u64) {
    rand::random::<u64>()
}

/// A delay of `millis` moved by at most `spread`, as `roll` decides: from
/// `millis - spread` (or zero) upwards by `roll` modulo the width of the band.
pub open spec fn jittered_millis(millis: int, spread: int, roll: int) -> int {
    if spread == 0 {
        millis
    } else {
        least(
            (if millis >= spread {
                millis - spread
            } else {
                0
            }) + roll % least(2 * spread + 1, u64::MAX as int),
            u64::MAX as int,
        )
    }
}

/// Move a delay inside its band, as `roll` decides.
pub fn jittered(millis: u64, spread: u64, roll: u64) -> (result: u64)
    ensures
        result == jittered_millis(millis as int, spread as int, roll as int),
{
    if spread == 0 {
        return millis;
    }
    let width: u64 = spread.saturating_add(spread).saturating_add(1);
    let offset: u64 = roll % width;
    millis.saturating_sub(spread).saturating_add(offset)
}

impl RetryPolicy {
    /// A policy that never retries.
    pub fn none() -> (result: RetryPolicy)
        ensures
            result == (RetryPolicy {
                max_attempts: 1,
                base_delay: Delay { millis: 250 },
                max_delay: Delay { millis: 20_000 },
                max_retry_after: Delay { millis: 60_000 },
            }),
    {
        let usual = RetryPolicy::default();
        RetryPolicy {
            max_attempts: 1,
            base_delay: usual.base_delay,
            max_delay: usual.max_delay,
            max_retry_after: usual.max_retry_after,
        }
    }

    /// Whether another attempt is allowed after `attempt` attempts have been made.
    pub fn allows(&self, attempt: u32) -> (result: bool)
        ensures
            result == (attempt < self.max_attempts),
    {
        attempt < self.max_attempts
    }

    /// The backoff before attempt number `attempt + 1`, without its randomised
    /// part (`base_delay_for(1)` is the delay after the first failure).
    pub fn base_delay_for(&self, attempt: u32) -> (result: u64)
        ensures
            result == self.backoff_after(attempt as int),
    {
        backoff_millis(self.base_delay, self.max_delay, attempt)
    }

    /// The backoff before attempt number `attempt + 1`, moved at random by at most
    /// `spread` milliseconds. With no spread it is [`RetryPolicy::base_delay_for`].
    pub fn delay_for(&self, attempt: u32, spread: u64) -> (result: Delay)
        ensures
            spread == 0 ==> result.millis == self.backoff_after(attempt as int),
            exists|roll: u64|
                result.millis == #[trigger] jittered_millis(
                    self.backoff_after(attempt as int),
                    spread as int,
                    roll as int,
                ),
    {
        let millis: u64 = self.base_delay_for(attempt);
        let roll: u64 = if spread > 0 {
            random_u64()
        } else {
            0
        };
        let moved: u64 = jittered(millis, spread, roll);
        Delay::from_millis(moved)
    }

    /// The sleep a `429` asks for, clamped to [`RetryPolicy::max_retry_after`];
    /// without a request it is the backoff, moved at random by at most `spread`.
    pub fn retry_after_or(&self, requested: Option<Delay>, attempt: u32, spread: u64) -> (result:
        Delay)
        ensures
            match requested {
                Some(wait) => result.millis == least(
                    wait.millis as int,
                    self.max_retry_after.millis as int,
                ),
                None => {
                    &&& spread == 0 ==> result.millis == self.backoff_after(attempt as int)
                    &&& exists|roll: u64|
                        result.millis == #[trigger] jittered_millis(
                            self.backoff_after(attempt as int),
                            spread as int,
                            roll as int,
                        )
                },
            },
    {
        match requested {
            Some(wait) => wait.shorter(self.max_retry_after),
            None => self.delay_for(attempt, spread),
        }
    }
}

/// The backoff never exceeds its cap, and it never shrinks from one failure to
/// the next.
pub proof fn law_backoff_is_capped_and_grows(policy: RetryPolicy, attempt: int)
    requires
        attempt >= 0,
    ensures
        policy.backoff_after(attempt) <= low_millis(policy.max_delay),
        policy.backoff_after(attempt) <= policy.backoff_after(attempt + 1),
        policy.backoff_after(1) == least(
            low_millis(policy.base_delay),
            low_millis(policy.max_delay),
        ),
{
    let base = low_millis(policy.base_delay);
    let cap = low_millis(policy.max_delay);
    lemma_backoff_grows(base, cap, attempt, attempt + 1);
}

/// A backoff never exceeds its cap and never shrinks, and the first failure and none at all
/// wait alike.
pub(crate) proof fn lemma_backoff_grows(base: int, cap: int, a: int, b: int)
    requires
        0 <= base,
        0 <= a <= b,
    ensures
        backoff(base, cap, a) <= backoff(base, cap, b) <= cap,
        backoff(base, cap, 0) == least(base, cap),
        backoff(base, cap, 1) == least(base, cap),
{
    let steps = |n: int| least(if n > 1 { n - 1 } else { 0 }, 16) as nat;
    lemma2_to64();
    lemma_pow2_pos(steps(a));
    if steps(a) < steps(b) {
        lemma_pow2_strictly_increases(steps(a), steps(b));
    }
    let p = pow2(steps(a)) as int;
    let q = pow2(steps(b)) as int;
    assert(base * p <= base * q) by (nonlinear_arith)
        requires
            0 <= base,
            p <= q,
    ;
    assert(pow2(0) == 1);
    assert(base * 1 == base);
}

/// The randomised delay stays in its band: within `spread` of the plain backoff.
pub proof fn law_jitter_stays_in_its_band(millis: int, spread: int, roll: int)
    requires
        0 <= millis <= u64::MAX,
        0 <= spread <= millis,
        0 <= roll,
    ensures
        millis - spread <= jittered_millis(millis, spread, roll) <= millis + spread,
{
    if spread > 0 {
        let width = least(2 * spread + 1, u64::MAX as int);
        assert(0 <= roll % width < width) by (nonlinear_arith)
            requires
                0 <= roll,
                width > 0,
        ;
    }
}

/// Each failure doubles the wait until the cap is reached, for the first sixteen doublings.
pub proof fn law_each_failure_doubles_the_wait(base: int, cap: int, attempt: int)
    requires
        0 <= base,
        0 <= cap,
        1 <= attempt <= 16,
    ensures
        backoff(base, cap, attempt + 1) == least(2 * backoff(base, cap, attempt), cap),
        backoff(base, cap, attempt + 16) == backoff(base, cap, 17),
{
    let p = pow2((attempt - 1) as nat) as int;
    lemma_pow2_unfold(attempt as nat);
    assert(pow2(attempt as nat) == 2 * p);
    assert(base * (2 * p) == 2 * (base * p)) by (nonlinear_arith);
}

/// The randomised part is spread over the whole band: each wait in it is reached, the
/// shortest, the longest and the plain one among them.
pub proof fn law_jitter_reaches_its_whole_band(millis: int, spread: int, moved: int)
    requires
        0 <= spread <= millis,
        2 * spread < u64::MAX,
        millis + spread <= u64::MAX,
        millis - spread <= moved <= millis + spread,
    ensures
        jittered_millis(millis, spread, moved - (millis - spread)) == moved,
{
    if spread > 0 {
        let roll = moved - (millis - spread);
        vstd::arithmetic::div_mod::lemma_small_mod(roll as nat, (2 * spread + 1) as nat);
    }
}

/// What the server said of a refusal reaches the caller as it was said: the code as the code,
/// the message as the message, and whatever wait it asked for. A body that is no envelope
/// gives an error that names the status in both, and never shows more than two hundred
/// characters of the body.
pub proof fn law_a_refusal_keeps_the_servers_words(
    error: ApiError,
    status: u16,
    envelope: Option<EnvelopeView>,
    text: Seq<char>,
    retry_after: Option<Delay>,
)
    requires
        error_of(error, status, envelope, text, retry_after),
    ensures
        crate::error::status_of(crate::error::ClientError::Api(error)) == Some(status),
        crate::error::wait_of(crate::error::ClientError::Api(error)) == retry_after,
        crate::error::retryable(crate::error::ClientError::Api(error)) <==> retryable_status(
            status,
        ),
        envelope matches Some(said) ==> {
            &&& crate::error::code_of(crate::error::ClientError::Api(error)) == said.code
            &&& crate::operations::shown(crate::error::ClientError::Api(error)) == said.message
            &&& option_view(error.details) == said.details
        },
        envelope is None ==> {
            &&& error.code@ == "http_"@ + digits(status as nat)
            &&& error.message@.take(5 + digits(status as nat).len() as int) == "HTTP "@ + digits(
                status as nat,
            )
            &&& error.details is None
            &&& trimmed(text).len() == 0 ==> error.message@ == "HTTP "@ + digits(status as nat)
                + " with an empty body"@
            &&& 0 < trimmed(text).len() <= 200 ==> error.message@ == "HTTP "@ + digits(
                status as nat,
            ) + ": "@ + trimmed(text)
            &&& trimmed(text).len() > 200 ==> {
                let start = 7 + digits(status as nat).len() as int;
                &&& error.message@.len() == start + 201
                &&& error.message@.subrange(start, start + 200) == trimmed(text).take(200)
            }
        },
{
    reveal_strlit("HTTP ");
    reveal_strlit(": ");
    let head = "HTTP "@ + digits(status as nat);
    if envelope is None {
        assert(error.message@ == plain_message(status, text));
        assert(plain_message(status, text).take(head.len() as int) =~= head);
        if trimmed(text).len() > 200 {
            let start = head.len() as int + 2;
            assert(error.message@.subrange(start, start + 200) =~= trimmed(text).take(200));
        }
    }
}

// -- what travels ----------------------------------------------------------

/// One recipient or sender on the wire.
#[derive(Debug, Clone, PartialEq, Eq, Default)]
pub struct AddressDto {
    /// The address.
    pub address: String,
    /// The display name, when there is one.
    pub name: Option<String>,
}

/// A message as it appears in a list.
#[derive(Debug, Clone, PartialEq, Eq, Default)]
pub struct MessageItem {
    /// Server-side message id.
    pub id: i64,
    /// IMAP UID inside the folder.
    pub uid: Option<i64>,
    /// The folder it lives in.
    pub folder_id: Option<i64>,
    /// The subject.
    pub subject: Option<String>,
    /// The sender.
    pub from: Option<AddressDto>,
    /// The recipients.
    pub to: Vec<AddressDto>,
    /// A short plain-text preview.
    pub snippet: Option<String>,
    /// Space separated flags.
    pub flags: Option<String>,
    /// Size on disk.
    pub size_bytes: u64,
    /// Whether the message has attachments.
    pub has_attachments: bool,
    /// How many attachments.
    pub attachment_count: i64,
    /// When the server received it.
    pub internal_date: Option<String>,
    /// The `Date:` header.
    pub sent_at: Option<String>,
    /// The RFC 5322 `Message-ID`.
    pub rfc_message_id: Option<String>,
}

/// A page of messages.
#[derive(Debug, Clone, PartialEq, Eq, Default)]
pub struct MessageList {
    /// The messages, newest first.
    pub items: Vec<MessageItem>,
    /// The total number of matches, for paging.
    pub total: i64,
    /// The page size the server used.
    pub limit: i64,
    /// The offset the server used.
    pub offset: i64,
}

/// How the client identifies itself to `POST /auth/login`.
#[derive(Debug, Clone, PartialEq, Eq)]
pub struct DeviceInfo {
    /// A client-generated uid, stable for the installation.
    pub device_uid: String,
    /// A human name, e.g. `Alice's laptop`.
    pub name: String,
    /// `windows` | `linux` | `macos` | `android` | `ios`.
    pub platform: String,
    /// The client build, e.g. `0.1.0`.
    pub client_version: String,
}

/// A user as the client API reports it.
#[derive(Debug, Clone, PartialEq, Eq)]
pub struct UserRef {
    /// Server-side user id.
    pub id: i64,
    /// The account's address.
    pub email: String,
    /// Optional display name.
    pub display_name: Option<String>,
}

/// The token pair plus the device id.
#[derive(Debug, Clone, PartialEq, Eq)]
pub struct LoginResponse {
    /// The short-lived bearer token.
    pub access_token: String,
    /// The single-use refresh token; it rotates on every refresh.
    pub refresh_token: String,
    /// Always `Bearer` today, but read from the wire anyway.
    pub token_type: String,
    /// Access-token lifetime in seconds.
    pub expires_in: u64,
    /// The `devices` row this login created.
    pub device_id: Option<i64>,
    /// The authenticated user.
    pub user: UserRef,
}

/// The response of `POST /auth/refresh`.
#[derive(Debug, Clone, PartialEq, Eq)]
pub struct RefreshResponse {
    /// The new access token.
    pub access_token: String,
    /// The new refresh token; the previous one is now invalid.
    pub refresh_token: String,
    /// Access-token lifetime in seconds.
    pub expires_in: u64,
}

/// Limits advertised by `GET /account`.
#[derive(Debug, Clone, PartialEq, Eq)]
pub struct ServerLimits {
    /// Largest message the server accepts.
    pub max_message_size: u64,
    /// Maximum recipients per message.
    pub max_recipients: usize,
    /// Bytes per attachment upload chunk.
    pub attachment_chunk_size: u64,
    /// Changes per sync page.
    pub sync_page_size: usize,
}

/// One address of an account, with its folder tree.
#[derive(Debug, Clone, PartialEq, Eq)]
pub struct MailboxInfo {
    /// Server-side mailbox id.
    pub id: i64,
    /// The address, e.g. `alice@example.com`.
    pub address: String,
    /// Optional display name.
    pub display_name: Option<String>,
    /// Whether this is the default `From:` address.
    pub is_primary: bool,
    /// The folders in this mailbox.
    pub folders: Vec<FolderInfo>,
}

/// A folder, with the counters the UI and the first-sync progress bar need.
#[derive(Debug, Clone, PartialEq, Eq)]
pub struct FolderInfo {
    /// Server-side folder id.
    pub id: i64,
    /// The name, `/`-separated for nesting.
    pub name: String,
    /// `\Sent`, `\Drafts`, `\Trash`, ...: the client maps this, never the name.
    pub special_use: Option<String>,
    /// Messages in the folder.
    pub message_count: i64,
    /// Unseen messages in the folder.
    pub unseen_count: i64,
    /// Renumbering epoch; a change wipes the folder's cache.
    pub uid_validity: i64,
    /// The next UID the server will hand out.
    pub uid_next: i64,
}

/// `GET /account`: the negotiated versions and the mailbox list.
#[derive(Debug, Clone, PartialEq, Eq)]
pub struct AccountInfo {
    /// The authenticated user.
    pub user: UserRef,
    /// The addresses this account may send from.
    pub mailboxes: Vec<MailboxInfo>,
    /// The protocol version the server answered with.
    pub protocol_version: u32,
    /// The oldest protocol the server still accepts.
    pub min_protocol_version: u32,
    /// The server build.
    pub server_version: String,
    /// The server's hostname, shown in the "about" pane.
    pub server_hostname: String,
    /// Advertised limits.
    pub limits: ServerLimits,
    /// Optional capability flags (`sync`, `events`, `drafts`, ...).
    pub features: Vec<String>,
}

/// One entry of a sync page.
#[allow(inconsistent_fields)]
#[derive(Debug, Clone, PartialEq, Eq)]
pub enum Change {
    /// A message appeared in a folder. Metadata only : the body is lazy.
    MessageCreated {
        /// Global, per-user sequence number.
        seq: i64,
        /// The message.
        message_id: i64,
        /// The IMAP UID inside the folder, when the server knows it.
        uid: Option<i64>,
        /// The folder, when the change is not already scoped to one.
        folder_id: Option<i64>,
    },
    /// Flags or other metadata changed.
    MessageUpdated {
        /// Sequence number.
        seq: i64,
        /// The message.
        message_id: i64,
        /// The new flag set, space separated.
        flags: Option<String>,
        /// The folder, when the server restates it.
        folder_id: Option<i64>,
        /// The UID, when the server restates it.
        uid: Option<i64>,
        /// Whether the message now has attachments.
        has_attachments: Option<bool>,
    },
    /// A message is gone; the change outlives the row as a tombstone.
    MessageDeleted {
        /// Sequence number.
        seq: i64,
        /// The message.
        message_id: i64,
    },
    /// A message moved between folders.
    MessageMoved {
        /// Sequence number.
        seq: i64,
        /// The message.
        message_id: i64,
        /// Where it came from.
        from_folder_id: Option<i64>,
        /// Where it went.
        to_folder_id: Option<i64>,
        /// The UID in the destination folder.
        uid: Option<i64>,
    },
    /// A folder was created.
    FolderCreated {
        /// Sequence number.
        seq: i64,
        /// The folder.
        folder_id: i64,
        /// Its name.
        name: Option<String>,
        /// Its mailbox.
        mailbox_id: Option<i64>,
        /// Its special-use flag.
        special_use: Option<String>,
    },
    /// A folder was renamed, recounted, or renumbered.
    FolderUpdated {
        /// Sequence number.
        seq: i64,
        /// The folder.
        folder_id: i64,
        /// The new name, when it changed.
        name: Option<String>,
        /// The new UID epoch : a change invalidates the folder's cache.
        uid_validity: Option<i64>,
        /// The new message count.
        message_count: Option<i64>,
        /// The new unseen count.
        unseen_count: Option<i64>,
        /// The new UID next value.
        uid_next: Option<i64>,
    },
    /// A folder was deleted.
    FolderDeleted {
        /// Sequence number.
        seq: i64,
        /// The folder.
        folder_id: i64,
    },
    /// A draft appeared on another device.
    DraftCreated {
        /// Sequence number.
        seq: i64,
        /// The draft.
        draft_id: i64,
    },
    /// A draft changed elsewhere.
    DraftUpdated {
        /// Sequence number.
        seq: i64,
        /// The draft.
        draft_id: i64,
    },
    /// A draft was deleted elsewhere.
    DraftDeleted {
        /// Sequence number.
        seq: i64,
        /// The draft.
        draft_id: i64,
    },
    /// A change type this client build does not know about.
    ///
    /// It is deliberately *not* an error: a newer server may add change types,
    /// and an older client must keep advancing its cursor rather than get stuck.
    Unknown,
}

/// One page of the change log.
#[derive(Debug, Clone, PartialEq, Eq)]
pub struct SyncPage {
    /// The cursor to store **after** every change has been applied.
    pub next_cursor: String,
    /// Whether another page is waiting.
    pub has_more: bool,
    /// The changes, in ascending `seq` order.
    pub changes: Vec<Change>,
}

/// One header of a full message.
#[derive(Debug, Clone, PartialEq, Eq)]
pub struct HeaderDto {
    /// Header name.
    pub name: String,
    /// Header value, unfolded.
    pub value: String,
}

/// Attachment metadata.
#[derive(Debug, Clone, PartialEq, Eq)]
pub struct AttachmentDto {
    /// Server-side attachment id.
    pub id: i64,
    /// The file name.
    pub filename: String,
    /// The MIME type.
    pub content_type: String,
    /// Size in bytes.
    pub size_bytes: u64,
    /// The blob digest, when the server computed one.
    pub sha256: Option<String>,
    /// The `Content-ID`, for inline images.
    pub content_id: Option<String>,
    /// `attachment` or `inline`.
    pub disposition: Option<String>,
}

/// A full message: list item plus bodies, attachments and raw headers.
#[derive(Debug, Clone, PartialEq, Eq, Default)]
pub struct MessageDetail {
    /// The list-item fields.
    pub item: MessageItem,
    /// The plain-text body.
    pub text_body: Option<String>,
    /// The HTML body, sanitised server-side when configured.
    pub html_body: Option<String>,
    /// The attachments.
    pub attachments: Vec<AttachmentDto>,
    /// The raw header list, in wire order.
    pub headers: Vec<HeaderDto>,
}

/// The body of `POST /messages`.
#[derive(Debug, Clone, PartialEq, Eq, Default)]
pub struct SendRequest {
    /// The idempotency key for this send, generated when the item entered the
    /// outbox : never at send time.
    pub operation_id: String,
    /// Which address to send from.
    pub mailbox_id: Option<i64>,
    /// The `From:` address.
    pub from: Option<String>,
    /// The `To:` addresses.
    pub to: Vec<String>,
    /// The `Cc:` addresses.
    pub cc: Vec<String>,
    /// The `Bcc:` addresses.
    pub bcc: Vec<String>,
    /// The subject.
    pub subject: String,
    /// The plain-text body.
    pub text: Option<String>,
    /// The HTML body.
    pub html: Option<String>,
    /// The ids of previously uploaded attachments.
    pub attachment_ids: Vec<i64>,
    /// The `In-Reply-To` header.
    pub in_reply_to: Option<String>,
    /// The `References` header.
    pub references: Vec<String>,
}

/// What the server did with a submission.
#[derive(Debug, Clone, PartialEq, Eq, Default)]
pub struct SendResponse {
    /// The stored copy in the Sent folder.
    pub message_id: Option<i64>,
    /// How many recipients were enqueued.
    pub queued: i64,
    /// The recipient addresses that were accepted.
    pub recipients: Vec<String>,
}

/// The flags `PATCH /messages/:id` can change.
#[derive(Debug, Clone, PartialEq, Eq, Default)]
pub struct MessagePatch {
    /// Mark seen/unseen.
    pub seen: Option<bool>,
    /// Mark flagged/unflagged.
    pub flagged: Option<bool>,
    /// Mark answered/unanswered.
    pub answered: Option<bool>,
    /// Mark deleted/undeleted.
    pub deleted: Option<bool>,
}

/// The single-message actions the protocol exposes.
#[derive(Debug, Clone, Copy, PartialEq, Eq, Structural)]
pub enum MessageAction {
    /// `POST /messages/:id/read`
    Read,
    /// `POST /messages/:id/unread`
    Unread,
    /// `POST /messages/:id/star`
    Star,
    /// `POST /messages/:id/archive`
    Archive,
    /// `POST /messages/:id/trash`
    Trash,
}

/// A draft as it travels to the server.
#[derive(Debug, Clone, PartialEq, Eq, Default)]
pub struct DraftPayload {
    /// The subject.
    pub subject: String,
    /// The plain-text body.
    pub text: Option<String>,
    /// The HTML body.
    pub html: Option<String>,
    /// The `To:` addresses.
    pub to: Vec<String>,
    /// The `Cc:` addresses.
    pub cc: Vec<String>,
    /// The `Bcc:` addresses.
    pub bcc: Vec<String>,
    /// The `In-Reply-To` header.
    pub in_reply_to: Option<String>,
    /// The `References` header.
    pub references: Vec<String>,
    /// Already-uploaded attachment ids.
    pub attachment_ids: Vec<i64>,
}

/// What the server says about an overwritten draft.
#[derive(Debug, Clone, PartialEq, Eq)]
pub struct DraftConflict {
    /// Always true when present.
    pub detected: bool,
    /// The `updated_at` the client overwrote.
    pub server_updated_at: Option<String>,
}

/// A stored draft.
#[derive(Debug, Clone, PartialEq, Eq, Default)]
pub struct DraftRecord {
    /// Server-side draft id.
    pub id: i64,
    /// The subject.
    pub subject: String,
    /// The plain-text body.
    pub text: Option<String>,
    /// The HTML body.
    pub html: Option<String>,
    /// The `To:` addresses.
    pub to: Vec<String>,
    /// The `Cc:` addresses.
    pub cc: Vec<String>,
    /// The `Bcc:` addresses.
    pub bcc: Vec<String>,
    /// When it was last written.
    pub updated_at: Option<String>,
    /// What this write overwrote, if anything.
    pub conflict: Option<DraftConflict>,
}

/// A device as `GET /devices` reports it.
#[derive(Debug, Clone, PartialEq, Eq, Default)]
pub struct DeviceRecord {
    /// Server-side device id.
    pub id: i64,
    /// The client-generated installation uid.
    pub device_uid: String,
    /// Human name.
    pub name: Option<String>,
    /// Operating system.
    pub platform: Option<String>,
    /// Client build.
    pub client_version: Option<String>,
    /// Protocol version.
    pub protocol_version: Option<u32>,
    /// Last time the device called.
    pub last_seen_at: Option<String>,
    /// Last address it called from.
    pub last_ip: Option<String>,
    /// When it was first seen.
    pub created_at: Option<String>,
    /// Whether it is revoked.
    pub revoked: bool,
}

/// `GET /devices`.
#[derive(Debug, Clone, PartialEq, Eq, Default)]
pub struct DeviceList {
    /// The devices.
    pub devices: Vec<DeviceRecord>,
}

/// `POST /attachments/init`.
#[derive(Debug, Clone, PartialEq, Eq)]
pub struct UploadInit {
    /// The id to address the upload with.
    pub attachment_id: i64,
    /// The size every chunk must have except the last.
    pub chunk_size: u64,
    /// A token that authorises the chunk requests.
    pub upload_token: String,
}

/// `GET /attachments/:id/status` : which chunks the server already holds.
#[derive(Debug, Clone, PartialEq, Eq, Default)]
pub struct UploadStatus {
    /// The attachment being uploaded.
    pub attachment_id: i64,
    /// The size every chunk must have except the last.
    pub chunk_size: u64,
    /// The indices the server holds. Chunks may be uploaded out of order.
    pub received: Vec<u64>,
    /// Whether the upload has been completed.
    pub complete: bool,
    /// Total size, when known.
    pub size_bytes: u64,
}

/// `POST /attachments/:id/complete`.
#[derive(Debug, Clone, PartialEq, Eq, Default)]
pub struct UploadComplete {
    /// The finished attachment.
    pub id: i64,
    /// Its file name.
    pub filename: String,
    /// Its MIME type.
    pub content_type: String,
    /// Its size.
    pub size_bytes: u64,
    /// The digest the server verified.
    pub sha256: Option<String>,
}

// -- what the wire leaves out ----------------------------------------------

/// The token type when the server names none.
pub fn default_token_type() -> (result: String)
    ensures
        result@ == "Bearer"@,
{
    "Bearer".to_owned()
}

/// The access-token lifetime in seconds when the server names none.
pub fn default_expires_in() -> (result: u64)
    ensures
        result == 3600,
{
    3600
}

/// The largest message when the server names no limit.
pub fn default_max_message_size() -> (result: u64)
    ensures
        result == 26_214_400,
{
    26_214_400
}

/// The upload chunk size when the server names none.
pub fn default_chunk_size() -> (result: u64)
    ensures
        result == 1_048_576,
{
    1_048_576
}

/// The sync page size when the server names none.
pub fn default_sync_page_size() -> (result: usize)
    ensures
        result == 500,
{
    500
}

/// The protocol version when the server names none.
pub fn default_protocol() -> (result: u32)
    ensures
        result == CLIENT_PROTOCOL_VERSION,
{
    CLIENT_PROTOCOL_VERSION
}

impl Default for ServerLimits {
    fn default() -> (result: ServerLimits)
        ensures
            result.max_message_size == 26_214_400,
            result.max_recipients == 100,
            result.attachment_chunk_size == 1_048_576,
            result.sync_page_size == 500,
    {
        ServerLimits {
            max_message_size: default_max_message_size(),
            max_recipients: 100,
            attachment_chunk_size: default_chunk_size(),
            sync_page_size: default_sync_page_size(),
        }
    }
}

impl DeviceInfo {
    /// A device record for this installation, on the named platform.
    pub fn local(device_uid: &str, name: &str, platform: &str) -> (result: DeviceInfo)
        ensures
            result.device_uid@ == device_uid@,
            result.name@ == name@,
            result.platform@ == platform@,
            result.client_version@ == VERSION@,
    {
        DeviceInfo {
            device_uid: device_uid.to_owned(),
            name: name.to_owned(),
            platform: platform.to_owned(),
            client_version: VERSION.to_owned(),
        }
    }
}

impl AccountInfo {
    /// Whether the server advertises `feature`.
    ///
    /// A server that sends no `features` array at all is treated as supporting
    /// the mandatory core; an explicitly listed feature must be present.
    pub fn supports(&self, feature: &str) -> (result: bool)
        ensures
            result == (self.features@.len() == 0 || views(self.features@).contains(feature@)),
    {
        if self.features.len() == 0 {
            return true;
        }
        let mut i: usize = 0;
        while i < self.features.len()
            invariant
                i <= self.features@.len(),
                self.features@.len() > 0,
                forall|j: int| 0 <= j < i ==> (#[trigger] views(self.features@)[j]) != feature@,
            decreases self.features@.len() - i,
        {
            if same(self.features[i].as_str(), feature) {
                assert(views(self.features@)[i as int] == feature@);
                return true;
            }
            assert(views(self.features@)[i as int] == self.features@[i as int]@);
            i = i + 1;
        }
        false
    }
}

impl Change {
    /// The sequence number that a change carries.
    pub open spec fn seq_of(self) -> Option<i64> {
        match self {
            Change::MessageCreated { seq, .. } => Some(seq),
            Change::MessageUpdated { seq, .. } => Some(seq),
            Change::MessageDeleted { seq, .. } => Some(seq),
            Change::MessageMoved { seq, .. } => Some(seq),
            Change::FolderCreated { seq, .. } => Some(seq),
            Change::FolderUpdated { seq, .. } => Some(seq),
            Change::FolderDeleted { seq, .. } => Some(seq),
            Change::DraftCreated { seq, .. } => Some(seq),
            Change::DraftUpdated { seq, .. } => Some(seq),
            Change::DraftDeleted { seq, .. } => Some(seq),
            Change::Unknown => None,
        }
    }

    /// The wire name of a change.
    pub open spec fn kind_of(self) -> Seq<char> {
        match self {
            Change::MessageCreated { .. } => "message_created"@,
            Change::MessageUpdated { .. } => "message_updated"@,
            Change::MessageDeleted { .. } => "message_deleted"@,
            Change::MessageMoved { .. } => "message_moved"@,
            Change::FolderCreated { .. } => "folder_created"@,
            Change::FolderUpdated { .. } => "folder_updated"@,
            Change::FolderDeleted { .. } => "folder_deleted"@,
            Change::DraftCreated { .. } => "draft_created"@,
            Change::DraftUpdated { .. } => "draft_updated"@,
            Change::DraftDeleted { .. } => "draft_deleted"@,
            Change::Unknown => "unknown"@,
        }
    }

    /// The global sequence number, or `None` for an unknown change type.
    pub fn seq(&self) -> (result: Option<i64>)
        ensures
            result == self.seq_of(),
    {
        match self {
            Change::MessageCreated { seq, .. } => Some(*seq),
            Change::MessageUpdated { seq, .. } => Some(*seq),
            Change::MessageDeleted { seq, .. } => Some(*seq),
            Change::MessageMoved { seq, .. } => Some(*seq),
            Change::FolderCreated { seq, .. } => Some(*seq),
            Change::FolderUpdated { seq, .. } => Some(*seq),
            Change::FolderDeleted { seq, .. } => Some(*seq),
            Change::DraftCreated { seq, .. } => Some(*seq),
            Change::DraftUpdated { seq, .. } => Some(*seq),
            Change::DraftDeleted { seq, .. } => Some(*seq),
            Change::Unknown => None,
        }
    }

    /// A short name for logs and the progress callback.
    pub fn kind(&self) -> (result: &'static str)
        ensures
            result@ == self.kind_of(),
    {
        match self {
            Change::MessageCreated { .. } => "message_created",
            Change::MessageUpdated { .. } => "message_updated",
            Change::MessageDeleted { .. } => "message_deleted",
            Change::MessageMoved { .. } => "message_moved",
            Change::FolderCreated { .. } => "folder_created",
            Change::FolderUpdated { .. } => "folder_updated",
            Change::FolderDeleted { .. } => "folder_deleted",
            Change::DraftCreated { .. } => "draft_created",
            Change::DraftUpdated { .. } => "draft_updated",
            Change::DraftDeleted { .. } => "draft_deleted",
            Change::Unknown => "unknown",
        }
    }
}

/// A change is named by what changed and how: what is new is `created`, what is gone is
/// `deleted`, and a message that changed its place is `moved`. Every change that is understood has
/// its number, and no other has.
pub proof fn law_changes_are_named_by_what_happened(change: Change)
    ensures
        change.seq_of() is None <==> change is Unknown,
        finishes_with(change.kind_of(), "_created"@) <==> change is MessageCreated || change
            is FolderCreated || change is DraftCreated,
        finishes_with(change.kind_of(), "_updated"@) <==> change is MessageUpdated || change
            is FolderUpdated || change is DraftUpdated,
        finishes_with(change.kind_of(), "_deleted"@) <==> change is MessageDeleted || change
            is FolderDeleted || change is DraftDeleted,
        finishes_with(change.kind_of(), "_moved"@) <==> change is MessageMoved,
        begins_with(change.kind_of(), "message_"@) <==> change is MessageCreated || change
            is MessageUpdated || change is MessageDeleted || change is MessageMoved,
        begins_with(change.kind_of(), "folder_"@) <==> change is FolderCreated || change
            is FolderUpdated || change is FolderDeleted,
        begins_with(change.kind_of(), "draft_"@) <==> change is DraftCreated || change
            is DraftUpdated || change is DraftDeleted,
{
    lemma_change_words();
}

/// How the names of the changes begin and end.
proof fn lemma_change_words()
    ensures
        begins_with("message_created"@, "message_"@) && finishes_with("message_created"@, "_created"@),
        begins_with("message_updated"@, "message_"@) && finishes_with("message_updated"@, "_updated"@),
        begins_with("message_deleted"@, "message_"@) && finishes_with("message_deleted"@, "_deleted"@),
        begins_with("message_moved"@, "message_"@) && finishes_with("message_moved"@, "_moved"@),
        begins_with("folder_created"@, "folder_"@) && finishes_with("folder_created"@, "_created"@),
        begins_with("folder_updated"@, "folder_"@) && finishes_with("folder_updated"@, "_updated"@),
        begins_with("folder_deleted"@, "folder_"@) && finishes_with("folder_deleted"@, "_deleted"@),
        begins_with("draft_created"@, "draft_"@) && finishes_with("draft_created"@, "_created"@),
        begins_with("draft_updated"@, "draft_"@) && finishes_with("draft_updated"@, "_updated"@),
        begins_with("draft_deleted"@, "draft_"@) && finishes_with("draft_deleted"@, "_deleted"@),
        forall|s: Seq<char>| #[trigger]
            begins_with(s, "message_"@) ==> !begins_with(s, "folder_"@) && !begins_with(s, "draft_"@),
        forall|s: Seq<char>| #[trigger]
            begins_with(s, "folder_"@) ==> !begins_with(s, "message_"@) && !begins_with(s, "draft_"@),
        forall|s: Seq<char>| #[trigger]
            begins_with(s, "draft_"@) ==> !begins_with(s, "folder_"@) && !begins_with(s, "message_"@),
        forall|s: Seq<char>| #[trigger]
            finishes_with(s, "_created"@) ==> !finishes_with(s, "_updated"@) && !finishes_with(
                s,
                "_deleted"@,
            ) && !finishes_with(s, "_moved"@),
        forall|s: Seq<char>| #[trigger]
            finishes_with(s, "_updated"@) ==> !finishes_with(s, "_created"@) && !finishes_with(
                s,
                "_deleted"@,
            ) && !finishes_with(s, "_moved"@),
        forall|s: Seq<char>| #[trigger]
            finishes_with(s, "_deleted"@) ==> !finishes_with(s, "_created"@) && !finishes_with(
                s,
                "_updated"@,
            ) && !finishes_with(s, "_moved"@),
        forall|s: Seq<char>| #[trigger]
            finishes_with(s, "_moved"@) ==> !finishes_with(s, "_created"@) && !finishes_with(
                s,
                "_updated"@,
            ) && !finishes_with(s, "_deleted"@),
        !begins_with("unknown"@, "message_"@) && !begins_with("unknown"@, "folder_"@)
            && !begins_with("unknown"@, "draft_"@),
        !finishes_with("unknown"@, "_created"@) && !finishes_with("unknown"@, "_updated"@)
            && !finishes_with("unknown"@, "_deleted"@) && !finishes_with("unknown"@, "_moved"@),
{
    reveal_strlit("message_");
    reveal_strlit("folder_");
    reveal_strlit("draft_");
    reveal_strlit("_created");
    reveal_strlit("_updated");
    reveal_strlit("_deleted");
    reveal_strlit("_moved");
    reveal_strlit("unknown");
    reveal_strlit("message_created");
    reveal_strlit("message_updated");
    reveal_strlit("message_deleted");
    reveal_strlit("message_moved");
    reveal_strlit("folder_created");
    reveal_strlit("folder_updated");
    reveal_strlit("folder_deleted");
    reveal_strlit("draft_created");
    reveal_strlit("draft_updated");
    reveal_strlit("draft_deleted");
    assert("message_created"@.subrange(0, 8) =~= "message_"@);
    assert("message_updated"@.subrange(0, 8) =~= "message_"@);
    assert("message_deleted"@.subrange(0, 8) =~= "message_"@);
    assert("message_moved"@.subrange(0, 8) =~= "message_"@);
    assert("folder_created"@.subrange(0, 7) =~= "folder_"@);
    assert("folder_updated"@.subrange(0, 7) =~= "folder_"@);
    assert("folder_deleted"@.subrange(0, 7) =~= "folder_"@);
    assert("draft_created"@.subrange(0, 6) =~= "draft_"@);
    assert("draft_updated"@.subrange(0, 6) =~= "draft_"@);
    assert("draft_deleted"@.subrange(0, 6) =~= "draft_"@);
    assert("message_created"@.subrange(7, 15) =~= "_created"@);
    assert("message_updated"@.subrange(7, 15) =~= "_updated"@);
    assert("message_deleted"@.subrange(7, 15) =~= "_deleted"@);
    assert("message_moved"@.subrange(7, 13) =~= "_moved"@);
    assert("folder_created"@.subrange(6, 14) =~= "_created"@);
    assert("folder_updated"@.subrange(6, 14) =~= "_updated"@);
    assert("folder_deleted"@.subrange(6, 14) =~= "_deleted"@);
    assert("draft_created"@.subrange(5, 13) =~= "_created"@);
    assert("draft_updated"@.subrange(5, 13) =~= "_updated"@);
    assert("draft_deleted"@.subrange(5, 13) =~= "_deleted"@);
    assert forall|s: Seq<char>, head: Seq<char>| #[trigger]
        begins_with(s, head) && head.len() > 0 implies s[0] == head[0] by {
        assert(s.subrange(0, head.len() as int)[0] == head[0]);
    }
    assert forall|s: Seq<char>, tail: Seq<char>| #[trigger]
        finishes_with(s, tail) && tail.len() > 3 implies s[s.len() - 3] == tail[tail.len() - 3]
        && s[s.len() - 4] == tail[tail.len() - 4] by {
        let end = s.subrange(s.len() - tail.len(), s.len() as int);
        assert(end[tail.len() - 3] == tail[tail.len() - 3]);
        assert(end[tail.len() - 4] == tail[tail.len() - 4]);
    }
    assert("_created"@[5] == 't' && "_created"@[4] == 'a');
    assert("_updated"@[5] == 't' && "_updated"@[4] == 'a');
    assert("_deleted"@[5] == 't' && "_deleted"@[4] == 'e');
    assert("_moved"@[3] == 'v' && "_moved"@[2] == 'o');
    assert forall|s: Seq<char>| #[trigger] finishes_with(s, "_created"@) implies !finishes_with(
        s,
        "_updated"@,
    ) by {
        if finishes_with(s, "_updated"@) {
            let end = s.subrange(s.len() - 8, s.len() as int);
            assert(end[1] == "_created"@[1] && end[1] == "_updated"@[1]);
            assert("_created"@[1] == 'c' && "_updated"@[1] == 'u');
        }
    }
}

impl AddressDto {
    /// The address alone.
    pub fn bare(address: &str) -> (result: AddressDto)
        ensures
            result.address@ == address@,
            result.name is None,
    {
        AddressDto { address: address.to_owned(), name: None }
    }
}

impl MessageAction {
    /// The path segment of an action.
    pub open spec fn segment(self) -> Seq<char> {
        match self {
            MessageAction::Read => "read"@,
            MessageAction::Unread => "unread"@,
            MessageAction::Star => "star"@,
            MessageAction::Archive => "archive"@,
            MessageAction::Trash => "trash"@,
        }
    }

    /// The path segment of the action.
    pub fn path_segment(self) -> (result: &'static str)
        ensures
            result@ == self.segment(),
    {
        match self {
            MessageAction::Read => "read",
            MessageAction::Unread => "unread",
            MessageAction::Star => "star",
            MessageAction::Archive => "archive",
            MessageAction::Trash => "trash",
        }
    }
}

// -- tokens ----------------------------------------------------------------

/// An in-memory refresh-token store, used before an account exists.
#[derive(Debug)]
pub struct MemoryTokenStore {
    token: Option<String>,
}

impl MemoryTokenStore {
    /// The token held, if any.
    pub closed spec fn view(&self) -> Option<Seq<char>> {
        opt_view(self.token)
    }

    /// An empty store.
    pub fn new() -> (result: MemoryTokenStore)
        ensures
            result@ is None,
    {
        MemoryTokenStore { token: None }
    }

    /// A store that already holds `refresh_token`.
    pub fn with_token(refresh_token: &str) -> (result: MemoryTokenStore)
        ensures
            result@ == Some(refresh_token@),
    {
        MemoryTokenStore { token: Some(refresh_token.to_owned()) }
    }

    /// The stored refresh token, if there is one.
    pub fn load(&self) -> (result: Option<String>)
        ensures
            opt_view(result) == self@,
    {
        copy_opt(&self.token)
    }

    /// Keep a freshly rotated refresh token.
    pub fn save(&mut self, refresh_token: String)
        ensures
            final(self)@ == Some(refresh_token@),
    {
        self.token = Some(refresh_token);
    }

    /// Forget the token.
    pub fn clear(&mut self)
        ensures
            final(self)@ is None,
    {
        self.token = None;
    }
}

// -- who is calling --------------------------------------------------------

/// The platform names the server knows.
pub open spec fn known_platform(os: Seq<char>) -> bool {
    os == "windows"@ || os == "macos"@ || os == "linux"@ || os == "android"@ || os == "ios"@
}

/// The `platform` field of the device record for an operating system's name.
pub fn platform_name(os: &str) -> (result: &'static str)
    ensures
        result@ == if known_platform(os@) { os@ } else { "unknown"@ },
{
    if same(os, "windows") {
        "windows"
    } else if same(os, "macos") {
        "macos"
    } else if same(os, "linux") {
        "linux"
    } else if same(os, "android") {
        "android"
    } else if same(os, "ios") {
        "ios"
    } else {
        "unknown"
    }
}

/// `FerromaClient/0.1.0`: the value of `X-Ferroma-Client`.
pub fn client_version_string() -> (result: String)
    ensures
        result@ == CLIENT_NAME@ + "/"@ + VERSION@,
{
    let mut out = CLIENT_NAME.to_owned();
    out.append("/");
    out.append(VERSION);
    out
}

/// The `User-Agent` on a platform and processor architecture.
pub open spec fn user_agent(platform: Seq<char>, arch: Seq<char>) -> Seq<char> {
    CLIENT_NAME@ + "/"@ + VERSION@ + " ("@ + platform + "; "@ + arch + ")"@
}

/// The version headers every FCP request carries.
pub fn version_headers(protocol_version: u32, platform: &str, arch: &str) -> (result: Vec<
    (String, String),
>)
    ensures
        result@.len() == 4,
        result@[0].0@ == HEADER_CLIENT@ && result@[0].1@ == CLIENT_NAME@ + "/"@ + VERSION@,
        result@[1].0@ == HEADER_PROTOCOL@ && result@[1].1@ == digits(protocol_version as nat),
        result@[2].0@ == HEADER_PLATFORM@ && result@[2].1@ == platform@,
        result@[3].0@ == "User-Agent"@ && result@[3].1@ == user_agent(platform@, arch@),
{
    let mut agent = client_version_string();
    agent.append(" (");
    agent.append(platform);
    agent.append("; ");
    agent.append(arch);
    agent.append(")");
    let mut out: Vec<(String, String)> = Vec::new();
    out.push((HEADER_CLIENT.to_owned(), client_version_string()));
    out.push((HEADER_PROTOCOL.to_owned(), decimal(protocol_version as u64)));
    out.push((HEADER_PLATFORM.to_owned(), platform.to_owned()));
    out.push(("User-Agent".to_owned(), agent));
    out
}

/// `base64::engine::general_purpose::STANDARD` encoding of bytes.
pub uninterp spec fn base64_text(bytes: Seq<u8>) -> Seq<char>;

/// Whether a character is of the standard alphabet, or the padding.
pub open spec fn is_base64_char(c: char) -> bool {
    ||| 'A' <= c <= 'Z'
    ||| 'a' <= c <= 'z'
    ||| '0' <= c <= '9'
    ||| c == '+'
    ||| c == '/'
    ||| c == '='
}

/// `base64`'s standard-alphabet, padded encoding; its result is called
/// [`base64_text`]. It has four characters for every three bytes begun.
#[verifier::external_body]
pub(crate) fn base64_encode(bytes: &[u8]) -> (result: String)
    ensures
        result@ == base64_text(bytes@),
        result@.len() == (bytes@.len() + 2) / 3 * 4,
        forall|i: int| 0 <= i < result@.len() ==> is_base64_char(#[trigger] result@[i]),
{
    base64::Engine::encode(&base64::engine::general_purpose::STANDARD, bytes)
}

// -- failures of the transport ---------------------------------------------

/// Why a request got no answer.
#[derive(Debug, Clone, PartialEq, Eq)]
pub enum TransportFailure {
    /// The server took too long.
    TimedOut(String),
    /// The request could not even be built.
    NotBuilt(String),
    /// Anything else on the way.
    Broken(String),
}

/// The error for a request that got no answer, keeping timeouts distinguishable from
/// other failures of the transport.
pub fn transport_error(failure: TransportFailure) -> (result: crate::error::ClientError)
    ensures
        match failure {
            TransportFailure::TimedOut(message) => result == crate::error::ClientError::Timeout(
                message,
            ),
            TransportFailure::NotBuilt(message) => result == crate::error::ClientError::Invalid(
                message,
            ),
            TransportFailure::Broken(message) => result == crate::error::ClientError::Network(
                message,
            ),
        },
{
    match failure {
        TransportFailure::TimedOut(message) => crate::error::ClientError::Timeout(message),
        TransportFailure::NotBuilt(message) => crate::error::ClientError::Invalid(message),
        TransportFailure::Broken(message) => crate::error::ClientError::Network(message),
    }
}

} // verus!
