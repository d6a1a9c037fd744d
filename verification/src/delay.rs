//! Lengths of time, in whole milliseconds.

use vstd::prelude::*;

use crate::text::{
    all_digits, begins_with, decimal_wide, digits, digits_value, finishes_with, is_digit,
    lemma_digits,
};

verus! {

/// Milliseconds past the second, behind the decimal point: without zeroes at the end.
pub open spec fn fraction_text(millis: nat) -> Seq<char> {
    if millis % 100 == 0 {
        digits(millis / 100)
    } else if millis % 10 == 0 {
        digits(millis / 100) + digits(millis / 10 % 10)
    } else {
        digits(millis / 100) + digits(millis / 10 % 10) + digits(millis % 10)
    }
}

/// How a length is shown in a log line: in seconds from one second on, else in
/// milliseconds.
pub open spec fn delay_text(millis: nat) -> Seq<char> {
    if millis == 0 {
        "0ns"@
    } else if millis < 1000 {
        digits(millis) + "ms"@
    } else if millis % 1000 == 0 {
        digits(millis / 1000) + "s"@
    } else {
        digits(millis / 1000) + "."@ + fraction_text(millis % 1000) + "s"@
    }
}

/// What stands behind the point is exactly what is past the second, and no digit of it is idle:
/// filled up to three digits it is the number of milliseconds, and it does not end in a zero.
pub proof fn law_nothing_is_rounded_away(millis: nat)
    requires
        0 < millis < 1000,
    ensures
        ({
            let shown = fraction_text(millis);
            &&& all_digits(shown) && 1 <= shown.len() <= 3
            &&& shown.last() != '0'
            &&& shown.len() == 1 ==> digits_value(shown) * 100 == millis
            &&& shown.len() == 2 ==> digits_value(shown) * 10 == millis
            &&& shown.len() == 3 ==> digits_value(shown) == millis
        }),
{
    reveal_with_fuel(digits_value, 4);
    let shown = fraction_text(millis);
    lemma_digits(millis / 100);
    lemma_digits(millis / 10 % 10);
    lemma_digits(millis % 10);
    assert(digits(millis / 100).len() == 1);
    assert(digits(millis / 10 % 10).len() == 1);
    assert(digits(millis % 10).len() == 1);
    assert(digits(millis / 100)[0] as nat == '0' as nat + millis / 100);
    assert(digits(millis / 10 % 10)[0] as nat == '0' as nat + millis / 10 % 10);
    assert(digits(millis % 10)[0] as nat == '0' as nat + millis % 10);
    if shown.len() >= 2 {
        assert(shown.drop_last().last() == shown[shown.len() - 2]);
    }
    if shown.len() == 3 {
        assert(shown.drop_last().drop_last().last() == shown[0]);
    }
}

/// A length is shown in whole seconds from one second on, and in milliseconds below: the number
/// in front is the whole number of them, and the unit stands at the end.
pub proof fn law_a_length_is_shown_in_its_unit(millis: nat)
    ensures
        millis >= 1000 ==> begins_with(delay_text(millis), digits(millis / 1000)),
        millis < 1000 && millis > 0 ==> begins_with(delay_text(millis), digits(millis)),
        finishes_with(delay_text(millis), "ms"@) <==> 0 < millis < 1000,
        millis >= 1000 ==> finishes_with(delay_text(millis), "s"@),
        millis >= 1000 && millis % 1000 > 0 ==> finishes_with(
            delay_text(millis),
            "."@ + fraction_text(millis % 1000) + "s"@,
        ),
        millis >= 1000 && millis % 1000 == 0 ==> delay_text(millis).len() == digits(
            millis / 1000,
        ).len() + 1,
{
    reveal_strlit("ms");
    reveal_strlit("s");
    reveal_strlit("0ns");
    reveal_strlit(".");
    let shown = delay_text(millis);
    let whole = digits(millis / 1000);
    lemma_digits(millis / 1000);
    assert forall|tail: Seq<char>| #[trigger] finishes_with(shown, tail) implies tail
        == shown.subrange(shown.len() - tail.len(), shown.len() as int) by {}
    if millis >= 1000 {
        assert(shown.subrange(0, whole.len() as int) =~= whole);
        assert(shown.subrange(shown.len() - 1, shown.len() as int) =~= "s"@);
        if millis % 1000 > 0 {
            let tail = "."@ + fraction_text(millis % 1000) + "s"@;
            assert(shown.subrange(shown.len() - tail.len(), shown.len() as int) =~= tail);
            law_nothing_is_rounded_away(millis % 1000);
            let past = fraction_text(millis % 1000);
            assert(is_digit(past.last()));
            assert(shown[shown.len() - 2] == past.last());
        } else {
            assert(is_digit(whole.last()));
            assert(shown[shown.len() - 2] == whole.last());
        }
        if finishes_with(shown, "ms"@) {
            assert(shown.subrange(shown.len() - 2, shown.len() as int)[0] == 'm');
        }
    } else if millis > 0 {
        assert(shown.subrange(0, digits(millis).len() as int) =~= digits(millis));
        assert(shown.subrange(shown.len() - 2, shown.len() as int) =~= "ms"@);
    } else if finishes_with(shown, "ms"@) {
        assert(shown.subrange(shown.len() - 2, shown.len() as int)[0] == 'm');
    }
}

/// A length of time.
#[derive(Debug, Clone, Copy, PartialEq, Eq, PartialOrd, Ord, Hash, Structural)]
pub struct Delay {
    /// The length in milliseconds.
    pub millis: u128,
}

impl Delay {
    /// A length of `millis` milliseconds.
    pub fn from_millis(millis: u64) -> (result: Delay)
        ensures
            result.millis == millis,
    {
        Delay { millis: millis as u128 }
    }

    /// A length of `secs` seconds.
    pub fn from_secs(secs: u64) -> (result: Delay)
        ensures
            result.millis == secs * 1000,
    {
        Delay { millis: secs as u128 * 1000 }
    }

    /// The length in milliseconds.
    pub fn as_millis(&self) -> (result: u128)
        ensures
            result == self.millis,
    {
        self.millis
    }

    /// The length for a log line.
    pub fn to_debug_string(&self) -> (result: String)
        ensures
            result@ == delay_text(self.millis as nat),
    {
        let millis = self.millis;
        if millis == 0 {
            return "0ns".to_owned();
        }
        if millis < 1000 {
            let mut out = decimal_wide(millis);
            out.append("ms");
            return out;
        }
        let mut out = decimal_wide(millis / 1000);
        let past: u128 = millis % 1000;
        if past > 0 {
            out.append(".");
            out.append(decimal_wide(past / 100).as_str());
            if past % 100 > 0 {
                out.append(decimal_wide(past / 10 % 10).as_str());
                if past % 10 > 0 {
                    out.append(decimal_wide(past % 10).as_str());
                }
            }
        }
        out.append("s");
        out
    }

    /// The shorter of two lengths.
    pub fn shorter(self, other: Delay) -> (result: Delay)
        ensures
            result.millis == if self.millis <= other.millis { self.millis } else { other.millis },
    {
        if self.millis <= other.millis {
            self
        } else {
            other
        }
    }

    /// The longer of two lengths.
    pub fn longer(self, other: Delay) -> (result: Delay)
        ensures
            result.millis == if self.millis >= other.millis { self.millis } else { other.millis },
    {
        if self.millis >= other.millis {
            self
        } else {
            other
        }
    }
}

} // verus!
