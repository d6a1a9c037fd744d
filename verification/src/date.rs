//! Calendar days, as the search language writes them.

use vstd::prelude::*;

use crate::text::{
    all_digits, decimal, digit_char, digits, digits_value, has_blank, is_blank, is_digit,
    lemma_digits,
};

verus! {

/// A day of the proleptic Gregorian calendar.
#[derive(Debug, Clone, Copy, PartialEq, Eq, Structural)]
pub struct Date {
    /// The year; year 0 is 1 BCE.
    pub year: i32,
    /// The month, `1` to `12`.
    pub month: u32,
    /// The day of the month, from `1`.
    pub day: u32,
}

/// Whether `year` has a 29 February.
pub open spec fn is_leap(year: int) -> bool {
    year % 4 == 0 && (year % 100 != 0 || year % 400 == 0)
}

/// How many days the month has.
pub open spec fn month_length(year: int, month: int) -> int {
    if month == 2 {
        if is_leap(year) {
            29
        } else {
            28
        }
    } else if month == 4 || month == 6 || month == 9 || month == 11 {
        30
    } else {
        31
    }
}

/// Whether the calendar has the day, within the years that can be represented.
pub open spec fn date_exists(date: Date) -> bool {
    &&& -262143 <= date.year <= 262142
    &&& 1 <= date.month <= 12
    &&& 1 <= date.day <= month_length(date.year as int, date.month as int)
}

/// `n` in two decimal digits.
pub open spec fn two_digits(n: nat) -> Seq<char> {
    seq![digit_char(n / 10), digit_char(n % 10)]
}

/// `n` in decimal, padded with zeroes to four digits.
pub open spec fn four_digits(n: nat) -> Seq<char> {
    if n < 10 {
        "000"@ + digits(n)
    } else if n < 100 {
        "00"@ + digits(n)
    } else if n < 1000 {
        "0"@ + digits(n)
    } else {
        digits(n)
    }
}

/// The year in at least four digits; one outside `0..=9999` carries its sign.
pub open spec fn year_text(year: int) -> Seq<char> {
    if 0 <= year <= 9999 {
        four_digits(year as nat)
    } else if year < 0 {
        "-"@ + four_digits((-year) as nat)
    } else {
        "+"@ + four_digits(year as nat)
    }
}

/// The `YYYY-MM-DD` form of a day.
pub open spec fn date_text(date: Date) -> Seq<char> {
    year_text(date.year as int) + "-"@ + two_digits((date.month % 100) as nat) + "-"@ + two_digits(
        (date.day % 100) as nat,
    )
}

/// What the date parser makes of a text that is not in canonical form.
pub uninterp spec fn loose_date(text: Seq<char>) -> Option<Date>;

/// The day that a text names: the canonical `YYYY-MM-DD` form of a day names that
/// day; what other forms mean is the date parser's business, but it is never a day
/// that does not exist.
pub open spec fn date_named(text: Seq<char>) -> Option<Date> {
    if exists|date: Date| date_exists(date) && #[trigger] date_text(date) == text {
        Some(choose|date: Date| date_exists(date) && #[trigger] date_text(date) == text)
    } else {
        match loose_date(text) {
            Some(date) => if date_exists(date) {
                Some(date)
            } else {
                None
            },
            None => None,
        }
    }
}

/// `chrono::NaiveDate::parse_from_str` with the format `%Y-%m-%d`, giving the
/// year, month and day that the `NaiveDate` reports. A text that is the canonical
/// form of an existing day is read as that day, and whatever is read is a day that
/// exists; what it makes of any other text is called [`loose_date`].
#[verifier::external_body]
fn chrono_date(text: &str) -> (result: Option<Date>)
    ensures
        forall|date: Date|
            date_exists(date) && #[trigger] date_text(date) == text@ ==> result == Some(date),
        (forall|date: Date| date_exists(date) ==> #[trigger] date_text(date) != text@) ==> result
            == loose_date(text@),
        result matches Some(date) ==> date_exists(date),
{
    let parsed = chrono::NaiveDate::parse_from_str(text, "%Y-%m-%d").ok()?;
    Some(
        Date {
            year: chrono::Datelike::year(&parsed),
            month: chrono::Datelike::month(&parsed),
            day: chrono::Datelike::day(&parsed),
        },
    )
}

/// Read a day in the `YYYY-MM-DD` form.
pub fn parse_date(text: &str) -> (result: Option<Date>)
    ensures
        result == date_named(text@),
{
    chrono_date(text)
}

/// `n` in decimal, padded with zeroes to four digits.
fn four(n: u64) -> (result: String)
    ensures
        result@ == four_digits(n as nat),
{
    let padding = if n < 10 {
        "000"
    } else if n < 100 {
        "00"
    } else if n < 1000 {
        "0"
    } else {
        ""
    };
    let mut out = padding.to_owned();
    out.append(decimal(n).as_str());
    proof {
        reveal_strlit("");
        assert(""@ + digits(n as nat) =~= digits(n as nat));
    }
    out
}

/// `n` in two decimal digits.
fn two(n: u32) -> (result: String)
    requires
        n < 100,
    ensures
        result@ == two_digits(n as nat),
{
    let mut out = String::new();
    out.push((48 + (n / 10) as u8) as char);
    out.push((48 + (n % 10) as u8) as char);
    proof {
        assert(out@ =~= two_digits(n as nat));
    }
    out
}

impl Date {
    /// The `YYYY-MM-DD` form of the day.
    pub fn to_string(&self) -> (result: String)
        ensures
            result@ == date_text(*self),
    {
        let year: i64 = self.year as i64;
        let mut out = String::new();
        if year < 0 {
            out.append("-");
            out.append(four((-year) as u64).as_str());
        } else if year > 9999 {
            out.append("+");
            out.append(four(year as u64).as_str());
        } else {
            out.append(four(year as u64).as_str());
        }
        proof {
            assert(out@ =~= year_text(self.year as int));
        }
        out.append("-");
        out.append(two(self.month % 100).as_str());
        out.append("-");
        out.append(two(self.day % 100).as_str());
        out
    }
}

// -- what the canonical form keeps -----------------------------------------

/// Leading zeroes do not change what a digit string stands for.
proof fn lemma_leading_zeroes(zeroes: Seq<char>, s: Seq<char>)
    requires
        forall|i: int| 0 <= i < zeroes.len() ==> zeroes[i] == '0',
    ensures
        digits_value(zeroes + s) == digits_value(s),
    decreases zeroes.len() + s.len(),
{
    if s.len() > 0 {
        lemma_leading_zeroes(zeroes, s.drop_last());
        assert((zeroes + s).drop_last() =~= zeroes + s.drop_last());
    } else if zeroes.len() > 0 {
        lemma_leading_zeroes(zeroes.drop_last(), s);
        assert((zeroes + s).drop_last() =~= zeroes.drop_last() + s);
    }
}

/// The padded form is made of digits and stands for the number.
proof fn lemma_four_digits(n: nat)
    ensures
        all_digits(four_digits(n)),
        four_digits(n).len() > 0,
        digits_value(four_digits(n)) == n,
{
    lemma_digits(n);
    reveal_strlit("000");
    reveal_strlit("00");
    reveal_strlit("0");
    lemma_leading_zeroes("000"@, digits(n));
    lemma_leading_zeroes("00"@, digits(n));
    lemma_leading_zeroes("0"@, digits(n));
    assert forall|i: int| 0 <= i < four_digits(n).len() implies is_digit(
        #[trigger] four_digits(n)[i],
    ) by {
        let padding = four_digits(n).len() - digits(n).len();
        if i >= padding {
            assert(is_digit(digits(n)[i - padding]));
        }
    }
}

/// Different years are written differently.
proof fn lemma_year_text_injective(a: int, b: int)
    requires
        year_text(a) == year_text(b),
    ensures
        a == b,
{
    reveal_strlit("-");
    reveal_strlit("+");
    let na = if a < 0 { (-a) as nat } else { a as nat };
    let nb = if b < 0 { (-b) as nat } else { b as nat };
    lemma_four_digits(na);
    lemma_four_digits(nb);
    assert(is_digit(four_digits(na)[0]));
    assert(is_digit(four_digits(nb)[0]));
    if a < 0 || a > 9999 {
        assert(year_text(a).drop_first() =~= four_digits(na));
    }
    if b < 0 || b > 9999 {
        assert(year_text(b).drop_first() =~= four_digits(nb));
    }
    assert(a < 0 ==> year_text(a)[0] == '-');
    assert(a > 9999 ==> year_text(a)[0] == '+');
    assert(b < 0 ==> year_text(b)[0] == '-');
    assert(b > 9999 ==> year_text(b)[0] == '+');
    assert(na == nb);
}

/// Different numbers below a hundred are written differently.
proof fn lemma_two_digits_injective(a: nat, b: nat)
    requires
        a < 100,
        b < 100,
        two_digits(a) == two_digits(b),
    ensures
        a == b,
{
    assert(two_digits(a)[0] == two_digits(b)[0]);
    assert(two_digits(a)[1] == two_digits(b)[1]);
}

/// Equal texts of the shape `year-month-day` have equal parts.
proof fn lemma_date_parts(
    y1: Seq<char>,
    m1: Seq<char>,
    d1: Seq<char>,
    y2: Seq<char>,
    m2: Seq<char>,
    d2: Seq<char>,
    dash: Seq<char>,
)
    requires
        dash.len() == 1,
        m1.len() == 2 && d1.len() == 2 && m2.len() == 2 && d2.len() == 2,
        y1 + dash + m1 + dash + d1 == y2 + dash + m2 + dash + d2,
    ensures
        y1 == y2 && m1 == m2 && d1 == d2,
{
    let t = y1 + dash + m1 + dash + d1;
    let n = t.len() as int;
    assert(y1.len() == n - 6 && y2.len() == n - 6);
    assert(t.subrange(0, n - 6) =~= y1 && t.subrange(0, n - 6) =~= y2);
    assert(t.subrange(n - 5, n - 3) =~= m1 && t.subrange(n - 5, n - 3) =~= m2);
    assert(t.subrange(n - 2, n) =~= d1 && t.subrange(n - 2, n) =~= d2);
}

/// Different days are written differently.
pub proof fn lemma_date_text_injective(a: Date, b: Date)
    requires
        a.month < 100 && a.day < 100,
        b.month < 100 && b.day < 100,
        date_text(a) == date_text(b),
    ensures
        a == b,
{
    reveal_strlit("-");
    assert(a.month % 100 == a.month && a.day % 100 == a.day);
    assert(b.month % 100 == b.month && b.day % 100 == b.day);
    lemma_date_parts(
        year_text(a.year as int),
        two_digits(a.month as nat),
        two_digits(a.day as nat),
        year_text(b.year as int),
        two_digits(b.month as nat),
        two_digits(b.day as nat),
        "-"@,
    );
    lemma_two_digits_injective(a.day as nat, b.day as nat);
    lemma_two_digits_injective(a.month as nat, b.month as nat);
    lemma_year_text_injective(a.year as int, b.year as int);
}

/// A day that exists is what its canonical form names.
pub proof fn law_date_round_trip(date: Date)
    requires
        date_exists(date),
    ensures
        date_named(date_text(date)) == Some(date),
{
    let text = date_text(date);
    let named = choose|d: Date| date_exists(d) && #[trigger] date_text(d) == text;
    assert(date_exists(date) && date_text(date) == text);
    lemma_date_text_injective(named, date);
}

/// A year has the days of its months, one more in a leap year; from March on, long and short
/// months take turns, but for July and August, which are both long; and every fourth year is a
/// leap year but for the centuries that four hundred does not divide.
pub proof fn law_a_year_has_its_days(year: int)
    ensures
        month_length(year, 1) + month_length(year, 2) + month_length(year, 3) + month_length(year, 4)
            + month_length(year, 5) + month_length(year, 6) + month_length(year, 7) + month_length(
            year,
            8,
        ) + month_length(year, 9) + month_length(year, 10) + month_length(year, 11) + month_length(
            year,
            12,
        ) == (if is_leap(year) {
            366
        } else {
            365int
        }),
        forall|month: int|
            1 <= month <= 12 && month != 2 ==> 30 <= #[trigger] month_length(year, month) <= 31,
        month_length(year, 7) == 31 && month_length(year, 8) == 31,
        forall|month: int|
            3 <= month <= 11 && month != 7 ==> #[trigger] month_length(year, month) != month_length(
                year,
                month + 1,
            ),
        is_leap(year) ==> year % 4 == 0,
        year % 4 == 0 && year % 100 != 0 ==> is_leap(year),
        year % 400 == 0 ==> is_leap(year),
        year % 100 == 0 && year % 400 != 0 ==> !is_leap(year),
{
    assert(year % 400 == 0 ==> year % 4 == 0 && year % 100 == 0);
}

/// A day is written year first, then the month, then the day of the month, with dashes between
/// them: in the years of four digits the form has ten characters, and each part stands for its
/// number.
pub proof fn law_a_day_is_written_from_year_to_day(date: Date)
    requires
        date_exists(date),
        0 <= date.year <= 9999,
    ensures
        ({
            let text = date_text(date);
            &&& text.len() == 10 && text[4] == '-' && text[7] == '-'
            &&& digits_value(text.subrange(0, 4)) == date.year
            &&& digits_value(text.subrange(5, 7)) == date.month
            &&& digits_value(text.subrange(8, 10)) == date.day
        }),
{
    reveal_strlit("-");
    let text = date_text(date);
    let year = date.year as nat;
    lemma_four_digits_value(year);
    lemma_two_digits_value(date.month as nat);
    lemma_two_digits_value(date.day as nat);
    assert(text.subrange(0, 4) =~= four_digits(year));
    assert(text.subrange(5, 7) =~= two_digits(date.month as nat));
    assert(text.subrange(8, 10) =~= two_digits(date.day as nat));
}

proof fn lemma_two_digits_value(n: nat)
    requires
        n < 100,
    ensures
        digits_value(two_digits(n)) == n,
{
    let s = two_digits(n);
    reveal_with_fuel(digits_value, 4);
    assert(s.drop_last() =~= seq![digit_char(n / 10)]);
    assert(s.drop_last().drop_last() =~= Seq::empty());
    assert(digit_char(n / 10) as nat == '0' as nat + n / 10);
    assert(digit_char(n % 10) as nat == '0' as nat + n % 10);
}

proof fn lemma_four_digits_value(n: nat)
    requires
        n <= 9999,
    ensures
        four_digits(n).len() == 4,
        digits_value(four_digits(n)) == n,
{
    reveal_strlit("0");
    reveal_strlit("00");
    reveal_strlit("000");
    reveal_with_fuel(digits, 5);
    reveal_with_fuel(digits_value, 6);
    let s = four_digits(n);
    assert(digit_char(0) == '0');
    let a = digit_char(n / 1000);
    let b = digit_char(n / 100 % 10);
    let c = digit_char(n / 10 % 10);
    let d = digit_char(n % 10);
    assert(n / 10 / 10 == n / 100 && n / 10 / 10 / 10 == n / 1000);
    assert(s =~= seq![a, b, c, d]);
    assert(s.drop_last() =~= seq![a, b, c]);
    assert(s.drop_last().drop_last() =~= seq![a, b]);
    assert(s.drop_last().drop_last().drop_last() =~= seq![a]);
    assert(s.drop_last().drop_last().drop_last().drop_last() =~= Seq::empty());
    assert(a as nat == '0' as nat + n / 1000);
    assert(b as nat == '0' as nat + n / 100 % 10);
    assert(c as nat == '0' as nat + n / 10 % 10);
    assert(d as nat == '0' as nat + n % 10);
}

/// The canonical form is a plain word: digits and signs only.
pub proof fn lemma_date_text_plain(date: Date)
    ensures
        date_text(date).len() > 0,
        forall|i: int|
            0 <= i < date_text(date).len() ==> is_digit(#[trigger] date_text(date)[i])
                || date_text(date)[i] == '-' || date_text(date)[i] == '+',
        !has_blank(date_text(date)),
{
    reveal_strlit("-");
    reveal_strlit("+");
    let year = date.year as int;
    let magnitude = if year < 0 { (-year) as nat } else { year as nat };
    lemma_four_digits(magnitude);
    let y = year_text(year);
    let f = four_digits(magnitude);
    assert forall|i: int| 0 <= i < y.len() implies is_digit(#[trigger] y[i]) || y[i] == '-' || y[i]
        == '+' by {
        let shift = y.len() - f.len();
        if i >= shift {
            assert(is_digit(f[i - shift]));
        }
    }
    let t = date_text(date);
    assert forall|i: int| 0 <= i < t.len() implies is_digit(#[trigger] t[i]) || t[i] == '-' || t[i]
        == '+' by {
        if i < y.len() {
            assert(t[i] == y[i]);
        }
    }
    if has_blank(t) {
        let i = choose|i: int| 0 <= i < t.len() && is_blank(#[trigger] t[i]);
        assert(is_digit(t[i]) || t[i] == '-' || t[i] == '+');
    }
}

} // verus!
