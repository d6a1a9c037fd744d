//! Text helpers shared by the whole client.
//!
//! Every function works on the characters of a string, and its contract speaks
//! of the `Seq<char>` that a string stands for.

use vstd::prelude::*;

verus! {

/// `String::push` appends one character to the end of the string.
pub assume_specification[ String::push ](s: &mut String, c: char)
    ensures
        final(s)@ == old(s)@.push(c),
;

// -- characters ------------------------------------------------------------

/// The characters with the Unicode `White_Space` property.
pub open spec fn is_blank(c: char) -> bool {
    ||| '\u{9}' <= c <= '\u{d}'
    ||| c == ' '
    ||| c == '\u{85}'
    ||| c == '\u{a0}'
    ||| c == '\u{1680}'
    ||| '\u{2000}' <= c <= '\u{200a}'
    ||| c == '\u{2028}'
    ||| c == '\u{2029}'
    ||| c == '\u{202f}'
    ||| c == '\u{205f}'
    ||| c == '\u{3000}'
}

/// Whether `c` has the Unicode `White_Space` property.
pub fn blank(c: char) -> (result: bool)
    ensures
        result == is_blank(c),
{
    ('\u{9}' <= c && c <= '\u{d}') || c == ' ' || c == '\u{85}' || c == '\u{a0}' || c == '\u{1680}'
        || ('\u{2000}' <= c && c <= '\u{200a}') || c == '\u{2028}' || c == '\u{2029}'
        || c == '\u{202f}' || c == '\u{205f}' || c == '\u{3000}'
}

/// Whether some character of `s` is white space.
pub open spec fn has_blank(s: Seq<char>) -> bool {
    exists|i: int| 0 <= i < s.len() && is_blank(#[trigger] s[i])
}

/// The lower-case form of an ASCII letter; any other character is itself.
pub open spec fn lower_char(c: char) -> char {
    if 'A' <= c <= 'Z' {
        ((c as u8) + 32) as u8 as char
    } else {
        c
    }
}

/// The capital letters of ASCII become the small ones, each its own, and nothing else changes.
pub proof fn law_only_capitals_are_lowered(c: char)
    ensures
        'A' <= c <= 'Z' ==> 'a' <= lower_char(c) <= 'z' && lower_char(c) as int - 'a' as int == c as int
            - 'A' as int,
        !('A' <= c <= 'Z') ==> lower_char(c) == c,
        lower_char(lower_char(c)) == lower_char(c),
{
}

/// [`lower_char`] on every character.
pub open spec fn lowered(s: Seq<char>) -> Seq<char> {
    s.map_values(|c: char| lower_char(c))
}

/// Lower-case one ASCII letter, leaving any other character alone.
pub fn to_lower_char(c: char) -> (result: char)
    ensures
        result == lower_char(c),
{
    if 'A' <= c && c <= 'Z' {
        let code: u8 = c as u8;
        (code + 32) as char
    } else {
        c
    }
}

// -- strings and their characters ------------------------------------------

/// The characters of `s`.
pub fn chars_of(s: &str) -> (result: Vec<char>)
    ensures
        result@ == s@,
{
    let mut out: Vec<char> = Vec::new();
    for c in it: s.chars()
        invariant
            it.seq() == s@,
            out@ == s@.take(it.index() as int),
    {
        proof {
            assert(s@.take(it.index() + 1) =~= s@.take(it.index() as int).push(c));
        }
        out.push(c);
    }
    proof {
        assert(s@.take(s@.len() as int) =~= s@);
    }
    out
}

/// The string made of `chars[from..to]`.
pub fn text_of(chars: &Vec<char>, from: usize, to: usize) -> (result: String)
    requires
        from <= to <= chars@.len(),
    ensures
        result@ == chars@.subrange(from as int, to as int),
{
    let mut out = String::new();
    let mut i: usize = from;
    while i < to
        invariant
            from <= i <= to <= chars@.len(),
            out@ == chars@.subrange(from as int, i as int),
        decreases to - i,
    {
        proof {
            assert(chars@.subrange(from as int, i + 1) =~= chars@.subrange(
                from as int,
                i as int,
            ).push(chars@[i as int]));
        }
        out.push(chars[i]);
        i = i + 1;
    }
    out
}

/// Whether two strings hold the same characters.
pub fn same(a: &str, b: &str) -> (result: bool)
    ensures
        result == (a@ == b@),
{
    a.to_owned() == b.to_owned()
}

/// `s` with its ASCII letters in lower case.
pub fn to_lower(s: &str) -> (result: String)
    ensures
        result@ == lowered(s@),
{
    let mut out = String::new();
    for c in it: s.chars()
        invariant
            it.seq() == s@,
            out@ == lowered(s@.take(it.index() as int)),
    {
        proof {
            assert(lowered(s@.take(it.index() + 1)) =~= lowered(s@.take(it.index() as int)).push(
                lower_char(c),
            ));
        }
        out.push(to_lower_char(c));
    }
    proof {
        assert(s@.take(s@.len() as int) =~= s@);
    }
    out
}

/// Whether some character of `s` is white space.
pub fn any_blank(s: &str) -> (result: bool)
    ensures
        result == has_blank(s@),
{
    let mut found = false;
    for c in it: s.chars()
        invariant
            it.seq() == s@,
            found == has_blank(s@.take(it.index() as int)),
    {
        proof {
            let before = s@.take(it.index() as int);
            let after = s@.take(it.index() + 1);
            assert(after =~= before.push(c));
            if found {
                let i = choose|i: int| 0 <= i < before.len() && is_blank(#[trigger] before[i]);
                assert(is_blank(after[i]));
            }
            if is_blank(c) {
                assert(is_blank(after[before.len() as int]));
            }
        }
        if blank(c) {
            found = true;
        }
    }
    proof {
        assert(s@.take(s@.len() as int) =~= s@);
    }
    found
}

// -- trimming --------------------------------------------------------------

/// `s` without the white space it begins with.
pub open spec fn trimmed_start(s: Seq<char>) -> Seq<char>
    decreases s.len(),
{
    if s.len() > 0 && is_blank(s[0]) {
        trimmed_start(s.drop_first())
    } else {
        s
    }
}

/// `s` without the white space it ends with.
pub open spec fn trimmed_end(s: Seq<char>) -> Seq<char>
    decreases s.len(),
{
    if s.len() > 0 && is_blank(s.last()) {
        trimmed_end(s.drop_last())
    } else {
        s
    }
}

/// `s` without the white space it begins and ends with.
pub open spec fn trimmed(s: Seq<char>) -> Seq<char> {
    trimmed_end(trimmed_start(s))
}

/// `s` without the run of `c` it ends with.
pub open spec fn without_trailing(s: Seq<char>, c: char) -> Seq<char>
    decreases s.len(),
{
    if s.len() > 0 && s.last() == c {
        without_trailing(s.drop_last(), c)
    } else {
        s
    }
}

/// `s` without the run of `c` it begins with.
pub open spec fn without_leading(s: Seq<char>, c: char) -> Seq<char>
    decreases s.len(),
{
    if s.len() > 0 && s[0] == c {
        without_leading(s.drop_first(), c)
    } else {
        s
    }
}

/// `s` without leading and trailing white space.
pub fn trim(s: &str) -> (result: String)
    ensures
        result@ == trimmed(s@),
{
    let chars = chars_of(s);
    let mut from: usize = 0;
    proof {
        assert(chars@.subrange(0, chars@.len() as int) =~= chars@);
    }
    while from < chars.len() && blank(chars[from])
        invariant
            from <= chars@.len(),
            trimmed_start(chars@.subrange(from as int, chars@.len() as int)) == trimmed_start(
                chars@,
            ),
        decreases chars@.len() - from,
    {
        proof {
            assert(chars@.subrange(from as int, chars@.len() as int).drop_first()
                =~= chars@.subrange(from + 1, chars@.len() as int));
        }
        from = from + 1;
    }
    let ghost start = chars@.subrange(from as int, chars@.len() as int);
    assert(trimmed_start(chars@) == start);
    let mut to: usize = chars.len();
    while to > from && blank(chars[to - 1])
        invariant
            from <= to <= chars@.len(),
            trimmed_end(chars@.subrange(from as int, to as int)) == trimmed_end(start),
        decreases to,
    {
        proof {
            assert(chars@.subrange(from as int, to as int).drop_last() =~= chars@.subrange(
                from as int,
                to - 1,
            ));
        }
        to = to - 1;
    }
    text_of(&chars, from, to)
}

/// `s` without the run of `c` it ends with.
pub fn trim_trailing(s: &str, c: char) -> (result: String)
    ensures
        result@ == without_trailing(s@, c),
{
    let chars = chars_of(s);
    let mut to: usize = chars.len();
    proof {
        assert(chars@.subrange(0, to as int) =~= chars@);
    }
    while to > 0 && chars[to - 1] == c
        invariant
            to <= chars@.len(),
            without_trailing(chars@.subrange(0, to as int), c) == without_trailing(chars@, c),
        decreases to,
    {
        proof {
            assert(chars@.subrange(0, to as int).drop_last() =~= chars@.subrange(0, to - 1));
        }
        to = to - 1;
    }
    text_of(&chars, 0, to)
}

/// `s` without the run of `c` it begins with.
pub fn trim_leading(s: &str, c: char) -> (result: String)
    ensures
        result@ == without_leading(s@, c),
{
    let chars = chars_of(s);
    let mut from: usize = 0;
    proof {
        assert(chars@.subrange(0, chars@.len() as int) =~= chars@);
    }
    while from < chars.len() && chars[from] == c
        invariant
            from <= chars@.len(),
            without_leading(chars@.subrange(from as int, chars@.len() as int), c)
                == without_leading(chars@, c),
        decreases chars@.len() - from,
    {
        proof {
            assert(chars@.subrange(from as int, chars@.len() as int).drop_first()
                =~= chars@.subrange(from + 1, chars@.len() as int));
        }
        from = from + 1;
    }
    text_of(&chars, from, chars.len())
}

/// Whether every character is white space.
pub open spec fn all_blank(s: Seq<char>) -> bool {
    forall|i: int| 0 <= i < s.len() ==> is_blank(#[trigger] s[i])
}

proof fn lemma_trimmed_start(s: Seq<char>) -> (k: int)
    ensures
        0 <= k <= s.len(),
        trimmed_start(s) == s.skip(k),
        all_blank(s.take(k)),
        k < s.len() ==> !is_blank(s[k]),
    decreases s.len(),
{
    if s.len() > 0 && is_blank(s[0]) {
        let rest = s.drop_first();
        let k = lemma_trimmed_start(rest);
        assert(rest.skip(k) =~= s.skip(k + 1));
        assert forall|i: int| 0 <= i < k + 1 implies is_blank(#[trigger] s.take(k + 1)[i]) by {
            if i > 0 {
                assert(is_blank(rest.take(k)[i - 1]));
            }
        }
        k + 1
    } else {
        assert(s.skip(0) =~= s);
        0
    }
}

proof fn lemma_trimmed_end(s: Seq<char>) -> (k: int)
    ensures
        0 <= k <= s.len(),
        trimmed_end(s) == s.take(k),
        all_blank(s.skip(k)),
        k > 0 ==> !is_blank(s[k - 1]),
    decreases s.len(),
{
    if s.len() > 0 && is_blank(s.last()) {
        let rest = s.drop_last();
        let k = lemma_trimmed_end(rest);
        assert(rest.take(k) =~= s.take(k));
        assert forall|i: int| 0 <= i < s.skip(k).len() implies is_blank(#[trigger] s.skip(k)[i]) by {
            if i < rest.skip(k).len() {
                assert(is_blank(rest.skip(k)[i]));
            }
        }
        k
    } else {
        assert(s.take(s.len() as int) =~= s);
        s.len() as int
    }
}

/// Trimming takes the blanks off both ends and nothing else: what is left is the middle of the
/// text, neither begins nor ends with a blank, and only blanks stood around it.
pub proof fn law_trimming_takes_blanks_off_the_ends(s: Seq<char>) -> (ends: (int, int))
    ensures
        0 <= ends.0 <= ends.1 <= s.len(),
        trimmed(s) == s.subrange(ends.0, ends.1),
        all_blank(s.take(ends.0)) && all_blank(s.skip(ends.1)),
        trimmed(s).len() > 0 ==> !is_blank(trimmed(s)[0]) && !is_blank(trimmed(s).last()),
        trimmed(s).len() == 0 <==> all_blank(s),
{
    let a = lemma_trimmed_start(s);
    let middle = s.skip(a);
    let n = lemma_trimmed_end(middle);
    let b = a + n;
    assert(middle.take(n) =~= s.subrange(a, b));
    assert forall|i: int| 0 <= i < s.skip(b).len() implies is_blank(#[trigger] s.skip(b)[i]) by {
        assert(is_blank(middle.skip(n)[i]));
    }
    if n == 0 {
        assert forall|i: int| 0 <= i < s.len() implies is_blank(#[trigger] s[i]) by {
            if i < a {
                assert(is_blank(s.take(a)[i]));
            } else {
                assert(is_blank(s.skip(b)[i - b]));
            }
        }
    } else {
        assert(!is_blank(s[b - 1]));
        assert(!is_blank(s[a]));
    }
    (a, b)
}

/// Only the run at the end, or at the beginning, is taken off: what is left does not end, or
/// begin, with the character, and what was taken is nothing else.
pub proof fn law_runs_are_taken_off(s: Seq<char>, c: char)
    ensures
        ({
            let r = without_trailing(s, c);
            &&& r.len() <= s.len() && s.take(r.len() as int) == r
            &&& r.len() > 0 ==> r.last() != c
            &&& forall|i: int| r.len() <= i < s.len() ==> #[trigger] s[i] == c
        }),
        ({
            let r = without_leading(s, c);
            &&& r.len() <= s.len() && s.skip(s.len() - r.len()) == r
            &&& r.len() > 0 ==> r[0] != c
            &&& forall|i: int| 0 <= i < s.len() - r.len() ==> #[trigger] s[i] == c
        }),
    decreases s.len(),
{
    assert(s.take(s.len() as int) =~= s);
    assert(s.skip(0) =~= s);
    if s.len() > 0 && s.last() == c {
        let rest = s.drop_last();
        law_runs_are_taken_off(rest, c);
        let r = without_trailing(s, c);
        assert(rest.take(r.len() as int) =~= s.take(r.len() as int));
        assert forall|i: int| r.len() <= i < s.len() implies #[trigger] s[i] == c by {
            if i < rest.len() {
                assert(rest[i] == s[i]);
            }
        }
    }
    if s.len() > 0 && s[0] == c {
        let rest = s.drop_first();
        law_runs_are_taken_off(rest, c);
        let r = without_leading(s, c);
        assert(rest.skip(rest.len() - r.len()) =~= s.skip(s.len() - r.len()));
        assert forall|i: int| 0 <= i < s.len() - r.len() implies #[trigger] s[i] == c by {
            if i > 0 {
                assert(rest[i - 1] == s[i]);
            }
        }
    }
}

// -- searching and splitting -----------------------------------------------

/// The position of the first `c` in `s`.
pub open spec fn first_index(s: Seq<char>, c: char) -> Option<int>
    decreases s.len(),
{
    if s.len() == 0 {
        None
    } else if s[0] == c {
        Some(0)
    } else {
        match first_index(s.drop_first(), c) {
            Some(i) => Some(i + 1),
            None => None,
        }
    }
}

/// What [`first_index`] finds: the least position that holds `c`.
pub proof fn lemma_first_index(s: Seq<char>, c: char)
    ensures
        match first_index(s, c) {
            Some(i) => 0 <= i < s.len() && s[i] == c && forall|j: int|
                0 <= j < i ==> s[j] != c,
            None => forall|j: int| 0 <= j < s.len() ==> s[j] != c,
        },
    decreases s.len(),
{
    if s.len() > 0 && s[0] != c {
        let rest = s.drop_first();
        lemma_first_index(rest, c);
        match first_index(rest, c) {
            Some(i) => {
                assert forall|j: int| 0 <= j < i + 1 implies s[j] != c by {
                    if j > 0 {
                        assert(s[j] == rest[j - 1]);
                    }
                }
            },
            None => {
                assert forall|j: int| 0 <= j < s.len() implies s[j] != c by {
                    if j > 0 {
                        assert(s[j] == rest[j - 1]);
                    }
                }
            },
        }
    }
}

/// A position that holds `c` and has no `c` before it is the first index.
pub proof fn lemma_first_index_is(s: Seq<char>, c: char, i: int)
    requires
        0 <= i < s.len(),
        s[i] == c,
        forall|j: int| 0 <= j < i ==> s[j] != c,
    ensures
        first_index(s, c) == Some(i),
{
    lemma_first_index(s, c);
    match first_index(s, c) {
        Some(k) => {
            if k < i {
                assert(s[k] != c);
            }
            if i < k {
                assert(s[i] != c);
            }
        },
        None => {
            assert(s[i] != c);
        },
    }
}

/// The parts of `s` before and after its first `c`.
pub open spec fn split_at_first(s: Seq<char>, c: char) -> Option<(Seq<char>, Seq<char>)> {
    match first_index(s, c) {
        Some(i) => Some((s.subrange(0, i), s.subrange(i + 1, s.len() as int))),
        None => None,
    }
}

/// A text is split at the first `c`: the two parts with a `c` between them are the text, and the
/// first part has none; a text is not split only if it has none.
pub proof fn law_a_split_loses_nothing(s: Seq<char>, c: char)
    ensures
        split_at_first(s, c) is None <==> !s.contains(c),
        split_at_first(s, c) matches Some((before, after)) ==> s == before.push(c) + after
            && !before.contains(c),
{
    lemma_first_index(s, c);
    match first_index(s, c) {
        Some(i) => {
            assert(s[i] == c);
            assert(s.subrange(0, i).push(c) + s.subrange(i + 1, s.len() as int) =~= s);
        },
        None => {},
    }
}

/// Split `s` at its first `c`.
pub fn split_once(s: &str, c: char) -> (result: Option<(String, String)>)
    ensures
        match result {
            Some((before, after)) => split_at_first(s@, c) == Some((before@, after@)),
            None => split_at_first(s@, c) is None,
        },
{
    let chars = chars_of(s);
    let mut i: usize = 0;
    while i < chars.len()
        invariant
            i <= chars@.len(),
            chars@ == s@,
            forall|j: int| 0 <= j < i ==> chars@[j] != c,
        decreases chars@.len() - i,
    {
        if chars[i] == c {
            proof {
                lemma_first_index_is(s@, c, i as int);
            }
            return Some((text_of(&chars, 0, i), text_of(&chars, i + 1, chars.len())));
        }
        i = i + 1;
    }
    proof {
        lemma_first_index(s@, c);
    }
    None
}

/// Whether `s` begins with `head`.
pub open spec fn begins_with(s: Seq<char>, head: Seq<char>) -> bool {
    head.len() <= s.len() && s.subrange(0, head.len() as int) == head
}

/// Whether `s` ends with `tail`.
pub open spec fn finishes_with(s: Seq<char>, tail: Seq<char>) -> bool {
    tail.len() <= s.len() && s.subrange(s.len() - tail.len(), s.len() as int) == tail
}

/// Whether `chars[at..]` begins with `part`.
fn matches_at(chars: &Vec<char>, at: usize, part: &Vec<char>) -> (result: bool)
    requires
        at + part@.len() <= chars@.len(),
    ensures
        result == (chars@.subrange(at as int, at + part@.len()) == part@),
{
    let size: usize = chars.len();
    let mut i: usize = 0;
    while i < part.len()
        invariant
            i <= part@.len(),
            size == chars@.len(),
            at + part@.len() <= size,
            forall|j: int| 0 <= j < i ==> chars@[at + j] == part@[j],
        decreases part@.len() - i,
    {
        if chars[at + i] != part[i] {
            proof {
                let window = chars@.subrange(at as int, at + part@.len());
                assert(window[i as int] == chars@[at + i]);
            }
            return false;
        }
        i = i + 1;
    }
    proof {
        assert(chars@.subrange(at as int, at + part@.len()) =~= part@);
    }
    true
}

/// Whether `s` begins with `head`.
pub fn starts_with(s: &str, head: &str) -> (result: bool)
    ensures
        result == begins_with(s@, head@),
{
    let chars = chars_of(s);
    let part = chars_of(head);
    part.len() <= chars.len() && matches_at(&chars, 0, &part)
}

/// Whether `s` ends with `tail`.
pub fn ends_with(s: &str, tail: &str) -> (result: bool)
    ensures
        result == finishes_with(s@, tail@),
{
    let chars = chars_of(s);
    let part = chars_of(tail);
    part.len() <= chars.len() && matches_at(&chars, chars.len() - part.len(), &part)
}

// -- joining ---------------------------------------------------------------

/// The views of a list of strings.
pub open spec fn views(parts: Seq<String>) -> Seq<Seq<char>> {
    parts.map_values(|p: String| p@)
}

/// `parts` in order, with `separator` between each two neighbours.
pub open spec fn joined(parts: Seq<Seq<char>>, separator: Seq<char>) -> Seq<char>
    decreases parts.len(),
{
    if parts.len() == 0 {
        Seq::empty()
    } else if parts.len() == 1 {
        parts[0]
    } else {
        joined(parts.drop_last(), separator) + separator + parts.last()
    }
}

/// Join `parts`, with `separator` between each two neighbours.
pub fn join(parts: &Vec<String>, separator: &str) -> (result: String)
    ensures
        result@ == joined(views(parts@), separator@),
{
    let mut out = String::new();
    let mut i: usize = 0;
    while i < parts.len()
        invariant
            i <= parts@.len(),
            out@ == joined(views(parts@.take(i as int)), separator@),
        decreases parts@.len() - i,
    {
        proof {
            let before = views(parts@.take(i as int));
            let after = views(parts@.take(i + 1));
            assert(after.drop_last() =~= before);
            assert(after.last() == parts@[i as int]@);
        }
        if i > 0 {
            out.append(separator);
        }
        out.append(parts[i].as_str());
        i = i + 1;
    }
    proof {
        assert(parts@.take(parts@.len() as int) =~= parts@);
    }
    out
}

/// A copy of a list of strings.
pub fn copy_list(parts: &Vec<String>) -> (result: Vec<String>)
    ensures
        result@ == parts@,
{
    let mut out: Vec<String> = Vec::new();
    let mut i: usize = 0;
    while i < parts.len()
        invariant
            i <= parts@.len(),
            out@ == parts@.take(i as int),
        decreases parts@.len() - i,
    {
        proof {
            assert(parts@.take(i + 1) =~= parts@.take(i as int).push(parts@[i as int]));
        }
        out.push(parts[i].clone());
        i = i + 1;
    }
    proof {
        assert(parts@.take(parts@.len() as int) =~= parts@);
    }
    out
}

// -- numbers ---------------------------------------------------------------

/// The decimal digit `d`.
pub open spec fn digit_char(d: nat) -> char {
    (('0' as u8) + d) as u8 as char
}

/// Whether `c` is a decimal digit.
pub open spec fn is_digit(c: char) -> bool {
    '0' <= c <= '9'
}

/// Whether every character of `s` is a decimal digit.
pub open spec fn all_digits(s: Seq<char>) -> bool {
    forall|i: int| 0 <= i < s.len() ==> is_digit(#[trigger] s[i])
}

/// The decimal form of `n`, without leading zeroes.
pub open spec fn digits(n: nat) -> Seq<char>
    decreases n,
{
    if n < 10 {
        seq![digit_char(n)]
    } else {
        digits(n / 10).push(digit_char(n % 10))
    }
}

/// The decimal form of `n`, with a `-` when it is negative.
pub open spec fn signed_digits(n: int) -> Seq<char> {
    if n < 0 {
        seq!['-'] + digits((-n) as nat)
    } else {
        digits(n as nat)
    }
}

/// The number that a string of decimal digits stands for.
pub open spec fn digits_value(s: Seq<char>) -> nat
    decreases s.len(),
{
    if s.len() == 0 {
        0
    } else {
        (digits_value(s.drop_last()) * 10 + (s.last() as nat - '0' as nat)) as nat
    }
}

/// The decimal form of a number is made of digits and stands for that number.
pub proof fn lemma_digits(n: nat)
    ensures
        digits(n).len() > 0,
        all_digits(digits(n)),
        digits_value(digits(n)) == n,
    decreases n,
{
    let last = digit_char(n % 10);
    assert(last as nat == '0' as nat + n % 10);
    if n < 10 {
        assert(digits(n).drop_last() =~= Seq::<char>::empty());
        assert(digits_value(Seq::<char>::empty()) == 0);
    } else {
        lemma_digits(n / 10);
        assert(digits(n).drop_last() =~= digits(n / 10));
    }
}

/// Two numbers with the same decimal form are the same.
pub proof fn lemma_signed_digits_injective(a: int, b: int)
    requires
        signed_digits(a) == signed_digits(b),
    ensures
        a == b,
{
    let x = (if a < 0 {
        -a
    } else {
        a
    }) as nat;
    let y = (if b < 0 {
        -b
    } else {
        b
    }) as nat;
    lemma_digits(x);
    lemma_digits(y);
    assert(is_digit(digits(x)[0]) && is_digit(digits(y)[0]));
    assert((a < 0) == (signed_digits(a)[0] == '-'));
    assert((b < 0) == (signed_digits(b)[0] == '-'));
    if a < 0 {
        assert(signed_digits(a).skip(1) =~= digits(x));
        assert(signed_digits(b).skip(1) =~= digits(y));
    }
}

/// A prefix of a digit string stands for no more than the whole.
pub proof fn lemma_digits_value_prefix(s: Seq<char>, k: int)
    requires
        0 <= k <= s.len(),
        all_digits(s),
    ensures
        digits_value(s.take(k)) <= digits_value(s),
    decreases s.len(),
{
    if k == s.len() {
        assert(s.take(k) =~= s);
    } else {
        let head = s.drop_last();
        assert(is_digit(s[s.len() - 1]));
        assert(all_digits(head)) by {
            assert forall|i: int| 0 <= i < head.len() implies is_digit(#[trigger] head[i]) by {
                assert(is_digit(s[i]));
            }
        }
        assert(head.take(k) =~= s.take(k));
        lemma_digits_value_prefix(head, k);
    }
}

/// The digit `d`.
fn digit(d: u8) -> (result: char)
    requires
        d < 10,
    ensures
        result == digit_char(d as nat),
{
    (48 + d) as char
}

/// The decimal form of `n`.
pub fn decimal(n: u64) -> (result: String)
    ensures
        result@ == digits(n as nat),
{
    decimal_wide(n as u128)
}

/// The decimal form of `n`.
pub fn decimal_wide(n: u128) -> (result: String)
    ensures
        result@ == digits(n as nat),
    decreases n,
{
    if n < 10 {
        let mut out = String::new();
        out.push(digit(n as u8));
        proof {
            assert(out@ =~= seq![digit_char(n as nat)]);
        }
        out
    } else {
        let mut out = decimal_wide(n / 10);
        out.push(digit((n % 10) as u8));
        out
    }
}

/// The decimal form of `n`, with a `-` when it is negative.
pub fn decimal_signed(n: i64) -> (result: String)
    ensures
        result@ == signed_digits(n as int),
{
    if n < 0 {
        let mut out = String::new();
        out.push('-');
        let magnitude: u64 = if n == i64::MIN {
            9_223_372_036_854_775_808u64
        } else {
            (-n) as u64
        };
        out.append(decimal(magnitude).as_str());
        proof {
            assert(out@ =~= seq!['-'] + digits((-n) as nat));
        }
        out
    } else {
        decimal(n as u64)
    }
}

/// The number in `s` when it is all digits and at most `limit`.
pub open spec fn bounded_number(s: Seq<char>, limit: nat) -> Option<nat> {
    if s.len() > 0 && all_digits(s) && digits_value(s) <= limit {
        Some(digits_value(s))
    } else {
        None
    }
}

/// `s` as a `u64`: an optional `+`, then digits, within range.
pub open spec fn parsed_u64(s: Seq<char>) -> Option<u64> {
    let body = if s.len() > 0 && s[0] == '+' { s.drop_first() } else { s };
    match bounded_number(body, u64::MAX as nat) {
        Some(n) => Some(n as u64),
        None => None,
    }
}

/// `s` as an `i64`: an optional `+` or `-`, then digits, within range.
pub open spec fn parsed_i64(s: Seq<char>) -> Option<i64> {
    if s.len() > 0 && s[0] == '-' {
        match bounded_number(s.drop_first(), 0x8000_0000_0000_0000) {
            Some(n) => Some((-(n as int)) as i64),
            None => None,
        }
    } else {
        let body = if s.len() > 0 && s[0] == '+' { s.drop_first() } else { s };
        match bounded_number(body, i64::MAX as nat) {
            Some(n) => Some(n as i64),
            None => None,
        }
    }
}

/// The number in `chars[from..]` when it is all digits and at most `limit`.
fn number_from(chars: &Vec<char>, from: usize, limit: u64) -> (result: Option<u64>)
    requires
        from <= chars@.len(),
    ensures
        match result {
            Some(n) => bounded_number(
                chars@.subrange(from as int, chars@.len() as int),
                limit as nat,
            ) == Some(n as nat),
            None => bounded_number(
                chars@.subrange(from as int, chars@.len() as int),
                limit as nat,
            ) is None,
        },
{
    let ghost body = chars@.subrange(from as int, chars@.len() as int);
    if from == chars.len() {
        return None;
    }
    let mut total: u64 = 0;
    let mut i: usize = from;
    while i < chars.len()
        invariant
            from <= i <= chars@.len(),
            body == chars@.subrange(from as int, chars@.len() as int),
            all_digits(body.take(i - from)),
            total == digits_value(body.take(i - from)),
            total <= limit,
        decreases chars@.len() - i,
    {
        let c = chars[i];
        let ghost k = i - from;
        if !('0' <= c && c <= '9') {
            proof {
                assert(!is_digit(body[k]));
            }
            return None;
        }
        let d: u64 = (c as u32 - 48) as u64;
        proof {
            assert(body.take(k + 1).drop_last() =~= body.take(k));
            assert(body.take(k + 1).last() == c);
            assert(digits_value(body.take(k + 1)) == total * 10 + d);
        }
        if total > limit / 10 || limit - total * 10 < d {
            proof {
                if all_digits(body) {
                    lemma_digits_value_prefix(body, k + 1);
                }
            }
            return None;
        }
        total = total * 10 + d;
        proof {
            assert forall|j: int| 0 <= j < k + 1 implies is_digit(
                #[trigger] body.take(k + 1)[j],
            ) by {
                if j < k {
                    assert(is_digit(body.take(k)[j]));
                }
            }
        }
        i = i + 1;
    }
    proof {
        assert(body.take(body.len() as int) =~= body);
    }
    Some(total)
}

/// Read `s` as a `u64`.
pub fn parse_u64(s: &str) -> (result: Option<u64>)
    ensures
        result == parsed_u64(s@),
{
    let chars = chars_of(s);
    proof {
        assert(chars@.subrange(0, chars@.len() as int) =~= chars@);
        if chars@.len() > 0 {
            assert(chars@.subrange(1, chars@.len() as int) =~= chars@.drop_first());
        }
    }
    if chars.len() > 0 && chars[0] == '+' {
        number_from(&chars, 1, u64::MAX)
    } else {
        number_from(&chars, 0, u64::MAX)
    }
}

/// Read `s` as an `i64`.
pub fn parse_i64(s: &str) -> (result: Option<i64>)
    ensures
        result == parsed_i64(s@),
{
    let chars = chars_of(s);
    proof {
        assert(chars@.subrange(0, chars@.len() as int) =~= chars@);
        if chars@.len() > 0 {
            assert(chars@.subrange(1, chars@.len() as int) =~= chars@.drop_first());
        }
    }
    if chars.len() > 0 && chars[0] == '-' {
        match number_from(&chars, 1, 0x8000_0000_0000_0000) {
            Some(n) => if n == 0x8000_0000_0000_0000 {
                Some(i64::MIN)
            } else {
                Some(-(n as i64))
            },
            None => None,
        }
    } else {
        let from: usize = if chars.len() > 0 && chars[0] == '+' {
            1
        } else {
            0
        };
        match number_from(&chars, from, i64::MAX as u64) {
            Some(n) => Some(n as i64),
            None => None,
        }
    }
}

/// A number that was written reads back: as a signed one with its sign, and as an unsigned one if
/// it has none.
pub proof fn law_numbers_read_back(n: int)
    ensures
        i64::MIN <= n <= i64::MAX ==> parsed_i64(signed_digits(n)) == Some(n as i64),
        0 <= n <= u64::MAX ==> parsed_u64(digits(n as nat)) == Some(n as u64),
        0 <= n ==> signed_digits(n) == digits(n as nat),
        n < 0 ==> signed_digits(n)[0] == '-',
{
    let x = (if n < 0 {
        -n
    } else {
        n
    }) as nat;
    lemma_digits(x);
    assert(is_digit(digits(x)[0]));
    if n < 0 {
        assert(signed_digits(n).drop_first() =~= digits(x));
    }
}

// -- shortening ------------------------------------------------------------

/// At most the first `max` characters, with an ellipsis when any were cut.
pub open spec fn shortened(s: Seq<char>, max: nat) -> Seq<char> {
    if s.len() <= max {
        s
    } else {
        s.take(max as int).push('\u{2026}')
    }
}

/// A shortened text is the text itself if that fits, and otherwise its beginning and a mark.
pub proof fn law_a_shortened_text_begins_alike(s: Seq<char>, max: nat)
    ensures
        s.len() <= max ==> shortened(s, max) == s,
        s.len() > max ==> shortened(s, max).len() == max + 1 && shortened(s, max).take(max as int)
            == s.take(max as int) && shortened(s, max)[max as int] == '\u{2026}',
{
    if s.len() > max {
        assert(shortened(s, max).take(max as int) =~= s.take(max as int));
    }
}

/// Keep at most `max` characters of `s`, marking a cut with an ellipsis.
pub fn truncate(s: &str, max: usize) -> (result: String)
    ensures
        result@ == shortened(s@, max as nat),
{
    let chars = chars_of(s);
    if chars.len() <= max {
        s.to_owned()
    } else {
        let mut out = text_of(&chars, 0, max);
        proof {
            assert(chars@.subrange(0, max as int) =~= s@.take(max as int));
        }
        out.push('\u{2026}');
        out
    }
}

// -- optional strings ------------------------------------------------------

/// The view of an optional string.
pub open spec fn opt_view(value: Option<String>) -> Option<Seq<char>> {
    match value {
        Some(s) => Some(s@),
        None => None,
    }
}

/// The characters of an optional string, or none at all.
pub open spec fn text_or_empty(value: Option<String>) -> Seq<char> {
    match value {
        Some(s) => s@,
        None => Seq::empty(),
    }
}

/// A copy of an optional string.
pub fn copy_opt(value: &Option<String>) -> (result: Option<String>)
    ensures
        result == *value,
{
    match value {
        Some(s) => Some(s.clone()),
        None => None,
    }
}

/// A copy of an optional string, with the empty string for `None`.
pub fn copy_or_empty(value: &Option<String>) -> (result: String)
    ensures
        result@ == text_or_empty(*value),
{
    match value {
        Some(s) => s.clone(),
        None => String::new(),
    }
}

// -- quoting for messages --------------------------------------------------

/// What `{:?}` prints for a string.
pub uninterp spec fn debug_text(s: Seq<char>) -> Seq<char>;

/// Whether `{:?}` has nothing to escape: ASCII letters, digits, blanks and the
/// punctuation other than quotation marks and backslashes.
pub open spec fn needs_no_escape(s: Seq<char>) -> bool {
    forall|i: int|
        0 <= i < s.len() ==> ' ' <= #[trigger] s[i] <= '~' && s[i] != '"' && s[i] != '\\'
}

/// `format!("{:?}", s)`: the string between quotation marks, with escapes inside.
/// Text that needs no escape is quoted as it is; what it makes of any other text is
/// called [`debug_text`].
#[verifier::external_body]
pub(crate) fn debug_quoted(s: &str) -> (result: String)
    ensures
        result@ == debug_text(s@),
        needs_no_escape(s@) ==> result@ == seq!['"'] + s@ + seq!['"'],
{
    format!("{:?}", s)
}

/// `head`, then `middle`, then `tail`.
pub fn concat3(head: &str, middle: &str, tail: &str) -> (result: String)
    ensures
        result@ == head@ + middle@ + tail@,
{
    let mut out = head.to_owned();
    out.append(middle);
    out.append(tail);
    out
}

// -- containment -----------------------------------------------------------

/// Whether `part` stands in `s` at position `at`.
pub open spec fn stands_at(s: Seq<char>, part: Seq<char>, at: int) -> bool {
    0 <= at && at + part.len() <= s.len() && s.subrange(at, at + part.len()) == part
}

/// Whether `part` stands somewhere in `s`.
pub open spec fn holds(s: Seq<char>, part: Seq<char>) -> bool {
    exists|at: int| #[trigger] stands_at(s, part, at)
}

/// Whether `part` stands somewhere in `s`.
pub fn contains(s: &str, part: &str) -> (result: bool)
    ensures
        result == holds(s@, part@),
{
    let chars = chars_of(s);
    let wanted = chars_of(part);
    if wanted.len() > chars.len() {
        proof {
            if holds(s@, part@) {
                let at = choose|at: int| #[trigger] stands_at(s@, part@, at);
                assert(false);
            }
        }
        return false;
    }
    let last: usize = chars.len() - wanted.len();
    let mut at: usize = 0;
    loop
        invariant
            chars@ == s@,
            wanted@ == part@,
            last == chars@.len() - wanted@.len(),
            at <= last,
            forall|i: int| 0 <= i < at ==> !#[trigger] stands_at(s@, part@, i),
        decreases last - at,
    {
        if matches_at(&chars, at, &wanted) {
            assert(stands_at(s@, part@, at as int));
            return true;
        }
        if at == last {
            proof {
                if holds(s@, part@) {
                    let i = choose|i: int| #[trigger] stands_at(s@, part@, i);
                    assert(i <= last);
                    assert(i < at || i == at);
                }
            }
            return false;
        }
        at = at + 1;
    }
}

} // verus!
