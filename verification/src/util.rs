//! Escaping for the places that user text ends up in.

use vstd::prelude::*;

use crate::text::{holds, lower_char, lowered, stands_at};

verus! {

/// What one character becomes inside an FTS5 string: a quotation mark is doubled.
pub open spec fn fts_char(c: char) -> Seq<char> {
    if c == '"' {
        seq!['"', '"']
    } else {
        seq![c]
    }
}

/// `s` as the inside of an FTS5 string.
pub open spec fn fts_escaped(s: Seq<char>) -> Seq<char>
    decreases s.len(),
{
    if s.len() == 0 {
        Seq::empty()
    } else {
        fts_escaped(s.drop_last()) + fts_char(s.last())
    }
}

/// What one character becomes inside a `LIKE ... ESCAPE '\'` pattern: the
/// wildcards and the escape character are escaped.
pub open spec fn like_char(c: char) -> Seq<char> {
    if c == '\\' || c == '%' || c == '_' {
        seq!['\\', c]
    } else {
        seq![c]
    }
}

/// `s` as literal text inside a `LIKE ... ESCAPE '\'` pattern.
pub open spec fn like_escaped(s: Seq<char>) -> Seq<char>
    decreases s.len(),
{
    if s.len() == 0 {
        Seq::empty()
    } else {
        like_escaped(s.drop_last()) + like_char(s.last())
    }
}

/// Escape `value` for the inside of an FTS5 string.
pub fn escape_fts(value: &str) -> (result: String)
    ensures
        result@ == fts_escaped(value@),
{
    let mut out = String::new();
    for c in it: value.chars()
        invariant
            it.seq() == value@,
            out@ == fts_escaped(value@.take(it.index() as int)),
    {
        proof {
            assert(value@.take(it.index() + 1).drop_last() =~= value@.take(it.index() as int));
            assert(value@.take(it.index() + 1).last() == c);
        }
        let ghost before = out@;
        if c == '"' {
            out.push('"');
        }
        out.push(c);
        proof {
            assert(out@ =~= before + fts_char(c));
        }
    }
    proof {
        assert(value@.take(value@.len() as int) =~= value@);
    }
    out
}

/// Escape `value` for literal use inside a `LIKE ... ESCAPE '\'` pattern.
pub fn escape_like(value: &str) -> (result: String)
    ensures
        result@ == like_escaped(value@),
{
    let mut out = String::new();
    for c in it: value.chars()
        invariant
            it.seq() == value@,
            out@ == like_escaped(value@.take(it.index() as int)),
    {
        proof {
            assert(value@.take(it.index() + 1).drop_last() =~= value@.take(it.index() as int));
            assert(value@.take(it.index() + 1).last() == c);
        }
        let ghost before = out@;
        if c == '\\' || c == '%' || c == '_' {
            out.push('\\');
        }
        out.push(c);
        proof {
            assert(out@ =~= before + like_char(c));
        }
    }
    proof {
        assert(value@.take(value@.len() as int) =~= value@);
    }
    out
}

/// The text of an FTS5 string's inside and what follows the closing quotation
/// mark; `None` when it is never closed. A doubled mark stands for one.
pub open spec fn fts_string_read(s: Seq<char>) -> Option<(Seq<char>, Seq<char>)>
    decreases s.len(),
{
    if s.len() == 0 {
        None
    } else if s[0] != '"' {
        match fts_string_read(s.drop_first()) {
            Some((text, rest)) => Some((seq![s[0]] + text, rest)),
            None => None,
        }
    } else if s.len() > 1 && s[1] == '"' {
        match fts_string_read(s.skip(2)) {
            Some((text, rest)) => Some((seq!['"'] + text, rest)),
            None => None,
        }
    } else {
        Some((Seq::empty(), s.drop_first()))
    }
}

/// [`fts_escaped`] character by character from the front.
proof fn lemma_fts_escaped_first(s: Seq<char>)
    requires
        s.len() > 0,
    ensures
        fts_escaped(s) == fts_char(s[0]) + fts_escaped(s.drop_first()),
    decreases s.len(),
{
    if s.len() == 1 {
        assert(s.drop_last() =~= Seq::empty());
        assert(s.drop_first() =~= Seq::empty());
        assert(fts_escaped(s) =~= fts_char(s[0]) + fts_escaped(s.drop_first()));
    } else {
        let init = s.drop_last();
        lemma_fts_escaped_first(init);
        assert(init.drop_first() =~= s.drop_first().drop_last());
        assert(s.drop_first().last() == s.last());
        assert(fts_escaped(s) =~= fts_char(s[0]) + fts_escaped(s.drop_first()));
    }
}

/// User text cannot leave the FTS5 string it is put in: whatever follows the
/// closing quotation mark, the string read from `"<escaped>"` is the text itself
/// and ends exactly at that mark.
pub proof fn law_fts_string_is_one_phrase(value: Seq<char>, after: Seq<char>)
    requires
        after.len() == 0 || after[0] != '"',
    ensures
        fts_string_read(fts_escaped(value) + seq!['"'] + after) == Some((value, after)),
    decreases value.len(),
{
    let whole = fts_escaped(value) + seq!['"'] + after;
    if value.len() == 0 {
        assert(whole =~= seq!['"'] + after);
        assert(whole.drop_first() =~= after);
        assert(value =~= Seq::empty());
    } else {
        let rest = value.drop_first();
        let tail = fts_escaped(rest) + seq!['"'] + after;
        lemma_fts_escaped_first(value);
        law_fts_string_is_one_phrase(rest, after);
        assert(whole =~= fts_char(value[0]) + tail);
        if value[0] == '"' {
            assert(whole.skip(2) =~= tail);
        } else {
            assert(whole.drop_first() =~= tail);
        }
        assert(seq![value[0]] + rest =~= value);
    }
}

/// What a `LIKE ... ESCAPE '\'` pattern without live wildcards matches literally;
/// `None` when a wildcard is live or the escape character ends the pattern.
pub open spec fn like_literal(s: Seq<char>) -> Option<Seq<char>>
    decreases s.len(),
{
    if s.len() == 0 {
        Some(Seq::empty())
    } else if s[0] == '\\' {
        if s.len() == 1 {
            None
        } else {
            match like_literal(s.skip(2)) {
                Some(text) => Some(seq![s[1]] + text),
                None => None,
            }
        }
    } else if s[0] == '%' || s[0] == '_' {
        None
    } else {
        match like_literal(s.drop_first()) {
            Some(text) => Some(seq![s[0]] + text),
            None => None,
        }
    }
}

/// [`like_escaped`] character by character from the front.
proof fn lemma_like_escaped_first(s: Seq<char>)
    requires
        s.len() > 0,
    ensures
        like_escaped(s) == like_char(s[0]) + like_escaped(s.drop_first()),
    decreases s.len(),
{
    if s.len() == 1 {
        assert(s.drop_last() =~= Seq::empty());
        assert(s.drop_first() =~= Seq::empty());
        assert(like_escaped(s) =~= like_char(s[0]) + like_escaped(s.drop_first()));
    } else {
        let init = s.drop_last();
        lemma_like_escaped_first(init);
        assert(init.drop_first() =~= s.drop_first().drop_last());
        assert(s.drop_first().last() == s.last());
        assert(like_escaped(s) =~= like_char(s[0]) + like_escaped(s.drop_first()));
    }
}

/// Escaped text has no live wildcard: it matches exactly the text it came from.
pub proof fn law_like_escape_is_literal(value: Seq<char>)
    ensures
        like_literal(like_escaped(value)) == Some(value),
    decreases value.len(),
{
    let whole = like_escaped(value);
    if value.len() == 0 {
        assert(value =~= Seq::empty());
    } else {
        let rest = value.drop_first();
        lemma_like_escaped_first(value);
        law_like_escape_is_literal(rest);
        if value[0] == '\\' || value[0] == '%' || value[0] == '_' {
            assert(whole.skip(2) =~= like_escaped(rest));
        } else {
            assert(whole.drop_first() =~= like_escaped(rest));
        }
        assert(seq![value[0]] + rest =~= value);
    }
}

/// Whether a text matches a `LIKE ... ESCAPE '\'` pattern: `%` stands for any text, `_` for any
/// one character, and a backslash makes the next character stand for itself. The case of ASCII
/// letters does not count.
pub open spec fn like(text: Seq<char>, pattern: Seq<char>) -> bool
    decreases pattern.len(), text.len(),
{
    if pattern.len() == 0 {
        text.len() == 0
    } else if pattern[0] == '%' {
        like(text, pattern.drop_first()) || (text.len() > 0 && like(text.drop_first(), pattern))
    } else if pattern[0] == '_' {
        text.len() > 0 && like(text.drop_first(), pattern.drop_first())
    } else if pattern[0] == '\\' && pattern.len() > 1 {
        text.len() > 0 && lower_char(text[0]) == lower_char(pattern[1]) && like(
            text.drop_first(),
            pattern.skip(2),
        )
    } else {
        text.len() > 0 && lower_char(text[0]) == lower_char(pattern[0]) && like(
            text.drop_first(),
            pattern.drop_first(),
        )
    }
}

proof fn lemma_like_anything(text: Seq<char>)
    ensures
        like(text, seq!['%']),
    decreases text.len(),
{
    let any = seq!['%'];
    let none = any.drop_first();
    assert(any[0] == '%' && none.len() == 0);
    if text.len() > 0 {
        lemma_like_anything(text.drop_first());
        assert(like(text.drop_first(), any));
    } else {
        assert(like(text, none));
    }
}

/// An escaped value in front of `%` matches what begins with the value.
proof fn lemma_like_begins(text: Seq<char>, value: Seq<char>)
    ensures
        like(text, like_escaped(value) + seq!['%']) <==> stands_at(lowered(text), lowered(value), 0),
    decreases value.len(),
{
    let any = seq!['%'];
    let pattern = like_escaped(value) + any;
    if value.len() == 0 {
        assert(pattern =~= any);
        lemma_like_anything(text);
        assert(lowered(text).subrange(0, 0) =~= lowered(value));
    } else {
        let rest = value.drop_first();
        lemma_like_escaped_first(value);
        let c = value[0];
        if c == '\\' || c == '%' || c == '_' {
            assert(pattern.skip(2) =~= like_escaped(rest) + any);
            assert(pattern[0] == '\\' && pattern[1] == c);
        } else {
            assert(pattern.drop_first() =~= like_escaped(rest) + any);
            assert(pattern[0] == c);
        }
        if text.len() > 0 {
            lemma_like_begins(text.drop_first(), rest);
            let t = lowered(text);
            let v = lowered(value);
            let t1 = lowered(text.drop_first());
            let v1 = lowered(rest);
            assert(t1 =~= t.drop_first());
            assert(v1 =~= v.drop_first());
            if stands_at(t, v, 0) {
                assert(t.subrange(0, v.len() as int)[0] == v[0]);
                assert(t1.subrange(0, v1.len() as int) =~= t.subrange(0, v.len() as int).drop_first());
                assert(stands_at(t1, v1, 0));
            }
            if stands_at(t1, v1, 0) && t[0] == v[0] {
                assert(t.subrange(0, v.len() as int) =~= seq![t[0]] + t1.subrange(
                    0,
                    v1.len() as int,
                ));
                assert(v =~= seq![v[0]] + v1);
                assert(stands_at(t, v, 0));
            }
        }
    }
}

/// A value between wildcards finds the texts that hold it, whatever characters it is made of:
/// the case of ASCII letters does not count, and everything else does.
pub proof fn law_like_finds_the_value(text: Seq<char>, value: Seq<char>)
    ensures
        like(text, seq!['%'] + like_escaped(value) + seq!['%']) <==> holds(
            lowered(text),
            lowered(value),
        ),
    decreases text.len(),
{
    let inner = like_escaped(value) + seq!['%'];
    let pattern = seq!['%'] + like_escaped(value) + seq!['%'];
    assert(pattern.drop_first() =~= inner);
    lemma_like_begins(text, value);
    let t = lowered(text);
    let v = lowered(value);
    if text.len() > 0 {
        let t1 = lowered(text.drop_first());
        law_like_finds_the_value(text.drop_first(), value);
        assert(t1 =~= t.drop_first());
        if holds(t1, v) {
            let at = choose|at: int| #[trigger] stands_at(t1, v, at);
            assert(t.subrange(at + 1, at + 1 + v.len()) =~= t1.subrange(at, at + v.len()));
            assert(stands_at(t, v, at + 1));
        }
        if holds(t, v) && !stands_at(t, v, 0) {
            let at = choose|at: int| #[trigger] stands_at(t, v, at);
            assert(t1.subrange(at - 1, at - 1 + v.len()) =~= t.subrange(at, at + v.len()));
            assert(stands_at(t1, v, at - 1));
        }
    } else if holds(t, v) {
        let at = choose|at: int| #[trigger] stands_at(t, v, at);
        assert(at == 0);
    }
}

// -- percent encoding ------------------------------------------------------

/// The bytes that stand for themselves in a URL component: letters, digits and
/// `-`, `.`, `_`, `~`.
pub open spec fn unreserved(b: u8) -> bool {
    ||| 0x30 <= b <= 0x39
    ||| 0x41 <= b <= 0x5a
    ||| 0x61 <= b <= 0x7a
    ||| b == 0x2d
    ||| b == 0x2e
    ||| b == 0x5f
    ||| b == 0x7e
}

/// The upper-case hexadecimal digit `d`.
pub open spec fn hex_digit(d: u8) -> char {
    if d < 10 {
        (0x30 + d) as u8 as char
    } else {
        (0x37 + d) as u8 as char
    }
}

/// One byte in a URL component.
pub open spec fn encoded_byte(b: u8) -> Seq<char> {
    if unreserved(b) {
        seq![b as char]
    } else {
        seq!['%', hex_digit(b / 16), hex_digit(b % 16)]
    }
}

/// Bytes in a URL component.
pub open spec fn encoded_bytes(bytes: Seq<u8>) -> Seq<char>
    decreases bytes.len(),
{
    if bytes.len() == 0 {
        Seq::empty()
    } else {
        encoded_bytes(bytes.drop_last()) + encoded_byte(bytes.last())
    }
}

/// A text in a URL component: its UTF-8 bytes, percent-encoded.
pub open spec fn url_encoded(s: Seq<char>) -> Seq<char> {
    encoded_bytes(vstd::utf8::encode_utf8(s))
}

fn hex(d: u8) -> (result: char)
    requires
        d < 16,
    ensures
        result == hex_digit(d),
{
    if d < 10 {
        (0x30 + d) as char
    } else {
        (0x37 + d) as char
    }
}

/// Percent-encode `value` for use as a URL query value.
pub fn urlencode(value: &str) -> (result: String)
    ensures
        result@ == url_encoded(value@),
{
    let bytes = value.as_bytes();
    let mut out = String::new();
    let mut i: usize = 0;
    while i < bytes.len()
        invariant
            i <= bytes@.len(),
            bytes@ == vstd::utf8::encode_utf8(value@),
            out@ == encoded_bytes(bytes@.take(i as int)),
        decreases bytes@.len() - i,
    {
        let b: u8 = bytes[i];
        let ghost before = out@;
        proof {
            assert(bytes@.take(i + 1).drop_last() =~= bytes@.take(i as int));
            assert(bytes@.take(i + 1).last() == b);
        }
        if (0x30 <= b && b <= 0x39) || (0x41 <= b && b <= 0x5a) || (0x61 <= b && b <= 0x7a) || b
            == 0x2d || b == 0x2e || b == 0x5f || b == 0x7e {
            out.push(b as char);
        } else {
            out.push('%');
            out.push(hex(b / 16));
            out.push(hex(b % 16));
        }
        proof {
            assert(out@ =~= before + encoded_byte(b));
        }
        i = i + 1;
    }
    proof {
        assert(bytes@.take(bytes@.len() as int) =~= bytes@);
    }
    out
}

/// Whether a character may stand in an encoded component.
pub open spec fn url_safe(c: char) -> bool {
    c == '%' || (c as int <= 0x7f && unreserved(c as u8))
}

proof fn lemma_encoded_bytes_safe(bytes: Seq<u8>)
    ensures
        forall|i: int|
            0 <= i < encoded_bytes(bytes).len() ==> url_safe(#[trigger] encoded_bytes(bytes)[i]),
    decreases bytes.len(),
{
    if bytes.len() > 0 {
        let head = encoded_bytes(bytes.drop_last());
        let tail = encoded_byte(bytes.last());
        lemma_encoded_bytes_safe(bytes.drop_last());
        assert forall|i: int| 0 <= i < (head + tail).len() implies url_safe(
            #[trigger] (head + tail)[i],
        ) by {
            if i < head.len() {
                assert(url_safe(head[i]));
            }
        }
    }
}

/// An encoded value cannot smuggle anything into a URL: it holds no `&`, `=`, `?`,
/// `#`, `/`, `+` or blank, only unreserved characters and percent signs.
pub proof fn law_encoded_values_stay_in_their_place(value: Seq<char>, i: int)
    requires
        0 <= i < url_encoded(value).len(),
    ensures
        url_safe(url_encoded(value)[i]),
        url_encoded(value)[i] != '&' && url_encoded(value)[i] != '=' && url_encoded(value)[i] != '?'
            && url_encoded(value)[i] != '#' && url_encoded(value)[i] != '/' && url_encoded(
            value,
        )[i] != '+' && url_encoded(value)[i] != ' ',
{
    lemma_encoded_bytes_safe(vstd::utf8::encode_utf8(value));
}

/// The value of a hexadecimal digit.
pub open spec fn hex_value(c: char) -> int {
    if '0' <= c <= '9' {
        c as int - '0' as int
    } else if 'A' <= c <= 'F' {
        c as int - 'A' as int + 10
    } else {
        c as int - 'a' as int + 10
    }
}

/// The bytes that a URL component stands for: a percent sign and two hexadecimal digits are one
/// byte, and any other character is itself.
pub open spec fn url_decoded(s: Seq<char>) -> Seq<u8>
    decreases s.len(),
{
    if s.len() == 0 {
        Seq::empty()
    } else if s[0] == '%' && s.len() >= 3 {
        seq![(hex_value(s[1]) * 16 + hex_value(s[2])) as u8] + url_decoded(s.skip(3))
    } else {
        seq![s[0] as u8] + url_decoded(s.skip(1))
    }
}

proof fn lemma_encoded_first(bytes: Seq<u8>)
    requires
        bytes.len() > 0,
    ensures
        encoded_bytes(bytes) == encoded_byte(bytes[0]) + encoded_bytes(bytes.drop_first()),
    decreases bytes.len(),
{
    if bytes.len() == 1 {
        assert(bytes.drop_last() =~= Seq::empty());
        assert(bytes.drop_first() =~= Seq::empty());
        assert(encoded_bytes(bytes) =~= encoded_byte(bytes[0]) + encoded_bytes(bytes.drop_first()));
    } else {
        let init = bytes.drop_last();
        lemma_encoded_first(init);
        assert(init.drop_first() =~= bytes.drop_first().drop_last());
        assert(bytes.drop_first().last() == bytes.last());
        assert(encoded_bytes(bytes) =~= encoded_byte(bytes[0]) + encoded_bytes(bytes.drop_first()));
    }
}

proof fn lemma_byte_decoded(b: u8, rest: Seq<char>)
    ensures
        url_decoded(encoded_byte(b) + rest) == seq![b] + url_decoded(rest),
{
    let s = encoded_byte(b) + rest;
    if unreserved(b) {
        assert(s.skip(1) =~= rest);
        assert(s[0] == b as char);
        assert(s[0] != '%');
    } else {
        assert(s.skip(3) =~= rest);
        let high = b / 16;
        let low = b % 16;
        assert(high < 16 && low < 16);
        assert(hex_value(hex_digit(high)) == high);
        assert(hex_value(hex_digit(low)) == low);
        assert(high * 16 + low == b);
    }
}

proof fn lemma_bytes_decoded(bytes: Seq<u8>)
    ensures
        url_decoded(encoded_bytes(bytes)) == bytes,
    decreases bytes.len(),
{
    if bytes.len() > 0 {
        lemma_encoded_first(bytes);
        lemma_bytes_decoded(bytes.drop_first());
        lemma_byte_decoded(bytes[0], encoded_bytes(bytes.drop_first()));
        assert(seq![bytes[0]] + bytes.drop_first() =~= bytes);
    } else {
        assert(bytes =~= Seq::empty());
    }
}

/// An encoded value arrives as it was: decoding it gives the bytes of the text back.
pub proof fn law_encoded_values_read_back(value: Seq<char>)
    ensures
        url_decoded(url_encoded(value)) == vstd::utf8::encode_utf8(value),
{
    lemma_bytes_decoded(vstd::utf8::encode_utf8(value));
}

// -- random names ----------------------------------------------------------

/// Whether every character is a lower-case hexadecimal digit.
pub open spec fn all_hex(s: Seq<char>) -> bool {
    forall|i: int|
        0 <= i < s.len() ==> ('0' <= #[trigger] s[i] <= '9' || 'a' <= s[i] <= 'f')
}

/// A version 4 UUID from `uuid::Uuid::new_v4`, written by its `simple` form: thirty
/// two lower-case hexadecimal digits, otherwise random.
#[verifier::external_body]
pub(crate) fn random_uuid() -> (result: String)
    ensures
        result@.len() == 32,
        all_hex(result@),
{
    uuid::Uuid::new_v4().simple().to_string()
}

// -- digests ---------------------------------------------------------------

/// The SHA-256 digest of some bytes, in hexadecimal.
pub uninterp spec fn sha256_text(bytes: Seq<u8>) -> Seq<char>;

/// `sha2::Sha256::digest`, written as lower-case hexadecimal; the text is called
/// [`sha256_text`], and has two digits for each of the thirty two bytes.
#[verifier::external_body]
fn sha256_digest(bytes: &[u8]) -> (result: String)
    ensures
        result@ == sha256_text(bytes@),
        result@.len() == 64,
        all_hex(result@),
{
    format!("{:x}", <sha2::Sha256 as sha2::Digest>::digest(bytes))
}

/// The SHA-256 digest of some bytes, in hexadecimal.
pub fn sha256_hex(bytes: &[u8]) -> (result: String)
    ensures
        result@ == sha256_text(bytes@),
        result@.len() == 64,
        all_hex(result@),
{
    sha256_digest(bytes)
}

} // verus!
