//! What a search finds: the meaning of the conditions that a query becomes.
//!
//! A condition is text: parts that are joined by `AND` and `OR`, parentheses around parts, and
//! strings in quotation marks. [`where_value`] reads the text of a `WHERE` clause the way
//! SQLite does, and [`match_value`] that of a `MATCH` expression. With them the laws here say
//! which messages a query finds.

use vstd::prelude::*;

use crate::database::{lemma_no_marks, marks, BindView, SearchMode};
use crate::date::date_text;
use crate::search::{
    empty_pieces, flag_piece, flag_pieces, fts_condition, fts_conditions, fts_literal, fts_pieces,
    fts_subquery, lemma_marks_like, lemma_where_bound, like_condition, like_pattern_of, like_piece,
    match_pieces, never, piece_binds, piece_clauses, scope_pieces, text_operators, text_part,
    text_pieces, where_binds, where_pieces, where_sql, OpView, PieceView, QueryView, TextTarget,
};
use crate::text::{holds, joined, lemma_first_index_is, lowered, signed_digits, split_at_first};
use crate::util::{
    fts_char, fts_escaped, fts_string_read, law_fts_string_is_one_phrase, law_like_finds_the_value,
    like,
};

verus! {

// -- reading a condition -----------------------------------------------------

/// Where a reader of a condition stands: how many parentheses are open, and whether it is
/// inside a string.
pub struct Place {
    /// The parentheses that are open.
    pub depth: int,
    /// Whether a string is open.
    pub quoted: bool,
}

/// Outside of everything.
pub open spec fn outside() -> Place {
    Place { depth: 0, quoted: false }
}

impl Place {
    /// Whether nothing is open.
    pub open spec fn top(self) -> bool {
        self.depth == 0 && !self.quoted
    }

    /// The place behind one more character.
    pub open spec fn after(self, c: char, quote: char) -> Place {
        if c == quote {
            Place { quoted: !self.quoted, ..self }
        } else if self.quoted {
            self
        } else if c == '(' {
            Place { depth: self.depth + 1, ..self }
        } else if c == ')' {
            Place { depth: self.depth - 1, ..self }
        } else {
            self
        }
    }
}

/// The place behind the first `n` characters.
pub open spec fn place(s: Seq<char>, quote: char, start: Place, n: int) -> Place
    decreases n,
{
    if n <= 0 {
        start
    } else {
        place(s, quote, start, n - 1).after(s[n - 1], quote)
    }
}

/// Whether `word` stands at `i`.
pub open spec fn word_at(s: Seq<char>, word: Seq<char>, i: int) -> bool {
    0 <= i && i + word.len() <= s.len() && s.subrange(i, i + word.len()) == word
}

/// Where `word` first stands from `i` on, outside of everything; less than zero when it
/// does not.
pub open spec fn cut(s: Seq<char>, word: Seq<char>, quote: char, i: int) -> int
    decreases s.len() - i,
{
    if i < 0 || i >= s.len() {
        -1
    } else if place(s, quote, outside(), i).top() && word_at(s, word, i) {
        i
    } else {
        cut(s, word, quote, i + 1)
    }
}

/// What a `MATCH` expression says of a document, where `says` tells whether a column of the
/// document holds a phrase: `OR` binds weaker than `AND`, and a phrase is
/// `column:"phrase"`.
pub open spec fn match_value(s: Seq<char>, says: spec_fn(Seq<char>, Seq<char>) -> bool) -> bool
    decreases s.len(),
{
    let or = cut(s, " OR "@, '"', 0);
    let and = cut(s, " AND "@, '"', 0);
    if 0 <= or && or + 4 <= s.len() {
        match_value(s.take(or), says) || match_value(s.skip(or + 4), says)
    } else if 0 <= and && and + 5 <= s.len() {
        match_value(s.take(and), says) && match_value(s.skip(and + 5), says)
    } else if s.len() >= 2 && s[0] == '(' && s.last() == ')' {
        match_value(s.subrange(1, s.len() - 1), says)
    } else {
        phrase_value(s, says)
    }
}

/// What `column:"phrase"` says of a document.
pub open spec fn phrase_value(s: Seq<char>, says: spec_fn(Seq<char>, Seq<char>) -> bool) -> bool {
    match split_at_first(s, ':') {
        Some((column, rest)) => rest.len() > 0 && rest[0] == '"' && (match fts_string_read(
            rest.drop_first(),
        ) {
            Some((phrase, after)) => after.len() == 0 && says(column, phrase),
            None => false,
        }),
        None => false,
    }
}

// -- parts without a connective ----------------------------------------------

/// Whether no `AND` or `OR` can begin among the first `n` characters, outside of everything,
/// and no parenthesis is closed that was not opened.
spec fn calm(s: Seq<char>, quote: char, n: int) -> bool
    decreases n,
{
    if n <= 0 {
        true
    } else {
        let here = place(s, quote, outside(), n - 1);
        &&& calm(s, quote, n - 1)
        &&& here.depth >= 0
        &&& !(here.top() && s[n - 1] == ' ' && (n >= s.len() || s[n] == 'A' || s[n] == 'O'))
    }
}

/// Whether a text is one part: it has no connective outside of everything, and closes what it
/// opens.
spec fn solid(s: Seq<char>, quote: char) -> bool {
    &&& s.len() > 0
    &&& s[0] != 'A' && s[0] != 'O'
    &&& calm(s, quote, s.len() as int)
    &&& place(s, quote, outside(), s.len() as int) == outside()
}

/// Whether a word is one of the two connectives, with the blanks around it.
spec fn connective(word: Seq<char>) -> bool {
    word == " AND "@ || word == " OR "@
}

proof fn lemma_calm_at(s: Seq<char>, quote: char, n: int, j: int)
    requires
        calm(s, quote, n),
        0 <= j < n,
    ensures
        place(s, quote, outside(), j).depth >= 0,
        !(place(s, quote, outside(), j).top() && s[j] == ' ' && (j + 1 >= s.len() || s[j + 1] == 'A'
            || s[j + 1] == 'O')),
    decreases n,
{
    if j < n - 1 {
        lemma_calm_at(s, quote, n - 1, j);
    }
}

proof fn lemma_calm_from(s: Seq<char>, quote: char, n: int)
    requires
        forall|j: int|
            0 <= j < n ==> (#[trigger] place(s, quote, outside(), j)).depth >= 0 && (place(
                s,
                quote,
                outside(),
                j,
            ).top() ==> s[j] != ' '),
    ensures
        calm(s, quote, n),
    decreases n,
{
    if n > 0 {
        lemma_calm_from(s, quote, n - 1);
        assert(place(s, quote, outside(), n - 1).depth >= 0);
    }
}

/// A reader of two texts, one after the other.
proof fn lemma_place_concat(a: Seq<char>, b: Seq<char>, quote: char, start: Place, n: int)
    requires
        0 <= n <= a.len() + b.len(),
    ensures
        n <= a.len() ==> place(a + b, quote, start, n) == place(a, quote, start, n),
        n >= a.len() ==> place(a + b, quote, start, n) == place(
            b,
            quote,
            place(a, quote, start, a.len() as int),
            n - a.len(),
        ),
    decreases n,
{
    if n > 0 {
        lemma_place_concat(a, b, quote, start, n - 1);
        if n <= a.len() {
            assert((a + b)[n - 1] == a[n - 1]);
        } else {
            assert((a + b)[n - 1] == b[n - 1 - a.len()]);
        }
    }
}

/// A reader one level deeper sees the same, one level deeper.
proof fn lemma_place_deeper(s: Seq<char>, quote: char, n: int)
    ensures
        place(s, quote, Place { depth: 1, quoted: false }, n) == (Place {
            depth: place(s, quote, outside(), n).depth + 1,
            quoted: place(s, quote, outside(), n).quoted,
        }),
    decreases n,
{
    if n > 0 {
        lemma_place_deeper(s, quote, n - 1);
    }
}

/// In front of a part, the search for a connective goes on behind it.
proof fn lemma_cut_past(a: Seq<char>, t: Seq<char>, word: Seq<char>, quote: char, i: int)
    requires
        solid(a, quote),
        connective(word),
        0 <= i <= a.len(),
    ensures
        cut(a + t, word, quote, i) == cut(a + t, word, quote, a.len() as int),
    decreases a.len() - i,
{
    reveal_strlit(" AND ");
    reveal_strlit(" OR ");
    if i < a.len() {
        let s = a + t;
        lemma_calm_at(a, quote, a.len() as int, i);
        lemma_place_concat(a, t, quote, outside(), i);
        if word_at(s, word, i) {
            assert(s.subrange(i, i + word.len())[0] == s[i]);
            assert(s.subrange(i, i + word.len())[1] == s[i + 1]);
            assert(s[i] == a[i]);
            if i + 1 < a.len() {
                assert(s[i + 1] == a[i + 1]);
            }
            assert(!place(s, quote, outside(), i).top());
        }
        lemma_cut_past(a, t, word, quote, i + 1);
    }
}

/// Behind a text that closes what it opens, the search goes on as if it began there.
proof fn lemma_cut_shift(a: Seq<char>, t: Seq<char>, word: Seq<char>, quote: char, j: int)
    requires
        place(a, quote, outside(), a.len() as int) == outside(),
        0 <= j,
    ensures
        cut(a + t, word, quote, a.len() + j) == (if cut(t, word, quote, j) < 0 {
            -1
        } else {
            a.len() + cut(t, word, quote, j)
        }),
    decreases t.len() - j,
{
    if j < t.len() {
        let s = a + t;
        lemma_place_concat(a, t, quote, outside(), a.len() + j);
        if j + word.len() <= t.len() {
            assert(s.subrange(a.len() + j, a.len() + j + word.len()) =~= t.subrange(
                j,
                j + word.len(),
            ));
        }
        lemma_cut_shift(a, t, word, quote, j + 1);
        lemma_cut_range(t, word, quote, j + 1);
    }
}

proof fn lemma_cut_range(s: Seq<char>, word: Seq<char>, quote: char, i: int)
    ensures
        cut(s, word, quote, i) == -1 || (i <= cut(s, word, quote, i) && cut(s, word, quote, i)
            + word.len() <= s.len()),
    decreases s.len() - i,
{
    if 0 <= i < s.len() {
        lemma_cut_range(s, word, quote, i + 1);
    }
}

/// A part has no connective.
proof fn lemma_cut_none(a: Seq<char>, word: Seq<char>, quote: char)
    requires
        solid(a, quote),
        connective(word),
    ensures
        cut(a, word, quote, 0) == -1,
{
    let none = Seq::<char>::empty();
    lemma_cut_past(a, none, word, quote, 0);
    assert(a + none =~= a);
}

/// Two parts with a connective between them: it is found right behind the first, and the other
/// connective is where the second has it.
proof fn lemma_connected(a: Seq<char>, word: Seq<char>, other: Seq<char>, t: Seq<char>, quote: char)
    requires
        solid(a, quote),
        connective(word),
        connective(other),
        word != other,
        t.len() > 0,
        t[0] != 'A' && t[0] != 'O',
        quote == '"' || quote == '\'',
    ensures
        cut(a + word + t, word, quote, 0) == a.len(),
        cut(a + word + t, other, quote, 0) == (if cut(t, other, quote, 0) < 0 {
            -1
        } else {
            a.len() + word.len() + cut(t, other, quote, 0)
        }),
        (a + word + t).take(a.len() as int) == a,
        (a + word + t).skip((a.len() + word.len()) as int) == t,
{
    reveal_strlit(" AND ");
    reveal_strlit(" OR ");
    let rest = word + t;
    let s = a + word + t;
    assert(s =~= a + rest);
    lemma_cut_past(a, rest, word, quote, 0);
    lemma_cut_past(a, rest, other, quote, 0);
    lemma_place_concat(a, rest, quote, outside(), a.len() as int);
    assert(s.subrange(a.len() as int, (a.len() + word.len()) as int) =~= word);
    assert(word_at(s, word, a.len() as int));
    assert(cut(s, word, quote, a.len() as int) == a.len());
    lemma_cut_shift(a, rest, other, quote, 0);
    lemma_word_passed(word, other, t, quote);
    assert(s.take(a.len() as int) =~= a);
    assert(s.skip((a.len() + word.len()) as int) =~= t);
}

/// The search for one connective passes over the other.
proof fn lemma_word_passed(word: Seq<char>, other: Seq<char>, t: Seq<char>, quote: char)
    requires
        connective(word),
        connective(other),
        word != other,
        t.len() > 0,
        t[0] != 'A' && t[0] != 'O',
        quote == '"' || quote == '\'',
    ensures
        place(word, quote, outside(), word.len() as int) == outside(),
        cut(word + t, other, quote, 0) == (if cut(t, other, quote, 0) < 0 {
            -1
        } else {
            word.len() + cut(t, other, quote, 0)
        }),
{
    reveal_strlit(" AND ");
    reveal_strlit(" OR ");
    reveal_with_fuel(place, 6);
    let s = word + t;
    assert forall|i: int| 0 <= i < word.len() implies !word_at(s, other, i) by {
        if word_at(s, other, i) {
            let found = s.subrange(i, i + other.len());
            assert(found[0] == s[i] && found[1] == s[i + 1]);
            if i + 1 < word.len() {
                assert(s[i] == word[i] && s[i + 1] == word[i + 1]);
            } else {
                assert(s[i + 1] == t[0]);
            }
        }
    }
    assert(place(word, quote, outside(), word.len() as int) == outside());
    assert(cut(s, other, quote, 0) == cut(s, other, quote, 1));
    assert(cut(s, other, quote, 1) == cut(s, other, quote, 2));
    assert(cut(s, other, quote, 2) == cut(s, other, quote, 3));
    assert(cut(s, other, quote, 3) == cut(s, other, quote, 4));
    if word.len() == 5 {
        assert(cut(s, other, quote, 4) == cut(s, other, quote, 5));
    }
    lemma_cut_shift(word, t, other, quote, 0);
}

/// Parentheses around a text that closes what it opens make it one part.
proof fn lemma_wrapped(inner: Seq<char>, quote: char)
    requires
        quote == '"' || quote == '\'',
        forall|n: int|
            0 <= n <= inner.len() ==> (#[trigger] place(inner, quote, outside(), n)).depth >= 0,
        place(inner, quote, outside(), inner.len() as int) == outside(),
    ensures
        solid(seq!['('] + inner + seq![')'], quote),
        (seq!['('] + inner + seq![')']).subrange(1, (inner.len() + 1) as int) == inner,
{
    let open = seq!['('];
    let close = seq![')'];
    let s = open + inner + close;
    let deep = Place { depth: 1, quoted: false };
    reveal_with_fuel(place, 2);
    assert(place(open, quote, outside(), 1) == deep);
    assert forall|j: int| 0 <= j < s.len() implies (#[trigger] place(
        s,
        quote,
        outside(),
        j,
    )).depth >= 0 && (place(s, quote, outside(), j).top() ==> s[j] != ' ') by {
        if j > 0 {
            lemma_place_concat(open + inner, close, quote, outside(), j);
            lemma_place_concat(open, inner, quote, outside(), j);
            lemma_place_deeper(inner, quote, j - 1);
            assert(place(inner, quote, outside(), j - 1).depth >= 0);
        }
    }
    lemma_calm_from(s, quote, s.len() as int);
    let n = s.len() as int;
    lemma_place_concat(open + inner, close, quote, outside(), n);
    lemma_place_concat(open, inner, quote, outside(), n - 1);
    lemma_place_deeper(inner, quote, n - 2);
    assert(place(close, quote, deep, 1) == outside());
    assert(s.subrange(1, (inner.len() + 1) as int) =~= inner);
}

/// Two texts that close what they open do so together.
proof fn lemma_level_concat(a: Seq<char>, b: Seq<char>, quote: char)
    requires
        forall|n: int| 0 <= n <= a.len() ==> (#[trigger] place(a, quote, outside(), n)).depth >= 0,
        place(a, quote, outside(), a.len() as int) == outside(),
        forall|n: int| 0 <= n <= b.len() ==> (#[trigger] place(b, quote, outside(), n)).depth >= 0,
        place(b, quote, outside(), b.len() as int) == outside(),
    ensures
        forall|n: int|
            0 <= n <= (a + b).len() ==> (#[trigger] place(a + b, quote, outside(), n)).depth >= 0,
        place(a + b, quote, outside(), (a + b).len() as int) == outside(),
{
    assert forall|n: int| 0 <= n <= (a + b).len() implies (#[trigger] place(
        a + b,
        quote,
        outside(),
        n,
    )).depth >= 0 by {
        lemma_place_concat(a, b, quote, outside(), n);
        if n <= a.len() {
            assert(place(a, quote, outside(), n).depth >= 0);
        } else {
            assert(place(b, quote, outside(), n - a.len()).depth >= 0);
        }
    }
    lemma_place_concat(a, b, quote, outside(), (a + b).len() as int);
}

/// A part, and a connective, close what they open.
proof fn lemma_level(s: Seq<char>, quote: char)
    requires
        solid(s, quote) || connective(s),
        quote == '"' || quote == '\'',
    ensures
        forall|n: int| 0 <= n <= s.len() ==> (#[trigger] place(s, quote, outside(), n)).depth >= 0,
        place(s, quote, outside(), s.len() as int) == outside(),
{
    reveal_strlit(" AND ");
    reveal_strlit(" OR ");
    if connective(s) {
        assert forall|n: int| 0 <= n <= s.len() implies (#[trigger] place(
            s,
            quote,
            outside(),
            n,
        )) == outside() by {
            reveal_with_fuel(place, 6);
        }
    } else {
        assert forall|n: int| 0 <= n <= s.len() implies (#[trigger] place(
            s,
            quote,
            outside(),
            n,
        )).depth >= 0 by {
            if n < s.len() {
                lemma_calm_at(s, quote, s.len() as int, n);
            }
        }
    }
}

/// Several parts in a row, the first one apart.
proof fn lemma_joined_first(parts: Seq<Seq<char>>, separator: Seq<char>)
    requires
        parts.len() >= 2,
    ensures
        joined(parts, separator) == parts[0] + separator + joined(parts.drop_first(), separator),
    decreases parts.len(),
{
    let rest = parts.drop_first();
    if parts.len() == 2 {
        assert(parts.drop_last() =~= seq![parts[0]]);
        assert(joined(parts.drop_last(), separator) == parts[0]);
        assert(joined(rest, separator) == parts[1]);
    } else {
        lemma_joined_first(parts.drop_last(), separator);
        assert(parts.drop_last().drop_first() =~= rest.drop_last());
        assert(rest.last() == parts.last());
        assert(joined(parts, separator) =~= parts[0] + separator + joined(rest, separator));
    }
}

// -- the index ---------------------------------------------------------------

/// Inside a string nothing but a quotation mark is ever outside of it.
proof fn lemma_in_string(value: Seq<char>, n: int)
    requires
        0 <= n <= fts_escaped(value).len(),
    ensures
        ({
            let inside = Place { depth: 0, quoted: true };
            let here = place(fts_escaped(value), '"', inside, n);
            &&& here.depth == 0
            &&& !here.quoted ==> n < fts_escaped(value).len() && fts_escaped(value)[n] == '"'
            &&& n == fts_escaped(value).len() ==> here == inside
        }),
    decreases value.len(),
{
    let inside = Place { depth: 0, quoted: true };
    if value.len() > 0 {
        let head = fts_escaped(value.drop_last());
        let tail = fts_char(value.last());
        lemma_in_string(value.drop_last(), head.len() as int);
        lemma_place_concat(head, tail, '"', inside, n);
        if n <= head.len() {
            lemma_in_string(value.drop_last(), n);
        }
        reveal_with_fuel(place, 3);
    }
}

/// Whether a text has neither blanks nor parentheses nor quotation marks.
spec fn bare(s: Seq<char>) -> bool {
    forall|i: int|
        0 <= i < s.len() ==> #[trigger] s[i] != ' ' && s[i] != '(' && s[i] != ')' && s[i] != '"'
}

proof fn lemma_bare_place(s: Seq<char>, n: int)
    requires
        bare(s),
        0 <= n <= s.len(),
    ensures
        place(s, '"', outside(), n) == outside(),
    decreases n,
{
    if n > 0 {
        lemma_bare_place(s, n - 1);
    }
}

/// `column:"value"` is one part, and says that the column holds the value.
proof fn lemma_phrase(
    column: Seq<char>,
    value: Seq<char>,
    says: spec_fn(Seq<char>, Seq<char>) -> bool,
)
    requires
        bare(column),
        column.len() > 0,
        column[0] != 'A' && column[0] != 'O',
        forall|i: int| 0 <= i < column.len() ==> #[trigger] column[i] != ':',
    ensures
        solid(column + ":"@ + fts_literal(value), '"'),
        match_value(column + ":"@ + fts_literal(value), says) == says(column, value),
{
    reveal_strlit(":");
    reveal_strlit("\"");
    let mark = "\""@;
    let inner = fts_escaped(value);
    let head = column + ":"@;
    let literal = fts_literal(value);
    let s = head + literal;
    let inside = Place { depth: 0, quoted: true };
    assert(bare(head));
    lemma_bare_place(head, head.len() as int);
    assert forall|j: int| 0 <= j <= s.len() implies (#[trigger] place(s, '"', outside(), j)).depth
        == 0 && (j < s.len() && place(s, '"', outside(), j).top() ==> s[j] != ' ') && (j == s.len()
        ==> place(s, '"', outside(), j) == outside()) by {
        lemma_place_concat(head, literal, '"', outside(), j);
        if j < head.len() {
            lemma_bare_place(head, j);
            assert(s[j] == head[j]);
        } else {
            let k = j - head.len();
            reveal_with_fuel(place, 2);
            lemma_place_concat(mark + inner, mark, '"', outside(), k);
            assert(place(mark, '"', outside(), 1) == inside);
            if k == 0 {
                assert(s[j] == '"');
            } else if k <= inner.len() + 1 {
                lemma_place_concat(mark, inner, '"', outside(), k);
                lemma_in_string(value, k - 1);
                if k <= inner.len() {
                    assert(s[j] == inner[k - 1]);
                }
            } else {
                lemma_place_concat(mark, inner, '"', outside(), k - 1);
                lemma_in_string(value, k - 2);
            }
        }
    }
    lemma_calm_from(s, '"', s.len() as int);
    assert(s[0] == column[0]);
    assert(solid(s, '"'));
    lemma_cut_none(s, " OR "@, '"');
    lemma_cut_none(s, " AND "@, '"');
    assert(match_value(s, says) == phrase_value(s, says));
    lemma_first_colon(column, literal);
    let rest = literal;
    assert(rest.drop_first() =~= inner + seq!['"'] + Seq::<char>::empty());
    law_fts_string_is_one_phrase(value, Seq::empty());
}

/// The first colon is the one behind the column.
proof fn lemma_first_colon(column: Seq<char>, rest: Seq<char>)
    requires
        forall|i: int| 0 <= i < column.len() ==> #[trigger] column[i] != ':',
    ensures
        split_at_first(column + ":"@ + rest, ':') == Some((column, rest)),
{
    reveal_strlit(":");
    let s = column + ":"@ + rest;
    lemma_first_index_is(s, ':', column.len() as int);
    assert(s.subrange(0, column.len() as int) =~= column);
    assert(s.subrange((column.len() + 1) as int, s.len() as int) =~= rest);
}

/// Whether a document has a value where a text clause looks for it: a bare term may be in any
/// of the five columns of the index, an operator names its own.
pub open spec fn indexed(
    target: TextTarget,
    value: Seq<char>,
    says: spec_fn(Seq<char>, Seq<char>) -> bool,
) -> bool {
    match target {
        TextTarget::Any => says("subject"@, value) || says("sender"@, value) || says(
            "recipients"@,
            value,
        ) || says("body"@, value) || says("attachments"@, value),
        TextTarget::Subject => says("subject"@, value),
        TextTarget::Sender => says("sender"@, value),
        TextTarget::Recipients => says("recipients"@, value),
        TextTarget::Body => says("body"@, value),
        TextTarget::Attachments => says("attachments"@, value),
    }
}

/// Two parts with `OR` between them.
proof fn lemma_match_or(a: Seq<char>, t: Seq<char>, says: spec_fn(Seq<char>, Seq<char>) -> bool)
    requires
        solid(a, '"'),
        t.len() > 0,
        t[0] != 'A' && t[0] != 'O',
    ensures
        match_value(a + " OR "@ + t, says) == (match_value(a, says) || match_value(t, says)),
{
    reveal_strlit(" AND ");
    reveal_strlit(" OR ");
    assert(" AND "@.len() == 5 && " OR "@.len() == 4);
    lemma_connected(a, " OR "@, " AND "@, t, '"');
}

/// Two parts with `AND` between them.
proof fn lemma_match_and(a: Seq<char>, t: Seq<char>, says: spec_fn(Seq<char>, Seq<char>) -> bool)
    requires
        solid(a, '"'),
        t.len() > 0,
        t[0] != 'A' && t[0] != 'O',
        cut(t, " OR "@, '"', 0) < 0,
    ensures
        match_value(a + " AND "@ + t, says) == (match_value(a, says) && match_value(t, says)),
        cut(a + " AND "@ + t, " OR "@, '"', 0) < 0,
{
    reveal_strlit(" AND ");
    reveal_strlit(" OR ");
    assert(" AND "@.len() == 5 && " OR "@.len() == 4);
    lemma_connected(a, " AND "@, " OR "@, t, '"');
}

/// The phrases of the five columns.
proof fn lemma_phrases(value: Seq<char>, says: spec_fn(Seq<char>, Seq<char>) -> bool)
    ensures
        ({
            let literal = fts_literal(value);
            &&& solid("subject:"@ + literal, '"')
            &&& solid("sender:"@ + literal, '"')
            &&& solid("recipients:"@ + literal, '"')
            &&& solid("body:"@ + literal, '"')
            &&& solid("attachments:"@ + literal, '"')
            &&& match_value("subject:"@ + literal, says) == says("subject"@, value)
            &&& match_value("sender:"@ + literal, says) == says("sender"@, value)
            &&& match_value("recipients:"@ + literal, says) == says("recipients"@, value)
            &&& match_value("body:"@ + literal, says) == says("body"@, value)
            &&& match_value("attachments:"@ + literal, says) == says("attachments"@, value)
        }),
{
    reveal_strlit(":");
    reveal_strlit("subject");
    reveal_strlit("sender");
    reveal_strlit("recipients");
    reveal_strlit("body");
    reveal_strlit("attachments");
    reveal_strlit("subject:");
    reveal_strlit("sender:");
    reveal_strlit("recipients:");
    reveal_strlit("body:");
    reveal_strlit("attachments:");
    lemma_phrase("subject"@, value, says);
    lemma_phrase("sender"@, value, says);
    lemma_phrase("recipients"@, value, says);
    lemma_phrase("body"@, value, says);
    lemma_phrase("attachments"@, value, says);
    assert("subject"@ + ":"@ =~= "subject:"@);
    assert("sender"@ + ":"@ =~= "sender:"@);
    assert("recipients"@ + ":"@ =~= "recipients:"@);
    assert("body"@ + ":"@ =~= "body:"@);
    assert("attachments"@ + ":"@ =~= "attachments:"@);
}

/// Five parts with `OR` between them.
spec fn any_of(a: Seq<char>, b: Seq<char>, c: Seq<char>, d: Seq<char>, e: Seq<char>) -> Seq<char> {
    a + " OR "@ + (b + " OR "@ + (c + " OR "@ + (d + " OR "@ + e)))
}

/// Five parts with `OR` between them close what they open.
proof fn lemma_any_level(
    a: Seq<char>,
    b: Seq<char>,
    c: Seq<char>,
    d: Seq<char>,
    e: Seq<char>,
    quote: char,
)
    requires
        quote == '"' || quote == '\'',
        solid(a, quote),
        solid(b, quote),
        solid(c, quote),
        solid(d, quote),
        solid(e, quote),
    ensures
        forall|n: int|
            0 <= n <= any_of(a, b, c, d, e).len() ==> (#[trigger] place(
                any_of(a, b, c, d, e),
                quote,
                outside(),
                n,
            )).depth >= 0,
        place(any_of(a, b, c, d, e), quote, outside(), any_of(a, b, c, d, e).len() as int)
            == outside(),
{
    let or = " OR "@;
    let de = d + or + e;
    let ce = c + or + de;
    let be = b + or + ce;
    lemma_level(a, quote);
    lemma_level(b, quote);
    lemma_level(c, quote);
    lemma_level(d, quote);
    lemma_level(e, quote);
    lemma_level(or, quote);
    lemma_level_concat(d, or, quote);
    lemma_level_concat(d + or, e, quote);
    lemma_level_concat(c, or, quote);
    lemma_level_concat(c + or, de, quote);
    lemma_level_concat(b, or, quote);
    lemma_level_concat(b + or, ce, quote);
    lemma_level_concat(a, or, quote);
    lemma_level_concat(a + or, be, quote);
}

/// What five parts with `OR` between them and parentheses around them say.
proof fn lemma_match_any(
    a: Seq<char>,
    b: Seq<char>,
    c: Seq<char>,
    d: Seq<char>,
    e: Seq<char>,
    says: spec_fn(Seq<char>, Seq<char>) -> bool,
)
    requires
        solid(a, '"'),
        solid(b, '"'),
        solid(c, '"'),
        solid(d, '"'),
        solid(e, '"'),
    ensures
        ({
            let whole = seq!['('] + any_of(a, b, c, d, e) + seq![')'];
            &&& solid(whole, '"')
            &&& match_value(whole, says) == (match_value(a, says) || match_value(b, says)
                || match_value(c, says) || match_value(d, says) || match_value(e, says))
        }),
{
    let or = " OR "@;
    let de = d + or + e;
    let ce = c + or + de;
    let be = b + or + ce;
    let ae = a + or + be;
    lemma_match_or(d, e, says);
    assert(de[0] == d[0]);
    lemma_match_or(c, de, says);
    assert(ce[0] == c[0]);
    lemma_match_or(b, ce, says);
    assert(be[0] == b[0]);
    lemma_match_or(a, be, says);
    lemma_any_level(a, b, c, d, e, '"');
    lemma_wrapped(ae, '"');
    let whole = seq!['('] + ae + seq![')'];
    lemma_cut_none(whole, " OR "@, '"');
    lemma_cut_none(whole, " AND "@, '"');
    assert(whole[0] == '(' && whole.last() == ')');
    assert(whole.len() == ae.len() + 2);
    assert(whole.subrange(1, whole.len() - 1) == ae);
}

/// The text of a bare term's condition.
proof fn lemma_any_text(literal: Seq<char>)
    ensures
        "(subject:"@ + literal + " OR sender:"@ + literal + " OR recipients:"@ + literal
            + " OR body:"@ + literal + " OR attachments:"@ + literal + ")"@ == seq!['('] + any_of(
            "subject:"@ + literal,
            "sender:"@ + literal,
            "recipients:"@ + literal,
            "body:"@ + literal,
            "attachments:"@ + literal,
        ) + seq![')'],
{
    reveal_strlit(" OR ");
    reveal_strlit("subject:");
    reveal_strlit("sender:");
    reveal_strlit("recipients:");
    reveal_strlit("body:");
    reveal_strlit("attachments:");
    reveal_strlit("(subject:");
    reveal_strlit(" OR sender:");
    reveal_strlit(" OR recipients:");
    reveal_strlit(" OR body:");
    reveal_strlit(" OR attachments:");
    reveal_strlit(")");
    let or = " OR "@;
    assert("(subject:"@ =~= seq!['('] + "subject:"@);
    assert(" OR sender:"@ =~= or + "sender:"@);
    assert(" OR recipients:"@ =~= or + "recipients:"@);
    assert(" OR body:"@ =~= or + "body:"@);
    assert(" OR attachments:"@ =~= or + "attachments:"@);
    assert(")"@ =~= seq![')']);
    lemma_any_flat(
        "subject:"@,
        "sender:"@,
        "recipients:"@,
        "body:"@,
        "attachments:"@,
        literal,
        or,
    );
}

/// How five columns with one literal are written, and how they are read.
proof fn lemma_any_flat(
    a: Seq<char>,
    b: Seq<char>,
    c: Seq<char>,
    d: Seq<char>,
    e: Seq<char>,
    literal: Seq<char>,
    or: Seq<char>,
)
    ensures
        (seq!['('] + a) + literal + (or + b) + literal + (or + c) + literal + (or + d) + literal + (or
            + e) + literal + seq![')'] == seq!['('] + ((a + literal) + or + ((b + literal) + or + ((c
            + literal) + or + ((d + literal) + or + (e + literal))))) + seq![')'],
{
    let left = (seq!['('] + a) + literal + (or + b) + literal + (or + c) + literal + (or + d)
        + literal + (or + e) + literal + seq![')'];
    let right = seq!['('] + ((a + literal) + or + ((b + literal) + or + ((c + literal) + or + ((d
        + literal) + or + (e + literal))))) + seq![')'];
    assert(left =~= right);
}

/// What one condition of the index says.
proof fn lemma_condition(
    target: TextTarget,
    value: Seq<char>,
    says: spec_fn(Seq<char>, Seq<char>) -> bool,
)
    ensures
        solid(fts_condition(target, value), '"'),
        match_value(fts_condition(target, value), says) == indexed(target, value, says),
{
    lemma_phrases(value, says);
    if target == TextTarget::Any {
        let literal = fts_literal(value);
        lemma_any_text(literal);
        lemma_match_any(
            "subject:"@ + literal,
            "sender:"@ + literal,
            "recipients:"@ + literal,
            "body:"@ + literal,
            "attachments:"@ + literal,
            says,
        );
    }
}

/// Several conditions of the index: all of them have to hold.
proof fn lemma_match_joined(
    parts: Seq<Seq<char>>,
    says: spec_fn(Seq<char>, Seq<char>) -> bool,
)
    requires
        parts.len() > 0,
        forall|i: int| 0 <= i < parts.len() ==> solid(#[trigger] parts[i], '"'),
    ensures
        match_value(joined(parts, " AND "@), says) <==> forall|i: int|
            0 <= i < parts.len() ==> match_value(#[trigger] parts[i], says),
        cut(joined(parts, " AND "@), " OR "@, '"', 0) < 0,
        joined(parts, " AND "@).len() > 0,
        joined(parts, " AND "@)[0] == parts[0][0],
    decreases parts.len(),
{
    assert(solid(parts[0], '"'));
    if parts.len() == 1 {
        lemma_cut_none(parts[0], " OR "@, '"');
    } else {
        let rest = parts.drop_first();
        assert forall|i: int| 0 <= i < rest.len() implies solid(#[trigger] rest[i], '"') by {
            assert(rest[i] == parts[i + 1]);
        }
        lemma_match_joined(rest, says);
        lemma_joined_first(parts, " AND "@);
        assert(solid(parts[1], '"'));
        assert(rest[0] == parts[1]);
        lemma_match_and(parts[0], joined(rest, " AND "@), says);
        assert((forall|i: int| 0 <= i < parts.len() ==> match_value(#[trigger] parts[i], says))
            <==> (match_value(parts[0], says) && forall|i: int|
            0 <= i < rest.len() ==> match_value(#[trigger] rest[i], says))) by {
            if forall|i: int| 0 <= i < parts.len() ==> match_value(#[trigger] parts[i], says) {
                assert forall|i: int| 0 <= i < rest.len() implies match_value(
                    #[trigger] rest[i],
                    says,
                ) by {
                    assert(rest[i] == parts[i + 1]);
                }
            }
            if match_value(parts[0], says) && forall|i: int|
                0 <= i < rest.len() ==> match_value(#[trigger] rest[i], says) {
                assert forall|i: int| 0 <= i < parts.len() implies match_value(
                    #[trigger] parts[i],
                    says,
                ) by {
                    if i > 0 {
                        assert(rest[i - 1] == parts[i]);
                    }
                }
            }
        }
    }
}

/// The conditions of the index, and what they say.
proof fn lemma_conditions(
    text: Seq<(TextTarget, Seq<char>)>,
    says: spec_fn(Seq<char>, Seq<char>) -> bool,
)
    ensures
        forall|i: int|
            0 <= i < fts_conditions(text).len() ==> solid(#[trigger] fts_conditions(text)[i], '"'),
        (forall|i: int|
            0 <= i < fts_conditions(text).len() ==> match_value(
                #[trigger] fts_conditions(text)[i],
                says,
            )) <==> (forall|i: int|
            0 <= i < text.len() ==> (#[trigger] text[i]).1.len() == 0 || indexed(
                text[i].0,
                text[i].1,
                says,
            )),
    decreases text.len(),
{
    if text.len() > 0 {
        let head = text.drop_last();
        let last = text.last();
        lemma_conditions(head, says);
        lemma_condition(last.0, last.1, says);
        let before = fts_conditions(head);
        let all = fts_conditions(text);
        assert forall|i: int| 0 <= i < all.len() implies solid(#[trigger] all[i], '"') by {
            if i < before.len() {
                assert(all[i] == before[i]);
            }
        }
        if forall|i: int| 0 <= i < all.len() ==> match_value(#[trigger] all[i], says) {
            assert forall|i: int| 0 <= i < before.len() implies match_value(
                #[trigger] before[i],
                says,
            ) by {
                assert(all[i] == before[i]);
            }
            assert forall|i: int| 0 <= i < text.len() implies (#[trigger] text[i]).1.len() == 0
                || indexed(text[i].0, text[i].1, says) by {
                if i < head.len() {
                    assert(head[i] == text[i]);
                } else if last.1.len() > 0 {
                    assert(all[before.len() as int] == fts_condition(last.0, last.1));
                }
            }
        }
        if forall|i: int|
            0 <= i < text.len() ==> (#[trigger] text[i]).1.len() == 0 || indexed(
                text[i].0,
                text[i].1,
                says,
            ) {
            assert forall|i: int| 0 <= i < head.len() implies (#[trigger] head[i]).1.len() == 0
                || indexed(head[i].0, head[i].1, says) by {
                assert(head[i] == text[i]);
            }
            assert forall|i: int| 0 <= i < all.len() implies match_value(#[trigger] all[i], says) by {
                if i < before.len() {
                    assert(all[i] == before[i]);
                } else {
                    assert(text[text.len() - 1] == last);
                }
            }
        }
    }
}

/// The index finds a document only if every text clause of the query finds it: what several
/// clauses match is what each of them matches alone, all at once. `says` tells which phrases
/// the columns of the document hold, and the text of the `MATCH` expression is read as the index
/// reads it.
pub proof fn law_the_index_needs_every_clause(
    account_id: int,
    text: Seq<(TextTarget, Seq<char>)>,
    says: spec_fn(Seq<char>, Seq<char>) -> bool,
)
    requires
        exists|i: int| 0 <= i < text.len() && (#[trigger] text[i]).1.len() > 0,
    ensures
        ({
            let pieces = match_pieces(account_id, text);
            &&& pieces.len() == 1
            &&& pieces[0].binds.len() == 2
            &&& pieces[0].binds[0] is Text
            &&& match_value(pieces[0].binds[0]->Text_0, says) <==> forall|i: int|
                0 <= i < text.len() ==> (#[trigger] text[i]).1.len() == 0 || indexed(
                    text[i].0,
                    text[i].1,
                    says,
                )
        }),
{
    lemma_conditions(text, says);
    let i = choose|i: int| 0 <= i < text.len() && (#[trigger] text[i]).1.len() > 0;
    lemma_some_condition(text, i);
    lemma_match_joined(fts_conditions(text), says);
}

proof fn lemma_some_condition(text: Seq<(TextTarget, Seq<char>)>, i: int)
    requires
        0 <= i < text.len(),
        text[i].1.len() > 0,
    ensures
        fts_conditions(text).len() > 0,
    decreases text.len(),
{
    if i < text.len() - 1 {
        assert(text.drop_last()[i] == text[i]);
        lemma_some_condition(text.drop_last(), i);
    }
}

// -- the clause --------------------------------------------------------------

/// What a `WHERE` clause says with its parameters, where `atom` tells what a single condition
/// says: `OR` binds weaker than `AND`, and each part takes as many parameters as it has marks.
pub open spec fn where_value(
    s: Seq<char>,
    binds: Seq<BindView>,
    atom: spec_fn(Seq<char>, Seq<BindView>) -> bool,
) -> bool
    decreases s.len(),
{
    let or = cut(s, " OR "@, '\'', 0);
    let and = cut(s, " AND "@, '\'', 0);
    if 0 <= or && or + 4 <= s.len() {
        let taken = marks(s.take(or)) as int;
        where_value(s.take(or), binds.take(taken), atom) || where_value(
            s.skip(or + 4),
            binds.skip(taken),
            atom,
        )
    } else if 0 <= and && and + 5 <= s.len() {
        let taken = marks(s.take(and)) as int;
        where_value(s.take(and), binds.take(taken), atom) && where_value(
            s.skip(and + 5),
            binds.skip(taken),
            atom,
        )
    } else if s.len() >= 2 && s[0] == '(' && s.last() == ')' {
        where_value(s.subrange(1, s.len() - 1), binds, atom)
    } else {
        atom(s, binds)
    }
}

/// A single condition.
proof fn lemma_where_one(
    s: Seq<char>,
    binds: Seq<BindView>,
    atom: spec_fn(Seq<char>, Seq<BindView>) -> bool,
)
    requires
        solid(s, '\''),
        s[0] != '(',
    ensures
        where_value(s, binds, atom) == atom(s, binds),
{
    lemma_cut_none(s, " OR "@, '\'');
    lemma_cut_none(s, " AND "@, '\'');
}

/// Two parts with `OR` between them.
proof fn lemma_where_or(
    a: Seq<char>,
    t: Seq<char>,
    x: Seq<BindView>,
    y: Seq<BindView>,
    atom: spec_fn(Seq<char>, Seq<BindView>) -> bool,
)
    requires
        solid(a, '\''),
        t.len() > 0,
        t[0] != 'A' && t[0] != 'O',
        marks(a) == x.len(),
    ensures
        where_value(a + " OR "@ + t, x + y, atom) == (where_value(a, x, atom) || where_value(
            t,
            y,
            atom,
        )),
{
    reveal_strlit(" AND ");
    reveal_strlit(" OR ");
    assert(" AND "@.len() == 5 && " OR "@.len() == 4);
    lemma_connected(a, " OR "@, " AND "@, t, '\'');
    assert((x + y).take(x.len() as int) =~= x);
    assert((x + y).skip(x.len() as int) =~= y);
}

/// Two parts with `AND` between them.
proof fn lemma_where_and(
    a: Seq<char>,
    t: Seq<char>,
    x: Seq<BindView>,
    y: Seq<BindView>,
    atom: spec_fn(Seq<char>, Seq<BindView>) -> bool,
)
    requires
        solid(a, '\''),
        t.len() > 0,
        t[0] != 'A' && t[0] != 'O',
        cut(t, " OR "@, '\'', 0) < 0,
        marks(a) == x.len(),
    ensures
        where_value(a + " AND "@ + t, x + y, atom) == (where_value(a, x, atom) && where_value(
            t,
            y,
            atom,
        )),
        cut(a + " AND "@ + t, " OR "@, '\'', 0) < 0,
{
    reveal_strlit(" AND ");
    reveal_strlit(" OR ");
    assert(" AND "@.len() == 5 && " OR "@.len() == 4);
    lemma_connected(a, " AND "@, " OR "@, t, '\'');
    assert((x + y).take(x.len() as int) =~= x);
    assert((x + y).skip(x.len() as int) =~= y);
}

/// Parentheses around parts do not change what they say.
proof fn lemma_where_wrapped(
    inner: Seq<char>,
    binds: Seq<BindView>,
    atom: spec_fn(Seq<char>, Seq<BindView>) -> bool,
)
    requires
        forall|n: int|
            0 <= n <= inner.len() ==> (#[trigger] place(inner, '\'', outside(), n)).depth >= 0,
        place(inner, '\'', outside(), inner.len() as int) == outside(),
    ensures
        solid(seq!['('] + inner + seq![')'], '\''),
        where_value(seq!['('] + inner + seq![')'], binds, atom) == where_value(inner, binds, atom),
{
    lemma_wrapped(inner, '\'');
    let whole = seq!['('] + inner + seq![')'];
    lemma_cut_none(whole, " OR "@, '\'');
    lemma_cut_none(whole, " AND "@, '\'');
    assert(whole[0] == '(' && whole.last() == ')');
    assert(whole.len() == inner.len() + 2);
    assert(whole.subrange(1, whole.len() - 1) == inner);
}

/// The parameters of several conditions, those of the first one apart.
proof fn lemma_binds_first(pieces: Seq<PieceView>)
    requires
        pieces.len() > 0,
    ensures
        piece_binds(pieces) == pieces[0].binds + piece_binds(pieces.drop_first()),
    decreases pieces.len(),
{
    let rest = pieces.drop_first();
    if pieces.len() == 1 {
        assert(piece_binds(pieces.drop_last()) =~= Seq::<BindView>::empty());
        assert(piece_binds(rest) =~= Seq::<BindView>::empty());
        assert(piece_binds(pieces) =~= pieces[0].binds + piece_binds(rest));
    } else {
        lemma_binds_first(pieces.drop_last());
        assert(pieces.drop_last().drop_first() =~= rest.drop_last());
        assert(rest.last() == pieces.last());
        assert(piece_binds(pieces) =~= pieces[0].binds + piece_binds(rest));
    }
}

/// Whether a condition is one part, with as many parameters as it has marks.
spec fn sound(piece: PieceView) -> bool {
    solid(piece.clause, '\'') && marks(piece.clause) == piece.binds.len()
}

/// Whether a condition holds.
spec fn met(piece: PieceView, atom: spec_fn(Seq<char>, Seq<BindView>) -> bool) -> bool {
    where_value(piece.clause, piece.binds, atom)
}

/// Several conditions: all of them have to hold.
proof fn lemma_where_joined(
    pieces: Seq<PieceView>,
    atom: spec_fn(Seq<char>, Seq<BindView>) -> bool,
)
    requires
        pieces.len() > 0,
        forall|i: int| 0 <= i < pieces.len() ==> sound(#[trigger] pieces[i]),
    ensures
        where_value(joined(piece_clauses(pieces), " AND "@), piece_binds(pieces), atom)
            <==> forall|i: int| 0 <= i < pieces.len() ==> met(#[trigger] pieces[i], atom),
        cut(joined(piece_clauses(pieces), " AND "@), " OR "@, '\'', 0) < 0,
        joined(piece_clauses(pieces), " AND "@).len() > 0,
        joined(piece_clauses(pieces), " AND "@)[0] == pieces[0].clause[0],
    decreases pieces.len(),
{
    let clauses = piece_clauses(pieces);
    assert(sound(pieces[0]));
    assert(clauses[0] == pieces[0].clause);
    let rest = pieces.drop_first();
    lemma_binds_first(pieces);
    if pieces.len() == 1 {
        lemma_cut_none(clauses[0], " OR "@, '\'');
        assert(piece_binds(rest) =~= Seq::<BindView>::empty());
        assert(piece_binds(pieces) =~= pieces[0].binds);
    } else {
        assert forall|i: int| 0 <= i < rest.len() implies sound(#[trigger] rest[i]) by {
            assert(rest[i] == pieces[i + 1]);
        }
        lemma_where_joined(rest, atom);
        lemma_joined_first(clauses, " AND "@);
        assert(clauses.drop_first() =~= piece_clauses(rest));
        assert(sound(pieces[1]));
        assert(rest[0] == pieces[1]);
        lemma_where_and(
            clauses[0],
            joined(piece_clauses(rest), " AND "@),
            pieces[0].binds,
            piece_binds(rest),
            atom,
        );
        if forall|i: int| 0 <= i < pieces.len() ==> met(#[trigger] pieces[i], atom) {
            assert forall|i: int| 0 <= i < rest.len() implies met(#[trigger] rest[i], atom) by {
                assert(rest[i] == pieces[i + 1]);
            }
            assert(met(pieces[0], atom));
        }
        if met(pieces[0], atom) && forall|i: int|
            0 <= i < rest.len() ==> met(#[trigger] rest[i], atom) {
            assert forall|i: int| 0 <= i < pieces.len() implies met(#[trigger] pieces[i], atom) by {
                if i > 0 {
                    assert(rest[i - 1] == pieces[i]);
                }
            }
        }
    }
}

// -- a message in the cache --------------------------------------------------

/// A message in the cache, as the conditions of a search see it.
pub struct Mail {
    /// The account it belongs to.
    pub account: int,
    /// Whether it has been deleted.
    pub deleted: bool,
    /// The subject.
    pub subject: Seq<char>,
    /// The sender.
    pub sender: Seq<char>,
    /// The recipients.
    pub recipients: Seq<char>,
    /// The text body, if it has been fetched.
    pub body: Option<Seq<char>>,
    /// The names of the attached files that are known.
    pub attachments: Seq<Seq<char>>,
    /// Whether the server said that there are attachments.
    pub has_attachments: bool,
    /// The flags.
    pub flags: Seq<char>,
    /// Whether it has a date.
    pub dated: bool,
    /// Whether its date is before a given one.
    pub older: spec_fn(Seq<char>) -> bool,
    /// The name of the folder it is in.
    pub folder: Option<Seq<char>>,
    /// Which phrases the index finds in which of its columns.
    pub says: spec_fn(Seq<char>, Seq<char>) -> bool,
}

/// Whether a text matches a parameter that is a `LIKE` pattern.
pub open spec fn like_bind(text: Seq<char>, bind: BindView) -> bool {
    bind matches BindView::Text(pattern) && like(text, pattern)
}

/// What a single condition says of a message.
pub open spec fn atom(m: Mail, s: Seq<char>, binds: Seq<BindView>) -> bool {
    if s == "m.account_id = ?"@ {
        binds[0] == BindView::Int(m.account)
    } else if s == "m.deleted = 0"@ {
        !m.deleted
    } else if s
        == "m.id IN (SELECT CAST(message_id AS INTEGER) FROM messages_fts WHERE messages_fts MATCH ? AND CAST(account_id AS TEXT) = ?)"@ {
        &&& binds[0] matches BindView::Text(expression)
        &&& match_value(expression, m.says)
        &&& binds[1] == BindView::Text(signed_digits(m.account))
    } else if s == "m.subject LIKE ? ESCAPE '\\'"@ {
        like_bind(m.subject, binds[0])
    } else if s == "m.from_address LIKE ? ESCAPE '\\'"@ {
        like_bind(m.sender, binds[0])
    } else if s == "IFNULL(m.to_summary, '') LIKE ? ESCAPE '\\'"@ {
        like_bind(m.recipients, binds[0])
    } else if s
        == "EXISTS (SELECT 1 FROM message_bodies b WHERE b.account_id = m.account_id AND b.message_id = m.id AND IFNULL(b.text_body, '') LIKE ? ESCAPE '\\')"@ {
        m.body matches Some(body) && like_bind(body, binds[0])
    } else if s
        == "EXISTS (SELECT 1 FROM attachments a WHERE a.account_id = m.account_id AND a.message_id = m.id AND a.filename LIKE ? ESCAPE '\\')"@ {
        exists|i: int|
            0 <= i < m.attachments.len() && like_bind(#[trigger] m.attachments[i], binds[0])
    } else if s == "m.has_attachments = 1"@ {
        m.has_attachments
    } else if s
        == "EXISTS (SELECT 1 FROM attachments a WHERE a.account_id = m.account_id AND a.message_id = m.id)"@ {
        m.attachments.len() > 0
    } else if s == "instr(lower(m.flags), 'seen') = 0"@ {
        !holds(lowered(m.flags), "seen"@)
    } else if s == "instr(lower(m.flags), 'flagged') > 0"@ {
        holds(lowered(m.flags), "flagged"@)
    } else if s == "date(m.internal_date) < ?"@ {
        m.dated && (binds[0] matches BindView::Text(date) && (m.older)(date))
    } else if s == "date(m.internal_date) >= ?"@ {
        m.dated && (binds[0] matches BindView::Text(date) && !(m.older)(date))
    } else if s
        == "m.folder_id IN (SELECT id FROM folders WHERE account_id = ? AND lower(name) = lower(?))"@ {
        &&& binds[0] == BindView::Int(m.account)
        &&& m.folder matches Some(folder)
        &&& binds[1] matches BindView::Text(name)
        &&& lowered(folder) == lowered(name)
    } else {
        // What is left is `0 = 1`.
        false
    }
}

/// The conditions, as a message answers them.
pub open spec fn atoms(m: Mail) -> spec_fn(Seq<char>, Seq<BindView>) -> bool {
    |s: Seq<char>, binds: Seq<BindView>| atom(m, s, binds)
}

/// Whether the clause of a query, with its parameters, finds a message.
pub open spec fn finds(mode: SearchMode, account_id: int, query: QueryView, m: Mail) -> bool {
    where_value(where_sql(mode, account_id, query), where_binds(mode, account_id, query), atoms(m))
}

// -- what a query asks for ---------------------------------------------------

/// Whether one of the texts that a text clause looks at holds the value, in any case.
pub open spec fn scanned(m: Mail, target: TextTarget, value: Seq<char>) -> bool {
    let wanted = lowered(value);
    let in_body = m.body matches Some(body) && holds(lowered(body), wanted);
    let attached = exists|i: int|
        0 <= i < m.attachments.len() && holds(lowered(#[trigger] m.attachments[i]), wanted);
    match target {
        TextTarget::Any => holds(lowered(m.subject), wanted) || holds(lowered(m.sender), wanted)
            || holds(lowered(m.recipients), wanted) || in_body || attached,
        TextTarget::Subject => holds(lowered(m.subject), wanted),
        TextTarget::Sender => holds(lowered(m.sender), wanted),
        TextTarget::Recipients => holds(lowered(m.recipients), wanted),
        TextTarget::Body => in_body,
        TextTarget::Attachments => attached,
    }
}

/// Whether a message has a value where a text clause looks for it; an empty value is nowhere.
pub open spec fn has_text(mode: SearchMode, m: Mail, target: TextTarget, value: Seq<char>) -> bool {
    value.len() > 0 && (if mode == SearchMode::Fts5 {
        indexed(target, value, m.says)
    } else {
        scanned(m, target, value)
    })
}

/// Whether a message is what an operator asks for.
pub open spec fn has_op(mode: SearchMode, m: Mail, op: OpView) -> bool {
    match op {
        OpView::From(value) => has_text(mode, m, TextTarget::Sender, value),
        OpView::To(value) => has_text(mode, m, TextTarget::Recipients, value),
        OpView::Subject(value) => has_text(mode, m, TextTarget::Subject, value),
        OpView::Body(value) => has_text(mode, m, TextTarget::Body, value),
        OpView::Attachment(value) => has_text(mode, m, TextTarget::Attachments, value),
        OpView::HasAttachment => m.has_attachments || m.attachments.len() > 0,
        OpView::IsUnread => !holds(lowered(m.flags), "seen"@),
        OpView::IsFlagged => holds(lowered(m.flags), "flagged"@),
        OpView::Before(date) => m.dated && (m.older)(date_text(date)),
        OpView::After(date) => m.dated && !(m.older)(date_text(date)),
        OpView::Folder(name) => m.folder matches Some(folder) && lowered(folder) == lowered(name),
    }
}

/// Whether a message is what a query asks for: it is a live message of the account, and has
/// every term and every operator.
pub open spec fn asked_for(mode: SearchMode, account_id: int, query: QueryView, m: Mail) -> bool {
    &&& m.account == account_id
    &&& !m.deleted
    &&& forall|i: int|
        0 <= i < query.terms.len() ==> has_text(
            mode,
            m,
            TextTarget::Any,
            #[trigger] query.terms[i],
        )
    &&& forall|i: int|
        0 <= i < query.operators.len() ==> has_op(mode, m, #[trigger] query.operators[i])
}

// -- the conditions that a search is made of ---------------------------------

proof fn lemma_account_condition()
    ensures
        solid("m.account_id = ?"@, '\''),
        "m.account_id = ?"@.len() == 16,
        "m.account_id = ?"@[0] != '(',
{
    let s = "m.account_id = ?"@;
    reveal_strlit("m.account_id = ?");
    reveal_with_fuel(place, 30);
    reveal_with_fuel(calm, 30);
    assert(s.len() == 16);
    assert(place(s, '\'', outside(), 16) == Place { depth: 0, quoted: false });
    assert(calm(s, '\'', 16));
}

proof fn lemma_deleted_condition()
    ensures
        solid("m.deleted = 0"@, '\''),
        "m.deleted = 0"@.len() == 13,
        "m.deleted = 0"@[0] != '(',
{
    let s = "m.deleted = 0"@;
    reveal_strlit("m.deleted = 0");
    reveal_with_fuel(place, 30);
    reveal_with_fuel(calm, 30);
    assert(s.len() == 13);
    assert(place(s, '\'', outside(), 13) == Place { depth: 0, quoted: false });
    assert(calm(s, '\'', 13));
}

proof fn lemma_never_condition()
    ensures
        solid("0 = 1"@, '\''),
        "0 = 1"@.len() == 5,
        "0 = 1"@[0] != '(',
{
    let s = "0 = 1"@;
    reveal_strlit("0 = 1");
    reveal_with_fuel(place, 30);
    reveal_with_fuel(calm, 30);
    assert(s.len() == 5);
    assert(place(s, '\'', outside(), 5) == Place { depth: 0, quoted: false });
    assert(calm(s, '\'', 5));
}

proof fn lemma_match_condition()
    ensures
        solid("m.id IN (SELECT CAST(message_id AS INTEGER) FROM messages_fts WHERE messages_fts MATCH ? AND CAST(account_id AS TEXT) = ?)"@, '\''),
        "m.id IN (SELECT CAST(message_id AS INTEGER) FROM messages_fts WHERE messages_fts MATCH ? AND CAST(account_id AS TEXT) = ?)"@.len() == 122,
        "m.id IN (SELECT CAST(message_id AS INTEGER) FROM messages_fts WHERE messages_fts MATCH ? AND CAST(account_id AS TEXT) = ?)"@[0] != '(',
{
    let s = "m.id IN (SELECT CAST(message_id AS INTEGER) FROM messages_fts WHERE messages_fts MATCH ? AND CAST(account_id AS TEXT) = ?)"@;
    reveal_strlit("m.id IN (SELECT CAST(message_id AS INTEGER) FROM messages_fts WHERE messages_fts MATCH ? AND CAST(account_id AS TEXT) = ?)");
    reveal_with_fuel(place, 30);
    reveal_with_fuel(calm, 30);
    assert(s.len() == 122);
    assert(place(s, '\'', outside(), 25) == Place { depth: 2, quoted: false });
    assert(calm(s, '\'', 25));
    assert(place(s, '\'', outside(), 50) == Place { depth: 1, quoted: false });
    assert(calm(s, '\'', 50));
    assert(place(s, '\'', outside(), 75) == Place { depth: 1, quoted: false });
    assert(calm(s, '\'', 75));
    assert(place(s, '\'', outside(), 100) == Place { depth: 2, quoted: false });
    assert(calm(s, '\'', 100));
    assert(place(s, '\'', outside(), 122) == Place { depth: 0, quoted: false });
    assert(calm(s, '\'', 122));
}

proof fn lemma_subject_condition()
    ensures
        solid("m.subject LIKE ? ESCAPE '\\'"@, '\''),
        "m.subject LIKE ? ESCAPE '\\'"@.len() == 27,
        "m.subject LIKE ? ESCAPE '\\'"@[0] != '(',
{
    let s = "m.subject LIKE ? ESCAPE '\\'"@;
    reveal_strlit("m.subject LIKE ? ESCAPE '\\'");
    reveal_with_fuel(place, 30);
    reveal_with_fuel(calm, 30);
    assert(s.len() == 27);
    assert(place(s, '\'', outside(), 25) == Place { depth: 0, quoted: true });
    assert(calm(s, '\'', 25));
    assert(place(s, '\'', outside(), 27) == Place { depth: 0, quoted: false });
    assert(calm(s, '\'', 27));
}

proof fn lemma_sender_condition()
    ensures
        solid("m.from_address LIKE ? ESCAPE '\\'"@, '\''),
        "m.from_address LIKE ? ESCAPE '\\'"@.len() == 32,
        "m.from_address LIKE ? ESCAPE '\\'"@[0] != '(',
{
    let s = "m.from_address LIKE ? ESCAPE '\\'"@;
    reveal_strlit("m.from_address LIKE ? ESCAPE '\\'");
    reveal_with_fuel(place, 30);
    reveal_with_fuel(calm, 30);
    assert(s.len() == 32);
    assert(place(s, '\'', outside(), 25) == Place { depth: 0, quoted: false });
    assert(calm(s, '\'', 25));
    assert(place(s, '\'', outside(), 32) == Place { depth: 0, quoted: false });
    assert(calm(s, '\'', 32));
}

proof fn lemma_recipients_condition()
    ensures
        solid("IFNULL(m.to_summary, '') LIKE ? ESCAPE '\\'"@, '\''),
        "IFNULL(m.to_summary, '') LIKE ? ESCAPE '\\'"@.len() == 42,
        "IFNULL(m.to_summary, '') LIKE ? ESCAPE '\\'"@[0] != '(',
{
    let s = "IFNULL(m.to_summary, '') LIKE ? ESCAPE '\\'"@;
    reveal_strlit("IFNULL(m.to_summary, '') LIKE ? ESCAPE '\\'");
    reveal_with_fuel(place, 30);
    reveal_with_fuel(calm, 30);
    assert(s.len() == 42);
    assert(place(s, '\'', outside(), 25) == Place { depth: 0, quoted: false });
    assert(calm(s, '\'', 25));
    assert(place(s, '\'', outside(), 42) == Place { depth: 0, quoted: false });
    assert(calm(s, '\'', 42));
}

proof fn lemma_body_condition()
    ensures
        solid("EXISTS (SELECT 1 FROM message_bodies b WHERE b.account_id = m.account_id AND b.message_id = m.id AND IFNULL(b.text_body, '') LIKE ? ESCAPE '\\')"@, '\''),
        "EXISTS (SELECT 1 FROM message_bodies b WHERE b.account_id = m.account_id AND b.message_id = m.id AND IFNULL(b.text_body, '') LIKE ? ESCAPE '\\')"@.len() == 143,
        "EXISTS (SELECT 1 FROM message_bodies b WHERE b.account_id = m.account_id AND b.message_id = m.id AND IFNULL(b.text_body, '') LIKE ? ESCAPE '\\')"@[0] != '(',
{
    let s = "EXISTS (SELECT 1 FROM message_bodies b WHERE b.account_id = m.account_id AND b.message_id = m.id AND IFNULL(b.text_body, '') LIKE ? ESCAPE '\\')"@;
    reveal_strlit("EXISTS (SELECT 1 FROM message_bodies b WHERE b.account_id = m.account_id AND b.message_id = m.id AND IFNULL(b.text_body, '') LIKE ? ESCAPE '\\')");
    reveal_with_fuel(place, 30);
    reveal_with_fuel(calm, 30);
    assert(s.len() == 143);
    assert(place(s, '\'', outside(), 25) == Place { depth: 1, quoted: false });
    assert(calm(s, '\'', 25));
    assert(place(s, '\'', outside(), 50) == Place { depth: 1, quoted: false });
    assert(calm(s, '\'', 50));
    assert(place(s, '\'', outside(), 75) == Place { depth: 1, quoted: false });
    assert(calm(s, '\'', 75));
    assert(place(s, '\'', outside(), 100) == Place { depth: 1, quoted: false });
    assert(calm(s, '\'', 100));
    assert(place(s, '\'', outside(), 125) == Place { depth: 1, quoted: false });
    assert(calm(s, '\'', 125));
    assert(place(s, '\'', outside(), 143) == Place { depth: 0, quoted: false });
    assert(calm(s, '\'', 143));
}

proof fn lemma_attachments_condition()
    ensures
        solid("EXISTS (SELECT 1 FROM attachments a WHERE a.account_id = m.account_id AND a.message_id = m.id AND a.filename LIKE ? ESCAPE '\\')"@, '\''),
        "EXISTS (SELECT 1 FROM attachments a WHERE a.account_id = m.account_id AND a.message_id = m.id AND a.filename LIKE ? ESCAPE '\\')"@.len() == 127,
        "EXISTS (SELECT 1 FROM attachments a WHERE a.account_id = m.account_id AND a.message_id = m.id AND a.filename LIKE ? ESCAPE '\\')"@[0] != '(',
{
    let s = "EXISTS (SELECT 1 FROM attachments a WHERE a.account_id = m.account_id AND a.message_id = m.id AND a.filename LIKE ? ESCAPE '\\')"@;
    reveal_strlit("EXISTS (SELECT 1 FROM attachments a WHERE a.account_id = m.account_id AND a.message_id = m.id AND a.filename LIKE ? ESCAPE '\\')");
    reveal_with_fuel(place, 30);
    reveal_with_fuel(calm, 30);
    assert(s.len() == 127);
    assert(place(s, '\'', outside(), 25) == Place { depth: 1, quoted: false });
    assert(calm(s, '\'', 25));
    assert(place(s, '\'', outside(), 50) == Place { depth: 1, quoted: false });
    assert(calm(s, '\'', 50));
    assert(place(s, '\'', outside(), 75) == Place { depth: 1, quoted: false });
    assert(calm(s, '\'', 75));
    assert(place(s, '\'', outside(), 100) == Place { depth: 1, quoted: false });
    assert(calm(s, '\'', 100));
    assert(place(s, '\'', outside(), 125) == Place { depth: 1, quoted: true });
    assert(calm(s, '\'', 125));
    assert(place(s, '\'', outside(), 127) == Place { depth: 0, quoted: false });
    assert(calm(s, '\'', 127));
}

proof fn lemma_marked_condition()
    ensures
        solid("m.has_attachments = 1"@, '\''),
        "m.has_attachments = 1"@.len() == 21,
        "m.has_attachments = 1"@[0] != '(',
{
    let s = "m.has_attachments = 1"@;
    reveal_strlit("m.has_attachments = 1");
    reveal_with_fuel(place, 30);
    reveal_with_fuel(calm, 30);
    assert(s.len() == 21);
    assert(place(s, '\'', outside(), 21) == Place { depth: 0, quoted: false });
    assert(calm(s, '\'', 21));
}

proof fn lemma_listed_condition()
    ensures
        solid("EXISTS (SELECT 1 FROM attachments a WHERE a.account_id = m.account_id AND a.message_id = m.id)"@, '\''),
        "EXISTS (SELECT 1 FROM attachments a WHERE a.account_id = m.account_id AND a.message_id = m.id)"@.len() == 94,
        "EXISTS (SELECT 1 FROM attachments a WHERE a.account_id = m.account_id AND a.message_id = m.id)"@[0] != '(',
{
    let s = "EXISTS (SELECT 1 FROM attachments a WHERE a.account_id = m.account_id AND a.message_id = m.id)"@;
    reveal_strlit("EXISTS (SELECT 1 FROM attachments a WHERE a.account_id = m.account_id AND a.message_id = m.id)");
    reveal_with_fuel(place, 30);
    reveal_with_fuel(calm, 30);
    assert(s.len() == 94);
    assert(place(s, '\'', outside(), 25) == Place { depth: 1, quoted: false });
    assert(calm(s, '\'', 25));
    assert(place(s, '\'', outside(), 50) == Place { depth: 1, quoted: false });
    assert(calm(s, '\'', 50));
    assert(place(s, '\'', outside(), 75) == Place { depth: 1, quoted: false });
    assert(calm(s, '\'', 75));
    assert(place(s, '\'', outside(), 94) == Place { depth: 0, quoted: false });
    assert(calm(s, '\'', 94));
}

proof fn lemma_unread_condition()
    ensures
        solid("instr(lower(m.flags), 'seen') = 0"@, '\''),
        "instr(lower(m.flags), 'seen') = 0"@.len() == 33,
        "instr(lower(m.flags), 'seen') = 0"@[0] != '(',
{
    let s = "instr(lower(m.flags), 'seen') = 0"@;
    reveal_strlit("instr(lower(m.flags), 'seen') = 0");
    reveal_with_fuel(place, 30);
    reveal_with_fuel(calm, 30);
    assert(s.len() == 33);
    assert(place(s, '\'', outside(), 25) == Place { depth: 1, quoted: true });
    assert(calm(s, '\'', 25));
    assert(place(s, '\'', outside(), 33) == Place { depth: 0, quoted: false });
    assert(calm(s, '\'', 33));
}

proof fn lemma_flagged_condition()
    ensures
        solid("instr(lower(m.flags), 'flagged') > 0"@, '\''),
        "instr(lower(m.flags), 'flagged') > 0"@.len() == 36,
        "instr(lower(m.flags), 'flagged') > 0"@[0] != '(',
{
    let s = "instr(lower(m.flags), 'flagged') > 0"@;
    reveal_strlit("instr(lower(m.flags), 'flagged') > 0");
    reveal_with_fuel(place, 30);
    reveal_with_fuel(calm, 30);
    assert(s.len() == 36);
    assert(place(s, '\'', outside(), 25) == Place { depth: 1, quoted: true });
    assert(calm(s, '\'', 25));
    assert(place(s, '\'', outside(), 36) == Place { depth: 0, quoted: false });
    assert(calm(s, '\'', 36));
}

proof fn lemma_before_condition()
    ensures
        solid("date(m.internal_date) < ?"@, '\''),
        "date(m.internal_date) < ?"@.len() == 25,
        "date(m.internal_date) < ?"@[0] != '(',
{
    let s = "date(m.internal_date) < ?"@;
    reveal_strlit("date(m.internal_date) < ?");
    reveal_with_fuel(place, 30);
    reveal_with_fuel(calm, 30);
    assert(s.len() == 25);
    assert(place(s, '\'', outside(), 25) == Place { depth: 0, quoted: false });
    assert(calm(s, '\'', 25));
}

proof fn lemma_since_condition()
    ensures
        solid("date(m.internal_date) >= ?"@, '\''),
        "date(m.internal_date) >= ?"@.len() == 26,
        "date(m.internal_date) >= ?"@[0] != '(',
{
    let s = "date(m.internal_date) >= ?"@;
    reveal_strlit("date(m.internal_date) >= ?");
    reveal_with_fuel(place, 30);
    reveal_with_fuel(calm, 30);
    assert(s.len() == 26);
    assert(place(s, '\'', outside(), 25) == Place { depth: 0, quoted: false });
    assert(calm(s, '\'', 25));
    assert(place(s, '\'', outside(), 26) == Place { depth: 0, quoted: false });
    assert(calm(s, '\'', 26));
}

proof fn lemma_folder_condition()
    ensures
        solid("m.folder_id IN (SELECT id FROM folders WHERE account_id = ? AND lower(name) = lower(?))"@, '\''),
        "m.folder_id IN (SELECT id FROM folders WHERE account_id = ? AND lower(name) = lower(?))"@.len() == 87,
        "m.folder_id IN (SELECT id FROM folders WHERE account_id = ? AND lower(name) = lower(?))"@[0] != '(',
{
    let s = "m.folder_id IN (SELECT id FROM folders WHERE account_id = ? AND lower(name) = lower(?))"@;
    reveal_strlit("m.folder_id IN (SELECT id FROM folders WHERE account_id = ? AND lower(name) = lower(?))");
    reveal_with_fuel(place, 30);
    reveal_with_fuel(calm, 30);
    assert(s.len() == 87);
    assert(place(s, '\'', outside(), 25) == Place { depth: 1, quoted: false });
    assert(calm(s, '\'', 25));
    assert(place(s, '\'', outside(), 50) == Place { depth: 1, quoted: false });
    assert(calm(s, '\'', 50));
    assert(place(s, '\'', outside(), 75) == Place { depth: 1, quoted: false });
    assert(calm(s, '\'', 75));
    assert(place(s, '\'', outside(), 87) == Place { depth: 0, quoted: false });
    assert(calm(s, '\'', 87));
}

// -- the conditions, one by one ----------------------------------------------

/// The conditions of a search are all different.
proof fn lemma_conditions_differ()
    ensures
        "m.account_id = ?"@.len() == 16,
        "m.deleted = 0"@.len() == 13,
        "0 = 1"@.len() == 5,
        "m.id IN (SELECT CAST(message_id AS INTEGER) FROM messages_fts WHERE messages_fts MATCH ? AND CAST(account_id AS TEXT) = ?)"@.len()
            == 122,
        "m.subject LIKE ? ESCAPE '\\'"@.len() == 27,
        "m.from_address LIKE ? ESCAPE '\\'"@.len() == 32,
        "IFNULL(m.to_summary, '') LIKE ? ESCAPE '\\'"@.len() == 42,
        "EXISTS (SELECT 1 FROM message_bodies b WHERE b.account_id = m.account_id AND b.message_id = m.id AND IFNULL(b.text_body, '') LIKE ? ESCAPE '\\')"@.len()
            == 143,
        "EXISTS (SELECT 1 FROM attachments a WHERE a.account_id = m.account_id AND a.message_id = m.id AND a.filename LIKE ? ESCAPE '\\')"@.len()
            == 127,
        "m.has_attachments = 1"@.len() == 21,
        "EXISTS (SELECT 1 FROM attachments a WHERE a.account_id = m.account_id AND a.message_id = m.id)"@.len()
            == 94,
        "instr(lower(m.flags), 'seen') = 0"@.len() == 33,
        "instr(lower(m.flags), 'flagged') > 0"@.len() == 36,
        "date(m.internal_date) < ?"@.len() == 25,
        "date(m.internal_date) >= ?"@.len() == 26,
        "m.folder_id IN (SELECT id FROM folders WHERE account_id = ? AND lower(name) = lower(?))"@.len()
            == 87,
{
    lemma_account_condition();
    lemma_deleted_condition();
    lemma_never_condition();
    lemma_match_condition();
    lemma_subject_condition();
    lemma_sender_condition();
    lemma_recipients_condition();
    lemma_body_condition();
    lemma_attachments_condition();
    lemma_marked_condition();
    lemma_listed_condition();
    lemma_unread_condition();
    lemma_flagged_condition();
    lemma_before_condition();
    lemma_since_condition();
    lemma_folder_condition();
}

// -- what the conditions of a search say -------------------------------------

/// Whether something is true of every item of a list.
spec fn all<T>(items: Seq<T>, p: spec_fn(T) -> bool) -> bool {
    forall|i: int| 0 <= i < items.len() ==> p(#[trigger] items[i])
}

proof fn lemma_all_pushed<T>(items: Seq<T>, p: spec_fn(T) -> bool)
    requires
        items.len() > 0,
    ensures
        all(items, p) <==> all(items.drop_last(), p) && p(items.last()),
{
    let head = items.drop_last();
    if all(items, p) {
        assert forall|i: int| 0 <= i < head.len() implies p(#[trigger] head[i]) by {
            assert(head[i] == items[i]);
        }
        assert(p(items[items.len() - 1]));
    }
    if all(head, p) && p(items.last()) {
        assert forall|i: int| 0 <= i < items.len() implies p(#[trigger] items[i]) by {
            if i < head.len() {
                assert(head[i] == items[i]);
            }
        }
    }
}

proof fn lemma_all_concat<T>(a: Seq<T>, b: Seq<T>, p: spec_fn(T) -> bool)
    ensures
        all(a + b, p) <==> all(a, p) && all(b, p),
{
    let c = a + b;
    if all(c, p) {
        assert forall|i: int| 0 <= i < a.len() implies p(#[trigger] a[i]) by {
            assert(c[i] == a[i]);
        }
        assert forall|i: int| 0 <= i < b.len() implies p(#[trigger] b[i]) by {
            assert(c[a.len() + i] == b[i]);
        }
    }
    if all(a, p) && all(b, p) {
        assert forall|i: int| 0 <= i < c.len() implies p(#[trigger] c[i]) by {
            if i < a.len() {
                assert(c[i] == a[i]);
            } else {
                assert(c[i] == b[i - a.len()]);
            }
        }
    }
}

/// A single condition says what the message answers.
proof fn lemma_answer(m: Mail, s: Seq<char>, binds: Seq<BindView>)
    requires
        solid(s, '\''),
        s[0] != '(',
    ensures
        where_value(s, binds, atoms(m)) == atom(m, s, binds),
{
    lemma_where_one(s, binds, atoms(m));
}

/// A part of a `LIKE` condition says whether the text holds the value.
proof fn lemma_pattern(text: Seq<char>, value: Seq<char>)
    ensures
        like_bind(text, BindView::Text(like_pattern_of(value))) == holds(
            lowered(text),
            lowered(value),
        ),
{
    reveal_strlit("%");
    assert("%"@ =~= seq!['%']);
    law_like_finds_the_value(text, value);
}

/// A `LIKE` condition on one field says whether that field holds the value.
proof fn lemma_field_piece(m: Mail, target: TextTarget, value: Seq<char>)
    requires
        target != TextTarget::Any,
    ensures
        solid(like_condition(target), '\''),
        where_value(
            like_condition(target),
            seq![BindView::Text(like_pattern_of(value))],
            atoms(m),
        ) == scanned(m, target, value),
{
    let binds = seq![BindView::Text(like_pattern_of(value))];
    lemma_conditions_differ();
    lemma_subject_condition();
    lemma_sender_condition();
    lemma_recipients_condition();
    lemma_body_condition();
    lemma_attachments_condition();
    lemma_answer(m, like_condition(target), binds);
    match target {
        TextTarget::Subject => {
            lemma_pattern(m.subject, value);
        },
        TextTarget::Sender => {
            lemma_pattern(m.sender, value);
        },
        TextTarget::Recipients => {
            lemma_pattern(m.recipients, value);
        },
        TextTarget::Body => {
            if let Some(body) = m.body {
                lemma_pattern(body, value);
            }
        },
        _ => {
            assert forall|i: int| 0 <= i < m.attachments.len() implies like_bind(
                #[trigger] m.attachments[i],
                binds[0],
            ) == holds(lowered(m.attachments[i]), lowered(value)) by {
                lemma_pattern(m.attachments[i], value);
            }
        },
    }
}

/// What five parts with `OR` between them and parentheses around them say, each with one
/// parameter.
proof fn lemma_where_any(
    a: Seq<char>,
    b: Seq<char>,
    c: Seq<char>,
    d: Seq<char>,
    e: Seq<char>,
    p: BindView,
    atom: spec_fn(Seq<char>, Seq<BindView>) -> bool,
)
    requires
        solid(a, '\'') && marks(a) == 1,
        solid(b, '\'') && marks(b) == 1,
        solid(c, '\'') && marks(c) == 1,
        solid(d, '\'') && marks(d) == 1,
        solid(e, '\''),
    ensures
        ({
            let whole = seq!['('] + any_of(a, b, c, d, e) + seq![')'];
            &&& solid(whole, '\'')
            &&& where_value(whole, seq![p, p, p, p, p], atom) == (where_value(a, seq![p], atom)
                || where_value(b, seq![p], atom) || where_value(c, seq![p], atom) || where_value(
                d,
                seq![p],
                atom,
            ) || where_value(e, seq![p], atom))
        }),
{
    let or = " OR "@;
    let de = d + or + e;
    let ce = c + or + de;
    let be = b + or + ce;
    let ae = a + or + be;
    let one = seq![p];
    lemma_where_or(d, e, one, one, atom);
    assert(one + one =~= seq![p, p]);
    assert(de[0] == d[0]);
    lemma_where_or(c, de, one, seq![p, p], atom);
    assert(one + seq![p, p] =~= seq![p, p, p]);
    assert(ce[0] == c[0]);
    lemma_where_or(b, ce, one, seq![p, p, p], atom);
    assert(one + seq![p, p, p] =~= seq![p, p, p, p]);
    assert(be[0] == b[0]);
    lemma_where_or(a, be, one, seq![p, p, p, p], atom);
    assert(one + seq![p, p, p, p] =~= seq![p, p, p, p, p]);
    lemma_any_level(a, b, c, d, e, '\'');
    lemma_where_wrapped(ae, seq![p, p, p, p, p], atom);
}

/// How five parts are written, and how they are read.
proof fn lemma_five_flat(
    a: Seq<char>,
    b: Seq<char>,
    c: Seq<char>,
    d: Seq<char>,
    e: Seq<char>,
    or: Seq<char>,
)
    ensures
        seq!['('] + a + or + b + or + c + or + d + or + e + seq![')'] == seq!['('] + (a + or + (b + or
            + (c + or + (d + or + e)))) + seq![')'],
{
    let left = seq!['('] + a + or + b + or + c + or + d + or + e + seq![')'];
    let right = seq!['('] + (a + or + (b + or + (c + or + (d + or + e)))) + seq![')'];
    assert(left =~= right);
}

/// The text of the condition that scans all five fields.
proof fn lemma_five_text()
    ensures
        like_condition(TextTarget::Any) == seq!['('] + any_of(
            like_condition(TextTarget::Subject),
            like_condition(TextTarget::Sender),
            like_condition(TextTarget::Recipients),
            like_condition(TextTarget::Body),
            like_condition(TextTarget::Attachments),
        ) + seq![')'],
{
    reveal_strlit("(");
    reveal_strlit(")");
    assert("("@ =~= seq!['(']);
    assert(")"@ =~= seq![')']);
    lemma_five_flat(
        like_condition(TextTarget::Subject),
        like_condition(TextTarget::Sender),
        like_condition(TextTarget::Recipients),
        like_condition(TextTarget::Body),
        like_condition(TextTarget::Attachments),
        " OR "@,
    );
}

/// What one text clause says without the index.
proof fn lemma_like_piece(m: Mail, target: TextTarget, value: Seq<char>)
    ensures
        solid(like_piece(target, value).clause, '\''),
        met(like_piece(target, value), atoms(m)) == has_text(SearchMode::Like, m, target, value),
{
    if value.len() == 0 {
        lemma_never(m);
    } else if target != TextTarget::Any {
        lemma_field_piece(m, target, value);
    } else {
        lemma_field_piece(m, TextTarget::Subject, value);
        lemma_field_piece(m, TextTarget::Sender, value);
        lemma_field_piece(m, TextTarget::Recipients, value);
        lemma_field_piece(m, TextTarget::Body, value);
        lemma_field_piece(m, TextTarget::Attachments, value);
        lemma_marks_like(TextTarget::Subject);
        lemma_marks_like(TextTarget::Sender);
        lemma_marks_like(TextTarget::Recipients);
        lemma_marks_like(TextTarget::Body);
        lemma_five_text();
        lemma_where_any(
            like_condition(TextTarget::Subject),
            like_condition(TextTarget::Sender),
            like_condition(TextTarget::Recipients),
            like_condition(TextTarget::Body),
            like_condition(TextTarget::Attachments),
            BindView::Text(like_pattern_of(value)),
            atoms(m),
        );
    }
}

/// The condition for an empty value is true of no message.
proof fn lemma_never(m: Mail)
    ensures
        solid(never().clause, '\''),
        !met(never(), atoms(m)),
{
    lemma_conditions_differ();
    lemma_never_condition();
    lemma_answer(m, never().clause, never().binds);
}

/// What the operators without text say.
proof fn lemma_flag(mode: SearchMode, m: Mail, op: OpView)
    ensures
        flag_piece(m.account, op) matches Some(piece) ==> solid(piece.clause, '\'') && met(
            piece,
            atoms(m),
        ) == has_op(mode, m, op),
{
    if let Some(piece) = flag_piece(m.account, op) {
        lemma_conditions_differ();
        match op {
            OpView::HasAttachment => {
                lemma_attached(m);
            },
            OpView::IsUnread => {
                lemma_unread_condition();
                lemma_answer(m, piece.clause, piece.binds);
            },
            OpView::IsFlagged => {
                lemma_flagged_condition();
                lemma_answer(m, piece.clause, piece.binds);
            },
            OpView::Before(_) => {
                lemma_before_condition();
                lemma_answer(m, piece.clause, piece.binds);
            },
            OpView::After(_) => {
                lemma_since_condition();
                lemma_answer(m, piece.clause, piece.binds);
            },
            OpView::Folder(_) => {
                lemma_folder_condition();
                lemma_folder_text();
                lemma_answer(m, piece.clause, piece.binds);
            },
            _ => {},
        }
    }
}

/// The text of the condition on a folder.
proof fn lemma_folder_text()
    ensures
        "m.folder_id IN (SELECT id FROM folders WHERE account_id = ?"@
            + " AND lower(name) = lower(?))"@
            == "m.folder_id IN (SELECT id FROM folders WHERE account_id = ? AND lower(name) = lower(?))"@,
{
    reveal_strlit("m.folder_id IN (SELECT id FROM folders WHERE account_id = ?");
    reveal_strlit(" AND lower(name) = lower(?))");
    reveal_strlit(
        "m.folder_id IN (SELECT id FROM folders WHERE account_id = ? AND lower(name) = lower(?))",
    );
    let a = "m.folder_id IN (SELECT id FROM folders WHERE account_id = ?"@;
    let b = " AND lower(name) = lower(?))"@;
    let c =
        "m.folder_id IN (SELECT id FROM folders WHERE account_id = ? AND lower(name) = lower(?))"@;
    assert(c.take(59) =~= a);
    assert(c.skip(59) =~= b);
    assert(c =~= c.take(59) + c.skip(59));
}

/// The text of the condition on the index.
proof fn lemma_subquery_text()
    ensures
        fts_subquery()
            == "m.id IN (SELECT CAST(message_id AS INTEGER) FROM messages_fts WHERE messages_fts MATCH ? AND CAST(account_id AS TEXT) = ?)"@,
{
    reveal_strlit(
        "m.id IN (SELECT CAST(message_id AS INTEGER) FROM messages_fts WHERE messages_fts MATCH ?",
    );
    reveal_strlit(" AND CAST(account_id AS TEXT) = ?)");
    reveal_strlit(
        "m.id IN (SELECT CAST(message_id AS INTEGER) FROM messages_fts WHERE messages_fts MATCH ? AND CAST(account_id AS TEXT) = ?)",
    );
    let c =
        "m.id IN (SELECT CAST(message_id AS INTEGER) FROM messages_fts WHERE messages_fts MATCH ? AND CAST(account_id AS TEXT) = ?)"@;
    assert(c.take(88)
        =~= "m.id IN (SELECT CAST(message_id AS INTEGER) FROM messages_fts WHERE messages_fts MATCH ?"@);
    assert(c.skip(88) =~= " AND CAST(account_id AS TEXT) = ?)"@);
    assert(c =~= c.take(88) + c.skip(88));
}

/// The text of the condition on attachments.
proof fn lemma_attached_text()
    ensures
        "(m.has_attachments = 1 OR EXISTS (SELECT 1 FROM attachments a WHERE a.account_id = m.account_id AND a.message_id = m.id))"@
            == seq!['('] + ("m.has_attachments = 1"@ + " OR "@
            + "EXISTS (SELECT 1 FROM attachments a WHERE a.account_id = m.account_id AND a.message_id = m.id)"@)
            + seq![')'],
{
    reveal_strlit(
        "(m.has_attachments = 1 OR EXISTS (SELECT 1 FROM attachments a WHERE a.account_id = m.account_id AND a.message_id = m.id))",
    );
    reveal_strlit("m.has_attachments = 1");
    reveal_strlit(" OR ");
    reveal_strlit(
        "EXISTS (SELECT 1 FROM attachments a WHERE a.account_id = m.account_id AND a.message_id = m.id)",
    );
    let c =
        "(m.has_attachments = 1 OR EXISTS (SELECT 1 FROM attachments a WHERE a.account_id = m.account_id AND a.message_id = m.id))"@;
    assert(c.subrange(1, 22) =~= "m.has_attachments = 1"@);
    assert(c.subrange(22, 26) =~= " OR "@);
    assert(c.subrange(26, 120)
        =~= "EXISTS (SELECT 1 FROM attachments a WHERE a.account_id = m.account_id AND a.message_id = m.id)"@);
    assert(c =~= seq!['('] + (c.subrange(1, 22) + c.subrange(22, 26) + c.subrange(26, 120)) + seq![
        ')',
    ]);
}

/// What the condition on attachments says.
proof fn lemma_attached(m: Mail)
    ensures
        ({
            let clause =
                "(m.has_attachments = 1 OR EXISTS (SELECT 1 FROM attachments a WHERE a.account_id = m.account_id AND a.message_id = m.id))"@;
            &&& solid(clause, '\'')
            &&& where_value(clause, Seq::empty(), atoms(m)) == (m.has_attachments
                || m.attachments.len() > 0)
        }),
{
    let a = "m.has_attachments = 1"@;
    let b =
        "EXISTS (SELECT 1 FROM attachments a WHERE a.account_id = m.account_id AND a.message_id = m.id)"@;
    let none = Seq::<BindView>::empty();
    lemma_conditions_differ();
    lemma_marked_condition();
    lemma_listed_condition();
    lemma_attached_text();
    lemma_answer(m, a, none);
    lemma_answer(m, b, none);
    assert(marks(a) == 0) by {
        reveal_strlit("m.has_attachments = 1");
        lemma_no_marks(a);
    }
    lemma_where_or(a, b, none, none, atoms(m));
    assert(none + none =~= none);
    lemma_level(a, '\'');
    lemma_level(b, '\'');
    lemma_level(" OR "@, '\'');
    lemma_level_concat(a, " OR "@, '\'');
    lemma_level_concat(a + " OR "@, b, '\'');
    lemma_where_wrapped(a + " OR "@ + b, none, atoms(m));
}

// -- all conditions of a search ----------------------------------------------

/// The empty values of the text part are true of no message.
proof fn lemma_empty_met(text: Seq<(TextTarget, Seq<char>)>, m: Mail)
    ensures
        all(empty_pieces(text), |p: PieceView| solid(p.clause, '\'')),
        all(empty_pieces(text), |p: PieceView| met(p, atoms(m))) <==> all(
            text,
            |t: (TextTarget, Seq<char>)| t.1.len() > 0,
        ),
    decreases text.len(),
{
    let is_solid = |p: PieceView| solid(p.clause, '\'');
    let is_met = |p: PieceView| met(p, atoms(m));
    let filled = |t: (TextTarget, Seq<char>)| t.1.len() > 0;
    if text.len() > 0 {
        let head = text.drop_last();
        lemma_empty_met(head, m);
        lemma_all_pushed(text, filled);
        lemma_never(m);
        let pieces = empty_pieces(text);
        if text.last().1.len() == 0 {
            assert(pieces.drop_last() =~= empty_pieces(head));
            lemma_all_pushed(pieces, is_solid);
            lemma_all_pushed(pieces, is_met);
        }
    }
}

/// What the text part says with the index.
proof fn lemma_fts_met(text: Seq<(TextTarget, Seq<char>)>, m: Mail)
    ensures
        all(fts_pieces(m.account, text), |p: PieceView| solid(p.clause, '\'')),
        all(fts_pieces(m.account, text), |p: PieceView| met(p, atoms(m))) <==> all(
            text,
            |t: (TextTarget, Seq<char>)| has_text(SearchMode::Fts5, m, t.0, t.1),
        ),
{
    let is_solid = |p: PieceView| solid(p.clause, '\'');
    let is_met = |p: PieceView| met(p, atoms(m));
    let filled = |t: (TextTarget, Seq<char>)| t.1.len() > 0;
    let wanted = |t: (TextTarget, Seq<char>)| has_text(SearchMode::Fts5, m, t.0, t.1);
    let pieces = match_pieces(m.account, text);
    lemma_empty_met(text, m);
    lemma_all_concat(empty_pieces(text), pieces, is_solid);
    lemma_all_concat(empty_pieces(text), pieces, is_met);
    lemma_conditions_differ();
    lemma_match_condition();
    lemma_subquery_text();
    if pieces.len() > 0 {
        lemma_answer(m, pieces[0].clause, pieces[0].binds);
    }
    if all(text, filled) {
        if text.len() > 0 {
            assert(filled(text[0]));
            law_the_index_needs_every_clause(m.account, text, m.says);
            assert(is_met(pieces[0]) == match_value(pieces[0].binds[0]->Text_0, m.says));
        }
        if all(pieces, is_met) {
            assert forall|i: int| 0 <= i < text.len() implies wanted(#[trigger] text[i]) by {
                assert(is_met(pieces[0]));
                assert(filled(text[i]));
            }
        }
        if all(text, wanted) {
            assert forall|i: int| 0 <= i < text.len() implies (#[trigger] text[i]).1.len() == 0
                || indexed(text[i].0, text[i].1, m.says) by {
                assert(wanted(text[i]));
            }
            assert forall|i: int| 0 <= i < pieces.len() implies is_met(#[trigger] pieces[i]) by {
                lemma_no_conditions(text);
            }
        }
    } else {
        let i = choose|i: int| 0 <= i < text.len() && !filled(#[trigger] text[i]);
        assert(!wanted(text[i]));
    }
}

proof fn lemma_no_conditions(text: Seq<(TextTarget, Seq<char>)>)
    ensures
        text.len() == 0 ==> fts_conditions(text).len() == 0,
{
}

/// What the text part says.
proof fn lemma_text_met(mode: SearchMode, text: Seq<(TextTarget, Seq<char>)>, m: Mail)
    ensures
        all(text_pieces(mode, m.account, text), |p: PieceView| solid(p.clause, '\'')),
        all(text_pieces(mode, m.account, text), |p: PieceView| met(p, atoms(m))) <==> all(
            text,
            |t: (TextTarget, Seq<char>)| has_text(mode, m, t.0, t.1),
        ),
{
    let is_solid = |p: PieceView| solid(p.clause, '\'');
    let is_met = |p: PieceView| met(p, atoms(m));
    let wanted = |t: (TextTarget, Seq<char>)| has_text(mode, m, t.0, t.1);
    if mode == SearchMode::Fts5 {
        lemma_fts_met(text, m);
    } else {
        let pieces = text_pieces(mode, m.account, text);
        assert forall|i: int| 0 <= i < text.len() implies is_solid(#[trigger] pieces[i])
            && is_met(pieces[i]) == wanted(text[i]) by {
            lemma_like_piece(m, text[i].0, text[i].1);
        }
        if all(pieces, is_met) {
            assert forall|i: int| 0 <= i < text.len() implies wanted(#[trigger] text[i]) by {
                assert(is_met(pieces[i]));
            }
        }
        if all(text, wanted) {
            assert forall|i: int| 0 <= i < pieces.len() implies is_met(#[trigger] pieces[i]) by {
                assert(wanted(text[i]));
            }
        }
    }
}

/// What the operators say, those with text and those without.
proof fn lemma_ops_met(mode: SearchMode, ops: Seq<OpView>, m: Mail)
    ensures
        all(flag_pieces(m.account, ops), |p: PieceView| solid(p.clause, '\'')),
        (all(text_operators(ops), |t: (TextTarget, Seq<char>)| has_text(mode, m, t.0, t.1)) && all(
            flag_pieces(m.account, ops),
            |p: PieceView| met(p, atoms(m)),
        )) <==> all(ops, |op: OpView| has_op(mode, m, op)),
    decreases ops.len(),
{
    let is_solid = |p: PieceView| solid(p.clause, '\'');
    let is_met = |p: PieceView| met(p, atoms(m));
    let wanted = |t: (TextTarget, Seq<char>)| has_text(mode, m, t.0, t.1);
    let asked = |op: OpView| has_op(mode, m, op);
    if ops.len() > 0 {
        let head = ops.drop_last();
        lemma_ops_met(mode, head, m);
        lemma_all_pushed(ops, asked);
        lemma_flag(mode, m, ops.last());
        let text = text_operators(ops);
        let pieces = flag_pieces(m.account, ops);
        if flag_piece(m.account, ops.last()) is Some {
            assert(pieces.drop_last() =~= flag_pieces(m.account, head));
            assert(text == text_operators(head));
            lemma_all_pushed(pieces, is_solid);
            lemma_all_pushed(pieces, is_met);
        } else {
            assert(pieces == flag_pieces(m.account, head));
            assert(text.drop_last() =~= text_operators(head));
            lemma_all_pushed(text, wanted);
        }
    }
}

/// A search finds exactly the messages that it asks for, with the index and without it: the
/// clause and its parameters, read as the database reads them, hold of a message exactly if it is
/// a live message of the account and has every term and every operator of the query.
pub proof fn law_a_search_finds_what_it_asks_for(
    mode: SearchMode,
    account_id: int,
    query: QueryView,
    m: Mail,
)
    ensures
        finds(mode, account_id, query, m) <==> asked_for(mode, account_id, query, m),
{
    let is_met = |p: PieceView| met(p, atoms(m));
    let is_solid = |p: PieceView| solid(p.clause, '\'');
    let pieces = where_pieces(mode, account_id, query);
    let scope = scope_pieces(account_id);
    lemma_conditions_differ();
    lemma_account_condition();
    lemma_deleted_condition();
    lemma_answer(m, scope[0].clause, scope[0].binds);
    lemma_answer(m, scope[1].clause, scope[1].binds);
    lemma_where_solid(mode, account_id, query, m);
    lemma_where_bound(mode, account_id, query);
    assert forall|i: int| 0 <= i < pieces.len() implies sound(#[trigger] pieces[i]) by {
        assert(is_solid(pieces[i]));
    }
    lemma_where_joined(pieces, atoms(m));
    assert(finds(mode, account_id, query, m) <==> all(pieces, is_met)) by {
        if all(pieces, is_met) {
            assert forall|i: int| 0 <= i < pieces.len() implies met(#[trigger] pieces[i], atoms(m)) by {
                assert(is_met(pieces[i]));
            }
        }
    }
    assert(pieces[0] == scope[0] && pieces[1] == scope[1]);
    if m.account == account_id {
        lemma_pieces_met(mode, query, m);
        if all(pieces, is_met) {
            assert(is_met(pieces[1]));
        }
    } else if all(pieces, is_met) {
        assert(is_met(pieces[0]));
    }
}

/// What the conditions after the account say, for a message of the account.
proof fn lemma_pieces_met(mode: SearchMode, query: QueryView, m: Mail)
    requires
        where_value("m.deleted = 0"@, Seq::empty(), atoms(m)) == !m.deleted,
        where_value("m.account_id = ?"@, seq![BindView::Int(m.account)], atoms(m)),
    ensures
        all(where_pieces(mode, m.account, query), |p: PieceView| met(p, atoms(m))) <==> asked_for(
            mode,
            m.account,
            query,
            m,
        ),
{
    let is_met = |p: PieceView| met(p, atoms(m));
    let wanted = |t: (TextTarget, Seq<char>)| has_text(mode, m, t.0, t.1);
    let asked = |op: OpView| has_op(mode, m, op);
    let text = text_part(query);
    let terms = query.terms.map_values(|t: Seq<char>| (TextTarget::Any, t));
    let scope = scope_pieces(m.account);
    let middle = text_pieces(mode, m.account, text);
    let flags = flag_pieces(m.account, query.operators);
    lemma_all_concat(scope + middle, flags, is_met);
    lemma_all_concat(scope, middle, is_met);
    lemma_text_met(mode, text, m);
    lemma_ops_met(mode, query.operators, m);
    lemma_all_concat(terms, text_operators(query.operators), wanted);
    assert(all(scope, is_met) == !m.deleted) by {
        if all(scope, is_met) {
            assert(is_met(scope[1]));
        }
    }
    if all(terms, wanted) {
        assert forall|i: int| 0 <= i < query.terms.len() implies has_text(
            mode,
            m,
            TextTarget::Any,
            #[trigger] query.terms[i],
        ) by {
            assert(wanted(terms[i]));
        }
    }
    if asked_for(mode, m.account, query, m) {
        assert forall|i: int| 0 <= i < terms.len() implies wanted(#[trigger] terms[i]) by {
            assert(has_text(mode, m, TextTarget::Any, query.terms[i]));
        }
        assert forall|i: int| 0 <= i < query.operators.len() implies asked(
            #[trigger] query.operators[i],
        ) by {
            assert(has_op(mode, m, query.operators[i]));
        }
    }
    if all(query.operators, asked) {
        assert forall|i: int| 0 <= i < query.operators.len() implies has_op(
            mode,
            m,
            #[trigger] query.operators[i],
        ) by {
            assert(asked(query.operators[i]));
        }
    }
}

/// Every condition of a search is one part.
proof fn lemma_where_solid(mode: SearchMode, account_id: int, query: QueryView, m: Mail)
    ensures
        all(where_pieces(mode, account_id, query), |p: PieceView| solid(p.clause, '\'')),
{
    let is_solid = |p: PieceView| solid(p.clause, '\'');
    let ours = Mail { account: account_id, ..m };
    let scope = scope_pieces(account_id);
    let middle = text_pieces(mode, account_id, text_part(query));
    lemma_account_condition();
    lemma_deleted_condition();
    assert(all(scope, is_solid));
    lemma_text_met(mode, text_part(query), ours);
    lemma_ops_met(mode, query.operators, ours);
    lemma_all_concat(scope + middle, flag_pieces(account_id, query.operators), is_solid);
    lemma_all_concat(scope, middle, is_solid);
}

/// Two queries made into one: the terms and the operators of both.
pub open spec fn both(a: QueryView, b: QueryView) -> QueryView {
    QueryView { terms: a.terms + b.terms, operators: a.operators + b.operators }
}

/// What two queries find together is what each of them finds alone, at once: asking for more
/// never finds more, with the index and without it.
pub proof fn law_asking_for_more_narrows_the_search(
    mode: SearchMode,
    account_id: int,
    a: QueryView,
    b: QueryView,
    m: Mail,
)
    ensures
        finds(mode, account_id, both(a, b), m) <==> finds(mode, account_id, a, m) && finds(
            mode,
            account_id,
            b,
            m,
        ),
{
    let c = both(a, b);
    law_a_search_finds_what_it_asks_for(mode, account_id, a, m);
    law_a_search_finds_what_it_asks_for(mode, account_id, b, m);
    law_a_search_finds_what_it_asks_for(mode, account_id, c, m);
    if asked_for(mode, account_id, c, m) {
        assert forall|i: int| 0 <= i < a.terms.len() implies has_text(
            mode,
            m,
            TextTarget::Any,
            #[trigger] a.terms[i],
        ) by {
            assert(c.terms[i] == a.terms[i]);
        }
        assert forall|i: int| 0 <= i < b.terms.len() implies has_text(
            mode,
            m,
            TextTarget::Any,
            #[trigger] b.terms[i],
        ) by {
            assert(c.terms[a.terms.len() + i] == b.terms[i]);
        }
        assert forall|i: int| 0 <= i < a.operators.len() implies has_op(
            mode,
            m,
            #[trigger] a.operators[i],
        ) by {
            assert(c.operators[i] == a.operators[i]);
        }
        assert forall|i: int| 0 <= i < b.operators.len() implies has_op(
            mode,
            m,
            #[trigger] b.operators[i],
        ) by {
            assert(c.operators[a.operators.len() + i] == b.operators[i]);
        }
    }
}

} // verus!
