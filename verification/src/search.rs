//! Local search: the query language, its wire form and the SQL it turns into.
//!
//! # The query language
//!
//! A query is a whitespace-separated list of tokens:
//!
//! * `from:alice@example.com`, `to:bob`, `subject:invoice`, `body:agenda`,
//!   `attachment:pdf`: a text search restricted to one field;
//! * `has:attachment`: the message carries at least one attachment;
//! * `is:unread`, `is:flagged`: a flag test;
//! * `before:2026-01-01` (strictly older) and `after:2026-01-01` (on or after);
//! * `folder:INBOX`: the folder name, matched case-insensitively;
//! * anything else is a *bare term*, matched against every indexed field.
//!
//! A double-quoted value keeps its spaces: `subject:"invoice for september"`.
//! There is no escape character: a `"` always opens or closes a quoted segment,
//! and an unterminated quote runs to the end of the input.
//!
//! An unknown key is not an error: `colour:red` is a bare term that keeps its
//! colon, and so is an unknown value of a flag operator. A known operator with an
//! empty value is an error, and so is a date that is not `YYYY-MM-DD`.

use vstd::prelude::*;

use crate::api::{MessageItem, MessageList};
use crate::database::{
    bind_views, marks, Bind, BindView, ClientDatabase, SearchDocument, SearchMode, Statement,
};
use crate::date::{date_exists, date_named, date_text, parse_date, Date};
use crate::error::{ClientError, ClientResult};
use crate::fcp::{
    law_a_server_search_names_what_it_asks_for, plain_request, search_request, FcpClient, Method,
    RequestSpec, RequestView,
};
use crate::text::{
    any_blank, begins_with, blank, copy_opt, copy_or_empty, decimal_signed, has_blank, is_blank,
    join, joined, lowered, opt_view, same, signed_digits, split_at_first, split_once, text_or_empty,
    to_lower, views,
};
use crate::util::{escape_fts, escape_like, fts_escaped, like_escaped};

verus! {

/// Where a set of results came from.
#[derive(Debug, Clone, Copy, PartialEq, Eq, Structural)]
pub enum SearchSource {
    /// The local cache: the normal case, and the only one that works offline.
    Local,
    /// `GET /search` on the server, used when the cache has no answer.
    Server,
}

/// One operator of the search query language.
#[derive(Debug, Clone, PartialEq, Eq)]
pub enum SearchOp {
    /// `from:<address>`: the sender address.
    From(String),
    /// `to:<address>`: one of the recipients.
    To(String),
    /// `subject:<text>`: the subject.
    Subject(String),
    /// `body:<text>`: the text body.
    Body(String),
    /// `attachment:<text>`: an attachment file name.
    Attachment(String),
    /// `has:attachment`: the message has at least one attachment.
    HasAttachment,
    /// `is:unread`: the message has no `seen` flag.
    IsUnread,
    /// `is:flagged`: the message carries the `flagged` flag.
    IsFlagged,
    /// `before:<YYYY-MM-DD>`: strictly older than that day.
    Before(Date),
    /// `after:<YYYY-MM-DD>`: that day or newer.
    After(Date),
    /// `folder:<name>`: the folder name, matched case-insensitively.
    Folder(String),
}

/// What a [`SearchOp`] stands for.
pub enum OpView {
    /// `from:`
    From(Seq<char>),
    /// `to:`
    To(Seq<char>),
    /// `subject:`
    Subject(Seq<char>),
    /// `body:`
    Body(Seq<char>),
    /// `attachment:`
    Attachment(Seq<char>),
    /// `has:attachment`
    HasAttachment,
    /// `is:unread`
    IsUnread,
    /// `is:flagged`
    IsFlagged,
    /// `before:`
    Before(Date),
    /// `after:`
    After(Date),
    /// `folder:`
    Folder(Seq<char>),
}

impl SearchOp {
    /// What the operator stands for.
    pub open spec fn view(&self) -> OpView {
        match self {
            SearchOp::From(v) => OpView::From(v@),
            SearchOp::To(v) => OpView::To(v@),
            SearchOp::Subject(v) => OpView::Subject(v@),
            SearchOp::Body(v) => OpView::Body(v@),
            SearchOp::Attachment(v) => OpView::Attachment(v@),
            SearchOp::HasAttachment => OpView::HasAttachment,
            SearchOp::IsUnread => OpView::IsUnread,
            SearchOp::IsFlagged => OpView::IsFlagged,
            SearchOp::Before(d) => OpView::Before(*d),
            SearchOp::After(d) => OpView::After(*d),
            SearchOp::Folder(v) => OpView::Folder(v@),
        }
    }
}

/// The views of a list of operators.
pub open spec fn op_views(ops: Seq<SearchOp>) -> Seq<OpView> {
    ops.map_values(|op: SearchOp| op@)
}

/// A parsed search query: the bare terms plus the typed operators.
#[derive(Debug, Clone, PartialEq, Eq)]
pub struct SearchQuery {
    /// Bare words, matched against every indexed field.
    pub terms: Vec<String>,
    /// The `key:value` operators and the flag operators, in input order.
    pub operators: Vec<SearchOp>,
}

/// What a [`SearchQuery`] stands for.
#[verifier::ext_equal]
pub struct QueryView {
    /// The bare terms.
    pub terms: Seq<Seq<char>>,
    /// The operators.
    pub operators: Seq<OpView>,
}

impl SearchQuery {
    /// What the query stands for.
    pub open spec fn view(&self) -> QueryView {
        QueryView { terms: views(self.terms@), operators: op_views(self.operators@) }
    }
}

/// The query that constrains nothing.
pub open spec fn empty_query() -> QueryView {
    QueryView { terms: Seq::empty(), operators: Seq::empty() }
}

// -- tokens ----------------------------------------------------------------

/// One whitespace-separated token, with its quotes already removed.
struct Token {
    /// The literal text, without its surrounding quotes.
    text: String,
    /// Whether the token *began* inside a quoted segment (`"a:b"` is a term,
    /// `subject:"a b"` is an operator).
    leading_quoted: bool,
}

/// What a token stands for.
#[verifier::ext_equal]
pub struct TokenView {
    /// The literal text.
    pub text: Seq<char>,
    /// Whether the token began inside quotes.
    pub leading_quoted: bool,
}

impl Token {
    spec fn view(&self) -> TokenView {
        TokenView { text: self.text@, leading_quoted: self.leading_quoted }
    }
}

spec fn token_views(tokens: Seq<Token>) -> Seq<TokenView> {
    tokens.map_values(|t: Token| t@)
}

spec fn current_view(current: Option<Token>) -> Option<TokenView> {
    match current {
        Some(t) => Some(t@),
        None => None,
    }
}

/// The token under construction after one more character of text.
pub open spec fn extended(current: Option<TokenView>, c: char) -> Option<TokenView> {
    match current {
        Some(t) => Some(TokenView { text: t.text.push(c), leading_quoted: t.leading_quoted }),
        None => Some(TokenView { text: seq![c], leading_quoted: false }),
    }
}

/// The token under construction after a quotation mark.
pub open spec fn touched(current: Option<TokenView>) -> Option<TokenView> {
    match current {
        Some(t) => Some(t),
        None => Some(TokenView { text: Seq::empty(), leading_quoted: true }),
    }
}

/// The tokens that `s` completes, given the token under construction and whether
/// a quoted segment is open. White space outside quotes ends a token; a quotation
/// mark opens or closes a segment and is itself dropped.
pub open spec fn tokens_from(s: Seq<char>, current: Option<TokenView>, quoted: bool) -> Seq<
    TokenView,
>
    decreases s.len(),
{
    if s.len() == 0 {
        match current {
            Some(t) => seq![t],
            None => Seq::empty(),
        }
    } else if s[0] == '"' {
        tokens_from(s.drop_first(), touched(current), !quoted)
    } else if is_blank(s[0]) && !quoted {
        match current {
            Some(t) => seq![t] + tokens_from(s.drop_first(), None, false),
            None => tokens_from(s.drop_first(), None, false),
        }
    } else {
        tokens_from(s.drop_first(), extended(current, s[0]), quoted)
    }
}

/// The tokens of a whole input.
pub open spec fn tokens_of(input: Seq<char>) -> Seq<TokenView> {
    tokens_from(input, None, false)
}

/// Split `input` on whitespace, keeping quoted segments together.
fn tokenize(input: &str) -> (result: Vec<Token>)
    ensures
        token_views(result@) == tokens_of(input@),
{
    let mut tokens: Vec<Token> = Vec::new();
    let mut current: Option<Token> = None;
    let mut quoted = false;
    proof {
        assert(input@.skip(0) =~= input@);
        assert(token_views(tokens@) + tokens_of(input@) =~= tokens_of(input@));
    }
    for ch in it: input.chars()
        invariant
            it.seq() == input@,
            token_views(tokens@) + tokens_from(
                input@.skip(it.index() as int),
                current_view(current),
                quoted,
            ) == tokens_of(input@),
    {
        let ghost rest = input@.skip(it.index() as int);
        let ghost next = input@.skip(it.index() + 1);
        let ghost done = token_views(tokens@);
        proof {
            assert(rest.drop_first() =~= next);
            assert(rest[0] == ch);
        }
        if ch == '"' {
            if current.is_none() {
                current = Some(Token { text: String::new(), leading_quoted: true });
            }
            quoted = !quoted;
        } else if blank(ch) && !quoted {
            match current {
                Some(token) => {
                    proof {
                        assert(token_views(tokens@.push(token)) =~= done.push(token@));
                        assert(done.push(token@) + tokens_from(next, None, false) =~= done + (
                        seq![token@] + tokens_from(next, None, false)));
                    }
                    tokens.push(token);
                },
                None => {},
            }
            current = None;
        } else {
            let mut token = match current {
                Some(token) => token,
                None => {
                    proof {
                        assert(Seq::<char>::empty().push(ch) =~= seq![ch]);
                    }
                    Token { text: String::new(), leading_quoted: false }
                },
            };
            token.text.push(ch);
            current = Some(token);
        }
    }
    proof {
        assert(input@.skip(input@.len() as int).len() == 0);
    }
    match current {
        Some(token) => {
            proof {
                assert(token_views(tokens@.push(token)) =~= token_views(tokens@) + seq![token@]);
            }
            tokens.push(token);
        },
        None => {},
    }
    proof {
        assert(token_views(tokens@) =~= tokens_of(input@));
    }
    tokens
}

// -- what a token means ----------------------------------------------------

/// What one token contributes to a query.
pub enum Meaning {
    /// Nothing at all: the token is empty.
    Nothing,
    /// Its text, as a bare term.
    Term,
    /// An operator.
    Operator(OpView),
    /// An error, with its message.
    Refused(Seq<char>),
}

/// Whether `key` is one of the text fields.
pub open spec fn is_text_key(key: Seq<char>) -> bool {
    key == "from"@ || key == "to"@ || key == "subject"@ || key == "body"@ || key == "attachment"@
        || key == "folder"@
}

/// Whether `key` is a key of the language.
pub open spec fn is_known_key(key: Seq<char>) -> bool {
    is_text_key(key) || key == "has"@ || key == "is"@ || key == "before"@ || key == "after"@
}

/// The operator that a text key with a value stands for.
pub open spec fn text_operator(key: Seq<char>, value: Seq<char>) -> OpView {
    if key == "from"@ {
        OpView::From(value)
    } else if key == "to"@ {
        OpView::To(value)
    } else if key == "subject"@ {
        OpView::Subject(value)
    } else if key == "body"@ {
        OpView::Body(value)
    } else if key == "attachment"@ {
        OpView::Attachment(value)
    } else {
        OpView::Folder(value)
    }
}

/// What `key:value` means; `key` is in lower case.
pub open spec fn keyed_meaning(key: Seq<char>, value: Seq<char>) -> Meaning {
    if !is_known_key(key) {
        Meaning::Term
    } else if value.len() == 0 {
        Meaning::Refused("the "@ + key + ": operator needs a value"@)
    } else if is_text_key(key) {
        Meaning::Operator(text_operator(key, value))
    } else if key == "has"@ {
        if lowered(value) == "attachment"@ {
            Meaning::Operator(OpView::HasAttachment)
        } else {
            Meaning::Term
        }
    } else if key == "is"@ {
        if lowered(value) == "unread"@ {
            Meaning::Operator(OpView::IsUnread)
        } else if lowered(value) == "flagged"@ {
            Meaning::Operator(OpView::IsFlagged)
        } else {
            Meaning::Term
        }
    } else {
        match date_named(value) {
            Some(date) => Meaning::Operator(
                if key == "before"@ {
                    OpView::Before(date)
                } else {
                    OpView::After(date)
                },
            ),
            None => Meaning::Refused(key + ":"@ + value + " is not a YYYY-MM-DD date"@),
        }
    }
}

/// Each key asks for what it says, whatever the value: the text keys for their own fields, `is` and
/// `has` for the flag or the thing that the value names, in any case of the letters, and the two
/// date keys for the days on either side of the one that the value names. What none of them is
/// becomes a term, and only a value that is missing or no date is refused.
pub proof fn law_each_key_asks_for_what_it_says(value: Seq<char>)
    requires
        value.len() > 0,
    ensures
        keyed_meaning("from"@, value) == Meaning::Operator(OpView::From(value)),
        keyed_meaning("to"@, value) == Meaning::Operator(OpView::To(value)),
        keyed_meaning("subject"@, value) == Meaning::Operator(OpView::Subject(value)),
        keyed_meaning("body"@, value) == Meaning::Operator(OpView::Body(value)),
        keyed_meaning("attachment"@, value) == Meaning::Operator(OpView::Attachment(value)),
        keyed_meaning("folder"@, value) == Meaning::Operator(OpView::Folder(value)),
        keyed_meaning("has"@, value) == (if lowered(value) == "attachment"@ {
            Meaning::Operator(OpView::HasAttachment)
        } else {
            Meaning::Term
        }),
        lowered(value) == "unread"@ ==> keyed_meaning("is"@, value) == Meaning::Operator(
            OpView::IsUnread,
        ),
        lowered(value) == "flagged"@ ==> keyed_meaning("is"@, value) == Meaning::Operator(
            OpView::IsFlagged,
        ),
        lowered(value) != "unread"@ && lowered(value) != "flagged"@ ==> keyed_meaning("is"@, value)
            == Meaning::Term,
        date_named(value) matches Some(date) ==> keyed_meaning("before"@, value)
            == Meaning::Operator(OpView::Before(date)) && keyed_meaning("after"@, value)
            == Meaning::Operator(OpView::After(date)),
        date_named(value) is None ==> keyed_meaning("before"@, value) is Refused && keyed_meaning(
            "after"@,
            value,
        ) is Refused,
{
    reveal_strlit("from");
    reveal_strlit("to");
    reveal_strlit("subject");
    reveal_strlit("body");
    reveal_strlit("attachment");
    reveal_strlit("folder");
    reveal_strlit("has");
    reveal_strlit("is");
    reveal_strlit("before");
    reveal_strlit("after");
    reveal_strlit("unread");
    reveal_strlit("flagged");
    assert("from"@.len() == 4 && "to"@.len() == 2 && "subject"@.len() == 7 && "body"@.len() == 4);
    assert("attachment"@.len() == 10 && "folder"@.len() == 6 && "has"@.len() == 3);
    assert("is"@.len() == 2 && "before"@.len() == 6 && "after"@.len() == 5);
    assert("unread"@.len() == 6 && "flagged"@.len() == 7);
    assert("from"@[0] == 'f' && "body"@[0] == 'b');
    assert("to"@[0] == 't' && "is"@[0] == 'i');
    assert("folder"@[0] == 'f' && "before"@[0] == 'b');
}

/// What a token means. One that began inside quotes is never an operator.
pub open spec fn meaning_of(token: TokenView) -> Meaning {
    if token.text.len() == 0 {
        Meaning::Nothing
    } else if token.leading_quoted {
        Meaning::Term
    } else {
        match split_at_first(token.text, ':') {
            None => Meaning::Term,
            Some((key, value)) => keyed_meaning(lowered(key), value),
        }
    }
}

/// The query after the tokens have been folded in, or the first error's message.
pub open spec fn folded(tokens: Seq<TokenView>, query: QueryView) -> Result<QueryView, Seq<char>>
    decreases tokens.len(),
{
    if tokens.len() == 0 {
        Ok(query)
    } else {
        let rest = tokens.drop_first();
        match meaning_of(tokens[0]) {
            Meaning::Nothing => folded(rest, query),
            Meaning::Term => folded(
                rest,
                QueryView { terms: query.terms.push(tokens[0].text), operators: query.operators },
            ),
            Meaning::Operator(op) => folded(
                rest,
                QueryView { terms: query.terms, operators: query.operators.push(op) },
            ),
            Meaning::Refused(message) => Err(message),
        }
    }
}

/// The query that an input stands for, or the message of the error it causes.
pub open spec fn parsed(input: Seq<char>) -> Result<QueryView, Seq<char>> {
    folded(tokens_of(input), empty_query())
}

/// What one token contributes to a query.
enum TokenMeaning {
    Nothing,
    Term,
    Operator(SearchOp),
    Refused(String),
}

impl TokenMeaning {
    spec fn view(&self) -> Meaning {
        match self {
            TokenMeaning::Nothing => Meaning::Nothing,
            TokenMeaning::Term => Meaning::Term,
            TokenMeaning::Operator(op) => Meaning::Operator(op@),
            TokenMeaning::Refused(message) => Meaning::Refused(message@),
        }
    }
}

/// The value of a known operator, refusing an empty one.
fn require_value(key: &str, value: &str) -> (result: Result<String, String>)
    ensures
        match result {
            Ok(v) => value@.len() > 0 && v@ == value@,
            Err(message) => value@.len() == 0 && message@ == "the "@ + key@
                + ": operator needs a value"@,
        },
{
    if value.is_empty() {
        let mut message = "the ".to_owned();
        message.append(key);
        message.append(": operator needs a value");
        return Err(message);
    }
    Ok(value.to_owned())
}

/// What `key:value` means; `key` is in lower case.
fn keyed(key: &str, value: &str) -> (result: TokenMeaning)
    ensures
        result@ == keyed_meaning(key@, value@),
{
    proof {
        reveal_strlit("from");
        reveal_strlit("to");
        reveal_strlit("subject");
        reveal_strlit("body");
        reveal_strlit("attachment");
        reveal_strlit("folder");
        reveal_strlit("has");
        reveal_strlit("is");
        reveal_strlit("before");
        reveal_strlit("after");
    }
    let textual = same(key, "from") || same(key, "to") || same(key, "subject") || same(key, "body")
        || same(key, "attachment") || same(key, "folder");
    let dated = same(key, "before") || same(key, "after");
    if !(textual || dated || same(key, "has") || same(key, "is")) {
        return TokenMeaning::Term;
    }
    let value = match require_value(key, value) {
        Ok(value) => value,
        Err(message) => {
            return TokenMeaning::Refused(message);
        },
    };
    if textual {
        let op = if same(key, "from") {
            SearchOp::From(value)
        } else if same(key, "to") {
            SearchOp::To(value)
        } else if same(key, "subject") {
            SearchOp::Subject(value)
        } else if same(key, "body") {
            SearchOp::Body(value)
        } else if same(key, "attachment") {
            SearchOp::Attachment(value)
        } else {
            SearchOp::Folder(value)
        };
        TokenMeaning::Operator(op)
    } else if same(key, "has") {
        if same(to_lower(value.as_str()).as_str(), "attachment") {
            TokenMeaning::Operator(SearchOp::HasAttachment)
        } else {
            TokenMeaning::Term
        }
    } else if same(key, "is") {
        let flag = to_lower(value.as_str());
        if same(flag.as_str(), "unread") {
            TokenMeaning::Operator(SearchOp::IsUnread)
        } else if same(flag.as_str(), "flagged") {
            TokenMeaning::Operator(SearchOp::IsFlagged)
        } else {
            TokenMeaning::Term
        }
    } else {
        match parse_date(value.as_str()) {
            Some(date) => TokenMeaning::Operator(
                if same(key, "before") {
                    SearchOp::Before(date)
                } else {
                    SearchOp::After(date)
                },
            ),
            None => {
                let mut message = key.to_owned();
                message.append(":");
                message.append(value.as_str());
                message.append(" is not a YYYY-MM-DD date");
                TokenMeaning::Refused(message)
            },
        }
    }
}

/// What a token means.
fn classify(token: &Token) -> (result: TokenMeaning)
    ensures
        result@ == meaning_of(token@),
{
    if token.text.as_str().is_empty() {
        return TokenMeaning::Nothing;
    }
    if token.leading_quoted {
        return TokenMeaning::Term;
    }
    match split_once(token.text.as_str(), ':') {
        None => TokenMeaning::Term,
        Some((key, value)) => keyed(to_lower(key.as_str()).as_str(), value.as_str()),
    }
}

/// Fold one token into the query under construction.
fn parse_token(token: &Token, query: &mut SearchQuery) -> (result: ClientResult<()>)
    ensures
        match meaning_of(token@) {
            Meaning::Nothing => result is Ok && final(query)@ == old(query)@,
            Meaning::Term => result is Ok && final(query)@ == (QueryView {
                terms: old(query)@.terms.push(token.text@),
                operators: old(query)@.operators,
            }),
            Meaning::Operator(op) => result is Ok && final(query)@ == (QueryView {
                terms: old(query)@.terms,
                operators: old(query)@.operators.push(op),
            }),
            Meaning::Refused(message) => {
                &&& result matches Err(ClientError::Invalid(m)) && m@ == message
                &&& final(query)@ == old(query)@
            },
        },
{
    match classify(token) {
        TokenMeaning::Nothing => Ok(()),
        TokenMeaning::Term => {
            query.terms.push(token.text.clone());
            proof {
                assert(final(query)@.terms =~= old(query)@.terms.push(token.text@));
            }
            Ok(())
        },
        TokenMeaning::Operator(op) => {
            let ghost op_view = op@;
            query.operators.push(op);
            proof {
                assert(final(query)@.operators =~= old(query)@.operators.push(op_view));
            }
            Ok(())
        },
        TokenMeaning::Refused(message) => Err(ClientError::Invalid(message)),
    }
}

impl Default for SearchQuery {
    fn default() -> (result: SearchQuery)
        ensures
            result@ == empty_query(),
    {
        let result = SearchQuery { terms: Vec::new(), operators: Vec::new() };
        proof {
            assert(result@.terms =~= Seq::empty());
            assert(result@.operators =~= Seq::empty());
        }
        result
    }
}

impl SearchQuery {
    /// Parse the query language.
    ///
    /// # Errors
    ///
    /// [`ClientError::Invalid`] when a *known* operator has an empty value
    /// (`from:`, `is:`, `has:`) or when `before:`/`after:` is not a `YYYY-MM-DD`
    /// date. An unknown key is never an error.
    pub fn parse(input: &str) -> (result: ClientResult<SearchQuery>)
        ensures
            match parsed(input@) {
                Ok(view) => result is Ok && result->Ok_0@ == view,
                Err(message) => result matches Err(ClientError::Invalid(m)) && m@ == message,
            },
    {
        let tokens = tokenize(input);
        let mut query = SearchQuery::default();
        let ghost all = token_views(tokens@);
        let mut i: usize = 0;
        proof {
            assert(all.skip(0) =~= all);
        }
        while i < tokens.len()
            invariant
                i <= tokens@.len(),
                all == token_views(tokens@),
                all == tokens_of(input@),
                folded(all.skip(i as int), query@) == parsed(input@),
            decreases tokens@.len() - i,
        {
            proof {
                assert(all.skip(i as int).drop_first() =~= all.skip(i + 1));
                assert(all.skip(i as int)[0] == tokens@[i as int]@);
            }
            match parse_token(&tokens[i], &mut query) {
                Ok(()) => {},
                Err(error) => {
                    return Err(error);
                },
            }
            i = i + 1;
        }
        proof {
            assert(all.skip(i as int).len() == 0);
        }
        Ok(query)
    }

    /// Whether the query constrains nothing: `parse("")`, or a string of blanks.
    ///
    /// An empty query is legal and matches nothing.
    pub fn is_empty(&self) -> (result: bool)
        ensures
            result == (self@ == empty_query()),
    {
        proof {
            if self.terms@.len() == 0 && self.operators@.len() == 0 {
                assert(self@.terms =~= Seq::empty());
                assert(self@.operators =~= Seq::empty());
            } else {
                assert(self@.terms.len() == self.terms@.len());
                assert(self@.operators.len() == self.operators@.len());
            }
        }
        self.terms.len() == 0 && self.operators.len() == 0
    }
}

// -- the wire form ---------------------------------------------------------

/// `text` between quotation marks.
pub open spec fn in_quotes(text: Seq<char>) -> Seq<char> {
    "\""@ + text + "\""@
}

/// Whether the text, written without quotes, would be read as something other
/// than a bare term.
pub open spec fn reads_as_operator(text: Seq<char>) -> bool {
    !text.contains('"') && !(meaning_of(TokenView { text, leading_quoted: false }) is Term)
}

/// A bare term on the wire: quoted when it is empty, contains white space, or
/// would otherwise be read as an operator.
pub open spec fn wire_term(term: Seq<char>) -> Seq<char> {
    if term.len() == 0 || has_blank(term) || reads_as_operator(term) {
        in_quotes(term)
    } else {
        term
    }
}

/// `key:value`, with the value quoted when it is empty or contains white space.
pub open spec fn wire_pair(key: Seq<char>, value: Seq<char>) -> Seq<char> {
    if value.len() == 0 || has_blank(value) {
        key + ":"@ + in_quotes(value)
    } else {
        key + ":"@ + value
    }
}

/// An operator on the wire.
pub open spec fn wire_op(op: OpView) -> Seq<char> {
    match op {
        OpView::From(value) => wire_pair("from"@, value),
        OpView::To(value) => wire_pair("to"@, value),
        OpView::Subject(value) => wire_pair("subject"@, value),
        OpView::Body(value) => wire_pair("body"@, value),
        OpView::Attachment(value) => wire_pair("attachment"@, value),
        OpView::HasAttachment => "has:attachment"@,
        OpView::IsUnread => "is:unread"@,
        OpView::IsFlagged => "is:flagged"@,
        OpView::Before(date) => "before:"@ + date_text(date),
        OpView::After(date) => "after:"@ + date_text(date),
        OpView::Folder(value) => wire_pair("folder"@, value),
    }
}

/// The parts of a query's wire form: the terms, then the operators.
pub open spec fn wire_parts(query: QueryView) -> Seq<Seq<char>> {
    query.terms.map_values(|t: Seq<char>| wire_term(t)) + query.operators.map_values(
        |op: OpView| wire_op(op),
    )
}

/// The wire form of a query.
pub open spec fn wire_of(query: QueryView) -> Seq<char> {
    joined(wire_parts(query), " "@)
}

/// Whether `text` holds a quotation mark.
fn has_quote(text: &str) -> (result: bool)
    ensures
        result == text@.contains('"'),
{
    let mut found = false;
    for c in it: text.chars()
        invariant
            it.seq() == text@,
            found == text@.take(it.index() as int).contains('"'),
    {
        proof {
            let before = text@.take(it.index() as int);
            let after = text@.take(it.index() + 1);
            assert(after =~= before.push(c));
            if before.contains('"') {
                let i = choose|i: int| 0 <= i < before.len() && before[i] == '"';
                assert(after[i] == '"');
            }
            if after.contains('"') {
                let i = choose|i: int| 0 <= i < after.len() && after[i] == '"';
                assert(i < before.len() ==> before[i] == '"');
            }
            assert(after[before.len() as int] == c);
        }
        if c == '"' {
            found = true;
        }
    }
    proof {
        assert(text@.take(text@.len() as int) =~= text@);
    }
    found
}

/// `text` between quotation marks.
fn quote(text: &str) -> (result: String)
    ensures
        result@ == in_quotes(text@),
{
    let mut out = "\"".to_owned();
    out.append(text);
    out.append("\"");
    out
}

/// Render a bare term for the wire.
fn render_term(term: &str) -> (result: String)
    ensures
        result@ == wire_term(term@),
{
    if term.is_empty() || any_blank(term) {
        return quote(term);
    }
    if !has_quote(term) {
        let token = Token { text: term.to_owned(), leading_quoted: false };
        match classify(&token) {
            TokenMeaning::Term => {},
            _ => {
                return quote(term);
            },
        }
    }
    term.to_owned()
}

/// `key:value`, with the value quoted when it contains whitespace.
fn render_key_value(key: &str, value: &str) -> (result: String)
    ensures
        result@ == wire_pair(key@, value@),
{
    let mut out = key.to_owned();
    out.append(":");
    if value.is_empty() || any_blank(value) {
        out.append(quote(value).as_str());
    } else {
        out.append(value);
    }
    out
}

/// `label` followed by the day.
fn render_date(label: &str, date: &Date) -> (result: String)
    ensures
        result@ == label@ + date_text(*date),
{
    let mut out = label.to_owned();
    out.append(date.to_string().as_str());
    out
}

/// Render an operator for the wire.
fn render_op(op: &SearchOp) -> (result: String)
    ensures
        result@ == wire_op(op@),
{
    match op {
        SearchOp::From(value) => render_key_value("from", value.as_str()),
        SearchOp::To(value) => render_key_value("to", value.as_str()),
        SearchOp::Subject(value) => render_key_value("subject", value.as_str()),
        SearchOp::Body(value) => render_key_value("body", value.as_str()),
        SearchOp::Attachment(value) => render_key_value("attachment", value.as_str()),
        SearchOp::HasAttachment => "has:attachment".to_owned(),
        SearchOp::IsUnread => "is:unread".to_owned(),
        SearchOp::IsFlagged => "is:flagged".to_owned(),
        SearchOp::Before(date) => render_date("before:", date),
        SearchOp::After(date) => render_date("after:", date),
        SearchOp::Folder(value) => render_key_value("folder", value.as_str()),
    }
}

impl SearchQuery {
    /// Render the query back to the `from:x subject:"y z"` form.
    ///
    /// This is what the server fallback sends as `q`: parsing it gives the query
    /// back for every query the parser can produce (see
    /// [`law_wire_round_trip`]). A value that contains a double quote is emitted
    /// without an escape, as the tokenizer has none for it.
    pub fn to_wire(&self) -> (result: String)
        ensures
            result@ == wire_of(self@),
    {
        let mut parts: Vec<String> = Vec::new();
        let ghost wanted = wire_parts(self@);
        let mut i: usize = 0;
        while i < self.terms.len()
            invariant
                i <= self.terms@.len(),
                wanted == wire_parts(self@),
                views(parts@) == wanted.take(i as int),
            decreases self.terms@.len() - i,
        {
            let part = render_term(self.terms[i].as_str());
            proof {
                assert(wanted[i as int] == part@);
                assert(views(parts@.push(part)) =~= views(parts@).push(part@));
                assert(wanted.take(i as int).push(part@) =~= wanted.take(i + 1));
            }
            parts.push(part);
            i = i + 1;
        }
        let mut j: usize = 0;
        while j < self.operators.len()
            invariant
                j <= self.operators@.len(),
                wanted == wire_parts(self@),
                views(parts@) == wanted.take(self.terms@.len() + j),
            decreases self.operators@.len() - j,
        {
            let part = render_op(&self.operators[j]);
            proof {
                assert(wanted[self.terms@.len() + j] == part@);
                assert(views(parts@.push(part)) =~= views(parts@).push(part@));
                assert(wanted.take(self.terms@.len() + j).push(part@) =~= wanted.take(
                    self.terms@.len() + j + 1,
                ));
            }
            parts.push(part);
            j = j + 1;
        }
        proof {
            assert(wanted.take(wanted.len() as int) =~= wanted);
        }
        join(&parts, " ")
    }
}

// -- the round trip --------------------------------------------------------

/// A value the tokenizer can produce: not empty, and without quotation marks.
pub open spec fn plain(text: Seq<char>) -> bool {
    text.len() > 0 && !text.contains('"')
}

/// An operator the parser can produce.
pub open spec fn plain_op(op: OpView) -> bool {
    match op {
        OpView::From(value) => plain(value),
        OpView::To(value) => plain(value),
        OpView::Subject(value) => plain(value),
        OpView::Body(value) => plain(value),
        OpView::Attachment(value) => plain(value),
        OpView::HasAttachment => true,
        OpView::IsUnread => true,
        OpView::IsFlagged => true,
        OpView::Before(date) => date_exists(date),
        OpView::After(date) => date_exists(date),
        OpView::Folder(value) => plain(value),
    }
}

/// A query whose values are all of the kind the parser produces.
pub open spec fn plain_query(query: QueryView) -> bool {
    &&& forall|i: int| 0 <= i < query.terms.len() ==> plain(#[trigger] query.terms[i])
    &&& forall|i: int| 0 <= i < query.operators.len() ==> plain_op(#[trigger] query.operators[i])
}

/// Whether a quoted segment is open after `s`.
spec fn open_after(s: Seq<char>, quoted: bool) -> bool
    decreases s.len(),
{
    if s.len() == 0 {
        quoted
    } else {
        open_after(
            s.drop_first(),
            if s[0] == '"' {
                !quoted
            } else {
                quoted
            },
        )
    }
}

proof fn lemma_open_after_concat(a: Seq<char>, b: Seq<char>, quoted: bool)
    ensures
        open_after(a + b, quoted) == open_after(b, open_after(a, quoted)),
    decreases a.len(),
{
    if a.len() == 0 {
        assert(a + b =~= b);
    } else {
        assert((a + b).drop_first() =~= a.drop_first() + b);
        lemma_open_after_concat(
            a.drop_first(),
            b,
            if a[0] == '"' {
                !quoted
            } else {
                quoted
            },
        );
    }
}

/// A blank outside quotes separates what comes before it from what follows.
proof fn lemma_tokens_separated(
    a: Seq<char>,
    b: Seq<char>,
    current: Option<TokenView>,
    quoted: bool,
)
    requires
        !open_after(a, quoted),
    ensures
        tokens_from(a + seq![' '] + b, current, quoted) == tokens_from(a, current, quoted)
            + tokens_from(b, None, false),
    decreases a.len(),
{
    let whole = a + seq![' '] + b;
    if a.len() == 0 {
        assert(whole.drop_first() =~= b);
        assert(whole[0] == ' ');
        assert(Seq::<TokenView>::empty() + tokens_from(b, None, false) =~= tokens_from(
            b,
            None,
            false,
        ));
    } else {
        let rest = a.drop_first();
        assert(whole.drop_first() =~= rest + seq![' '] + b);
        assert(whole[0] == a[0]);
        if a[0] == '"' {
            lemma_tokens_separated(rest, b, touched(current), !quoted);
        } else if is_blank(a[0]) && !quoted {
            lemma_tokens_separated(rest, b, None, false);
            match current {
                Some(t) => {
                    assert(seq![t] + (tokens_from(rest, None, false) + tokens_from(b, None, false))
                        =~= (seq![t] + tokens_from(rest, None, false)) + tokens_from(
                        b,
                        None,
                        false,
                    ));
                },
                None => {},
            }
        } else {
            lemma_tokens_separated(rest, b, extended(current, a[0]), quoted);
        }
    }
}

/// A run of ordinary characters is added to the token under construction.
proof fn lemma_tokens_run(run: Seq<char>, rest: Seq<char>, t: TokenView, quoted: bool)
    requires
        !run.contains('"'),
        quoted || !has_blank(run),
    ensures
        tokens_from(run + rest, Some(t), quoted) == tokens_from(
            rest,
            Some(TokenView { text: t.text + run, leading_quoted: t.leading_quoted }),
            quoted,
        ),
        open_after(run + rest, quoted) == open_after(rest, quoted),
    decreases run.len(),
{
    if run.len() == 0 {
        assert(run + rest =~= rest);
        assert(t.text + run =~= t.text);
    } else {
        let tail = run.drop_first();
        assert((run + rest).drop_first() =~= tail + rest);
        assert(run.contains(run[0]));
        assert(!tail.contains('"')) by {
            if tail.contains('"') {
                let i = choose|i: int| 0 <= i < tail.len() && tail[i] == '"';
                assert(run[i + 1] == '"');
            }
        }
        assert(quoted || !has_blank(tail)) by {
            if has_blank(tail) {
                let i = choose|i: int| 0 <= i < tail.len() && is_blank(#[trigger] tail[i]);
                assert(is_blank(run[i + 1]));
            }
        }
        if !quoted {
            assert(!is_blank(run[0]));
        }
        let grown = TokenView { text: t.text.push(run[0]), leading_quoted: t.leading_quoted };
        lemma_tokens_run(tail, rest, grown, quoted);
        assert(grown.text + tail =~= t.text + run);
    }
}

/// An unquoted word is one token.
proof fn lemma_word(word: Seq<char>, rest: Seq<char>)
    requires
        plain(word),
        !has_blank(word),
    ensures
        tokens_from(word + rest, None, false) == tokens_from(
            rest,
            Some(TokenView { text: word, leading_quoted: false }),
            false,
        ),
        open_after(word + rest, false) == open_after(rest, false),
{
    let tail = word.drop_first();
    assert(word.contains(word[0]));
    assert(!is_blank(word[0]));
    assert((word + rest).drop_first() =~= tail + rest);
    assert(!tail.contains('"')) by {
        if tail.contains('"') {
            let i = choose|i: int| 0 <= i < tail.len() && tail[i] == '"';
            assert(word[i + 1] == '"');
        }
    }
    assert(!has_blank(tail)) by {
        if has_blank(tail) {
            let i = choose|i: int| 0 <= i < tail.len() && is_blank(#[trigger] tail[i]);
            assert(is_blank(word[i + 1]));
        }
    }
    lemma_tokens_run(
        tail,
        rest,
        TokenView { text: seq![word[0]], leading_quoted: false },
        false,
    );
    assert(seq![word[0]] + tail =~= word);
}

/// A quoted segment adds its text to the token.
proof fn lemma_segment(text: Seq<char>, current: Option<TokenView>)
    requires
        !text.contains('"'),
    ensures
        tokens_from(in_quotes(text), current, false) == seq![
            TokenView {
                text: touched(current)->0.text + text,
                leading_quoted: touched(current)->0.leading_quoted,
            },
        ],
        !open_after(in_quotes(text), false),
{
    reveal_strlit("\"");
    let q = "\""@;
    let whole = in_quotes(text);
    assert(whole.drop_first() =~= text + q);
    assert(whole[0] == '"');
    lemma_tokens_run(text, q, touched(current)->0, true);
    assert(q.drop_first() =~= Seq::<char>::empty());
    let grown = TokenView {
        text: touched(current)->0.text + text,
        leading_quoted: touched(current)->0.leading_quoted,
    };
    assert(tokens_from(q.drop_first(), Some(grown), false) == seq![grown]);
    assert(open_after(q.drop_first(), false) == false);
    assert(open_after(q, true) == open_after(q.drop_first(), false));
}

/// The token that a term is read back as.
spec fn term_token(term: Seq<char>) -> TokenView {
    TokenView {
        text: term,
        leading_quoted: term.len() == 0 || has_blank(term) || reads_as_operator(term),
    }
}

proof fn lemma_term_read_back(term: Seq<char>)
    requires
        plain(term),
    ensures
        tokens_of(wire_term(term)) == seq![term_token(term)],
        !open_after(wire_term(term), false),
        meaning_of(term_token(term)) == Meaning::Term,
{
    if has_blank(term) || reads_as_operator(term) {
        lemma_segment(term, None);
        assert(Seq::<char>::empty() + term =~= term);
    } else {
        lemma_word(term, Seq::empty());
        assert(term + Seq::<char>::empty() =~= term);
    }
}

/// `key:value` as one token.
proof fn lemma_pair_read_back(key: Seq<char>, value: Seq<char>)
    requires
        plain(key),
        !has_blank(key),
        plain(value),
    ensures
        tokens_of(wire_pair(key, value)) == seq![
            TokenView { text: key + ":"@ + value, leading_quoted: false },
        ],
        !open_after(wire_pair(key, value), false),
{
    reveal_strlit(":");
    let head = key + ":"@;
    assert(!head.contains('"')) by {
        if head.contains('"') {
            let i = choose|i: int| 0 <= i < head.len() && head[i] == '"';
            assert(key[i] == '"');
        }
    }
    assert(!has_blank(head)) by {
        if has_blank(head) {
            let i = choose|i: int| 0 <= i < head.len() && is_blank(#[trigger] head[i]);
            assert(is_blank(key[i]));
        }
    }
    if has_blank(value) {
        lemma_word(head, in_quotes(value));
        lemma_segment(value, Some(TokenView { text: head, leading_quoted: false }));
    } else {
        let word = head + value;
        assert(!word.contains('"')) by {
            if word.contains('"') {
                let i = choose|i: int| 0 <= i < word.len() && word[i] == '"';
                if i < head.len() {
                    assert(head[i] == '"');
                } else {
                    assert(value[i - head.len()] == '"');
                }
            }
        }
        assert(!has_blank(word)) by {
            if has_blank(word) {
                let i = choose|i: int| 0 <= i < word.len() && is_blank(#[trigger] word[i]);
                if i < head.len() {
                    assert(is_blank(head[i]));
                } else {
                    assert(is_blank(value[i - head.len()]));
                }
            }
        }
        lemma_word(word, Seq::empty());
        assert(word + Seq::<char>::empty() =~= word);
    }
}

/// A key in lower case, followed by a colon, is found again as the key.
proof fn lemma_pair_meaning(key: Seq<char>, value: Seq<char>)
    requires
        key.len() > 0,
        !key.contains(':'),
        lowered(key) == key,
    ensures
        meaning_of(TokenView { text: key + ":"@ + value, leading_quoted: false }) == keyed_meaning(
            key,
            value,
        ),
{
    reveal_strlit(":");
    let text = key + ":"@ + value;
    let n = key.len() as int;
    assert forall|j: int| 0 <= j < n implies text[j] != ':' by {
        assert(key.contains(key[j]));
    }
    crate::text::lemma_first_index_is(text, ':', n);
    assert(text.subrange(0, n) =~= key);
    assert(text.subrange(n + 1, text.len() as int) =~= value);
}

/// What every key of the language has in common.
proof fn lemma_key_shape(key: Seq<char>)
    requires
        is_known_key(key),
    ensures
        plain(key),
        !has_blank(key),
        !key.contains(':'),
        lowered(key) == key,
{
    reveal_strlit("from");
    reveal_strlit("to");
    reveal_strlit("subject");
    reveal_strlit("body");
    reveal_strlit("attachment");
    reveal_strlit("folder");
    reveal_strlit("has");
    reveal_strlit("is");
    reveal_strlit("before");
    reveal_strlit("after");
    assert forall|i: int| 0 <= i < key.len() implies 'a' <= #[trigger] key[i] <= 'z' by {}
    assert(lowered(key) =~= key);
}

/// The token that an operator is read back as.
spec fn op_token(op: OpView) -> TokenView {
    let text = match op {
        OpView::From(value) => "from"@ + ":"@ + value,
        OpView::To(value) => "to"@ + ":"@ + value,
        OpView::Subject(value) => "subject"@ + ":"@ + value,
        OpView::Body(value) => "body"@ + ":"@ + value,
        OpView::Attachment(value) => "attachment"@ + ":"@ + value,
        OpView::HasAttachment => "has"@ + ":"@ + "attachment"@,
        OpView::IsUnread => "is"@ + ":"@ + "unread"@,
        OpView::IsFlagged => "is"@ + ":"@ + "flagged"@,
        OpView::Before(date) => "before"@ + ":"@ + date_text(date),
        OpView::After(date) => "after"@ + ":"@ + date_text(date),
        OpView::Folder(value) => "folder"@ + ":"@ + value,
    };
    TokenView { text, leading_quoted: false }
}

/// Any operator that is written as `key:value` is read back as that pair.
proof fn lemma_pair(key: Seq<char>, value: Seq<char>)
    requires
        is_known_key(key),
        plain(value),
    ensures
        tokens_of(wire_pair(key, value)) == seq![
            TokenView { text: key + ":"@ + value, leading_quoted: false },
        ],
        !open_after(wire_pair(key, value), false),
        meaning_of(TokenView { text: key + ":"@ + value, leading_quoted: false }) == keyed_meaning(
            key,
            value,
        ),
{
    lemma_key_shape(key);
    lemma_pair_read_back(key, value);
    lemma_pair_meaning(key, value);
}

proof fn lemma_text_op_read_back(key: Seq<char>, value: Seq<char>)
    requires
        is_text_key(key),
        plain(value),
    ensures
        tokens_of(wire_pair(key, value)) == seq![
            TokenView { text: key + ":"@ + value, leading_quoted: false },
        ],
        !open_after(wire_pair(key, value), false),
        meaning_of(TokenView { text: key + ":"@ + value, leading_quoted: false })
            == Meaning::Operator(text_operator(key, value)),
{
    lemma_pair(key, value);
}

/// The fixed words after `has:` and `is:`.
proof fn lemma_flag_words()
    ensures
        plain("attachment"@) && !has_blank("attachment"@),
        plain("unread"@) && !has_blank("unread"@),
        plain("flagged"@) && !has_blank("flagged"@),
        lowered("attachment"@) == "attachment"@,
        lowered("unread"@) == "unread"@,
        lowered("flagged"@) == "flagged"@,
        "unread"@ != "flagged"@,
        "has:attachment"@ == "has"@ + ":"@ + "attachment"@,
        "is:unread"@ == "is"@ + ":"@ + "unread"@,
        "is:flagged"@ == "is"@ + ":"@ + "flagged"@,
        "before:"@ == "before"@ + ":"@,
        "after:"@ == "after"@ + ":"@,
        "has"@ != "is"@ && "before"@ != "after"@,
        !is_text_key("has"@) && !is_text_key("is"@),
        !is_text_key("before"@) && !is_text_key("after"@),
        "has"@ != "before"@ && "has"@ != "after"@ && "is"@ != "before"@ && "is"@ != "after"@,
{
    reveal_strlit("from");
    reveal_strlit("to");
    reveal_strlit("subject");
    reveal_strlit("body");
    reveal_strlit("folder");
    reveal_strlit("has");
    reveal_strlit("is");
    reveal_strlit("before");
    reveal_strlit("after");
    reveal_strlit("before:");
    reveal_strlit("after:");
    reveal_strlit(":");
    reveal_strlit("attachment");
    reveal_strlit("unread");
    reveal_strlit("flagged");
    reveal_strlit("has:attachment");
    reveal_strlit("is:unread");
    reveal_strlit("is:flagged");
    assert(lowered("attachment"@) =~= "attachment"@);
    assert(lowered("unread"@) =~= "unread"@);
    assert(lowered("flagged"@) =~= "flagged"@);
    assert("has:attachment"@ =~= "has"@ + ":"@ + "attachment"@);
    assert("is:unread"@ =~= "is"@ + ":"@ + "unread"@);
    assert("is:flagged"@ =~= "is"@ + ":"@ + "flagged"@);
    assert("before:"@ =~= "before"@ + ":"@);
    assert("after:"@ =~= "after"@ + ":"@);
    assert("unread"@.len() != "flagged"@.len());
    assert("before"@.len() != "after"@.len());
    assert("has"@.len() == 3 && "is"@.len() == 2);
    assert("to"@[0] == 't' && "is"@[0] == 'i');
    assert("before"@[0] == 'b' && "folder"@[0] == 'f');
    assert("after"@.len() == 5);
}

proof fn lemma_op_read_back(op: OpView)
    requires
        plain_op(op),
    ensures
        tokens_of(wire_op(op)) == seq![op_token(op)],
        !open_after(wire_op(op), false),
        meaning_of(op_token(op)) == Meaning::Operator(op),
{
    lemma_flag_words();
    match op {
        OpView::From(value) => {
            lemma_text_op_read_back("from"@, value);
        },
        OpView::To(value) => {
            lemma_text_op_read_back("to"@, value);
            lemma_text_keys_differ();
        },
        OpView::Subject(value) => {
            lemma_text_op_read_back("subject"@, value);
            lemma_text_keys_differ();
        },
        OpView::Body(value) => {
            lemma_text_op_read_back("body"@, value);
            lemma_text_keys_differ();
        },
        OpView::Attachment(value) => {
            lemma_text_op_read_back("attachment"@, value);
            lemma_text_keys_differ();
        },
        OpView::Folder(value) => {
            lemma_text_op_read_back("folder"@, value);
            lemma_text_keys_differ();
        },
        OpView::HasAttachment => {
            lemma_pair("has"@, "attachment"@);
        },
        OpView::IsUnread => {
            lemma_pair("is"@, "unread"@);
        },
        OpView::IsFlagged => {
            lemma_pair("is"@, "flagged"@);
        },
        OpView::Before(date) => {
            lemma_date_value(date);
            lemma_pair("before"@, date_text(date));
            assert("before:"@ + date_text(date) == wire_pair("before"@, date_text(date)));
        },
        OpView::After(date) => {
            lemma_date_value(date);
            lemma_pair("after"@, date_text(date));
            assert("after:"@ + date_text(date) == wire_pair("after"@, date_text(date)));
        },
    }
}

/// The text keys are six different words.
proof fn lemma_text_keys_differ()
    ensures
        "to"@ != "from"@,
        "subject"@ != "from"@ && "subject"@ != "to"@,
        "body"@ != "from"@ && "body"@ != "to"@ && "body"@ != "subject"@,
        "attachment"@ != "from"@ && "attachment"@ != "to"@ && "attachment"@ != "subject"@
            && "attachment"@ != "body"@,
        "folder"@ != "from"@ && "folder"@ != "to"@ && "folder"@ != "subject"@ && "folder"@
            != "body"@ && "folder"@ != "attachment"@,
{
    reveal_strlit("from");
    reveal_strlit("to");
    reveal_strlit("subject");
    reveal_strlit("body");
    reveal_strlit("attachment");
    reveal_strlit("folder");
    assert("from"@[0] == 'f' && "body"@[0] == 'b');
    assert("from"@.len() == 4 && "to"@.len() == 2 && "subject"@.len() == 7);
    assert("body"@.len() == 4 && "attachment"@.len() == 10 && "folder"@.len() == 6);
}

/// The day of a date operator survives the trip.
proof fn lemma_date_value(date: Date)
    requires
        date_exists(date),
    ensures
        plain(date_text(date)),
        !has_blank(date_text(date)),
        date_named(date_text(date)) == Some(date),
{
    let t = date_text(date);
    crate::date::lemma_date_text_plain(date);
    crate::date::law_date_round_trip(date);
    if t.contains('"') {
        let i = choose|i: int| 0 <= i < t.len() && t[i] == '"';
        assert(crate::text::is_digit(t[i]) || t[i] == '-' || t[i] == '+');
    }
}

/// Parts that are one token each give those tokens when they are joined.
proof fn lemma_tokens_joined(parts: Seq<Seq<char>>, tokens: Seq<TokenView>)
    requires
        parts.len() == tokens.len(),
        forall|i: int|
            0 <= i < parts.len() ==> tokens_of(#[trigger] parts[i]) == seq![tokens[i]]
                && !open_after(parts[i], false),
    ensures
        tokens_of(joined(parts, " "@)) == tokens,
        !open_after(joined(parts, " "@), false),
    decreases parts.len(),
{
    reveal_strlit(" ");
    assert(" "@ =~= seq![' ']);
    if parts.len() == 0 {
        assert(tokens =~= Seq::empty());
    } else if parts.len() == 1 {
        assert(tokens_of(parts[0]) == seq![tokens[0]]);
        assert(tokens =~= seq![tokens[0]]);
    } else {
        let head = parts.drop_last();
        let n = parts.len() - 1;
        assert forall|i: int| 0 <= i < head.len() implies tokens_of(#[trigger] head[i]) == seq![
            tokens.drop_last()[i],
        ] && !open_after(head[i], false) by {
            assert(head[i] == parts[i]);
        }
        lemma_tokens_joined(head, tokens.drop_last());
        let before = joined(head, " "@);
        let last = parts[n];
        assert(tokens_of(last) == seq![tokens[n]]);
        lemma_tokens_separated(before, last, None, false);
        lemma_open_after_concat(before, " "@, false);
        lemma_open_after_concat(before + " "@, last, false);
        assert(open_after(" "@.drop_first(), false) == false);
        assert(tokens.drop_last() + seq![tokens[n]] =~= tokens);
    }
}

/// Folding term tokens adds their texts, in order.
proof fn lemma_fold_terms(terms: Seq<Seq<char>>, rest: Seq<TokenView>, query: QueryView)
    requires
        forall|i: int| 0 <= i < terms.len() ==> plain(#[trigger] terms[i]),
    ensures
        folded(terms.map_values(|t: Seq<char>| term_token(t)) + rest, query) == folded(
            rest,
            QueryView { terms: query.terms + terms, operators: query.operators },
        ),
    decreases terms.len(),
{
    let all = terms.map_values(|t: Seq<char>| term_token(t)) + rest;
    if terms.len() == 0 {
        assert(all =~= rest);
        assert(query.terms + terms =~= query.terms);
    } else {
        let tail = terms.drop_first();
        assert forall|i: int| 0 <= i < tail.len() implies plain(#[trigger] tail[i]) by {
            assert(tail[i] == terms[i + 1]);
        }
        assert(all.drop_first() =~= tail.map_values(|t: Seq<char>| term_token(t)) + rest);
        lemma_term_read_back(terms[0]);
        let grown = QueryView {
            terms: query.terms.push(terms[0]),
            operators: query.operators,
        };
        lemma_fold_terms(tail, rest, grown);
        assert(grown.terms + tail =~= query.terms + terms);
    }
}

/// Folding operator tokens adds the operators, in order.
proof fn lemma_fold_ops(ops: Seq<OpView>, query: QueryView)
    requires
        forall|i: int| 0 <= i < ops.len() ==> plain_op(#[trigger] ops[i]),
    ensures
        folded(ops.map_values(|op: OpView| op_token(op)), query)
            == Ok::<QueryView, Seq<char>>(
            QueryView { terms: query.terms, operators: query.operators + ops },
        ),
    decreases ops.len(),
{
    let all = ops.map_values(|op: OpView| op_token(op));
    if ops.len() == 0 {
        assert(query.operators + ops =~= query.operators);
    } else {
        let tail = ops.drop_first();
        assert forall|i: int| 0 <= i < tail.len() implies plain_op(#[trigger] tail[i]) by {
            assert(tail[i] == ops[i + 1]);
        }
        assert(all.drop_first() =~= tail.map_values(|op: OpView| op_token(op)));
        lemma_op_read_back(ops[0]);
        let grown = QueryView { terms: query.terms, operators: query.operators.push(ops[0]) };
        lemma_fold_ops(tail, grown);
        assert(grown.operators + tail =~= query.operators + ops);
    }
}

/// The wire form of a query reads back as that query.
pub proof fn law_wire_reads_back(query: QueryView)
    requires
        plain_query(query),
    ensures
        parsed(wire_of(query)) == Ok::<QueryView, Seq<char>>(query),
{
    let term_tokens = query.terms.map_values(|t: Seq<char>| term_token(t));
    let op_tokens = query.operators.map_values(|op: OpView| op_token(op));
    let tokens = term_tokens + op_tokens;
    let parts = wire_parts(query);
    assert forall|i: int| 0 <= i < parts.len() implies tokens_of(#[trigger] parts[i]) == seq![
        tokens[i],
    ] && !open_after(parts[i], false) by {
        let n = query.terms.len();
        if i < n {
            assert(plain(query.terms[i]));
            lemma_term_read_back(query.terms[i]);
        } else {
            assert(plain_op(query.operators[i - n]));
            lemma_op_read_back(query.operators[i - n]);
        }
    }
    lemma_tokens_joined(parts, tokens);
    lemma_fold_terms(query.terms, op_tokens, empty_query());
    assert(empty_query().terms + query.terms =~= query.terms);
    lemma_fold_ops(
        query.operators,
        QueryView { terms: query.terms, operators: Seq::empty() },
    );
    assert(Seq::<OpView>::empty() + query.operators =~= query.operators);
}

/// Whether no token holds a quotation mark.
spec fn unquoted(tokens: Seq<TokenView>) -> bool {
    forall|i: int| 0 <= i < tokens.len() ==> !(#[trigger] tokens[i]).text.contains('"')
}

/// No token keeps a quotation mark.
proof fn lemma_tokens_unquoted(s: Seq<char>, current: Option<TokenView>, quoted: bool)
    requires
        current matches Some(t) ==> !t.text.contains('"'),
    ensures
        unquoted(tokens_from(s, current, quoted)),
    decreases s.len(),
{
    if s.len() > 0 {
        let rest = s.drop_first();
        if s[0] == '"' {
            lemma_tokens_unquoted(rest, touched(current), !quoted);
        } else if is_blank(s[0]) && !quoted {
            lemma_tokens_unquoted(rest, None, false);
            let tail = tokens_from(rest, None, false);
            match current {
                Some(t) => {
                    let all = seq![t] + tail;
                    assert forall|i: int| 0 <= i < all.len() implies !(#[trigger] all[i]).text.contains(
                        '"',
                    ) by {
                        if i > 0 {
                            assert(all[i] == tail[i - 1]);
                        }
                    }
                },
                None => {},
            }
        } else {
            let next = extended(current, s[0])->0;
            if next.text.contains('"') {
                let i = choose|i: int| 0 <= i < next.text.len() && next.text[i] == '"';
                match current {
                    Some(t) => {
                        assert(i < t.text.len() ==> t.text[i] == '"');
                    },
                    None => {},
                }
            }
            lemma_tokens_unquoted(rest, extended(current, s[0]), quoted);
        }
    }
}

/// What a token without quotation marks contributes is plain.
proof fn lemma_meaning_plain(token: TokenView)
    requires
        !token.text.contains('"'),
    ensures
        meaning_of(token) is Term ==> plain(token.text),
        meaning_of(token) matches Meaning::Operator(op) ==> plain_op(op),
{
    match split_at_first(token.text, ':') {
        Some((key, value)) => {
            crate::text::lemma_first_index(token.text, ':');
            let n = token.text.len() - value.len();
            if value.contains('"') {
                let i = choose|i: int| 0 <= i < value.len() && value[i] == '"';
                assert(token.text[n + i] == '"');
            }
        },
        None => {},
    }
}

proof fn lemma_folded_plain(tokens: Seq<TokenView>, query: QueryView)
    requires
        plain_query(query),
        unquoted(tokens),
    ensures
        folded(tokens, query) matches Ok(result) ==> plain_query(result),
    decreases tokens.len(),
{
    if tokens.len() > 0 {
        let rest = tokens.drop_first();
        assert forall|i: int| 0 <= i < rest.len() implies !(#[trigger] rest[i]).text.contains(
            '"',
        ) by {
            assert(rest[i] == tokens[i + 1]);
        }
        assert(!tokens[0].text.contains('"'));
        lemma_meaning_plain(tokens[0]);
        match meaning_of(tokens[0]) {
            Meaning::Nothing => {
                lemma_folded_plain(rest, query);
            },
            Meaning::Term => {
                let grown = QueryView {
                    terms: query.terms.push(tokens[0].text),
                    operators: query.operators,
                };
                lemma_folded_plain(rest, grown);
            },
            Meaning::Operator(op) => {
                let grown = QueryView {
                    terms: query.terms,
                    operators: query.operators.push(op),
                };
                lemma_folded_plain(rest, grown);
            },
            Meaning::Refused(_) => {},
        }
    }
}

/// The round trip: for every query the parser can produce, parsing its wire form
/// gives the query back, so the wire form is a fixed point.
pub proof fn law_wire_round_trip(input: Seq<char>)
    requires
        parsed(input) is Ok,
    ensures
        parsed(wire_of(parsed(input)->Ok_0)) == parsed(input),
        wire_of(parsed(wire_of(parsed(input)->Ok_0))->Ok_0) == wire_of(parsed(input)->Ok_0),
{
    lemma_tokens_unquoted(input, None, false);
    lemma_folded_plain(tokens_of(input), empty_query());
    law_wire_reads_back(parsed(input)->Ok_0);
}

/// An unknown key is not an error: a token without a key of the language is a bare term,
/// colon and all.
pub proof fn law_unknown_keys_are_terms(token: TokenView)
    requires
        token.text.len() > 0,
        split_at_first(token.text, ':') matches Some((key, _)) ==> !is_known_key(lowered(key)),
    ensures
        meaning_of(token) == Meaning::Term,
{
}

/// A query is refused only for one of its tokens: for a key of the language without a
/// value, or for a `before:` or `after:` whose value is no date.
pub proof fn law_only_a_bad_value_is_refused(input: Seq<char>)
    requires
        parsed(input) is Err,
    ensures
        exists|i: int|
            0 <= i < tokens_of(input).len() && bad_value(#[trigger] tokens_of(input)[i])
                && meaning_of(tokens_of(input)[i]) == Meaning::Refused(parsed(input)->Err_0),
{
    let i = lemma_refused_token(tokens_of(input), empty_query());
    assert(bad_value(tokens_of(input)[i]));
}

/// Whether a token is an operator with a value that it cannot have.
pub open spec fn bad_value(token: TokenView) -> bool {
    &&& !token.leading_quoted
    &&& split_at_first(token.text, ':') matches Some((key, value)) && is_known_key(lowered(key))
        && (value.len() == 0 || ((lowered(key) == "before"@ || lowered(key) == "after"@)
        && date_named(value) is None))
}

/// The token that a fold was refused for.
proof fn lemma_refused_token(tokens: Seq<TokenView>, query: QueryView) -> (i: int)
    requires
        folded(tokens, query) is Err,
    ensures
        0 <= i < tokens.len(),
        meaning_of(tokens[i]) == Meaning::Refused(folded(tokens, query)->Err_0),
    decreases tokens.len(),
{
    let rest = tokens.drop_first();
    match meaning_of(tokens[0]) {
        Meaning::Nothing => 1 + lemma_refused_token(rest, query),
        Meaning::Term => 1 + lemma_refused_token(
            rest,
            QueryView { terms: query.terms.push(tokens[0].text), operators: query.operators },
        ),
        Meaning::Operator(op) => 1 + lemma_refused_token(
            rest,
            QueryView { terms: query.terms, operators: query.operators.push(op) },
        ),
        Meaning::Refused(_) => 0,
    }
}

// -- the SQL of a query ----------------------------------------------------

/// Which field a text clause searches.
#[derive(Debug, Clone, Copy, PartialEq, Eq, Structural)]
pub enum TextTarget {
    /// Every indexed field: what a bare term gets.
    Any,
    /// The subject.
    Subject,
    /// The sender.
    Sender,
    /// The recipients.
    Recipients,
    /// The text body.
    Body,
    /// Attachment file names.
    Attachments,
}

/// One condition of a `WHERE` clause, with the parameters of its `?` marks.
pub struct PieceView {
    /// The SQL of the condition.
    pub clause: Seq<char>,
    /// Its parameters, in order.
    pub binds: Seq<BindView>,
}

/// The conditions of a list of pieces.
pub open spec fn piece_clauses(pieces: Seq<PieceView>) -> Seq<Seq<char>> {
    pieces.map_values(|p: PieceView| p.clause)
}

/// The parameters of a list of pieces, one after the other.
pub open spec fn piece_binds(pieces: Seq<PieceView>) -> Seq<BindView>
    decreases pieces.len(),
{
    if pieces.len() == 0 {
        Seq::empty()
    } else {
        piece_binds(pieces.drop_last()) + pieces.last().binds
    }
}

/// The text part of the operators: which field to search, and what for.
pub open spec fn text_operators(ops: Seq<OpView>) -> Seq<(TextTarget, Seq<char>)>
    decreases ops.len(),
{
    if ops.len() == 0 {
        Seq::empty()
    } else {
        let before = text_operators(ops.drop_last());
        match ops.last() {
            OpView::From(value) => before.push((TextTarget::Sender, value)),
            OpView::To(value) => before.push((TextTarget::Recipients, value)),
            OpView::Subject(value) => before.push((TextTarget::Subject, value)),
            OpView::Body(value) => before.push((TextTarget::Body, value)),
            OpView::Attachment(value) => before.push((TextTarget::Attachments, value)),
            _ => before,
        }
    }
}

/// The text part of a query: which field to search, and what for.
pub open spec fn text_part(query: QueryView) -> Seq<(TextTarget, Seq<char>)> {
    query.terms.map_values(|t: Seq<char>| (TextTarget::Any, t)) + text_operators(query.operators)
}

/// A value as an FTS5 string.
pub open spec fn fts_literal(value: Seq<char>) -> Seq<char> {
    "\""@ + fts_escaped(value) + "\""@
}

/// One FTS5 condition: the value as a phrase, in one column or in any of the five.
pub open spec fn fts_condition(target: TextTarget, value: Seq<char>) -> Seq<char> {
    let literal = fts_literal(value);
    match target {
        TextTarget::Any => "(subject:"@ + literal + " OR sender:"@ + literal + " OR recipients:"@
            + literal + " OR body:"@ + literal + " OR attachments:"@ + literal + ")"@,
        TextTarget::Subject => "subject:"@ + literal,
        TextTarget::Sender => "sender:"@ + literal,
        TextTarget::Recipients => "recipients:"@ + literal,
        TextTarget::Body => "body:"@ + literal,
        TextTarget::Attachments => "attachments:"@ + literal,
    }
}

/// The FTS5 conditions of the values that are not empty.
pub open spec fn fts_conditions(text: Seq<(TextTarget, Seq<char>)>) -> Seq<Seq<char>>
    decreases text.len(),
{
    if text.len() == 0 {
        Seq::empty()
    } else {
        let before = fts_conditions(text.drop_last());
        if text.last().1.len() == 0 {
            before
        } else {
            before.push(fts_condition(text.last().0, text.last().1))
        }
    }
}

/// A condition that is true for nothing.
pub open spec fn never() -> PieceView {
    PieceView { clause: "0 = 1"@, binds: Seq::empty() }
}

/// The condition on the index: `messages_fts` holds the account as text, and the
/// message id is cast so that the comparison holds whichever storage class the row
/// has.
pub open spec fn fts_subquery() -> Seq<char> {
    "m.id IN (SELECT CAST(message_id AS INTEGER) FROM messages_fts WHERE messages_fts MATCH ?"@
        + " AND CAST(account_id AS TEXT) = ?)"@
}

/// The condition on the index for the values that are not empty, if there are any.
pub open spec fn match_pieces(account_id: int, text: Seq<(TextTarget, Seq<char>)>) -> Seq<
    PieceView,
> {
    let conditions = fts_conditions(text);
    if conditions.len() == 0 {
        Seq::empty()
    } else {
        seq![
            PieceView {
                clause: fts_subquery(),
                binds: seq![
                    BindView::Text(joined(conditions, " AND "@)),
                    BindView::Text(signed_digits(account_id)),
                ],
            },
        ]
    }
}

/// A condition that is true for nothing, for each empty value.
pub open spec fn empty_pieces(text: Seq<(TextTarget, Seq<char>)>) -> Seq<PieceView>
    decreases text.len(),
{
    if text.len() == 0 {
        Seq::empty()
    } else if text.last().1.len() == 0 {
        empty_pieces(text.drop_last()).push(never())
    } else {
        empty_pieces(text.drop_last())
    }
}

/// The conditions that the text part of a query becomes with an index.
pub open spec fn fts_pieces(account_id: int, text: Seq<(TextTarget, Seq<char>)>) -> Seq<
    PieceView,
> {
    empty_pieces(text) + match_pieces(account_id, text)
}

/// The condition that scans one field, or all five, for a `LIKE` pattern.
pub open spec fn like_condition(target: TextTarget) -> Seq<char> {
    let subject = "m.subject LIKE ? ESCAPE '\\'"@;
    let sender = "m.from_address LIKE ? ESCAPE '\\'"@;
    let recipients = "IFNULL(m.to_summary, '') LIKE ? ESCAPE '\\'"@;
    let body =
        "EXISTS (SELECT 1 FROM message_bodies b WHERE b.account_id = m.account_id AND b.message_id = m.id AND IFNULL(b.text_body, '') LIKE ? ESCAPE '\\')"@;
    let attachments =
        "EXISTS (SELECT 1 FROM attachments a WHERE a.account_id = m.account_id AND a.message_id = m.id AND a.filename LIKE ? ESCAPE '\\')"@;
    match target {
        TextTarget::Any => "("@ + subject + " OR "@ + sender + " OR "@ + recipients + " OR "@ + body
            + " OR "@ + attachments + ")"@,
        TextTarget::Subject => subject,
        TextTarget::Sender => sender,
        TextTarget::Recipients => recipients,
        TextTarget::Body => body,
        TextTarget::Attachments => attachments,
    }
}

/// The `LIKE` pattern for one value: escaped, then wrapped in wildcards.
pub open spec fn like_pattern_of(value: Seq<char>) -> Seq<char> {
    "%"@ + like_escaped(value) + "%"@
}

/// The condition that one text clause becomes without an index.
pub open spec fn like_piece(target: TextTarget, value: Seq<char>) -> PieceView {
    let pattern = BindView::Text(like_pattern_of(value));
    if value.len() == 0 {
        never()
    } else {
        PieceView {
            clause: like_condition(target),
            binds: if target == TextTarget::Any {
                seq![pattern, pattern, pattern, pattern, pattern]
            } else {
                seq![pattern]
            },
        }
    }
}

/// The conditions that the text part of a query becomes.
pub open spec fn text_pieces(
    mode: SearchMode,
    account_id: int,
    text: Seq<(TextTarget, Seq<char>)>,
) -> Seq<PieceView> {
    if text.len() == 0 {
        Seq::empty()
    } else if mode == SearchMode::Fts5 {
        fts_pieces(account_id, text)
    } else {
        text.map_values(|t: (TextTarget, Seq<char>)| like_piece(t.0, t.1))
    }
}

/// The condition that an operator without text becomes.
pub open spec fn flag_piece(account_id: int, op: OpView) -> Option<PieceView> {
    match op {
        OpView::HasAttachment => Some(
            PieceView {
                clause:
                    "(m.has_attachments = 1 OR EXISTS (SELECT 1 FROM attachments a WHERE a.account_id = m.account_id AND a.message_id = m.id))"@,
                binds: Seq::empty(),
            },
        ),
        OpView::IsUnread => Some(
            PieceView { clause: "instr(lower(m.flags), 'seen') = 0"@, binds: Seq::empty() },
        ),
        OpView::IsFlagged => Some(
            PieceView { clause: "instr(lower(m.flags), 'flagged') > 0"@, binds: Seq::empty() },
        ),
        OpView::Before(date) => Some(
            PieceView {
                clause: "date(m.internal_date) < ?"@,
                binds: seq![BindView::Text(date_text(date))],
            },
        ),
        OpView::After(date) => Some(
            PieceView {
                clause: "date(m.internal_date) >= ?"@,
                binds: seq![BindView::Text(date_text(date))],
            },
        ),
        OpView::Folder(name) => Some(
            PieceView {
                clause: "m.folder_id IN (SELECT id FROM folders WHERE account_id = ?"@
                    + " AND lower(name) = lower(?))"@,
                binds: seq![BindView::Int(account_id), BindView::Text(name)],
            },
        ),
        _ => None,
    }
}

/// The conditions that the operators without text become, in order.
pub open spec fn flag_pieces(account_id: int, ops: Seq<OpView>) -> Seq<PieceView>
    decreases ops.len(),
{
    if ops.len() == 0 {
        Seq::empty()
    } else {
        let before = flag_pieces(account_id, ops.drop_last());
        match flag_piece(account_id, ops.last()) {
            Some(piece) => before.push(piece),
            None => before,
        }
    }
}

/// The conditions every search has: the account scope, and no tombstones.
pub open spec fn scope_pieces(account_id: int) -> Seq<PieceView> {
    seq![
        PieceView { clause: "m.account_id = ?"@, binds: seq![BindView::Int(account_id)] },
        PieceView { clause: "m.deleted = 0"@, binds: Seq::empty() },
    ]
}

/// All conditions of a query, in the order in which they are written.
pub open spec fn where_pieces(mode: SearchMode, account_id: int, query: QueryView) -> Seq<
    PieceView,
> {
    scope_pieces(account_id) + text_pieces(mode, account_id, text_part(query)) + flag_pieces(
        account_id,
        query.operators,
    )
}

/// The `WHERE` clause of a query.
pub open spec fn where_sql(mode: SearchMode, account_id: int, query: QueryView) -> Seq<char> {
    joined(piece_clauses(where_pieces(mode, account_id, query)), " AND "@)
}

/// The parameters of the `WHERE` clause, in the order of the `?` marks.
pub open spec fn where_binds(mode: SearchMode, account_id: int, query: QueryView) -> Seq<BindView> {
    piece_binds(where_pieces(mode, account_id, query))
}

/// The conditions collected so far.
struct Conditions {
    clauses: Vec<String>,
    binds: Vec<Bind>,
    pieces: Ghost<Seq<PieceView>>,
}

impl Conditions {
    spec fn wf(&self) -> bool {
        &&& views(self.clauses@) == piece_clauses(self.pieces@)
        &&& bind_views(self.binds@) == piece_binds(self.pieces@)
    }

    fn new() -> (result: Conditions)
        ensures
            result.wf(),
            result.pieces@ == Seq::<PieceView>::empty(),
    {
        let result = Conditions {
            clauses: Vec::new(),
            binds: Vec::new(),
            pieces: Ghost(Seq::empty()),
        };
        proof {
            assert(views(result.clauses@) =~= piece_clauses(result.pieces@));
            assert(bind_views(result.binds@) =~= piece_binds(result.pieces@));
        }
        result
    }

    fn add(&mut self, clause: &str, binds: Vec<Bind>)
        requires
            old(self).wf(),
        ensures
            final(self).wf(),
            final(self).pieces@ == old(self).pieces@.push(
                PieceView { clause: clause@, binds: bind_views(binds@) },
            ),
    {
        let ghost before = self.pieces@;
        let ghost added = PieceView { clause: clause@, binds: bind_views(binds@) };
        let ghost old_clauses = self.clauses@;
        let ghost old_binds = self.binds@;
        let ghost new_binds = binds@;
        let mut binds = binds;
        self.clauses.push(clause.to_owned());
        self.binds.append(&mut binds);
        proof {
            self.pieces@ = before.push(added);
            assert(views(self.clauses@) =~= views(old_clauses).push(clause@));
            assert(piece_clauses(self.pieces@) =~= piece_clauses(before).push(clause@));
            assert(bind_views(self.binds@) =~= bind_views(old_binds) + bind_views(new_binds));
            assert(self.pieces@.drop_last() =~= before);
        }
    }
}

/// The text part of a query: which field to search, and what for.
fn text_clauses(query: &SearchQuery) -> (result: Vec<(TextTarget, String)>)
    ensures
        result@.map_values(|t: (TextTarget, String)| (t.0, t.1@)) == text_part(query@),
{
    let mut out: Vec<(TextTarget, String)> = Vec::new();
    let ghost view = |s: Seq<(TextTarget, String)>|
        s.map_values(|t: (TextTarget, String)| (t.0, t.1@));
    let mut i: usize = 0;
    while i < query.terms.len()
        invariant
            i <= query.terms@.len(),
            view == (|s: Seq<(TextTarget, String)>|
                s.map_values(|t: (TextTarget, String)| (t.0, t.1@))),
            view(out@) == query@.terms.take(i as int).map_values(
                |t: Seq<char>| (TextTarget::Any, t),
            ),
        decreases query.terms@.len() - i,
    {
        let ghost before = out@;
        out.push((TextTarget::Any, query.terms[i].clone()));
        proof {
            assert(view(out@) =~= view(before).push((TextTarget::Any, query@.terms[i as int])));
            assert(query@.terms.take(i + 1).map_values(|t: Seq<char>| (TextTarget::Any, t))
                =~= query@.terms.take(i as int).map_values(
                |t: Seq<char>| (TextTarget::Any, t),
            ).push((TextTarget::Any, query@.terms[i as int])));
        }
        i = i + 1;
    }
    let ghost terms = query@.terms.map_values(|t: Seq<char>| (TextTarget::Any, t));
    proof {
        assert(query@.terms.take(i as int) =~= query@.terms);
        assert(view(out@) =~= terms + text_operators(query@.operators.take(0)));
    }
    let mut j: usize = 0;
    while j < query.operators.len()
        invariant
            j <= query.operators@.len(),
            view == (|s: Seq<(TextTarget, String)>|
                s.map_values(|t: (TextTarget, String)| (t.0, t.1@))),
            view(out@) == terms + text_operators(query@.operators.take(j as int)),
        decreases query.operators@.len() - j,
    {
        let ghost before = out@;
        let ghost head = query@.operators.take(j as int);
        let ghost next = query@.operators.take(j + 1);
        proof {
            assert(next.drop_last() =~= head);
            assert(next.last() == query.operators@[j as int]@);
        }
        let clause = match &query.operators[j] {
            SearchOp::From(value) => Some((TextTarget::Sender, value.clone())),
            SearchOp::To(value) => Some((TextTarget::Recipients, value.clone())),
            SearchOp::Subject(value) => Some((TextTarget::Subject, value.clone())),
            SearchOp::Body(value) => Some((TextTarget::Body, value.clone())),
            SearchOp::Attachment(value) => Some((TextTarget::Attachments, value.clone())),
            _ => None,
        };
        match clause {
            Some(clause) => {
                let ghost added = (clause.0, clause.1@);
                out.push(clause);
                proof {
                    assert(view(out@) =~= view(before).push(added));
                    assert((terms + text_operators(head)).push(added) =~= terms + text_operators(
                        head,
                    ).push(added));
                }
            },
            None => {},
        }
        j = j + 1;
    }
    proof {
        assert(query@.operators.take(j as int) =~= query@.operators);
    }
    out
}

/// One FTS5 condition: a quoted phrase, restricted to one column (or to the five
/// text columns).
///
/// Every user value is a quoted *phrase*, so FTS5's own operators can never come
/// from the search box.
fn fts_target_clause(target: TextTarget, value: &str) -> (result: String)
    ensures
        result@ == fts_condition(target, value@),
{
    let mut literal = "\"".to_owned();
    literal.append(escape_fts(value).as_str());
    literal.append("\"");
    let literal = literal.as_str();
    match target {
        TextTarget::Any => {
            let mut out = "(subject:".to_owned();
            out.append(literal);
            out.append(" OR sender:");
            out.append(literal);
            out.append(" OR recipients:");
            out.append(literal);
            out.append(" OR body:");
            out.append(literal);
            out.append(" OR attachments:");
            out.append(literal);
            out.append(")");
            out
        },
        TextTarget::Subject => "subject:".to_owned().concat(literal),
        TextTarget::Sender => "sender:".to_owned().concat(literal),
        TextTarget::Recipients => "recipients:".to_owned().concat(literal),
        TextTarget::Body => "body:".to_owned().concat(literal),
        TextTarget::Attachments => "attachments:".to_owned().concat(literal),
    }
}

/// The `LIKE` pattern for one value: escaped, then wrapped in wildcards.
fn like_pattern(value: &str) -> (result: String)
    ensures
        result@ == like_pattern_of(value@),
{
    let mut out = "%".to_owned();
    out.append(escape_like(value).as_str());
    out.append("%");
    out
}

/// The condition that scans one field, or all five, for a pattern.
fn like_clause(target: TextTarget) -> (result: String)
    ensures
        result@ == like_condition(target),
{
    let subject = "m.subject LIKE ? ESCAPE '\\'";
    let sender = "m.from_address LIKE ? ESCAPE '\\'";
    let recipients = "IFNULL(m.to_summary, '') LIKE ? ESCAPE '\\'";
    let body =
        "EXISTS (SELECT 1 FROM message_bodies b WHERE b.account_id = m.account_id AND b.message_id = m.id AND IFNULL(b.text_body, '') LIKE ? ESCAPE '\\')";
    let attachments =
        "EXISTS (SELECT 1 FROM attachments a WHERE a.account_id = m.account_id AND a.message_id = m.id AND a.filename LIKE ? ESCAPE '\\')";
    match target {
        TextTarget::Any => {
            let mut out = "(".to_owned();
            out.append(subject);
            out.append(" OR ");
            out.append(sender);
            out.append(" OR ");
            out.append(recipients);
            out.append(" OR ");
            out.append(body);
            out.append(" OR ");
            out.append(attachments);
            out.append(")");
            out
        },
        TextTarget::Subject => subject.to_owned(),
        TextTarget::Sender => sender.to_owned(),
        TextTarget::Recipients => recipients.to_owned(),
        TextTarget::Body => body.to_owned(),
        TextTarget::Attachments => attachments.to_owned(),
    }
}

/// Add the conditions that the text part of a query becomes with an index.
fn add_fts(conditions: &mut Conditions, account_id: i64, text: &Vec<(TextTarget, String)>)
    requires
        old(conditions).wf(),
    ensures
        final(conditions).wf(),
        final(conditions).pieces@ == old(conditions).pieces@ + fts_pieces(
            account_id as int,
            text@.map_values(|t: (TextTarget, String)| (t.0, t.1@)),
        ),
{
    let ghost all = text@.map_values(|t: (TextTarget, String)| (t.0, t.1@));
    let ghost start = conditions.pieces@;
    let mut parts: Vec<String> = Vec::new();
    let mut i: usize = 0;
    proof {
        assert(views(parts@) =~= fts_conditions(all.take(0)));
        assert(start =~= start + empty_pieces(all.take(0)));
    }
    while i < text.len()
        invariant
            i <= text@.len(),
            all == text@.map_values(|t: (TextTarget, String)| (t.0, t.1@)),
            views(parts@) == fts_conditions(all.take(i as int)),
            conditions.wf(),
            conditions.pieces@ == start + empty_pieces(all.take(i as int)),
        decreases text@.len() - i,
    {
        let entry = &text[i];
        let ghost before = parts@;
        proof {
            assert(all.take(i + 1).drop_last() =~= all.take(i as int));
            assert(all.take(i + 1).last() == (entry.0, entry.1@));
        }
        if entry.1.as_str().is_empty() {
            let none: Vec<Bind> = Vec::new();
            proof {
                assert(bind_views(none@) =~= Seq::empty());
            }
            conditions.add("0 = 1", none);
            proof {
                assert(conditions.pieces@ =~= start + empty_pieces(all.take(i + 1)));
            }
        } else {
            let part = fts_target_clause(entry.0, entry.1.as_str());
            proof {
                assert(views(before.push(part)) =~= views(before).push(part@));
            }
            parts.push(part);
        }
        i = i + 1;
    }
    proof {
        assert(all.take(i as int) =~= all);
        assert(views(parts@).len() == parts@.len());
    }
    if parts.len() > 0 {
        let mut binds: Vec<Bind> = Vec::new();
        binds.push(Bind::Text(join(&parts, " AND ")));
        binds.push(Bind::Text(decimal_signed(account_id)));
        let mut clause =
            "m.id IN (SELECT CAST(message_id AS INTEGER) FROM messages_fts WHERE messages_fts MATCH ?".to_owned();
        clause.append(" AND CAST(account_id AS TEXT) = ?)");
        proof {
            assert(bind_views(binds@) =~= match_pieces(account_id as int, all)[0].binds);
        }
        conditions.add(clause.as_str(), binds);
    }
    proof {
        assert(conditions.pieces@ =~= start + fts_pieces(account_id as int, all));
    }
}

/// Add the condition that one text clause becomes without an index.
fn add_like(conditions: &mut Conditions, target: TextTarget, value: &str)
    requires
        old(conditions).wf(),
    ensures
        final(conditions).wf(),
        final(conditions).pieces@ == old(conditions).pieces@.push(like_piece(target, value@)),
{
    let mut binds: Vec<Bind> = Vec::new();
    if value.is_empty() {
        proof {
            assert(bind_views(binds@) =~= Seq::empty());
        }
        conditions.add("0 = 1", binds);
        return;
    }
    binds.push(Bind::Text(like_pattern(value)));
    if target == TextTarget::Any {
        binds.push(Bind::Text(like_pattern(value)));
        binds.push(Bind::Text(like_pattern(value)));
        binds.push(Bind::Text(like_pattern(value)));
        binds.push(Bind::Text(like_pattern(value)));
    }
    proof {
        assert(bind_views(binds@) =~= like_piece(target, value@).binds);
    }
    conditions.add(like_clause(target).as_str(), binds);
}

/// Add the condition that an operator without text becomes.
fn add_flag(conditions: &mut Conditions, account_id: i64, op: &SearchOp)
    requires
        old(conditions).wf(),
    ensures
        final(conditions).wf(),
        match flag_piece(account_id as int, op@) {
            Some(piece) => final(conditions).pieces@ == old(conditions).pieces@.push(piece),
            None => final(conditions).pieces@ == old(conditions).pieces@,
        },
{
    let mut binds: Vec<Bind> = Vec::new();
    proof {
        assert(bind_views(binds@) =~= Seq::empty());
    }
    match op {
        SearchOp::HasAttachment => {
            conditions.add(
                "(m.has_attachments = 1 OR EXISTS (SELECT 1 FROM attachments a WHERE a.account_id = m.account_id AND a.message_id = m.id))",
                binds,
            );
        },
        SearchOp::IsUnread => {
            conditions.add("instr(lower(m.flags), 'seen') = 0", binds);
        },
        SearchOp::IsFlagged => {
            conditions.add("instr(lower(m.flags), 'flagged') > 0", binds);
        },
        SearchOp::Before(date) => {
            binds.push(Bind::Text(date.to_string()));
            proof {
                assert(bind_views(binds@) =~= seq![BindView::Text(date_text(*date))]);
            }
            conditions.add("date(m.internal_date) < ?", binds);
        },
        SearchOp::After(date) => {
            binds.push(Bind::Text(date.to_string()));
            proof {
                assert(bind_views(binds@) =~= seq![BindView::Text(date_text(*date))]);
            }
            conditions.add("date(m.internal_date) >= ?", binds);
        },
        SearchOp::Folder(name) => {
            binds.push(Bind::Int(account_id));
            binds.push(Bind::Text(name.clone()));
            proof {
                assert(bind_views(binds@) =~= seq![
                    BindView::Int(account_id as int),
                    BindView::Text(name@),
                ]);
            }
            let mut clause = "m.folder_id IN (SELECT id FROM folders WHERE account_id = ?".to_owned();
            clause.append(" AND lower(name) = lower(?))");
            conditions.add(clause.as_str(), binds);
        },
        _ => {},
    }
}

/// Build the `WHERE` clause and its bindings for one query.
///
/// The clause always starts with the two invariants: the account scope and no
/// tombstones. Everything else is appended in a fixed order, and the bindings are
/// in exactly the order in which the `?` placeholders appear.
pub fn build_where(mode: SearchMode, account_id: i64, query: &SearchQuery) -> (result: (
    String,
    Vec<Bind>,
))
    ensures
        result.0@ == where_sql(mode, account_id as int, query@),
        bind_views(result.1@) == where_binds(mode, account_id as int, query@),
{
    let ghost account = account_id as int;
    let mut conditions = Conditions::new();
    let mut scope: Vec<Bind> = Vec::new();
    scope.push(Bind::Int(account_id));
    let none: Vec<Bind> = Vec::new();
    proof {
        assert(bind_views(scope@) =~= seq![BindView::Int(account)]);
        assert(bind_views(none@) =~= Seq::empty());
    }
    conditions.add("m.account_id = ?", scope);
    conditions.add("m.deleted = 0", none);
    proof {
        assert(conditions.pieces@ =~= scope_pieces(account));
    }
    let text = text_clauses(query);
    let ghost all = text@.map_values(|t: (TextTarget, String)| (t.0, t.1@));
    if text.len() > 0 {
        if mode == SearchMode::Fts5 {
            add_fts(&mut conditions, account_id, &text);
            proof {
                assert(conditions.pieces@ =~= scope_pieces(account) + text_pieces(
                    mode,
                    account,
                    all,
                ));
            }
        } else {
            let mut i: usize = 0;
            proof {
                assert(conditions.pieces@ =~= scope_pieces(account) + text_pieces(
                    mode,
                    account,
                    all,
                ).take(0));
            }
            while i < text.len()
                invariant
                    i <= text@.len(),
                    text@.len() > 0,
                    mode != SearchMode::Fts5,
                    account == account_id,
                    all == text@.map_values(|t: (TextTarget, String)| (t.0, t.1@)),
                    conditions.wf(),
                    conditions.pieces@ == scope_pieces(account) + text_pieces(
                        mode,
                        account,
                        all,
                    ).take(i as int),
                decreases text@.len() - i,
            {
                let entry = &text[i];
                let ghost pieces = text_pieces(mode, account, all);
                add_like(&mut conditions, entry.0, entry.1.as_str());
                proof {
                    assert(pieces[i as int] == like_piece(entry.0, entry.1@));
                    assert(pieces.take(i + 1) =~= pieces.take(i as int).push(pieces[i as int]));
                    assert(conditions.pieces@ =~= scope_pieces(account) + pieces.take(i + 1));
                }
                i = i + 1;
            }
            proof {
                assert(text_pieces(mode, account, all).take(i as int) =~= text_pieces(
                    mode,
                    account,
                    all,
                ));
            }
        }
    }
    let ghost head = scope_pieces(account) + text_pieces(mode, account, all);
    proof {
        assert(conditions.pieces@ =~= head + flag_pieces(account, query@.operators.take(0)));
    }
    let mut j: usize = 0;
    while j < query.operators.len()
        invariant
            j <= query.operators@.len(),
            account == account_id,
            conditions.wf(),
            conditions.pieces@ == head + flag_pieces(account, query@.operators.take(j as int)),
        decreases query.operators@.len() - j,
    {
        proof {
            assert(query@.operators.take(j + 1).drop_last() =~= query@.operators.take(j as int));
            assert(query@.operators.take(j + 1).last() == query.operators@[j as int]@);
        }
        add_flag(&mut conditions, account_id, &query.operators[j]);
        proof {
            assert(conditions.pieces@ =~= head + flag_pieces(account, query@.operators.take(j + 1)));
        }
        j = j + 1;
    }
    proof {
        assert(query@.operators.take(j as int) =~= query@.operators);
    }
    (join(&conditions.clauses, " AND "), conditions.binds)
}

// -- the text of a search ----------------------------------------------------

/// Whether two operators are of one kind, and search for something or for nothing alike.
pub open spec fn same_kind(a: OpView, b: OpView) -> bool {
    match (a, b) {
        (OpView::From(x), OpView::From(y)) => x.len() == 0 <==> y.len() == 0,
        (OpView::To(x), OpView::To(y)) => x.len() == 0 <==> y.len() == 0,
        (OpView::Subject(x), OpView::Subject(y)) => x.len() == 0 <==> y.len() == 0,
        (OpView::Body(x), OpView::Body(y)) => x.len() == 0 <==> y.len() == 0,
        (OpView::Attachment(x), OpView::Attachment(y)) => x.len() == 0 <==> y.len() == 0,
        (OpView::HasAttachment, OpView::HasAttachment) => true,
        (OpView::IsUnread, OpView::IsUnread) => true,
        (OpView::IsFlagged, OpView::IsFlagged) => true,
        (OpView::Before(_), OpView::Before(_)) => true,
        (OpView::After(_), OpView::After(_)) => true,
        (OpView::Folder(_), OpView::Folder(_)) => true,
        _ => false,
    }
}

/// Whether two queries differ in their values alone: they have as many terms, and the same
/// operators in the same order. An empty value, which matches nothing, stands against an
/// empty value.
pub open spec fn same_shape(a: QueryView, b: QueryView) -> bool {
    &&& a.terms.len() == b.terms.len()
    &&& forall|i: int|
        0 <= i < a.terms.len() ==> ((#[trigger] a.terms[i]).len() == 0 <==> b.terms[i].len() == 0)
    &&& a.operators.len() == b.operators.len()
    &&& forall|i: int|
        0 <= i < a.operators.len() ==> same_kind(#[trigger] a.operators[i], b.operators[i])
}

/// Whether two text parts search the same fields, for something or for nothing alike.
spec fn alike(a: Seq<(TextTarget, Seq<char>)>, b: Seq<(TextTarget, Seq<char>)>) -> bool {
    &&& a.len() == b.len()
    &&& forall|i: int|
        0 <= i < a.len() ==> (#[trigger] a[i]).0 == b[i].0 && (a[i].1.len() == 0 <==> b[i].1.len()
            == 0)
}

proof fn lemma_operators_alike(a: Seq<OpView>, b: Seq<OpView>)
    requires
        a.len() == b.len(),
        forall|i: int| 0 <= i < a.len() ==> same_kind(#[trigger] a[i], b[i]),
    ensures
        alike(text_operators(a), text_operators(b)),
    decreases a.len(),
{
    if a.len() > 0 {
        assert forall|i: int| 0 <= i < a.drop_last().len() implies same_kind(
            #[trigger] a.drop_last()[i],
            b.drop_last()[i],
        ) by {
            assert(a.drop_last()[i] == a[i]);
        }
        lemma_operators_alike(a.drop_last(), b.drop_last());
        assert(same_kind(a[a.len() - 1], b[a.len() - 1]));
    }
}

proof fn lemma_fts_alike(a: Seq<(TextTarget, Seq<char>)>, b: Seq<(TextTarget, Seq<char>)>)
    requires
        alike(a, b),
    ensures
        empty_pieces(a) == empty_pieces(b),
        fts_conditions(a).len() == fts_conditions(b).len(),
    decreases a.len(),
{
    if a.len() > 0 {
        assert forall|i: int| 0 <= i < a.drop_last().len() implies (#[trigger] a.drop_last()[i]).0
            == b.drop_last()[i].0 && (a.drop_last()[i].1.len() == 0 <==> b.drop_last()[i].1.len()
            == 0) by {
            assert(a.drop_last()[i] == a[i]);
        }
        lemma_fts_alike(a.drop_last(), b.drop_last());
        assert(a[a.len() - 1].1.len() == 0 <==> b[a.len() - 1].1.len() == 0);
    }
}

proof fn lemma_flags_alike(first: int, a: Seq<OpView>, second: int, b: Seq<OpView>)
    requires
        a.len() == b.len(),
        forall|i: int| 0 <= i < a.len() ==> same_kind(#[trigger] a[i], b[i]),
    ensures
        piece_clauses(flag_pieces(first, a)) == piece_clauses(flag_pieces(second, b)),
    decreases a.len(),
{
    if a.len() > 0 {
        assert forall|i: int| 0 <= i < a.drop_last().len() implies same_kind(
            #[trigger] a.drop_last()[i],
            b.drop_last()[i],
        ) by {
            assert(a.drop_last()[i] == a[i]);
        }
        lemma_flags_alike(first, a.drop_last(), second, b.drop_last());
        assert(same_kind(a[a.len() - 1], b[a.len() - 1]));
        let x = flag_pieces(first, a.drop_last());
        let y = flag_pieces(second, b.drop_last());
        if let Some(piece) = flag_piece(first, a.last()) {
            let other = flag_piece(second, b.last())->0;
            assert(piece_clauses(x.push(piece)) =~= piece_clauses(x).push(piece.clause));
            assert(piece_clauses(y.push(other)) =~= piece_clauses(y).push(other.clause));
        }
    } else {
        assert(piece_clauses(flag_pieces(first, a)) =~= piece_clauses(flag_pieces(second, b)));
    }
}

/// The text of a search does not depend on its values: two queries of one shape, whichever
/// accounts they are for, give the same SQL and differ in its parameters alone. What a user
/// types cannot change the statement.
pub proof fn law_values_stay_out_of_the_text(
    mode: SearchMode,
    first: int,
    a: QueryView,
    second: int,
    b: QueryView,
)
    requires
        same_shape(a, b),
    ensures
        where_sql(mode, first, a) == where_sql(mode, second, b),
{
    let x = text_part(a);
    let y = text_part(b);
    lemma_operators_alike(a.operators, b.operators);
    assert(alike(x, y)) by {
        assert forall|i: int| 0 <= i < x.len() implies (#[trigger] x[i]).0 == y[i].0 && (
        x[i].1.len() == 0 <==> y[i].1.len() == 0) by {
            if i < a.terms.len() {
                assert(x[i] == (TextTarget::Any, a.terms[i]));
                assert(y[i] == (TextTarget::Any, b.terms[i]));
            } else {
                assert(x[i] == text_operators(a.operators)[i - a.terms.len()]);
                assert(y[i] == text_operators(b.operators)[i - a.terms.len()]);
            }
        }
    }
    lemma_fts_alike(x, y);
    lemma_flags_alike(first, a.operators, second, b.operators);
    let p = text_pieces(mode, first, x);
    let q = text_pieces(mode, second, y);
    assert(piece_clauses(p) =~= piece_clauses(q)) by {
        assert(p.len() == q.len());
        assert forall|i: int| 0 <= i < p.len() implies (#[trigger] p[i]).clause == q[i].clause by {
            if mode != SearchMode::Fts5 {
                assert(p[i] == like_piece(x[i].0, x[i].1));
                assert(q[i] == like_piece(y[i].0, y[i].1));
            }
        }
    }
    let s = flag_pieces(first, a.operators);
    let t = flag_pieces(second, b.operators);
    let left = where_pieces(mode, first, a);
    let right = where_pieces(mode, second, b);
    assert(piece_clauses(left) =~= piece_clauses(scope_pieces(first)) + piece_clauses(p)
        + piece_clauses(s));
    assert(piece_clauses(right) =~= piece_clauses(scope_pieces(second)) + piece_clauses(q)
        + piece_clauses(t));
    assert(piece_clauses(scope_pieces(first)) =~= piece_clauses(scope_pieces(second)));
}

// -- one parameter per mark ------------------------------------------------

/// Whether a condition has one parameter per mark.
spec fn bound(piece: PieceView) -> bool {
    marks(piece.clause) == piece.binds.len()
}

proof fn lemma_marks_subject()
    ensures
        marks("m.subject LIKE ? ESCAPE '\\'"@) == 1,
{
    reveal_strlit("m.subject LIKE ? ESCAPE '\\'");
    crate::database::lemma_one_mark(
        "m.subject LIKE ? ESCAPE '\\'"@,
        15,
    );
}

proof fn lemma_marks_sender()
    ensures
        marks("m.from_address LIKE ? ESCAPE '\\'"@) == 1,
{
    reveal_strlit("m.from_address LIKE ? ESCAPE '\\'");
    crate::database::lemma_one_mark(
        "m.from_address LIKE ? ESCAPE '\\'"@,
        20,
    );
}

proof fn lemma_marks_recipients()
    ensures
        marks("IFNULL(m.to_summary, '') LIKE ? ESCAPE '\\'"@) == 1,
{
    reveal_strlit("IFNULL(m.to_summary, '') LIKE ? ESCAPE '\\'");
    crate::database::lemma_one_mark(
        "IFNULL(m.to_summary, '') LIKE ? ESCAPE '\\'"@,
        30,
    );
}

proof fn lemma_marks_body()
    ensures
        marks("EXISTS (SELECT 1 FROM message_bodies b WHERE b.account_id = m.account_id AND b.message_id = m.id AND IFNULL(b.text_body, '') LIKE ? ESCAPE '\\')"@) == 1,
{
    reveal_strlit("EXISTS (SELECT 1 FROM message_bodies b WHERE b.account_id = m.account_id AND b.message_id = m.id AND IFNULL(b.text_body, '') LIKE ? ESCAPE '\\')");
    crate::database::lemma_one_mark(
        "EXISTS (SELECT 1 FROM message_bodies b WHERE b.account_id = m.account_id AND b.message_id = m.id AND IFNULL(b.text_body, '') LIKE ? ESCAPE '\\')"@,
        130,
    );
}

proof fn lemma_marks_attachments()
    ensures
        marks("EXISTS (SELECT 1 FROM attachments a WHERE a.account_id = m.account_id AND a.message_id = m.id AND a.filename LIKE ? ESCAPE '\\')"@) == 1,
{
    reveal_strlit("EXISTS (SELECT 1 FROM attachments a WHERE a.account_id = m.account_id AND a.message_id = m.id AND a.filename LIKE ? ESCAPE '\\')");
    crate::database::lemma_one_mark(
        "EXISTS (SELECT 1 FROM attachments a WHERE a.account_id = m.account_id AND a.message_id = m.id AND a.filename LIKE ? ESCAPE '\\')"@,
        114,
    );
}

/// Every `LIKE` condition has as many marks as fields it scans.
pub(crate) proof fn lemma_marks_like(target: TextTarget)
    ensures
        marks(like_condition(target)) == if target == TextTarget::Any { 5nat } else { 1nat },
{
    lemma_marks_subject();
    lemma_marks_sender();
    lemma_marks_recipients();
    lemma_marks_body();
    lemma_marks_attachments();
    if target == TextTarget::Any {
        reveal_strlit("(");
        reveal_strlit(")");
        reveal_strlit(" OR ");
        crate::database::lemma_no_marks("("@);
        crate::database::lemma_no_marks(")"@);
        crate::database::lemma_no_marks(" OR "@);
        let or = " OR "@;
        let a = "("@ + like_condition(TextTarget::Subject);
        let b = a + or + like_condition(TextTarget::Sender);
        let c = b + or + like_condition(TextTarget::Recipients);
        let d = c + or + like_condition(TextTarget::Body);
        let e = d + or + like_condition(TextTarget::Attachments);
        crate::database::lemma_marks_concat("("@, like_condition(TextTarget::Subject));
        crate::database::lemma_marks_concat(a, or);
        crate::database::lemma_marks_concat(a + or, like_condition(TextTarget::Sender));
        crate::database::lemma_marks_concat(b, or);
        crate::database::lemma_marks_concat(b + or, like_condition(TextTarget::Recipients));
        crate::database::lemma_marks_concat(c, or);
        crate::database::lemma_marks_concat(c + or, like_condition(TextTarget::Body));
        crate::database::lemma_marks_concat(d, or);
        crate::database::lemma_marks_concat(d + or, like_condition(TextTarget::Attachments));
        crate::database::lemma_marks_concat(e, ")"@);
    }
}

proof fn lemma_never_bound()
    ensures
        bound(never()),
{
    reveal_strlit("0 = 1");
    crate::database::lemma_no_marks("0 = 1"@);
}

proof fn lemma_empty_bound(text: Seq<(TextTarget, Seq<char>)>)
    ensures
        forall|i: int| 0 <= i < empty_pieces(text).len() ==> bound(#[trigger] empty_pieces(text)[i]),
    decreases text.len(),
{
    lemma_never_bound();
    if text.len() > 0 {
        let before = empty_pieces(text.drop_last());
        lemma_empty_bound(text.drop_last());
        assert forall|i: int| 0 <= i < empty_pieces(text).len() implies bound(
            #[trigger] empty_pieces(text)[i],
        ) by {
            if i < before.len() {
                assert(empty_pieces(text)[i] == before[i]);
            }
        }
    }
}

proof fn lemma_fts_bound(account_id: int, text: Seq<(TextTarget, Seq<char>)>)
    ensures
        forall|i: int|
            0 <= i < fts_pieces(account_id, text).len() ==> bound(
                #[trigger] fts_pieces(account_id, text)[i],
            ),
{
    lemma_empty_bound(text);
    reveal_strlit(
        "m.id IN (SELECT CAST(message_id AS INTEGER) FROM messages_fts WHERE messages_fts MATCH ?",
    );
    reveal_strlit(" AND CAST(account_id AS TEXT) = ?)");
    crate::database::lemma_one_mark(
        "m.id IN (SELECT CAST(message_id AS INTEGER) FROM messages_fts WHERE messages_fts MATCH ?"@,
        87,
    );
    crate::database::lemma_one_mark(" AND CAST(account_id AS TEXT) = ?)"@, 32);
    crate::database::lemma_marks_concat(
        "m.id IN (SELECT CAST(message_id AS INTEGER) FROM messages_fts WHERE messages_fts MATCH ?"@,
        " AND CAST(account_id AS TEXT) = ?)"@,
    );
    let empty = empty_pieces(text);
    assert forall|i: int| 0 <= i < fts_pieces(account_id, text).len() implies bound(
        #[trigger] fts_pieces(account_id, text)[i],
    ) by {
        if i < empty.len() {
            assert(fts_pieces(account_id, text)[i] == empty[i]);
        }
    }
}

/// A text clause with an empty value matches nothing, whatever else the query asks for
/// and whichever backend answers it.
pub proof fn law_an_empty_value_matches_nothing(
    mode: SearchMode,
    account_id: int,
    query: QueryView,
    i: int,
)
    requires
        0 <= i < text_part(query).len(),
        text_part(query)[i].1.len() == 0,
    ensures
        where_pieces(mode, account_id, query).contains(never()),
{
    let text = text_part(query);
    let middle = text_pieces(mode, account_id, text);
    let k = if mode == SearchMode::Fts5 {
        let k = lemma_empty_piece(text, i);
        assert(middle[k] == empty_pieces(text)[k]);
        k
    } else {
        assert(middle[i] == like_piece(text[i].0, text[i].1));
        i
    };
    assert(where_pieces(mode, account_id, query)[2 + k] == middle[k]);
}

proof fn lemma_empty_piece(text: Seq<(TextTarget, Seq<char>)>, i: int) -> (k: int)
    requires
        0 <= i < text.len(),
        text[i].1.len() == 0,
    ensures
        0 <= k < empty_pieces(text).len(),
        empty_pieces(text)[k] == never(),
    decreases text.len(),
{
    if i == text.len() - 1 {
        empty_pieces(text).len() - 1
    } else {
        assert(text.drop_last()[i] == text[i]);
        lemma_empty_piece(text.drop_last(), i)
    }
}

proof fn lemma_flag_bound(account_id: int, op: OpView)
    ensures
        flag_piece(account_id, op) matches Some(piece) ==> bound(piece),
{
    match op {
        OpView::HasAttachment => {
            reveal_strlit(
                "(m.has_attachments = 1 OR EXISTS (SELECT 1 FROM attachments a WHERE a.account_id = m.account_id AND a.message_id = m.id))",
            );
            crate::database::lemma_no_marks(
                "(m.has_attachments = 1 OR EXISTS (SELECT 1 FROM attachments a WHERE a.account_id = m.account_id AND a.message_id = m.id))"@,
            );
        },
        OpView::IsUnread => {
            reveal_strlit("instr(lower(m.flags), 'seen') = 0");
            crate::database::lemma_no_marks("instr(lower(m.flags), 'seen') = 0"@);
        },
        OpView::IsFlagged => {
            reveal_strlit("instr(lower(m.flags), 'flagged') > 0");
            crate::database::lemma_no_marks("instr(lower(m.flags), 'flagged') > 0"@);
        },
        OpView::Before(_) => {
            reveal_strlit("date(m.internal_date) < ?");
            crate::database::lemma_one_mark("date(m.internal_date) < ?"@, 24);
        },
        OpView::After(_) => {
            reveal_strlit("date(m.internal_date) >= ?");
            crate::database::lemma_one_mark("date(m.internal_date) >= ?"@, 25);
        },
        OpView::Folder(_) => {
            reveal_strlit("m.folder_id IN (SELECT id FROM folders WHERE account_id = ?");
            reveal_strlit(" AND lower(name) = lower(?))");
            crate::database::lemma_one_mark(
                "m.folder_id IN (SELECT id FROM folders WHERE account_id = ?"@,
                58,
            );
            crate::database::lemma_one_mark(" AND lower(name) = lower(?))"@, 25);
            crate::database::lemma_marks_concat(
                "m.folder_id IN (SELECT id FROM folders WHERE account_id = ?"@,
                " AND lower(name) = lower(?))"@,
            );
        },
        _ => {},
    }
}

/// Whether every condition has one parameter per mark.
spec fn all_bound(pieces: Seq<PieceView>) -> bool {
    forall|i: int| 0 <= i < pieces.len() ==> bound(#[trigger] pieces[i])
}

proof fn lemma_flags_bound(account_id: int, ops: Seq<OpView>)
    ensures
        all_bound(flag_pieces(account_id, ops)),
    decreases ops.len(),
{
    if ops.len() > 0 {
        lemma_flags_bound(account_id, ops.drop_last());
        lemma_flag_bound(account_id, ops.last());
    }
}

/// Conditions with one parameter per mark give a clause with one parameter per
/// mark.
proof fn lemma_marks_pieces(pieces: Seq<PieceView>)
    requires
        all_bound(pieces),
    ensures
        marks(joined(piece_clauses(pieces), " AND "@)) == piece_binds(pieces).len(),
    decreases pieces.len(),
{
    reveal_strlit(" AND ");
    crate::database::lemma_no_marks(" AND "@);
    let clauses = piece_clauses(pieces);
    if pieces.len() > 0 {
        let head = pieces.drop_last();
        assert(bound(pieces[pieces.len() - 1]));
        assert forall|i: int| 0 <= i < head.len() implies bound(#[trigger] head[i]) by {
            assert(head[i] == pieces[i]);
        }
        lemma_marks_pieces(head);
        assert(clauses.drop_last() =~= piece_clauses(head));
        assert(piece_binds(head).len() + pieces.last().binds.len() == piece_binds(pieces).len());
        if pieces.len() == 1 {
            assert(head =~= Seq::empty());
        } else {
            crate::database::lemma_marks_concat(joined(piece_clauses(head), " AND "@), " AND "@);
            crate::database::lemma_marks_concat(
                joined(piece_clauses(head), " AND "@) + " AND "@,
                clauses.last(),
            );
        }
    }
}

/// Every condition of a search has one parameter per mark.
pub(crate) proof fn lemma_where_bound(mode: SearchMode, account_id: int, query: QueryView)
    ensures
        forall|i: int|
            0 <= i < where_pieces(mode, account_id, query).len() ==> marks(
                (#[trigger] where_pieces(mode, account_id, query)[i]).clause,
            ) == where_pieces(mode, account_id, query)[i].binds.len(),
{
    let pieces = where_pieces(mode, account_id, query);
    let text = text_part(query);
    reveal_strlit("m.account_id = ?");
    reveal_strlit("m.deleted = 0");
    crate::database::lemma_one_mark("m.account_id = ?"@, 15);
    crate::database::lemma_no_marks("m.deleted = 0"@);
    lemma_never_bound();
    lemma_fts_bound(account_id, text);
    lemma_flags_bound(account_id, query.operators);
    let middle = text_pieces(mode, account_id, text);
    assert forall|i: int| 0 <= i < middle.len() implies bound(#[trigger] middle[i]) by {
        if mode != SearchMode::Fts5 {
            lemma_marks_like(text[i].0);
        }
    }
    let last = flag_pieces(account_id, query.operators);
    assert forall|i: int| 0 <= i < pieces.len() implies bound(#[trigger] pieces[i]) by {
        if i >= 2 + middle.len() {
            assert(pieces[i] == last[i - 2 - middle.len()]);
        } else if i >= 2 {
            assert(pieces[i] == middle[i - 2]);
        }
    }
    assert forall|i: int| 0 <= i < pieces.len() implies marks((#[trigger] pieces[i]).clause)
        == pieces[i].binds.len() by {
        assert(bound(pieces[i]));
    }
}

/// Every search statement has exactly one parameter per `?`, and every search is
/// scoped to the account and excludes tombstones: the clause begins with those two
/// conditions, whatever the query.
pub proof fn law_one_parameter_per_mark(mode: SearchMode, account_id: int, query: QueryView)
    ensures
        marks(where_sql(mode, account_id, query)) == where_binds(mode, account_id, query).len(),
        where_pieces(mode, account_id, query).len() >= 2,
        where_pieces(mode, account_id, query)[0] == scope_pieces(account_id)[0],
        where_pieces(mode, account_id, query)[1] == scope_pieces(account_id)[1],
{
    let pieces = where_pieces(mode, account_id, query);
    lemma_where_bound(mode, account_id, query);
    assert forall|i: int| 0 <= i < pieces.len() implies bound(#[trigger] pieces[i]) by {
    }
    lemma_marks_pieces(pieces);
}

// -- running a search ------------------------------------------------------

/// One hit of a search: the list-view fields of a message, nothing more.
#[derive(Debug, Clone, PartialEq, Eq)]
pub struct SearchHit {
    /// The account the message belongs to.
    pub account_id: i64,
    /// The server-side message id.
    pub message_id: i64,
    /// The folder the message lives in, when the cache knows it.
    pub folder_id: Option<i64>,
    /// The subject.
    pub subject: String,
    /// The sender address.
    pub from_address: String,
    /// A short plain-text preview, when one was cached.
    pub snippet: Option<String>,
    /// Space separated IMAP flags.
    pub flags: String,
    /// When the server received the message, as an RFC 3339 string.
    pub internal_date: Option<String>,
}

/// The answer to one search: the page of hits plus where they came from.
#[derive(Debug, Clone, PartialEq, Eq)]
pub struct SearchResults {
    /// The hits, newest first, at most `limit` of them.
    pub hits: Vec<SearchHit>,
    /// Whether these came from the cache or from the server.
    pub source: SearchSource,
    /// Every match, not just the returned page.
    pub total: i64,
}

/// Whether `hit` carries the list-view fields of a server list item.
pub open spec fn hit_of_item(hit: SearchHit, account_id: i64, item: MessageItem) -> bool {
    &&& hit.account_id == account_id
    &&& hit.message_id == item.id
    &&& hit.folder_id == item.folder_id
    &&& hit.subject@ == text_or_empty(item.subject)
    &&& hit.from_address@ == match item.from {
        Some(from) => from.address@,
        None => Seq::empty(),
    }
    &&& hit.snippet == item.snippet
    &&& hit.flags@ == text_or_empty(item.flags)
    &&& hit.internal_date == item.internal_date
}

/// Turn one server list item into a hit.
pub fn hit_from_item(account_id: i64, item: &MessageItem) -> (result: SearchHit)
    ensures
        hit_of_item(result, account_id, *item),
{
    SearchHit {
        account_id,
        message_id: item.id,
        folder_id: item.folder_id,
        subject: copy_or_empty(&item.subject),
        from_address: match &item.from {
            Some(from) => from.address.clone(),
            None => String::new(),
        },
        snippet: copy_opt(&item.snippet),
        flags: copy_or_empty(&item.flags),
        internal_date: copy_opt(&item.internal_date),
    }
}

/// The two statements of a local search.
#[derive(Debug, Clone, PartialEq, Eq)]
pub struct LocalSearch {
    /// Counts every match; its one column is called `n`.
    pub count: Statement,
    /// Selects the page, newest first.
    pub page: Statement,
}

/// The answer to a query that matches nothing by definition.
pub fn no_results() -> (result: SearchResults)
    ensures
        result.hits@.len() == 0,
        result.source == SearchSource::Local,
        result.total == 0,
{
    SearchResults { hits: Vec::new(), source: SearchSource::Local, total: 0 }
}

/// What to do with the cache's answer.
#[derive(Debug, Clone, PartialEq, Eq)]
pub enum SearchStep {
    /// Give it to the caller.
    Answer(SearchResults),
    /// The cache has no answer: ask the server.
    AskServer(RequestSpec),
}

/// Runs searches: over the cache, and over the server when there is a client for it.
#[derive(Debug, Clone)]
pub struct SearchExecutor {
    db: ClientDatabase,
    client: Option<FcpClient>,
}

impl SearchExecutor {
    /// The search backend of the cache.
    pub closed spec fn mode(&self) -> SearchMode {
        self.db.mode()
    }

    /// Whether the server may be asked.
    pub closed spec fn online(&self) -> bool {
        self.client is Some
    }

    /// A local-only executor: search never leaves the cache.
    pub fn local(db: ClientDatabase) -> (result: SearchExecutor)
        ensures
            result.mode() == db.mode(),
            !result.online(),
    {
        SearchExecutor { db, client: None }
    }

    /// An executor that falls back to the server when the cache has no answer.
    pub fn with_server(db: ClientDatabase, client: FcpClient) -> (result: SearchExecutor)
        ensures
            result.mode() == db.mode(),
            result.online(),
    {
        SearchExecutor { db, client: Some(client) }
    }

    /// The statements that answer a query from the cache: the total of all matches,
    /// and the page of at most `limit` hits, newest first with the message id breaking
    /// ties. An empty query matches nothing, so there is nothing to run.
    pub fn search_local(
        &self,
        account_id: i64,
        query: &SearchQuery,
        limit: usize,
    ) -> (result: Option<LocalSearch>)
        ensures
            result is None <==> query@ == empty_query(),
            result matches Some(plan) ==> {
                let clause = where_sql(self.mode(), account_id as int, query@);
                let binds = where_binds(self.mode(), account_id as int, query@);
                &&& plan.count.sql@ == "SELECT COUNT(*) AS n FROM messages m WHERE "@ + clause
                &&& bind_views(plan.count.binds@) == binds
                &&& plan.page.sql@
                    == "SELECT m.account_id AS account_id, m.id AS message_id, m.folder_id AS folder_id, m.subject AS subject, m.from_address AS from_address, m.snippet AS snippet, m.flags AS flags, m.internal_date AS internal_date FROM messages m WHERE "@
                    + clause + " ORDER BY m.internal_date DESC, m.id DESC LIMIT ?"@
                &&& bind_views(plan.page.binds@) == binds.push(BindView::Int(limit as i64 as int))
            },
    {
        if query.is_empty() {
            return None;
        }
        let (clause, binds) = build_where(self.db.search_mode(), account_id, query);
        let (_, mut page_binds) = build_where(self.db.search_mode(), account_id, query);
        let ghost before = page_binds@;
        page_binds.push(Bind::Int(limit as i64));
        proof {
            assert(bind_views(page_binds@) =~= bind_views(before).push(
                BindView::Int(limit as i64 as int),
            ));
        }
        let mut count = "SELECT COUNT(*) AS n FROM messages m WHERE ".to_owned();
        count.append(clause.as_str());
        let mut page =
            "SELECT m.account_id AS account_id, m.id AS message_id, m.folder_id AS folder_id, m.subject AS subject, m.from_address AS from_address, m.snippet AS snippet, m.flags AS flags, m.internal_date AS internal_date FROM messages m WHERE ".to_owned();
        page.append(clause.as_str());
        page.append(" ORDER BY m.internal_date DESC, m.id DESC LIMIT ?");
        Some(
            LocalSearch {
                count: Statement { sql: count, binds },
                page: Statement { sql: page, binds: page_binds },
            },
        )
    }

    /// Decide whether the cache's answer stands. The server is asked only when the
    /// cache found nothing, the query constrains *something* and a client is
    /// configured: asking it for an empty query would return the whole mailbox.
    pub fn search(&self, local: SearchResults, query: &SearchQuery, limit: usize) -> (result:
        SearchStep)
        ensures
            if local.hits@.len() == 0 && query@ != empty_query() && self.online() {
                result matches SearchStep::AskServer(spec) && spec@ == server_search(query@, limit)
            } else {
                result == SearchStep::Answer(local)
            },
            result is AskServer ==> local.hits@.len() == 0 && self.online(),
            query@.terms.len() == 0 && query@.operators.len() == 0 ==> result is Answer,
    {
        proof {
            if query@.terms.len() == 0 && query@.operators.len() == 0 {
                assert(query@.terms =~= empty_query().terms);
                assert(query@.operators =~= empty_query().operators);
            }
        }
        if local.hits.len() > 0 || query.is_empty() {
            return SearchStep::Answer(local);
        }
        match &self.client {
            None => SearchStep::Answer(local),
            Some(client) => SearchStep::AskServer(
                client.search(query.to_wire().as_str(), None, None, Some(limit)),
            ),
        }
    }
}

/// The request that asks the server for the hits of a query.
pub open spec fn server_search(query: QueryView, limit: usize) -> RequestView {
    plain_request(Method::Get, "/search"@).with_query("q"@, wire_of(query)).with_query(
        "limit"@,
        signed_digits(limit as int),
    )
}

/// The results that a page of the server's answer stands for.
pub fn server_results(account_id: i64, page: &MessageList) -> (result: SearchResults)
    ensures
        result.source == SearchSource::Server,
        result.total == page.total,
        result.hits@.len() == page.items@.len(),
        forall|i: int|
            0 <= i < page.items@.len() ==> hit_of_item(
                #[trigger] result.hits@[i],
                account_id,
                page.items@[i],
            ),
{
    let mut hits: Vec<SearchHit> = Vec::new();
    let mut i: usize = 0;
    while i < page.items.len()
        invariant
            i <= page.items@.len(),
            hits@.len() == i,
            forall|j: int|
                0 <= j < i ==> hit_of_item(#[trigger] hits@[j], account_id, page.items@[j]),
        decreases page.items@.len() - i,
    {
        hits.push(hit_from_item(account_id, &page.items[i]));
        i = i + 1;
    }
    SearchResults { hits, source: SearchSource::Server, total: page.total }
}

// -- maintaining the index -------------------------------------------------

/// The statement text that drops one document from the index.
pub open spec fn unindex_sql() -> Seq<char> {
    "DELETE FROM messages_fts WHERE CAST(account_id AS TEXT) = ? AND CAST(message_id AS INTEGER) = ?"@
}

/// Whether `statement` drops one document from the index.
pub open spec fn unindexes(statement: Statement, account_id: int, message_id: int) -> bool {
    &&& statement.sql@ == unindex_sql()
    &&& bind_views(statement.binds@) == seq![
        BindView::Text(signed_digits(account_id)),
        BindView::Int(message_id),
    ]
}

fn unindex_statement(account_id: i64, message_id: i64) -> (result: Statement)
    ensures
        unindexes(result, account_id as int, message_id as int),
{
    let mut binds: Vec<Bind> = Vec::new();
    binds.push(Bind::Text(decimal_signed(account_id)));
    binds.push(Bind::Int(message_id));
    proof {
        assert(bind_views(binds@) =~= seq![
            BindView::Text(signed_digits(account_id as int)),
            BindView::Int(message_id as int),
        ]);
    }
    Statement {
        sql:
            "DELETE FROM messages_fts WHERE CAST(account_id AS TEXT) = ? AND CAST(message_id AS INTEGER) = ?".to_owned(),
        binds,
    }
}

/// The statement text that adds one document to the index.
pub open spec fn index_sql() -> Seq<char> {
    "INSERT INTO messages_fts (subject, sender, recipients, body, attachments, account_id, message_id) VALUES (?, ?, ?, ?, ?, ?, ?)"@
}

/// The parameters that add one document to the index.
pub open spec fn index_binds(doc: SearchDocument) -> Seq<BindView> {
    seq![
        BindView::Text(doc.subject@),
        BindView::Text(doc.sender@),
        BindView::Text(doc.recipients@),
        BindView::Text(doc.body@),
        BindView::Text(doc.attachments@),
        BindView::Text(signed_digits(doc.account_id as int)),
        BindView::Int(doc.message_id as int),
    ]
}

/// The text of a document that a text clause looks at.
pub open spec fn indexed_text(doc: SearchDocument, target: TextTarget) -> Seq<char> {
    match target {
        TextTarget::Subject => doc.subject@,
        TextTarget::Sender => doc.sender@,
        TextTarget::Recipients => doc.recipients@,
        TextTarget::Body => doc.body@,
        TextTarget::Attachments => doc.attachments@,
        TextTarget::Any => Seq::empty(),
    }
}

/// Each text of a message is indexed in the column in which a search looks for it: the statement
/// names its columns in the order of its parameters, a column that a text clause names in the
/// `MATCH` expression gets the text that the clause is about, and the row is found again by its
/// account and its message.
pub proof fn law_each_text_is_indexed_where_it_is_looked_for(
    doc: SearchDocument,
    target: TextTarget,
    value: Seq<char>,
)
    requires
        target != TextTarget::Any,
    ensures
        ({
            let columns = seq![
                "subject"@,
                "sender"@,
                "recipients"@,
                "body"@,
                "attachments"@,
                "account_id"@,
                "message_id"@,
            ];
            let at = match target {
                TextTarget::Subject => 0int,
                TextTarget::Sender => 1int,
                TextTarget::Recipients => 2int,
                TextTarget::Body => 3int,
                _ => 4int,
            };
            &&& begins_with(
                index_sql(),
                "INSERT INTO messages_fts ("@ + joined(columns, ", "@) + ") VALUES ("@,
            )
            &&& index_binds(doc).len() == columns.len()
            &&& fts_condition(target, value) == columns[at] + ":"@ + fts_literal(value)
            &&& index_binds(doc)[at] == BindView::Text(indexed_text(doc, target))
            &&& index_binds(doc)[5] == BindView::Text(signed_digits(doc.account_id as int))
            &&& index_binds(doc)[6] == BindView::Int(doc.message_id as int)
        }),
{
    let columns = seq![
        "subject"@,
        "sender"@,
        "recipients"@,
        "body"@,
        "attachments"@,
        "account_id"@,
        "message_id"@,
    ];
    reveal_strlit("subject");
    reveal_strlit("sender");
    reveal_strlit("recipients");
    reveal_strlit("body");
    reveal_strlit("attachments");
    reveal_strlit("account_id");
    reveal_strlit("message_id");
    reveal_strlit(", ");
    reveal_strlit(":");
    reveal_strlit("subject:");
    reveal_strlit("sender:");
    reveal_strlit("recipients:");
    reveal_strlit("body:");
    reveal_strlit("attachments:");
    assert("subject"@ + ":"@ =~= "subject:"@);
    assert("sender"@ + ":"@ =~= "sender:"@);
    assert("recipients"@ + ":"@ =~= "recipients:"@);
    assert("body"@ + ":"@ =~= "body:"@);
    assert("attachments"@ + ":"@ =~= "attachments:"@);
    reveal_strlit("INSERT INTO messages_fts (");
    reveal_strlit(") VALUES (");
    reveal_strlit(
        "INSERT INTO messages_fts (subject, sender, recipients, body, attachments, account_id, message_id) VALUES (?, ?, ?, ?, ?, ?, ?)",
    );
    assert(columns.drop_last().drop_last().drop_last().drop_last().drop_last().drop_last()
        =~= seq!["subject"@]);
    reveal_with_fuel(joined, 8);
    let list = "subject"@ + ", "@ + "sender"@ + ", "@ + "recipients"@ + ", "@ + "body"@ + ", "@
        + "attachments"@ + ", "@ + "account_id"@ + ", "@ + "message_id"@;
    assert(joined(columns, ", "@) =~= list);
    let head = "INSERT INTO messages_fts ("@ + list + ") VALUES ("@;
    assert(index_sql().subrange(0, head.len() as int) =~= head);
}

/// Every parameter of an indexed document is of the kind that its column holds: the texts and the
/// account are texts, and the message is a number.
pub proof fn law_a_document_fits_its_columns(doc: SearchDocument)
    ensures
        ({
            let indexed = index_binds(doc);
            &&& indexed.len() == 7 && indexed[0] is Text && indexed[1] is Text && indexed[2] is Text
            &&& indexed[3] is Text && indexed[4] is Text
            &&& indexed[5] == BindView::Text(signed_digits(doc.account_id as int))
            &&& indexed[6] == BindView::Int(doc.message_id as int)
        }),
{
}

/// Indexing a message again replaces it: what drops a document names the row by the very account
/// and message under which it was added.
pub proof fn law_a_document_is_dropped_as_it_was_added(statement: Statement, doc: SearchDocument)
    requires
        unindexes(statement, doc.account_id as int, doc.message_id as int),
    ensures
        bind_views(statement.binds@).len() == 2,
        bind_views(statement.binds@)[0] == index_binds(doc)[5],
        bind_views(statement.binds@)[1] == index_binds(doc)[6],
{
}

/// What the server found is shown as the server said it: each field of the item in the field of
/// its own name, for the account that searched.
pub proof fn law_a_server_hit_shows_the_item(hit: SearchHit, account_id: i64, item: MessageItem)
    requires
        hit_of_item(hit, account_id, item),
    ensures
        hit.account_id == account_id,
        hit.message_id == item.id,
        hit.folder_id == item.folder_id,
        item.subject matches Some(subject) ==> hit.subject@ == subject@,
        item.from matches Some(from) ==> hit.from_address@ == from.address@,
        opt_view(hit.snippet) == opt_view(item.snippet),
        item.flags matches Some(flags) ==> hit.flags@ == flags@,
        opt_view(hit.internal_date) == opt_view(item.internal_date),
{
}

/// The server is asked the same question: what it gets as the search text reads back as the query,
/// and it is asked for no more hits than were wanted, and for no mailbox or folder in particular.
pub proof fn law_the_server_is_asked_the_same(query: QueryView, limit: usize)
    requires
        plain_query(query),
    ensures
        server_search(query, limit).param("q"@) matches Some(text) && parsed(text) == Ok::<
            QueryView,
            Seq<char>,
        >(query),
        server_search(query, limit).param("limit"@) == Some(signed_digits(limit as int)),
        server_search(query, limit).query.len() == 2,
        server_search(query, limit) == search_request(
            wire_of(query),
            None,
            None,
            Some(limit as int),
        ),
{
    law_wire_reads_back(query);
    law_a_server_search_names_what_it_asks_for(wire_of(query), None, None, Some(limit as int));
}

/// The statements that add (or replace) one document in the index: the old row is
/// dropped first, so indexing a document twice replaces it. Without an index there
/// is nothing to do.
pub fn index_document(mode: SearchMode, doc: &SearchDocument) -> (result: Vec<Statement>)
    ensures
        mode == SearchMode::Like ==> result@.len() == 0,
        mode == SearchMode::Fts5 ==> {
            &&& result@.len() == 2
            &&& unindexes(result@[0], doc.account_id as int, doc.message_id as int)
            &&& result@[1].sql@ == index_sql()
            &&& bind_views(result@[1].binds@) == index_binds(*doc)
        },
{
    let mut out: Vec<Statement> = Vec::new();
    if mode == SearchMode::Like {
        return out;
    }
    out.push(unindex_statement(doc.account_id, doc.message_id));
    let mut binds: Vec<Bind> = Vec::new();
    binds.push(Bind::Text(doc.subject.clone()));
    binds.push(Bind::Text(doc.sender.clone()));
    binds.push(Bind::Text(doc.recipients.clone()));
    binds.push(Bind::Text(doc.body.clone()));
    binds.push(Bind::Text(doc.attachments.clone()));
    binds.push(Bind::Text(decimal_signed(doc.account_id)));
    binds.push(Bind::Int(doc.message_id));
    proof {
        assert(bind_views(binds@) =~= seq![
            BindView::Text(doc.subject@),
            BindView::Text(doc.sender@),
            BindView::Text(doc.recipients@),
            BindView::Text(doc.body@),
            BindView::Text(doc.attachments@),
            BindView::Text(signed_digits(doc.account_id as int)),
            BindView::Int(doc.message_id as int),
        ]);
    }
    out.push(
        Statement {
            sql:
                "INSERT INTO messages_fts (subject, sender, recipients, body, attachments, account_id, message_id) VALUES (?, ?, ?, ?, ?, ?, ?)".to_owned(),
            binds,
        },
    );
    out
}

/// The statements that drop one document from the index; dropping one that was
/// never indexed does no harm. Without an index there is nothing to do.
pub fn unindex_document(mode: SearchMode, account_id: i64, message_id: i64) -> (result: Vec<
    Statement,
>)
    ensures
        mode == SearchMode::Like ==> result@.len() == 0,
        mode == SearchMode::Fts5 ==> result@.len() == 1 && unindexes(
            result@[0],
            account_id as int,
            message_id as int,
        ),
{
    let mut out: Vec<Statement> = Vec::new();
    if mode == SearchMode::Fts5 {
        out.push(unindex_statement(account_id, message_id));
    }
    out
}

/// The statements that drop every indexed document of a folder whose cached
/// messages are `message_ids`. Without an index there is nothing to do.
pub fn unindex_folder(mode: SearchMode, account_id: i64, message_ids: &Vec<i64>) -> (result: Vec<
    Statement,
>)
    ensures
        mode == SearchMode::Like ==> result@.len() == 0,
        mode == SearchMode::Fts5 ==> {
            &&& result@.len() == message_ids@.len()
            &&& forall|i: int|
                0 <= i < message_ids@.len() ==> unindexes(
                    #[trigger] result@[i],
                    account_id as int,
                    message_ids@[i] as int,
                )
        },
{
    let mut out: Vec<Statement> = Vec::new();
    if mode == SearchMode::Like {
        return out;
    }
    let mut i: usize = 0;
    while i < message_ids.len()
        invariant
            i <= message_ids@.len(),
            out@.len() == i,
            forall|j: int|
                0 <= j < i ==> unindexes(
                    #[trigger] out@[j],
                    account_id as int,
                    message_ids@[j] as int,
                ),
        decreases message_ids@.len() - i,
    {
        out.push(unindex_statement(account_id, message_ids[i]));
        i = i + 1;
    }
    out
}

// -- the scope of a search -------------------------------------------------

proof fn lemma_prefix_of_join(first: Seq<Seq<char>>, rest: Seq<Seq<char>>, separator: Seq<char>)
    requires
        first.len() > 0,
    ensures
        begins_with(joined(first + rest, separator), joined(first, separator)),
    decreases rest.len(),
{
    let all = first + rest;
    let head = joined(first, separator);
    if rest.len() == 0 {
        assert(all =~= first);
        assert(head.take(head.len() as int) =~= head);
    } else {
        lemma_prefix_of_join(first, rest.drop_last(), separator);
        assert(all.drop_last() =~= first + rest.drop_last());
        let shorter = joined(all.drop_last(), separator);
        let whole = joined(all, separator);
        assert(whole == shorter + separator + all.last());
        assert(whole.take(head.len() as int) =~= shorter.take(head.len() as int));
    }
}

proof fn lemma_first_bind(first: PieceView, rest: Seq<PieceView>)
    requires
        first.binds.len() == 1,
    ensures
        piece_binds(seq![first] + rest).len() > 0,
        piece_binds(seq![first] + rest)[0] == first.binds[0],
    decreases rest.len(),
{
    let all = seq![first] + rest;
    if rest.len() == 0 {
        assert(all.drop_last() =~= Seq::<PieceView>::empty());
        assert(piece_binds(all.drop_last()) =~= Seq::<BindView>::empty());
        assert(piece_binds(all) =~= first.binds);
    } else {
        lemma_first_bind(first, rest.drop_last());
        assert(all.drop_last() =~= seq![first] + rest.drop_last());
    }
}

/// A search never leaves its account and never finds a deleted message: every
/// condition starts with the account, bound as the first parameter, and with the
/// deletion mark, and whatever else the query asks for is only added to that.
pub proof fn law_a_search_stays_in_its_account(
    mode: SearchMode,
    account_id: int,
    query: QueryView,
)
    ensures
        begins_with(
            where_sql(mode, account_id, query),
            "m.account_id = ?"@ + " AND "@ + "m.deleted = 0"@,
        ),
        where_binds(mode, account_id, query).len() > 0,
        where_binds(mode, account_id, query)[0] == BindView::Int(account_id),
{
    let scope = scope_pieces(account_id);
    let pieces = where_pieces(mode, account_id, query);
    let rest = pieces.skip(2);
    assert(pieces =~= scope + rest);
    assert(piece_clauses(pieces) =~= piece_clauses(scope) + piece_clauses(rest));
    lemma_prefix_of_join(piece_clauses(scope), piece_clauses(rest), " AND "@);
    let clauses = piece_clauses(scope);
    assert(clauses.drop_last() =~= seq!["m.account_id = ?"@]);
    assert(joined(clauses.drop_last(), " AND "@) == "m.account_id = ?"@);
    assert(joined(clauses, " AND "@) == "m.account_id = ?"@ + " AND "@ + "m.deleted = 0"@);
    assert(pieces =~= seq![scope[0]] + pieces.skip(1));
    lemma_first_bind(scope[0], pieces.skip(1));
}

} // verus!
