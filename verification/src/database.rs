//! The local SQLite cache: which search backend is used, and the statements whose
//! text depends on data.

use vstd::prelude::*;

use crate::error::{ClientError, ClientResult};
use crate::text::{decimal_signed, same, signed_digits};

verus! {

/// How locally-cached mail is searched.
#[derive(Debug, Clone, Copy, PartialEq, Eq, Structural)]
pub enum SearchMode {
    /// A real FTS5 index exists; queries use `MATCH`.
    Fts5,
    /// No FTS5 in the linked SQLite: fall back to `LIKE '%term%'` scans.
    Like,
}

impl SearchMode {
    /// The stored name of the mode.
    pub open spec fn name(self) -> Seq<char> {
        match self {
            SearchMode::Fts5 => "fts5"@,
            SearchMode::Like => "like"@,
        }
    }

    /// The string stored in `settings` so the fallback survives a restart.
    pub fn as_str(self) -> (result: &'static str)
        ensures
            result@ == self.name(),
    {
        match self {
            SearchMode::Fts5 => "fts5",
            SearchMode::Like => "like",
        }
    }
}

/// One row of the local search index.
#[derive(Debug, Clone, PartialEq, Eq)]
pub struct SearchDocument {
    /// The account the message belongs to.
    pub account_id: i64,
    /// The server-side message id.
    pub message_id: i64,
    /// The folder the message currently lives in.
    pub folder_id: Option<i64>,
    /// `Subject:` header.
    pub subject: String,
    /// Sender address (and display name), as one string.
    pub sender: String,
    /// Comma-joined recipient addresses.
    pub recipients: String,
    /// Plain-text body, when it has been downloaded.
    pub body: String,
    /// Attachment file names, space separated.
    pub attachments: String,
}

impl Default for SearchDocument {
    fn default() -> (result: SearchDocument)
        ensures
            result.account_id == 0 && result.message_id == 0 && result.folder_id is None,
            result.subject@ == Seq::<char>::empty() && result.sender@ == Seq::<char>::empty(),
            result.recipients@ == Seq::<char>::empty() && result.body@ == Seq::<char>::empty(),
            result.attachments@ == Seq::<char>::empty(),
    {
        SearchDocument {
            account_id: 0,
            message_id: 0,
            folder_id: None,
            subject: String::new(),
            sender: String::new(),
            recipients: String::new(),
            body: String::new(),
            attachments: String::new(),
        }
    }
}

// -- statements ------------------------------------------------------------

/// One bound parameter of a statement.
#[derive(Debug, Clone, PartialEq, Eq)]
pub enum Bind {
    /// An integer.
    Int(i64),
    /// Text.
    Text(String),
    /// `NULL`.
    Null,
}

/// What a [`Bind`] stands for.
pub enum BindView {
    /// An integer.
    Int(int),
    /// Text.
    Text(Seq<char>),
    /// `NULL`.
    Null,
}

impl Bind {
    /// What the parameter stands for.
    pub open spec fn view(&self) -> BindView {
        match self {
            Bind::Int(n) => BindView::Int(*n as int),
            Bind::Text(s) => BindView::Text(s@),
            Bind::Null => BindView::Null,
        }
    }

    /// An optional integer, `NULL` when there is none.
    pub fn int_if(value: Option<i64>) -> (result: Bind)
        ensures
            result@ == int_bind(value),
    {
        match value {
            Some(n) => Bind::Int(n),
            None => Bind::Null,
        }
    }

    /// Text.
    pub fn text(value: &str) -> (result: Bind)
        ensures
            result@ == BindView::Text(value@),
    {
        Bind::Text(value.to_owned())
    }

    /// An optional text, `NULL` when there is none.
    pub fn text_if(value: &Option<String>) -> (result: Bind)
        ensures
            result@ == text_bind(*value),
    {
        match value {
            Some(s) => Bind::Text(s.clone()),
            None => Bind::Null,
        }
    }
}

/// How an optional integer is bound.
pub open spec fn int_bind(value: Option<i64>) -> BindView {
    match value {
        Some(n) => BindView::Int(n as int),
        None => BindView::Null,
    }
}

/// How an optional text is bound.
pub open spec fn text_bind(value: Option<String>) -> BindView {
    match value {
        Some(s) => BindView::Text(s@),
        None => BindView::Null,
    }
}

/// The views of a list of parameters.
pub open spec fn bind_views(binds: Seq<Bind>) -> Seq<BindView> {
    binds.map_values(|b: Bind| b@)
}

/// A statement and its parameters, in the order of the `?` marks.
#[derive(Debug, Clone, PartialEq, Eq)]
pub struct Statement {
    /// The SQL text.
    pub sql: String,
    /// One parameter per `?`.
    pub binds: Vec<Bind>,
}

impl Statement {
    /// Whether this is the given text with the given parameters.
    pub open spec fn stands_for(&self, sql: Seq<char>, binds: Seq<BindView>) -> bool {
        self.sql@ == sql && bind_views(self.binds@) =~= binds
    }

    /// A statement without parameters.
    pub fn new(sql: &str) -> (result: Statement)
        ensures
            result.stands_for(sql@, Seq::empty()),
    {
        let result = Statement { sql: sql.to_owned(), binds: Vec::new() };
        assert(bind_views(result.binds@) =~= Seq::<BindView>::empty());
        result
    }

    /// The statement with one more parameter.
    pub fn bind(self, value: Bind) -> (result: Statement)
        ensures
            result.stands_for(self.sql@, bind_views(self.binds@).push(value@)),
    {
        let mut binds = self.binds;
        binds.push(value);
        assert(bind_views(binds@) =~= bind_views(self.binds@).push(value@));
        Statement { sql: self.sql, binds }
    }
}

/// How many `?` marks a text holds.
pub open spec fn marks(s: Seq<char>) -> nat
    decreases s.len(),
{
    if s.len() == 0 {
        0
    } else {
        marks(s.drop_last()) + if s.last() == '?' {
            1nat
        } else {
            0nat
        }
    }
}

/// Marks add up over concatenation.
pub proof fn lemma_marks_concat(a: Seq<char>, b: Seq<char>)
    ensures
        marks(a + b) == marks(a) + marks(b),
    decreases b.len(),
{
    if b.len() == 0 {
        assert(a + b =~= a);
    } else {
        assert((a + b).drop_last() =~= a + b.drop_last());
        lemma_marks_concat(a, b.drop_last());
    }
}

/// A text without `?` has no marks.
pub proof fn lemma_no_marks(s: Seq<char>)
    requires
        forall|i: int| 0 <= i < s.len() ==> s[i] != '?',
    ensures
        marks(s) == 0,
    decreases s.len(),
{
    if s.len() > 0 {
        assert(s[s.len() - 1] != '?');
        lemma_no_marks(s.drop_last());
    }
}

// -- opening ---------------------------------------------------------------

/// The search backend: a forced `Like` is honoured, anything else needs the extension.
pub open spec fn resolved(forced: Option<SearchMode>, available: bool) -> SearchMode {
    if forced == Some(SearchMode::Like) || !available {
        SearchMode::Like
    } else {
        SearchMode::Fts5
    }
}

/// The text index is used wherever it can be and nobody said otherwise.
pub proof fn law_the_index_is_used_where_it_can_be(forced: Option<SearchMode>, available: bool)
    ensures
        resolved(forced, available) == SearchMode::Fts5 <==> available && forced != Some(
            SearchMode::Like,
        ),
{
}

/// Decide the search backend. A forced `Fts5` on a build without the extension
/// degrades rather than failing every query.
pub fn resolve_search_mode(forced: Option<SearchMode>, available: bool) -> (result: SearchMode)
    ensures
        result == resolved(forced, available),
{
    match forced {
        Some(SearchMode::Like) => SearchMode::Like,
        _ => if available {
            SearchMode::Fts5
        } else {
            SearchMode::Like
        },
    }
}

/// The size of the connection pool: every in-memory connection would get its own
/// empty database, so only a file may have more than one.
pub fn max_connections(on_disk: bool) -> (result: u32)
    ensures
        result == if on_disk { 8u32 } else { 1u32 },
{
    if on_disk {
        8
    } else {
        1
    }
}

// -- statements whose text depends on a name -------------------------------

/// The pragmas whose value may be asked for.
pub open spec fn pragma_allowed(name: Seq<char>) -> bool {
    name == "journal_mode"@ || name == "foreign_keys"@ || name == "busy_timeout"@ || name
        == "synchronous"@
}

/// Whether the value of the pragma is text; the others are integers.
pub fn pragma_is_text(name: &str) -> (result: bool)
    ensures
        result == (name@ == "journal_mode"@),
{
    same(name, "journal_mode")
}

/// The tables that hold rows per account.
pub open spec fn account_scoped(table: Seq<char>) -> bool {
    ||| table == "mailboxes"@
    ||| table == "folders"@
    ||| table == "messages"@
    ||| table == "attachments"@
    ||| table == "drafts"@
    ||| table == "outbox"@
    ||| table == "pending_operations"@
    ||| table == "devices"@
    ||| table == "sync_state"@
}

/// The statements remove everything cached for an account: its index rows when there
/// is an index (where the account is stored as text), then the account itself, from
/// which the other rows cascade.
pub open spec fn wipes(statements: Seq<Statement>, mode: SearchMode, account_id: int) -> bool {
    &&& statements.len() == (if mode == SearchMode::Fts5 { 2int } else { 1int })
    &&& mode == SearchMode::Fts5 ==> statements[0].stands_for(
        "DELETE FROM messages_fts WHERE account_id = ?"@,
        seq![BindView::Text(signed_digits(account_id))],
    )
    &&& statements.last().stands_for(
        "DELETE FROM accounts WHERE id = ?"@,
        seq![BindView::Int(account_id)],
    )
}

/// A wipe concerns one account and leaves nothing of it: each of its statements selects by the
/// account alone, the index is cleared where there is one, and the account itself goes last.
pub proof fn law_a_wipe_concerns_one_account(
    statements: Seq<Statement>,
    mode: SearchMode,
    account_id: int,
    i: int,
)
    requires
        wipes(statements, mode, account_id),
        0 <= i < statements.len(),
    ensures
        bind_views(statements[i].binds@).len() == 1,
        bind_views(statements[i].binds@)[0] == BindView::Int(account_id) || bind_views(
            statements[i].binds@,
        )[0] == BindView::Text(signed_digits(account_id)),
        i == statements.len() - 1 <==> statements[i].sql@ == "DELETE FROM accounts WHERE id = ?"@,
        mode == SearchMode::Fts5 ==> statements[0].sql@
            == "DELETE FROM messages_fts WHERE account_id = ?"@,
{
    reveal_strlit("DELETE FROM accounts WHERE id = ?");
    reveal_strlit("DELETE FROM messages_fts WHERE account_id = ?");
    assert("DELETE FROM accounts WHERE id = ?"@.len() == 33);
    assert("DELETE FROM messages_fts WHERE account_id = ?"@.len() == 45);
}

/// A text with exactly one `?` has one mark.
pub proof fn lemma_one_mark(s: Seq<char>, p: int)
    requires
        0 <= p < s.len(),
        s[p] == '?',
        forall|i: int| 0 <= i < s.len() && i != p ==> s[i] != '?',
    ensures
        marks(s) == 1,
{
    lemma_no_marks(s.take(p));
    lemma_no_marks(s.skip(p + 1));
    assert(seq!['?'].drop_last() =~= Seq::<char>::empty());
    assert(marks(Seq::<char>::empty()) == 0);
    assert(marks(seq!['?']) == 1);
    lemma_marks_concat(s.take(p), seq!['?']);
    lemma_marks_concat(s.take(p) + seq!['?'], s.skip(p + 1));
    assert(s =~= s.take(p) + seq!['?'] + s.skip(p + 1));
}

// -- settings and the index ------------------------------------------------

/// The `settings` key that holds the search backend.
pub const KEY_SEARCH_MODE: &'static str = "cache.search_mode";

/// Reads a setting; its one column is called `value`.
pub const GET_SETTING: &'static str = "SELECT value FROM settings WHERE key = ?";

/// Writes a setting, over the old value where there is one.
pub const PUT_SETTING: &'static str =
    "INSERT INTO settings (key, value, updated_at) VALUES (?, ?, ?) ON CONFLICT(key) DO UPDATE SET value = excluded.value, updated_at = excluded.updated_at";

/// Creates a scratch table, which only works where the text index is available.
pub const PROBE_INDEX: &'static str =
    "CREATE VIRTUAL TABLE IF NOT EXISTS __ferroma_fts5_probe USING fts5(x)";

/// Drops the scratch table.
pub const DROP_PROBE: &'static str = "DROP TABLE IF EXISTS __ferroma_fts5_probe";

/// Creates the text index.
pub const CREATE_INDEX: &'static str =
    "CREATE VIRTUAL TABLE IF NOT EXISTS messages_fts USING fts5(subject, sender, recipients, body, attachments, account_id UNINDEXED, message_id UNINDEXED, tokenize = 'unicode61 remove_diacritics 2')";

/// Lists the tables and views of the cache by name; its one column is called `name`.
pub const TABLE_NAMES: &'static str =
    "SELECT name FROM sqlite_master WHERE type IN ('table','view') AND name NOT LIKE 'sqlite_%' ORDER BY name ASC";

/// The client's SQLite cache: which search backend it uses, and its statements.
#[derive(Debug, Clone, Copy, PartialEq, Eq, Structural)]
pub struct ClientDatabase {
    mode: SearchMode,
}

impl ClientDatabase {
    /// The search backend.
    pub closed spec fn mode(&self) -> SearchMode {
        self.mode
    }

    /// The cache, with the search backend that is available.
    pub fn open(available: bool) -> (result: ClientDatabase)
        ensures
            result.mode() == resolved(None, available),
    {
        ClientDatabase { mode: resolve_search_mode(None, available) }
    }

    /// The cache, with the search backend forced instead of detected.
    pub fn open_with_search_mode(mode: SearchMode, available: bool) -> (result: ClientDatabase)
        ensures
            result.mode() == resolved(Some(mode), available),
    {
        ClientDatabase { mode: resolve_search_mode(Some(mode), available) }
    }

    /// Which search backend is active.
    pub fn search_mode(&self) -> (result: SearchMode)
        ensures
            result == self.mode(),
    {
        self.mode
    }

    /// Whether the text index is available.
    pub fn fts5_available(&self) -> (result: bool)
        ensures
            result == (self.mode() == SearchMode::Fts5),
    {
        self.mode == SearchMode::Fts5
    }

    /// The statement that lists every table and view in the cache, sorted by name.
    pub fn table_names() -> (result: Statement)
        ensures
            result.stands_for(TABLE_NAMES@, Seq::empty()),
    {
        Statement::new(TABLE_NAMES)
    }

    /// The statement that reads a setting.
    pub fn get_setting(key: &str) -> (result: Statement)
        ensures
            result.stands_for(GET_SETTING@, seq![BindView::Text(key@)]),
    {
        Statement::new(GET_SETTING).bind(Bind::text(key))
    }

    /// The statement that writes a setting.
    pub fn put_setting(key: &str, value: &str, now: &str) -> (result: Statement)
        ensures
            result.stands_for(
                PUT_SETTING@,
                seq![BindView::Text(key@), BindView::Text(value@), BindView::Text(now@)],
            ),
    {
        Statement::new(PUT_SETTING).bind(Bind::text(key)).bind(Bind::text(value)).bind(
            Bind::text(now),
        )
    }

    /// The statement that reads a pragma. Its name cannot be bound, so only the known
    /// ones are let through.
    pub fn pragma(name: &str) -> (result: ClientResult<String>)
        ensures
            match result {
                Ok(sql) => pragma_allowed(name@) && sql@ == "PRAGMA "@ + name@,
                Err(ClientError::Invalid(message)) => !pragma_allowed(name@) && message@ == "pragma "@
                    + name@ + " is not whitelisted"@,
                Err(_) => false,
            },
    {
        if same(name, "journal_mode") || same(name, "foreign_keys") || same(name, "busy_timeout")
            || same(name, "synchronous") {
            let mut sql = "PRAGMA ".to_owned();
            sql.append(name);
            Ok(sql)
        } else {
            let mut message = "pragma ".to_owned();
            message.append(name);
            message.append(" is not whitelisted");
            Err(ClientError::Invalid(message))
        }
    }

    /// The statement that counts an account's rows in a table.
    pub fn count_account_rows(table: &str, account_id: i64) -> (result: ClientResult<Statement>)
        ensures
            match result {
                Ok(statement) => account_scoped(table@) && statement.stands_for(
                    "SELECT COUNT(*) AS n FROM "@ + table@ + " WHERE account_id = ?"@,
                    seq![BindView::Int(account_id as int)],
                ),
                Err(ClientError::Invalid(message)) => !account_scoped(table@) && message@ == "table "@
                    + table@ + " is not account-scoped"@,
                Err(_) => false,
            },
    {
        let allowed = same(table, "mailboxes") || same(table, "folders") || same(table, "messages")
            || same(table, "attachments") || same(table, "drafts") || same(table, "outbox") || same(
            table,
            "pending_operations",
        ) || same(table, "devices") || same(table, "sync_state");
        if !allowed {
            let mut message = "table ".to_owned();
            message.append(table);
            message.append(" is not account-scoped");
            return Err(ClientError::Invalid(message));
        }
        let mut sql = "SELECT COUNT(*) AS n FROM ".to_owned();
        sql.append(table);
        sql.append(" WHERE account_id = ?");
        Ok(Statement::new(sql.as_str()).bind(Bind::Int(account_id)))
    }

    /// The statements that remove everything cached for an account.
    pub fn wipe_account(&self, account_id: i64) -> (result: Vec<Statement>)
        ensures
            wipes(result@, self.mode(), account_id as int),
    {
        let mut out: Vec<Statement> = Vec::new();
        if self.mode == SearchMode::Fts5 {
            out.push(
                Statement::new("DELETE FROM messages_fts WHERE account_id = ?").bind(
                    Bind::Text(decimal_signed(account_id)),
                ),
            );
        }
        out.push(Statement::new("DELETE FROM accounts WHERE id = ?").bind(Bind::Int(account_id)));
        out
    }

    /// The statements that prepare the text index: a scratch table from an interrupted
    /// run is dropped, and the index is created where the backend uses one.
    pub fn ensure_search_index(&self) -> (result: Vec<Statement>)
        ensures
            result@.len() == (if self.mode() == SearchMode::Fts5 { 2int } else { 1int }),
            result@[0].stands_for(DROP_PROBE@, Seq::empty()),
            self.mode() == SearchMode::Fts5 ==> result@[1].stands_for(CREATE_INDEX@, Seq::empty()),
    {
        let mut out: Vec<Statement> = Vec::new();
        out.push(Statement::new(DROP_PROBE));
        if self.mode == SearchMode::Fts5 {
            out.push(Statement::new(CREATE_INDEX));
        }
        out
    }
}

} // verus!
