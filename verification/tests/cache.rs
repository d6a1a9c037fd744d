//! The statements of the library, run on a real cache database.

use ferroma_client::account::{
    AccountId, AccountManager, AccountRow, AccountSettings, SqliteTokenStore,
};
use ferroma_client::api::DraftRecord;
use ferroma_client::attachment::{AttachmentCache, EVICTABLE};
use ferroma_client::cli::primary_address;
use ferroma_client::database::{
    Bind, ClientDatabase, SearchDocument, SearchMode, Statement, PROBE_INDEX,
};
use ferroma_client::draft::{Draft, DraftRow, DraftStore, NewDraft, PullPass};
use ferroma_client::error::ClientError;
use ferroma_client::json::Json;
use ferroma_client::notification::{
    mark_delivered, pending_notifications, record_notification, AccountAwarePolicy, Notification,
};
use ferroma_client::operations::{OperationKind, PendingQueue};
use ferroma_client::outbox::{Acceptance, NewOutboxItem, Outbox, OutboxState};
use ferroma_client::search::{
    index_document, unindex_document, unindex_folder, SearchExecutor, SearchQuery,
};
use ferroma_client::time::Timestamp;
use sqlx::{ConnectOptions, Connection, Row};

const NOW: Timestamp = Timestamp { secs: 1_789_560_000, nanos: 0 };
const AT: &str = "2026-09-16T12:00:00Z";

const SCHEMA: &[&str] = &[
    "CREATE TABLE accounts (id INTEGER PRIMARY KEY, email TEXT NOT NULL UNIQUE, display_name TEXT,
        base_url TEXT NOT NULL, device_uid TEXT NOT NULL, device_id INTEGER, user_id INTEGER,
        paused INTEGER NOT NULL DEFAULT 0, sync_window_days INTEGER, cache_limit_bytes INTEGER,
        protocol_version INTEGER, server_version TEXT, created_at TEXT NOT NULL,
        updated_at TEXT NOT NULL, last_sync_at TEXT, last_error TEXT, refresh_token TEXT)",
    "CREATE TABLE folders (account_id INTEGER NOT NULL REFERENCES accounts(id) ON DELETE CASCADE,
        id INTEGER NOT NULL, mailbox_id INTEGER, name TEXT NOT NULL)",
    "CREATE TABLE messages (account_id INTEGER NOT NULL REFERENCES accounts(id) ON DELETE CASCADE,
        id INTEGER NOT NULL, folder_id INTEGER, subject TEXT, from_address TEXT, to_summary TEXT,
        cc_summary TEXT, snippet TEXT, flags TEXT NOT NULL DEFAULT '', has_attachments INTEGER,
        internal_date TEXT, deleted INTEGER NOT NULL DEFAULT 0)",
    "CREATE TABLE message_bodies (account_id INTEGER, message_id INTEGER, text_body TEXT)",
    "CREATE TABLE attachments (account_id INTEGER, id INTEGER, message_id INTEGER, filename TEXT)",
    "CREATE VIRTUAL TABLE messages_fts USING fts5(subject, sender, recipients, body, attachments,
        account_id UNINDEXED, message_id UNINDEXED)",
    "CREATE TABLE sync_state (account_id INTEGER, folder_id INTEGER, cursor TEXT, status TEXT,
        last_error TEXT, last_sync_at TEXT)",
    "CREATE TABLE mailboxes (account_id INTEGER, id INTEGER, address TEXT, is_primary INTEGER)",
    "CREATE TABLE settings (key TEXT PRIMARY KEY, value TEXT, updated_at TEXT)",
    "CREATE TABLE notifications (id INTEGER PRIMARY KEY, account_id INTEGER, kind TEXT, title TEXT,
        body TEXT, payload TEXT, created_at TEXT, delivered INTEGER)",
    "CREATE TABLE drafts (account_id INTEGER NOT NULL, local_uid TEXT NOT NULL, id INTEGER,
        mailbox_id INTEGER, subject TEXT NOT NULL DEFAULT '', text_body TEXT, html_body TEXT,
        to_json TEXT NOT NULL DEFAULT '[]', cc_json TEXT NOT NULL DEFAULT '[]',
        bcc_json TEXT NOT NULL DEFAULT '[]', in_reply_to TEXT,
        references_json TEXT NOT NULL DEFAULT '[]',
        attachment_ids_json TEXT NOT NULL DEFAULT '[]', server_updated_at TEXT,
        local_updated_at TEXT NOT NULL, dirty INTEGER NOT NULL, deleted INTEGER NOT NULL,
        PRIMARY KEY (account_id, local_uid))",
    "CREATE TABLE outbox (id INTEGER PRIMARY KEY, account_id INTEGER NOT NULL,
        operation_id TEXT NOT NULL UNIQUE, state TEXT NOT NULL, mailbox_id INTEGER,
        from_address TEXT, to_json TEXT, cc_json TEXT, bcc_json TEXT, subject TEXT, text_body TEXT,
        html_body TEXT, attachment_ids_json TEXT, in_reply_to TEXT, references_json TEXT,
        created_at TEXT, updated_at TEXT, attempts INTEGER, last_error TEXT,
        server_message_id INTEGER, queued_recipients INTEGER, sent_at TEXT)",
    "CREATE TABLE pending_operations (seq INTEGER PRIMARY KEY, operation_id TEXT NOT NULL UNIQUE,
        account_id INTEGER, kind TEXT, payload TEXT, created_at TEXT,
        attempts INTEGER NOT NULL DEFAULT 0, last_error TEXT)",
    "CREATE TABLE blob_cache (sha256 TEXT PRIMARY KEY, size_bytes INTEGER, path TEXT,
        last_access TEXT, access_seq INTEGER, pinned INTEGER)",
];

struct Cache {
    runtime: tokio::runtime::Runtime,
    connection: sqlx::SqliteConnection,
}

impl Cache {
    fn open() -> Cache {
        let runtime = tokio::runtime::Builder::new_current_thread()
            .enable_all()
            .build()
            .expect("runtime");
        let options = sqlx::sqlite::SqliteConnectOptions::new()
            .in_memory(true)
            .foreign_keys(true);
        let connection = runtime.block_on(options.connect()).expect("open");
        let mut cache = Cache { runtime, connection };
        for sql in SCHEMA {
            cache.run(&Statement { sql: sql.to_string(), binds: Vec::new() });
        }
        cache
    }

    fn run(&mut self, statement: &Statement) -> u64 {
        let mut query = sqlx::query(&statement.sql);
        for bind in &statement.binds {
            query = match bind {
                Bind::Int(n) => query.bind(*n),
                Bind::Text(text) => query.bind(text.clone()),
                Bind::Null => query.bind(None::<String>),
            };
        }
        let done = self.runtime.block_on(query.execute(&mut self.connection));
        done.expect(&statement.sql).rows_affected()
    }

    fn rows(&mut self, statement: &Statement) -> Vec<sqlx::sqlite::SqliteRow> {
        let mut query = sqlx::query(&statement.sql);
        for bind in &statement.binds {
            query = match bind {
                Bind::Int(n) => query.bind(*n),
                Bind::Text(text) => query.bind(text.clone()),
                Bind::Null => query.bind(None::<String>),
            };
        }
        let rows = self.runtime.block_on(query.fetch_all(&mut self.connection));
        rows.expect(&statement.sql)
    }

    fn sql(&mut self, sql: &str) -> Vec<sqlx::sqlite::SqliteRow> {
        self.rows(&Statement { sql: sql.to_string(), binds: Vec::new() })
    }

    fn ping(&mut self) {
        self.runtime.block_on(self.connection.ping()).expect("ping");
    }

    fn add_account(&mut self, email: &str) -> AccountId {
        let statement = AccountManager::insert(email, &None, "http://x/client", "dev", AT);
        assert_eq!(self.run(&statement), 1);
        let row = self.sql("SELECT MAX(id) AS id FROM accounts").remove(0);
        AccountId(row.get::<i64, _>("id"))
    }

    fn account(&mut self, id: AccountId) -> ferroma_client::Account {
        let sql = format!("SELECT * FROM accounts WHERE id = {}", id.get());
        let row = self.sql(&sql).pop().map(|row| AccountRow {
            id: row.get("id"),
            email: row.get("email"),
            display_name: row.get("display_name"),
            base_url: row.get("base_url"),
            device_uid: row.get("device_uid"),
            device_id: row.get("device_id"),
            user_id: row.get("user_id"),
            paused: row.get("paused"),
            sync_window_days: row.get("sync_window_days"),
            cache_limit_bytes: row.get("cache_limit_bytes"),
            protocol_version: row.get("protocol_version"),
            server_version: row.get("server_version"),
            created_at: row.get("created_at"),
            updated_at: row.get("updated_at"),
            last_sync_at: row.get("last_sync_at"),
            last_error: row.get("last_error"),
            refresh_token_present: row.get::<Option<String>, _>("refresh_token").is_some(),
        });
        AccountManager::require(id, AccountManager::get(row, NOW)).expect("account")
    }

    fn draft(&mut self, local_uid: &str) -> Option<Draft> {
        let statement = Statement {
            sql: "SELECT * FROM drafts WHERE account_id = 1 AND local_uid = ?".to_string(),
            binds: vec![Bind::Text(local_uid.to_string())],
        };
        self.rows(&statement).pop().map(|row| Draft::from_row(draft_row(&row), NOW))
    }
}

fn draft_row(row: &sqlx::sqlite::SqliteRow) -> DraftRow {
    DraftRow {
        account_id: row.get("account_id"),
        local_uid: row.get("local_uid"),
        id: row.get("id"),
        mailbox_id: row.get("mailbox_id"),
        subject: row.get("subject"),
        text_body: row.get("text_body"),
        html_body: row.get("html_body"),
        to_json: row.get("to_json"),
        cc_json: row.get("cc_json"),
        bcc_json: row.get("bcc_json"),
        in_reply_to: row.get("in_reply_to"),
        references_json: row.get("references_json"),
        attachment_ids_json: row.get("attachment_ids_json"),
        server_updated_at: row.get("server_updated_at"),
        local_updated_at: row.get("local_updated_at"),
        dirty: row.get("dirty"),
        deleted: row.get("deleted"),
    }
}

// -- search ------------------------------------------------------------------

struct Message(i64, i64, i64, &'static str, &'static str, &'static str, &'static str, bool, bool, &'static str);

const MESSAGES: &[Message] = &[
    Message(1, 101, 5, "Invoice for September", "billing@example.com", "", "2026-09-16T12:00:00Z",
        true, false, "Please find the attached invoice for September in the portal."),
    Message(1, 102, 5, "Lunch tomorrow", "bob@example.com", "seen", "2026-09-10T09:00:00Z",
        false, false, "Are we still on for lunch tomorrow?"),
    Message(1, 103, 5, "Project plan for Q4", "carol@example.com", "seen flagged",
        "2026-09-20T18:30:00Z", false, false, "Here is the project plan for Q4."),
    Message(1, 104, 6, "Old newsletter", "news@example.com", "", "2025-12-01T08:00:00Z",
        false, false, "December newsletter with the usual links."),
    Message(1, 105, 5, "Deleted spam", "spam@example.com", "", "2026-08-01T10:00:00Z",
        false, true, "buy now, limited offer"),
    Message(2, 201, 5, "Invoice for another account", "eve@example.com", "",
        "2026-09-16T12:00:00Z", false, false, "the invoice for another account"),
];

fn document(message: &Message) -> SearchDocument {
    SearchDocument {
        account_id: message.0,
        message_id: message.1,
        folder_id: Some(message.2),
        subject: message.3.to_string(),
        sender: message.4.to_string(),
        recipients: "alice@example.com".to_string(),
        body: message.9.to_string(),
        attachments: if message.7 { "invoice-september.pdf".to_string() } else { String::new() },
    }
}

/// Two accounts, two folders, six messages (one deleted), one attachment.
fn seeded(mode: SearchMode) -> Cache {
    let mut cache = Cache::open();
    cache.add_account("alice@example.com");
    cache.add_account("bob@example.com");
    cache.sql("INSERT INTO folders VALUES (1, 5, 3, 'INBOX'), (1, 6, 3, 'Archive'), (2, 5, 3, 'INBOX')");
    for message in MESSAGES {
        cache.run(&Statement {
            sql: "INSERT INTO messages (account_id, id, folder_id, subject, from_address,
                  to_summary, snippet, flags, internal_date, has_attachments, deleted)
                  VALUES (?, ?, ?, ?, ?, 'alice@example.com', ?, ?, ?, ?, ?)"
                .to_string(),
            binds: vec![
                Bind::Int(message.0),
                Bind::Int(message.1),
                Bind::Int(message.2),
                Bind::Text(message.3.to_string()),
                Bind::Text(message.4.to_string()),
                Bind::Text(format!("{} ...", message.3)),
                Bind::Text(message.5.to_string()),
                Bind::Text(message.6.to_string()),
                Bind::Int(i64::from(message.7)),
                Bind::Int(i64::from(message.8)),
            ],
        });
        cache.run(&Statement {
            sql: "INSERT INTO message_bodies VALUES (?, ?, ?)".to_string(),
            binds: vec![
                Bind::Int(message.0),
                Bind::Int(message.1),
                Bind::Text(message.9.to_string()),
            ],
        });
        for statement in index_document(mode, &document(message)) {
            cache.run(&statement);
        }
    }
    cache.sql("INSERT INTO attachments VALUES (1, 900, 101, 'invoice-september.pdf')");
    cache
}

fn local(mode: SearchMode) -> SearchExecutor {
    SearchExecutor::local(ClientDatabase::open_with_search_mode(mode, true))
}

fn search(
    cache: &mut Cache,
    mode: SearchMode,
    account: i64,
    query: &str,
    limit: usize,
) -> (Vec<i64>, i64) {
    let query = SearchQuery::parse(query).expect("parse");
    match local(mode).search_local(account, &query, limit) {
        None => (Vec::new(), 0),
        Some(plan) => {
            let total = cache.rows(&plan.count)[0].get::<i64, _>("n");
            let page = cache.rows(&plan.page);
            (page.iter().map(|row| row.get::<i64, _>("message_id")).collect(), total)
        }
    }
}

fn ids(cache: &mut Cache, account: i64, query: &str) -> Vec<i64> {
    search(cache, SearchMode::Fts5, account, query, 50).0
}

#[test]
fn the_cache_is_seeded_with_the_expected_rows() {
    let mut cache = seeded(SearchMode::Fts5);
    cache.ping();
    assert_eq!(
        search(&mut cache, SearchMode::Fts5, 1, "folder:INBOX", 50).1,
        3,
        "105 is a tombstone and must not appear"
    );
    assert_eq!(ids(&mut cache, 1, "folder:Archive"), vec![104]);
    assert_eq!(search(&mut cache, SearchMode::Fts5, 2, "folder:INBOX", 50).1, 1);
}

#[test]
fn a_hit_carries_the_list_view_fields() {
    let mut cache = seeded(SearchMode::Fts5);
    let query = SearchQuery::parse("subject:invoice").expect("parse");
    let plan = local(SearchMode::Fts5).search_local(1, &query, 50).expect("plan");
    let rows = cache.rows(&plan.page);
    assert_eq!(rows.len(), 1);
    assert_eq!(rows[0].get::<i64, _>("account_id"), 1);
    assert_eq!(rows[0].get::<i64, _>("message_id"), 101);
    assert_eq!(rows[0].get::<Option<i64>, _>("folder_id"), Some(5));
    assert_eq!(rows[0].get::<String, _>("subject"), "Invoice for September");
    assert_eq!(rows[0].get::<String, _>("from_address"), "billing@example.com");
    assert_eq!(rows[0].get::<String, _>("flags"), "");
    assert_eq!(rows[0].get::<String, _>("internal_date"), "2026-09-16T12:00:00Z");
}

#[test]
fn subject_from_body_and_attachment_operators_filter() {
    let mut cache = seeded(SearchMode::Fts5);
    assert_eq!(ids(&mut cache, 1, "subject:invoice"), vec![101]);
    assert_eq!(ids(&mut cache, 1, "from:billing"), vec![101]);
    assert_eq!(ids(&mut cache, 1, "from:billing@example.com"), vec![101]);
    assert_eq!(ids(&mut cache, 1, "body:portal"), vec![101]);
    assert_eq!(ids(&mut cache, 1, "body:lunch"), vec![102]);
    assert_eq!(ids(&mut cache, 1, "attachment:pdf"), vec![101]);
    assert_eq!(ids(&mut cache, 1, "attachment:invoice-september.pdf"), vec![101]);
}

#[test]
fn a_bare_term_searches_every_field() {
    let mut cache = seeded(SearchMode::Fts5);
    assert_eq!(ids(&mut cache, 1, "invoice"), vec![101]);
    assert_eq!(ids(&mut cache, 1, "september"), vec![101]);
    assert_eq!(ids(&mut cache, 1, "carol"), vec![103], "the sender");
    assert_eq!(ids(&mut cache, 1, "alice"), vec![103, 101, 102, 104], "the recipients");
}

#[test]
fn has_attachment_filters_to_messages_with_files() {
    let mut cache = seeded(SearchMode::Fts5);
    assert_eq!(ids(&mut cache, 1, "has:attachment"), vec![101]);
}

#[test]
fn is_unread_excludes_seen_messages() {
    let mut cache = seeded(SearchMode::Fts5);
    assert_eq!(ids(&mut cache, 1, "is:unread"), vec![101, 104]);
}

#[test]
fn is_flagged_filters_to_flagged_messages() {
    let mut cache = seeded(SearchMode::Fts5);
    assert_eq!(ids(&mut cache, 1, "is:flagged"), vec![103]);
}

#[test]
fn before_and_after_filter_by_internal_date() {
    let mut cache = seeded(SearchMode::Fts5);
    assert_eq!(ids(&mut cache, 1, "before:2026-01-01"), vec![104]);
    assert_eq!(ids(&mut cache, 1, "after:2026-09-15"), vec![103, 101]);
    assert_eq!(ids(&mut cache, 1, "after:2026-09-15 before:2026-09-17"), vec![101]);
    assert!(ids(&mut cache, 1, "before:2025-01-01").is_empty());
}

#[test]
fn folder_matches_the_name_case_insensitively() {
    let mut cache = seeded(SearchMode::Fts5);
    assert_eq!(ids(&mut cache, 1, "folder:INBOX"), vec![103, 101, 102]);
    assert_eq!(ids(&mut cache, 1, "folder:inbox"), vec![103, 101, 102]);
    assert_eq!(ids(&mut cache, 1, "folder:Archive"), vec![104]);
    assert!(ids(&mut cache, 1, "folder:Trash").is_empty());
}

#[test]
fn results_are_newest_first_and_respect_the_limit() {
    let mut cache = seeded(SearchMode::Fts5);
    let (page, total) = search(&mut cache, SearchMode::Fts5, 1, "folder:INBOX", 2);
    assert_eq!(page, vec![103, 101]);
    assert_eq!(total, 3, "total counts every match, not just the returned page");
    assert!(search(&mut cache, SearchMode::Fts5, 1, "folder:INBOX", 0).0.is_empty());
}

#[test]
fn operators_combine_with_and_semantics() {
    let mut cache = seeded(SearchMode::Fts5);
    assert_eq!(ids(&mut cache, 1, "is:unread subject:invoice"), vec![101]);
    assert!(ids(&mut cache, 1, "subject:invoice folder:Archive").is_empty());
}

#[test]
fn results_are_scoped_to_the_account() {
    let mut cache = seeded(SearchMode::Fts5);
    assert_eq!(ids(&mut cache, 1, "subject:invoice"), vec![101]);
    assert_eq!(ids(&mut cache, 2, "subject:invoice"), vec![201]);
    assert!(ids(&mut cache, 9, "subject:invoice").is_empty());
}

#[test]
fn a_hand_built_empty_term_matches_nothing() {
    let mut cache = seeded(SearchMode::Fts5);
    let query = SearchQuery { terms: vec![String::new()], operators: Vec::new() };
    assert!(!query.is_empty());
    // Not even beside a term that matches.
    let mixed = SearchQuery {
        terms: vec![String::new(), "invoice".to_string()],
        operators: Vec::new(),
    };
    for mode in [SearchMode::Fts5, SearchMode::Like] {
        for query in [&query, &mixed] {
            let plan = local(mode).search_local(1, query, 50).expect("plan");
            assert!(plan.page.sql.contains("0 = 1"));
            assert!(cache.rows(&plan.page).is_empty());
        }
    }
}

#[test]
fn the_like_fallback_finds_the_same_rows_as_the_index() {
    let mut indexed = seeded(SearchMode::Fts5);
    let mut like = seeded(SearchMode::Like);
    for query in [
        "subject:invoice",
        "from:billing",
        "body:lunch",
        "attachment:pdf",
        "has:attachment",
        "is:unread",
        "is:flagged",
        "before:2026-01-01",
        "after:2026-09-15",
        "after:2026-09-15 before:2026-09-17",
        "folder:INBOX",
        "folder:inbox",
        "folder:Archive",
        "invoice",
        "september",
        "carol",
        "is:unread subject:invoice",
    ] {
        assert_eq!(
            search(&mut like, SearchMode::Like, 1, query, 50),
            search(&mut indexed, SearchMode::Fts5, 1, query, 50),
            "the two backends disagree on `{query}`"
        );
    }
}

#[test]
fn a_deleted_message_is_never_returned() {
    let mut cache = seeded(SearchMode::Fts5);
    for query in ["is:unread", "folder:INBOX", "spam", "buy now"] {
        assert!(
            !ids(&mut cache, 1, query).contains(&105),
            "the tombstone leaked into `{query}`"
        );
    }
}

#[test]
fn quotes_and_wildcards_are_searched_for_as_they_are() {
    let mut cache = seeded(SearchMode::Like);
    cache.sql(
        "INSERT INTO messages (account_id, id, folder_id, subject, from_address, to_summary, flags,
         internal_date, has_attachments) VALUES
         (1, 110, 5, '100% \"off\"', 'x@y.z', '', '', '2026-10-01T00:00:00Z', 0),
         (1, 111, 5, '100 percent', 'x@y.z', '', '', '2026-10-02T00:00:00Z', 0)",
    );
    assert_eq!(search(&mut cache, SearchMode::Like, 1, "subject:100%", 9).0, vec![110]);
    let odd = SearchQuery { terms: vec!["50\" OR \"x".to_string()], operators: Vec::new() };
    for mode in [SearchMode::Fts5, SearchMode::Like] {
        let plan = local(mode).search_local(1, &odd, 9).expect("plan");
        assert!(cache.rows(&plan.page).is_empty());
    }
}

#[test]
fn indexing_the_same_document_twice_does_not_duplicate_it() {
    let mut cache = seeded(SearchMode::Fts5);
    for _ in 0..2 {
        for statement in index_document(SearchMode::Fts5, &document(&MESSAGES[0])) {
            cache.run(&statement);
        }
    }
    let rows = cache.sql("SELECT COUNT(*) AS n FROM messages_fts WHERE message_id = 101");
    assert_eq!(rows[0].get::<i64, _>("n"), 1);
    assert_eq!(ids(&mut cache, 1, "subject:invoice"), vec![101]);
}

#[test]
fn unindex_document_removes_exactly_one_hit() {
    let mut cache = seeded(SearchMode::Fts5);
    for _ in 0..2 {
        for statement in unindex_document(SearchMode::Fts5, 1, 104) {
            cache.run(&statement);
        }
    }
    assert!(ids(&mut cache, 1, "subject:newsletter").is_empty());
    assert_eq!(ids(&mut cache, 1, "subject:invoice"), vec![101]);
    assert_eq!(ids(&mut cache, 1, "is:unread"), vec![101, 104]);
}

#[test]
fn unindex_folder_removes_the_folders_hits() {
    let mut cache = seeded(SearchMode::Fts5);
    for statement in unindex_folder(SearchMode::Fts5, 1, &vec![101, 102, 103, 105]) {
        cache.run(&statement);
    }
    assert!(ids(&mut cache, 1, "subject:invoice").is_empty());
    assert_eq!(ids(&mut cache, 1, "subject:newsletter"), vec![104]);
}

// -- accounts ----------------------------------------------------------------

#[test]
fn adding_two_accounts_keeps_them_distinct() {
    let mut cache = Cache::open();
    let first = cache.add_account("alice@example.com");
    let second = cache.add_account("alice@company.com");
    assert_ne!(first, second);
    assert_eq!(cache.account(first).email, "alice@example.com");
    assert_eq!(cache.account(second).email, "alice@company.com");
    assert_eq!(cache.account(first).created_at.secs, NOW.secs);
}

#[test]
fn an_account_remembers_its_refresh_token() {
    let mut cache = Cache::open();
    let id = cache.add_account("alice@example.com");
    assert!(!cache.account(id).has_credentials());
    let store = SqliteTokenStore::new(id);
    cache.run(&store.save("rt_1", AT));
    let token = cache.rows(&store.load())[0].get::<Option<String>, _>("refresh_token");
    assert_eq!(token.as_deref(), Some("rt_1"));
    assert!(cache.account(id).is_syncable());
    cache.run(&store.clear(AT));
    assert!(!cache.account(id).has_credentials());
}

#[test]
fn pausing_one_account_does_not_pause_the_other() {
    let mut cache = Cache::open();
    let first = cache.add_account("a@example.com");
    let second = cache.add_account("b@example.com");
    let (account, streams) = AccountManager::pause(first, true, AT);
    assert_eq!(cache.run(&account), 1);
    cache.run(&streams);
    assert!(cache.account(first).paused);
    assert!(!cache.account(second).paused);
    let (missing, _) = AccountManager::pause(AccountId(99), true, AT);
    let affected = cache.run(&missing);
    assert!(AccountManager::check_affected(AccountId(99), affected).is_err());
}

#[test]
fn editing_an_account_keeps_the_unspecified_fields() {
    let mut cache = Cache::open();
    let id = cache.add_account("a@example.com");
    let settings = AccountManager::edit(
        cache.account(id),
        Some(Some("New".to_string())),
        Some(Some(30)),
        None,
    );
    cache.run(&AccountManager::store_settings(id, &settings, AT));
    let edited = cache.account(id);
    assert_eq!(edited.display_name.as_deref(), Some("New"));
    assert_eq!(edited.sync_window_days, Some(30));
    assert_eq!(edited.cache_limit_bytes, None);

    let settings = AccountManager::edit(edited, None, Some(None), None);
    assert_eq!(
        settings,
        AccountSettings {
            display_name: Some("New".to_string()),
            sync_window_days: None,
            cache_limit_bytes: None,
        }
    );
    cache.run(&AccountManager::store_settings(id, &settings, AT));
    let cleared = cache.account(id);
    assert_eq!(cleared.display_name.as_deref(), Some("New"));
    assert_eq!(cleared.sync_window_days, None);
}

#[test]
fn the_status_view_reports_paused_and_errors() {
    let mut cache = Cache::open();
    let id = cache.add_account("a@example.com");
    cache.run(&AccountManager::record_sync(id, Some("connection reset"), AT));
    let status = AccountManager::status(cache.account(id), Vec::new(), 0, 0);
    assert_eq!(status.summary(), "error: connection reset");
    assert_eq!(status.last_error.as_deref(), Some("connection reset"));
    cache.run(&AccountManager::record_sync(id, None, AT));
    let status = AccountManager::status(cache.account(id), Vec::new(), 0, 0);
    assert_eq!(status.summary(), "up to date");
    assert!(status.last_sync_at.is_some());
}

#[test]
fn wipe_account_removes_only_that_account() {
    let mut cache = seeded(SearchMode::Fts5);
    for statement in ClientDatabase::open(true).wipe_account(1) {
        cache.run(&statement);
    }
    let count = |cache: &mut Cache, sql: &str| cache.sql(sql)[0].get::<i64, _>("n");
    assert_eq!(count(&mut cache, "SELECT COUNT(*) AS n FROM messages WHERE account_id = 1"), 0);
    assert_eq!(count(&mut cache, "SELECT COUNT(*) AS n FROM messages WHERE account_id = 2"), 1);
    assert_eq!(count(&mut cache, "SELECT COUNT(*) AS n FROM accounts"), 1);
    assert_eq!(ids(&mut cache, 2, "subject:invoice"), vec![201]);
}

// -- drafts ------------------------------------------------------------------

fn content(subject: &str) -> NewDraft {
    NewDraft {
        mailbox_id: Some(3),
        subject: subject.to_string(),
        text_body: Some("hello".into()),
        to: vec!["bob@example.net".into()],
        ..NewDraft::default()
    }
}

#[test]
fn a_new_draft_is_stored_locally_and_marked_dirty() {
    let mut cache = Cache::open();
    let (uid, statement) = DraftStore::create(1, &content("Invoice"), AT).expect("create");
    cache.run(&statement);
    assert!(uid.starts_with("local_"));
    let draft = cache.draft(&uid).expect("draft");
    assert!(draft.server_id.is_none());
    assert!(draft.dirty);
    assert!(!draft.deleted);
    assert_eq!(draft.to, vec!["bob@example.net".to_string()]);
    assert_eq!(draft.mailbox_id, Some(3));
}

#[test]
fn editing_a_draft_keeps_its_identity() {
    let mut cache = Cache::open();
    let (uid, statement) = DraftStore::create(1, &content("Invoice"), AT).expect("create");
    cache.run(&statement);
    let existing = cache.draft(&uid);
    let edited = DraftStore::update(1, &uid, existing.as_ref(), &content("Invoice 2"), AT).expect("edit");
    cache.run(&edited);
    assert_eq!(cache.draft(&uid).expect("draft").subject, "Invoice 2");
    assert_eq!(cache.sql("SELECT * FROM drafts").len(), 1);
}

#[test]
fn pulling_never_overwrites_unsent_local_edits() {
    let mut cache = Cache::open();
    let (uid, statement) = DraftStore::create(1, &content("Mine"), AT).expect("create");
    cache.run(&statement);
    cache.sql("UPDATE drafts SET id = 40");
    let records = vec![
        DraftRecord { id: 40, subject: "Theirs".into(), ..DraftRecord::default() },
        DraftRecord {
            id: 41,
            subject: "New".into(),
            to: vec!["c@d.e".into()],
            ..DraftRecord::default()
        },
    ];
    let mut pass = PullPass::new(records);
    loop {
        let id = match pass.next() {
            Some(record) => record.id,
            None => break,
        };
        let sql = format!("SELECT * FROM drafts WHERE account_id = 1 AND id = {id}");
        let existing = cache.sql(&sql).pop().map(|row| Draft::from_row(draft_row(&row), NOW));
        if let Some(statement) = pass.on_existing(1, existing, AT).expect("pull") {
            cache.run(&statement);
        }
    }
    assert_eq!(pass.finish(), 1);
    assert_eq!(cache.draft(&uid).expect("kept").subject, "Mine");
    let pulled = cache.draft("srv:41").expect("pulled");
    assert_eq!(pulled.subject, "New");
    assert_eq!(pulled.to, vec!["c@d.e".to_string()]);
    assert!(!pulled.dirty);
}

#[test]
fn a_push_marks_the_draft_clean() {
    let mut cache = Cache::open();
    let (uid, statement) = DraftStore::create(1, &content("Mine"), AT).expect("create");
    cache.run(&statement);
    let draft = cache.draft(&uid).expect("draft");
    let record = DraftRecord { id: 44, updated_at: Some(AT.into()), ..DraftRecord::default() };
    let (statement, notice) = DraftStore::pushed(&draft, &record);
    cache.run(&statement);
    assert!(notice.is_none());
    let clean = cache.draft(&uid).expect("draft");
    assert_eq!(clean.server_id, Some(44));
    assert!(!clean.dirty);
    assert_eq!(clean.server_updated_at.map(|time| time.secs), Some(NOW.secs));
    let (statement, _) = DraftStore::new().delete(1, &uid, Some(&clean)).expect("delete");
    cache.run(&statement);
    assert!(cache.draft(&uid).is_none());
}

// -- the outbox and the queue ------------------------------------------------

#[test]
fn the_full_pipeline_can_be_walked() {
    let mut cache = Cache::open();
    let item = NewOutboxItem::simple(1, "a@b.c", &["c@d.e".to_string()], "Hi", "hello");
    cache.run(&Outbox::enqueue_with_id(&item, "op-1", AT).expect("insert"));
    for next in [OutboxState::Uploading, OutboxState::Queued, OutboxState::Sending] {
        let state = cache.sql("SELECT state FROM outbox")[0].get::<String, _>("state");
        cache.run(&Outbox::transition(1, Some(&state), next, AT).expect("legal"));
    }
    match Outbox::mark_sent(1, Some("sending"), Some(9), Some(1), AT).expect("sent") {
        Acceptance::NowSent(statement) => assert_eq!(cache.run(&statement), 1),
        other => panic!("unexpected {other:?}"),
    }
    let row = cache.sql("SELECT * FROM outbox").remove(0);
    assert_eq!(row.get::<String, _>("state"), "sent");
    assert_eq!(row.get::<i64, _>("server_message_id"), 9);
    assert_eq!(row.get::<i64, _>("attempts"), 0);
}

#[test]
fn a_failed_attempt_is_counted() {
    let mut cache = Cache::open();
    let item = NewOutboxItem::simple(1, "a@b.c", &["c@d.e".to_string()], "Hi", "hello");
    cache.run(&Outbox::enqueue_with_id(&item, "op-1", AT).expect("insert"));
    let (next, statement) =
        Outbox::record_failure(1, Some(OutboxState::Sending), "reset", true, AT).expect("failure");
    cache.run(&statement);
    let row = cache.sql("SELECT * FROM outbox").remove(0);
    assert_eq!(row.get::<String, _>("state"), next.as_str());
    assert_eq!(row.get::<i64, _>("attempts"), 1);
    assert_eq!(row.get::<String, _>("last_error"), "reset");
}

#[test]
fn enqueueing_with_a_known_key_is_a_single_row() {
    let mut cache = Cache::open();
    let statement = PendingQueue::enqueue_with_id(1, OperationKind::Star, "{}", "op-1", AT);
    assert_eq!(cache.run(&statement), 1);
    assert_eq!(cache.run(&statement), 0, "a replayed key changes nothing");
    cache.run(&PendingQueue::record_attempt("op-1", &None));
    let row = cache.sql("SELECT * FROM pending_operations").remove(0);
    assert_eq!(row.get::<i64, _>("attempts"), 1);
    assert_eq!(cache.run(&PendingQueue::remove("op-1")), 1);
}

// -- the blob cache ----------------------------------------------------------

#[test]
fn eviction_respects_the_cap_and_drops_the_least_recently_used() {
    let mut cache = Cache::open();
    let mut digests = Vec::new();
    for bytes in [&b"aaaa"[..], b"bbbb", b"cccc"] {
        let blob = AttachmentCache::put_bytes(bytes);
        cache.run(&AttachmentCache::record(&blob, "/blobs", AT));
        digests.push(blob.sha256);
    }
    // The first one is used again, so the second is now the oldest.
    cache.run(&AttachmentCache::touch(&digests[0], AT));
    let evictable = |cache: &mut Cache| -> Vec<(String, i64)> {
        let rows = cache.sql(EVICTABLE);
        rows.iter().map(|row| (row.get("sha256"), row.get("size_bytes"))).collect()
    };
    let rows = evictable(&mut cache);
    assert_eq!(rows[0].0, digests[1]);
    let eviction = AttachmentCache::new(8).evict_to_cap(12, rows);
    assert_eq!(eviction.victims, vec![digests[1].clone()]);
    assert_eq!(eviction.freed, 4);
    for victim in &eviction.victims {
        cache.run(&AttachmentCache::remove(victim));
    }
    cache.run(&AttachmentCache::set_pinned(&digests[2], true));
    let left: Vec<String> = evictable(&mut cache).into_iter().map(|row| row.0).collect();
    assert_eq!(left, vec![digests[0].clone()], "a pinned blob is not evictable");
}

// -- everything else that is read ----------------------------------------------

#[test]
fn every_reading_statement_runs() {
    let mut cache = Cache::open();
    let id = cache.add_account("a@b.c");
    let item = NewOutboxItem::simple(1, "a@b.c", &["c@d.e".to_string()], "Hi", "hello");
    cache.run(&Outbox::enqueue_with_id(&item, "op-1", AT).expect("insert"));
    assert_eq!(cache.rows(&Outbox::get(1)).len(), 1);
    assert_eq!(cache.rows(&Outbox::find_by_operation("op-1")).len(), 1);
    assert_eq!(cache.rows(&Outbox::list(1)).len(), 1);
    assert_eq!(cache.rows(&Outbox::list_in_state(1, OutboxState::Pending)).len(), 1);
    assert_eq!(cache.rows(&Outbox::list_in_state(1, OutboxState::Retrying)).len(), 0);
    assert_eq!(cache.rows(&Outbox::select_resumable(1)).len(), 1);
    assert_eq!(cache.rows(&Outbox::counts(1))[0].get::<i64, _>("n"), 1);
    assert_eq!(cache.run(&Outbox::remove(1)), 1);

    cache.run(&PendingQueue::enqueue_with_id(1, OperationKind::Star, "{}", "op-1", AT));
    assert_eq!(cache.rows(&PendingQueue::list(1)).len(), 1);
    assert_eq!(cache.rows(&PendingQueue::list_all()).len(), 1);
    assert_eq!(cache.rows(&PendingQueue::len(1))[0].get::<i64, _>("n"), 1);
    assert_eq!(cache.rows(&PendingQueue::find("op-1")).len(), 1);
    assert_eq!(cache.run(&PendingQueue::clear_account(1)), 1);

    let (uid, statement) = DraftStore::create(1, &content("Mine"), AT).expect("create");
    cache.run(&statement);
    assert_eq!(cache.rows(&DraftStore::get(1, &uid)).len(), 1);
    assert_eq!(cache.rows(&DraftStore::get_by_server_id(1, 44)).len(), 0);
    assert_eq!(cache.rows(&DraftStore::list(1)).len(), 1);
    assert_eq!(cache.rows(&DraftStore::dirty(1)).len(), 1);

    assert_eq!(cache.rows(&AccountManager::select_all()).len(), 1);
    assert_eq!(cache.rows(&AccountManager::select(id)).len(), 1);
    assert_eq!(cache.rows(&AccountManager::select_streams(id)).len(), 0);
    assert_eq!(cache.rows(&AccountManager::count_dirty_drafts(id))[0].get::<i64, _>("n"), 1);
    let paused = cache.rows(&AccountAwarePolicy::select_paused(id.get()));
    assert_eq!(paused[0].get::<i64, _>("paused"), 0);
}

#[test]
fn clearing_the_cache_forgets_every_blob() {
    let mut cache = Cache::open();
    let blob = AttachmentCache::put_bytes(b"delete me");
    cache.run(&AttachmentCache::record(&blob, "/blobs", AT));
    let row = cache.rows(&AttachmentCache::select(&blob.sha256)).remove(0);
    assert_eq!(row.get::<i64, _>("size_bytes"), 9);
    let total = cache.rows(&AttachmentCache::select_total())[0].get::<i64, _>("total");
    assert_eq!(AttachmentCache::total_size(total), 9);
    assert_eq!(cache.rows(&AttachmentCache::select_evictable()).len(), 1);
    assert_eq!(cache.rows(&AttachmentCache::count())[0].get::<i64, _>("n"), 1);
    assert_eq!(cache.run(&AttachmentCache::clear()), 1);
    assert_eq!(cache.rows(&AttachmentCache::count())[0].get::<i64, _>("n"), 0);
    let total = cache.rows(&AttachmentCache::select_total())[0].get::<i64, _>("total");
    assert_eq!(AttachmentCache::total_size(total), 0);
}

#[test]
fn search_mode_is_recorded_in_settings() {
    let mut cache = Cache::open();
    cache.run(&Statement::new(PROBE_INDEX));
    for statement in ClientDatabase::open(true).ensure_search_index() {
        cache.run(&statement);
    }
    cache.run(&ClientDatabase::put_setting("cache.search_mode", "like", AT));
    cache.run(&ClientDatabase::put_setting("cache.search_mode", SearchMode::Fts5.as_str(), AT));
    let rows = cache.rows(&ClientDatabase::get_setting("cache.search_mode"));
    assert_eq!(rows.len(), 1);
    assert_eq!(rows[0].get::<String, _>("value"), "fts5");
}

#[test]
fn the_primary_address_is_read_from_the_cache() {
    let mut cache = Cache::open();
    cache.sql("INSERT INTO mailboxes VALUES (1, 4, 'alias@b.c', 0), (1, 3, 'a@b.c', 1)");
    let rows = cache.rows(&primary_address(AccountId(1)));
    assert_eq!(rows.len(), 1);
    assert_eq!(rows[0].get::<String, _>("address"), "a@b.c");
}

#[test]
fn pending_notifications_are_oldest_first_and_marking_clears_them() {
    let mut cache = Cache::open();
    for kind in ["mail.received", "device.revoked"] {
        let notification = Notification::from_event(kind, Some(1), &Json::Null, NOW);
        cache.run(&record_notification(&notification, &None, AT));
    }
    let rows = cache.rows(&pending_notifications(10));
    assert_eq!(rows.len(), 2);
    assert_eq!(rows[0].get::<String, _>("kind"), "mail.received");
    for statement in mark_delivered(&[rows[0].get::<i64, _>("id")]) {
        cache.run(&statement);
    }
    let rows = cache.rows(&pending_notifications(10));
    assert_eq!(rows.len(), 1);
    assert_eq!(rows[0].get::<String, _>("title"), "Device signed out");
}

#[test]
fn the_tables_are_listed_by_name() {
    let mut cache = Cache::open();
    let rows = cache.rows(&ClientDatabase::table_names());
    let names: Vec<String> = rows.iter().map(|row| row.get::<String, _>("name")).collect();
    assert_eq!(names.first().map(String::as_str), Some("accounts"));
    assert!(names.contains(&"sync_state".to_string()));
    assert!(names.windows(2).all(|pair| pair[0] <= pair[1]));
}

#[test]
fn removing_an_account_removes_its_cache_and_leaves_the_others() {
    let mut cache = Cache::open();
    let first = cache.add_account("a@example.com");
    let second = cache.add_account("b@example.com");
    let db = ClientDatabase::open(true);
    for statement in AccountManager::remove(first, true, &db).expect("remove") {
        cache.run(&statement);
    }
    let rows = cache.rows(&AccountManager::select_all());
    assert_eq!(rows.len(), 1);
    assert_eq!(rows[0].get::<i64, _>("id"), second.get());
    assert!(AccountManager::remove(first, false, &db).is_err(), "removing twice fails");
}

#[test]
fn queuing_for_an_unknown_account_is_not_found() {
    let mut cache = Cache::open();
    let id = cache.add_account("a@example.com");
    let queue = |found: bool| {
        AccountManager::queue_operation(
            id,
            found,
            OperationKind::Star,
            r#"{"message_id":1}"#,
            "op-7",
            AT,
        )
    };
    match queue(false) {
        Err(ClientError::NotFound(message)) => assert_eq!(message, "no account 1"),
        other => panic!("unexpected {other:?}"),
    }
    assert_eq!(cache.run(&queue(true).expect("queued")), 1);
    let rows = cache.rows(&PendingQueue::list(id.get()));
    assert_eq!(rows[0].get::<String, _>("operation_id"), "op-7");
    assert_eq!(rows[0].get::<String, _>("kind"), "star");
}

#[test]
fn the_queue_preserves_insertion_order() {
    let mut cache = Cache::open();
    for key in ["op-b", "op-a", "op-c"] {
        cache.run(&PendingQueue::enqueue_with_id(1, OperationKind::Star, "{}", key, AT));
    }
    let rows = cache.rows(&PendingQueue::list(1));
    let keys: Vec<String> = rows.iter().map(|row| row.get::<String, _>("operation_id")).collect();
    assert_eq!(keys, vec!["op-b", "op-a", "op-c"]);
}

#[test]
fn marking_only_some_notifications_delivered_keeps_the_rest() {
    let mut cache = Cache::open();
    for _ in 0..3 {
        let notification = Notification::from_event("mail.received", Some(1), &Json::Null, NOW);
        cache.run(&record_notification(&notification, &None, AT));
    }
    let rows = cache.rows(&pending_notifications(10));
    let ids: Vec<i64> = rows.iter().map(|row| row.get::<i64, _>("id")).collect();
    for statement in mark_delivered(&ids[..2]) {
        cache.run(&statement);
    }
    let left = cache.rows(&pending_notifications(10));
    assert_eq!(left.len(), 1);
    assert_eq!(left[0].get::<i64, _>("id"), ids[2]);
}

#[test]
fn removing_one_blob_leaves_the_others() {
    let mut cache = Cache::open();
    let first = AttachmentCache::put_bytes(b"one");
    let second = AttachmentCache::put_bytes(b"two");
    cache.run(&AttachmentCache::record(&first, &first.path, AT));
    cache.run(&AttachmentCache::record(&second, &second.path, AT));
    assert_eq!(cache.run(&AttachmentCache::remove(&first.sha256)), 1);
    let rows = cache.sql("SELECT sha256 FROM blob_cache");
    assert_eq!(rows.len(), 1);
    assert_eq!(rows[0].get::<String, _>("sha256"), second.sha256);
}

#[test]
fn a_pinned_blob_survives_eviction() {
    let mut cache = Cache::open();
    let kept = AttachmentCache::put_bytes(b"pinned");
    let loose = AttachmentCache::put_bytes(b"loose");
    cache.run(&AttachmentCache::record(&kept, &kept.path, AT));
    cache.run(&AttachmentCache::record(&loose, &loose.path, AT));
    cache.run(&AttachmentCache::set_pinned(&kept.sha256, true));
    let rows: Vec<(String, i64)> = cache
        .sql(EVICTABLE)
        .iter()
        .map(|row| (row.get::<String, _>("sha256"), row.get::<i64, _>("size_bytes")))
        .collect();
    let eviction = AttachmentCache::new(1).evict_to_cap(11, rows);
    assert_eq!(eviction.victims, vec![loose.sha256]);
    assert_eq!(eviction.freed, 5);
}

fn state(cache: &mut Cache) -> OutboxState {
    let row = cache.sql("SELECT state FROM outbox").remove(0);
    OutboxState::parse(&row.get::<String, _>("state")).expect("state")
}

fn step(cache: &mut Cache, next: OutboxState) {
    let current = state(cache).as_str();
    cache.run(&Outbox::transition(1, Some(current), next, AT).expect("legal"));
}

fn fail(cache: &mut Cache, error: &str, retryable: bool) {
    let current = Some(state(cache));
    let (_, statement) =
        Outbox::record_failure(1, current, error, retryable, AT).expect("failure");
    cache.run(&statement);
}

#[test]
fn a_retrying_message_can_be_retried_and_finish() {
    let mut cache = Cache::open();
    let item = NewOutboxItem::simple(1, "a@b.c", &["c@d.e".to_string()], "Hi", "hello");
    cache.run(&Outbox::enqueue_with_id(&item, "op-1", AT).expect("insert"));
    step(&mut cache, OutboxState::Uploading);
    fail(&mut cache, "reset", true);
    step(&mut cache, OutboxState::Sending);
    match Outbox::mark_sent(1, Some("sending"), Some(7), Some(1), AT).expect("sent") {
        Acceptance::NowSent(statement) => assert_eq!(cache.run(&statement), 1),
        other => panic!("unexpected {other:?}"),
    }
    assert_eq!(state(&mut cache), OutboxState::Sent);
}

#[test]
fn a_failed_message_can_be_queued_again_or_edited() {
    let mut cache = Cache::open();
    let item = NewOutboxItem::simple(1, "a@b.c", &["c@d.e".to_string()], "Hi", "hello");
    cache.run(&Outbox::enqueue_with_id(&item, "op-1", AT).expect("insert"));
    step(&mut cache, OutboxState::Queued);
    fail(&mut cache, "bounced", false);
    assert_eq!(state(&mut cache), OutboxState::Failed);
    let statement = Outbox::update_draft(
        1,
        Some(OutboxState::Failed),
        "New subject",
        &Some("body".to_string()),
        &None,
        &vec!["carol@example.net".to_string()],
        AT,
    )
    .expect("edit");
    cache.run(&statement);
    let row = cache.sql("SELECT * FROM outbox").remove(0);
    assert_eq!(row.get::<String, _>("subject"), "New subject");
    assert_eq!(row.get::<String, _>("to_json"), "[\"carol@example.net\"]");
    assert_eq!(row.get::<Option<String>, _>("html_body"), None);
    step(&mut cache, OutboxState::Pending);
    assert_eq!(state(&mut cache), OutboxState::Pending);
}

#[test]
fn deleting_a_local_draft_needs_no_server() {
    let mut cache = Cache::open();
    let store = DraftStore::new();
    let (uid, statement) = DraftStore::create(1, &content("bye"), AT).expect("create");
    cache.run(&statement);
    let draft = cache.draft(&uid).expect("draft");
    let (statement, request) = store.delete(1, &uid, Some(&draft)).expect("delete");
    assert!(request.is_none());
    cache.run(&statement);
    assert!(cache.rows(&DraftStore::list(1)).is_empty());
    assert!(store.delete(1, &uid, None).is_err());
}

#[test]
fn a_query_with_no_text_clause_scans_the_filters_only() {
    let mut cache = seeded(SearchMode::Fts5);
    assert_eq!(ids(&mut cache, 1, "is:flagged"), vec![103]);
    assert_eq!(ids(&mut cache, 1, "has:attachment"), vec![101]);
}

#[test]
fn the_like_fallback_limits_and_counts_like_the_index() {
    let mut cache = seeded(SearchMode::Like);
    let (page, total) = search(&mut cache, SearchMode::Like, 1, "folder:INBOX", 2);
    assert_eq!(page.len(), 2);
    assert_eq!(total, 3);
    assert_eq!(page[0], 103);
}

#[test]
fn a_notification_without_a_payload_is_recorded_with_a_null_payload() {
    let mut cache = Cache::open();
    let notification = Notification::from_event("replay_gap", None, &Json::Null, NOW);
    cache.run(&record_notification(&notification, &None, AT));
    let rows = cache.sql("SELECT * FROM notifications");
    assert_eq!(rows.len(), 1);
    assert_eq!(rows[0].get::<String, _>("kind"), "replay.gap");
    assert_eq!(rows[0].get::<Option<String>, _>("payload"), None);
    assert_eq!(rows[0].get::<Option<i64>, _>("account_id"), None);
}
