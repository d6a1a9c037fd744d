use ferroma_client::database::{
    max_connections, pragma_is_text, resolve_search_mode, Bind, ClientDatabase, SearchMode,
    Statement,
};
use ferroma_client::error::ClientError;

#[test]
fn a_forced_index_needs_the_extension() {
    assert_eq!(resolve_search_mode(None, true), SearchMode::Fts5);
    assert_eq!(resolve_search_mode(None, false), SearchMode::Like);
    assert_eq!(resolve_search_mode(Some(SearchMode::Like), true), SearchMode::Like);
    assert_eq!(resolve_search_mode(Some(SearchMode::Fts5), false), SearchMode::Like);
    let forced = ClientDatabase::open_with_search_mode(SearchMode::Like, true);
    assert_eq!(forced.search_mode(), SearchMode::Like);
    assert!(!forced.fts5_available());
    assert!(ClientDatabase::open(true).fts5_available());
    assert_eq!(SearchMode::Fts5.as_str(), "fts5");
    assert_eq!(SearchMode::Like.as_str(), "like");
}

#[test]
fn an_in_memory_cache_has_one_connection() {
    assert_eq!(max_connections(false), 1);
    assert!(max_connections(true) > 1);
}

#[test]
fn unwhitelisted_pragma_is_rejected() {
    assert_eq!(ClientDatabase::pragma("foreign_keys").expect("allowed"), "PRAGMA foreign_keys");
    assert!(matches!(
        ClientDatabase::pragma("user_version; DROP TABLE accounts"),
        Err(ClientError::Invalid(_))
    ));
    assert!(pragma_is_text("journal_mode"));
    assert!(!pragma_is_text("busy_timeout"));
}

#[test]
fn account_scoped_counts_refuse_unknown_tables() {
    let statement = ClientDatabase::count_account_rows("messages", 7).expect("statement");
    assert_eq!(statement.sql, "SELECT COUNT(*) AS n FROM messages WHERE account_id = ?");
    assert_eq!(statement.binds, vec![Bind::Int(7)]);
    match ClientDatabase::count_account_rows("sqlite_master", 7) {
        Err(ClientError::Invalid(message)) => {
            assert_eq!(message, "table sqlite_master is not account-scoped");
        }
        other => panic!("unexpected {other:?}"),
    }
}

#[test]
fn a_wipe_clears_the_index_first() {
    let both = ClientDatabase::open(true).wipe_account(3);
    assert_eq!(both.len(), 2);
    assert_eq!(both[0].binds, vec![Bind::Text("3".into())]);
    let one = ClientDatabase::open(false).wipe_account(3);
    assert_eq!(one.len(), 1);
    assert_eq!(one[0].binds, vec![Bind::Int(3)]);
}

#[test]
fn a_statement_collects_its_parameters() {
    let statement = Statement::new("SELECT ?, ?, ?")
        .bind(Bind::int_if(None))
        .bind(Bind::text("x"))
        .bind(Bind::text_if(&None));
    assert_eq!(statement.binds, vec![Bind::Null, Bind::Text("x".into()), Bind::Null]);
}
