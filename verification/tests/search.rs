use ferroma_client::api::{AddressDto, MessageItem, MessageList};
use ferroma_client::database::{Bind, ClientDatabase, SearchDocument, SearchMode, Statement};
use ferroma_client::date::{parse_date, Date};
use ferroma_client::error::ClientError;
use ferroma_client::fcp::{FcpClient, Method};
use ferroma_client::search::{
    build_where, index_document, no_results, server_results, unindex_document, unindex_folder,
    SearchExecutor, SearchHit, SearchOp, SearchQuery, SearchResults, SearchSource, SearchStep,
};

fn local(mode: SearchMode) -> SearchExecutor {
    SearchExecutor::local(ClientDatabase::open_with_search_mode(mode, true))
}

fn online() -> SearchExecutor {
    let client = FcpClient::new("https://mail.example.com/api/v1/client");
    SearchExecutor::with_server(ClientDatabase::open(true), client)
}

fn date(year: i32, month: u32, day: u32) -> Date {
    Date { year, month, day }
}

#[test]
fn a_bare_word_is_a_term() {
    let query = SearchQuery::parse("invoice").expect("parse");
    assert_eq!(query.terms, vec!["invoice".to_string()]);
    assert!(query.operators.is_empty());
    assert!(!query.is_empty());
}

#[test]
fn whitespace_separates_tokens_and_blank_input_is_empty() {
    let query = SearchQuery::parse("  \t invoice \n september  ").expect("parse");
    assert_eq!(
        query.terms,
        vec!["invoice".to_string(), "september".to_string()]
    );
    assert!(SearchQuery::parse("").expect("parse").is_empty());
    assert!(SearchQuery::parse("   \t\n ").expect("parse").is_empty());
    assert_eq!(SearchQuery::default().to_wire(), "");
}

#[test]
fn from_to_subject_body_and_attachment_parse_into_operators() {
    let query = SearchQuery::parse(
        "from:alice@example.com to:bob subject:invoice body:agenda attachment:pdf",
    )
    .expect("parse");
    assert_eq!(
        query.operators,
        vec![
            SearchOp::From("alice@example.com".to_string()),
            SearchOp::To("bob".to_string()),
            SearchOp::Subject("invoice".to_string()),
            SearchOp::Body("agenda".to_string()),
            SearchOp::Attachment("pdf".to_string()),
        ]
    );
    assert!(query.terms.is_empty());
}

#[test]
fn flag_operators_parse() {
    let query = SearchQuery::parse("has:attachment is:unread is:flagged").expect("parse");
    assert_eq!(
        query.operators,
        vec![
            SearchOp::HasAttachment,
            SearchOp::IsUnread,
            SearchOp::IsFlagged
        ]
    );
    // The flag keywords are case-insensitive.
    let upper = SearchQuery::parse("has:ATTACHMENT is:Unread").expect("parse");
    assert_eq!(
        upper.operators,
        vec![SearchOp::HasAttachment, SearchOp::IsUnread]
    );
}

#[test]
fn date_operators_parse_into_naive_dates() {
    let query = SearchQuery::parse("before:2026-01-01 after:2025-12-31").expect("parse");
    assert_eq!(
        query.operators,
        vec![
            SearchOp::Before(date(2026, 1, 1)),
            SearchOp::After(date(2025, 12, 31))
        ]
    );
}

#[test]
fn folder_parses_and_keeps_its_case() {
    let query = SearchQuery::parse("folder:INBOX").expect("parse");
    assert_eq!(query.operators, vec![SearchOp::Folder("INBOX".to_string())]);
}

#[test]
fn quoted_values_keep_their_spaces() {
    let query =
        SearchQuery::parse("subject:\"invoice for september\" from:bob").expect("parse");
    assert_eq!(
        query.operators,
        vec![
            SearchOp::Subject("invoice for september".to_string()),
            SearchOp::From("bob".to_string()),
        ]
    );
    assert_eq!(query.terms.len(), 0);
}

#[test]
fn a_quoted_bare_term_keeps_its_spaces() {
    let query = SearchQuery::parse("\"project plan\" Q4").expect("parse");
    assert_eq!(
        query.terms,
        vec!["project plan".to_string(), "Q4".to_string()]
    );
}

#[test]
fn a_token_that_starts_quoted_is_never_an_operator() {
    let query = SearchQuery::parse("\"subject:invoice\"").expect("parse");
    assert_eq!(query.terms, vec!["subject:invoice".to_string()]);
    assert!(query.operators.is_empty());
}

#[test]
fn an_unknown_operator_becomes_a_bare_term_that_keeps_its_colon() {
    let query =
        SearchQuery::parse("colour:red is:something-else has:whatever :odd").expect("parse");
    assert_eq!(
        query.terms,
        vec![
            "colour:red".to_string(),
            "is:something-else".to_string(),
            "has:whatever".to_string(),
            ":odd".to_string(),
        ]
    );
    assert!(query.operators.is_empty());
}

#[test]
fn an_empty_operator_value_is_invalid() {
    for input in [
        "from:",
        "to:",
        "subject:",
        "body:",
        "attachment:",
        "folder:",
        "is:",
        "has:",
    ] {
        let err = SearchQuery::parse(input).expect_err(input);
        assert!(matches!(err, ClientError::Invalid(_)), "{input}: {err:?}");
    }
    // A quoted empty value is still an empty value.
    assert!(SearchQuery::parse("from:\"\"").is_err());
}

#[test]
fn a_bad_date_is_invalid() {
    for input in [
        "before:yesterday",
        "after:2026-13-45",
        "before:20260916",
        "after:",
    ] {
        let err = SearchQuery::parse(input).expect_err(input);
        assert!(matches!(err, ClientError::Invalid(_)), "{input}: {err:?}");
    }
}

#[test]
fn an_empty_quoted_token_contributes_nothing() {
    let query = SearchQuery::parse("\"\"").expect("parse");
    assert!(query.is_empty());
}

#[test]
fn to_wire_round_trips_through_the_parser() {
    let input = "invoice from:bob subject:\"invoice for september\" is:unread before:2026-01-01 folder:INBOX colour:red \"project plan\"";
    let query = SearchQuery::parse(input).expect("parse");
    // Terms first, then operators in input order; the wire form is canonical,
    // so it is what the round trip is asserted against.
    let wire = query.to_wire();
    assert_eq!(
        wire,
        "invoice colour:red \"project plan\" from:bob \
         subject:\"invoice for september\" is:unread before:2026-01-01 folder:INBOX"
    );
    let reparsed = SearchQuery::parse(&wire).expect("reparse");
    assert_eq!(reparsed, query);
    assert_eq!(
        reparsed.to_wire(),
        wire,
        "the wire form must be a fixed point"
    );
}

#[test]
fn to_wire_quotes_only_what_needs_quoting() {
    let query = SearchQuery::parse("subject:\"a b\" from:bob").expect("parse");
    assert_eq!(query.to_wire(), "subject:\"a b\" from:bob");
}

#[test]
fn a_term_that_looks_like_an_operator_is_quoted_on_the_wire() {
    let query = SearchQuery {
        terms: vec!["from:bob".to_string(), "plain".to_string()],
        operators: Vec::new(),
    };
    assert_eq!(query.to_wire(), "\"from:bob\" plain");
    assert_eq!(SearchQuery::parse(&query.to_wire()).expect("parse"), query);
}

#[test]
fn every_date_of_a_query_is_a_calendar_day() {
    assert_eq!(parse_date("2026-02-28"), Some(date(2026, 2, 28)));
    assert!(SearchQuery::parse("before:2026-02-30").is_err());
}

#[test]
fn there_is_one_parameter_for_each_mark() {
    let query = SearchQuery::parse(
        "invoice from:a to:b subject:c body:d attachment:e has:attachment is:unread is:flagged before:2026-01-01 after:2025-01-01 folder:INBOX",
    )
    .expect("parse");
    for mode in [SearchMode::Fts5, SearchMode::Like] {
        let (clause, binds) = build_where(mode, 1, &query);
        assert_eq!(clause.matches('?').count(), binds.len());
        let plan = local(mode).search_local(1, &query, 10).expect("plan");
        let marks = |statement: &Statement| statement.sql.matches('?').count();
        assert_eq!(marks(&plan.count), plan.count.binds.len());
        assert_eq!(marks(&plan.page), plan.page.binds.len());
        assert_eq!(plan.page.binds.last(), Some(&Bind::Int(10)));
    }
}

#[test]
fn an_empty_query_matches_nothing() {
    let empty = SearchQuery::parse("").expect("parse");
    assert!(online().search_local(1, &empty, 50).is_none());
    let results = no_results();
    assert!(results.hits.is_empty());
    assert_eq!(results.total, 0);
    assert_eq!(results.source, SearchSource::Local);
    assert!(matches!(online().search(results, &empty, 50), SearchStep::Answer(_)));
}

#[test]
fn an_empty_local_result_falls_back_to_the_server() {
    let query = SearchQuery::parse("subject:\"a b\" invoice").expect("parse");
    match online().search(no_results(), &query, 20) {
        SearchStep::AskServer(request) => {
            assert_eq!(request.method, Method::Get);
            assert_eq!(request.path, "/search");
            assert_eq!(
                request.query,
                vec![
                    ("q".to_string(), "invoice subject:\"a b\"".to_string()),
                    ("limit".to_string(), "20".to_string()),
                ]
            );
        }
        other => panic!("unexpected {other:?}"),
    }

    let item = MessageItem {
        id: 301,
        subject: Some("From the server".into()),
        from: Some(AddressDto { address: "x@y.z".into(), name: None }),
        flags: Some("seen".into()),
        ..MessageItem::default()
    };
    let page = MessageList { items: vec![item], total: 1, ..MessageList::default() };
    let results = server_results(1, &page);
    assert_eq!(results.source, SearchSource::Server);
    assert_eq!(results.total, 1);
    assert_eq!(results.hits[0].message_id, 301);
    assert_eq!(results.hits[0].from_address, "x@y.z");
    assert_eq!(results.hits[0].flags, "seen");
    assert!(matches!(online().search(results, &query, 20), SearchStep::Answer(_)));
}

#[test]
fn the_like_fallback_scans_the_tables_instead_of_an_index() {
    let document = SearchDocument { account_id: 1, message_id: 999, ..SearchDocument::default() };
    assert!(index_document(SearchMode::Like, &document).is_empty());
    assert!(unindex_document(SearchMode::Like, 1, 999).is_empty());
    assert!(unindex_folder(SearchMode::Like, 1, &vec![999]).is_empty());
    assert_eq!(index_document(SearchMode::Fts5, &document).len(), 2);
}

#[test]
fn a_local_hit_does_not_call_the_server() {
    let query = SearchQuery::parse("subject:invoice").expect("parse");
    let hit = SearchHit {
        account_id: 1,
        message_id: 101,
        folder_id: Some(5),
        subject: "Invoice for September".into(),
        from_address: "billing@example.com".into(),
        snippet: None,
        flags: String::new(),
        internal_date: None,
    };
    let found = SearchResults { hits: vec![hit], source: SearchSource::Local, total: 1 };
    match online().search(found.clone(), &query, 50) {
        SearchStep::Answer(results) => assert_eq!(results, found),
        other => panic!("unexpected {other:?}"),
    }
}

#[test]
fn an_empty_query_never_reaches_the_server() {
    let empty = SearchQuery::parse("   ").expect("parse");
    assert_eq!(online().search(no_results(), &empty, 50), SearchStep::Answer(no_results()));
}

#[test]
fn without_a_client_an_empty_local_result_stays_local() {
    let query = SearchQuery::parse("subject:nothing").expect("parse");
    let step = local(SearchMode::Fts5).search(no_results(), &query, 50);
    assert_eq!(step, SearchStep::Answer(no_results()));
}

#[test]
fn values_stay_out_of_the_text() {
    let shape = |term: &str, folder: &str| {
        let query = SearchQuery {
            terms: vec![term.to_string()],
            operators: vec![SearchOp::Folder(folder.to_string())],
        };
        [SearchMode::Fts5, SearchMode::Like].map(|mode| build_where(mode, 1, &query).0)
    };
    assert_eq!(shape("a", "INBOX"), shape("o'brien", "50% \"?\""));
}
