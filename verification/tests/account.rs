use ferroma_client::account::{
    device_uid_from, Account, AccountId, AccountManager, AccountRow, AddStep, DeviceUid,
    ParsedAddress, StreamRow, SyncStatus,
};
use ferroma_client::api::{AccountInfo, LoginResponse, RetryPolicy, ServerLimits, UserRef};
use ferroma_client::autodiscover::{Discovery, DiscoverySource};
use ferroma_client::database::Bind;
use ferroma_client::error::ClientError;
use ferroma_client::time::Timestamp;

const NOW: Timestamp = Timestamp { secs: 1_789_560_000, nanos: 0 };

fn row(id: i64, email: &str) -> AccountRow {
    AccountRow {
        id,
        email: email.into(),
        display_name: None,
        base_url: "https://mail.example.com/api/v1/client/".into(),
        device_uid: "dev_1".into(),
        device_id: None,
        user_id: None,
        paused: 0,
        sync_window_days: None,
        cache_limit_bytes: None,
        protocol_version: None,
        server_version: None,
        created_at: "2026-09-16T12:00:00Z".into(),
        updated_at: "never".into(),
        last_sync_at: None,
        last_error: None,
        refresh_token_present: true,
    }
}

fn address(text: &str, domain: &str) -> Result<ParsedAddress, String> {
    Ok(ParsedAddress { address: text.into(), domain: domain.into() })
}

#[test]
fn a_row_is_read_with_its_limits_clamped() {
    let mut stored = row(1, "a@b.c");
    stored.sync_window_days = Some(-4);
    stored.cache_limit_bytes = Some(1024);
    stored.protocol_version = Some(1);
    stored.paused = 7;
    let account = Account::from_row(stored, NOW);
    assert_eq!(account.sync_window_days, Some(0));
    assert_eq!(account.cache_limit_bytes, Some(1024));
    assert_eq!(account.protocol_version, Some(1));
    assert!(account.paused);
    assert_eq!(account.created_at, NOW);
    assert_eq!(account.updated_at, NOW, "a time that cannot be read is now");
    assert!(account.has_credentials());
    assert!(!account.is_syncable());
}

#[test]
fn a_blank_name_is_no_label() {
    let mut stored = row(1, "a@b.c");
    stored.display_name = Some("  ".into());
    assert_eq!(Account::from_row(stored.clone(), NOW).label(), "a@b.c");
    stored.display_name = Some(" Work ".into());
    assert_eq!(Account::from_row(stored, NOW).label(), " Work ");
}

#[test]
fn an_account_is_found_by_its_address_in_any_case() {
    let rows = vec![row(1, "alice@example.com"), row(2, "Alice@Company.com"), row(3, "alice@company.com")];
    let found = AccountManager::find_by_email(rows.clone(), " ALICE@COMPANY.COM ", NOW).expect("found");
    assert_eq!(found.id, AccountId(2), "the first match wins");
    assert!(AccountManager::find_by_email(rows, "bob@company.com", NOW).is_none());
}

#[test]
fn only_running_accounts_with_credentials_sync() {
    let mut paused = row(1, "a@b.c");
    paused.paused = 1;
    let mut anonymous = row(2, "b@b.c");
    anonymous.refresh_token_present = false;
    let accounts = AccountManager::list(vec![paused, anonymous, row(3, "c@b.c")], NOW);
    assert_eq!(accounts.len(), 3);
    let syncable = AccountManager::syncable(accounts);
    assert_eq!(syncable.len(), 1);
    assert_eq!(syncable[0].id, AccountId(3));
}

#[test]
fn the_device_uid_is_stable_across_calls_and_instances() {
    let first = match AccountManager::device_uid(None) {
        DeviceUid::Generated(uid) => uid,
        other => panic!("unexpected {other:?}"),
    };
    assert!(first.starts_with("dev_"));
    assert_eq!(first.len(), 36);
    assert_eq!(
        AccountManager::device_uid(Some(first.clone())),
        DeviceUid::Kept(first.clone())
    );
    // A blank setting is no setting.
    match AccountManager::device_uid(Some("  ".into())) {
        DeviceUid::Generated(uid) => assert_ne!(uid, first),
        other => panic!("unexpected {other:?}"),
    }
    assert_eq!(device_uid_from(None, "abc"), DeviceUid::Generated("dev_abc".into()));
}

#[test]
fn a_bad_address_is_rejected_before_any_network_call() {
    let bad: Result<ParsedAddress, String> = Err("no @".into());
    match AccountManager::add("not an address", bad.clone(), None) {
        Err(ClientError::Invalid(message)) => {
            assert_eq!(message, "\"not an address\" is not an address: no @");
        }
        other => panic!("unexpected {other:?}"),
    }
    let discovery = Discovery::guessed("example.com");
    assert!(AccountManager::add_discovered("not an address", bad, &discovery).is_err());
}

#[test]
fn the_explicit_server_path_skips_autodiscovery() {
    let step = AccountManager::add(
        "A@example.com",
        address("a@example.com", "example.com"),
        Some("http://127.0.0.1/api/v1/client".into()),
    );
    assert_eq!(
        step,
        Ok(AddStep::Insert {
            email: "a@example.com".into(),
            base_url: "http://127.0.0.1/api/v1/client".into(),
            source: DiscoverySource::Guessed,
        })
    );
    assert_eq!(
        AccountManager::add("a@example.com", address("a@example.com", "example.com"), None),
        Ok(AddStep::Discover { domain: "example.com".into() })
    );
    let discovery = Discovery::guessed("example.com");
    match AccountManager::add_discovered("a@example.com", address("a@example.com", "example.com"), &discovery) {
        Ok(AddStep::Insert { base_url, .. }) => {
            assert_eq!(base_url, "https://mail.example.com/api/v1/client");
        }
        other => panic!("unexpected {other:?}"),
    }
}

#[test]
fn pausing_a_missing_account_is_not_found() {
    match AccountManager::check_affected(AccountId(99), 0) {
        Err(ClientError::NotFound(message)) => assert_eq!(message, "no account 99"),
        other => panic!("unexpected {other:?}"),
    }
    assert!(AccountManager::check_affected(AccountId(99), 1).is_ok());
    assert!(AccountManager::get(None, NOW).is_none());
    match AccountManager::require(AccountId(42), None) {
        Err(ClientError::NotFound(message)) => assert_eq!(message, "no account 42"),
        other => panic!("unexpected {other:?}"),
    }
}

#[test]
fn a_client_for_an_account_talks_to_its_server() {
    let account = Account::from_row(row(1, "a@b.c"), NOW);
    let manager = AccountManager::with_retry(RetryPolicy::none());
    let client = manager.client(&account);
    assert_eq!(client.base_url(), "https://mail.example.com/api/v1/client");
    assert_eq!(client.retry_policy().max_attempts, 1);
    assert_eq!(AccountManager::new().client(&account).retry_policy().max_attempts, 4);
    assert_eq!(manager.autodiscover().well_known_path(), "/.well-known/ferroma");

    let login = manager.login(&account, "pw", "linux");
    assert_eq!(login.path, "/auth/login");
    assert!(!login.authenticated);
    let body = login.body.expect("body");
    assert_eq!(body.text_at("email").as_deref(), Some("a@b.c"));
    let device = body.get("device").expect("device");
    assert_eq!(device.text_at("device_uid").as_deref(), Some("dev_1"));
    assert_eq!(device.text_at("name").as_deref(), Some("a@b.c"));

    let again = manager.reauthenticate(AccountId(1), &Some(account), "pw", "linux");
    assert_eq!(again.expect("request").path, "/auth/login");
    assert!(matches!(
        manager.reauthenticate(AccountId(9), &None, "pw", "linux"),
        Err(ClientError::NotFound(_))
    ));
}

#[test]
fn what_the_server_said_is_recorded() {
    let login = LoginResponse {
        access_token: "access".into(),
        refresh_token: "rt".into(),
        token_type: "Bearer".into(),
        expires_in: 3600,
        device_id: Some(12),
        user: UserRef { id: 7, email: "a@b.c".into(), display_name: None },
    };
    let statement = AccountManager::record_login(AccountId(1), &login, "now");
    assert_eq!(
        statement.binds,
        vec![Bind::Int(12), Bind::Int(7), Bind::Text("now".into()), Bind::Int(1)]
    );
    // The versions are nice to have: a failure records nothing.
    let failed = Err(ClientError::Network("reset".into()));
    assert_eq!(AccountManager::record_versions(AccountId(1), &failed), None);
    let info = AccountInfo {
        user: login.user.clone(),
        mailboxes: Vec::new(),
        protocol_version: 1,
        min_protocol_version: 1,
        server_version: "0.1.0".into(),
        server_hostname: String::new(),
        limits: ServerLimits::default(),
        features: Vec::new(),
    };
    let statement = AccountManager::record_versions(AccountId(1), &Ok(info)).expect("statement");
    assert_eq!(
        statement.binds,
        vec![Bind::Int(1), Bind::Text("0.1.0".into()), Bind::Int(1)]
    );
}

#[test]
fn the_status_view_counts_queued_work() {
    let account = Account::from_row(row(1, "a@b.c"), NOW);
    let stream = StreamRow {
        folder_id: 5,
        cursor: "1841".into(),
        status: "idle".into(),
        last_error: None,
        last_sync_at: Some("2026-09-16T12:00:00Z".into()),
    };
    let status = AccountManager::status(account, vec![stream], 1, 0);
    assert_eq!(status.pending_operations, 1);
    assert_eq!(status.dirty_drafts, 0);
    assert_eq!(status.streams.len(), 1);
    assert_eq!(status.streams[0].cursor, "1841");
    assert_eq!(status.streams[0].last_sync_at, Some(NOW));
    assert_eq!(status.summary(), "1 operation(s) pending");

    let paused = SyncStatus { paused: true, last_error: Some("x".into()), ..status };
    assert_eq!(paused.summary(), "paused");
}

#[test]
fn an_id_is_its_number() {
    assert_eq!(AccountId::new(7).get(), 7);
    assert_eq!(AccountId::from(7), AccountId(7));
    assert_eq!(AccountId(-3).to_string(), "-3");
}
