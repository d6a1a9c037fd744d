//! Multi-account support.
//!
//! An account is a row of the cache, and everything else in the cache is scoped to
//! it: two accounts have separate folders, messages, outboxes and cursors. Pausing
//! an account stops its syncing without touching the other ones.

use vstd::prelude::*;

use crate::api::{AccountInfo, DeviceInfo, LoginResponse, RetryPolicy};
use crate::autodiscover::{client_base, domain_of, Autodiscover, Discovery, DiscoverySource};
use crate::database::{
    int_bind, text_bind, wipes, Bind, BindView, ClientDatabase, Statement,
};
use crate::delay::Delay;
use crate::error::{ClientError, ClientResult};
use crate::fcp::{
    device_view, law_a_sign_in_names_its_parts, login_request, plain_request, FcpClient, Method,
    RequestSpec, RequestView,
};
use crate::json::JsonView;
use crate::operations::{enqueue_binds, OperationKind, PendingQueue, ENQUEUE};
use crate::text::{
    begins_with, debug_text, decimal_signed, finishes_with, is_blank, lowered, opt_view, same, signed_digits,
    to_lower, trim, trimmed, trimmed_end, trimmed_start, without_trailing,
};
use crate::time::{optional_time, parse_optional, parse_or, rfc3339_time, time_or, Timestamp};
use crate::util::{all_hex, random_uuid};

verus! {

/// The `settings` key holding this installation's device uid.
pub const DEVICE_UID_KEY: &'static str = "client.device_uid";

/// The id of a row of `accounts`.
#[derive(Debug, Clone, Copy, PartialEq, Eq, Hash, PartialOrd, Ord, Structural)]
pub struct AccountId(pub i64);

impl AccountId {
    /// Wrap a raw id.
    pub fn new(raw: i64) -> (result: AccountId)
        ensures
            result == AccountId(raw),
    {
        AccountId(raw)
    }

    /// The raw id.
    pub fn get(self) -> (result: i64)
        ensures
            result == self.0,
    {
        self.0
    }

    /// The id in decimal.
    pub fn to_string(&self) -> (result: String)
        ensures
            result@ == signed_digits(self.0 as int),
    {
        decimal_signed(self.0)
    }
}

impl From<i64> for AccountId {
    fn from(raw: i64) -> (result: AccountId) {
        AccountId(raw)
    }
}

impl vstd::std_specs::convert::FromSpecImpl<i64> for AccountId {
    open spec fn obeys_from_spec() -> bool {
        true
    }

    open spec fn from_spec(raw: i64) -> AccountId {
        AccountId(raw)
    }
}

/// A configured account.
#[derive(Debug, Clone, PartialEq, Eq)]
pub struct Account {
    /// The local row id.
    pub id: AccountId,
    /// The address the user signed in with.
    pub email: String,
    /// A friendly name shown in the sidebar.
    pub display_name: Option<String>,
    /// The FCP base URL, e.g. `https://mail.example.com/api/v1/client`.
    pub base_url: String,
    /// This installation's device uid.
    pub device_uid: String,
    /// The server's `devices` row for this installation.
    pub device_id: Option<i64>,
    /// The server's user id.
    pub user_id: Option<i64>,
    /// Whether sync is paused for this account.
    pub paused: bool,
    /// How many days back to sync; `None` syncs everything.
    pub sync_window_days: Option<u32>,
    /// The maximum cache size for this account.
    pub cache_limit_bytes: Option<u64>,
    /// The protocol version the server negotiated.
    pub protocol_version: Option<u32>,
    /// The server build.
    pub server_version: Option<String>,
    /// When the account was added.
    pub created_at: Timestamp,
    /// When it was last modified.
    pub updated_at: Timestamp,
    /// The last successful sync.
    pub last_sync_at: Option<Timestamp>,
    /// The last failure, for the account list.
    pub last_error: Option<String>,
    /// Whether a refresh token is stored, i.e. whether the account can sync
    /// unattended. The token itself is never exposed.
    pub refresh_token_present: bool,
}

/// The columns of an `accounts` row, as they are stored.
#[derive(Debug, Clone, PartialEq, Eq)]
pub struct AccountRow {
    /// `id`
    pub id: i64,
    /// `email`
    pub email: String,
    /// `display_name`
    pub display_name: Option<String>,
    /// `base_url`
    pub base_url: String,
    /// `device_uid`
    pub device_uid: String,
    /// `device_id`
    pub device_id: Option<i64>,
    /// `user_id`
    pub user_id: Option<i64>,
    /// `paused`
    pub paused: i64,
    /// `sync_window_days`
    pub sync_window_days: Option<i64>,
    /// `cache_limit_bytes`
    pub cache_limit_bytes: Option<i64>,
    /// `protocol_version`
    pub protocol_version: Option<i64>,
    /// `server_version`
    pub server_version: Option<String>,
    /// `created_at`
    pub created_at: String,
    /// `updated_at`
    pub updated_at: String,
    /// `last_sync_at`
    pub last_sync_at: Option<String>,
    /// `last_error`
    pub last_error: Option<String>,
    /// Whether `refresh_token` is set.
    pub refresh_token_present: bool,
}

/// A stored number, or zero when it is negative.
pub open spec fn floored(stored: i64) -> i64 {
    if stored < 0 {
        0
    } else {
        stored
    }
}

/// An optional stored number, floored, in its low 32 bits.
pub open spec fn small_number(stored: Option<i64>) -> Option<u32> {
    match stored {
        Some(n) => Some(floored(n) as u32),
        None => None,
    }
}

/// An optional stored number, floored.
pub open spec fn large_number(stored: Option<i64>) -> Option<u64> {
    match stored {
        Some(n) => Some(floored(n) as u64),
        None => None,
    }
}

/// The account that a row stands for at `now`.
pub open spec fn account_of_row(row: AccountRow, now: Timestamp) -> Account {
    Account {
        id: AccountId(row.id),
        email: row.email,
        display_name: row.display_name,
        base_url: row.base_url,
        device_uid: row.device_uid,
        device_id: row.device_id,
        user_id: row.user_id,
        paused: row.paused != 0,
        sync_window_days: small_number(row.sync_window_days),
        cache_limit_bytes: large_number(row.cache_limit_bytes),
        protocol_version: small_number(row.protocol_version),
        server_version: row.server_version,
        created_at: time_or(row.created_at@, now),
        updated_at: time_or(row.updated_at@, now),
        last_sync_at: optional_time(row.last_sync_at),
        last_error: row.last_error,
        refresh_token_present: row.refresh_token_present,
    }
}

fn floor(stored: i64) -> (result: i64)
    ensures
        result == floored(stored),
{
    if stored < 0 {
        0
    } else {
        stored
    }
}

fn small(stored: Option<i64>) -> (result: Option<u32>)
    ensures
        result == small_number(stored),
{
    match stored {
        Some(n) => Some(floor(n) as u32),
        None => None,
    }
}

fn large(stored: Option<i64>) -> (result: Option<u64>)
    ensures
        result == large_number(stored),
{
    match stored {
        Some(n) => Some(floor(n) as u64),
        None => None,
    }
}

impl Account {
    /// What the sidebar calls the account.
    pub open spec fn shown_name(&self) -> Seq<char> {
        match self.display_name {
            Some(name) => if trimmed(name@).len() > 0 {
                name@
            } else {
                self.email@
            },
            None => self.email@,
        }
    }

    /// Whether the account should be synced right now.
    pub open spec fn wants_sync(&self) -> bool {
        !self.paused && self.refresh_token_present
    }

    /// The label the sidebar shows.
    pub fn label(&self) -> (result: String)
        ensures
            result@ == self.shown_name(),
    {
        match &self.display_name {
            Some(name) => if !trim(name.as_str()).as_str().is_empty() {
                name.clone()
            } else {
                self.email.clone()
            },
            None => self.email.clone(),
        }
    }

    /// Whether the account carries a refresh token, i.e. can run unattended.
    pub fn has_credentials(&self) -> (result: bool)
        ensures
            result == self.refresh_token_present,
    {
        self.refresh_token_present
    }

    /// Whether this account should be synced right now.
    pub fn is_syncable(&self) -> (result: bool)
        ensures
            result == self.wants_sync(),
    {
        !self.paused && self.has_credentials()
    }

    /// Read an account from its stored columns. Times that cannot be read are
    /// `now`, and negative sizes are zero.
    pub fn from_row(row: AccountRow, now: Timestamp) -> (result: Account)
        ensures
            result == account_of_row(row, now),
    {
        Account {
            id: AccountId(row.id),
            email: row.email,
            display_name: row.display_name,
            base_url: row.base_url,
            device_uid: row.device_uid,
            device_id: row.device_id,
            user_id: row.user_id,
            paused: row.paused != 0,
            sync_window_days: small(row.sync_window_days),
            cache_limit_bytes: large(row.cache_limit_bytes),
            protocol_version: small(row.protocol_version),
            server_version: row.server_version,
            created_at: parse_or(row.created_at.as_str(), now),
            updated_at: parse_or(row.updated_at.as_str(), now),
            last_sync_at: parse_optional(&row.last_sync_at),
            last_error: row.last_error,
            refresh_token_present: row.refresh_token_present,
        }
    }
}

// -- the status view -------------------------------------------------------

/// The sync state of one folder stream, for the account status view.
#[derive(Debug, Clone, PartialEq, Eq)]
pub struct StreamStatus {
    /// The folder, or `0` for the account-level stream.
    pub folder_id: i64,
    /// The stored cursor; opaque.
    pub cursor: String,
    /// `idle`, `syncing`, `error` or `paused`.
    pub status: String,
    /// The last failure on this stream.
    pub last_error: Option<String>,
    /// When the stream last advanced.
    pub last_sync_at: Option<Timestamp>,
}

/// The columns of a `sync_state` row, as they are stored.
#[derive(Debug, Clone, PartialEq, Eq)]
pub struct StreamRow {
    /// `folder_id`
    pub folder_id: i64,
    /// `cursor`
    pub cursor: String,
    /// `status`
    pub status: String,
    /// `last_error`
    pub last_error: Option<String>,
    /// `last_sync_at`
    pub last_sync_at: Option<String>,
}

/// The stream that a row stands for.
pub open spec fn stream_of_row(row: StreamRow) -> StreamStatus {
    StreamStatus {
        folder_id: row.folder_id,
        cursor: row.cursor,
        status: row.status,
        last_error: row.last_error,
        last_sync_at: optional_time(row.last_sync_at),
    }
}

/// A stream is shown as it is stored, each column in its own place.
pub proof fn law_a_stream_is_shown_as_stored(row: StreamRow)
    ensures
        stream_of_row(row).folder_id == row.folder_id,
        stream_of_row(row).cursor@ == row.cursor@,
        stream_of_row(row).status@ == row.status@,
        opt_view(stream_of_row(row).last_error) == opt_view(row.last_error),
        row.last_sync_at matches Some(text) ==> stream_of_row(row).last_sync_at == rfc3339_time(
            text@,
        ),
        row.last_sync_at is None ==> stream_of_row(row).last_sync_at is None,
{
}

/// The sync status of one account.
#[derive(Debug, Clone, PartialEq, Eq)]
pub struct SyncStatus {
    /// The account.
    pub account_id: AccountId,
    /// Whether syncing is paused.
    pub paused: bool,
    /// The last successful sync.
    pub last_sync_at: Option<Timestamp>,
    /// The last failure.
    pub last_error: Option<String>,
    /// How many offline operations are waiting.
    pub pending_operations: i64,
    /// How many drafts still need pushing.
    pub dirty_drafts: i64,
    /// One entry per stream.
    pub streams: Vec<StreamStatus>,
}

/// The one-line summary: a pause hides an error, an error hides the queue.
pub open spec fn status_line(paused: bool, last_error: Option<String>, pending: int) -> Seq<char> {
    if paused {
        "paused"@
    } else {
        match last_error {
            Some(error) => "error: "@ + error@,
            None => if pending == 0 {
                "up to date"@
            } else {
                signed_digits(pending) + " operation(s) pending"@
            },
        }
    }
}

/// The line says the first thing the user has to know: that the account is paused, else what
/// went wrong, else how much is waiting, and that all is well only if nothing is.
pub proof fn law_the_line_says_what_matters_first(
    paused: bool,
    last_error: Option<String>,
    pending: int,
)
    ensures
        paused ==> status_line(paused, last_error, pending) == "paused"@,
        !paused ==> (last_error matches Some(error) ==> status_line(paused, last_error, pending)
            == "error: "@ + error@),
        !paused && last_error is None && pending != 0 ==> begins_with(
            status_line(paused, last_error, pending),
            signed_digits(pending),
        ),
        !paused && last_error is None ==> (status_line(paused, last_error, pending)
            == "up to date"@ <==> pending == 0),
{
    reveal_strlit("up to date");
    reveal_strlit(" operation(s) pending");
    if !paused && last_error is None && pending != 0 {
        let line = status_line(paused, last_error, pending);
        let n = signed_digits(pending);
        assert(line.subrange(0, n.len() as int) =~= n);
        assert(line.last() == 'g' && "up to date"@.last() == 'e');
    }
}

impl SyncStatus {
    /// A one-line summary for the account list.
    pub fn summary(&self) -> (result: String)
        ensures
            result@ == status_line(self.paused, self.last_error, self.pending_operations as int),
    {
        if self.paused {
            return "paused".to_owned();
        }
        match &self.last_error {
            Some(error) => {
                let mut out = "error: ".to_owned();
                out.append(error.as_str());
                out
            },
            None => if self.pending_operations == 0 {
                "up to date".to_owned()
            } else {
                let mut out = decimal_signed(self.pending_operations);
                out.append(" operation(s) pending");
                out
            },
        }
    }
}

// -- the token store -------------------------------------------------------

/// Keeps the rotating refresh token in the account row.
#[derive(Debug, Clone, Copy, PartialEq, Eq, Structural)]
pub struct SqliteTokenStore {
    /// The account whose token this is.
    pub account_id: AccountId,
}

impl SqliteTokenStore {
    /// Bind a store to an account row.
    pub fn new(account_id: AccountId) -> (result: SqliteTokenStore)
        ensures
            result.account_id == account_id,
    {
        SqliteTokenStore { account_id }
    }

    /// The statement that reads the stored token.
    pub fn load(&self) -> (result: Statement)
        ensures
            result.stands_for(
                "SELECT refresh_token FROM accounts WHERE id = ?"@,
                seq![BindView::Int(self.account_id.0 as int)],
            ),
    {
        Statement::new("SELECT refresh_token FROM accounts WHERE id = ?").bind(
            Bind::Int(self.account_id.0),
        )
    }

    /// The statement that stores a new token.
    pub fn save(&self, refresh_token: &str, now: &str) -> (result: Statement)
        ensures
            result.stands_for(
                "UPDATE accounts SET refresh_token = ?, updated_at = ? WHERE id = ?"@,
                seq![
                    BindView::Text(refresh_token@),
                    BindView::Text(now@),
                    BindView::Int(self.account_id.0 as int),
                ],
            ),
    {
        Statement::new("UPDATE accounts SET refresh_token = ?, updated_at = ? WHERE id = ?").bind(
            Bind::text(refresh_token),
        ).bind(Bind::text(now)).bind(Bind::Int(self.account_id.0))
    }

    /// The statement that forgets the token.
    pub fn clear(&self, now: &str) -> (result: Statement)
        ensures
            result.stands_for(
                "UPDATE accounts SET refresh_token = NULL, updated_at = ? WHERE id = ?"@,
                seq![BindView::Text(now@), BindView::Int(self.account_id.0 as int)],
            ),
    {
        Statement::new("UPDATE accounts SET refresh_token = NULL, updated_at = ? WHERE id = ?").bind(
            Bind::text(now),
        ).bind(Bind::Int(self.account_id.0))
    }
}

// -- the manager -----------------------------------------------------------

/// This installation's device uid.
#[derive(Debug, Clone, PartialEq, Eq)]
pub enum DeviceUid {
    /// The one that is remembered.
    Kept(String),
    /// A new one, which has to be remembered under [`DEVICE_UID_KEY`].
    Generated(String),
}

/// The uid to use, given the remembered one and a fresh random text.
pub fn device_uid_from(existing: Option<String>, random: &str) -> (result: DeviceUid)
    ensures
        match existing {
            Some(uid) => if trimmed(uid@).len() > 0 {
                result == DeviceUid::Kept(uid)
            } else {
                result matches DeviceUid::Generated(new) && new@ == "dev_"@ + random@
            },
            None => result matches DeviceUid::Generated(new) && new@ == "dev_"@ + random@,
        },
{
    match existing {
        Some(uid) => {
            if !trim(uid.as_str()).as_str().is_empty() {
                return DeviceUid::Kept(uid);
            }
        },
        None => {},
    }
    let mut out = "dev_".to_owned();
    out.append(random);
    DeviceUid::Generated(out)
}

/// An address that the address parser accepted.
#[derive(Debug, Clone, PartialEq, Eq)]
pub struct ParsedAddress {
    /// The address in lower case.
    pub address: String,
    /// Its domain.
    pub domain: String,
}

/// What adding an account takes next.
#[derive(Debug, Clone, PartialEq, Eq)]
pub enum AddStep {
    /// Insert the row and log in.
    Insert {
        /// The address in lower case.
        email: String,
        /// The FCP base URL.
        base_url: String,
        /// How the server was found.
        source: DiscoverySource,
    },
    /// Discover the server of the domain first.
    Discover {
        /// The domain.
        domain: String,
    },
}

/// The message for text that is not an address.
pub open spec fn not_an_address(email: Seq<char>, message: Seq<char>) -> Seq<char> {
    debug_text(email) + " is not an address: "@ + message
}

/// Whether a request logs an account in from this installation, on this platform.
pub open spec fn login_of(
    request: RequestView,
    account: Account,
    password: Seq<char>,
    platform: Seq<char>,
) -> bool {
    exists|device: DeviceInfo|
        {
            &&& device.device_uid@ == account.device_uid@
            &&& device.name@ == account.shown_name()
            &&& device.platform@ == platform
            &&& device.client_version@ == crate::api::VERSION@
            &&& request == plain_request(Method::Post, "/auth/login"@).with_body(
                JsonView::Object(
                    seq![
                        ("email"@, JsonView::Text(account.email@)),
                        ("password"@, JsonView::Text(password)),
                        ("device"@, #[trigger] device_view(device)),
                    ],
                ),
            ).without_token()
        }
}

/// The message for an id that no row has.
pub open spec fn no_account(id: AccountId) -> Seq<char> {
    "no account "@ + signed_digits(id.0 as int)
}

/// The error for an id that no row has.
pub fn missing_account(id: AccountId) -> (result: ClientError)
    ensures
        result matches ClientError::NotFound(m) && m@ == no_account(id),
{
    let mut message = "no account ".to_owned();
    message.append(id.to_string().as_str());
    ClientError::NotFound(message)
}

/// What an edit of an account's settings leaves in the row. A setting that is not
/// mentioned stays; one that is mentioned without a value is cleared.
#[derive(Debug, Clone, PartialEq, Eq)]
pub struct AccountSettings {
    /// The friendly name.
    pub display_name: Option<String>,
    /// The sync window.
    pub sync_window_days: Option<u32>,
    /// The cache limit.
    pub cache_limit_bytes: Option<u64>,
}

/// The new value of a setting, or the present one where there is none.
pub open spec fn merged<T>(new: Option<T>, present: T) -> T {
    match new {
        Some(value) => value,
        None => present,
    }
}

/// The signed number that a size is stored as, by its bits.
pub open spec fn stored_size(bytes: u64) -> i64 {
    bytes as i64
}

/// The settings after an edit.
pub open spec fn edited(
    account: Account,
    display_name: Option<Option<String>>,
    sync_window_days: Option<Option<u32>>,
    cache_limit_bytes: Option<Option<u64>>,
) -> AccountSettings {
    AccountSettings {
        display_name: merged(display_name, account.display_name),
        sync_window_days: merged(sync_window_days, account.sync_window_days),
        cache_limit_bytes: merged(cache_limit_bytes, account.cache_limit_bytes),
    }
}

/// The parameters that insert an account.
pub open spec fn add_binds(
    email: Seq<char>,
    display_name: Option<String>,
    base_url: Seq<char>,
    device_uid: Seq<char>,
    now: Seq<char>,
) -> Seq<BindView> {
    seq![
        BindView::Text(email),
        text_bind(display_name),
        BindView::Text(base_url),
        BindView::Text(device_uid),
        BindView::Text(now),
        BindView::Text(now),
    ]
}

/// The parameters that record a login.
pub open spec fn login_binds(id: AccountId, login: LoginResponse, now: Seq<char>) -> Seq<BindView> {
    seq![
        int_bind(login.device_id),
        BindView::Int(login.user.id as int),
        BindView::Text(now),
        BindView::Int(id.0 as int),
    ]
}

/// The parameters that record the negotiated versions.
pub open spec fn version_binds(id: AccountId, info: AccountInfo) -> Seq<BindView> {
    seq![
        BindView::Int(info.protocol_version as int),
        BindView::Text(info.server_version@),
        BindView::Int(id.0 as int),
    ]
}

/// The parameters that pause or resume an account.
pub open spec fn pause_binds(id: AccountId, paused: bool, now: Seq<char>) -> Seq<BindView> {
    seq![
        BindView::Int(
            if paused {
                1int
            } else {
                0int
            },
        ),
        BindView::Text(now),
        BindView::Int(id.0 as int),
    ]
}

/// The parameters that make the streams of an account follow it.
pub open spec fn stream_binds(id: AccountId, paused: bool) -> Seq<BindView> {
    seq![
        BindView::Text(
            if paused {
                "paused"@
            } else {
                "idle"@
            },
        ),
        BindView::Int(id.0 as int),
    ]
}

/// The parameters that store settings.
pub open spec fn setting_binds(id: AccountId, settings: AccountSettings, now: Seq<char>) -> Seq<
    BindView,
> {
    seq![
        text_bind(settings.display_name),
        match settings.sync_window_days {
            Some(days) => BindView::Int(days as int),
            None => BindView::Null,
        },
        match settings.cache_limit_bytes {
            Some(bytes) => BindView::Int(stored_size(bytes) as int),
            None => BindView::Null,
        },
        BindView::Text(now),
        BindView::Int(id.0 as int),
    ]
}

/// The parameters that record a failed sync.
pub open spec fn failure_binds(id: AccountId, message: Seq<char>, now: Seq<char>) -> Seq<BindView> {
    seq![BindView::Text(message), BindView::Text(now), BindView::Int(id.0 as int)]
}

/// The parameters that record a successful sync.
pub open spec fn success_binds(id: AccountId, now: Seq<char>) -> Seq<BindView> {
    seq![BindView::Text(now), BindView::Text(now), BindView::Int(id.0 as int)]
}

/// Adds, removes, pauses and re-authenticates accounts.
#[derive(Debug, Clone)]
pub struct AccountManager {
    autodiscover: Autodiscover,
    retry: RetryPolicy,
}

impl AccountManager {
    /// The path that discovery fetches.
    pub closed spec fn discovery_path(&self) -> Seq<char> {
        self.autodiscover.path()
    }

    /// The retry policy of the clients it builds.
    pub closed spec fn policy(&self) -> RetryPolicy {
        self.retry
    }

    /// A manager with the default retry policy.
    pub fn new() -> (result: AccountManager)
        ensures
            result.discovery_path() == crate::autodiscover::WELL_KNOWN_PATH@,
            result.policy() == (RetryPolicy {
                max_attempts: 4,
                base_delay: Delay { millis: 250 },
                max_delay: Delay { millis: 20_000 },
                max_retry_after: Delay { millis: 60_000 },
            }),
    {
        AccountManager::with_retry(RetryPolicy::default())
    }

    /// A manager with an explicit retry policy.
    pub fn with_retry(retry: RetryPolicy) -> (result: AccountManager)
        ensures
            result.discovery_path() == crate::autodiscover::WELL_KNOWN_PATH@,
            result.policy() == retry,
    {
        AccountManager { autodiscover: Autodiscover::new(), retry }
    }

    /// The autodiscovery helper.
    pub fn autodiscover(&self) -> (result: &Autodiscover)
        ensures
            result.path() == self.discovery_path(),
    {
        &self.autodiscover
    }

    /// This installation's device uid: the remembered one, or a fresh one to
    /// remember.
    pub fn device_uid(existing: Option<String>) -> (result: DeviceUid)
        ensures
            match existing {
                Some(uid) => if trimmed(uid@).len() > 0 {
                    result == DeviceUid::Kept(uid)
                } else {
                    fresh_uid(result)
                },
                None => fresh_uid(result),
            },
    {
        let random = random_uuid();
        let result = device_uid_from(existing, random.as_str());
        assert(result matches DeviceUid::Generated(uid) ==> uid@ == "dev_"@ + random@);
        result
    }

    /// Every account of the given rows, in their order.
    pub fn list(rows: Vec<AccountRow>, now: Timestamp) -> (result: Vec<Account>)
        ensures
            result@ == rows@.map_values(|row: AccountRow| account_of_row(row, now)),
    {
        let ghost all = rows@;
        let mut out: Vec<Account> = Vec::new();
        for row in it: rows.into_iter()
            invariant
                it.seq() == all,
                out@ == all.take(it.index() as int).map_values(
                    |row: AccountRow| account_of_row(row, now),
                ),
        {
            proof {
                let done = all.take(it.index() as int);
                assert(all.take(it.index() + 1) =~= done.push(row));
                assert(done.push(row).map_values(|row: AccountRow| account_of_row(row, now))
                    =~= done.map_values(|row: AccountRow| account_of_row(row, now)).push(
                    account_of_row(row, now),
                ));
            }
            out.push(Account::from_row(row, now));
        }
        proof {
            assert(all.take(all.len() as int) =~= all);
        }
        out
    }

    /// One account, given the row that its id selects, if there is one.
    pub fn get(row: Option<AccountRow>, now: Timestamp) -> (result: Option<Account>)
        ensures
            match row {
                Some(row) => result == Some(account_of_row(row, now)),
                None => result is None,
            },
    {
        match row {
            Some(row) => Some(Account::from_row(row, now)),
            None => None,
        }
    }

    /// The account that was found under an id, for a caller that needs it.
    pub fn require(id: AccountId, found: Option<Account>) -> (result: ClientResult<Account>)
        ensures
            match found {
                Some(account) => result == ClientResult::<Account>::Ok(account),
                None => result matches Err(ClientError::NotFound(m)) && m@ == no_account(id),
            },
    {
        match found {
            Some(account) => Ok(account),
            None => Err(missing_account(id)),
        }
    }

    /// The first account whose address matches, case-insensitively.
    pub fn find_by_email(rows: Vec<AccountRow>, email: &str, now: Timestamp) -> (result: Option<
        Account,
    >)
        ensures
            match result {
                Some(account) => exists|i: int|
                    0 <= i < rows@.len() && first_match(rows@, email@, i) && account
                        == account_of_row(rows@[i], now),
                None => forall|i: int| 0 <= i < rows@.len() ==> !address_matches(rows@[i], email@),
            },
    {
        let ghost all = rows@;
        let wanted = to_lower(trim(email).as_str());
        for row in it: rows.into_iter()
            invariant
                it.seq() == all,
                all == rows@,
                wanted@ == lowered(trimmed(email@)),
                forall|i: int| 0 <= i < it.index() ==> !address_matches(all[i], email@),
        {
            if same(to_lower(row.email.as_str()).as_str(), wanted.as_str()) {
                proof {
                    assert(first_match(all, email@, it.index() as int));
                }
                return Some(Account::from_row(row, now));
            }
        }
        None
    }

    /// A client bound to an account, with the manager's retry policy.
    pub fn client(&self, account: &Account) -> (result: FcpClient)
        ensures
            result.base() == without_trailing(account.base_url@, '/'),
            result.uid() == Seq::<char>::empty(),
            result.policy() == self.policy(),
            result.token() is None,
    {
        AccountManager::client_with_retry(account, self.retry)
    }

    /// The same, with an explicit retry policy.
    pub fn client_with_retry(account: &Account, retry: RetryPolicy) -> (result: FcpClient)
        ensures
            result.base() == without_trailing(account.base_url@, '/'),
            result.uid() == Seq::<char>::empty(),
            result.policy() == retry,
            result.token() is None,
    {
        FcpClient::with_retry(account.base_url.as_str(), retry)
    }

    /// Start adding an account, given what the address parser made of the address:
    /// a server that the user named is taken as it is, otherwise it is discovered.
    /// A bad address is refused before anything else happens.
    pub fn add(
        email: &str,
        parsed: Result<ParsedAddress, String>,
        base_url: Option<String>,
    ) -> (result: ClientResult<AddStep>)
        ensures
            match (parsed, base_url) {
                (Err(message), _) => result matches Err(ClientError::Invalid(m)) && m@
                    == not_an_address(email@, message@),
                (Ok(address), Some(url)) => result == ClientResult::<AddStep>::Ok(
                    AddStep::Insert {
                        email: address.address,
                        base_url: url,
                        source: DiscoverySource::Guessed,
                    },
                ),
                (Ok(address), None) => result == ClientResult::<AddStep>::Ok(
                    AddStep::Discover { domain: address.domain },
                ),
            },
    {
        match parsed {
            Err(message) => match domain_of(email, Err(message)) {
                Ok(domain) => Ok(AddStep::Discover { domain }),
                Err(error) => Err(error),
            },
            Ok(address) => match base_url {
                Some(base_url) => Ok(
                    AddStep::Insert {
                        email: address.address,
                        base_url,
                        source: DiscoverySource::Guessed,
                    },
                ),
                None => Ok(AddStep::Discover { domain: address.domain }),
            },
        }
    }

    /// Add an account whose discovery result is already known.
    pub fn add_discovered(
        email: &str,
        parsed: Result<ParsedAddress, String>,
        discovery: &Discovery,
    ) -> (result: ClientResult<AddStep>)
        ensures
            match parsed {
                Err(message) => result matches Err(ClientError::Invalid(m)) && m@
                    == not_an_address(email@, message@),
                Ok(address) => {
                    &&& result matches Ok(AddStep::Insert { email: row_email, base_url, source })
                    &&& row_email == address.address
                    &&& base_url@ == client_base(discovery.api@)
                    &&& source == discovery.source
                },
            },
    {
        match parsed {
            Err(message) => match domain_of(email, Err(message)) {
                Ok(domain) => Ok(AddStep::Discover { domain }),
                Err(error) => Err(error),
            },
            Ok(address) => Ok(
                AddStep::Insert {
                    email: address.address,
                    base_url: discovery.fcp_base_url(),
                    source: discovery.source,
                },
            ),
        }
    }

    /// The statement that inserts an account row.
    pub fn insert(
        email: &str,
        display_name: &Option<String>,
        base_url: &str,
        device_uid: &str,
        now: &str,
    ) -> (result: Statement)
        ensures
            result.stands_for(
                "INSERT INTO accounts (email, display_name, base_url, device_uid, created_at, updated_at) VALUES (?, ?, ?, ?, ?, ?)"@,
                add_binds(email@, *display_name, base_url@, device_uid@, now@),
            ),
    {
        Statement::new(
            "INSERT INTO accounts (email, display_name, base_url, device_uid, created_at, updated_at) VALUES (?, ?, ?, ?, ?, ?)",
        ).bind(Bind::text(email)).bind(Bind::text_if(display_name)).bind(Bind::text(base_url)).bind(
            Bind::text(device_uid),
        ).bind(Bind::text(now)).bind(Bind::text(now))
    }

    /// The request that logs an account in from this installation.
    pub fn login(&self, account: &Account, password: &str, platform: &str) -> (result: RequestSpec)
        ensures
            login_of(result@, *account, password@, platform@),
    {
        let device = DeviceInfo::local(
            account.device_uid.as_str(),
            account.label().as_str(),
            platform,
        );
        let client = self.client(account);
        let result = client.login(account.email.as_str(), password, &device);
        assert(device_view(device) == device_view(device));
        result
    }

    /// Log an account in again, if it was found: the request that does.
    pub fn reauthenticate(
        &self,
        id: AccountId,
        found: &Option<Account>,
        password: &str,
        platform: &str,
    ) -> (result: ClientResult<RequestSpec>)
        ensures
            match found {
                Some(account) => result is Ok && login_of(
                    result->Ok_0@,
                    *account,
                    password@,
                    platform@,
                ),
                None => result matches Err(ClientError::NotFound(m)) && m@ == no_account(id),
            },
    {
        match found {
            Some(account) => Ok(self.login(account, password, platform)),
            None => Err(missing_account(id)),
        }
    }

    /// The statement that records what a login told us; it clears the last error.
    pub fn record_login(id: AccountId, login: &LoginResponse, now: &str) -> (result: Statement)
        ensures
            result.stands_for(
                RECORD_LOGIN@,
                login_binds(id, *login, now@),
            ),
    {
        Statement::new(RECORD_LOGIN).bind(Bind::int_if(login.device_id)).bind(
            Bind::Int(login.user.id),
        ).bind(Bind::text(now)).bind(Bind::Int(id.0))
    }

    /// The statement that records the negotiated versions after a login. They are
    /// nice to have: when the account could not be read there is nothing to record,
    /// and the login still stands.
    pub fn record_versions(id: AccountId, answer: &ClientResult<AccountInfo>) -> (result: Option<
        Statement,
    >)
        ensures
            match answer {
                Ok(info) => result is Some && result->0.stands_for(
                    RECORD_VERSIONS@,
                    version_binds(id, *info),
                ),
                Err(_) => result is None,
            },
    {
        match answer {
            Ok(info) => Some(
                Statement::new(RECORD_VERSIONS).bind(Bind::Int(info.protocol_version as i64)).bind(
                    Bind::text(info.server_version.as_str()),
                ).bind(Bind::Int(id.0)),
            ),
            Err(_) => None,
        }
    }

    /// The statements that pause or resume one account: first the account row, then
    /// its streams, so a later resume knows what to do.
    pub fn pause(id: AccountId, paused: bool, now: &str) -> (result: (Statement, Statement))
        ensures
            result.0.stands_for(
                PAUSE_ACCOUNT@,
                pause_binds(id, paused, now@),
            ),
            result.1.stands_for(
                PAUSE_STREAMS@,
                stream_binds(id, paused),
            ),
    {
        let flag: i64 = if paused {
            1
        } else {
            0
        };
        let status = if paused {
            "paused"
        } else {
            "idle"
        };
        (
            Statement::new(PAUSE_ACCOUNT).bind(Bind::Int(flag)).bind(Bind::text(now)).bind(
                Bind::Int(id.0),
            ),
            Statement::new(PAUSE_STREAMS).bind(Bind::text(status)).bind(Bind::Int(id.0)),
        )
    }

    /// Whether a change found its account, by the number of rows it affected.
    pub fn check_affected(id: AccountId, affected: u64) -> (result: ClientResult<()>)
        ensures
            if affected == 0 {
                result matches Err(ClientError::NotFound(m)) && m@ == no_account(id)
            } else {
                result is Ok
            },
    {
        if affected == 0 {
            Err(missing_account(id))
        } else {
            Ok(())
        }
    }

    /// Remove an account, found or not, with everything cached for it.
    pub fn remove(id: AccountId, found: bool, db: &ClientDatabase) -> (result: ClientResult<
        Vec<Statement>,
    >)
        ensures
            if found {
                result is Ok && wipes(result->Ok_0@, db.mode(), id.0 as int)
            } else {
                result matches Err(ClientError::NotFound(m)) && m@ == no_account(id)
            },
    {
        if found {
            Ok(db.wipe_account(id.0))
        } else {
            Err(missing_account(id))
        }
    }

    /// Queue an operation for an account, found or not, without talking to the network.
    pub fn queue_operation(
        id: AccountId,
        found: bool,
        kind: OperationKind,
        payload: &str,
        operation_id: &str,
        now: &str,
    ) -> (result: ClientResult<Statement>)
        ensures
            if found {
                &&& result is Ok
                &&& result->Ok_0.stands_for(
                    ENQUEUE@,
                    enqueue_binds(id.0 as int, kind, payload@, operation_id@, now@),
                )
            } else {
                result matches Err(ClientError::NotFound(m)) && m@ == no_account(id)
            },
    {
        if found {
            Ok(PendingQueue::enqueue_with_id(id.0, kind, payload, operation_id, now))
        } else {
            Err(missing_account(id))
        }
    }

    /// Edit the user-facing settings of an account.
    pub fn edit(
        account: Account,
        display_name: Option<Option<String>>,
        sync_window_days: Option<Option<u32>>,
        cache_limit_bytes: Option<Option<u64>>,
    ) -> (result: AccountSettings)
        ensures
            result == edited(account, display_name, sync_window_days, cache_limit_bytes),
    {
        AccountSettings {
            display_name: match display_name {
                Some(name) => name,
                None => account.display_name,
            },
            sync_window_days: match sync_window_days {
                Some(days) => days,
                None => account.sync_window_days,
            },
            cache_limit_bytes: match cache_limit_bytes {
                Some(bytes) => bytes,
                None => account.cache_limit_bytes,
            },
        }
    }

    /// The statement that stores edited settings.
    pub fn store_settings(id: AccountId, settings: &AccountSettings, now: &str) -> (result:
        Statement)
        ensures
            result.stands_for(
                STORE_SETTINGS@,
                setting_binds(id, *settings, now@),
            ),
    {
        let window: Option<i64> = match settings.sync_window_days {
            Some(days) => Some(days as i64),
            None => None,
        };
        let limit: Option<i64> = match settings.cache_limit_bytes {
            Some(bytes) => Some(bytes as i64),
            None => None,
        };
        Statement::new(STORE_SETTINGS).bind(Bind::text_if(&settings.display_name)).bind(
            Bind::int_if(window),
        ).bind(Bind::int_if(limit)).bind(Bind::text(now)).bind(Bind::Int(id.0))
    }

    /// The statement that records the outcome of a sync run: a failure keeps the
    /// time of the last success, a success clears the last failure.
    pub fn record_sync(id: AccountId, error: Option<&str>, now: &str) -> (result: Statement)
        ensures
            match error {
                Some(message) => result.stands_for(
                    RECORD_FAILURE@,
                    failure_binds(id, message@, now@),
                ),
                None => result.stands_for(RECORD_SUCCESS@, success_binds(id, now@)),
            },
    {
        match error {
            Some(message) => Statement::new(RECORD_FAILURE).bind(Bind::text(message)).bind(
                Bind::text(now),
            ).bind(Bind::Int(id.0)),
            None => Statement::new(RECORD_SUCCESS).bind(Bind::text(now)).bind(Bind::text(now)).bind(
                Bind::Int(id.0),
            ),
        }
    }

    /// The status view of an account, from its stream rows and the two counts.
    pub fn status(
        account: Account,
        streams: Vec<StreamRow>,
        pending_operations: i64,
        dirty_drafts: i64,
    ) -> (result: SyncStatus)
        ensures
            result.account_id == account.id,
            result.paused == account.paused,
            result.last_sync_at == account.last_sync_at,
            result.last_error == account.last_error,
            result.pending_operations == pending_operations,
            result.dirty_drafts == dirty_drafts,
            result.streams@ == streams@.map_values(|row: StreamRow| stream_of_row(row)),
    {
        let ghost all = streams@;
        let mut out: Vec<StreamStatus> = Vec::new();
        for row in it: streams.into_iter()
            invariant
                it.seq() == all,
                out@ == all.take(it.index() as int).map_values(
                    |row: StreamRow| stream_of_row(row),
                ),
        {
            proof {
                let done = all.take(it.index() as int);
                assert(all.take(it.index() + 1) =~= done.push(row));
                assert(done.push(row).map_values(|row: StreamRow| stream_of_row(row))
                    =~= done.map_values(|row: StreamRow| stream_of_row(row)).push(
                    stream_of_row(row),
                ));
            }
            let last_sync_at = parse_optional(&row.last_sync_at);
            out.push(
                StreamStatus {
                    folder_id: row.folder_id,
                    cursor: row.cursor,
                    status: row.status,
                    last_error: row.last_error,
                    last_sync_at,
                },
            );
        }
        proof {
            assert(all.take(all.len() as int) =~= all);
        }
        SyncStatus {
            account_id: account.id,
            paused: account.paused,
            last_sync_at: account.last_sync_at,
            last_error: account.last_error,
            pending_operations,
            dirty_drafts,
            streams: out,
        }
    }

    /// The accounts that should be synced right now, in their order.
    pub fn syncable(accounts: Vec<Account>) -> (result: Vec<Account>)
        ensures
            result@ == accounts@.filter(|account: Account| account.wants_sync()),
    {
        let ghost all = accounts@;
        let mut out: Vec<Account> = Vec::new();
        for account in it: accounts.into_iter()
            invariant
                it.seq() == all,
                out@ == all.take(it.index() as int).filter(
                    |account: Account| account.wants_sync(),
                ),
        {
            proof {
                let next = all.take(it.index() + 1);
                assert(next.drop_last() =~= all.take(it.index() as int));
                assert(next.last() == account);
                reveal(Seq::filter);
            }
            if account.is_syncable() {
                out.push(account);
            }
        }
        proof {
            assert(all.take(all.len() as int) =~= all);
        }
        out
    }
}

/// Records what a login told us.
pub const RECORD_LOGIN: &'static str =
    "UPDATE accounts SET device_id = ?, user_id = ?, updated_at = ?, last_error = NULL WHERE id = ?";

/// Records the negotiated versions.
pub const RECORD_VERSIONS: &'static str =
    "UPDATE accounts SET protocol_version = ?, server_version = ? WHERE id = ?";

/// Pauses or resumes an account.
pub const PAUSE_ACCOUNT: &'static str =
    "UPDATE accounts SET paused = ?, updated_at = ? WHERE id = ?";

/// Makes the streams of an account follow it.
pub const PAUSE_STREAMS: &'static str = "UPDATE sync_state SET status = ? WHERE account_id = ?";

/// Stores the user-facing settings.
pub const STORE_SETTINGS: &'static str =
    "UPDATE accounts SET display_name = ?, sync_window_days = ?, cache_limit_bytes = ?, updated_at = ? WHERE id = ?";

/// Records a failed sync.
pub const RECORD_FAILURE: &'static str =
    "UPDATE accounts SET last_error = ?, updated_at = ? WHERE id = ?";

/// Records a successful sync.
pub const RECORD_SUCCESS: &'static str =
    "UPDATE accounts SET last_sync_at = ?, last_error = NULL, updated_at = ? WHERE id = ?";

/// Whether a new uid has been made: `dev_` and thirty two hexadecimal digits.
pub open spec fn fresh_uid(uid: DeviceUid) -> bool {
    uid matches DeviceUid::Generated(text) && exists|random: Seq<char>|
        random.len() == 32 && all_hex(random) && text@ == "dev_"@ + random
}

/// Whether a row's address is the one that is looked for.
pub open spec fn address_matches(row: AccountRow, email: Seq<char>) -> bool {
    lowered(row.email@) == lowered(trimmed(email))
}

/// Whether row `i` is the first with the address that is looked for.
pub open spec fn first_match(rows: Seq<AccountRow>, email: Seq<char>, i: int) -> bool {
    &&& address_matches(rows[i], email)
    &&& forall|j: int| 0 <= j < i ==> !address_matches(rows[j], email)
}

// -- laws ------------------------------------------------------------------

/// A change is for the account that it was asked for and for no other: the last parameter, the one
/// that picks the row, is that account's id. And every parameter is of the kind that its column
/// holds, so that none of them is refused or stored as something else.
pub proof fn law_a_change_picks_its_account(
    id: AccountId,
    login: LoginResponse,
    info: AccountInfo,
    settings: AccountSettings,
    paused: bool,
    texts: (Seq<char>, Seq<char>, Seq<char>),
    name: Option<String>,
    now: Seq<char>,
)
    ensures
        ({
            let one = BindView::Int(id.0 as int);
            let logged_in = login_binds(id, login, now);
            let versions = version_binds(id, info);
            let pause = pause_binds(id, paused, now);
            let streams = stream_binds(id, paused);
            let set = setting_binds(id, settings, now);
            let failure = failure_binds(id, texts.0, now);
            let success = success_binds(id, now);
            &&& logged_in.len() == 4 && logged_in.last() == one
            &&& logged_in[0] !is Text && logged_in[1] is Int && logged_in[2] is Text
            &&& versions.len() == 3 && versions.last() == one
            &&& versions[0] is Int && versions[1] is Text
            &&& pause.len() == 3 && pause.last() == one && pause[0] is Int && pause[1] is Text
            &&& streams.len() == 2 && streams.last() == one && streams[0] is Text
            &&& set.len() == 5 && set.last() == one
            &&& set[0] !is Int && set[1] !is Text && set[2] !is Text && set[3] is Text
            &&& failure.len() == 3 && failure.last() == one
            &&& failure[0] is Text && failure[1] is Text
            &&& success.len() == 3 && success.last() == one
            &&& success[0] is Text && success[1] is Text
        }),
        ({
            let added = add_binds(texts.0, name, texts.1, texts.2, now);
            &&& added.len() == 6 && added[0] is Text && added[1] !is Int
            &&& added[2] is Text && added[3] is Text && added[4] is Text && added[5] is Text
        }),
{
}

/// Whether the text is one of the changes that the manager makes to an account row.
pub open spec fn is_account_change(sql: Seq<char>) -> bool {
    ||| sql == RECORD_LOGIN@
    ||| sql == RECORD_VERSIONS@
    ||| sql == PAUSE_ACCOUNT@
    ||| sql == STORE_SETTINGS@
    ||| sql == RECORD_FAILURE@
    ||| sql == RECORD_SUCCESS@
}

proof fn lemma_ends(sql: Seq<char>, tail: Seq<char>, at: int)
    requires
        0 <= at,
        sql.len() == at + tail.len(),
        forall|i: int| 0 <= i < tail.len() ==> sql[at + i] == tail[i],
    ensures
        finishes_with(sql, tail),
{
    assert(sql.subrange(at, sql.len() as int) =~= tail);
}

/// A change to one account leaves the others alone: each change selects its row by
/// its last parameter, which every change binds to the account's id, and pausing
/// selects the streams of that account alone.
pub proof fn law_changes_name_their_account(sql: Seq<char>)
    requires
        is_account_change(sql),
    ensures
        finishes_with(sql, " WHERE id = ?"@),
        finishes_with(PAUSE_STREAMS@, " WHERE account_id = ?"@),
{
    reveal_strlit(" WHERE id = ?");
    reveal_strlit(" WHERE account_id = ?");
    reveal_strlit("UPDATE sync_state SET status = ? WHERE account_id = ?");
    lemma_ends(PAUSE_STREAMS@, " WHERE account_id = ?"@, PAUSE_STREAMS@.len() - 21);
    if sql == RECORD_LOGIN@ {
        reveal_strlit(
            "UPDATE accounts SET device_id = ?, user_id = ?, updated_at = ?, last_error = NULL WHERE id = ?",
        );
    } else if sql == RECORD_VERSIONS@ {
        reveal_strlit("UPDATE accounts SET protocol_version = ?, server_version = ? WHERE id = ?");
    } else if sql == PAUSE_ACCOUNT@ {
        reveal_strlit("UPDATE accounts SET paused = ?, updated_at = ? WHERE id = ?");
    } else if sql == STORE_SETTINGS@ {
        reveal_strlit(
            "UPDATE accounts SET display_name = ?, sync_window_days = ?, cache_limit_bytes = ?, updated_at = ? WHERE id = ?",
        );
    } else if sql == RECORD_FAILURE@ {
        reveal_strlit("UPDATE accounts SET last_error = ?, updated_at = ? WHERE id = ?");
    } else {
        reveal_strlit(
            "UPDATE accounts SET last_sync_at = ?, last_error = NULL, updated_at = ? WHERE id = ?",
        );
    }
    lemma_ends(sql, " WHERE id = ?"@, sql.len() - 13);
}

/// Settings survive being stored and read again, as long as the cache limit fits
/// the signed column.
pub proof fn law_settings_survive_the_row(settings: AccountSettings)
    requires
        settings.cache_limit_bytes matches Some(bytes) ==> bytes <= i64::MAX,
    ensures
        settings.sync_window_days matches Some(days) ==> small_number(Some(days as i64)) == Some(
            days,
        ),
        settings.cache_limit_bytes matches Some(bytes) ==> large_number(Some(stored_size(bytes)))
            == Some(bytes),
{
}

/// Whether the columns of `row` are the parameters that inserted it.
pub open spec fn row_added(row: AccountRow, binds: Seq<BindView>) -> bool {
    &&& binds[0] == BindView::Text(row.email@)
    &&& binds[1] == text_bind(row.display_name)
    &&& binds[2] == BindView::Text(row.base_url@)
    &&& binds[3] == BindView::Text(row.device_uid@)
    &&& binds[4] == BindView::Text(row.created_at@)
    &&& binds[5] == BindView::Text(row.updated_at@)
    &&& row.device_id is None && row.user_id is None
    &&& row.paused == 0
    &&& row.sync_window_days is None && row.cache_limit_bytes is None
    &&& row.last_sync_at is None && row.last_error is None
    &&& !row.refresh_token_present
}

/// An account that was added is listed as it was added: under its address, with its name, at its
/// server and from this installation. It is not paused, has no settings of its own and nothing to
/// complain of, and is not synced before it has signed in.
pub proof fn law_an_added_account_is_listed(
    row: AccountRow,
    email: Seq<char>,
    display_name: Option<String>,
    base_url: Seq<char>,
    device_uid: Seq<char>,
    written_at: Seq<char>,
    now: Timestamp,
)
    requires
        row_added(row, add_binds(email, display_name, base_url, device_uid, written_at)),
    ensures
        ({
            let account = account_of_row(row, now);
            &&& account.email@ == email
            &&& opt_view(account.display_name) == opt_view(display_name)
            &&& account.base_url@ == base_url
            &&& account.device_uid@ == device_uid
            &&& account.created_at == time_or(written_at, now)
            &&& account.updated_at == time_or(written_at, now)
            &&& !account.paused && !account.wants_sync()
            &&& account.last_sync_at is None && account.last_error is None
            &&& account.sync_window_days is None && account.cache_limit_bytes is None
        }),
{
}

/// Whether `after` is what a login makes of the row `before`.
pub open spec fn row_logged_in(before: AccountRow, after: AccountRow, binds: Seq<BindView>) -> bool {
    &&& binds[0] == int_bind(after.device_id)
    &&& binds[1] == int_bind(after.user_id)
    &&& binds[2] == BindView::Text(after.updated_at@)
    &&& binds[3] == BindView::Int(before.id as int)
    &&& after == AccountRow {
        device_id: after.device_id,
        user_id: after.user_id,
        updated_at: after.updated_at,
        last_error: None,
        ..before
    }
}

/// What the server said at a login is what the account has: the device as the device and the user
/// as the user. The last failure is forgotten, and the rest stays.
pub proof fn law_a_login_is_remembered(
    before: AccountRow,
    after: AccountRow,
    login: LoginResponse,
    written_at: Seq<char>,
    now: Timestamp,
)
    requires
        row_logged_in(before, after, login_binds(AccountId(before.id), login, written_at)),
    ensures
        account_of_row(after, now) == (Account {
            device_id: login.device_id,
            user_id: Some(login.user.id),
            updated_at: time_or(written_at, now),
            last_error: None,
            ..account_of_row(before, now)
        }),
{
}

/// Whether `after` is what the negotiated versions make of the row `before`.
pub open spec fn row_versioned(before: AccountRow, after: AccountRow, binds: Seq<BindView>) -> bool {
    &&& binds[0] == int_bind(after.protocol_version)
    &&& binds[1] == text_bind(after.server_version)
    &&& binds[2] == BindView::Int(before.id as int)
    &&& after == AccountRow {
        protocol_version: after.protocol_version,
        server_version: after.server_version,
        ..before
    }
}

/// The negotiated versions are remembered, the protocol's as the protocol's and the server's as the
/// server's, and nothing else changes.
pub proof fn law_versions_are_remembered(
    before: AccountRow,
    after: AccountRow,
    info: AccountInfo,
    now: Timestamp,
)
    requires
        row_versioned(before, after, version_binds(AccountId(before.id), info)),
    ensures
        account_of_row(after, now).protocol_version == Some(info.protocol_version),
        opt_view(account_of_row(after, now).server_version) == Some(info.server_version@),
        account_of_row(after, now) == (Account {
            protocol_version: Some(info.protocol_version),
            server_version: after.server_version,
            ..account_of_row(before, now)
        }),
{
    let n = info.protocol_version as i64;
    assert(after.protocol_version == Some(n));
    assert(floored(n) as u32 == info.protocol_version);
}

/// Whether `after` is what pausing makes of the row `before`.
pub open spec fn row_paused(before: AccountRow, after: AccountRow, binds: Seq<BindView>) -> bool {
    &&& binds[0] == BindView::Int(after.paused as int)
    &&& binds[1] == BindView::Text(after.updated_at@)
    &&& binds[2] == BindView::Int(before.id as int)
    &&& after == AccountRow { paused: after.paused, updated_at: after.updated_at, ..before }
}

/// A paused account is not synced, and a resumed one is if it can be. Pausing changes nothing
/// else, and its streams say the same as the account does.
pub proof fn law_a_pause_stops_the_sync(
    before: AccountRow,
    after: AccountRow,
    paused: bool,
    written_at: Seq<char>,
    now: Timestamp,
)
    requires
        row_paused(before, after, pause_binds(AccountId(before.id), paused, written_at)),
    ensures
        ({
            let account = account_of_row(after, now);
            &&& account.paused == paused
            &&& paused ==> !account.wants_sync()
            &&& !paused ==> (account.wants_sync() <==> account.refresh_token_present)
            &&& account == (Account {
                paused,
                updated_at: time_or(written_at, now),
                ..account_of_row(before, now)
            })
        }),
        stream_binds(AccountId(before.id), paused)[0] == BindView::Text("paused"@) <==> paused,
        stream_binds(AccountId(before.id), paused)[1] == BindView::Int(before.id as int),
{
    reveal_strlit("paused");
    reveal_strlit("idle");
    assert("paused"@.len() == 6 && "idle"@.len() == 4);
}

/// Whether `after` is what storing settings makes of the row `before`.
pub open spec fn row_settled(before: AccountRow, after: AccountRow, binds: Seq<BindView>) -> bool {
    &&& binds[0] == text_bind(after.display_name)
    &&& binds[1] == int_bind(after.sync_window_days)
    &&& binds[2] == int_bind(after.cache_limit_bytes)
    &&& binds[3] == BindView::Text(after.updated_at@)
    &&& binds[4] == BindView::Int(before.id as int)
    &&& after == AccountRow {
        display_name: after.display_name,
        sync_window_days: after.sync_window_days,
        cache_limit_bytes: after.cache_limit_bytes,
        updated_at: after.updated_at,
        ..before
    }
}

/// An edit reaches the account. A setting that is mentioned becomes what was asked for, also if
/// that is nothing, one that is not mentioned stays as it was, and none is taken for another; the
/// rest of the account stays. A cache limit has to fit the signed column.
pub proof fn law_an_edit_reaches_the_account(
    before: AccountRow,
    after: AccountRow,
    display_name: Option<Option<String>>,
    sync_window_days: Option<Option<u32>>,
    cache_limit_bytes: Option<Option<u64>>,
    written_at: Seq<char>,
    now: Timestamp,
)
    requires
        cache_limit_bytes matches Some(Some(bytes)) ==> bytes <= i64::MAX,
        row_settled(
            before,
            after,
            setting_binds(
                AccountId(before.id),
                edited(
                    account_of_row(before, now),
                    display_name,
                    sync_window_days,
                    cache_limit_bytes,
                ),
                written_at,
            ),
        ),
    ensures
        ({
            let was = account_of_row(before, now);
            let shown = account_of_row(after, now);
            &&& opt_view(shown.display_name) == (match display_name {
                Some(name) => opt_view(name),
                None => opt_view(was.display_name),
            })
            &&& shown.sync_window_days == (match sync_window_days {
                Some(days) => days,
                None => was.sync_window_days,
            })
            &&& shown.cache_limit_bytes == (match cache_limit_bytes {
                Some(bytes) => bytes,
                None => was.cache_limit_bytes,
            })
            &&& shown == (Account {
                display_name: shown.display_name,
                sync_window_days: shown.sync_window_days,
                cache_limit_bytes: shown.cache_limit_bytes,
                updated_at: time_or(written_at, now),
                ..was
            })
        }),
{
    let settings = edited(
        account_of_row(before, now),
        display_name,
        sync_window_days,
        cache_limit_bytes,
    );
    law_settings_survive_the_row(settings);
    if let Some(days) = settings.sync_window_days {
        assert(after.sync_window_days == Some(days as i64));
    }
    if let Some(bytes) = settings.cache_limit_bytes {
        assert(after.cache_limit_bytes == Some(stored_size(bytes)));
    }
}

/// Whether `failed` and `synced` are what the two outcomes of a sync make of the row `before`.
pub open spec fn row_synced(
    before: AccountRow,
    failed: AccountRow,
    failure: Seq<BindView>,
    synced: AccountRow,
    success: Seq<BindView>,
) -> bool {
    &&& failure[0] == text_bind(failed.last_error)
    &&& failure[1] == BindView::Text(failed.updated_at@)
    &&& failure[2] == BindView::Int(before.id as int)
    &&& failed == AccountRow {
        last_error: failed.last_error,
        updated_at: failed.updated_at,
        ..before
    }
    &&& success[0] == text_bind(synced.last_sync_at)
    &&& success[1] == BindView::Text(synced.updated_at@)
    &&& success[2] == BindView::Int(before.id as int)
    &&& synced == AccountRow {
        last_sync_at: synced.last_sync_at,
        last_error: None,
        updated_at: synced.updated_at,
        ..before
    }
}

/// A failed sync is shown with its reason, and the time of the last success stands; a successful
/// one sets that time and clears the reason. Neither changes anything else.
pub proof fn law_a_sync_is_remembered(
    before: AccountRow,
    failed: AccountRow,
    synced: AccountRow,
    message: Seq<char>,
    written_at: Seq<char>,
    now: Timestamp,
)
    requires
        row_synced(
            before,
            failed,
            failure_binds(AccountId(before.id), message, written_at),
            synced,
            success_binds(AccountId(before.id), written_at),
        ),
    ensures
        ({
            let was = account_of_row(before, now);
            let bad = account_of_row(failed, now);
            let good = account_of_row(synced, now);
            &&& opt_view(bad.last_error) == Some(message)
            &&& bad.last_sync_at == was.last_sync_at
            &&& good.last_error is None
            &&& good.last_sync_at == rfc3339_time(written_at)
            &&& bad == (Account {
                last_error: bad.last_error,
                updated_at: time_or(written_at, now),
                ..was
            })
            &&& good == (Account {
                last_error: None,
                last_sync_at: rfc3339_time(written_at),
                updated_at: time_or(written_at, now),
                ..was
            })
        }),
{
}

/// A login names the account and the installation it is from: its address, the password that was
/// given, the device by its uid and by the name that the account goes by, and no token.
pub proof fn law_a_login_names_the_account(
    request: RequestView,
    account: Account,
    password: Seq<char>,
    platform: Seq<char>,
)
    requires
        login_of(request, account, password, platform),
    ensures
        request.method == Method::Post && request.path == "/auth/login"@ && !request.authenticated,
        request.field("email"@) == Some(JsonView::Text(account.email@)),
        request.field("password"@) == Some(JsonView::Text(password)),
        request.field("device"@) matches Some(device) && device.member("device_uid"@) == Some(
            JsonView::Text(account.device_uid@),
        ) && device.member("name"@) == Some(JsonView::Text(account.shown_name())) && device.member(
            "platform"@,
        ) == Some(JsonView::Text(platform)),
{
    let device = choose|device: DeviceInfo|
        {
            &&& device.device_uid@ == account.device_uid@
            &&& device.name@ == account.shown_name()
            &&& device.platform@ == platform
            &&& device.client_version@ == crate::api::VERSION@
            &&& request == plain_request(Method::Post, "/auth/login"@).with_body(
                JsonView::Object(
                    seq![
                        ("email"@, JsonView::Text(account.email@)),
                        ("password"@, JsonView::Text(password)),
                        ("device"@, #[trigger] device_view(device)),
                    ],
                ),
            ).without_token()
        };
    assert(request == login_request(account.email@, password, device));
    law_a_sign_in_names_its_parts(account.email@, password, device, password, password);
}

/// An account goes by the name that the user gave it, and by its address if they gave none, or
/// nothing but blanks. It is found by its address whatever the case of the letters and whatever
/// blanks stand around it.
pub proof fn law_an_account_goes_by_its_name(account: Account, row: AccountRow, email: Seq<char>)
    ensures
        account.display_name matches Some(name) ==> (trimmed(name@).len() > 0 ==> account.shown_name()
            == name@),
        account.display_name is None ==> account.shown_name() == account.email@,
        account.display_name matches Some(name) ==> (trimmed(name@).len() == 0
            ==> account.shown_name() == account.email@),
        lowered(trimmed(email)) == lowered(row.email@) <==> address_matches(row, email),
{
}

/// A device uid that was generated once is the one that is used from then on.
pub proof fn law_a_generated_uid_is_kept(random: Seq<char>)
    ensures
        trimmed("dev_"@ + random).len() > 0,
{
    reveal_strlit("dev_");
    let uid = "dev_"@ + random;
    assert(uid[0] == 'd');
    assert(trimmed_start(uid) == uid);
    lemma_trimmed_end_keeps(uid);
}

proof fn lemma_trimmed_end_keeps(s: Seq<char>)
    requires
        s.len() > 0,
        !is_blank(s[0]),
    ensures
        trimmed_end(s).len() > 0,
    decreases s.len(),
{
    if is_blank(s.last()) {
        assert(s.len() > 1);
        assert(s.drop_last()[0] == s[0]);
        lemma_trimmed_end_keeps(s.drop_last());
    }
}

// -- reading ---------------------------------------------------------------

/// Selects every account, in the order they were added.
pub const SELECT_ACCOUNTS: &'static str =
    "SELECT * FROM accounts ORDER BY id ASC";

/// Selects one account.
pub const SELECT_ACCOUNT: &'static str =
    "SELECT * FROM accounts WHERE id = ?";

/// Selects the streams of an account.
pub const SELECT_STREAMS: &'static str =
    "SELECT folder_id, cursor, status, last_error, last_sync_at FROM sync_state WHERE account_id = ? ORDER BY folder_id ASC";

/// Counts the drafts that need pushing.
pub const COUNT_DIRTY: &'static str =
    "SELECT COUNT(*) AS n FROM drafts WHERE account_id = ? AND dirty = 1 AND deleted = 0";

impl AccountManager {
    /// The statement that selects every account, in the order they were added.
    pub fn select_all() -> (result: Statement)
        ensures
            result.stands_for(SELECT_ACCOUNTS@, Seq::empty()),
    {
        Statement::new(SELECT_ACCOUNTS)
    }

    /// The statement that selects one account.
    pub fn select(id: AccountId) -> (result: Statement)
        ensures
            result.stands_for(SELECT_ACCOUNT@, seq![BindView::Int(id.0 as int)]),
    {
        Statement::new(SELECT_ACCOUNT).bind(Bind::Int(id.0))
    }

    /// The statement that selects the streams of an account, for its status.
    pub fn select_streams(id: AccountId) -> (result: Statement)
        ensures
            result.stands_for(SELECT_STREAMS@, seq![BindView::Int(id.0 as int)]),
    {
        Statement::new(SELECT_STREAMS).bind(Bind::Int(id.0))
    }

    /// The statement that counts the drafts which still need pushing; its one column is
    /// called `n`.
    pub fn count_dirty_drafts(id: AccountId) -> (result: Statement)
        ensures
            result.stands_for(COUNT_DIRTY@, seq![BindView::Int(id.0 as int)]),
    {
        Statement::new(COUNT_DIRTY).bind(Bind::Int(id.0))
    }
}

} // verus!
