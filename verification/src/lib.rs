//! The core of the Ferroma desktop client.
//!
//! The server is the source of truth; everything here is cache and pending intent.
//! The library decides and computes; a shell around it does the input and output:
//! it runs the SQL statements and sends the requests that the library hands out, and
//! hands the rows and the answers back.
//!
//! * [`account`]: the account manager, with the per-account sync status.
//! * [`api`]: what travels over the Ferroma Client Protocol, its errors and its retry
//!   policy.
//! * [`fcp`]: the protocol client: the requests, the tokens, and when to retry.
//! * [`attachment`]: the content-addressed attachment cache, with resumed downloads
//!   and uploads.
//! * [`autodiscover`]: `https://<domain>/.well-known/ferroma` and the conventional
//!   hostnames.
//! * [`database`]: the statements of the local cache.
//! * [`draft`]: offline-first drafts and their conflict rule.
//! * [`error`]: the client's error type.
//! * [`events`]: the realtime event stream and its frame router.
//! * [`notification`]: banners, and who decides whether they are shown.
//! * [`operations`]: the offline queue and its flusher.
//! * [`outbox`]: the eight-state send pipeline.
//! * [`search`]: the query language, its SQL, and the server fallback.
//! * [`hits`]: what the SQL of a search finds.
//! * [`cli`]: what the command line decides and shows.
//!
//! The other modules hold what these share: text, JSON, dates and times, columns,
//! URLs, and small helpers.

pub mod account;
pub mod address;
pub mod api;
pub mod attachment;
pub mod autodiscover;
pub mod cli;
pub mod columns;
pub mod database;
pub mod date;
pub mod delay;
pub mod draft;
pub mod error;
pub mod events;
pub mod fcp;
pub mod hits;
pub mod json;
pub mod notification;
pub mod operations;
pub mod outbox;
pub mod search;
pub mod text;
pub mod time;
pub mod util;

pub use account::{Account, AccountId, AccountManager, SyncStatus};
pub use api::{
    ApiError, AttachmentDto, Change, DeviceInfo, DeviceRecord, DraftPayload, DraftRecord,
    FolderInfo, MailboxInfo, MessageAction, MessageDetail, MessageItem, MessageList, MessagePatch,
    RetryPolicy, SendRequest, SendResponse, SyncPage, UserRef,
};
pub use attachment::{AttachmentCache, CachedBlob};
pub use autodiscover::{Discovery, DiscoverySource};
pub use database::{ClientDatabase, SearchDocument, SearchMode};
pub use draft::{Draft, DraftStore, OverwriteNotice};
pub use error::{ClientError, ClientResult};
pub use events::{Backoff, EventRouter, ServerFrame};
pub use fcp::FcpClient;
pub use notification::{Notification, NotificationKind, NotificationService, Notifier};
pub use operations::{OperationFlusher, OperationKind, PendingOperation, PendingQueue};
pub use outbox::{Outbox, OutboxItem, OutboxState};
pub use search::{SearchExecutor, SearchQuery, SearchResults, SearchSource};
