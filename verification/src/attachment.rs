//! The attachment cache.
//!
//! Downloads are content-addressed: the file on disk is named after its SHA-256,
//! which is also the `ETag` the server sends. The same attachment attached to three
//! messages costs one copy on disk; an interrupted download resumes with a `Range`
//! request, and an interrupted upload resumes from the chunks that the server
//! reports.
//!
//! The cache is bounded by a byte cap and evicts least-recently-used, unpinned
//! blobs. Every blob is verified against its own name when it is read back, so a
//! damaged file is refetched rather than handed to the user.

use vstd::prelude::*;

use std::collections::HashSet;

use crate::api::{AttachmentDto, UploadComplete, UploadInit, UploadStatus};
use crate::database::{Bind, BindView, Statement};
use crate::error::{ClientError, ClientResult};
use crate::fcp::{
    chunk_request, complete_request, path_with_id, plain_request, range_header, FcpClient, Method,
    RequestSpec, RequestView,
};
use crate::text::{chars_of, concat3, decimal_signed, digits, same, signed_digits, text_of, views};
use crate::util::{sha256_hex, sha256_text};

verus! {

/// The default cache cap: 1 GiB.
pub const DEFAULT_CACHE_LIMIT: u64 = 1_073_741_824;

/// Bytes below which the one-shot multipart upload is used instead of the chunked
/// protocol: 4 MiB.
pub const SIMPLE_UPLOAD_LIMIT: u64 = 4_194_304;

/// A blob that lives in the cache, or was just written to it.
#[derive(Debug, Clone, PartialEq, Eq)]
pub struct CachedBlob {
    /// The SHA-256 of the contents; also the file name.
    pub sha256: String,
    /// Size in bytes.
    pub size_bytes: u64,
    /// Where the bytes are, below the root of the cache.
    pub path: String,
    /// Whether this read was served without touching the network.
    pub from_cache: bool,
}

/// The directory of a digest: what its first two bytes spell, or `00` when they do
/// not spell anything.
pub open spec fn prefix_of(sha256: Seq<char>) -> Seq<char> {
    if sha256.len() >= 2 && (sha256[0] as u32) < 0x80 && (sha256[1] as u32) < 0x80 {
        sha256.take(2)
    } else if sha256.len() >= 1 && 0x80 <= (sha256[0] as u32) < 0x800 {
        sha256.take(1)
    } else {
        "00"@
    }
}

/// Where a blob with this digest lives, below the root of the cache. A text that is an
/// absolute path is no digest; it stands for that path, wherever the root is.
pub open spec fn blob_place(sha256: Seq<char>) -> Seq<char> {
    if sha256.len() > 0 && sha256[0] == '/' {
        sha256
    } else {
        "objects/"@ + prefix_of(sha256) + "/"@ + sha256
    }
}

/// Records a blob, as the most recently used one.
pub const RECORD_BLOB: &'static str =
    "INSERT INTO blob_cache (sha256, size_bytes, path, last_access, access_seq, pinned) VALUES (?, ?, ?, ?, (SELECT COALESCE(MAX(access_seq), 0) + 1 FROM blob_cache), 0) ON CONFLICT(sha256) DO UPDATE SET size_bytes = excluded.size_bytes, path = excluded.path, last_access = excluded.last_access, access_seq = excluded.access_seq";

/// Makes a blob the most recently used one. The counter is monotonic, so two touches
/// in the same second still have a defined order.
pub const TOUCH_BLOB: &'static str =
    "UPDATE blob_cache SET last_access = ?, access_seq = (SELECT COALESCE(MAX(access_seq), 0) + 1 FROM blob_cache) WHERE sha256 = ?";

/// Forgets a blob.
pub const FORGET_BLOB: &'static str = "DELETE FROM blob_cache WHERE sha256 = ?";

/// Pins or unpins a blob.
pub const PIN_BLOB: &'static str = "UPDATE blob_cache SET pinned = ? WHERE sha256 = ?";

/// The blobs that may be evicted, least recently used first.
pub const EVICTABLE: &'static str =
    "SELECT sha256, size_bytes FROM blob_cache WHERE pinned = 0 ORDER BY access_seq ASC";

/// The row of a blob.
pub const FIND_BLOB: &'static str = "SELECT size_bytes, path FROM blob_cache WHERE sha256 = ?";

/// The bytes of all blobs.
pub const TOTAL_SIZE: &'static str =
    "SELECT COALESCE(SUM(size_bytes), 0) AS total FROM blob_cache";

/// The number of blobs.
pub const COUNT_BLOBS: &'static str = "SELECT COUNT(*) AS n FROM blob_cache";

/// Forgets every blob.
pub const CLEAR_BLOBS: &'static str = "DELETE FROM blob_cache";

/// What a lookup comes to.
#[derive(Debug, Clone, PartialEq, Eq)]
pub enum Lookup {
    /// The cache does not know the blob.
    Miss,
    /// The file is gone: the row has to go too.
    Forget,
    /// The file is damaged: it has to go, and the row with it.
    Discard,
    /// The blob is there and intact; it becomes the most recently used one.
    Hit(CachedBlob),
}

/// A stored size, or zero when it is negative.
pub open spec fn size_of_row(stored: i64) -> u64 {
    if stored < 0 {
        0u64
    } else {
        stored as u64
    }
}

fn row_size(stored: i64) -> (result: u64)
    ensures
        result == size_of_row(stored),
{
    if stored < 0 {
        0
    } else {
        stored as u64
    }
}

/// Whether `blob` is the one with this digest and size.
pub open spec fn blob_is(blob: CachedBlob, sha256: Seq<char>, size: int, from_cache: bool) -> bool {
    &&& blob.sha256@ == sha256
    &&& blob.size_bytes == size
    &&& blob.path@ == blob_place(sha256)
    &&& blob.from_cache == from_cache
}

/// Whether `lookup` is what a row with the stored size and a file with the given
/// digest come to.
pub open spec fn lookup_is(
    lookup: Lookup,
    sha256: Seq<char>,
    stored: Option<i64>,
    found: Option<Seq<char>>,
) -> bool {
    match (stored, found) {
        (None, _) => lookup is Miss,
        (Some(_), None) => lookup is Forget,
        (Some(size), Some(digest)) => if digest == sha256 {
            lookup matches Lookup::Hit(blob) && blob_is(
                blob,
                sha256,
                size_of_row(size) as int,
                true,
            )
        } else {
            lookup is Discard
        },
    }
}

/// The parameters that record a blob.
pub open spec fn record_binds(blob: CachedBlob, path: Seq<char>, now: Seq<char>) -> Seq<BindView> {
    seq![
        BindView::Text(blob.sha256@),
        BindView::Int((blob.size_bytes as i64) as int),
        BindView::Text(path),
        BindView::Text(now),
    ]
}

/// Every parameter of a recorded blob is of the kind that its column holds, so that none of them
/// is refused or stored as something else, and the blob is recorded under its own digest.
pub proof fn law_a_blob_fits_its_columns(blob: CachedBlob, path: Seq<char>, now: Seq<char>)
    ensures
        ({
            let recorded = record_binds(blob, path, now);
            &&& recorded.len() == 4 && recorded[0] == BindView::Text(blob.sha256@)
            &&& recorded[1] is Int && recorded[2] is Text && recorded[3] is Text
        }),
{
}

/// A lookup says what there is and what is to be done: it hits exactly if the blob is known and
/// its file hashes to the digest that was asked for, a row without a file is forgotten, and a file
/// that is anything else is discarded.
pub proof fn law_a_lookup_says_what_there_is(
    lookup: Lookup,
    sha256: Seq<char>,
    stored: Option<i64>,
    found: Option<Seq<char>>,
)
    requires
        lookup_is(lookup, sha256, stored, found),
    ensures
        lookup is Hit <==> stored is Some && found == Some(sha256),
        lookup is Miss <==> stored is None,
        lookup is Forget <==> stored is Some && found is None,
        lookup is Discard <==> stored is Some && found is Some && found != Some(sha256),
        lookup matches Lookup::Hit(blob) ==> blob.sha256@ == sha256 && blob.from_cache
            && blob.path@ == blob_place(sha256),
{
}

/// What was put into the cache is found in it: a blob that was written and recorded, and whose
/// file is intact, is looked up as the same blob, with its digest, its size and its place, and
/// without touching the network.
pub proof fn law_what_was_recorded_is_found(
    bytes: Seq<u8>,
    blob: CachedBlob,
    stored: i64,
    path: Seq<char>,
    now: Seq<char>,
    lookup: Lookup,
)
    requires
        blob_is(blob, sha256_text(bytes), bytes.len() as int, false),
        bytes.len() <= i64::MAX,
        record_binds(blob, path, now)[0] == BindView::Text(sha256_text(bytes)),
        record_binds(blob, path, now)[1] == BindView::Int(stored as int),
        lookup_is(lookup, sha256_text(bytes), Some(stored), Some(sha256_text(bytes))),
    ensures
        lookup matches Lookup::Hit(found) && found.sha256@ == blob.sha256@ && found.size_bytes
            == blob.size_bytes && found.path@ == blob.path@ && found.from_cache,
{
}

/// Two digests never share a file.
pub proof fn law_blobs_have_their_own_files(a: Seq<char>, b: Seq<char>)
    requires
        a.len() == b.len(),
        a.len() > 0,
        a[0] != '/' && b[0] != '/',
        blob_place(a) == blob_place(b),
    ensures
        a == b,
{
    let n = blob_place(a).len();
    assert(blob_place(a).skip(n - a.len()) =~= a);
    assert(blob_place(b).skip(n - b.len()) =~= b);
}

/// What is evicted, and how many bytes that frees.
#[derive(Debug, Clone, PartialEq, Eq)]
pub struct Eviction {
    /// The digests to remove, least recently used first.
    pub victims: Vec<String>,
    /// The bytes freed.
    pub freed: u64,
}

/// What the cache holds after the first `count` of the evictable blobs are gone.
pub open spec fn left_after(total: int, sizes: Seq<i64>, count: int) -> int
    decreases count,
{
    if count <= 0 {
        total
    } else {
        let before = left_after(total, sizes, count - 1);
        let size = size_of_row(sizes[count - 1]) as int;
        if before <= size {
            0
        } else {
            before - size
        }
    }
}

/// The bytes of the first `count` evictable blobs.
pub open spec fn bytes_of(sizes: Seq<i64>, count: int) -> int
    decreases count,
{
    if count <= 0 {
        0
    } else {
        bytes_of(sizes, count - 1) + size_of_row(sizes[count - 1]) as int
    }
}

/// How many of the evictable blobs go, when the first `done` are gone already: one
/// after the other, while the cache is over its cap.
pub open spec fn evicted(cap: int, total: int, sizes: Seq<i64>, done: int) -> int
    decreases sizes.len() - done,
{
    if done >= sizes.len() || left_after(total, sizes, done) <= cap {
        done
    } else {
        evicted(cap, total, sizes, done + 1)
    }
}

/// The sizes of the evictable rows.
pub open spec fn sizes_of(rows: Seq<(String, i64)>) -> Seq<i64> {
    rows.map_values(|row: (String, i64)| row.1)
}

/// The digests of the evictable rows.
pub open spec fn names_of(rows: Seq<(String, i64)>) -> Seq<Seq<char>> {
    rows.map_values(|row: (String, i64)| row.0@)
}

/// How a download starts.
#[derive(Debug, Clone, PartialEq, Eq)]
pub enum DownloadStart {
    /// The blob was in the cache.
    Served(CachedBlob),
    /// The bytes, or the rest of them, have to be fetched.
    Fetch(RequestSpec),
}

/// Whether an answer continues a partial download rather than starting over.
pub open spec fn continues(status: u16, partial: int) -> bool {
    status == 206 && partial > 0
}

/// The bytes of a finished download: the partial file and what was received, or just
/// what was received when the server started over.
pub open spec fn assembled(partial: Seq<u8>, status: u16, received: Seq<u8>) -> Seq<u8> {
    if continues(status, partial.len() as int) {
        partial + received
    } else {
        received
    }
}

/// The message about bytes that are not the announced ones.
pub open spec fn wrong_digest(attachment_id: int, sha256: Seq<char>, expected: Seq<char>) -> Seq<
    char,
> {
    "attachment "@ + signed_digits(attachment_id) + " hashed to "@ + sha256 + ", not the "@
        + expected + " the server announced"@
}

/// Whether the bytes are acceptable: nothing was announced, or just this digest.
pub open spec fn acceptable(expected: Option<Seq<char>>, sha256: Seq<char>) -> bool {
    expected matches Some(text) ==> text.len() == 0 || text == sha256
}

/// The view of an optional text.
pub open spec fn text_view(text: Option<&str>) -> Option<Seq<char>> {
    match text {
        Some(text) => Some(text@),
        None => None,
    }
}

/// The content-addressed attachment cache.
#[derive(Debug, Clone, Copy, PartialEq, Eq, Structural)]
pub struct AttachmentCache {
    cap_bytes: u64,
}

impl AttachmentCache {
    /// The cap in bytes.
    pub closed spec fn cap(&self) -> u64 {
        self.cap_bytes
    }

    /// A cache that holds at most `cap_bytes`.
    ///
    /// The cap is taken literally: `0` means "cache nothing". Blobs are never
    /// evicted by a write; [`AttachmentCache::evict_to_cap`] is what trims the cache.
    pub fn new(cap_bytes: u64) -> (result: AttachmentCache)
        ensures
            result.cap() == cap_bytes,
    {
        AttachmentCache { cap_bytes }
    }

    /// A cache with the default cap.
    pub fn with_default_cap() -> (result: AttachmentCache)
        ensures
            result.cap() == DEFAULT_CACHE_LIMIT,
    {
        AttachmentCache::new(DEFAULT_CACHE_LIMIT)
    }

    /// The configured cap in bytes.
    pub fn cap_bytes(&self) -> (result: u64)
        ensures
            result == self.cap(),
    {
        self.cap_bytes
    }

    /// Change the cap.
    pub fn set_cap_bytes(&mut self, cap_bytes: u64)
        ensures
            final(self).cap() == cap_bytes,
    {
        self.cap_bytes = cap_bytes;
    }

    /// Where a blob with this digest lives, below the root. The short prefix keeps
    /// the directory from holding hundreds of thousands of entries. An absolute path
    /// is given back as it is.
    pub fn blob_path(sha256: &str) -> (result: String)
        ensures
            result@ == blob_place(sha256@),
    {
        let chars = chars_of(sha256);
        let length: usize = chars.len();
        if length > 0 && chars[0] == '/' {
            return sha256.to_owned();
        }
        let prefix = if length >= 2 && (chars[0] as u32) < 0x80 && (chars[1] as u32) < 0x80 {
            text_of(&chars, 0, 2)
        } else if length >= 1 && (chars[0] as u32) >= 0x80 && (chars[0] as u32) < 0x800 {
            text_of(&chars, 0, 1)
        } else {
            "00".to_owned()
        };
        proof {
            if sha256@.len() >= 2 {
                assert(sha256@.subrange(0, 2) =~= sha256@.take(2));
            }
            if sha256@.len() >= 1 {
                assert(sha256@.subrange(0, 1) =~= sha256@.take(1));
            }
        }
        let mut out = concat3("objects/", prefix.as_str(), "/");
        out.append(sha256);
        out
    }

    /// Where an in-progress download is assembled, below the root.
    pub fn partial_path(attachment_id: i64) -> (result: String)
        ensures
            result@ == "tmp/"@ + signed_digits(attachment_id as int) + ".part"@,
    {
        concat3("tmp/", decimal_signed(attachment_id).as_str(), ".part")
    }

    /// The blob that some bytes become when they are written into the cache.
    pub fn put_bytes(bytes: &[u8]) -> (result: CachedBlob)
        ensures
            blob_is(result, sha256_text(bytes@), bytes@.len() as int, false),
    {
        let sha256 = sha256_hex(bytes);
        let path = AttachmentCache::blob_path(sha256.as_str());
        CachedBlob { sha256, size_bytes: bytes.len() as u64, path, from_cache: false }
    }

    /// The statement that records a blob that was written to `path`.
    pub fn record(blob: &CachedBlob, path: &str, now: &str) -> (result: Statement)
        ensures
            result.stands_for(
                RECORD_BLOB@,
                record_binds(*blob, path@, now@),
            ),
    {
        Statement::new(RECORD_BLOB).bind(Bind::text(blob.sha256.as_str())).bind(
            Bind::Int(blob.size_bytes as i64),
        ).bind(Bind::text(path)).bind(Bind::text(now))
    }

    /// The statement that makes a blob the most recently used one.
    pub fn touch(sha256: &str, now: &str) -> (result: Statement)
        ensures
            result.stands_for(TOUCH_BLOB@, seq![BindView::Text(now@), BindView::Text(sha256@)]),
    {
        Statement::new(TOUCH_BLOB).bind(Bind::text(now)).bind(Bind::text(sha256))
    }

    /// Look a blob up by digest, given the size in its row and its file, each where
    /// there is one.
    ///
    /// A file that does not hash to its own name is discarded and counts as a miss,
    /// so the caller refetches it and never gets corrupt bytes.
    pub fn get(sha256: &str, stored: Option<i64>, file: Option<&[u8]>) -> (result: Lookup)
        ensures
            lookup_is(
                result,
                sha256@,
                stored,
                match file {
                    Some(bytes) => Some(sha256_text(bytes@)),
                    None => None,
                },
            ),
    {
        match file {
            Some(bytes) => {
                let digest = sha256_hex(bytes);
                AttachmentCache::lookup_from(sha256, stored, Some(digest.as_str()))
            },
            None => AttachmentCache::lookup_from(sha256, stored, None),
        }
    }

    /// Look a blob up by digest, given the size in its row and the digest of its
    /// file, each where there is one.
    pub fn lookup_from(sha256: &str, stored: Option<i64>, found: Option<&str>) -> (result: Lookup)
        ensures
            lookup_is(result, sha256@, stored, text_view(found)),
    {
        let size: i64 = match stored {
            Some(size) => size,
            None => {
                return Lookup::Miss;
            },
        };
        let digest = match found {
            Some(digest) => digest,
            None => {
                return Lookup::Forget;
            },
        };
        if !same(digest, sha256) {
            return Lookup::Discard;
        }
        Lookup::Hit(
            CachedBlob {
                sha256: sha256.to_owned(),
                size_bytes: row_size(size),
                path: AttachmentCache::blob_path(sha256),
                from_cache: true,
            },
        )
    }

    /// Whether a lookup found the blob present and intact.
    pub fn contains(lookup: &Lookup) -> (result: bool)
        ensures
            result == (lookup is Hit),
    {
        match lookup {
            Lookup::Hit(_) => true,
            _ => false,
        }
    }

    /// The statement that pins or unpins a blob, so eviction leaves it alone.
    pub fn set_pinned(sha256: &str, pinned: bool) -> (result: Statement)
        ensures
            result.stands_for(
                PIN_BLOB@,
                seq![
                    BindView::Int(if pinned { 1int } else { 0int }),
                    BindView::Text(sha256@),
                ],
            ),
    {
        let flag: i64 = if pinned {
            1
        } else {
            0
        };
        Statement::new(PIN_BLOB).bind(Bind::Int(flag)).bind(Bind::text(sha256))
    }

    /// The statement that forgets one blob.
    pub fn remove(sha256: &str) -> (result: Statement)
        ensures
            result.stands_for(FORGET_BLOB@, seq![BindView::Text(sha256@)]),
    {
        Statement::new(FORGET_BLOB).bind(Bind::text(sha256))
    }

    /// The statement that reads the row of a blob, if it has one.
    pub fn select(sha256: &str) -> (result: Statement)
        ensures
            result.stands_for(FIND_BLOB@, seq![BindView::Text(sha256@)]),
    {
        Statement::new(FIND_BLOB).bind(Bind::text(sha256))
    }

    /// The statement that sums up the rows, into a column called `total`.
    pub fn select_total() -> (result: Statement)
        ensures
            result.stands_for(TOTAL_SIZE@, Seq::empty()),
    {
        Statement::new(TOTAL_SIZE)
    }

    /// The statement that counts the blobs, into a column called `n`.
    pub fn count() -> (result: Statement)
        ensures
            result.stands_for(COUNT_BLOBS@, Seq::empty()),
    {
        Statement::new(COUNT_BLOBS)
    }

    /// The statement that lists what may be evicted, least recently used first.
    pub fn select_evictable() -> (result: Statement)
        ensures
            result.stands_for(EVICTABLE@, Seq::empty()),
    {
        Statement::new(EVICTABLE)
    }

    /// The statement that forgets every blob; their files go with the directories of the
    /// cache.
    pub fn clear() -> (result: Statement)
        ensures
            result.stands_for(CLEAR_BLOBS@, Seq::empty()),
    {
        Statement::new(CLEAR_BLOBS)
    }

    /// How many bytes the cache holds, given the sum of its rows.
    pub fn total_size(sum: i64) -> (result: u64)
        ensures
            result == size_of_row(sum),
    {
        row_size(sum)
    }

    /// Whether the bytes that an eviction frees can be counted.
    pub fn sizes_fit(&self, total: u64, rows: &Vec<(String, i64)>) -> (result: bool)
        ensures
            result == (bytes_of(
                sizes_of(rows@),
                evicted(self.cap() as int, total as int, sizes_of(rows@), 0),
            ) <= u64::MAX),
    {
        let ghost sizes = sizes_of(rows@);
        let ghost count = evicted(self.cap() as int, total as int, sizes, 0);
        let mut left: u64 = total;
        let mut sum: u64 = 0;
        let mut i: usize = 0;
        proof {
            lemma_evicted_range(self.cap() as int, total as int, sizes, 0);
        }
        while i < rows.len() && left > self.cap_bytes
            invariant
                i <= rows@.len(),
                sizes == sizes_of(rows@),
                left == left_after(total as int, sizes, i as int),
                sum == bytes_of(sizes, i as int),
                count == evicted(self.cap() as int, total as int, sizes, 0),
                count == evicted(self.cap() as int, total as int, sizes, i as int),
            decreases rows@.len() - i,
        {
            let size: u64 = row_size(rows[i].1);
            proof {
                lemma_evicted_range(self.cap() as int, total as int, sizes, i + 1);
                lemma_bytes_grow(sizes, i + 1, count);
            }
            if sum > u64::MAX - size {
                return false;
            }
            left = if left <= size {
                0
            } else {
                left - size
            };
            sum = sum + size;
            i = i + 1;
        }
        true
    }

    /// Evict least-recently-used, unpinned blobs until the cache is under its cap:
    /// which of the evictable rows go, given what the cache holds.
    pub fn evict_to_cap(&self, total: u64, rows: Vec<(String, i64)>) -> (result: Eviction)
        requires
            bytes_of(
                sizes_of(rows@),
                evicted(self.cap() as int, total as int, sizes_of(rows@), 0),
            ) <= u64::MAX,
        ensures
            ({
                let count = evicted(self.cap() as int, total as int, sizes_of(rows@), 0);
                &&& views(result.victims@) == names_of(rows@).take(count)
                &&& result.freed == bytes_of(sizes_of(rows@), count)
            }),
    {
        let ghost sizes = sizes_of(rows@);
        let mut left: u64 = total;
        let mut freed: u64 = 0;
        let mut victims: Vec<String> = Vec::new();
        let mut i: usize = 0;
        proof {
            assert(views(victims@) =~= names_of(rows@).take(0));
            lemma_evicted_range(self.cap() as int, total as int, sizes, 0);
        }
        while i < rows.len() && left > self.cap_bytes
            invariant
                i <= rows@.len(),
                sizes == sizes_of(rows@),
                bytes_of(sizes, evicted(self.cap() as int, total as int, sizes, 0)) <= u64::MAX,
                left == left_after(total as int, sizes, i as int),
                freed == bytes_of(sizes, i as int),
                views(victims@) == names_of(rows@).take(i as int),
                evicted(self.cap() as int, total as int, sizes, i as int) == evicted(
                    self.cap() as int,
                    total as int,
                    sizes,
                    0,
                ),
            decreases rows@.len() - i,
        {
            let ghost before = victims@;
            let size: u64 = row_size(rows[i].1);
            let name = rows[i].0.clone();
            victims.push(name);
            proof {
                lemma_evicted_range(self.cap() as int, total as int, sizes, i + 1);
                lemma_bytes_grow(
                    sizes,
                    i + 1,
                    evicted(self.cap() as int, total as int, sizes, 0),
                );
                assert(views(victims@) =~= views(before).push(name@));
                assert(names_of(rows@).take(i + 1) =~= names_of(rows@).take(i as int).push(
                    names_of(rows@)[i as int],
                ));
            }
            left = if left <= size {
                0
            } else {
                left - size
            };
            freed = freed + size;
            i = i + 1;
        }
        Eviction { victims, freed }
    }
}

proof fn lemma_bytes_grow(sizes: Seq<i64>, a: int, b: int)
    requires
        0 <= a <= b,
    ensures
        0 <= bytes_of(sizes, a) <= bytes_of(sizes, b),
    decreases b,
{
    if b > 0 {
        if a < b {
            lemma_bytes_grow(sizes, a, b - 1);
        } else {
            lemma_bytes_grow(sizes, a - 1, b - 1);
        }
    }
}

proof fn lemma_evicted_range(cap: int, total: int, sizes: Seq<i64>, done: int)
    requires
        0 <= done <= sizes.len(),
    ensures
        done <= evicted(cap, total, sizes, done) <= sizes.len(),
    decreases sizes.len() - done,
{
    if done < sizes.len() && left_after(total, sizes, done) > cap {
        lemma_evicted_range(cap, total, sizes, done + 1);
    }
}

// -- download --------------------------------------------------------------

/// The request for the bytes of an attachment, from where a partial file ends.
pub open spec fn fetch_request(attachment: int, partial: u64) -> RequestView {
    RequestView {
        range: range_header(
            if partial > 0 {
                Some((partial, None))
            } else {
                None
            },
        ),
        ..plain_request(Method::Get, path_with_id("/attachments/"@, attachment))
    }
}

/// A download asks for what is missing: for the whole attachment if there is nothing of it yet,
/// and otherwise for everything from the first byte that the partial file does not have.
pub proof fn law_a_download_asks_for_the_rest(attachment: int, partial: u64)
    ensures
        ({
            let request = fetch_request(attachment, partial);
            &&& request.method == Method::Get
            &&& request.path == "/attachments/"@ + signed_digits(attachment)
            &&& request.range is None <==> partial == 0
            &&& partial > 0 ==> request.range == Some("bytes="@ + digits(partial as nat) + "-"@)
            &&& request.query.len() == 0 && request.body is None
        }),
{
}

/// Bytes are taken in only if they are the ones that were announced; where nothing was
/// announced, any are.
pub proof fn law_only_announced_bytes_are_kept(announced: Seq<char>, sha256: Seq<char>)
    ensures
        acceptable(None, sha256),
        acceptable(Some(Seq::empty()), sha256),
        announced.len() > 0 ==> (acceptable(Some(announced), sha256) <==> announced == sha256),
{
}

impl AttachmentCache {
    /// Start a download, given the blob when the cache has it, and the size of what
    /// an earlier attempt left behind. A cache hit needs no request; a partial file
    /// is continued where it ends.
    pub fn download(
        client: &FcpClient,
        attachment_id: i64,
        hit: Option<CachedBlob>,
        partial: u64,
    ) -> (result: DownloadStart)
        ensures
            match hit {
                Some(blob) => result == DownloadStart::Served(blob),
                None => result matches DownloadStart::Fetch(request) && request@ == fetch_request(
                    attachment_id as int,
                    partial,
                ),
            },
    {
        match hit {
            Some(blob) => DownloadStart::Served(blob),
            None => if partial > 0 {
                DownloadStart::Fetch(
                    client.download_attachment(attachment_id, Some((partial, None))),
                )
            } else {
                DownloadStart::Fetch(client.download_attachment(attachment_id, None))
            },
        }
    }

    /// Whether the answer continues the partial file; otherwise it starts over.
    pub fn resumes(status: u16, partial: u64) -> (result: bool)
        ensures
            result == continues(status, partial as int),
    {
        status == 206 && partial > 0
    }

    /// The blob of a finished download, given its bytes. Bytes that do not hash to
    /// the announced digest are refused.
    pub fn downloaded(attachment_id: i64, bytes: &[u8], expected: Option<&str>) -> (result:
        ClientResult<CachedBlob>)
        ensures
            if acceptable(text_view(expected), sha256_text(bytes@)) {
                result is Ok && blob_is(
                    result->Ok_0,
                    sha256_text(bytes@),
                    bytes@.len() as int,
                    false,
                )
            } else {
                result matches Err(ClientError::Cache(m)) && m@ == wrong_digest(
                    attachment_id as int,
                    sha256_text(bytes@),
                    expected->0@,
                )
            },
    {
        let blob = AttachmentCache::put_bytes(bytes);
        match AttachmentCache::check_digest(attachment_id, blob.sha256.as_str(), expected) {
            Ok(()) => Ok(blob),
            Err(error) => Err(error),
        }
    }

    /// Whether a digest is acceptable: nothing was announced, or just this digest.
    pub fn check_digest(attachment_id: i64, sha256: &str, expected: Option<&str>) -> (result:
        ClientResult<()>)
        ensures
            if acceptable(text_view(expected), sha256@) {
                result is Ok
            } else {
                result matches Err(ClientError::Cache(m)) && m@ == wrong_digest(
                    attachment_id as int,
                    sha256@,
                    expected->0@,
                )
            },
    {
        match expected {
            Some(expected) => {
                if !expected.is_empty() && !same(expected, sha256) {
                    let mut message = concat3(
                        "attachment ",
                        decimal_signed(attachment_id).as_str(),
                        " hashed to ",
                    );
                    message.append(sha256);
                    message.append(", not the ");
                    message.append(expected);
                    message.append(" the server announced");
                    return Err(ClientError::Cache(message));
                }
                Ok(())
            },
            None => Ok(()),
        }
    }
}

// -- upload ----------------------------------------------------------------

/// The chunks of a file of `length` bytes, from the byte `start` on: each is its
/// index and where it starts and ends.
pub open spec fn ranges_from(length: int, step: int, index: int, start: int) -> Seq<(int, int, int)>
    decreases length - start,
{
    if step <= 0 || start >= length {
        Seq::empty()
    } else {
        let end = if length - start > step {
            start + step
        } else {
            length
        };
        seq![(index, start, end)] + ranges_from(length, step, index + 1, end)
    }
}

/// The chunks of a file.
pub open spec fn chunk_ranges(length: int, step: int) -> Seq<(int, int, int)> {
    ranges_from(length, step, 0, 0)
}

/// The chunks that the server does not hold yet, from the byte `start` on.
pub open spec fn missing_from(
    received: Seq<u64>,
    length: int,
    step: int,
    index: int,
    start: int,
) -> Seq<(int, int, int)>
    decreases length - start,
{
    if step <= 0 || start >= length {
        Seq::empty()
    } else {
        let end = if length - start > step {
            start + step
        } else {
            length
        };
        let rest = missing_from(received, length, step, index + 1, end);
        if holds_chunk(received, index) {
            rest
        } else {
            seq![(index, start, end)] + rest
        }
    }
}

/// Whether the server holds the chunk with this index.
pub open spec fn holds_chunk(received: Seq<u64>, index: int) -> bool {
    exists|i: int| 0 <= i < received.len() && #[trigger] received[i] == index
}

/// The chunks that the server does not hold yet.
pub open spec fn missing_chunks(received: Seq<u64>, length: int, step: int) -> Seq<(int, int, int)> {
    missing_from(received, length, step, 0, 0)
}

/// The chunk size of an upload: the one in the status, else the one it was started
/// with, else the whole file.
pub open spec fn upload_step(status: u64, init: u64, length: int) -> int {
    if status > 0 {
        status as int
    } else if init > 0 {
        init as int
    } else if length > 1 {
        length
    } else {
        1
    }
}

/// The chunk size is the server's: what it says of the upload outranks what it said when the
/// upload began, and a server that says nothing gets the file in one piece. It is never zero.
pub proof fn law_the_server_sets_the_chunk_size(status: u64, init: u64, length: int)
    requires
        length >= 0,
    ensures
        upload_step(status, init, length) > 0,
        status > 0 ==> upload_step(status, init, length) == status,
        status == 0 && init > 0 ==> upload_step(status, init, length) == init,
        status == 0 && init == 0 ==> chunk_ranges(length, upload_step(status, init, length)).len()
            <= 1,
{
    reveal_with_fuel(ranges_from, 3);
}

/// One chunk: its index and where it starts and ends.
#[derive(Debug, Clone, Copy, PartialEq, Eq, Structural)]
pub struct Chunk {
    /// The index.
    pub index: u64,
    /// Where it starts.
    pub start: usize,
    /// Where it ends.
    pub end: usize,
}

impl Chunk {
    /// The chunk as numbers.
    pub open spec fn view(&self) -> (int, int, int) {
        (self.index as int, self.start as int, self.end as int)
    }
}

/// The views of a list of chunks.
pub open spec fn chunk_views(chunks: Seq<Chunk>) -> Seq<(int, int, int)> {
    chunks.map_values(|chunk: Chunk| chunk@)
}

fn set_of(numbers: &Vec<u64>) -> (result: HashSet<u64>)
    ensures
        forall|n: u64| #[trigger] result@.contains(n) <==> holds_chunk(numbers@, n as int),
{
    let mut out: HashSet<u64> = HashSet::new();
    let mut i: usize = 0;
    while i < numbers.len()
        invariant
            i <= numbers@.len(),
            forall|n: u64| #[trigger]
                out@.contains(n) <==> exists|j: int| 0 <= j < i && #[trigger] numbers@[j] == n,
        decreases numbers@.len() - i,
    {
        out.insert(numbers[i]);
        i = i + 1;
    }
    out
}

/// The chunks that the server does not hold yet, in order.
pub fn plan_chunks(received: &Vec<u64>, length: usize, step: usize) -> (result: Vec<Chunk>)
    requires
        step > 0,
    ensures
        chunk_views(result@) == missing_chunks(received@, length as int, step as int),
{
    let held = set_of(received);
    let mut out: Vec<Chunk> = Vec::new();
    let mut index: u64 = 0;
    let mut start: usize = 0;
    proof {
        assert(chunk_views(out@) =~= Seq::empty());
        assert(chunk_views(out@) + missing_from(received@, length as int, step as int, 0, 0)
            =~= missing_chunks(received@, length as int, step as int));
    }
    while start < length
        invariant
            step > 0,
            start <= length,
            index <= start,
            forall|n: u64| #[trigger] held@.contains(n) <==> holds_chunk(received@, n as int),
            chunk_views(out@) + missing_from(
                received@,
                length as int,
                step as int,
                index as int,
                start as int,
            ) == missing_chunks(received@, length as int, step as int),
        decreases length - start,
    {
        let end: usize = if length - start > step {
            start + step
        } else {
            length
        };
        let ghost before = out@;
        let ghost rest = missing_from(
            received@,
            length as int,
            step as int,
            index + 1,
            end as int,
        );
        if !held.contains(&index) {
            out.push(Chunk { index, start, end });
            proof {
                let this = (index as int, start as int, end as int);
                assert(chunk_views(out@) =~= chunk_views(before).push(this));
                assert(chunk_views(before) + (seq![this] + rest) =~= chunk_views(before).push(this)
                    + rest);
            }
        }
        index = index + 1;
        start = end;
    }
    proof {
        assert(chunk_views(out@) + Seq::empty() =~= chunk_views(out@));
    }
    out
}

/// A resumable upload: the chunks the server misses, then the completion.
pub struct UploadPass {
    attachment_id: i64,
    bytes: Vec<u8>,
    chunks: Vec<Chunk>,
    done: usize,
}

impl UploadPass {
    /// The attachment.
    pub closed spec fn attachment(&self) -> i64 {
        self.attachment_id
    }

    /// The bytes of the file.
    pub closed spec fn content(&self) -> Seq<u8> {
        self.bytes@
    }

    /// The chunks to send.
    pub closed spec fn chunks(&self) -> Seq<(int, int, int)> {
        chunk_views(self.chunks@)
    }

    /// How many of them have been handed out.
    pub closed spec fn sent(&self) -> int {
        self.done as int
    }

    /// Every chunk lies in the file.
    pub closed spec fn wf(&self) -> bool {
        &&& self.done <= self.chunks@.len()
        &&& forall|i: int|
            0 <= i < self.chunks@.len() ==> (#[trigger] self.chunks@[i]).start
                <= self.chunks@[i].end <= self.bytes@.len()
    }

    /// Plan an upload of `bytes`, given how it was started and what the server says
    /// of it. A brand-new upload may have no status yet, which is no error.
    pub fn new(init: &UploadInit, status: ClientResult<UploadStatus>, bytes: Vec<u8>) -> (result:
        ClientResult<UploadPass>)
        ensures
            match status {
                Ok(status) => result is Ok && planned(
                    result->Ok_0,
                    *init,
                    status.received@,
                    upload_step(status.chunk_size, init.chunk_size, bytes@.len() as int),
                    bytes@,
                ),
                Err(ClientError::Api(api)) => if api.status == 404 {
                    result is Ok && planned(
                        result->Ok_0,
                        *init,
                        Seq::empty(),
                        upload_step(init.chunk_size, init.chunk_size, bytes@.len() as int),
                        bytes@,
                    )
                } else {
                    result == ClientResult::<UploadPass>::Err(ClientError::Api(api))
                },
                Err(error) => result == ClientResult::<UploadPass>::Err(error),
            },
    {
        let (chunk_size, received): (u64, Vec<u64>) = match status {
            Ok(status) => (status.chunk_size, status.received),
            Err(ClientError::Api(api)) => if api.status == 404 {
                (init.chunk_size, Vec::new())
            } else {
                return Err(ClientError::Api(api));
            },
            Err(error) => {
                return Err(error);
            },
        };
        let length: usize = bytes.len();
        let wanted: u64 = if chunk_size > 0 {
            chunk_size
        } else if init.chunk_size > 0 {
            init.chunk_size
        } else if length > 1 {
            length as u64
        } else {
            1
        };
        // A chunk that is larger than the file is the whole file.
        let step: usize = if wanted >= length as u64 {
            if length > 0 {
                length
            } else {
                1
            }
        } else {
            wanted as usize
        };
        let chunks = plan_chunks(&received, length, step);
        proof {
            lemma_step_beyond(received@, length as int, step as int, wanted as int);
            lemma_missing_inside(received@, length as int, step as int, 0, 0);
            assert forall|i: int| 0 <= i < chunks@.len() implies (#[trigger] chunks@[i]).start
                <= chunks@[i].end <= length by {
                assert(chunk_views(chunks@)[i] == chunks@[i]@);
            }
        }
        Ok(UploadPass { attachment_id: init.attachment_id, bytes, chunks, done: 0 })
    }

    /// The request for the next chunk; none when every missing chunk has been sent.
    pub fn next(&mut self, client: &FcpClient) -> (result: Option<RequestSpec>)
        requires
            old(self).wf(),
        ensures
            final(self).wf(),
            final(self).attachment() == old(self).attachment(),
            final(self).content() == old(self).content(),
            final(self).chunks() == old(self).chunks(),
            if old(self).sent() < old(self).chunks().len() {
                let (index, start, end) = old(self).chunks()[old(self).sent()];
                &&& final(self).sent() == old(self).sent() + 1
                &&& result is Some
                &&& result->0@ == chunk_request(
                    old(self).attachment() as int,
                    index as nat,
                    old(self).content().subrange(start, end),
                )
            } else {
                final(self).sent() == old(self).sent() && result is None
            },
    {
        let total: usize = self.chunks.len();
        if self.done >= total {
            return None;
        }
        let chunk = self.chunks[self.done];
        proof {
            assert(self.chunks()[self.done as int] == chunk@);
        }
        let part = bytes_between(&self.bytes, chunk.start, chunk.end);
        self.done = self.done + 1;
        Some(client.upload_chunk(self.attachment_id, chunk.index, part))
    }

    /// The request that completes the upload: the server verifies the digest.
    pub fn finish(&self, client: &FcpClient) -> (result: RequestSpec)
        ensures
            result@ == complete_request(self.attachment() as int, sha256_text(self.content())),
    {
        let sha256 = sha256_hex(self.bytes.as_slice());
        client.complete_upload(self.attachment_id, sha256.as_str())
    }
}

fn bytes_between(bytes: &Vec<u8>, start: usize, end: usize) -> (result: Vec<u8>)
    requires
        start <= end <= bytes@.len(),
    ensures
        result@ == bytes@.subrange(start as int, end as int),
{
    let mut out: Vec<u8> = Vec::new();
    let mut i: usize = start;
    while i < end
        invariant
            start <= i <= end <= bytes@.len(),
            out@ == bytes@.subrange(start as int, i as int),
        decreases end - i,
    {
        out.push(bytes[i]);
        proof {
            assert(bytes@.subrange(start as int, i + 1) =~= bytes@.subrange(
                start as int,
                i as int,
            ).push(bytes@[i as int]));
        }
        i = i + 1;
    }
    out
}

/// Whether an upload sends exactly the chunks that the server does not hold.
pub open spec fn planned(
    pass: UploadPass,
    init: UploadInit,
    received: Seq<u64>,
    step: int,
    bytes: Seq<u8>,
) -> bool {
    &&& pass.wf()
    &&& pass.attachment() == init.attachment_id
    &&& pass.content() == bytes
    &&& pass.chunks() == missing_chunks(received, bytes.len() as int, step)
    &&& pass.sent() == 0
}

/// An upload leaves nothing out and sends nothing twice: every chunk of the file is held by the
/// server or will be sent, and what will be sent is a chunk of the file that the server does not
/// hold. The pass is for the attachment that was announced and for the bytes of the file.
pub proof fn law_an_upload_completes_the_file(
    pass: UploadPass,
    init: UploadInit,
    received: Seq<u64>,
    step: int,
    bytes: Seq<u8>,
    i: int,
)
    requires
        planned(pass, init, received, step, bytes),
    ensures
        ({
            let chunks = chunk_ranges(bytes.len() as int, step);
            &&& 0 <= i < chunks.len() ==> holds_chunk(received, chunks[i].0)
                || pass.chunks().contains(chunks[i])
            &&& 0 <= i < pass.chunks().len() ==> !holds_chunk(received, pass.chunks()[i].0)
                && chunks.contains(pass.chunks()[i])
        }),
        pass.attachment() == init.attachment_id,
        pass.content() == bytes,
        pass.sent() == 0,
{
    let chunks = chunk_ranges(bytes.len() as int, step);
    let keep = |chunk: (int, int, int)| !holds_chunk(received, chunk.0);
    law_only_missing_chunks_are_sent(received, bytes.len() as int, step);
    if 0 <= i < chunks.len() && keep(chunks[i]) {
        chunks.lemma_filter_contains(keep, i);
    }
    if 0 <= i < pass.chunks().len() {
        chunks.lemma_filter_pred(keep, i);
        assert(chunks.filter(keep).contains(pass.chunks()[i]));
        chunks.lemma_filter_contains_rev(keep, pass.chunks()[i]);
    }
}

proof fn lemma_step_beyond(received: Seq<u64>, length: int, step: int, wanted: int)
    requires
        length >= 0,
        step > 0,
        wanted > 0,
        step == wanted || (step >= length && wanted >= length),
    ensures
        missing_chunks(received, length, step) == missing_chunks(received, length, wanted),
{
    if step != wanted {
        reveal_with_fuel(missing_from, 3);
    }
}

proof fn lemma_missing_inside(received: Seq<u64>, length: int, step: int, index: int, start: int)
    requires
        0 <= start,
    ensures
        forall|i: int|
            0 <= i < missing_from(received, length, step, index, start).len() ==> {
                let chunk = #[trigger] missing_from(received, length, step, index, start)[i];
                start <= chunk.1 <= chunk.2 <= length
            },
    decreases length - start,
{
    if step > 0 && start < length {
        let end = if length - start > step {
            start + step
        } else {
            length
        };
        lemma_missing_inside(received, length, step, index + 1, end);
        let rest = missing_from(received, length, step, index + 1, end);
        let all = missing_from(received, length, step, index, start);
        assert forall|i: int| 0 <= i < all.len() implies {
            let chunk = #[trigger] all[i];
            start <= chunk.1 <= chunk.2 <= length
        } by {
            if holds_chunk(received, index) {
                assert(all[i] == rest[i]);
            } else if i > 0 {
                assert(all[i] == rest[i - 1]);
            }
        }
    }
}

/// Whether a file goes in one multipart request rather than in chunks.
pub fn upload_is_simple(length: usize) -> (result: bool)
    ensures
        result == (length < SIMPLE_UPLOAD_LIMIT),
{
    (length as u64) < SIMPLE_UPLOAD_LIMIT
}

/// What a one-shot upload comes to, in the form of a finished chunked one.
pub fn completed(dto: AttachmentDto) -> (result: UploadComplete)
    ensures
        result == (UploadComplete {
            id: dto.id,
            filename: dto.filename,
            content_type: dto.content_type,
            size_bytes: dto.size_bytes,
            sha256: dto.sha256,
        }),
{
    UploadComplete {
        id: dto.id,
        filename: dto.filename,
        content_type: dto.content_type,
        size_bytes: dto.size_bytes,
        sha256: dto.sha256,
    }
}

/// The name a file is uploaded under, given the last part of its path.
pub fn upload_name(file_name: Option<String>) -> (result: String)
    ensures
        result@ == (match file_name {
            Some(name) => name@,
            None => "attachment"@,
        }),
{
    match file_name {
        Some(name) => name,
        None => "attachment".to_owned(),
    }
}

// -- laws ------------------------------------------------------------------

/// The same bytes cost one file: blobs of equal content have the same digest and lie at
/// the same place, wherever they came from.
pub proof fn law_same_bytes_share_a_file(
    bytes: Seq<u8>,
    one: CachedBlob,
    one_cached: bool,
    other: CachedBlob,
    other_cached: bool,
)
    requires
        blob_is(one, sha256_text(bytes), bytes.len() as int, one_cached),
        blob_is(other, sha256_text(bytes), bytes.len() as int, other_cached),
    ensures
        one.sha256@ == other.sha256@,
        one.path@ == other.path@,
        one.size_bytes == other.size_bytes,
{
}

/// A damaged file is never handed out: a lookup only hits when the file hashes to
/// the digest that was asked for.
pub proof fn law_a_hit_is_intact(
    lookup: Lookup,
    sha256: Seq<char>,
    stored: Option<i64>,
    found: Option<Seq<char>>,
)
    requires
        lookup_is(lookup, sha256, stored, found),
    ensures
        lookup is Hit ==> found == Some(sha256) && stored is Some,
{
}

/// A resumed download is whole: when the partial file is the start of the body, and
/// the server sends the rest for a `206` and the whole body otherwise, what is
/// assembled is the body.
pub proof fn law_a_resumed_download_is_whole(
    body: Seq<u8>,
    partial: int,
    status: u16,
    received: Seq<u8>,
)
    requires
        0 <= partial <= body.len(),
        received == (if status == 206 {
            body.skip(partial)
        } else {
            body
        }),
    ensures
        assembled(body.take(partial), status, received) == body,
{
    assert(body.take(partial) + body.skip(partial) =~= body);
    assert(body.skip(0) =~= body);
}

proof fn lemma_evicted(cap: int, total: int, sizes: Seq<i64>, done: int)
    requires
        0 <= done <= sizes.len(),
        forall|k: int| 0 <= k < done ==> #[trigger] left_after(total, sizes, k) > cap,
    ensures
        ({
            let count = evicted(cap, total, sizes, done);
            &&& done <= count <= sizes.len()
            &&& count == sizes.len() || left_after(total, sizes, count) <= cap
            &&& forall|k: int| 0 <= k < count ==> #[trigger] left_after(total, sizes, k) > cap
        }),
    decreases sizes.len() - done,
{
    if done < sizes.len() && left_after(total, sizes, done) > cap {
        lemma_evicted(cap, total, sizes, done + 1);
    }
}

/// Eviction takes the least recently used blobs, no more of them than needed, and
/// stops only when the cache is under its cap or nothing evictable is left; a cache
/// under its cap loses nothing.
pub proof fn law_eviction_stops_at_the_cap(cap: int, total: int, sizes: Seq<i64>)
    ensures
        ({
            let count = evicted(cap, total, sizes, 0);
            &&& 0 <= count <= sizes.len()
            &&& count == sizes.len() || left_after(total, sizes, count) <= cap
            &&& forall|k: int| 0 <= k < count ==> #[trigger] left_after(total, sizes, k) > cap
            &&& total <= cap ==> count == 0
        }),
{
    lemma_evicted(cap, total, sizes, 0);
}

/// What eviction frees is what the cache loses, as long as the cache holds at least
/// the evictable blobs.
pub proof fn law_freed_bytes_are_gone(total: int, sizes: Seq<i64>, count: int)
    requires
        0 <= count <= sizes.len(),
        bytes_of(sizes, sizes.len() as int) <= total,
    ensures
        left_after(total, sizes, count) == total - bytes_of(sizes, count),
    decreases count,
{
    lemma_bytes_grow(sizes, count, sizes.len() as int);
    if count > 0 {
        law_freed_bytes_are_gone(total, sizes, count - 1);
    }
}

/// The bytes of some chunks, one after the other.
pub open spec fn joined_chunks(bytes: Seq<u8>, chunks: Seq<(int, int, int)>) -> Seq<u8>
    decreases chunks.len(),
{
    if chunks.len() == 0 {
        Seq::empty()
    } else {
        bytes.subrange(chunks[0].1, chunks[0].2) + joined_chunks(bytes, chunks.skip(1))
    }
}

proof fn lemma_ranges(bytes: Seq<u8>, step: int, index: int, start: int)
    requires
        0 <= start <= bytes.len(),
        step > 0,
    ensures
        ({
            let chunks = ranges_from(bytes.len() as int, step, index, start);
            &&& joined_chunks(bytes, chunks) == bytes.skip(start)
            &&& forall|i: int|
                0 <= i < chunks.len() ==> (#[trigger] chunks[i]).0 == index + i && chunks[i].2
                    - chunks[i].1 <= step && (i < chunks.len() - 1 ==> chunks[i].2 - chunks[i].1
                    == step)
        }),
    decreases bytes.len() - start,
{
    let length = bytes.len() as int;
    let chunks = ranges_from(length, step, index, start);
    if start < length {
        let end = if length - start > step {
            start + step
        } else {
            length
        };
        let rest = ranges_from(length, step, index + 1, end);
        lemma_ranges(bytes, step, index + 1, end);
        assert(chunks.skip(1) =~= rest);
        assert(bytes.subrange(start, end) + bytes.skip(end) =~= bytes.skip(start));
        assert forall|i: int| 0 <= i < chunks.len() implies (#[trigger] chunks[i]).0 == index + i
            && chunks[i].2 - chunks[i].1 <= step && (i < chunks.len() - 1 ==> chunks[i].2
            - chunks[i].1 == step) by {
            if i > 0 {
                assert(chunks[i] == rest[i - 1]);
            } else if chunks.len() > 1 {
                assert(rest.len() > 0);
                assert(end < length);
            }
        }
    } else {
        assert(bytes.skip(start) =~= Seq::empty());
    }
}

/// The chunks cover the file: they are numbered from zero, all but the last have the
/// chunk size, and one after the other they are the file.
pub proof fn law_chunks_cover_the_file(bytes: Seq<u8>, step: int)
    requires
        step > 0,
    ensures
        ({
            let chunks = chunk_ranges(bytes.len() as int, step);
            &&& joined_chunks(bytes, chunks) == bytes
            &&& forall|i: int|
                0 <= i < chunks.len() ==> (#[trigger] chunks[i]).0 == i && chunks[i].2
                    - chunks[i].1 <= step && (i < chunks.len() - 1 ==> chunks[i].2 - chunks[i].1
                    == step)
        }),
{
    lemma_ranges(bytes, step, 0, 0);
    assert(bytes.skip(0) =~= bytes);
}

proof fn lemma_missing(received: Seq<u64>, length: int, step: int, index: int, start: int)
    ensures
        missing_from(received, length, step, index, start) == ranges_from(
            length,
            step,
            index,
            start,
        ).filter(|chunk: (int, int, int)| !holds_chunk(received, chunk.0)),
    decreases length - start,
{
    let keep = |chunk: (int, int, int)| !holds_chunk(received, chunk.0);
    reveal(Seq::filter);
    if step > 0 && start < length {
        let end = if length - start > step {
            start + step
        } else {
            length
        };
        lemma_missing(received, length, step, index + 1, end);
        let rest = ranges_from(length, step, index + 1, end);
        let this = (index, start, end);
        Seq::filter_distributes_over_add(seq![this], rest, keep);
        assert(seq![this].drop_last() =~= Seq::empty());
        assert(seq![this].drop_last().filter(keep) =~= Seq::empty());
        if keep(this) {
            assert(seq![this].filter(keep) =~= seq![this]);
        } else {
            assert(seq![this].filter(keep) =~= Seq::empty());
            assert(Seq::<(int, int, int)>::empty() + rest.filter(keep) =~= rest.filter(keep));
        }
    }
}

/// A resumed upload costs exactly the chunks that were missing: those of the file
/// that the server does not hold, in order.
pub proof fn law_only_missing_chunks_are_sent(received: Seq<u64>, length: int, step: int)
    ensures
        missing_chunks(received, length, step) == chunk_ranges(length, step).filter(
            |chunk: (int, int, int)| !holds_chunk(received, chunk.0),
        ),
{
    lemma_missing(received, length, step, 0, 0);
}

} // verus!
