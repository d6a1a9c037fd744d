use ferroma_client::api::{ApiError, AttachmentDto, UploadInit, UploadStatus};
use ferroma_client::attachment::{
    completed, plan_chunks, upload_is_simple, upload_name, AttachmentCache, Chunk, DownloadStart,
    Lookup, UploadPass, DEFAULT_CACHE_LIMIT, SIMPLE_UPLOAD_LIMIT,
};
use ferroma_client::error::ClientError;
use ferroma_client::fcp::FcpClient;
use ferroma_client::util::sha256_hex;

const ABC: &str = "ba7816bf8f01cfea414140de5dae2223b00361a396177a9cb410ff61f20015ad";

fn client() -> FcpClient {
    FcpClient::new("http://x/client")
}

fn init(chunk_size: u64) -> UploadInit {
    UploadInit { attachment_id: 7, chunk_size, upload_token: "up".into() }
}

fn sent(pass: &mut UploadPass) -> Vec<(String, Vec<u8>)> {
    let mut out = Vec::new();
    while let Some(request) = pass.next(&client()) {
        assert_eq!(request.path, "/attachments/7/chunk");
        let (bytes, kind) = request.raw.expect("raw");
        assert_eq!(kind, "application/octet-stream");
        out.push((request.query[0].1.clone(), bytes));
    }
    out
}

#[test]
fn the_digest_is_the_documented_one() {
    assert_eq!(sha256_hex(b"abc"), ABC);
    assert_eq!(
        sha256_hex(b""),
        "e3b0c44298fc1c149afbf4c8996fb92427ae41e4649b934ca495991b7852b855"
    );
}

#[test]
fn the_paths_are_content_addressed() {
    let blob = AttachmentCache::put_bytes(b"abc");
    assert_eq!(blob.sha256, ABC);
    assert_eq!(blob.path, format!("objects/ba/{ABC}"));
    assert_eq!(blob.size_bytes, 3);
    assert!(!blob.from_cache);
    assert_eq!(AttachmentCache::partial_path(9), "tmp/9.part");
    // A name too short for a prefix still has a place.
    assert_eq!(AttachmentCache::blob_path("a"), "objects/00/a");
    assert_eq!(AttachmentCache::blob_path("/srv/a"), "/srv/a");
    assert_eq!(AttachmentCache::blob_path("a\u{e9}x"), "objects/00/a\u{e9}x");
    assert_eq!(AttachmentCache::blob_path("\u{e9}x"), "objects/\u{e9}/\u{e9}x");
}

#[test]
fn put_and_get_round_trip() {
    let blob = AttachmentCache::put_bytes(b"hello attachment");
    match AttachmentCache::get(&blob.sha256, Some(16), Some(b"hello attachment")) {
        Lookup::Hit(again) => {
            assert!(again.from_cache);
            assert_eq!(again.size_bytes, 16);
            assert_eq!(again.path, blob.path);
        }
        other => panic!("unexpected {other:?}"),
    }
    assert_eq!(AttachmentCache::get("not a digest", None, None), Lookup::Miss);
}

#[test]
fn a_digest_is_the_file_name_and_two_copies_cost_one_file() {
    let first = AttachmentCache::put_bytes(b"same bytes");
    let second = AttachmentCache::put_bytes(b"same bytes");
    assert_eq!(first, second);
}

#[test]
fn a_corrupted_cache_entry_is_detected_and_refetched() {
    let lookup = AttachmentCache::get(ABC, Some(3), Some(b"abd"));
    assert_eq!(lookup, Lookup::Discard);
    assert!(!AttachmentCache::contains(&lookup));
    assert_eq!(AttachmentCache::lookup_from(ABC, Some(3), Some("other")), Lookup::Discard);
    assert!(AttachmentCache::contains(&AttachmentCache::lookup_from(ABC, Some(3), Some(ABC))));
}

#[test]
fn a_missing_file_is_reported_as_a_miss() {
    let lookup = AttachmentCache::get(ABC, Some(3), None);
    assert_eq!(lookup, Lookup::Forget);
    assert!(!AttachmentCache::contains(&lookup));
}

#[test]
fn a_cache_hit_avoids_a_second_download() {
    let blob = AttachmentCache::put_bytes(b"abc");
    assert_eq!(
        AttachmentCache::download(&client(), 9, Some(blob.clone()), 0),
        DownloadStart::Served(blob)
    );
}

#[test]
fn a_partial_download_resumes_with_a_range_request() {
    match AttachmentCache::download(&client(), 9, None, 6) {
        DownloadStart::Fetch(request) => {
            assert_eq!(request.path, "/attachments/9");
            assert_eq!(request.range.as_deref(), Some("bytes=6-"));
        }
        other => panic!("unexpected {other:?}"),
    }
    match AttachmentCache::download(&client(), 9, None, 0) {
        DownloadStart::Fetch(request) => assert_eq!(request.range, None),
        other => panic!("unexpected {other:?}"),
    }
    assert!(AttachmentCache::resumes(206, 6));
}

#[test]
fn a_server_that_ignores_the_range_restarts_cleanly() {
    assert!(!AttachmentCache::resumes(200, 6));
    assert!(!AttachmentCache::resumes(206, 0));
}

#[test]
fn a_download_whose_digest_does_not_match_is_refused() {
    assert!(AttachmentCache::downloaded(9, b"abc", Some(ABC)).is_ok());
    assert!(AttachmentCache::downloaded(9, b"abc", None).is_ok());
    assert!(AttachmentCache::downloaded(9, b"abc", Some("")).is_ok(), "nothing was announced");
    match AttachmentCache::downloaded(9, b"abc", Some("feed")) {
        Err(ClientError::Cache(message)) => assert_eq!(
            message,
            format!("attachment 9 hashed to {ABC}, not the feed the server announced")
        ),
        other => panic!("unexpected {other:?}"),
    }
    assert!(AttachmentCache::check_digest(9, "a", Some("b")).is_err());
}

#[test]
fn eviction_takes_no_more_than_it_must() {
    let rows = || vec![("a".to_string(), 4), ("b".to_string(), -1), ("c".to_string(), 4)];
    let cache = AttachmentCache::new(8);
    assert!(cache.sizes_fit(12, &rows()));
    assert!(cache.evict_to_cap(8, rows()).victims.is_empty());
    let one = cache.evict_to_cap(12, rows());
    assert_eq!(one.victims, vec!["a".to_string()]);
    assert_eq!(one.freed, 4);
    // A cap of zero means "cache nothing".
    let all = AttachmentCache::new(0).evict_to_cap(8, rows());
    assert_eq!(all.victims.len(), 3);
    assert_eq!(all.freed, 8);
    let huge = vec![("a".to_string(), i64::MAX), ("b".to_string(), i64::MAX), ("c".to_string(), 9)];
    assert!(!AttachmentCache::new(0).sizes_fit(u64::MAX, &huge));
    // Only what is freed has to be counted.
    assert!(AttachmentCache::new(0).sizes_fit(5, &huge));
    assert_eq!(AttachmentCache::new(0).evict_to_cap(5, huge).freed, i64::MAX as u64);
    assert_eq!(AttachmentCache::total_size(-5), 0);
}

#[test]
fn the_cap_is_taken_literally() {
    let mut cache = AttachmentCache::with_default_cap();
    assert_eq!(cache.cap_bytes(), DEFAULT_CACHE_LIMIT);
    assert_eq!(DEFAULT_CACHE_LIMIT, 1024 * 1024 * 1024);
    cache.set_cap_bytes(0);
    assert_eq!(cache.cap_bytes(), 0);
}

#[test]
fn a_chunked_upload_only_sends_the_missing_chunks() {
    let status = UploadStatus {
        attachment_id: 7,
        chunk_size: 4,
        received: vec![0, 2],
        complete: false,
        size_bytes: 10,
    };
    let mut pass = UploadPass::new(&init(4), Ok(status), b"0123456789".to_vec()).expect("plan");
    assert_eq!(sent(&mut pass), vec![("1".to_string(), b"4567".to_vec())]);
    let done = pass.finish(&client());
    assert_eq!(done.path, "/attachments/7/complete");
    assert_eq!(
        done.body.expect("body").text_at("sha256"),
        Some(sha256_hex(b"0123456789"))
    );
}

#[test]
fn a_fresh_upload_sends_every_chunk_when_there_is_no_status() {
    let gone = Err(ClientError::Api(ApiError::new(404, "not_found", "none")));
    let mut pass = UploadPass::new(&init(4), gone, b"0123456789".to_vec()).expect("plan");
    let chunks = sent(&mut pass);
    assert_eq!(chunks.len(), 3);
    let whole: Vec<u8> = chunks.iter().flat_map(|chunk| chunk.1.clone()).collect();
    assert_eq!(whole, b"0123456789");
    let refused = Err(ClientError::Api(ApiError::new(500, "internal_error", "boom")));
    assert!(UploadPass::new(&init(4), refused, Vec::new()).is_err());
}

#[test]
fn a_complete_upload_is_never_re_uploaded() {
    let status = UploadStatus { chunk_size: 4, received: vec![2, 1, 0], ..UploadStatus::default() };
    let mut pass = UploadPass::new(&init(4), Ok(status), b"0123456789".to_vec()).expect("plan");
    assert!(sent(&mut pass).is_empty());
}

#[test]
fn a_chunk_size_of_nothing_is_the_whole_file() {
    let mut pass = UploadPass::new(&init(0), Ok(UploadStatus::default()), b"0123".to_vec()).expect("plan");
    assert_eq!(sent(&mut pass), vec![("0".to_string(), b"0123".to_vec())]);
    let mut huge = UploadPass::new(&init(u64::MAX), Ok(UploadStatus::default()), b"01".to_vec()).expect("plan");
    assert_eq!(sent(&mut huge).len(), 1);
    let mut empty = UploadPass::new(&init(0), Ok(UploadStatus::default()), Vec::new()).expect("plan");
    assert!(sent(&mut empty).is_empty());
    assert_eq!(
        plan_chunks(&vec![9], 5, 3),
        vec![Chunk { index: 0, start: 0, end: 3 }, Chunk { index: 1, start: 3, end: 5 }]
    );
}

#[test]
fn a_small_file_takes_the_simple_path() {
    assert!(upload_is_simple(SIMPLE_UPLOAD_LIMIT as usize - 1));
    assert!(!upload_is_simple(SIMPLE_UPLOAD_LIMIT as usize));
    assert_eq!(SIMPLE_UPLOAD_LIMIT, 4 * 1024 * 1024);
    let dto = AttachmentDto {
        id: 3,
        filename: "a.txt".into(),
        content_type: "text/plain".into(),
        size_bytes: 5,
        sha256: Some(ABC.into()),
        content_id: None,
        disposition: None,
    };
    let done = completed(dto);
    assert_eq!(done.id, 3);
    assert_eq!(done.sha256.as_deref(), Some(ABC));
    assert_eq!(upload_name(None), "attachment");
    assert_eq!(upload_name(Some("a.txt".into())), "a.txt");
}

#[test]
fn a_large_file_takes_the_chunked_path() {
    let big = vec![7u8; 5 * 1024 * 1024];
    assert!(!upload_is_simple(big.len()));
    let fresh = Err(ClientError::Api(ApiError::new(404, "not_found", "new")));
    let mut pass = UploadPass::new(&init(1_048_576), fresh, big).expect("plan");
    assert_eq!(sent(&mut pass).len(), 5);
}
