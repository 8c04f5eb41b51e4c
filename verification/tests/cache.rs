use jellyfin_rpc::entry::ImageUrl;
use jellyfin_rpc::codec::{parse_entries, serialize_entries};
use jellyfin_rpc::resolver::{consult, record_upload, CacheError};
use jellyfin_rpc::store::{decode_store, empty_store_payload, find_entry};
use jellyfin_rpc::upload::{validate_url, ImageData, ImgBBResponse, response_url};

fn entry(id: &str, url: &str, exp: usize) -> ImageUrl {
    ImageUrl::new(id.to_string(), url.to_string(), exp)
}

#[test]
fn empty_payload_is_empty_array() {
    assert_eq!(empty_store_payload(), "[]");
}

#[test]
fn serialize_one_entry_exact_text() {
    let v = vec![entry("abc123", "https://i.example/x.png", 1700000600)];
    let s = serialize_entries(&v);
    assert_eq!(
        s,
        "[{\"id\":\"abc123\",\"url\":\"https://i.example/x.png\",\"expiration_from_unix_seconds\":1700000600}]"
    );
}

#[test]
fn round_trip_many_entries() {
    let v = vec![
        entry("a", "https://i.example/a.png", 0),
        entry("quote\"back\\slash", "https://i.example/b.png", usize::MAX),
        entry("", "", 7),
        entry("unicode-αβγ", "https://i.example/γ.png", 42),
    ];
    let s = serialize_entries(&v);
    let parsed = parse_entries(&s).expect("canonical text must decode");
    assert_eq!(parsed.len(), v.len());
    for (p, q) in parsed.iter().zip(v.iter()) {
        assert_eq!(p.id, q.id);
        assert_eq!(p.url, q.url);
        assert_eq!(p.expiration_from_unix_seconds, q.expiration_from_unix_seconds);
    }
}

#[test]
fn parse_rejects_invalid_json() {
    assert!(parse_entries("not json at all").is_none());
    assert!(parse_entries("").is_none());
    assert!(parse_entries("{\"id\":\"a\"}").is_none());
    assert!(parse_entries("[{\"id\":\"a\"}]").is_none());
    assert!(parse_entries("[]trailing").is_none());
}

#[test]
fn absent_file_loads_empty_and_resets() {
    let out = decode_store(None);
    assert!(out.entries.is_empty());
    assert!(out.reset);
    assert_eq!(empty_store_payload(), "[]");
}

#[test]
fn corrupt_file_loads_empty_and_resets() {
    let out = decode_store(Some("{{{ definitely not a cache"));
    assert!(out.entries.is_empty());
    assert!(out.reset);
}

#[test]
fn intact_file_loads_without_reset() {
    let v = vec![entry("abc", "https://i.example/a.png", 100)];
    let s = serialize_entries(&v);
    let out = decode_store(Some(&s));
    assert!(!out.reset);
    assert_eq!(out.entries.len(), 1);
    assert_eq!(out.entries[0].id, "abc");
}

#[test]
fn find_returns_first_match() {
    let v = vec![
        entry("a", "https://one.example/", 1),
        entry("b", "https://two.example/", 2),
        entry("a", "https://three.example/", 3),
    ];
    assert_eq!(find_entry(&v, &"a".to_string()), Some(0));
    assert_eq!(find_entry(&v, &"b".to_string()), Some(1));
    assert_eq!(find_entry(&v, &"c".to_string()), None);
}

#[test]
fn consult_hits_fresh_entry() {
    let mut v = vec![entry("abc", "https://i.example/a.png", 1000)];
    let before = serialize_entries(&v);
    let hit = consult(&mut v, &"abc".to_string(), 500);
    assert_eq!(hit, Some("https://i.example/a.png".to_string()));
    assert_eq!(serialize_entries(&v), before);
}

#[test]
fn consult_misses_unknown_id() {
    let mut v = vec![entry("abc", "https://i.example/a.png", 1000)];
    let hit = consult(&mut v, &"other".to_string(), 500);
    assert_eq!(hit, None);
    assert_eq!(v.len(), 1);
}

#[test]
fn expiry_is_strict() {
    // At exactly the expiry instant the entry is still served.
    let mut v = vec![entry("abc", "https://i.example/a.png", 1000)];
    assert_eq!(
        consult(&mut v, &"abc".to_string(), 1000),
        Some("https://i.example/a.png".to_string())
    );
    assert_eq!(v.len(), 1);

    // One second earlier it is served too.
    let mut v = vec![entry("abc", "https://i.example/a.png", 1000)];
    assert!(consult(&mut v, &"abc".to_string(), 999).is_some());
    assert_eq!(v.len(), 1);

    // One second past the expiry instant it is dropped and re-uploaded.
    let mut v = vec![entry("abc", "https://i.example/a.png", 1000)];
    assert_eq!(consult(&mut v, &"abc".to_string(), 1001), None);
    assert!(v.is_empty());
}

#[test]
fn record_upload_appends_and_serializes() {
    let mut v = vec![entry("a", "https://one.example/", 50)];
    let payload = record_upload(
        &mut v,
        &"b".to_string(),
        &"https://two.example/".to_string(),
        100,
        600,
    )
    .expect("no overflow");
    assert_eq!(v.len(), 2);
    assert_eq!(v[1].id, "b");
    assert_eq!(v[1].expiration_from_unix_seconds, 700);
    let reparsed = parse_entries(&payload).expect("payload must decode");
    assert_eq!(reparsed.len(), 2);
    assert_eq!(reparsed[1].url, "https://two.example/");
}

#[test]
fn record_upload_overflow_is_surfaced() {
    let mut v = Vec::new();
    let r = record_upload(
        &mut v,
        &"a".to_string(),
        &"https://one.example/".to_string(),
        usize::MAX,
        1,
    );
    assert_eq!(r, Err(CacheError::ExpiryOverflow));
    assert!(v.is_empty());
}

#[test]
fn second_resolution_is_a_pure_hit() {
    // First resolution: empty cache, miss, upload recorded once.
    let mut uploads: u32 = 0;
    let mut writes: u32 = 0;
    let mut v = decode_store(None).entries;
    let id = "abc123".to_string();
    assert_eq!(consult(&mut v, &id, 1000), None);
    uploads += 1;
    let url = "https://i.example/fresh.png".to_string();
    let payload = record_upload(&mut v, &id, &url, 1000, 600).unwrap();
    writes += 1;
    let file = payload;

    // Second resolution before expiry: pure hit, no upload, no write.
    let mut v2 = decode_store(Some(&file)).entries;
    let hit = consult(&mut v2, &id, 1300);
    assert_eq!(hit, Some(url.clone()));
    assert_eq!(uploads, 1);
    assert_eq!(writes, 1);
}

#[test]
fn failed_upload_leaves_payload_unchanged() {
    // A miss asks for an upload; when the upload fails the caller never gets
    // a payload, so the file text stays byte-for-byte what it was.
    let v0 = vec![entry("other", "https://one.example/", 900)];
    let file_before = serialize_entries(&v0);
    let mut v = decode_store(Some(&file_before)).entries;
    assert_eq!(consult(&mut v, &"abc".to_string(), 500), None);
    // Upload fails here: no record_upload call, nothing to write.
    assert_eq!(file_before, serialize_entries(&v0));
}

#[test]
fn full_resolution_scenario() {
    let t0: usize = 1_700_000_000;
    let ttl: usize = 600;
    let id = "abc123".to_string();

    // Empty cache: miss, upload, one entry persisted with expiry t0 + 600.
    let mut v = decode_store(None).entries;
    assert_eq!(consult(&mut v, &id, t0), None);
    let u = "https://i.example/u.png".to_string();
    let file = record_upload(&mut v, &id, &u, t0, ttl).unwrap();
    let loaded = parse_entries(&file).unwrap();
    assert_eq!(loaded.len(), 1);
    assert_eq!(loaded[0].id, "abc123");
    assert_eq!(loaded[0].url, "https://i.example/u.png");
    assert_eq!(loaded[0].expiration_from_unix_seconds, t0 + 600);

    // Second call at t0 + 300: pure hit on the same URL.
    let mut v2 = decode_store(Some(&file)).entries;
    assert_eq!(consult(&mut v2, &id, t0 + 300), Some(u.clone()));

    // Third call at t0 + 700: expired, new upload, file rewritten with the
    // single replacement entry.
    let mut v3 = decode_store(Some(&file)).entries;
    assert_eq!(consult(&mut v3, &id, t0 + 700), None);
    let u2 = "https://i.example/u2.png".to_string();
    let file2 = record_upload(&mut v3, &id, &u2, t0 + 700, ttl).unwrap();
    let loaded2 = parse_entries(&file2).unwrap();
    assert_eq!(loaded2.len(), 1);
    assert_eq!(loaded2[0].id, "abc123");
    assert_eq!(loaded2[0].url, "https://i.example/u2.png");
    assert_eq!(loaded2[0].expiration_from_unix_seconds, t0 + 700 + 600);
}

#[test]
fn url_validation_normalizes() {
    // The serialization of a parsed URL is not the raw input string.
    let r = validate_url(&"https://example.net".to_string()).unwrap();
    assert_eq!(r, "https://example.net/");
    assert_eq!(
        validate_url(&"not a url".to_string()),
        Err(CacheError::InvalidUrl)
    );
}

#[test]
fn response_url_reads_data_url() {
    let resp = ImgBBResponse {
        data: ImageData { url: "https://i.ibb.example/abc.png".to_string() },
    };
    assert_eq!(response_url(&resp).unwrap(), "https://i.ibb.example/abc.png");
    let bad = ImgBBResponse { data: ImageData { url: "::::".to_string() } };
    assert!(response_url(&bad).is_err());
}

#[test]
fn expiration_accessor_returns_seconds() {
    let e = entry("a", "https://one.example/", 12345);
    assert_eq!(e.expiration_as_duration(), 12345u64);
}
