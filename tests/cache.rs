use memoryhttpd::cache::{reply_to_read, Cache, Reply};
use memoryhttpd::expiry::{bytes_less_eq, Expiration, Expirations, IDLE_WAKE_MS};
use memoryhttpd::router::{
    deadline_for, derive_key, parse_ttl, route, Method, Rejection, Route, TtlError,
};
use memoryhttpd::store::{copy_bytes, same_bytes, Store};

fn put(c: &mut Cache, host: &str, path: &str, ttl: Option<&str>, body: &str, now: u64) -> Reply {
    c.handle(
        Method::Put,
        Some(host.as_bytes()),
        path.as_bytes(),
        ttl.map(|t| t.as_bytes()),
        body.as_bytes().to_vec(),
        now,
    )
}

fn call(c: &mut Cache, m: Method, host: &str, path: &str, now: u64) -> Reply {
    c.handle(m, Some(host.as_bytes()), path.as_bytes(), None, Vec::new(), now)
}

#[test]
fn put_then_get_same_host() {
    let mut c = Cache::new(0);
    let r = put(&mut c, "example.com", "/foo", None, "bar", 0);
    assert_eq!(r.status(), 200);
    assert!(r.marks_write());
    assert_eq!(r, Reply::Stored(b"bar".to_vec()));
    let g = call(&mut c, Method::Get, "example.com", "/foo", 1);
    assert_eq!(g.status(), 200);
    assert!(!g.marks_write());
    assert_eq!(g, Reply::Found(b"bar".to_vec()));
    assert_eq!(c.pending_len(), 0);
}

#[test]
fn ttl_write_expires_after_deadline() {
    let mut c = Cache::new(0);
    let r = put(&mut c, "example.com", "/foo", Some("50"), "bar", 1000);
    assert_eq!(r.status(), 200);
    assert_eq!(c.pending_len(), 1);
    assert_eq!(c.wake_at(1000), 1050);
    assert_eq!(call(&mut c, Method::Get, "example.com", "/foo", 1001), Reply::Found(b"bar".to_vec()));
    assert_eq!(c.tick(1049), None);
    assert_eq!(call(&mut c, Method::Get, "example.com", "/foo", 1049).status(), 200);
    assert_eq!(c.tick(1100), Some(b"example.com/foo".to_vec()));
    assert_eq!(call(&mut c, Method::Get, "example.com", "/foo", 1100).status(), 404);
    assert_eq!(c.pending_len(), 0);
}

#[test]
fn missing_deleted_and_other_methods() {
    let mut c = Cache::new(0);
    assert_eq!(call(&mut c, Method::Get, "example.com", "/missing", 0), Reply::NotFound);
    put(&mut c, "example.com", "/foo", None, "bar", 0);
    assert_eq!(call(&mut c, Method::Delete, "example.com", "/foo", 1), Reply::Deleted);
    assert_eq!(call(&mut c, Method::Get, "example.com", "/foo", 2).status(), 404);
    assert_eq!(call(&mut c, Method::Delete, "example.com", "/foo", 3).status(), 200);
    let p = call(&mut c, Method::Other, "example.com", "/foo", 4);
    assert_eq!(p, Reply::NotAllowed);
    assert_eq!(p.status(), 405);
}

#[test]
fn path_without_slash_is_bad_request() {
    let mut c = Cache::new(0);
    let r = call(&mut c, Method::Get, "example.com", "nopath", 0);
    assert_eq!(r, Reply::Rejected(Rejection::NoLeadingSlash));
    assert_eq!(r.status(), 400);
    assert_eq!(Rejection::NoLeadingSlash.reason(), "Path must start with a slash");
    let o = call(&mut c, Method::Other, "example.com", "nopath", 0);
    assert_eq!(o.status(), 400);
    let e = call(&mut c, Method::Get, "example.com", "", 0);
    assert_eq!(e.status(), 400);
}

#[test]
fn bad_ttl_header_is_rejected_without_write() {
    let mut c = Cache::new(0);
    let r = put(&mut c, "h", "/k", Some("soon"), "v", 0);
    assert_eq!(r, Reply::Rejected(Rejection::TtlNotANumber));
    assert_eq!(Rejection::TtlNotANumber.reason(), "x-expire-ms is not a valid number");
    let bytes: Vec<u8> = vec![0xff, b'1'];
    let r2 = c.handle(Method::Put, Some(b"h"), b"/k", Some(&bytes), b"v".to_vec(), 0);
    assert_eq!(r2, Reply::Rejected(Rejection::TtlNotAscii));
    assert_eq!(Rejection::TtlNotAscii.reason(), "x-expire-ms is not ascii");
    assert_eq!(call(&mut c, Method::Get, "h", "/k", 0), Reply::NotFound);
}

#[test]
fn bad_host_is_rejected() {
    let mut c = Cache::new(0);
    let host: Vec<u8> = vec![b'a', 0x01];
    let r = c.handle(Method::Get, Some(&host), b"/x", None, Vec::new(), 0);
    assert_eq!(r, Reply::Rejected(Rejection::BadHost));
    assert_eq!(Rejection::BadHost.reason(), "Could not read host header");
}

#[test]
fn missing_host_means_localhost() {
    let mut c = Cache::new(0);
    c.handle(Method::Put, None, b"/a", None, b"1".to_vec(), 0);
    assert_eq!(call(&mut c, Method::Get, "localhost", "/a", 0), Reply::Found(b"1".to_vec()));
    assert_eq!(route(Method::Get, None, b"/a", None, 0), Route::Get { key: b"localhost/a".to_vec() });
}

#[test]
fn default_ttl_applies_without_header() {
    let mut c = Cache::new(30);
    put(&mut c, "h", "/a", None, "1", 10);
    assert_eq!(c.wake_at(10), 40);
    put(&mut c, "h", "/b", Some("0"), "2", 10);
    assert_eq!(c.pending_len(), 1);
    assert_eq!(c.tick(40), Some(b"h/a".to_vec()));
    assert_eq!(c.tick(1_000_000), None);
    assert_eq!(call(&mut c, Method::Get, "h", "/b", 1_000_000), Reply::Found(b"2".to_vec()));
}

#[test]
fn zero_ttl_never_expires() {
    let mut c = Cache::new(0);
    put(&mut c, "h", "/z", Some("0"), "keep", 5);
    assert_eq!(c.pending_len(), 0);
    assert_eq!(c.tick(u64::MAX), None);
    assert_eq!(call(&mut c, Method::Get, "h", "/z", u64::MAX), Reply::Found(b"keep".to_vec()));
    assert_eq!(c.wake_at(5), 5 + IDLE_WAKE_MS);
    assert_eq!(c.wake_at(u64::MAX - 1), u64::MAX);
}

#[test]
fn overwrite_does_not_cancel_earlier_expiry() {
    let mut c = Cache::new(0);
    put(&mut c, "h", "/k", Some("50"), "old", 0);
    put(&mut c, "h", "/k", None, "new", 10);
    assert_eq!(call(&mut c, Method::Get, "h", "/k", 20), Reply::Found(b"new".to_vec()));
    assert_eq!(c.tick(50), Some(b"h/k".to_vec()));
    assert_eq!(call(&mut c, Method::Get, "h", "/k", 51), Reply::NotFound);
}

#[test]
fn expiries_run_by_deadline_then_key() {
    let mut q = Expirations::new();
    q.register(Expiration { key: b"b".to_vec(), deadline: 20 });
    q.register(Expiration { key: b"z".to_vec(), deadline: 10 });
    q.register(Expiration { key: b"a".to_vec(), deadline: 20 });
    assert_eq!(q.earliest(), Some(10));
    assert_eq!(q.take_due(9), None);
    assert_eq!(q.take_due(100), Some(b"z".to_vec()));
    assert_eq!(q.take_due(100), Some(b"a".to_vec()));
    assert_eq!(q.take_due(100), Some(b"b".to_vec()));
    assert_eq!(q.take_due(100), None);
    assert_eq!(q.earliest(), None);
    assert_eq!(q.len(), 0);
}

#[test]
fn one_expiry_per_tick() {
    let mut c = Cache::new(0);
    put(&mut c, "h", "/a", Some("5"), "1", 0);
    put(&mut c, "h", "/b", Some("5"), "2", 0);
    assert_eq!(c.tick(10), Some(b"h/a".to_vec()));
    assert_eq!(call(&mut c, Method::Get, "h", "/b", 10).status(), 200);
    assert_eq!(c.tick(10), Some(b"h/b".to_vec()));
    assert_eq!(call(&mut c, Method::Get, "h", "/b", 10).status(), 404);
}

#[test]
fn store_operations() {
    let mut s = Store::new();
    assert_eq!(s.get(b"k"), None);
    s.put(b"k".to_vec(), b"v1".to_vec());
    assert_eq!(s.get(b"k"), Some(b"v1".to_vec()));
    s.put(b"k".to_vec(), b"v2".to_vec());
    s.put(b"k".to_vec(), b"v2".to_vec());
    assert_eq!(s.get(b"k"), Some(b"v2".to_vec()));
    s.put(b"j".to_vec(), Vec::new());
    assert_eq!(s.get(b"j"), Some(Vec::new()));
    s.delete(b"k");
    assert_eq!(s.get(b"k"), None);
    s.delete(b"k");
    assert_eq!(s.get(b"k"), None);
    assert_eq!(s.get(b"j"), Some(Vec::new()));
}

#[test]
fn ttl_header_parsing() {
    assert_eq!(parse_ttl(b"50"), Ok(50));
    assert_eq!(parse_ttl(b"+7"), Ok(7));
    assert_eq!(parse_ttl(b"0"), Ok(0));
    assert_eq!(parse_ttl(b"18446744073709551615"), Ok(u64::MAX));
    assert_eq!(parse_ttl(b"18446744073709551616"), Err(TtlError::NotANumber));
    assert_eq!(parse_ttl(b""), Err(TtlError::NotANumber));
    assert_eq!(parse_ttl(b"+"), Err(TtlError::NotANumber));
    assert_eq!(parse_ttl(b"-1"), Err(TtlError::NotANumber));
    assert_eq!(parse_ttl(b" 1"), Err(TtlError::NotANumber));
    assert_eq!(parse_ttl(b"1\x7f"), Err(TtlError::NotAscii));
}

#[test]
fn key_is_host_then_path() {
    assert_eq!(derive_key(b"ab", b"/c"), b"ab/c".to_vec());
    assert_eq!(derive_key(b"ab", b"/c"), derive_key(b"a", b"b/c"));
    assert_eq!(
        route(Method::Put, Some(b"ab"), b"/c", Some(b"9"), 0),
        Route::Put { key: b"ab/c".to_vec(), ttl_ms: 9 }
    );
    assert_eq!(route(Method::Delete, Some(b"h"), b"/", None, 0), Route::Delete { key: b"h/".to_vec() });
}

#[test]
fn deadlines() {
    assert_eq!(deadline_for(100, 0), None);
    assert_eq!(deadline_for(100, 50), Some(150));
    assert_eq!(deadline_for(u64::MAX - 1, 50), Some(u64::MAX));
}

#[test]
fn byte_helpers() {
    assert!(same_bytes(b"abc", b"abc"));
    assert!(!same_bytes(b"abc", b"abd"));
    assert!(!same_bytes(b"ab", b"abc"));
    assert_eq!(copy_bytes(b"xyz"), b"xyz".to_vec());
    assert!(bytes_less_eq(b"ab", b"abc"));
    assert!(bytes_less_eq(b"abc", b"abc"));
    assert!(!bytes_less_eq(b"b", b"abc"));
    assert!(!bytes_less_eq(b"abc", b"ab"));
}

#[test]
fn read_reply_from_lookup() {
    assert_eq!(reply_to_read(None), Reply::NotFound);
    assert_eq!(reply_to_read(Some(b"v".to_vec())).status(), 200);
    assert_eq!(Reply::Unavailable.status(), 500);
}
