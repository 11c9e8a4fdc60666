use vstd::prelude::*;

verus! {

/// The host used for the key when a request carries no `Host` header: the
/// bytes of `localhost`.
pub open spec fn default_host_bytes() -> Seq<u8> {
    seq![108u8, 111, 99, 97, 108, 104, 111, 115, 116]
}

/// A byte that may stand in header text: visible ASCII or a tab.
pub open spec fn is_header_char(b: u8) -> bool {
    (32 <= b && b < 127) || b == 9
}

/// A header value that reads as text: every byte is visible ASCII or a tab.
pub open spec fn is_header_text(s: Seq<u8>) -> bool {
    forall|i: int| 0 <= i < s.len() ==> is_header_char(#[trigger] s[i])
}

/// An ASCII decimal digit.
pub open spec fn is_digit(b: u8) -> bool {
    48 <= b && b <= 57
}

/// A non-empty run of decimal digits.
pub open spec fn is_digits(s: Seq<u8>) -> bool {
    s.len() > 0 && forall|i: int| 0 <= i < s.len() ==> is_digit(#[trigger] s[i])
}

/// The number that a run of decimal digits writes.
pub open spec fn decimal_value(s: Seq<u8>) -> nat
    decreases s.len(),
{
    if s.len() == 0 {
        0
    } else {
        decimal_value(s.drop_last()) * 10 + (s.last() - 48) as nat
    }
}

/// The digits of a count, after an optional leading `+`.
pub open spec fn unsigned_digits(s: Seq<u8>) -> Seq<u8> {
    if s.len() > 0 && s[0] == 43 {
        s.drop_first()
    } else {
        s
    }
}

/// The text is an unsigned decimal count that fits in 64 bits.
pub open spec fn is_u64_text(s: Seq<u8>) -> bool {
    is_digits(unsigned_digits(s)) && decimal_value(unsigned_digits(s)) <= u64::MAX
}

/// Why a TTL header was refused.
#[derive(PartialEq, Eq, Structural, Clone, Copy, Debug)]
pub enum TtlError {
    /// The header holds a byte that is not visible ASCII.
    NotAscii,
    /// The header is text but not an unsigned 64-bit count.
    NotANumber,
}

/// The effective TTL of a write, from the header's raw bytes.
pub open spec fn ttl_spec(s: Seq<u8>) -> Result<u64, TtlError> {
    if !is_header_text(s) {
        Err(TtlError::NotAscii)
    } else if !is_u64_text(s) {
        Err(TtlError::NotANumber)
    } else {
        Ok(decimal_value(unsigned_digits(s)) as u64)
    }
}

proof fn lemma_prefix_value_le(s: Seq<u8>, i: int)
    requires
        0 <= i <= s.len(),
        forall|j: int| 0 <= j < s.len() ==> is_digit(#[trigger] s[j]),
    ensures
        decimal_value(s.subrange(0, i)) <= decimal_value(s),
    decreases s.len() - i,
{
    if i < s.len() {
        lemma_prefix_value_le(s, i + 1);
        let p = s.subrange(0, i + 1);
        assert(p.drop_last() =~= s.subrange(0, i));
    } else {
        assert(s.subrange(0, i) =~= s);
    }
}

/// Reads a TTL header: a count of milliseconds in header text, with an
/// optional leading `+`.
pub fn parse_ttl(s: &[u8]) -> (r: Result<u64, TtlError>)
    ensures
        r == ttl_spec(s@),
{
    let mut i: usize = 0;
    while i < s.len()
        invariant
            0 <= i <= s@.len(),
            forall|j: int| 0 <= j < i ==> is_header_char(#[trigger] s@[j]),
        decreases s@.len() - i,
    {
        if !((32 <= s[i] && s[i] < 127) || s[i] == 9) {
            return Err(TtlError::NotAscii);
        }
        i = i + 1;
    }
    assert(is_header_text(s@));
    let start: usize = if s.len() > 0 && s[0] == 43 { 1 } else { 0 };
    let ghost d = unsigned_digits(s@);
    assert(d =~= s@.subrange(start as int, s@.len() as int));
    if start >= s.len() {
        return Err(TtlError::NotANumber);
    }
    let mut acc: u64 = 0;
    let mut k: usize = start;
    while k < s.len()
        invariant
            start <= k <= s@.len(),
            is_header_text(s@),
            d == unsigned_digits(s@),
            d =~= s@.subrange(start as int, s@.len() as int),
            forall|j: int| 0 <= j < k - start ==> is_digit(#[trigger] d[j]),
            acc == decimal_value(d.subrange(0, k - start)),
        decreases s@.len() - k,
    {
        let c = s[k];
        assert(d[k - start] == c);
        if !(48 <= c && c <= 57) {
            assert(!is_digit(d[k - start]));
            return Err(TtlError::NotANumber);
        }
        let ghost p = d.subrange(0, k + 1 - start);
        assert(p.drop_last() =~= d.subrange(0, k - start));
        assert(p.last() == c);
        if acc > (u64::MAX - (c - 48) as u64) / 10 {
            assert(decimal_value(p) > u64::MAX) by (nonlinear_arith)
                requires
                    acc > (u64::MAX - (c - 48) as u64) / 10,
                    decimal_value(p) == acc * 10 + (c - 48) as nat,
                    48 <= c <= 57,
            ;
            proof {
                if is_digits(d) {
                    lemma_prefix_value_le(d, k + 1 - start);
                }
            }
            return Err(TtlError::NotANumber);
        }
        assert(acc * 10 + (c - 48) as nat <= u64::MAX) by (nonlinear_arith)
            requires
                acc <= (u64::MAX - (c - 48) as u64) / 10,
                48 <= c <= 57,
        ;
        acc = acc * 10 + (c - 48) as u64;
        k = k + 1;
    }
    assert(d.subrange(0, d.len() as int) =~= d);
    Ok(acc)
}

/// The cache key of a request: the host followed by the path, byte for byte.
pub fn derive_key(host: &[u8], path: &[u8]) -> (r: Vec<u8>)
    ensures
        r@ == host@ + path@,
{
    let mut r: Vec<u8> = Vec::new();
    let mut i: usize = 0;
    while i < host.len()
        invariant
            0 <= i <= host@.len(),
            r@ == host@.subrange(0, i as int),
        decreases host@.len() - i,
    {
        r.push(host[i]);
        i = i + 1;
        assert(r@ =~= host@.subrange(0, i as int));
    }
    assert(host@.subrange(0, host@.len() as int) =~= host@);
    let mut j: usize = 0;
    while j < path.len()
        invariant
            0 <= j <= path@.len(),
            r@ == host@ + path@.subrange(0, j as int),
        decreases path@.len() - j,
    {
        r.push(path[j]);
        j = j + 1;
        assert(r@ =~= host@ + path@.subrange(0, j as int));
    }
    assert(path@.subrange(0, path@.len() as int) =~= path@);
    r
}

/// The request methods the router tells apart.
#[derive(PartialEq, Eq, Structural, Clone, Copy, Debug)]
pub enum Method {
    Get,
    Put,
    Delete,
    Other,
}

/// Why a request was refused before reaching the store.
#[derive(PartialEq, Eq, Structural, Clone, Copy, Debug)]
pub enum Rejection {
    /// The `Host` header does not read as text.
    BadHost,
    /// The path does not start with `/`.
    NoLeadingSlash,
    /// The TTL header is not text.
    TtlNotAscii,
    /// The TTL header is not a count.
    TtlNotANumber,
}

impl Rejection {
    /// The short reason sent back with a refusal.
    pub fn reason(&self) -> (r: &'static str)
        ensures
            *self == Rejection::BadHost ==> r@ == "Could not read host header"@,
            *self == Rejection::NoLeadingSlash ==> r@ == "Path must start with a slash"@,
            *self == Rejection::TtlNotAscii ==> r@ == "x-expire-ms is not ascii"@,
            *self == Rejection::TtlNotANumber ==> r@ == "x-expire-ms is not a valid number"@,
    {
        match self {
            Rejection::BadHost => "Could not read host header",
            Rejection::NoLeadingSlash => "Path must start with a slash",
            Rejection::TtlNotAscii => "x-expire-ms is not ascii",
            Rejection::TtlNotANumber => "x-expire-ms is not a valid number",
        }
    }
}

/// The store operation a request asks for.
#[derive(PartialEq, Eq, Debug)]
pub enum Route {
    Get { key: Vec<u8> },
    Put { key: Vec<u8>, ttl_ms: u64 },
    Delete { key: Vec<u8> },
    NotAllowed,
    Rejected(Rejection),
}

/// What a route is, on plain values.
pub enum RouteSpec {
    Get(Seq<u8>),
    Put(Seq<u8>, u64),
    Delete(Seq<u8>),
    NotAllowed,
    Rejected(Rejection),
}

impl Route {
    /// The route on plain values.
    pub open spec fn spec_view(&self) -> RouteSpec {
        match self {
            Route::Get { key } => RouteSpec::Get(key@),
            Route::Put { key, ttl_ms } => RouteSpec::Put(key@, *ttl_ms),
            Route::Delete { key } => RouteSpec::Delete(key@),
            Route::NotAllowed => RouteSpec::NotAllowed,
            Route::Rejected(e) => RouteSpec::Rejected(*e),
        }
    }
}

/// The host part of the key: the header if present, else `localhost`.
pub open spec fn host_of(host: Option<Seq<u8>>) -> Seq<u8> {
    match host {
        Some(h) => h,
        None => default_host_bytes(),
    }
}

/// How a request is routed: the host header must be text and the path must
/// start with `/`; then the method picks the operation, and a write takes
/// its TTL from the header if present, else the default.
pub open spec fn route_spec(
    method: Method,
    host: Option<Seq<u8>>,
    path: Seq<u8>,
    ttl_header: Option<Seq<u8>>,
    default_ttl: u64,
) -> RouteSpec {
    let key = host_of(host) + path;
    if host is Some && !is_header_text(host->0) {
        RouteSpec::Rejected(Rejection::BadHost)
    } else if path.len() == 0 || path[0] != 47 {
        RouteSpec::Rejected(Rejection::NoLeadingSlash)
    } else {
        match method {
            Method::Get => RouteSpec::Get(key),
            Method::Put => match ttl_header {
                None => RouteSpec::Put(key, default_ttl),
                Some(t) => match ttl_spec(t) {
                    Ok(n) => RouteSpec::Put(key, n),
                    Err(TtlError::NotAscii) => RouteSpec::Rejected(Rejection::TtlNotAscii),
                    Err(TtlError::NotANumber) => RouteSpec::Rejected(Rejection::TtlNotANumber),
                },
            },
            Method::Delete => RouteSpec::Delete(key),
            Method::Other => RouteSpec::NotAllowed,
        }
    }
}

fn is_text(s: &[u8]) -> (r: bool)
    ensures
        r == is_header_text(s@),
{
    let mut i: usize = 0;
    while i < s.len()
        invariant
            0 <= i <= s@.len(),
            forall|j: int| 0 <= j < i ==> is_header_char(#[trigger] s@[j]),
        decreases s@.len() - i,
    {
        if !((32 <= s[i] && s[i] < 127) || s[i] == 9) {
            return false;
        }
        i = i + 1;
    }
    true
}

fn default_host() -> (r: Vec<u8>)
    ensures
        r@ == host_of(None),
{
    let r: Vec<u8> = vec![108u8, 111, 99, 97, 108, 104, 111, 115, 116];
    assert(r@ =~= host_of(None));
    r
}

/// Turns a request's method, `Host` header, path and TTL header into the
/// store operation it asks for.
pub fn route(
    method: Method,
    host: Option<&[u8]>,
    path: &[u8],
    ttl_header: Option<&[u8]>,
    default_ttl: u64,
) -> (r: Route)
    ensures
        r.spec_view() == route_spec(
            method,
            match host {
                Some(h) => Some(h@),
                None => None,
            },
            path@,
            match ttl_header {
                Some(t) => Some(t@),
                None => None,
            },
            default_ttl,
        ),
{
    let host_bytes: Vec<u8> = match host {
        Some(h) => {
            if !is_text(h) {
                return Route::Rejected(Rejection::BadHost);
            }
            crate::store::copy_bytes(h)
        },
        None => default_host(),
    };
    if path.len() == 0 || path[0] != 47 {
        return Route::Rejected(Rejection::NoLeadingSlash);
    }
    let key = derive_key(host_bytes.as_slice(), path);
    match method {
        Method::Get => Route::Get { key },
        Method::Put => match ttl_header {
            None => Route::Put { key, ttl_ms: default_ttl },
            Some(t) => match parse_ttl(t) {
                Ok(n) => Route::Put { key, ttl_ms: n },
                Err(TtlError::NotAscii) => Route::Rejected(Rejection::TtlNotAscii),
                Err(TtlError::NotANumber) => Route::Rejected(Rejection::TtlNotANumber),
            },
        },
        Method::Delete => Route::Delete { key },
        Method::Other => Route::NotAllowed,
    }
}

/// The deadline of a write made at `now` with a TTL of `ttl_ms`: none when the
/// TTL is zero (the entry never expires); a deadline past the clock's range
/// is held at its largest value.
pub fn deadline_for(now: u64, ttl_ms: u64) -> (r: Option<u64>)
    ensures
        ttl_ms == 0 ==> r is None,
        ttl_ms > 0 ==> r == Some(
            if now as int + ttl_ms <= u64::MAX { (now + ttl_ms) as u64 } else { u64::MAX },
        ),
{
    if ttl_ms == 0 {
        None
    } else {
        Some(now.saturating_add(ttl_ms))
    }
}

} // verus!
