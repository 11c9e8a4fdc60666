use vstd::prelude::*;

use crate::expiry::{Expiration, Expirations, Pending};
use crate::router::{deadline_for, route, route_spec, Method, Rejection, Route, RouteSpec};
use crate::store::Store;

verus! {

/// The answer to one request.
#[derive(PartialEq, Eq, Debug)]
pub enum Reply {
    /// The stored value of a read.
    Found(Vec<u8>),
    /// A write succeeded; the value is echoed back.
    Stored(Vec<u8>),
    /// A delete was carried out, whether or not the key existed.
    Deleted,
    /// A read of a key that is absent.
    NotFound,
    /// A method other than read, write and delete.
    NotAllowed,
    /// The request was malformed.
    Rejected(Rejection),
    /// A write with a TTL whose expiry could not be registered.
    Unavailable,
}

impl Reply {
    /// The HTTP status of the reply.
    pub fn status(&self) -> (r: u16)
        ensures
            r == match self {
                Reply::Found(_) | Reply::Stored(_) | Reply::Deleted => 200u16,
                Reply::NotFound => 404,
                Reply::NotAllowed => 405,
                Reply::Rejected(_) => 400,
                Reply::Unavailable => 500,
            },
    {
        match self {
            Reply::Found(_) | Reply::Stored(_) | Reply::Deleted => 200,
            Reply::NotFound => 404,
            Reply::NotAllowed => 405,
            Reply::Rejected(_) => 400,
            Reply::Unavailable => 500,
        }
    }

    /// Whether the reply carries the marker header of a write.
    pub fn marks_write(&self) -> (r: bool)
        ensures
            r == self is Stored,
    {
        match self {
            Reply::Stored(_) => true,
            _ => false,
        }
    }
}

/// The reply to a read, from what the store returned.
pub fn reply_to_read(found: Option<Vec<u8>>) -> (r: Reply)
    ensures
        match found {
            Some(v) => r == Reply::Found(v),
            None => r == Reply::NotFound,
        },
{
    match found {
        Some(v) => Reply::Found(v),
        None => Reply::NotFound,
    }
}

/// The store, its expiry schedule and the default TTL, driven by one caller.
pub struct Cache {
    store: Store,
    expirations: Expirations,
    default_ttl: u64,
}

impl Cache {
    /// The store's own invariant holds.
    pub closed spec fn wf(&self) -> bool {
        self.store.wf()
    }

    /// What the cache holds, key to value.
    pub closed spec fn contents(&self) -> Map<Seq<u8>, Seq<u8>> {
        self.store@
    }

    /// The pending expiries, in arrival order.
    pub closed spec fn pending(&self) -> Seq<Pending> {
        self.expirations@
    }

    /// The TTL of writes that carry no TTL header.
    pub closed spec fn default_ttl_spec(&self) -> u64 {
        self.default_ttl
    }

    /// An empty cache whose writes without a TTL header use `default_ttl`
    /// milliseconds (zero: never expire).
    pub fn new(default_ttl: u64) -> (c: Cache)
        ensures
            c.wf(),
            c.contents() == Map::<Seq<u8>, Seq<u8>>::empty(),
            c.pending() == Seq::<Pending>::empty(),
            c.default_ttl_spec() == default_ttl,
    {
        Cache { store: Store::new(), expirations: Expirations::new(), default_ttl }
    }

    /// The number of pending expiries.
    pub fn pending_len(&self) -> (n: usize)
        ensures
            n == self.pending().len(),
    {
        self.expirations.len()
    }

    /// Answers one request received at time `now` (milliseconds). A write
    /// stores `body`; with a positive TTL it also schedules the key's removal
    /// at `now` plus the TTL.
    pub fn handle(
        &mut self,
        method: Method,
        host: Option<&[u8]>,
        path: &[u8],
        ttl_header: Option<&[u8]>,
        body: Vec<u8>,
        now: u64,
    ) -> (r: Reply)
        requires
            old(self).wf(),
        ensures
            final(self).wf(),
            final(self).default_ttl_spec() == old(self).default_ttl_spec(),
            match route_spec(
                method,
                match host {
                    Some(h) => Some(h@),
                    None => None,
                },
                path@,
                match ttl_header {
                    Some(t) => Some(t@),
                    None => None,
                },
                old(self).default_ttl_spec(),
            ) {
                RouteSpec::Get(k) => {
                    &&& final(self).contents() == old(self).contents()
                    &&& final(self).pending() == old(self).pending()
                    &&& if old(self).contents().contains_key(k) {
                        r is Found && r->Found_0@ == old(self).contents()[k]
                    } else {
                        r == Reply::NotFound
                    }
                },
                RouteSpec::Put(k, ttl) => {
                    &&& final(self).contents() == old(self).contents().insert(k, body@)
                    &&& final(self).pending() == if ttl == 0 {
                        old(self).pending()
                    } else {
                        old(self).pending().push(
                            (
                                k,
                                if now as int + ttl <= u64::MAX {
                                    (now + ttl) as u64
                                } else {
                                    u64::MAX
                                },
                            ),
                        )
                    }
                    &&& r is Stored && r->Stored_0@ == body@
                },
                RouteSpec::Delete(k) => {
                    &&& final(self).contents() == old(self).contents().remove(k)
                    &&& final(self).pending() == old(self).pending()
                    &&& r == Reply::Deleted
                },
                RouteSpec::NotAllowed => {
                    &&& final(self).contents() == old(self).contents()
                    &&& final(self).pending() == old(self).pending()
                    &&& r == Reply::NotAllowed
                },
                RouteSpec::Rejected(e) => {
                    &&& final(self).contents() == old(self).contents()
                    &&& final(self).pending() == old(self).pending()
                    &&& r == Reply::Rejected(e)
                },
            },
    {
        match route(method, host, path, ttl_header, self.default_ttl) {
            Route::Get { key } => reply_to_read(self.store.get(key.as_slice())),
            Route::Put { key, ttl_ms } => {
                let echo = crate::store::copy_bytes(body.as_slice());
                match deadline_for(now, ttl_ms) {
                    Some(deadline) => {
                        let stamp = crate::store::copy_bytes(key.as_slice());
                        self.store.put(key, body);
                        self.expirations.register(Expiration { key: stamp, deadline });
                    },
                    None => {
                        self.store.put(key, body);
                    },
                }
                Reply::Stored(echo)
            },
            Route::Delete { key } => {
                self.store.delete(key.as_slice());
                Reply::Deleted
            },
            Route::NotAllowed => Reply::NotAllowed,
            Route::Rejected(e) => Reply::Rejected(e),
        }
    }

    /// One firing of the expiry timer at time `now`: when the next pending
    /// record is due, removes it and deletes its key from the store, whatever
    /// value the key holds by then. Returns the key deleted.
    pub fn tick(&mut self, now: u64) -> (r: Option<Vec<u8>>)
        requires
            old(self).wf(),
        ensures
            final(self).wf(),
            final(self).default_ttl_spec() == old(self).default_ttl_spec(),
            (final(self).contents(), final(self).pending()) == crate::expiry::tick_spec(
                old(self).contents(),
                old(self).pending(),
                now,
            ),
            ({
                let q = old(self).pending();
                let i = crate::expiry::next_index(q);
                if q.len() > 0 && q[i].1 <= now {
                    &&& r is Some && r->0@ == q[i].0
                    &&& final(self).pending() == q.remove(i)
                    &&& final(self).contents() == old(self).contents().remove(q[i].0)
                } else {
                    &&& r is None
                    &&& final(self).pending() == q
                    &&& final(self).contents() == old(self).contents()
                }
            }),
    {
        let due = self.expirations.take_due(now);
        match due {
            Some(key) => {
                self.store.delete(key.as_slice());
                Some(key)
            },
            None => None,
        }
    }

    /// The time at which the expiry timer should next fire.
    pub fn wake_at(&self, now: u64) -> (r: u64)
        ensures
            self.pending().len() > 0 ==> r == self.pending()[crate::expiry::next_index(
                self.pending(),
            )].1,
            self.pending().len() == 0 ==> r == if now as int + crate::expiry::IDLE_WAKE_MS
                <= u64::MAX {
                (now + crate::expiry::IDLE_WAKE_MS) as u64
            } else {
                u64::MAX
            },
    {
        self.expirations.wake_at(now)
    }
}

} // verus!
