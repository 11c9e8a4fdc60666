use vstd::prelude::*;

verus! {

/// How long the scheduler sleeps when nothing is pending, in milliseconds.
pub const IDLE_WAKE_MS: u64 = 86_400_000;

/// Byte strings in lexicographic order: `a` comes no later than `b`.
pub open spec fn bytes_le(a: Seq<u8>, b: Seq<u8>) -> bool
    decreases a.len(),
{
    if a.len() == 0 {
        true
    } else if b.len() == 0 {
        false
    } else if a[0] != b[0] {
        a[0] < b[0]
    } else {
        bytes_le(a.drop_first(), b.drop_first())
    }
}

/// A pending expiry as the scheduler sees it: the key and its deadline.
pub type Pending = (Seq<u8>, u64);

/// `a` is processed no later than `b`: earlier deadline first, then smaller key.
pub open spec fn runs_before(a: Pending, b: Pending) -> bool {
    a.1 < b.1 || (a.1 == b.1 && bytes_le(a.0, b.0))
}

/// Index of the record that is processed next: the first-ranked one, the
/// earliest position among equals.
pub open spec fn next_index(q: Seq<Pending>) -> int
    decreases q.len(),
{
    if q.len() <= 1 {
        0
    } else {
        let j = next_index(q.drop_last());
        if runs_before(q[j], q.last()) {
            j
        } else {
            q.len() - 1
        }
    }
}

/// Some record of `q` has reached its deadline at time `now`.
pub open spec fn any_due(q: Seq<Pending>, now: u64) -> bool {
    exists|i: int| 0 <= i < q.len() && #[trigger] q[i].1 <= now
}

/// One firing of the expiry timer at `now` on a store `m` and pending records
/// `q`: the next record, if due, leaves the queue and its key leaves the store.
pub open spec fn tick_spec(m: Map<Seq<u8>, Seq<u8>>, q: Seq<Pending>, now: u64) -> (
    Map<Seq<u8>, Seq<u8>>,
    Seq<Pending>,
) {
    let i = next_index(q);
    if q.len() > 0 && q[i].1 <= now {
        (m.remove(q[i].0), q.remove(i))
    } else {
        (m, q)
    }
}

/// `n` firings of the expiry timer, all at time `now`.
pub open spec fn ticks_spec(m: Map<Seq<u8>, Seq<u8>>, q: Seq<Pending>, now: u64, n: nat) -> (
    Map<Seq<u8>, Seq<u8>>,
    Seq<Pending>,
)
    decreases n,
{
    if n == 0 {
        (m, q)
    } else {
        let (m1, q1) = tick_spec(m, q, now);
        ticks_spec(m1, q1, now, (n - 1) as nat)
    }
}

/// Lexicographic comparison of two byte strings.
pub fn bytes_less_eq(a: &[u8], b: &[u8]) -> (r: bool)
    ensures
        r == bytes_le(a@, b@),
{
    let mut i: usize = 0;
    assert(a@.skip(0) =~= a@ && b@.skip(0) =~= b@);
    while i < a.len() && i < b.len()
        invariant
            0 <= i <= a@.len(),
            i <= b@.len(),
            bytes_le(a@, b@) == bytes_le(a@.skip(i as int), b@.skip(i as int)),
        decreases a@.len() - i,
    {
        if a[i] != b[i] {
            return a[i] < b[i];
        }
        assert(a@.skip(i as int).drop_first() =~= a@.skip(i + 1));
        assert(b@.skip(i as int).drop_first() =~= b@.skip(i + 1));
        i = i + 1;
    }
    i == a.len()
}

/// A request to delete `key` once the monotonic clock reaches `deadline`
/// (milliseconds).
pub struct Expiration {
    pub key: Vec<u8>,
    pub deadline: u64,
}

impl View for Expiration {
    type V = Pending;

    open spec fn view(&self) -> Pending {
        (self.key@, self.deadline)
    }
}

/// The scheduler's pending expiries. Records are kept in arrival order; the
/// next one to run is chosen by deadline, then key.
pub struct Expirations {
    pending: Vec<Expiration>,
}

impl View for Expirations {
    type V = Seq<Pending>;

    closed spec fn view(&self) -> Seq<Pending> {
        self.pending@.map_values(|e: Expiration| e@)
    }
}

impl Expirations {
    /// Nothing pending.
    pub fn new() -> (r: Expirations)
        ensures
            r@ == Seq::<Pending>::empty(),
    {
        let r = Expirations { pending: Vec::new() };
        assert(r@ =~= Seq::<Pending>::empty());
        r
    }

    /// The number of pending records, stale ones included.
    pub fn len(&self) -> (n: usize)
        ensures
            n == self@.len(),
    {
        self.pending.len()
    }

    /// Takes over a new record; nothing is deleted yet.
    pub fn register(&mut self, e: Expiration)
        ensures
            final(self)@ == old(self)@.push(e@),
    {
        self.pending.push(e);
        assert(self@ =~= old(self)@.push(e@));
    }

    /// Position of the record that runs next.
    fn next_position(&self) -> (i: usize)
        requires
            self@.len() > 0,
        ensures
            i == next_index(self@),
            i < self@.len(),
    {
        let mut best: usize = 0;
        let mut i: usize = 1;
        while i < self.pending.len()
            invariant
                1 <= i <= self@.len(),
                self@.len() == self.pending@.len(),
                best == next_index(self@.subrange(0, i as int)),
                best < i,
            decreases self@.len() - i,
        {
            let ghost q = self@.subrange(0, i + 1);
            assert(q.drop_last() =~= self@.subrange(0, i as int));
            let b = &self.pending[best];
            let c = &self.pending[i];
            let keep = b.deadline < c.deadline || (b.deadline == c.deadline
                && bytes_less_eq(b.key.as_slice(), c.key.as_slice()));
            assert(self@[best as int] == b@ && self@[i as int] == c@);
            if !keep {
                best = i;
            }
            i = i + 1;
        }
        assert(self@.subrange(0, self@.len() as int) =~= self@);
        best
    }

    /// The deadline of the record that runs next, or `None` when nothing is pending.
    pub fn earliest(&self) -> (r: Option<u64>)
        ensures
            self@.len() == 0 ==> r is None,
            self@.len() > 0 ==> r == Some(self@[next_index(self@)].1),
    {
        if self.pending.len() == 0 {
            None
        } else {
            let i = self.next_position();
            Some(self.pending[i].deadline)
        }
    }

    /// The time at which the scheduler should next wake: the earliest pending
    /// deadline, or a day after `now` when nothing is pending.
    pub fn wake_at(&self, now: u64) -> (r: u64)
        ensures
            self@.len() > 0 ==> r == self@[next_index(self@)].1,
            self@.len() == 0 ==> r == if now as int + IDLE_WAKE_MS <= u64::MAX {
                (now + IDLE_WAKE_MS) as u64
            } else {
                u64::MAX
            },
    {
        match self.earliest() {
            Some(d) => d,
            None => now.saturating_add(IDLE_WAKE_MS),
        }
    }

    /// One timer firing at time `now`: when the next record's deadline has
    /// passed, removes that record and returns its key, whose entry is then to
    /// be deleted. At most one record is taken per call.
    pub fn take_due(&mut self, now: u64) -> (r: Option<Vec<u8>>)
        ensures
            ({
                let q = old(self)@;
                if q.len() > 0 && q[next_index(q)].1 <= now {
                    &&& r is Some
                    &&& r->0@ == q[next_index(q)].0
                    &&& final(self)@ == q.remove(next_index(q))
                } else {
                    &&& r is None
                    &&& final(self)@ == q
                }
            }),
    {
        if self.pending.len() == 0 {
            return None;
        }
        let i = self.next_position();
        if self.pending[i].deadline <= now {
            let e = self.pending.remove(i);
            assert(self@ =~= old(self)@.remove(i as int));
            Some(e.key)
        } else {
            None
        }
    }
}

/// The record that runs next has the smallest deadline of all pending ones.
pub proof fn lemma_next_has_min_deadline(q: Seq<Pending>, i: int)
    requires
        0 <= i < q.len(),
    ensures
        0 <= next_index(q) < q.len(),
        q[next_index(q)].1 <= q[i].1,
    decreases q.len(),
{
    if q.len() > 1 {
        let p = q.drop_last();
        if i < q.len() - 1 {
            lemma_next_has_min_deadline(p, i);
        } else {
            lemma_next_has_min_deadline(p, 0);
        }
    }
}

/// While any record is due, a timer firing takes the next record, which is due.
pub proof fn lemma_due_record_runs(q: Seq<Pending>, now: u64)
    requires
        any_due(q, now),
    ensures
        q.len() > 0,
        q[next_index(q)].1 <= now,
{
    let i = choose|i: int| 0 <= i < q.len() && #[trigger] q[i].1 <= now;
    lemma_next_has_min_deadline(q, i);
}

} // verus!
