use vstd::prelude::*;

use crate::expiry::{
    any_due, lemma_due_record_runs, next_index, tick_spec, ticks_spec, Pending,
};

verus! {

/// A write to the store, on plain values.
pub enum StoreWrite {
    Put(Seq<u8>, Seq<u8>),
    Delete(Seq<u8>),
}

/// The store after one write: `Store::put` inserts, `Store::delete` removes.
pub open spec fn apply_write(m: Map<Seq<u8>, Seq<u8>>, w: StoreWrite) -> Map<Seq<u8>, Seq<u8>> {
    match w {
        StoreWrite::Put(k, v) => m.insert(k, v),
        StoreWrite::Delete(k) => m.remove(k),
    }
}

/// The store after a history of writes, starting from `Store::new`.
pub open spec fn replay(ws: Seq<StoreWrite>) -> Map<Seq<u8>, Seq<u8>>
    decreases ws.len(),
{
    if ws.len() == 0 {
        Map::empty()
    } else {
        apply_write(replay(ws.drop_last()), ws.last())
    }
}

/// A key that no write in the history ever put is absent.
pub proof fn law_unwritten_key_absent(ws: Seq<StoreWrite>, k: Seq<u8>)
    requires
        forall|i: int| 0 <= i < ws.len() ==> !(#[trigger] ws[i] is Put && ws[i]->Put_0 == k),
    ensures
        !replay(ws).contains_key(k),
    decreases ws.len(),
{
    if ws.len() > 0 {
        let p = ws.drop_last();
        assert forall|i: int| 0 <= i < p.len() implies !(#[trigger] p[i] is Put && p[i]->Put_0
            == k) by {
            assert(p[i] == ws[i]);
        }
        law_unwritten_key_absent(p, k);
        assert(ws.last() == ws[ws.len() - 1]);
    }
}

/// A read right after a write returns exactly the bytes written.
pub proof fn law_put_then_get(m: Map<Seq<u8>, Seq<u8>>, k: Seq<u8>, v: Seq<u8>)
    ensures
        apply_write(m, StoreWrite::Put(k, v)).contains_key(k),
        apply_write(m, StoreWrite::Put(k, v))[k] == v,
{
}

/// Of two writes to one key, the later one is read; writing the same value
/// twice leaves the store as one write does.
pub proof fn law_last_write_wins(m: Map<Seq<u8>, Seq<u8>>, k: Seq<u8>, v1: Seq<u8>, v2: Seq<u8>)
    ensures
        apply_write(apply_write(m, StoreWrite::Put(k, v1)), StoreWrite::Put(k, v2))[k] == v2,
        apply_write(apply_write(m, StoreWrite::Put(k, v2)), StoreWrite::Put(k, v2))
            == apply_write(m, StoreWrite::Put(k, v2)),
{
    assert(apply_write(apply_write(m, StoreWrite::Put(k, v2)), StoreWrite::Put(k, v2))
        =~= apply_write(m, StoreWrite::Put(k, v2)));
}

/// After a delete the key is absent, whatever the store held; deleting again
/// changes nothing.
pub proof fn law_delete_then_absent(m: Map<Seq<u8>, Seq<u8>>, k: Seq<u8>)
    ensures
        !apply_write(m, StoreWrite::Delete(k)).contains_key(k),
        apply_write(apply_write(m, StoreWrite::Delete(k)), StoreWrite::Delete(k))
            == apply_write(m, StoreWrite::Delete(k)),
{
    assert(apply_write(apply_write(m, StoreWrite::Delete(k)), StoreWrite::Delete(k))
        =~= apply_write(m, StoreWrite::Delete(k)));
}

/// Every value that a read can return was written whole by some put of that
/// key: writes are never seen in part.
pub proof fn law_reads_see_whole_writes(ws: Seq<StoreWrite>, k: Seq<u8>)
    requires
        replay(ws).contains_key(k),
    ensures
        exists|i: int|
            0 <= i < ws.len() && #[trigger] ws[i] == StoreWrite::Put(k, replay(ws)[k]),
    decreases ws.len(),
{
    let p = ws.drop_last();
    let n = ws.len() - 1;
    assert(ws.len() > 0);
    assert(ws.last() == ws[n]);
    match ws[n] {
        StoreWrite::Put(k2, v) => {
            if k2 == k {
                assert(ws[n] == StoreWrite::Put(k, replay(ws)[k]));
            } else {
                law_reads_see_whole_writes(p, k);
                let i = choose|i: int|
                    0 <= i < p.len() && #[trigger] p[i] == StoreWrite::Put(k, replay(p)[k]);
                assert(ws[i] == p[i]);
            }
        },
        StoreWrite::Delete(k2) => {
            law_reads_see_whole_writes(p, k);
            let i = choose|i: int|
                0 <= i < p.len() && #[trigger] p[i] == StoreWrite::Put(k, replay(p)[k]);
            assert(ws[i] == p[i]);
        },
    }
}

/// A key none of whose pending records is due at `now` keeps its value
/// through any number of timer firings at `now`: nothing expires before its
/// deadline.
pub proof fn law_no_expiry_before_deadline(
    m: Map<Seq<u8>, Seq<u8>>,
    q: Seq<Pending>,
    k: Seq<u8>,
    now: u64,
    n: nat,
)
    requires
        forall|i: int| 0 <= i < q.len() && (#[trigger] q[i]).0 == k ==> q[i].1 > now,
    ensures
        ticks_spec(m, q, now, n).0.contains_key(k) == m.contains_key(k),
        m.contains_key(k) ==> ticks_spec(m, q, now, n).0[k] == m[k],
    decreases n,
{
    if n > 0 {
        let (m1, q1) = tick_spec(m, q, now);
        if q.len() > 0 {
            let j = next_index(q);
            crate::expiry::lemma_next_has_min_deadline(q, 0);
            assert forall|i: int| 0 <= i < q1.len() && (#[trigger] q1[i]).0 == k implies q1[i].1
                > now by {
                if q[j].1 <= now {
                    if i < j {
                        assert(q1[i] == q[i]);
                    } else {
                        assert(q1[i] == q[i + 1]);
                    }
                }
            }
        }
        law_no_expiry_before_deadline(m1, q1, k, now, (n - 1) as nat);
    }
}

proof fn lemma_ticks_keep_absent(
    m: Map<Seq<u8>, Seq<u8>>,
    q: Seq<Pending>,
    k: Seq<u8>,
    now: u64,
    n: nat,
)
    requires
        !m.contains_key(k),
    ensures
        !ticks_spec(m, q, now, n).0.contains_key(k),
    decreases n,
{
    if n > 0 {
        let (m1, q1) = tick_spec(m, q, now);
        lemma_ticks_keep_absent(m1, q1, k, now, (n - 1) as nat);
    }
}

/// A record whose deadline has passed takes effect: once the timer has fired
/// as often as there are pending records, its key is gone from the store.
pub proof fn law_due_record_expires(
    m: Map<Seq<u8>, Seq<u8>>,
    q: Seq<Pending>,
    i: int,
    now: u64,
)
    requires
        0 <= i < q.len(),
        q[i].1 <= now,
    ensures
        !ticks_spec(m, q, now, q.len()).0.contains_key(q[i].0),
    decreases q.len(),
{
    let k = q[i].0;
    assert(any_due(q, now));
    lemma_due_record_runs(q, now);
    crate::expiry::lemma_next_has_min_deadline(q, i);
    let j = next_index(q);
    let m1 = m.remove(q[j].0);
    let q1 = q.remove(j);
    assert(tick_spec(m, q, now) == (m1, q1));
    assert(ticks_spec(m, q, now, q.len()) == ticks_spec(m1, q1, now, (q.len() - 1) as nat));
    if q[j].0 == k {
        lemma_ticks_keep_absent(m1, q1, k, now, (q.len() - 1) as nat);
    } else {
        let i1 = if i < j { i } else { i - 1 };
        assert(q1[i1] == q[i]);
        law_due_record_expires(m1, q1, i1, now);
    }
}

/// A key with no pending record keeps its value through any number of timer
/// firings, at any time: a write with no TTL never expires unless deleted.
pub proof fn law_unscheduled_key_kept(
    m: Map<Seq<u8>, Seq<u8>>,
    q: Seq<Pending>,
    k: Seq<u8>,
    now: u64,
    n: nat,
)
    requires
        forall|i: int| 0 <= i < q.len() ==> (#[trigger] q[i]).0 != k,
    ensures
        ticks_spec(m, q, now, n).0.contains_key(k) == m.contains_key(k),
        m.contains_key(k) ==> ticks_spec(m, q, now, n).0[k] == m[k],
{
    law_no_expiry_before_deadline(m, q, k, now, n);
}

/// Overwriting a key does not cancel an expiry registered before: when that
/// record comes due, the key is deleted, whatever value it holds by then.
pub proof fn law_overwrite_keeps_earlier_expiry(
    m: Map<Seq<u8>, Seq<u8>>,
    q: Seq<Pending>,
    v: Seq<u8>,
    now: u64,
)
    requires
        q.len() > 0,
        q[next_index(q)].1 <= now,
    ensures
        !tick_spec(apply_write(m, StoreWrite::Put(q[next_index(q)].0, v)), q, now).0.contains_key(
            q[next_index(q)].0,
        ),
{
}

} // verus!
