use vstd::prelude::*;

verus! {

/// Byte-for-byte equality of two byte strings.
pub fn same_bytes(a: &[u8], b: &[u8]) -> (r: bool)
    ensures
        r == (a@ == b@),
{
    if a.len() != b.len() {
        return false;
    }
    let mut i: usize = 0;
    while i < a.len()
        invariant
            a@.len() == b@.len(),
            0 <= i <= a@.len(),
            forall|j: int| 0 <= j < i ==> a@[j] == b@[j],
        decreases a@.len() - i,
    {
        if a[i] != b[i] {
            return false;
        }
        i = i + 1;
    }
    assert(a@ =~= b@);
    true
}

/// A copy of a byte string.
pub fn copy_bytes(a: &[u8]) -> (r: Vec<u8>)
    ensures
        r@ == a@,
{
    let mut r: Vec<u8> = Vec::new();
    let mut i: usize = 0;
    while i < a.len()
        invariant
            0 <= i <= a@.len(),
            r@ == a@.subrange(0, i as int),
        decreases a@.len() - i,
    {
        r.push(a[i]);
        i = i + 1;
        assert(r@ =~= a@.subrange(0, i as int));
    }
    assert(a@.subrange(0, a@.len() as int) =~= a@);
    r
}

/// The key-value mapping shared by request handling and expiry.
///
/// Each key occurs in at most one entry; the abstract value is the map from
/// each key to the value most recently written under it.
pub struct Store {
    entries: Vec<(Vec<u8>, Vec<u8>)>,
    contents: Ghost<Map<Seq<u8>, Seq<u8>>>,
}

impl View for Store {
    type V = Map<Seq<u8>, Seq<u8>>;

    closed spec fn view(&self) -> Map<Seq<u8>, Seq<u8>> {
        self.contents@
    }
}

impl Store {
    /// The entries hold distinct keys and agree with the abstract map.
    pub closed spec fn wf(&self) -> bool {
        &&& forall|i: int, j: int|
            0 <= i < j < self.entries@.len() ==> self.entries@[i].0@ != self.entries@[j].0@
        &&& forall|i: int|
            0 <= i < self.entries@.len() ==> {
                &&& self.contents@.contains_key(#[trigger] self.entries@[i].0@)
                &&& self.contents@[self.entries@[i].0@] == self.entries@[i].1@
            }
        &&& forall|k: Seq<u8>| #[trigger]
            self.contents@.contains_key(k) ==> exists|i: int|
                0 <= i < self.entries@.len() && self.entries@[i].0@ == k
    }

    /// An empty store.
    pub fn new() -> (s: Store)
        ensures
            s.wf(),
            s@ == Map::<Seq<u8>, Seq<u8>>::empty(),
    {
        Store { entries: Vec::new(), contents: Ghost(Map::empty()) }
    }

    /// Position of the entry holding `key`, if any.
    fn find(&self, key: &[u8]) -> (r: Option<usize>)
        requires
            self.wf(),
        ensures
            match r {
                Some(i) => i < self.entries@.len() && self.entries@[i as int].0@ == key@,
                None => !self@.contains_key(key@),
            },
    {
        let mut i: usize = 0;
        while i < self.entries.len()
            invariant
                self.wf(),
                0 <= i <= self.entries@.len(),
                forall|j: int| 0 <= j < i ==> self.entries@[j].0@ != key@,
            decreases self.entries@.len() - i,
        {
            if same_bytes(self.entries[i].0.as_slice(), key) {
                return Some(i);
            }
            i = i + 1;
        }
        None
    }

    /// A copy of the value stored under `key`, or `None` when the key is absent.
    pub fn get(&self, key: &[u8]) -> (r: Option<Vec<u8>>)
        requires
            self.wf(),
        ensures
            match r {
                Some(v) => self@.contains_key(key@) && v@ == self@[key@],
                None => !self@.contains_key(key@),
            },
    {
        match self.find(key) {
            Some(i) => Some(copy_bytes(self.entries[i].1.as_slice())),
            None => None,
        }
    }

    /// Stores `value` under `key`, replacing any earlier value.
    pub fn put(&mut self, key: Vec<u8>, value: Vec<u8>)
        requires
            old(self).wf(),
        ensures
            final(self).wf(),
            final(self)@ == old(self)@.insert(key@, value@),
    {
        let ghost k = key@;
        let ghost v = value@;
        match self.find(key.as_slice()) {
            Some(i) => {
                self.entries.set(i, (key, value));
                self.contents = Ghost(self.contents@.insert(k, v));
                assert forall|k2: Seq<u8>| #[trigger]
                    self.contents@.contains_key(k2) implies exists|j: int|
                        0 <= j < self.entries@.len() && self.entries@[j].0@ == k2 by {
                    if k2 != k {
                        let j = choose|j: int|
                            0 <= j < old(self).entries@.len() && old(self).entries@[j].0@ == k2;
                        assert(self.entries@[j].0@ == k2);
                    } else {
                        assert(self.entries@[i as int].0@ == k2);
                    }
                }
            },
            None => {
                let ghost n = self.entries@.len();
                self.entries.push((key, value));
                self.contents = Ghost(self.contents@.insert(k, v));
                assert(self.entries@[n as int].0@ == k);
                assert forall|k2: Seq<u8>| #[trigger]
                    self.contents@.contains_key(k2) implies exists|j: int|
                        0 <= j < self.entries@.len() && self.entries@[j].0@ == k2 by {
                    if k2 != k {
                        let j = choose|j: int|
                            0 <= j < old(self).entries@.len() && old(self).entries@[j].0@ == k2;
                        assert(self.entries@[j].0@ == k2);
                    } else {
                        assert(self.entries@[n as int].0@ == k2);
                    }
                }
            },
        }
    }

    /// Removes `key` and its value; a key that is absent leaves the store as it is.
    pub fn delete(&mut self, key: &[u8])
        requires
            old(self).wf(),
        ensures
            final(self).wf(),
            final(self)@ == old(self)@.remove(key@),
    {
        match self.find(key) {
            Some(i) => {
                let ghost k = key@;
                let ghost old_entries = self.entries@;
                let ghost last = (old_entries.len() - 1) as int;
                let _ = self.entries.swap_remove(i);
                self.contents = Ghost(self.contents@.remove(k));
                assert forall|j: int| 0 <= j < self.entries@.len() implies
                    self.entries@[j] == (if j == i { old_entries[last] } else { old_entries[j] }) by {}
                assert forall|k2: Seq<u8>| #[trigger]
                    self.contents@.contains_key(k2) implies exists|j: int|
                        0 <= j < self.entries@.len() && self.entries@[j].0@ == k2 by {
                    let j = choose|j: int|
                        0 <= j < old_entries.len() && old_entries[j].0@ == k2;
                    if j == last {
                        assert(self.entries@[i as int].0@ == k2);
                    } else {
                        assert(self.entries@[j].0@ == k2);
                    }
                }
            },
            None => {
                assert(self.contents@.remove(key@) =~= self.contents@);
            },
        }
    }
}

} // verus!
