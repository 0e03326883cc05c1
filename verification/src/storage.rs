use vstd::prelude::*;
use crate::records::{DocumentProof, ProofStats, ProofView};

verus! {

/// The two disjoint key shapes of the persisted key space: one parameterized
/// key per registered document, and the single fixed key of the global
/// statistics record. No other key shapes exist.
pub enum ProofBook {
    Proof(String),
    Stats,
}

/// Model of a storage key.
pub enum KeyView {
    Proof(Seq<char>),
    Stats,
}

impl View for ProofBook {
    type V = KeyView;

    open spec fn view(&self) -> KeyView {
        match self {
            ProofBook::Proof(h) => KeyView::Proof(h@),
            ProofBook::Stats => KeyView::Stats,
        }
    }
}

/// The two record kinds a stored value can hold, matching the two key shapes.
pub enum StorageValue {
    Proof(DocumentProof),
    Stats(ProofStats),
}

/// Model of a stored value.
pub enum ValueView {
    Proof(ProofView),
    Stats(u64),
}

impl View for StorageValue {
    type V = ValueView;

    open spec fn view(&self) -> ValueView {
        match self {
            StorageValue::Proof(p) => ValueView::Proof(p@),
            StorageValue::Stats(s) => ValueView::Stats(s.total_documents),
        }
    }
}

/// Model of the storage engine: the committed key/value contents together
/// with the remaining durability window of the whole region.
pub struct StorageView {
    pub contents: Map<KeyView, ValueView>,
    pub ttl: u64,
}

/// The remaining durability window after an expiry extension: extended out
/// to `extend_to` exactly when it was below `min_remaining`.
pub open spec fn expiry_after(ttl: u64, min_remaining: u64, extend_to: u64) -> u64 {
    if ttl < min_remaining {
        extend_to
    } else {
        ttl
    }
}

/// A durable key/value mapping with explicit expiry-extension control. All
/// persisted records of the registry live here; the expiry window covers the
/// whole region as a unit, not individual keys.
pub struct InstanceStorage {
    entries: Vec<(ProofBook, StorageValue)>,
    ttl: u64,
}

spec fn entry_has_key(s: Seq<(ProofBook, StorageValue)>, k: KeyView, i: int) -> bool {
    0 <= i < s.len() && s[i].0@ == k
}

spec fn seq_has_key(s: Seq<(ProofBook, StorageValue)>, k: KeyView) -> bool {
    exists|i: int| entry_has_key(s, k, i)
}

spec fn seq_value_of(s: Seq<(ProofBook, StorageValue)>, k: KeyView) -> ValueView {
    s[choose|i: int| entry_has_key(s, k, i)].1@
}

impl View for InstanceStorage {
    type V = StorageView;

    closed spec fn view(&self) -> StorageView {
        StorageView {
            contents: Map::new(
                |k: KeyView| seq_has_key(self.entries@, k),
                |k: KeyView| seq_value_of(self.entries@, k),
            ),
            ttl: self.ttl,
        }
    }
}

/// Whether two keys address the same storage slot.
fn key_eq(a: &ProofBook, b: &ProofBook) -> (r: bool)
    ensures
        r == (a@ == b@),
{
    match (a, b) {
        (ProofBook::Proof(x), ProofBook::Proof(y)) => *x == *y,
        (ProofBook::Stats, ProofBook::Stats) => true,
        _ => false,
    }
}

impl InstanceStorage {
    /// No two entries address the same key.
    pub closed spec fn inv(&self) -> bool {
        forall|i: int, j: int|
            0 <= i < j < self.entries@.len() ==> self.entries@[i].0@ != self.entries@[j].0@
    }

    /// An empty storage region with no remaining durability window.
    pub fn new() -> (r: InstanceStorage)
        ensures
            r.inv(),
            r@.contents == Map::<KeyView, ValueView>::empty(),
            r@.ttl == 0,
    {
        let r = InstanceStorage { entries: Vec::new(), ttl: 0 };
        proof {
            assert(r@.contents =~= Map::<KeyView, ValueView>::empty());
        }
        r
    }

    /// The position of the entry addressed by `key`, if any.
    fn find_index(&self, key: &ProofBook) -> (r: Option<usize>)
        ensures
            match r {
                Some(i) => i < self.entries@.len() && self.entries@[i as int].0@ == key@,
                None => forall|i: int|
                    0 <= i < self.entries@.len() ==> self.entries@[i].0@ != key@,
            },
    {
        let mut i: usize = 0;
        while i < self.entries.len()
            invariant
                i <= self.entries@.len(),
                forall|j: int| 0 <= j < i ==> self.entries@[j].0@ != key@,
            decreases self.entries@.len() - i,
        {
            if key_eq(&self.entries[i].0, key) {
                return Some(i);
            }
            i = i + 1;
        }
        None
    }

    /// With unique keys, any two witnesses for the same key coincide.
    proof fn lemma_witness_unique(&self, k: KeyView, i: int, j: int)
        requires
            self.inv(),
            entry_has_key(self.entries@, k, i),
            entry_has_key(self.entries@, k, j),
        ensures
            i == j,
    {
        if i < j {
            assert(self.entries@[i].0@ != self.entries@[j].0@);
        } else if j < i {
            assert(self.entries@[j].0@ != self.entries@[i].0@);
        }
    }

    /// Fetch the value stored under `key`; absent keys yield nothing, with no
    /// error.
    pub fn get(&self, key: &ProofBook) -> (r: Option<&StorageValue>)
        requires
            self.inv(),
        ensures
            match r {
                Some(v) => self@.contents.contains_key(key@) && v@ == self@.contents[key@],
                None => !self@.contents.contains_key(key@),
            },
    {
        match self.find_index(key) {
            Some(i) => {
                proof {
                    assert(entry_has_key(self.entries@, key@, i as int));
                    let j = choose|j: int| entry_has_key(self.entries@, key@, j);
                    self.lemma_witness_unique(key@, i as int, j);
                }
                Some(&self.entries[i].1)
            },
            None => {
                proof {
                    assert(!seq_has_key(self.entries@, key@));
                }
                None
            },
        }
    }

    /// Store `value` under `key`, unconditionally overwriting any previous
    /// value for that key. Nothing else in the region changes.
    pub fn set(&mut self, key: ProofBook, value: StorageValue)
        requires
            old(self).inv(),
        ensures
            final(self).inv(),
            final(self)@.contents == old(self)@.contents.insert(key@, value@),
            final(self)@.ttl == old(self)@.ttl,
    {
        let ghost olds = self.entries@;
        let ghost kv = key@;
        let ghost vv = value@;
        let found = self.find_index(&key);
        match found {
            Some(i) => {
                self.entries.set(i, (key, value));
                proof {
                    let news = self.entries@;
                    assert(forall|m: int| 0 <= m < news.len() ==> news[m].0@ == olds[m].0@);
                    assert(self.inv());
                    self.lemma_contents_updated(olds, kv, vv, i as int);
                }
            },
            None => {
                self.entries.push((key, value));
                proof {
                    let news = self.entries@;
                    assert(forall|m: int| 0 <= m < olds.len() ==> news[m] == olds[m]);
                    assert(news[olds.len() as int].0@ == kv);
                    assert(self.inv());
                    self.lemma_contents_pushed(olds, kv, vv);
                }
            },
        }
    }

    /// After overwriting the entry at `i`, whose key was already `k`, the
    /// contents are the old contents with `k` remapped.
    proof fn lemma_contents_updated(
        &self,
        olds: Seq<(ProofBook, StorageValue)>,
        k: KeyView,
        v: ValueView,
        i: int,
    )
        requires
            self.inv(),
            0 <= i < olds.len(),
            olds[i].0@ == k,
            self.entries@.len() == olds.len(),
            self.entries@[i].0@ == k,
            self.entries@[i].1@ == v,
            forall|m: int| 0 <= m < olds.len() && m != i ==> self.entries@[m] == olds[m],
            forall|a: int, b: int| 0 <= a < b < olds.len() ==> olds[a].0@ != olds[b].0@,
        ensures
            self@.contents == Map::new(
                |k2: KeyView| seq_has_key(olds, k2),
                |k2: KeyView| seq_value_of(olds, k2),
            ).insert(k, v),
    {
        let news = self.entries@;
        let oldmap = Map::new(
            |k2: KeyView| seq_has_key(olds, k2),
            |k2: KeyView| seq_value_of(olds, k2),
        );
        assert(forall|m: int| 0 <= m < news.len() ==> news[m].0@ == olds[m].0@);
        assert forall|k2: KeyView| seq_has_key(news, k2) <==> seq_has_key(olds, k2) by {
            if seq_has_key(news, k2) {
                let j = choose|j: int| entry_has_key(news, k2, j);
                assert(entry_has_key(olds, k2, j));
            }
            if seq_has_key(olds, k2) {
                let j = choose|j: int| entry_has_key(olds, k2, j);
                assert(entry_has_key(news, k2, j));
            }
        }
        assert(seq_has_key(olds, k)) by {
            assert(entry_has_key(olds, k, i));
        }
        assert forall|k2: KeyView| seq_has_key(news, k2) implies seq_value_of(news, k2)
            == oldmap.insert(k, v)[k2] by {
            let j = choose|j: int| entry_has_key(news, k2, j);
            if k2 == k {
                self.lemma_witness_unique(k2, j, i);
                assert(seq_value_of(news, k2) == v);
            } else {
                assert(j != i);
                assert(news[j] == olds[j]);
                let j2 = choose|j2: int| entry_has_key(olds, k2, j2);
                if j != j2 {
                    if j < j2 {
                        assert(olds[j].0@ != olds[j2].0@);
                    } else {
                        assert(olds[j2].0@ != olds[j].0@);
                    }
                }
                assert(seq_value_of(news, k2) == olds[j2].1@);
            }
        }
        assert(self@.contents =~= oldmap.insert(k, v));
    }

    /// After appending an entry with a key absent before, the contents are
    /// the old contents with that key added.
    proof fn lemma_contents_pushed(
        &self,
        olds: Seq<(ProofBook, StorageValue)>,
        k: KeyView,
        v: ValueView,
    )
        requires
            self.inv(),
            self.entries@.len() == olds.len() + 1,
            self.entries@[olds.len() as int].0@ == k,
            self.entries@[olds.len() as int].1@ == v,
            forall|m: int| 0 <= m < olds.len() ==> self.entries@[m] == olds[m],
            forall|m: int| 0 <= m < olds.len() ==> olds[m].0@ != k,
            forall|a: int, b: int| 0 <= a < b < olds.len() ==> olds[a].0@ != olds[b].0@,
        ensures
            self@.contents == Map::new(
                |k2: KeyView| seq_has_key(olds, k2),
                |k2: KeyView| seq_value_of(olds, k2),
            ).insert(k, v),
    {
        let news = self.entries@;
        let n = olds.len() as int;
        let oldmap = Map::new(
            |k2: KeyView| seq_has_key(olds, k2),
            |k2: KeyView| seq_value_of(olds, k2),
        );
        assert forall|k2: KeyView| seq_has_key(news, k2) <==> (k2 == k || seq_has_key(olds, k2)) by {
            if seq_has_key(news, k2) {
                let j = choose|j: int| entry_has_key(news, k2, j);
                if j < n {
                    assert(entry_has_key(olds, k2, j));
                } else {
                    assert(k2 == k);
                }
            }
            if k2 == k {
                assert(entry_has_key(news, k2, n));
            }
            if seq_has_key(olds, k2) {
                let j = choose|j: int| entry_has_key(olds, k2, j);
                assert(entry_has_key(news, k2, j));
            }
        }
        assert forall|k2: KeyView| seq_has_key(news, k2) implies seq_value_of(news, k2)
            == oldmap.insert(k, v)[k2] by {
            let j = choose|j: int| entry_has_key(news, k2, j);
            if k2 == k {
                self.lemma_witness_unique(k2, j, n);
                assert(seq_value_of(news, k2) == v);
            } else {
                assert(j < n);
                assert(news[j] == olds[j]);
                let j2 = choose|j2: int| entry_has_key(olds, k2, j2);
                if j != j2 {
                    if j < j2 {
                        assert(olds[j].0@ != olds[j2].0@);
                    } else {
                        assert(olds[j2].0@ != olds[j].0@);
                    }
                }
                assert(seq_value_of(news, k2) == olds[j2].1@);
            }
        }
        assert(self@.contents =~= oldmap.insert(k, v));
    }

    /// The remaining durability window of the whole region.
    pub fn remaining_expiry(&self) -> (r: u64)
        ensures
            r == self@.ttl,
    {
        self.ttl
    }

    /// Guarantee that this storage region will not be reclaimed for at least
    /// `min_remaining` further time units: when the remaining window is below
    /// that threshold it is extended out to `extend_to`. The extension covers
    /// the entire region as a unit; no data is altered.
    pub fn extend_expiry(&mut self, min_remaining: u64, extend_to: u64)
        requires
            old(self).inv(),
            min_remaining <= extend_to,
        ensures
            final(self).inv(),
            final(self)@.contents == old(self)@.contents,
            final(self)@.ttl == expiry_after(old(self)@.ttl, min_remaining, extend_to),
    {
        if self.ttl < min_remaining {
            self.ttl = extend_to;
        }
    }
}

} // verus!
