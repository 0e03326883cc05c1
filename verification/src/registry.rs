use vstd::prelude::*;
use crate::records::{DocumentProof, ProofStats, ProofView, not_found_record, sentinel_proof};
use crate::storage::{InstanceStorage, KeyView, ProofBook, StorageValue, ValueView, expiry_after};

verus! {

/// Rejected registration: the hash is already recorded. The host maps this
/// to a whole-invocation abort, discarding all pending writes.
#[derive(Clone, Copy, Debug, PartialEq, Eq, Structural)]
pub struct DuplicateRegistration;

/// Durability policy applied on every successful registration: whenever the
/// remaining window of the instance region is below this many ledger time
/// units, it is extended back out to the same target.
pub const TTL_EXTEND_THRESHOLD: u64 = 17280;

/// Target the durability window is extended out to when below the threshold.
pub const TTL_EXTEND_TARGET: u64 = 17280;

/// Model of the whole registry: the registered documents keyed by content
/// hash, the running total of registrations, and the remaining durability
/// window of the storage region.
#[verifier::ext_equal]
pub struct RegistryView {
    pub proofs: Map<Seq<char>, ProofView>,
    pub total: u64,
    pub ttl: u64,
}

/// A registration of `doc_hash` is accepted exactly when the hash has never
/// been registered before.
pub open spec fn register_accepts(reg: RegistryView, doc_hash: Seq<char>) -> bool {
    !reg.proofs.dom().contains(doc_hash)
}

/// The state after a successful registration: one new record carrying the
/// submitted fields and the registration time, the total one higher, and the
/// durability window extended by the fixed policy.
pub open spec fn register_result(
    reg: RegistryView,
    doc_hash: Seq<char>,
    owner: Seq<char>,
    description: Seq<char>,
    now: u64,
) -> RegistryView {
    RegistryView {
        proofs: reg.proofs.insert(
            doc_hash,
            ProofView { doc_hash, owner, timestamp: now, description },
        ),
        total: (reg.total + 1) as u64,
        ttl: expiry_after(reg.ttl, TTL_EXTEND_THRESHOLD, TTL_EXTEND_TARGET),
    }
}

/// What a lookup returns: the stored record when the hash is registered, and
/// the reserved sentinel record otherwise.
pub open spec fn verify_result(reg: RegistryView, doc_hash: Seq<char>) -> ProofView {
    if reg.proofs.dom().contains(doc_hash) {
        reg.proofs[doc_hash]
    } else {
        sentinel_proof()
    }
}

/// The registry invariant, seen at the model level: the set of registered
/// hashes is finite, the recorded total equals its size, and every record
/// carries its own hash and a non-zero registration timestamp.
pub open spec fn view_inv(reg: RegistryView) -> bool {
    &&& reg.proofs.dom().finite()
    &&& reg.total == reg.proofs.dom().len()
    &&& forall|h: Seq<char>| #[trigger]
        reg.proofs.dom().contains(h) ==> reg.proofs[h].timestamp != 0 && reg.proofs[h].doc_hash
            == h
}

/// The document registry: one proof record per registered hash and the
/// single statistics record, all persisted in one instance storage region.
pub struct ProofOfExistenceContract {
    storage: InstanceStorage,
}

/// The registered record held in a stored value, where one is held.
pub open spec fn proof_view_of(v: ValueView) -> ProofView {
    match v {
        ValueView::Proof(p) => p,
        ValueView::Stats(_) => arbitrary(),
    }
}

/// The recorded running total: zero until the statistics record is first
/// written.
pub open spec fn stats_total(c: Map<KeyView, ValueView>) -> u64 {
    if c.contains_key(KeyView::Stats) {
        match c[KeyView::Stats] {
            ValueView::Stats(t) => t,
            ValueView::Proof(_) => arbitrary(),
        }
    } else {
        0
    }
}

impl View for ProofOfExistenceContract {
    type V = RegistryView;

    closed spec fn view(&self) -> RegistryView {
        RegistryView {
            proofs: Map::new(
                |h: Seq<char>| self.storage@.contents.contains_key(KeyView::Proof(h)),
                |h: Seq<char>| proof_view_of(self.storage@.contents[KeyView::Proof(h)]),
            ),
            total: stats_total(self.storage@.contents),
            ttl: self.storage@.ttl,
        }
    }
}

impl ProofOfExistenceContract {
    /// Well-formedness: storage keys are unique, every proof key holds a
    /// record for exactly its own hash with a non-zero timestamp, the
    /// statistics key holds a statistics record, and the recorded total
    /// equals the number of registered hashes.
    pub closed spec fn inv(&self) -> bool {
        &&& self.storage.inv()
        &&& forall|h: Seq<char>| #[trigger]
            self.storage@.contents.contains_key(KeyView::Proof(h))
                ==> (self.storage@.contents[KeyView::Proof(h)] matches ValueView::Proof(p)
                && p.doc_hash == h && p.timestamp != 0)
        &&& (self.storage@.contents.contains_key(KeyView::Stats)
            ==> (self.storage@.contents[KeyView::Stats] matches ValueView::Stats(t)))
        &&& view_inv(self@)
    }

    /// Everything the invariant states at the model level.
    pub proof fn lemma_view_inv(&self)
        requires
            self.inv(),
        ensures
            view_inv(self@),
    {
    }

    /// A fresh registry: nothing registered, the total zero, no durability
    /// window yet.
    pub fn new() -> (r: ProofOfExistenceContract)
        ensures
            r.inv(),
            r@.total == 0,
            r@.ttl == 0,
            forall|h: Seq<char>| !r@.proofs.dom().contains(h),
    {
        let r = ProofOfExistenceContract { storage: InstanceStorage::new() };
        proof {
            assert(r@.proofs.dom() =~= Set::<Seq<char>>::empty());
        }
        r
    }

    /// Decision core of one registration attempt, over plain values the host
    /// has already fetched: the duplicate guard, the construction of the new
    /// record from the inputs and the ledger time, and the counter increment.
    /// A record with a non-zero timestamp counts as already registered;
    /// timestamp zero is the reserved absence sentinel.
    pub fn plan_registration(
        existing: Option<&DocumentProof>,
        stats: &ProofStats,
        doc_hash: String,
        owner: String,
        description: String,
        now: u64,
    ) -> (r: Result<(DocumentProof, ProofStats), DuplicateRegistration>)
        requires
            now != 0,
            stats.total_documents < u64::MAX,
        ensures
            (existing matches Some(p) && p.timestamp != 0) <==> r matches Err(_),
            r matches Ok(pair) ==> pair.0@ == (ProofView {
                doc_hash: doc_hash@,
                owner: owner@,
                timestamp: now,
                description: description@,
            }) && pair.1.total_documents == stats.total_documents + 1,
    {
        let already = match existing {
            Some(p) => p.timestamp != 0,
            None => false,
        };
        if already {
            Err(DuplicateRegistration)
        } else {
            let proof_record = DocumentProof { doc_hash, owner, timestamp: now, description };
            let new_stats = ProofStats { total_documents: stats.total_documents + 1 };
            Ok((proof_record, new_stats))
        }
    }

    /// Register a new document proof under its hash, as one atomic unit:
    /// duplicate check, timestamp capture, record construction, counter
    /// increment, and durability extension for the whole region. A duplicate
    /// hash is rejected with no state change; the host clock supplies `now`,
    /// which is never zero.
    pub fn register_document(
        &mut self,
        doc_hash: String,
        owner: String,
        description: String,
        now: u64,
    ) -> (r: Result<bool, DuplicateRegistration>)
        requires
            old(self).inv(),
            now != 0,
            old(self)@.total < u64::MAX,
        ensures
            final(self).inv(),
            !register_accepts(old(self)@, doc_hash@) ==> (r matches Err(_))
                && final(self)@ == old(self)@,
            register_accepts(old(self)@, doc_hash@) ==> (r matches Ok(b) && b == true)
                && final(self)@ == register_result(old(self)@, doc_hash@, owner@, description@, now),
    {
        let ghost h = doc_hash@;
        let ghost ov = owner@;
        let ghost dv = description@;
        let ghost reg0 = self@;
        let key = ProofBook::Proof(doc_hash.clone());
        let stats = self.get_stats();
        let planned = {
            let existing = match self.storage.get(&key) {
                Some(StorageValue::Proof(p)) => Some(p),
                // A proof key never holds a statistics record.
                Some(StorageValue::Stats(_)) => {
                    proof {
                        assert(false);
                    }
                    None
                },
                None => None,
            };
            Self::plan_registration(existing, &stats, doc_hash, owner, description, now)
        };
        match planned {
            Err(e) => Err(e),
            Ok((proof_record, new_stats)) => {
                let ghost pv = proof_record@;
                let ghost c0 = self.storage@.contents;
                self.storage.set(key, StorageValue::Proof(proof_record));
                let ghost c1 = self.storage@.contents;
                self.storage.set(ProofBook::Stats, StorageValue::Stats(new_stats));
                let ghost c2 = self.storage@.contents;
                self.storage.extend_expiry(TTL_EXTEND_THRESHOLD, TTL_EXTEND_TARGET);
                proof {
                    assert(c1 == c0.insert(KeyView::Proof(h), ValueView::Proof(pv)));
                    assert(c2 == c1.insert(KeyView::Stats, ValueView::Stats(
                        new_stats.total_documents,
                    )));
                    assert forall|h2: Seq<char>| #[trigger]
                        c2.contains_key(KeyView::Proof(h2)) implies (h2 == h || c0.contains_key(
                        KeyView::Proof(h2),
                    )) by {}
                    assert(self@.proofs =~= reg0.proofs.insert(h, pv));
                    assert(self@.proofs.dom() =~= reg0.proofs.dom().insert(h));
                    assert(self@ =~= register_result(reg0, h, ov, dv, now));
                    assert(self.inv());
                }
                Ok(true)
            },
        }
    }

    /// Fetch the proof record for a document hash; an absent hash yields the
    /// reserved sentinel record rather than a structural absence. Read-only.
    pub fn get_proof(&self, doc_hash: String) -> (r: DocumentProof)
        requires
            self.inv(),
        ensures
            r@ == verify_result(self@, doc_hash@),
            self@.proofs.dom().contains(doc_hash@) ==> r.timestamp != 0,
            !self@.proofs.dom().contains(doc_hash@) ==> r.timestamp == 0,
    {
        let key = ProofBook::Proof(doc_hash);
        match self.storage.get(&key) {
            Some(StorageValue::Proof(p)) => p.duplicate(),
            // A proof key never holds a statistics record.
            Some(StorageValue::Stats(_)) => {
                proof {
                    assert(false);
                }
                not_found_record()
            },
            None => not_found_record(),
        }
    }

    /// Verify whether a document is registered and retrieve its proof; the
    /// same lookup and sentinel behaviour as `get_proof`. Read-only.
    pub fn verify_document(&self, doc_hash: String) -> (r: DocumentProof)
        requires
            self.inv(),
        ensures
            r@ == verify_result(self@, doc_hash@),
            self@.proofs.dom().contains(doc_hash@) ==> r.timestamp != 0,
            !self@.proofs.dom().contains(doc_hash@) ==> r.timestamp == 0,
    {
        self.get_proof(doc_hash)
    }

    /// The remaining durability window of the instance storage region.
    pub fn remaining_expiry(&self) -> (r: u64)
        ensures
            r == self@.ttl,
    {
        self.storage.remaining_expiry()
    }

    /// Fetch the overall statistics; a never-written counter reads as zero.
    /// Read-only.
    pub fn get_stats(&self) -> (r: ProofStats)
        requires
            self.inv(),
        ensures
            r.total_documents == self@.total,
    {
        match self.storage.get(&ProofBook::Stats) {
            Some(StorageValue::Stats(s)) => ProofStats { total_documents: s.total_documents },
            // The statistics key never holds a proof record.
            Some(StorageValue::Proof(_)) => {
                proof {
                    assert(false);
                }
                ProofStats { total_documents: 0 }
            },
            None => ProofStats { total_documents: 0 },
        }
    }
}

} // verus!
