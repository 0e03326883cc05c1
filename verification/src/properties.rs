use vstd::prelude::*;
use crate::records::{ProofView, sentinel_proof};
use crate::registry::{
    ProofOfExistenceContract, RegistryView, register_accepts, register_result, verify_result,
};

verus! {

/// Uniqueness: a successful registration of a hash makes every further
/// registration attempt for the same hash a rejected duplicate, and the
/// record created by the first registration carries exactly the submitted
/// fields and the registration time.
pub proof fn lemma_uniqueness(
    reg: RegistryView,
    doc_hash: Seq<char>,
    owner: Seq<char>,
    description: Seq<char>,
    now: u64,
)
    requires
        register_accepts(reg, doc_hash),
    ensures
        ({
            let reg1 = register_result(reg, doc_hash, owner, description, now);
            &&& !register_accepts(reg1, doc_hash)
            &&& reg1.proofs[doc_hash] == (ProofView { doc_hash, owner, timestamp: now, description })
        }),
{
}

/// Registered records are immutable: a later successful registration of
/// another hash leaves an existing record exactly as it was.
pub proof fn lemma_record_immutable(
    reg: RegistryView,
    registered: Seq<char>,
    doc_hash: Seq<char>,
    owner: Seq<char>,
    description: Seq<char>,
    now: u64,
)
    requires
        reg.proofs.dom().contains(registered),
        register_accepts(reg, doc_hash),
    ensures
        register_result(reg, doc_hash, owner, description, now).proofs.dom().contains(registered),
        register_result(reg, doc_hash, owner, description, now).proofs[registered]
            == reg.proofs[registered],
{
}

/// Sentinel correctness: verifying a hash that was never registered yields
/// the reserved not-found marker and timestamp zero.
pub proof fn lemma_sentinel_correctness(reg: RegistryView, doc_hash: Seq<char>)
    requires
        !reg.proofs.dom().contains(doc_hash),
    ensures
        verify_result(reg, doc_hash) == sentinel_proof(),
        verify_result(reg, doc_hash).timestamp == 0,
        verify_result(reg, doc_hash).doc_hash == "NOT_FOUND"@,
{
}

/// Monotonic timestamps: two successful registrations in call order, under
/// the host guarantee that the ledger clock never decreases, produce records
/// whose timestamps are ordered the same way.
pub proof fn lemma_monotonic_timestamps(
    reg: RegistryView,
    h1: Seq<char>,
    o1: Seq<char>,
    d1: Seq<char>,
    t1: u64,
    h2: Seq<char>,
    o2: Seq<char>,
    d2: Seq<char>,
    t2: u64,
)
    requires
        register_accepts(reg, h1),
        register_accepts(register_result(reg, h1, o1, d1, t1), h2),
        t1 <= t2,
    ensures
        ({
            let reg2 = register_result(register_result(reg, h1, o1, d1, t1), h2, o2, d2, t2);
            reg2.proofs[h1].timestamp <= reg2.proofs[h2].timestamp
        }),
{
}

/// Counter consistency: in every well-formed registry state, the recorded
/// total equals the number of distinct hashes that verify as registered,
/// that is, whose lookup yields a record with a non-zero timestamp.
pub proof fn lemma_counter_consistency(reg: &ProofOfExistenceContract)
    requires
        reg.inv(),
    ensures
        reg@.total == Set::new(|h: Seq<char>| verify_result(reg@, h).timestamp != 0).len(),
{
    reg.lemma_view_inv();
    assert(Set::new(|h: Seq<char>| verify_result(reg@, h).timestamp != 0) =~= reg@.proofs.dom());
}

} // verus!
