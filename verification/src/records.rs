use vstd::prelude::*;
use vstd::string::StringExecFns;

verus! {

/// Mathematical model of a stored document record: each field as a plain
/// value, with the registration timestamp captured once at creation.
pub struct ProofView {
    pub doc_hash: Seq<char>,
    pub owner: Seq<char>,
    pub timestamp: u64,
    pub description: Seq<char>,
}

/// One registered document: the caller-supplied content hash, the party that
/// registered it, the ledger time of registration, and a free-form
/// description. Immutable once created.
#[derive(Debug)]
pub struct DocumentProof {
    pub doc_hash: String,
    pub owner: String,
    pub timestamp: u64,
    pub description: String,
}

impl View for DocumentProof {
    type V = ProofView;

    open spec fn view(&self) -> ProofView {
        ProofView {
            doc_hash: self.doc_hash@,
            owner: self.owner@,
            timestamp: self.timestamp,
            description: self.description@,
        }
    }
}

impl DocumentProof {
    /// Field-wise copy whose model equals the model of the original.
    pub fn duplicate(&self) -> (r: DocumentProof)
        ensures
            r@ == self@,
    {
        DocumentProof {
            doc_hash: self.doc_hash.clone(),
            owner: self.owner.clone(),
            timestamp: self.timestamp,
            description: self.description.clone(),
        }
    }
}

/// The one global aggregate: how many distinct documents have been
/// successfully registered.
#[derive(Clone, Copy, Debug)]
pub struct ProofStats {
    pub total_documents: u64,
}

/// Model of the record handed back for a hash that was never registered: the
/// reserved marker hash, empty owner and description, and timestamp zero.
pub open spec fn sentinel_proof() -> ProofView {
    ProofView {
        doc_hash: "NOT_FOUND"@,
        owner: Seq::<char>::empty(),
        timestamp: 0,
        description: Seq::<char>::empty(),
    }
}

/// The record that read operations return for an absent hash. Timestamp zero
/// is reserved for exactly this case: the host clock never produces zero.
pub fn not_found_record() -> (r: DocumentProof)
    ensures
        r@ == sentinel_proof(),
{
    DocumentProof {
        doc_hash: String::from_str("NOT_FOUND"),
        owner: String::new(),
        timestamp: 0,
        description: String::new(),
    }
}

} // verus!
