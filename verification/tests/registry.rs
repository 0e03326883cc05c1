use proof_of_existence::records::{DocumentProof, ProofStats};
use proof_of_existence::registry::{DuplicateRegistration, ProofOfExistenceContract};

#[test]
fn test_register_and_verify() {
    let mut registry = ProofOfExistenceContract::new();

    let doc_hash = String::from("abc123def456");
    let owner = String::from("owner_address_123");
    let description = String::from("Important document");

    let result = registry
        .register_document(doc_hash.clone(), owner.clone(), description, 1_700_000_000)
        .unwrap();
    assert_eq!(result, true);

    let proof = registry.verify_document(doc_hash);
    assert!(proof.timestamp > 0);
    assert_eq!(proof.owner, owner);
}

#[test]
fn register_then_stats_is_one() {
    let mut registry = ProofOfExistenceContract::new();
    let result = registry
        .register_document("abc123".to_string(), "alice".to_string(), "contract".to_string(), 42)
        .unwrap();
    assert_eq!(result, true);
    assert_eq!(registry.get_stats().total_documents, 1);
}

#[test]
fn register_then_verify_returns_record() {
    let mut registry = ProofOfExistenceContract::new();
    registry
        .register_document("abc123".to_string(), "alice".to_string(), "contract".to_string(), 42)
        .unwrap();
    let proof = registry.verify_document("abc123".to_string());
    assert_eq!(proof.doc_hash, "abc123");
    assert_eq!(proof.owner, "alice");
    assert_eq!(proof.timestamp, 42);
    assert_eq!(proof.description, "contract");
}

#[test]
fn duplicate_registration_rejected_and_state_unchanged() {
    let mut registry = ProofOfExistenceContract::new();
    registry
        .register_document("abc123".to_string(), "alice".to_string(), "contract".to_string(), 42)
        .unwrap();
    let second = registry.register_document(
        "abc123".to_string(),
        "bob".to_string(),
        "other".to_string(),
        99,
    );
    assert_eq!(second, Err(DuplicateRegistration));
    assert_eq!(registry.get_stats().total_documents, 1);
    let proof = registry.verify_document("abc123".to_string());
    assert_eq!(proof.owner, "alice");
    assert_eq!(proof.timestamp, 42);
    assert_eq!(proof.description, "contract");
}

#[test]
fn fresh_registry_stats_zero_and_sentinel() {
    let registry = ProofOfExistenceContract::new();
    assert_eq!(registry.get_stats().total_documents, 0);
    let proof = registry.verify_document("nonexistent".to_string());
    assert_eq!(proof.timestamp, 0);
    assert_eq!(proof.doc_hash, "NOT_FOUND");
    assert_eq!(proof.owner, "");
    assert_eq!(proof.description, "");
}

#[test]
fn two_distinct_hashes_both_register() {
    let mut registry = ProofOfExistenceContract::new();
    assert!(registry
        .register_document("h1".to_string(), "alice".to_string(), "first".to_string(), 10)
        .is_ok());
    assert!(registry
        .register_document("h2".to_string(), "bob".to_string(), "second".to_string(), 20)
        .is_ok());
    assert_eq!(registry.get_stats().total_documents, 2);
    let p1 = registry.verify_document("h1".to_string());
    let p2 = registry.verify_document("h2".to_string());
    assert_eq!(p1.owner, "alice");
    assert_eq!(p1.timestamp, 10);
    assert_eq!(p2.owner, "bob");
    assert_eq!(p2.timestamp, 20);
}

#[test]
fn reads_are_idempotent() {
    let mut registry = ProofOfExistenceContract::new();
    registry
        .register_document("doc".to_string(), "carol".to_string(), "notes".to_string(), 7)
        .unwrap();
    let a = registry.get_proof("doc".to_string());
    let b = registry.get_proof("doc".to_string());
    assert_eq!(a.doc_hash, b.doc_hash);
    assert_eq!(a.owner, b.owner);
    assert_eq!(a.timestamp, b.timestamp);
    assert_eq!(a.description, b.description);
    let v1 = registry.verify_document("doc".to_string());
    let v2 = registry.verify_document("doc".to_string());
    assert_eq!(v1.owner, v2.owner);
    assert_eq!(v1.timestamp, v2.timestamp);
    let m1 = registry.verify_document("missing".to_string());
    let m2 = registry.verify_document("missing".to_string());
    assert_eq!(m1.doc_hash, m2.doc_hash);
    assert_eq!(m1.timestamp, m2.timestamp);
    assert_eq!(registry.get_stats().total_documents, registry.get_stats().total_documents);
}

#[test]
fn timestamps_follow_call_order() {
    let mut registry = ProofOfExistenceContract::new();
    registry
        .register_document("early".to_string(), "alice".to_string(), "a".to_string(), 100)
        .unwrap();
    registry
        .register_document("late".to_string(), "bob".to_string(), "b".to_string(), 250)
        .unwrap();
    let early = registry.verify_document("early".to_string());
    let late = registry.verify_document("late".to_string());
    assert!(early.timestamp <= late.timestamp);
    assert_eq!(early.timestamp, 100);
    assert_eq!(late.timestamp, 250);
}

#[test]
fn counter_matches_registered_hashes() {
    let mut registry = ProofOfExistenceContract::new();
    let hashes = ["d1", "d2", "d3"];
    let mut now: u64 = 1;
    for h in hashes {
        registry
            .register_document(h.to_string(), "owner".to_string(), "d".to_string(), now)
            .unwrap();
        now += 1;
    }
    let probes = ["d1", "d2", "d3", "d4", "unrelated"];
    let mut registered: u64 = 0;
    for p in probes {
        if registry.verify_document(p.to_string()).timestamp != 0 {
            registered += 1;
        }
    }
    assert_eq!(registry.get_stats().total_documents, registered);
    assert_eq!(registered, 3);
}

#[test]
fn empty_strings_are_valid_inputs() {
    let mut registry = ProofOfExistenceContract::new();
    let result =
        registry.register_document("".to_string(), "".to_string(), "".to_string(), 5).unwrap();
    assert_eq!(result, true);
    let proof = registry.verify_document("".to_string());
    assert_eq!(proof.timestamp, 5);
    assert_eq!(proof.doc_hash, "");
    assert_eq!(registry.get_stats().total_documents, 1);
}

#[test]
fn expiry_extended_on_registration() {
    let mut registry = ProofOfExistenceContract::new();
    assert_eq!(registry.remaining_expiry(), 0);
    registry
        .register_document("h1".to_string(), "alice".to_string(), "a".to_string(), 3)
        .unwrap();
    assert_eq!(registry.remaining_expiry(), 17280);
    registry
        .register_document("h2".to_string(), "bob".to_string(), "b".to_string(), 4)
        .unwrap();
    assert_eq!(registry.remaining_expiry(), 17280);
}

#[test]
fn plan_registration_accepts_fresh_hash() {
    let stats = ProofStats { total_documents: 4 };
    let planned = ProofOfExistenceContract::plan_registration(
        None,
        &stats,
        "fresh".to_string(),
        "alice".to_string(),
        "d".to_string(),
        77,
    );
    let (proof, new_stats) = planned.unwrap();
    assert_eq!(proof.doc_hash, "fresh");
    assert_eq!(proof.owner, "alice");
    assert_eq!(proof.timestamp, 77);
    assert_eq!(proof.description, "d");
    assert_eq!(new_stats.total_documents, 5);
}

#[test]
fn plan_registration_rejects_existing_record() {
    let stats = ProofStats { total_documents: 1 };
    let existing = DocumentProof {
        doc_hash: "taken".to_string(),
        owner: "alice".to_string(),
        timestamp: 12,
        description: "d".to_string(),
    };
    let planned = ProofOfExistenceContract::plan_registration(
        Some(&existing),
        &stats,
        "taken".to_string(),
        "bob".to_string(),
        "other".to_string(),
        90,
    );
    assert_eq!(planned.unwrap_err(), DuplicateRegistration);
}
