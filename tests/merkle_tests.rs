use fuzzy_drugs_core::merkle::verify_proof;
use fuzzy_drugs_core::tree::MerkleTree;
use serde_json::Value;

const NOW: &str = "2024-01-15T10:00:00Z";

fn encounter_payload(
    id: &str,
    patient: &str,
    transcript: &str,
    with_item: bool,
    reviewed_at: &str,
) -> String {
    let mut items = Vec::new();
    if with_item {
        let mut method = serde_json::Map::new();
        let mut approved = serde_json::Map::new();
        approved.insert("confidence".to_string(), Value::from(0.95));
        method.insert("SystemApproved".to_string(), Value::Object(approved));
        let mut item = serde_json::Map::new();
        item.insert("sku".to_string(), Value::from("SKU001"));
        item.insert("name".to_string(), Value::from("Test Drug 100mg"));
        item.insert("quantity".to_string(), Value::from(10.0));
        item.insert("unit".to_string(), Value::from("mg"));
        item.insert("route".to_string(), Value::from("PO"));
        item.insert("original_mention".to_string(), Value::from("10mg test drug PO"));
        item.insert("resolution_method".to_string(), Value::Object(method));
        items.push(Value::Object(item));
    }
    let mut enc = serde_json::Map::new();
    enc.insert("draft_id".to_string(), Value::from(id));
    enc.insert("patient_id".to_string(), Value::from(patient));
    enc.insert("patient_server_id".to_string(), Value::Null);
    enc.insert("transcript".to_string(), Value::from(transcript));
    enc.insert("line_items".to_string(), Value::Array(items));
    enc.insert("reviewed_by".to_string(), Value::from("Dr. Smith"));
    enc.insert("reviewed_at".to_string(), Value::from(reviewed_at));
    enc.insert("notes".to_string(), Value::Null);
    Value::Object(enc).to_string()
}

fn make_encounter(id: &str, patient: &str) -> String {
    let transcript = format!("Transcript for encounter {}", id);
    encounter_payload(id, patient, &transcript, true, NOW)
}

#[test]
fn merkle_tests_test_commit_single_encounter() {
    let mut tree = MerkleTree::new();

    let encounter = make_encounter("draft-1", "patient-1");
    let commit = tree.commit_payload(&encounter, NOW).unwrap();

    assert!(!commit.leaf_hash.is_empty());
    assert!(!commit.root_hash.is_empty());
    assert_eq!(commit.leaf_count, 1);
    assert_eq!(commit.tree_height, 1);
    assert_eq!(commit.leaf_hash, commit.root_hash);
}

#[test]
fn merkle_tests_test_commit_multiple_encounters() {
    let mut tree = MerkleTree::new();

    let mut commits = Vec::new();
    for i in 1..=5 {
        let encounter = make_encounter(&format!("draft-{}", i), "patient-1");
        let commit = tree.commit_payload(&encounter, NOW).unwrap();
        commits.push(commit);
    }

    assert_eq!(commits[0].leaf_count, 1);
    assert_eq!(commits[1].leaf_count, 2);
    assert_eq!(commits[4].leaf_count, 5);

    let roots: Vec<_> = commits.iter().map(|c| c.root_hash.clone()).collect();
    let unique_roots: std::collections::HashSet<_> = roots.iter().collect();
    assert_eq!(unique_roots.len(), 5);
}

#[test]
fn merkle_tests_test_idempotent_commit() {
    let mut tree = MerkleTree::new();

    let encounter = make_encounter("draft-1", "patient-1");

    let commit1 = tree.commit_payload(&encounter, NOW).unwrap();
    let commit2 = tree.commit_payload(&encounter, NOW).unwrap();

    assert_eq!(commit1.leaf_hash, commit2.leaf_hash);
    assert_eq!(commit1.root_hash, commit2.root_hash);
    assert_eq!(commit1.leaf_count, commit2.leaf_count);
}

#[test]
fn test_proof_generation() {
    let mut tree = MerkleTree::new();

    for i in 1..=5 {
        let encounter = make_encounter(&format!("draft-{}", i), "patient-1");
        tree.commit_payload(&encounter, NOW).unwrap();
    }

    let leaves = tree.get_all_leaf_hashes();
    for leaf_hash in &leaves {
        let proof = tree.generate_proof(leaf_hash).unwrap();
        assert!(verify_proof(&proof));
        assert_eq!(proof.leaf_hash, *leaf_hash);
    }
}

#[test]
fn test_proof_verification_fails_on_tampering() {
    let mut tree = MerkleTree::new();

    let encounter = make_encounter("draft-1", "patient-1");
    let commit = tree.commit_payload(&encounter, NOW).unwrap();

    let mut proof = commit.proof;

    let original_leaf = proof.leaf_hash.clone();
    proof.leaf_hash = "tampered_hash".to_string();
    assert!(!verify_proof(&proof));

    proof.leaf_hash = original_leaf;
    proof.root_hash = "tampered_root".to_string();
    assert!(!verify_proof(&proof));
}

#[test]
fn test_tree_stats() {
    let mut tree = MerkleTree::new();

    let stats = tree.get_stats();
    assert!(stats.root_hash.is_none());
    assert_eq!(stats.leaf_count, 0);

    for i in 1..=3 {
        let encounter = make_encounter(&format!("draft-{}", i), "patient-1");
        tree.commit_payload(&encounter, NOW).unwrap();
    }

    let stats = tree.get_stats();
    assert!(stats.root_hash.is_some());
    assert_eq!(stats.leaf_count, 3);
}

#[test]
fn merkle_tests_test_get_leaf_payload() {
    let mut tree = MerkleTree::new();

    let encounter = make_encounter("draft-1", "patient-1");
    let commit = tree.commit_payload(&encounter, NOW).unwrap();

    let payload = tree.get_leaf_payload(&commit.leaf_hash).unwrap();
    let recovered: Value = serde_json::from_str(&payload).unwrap();

    assert_eq!(recovered["draft_id"], "draft-1");
    assert_eq!(recovered["patient_id"], "patient-1");
    assert_eq!(recovered["line_items"].as_array().unwrap().len(), 1);
}

#[test]
fn test_proof_for_multiple_patients() {
    let mut tree = MerkleTree::new();

    for patient in 1..=3 {
        for encounter in 1..=3 {
            let enc = make_encounter(
                &format!("draft-p{}-e{}", patient, encounter),
                &format!("patient-{}", patient),
            );
            tree.commit_payload(&enc, NOW).unwrap();
        }
    }

    let leaves = tree.get_all_leaf_hashes();
    assert_eq!(leaves.len(), 9);

    for leaf_hash in &leaves {
        let proof = tree.generate_proof(leaf_hash).unwrap();
        assert!(verify_proof(&proof));
    }
}

#[test]
fn test_deterministic_hashing() {
    let mut tree1 = MerkleTree::new();
    let mut tree2 = MerkleTree::new();

    let encounter = encounter_payload(
        "draft-1",
        "patient-1",
        "Test transcript",
        false,
        "2024-01-15T10:00:00Z",
    );

    let commit1 = tree1.commit_payload(&encounter, NOW).unwrap();
    let commit2 = tree2.commit_payload(&encounter, NOW).unwrap();

    assert_eq!(commit1.leaf_hash, commit2.leaf_hash);
}

#[test]
fn three_leaf_scenario_all_proofs_verify() {
    let mut tree = MerkleTree::new();
    let mut hashes = Vec::new();
    for i in 1..=3 {
        let c = tree.commit_payload(&make_encounter(&format!("e{}", i), "p"), NOW).unwrap();
        hashes.push(c.leaf_hash);
    }
    assert_eq!(tree.get_stats().leaf_count, 3);
    assert_eq!(tree.get_stats().height, 3);
    for (i, h) in hashes.iter().enumerate() {
        let p = tree.generate_proof(h).unwrap();
        assert!(verify_proof(&p));
        assert_eq!(p.leaf_index, i);
        assert_eq!(&p.leaf_hash, h);
        assert_eq!(p.proof_hashes.len(), 2);
    }
}

#[test]
fn proof_fails_after_any_single_byte_change() {
    let mut tree = MerkleTree::new();
    for i in 1..=4 {
        tree.commit_payload(&make_encounter(&format!("e{}", i), "p"), NOW).unwrap();
    }
    let leaves = tree.get_all_leaf_hashes();
    let proof = tree.generate_proof(&leaves[1]).unwrap();
    assert!(verify_proof(&proof));

    fn flip(s: &str, at: usize) -> String {
        let mut b = s.as_bytes().to_vec();
        b[at] = if b[at] == b'0' { b'1' } else { b'0' };
        String::from_utf8(b).unwrap()
    }
    for at in [0usize, 17, 63] {
        let mut p = proof.clone();
        p.leaf_hash = flip(&p.leaf_hash, at);
        assert!(!verify_proof(&p));
        let mut p = proof.clone();
        p.root_hash = flip(&p.root_hash, at);
        assert!(!verify_proof(&p));
        for k in 0..proof.proof_hashes.len() {
            let mut p = proof.clone();
            p.proof_hashes[k] = flip(&p.proof_hashes[k], at);
            assert!(!verify_proof(&p));
        }
    }
}

#[test]
fn commits_never_remove_nodes() {
    let mut tree = MerkleTree::new();
    let mut seen: Vec<String> = Vec::new();
    for i in 1..=6 {
        tree.commit_payload(&make_encounter(&format!("e{}", i), "p"), NOW).unwrap();
        for h in &seen {
            assert!(tree.node_exists(h));
        }
        seen = (0..tree.node_count()).map(|k| tree.node_at(k).hash).collect();
    }
    let before = tree.node_count();
    tree.commit_payload(&make_encounter("e1", "p"), NOW).unwrap();
    assert_eq!(tree.node_count(), before);
}
