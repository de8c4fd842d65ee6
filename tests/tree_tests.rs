use fuzzy_drugs_core::hashing::hash_data;
use fuzzy_drugs_core::merkle::verify_proof;
use fuzzy_drugs_core::tree::{MerkleError, MerkleNodeType, MerkleTree};
use serde_json::Value;

const NOW: &str = "2024-01-15T10:00:00Z";

fn make_encounter(id: &str) -> String {
    let mut approved = serde_json::Map::new();
    approved.insert("confidence".to_string(), Value::from(0.95));
    let mut method = serde_json::Map::new();
    method.insert("SystemApproved".to_string(), Value::Object(approved));
    let mut item = serde_json::Map::new();
    item.insert("sku".to_string(), Value::from("SKU001"));
    item.insert("name".to_string(), Value::from("Test Drug"));
    item.insert("quantity".to_string(), Value::from(10.0));
    item.insert("unit".to_string(), Value::from("mg"));
    item.insert("route".to_string(), Value::from("PO"));
    item.insert("original_mention".to_string(), Value::from("10mg test drug PO"));
    item.insert("resolution_method".to_string(), Value::Object(method));
    let mut enc = serde_json::Map::new();
    enc.insert("draft_id".to_string(), Value::from(id));
    enc.insert("patient_id".to_string(), Value::from("patient-1"));
    enc.insert("patient_server_id".to_string(), Value::Null);
    enc.insert("transcript".to_string(), Value::from("Test transcript"));
    enc.insert("line_items".to_string(), Value::Array(vec![Value::Object(item)]));
    enc.insert("reviewed_by".to_string(), Value::from("Dr. Smith"));
    enc.insert("reviewed_at".to_string(), Value::from("2024-01-15T10:00:00Z"));
    enc.insert("notes".to_string(), Value::Null);
    Value::Object(enc).to_string()
}

#[test]
fn tree_test_commit_single_encounter() {
    let mut tree = MerkleTree::new();

    let encounter = make_encounter("draft-1");
    let commit = tree.commit_payload(&encounter, NOW).unwrap();

    assert!(!commit.leaf_hash.is_empty());
    assert!(!commit.root_hash.is_empty());
    assert_eq!(commit.leaf_count, 1);
    assert_eq!(commit.tree_height, 1);
    assert_eq!(commit.leaf_hash, commit.root_hash);
}

#[test]
fn tree_test_commit_multiple_encounters() {
    let mut tree = MerkleTree::new();

    let commit1 = tree.commit_payload(&make_encounter("draft-1"), NOW).unwrap();
    let commit2 = tree.commit_payload(&make_encounter("draft-2"), NOW).unwrap();
    let commit3 = tree.commit_payload(&make_encounter("draft-3"), NOW).unwrap();

    assert_eq!(commit1.leaf_count, 1);
    assert_eq!(commit2.leaf_count, 2);
    assert_eq!(commit3.leaf_count, 3);

    assert_ne!(commit1.root_hash, commit2.root_hash);
    assert_ne!(commit2.root_hash, commit3.root_hash);

    assert_eq!(commit1.tree_height, 1);
    assert_eq!(commit2.tree_height, 2);
    assert_eq!(commit3.tree_height, 3);
}

#[test]
fn tree_test_idempotent_commit() {
    let mut tree = MerkleTree::new();

    let encounter = make_encounter("draft-1");

    let commit1 = tree.commit_payload(&encounter, NOW).unwrap();
    let commit2 = tree.commit_payload(&encounter, NOW).unwrap();

    assert_eq!(commit1.leaf_hash, commit2.leaf_hash);
    assert_eq!(commit1.root_hash, commit2.root_hash);
    assert_eq!(commit1.leaf_count, commit2.leaf_count);
    assert_eq!(commit1.tree_height, commit2.tree_height);
}

#[test]
fn test_proof_generation_and_verification() {
    let mut tree = MerkleTree::new();

    for i in 1..=5 {
        let enc = make_encounter(&format!("draft-{}", i));
        tree.commit_payload(&enc, NOW).unwrap();
    }

    let leaves = tree.get_all_leaf_hashes();
    let proof = tree.generate_proof(&leaves[0]).unwrap();

    assert!(tree.verify_proof(&proof));
    assert!(verify_proof(&proof));

    let proof_mid = tree.generate_proof(&leaves[2]).unwrap();
    assert!(verify_proof(&proof_mid));

    let proof_last = tree.generate_proof(&leaves[4]).unwrap();
    assert!(verify_proof(&proof_last));
}

#[test]
fn test_invalid_proof() {
    let mut tree = MerkleTree::new();

    let enc = make_encounter("draft-1");
    tree.commit_payload(&enc, NOW).unwrap();

    let leaves = tree.get_all_leaf_hashes();
    let mut proof = tree.generate_proof(&leaves[0]).unwrap();

    proof.leaf_hash = "tampered_hash".to_string();
    assert!(!verify_proof(&proof));
}

#[test]
fn test_hash_deterministic() {
    let data = b"test data";
    let hash1 = hash_data(data);
    let hash2 = hash_data(data);
    assert_eq!(hash1, hash2);
    assert_eq!(hash1.len(), 64);
}

#[test]
fn hash_of_known_input() {
    assert_eq!(
        hash_data(b"abc"),
        "ba7816bf8f01cfea414140de5dae2223b00361a396177a9cb410ff61f20015ad"
    );
    assert_eq!(
        hash_data(b""),
        "e3b0c44298fc1c149afbf4c8996fb92427ae41e4649b934ca495991b7852b855"
    );
}

#[test]
fn two_leaf_root_is_hash_of_concatenated_hex() {
    let mut tree = MerkleTree::new();
    let a = tree.commit_payload("first", NOW).unwrap().leaf_hash;
    let c = tree.commit_payload("second", NOW).unwrap();
    let expected = hash_data(format!("{}{}", a, c.leaf_hash).as_bytes());
    assert_eq!(c.root_hash, expected);
    assert_eq!(a, hash_data(b"first"));
}

#[test]
fn three_leaf_root_pairs_odd_node_with_itself() {
    let mut tree = MerkleTree::new();
    let a = tree.commit_payload("a", NOW).unwrap().leaf_hash;
    let b = tree.commit_payload("b", NOW).unwrap().leaf_hash;
    let c = tree.commit_payload("c", NOW).unwrap();
    let ab = hash_data(format!("{}{}", a, b).as_bytes());
    let cc = hash_data(format!("{}{}", c.leaf_hash, c.leaf_hash).as_bytes());
    let root = hash_data(format!("{}{}", ab, cc).as_bytes());
    assert_eq!(c.root_hash, root);
    assert_eq!(c.proof.proof_hashes, vec![c.leaf_hash.clone(), ab]);
    assert_eq!(c.proof.proof_directions, vec![true, false]);
    assert_eq!(c.proof.leaf_index, 2);
    let node = tree.get_node(&cc).unwrap();
    assert_eq!(node.node_type, MerkleNodeType::Internal);
    assert_eq!(node.left_child, Some(c.leaf_hash.clone()));
    assert_eq!(node.right_child, None);
}

#[test]
fn proof_errors_on_empty_tree_and_unknown_leaf() {
    let mut tree = MerkleTree::new();
    assert!(matches!(tree.generate_proof("abc"), Err(MerkleError::InvalidState(_))));
    tree.commit_payload("x", NOW).unwrap();
    assert!(matches!(tree.generate_proof("abc"), Err(MerkleError::NodeNotFound(_))));
}

#[test]
fn commit_fails_when_hash_is_an_internal_node() {
    let mut tree = MerkleTree::new();
    let a = tree.commit_payload("a", NOW).unwrap().leaf_hash;
    let b = tree.commit_payload("b", NOW).unwrap().leaf_hash;
    let internal_text = format!("{}{}", a, b);
    let r = tree.commit_payload(&internal_text, NOW);
    assert!(matches!(r, Err(MerkleError::InvalidState(_))));
    assert_eq!(tree.get_stats().leaf_count, 2);
}

#[test]
fn leaf_payload_and_node_types() {
    let mut tree = MerkleTree::new();
    let c = tree.commit_payload("payload-1", NOW).unwrap();
    assert_eq!(tree.get_leaf_payload(&c.leaf_hash), Some("payload-1".to_string()));
    assert_eq!(tree.get_leaf_payload("missing"), None);
    let n = tree.get_node(&c.leaf_hash).unwrap();
    assert_eq!(n.node_type, MerkleNodeType::Leaf);
    assert_eq!(n.created_at, NOW);
    assert_eq!(MerkleNodeType::Leaf.as_str(), "leaf");
    assert_eq!(MerkleNodeType::Internal.as_str(), "internal");
    assert_eq!(MerkleNodeType::from_str("internal"), Some(MerkleNodeType::Internal));
    assert_eq!(MerkleNodeType::from_str("leaf"), Some(MerkleNodeType::Leaf));
    assert_eq!(MerkleNodeType::from_str("branch"), None);
}
