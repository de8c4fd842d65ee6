use fuzzy_drugs_core::sync::{CatalogDelta, SyncAck, SyncManager, SyncResponse};
use fuzzy_drugs_core::tree::MerkleTree;

const NOW: &str = "2024-01-15T12:00:00Z";

fn make_encounter(id: &str) -> String {
    format!("{{\"draft_id\":\"{}\",\"patient_id\":\"patient-1\"}}", id)
}

#[test]
fn test_sync_request_empty_tree() {
    let tree = MerkleTree::new();
    let manager = SyncManager::new();

    let request = manager.create_sync_request(&tree);
    assert!(request.is_none());
}

#[test]
fn test_sync_request_with_data() {
    let mut tree = MerkleTree::new();
    let manager = SyncManager::new();

    tree.commit_payload(&make_encounter("draft-1"), NOW).unwrap();

    let request = manager.create_sync_request(&tree).unwrap();
    assert!(!request.root_hash.is_empty());
    assert_eq!(request.leaf_count, 1);
}

#[test]
fn test_has_unsynced_changes() {
    let mut tree = MerkleTree::new();
    let mut manager = SyncManager::new();

    assert!(!manager.has_unsynced_changes(&tree));

    tree.commit_payload(&make_encounter("draft-1"), NOW).unwrap();
    assert!(manager.has_unsynced_changes(&tree));

    let root = tree.get_root_hash().unwrap();
    manager.handle_sync_ack(&SyncAck { success: true, new_root: Some(root), error: None }, NOW);

    assert!(!manager.has_unsynced_changes(&tree));

    tree.commit_payload(&make_encounter("draft-2"), NOW).unwrap();
    assert!(manager.has_unsynced_changes(&tree));
}

#[test]
fn test_export_full_tree() {
    let mut tree = MerkleTree::new();
    let manager = SyncManager::new();

    for i in 1..=3 {
        tree.commit_payload(&make_encounter(&format!("draft-{}", i)), NOW).unwrap();
    }

    let export = manager.export_full_tree(&tree, NOW).unwrap();
    assert_eq!(export.leaf_count, 3);
    assert!(!export.nodes.is_empty());
    assert!(export.nodes.iter().filter(|n| n.node_type == "leaf").count() == 3);
}

#[test]
fn full_export_of_three_leaves_has_six_nodes() {
    let mut tree = MerkleTree::new();
    let manager = SyncManager::new();
    assert!(manager.export_full_tree(&tree, NOW).is_err());
    for i in 1..=3 {
        tree.commit_payload(&make_encounter(&format!("d{}", i)), NOW).unwrap();
    }
    let export = manager.export_full_tree(&tree, NOW).unwrap();
    // three leaves, two parents, one root
    assert_eq!(export.nodes.len(), 6);
    assert_eq!(export.nodes[5].hash, export.root_hash);
    assert_eq!(export.nodes[5].node_type, "internal");
}

#[test]
fn export_since_returns_later_nodes() {
    let mut tree = MerkleTree::new();
    let manager = SyncManager::new();
    let first = tree.commit_payload(&make_encounter("d1"), NOW).unwrap();
    tree.commit_payload(&make_encounter("d2"), NOW).unwrap();
    let all = tree.node_count();
    let since = manager.export_since(&tree, Some(&first.root_hash), NOW).unwrap();
    assert_eq!(since.nodes.len(), all - 1);
    let missing = manager.export_since(&tree, Some("unknown"), NOW).unwrap();
    assert_eq!(missing.nodes.len(), 3);
}

#[test]
fn sync_response_sends_requested_nodes() {
    let mut tree = MerkleTree::new();
    let manager = SyncManager::new();
    let empty = SyncResponse { missing_hashes: vec![], server_root_hash: None };
    assert!(manager.process_sync_response(&tree, &empty).is_err());

    let c1 = tree.commit_payload(&make_encounter("d1"), NOW).unwrap();
    let c2 = tree.commit_payload(&make_encounter("d2"), NOW).unwrap();
    let response = SyncResponse {
        missing_hashes: vec![c2.leaf_hash.clone(), "nope".to_string(), c1.leaf_hash.clone()],
        server_root_hash: None,
    };
    let payload = manager.process_sync_response(&tree, &response).unwrap();
    assert_eq!(payload.expected_root, c2.root_hash);
    assert_eq!(payload.nodes.len(), 2);
    assert_eq!(payload.nodes[0].hash, c1.leaf_hash);
    assert_eq!(payload.nodes[0].payload, Some(make_encounter("d1")));
}

#[test]
fn failed_or_rootless_ack_changes_nothing() {
    let mut tree = MerkleTree::new();
    let mut manager = SyncManager::new();
    let c = tree.commit_payload(&make_encounter("d1"), NOW).unwrap();
    manager.handle_sync_ack(&SyncAck { success: false, new_root: Some(c.root_hash.clone()), error: Some("boom".to_string()) }, NOW);
    assert!(manager.get_last_synced_root().is_none());
    manager.handle_sync_ack(&SyncAck { success: true, new_root: None, error: None }, NOW);
    assert!(manager.has_unsynced_changes(&tree));
    manager.handle_sync_ack(&SyncAck { success: true, new_root: Some(String::new()), error: None }, NOW);
    assert!(manager.get_last_synced_root().is_none());
    assert!(manager.has_unsynced_changes(&tree));
}

#[test]
fn catalog_sync_timestamp_is_recorded() {
    let mut manager = SyncManager::new();
    assert!(manager.create_catalog_sync_request().since.is_none());
    let delta = CatalogDelta { items: vec![], deactivated_skus: vec![], timestamp: "2024-01-15T12:00:00Z".into() };
    manager.record_catalog_delta(&delta);
    assert_eq!(manager.create_catalog_sync_request().since, Some("2024-01-15T12:00:00Z".into()));
}
