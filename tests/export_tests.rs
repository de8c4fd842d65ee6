use fuzzy_drugs_core::export::{
    billing_csv, billing_csv_line, escape_csv, proof_from_compliance, verify_compliance_proof,
    BillingRow,
};
use fuzzy_drugs_core::inclusion::MerkleProof;
use fuzzy_drugs_core::tree::MerkleTree;

#[test]
fn test_csv_escaping() {
    assert_eq!(escape_csv("simple"), "simple");
    assert_eq!(escape_csv("with,comma"), "\"with,comma\"");
    assert_eq!(escape_csv("with\"quote"), "\"with\"\"quote\"");
}

#[test]
fn csv_escaping_of_newline_and_empty() {
    assert_eq!(escape_csv("a\nb"), "\"a\nb\"");
    assert_eq!(escape_csv(""), "");
    assert_eq!(escape_csv("\"\""), "\"\"\"\"\"\"");
}

fn row(description: &str, route: Option<&str>) -> BillingRow {
    BillingRow {
        draft_id: "draft-1".to_string(),
        patient_id: "patient-1".to_string(),
        sku: "CARP-100".to_string(),
        description: description.to_string(),
        quantity: "100".to_string(),
        unit: "mg".to_string(),
        route: route.map(|r| r.to_string()),
        reviewed_by: "Dr. Smith".to_string(),
        reviewed_at: "2024-01-15T10:00:00Z".to_string(),
        merkle_leaf_hash: "abc".to_string(),
    }
}

#[test]
fn billing_line_quotes_only_what_needs_it() {
    assert_eq!(
        billing_csv_line(&row("Carprofen, 100mg", Some("PO"))),
        "draft-1,patient-1,CARP-100,\"Carprofen, 100mg\",100,mg,PO,Dr. Smith,2024-01-15T10:00:00Z,abc\n"
    );
    assert_eq!(
        billing_csv_line(&row("Carprofen", None)),
        "draft-1,patient-1,CARP-100,Carprofen,100,mg,,Dr. Smith,2024-01-15T10:00:00Z,abc\n"
    );
}

#[test]
fn billing_line_escapes_the_route_too() {
    assert_eq!(
        billing_csv_line(&row("A", Some(","))),
        "draft-1,patient-1,CARP-100,A,100,mg,\",\",Dr. Smith,2024-01-15T10:00:00Z,abc\n"
    );
}

#[test]
fn billing_csv_has_header_and_rows() {
    let csv = billing_csv(&vec![row("A", Some("PO")), row("B", Some("IV"))]);
    let lines: Vec<&str> = csv.lines().collect();
    assert_eq!(
        lines[0],
        "draft_id,patient_id,sku,description,quantity,unit,route,reviewed_by,reviewed_at,merkle_hash"
    );
    assert_eq!(lines.len(), 3);
    assert!(lines[2].contains(",B,"));
    let empty = billing_csv(&vec![]);
    assert_eq!(empty.lines().count(), 1);
}

#[test]
fn exported_proofs_verify_and_tampering_is_caught() {
    let mut tree = MerkleTree::new();
    for i in 0..5 {
        tree.commit_payload(&format!("encounter {}", i), "t").unwrap();
    }
    let leaves = tree.get_all_leaf_hashes();
    let proof = tree.generate_proof(&leaves[3]).unwrap();
    let compliance = proof.to_compliance_format();
    let v = verify_compliance_proof(&"draft-4".to_string(), &compliance);
    assert!(v.is_valid);
    assert_eq!(v.draft_id, "draft-4");
    assert_eq!(v.leaf_hash, leaves[3]);

    let back: MerkleProof = proof_from_compliance(&compliance);
    assert_eq!(back.proof_hashes, proof.proof_hashes);
    assert_eq!(back.proof_directions, proof.proof_directions);

    let mut bad = compliance.clone();
    bad.audit_path[0].position = if bad.audit_path[0].position == "right" {
        "left".to_string()
    } else {
        "right".to_string()
    };
    assert!(!verify_compliance_proof(&"draft-4".to_string(), &bad).is_valid);
}
