use fuzzy_drugs_core::models::{
    review_decisions, MethodKind,
    all_reviewed, pending_review_count, status_to_string, string_to_status, DraftStatus,
    ResolutionStatus,
};
use fuzzy_drugs_core::search::escape_fts_query;

#[test]
fn draft_status_names_round_trip() {
    for s in [
        DraftStatus::Recording,
        DraftStatus::Transcribed,
        DraftStatus::PendingReview,
        DraftStatus::Reviewed,
        DraftStatus::Committed,
    ] {
        assert_eq!(string_to_status(status_to_string(&s)).unwrap(), s);
    }
    assert_eq!(status_to_string(&DraftStatus::PendingReview), "pending_review");
    assert_eq!(string_to_status("bogus").unwrap_err(), "Unknown draft status: bogus");
}

#[test]
fn draft_status_moves_forward_one_step() {
    assert_eq!(DraftStatus::Recording.next(), Some(DraftStatus::Transcribed));
    assert_eq!(DraftStatus::Committed.next(), None);
    assert!(DraftStatus::Reviewed.can_move_to(DraftStatus::Committed));
    assert!(!DraftStatus::Reviewed.can_move_to(DraftStatus::PendingReview));
    assert!(!DraftStatus::Recording.can_move_to(DraftStatus::Reviewed));
}

#[test]
fn review_counts() {
    let items = vec![
        ResolutionStatus::Approved,
        ResolutionStatus::PendingReview,
        ResolutionStatus::AlternativeSelected { selected_sku: "X".to_string() },
        ResolutionStatus::PendingReview,
    ];
    assert_eq!(pending_review_count(&items), 2);
    assert!(!all_reviewed(&items));
    let done = vec![ResolutionStatus::Approved, ResolutionStatus::Rejected];
    assert!(all_reviewed(&done));
    assert!(all_reviewed(&vec![]));
}

#[test]
fn final_sku_follows_status() {
    let top = "TOP".to_string();
    assert_eq!(ResolutionStatus::Approved.final_sku(&top), Some("TOP".to_string()));
    assert_eq!(
        ResolutionStatus::ManualOverride { override_sku: "M".to_string() }.final_sku(&top),
        Some("M".to_string())
    );
    assert_eq!(ResolutionStatus::Rejected.final_sku(&top), None);
    assert_eq!(ResolutionStatus::PendingReview.final_sku(&top), None);
    assert!(ResolutionStatus::PendingReview.needs_review());
}

#[test]
fn fts_query_strips_symbols_and_adds_prefix_markers() {
    assert_eq!(escape_fts_query("carprofen 100mg"), "carprofen* 100mg*");
    assert_eq!(escape_fts_query("  amox-clav  (250)\t"), "amoxclav* 250*");
    assert_eq!(escape_fts_query("!!!"), "");
    assert_eq!(escape_fts_query(""), "");
}

#[test]
fn review_gate_blocks_pending_and_drops_rejected() {
    let tops = vec!["A".to_string(), "B".to_string(), "C".to_string(), "D".to_string()];
    let pending = vec![
        ResolutionStatus::Approved,
        ResolutionStatus::PendingReview,
        ResolutionStatus::Rejected,
        ResolutionStatus::Approved,
    ];
    assert!(review_decisions(&pending, &tops).is_none());

    let reviewed = vec![
        ResolutionStatus::Approved,
        ResolutionStatus::Rejected,
        ResolutionStatus::AlternativeSelected { selected_sku: "X".to_string() },
        ResolutionStatus::ManualOverride { override_sku: "Y".to_string() },
    ];
    let d = review_decisions(&reviewed, &tops).unwrap();
    assert_eq!(d.len(), 3);
    assert_eq!((d[0].index, d[0].sku.as_str(), d[0].method), (0, "A", MethodKind::SystemApproved));
    assert_eq!((d[1].index, d[1].sku.as_str(), d[1].method), (2, "X", MethodKind::AlternativeSelected));
    assert_eq!((d[2].index, d[2].sku.as_str(), d[2].method), (3, "Y", MethodKind::ManualOverride));
}
