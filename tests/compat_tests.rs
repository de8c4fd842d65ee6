use fuzzy_drugs_core::compat::{
    is_route_compatible, is_species_compatible, matches_name_exactly, route_fit, species_fit, Fit,
};
use fuzzy_drugs_core::models::ResolutionStatus;
use fuzzy_drugs_core::normalizer::Normalizer;

fn list(v: &[&str]) -> Vec<String> {
    v.iter().map(|s| s.to_string()).collect()
}

#[test]
fn test_species_compatibility() {
    let species = list(&["canine", "feline"]);

    assert!(is_species_compatible(&species, "canine"));
    assert!(is_species_compatible(&species, "Canine"));
    assert!(is_species_compatible(&species, "feline"));
    assert!(!is_species_compatible(&species, "equine"));
}

#[test]
fn test_empty_species_means_all() {
    let species: Vec<String> = Vec::new();
    assert!(is_species_compatible(&species, "anything"));
}

#[test]
fn test_route_compatibility() {
    let routes = list(&["PO", "IV"]);

    assert!(is_route_compatible(&routes, "PO"));
    assert!(is_route_compatible(&routes, "po"));
    assert!(is_route_compatible(&routes, "IV"));
    assert!(!is_route_compatible(&routes, "IM"));
}

#[test]
fn test_resolved_item_final_sku() {
    let top = "SKU001".to_string();

    let status = ResolutionStatus::PendingReview;
    assert!(status.needs_review());
    assert!(status.final_sku(&top).is_none());

    let status = ResolutionStatus::Approved;
    assert!(!status.needs_review());
    assert_eq!(status.final_sku(&top), Some("SKU001".to_string()));

    let status = ResolutionStatus::AlternativeSelected { selected_sku: "SKU002".into() };
    assert_eq!(status.final_sku(&top), Some("SKU002".to_string()));
}

#[test]
fn fits_for_scoring() {
    let species = list(&["canine"]);
    assert_eq!(species_fit(&species, None), Fit::Unknown);
    assert_eq!(species_fit(&species, Some("CANINE")), Fit::Compatible);
    assert_eq!(species_fit(&species, Some("feline")), Fit::Incompatible);
    assert_eq!(species_fit(&Vec::new(), Some("feline")), Fit::Compatible);
    assert_eq!(species_fit(&Vec::new(), None), Fit::Compatible);
    let routes = list(&["IV", "IM"]);
    assert_eq!(route_fit(&routes, None), Fit::Unknown);
    assert_eq!(route_fit(&routes, Some("im")), Fit::Compatible);
    assert_eq!(route_fit(&routes, Some("PO")), Fit::Incompatible);
    assert_eq!(route_fit(&Vec::new(), Some("PO")), Fit::Unknown);
    assert_eq!(route_fit(&Vec::new(), None), Fit::Unknown);
}

#[test]
fn exact_name_matches() {
    let aliases = list(&["rimadyl", "novox"]);
    assert!(matches_name_exactly("Carprofen 100mg tablets", &aliases, "carprofen"));
    assert!(matches_name_exactly("Carprofen 100mg tablets", &aliases, "RIMADYL"));
    assert!(!matches_name_exactly("Carprofen 100mg tablets", &aliases, "rimady"));
    assert!(!matches_name_exactly("Meloxicam", &aliases, "carprofen"));
}

#[test]
fn exact_alias_resolution_parts() {
    let n = Normalizer::new();
    let parts = n.normalize_parts("rimadyl", Some("mg"), true, Some("PO"));
    assert_eq!(parts.normalized_name, "carprofen");
    let aliases = list(&["rimadyl"]);
    assert!(matches_name_exactly("Carprofen 100mg tablets", &aliases, &parts.normalized_name));
    assert_eq!(species_fit(&list(&["canine"]), Some("canine")), Fit::Compatible);
    let route = parts.normalized_route.unwrap();
    assert_eq!(route_fit(&list(&["PO"]), Some(&route)), Fit::Compatible);
    let f = parts.factor.unwrap();
    let dose_per_kg = 100.0 * (f.num as f64 / f.den as f64) / 30.0;
    assert!((2.0..=4.4).contains(&dose_per_kg));
}
