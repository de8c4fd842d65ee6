use fuzzy_drugs_core::extraction::{extract_route, outermost_object, ExtractionError};

#[test]
fn test_extract_route() {
    assert_eq!(extract_route(" orally twice daily"), Some("PO".to_string()));
    assert_eq!(extract_route(" IV push"), Some("IV".to_string()));
    assert_eq!(extract_route(" IM injection"), Some("IM".to_string()));
    assert_eq!(extract_route(" subcutaneously"), Some("SQ".to_string()));
    assert_eq!(extract_route(" topically"), None);
}

#[test]
fn extract_route_takes_first_pattern_in_table_order() {
    assert_eq!(extract_route("by mouth then iv"), Some("PO".to_string()));
    assert_eq!(extract_route("give SUB-Q"), Some("SQ".to_string()));
    assert_eq!(extract_route("po"), None);
}

#[test]
fn outermost_object_ignores_surrounding_prose() {
    let r = outermost_object("Here you go: {\"mentions\":[{\"a\":1}]} hope that helps").unwrap();
    assert_eq!(r, "{\"mentions\":[{\"a\":1}]}");
}

#[test]
fn outermost_object_errors() {
    assert!(matches!(outermost_object("no json"), Err(ExtractionError::InvalidFormat(_))));
    assert!(matches!(outermost_object("{ open"), Err(ExtractionError::InvalidFormat(_))));
    assert!(matches!(outermost_object("} then {"), Err(ExtractionError::InvalidFormat(_))));
}
