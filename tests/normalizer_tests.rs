use fuzzy_drugs_core::normalizer::{Normalizer, UnitFactor};

fn factor_value(f: UnitFactor) -> f64 {
    f.num as f64 / f.den as f64
}

fn normalized_dose(n: &Normalizer, dose: Option<f64>, unit: Option<&str>) -> (Option<f64>, Option<String>) {
    let parts = n.normalize_parts("test", unit, dose.is_some(), None);
    let d = match (dose, parts.factor) {
        (Some(d), Some(f)) => Some(d * factor_value(f)),
        (d, _) => d,
    };
    (d, parts.normalized_unit)
}

#[test]
fn test_expand_alias() {
    let normalizer = Normalizer::new();

    assert_eq!(normalizer.expand_alias("rimadyl"), "carprofen");
    assert_eq!(normalizer.expand_alias("Rimadyl"), "carprofen");
    assert_eq!(normalizer.expand_alias("RIMADYL"), "carprofen");
    assert_eq!(normalizer.expand_alias("ace"), "acepromazine");
    assert_eq!(normalizer.expand_alias("metacam"), "meloxicam");
    assert_eq!(normalizer.expand_alias("SomeNewDrug"), "somenewdrug");
}

#[test]
fn test_unit_conversion() {
    let normalizer = Normalizer::new();

    let (unit, mult) = normalizer.convert_unit("cc");
    assert_eq!(unit, "mL");
    assert_eq!(factor_value(mult), 1.0);

    let (unit, mult) = normalizer.convert_unit("mcg");
    assert_eq!(unit, "mg");
    assert_eq!(factor_value(mult), 0.001);

    let (unit, mult) = normalizer.convert_unit("g");
    assert_eq!(unit, "mg");
    assert_eq!(factor_value(mult), 1000.0);

    let (unit, mult) = normalizer.convert_unit("widgets");
    assert_eq!(unit, "widgets");
    assert_eq!(factor_value(mult), 1.0);
}

#[test]
fn test_route_canonicalization() {
    let normalizer = Normalizer::new();

    assert_eq!(normalizer.canonicalize_route("orally"), "PO");
    assert_eq!(normalizer.canonicalize_route("by mouth"), "PO");
    assert_eq!(normalizer.canonicalize_route("intravenously"), "IV");
    assert_eq!(normalizer.canonicalize_route("subcutaneously"), "SQ");
    assert_eq!(normalizer.canonicalize_route("sub-q"), "SQ");
    assert_eq!(normalizer.canonicalize_route("weird_route"), "WEIRD_ROUTE");
}

#[test]
fn test_normalize_mention() {
    let normalizer = Normalizer::new();
    let parts = normalizer.normalize_parts("rimadyl", Some("mg"), true, Some("orally"));
    let (dose, unit) = normalized_dose(&normalizer, Some(100.0), Some("mg"));

    assert_eq!(parts.normalized_name, "carprofen");
    assert_eq!(dose, Some(100.0));
    assert_eq!(unit, Some("mg".into()));
    assert_eq!(parts.normalized_route, Some("PO".into()));
}

#[test]
fn test_normalize_with_conversion() {
    let normalizer = Normalizer::new();
    let parts = normalizer.normalize_parts("ace", Some("cc"), true, Some("IM"));
    let (dose, unit) = normalized_dose(&normalizer, Some(0.5), Some("cc"));

    assert_eq!(parts.normalized_name, "acepromazine");
    assert_eq!(dose, Some(0.5));
    assert_eq!(unit, Some("mL".into()));
    assert_eq!(parts.normalized_route, Some("IM".into()));
}

#[test]
fn test_microgram_conversion() {
    let normalizer = Normalizer::new();
    let (dose, unit) = normalized_dose(&normalizer, Some(500.0), Some("mcg"));

    assert_eq!(dose, Some(0.5));
    assert_eq!(unit, Some("mg".into()));
}

#[test]
fn test_custom_alias() {
    let mut normalizer = Normalizer::new();
    normalizer.add_alias("customdrug", "realdrugname");

    assert_eq!(normalizer.expand_alias("customdrug"), "realdrugname");
}

#[test]
fn test_all_common_aliases() {
    let normalizer = Normalizer::new();

    let alias_tests = vec![
        ("rimadyl", "carprofen"),
        ("novox", "carprofen"),
        ("metacam", "meloxicam"),
        ("ace", "acepromazine"),
        ("promace", "acepromazine"),
        ("cerenia", "maropitant"),
        ("convenia", "cefovecin"),
        ("baytril", "enrofloxacin"),
        ("dex", "dexamethasone"),
        ("torb", "butorphanol"),
        ("keppra", "levetiracetam"),
        ("vetmedin", "pimobendan"),
        ("lasix", "furosemide"),
        ("salix", "furosemide"),
        ("dexdomitor", "dexmedetomidine"),
        ("domitor", "medetomidine"),
        ("clavamox", "amoxicillin-clavulanate"),
        ("phenobarb", "phenobarbital"),
        ("pred", "prednisone"),
    ];

    for (alias, expected) in alias_tests {
        let result = normalizer.expand_alias(alias);
        assert_eq!(result, expected, "Alias {} should expand to {}, got {}", alias, expected, result);
    }
}

#[test]
fn test_all_route_canonicalizations() {
    let normalizer = Normalizer::new();

    let route_tests = vec![
        ("orally", "PO"),
        ("by mouth", "PO"),
        ("per os", "PO"),
        ("intravenously", "IV"),
        ("intramuscularly", "IM"),
        ("subcutaneously", "SQ"),
        ("subq", "SQ"),
        ("sub-q", "SQ"),
        ("topically", "TOP"),
        ("ophthalmic", "OPH"),
        ("otic", "OT"),
        ("rectally", "PR"),
    ];

    for (spoken, expected) in route_tests {
        let result = normalizer.canonicalize_route(spoken);
        assert_eq!(result, expected, "Route {} should canonicalize to {}, got {}", spoken, expected, result);
    }
}

#[test]
fn test_all_unit_conversions() {
    let normalizer = Normalizer::new();

    let unit_tests = vec![
        ("cc", "mL", 1.0),
        ("ml", "mL", 1.0),
        ("mcg", "mg", 0.001),
        ("microgram", "mg", 0.001),
        ("g", "mg", 1000.0),
        ("gram", "mg", 1000.0),
        ("kg", "mg", 1_000_000.0),
        ("tab", "tablets", 1.0),
        ("tabs", "tablets", 1.0),
        ("cap", "capsules", 1.0),
        ("iu", "IU", 1.0),
    ];

    for (from, expected_unit, expected_mult) in unit_tests {
        let (unit, mult) = normalizer.convert_unit(from);
        assert_eq!(unit, expected_unit, "Unit {} should convert to {}, got {}", from, expected_unit, unit);
        let m = factor_value(mult);
        assert!((m - expected_mult).abs() < 0.0001, "Unit {} multiplier should be {}, got {}", from, expected_mult, m);
    }
}

#[test]
fn missing_dose_or_unit_passes_through() {
    let normalizer = Normalizer::new();
    let parts = normalizer.normalize_parts("x", Some("mcg"), false, None);
    assert_eq!(parts.normalized_unit, Some("mcg".to_string()));
    assert!(parts.factor.is_none());
    let parts = normalizer.normalize_parts("x", None, true, None);
    assert!(parts.normalized_unit.is_none());
    assert!(parts.factor.is_none());
    assert!(parts.normalized_route.is_none());
}

#[test]
fn custom_units_and_routes_take_precedence() {
    let mut normalizer = Normalizer::new();
    normalizer.add_unit_conversion("Drops", "ML", UnitFactor { num: 1, den: 20 });
    let (u, f) = normalizer.convert_unit("drops");
    assert_eq!(u, "ml");
    assert_eq!(f, UnitFactor { num: 1, den: 20 });
    normalizer.add_route("Orally", "po2");
    assert_eq!(normalizer.canonicalize_route("ORALLY"), "PO2");
}

#[test]
fn normalizing_twice_gives_the_same_result() {
    let normalizer = Normalizer::new();
    let once = normalizer.normalize_parts("Rimadyl", Some("cc"), true, Some("by mouth"));
    let again = normalizer.normalize_parts(
        &once.normalized_name,
        once.normalized_unit.as_deref(),
        true,
        once.normalized_route.as_deref(),
    );
    assert_eq!(again.normalized_name, once.normalized_name);
    assert_eq!(again.normalized_unit, once.normalized_unit);
    assert_eq!(again.normalized_route, once.normalized_route);
    assert_eq!(again.factor, Some(UnitFactor { num: 1, den: 1 }));
}
