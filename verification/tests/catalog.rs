use the_desk::catalog::{
    base_domain_shells, build_catalog, build_catalog_with_overlay, describe_domain,
    search_catalog, search_features, specialty_market_tools_allowlist, SPECIALTY_MARKET_TOOLS,
};
use the_desk::feature_registry::{builtin_base_detectors, FeatureKind, PromotionState};
use the_desk::positioning::positioning_domain;
use the_desk::types::{CostHint, FieldSpec, FreshnessSemantics, SessionScope, TrustCeiling, Unit, CATALOG_VERSION};
use std::collections::BTreeSet;

/// Annotated market-state specs for the fields these tests touch: every field
/// a shipped Base Detector cites, plus a few location fields.
fn market_specs() -> Vec<FieldSpec> {
    let mut ids: std::collections::BTreeSet<String> = builtin_base_detectors()
        .iter()
        .flat_map(|d| d.schema.catalog_field_ids.clone())
        .filter(|id| id.starts_with("market."))
        .collect();
    for id in [
        "market.location_structure.lastPrice",
        "market.location_structure.poc",
        "market.location_structure.vwap",
        "market.location_structure.vwap1SdUpper",
        "market.identity.rootSymbol",
    ] {
        ids.insert(id.to_string());
    }
    ids.into_iter()
        .map(|id| {
            let parts: Vec<&str> = id.split('.').collect();
            let domain = parts[1].to_string();
            let name = parts[2].to_string();
            let cost = if name.contains("1Sd") { CostHint::R1 } else { CostHint::R0 };
            let description = format!("Market state field {name}.");
            FieldSpec {
                id: Box::leak(id.clone().into_boxed_str()),
                rust_field: Box::leak(name.to_lowercase().into_boxed_str()),
                name: Box::leak(name.into_boxed_str()),
                domain_id: Box::leak(domain.into_boxed_str()),
                description: Box::leak(description.into_boxed_str()),
                unit: Unit::Count,
                session_scope: SessionScope::Session,
                freshness: FreshnessSemantics::LiveTickAnchored,
                cost_hint: cost,
            }
        })
        .collect()
}

#[test]
fn catalog_version_is_pinned() {
    let cat = build_catalog(market_specs());
    assert_eq!(cat.catalog_version, CATALOG_VERSION);
    assert_eq!(cat.trust_ceiling, TrustCeiling::L3);
}

#[test]
fn every_field_domain_id_resolves_to_a_domain_shell() {
    let cat = build_catalog(market_specs());
    let domain_ids: BTreeSet<_> = cat.domains.iter().map(|d| d.id.as_str()).collect();
    for field in &cat.fields {
        assert!(
            domain_ids.contains(field.domain_id.as_str()),
            "field `{}` references unknown domain_id `{}`",
            field.id,
            field.domain_id
        );
    }
    for domain in &cat.domains {
        for field_id in &domain.field_ids {
            assert!(
                cat.fields.iter().any(|f| f.id == *field_id),
                "domain `{}` lists unknown field_id `{}`",
                domain.id,
                field_id
            );
        }
    }
}

#[test]
fn descriptors_carry_required_semantics() {
    let cat = build_catalog(market_specs());
    assert!(!cat.fields.is_empty());
    for field in &cat.fields {
        assert!(!field.id.is_empty());
        assert!(!field.name.is_empty());
        assert!(!field.domain_id.is_empty());
        assert!(!field.description.is_empty());
    }
}

#[test]
fn positioning_domain_names_four_record_kinds_including_first_class_levels_only() {
    let cat = build_catalog(market_specs());
    assert!(cat.positioning_provider.is_none());
    assert!(cat.fields.iter().any(|f| f.id == "positioning.completeness"));
    assert!(cat.fields.iter().any(|f| f.id == "positioning.asOf"));
    let completeness = cat
        .fields
        .iter()
        .find(|f| f.id == "positioning.completeness")
        .expect("completeness");
    assert_eq!(completeness.cost_hint, CostHint::R0);
    assert!(!completeness.description.to_lowercase().contains("second-class"));
    assert!(!completeness.description.to_lowercase().contains("degraded"));
    let kind_ids: BTreeSet<_> = cat.positioning_record_kinds.iter().map(|k| k.id.as_str()).collect();
    assert_eq!(
        kind_ids,
        BTreeSet::from(["position_grid", "positions_by_strike", "slice", "levels_only"])
    );
    let names: BTreeSet<_> = cat.positioning_record_kinds.iter().map(|k| k.name.as_str()).collect();
    assert!(names.contains("grid"));
    assert!(names.contains("by-strike"));
    assert!(names.contains("Slice"));
    assert!(names.contains("Levels-Only Record"));
    assert!(cat.domains.iter().any(|d| d.id == "positioning"));
}

#[test]
fn describe_apis_return_metadata_only() {
    let cat = build_catalog(market_specs());
    let detail = describe_domain(&cat, "location_structure").expect("domain");
    assert_eq!(detail.domain.id, "location_structure");
    assert!(detail.metadata_only);
    assert_eq!(detail.catalog_version, cat.catalog_version);
    assert!(detail.fields.iter().all(|f| f.domain_id == "location_structure"));
    assert!(detail.fields.iter().any(|f| f.name == "vwap"
        || f.id == "market.location_structure.vwap"));
    assert!(describe_domain(&cat, "nope").is_none());
}

#[test]
fn search_catalog_finds_poc_by_text() {
    let cat = build_catalog(market_specs());
    let hits = search_catalog(&cat, "poc");
    assert!(hits.iter().any(|h| h.id.contains("poc") || h.name == "poc"));
}

#[test]
fn specialty_market_tools_allowlist_is_sorted_and_nonempty() {
    let cat = build_catalog(market_specs());
    assert_eq!(cat.specialty_market_tools.len(), 24);
    assert!(cat.specialty_market_tools.windows(2).all(|w| w[0] < w[1]));
}

#[test]
fn catalog_includes_shipped_base_detectors() {
    let cat = build_catalog(market_specs());
    assert!(cat.base_detectors.len() >= 2);
    assert!(cat
        .base_detectors
        .iter()
        .any(|d| d.id == "detector.absorption" && d.promotion_state == PromotionState::Active));
    assert!(cat
        .base_detectors
        .iter()
        .any(|d| d.id == "detector.pinch" && d.promotion_state == PromotionState::Active));
    let flow = describe_domain(&cat, "flow").expect("flow");
    assert!(flow.base_detectors.iter().any(|d| d.id == "detector.absorption"));
    assert!(flow.base_detectors.iter().any(|d| d.id == "detector.pinch"));
}

#[test]
fn search_features_finds_pinch_without_a_specialty_getter() {
    let cat = build_catalog(market_specs());
    let hits = search_features(&cat, "pinch");
    assert!(hits.iter().any(|h| h.id == "detector.pinch"));
    let hits = search_features(&cat, "base detector");
    assert!(hits.len() >= 2);
    assert!(hits.iter().all(|h| h.kind == FeatureKind::BaseDetector));
    let reentry = search_features(&cat, "ib_reentry");
    assert!(reentry.iter().any(|h| h.id == "detector.structure"));
    let poc_test = search_features(&cat, "poc_test");
    assert!(poc_test.iter().any(|h| h.id == "detector.structure"));
}

#[test]
fn blank_queries_match_nothing() {
    let cat = build_catalog(market_specs());
    assert!(search_catalog(&cat, "   ").is_empty());
    assert!(search_features(&cat, "").is_empty());
    let upper = search_catalog(&cat, "  POC ");
    assert_eq!(upper.len(), search_catalog(&cat, "poc").len());
}

#[test]
fn catalog_is_sorted_and_domains_list_their_fields() {
    let cat = build_catalog(market_specs());
    assert!(cat.fields.windows(2).all(|w| w[0].id <= w[1].id));
    assert!(cat.domains.windows(2).all(|w| w[0].id < w[1].id));
    assert!(cat.base_detectors.windows(2).all(|w| w[0].id < w[1].id));
    assert_eq!(cat.domains.len(), 10);
    assert_eq!(cat.base_detectors.len(), builtin_base_detectors().len());
    assert!(cat.derived_features.is_empty());
    let positioning = cat.domains.iter().find(|d| d.id == "positioning").unwrap();
    assert_eq!(positioning.field_ids, positioning_domain().domain.field_ids);
    assert_eq!(positioning.record_kinds.len(), 4);
    let location = cat.domains.iter().find(|d| d.id == "location_structure").unwrap();
    assert!(location.field_ids.iter().any(|id| id == "market.location_structure.lastPrice"));
    let meta = cat.domains.iter().find(|d| d.id == "meta").unwrap();
    assert!(meta.field_ids.is_empty());
    assert_eq!(base_domain_shells().len(), 10);
    assert_eq!(specialty_market_tools_allowlist().len(), SPECIALTY_MARKET_TOOLS.len());
}

#[test]
fn empty_overlay_leaves_the_catalog_as_built() {
    let plain = build_catalog(market_specs());
    let overlaid = build_catalog_with_overlay(market_specs(), Vec::new());
    assert_eq!(plain.fields, overlaid.fields);
    assert_eq!(plain.base_detectors, overlaid.base_detectors);
    assert!(overlaid.derived_features.is_empty());
}

#[test]
fn fields_sharing_an_id_keep_their_spec_order() {
    let make = |name: &'static str| FieldSpec {
        id: "market.flow.twin",
        rust_field: "twin",
        name,
        domain_id: "flow",
        description: "Twin field.",
        unit: Unit::Count,
        session_scope: SessionScope::Session,
        freshness: FreshnessSemantics::LiveTickAnchored,
        cost_hint: CostHint::R0,
    };
    let cat = build_catalog(vec![make("second"), make("first"), make("third")]);
    let names: Vec<&str> = cat
        .fields
        .iter()
        .filter(|f| f.id == "market.flow.twin")
        .map(|f| f.name.as_str())
        .collect();
    assert_eq!(names, vec!["second", "first", "third"]);
    let ids: Vec<&str> = cat.fields.iter().map(|f| f.id.as_str()).collect();
    let mut sorted = ids.clone();
    sorted.sort();
    assert_eq!(ids, sorted);
}
