use the_desk::catalog::{
    build_catalog, build_catalog_with_overlay, concept_has_catalog_or_registry_entry,
    search_features,
};
use the_desk::event_lifecycle::{
    classify_event_family, is_dom_family_event_type, requires_capsule, EventFamily,
    DOM_FAMILY_EVENT_TYPES,
};
use the_desk::feature_ir::{FeatureIrError, PercentileOutput, ProgramShape, DERIVED_FEATURE_MATH_TIER, FEATURE_IR_SOURCE};
use the_desk::feature_registry::{
    apply_promotion, builtin_base_detectors, specialty_tool_registry_id, validate_registration,
    BaseDetectorRegistration, DerivedFeatureRegistration, DetectorSchema, FeatureKind,
    FeatureProvenance, FeatureRegistry, FeatureRegistryError, HumanGate, PromotionState,
    DETECTOR_SPECIALTY_TOOLS, RUST_PIPELINE_SOURCE, STRUCTURE_EVENT_TYPES, TIER1_REVIEWED_RUST,
};
use the_desk::types::{CostHint, DeskCatalog, FieldSpec, FreshnessSemantics, SessionScope, Unit};
use std::collections::BTreeSet;

/// Annotated market-state specs for the fields these tests touch: every field
/// a shipped Base Detector cites, plus a few location fields.
fn market_specs() -> Vec<FieldSpec> {
    let mut ids: std::collections::BTreeSet<String> = builtin_base_detectors()
        .iter()
        .flat_map(|d| d.schema.catalog_field_ids.clone())
        .filter(|id| id.starts_with("market."))
        .collect();
    for id in [
        "market.location_structure.lastPrice",
        "market.location_structure.poc",
        "market.location_structure.vwap",
        "market.location_structure.vwap1SdUpper",
        "market.identity.rootSymbol",
    ] {
        ids.insert(id.to_string());
    }
    ids.into_iter()
        .map(|id| {
            let parts: Vec<&str> = id.split('.').collect();
            let domain = parts[1].to_string();
            let name = parts[2].to_string();
            let cost = if name.contains("1Sd") { CostHint::R1 } else { CostHint::R0 };
            let description = format!("Market state field {name}.");
            FieldSpec {
                id: Box::leak(id.clone().into_boxed_str()),
                rust_field: Box::leak(name.to_lowercase().into_boxed_str()),
                name: Box::leak(name.into_boxed_str()),
                domain_id: Box::leak(domain.into_boxed_str()),
                description: Box::leak(description.into_boxed_str()),
                unit: Unit::Count,
                session_scope: SessionScope::Session,
                freshness: FreshnessSemantics::LiveTickAnchored,
                cost_hint: cost,
            }
        })
        .collect()
}

fn example_registration() -> BaseDetectorRegistration {
    BaseDetectorRegistration {
        id: "detector.example_candidate".into(),
        name: "example_candidate".into(),
        description: "Example candidate detector for registry tests.".into(),
        domain_id: "flow".into(),
        schema: DetectorSchema {
            catalog_field_ids: vec!["market.flow.pinchEventCount".into()],
            event_types: vec!["example_candidate_detected".into()],
            unit: Unit::Count,
            session_scope: SessionScope::Session,
            freshness: FreshnessSemantics::LiveTickAnchored,
            cost_hint: CostHint::R1,
        },
        provenance: FeatureProvenance {
            source: RUST_PIPELINE_SOURCE.into(),
            rust_module: "unwired".into(),
            math_tier: TIER1_REVIEWED_RUST.into(),
            behavior_change: true,
        },
    }
}

fn derived_example(catalog: &DeskCatalog) -> DerivedFeatureRegistration {
    let program = ProgramShape::SessionDistributionPercentiles {
        field: "market.location_structure.lastPrice".into(),
        symbol: None,
        percentile_given: false,
        percentile_ok: true,
        output: PercentileOutput::Rank,
    };
    program.validate(catalog).expect("validate");
    DerivedFeatureRegistration {
        id: "feature.session_last_price_percentile".into(),
        name: "session_last_price_percentile".into(),
        description: "Session-distribution percentiles of lastPrice.".into(),
        domain_id: "location_structure".into(),
        schema: DetectorSchema {
            catalog_field_ids: vec![],
            event_types: vec![],
            unit: Unit::Percent,
            session_scope: SessionScope::Session,
            freshness: FreshnessSemantics::LiveTickAnchored,
            cost_hint: CostHint::R2,
        },
        program,
    }
}

#[test]
fn builtins_include_absorption_and_pinch_as_active_without_behavior_change() {
    let registry = FeatureRegistry::builtins();
    for id in ["detector.absorption", "detector.pinch", "detector.leg_to_leg"] {
        let d = registry.get(id).unwrap_or_else(|| panic!("{id}"));
        assert_eq!(d.kind, FeatureKind::BaseDetector);
        assert_eq!(d.promotion_state, PromotionState::Active);
        assert!(d.builtin);
        assert!(!d.provenance.behavior_change);
        assert_eq!(d.provenance.source, RUST_PIPELINE_SOURCE);
        assert_eq!(d.provenance.math_tier, TIER1_REVIEWED_RUST);
        assert!(!d.schema.event_types.is_empty());
        assert!(!d.schema.catalog_field_ids.is_empty());
        assert!(d.program_family.is_none());
    }
    assert!(registry.get("detector.rebid_reoffer").is_some());
    assert!(registry.get("detector.trade_size").is_some());
    assert!(registry.get("detector.structure").is_some());
}

#[test]
fn builtin_ids_are_unique_and_sorted_contract() {
    let rows = builtin_base_detectors();
    let ids: Vec<_> = rows.iter().map(|d| d.id.as_str()).collect();
    let unique: BTreeSet<_> = ids.iter().copied().collect();
    assert_eq!(unique.len(), ids.len());
    assert!(ids.windows(2).all(|w| w[0] < w[1]));
}

#[test]
fn builtin_catalog_fields_resolve() {
    let catalog = build_catalog(market_specs());
    let field_ids: BTreeSet<_> = catalog.fields.iter().map(|f| f.id.as_str()).collect();
    for detector in builtin_base_detectors() {
        for field in &detector.schema.catalog_field_ids {
            assert!(
                field_ids.contains(field.as_str()),
                "{} cites unknown catalog field {field}",
                detector.id
            );
        }
    }
}

#[test]
fn structure_event_types_cover_event_detector_output() {
    assert!(STRUCTURE_EVENT_TYPES.windows(2).all(|w| w[0] < w[1]));
    let unique: BTreeSet<_> = STRUCTURE_EVENT_TYPES.iter().copied().collect();
    assert_eq!(unique.len(), STRUCTURE_EVENT_TYPES.len());
    let structure = builtin_base_detectors()
        .into_iter()
        .find(|d| d.id == "detector.structure")
        .expect("structure");
    let listed: BTreeSet<_> = structure.schema.event_types.iter().map(|s| s.as_str()).collect();
    for event in STRUCTURE_EVENT_TYPES {
        assert!(listed.contains(event), "detector.structure missing event type {event}");
    }
    for required in [
        "ib_reentry",
        "ib_reentry_hit_mid",
        "ib_reentry_full_traverse",
        "rvol_at_ib_close",
        "poc_test",
        "ib_high_test",
        "prior_day_high_test",
        "vah_test",
    ] {
        assert!(listed.contains(required), "detector.structure must list {required}");
    }
    assert!(!listed.contains("ib_ext_0.5x_high_hit"));
    assert!(listed.contains("ib_extension_hit"));
}

#[test]
fn detector_leg_to_leg_is_builtin_active_non_dom() {
    let catalog = build_catalog(market_specs());
    let detector = catalog
        .base_detectors
        .iter()
        .find(|d| d.id == "detector.leg_to_leg")
        .expect("detector.leg_to_leg");
    assert_eq!(detector.kind, FeatureKind::BaseDetector);
    assert_eq!(detector.promotion_state, PromotionState::Active);
    assert!(detector.builtin);
    assert!(!detector.provenance.behavior_change);
    assert!(detector.program_family.is_none());
    assert_eq!(detector.schema.session_scope, SessionScope::Session);
    assert_eq!(detector.schema.cost_hint, CostHint::R1);
    assert_eq!(detector.schema.freshness, FreshnessSemantics::LiveTickAnchored);
    let listed: BTreeSet<_> = detector.schema.event_types.iter().map(|s| s.as_str()).collect();
    assert!(listed.contains("leg_started"));
    assert!(listed.contains("leg_completed"));
    for event in ["leg_started", "leg_completed"] {
        assert!(
            !DOM_FAMILY_EVENT_TYPES.contains(&event),
            "{event} must not be a DOM-family / Capsule-mandatory type"
        );
        assert!(!is_dom_family_event_type(event));
        assert!(!requires_capsule(event));
        assert_eq!(classify_event_family(event), EventFamily::Flow);
    }
    assert!(search_features(&catalog, "leg_to_leg").iter().any(|h| h.id == "detector.leg_to_leg"));
    assert!(concept_has_catalog_or_registry_entry(&catalog, "detector.leg_to_leg"));
}

#[test]
fn dom_cluster_detectors_are_not_registered_in_m5a() {
    let registry = FeatureRegistry::builtins();
    for ty in DOM_FAMILY_EVENT_TYPES {
        let id = format!("detector.{ty}");
        assert!(registry.get(&id).is_none(), "{id} must not be a shipped Base Detector here");
    }
    let catalog = build_catalog(market_specs());
    assert!(!concept_has_catalog_or_registry_entry(&catalog, "detector.iceberg_reload"));
    assert!(!concept_has_catalog_or_registry_entry(&catalog, "detector.stop_run"));
}

#[test]
fn register_accepts_base_detector_at_candidate() {
    let mut registry = FeatureRegistry::builtins();
    let desc = registry.register(example_registration()).expect("register");
    assert_eq!(desc.promotion_state, PromotionState::Candidate);
    assert!(!desc.builtin);
    assert!(!desc.provenance.behavior_change);
    assert_eq!(desc.kind, FeatureKind::BaseDetector);
}

#[test]
fn register_rejects_duplicate_and_builtin_ids() {
    let mut registry = FeatureRegistry::builtins();
    let mut dup = example_registration();
    dup.id = "detector.absorption".into();
    assert!(matches!(registry.register(dup), Err(FeatureRegistryError::BuiltinImmutable(_))));
    registry.register(example_registration()).expect("first");
    assert!(matches!(
        registry.register(example_registration()),
        Err(FeatureRegistryError::DuplicateId(_))
    ));
}

#[test]
fn register_rejects_missing_schema_and_bad_ids() {
    let mut bad = example_registration();
    bad.schema.catalog_field_ids.clear();
    bad.schema.event_types.clear();
    assert_eq!(validate_registration(bad).unwrap_err(), FeatureRegistryError::MissingSchema);
    let mut bad_id = example_registration();
    bad_id.id = "absorption".into();
    assert!(matches!(validate_registration(bad_id), Err(FeatureRegistryError::InvalidId(_))));
}

#[test]
fn human_gate_required_for_each_promotion_step() {
    assert_eq!(HumanGate::parse("").unwrap_err(), FeatureRegistryError::HumanGateRequired);
    assert_eq!(HumanGate::parse("   ").unwrap_err(), FeatureRegistryError::HumanGateRequired);
    let gate = HumanGate::parse("trader confirms shadow eval").expect("gate");
    assert_eq!(
        apply_promotion(PromotionState::Candidate, PromotionState::Active, gate).unwrap_err(),
        FeatureRegistryError::IllegalPromotion {
            from: PromotionState::Candidate,
            to: PromotionState::Active,
        }
    );
    assert_eq!(
        apply_promotion(PromotionState::Candidate, PromotionState::Shadow, gate).expect("step"),
        PromotionState::Shadow
    );
    assert_eq!(
        apply_promotion(PromotionState::Shadow, PromotionState::Active, gate).expect("step"),
        PromotionState::Active
    );
}

#[test]
fn promote_walks_candidate_shadow_active_and_rejects_builtin() {
    let mut registry = FeatureRegistry::builtins();
    registry.register(example_registration()).expect("register");
    let gate = HumanGate::parse("your rules say promote to shadow").expect("gate");
    let shadow = registry
        .promote("detector.example_candidate", PromotionState::Shadow, gate)
        .expect("shadow");
    assert_eq!(shadow.promotion_state, PromotionState::Shadow);
    let active = registry
        .promote("detector.example_candidate", PromotionState::Active, gate)
        .expect("active");
    assert_eq!(active.promotion_state, PromotionState::Active);
    assert!(matches!(
        registry.promote("detector.absorption", PromotionState::Shadow, gate),
        Err(FeatureRegistryError::BuiltinImmutable(_))
    ));
}

#[test]
fn overlay_cannot_clobber_builtins() {
    let mut fake = builtin_base_detectors()
        .into_iter()
        .find(|d| d.id == "detector.pinch")
        .expect("pinch");
    fake.promotion_state = PromotionState::Candidate;
    fake.builtin = false;
    let merged = FeatureRegistry::with_overlay(vec![fake]);
    let pinch = merged.get("detector.pinch").expect("pinch");
    assert_eq!(pinch.promotion_state, PromotionState::Active);
    assert!(pinch.builtin);
}

#[test]
fn detector_specialty_tools_require_active_registry_entry() {
    let catalog = build_catalog(market_specs());
    for (tool, id) in DETECTOR_SPECIALTY_TOOLS {
        assert!(
            catalog.specialty_market_tools.iter().any(|t| t == tool),
            "{tool} must stay on the specialty allowlist"
        );
        let detector = catalog
            .base_detectors
            .iter()
            .find(|d| d.id == id)
            .unwrap_or_else(|| panic!("{id}"));
        assert_eq!(detector.promotion_state, PromotionState::Active);
        assert_eq!(specialty_tool_registry_id(tool), Some(id));
        assert!(concept_has_catalog_or_registry_entry(&catalog, id));
    }
}

#[test]
fn unregistered_concept_cannot_add_a_specialty_tool() {
    let catalog = build_catalog(market_specs());
    assert!(!concept_has_catalog_or_registry_entry(&catalog, "detector.iceberg_reload"));
    assert!(concept_has_catalog_or_registry_entry(&catalog, "detector.absorption"));
    assert!(concept_has_catalog_or_registry_entry(&catalog, "market.location_structure.poc"));
}

#[test]
fn register_derived_feature_at_candidate_and_human_gate_still_applies() {
    let catalog = build_catalog(market_specs());
    let mut registry = FeatureRegistry::builtins();
    let desc = registry
        .register_derived(derived_example(&catalog), &catalog)
        .expect("register derived");
    assert_eq!(desc.kind, FeatureKind::DerivedFeature);
    assert_eq!(desc.promotion_state, PromotionState::Candidate);
    assert!(!desc.builtin);
    assert_eq!(desc.provenance.source, FEATURE_IR_SOURCE);
    assert_eq!(desc.provenance.math_tier, DERIVED_FEATURE_MATH_TIER);
    assert!(!desc.provenance.behavior_change);
    assert!(desc.program_family.is_some());
    assert!(desc
        .schema
        .catalog_field_ids
        .iter()
        .any(|id| id == "market.location_structure.lastPrice"));

    let gate =
        HumanGate::parse("Your rules say this derived feature may run in shadow.").expect("gate");
    assert!(matches!(
        registry.promote("feature.session_last_price_percentile", PromotionState::Active, gate),
        Err(FeatureRegistryError::IllegalPromotion { .. })
    ));
    let shadow = registry
        .promote("feature.session_last_price_percentile", PromotionState::Shadow, gate)
        .expect("shadow");
    assert_eq!(shadow.promotion_state, PromotionState::Shadow);
    let active = registry
        .promote("feature.session_last_price_percentile", PromotionState::Active, gate)
        .expect("active");
    assert_eq!(active.promotion_state, PromotionState::Active);
}

#[test]
fn register_derived_rejects_unfunded_surface_lookup() {
    let catalog = build_catalog(market_specs());
    let err = the_desk::feature_ir::screen_program_keys(
        &vec!["family".to_string(), "field".to_string()],
        Some("surfaceLookup"),
    )
    .unwrap_err();
    assert!(matches!(err, FeatureIrError::UnfundedOperatorFamily(_)));
    let mut bad = derived_example(&catalog);
    bad.id = "detector.not_derived".into();
    let mut registry = FeatureRegistry::builtins();
    assert!(matches!(
        registry.register_derived(bad, &catalog),
        Err(FeatureRegistryError::InvalidDerivedId(_))
    ));
}

#[test]
fn derived_overlay_round_trips_and_search_finds_feature_ir() {
    let catalog = build_catalog(market_specs());
    let mut registry = FeatureRegistry::builtins();
    let registered = registry
        .register_derived(derived_example(&catalog), &catalog)
        .expect("register");
    let merged = FeatureRegistry::with_overlay(vec![registered.clone()]);
    let derived = merged.get("feature.session_last_price_percentile").expect("derived");
    assert_eq!(derived.kind, FeatureKind::DerivedFeature);
    assert!(derived.program_family.is_some());
    let full = build_catalog_with_overlay(market_specs(), vec![registered]);
    assert!(full.base_detectors.iter().any(|d| d.id == "detector.pinch"));
    assert!(full.derived_features.iter().any(|d| d.id == "feature.session_last_price_percentile"));
    let hits = search_features(&full, "derived feature");
    assert!(
        hits.iter().all(|h| h.kind == FeatureKind::DerivedFeature),
        "kind-literal `derived feature` must not return Base Detectors"
    );
    assert!(hits.iter().any(|h| h.id == "feature.session_last_price_percentile"));
    let ir_hits = search_features(&full, "feature-ir");
    assert!(ir_hits.iter().all(|h| h.kind == FeatureKind::DerivedFeature));
    let detector_hits = search_features(&full, "detector");
    assert!(
        detector_hits.iter().all(|h| h.kind == FeatureKind::BaseDetector),
        "kind-literal `detector` must not return Derived Features"
    );
    assert!(detector_hits.iter().any(|h| h.id == "detector.pinch"));
    assert!(detector_hits.iter().any(|h| h.id == "detector.leg_to_leg"));
    let hits = search_features(&full, "sessionDistributionPercentiles");
    assert!(hits.iter().any(|h| h.id == "feature.session_last_price_percentile"));
}

#[test]
fn derived_registration_errors_come_in_order() {
    let catalog = build_catalog(market_specs());
    let mut unnamed = derived_example(&catalog);
    unnamed.name = "  ".into();
    assert_eq!(
        the_desk::feature_registry::validate_derived_feature(unnamed, &catalog).unwrap_err(),
        FeatureRegistryError::MissingIdentity
    );
    let mut unknown = derived_example(&catalog);
    unknown.program = ProgramShape::CrossSymbolReferences {
        symbol: "ES".into(),
        field: "market.flow.nope".into(),
    };
    assert_eq!(
        the_desk::feature_registry::validate_derived_feature(unknown, &catalog).unwrap_err(),
        FeatureRegistryError::FeatureIr(FeatureIrError::UnknownCatalogField("market.flow.nope".into()))
    );
    let ok = the_desk::feature_registry::validate_derived_feature(derived_example(&catalog), &catalog)
        .unwrap();
    assert_eq!(ok.schema.catalog_field_ids, vec!["market.location_structure.lastPrice".to_string()]);
    assert!(ok.schema.event_types.is_empty());
    assert_eq!(ok.id, "feature.session_last_price_percentile");
}

#[test]
fn promotion_labels_and_kinds_round_trip() {
    for p in [PromotionState::Candidate, PromotionState::Shadow, PromotionState::Active] {
        assert_eq!(PromotionState::parse(p.as_str()), Some(p));
    }
    assert_eq!(PromotionState::parse("ACTIVE "), Some(PromotionState::Active));
    for k in [FeatureKind::BaseDetector, FeatureKind::DerivedFeature] {
        assert_eq!(FeatureKind::parse(k.as_str()), Some(k));
    }
    let gate = HumanGate::parse("confirmed").unwrap();
    assert_eq!(
        apply_promotion(PromotionState::Active, PromotionState::Active, gate).unwrap_err(),
        FeatureRegistryError::AlreadyInState(PromotionState::Active)
    );
}

#[test]
fn register_derived_twice_is_a_duplicate_and_leaves_the_first() {
    let catalog = build_catalog(market_specs());
    let mut registry = FeatureRegistry::builtins();
    let first = registry
        .register_derived(derived_example(&catalog), &catalog)
        .expect("register");
    assert!(matches!(
        registry.register_derived(derived_example(&catalog), &catalog),
        Err(FeatureRegistryError::DuplicateId(id)) if id == first.id
    ));
    assert_eq!(registry.get(&first.id), Some(&first));
    let mut bad = derived_example(&catalog);
    bad.id = "feature.other_percentile".into();
    bad.name = "   ".into();
    assert_eq!(
        registry.register_derived(bad, &catalog),
        Err(FeatureRegistryError::MissingIdentity)
    );
    assert!(registry.get("feature.other_percentile").is_none());
}
