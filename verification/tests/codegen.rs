use the_desk::catalog::{build_catalog, build_catalog_with_overlay};
use the_desk::codegen::{
    apply_codegen_fields, derived_field_descriptor, emit_agent_schema, emit_all,
    emit_query_dimension, emit_rule_binding, emit_runtime_field, emit_storage_column,
    is_accepted_derived, is_codegen_field, storage_payload_key, CodegenError,
    CATALOG_FIELD_CONDITION, DERIVED_FEATURE_PAYLOAD_OBJECT, EMIT_AGENT_SCHEMA,
    EMIT_QUERY_DIMENSION, EMIT_RULE_BINDING, EMIT_RUNTIME_FIELD, EMIT_STORAGE_COLUMN,
    FEATURE_REGISTRY_CODEGEN, JOURNAL_FRAME_STORAGE_TARGET, QUERY_DIMENSION_OPERATORS,
};
use the_desk::feature_ir::{PercentileOutput, ProgramShape};
use the_desk::feature_registry::{
    builtin_base_detectors, validate_derived_feature, DerivedFeatureRegistration, DetectorSchema,
    FeatureDescriptor, FeatureRegistry, HumanGate, PromotionState, FEATURE_REGISTRY_WRITE_VERB,
};
use the_desk::types::{CostHint, FieldSpec, FreshnessSemantics, SessionScope, Unit};

/// Annotated market-state specs for the fields these tests touch: every field
/// a shipped Base Detector cites, plus a few location fields.
fn market_specs() -> Vec<FieldSpec> {
    let mut ids: std::collections::BTreeSet<String> = builtin_base_detectors()
        .iter()
        .flat_map(|d| d.schema.catalog_field_ids.clone())
        .filter(|id| id.starts_with("market."))
        .collect();
    for id in [
        "market.location_structure.lastPrice",
        "market.location_structure.poc",
        "market.location_structure.vwap",
        "market.location_structure.vwap1SdUpper",
        "market.identity.rootSymbol",
    ] {
        ids.insert(id.to_string());
    }
    ids.into_iter()
        .map(|id| {
            let parts: Vec<&str> = id.split('.').collect();
            let domain = parts[1].to_string();
            let name = parts[2].to_string();
            let cost = if name.contains("1Sd") { CostHint::R1 } else { CostHint::R0 };
            let description = format!("Market state field {name}.");
            FieldSpec {
                id: Box::leak(id.clone().into_boxed_str()),
                rust_field: Box::leak(name.to_lowercase().into_boxed_str()),
                name: Box::leak(name.into_boxed_str()),
                domain_id: Box::leak(domain.into_boxed_str()),
                description: Box::leak(description.into_boxed_str()),
                unit: Unit::Count,
                session_scope: SessionScope::Session,
                freshness: FreshnessSemantics::LiveTickAnchored,
                cost_hint: cost,
            }
        })
        .collect()
}

fn registration() -> DerivedFeatureRegistration {
    DerivedFeatureRegistration {
        id: "feature.session_last_price_percentile".into(),
        name: "session_last_price_percentile".into(),
        description: "Session-distribution percentiles of lastPrice (Feature-IR).".into(),
        domain_id: "location_structure".into(),
        schema: DetectorSchema {
            catalog_field_ids: vec!["market.location_structure.lastPrice".into()],
            event_types: vec![],
            unit: Unit::Percent,
            session_scope: SessionScope::Session,
            freshness: FreshnessSemantics::LiveTickAnchored,
            cost_hint: CostHint::R1,
        },
        program: ProgramShape::SessionDistributionPercentiles {
            field: "market.location_structure.lastPrice".into(),
            symbol: None,
            percentile_given: false,
            percentile_ok: true,
            output: PercentileOutput::Rank,
        },
    }
}

fn last_price_percentile() -> FeatureDescriptor {
    let catalog = build_catalog(market_specs());
    let mut desc = validate_derived_feature(registration(), &catalog).expect("validate");
    desc.promotion_state = PromotionState::Active;
    desc.last_gate_note = Some("Your rules say this descriptor may be active.".into());
    desc
}

#[test]
fn one_accepted_descriptor_emits_all_five_artifacts() {
    let desc = last_price_percentile();
    let artifacts = emit_all(&desc).expect("emit");
    assert_eq!(artifacts.id, "feature.session_last_price_percentile");
    assert_eq!(artifacts.runtime_field.field.id, "feature.session_last_price_percentile");
    assert_eq!(artifacts.runtime_field.served_by, "get_state");
    assert_eq!(
        artifacts.storage_column.payload_key,
        "derivedFeatures.feature.session_last_price_percentile"
    );
    assert_eq!(artifacts.storage_column.table, JOURNAL_FRAME_STORAGE_TARGET);
    assert_eq!(artifacts.query_dimension.field_id, "feature.session_last_price_percentile");
    assert_eq!(
        artifacts.query_dimension.operators,
        vec!["query_series".to_string(), "query_episodes".to_string()]
    );
    assert_eq!(artifacts.rule_binding.condition_field, "catalog_field");
    assert_eq!(artifacts.rule_binding.catalog_field_id, "feature.session_last_price_percentile");
    assert!(artifacts.agent_schema.search_catalog);
    assert!(artifacts.agent_schema.describe_domain);
    assert_eq!(artifacts.runtime_field.field.id, artifacts.agent_schema.field.id);
}

#[test]
fn static_catalog_has_no_handwritten_feature_fields() {
    let cat = build_catalog(market_specs());
    assert!(
        cat.fields.iter().all(|f| !f.id.starts_with("feature.")),
        "feature.* write sites must come from codegen, not build_catalog()"
    );
    assert!(cat.derived_features.is_empty());
}

#[test]
fn candidate_does_not_grow_catalog_fields_until_active() {
    let catalog = build_catalog(market_specs());
    let mut registry = FeatureRegistry::builtins();
    let candidate = registry.register_derived(registration(), &catalog).expect("register");
    assert_eq!(candidate.promotion_state, PromotionState::Candidate);
    let overlaid = build_catalog_with_overlay(market_specs(), vec![candidate]);
    assert!(overlaid.fields.iter().all(|f| f.id != "feature.session_last_price_percentile"));

    let mut registry = FeatureRegistry::with_overlay(overlaid.derived_features.clone());
    let gate = HumanGate { trader_confirmation: "Your playbook indicates shadow is allowed." };
    registry
        .promote("feature.session_last_price_percentile", PromotionState::Shadow, gate)
        .expect("shadow");
    let shadow_cat = build_catalog_with_overlay(market_specs(), registry.derived_features());
    assert!(shadow_cat.fields.iter().all(|f| f.id != "feature.session_last_price_percentile"));

    let gate = HumanGate { trader_confirmation: "Your rules say this descriptor may be active." };
    let active = registry
        .promote("feature.session_last_price_percentile", PromotionState::Active, gate)
        .expect("active");
    let active_cat = build_catalog_with_overlay(market_specs(), vec![active]);
    assert!(active_cat.fields.iter().any(|f| f.id == "feature.session_last_price_percentile"));
    let location = active_cat
        .domains
        .iter()
        .find(|d| d.id == "location_structure")
        .expect("domain");
    assert!(location.field_ids.iter().any(|id| id == "feature.session_last_price_percentile"));
    assert!(location.field_ids.windows(2).all(|w| w[0] <= w[1]));
    assert!(active_cat.fields.windows(2).all(|w| w[0].id <= w[1].id));
}

#[test]
fn base_detector_cannot_emit() {
    let pinch = builtin_base_detectors()
        .into_iter()
        .find(|d| d.id == "detector.pinch")
        .expect("pinch");
    assert!(matches!(emit_runtime_field(&pinch), Err(CodegenError::NotDerivedFeature)));
}

#[test]
fn emitter_names_and_constants() {
    assert_eq!(EMIT_RUNTIME_FIELD, "emit_runtime_field");
    assert_eq!(EMIT_STORAGE_COLUMN, "emit_storage_column");
    assert_eq!(EMIT_QUERY_DIMENSION, "emit_query_dimension");
    assert_eq!(EMIT_RULE_BINDING, "emit_rule_binding");
    assert_eq!(EMIT_AGENT_SCHEMA, "emit_agent_schema");
    assert!(FEATURE_REGISTRY_CODEGEN);
    assert_eq!(QUERY_DIMENSION_OPERATORS, ["query_series", "query_episodes"]);
    assert_eq!(DERIVED_FEATURE_PAYLOAD_OBJECT, "derivedFeatures");
    assert_eq!(CATALOG_FIELD_CONDITION, "catalog_field");
}

#[test]
fn each_emitter_answers_for_one_descriptor() {
    let desc = last_price_percentile();
    assert!(is_accepted_derived(&desc));
    let field = derived_field_descriptor(&desc).unwrap();
    assert_eq!(field.name, desc.id);
    assert_eq!(field.rust_field, "feature_ir");
    assert_eq!(field.domain_id, "location_structure");
    assert_eq!(field.unit, Unit::Percent);
    assert_eq!(field.cost_hint, CostHint::R1);
    assert!(is_codegen_field(&field));
    let storage = emit_storage_column(&desc).unwrap();
    assert_eq!(storage.payload_object, "derivedFeatures");
    let dim = emit_query_dimension(&desc).unwrap();
    assert_eq!(dim.field_id, desc.id);
    let rule = emit_rule_binding(&desc).unwrap();
    assert_eq!(rule.write_verb, FEATURE_REGISTRY_WRITE_VERB);
    let schema = emit_agent_schema(&desc).unwrap();
    assert_eq!(schema.field, field);
    assert_eq!(storage_payload_key("feature.x"), "derivedFeatures.feature.x");

    let mut no_program = desc.clone();
    no_program.program_family = None;
    assert_eq!(
        emit_all(&no_program).unwrap_err(),
        CodegenError::MissingProgram("feature.session_last_price_percentile".into())
    );
    assert!(!is_accepted_derived(&no_program));
    let mut candidate = desc.clone();
    candidate.promotion_state = PromotionState::Candidate;
    assert!(!is_accepted_derived(&candidate));
    assert!(emit_all(&candidate).is_ok());
}

#[test]
fn applying_codegen_twice_adds_nothing_more() {
    let mut cat = build_catalog(market_specs());
    cat.derived_features = vec![last_price_percentile()];
    apply_codegen_fields(&mut cat);
    let once = cat.fields.len();
    let ids_once = cat.domains.iter().find(|d| d.id == "location_structure").unwrap().field_ids.clone();
    apply_codegen_fields(&mut cat);
    assert_eq!(cat.fields.len(), once);
    assert_eq!(
        cat.domains.iter().find(|d| d.id == "location_structure").unwrap().field_ids,
        ids_once
    );
    assert_eq!(
        cat.fields.iter().filter(|f| f.id == "feature.session_last_price_percentile").count(),
        1
    );
}
