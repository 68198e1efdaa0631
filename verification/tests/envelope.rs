use the_desk::catalog::build_catalog;
use the_desk::envelope::{
    budget_drop_order, domain_fields, domain_provenance, field_domain_id, field_is_symbol_scoped,
    is_symbol_scoped_domain, merge_degraded, merge_groups, merge_truncated, merged_domain_key_of,
    merged_value_key_of, select_domains, validate_provenance_complete, EnvelopeError,
    ProvenanceSource, StateResolution, EVENTS_RESERVED_NOTE, POSITIONING_PENDING_NOTE,
    SNAPSHOT_UNAVAILABLE_NOTE,
};
use the_desk::feature_registry::builtin_base_detectors;
use the_desk::types::{CostHint, FieldSpec, FreshnessSemantics, SessionScope, Unit};

/// Annotated market-state specs for the fields these tests touch: every field
/// a shipped Base Detector cites, plus a few location fields.
fn market_specs() -> Vec<FieldSpec> {
    let mut ids: std::collections::BTreeSet<String> = builtin_base_detectors()
        .iter()
        .flat_map(|d| d.schema.catalog_field_ids.clone())
        .filter(|id| id.starts_with("market."))
        .collect();
    for id in [
        "market.location_structure.lastPrice",
        "market.location_structure.poc",
        "market.location_structure.vwap",
        "market.location_structure.vwap1SdUpper",
        "market.identity.rootSymbol",
    ] {
        ids.insert(id.to_string());
    }
    ids.into_iter()
        .map(|id| {
            let parts: Vec<&str> = id.split('.').collect();
            let domain = parts[1].to_string();
            let name = parts[2].to_string();
            let cost = if name.contains("1Sd") { CostHint::R1 } else { CostHint::R0 };
            let description = format!("Market state field {name}.");
            FieldSpec {
                id: Box::leak(id.clone().into_boxed_str()),
                rust_field: Box::leak(name.to_lowercase().into_boxed_str()),
                name: Box::leak(name.into_boxed_str()),
                domain_id: Box::leak(domain.into_boxed_str()),
                description: Box::leak(description.into_boxed_str()),
                unit: Unit::Count,
                session_scope: SessionScope::Session,
                freshness: FreshnessSemantics::LiveTickAnchored,
                cost_hint: cost,
            }
        })
        .collect()
}

fn strings(v: &[&str]) -> Vec<String> {
    v.iter().map(|s| s.to_string()).collect()
}

#[test]
fn rejects_r2_r3_resolution() {
    assert!(matches!(StateResolution::parse("R2"), Err(EnvelopeError::ResolutionOutOfBand(_))));
    assert!(matches!(StateResolution::parse("R3"), Err(EnvelopeError::ResolutionOutOfBand(_))));
    assert_eq!(StateResolution::parse("r0").unwrap(), StateResolution::R0);
}

#[test]
fn provenance_required_for_every_domain() {
    let catalog = build_catalog(market_specs());
    let domains = select_domains(&catalog, None).expect("domains");
    assert_eq!(domains.len(), catalog.domains.len());
    let mut provenance = Vec::new();
    let mut degraded = Vec::new();
    for domain in &domains {
        let plan = domain_provenance(domain, true, ProvenanceSource::Live, false, None);
        provenance.push(domain.clone());
        degraded.push(domain.clone());
        if domain == "meta" {
            assert_eq!(plan.note.as_deref(), Some("catalogVersion=0.1.0"));
            assert!(!plan.degraded);
        }
    }
    for domain in &catalog.domains {
        assert!(domains.contains(&domain.id), "missing provenance for {}", domain.id);
    }
    assert!(validate_provenance_complete(&provenance, &degraded).is_ok());
}

#[test]
fn degraded_domain_returns_flag_not_whole_call_failure() {
    let catalog = build_catalog(market_specs());
    let requested = strings(&["positioning", "location_structure"]);
    let domains = select_domains(&catalog, Some(&requested)).expect("partial envelope must succeed");
    assert_eq!(domains, strings(&["location_structure", "positioning"]));
    let note = Some("pipeline_lock_contended".to_string());
    let positioning = domain_provenance("positioning", false, ProvenanceSource::Live, true, note.clone());
    let location = domain_provenance("location_structure", false, ProvenanceSource::Live, true, note);
    assert!(positioning.degraded);
    assert!(location.degraded);
    assert!(!positioning.carries_data_time);
    assert_eq!(positioning.source, ProvenanceSource::Manual);
    assert_eq!(positioning.note.as_deref(), Some(POSITIONING_PENDING_NOTE));
    assert_eq!(location.note.as_deref(), Some("pipeline_lock_contended"));
    assert_eq!(location.source, ProvenanceSource::Live);
}

#[test]
fn missing_provenance_is_a_failure() {
    let degraded = strings(&["flow"]);
    assert!(matches!(
        validate_provenance_complete(&Vec::new(), &degraded),
        Err(EnvelopeError::MissingProvenance(_))
    ));
    let provenance = strings(&["flow"]);
    assert!(validate_provenance_complete(&provenance, &degraded).is_ok());
}

#[test]
fn r0_excludes_r1_cost_fields() {
    let catalog = build_catalog(market_specs());
    let r0 = domain_fields(&catalog, "location_structure", false, true, StateResolution::R0, None);
    assert!(r0.iter().any(|f| f.id == "market.location_structure.lastPrice"));
    assert!(!r0.iter().any(|f| f.id.contains("vwap1Sd") || f.id.contains("Vwap1Sd")));
    let r1 = domain_fields(&catalog, "location_structure", false, true, StateResolution::R1, None);
    assert!(r1.iter().any(|f| f.id.contains("vwap1Sd")));
}

#[test]
fn journal_as_of_uses_journal_provenance() {
    let plan = domain_provenance("identity", true, ProvenanceSource::Journal, false, None);
    assert_eq!(plan.source, ProvenanceSource::Journal);
    assert!(plan.carries_data_time);
    assert!(!plan.degraded);
    assert!(plan.note.is_none());
}

#[test]
fn multi_symbol_envelope_prefixes_values_and_keeps_l0() {
    let roots = strings(&["ES", "NQ"]);
    let values = vec![
        strings(&["market.location_structure.lastPrice"]),
        strings(&["market.location_structure.lastPrice"]),
    ];
    let groups = merge_groups(&roots, &values, false);
    let keys: Vec<_> = groups.iter().map(|g| g.key.as_str()).collect();
    assert_eq!(
        keys,
        ["ES.market.location_structure.lastPrice", "NQ.market.location_structure.lastPrice"]
    );
    assert_eq!(groups[1].sources, vec![(1, 0)]);
    let domains = vec![strings(&["identity", "location_structure"]), strings(&["identity", "location_structure"])];
    let flags = vec![vec![false, false], vec![false, true]];
    let merged = merge_degraded(&roots, &domains, &flags);
    assert_eq!(
        merged,
        vec![
            ("ES.identity".to_string(), false),
            ("ES.location_structure".to_string(), false),
            ("NQ.identity".to_string(), false),
            ("NQ.location_structure".to_string(), true),
        ]
    );
    assert_eq!(the_desk::envelope::TrustLevel::L0, the_desk::envelope::TrustLevel::L0);
}

#[test]
fn multi_symbol_keeps_meta_and_positioning_unprefixed() {
    let roots = strings(&["ES", "NQ"]);
    let domains = vec![
        strings(&["identity", "location_structure", "meta", "positioning"]),
        strings(&["identity", "location_structure", "meta", "positioning"]),
    ];
    let flags = vec![vec![false, false, false, true], vec![false, false, false, false]];
    let merged = merge_degraded(&roots, &domains, &flags);
    let keys: Vec<_> = merged.iter().map(|(k, _)| k.as_str()).collect();
    assert!(keys.contains(&"meta"));
    assert!(keys.contains(&"positioning"));
    assert!(!keys.contains(&"NQ.meta"));
    assert!(!keys.contains(&"ES.positioning"));
    assert!(keys.contains(&"NQ.identity"));
    assert!(keys.contains(&"ES.identity"));
    assert_eq!(merged.iter().find(|(k, _)| k == "positioning").unwrap().1, true);
    let values = vec![strings(&["meta.catalogVersion"]), strings(&["meta.catalogVersion"])];
    let groups = merge_groups(&roots, &values, false);
    assert_eq!(groups.len(), 1);
    assert_eq!(groups[0].key, "meta.catalogVersion");
    assert_eq!(groups[0].sources, vec![(0, 0), (1, 0)]);
}

#[test]
fn symbol_scoped_keys_and_field_domains() {
    assert!(!is_symbol_scoped_domain("positioning"));
    assert!(!is_symbol_scoped_domain("events"));
    assert!(!is_symbol_scoped_domain("meta"));
    assert!(is_symbol_scoped_domain("flow"));
    assert_eq!(field_domain_id("market.location_structure.lastPrice").as_deref(), Some("location_structure"));
    assert_eq!(field_domain_id("positioning.asOf").as_deref(), Some("positioning"));
    assert_eq!(field_domain_id("meta").as_deref(), Some("meta"));
    assert!(!field_is_symbol_scoped("meta.catalogVersion"));
    assert!(field_is_symbol_scoped("market.flow.delta"));
    assert_eq!(merged_value_key_of("NQ", "market.flow.delta"), "NQ.market.flow.delta");
    assert_eq!(merged_value_key_of("NQ", "positioning.asOf"), "positioning.asOf");
    assert_eq!(merged_domain_key_of("ES", "flow"), "ES.flow");
    assert_eq!(merged_domain_key_of("ES", "events"), "events");
}

#[test]
fn domain_selection_rules() {
    let catalog = build_catalog(market_specs());
    let err = select_domains(&catalog, Some(&strings(&["flow", " nope "]))).unwrap_err();
    assert_eq!(err, EnvelopeError::UnknownDomain("nope".into()));
    let blank = select_domains(&catalog, Some(&strings(&["  ", ""]))).unwrap();
    assert_eq!(blank.len(), catalog.domains.len());
    let dup = select_domains(&catalog, Some(&strings(&["meta", " flow", "meta"]))).unwrap();
    assert_eq!(dup, strings(&["flow", "meta"]));
    let empty = select_domains(&catalog, Some(&Vec::new())).unwrap();
    assert_eq!(empty.len(), 10);
}

#[test]
fn provenance_errors_name_the_domain() {
    assert_eq!(
        validate_provenance_complete(&strings(&["flow", "meta"]), &strings(&["flow"])),
        Err(EnvelopeError::MissingProvenance("meta (degraded flag absent)".into()))
    );
    assert_eq!(
        validate_provenance_complete(&strings(&["flow"]), &strings(&["events", "flow"])),
        Err(EnvelopeError::MissingProvenance("events".into()))
    );
    assert_eq!(
        validate_provenance_complete(&Vec::new(), &Vec::new()),
        Err(EnvelopeError::MissingProvenance("<empty>".into()))
    );
}

#[test]
fn events_and_missing_snapshot_notes() {
    let events = domain_provenance("events", true, ProvenanceSource::Journal, false, None);
    assert!(events.degraded);
    assert_eq!(events.source, ProvenanceSource::Journal);
    assert_eq!(events.note.as_deref(), Some(EVENTS_RESERVED_NOTE));
    let flow = domain_provenance("flow", false, ProvenanceSource::Live, false, None);
    assert!(flow.degraded);
    assert_eq!(flow.note.as_deref(), Some(SNAPSHOT_UNAVAILABLE_NOTE));
}

#[test]
fn field_filter_and_degraded_slices() {
    let catalog = build_catalog(market_specs());
    let filter = strings(&["lastPrice"]);
    let only = domain_fields(&catalog, "location_structure", false, true, StateResolution::R1, Some(&filter));
    assert_eq!(only.len(), 1);
    assert_eq!(only[0].id, "market.location_structure.lastPrice");
    let none = domain_fields(&catalog, "location_structure", true, false, StateResolution::R1, None);
    assert!(none.is_empty());
    let meta = domain_fields(&catalog, "meta", true, false, StateResolution::R1, None);
    assert!(meta.is_empty());
    assert!(StateResolution::R1.allows(CostHint::R1));
    assert!(!StateResolution::R0.allows(CostHint::R1));
    assert!(!StateResolution::R1.allows(CostHint::R2));
}

#[test]
fn budget_pressure_drops_other_roots_first() {
    let order = budget_drop_order(strings(&[
        "ES.a",
        "ES.b",
        "NQ.a",
        "NQ.b",
        "meta.catalogVersion",
    ]));
    assert_eq!(order, strings(&["meta.catalogVersion", "ES.b", "ES.a", "NQ.b", "NQ.a"]));
}

#[test]
fn truncation_merges_true_over_false_over_unknown() {
    assert_eq!(merge_truncated(&vec![Some(false), Some(true)]), Some(true));
    assert_eq!(merge_truncated(&vec![None, Some(false)]), Some(false));
    assert_eq!(merge_truncated(&vec![None, None]), None);
}
