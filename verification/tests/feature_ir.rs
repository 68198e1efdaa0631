use the_desk::feature_ir::{
    classify_unfunded, compact_family_token, default_true, resolve_catalog_field,
    screen_program_keys, validate_root_symbol, BaselineAggregator, DwellMode, EventSelector,
    FeatureIrError, OperatorFamily, PercentileOutput, PredicateOp, ProgramShape,
    FUNDED_OPERATOR_FAMILY_GLOSSARY, FUNDED_OPERATOR_FAMILY_LABELS, NEW_OPERATOR_FAMILY_GATE,
};
use the_desk::catalog::build_catalog;
use the_desk::types::{CostHint, DeskCatalog, FieldSpec, FreshnessSemantics, SessionScope, Unit};

const LAST_PRICE: &str = "market.location_structure.lastPrice";

fn catalog() -> DeskCatalog {
    build_catalog(vec![FieldSpec {
        id: LAST_PRICE,
        rust_field: "last_price",
        name: "lastPrice",
        domain_id: "location_structure",
        description: "Last trade price.",
        unit: Unit::PricePoints,
        session_scope: SessionScope::Session,
        freshness: FreshnessSemantics::LiveTickAnchored,
        cost_hint: CostHint::R0,
    }])
}

fn keys(k: &[&str]) -> Vec<String> {
    k.iter().map(|s| s.to_string()).collect()
}

#[test]
fn funded_family_names_match_glossary_exactly() {
    assert_eq!(OperatorFamily::CrossSymbolReferences.glossary_name(), "Cross-symbol references");
    assert_eq!(
        OperatorFamily::SessionDistributionPercentiles.glossary_name(),
        "Session-distribution percentiles"
    );
    assert_eq!(
        OperatorFamily::DwellTimeSincePredicate.glossary_name(),
        "Dwell / time-since-predicate"
    );
    assert_eq!(OperatorFamily::EventSequences.glossary_name(), "Event sequences");
    assert_eq!(OperatorFamily::HistoricalBaselines.glossary_name(), "Historical baselines");
    assert_eq!(FUNDED_OPERATOR_FAMILY_GLOSSARY.len(), 5);
    assert_eq!(FUNDED_OPERATOR_FAMILY_LABELS.len(), 5);
    assert_eq!(NEW_OPERATOR_FAMILY_GATE, "registry_change_proposal");
}

#[test]
fn declare_accepts_each_funded_family() {
    let cat = catalog();
    let programs = [
        (
            keys(&["family", "symbol", "field"]),
            "crossSymbolReferences",
            ProgramShape::CrossSymbolReferences { symbol: "ES".into(), field: LAST_PRICE.into() },
        ),
        (
            keys(&["family", "field"]),
            "sessionDistributionPercentiles",
            ProgramShape::SessionDistributionPercentiles {
                field: LAST_PRICE.into(),
                symbol: None,
                percentile_given: false,
                percentile_ok: true,
                output: PercentileOutput::Rank,
            },
        ),
        (
            keys(&["family", "predicate"]),
            "dwellTimeSincePredicate",
            ProgramShape::DwellTimeSincePredicate {
                field: LAST_PRICE.into(),
                symbol: None,
                op: PredicateOp::Gte,
                mode: DwellMode::Dwell,
            },
        ),
        (
            keys(&["family", "first", "then", "withinMs"]),
            "eventSequences",
            ProgramShape::EventSequences {
                first: EventSelector { event_type: "ib_formed".into(), symbol: None },
                then: EventSelector { event_type: "ib_reentry".into(), symbol: None },
                window_ok: true,
            },
        ),
        (
            keys(&["family", "field", "lookbackDays", "sameTimeOfDay"]),
            "historicalBaselines",
            ProgramShape::HistoricalBaselines {
                field: LAST_PRICE.into(),
                symbol: None,
                lookback_days: 5,
                same_time_of_day: true,
                aggregator: BaselineAggregator::Mean,
                percentile_given: false,
                percentile_ok: true,
            },
        ),
    ];
    for (k, family, shape) in programs {
        let fam = screen_program_keys(&k, Some(family)).expect("funded");
        assert_eq!(fam, shape.family());
        shape.validate(&cat).expect("validate");
    }
    assert_eq!(
        screen_program_keys(&keys(&["family", "symbol", "field"]), Some("Cross-symbol references"))
            .unwrap(),
        OperatorFamily::CrossSymbolReferences
    );
}

#[test]
fn declare_rejects_surface_lookup_and_unknown_families() {
    let surface = screen_program_keys(&keys(&["family", "field", "strike"]), Some("surfaceLookup"));
    assert!(matches!(surface, Err(FeatureIrError::UnfundedOperatorFamily(s)) if s.contains("surface")));
    assert!(matches!(
        screen_program_keys(&keys(&["family", "field"]), Some("interpolation")),
        Err(FeatureIrError::UnfundedOperatorFamily(_))
    ));
    assert!(matches!(
        screen_program_keys(&keys(&["family", "field"]), Some("kalmanFilter")),
        Err(FeatureIrError::UnfundedOperatorFamily(_))
    ));
    assert!(matches!(
        screen_program_keys(
            &keys(&["family", "symbol", "field", "surfaceLookup"]),
            Some("crossSymbolReferences")
        ),
        Err(FeatureIrError::UnfundedOperatorFamily(_))
    ));
}

#[test]
fn declare_rejects_control_flow_keys() {
    let r = screen_program_keys(&keys(&["family", "field", "loop"]), Some("sessionDistributionPercentiles"));
    assert!(matches!(r, Err(FeatureIrError::ControlFlowRejected(s)) if s == "loop"));
}

#[test]
fn declare_rejects_unknown_catalog_fields() {
    let cat = catalog();
    let shape = ProgramShape::CrossSymbolReferences {
        symbol: "ES".into(),
        field: "market.flow.notARealField".into(),
    };
    assert!(matches!(shape.validate(&cat), Err(FeatureIrError::UnknownCatalogField(_))));
}

#[test]
fn declare_rejects_unknown_program_keys() {
    let wrong_case = screen_program_keys(
        &keys(&["family", "field", "lookbackDays", "sametimeofday"]),
        Some("historicalBaselines"),
    );
    assert!(matches!(wrong_case, Err(FeatureIrError::UnknownProgramKey(k)) if k == "sametimeofday"));
    let extra = screen_program_keys(
        &keys(&["family", "symbol", "field", "lookbackDays"]),
        Some("crossSymbolReferences"),
    );
    assert!(matches!(extra, Err(FeatureIrError::UnknownProgramKey(k)) if k == "lookbackDays"));
}

#[test]
fn declare_rejects_percentile_without_matching_output() {
    let cat = catalog();
    let rank_with_p = ProgramShape::SessionDistributionPercentiles {
        field: LAST_PRICE.into(),
        symbol: None,
        percentile_given: true,
        percentile_ok: true,
        output: PercentileOutput::Rank,
    };
    assert_eq!(rank_with_p.validate(&cat), Err(FeatureIrError::UnusedPercentileKey));
    let value_ok = ProgramShape::SessionDistributionPercentiles {
        field: LAST_PRICE.into(),
        symbol: None,
        percentile_given: true,
        percentile_ok: true,
        output: PercentileOutput::Value,
    };
    value_ok.validate(&cat).expect("percentile + output=value");
}

#[test]
fn validation_checks_symbols_lookback_windows_and_percentiles() {
    let cat = catalog();
    let bad_symbol = ProgramShape::CrossSymbolReferences { symbol: "YM".into(), field: LAST_PRICE.into() };
    assert_eq!(bad_symbol.validate(&cat), Err(FeatureIrError::InvalidSymbol));
    let lookback = ProgramShape::HistoricalBaselines {
        field: LAST_PRICE.into(),
        symbol: Some(" NQ ".into()),
        lookback_days: 61,
        same_time_of_day: true,
        aggregator: BaselineAggregator::Median,
        percentile_given: false,
        percentile_ok: true,
    };
    assert_eq!(lookback.validate(&cat), Err(FeatureIrError::InvalidLookback));
    let pct = ProgramShape::HistoricalBaselines {
        field: LAST_PRICE.into(),
        symbol: None,
        lookback_days: 60,
        same_time_of_day: false,
        aggregator: BaselineAggregator::Percentile,
        percentile_given: true,
        percentile_ok: false,
    };
    assert_eq!(pct.validate(&cat), Err(FeatureIrError::InvalidPercentile));
    let window = ProgramShape::EventSequences {
        first: EventSelector { event_type: "a".into(), symbol: None },
        then: EventSelector { event_type: "b".into(), symbol: Some("ES".into()) },
        window_ok: false,
    };
    assert_eq!(window.validate(&cat), Err(FeatureIrError::InvalidEventSequence));
    let blank = ProgramShape::EventSequences {
        first: EventSelector { event_type: "  ".into(), symbol: None },
        then: EventSelector { event_type: "b".into(), symbol: None },
        window_ok: true,
    };
    assert_eq!(blank.validate(&cat), Err(FeatureIrError::InvalidEventSequence));
    let predicate = ProgramShape::DwellTimeSincePredicate {
        field: " ".into(),
        symbol: None,
        op: PredicateOp::Lt,
        mode: DwellMode::TimeSince,
    };
    assert_eq!(predicate.validate(&cat), Err(FeatureIrError::InvalidPredicate));
    // A field may also be named by its catalog name.
    let by_name = ProgramShape::CrossSymbolReferences { symbol: "ES".into(), field: "lastPrice".into() };
    assert!(by_name.validate(&cat).is_ok());
    assert_eq!(resolve_catalog_field(&cat, "lastPrice").unwrap().id, LAST_PRICE);
}

#[test]
fn program_shape_reads_fields_and_event_types() {
    let seq = ProgramShape::EventSequences {
        first: EventSelector { event_type: "ib_formed".into(), symbol: None },
        then: EventSelector { event_type: "ib_reentry".into(), symbol: None },
        window_ok: true,
    };
    assert!(seq.catalog_field_ids().is_empty());
    assert_eq!(seq.sequence_event_types(), vec!["ib_formed".to_string(), "ib_reentry".to_string()]);
    let cross = ProgramShape::CrossSymbolReferences { symbol: "ES".into(), field: LAST_PRICE.into() };
    assert_eq!(cross.catalog_field_ids(), vec![LAST_PRICE.to_string()]);
    assert!(cross.sequence_event_types().is_empty());
}

#[test]
fn family_tokens_and_unfunded_names() {
    assert_eq!(compact_family_token("  Surface-Lookup "), "surfacelookup");
    assert_eq!(classify_unfunded(" Surface lookup "), Some("Surface lookup".to_string()));
    assert_eq!(classify_unfunded("eventSequences"), None);
    assert_eq!(OperatorFamily::parse("event_sequences"), Some(OperatorFamily::EventSequences));
    assert_eq!(OperatorFamily::parse("Historical baselines"), Some(OperatorFamily::HistoricalBaselines));
    assert_eq!(OperatorFamily::parse("kalman"), None);
    assert_eq!(OperatorFamily::CrossSymbolReferences.as_str(), "crossSymbolReferences");
    assert_eq!(
        OperatorFamily::CrossSymbolReferences.allowed_program_keys(),
        vec!["family", "symbol", "field"]
    );
    assert!(validate_root_symbol(" ES ").is_ok());
    assert_eq!(validate_root_symbol("es"), Err(FeatureIrError::InvalidSymbol));
    assert!(default_true());
    assert_eq!(screen_program_keys(&keys(&["field"]), None), Err(FeatureIrError::MissingFamily));
    assert_eq!(screen_program_keys(&keys(&["field"]), Some("   ")), Err(FeatureIrError::MissingFamily));
}

#[test]
fn every_family_wire_label_and_glossary_name_parse_back() {
    let families = [
        OperatorFamily::CrossSymbolReferences,
        OperatorFamily::SessionDistributionPercentiles,
        OperatorFamily::DwellTimeSincePredicate,
        OperatorFamily::EventSequences,
        OperatorFamily::HistoricalBaselines,
    ];
    for f in families {
        assert_eq!(OperatorFamily::parse(f.as_str()), Some(f));
        assert_eq!(OperatorFamily::parse(f.glossary_name()), Some(f));
    }
    assert_eq!(OperatorFamily::parse("surfaceLookup"), None);
    assert_eq!(OperatorFamily::parse("kalmanFilter"), None);
}
