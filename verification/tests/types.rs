use the_desk::types::{
    CostHint, FieldDescriptor, FieldSpec, FreshnessSemantics, SessionScope, Unit, CATALOG_VERSION,
};

#[test]
fn catalog_enum_parse_round_trips_wire_labels() {
    assert_eq!(Unit::parse("ticks"), Some(Unit::Ticks));
    assert_eq!(Unit::parse("enumLabel"), Some(Unit::EnumLabel));
    assert_eq!(Unit::parse("nope"), None);
    assert_eq!(SessionScope::parse("rth"), Some(SessionScope::Rth));
    assert_eq!(SessionScope::parse("cross_session"), Some(SessionScope::CrossSession));
    assert_eq!(FreshnessSemantics::parse("sessionScoped"), Some(FreshnessSemantics::SessionScoped));
    assert_eq!(CostHint::parse("r2"), Some(CostHint::R2));
    assert_eq!(CostHint::parse("R9"), None);
    assert_eq!(Unit::Count.as_str(), "count");
    assert_eq!(CostHint::R1.as_str(), "R1");
}

#[test]
fn every_label_parses_back() {
    for u in [
        Unit::PricePoints,
        Unit::Contracts,
        Unit::ContractsPerSec,
        Unit::TicksPerSec,
        Unit::Ticks,
        Unit::Ratio,
        Unit::Percent,
        Unit::Count,
        Unit::Milliseconds,
        Unit::Bool,
        Unit::EnumLabel,
        Unit::Text,
        Unit::StructuredBlob,
    ] {
        assert_eq!(Unit::parse(u.as_str()), Some(u));
    }
    for s in [
        SessionScope::Session,
        SessionScope::Rth,
        SessionScope::Globex,
        SessionScope::Segment,
        SessionScope::CrossSession,
    ] {
        assert_eq!(SessionScope::parse(s.as_str()), Some(s));
    }
    for f in [
        FreshnessSemantics::LiveTickAnchored,
        FreshnessSemantics::SessionScoped,
        FreshnessSemantics::PriorSessionCarry,
        FreshnessSemantics::DelayedDepthOptional,
        FreshnessSemantics::StubUnavailable,
        FreshnessSemantics::VendorTimestampFailClosed,
        FreshnessSemantics::ManualAsOfFailClosed,
    ] {
        assert_eq!(FreshnessSemantics::parse(f.as_str()), Some(f));
    }
    for c in [CostHint::R0, CostHint::R1, CostHint::R2, CostHint::R3] {
        assert_eq!(CostHint::parse(&c.as_str().to_lowercase()), Some(c));
    }
    assert_eq!(CATALOG_VERSION, "0.1.0");
}

#[test]
fn field_descriptor_lifts_a_spec() {
    let spec = FieldSpec {
        id: "market.location_structure.lastPrice",
        rust_field: "last_price",
        name: "lastPrice",
        domain_id: "location_structure",
        description: "Last trade price.",
        unit: Unit::PricePoints,
        session_scope: SessionScope::Session,
        freshness: FreshnessSemantics::LiveTickAnchored,
        cost_hint: CostHint::R0,
    };
    let f = FieldDescriptor::from_spec(spec);
    assert_eq!(f.id, "market.location_structure.lastPrice");
    assert_eq!(f.rust_field, "last_price");
    assert_eq!(f.name, "lastPrice");
    assert_eq!(f.domain_id, "location_structure");
    assert_eq!(f.description, "Last trade price.");
    assert_eq!(f.unit, Unit::PricePoints);
    assert_eq!(f.cost_hint, CostHint::R0);
    assert_eq!(f.clone(), f);
}
