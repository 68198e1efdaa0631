//! Positioning domain of the catalog: four first-class record kinds and the
//! fields that describe the current record.
//!
//! Levels-Only Records are written via `positioning_entry` (manual/as-of);
//! there is no live positioning provider.

use vstd::prelude::*;

use crate::text::{owned, string_views};
use crate::types::{
    field_views, CostHint, DomainDescriptor, FieldDescriptor, FieldView, FreshnessSemantics,
    PositioningRecordKind, SessionScope, Unit,
};

verus! {

/// Summary of the Positioning domain.
pub const POSITIONING_SUMMARY: &'static str = "Dealer/options Positioning \u{2014} grid aggregations, by-strike positions, greek Slices, and first-class Levels-Only Records. Manual write via positioning_entry; no live Vs3dProvider.";

/// The Positioning domain with its record kinds and fields.
pub struct PositioningStub {
    pub domain: DomainDescriptor,
    pub record_kinds: Vec<PositioningRecordKind>,
    pub fields: Vec<FieldDescriptor>,
}

/// The Positioning record kinds (id, name, summary), in catalog order.
pub open spec fn positioning_kinds() -> Seq<(Seq<char>, Seq<char>, Seq<char>)> {
    seq![
        ("position_grid"@, "grid"@, "Primary capture panel \u{2014} grid aggregations of dealer positioning (schema v1)."@),
        ("positions_by_strike"@, "by-strike"@, "By-strike positions; Desk may aggregate from the position grid rather than capture separately."@),
        ("slice"@, "Slice"@, "Price-indexed greek surface values at one moment (capturedAt/dataTime) plus Desk-derived levels at ingest. Vendor forward projections are never part of a Slice."@),
        ("levels_only"@, "Levels-Only Record"@, "First-class Positioning record carrying only derived levels (flip, walls, BALANCE / UPSIDE / DOWNSIDE TEST) \u{2014} manual-entry unit, ToS-denial steady state, and historical backlog path (ADR-025). Written via positioning_entry."@),
    ]
}

/// Record kind ids, in catalog order.
pub open spec fn positioning_kind_ids() -> Seq<Seq<char>> {
    positioning_kinds().map_values(|k: (Seq<char>, Seq<char>, Seq<char>)| k.0)
}

/// The Positioning fields, in catalog order.
pub open spec fn positioning_field_views() -> Seq<FieldView> {
    seq![
        positioning_field(
            "positioning.recordKind"@,
            "recordKind"@,
            "Which Positioning record kind is present: position_grid, positions_by_strike, slice, or levels_only."@,
            Unit::EnumLabel,
            FreshnessSemantics::ManualAsOfFailClosed,
            CostHint::R1,
        ),
        positioning_field(
            "positioning.completeness"@,
            "completeness"@,
            "First-class completeness of the current Positioning record. levels_only is a first-class kind \u{2014} the ToS-denial steady state and historical backlog path."@,
            Unit::EnumLabel,
            FreshnessSemantics::ManualAsOfFailClosed,
            CostHint::R0,
        ),
        positioning_field(
            "positioning.capturedAt"@,
            "capturedAt"@,
            "Desk capture / annotation timestamp for a Positioning record (manual as-of on the Levels-Only path)."@,
            Unit::Milliseconds,
            FreshnessSemantics::ManualAsOfFailClosed,
            CostHint::R1,
        ),
        positioning_field(
            "positioning.asOf"@,
            "asOf"@,
            "Explicit manual/as-of timestamp for a Positioning record. Missing/stale as-of fails closed and is never live vendor data."@,
            Unit::Milliseconds,
            FreshnessSemantics::ManualAsOfFailClosed,
            CostHint::R1,
        ),
        positioning_field(
            "positioning.dataTime"@,
            "dataTime"@,
            "Vendor data time when a provider exists; null on the Levels-Only Record path. Fail-closed \u{2014} never silent live vendor."@,
            Unit::Milliseconds,
            FreshnessSemantics::VendorTimestampFailClosed,
            CostHint::R1,
        ),
        positioning_field(
            "positioning.freshnessOk"@,
            "freshnessOk"@,
            "Fail-closed freshness gate for Positioning. False when capturedAt/as-of is missing or the live card is from a prior trading day. Never presents as live vendor data."@,
            Unit::Bool,
            FreshnessSemantics::ManualAsOfFailClosed,
            CostHint::R0,
        ),
        positioning_field(
            "positioning.derivedLevels"@,
            "derivedLevels"@,
            "Desk-derived MM levels (flip, walls, BALANCE / UPSIDE / DOWNSIDE TEST) carried by Slice and Levels-Only Record kinds."@,
            Unit::StructuredBlob,
            FreshnessSemantics::ManualAsOfFailClosed,
            CostHint::R1,
        ),
    ]
}

/// Positioning field ids, in catalog order.
pub open spec fn positioning_field_ids() -> Seq<Seq<char>> {
    positioning_field_views().map_values(|f: FieldView| f.id)
}

/// A Positioning field: session-scoped, with no market-state Rust field.
pub open spec fn positioning_field(
    id: Seq<char>,
    name: Seq<char>,
    description: Seq<char>,
    unit: Unit,
    freshness: FreshnessSemantics,
    cost_hint: CostHint,
) -> FieldView {
    FieldView {
        id,
        name,
        domain_id: "positioning"@,
        description,
        rust_field: Seq::empty(),
        unit,
        session_scope: SessionScope::Session,
        freshness,
        cost_hint,
    }
}

fn kind(id: &str, name: &str, summary: &str) -> (k: PositioningRecordKind)
    ensures
        k.id@ == id@,
        k.name@ == name@,
        k.summary@ == summary@,
{
    PositioningRecordKind { id: owned(id), name: owned(name), summary: owned(summary) }
}

fn field(
    id: &str,
    name: &str,
    description: &str,
    unit: Unit,
    freshness: FreshnessSemantics,
    cost_hint: CostHint,
) -> (f: FieldDescriptor)
    ensures
        f.id@ == id@,
        f.name@ == name@,
        f.domain_id@ == "positioning"@,
        f.description@ == description@,
        f.rust_field@ == Seq::<char>::empty(),
        f.unit == unit,
        f.session_scope == SessionScope::Session,
        f.freshness == freshness,
        f.cost_hint == cost_hint,
{
    let rust_field = String::new();
    FieldDescriptor {
        id: owned(id),
        name: owned(name),
        domain_id: owned("positioning"),
        description: owned(description),
        rust_field,
        unit,
        session_scope: SessionScope::Session,
        freshness,
        cost_hint,
    }
}

fn ids_of_fields(fields: &Vec<FieldDescriptor>) -> (r: Vec<String>)
    ensures
        string_views(r@) == fields@.map_values(|f: FieldDescriptor| f.id@),
{
    let mut r: Vec<String> = Vec::new();
    let n = fields.len();
    let mut i: usize = 0;
    while i < n
        invariant
            n == fields@.len(),
            i <= n,
            string_views(r@) == fields@.map_values(|f: FieldDescriptor| f.id@).take(i as int),
        decreases n - i,
    {
        r.push(owned(fields[i].id.as_str()));
        assert(fields@.map_values(|f: FieldDescriptor| f.id@).take(i + 1) =~= fields@.map_values(
            |f: FieldDescriptor| f.id@,
        ).take(i as int).push(fields@[i as int].id@));
        assert(string_views(r@) =~= string_views(r@.drop_last()).push(fields@[i as int].id@));
        i = i + 1;
    }
    assert(fields@.map_values(|f: FieldDescriptor| f.id@).take(n as int) =~= fields@.map_values(
        |f: FieldDescriptor| f.id@,
    ));
    r
}

fn ids_of_kinds(kinds: &Vec<PositioningRecordKind>) -> (r: Vec<String>)
    ensures
        string_views(r@) == kinds@.map_values(|k: PositioningRecordKind| k.id@),
{
    let mut r: Vec<String> = Vec::new();
    let n = kinds.len();
    let mut i: usize = 0;
    while i < n
        invariant
            n == kinds@.len(),
            i <= n,
            string_views(r@) == kinds@.map_values(|k: PositioningRecordKind| k.id@).take(i as int),
        decreases n - i,
    {
        r.push(owned(kinds[i].id.as_str()));
        assert(kinds@.map_values(|k: PositioningRecordKind| k.id@).take(i + 1) =~= kinds@.map_values(
            |k: PositioningRecordKind| k.id@,
        ).take(i as int).push(kinds@[i as int].id@));
        assert(string_views(r@) =~= string_views(r@.drop_last()).push(kinds@[i as int].id@));
        i = i + 1;
    }
    assert(kinds@.map_values(|k: PositioningRecordKind| k.id@).take(n as int) =~= kinds@.map_values(
        |k: PositioningRecordKind| k.id@,
    ));
    r
}

/// Build the Positioning domain (grid / by-strike / Slice / Levels-Only
/// Record). Every field is session-scoped, fail-closed on freshness, and has
/// no Rust market-state field behind it; the domain lists exactly these
/// fields and record kinds.
pub fn positioning_domain() -> (r: PositioningStub)
    ensures
        r.record_kinds@.map_values(|k: PositioningRecordKind| (k.id@, k.name@, k.summary@))
            == positioning_kinds(),
        field_views(r.fields@) == positioning_field_views(),
        r.domain.id@ == "positioning"@,
        r.domain.name@ == "Positioning"@,
        r.domain.summary@ == POSITIONING_SUMMARY@,
        string_views(r.domain.field_ids@) == positioning_field_ids(),
        string_views(r.domain.record_kinds@) == positioning_kind_ids(),
{
    let mut record_kinds: Vec<PositioningRecordKind> = Vec::new();
    record_kinds.push(kind("position_grid", "grid", "Primary capture panel \u{2014} grid aggregations of dealer positioning (schema v1)."));
    record_kinds.push(kind("positions_by_strike", "by-strike", "By-strike positions; Desk may aggregate from the position grid rather than capture separately."));
    record_kinds.push(kind("slice", "Slice", "Price-indexed greek surface values at one moment (capturedAt/dataTime) plus Desk-derived levels at ingest. Vendor forward projections are never part of a Slice."));
    record_kinds.push(kind("levels_only", "Levels-Only Record", "First-class Positioning record carrying only derived levels (flip, walls, BALANCE / UPSIDE / DOWNSIDE TEST) \u{2014} manual-entry unit, ToS-denial steady state, and historical backlog path (ADR-025). Written via positioning_entry."));
    let mut fields: Vec<FieldDescriptor> = Vec::new();
    fields.push(field(
        "positioning.recordKind",
        "recordKind",
        "Which Positioning record kind is present: position_grid, positions_by_strike, slice, or levels_only.",
        Unit::EnumLabel,
        FreshnessSemantics::ManualAsOfFailClosed,
        CostHint::R1,
    ));
    fields.push(field(
        "positioning.completeness",
        "completeness",
        "First-class completeness of the current Positioning record. levels_only is a first-class kind \u{2014} the ToS-denial steady state and historical backlog path.",
        Unit::EnumLabel,
        FreshnessSemantics::ManualAsOfFailClosed,
        CostHint::R0,
    ));
    fields.push(field(
        "positioning.capturedAt",
        "capturedAt",
        "Desk capture / annotation timestamp for a Positioning record (manual as-of on the Levels-Only path).",
        Unit::Milliseconds,
        FreshnessSemantics::ManualAsOfFailClosed,
        CostHint::R1,
    ));
    fields.push(field(
        "positioning.asOf",
        "asOf",
        "Explicit manual/as-of timestamp for a Positioning record. Missing/stale as-of fails closed and is never live vendor data.",
        Unit::Milliseconds,
        FreshnessSemantics::ManualAsOfFailClosed,
        CostHint::R1,
    ));
    fields.push(field(
        "positioning.dataTime",
        "dataTime",
        "Vendor data time when a provider exists; null on the Levels-Only Record path. Fail-closed \u{2014} never silent live vendor.",
        Unit::Milliseconds,
        FreshnessSemantics::VendorTimestampFailClosed,
        CostHint::R1,
    ));
    fields.push(field(
        "positioning.freshnessOk",
        "freshnessOk",
        "Fail-closed freshness gate for Positioning. False when capturedAt/as-of is missing or the live card is from a prior trading day. Never presents as live vendor data.",
        Unit::Bool,
        FreshnessSemantics::ManualAsOfFailClosed,
        CostHint::R0,
    ));
    fields.push(field(
        "positioning.derivedLevels",
        "derivedLevels",
        "Desk-derived MM levels (flip, walls, BALANCE / UPSIDE / DOWNSIDE TEST) carried by Slice and Levels-Only Record kinds.",
        Unit::StructuredBlob,
        FreshnessSemantics::ManualAsOfFailClosed,
        CostHint::R1,
    ));
    assert(record_kinds@.map_values(|k: PositioningRecordKind| (k.id@, k.name@, k.summary@))
        =~= positioning_kinds());
    assert(field_views(fields@) =~= positioning_field_views());
    assert(record_kinds@.map_values(|k: PositioningRecordKind| k.id@) =~= positioning_kind_ids());
    assert(fields@.map_values(|f: FieldDescriptor| f.id@) =~= positioning_field_ids());
    let field_ids = ids_of_fields(&fields);
    let kind_ids = ids_of_kinds(&record_kinds);
    let domain = DomainDescriptor {
        id: owned("positioning"),
        name: owned("Positioning"),
        summary: owned(POSITIONING_SUMMARY),
        field_ids,
        record_kinds: kind_ids,
    };
    PositioningStub { domain, record_kinds, fields }
}

} // verus!
