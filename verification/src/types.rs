//! Catalog descriptor types — metadata only, never live values.

use vstd::prelude::*;

use crate::feature_registry::FeatureDescriptor;
use crate::text::{
    eq_lit, lemma_norm_upper_plain, lemma_trimmed_plain, norm_upper, norm_upper_of, owned,
    trimmed, trimmed_of,
};

verus! {

/// Pinned Desk Catalog version string served in every discovery envelope.
pub const CATALOG_VERSION: &'static str = "0.1.0";

/// Trust Ceiling mirrored into catalog environment metadata.
#[derive(Debug, Clone, Copy, PartialEq, Eq, Structural)]
pub enum TrustCeiling {
    L3,
}

/// Pull-band cost hint for a catalog field (resolution model R0–R3).
#[derive(Debug, Clone, Copy, PartialEq, Eq, Structural)]
pub enum CostHint {
    /// Orientation-class field (cheap, expected in R0 reads).
    R0,
    /// State-class field (R1).
    R1,
    /// Evidence-class field (R2).
    R2,
    /// Raw/expensive field (R3; hard caps apply later).
    R3,
}

pub open spec fn cost_label(c: CostHint) -> Seq<char> {
    match c {
        CostHint::R0 => "R0"@,
        CostHint::R1 => "R1"@,
        CostHint::R2 => "R2"@,
        CostHint::R3 => "R3"@,
    }
}

/// The cost hint an upper-cased label names.
pub open spec fn cost_from_key(k: Seq<char>) -> Option<CostHint> {
    if k == "R0"@ {
        Some(CostHint::R0)
    } else if k == "R1"@ {
        Some(CostHint::R1)
    } else if k == "R2"@ {
        Some(CostHint::R2)
    } else if k == "R3"@ {
        Some(CostHint::R3)
    } else {
        None
    }
}

impl CostHint {
    /// Wire label (`R0`…`R3`).
    pub fn as_str(self) -> (r: &'static str)
        ensures
            r@ == cost_label(self),
    {
        match self {
            CostHint::R0 => "R0",
            CostHint::R1 => "R1",
            CostHint::R2 => "R2",
            CostHint::R3 => "R3",
        }
    }

    /// Parse a wire label (trimmed, ASCII case-insensitive). Unknown values are rejected.
    pub fn parse(raw: &str) -> (r: Option<CostHint>)
        ensures
            r == cost_from_key(norm_upper(raw@)),
    {
        let k = norm_upper_of(raw);
        if eq_lit(&k, "R0") {
            Some(CostHint::R0)
        } else if eq_lit(&k, "R1") {
            Some(CostHint::R1)
        } else if eq_lit(&k, "R2") {
            Some(CostHint::R2)
        } else if eq_lit(&k, "R3") {
            Some(CostHint::R3)
        } else {
            None
        }
    }
}

/// Unit of measure for a catalog field.
#[derive(Debug, Clone, Copy, PartialEq, Eq, Structural)]
pub enum Unit {
    PricePoints,
    Contracts,
    ContractsPerSec,
    TicksPerSec,
    Ticks,
    Ratio,
    Percent,
    Count,
    Milliseconds,
    Bool,
    EnumLabel,
    Text,
    StructuredBlob,
}

pub open spec fn unit_label(u: Unit) -> Seq<char> {
    match u {
        Unit::PricePoints => "pricePoints"@,
        Unit::Contracts => "contracts"@,
        Unit::ContractsPerSec => "contractsPerSec"@,
        Unit::TicksPerSec => "ticksPerSec"@,
        Unit::Ticks => "ticks"@,
        Unit::Ratio => "ratio"@,
        Unit::Percent => "percent"@,
        Unit::Count => "count"@,
        Unit::Milliseconds => "milliseconds"@,
        Unit::Bool => "bool"@,
        Unit::EnumLabel => "enumLabel"@,
        Unit::Text => "text"@,
        Unit::StructuredBlob => "structuredBlob"@,
    }
}

/// The unit a trimmed label names (camelCase, snake_case, or PascalCase spelling).
pub open spec fn unit_from_key(k: Seq<char>) -> Option<Unit> {
    if k == "pricePoints"@ || k == "price_points"@ || k == "PricePoints"@ {
        Some(Unit::PricePoints)
    } else if k == "contracts"@ || k == "Contracts"@ {
        Some(Unit::Contracts)
    } else if k == "contractsPerSec"@ || k == "contracts_per_sec"@ || k == "ContractsPerSec"@ {
        Some(Unit::ContractsPerSec)
    } else if k == "ticksPerSec"@ || k == "ticks_per_sec"@ || k == "TicksPerSec"@ {
        Some(Unit::TicksPerSec)
    } else if k == "ticks"@ || k == "Ticks"@ {
        Some(Unit::Ticks)
    } else if k == "ratio"@ || k == "Ratio"@ {
        Some(Unit::Ratio)
    } else if k == "percent"@ || k == "Percent"@ {
        Some(Unit::Percent)
    } else if k == "count"@ || k == "Count"@ {
        Some(Unit::Count)
    } else if k == "milliseconds"@ || k == "Milliseconds"@ {
        Some(Unit::Milliseconds)
    } else if k == "bool"@ || k == "Bool"@ {
        Some(Unit::Bool)
    } else if k == "enumLabel"@ || k == "enum_label"@ || k == "EnumLabel"@ {
        Some(Unit::EnumLabel)
    } else if k == "text"@ || k == "Text"@ {
        Some(Unit::Text)
    } else if k == "structuredBlob"@ || k == "structured_blob"@ || k == "StructuredBlob"@ {
        Some(Unit::StructuredBlob)
    } else {
        None
    }
}

impl Unit {
    /// Catalog JSON / Feature Registry wire label.
    pub fn as_str(self) -> (r: &'static str)
        ensures
            r@ == unit_label(self),
    {
        match self {
            Unit::PricePoints => "pricePoints",
            Unit::Contracts => "contracts",
            Unit::ContractsPerSec => "contractsPerSec",
            Unit::TicksPerSec => "ticksPerSec",
            Unit::Ticks => "ticks",
            Unit::Ratio => "ratio",
            Unit::Percent => "percent",
            Unit::Count => "count",
            Unit::Milliseconds => "milliseconds",
            Unit::Bool => "bool",
            Unit::EnumLabel => "enumLabel",
            Unit::Text => "text",
            Unit::StructuredBlob => "structuredBlob",
        }
    }

    /// Parse a catalog unit label (trimmed; case-sensitive spellings). Unknown values are rejected.
    pub fn parse(raw: &str) -> (r: Option<Unit>)
        ensures
            r == unit_from_key(trimmed(raw@)),
    {
        let k = trimmed_of(raw);
        if eq_lit(&k, "pricePoints") || eq_lit(&k, "price_points") || eq_lit(&k, "PricePoints") {
            Some(Unit::PricePoints)
        } else if eq_lit(&k, "contracts") || eq_lit(&k, "Contracts") {
            Some(Unit::Contracts)
        } else if eq_lit(&k, "contractsPerSec") || eq_lit(&k, "contracts_per_sec") || eq_lit(
            &k,
            "ContractsPerSec",
        ) {
            Some(Unit::ContractsPerSec)
        } else if eq_lit(&k, "ticksPerSec") || eq_lit(&k, "ticks_per_sec") || eq_lit(
            &k,
            "TicksPerSec",
        ) {
            Some(Unit::TicksPerSec)
        } else if eq_lit(&k, "ticks") || eq_lit(&k, "Ticks") {
            Some(Unit::Ticks)
        } else if eq_lit(&k, "ratio") || eq_lit(&k, "Ratio") {
            Some(Unit::Ratio)
        } else if eq_lit(&k, "percent") || eq_lit(&k, "Percent") {
            Some(Unit::Percent)
        } else if eq_lit(&k, "count") || eq_lit(&k, "Count") {
            Some(Unit::Count)
        } else if eq_lit(&k, "milliseconds") || eq_lit(&k, "Milliseconds") {
            Some(Unit::Milliseconds)
        } else if eq_lit(&k, "bool") || eq_lit(&k, "Bool") {
            Some(Unit::Bool)
        } else if eq_lit(&k, "enumLabel") || eq_lit(&k, "enum_label") || eq_lit(&k, "EnumLabel") {
            Some(Unit::EnumLabel)
        } else if eq_lit(&k, "text") || eq_lit(&k, "Text") {
            Some(Unit::Text)
        } else if eq_lit(&k, "structuredBlob") || eq_lit(&k, "structured_blob") || eq_lit(
            &k,
            "StructuredBlob",
        ) {
            Some(Unit::StructuredBlob)
        } else {
            None
        }
    }
}

/// Session scope for a catalog field.
#[derive(Debug, Clone, Copy, PartialEq, Eq, Structural)]
pub enum SessionScope {
    /// Current session (RTH or Globex as active).
    Session,
    /// RTH-only semantics.
    Rth,
    /// Globex / overnight semantics.
    Globex,
    /// Delta-reset segment (Asia / London / RTH).
    Segment,
    /// Spans sessions or prior-day carry.
    CrossSession,
}

pub open spec fn scope_label(s: SessionScope) -> Seq<char> {
    match s {
        SessionScope::Session => "session"@,
        SessionScope::Rth => "rth"@,
        SessionScope::Globex => "globex"@,
        SessionScope::Segment => "segment"@,
        SessionScope::CrossSession => "crossSession"@,
    }
}

pub open spec fn scope_from_key(k: Seq<char>) -> Option<SessionScope> {
    if k == "session"@ || k == "Session"@ {
        Some(SessionScope::Session)
    } else if k == "rth"@ || k == "RTH"@ || k == "Rth"@ {
        Some(SessionScope::Rth)
    } else if k == "globex"@ || k == "Globex"@ || k == "GLOBEX"@ {
        Some(SessionScope::Globex)
    } else if k == "segment"@ || k == "Segment"@ {
        Some(SessionScope::Segment)
    } else if k == "crossSession"@ || k == "cross_session"@ || k == "CrossSession"@ {
        Some(SessionScope::CrossSession)
    } else {
        None
    }
}

impl SessionScope {
    /// Catalog JSON / Feature Registry wire label.
    pub fn as_str(self) -> (r: &'static str)
        ensures
            r@ == scope_label(self),
    {
        match self {
            SessionScope::Session => "session",
            SessionScope::Rth => "rth",
            SessionScope::Globex => "globex",
            SessionScope::Segment => "segment",
            SessionScope::CrossSession => "crossSession",
        }
    }

    /// Parse a catalog session-scope label. Unknown values are rejected.
    pub fn parse(raw: &str) -> (r: Option<SessionScope>)
        ensures
            r == scope_from_key(trimmed(raw@)),
    {
        let k = trimmed_of(raw);
        if eq_lit(&k, "session") || eq_lit(&k, "Session") {
            Some(SessionScope::Session)
        } else if eq_lit(&k, "rth") || eq_lit(&k, "RTH") || eq_lit(&k, "Rth") {
            Some(SessionScope::Rth)
        } else if eq_lit(&k, "globex") || eq_lit(&k, "Globex") || eq_lit(&k, "GLOBEX") {
            Some(SessionScope::Globex)
        } else if eq_lit(&k, "segment") || eq_lit(&k, "Segment") {
            Some(SessionScope::Segment)
        } else if eq_lit(&k, "crossSession") || eq_lit(&k, "cross_session") || eq_lit(
            &k,
            "CrossSession",
        ) {
            Some(SessionScope::CrossSession)
        } else {
            None
        }
    }
}

/// Freshness semantics — how a consumer should interpret staleness.
#[derive(Debug, Clone, Copy, PartialEq, Eq, Structural)]
pub enum FreshnessSemantics {
    /// Anchored to the latest processed tick.
    LiveTickAnchored,
    /// Stable for the session once computed (e.g. day type labels).
    SessionScoped,
    /// Carried from a prior session reference.
    PriorSessionCarry,
    /// Optional delayed DOM/depth summary when available.
    DelayedDepthOptional,
    /// Schema present; live provider not wired.
    StubUnavailable,
    /// Vendor timestamp must fail closed when present (future provider).
    VendorTimestampFailClosed,
    /// Manual / as-of Positioning stamp; missing or stale freshness fails closed.
    ManualAsOfFailClosed,
}

pub open spec fn freshness_label(f: FreshnessSemantics) -> Seq<char> {
    match f {
        FreshnessSemantics::LiveTickAnchored => "liveTickAnchored"@,
        FreshnessSemantics::SessionScoped => "sessionScoped"@,
        FreshnessSemantics::PriorSessionCarry => "priorSessionCarry"@,
        FreshnessSemantics::DelayedDepthOptional => "delayedDepthOptional"@,
        FreshnessSemantics::StubUnavailable => "stubUnavailable"@,
        FreshnessSemantics::VendorTimestampFailClosed => "vendorTimestampFailClosed"@,
        FreshnessSemantics::ManualAsOfFailClosed => "manualAsOfFailClosed"@,
    }
}

pub open spec fn freshness_from_key(k: Seq<char>) -> Option<FreshnessSemantics> {
    if k == "liveTickAnchored"@ || k == "live_tick_anchored"@ || k == "LiveTickAnchored"@ {
        Some(FreshnessSemantics::LiveTickAnchored)
    } else if k == "sessionScoped"@ || k == "session_scoped"@ || k == "SessionScoped"@ {
        Some(FreshnessSemantics::SessionScoped)
    } else if k == "priorSessionCarry"@ || k == "prior_session_carry"@ || k
        == "PriorSessionCarry"@ {
        Some(FreshnessSemantics::PriorSessionCarry)
    } else if k == "delayedDepthOptional"@ || k == "delayed_depth_optional"@ || k
        == "DelayedDepthOptional"@ {
        Some(FreshnessSemantics::DelayedDepthOptional)
    } else if k == "stubUnavailable"@ || k == "stub_unavailable"@ || k == "StubUnavailable"@ {
        Some(FreshnessSemantics::StubUnavailable)
    } else if k == "vendorTimestampFailClosed"@ || k == "vendor_timestamp_fail_closed"@ || k
        == "VendorTimestampFailClosed"@ {
        Some(FreshnessSemantics::VendorTimestampFailClosed)
    } else if k == "manualAsOfFailClosed"@ || k == "manual_as_of_fail_closed"@ || k
        == "ManualAsOfFailClosed"@ {
        Some(FreshnessSemantics::ManualAsOfFailClosed)
    } else {
        None
    }
}

impl FreshnessSemantics {
    /// Catalog JSON / Feature Registry wire label.
    pub fn as_str(self) -> (r: &'static str)
        ensures
            r@ == freshness_label(self),
    {
        match self {
            FreshnessSemantics::LiveTickAnchored => "liveTickAnchored",
            FreshnessSemantics::SessionScoped => "sessionScoped",
            FreshnessSemantics::PriorSessionCarry => "priorSessionCarry",
            FreshnessSemantics::DelayedDepthOptional => "delayedDepthOptional",
            FreshnessSemantics::StubUnavailable => "stubUnavailable",
            FreshnessSemantics::VendorTimestampFailClosed => "vendorTimestampFailClosed",
            FreshnessSemantics::ManualAsOfFailClosed => "manualAsOfFailClosed",
        }
    }

    /// Parse a catalog freshness label. Unknown values are rejected.
    pub fn parse(raw: &str) -> (r: Option<FreshnessSemantics>)
        ensures
            r == freshness_from_key(trimmed(raw@)),
    {
        let k = trimmed_of(raw);
        if eq_lit(&k, "liveTickAnchored") || eq_lit(&k, "live_tick_anchored") || eq_lit(
            &k,
            "LiveTickAnchored",
        ) {
            Some(FreshnessSemantics::LiveTickAnchored)
        } else if eq_lit(&k, "sessionScoped") || eq_lit(&k, "session_scoped") || eq_lit(
            &k,
            "SessionScoped",
        ) {
            Some(FreshnessSemantics::SessionScoped)
        } else if eq_lit(&k, "priorSessionCarry") || eq_lit(&k, "prior_session_carry") || eq_lit(
            &k,
            "PriorSessionCarry",
        ) {
            Some(FreshnessSemantics::PriorSessionCarry)
        } else if eq_lit(&k, "delayedDepthOptional") || eq_lit(&k, "delayed_depth_optional")
            || eq_lit(&k, "DelayedDepthOptional") {
            Some(FreshnessSemantics::DelayedDepthOptional)
        } else if eq_lit(&k, "stubUnavailable") || eq_lit(&k, "stub_unavailable") || eq_lit(
            &k,
            "StubUnavailable",
        ) {
            Some(FreshnessSemantics::StubUnavailable)
        } else if eq_lit(&k, "vendorTimestampFailClosed") || eq_lit(
            &k,
            "vendor_timestamp_fail_closed",
        ) || eq_lit(&k, "VendorTimestampFailClosed") {
            Some(FreshnessSemantics::VendorTimestampFailClosed)
        } else if eq_lit(&k, "manualAsOfFailClosed") || eq_lit(&k, "manual_as_of_fail_closed")
            || eq_lit(&k, "ManualAsOfFailClosed") {
            Some(FreshnessSemantics::ManualAsOfFailClosed)
        } else {
            None
        }
    }
}

/// Static annotation used to build [`FieldDescriptor`]s.
#[derive(Debug, Clone, Copy)]
pub struct FieldSpec {
    pub id: &'static str,
    pub rust_field: &'static str,
    pub name: &'static str,
    pub domain_id: &'static str,
    pub description: &'static str,
    pub unit: Unit,
    pub session_scope: SessionScope,
    pub freshness: FreshnessSemantics,
    pub cost_hint: CostHint,
}

/// Serializable field descriptor served by discovery operators.
#[derive(Debug, PartialEq)]
pub struct FieldDescriptor {
    pub id: String,
    pub name: String,
    pub domain_id: String,
    pub description: String,
    pub rust_field: String,
    pub unit: Unit,
    pub session_scope: SessionScope,
    pub freshness: FreshnessSemantics,
    pub cost_hint: CostHint,
}

/// Abstract value of a [`FieldDescriptor`].
pub struct FieldView {
    pub id: Seq<char>,
    pub name: Seq<char>,
    pub domain_id: Seq<char>,
    pub description: Seq<char>,
    pub rust_field: Seq<char>,
    pub unit: Unit,
    pub session_scope: SessionScope,
    pub freshness: FreshnessSemantics,
    pub cost_hint: CostHint,
}

impl View for FieldDescriptor {
    type V = FieldView;

    open spec fn view(&self) -> FieldView {
        FieldView {
            id: self.id@,
            name: self.name@,
            domain_id: self.domain_id@,
            description: self.description@,
            rust_field: self.rust_field@,
            unit: self.unit,
            session_scope: self.session_scope,
            freshness: self.freshness,
            cost_hint: self.cost_hint,
        }
    }
}

/// The field a static annotation describes.
pub open spec fn spec_field_view(s: FieldSpec) -> FieldView {
    FieldView {
        id: s.id@,
        name: s.name@,
        domain_id: s.domain_id@,
        description: s.description@,
        rust_field: s.rust_field@,
        unit: s.unit,
        session_scope: s.session_scope,
        freshness: s.freshness,
        cost_hint: s.cost_hint,
    }
}

/// The views of a list of field descriptors.
pub open spec fn field_views(s: Seq<FieldDescriptor>) -> Seq<FieldView> {
    s.map_values(|f: FieldDescriptor| f@)
}

impl Clone for FieldDescriptor {
    fn clone(&self) -> (r: Self)
        ensures
            r == *self,
    {
        FieldDescriptor {
            id: self.id.clone(),
            name: self.name.clone(),
            domain_id: self.domain_id.clone(),
            description: self.description.clone(),
            rust_field: self.rust_field.clone(),
            unit: self.unit,
            session_scope: self.session_scope,
            freshness: self.freshness,
            cost_hint: self.cost_hint,
        }
    }
}

impl FieldDescriptor {
    /// Lift a static [`FieldSpec`] into an owned catalog descriptor.
    pub fn from_spec(spec: FieldSpec) -> (r: FieldDescriptor)
        ensures
            r.id@ == spec.id@,
            r.name@ == spec.name@,
            r.domain_id@ == spec.domain_id@,
            r.description@ == spec.description@,
            r.rust_field@ == spec.rust_field@,
            r.unit == spec.unit,
            r.session_scope == spec.session_scope,
            r.freshness == spec.freshness,
            r.cost_hint == spec.cost_hint,
    {
        FieldDescriptor {
            id: owned(spec.id),
            name: owned(spec.name),
            domain_id: owned(spec.domain_id),
            description: owned(spec.description),
            rust_field: owned(spec.rust_field),
            unit: spec.unit,
            session_scope: spec.session_scope,
            freshness: spec.freshness,
            cost_hint: spec.cost_hint,
        }
    }
}

/// Named record kind inside the Positioning domain.
#[derive(Debug, Clone, PartialEq)]
pub struct PositioningRecordKind {
    pub id: String,
    pub name: String,
    pub summary: String,
}

/// Domain descriptor in the catalog ontology.
#[derive(Debug, PartialEq)]
pub struct DomainDescriptor {
    pub id: String,
    pub name: String,
    pub summary: String,
    pub field_ids: Vec<String>,
    pub record_kinds: Vec<String>,
}

impl Clone for DomainDescriptor {
    fn clone(&self) -> (r: Self)
        ensures
            r.id@ == self.id@,
            r.name@ == self.name@,
            r.summary@ == self.summary@,
            r.field_ids@.map_values(|s: String| s@) == self.field_ids@.map_values(|s: String| s@),
            r.record_kinds@.map_values(|s: String| s@) == self.record_kinds@.map_values(
                |s: String| s@,
            ),
    {
        DomainDescriptor {
            id: owned(self.id.as_str()),
            name: owned(self.name.as_str()),
            summary: owned(self.summary.as_str()),
            field_ids: copy_strings(&self.field_ids),
            record_kinds: copy_strings(&self.record_kinds),
        }
    }
}

/// A copy of a list of strings, entry by entry.
pub fn copy_strings(v: &Vec<String>) -> (r: Vec<String>)
    ensures
        r@.map_values(|s: String| s@) == v@.map_values(|s: String| s@),
{
    let mut r: Vec<String> = Vec::new();
    let n = v.len();
    let mut i: usize = 0;
    while i < n
        invariant
            n == v@.len(),
            i <= n,
            r@.map_values(|s: String| s@) == v@.map_values(|s: String| s@).take(i as int),
        decreases n - i,
    {
        let ghost before = r@;
        r.push(owned(v[i].as_str()));
        assert(r@.map_values(|s: String| s@) =~= before.map_values(|s: String| s@).push(v@[i as int]@));
        assert(v@.map_values(|s: String| s@).take(i + 1) =~= v@.map_values(|s: String| s@).take(
            i as int,
        ).push(v@[i as int]@));
        i = i + 1;
    }
    assert(v@.map_values(|s: String| s@).take(n as int) =~= v@.map_values(|s: String| s@));
    r
}

/// Versioned Desk Catalog artifact.
#[derive(Debug, Clone, PartialEq)]
pub struct DeskCatalog {
    pub catalog_version: String,
    pub trust_ceiling: TrustCeiling,
    pub specialty_market_tools: Vec<String>,
    pub domains: Vec<DomainDescriptor>,
    pub fields: Vec<FieldDescriptor>,
    pub positioning_record_kinds: Vec<PositioningRecordKind>,
    /// Always `None` in Catalog v0 — no live Positioning provider.
    pub positioning_provider: Option<String>,
    /// Feature Registry Base Detectors (schema + provenance + promotion).
    pub base_detectors: Vec<FeatureDescriptor>,
    /// Feature Registry Derived Features (overlay only).
    pub derived_features: Vec<FeatureDescriptor>,
}

} // verus!

verus! {

/// Every cost hint's wire label parses back to it, in any ASCII case.
pub proof fn lemma_cost_label_round_trip(c: CostHint)
    ensures
        cost_from_key(norm_upper(cost_label(c))) == Some(c),
{
    reveal_strlit("R0");
    reveal_strlit("R1");
    reveal_strlit("R2");
    reveal_strlit("R3");
    lemma_norm_upper_plain(cost_label(c));
}

/// Every unit's wire label parses back to it.
pub proof fn lemma_unit_label_round_trip(u: Unit)
    ensures
        unit_from_key(trimmed(unit_label(u))) == Some(u),
{
    reveal_strlit("pricePoints");
    reveal_strlit("price_points");
    reveal_strlit("PricePoints");
    reveal_strlit("contracts");
    reveal_strlit("Contracts");
    reveal_strlit("contractsPerSec");
    reveal_strlit("contracts_per_sec");
    reveal_strlit("ContractsPerSec");
    reveal_strlit("ticksPerSec");
    reveal_strlit("ticks_per_sec");
    reveal_strlit("TicksPerSec");
    reveal_strlit("ticks");
    reveal_strlit("Ticks");
    reveal_strlit("ratio");
    reveal_strlit("Ratio");
    reveal_strlit("percent");
    reveal_strlit("Percent");
    reveal_strlit("count");
    reveal_strlit("Count");
    reveal_strlit("milliseconds");
    reveal_strlit("Milliseconds");
    reveal_strlit("bool");
    reveal_strlit("Bool");
    reveal_strlit("enumLabel");
    reveal_strlit("enum_label");
    reveal_strlit("EnumLabel");
    reveal_strlit("text");
    reveal_strlit("Text");
    reveal_strlit("structuredBlob");
    reveal_strlit("structured_blob");
    reveal_strlit("StructuredBlob");
    lemma_trimmed_plain(unit_label(u));
}

/// Every session scope's wire label parses back to it.
pub proof fn lemma_scope_label_round_trip(s: SessionScope)
    ensures
        scope_from_key(trimmed(scope_label(s))) == Some(s),
{
    reveal_strlit("session");
    reveal_strlit("Session");
    reveal_strlit("rth");
    reveal_strlit("RTH");
    reveal_strlit("Rth");
    reveal_strlit("globex");
    reveal_strlit("Globex");
    reveal_strlit("GLOBEX");
    reveal_strlit("segment");
    reveal_strlit("Segment");
    reveal_strlit("crossSession");
    reveal_strlit("cross_session");
    reveal_strlit("CrossSession");
    lemma_trimmed_plain(scope_label(s));
}

/// Every freshness label parses back to it.
pub proof fn lemma_freshness_label_round_trip(f: FreshnessSemantics)
    ensures
        freshness_from_key(trimmed(freshness_label(f))) == Some(f),
{
    reveal_strlit("liveTickAnchored");
    reveal_strlit("live_tick_anchored");
    reveal_strlit("LiveTickAnchored");
    reveal_strlit("sessionScoped");
    reveal_strlit("session_scoped");
    reveal_strlit("SessionScoped");
    reveal_strlit("priorSessionCarry");
    reveal_strlit("prior_session_carry");
    reveal_strlit("PriorSessionCarry");
    reveal_strlit("delayedDepthOptional");
    reveal_strlit("delayed_depth_optional");
    reveal_strlit("DelayedDepthOptional");
    reveal_strlit("stubUnavailable");
    reveal_strlit("stub_unavailable");
    reveal_strlit("StubUnavailable");
    reveal_strlit("vendorTimestampFailClosed");
    reveal_strlit("vendor_timestamp_fail_closed");
    reveal_strlit("VendorTimestampFailClosed");
    reveal_strlit("manualAsOfFailClosed");
    reveal_strlit("manual_as_of_fail_closed");
    reveal_strlit("ManualAsOfFailClosed");
    lemma_trimmed_plain(freshness_label(f));
}

} // verus!
