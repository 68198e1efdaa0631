//! Feature Registry — governance waist for Base Detectors and Derived Features.
//!
//! Registers schema, provenance, and promotion state (`candidate` → `shadow`
//! → `active`). Promotion is human-gated and forward-only. Shipped Base
//! Detectors are builtins: registered `active`, never overwritten, never
//! re-promoted. Derived Features declare a Feature-IR program over catalog
//! fields using one of the five funded Operator Families.

use vstd::prelude::*;

use crate::feature_ir::{
    program_events, program_fields, reports_fault, shape_fault, FeatureIrError, OperatorFamily,
    ProgramShape, DERIVED_FEATURE_MATH_TIER, FEATURE_IR_MODULE, FEATURE_IR_SOURCE,
};
use crate::text::{
    chars_of, char_views, eq_lit, lemma_lex_lt_asymmetric, lemma_lex_lt_irreflexive, lemma_lex_lt_total, lemma_lex_lt_transitive, lex_lt, lex_lt_exec, same_chars, is_ascii_digit, is_ascii_lower, is_blank, lemma_norm_lower_plain,
    lemma_trimmed_plain, norm_lower, norm_lower_of, owned, slice_chars, sort_unique, starts_with,
    starts_with_exec, string_from, strictly_sorted, strings_of_all, trim_chars, trimmed,
    trimmed_of,
};
use crate::types::{CostHint, DeskCatalog, FieldDescriptor, FreshnessSemantics, SessionScope, Unit};

verus! {

/// MCP / catalog write-verb name for Feature Registry lifecycle.
pub const FEATURE_REGISTRY_WRITE_VERB: &'static str = "feature_registry";

/// Wire labels for the promotion ladder (candidate → shadow → active).
pub const PROMOTION_STATES: [&'static str; 3] = ["candidate", "shadow", "active"];

/// Provenance source for reviewed Rust pipeline math.
pub const RUST_PIPELINE_SOURCE: &'static str = "rust_pipeline";

/// Math-tier stamp: Base Detector math stays reviewed Rust (not Feature-IR).
pub const TIER1_REVIEWED_RUST: &'static str = "tier1_reviewed_rust";

/// Specialty market tools that expose a shipped Base Detector concept,
/// paired with the registry id each must cite.
pub const DETECTOR_SPECIALTY_TOOLS: [(&'static str, &'static str); 4] = [
    ("get_absorption_events", "detector.absorption"),
    ("get_pinch_events", "detector.pinch"),
    ("get_rebid_reoffer_zones", "detector.rebid_reoffer"),
    ("get_trade_size_profile", "detector.trade_size"),
];

/// Feature kind. Base Detectors stay reviewed Rust; Derived Features carry Feature-IR.
#[derive(Debug, Clone, Copy, PartialEq, Eq, Structural)]
pub enum FeatureKind {
    BaseDetector,
    DerivedFeature,
}

pub open spec fn kind_label(k: FeatureKind) -> Seq<char> {
    match k {
        FeatureKind::BaseDetector => "baseDetector"@,
        FeatureKind::DerivedFeature => "derivedFeature"@,
    }
}

pub open spec fn kind_from_key(k: Seq<char>) -> Option<FeatureKind> {
    if k == "baseDetector"@ || k == "base_detector"@ || k == "BaseDetector"@ {
        Some(FeatureKind::BaseDetector)
    } else if k == "derivedFeature"@ || k == "derived_feature"@ || k == "DerivedFeature"@ {
        Some(FeatureKind::DerivedFeature)
    } else {
        None
    }
}

impl FeatureKind {
    /// Wire label.
    pub fn as_str(self) -> (r: &'static str)
        ensures
            r@ == kind_label(self),
    {
        match self {
            FeatureKind::BaseDetector => "baseDetector",
            FeatureKind::DerivedFeature => "derivedFeature",
        }
    }

    /// Parse a wire label. Unknown values are rejected (not coerced).
    pub fn parse(raw: &str) -> (r: Option<FeatureKind>)
        ensures
            r == kind_from_key(trimmed(raw@)),
    {
        let k = trimmed_of(raw);
        if eq_lit(&k, "baseDetector") || eq_lit(&k, "base_detector") || eq_lit(&k, "BaseDetector") {
            Some(FeatureKind::BaseDetector)
        } else if eq_lit(&k, "derivedFeature") || eq_lit(&k, "derived_feature") || eq_lit(
            &k,
            "DerivedFeature",
        ) {
            Some(FeatureKind::DerivedFeature)
        } else {
            None
        }
    }
}

/// Promotion ladder. Forward-only; human-gated at each step.
#[derive(Debug, Clone, Copy, PartialEq, Eq, Structural)]
pub enum PromotionState {
    Candidate,
    Shadow,
    Active,
}

pub open spec fn promotion_label(p: PromotionState) -> Seq<char> {
    match p {
        PromotionState::Candidate => "candidate"@,
        PromotionState::Shadow => "shadow"@,
        PromotionState::Active => "active"@,
    }
}

pub open spec fn promotion_from_key(k: Seq<char>) -> Option<PromotionState> {
    if k == "candidate"@ {
        Some(PromotionState::Candidate)
    } else if k == "shadow"@ {
        Some(PromotionState::Shadow)
    } else if k == "active"@ {
        Some(PromotionState::Active)
    } else {
        None
    }
}

/// Position on the ladder.
pub open spec fn promotion_rank(p: PromotionState) -> int {
    match p {
        PromotionState::Candidate => 0,
        PromotionState::Shadow => 1,
        PromotionState::Active => 2,
    }
}

impl PromotionState {
    /// Wire label.
    pub fn as_str(self) -> (r: &'static str)
        ensures
            r@ == promotion_label(self),
    {
        match self {
            PromotionState::Candidate => "candidate",
            PromotionState::Shadow => "shadow",
            PromotionState::Active => "active",
        }
    }

    /// Parse a wire label (trimmed, ASCII case-insensitive). Unknown values are rejected.
    pub fn parse(raw: &str) -> (r: Option<PromotionState>)
        ensures
            r == promotion_from_key(norm_lower(raw@)),
    {
        let k = norm_lower_of(raw);
        if eq_lit(&k, "candidate") {
            Some(PromotionState::Candidate)
        } else if eq_lit(&k, "shadow") {
            Some(PromotionState::Shadow)
        } else if eq_lit(&k, "active") {
            Some(PromotionState::Active)
        } else {
            None
        }
    }
}

/// Provenance for a registry descriptor (where the math lives, if any).
#[derive(Debug, PartialEq, Eq)]
pub struct FeatureProvenance {
    /// `rust_pipeline` for shipped detectors.
    pub source: String,
    /// Rust module path (e.g. `pipelines::absorption`).
    pub rust_module: String,
    /// Math tier stamp.
    pub math_tier: String,
    /// Must stay false for shipped registrations.
    pub behavior_change: bool,
}

/// Abstract value of a [`FeatureProvenance`].
pub struct ProvenanceView {
    pub source: Seq<char>,
    pub rust_module: Seq<char>,
    pub math_tier: Seq<char>,
    pub behavior_change: bool,
}

impl View for FeatureProvenance {
    type V = ProvenanceView;

    open spec fn view(&self) -> ProvenanceView {
        ProvenanceView {
            source: self.source@,
            rust_module: self.rust_module@,
            math_tier: self.math_tier@,
            behavior_change: self.behavior_change,
        }
    }
}

impl Clone for FeatureProvenance {
    fn clone(&self) -> (r: Self)
        ensures
            r@ == self@,
    {
        FeatureProvenance {
            source: self.source.clone(),
            rust_module: self.rust_module.clone(),
            math_tier: self.math_tier.clone(),
            behavior_change: self.behavior_change,
        }
    }
}

/// Schema waist for a feature (catalog fields + event types + semantics).
#[derive(Debug, PartialEq)]
pub struct DetectorSchema {
    pub catalog_field_ids: Vec<String>,
    pub event_types: Vec<String>,
    pub unit: Unit,
    pub session_scope: SessionScope,
    pub freshness: FreshnessSemantics,
    pub cost_hint: CostHint,
}

/// Abstract value of a [`DetectorSchema`].
pub struct SchemaView {
    pub catalog_field_ids: Seq<Seq<char>>,
    pub event_types: Seq<Seq<char>>,
    pub unit: Unit,
    pub session_scope: SessionScope,
    pub freshness: FreshnessSemantics,
    pub cost_hint: CostHint,
}

impl View for DetectorSchema {
    type V = SchemaView;

    open spec fn view(&self) -> SchemaView {
        SchemaView {
            catalog_field_ids: self.catalog_field_ids@.map_values(|s: String| s@),
            event_types: self.event_types@.map_values(|s: String| s@),
            unit: self.unit,
            session_scope: self.session_scope,
            freshness: self.freshness,
            cost_hint: self.cost_hint,
        }
    }
}

/// Copy of a list of strings with the same contents.
pub fn clone_strings(v: &Vec<String>) -> (r: Vec<String>)
    ensures
        r@.map_values(|s: String| s@) == v@.map_values(|s: String| s@),
{
    let r = v.clone();
    assert(r@.map_values(|s: String| s@) =~= v@.map_values(|s: String| s@)) by {
        assert forall|i: int| 0 <= i < v@.len() implies r@[i]@ == v@[i]@ by {
            assert(cloned::<String>(v[i], r[i]));
        }
    }
    r
}

impl Clone for DetectorSchema {
    fn clone(&self) -> (r: Self)
        ensures
            r@ == self@,
    {
        let catalog_field_ids = clone_strings(&self.catalog_field_ids);
        let event_types = clone_strings(&self.event_types);
        DetectorSchema {
            catalog_field_ids,
            event_types,
            unit: self.unit,
            session_scope: self.session_scope,
            freshness: self.freshness,
            cost_hint: self.cost_hint,
        }
    }
}

} // verus!

verus! {

/// Catalog / registry descriptor for one feature.
///
/// `program_family` is the Operator Family of the declared Feature-IR program
/// (required for Derived Features, absent on Base Detectors); the program body
/// itself is decoded and evaluated outside this library.
#[derive(Debug, PartialEq)]
pub struct FeatureDescriptor {
    pub id: String,
    pub name: String,
    pub kind: FeatureKind,
    pub description: String,
    pub domain_id: String,
    pub schema: DetectorSchema,
    pub provenance: FeatureProvenance,
    pub promotion_state: PromotionState,
    pub builtin: bool,
    pub last_gate_note: Option<String>,
    pub program_family: Option<OperatorFamily>,
}

/// Abstract value of a [`FeatureDescriptor`].
pub struct DescriptorView {
    pub id: Seq<char>,
    pub name: Seq<char>,
    pub kind: FeatureKind,
    pub description: Seq<char>,
    pub domain_id: Seq<char>,
    pub schema: SchemaView,
    pub provenance: ProvenanceView,
    pub promotion_state: PromotionState,
    pub builtin: bool,
    pub last_gate_note: Option<Seq<char>>,
    pub program_family: Option<OperatorFamily>,
}

pub open spec fn opt_view(o: Option<String>) -> Option<Seq<char>> {
    match o {
        Some(s) => Some(s@),
        None => None,
    }
}

impl View for FeatureDescriptor {
    type V = DescriptorView;

    open spec fn view(&self) -> DescriptorView {
        DescriptorView {
            id: self.id@,
            name: self.name@,
            kind: self.kind,
            description: self.description@,
            domain_id: self.domain_id@,
            schema: self.schema@,
            provenance: self.provenance@,
            promotion_state: self.promotion_state,
            builtin: self.builtin,
            last_gate_note: opt_view(self.last_gate_note),
            program_family: self.program_family,
        }
    }
}

impl Clone for FeatureDescriptor {
    fn clone(&self) -> (r: Self)
        ensures
            r@ == self@,
    {
        FeatureDescriptor {
            id: self.id.clone(),
            name: self.name.clone(),
            kind: self.kind,
            description: self.description.clone(),
            domain_id: self.domain_id.clone(),
            schema: self.schema.clone(),
            provenance: self.provenance.clone(),
            promotion_state: self.promotion_state,
            builtin: self.builtin,
            last_gate_note: match &self.last_gate_note {
                Some(n) => Some(n.clone()),
                None => None,
            },
            program_family: self.program_family,
        }
    }
}

/// Input accepted when registering a new Base Detector (always starts `candidate`).
#[derive(Debug, PartialEq)]
pub struct BaseDetectorRegistration {
    pub id: String,
    pub name: String,
    pub description: String,
    pub domain_id: String,
    pub schema: DetectorSchema,
    pub provenance: FeatureProvenance,
}

/// Input accepted when registering a Derived Feature (always `candidate`).
#[derive(Debug, PartialEq)]
pub struct DerivedFeatureRegistration {
    pub id: String,
    pub name: String,
    pub description: String,
    pub domain_id: String,
    pub schema: DetectorSchema,
    pub program: ProgramShape,
}

/// Human confirmation required to move candidate → shadow → active.
#[derive(Debug, Clone, Copy, PartialEq, Eq)]
pub struct HumanGate<'a> {
    pub trader_confirmation: &'a str,
}

impl<'a> HumanGate<'a> {
    /// Parse a trader confirmation. Empty / whitespace-only is not a gate.
    pub fn parse(raw: &'a str) -> (r: Result<HumanGate<'a>, FeatureRegistryError>)
        ensures
            is_blank(raw@) ==> r matches Err(FeatureRegistryError::HumanGateRequired),
            !is_blank(raw@) ==> (r matches Ok(g) && g.trader_confirmation == raw),
    {
        let t = trimmed_of(raw);
        if t.len() == 0 {
            return Err(FeatureRegistryError::HumanGateRequired);
        }
        Ok(HumanGate { trader_confirmation: raw })
    }
}

/// Feature Registry errors (typed until the MCP / CLI boundary).
#[derive(Debug, Clone, PartialEq, Eq)]
pub enum FeatureRegistryError {
    DerivedFeatureProgramRequired,
    BaseDetectorCannotCarryProgram,
    InvalidId(String),
    InvalidDerivedId(String),
    DuplicateId(String),
    BuiltinImmutable(String),
    NotFound(String),
    MissingSchema,
    MissingProvenance,
    HumanGateRequired,
    IllegalPromotion { from: PromotionState, to: PromotionState },
    AlreadyInState(PromotionState),
    MissingIdentity,
    FeatureIr(FeatureIrError),
}

/// The forward steps of the ladder: candidate → shadow, shadow → active.
pub open spec fn promotion_step(from: PromotionState, to: PromotionState) -> bool {
    (from == PromotionState::Candidate && to == PromotionState::Shadow) || (from
        == PromotionState::Shadow && to == PromotionState::Active)
}

/// Apply a human-gated promotion step. Skip-state and demotion are rejected.
pub fn apply_promotion(from: PromotionState, to: PromotionState, gate: HumanGate<'_>) -> (r: Result<
    PromotionState,
    FeatureRegistryError,
>)
    ensures
        is_blank(gate.trader_confirmation@) ==> r matches Err(
            FeatureRegistryError::HumanGateRequired,
        ),
        !is_blank(gate.trader_confirmation@) && from == to ==> (r matches Err(
            FeatureRegistryError::AlreadyInState(s),
        ) && s == from),
        !is_blank(gate.trader_confirmation@) && from != to && promotion_step(from, to) ==> r
            == Ok::<PromotionState, FeatureRegistryError>(to),
        !is_blank(gate.trader_confirmation@) && from != to && !promotion_step(from, to) ==> (r
            matches Err(FeatureRegistryError::IllegalPromotion { from: f, to: t }) && f == from
            && t == to),
{
    let _checked = HumanGate::parse(gate.trader_confirmation)?;
    if from == to {
        return Err(FeatureRegistryError::AlreadyInState(from));
    }
    let legal = match (from, to) {
        (PromotionState::Candidate, PromotionState::Shadow)
        | (PromotionState::Shadow, PromotionState::Active) => true,
        _ => false,
    };
    if legal {
        Ok(to)
    } else {
        Err(FeatureRegistryError::IllegalPromotion { from, to })
    }
}

/// `rest` is a snake-case id suffix: an ASCII lower-case letter, then ASCII
/// lower-case letters, digits, or `_`.
pub open spec fn snake_suffix(rest: Seq<char>) -> bool {
    rest.len() > 0 && is_ascii_lower(rest[0]) && forall|i: int|
        1 <= i < rest.len() ==> is_ascii_lower(#[trigger] rest[i]) || is_ascii_digit(rest[i])
            || rest[i] == '_'
}

pub open spec fn prefixed_snake_id(id: Seq<char>, prefix: Seq<char>) -> bool {
    starts_with(id, prefix) && snake_suffix(id.subrange(prefix.len() as int, id.len() as int))
}

fn valid_snake_suffix_chars(rest: &Vec<char>, from: usize) -> (r: bool)
    requires
        from <= rest.len(),
    ensures
        r == snake_suffix(rest@.subrange(from as int, rest.len() as int)),
{
    let ghost s = rest@.subrange(from as int, rest.len() as int);
    let n = rest.len();
    if from >= n {
        return false;
    }
    let first = rest[from];
    if !(first >= 'a' && first <= 'z') {
        return false;
    }
    let mut i = from + 1;
    while i < n
        invariant
            from < i <= n,
            n == rest.len(),
            s == rest@.subrange(from as int, n as int),
            forall|j: int|
                1 <= j < i - from ==> is_ascii_lower(#[trigger] s[j]) || is_ascii_digit(s[j])
                    || s[j] == '_',
        decreases n - i,
    {
        let c = rest[i];
        if !((c >= 'a' && c <= 'z') || (c >= '0' && c <= '9') || c == '_') {
            assert(s[i - from] == c);
            return false;
        }
        i = i + 1;
    }
    true
}

/// Snake-case suffix check for ids.
pub fn valid_snake_suffix(rest: &str) -> (r: bool)
    ensures
        r == snake_suffix(rest@),
{
    let v = chars_of(rest);
    assert(v@.subrange(0, v@.len() as int) =~= v@);
    valid_snake_suffix_chars(&v, 0)
}

fn valid_prefixed_id(id: &str, prefix: &str) -> (r: bool)
    ensures
        r == prefixed_snake_id(id@, prefix@),
{
    let v = chars_of(id);
    let p = chars_of(prefix);
    if !starts_with_exec(&v, &p) {
        return false;
    }
    valid_snake_suffix_chars(&v, p.len())
}

/// Base Detector ids are `detector.<snake_id>`.
pub fn valid_detector_id(id: &str) -> (r: bool)
    ensures
        r == prefixed_snake_id(id@, "detector."@),
{
    valid_prefixed_id(id, "detector.")
}

/// Derived Feature ids are `feature.<snake_id>`.
pub fn valid_derived_id(id: &str) -> (r: bool)
    ensures
        r == prefixed_snake_id(id@, "feature."@),
{
    valid_prefixed_id(id, "feature.")
}

/// `out` holds, strictly sorted, exactly the trimmed non-blank entries of `items`.
pub open spec fn unique_sorted_of(items: Seq<Seq<char>>, out: Seq<Seq<char>>) -> bool {
    &&& strictly_sorted(out)
    &&& forall|x: Seq<char>| #[trigger] out.contains(x) <==> (x.len() > 0 && exists|i: int|
        0 <= i < items.len() && trimmed(#[trigger] items[i]) == x)
}

/// Drop blank entries, trim the rest, sort, and remove duplicates.
pub fn unique_sorted(items: Vec<String>) -> (out: Vec<String>)
    ensures
        unique_sorted_of(items@.map_values(|s: String| s@), out@.map_values(|s: String| s@)),
{
    let ghost iv = items@.map_values(|s: String| s@);
    let mut keep: Vec<Vec<char>> = Vec::new();
    let n = items.len();
    let mut i: usize = 0;
    while i < n
        invariant
            n == items.len(),
            iv == items@.map_values(|s: String| s@),
            i <= n,
            forall|x: Seq<char>| #[trigger] char_views(keep@).contains(x) <==> (x.len() > 0
                && exists|j: int| 0 <= j < i && trimmed(#[trigger] iv[j]) == x),
        decreases n - i,
    {
        let t = trimmed_of(items[i].as_str());
        let ghost before = char_views(keep@);
        if t.len() > 0 {
            keep.push(t);
            assert(char_views(keep@) =~= before.push(trimmed(iv[i as int])));
        }
        proof {
            assert forall|x: Seq<char>| #[trigger] char_views(keep@).contains(x) <==> (x.len() > 0
                && exists|j: int| 0 <= j < i + 1 && trimmed(#[trigger] iv[j]) == x) by {
                if x.len() > 0 && exists|j: int| 0 <= j < i + 1 && trimmed(#[trigger] iv[j]) == x {
                    let j = choose|j: int| 0 <= j < i + 1 && trimmed(#[trigger] iv[j]) == x;
                    if j < i {
                        assert(before.contains(x));
                        if t@.len() > 0 {
                            crate::text::lemma_push_contains(before, trimmed(iv[i as int]), x);
                        }
                    } else {
                        if t@.len() > 0 {
                            crate::text::lemma_push_contains(before, trimmed(iv[i as int]), x);
                        }
                    }
                }
                if char_views(keep@).contains(x) {
                    if t@.len() > 0 {
                        crate::text::lemma_push_contains(before, trimmed(iv[i as int]), x);
                    }
                    if before.contains(x) {
                        let j = choose|j: int| 0 <= j < i && trimmed(#[trigger] iv[j]) == x;
                        assert(0 <= j < i + 1);
                    } else {
                        assert(trimmed(iv[i as int]) == x);
                    }
                }
            }
        }
        i = i + 1;
    }
    let sorted = sort_unique(keep);
    let out = strings_of_all(&sorted);
    assert(out@.map_values(|s: String| s@) =~= char_views(sorted@));
    out
}

} // verus!

verus! {

/// Owned copies of a list of string slices.
pub fn strings_from(items: &[&str]) -> (r: Vec<String>)
    ensures
        r@.map_values(|s: String| s@) == items@.map_values(|s: &str| s@),
{
    let mut r: Vec<String> = Vec::new();
    let n = items.len();
    let mut i: usize = 0;
    while i < n
        invariant
            n == items@.len(),
            i <= n,
            r@.map_values(|s: String| s@) == items@.take(i as int).map_values(|s: &str| s@),
        decreases n - i,
    {
        r.push(owned(items[i]));
        assert(items@.take(i + 1).map_values(|s: &str| s@) =~= items@.take(i as int).map_values(
            |s: &str| s@,
        ).push(items@[i as int]@));
        assert(r@.map_values(|s: String| s@) =~= items@.take(i + 1).map_values(|s: &str| s@));
        i = i + 1;
    }
    assert(items@.take(n as int) =~= items@);
    r
}

/// Math tier recorded for a Base Detector: the given tier, trimmed, or the
/// Tier-1 reviewed-Rust stamp when blank.
pub open spec fn registered_math_tier(raw: Seq<char>) -> Seq<char> {
    if is_blank(raw) {
        TIER1_REVIEWED_RUST@
    } else {
        trimmed(raw)
    }
}

/// Which check, if any, a Base Detector registration fails first.
pub open spec fn registration_error(input: BaseDetectorRegistration) -> Option<int> {
    if !prefixed_snake_id(trimmed(input.id@), "detector."@) {
        Some(0)
    } else if is_blank(input.name@) || is_blank(input.description@) || is_blank(
        input.domain_id@,
    ) {
        Some(1)
    } else if input.schema.catalog_field_ids@.len() == 0 && input.schema.event_types@.len() == 0 {
        Some(2)
    } else if is_blank(input.provenance.source@) || is_blank(input.provenance.rust_module@) {
        Some(3)
    } else {
        None
    }
}

/// The descriptor a valid Base Detector registration becomes.
pub open spec fn registered_base_detector(input: BaseDetectorRegistration, d: DescriptorView) -> bool {
    &&& d.id == trimmed(input.id@)
    &&& d.name == trimmed(input.name@)
    &&& d.kind == FeatureKind::BaseDetector
    &&& d.description == trimmed(input.description@)
    &&& d.domain_id == trimmed(input.domain_id@)
    &&& unique_sorted_of(input.schema@.catalog_field_ids, d.schema.catalog_field_ids)
    &&& unique_sorted_of(input.schema@.event_types, d.schema.event_types)
    &&& d.schema.unit == input.schema.unit
    &&& d.schema.session_scope == input.schema.session_scope
    &&& d.schema.freshness == input.schema.freshness
    &&& d.schema.cost_hint == input.schema.cost_hint
    &&& d.provenance.source == trimmed(input.provenance.source@)
    &&& d.provenance.rust_module == trimmed(input.provenance.rust_module@)
    &&& d.provenance.math_tier == registered_math_tier(input.provenance.math_tier@)
    &&& !d.provenance.behavior_change
    &&& d.promotion_state == PromotionState::Candidate
    &&& !d.builtin
    &&& d.last_gate_note is None
    &&& d.program_family is None
}

/// Validate and normalize a Base Detector registration (always `candidate`,
/// never a behavior change, never a builtin).
pub fn validate_registration(input: BaseDetectorRegistration) -> (r: Result<
    FeatureDescriptor,
    FeatureRegistryError,
>)
    ensures
        registration_error(input) == Some(0int) ==> (r matches Err(
            FeatureRegistryError::InvalidId(s),
        ) && s@ == trimmed(input.id@)),
        registration_error(input) == Some(1int) ==> r matches Err(
            FeatureRegistryError::MissingIdentity,
        ),
        registration_error(input) == Some(2int) ==> r matches Err(
            FeatureRegistryError::MissingSchema,
        ),
        registration_error(input) == Some(3int) ==> r matches Err(
            FeatureRegistryError::MissingProvenance,
        ),
        registration_error(input) is None ==> (r matches Ok(d) && registered_base_detector(
            input,
            d@,
        )),
{
    let id_chars = trimmed_of(input.id.as_str());
    let id = string_from(&id_chars);
    if !valid_detector_id(id.as_str()) {
        return Err(FeatureRegistryError::InvalidId(id));
    }
    let name = trimmed_of(input.name.as_str());
    let description = trimmed_of(input.description.as_str());
    let domain_id = trimmed_of(input.domain_id.as_str());
    if name.len() == 0 || description.len() == 0 || domain_id.len() == 0 {
        return Err(FeatureRegistryError::MissingIdentity);
    }
    if input.schema.catalog_field_ids.len() == 0 && input.schema.event_types.len() == 0 {
        return Err(FeatureRegistryError::MissingSchema);
    }
    let source = trimmed_of(input.provenance.source.as_str());
    let rust_module = trimmed_of(input.provenance.rust_module.as_str());
    if source.len() == 0 || rust_module.len() == 0 {
        return Err(FeatureRegistryError::MissingProvenance);
    }
    let tier = trimmed_of(input.provenance.math_tier.as_str());
    let math_tier = if tier.len() == 0 {
        owned(TIER1_REVIEWED_RUST)
    } else {
        string_from(&tier)
    };
    let ghost schema_view = input.schema@;
    let unit = input.schema.unit;
    let session_scope = input.schema.session_scope;
    let freshness = input.schema.freshness;
    let cost_hint = input.schema.cost_hint;
    let catalog_field_ids = unique_sorted(input.schema.catalog_field_ids);
    let event_types = unique_sorted(input.schema.event_types);
    Ok(FeatureDescriptor {
        id,
        name: string_from(&name),
        kind: FeatureKind::BaseDetector,
        description: string_from(&description),
        domain_id: string_from(&domain_id),
        schema: DetectorSchema {
            catalog_field_ids,
            event_types,
            unit,
            session_scope,
            freshness,
            cost_hint,
        },
        provenance: FeatureProvenance {
            source: string_from(&source),
            rust_module: string_from(&rust_module),
            math_tier,
            behavior_change: false,
        },
        promotion_state: PromotionState::Candidate,
        builtin: false,
        last_gate_note: None,
        program_family: None,
    })
}

/// The Operator Family of a program shape.
pub open spec fn program_family_of(p: ProgramShape) -> OperatorFamily {
    match p {
        ProgramShape::CrossSymbolReferences { .. } => OperatorFamily::CrossSymbolReferences,
        ProgramShape::SessionDistributionPercentiles { .. } => OperatorFamily::SessionDistributionPercentiles,
        ProgramShape::DwellTimeSincePredicate { .. } => OperatorFamily::DwellTimeSincePredicate,
        ProgramShape::EventSequences { .. } => OperatorFamily::EventSequences,
        ProgramShape::HistoricalBaselines { .. } => OperatorFamily::HistoricalBaselines,
    }
}

/// Which check, if any, a Derived Feature registration fails first against
/// the catalog fields `fields`.
pub open spec fn derived_error(
    input: DerivedFeatureRegistration,
    fields: Seq<FieldDescriptor>,
) -> Option<int> {
    if !prefixed_snake_id(trimmed(input.id@), "feature."@) {
        Some(0)
    } else if is_blank(input.name@) || is_blank(input.description@) || is_blank(
        input.domain_id@,
    ) {
        Some(1)
    } else if shape_fault(input.program, fields) is Some {
        Some(2)
    } else {
        None
    }
}

/// The schema lists a Derived Feature is filed with: the declared catalog
/// fields, else the program's own; the declared event types, else the
/// program's own (event sequences only).
pub open spec fn derived_schema_fields(input: DerivedFeatureRegistration) -> Seq<Seq<char>> {
    if unique_sorted_of(input.schema@.catalog_field_ids, seq![]) {
        program_fields(input.program)
    } else {
        input.schema@.catalog_field_ids
    }
}

pub open spec fn derived_schema_events(input: DerivedFeatureRegistration) -> Seq<Seq<char>> {
    if unique_sorted_of(input.schema@.event_types, seq![]) {
        program_events(input.program)
    } else {
        input.schema@.event_types
    }
}

/// With both fallbacks applied, the schema still names nothing.
pub open spec fn derived_schema_missing(input: DerivedFeatureRegistration) -> bool {
    unique_sorted_of(derived_schema_fields(input), seq![]) && unique_sorted_of(
        derived_schema_events(input),
        seq![],
    )
}

/// `d` is the `candidate` Derived Feature filed for `input`: trimmed identity,
/// normalized schema lists, Feature-IR provenance, and the program's family.
pub open spec fn registered_derived_feature(input: DerivedFeatureRegistration, d: DescriptorView) -> bool {
    &&& d.id == trimmed(input.id@)
    &&& d.name == trimmed(input.name@)
    &&& d.kind == FeatureKind::DerivedFeature
    &&& d.description == trimmed(input.description@)
    &&& d.domain_id == trimmed(input.domain_id@)
    &&& unique_sorted_of(derived_schema_fields(input), d.schema.catalog_field_ids)
    &&& unique_sorted_of(derived_schema_events(input), d.schema.event_types)
    &&& d.schema.unit == input.schema.unit
    &&& d.schema.session_scope == input.schema.session_scope
    &&& d.schema.freshness == input.schema.freshness
    &&& d.schema.cost_hint == input.schema.cost_hint
    &&& d.provenance.source == FEATURE_IR_SOURCE@
    &&& d.provenance.rust_module == FEATURE_IR_MODULE@
    &&& d.provenance.math_tier == DERIVED_FEATURE_MATH_TIER@
    &&& !d.provenance.behavior_change
    &&& d.promotion_state == PromotionState::Candidate
    &&& !d.builtin
    &&& d.last_gate_note is None
    &&& d.program_family == Some(program_family_of(input.program))
}

/// Validate a Derived Feature declaration (always `candidate`, Feature-IR provenance).
///
/// Schema lists fall back to the program's own catalog fields and (for event
/// sequences) its two event types; with neither, the schema is missing.
pub fn validate_derived_feature(
    input: DerivedFeatureRegistration,
    catalog: &DeskCatalog,
) -> (r: Result<FeatureDescriptor, FeatureRegistryError>)
    ensures
        derived_error(input, catalog.fields@) == Some(0int) ==> (r matches Err(
            FeatureRegistryError::InvalidDerivedId(s),
        ) && s@ == trimmed(input.id@)),
        derived_error(input, catalog.fields@) == Some(1int) ==> r matches Err(
            FeatureRegistryError::MissingIdentity,
        ),
        derived_error(input, catalog.fields@) == Some(2int) ==> (r matches Err(
            FeatureRegistryError::FeatureIr(e),
        ) && reports_fault(e, shape_fault(input.program, catalog.fields@)->0)),
        derived_error(input, catalog.fields@) is None && derived_schema_missing(input) ==> r matches Err(
            FeatureRegistryError::MissingSchema,
        ),
        derived_error(input, catalog.fields@) is None && !derived_schema_missing(input) ==> (r matches Ok(
            d,
        ) && registered_derived_feature(input, d@)),
{
    let id_chars = trimmed_of(input.id.as_str());
    let id = string_from(&id_chars);
    if !valid_derived_id(id.as_str()) {
        return Err(FeatureRegistryError::InvalidDerivedId(id));
    }
    let name = trimmed_of(input.name.as_str());
    let description = trimmed_of(input.description.as_str());
    let domain_id = trimmed_of(input.domain_id.as_str());
    if name.len() == 0 || description.len() == 0 || domain_id.len() == 0 {
        return Err(FeatureRegistryError::MissingIdentity);
    }
    match input.program.validate(catalog) {
        Err(e) => {
            return Err(FeatureRegistryError::FeatureIr(e));
        },
        Ok(()) => {},
    }
    let unit = input.schema.unit;
    let session_scope = input.schema.session_scope;
    let freshness = input.schema.freshness;
    let cost_hint = input.schema.cost_hint;
    let family = input.program.family();
    let program_field_ids = input.program.catalog_field_ids();
    let program_event_types = input.program.sequence_event_types();
    let ghost in_fields = input.schema@.catalog_field_ids;
    let ghost in_events = input.schema@.event_types;
    let ghost prog_fields = program_fields(input.program);
    let ghost prog_events = program_events(input.program);
    let mut catalog_field_ids = unique_sorted(input.schema.catalog_field_ids);
    proof {
        lemma_unique_sorted_empty(in_fields, catalog_field_ids@.map_values(|s: String| s@));
    }
    if catalog_field_ids.len() == 0 {
        catalog_field_ids = unique_sorted(program_field_ids);
    }
    let mut event_types = unique_sorted(input.schema.event_types);
    proof {
        lemma_unique_sorted_empty(in_events, event_types@.map_values(|s: String| s@));
    }
    if event_types.len() == 0 {
        event_types = unique_sorted(program_event_types);
    }
    proof {
        let fields = if unique_sorted_of(in_fields, seq![]) { prog_fields } else { in_fields };
        let events = if unique_sorted_of(in_events, seq![]) { prog_events } else { in_events };
        lemma_unique_sorted_empty(fields, catalog_field_ids@.map_values(|s: String| s@));
        lemma_unique_sorted_empty(events, event_types@.map_values(|s: String| s@));
    }
    if catalog_field_ids.len() == 0 && event_types.len() == 0 {
        return Err(FeatureRegistryError::MissingSchema);
    }
    Ok(FeatureDescriptor {
        id,
        name: string_from(&name),
        kind: FeatureKind::DerivedFeature,
        description: string_from(&description),
        domain_id: string_from(&domain_id),
        schema: DetectorSchema {
            catalog_field_ids,
            event_types,
            unit,
            session_scope,
            freshness,
            cost_hint,
        },
        provenance: FeatureProvenance {
            source: owned(FEATURE_IR_SOURCE),
            rust_module: owned(FEATURE_IR_MODULE),
            math_tier: owned(DERIVED_FEATURE_MATH_TIER),
            behavior_change: false,
        },
        promotion_state: PromotionState::Candidate,
        builtin: false,
        last_gate_note: None,
        program_family: Some(family),
    })
}

/// A normalized list is empty exactly when the input had no non-blank entry,
/// i.e. when the empty list is its normalization.
pub proof fn lemma_unique_sorted_empty(items: Seq<Seq<char>>, out: Seq<Seq<char>>)
    requires
        unique_sorted_of(items, out),
    ensures
        (out.len() == 0) <==> unique_sorted_of(items, seq![]),
{
    let e: Seq<Seq<char>> = seq![];
    if out.len() == 0 {
        assert forall|x: Seq<char>| #[trigger] e.contains(x) <==> (x.len() > 0 && exists|i: int|
            0 <= i < items.len() && trimmed(#[trigger] items[i]) == x) by {
            assert(!out.contains(x));
        }
    } else {
        assert(out.contains(out[0]));
        assert(!e.contains(out[0]));
    }
}

} // verus!

verus! {

/// Provenance of reviewed Rust pipeline math in `module` (never a behavior change).
pub fn rust_provenance(module: &str) -> (p: FeatureProvenance)
    ensures
        p@.source == RUST_PIPELINE_SOURCE@,
        p@.rust_module == module@,
        p@.math_tier == TIER1_REVIEWED_RUST@,
        !p@.behavior_change,
{
    FeatureProvenance {
        source: owned(RUST_PIPELINE_SOURCE),
        rust_module: owned(module),
        math_tier: owned(TIER1_REVIEWED_RUST),
        behavior_change: false,
    }
}

/// Schema of a shipped detector.
pub fn shipped_schema(
    catalog_field_ids: &[&str],
    event_types: &[&str],
    unit: Unit,
    session_scope: SessionScope,
    freshness: FreshnessSemantics,
    cost_hint: CostHint,
) -> (s: DetectorSchema)
    ensures
        s@.catalog_field_ids == catalog_field_ids@.map_values(|x: &str| x@),
        s@.event_types == event_types@.map_values(|x: &str| x@),
        s@.unit == unit,
        s@.session_scope == session_scope,
        s@.freshness == freshness,
        s@.cost_hint == cost_hint,
{
    DetectorSchema {
        catalog_field_ids: strings_from(catalog_field_ids),
        event_types: strings_from(event_types),
        unit,
        session_scope,
        freshness,
        cost_hint,
    }
}

/// What every shipped Base Detector is: an `active` builtin with reviewed-Rust
/// provenance, no behavior change, no Feature-IR program, and a non-empty schema.
pub open spec fn shipped_invariants(d: DescriptorView) -> bool {
    &&& d.kind == FeatureKind::BaseDetector
    &&& d.promotion_state == PromotionState::Active
    &&& d.builtin
    &&& d.last_gate_note is None
    &&& d.program_family is None
    &&& d.provenance.source == RUST_PIPELINE_SOURCE@
    &&& d.provenance.math_tier == TIER1_REVIEWED_RUST@
    &&& !d.provenance.behavior_change
    &&& d.schema.catalog_field_ids.len() > 0
    &&& d.schema.event_types.len() > 0
}

pub open spec fn shipped_shape(
    d: DescriptorView,
    id: Seq<char>,
    name: Seq<char>,
    domain_id: Seq<char>,
    module: Seq<char>,
) -> bool {
    &&& shipped_invariants(d)
    &&& d.id == id
    &&& d.name == name
    &&& d.domain_id == domain_id
    &&& d.provenance.rust_module == module
}

/// A shipped Base Detector descriptor.
pub fn shipped_detector(
    id: &str,
    name: &str,
    domain_id: &str,
    description: &str,
    rust_module: &str,
    schema: DetectorSchema,
) -> (d: FeatureDescriptor)
    requires
        schema@.catalog_field_ids.len() > 0,
        schema@.event_types.len() > 0,
    ensures
        shipped_shape(d@, id@, name@, domain_id@, rust_module@),
        d@.description == description@,
        d@.schema == schema@,
{
    FeatureDescriptor {
        id: owned(id),
        name: owned(name),
        kind: FeatureKind::BaseDetector,
        description: owned(description),
        domain_id: owned(domain_id),
        schema,
        provenance: rust_provenance(rust_module),
        promotion_state: PromotionState::Active,
        builtin: true,
        last_gate_note: None,
        program_family: None,
    }
}

} // verus!

verus! {

/// EventDetector `event_type` values governed by `detector.structure`.
pub const STRUCTURE_EVENT_TYPES: [&'static str; 39] = [
    "day_type_change",
    "dnp_cross",
    "dnp_test",
    "dnva_high_test",
    "dnva_low_test",
    "excess_high_detected",
    "excess_low_detected",
    "ib_extension_hit",
    "ib_formed",
    "ib_high_test",
    "ib_low_test",
    "ib_mid_test",
    "ib_reentry",
    "ib_reentry_full_traverse",
    "ib_reentry_hit_mid",
    "new_session_high",
    "new_session_low",
    "or5_mid_retest",
    "or_formed",
    "overnight_high_test",
    "overnight_low_test",
    "poc_test",
    "poor_high_detected",
    "poor_low_detected",
    "prior_close_test",
    "prior_day_high_test",
    "prior_day_low_test",
    "prior_poc_test",
    "prior_vah_test",
    "prior_val_test",
    "rvol_at_ib_close",
    "rvol_spike",
    "vah_test",
    "val_test",
    "vwap_1sd_lower_test",
    "vwap_1sd_upper_test",
    "vwap_2sd_lower_test",
    "vwap_2sd_upper_test",
    "vwap_test",
];

/// Catalog fields cited by `detector.absorption`.
pub const ABSORPTION_FIELD_IDS: [&'static str; 18] = [
    "market.flow.absorptionEventCount",
    "market.flow.confirmedAbsorptionEventCount",
    "market.flow.confirmedExhaustionEventCount",
    "market.flow.confirmedDeltaDivergenceEventCount",
    "market.flow.hasRecentConfirmedAbsorption",
    "market.flow.hasRecentInvalidatedAbsorption",
    "market.flow.hasRecentConfirmedExhaustion",
    "market.flow.recentConfirmedAbsorptionPrice",
    "market.flow.recentConfirmedAbsorptionDirection",
    "market.flow.recentConfirmedAbsorptionAgeMs",
    "market.flow.recentConfirmedAbsorptionDistanceTicks",
    "market.flow.recentInvalidatedAbsorptionPrice",
    "market.flow.recentInvalidatedAbsorptionDirection",
    "market.flow.recentInvalidatedAbsorptionAgeMs",
    "market.flow.recentInvalidatedAbsorptionDistanceTicks",
    "market.flow.recentConfirmedExhaustionPrice",
    "market.flow.recentConfirmedExhaustionDirection",
    "market.flow.recentConfirmedExhaustionAgeMs",
];

/// Event types governed by `detector.absorption`.
pub const ABSORPTION_EVENT_TYPES: [&'static str; 3] = [
    "absorption_detected",
    "absorption_confirmed",
    "absorption_invalidated",
];

/// Description of `detector.absorption`.
pub const ABSORPTION_DESCRIPTION: &'static str = "Base Detector: absorption / exhaustion / delta-divergence (reviewed Rust). Schema, provenance, and promotion are registry-governed. Math lives in pipelines::absorption — this registration does not change behavior.";

/// Catalog fields cited by `detector.leg_to_leg`.
pub const LEG_TO_LEG_FIELD_IDS: [&'static str; 21] = [
    "market.flow.lastLegDirection",
    "market.flow.lastLegNetDelta",
    "market.flow.lastLegPoc",
    "market.flow.lastLegVolume",
    "market.flow.legAgeMs",
    "market.flow.legAnchorPrice",
    "market.flow.legAnchorTimeMs",
    "market.flow.legDeltaPoc",
    "market.flow.legDirection",
    "market.flow.legHvn",
    "market.flow.legLvn",
    "market.flow.legNetDelta",
    "market.flow.legPoc",
    "market.flow.legPocAtSessionPoc",
    "market.flow.legPocInSessionDnva",
    "market.flow.legPocInSessionVa",
    "market.flow.legStatus",
    "market.flow.legVaHigh",
    "market.flow.legVaLow",
    "market.flow.legVaOverlapsSessionVa",
    "market.flow.legVolume",
];

/// Event types governed by `detector.leg_to_leg`.
pub const LEG_TO_LEG_EVENT_TYPES: [&'static str; 2] = [
    "leg_completed",
    "leg_started",
];

/// Description of `detector.leg_to_leg`.
pub const LEG_TO_LEG_DESCRIPTION: &'static str = "Base Detector: swing-anchored leg-to-leg volume/delta profile (reviewed Rust). Schema, provenance, and promotion are registry-governed. Math lives in pipelines::leg_profile. Compact current-leg fields ride get_state; optional leg_started / leg_completed events are not Capsule-mandatory. Discovery rides search_catalog — no specialty getter.";

/// Catalog fields cited by `detector.pinch`.
pub const PINCH_FIELD_IDS: [&'static str; 1] = [
    "market.flow.pinchEventCount",
];

/// Event types governed by `detector.pinch`.
pub const PINCH_EVENT_TYPES: [&'static str; 1] = [
    "pinch_detected",
];

/// Description of `detector.pinch`.
pub const PINCH_DESCRIPTION: &'static str = "Base Detector: delta-momentum pinch (reviewed Rust). Schema, provenance, and promotion are registry-governed. Math lives in pipelines::pinch — this registration does not change behavior.";

/// Catalog fields cited by `detector.rebid_reoffer`.
pub const REBID_REOFFER_FIELD_IDS: [&'static str; 14] = [
    "market.response.activeZoneCount",
    "market.response.rebidZoneNear",
    "market.response.reofferZoneNear",
    "market.response.rebidZoneRetested",
    "market.response.reofferZoneRetested",
    "market.response.rebidZoneHeld",
    "market.response.reofferZoneHeld",
    "market.response.nearestZoneDirection",
    "market.response.nearestZoneStatus",
    "market.response.nearestZoneDistanceTicks",
    "market.response.rebidZoneLow",
    "market.response.rebidZoneHigh",
    "market.response.reofferZoneLow",
    "market.response.reofferZoneHigh",
];

/// Event types governed by `detector.rebid_reoffer`.
pub const REBID_REOFFER_EVENT_TYPES: [&'static str; 2] = [
    "acceleration_zone_created",
    "acceleration_zone_held",
];

/// Description of `detector.rebid_reoffer`.
pub const REBID_REOFFER_DESCRIPTION: &'static str = "Base Detector: rebid/reoffer acceleration zones (reviewed Rust). Schema, provenance, and promotion are registry-governed. Math lives in pipelines::rebid_reoffer — this registration does not change behavior.";

/// Catalog fields cited by `detector.structure`.
pub const STRUCTURE_FIELD_IDS: [&'static str; 12] = [
    "market.location_structure.dayType",
    "market.location_structure.ibHigh",
    "market.location_structure.ibLow",
    "market.location_structure.orHigh",
    "market.location_structure.orLow",
    "market.location_structure.or5High",
    "market.location_structure.or5Low",
    "market.location_structure.poorHigh",
    "market.location_structure.poorLow",
    "market.location_structure.excessHigh",
    "market.location_structure.excessLow",
    "market.volatility.rvolRatio",
];

/// Description of `detector.structure`.
pub const STRUCTURE_DESCRIPTION: &'static str = "Base Detector: structural EventDetector (IB/OR/OR5, day type, poor/excess, level tests, rvol_spike). Schema, provenance, and promotion are registry-governed. Math lives in pipelines::event_detector — this registration does not change behavior.";

/// Catalog fields cited by `detector.trade_size`.
pub const TRADE_SIZE_FIELD_IDS: [&'static str; 1] = [
    "market.flow.avgTradeSize",
];

/// Event types governed by `detector.trade_size`.
pub const TRADE_SIZE_EVENT_TYPES: [&'static str; 1] = [
    "large_trade_cluster",
];

/// Description of `detector.trade_size`.
pub const TRADE_SIZE_DESCRIPTION: &'static str = "Base Detector: trade-size distribution / large-trade cluster (reviewed Rust). Schema, provenance, and promotion are registry-governed. Math lives in pipelines::trade_size — this registration does not change behavior.";

/// A shipped Base Detector: an `active` builtin with reviewed-Rust
/// provenance in `module`, no gate note and no Feature-IR program.
pub open spec fn shipped_view(
    id: Seq<char>,
    name: Seq<char>,
    domain_id: Seq<char>,
    description: Seq<char>,
    module: Seq<char>,
    fields: Seq<Seq<char>>,
    events: Seq<Seq<char>>,
    unit: Unit,
    session_scope: SessionScope,
    freshness: FreshnessSemantics,
    cost_hint: CostHint,
) -> DescriptorView {
    DescriptorView {
        id,
        name,
        kind: FeatureKind::BaseDetector,
        description,
        domain_id,
        schema: SchemaView { catalog_field_ids: fields, event_types: events, unit, session_scope, freshness, cost_hint },
        provenance: ProvenanceView {
            source: RUST_PIPELINE_SOURCE@,
            rust_module: module,
            math_tier: TIER1_REVIEWED_RUST@,
            behavior_change: false,
        },
        promotion_state: PromotionState::Active,
        builtin: true,
        last_gate_note: None,
        program_family: None,
    }
}

/// The shipped `detector.absorption` descriptor.
pub open spec fn absorption_view() -> DescriptorView {
    shipped_view(
        "detector.absorption"@,
        "absorption"@,
        "flow"@,
        ABSORPTION_DESCRIPTION@,
        "pipelines::absorption"@,
        ABSORPTION_FIELD_IDS@.map_values(|x: &str| x@),
        ABSORPTION_EVENT_TYPES@.map_values(|x: &str| x@),
        Unit::Count,
        SessionScope::Session,
        FreshnessSemantics::LiveTickAnchored,
        CostHint::R1,
    )
}

/// The shipped `detector.leg_to_leg` descriptor.
pub open spec fn leg_to_leg_view() -> DescriptorView {
    shipped_view(
        "detector.leg_to_leg"@,
        "leg_to_leg"@,
        "flow"@,
        LEG_TO_LEG_DESCRIPTION@,
        "pipelines::leg_profile"@,
        LEG_TO_LEG_FIELD_IDS@.map_values(|x: &str| x@),
        LEG_TO_LEG_EVENT_TYPES@.map_values(|x: &str| x@),
        Unit::Count,
        SessionScope::Session,
        FreshnessSemantics::LiveTickAnchored,
        CostHint::R1,
    )
}

/// The shipped `detector.pinch` descriptor.
pub open spec fn pinch_view() -> DescriptorView {
    shipped_view(
        "detector.pinch"@,
        "pinch"@,
        "flow"@,
        PINCH_DESCRIPTION@,
        "pipelines::pinch"@,
        PINCH_FIELD_IDS@.map_values(|x: &str| x@),
        PINCH_EVENT_TYPES@.map_values(|x: &str| x@),
        Unit::Count,
        SessionScope::Session,
        FreshnessSemantics::LiveTickAnchored,
        CostHint::R1,
    )
}

/// The shipped `detector.rebid_reoffer` descriptor.
pub open spec fn rebid_reoffer_view() -> DescriptorView {
    shipped_view(
        "detector.rebid_reoffer"@,
        "rebid_reoffer"@,
        "response"@,
        REBID_REOFFER_DESCRIPTION@,
        "pipelines::rebid_reoffer"@,
        REBID_REOFFER_FIELD_IDS@.map_values(|x: &str| x@),
        REBID_REOFFER_EVENT_TYPES@.map_values(|x: &str| x@),
        Unit::Count,
        SessionScope::Session,
        FreshnessSemantics::LiveTickAnchored,
        CostHint::R1,
    )
}

/// The shipped `detector.structure` descriptor.
pub open spec fn structure_view() -> DescriptorView {
    shipped_view(
        "detector.structure"@,
        "structure"@,
        "location_structure"@,
        STRUCTURE_DESCRIPTION@,
        "pipelines::event_detector"@,
        STRUCTURE_FIELD_IDS@.map_values(|x: &str| x@),
        STRUCTURE_EVENT_TYPES@.map_values(|x: &str| x@),
        Unit::EnumLabel,
        SessionScope::Rth,
        FreshnessSemantics::SessionScoped,
        CostHint::R1,
    )
}

/// The shipped `detector.trade_size` descriptor.
pub open spec fn trade_size_view() -> DescriptorView {
    shipped_view(
        "detector.trade_size"@,
        "trade_size"@,
        "flow"@,
        TRADE_SIZE_DESCRIPTION@,
        "pipelines::trade_size"@,
        TRADE_SIZE_FIELD_IDS@.map_values(|x: &str| x@),
        TRADE_SIZE_EVENT_TYPES@.map_values(|x: &str| x@),
        Unit::Contracts,
        SessionScope::Session,
        FreshnessSemantics::LiveTickAnchored,
        CostHint::R1,
    )
}

/// The shipped Base Detectors, in order.
pub open spec fn builtin_views() -> Seq<DescriptorView> {
    seq![absorption_view(), leg_to_leg_view(), pinch_view(), rebid_reoffer_view(), structure_view(), trade_size_view()]
}

fn shipped_absorption() -> (d: FeatureDescriptor)
    ensures
        d@ == absorption_view(),
{
    let fields = ABSORPTION_FIELD_IDS;
    let events = ABSORPTION_EVENT_TYPES;
    let d = shipped_detector(
        "detector.absorption",
        "absorption",
        "flow",
        ABSORPTION_DESCRIPTION,
        "pipelines::absorption",
        shipped_schema(&fields, &events, Unit::Count, SessionScope::Session, FreshnessSemantics::LiveTickAnchored, CostHint::R1),
    );
    assert(d@.schema =~= absorption_view().schema);
    d
}

fn shipped_leg_to_leg() -> (d: FeatureDescriptor)
    ensures
        d@ == leg_to_leg_view(),
{
    let fields = LEG_TO_LEG_FIELD_IDS;
    let events = LEG_TO_LEG_EVENT_TYPES;
    let d = shipped_detector(
        "detector.leg_to_leg",
        "leg_to_leg",
        "flow",
        LEG_TO_LEG_DESCRIPTION,
        "pipelines::leg_profile",
        shipped_schema(&fields, &events, Unit::Count, SessionScope::Session, FreshnessSemantics::LiveTickAnchored, CostHint::R1),
    );
    assert(d@.schema =~= leg_to_leg_view().schema);
    d
}

fn shipped_pinch() -> (d: FeatureDescriptor)
    ensures
        d@ == pinch_view(),
{
    let fields = PINCH_FIELD_IDS;
    let events = PINCH_EVENT_TYPES;
    let d = shipped_detector(
        "detector.pinch",
        "pinch",
        "flow",
        PINCH_DESCRIPTION,
        "pipelines::pinch",
        shipped_schema(&fields, &events, Unit::Count, SessionScope::Session, FreshnessSemantics::LiveTickAnchored, CostHint::R1),
    );
    assert(d@.schema =~= pinch_view().schema);
    d
}

fn shipped_rebid_reoffer() -> (d: FeatureDescriptor)
    ensures
        d@ == rebid_reoffer_view(),
{
    let fields = REBID_REOFFER_FIELD_IDS;
    let events = REBID_REOFFER_EVENT_TYPES;
    let d = shipped_detector(
        "detector.rebid_reoffer",
        "rebid_reoffer",
        "response",
        REBID_REOFFER_DESCRIPTION,
        "pipelines::rebid_reoffer",
        shipped_schema(&fields, &events, Unit::Count, SessionScope::Session, FreshnessSemantics::LiveTickAnchored, CostHint::R1),
    );
    assert(d@.schema =~= rebid_reoffer_view().schema);
    d
}

fn shipped_structure() -> (d: FeatureDescriptor)
    ensures
        d@ == structure_view(),
{
    let fields = STRUCTURE_FIELD_IDS;
    let events = STRUCTURE_EVENT_TYPES;
    let d = shipped_detector(
        "detector.structure",
        "structure",
        "location_structure",
        STRUCTURE_DESCRIPTION,
        "pipelines::event_detector",
        shipped_schema(&fields, &events, Unit::EnumLabel, SessionScope::Rth, FreshnessSemantics::SessionScoped, CostHint::R1),
    );
    assert(d@.schema =~= structure_view().schema);
    d
}

fn shipped_trade_size() -> (d: FeatureDescriptor)
    ensures
        d@ == trade_size_view(),
{
    let fields = TRADE_SIZE_FIELD_IDS;
    let events = TRADE_SIZE_EVENT_TYPES;
    let d = shipped_detector(
        "detector.trade_size",
        "trade_size",
        "flow",
        TRADE_SIZE_DESCRIPTION,
        "pipelines::trade_size",
        shipped_schema(&fields, &events, Unit::Contracts, SessionScope::Session, FreshnessSemantics::LiveTickAnchored, CostHint::R1),
    );
    assert(d@.schema =~= trade_size_view().schema);
    d
}

/// Ids of the shipped Base Detectors, in order.
pub open spec fn builtin_ids() -> Seq<Seq<char>> {
    seq!["detector.absorption"@, "detector.leg_to_leg"@, "detector.pinch"@, "detector.rebid_reoffer"@, "detector.structure"@, "detector.trade_size"@]
}

/// Shipped Base Detectors — registered `active` without changing pipeline math.
pub fn builtin_base_detectors() -> (r: Vec<FeatureDescriptor>)
    ensures
        desc_views(r@) == builtin_views(),
        r@.len() == builtin_ids().len(),
        forall|i: int| 0 <= i < r@.len() ==> (#[trigger] r@[i])@.id == builtin_ids()[i],
        forall|i: int| 0 <= i < r@.len() ==> shipped_invariants((#[trigger] r@[i])@),
{
    let mut r: Vec<FeatureDescriptor> = Vec::new();
    r.push(shipped_absorption());
    r.push(shipped_leg_to_leg());
    r.push(shipped_pinch());
    r.push(shipped_rebid_reoffer());
    r.push(shipped_structure());
    r.push(shipped_trade_size());
    proof {
        reveal_strlit("detector.absorption");
        reveal_strlit("detector.leg_to_leg");
        reveal_strlit("detector.pinch");
        reveal_strlit("detector.rebid_reoffer");
        reveal_strlit("detector.structure");
        reveal_strlit("detector.trade_size");
        assert(desc_views(r@) =~= builtin_views());
        assert forall|i: int| 0 <= i < r@.len() implies shipped_invariants((#[trigger] r@[i])@) by {
            assert(r@[i]@ == builtin_views()[i]);
        }
    }
    r
}

} // verus!

verus! {

/// Ids strictly increasing (so unique).
pub open spec fn ids_sorted(s: Seq<FeatureDescriptor>) -> bool {
    forall|i: int, j: int| 0 <= i < j < s.len() ==> lex_lt(#[trigger] s[i].id@, #[trigger] s[j].id@)
}

pub open spec fn has_id(s: Seq<FeatureDescriptor>, k: Seq<char>) -> bool {
    exists|i: int| 0 <= i < s.len() && (#[trigger] s[i]).id@ == k
}

/// The registry contents keyed by id.
pub open spec fn entries(s: Seq<FeatureDescriptor>) -> Map<Seq<char>, DescriptorView> {
    Map::new(
        |k: Seq<char>| has_id(s, k),
        |k: Seq<char>| s[choose|i: int| 0 <= i < s.len() && (#[trigger] s[i]).id@ == k]@,
    )
}

/// `s` lists the entries of `m`, each once, in strictly increasing id order.
pub open spec fn lists_map(s: Seq<DescriptorView>, m: Map<Seq<char>, DescriptorView>) -> bool {
    &&& forall|i: int, j: int| 0 <= i < j < s.len() ==> lex_lt(#[trigger] s[i].id, #[trigger] s[j].id)
    &&& forall|i: int| 0 <= i < s.len() ==> m.dom().contains((#[trigger] s[i]).id) && m[s[i].id] == s[i]
    &&& forall|k: Seq<char>| #[trigger] m.dom().contains(k) ==> exists|i: int| 0 <= i < s.len() && (#[trigger] s[i]).id == k
}

/// The entries of `m` of kind `kind`.
pub open spec fn of_kind(m: Map<Seq<char>, DescriptorView>, kind: FeatureKind) -> Map<Seq<char>, DescriptorView> {
    Map::new(|k: Seq<char>| m.dom().contains(k) && m[k].kind == kind, |k: Seq<char>| m[k])
}

/// Rows inserted in order (a later row with the same id wins).
pub open spec fn insert_all(m: Map<Seq<char>, DescriptorView>, rows: Seq<DescriptorView>) -> Map<Seq<char>, DescriptorView>
    decreases rows.len(),
{
    if rows.len() == 0 {
        m
    } else {
        insert_all(m, rows.drop_last()).insert(rows.last().id, rows.last())
    }
}

/// One overlay row: it replaces or adds an entry unless that id is a builtin.
pub open spec fn overlay_step(m: Map<Seq<char>, DescriptorView>, d: DescriptorView) -> Map<Seq<char>, DescriptorView> {
    if m.dom().contains(d.id) && m[d.id].builtin {
        m
    } else {
        m.insert(d.id, d)
    }
}

pub open spec fn overlay_all(m: Map<Seq<char>, DescriptorView>, rows: Seq<DescriptorView>) -> Map<Seq<char>, DescriptorView>
    decreases rows.len(),
{
    if rows.len() == 0 {
        m
    } else {
        overlay_step(overlay_all(m, rows.drop_last()), rows.last())
    }
}

/// The shipped Base Detectors keyed by id.
pub open spec fn builtin_map(rows: Seq<DescriptorView>) -> Map<Seq<char>, DescriptorView> {
    insert_all(Map::empty(), rows)
}

pub open spec fn desc_views(s: Seq<FeatureDescriptor>) -> Seq<DescriptorView> {
    s.map_values(|d: FeatureDescriptor| d@)
}

proof fn lemma_ids_unique(s: Seq<FeatureDescriptor>, i: int, j: int)
    requires
        ids_sorted(s),
        0 <= i < s.len(),
        0 <= j < s.len(),
        s[i].id@ == s[j].id@,
    ensures
        i == j,
{
    if i < j {
        lemma_lex_lt_irreflexive(s[i].id@);
    } else if j < i {
        lemma_lex_lt_irreflexive(s[i].id@);
    }
}

proof fn lemma_entry_at(s: Seq<FeatureDescriptor>, i: int)
    requires
        ids_sorted(s),
        0 <= i < s.len(),
    ensures
        entries(s).dom().contains(s[i].id@),
        entries(s)[s[i].id@] == s[i]@,
{
    assert(has_id(s, s[i].id@));
    let j = choose|j: int| 0 <= j < s.len() && (#[trigger] s[j]).id@ == s[i].id@;
    lemma_ids_unique(s, i, j);
}

/// In-memory Feature Registry (builtins + overlay), kept in id order.
#[derive(Debug)]
pub struct FeatureRegistry {
    descriptors: Vec<FeatureDescriptor>,
}

impl View for FeatureRegistry {
    type V = Map<Seq<char>, DescriptorView>;

    closed spec fn view(&self) -> Map<Seq<char>, DescriptorView> {
        entries(self.descriptors@)
    }
}

impl FeatureRegistry {
    /// Well-formed: entries held in strictly increasing id order.
    pub closed spec fn wf(&self) -> bool {
        ids_sorted(self.descriptors@)
    }

    /// Position of `k`: first index whose id is not below `k`, and whether it is `k`.
    fn locate(&self, k: &Vec<char>) -> (r: (usize, bool))
        requires
            self.wf(),
        ensures
            r.0 <= self.descriptors@.len(),
            forall|j: int| 0 <= j < r.0 ==> lex_lt(#[trigger] self.descriptors@[j].id@, k@),
            r.1 ==> r.0 < self.descriptors@.len() && self.descriptors@[r.0 as int].id@ == k@,
            !r.1 ==> forall|j: int|
                r.0 <= j < self.descriptors@.len() ==> lex_lt(k@, #[trigger] self.descriptors@[j].id@),
            r.1 == self@.dom().contains(k@),
    {
        let n = self.descriptors.len();
        let mut p: usize = 0;
        while p < n
            invariant
                n == self.descriptors@.len(),
                p <= n,
                ids_sorted(self.descriptors@),
                forall|j: int| 0 <= j < p ==> lex_lt(#[trigger] self.descriptors@[j].id@, k@),
            ensures
                p <= n,
                forall|j: int| 0 <= j < p ==> lex_lt(#[trigger] self.descriptors@[j].id@, k@),
                p < n ==> !lex_lt(self.descriptors@[p as int].id@, k@),
            decreases n - p,
        {
            let c = chars_of(self.descriptors[p].id.as_str());
            if !lex_lt_exec(&c, k) {
                break;
            }
            p = p + 1;
        }
        let found = if p < n {
            let c = chars_of(self.descriptors[p].id.as_str());
            same_chars(&c, k)
        } else {
            false
        };
        proof {
            let s = self.descriptors@;
            if !found {
                if p < n {
                    lemma_lex_lt_total(s[p as int].id@, k@);
                    assert(lex_lt(k@, s[p as int].id@));
                }
                assert forall|j: int| p <= j < n implies lex_lt(k@, #[trigger] s[j].id@) by {
                    if j > p {
                        lemma_lex_lt_transitive(k@, s[p as int].id@, s[j].id@);
                    }
                }
                if has_id(s, k@) {
                    let j = choose|j: int| 0 <= j < s.len() && (#[trigger] s[j]).id@ == k@;
                    if j < p {
                        lemma_lex_lt_irreflexive(k@);
                    } else {
                        lemma_lex_lt_irreflexive(k@);
                    }
                }
            } else {
                assert(has_id(s, k@));
            }
        }
        (p, found)
    }

    /// Insert a descriptor whose id is absent, at its sorted position.
    fn insert_at(&mut self, p: usize, d: FeatureDescriptor)
        requires
            old(self).wf(),
            p <= old(self).descriptors@.len(),
            forall|j: int| 0 <= j < p ==> lex_lt(#[trigger] old(self).descriptors@[j].id@, d.id@),
            forall|j: int|
                p <= j < old(self).descriptors@.len() ==> lex_lt(d.id@, #[trigger] old(self).descriptors@[j].id@),
        ensures
            final(self).wf(),
            final(self)@ == old(self)@.insert(d.id@, d@),
    {
        let ghost old_s = self.descriptors@;
        let ghost dv = d;
        self.descriptors.insert(p, d);
        proof {
            let s = self.descriptors@;
            assert forall|j: int| 0 <= j < s.len() implies #[trigger] s[j] == (if j < p {
                old_s[j]
            } else if j == p {
                dv
            } else {
                old_s[j - 1]
            }) by {}
            assert forall|i: int, j: int| 0 <= i < j < s.len() implies lex_lt(
                #[trigger] s[i].id@,
                #[trigger] s[j].id@,
            ) by {
                if j < p {
                    assert(lex_lt(old_s[i].id@, old_s[j].id@));
                } else if j == p {
                } else if i < p {
                    lemma_lex_lt_transitive(old_s[i].id@, dv.id@, old_s[j - 1].id@);
                } else if i == p {
                } else {
                    assert(lex_lt(old_s[i - 1].id@, old_s[j - 1].id@));
                }
            }
            let m = entries(old_s).insert(dv.id@, dv@);
            assert forall|k: Seq<char>| #[trigger] entries(s).dom().contains(k) <==> m.dom().contains(k) by {
                if has_id(s, k) {
                    let j = choose|j: int| 0 <= j < s.len() && (#[trigger] s[j]).id@ == k;
                    if j < p {
                        assert(old_s[j].id@ == k);
                    } else if j > p {
                        assert(old_s[j - 1].id@ == k);
                    }
                }
                if has_id(old_s, k) {
                    let j = choose|j: int| 0 <= j < old_s.len() && (#[trigger] old_s[j]).id@ == k;
                    if j < p {
                        assert(s[j].id@ == k);
                    } else {
                        assert(s[j + 1].id@ == k);
                    }
                }
                if k == dv.id@ {
                    assert(s[p as int].id@ == k);
                }
            }
            assert forall|k: Seq<char>| #[trigger] entries(s).dom().contains(k) implies entries(s)[k] == m[k] by {
                let j = choose|j: int| 0 <= j < s.len() && (#[trigger] s[j]).id@ == k;
                lemma_entry_at(s, j);
                if j < p {
                    lemma_entry_at(old_s, j);
                    if k == dv.id@ {
                        lemma_lex_lt_irreflexive(k);
                    }
                } else if j > p {
                    lemma_entry_at(old_s, j - 1);
                    if k == dv.id@ {
                        lemma_lex_lt_irreflexive(k);
                    }
                }
            }
            assert(entries(s) =~= m);
        }
    }

    /// Replace the descriptor at `p`, which carries the same id.
    fn replace_at(&mut self, p: usize, d: FeatureDescriptor)
        requires
            old(self).wf(),
            p < old(self).descriptors@.len(),
            old(self).descriptors@[p as int].id@ == d.id@,
        ensures
            final(self).wf(),
            final(self)@ == old(self)@.insert(d.id@, d@),
    {
        let ghost old_s = self.descriptors@;
        let ghost dv = d;
        self.descriptors.set(p, d);
        proof {
            let s = self.descriptors@;
            assert(s == old_s.update(p as int, dv));
            assert forall|i: int, j: int| 0 <= i < j < s.len() implies lex_lt(
                #[trigger] s[i].id@,
                #[trigger] s[j].id@,
            ) by {
                assert(lex_lt(old_s[i].id@, old_s[j].id@));
            }
            let m = entries(old_s).insert(dv.id@, dv@);
            assert forall|k: Seq<char>| #[trigger] entries(s).dom().contains(k) <==> m.dom().contains(k) by {
                if has_id(s, k) {
                    let j = choose|j: int| 0 <= j < s.len() && (#[trigger] s[j]).id@ == k;
                    assert(old_s[j].id@ == k);
                }
                if has_id(old_s, k) {
                    let j = choose|j: int| 0 <= j < old_s.len() && (#[trigger] old_s[j]).id@ == k;
                    assert(s[j].id@ == k);
                }
                if k == dv.id@ {
                    assert(s[p as int].id@ == k);
                }
            }
            assert forall|k: Seq<char>| #[trigger] entries(s).dom().contains(k) implies entries(s)[k] == m[k] by {
                let j = choose|j: int| 0 <= j < s.len() && (#[trigger] s[j]).id@ == k;
                lemma_entry_at(s, j);
                if j != p {
                    lemma_entry_at(old_s, j);
                    if k == dv.id@ {
                        lemma_ids_unique(old_s, j, p as int);
                    }
                }
            }
            assert(entries(s) =~= m);
        }
    }

    /// Insert or replace `d` by id.
    fn put(&mut self, d: FeatureDescriptor)
        requires
            old(self).wf(),
        ensures
            final(self).wf(),
            final(self)@ == old(self)@.insert(d.id@, d@),
    {
        let k = chars_of(d.id.as_str());
        let (p, found) = self.locate(&k);
        if found {
            self.replace_at(p, d);
        } else {
            self.insert_at(p, d);
        }
    }

    fn empty() -> (r: FeatureRegistry)
        ensures
            r.wf(),
            r@ == Map::<Seq<char>, DescriptorView>::empty(),
    {
        let r = FeatureRegistry { descriptors: Vec::new() };
        assert(entries(r.descriptors@) =~= Map::<Seq<char>, DescriptorView>::empty());
        r
    }

    /// Registry holding `rows` inserted in order (a later row with the same id wins).
    pub fn from_descriptors(rows: Vec<FeatureDescriptor>) -> (r: FeatureRegistry)
        ensures
            r.wf(),
            r@ == insert_all(Map::empty(), desc_views(rows@)),
    {
        let mut r = FeatureRegistry::empty();
        let ghost all = desc_views(rows@);
        let mut rows = rows;
        let ghost mut i: int = 0;
        assert(all.take(0) =~= Seq::<DescriptorView>::empty());
        assert(all.skip(0) =~= all);
        while rows.len() > 0
            invariant
                r.wf(),
                0 <= i <= all.len(),
                desc_views(rows@) == all.skip(i),
                r@ == insert_all(Map::empty(), all.take(i)),
            decreases rows.len(),
        {
            proof {
                assert(desc_views(rows@).len() == rows@.len());
                assert(all.skip(i).len() == all.len() - i);
            }
            let ghost before = rows@;
            let d = rows.remove(0);
            proof {
                assert(rows@ =~= before.subrange(1, before.len() as int));
                assert forall|j: int| 0 <= j < rows@.len() implies desc_views(rows@)[j] == all.skip(
                    i + 1,
                )[j] by {
                    assert(desc_views(before)[j + 1] == all.skip(i)[j + 1]);
                }
                assert(desc_views(rows@) =~= all.skip(i + 1));
                assert(all.skip(i)[0] == d@);
                assert(all.take(i + 1).drop_last() =~= all.take(i));
                assert(all.take(i + 1).last() == d@);
            }
            r.put(d);
            proof {
                i = i + 1;
            }
        }
        assert(all.take(i) =~= all);
        r
    }
}

/// A descriptor after a promotion step: new state, gate note recorded.
pub open spec fn promoted(d: DescriptorView, to: PromotionState, note: Seq<char>) -> DescriptorView {
    DescriptorView { promotion_state: to, last_gate_note: Some(note), ..d }
}

proof fn lemma_lists_entries(s: Seq<FeatureDescriptor>)
    requires
        ids_sorted(s),
    ensures
        lists_map(desc_views(s), entries(s)),
{
    let v = desc_views(s);
    assert forall|i: int| 0 <= i < v.len() implies entries(s).dom().contains((#[trigger] v[i]).id)
        && entries(s)[v[i].id] == v[i] by {
        lemma_entry_at(s, i);
    }
    assert forall|k: Seq<char>| #[trigger] entries(s).dom().contains(k) implies exists|i: int|
        0 <= i < v.len() && (#[trigger] v[i]).id == k by {
        let j = choose|j: int| 0 <= j < s.len() && (#[trigger] s[j]).id@ == k;
        assert(v[j].id == k);
    }
}

/// `rows` are the shipped Base Detectors, in order: the builtin ids, each
/// meeting [`shipped_invariants`].
pub open spec fn builtin_rows(rows: Seq<DescriptorView>) -> bool {
    &&& rows == builtin_views()
    &&& rows.len() == builtin_ids().len()
    &&& forall|i: int| 0 <= i < rows.len() ==> (#[trigger] rows[i]).id == builtin_ids()[i]
        && shipped_invariants(rows[i])
}

impl FeatureRegistry {
    /// Shipped Base Detectors only (all `active`, no behavior change).
    pub fn builtins() -> (r: FeatureRegistry)
        ensures
            r.wf(),
            exists|rows: Seq<DescriptorView>| #[trigger] builtin_rows(rows) && r@ == builtin_map(rows),
    {
        let rows = builtin_base_detectors();
        let ghost rv = desc_views(rows@);
        let r = FeatureRegistry::from_descriptors(rows);
        assert(builtin_rows(rv));
        r
    }

    /// Merge overlay rows over the builtins. Overlay cannot replace or demote builtins.
    pub fn with_overlay(overlay: Vec<FeatureDescriptor>) -> (r: FeatureRegistry)
        ensures
            r.wf(),
            exists|rows: Seq<DescriptorView>| #[trigger] builtin_rows(rows) && r@ == overlay_all(
                builtin_map(rows),
                desc_views(overlay@),
            ),
    {
        let rows = builtin_base_detectors();
        let ghost rv = desc_views(rows@);
        let mut r = FeatureRegistry::from_descriptors(rows);
        let ghost base = r@;
        let ghost all = desc_views(overlay@);
        let mut overlay = overlay;
        let ghost mut i: int = 0;
        assert(all.take(0) =~= Seq::<DescriptorView>::empty());
        assert(all.skip(0) =~= all);
        while overlay.len() > 0
            invariant
                r.wf(),
                0 <= i <= all.len(),
                desc_views(overlay@) == all.skip(i),
                r@ == overlay_all(base, all.take(i)),
            decreases overlay.len(),
        {
            proof {
                assert(desc_views(overlay@).len() == overlay@.len());
                assert(all.skip(i).len() == all.len() - i);
            }
            let ghost before = overlay@;
            let row = overlay.remove(0);
            proof {
                assert(overlay@ =~= before.subrange(1, before.len() as int));
                assert forall|j: int| 0 <= j < overlay@.len() implies desc_views(overlay@)[j]
                    == all.skip(i + 1)[j] by {
                    assert(desc_views(before)[j + 1] == all.skip(i)[j + 1]);
                }
                assert(desc_views(overlay@) =~= all.skip(i + 1));
                assert(all.skip(i)[0] == row@);
                assert(all.take(i + 1).drop_last() =~= all.take(i));
                assert(all.take(i + 1).last() == row@);
            }
            let k = chars_of(row.id.as_str());
            let (p, found) = r.locate(&k);
            if found && r.descriptors[p].builtin {
                proof {
                    lemma_entry_at(r.descriptors@, p as int);
                }
            } else {
                proof {
                    if found {
                        lemma_entry_at(r.descriptors@, p as int);
                    }
                }
                r.put(row);
            }
            proof {
                i = i + 1;
            }
        }
        assert(all.take(i) =~= all);
        assert(builtin_rows(rv));
        r
    }

    /// Lookup by id.
    pub fn get(&self, id: &str) -> (r: Option<&FeatureDescriptor>)
        requires
            self.wf(),
        ensures
            r is Some <==> self@.dom().contains(id@),
            r matches Some(d) ==> d@ == self@[id@],
    {
        let k = chars_of(id);
        let (p, found) = self.locate(&k);
        if found {
            proof {
                lemma_entry_at(self.descriptors@, p as int);
            }
            Some(&self.descriptors[p])
        } else {
            None
        }
    }

    /// All descriptors, sorted by id.
    pub fn list(&self) -> (r: Vec<&FeatureDescriptor>)
        requires
            self.wf(),
        ensures
            lists_map(r@.map_values(|d: &FeatureDescriptor| d@), self@),
    {
        let mut r: Vec<&FeatureDescriptor> = Vec::new();
        let n = self.descriptors.len();
        let mut i: usize = 0;
        while i < n
            invariant
                n == self.descriptors@.len(),
                i <= n,
                r@.map_values(|d: &FeatureDescriptor| d@) == desc_views(self.descriptors@).take(
                    i as int,
                ),
            decreases n - i,
        {
            let ghost prev = r@;
            r.push(&self.descriptors[i]);
            assert(r@ == prev.push(&self.descriptors@[i as int]));
            assert(r@.map_values(|d: &FeatureDescriptor| d@) =~= prev.map_values(
                |d: &FeatureDescriptor| d@,
            ).push(self.descriptors@[i as int]@));
            assert(r@.map_values(|d: &FeatureDescriptor| d@) =~= desc_views(
                self.descriptors@,
            ).take(i + 1));
            i = i + 1;
        }
        proof {
            assert(desc_views(self.descriptors@).take(n as int) =~= desc_views(
                self.descriptors@,
            ));
            lemma_lists_entries(self.descriptors@);
        }
        r
    }

    /// Owned list, sorted by id.
    pub fn into_descriptors(self) -> (r: Vec<FeatureDescriptor>)
        requires
            self.wf(),
        ensures
            lists_map(desc_views(r@), self@),
    {
        proof {
            lemma_lists_entries(self.descriptors@);
        }
        self.descriptors
    }

    fn of_kind_sorted(&self, kind: FeatureKind) -> (r: Vec<FeatureDescriptor>)
        requires
            self.wf(),
        ensures
            lists_map(desc_views(r@), of_kind(self@, kind)),
    {
        let ghost s = self.descriptors@;
        let mut r: Vec<FeatureDescriptor> = Vec::new();
        let ghost mut idx: Seq<int> = Seq::empty();
        let n = self.descriptors.len();
        let mut i: usize = 0;
        while i < n
            invariant
                n == s.len(),
                s == self.descriptors@,
                ids_sorted(s),
                i <= n,
                idx.len() == r@.len(),
                forall|a: int, b: int| 0 <= a < b < idx.len() ==> #[trigger] idx[a] < #[trigger] idx[b],
                forall|a: int| 0 <= a < idx.len() ==> 0 <= #[trigger] idx[a] < i,
                forall|a: int| 0 <= a < idx.len() ==> (#[trigger] r@[a])@ == s[idx[a]]@,
                forall|a: int| 0 <= a < idx.len() ==> s[#[trigger] idx[a]].kind == kind,
                forall|j: int| 0 <= j < i && (#[trigger] s[j]).kind == kind ==> exists|a: int| 0 <= a < idx.len() && idx[a] == j,
            decreases n - i,
        {
            let ghost prev_r = r@;
            let ghost prev_idx = idx;
            if self.descriptors[i].kind == kind {
                let d = self.descriptors[i].clone();
                let ghost d_ghost = d;
                assert(d_ghost@ == s[i as int]@);
                r.push(d);
                proof {
                    idx = idx.push(i as int);
                    assert forall|a: int| 0 <= a < idx.len() implies (#[trigger] r@[a])@
                        == s[idx[a]]@ && s[idx[a]].kind == kind by {
                        if a < prev_idx.len() {
                            assert(r@[a] == prev_r[a]);
                            assert(idx[a] == prev_idx[a]);
                        } else {
                            assert(a == prev_idx.len());
                            assert(idx[a] == i);
                            assert(r@[a] == d_ghost);
                        }
                    }
                    assert forall|j: int| 0 <= j < i + 1 && (#[trigger] s[j]).kind == kind implies exists|
                        a: int,
                    | 0 <= a < idx.len() && idx[a] == j by {
                        if j < i {
                            let a = choose|a: int| 0 <= a < prev_idx.len() && prev_idx[a] == j;
                            assert(idx[a] == j);
                        } else {
                            assert(idx[idx.len() - 1] == j);
                        }
                    }
                }
            } else {
                proof {
                    assert(r@ == prev_r);
                    assert(idx == prev_idx);
                    assert forall|j: int| 0 <= j < i + 1 && (#[trigger] s[j]).kind == kind implies exists|
                        a: int,
                    | 0 <= a < idx.len() && idx[a] == j by {
                        let a = choose|a: int| 0 <= a < prev_idx.len() && prev_idx[a] == j;
                    }
                }
            }
            i = i + 1;
        }
        proof {
            let v = desc_views(r@);
            let m = of_kind(entries(s), kind);
            assert forall|a: int, b: int| 0 <= a < b < v.len() implies lex_lt(#[trigger] v[a].id, #[trigger] v[b].id) by {
                assert(lex_lt(s[idx[a]].id@, s[idx[b]].id@));
            }
            assert forall|a: int| 0 <= a < v.len() implies m.dom().contains((#[trigger] v[a]).id) && m[v[a].id] == v[a] by {
                lemma_entry_at(s, idx[a]);
            }
            assert forall|k: Seq<char>| #[trigger] m.dom().contains(k) implies exists|a: int| 0 <= a < v.len() && (#[trigger] v[a]).id == k by {
                let j = choose|j: int| 0 <= j < s.len() && (#[trigger] s[j]).id@ == k;
                lemma_entry_at(s, j);
                let a = choose|a: int| 0 <= a < idx.len() && idx[a] == j;
                assert(v[a].id == k);
            }
        }
        r
    }

    /// Base Detector descriptors (builtins + overlay), sorted by id.
    pub fn base_detectors(&self) -> (r: Vec<FeatureDescriptor>)
        requires
            self.wf(),
        ensures
            lists_map(desc_views(r@), of_kind(self@, FeatureKind::BaseDetector)),
    {
        self.of_kind_sorted(FeatureKind::BaseDetector)
    }

    /// Derived Feature descriptors, sorted by id.
    pub fn derived_features(&self) -> (r: Vec<FeatureDescriptor>)
        requires
            self.wf(),
        ensures
            lists_map(desc_views(r@), of_kind(self@, FeatureKind::DerivedFeature)),
    {
        self.of_kind_sorted(FeatureKind::DerivedFeature)
    }

    /// Add a new descriptor; an existing id (builtin or not) is refused.
    pub fn insert_new(&mut self, desc: FeatureDescriptor) -> (r: Result<FeatureDescriptor, FeatureRegistryError>)
        requires
            old(self).wf(),
        ensures
            final(self).wf(),
            old(self)@.dom().contains(desc.id@) ==> final(self)@ == old(self)@,
            old(self)@.dom().contains(desc.id@) && old(self)@[desc.id@].builtin ==> (r matches Err(
                FeatureRegistryError::BuiltinImmutable(s),
            ) && s@ == desc.id@),
            old(self)@.dom().contains(desc.id@) && !old(self)@[desc.id@].builtin ==> (r matches Err(
                FeatureRegistryError::DuplicateId(s),
            ) && s@ == desc.id@),
            !old(self)@.dom().contains(desc.id@) ==> (r matches Ok(d) && d@ == desc@ && final(self)@
                == old(self)@.insert(desc.id@, desc@)),
    {
        let k = chars_of(desc.id.as_str());
        let (p, found) = self.locate(&k);
        if found {
            proof {
                lemma_entry_at(self.descriptors@, p as int);
            }
            if self.descriptors[p].builtin {
                return Err(FeatureRegistryError::BuiltinImmutable(desc.id));
            }
            return Err(FeatureRegistryError::DuplicateId(desc.id));
        }
        let out = desc.clone();
        self.insert_at(p, desc);
        Ok(out)
    }

    /// Register a Base Detector at `candidate`. Does not change pipeline math.
    pub fn register(&mut self, input: BaseDetectorRegistration) -> (r: Result<FeatureDescriptor, FeatureRegistryError>)
        requires
            old(self).wf(),
        ensures
            final(self).wf(),
            r is Err ==> final(self)@ == old(self)@,
            registration_error(input) == Some(0int) ==> (r matches Err(
                FeatureRegistryError::InvalidId(s),
            ) && s@ == trimmed(input.id@)),
            registration_error(input) == Some(1int) ==> r matches Err(
                FeatureRegistryError::MissingIdentity,
            ),
            registration_error(input) == Some(2int) ==> r matches Err(
                FeatureRegistryError::MissingSchema,
            ),
            registration_error(input) == Some(3int) ==> r matches Err(
                FeatureRegistryError::MissingProvenance,
            ),
            registration_error(input) is None ==> {
                let id = trimmed(input.id@);
                &&& old(self)@.dom().contains(id) && old(self)@[id].builtin ==> (r matches Err(
                    FeatureRegistryError::BuiltinImmutable(s),
                ) && s@ == id)
                &&& old(self)@.dom().contains(id) && !old(self)@[id].builtin ==> (r matches Err(
                    FeatureRegistryError::DuplicateId(s),
                ) && s@ == id)
                &&& !old(self)@.dom().contains(id) ==> (r matches Ok(d) && registered_base_detector(
                    input,
                    d@,
                ) && final(self)@ == old(self)@.insert(id, d@))
            },
    {
        let desc = validate_registration(input)?;
        self.insert_new(desc)
    }

    /// Register a Derived Feature at `candidate` once its declaration and
    /// program validate against the catalog.
    pub fn register_derived(
        &mut self,
        input: DerivedFeatureRegistration,
        catalog: &DeskCatalog,
    ) -> (r: Result<FeatureDescriptor, FeatureRegistryError>)
        requires
            old(self).wf(),
        ensures
            final(self).wf(),
            r is Err ==> final(self)@ == old(self)@,
            derived_error(input, catalog.fields@) == Some(0int) ==> (r matches Err(
                FeatureRegistryError::InvalidDerivedId(s),
            ) && s@ == trimmed(input.id@)),
            derived_error(input, catalog.fields@) == Some(1int) ==> r matches Err(
                FeatureRegistryError::MissingIdentity,
            ),
            derived_error(input, catalog.fields@) == Some(2int) ==> (r matches Err(
                FeatureRegistryError::FeatureIr(e),
            ) && reports_fault(e, shape_fault(input.program, catalog.fields@)->0)),
            derived_error(input, catalog.fields@) is None && derived_schema_missing(input) ==> r matches Err(
                FeatureRegistryError::MissingSchema,
            ),
            derived_error(input, catalog.fields@) is None && !derived_schema_missing(input) ==> {
                let id = trimmed(input.id@);
                &&& old(self)@.dom().contains(id) && old(self)@[id].builtin ==> (r matches Err(
                    FeatureRegistryError::BuiltinImmutable(s),
                ) && s@ == id)
                &&& old(self)@.dom().contains(id) && !old(self)@[id].builtin ==> (r matches Err(
                    FeatureRegistryError::DuplicateId(s),
                ) && s@ == id)
                &&& !old(self)@.dom().contains(id) ==> (r matches Ok(d) && registered_derived_feature(
                    input,
                    d@,
                ) && final(self)@ == old(self)@.insert(id, d@))
            },
    {
        let desc = validate_derived_feature(input, catalog)?;
        self.insert_new(desc)
    }

    /// Human-gated promotion: candidate → shadow, or shadow → active.
    /// Builtins cannot be re-promoted.
    pub fn promote(&mut self, id: &str, target: PromotionState, gate: HumanGate<'_>) -> (r: Result<
        FeatureDescriptor,
        FeatureRegistryError,
    >)
        requires
            old(self).wf(),
        ensures
            final(self).wf(),
            r is Err ==> final(self)@ == old(self)@,
            !old(self)@.dom().contains(id@) ==> (r matches Err(FeatureRegistryError::NotFound(s))
                && s@ == id@),
            old(self)@.dom().contains(id@) && old(self)@[id@].builtin ==> (r matches Err(
                FeatureRegistryError::BuiltinImmutable(s),
            ) && s@ == id@),
            old(self)@.dom().contains(id@) && !old(self)@[id@].builtin ==> {
                let from = old(self)@[id@].promotion_state;
                &&& is_blank(gate.trader_confirmation@) ==> (r matches Err(
                    FeatureRegistryError::HumanGateRequired,
                ))
                &&& !is_blank(gate.trader_confirmation@) && from == target ==> (r matches Err(
                    FeatureRegistryError::AlreadyInState(s),
                ) && s == from)
                &&& !is_blank(gate.trader_confirmation@) && from != target && !promotion_step(
                    from,
                    target,
                ) ==> (r matches Err(FeatureRegistryError::IllegalPromotion { from: f, to: t })
                    && f == from && t == target)
                &&& !is_blank(gate.trader_confirmation@) && from != target && promotion_step(
                    from,
                    target,
                ) ==> (r matches Ok(d) && d@ == promoted(
                    old(self)@[id@],
                    target,
                    trimmed(gate.trader_confirmation@),
                ) && final(self)@ == old(self)@.insert(id@, d@))
            },
    {
        let k = chars_of(id);
        let (p, found) = self.locate(&k);
        if !found {
            return Err(FeatureRegistryError::NotFound(owned(id)));
        }
        proof {
            lemma_entry_at(self.descriptors@, p as int);
        }
        if self.descriptors[p].builtin {
            return Err(FeatureRegistryError::BuiltinImmutable(owned(id)));
        }
        let next = apply_promotion(self.descriptors[p].promotion_state, target, gate)?;
        let mut entry = self.descriptors[p].clone();
        entry.promotion_state = next;
        let note = trimmed_of(gate.trader_confirmation);
        entry.last_gate_note = Some(string_from(&note));
        let out = entry.clone();
        self.replace_at(p, entry);
        Ok(out)
    }
}

} // verus!

verus! {

proof fn lemma_insert_all_values(m: Map<Seq<char>, DescriptorView>, rows: Seq<DescriptorView>, k: Seq<char>)
    requires
        insert_all(m, rows).dom().contains(k),
    ensures
        (m.dom().contains(k) && insert_all(m, rows)[k] == m[k]) || exists|i: int|
            0 <= i < rows.len() && #[trigger] rows[i] == insert_all(m, rows)[k] && rows[i].id == k,
    decreases rows.len(),
{
    if rows.len() > 0 {
        let prev = insert_all(m, rows.drop_last());
        if k == rows.last().id {
            assert(rows[rows.len() - 1] == insert_all(m, rows)[k]);
        } else {
            lemma_insert_all_values(m, rows.drop_last(), k);
            if !(m.dom().contains(k) && prev[k] == m[k]) {
                let i = choose|i: int| 0 <= i < rows.drop_last().len() && #[trigger] rows.drop_last()[i]
                    == prev[k] && rows.drop_last()[i].id == k;
                assert(rows[i] == insert_all(m, rows)[k]);
            }
        }
    }
}

proof fn lemma_insert_all_dom(m: Map<Seq<char>, DescriptorView>, rows: Seq<DescriptorView>, k: Seq<char>)
    ensures
        insert_all(m, rows).dom().contains(k) <==> (m.dom().contains(k) || exists|i: int|
            0 <= i < rows.len() && (#[trigger] rows[i]).id == k),
    decreases rows.len(),
{
    if rows.len() > 0 {
        lemma_insert_all_dom(m, rows.drop_last(), k);
        if exists|i: int| 0 <= i < rows.drop_last().len() && (#[trigger] rows.drop_last()[i]).id == k {
            let i = choose|i: int| 0 <= i < rows.drop_last().len() && (#[trigger] rows.drop_last()[i]).id == k;
            assert(rows[i].id == k);
        }
        if exists|i: int| 0 <= i < rows.len() && (#[trigger] rows[i]).id == k {
            let i = choose|i: int| 0 <= i < rows.len() && (#[trigger] rows[i]).id == k;
            if i < rows.len() - 1 {
                assert(rows.drop_last()[i].id == k);
            }
        }
    }
}

/// The builtin registry holds exactly the shipped ids, each an `active`
/// builtin with reviewed-Rust provenance and no behavior change.
pub proof fn lemma_builtins_are_shipped(rows: Seq<DescriptorView>)
    requires
        builtin_rows(rows),
    ensures
        forall|k: Seq<char>| #[trigger] builtin_map(rows).dom().contains(k) <==> builtin_ids().contains(k),
        forall|k: Seq<char>| #[trigger] builtin_map(rows).dom().contains(k) ==> shipped_invariants(
            builtin_map(rows)[k],
        ) && builtin_map(rows)[k].id == k,
{
    assert forall|k: Seq<char>| #[trigger] builtin_map(rows).dom().contains(k) <==> builtin_ids().contains(k) by {
        lemma_insert_all_dom(Map::empty(), rows, k);
        if builtin_ids().contains(k) {
            let i = choose|i: int| 0 <= i < builtin_ids().len() && builtin_ids()[i] == k;
            assert(rows[i].id == k);
        }
        if exists|i: int| 0 <= i < rows.len() && (#[trigger] rows[i]).id == k {
            let i = choose|i: int| 0 <= i < rows.len() && (#[trigger] rows[i]).id == k;
            assert(builtin_ids()[i] == k);
        }
    }
    assert forall|k: Seq<char>| #[trigger] builtin_map(rows).dom().contains(k) implies shipped_invariants(
        builtin_map(rows)[k],
    ) && builtin_map(rows)[k].id == k by {
        lemma_insert_all_values(Map::empty(), rows, k);
    }
}

proof fn lemma_overlay_keeps_builtin_entry(
    m: Map<Seq<char>, DescriptorView>,
    rows: Seq<DescriptorView>,
    k: Seq<char>,
)
    requires
        m.dom().contains(k),
        m[k].builtin,
    ensures
        overlay_all(m, rows).dom().contains(k),
        overlay_all(m, rows)[k] == m[k],
    decreases rows.len(),
{
    if rows.len() > 0 {
        lemma_overlay_keeps_builtin_entry(m, rows.drop_last(), k);
    }
}

/// An overlay never replaces or demotes a shipped builtin: after any overlay,
/// every builtin id still maps to its shipped descriptor.
pub proof fn lemma_overlay_cannot_clobber_builtins(rows: Seq<DescriptorView>, overlay: Seq<DescriptorView>)
    requires
        builtin_rows(rows),
    ensures
        forall|k: Seq<char>| #[trigger] builtin_map(rows).dom().contains(k) ==> overlay_all(
            builtin_map(rows),
            overlay,
        ).dom().contains(k) && overlay_all(builtin_map(rows), overlay)[k] == builtin_map(rows)[k],
{
    lemma_builtins_are_shipped(rows);
    assert forall|k: Seq<char>| #[trigger] builtin_map(rows).dom().contains(k) implies overlay_all(
        builtin_map(rows),
        overlay,
    ).dom().contains(k) && overlay_all(builtin_map(rows), overlay)[k] == builtin_map(rows)[k] by {
        lemma_overlay_keeps_builtin_entry(builtin_map(rows), overlay, k);
    }
}

/// Promotion is forward-only and one step at a time.
pub proof fn lemma_promotion_forward_only(from: PromotionState, to: PromotionState)
    requires
        promotion_step(from, to),
    ensures
        promotion_rank(to) == promotion_rank(from) + 1,
        from != PromotionState::Active,
        to != PromotionState::Candidate,
{
}

/// Every promotion state's wire label parses back to it.
pub proof fn lemma_promotion_label_round_trip(p: PromotionState)
    ensures
        promotion_from_key(norm_lower(promotion_label(p))) == Some(p),
{
    reveal_strlit("candidate");
    reveal_strlit("shadow");
    reveal_strlit("active");
    lemma_norm_lower_plain(promotion_label(p));
}

/// Every feature kind's wire label parses back to it.
pub proof fn lemma_kind_label_round_trip(k: FeatureKind)
    ensures
        kind_from_key(trimmed(kind_label(k))) == Some(k),
{
    reveal_strlit("baseDetector");
    reveal_strlit("base_detector");
    reveal_strlit("BaseDetector");
    reveal_strlit("derivedFeature");
    reveal_strlit("derived_feature");
    reveal_strlit("DerivedFeature");
    lemma_trimmed_plain(kind_label(k));
}

/// Registry id a detector specialty tool must cite, if any.
pub fn specialty_tool_registry_id(tool_name: &str) -> (r: Option<&'static str>)
    ensures
        r is None <==> forall|i: int| 0 <= i < 4 ==> DETECTOR_SPECIALTY_TOOLS[i].0@ != tool_name@,
        r matches Some(id) ==> exists|i: int| 0 <= i < 4 && DETECTOR_SPECIALTY_TOOLS[i].0@
            == tool_name@ && DETECTOR_SPECIALTY_TOOLS[i].1 == id && forall|j: int|
            0 <= j < i ==> DETECTOR_SPECIALTY_TOOLS[j].0@ != tool_name@,
{
    let k = chars_of(tool_name);
    let mut i: usize = 0;
    while i < 4
        invariant
            i <= 4,
            forall|j: int| 0 <= j < i ==> DETECTOR_SPECIALTY_TOOLS[j].0@ != k@,
            k@ == tool_name@,
        decreases 4 - i,
    {
        let (tool, id) = DETECTOR_SPECIALTY_TOOLS[i];
        if eq_lit(&k, tool) {
            return Some(id);
        }
        i = i + 1;
    }
    None
}

/// Two strictly sorted lists with the same members are the same list.
proof fn lemma_sorted_same_members(a: Seq<Seq<char>>, b: Seq<Seq<char>>)
    requires
        strictly_sorted(a),
        strictly_sorted(b),
        forall|x: Seq<char>| #[trigger] a.contains(x) <==> b.contains(x),
    ensures
        a == b,
    decreases a.len() + b.len(),
{
    if a.len() == 0 {
        if b.len() > 0 {
            assert(b.contains(b[0]));
            assert(!a.contains(b[0]));
        }
        assert(a =~= b);
    } else if b.len() == 0 {
        assert(a.contains(a[0]));
        assert(!b.contains(a[0]));
    } else {
        let la = a.last();
        let lb = b.last();
        assert(a.contains(la));
        assert(b.contains(lb));
        assert(b.contains(la));
        assert(a.contains(lb));
        if la != lb {
            let j = choose|j: int| 0 <= j < b.len() && b[j] == la;
            let i = choose|i: int| 0 <= i < a.len() && a[i] == lb;
            assert(j < b.len() - 1);
            assert(i < a.len() - 1);
            assert(lex_lt(b[j], b[b.len() - 1]));
            assert(lex_lt(a[i], a[a.len() - 1]));
            lemma_lex_lt_asymmetric(la, lb);
        }
        let ad = a.drop_last();
        let bd = b.drop_last();
        assert forall|x: Seq<char>| #[trigger] ad.contains(x) <==> bd.contains(x) by {
            if ad.contains(x) {
                let k = choose|k: int| 0 <= k < ad.len() && ad[k] == x;
                assert(a[k] == x);
                assert(lex_lt(a[k], a[a.len() - 1]));
                lemma_lex_lt_irreflexive(x);
                assert(a.contains(x));
                let q = choose|q: int| 0 <= q < b.len() && b[q] == x;
                if q == b.len() - 1 {
                    assert(x == lb);
                }
                assert(bd[q] == x);
            }
            if bd.contains(x) {
                let k = choose|k: int| 0 <= k < bd.len() && bd[k] == x;
                assert(b[k] == x);
                assert(lex_lt(b[k], b[b.len() - 1]));
                lemma_lex_lt_irreflexive(x);
                assert(b.contains(x));
                assert(a.contains(x));
                let q = choose|q: int| 0 <= q < a.len() && a[q] == x;
                if q == a.len() - 1 {
                    assert(x == la);
                }
                assert(ad[q] == x);
            }
        }
        lemma_sorted_same_members(ad, bd);
        assert(a =~= ad.push(la));
        assert(b =~= bd.push(lb));
    }
}

/// A registration determines its descriptor: every descriptor that meets
/// `registered_base_detector` for an input is the same, so what `register`
/// stores is exactly what `validate_registration` returns for that input.
pub proof fn lemma_registration_determines_descriptor(
    input: BaseDetectorRegistration,
    d1: DescriptorView,
    d2: DescriptorView,
)
    requires
        registered_base_detector(input, d1),
        registered_base_detector(input, d2),
    ensures
        d1 == d2,
{
    lemma_sorted_same_members(d1.schema.catalog_field_ids, d2.schema.catalog_field_ids);
    lemma_sorted_same_members(d1.schema.event_types, d2.schema.event_types);
    assert(d1.schema == d2.schema);
    assert(d1.provenance == d2.provenance);
}

/// The last row of `rows` with id `k`, if any.
pub open spec fn last_with_id(rows: Seq<DescriptorView>, k: Seq<char>) -> Option<DescriptorView>
    decreases rows.len(),
{
    if rows.len() == 0 {
        None
    } else if rows.last().id == k {
        Some(rows.last())
    } else {
        last_with_id(rows.drop_last(), k)
    }
}

proof fn lemma_overlay_entry(m: Map<Seq<char>, DescriptorView>, ov: Seq<DescriptorView>, k: Seq<char>)
    requires
        !(m.dom().contains(k) && m[k].builtin),
        forall|i: int| 0 <= i < ov.len() && (#[trigger] ov[i]).id == k ==> !ov[i].builtin,
    ensures
        overlay_all(m, ov).dom().contains(k) == (m.dom().contains(k) || last_with_id(ov, k) is Some),
        overlay_all(m, ov).dom().contains(k) ==> !overlay_all(m, ov)[k].builtin,
        last_with_id(ov, k) matches Some(d) ==> overlay_all(m, ov)[k] == d,
        last_with_id(ov, k) is None && m.dom().contains(k) ==> overlay_all(m, ov)[k] == m[k],
    decreases ov.len(),
{
    if ov.len() > 0 {
        let init = ov.drop_last();
        assert forall|i: int| 0 <= i < init.len() && (#[trigger] init[i]).id == k implies !init[i].builtin by {
            assert(init[i] == ov[i]);
        }
        lemma_overlay_entry(m, init, k);
        assert(ov.last() == ov[ov.len() - 1]);
    }
}

/// Overlay rows for ids that are not shipped builtins land as written, the
/// last row for an id winning, provided no overlay row for that id itself
/// claims to be a builtin: the merged registry holds `k` exactly when some
/// overlay row has id `k`, and then maps it to the last such row.
pub proof fn lemma_overlay_rows_land(rows: Seq<DescriptorView>, overlay: Seq<DescriptorView>, k: Seq<char>)
    requires
        builtin_rows(rows),
        !builtin_ids().contains(k),
        forall|i: int| 0 <= i < overlay.len() && (#[trigger] overlay[i]).id == k ==> !overlay[i].builtin,
    ensures
        overlay_all(builtin_map(rows), overlay).dom().contains(k) <==> last_with_id(overlay, k) is Some,
        last_with_id(overlay, k) matches Some(d) ==> overlay_all(builtin_map(rows), overlay)[k] == d,
{
    lemma_builtins_are_shipped(rows);
    assert(!builtin_map(rows).dom().contains(k));
    lemma_overlay_entry(builtin_map(rows), overlay, k);
}

/// An overlay adds no id of its own making: after it, the registry holds
/// exactly the ids it held before and the ids of the overlay rows.
pub proof fn lemma_overlay_domain(m: Map<Seq<char>, DescriptorView>, ov: Seq<DescriptorView>, k: Seq<char>)
    ensures
        overlay_all(m, ov).dom().contains(k) <==> (m.dom().contains(k) || exists|i: int|
            0 <= i < ov.len() && (#[trigger] ov[i]).id == k),
    decreases ov.len(),
{
    if ov.len() > 0 {
        let init = ov.drop_last();
        lemma_overlay_domain(m, init, k);
        if exists|i: int| 0 <= i < ov.len() && (#[trigger] ov[i]).id == k {
            let i = choose|i: int| 0 <= i < ov.len() && (#[trigger] ov[i]).id == k;
            if i < ov.len() - 1 {
                assert(init[i].id == k);
            }
        }
        if exists|i: int| 0 <= i < init.len() && (#[trigger] init[i]).id == k {
            let i = choose|i: int| 0 <= i < init.len() && (#[trigger] init[i]).id == k;
            assert(ov[i].id == k);
        }
    }
}

} // verus!
