//! Feature-IR declarations for Derived Features: the five funded Operator
//! Families, their wire labels, and the declaration-time key screening.
//!
//! A program names exactly one funded family. Unfunded families (surface
//! lookup / interpolation and the like) and control-flow keys are rejected
//! before a program is ever decoded.

use vstd::prelude::*;

use crate::types::{DeskCatalog, FieldDescriptor};
use crate::text::{
    owned, same_chars,
    chars_of, eq_lit, is_ascii_digit, key_in, lemma_norm_lower_plain, lower_char, lower_char_exec,
    string_from, trim_chars, trimmed, trimmed_of, views,
};

verus! {

/// Provenance source stamp for Derived Features (not `rust_pipeline`).
pub const FEATURE_IR_SOURCE: &'static str = "feature_ir";

/// Rust module path recorded on Derived Feature provenance.
pub const FEATURE_IR_MODULE: &'static str = "catalog::feature_ir";

/// Math-tier stamp: declared Feature-IR, not Tier-1 reviewed detector math.
pub const DERIVED_FEATURE_MATH_TIER: &'static str = "derived_feature_ir";

/// Gate for adding a sixth Operator Family.
pub const NEW_OPERATOR_FAMILY_GATE: &'static str = "registry_change_proposal";

/// Maximum historical-baseline lookback (keeps scans bounded).
pub const MAX_BASELINE_LOOKBACK_DAYS: u32 = 60;

/// Shared live/historical Feature-IR evaluation cap (~8 hours of 1 Hz NQ+ES).
pub const FEATURE_IR_EVAL_MAX_FRAMES: usize = 57600;

/// Wire labels for the five funded families (camelCase IPC).
pub const FUNDED_OPERATOR_FAMILY_LABELS: [&'static str; 5] = [
    "crossSymbolReferences",
    "sessionDistributionPercentiles",
    "dwellTimeSincePredicate",
    "eventSequences",
    "historicalBaselines",
];

/// Glossary names — used exactly in docs and errors.
pub const FUNDED_OPERATOR_FAMILY_GLOSSARY: [&'static str; 5] = [
    "Cross-symbol references",
    "Session-distribution percentiles",
    "Dwell / time-since-predicate",
    "Event sequences",
    "Historical baselines",
];

/// Keys that would smuggle unfunded / Turing-complete control flow into a program.
pub const REJECTED_CONTROL_FLOW_KEYS: [&'static str; 11] = [
    "loop",
    "while",
    "for",
    "recurse",
    "recursion",
    "map",
    "reduce",
    "fold",
    "goto",
    "call",
    "apply",
];

/// Explicitly unfunded families (surface interpolation stays unfunded).
pub const UNFUNDED_FAMILY_TOKENS: [&'static str; 9] = [
    "surfacelookup",
    "surfaceinterpolation",
    "interpolation",
    "surface",
    "heatmap",
    "spline",
    "vendorstudy",
    "codegen",
    "emitter",
];

/// Funded Operator Families (exactly five).
#[derive(Debug, Clone, Copy, PartialEq, Eq, Hash, Structural)]
pub enum OperatorFamily {
    CrossSymbolReferences,
    SessionDistributionPercentiles,
    DwellTimeSincePredicate,
    EventSequences,
    HistoricalBaselines,
}

pub open spec fn family_wire_label(f: OperatorFamily) -> Seq<char> {
    match f {
        OperatorFamily::CrossSymbolReferences => "crossSymbolReferences"@,
        OperatorFamily::SessionDistributionPercentiles => "sessionDistributionPercentiles"@,
        OperatorFamily::DwellTimeSincePredicate => "dwellTimeSincePredicate"@,
        OperatorFamily::EventSequences => "eventSequences"@,
        OperatorFamily::HistoricalBaselines => "historicalBaselines"@,
    }
}

pub open spec fn family_glossary(f: OperatorFamily) -> Seq<char> {
    match f {
        OperatorFamily::CrossSymbolReferences => "Cross-symbol references"@,
        OperatorFamily::SessionDistributionPercentiles => "Session-distribution percentiles"@,
        OperatorFamily::DwellTimeSincePredicate => "Dwell / time-since-predicate"@,
        OperatorFamily::EventSequences => "Event sequences"@,
        OperatorFamily::HistoricalBaselines => "Historical baselines"@,
    }
}

/// Exact top-level program keys accepted for each family.
pub open spec fn family_keys(f: OperatorFamily) -> Seq<Seq<char>> {
    match f {
        OperatorFamily::CrossSymbolReferences => seq!["family"@, "symbol"@, "field"@],
        OperatorFamily::SessionDistributionPercentiles => seq![
            "family"@,
            "field"@,
            "symbol"@,
            "percentile"@,
            "output"@,
        ],
        OperatorFamily::DwellTimeSincePredicate => seq!["family"@, "predicate"@, "mode"@],
        OperatorFamily::EventSequences => seq!["family"@, "first"@, "then"@, "withinMs"@],
        OperatorFamily::HistoricalBaselines => seq![
            "family"@,
            "field"@,
            "symbol"@,
            "lookbackDays"@,
            "sameTimeOfDay"@,
            "aggregator"@,
            "percentile"@,
        ],
    }
}

pub open spec fn is_ascii_alnum(c: char) -> bool {
    is_ascii_digit(c) || ('a' <= c && c <= 'z') || ('A' <= c && c <= 'Z')
}

/// The ASCII letters and digits of `s`, lower-cased, in order.
pub open spec fn alnum_lower(s: Seq<char>) -> Seq<char>
    decreases s.len(),
{
    if s.len() == 0 {
        s
    } else if is_ascii_alnum(s.last()) {
        alnum_lower(s.drop_last()).push(lower_char(s.last()))
    } else {
        alnum_lower(s.drop_last())
    }
}

/// Compact token used to match family names and program keys:
/// trimmed, ASCII letters and digits only, lower-cased.
pub open spec fn compact_token(s: Seq<char>) -> Seq<char> {
    alnum_lower(trimmed(s))
}

/// The funded family a compact token names, if any.
pub open spec fn family_from_compact(k: Seq<char>) -> Option<OperatorFamily> {
    if k == "crosssymbolreferences"@ || k == "crosssymbol"@ || k == "crosssymbolreference"@ {
        Some(OperatorFamily::CrossSymbolReferences)
    } else if k == "sessiondistributionpercentiles"@ || k == "sessionpercentiles"@ || k
        == "sessiondistributionpercentile"@ {
        Some(OperatorFamily::SessionDistributionPercentiles)
    } else if k == "dwelltimesincepredicate"@ || k == "dwell"@ || k == "timesincepredicate"@ || k
        == "timesince"@ || k == "dwelltimesince"@ {
        Some(OperatorFamily::DwellTimeSincePredicate)
    } else if k == "eventsequences"@ || k == "eventsequence"@ || k == "athenbwithint"@ {
        Some(OperatorFamily::EventSequences)
    } else if k == "historicalbaselines"@ || k == "historicalbaseline"@ {
        Some(OperatorFamily::HistoricalBaselines)
    } else {
        None
    }
}

impl OperatorFamily {
    /// CamelCase wire label.
    pub fn as_str(self) -> (r: &'static str)
        ensures
            r@ == family_wire_label(self),
    {
        match self {
            OperatorFamily::CrossSymbolReferences => "crossSymbolReferences",
            OperatorFamily::SessionDistributionPercentiles => "sessionDistributionPercentiles",
            OperatorFamily::DwellTimeSincePredicate => "dwellTimeSincePredicate",
            OperatorFamily::EventSequences => "eventSequences",
            OperatorFamily::HistoricalBaselines => "historicalBaselines",
        }
    }

    /// Exact top-level JSON keys accepted for this family (`family` plus variant fields).
    pub fn allowed_program_keys(self) -> (r: Vec<&'static str>)
        ensures
            views(r@) == family_keys(self),
    {
        let r = match self {
            OperatorFamily::CrossSymbolReferences => vec!["family", "symbol", "field"],
            OperatorFamily::SessionDistributionPercentiles => vec![
                "family",
                "field",
                "symbol",
                "percentile",
                "output",
            ],
            OperatorFamily::DwellTimeSincePredicate => vec!["family", "predicate", "mode"],
            OperatorFamily::EventSequences => vec!["family", "first", "then", "withinMs"],
            OperatorFamily::HistoricalBaselines => vec![
                "family",
                "field",
                "symbol",
                "lookbackDays",
                "sameTimeOfDay",
                "aggregator",
                "percentile",
            ],
        };
        assert(views(r@) =~= family_keys(self));
        r
    }

    /// Glossary name.
    pub fn glossary_name(self) -> (r: &'static str)
        ensures
            r@ == family_glossary(self),
    {
        match self {
            OperatorFamily::CrossSymbolReferences => "Cross-symbol references",
            OperatorFamily::SessionDistributionPercentiles => "Session-distribution percentiles",
            OperatorFamily::DwellTimeSincePredicate => "Dwell / time-since-predicate",
            OperatorFamily::EventSequences => "Event sequences",
            OperatorFamily::HistoricalBaselines => "Historical baselines",
        }
    }

    /// Parse a wire label or glossary name. Unknown values are not coerced.
    pub fn parse(raw: &str) -> (r: Option<OperatorFamily>)
        ensures
            r == family_from_compact(compact_token(raw@)),
    {
        let k = compact_family_chars(raw);
        if eq_lit(&k, "crosssymbolreferences") || eq_lit(&k, "crosssymbol") || eq_lit(
            &k,
            "crosssymbolreference",
        ) {
            Some(OperatorFamily::CrossSymbolReferences)
        } else if eq_lit(&k, "sessiondistributionpercentiles") || eq_lit(&k, "sessionpercentiles")
            || eq_lit(&k, "sessiondistributionpercentile") {
            Some(OperatorFamily::SessionDistributionPercentiles)
        } else if eq_lit(&k, "dwelltimesincepredicate") || eq_lit(&k, "dwell") || eq_lit(
            &k,
            "timesincepredicate",
        ) || eq_lit(&k, "timesince") || eq_lit(&k, "dwelltimesince") {
            Some(OperatorFamily::DwellTimeSincePredicate)
        } else if eq_lit(&k, "eventsequences") || eq_lit(&k, "eventsequence") || eq_lit(
            &k,
            "athenbwithint",
        ) {
            Some(OperatorFamily::EventSequences)
        } else if eq_lit(&k, "historicalbaselines") || eq_lit(&k, "historicalbaseline") {
            Some(OperatorFamily::HistoricalBaselines)
        } else {
            None
        }
    }
}

fn compact_family_chars(raw: &str) -> (out: Vec<char>)
    ensures
        out@ == compact_token(raw@),
{
    let t = trimmed_of(raw);
    let n = t.len();
    let mut out: Vec<char> = Vec::new();
    let mut i: usize = 0;
    while i < n
        invariant
            n == t.len(),
            i <= n,
            out@ == alnum_lower(t@.take(i as int)),
        decreases n - i,
    {
        let c = t[i];
        assert(t@.take(i + 1).drop_last() =~= t@.take(i as int));
        if (c >= '0' && c <= '9') || (c >= 'a' && c <= 'z') || (c >= 'A' && c <= 'Z') {
            out.push(lower_char_exec(c));
        }
        i = i + 1;
    }
    assert(t@.take(n as int) =~= t@);
    out
}

/// Compact token: trimmed, ASCII letters and digits only, lower-cased.
pub fn compact_family_token(raw: &str) -> (out: String)
    ensures
        out@ == compact_token(raw@),
{
    let k = compact_family_chars(raw);
    string_from(&k)
}

/// The trimmed raw name when its compact token is an unfunded family token.
pub fn classify_unfunded(raw: &str) -> (r: Option<String>)
    ensures
        views(UNFUNDED_FAMILY_TOKENS@).contains(compact_token(raw@)) ==> r is Some && r->0@
            == trimmed(raw@),
        !views(UNFUNDED_FAMILY_TOKENS@).contains(compact_token(raw@)) ==> r is None,
{
    let k = compact_family_chars(raw);
    if key_in(&k, &UNFUNDED_FAMILY_TOKENS) {
        let t = trimmed_of(raw);
        Some(string_from(&t))
    } else {
        None
    }
}

/// Percentile program output: rank of current value, or a distribution value.
#[derive(Debug, Clone, Copy, PartialEq, Eq, Structural)]
pub enum PercentileOutput {
    Rank,
    Value,
}

/// Dwell mode: continuous true duration, or time since last true.
#[derive(Debug, Clone, Copy, PartialEq, Eq, Structural)]
pub enum DwellMode {
    Dwell,
    TimeSince,
}

/// Historical baseline aggregator.
#[derive(Debug, Clone, Copy, PartialEq, Eq, Structural)]
pub enum BaselineAggregator {
    Mean,
    Median,
    Percentile,
}

/// Comparison operator for a field predicate.
#[derive(Debug, Clone, Copy, PartialEq, Eq, Structural)]
pub enum PredicateOp {
    Gt,
    Gte,
    Lt,
    Lte,
    Eq,
    Neq,
}

/// Event selector for sequence programs.
#[derive(Debug, Clone, PartialEq, Eq)]
pub struct EventSelector {
    pub event_type: String,
    pub symbol: Option<String>,
}

/// Evaluation path label. Live-shadow and historical share one evaluator.
#[derive(Debug, Clone, Copy, PartialEq, Eq, Structural)]
pub enum FeatureIrEvalPath {
    LiveShadow,
    Historical,
}

/// Feature-IR declaration / evaluation errors.
#[derive(Debug, Clone, PartialEq, Eq)]
pub enum FeatureIrError {
    MissingFamily,
    UnfundedOperatorFamily(String),
    ControlFlowRejected(String),
    UnknownCatalogField(String),
    InvalidProgram(String),
    InvalidSymbol,
    InvalidEventSequence,
    InvalidLookback,
    InvalidPercentile,
    InvalidPredicate,
    UnknownProgramKey(String),
    UnusedPercentileKey,
}

/// Default for `sameTimeOfDay`.
pub fn default_true() -> (r: bool)
    ensures
        r,
{
    true
}

/// Cross-symbol and per-symbol programs accept only the NQ and ES roots.
pub fn validate_root_symbol(symbol: &str) -> (r: Result<(), FeatureIrError>)
    ensures
        r is Ok <==> (trimmed(symbol@) == "NQ"@ || trimmed(symbol@) == "ES"@),
        r is Err ==> r == Err::<(), FeatureIrError>(FeatureIrError::InvalidSymbol),
{
    let t = trimmed_of(symbol);
    if eq_lit(&t, "NQ") || eq_lit(&t, "ES") {
        Ok(())
    } else {
        Err(FeatureIrError::InvalidSymbol)
    }
}

} // verus!

verus! {

/// A program key whose compact token is a control-flow word.
pub open spec fn is_control_flow_key(k: Seq<char>) -> bool {
    views(REJECTED_CONTROL_FLOW_KEYS@).contains(compact_token(k))
}

/// A program key or family name whose compact token is an unfunded family.
pub open spec fn is_unfunded_token(k: Seq<char>) -> bool {
    views(UNFUNDED_FAMILY_TOKENS@).contains(compact_token(k))
}

pub open spec fn is_flagged_key(k: Seq<char>) -> bool {
    is_control_flow_key(k) || is_unfunded_token(k)
}

/// Index of the first flagged key at or after `i` (`keys.len()` when none).
pub open spec fn first_flagged_from(keys: Seq<Seq<char>>, i: int) -> int
    decreases keys.len() - i,
{
    if i >= keys.len() || i < 0 {
        keys.len() as int
    } else if is_flagged_key(keys[i]) {
        i
    } else {
        first_flagged_from(keys, i + 1)
    }
}

/// Index of the first key at or after `i` that `allowed` lacks (`keys.len()` when none).
pub open spec fn first_unknown_from(keys: Seq<Seq<char>>, allowed: Seq<Seq<char>>, i: int) -> int
    decreases keys.len() - i,
{
    if i >= keys.len() || i < 0 {
        keys.len() as int
    } else if !allowed.contains(keys[i]) {
        i
    } else {
        first_unknown_from(keys, allowed, i + 1)
    }
}

/// Screen the top-level keys and `family` value of a program declaration.
///
/// In order: a control-flow or unfunded key is rejected (first such key wins);
/// a missing or blank `family` is `MissingFamily`; an unfunded or unknown family
/// name is `UnfundedOperatorFamily`; any key outside the family's exact key set is
/// `UnknownProgramKey`. Otherwise the funded family is returned.
#[verifier::loop_isolation(false)]
pub fn screen_program_keys(keys: &Vec<String>, family: Option<&str>) -> (r: Result<
    OperatorFamily,
    FeatureIrError,
>)
    ensures
        ({
            let ks = keys@.map_values(|s: String| s@);
            let f = first_flagged_from(ks, 0);
            if f < ks.len() {
                if is_control_flow_key(ks[f]) {
                    r matches Err(FeatureIrError::ControlFlowRejected(s)) && s@ == ks[f]
                } else {
                    r matches Err(FeatureIrError::UnfundedOperatorFamily(s)) && s@ == ks[f]
                }
            } else if family is None || trimmed(family->0@).len() == 0 {
                r matches Err(FeatureIrError::MissingFamily)
            } else {
                let t = trimmed(family->0@);
                if is_unfunded_token(t) {
                    r matches Err(FeatureIrError::UnfundedOperatorFamily(s)) && s@ == trimmed(t)
                } else if family_from_compact(compact_token(t)) is None {
                    r matches Err(FeatureIrError::UnfundedOperatorFamily(s)) && s@ == t
                } else {
                    let fam = family_from_compact(compact_token(t))->0;
                    let u = first_unknown_from(ks, family_keys(fam), 0);
                    if u < ks.len() {
                        r matches Err(FeatureIrError::UnknownProgramKey(s)) && s@ == ks[u]
                    } else {
                        r == Ok::<OperatorFamily, FeatureIrError>(fam)
                    }
                }
            }
        }),
{
    let ghost ks = keys@.map_values(|s: String| s@);
    let n = keys.len();
    let mut i: usize = 0;
    while i < n
        invariant
            n == keys.len(),
            ks == keys@.map_values(|s: String| s@),
            i <= n,
            first_flagged_from(ks, 0) == first_flagged_from(ks, i as int),
        decreases n - i,
    {
        let k = compact_family_chars(keys[i].as_str());
        assert(ks[i as int] == keys@[i as int]@);
        if key_in(&k, &REJECTED_CONTROL_FLOW_KEYS) {
            return Err(FeatureIrError::ControlFlowRejected(keys[i].clone()));
        }
        if key_in(&k, &UNFUNDED_FAMILY_TOKENS) {
            return Err(FeatureIrError::UnfundedOperatorFamily(keys[i].clone()));
        }
        i = i + 1;
    }
    let raw = match family {
        None => {
            return Err(FeatureIrError::MissingFamily);
        },
        Some(raw) => raw,
    };
    let t = trimmed_of(raw);
    if t.len() == 0 {
        return Err(FeatureIrError::MissingFamily);
    }
    let ts = string_from(&t);
    if let Some(unfunded) = classify_unfunded(ts.as_str()) {
        return Err(FeatureIrError::UnfundedOperatorFamily(unfunded));
    }
    let fam = match OperatorFamily::parse(ts.as_str()) {
        None => {
            return Err(FeatureIrError::UnfundedOperatorFamily(ts));
        },
        Some(f) => f,
    };
    let allowed = fam.allowed_program_keys();
    let mut j: usize = 0;
    while j < n
        invariant
            n == keys.len(),
            ks == keys@.map_values(|s: String| s@),
            views(allowed@) == family_keys(fam),
            j <= n,
            first_unknown_from(ks, family_keys(fam), 0) == first_unknown_from(
                ks,
                family_keys(fam),
                j as int,
            ),
        decreases n - j,
    {
        let k = chars_of(keys[j].as_str());
        assert(ks[j as int] == keys@[j as int]@);
        if !key_in(&k, allowed.as_slice()) {
            return Err(FeatureIrError::UnknownProgramKey(keys[j].clone()));
        }
        j = j + 1;
    }
    Ok(fam)
}

/// What declaration-time validation reads of a Feature-IR program.
///
/// Numeric parameters are carried as the outcome of their range checks:
/// `percentile_ok` says the effective percentile (the given one, else 50) is
/// finite and within `0..=100`; `window_ok` says the sequence window is
/// finite, positive and at most one day.
#[derive(Debug, Clone, PartialEq, Eq)]
pub enum ProgramShape {
    CrossSymbolReferences { symbol: String, field: String },
    SessionDistributionPercentiles {
        field: String,
        symbol: Option<String>,
        percentile_given: bool,
        percentile_ok: bool,
        output: PercentileOutput,
    },
    DwellTimeSincePredicate { field: String, symbol: Option<String>, op: PredicateOp, mode: DwellMode },
    EventSequences { first: EventSelector, then: EventSelector, window_ok: bool },
    HistoricalBaselines {
        field: String,
        symbol: Option<String>,
        lookback_days: u32,
        same_time_of_day: bool,
        aggregator: BaselineAggregator,
        percentile_given: bool,
        percentile_ok: bool,
    },
}

/// Why a program shape fails validation.
pub enum ShapeFault {
    InvalidSymbol,
    UnknownField(Seq<char>),
    UnusedPercentileKey,
    InvalidPercentile,
    InvalidPredicate,
    InvalidEventSequence,
    InvalidLookback,
}

/// The error value that reports `f`.
pub open spec fn reports_fault(e: FeatureIrError, f: ShapeFault) -> bool {
    match f {
        ShapeFault::InvalidSymbol => e == FeatureIrError::InvalidSymbol,
        ShapeFault::UnknownField(id) => e matches FeatureIrError::UnknownCatalogField(s) && s@ == id,
        ShapeFault::UnusedPercentileKey => e == FeatureIrError::UnusedPercentileKey,
        ShapeFault::InvalidPercentile => e == FeatureIrError::InvalidPercentile,
        ShapeFault::InvalidPredicate => e == FeatureIrError::InvalidPredicate,
        ShapeFault::InvalidEventSequence => e == FeatureIrError::InvalidEventSequence,
        ShapeFault::InvalidLookback => e == FeatureIrError::InvalidLookback,
    }
}

/// A root symbol programs may name: NQ or ES (trimmed).
pub open spec fn root_symbol_ok(s: Seq<char>) -> bool {
    trimmed(s) == "NQ"@ || trimmed(s) == "ES"@
}

pub open spec fn opt_root_ok(s: Option<String>) -> bool {
    match s {
        Some(x) => root_symbol_ok(x@),
        None => true,
    }
}

/// Some catalog field has id or name `f`.
pub open spec fn field_known(fields: Seq<FieldDescriptor>, f: Seq<char>) -> bool {
    exists|i: int| 0 <= i < fields.len() && ((#[trigger] fields[i]).id@ == f || fields[i].name@ == f)
}

/// The first check a program shape fails against the catalog fields, if any.
pub open spec fn shape_fault(p: ProgramShape, fields: Seq<FieldDescriptor>) -> Option<ShapeFault> {
    match p {
        ProgramShape::CrossSymbolReferences { symbol, field } => if !root_symbol_ok(symbol@) {
            Some(ShapeFault::InvalidSymbol)
        } else if !field_known(fields, field@) {
            Some(ShapeFault::UnknownField(field@))
        } else {
            None
        },
        ProgramShape::SessionDistributionPercentiles { field, symbol, percentile_given, percentile_ok, output } => {
            if !opt_root_ok(symbol) {
                Some(ShapeFault::InvalidSymbol)
            } else if !field_known(fields, field@) {
                Some(ShapeFault::UnknownField(field@))
            } else if percentile_given && output != PercentileOutput::Value {
                Some(ShapeFault::UnusedPercentileKey)
            } else if output == PercentileOutput::Value && !percentile_ok {
                Some(ShapeFault::InvalidPercentile)
            } else {
                None
            }
        },
        ProgramShape::DwellTimeSincePredicate { field, symbol, .. } => if !opt_root_ok(symbol) {
            Some(ShapeFault::InvalidSymbol)
        } else if trimmed(field@).len() == 0 {
            Some(ShapeFault::InvalidPredicate)
        } else if !field_known(fields, field@) {
            Some(ShapeFault::UnknownField(field@))
        } else {
            None
        },
        ProgramShape::EventSequences { first, then, window_ok } => if trimmed(first.event_type@).len()
            == 0 || trimmed(then.event_type@).len() == 0 {
            Some(ShapeFault::InvalidEventSequence)
        } else if !opt_root_ok(first.symbol) || !opt_root_ok(then.symbol) {
            Some(ShapeFault::InvalidSymbol)
        } else if !window_ok {
            Some(ShapeFault::InvalidEventSequence)
        } else {
            None
        },
        ProgramShape::HistoricalBaselines {
            field,
            symbol,
            lookback_days,
            aggregator,
            percentile_given,
            percentile_ok,
            ..
        } => if !opt_root_ok(symbol) {
            Some(ShapeFault::InvalidSymbol)
        } else if !field_known(fields, field@) {
            Some(ShapeFault::UnknownField(field@))
        } else if lookback_days == 0 || lookback_days > MAX_BASELINE_LOOKBACK_DAYS {
            Some(ShapeFault::InvalidLookback)
        } else if percentile_given && aggregator != BaselineAggregator::Percentile {
            Some(ShapeFault::UnusedPercentileKey)
        } else if aggregator == BaselineAggregator::Percentile && !percentile_ok {
            Some(ShapeFault::InvalidPercentile)
        } else {
            None
        },
    }
}

/// The catalog field a program names: the first field whose id or name is
/// `field_id`.
pub fn resolve_catalog_field<'a>(catalog: &'a DeskCatalog, field_id: &str) -> (r: Result<
    &'a FieldDescriptor,
    FeatureIrError,
>)
    ensures
        field_known(catalog.fields@, field_id@) <==> r is Ok,
        r matches Ok(f) ==> exists|i: int| 0 <= i < catalog.fields@.len() && *f == catalog.fields@[i]
            && (f.id@ == field_id@ || f.name@ == field_id@) && forall|j: int| 0 <= j < i ==> (
            #[trigger] catalog.fields@[j]).id@ != field_id@ && catalog.fields@[j].name@ != field_id@,
        r matches Err(e) ==> e matches FeatureIrError::UnknownCatalogField(s) && s@ == field_id@,
{
    let k = chars_of(field_id);
    let n = catalog.fields.len();
    let mut i: usize = 0;
    while i < n
        invariant
            n == catalog.fields@.len(),
            i <= n,
            k@ == field_id@,
            forall|j: int| 0 <= j < i ==> (#[trigger] catalog.fields@[j]).id@ != field_id@
                && catalog.fields@[j].name@ != field_id@,
        decreases n - i,
    {
        let f = &catalog.fields[i];
        let a = chars_of(f.id.as_str());
        let b = chars_of(f.name.as_str());
        if same_chars(&a, &k) || same_chars(&b, &k) {
            return Ok(f);
        }
        i = i + 1;
    }
    Err(FeatureIrError::UnknownCatalogField(owned(field_id)))
}

fn check_opt_symbol(symbol: &Option<String>) -> (r: Result<(), FeatureIrError>)
    ensures
        r is Ok <==> opt_root_ok(*symbol),
        r is Err ==> r == Err::<(), FeatureIrError>(FeatureIrError::InvalidSymbol),
{
    match symbol {
        Some(s) => validate_root_symbol(s.as_str()),
        None => Ok(()),
    }
}

impl ProgramShape {
    /// Operator Family of this program.
    pub fn family(&self) -> (r: OperatorFamily)
        ensures
            r == match *self {
                ProgramShape::CrossSymbolReferences { .. } => OperatorFamily::CrossSymbolReferences,
                ProgramShape::SessionDistributionPercentiles { .. } => OperatorFamily::SessionDistributionPercentiles,
                ProgramShape::DwellTimeSincePredicate { .. } => OperatorFamily::DwellTimeSincePredicate,
                ProgramShape::EventSequences { .. } => OperatorFamily::EventSequences,
                ProgramShape::HistoricalBaselines { .. } => OperatorFamily::HistoricalBaselines,
            },
    {
        match self {
            ProgramShape::CrossSymbolReferences { .. } => OperatorFamily::CrossSymbolReferences,
            ProgramShape::SessionDistributionPercentiles { .. } => OperatorFamily::SessionDistributionPercentiles,
            ProgramShape::DwellTimeSincePredicate { .. } => OperatorFamily::DwellTimeSincePredicate,
            ProgramShape::EventSequences { .. } => OperatorFamily::EventSequences,
            ProgramShape::HistoricalBaselines { .. } => OperatorFamily::HistoricalBaselines,
        }
    }

    /// Catalog field ids this program reads (event sequences read none).
    pub fn catalog_field_ids(&self) -> (r: Vec<String>)
        ensures
            r@.map_values(|s: String| s@) == program_fields(*self),
    {
        let mut ids: Vec<String> = Vec::new();
        match self {
            ProgramShape::CrossSymbolReferences { field, .. } => ids.push(owned(field.as_str())),
            ProgramShape::SessionDistributionPercentiles { field, .. } => ids.push(owned(field.as_str())),
            ProgramShape::HistoricalBaselines { field, .. } => ids.push(owned(field.as_str())),
            ProgramShape::DwellTimeSincePredicate { field, .. } => ids.push(owned(field.as_str())),
            ProgramShape::EventSequences { .. } => {},
        }
        assert(ids@.map_values(|s: String| s@) =~= program_fields(*self));
        ids
    }

    /// The two event types of an event-sequence program (none otherwise).
    pub fn sequence_event_types(&self) -> (r: Vec<String>)
        ensures
            r@.map_values(|s: String| s@) == program_events(*self),
    {
        let mut ids: Vec<String> = Vec::new();
        match self {
            ProgramShape::EventSequences { first, then, .. } => {
                ids.push(owned(first.event_type.as_str()));
                ids.push(owned(then.event_type.as_str()));
            },
            _ => {},
        }
        assert(ids@.map_values(|s: String| s@) =~= program_events(*self));
        ids
    }

    /// Declaration-time validation against the Desk Catalog (no evaluation).
    pub fn validate(&self, catalog: &DeskCatalog) -> (r: Result<(), FeatureIrError>)
        ensures
            match shape_fault(*self, catalog.fields@) {
                None => r is Ok,
                Some(f) => r matches Err(e) && reports_fault(e, f),
            },
    {
        match self {
            ProgramShape::CrossSymbolReferences { symbol, field } => {
                validate_root_symbol(symbol.as_str())?;
                resolve_catalog_field(catalog, field.as_str())?;
            },
            ProgramShape::SessionDistributionPercentiles {
                field,
                symbol,
                percentile_given,
                percentile_ok,
                output,
            } => {
                check_opt_symbol(symbol)?;
                resolve_catalog_field(catalog, field.as_str())?;
                let is_value = match output {
                    PercentileOutput::Value => true,
                    PercentileOutput::Rank => false,
                };
                if *percentile_given && !is_value {
                    return Err(FeatureIrError::UnusedPercentileKey);
                }
                if is_value && !*percentile_ok {
                    return Err(FeatureIrError::InvalidPercentile);
                }
            },
            ProgramShape::DwellTimeSincePredicate { field, symbol, .. } => {
                check_opt_symbol(symbol)?;
                let t = trimmed_of(field.as_str());
                if t.len() == 0 {
                    return Err(FeatureIrError::InvalidPredicate);
                }
                resolve_catalog_field(catalog, field.as_str())?;
            },
            ProgramShape::EventSequences { first, then, window_ok } => {
                let a = trimmed_of(first.event_type.as_str());
                let b = trimmed_of(then.event_type.as_str());
                if a.len() == 0 || b.len() == 0 {
                    return Err(FeatureIrError::InvalidEventSequence);
                }
                check_opt_symbol(&first.symbol)?;
                check_opt_symbol(&then.symbol)?;
                if !*window_ok {
                    return Err(FeatureIrError::InvalidEventSequence);
                }
            },
            ProgramShape::HistoricalBaselines {
                field,
                symbol,
                lookback_days,
                aggregator,
                percentile_given,
                percentile_ok,
                ..
            } => {
                check_opt_symbol(symbol)?;
                resolve_catalog_field(catalog, field.as_str())?;
                if *lookback_days == 0 || *lookback_days > MAX_BASELINE_LOOKBACK_DAYS {
                    return Err(FeatureIrError::InvalidLookback);
                }
                let is_pct = match aggregator {
                    BaselineAggregator::Percentile => true,
                    _ => false,
                };
                if *percentile_given && !is_pct {
                    return Err(FeatureIrError::UnusedPercentileKey);
                }
                if is_pct && !*percentile_ok {
                    return Err(FeatureIrError::InvalidPercentile);
                }
            },
        }
        Ok(())
    }
}

/// Catalog field ids a program reads.
pub open spec fn program_fields(p: ProgramShape) -> Seq<Seq<char>> {
    match p {
        ProgramShape::CrossSymbolReferences { field, .. } => seq![field@],
        ProgramShape::SessionDistributionPercentiles { field, .. } => seq![field@],
        ProgramShape::HistoricalBaselines { field, .. } => seq![field@],
        ProgramShape::DwellTimeSincePredicate { field, .. } => seq![field@],
        ProgramShape::EventSequences { .. } => seq![],
    }
}

/// Event types an event-sequence program names, first then second.
pub open spec fn program_events(p: ProgramShape) -> Seq<Seq<char>> {
    match p {
        ProgramShape::EventSequences { first, then, .. } => seq![first.event_type@, then.event_type@],
        _ => seq![],
    }
}

} // verus!

verus! {

/// The compact token of a name with no surrounding white space.
proof fn lemma_compact_of_plain(s: Seq<char>)
    requires
        s.len() > 0 ==> !crate::text::is_ws(s[0]) && !crate::text::is_ws(s.last()),
    ensures
        compact_token(s) == alnum_lower(s),
{
    crate::text::lemma_trimmed_plain(s);
}

#[verifier::rlimit(50)]
proof fn lemma_cross_symbol_references_names()
    ensures
        family_from_compact(compact_token(family_wire_label(OperatorFamily::CrossSymbolReferences)))
            == Some(OperatorFamily::CrossSymbolReferences),
        family_from_compact(compact_token(family_glossary(OperatorFamily::CrossSymbolReferences)))
            == Some(OperatorFamily::CrossSymbolReferences),
{
    reveal_strlit("crossSymbolReferences");
    reveal_strlit("Cross-symbol references");
    reveal_strlit("crosssymbolreferences");
    reveal_strlit("crosssymbol");
    reveal_strlit("crosssymbolreference");
    reveal_strlit("sessiondistributionpercentiles");
    reveal_strlit("sessionpercentiles");
    reveal_strlit("sessiondistributionpercentile");
    reveal_strlit("dwelltimesincepredicate");
    reveal_strlit("dwell");
    reveal_strlit("timesincepredicate");
    reveal_strlit("timesince");
    reveal_strlit("dwelltimesince");
    reveal_strlit("eventsequences");
    reveal_strlit("eventsequence");
    reveal_strlit("athenbwithint");
    reveal_strlit("historicalbaselines");
    reveal_strlit("historicalbaseline");
    lemma_compact_of_plain("crossSymbolReferences"@);
    lemma_compact_of_plain("Cross-symbol references"@);
    reveal_with_fuel(alnum_lower, 33);
    assert(alnum_lower("crossSymbolReferences"@) =~= "crosssymbolreferences"@);
    assert(alnum_lower("Cross-symbol references"@) =~= "crosssymbolreferences"@);
}

#[verifier::rlimit(50)]
proof fn lemma_session_distribution_percentiles_names()
    ensures
        family_from_compact(compact_token(family_wire_label(OperatorFamily::SessionDistributionPercentiles)))
            == Some(OperatorFamily::SessionDistributionPercentiles),
        family_from_compact(compact_token(family_glossary(OperatorFamily::SessionDistributionPercentiles)))
            == Some(OperatorFamily::SessionDistributionPercentiles),
{
    reveal_strlit("sessionDistributionPercentiles");
    reveal_strlit("Session-distribution percentiles");
    reveal_strlit("crosssymbolreferences");
    reveal_strlit("crosssymbol");
    reveal_strlit("crosssymbolreference");
    reveal_strlit("sessiondistributionpercentiles");
    reveal_strlit("sessionpercentiles");
    reveal_strlit("sessiondistributionpercentile");
    reveal_strlit("dwelltimesincepredicate");
    reveal_strlit("dwell");
    reveal_strlit("timesincepredicate");
    reveal_strlit("timesince");
    reveal_strlit("dwelltimesince");
    reveal_strlit("eventsequences");
    reveal_strlit("eventsequence");
    reveal_strlit("athenbwithint");
    reveal_strlit("historicalbaselines");
    reveal_strlit("historicalbaseline");
    lemma_compact_of_plain("sessionDistributionPercentiles"@);
    lemma_compact_of_plain("Session-distribution percentiles"@);
    reveal_with_fuel(alnum_lower, 33);
    assert(alnum_lower("sessionDistributionPercentiles"@) =~= "sessiondistributionpercentiles"@);
    assert(alnum_lower("Session-distribution percentiles"@) =~= "sessiondistributionpercentiles"@);
}

#[verifier::rlimit(50)]
proof fn lemma_dwell_time_since_predicate_names()
    ensures
        family_from_compact(compact_token(family_wire_label(OperatorFamily::DwellTimeSincePredicate)))
            == Some(OperatorFamily::DwellTimeSincePredicate),
        family_from_compact(compact_token(family_glossary(OperatorFamily::DwellTimeSincePredicate)))
            == Some(OperatorFamily::DwellTimeSincePredicate),
{
    reveal_strlit("dwellTimeSincePredicate");
    reveal_strlit("Dwell / time-since-predicate");
    reveal_strlit("crosssymbolreferences");
    reveal_strlit("crosssymbol");
    reveal_strlit("crosssymbolreference");
    reveal_strlit("sessiondistributionpercentiles");
    reveal_strlit("sessionpercentiles");
    reveal_strlit("sessiondistributionpercentile");
    reveal_strlit("dwelltimesincepredicate");
    reveal_strlit("dwell");
    reveal_strlit("timesincepredicate");
    reveal_strlit("timesince");
    reveal_strlit("dwelltimesince");
    reveal_strlit("eventsequences");
    reveal_strlit("eventsequence");
    reveal_strlit("athenbwithint");
    reveal_strlit("historicalbaselines");
    reveal_strlit("historicalbaseline");
    lemma_compact_of_plain("dwellTimeSincePredicate"@);
    lemma_compact_of_plain("Dwell / time-since-predicate"@);
    reveal_with_fuel(alnum_lower, 33);
    assert(alnum_lower("dwellTimeSincePredicate"@) =~= "dwelltimesincepredicate"@);
    assert(alnum_lower("Dwell / time-since-predicate"@) =~= "dwelltimesincepredicate"@);
}

#[verifier::rlimit(50)]
proof fn lemma_event_sequences_names()
    ensures
        family_from_compact(compact_token(family_wire_label(OperatorFamily::EventSequences)))
            == Some(OperatorFamily::EventSequences),
        family_from_compact(compact_token(family_glossary(OperatorFamily::EventSequences)))
            == Some(OperatorFamily::EventSequences),
{
    reveal_strlit("eventSequences");
    reveal_strlit("Event sequences");
    reveal_strlit("crosssymbolreferences");
    reveal_strlit("crosssymbol");
    reveal_strlit("crosssymbolreference");
    reveal_strlit("sessiondistributionpercentiles");
    reveal_strlit("sessionpercentiles");
    reveal_strlit("sessiondistributionpercentile");
    reveal_strlit("dwelltimesincepredicate");
    reveal_strlit("dwell");
    reveal_strlit("timesincepredicate");
    reveal_strlit("timesince");
    reveal_strlit("dwelltimesince");
    reveal_strlit("eventsequences");
    reveal_strlit("eventsequence");
    reveal_strlit("athenbwithint");
    reveal_strlit("historicalbaselines");
    reveal_strlit("historicalbaseline");
    lemma_compact_of_plain("eventSequences"@);
    lemma_compact_of_plain("Event sequences"@);
    reveal_with_fuel(alnum_lower, 33);
    assert(alnum_lower("eventSequences"@) =~= "eventsequences"@);
    assert(alnum_lower("Event sequences"@) =~= "eventsequences"@);
    assert("eventsequences"@[0] != "dwelltimesince"@[0]);
}

#[verifier::rlimit(50)]
proof fn lemma_historical_baselines_names()
    ensures
        family_from_compact(compact_token(family_wire_label(OperatorFamily::HistoricalBaselines)))
            == Some(OperatorFamily::HistoricalBaselines),
        family_from_compact(compact_token(family_glossary(OperatorFamily::HistoricalBaselines)))
            == Some(OperatorFamily::HistoricalBaselines),
{
    reveal_strlit("historicalBaselines");
    reveal_strlit("Historical baselines");
    reveal_strlit("crosssymbolreferences");
    reveal_strlit("crosssymbol");
    reveal_strlit("crosssymbolreference");
    reveal_strlit("sessiondistributionpercentiles");
    reveal_strlit("sessionpercentiles");
    reveal_strlit("sessiondistributionpercentile");
    reveal_strlit("dwelltimesincepredicate");
    reveal_strlit("dwell");
    reveal_strlit("timesincepredicate");
    reveal_strlit("timesince");
    reveal_strlit("dwelltimesince");
    reveal_strlit("eventsequences");
    reveal_strlit("eventsequence");
    reveal_strlit("athenbwithint");
    reveal_strlit("historicalbaselines");
    reveal_strlit("historicalbaseline");
    lemma_compact_of_plain("historicalBaselines"@);
    lemma_compact_of_plain("Historical baselines"@);
    reveal_with_fuel(alnum_lower, 33);
    assert(alnum_lower("historicalBaselines"@) =~= "historicalbaselines"@);
    assert(alnum_lower("Historical baselines"@) =~= "historicalbaselines"@);
}

/// Every funded family's wire label and its glossary name both parse back to
/// that family.
pub proof fn lemma_family_names_parse_back(f: OperatorFamily)
    ensures
        family_from_compact(compact_token(family_wire_label(f))) == Some(f),
        family_from_compact(compact_token(family_glossary(f))) == Some(f),
{
    match f {
        OperatorFamily::CrossSymbolReferences => lemma_cross_symbol_references_names(),
        OperatorFamily::SessionDistributionPercentiles => lemma_session_distribution_percentiles_names(),
        OperatorFamily::DwellTimeSincePredicate => lemma_dwell_time_since_predicate_names(),
        OperatorFamily::EventSequences => lemma_event_sequences_names(),
        OperatorFamily::HistoricalBaselines => lemma_historical_baselines_names(),
    }
}

/// A program that validates reads only catalog fields: every field it reads
/// is the id or the name of some field of the catalog, and every root symbol
/// it names is NQ or ES.
pub proof fn lemma_valid_program_reads_catalog_fields(p: ProgramShape, fields: Seq<FieldDescriptor>)
    requires
        shape_fault(p, fields) is None,
    ensures
        forall|j: int| #![trigger program_fields(p)[j]] 0 <= j < program_fields(p).len() ==> exists|i: int|
            0 <= i < fields.len() && ((#[trigger] fields[i]).id@ == program_fields(p)[j] || fields[i].name@
                == program_fields(p)[j]),
        p matches ProgramShape::CrossSymbolReferences { symbol, .. } ==> trimmed(symbol@) == "NQ"@
            || trimmed(symbol@) == "ES"@,
{
    assert forall|j: int| #![trigger program_fields(p)[j]] 0 <= j < program_fields(p).len() implies exists|i: int|
        0 <= i < fields.len() && ((#[trigger] fields[i]).id@ == program_fields(p)[j] || fields[i].name@
            == program_fields(p)[j]) by {
        match p {
            ProgramShape::CrossSymbolReferences { field, .. } => {
                assert(field_known(fields, field@));
            },
            ProgramShape::SessionDistributionPercentiles { field, .. } => {
                assert(field_known(fields, field@));
            },
            ProgramShape::DwellTimeSincePredicate { field, .. } => {
                assert(field_known(fields, field@));
            },
            ProgramShape::HistoricalBaselines { field, .. } => {
                assert(field_known(fields, field@));
            },
            ProgramShape::EventSequences { .. } => {},
        }
    }
}

/// `f` is the id or the name of one of `fields`.
pub open spec fn names_a_field(fields: Seq<FieldDescriptor>, f: Seq<char>) -> bool {
    exists|i: int| 0 <= i < fields.len() && ((#[trigger] fields[i]).id@ == f || fields[i].name@ == f)
}

/// An optional root symbol is absent, or NQ or ES once trimmed.
pub open spec fn root_absent_or_known(s: Option<String>) -> bool {
    s is None || trimmed(s->0@) == "NQ"@ || trimmed(s->0@) == "ES"@
}

/// A program validates exactly when all of its checks pass: its root symbols
/// are NQ or ES, every field it reads names a catalog field, a percentile key
/// only comes with a percentile output or aggregator (and is then in range),
/// a dwell predicate names a field, an event sequence names two event types
/// within a valid window, and a baseline looks back 1 to 60 days.
pub proof fn lemma_program_valid_iff_checks_pass(p: ProgramShape, fields: Seq<FieldDescriptor>)
    ensures
        shape_fault(p, fields) is None <==> match p {
            ProgramShape::CrossSymbolReferences { symbol, field } => (trimmed(symbol@) == "NQ"@
                || trimmed(symbol@) == "ES"@) && names_a_field(fields, field@),
            ProgramShape::SessionDistributionPercentiles { field, symbol, percentile_given, percentile_ok, output } => {
                &&& root_absent_or_known(symbol)
                &&& names_a_field(fields, field@)
                &&& (percentile_given ==> output == PercentileOutput::Value)
                &&& (output == PercentileOutput::Value ==> percentile_ok)
            },
            ProgramShape::DwellTimeSincePredicate { field, symbol, .. } => {
                &&& root_absent_or_known(symbol)
                &&& trimmed(field@).len() > 0
                &&& names_a_field(fields, field@)
            },
            ProgramShape::EventSequences { first, then, window_ok } => {
                &&& trimmed(first.event_type@).len() > 0
                &&& trimmed(then.event_type@).len() > 0
                &&& root_absent_or_known(first.symbol)
                &&& root_absent_or_known(then.symbol)
                &&& window_ok
            },
            ProgramShape::HistoricalBaselines {
                field,
                symbol,
                lookback_days,
                aggregator,
                percentile_given,
                percentile_ok,
                ..
            } => {
                &&& root_absent_or_known(symbol)
                &&& names_a_field(fields, field@)
                &&& 1 <= lookback_days <= 60
                &&& (percentile_given ==> aggregator == BaselineAggregator::Percentile)
                &&& (aggregator == BaselineAggregator::Percentile ==> percentile_ok)
            },
        },
{
}

/// Every refusal names a check that really fails: an unknown field is one the
/// program reads and no catalog field is named by; a bad symbol is one the
/// program names; a percentile fault, a bad predicate, a bad sequence and a
/// bad lookback each come from the program's own values.
pub proof fn lemma_program_fault_is_genuine(p: ProgramShape, fields: Seq<FieldDescriptor>)
    ensures
        shape_fault(p, fields) matches Some(ShapeFault::UnknownField(id)) ==> program_fields(p).contains(id)
            && !names_a_field(fields, id),
        shape_fault(p, fields) matches Some(ShapeFault::InvalidSymbol) ==> match p {
            ProgramShape::CrossSymbolReferences { symbol, .. } => !(trimmed(symbol@) == "NQ"@ || trimmed(
                symbol@,
            ) == "ES"@),
            ProgramShape::SessionDistributionPercentiles { symbol, .. } => !root_absent_or_known(symbol),
            ProgramShape::DwellTimeSincePredicate { symbol, .. } => !root_absent_or_known(symbol),
            ProgramShape::EventSequences { first, then, .. } => !root_absent_or_known(first.symbol)
                || !root_absent_or_known(then.symbol),
            ProgramShape::HistoricalBaselines { symbol, .. } => !root_absent_or_known(symbol),
        },
        shape_fault(p, fields) matches Some(ShapeFault::InvalidLookback) ==> p matches ProgramShape::HistoricalBaselines {
            lookback_days,
            ..
        } && (lookback_days == 0 || lookback_days > 60),
        shape_fault(p, fields) matches Some(ShapeFault::UnusedPercentileKey) ==> match p {
            ProgramShape::SessionDistributionPercentiles { percentile_given, output, .. } => percentile_given
                && output != PercentileOutput::Value,
            ProgramShape::HistoricalBaselines { percentile_given, aggregator, .. } => percentile_given
                && aggregator != BaselineAggregator::Percentile,
            _ => false,
        },
        shape_fault(p, fields) matches Some(ShapeFault::InvalidPercentile) ==> match p {
            ProgramShape::SessionDistributionPercentiles { percentile_ok, output, .. } => !percentile_ok
                && output == PercentileOutput::Value,
            ProgramShape::HistoricalBaselines { percentile_ok, aggregator, .. } => !percentile_ok
                && aggregator == BaselineAggregator::Percentile,
            _ => false,
        },
        shape_fault(p, fields) matches Some(ShapeFault::InvalidPredicate) ==> p matches ProgramShape::DwellTimeSincePredicate {
            field,
            ..
        } && trimmed(field@).len() == 0,
        shape_fault(p, fields) matches Some(ShapeFault::InvalidEventSequence) ==> p matches ProgramShape::EventSequences {
            first,
            then,
            window_ok,
        } && (trimmed(first.event_type@).len() == 0 || trimmed(then.event_type@).len() == 0 || !window_ok),
{
    match p {
        ProgramShape::CrossSymbolReferences { field, .. } => {
            assert(program_fields(p)[0] == field@);
        },
        ProgramShape::SessionDistributionPercentiles { field, .. } => {
            assert(program_fields(p)[0] == field@);
        },
        ProgramShape::DwellTimeSincePredicate { field, .. } => {
            assert(program_fields(p)[0] == field@);
        },
        ProgramShape::HistoricalBaselines { field, .. } => {
            assert(program_fields(p)[0] == field@);
        },
        ProgramShape::EventSequences { .. } => {},
    }
}

} // verus!
