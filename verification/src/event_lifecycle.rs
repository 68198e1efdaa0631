//! Event lifecycle, severity, DOM-family taxonomy, and family keys.
//!
//! A canonical event moves `open` → `updated` → `resolved` | `expired`.
//! DOM-family event types (and their `*_invalidated` rows) require a Capsule.

use vstd::prelude::*;

use crate::text::{
    chars_of, lemma_norm_lower_plain, ends_with, ends_with_exec, eq_lit, key_in, lower, lower_chars, norm_lower,
    norm_lower_of, slice_chars, string_from, trim_chars, trimmed, views,
};

verus! {

/// Wire value when severity cannot be classified (legacy rows only).
pub const SEVERITY_UNSPECIFIED: &'static str = "unspecified";

/// Wire lifecycle labels in transition order (`open` → `updated` → `resolved`|`expired`).
pub const EVENT_LIFECYCLE_STATES: [&'static str; 4] = ["open", "updated", "resolved", "expired"];

/// DOM-family event types Capsules key off.
pub const DOM_FAMILY_EVENT_TYPES: [&'static str; 4] = [
    "stop_run",
    "iceberg_reload",
    "pull_intent",
    "book_velocity_regime_shift",
];

/// Family keys of flow-class detectors.
pub const FLOW_FAMILY_KEYS: [&'static str; 8] = [
    "absorption",
    "pinch",
    "acceleration_zone",
    "large_trade_cluster",
    "exhaustion",
    "delta_divergence",
    "leg_started",
    "leg_completed",
];

/// Family keys of structure-class detectors.
pub const STRUCTURE_FAMILY_KEYS: [&'static str; 21] = [
    "ib_extension",
    "ib_formed",
    "or_formed",
    "or5_mid_retest",
    "dnp_cross",
    "day_type_change",
    "new_session_high",
    "new_session_low",
    "poor_high",
    "poor_low",
    "excess_high",
    "excess_low",
    "ib_reentry_hit_mid",
    "ib_reentry_full_traverse",
    "level_test",
    "vah_test",
    "val_test",
    "poc_test",
    "vwap_test",
    "ib_high_test",
    "ib_low_test",
];

/// Lifecycle-stage suffixes that a family key drops (`absorption_confirmed` → `absorption`).
pub const FAMILY_STAGE_SUFFIXES: [&'static str; 6] = [
    "_detected",
    "_confirmed",
    "_invalidated",
    "_hit",
    "_created",
    "_held",
];

/// Lifecycle of one canonical event (open → updated → resolved|expired).
#[derive(Debug, Clone, Copy, PartialEq, Eq, Hash, Structural)]
pub enum EventLifecycle {
    Open,
    Updated,
    Resolved,
    Expired,
}

pub open spec fn lifecycle_label(l: EventLifecycle) -> Seq<char> {
    match l {
        EventLifecycle::Open => "open"@,
        EventLifecycle::Updated => "updated"@,
        EventLifecycle::Resolved => "resolved"@,
        EventLifecycle::Expired => "expired"@,
    }
}

/// The lifecycle a normalized label names, if any.
pub open spec fn lifecycle_from_key(k: Seq<char>) -> Option<EventLifecycle> {
    if k == "open"@ {
        Some(EventLifecycle::Open)
    } else if k == "updated"@ {
        Some(EventLifecycle::Updated)
    } else if k == "resolved"@ {
        Some(EventLifecycle::Resolved)
    } else if k == "expired"@ {
        Some(EventLifecycle::Expired)
    } else {
        None
    }
}

pub open spec fn lifecycle_is_terminal(l: EventLifecycle) -> bool {
    l == EventLifecycle::Resolved || l == EventLifecycle::Expired
}

pub open spec fn attention_label(l: EventLifecycle) -> Seq<char> {
    match l {
        EventLifecycle::Open | EventLifecycle::Updated => "active"@,
        EventLifecycle::Resolved => "resolved"@,
        EventLifecycle::Expired => "expired"@,
    }
}

impl EventLifecycle {
    /// Wire label used in `get_events` / SQLite.
    pub fn as_str(self) -> (r: &'static str)
        ensures
            r@ == lifecycle_label(self),
    {
        match self {
            EventLifecycle::Open => "open",
            EventLifecycle::Updated => "updated",
            EventLifecycle::Resolved => "resolved",
            EventLifecycle::Expired => "expired",
        }
    }

    /// Parse a stored/wire lifecycle label. Unknown values are not coerced.
    pub fn parse(raw: &str) -> (r: Option<EventLifecycle>)
        ensures
            r == lifecycle_from_key(norm_lower(raw@)),
    {
        let k = norm_lower_of(raw);
        if eq_lit(&k, "open") {
            Some(EventLifecycle::Open)
        } else if eq_lit(&k, "updated") {
            Some(EventLifecycle::Updated)
        } else if eq_lit(&k, "resolved") {
            Some(EventLifecycle::Resolved)
        } else if eq_lit(&k, "expired") {
            Some(EventLifecycle::Expired)
        } else {
            None
        }
    }

    /// Terminal states cannot transition further.
    pub fn is_terminal(self) -> (r: bool)
        ensures
            r == lifecycle_is_terminal(self),
    {
        match self {
            EventLifecycle::Resolved | EventLifecycle::Expired => true,
            _ => false,
        }
    }

    /// Attention-signal status that must not disagree with this lifecycle.
    pub fn attention_status(self) -> (r: &'static str)
        ensures
            r@ == attention_label(self),
    {
        match self {
            EventLifecycle::Open | EventLifecycle::Updated => "active",
            EventLifecycle::Resolved => "resolved",
            EventLifecycle::Expired => "expired",
        }
    }
}

/// Illegal lifecycle transition.
#[derive(Debug, Clone, Copy, PartialEq, Eq, Structural)]
pub struct LifecycleError {
    pub from: EventLifecycle,
    pub to: EventLifecycle,
}

/// The explicit transitions: a live event (open/updated) may update, resolve,
/// or expire; nothing leaves a terminal state and nothing returns to open.
pub open spec fn legal_transition(from: EventLifecycle, to: EventLifecycle) -> bool {
    (from == EventLifecycle::Open || from == EventLifecycle::Updated) && to
        != EventLifecycle::Open
}

/// Apply an explicit transition. Birth (`None` → `open`) is handled by
/// [`next_lifecycle_for_detection`], not this function.
pub fn apply_lifecycle_transition(from: EventLifecycle, to: EventLifecycle) -> (r: Result<
    EventLifecycle,
    LifecycleError,
>)
    ensures
        legal_transition(from, to) ==> r == Ok::<EventLifecycle, LifecycleError>(to),
        !legal_transition(from, to) ==> r == Err::<EventLifecycle, LifecycleError>(
            LifecycleError { from, to },
        ),
{
    let legal = match (from, to) {
        (EventLifecycle::Open, EventLifecycle::Updated)
        | (EventLifecycle::Open, EventLifecycle::Resolved)
        | (EventLifecycle::Open, EventLifecycle::Expired)
        | (EventLifecycle::Updated, EventLifecycle::Updated)
        | (EventLifecycle::Updated, EventLifecycle::Resolved)
        | (EventLifecycle::Updated, EventLifecycle::Expired) => true,
        _ => false,
    };
    if legal {
        Ok(to)
    } else {
        Err(LifecycleError { from, to })
    }
}

/// Kind of detection relative to an existing canonical event.
#[derive(Debug, Clone, Copy, PartialEq, Eq, Structural)]
pub enum DetectionKind {
    /// First observation of a condition (or a new episode after terminal).
    Fresh,
    /// Same dedup identity while the condition is still live.
    Repeat,
    /// Detector reported invalidation / completion.
    Invalidated,
    /// TTL elapsed on the MarketRouter clock.
    TimedOut,
}

/// The lifecycle a detection leads to, given the prior state.
pub open spec fn next_lifecycle(prior: Option<EventLifecycle>, kind: DetectionKind) -> EventLifecycle {
    match prior {
        None => match kind {
            DetectionKind::Fresh | DetectionKind::Repeat => EventLifecycle::Open,
            DetectionKind::Invalidated => EventLifecycle::Resolved,
            DetectionKind::TimedOut => EventLifecycle::Expired,
        },
        Some(p) => if lifecycle_is_terminal(p) {
            match kind {
                DetectionKind::Fresh | DetectionKind::Repeat => EventLifecycle::Open,
                _ => p,
            }
        } else {
            match kind {
                DetectionKind::Fresh | DetectionKind::Repeat => EventLifecycle::Updated,
                DetectionKind::Invalidated => EventLifecycle::Resolved,
                DetectionKind::TimedOut => EventLifecycle::Expired,
            }
        },
    }
}

/// Compute the next lifecycle for a detection against optional prior state.
///
/// Every detection is answered: the result is never an error.
pub fn next_lifecycle_for_detection(prior: Option<EventLifecycle>, kind: DetectionKind) -> (r:
    Result<EventLifecycle, LifecycleError>)
    ensures
        r == Ok::<EventLifecycle, LifecycleError>(next_lifecycle(prior, kind)),
{
    match prior {
        None => match kind {
            DetectionKind::Fresh | DetectionKind::Repeat => Ok(EventLifecycle::Open),
            DetectionKind::Invalidated => Ok(EventLifecycle::Resolved),
            DetectionKind::TimedOut => Ok(EventLifecycle::Expired),
        },
        Some(p) => {
            if p.is_terminal() {
                match kind {
                    DetectionKind::Fresh | DetectionKind::Repeat => Ok(EventLifecycle::Open),
                    _ => Ok(p),
                }
            } else {
                match kind {
                    DetectionKind::Fresh | DetectionKind::Repeat => apply_lifecycle_transition(
                        p,
                        EventLifecycle::Updated,
                    ),
                    DetectionKind::Invalidated => apply_lifecycle_transition(
                        p,
                        EventLifecycle::Resolved,
                    ),
                    DetectionKind::TimedOut => apply_lifecycle_transition(
                        p,
                        EventLifecycle::Expired,
                    ),
                }
            }
        },
    }
}

/// Severity carried on every `get_events` row. Never silently omitted.
#[derive(Debug, Clone, Copy, PartialEq, Eq, Hash, Structural)]
pub enum EventSeverity {
    Low,
    Normal,
    High,
    Urgent,
    /// Legacy / unclassifiable rows only — still present on the wire.
    Unspecified,
}

pub open spec fn severity_label(s: EventSeverity) -> Seq<char> {
    match s {
        EventSeverity::Low => "low"@,
        EventSeverity::Normal => "normal"@,
        EventSeverity::High => "high"@,
        EventSeverity::Urgent => "urgent"@,
        EventSeverity::Unspecified => "unspecified"@,
    }
}

pub open spec fn severity_from_key(k: Seq<char>) -> EventSeverity {
    if k == "low"@ {
        EventSeverity::Low
    } else if k == "normal"@ {
        EventSeverity::Normal
    } else if k == "high"@ {
        EventSeverity::High
    } else if k == "urgent"@ {
        EventSeverity::Urgent
    } else {
        EventSeverity::Unspecified
    }
}

pub open spec fn severity_rank(s: EventSeverity) -> int {
    match s {
        EventSeverity::Urgent => 4,
        EventSeverity::High => 3,
        EventSeverity::Normal => 2,
        EventSeverity::Low => 1,
        EventSeverity::Unspecified => 0,
    }
}

impl EventSeverity {
    /// Wire label used in `get_events` / SQLite.
    pub fn as_str(self) -> (r: &'static str)
        ensures
            r@ == severity_label(self),
    {
        match self {
            EventSeverity::Low => "low",
            EventSeverity::Normal => "normal",
            EventSeverity::High => "high",
            EventSeverity::Urgent => "urgent",
            EventSeverity::Unspecified => SEVERITY_UNSPECIFIED,
        }
    }

    /// Parse a stored/wire severity label. Unknown values map to `Unspecified`.
    pub fn parse(raw: &str) -> (r: EventSeverity)
        ensures
            r == severity_from_key(norm_lower(raw@)),
    {
        let k = norm_lower_of(raw);
        if eq_lit(&k, "low") {
            EventSeverity::Low
        } else if eq_lit(&k, "normal") {
            EventSeverity::Normal
        } else if eq_lit(&k, "high") {
            EventSeverity::High
        } else if eq_lit(&k, "urgent") {
            EventSeverity::Urgent
        } else {
            EventSeverity::Unspecified
        }
    }

    /// Rank used by the attention inbox view (higher = more attention).
    pub fn rank(self) -> (r: i32)
        ensures
            r == severity_rank(self),
    {
        match self {
            EventSeverity::Urgent => 4,
            EventSeverity::High => 3,
            EventSeverity::Normal => 2,
            EventSeverity::Low => 1,
            EventSeverity::Unspecified => 0,
        }
    }
}

/// Operator family for Capsule policy and attention ranking.
#[derive(Debug, Clone, Copy, PartialEq, Eq, Hash, Structural)]
pub enum EventFamily {
    /// Depth-of-market family — Capsules are mandatory.
    Dom,
    Flow,
    Structure,
    Other,
}

pub open spec fn family_label(f: EventFamily) -> Seq<char> {
    match f {
        EventFamily::Dom => "dom"@,
        EventFamily::Flow => "flow"@,
        EventFamily::Structure => "structure"@,
        EventFamily::Other => "other"@,
    }
}

impl EventFamily {
    /// Wire label used in `get_events` (`dom` / `flow` / `structure` / `other`).
    pub fn as_str(self) -> (r: &'static str)
        ensures
            r@ == family_label(self),
    {
        match self {
            EventFamily::Dom => "dom",
            EventFamily::Flow => "flow",
            EventFamily::Structure => "structure",
            EventFamily::Other => "other",
        }
    }
}

pub open spec fn underscore_char(c: char) -> char {
    if c == '-' || c == ' ' { '_' } else { c }
}

/// Normalized event-type key: trimmed, ASCII-lowercased, `-` and ` ` → `_`.
pub open spec fn event_key(s: Seq<char>) -> Seq<char> {
    norm_lower(s).map_values(|c: char| underscore_char(c))
}

/// The family key of a normalized event-type key: one lifecycle-stage suffix
/// (`_detected`, `_confirmed`, `_invalidated`, `_hit`, `_created`, `_held`) is dropped
/// when something remains before it.
pub open spec fn family_of_key(k: Seq<char>) -> Seq<char> {
    strip_first_suffix(k, views(FAMILY_STAGE_SUFFIXES@))
}

pub open spec fn strip_first_suffix(k: Seq<char>, suffixes: Seq<Seq<char>>) -> Seq<char>
    decreases suffixes.len(),
{
    if suffixes.len() == 0 {
        k
    } else if ends_with(k, suffixes[0]) && k.len() > suffixes[0].len() {
        k.subrange(0, k.len() - suffixes[0].len())
    } else {
        strip_first_suffix(k, suffixes.drop_first())
    }
}

pub open spec fn is_dom_type_key(k: Seq<char>) -> bool {
    views(DOM_FAMILY_EVENT_TYPES@).contains(k)
}

/// DOM stem: the type itself, or its family key, is a DOM-family type.
pub open spec fn is_dom_stem(s: Seq<char>) -> bool {
    is_dom_type_key(event_key(s)) || is_dom_type_key(family_of_key(event_key(s)))
}

pub open spec fn event_family_of(s: Seq<char>) -> EventFamily {
    if is_dom_stem(s) {
        EventFamily::Dom
    } else if views(FLOW_FAMILY_KEYS@).contains(family_of_key(event_key(s))) {
        EventFamily::Flow
    } else if views(STRUCTURE_FAMILY_KEYS@).contains(family_of_key(event_key(s))) {
        EventFamily::Structure
    } else {
        EventFamily::Other
    }
}

pub open spec fn is_invalidation_key(s: Seq<char>) -> bool {
    ends_with(event_key(s), "_invalidated"@)
}

pub open spec fn default_severity(s: Seq<char>) -> EventSeverity {
    if is_dom_type_key(event_key(s)) {
        EventSeverity::High
    } else {
        match event_family_of(s) {
            EventFamily::Flow | EventFamily::Dom => EventSeverity::High,
            _ => EventSeverity::Normal,
        }
    }
}

fn underscore_chars(v: &Vec<char>) -> (out: Vec<char>)
    ensures
        out@ == v@.map_values(|c: char| underscore_char(c)),
{
    let mut out: Vec<char> = Vec::new();
    let n = v.len();
    let mut i: usize = 0;
    while i < n
        invariant
            n == v.len(),
            i <= n,
            out@ == v@.take(i as int).map_values(|c: char| underscore_char(c)),
        decreases n - i,
    {
        let c = v[i];
        let d = if c == '-' || c == ' ' { '_' } else { c };
        out.push(d);
        assert(v@.take(i + 1).map_values(|c: char| underscore_char(c)) =~= v@.take(
            i as int,
        ).map_values(|c: char| underscore_char(c)).push(underscore_char(v@[i as int])));
        i = i + 1;
    }
    assert(v@.take(n as int) =~= v@);
    out
}

fn event_key_chars(event_type: &str) -> (out: Vec<char>)
    ensures
        out@ == event_key(event_type@),
{
    let k = norm_lower_of(event_type);
    underscore_chars(&k)
}

/// Normalized event-type key (trim, ASCII lower case, `-`/` ` → `_`).
pub fn normalize_event_type_key(event_type: &str) -> (out: String)
    ensures
        out@ == event_key(event_type@),
{
    let k = event_key_chars(event_type);
    string_from(&k)
}

fn family_key_chars(k: &Vec<char>) -> (out: Vec<char>)
    ensures
        out@ == family_of_key(k@),
{
    let n = FAMILY_STAGE_SUFFIXES.len();
    let mut i: usize = 0;
    assert(views(FAMILY_STAGE_SUFFIXES@).skip(0) =~= views(FAMILY_STAGE_SUFFIXES@));
    while i < n
        invariant
            n == FAMILY_STAGE_SUFFIXES@.len(),
            i <= n,
            family_of_key(k@) == strip_first_suffix(k@, views(FAMILY_STAGE_SUFFIXES@).skip(i as int)),
        decreases n - i,
    {
        let suffix = chars_of(FAMILY_STAGE_SUFFIXES[i]);
        let ghost rest = views(FAMILY_STAGE_SUFFIXES@).skip(i as int);
        assert(rest[0] == suffix@);
        assert(rest.drop_first() =~= views(FAMILY_STAGE_SUFFIXES@).skip(i + 1));
        if ends_with_exec(k, &suffix) && k.len() > suffix.len() {
            return slice_chars(k, 0, k.len() - suffix.len());
        }
        i = i + 1;
    }
    assert(views(FAMILY_STAGE_SUFFIXES@).skip(n as int).len() == 0);
    slice_chars(k, 0, k.len())
}

/// True when `event_type` is in the DOM family (Capsule-mandatory).
pub fn is_dom_family_event_type(event_type: &str) -> (r: bool)
    ensures
        r == is_dom_type_key(event_key(event_type@)),
{
    let k = event_key_chars(event_type);
    key_in(&k, &DOM_FAMILY_EVENT_TYPES)
}

/// True when this type is a DOM-family stem, including `*_invalidated` rows.
pub fn is_dom_family_stem(event_type: &str) -> (r: bool)
    ensures
        r == is_dom_stem(event_type@),
{
    let k = event_key_chars(event_type);
    if key_in(&k, &DOM_FAMILY_EVENT_TYPES) {
        return true;
    }
    let family = family_key_chars(&k);
    key_in(&family, &DOM_FAMILY_EVENT_TYPES)
}

/// Capsule dump is mandatory for this event type (DOM-family stems only).
pub fn requires_capsule(event_type: &str) -> (r: bool)
    ensures
        r == is_dom_stem(event_type@),
{
    is_dom_family_stem(event_type)
}

/// Family key used inside dedup identity (groups detected/confirmed/invalidated).
pub fn event_family_key(event_type: &str) -> (out: String)
    ensures
        out@ == family_of_key(event_key(event_type@)),
{
    let k = event_key_chars(event_type);
    let f = family_key_chars(&k);
    string_from(&f)
}

/// Classify an event type into an operator family.
pub fn classify_event_family(event_type: &str) -> (r: EventFamily)
    ensures
        r == event_family_of(event_type@),
{
    if is_dom_family_stem(event_type) {
        return EventFamily::Dom;
    }
    let k = event_key_chars(event_type);
    let family = family_key_chars(&k);
    if key_in(&family, &FLOW_FAMILY_KEYS) {
        EventFamily::Flow
    } else if key_in(&family, &STRUCTURE_FAMILY_KEYS) {
        EventFamily::Structure
    } else {
        EventFamily::Other
    }
}

/// True when this detector row closes a live condition (→ resolved).
pub fn is_invalidation_event_type(event_type: &str) -> (r: bool)
    ensures
        r == is_invalidation_key(event_type@),
{
    let k = event_key_chars(event_type);
    let suffix = chars_of("_invalidated");
    ends_with_exec(&k, &suffix)
}

/// Detection kind implied by a raw detector row (before prior lookup).
pub fn detection_kind_for_event_type(event_type: &str) -> (r: DetectionKind)
    ensures
        r == (if is_invalidation_key(event_type@) {
            DetectionKind::Invalidated
        } else {
            DetectionKind::Fresh
        }),
{
    if is_invalidation_event_type(event_type) {
        DetectionKind::Invalidated
    } else {
        DetectionKind::Fresh
    }
}

/// Severity by family when a row carries none: DOM and flow → high, else normal.
pub fn default_severity_for_event_type(event_type: &str) -> (r: EventSeverity)
    ensures
        r == default_severity(event_type@),
{
    if is_dom_family_event_type(event_type) {
        return EventSeverity::High;
    }
    match classify_event_family(event_type) {
        EventFamily::Flow => EventSeverity::High,
        EventFamily::Structure => EventSeverity::Normal,
        EventFamily::Dom => EventSeverity::High,
        EventFamily::Other => EventSeverity::Normal,
    }
}

/// Where a numeric severity level in event metadata falls: at least 4, at
/// least 3, at least 2, above 0, or none of these (zero, negative, or not a
/// number).
#[derive(Debug, Clone, Copy, PartialEq, Eq, Structural)]
pub enum NumericSeverity {
    AtLeastFour,
    AtLeastThree,
    AtLeastTwo,
    Positive,
    NotPositive,
}

/// The severity a numeric level stands for.
pub open spec fn numeric_severity(n: NumericSeverity) -> EventSeverity {
    match n {
        NumericSeverity::AtLeastFour => EventSeverity::Urgent,
        NumericSeverity::AtLeastThree => EventSeverity::High,
        NumericSeverity::AtLeastTwo => EventSeverity::Normal,
        NumericSeverity::Positive => EventSeverity::Low,
        NumericSeverity::NotPositive => EventSeverity::Unspecified,
    }
}

/// Severity of an event row: a recognised severity label in its metadata
/// wins; otherwise a numeric severity level decides (even when it maps to
/// unspecified); otherwise the event type's family default.
pub open spec fn event_severity(label: Option<Seq<char>>, level: Option<NumericSeverity>, event_type: Seq<char>) -> EventSeverity {
    if label is Some && severity_from_key(norm_lower(label->0)) != EventSeverity::Unspecified {
        severity_from_key(norm_lower(label->0))
    } else {
        match level {
            Some(n) => numeric_severity(n),
            None => default_severity(event_type),
        }
    }
}

/// Resolve an event's severity from its metadata's `severity` entry — given
/// as a text label, or as the band its numeric level falls in — then from
/// the family default. Always returns a value.
pub fn resolve_event_severity(label: Option<&str>, level: Option<NumericSeverity>, event_type: &str) -> (r: EventSeverity)
    ensures
        r == event_severity(
            match label {
                Some(l) => Some(l@),
                None => None,
            },
            level,
            event_type@,
        ),
{
    if let Some(l) = label {
        let parsed = EventSeverity::parse(l);
        if parsed != EventSeverity::Unspecified {
            return parsed;
        }
    }
    match level {
        Some(NumericSeverity::AtLeastFour) => EventSeverity::Urgent,
        Some(NumericSeverity::AtLeastThree) => EventSeverity::High,
        Some(NumericSeverity::AtLeastTwo) => EventSeverity::Normal,
        Some(NumericSeverity::Positive) => EventSeverity::Low,
        Some(NumericSeverity::NotPositive) => EventSeverity::Unspecified,
        None => default_severity_for_event_type(event_type),
    }
}

/// Whether a cheap-model hook may run for this pulse. Event-triggered only.
pub fn cheap_model_may_invoke(event_triggered: bool) -> (r: bool)
    ensures
        r == event_triggered,
{
    event_triggered
}

/// Join key from an event to the Journal Frame that produced it.
///
/// `(journal_frame_second, root_symbol)`.
#[derive(Debug, Clone, PartialEq)]
pub struct FrameRef {
    pub journal_frame_second: Option<i64>,
    pub root_symbol: Option<String>,
}

} // verus!

verus! {

/// Every lifecycle's wire label parses back to that lifecycle.
pub proof fn lemma_lifecycle_label_round_trip(l: EventLifecycle)
    ensures
        lifecycle_from_key(norm_lower(lifecycle_label(l))) == Some(l),
{
    reveal_strlit("open");
    reveal_strlit("updated");
    reveal_strlit("resolved");
    reveal_strlit("expired");
    lemma_norm_lower_plain(lifecycle_label(l));
}

} // verus!

verus! {

/// Terminal states (resolved, expired) admit no explicit transition.
pub proof fn lemma_terminal_is_final(from: EventLifecycle, to: EventLifecycle)
    requires
        lifecycle_is_terminal(from),
    ensures
        !legal_transition(from, to),
{
}

/// No explicit transition leads back to `open`; only a new detection after a
/// terminal state starts a new episode.
pub proof fn lemma_no_transition_reopens(from: EventLifecycle)
    ensures
        !legal_transition(from, EventLifecycle::Open),
{
}

/// From a live state, every detection moves along a legal explicit transition.
pub proof fn lemma_live_detection_is_legal_transition(prior: EventLifecycle, kind: DetectionKind)
    requires
        !lifecycle_is_terminal(prior),
    ensures
        legal_transition(prior, next_lifecycle(Some(prior), kind)),
{
}

/// After a terminal state a fresh or repeated detection opens a new episode,
/// while invalidation and time-out leave the terminal state as it is.
pub proof fn lemma_terminal_then_detection(prior: EventLifecycle, kind: DetectionKind)
    requires
        lifecycle_is_terminal(prior),
    ensures
        (kind == DetectionKind::Fresh || kind == DetectionKind::Repeat) ==> next_lifecycle(
            Some(prior),
            kind,
        ) == EventLifecycle::Open,
        (kind == DetectionKind::Invalidated || kind == DetectionKind::TimedOut) ==> next_lifecycle(
            Some(prior),
            kind,
        ) == prior,
{
}

/// The attention status is `active` exactly for the live (non-terminal) states,
/// and names the terminal state otherwise.
pub proof fn lemma_attention_status_agrees(l: EventLifecycle)
    ensures
        (attention_label(l) == "active"@) <==> !lifecycle_is_terminal(l),
        lifecycle_is_terminal(l) ==> attention_label(l) == lifecycle_label(l),
{
    reveal_strlit("active");
    reveal_strlit("resolved");
    reveal_strlit("expired");
    assert("active"@.len() == 6);
    assert("resolved"@.len() == 8);
    assert("expired"@.len() == 7);
}

/// Every severity's wire label parses back to that severity.
pub proof fn lemma_severity_label_round_trip(s: EventSeverity)
    ensures
        severity_from_key(norm_lower(severity_label(s))) == s,
{
    reveal_strlit("low");
    reveal_strlit("normal");
    reveal_strlit("high");
    reveal_strlit("urgent");
    reveal_strlit("unspecified");
    lemma_norm_lower_plain(severity_label(s));
}

/// Severity ranks order the attention inbox: unspecified < low < normal < high < urgent.
pub proof fn lemma_severity_rank_order()
    ensures
        severity_rank(EventSeverity::Unspecified) < severity_rank(EventSeverity::Low),
        severity_rank(EventSeverity::Low) < severity_rank(EventSeverity::Normal),
        severity_rank(EventSeverity::Normal) < severity_rank(EventSeverity::High),
        severity_rank(EventSeverity::High) < severity_rank(EventSeverity::Urgent),
{
}

/// Every DOM-family type, and each of its invalidation rows, requires a Capsule.
pub proof fn lemma_dom_types_require_capsule(s: Seq<char>)
    requires
        is_dom_type_key(event_key(s)),
    ensures
        is_dom_stem(s),
        event_family_of(s) == EventFamily::Dom,
        default_severity(s) == EventSeverity::High,
{
}

/// What each detection does to a live (or absent) event: a fresh or repeated
/// sighting opens it (absent) or updates it (live), an invalidation resolves
/// it and a time-out expires it. A TTL time-out never reads as a resolution,
/// and an invalidation never as an expiry.
pub proof fn lemma_live_detection_outcomes(prior: Option<EventLifecycle>, kind: DetectionKind)
    requires
        prior is None || prior == Some(EventLifecycle::Open) || prior == Some(EventLifecycle::Updated),
    ensures
        kind == DetectionKind::TimedOut ==> next_lifecycle(prior, kind) == EventLifecycle::Expired,
        kind == DetectionKind::Invalidated ==> next_lifecycle(prior, kind) == EventLifecycle::Resolved,
        (kind == DetectionKind::Fresh || kind == DetectionKind::Repeat) && prior is None
            ==> next_lifecycle(prior, kind) == EventLifecycle::Open,
        (kind == DetectionKind::Fresh || kind == DetectionKind::Repeat) && prior is Some
            ==> next_lifecycle(prior, kind) == EventLifecycle::Updated,
{
}

/// A time-out only ever expires an event or leaves a terminal one as it was;
/// an invalidation only ever resolves one or leaves a terminal one as it was.
pub proof fn lemma_timeout_never_resolves(prior: Option<EventLifecycle>)
    ensures
        next_lifecycle(prior, DetectionKind::TimedOut) == EventLifecycle::Expired || prior == Some(
            next_lifecycle(prior, DetectionKind::TimedOut),
        ),
        prior != Some(EventLifecycle::Resolved) ==> next_lifecycle(prior, DetectionKind::TimedOut)
            != EventLifecycle::Resolved,
        next_lifecycle(prior, DetectionKind::Invalidated) == EventLifecycle::Resolved || prior == Some(
            next_lifecycle(prior, DetectionKind::Invalidated),
        ),
        prior != Some(EventLifecycle::Expired) ==> next_lifecycle(prior, DetectionKind::Invalidated)
            != EventLifecycle::Expired,
{
}

/// Severity precedence: a recognised label (`low`, `normal`, `high`,
/// `urgent`, in any ASCII case and padding) wins; failing that a numeric
/// level decides by its band (4+ urgent, 3+ high, 2+ normal, above 0 low,
/// otherwise unspecified); failing both, DOM and flow events are high and
/// the rest normal.
pub proof fn lemma_severity_precedence(
    label: Option<Seq<char>>,
    level: Option<NumericSeverity>,
    event_type: Seq<char>,
)
    ensures
        label matches Some(l) && norm_lower(l) == "low"@ ==> event_severity(label, level, event_type)
            == EventSeverity::Low,
        label matches Some(l) && norm_lower(l) == "normal"@ ==> event_severity(label, level, event_type)
            == EventSeverity::Normal,
        label matches Some(l) && norm_lower(l) == "high"@ ==> event_severity(label, level, event_type)
            == EventSeverity::High,
        label matches Some(l) && norm_lower(l) == "urgent"@ ==> event_severity(label, level, event_type)
            == EventSeverity::Urgent,
        ({
            let unlabelled = label is None || (norm_lower(label->0) != "low"@ && norm_lower(label->0)
                != "normal"@ && norm_lower(label->0) != "high"@ && norm_lower(label->0) != "urgent"@);
            &&& unlabelled && level == Some(NumericSeverity::AtLeastFour) ==> event_severity(
                label,
                level,
                event_type,
            ) == EventSeverity::Urgent
            &&& unlabelled && level == Some(NumericSeverity::AtLeastThree) ==> event_severity(
                label,
                level,
                event_type,
            ) == EventSeverity::High
            &&& unlabelled && level == Some(NumericSeverity::AtLeastTwo) ==> event_severity(
                label,
                level,
                event_type,
            ) == EventSeverity::Normal
            &&& unlabelled && level == Some(NumericSeverity::Positive) ==> event_severity(
                label,
                level,
                event_type,
            ) == EventSeverity::Low
            &&& unlabelled && level == Some(NumericSeverity::NotPositive) ==> event_severity(
                label,
                level,
                event_type,
            ) == EventSeverity::Unspecified
            &&& unlabelled && level is None && (event_family_of(event_type) == EventFamily::Dom
                || event_family_of(event_type) == EventFamily::Flow) ==> event_severity(
                label,
                level,
                event_type,
            ) == EventSeverity::High
            &&& unlabelled && level is None && event_family_of(event_type) != EventFamily::Dom
                && event_family_of(event_type) != EventFamily::Flow && !is_dom_type_key(
                event_key(event_type),
            ) ==> event_severity(label, level, event_type) == EventSeverity::Normal
        }),
{
    reveal_strlit("low");
    reveal_strlit("normal");
    reveal_strlit("high");
    reveal_strlit("urgent");
    assert("low"@.len() == 3 && "normal"@.len() == 6 && "high"@.len() == 4 && "urgent"@.len() == 6);
    assert("normal"@[0] != "urgent"@[0]);
}

} // verus!
