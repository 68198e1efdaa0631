//! Decisions behind `get_events` rows: the lifecycle a detector row carries,
//! the collapse of occurrence rows to the latest Event per dedup identity, the
//! coaching view's type filter and limit, Capsule matching by identity, and
//! the envelope completeness check.

use vstd::prelude::*;

use crate::event_lifecycle::{
    classify_event_family, detection_kind_for_event_type, event_family_of, event_severity,
    event_key, is_dom_stem, is_invalidation_key, lifecycle_from_key, next_lifecycle,
    next_lifecycle_for_detection, requires_capsule, resolve_event_severity, severity_from_key,
    DetectionKind, EventFamily, EventLifecycle, EventSeverity, NumericSeverity,
    SEVERITY_UNSPECIFIED,
};
use crate::text::{
    chars_of, ends_with, lower, lower_chars, norm_lower, owned, same_chars, string_from, string_views,
    trimmed, trimmed_of,
};

verus! {

/// Severity wire value of rows that carry none.
pub const SEVERITY_PLACEHOLDER: &'static str = SEVERITY_UNSPECIFIED;

/// Cap on occurrence rows loaded before collapsing to the coaching stream.
pub const COACHING_EVENT_FETCH_CAP: usize = 500;

/// The lifecycle of a detector row given the prior lifecycle of its dedup
/// identity: with a prior, anything but an invalidation counts as a repeat.
pub open spec fn detector_lifecycle(event_type: Seq<char>, prior: Option<EventLifecycle>) -> EventLifecycle {
    let raw = if is_invalidation_key(event_type) {
        DetectionKind::Invalidated
    } else {
        DetectionKind::Fresh
    };
    let kind = if prior is Some && raw != DetectionKind::Invalidated {
        DetectionKind::Repeat
    } else {
        raw
    };
    next_lifecycle(prior, kind)
}

/// Lifecycle carried by a detector row (no prior: `open`, or `resolved` for
/// an invalidation).
pub fn detector_row_lifecycle(event_type: &str, prior: Option<EventLifecycle>) -> (r: EventLifecycle)
    ensures
        r == detector_lifecycle(event_type@, prior),
{
    let raw = detection_kind_for_event_type(event_type);
    let kind = match prior {
        Some(_) => match raw {
            DetectionKind::Invalidated => DetectionKind::Invalidated,
            _ => DetectionKind::Repeat,
        },
        None => raw,
    };
    match next_lifecycle_for_detection(prior, kind) {
        Ok(l) => l,
        Err(_) => EventLifecycle::Open,
    }
}

/// Positions of the first row of each key, in order.
pub open spec fn first_occurrences(keys: Seq<Seq<char>>) -> Seq<int>
    decreases keys.len(),
{
    if keys.len() == 0 {
        Seq::empty()
    } else if keys.drop_last().contains(keys.last()) {
        first_occurrences(keys.drop_last())
    } else {
        first_occurrences(keys.drop_last()).push(keys.len() - 1)
    }
}

pub open spec fn as_ints(v: Seq<usize>) -> Seq<int> {
    v.map_values(|i: usize| i as int)
}

/// Collapse occurrence rows, given newest first, to the latest row per dedup
/// identity: the positions of the first row of each dedup identity.
pub fn latest_per_dedup(dedup_ids: &Vec<String>) -> (r: Vec<usize>)
    ensures
        as_ints(r@) == first_occurrences(string_views(dedup_ids@)),
{
    let ghost keys = string_views(dedup_ids@);
    let mut r: Vec<usize> = Vec::new();
    let n = dedup_ids.len();
    let mut i: usize = 0;
    while i < n
        invariant
            n == dedup_ids@.len(),
            i <= n,
            keys == string_views(dedup_ids@),
            as_ints(r@) == first_occurrences(keys.take(i as int)),
        decreases n - i,
    {
        assert(keys.take(i + 1).drop_last() =~= keys.take(i as int));
        assert(keys.take(i + 1).last() == dedup_ids@[i as int]@);
        let seen = key_among(dedup_ids, i, &dedup_ids[i]);
        if !seen {
            let ghost before = r@;
            r.push(i);
            assert(as_ints(r@) =~= as_ints(before).push(i as int));
        }
        i = i + 1;
    }
    assert(keys.take(n as int) =~= keys);
    r
}

fn key_among(items: &Vec<String>, upto: usize, k: &String) -> (r: bool)
    requires
        upto <= items@.len(),
    ensures
        r == string_views(items@).take(upto as int).contains(k@),
{
    let kc = chars_of(k.as_str());
    let mut j: usize = 0;
    while j < upto
        invariant
            upto <= items@.len(),
            j <= upto,
            kc@ == k@,
            forall|x: int| 0 <= x < j ==> (#[trigger] items@[x])@ != k@,
        decreases upto - j,
    {
        let c = chars_of(items[j].as_str());
        if same_chars(&c, &kc) {
            assert(string_views(items@).take(upto as int)[j as int] == k@);
            return true;
        }
        j = j + 1;
    }
    assert forall|x: int| 0 <= x < upto implies string_views(items@).take(upto as int)[x] != k@ by {
        assert(items@[x]@ != k@);
    }
    false
}

/// The event-type filter of the coaching view: none, or a blank one, keeps
/// every row; otherwise rows whose type equals it ignoring ASCII case.
pub open spec fn type_kept(event_type: Seq<char>, want: Option<Seq<char>>) -> bool {
    match want {
        None => true,
        Some(w) => trimmed(w).len() == 0 || lower(event_type) == lower(trimmed(w)),
    }
}

/// Positions (into `ids`) of the rows whose type the filter keeps, in order.
pub open spec fn kept_positions(types: Seq<Seq<char>>, ids: Seq<int>, want: Option<Seq<char>>) -> Seq<int>
    decreases ids.len(),
{
    if ids.len() == 0 {
        Seq::empty()
    } else if type_kept(types[ids.last()], want) {
        kept_positions(types, ids.drop_last(), want).push(ids.last())
    } else {
        kept_positions(types, ids.drop_last(), want)
    }
}

/// The coaching `get_events` view over occurrence rows given newest first:
/// the latest row per dedup identity, then the type filter, then at most
/// `max(limit, 1)` rows. The result lists row positions.
pub fn coaching_event_positions(
    dedup_ids: &Vec<String>,
    event_types: &Vec<String>,
    event_type: Option<&str>,
    limit: usize,
) -> (r: Vec<usize>)
    requires
        dedup_ids@.len() == event_types@.len(),
    ensures
        ({
            let want = match event_type {
                Some(w) => Some(w@),
                None => None,
            };
            let kept = kept_positions(
                string_views(event_types@),
                first_occurrences(string_views(dedup_ids@)),
                want,
            );
            let cap = if limit == 0 {
                1
            } else {
                limit as int
            };
            as_ints(r@) == kept.take(if kept.len() < cap {
                kept.len() as int
            } else {
                cap
            })
        }),
{
    let firsts = latest_per_dedup(dedup_ids);
    let ghost types = string_views(event_types@);
    let ghost want = match event_type {
        Some(w) => Some(w@),
        None => None,
    };
    let ghost ids = first_occurrences(string_views(dedup_ids@));
    proof {
        lemma_first_occurrences_in_range(string_views(dedup_ids@));
    }
    let filter: Option<Vec<char>> = match event_type {
        Some(w) => {
            let t = trimmed_of(w);
            if t.len() == 0 {
                None
            } else {
                Some(lower_chars(&t))
            }
        },
        None => None,
    };
    let mut kept: Vec<usize> = Vec::new();
    let n = firsts.len();
    let mut i: usize = 0;
    while i < n
        invariant
            n == firsts@.len(),
            i <= n,
            as_ints(firsts@) == ids,
            ids == first_occurrences(string_views(dedup_ids@)),
            forall|j: int| 0 <= j < ids.len() ==> 0 <= #[trigger] ids[j] < event_types@.len(),
            types == string_views(event_types@),
            dedup_ids@.len() == event_types@.len(),
            match filter {
                None => want is None || trimmed(want.unwrap()).len() == 0,
                Some(f) => want is Some && trimmed(want.unwrap()).len() > 0 && f@ == lower(
                    trimmed(want.unwrap()),
                ),
            },
            as_ints(kept@) == kept_positions(types, ids.take(i as int), want),
        decreases n - i,
    {
        let p = firsts[i];
        assert(ids[i as int] == p as int);
        assert(ids.take(i + 1).drop_last() =~= ids.take(i as int));
        assert(ids.take(i + 1).last() == p as int);
        let keep = match &filter {
            None => true,
            Some(f) => {
                let c = chars_of(event_types[p].as_str());
                let l = lower_chars(&c);
                same_chars(&l, f)
            },
        };
        assert(types[p as int] == event_types@[p as int]@);
        if keep {
            let ghost before = kept@;
            kept.push(p);
            assert(as_ints(kept@) =~= as_ints(before).push(p as int));
        }
        i = i + 1;
    }
    assert(ids.take(n as int) =~= ids);
    let cap: usize = if limit == 0 {
        1
    } else {
        limit
    };
    let mut r: Vec<usize> = Vec::new();
    let m = if kept.len() < cap {
        kept.len()
    } else {
        cap
    };
    let mut j: usize = 0;
    while j < m
        invariant
            m <= kept@.len(),
            j <= m,
            as_ints(r@) == as_ints(kept@).take(j as int),
        decreases m - j,
    {
        let ghost before = r@;
        r.push(kept[j]);
        assert(as_ints(r@) =~= as_ints(before).push(kept@[j as int] as int));
        assert(as_ints(kept@).take(j + 1) =~= as_ints(kept@).take(j as int).push(
            kept@[j as int] as int,
        ));
        j = j + 1;
    }
    r
}

/// Every position `first_occurrences` lists is a position of `keys`.
proof fn lemma_first_occurrences_in_range(keys: Seq<Seq<char>>)
    ensures
        forall|j: int| 0 <= j < first_occurrences(keys).len() ==> 0 <= #[trigger] first_occurrences(keys)[j] < keys.len(),
    decreases keys.len(),
{
    if keys.len() > 0 {
        lemma_first_occurrences_in_range(keys.drop_last());
        let prev = first_occurrences(keys.drop_last());
        assert forall|j: int| 0 <= j < first_occurrences(keys).len() implies 0
            <= #[trigger] first_occurrences(keys)[j] < keys.len() by {
            if j < prev.len() {
                assert(first_occurrences(keys)[j] == prev[j]);
            }
        }
    }
}

/// The first Capsule triggered by this occurrence whose root agrees with the
/// event's root (an unscoped event accepts any root).
pub open spec fn capsule_by_identity(
    triggers: Seq<Seq<char>>,
    roots: Seq<Seq<char>>,
    identity: Seq<char>,
    root: Option<Seq<char>>,
    j: int,
) -> bool {
    &&& triggers[j] == identity
    &&& match root {
        Some(r) => roots[j] == r,
        None => true,
    }
}

/// Position of the first Capsule whose trigger is the event's occurrence
/// identity and whose root agrees with the event's root, if any.
pub fn capsule_for_identity(
    capsule_triggers: &Vec<String>,
    capsule_roots: &Vec<String>,
    identity_id: &str,
    event_root: Option<&str>,
) -> (r: Option<usize>)
    requires
        capsule_triggers@.len() == capsule_roots@.len(),
    ensures
        ({
            let triggers = string_views(capsule_triggers@);
            let roots = string_views(capsule_roots@);
            let root = match event_root {
                Some(x) => Some(x@),
                None => None,
            };
            match r {
                Some(j) => j < triggers.len() && capsule_by_identity(triggers, roots, identity_id@, root, j as int)
                    && forall|k: int| 0 <= k < j ==> !capsule_by_identity(triggers, roots, identity_id@, root, k),
                None => forall|k: int| 0 <= k < triggers.len() ==> !capsule_by_identity(triggers, roots, identity_id@, root, k),
            }
        }),
{
    let ghost triggers = string_views(capsule_triggers@);
    let ghost roots = string_views(capsule_roots@);
    let ghost root = match event_root {
        Some(x) => Some(x@),
        None => None,
    };
    let id = chars_of(identity_id);
    let n = capsule_triggers.len();
    let mut i: usize = 0;
    while i < n
        invariant
            n == capsule_triggers@.len(),
            n == capsule_roots@.len(),
            i <= n,
            id@ == identity_id@,
            triggers == string_views(capsule_triggers@),
            roots == string_views(capsule_roots@),
            root == match event_root {
                Some(x) => Some(x@),
                None => None::<Seq<char>>,
            },
            forall|k: int| 0 <= k < i ==> !capsule_by_identity(triggers, roots, identity_id@, root, k),
        decreases n - i,
    {
        let t = chars_of(capsule_triggers[i].as_str());
        let root_ok = match event_root {
            Some(x) => {
                let a = chars_of(capsule_roots[i].as_str());
                let b = chars_of(x);
                same_chars(&a, &b)
            },
            None => true,
        };
        assert(triggers[i as int] == capsule_triggers@[i as int]@);
        assert(roots[i as int] == capsule_roots@[i as int]@);
        if same_chars(&t, &id) && root_ok {
            return Some(i);
        }
        i = i + 1;
    }
    None
}

/// Envelope completeness of an event row: the identities and the event type
/// are non-empty, and a row that requires a Capsule carries a Capsule ref.
pub fn kernel_event_envelope_fields_present(
    identity_id: &str,
    identity_key: &str,
    dedup_identity_id: &str,
    dedup_identity_key: &str,
    event_type: &str,
    requires_capsule: bool,
    has_capsule_ref: bool,
) -> (r: bool)
    ensures
        r == (identity_id@.len() > 0 && identity_key@.len() > 0 && dedup_identity_id@.len() > 0
            && dedup_identity_key@.len() > 0 && event_type@.len() > 0 && (requires_capsule
            ==> has_capsule_ref)),
{
    let ids_ok = chars_of(identity_id).len() > 0 && chars_of(identity_key).len() > 0 && chars_of(
        dedup_identity_id,
    ).len() > 0 && chars_of(dedup_identity_key).len() > 0 && chars_of(event_type).len() > 0;
    if !ids_ok {
        return false;
    }
    if requires_capsule {
        has_capsule_ref
    } else {
        true
    }
}

/// Collapsing keeps at most one row per dedup identity: the kept rows have
/// distinct identities.
pub proof fn lemma_collapse_identities_distinct(keys: Seq<Seq<char>>)
    ensures
        forall|a: int, b: int| 0 <= a < b < first_occurrences(keys).len() ==> keys[#[trigger] first_occurrences(keys)[a]]
            != keys[#[trigger] first_occurrences(keys)[b]],
    decreases keys.len(),
{
    if keys.len() > 0 {
        let init = keys.drop_last();
        lemma_collapse_identities_distinct(init);
        lemma_first_occurrences_in_range(init);
        let prev = first_occurrences(init);
        let cur = first_occurrences(keys);
        if !init.contains(keys.last()) {
            assert forall|a: int, b: int| 0 <= a < b < cur.len() implies keys[#[trigger] cur[a]]
                != keys[#[trigger] cur[b]] by {
                assert(cur[a] == prev[a]);
                assert(keys[cur[a]] == init[prev[a]]);
                if b == prev.len() {
                    assert(init.contains(init[prev[a]]));
                } else {
                    assert(cur[b] == prev[b]);
                    assert(keys[cur[b]] == init[prev[b]]);
                }
            }
        } else {
            assert forall|a: int, b: int| 0 <= a < b < cur.len() implies keys[#[trigger] cur[a]]
                != keys[#[trigger] cur[b]] by {
                assert(keys[cur[a]] == init[prev[a]]);
                assert(keys[cur[b]] == init[prev[b]]);
            }
        }
    }
}

/// Collapsing drops no dedup identity: every identity of the input has a
/// kept row.
pub proof fn lemma_collapse_covers_identities(keys: Seq<Seq<char>>)
    ensures
        forall|i: int| 0 <= i < keys.len() ==> (exists|j: int| 0 <= j < first_occurrences(keys).len()
            && keys[#[trigger] first_occurrences(keys)[j]] == #[trigger] keys[i]),
    decreases keys.len(),
{
    if keys.len() > 0 {
        let init = keys.drop_last();
        lemma_collapse_covers_identities(init);
        lemma_first_occurrences_in_range(init);
        let prev = first_occurrences(init);
        let cur = first_occurrences(keys);
        assert forall|i: int| 0 <= i < keys.len() implies (exists|j: int| 0 <= j < cur.len()
            && keys[#[trigger] cur[j]] == #[trigger] keys[i]) by {
            if i < init.len() || init.contains(keys.last()) {
                let x = if i < init.len() {
                    i
                } else {
                    choose|q: int| 0 <= q < init.len() && init[q] == keys.last()
                };
                assert(init[x] == keys[i]);
                let j = choose|j: int| 0 <= j < prev.len() && init[#[trigger] prev[j]] == #[trigger] init[x];
                assert(cur[j] == prev[j]);
                assert(keys[cur[j]] == keys[i]);
            } else {
                assert(cur[prev.len() as int] == keys.len() - 1);
            }
        }
    }
}

} // verus!

verus! {

/// What a stored `market_events` row holds, as read from its JSON: absent
/// keys (or values of another JSON type) are `None`. `journal_frame_second`
/// is the top-level column, `frame_ref_second` the one nested under
/// `frameRef`; the metadata severity is its label, or the band of its
/// numeric level.
#[derive(Debug, Clone, PartialEq)]
pub struct DbEventRow {
    pub event_type: Option<String>,
    pub session_date: Option<String>,
    pub trading_day: Option<String>,
    pub lifecycle: Option<String>,
    pub severity: Option<String>,
    pub metadata_severity_label: Option<String>,
    pub metadata_severity_level: Option<NumericSeverity>,
    pub identity_id: Option<String>,
    pub event_id: Option<String>,
    pub identity_key: Option<String>,
    pub dedup_identity_id: Option<String>,
    pub dedup_identity_key: Option<String>,
    pub root_symbol: Option<String>,
    pub journal_frame_second: Option<i64>,
    pub frame_ref_second: Option<i64>,
}

/// The identities and frame second the desk derives from the row's market
/// event itself (occurrence id and key, dedup id and key, the Journal Frame
/// second of its timestamp): the fallbacks for values the row does not store.
#[derive(Debug, Clone, PartialEq)]
pub struct DerivedEventIds {
    pub identity_id: String,
    pub identity_key: String,
    pub dedup_identity_id: String,
    pub dedup_identity_key: String,
    pub frame_second: Option<i64>,
}

/// The fields of a lifted event row that do not depend on its float columns.
/// Lifecycle, severity, identities and the frame join are always populated.
#[derive(Debug, Clone, PartialEq)]
pub struct KernelEventFields {
    pub event_type: String,
    pub identity_id: String,
    pub identity_key: String,
    pub dedup_identity_id: String,
    pub dedup_identity_key: String,
    pub lifecycle: EventLifecycle,
    pub severity: EventSeverity,
    pub family: EventFamily,
    pub requires_capsule: bool,
    pub journal_frame_second: Option<i64>,
    pub root_symbol: Option<String>,
    pub session_date: Option<String>,
    pub trading_day: String,
}

pub open spec fn opt_view(o: Option<String>) -> Option<Seq<char>> {
    match o {
        Some(s) => Some(s@),
        None => None,
    }
}

/// A stored text value, when present and not empty.
pub open spec fn nonempty(o: Option<Seq<char>>) -> Option<Seq<char>> {
    match o {
        Some(s) => if s.len() > 0 {
            Some(s)
        } else {
            None
        },
        None => None,
    }
}

/// The event type a row is read as (`unknown` when absent).
pub open spec fn row_event_type(row: DbEventRow) -> Seq<char> {
    match row.event_type {
        Some(t) => t@,
        None => "unknown"@,
    }
}

/// The session date a row is read as (empty when absent).
pub open spec fn row_session_date(row: DbEventRow) -> Seq<char> {
    match row.session_date {
        Some(d) => d@,
        None => Seq::empty(),
    }
}

/// The stored lifecycle, when it parses.
pub open spec fn stored_lifecycle(row: DbEventRow) -> Option<EventLifecycle> {
    match row.lifecycle {
        Some(l) => lifecycle_from_key(norm_lower(l@)),
        None => None,
    }
}

/// The stored severity, when it parses to something other than unspecified.
pub open spec fn stored_severity(row: DbEventRow) -> Option<EventSeverity> {
    match row.severity {
        Some(s) => if severity_from_key(norm_lower(s@)) != EventSeverity::Unspecified {
            Some(severity_from_key(norm_lower(s@)))
        } else {
            None
        },
        None => None,
    }
}

/// The value of a stored text column when non-empty, else the fallback.
pub open spec fn or_derived(stored: Option<String>, derived: Seq<char>) -> Seq<char> {
    match nonempty(opt_view(stored)) {
        Some(s) => s,
        None => derived,
    }
}

fn nonempty_of(o: &Option<String>) -> (r: Option<String>)
    ensures
        opt_view(r) == nonempty(opt_view(*o)),
{
    match o {
        Some(s) => if s.as_str().is_empty() {
            None
        } else {
            Some(owned(s.as_str()))
        },
        None => None,
    }
}

fn or_derived_of(stored: &Option<String>, derived: &String) -> (r: String)
    ensures
        r@ == or_derived(*stored, derived@),
{
    match nonempty_of(stored) {
        Some(s) => s,
        None => owned(derived.as_str()),
    }
}

/// Lift a stored event row into the fields of a `get_events` row.
///
/// The lifecycle is the stored one, else the one a fresh detection of the
/// event type carries; the severity is the stored one unless it parses to
/// unspecified, else the metadata / family resolution; the occurrence id is
/// `identityId`, else `eventId`, else the derived id; the other identities
/// are the stored non-empty value, else the derived one; the frame second is
/// the top-level column, else the `frameRef` one, else the derived one; the
/// root symbol is kept trimmed when not blank; an empty session date is
/// dropped; the trading day falls back to the session date.
pub fn kernel_event_fields(row: &DbEventRow, derived: &DerivedEventIds) -> (r: KernelEventFields)
    ensures
        r.event_type@ == row_event_type(*row),
        r.lifecycle == match stored_lifecycle(*row) {
            Some(l) => l,
            None => detector_lifecycle(row_event_type(*row), None),
        },
        r.severity == match stored_severity(*row) {
            Some(s) => s,
            None => event_severity(
                opt_view(row.metadata_severity_label),
                row.metadata_severity_level,
                row_event_type(*row),
            ),
        },
        r.identity_id@ == match nonempty(opt_view(row.identity_id)) {
            Some(i) => i,
            None => or_derived(row.event_id, derived.identity_id@),
        },
        r.identity_key@ == or_derived(row.identity_key, derived.identity_key@),
        r.dedup_identity_id@ == or_derived(row.dedup_identity_id, derived.dedup_identity_id@),
        r.dedup_identity_key@ == or_derived(row.dedup_identity_key, derived.dedup_identity_key@),
        r.family == event_family_of(row_event_type(*row)),
        r.requires_capsule == is_dom_stem(row_event_type(*row)),
        r.journal_frame_second == match row.journal_frame_second {
            Some(s) => Some(s),
            None => match row.frame_ref_second {
                Some(s) => Some(s),
                None => derived.frame_second,
            },
        },
        opt_view(r.root_symbol) == match row.root_symbol {
            Some(s) => nonempty(Some(trimmed(s@))),
            None => None,
        },
        opt_view(r.session_date) == nonempty(Some(row_session_date(*row))),
        r.trading_day@ == match row.trading_day {
            Some(t) => t@,
            None => row_session_date(*row),
        },
{
    let event_type = match &row.event_type {
        Some(t) => owned(t.as_str()),
        None => owned("unknown"),
    };
    let session_date = match &row.session_date {
        Some(d) => owned(d.as_str()),
        None => String::new(),
    };
    let lifecycle = match &row.lifecycle {
        Some(l) => match EventLifecycle::parse(l.as_str()) {
            Some(x) => x,
            None => detector_row_lifecycle(event_type.as_str(), None),
        },
        None => detector_row_lifecycle(event_type.as_str(), None),
    };
    let stored_sev = match &row.severity {
        Some(s) => {
            let p = EventSeverity::parse(s.as_str());
            if p != EventSeverity::Unspecified {
                Some(p)
            } else {
                None
            }
        },
        None => None,
    };
    let severity = match stored_sev {
        Some(s) => s,
        None => {
            let label = match &row.metadata_severity_label {
                Some(l) => Some(l.as_str()),
                None => None,
            };
            resolve_event_severity(label, row.metadata_severity_level, event_type.as_str())
        },
    };
    let identity_id = match nonempty_of(&row.identity_id) {
        Some(i) => i,
        None => or_derived_of(&row.event_id, &derived.identity_id),
    };
    let journal_frame_second = match row.journal_frame_second {
        Some(s) => Some(s),
        None => match row.frame_ref_second {
            Some(s) => Some(s),
            None => derived.frame_second,
        },
    };
    let root_symbol = match &row.root_symbol {
        Some(s) => {
            let t = trimmed_of(s.as_str());
            if t.len() == 0 {
                None
            } else {
                Some(string_from(&t))
            }
        },
        None => None,
    };
    let session_out = if session_date.as_str().is_empty() {
        None
    } else {
        Some(owned(session_date.as_str()))
    };
    let trading_day = match &row.trading_day {
        Some(t) => owned(t.as_str()),
        None => owned(session_date.as_str()),
    };
    let family = classify_event_family(event_type.as_str());
    let needs_capsule = requires_capsule(event_type.as_str());
    proof {
        reveal_strlit("unknown");
    }
    KernelEventFields {
        identity_id,
        identity_key: or_derived_of(&row.identity_key, &derived.identity_key),
        dedup_identity_id: or_derived_of(&row.dedup_identity_id, &derived.dedup_identity_id),
        dedup_identity_key: or_derived_of(&row.dedup_identity_key, &derived.dedup_identity_key),
        event_type,
        lifecycle,
        severity,
        family,
        requires_capsule: needs_capsule,
        journal_frame_second,
        root_symbol,
        session_date: session_out,
        trading_day,
    }
}

/// Collapsing keeps, for each dedup identity, its first row (the newest, as
/// rows come newest first), in input order: every kept position is a row of
/// the input that no earlier row shares an identity with, and positions rise.
pub proof fn lemma_collapse_keeps_first_rows(keys: Seq<Seq<char>>)
    ensures
        forall|j: int| 0 <= j < first_occurrences(keys).len() ==> 0 <= #[trigger] first_occurrences(keys)[j]
            < keys.len(),
        forall|j: int, x: int| 0 <= j < first_occurrences(keys).len() && 0 <= x < first_occurrences(keys)[j]
            ==> #[trigger] keys[x] != keys[#[trigger] first_occurrences(keys)[j]],
        forall|a: int, b: int| 0 <= a < b < first_occurrences(keys).len() ==> #[trigger] first_occurrences(
            keys,
        )[a] < #[trigger] first_occurrences(keys)[b],
    decreases keys.len(),
{
    lemma_first_occurrences_in_range(keys);
    if keys.len() > 0 {
        let init = keys.drop_last();
        lemma_collapse_keeps_first_rows(init);
        let prev = first_occurrences(init);
        let cur = first_occurrences(keys);
        assert forall|j: int, x: int| 0 <= j < cur.len() && 0 <= x < cur[j] implies #[trigger] keys[x]
            != keys[#[trigger] cur[j]] by {
            if j < prev.len() {
                assert(cur[j] == prev[j]);
                assert(keys[x] == init[x]);
                assert(keys[cur[j]] == init[prev[j]]);
            } else {
                assert(cur[j] == keys.len() - 1);
                assert(keys[x] == init[x]);
                if keys[x] == keys.last() {
                    assert(init.contains(keys.last()));
                }
            }
        }
        assert forall|a: int, b: int| 0 <= a < b < cur.len() implies #[trigger] cur[a] < #[trigger] cur[b] by {
            assert(cur[a] == prev[a]);
            if b < prev.len() {
                assert(cur[b] == prev[b]);
            } else {
                assert(cur[b] == keys.len() - 1);
                assert(prev[a] < init.len());
            }
        }
    }
}

/// A detector row's lifecycle: an invalidation row resolves an absent or
/// live event and leaves a terminal one as it was; any other row opens an
/// absent or terminal event and updates a live one.
pub proof fn lemma_detector_row_outcomes(event_type: Seq<char>, prior: Option<EventLifecycle>)
    ensures
        ends_with(event_key(event_type), "_invalidated"@) && (prior is None || prior == Some(
            EventLifecycle::Open,
        ) || prior == Some(EventLifecycle::Updated)) ==> detector_lifecycle(event_type, prior)
            == EventLifecycle::Resolved,
        ends_with(event_key(event_type), "_invalidated"@) && (prior == Some(EventLifecycle::Resolved)
            || prior == Some(EventLifecycle::Expired)) ==> detector_lifecycle(event_type, prior)
            == prior->0,
        !ends_with(event_key(event_type), "_invalidated"@) && (prior is None || prior == Some(
            EventLifecycle::Resolved,
        ) || prior == Some(EventLifecycle::Expired)) ==> detector_lifecycle(event_type, prior)
            == EventLifecycle::Open,
        !ends_with(event_key(event_type), "_invalidated"@) && (prior == Some(EventLifecycle::Open)
            || prior == Some(EventLifecycle::Updated)) ==> detector_lifecycle(event_type, prior)
            == EventLifecycle::Updated,
{
}

} // verus!
