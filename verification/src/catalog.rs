//! Desk Catalog ontology: domain shells, the specialty-tool allowlist, and the
//! discovery searches over field descriptors and Feature Registry entries.

use vstd::prelude::*;

use crate::feature_ir::{family_glossary, family_wire_label};
use crate::feature_registry::{
    desc_views, kind_label, promotion_label, DescriptorView, FeatureDescriptor, FeatureKind,
};
use crate::text::{
    chars_of, contains, contains_exec, eq_lit, lower, lower_chars, norm_lower, norm_lower_of,
    owned, same_chars, string_views, trimmed, trimmed_of,
};
use crate::envelope::domain_ids;
use crate::codegen::{
    apply_codegen_fields, codegen_domain, first_with_id, grow_fields, grow_ids,
    lemma_grow_fields_keeps_id_order, lemma_grow_fields_permutation, targets_domain,
};
use crate::feature_registry::{
    builtin_base_detectors, builtin_ids, builtin_map, builtin_rows, builtin_views, lists_map, of_kind,
    overlay_all, shipped_invariants, FeatureRegistry,
};
use crate::positioning::{
    positioning_domain, positioning_field_views, positioning_kind_ids, positioning_kinds,
    POSITIONING_SUMMARY,
};
use crate::sorting::{
    lemma_permutation_all, lemma_permutation_maps, lemma_permutation_no_duplicates, lemma_views_with_id,
    sort_by_id, sorted_by_id, views_with_id,
};
use crate::types::{
    field_views, spec_field_view, DeskCatalog, DomainDescriptor, FieldDescriptor, FieldSpec,
    FieldView, PositioningRecordKind, TrustCeiling, CATALOG_VERSION,
};

verus! {

/// Specialty market tools allowlisted by Catalog v0.
pub const SPECIALTY_MARKET_TOOLS: [&'static str; 24] = [
    "check_delta_confirmation",
    "get_absorption_events",
    "get_context_frame",
    "get_day_type",
    "get_delta_at_price",
    "get_delta_profile",
    "get_footprint",
    "get_footprint_window",
    "get_imbalances",
    "get_key_levels",
    "get_market_snapshot",
    "get_or5_status",
    "get_pinch_events",
    "get_proximity_report",
    "get_rebid_reoffer_zones",
    "get_rvol",
    "get_session_context",
    "get_session_inventory",
    "get_session_summary",
    "get_snapshot_at",
    "get_tape_pace",
    "get_tpo_detail",
    "get_tpo_profile",
    "get_trade_size_profile",
];

/// Specialty market tools allowlisted by Catalog v0 (owned).
pub fn specialty_market_tools_allowlist() -> (r: Vec<String>)
    ensures
        string_views(r@) == SPECIALTY_MARKET_TOOLS@.map_values(|s: &str| s@),
{
    crate::feature_registry::strings_from(&SPECIALTY_MARKET_TOOLS)
}

/// The base domain shells (id, name, summary), in order.
pub open spec fn domain_shells() -> Seq<(Seq<char>, Seq<char>, Seq<char>)> {
    seq![
        ("identity"@, "Identity"@, "Instrument identity, session labels, and contract resolution metadata."@),
        ("location_structure"@, "Location / structure"@, "Price location and auction structure: VWAP, TPO VA/POC, DNVA/DNP, IB/OR/OR5, day type."@),
        ("flow"@, "Flow"@, "Participation and aggression: delta, tape pace, absorption, pinch, trade size."@),
        ("liquidity"@, "Liquidity"@, "Order-book / DOM liquidity summaries when depth context is available."@),
        ("response"@, "Response"@, "Market response structures such as rebid/reoffer acceleration zones."@),
        ("volatility"@, "Volatility"@, "Relative volume and related session volatility framing."@),
        ("positioning"@, "Positioning"@, "Dealer/options Positioning \u{2014} first-class Levels-Only Records via positioning_entry; no live Vs3dProvider."@),
        ("cross_market"@, "Cross-market"@, "Cross-session inventory and multi-session trend framing."@),
        ("events"@, "Events"@, "Formalized event stream: lifecycle (open \u{2192} updated \u{2192} resolved|expired), severity, dedup identity, frameRef to the producing Journal Frame, and capsuleRef on DOM-family rows (stop_run, iceberg_reload, pull_intent, book_velocity_regime_shift). Reads ride get_events; the attention inbox is a ranked view over this stream."@),
        ("meta"@, "Meta"@, "Catalog and envelope metadata (version pins, cost bands)."@),
    ]
}

/// Ids of the base domain shells, in order.
pub open spec fn domain_shell_ids() -> Seq<Seq<char>> {
    domain_shells().map_values(|t: (Seq<char>, Seq<char>, Seq<char>)| t.0)
}

fn shell(id: &str, name: &str, summary: &str) -> (d: DomainDescriptor)
    ensures
        d.id@ == id@,
        d.name@ == name@,
        d.summary@ == summary@,
        d.field_ids@.len() == 0,
        d.record_kinds@.len() == 0,
{
    DomainDescriptor {
        id: owned(id),
        name: owned(name),
        summary: owned(summary),
        field_ids: Vec::new(),
        record_kinds: Vec::new(),
    }
}

/// The ten base domains, with no fields attached yet.
pub fn base_domain_shells() -> (r: Vec<DomainDescriptor>)
    ensures
        r@.map_values(|d: DomainDescriptor| (d.id@, d.name@, d.summary@)) == domain_shells(),
        forall|i: int| 0 <= i < r@.len() ==> (#[trigger] r@[i]).field_ids@.len() == 0
            && r@[i].record_kinds@.len() == 0,
{
    let mut r: Vec<DomainDescriptor> = Vec::new();
    r.push(shell("identity", "Identity", "Instrument identity, session labels, and contract resolution metadata."));
    r.push(shell("location_structure", "Location / structure", "Price location and auction structure: VWAP, TPO VA/POC, DNVA/DNP, IB/OR/OR5, day type."));
    r.push(shell("flow", "Flow", "Participation and aggression: delta, tape pace, absorption, pinch, trade size."));
    r.push(shell("liquidity", "Liquidity", "Order-book / DOM liquidity summaries when depth context is available."));
    r.push(shell("response", "Response", "Market response structures such as rebid/reoffer acceleration zones."));
    r.push(shell("volatility", "Volatility", "Relative volume and related session volatility framing."));
    r.push(shell("positioning", "Positioning", "Dealer/options Positioning \u{2014} first-class Levels-Only Records via positioning_entry; no live Vs3dProvider."));
    r.push(shell("cross_market", "Cross-market", "Cross-session inventory and multi-session trend framing."));
    r.push(shell("events", "Events", "Formalized event stream: lifecycle (open \u{2192} updated \u{2192} resolved|expired), severity, dedup identity, frameRef to the producing Journal Frame, and capsuleRef on DOM-family rows (stop_run, iceberg_reload, pull_intent, book_velocity_regime_shift). Reads ride get_events; the attention inbox is a ranked view over this stream."));
    r.push(shell("meta", "Meta", "Catalog and envelope metadata (version pins, cost bands)."));
    assert(r@.map_values(|d: DomainDescriptor| (d.id@, d.name@, d.summary@)) =~= domain_shells());
    r
}

/// A field matches a lower-cased query when its id, name, description, domain,
/// or Rust field (ASCII lower-cased) contains it.
pub open spec fn field_matches(f: FieldDescriptor, q: Seq<char>) -> bool {
    contains(lower(f.id@), q) || contains(lower(f.name@), q) || contains(lower(f.description@), q)
        || contains(lower(f.domain_id@), q) || contains(lower(f.rust_field@), q)
}

/// The fields of `s` that match `q`, in order.
pub open spec fn matching_fields(s: Seq<FieldDescriptor>, q: Seq<char>) -> Seq<FieldDescriptor>
    decreases s.len(),
{
    if s.len() == 0 {
        s
    } else if field_matches(s.last(), q) {
        matching_fields(s.drop_last(), q).push(s.last())
    } else {
        matching_fields(s.drop_last(), q)
    }
}

fn lower_contains(text: &String, q: &Vec<char>) -> (r: bool)
    ensures
        r == contains(lower(text@), q@),
{
    let c = chars_of(text.as_str());
    let l = lower_chars(&c);
    contains_exec(&l, q)
}

/// Case-insensitive substring search over field id, name, description, domain,
/// and Rust field. A blank query matches nothing.
pub fn search_catalog(catalog: &DeskCatalog, query: &str) -> (r: Vec<FieldDescriptor>)
    ensures
        norm_lower(query@).len() == 0 ==> r@.len() == 0,
        norm_lower(query@).len() > 0 ==> r@ == matching_fields(catalog.fields@, norm_lower(query@)),
{
    let q = norm_lower_of(query);
    let mut r: Vec<FieldDescriptor> = Vec::new();
    if q.len() == 0 {
        return r;
    }
    let n = catalog.fields.len();
    let mut i: usize = 0;
    while i < n
        invariant
            n == catalog.fields@.len(),
            i <= n,
            r@ == matching_fields(catalog.fields@.take(i as int), q@),
        decreases n - i,
    {
        let f = &catalog.fields[i];
        assert(catalog.fields@.take(i + 1).drop_last() =~= catalog.fields@.take(i as int));
        if lower_contains(&f.id, &q) || lower_contains(&f.name, &q) || lower_contains(
            &f.description,
            &q,
        ) || lower_contains(&f.domain_id, &q) || lower_contains(&f.rust_field, &q) {
            r.push(f.clone());
        }
        i = i + 1;
    }
    assert(catalog.fields@.take(n as int) =~= catalog.fields@);
    r
}

pub open spec fn any_contains(items: Seq<Seq<char>>, q: Seq<char>) -> bool {
    exists|i: int| 0 <= i < items.len() && contains(lower(#[trigger] items[i]), q)
}

/// A Feature Registry entry matches a lower-cased query `q` (see the search rules).
pub open spec fn feature_matches(d: DescriptorView, q: Seq<char>) -> bool {
    contains(lower(d.id), q) || contains(lower(d.name), q) || contains(lower(d.description), q)
        || contains(lower(d.domain_id), q) || contains(lower(kind_label(d.kind)), q) || contains(
        promotion_label(d.promotion_state),
        q,
    ) || contains(lower(d.provenance.rust_module), q) || contains(lower(d.provenance.source), q)
        || any_contains(d.schema.event_types, q) || any_contains(d.schema.catalog_field_ids, q) || (
    d.kind == FeatureKind::BaseDetector && (q == "base detector"@ || q == "basedetector"@ || q
        == "detector"@)) || (d.kind == FeatureKind::DerivedFeature && (q == "derived feature"@ || q
        == "derivedfeature"@ || q == "feature-ir"@ || q == "featureir"@)) || (d.program_family matches Some(
        f,
    ) && (contains(lower(family_wire_label(f)), q) || contains(lower(family_glossary(f)), q)))
}

pub open spec fn matching_features(s: Seq<DescriptorView>, q: Seq<char>) -> Seq<DescriptorView>
    decreases s.len(),
{
    if s.len() == 0 {
        s
    } else if feature_matches(s.last(), q) {
        matching_features(s.drop_last(), q).push(s.last())
    } else {
        matching_features(s.drop_last(), q)
    }
}

fn lower_contains_str(text: &str, q: &Vec<char>) -> (r: bool)
    ensures
        r == contains(lower(text@), q@),
{
    let c = chars_of(text);
    let l = lower_chars(&c);
    contains_exec(&l, q)
}

fn any_lower_contains(items: &Vec<String>, q: &Vec<char>) -> (r: bool)
    ensures
        r == any_contains(items@.map_values(|s: String| s@), q@),
{
    let ghost v = items@.map_values(|s: String| s@);
    let n = items.len();
    let mut i: usize = 0;
    while i < n
        invariant
            n == items@.len(),
            v == items@.map_values(|s: String| s@),
            i <= n,
            forall|j: int| 0 <= j < i ==> !contains(lower(#[trigger] v[j]), q@),
        decreases n - i,
    {
        if lower_contains(&items[i], q) {
            assert(contains(lower(v[i as int]), q@));
            return true;
        }
        i = i + 1;
    }
    false
}

fn feature_matches_exec(d: &FeatureDescriptor, q: &Vec<char>) -> (r: bool)
    ensures
        r == feature_matches(d@, q@),
{
    if lower_contains(&d.id, q) || lower_contains(&d.name, q) || lower_contains(&d.description, q)
        || lower_contains(&d.domain_id, q) || lower_contains_str(d.kind.as_str(), q) {
        return true;
    }
    let state = chars_of(d.promotion_state.as_str());
    if contains_exec(&state, q) || lower_contains(&d.provenance.rust_module, q) || lower_contains(
        &d.provenance.source,
        q,
    ) || any_lower_contains(&d.schema.event_types, q) || any_lower_contains(
        &d.schema.catalog_field_ids,
        q,
    ) {
        return true;
    }
    match d.kind {
        FeatureKind::BaseDetector => {
            if eq_lit(q, "base detector") || eq_lit(q, "basedetector") || eq_lit(q, "detector") {
                return true;
            }
        },
        FeatureKind::DerivedFeature => {
            if eq_lit(q, "derived feature") || eq_lit(q, "derivedfeature") || eq_lit(q, "feature-ir")
                || eq_lit(q, "featureir") {
                return true;
            }
        },
    }
    match d.program_family {
        Some(f) => lower_contains_str(f.as_str(), q) || lower_contains_str(f.glossary_name(), q),
        None => false,
    }
}

fn matching_from(
    s: &Vec<FeatureDescriptor>,
    q: &Vec<char>,
    out: &mut Vec<FeatureDescriptor>,
)
    ensures
        desc_views(final(out)@) == desc_views(old(out)@) + matching_features(desc_views(s@), q@),
{
    let ghost start = desc_views(out@);
    let n = s.len();
    let mut i: usize = 0;
    while i < n
        invariant
            n == s@.len(),
            i <= n,
            desc_views(out@) == start + matching_features(desc_views(s@).take(i as int), q@),
        decreases n - i,
    {
        assert(desc_views(s@).take(i + 1).drop_last() =~= desc_views(s@).take(i as int));
        assert(desc_views(s@).take(i + 1).last() == s@[i as int]@);
        if feature_matches_exec(&s[i], q) {
            let ghost before = out@;
            out.push(s[i].clone());
            assert(desc_views(out@) =~= desc_views(before).push(s@[i as int]@));
        }
        i = i + 1;
    }
    assert(desc_views(s@).take(n as int) =~= desc_views(s@));
}

/// Case-insensitive search over Base Detector and Derived Feature descriptors.
/// A blank query matches nothing; kind words (`detector`, `derived feature`,
/// `feature-ir`, …) select only that kind.
pub fn search_features(catalog: &DeskCatalog, query: &str) -> (r: Vec<FeatureDescriptor>)
    ensures
        norm_lower(query@).len() == 0 ==> r@.len() == 0,
        norm_lower(query@).len() > 0 ==> desc_views(r@) == matching_features(
            desc_views(catalog.base_detectors@),
            norm_lower(query@),
        ) + matching_features(desc_views(catalog.derived_features@), norm_lower(query@)),
{
    let q = norm_lower_of(query);
    let mut r: Vec<FeatureDescriptor> = Vec::new();
    if q.len() == 0 {
        return r;
    }
    assert(desc_views(r@) =~= Seq::<DescriptorView>::empty());
    matching_from(&catalog.base_detectors, &q, &mut r);
    matching_from(&catalog.derived_features, &q, &mut r);
    r
}

/// A concept has a catalog field or a Feature Registry entry with that id.
pub open spec fn has_catalog_or_registry_entry(catalog: DeskCatalog, id: Seq<char>) -> bool {
    &&& id.len() > 0
    &&& (exists|i: int| 0 <= i < catalog.fields@.len() && (#[trigger] catalog.fields@[i]).id@ == id)
        || (exists|i: int| 0 <= i < catalog.base_detectors@.len() && (#[trigger] catalog.base_detectors@[i]).id@ == id)
        || (exists|i: int| 0 <= i < catalog.derived_features@.len() && (#[trigger] catalog.derived_features@[i]).id@ == id)
}

/// True when `concept_id` (trimmed) has a catalog field or a Feature Registry
/// entry. New specialty market tools for a concept are refused unless it does.
#[verifier::loop_isolation(false)]
pub fn concept_has_catalog_or_registry_entry(catalog: &DeskCatalog, concept_id: &str) -> (r: bool)
    ensures
        r == has_catalog_or_registry_entry(*catalog, trimmed(concept_id@)),
{
    let id = trimmed_of(concept_id);
    if id.len() == 0 {
        return false;
    }
    let n = catalog.fields.len();
    let mut i: usize = 0;
    while i < n
        invariant
            n == catalog.fields@.len(),
            i <= n,
            forall|j: int| 0 <= j < i ==> (#[trigger] catalog.fields@[j]).id@ != id@,
        decreases n - i,
    {
        let c = chars_of(catalog.fields[i].id.as_str());
        if same_chars(&c, &id) {
            assert(catalog.fields@[i as int].id@ == id@);
            return true;
        }
        i = i + 1;
    }
    let n = catalog.base_detectors.len();
    let mut i: usize = 0;
    while i < n
        invariant
            n == catalog.base_detectors@.len(),
            i <= n,
            forall|j: int| 0 <= j < i ==> (#[trigger] catalog.base_detectors@[j]).id@ != id@,
        decreases n - i,
    {
        let c = chars_of(catalog.base_detectors[i].id.as_str());
        if same_chars(&c, &id) {
            assert(catalog.base_detectors@[i as int].id@ == id@);
            return true;
        }
        i = i + 1;
    }
    let n = catalog.derived_features.len();
    let mut i: usize = 0;
    while i < n
        invariant
            n == catalog.derived_features@.len(),
            i <= n,
            forall|j: int| 0 <= j < i ==> (#[trigger] catalog.derived_features@[j]).id@ != id@,
        decreases n - i,
    {
        let c = chars_of(catalog.derived_features[i].id.as_str());
        if same_chars(&c, &id) {
            assert(catalog.derived_features@[i as int].id@ == id@);
            return true;
        }
        i = i + 1;
    }
    false
}

/// Ids of the fields of `fs` in domain `dom`, in order.
pub open spec fn ids_in_domain(fs: Seq<FieldView>, dom: Seq<char>) -> Seq<Seq<char>>
    decreases fs.len(),
{
    if fs.len() == 0 {
        Seq::empty()
    } else if fs.last().domain_id == dom {
        ids_in_domain(fs.drop_last(), dom).push(fs.last().id)
    } else {
        ids_in_domain(fs.drop_last(), dom)
    }
}

/// A catalog domain as `build_catalog` leaves it: it lists the ids of its
/// fields in field order; Positioning carries its record kinds; every other
/// domain is a base shell with no record kinds.
pub open spec fn built_domain(d: DomainDescriptor, all: Seq<FieldView>) -> bool {
    &&& string_views(d.field_ids@) == ids_in_domain(all, d.id@)
    &&& domain_shape(d)
}

/// Positioning carries its own name, summary and record kinds; every other
/// domain is a base shell with no record kinds.
pub open spec fn domain_shape(d: DomainDescriptor) -> bool {
    if d.id@ == "positioning"@ {
        &&& d.name@ == "Positioning"@
        &&& d.summary@ == POSITIONING_SUMMARY@
        &&& string_views(d.record_kinds@) == positioning_kind_ids()
    } else {
        &&& domain_shells().contains((d.id@, d.name@, d.summary@))
        &&& d.record_kinds@.len() == 0
    }
}

/// A catalog domain once codegen has run over the Derived Features `ds`: a
/// domain they target lists its own and their ids, sorted; any other domain
/// is as `build_catalog` left it.
pub open spec fn grown_domain(d: DomainDescriptor, all: Seq<FieldView>, ds: Seq<DescriptorView>) -> bool {
    &&& domain_shape(d)
    &&& if targets_domain(ds, d.id@) {
        &&& sorted_by_id(d.field_ids@)
        &&& string_views(d.field_ids@).to_multiset() == grow_ids(ids_in_domain(all, d.id@), ds, d.id@).to_multiset()
    } else {
        string_views(d.field_ids@) == ids_in_domain(all, d.id@)
    }
}

/// Only the seventh base shell is the Positioning domain.
proof fn lemma_positioning_shell(k: int)
    requires
        0 <= k < domain_shells().len(),
    ensures
        (domain_shells()[k].0 == "positioning"@) == (k == 6),
{
    reveal_strlit("identity");
    reveal_strlit("location_structure");
    reveal_strlit("flow");
    reveal_strlit("liquidity");
    reveal_strlit("response");
    reveal_strlit("volatility");
    reveal_strlit("positioning");
    reveal_strlit("cross_market");
    reveal_strlit("events");
    reveal_strlit("meta");
    if k == 0 {
        assert(domain_shells()[k].0.len() == 8);
    } else if k == 1 {
        assert(domain_shells()[k].0.len() == 18);
    } else if k == 2 {
        assert(domain_shells()[k].0.len() == 4);
    } else if k == 3 {
        assert(domain_shells()[k].0.len() == 9);
    } else if k == 4 {
        assert(domain_shells()[k].0.len() == 8);
    } else if k == 5 {
        assert(domain_shells()[k].0.len() == 10);
    } else if k == 6 {
        assert(domain_shells()[k].0.len() == 11);
    } else if k == 7 {
        assert(domain_shells()[k].0.len() == 12);
    } else if k == 8 {
        assert(domain_shells()[k].0.len() == 6);
    } else if k == 9 {
        assert(domain_shells()[k].0.len() == 4);
    }
}

/// The base shells have distinct ids.
proof fn lemma_shell_ids_distinct()
    ensures
        domain_shell_ids().no_duplicates(),
{
    reveal_strlit("identity");
    reveal_strlit("location_structure");
    reveal_strlit("flow");
    reveal_strlit("liquidity");
    reveal_strlit("response");
    reveal_strlit("volatility");
    reveal_strlit("positioning");
    reveal_strlit("cross_market");
    reveal_strlit("events");
    reveal_strlit("meta");
    let ids = domain_shell_ids();
    assert(ids =~= seq![
        "identity"@,
        "location_structure"@,
        "flow"@,
        "liquidity"@,
        "response"@,
        "volatility"@,
        "positioning"@,
        "cross_market"@,
        "events"@,
        "meta"@,
    ]);
    assert forall|i: int, j: int| 0 <= i < ids.len() && 0 <= j < ids.len() && i != j implies ids[i]
        != ids[j] by {
        if ids[i] == ids[j] {
            assert(ids[i].len() == ids[j].len());
            assert(ids[i][0] == ids[j][0]);
        }
    }
}

fn field_ids_in(fields: &Vec<FieldDescriptor>, dom: &str) -> (r: Vec<String>)
    ensures
        string_views(r@) == ids_in_domain(field_views(fields@), dom@),
{
    let k = chars_of(dom);
    let ghost fv = field_views(fields@);
    let mut r: Vec<String> = Vec::new();
    let n = fields.len();
    let mut i: usize = 0;
    while i < n
        invariant
            n == fields@.len(),
            i <= n,
            k@ == dom@,
            fv == field_views(fields@),
            string_views(r@) == ids_in_domain(fv.take(i as int), dom@),
        decreases n - i,
    {
        assert(fv.take(i + 1).drop_last() =~= fv.take(i as int));
        assert(fv.take(i + 1).last() == fields@[i as int]@);
        let c = chars_of(fields[i].domain_id.as_str());
        if same_chars(&c, &k) {
            let ghost before = r@;
            r.push(owned(fields[i].id.as_str()));
            assert(string_views(r@) =~= string_views(before).push(fields@[i as int].id@));
        }
        i = i + 1;
    }
    assert(fv.take(n as int) =~= fv);
    r
}

/// Build the versioned Desk Catalog from the annotated market-state field
/// specs plus the Positioning domain. Each domain lists its fields' ids;
/// domains, fields and Base Detectors come sorted by id; no Derived Feature
/// and no live Positioning provider is present.
pub fn build_catalog(specs: Vec<FieldSpec>) -> (r: DeskCatalog)
    ensures
        ({
            let all = specs@.map_values(|s: FieldSpec| spec_field_view(s)) + positioning_field_views();
            &&& r.catalog_version@ == CATALOG_VERSION@
            &&& r.trust_ceiling == TrustCeiling::L3
            &&& string_views(r.specialty_market_tools@) == SPECIALTY_MARKET_TOOLS@.map_values(
                |s: &str| s@,
            )
            &&& sorted_by_id(r.fields@)
            &&& field_views(r.fields@).to_multiset() == all.to_multiset()
            &&& forall|k: Seq<char>| #[trigger] views_with_id(field_views(r.fields@), k) == views_with_id(
                all,
                k,
            )
            &&& sorted_by_id(r.domains@)
            &&& domain_ids(r.domains@).to_multiset() == domain_shell_ids().to_multiset()
            &&& domain_ids(r.domains@).no_duplicates()
            &&& forall|i: int| 0 <= i < r.domains@.len() ==> built_domain(#[trigger] r.domains@[i], all)
            &&& r.positioning_record_kinds@.map_values(
                |k: PositioningRecordKind| (k.id@, k.name@, k.summary@),
            ) == positioning_kinds()
            &&& r.positioning_provider is None
            &&& sorted_by_id(r.base_detectors@)
            &&& desc_views(r.base_detectors@).to_multiset() == builtin_views().to_multiset()
            &&& r.base_detectors@.map_values(|d: FeatureDescriptor| d.id@).to_multiset()
                == builtin_ids().to_multiset()
            &&& forall|i: int| 0 <= i < r.base_detectors@.len() ==> shipped_invariants(
                (#[trigger] r.base_detectors@[i])@,
            )
            &&& r.derived_features@.len() == 0
        }),
{
    let ghost sv = specs@.map_values(|s: FieldSpec| spec_field_view(s));
    let mut fields: Vec<FieldDescriptor> = Vec::new();
    let n = specs.len();
    let mut i: usize = 0;
    while i < n
        invariant
            n == specs@.len(),
            i <= n,
            sv == specs@.map_values(|s: FieldSpec| spec_field_view(s)),
            field_views(fields@) == sv.take(i as int),
        decreases n - i,
    {
        let f = FieldDescriptor::from_spec(specs[i]);
        let ghost before = fields@;
        fields.push(f);
        assert(field_views(fields@) =~= field_views(before).push(spec_field_view(specs@[i as int])));
        assert(sv.take(i + 1) =~= sv.take(i as int).push(spec_field_view(specs@[i as int])));
        i = i + 1;
    }
    assert(sv.take(n as int) =~= sv);
    let positioning = positioning_domain();
    let mut pos_fields = positioning.fields;
    let ghost pf = pos_fields@;
    let ghost before_fields = fields@;
    fields.append(&mut pos_fields);
    let ghost all = sv + positioning_field_views();
    assert(field_views(fields@) =~= field_views(before_fields) + field_views(pf));
    assert(field_views(fields@) == all);

    let mut shells = base_domain_shells();
    let ghost sh = shells@;
    let mut built: Vec<DomainDescriptor> = Vec::new();
    let mut saw_positioning = false;
    let pos_chars = chars_of("positioning");
    proof {
        broadcast use vstd::multiset::group_multiset_axioms;
        broadcast use vstd::seq_lib::group_to_multiset_ensures;
        assert(domain_ids(built@) =~= Seq::<Seq<char>>::empty());
        assert(domain_ids(built@).to_multiset() =~= vstd::multiset::Multiset::<Seq<char>>::empty());
        assert(domain_ids(shells@) =~= domain_shell_ids());
    }
    while shells.len() > 0
        invariant
            pos_chars@ == "positioning"@,
            all == field_views(fields@),
            shells@.len() <= sh.len(),
            shells@ == sh.take(shells@.len() as int),
            sh.map_values(|d: DomainDescriptor| (d.id@, d.name@, d.summary@)) == domain_shells(),
            forall|j: int| 0 <= j < sh.len() ==> (#[trigger] sh[j]).record_kinds@.len() == 0,
            forall|j: int| 0 <= j < built@.len() ==> built_domain(#[trigger] built@[j], all),
            saw_positioning <==> shells@.len() <= 6,
            domain_ids(built@).to_multiset().add(domain_ids(shells@).to_multiset()).add(
                if saw_positioning { vstd::multiset::Multiset::singleton("positioning"@) } else {
                    vstd::multiset::Multiset::empty()
                },
            ) == domain_shell_ids().to_multiset(),
        decreases shells@.len(),
    {
        broadcast use vstd::seq_lib::group_to_multiset_ensures;
        broadcast use vstd::multiset::group_multiset_axioms;

        let ghost before_shells = shells@;
        let ghost before_built = built@;
        let mut d = shells.pop().unwrap();
        let ghost k = shells@.len() as int;
        assert(sh.take(k + 1) =~= shells@.push(d));
        assert(sh.take(k + 1)[k] == d);
        assert(sh[k] == d);
        assert(sh.map_values(|d: DomainDescriptor| (d.id@, d.name@, d.summary@))[k] == (
            d.id@,
            d.name@,
            d.summary@,
        ));
        assert(domain_shells()[k] == (d.id@, d.name@, d.summary@));
        assert(domain_ids(before_shells) =~= domain_ids(shells@).push(d.id@));
        proof {
            lemma_positioning_shell(k);
        }
        let c = chars_of(d.id.as_str());
        if same_chars(&c, &pos_chars) {
            saw_positioning = true;
            assert(domain_ids(before_shells).to_multiset() =~= domain_ids(shells@).to_multiset().insert(
                "positioning"@,
            ));
        } else {
            d.field_ids = field_ids_in(&fields, d.id.as_str());
            assert(domain_shells().contains((d.id@, d.name@, d.summary@)));
            built.push(d);
            assert(domain_ids(built@) =~= domain_ids(before_built).push(d.id@));
            assert(built@[built@.len() - 1] == d);
        }
    }
    if saw_positioning {
        let mut pd = positioning.domain;
        pd.field_ids = field_ids_in(&fields, "positioning");
        let ghost before_built = built@;
        built.push(pd);
        proof {
            broadcast use vstd::seq_lib::group_to_multiset_ensures;
            assert(domain_ids(built@) =~= domain_ids(before_built).push("positioning"@));
            assert(built@[built@.len() - 1] == pd);
        }
    }
    proof {
        broadcast use vstd::multiset::group_multiset_axioms;
        broadcast use vstd::seq_lib::group_to_multiset_ensures;
        assert(domain_ids(shells@) =~= Seq::<Seq<char>>::empty());
        assert(domain_ids(shells@).to_multiset() =~= vstd::multiset::Multiset::<Seq<char>>::empty());
        assert(domain_ids(built@).to_multiset() =~= domain_shell_ids().to_multiset());
    }
    let ghost built_seq = built@;
    let domains = sort_by_id(built);
    proof {
        lemma_permutation_maps(domains@, built_seq, |d: DomainDescriptor| d.id@);
        assert(domain_ids(domains@) =~= domains@.map_values(|d: DomainDescriptor| d.id@));
        assert(domain_ids(built_seq) =~= built_seq.map_values(|d: DomainDescriptor| d.id@));
        lemma_permutation_all(domains@, built_seq, |d: DomainDescriptor| built_domain(d, all));
        lemma_shell_ids_distinct();
        lemma_permutation_no_duplicates(domain_ids(domains@), domain_shell_ids());
    }
    let ghost field_seq = fields@;
    let fields = sort_by_id(fields);
    proof {
        lemma_permutation_maps(fields@, field_seq, |f: FieldDescriptor| f@);
        assert(field_views(fields@) =~= fields@.map_values(|f: FieldDescriptor| f@));
        assert(field_views(field_seq) =~= field_seq.map_values(|f: FieldDescriptor| f@));
        assert forall|k: Seq<char>| #[trigger] views_with_id(field_views(fields@), k) == views_with_id(
            all,
            k,
        ) by {
            lemma_views_with_id(fields@, k);
            lemma_views_with_id(field_seq, k);
        }
    }
    let shipped = builtin_base_detectors();
    let ghost shipped_seq = shipped@;
    let base_detectors = sort_by_id(shipped);
    proof {
        lemma_permutation_maps(base_detectors@, shipped_seq, |d: FeatureDescriptor| d@);
        assert(desc_views(base_detectors@) =~= base_detectors@.map_values(|d: FeatureDescriptor| d@));
        assert(desc_views(shipped_seq) =~= shipped_seq.map_values(|d: FeatureDescriptor| d@));
        lemma_permutation_maps(base_detectors@, shipped_seq, |d: FeatureDescriptor| d.id@);
        assert(shipped_seq.map_values(|d: FeatureDescriptor| d.id@) =~= builtin_ids());
        lemma_permutation_all(base_detectors@, shipped_seq, |d: FeatureDescriptor| shipped_invariants(d@));
    }
    DeskCatalog {
        catalog_version: owned(CATALOG_VERSION),
        trust_ceiling: TrustCeiling::L3,
        specialty_market_tools: specialty_market_tools_allowlist(),
        domains,
        fields,
        positioning_record_kinds: positioning.record_kinds,
        positioning_provider: None,
        base_detectors,
        derived_features: Vec::new(),
    }
}

/// The catalog plus the Feature Registry overlay (registered candidates and
/// promotions). Overlay rows cannot replace shipped builtins; accepted
/// Derived Features then grow the catalog through codegen.
pub fn build_catalog_with_overlay(specs: Vec<FieldSpec>, overlay: Vec<FeatureDescriptor>) -> (r: DeskCatalog)
    ensures
        exists|rows: Seq<DescriptorView>| #[trigger] builtin_rows(rows) && {
            let m = overlay_all(builtin_map(rows), desc_views(overlay@));
            &&& lists_map(desc_views(r.base_detectors@), of_kind(m, FeatureKind::BaseDetector))
            &&& lists_map(desc_views(r.derived_features@), of_kind(m, FeatureKind::DerivedFeature))
        },
        ({
            let all = specs@.map_values(|s: FieldSpec| spec_field_view(s)) + positioning_field_views();
            let ds = desc_views(r.derived_features@);
            &&& r.catalog_version@ == CATALOG_VERSION@
            &&& r.trust_ceiling == TrustCeiling::L3
            &&& string_views(r.specialty_market_tools@) == SPECIALTY_MARKET_TOOLS@.map_values(
                |s: &str| s@,
            )
            &&& sorted_by_id(r.fields@)
            &&& field_views(r.fields@).to_multiset() == grow_fields(all, ds).to_multiset()
            &&& forall|k: Seq<char>| #[trigger] views_with_id(field_views(r.fields@), k) == views_with_id(
                grow_fields(all, ds),
                k,
            )
            &&& domain_ids(r.domains@).to_multiset() == domain_shell_ids().to_multiset()
            &&& domain_ids(r.domains@).no_duplicates()
            &&& forall|i: int| 0 <= i < r.domains@.len() ==> grown_domain(#[trigger] r.domains@[i], all, ds)
            &&& r.positioning_record_kinds@.map_values(
                |k: PositioningRecordKind| (k.id@, k.name@, k.summary@),
            ) == positioning_kinds()
            &&& r.positioning_provider is None
        }),
{
    let mut catalog = build_catalog(specs);
    let ghost all = specs@.map_values(|s: FieldSpec| spec_field_view(s)) + positioning_field_views();
    let registry = FeatureRegistry::with_overlay(overlay);
    catalog.base_detectors = registry.base_detectors();
    catalog.derived_features = registry.derived_features();
    let ghost before = catalog;
    apply_codegen_fields(&mut catalog);
    proof {
        let ds = desc_views(catalog.derived_features@);
        lemma_grow_fields_permutation(field_views(before.fields@), all, ds);
        assert forall|k: Seq<char>| #[trigger] views_with_id(field_views(catalog.fields@), k)
            == views_with_id(grow_fields(all, ds), k) by {
            lemma_grow_fields_keeps_id_order(field_views(before.fields@), all, ds, k);
        }
        assert(domain_ids(catalog.domains@) =~= domain_ids(before.domains@)) by {
            assert forall|k: int| 0 <= k < catalog.domains@.len() implies catalog.domains@[k].id
                == before.domains@[k].id by {
                assert(codegen_domain(before.domains@[k], catalog.domains@[k], first_with_id(before.domains@, k), ds));
            }
        }
        assert forall|i: int| 0 <= i < catalog.domains@.len() implies grown_domain(
            #[trigger] catalog.domains@[i],
            all,
            ds,
        ) by {
            let old_d = before.domains@[i];
            assert(built_domain(old_d, all));
            assert(codegen_domain(old_d, catalog.domains@[i], first_with_id(before.domains@, i), ds));
            assert(first_with_id(before.domains@, i)) by {
                assert forall|j: int| 0 <= j < i implies (#[trigger] before.domains@[j]).id@
                    != before.domains@[i].id@ by {
                    assert(domain_ids(before.domains@)[j] == before.domains@[j].id@);
                    assert(domain_ids(before.domains@)[i] == before.domains@[i].id@);
                }
            }
        }
    }
    catalog
}

/// What `describe_domain` reports of one domain: the catalog version, the
/// domain, its fields, and the Base Detectors and Derived Features filed
/// under it. It is metadata only: no live values.
pub struct DomainDetail {
    pub catalog_version: String,
    pub metadata_only: bool,
    pub domain: DomainDescriptor,
    pub fields: Vec<FieldDescriptor>,
    pub base_detectors: Vec<FeatureDescriptor>,
    pub derived_features: Vec<FeatureDescriptor>,
}

/// The fields of `s` in domain `dom`, in order.
pub open spec fn fields_in(s: Seq<FieldView>, dom: Seq<char>) -> Seq<FieldView>
    decreases s.len(),
{
    if s.len() == 0 {
        s
    } else if s.last().domain_id == dom {
        fields_in(s.drop_last(), dom).push(s.last())
    } else {
        fields_in(s.drop_last(), dom)
    }
}

/// The descriptors of `s` filed under domain `dom`, in order.
pub open spec fn features_in(s: Seq<DescriptorView>, dom: Seq<char>) -> Seq<DescriptorView>
    decreases s.len(),
{
    if s.len() == 0 {
        s
    } else if s.last().domain_id == dom {
        features_in(s.drop_last(), dom).push(s.last())
    } else {
        features_in(s.drop_last(), dom)
    }
}

fn fields_of_domain(fields: &Vec<FieldDescriptor>, dom: &Vec<char>) -> (r: Vec<FieldDescriptor>)
    ensures
        field_views(r@) == fields_in(field_views(fields@), dom@),
{
    let ghost fv = field_views(fields@);
    let mut r: Vec<FieldDescriptor> = Vec::new();
    let n = fields.len();
    let mut i: usize = 0;
    while i < n
        invariant
            n == fields@.len(),
            i <= n,
            fv == field_views(fields@),
            field_views(r@) == fields_in(fv.take(i as int), dom@),
        decreases n - i,
    {
        assert(fv.take(i + 1).drop_last() =~= fv.take(i as int));
        assert(fv.take(i + 1).last() == fields@[i as int]@);
        let c = chars_of(fields[i].domain_id.as_str());
        if same_chars(&c, dom) {
            let ghost before = r@;
            r.push(fields[i].clone());
            assert(field_views(r@) =~= field_views(before).push(fields@[i as int]@));
        }
        i = i + 1;
    }
    assert(fv.take(n as int) =~= fv);
    r
}

fn features_of_domain(rows: &Vec<FeatureDescriptor>, dom: &Vec<char>) -> (r: Vec<FeatureDescriptor>)
    ensures
        desc_views(r@) == features_in(desc_views(rows@), dom@),
{
    let ghost dv = desc_views(rows@);
    let mut r: Vec<FeatureDescriptor> = Vec::new();
    let n = rows.len();
    let mut i: usize = 0;
    while i < n
        invariant
            n == rows@.len(),
            i <= n,
            dv == desc_views(rows@),
            desc_views(r@) == features_in(dv.take(i as int), dom@),
        decreases n - i,
    {
        assert(dv.take(i + 1).drop_last() =~= dv.take(i as int));
        assert(dv.take(i + 1).last() == rows@[i as int]@);
        let c = chars_of(rows[i].domain_id.as_str());
        if same_chars(&c, dom) {
            let ghost before = r@;
            r.push(rows[i].clone());
            assert(desc_views(r@) =~= desc_views(before).push(rows@[i as int]@));
        }
        i = i + 1;
    }
    assert(dv.take(n as int) =~= dv);
    r
}

/// Domain metadata for `describe_domain`: `None` when no domain has the id;
/// otherwise the first such domain with the fields, Base Detectors and
/// Derived Features filed under it, in catalog order.
pub fn describe_domain(catalog: &DeskCatalog, domain_id: &str) -> (r: Option<DomainDetail>)
    ensures
        r is None <==> !domain_ids(catalog.domains@).contains(domain_id@),
        r matches Some(detail) ==> {
            &&& detail.catalog_version@ == catalog.catalog_version@
            &&& detail.metadata_only
            &&& exists|k: int| 0 <= k < catalog.domains@.len() && first_with_id(catalog.domains@, k)
                && #[trigger] catalog.domains@[k].id@ == domain_id@ && detail.domain.name@
                == catalog.domains@[k].name@ && detail.domain.summary@ == catalog.domains@[k].summary@
                && string_views(detail.domain.field_ids@) == string_views(catalog.domains@[k].field_ids@)
                && string_views(detail.domain.record_kinds@) == string_views(
                catalog.domains@[k].record_kinds@,
            )
            &&& detail.domain.id@ == domain_id@
            &&& field_views(detail.fields@) == fields_in(field_views(catalog.fields@), domain_id@)
            &&& desc_views(detail.base_detectors@) == features_in(desc_views(catalog.base_detectors@), domain_id@)
            &&& desc_views(detail.derived_features@) == features_in(desc_views(catalog.derived_features@), domain_id@)
        },
{
    let k = chars_of(domain_id);
    let n = catalog.domains.len();
    let mut i: usize = 0;
    while i < n
        invariant
            n == catalog.domains@.len(),
            i <= n,
            k@ == domain_id@,
            forall|j: int| 0 <= j < i ==> (#[trigger] catalog.domains@[j]).id@ != domain_id@,
        decreases n - i,
    {
        let c = chars_of(catalog.domains[i].id.as_str());
        if same_chars(&c, &k) {
            let domain = catalog.domains[i].clone();
            assert(domain_ids(catalog.domains@)[i as int] == domain_id@);
            assert(first_with_id(catalog.domains@, i as int));
            let fields = fields_of_domain(&catalog.fields, &k);
            let base_detectors = features_of_domain(&catalog.base_detectors, &k);
            let derived_features = features_of_domain(&catalog.derived_features, &k);
            return Some(
                DomainDetail {
                    catalog_version: owned(catalog.catalog_version.as_str()),
                    metadata_only: true,
                    domain,
                    fields,
                    base_detectors,
                    derived_features,
                },
            );
        }
        i = i + 1;
    }
    assert forall|j: int| 0 <= j < domain_ids(catalog.domains@).len() implies domain_ids(
        catalog.domains@,
    )[j] != domain_id@ by {
        assert(catalog.domains@[j].id@ != domain_id@);
    }
    None
}

/// A search returns exactly the catalog fields, in catalog order, whose id,
/// name, description, domain or Rust field contains the query once both are
/// ASCII lower-cased: every such field is found, and nothing else is.
pub proof fn lemma_search_finds_exactly_matching_fields(s: Seq<FieldDescriptor>, q: Seq<char>)
    ensures
        forall|i: int| 0 <= i < s.len() && (contains(lower((#[trigger] s[i]).id@), q) || contains(
            lower(s[i].name@),
            q,
        ) || contains(lower(s[i].description@), q) || contains(lower(s[i].domain_id@), q) || contains(
            lower(s[i].rust_field@),
            q,
        )) ==> matching_fields(s, q).contains(s[i]),
        forall|j: int| 0 <= j < matching_fields(s, q).len() ==> s.contains(
            #[trigger] matching_fields(s, q)[j],
        ) && (contains(lower(matching_fields(s, q)[j].id@), q) || contains(
            lower(matching_fields(s, q)[j].name@),
            q,
        ) || contains(lower(matching_fields(s, q)[j].description@), q) || contains(
            lower(matching_fields(s, q)[j].domain_id@),
            q,
        ) || contains(lower(matching_fields(s, q)[j].rust_field@), q)),
        matching_fields(s, q).len() <= s.len(),
    decreases s.len(),
{
    if s.len() > 0 {
        let init = s.drop_last();
        lemma_search_finds_exactly_matching_fields(init, q);
        let prev = matching_fields(init, q);
        let cur = matching_fields(s, q);
        assert forall|i: int| 0 <= i < s.len() && (contains(lower((#[trigger] s[i]).id@), q) || contains(
            lower(s[i].name@),
            q,
        ) || contains(lower(s[i].description@), q) || contains(lower(s[i].domain_id@), q) || contains(
            lower(s[i].rust_field@),
            q,
        )) implies cur.contains(s[i]) by {
            if i < s.len() - 1 {
                assert(init[i] == s[i]);
                assert(prev.contains(init[i]));
                let k = choose|k: int| 0 <= k < prev.len() && prev[k] == init[i];
                if field_matches(s.last(), q) {
                    assert(cur[k] == prev[k]);
                } else {
                    assert(cur[k] == prev[k]);
                }
            } else {
                assert(s[i] == s.last());
                assert(cur[prev.len() as int] == s.last());
            }
        }
        assert forall|j: int| 0 <= j < cur.len() implies s.contains(#[trigger] cur[j]) && (contains(
            lower(cur[j].id@),
            q,
        ) || contains(lower(cur[j].name@), q) || contains(lower(cur[j].description@), q) || contains(
            lower(cur[j].domain_id@),
            q,
        ) || contains(lower(cur[j].rust_field@), q)) by {
            if j < prev.len() {
                assert(cur[j] == prev[j]);
                assert(init.contains(prev[j]));
                let k = choose|k: int| 0 <= k < init.len() && init[k] == prev[j];
                assert(s[k] == init[k]);
            } else {
                assert(cur[j] == s.last());
                assert(s[s.len() - 1] == s.last());
            }
        }
    }
}

/// The fields whose id, name, description, domain or Rust field, ASCII
/// lower-cased, contains `q`.
pub open spec fn mentions(q: Seq<char>) -> spec_fn(FieldDescriptor) -> bool {
    |f: FieldDescriptor| contains(lower(f.id@), q) || contains(lower(f.name@), q) || contains(
        lower(f.description@),
        q,
    ) || contains(lower(f.domain_id@), q) || contains(lower(f.rust_field@), q)
}

/// A search result is the catalog's fields filtered by the query, keeping
/// catalog order: each mentioning field exactly once where it stands, and
/// nothing else.
pub proof fn lemma_search_is_catalog_filter(s: Seq<FieldDescriptor>, q: Seq<char>)
    ensures
        matching_fields(s, q) == s.filter(mentions(q)),
    decreases s.len(),
{
    reveal(Seq::filter);
    if s.len() > 0 {
        lemma_search_is_catalog_filter(s.drop_last(), q);
    }
}

} // verus!
