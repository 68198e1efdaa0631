//! Read-kernel envelope rules: accepted resolutions, cost bands, symbol-scoped
//! keys, domain selection, and the provenance completeness check.
//!
//! Every domain in an envelope carries provenance and a degraded flag; absence
//! is a failure, never a silent omission.

use vstd::prelude::*;

use crate::text::{
    chars_of, eq_lit, lemma_norm_upper_plain, norm_upper, norm_upper_of, owned, string_from,
};
use crate::sorting::sort_by_id;
use crate::text::{lex_lt, char_views, join3, same_chars, sort_unique, strictly_sorted, string_views, strings_of_all, trimmed, trimmed_of};
use crate::types::{CostHint, DeskCatalog, DomainDescriptor, FieldDescriptor, TrustCeiling, CATALOG_VERSION};

verus! {

/// Pull-band resolution accepted by `get_state` (R0 orientation / R1 state).
#[derive(Debug, Clone, Copy, PartialEq, Eq, Structural)]
pub enum StateResolution {
    R0,
    R1,
}

/// Provenance source for a domain slice inside a StateEnvelope.
#[derive(Debug, Clone, Copy, PartialEq, Eq, Structural)]
pub enum ProvenanceSource {
    /// Live pipeline / in-memory MarketState.
    Live,
    /// Historical Journal Frame / persisted feature snapshot (`as_of` path).
    Journal,
    /// External provider record with optional vendor stamp.
    Provider,
    /// Manual / as-of Positioning path. Never live vendor data.
    Manual,
}

/// Trust Level capability tag for kernel / tool surface (ceiling stays L3).
#[derive(Debug, Clone, Copy, PartialEq, Eq, Structural)]
pub enum TrustLevel {
    /// Read / query — structurally incapable of mutation or order authority.
    L0,
}

/// Envelope errors.
#[derive(Debug, PartialEq, Eq)]
pub enum EnvelopeError {
    ResolutionOutOfBand(String),
    InvalidResolution(String),
    MissingProvenance(String),
    UnknownDomain(String),
}

impl StateResolution {
    /// Parse wire labels `R0` / `R1` (trimmed, case-insensitive). R2/R3 belong to
    /// the query operators and are out of band; anything else is invalid.
    pub fn parse(raw: &str) -> (r: Result<StateResolution, EnvelopeError>)
        ensures
            norm_upper(raw@) == "R0"@ ==> r == Ok::<StateResolution, EnvelopeError>(StateResolution::R0),
            norm_upper(raw@) == "R1"@ ==> r == Ok::<StateResolution, EnvelopeError>(StateResolution::R1),
            norm_upper(raw@) == "R2"@ || norm_upper(raw@) == "R3"@ ==> (r matches Err(
                EnvelopeError::ResolutionOutOfBand(s),
            ) && s@ == raw@),
            !(norm_upper(raw@) == "R0"@ || norm_upper(raw@) == "R1"@ || norm_upper(raw@) == "R2"@
                || norm_upper(raw@) == "R3"@) ==> (r matches Err(
                EnvelopeError::InvalidResolution(s),
            ) && s@ == norm_upper(raw@)),
    {
        let k = norm_upper_of(raw);
        proof {
            reveal_strlit("R0");
            reveal_strlit("R1");
            reveal_strlit("R2");
            reveal_strlit("R3");
            assert("R0"@[1] == '0' && "R1"@[1] == '1' && "R2"@[1] == '2' && "R3"@[1] == '3');
        }
        if eq_lit(&k, "R0") {
            Ok(StateResolution::R0)
        } else if eq_lit(&k, "R1") {
            Ok(StateResolution::R1)
        } else if eq_lit(&k, "R2") || eq_lit(&k, "R3") {
            Err(EnvelopeError::ResolutionOutOfBand(owned(raw)))
        } else {
            Err(EnvelopeError::InvalidResolution(string_from(&k)))
        }
    }

    /// Whether a field of cost `cost` is served at this resolution.
    pub fn allows(self, cost: CostHint) -> (r: bool)
        ensures
            r == (cost == CostHint::R0 || (self == StateResolution::R1 && cost == CostHint::R1)),
    {
        match self {
            StateResolution::R0 => match cost {
                CostHint::R0 => true,
                _ => false,
            },
            StateResolution::R1 => match cost {
                CostHint::R0 | CostHint::R1 => true,
                _ => false,
            },
        }
    }
}

/// `get_state` never serves evidence (R2) or raw (R3) fields, and R0 serves
/// only orientation fields.
pub proof fn lemma_state_reads_stay_in_band(res: StateResolution, cost: CostHint)
    ensures
        (cost == CostHint::R0 || (res == StateResolution::R1 && cost == CostHint::R1)) ==> cost
            != CostHint::R2 && cost != CostHint::R3,
{
}

/// Domains not tied to one market symbol.
pub open spec fn unscoped_domain(d: Seq<char>) -> bool {
    d == "positioning"@ || d == "events"@ || d == "meta"@
}

/// The part of `s` before its first `.` (all of `s` when there is none).
pub open spec fn first_segment(s: Seq<char>) -> Seq<char>
    decreases s.len(),
{
    if s.len() == 0 {
        s
    } else if s[0] == '.' {
        Seq::empty()
    } else {
        seq![s[0]] + first_segment(s.drop_first())
    }
}

/// Catalog field id → domain id (`market.location_structure.lastPrice` →
/// `location_structure`; otherwise the first dotted segment).
pub open spec fn domain_of_field(id: Seq<char>) -> Seq<char> {
    if crate::text::starts_with(id, "market."@) {
        first_segment(id.subrange(7, id.len() as int))
    } else {
        first_segment(id)
    }
}

/// Domains whose values are per-symbol (MarketRouter lanes).
pub fn is_symbol_scoped_domain(domain_id: &str) -> (r: bool)
    ensures
        r == !unscoped_domain(domain_id@),
{
    let k = chars_of(domain_id);
    !(eq_lit(&k, "positioning") || eq_lit(&k, "events") || eq_lit(&k, "meta"))
}

fn first_segment_from(v: &Vec<char>, from: usize) -> (out: Vec<char>)
    requires
        from <= v.len(),
    ensures
        out@ == first_segment(v@.subrange(from as int, v.len() as int)),
    decreases v.len() - from,
{
    if from == v.len() {
        return Vec::new();
    }
    if v[from] == '.' {
        return Vec::new();
    }
    let rest = first_segment_from(v, from + 1);
    let mut out: Vec<char> = Vec::new();
    out.push(v[from]);
    let mut i: usize = 0;
    while i < rest.len()
        invariant
            i <= rest.len(),
            out@ == seq![v@[from as int]] + rest@.take(i as int),
        decreases rest.len() - i,
    {
        out.push(rest[i]);
        assert(rest@.take(i + 1) =~= rest@.take(i as int).push(rest@[i as int]));
        i = i + 1;
    }
    proof {
        let s = v@.subrange(from as int, v.len() as int);
        assert(s.drop_first() =~= v@.subrange(from + 1, v.len() as int));
        assert(rest@.take(rest@.len() as int) =~= rest@);
    }
    out
}

/// Catalog field id → domain id.
pub fn field_domain_id(field_id: &str) -> (r: Option<String>)
    ensures
        r matches Some(d) && d@ == domain_of_field(field_id@),
{
    let v = chars_of(field_id);
    let prefix = chars_of("market.");
    proof {
        reveal_strlit("market.");
    }
    let seg = if crate::text::starts_with_exec(&v, &prefix) {
        first_segment_from(&v, 7)
    } else {
        assert(v@.subrange(0, v@.len() as int) =~= v@);
        first_segment_from(&v, 0)
    };
    Some(string_from(&seg))
}

/// Whether a catalog field's values are per-symbol.
pub fn field_is_symbol_scoped(field_id: &str) -> (r: bool)
    ensures
        r == !unscoped_domain(domain_of_field(field_id@)),
{
    match field_domain_id(field_id) {
        Some(d) => is_symbol_scoped_domain(d.as_str()),
        None => true,
    }
}

/// Key of a value in a multi-symbol envelope: symbol-scoped field ids are
/// prefixed `{ROOT}.`; Positioning / events / meta stay unprefixed.
pub open spec fn merged_value_key(root: Seq<char>, field_id: Seq<char>) -> Seq<char> {
    if unscoped_domain(domain_of_field(field_id)) {
        field_id
    } else {
        root + "."@ + field_id
    }
}

/// Key of a domain's provenance / degraded flag in a multi-symbol envelope.
pub open spec fn merged_domain_key(root: Seq<char>, domain: Seq<char>) -> Seq<char> {
    if unscoped_domain(domain) {
        domain
    } else {
        root + "."@ + domain
    }
}

fn dotted(root: &str, key: &str) -> (out: String)
    ensures
        out@ == root@ + "."@ + key@,
{
    let mut v = chars_of(root);
    let dot = chars_of(".");
    let k = chars_of(key);
    let ghost whole = root@ + "."@ + key@;
    let mut all: Vec<char> = Vec::new();
    all.append(&mut v);
    let mut d2 = dot;
    all.append(&mut d2);
    let mut k2 = k;
    all.append(&mut k2);
    assert(all@ =~= whole);
    string_from(&all)
}

/// Multi-symbol key of a catalog value for root `root`.
pub fn merged_value_key_of(root: &str, field_id: &str) -> (out: String)
    ensures
        out@ == merged_value_key(root@, field_id@),
{
    if field_is_symbol_scoped(field_id) {
        dotted(root, field_id)
    } else {
        owned(field_id)
    }
}

/// Multi-symbol key of a domain's provenance / degraded flag for root `root`.
pub fn merged_domain_key_of(root: &str, domain: &str) -> (out: String)
    ensures
        out@ == merged_domain_key(root@, domain@),
{
    if is_symbol_scoped_domain(domain) {
        dotted(root, domain)
    } else {
        owned(domain)
    }
}

/// Positioning, events, and meta keys are never prefixed by a symbol.
pub proof fn lemma_unscoped_domains_stay_unprefixed(root: Seq<char>, domain: Seq<char>)
    requires
        unscoped_domain(domain),
    ensures
        merged_domain_key(root, domain) == domain,
{
}

/// Every resolution label parses back.
pub proof fn lemma_resolution_round_trip(r: StateResolution)
    ensures
        (r == StateResolution::R0 ==> norm_upper("R0"@) == "R0"@),
        (r == StateResolution::R1 ==> norm_upper("R1"@) == "R1"@),
{
    reveal_strlit("R0");
    reveal_strlit("R1");
    lemma_norm_upper_plain("R0"@);
    lemma_norm_upper_plain("R1"@);
}


/// The ids of `domains`, in order.
pub open spec fn domain_ids(domains: Seq<DomainDescriptor>) -> Seq<Seq<char>> {
    domains.map_values(|d: DomainDescriptor| d.id@)
}

/// The requested domain ids, trimmed, blanks dropped, in request order.
pub open spec fn requested_keys(req: Seq<Seq<char>>) -> Seq<Seq<char>>
    decreases req.len(),
{
    if req.len() == 0 {
        Seq::empty()
    } else if trimmed(req.last()).len() == 0 {
        requested_keys(req.drop_last())
    } else {
        requested_keys(req.drop_last()).push(trimmed(req.last()))
    }
}

/// The first of `keys` that is not in `known` (in `keys` order).
pub open spec fn first_not_in(keys: Seq<Seq<char>>, known: Seq<Seq<char>>) -> Option<Seq<char>>
    decreases keys.len(),
{
    if keys.len() == 0 {
        None
    } else {
        match first_not_in(keys.drop_last(), known) {
            Some(k) => Some(k),
            None => if known.contains(keys.last()) {
                None
            } else {
                Some(keys.last())
            },
        }
    }
}

fn all_domain_ids(catalog: &DeskCatalog) -> (r: Vec<String>)
    ensures
        string_views(r@) == domain_ids(catalog.domains@),
{
    let mut r: Vec<String> = Vec::new();
    let n = catalog.domains.len();
    let mut i: usize = 0;
    while i < n
        invariant
            n == catalog.domains@.len(),
            i <= n,
            string_views(r@) == domain_ids(catalog.domains@).take(i as int),
        decreases n - i,
    {
        let ghost before = r@;
        r.push(owned(catalog.domains[i].id.as_str()));
        assert(string_views(r@) =~= string_views(before).push(catalog.domains@[i as int].id@));
        assert(domain_ids(catalog.domains@).take(i + 1) =~= domain_ids(catalog.domains@).take(
            i as int,
        ).push(catalog.domains@[i as int].id@));
        i = i + 1;
    }
    assert(domain_ids(catalog.domains@).take(n as int) =~= domain_ids(catalog.domains@));
    r
}

fn is_known_domain(catalog: &DeskCatalog, id: &Vec<char>) -> (r: bool)
    ensures
        r == domain_ids(catalog.domains@).contains(id@),
{
    let n = catalog.domains.len();
    let mut i: usize = 0;
    while i < n
        invariant
            n == catalog.domains@.len(),
            i <= n,
            forall|j: int| 0 <= j < i ==> (#[trigger] catalog.domains@[j]).id@ != id@,
        decreases n - i,
    {
        let c = chars_of(catalog.domains[i].id.as_str());
        if same_chars(&c, id) {
            assert(domain_ids(catalog.domains@)[i as int] == id@);
            return true;
        }
        i = i + 1;
    }
    assert forall|j: int| 0 <= j < domain_ids(catalog.domains@).len() implies domain_ids(
        catalog.domains@,
    )[j] != id@ by {
        assert(catalog.domains@[j].id@ != id@);
    }
    false
}

/// Domains a state read covers. No request, an empty one, or one of blanks
/// only selects every catalog domain in catalog order. Otherwise the trimmed
/// ids must all be catalog domains (the first that is not is the error), and
/// come back sorted without repeats.
pub fn select_domains(catalog: &DeskCatalog, requested: Option<&Vec<String>>) -> (r: Result<
    Vec<String>,
    EnvelopeError,
>)
    ensures
        ({
            let keys = match requested {
                Some(list) => requested_keys(string_views(list@)),
                None => Seq::empty(),
            };
            let known = domain_ids(catalog.domains@);
            match first_not_in(keys, known) {
                Some(k) => r matches Err(EnvelopeError::UnknownDomain(s)) && s@ == k,
                None => r matches Ok(out) && (if keys.len() == 0 {
                    string_views(out@) == known
                } else {
                    strictly_sorted(string_views(out@)) && forall|x: Seq<char>| #[trigger]
                        string_views(out@).contains(x) <==> keys.contains(x)
                }),
            }
        }),
{
    if requested.is_none() {
        return Ok(all_domain_ids(catalog));
    }
    let list = requested.unwrap();
    let ghost req = string_views(list@);
    let ghost known = domain_ids(catalog.domains@);
    let mut out: Vec<Vec<char>> = Vec::new();
    let n = list.len();
    let mut i: usize = 0;
    while i < n
        invariant
            n == list@.len(),
            i <= n,
            requested == Some(list),
            req == string_views(list@),
            known == domain_ids(catalog.domains@),
            char_views(out@) == requested_keys(req.take(i as int)),
            first_not_in(requested_keys(req.take(i as int)), known) is None,
        decreases n - i,
    {
        let id = trimmed_of(list[i].as_str());
        assert(req.take(i + 1).drop_last() =~= req.take(i as int));
        assert(req.take(i + 1).last() == list@[i as int]@);
        assert(req[i as int] == list@[i as int]@);
        if id.len() > 0 {
            if !is_known_domain(catalog, &id) {
                let ghost keys = requested_keys(req.take(i + 1));
                assert(keys.drop_last() == requested_keys(req.take(i as int)));
                assert(keys.last() == id@);
                proof {
                    lemma_first_not_in_prefix(req, i as int + 1, known);
                    lemma_first_not_in_extends(req, i as int + 1, n as int, known);
                    assert(req.take(n as int) =~= req);
                }
                let e = string_from(&id);
                assert(first_not_in(requested_keys(req), known) == Some(e@));
                return Err(EnvelopeError::UnknownDomain(e));
            }
            let ghost before = out@;
            out.push(id);
            assert(char_views(out@) =~= char_views(before).push(trimmed(list@[i as int]@)));
            proof {
                let keys = requested_keys(req.take(i + 1));
                assert(keys.drop_last() =~= requested_keys(req.take(i as int)));
                assert(known.contains(keys.last()));
            }
        } else {
            assert(requested_keys(req.take(i + 1)) == requested_keys(req.take(i as int)));
        }
        i = i + 1;
    }
    assert(req.take(n as int) =~= req);
    if out.len() == 0 {
        return Ok(all_domain_ids(catalog));
    }
    let sorted = sort_unique(out);
    let r = strings_of_all(&sorted);
    assert(string_views(r@) =~= char_views(sorted@));
    Ok(r)
}

/// Once a prefix of the request holds an unknown id, so does every longer
/// prefix, with the same first unknown.
proof fn lemma_first_not_in_prefix(req: Seq<Seq<char>>, k: int, known: Seq<Seq<char>>)
    requires
        0 < k <= req.len(),
        first_not_in(requested_keys(req.take(k - 1)), known) is None,
        trimmed(req[k - 1]).len() > 0,
        !known.contains(trimmed(req[k - 1])),
    ensures
        first_not_in(requested_keys(req.take(k)), known) == Some(trimmed(req[k - 1])),
{
    assert(req.take(k).drop_last() =~= req.take(k - 1));
    let keys = requested_keys(req.take(k));
    assert(keys == requested_keys(req.take(k - 1)).push(trimmed(req[k - 1])));
    assert(keys.drop_last() =~= requested_keys(req.take(k - 1)));
}

/// A first unknown id found in a prefix of the request stays the first unknown
/// of every longer prefix.
proof fn lemma_first_not_in_extends(req: Seq<Seq<char>>, k: int, m: int, known: Seq<Seq<char>>)
    requires
        0 <= k <= m <= req.len(),
        first_not_in(requested_keys(req.take(k)), known) is Some,
    ensures
        first_not_in(requested_keys(req.take(m)), known) == first_not_in(
            requested_keys(req.take(k)),
            known,
        ),
    decreases m - k,
{
    if m > k {
        lemma_first_not_in_extends(req, k, m - 1, known);
        assert(req.take(m).drop_last() =~= req.take(m - 1));
        let keys = requested_keys(req.take(m));
        if trimmed(req[m - 1]).len() > 0 {
            assert(keys.drop_last() =~= requested_keys(req.take(m - 1)));
        }
    }
}

/// Provenance and degraded flags must name the same domains, and at least one.
/// `provenance_keys` and `degraded_keys` are the two maps' keys in key order;
/// the error is the message of the missing-provenance failure.
pub open spec fn provenance_check(provenance_keys: Seq<Seq<char>>, degraded_keys: Seq<Seq<char>>) -> Result<(), Seq<char>> {
    match first_not_in(degraded_keys, provenance_keys) {
        Some(k) => Err(k),
        None => match first_not_in(provenance_keys, degraded_keys) {
            Some(k) => Err(k + " (degraded flag absent)"@),
            None => if provenance_keys.len() == 0 {
                Err("<empty>"@)
            } else {
                Ok(())
            },
        },
    }
}

fn holds_key(keys: &Vec<String>, k: &String) -> (r: bool)
    ensures
        r == string_views(keys@).contains(k@),
{
    let kc = chars_of(k.as_str());
    let n = keys.len();
    let mut i: usize = 0;
    while i < n
        invariant
            n == keys@.len(),
            i <= n,
            kc@ == k@,
            forall|j: int| 0 <= j < i ==> (#[trigger] keys@[j])@ != k@,
        decreases n - i,
    {
        let c = chars_of(keys[i].as_str());
        if same_chars(&c, &kc) {
            assert(string_views(keys@)[i as int] == k@);
            return true;
        }
        i = i + 1;
    }
    assert forall|j: int| 0 <= j < string_views(keys@).len() implies string_views(keys@)[j] != k@ by {
        assert(keys@[j]@ != k@);
    }
    false
}

fn first_missing(a: &Vec<String>, b: &Vec<String>) -> (r: Option<usize>)
    ensures
        match first_not_in(string_views(a@), string_views(b@)) {
            None => r is None,
            Some(k) => r matches Some(i) && i < a@.len() && a@[i as int]@ == k,
        },
{
    let ghost av = string_views(a@);
    let ghost bv = string_views(b@);
    let n = a.len();
    let mut i: usize = 0;
    while i < n
        invariant
            n == a@.len(),
            i <= n,
            av == string_views(a@),
            bv == string_views(b@),
            first_not_in(av.take(i as int), bv) is None,
        decreases n - i,
    {
        assert(av.take(i + 1).drop_last() =~= av.take(i as int));
        if !holds_key(b, &a[i]) {
            proof {
                lemma_first_not_in_grows(av, i as int + 1, n as int, bv);
                assert(av.take(n as int) =~= av);
            }
            return Some(i);
        }
        i = i + 1;
    }
    assert(av.take(n as int) =~= av);
    None
}

/// A first missing key found in a prefix stays the first missing key of every
/// longer prefix.
proof fn lemma_first_not_in_grows(a: Seq<Seq<char>>, k: int, m: int, b: Seq<Seq<char>>)
    requires
        0 <= k <= m <= a.len(),
        first_not_in(a.take(k), b) is Some,
    ensures
        first_not_in(a.take(m), b) == first_not_in(a.take(k), b),
    decreases m - k,
{
    if m > k {
        lemma_first_not_in_grows(a, k, m - 1, b);
        assert(a.take(m).drop_last() =~= a.take(m - 1));
    }
}

/// Fail closed unless the provenance and degraded maps (given by their keys in
/// key order) name the same, non-empty set of domains.
pub fn validate_provenance_complete(provenance_keys: &Vec<String>, degraded_keys: &Vec<String>) -> (r: Result<(), EnvelopeError>)
    ensures
        match provenance_check(string_views(provenance_keys@), string_views(degraded_keys@)) {
            Ok(()) => r is Ok,
            Err(m) => r matches Err(EnvelopeError::MissingProvenance(s)) && s@ == m,
        },
{
    match first_missing(degraded_keys, provenance_keys) {
        Some(i) => {
            return Err(EnvelopeError::MissingProvenance(owned(degraded_keys[i].as_str())));
        },
        None => {},
    }
    match first_missing(provenance_keys, degraded_keys) {
        Some(i) => {
            let k = chars_of(provenance_keys[i].as_str());
            let msg = join3("", &k, " (degraded flag absent)");
            proof {
                reveal_strlit("");
                assert(msg@ =~= provenance_keys@[i as int]@ + " (degraded flag absent)"@);
            }
            return Err(EnvelopeError::MissingProvenance(msg));
        },
        None => {},
    }
    if provenance_keys.len() == 0 {
        return Err(EnvelopeError::MissingProvenance(owned("<empty>")));
    }
    Ok(())
}

/// Note on the Positioning slice before a durable record overlays it.
pub const POSITIONING_PENDING_NOTE: &'static str = "No Positioning record. Levels-Only Record path is first-class \u{2014} write via positioning_entry (manual/as-of). Not live vendor data.";

/// Note on the reserved events slice.
pub const EVENTS_RESERVED_NOTE: &'static str = "events domain descriptors reserved; use get_events for event rows";

/// Note on a market slice whose snapshot is missing.
pub const SNAPSHOT_UNAVAILABLE_NOTE: &'static str = "market snapshot unavailable";

/// How a domain's provenance slot is filled: its source, degraded flag,
/// whether it carries the request's data time, and its note. A vendor stamp
/// is never set here.
#[derive(Debug, Clone, PartialEq)]
pub struct ProvenancePlan {
    pub source: ProvenanceSource,
    pub degraded: bool,
    pub carries_data_time: bool,
    pub note: Option<String>,
}

/// The provenance plan of `domain_id`, given whether a snapshot is present,
/// the snapshot's source, and the source's own degradation.
pub open spec fn provenance_plan_of(
    domain_id: Seq<char>,
    snapshot_present: bool,
    snapshot_source: ProvenanceSource,
    source_degraded: bool,
    source_note: Option<Seq<char>>,
) -> (ProvenanceSource, bool, bool, Option<Seq<char>>) {
    if domain_id == "positioning"@ {
        (ProvenanceSource::Manual, true, false, Some(POSITIONING_PENDING_NOTE@))
    } else if domain_id == "events"@ {
        (snapshot_source, true, true, Some(EVENTS_RESERVED_NOTE@))
    } else if domain_id == "meta"@ {
        (ProvenanceSource::Live, false, true, Some("catalogVersion="@ + CATALOG_VERSION@))
    } else {
        (
            snapshot_source,
            source_degraded || !snapshot_present,
            true,
            if !snapshot_present && source_note is None {
                Some(SNAPSHOT_UNAVAILABLE_NOTE@)
            } else {
                source_note
            },
        )
    }
}

/// Provenance of one domain slice. Positioning fails closed as a manual,
/// degraded slice until a durable record overlays it; events are reserved
/// (degraded); meta is live and pins the catalog version; market domains
/// are degraded when the source is or the snapshot is missing.
pub fn domain_provenance(
    domain_id: &str,
    snapshot_present: bool,
    snapshot_source: ProvenanceSource,
    source_degraded: bool,
    source_note: Option<String>,
) -> (r: ProvenancePlan)
    ensures
        (r.source, r.degraded, r.carries_data_time, match r.note {
            Some(n) => Some(n@),
            None => None,
        }) == provenance_plan_of(
            domain_id@,
            snapshot_present,
            snapshot_source,
            source_degraded,
            match source_note {
                Some(n) => Some(n@),
                None => None,
            },
        ),
{
    let k = chars_of(domain_id);
    if eq_lit(&k, "positioning") {
        return ProvenancePlan {
            source: ProvenanceSource::Manual,
            degraded: true,
            carries_data_time: false,
            note: Some(owned(POSITIONING_PENDING_NOTE)),
        };
    }
    if eq_lit(&k, "events") {
        return ProvenancePlan {
            source: snapshot_source,
            degraded: true,
            carries_data_time: true,
            note: Some(owned(EVENTS_RESERVED_NOTE)),
        };
    }
    if eq_lit(&k, "meta") {
        let v = chars_of(CATALOG_VERSION);
        let note = join3("catalogVersion=", &v, "");
        proof {
            reveal_strlit("");
            assert(note@ =~= "catalogVersion="@ + CATALOG_VERSION@);
        }
        return ProvenancePlan {
            source: ProvenanceSource::Live,
            degraded: false,
            carries_data_time: true,
            note: Some(note),
        };
    }
    let degraded = source_degraded || !snapshot_present;
    let note = if !snapshot_present && source_note.is_none() {
        Some(owned(SNAPSHOT_UNAVAILABLE_NOTE))
    } else {
        source_note
    };
    ProvenancePlan { source: snapshot_source, degraded, carries_data_time: true, note }
}

/// Whether field `f` is read into the `domain` slice at resolution `res`
/// under the optional field filter (matched on field id or name).
pub open spec fn field_served(
    f: FieldDescriptor,
    domain: Seq<char>,
    res: StateResolution,
    filter: Option<Seq<Seq<char>>>,
) -> bool {
    &&& f.domain_id@ == domain
    &&& (f.cost_hint == CostHint::R0 || (res == StateResolution::R1 && f.cost_hint
        == CostHint::R1))
    &&& match filter {
        None => true,
        Some(l) => l.contains(f.id@) || l.contains(f.name@),
    }
}

/// The fields of `s` served into `domain`, in catalog order.
pub open spec fn served_fields(
    s: Seq<FieldDescriptor>,
    domain: Seq<char>,
    res: StateResolution,
    filter: Option<Seq<Seq<char>>>,
) -> Seq<FieldDescriptor>
    decreases s.len(),
{
    if s.len() == 0 {
        s
    } else if field_served(s.last(), domain, res, filter) {
        served_fields(s.drop_last(), domain, res, filter).push(s.last())
    } else {
        served_fields(s.drop_last(), domain, res, filter)
    }
}

/// The catalog fields whose values a state read takes from the snapshot for
/// one domain. A degraded slice with no snapshot reads none (meta excepted).
pub fn domain_fields(
    catalog: &DeskCatalog,
    domain_id: &str,
    degraded: bool,
    snapshot_present: bool,
    resolution: StateResolution,
    filter: Option<&Vec<String>>,
) -> (r: Vec<FieldDescriptor>)
    ensures
        degraded && !snapshot_present && domain_id@ != "meta"@ ==> r@.len() == 0,
        !(degraded && !snapshot_present && domain_id@ != "meta"@) ==> r@ == served_fields(
            catalog.fields@,
            domain_id@,
            resolution,
            match filter {
                Some(l) => Some(string_views(l@)),
                None => None,
            },
        ),
{
    let mut r: Vec<FieldDescriptor> = Vec::new();
    let k = chars_of(domain_id);
    if degraded && !snapshot_present && !eq_lit(&k, "meta") {
        return r;
    }
    let ghost fl = match filter {
        Some(l) => Some(string_views(l@)),
        None => None,
    };
    let n = catalog.fields.len();
    let mut i: usize = 0;
    while i < n
        invariant
            n == catalog.fields@.len(),
            i <= n,
            k@ == domain_id@,
            fl == match filter {
                Some(l) => Some(string_views(l@)),
                None => None::<Seq<Seq<char>>>,
            },
            r@ == served_fields(catalog.fields@.take(i as int), domain_id@, resolution, fl),
        decreases n - i,
    {
        let f = &catalog.fields[i];
        assert(catalog.fields@.take(i + 1).drop_last() =~= catalog.fields@.take(i as int));
        let c = chars_of(f.domain_id.as_str());
        let mut take = same_chars(&c, &k) && resolution.allows(f.cost_hint);
        if take {
            match filter {
                Some(l) => {
                    take = holds_key(l, &f.id) || holds_key(l, &f.name);
                },
                None => {},
            }
        }
        if take {
            r.push(f.clone());
        }
        i = i + 1;
    }
    assert(catalog.fields@.take(n as int) =~= catalog.fields@);
    r
}

/// How a state read fills one selected domain: its provenance plan and the
/// catalog fields it takes from the snapshot.
pub struct DomainRead {
    pub domain_id: String,
    pub plan: ProvenancePlan,
    pub fields: Vec<FieldDescriptor>,
}

/// The plan of a state read over the selected `domains`, in order: each
/// domain's provenance plan (see [`domain_provenance`]) and the fields it
/// serves (see [`domain_fields`]).
pub fn plan_domain_reads(
    catalog: &DeskCatalog,
    domains: &Vec<String>,
    snapshot_present: bool,
    snapshot_source: ProvenanceSource,
    source_degraded: bool,
    source_note: &Option<String>,
    resolution: StateResolution,
    filter: Option<&Vec<String>>,
) -> (r: Vec<DomainRead>)
    ensures
        r@.len() == domains@.len(),
        forall|i: int| 0 <= i < r@.len() ==> {
            let d = (#[trigger] r@[i]);
            let plan = provenance_plan_of(
                domains@[i]@,
                snapshot_present,
                snapshot_source,
                source_degraded,
                match *source_note {
                    Some(n) => Some(n@),
                    None => None,
                },
            );
            &&& d.domain_id@ == domains@[i]@
            &&& (d.plan.source, d.plan.degraded, d.plan.carries_data_time, match d.plan.note {
                Some(n) => Some(n@),
                None => None,
            }) == plan
            &&& (plan.1 && !snapshot_present && domains@[i]@ != "meta"@ ==> d.fields@.len() == 0)
            &&& (!(plan.1 && !snapshot_present && domains@[i]@ != "meta"@) ==> d.fields@ == served_fields(
                catalog.fields@,
                domains@[i]@,
                resolution,
                match filter {
                    Some(l) => Some(string_views(l@)),
                    None => None,
                },
            ))
        },
{
    let mut r: Vec<DomainRead> = Vec::new();
    let n = domains.len();
    let mut i: usize = 0;
    while i < n
        invariant
            n == domains@.len(),
            i <= n,
            r@.len() == i,
            forall|j: int| 0 <= j < r@.len() ==> {
                let d = (#[trigger] r@[j]);
                let plan = provenance_plan_of(
                    domains@[j]@,
                    snapshot_present,
                    snapshot_source,
                    source_degraded,
                    match *source_note {
                        Some(n) => Some(n@),
                        None => None,
                    },
                );
                &&& d.domain_id@ == domains@[j]@
                &&& (d.plan.source, d.plan.degraded, d.plan.carries_data_time, match d.plan.note {
                    Some(n) => Some(n@),
                    None => None,
                }) == plan
                &&& (plan.1 && !snapshot_present && domains@[j]@ != "meta"@ ==> d.fields@.len() == 0)
                &&& (!(plan.1 && !snapshot_present && domains@[j]@ != "meta"@) ==> d.fields@
                    == served_fields(
                    catalog.fields@,
                    domains@[j]@,
                    resolution,
                    match filter {
                        Some(l) => Some(string_views(l@)),
                        None => None,
                    },
                ))
            },
        decreases n - i,
    {
        let id = domains[i].as_str();
        let note = match source_note {
            Some(s) => Some(owned(s.as_str())),
            None => None,
        };
        let plan = domain_provenance(id, snapshot_present, snapshot_source, source_degraded, note);
        let fields = domain_fields(catalog, id, plan.degraded, snapshot_present, resolution, filter);
        let ghost before = r@;
        r.push(DomainRead { domain_id: owned(id), plan, fields });
        proof {
            assert forall|j: int| 0 <= j < before.len() implies r@[j] == before[j] by {}
        }
        i = i + 1;
    }
    r
}

/// Whether a state read over `domains` pins the catalog version (meta is
/// among them).
pub fn pins_catalog_version(domains: &Vec<String>) -> (r: bool)
    ensures
        r == string_views(domains@).contains("meta"@),
{
    crate::text::key_in_strings(domains, "meta")
}

/// The fixed tags of a state envelope: the catalog's version and Trust
/// Ceiling, and the Trust Level of the read kernel (L0).
pub struct EnvelopeHeader {
    pub catalog_version: String,
    pub trust_ceiling: TrustCeiling,
    pub trust_level: TrustLevel,
}

/// The fixed tags of a state envelope built over `catalog`.
pub fn envelope_header(catalog: &DeskCatalog) -> (r: EnvelopeHeader)
    ensures
        r.catalog_version@ == catalog.catalog_version@,
        r.trust_ceiling == catalog.trust_ceiling,
        r.trust_level == TrustLevel::L0,
{
    EnvelopeHeader {
        catalog_version: owned(catalog.catalog_version.as_str()),
        trust_ceiling: catalog.trust_ceiling,
        trust_level: TrustLevel::L0,
    }
}

/// Key of a per-root entry in a multi-symbol envelope: a domain key
/// (provenance, degraded flag) or a value key (catalog field id).
pub open spec fn merged_key(root: Seq<char>, key: Seq<char>, domains: bool) -> Seq<char> {
    if domains {
        merged_domain_key(root, key)
    } else {
        merged_value_key(root, key)
    }
}

/// The entries of one root, as (merged key, (root position, entry position)).
pub open spec fn root_entries(root: Seq<char>, ri: int, keys: Seq<Seq<char>>, domains: bool) -> Seq<(Seq<char>, (int, int))> {
    Seq::new(keys.len(), |j: int| (merged_key(root, keys[j], domains), (ri, j)))
}

/// Every root's entries, roots in order.
pub open spec fn merge_entries(roots: Seq<Seq<char>>, keys: Seq<Seq<Seq<char>>>, domains: bool) -> Seq<(Seq<char>, (int, int))>
    decreases roots.len(),
{
    if roots.len() == 0 {
        Seq::empty()
    } else {
        merge_entries(roots.drop_last(), keys, domains) + root_entries(
            roots.last(),
            roots.len() - 1,
            keys[roots.len() - 1],
            domains,
        )
    }
}

/// The sources of merged key `k`, in entry order.
pub open spec fn sources_of(entries: Seq<(Seq<char>, (int, int))>, k: Seq<char>) -> Seq<(int, int)>
    decreases entries.len(),
{
    if entries.len() == 0 {
        Seq::empty()
    } else if entries.last().0 == k {
        sources_of(entries.drop_last(), k).push(entries.last().1)
    } else {
        sources_of(entries.drop_last(), k)
    }
}

/// The distinct merged keys, in order of first appearance.
pub open spec fn key_order(entries: Seq<(Seq<char>, (int, int))>) -> Seq<Seq<char>>
    decreases entries.len(),
{
    if entries.len() == 0 {
        Seq::empty()
    } else if key_order(entries.drop_last()).contains(entries.last().0) {
        key_order(entries.drop_last())
    } else {
        key_order(entries.drop_last()).push(entries.last().0)
    }
}

/// One merged key and where its entries come from: (root position, entry
/// position within that root), in root order then entry order.
pub struct MergeGroup {
    pub key: String,
    pub sources: Vec<(usize, usize)>,
}

/// The keys of a list of groups.
pub open spec fn group_keys(groups: Seq<MergeGroup>) -> Seq<Seq<char>> {
    groups.map_values(|g: MergeGroup| g.key@)
}

pub open spec fn source_ints(v: Seq<(usize, usize)>) -> Seq<(int, int)> {
    v.map_values(|p: (usize, usize)| (p.0 as int, p.1 as int))
}

/// `groups` lists each merged key of `entries` once, in order of first
/// appearance, with all its sources.
pub open spec fn groups_match(groups: Seq<MergeGroup>, entries: Seq<(Seq<char>, (int, int))>) -> bool {
    &&& group_keys(groups) == key_order(entries)
    &&& forall|i: int| 0 <= i < groups.len() ==> source_ints((#[trigger] groups[i]).sources@) == sources_of(
        entries,
        groups[i].key@,
    )
}

proof fn lemma_key_order_no_sources(entries: Seq<(Seq<char>, (int, int))>, k: Seq<char>)
    requires
        !key_order(entries).contains(k),
    ensures
        sources_of(entries, k) == Seq::<(int, int)>::empty(),
    decreases entries.len(),
{
    if entries.len() > 0 {
        let prev = key_order(entries.drop_last());
        if !prev.contains(entries.last().0) {
            assert(key_order(entries) == prev.push(entries.last().0));
            assert(key_order(entries)[prev.len() as int] == entries.last().0);
            if prev.contains(k) {
                let j = choose|j: int| 0 <= j < prev.len() && prev[j] == k;
                assert(key_order(entries)[j] == k);
            }
        }
        lemma_key_order_no_sources(entries.drop_last(), k);
    }
}

proof fn lemma_key_order_distinct(entries: Seq<(Seq<char>, (int, int))>)
    ensures
        key_order(entries).no_duplicates(),
    decreases entries.len(),
{
    if entries.len() > 0 {
        lemma_key_order_distinct(entries.drop_last());
    }
}

proof fn lemma_push_source(
    before: Seq<MergeGroup>,
    after: Seq<MergeGroup>,
    entries: Seq<(Seq<char>, (int, int))>,
    i: int,
    k: Seq<char>,
    src: (int, int),
)
    requires
        groups_match(before, entries),
        0 <= i < before.len(),
        before[i].key@ == k,
        after.len() == before.len(),
        forall|j: int| 0 <= j < before.len() && j != i ==> after[j] == before[j],
        after[i].key@ == k,
        source_ints(after[i].sources@) == source_ints(before[i].sources@).push(src),
    ensures
        groups_match(after, entries.push((k, src))),
{
    let e2 = entries.push((k, src));
    assert(e2.drop_last() =~= entries);
    lemma_key_order_distinct(entries);
    assert(group_keys(before)[i] == k);
    assert(key_order(entries).contains(k));
    assert(group_keys(after) =~= group_keys(before));
    assert forall|j: int| 0 <= j < after.len() implies source_ints((#[trigger] after[j]).sources@)
        == sources_of(e2, after[j].key@) by {
        if j != i {
            assert(group_keys(before)[j] == before[j].key@);
            assert(before[j].key@ != k);
            assert(source_ints(before[j].sources@) == sources_of(entries, before[j].key@));
        } else {
            assert(source_ints(before[i].sources@) == sources_of(entries, k));
        }
    }
}

fn group_position(groups: &Vec<MergeGroup>, k: &Vec<char>) -> (r: Option<usize>)
    ensures
        match r {
            Some(i) => i < groups@.len() && groups@[i as int].key@ == k@,
            None => !group_keys(groups@).contains(k@),
        },
{
    let n = groups.len();
    let mut i: usize = 0;
    while i < n
        invariant
            n == groups@.len(),
            i <= n,
            forall|j: int| 0 <= j < i ==> (#[trigger] groups@[j]).key@ != k@,
        decreases n - i,
    {
        let c = chars_of(groups[i].key.as_str());
        if same_chars(&c, k) {
            return Some(i);
        }
        i = i + 1;
    }
    assert forall|j: int| 0 <= j < groups@.len() implies #[trigger] group_keys(groups@)[j] != k@ by {
        assert(groups@[j].key@ != k@);
    }
    None
}

fn add_entry(groups: &mut Vec<MergeGroup>, k: String, src: (usize, usize), Ghost(entries): Ghost<Seq<(Seq<char>, (int, int))>>)
    requires
        groups_match(old(groups)@, entries),
    ensures
        groups_match(final(groups)@, entries.push((k@, (src.0 as int, src.1 as int)))),
{
    let ghost e2 = entries.push((k@, (src.0 as int, src.1 as int)));
    assert(e2.drop_last() =~= entries);
    let kc = chars_of(k.as_str());
    match group_position(groups, &kc) {
        Some(i) => {
            let ghost before = groups@;
            let mut g = groups.remove(i);
            let ghost old_g = g;
            g.sources.push(src);
            groups.insert(i, g);
            proof {
                assert(old_g == before[i as int]);
                assert(source_ints(groups@[i as int].sources@) =~= source_ints(old_g.sources@).push(
                    (src.0 as int, src.1 as int),
                ));
                assert forall|j: int| 0 <= j < before.len() && j != i implies groups@[j] == before[j] by {
                    if j < i {
                        assert(groups@[j] == before[j]);
                    } else {
                        assert(groups@[j] == before[j]);
                    }
                }
                lemma_push_source(before, groups@, entries, i as int, k@, (src.0 as int, src.1 as int));
            }
        },
        None => {
            let ghost before = groups@;
            let mut sources: Vec<(usize, usize)> = Vec::new();
            sources.push(src);
            groups.push(MergeGroup { key: k, sources });
            proof {
                assert(!key_order(entries).contains(kc@));
                assert(key_order(e2) == key_order(entries).push(kc@));
                assert(group_keys(groups@) =~= group_keys(before).push(kc@));
                lemma_key_order_no_sources(entries, kc@);
                assert forall|j: int| 0 <= j < groups@.len() implies source_ints(
                    (#[trigger] groups@[j]).sources@,
                ) == sources_of(e2, groups@[j].key@) by {
                    if j < before.len() {
                        assert(groups@[j] == before[j]);
                        assert(group_keys(before)[j] == before[j].key@);
                        assert(before[j].key@ != kc@);
                    } else {
                        assert(source_ints(groups@[j].sources@) =~= seq![(src.0 as int, src.1 as int)]);
                    }
                }
            }
        },
    }
}

/// Group the entries of several per-root envelopes by their multi-symbol
/// key (see [`merged_key`]): each key once, in order of first appearance,
/// with every (root, entry) position it comes from. `keys[i]` lists root
/// `roots[i]`'s keys in key order.
pub fn merge_groups(roots: &Vec<String>, keys: &Vec<Vec<String>>, domains: bool) -> (r: Vec<MergeGroup>)
    requires
        roots@.len() == keys@.len(),
    ensures
        groups_match(
            r@,
            merge_entries(
                string_views(roots@),
                keys@.map_values(|v: Vec<String>| string_views(v@)),
                domains,
            ),
        ),
{
    let ghost rv = string_views(roots@);
    let ghost kv = keys@.map_values(|v: Vec<String>| string_views(v@));
    let mut groups: Vec<MergeGroup> = Vec::new();
    proof {
        assert(groups_match(groups@, Seq::empty())) by {
            assert(group_keys(groups@) =~= Seq::<Seq<char>>::empty());
        }
    }
    let n = roots.len();
    let mut i: usize = 0;
    while i < n
        invariant
            n == roots@.len(),
            n == keys@.len(),
            i <= n,
            rv == string_views(roots@),
            kv == keys@.map_values(|v: Vec<String>| string_views(v@)),
            groups_match(groups@, merge_entries(rv.take(i as int), kv, domains)),
        decreases n - i,
    {
        let ghost base = merge_entries(rv.take(i as int), kv, domains);
        let ghost mine = root_entries(rv[i as int], i as int, kv[i as int], domains);
        let m = keys[i].len();
        let mut j: usize = 0;
        proof {
            assert(base + mine.take(0) =~= base);
        }
        while j < m
            invariant
                n == roots@.len(),
                n == keys@.len(),
                i < n,
                j <= m,
                m == keys@[i as int]@.len(),
                rv == string_views(roots@),
                kv == keys@.map_values(|v: Vec<String>| string_views(v@)),
                mine == root_entries(rv[i as int], i as int, kv[i as int], domains),
                groups_match(groups@, base + mine.take(j as int)),
            decreases m - j,
        {
            let key = if domains {
                merged_domain_key_of(roots[i].as_str(), keys[i][j].as_str())
            } else {
                merged_value_key_of(roots[i].as_str(), keys[i][j].as_str())
            };
            proof {
                assert(kv[i as int] == string_views(keys@[i as int]@));
                assert(kv[i as int][j as int] == keys@[i as int]@[j as int]@);
                assert(rv[i as int] == roots@[i as int]@);
                assert(mine[j as int] == (key@, (i as int, j as int)));
                assert(base + mine.take(j + 1) =~= (base + mine.take(j as int)).push(mine[j as int]));
            }
            add_entry(&mut groups, key, (i, j), Ghost(base + mine.take(j as int)));
            j = j + 1;
        }
        proof {
            assert(mine.len() == m);
            assert(mine.take(m as int) =~= mine);
            assert(rv.take(i + 1).drop_last() =~= rv.take(i as int));
            assert(rv.take(i + 1).last() == rv[i as int]);
        }
        i = i + 1;
    }
    assert(rv.take(n as int) =~= rv);
    groups
}

/// Two symbol-scoped keys of roots without dots are equal only for the same
/// root and the same key: NQ and ES values and domains coexist.
pub proof fn lemma_scoped_keys_distinct(r1: Seq<char>, k1: Seq<char>, r2: Seq<char>, k2: Seq<char>)
    requires
        !r1.contains('.'),
        !r2.contains('.'),
        r1 + "."@ + k1 == r2 + "."@ + k2,
    ensures
        r1 == r2,
        k1 == k2,
{
    reveal_strlit(".");
    let a = r1 + "."@ + k1;
    if r1.len() < r2.len() {
        assert(a[r1.len() as int] == '.');
        assert(a[r1.len() as int] == r2[r1.len() as int]);
        assert(r2.contains('.'));
    } else if r2.len() < r1.len() {
        assert(a[r2.len() as int] == '.');
        assert(a[r2.len() as int] == r1[r2.len() as int]);
        assert(r1.contains('.'));
    }
    assert(r1 =~= a.subrange(0, r1.len() as int));
    assert(r2 =~= a.subrange(0, r2.len() as int));
    assert(k1 =~= a.subrange(r1.len() as int + 1, a.len() as int));
    assert(k2 =~= a.subrange(r2.len() as int + 1, a.len() as int));
}

/// The merged degraded flag of a domain key: a symbol-scoped key keeps its
/// one root's flag (the last written); an unscoped key (positioning, events,
/// meta) is degraded when any root's is.
pub open spec fn merged_flag(flags: Seq<Seq<bool>>, sources: Seq<(int, int)>, scoped: bool) -> bool {
    if scoped {
        sources.len() > 0 && flags[sources.last().0][sources.last().1]
    } else {
        exists|j: int| 0 <= j < sources.len() && flags[(#[trigger] sources[j]).0][sources[j].1]
    }
}

/// Merge per-root degraded flags into a multi-symbol envelope's flags, keyed
/// as [`merged_domain_key`] keys them, in order of first appearance.
/// `domains[i]` and `flags[i]` are root `roots[i]`'s degraded map.
pub fn merge_degraded(roots: &Vec<String>, domains: &Vec<Vec<String>>, flags: &Vec<Vec<bool>>) -> (r: Vec<(String, bool)>)
    requires
        roots@.len() == domains@.len(),
        roots@.len() == flags@.len(),
        forall|i: int| 0 <= i < roots@.len() ==> (#[trigger] domains@[i])@.len() == flags@[i]@.len(),
    ensures
        ({
            let entries = merge_entries(
                string_views(roots@),
                domains@.map_values(|v: Vec<String>| string_views(v@)),
                true,
            );
            let fl = flags@.map_values(|v: Vec<bool>| v@);
            &&& r@.map_values(|p: (String, bool)| p.0@) == key_order(entries)
            &&& forall|i: int| 0 <= i < r@.len() ==> (#[trigger] r@[i]).1 == merged_flag(
                fl,
                sources_of(entries, r@[i].0@),
                !unscoped_domain(r@[i].0@),
            )
        }),
{
    let groups = merge_groups(roots, domains, true);
    let ghost entries = merge_entries(
        string_views(roots@),
        domains@.map_values(|v: Vec<String>| string_views(v@)),
        true,
    );
    let ghost fl = flags@.map_values(|v: Vec<bool>| v@);
    proof {
        lemma_sources_in_range(string_views(roots@), domains@.map_values(|v: Vec<String>| string_views(v@)), true);
    }
    let mut r: Vec<(String, bool)> = Vec::new();
    let n = groups.len();
    let mut i: usize = 0;
    while i < n
        invariant
            n == groups@.len(),
            i <= n,
            groups_match(groups@, entries),
            roots@.len() == domains@.len(),
            roots@.len() == flags@.len(),
            forall|x: int| 0 <= x < roots@.len() ==> (#[trigger] domains@[x])@.len() == flags@[x]@.len(),
            fl == flags@.map_values(|v: Vec<bool>| v@),
            entries == merge_entries(
                string_views(roots@),
                domains@.map_values(|v: Vec<String>| string_views(v@)),
                true,
            ),
            forall|e: int| 0 <= e < entries.len() ==> 0 <= (#[trigger] entries[e]).1.0 < roots@.len()
                && 0 <= entries[e].1.1 < domains@[entries[e].1.0]@.len(),
            r@.map_values(|p: (String, bool)| p.0@) == group_keys(groups@).take(i as int),
            forall|x: int| 0 <= x < r@.len() ==> (#[trigger] r@[x]).1 == merged_flag(
                fl,
                sources_of(entries, r@[x].0@),
                !unscoped_domain(r@[x].0@),
            ),
        decreases n - i,
    {
        let g = &groups[i];
        let ghost srcs = source_ints(g.sources@);
        assert(srcs == sources_of(entries, g.key@));
        proof {
            lemma_sources_are_entries(entries, g.key@);
        }
        let scoped = is_symbol_scoped_domain(g.key.as_str());
        let m = g.sources.len();
        let mut flag = false;
        if scoped {
            if m > 0 {
                let (a, b) = g.sources[m - 1];
                assert(srcs[m - 1] == (a as int, b as int));
                assert(fl[a as int] == flags@[a as int]@);
                flag = flags[a][b];
            }
        } else {
            let mut j: usize = 0;
            while j < m
                invariant
                    m == g.sources@.len(),
                    j <= m,
                    srcs == source_ints(g.sources@),
                    fl == flags@.map_values(|v: Vec<bool>| v@),
                    roots@.len() == flags@.len(),
                    forall|x: int| 0 <= x < roots@.len() ==> (#[trigger] domains@[x])@.len() == flags@[x]@.len(),
                    forall|q: int| 0 <= q < srcs.len() ==> 0 <= (#[trigger] srcs[q]).0 < roots@.len()
                        && 0 <= srcs[q].1 < domains@[srcs[q].0]@.len(),
                    flag == exists|q: int| 0 <= q < j && fl[(#[trigger] srcs[q]).0][srcs[q].1],
                decreases m - j,
            {
                let (a, b) = g.sources[j];
                assert(srcs[j as int] == (a as int, b as int));
                assert(fl[a as int] == flags@[a as int]@);
                let f = flags[a][b];
                flag = flag || f;
                j = j + 1;
            }
        }
        let ghost before = r@;
        r.push((owned(g.key.as_str()), flag));
        proof {
            assert(r@.map_values(|p: (String, bool)| p.0@) =~= before.map_values(|p: (String, bool)| p.0@).push(g.key@));
            assert(group_keys(groups@).take(i + 1) =~= group_keys(groups@).take(i as int).push(g.key@));
        }
        i = i + 1;
    }
    assert(group_keys(groups@).take(n as int) =~= group_keys(groups@));
    r
}

/// Every entry of the merged list points at an existing per-root entry.
proof fn lemma_sources_in_range(roots: Seq<Seq<char>>, keys: Seq<Seq<Seq<char>>>, domains: bool)
    requires
        roots.len() <= keys.len(),
    ensures
        forall|e: int| 0 <= e < merge_entries(roots, keys, domains).len() ==> 0 <= (#[trigger] merge_entries(
            roots,
            keys,
            domains,
        )[e]).1.0 < roots.len() && 0 <= merge_entries(roots, keys, domains)[e].1.1 < keys[merge_entries(
            roots,
            keys,
            domains,
        )[e].1.0].len(),
    decreases roots.len(),
{
    if roots.len() > 0 {
        lemma_sources_in_range(roots.drop_last(), keys, domains);
        let prev = merge_entries(roots.drop_last(), keys, domains);
        let mine = root_entries(roots.last(), roots.len() - 1, keys[roots.len() - 1], domains);
        assert forall|e: int| 0 <= e < merge_entries(roots, keys, domains).len() implies 0 <= (
        #[trigger] merge_entries(roots, keys, domains)[e]).1.0 < roots.len() && 0 <= merge_entries(
            roots,
            keys,
            domains,
        )[e].1.1 < keys[merge_entries(roots, keys, domains)[e].1.0].len() by {
            if e < prev.len() {
                assert(merge_entries(roots, keys, domains)[e] == prev[e]);
            } else {
                assert(merge_entries(roots, keys, domains)[e] == mine[e - prev.len()]);
            }
        }
    }
}

/// Every source of a merged key is the position of one of the entries.
proof fn lemma_sources_are_entries(entries: Seq<(Seq<char>, (int, int))>, k: Seq<char>)
    ensures
        forall|q: int| 0 <= q < sources_of(entries, k).len() ==> exists|e: int| 0 <= e < entries.len()
            && (#[trigger] entries[e]).1 == #[trigger] sources_of(entries, k)[q],
    decreases entries.len(),
{
    if entries.len() > 0 {
        lemma_sources_are_entries(entries.drop_last(), k);
        let prev = sources_of(entries.drop_last(), k);
        assert forall|q: int| 0 <= q < sources_of(entries, k).len() implies exists|e: int| 0 <= e < entries.len()
            && (#[trigger] entries[e]).1 == #[trigger] sources_of(entries, k)[q] by {
            if q < prev.len() {
                let e = choose|e: int| 0 <= e < entries.drop_last().len() && (#[trigger] entries.drop_last()[e]).1 == prev[q];
                assert(entries[e] == entries.drop_last()[e]);
            } else {
                assert(entries[entries.len() - 1].1 == sources_of(entries, k)[q]);
            }
        }
    }
}

/// A key that occurs among the entries has at least one source.
proof fn lemma_key_order_has_sources(entries: Seq<(Seq<char>, (int, int))>, k: Seq<char>)
    requires
        key_order(entries).contains(k),
    ensures
        sources_of(entries, k).len() > 0,
    decreases entries.len(),
{
    if entries.len() > 0 && entries.last().0 != k {
        let prev = key_order(entries.drop_last());
        if !prev.contains(k) {
            if !prev.contains(entries.last().0) {
                let j = choose|j: int| 0 <= j < key_order(entries).len() && key_order(entries)[j] == k;
                assert(key_order(entries) == prev.push(entries.last().0));
                if j < prev.len() {
                    assert(prev[j] == k);
                }
            }
        } else {
            lemma_key_order_has_sources(entries.drop_last(), k);
        }
    }
}

/// The source a merged key takes its value from: the last (a root's own
/// symbol-scoped slice, written last-wins) or the first (everything else,
/// first-wins).
pub open spec fn picked_source(srcs: Seq<(int, int)>, take_last: bool) -> (int, int) {
    if take_last {
        srcs.last()
    } else {
        srcs[0]
    }
}

/// For each merged key of several per-root envelopes, in order of first
/// appearance, the (root position, entry position) its value is taken from.
/// Value keys take the first root's value. Domain keys (`domains`) take the
/// last source for a symbol-scoped key and the first for a shared one
/// (positioning, events, meta).
pub fn merge_picks(roots: &Vec<String>, keys: &Vec<Vec<String>>, domains: bool) -> (r: Vec<(String, (usize, usize))>)
    requires
        roots@.len() == keys@.len(),
    ensures
        ({
            let entries = merge_entries(
                string_views(roots@),
                keys@.map_values(|v: Vec<String>| string_views(v@)),
                domains,
            );
            &&& r@.map_values(|p: (String, (usize, usize))| p.0@) == key_order(entries)
            &&& forall|i: int| 0 <= i < r@.len() ==> sources_of(entries, (#[trigger] r@[i]).0@).len() > 0
                && ((r@[i].1).0 as int, (r@[i].1).1 as int) == picked_source(
                sources_of(entries, r@[i].0@),
                domains && !unscoped_domain(r@[i].0@),
            )
        }),
{
    let groups = merge_groups(roots, keys, domains);
    let ghost entries = merge_entries(
        string_views(roots@),
        keys@.map_values(|v: Vec<String>| string_views(v@)),
        domains,
    );
    let mut r: Vec<(String, (usize, usize))> = Vec::new();
    let n = groups.len();
    let mut i: usize = 0;
    while i < n
        invariant
            n == groups@.len(),
            i <= n,
            groups_match(groups@, entries),
            r@.map_values(|p: (String, (usize, usize))| p.0@) == group_keys(groups@).take(i as int),
            forall|x: int| 0 <= x < r@.len() ==> sources_of(entries, (#[trigger] r@[x]).0@).len() > 0
                && ((r@[x].1).0 as int, (r@[x].1).1 as int) == picked_source(
                sources_of(entries, r@[x].0@),
                domains && !unscoped_domain(r@[x].0@),
            ),
        decreases n - i,
    {
        let g = &groups[i];
        let ghost srcs = source_ints(g.sources@);
        assert(srcs == sources_of(entries, g.key@));
        proof {
            assert(group_keys(groups@)[i as int] == g.key@);
            assert(key_order(entries).contains(g.key@));
            lemma_key_order_has_sources(entries, g.key@);
        }
        let m = g.sources.len();
        let take_last = domains && is_symbol_scoped_domain(g.key.as_str());
        let pick = if take_last {
            g.sources[m - 1]
        } else {
            g.sources[0]
        };
        assert(srcs[m - 1] == ((g.sources@[m - 1]).0 as int, (g.sources@[m - 1]).1 as int));
        assert(srcs[0] == ((g.sources@[0]).0 as int, (g.sources@[0]).1 as int));
        let ghost before = r@;
        r.push((owned(g.key.as_str()), pick));
        proof {
            assert(r@.map_values(|p: (String, (usize, usize))| p.0@) =~= before.map_values(
                |p: (String, (usize, usize))| p.0@,
            ).push(g.key@));
            assert(group_keys(groups@).take(i + 1) =~= group_keys(groups@).take(i as int).push(g.key@));
            assert(r@[r@.len() - 1].0@ == g.key@);
        }
        i = i + 1;
    }
    assert(group_keys(groups@).take(n as int) =~= group_keys(groups@));
    r
}

/// The merged truncation flag: truncated when any root was; otherwise not
/// truncated when some root reported it was not; otherwise unknown.
pub fn merge_truncated(flags: &Vec<Option<bool>>) -> (r: Option<bool>)
    ensures
        r == if flags@.contains(Some(true)) {
            Some(true)
        } else if flags@.contains(Some(false)) {
            Some(false)
        } else {
            None::<bool>
        },
{
    let mut any_true = false;
    let mut any_false = false;
    let n = flags.len();
    let mut i: usize = 0;
    while i < n
        invariant
            n == flags@.len(),
            i <= n,
            any_true == flags@.take(i as int).contains(Some(true)),
            any_false == flags@.take(i as int).contains(Some(false)),
        decreases n - i,
    {
        assert(flags@.take(i + 1) =~= flags@.take(i as int).push(flags@[i as int]));
        proof {
            crate::text::lemma_push_contains(flags@.take(i as int), flags@[i as int], Some(true));
            crate::text::lemma_push_contains(flags@.take(i as int), flags@[i as int], Some(false));
        }
        match flags[i] {
            Some(true) => {
                any_true = true;
            },
            Some(false) => {
                any_false = true;
            },
            None => {},
        }
        i = i + 1;
    }
    assert(flags@.take(n as int) =~= flags@);
    if any_true {
        Some(true)
    } else if any_false {
        Some(false)
    } else {
        None
    }
}

/// A value key of the primary (NQ) root.
pub open spec fn primary_key(k: Seq<char>) -> bool {
    crate::text::starts_with(k, "NQ."@)
}

/// `a` may be dropped before `b` under token-budget pressure: keys of other
/// roots go before NQ keys, and within each group later keys go first.
pub open spec fn drops_before(a: Seq<char>, b: Seq<char>) -> bool {
    (!primary_key(a) && primary_key(b)) || (primary_key(a) == primary_key(b) && !lex_lt(a, b))
}

/// Order in which values leave an envelope that is over its token budget:
/// the same keys, every key of another root before every NQ key (so the
/// coaching primary is kept longest), and in reverse key order within each.
pub fn budget_drop_order(ids: Vec<String>) -> (r: Vec<String>)
    ensures
        r@.to_multiset() == ids@.to_multiset(),
        forall|i: int, j: int| 0 <= i < j < r@.len() ==> drops_before(#[trigger] r@[i]@, #[trigger] r@[j]@),
{
    broadcast use vstd::seq_lib::group_to_multiset_ensures;
    broadcast use vstd::multiset::group_multiset_axioms;

    let ghost all = ids@.to_multiset();
    let mut asc = sort_by_id(ids);
    let prefix = chars_of("NQ.");
    let mut others: Vec<String> = Vec::new();
    let mut primary: Vec<String> = Vec::new();
    proof {
        assert(others@.to_multiset() =~= vstd::multiset::Multiset::<String>::empty());
        assert(primary@.to_multiset() =~= vstd::multiset::Multiset::<String>::empty());
    }
    while asc.len() > 0
        invariant
            prefix@ == "NQ."@,
            crate::sorting::sorted_by_id(asc@),
            asc@.to_multiset().add(others@.to_multiset()).add(primary@.to_multiset()) == all,
            forall|i: int, j: int| 0 <= i < j < others@.len() ==> !lex_lt(#[trigger] others@[i]@, #[trigger] others@[j]@),
            forall|i: int, j: int| 0 <= i < j < primary@.len() ==> !lex_lt(#[trigger] primary@[i]@, #[trigger] primary@[j]@),
            forall|i: int| 0 <= i < others@.len() ==> !primary_key(#[trigger] others@[i]@),
            forall|i: int| 0 <= i < primary@.len() ==> primary_key(#[trigger] primary@[i]@),
            forall|i: int, j: int| 0 <= i < asc@.len() && 0 <= j < others@.len() ==> !lex_lt(#[trigger] others@[j]@, #[trigger] asc@[i]@),
            forall|i: int, j: int| 0 <= i < asc@.len() && 0 <= j < primary@.len() ==> !lex_lt(#[trigger] primary@[j]@, #[trigger] asc@[i]@),
        decreases asc@.len(),
    {
        let ghost before_asc = asc@;
        let ghost before_o = others@;
        let ghost before_p = primary@;
        let x = asc.pop().unwrap();
        assert(before_asc =~= asc@.push(x));
        proof {
            vstd::seq_lib::to_multiset_build(asc@, x);
            assert forall|i: int| 0 <= i < asc@.len() implies !lex_lt(#[trigger] x@, asc@[i]@) by {
                assert(before_asc[i] == asc@[i]);
                assert(before_asc[before_asc.len() - 1] == x);
                assert(!lex_lt(
                    crate::sorting::IdKeyed::id_key(&before_asc[before_asc.len() - 1]),
                    crate::sorting::IdKeyed::id_key(&before_asc[i]),
                ));
            }
        }
        let k = chars_of(x.as_str());
        if crate::text::starts_with_exec(&k, &prefix) {
            primary.push(x);
            proof {
                vstd::seq_lib::to_multiset_build(before_p, x);
                assert forall|i: int, j: int| 0 <= i < asc@.len() && 0 <= j < primary@.len() implies !lex_lt(
                    #[trigger] primary@[j]@,
                    #[trigger] asc@[i]@,
                ) by {
                    assert(before_asc[i] == asc@[i]);
                    if j < before_p.len() {
                        assert(primary@[j] == before_p[j]);
                    }
                }
                assert forall|i: int, j: int| 0 <= i < j < primary@.len() implies !lex_lt(
                    #[trigger] primary@[i]@,
                    #[trigger] primary@[j]@,
                ) by {
                    if j == before_p.len() {
                        assert(primary@[i] == before_p[i]);
                        assert(before_asc[before_asc.len() - 1] == x);
                    }
                }
                assert forall|i: int, j: int| 0 <= i < asc@.len() && 0 <= j < others@.len() implies !lex_lt(
                    #[trigger] others@[j]@,
                    #[trigger] asc@[i]@,
                ) by {
                    assert(before_asc[i] == asc@[i]);
                }
            }
        } else {
            others.push(x);
            proof {
                vstd::seq_lib::to_multiset_build(before_o, x);
                assert forall|i: int, j: int| 0 <= i < asc@.len() && 0 <= j < others@.len() implies !lex_lt(
                    #[trigger] others@[j]@,
                    #[trigger] asc@[i]@,
                ) by {
                    assert(before_asc[i] == asc@[i]);
                    if j < before_o.len() {
                        assert(others@[j] == before_o[j]);
                    }
                }
                assert forall|i: int, j: int| 0 <= i < j < others@.len() implies !lex_lt(
                    #[trigger] others@[i]@,
                    #[trigger] others@[j]@,
                ) by {
                    if j == before_o.len() {
                        assert(others@[i] == before_o[i]);
                        assert(before_asc[before_asc.len() - 1] == x);
                    }
                }
                assert forall|i: int, j: int| 0 <= i < asc@.len() && 0 <= j < primary@.len() implies !lex_lt(
                    #[trigger] primary@[j]@,
                    #[trigger] asc@[i]@,
                ) by {
                    assert(before_asc[i] == asc@[i]);
                }
            }
        }
        proof {
            assert(asc@.to_multiset().add(others@.to_multiset()).add(primary@.to_multiset()) =~= all);
        }
    }
    let ghost o = others@;
    let ghost p = primary@;
    let mut r = others;
    let mut pr = primary;
    r.append(&mut pr);
    proof {
        assert(asc@.to_multiset() =~= vstd::multiset::Multiset::<String>::empty());
        vstd::seq_lib::lemma_multiset_commutative(o, p);
        assert(r@ == o + p);
        assert forall|i: int, j: int| 0 <= i < j < r@.len() implies drops_before(#[trigger] r@[i]@, #[trigger] r@[j]@) by {
            if j < o.len() {
                assert(r@[i] == o[i] && r@[j] == o[j]);
            } else if i < o.len() {
                assert(r@[i] == o[i] && r@[j] == p[j - o.len()]);
            } else {
                assert(r@[i] == p[i - o.len()] && r@[j] == p[j - o.len()]);
            }
        }
    }
    r
}

/// A state read serves only admitted fields: every field served into a
/// domain is a catalog field of that domain, within the resolution's cost
/// band, and named (by id or name) in the field filter when one is given.
pub proof fn lemma_served_fields_admitted(
    s: Seq<FieldDescriptor>,
    domain: Seq<char>,
    res: StateResolution,
    filter: Option<Seq<Seq<char>>>,
)
    ensures
        forall|j: int| 0 <= j < served_fields(s, domain, res, filter).len() ==> field_served(
            #[trigger] served_fields(s, domain, res, filter)[j],
            domain,
            res,
            filter,
        ) && s.contains(served_fields(s, domain, res, filter)[j]),
    decreases s.len(),
{
    if s.len() > 0 {
        let init = s.drop_last();
        lemma_served_fields_admitted(init, domain, res, filter);
        let prev = served_fields(init, domain, res, filter);
        let cur = served_fields(s, domain, res, filter);
        assert forall|j: int| 0 <= j < cur.len() implies field_served(#[trigger] cur[j], domain, res, filter)
            && s.contains(cur[j]) by {
            if j < prev.len() {
                assert(cur[j] == prev[j]);
                let k = choose|k: int| 0 <= k < init.len() && init[k] == prev[j];
                assert(s[k] == init[k]);
            } else {
                assert(cur[j] == s.last());
                assert(s[s.len() - 1] == s.last());
            }
        }
    }
}

} // verus!
