//! Markdown summary of the Desk Catalog: domains with their field tables,
//! Positioning record kinds, the specialty-tool allowlist, and the shipped
//! Base Detectors.

use vstd::prelude::*;

use crate::feature_registry::{promotion_label, FeatureDescriptor};
use crate::text::{chars_of, push_chars, push_str_chars, same_chars, string_from, string_views};
use crate::types::{
    CostHint, DeskCatalog, DomainDescriptor, FieldDescriptor, FreshnessSemantics,
    PositioningRecordKind, SessionScope, Unit,
};

verus! {

/// The catalog-level lines under the banner.
pub const MARKDOWN_TRUST_LINE: &'static str = "- **Trust Ceiling:** L3 (ADR-022)\n";

/// The Positioning provider line.
pub const MARKDOWN_PROVIDER_LINE: &'static str = "- **Positioning provider:** none (no Vs3dProvider). Levels-Only Records are first-class via `positioning_entry` (manual/as-of).\n\n";

/// Head of every domain's field table.
pub const MARKDOWN_FIELD_TABLE_HEAD: &'static str = "| Field id | Unit | Session scope | Freshness | Cost |\n|---|---|---|---|---|\n";

/// Heading and policy line of the specialty-tool section.
pub const MARKDOWN_TOOLS_HEAD: &'static str = "## Specialty market tools (allowlist)\n\nCatalog v0 enforces **no catalog entry \u{2192} no new market tool**. The allowlist below matches the SIL-M0 freeze set:\n\n";

/// Heading and description of the Feature Registry section.
pub const MARKDOWN_REGISTRY_HEAD: &'static str = "## Feature Registry (shipped Base Detectors)\n\nGovernance waist for **Base Detectors** and **Derived Features**: schema, provenance, and promotion (`candidate` \u{2192} `shadow` \u{2192} `active`, human-gated). This generated snapshot lists shipped Base Detectors only. Overlay Derived Features live in SQLite and are discovered via `search_catalog` when `[sil].catalog_discovery` is on. Derived Features declare a Feature-IR program over catalog fields using exactly five funded Operator Families (Cross-symbol references, Session-distribution percentiles, Dwell / time-since-predicate, Event sequences, Historical baselines). Unfunded families (including surface lookup / interpolation) are rejected at declaration time. A new Operator Family requires a registry change proposal. An accepted (active) Derived Feature is codegen'd onto the existing kernel (`get_state`, `journal_frames.payload`, `query_series` / `query_episodes`, catalog-field rules binding, `search_catalog` / `describe_domain`) \u{2014} no specialty getter. Candidate and shadow stay in `featureHits` only. Live-shadow and historical evaluation share one evaluator (`clock_ms <= asOf`) capped at 57600 frames (`FEATURE_IR_EVAL_MAX_FRAMES`, about 8 hours of 1 Hz NQ+ES; deliberately not the 8192-frame live pending Journal Frame buffer, which live evaluation merges in, pending winning on identity). Session-percentile n and dwell fail closed when that bound would drop in-session frames. Historical loads use a newest-first LIMIT cap+1 sentinel \u{2014} never `Database::list_journal_frames()`. Discovery rides `search_catalog` / catalog descriptors. The write verb is `feature_registry`. Tier 1 Base Detector math stays reviewed Rust.\n\n";

/// Head of the Base Detector table.
pub const MARKDOWN_DETECTOR_TABLE_HEAD: &'static str = "| Id | Domain | Promotion | Builtin | Event types |\n|---|---|---|---|---|\n";

/// The variant name of a unit.
pub open spec fn unit_name(u: Unit) -> Seq<char> {
    match u {
        Unit::PricePoints => "PricePoints"@,
        Unit::Contracts => "Contracts"@,
        Unit::ContractsPerSec => "ContractsPerSec"@,
        Unit::TicksPerSec => "TicksPerSec"@,
        Unit::Ticks => "Ticks"@,
        Unit::Ratio => "Ratio"@,
        Unit::Percent => "Percent"@,
        Unit::Count => "Count"@,
        Unit::Milliseconds => "Milliseconds"@,
        Unit::Bool => "Bool"@,
        Unit::EnumLabel => "EnumLabel"@,
        Unit::Text => "Text"@,
        Unit::StructuredBlob => "StructuredBlob"@,
    }
}

/// The variant name of a session scope.
pub open spec fn scope_name(s: SessionScope) -> Seq<char> {
    match s {
        SessionScope::Session => "Session"@,
        SessionScope::Rth => "Rth"@,
        SessionScope::Globex => "Globex"@,
        SessionScope::Segment => "Segment"@,
        SessionScope::CrossSession => "CrossSession"@,
    }
}

/// The variant name of a freshness semantics.
pub open spec fn freshness_name(f: FreshnessSemantics) -> Seq<char> {
    match f {
        FreshnessSemantics::LiveTickAnchored => "LiveTickAnchored"@,
        FreshnessSemantics::SessionScoped => "SessionScoped"@,
        FreshnessSemantics::PriorSessionCarry => "PriorSessionCarry"@,
        FreshnessSemantics::DelayedDepthOptional => "DelayedDepthOptional"@,
        FreshnessSemantics::StubUnavailable => "StubUnavailable"@,
        FreshnessSemantics::VendorTimestampFailClosed => "VendorTimestampFailClosed"@,
        FreshnessSemantics::ManualAsOfFailClosed => "ManualAsOfFailClosed"@,
    }
}

/// The variant name of a cost hint.
pub open spec fn cost_name(c: CostHint) -> Seq<char> {
    match c {
        CostHint::R0 => "R0"@,
        CostHint::R1 => "R1"@,
        CostHint::R2 => "R2"@,
        CostHint::R3 => "R3"@,
    }
}

/// Decimal digits of `n`.
pub open spec fn decimal(n: nat) -> Seq<char>
    decreases n,
{
    if n < 10 {
        seq![(n + 48) as char]
    } else {
        decimal(n / 10) + seq![((n % 10) + 48) as char]
    }
}

/// Entries separated by `, `.
pub open spec fn comma_joined(v: Seq<Seq<char>>) -> Seq<char>
    decreases v.len(),
{
    if v.len() == 0 {
        Seq::empty()
    } else if v.len() == 1 {
        v[0]
    } else {
        comma_joined(v.drop_last()) + ", "@ + v.last()
    }
}

/// Table row of one field.
pub open spec fn field_row(f: FieldDescriptor) -> Seq<char> {
    "| `"@ + f.id@ + "` | "@ + unit_name(f.unit) + " | "@ + scope_name(f.session_scope) + " | "@
        + freshness_name(f.freshness) + " | "@ + cost_name(f.cost_hint) + " |\n"@
}

/// Table rows of the fields of domain `dom`, in field order.
pub open spec fn field_rows(fs: Seq<FieldDescriptor>, dom: Seq<char>) -> Seq<char>
    decreases fs.len(),
{
    if fs.len() == 0 {
        Seq::empty()
    } else if fs.last().domain_id@ == dom {
        field_rows(fs.drop_last(), dom) + field_row(fs.last())
    } else {
        field_rows(fs.drop_last(), dom)
    }
}

/// The section of one domain.
pub open spec fn domain_section(d: DomainDescriptor, fs: Seq<FieldDescriptor>) -> Seq<char> {
    "### `"@ + d.id@ + "` \u{2014} "@ + d.name@ + "\n\n"@ + d.summary@ + "\n\n"@ + (if d.record_kinds@.len()
        > 0 {
        "Record kinds: "@ + comma_joined(string_views(d.record_kinds@)) + "\n\n"@
    } else {
        Seq::empty()
    }) + MARKDOWN_FIELD_TABLE_HEAD@ + field_rows(fs, d.id@) + "\n"@
}

/// The sections of all domains, in order.
pub open spec fn domain_sections(ds: Seq<DomainDescriptor>, fs: Seq<FieldDescriptor>) -> Seq<char>
    decreases ds.len(),
{
    if ds.len() == 0 {
        Seq::empty()
    } else {
        domain_sections(ds.drop_last(), fs) + domain_section(ds.last(), fs)
    }
}

/// The lines of the Positioning record kinds.
pub open spec fn kind_lines(ks: Seq<PositioningRecordKind>) -> Seq<char>
    decreases ks.len(),
{
    if ks.len() == 0 {
        Seq::empty()
    } else {
        kind_lines(ks.drop_last()) + "- **"@ + ks.last().name@ + "** (`"@ + ks.last().id@ + "`): "@
            + ks.last().summary@ + "\n"@
    }
}

/// The lines of the specialty-tool allowlist.
pub open spec fn tool_lines(ts: Seq<String>) -> Seq<char>
    decreases ts.len(),
{
    if ts.len() == 0 {
        Seq::empty()
    } else {
        tool_lines(ts.drop_last()) + "- `"@ + ts.last()@ + "`\n"@
    }
}

/// Table row of one Base Detector.
pub open spec fn detector_row(d: FeatureDescriptor) -> Seq<char> {
    "| `"@ + d.id@ + "` | `"@ + d.domain_id@ + "` | "@ + promotion_label(d.promotion_state) + " | "@
        + (if d.builtin {
        "true"@
    } else {
        "false"@
    }) + " | "@ + comma_joined(string_views(d.schema.event_types@)) + " |\n"@
}

/// Table rows of the Base Detectors, in order.
pub open spec fn detector_rows(ds: Seq<FeatureDescriptor>) -> Seq<char>
    decreases ds.len(),
{
    if ds.len() == 0 {
        Seq::empty()
    } else {
        detector_rows(ds.drop_last()) + detector_row(ds.last())
    }
}

/// The markdown summary of catalog `c` under the title and `banner`.
pub open spec fn catalog_markdown(c: DeskCatalog, banner: Seq<char>) -> Seq<char> {
    "# Desk Catalog v0\n\n"@ + banner + "- **catalogVersion:** `"@ + c.catalog_version@ + "`\n"@
        + MARKDOWN_TRUST_LINE@ + "- **domains:** "@ + decimal(c.domains@.len()) + "\n- **fields:** "@
        + decimal(c.fields@.len()) + "\n"@ + MARKDOWN_PROVIDER_LINE@ + "## Domains\n\n"@
        + domain_sections(c.domains@, c.fields@) + "## Positioning record kinds\n\n"@ + kind_lines(
        c.positioning_record_kinds@,
    ) + "\n"@ + MARKDOWN_TOOLS_HEAD@ + tool_lines(c.specialty_market_tools@) + "\n"@
        + MARKDOWN_REGISTRY_HEAD@ + MARKDOWN_DETECTOR_TABLE_HEAD@ + detector_rows(c.base_detectors@)
        + "\n"@
}

fn digit(d: usize) -> (c: char)
    requires
        d < 10,
    ensures
        c == (d + 48) as char,
{
    let b: u8 = (d as u8) + 48u8;
    b as char
}

/// Append the decimal digits of `n`.
fn push_decimal(out: &mut Vec<char>, n: usize)
    ensures
        final(out)@ == old(out)@ + decimal(n as nat),
    decreases n,
{
    if n < 10 {
        out.push(digit(n));
        assert(decimal(n as nat) == seq![(n + 48) as char]);
    } else {
        push_decimal(out, n / 10);
        out.push(digit(n % 10));
    }
}

fn push_joined(out: &mut Vec<char>, v: &Vec<String>)
    ensures
        final(out)@ == old(out)@ + comma_joined(string_views(v@)),
{
    let ghost start = out@;
    let ghost sv = string_views(v@);
    let n = v.len();
    let mut i: usize = 0;
    while i < n
        invariant
            n == v@.len(),
            i <= n,
            sv == string_views(v@),
            out@ == start + comma_joined(sv.take(i as int)),
        decreases n - i,
    {
        assert(sv.take(i + 1).drop_last() =~= sv.take(i as int));
        if i > 0 {
            push_str_chars(out, ", ");
        }
        let c = chars_of(v[i].as_str());
        push_chars(out, &c);
        proof {
            if i == 0 {
                assert(sv.take(1)[0] == v@[0]@);
            } else {
                assert(sv.take(i + 1).last() == v@[i as int]@);
            }
        }
        i = i + 1;
    }
    assert(sv.take(n as int) =~= sv);
}

fn unit_text(u: Unit) -> (r: &'static str)
    ensures
        r@ == unit_name(u),
{
    match u {
        Unit::PricePoints => "PricePoints",
        Unit::Contracts => "Contracts",
        Unit::ContractsPerSec => "ContractsPerSec",
        Unit::TicksPerSec => "TicksPerSec",
        Unit::Ticks => "Ticks",
        Unit::Ratio => "Ratio",
        Unit::Percent => "Percent",
        Unit::Count => "Count",
        Unit::Milliseconds => "Milliseconds",
        Unit::Bool => "Bool",
        Unit::EnumLabel => "EnumLabel",
        Unit::Text => "Text",
        Unit::StructuredBlob => "StructuredBlob",
    }
}

fn scope_text(s: SessionScope) -> (r: &'static str)
    ensures
        r@ == scope_name(s),
{
    match s {
        SessionScope::Session => "Session",
        SessionScope::Rth => "Rth",
        SessionScope::Globex => "Globex",
        SessionScope::Segment => "Segment",
        SessionScope::CrossSession => "CrossSession",
    }
}

fn freshness_text(f: FreshnessSemantics) -> (r: &'static str)
    ensures
        r@ == freshness_name(f),
{
    match f {
        FreshnessSemantics::LiveTickAnchored => "LiveTickAnchored",
        FreshnessSemantics::SessionScoped => "SessionScoped",
        FreshnessSemantics::PriorSessionCarry => "PriorSessionCarry",
        FreshnessSemantics::DelayedDepthOptional => "DelayedDepthOptional",
        FreshnessSemantics::StubUnavailable => "StubUnavailable",
        FreshnessSemantics::VendorTimestampFailClosed => "VendorTimestampFailClosed",
        FreshnessSemantics::ManualAsOfFailClosed => "ManualAsOfFailClosed",
    }
}

fn cost_text(c: CostHint) -> (r: &'static str)
    ensures
        r@ == cost_name(c),
{
    match c {
        CostHint::R0 => "R0",
        CostHint::R1 => "R1",
        CostHint::R2 => "R2",
        CostHint::R3 => "R3",
    }
}

fn push_field_rows(out: &mut Vec<char>, fields: &Vec<FieldDescriptor>, dom: &String)
    ensures
        final(out)@ == old(out)@ + field_rows(fields@, dom@),
{
    let ghost start = out@;
    let d = chars_of(dom.as_str());
    let n = fields.len();
    let mut i: usize = 0;
    while i < n
        invariant
            n == fields@.len(),
            i <= n,
            d@ == dom@,
            out@ == start + field_rows(fields@.take(i as int), dom@),
        decreases n - i,
    {
        let f = &fields[i];
        assert(fields@.take(i + 1).drop_last() =~= fields@.take(i as int));
        assert(fields@.take(i + 1).last() == *f);
        let c = chars_of(f.domain_id.as_str());
        if same_chars(&c, &d) {
            let ghost before = out@;
            push_str_chars(out, "| `");
            let id = chars_of(f.id.as_str());
            push_chars(out, &id);
            push_str_chars(out, "` | ");
            push_str_chars(out, unit_text(f.unit));
            push_str_chars(out, " | ");
            push_str_chars(out, scope_text(f.session_scope));
            push_str_chars(out, " | ");
            push_str_chars(out, freshness_text(f.freshness));
            push_str_chars(out, " | ");
            push_str_chars(out, cost_text(f.cost_hint));
            push_str_chars(out, " |\n");
            assert(out@ =~= before + field_row(*f));
        }
        i = i + 1;
    }
    assert(fields@.take(n as int) =~= fields@);
}

fn push_domain_sections(out: &mut Vec<char>, domains: &Vec<DomainDescriptor>, fields: &Vec<FieldDescriptor>)
    ensures
        final(out)@ == old(out)@ + domain_sections(domains@, fields@),
{
    let ghost start = out@;
    let n = domains.len();
    let mut i: usize = 0;
    while i < n
        invariant
            n == domains@.len(),
            i <= n,
            out@ == start + domain_sections(domains@.take(i as int), fields@),
        decreases n - i,
    {
        let d = &domains[i];
        assert(domains@.take(i + 1).drop_last() =~= domains@.take(i as int));
        assert(domains@.take(i + 1).last() == *d);
        let ghost before = out@;
        push_str_chars(out, "### `");
        let id = chars_of(d.id.as_str());
        push_chars(out, &id);
        push_str_chars(out, "` \u{2014} ");
        let name = chars_of(d.name.as_str());
        push_chars(out, &name);
        push_str_chars(out, "\n\n");
        let summary = chars_of(d.summary.as_str());
        push_chars(out, &summary);
        push_str_chars(out, "\n\n");
        let ghost mid = out@;
        if d.record_kinds.len() > 0 {
            push_str_chars(out, "Record kinds: ");
            push_joined(out, &d.record_kinds);
            push_str_chars(out, "\n\n");
        }
        let ghost kinds_part = if d.record_kinds@.len() > 0 {
            "Record kinds: "@ + comma_joined(string_views(d.record_kinds@)) + "\n\n"@
        } else {
            Seq::<char>::empty()
        };
        assert(out@ =~= mid + kinds_part);
        push_str_chars(out, MARKDOWN_FIELD_TABLE_HEAD);
        push_field_rows(out, fields, &d.id);
        push_str_chars(out, "\n");
        assert(out@ =~= before + domain_section(*d, fields@));
        i = i + 1;
    }
    assert(domains@.take(n as int) =~= domains@);
}

fn push_kind_lines(out: &mut Vec<char>, kinds: &Vec<PositioningRecordKind>)
    ensures
        final(out)@ == old(out)@ + kind_lines(kinds@),
{
    let ghost start = out@;
    let n = kinds.len();
    let mut i: usize = 0;
    while i < n
        invariant
            n == kinds@.len(),
            i <= n,
            out@ == start + kind_lines(kinds@.take(i as int)),
        decreases n - i,
    {
        let k = &kinds[i];
        assert(kinds@.take(i + 1).drop_last() =~= kinds@.take(i as int));
        assert(kinds@.take(i + 1).last() == *k);
        let ghost before = out@;
        push_str_chars(out, "- **");
        let name = chars_of(k.name.as_str());
        push_chars(out, &name);
        push_str_chars(out, "** (`");
        let id = chars_of(k.id.as_str());
        push_chars(out, &id);
        push_str_chars(out, "`): ");
        let summary = chars_of(k.summary.as_str());
        push_chars(out, &summary);
        push_str_chars(out, "\n");
        assert(out@ =~= before + "- **"@ + k.name@ + "** (`"@ + k.id@ + "`): "@ + k.summary@ + "\n"@);
        i = i + 1;
    }
    assert(kinds@.take(n as int) =~= kinds@);
}

fn push_tool_lines(out: &mut Vec<char>, tools: &Vec<String>)
    ensures
        final(out)@ == old(out)@ + tool_lines(tools@),
{
    let ghost start = out@;
    let n = tools.len();
    let mut i: usize = 0;
    while i < n
        invariant
            n == tools@.len(),
            i <= n,
            out@ == start + tool_lines(tools@.take(i as int)),
        decreases n - i,
    {
        assert(tools@.take(i + 1).drop_last() =~= tools@.take(i as int));
        assert(tools@.take(i + 1).last() == tools@[i as int]);
        let ghost before = out@;
        push_str_chars(out, "- `");
        let t = chars_of(tools[i].as_str());
        push_chars(out, &t);
        push_str_chars(out, "`\n");
        assert(out@ =~= before + "- `"@ + tools@[i as int]@ + "`\n"@);
        i = i + 1;
    }
    assert(tools@.take(n as int) =~= tools@);
}

fn push_detector_rows(out: &mut Vec<char>, detectors: &Vec<FeatureDescriptor>)
    ensures
        final(out)@ == old(out)@ + detector_rows(detectors@),
{
    let ghost start = out@;
    let n = detectors.len();
    let mut i: usize = 0;
    while i < n
        invariant
            n == detectors@.len(),
            i <= n,
            out@ == start + detector_rows(detectors@.take(i as int)),
        decreases n - i,
    {
        let d = &detectors[i];
        assert(detectors@.take(i + 1).drop_last() =~= detectors@.take(i as int));
        assert(detectors@.take(i + 1).last() == *d);
        let ghost before = out@;
        push_str_chars(out, "| `");
        let id = chars_of(d.id.as_str());
        push_chars(out, &id);
        push_str_chars(out, "` | `");
        let dom = chars_of(d.domain_id.as_str());
        push_chars(out, &dom);
        push_str_chars(out, "` | ");
        push_str_chars(out, d.promotion_state.as_str());
        push_str_chars(out, " | ");
        push_str_chars(out, if d.builtin { "true" } else { "false" });
        push_str_chars(out, " | ");
        push_joined(out, &d.schema.event_types);
        push_str_chars(out, " |\n");
        assert(out@ =~= before + detector_row(*d));
        i = i + 1;
    }
    assert(detectors@.take(n as int) =~= detectors@);
}

/// Human-readable markdown summary of the Desk Catalog, under the title and
/// the given banner lines.
pub fn render_catalog_markdown(catalog: &DeskCatalog, banner: &str) -> (r: String)
    ensures
        r@ == catalog_markdown(*catalog, banner@),
{
    let mut out: Vec<char> = Vec::new();
    push_str_chars(&mut out, "# Desk Catalog v0\n\n");
    push_str_chars(&mut out, banner);
    push_str_chars(&mut out, "- **catalogVersion:** `");
    let v = chars_of(catalog.catalog_version.as_str());
    push_chars(&mut out, &v);
    push_str_chars(&mut out, "`\n");
    push_str_chars(&mut out, MARKDOWN_TRUST_LINE);
    push_str_chars(&mut out, "- **domains:** ");
    push_decimal(&mut out, catalog.domains.len());
    push_str_chars(&mut out, "\n- **fields:** ");
    push_decimal(&mut out, catalog.fields.len());
    push_str_chars(&mut out, "\n");
    push_str_chars(&mut out, MARKDOWN_PROVIDER_LINE);
    push_str_chars(&mut out, "## Domains\n\n");
    push_domain_sections(&mut out, &catalog.domains, &catalog.fields);
    push_str_chars(&mut out, "## Positioning record kinds\n\n");
    push_kind_lines(&mut out, &catalog.positioning_record_kinds);
    push_str_chars(&mut out, "\n");
    push_str_chars(&mut out, MARKDOWN_TOOLS_HEAD);
    push_tool_lines(&mut out, &catalog.specialty_market_tools);
    push_str_chars(&mut out, "\n");
    push_str_chars(&mut out, MARKDOWN_REGISTRY_HEAD);
    push_str_chars(&mut out, MARKDOWN_DETECTOR_TABLE_HEAD);
    push_detector_rows(&mut out, &catalog.base_detectors);
    push_str_chars(&mut out, "\n");
    assert(out@ =~= catalog_markdown(*catalog, banner@));
    string_from(&out)
}

} // verus!
