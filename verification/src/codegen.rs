//! Feature Registry codegen: one accepted Derived Feature descriptor yields
//! five artifacts (runtime field, Journal Frame payload key, query dimension,
//! rules binding, agent schema).
//!
//! Storage stays `journal_frames.payload` under a named key; reads stay on the
//! existing kernel. Base Detector math is never re-expressed here.

use vstd::prelude::*;

use crate::feature_ir::FeatureIrError;
use crate::feature_registry::{
    DescriptorView, FeatureDescriptor, FeatureKind, PromotionState, FEATURE_REGISTRY_WRITE_VERB,
};
use crate::text::{chars_of, join3, owned, starts_with, starts_with_exec, eq_lit, string_views};
use crate::feature_registry::desc_views;
use crate::sorting::{lemma_permutation_maps, lemma_views_with_id, sort_by_id, sorted_by_id, views_with_id};
use crate::text::same_chars;
use crate::types::{field_views, DeskCatalog, DomainDescriptor, FieldDescriptor, FieldView};

verus! {

/// Codegen from Feature Registry descriptors is on.
pub const FEATURE_REGISTRY_CODEGEN: bool = true;

/// Payload object that holds generated Derived Feature scalars.
pub const DERIVED_FEATURE_PAYLOAD_OBJECT: &'static str = "derivedFeatures";

/// Journal Frame storage target (existing schema, not a new table).
pub const JOURNAL_FRAME_STORAGE_TARGET: &'static str = "journal_frames.payload";

/// Runtime field emitter name.
pub const EMIT_RUNTIME_FIELD: &'static str = "emit_runtime_field";

/// Journal Frame payload-key emitter name.
pub const EMIT_STORAGE_COLUMN: &'static str = "emit_storage_column";

/// Series / episode query dimension emitter name.
pub const EMIT_QUERY_DIMENSION: &'static str = "emit_query_dimension";

/// Rules-engine catalog-field binding emitter name.
pub const EMIT_RULE_BINDING: &'static str = "emit_rule_binding";

/// Agent schema emitter name.
pub const EMIT_AGENT_SCHEMA: &'static str = "emit_agent_schema";

/// Wire label of the generic catalog-field rules condition.
pub const CATALOG_FIELD_CONDITION: &'static str = "catalog_field";

/// Query kernel operators that address a generated dimension.
pub const QUERY_DIMENSION_OPERATORS: [&'static str; 2] = ["query_series", "query_episodes"];

/// Codegen errors.
#[derive(Debug, Clone, PartialEq, Eq)]
pub enum CodegenError {
    /// Codegen needs a Derived Feature (ids `feature.<snake_id>`).
    NotDerivedFeature,
    /// The Derived Feature carries no Feature-IR program.
    MissingProgram(String),
    /// Evaluating the program failed.
    FeatureIr(FeatureIrError),
}

/// Runtime field so `get_state` can serve the generated value.
#[derive(Debug, Clone, PartialEq)]
pub struct RuntimeFieldArtifact {
    pub field: FieldDescriptor,
    pub served_by: String,
}

/// Named key on `journal_frames.payload`.
#[derive(Debug, Clone, PartialEq, Eq)]
pub struct StorageColumnArtifact {
    pub payload_key: String,
    pub payload_object: String,
    pub table: String,
}

/// Query dimension so series / episode operators can address the field id.
#[derive(Debug, Clone, PartialEq, Eq)]
pub struct QueryDimensionArtifact {
    pub field_id: String,
    pub operators: Vec<String>,
}

/// Rules-engine binding through the catalog-field condition.
#[derive(Debug, Clone, PartialEq, Eq)]
pub struct RuleBindingArtifact {
    pub condition_field: String,
    pub catalog_field_id: String,
    pub write_verb: String,
}

/// Agent-facing catalog schema fragment.
#[derive(Debug, Clone, PartialEq)]
pub struct AgentSchemaArtifact {
    pub field: FieldDescriptor,
    pub search_catalog: bool,
    pub describe_domain: bool,
}

/// The five artifacts emitted from one descriptor.
#[derive(Debug, Clone, PartialEq)]
pub struct CodegenArtifacts {
    pub id: String,
    pub runtime_field: RuntimeFieldArtifact,
    pub storage_column: StorageColumnArtifact,
    pub query_dimension: QueryDimensionArtifact,
    pub rule_binding: RuleBindingArtifact,
    pub agent_schema: AgentSchemaArtifact,
}

/// A Derived Feature is accepted once human-gated to `active` with a program.
pub open spec fn accepted_derived(d: DescriptorView) -> bool {
    d.kind == FeatureKind::DerivedFeature && d.promotion_state == PromotionState::Active
        && d.program_family is Some
}

/// Codegen refuses anything but a `feature.`-prefixed Derived Feature.
pub open spec fn not_derived(d: DescriptorView) -> bool {
    d.kind != FeatureKind::DerivedFeature || !starts_with(d.id, "feature."@)
}

/// Codegen succeeds on `d`.
pub open spec fn codegen_ok(d: DescriptorView) -> bool {
    !not_derived(d) && d.program_family is Some
}

/// The refusal codegen answers `d` with, when it is not `codegen_ok`.
pub open spec fn codegen_refusal(d: DescriptorView, e: CodegenError) -> bool {
    if not_derived(d) {
        e == CodegenError::NotDerivedFeature
    } else {
        e matches CodegenError::MissingProgram(id) && id@ == d.id
    }
}

/// `f` is the catalog field generated from descriptor `d`.
pub open spec fn generated_field(f: FieldDescriptor, d: DescriptorView) -> bool {
    &&& f.id@ == d.id
    &&& f.name@ == d.id
    &&& f.domain_id@ == d.domain_id
    &&& f.description@ == d.description
    &&& f.rust_field@ == "feature_ir"@
    &&& f.unit == d.schema.unit
    &&& f.session_scope == d.schema.session_scope
    &&& f.freshness == d.schema.freshness
    &&& f.cost_hint == d.schema.cost_hint
}

/// Payload key of a Derived Feature: `derivedFeatures.<id>`.
pub open spec fn payload_key(id: Seq<char>) -> Seq<char> {
    DERIVED_FEATURE_PAYLOAD_OBJECT@ + "."@ + id
}

/// True when a Derived Feature is accepted (human-gated `active` with a program).
pub fn is_accepted_derived(desc: &FeatureDescriptor) -> (r: bool)
    ensures
        r == accepted_derived(desc@),
{
    let derived = match desc.kind {
        FeatureKind::DerivedFeature => true,
        FeatureKind::BaseDetector => false,
    };
    let active = match desc.promotion_state {
        PromotionState::Active => true,
        _ => false,
    };
    derived && active && desc.program_family.is_some()
}

/// True when a catalog field was generated from a Derived Feature descriptor.
pub fn is_codegen_field(field: &FieldDescriptor) -> (r: bool)
    ensures
        r == (starts_with(field.id@, "feature."@) || field.rust_field@ == "feature_ir"@),
{
    let id = chars_of(field.id.as_str());
    let prefix = chars_of("feature.");
    let rust = chars_of(field.rust_field.as_str());
    starts_with_exec(&id, &prefix) || eq_lit(&rust, "feature_ir")
}

/// Named payload key for a Derived Feature (`derivedFeatures.<id>`).
pub fn storage_payload_key(feature_id: &str) -> (r: String)
    ensures
        r@ == payload_key(feature_id@),
{
    let id = chars_of(feature_id);
    let r = join3("derivedFeatures.", &id, "");
    proof {
        reveal_strlit("");
        reveal_strlit("derivedFeatures.");
        reveal_strlit("derivedFeatures");
        reveal_strlit(".");
        assert(r@ =~= payload_key(feature_id@));
    }
    r
}

fn require_derived(desc: &FeatureDescriptor) -> (r: Result<(), CodegenError>)
    ensures
        codegen_ok(desc@) <==> r is Ok,
        r matches Err(e) ==> codegen_refusal(desc@, e),
{
    let id = chars_of(desc.id.as_str());
    let prefix = chars_of("feature.");
    let derived = match desc.kind {
        FeatureKind::DerivedFeature => true,
        FeatureKind::BaseDetector => false,
    };
    if !derived || !starts_with_exec(&id, &prefix) {
        return Err(CodegenError::NotDerivedFeature);
    }
    if desc.program_family.is_none() {
        return Err(CodegenError::MissingProgram(owned(desc.id.as_str())));
    }
    Ok(())
}

/// Catalog / runtime field descriptor for one Derived Feature.
pub fn derived_field_descriptor(desc: &FeatureDescriptor) -> (r: Result<FieldDescriptor, CodegenError>)
    ensures
        codegen_ok(desc@) <==> r is Ok,
        r matches Ok(f) ==> generated_field(f, desc@),
        r matches Err(e) ==> codegen_refusal(desc@, e),
{
    require_derived(desc)?;
    Ok(FieldDescriptor {
        id: owned(desc.id.as_str()),
        name: owned(desc.id.as_str()),
        domain_id: owned(desc.domain_id.as_str()),
        description: owned(desc.description.as_str()),
        rust_field: owned("feature_ir"),
        unit: desc.schema.unit,
        session_scope: desc.schema.session_scope,
        freshness: desc.schema.freshness,
        cost_hint: desc.schema.cost_hint,
    })
}

/// Runtime field artifact, served by `get_state`.
pub fn emit_runtime_field(desc: &FeatureDescriptor) -> (r: Result<RuntimeFieldArtifact, CodegenError>)
    ensures
        codegen_ok(desc@) <==> r is Ok,
        r matches Ok(a) ==> generated_field(a.field, desc@) && a.served_by@ == "get_state"@,
        r matches Err(e) ==> codegen_refusal(desc@, e),
{
    let field = derived_field_descriptor(desc)?;
    Ok(RuntimeFieldArtifact { field, served_by: owned("get_state") })
}

/// Journal Frame storage column (payload key on the existing schema).
pub fn emit_storage_column(desc: &FeatureDescriptor) -> (r: Result<StorageColumnArtifact, CodegenError>)
    ensures
        codegen_ok(desc@) <==> r is Ok,
        r matches Ok(a) ==> a.payload_key@ == payload_key(desc.id@) && a.payload_object@
            == DERIVED_FEATURE_PAYLOAD_OBJECT@ && a.table@ == JOURNAL_FRAME_STORAGE_TARGET@,
        r matches Err(e) ==> codegen_refusal(desc@, e),
{
    require_derived(desc)?;
    Ok(StorageColumnArtifact {
        payload_key: storage_payload_key(desc.id.as_str()),
        payload_object: owned(DERIVED_FEATURE_PAYLOAD_OBJECT),
        table: owned(JOURNAL_FRAME_STORAGE_TARGET),
    })
}

/// Query dimension so series / episode operators can address the field id.
pub fn emit_query_dimension(desc: &FeatureDescriptor) -> (r: Result<QueryDimensionArtifact, CodegenError>)
    ensures
        codegen_ok(desc@) <==> r is Ok,
        r matches Ok(a) ==> a.field_id@ == desc.id@ && string_views(a.operators@)
            == QUERY_DIMENSION_OPERATORS@.map_values(|s: &str| s@),
        r matches Err(e) ==> codegen_refusal(desc@, e),
{
    require_derived(desc)?;
    Ok(QueryDimensionArtifact {
        field_id: owned(desc.id.as_str()),
        operators: crate::feature_registry::strings_from(&QUERY_DIMENSION_OPERATORS),
    })
}

/// Rules-engine catalog-field binding.
pub fn emit_rule_binding(desc: &FeatureDescriptor) -> (r: Result<RuleBindingArtifact, CodegenError>)
    ensures
        codegen_ok(desc@) <==> r is Ok,
        r matches Ok(a) ==> a.condition_field@ == CATALOG_FIELD_CONDITION@ && a.catalog_field_id@
            == desc.id@ && a.write_verb@ == FEATURE_REGISTRY_WRITE_VERB@,
        r matches Err(e) ==> codegen_refusal(desc@, e),
{
    require_derived(desc)?;
    Ok(RuleBindingArtifact {
        condition_field: owned(CATALOG_FIELD_CONDITION),
        catalog_field_id: owned(desc.id.as_str()),
        write_verb: owned(FEATURE_REGISTRY_WRITE_VERB),
    })
}

/// Agent schema fragment, discoverable by search and domain description.
pub fn emit_agent_schema(desc: &FeatureDescriptor) -> (r: Result<AgentSchemaArtifact, CodegenError>)
    ensures
        codegen_ok(desc@) <==> r is Ok,
        r matches Ok(a) ==> generated_field(a.field, desc@) && a.search_catalog && a.describe_domain,
        r matches Err(e) ==> codegen_refusal(desc@, e),
{
    let field = derived_field_descriptor(desc)?;
    Ok(AgentSchemaArtifact { field, search_catalog: true, describe_domain: true })
}

/// All five artifacts from one Derived Feature descriptor.
pub fn emit_all(desc: &FeatureDescriptor) -> (r: Result<CodegenArtifacts, CodegenError>)
    ensures
        codegen_ok(desc@) <==> r is Ok,
        r matches Ok(a) ==> {
            &&& a.id@ == desc.id@
            &&& generated_field(a.runtime_field.field, desc@)
            &&& a.runtime_field.served_by@ == "get_state"@
            &&& a.storage_column.payload_key@ == payload_key(desc.id@)
            &&& a.storage_column.payload_object@ == DERIVED_FEATURE_PAYLOAD_OBJECT@
            &&& a.storage_column.table@ == JOURNAL_FRAME_STORAGE_TARGET@
            &&& a.query_dimension.field_id@ == desc.id@
            &&& string_views(a.query_dimension.operators@) == QUERY_DIMENSION_OPERATORS@.map_values(
                |s: &str| s@,
            )
            &&& a.rule_binding.condition_field@ == CATALOG_FIELD_CONDITION@
            &&& a.rule_binding.catalog_field_id@ == desc.id@
            &&& a.rule_binding.write_verb@ == FEATURE_REGISTRY_WRITE_VERB@
            &&& generated_field(a.agent_schema.field, desc@)
            &&& a.agent_schema.search_catalog && a.agent_schema.describe_domain
        },
        r matches Err(e) ==> codegen_refusal(desc@, e),
{
    let runtime_field = emit_runtime_field(desc)?;
    let storage_column = emit_storage_column(desc)?;
    let query_dimension = emit_query_dimension(desc)?;
    let rule_binding = emit_rule_binding(desc)?;
    let agent_schema = emit_agent_schema(desc)?;
    Ok(CodegenArtifacts {
        id: owned(desc.id.as_str()),
        runtime_field,
        storage_column,
        query_dimension,
        rule_binding,
        agent_schema,
    })
}

/// A descriptor whose codegen grows the catalog: an accepted Derived Feature
/// that codegen takes.
pub open spec fn grows_catalog(d: DescriptorView) -> bool {
    accepted_derived(d) && codegen_ok(d)
}

/// The catalog field generated from `d`.
pub open spec fn generated_view(d: DescriptorView) -> FieldView {
    FieldView {
        id: d.id,
        name: d.id,
        domain_id: d.domain_id,
        description: d.description,
        rust_field: "feature_ir"@,
        unit: d.schema.unit,
        session_scope: d.schema.session_scope,
        freshness: d.schema.freshness,
        cost_hint: d.schema.cost_hint,
    }
}

/// The ids of a list of fields.
pub open spec fn field_ids_of(fs: Seq<FieldView>) -> Seq<Seq<char>> {
    fs.map_values(|f: FieldView| f.id)
}

/// `fs` after the generated fields of `ds` are added, in order, skipping ids
/// already present.
pub open spec fn grow_fields(fs: Seq<FieldView>, ds: Seq<DescriptorView>) -> Seq<FieldView>
    decreases ds.len(),
{
    if ds.len() == 0 {
        fs
    } else {
        let prev = grow_fields(fs, ds.drop_last());
        let d = ds.last();
        if grows_catalog(d) && !field_ids_of(prev).contains(d.id) {
            prev.push(generated_view(d))
        } else {
            prev
        }
    }
}

/// Field ids of domain `dom` after the generated fields of `ds` that belong to
/// it are added, in order, skipping ids already present.
pub open spec fn grow_ids(ids: Seq<Seq<char>>, ds: Seq<DescriptorView>, dom: Seq<char>) -> Seq<
    Seq<char>,
>
    decreases ds.len(),
{
    if ds.len() == 0 {
        ids
    } else {
        let prev = grow_ids(ids, ds.drop_last(), dom);
        let d = ds.last();
        if grows_catalog(d) && d.domain_id == dom && !prev.contains(d.id) {
            prev.push(d.id)
        } else {
            prev
        }
    }
}

/// Some descriptor of `ds` grows the catalog in domain `dom`.
pub open spec fn targets_domain(ds: Seq<DescriptorView>, dom: Seq<char>) -> bool {
    exists|i: int| 0 <= i < ds.len() && grows_catalog(#[trigger] ds[i]) && ds[i].domain_id == dom
}

/// Domain `k` is the first of `domains` with its id.
pub open spec fn first_with_id(domains: Seq<DomainDescriptor>, k: int) -> bool {
    forall|j: int| 0 <= j < k ==> (#[trigger] domains[j]).id@ != domains[k].id@
}

/// How codegen leaves one domain: only the first domain with a given id that
/// generated fields target gets their ids, and its field ids are then sorted.
pub open spec fn codegen_domain(
    old: DomainDescriptor,
    new: DomainDescriptor,
    first: bool,
    ds: Seq<DescriptorView>,
) -> bool {
    &&& new.id == old.id
    &&& new.name == old.name
    &&& new.summary == old.summary
    &&& new.record_kinds == old.record_kinds
    &&& if first && targets_domain(ds, old.id@) {
        &&& sorted_by_id(new.field_ids@)
        &&& string_views(new.field_ids@).to_multiset() == grow_ids(
            string_views(old.field_ids@),
            ds,
            old.id@,
        ).to_multiset()
    } else {
        new.field_ids@ == old.field_ids@
    }
}

fn has_field_id(fields: &Vec<FieldDescriptor>, id: &String) -> (r: bool)
    ensures
        r == field_ids_of(field_views(fields@)).contains(id@),
{
    let k = chars_of(id.as_str());
    let n = fields.len();
    let mut i: usize = 0;
    while i < n
        invariant
            n == fields@.len(),
            i <= n,
            k@ == id@,
            forall|j: int| 0 <= j < i ==> (#[trigger] fields@[j]).id@ != id@,
        decreases n - i,
    {
        let c = chars_of(fields[i].id.as_str());
        if same_chars(&c, &k) {
            assert(field_ids_of(field_views(fields@))[i as int] == id@);
            return true;
        }
        i = i + 1;
    }
    assert forall|j: int| 0 <= j < field_ids_of(field_views(fields@)).len() implies field_ids_of(
        field_views(fields@),
    )[j] != id@ by {
        assert(fields@[j].id@ != id@);
    }
    false
}

fn grow_field_list(fields: &mut Vec<FieldDescriptor>, ds: &Vec<FeatureDescriptor>)
    ensures
        field_views(final(fields)@) == grow_fields(field_views(old(fields)@), desc_views(ds@)),
{
    let ghost start = field_views(fields@);
    let ghost dv = desc_views(ds@);
    let n = ds.len();
    let mut i: usize = 0;
    while i < n
        invariant
            n == ds@.len(),
            i <= n,
            dv == desc_views(ds@),
            field_views(fields@) == grow_fields(start, dv.take(i as int)),
        decreases n - i,
    {
        let d = &ds[i];
        assert(dv.take(i + 1).drop_last() =~= dv.take(i as int));
        assert(dv.take(i + 1).last() == d@);
        if is_accepted_derived(d) {
            match emit_all(d) {
                Ok(artifacts) => {
                    let field = artifacts.runtime_field.field;
                    if !has_field_id(fields, &field.id) {
                        let ghost before = fields@;
                        assert(field@ == generated_view(d@));
                        fields.push(field);
                        assert(field_views(fields@) =~= field_views(before).push(
                            generated_view(d@),
                        ));
                    }
                },
                Err(_) => {},
            }
        }
        i = i + 1;
    }
    assert(dv.take(n as int) =~= dv);
}

fn grow_domain_ids(ids: &mut Vec<String>, ds: &Vec<FeatureDescriptor>, dom: &String) -> (touched: bool)
    ensures
        string_views(final(ids)@) == grow_ids(string_views(old(ids)@), desc_views(ds@), dom@),
        touched == targets_domain(desc_views(ds@), dom@),
        !touched ==> final(ids)@ == old(ids)@,
{
    let ghost start = ids@;
    let ghost dv = desc_views(ds@);
    let dk = chars_of(dom.as_str());
    let n = ds.len();
    let mut touched = false;
    let mut i: usize = 0;
    while i < n
        invariant
            n == ds@.len(),
            i <= n,
            dv == desc_views(ds@),
            dk@ == dom@,
            string_views(ids@) == grow_ids(string_views(start), dv.take(i as int), dom@),
            touched == targets_domain(dv.take(i as int), dom@),
            !touched ==> ids@ == start,
        decreases n - i,
    {
        let d = &ds[i];
        assert(dv.take(i + 1).drop_last() =~= dv.take(i as int));
        assert(dv.take(i + 1).last() == d@);
        let dd = chars_of(d.domain_id.as_str());
        let mut grows = false;
        if is_accepted_derived(d) && same_chars(&dd, &dk) {
            match require_derived(d) {
                Ok(()) => {
                    grows = true;
                },
                Err(_) => {},
            }
        }
        if grows {
            assert(dv.take(i + 1)[i as int] == d@);
            if !crate::text::key_in_strings(ids, d.id.as_str()) {
                let ghost before = ids@;
                ids.push(owned(d.id.as_str()));
                assert(string_views(ids@) =~= string_views(before).push(d.id@));
            }
            touched = true;
        } else {
            proof {
                assert(!(grows_catalog(d@) && d@.domain_id == dom@));
                if targets_domain(dv.take(i + 1), dom@) {
                    let j = choose|j: int| 0 <= j < i + 1 && grows_catalog(
                        #[trigger] dv.take(i + 1)[j],
                    ) && dv.take(i + 1)[j].domain_id == dom@;
                    assert(dv.take(i + 1)[i as int] == d@);
                    assert(j != i);
                    assert(dv.take(i + 1)[j] == dv.take(i as int)[j]);
                    assert(targets_domain(dv.take(i as int), dom@));
                }
            }
        }
        proof {
            if touched && !targets_domain(dv.take(i as int), dom@) {
                assert(dv.take(i + 1)[i as int] == d@);
            }
            if targets_domain(dv.take(i as int), dom@) {
                let j = choose|j: int| 0 <= j < i && grows_catalog(#[trigger] dv.take(i as int)[j])
                    && dv.take(i as int)[j].domain_id == dom@;
                assert(dv.take(i + 1)[j] == dv.take(i as int)[j]);
            }
        }
        i = i + 1;
    }
    assert(dv.take(n as int) =~= dv);
    touched
}

fn id_among(domains: &Vec<DomainDescriptor>, id: &String) -> (r: bool)
    ensures
        r == exists|j: int| 0 <= j < domains@.len() && (#[trigger] domains@[j]).id@ == id@,
{
    let k = chars_of(id.as_str());
    let n = domains.len();
    let mut i: usize = 0;
    while i < n
        invariant
            n == domains@.len(),
            i <= n,
            k@ == id@,
            forall|j: int| 0 <= j < i ==> (#[trigger] domains@[j]).id@ != id@,
        decreases n - i,
    {
        let c = chars_of(domains[i].id.as_str());
        if same_chars(&c, &k) {
            return true;
        }
        i = i + 1;
    }
    false
}

/// Merge the generated fields of accepted Derived Features into the catalog.
/// Candidate and shadow descriptors add nothing. A generated field is added
/// unless a field with its id exists; its id joins the first domain with the
/// feature's domain id, whose field ids are then sorted; the fields end sorted
/// by id. Nothing else in the catalog changes.
pub fn apply_codegen_fields(catalog: &mut DeskCatalog)
    ensures
        final(catalog).catalog_version == old(catalog).catalog_version,
        final(catalog).trust_ceiling == old(catalog).trust_ceiling,
        final(catalog).specialty_market_tools == old(catalog).specialty_market_tools,
        final(catalog).positioning_record_kinds == old(catalog).positioning_record_kinds,
        final(catalog).positioning_provider == old(catalog).positioning_provider,
        final(catalog).base_detectors == old(catalog).base_detectors,
        final(catalog).derived_features == old(catalog).derived_features,
        sorted_by_id(final(catalog).fields@),
        field_views(final(catalog).fields@).to_multiset() == grow_fields(
            field_views(old(catalog).fields@),
            desc_views(old(catalog).derived_features@),
        ).to_multiset(),
        forall|k: Seq<char>| #[trigger] views_with_id(field_views(final(catalog).fields@), k)
            == views_with_id(
            grow_fields(field_views(old(catalog).fields@), desc_views(old(catalog).derived_features@)),
            k,
        ),
        final(catalog).domains@.len() == old(catalog).domains@.len(),
        forall|k: int| 0 <= k < old(catalog).domains@.len() ==> codegen_domain(
            #[trigger] old(catalog).domains@[k],
            final(catalog).domains@[k],
            first_with_id(old(catalog).domains@, k),
            desc_views(old(catalog).derived_features@),
        ),
{
    let ghost ds = desc_views(catalog.derived_features@);
    let mut fields: Vec<FieldDescriptor> = Vec::new();
    std::mem::swap(&mut fields, &mut catalog.fields);
    let ghost old_fields = fields@;
    grow_field_list(&mut fields, &catalog.derived_features);
    let grown = fields;
    let ghost grown_seq = grown@;
    let sorted = sort_by_id(grown);
    proof {
        lemma_permutation_maps(sorted@, grown_seq, |f: FieldDescriptor| f@);
        assert(field_views(sorted@) =~= sorted@.map_values(|f: FieldDescriptor| f@));
        assert(field_views(grown_seq) =~= grown_seq.map_values(|f: FieldDescriptor| f@));
        assert forall|k: Seq<char>| #[trigger] views_with_id(field_views(sorted@), k) == views_with_id(
            field_views(grown_seq),
            k,
        ) by {
            lemma_views_with_id(sorted@, k);
            lemma_views_with_id(grown_seq, k);
        }
    }
    catalog.fields = sorted;

    let mut pending: Vec<DomainDescriptor> = Vec::new();
    std::mem::swap(&mut pending, &mut catalog.domains);
    let ghost orig = pending@;
    let m = pending.len();
    let mut rev: Vec<DomainDescriptor> = Vec::new();
    while pending.len() > 0
        invariant
            m == orig.len(),
            pending@ == orig.take(pending@.len() as int),
            rev@.len() == m - pending@.len(),
            ds == desc_views(catalog.derived_features@),
            forall|t: int| 0 <= t < rev@.len() ==> codegen_domain(
                orig[m - 1 - t],
                #[trigger] rev@[t],
                first_with_id(orig, m - 1 - t),
                ds,
            ),
        decreases pending@.len(),
    {
        let mut d = pending.pop().unwrap();
        let ghost k = pending@.len() as int;
        assert(orig.take(k + 1) =~= pending@.push(d));
        assert(orig[k] == d);
        let ghost old_d = d;
        let earlier = id_among(&pending, &d.id);
        proof {
            if earlier {
                let j = choose|j: int| 0 <= j < pending@.len() && (#[trigger] pending@[j]).id@ == d.id@;
                assert(orig[j] == pending@[j]);
                assert(!first_with_id(orig, k));
            } else {
                assert forall|j: int| 0 <= j < k implies (#[trigger] orig[j]).id@ != orig[k].id@ by {
                    assert(orig[j] == pending@[j]);
                }
            }
        }
        if !earlier {
            let mut ids: Vec<String> = Vec::new();
            std::mem::swap(&mut ids, &mut d.field_ids);
            let ghost old_ids = ids@;
            let touched = grow_domain_ids(&mut ids, &catalog.derived_features, &d.id);
            if touched {
                let ghost grown_ids = ids@;
                let s = sort_by_id(ids);
                proof {
                    lemma_permutation_maps(s@, grown_ids, |x: String| x@);
                    assert(string_views(s@) =~= s@.map_values(|x: String| x@));
                    assert(string_views(grown_ids) =~= grown_ids.map_values(|x: String| x@));
                }
                d.field_ids = s;
            } else {
                d.field_ids = ids;
            }
        }
        assert(codegen_domain(orig[k], d, first_with_id(orig, k), ds));
        rev.push(d);
        proof {
            assert(rev@[rev@.len() - 1] == d);
            assert(m - 1 - (rev@.len() - 1) == k);
        }
    }
    let mut out: Vec<DomainDescriptor> = Vec::new();
    while rev.len() > 0
        invariant
            m == orig.len(),
            rev@.len() + out@.len() == m,
            ds == desc_views(catalog.derived_features@),
            forall|t: int| 0 <= t < rev@.len() ==> codegen_domain(
                orig[m - 1 - t],
                #[trigger] rev@[t],
                first_with_id(orig, m - 1 - t),
                ds,
            ),
            forall|t: int| 0 <= t < out@.len() ==> codegen_domain(
                orig[t],
                #[trigger] out@[t],
                first_with_id(orig, t),
                ds,
            ),
        decreases rev@.len(),
    {
        let ghost r0 = rev@;
        let d = rev.pop().unwrap();
        assert(d == r0[r0.len() - 1]);
        out.push(d);
        assert(forall|t: int| 0 <= t < rev@.len() ==> rev@[t] == r0[t]);
    }
    catalog.domains = out;
}

/// Growing two field lists that hold the same rows, with each id's rows in
/// the same order, gives lists with each id's rows in the same order.
pub proof fn lemma_grow_fields_keeps_id_order(
    a: Seq<FieldView>,
    b: Seq<FieldView>,
    ds: Seq<DescriptorView>,
    k: Seq<char>,
)
    requires
        a.to_multiset() == b.to_multiset(),
        views_with_id(a, k) == views_with_id(b, k),
    ensures
        views_with_id(grow_fields(a, ds), k) == views_with_id(grow_fields(b, ds), k),
    decreases ds.len(),
{
    broadcast use vstd::seq_lib::group_to_multiset_ensures;

    if ds.len() > 0 {
        lemma_grow_fields_keeps_id_order(a, b, ds.drop_last(), k);
        lemma_grow_fields_permutation(a, b, ds.drop_last());
        let pa = grow_fields(a, ds.drop_last());
        let pb = grow_fields(b, ds.drop_last());
        lemma_permutation_maps(pa, pb, |f: FieldView| f.id);
        assert(field_ids_of(pa) =~= pa.map_values(|f: FieldView| f.id));
        assert(field_ids_of(pb) =~= pb.map_values(|f: FieldView| f.id));
        let d = ds.last();
        assert(field_ids_of(pa).contains(d.id) <==> field_ids_of(pa).to_multiset().count(d.id) > 0);
        assert(field_ids_of(pb).contains(d.id) <==> field_ids_of(pb).to_multiset().count(d.id) > 0);
        if grows_catalog(d) && !field_ids_of(pa).contains(d.id) {
            let g = generated_view(d);
            reveal(Seq::filter);
            assert(pa.push(g).drop_last() =~= pa);
            assert(pb.push(g).drop_last() =~= pb);
        }
    }
}

/// Descriptors that are not `active` grow nothing: codegen adds no field and
/// touches no domain until a Derived Feature is promoted to `active`.
pub proof fn lemma_inactive_features_grow_nothing(
    fs: Seq<FieldView>,
    ids: Seq<Seq<char>>,
    ds: Seq<DescriptorView>,
    dom: Seq<char>,
)
    requires
        forall|i: int| 0 <= i < ds.len() ==> (#[trigger] ds[i]).promotion_state != PromotionState::Active,
    ensures
        grow_fields(fs, ds) == fs,
        grow_ids(ids, ds, dom) == ids,
        !targets_domain(ds, dom),
    decreases ds.len(),
{
    if ds.len() > 0 {
        assert forall|i: int| 0 <= i < ds.drop_last().len() implies (#[trigger] ds.drop_last()[i]).promotion_state
            != PromotionState::Active by {
            assert(ds.drop_last()[i] == ds[i]);
        }
        lemma_inactive_features_grow_nothing(fs, ids, ds.drop_last(), dom);
        assert(ds.last() == ds[ds.len() - 1]);
    }
}

/// Codegen never adds a field whose id the catalog already has: ids that were
/// distinct stay distinct.
pub proof fn lemma_codegen_keeps_field_ids_distinct(fs: Seq<FieldView>, ds: Seq<DescriptorView>)
    requires
        field_ids_of(fs).no_duplicates(),
    ensures
        field_ids_of(grow_fields(fs, ds)).no_duplicates(),
    decreases ds.len(),
{
    if ds.len() > 0 {
        lemma_codegen_keeps_field_ids_distinct(fs, ds.drop_last());
        let prev = grow_fields(fs, ds.drop_last());
        let d = ds.last();
        if grows_catalog(d) && !field_ids_of(prev).contains(d.id) {
            let next = prev.push(generated_view(d));
            assert(field_ids_of(next) =~= field_ids_of(prev).push(d.id));
            assert forall|i: int, j: int| 0 <= i < j < field_ids_of(next).len() implies field_ids_of(
                next,
            )[i] != field_ids_of(next)[j] by {
                if j == field_ids_of(prev).len() {
                    assert(field_ids_of(prev)[i] == field_ids_of(next)[i]);
                }
            }
        }
    }
}

/// Codegen adds the same fields whatever the order of the catalog's fields.
pub proof fn lemma_grow_fields_permutation(a: Seq<FieldView>, b: Seq<FieldView>, ds: Seq<DescriptorView>)
    requires
        a.to_multiset() == b.to_multiset(),
    ensures
        grow_fields(a, ds).to_multiset() == grow_fields(b, ds).to_multiset(),
    decreases ds.len(),
{
    broadcast use vstd::seq_lib::group_to_multiset_ensures;

    if ds.len() > 0 {
        lemma_grow_fields_permutation(a, b, ds.drop_last());
        let pa = grow_fields(a, ds.drop_last());
        let pb = grow_fields(b, ds.drop_last());
        lemma_permutation_maps(pa, pb, |f: FieldView| f.id);
        assert(field_ids_of(pa) =~= pa.map_values(|f: FieldView| f.id));
        assert(field_ids_of(pb) =~= pb.map_values(|f: FieldView| f.id));
        let id = ds.last().id;
        assert(field_ids_of(pa).contains(id) <==> field_ids_of(pa).to_multiset().count(id) > 0);
        assert(field_ids_of(pb).contains(id) <==> field_ids_of(pb).to_multiset().count(id) > 0);
    }
}

/// Every descriptor that grows the catalog has its id among the grown fields.
pub proof fn lemma_grown_fields_hold_ids(fs: Seq<FieldView>, ds: Seq<DescriptorView>, i: int)
    requires
        0 <= i < ds.len(),
        grows_catalog(ds[i]),
    ensures
        field_ids_of(grow_fields(fs, ds)).contains(ds[i].id),
    decreases ds.len(),
{
    let prev = grow_fields(fs, ds.drop_last());
    let d = ds.last();
    if i < ds.len() - 1 {
        assert(ds.drop_last()[i] == ds[i]);
        lemma_grown_fields_hold_ids(fs, ds.drop_last(), i);
    }
    if grows_catalog(d) && !field_ids_of(prev).contains(d.id) {
        let next = prev.push(generated_view(d));
        assert(field_ids_of(next) =~= field_ids_of(prev).push(d.id));
        if i < ds.len() - 1 {
            let j = choose|j: int| 0 <= j < field_ids_of(prev).len() && field_ids_of(prev)[j] == ds[i].id;
            assert(field_ids_of(next)[j] == ds[i].id);
        } else {
            assert(field_ids_of(next)[field_ids_of(prev).len() as int] == d.id);
        }
    }
}

/// Fields that already hold the id of every descriptor that grows the catalog
/// grow no further.
proof fn lemma_grow_fields_settled(g: Seq<FieldView>, ds: Seq<DescriptorView>)
    requires
        forall|i: int| 0 <= i < ds.len() && grows_catalog(#[trigger] ds[i]) ==> field_ids_of(g).contains(
            ds[i].id,
        ),
    ensures
        grow_fields(g, ds) == g,
    decreases ds.len(),
{
    if ds.len() > 0 {
        assert forall|i: int| 0 <= i < ds.drop_last().len() && grows_catalog(
            #[trigger] ds.drop_last()[i],
        ) implies field_ids_of(g).contains(ds.drop_last()[i].id) by {
            assert(ds.drop_last()[i] == ds[i]);
        }
        lemma_grow_fields_settled(g, ds.drop_last());
        assert(ds.last() == ds[ds.len() - 1]);
    }
}

/// Codegen is idempotent on the catalog's fields: once the generated fields of
/// `ds` are merged (in whatever order the fields end up), merging them again
/// adds nothing.
pub proof fn lemma_codegen_fields_idempotent(fs: Seq<FieldView>, merged: Seq<FieldView>, ds: Seq<DescriptorView>)
    requires
        merged.to_multiset() == grow_fields(fs, ds).to_multiset(),
    ensures
        grow_fields(merged, ds) == merged,
{
    broadcast use vstd::seq_lib::group_to_multiset_ensures;

    let g = grow_fields(fs, ds);
    lemma_permutation_maps(merged, g, |f: FieldView| f.id);
    assert(field_ids_of(merged) =~= merged.map_values(|f: FieldView| f.id));
    assert(field_ids_of(g) =~= g.map_values(|f: FieldView| f.id));
    assert forall|i: int| 0 <= i < ds.len() && grows_catalog(#[trigger] ds[i]) implies field_ids_of(
        merged,
    ).contains(ds[i].id) by {
        lemma_grown_fields_hold_ids(fs, ds, i);
        assert(field_ids_of(g).to_multiset().count(ds[i].id) > 0);
        assert(field_ids_of(merged).to_multiset().count(ds[i].id) > 0);
    }
    lemma_grow_fields_settled(merged, ds);
}

/// Each descriptor that grows the catalog in domain `dom` has its id among
/// that domain's grown field ids.
pub proof fn lemma_grown_ids_hold_ids(ids: Seq<Seq<char>>, ds: Seq<DescriptorView>, dom: Seq<char>, i: int)
    requires
        0 <= i < ds.len(),
        grows_catalog(ds[i]),
        ds[i].domain_id == dom,
    ensures
        grow_ids(ids, ds, dom).contains(ds[i].id),
    decreases ds.len(),
{
    let prev = grow_ids(ids, ds.drop_last(), dom);
    let d = ds.last();
    if i < ds.len() - 1 {
        assert(ds.drop_last()[i] == ds[i]);
        lemma_grown_ids_hold_ids(ids, ds.drop_last(), dom, i);
    }
    if grows_catalog(d) && d.domain_id == dom && !prev.contains(d.id) {
        if i < ds.len() - 1 {
            let j = choose|j: int| 0 <= j < prev.len() && prev[j] == ds[i].id;
            assert(prev.push(d.id)[j] == ds[i].id);
        } else {
            assert(prev.push(d.id)[prev.len() as int] == d.id);
        }
    }
}

/// Domain ids that already hold every id the descriptors add grow no further.
proof fn lemma_grow_ids_settled(ids: Seq<Seq<char>>, ds: Seq<DescriptorView>, dom: Seq<char>)
    requires
        forall|i: int| 0 <= i < ds.len() && grows_catalog(#[trigger] ds[i]) && ds[i].domain_id == dom
            ==> ids.contains(ds[i].id),
    ensures
        grow_ids(ids, ds, dom) == ids,
    decreases ds.len(),
{
    if ds.len() > 0 {
        assert forall|i: int| 0 <= i < ds.drop_last().len() && grows_catalog(
            #[trigger] ds.drop_last()[i],
        ) && ds.drop_last()[i].domain_id == dom implies ids.contains(ds.drop_last()[i].id) by {
            assert(ds.drop_last()[i] == ds[i]);
        }
        lemma_grow_ids_settled(ids, ds.drop_last(), dom);
        assert(ds.last() == ds[ds.len() - 1]);
    }
}

/// Codegen is idempotent on a domain's field ids: once the ids of `ds` are
/// merged (in whatever order they end up), merging them again adds nothing.
pub proof fn lemma_codegen_domain_ids_idempotent(
    ids: Seq<Seq<char>>,
    merged: Seq<Seq<char>>,
    ds: Seq<DescriptorView>,
    dom: Seq<char>,
)
    requires
        merged.to_multiset() == grow_ids(ids, ds, dom).to_multiset(),
    ensures
        grow_ids(merged, ds, dom) == merged,
{
    broadcast use vstd::seq_lib::group_to_multiset_ensures;

    let g = grow_ids(ids, ds, dom);
    assert forall|i: int| 0 <= i < ds.len() && grows_catalog(#[trigger] ds[i]) && ds[i].domain_id == dom
        implies merged.contains(ds[i].id) by {
        lemma_grown_ids_hold_ids(ids, ds, dom, i);
        assert(g.to_multiset().count(ds[i].id) > 0);
        assert(merged.to_multiset().count(ds[i].id) > 0);
    }
    lemma_grow_ids_settled(merged, ds, dom);
}

} // verus!
