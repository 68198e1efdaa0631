//! Trust Level capability tags for the kernel / tool surface.
//!
//! Trust Ceiling stays L3 (human executes). Read/query kernel operators run at
//! Trust Level L0 and carry neither mutation nor order authority.

use vstd::prelude::*;

use crate::envelope::TrustLevel;
use crate::text::{chars_of, key_in, starts_with, starts_with_exec, views};

verus! {

/// Capability record for one MCP tool.
#[derive(Debug, Clone, Copy, PartialEq, Eq, Structural)]
pub struct ToolCapability {
    pub trust_level: TrustLevel,
    /// When true, the tool may mutate workflow-verb state.
    pub mutation_authority: bool,
    /// When true, the tool may reach order placement / modification state.
    pub order_authority: bool,
}

impl ToolCapability {
    /// Read/query kernel capability (Trust Level L0).
    pub fn read_query_l0() -> (r: ToolCapability)
        ensures
            r.trust_level == TrustLevel::L0,
            !r.mutation_authority,
            !r.order_authority,
    {
        ToolCapability { trust_level: TrustLevel::L0, mutation_authority: false, order_authority: false }
    }
}

/// Kernel operators registered behind `[sil].catalog_discovery`.
pub const KERNEL_READ_QUERY_TOOLS: [&'static str; 9] = [
    "describe_environment",
    "describe_domain",
    "search_catalog",
    "get_state",
    "get_events",
    "query_series",
    "query_episodes",
    "query_raw",
    "run_job",
];

/// Name prefixes that carry mutation authority on the tool surface.
pub const MUTATION_PREFIXES: [&'static str; 24] = [
    "save_",
    "upsert_",
    "mark_",
    "acknowledge_",
    "close_",
    "create_",
    "register_",
    "set_",
    "transition_",
    "import_",
    "init_",
    "start_",
    "end_",
    "detect_",
    "propose_",
    "activate_",
    "cancel_",
    "ingest_",
    "archive_",
    "backfill_",
    "run_",
    "refresh_memory",
    "refresh_options",
    "seed_",
];

/// Explicit mutation verbs that don't match prefixes cleanly.
pub const MUTATION_EXACT: [&'static str; 4] = [
    "record_trade_result",
    "update_attention_signal_status",
    "positioning_entry",
    "feature_registry",
];

/// The capability map of the kernel read/query tools: every tool, in order,
/// at L0 with no mutation or order authority.
pub fn kernel_read_query_capabilities() -> (r: Vec<(&'static str, ToolCapability)>)
    ensures
        r@.len() == KERNEL_READ_QUERY_TOOLS@.len(),
        forall|i: int| 0 <= i < r@.len() ==> (#[trigger] r@[i]).0 == KERNEL_READ_QUERY_TOOLS@[i]
            && r@[i].1.trust_level == TrustLevel::L0 && !r@[i].1.mutation_authority
            && !r@[i].1.order_authority,
{
    let mut r: Vec<(&'static str, ToolCapability)> = Vec::new();
    let n = KERNEL_READ_QUERY_TOOLS.len();
    let mut i: usize = 0;
    while i < n
        invariant
            n == KERNEL_READ_QUERY_TOOLS@.len(),
            i <= n,
            r@.len() == i,
            forall|j: int| 0 <= j < i ==> (#[trigger] r@[j]).0 == KERNEL_READ_QUERY_TOOLS@[j]
                && r@[j].1.trust_level == TrustLevel::L0 && !r@[j].1.mutation_authority
                && !r@[j].1.order_authority,
        decreases n - i,
    {
        r.push((KERNEL_READ_QUERY_TOOLS[i], ToolCapability::read_query_l0()));
        i = i + 1;
    }
    r
}

/// Returns true when a tool name is a known read/query kernel operator.
pub fn is_kernel_read_query_tool(name: &str) -> (r: bool)
    ensures
        r == views(KERNEL_READ_QUERY_TOOLS@).contains(name@),
{
    let k = chars_of(name);
    key_in(&k, &KERNEL_READ_QUERY_TOOLS)
}

/// Some mutation prefix starts `name`.
pub open spec fn has_mutation_prefix(name: Seq<char>) -> bool {
    exists|i: int| 0 <= i < MUTATION_PREFIXES@.len() && starts_with(name, #[trigger] MUTATION_PREFIXES@[i]@)
}

/// Mutation heuristic: an explicit mutation verb, or (except `run_job`, an L0
/// query operator) a name starting with a mutation prefix.
pub open spec fn implies_mutation(name: Seq<char>) -> bool {
    if views(MUTATION_EXACT@).contains(name) {
        true
    } else if name == "run_job"@ {
        false
    } else {
        has_mutation_prefix(name)
    }
}

/// Heuristic: tool names that carry mutation authority on the existing surface.
pub fn tool_name_implies_mutation(name: &str) -> (r: bool)
    ensures
        r == implies_mutation(name@),
{
    let k = chars_of(name);
    if key_in(&k, &MUTATION_EXACT) {
        return true;
    }
    let run_job = chars_of("run_job");
    if crate::text::same_chars(&k, &run_job) {
        return false;
    }
    let n = MUTATION_PREFIXES.len();
    let mut i: usize = 0;
    while i < n
        invariant
            n == MUTATION_PREFIXES@.len(),
            i <= n,
            k@ == name@,
            !views(MUTATION_EXACT@).contains(name@),
            name@ != "run_job"@,
            forall|j: int| 0 <= j < i ==> !starts_with(k@, #[trigger] MUTATION_PREFIXES@[j]@),
        decreases n - i,
    {
        let p = chars_of(MUTATION_PREFIXES[i]);
        if starts_with_exec(&k, &p) {
            assert(starts_with(name@, MUTATION_PREFIXES@[i as int]@));
            return true;
        }
        i = i + 1;
    }
    false
}

} // verus!

verus! {

/// `p` is not a prefix of `s` when they differ at some index below `p`'s length.
pub proof fn lemma_not_prefix(s: Seq<char>, p: Seq<char>, j: int)
    requires
        0 <= j < p.len(),
        j < s.len() ==> s[j] != p[j],
    ensures
        !starts_with(s, p),
{
    if starts_with(s, p) {
        assert(s.subrange(0, p.len() as int)[j] == s[j]);
    }
}

proof fn lemma_kernel_tool_0_not_mutation()
    ensures
        !implies_mutation(KERNEL_READ_QUERY_TOOLS@[0]@),
{
    reveal_strlit("acknowledge_");
    reveal_strlit("activate_");
    reveal_strlit("archive_");
    reveal_strlit("backfill_");
    reveal_strlit("cancel_");
    reveal_strlit("close_");
    reveal_strlit("create_");
    reveal_strlit("describe_environment");
    reveal_strlit("detect_");
    reveal_strlit("end_");
    reveal_strlit("feature_registry");
    reveal_strlit("import_");
    reveal_strlit("ingest_");
    reveal_strlit("init_");
    reveal_strlit("mark_");
    reveal_strlit("positioning_entry");
    reveal_strlit("propose_");
    reveal_strlit("record_trade_result");
    reveal_strlit("refresh_memory");
    reveal_strlit("refresh_options");
    reveal_strlit("register_");
    reveal_strlit("run_");
    reveal_strlit("run_job");
    reveal_strlit("save_");
    reveal_strlit("seed_");
    reveal_strlit("set_");
    reveal_strlit("start_");
    reveal_strlit("transition_");
    reveal_strlit("update_attention_signal_status");
    reveal_strlit("upsert_");
    assert(KERNEL_READ_QUERY_TOOLS@[0]@ == "describe_environment"@);
    assert("describe_environment"@.len() != "record_trade_result"@.len());
    assert("describe_environment"@.len() != "update_attention_signal_status"@.len());
    assert("describe_environment"@.len() != "positioning_entry"@.len());
    assert("describe_environment"@.len() != "feature_registry"@.len());
    assert(!views(MUTATION_EXACT@).contains("describe_environment"@)) by {
        if views(MUTATION_EXACT@).contains("describe_environment"@) {
            let i = choose|i: int| 0 <= i < views(MUTATION_EXACT@).len() && views(MUTATION_EXACT@)[i] == "describe_environment"@;
        }
    }
    assert("describe_environment"@.len() != "run_job"@.len());
    assert forall|i: int| 0 <= i < MUTATION_PREFIXES@.len() implies !starts_with("describe_environment"@, #[trigger] MUTATION_PREFIXES@[i]@) by {
        if i == 0 {
            lemma_not_prefix("describe_environment"@, "save_"@, 0);
        } else if i == 1 {
            lemma_not_prefix("describe_environment"@, "upsert_"@, 0);
        } else if i == 2 {
            lemma_not_prefix("describe_environment"@, "mark_"@, 0);
        } else if i == 3 {
            lemma_not_prefix("describe_environment"@, "acknowledge_"@, 0);
        } else if i == 4 {
            lemma_not_prefix("describe_environment"@, "close_"@, 0);
        } else if i == 5 {
            lemma_not_prefix("describe_environment"@, "create_"@, 0);
        } else if i == 6 {
            lemma_not_prefix("describe_environment"@, "register_"@, 0);
        } else if i == 7 {
            lemma_not_prefix("describe_environment"@, "set_"@, 0);
        } else if i == 8 {
            lemma_not_prefix("describe_environment"@, "transition_"@, 0);
        } else if i == 9 {
            lemma_not_prefix("describe_environment"@, "import_"@, 0);
        } else if i == 10 {
            lemma_not_prefix("describe_environment"@, "init_"@, 0);
        } else if i == 11 {
            lemma_not_prefix("describe_environment"@, "start_"@, 0);
        } else if i == 12 {
            lemma_not_prefix("describe_environment"@, "end_"@, 0);
        } else if i == 13 {
            lemma_not_prefix("describe_environment"@, "detect_"@, 2);
        } else if i == 14 {
            lemma_not_prefix("describe_environment"@, "propose_"@, 0);
        } else if i == 15 {
            lemma_not_prefix("describe_environment"@, "activate_"@, 0);
        } else if i == 16 {
            lemma_not_prefix("describe_environment"@, "cancel_"@, 0);
        } else if i == 17 {
            lemma_not_prefix("describe_environment"@, "ingest_"@, 0);
        } else if i == 18 {
            lemma_not_prefix("describe_environment"@, "archive_"@, 0);
        } else if i == 19 {
            lemma_not_prefix("describe_environment"@, "backfill_"@, 0);
        } else if i == 20 {
            lemma_not_prefix("describe_environment"@, "run_"@, 0);
        } else if i == 21 {
            lemma_not_prefix("describe_environment"@, "refresh_memory"@, 0);
        } else if i == 22 {
            lemma_not_prefix("describe_environment"@, "refresh_options"@, 0);
        } else if i == 23 {
            lemma_not_prefix("describe_environment"@, "seed_"@, 0);
        }
    }
}

proof fn lemma_kernel_tool_1_not_mutation()
    ensures
        !implies_mutation(KERNEL_READ_QUERY_TOOLS@[1]@),
{
    reveal_strlit("acknowledge_");
    reveal_strlit("activate_");
    reveal_strlit("archive_");
    reveal_strlit("backfill_");
    reveal_strlit("cancel_");
    reveal_strlit("close_");
    reveal_strlit("create_");
    reveal_strlit("describe_domain");
    reveal_strlit("detect_");
    reveal_strlit("end_");
    reveal_strlit("feature_registry");
    reveal_strlit("import_");
    reveal_strlit("ingest_");
    reveal_strlit("init_");
    reveal_strlit("mark_");
    reveal_strlit("positioning_entry");
    reveal_strlit("propose_");
    reveal_strlit("record_trade_result");
    reveal_strlit("refresh_memory");
    reveal_strlit("refresh_options");
    reveal_strlit("register_");
    reveal_strlit("run_");
    reveal_strlit("run_job");
    reveal_strlit("save_");
    reveal_strlit("seed_");
    reveal_strlit("set_");
    reveal_strlit("start_");
    reveal_strlit("transition_");
    reveal_strlit("update_attention_signal_status");
    reveal_strlit("upsert_");
    assert(KERNEL_READ_QUERY_TOOLS@[1]@ == "describe_domain"@);
    assert("describe_domain"@.len() != "record_trade_result"@.len());
    assert("describe_domain"@.len() != "update_attention_signal_status"@.len());
    assert("describe_domain"@.len() != "positioning_entry"@.len());
    assert("describe_domain"@.len() != "feature_registry"@.len());
    assert(!views(MUTATION_EXACT@).contains("describe_domain"@)) by {
        if views(MUTATION_EXACT@).contains("describe_domain"@) {
            let i = choose|i: int| 0 <= i < views(MUTATION_EXACT@).len() && views(MUTATION_EXACT@)[i] == "describe_domain"@;
        }
    }
    assert("describe_domain"@.len() != "run_job"@.len());
    assert forall|i: int| 0 <= i < MUTATION_PREFIXES@.len() implies !starts_with("describe_domain"@, #[trigger] MUTATION_PREFIXES@[i]@) by {
        if i == 0 {
            lemma_not_prefix("describe_domain"@, "save_"@, 0);
        } else if i == 1 {
            lemma_not_prefix("describe_domain"@, "upsert_"@, 0);
        } else if i == 2 {
            lemma_not_prefix("describe_domain"@, "mark_"@, 0);
        } else if i == 3 {
            lemma_not_prefix("describe_domain"@, "acknowledge_"@, 0);
        } else if i == 4 {
            lemma_not_prefix("describe_domain"@, "close_"@, 0);
        } else if i == 5 {
            lemma_not_prefix("describe_domain"@, "create_"@, 0);
        } else if i == 6 {
            lemma_not_prefix("describe_domain"@, "register_"@, 0);
        } else if i == 7 {
            lemma_not_prefix("describe_domain"@, "set_"@, 0);
        } else if i == 8 {
            lemma_not_prefix("describe_domain"@, "transition_"@, 0);
        } else if i == 9 {
            lemma_not_prefix("describe_domain"@, "import_"@, 0);
        } else if i == 10 {
            lemma_not_prefix("describe_domain"@, "init_"@, 0);
        } else if i == 11 {
            lemma_not_prefix("describe_domain"@, "start_"@, 0);
        } else if i == 12 {
            lemma_not_prefix("describe_domain"@, "end_"@, 0);
        } else if i == 13 {
            lemma_not_prefix("describe_domain"@, "detect_"@, 2);
        } else if i == 14 {
            lemma_not_prefix("describe_domain"@, "propose_"@, 0);
        } else if i == 15 {
            lemma_not_prefix("describe_domain"@, "activate_"@, 0);
        } else if i == 16 {
            lemma_not_prefix("describe_domain"@, "cancel_"@, 0);
        } else if i == 17 {
            lemma_not_prefix("describe_domain"@, "ingest_"@, 0);
        } else if i == 18 {
            lemma_not_prefix("describe_domain"@, "archive_"@, 0);
        } else if i == 19 {
            lemma_not_prefix("describe_domain"@, "backfill_"@, 0);
        } else if i == 20 {
            lemma_not_prefix("describe_domain"@, "run_"@, 0);
        } else if i == 21 {
            lemma_not_prefix("describe_domain"@, "refresh_memory"@, 0);
        } else if i == 22 {
            lemma_not_prefix("describe_domain"@, "refresh_options"@, 0);
        } else if i == 23 {
            lemma_not_prefix("describe_domain"@, "seed_"@, 0);
        }
    }
}

proof fn lemma_kernel_tool_2_not_mutation()
    ensures
        !implies_mutation(KERNEL_READ_QUERY_TOOLS@[2]@),
{
    reveal_strlit("acknowledge_");
    reveal_strlit("activate_");
    reveal_strlit("archive_");
    reveal_strlit("backfill_");
    reveal_strlit("cancel_");
    reveal_strlit("close_");
    reveal_strlit("create_");
    reveal_strlit("detect_");
    reveal_strlit("end_");
    reveal_strlit("feature_registry");
    reveal_strlit("import_");
    reveal_strlit("ingest_");
    reveal_strlit("init_");
    reveal_strlit("mark_");
    reveal_strlit("positioning_entry");
    reveal_strlit("propose_");
    reveal_strlit("record_trade_result");
    reveal_strlit("refresh_memory");
    reveal_strlit("refresh_options");
    reveal_strlit("register_");
    reveal_strlit("run_");
    reveal_strlit("run_job");
    reveal_strlit("save_");
    reveal_strlit("search_catalog");
    reveal_strlit("seed_");
    reveal_strlit("set_");
    reveal_strlit("start_");
    reveal_strlit("transition_");
    reveal_strlit("update_attention_signal_status");
    reveal_strlit("upsert_");
    assert(KERNEL_READ_QUERY_TOOLS@[2]@ == "search_catalog"@);
    assert("search_catalog"@.len() != "record_trade_result"@.len());
    assert("search_catalog"@.len() != "update_attention_signal_status"@.len());
    assert("search_catalog"@.len() != "positioning_entry"@.len());
    assert("search_catalog"@.len() != "feature_registry"@.len());
    assert(!views(MUTATION_EXACT@).contains("search_catalog"@)) by {
        if views(MUTATION_EXACT@).contains("search_catalog"@) {
            let i = choose|i: int| 0 <= i < views(MUTATION_EXACT@).len() && views(MUTATION_EXACT@)[i] == "search_catalog"@;
        }
    }
    assert("search_catalog"@.len() != "run_job"@.len());
    assert forall|i: int| 0 <= i < MUTATION_PREFIXES@.len() implies !starts_with("search_catalog"@, #[trigger] MUTATION_PREFIXES@[i]@) by {
        if i == 0 {
            lemma_not_prefix("search_catalog"@, "save_"@, 1);
        } else if i == 1 {
            lemma_not_prefix("search_catalog"@, "upsert_"@, 0);
        } else if i == 2 {
            lemma_not_prefix("search_catalog"@, "mark_"@, 0);
        } else if i == 3 {
            lemma_not_prefix("search_catalog"@, "acknowledge_"@, 0);
        } else if i == 4 {
            lemma_not_prefix("search_catalog"@, "close_"@, 0);
        } else if i == 5 {
            lemma_not_prefix("search_catalog"@, "create_"@, 0);
        } else if i == 6 {
            lemma_not_prefix("search_catalog"@, "register_"@, 0);
        } else if i == 7 {
            lemma_not_prefix("search_catalog"@, "set_"@, 2);
        } else if i == 8 {
            lemma_not_prefix("search_catalog"@, "transition_"@, 0);
        } else if i == 9 {
            lemma_not_prefix("search_catalog"@, "import_"@, 0);
        } else if i == 10 {
            lemma_not_prefix("search_catalog"@, "init_"@, 0);
        } else if i == 11 {
            lemma_not_prefix("search_catalog"@, "start_"@, 1);
        } else if i == 12 {
            lemma_not_prefix("search_catalog"@, "end_"@, 0);
        } else if i == 13 {
            lemma_not_prefix("search_catalog"@, "detect_"@, 0);
        } else if i == 14 {
            lemma_not_prefix("search_catalog"@, "propose_"@, 0);
        } else if i == 15 {
            lemma_not_prefix("search_catalog"@, "activate_"@, 0);
        } else if i == 16 {
            lemma_not_prefix("search_catalog"@, "cancel_"@, 0);
        } else if i == 17 {
            lemma_not_prefix("search_catalog"@, "ingest_"@, 0);
        } else if i == 18 {
            lemma_not_prefix("search_catalog"@, "archive_"@, 0);
        } else if i == 19 {
            lemma_not_prefix("search_catalog"@, "backfill_"@, 0);
        } else if i == 20 {
            lemma_not_prefix("search_catalog"@, "run_"@, 0);
        } else if i == 21 {
            lemma_not_prefix("search_catalog"@, "refresh_memory"@, 0);
        } else if i == 22 {
            lemma_not_prefix("search_catalog"@, "refresh_options"@, 0);
        } else if i == 23 {
            lemma_not_prefix("search_catalog"@, "seed_"@, 2);
        }
    }
}

proof fn lemma_kernel_tool_3_not_mutation()
    ensures
        !implies_mutation(KERNEL_READ_QUERY_TOOLS@[3]@),
{
    reveal_strlit("acknowledge_");
    reveal_strlit("activate_");
    reveal_strlit("archive_");
    reveal_strlit("backfill_");
    reveal_strlit("cancel_");
    reveal_strlit("close_");
    reveal_strlit("create_");
    reveal_strlit("detect_");
    reveal_strlit("end_");
    reveal_strlit("feature_registry");
    reveal_strlit("get_state");
    reveal_strlit("import_");
    reveal_strlit("ingest_");
    reveal_strlit("init_");
    reveal_strlit("mark_");
    reveal_strlit("positioning_entry");
    reveal_strlit("propose_");
    reveal_strlit("record_trade_result");
    reveal_strlit("refresh_memory");
    reveal_strlit("refresh_options");
    reveal_strlit("register_");
    reveal_strlit("run_");
    reveal_strlit("run_job");
    reveal_strlit("save_");
    reveal_strlit("seed_");
    reveal_strlit("set_");
    reveal_strlit("start_");
    reveal_strlit("transition_");
    reveal_strlit("update_attention_signal_status");
    reveal_strlit("upsert_");
    assert(KERNEL_READ_QUERY_TOOLS@[3]@ == "get_state"@);
    assert("get_state"@.len() != "record_trade_result"@.len());
    assert("get_state"@.len() != "update_attention_signal_status"@.len());
    assert("get_state"@.len() != "positioning_entry"@.len());
    assert("get_state"@.len() != "feature_registry"@.len());
    assert(!views(MUTATION_EXACT@).contains("get_state"@)) by {
        if views(MUTATION_EXACT@).contains("get_state"@) {
            let i = choose|i: int| 0 <= i < views(MUTATION_EXACT@).len() && views(MUTATION_EXACT@)[i] == "get_state"@;
        }
    }
    assert("get_state"@.len() != "run_job"@.len());
    assert forall|i: int| 0 <= i < MUTATION_PREFIXES@.len() implies !starts_with("get_state"@, #[trigger] MUTATION_PREFIXES@[i]@) by {
        if i == 0 {
            lemma_not_prefix("get_state"@, "save_"@, 0);
        } else if i == 1 {
            lemma_not_prefix("get_state"@, "upsert_"@, 0);
        } else if i == 2 {
            lemma_not_prefix("get_state"@, "mark_"@, 0);
        } else if i == 3 {
            lemma_not_prefix("get_state"@, "acknowledge_"@, 0);
        } else if i == 4 {
            lemma_not_prefix("get_state"@, "close_"@, 0);
        } else if i == 5 {
            lemma_not_prefix("get_state"@, "create_"@, 0);
        } else if i == 6 {
            lemma_not_prefix("get_state"@, "register_"@, 0);
        } else if i == 7 {
            lemma_not_prefix("get_state"@, "set_"@, 0);
        } else if i == 8 {
            lemma_not_prefix("get_state"@, "transition_"@, 0);
        } else if i == 9 {
            lemma_not_prefix("get_state"@, "import_"@, 0);
        } else if i == 10 {
            lemma_not_prefix("get_state"@, "init_"@, 0);
        } else if i == 11 {
            lemma_not_prefix("get_state"@, "start_"@, 0);
        } else if i == 12 {
            lemma_not_prefix("get_state"@, "end_"@, 0);
        } else if i == 13 {
            lemma_not_prefix("get_state"@, "detect_"@, 0);
        } else if i == 14 {
            lemma_not_prefix("get_state"@, "propose_"@, 0);
        } else if i == 15 {
            lemma_not_prefix("get_state"@, "activate_"@, 0);
        } else if i == 16 {
            lemma_not_prefix("get_state"@, "cancel_"@, 0);
        } else if i == 17 {
            lemma_not_prefix("get_state"@, "ingest_"@, 0);
        } else if i == 18 {
            lemma_not_prefix("get_state"@, "archive_"@, 0);
        } else if i == 19 {
            lemma_not_prefix("get_state"@, "backfill_"@, 0);
        } else if i == 20 {
            lemma_not_prefix("get_state"@, "run_"@, 0);
        } else if i == 21 {
            lemma_not_prefix("get_state"@, "refresh_memory"@, 0);
        } else if i == 22 {
            lemma_not_prefix("get_state"@, "refresh_options"@, 0);
        } else if i == 23 {
            lemma_not_prefix("get_state"@, "seed_"@, 0);
        }
    }
}

proof fn lemma_kernel_tool_4_not_mutation()
    ensures
        !implies_mutation(KERNEL_READ_QUERY_TOOLS@[4]@),
{
    reveal_strlit("acknowledge_");
    reveal_strlit("activate_");
    reveal_strlit("archive_");
    reveal_strlit("backfill_");
    reveal_strlit("cancel_");
    reveal_strlit("close_");
    reveal_strlit("create_");
    reveal_strlit("detect_");
    reveal_strlit("end_");
    reveal_strlit("feature_registry");
    reveal_strlit("get_events");
    reveal_strlit("import_");
    reveal_strlit("ingest_");
    reveal_strlit("init_");
    reveal_strlit("mark_");
    reveal_strlit("positioning_entry");
    reveal_strlit("propose_");
    reveal_strlit("record_trade_result");
    reveal_strlit("refresh_memory");
    reveal_strlit("refresh_options");
    reveal_strlit("register_");
    reveal_strlit("run_");
    reveal_strlit("run_job");
    reveal_strlit("save_");
    reveal_strlit("seed_");
    reveal_strlit("set_");
    reveal_strlit("start_");
    reveal_strlit("transition_");
    reveal_strlit("update_attention_signal_status");
    reveal_strlit("upsert_");
    assert(KERNEL_READ_QUERY_TOOLS@[4]@ == "get_events"@);
    assert("get_events"@.len() != "record_trade_result"@.len());
    assert("get_events"@.len() != "update_attention_signal_status"@.len());
    assert("get_events"@.len() != "positioning_entry"@.len());
    assert("get_events"@.len() != "feature_registry"@.len());
    assert(!views(MUTATION_EXACT@).contains("get_events"@)) by {
        if views(MUTATION_EXACT@).contains("get_events"@) {
            let i = choose|i: int| 0 <= i < views(MUTATION_EXACT@).len() && views(MUTATION_EXACT@)[i] == "get_events"@;
        }
    }
    assert("get_events"@.len() != "run_job"@.len());
    assert forall|i: int| 0 <= i < MUTATION_PREFIXES@.len() implies !starts_with("get_events"@, #[trigger] MUTATION_PREFIXES@[i]@) by {
        if i == 0 {
            lemma_not_prefix("get_events"@, "save_"@, 0);
        } else if i == 1 {
            lemma_not_prefix("get_events"@, "upsert_"@, 0);
        } else if i == 2 {
            lemma_not_prefix("get_events"@, "mark_"@, 0);
        } else if i == 3 {
            lemma_not_prefix("get_events"@, "acknowledge_"@, 0);
        } else if i == 4 {
            lemma_not_prefix("get_events"@, "close_"@, 0);
        } else if i == 5 {
            lemma_not_prefix("get_events"@, "create_"@, 0);
        } else if i == 6 {
            lemma_not_prefix("get_events"@, "register_"@, 0);
        } else if i == 7 {
            lemma_not_prefix("get_events"@, "set_"@, 0);
        } else if i == 8 {
            lemma_not_prefix("get_events"@, "transition_"@, 0);
        } else if i == 9 {
            lemma_not_prefix("get_events"@, "import_"@, 0);
        } else if i == 10 {
            lemma_not_prefix("get_events"@, "init_"@, 0);
        } else if i == 11 {
            lemma_not_prefix("get_events"@, "start_"@, 0);
        } else if i == 12 {
            lemma_not_prefix("get_events"@, "end_"@, 0);
        } else if i == 13 {
            lemma_not_prefix("get_events"@, "detect_"@, 0);
        } else if i == 14 {
            lemma_not_prefix("get_events"@, "propose_"@, 0);
        } else if i == 15 {
            lemma_not_prefix("get_events"@, "activate_"@, 0);
        } else if i == 16 {
            lemma_not_prefix("get_events"@, "cancel_"@, 0);
        } else if i == 17 {
            lemma_not_prefix("get_events"@, "ingest_"@, 0);
        } else if i == 18 {
            lemma_not_prefix("get_events"@, "archive_"@, 0);
        } else if i == 19 {
            lemma_not_prefix("get_events"@, "backfill_"@, 0);
        } else if i == 20 {
            lemma_not_prefix("get_events"@, "run_"@, 0);
        } else if i == 21 {
            lemma_not_prefix("get_events"@, "refresh_memory"@, 0);
        } else if i == 22 {
            lemma_not_prefix("get_events"@, "refresh_options"@, 0);
        } else if i == 23 {
            lemma_not_prefix("get_events"@, "seed_"@, 0);
        }
    }
}

proof fn lemma_kernel_tool_5_not_mutation()
    ensures
        !implies_mutation(KERNEL_READ_QUERY_TOOLS@[5]@),
{
    reveal_strlit("acknowledge_");
    reveal_strlit("activate_");
    reveal_strlit("archive_");
    reveal_strlit("backfill_");
    reveal_strlit("cancel_");
    reveal_strlit("close_");
    reveal_strlit("create_");
    reveal_strlit("detect_");
    reveal_strlit("end_");
    reveal_strlit("feature_registry");
    reveal_strlit("import_");
    reveal_strlit("ingest_");
    reveal_strlit("init_");
    reveal_strlit("mark_");
    reveal_strlit("positioning_entry");
    reveal_strlit("propose_");
    reveal_strlit("query_series");
    reveal_strlit("record_trade_result");
    reveal_strlit("refresh_memory");
    reveal_strlit("refresh_options");
    reveal_strlit("register_");
    reveal_strlit("run_");
    reveal_strlit("run_job");
    reveal_strlit("save_");
    reveal_strlit("seed_");
    reveal_strlit("set_");
    reveal_strlit("start_");
    reveal_strlit("transition_");
    reveal_strlit("update_attention_signal_status");
    reveal_strlit("upsert_");
    assert(KERNEL_READ_QUERY_TOOLS@[5]@ == "query_series"@);
    assert("query_series"@.len() != "record_trade_result"@.len());
    assert("query_series"@.len() != "update_attention_signal_status"@.len());
    assert("query_series"@.len() != "positioning_entry"@.len());
    assert("query_series"@.len() != "feature_registry"@.len());
    assert(!views(MUTATION_EXACT@).contains("query_series"@)) by {
        if views(MUTATION_EXACT@).contains("query_series"@) {
            let i = choose|i: int| 0 <= i < views(MUTATION_EXACT@).len() && views(MUTATION_EXACT@)[i] == "query_series"@;
        }
    }
    assert("query_series"@.len() != "run_job"@.len());
    assert forall|i: int| 0 <= i < MUTATION_PREFIXES@.len() implies !starts_with("query_series"@, #[trigger] MUTATION_PREFIXES@[i]@) by {
        if i == 0 {
            lemma_not_prefix("query_series"@, "save_"@, 0);
        } else if i == 1 {
            lemma_not_prefix("query_series"@, "upsert_"@, 0);
        } else if i == 2 {
            lemma_not_prefix("query_series"@, "mark_"@, 0);
        } else if i == 3 {
            lemma_not_prefix("query_series"@, "acknowledge_"@, 0);
        } else if i == 4 {
            lemma_not_prefix("query_series"@, "close_"@, 0);
        } else if i == 5 {
            lemma_not_prefix("query_series"@, "create_"@, 0);
        } else if i == 6 {
            lemma_not_prefix("query_series"@, "register_"@, 0);
        } else if i == 7 {
            lemma_not_prefix("query_series"@, "set_"@, 0);
        } else if i == 8 {
            lemma_not_prefix("query_series"@, "transition_"@, 0);
        } else if i == 9 {
            lemma_not_prefix("query_series"@, "import_"@, 0);
        } else if i == 10 {
            lemma_not_prefix("query_series"@, "init_"@, 0);
        } else if i == 11 {
            lemma_not_prefix("query_series"@, "start_"@, 0);
        } else if i == 12 {
            lemma_not_prefix("query_series"@, "end_"@, 0);
        } else if i == 13 {
            lemma_not_prefix("query_series"@, "detect_"@, 0);
        } else if i == 14 {
            lemma_not_prefix("query_series"@, "propose_"@, 0);
        } else if i == 15 {
            lemma_not_prefix("query_series"@, "activate_"@, 0);
        } else if i == 16 {
            lemma_not_prefix("query_series"@, "cancel_"@, 0);
        } else if i == 17 {
            lemma_not_prefix("query_series"@, "ingest_"@, 0);
        } else if i == 18 {
            lemma_not_prefix("query_series"@, "archive_"@, 0);
        } else if i == 19 {
            lemma_not_prefix("query_series"@, "backfill_"@, 0);
        } else if i == 20 {
            lemma_not_prefix("query_series"@, "run_"@, 0);
        } else if i == 21 {
            lemma_not_prefix("query_series"@, "refresh_memory"@, 0);
        } else if i == 22 {
            lemma_not_prefix("query_series"@, "refresh_options"@, 0);
        } else if i == 23 {
            lemma_not_prefix("query_series"@, "seed_"@, 0);
        }
    }
}

proof fn lemma_kernel_tool_6_not_mutation()
    ensures
        !implies_mutation(KERNEL_READ_QUERY_TOOLS@[6]@),
{
    reveal_strlit("acknowledge_");
    reveal_strlit("activate_");
    reveal_strlit("archive_");
    reveal_strlit("backfill_");
    reveal_strlit("cancel_");
    reveal_strlit("close_");
    reveal_strlit("create_");
    reveal_strlit("detect_");
    reveal_strlit("end_");
    reveal_strlit("feature_registry");
    reveal_strlit("import_");
    reveal_strlit("ingest_");
    reveal_strlit("init_");
    reveal_strlit("mark_");
    reveal_strlit("positioning_entry");
    reveal_strlit("propose_");
    reveal_strlit("query_episodes");
    reveal_strlit("record_trade_result");
    reveal_strlit("refresh_memory");
    reveal_strlit("refresh_options");
    reveal_strlit("register_");
    reveal_strlit("run_");
    reveal_strlit("run_job");
    reveal_strlit("save_");
    reveal_strlit("seed_");
    reveal_strlit("set_");
    reveal_strlit("start_");
    reveal_strlit("transition_");
    reveal_strlit("update_attention_signal_status");
    reveal_strlit("upsert_");
    assert(KERNEL_READ_QUERY_TOOLS@[6]@ == "query_episodes"@);
    assert("query_episodes"@.len() != "record_trade_result"@.len());
    assert("query_episodes"@.len() != "update_attention_signal_status"@.len());
    assert("query_episodes"@.len() != "positioning_entry"@.len());
    assert("query_episodes"@.len() != "feature_registry"@.len());
    assert(!views(MUTATION_EXACT@).contains("query_episodes"@)) by {
        if views(MUTATION_EXACT@).contains("query_episodes"@) {
            let i = choose|i: int| 0 <= i < views(MUTATION_EXACT@).len() && views(MUTATION_EXACT@)[i] == "query_episodes"@;
        }
    }
    assert("query_episodes"@.len() != "run_job"@.len());
    assert forall|i: int| 0 <= i < MUTATION_PREFIXES@.len() implies !starts_with("query_episodes"@, #[trigger] MUTATION_PREFIXES@[i]@) by {
        if i == 0 {
            lemma_not_prefix("query_episodes"@, "save_"@, 0);
        } else if i == 1 {
            lemma_not_prefix("query_episodes"@, "upsert_"@, 0);
        } else if i == 2 {
            lemma_not_prefix("query_episodes"@, "mark_"@, 0);
        } else if i == 3 {
            lemma_not_prefix("query_episodes"@, "acknowledge_"@, 0);
        } else if i == 4 {
            lemma_not_prefix("query_episodes"@, "close_"@, 0);
        } else if i == 5 {
            lemma_not_prefix("query_episodes"@, "create_"@, 0);
        } else if i == 6 {
            lemma_not_prefix("query_episodes"@, "register_"@, 0);
        } else if i == 7 {
            lemma_not_prefix("query_episodes"@, "set_"@, 0);
        } else if i == 8 {
            lemma_not_prefix("query_episodes"@, "transition_"@, 0);
        } else if i == 9 {
            lemma_not_prefix("query_episodes"@, "import_"@, 0);
        } else if i == 10 {
            lemma_not_prefix("query_episodes"@, "init_"@, 0);
        } else if i == 11 {
            lemma_not_prefix("query_episodes"@, "start_"@, 0);
        } else if i == 12 {
            lemma_not_prefix("query_episodes"@, "end_"@, 0);
        } else if i == 13 {
            lemma_not_prefix("query_episodes"@, "detect_"@, 0);
        } else if i == 14 {
            lemma_not_prefix("query_episodes"@, "propose_"@, 0);
        } else if i == 15 {
            lemma_not_prefix("query_episodes"@, "activate_"@, 0);
        } else if i == 16 {
            lemma_not_prefix("query_episodes"@, "cancel_"@, 0);
        } else if i == 17 {
            lemma_not_prefix("query_episodes"@, "ingest_"@, 0);
        } else if i == 18 {
            lemma_not_prefix("query_episodes"@, "archive_"@, 0);
        } else if i == 19 {
            lemma_not_prefix("query_episodes"@, "backfill_"@, 0);
        } else if i == 20 {
            lemma_not_prefix("query_episodes"@, "run_"@, 0);
        } else if i == 21 {
            lemma_not_prefix("query_episodes"@, "refresh_memory"@, 0);
        } else if i == 22 {
            lemma_not_prefix("query_episodes"@, "refresh_options"@, 0);
        } else if i == 23 {
            lemma_not_prefix("query_episodes"@, "seed_"@, 0);
        }
    }
}

proof fn lemma_kernel_tool_7_not_mutation()
    ensures
        !implies_mutation(KERNEL_READ_QUERY_TOOLS@[7]@),
{
    reveal_strlit("acknowledge_");
    reveal_strlit("activate_");
    reveal_strlit("archive_");
    reveal_strlit("backfill_");
    reveal_strlit("cancel_");
    reveal_strlit("close_");
    reveal_strlit("create_");
    reveal_strlit("detect_");
    reveal_strlit("end_");
    reveal_strlit("feature_registry");
    reveal_strlit("import_");
    reveal_strlit("ingest_");
    reveal_strlit("init_");
    reveal_strlit("mark_");
    reveal_strlit("positioning_entry");
    reveal_strlit("propose_");
    reveal_strlit("query_raw");
    reveal_strlit("record_trade_result");
    reveal_strlit("refresh_memory");
    reveal_strlit("refresh_options");
    reveal_strlit("register_");
    reveal_strlit("run_");
    reveal_strlit("run_job");
    reveal_strlit("save_");
    reveal_strlit("seed_");
    reveal_strlit("set_");
    reveal_strlit("start_");
    reveal_strlit("transition_");
    reveal_strlit("update_attention_signal_status");
    reveal_strlit("upsert_");
    assert(KERNEL_READ_QUERY_TOOLS@[7]@ == "query_raw"@);
    assert("query_raw"@.len() != "record_trade_result"@.len());
    assert("query_raw"@.len() != "update_attention_signal_status"@.len());
    assert("query_raw"@.len() != "positioning_entry"@.len());
    assert("query_raw"@.len() != "feature_registry"@.len());
    assert(!views(MUTATION_EXACT@).contains("query_raw"@)) by {
        if views(MUTATION_EXACT@).contains("query_raw"@) {
            let i = choose|i: int| 0 <= i < views(MUTATION_EXACT@).len() && views(MUTATION_EXACT@)[i] == "query_raw"@;
        }
    }
    assert("query_raw"@.len() != "run_job"@.len());
    assert forall|i: int| 0 <= i < MUTATION_PREFIXES@.len() implies !starts_with("query_raw"@, #[trigger] MUTATION_PREFIXES@[i]@) by {
        if i == 0 {
            lemma_not_prefix("query_raw"@, "save_"@, 0);
        } else if i == 1 {
            lemma_not_prefix("query_raw"@, "upsert_"@, 0);
        } else if i == 2 {
            lemma_not_prefix("query_raw"@, "mark_"@, 0);
        } else if i == 3 {
            lemma_not_prefix("query_raw"@, "acknowledge_"@, 0);
        } else if i == 4 {
            lemma_not_prefix("query_raw"@, "close_"@, 0);
        } else if i == 5 {
            lemma_not_prefix("query_raw"@, "create_"@, 0);
        } else if i == 6 {
            lemma_not_prefix("query_raw"@, "register_"@, 0);
        } else if i == 7 {
            lemma_not_prefix("query_raw"@, "set_"@, 0);
        } else if i == 8 {
            lemma_not_prefix("query_raw"@, "transition_"@, 0);
        } else if i == 9 {
            lemma_not_prefix("query_raw"@, "import_"@, 0);
        } else if i == 10 {
            lemma_not_prefix("query_raw"@, "init_"@, 0);
        } else if i == 11 {
            lemma_not_prefix("query_raw"@, "start_"@, 0);
        } else if i == 12 {
            lemma_not_prefix("query_raw"@, "end_"@, 0);
        } else if i == 13 {
            lemma_not_prefix("query_raw"@, "detect_"@, 0);
        } else if i == 14 {
            lemma_not_prefix("query_raw"@, "propose_"@, 0);
        } else if i == 15 {
            lemma_not_prefix("query_raw"@, "activate_"@, 0);
        } else if i == 16 {
            lemma_not_prefix("query_raw"@, "cancel_"@, 0);
        } else if i == 17 {
            lemma_not_prefix("query_raw"@, "ingest_"@, 0);
        } else if i == 18 {
            lemma_not_prefix("query_raw"@, "archive_"@, 0);
        } else if i == 19 {
            lemma_not_prefix("query_raw"@, "backfill_"@, 0);
        } else if i == 20 {
            lemma_not_prefix("query_raw"@, "run_"@, 0);
        } else if i == 21 {
            lemma_not_prefix("query_raw"@, "refresh_memory"@, 0);
        } else if i == 22 {
            lemma_not_prefix("query_raw"@, "refresh_options"@, 0);
        } else if i == 23 {
            lemma_not_prefix("query_raw"@, "seed_"@, 0);
        }
    }
}

/// Kernel read/query tools (all L0) never look like mutation verbs.
pub proof fn lemma_kernel_tools_never_mutate()
    ensures
        forall|i: int| 0 <= i < KERNEL_READ_QUERY_TOOLS@.len() ==> !implies_mutation(
            #[trigger] KERNEL_READ_QUERY_TOOLS@[i]@,
        ),
{
    lemma_kernel_tool_0_not_mutation();
    lemma_kernel_tool_1_not_mutation();
    lemma_kernel_tool_2_not_mutation();
    lemma_kernel_tool_3_not_mutation();
    lemma_kernel_tool_4_not_mutation();
    lemma_kernel_tool_5_not_mutation();
    lemma_kernel_tool_6_not_mutation();
    lemma_kernel_tool_7_not_mutation();
    reveal_strlit("run_job");
    reveal_strlit("record_trade_result");
    reveal_strlit("update_attention_signal_status");
    reveal_strlit("positioning_entry");
    reveal_strlit("feature_registry");
    assert(KERNEL_READ_QUERY_TOOLS@[8]@ == "run_job"@);
    assert("run_job"@.len() != "record_trade_result"@.len());
    assert("run_job"@.len() != "update_attention_signal_status"@.len());
    assert("run_job"@.len() != "positioning_entry"@.len());
    assert("run_job"@.len() != "feature_registry"@.len());
    assert(!views(MUTATION_EXACT@).contains("run_job"@)) by {
        if views(MUTATION_EXACT@).contains("run_job"@) {
            let i = choose|i: int| 0 <= i < views(MUTATION_EXACT@).len() && views(MUTATION_EXACT@)[i] == "run_job"@;
        }
    }
    assert forall|i: int| 0 <= i < KERNEL_READ_QUERY_TOOLS@.len() implies !implies_mutation(
        #[trigger] KERNEL_READ_QUERY_TOOLS@[i]@,
    ) by {
        assert(0 <= i < 9);
    }
}

} // verus!
