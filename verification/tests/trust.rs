use the_desk::envelope::TrustLevel;
use the_desk::trust::{
    is_kernel_read_query_tool, kernel_read_query_capabilities, tool_name_implies_mutation,
    ToolCapability, KERNEL_READ_QUERY_TOOLS,
};

#[test]
fn kernel_tools_are_trust_level_l0_without_mutation_or_order_authority() {
    let caps = kernel_read_query_capabilities();
    assert_eq!(caps.len(), KERNEL_READ_QUERY_TOOLS.len());
    for name in KERNEL_READ_QUERY_TOOLS {
        let cap = caps.iter().find(|(n, _)| *n == name).map(|(_, c)| c).expect(name);
        assert_eq!(cap.trust_level, TrustLevel::L0);
        assert!(!cap.mutation_authority);
        assert!(!cap.order_authority);
        assert!(
            !tool_name_implies_mutation(name),
            "kernel tool `{name}` must not look like a mutation verb"
        );
        assert!(is_kernel_read_query_tool(name));
    }
}

#[test]
fn mutation_heuristic_flags_known_write_verbs() {
    assert!(tool_name_implies_mutation("save_journal_entry"));
    assert!(tool_name_implies_mutation("mark_trade_idea_confirmed"));
    assert!(tool_name_implies_mutation("backfill_history"));
    assert!(tool_name_implies_mutation("positioning_entry"));
    assert!(tool_name_implies_mutation("feature_registry"));
    assert!(!tool_name_implies_mutation("get_state"));
    assert!(!tool_name_implies_mutation("get_events"));
    assert!(!tool_name_implies_mutation("describe_environment"));
    assert!(!tool_name_implies_mutation("query_series"));
    assert!(!tool_name_implies_mutation("query_episodes"));
    assert!(!tool_name_implies_mutation("query_raw"));
    assert!(!tool_name_implies_mutation("run_job"));
    assert!(tool_name_implies_mutation("run_backtest"));
    assert!(!tool_name_implies_mutation("evaluate_playbook"));
    assert!(!tool_name_implies_mutation("get_market_snapshot"));
}

#[test]
fn read_query_capability_is_l0() {
    let cap = ToolCapability::read_query_l0();
    assert_eq!(cap.trust_level, TrustLevel::L0);
    assert!(!cap.mutation_authority && !cap.order_authority);
    assert!(!is_kernel_read_query_tool("save_journal_entry"));
    assert!(!is_kernel_read_query_tool("get_market_snapshot"));
}
