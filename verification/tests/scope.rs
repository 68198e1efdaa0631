use the_desk::scope::{
    analysis_day_for_scope, contract_fields_match_scope, default_include_rollover_sessions,
    default_signal_source, normalize_session_segment_filter, normalize_session_segment_value,
    normalize_session_type_filter, stored_event_row_context, trading_day_if_scope_match,
    SessionScopeFilter,
};

fn scope() -> SessionScopeFilter {
    SessionScopeFilter { include_rollover_sessions: true, ..SessionScopeFilter::default() }
}

#[test]
fn defaults_and_emptiness() {
    assert_eq!(default_signal_source(), "live");
    assert!(default_include_rollover_sessions());
    assert!(scope().is_empty());
    assert!(!SessionScopeFilter::default().is_empty());
    let mut s = scope();
    s.continuous_mode = true;
    assert!(!s.is_empty());
}

#[test]
fn session_labels_normalize() {
    assert_eq!(normalize_session_type_filter(" rth "), Some("RTH"));
    assert_eq!(normalize_session_type_filter("GLOBEX"), Some("Globex"));
    assert_eq!(normalize_session_type_filter("eth"), None);
    assert_eq!(normalize_session_segment_filter("London"), Some("London"));
    assert_eq!(normalize_session_segment_value("asia", "Globex"), Some("Asia"));
    assert_eq!(normalize_session_segment_value("asia", "RTH"), Some("None"));
    assert_eq!(normalize_session_segment_value("tokyo", "Globex"), Some("None"));
}

#[test]
fn stored_context_needs_type_and_day() {
    assert_eq!(
        stored_event_row_context(Some("globex"), Some("london"), Some("2026-08-11")),
        Some(("Globex".to_string(), "London".to_string(), "2026-08-11".to_string()))
    );
    assert_eq!(
        stored_event_row_context(Some("RTH"), Some("asia"), Some("2026-08-11")),
        Some(("RTH".to_string(), "None".to_string(), "2026-08-11".to_string()))
    );
    assert_eq!(
        stored_event_row_context(Some("Globex"), None, Some("2026-08-11")),
        Some(("Globex".to_string(), "None".to_string(), "2026-08-11".to_string()))
    );
    assert_eq!(stored_event_row_context(Some("  "), None, Some("2026-08-11")), None);
    assert_eq!(stored_event_row_context(Some("RTH"), None, None), None);
    assert_eq!(stored_event_row_context(Some("weekly"), None, Some("2026-08-11")), None);
}

#[test]
fn scope_filters_type_segment_and_day_range() {
    let day = "2026-08-11";
    assert_eq!(trading_day_if_scope_match("RTH", "None", day, None).as_deref(), Some(day));
    assert_eq!(trading_day_if_scope_match("RTH", "None", day, Some(&scope())).as_deref(), Some(day));
    let mut s = scope();
    s.session_type = Some("globex".into());
    assert_eq!(trading_day_if_scope_match("RTH", "None", day, Some(&s)), None);
    assert_eq!(trading_day_if_scope_match("Globex", "Asia", day, Some(&s)).as_deref(), Some(day));
    s.session_segment = Some("london".into());
    assert_eq!(trading_day_if_scope_match("Globex", "Asia", day, Some(&s)), None);
    let mut r = scope();
    r.trading_day_start = Some("2026-08-12".into());
    assert_eq!(trading_day_if_scope_match("RTH", "None", day, Some(&r)), None);
    r.trading_day_start = Some("2026-08-11".into());
    r.trading_day_end = Some("2026-08-11".into());
    assert_eq!(trading_day_if_scope_match("RTH", "None", day, Some(&r)).as_deref(), Some(day));
    r.trading_day_end = Some("2026-08-10".into());
    assert_eq!(trading_day_if_scope_match("RTH", "None", day, Some(&r)), None);
    let mut bad = scope();
    bad.session_type = Some("weekly".into());
    assert_eq!(trading_day_if_scope_match("RTH", "None", day, Some(&bad)), None);
}

#[test]
fn analysis_day_and_symbol_filters() {
    let mut s = scope();
    assert_eq!(analysis_day_for_scope("2026-08-11", None, Some(&s)).as_deref(), Some("2026-08-11"));
    assert_eq!(
        analysis_day_for_scope("2026-08-11", Some("2026-08-12".into()), Some(&s)).as_deref(),
        Some("2026-08-12")
    );
    s.root_symbol = Some("NQ".into());
    assert_eq!(analysis_day_for_scope("2026-08-11", None, Some(&s)), None);
    assert!(contract_fields_match_scope(Some("NQ"), None, Some(&s)));
    assert!(!contract_fields_match_scope(Some("ES"), None, Some(&s)));
    assert!(!contract_fields_match_scope(None, None, Some(&s)));
    s.contract_symbol = Some("NQU26".into());
    assert!(!contract_fields_match_scope(Some("NQ"), Some("NQZ26"), Some(&s)));
    assert!(contract_fields_match_scope(Some("NQ"), Some("NQU26"), Some(&s)));
    assert!(contract_fields_match_scope(None, None, None));
}
