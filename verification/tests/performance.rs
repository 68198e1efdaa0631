use the_desk::performance::{
    outcome_counts, outcome_row_kept, rank_setups_by_count, scoped_event_counts,
    setup_outcome_matrix, CountKey, OutcomeCounts, OutcomeRow, SetupCounts,
};
use the_desk::scope::SessionScopeFilter;

fn row(setup: &str, name: Option<&str>, outcome: &str, day: Option<&str>, root: &str) -> OutcomeRow {
    OutcomeRow {
        setup_id: setup.into(),
        setup_name: name.map(str::to_string),
        outcome: outcome.into(),
        analysis_day: day.map(str::to_string),
        root_symbol: Some(root.into()),
        contract_symbol: Some(format!("{root}H26.CME")),
    }
}

fn rows() -> Vec<OutcomeRow> {
    vec![
        row("s2", None, "pending", Some("2026-03-04"), "NQ"),
        row("s1", Some("Setup 1"), "target_hit", Some("2026-03-03"), "NQ"),
        row("s2", Some("Second"), "stop_hit", Some("2026-03-04"), "NQ"),
        row("s1", Some("Later name"), "time_exit", Some("2026-03-05"), "NQ"),
        row("s3", Some("Excluded"), "target_hit", None, "NQ"),
        row("s1", None, "stop_hit", Some("2026-03-04"), "ES"),
    ]
}

#[test]
fn outcome_counts_tally_kept_rows() {
    let c = outcome_counts(&rows(), None, None, None);
    assert_eq!(c.total, 5);
    assert_eq!(c.pending, 1);
    assert_eq!(c.resolved, 4);
    assert_eq!(c.target_hit, 1);
    assert_eq!(c.stop_hit, 2);
    assert_eq!(c.time_exit, 1);
    assert_eq!(c.total, c.resolved + c.pending);
}

#[test]
fn outcome_counts_respect_window_and_symbols() {
    let scope = SessionScopeFilter { root_symbol: Some("NQ".into()), ..Default::default() };
    let c = outcome_counts(&rows(), Some("2026-03-04"), Some("2026-03-04"), Some(&scope));
    assert_eq!(c.total, 2);
    assert_eq!(c.pending, 1);
    assert_eq!(c.stop_hit, 1);
    assert!(!outcome_row_kept(&rows()[4], None, None, None));
    assert!(!outcome_row_kept(&rows()[5], None, None, Some(&scope)));
}

#[test]
fn setup_matrix_groups_by_id_in_order_and_applies_min_resolved() {
    let m = setup_outcome_matrix(&rows(), None, None, None, 0);
    let ids: Vec<&str> = m.iter().map(|r| r.setup_id.as_str()).collect();
    assert_eq!(ids, vec!["s1", "s2"]);
    assert_eq!(m[0].setup_name.as_deref(), Some("Setup 1"));
    assert_eq!(m[0].counts.total, 3);
    assert_eq!(m[0].counts.resolved, 3);
    assert_eq!(m[1].setup_name.as_deref(), Some("Second"));
    assert_eq!(m[1].counts.pending, 1);
    let strict = setup_outcome_matrix(&rows(), None, None, None, 2);
    let ids: Vec<&str> = strict.iter().map(|r| r.setup_id.as_str()).collect();
    assert_eq!(ids, vec!["s1"]);
}

#[test]
fn scoped_event_counts_count_matches_and_distinct_days() {
    let some = |d: &str| Some(d.to_string());
    let events = vec![some("2026-03-02"), None, some("2026-03-02"), some("2026-03-03")];
    let all = vec![some("2026-03-02"), some("2026-03-03"), None, some("2026-03-04"), some("2026-03-04")];
    assert_eq!(scoped_event_counts(&events, &all), (3, 2, 3));
    assert_eq!(scoped_event_counts(&Vec::new(), &Vec::new()), (0, 0, 0));
}

fn setup_rows() -> Vec<OutcomeRow> {
    vec![
        row("setup-a", Some("setup-a"), "target_hit", Some("2026-03-04"), "NQ"),
        row("setup-a", Some("setup-a"), "stop_hit", Some("2026-03-04"), "NQ"),
        row("setup-a", Some("setup-a"), "time_exit", Some("2026-03-04"), "NQ"),
        row("setup-a", Some("setup-a"), "pending", Some("2026-03-04"), "NQ"),
        row("setup-b", Some("setup-b"), "target_hit", Some("2026-03-04"), "NQ"),
    ]
}

#[test]
fn setup_performance_matrix_sorts_and_applies_min_resolved() {
    let matrix = setup_outcome_matrix(&setup_rows(), None, None, None, 2);
    assert_eq!(matrix.len(), 1);
    assert_eq!(matrix[0].setup_id, "setup-a");
    assert_eq!(matrix[0].counts.resolved, 3);
    assert_eq!(matrix[0].counts.pending, 1);
    assert_eq!(matrix[0].counts.time_exit, 1);

    let all = setup_outcome_matrix(&setup_rows(), None, None, None, 0);
    let limited = rank_setups_by_count(all, CountKey::TotalSignals, 1);
    assert_eq!(limited.len(), 1);
    assert_eq!(limited[0].setup_id, "setup-a");
}

#[test]
fn signal_performance_includes_pending_and_time_exit_and_source_filters() {
    // p1 and p2 are live rows, p3 a backtest row of job-1; the store selects
    // rows by source and job before they are counted.
    let p1 = row("s1", Some("Setup 1"), "pending", Some("2026-03-04"), "NQ");
    let p2 = row("s1", Some("Setup 1"), "target_hit", Some("2026-03-04"), "NQ");
    let p3 = row("s1", Some("Setup 1"), "time_exit", Some("2026-03-04"), "NQ");
    let win_rate = |c: &OutcomeCounts| {
        if c.resolved > 0 {
            c.target_hit as f64 / c.resolved as f64
        } else {
            0.0
        }
    };

    let overall = outcome_counts(&vec![p1.clone(), p2.clone(), p3.clone()], None, None, None);
    assert_eq!(overall.total, 3);
    assert_eq!(overall.resolved, 2);
    assert_eq!(overall.pending, 1);
    assert_eq!(overall.target_hit, 1);
    assert_eq!(overall.time_exit, 1);
    assert_eq!(overall.stop_hit, 0);
    assert_eq!(win_rate(&overall), 0.5);

    let live_only = outcome_counts(&vec![p1, p2], None, None, None);
    assert_eq!(live_only.total, 2);
    assert_eq!(live_only.time_exit, 0);

    let backtest_job = outcome_counts(&vec![p3], None, None, None);
    assert_eq!(backtest_job.total, 1);
    assert_eq!(backtest_job.time_exit, 1);
}

fn counts_row(id: &str, total: u64, resolved: u64) -> SetupCounts {
    SetupCounts {
        setup_id: id.into(),
        setup_name: None,
        counts: OutcomeCounts {
            total,
            resolved,
            pending: total - resolved,
            target_hit: 0,
            stop_hit: 0,
            time_exit: resolved,
        },
    }
}

#[test]
fn ranking_by_a_count_is_stable_descending_and_limited() {
    let m = vec![
        counts_row("a", 2, 1),
        counts_row("b", 5, 0),
        counts_row("c", 2, 2),
        counts_row("d", 5, 3),
    ];
    let by_total = rank_setups_by_count(m.clone(), CountKey::TotalSignals, 25);
    let ids: Vec<&str> = by_total.iter().map(|s| s.setup_id.as_str()).collect();
    assert_eq!(ids, vec!["b", "d", "a", "c"]);
    let by_resolved = rank_setups_by_count(m.clone(), CountKey::Resolved, 2);
    let ids: Vec<&str> = by_resolved.iter().map(|s| s.setup_id.as_str()).collect();
    assert_eq!(ids, vec!["d", "c"]);
    assert!(rank_setups_by_count(m.clone(), CountKey::Resolved, 0).is_empty());
    assert!(rank_setups_by_count(Vec::new(), CountKey::Resolved, 3).is_empty());
}
