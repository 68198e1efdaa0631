use the_desk::insights::{insight_kept, InsightFilter, InsightScope};

fn scope() -> InsightScope {
    InsightScope {
        session_type: Some("RTH".into()),
        session_segment: Some("Open".into()),
        time_bucket: Some("09:30".into()),
        day_type: None,
    }
}

fn no_filter() -> InsightFilter {
    InsightFilter { tag: None, session_type: None, session_segment: None, time_bucket: None, day_type: None }
}

#[test]
fn insight_filters_match_tags_and_scope() {
    let tags = vec!["absorption".to_string(), "nq".to_string()];
    assert!(insight_kept(&tags, &scope(), &no_filter()));
    assert!(insight_kept(&tags, &scope(), &InsightFilter { tag: Some("nq".into()), ..no_filter() }));
    assert!(!insight_kept(&tags, &scope(), &InsightFilter { tag: Some("NQ".into()), ..no_filter() }));
    assert!(insight_kept(&tags, &scope(), &InsightFilter { session_type: Some("rth".into()), ..no_filter() }));
    assert!(insight_kept(&tags, &scope(), &InsightFilter { session_segment: Some("OPEN".into()), ..no_filter() }));
    assert!(!insight_kept(&tags, &scope(), &InsightFilter { time_bucket: Some("09:31".into()), ..no_filter() }));
    assert!(insight_kept(&tags, &scope(), &InsightFilter { time_bucket: Some("09:30".into()), ..no_filter() }));
    assert!(!insight_kept(&tags, &scope(), &InsightFilter { day_type: Some("trend".into()), ..no_filter() }));
}
