use the_desk::event_lifecycle::{
    apply_lifecycle_transition, cheap_model_may_invoke, classify_event_family,
    default_severity_for_event_type, detection_kind_for_event_type, event_family_key,
    is_dom_family_event_type, is_dom_family_stem, is_invalidation_event_type,
    next_lifecycle_for_detection, normalize_event_type_key, requires_capsule,
    resolve_event_severity, DetectionKind, EventFamily, EventLifecycle, EventSeverity,
    NumericSeverity, DOM_FAMILY_EVENT_TYPES, EVENT_LIFECYCLE_STATES,
    SEVERITY_UNSPECIFIED,
};

#[test]
fn lifecycle_round_trip_open_updated_resolved() {
    let open = next_lifecycle_for_detection(None, DetectionKind::Fresh).unwrap();
    assert_eq!(open, EventLifecycle::Open);
    let updated = next_lifecycle_for_detection(Some(open), DetectionKind::Repeat).unwrap();
    assert_eq!(updated, EventLifecycle::Updated);
    let resolved = next_lifecycle_for_detection(Some(updated), DetectionKind::Invalidated).unwrap();
    assert_eq!(resolved, EventLifecycle::Resolved);
    assert!(resolved.is_terminal());
    assert!(apply_lifecycle_transition(resolved, EventLifecycle::Open).is_err());
    let new_episode = next_lifecycle_for_detection(Some(resolved), DetectionKind::Fresh).unwrap();
    assert_eq!(new_episode, EventLifecycle::Open);
}

#[test]
fn lifecycle_round_trip_open_expired() {
    let open = EventLifecycle::Open;
    let expired = next_lifecycle_for_detection(Some(open), DetectionKind::TimedOut).unwrap();
    assert_eq!(expired, EventLifecycle::Expired);
    assert!(apply_lifecycle_transition(expired, EventLifecycle::Updated).is_err());
}

#[test]
fn updated_may_self_transition() {
    let updated =
        apply_lifecycle_transition(EventLifecycle::Updated, EventLifecycle::Updated).unwrap();
    assert_eq!(updated, EventLifecycle::Updated);
}

#[test]
fn dom_family_taxonomy_is_explicit() {
    for name in [
        "stop_run",
        "iceberg_reload",
        "pull_intent",
        "book_velocity_regime_shift",
        "stop-run",
        "book-velocity-regime-shift",
    ] {
        assert!(is_dom_family_event_type(name), "{name} must be DOM-family (Capsule-mandatory)");
        assert_eq!(classify_event_family(name), EventFamily::Dom);
        assert!(requires_capsule(name), "{name}");
    }
    assert!(requires_capsule("stop_run_invalidated"));
    assert_eq!(classify_event_family("stop_run_invalidated"), EventFamily::Dom);
    assert!(!is_dom_family_event_type("stop_run_invalidated"));
    assert!(!is_dom_family_event_type("ib_extension_hit"));
    assert!(!is_dom_family_event_type("absorption_confirmed"));
    assert_eq!(DOM_FAMILY_EVENT_TYPES.len(), 4);
}

#[test]
fn absorption_family_groups_lifecycle_variants() {
    assert_eq!(event_family_key("absorption_detected"), "absorption");
    assert_eq!(event_family_key("absorption_confirmed"), "absorption");
    assert_eq!(event_family_key("absorption_invalidated"), "absorption");
    assert!(is_invalidation_event_type("absorption_invalidated"));
    assert!(!is_invalidation_event_type("absorption_confirmed"));
}

#[test]
fn cheap_model_is_event_triggered_only() {
    assert!(cheap_model_may_invoke(true));
    assert!(!cheap_model_may_invoke(false));
}

#[test]
fn lifecycle_labels_round_trip_and_attention_status() {
    for (label, state) in [
        ("open", EventLifecycle::Open),
        ("updated", EventLifecycle::Updated),
        ("resolved", EventLifecycle::Resolved),
        ("expired", EventLifecycle::Expired),
    ] {
        assert_eq!(state.as_str(), label);
        assert_eq!(EventLifecycle::parse(label), Some(state));
    }
    assert_eq!(EventLifecycle::parse(" OPEN "), Some(EventLifecycle::Open));
    assert_eq!(EventLifecycle::parse("closed"), None);
    assert_eq!(EVENT_LIFECYCLE_STATES, ["open", "updated", "resolved", "expired"]);
    assert_eq!(EventLifecycle::Open.attention_status(), "active");
    assert_eq!(EventLifecycle::Updated.attention_status(), "active");
    assert_eq!(EventLifecycle::Resolved.attention_status(), "resolved");
    assert_eq!(EventLifecycle::Expired.attention_status(), "expired");
}

#[test]
fn terminal_states_refuse_every_transition() {
    for from in [EventLifecycle::Resolved, EventLifecycle::Expired] {
        for to in [
            EventLifecycle::Open,
            EventLifecycle::Updated,
            EventLifecycle::Resolved,
            EventLifecycle::Expired,
        ] {
            let err = apply_lifecycle_transition(from, to).unwrap_err();
            assert_eq!(err.from, from);
            assert_eq!(err.to, to);
        }
    }
    assert!(apply_lifecycle_transition(EventLifecycle::Open, EventLifecycle::Open).is_err());
    assert!(apply_lifecycle_transition(EventLifecycle::Updated, EventLifecycle::Open).is_err());
    assert_eq!(
        apply_lifecycle_transition(EventLifecycle::Open, EventLifecycle::Expired).unwrap(),
        EventLifecycle::Expired
    );
}

#[test]
fn terminal_prior_stays_put_on_late_invalidation_or_timeout() {
    assert_eq!(
        next_lifecycle_for_detection(Some(EventLifecycle::Expired), DetectionKind::Invalidated)
            .unwrap(),
        EventLifecycle::Expired
    );
    assert_eq!(
        next_lifecycle_for_detection(Some(EventLifecycle::Resolved), DetectionKind::TimedOut)
            .unwrap(),
        EventLifecycle::Resolved
    );
    assert_eq!(
        next_lifecycle_for_detection(None, DetectionKind::TimedOut).unwrap(),
        EventLifecycle::Expired
    );
    assert_eq!(
        next_lifecycle_for_detection(Some(EventLifecycle::Expired), DetectionKind::Repeat).unwrap(),
        EventLifecycle::Open
    );
}

#[test]
fn severity_labels_parse_and_rank() {
    assert_eq!(EventSeverity::parse("nope").as_str(), SEVERITY_UNSPECIFIED);
    assert_eq!(EventSeverity::parse(" URGENT "), EventSeverity::Urgent);
    assert_eq!(EventSeverity::parse("high"), EventSeverity::High);
    assert_eq!(EventSeverity::Low.as_str(), "low");
    assert_eq!(EventSeverity::Normal.as_str(), "normal");
    assert!(EventSeverity::Urgent.rank() > EventSeverity::High.rank());
    assert!(EventSeverity::High.rank() > EventSeverity::Normal.rank());
    assert!(EventSeverity::Normal.rank() > EventSeverity::Low.rank());
    assert!(EventSeverity::Low.rank() > EventSeverity::Unspecified.rank());
}

#[test]
fn families_and_default_severity() {
    assert_eq!(classify_event_family("pinch_detected"), EventFamily::Flow);
    assert_eq!(classify_event_family("ib_extension_hit"), EventFamily::Structure);
    assert_eq!(classify_event_family("something_else"), EventFamily::Other);
    assert_eq!(EventFamily::Dom.as_str(), "dom");
    assert_eq!(default_severity_for_event_type("pinch_detected"), EventSeverity::High);
    assert_eq!(default_severity_for_event_type("large_trade_cluster"), EventSeverity::High);
    assert_eq!(default_severity_for_event_type("ib_extension_hit"), EventSeverity::Normal);
    assert_eq!(default_severity_for_event_type("stop_run"), EventSeverity::High);
    assert_eq!(detection_kind_for_event_type("pinch_invalidated"), DetectionKind::Invalidated);
    assert_eq!(detection_kind_for_event_type("pinch_detected"), DetectionKind::Fresh);
}

#[test]
fn event_keys_normalize_case_space_and_hyphens() {
    assert_eq!(normalize_event_type_key("  Stop-Run "), "stop_run");
    assert!(is_dom_family_stem("STOP_RUN_confirmed"));
    assert!(!is_dom_family_stem("stop_runner"));
    assert_eq!(event_family_key("Leg-Started"), "leg_started");
}

/// The band a numeric metadata severity falls in.
fn band(n: f64) -> NumericSeverity {
    if n >= 4.0 {
        NumericSeverity::AtLeastFour
    } else if n >= 3.0 {
        NumericSeverity::AtLeastThree
    } else if n >= 2.0 {
        NumericSeverity::AtLeastTwo
    } else if n > 0.0 {
        NumericSeverity::Positive
    } else {
        NumericSeverity::NotPositive
    }
}

#[test]
fn severity_never_blank() {
    assert_eq!(resolve_event_severity(None, None, "pinch_detected"), EventSeverity::High);
    assert_eq!(
        resolve_event_severity(Some("urgent"), None, "dnp_cross"),
        EventSeverity::Urgent
    );
    assert_eq!(
        resolve_event_severity(None, Some(band(1.0)), "ib_extension_hit"),
        EventSeverity::Low
    );
    assert_eq!(
        resolve_event_severity(None, None, "large_trade_cluster"),
        EventSeverity::High
    );
    assert_eq!(EventSeverity::parse("nope").as_str(), SEVERITY_UNSPECIFIED);
}

#[test]
fn severity_label_beats_level_and_unknown_label_falls_through() {
    assert_eq!(
        resolve_event_severity(Some(" HIGH "), Some(band(1.0)), "dnp_cross"),
        EventSeverity::High
    );
    assert_eq!(
        resolve_event_severity(Some("nope"), Some(band(4.5)), "dnp_cross"),
        EventSeverity::Urgent
    );
    assert_eq!(
        resolve_event_severity(Some("nope"), None, "pinch_detected"),
        EventSeverity::High
    );
    assert_eq!(
        resolve_event_severity(None, Some(band(0.0)), "pinch_detected"),
        EventSeverity::Unspecified
    );
    assert_eq!(resolve_event_severity(None, Some(band(3.0)), "x"), EventSeverity::High);
    assert_eq!(resolve_event_severity(None, Some(band(2.0)), "x"), EventSeverity::Normal);
    assert_eq!(resolve_event_severity(None, Some(band(f64::NAN)), "x"), EventSeverity::Unspecified);
}
