use the_desk::event_lifecycle::{
    classify_event_family, EventFamily, EventLifecycle, EventSeverity, NumericSeverity,
};
use the_desk::events_kernel::{
    capsule_for_identity, coaching_event_positions, detector_row_lifecycle, kernel_event_fields,
    kernel_event_envelope_fields_present, latest_per_dedup, DbEventRow, DerivedEventIds,
    COACHING_EVENT_FETCH_CAP,
    SEVERITY_PLACEHOLDER,
};

fn strings(v: &[&str]) -> Vec<String> {
    v.iter().map(|s| s.to_string()).collect()
}

#[test]
fn invalidated_row_without_prior_is_resolved() {
    assert_eq!(detector_row_lifecycle("absorption_invalidated", None), EventLifecycle::Resolved);
    assert_eq!(classify_event_family("absorption_invalidated"), EventFamily::Flow);
}

#[test]
fn repeat_against_open_becomes_updated() {
    assert_eq!(
        detector_row_lifecycle("ib_extension_hit", Some(EventLifecycle::Open)),
        EventLifecycle::Updated
    );
}

#[test]
fn coaching_view_collapses_to_latest_per_dedup() {
    // Rows newest first: the confirmed repeat, the other condition, the original detection.
    let dedup = strings(&["dedup_same", "dedup_other", "dedup_same"]);
    let types = strings(&["absorption_confirmed", "ib_extension_hit", "absorption_detected"]);
    let collapsed = coaching_event_positions(&dedup, &types, None, 10);
    assert_eq!(collapsed, vec![0, 1]);
    let typed = coaching_event_positions(&dedup, &types, Some("Absorption_Confirmed "), 10);
    assert_eq!(typed, vec![0]);
    let limited = coaching_event_positions(&dedup, &types, None, 0);
    assert_eq!(limited, vec![0]);
    assert!(kernel_event_envelope_fields_present("evt_b", "k", "dedup_same", "k", "absorption_confirmed", false, false));
}

#[test]
fn dom_invalidation_keeps_capsule_ref_on_coaching_row() {
    assert_eq!(
        detector_row_lifecycle("stop_run_invalidated", Some(EventLifecycle::Open)),
        EventLifecycle::Resolved
    );
    assert_eq!(classify_event_family("stop_run_invalidated"), EventFamily::Dom);
    let collapsed = latest_per_dedup(&strings(&["dedup_x", "dedup_x"]));
    assert_eq!(collapsed, vec![0]);
}

#[test]
fn attach_capsule_refs_requires_matching_root() {
    let triggers = strings(&["evt_1", "evt_1"]);
    let roots = strings(&["ES", "NQ"]);
    assert_eq!(capsule_for_identity(&triggers, &roots, "evt_1", Some("NQ")), Some(1));
    assert_eq!(capsule_for_identity(&strings(&["evt_1"]), &strings(&["ES"]), "evt_1", Some("NQ")), None);
}

#[test]
fn rootless_event_falls_back_to_identity_capsule_match() {
    let triggers = strings(&["evt_1"]);
    let roots = strings(&["NQ"]);
    assert_eq!(capsule_for_identity(&triggers, &roots, "evt_1", None), Some(0));
    assert_eq!(capsule_for_identity(&triggers, &roots, "evt_2", None), None);
}

#[test]
fn envelope_fields_required_on_every_row() {
    assert!(!kernel_event_envelope_fields_present("", "k", "d", "k", "t", false, false));
    assert!(!kernel_event_envelope_fields_present("i", "k", "d", "k", "stop_run", true, false));
    assert!(kernel_event_envelope_fields_present("i", "k", "d", "k", "stop_run", true, true));
    assert_eq!(SEVERITY_PLACEHOLDER, "unspecified");
    assert_eq!(COACHING_EVENT_FETCH_CAP, 500);
}

#[test]
fn fresh_rows_open_and_terminal_priors_reopen() {
    assert_eq!(detector_row_lifecycle("pinch_detected", None), EventLifecycle::Open);
    assert_eq!(
        detector_row_lifecycle("pinch_detected", Some(EventLifecycle::Resolved)),
        EventLifecycle::Open
    );
    assert_eq!(
        detector_row_lifecycle("pinch_invalidated", Some(EventLifecycle::Expired)),
        EventLifecycle::Expired
    );
    assert_eq!(latest_per_dedup(&strings(&["a", "b", "a", "c", "b"])), vec![0, 1, 3]);
}

fn s(v: &str) -> Option<String> {
    Some(v.to_string())
}

fn empty_row() -> DbEventRow {
    DbEventRow {
        event_type: None,
        session_date: None,
        trading_day: None,
        lifecycle: None,
        severity: None,
        metadata_severity_label: None,
        metadata_severity_level: None,
        identity_id: None,
        event_id: None,
        identity_key: None,
        dedup_identity_id: None,
        dedup_identity_key: None,
        root_symbol: None,
        journal_frame_second: None,
        frame_ref_second: None,
    }
}

fn derived() -> DerivedEventIds {
    DerivedEventIds {
        identity_id: "evt_derived".into(),
        identity_key: "derived-key".into(),
        dedup_identity_id: "dedup_derived".into(),
        dedup_identity_key: "derived-dedup-key".into(),
        frame_second: Some(42),
    }
}

#[test]
fn db_row_uses_stored_lifecycle_and_severity() {
    let row = DbEventRow {
        event_type: s("absorption_confirmed"),
        session_date: s("2026-08-11"),
        trading_day: s("2026-08-11"),
        lifecycle: s("updated"),
        severity: s("high"),
        metadata_severity_label: s("high"),
        identity_id: s("evt_abc"),
        identity_key: s("key"),
        dedup_identity_id: s("dedup_abc"),
        dedup_identity_key: s("dedup-key"),
        root_symbol: s("NQ"),
        journal_frame_second: Some(1_700_000_000),
        ..empty_row()
    };
    let evt = kernel_event_fields(&row, &derived());
    assert_eq!(evt.severity, EventSeverity::High);
    assert_eq!(evt.lifecycle, EventLifecycle::Updated);
    assert_eq!(evt.identity_id, "evt_abc");
    assert_eq!(evt.dedup_identity_id, "dedup_abc");
    assert_eq!(evt.journal_frame_second, Some(1_700_000_000));
    assert_eq!(evt.root_symbol.as_deref(), Some("NQ"));
    assert_eq!(evt.event_type, "absorption_confirmed");
    assert_eq!(evt.family, EventFamily::Flow);
}

#[test]
fn unspecified_stored_severity_does_not_override_family_default() {
    let row = DbEventRow {
        event_type: s("pinch_detected"),
        session_date: s("2026-08-11"),
        lifecycle: s("open"),
        severity: s("unspecified"),
        identity_id: s("evt_x"),
        identity_key: s("k"),
        dedup_identity_id: s("dedup_x"),
        dedup_identity_key: s("k"),
        ..empty_row()
    };
    let evt = kernel_event_fields(&row, &derived());
    assert_eq!(evt.severity, EventSeverity::High);
}

#[test]
fn db_row_falls_back_to_derived_values() {
    let row = DbEventRow {
        event_type: s("absorption_invalidated"),
        session_date: s(""),
        lifecycle: s("reopened"),
        identity_id: s(""),
        event_id: s("evt_legacy"),
        dedup_identity_key: s(""),
        root_symbol: s("  ES "),
        frame_ref_second: Some(7),
        metadata_severity_level: Some(NumericSeverity::AtLeastFour),
        ..empty_row()
    };
    let evt = kernel_event_fields(&row, &derived());
    assert_eq!(evt.lifecycle, EventLifecycle::Resolved);
    assert_eq!(evt.severity, EventSeverity::Urgent);
    assert_eq!(evt.identity_id, "evt_legacy");
    assert_eq!(evt.identity_key, "derived-key");
    assert_eq!(evt.dedup_identity_id, "dedup_derived");
    assert_eq!(evt.dedup_identity_key, "derived-dedup-key");
    assert_eq!(evt.journal_frame_second, Some(7));
    assert_eq!(evt.root_symbol.as_deref(), Some("ES"));
    assert_eq!(evt.session_date, None);
    assert_eq!(evt.trading_day, "");
    assert!(!evt.requires_capsule);

    let bare = kernel_event_fields(&empty_row(), &derived());
    assert_eq!(bare.event_type, "unknown");
    assert_eq!(bare.lifecycle, EventLifecycle::Open);
    assert_eq!(bare.identity_id, "evt_derived");
    assert_eq!(bare.journal_frame_second, Some(42));
    assert_eq!(bare.root_symbol, None);
    assert_eq!(bare.family, EventFamily::Other);
}
