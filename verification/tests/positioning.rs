use the_desk::positioning::{positioning_domain, POSITIONING_SUMMARY};
use the_desk::positioning_record::{
    accept_levels_only_entry, freshness_verdict, is_vendor_label, normalize_kind,
    reject_banned_copy, reject_vendor_pretence, require_levels_only, validate_derived_levels,
    validate_trading_day, validate_wall_role, LevelsCheck, LevelsOnlyEntry, PositioningError,
    WallCheck, LEVELS_ONLY_PROVENANCE_NOTE, LEVELS_ONLY_RECORD_KIND, MANUAL_PROVENANCE_SOURCE,
};
use the_desk::types::{CostHint, FreshnessSemantics, Unit};

fn sample_levels() -> LevelsCheck {
    LevelsCheck {
        flip_finite: true,
        balance_finite: true,
        upside_test_finite: true,
        downside_test_finite: true,
        walls: vec![
            WallCheck { strike_finite: true, role: "call_wall".into() },
            WallCheck { strike_finite: true, role: "put_wall".into() },
        ],
    }
}

fn sample_input() -> LevelsOnlyEntry {
    LevelsOnlyEntry {
        id: None,
        record_kind: Some(LEVELS_ONLY_RECORD_KIND.into()),
        completeness: Some(LEVELS_ONLY_RECORD_KIND.into()),
        trading_day: Some("2026-02-18".into()),
        captured_at_ok: true,
        as_of_ok: true,
        data_time_valid: false,
        vendor: None,
        levels: Some(sample_levels()),
        note: None,
        mid_day_notes: Vec::new(),
    }
}

fn message(r: Result<impl std::fmt::Debug, PositioningError>) -> String {
    match r {
        Err(PositioningError::Invalid(m)) => m,
        Ok(v) => panic!("expected a refusal, got {v:?}"),
    }
}

#[test]
fn levels_only_entry_is_first_class_manual_not_vendor() {
    let plan = accept_levels_only_entry(&sample_input()).expect("accept");
    assert_eq!(plan.completeness, LEVELS_ONLY_RECORD_KIND);
    assert_eq!(plan.trading_day.as_deref(), Some("2026-02-18"));
    assert_eq!(plan.provenance.note.as_deref(), Some(LEVELS_ONLY_PROVENANCE_NOTE));
    assert_eq!(plan.record_kind, LEVELS_ONLY_RECORD_KIND);
    assert_eq!(plan.provenance.source, MANUAL_PROVENANCE_SOURCE);
    assert!(plan.provenance.first_class);
    assert!(plan.provenance.vendor.is_none());
    assert!(!plan.keeps_data_time);
    assert!(plan.freshness_ok);
    assert!(plan.id.is_none());
    assert_eq!(MANUAL_PROVENANCE_SOURCE, "manual");
    let (fresh, degraded, note) =
        freshness_verdict(true, MANUAL_PROVENANCE_SOURCE, None, "2026-02-18", Some("2026-02-18"));
    assert!(fresh, "fresh Levels-Only must not be degraded");
    assert!(!degraded);
    let note = note.to_lowercase();
    assert!(!note.contains("fallback"));
    assert!(!note.contains("second-class"));
    assert!(!note.contains("volsignal"));
}

#[test]
fn missing_freshness_fails_closed_and_is_never_vendor() {
    let (fresh, degraded, note) =
        freshness_verdict(false, MANUAL_PROVENANCE_SOURCE, None, "2026-02-18", Some("2026-02-18"));
    assert!(degraded);
    assert!(!fresh);
    assert!(note.contains("missing capturedAt/as-of"));
}

#[test]
fn prior_day_card_is_stale_on_live_path_not_vendor() {
    let (fresh, degraded, note) =
        freshness_verdict(true, MANUAL_PROVENANCE_SOURCE, None, "2026-02-18", Some("2026-08-13"));
    assert!(degraded);
    assert!(!fresh);
    assert!(note.contains("first-class"));
    assert!(!note.to_lowercase().contains("fallback"));
    assert!(note.contains("2026-02-18"));
}

#[test]
fn as_of_path_does_not_stale_a_dated_card() {
    let (fresh, degraded, _) =
        freshness_verdict(true, MANUAL_PROVENANCE_SOURCE, None, "2026-02-18", None);
    assert!(fresh);
    assert!(!degraded);
}

#[test]
fn rejects_slice_and_vendor_pretence() {
    let mut input = sample_input();
    input.record_kind = Some("slice".into());
    assert!(accept_levels_only_entry(&input).is_err());

    let mut input = sample_input();
    input.vendor = Some("VolSignals".into());
    assert!(accept_levels_only_entry(&input).is_err());

    let mut input = sample_input();
    input.data_time_valid = true;
    assert!(accept_levels_only_entry(&input).is_err());
}

#[test]
fn rejects_advisory_and_fallback_copy() {
    let mut input = sample_input();
    input.note = Some("You should buy the call wall".into());
    assert!(accept_levels_only_entry(&input).is_err());

    let mut input = sample_input();
    input.note = Some("fallback record for the backlog".into());
    assert!(accept_levels_only_entry(&input).is_err());
}

#[test]
fn vendor_stamped_source_is_never_fresh() {
    let (fresh, degraded, note) =
        freshness_verdict(true, "Provider", None, "2026-02-18", Some("2026-02-18"));
    assert!(!fresh && degraded);
    assert!(note.contains("vendor/provider stamp"));
    let (fresh, _, _) = freshness_verdict(true, "manual", Some("vs3d"), "2026-02-18", None);
    assert!(!fresh);
}

#[test]
fn entry_refusals_carry_their_messages() {
    let mut input = sample_input();
    input.record_kind = Some("grid".into());
    assert_eq!(
        message(accept_levels_only_entry(&input)),
        "positioning_entry accepts Levels-Only Records only (recordKind=`levels_only`); `position_grid` is a later capture-adapter / Vs3dProvider path"
    );
    let mut input = sample_input();
    input.completeness = Some(" Partial ".into());
    assert_eq!(
        message(accept_levels_only_entry(&input)),
        "completeness `Partial` must be `levels_only` for a Levels-Only Record (first-class; not a fallback kind)"
    );
    let mut input = sample_input();
    input.captured_at_ok = false;
    assert_eq!(
        message(accept_levels_only_entry(&input)),
        "capturedAt must be a positive finite epoch-milliseconds value (explicit manual/as-of)"
    );
    let mut input = sample_input();
    input.as_of_ok = false;
    assert_eq!(
        message(accept_levels_only_entry(&input)),
        "asOf must be a positive finite epoch-milliseconds value (explicit manual/as-of)"
    );
    let mut input = sample_input();
    input.trading_day = Some(" 2026/02/18 ".into());
    assert_eq!(
        message(accept_levels_only_entry(&input)),
        "tradingDay must be YYYY-MM-DD (got `2026/02/18`)"
    );
    let mut input = sample_input();
    input.levels = None;
    assert_eq!(
        message(accept_levels_only_entry(&input)),
        "positioning_entry requires derivedLevels (flip, walls, balance, upsideTest, downsideTest)"
    );
    let mut input = sample_input();
    input.levels.as_mut().unwrap().balance_finite = false;
    assert_eq!(
        message(accept_levels_only_entry(&input)),
        "derivedLevels.balance must be a finite price"
    );
    let mut input = sample_input();
    input.levels.as_mut().unwrap().walls[1].role = " gamma_wall ".into();
    assert_eq!(
        message(accept_levels_only_entry(&input)),
        "derivedLevels.walls[].role `gamma_wall` must be call_wall or put_wall"
    );
    let mut input = sample_input();
    input.mid_day_notes = vec![None, Some("Degraded mode today".into())];
    assert!(message(accept_levels_only_entry(&input)).contains("`degraded mode`"));
    let mut input = sample_input();
    input.record_kind = Some("tape".into());
    assert_eq!(message(accept_levels_only_entry(&input)), "unknown Positioning recordKind `tape`");
}

#[test]
fn accepted_entry_keeps_trimmed_id_note_and_day() {
    let mut input = sample_input();
    input.id = Some("  card-7 ".into());
    input.note = Some("  from the weekend prep ".into());
    input.trading_day = Some("   ".into());
    input.record_kind = None;
    input.completeness = Some("LEVELS_ONLY".into());
    let plan = accept_levels_only_entry(&input).unwrap();
    assert_eq!(plan.id.as_deref(), Some("card-7"));
    assert_eq!(plan.note.as_deref(), Some("from the weekend prep"));
    assert_eq!(plan.provenance.note.as_deref(), Some("from the weekend prep"));
    assert!(plan.trading_day.is_none());
}

#[test]
fn kind_labels_and_field_checks() {
    assert_eq!(normalize_kind(None).unwrap(), "levels_only");
    assert_eq!(normalize_kind(Some(" Levels-Only ")).unwrap(), "levels_only");
    assert_eq!(normalize_kind(Some("BY-STRIKE")).unwrap(), "positions_by_strike");
    assert_eq!(require_levels_only(Some("levelsonly"), None).unwrap(), "levels_only");
    assert_eq!(validate_trading_day("2026-02-18").unwrap(), "2026-02-18");
    assert!(validate_trading_day("2026-2-18").is_err());
    assert!(is_vendor_label(Some(" ConvexValue ")));
    assert!(is_vendor_label(Some("my-volsignals-feed")));
    assert!(!is_vendor_label(Some("  ")));
    assert!(!is_vendor_label(None));
    assert_eq!(
        message(reject_vendor_pretence(Some("vendor"), false)),
        "Levels-Only Records are the manual/as-of path; do not stamp a vendor (VolSignals / Vs3dProvider is a later ticket)"
    );
    assert!(reject_vendor_pretence(None, false).is_ok());
    assert_eq!(message(validate_wall_role("  ")), "derivedLevels.walls[].role is required");
    assert!(validate_wall_role(" put_wall ").is_ok());
    assert!(reject_banned_copy(Some("I RECOMMEND this")).is_err());
    assert!(reject_banned_copy(Some("Balance above the flip")).is_ok());
    let mut levels = sample_levels();
    levels.walls[0].strike_finite = false;
    assert_eq!(message(validate_derived_levels(&levels)), "derivedLevels.walls[].strike must be a finite price");
}

#[test]
fn positioning_domain_lists_kinds_and_fields() {
    let stub = positioning_domain();
    let kinds: Vec<_> = stub.record_kinds.iter().map(|k| k.id.as_str()).collect();
    assert_eq!(kinds, ["position_grid", "positions_by_strike", "slice", "levels_only"]);
    assert_eq!(stub.fields.len(), 7);
    assert_eq!(stub.domain.summary, POSITIONING_SUMMARY);
    assert_eq!(stub.domain.field_ids.len(), 7);
    assert_eq!(stub.domain.record_kinds, kinds);
    let freshness = stub.fields.iter().find(|f| f.id == "positioning.freshnessOk").unwrap();
    assert_eq!(freshness.unit, Unit::Bool);
    assert_eq!(freshness.cost_hint, CostHint::R0);
    let data_time = stub.fields.iter().find(|f| f.id == "positioning.dataTime").unwrap();
    assert_eq!(data_time.freshness, FreshnessSemantics::VendorTimestampFailClosed);
    assert!(stub.fields.iter().all(|f| f.rust_field.is_empty() && f.domain_id == "positioning"));
}
