use codexmanager_service::usage::{
    apply_status_from_snapshot, auto_warmup_reason_after_quota_refresh,
    is_supported_quota_window_minutes, maybe_enqueue_auto_warmup_after_quota_refresh,
    quota_window_refreshed, store_usage_snapshot, usage_snapshots_retain_per_account,
    usage_status_updates_blocked, Availability, UsageSnapshotRecord, UsageWindows,
};

fn snapshot(
    captured_at: i64,
    primary_reset: Option<i64>,
    secondary_reset: Option<i64>,
) -> UsageSnapshotRecord {
    UsageSnapshotRecord {
        account_id: "acc-1".to_string(),
        window_minutes: Some(300),
        resets_at: primary_reset,
        secondary_window_minutes: Some(10_080),
        secondary_resets_at: secondary_reset,
        captured_at,
    }
}

#[test]
fn detects_primary_window_reset_crossing() {
    let previous = snapshot(1_000, Some(1_200), Some(8_000));
    let current = snapshot(1_210, Some(2_000), Some(8_000));

    assert_eq!(
        auto_warmup_reason_after_quota_refresh(Some(&previous), &current),
        Some("primary_quota_window_reset")
    );
}

#[test]
fn detects_secondary_window_reset_crossing() {
    let previous = snapshot(1_000, Some(1_500), Some(1_200));
    let current = snapshot(1_210, Some(1_500), Some(20_000));

    assert_eq!(
        auto_warmup_reason_after_quota_refresh(Some(&previous), &current),
        Some("secondary_quota_window_reset")
    );
}

#[test]
fn detects_long_window_when_reported_as_primary() {
    let mut previous = snapshot(1_000, Some(1_200), None);
    previous.window_minutes = Some(10_080);
    previous.secondary_window_minutes = None;
    let mut current = snapshot(1_210, Some(20_000), None);
    current.window_minutes = Some(10_080);
    current.secondary_window_minutes = None;

    assert_eq!(
        auto_warmup_reason_after_quota_refresh(Some(&previous), &current),
        Some("primary_quota_window_reset")
    );
}

#[test]
fn ignores_non_reset_snapshot_updates() {
    let previous = snapshot(1_000, Some(1_200), Some(8_000));
    let current = snapshot(1_100, Some(1_200), Some(8_000));

    assert_eq!(
        auto_warmup_reason_after_quota_refresh(Some(&previous), &current),
        None
    );
}

#[test]
fn tolerates_small_clock_skew_at_reset_boundary() {
    let previous = snapshot(1_000, Some(1_200), Some(8_000));
    let current = snapshot(1_110, Some(2_000), Some(8_000));

    assert_eq!(
        auto_warmup_reason_after_quota_refresh(Some(&previous), &current),
        Some("primary_quota_window_reset")
    );
}

#[test]
fn does_not_treat_far_early_reset_advance_as_crossed() {
    let previous = snapshot(1_000, Some(2_000), Some(8_000));
    let current = snapshot(1_500, Some(3_000), Some(8_000));

    assert_eq!(
        auto_warmup_reason_after_quota_refresh(Some(&previous), &current),
        None
    );
}

#[test]
fn no_previous_snapshot_gives_no_reason() {
    let current = snapshot(1_210, Some(2_000), Some(8_000));
    assert_eq!(auto_warmup_reason_after_quota_refresh(None, &current), None);
}

#[test]
fn window_falls_back_to_current_when_previous_has_none() {
    let mut previous = snapshot(1_000, Some(1_200), Some(8_000));
    previous.window_minutes = None;
    let current = snapshot(1_210, Some(2_000), Some(8_000));
    assert_eq!(
        auto_warmup_reason_after_quota_refresh(Some(&previous), &current),
        Some("primary_quota_window_reset")
    );
}

#[test]
fn unsupported_window_length_gives_no_reason() {
    let mut previous = snapshot(1_000, Some(1_200), Some(8_000));
    previous.window_minutes = Some(60);
    let current = snapshot(1_210, Some(2_000), Some(8_000));
    assert_eq!(
        auto_warmup_reason_after_quota_refresh(Some(&previous), &current),
        None
    );
}

#[test]
fn supported_window_tolerance_edges() {
    assert!(is_supported_quota_window_minutes(Some(300)));
    assert!(is_supported_quota_window_minutes(Some(295)));
    assert!(is_supported_quota_window_minutes(Some(305)));
    assert!(!is_supported_quota_window_minutes(Some(294)));
    assert!(!is_supported_quota_window_minutes(Some(306)));
    assert!(is_supported_quota_window_minutes(Some(10_075)));
    assert!(is_supported_quota_window_minutes(Some(10_085)));
    assert!(!is_supported_quota_window_minutes(Some(10_086)));
    assert!(!is_supported_quota_window_minutes(None));
    assert!(!is_supported_quota_window_minutes(Some(i64::MIN)));
}

#[test]
fn quota_window_refreshed_needs_positive_resets_and_forward_move() {
    assert!(quota_window_refreshed(Some(1_200), Some(2_000), 1_210, Some(300)));
    assert!(!quota_window_refreshed(Some(0), Some(2_000), 1_210, Some(300)));
    assert!(!quota_window_refreshed(Some(1_200), Some(-5), 1_210, Some(300)));
    assert!(!quota_window_refreshed(Some(1_200), Some(1_200), 1_210, Some(300)));
    assert!(!quota_window_refreshed(None, Some(2_000), 1_210, Some(300)));
    assert!(!quota_window_refreshed(Some(1_200), None, 1_210, Some(300)));
    // captured 300 seconds before the reset: exactly at the tolerance
    assert!(quota_window_refreshed(Some(1_200), Some(2_000), 900, Some(300)));
    assert!(!quota_window_refreshed(Some(1_200), Some(2_000), 899, Some(300)));
    // a capture time near the top of the range saturates instead of overflowing
    assert!(quota_window_refreshed(Some(1_200), Some(2_000), i64::MAX, Some(300)));
}

#[test]
fn enqueue_after_refresh_respects_the_switch() {
    let previous = snapshot(1_000, Some(1_200), Some(8_000));
    let current = snapshot(1_210, Some(2_000), Some(8_000));
    assert_eq!(
        maybe_enqueue_auto_warmup_after_quota_refresh(false, Some(&previous), &current),
        None
    );
    assert_eq!(
        maybe_enqueue_auto_warmup_after_quota_refresh(true, Some(&previous), &current),
        Some("primary_quota_window_reset")
    );
}

#[test]
fn disabled_status_blocks_updates() {
    assert!(usage_status_updates_blocked("disabled"));
    assert!(usage_status_updates_blocked("  DISABLED \n"));
    assert!(!usage_status_updates_blocked("active"));
    assert!(!usage_status_updates_blocked("disabled-ish"));
}

#[test]
fn status_from_snapshot_follows_availability() {
    let ok = apply_status_from_snapshot("active", &Availability::Available).unwrap();
    assert_eq!(ok.status, "active");
    assert_eq!(ok.reason, "usage_ok");

    let limited = apply_status_from_snapshot(
        "active",
        &Availability::Unavailable("usage_exhausted_secondary".to_string()),
    )
    .unwrap();
    assert_eq!(limited.status, "limited");
    assert_eq!(limited.reason, "usage_limit_exhausted");

    assert!(apply_status_from_snapshot(
        "active",
        &Availability::Unavailable("usage_missing_primary".to_string())
    )
    .is_none());
    assert!(apply_status_from_snapshot("Disabled", &Availability::Available).is_none());
}

#[test]
fn retain_per_account_parses_or_defaults() {
    assert_eq!(usage_snapshots_retain_per_account(None), 1);
    assert_eq!(usage_snapshots_retain_per_account(Some(" 12 ")), 12);
    assert_eq!(usage_snapshots_retain_per_account(Some("0")), 0);
    assert_eq!(usage_snapshots_retain_per_account(Some("abc")), 1);
    assert_eq!(usage_snapshots_retain_per_account(Some("-3")), 1);
    assert_eq!(usage_snapshots_retain_per_account(Some("")), 1);
}

#[test]
fn store_plan_builds_record_prunes_and_queues() {
    let previous = snapshot(1_000, Some(1_200), Some(8_000));
    let windows = UsageWindows {
        window_minutes: Some(300),
        resets_at: Some(2_000),
        secondary_window_minutes: Some(10_080),
        secondary_resets_at: Some(8_000),
    };
    let plan = store_usage_snapshot("acc-1", &windows, 1_210, Some(&previous), Some("5"), true);
    assert_eq!(plan.record.account_id, "acc-1");
    assert_eq!(plan.record.captured_at, 1_210);
    assert_eq!(plan.record.resets_at, Some(2_000));
    assert_eq!(plan.prune_to, Some(5));
    assert_eq!(plan.warmup_reason, Some("primary_quota_window_reset"));

    let off = store_usage_snapshot("acc-1", &windows, 1_210, Some(&previous), Some("0"), false);
    assert_eq!(off.prune_to, None);
    assert_eq!(off.warmup_reason, None);

    let default = store_usage_snapshot("acc-1", &windows, 1_210, None, None, true);
    assert_eq!(default.prune_to, Some(1));
    assert_eq!(default.warmup_reason, None);
}
