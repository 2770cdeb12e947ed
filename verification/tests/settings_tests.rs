use codexmanager_service::settings::{
    auto_warmup_after_quota_refresh_enabled, background_tasks_settings, current_mutex_string,
    ensure_background_tasks_config_loaded, env_bool_or, env_usize_or, normalize_text_setting,
    notify_warmup_cron_changed, parse_interval_secs, reload_background_tasks_runtime_from_env,
    set_background_tasks_settings, set_mutex_string, validate_background_tasks_settings_patch,
    warmup_cron_signal_version, BackgroundTaskEnvKey, BackgroundTasksConstants,
    BackgroundTasksEnv, BackgroundTasksRuntime, BackgroundTasksSettingsPatch, CronSignal,
    StringSlot,
};

fn constants() -> BackgroundTasksConstants {
    BackgroundTasksConstants {
        min_usage_poll_interval_secs: 30,
        min_gateway_keepalive_interval_secs: 30,
        min_token_refresh_poll_interval_secs: 60,
        default_usage_refresh_workers: 4,
        default_http_worker_factor: 4,
        default_http_worker_min: 8,
        default_http_stream_worker_factor: 1,
        default_http_stream_worker_min: 2,
        restart_required_keys: vec!["httpWorkerFactor".to_string(), "httpWorkerMin".to_string()],
    }
}

fn empty_env() -> BackgroundTasksEnv {
    BackgroundTasksEnv {
        disable_polling: None,
        usage_polling_enabled: None,
        usage_poll_interval_secs: 600,
        gateway_keepalive_enabled: None,
        gateway_keepalive_interval_secs: 180,
        token_refresh_polling_enabled: None,
        token_refresh_poll_interval_secs: 60,
        usage_refresh_workers: None,
        http_worker_factor: None,
        http_worker_min: None,
        http_stream_worker_factor: None,
        http_stream_worker_min: None,
        auto_warmup_after_quota_refresh_enabled: None,
        warmup_cron_enabled: None,
        warmup_cron_expression: None,
    }
}

fn empty_patch() -> BackgroundTasksSettingsPatch {
    BackgroundTasksSettingsPatch {
        usage_polling_enabled: None,
        usage_poll_interval_secs: None,
        gateway_keepalive_enabled: None,
        gateway_keepalive_interval_secs: None,
        token_refresh_polling_enabled: None,
        token_refresh_poll_interval_secs: None,
        usage_refresh_workers: None,
        http_worker_factor: None,
        http_worker_min: None,
        http_stream_worker_factor: None,
        http_stream_worker_min: None,
        auto_warmup_after_quota_refresh_enabled: None,
        warmup_cron_enabled: None,
        warmup_cron_expression: None,
    }
}

#[test]
fn env_bool_accepts_common_spellings() {
    assert!(env_bool_or(Some(" YES "), false));
    assert!(env_bool_or(Some("on"), false));
    assert!(env_bool_or(Some("1"), false));
    assert!(!env_bool_or(Some("Off"), true));
    assert!(!env_bool_or(Some("0"), true));
    assert!(env_bool_or(Some("maybe"), true));
    assert!(!env_bool_or(Some("maybe"), false));
    assert!(env_bool_or(None, true));
}

#[test]
fn env_usize_parses_or_defaults() {
    assert_eq!(env_usize_or(Some(" 16 "), 4), 16);
    assert_eq!(env_usize_or(Some("x"), 4), 4);
    assert_eq!(env_usize_or(Some("-1"), 4), 4);
    assert_eq!(env_usize_or(None, 7), 7);
}

#[test]
fn text_setting_is_trimmed() {
    assert_eq!(normalize_text_setting("  0 */5 * * * *\t"), "0 */5 * * * *");
    assert_eq!(normalize_text_setting("   "), "");
}

#[test]
fn string_slot_reads_empty_until_set() {
    let mut slot = StringSlot { value: None };
    assert_eq!(current_mutex_string(&mut slot), "");
    assert!(slot.value.is_some());
    set_mutex_string(&mut slot, "abc");
    assert_eq!(current_mutex_string(&mut slot), "abc");
}

#[test]
fn cron_signal_counts_and_wraps() {
    let mut signal = CronSignal { version: 0 };
    notify_warmup_cron_changed(&mut signal);
    assert_eq!(warmup_cron_signal_version(&signal), 1);
    let mut top = CronSignal { version: u64::MAX };
    notify_warmup_cron_changed(&mut top);
    assert_eq!(warmup_cron_signal_version(&top), 0);
}

#[test]
fn first_load_reads_environment_with_defaults() {
    let c = constants();
    let mut env = empty_env();
    env.http_worker_min = Some("0".to_string());
    env.warmup_cron_expression = Some("  0 0 * * * * ".to_string());
    env.warmup_cron_enabled = Some("true".to_string());
    let mut rt = BackgroundTasksRuntime::new();
    let s = background_tasks_settings(&mut rt, &env, &c);
    assert!(rt.loaded);
    assert!(s.usage_polling_enabled);
    assert_eq!(s.usage_poll_interval_secs, 600);
    assert!(s.gateway_keepalive_enabled);
    assert!(s.token_refresh_polling_enabled);
    assert_eq!(s.usage_refresh_workers, 4);
    assert_eq!(s.http_worker_min, 1);
    assert!(!s.auto_warmup_after_quota_refresh_enabled);
    assert!(s.warmup_cron_enabled);
    assert_eq!(s.warmup_cron_expression, "0 0 * * * *");
    assert_eq!(s.requires_restart_keys, vec!["httpWorkerFactor", "httpWorkerMin"]);
}

#[test]
fn disable_polling_switches_default_off() {
    let c = constants();
    let mut env = empty_env();
    env.disable_polling = Some("1".to_string());
    let mut rt = BackgroundTasksRuntime::new();
    let s = background_tasks_settings(&mut rt, &env, &c);
    assert!(!s.usage_polling_enabled);
    env.usage_polling_enabled = Some("yes".to_string());
    let mut rt2 = BackgroundTasksRuntime::new();
    let s2 = background_tasks_settings(&mut rt2, &env, &c);
    assert!(s2.usage_polling_enabled);
}

#[test]
fn later_loads_keep_current_values() {
    let c = constants();
    let env = empty_env();
    let mut rt = BackgroundTasksRuntime::new();
    ensure_background_tasks_config_loaded(&mut rt, &env, &c);
    let mut other = empty_env();
    other.auto_warmup_after_quota_refresh_enabled = Some("1".to_string());
    assert!(!auto_warmup_after_quota_refresh_enabled(&mut rt, &other, &c));
    let mut fresh = BackgroundTasksRuntime::new();
    assert!(auto_warmup_after_quota_refresh_enabled(&mut fresh, &other, &c));
}

#[test]
fn reload_notifies_only_when_schedule_changes() {
    let c = constants();
    let env = empty_env();
    let mut rt = BackgroundTasksRuntime::new();
    ensure_background_tasks_config_loaded(&mut rt, &env, &c);
    assert!(!reload_background_tasks_runtime_from_env(&mut rt, &env, &c));
    assert_eq!(rt.warmup_cron_signal.version, 0);
    let mut changed = empty_env();
    changed.warmup_cron_expression = Some("0 30 9 * * *".to_string());
    assert!(reload_background_tasks_runtime_from_env(&mut rt, &changed, &c));
    assert_eq!(rt.warmup_cron_signal.version, 1);
    assert!(!reload_background_tasks_runtime_from_env(&mut rt, &changed, &c));
    assert_eq!(rt.warmup_cron_signal.version, 1);
}

#[test]
fn patch_normalizes_values_and_lists_env_writes() {
    let c = constants();
    let env = empty_env();
    let mut rt = BackgroundTasksRuntime::new();
    let mut patch = empty_patch();
    patch.usage_polling_enabled = Some(false);
    patch.usage_poll_interval_secs = Some(5);
    patch.http_worker_factor = Some(0);
    patch.warmup_cron_expression = Some("  0 0 8 * * * ".to_string());
    let applied = set_background_tasks_settings(&mut rt, patch, &env, &c);
    assert!(!applied.settings.usage_polling_enabled);
    assert_eq!(applied.settings.usage_poll_interval_secs, 30);
    assert_eq!(applied.settings.http_worker_factor, 1);
    assert_eq!(applied.settings.warmup_cron_expression, "0 0 8 * * *");
    assert!(applied.warmup_cron_changed);
    assert_eq!(rt.warmup_cron_signal.version, 1);
    let updates = &applied.env_updates;
    assert_eq!(updates.len(), 5);
    assert!(matches!(updates[0].key, BackgroundTaskEnvKey::UsagePollingEnabled));
    assert_eq!(updates[0].value.as_deref(), Some("0"));
    assert!(matches!(updates[1].key, BackgroundTaskEnvKey::DisablePolling));
    assert_eq!(updates[1].value.as_deref(), Some("1"));
    assert!(matches!(updates[2].key, BackgroundTaskEnvKey::UsagePollIntervalSecs));
    assert_eq!(updates[2].value.as_deref(), Some("30"));
    assert!(matches!(updates[3].key, BackgroundTaskEnvKey::HttpWorkerFactor));
    assert_eq!(updates[3].value.as_deref(), Some("1"));
    assert!(matches!(updates[4].key, BackgroundTaskEnvKey::WarmupCronExpression));
    assert_eq!(updates[4].value.as_deref(), Some("0 0 8 * * *"));
}

#[test]
fn enabling_polling_removes_disable_variable() {
    let c = constants();
    let env = empty_env();
    let mut rt = BackgroundTasksRuntime::new();
    let mut patch = empty_patch();
    patch.usage_polling_enabled = Some(true);
    let applied = set_background_tasks_settings(&mut rt, patch, &env, &c);
    assert_eq!(applied.env_updates.len(), 2);
    assert_eq!(applied.env_updates[0].value.as_deref(), Some("1"));
    assert!(matches!(applied.env_updates[1].key, BackgroundTaskEnvKey::DisablePolling));
    assert!(applied.env_updates[1].value.is_none());
    assert!(!applied.warmup_cron_changed);
    assert_eq!(rt.warmup_cron_signal.version, 0);
}

#[test]
fn empty_patch_keeps_settings() {
    let c = constants();
    let env = empty_env();
    let mut rt = BackgroundTasksRuntime::new();
    let before = background_tasks_settings(&mut rt, &env, &c);
    let applied = set_background_tasks_settings(&mut rt, empty_patch(), &env, &c);
    assert!(applied.env_updates.is_empty());
    assert!(!applied.warmup_cron_changed);
    assert_eq!(applied.settings.usage_poll_interval_secs, before.usage_poll_interval_secs);
    assert_eq!(applied.settings.http_worker_min, before.http_worker_min);
    assert_eq!(applied.settings.warmup_cron_expression, before.warmup_cron_expression);
}

#[test]
fn validation_requires_expression_when_enabled() {
    let c = constants();
    let env = empty_env();
    let mut rt = BackgroundTasksRuntime::new();
    let mut patch = empty_patch();
    patch.warmup_cron_enabled = Some(true);
    assert_eq!(
        validate_background_tasks_settings_patch(&mut rt, &patch, &env, &c),
        Err("warmup cron expression is required when warmup cron is enabled".to_string())
    );
    patch.warmup_cron_expression = Some("   ".to_string());
    assert!(validate_background_tasks_settings_patch(&mut rt, &patch, &env, &c).is_err());
    patch.warmup_cron_expression = Some(" 0 0 * * * * ".to_string());
    assert_eq!(
        validate_background_tasks_settings_patch(&mut rt, &patch, &env, &c),
        Ok(Some("0 0 * * * *".to_string()))
    );
}

#[test]
fn validation_checks_given_expression_even_when_disabled() {
    let c = constants();
    let env = empty_env();
    let mut rt = BackgroundTasksRuntime::new();
    let mut patch = empty_patch();
    patch.warmup_cron_expression = Some("bad cron".to_string());
    assert_eq!(
        validate_background_tasks_settings_patch(&mut rt, &patch, &env, &c),
        Ok(Some("bad cron".to_string()))
    );
    assert_eq!(
        validate_background_tasks_settings_patch(&mut rt, &empty_patch(), &env, &c),
        Ok(None)
    );
}

#[test]
fn interval_setting_parses_with_default_and_floor() {
    assert_eq!(parse_interval_secs(Some(" 900 "), 600, 30), 900);
    assert_eq!(parse_interval_secs(Some("5"), 600, 30), 30);
    assert_eq!(parse_interval_secs(Some("abc"), 600, 30), 600);
    assert_eq!(parse_interval_secs(None, 600, 30), 600);
    assert_eq!(parse_interval_secs(None, 10, 30), 30);
}

#[test]
fn validation_leaves_loaded_settings_alone() {
    let c = constants();
    let env = empty_env();
    let mut rt = BackgroundTasksRuntime::new();
    let before = background_tasks_settings(&mut rt, &env, &c);
    let mut patch = empty_patch();
    patch.warmup_cron_enabled = Some(true);
    patch.warmup_cron_expression = Some("0 0 * * * *".to_string());
    patch.usage_poll_interval_secs = Some(5);
    let _ = validate_background_tasks_settings_patch(&mut rt, &patch, &env, &c);
    let after = background_tasks_settings(&mut rt, &env, &c);
    assert_eq!(after.usage_poll_interval_secs, before.usage_poll_interval_secs);
    assert_eq!(after.warmup_cron_enabled, before.warmup_cron_enabled);
    assert_eq!(after.warmup_cron_expression, before.warmup_cron_expression);
}
