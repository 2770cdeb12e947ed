use codexmanager_service::dotenv::parse_dotenv_kv;
use codexmanager_service::idset::AccountIdSet;
use codexmanager_service::proxy::{
    normalize_proxy_candidate, proxy_bypass_matches_host, proxy_bypass_matches_target,
    proxy_url_from_env, wildcard_matches, ProxyEnvironment,
};
use codexmanager_service::settings::{
    background_tasks_settings, reload_background_tasks_runtime_from_env,
    set_background_tasks_settings,
    validate_background_tasks_settings_patch, BackgroundTaskEnvKey, BackgroundTasksConstants,
    BackgroundTasksEnv, BackgroundTasksRuntime, BackgroundTasksSettingsPatch, EnvUpdate,
};
use codexmanager_service::usage::{auto_warmup_reason_after_quota_refresh, UsageSnapshotRecord};
use codexmanager_service::warmup::{
    extract_status_code_from_message, mark_auto_warmup_task_pending, summarize_warmup_error,
    HttpHeaders,
};

fn constants() -> BackgroundTasksConstants {
    BackgroundTasksConstants {
        min_usage_poll_interval_secs: 30,
        min_gateway_keepalive_interval_secs: 30,
        min_token_refresh_poll_interval_secs: 60,
        default_usage_refresh_workers: 0,
        default_http_worker_factor: 4,
        default_http_worker_min: 8,
        default_http_stream_worker_factor: 1,
        default_http_stream_worker_min: 2,
        restart_required_keys: Vec::new(),
    }
}

fn env() -> BackgroundTasksEnv {
    BackgroundTasksEnv {
        disable_polling: None,
        usage_polling_enabled: None,
        usage_poll_interval_secs: 600,
        gateway_keepalive_enabled: None,
        gateway_keepalive_interval_secs: 180,
        token_refresh_polling_enabled: None,
        token_refresh_poll_interval_secs: 60,
        usage_refresh_workers: Some("0".to_string()),
        http_worker_factor: None,
        http_worker_min: None,
        http_stream_worker_factor: None,
        http_stream_worker_min: None,
        auto_warmup_after_quota_refresh_enabled: None,
        warmup_cron_enabled: None,
        warmup_cron_expression: None,
    }
}

fn patch() -> BackgroundTasksSettingsPatch {
    BackgroundTasksSettingsPatch {
        usage_polling_enabled: Some(false),
        usage_poll_interval_secs: Some(1),
        gateway_keepalive_enabled: None,
        gateway_keepalive_interval_secs: Some(45),
        token_refresh_polling_enabled: Some(true),
        token_refresh_poll_interval_secs: None,
        usage_refresh_workers: Some(0),
        http_worker_factor: Some(3),
        http_worker_min: None,
        http_stream_worker_factor: None,
        http_stream_worker_min: Some(0),
        auto_warmup_after_quota_refresh_enabled: Some(true),
        warmup_cron_enabled: Some(true),
        warmup_cron_expression: Some(" 0 0 9 * * * ".to_string()),
    }
}

#[test]
fn law_example_mark_is_exclusive() {
    let mut marks = AccountIdSet::new();
    assert!(mark_auto_warmup_task_pending(&mut marks, "acc"));
    assert!(!mark_auto_warmup_task_pending(&mut marks, "acc"));
}

#[test]
fn law_example_patch_is_idempotent() {
    let c = constants();
    let e = env();
    let mut rt = BackgroundTasksRuntime::new();
    let first = set_background_tasks_settings(&mut rt, patch(), &e, &c);
    let second = set_background_tasks_settings(&mut rt, patch(), &e, &c);
    assert_eq!(first.settings.usage_poll_interval_secs, second.settings.usage_poll_interval_secs);
    assert_eq!(first.settings.usage_refresh_workers, second.settings.usage_refresh_workers);
    assert_eq!(first.settings.warmup_cron_expression, second.settings.warmup_cron_expression);
    assert_eq!(first.settings.http_stream_worker_min, second.settings.http_stream_worker_min);
    assert_eq!(first.env_updates.len(), second.env_updates.len());
    for (a, b) in first.env_updates.iter().zip(second.env_updates.iter()) {
        assert_eq!(a.value, b.value);
    }
}

#[test]
fn law_example_counts_stay_positive() {
    let c = constants();
    let e = env();
    let mut rt = BackgroundTasksRuntime::new();
    let loaded = background_tasks_settings(&mut rt, &e, &c);
    assert_eq!(loaded.usage_refresh_workers, 1);
    let applied = set_background_tasks_settings(&mut rt, patch(), &e, &c);
    assert_eq!(applied.settings.usage_refresh_workers, 1);
    assert_eq!(applied.settings.http_stream_worker_min, 1);
    assert_eq!(applied.settings.usage_poll_interval_secs, 30);
    assert_eq!(applied.settings.gateway_keepalive_interval_secs, 45);
}

#[test]
fn law_example_validated_patch_keeps_schedule_usable() {
    let c = constants();
    let e = env();
    let mut rt = BackgroundTasksRuntime::new();
    let p = patch();
    assert!(validate_background_tasks_settings_patch(&mut rt, &p, &e, &c).is_ok());
    let applied = set_background_tasks_settings(&mut rt, p, &e, &c);
    assert!(applied.settings.warmup_cron_enabled);
    assert!(!applied.settings.warmup_cron_expression.is_empty());
}

#[test]
fn law_example_summary_status_round_trip() {
    let headers = HttpHeaders { entries: vec![("cf-ray".to_string(), Some("r".to_string()))] };
    for status in [0u16, 200, 401, 429, 503, 65535] {
        let summary = summarize_warmup_error(status, Some("status=999".to_string()), &headers, "b");
        assert_eq!(extract_status_code_from_message(&summary), status as i64);
    }
}

#[test]
fn law_example_wildcard_is_glob() {
    assert!(wildcard_matches("*.example.com", "api.example.com"));
    assert!(!wildcard_matches("*.example.com", "example.com"));
    assert!(wildcard_matches("a*b*c", "aXXbYYc"));
    assert!(!wildcard_matches("a*b*c", "aXXbYY"));
    assert!(wildcard_matches("*", ""));
    assert!(wildcard_matches("**", "anything"));
}

fn env_after_writes(
    mut e: BackgroundTasksEnv,
    updates: &[EnvUpdate],
) -> BackgroundTasksEnv {
    for u in updates {
        let v = u.value.clone();
        match u.key {
            BackgroundTaskEnvKey::UsagePollingEnabled => e.usage_polling_enabled = v,
            BackgroundTaskEnvKey::DisablePolling => e.disable_polling = v,
            BackgroundTaskEnvKey::GatewayKeepaliveEnabled => e.gateway_keepalive_enabled = v,
            BackgroundTaskEnvKey::TokenRefreshPollingEnabled => e.token_refresh_polling_enabled = v,
            BackgroundTaskEnvKey::UsageRefreshWorkers => e.usage_refresh_workers = v,
            BackgroundTaskEnvKey::HttpWorkerFactor => e.http_worker_factor = v,
            BackgroundTaskEnvKey::HttpWorkerMin => e.http_worker_min = v,
            BackgroundTaskEnvKey::HttpStreamWorkerFactor => e.http_stream_worker_factor = v,
            BackgroundTaskEnvKey::HttpStreamWorkerMin => e.http_stream_worker_min = v,
            BackgroundTaskEnvKey::AutoWarmupAfterQuotaRefreshEnabled => e.auto_warmup_after_quota_refresh_enabled = v,
            BackgroundTaskEnvKey::WarmupCronEnabled => e.warmup_cron_enabled = v,
            BackgroundTaskEnvKey::WarmupCronExpression => e.warmup_cron_expression = v,
            BackgroundTaskEnvKey::UsagePollIntervalSecs | BackgroundTaskEnvKey::GatewayKeepaliveIntervalSecs | BackgroundTaskEnvKey::TokenRefreshPollIntervalSecs => {}
        }
    }
    e
}

#[test]
fn law_example_patch_writes_reload_to_patched() {
    let c = constants();
    let mut rt = BackgroundTasksRuntime::new();
    let applied = set_background_tasks_settings(&mut rt, patch(), &env(), &c);
    let reread_env = env_after_writes(env(), &applied.env_updates);
    let mut fresh = BackgroundTasksRuntime::new();
    let reread = background_tasks_settings(&mut fresh, &reread_env, &c);
    assert_eq!(reread.usage_polling_enabled, applied.settings.usage_polling_enabled);
    assert_eq!(reread.token_refresh_polling_enabled, applied.settings.token_refresh_polling_enabled);
    assert_eq!(reread.usage_refresh_workers, applied.settings.usage_refresh_workers);
    assert_eq!(reread.http_worker_factor, applied.settings.http_worker_factor);
    assert_eq!(reread.http_stream_worker_min, applied.settings.http_stream_worker_min);
    assert_eq!(
        reread.auto_warmup_after_quota_refresh_enabled,
        applied.settings.auto_warmup_after_quota_refresh_enabled
    );
    assert_eq!(reread.warmup_cron_enabled, applied.settings.warmup_cron_enabled);
    assert_eq!(reread.warmup_cron_expression, applied.settings.warmup_cron_expression);
}

#[test]
fn law_example_quoted_value_round_trip() {
    for value in ["a b", " spaced ", "has # hash", "x=y", "\"inner\"", ""] {
        let line = format!("KEY=\"{value}\"");
        assert_eq!(parse_dotenv_kv(&line), Some(("KEY".to_string(), value.to_string())));
        let single = format!("KEY='{value}'");
        assert_eq!(parse_dotenv_kv(&single), Some(("KEY".to_string(), value.to_string())));
    }
}

#[test]
fn law_example_star_rule_bypasses_everything() {
    assert!(proxy_bypass_matches_host("api.example.com", Some(443), "localhost, *"));
    assert!(proxy_bypass_matches_host("10.0.0.1", None, " \"*\" "));
}

#[test]
fn law_example_env_proxy_is_accepted() {
    let env = ProxyEnvironment {
        no_proxy: vec![None, None],
        proxies: vec![
            Some("ftp://bad:21".to_string()),
            None,
            Some("  ".to_string()),
            Some("'127.0.0.1:3128'".to_string()),
            None,
            Some("http://later:1".to_string()),
        ],
    };
    assert_eq!(proxy_url_from_env(&env), Some("http://127.0.0.1:3128".to_string()));
}

#[test]
fn law_example_unchanged_resets_give_no_reason() {
    let previous = UsageSnapshotRecord {
        account_id: "a".to_string(),
        window_minutes: Some(300),
        resets_at: Some(5_000),
        secondary_window_minutes: Some(10_080),
        secondary_resets_at: Some(90_000),
        captured_at: 4_000,
    };
    let current = UsageSnapshotRecord {
        account_id: "a".to_string(),
        window_minutes: Some(10_080),
        resets_at: Some(5_000),
        secondary_window_minutes: None,
        secondary_resets_at: Some(90_000),
        captured_at: 99_999,
    };
    assert_eq!(auto_warmup_reason_after_quota_refresh(Some(&previous), &current), None);
}

#[test]
fn law_example_reload_is_determined_by_env() {
    let c = constants();
    let mut e = env();
    e.warmup_cron_enabled = Some("yes".to_string());
    e.warmup_cron_expression = Some("0 0 6 * * *".to_string());
    let mut rt = BackgroundTasksRuntime::new();
    assert!(reload_background_tasks_runtime_from_env(&mut rt, &e, &c));
    let first = background_tasks_settings(&mut rt, &e, &c);
    assert!(!reload_background_tasks_runtime_from_env(&mut rt, &e, &c));
    let second = background_tasks_settings(&mut rt, &e, &c);
    assert_eq!(first.warmup_cron_expression, second.warmup_cron_expression);
    assert_eq!(first.usage_refresh_workers, second.usage_refresh_workers);
    assert_eq!(rt.warmup_cron_signal.version, 1);
}

#[test]
fn law_example_normalize_proxy_is_idempotent() {
    for raw in [" 127.0.0.1:7890 ", "SOCKS5H://proxy:1080", "https://p:8443"] {
        let once = normalize_proxy_candidate(raw).unwrap();
        assert_eq!(normalize_proxy_candidate(&once), Some(once.clone()));
    }
}

#[test]
fn law_example_bypass_list_is_union() {
    let target = "https://api.example.com/v1";
    for (a, b) in [("localhost", "*.example.com"), ("*.example.com", "foo"), ("foo", "bar")] {
        for sep in [";", ","] {
            let joined = format!("{a}{sep}{b}");
            assert_eq!(
                proxy_bypass_matches_target(target, &joined),
                proxy_bypass_matches_target(target, a) || proxy_bypass_matches_target(target, b)
            );
        }
    }
}

#[test]
fn law_example_blank_bypass_list_exempts_nothing() {
    assert!(!proxy_bypass_matches_host("localhost", None, " ;, ;\t"));
    assert!(!proxy_bypass_matches_target("not a url with host", "*"));
}
