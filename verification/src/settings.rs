//! Background-task settings: loading them from the environment, applying a
//! patch, validating the warmup schedule, and the change signal that wakes the
//! warmup scheduler.
//!
//! The process-wide state lives in [`BackgroundTasksRuntime`]; the caller keeps
//! one of them behind its lock. Reading the environment is the caller's part: it
//! hands over a [`BackgroundTasksEnv`] and writes back the [`EnvUpdate`]s that a
//! patch produces, in order.
use vstd::prelude::*;
use crate::num::{decimal, decimal_string, parse_unsigned};
use crate::text::{chars_of, lower, lower_vec, seq_equal, string_of, trim, trim_vec};

verus! {

/// The environment variables that the settings are written back to.
pub enum BackgroundTaskEnvKey {
    UsagePollingEnabled,
    DisablePolling,
    UsagePollIntervalSecs,
    GatewayKeepaliveEnabled,
    GatewayKeepaliveIntervalSecs,
    TokenRefreshPollingEnabled,
    TokenRefreshPollIntervalSecs,
    UsageRefreshWorkers,
    HttpWorkerFactor,
    HttpWorkerMin,
    HttpStreamWorkerFactor,
    HttpStreamWorkerMin,
    AutoWarmupAfterQuotaRefreshEnabled,
    WarmupCronEnabled,
    WarmupCronExpression,
}

/// One write to the environment: set `key` to `value`, or remove it when `value` is `None`.
pub struct EnvUpdate {
    pub key: BackgroundTaskEnvKey,
    pub value: Option<String>,
}

pub open spec fn env_update_view(u: EnvUpdate) -> (BackgroundTaskEnvKey, Option<Seq<char>>) {
    (
        u.key,
        match u.value {
            Some(v) => Some(v@),
            None => None,
        },
    )
}

pub open spec fn env_updates_view(v: Seq<EnvUpdate>) -> Seq<(BackgroundTaskEnvKey, Option<Seq<char>>)> {
    v.map_values(|u: EnvUpdate| env_update_view(u))
}

/// Defaults and lower bounds that the service defines for the settings.
pub struct BackgroundTasksConstants {
    pub min_usage_poll_interval_secs: u64,
    pub min_gateway_keepalive_interval_secs: u64,
    pub min_token_refresh_poll_interval_secs: u64,
    pub default_usage_refresh_workers: usize,
    pub default_http_worker_factor: usize,
    pub default_http_worker_min: usize,
    pub default_http_stream_worker_factor: usize,
    pub default_http_stream_worker_min: usize,
    pub restart_required_keys: Vec<String>,
}

/// The environment as read for a reload. The interval values are already
/// resolved by [`parse_interval_secs`] (default and lower bound applied).
pub struct BackgroundTasksEnv {
    pub disable_polling: Option<String>,
    pub usage_polling_enabled: Option<String>,
    pub usage_poll_interval_secs: u64,
    pub gateway_keepalive_enabled: Option<String>,
    pub gateway_keepalive_interval_secs: u64,
    pub token_refresh_polling_enabled: Option<String>,
    pub token_refresh_poll_interval_secs: u64,
    pub usage_refresh_workers: Option<String>,
    pub http_worker_factor: Option<String>,
    pub http_worker_min: Option<String>,
    pub http_stream_worker_factor: Option<String>,
    pub http_stream_worker_min: Option<String>,
    pub auto_warmup_after_quota_refresh_enabled: Option<String>,
    pub warmup_cron_enabled: Option<String>,
    pub warmup_cron_expression: Option<String>,
}

/// A string cell that starts out unset and reads as empty until it is set.
pub struct StringSlot {
    pub value: Option<String>,
}

pub open spec fn slot_text(slot: StringSlot) -> Seq<char> {
    match slot.value {
        Some(v) => v@,
        None => Seq::empty(),
    }
}

/// The version counter that tells the warmup scheduler its schedule changed.
pub struct CronSignal {
    pub version: u64,
}

/// The live values of the background-task settings.
pub struct BackgroundTasksRuntime {
    pub loaded: bool,
    pub usage_polling_enabled: bool,
    pub usage_poll_interval_secs: u64,
    pub gateway_keepalive_enabled: bool,
    pub gateway_keepalive_interval_secs: u64,
    pub token_refresh_polling_enabled: bool,
    pub token_refresh_poll_interval_secs: u64,
    pub usage_refresh_workers: usize,
    pub http_worker_factor: usize,
    pub http_worker_min: usize,
    pub http_stream_worker_factor: usize,
    pub http_stream_worker_min: usize,
    pub auto_warmup_after_quota_refresh_enabled: bool,
    pub warmup_cron_enabled: bool,
    pub warmup_cron_expression: StringSlot,
    pub warmup_cron_signal: CronSignal,
}

/// A snapshot of the settings, as reported to clients.
pub struct BackgroundTasksSettings {
    pub usage_polling_enabled: bool,
    pub usage_poll_interval_secs: u64,
    pub gateway_keepalive_enabled: bool,
    pub gateway_keepalive_interval_secs: u64,
    pub token_refresh_polling_enabled: bool,
    pub token_refresh_poll_interval_secs: u64,
    pub usage_refresh_workers: usize,
    pub http_worker_factor: usize,
    pub http_worker_min: usize,
    pub http_stream_worker_factor: usize,
    pub http_stream_worker_min: usize,
    pub auto_warmup_after_quota_refresh_enabled: bool,
    pub warmup_cron_enabled: bool,
    pub warmup_cron_expression: String,
    pub requires_restart_keys: Vec<String>,
}

/// A partial update of the settings; `None` leaves a setting as it is.
pub struct BackgroundTasksSettingsPatch {
    pub usage_polling_enabled: Option<bool>,
    pub usage_poll_interval_secs: Option<u64>,
    pub gateway_keepalive_enabled: Option<bool>,
    pub gateway_keepalive_interval_secs: Option<u64>,
    pub token_refresh_polling_enabled: Option<bool>,
    pub token_refresh_poll_interval_secs: Option<u64>,
    pub usage_refresh_workers: Option<usize>,
    pub http_worker_factor: Option<usize>,
    pub http_worker_min: Option<usize>,
    pub http_stream_worker_factor: Option<usize>,
    pub http_stream_worker_min: Option<usize>,
    pub auto_warmup_after_quota_refresh_enabled: Option<bool>,
    pub warmup_cron_enabled: Option<bool>,
    pub warmup_cron_expression: Option<String>,
}

/// What a patch did: the settings afterwards, the environment writes to make,
/// and whether the warmup scheduler must be woken.
pub struct SettingsApplied {
    pub settings: BackgroundTasksSettings,
    pub env_updates: Vec<EnvUpdate>,
    pub warmup_cron_changed: bool,
}

// ---------------------------------------------------------------------------
// Parsing environment values.

pub open spec fn opt_view(o: Option<String>) -> Option<Seq<char>> {
    match o {
        Some(s) => Some(s@),
        None => None,
    }
}

/// A boolean setting: `1/true/yes/on` or `0/false/no/off`, in any ASCII case and
/// surrounded by white space; anything else, or no value, gives `default`.
pub open spec fn spec_env_bool_or(raw: Option<Seq<char>>, default: bool) -> bool {
    match raw {
        None => default,
        Some(r) => {
            let v = lower(trim(r));
            if v == "1"@ || v == "true"@ || v == "yes"@ || v == "on"@ {
                true
            } else if v == "0"@ || v == "false"@ || v == "no"@ || v == "off"@ {
                false
            } else {
                default
            }
        },
    }
}

/// A count setting: the trimmed value parsed as `usize`, else `default`.
pub open spec fn spec_env_usize_or(raw: Option<Seq<char>>, default: nat) -> nat {
    match raw {
        None => default,
        Some(r) => match parse_unsigned(trim(r), 10, usize::MAX as nat) {
            Some(v) => v,
            None => default,
        },
    }
}

pub open spec fn at_least_one(n: nat) -> nat {
    if n < 1 {
        1
    } else {
        n
    }
}

pub open spec fn max_u64(a: u64, b: u64) -> u64 {
    if a < b {
        b
    } else {
        a
    }
}

pub fn env_bool_or(raw: Option<&str>, default: bool) -> (r: bool)
    ensures
        r == spec_env_bool_or(
            match raw {
                Some(s) => Some(s@),
                None => None,
            },
            default,
        ),
{
    let text = match raw {
        Some(t) => t,
        None => return default,
    };
    let s = chars_of(text);
    let t = trim_vec(&s);
    let v = lower_vec(&t);
    proof {
        reveal_strlit("1");
        reveal_strlit("true");
        reveal_strlit("yes");
        reveal_strlit("on");
        reveal_strlit("0");
        reveal_strlit("false");
        reveal_strlit("no");
        reveal_strlit("off");
    }
    if crate::text::eq_str(&v, "1") || crate::text::eq_str(&v, "true") || crate::text::eq_str(
        &v,
        "yes",
    ) || crate::text::eq_str(&v, "on") {
        true
    } else if crate::text::eq_str(&v, "0") || crate::text::eq_str(&v, "false")
        || crate::text::eq_str(&v, "no") || crate::text::eq_str(&v, "off") {
        false
    } else {
        default
    }
}

pub fn env_usize_or(raw: Option<&str>, default: usize) -> (r: usize)
    ensures
        r == spec_env_usize_or(
            match raw {
                Some(s) => Some(s@),
                None => None,
            },
            default as nat,
        ),
{
    let text = match raw {
        Some(t) => t,
        None => return default,
    };
    let s = chars_of(text);
    let t = trim_vec(&s);
    match crate::num::parse_unsigned_vec(&t, 10, usize::MAX as u64) {
        Some(v) => v as usize,
        None => default,
    }
}

/// An interval setting in seconds: the trimmed value parsed as `u64`, else
/// `default`, and never below `min`.
pub open spec fn spec_interval_secs(raw: Option<Seq<char>>, default: u64, min: u64) -> u64 {
    let v = match raw {
        None => default,
        Some(r) => match parse_unsigned(trim(r), 10, u64::MAX as nat) {
            Some(v) => v as u64,
            None => default,
        },
    };
    max_u64(v, min)
}

/// Reads an interval setting (what the reload is handed for each interval).
pub fn parse_interval_secs(raw: Option<&str>, default: u64, min: u64) -> (r: u64)
    ensures
        r == spec_interval_secs(
            match raw {
                Some(s) => Some(s@),
                None => None,
            },
            default,
            min,
        ),
{
    let v = match raw {
        None => default,
        Some(text) => {
            let t = trim_vec(&chars_of(text));
            match crate::num::parse_unsigned_vec(&t, 10, u64::MAX) {
                Some(v) => v,
                None => default,
            }
        },
    };
    if v < min {
        min
    } else {
        v
    }
}

fn opt_str(o: &Option<String>) -> (r: Option<&str>)
    ensures
        match r {
            Some(s) => *o matches Some(t) && s@ == t@,
            None => *o is None,
        },
{
    match o {
        Some(s) => Some(s.as_str()),
        None => None,
    }
}

fn at_least_one_exec(n: usize) -> (r: usize)
    ensures
        r == at_least_one(n as nat),
{
    if n < 1 {
        1
    } else {
        n
    }
}

/// `str::trim` into a new `String`: how text settings are stored.
pub fn normalize_text_setting(value: &str) -> (r: String)
    ensures
        r@ == trim(value@),
{
    let s = chars_of(value);
    let t = trim_vec(&s);
    string_of(t.as_slice())
}

// ---------------------------------------------------------------------------
// The string slot and the change signal.

/// Reads the slot, setting it to empty first when it was never set.
pub fn current_mutex_string(slot: &mut StringSlot) -> (r: String)
    ensures
        r@ == slot_text(*old(slot)),
        slot_text(*final(slot)) == slot_text(*old(slot)),
        final(slot).value is Some,
{
    match &slot.value {
        Some(v) => v.clone(),
        None => {
            slot.value = Some(String::new());
            String::new()
        },
    }
}

/// The slot's text, leaving the slot as it is.
fn slot_string(slot: &StringSlot) -> (r: String)
    ensures
        r@ == slot_text(*slot),
{
    match &slot.value {
        Some(v) => v.clone(),
        None => String::new(),
    }
}

/// Sets the slot to `value`.
pub fn set_mutex_string(slot: &mut StringSlot, value: &str)
    ensures
        slot_text(*final(slot)) == value@,
        final(slot).value is Some,
{
    slot.value = Some(crate::text::str_to_string(value));
}

pub fn warmup_cron_signal_version(signal: &CronSignal) -> (r: u64)
    ensures
        r == signal.version,
{
    signal.version
}

/// Advances the version (wrapping at the top); the caller then wakes the waiters.
pub fn notify_warmup_cron_changed(signal: &mut CronSignal)
    ensures
        final(signal).version == (if old(signal).version == u64::MAX {
            0
        } else {
            old(signal).version + 1
        }),
{
    signal.version = signal.version.wrapping_add(1);
}

// ---------------------------------------------------------------------------
// Loading.

/// The runtime values right after a reload from `env`.
pub open spec fn spec_reloaded(
    rt: BackgroundTasksRuntime,
    env: BackgroundTasksEnv,
    c: BackgroundTasksConstants,
) -> bool {
    &&& rt.usage_polling_enabled == spec_env_bool_or(
        opt_view(env.usage_polling_enabled),
        env.disable_polling is None,
    )
    &&& rt.usage_poll_interval_secs == env.usage_poll_interval_secs
    &&& rt.gateway_keepalive_enabled == spec_env_bool_or(opt_view(env.gateway_keepalive_enabled), true)
    &&& rt.gateway_keepalive_interval_secs == env.gateway_keepalive_interval_secs
    &&& rt.token_refresh_polling_enabled == spec_env_bool_or(
        opt_view(env.token_refresh_polling_enabled),
        true,
    )
    &&& rt.token_refresh_poll_interval_secs == env.token_refresh_poll_interval_secs
    &&& rt.usage_refresh_workers == at_least_one(
        spec_env_usize_or(opt_view(env.usage_refresh_workers), c.default_usage_refresh_workers as nat),
    )
    &&& rt.http_worker_factor == at_least_one(
        spec_env_usize_or(opt_view(env.http_worker_factor), c.default_http_worker_factor as nat),
    )
    &&& rt.http_worker_min == at_least_one(
        spec_env_usize_or(opt_view(env.http_worker_min), c.default_http_worker_min as nat),
    )
    &&& rt.http_stream_worker_factor == at_least_one(
        spec_env_usize_or(
            opt_view(env.http_stream_worker_factor),
            c.default_http_stream_worker_factor as nat,
        ),
    )
    &&& rt.http_stream_worker_min == at_least_one(
        spec_env_usize_or(
            opt_view(env.http_stream_worker_min),
            c.default_http_stream_worker_min as nat,
        ),
    )
    &&& rt.auto_warmup_after_quota_refresh_enabled == spec_env_bool_or(
        opt_view(env.auto_warmup_after_quota_refresh_enabled),
        false,
    )
    &&& rt.warmup_cron_enabled == spec_env_bool_or(opt_view(env.warmup_cron_enabled), false)
    &&& slot_text(rt.warmup_cron_expression) == match env.warmup_cron_expression {
        Some(e) => trim(e@),
        None => Seq::empty(),
    }
    &&& rt.warmup_cron_expression.value is Some
}

impl BackgroundTasksRuntime {
    /// The state before anything was loaded: switches off, counts zero, no expression.
    pub fn new() -> (r: Self)
        ensures
            !r.loaded,
            !r.warmup_cron_enabled,
            r.warmup_cron_expression.value is None,
            r.warmup_cron_signal.version == 0,
    {
        BackgroundTasksRuntime {
            loaded: false,
            usage_polling_enabled: false,
            usage_poll_interval_secs: 0,
            gateway_keepalive_enabled: false,
            gateway_keepalive_interval_secs: 0,
            token_refresh_polling_enabled: false,
            token_refresh_poll_interval_secs: 0,
            usage_refresh_workers: 0,
            http_worker_factor: 0,
            http_worker_min: 0,
            http_stream_worker_factor: 0,
            http_stream_worker_min: 0,
            auto_warmup_after_quota_refresh_enabled: false,
            warmup_cron_enabled: false,
            warmup_cron_expression: StringSlot { value: None },
            warmup_cron_signal: CronSignal { version: 0 },
        }
    }
}

/// Sets every setting from the environment (without marking the runtime loaded).
pub fn reload_background_tasks_from_env(
    rt: &mut BackgroundTasksRuntime,
    env: &BackgroundTasksEnv,
    c: &BackgroundTasksConstants,
)
    ensures
        spec_reloaded(*final(rt), *env, *c),
        final(rt).loaded == old(rt).loaded,
        final(rt).warmup_cron_signal == old(rt).warmup_cron_signal,
{
    let usage_polling_default_enabled = env.disable_polling.is_none();
    rt.usage_polling_enabled = env_bool_or(
        opt_str(&env.usage_polling_enabled),
        usage_polling_default_enabled,
    );
    rt.usage_poll_interval_secs = env.usage_poll_interval_secs;
    rt.gateway_keepalive_enabled = env_bool_or(opt_str(&env.gateway_keepalive_enabled), true);
    rt.gateway_keepalive_interval_secs = env.gateway_keepalive_interval_secs;
    rt.token_refresh_polling_enabled = env_bool_or(
        opt_str(&env.token_refresh_polling_enabled),
        true,
    );
    rt.token_refresh_poll_interval_secs = env.token_refresh_poll_interval_secs;
    rt.usage_refresh_workers = at_least_one_exec(
        env_usize_or(opt_str(&env.usage_refresh_workers), c.default_usage_refresh_workers),
    );
    rt.http_worker_factor = at_least_one_exec(
        env_usize_or(opt_str(&env.http_worker_factor), c.default_http_worker_factor),
    );
    rt.http_worker_min = at_least_one_exec(
        env_usize_or(opt_str(&env.http_worker_min), c.default_http_worker_min),
    );
    rt.http_stream_worker_factor = at_least_one_exec(
        env_usize_or(opt_str(&env.http_stream_worker_factor), c.default_http_stream_worker_factor),
    );
    rt.http_stream_worker_min = at_least_one_exec(
        env_usize_or(opt_str(&env.http_stream_worker_min), c.default_http_stream_worker_min),
    );
    rt.auto_warmup_after_quota_refresh_enabled = env_bool_or(
        opt_str(&env.auto_warmup_after_quota_refresh_enabled),
        false,
    );
    rt.warmup_cron_enabled = env_bool_or(opt_str(&env.warmup_cron_enabled), false);
    let expression = match &env.warmup_cron_expression {
        Some(value) => normalize_text_setting(value.as_str()),
        None => String::new(),
    };
    set_mutex_string(&mut rt.warmup_cron_expression, expression.as_str());
}

/// Loads the settings from the environment the first time; later calls change nothing.
pub fn ensure_background_tasks_config_loaded(
    rt: &mut BackgroundTasksRuntime,
    env: &BackgroundTasksEnv,
    c: &BackgroundTasksConstants,
)
    ensures
        final(rt).loaded,
        old(rt).loaded ==> *final(rt) == *old(rt),
        !old(rt).loaded ==> spec_reloaded(*final(rt), *env, *c) && final(rt).warmup_cron_signal
            == old(rt).warmup_cron_signal,
{
    if !rt.loaded {
        reload_background_tasks_from_env(rt, env, c);
        rt.loaded = true;
    }
}

/// Reloads from the environment and, when the warmup switch or expression
/// changed, advances the change signal. Returns whether it did.
pub fn reload_background_tasks_runtime_from_env(
    rt: &mut BackgroundTasksRuntime,
    env: &BackgroundTasksEnv,
    c: &BackgroundTasksConstants,
) -> (notified: bool)
    ensures
        spec_reloaded(*final(rt), *env, *c),
        final(rt).loaded == old(rt).loaded,
        notified == (final(rt).warmup_cron_enabled != old(rt).warmup_cron_enabled || slot_text(
            final(rt).warmup_cron_expression,
        ) != slot_text(old(rt).warmup_cron_expression)),
        notified ==> final(rt).warmup_cron_signal.version == (if old(
            rt,
        ).warmup_cron_signal.version == u64::MAX {
            0
        } else {
            old(rt).warmup_cron_signal.version + 1
        }),
        !notified ==> final(rt).warmup_cron_signal == old(rt).warmup_cron_signal,
{
    let previous_enabled = rt.warmup_cron_enabled;
    let previous_expression = current_mutex_string(&mut rt.warmup_cron_expression);
    reload_background_tasks_from_env(rt, env, c);
    let now_expression = current_mutex_string(&mut rt.warmup_cron_expression);
    let pv = chars_of(previous_expression.as_str());
    let nv = chars_of(now_expression.as_str());
    if rt.warmup_cron_enabled != previous_enabled || !seq_equal(&pv, &nv) {
        notify_warmup_cron_changed(&mut rt.warmup_cron_signal);
        true
    } else {
        false
    }
}

// ---------------------------------------------------------------------------
// Snapshots and patches.

pub open spec fn spec_settings_of(
    s: BackgroundTasksSettings,
    rt: BackgroundTasksRuntime,
    c: BackgroundTasksConstants,
) -> bool {
    &&& s.usage_polling_enabled == rt.usage_polling_enabled
    &&& s.usage_poll_interval_secs == rt.usage_poll_interval_secs
    &&& s.gateway_keepalive_enabled == rt.gateway_keepalive_enabled
    &&& s.gateway_keepalive_interval_secs == rt.gateway_keepalive_interval_secs
    &&& s.token_refresh_polling_enabled == rt.token_refresh_polling_enabled
    &&& s.token_refresh_poll_interval_secs == rt.token_refresh_poll_interval_secs
    &&& s.usage_refresh_workers == rt.usage_refresh_workers
    &&& s.http_worker_factor == rt.http_worker_factor
    &&& s.http_worker_min == rt.http_worker_min
    &&& s.http_stream_worker_factor == rt.http_stream_worker_factor
    &&& s.http_stream_worker_min == rt.http_stream_worker_min
    &&& s.auto_warmup_after_quota_refresh_enabled == rt.auto_warmup_after_quota_refresh_enabled
    &&& s.warmup_cron_enabled == rt.warmup_cron_enabled
    &&& s.warmup_cron_expression@ == slot_text(rt.warmup_cron_expression)
    &&& s.requires_restart_keys@.map_values(|k: String| k@) == c.restart_required_keys@.map_values(
        |k: String| k@,
    )
}

fn copy_strings(v: &Vec<String>) -> (r: Vec<String>)
    ensures
        r@.map_values(|k: String| k@) == v@.map_values(|k: String| k@),
{
    let mut r: Vec<String> = Vec::new();
    let mut i: usize = 0;
    while i < v.len()
        invariant
            i <= v.len(),
            r@.len() == i,
            forall|k: int| 0 <= k < i ==> (#[trigger] r@[k])@ == v@[k]@,
        decreases v.len() - i,
    {
        let s = crate::text::str_to_string(v[i].as_str());
        r.push(s);
        i += 1;
    }
    assert(r@.map_values(|k: String| k@) =~= v@.map_values(|k: String| k@));
    r
}

fn snapshot(rt: &mut BackgroundTasksRuntime, c: &BackgroundTasksConstants) -> (s:
    BackgroundTasksSettings)
    ensures
        spec_settings_of(s, *final(rt), *c),
        slot_text(final(rt).warmup_cron_expression) == slot_text(old(rt).warmup_cron_expression),
        final(rt).warmup_cron_expression.value is Some,
        final(rt).loaded == old(rt).loaded,
        final(rt).usage_polling_enabled == old(rt).usage_polling_enabled,
        final(rt).usage_poll_interval_secs == old(rt).usage_poll_interval_secs,
        final(rt).gateway_keepalive_enabled == old(rt).gateway_keepalive_enabled,
        final(rt).gateway_keepalive_interval_secs == old(rt).gateway_keepalive_interval_secs,
        final(rt).token_refresh_polling_enabled == old(rt).token_refresh_polling_enabled,
        final(rt).token_refresh_poll_interval_secs == old(rt).token_refresh_poll_interval_secs,
        final(rt).usage_refresh_workers == old(rt).usage_refresh_workers,
        final(rt).http_worker_factor == old(rt).http_worker_factor,
        final(rt).http_worker_min == old(rt).http_worker_min,
        final(rt).http_stream_worker_factor == old(rt).http_stream_worker_factor,
        final(rt).http_stream_worker_min == old(rt).http_stream_worker_min,
        final(rt).auto_warmup_after_quota_refresh_enabled == old(
            rt,
        ).auto_warmup_after_quota_refresh_enabled,
        final(rt).warmup_cron_enabled == old(rt).warmup_cron_enabled,
        final(rt).warmup_cron_signal == old(rt).warmup_cron_signal,
{
    let warmup_cron_expression = current_mutex_string(&mut rt.warmup_cron_expression);
    BackgroundTasksSettings {
        usage_polling_enabled: rt.usage_polling_enabled,
        usage_poll_interval_secs: rt.usage_poll_interval_secs,
        gateway_keepalive_enabled: rt.gateway_keepalive_enabled,
        gateway_keepalive_interval_secs: rt.gateway_keepalive_interval_secs,
        token_refresh_polling_enabled: rt.token_refresh_polling_enabled,
        token_refresh_poll_interval_secs: rt.token_refresh_poll_interval_secs,
        usage_refresh_workers: rt.usage_refresh_workers,
        http_worker_factor: rt.http_worker_factor,
        http_worker_min: rt.http_worker_min,
        http_stream_worker_factor: rt.http_stream_worker_factor,
        http_stream_worker_min: rt.http_stream_worker_min,
        auto_warmup_after_quota_refresh_enabled: rt.auto_warmup_after_quota_refresh_enabled,
        warmup_cron_enabled: rt.warmup_cron_enabled,
        warmup_cron_expression,
        requires_restart_keys: copy_strings(&c.restart_required_keys),
    }
}

/// The current settings (loading them first if needed).
pub fn background_tasks_settings(
    rt: &mut BackgroundTasksRuntime,
    env: &BackgroundTasksEnv,
    c: &BackgroundTasksConstants,
) -> (s: BackgroundTasksSettings)
    ensures
        final(rt).loaded,
        old(rt).loaded ==> spec_settings_of(s, *old(rt), *c),
        !old(rt).loaded ==> spec_reloaded(*final(rt), *env, *c),
        spec_settings_of(s, *final(rt), *c),
        old(rt).loaded ==> slot_text(final(rt).warmup_cron_expression) == slot_text(
            old(rt).warmup_cron_expression,
        ),
{
    ensure_background_tasks_config_loaded(rt, env, c);
    snapshot(rt, c)
}

/// Whether a quota-window reset queues an automatic warmup.
pub fn auto_warmup_after_quota_refresh_enabled(
    rt: &mut BackgroundTasksRuntime,
    env: &BackgroundTasksEnv,
    c: &BackgroundTasksConstants,
) -> (r: bool)
    ensures
        final(rt).loaded,
        r == final(rt).auto_warmup_after_quota_refresh_enabled,
        old(rt).loaded ==> r == old(rt).auto_warmup_after_quota_refresh_enabled,
        !old(rt).loaded ==> r == spec_env_bool_or(
            opt_view(env.auto_warmup_after_quota_refresh_enabled),
            false,
        ),
{
    ensure_background_tasks_config_loaded(rt, env, c);
    rt.auto_warmup_after_quota_refresh_enabled
}

pub open spec fn bool_text(b: bool) -> Seq<char> {
    if b {
        "1"@
    } else {
        "0"@
    }
}

pub open spec fn seg_bool(key: BackgroundTaskEnvKey, v: Option<bool>) -> Seq<
    (BackgroundTaskEnvKey, Option<Seq<char>>),
> {
    match v {
        Some(e) => seq![(key, Some(bool_text(e)))],
        None => Seq::empty(),
    }
}

pub open spec fn seg_interval(key: BackgroundTaskEnvKey, v: Option<u64>, min: u64) -> Seq<
    (BackgroundTaskEnvKey, Option<Seq<char>>),
> {
    match v {
        Some(s) => seq![(key, Some(decimal(max_u64(s, min) as nat)))],
        None => Seq::empty(),
    }
}

pub open spec fn seg_count(key: BackgroundTaskEnvKey, v: Option<usize>) -> Seq<
    (BackgroundTaskEnvKey, Option<Seq<char>>),
> {
    match v {
        Some(n) => seq![(key, Some(decimal(at_least_one(n as nat))))],
        None => Seq::empty(),
    }
}

/// Switching usage polling also sets or clears the variable that disables polling.
pub open spec fn seg_usage_polling(v: Option<bool>) -> Seq<(BackgroundTaskEnvKey, Option<Seq<char>>)> {
    match v {
        Some(e) => seq![
            (BackgroundTaskEnvKey::UsagePollingEnabled, Some(bool_text(e))),
            (BackgroundTaskEnvKey::DisablePolling, if e { None } else { Some("1"@) }),
        ],
        None => Seq::empty(),
    }
}

pub open spec fn seg_expression(v: Option<String>) -> Seq<(BackgroundTaskEnvKey, Option<Seq<char>>)> {
    match v {
        Some(x) => seq![(BackgroundTaskEnvKey::WarmupCronExpression, Some(trim(x@)))],
        None => Seq::empty(),
    }
}

/// The environment writes that a patch makes, in order.
pub open spec fn spec_patch_env_updates(
    p: BackgroundTasksSettingsPatch,
    c: BackgroundTasksConstants,
) -> Seq<(BackgroundTaskEnvKey, Option<Seq<char>>)> {
    seg_usage_polling(p.usage_polling_enabled) + seg_interval(
        BackgroundTaskEnvKey::UsagePollIntervalSecs,
        p.usage_poll_interval_secs,
        c.min_usage_poll_interval_secs,
    ) + seg_bool(BackgroundTaskEnvKey::GatewayKeepaliveEnabled, p.gateway_keepalive_enabled)
        + seg_interval(
        BackgroundTaskEnvKey::GatewayKeepaliveIntervalSecs,
        p.gateway_keepalive_interval_secs,
        c.min_gateway_keepalive_interval_secs,
    ) + seg_bool(BackgroundTaskEnvKey::TokenRefreshPollingEnabled, p.token_refresh_polling_enabled)
        + seg_interval(
        BackgroundTaskEnvKey::TokenRefreshPollIntervalSecs,
        p.token_refresh_poll_interval_secs,
        c.min_token_refresh_poll_interval_secs,
    ) + seg_count(BackgroundTaskEnvKey::UsageRefreshWorkers, p.usage_refresh_workers) + seg_count(
        BackgroundTaskEnvKey::HttpWorkerFactor,
        p.http_worker_factor,
    ) + seg_count(BackgroundTaskEnvKey::HttpWorkerMin, p.http_worker_min) + seg_count(
        BackgroundTaskEnvKey::HttpStreamWorkerFactor,
        p.http_stream_worker_factor,
    ) + seg_count(BackgroundTaskEnvKey::HttpStreamWorkerMin, p.http_stream_worker_min) + seg_bool(
        BackgroundTaskEnvKey::AutoWarmupAfterQuotaRefreshEnabled,
        p.auto_warmup_after_quota_refresh_enabled,
    ) + seg_bool(BackgroundTaskEnvKey::WarmupCronEnabled, p.warmup_cron_enabled) + seg_expression(
        p.warmup_cron_expression,
    )
}

/// The runtime after a patch: each given value stored (intervals raised to their
/// lower bound, counts to at least one, the expression trimmed), the rest kept.
pub open spec fn spec_patched(
    new: BackgroundTasksRuntime,
    old: BackgroundTasksRuntime,
    p: BackgroundTasksSettingsPatch,
    c: BackgroundTasksConstants,
) -> bool {
    &&& new.loaded == old.loaded
    &&& new.usage_polling_enabled == match p.usage_polling_enabled {
        Some(e) => e,
        None => old.usage_polling_enabled,
    }
    &&& new.usage_poll_interval_secs == match p.usage_poll_interval_secs {
        Some(s) => max_u64(s, c.min_usage_poll_interval_secs),
        None => old.usage_poll_interval_secs,
    }
    &&& new.gateway_keepalive_enabled == match p.gateway_keepalive_enabled {
        Some(e) => e,
        None => old.gateway_keepalive_enabled,
    }
    &&& new.gateway_keepalive_interval_secs == match p.gateway_keepalive_interval_secs {
        Some(s) => max_u64(s, c.min_gateway_keepalive_interval_secs),
        None => old.gateway_keepalive_interval_secs,
    }
    &&& new.token_refresh_polling_enabled == match p.token_refresh_polling_enabled {
        Some(e) => e,
        None => old.token_refresh_polling_enabled,
    }
    &&& new.token_refresh_poll_interval_secs == match p.token_refresh_poll_interval_secs {
        Some(s) => max_u64(s, c.min_token_refresh_poll_interval_secs),
        None => old.token_refresh_poll_interval_secs,
    }
    &&& new.usage_refresh_workers == match p.usage_refresh_workers {
        Some(n) => at_least_one(n as nat),
        None => old.usage_refresh_workers as nat,
    }
    &&& new.http_worker_factor == match p.http_worker_factor {
        Some(n) => at_least_one(n as nat),
        None => old.http_worker_factor as nat,
    }
    &&& new.http_worker_min == match p.http_worker_min {
        Some(n) => at_least_one(n as nat),
        None => old.http_worker_min as nat,
    }
    &&& new.http_stream_worker_factor == match p.http_stream_worker_factor {
        Some(n) => at_least_one(n as nat),
        None => old.http_stream_worker_factor as nat,
    }
    &&& new.http_stream_worker_min == match p.http_stream_worker_min {
        Some(n) => at_least_one(n as nat),
        None => old.http_stream_worker_min as nat,
    }
    &&& new.auto_warmup_after_quota_refresh_enabled == match p.auto_warmup_after_quota_refresh_enabled {
        Some(e) => e,
        None => old.auto_warmup_after_quota_refresh_enabled,
    }
    &&& new.warmup_cron_enabled == match p.warmup_cron_enabled {
        Some(e) => e,
        None => old.warmup_cron_enabled,
    }
    &&& slot_text(new.warmup_cron_expression) == match p.warmup_cron_expression {
        Some(x) => trim(x@),
        None => slot_text(old.warmup_cron_expression),
    }
    &&& new.warmup_cron_signal.version == if p.warmup_cron_enabled is Some
        || p.warmup_cron_expression is Some {
        if old.warmup_cron_signal.version == u64::MAX {
            0
        } else {
            old.warmup_cron_signal.version + 1
        }
    } else {
        old.warmup_cron_signal.version as int
    }
}

fn bool_text_string(b: bool) -> (r: String)
    ensures
        r@ == bool_text(b),
{
    proof {
        reveal_strlit("1");
        reveal_strlit("0");
    }
    if b {
        crate::text::str_to_string("1")
    } else {
        crate::text::str_to_string("0")
    }
}

fn max_u64_exec(a: u64, b: u64) -> (r: u64)
    ensures
        r == max_u64(a, b),
{
    if a < b {
        b
    } else {
        a
    }
}

fn push_update(updates: &mut Vec<EnvUpdate>, key: BackgroundTaskEnvKey, value: Option<String>)
    ensures
        env_updates_view(final(updates)@) == env_updates_view(old(updates)@).push(
            env_update_view(EnvUpdate { key, value }),
        ),
{
    let ghost before = updates@;
    updates.push(EnvUpdate { key, value });
    assert(env_updates_view(updates@) =~= env_updates_view(before).push(
        env_update_view(EnvUpdate { key, value }),
    ));
}

fn patch_bool(
    field: &mut bool,
    v: Option<bool>,
    key: BackgroundTaskEnvKey,
    updates: &mut Vec<EnvUpdate>,
)
    ensures
        *final(field) == match v {
            Some(e) => e,
            None => *old(field),
        },
        env_updates_view(final(updates)@) == env_updates_view(old(updates)@) + seg_bool(key, v),
{
    if let Some(enabled) = v {
        *field = enabled;
        push_update(updates, key, Some(bool_text_string(enabled)));
    }
    assert(env_updates_view(updates@) =~= env_updates_view(old(updates)@) + seg_bool(key, v));
}

fn patch_interval(
    field: &mut u64,
    v: Option<u64>,
    min: u64,
    key: BackgroundTaskEnvKey,
    updates: &mut Vec<EnvUpdate>,
)
    ensures
        *final(field) == match v {
            Some(s) => max_u64(s, min),
            None => *old(field),
        },
        env_updates_view(final(updates)@) == env_updates_view(old(updates)@) + seg_interval(
            key,
            v,
            min,
        ),
{
    if let Some(secs) = v {
        let normalized = max_u64_exec(secs, min);
        *field = normalized;
        push_update(updates, key, Some(decimal_string(normalized)));
    }
    assert(env_updates_view(updates@) =~= env_updates_view(old(updates)@) + seg_interval(
        key,
        v,
        min,
    ));
}

fn patch_count(
    field: &mut usize,
    v: Option<usize>,
    key: BackgroundTaskEnvKey,
    updates: &mut Vec<EnvUpdate>,
)
    ensures
        *final(field) == match v {
            Some(n) => at_least_one(n as nat),
            None => *old(field) as nat,
        },
        env_updates_view(final(updates)@) == env_updates_view(old(updates)@) + seg_count(key, v),
{
    if let Some(n) = v {
        let normalized = at_least_one_exec(n);
        *field = normalized;
        push_update(updates, key, Some(decimal_string(normalized as u64)));
    }
    assert(env_updates_view(updates@) =~= env_updates_view(old(updates)@) + seg_count(key, v));
}

fn patch_usage_polling(field: &mut bool, v: Option<bool>, updates: &mut Vec<EnvUpdate>)
    ensures
        *final(field) == match v {
            Some(e) => e,
            None => *old(field),
        },
        env_updates_view(final(updates)@) == env_updates_view(old(updates)@) + seg_usage_polling(v),
{
    proof {
        reveal_strlit("1");
    }
    if let Some(enabled) = v {
        *field = enabled;
        push_update(
            updates,
            BackgroundTaskEnvKey::UsagePollingEnabled,
            Some(bool_text_string(enabled)),
        );
        if enabled {
            push_update(updates, BackgroundTaskEnvKey::DisablePolling, None);
        } else {
            push_update(
                updates,
                BackgroundTaskEnvKey::DisablePolling,
                Some(crate::text::str_to_string("1")),
            );
        }
    }
    assert(env_updates_view(updates@) =~= env_updates_view(old(updates)@) + seg_usage_polling(v));
}

/// Stores the patched values and returns the environment writes and whether
/// the warmup schedule changed.
fn apply_patch(
    rt: &mut BackgroundTasksRuntime,
    patch: &BackgroundTasksSettingsPatch,
    c: &BackgroundTasksConstants,
) -> (r: (Vec<EnvUpdate>, bool))
    ensures
        spec_patched(*final(rt), *old(rt), *patch, *c),
        env_updates_view(r.0@) == spec_patch_env_updates(*patch, *c),
        r.1 == (patch.warmup_cron_enabled is Some || patch.warmup_cron_expression is Some),
{
    let mut updates: Vec<EnvUpdate> = Vec::new();
    patch_usage_polling(&mut rt.usage_polling_enabled, patch.usage_polling_enabled, &mut updates);
    patch_interval(
        &mut rt.usage_poll_interval_secs,
        patch.usage_poll_interval_secs,
        c.min_usage_poll_interval_secs,
        BackgroundTaskEnvKey::UsagePollIntervalSecs,
        &mut updates,
    );
    patch_bool(
        &mut rt.gateway_keepalive_enabled,
        patch.gateway_keepalive_enabled,
        BackgroundTaskEnvKey::GatewayKeepaliveEnabled,
        &mut updates,
    );
    patch_interval(
        &mut rt.gateway_keepalive_interval_secs,
        patch.gateway_keepalive_interval_secs,
        c.min_gateway_keepalive_interval_secs,
        BackgroundTaskEnvKey::GatewayKeepaliveIntervalSecs,
        &mut updates,
    );
    patch_bool(
        &mut rt.token_refresh_polling_enabled,
        patch.token_refresh_polling_enabled,
        BackgroundTaskEnvKey::TokenRefreshPollingEnabled,
        &mut updates,
    );
    patch_interval(
        &mut rt.token_refresh_poll_interval_secs,
        patch.token_refresh_poll_interval_secs,
        c.min_token_refresh_poll_interval_secs,
        BackgroundTaskEnvKey::TokenRefreshPollIntervalSecs,
        &mut updates,
    );
    patch_count(
        &mut rt.usage_refresh_workers,
        patch.usage_refresh_workers,
        BackgroundTaskEnvKey::UsageRefreshWorkers,
        &mut updates,
    );
    patch_count(
        &mut rt.http_worker_factor,
        patch.http_worker_factor,
        BackgroundTaskEnvKey::HttpWorkerFactor,
        &mut updates,
    );
    patch_count(
        &mut rt.http_worker_min,
        patch.http_worker_min,
        BackgroundTaskEnvKey::HttpWorkerMin,
        &mut updates,
    );
    patch_count(
        &mut rt.http_stream_worker_factor,
        patch.http_stream_worker_factor,
        BackgroundTaskEnvKey::HttpStreamWorkerFactor,
        &mut updates,
    );
    patch_count(
        &mut rt.http_stream_worker_min,
        patch.http_stream_worker_min,
        BackgroundTaskEnvKey::HttpStreamWorkerMin,
        &mut updates,
    );
    patch_bool(
        &mut rt.auto_warmup_after_quota_refresh_enabled,
        patch.auto_warmup_after_quota_refresh_enabled,
        BackgroundTaskEnvKey::AutoWarmupAfterQuotaRefreshEnabled,
        &mut updates,
    );
    patch_bool(
        &mut rt.warmup_cron_enabled,
        patch.warmup_cron_enabled,
        BackgroundTaskEnvKey::WarmupCronEnabled,
        &mut updates,
    );
    let ghost before_expression = updates@;
    let mut changed = patch.warmup_cron_enabled.is_some();
    if let Some(x) = &patch.warmup_cron_expression {
        let expression = normalize_text_setting(x.as_str());
        set_mutex_string(&mut rt.warmup_cron_expression, expression.as_str());
        push_update(&mut updates, BackgroundTaskEnvKey::WarmupCronExpression, Some(expression));
        changed = true;
    }
    assert(env_updates_view(updates@) =~= env_updates_view(before_expression) + seg_expression(
        patch.warmup_cron_expression,
    ));
    if changed {
        notify_warmup_cron_changed(&mut rt.warmup_cron_signal);
    }
    assert(env_updates_view(updates@) =~= spec_patch_env_updates(*patch, *c));
    (updates, changed)
}

/// Applies a patch (loading the settings first if needed) and returns the
/// settings afterwards with the environment writes to make.
pub fn set_background_tasks_settings(
    rt: &mut BackgroundTasksRuntime,
    patch: BackgroundTasksSettingsPatch,
    env: &BackgroundTasksEnv,
    c: &BackgroundTasksConstants,
) -> (r: SettingsApplied)
    ensures
        exists|loaded: BackgroundTasksRuntime|
            #![trigger spec_patched(*final(rt), loaded, patch, *c)]
            {
                &&& (old(rt).loaded ==> loaded == *old(rt))
                &&& (!old(rt).loaded ==> spec_reloaded(loaded, *env, *c) && loaded.warmup_cron_signal
                    == old(rt).warmup_cron_signal)
                &&& spec_patched(*final(rt), loaded, patch, *c)
            },
        final(rt).loaded,
        spec_settings_of(r.settings, *final(rt), *c),
        env_updates_view(r.env_updates@) == spec_patch_env_updates(patch, *c),
        r.warmup_cron_changed == (patch.warmup_cron_enabled is Some
            || patch.warmup_cron_expression is Some),
{
    ensure_background_tasks_config_loaded(rt, env, c);
    let ghost loaded = *rt;
    let (updates, changed) = apply_patch(rt, &patch, c);
    let ghost patched = *rt;
    let settings = snapshot(rt, c);
    assert(spec_patched(*rt, loaded, patch, *c));
    assert(old(rt).loaded ==> loaded == *old(rt));
    assert(!old(rt).loaded ==> spec_reloaded(loaded, *env, *c) && loaded.warmup_cron_signal
        == old(rt).warmup_cron_signal);
    SettingsApplied { settings, env_updates: updates, warmup_cron_changed: changed }
}

/// What validating a patch found: `Err` with the message when the schedule
/// would be switched on without an expression; otherwise the expression that
/// the service's cron validator must still accept, if one needs checking.
pub open spec fn spec_validate_patch(
    current_enabled: bool,
    current_expression: Seq<char>,
    p: BackgroundTasksSettingsPatch,
) -> Result<Option<Seq<char>>, Seq<char>> {
    let target_enabled = match p.warmup_cron_enabled {
        Some(e) => e,
        None => current_enabled,
    };
    let target_expression = match p.warmup_cron_expression {
        Some(x) => trim(x@),
        None => current_expression,
    };
    if target_enabled && target_expression.len() == 0 {
        Err("warmup cron expression is required when warmup cron is enabled"@)
    } else if target_expression.len() > 0 && (target_enabled || p.warmup_cron_expression is Some) {
        Ok(Some(target_expression))
    } else {
        Ok(None)
    }
}

/// Checks a patch before it is applied (loading the settings first if needed).
pub fn validate_background_tasks_settings_patch(
    rt: &mut BackgroundTasksRuntime,
    patch: &BackgroundTasksSettingsPatch,
    env: &BackgroundTasksEnv,
    c: &BackgroundTasksConstants,
) -> (r: Result<Option<String>, String>)
    ensures
        final(rt).loaded,
        old(rt).loaded ==> *final(rt) == *old(rt),
        final(rt).warmup_cron_enabled == (if old(rt).loaded {
            old(rt).warmup_cron_enabled
        } else {
            spec_env_bool_or(opt_view(env.warmup_cron_enabled), false)
        }),
        old(rt).loaded ==> slot_text(final(rt).warmup_cron_expression) == slot_text(
            old(rt).warmup_cron_expression,
        ),
        !old(rt).loaded ==> spec_reloaded(*final(rt), *env, *c),
        match r {
            Ok(Some(x)) => spec_validate_patch(
                final(rt).warmup_cron_enabled,
                slot_text(final(rt).warmup_cron_expression),
                *patch,
            ) == Ok::<Option<Seq<char>>, Seq<char>>(Some(x@)),
            Ok(None) => spec_validate_patch(
                final(rt).warmup_cron_enabled,
                slot_text(final(rt).warmup_cron_expression),
                *patch,
            ) == Ok::<Option<Seq<char>>, Seq<char>>(None),
            Err(e) => spec_validate_patch(
                final(rt).warmup_cron_enabled,
                slot_text(final(rt).warmup_cron_expression),
                *patch,
            ) == Err::<Option<Seq<char>>, Seq<char>>(e@),
        },
{
    ensure_background_tasks_config_loaded(rt, env, c);
    let target_enabled = match patch.warmup_cron_enabled {
        Some(e) => e,
        None => rt.warmup_cron_enabled,
    };
    let patched = match &patch.warmup_cron_expression {
        Some(x) => Some(normalize_text_setting(x.as_str())),
        None => None,
    };
    let target = match &patched {
        Some(x) => x.clone(),
        None => slot_string(&rt.warmup_cron_expression),
    };
    let target_len = chars_of(target.as_str()).len();
    if target_enabled && target_len == 0 {
        proof {
            reveal_strlit("warmup cron expression is required when warmup cron is enabled");
        }
        return Err(
            crate::text::str_to_string(
                "warmup cron expression is required when warmup cron is enabled",
            ),
        );
    }
    if target_len > 0 && (target_enabled || patched.is_some()) {
        return Ok(Some(target));
    }
    Ok(None)
}

} // verus!
