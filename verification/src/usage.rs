//! Decisions taken when a usage snapshot is stored: whether the account's
//! status changes, and whether a quota window has been reset so that an
//! automatic warmup is due.
use vstd::prelude::*;
use crate::num::parse_unsigned_str;
use crate::num::parse_unsigned;
use crate::text::{chars_of, lower, lower_vec, seq_equal, trim, trim_vec, string_of};

verus! {

pub const PRIMARY_WINDOW_MINUTES: i64 = 300;

pub const SECONDARY_WINDOW_MINUTES: i64 = 10_080;

pub const WINDOW_MATCH_TOLERANCE_MINUTES: i64 = 5;

pub const RESET_CROSSING_CLOCK_SKEW_TOLERANCE_SECS: i64 = 300;

pub const DEFAULT_USAGE_SNAPSHOTS_RETAIN_PER_ACCOUNT: usize = 1;

/// The part of a stored usage snapshot that the reset detection reads.
pub struct UsageSnapshotRecord {
    pub account_id: String,
    pub window_minutes: Option<i64>,
    pub resets_at: Option<i64>,
    pub secondary_window_minutes: Option<i64>,
    pub secondary_resets_at: Option<i64>,
    pub captured_at: i64,
}

/// How usable an account is after a snapshot (computed by the availability rules).
pub enum Availability {
    Available,
    Unavailable(String),
}

/// A status to record for the account: `(status, reason)`.
pub struct StatusUpdate {
    pub status: String,
    pub reason: String,
}

pub open spec fn window_matches(v: int, expected: int) -> bool {
    -WINDOW_MATCH_TOLERANCE_MINUTES <= v - expected <= WINDOW_MATCH_TOLERANCE_MINUTES
}

/// A window length within the tolerance of the five-hour or the weekly window.
pub open spec fn spec_supported_window(window_minutes: Option<i64>) -> bool {
    match window_minutes {
        Some(v) => window_matches(v as int, PRIMARY_WINDOW_MINUTES as int) || window_matches(
            v as int,
            SECONDARY_WINDOW_MINUTES as int,
        ),
        None => false,
    }
}

/// `i64::saturating_add`.
pub open spec fn saturating_add_i64(a: int, b: int) -> int {
    if a + b > i64::MAX {
        i64::MAX as int
    } else if a + b < i64::MIN {
        i64::MIN as int
    } else {
        a + b
    }
}

/// The quota window was reset between two snapshots: both report a positive
/// reset time, the window length is a supported one, the current snapshot was
/// taken no earlier than the clock-skew tolerance before the previous reset
/// time, and the reset time moved forward.
pub open spec fn spec_quota_window_refreshed(
    previous_resets_at: Option<i64>,
    current_resets_at: Option<i64>,
    current_captured_at: i64,
    window_minutes: Option<i64>,
) -> bool {
    match (previous_resets_at, current_resets_at) {
        (Some(p), Some(c)) => {
            &&& p > 0
            &&& c > 0
            &&& spec_supported_window(window_minutes)
            &&& saturating_add_i64(
                current_captured_at as int,
                RESET_CROSSING_CLOCK_SKEW_TOLERANCE_SECS as int,
            ) >= p
            &&& c > p
        },
        _ => false,
    }
}

pub open spec fn or_option(a: Option<i64>, b: Option<i64>) -> Option<i64> {
    match a {
        Some(x) => Some(x),
        None => b,
    }
}

/// Which window reset (if any) calls for a warmup: the primary window is
/// checked first, then the secondary one.
pub open spec fn spec_auto_warmup_reason(
    previous: Option<UsageSnapshotRecord>,
    current: UsageSnapshotRecord,
) -> Option<Seq<char>> {
    match previous {
        None => None,
        Some(p) => if spec_quota_window_refreshed(
            p.resets_at,
            current.resets_at,
            current.captured_at,
            or_option(p.window_minutes, current.window_minutes),
        ) {
            Some("primary_quota_window_reset"@)
        } else if spec_quota_window_refreshed(
            p.secondary_resets_at,
            current.secondary_resets_at,
            current.captured_at,
            or_option(p.secondary_window_minutes, current.secondary_window_minutes),
        ) {
            Some("secondary_quota_window_reset"@)
        } else {
            None
        },
    }
}

pub fn is_supported_quota_window_minutes(window_minutes: Option<i64>) -> (r: bool)
    ensures
        r == spec_supported_window(window_minutes),
{
    match window_minutes {
        Some(value) => {
            let v = value as i128;
            let d1 = v - (PRIMARY_WINDOW_MINUTES as i128);
            let d2 = v - (SECONDARY_WINDOW_MINUTES as i128);
            let tolerance = WINDOW_MATCH_TOLERANCE_MINUTES as i128;
            (-tolerance <= d1 && d1 <= tolerance) || (-tolerance <= d2 && d2 <= tolerance)
        },
        None => false,
    }
}

pub fn quota_window_refreshed(
    previous_resets_at: Option<i64>,
    current_resets_at: Option<i64>,
    current_captured_at: i64,
    window_minutes: Option<i64>,
) -> (r: bool)
    ensures
        r == spec_quota_window_refreshed(
            previous_resets_at,
            current_resets_at,
            current_captured_at,
            window_minutes,
        ),
        r ==> current_resets_at.unwrap() > previous_resets_at.unwrap() > 0,
{
    let previous = match previous_resets_at {
        Some(v) if v > 0 => v,
        _ => return false,
    };
    let current = match current_resets_at {
        Some(v) if v > 0 => v,
        _ => return false,
    };
    // The saturated sum reaches `previous` exactly when the exact sum does.
    let reach = (current_captured_at as i128) + (RESET_CROSSING_CLOCK_SKEW_TOLERANCE_SECS as i128);
    is_supported_quota_window_minutes(window_minutes) && reach >= (previous as i128) && current
        > previous
}

/// The reason for an automatic warmup after a quota refresh, if a window was reset.
pub fn auto_warmup_reason_after_quota_refresh(
    previous: Option<&UsageSnapshotRecord>,
    current: &UsageSnapshotRecord,
) -> (r: Option<&'static str>)
    ensures
        match r {
            Some(s) => spec_auto_warmup_reason(
                match previous {
                    Some(p) => Some(*p),
                    None => None,
                },
                *current,
            ) == Some(s@),
            None => spec_auto_warmup_reason(
                match previous {
                    Some(p) => Some(*p),
                    None => None,
                },
                *current,
            ) is None,
        },
{
    let previous = match previous {
        Some(p) => p,
        None => return None,
    };
    let window = match previous.window_minutes {
        Some(w) => Some(w),
        None => current.window_minutes,
    };
    if quota_window_refreshed(previous.resets_at, current.resets_at, current.captured_at, window) {
        let s = "primary_quota_window_reset";
        proof {
            reveal_strlit("primary_quota_window_reset");
        }
        return Some(s);
    }
    let secondary_window = match previous.secondary_window_minutes {
        Some(w) => Some(w),
        None => current.secondary_window_minutes,
    };
    if quota_window_refreshed(
        previous.secondary_resets_at,
        current.secondary_resets_at,
        current.captured_at,
        secondary_window,
    ) {
        let s = "secondary_quota_window_reset";
        proof {
            reveal_strlit("secondary_quota_window_reset");
        }
        return Some(s);
    }
    None
}

/// The reason to queue a warmup after storing `current`, when the automatic
/// warmup is enabled and a quota window was reset.
pub fn maybe_enqueue_auto_warmup_after_quota_refresh(
    auto_warmup_enabled: bool,
    previous: Option<&UsageSnapshotRecord>,
    current: &UsageSnapshotRecord,
) -> (r: Option<&'static str>)
    ensures
        !auto_warmup_enabled ==> r is None,
        auto_warmup_enabled ==> match r {
            Some(s) => spec_auto_warmup_reason(
                match previous {
                    Some(p) => Some(*p),
                    None => None,
                },
                *current,
            ) == Some(s@),
            None => spec_auto_warmup_reason(
                match previous {
                    Some(p) => Some(*p),
                    None => None,
                },
                *current,
            ) is None,
        },
{
    if !auto_warmup_enabled {
        return None;
    }
    auto_warmup_reason_after_quota_refresh(previous, current)
}

/// Status updates from snapshots are blocked for a disabled account.
pub open spec fn spec_status_updates_blocked(status: Seq<char>) -> bool {
    lower(trim(status)) == "disabled"@
}

pub fn usage_status_updates_blocked(status: &str) -> (r: bool)
    ensures
        r == spec_status_updates_blocked(status@),
{
    let s = chars_of(status);
    let t = trim_vec(&s);
    let l = lower_vec(&t);
    let d = chars_of("disabled");
    proof {
        reveal_strlit("disabled");
    }
    seq_equal(&l, &d)
}

/// How many snapshots to keep per account, from the raw setting.
pub open spec fn spec_retain_per_account(raw: Option<Seq<char>>) -> nat {
    match raw {
        Some(r) => match parse_unsigned(trim(r), 10, usize::MAX as nat) {
            Some(v) => v,
            None => DEFAULT_USAGE_SNAPSHOTS_RETAIN_PER_ACCOUNT as nat,
        },
        None => DEFAULT_USAGE_SNAPSHOTS_RETAIN_PER_ACCOUNT as nat,
    }
}

pub fn usage_snapshots_retain_per_account(raw: Option<&str>) -> (r: usize)
    ensures
        r == spec_retain_per_account(
            match raw {
                Some(s) => Some(s@),
                None => None,
            },
        ),
{
    match raw {
        Some(text) => {
            let s = chars_of(text);
            let t = trim_vec(&s);
            let ts = string_of(t.as_slice());
            match parse_unsigned_str(ts.as_str(), 10, usize::MAX as u64) {
                Some(v) => v as usize,
                None => DEFAULT_USAGE_SNAPSHOTS_RETAIN_PER_ACCOUNT,
            }
        },
        None => DEFAULT_USAGE_SNAPSHOTS_RETAIN_PER_ACCOUNT,
    }
}

pub open spec fn spec_status_update(blocked: bool, availability: Availability) -> Option<
    (Seq<char>, Seq<char>),
> {
    if blocked {
        None
    } else {
        match availability {
            Availability::Available => Some(("active"@, "usage_ok"@)),
            Availability::Unavailable(reason) => if reason@ == "usage_exhausted_primary"@
                || reason@ == "usage_exhausted_secondary"@ {
                Some(("limited"@, "usage_limit_exhausted"@))
            } else {
                None
            },
        }
    }
}

/// The status to record for an account after a snapshot was evaluated,
/// given the account's current status text.
pub fn apply_status_from_snapshot(current_status: &str, availability: &Availability) -> (r:
    Option<StatusUpdate>)
    ensures
        match r {
            Some(u) => spec_status_update(spec_status_updates_blocked(current_status@), *availability)
                == Some((u.status@, u.reason@)),
            None => spec_status_update(
                spec_status_updates_blocked(current_status@),
                *availability,
            ) is None,
        },
{
    if usage_status_updates_blocked(current_status) {
        return None;
    }
    proof {
        reveal_strlit("active");
        reveal_strlit("usage_ok");
        reveal_strlit("limited");
        reveal_strlit("usage_limit_exhausted");
        reveal_strlit("usage_exhausted_primary");
        reveal_strlit("usage_exhausted_secondary");
    }
    match availability {
        Availability::Available => Some(
            StatusUpdate {
                status: crate::text::str_to_string("active"),
                reason: crate::text::str_to_string("usage_ok"),
            },
        ),
        Availability::Unavailable(reason) => {
            let rv = chars_of(reason.as_str());
            let p = chars_of("usage_exhausted_primary");
            let q = chars_of("usage_exhausted_secondary");
            if seq_equal(&rv, &p) || seq_equal(&rv, &q) {
                Some(
                    StatusUpdate {
                        status: crate::text::str_to_string("limited"),
                        reason: crate::text::str_to_string("usage_limit_exhausted"),
                    },
                )
            } else {
                None
            }
        },
    }
}

/// The quota windows read from an upstream usage answer.
pub struct UsageWindows {
    pub window_minutes: Option<i64>,
    pub resets_at: Option<i64>,
    pub secondary_window_minutes: Option<i64>,
    pub secondary_resets_at: Option<i64>,
}

/// What storing a usage snapshot does, after the record is inserted: keep only
/// the newest `prune_to` snapshots of the account (no pruning for a limit of
/// zero), and queue a warmup for `warmup_reason`.
pub struct UsageSnapshotPlan {
    pub record: UsageSnapshotRecord,
    pub prune_to: Option<usize>,
    pub warmup_reason: Option<&'static str>,
}

/// Plans the storing of a snapshot taken at `captured_at`, given the latest
/// stored one, the raw retention setting and whether automatic warmups after
/// a quota refresh are on.
pub fn store_usage_snapshot(
    account_id: &str,
    windows: &UsageWindows,
    captured_at: i64,
    previous: Option<&UsageSnapshotRecord>,
    retain_setting: Option<&str>,
    auto_warmup_enabled: bool,
) -> (r: UsageSnapshotPlan)
    ensures
        r.record.account_id@ == account_id@,
        r.record.window_minutes == windows.window_minutes,
        r.record.resets_at == windows.resets_at,
        r.record.secondary_window_minutes == windows.secondary_window_minutes,
        r.record.secondary_resets_at == windows.secondary_resets_at,
        r.record.captured_at == captured_at,
        ({
            let retain = spec_retain_per_account(
                match retain_setting {
                    Some(s) => Some(s@),
                    None => None,
                },
            );
            if retain > 0 {
                r.prune_to == Some(retain as usize)
            } else {
                r.prune_to is None
            }
        }),
        !auto_warmup_enabled ==> r.warmup_reason is None,
        auto_warmup_enabled ==> match r.warmup_reason {
            Some(s) => spec_auto_warmup_reason(
                match previous {
                    Some(p) => Some(*p),
                    None => None,
                },
                r.record,
            ) == Some(s@),
            None => spec_auto_warmup_reason(
                match previous {
                    Some(p) => Some(*p),
                    None => None,
                },
                r.record,
            ) is None,
        },
{
    let record = UsageSnapshotRecord {
        account_id: crate::text::str_to_string(account_id),
        window_minutes: windows.window_minutes,
        resets_at: windows.resets_at,
        secondary_window_minutes: windows.secondary_window_minutes,
        secondary_resets_at: windows.secondary_resets_at,
        captured_at,
    };
    let retain = usage_snapshots_retain_per_account(retain_setting);
    let prune_to = if retain > 0 {
        Some(retain)
    } else {
        None
    };
    let warmup_reason = maybe_enqueue_auto_warmup_after_quota_refresh(
        auto_warmup_enabled,
        previous,
        &record,
    );
    UsageSnapshotPlan { record, prune_to, warmup_reason }
}

} // verus!
