//! Properties that hold across the operations of the library.
use vstd::prelude::*;
use crate::settings::{
    BackgroundTaskEnvKey, BackgroundTasksConstants, BackgroundTasksEnv, BackgroundTasksRuntime,
    BackgroundTasksSettingsPatch, at_least_one, opt_view, seg_bool, seg_count,
    seg_expression, seg_interval, seg_usage_polling, slot_text, spec_patch_env_updates,
    spec_patched, spec_reloaded, spec_validate_patch,
};
use crate::text::{Sep, is_ws, split, trim, trim_end, trim_start};
use crate::warmup::spec_mark_trimmed;

verus! {

/// Once an account is marked (a warmup in flight, or a warmup queued), marking
/// it again is refused; and clearing a fresh mark restores the marks as they were.
pub proof fn law_mark_is_exclusive(marks: Set<Seq<char>>, account_id: Seq<char>)
    ensures
        !spec_mark_trimmed(spec_mark_trimmed(marks, account_id).0, account_id).1,
        spec_mark_trimmed(marks, account_id).1 ==> spec_mark_trimmed(marks, account_id).0.remove(
            trim(account_id),
        ) == marks,
        spec_mark_trimmed(marks, account_id).1 ==> spec_mark_trimmed(
            spec_mark_trimmed(marks, account_id).0.remove(trim(account_id)),
            account_id,
        ).1,
{
    let t = trim(account_id);
    if t.len() > 0 && !marks.contains(t) {
        assert(marks.insert(t).remove(t) =~= marks);
    }
}

/// The empty patch: every field `None`.
pub open spec fn empty_patch(p: BackgroundTasksSettingsPatch) -> bool {
    &&& p.usage_polling_enabled is None
    &&& p.usage_poll_interval_secs is None
    &&& p.gateway_keepalive_enabled is None
    &&& p.gateway_keepalive_interval_secs is None
    &&& p.token_refresh_polling_enabled is None
    &&& p.token_refresh_poll_interval_secs is None
    &&& p.usage_refresh_workers is None
    &&& p.http_worker_factor is None
    &&& p.http_worker_min is None
    &&& p.http_stream_worker_factor is None
    &&& p.http_stream_worker_min is None
    &&& p.auto_warmup_after_quota_refresh_enabled is None
    &&& p.warmup_cron_enabled is None
    &&& p.warmup_cron_expression is None
}

/// The settings values of a runtime (everything but the change signal).
pub open spec fn same_values(a: BackgroundTasksRuntime, b: BackgroundTasksRuntime) -> bool {
    &&& a.loaded == b.loaded
    &&& a.usage_polling_enabled == b.usage_polling_enabled
    &&& a.usage_poll_interval_secs == b.usage_poll_interval_secs
    &&& a.gateway_keepalive_enabled == b.gateway_keepalive_enabled
    &&& a.gateway_keepalive_interval_secs == b.gateway_keepalive_interval_secs
    &&& a.token_refresh_polling_enabled == b.token_refresh_polling_enabled
    &&& a.token_refresh_poll_interval_secs == b.token_refresh_poll_interval_secs
    &&& a.usage_refresh_workers == b.usage_refresh_workers
    &&& a.http_worker_factor == b.http_worker_factor
    &&& a.http_worker_min == b.http_worker_min
    &&& a.http_stream_worker_factor == b.http_stream_worker_factor
    &&& a.http_stream_worker_min == b.http_stream_worker_min
    &&& a.auto_warmup_after_quota_refresh_enabled == b.auto_warmup_after_quota_refresh_enabled
    &&& a.warmup_cron_enabled == b.warmup_cron_enabled
    &&& slot_text(a.warmup_cron_expression) == slot_text(b.warmup_cron_expression)
}

/// An empty patch changes no setting, writes nothing to the environment and
/// does not wake the warmup scheduler.
pub proof fn law_empty_patch_changes_nothing(
    new: BackgroundTasksRuntime,
    old: BackgroundTasksRuntime,
    p: BackgroundTasksSettingsPatch,
    c: BackgroundTasksConstants,
)
    requires
        empty_patch(p),
        spec_patched(new, old, p, c),
    ensures
        same_values(new, old),
        new.warmup_cron_signal.version == old.warmup_cron_signal.version,
        spec_patch_env_updates(p, c).len() == 0,
{
}

/// Applying the same patch a second time leaves every setting as the first
/// application left it, and writes the same environment values.
pub proof fn law_patch_is_idempotent(
    first: BackgroundTasksRuntime,
    second: BackgroundTasksRuntime,
    old: BackgroundTasksRuntime,
    p: BackgroundTasksSettingsPatch,
    c: BackgroundTasksConstants,
)
    requires
        spec_patched(first, old, p, c),
        spec_patched(second, first, p, c),
    ensures
        same_values(second, first),
{
}

/// Every worker count is at least one.
pub open spec fn worker_counts_positive(rt: BackgroundTasksRuntime) -> bool {
    &&& rt.usage_refresh_workers >= 1
    &&& rt.http_worker_factor >= 1
    &&& rt.http_worker_min >= 1
    &&& rt.http_stream_worker_factor >= 1
    &&& rt.http_stream_worker_min >= 1
}

/// A reload is determined by the environment alone: two reloads from the same
/// environment give the same settings, so reloading again from an unchanged
/// environment never wakes the warmup scheduler.
pub proof fn law_reload_is_determined_by_env(
    a: BackgroundTasksRuntime,
    b: BackgroundTasksRuntime,
    env: BackgroundTasksEnv,
    c: BackgroundTasksConstants,
)
    requires
        spec_reloaded(a, env, c),
        spec_reloaded(b, env, c),
        a.loaded == b.loaded,
    ensures
        same_values(a, b),
{
}

/// The worker counts are at least one after a reload, and a patch keeps them
/// so; an interval that a patch sets is at least its lower bound.
pub proof fn law_counts_stay_positive(
    loaded: BackgroundTasksRuntime,
    patched: BackgroundTasksRuntime,
    env: crate::settings::BackgroundTasksEnv,
    p: BackgroundTasksSettingsPatch,
    c: BackgroundTasksConstants,
)
    requires
        spec_reloaded(loaded, env, c),
        spec_patched(patched, loaded, p, c),
    ensures
        worker_counts_positive(loaded),
        worker_counts_positive(patched),
        p.usage_poll_interval_secs is Some ==> patched.usage_poll_interval_secs
            >= c.min_usage_poll_interval_secs,
        p.gateway_keepalive_interval_secs is Some ==> patched.gateway_keepalive_interval_secs
            >= c.min_gateway_keepalive_interval_secs,
        p.token_refresh_poll_interval_secs is Some ==> patched.token_refresh_poll_interval_secs
            >= c.min_token_refresh_poll_interval_secs,
{
}

/// A patch that passes validation never leaves the warmup schedule switched
/// on without an expression.
pub proof fn law_validated_patch_keeps_schedule_usable(
    old: BackgroundTasksRuntime,
    new: BackgroundTasksRuntime,
    p: BackgroundTasksSettingsPatch,
    c: BackgroundTasksConstants,
)
    requires
        spec_validate_patch(old.warmup_cron_enabled, slot_text(old.warmup_cron_expression), p) is Ok,
        spec_patched(new, old, p, c),
    ensures
        new.warmup_cron_enabled ==> slot_text(new.warmup_cron_expression).len() > 0,
{
}

/// A snapshot that reports the same reset times as the previous one never
/// queues a warmup, whatever else changed.
pub proof fn law_unchanged_resets_give_no_reason(
    previous: crate::usage::UsageSnapshotRecord,
    current: crate::usage::UsageSnapshotRecord,
)
    requires
        current.resets_at == previous.resets_at,
        current.secondary_resets_at == previous.secondary_resets_at,
    ensures
        crate::usage::spec_auto_warmup_reason(Some(previous), current) is None,
{
}

/// A warmup is only queued when a reset time moved forward, and only when the
/// new snapshot was not taken too long before the previous reset time.
pub proof fn law_reset_reason_needs_forward_move(
    previous: crate::usage::UsageSnapshotRecord,
    current: crate::usage::UsageSnapshotRecord,
)
    requires
        crate::usage::spec_auto_warmup_reason(Some(previous), current) is Some,
    ensures
        (previous.resets_at matches Some(p) && current.resets_at matches Some(c) && 0 < p < c
            && current.captured_at + crate::usage::RESET_CROSSING_CLOCK_SKEW_TOLERANCE_SECS >= p)
            || (previous.secondary_resets_at matches Some(p) && current.secondary_resets_at matches Some(
            c,
        ) && 0 < p < c && current.captured_at + crate::usage::RESET_CROSSING_CLOCK_SKEW_TOLERANCE_SECS
            >= p),
{
}

/// The status code read back from a warmup error summary is the HTTP status
/// the summary was made with: the error text that a failed request produces
/// carries its status to the log record.
pub proof fn law_summary_status_round_trip(
    status: u16,
    upstream_hint: Option<Seq<char>>,
    entries: Seq<(Seq<char>, Option<Seq<char>>)>,
    body: Seq<char>,
)
    ensures
        crate::warmup::spec_status_code_of(
            crate::warmup::spec_warmup_error_summary(status, upstream_hint, entries, body),
        ) == status as int,
{
    reveal_strlit("status=");
    reveal_strlit(" body=");
    let summary = crate::warmup::spec_warmup_error_summary(status, upstream_hint, entries, body);
    let d = crate::num::decimal(status as nat);
    crate::num::lemma_decimal(status as nat);
    let tail = summary.skip(7 + d.len() as int);
    assert(summary =~= "status="@ + d + tail);
    assert(tail[0] == ' ');
    // The marker sits at the very start.
    assert(summary.subrange(0, 7) =~= "status="@);
    assert(crate::text::find(summary, "status="@) == Some(0int));
    let rest = summary.skip(7);
    assert(rest =~= d + tail);
    assert forall|k: int| 0 <= k < d.len() implies crate::text::is_digit(#[trigger] rest[k]) by {
        assert(rest[k] == d[k]);
        assert(crate::num::is_radix_digit(d[k], 10));
    }
    crate::warmup::lemma_digit_prefix(rest, d.len() as int);
    assert(rest.skip(d.len() as int) =~= tail);
    assert(crate::warmup::digit_prefix_len(tail) == 0);
    assert(rest.take(d.len() as int) =~= d);
    crate::num::lemma_parse_decimal(status as nat, i64::MAX as nat);
}

proof fn lemma_hex_text(b: Seq<u8>)
    ensures
        crate::ids::hex_text(b).len() == 2 * b.len(),
        forall|i: int|
            0 <= i < crate::ids::hex_text(b).len() ==> crate::text::is_hex_digit(
                #[trigger] crate::ids::hex_text(b)[i],
            ) && crate::text::ascii_lower(crate::ids::hex_text(b)[i]) == crate::ids::hex_text(b)[i]
                && !crate::text::is_ws(crate::ids::hex_text(b)[i]),
    decreases b.len(),
{
    if b.len() > 0 {
        lemma_hex_text(b.drop_last());
        let h = crate::ids::hex_text(b);
        let prev = crate::ids::hex_text(b.drop_last());
        let last = b.last();
        assert((last / 16) < 16) by (bit_vector);
        assert(h =~= prev + crate::num::hex2(last));
        assert forall|i: int| 0 <= i < h.len() implies crate::text::is_hex_digit(#[trigger] h[i])
            && crate::text::ascii_lower(h[i]) == h[i] && !crate::text::is_ws(h[i]) by {
            if i < prev.len() {
                assert(h[i] == prev[i]);
            }
        }
    }
}

/// Text that starts and ends with a non-space character is its own trim.
proof fn lemma_trim_noop(s: Seq<char>)
    requires
        s.len() > 0,
        !crate::text::is_ws(s[0]),
        !crate::text::is_ws(s.last()),
    ensures
        trim(s) == s,
{
    assert(crate::text::trim_start(s) == s);
    assert(crate::text::trim_end(s) == s);
}

/// An installation id written by the service is recognised when read back:
/// the text of a fresh version-4 UUID (trimmed, as it is read) is a canonical
/// UUID equal to itself.
pub proof fn law_installation_id_round_trip(b: Seq<u8>)
    requires
        b.len() == 16,
    ensures
        crate::ids::spec_canonical_uuid(trim(crate::ids::spec_uuid_v4_text(b))) == Some(
            crate::ids::spec_uuid_v4_text(b),
        ),
{
    reveal_strlit("-");
    let u = crate::ids::v4_bytes(b);
    let h0 = crate::ids::hex_text(u.subrange(0, 4));
    let h1 = crate::ids::hex_text(u.subrange(4, 6));
    let h2 = crate::ids::hex_text(u.subrange(6, 8));
    let h3 = crate::ids::hex_text(u.subrange(8, 10));
    let h4 = crate::ids::hex_text(u.subrange(10, 16));
    lemma_hex_text(u.subrange(0, 4));
    lemma_hex_text(u.subrange(4, 6));
    lemma_hex_text(u.subrange(6, 8));
    lemma_hex_text(u.subrange(8, 10));
    lemma_hex_text(u.subrange(10, 16));
    let t = crate::ids::spec_uuid_v4_text(b);
    assert(t =~= h0 + "-"@ + h1 + "-"@ + h2 + "-"@ + h3 + "-"@ + h4);
    assert(t.len() == 36);
    assert forall|i: int| 0 <= i < 36 implies if crate::ids::is_dash_position(i) {
        #[trigger] t[i] == '-'
    } else {
        crate::text::is_hex_digit(t[i])
    } && crate::text::ascii_lower(t[i]) == t[i] by {
        if i < 8 {
            assert(t[i] == h0[i]);
        } else if i == 8 {
        } else if i < 13 {
            assert(t[i] == h1[i - 9]);
        } else if i == 13 {
        } else if i < 18 {
            assert(t[i] == h2[i - 14]);
        } else if i == 18 {
        } else if i < 23 {
            assert(t[i] == h3[i - 19]);
        } else if i == 23 {
        } else {
            assert(t[i] == h4[i - 24]);
        }
    }
    assert(t[0] == h0[0]);
    assert(t[35] == h4[11]);
    lemma_trim_noop(t);
    assert(crate::text::lower(t) =~= t);
}

/// A token written to the token file reads back as itself: generated tokens
/// (lower-case hex of random bytes) have no surrounding space to trim.
pub proof fn law_rpc_token_round_trip(b: Seq<u8>)
    requires
        b.len() > 0,
    ensures
        crate::paths::spec_token_text(crate::ids::hex_text(b)) == Some(crate::ids::hex_text(b)),
{
    let h = crate::ids::hex_text(b);
    lemma_hex_text(b);
    lemma_trim_noop(h);
}

// ---------------------------------------------------------------------------
// Wildcard rules match as globs.

/// Glob matching of `v[j..]` by `p[i..]`: `*` matches any run of characters,
/// every other pattern character matches itself.
pub open spec fn glob_from(p: Seq<char>, v: Seq<char>, i: int, j: int) -> bool
    decreases p.len() - i + v.len() - j,
{
    if i < 0 || j < 0 || i > p.len() || j > v.len() {
        false
    } else if i == p.len() {
        j == v.len()
    } else if p[i] == '*' {
        glob_from(p, v, i + 1, j) || (j < v.len() && glob_from(p, v, i, j + 1))
    } else {
        j < v.len() && p[i] == v[j] && glob_from(p, v, i + 1, j + 1)
    }
}

/// `v` matches the glob pattern `p`.
pub open spec fn glob_matches(p: Seq<char>, v: Seq<char>) -> bool {
    glob_from(p, v, 0, 0)
}

proof fn lemma_glob_at_end(p: Seq<char>, v: Seq<char>, i: int)
    requires
        0 <= i <= p.len(),
    ensures
        glob_from(p, v, i, v.len() as int) == (forall|k: int| i <= k < p.len() ==> p[k] == '*'),
    decreases p.len() - i,
{
    if i < p.len() {
        lemma_glob_at_end(p, v, i + 1);
    }
}

proof fn lemma_glob_star(p: Seq<char>, v: Seq<char>, i: int, j: int)
    requires
        0 <= i < p.len(),
        p[i] == '*',
        0 <= j <= v.len(),
    ensures
        glob_from(p, v, i, j) == exists|k: int| j <= k <= v.len() && #[trigger] glob_from(p, v, i + 1, k),
    decreases v.len() - j,
{
    if j < v.len() {
        lemma_glob_star(p, v, i, j + 1);
        if glob_from(p, v, i, j) {
            if glob_from(p, v, i + 1, j) {
                assert(glob_from(p, v, i + 1, j));
            } else {
                let k = choose|k: int| j + 1 <= k <= v.len() && #[trigger] glob_from(p, v, i + 1, k);
                assert(glob_from(p, v, i + 1, k));
            }
        }
        if exists|k: int| j <= k <= v.len() && #[trigger] glob_from(p, v, i + 1, k) {
            let k = choose|k: int| j <= k <= v.len() && #[trigger] glob_from(p, v, i + 1, k);
            if k > j {
                assert(glob_from(p, v, i, j + 1));
            }
        }
    } else {
        if glob_from(p, v, i, j) {
            assert(glob_from(p, v, i + 1, j));
        }
    }
}

proof fn lemma_glob_star_mono(p: Seq<char>, v: Seq<char>, i: int, j: int, j2: int)
    requires
        0 <= i < p.len(),
        p[i] == '*',
        0 <= j <= j2 <= v.len(),
        glob_from(p, v, i, j2),
    ensures
        glob_from(p, v, i, j),
{
    lemma_glob_star(p, v, i, j);
    lemma_glob_star(p, v, i, j2);
    let k = choose|k: int| j2 <= k <= v.len() && #[trigger] glob_from(p, v, i + 1, k);
    assert(glob_from(p, v, i + 1, k));
}

/// A star-free stretch of the pattern must meet the same characters of the value.
proof fn lemma_glob_literal_needs(p: Seq<char>, v: Seq<char>, i: int, j: int, m: int)
    requires
        0 <= i,
        0 <= j,
        0 <= m,
        i + m <= p.len(),
        forall|t: int| 0 <= t < m ==> #[trigger] p[i + t] != '*',
        glob_from(p, v, i, j),
    ensures
        j + m <= v.len(),
        forall|t: int| 0 <= t < m ==> #[trigger] p[i + t] == v[j + t],
        glob_from(p, v, i + m, j + m),
    decreases m,
{
    if m > 0 {
        assert(p[i + 0] != '*');
        assert forall|t: int| 0 <= t < m - 1 implies #[trigger] p[i + 1 + t] != '*' by {
            assert(p[i + (t + 1)] != '*');
        }
        lemma_glob_literal_needs(p, v, i + 1, j + 1, m - 1);
        assert forall|t: int| 0 <= t < m implies #[trigger] p[i + t] == v[j + t] by {
            if t > 0 {
                assert(p[i + 1 + (t - 1)] == v[j + 1 + (t - 1)]);
            }
        }
    }
}

/// Where a star-free stretch meets equal characters, matching carries on after it.
proof fn lemma_glob_literal_skip(p: Seq<char>, v: Seq<char>, i: int, j: int, m: int)
    requires
        0 <= i,
        0 <= j,
        0 <= m,
        i + m <= p.len(),
        j + m <= v.len(),
        forall|t: int| 0 <= t < m ==> #[trigger] p[i + t] != '*' && p[i + t] == v[j + t],
    ensures
        glob_from(p, v, i, j) == glob_from(p, v, i + m, j + m),
    decreases m,
{
    if m > 0 {
        assert(p[i + 0] != '*' && p[i + 0] == v[j + 0]);
        assert forall|t: int| 0 <= t < m - 1 implies #[trigger] p[i + 1 + t] != '*' && p[i + 1
            + t] == v[j + 1 + t] by {
            assert(p[i + (t + 1)] != '*' && p[i + (t + 1)] == v[j + (t + 1)]);
        }
        lemma_glob_literal_skip(p, v, i + 1, j + 1, m - 1);
    }
}

pub open spec fn star_free(v: Seq<char>) -> bool {
    forall|k: int| 0 <= k < v.len() ==> v[k] != '*'
}

/// The states the wildcard matcher passes through: since the last star, the
/// pattern has met the value character for character.
pub open spec fn run_state_ok(p: Seq<char>, v: Seq<char>, pi: int, vi: int, star: Option<int>, sv: int) -> bool {
    &&& 0 <= sv <= vi <= v.len()
    &&& 0 <= pi <= p.len()
    &&& match star {
        None => sv == 0,
        Some(s) => {
            &&& 0 <= s
            &&& s + 1 <= pi
            &&& p[s] == '*'
            &&& pi - (s + 1) == vi - sv
            &&& forall|t: int| 0 <= t < pi - (s + 1) ==> #[trigger] p[s + 1 + t] == v[sv + t]
        },
    }
}

/// What a matcher state still has to decide.
pub open spec fn run_target(p: Seq<char>, v: Seq<char>, pi: int, vi: int, star: Option<int>, sv: int) -> bool {
    match star {
        None => glob_from(p, v, pi, vi),
        Some(s) => exists|k: int| sv <= k <= v.len() && #[trigger] glob_from(p, v, s + 1, k),
    }
}

proof fn lemma_run_is_glob(p: Seq<char>, v: Seq<char>, pi: int, vi: int, star: Option<int>, sv: int)
    requires
        star_free(v),
        run_state_ok(p, v, pi, vi, star, sv),
    ensures
        crate::proxy::wildcard_run(p, v, pi, vi, star, sv) == run_target(p, v, pi, vi, star, sv),
    decreases v.len() + 1 - sv, v.len() - vi, p.len() - pi,
{
    if let Some(s) = star {
        // the stretch since the star is star-free, as the value is
        assert forall|t: int| 0 <= t < pi - (s + 1) implies #[trigger] p[s + 1 + t] != '*' && p[s
            + 1 + t] == v[sv + t] by {
            assert(v[sv + t] != '*');
        }
        lemma_glob_literal_skip(p, v, s + 1, sv, pi - (s + 1));
    }
    if vi < v.len() {
        if pi < p.len() && p[pi] == v[vi] {
            let next_ok = run_state_ok(p, v, pi + 1, vi + 1, star, sv);
            if let Some(s) = star {
                assert forall|t: int| 0 <= t < pi + 1 - (s + 1) implies #[trigger] p[s + 1 + t]
                    == v[sv + t] by {
                    if t == pi - (s + 1) {
                        assert(s + 1 + t == pi);
                    }
                }
            }
            assert(run_state_ok(p, v, pi + 1, vi + 1, star, sv));
            lemma_run_is_glob(p, v, pi + 1, vi + 1, star, sv);
            assert(v[vi] != '*');
        } else if pi < p.len() && p[pi] == '*' {
            assert(run_state_ok(p, v, pi + 1, vi, Some(pi), vi));
            lemma_run_is_glob(p, v, pi + 1, vi, Some(pi), vi);
            lemma_glob_star(p, v, pi, vi);
            if let Some(s) = star {
                // the old target equals glob_from at (pi, vi): the leftmost
                // meeting of the stretch is as good as any later one
                if exists|k: int| sv <= k <= v.len() && #[trigger] glob_from(p, v, s + 1, k) {
                    let k = choose|k: int| sv <= k <= v.len() && #[trigger] glob_from(p, v, s + 1, k);
                    let m = pi - (s + 1);
                    assert forall|t: int| 0 <= t < m implies #[trigger] p[s + 1 + t] != '*' by {
                        assert(v[sv + t] != '*');
                    }
                    lemma_glob_literal_needs(p, v, s + 1, k, m);
                    assert(s + 1 + m == pi);
                    lemma_glob_star_mono(p, v, pi, vi, k + m);
                }
                if glob_from(p, v, pi, vi) {
                    assert(glob_from(p, v, s + 1, sv));
                }
            }
        } else if star is Some {
            let s = star.unwrap();
            assert(run_state_ok(p, v, s + 1, sv + 1, star, sv + 1));
            lemma_run_is_glob(p, v, s + 1, sv + 1, star, sv + 1);
            // the star's match cannot start at sv
            assert(!glob_from(p, v, pi, vi));
            assert(!glob_from(p, v, s + 1, sv));
            if exists|k: int| sv <= k <= v.len() && #[trigger] glob_from(p, v, s + 1, k) {
                let k = choose|k: int| sv <= k <= v.len() && #[trigger] glob_from(p, v, s + 1, k);
                assert(k != sv);
                assert(sv + 1 <= k <= v.len() && glob_from(p, v, s + 1, k));
            }
        } else {
            assert(!glob_from(p, v, pi, vi));
        }
    } else {
        lemma_glob_at_end(p, v, pi);
        if let Some(s) = star {
            let m = pi - (s + 1);
            assert(vi == v.len());
            if exists|k: int| sv <= k <= v.len() && #[trigger] glob_from(p, v, s + 1, k) {
                let k = choose|k: int| sv <= k <= v.len() && #[trigger] glob_from(p, v, s + 1, k);
                assert forall|t: int| 0 <= t < m implies #[trigger] p[s + 1 + t] != '*' by {
                    assert(v[sv + t] != '*');
                }
                lemma_glob_literal_needs(p, v, s + 1, k, m);
                assert(k == sv);
            }
            if glob_from(p, v, pi, vi) {
                assert(glob_from(p, v, s + 1, sv));
            }
        }
    }
}

/// For host names (which hold no `*`), a wildcard bypass rule matches exactly
/// when the host matches the rule as a glob pattern.
pub proof fn law_wildcard_is_glob(pattern: Seq<char>, value: Seq<char>)
    requires
        star_free(value),
    ensures
        crate::proxy::spec_wildcard_matches(pattern, value) == glob_matches(pattern, value),
{
    assert(run_state_ok(pattern, value, 0, 0, None, 0));
    lemma_run_is_glob(pattern, value, 0, 0, None, 0);
}


/// A value written between quotes reads back exactly, whatever it holds:
/// `KEY="value"` (or with single quotes) in a settings file sets `KEY` to
/// `value`, for a key that is a plain name (no surrounding space, no `=`, not
/// starting a comment or with `export `).
pub proof fn law_quoted_value_round_trip(key: Seq<char>, value: Seq<char>, quote: char)
    requires
        quote == '"' || quote == '\'',
        key.len() > 0,
        !crate::text::is_ws(key[0]),
        !crate::text::is_ws(key.last()),
        !key.contains('='),
        key[0] != '#',
        key[0] != ';',
        !crate::text::starts_with(key, "export "@),
    ensures
        crate::dotenv::spec_parse_dotenv_kv(key + seq!['='] + seq![quote] + value + seq![quote])
            == Some((key, value)),
{
    reveal_strlit("export ");
    reveal_strlit("=");
    let raw = seq![quote] + value + seq![quote];
    let line = key + seq!['='] + raw;
    assert(line =~= key + seq!['='] + seq![quote] + value + seq![quote]);
    let n = key.len() as int;
    assert(line[0] == key[0]);
    assert(line.last() == quote);
    lemma_trim_noop(line);
    // The line does not start with `export `.
    if n >= 7 {
        assert(line.take(7) =~= key.take(7));
    } else if line.len() >= 7 {
        assert(line[n] == '=');
        assert(line.take(7)[n] == '=');
        assert("export "@[n] != '=');
    }
    assert(!crate::text::starts_with(line, "export "@));
    // The first `=` is the one after the key.
    assert(line.subrange(n, n + 1) =~= "="@);
    crate::text::lemma_find_from_finds(line, "="@, 0, n);
    crate::text::lemma_find_from_sound(line, "="@, 0);
    let j = crate::text::find(line, "="@).unwrap();
    assert(line.subrange(j, j + 1)[0] == line[j]);
    if j < n {
        assert(key[j] == line[j]);
        assert(key.contains('='));
    }
    assert(j == n);
    assert(line.take(n) =~= key);
    assert(line.skip(n + 1) =~= raw);
    lemma_trim_noop(key);
    assert(raw[0] == quote);
    assert(raw.last() == quote);
    lemma_trim_noop(raw);
    assert(raw.subrange(1, raw.len() - 1) =~= value);
}


proof fn lemma_trim_start_first(s: Seq<char>)
    ensures
        trim_start(s).len() == 0 || !is_ws(trim_start(s)[0]),
    decreases s.len(),
{
    if s.len() > 0 && is_ws(s[0]) {
        lemma_trim_start_first(s.drop_first());
    }
}

proof fn lemma_trim_end_prefix(s: Seq<char>)
    ensures
        trim_end(s).len() <= s.len(),
        trim_end(s) == s.take(trim_end(s).len() as int),
        trim_end(s).len() == 0 || !is_ws(trim_end(s).last()),
    decreases s.len(),
{
    if s.len() > 0 && is_ws(s.last()) {
        lemma_trim_end_prefix(s.drop_last());
        assert(s.drop_last().take(trim_end(s).len() as int) =~= s.take(trim_end(s).len() as int));
    } else {
        assert(s.take(s.len() as int) =~= s);
    }
}

/// Trimming twice is trimming once.
proof fn lemma_trim_idempotent(s: Seq<char>)
    ensures
        trim(trim(s)) == trim(s),
{
    let y = trim_start(s);
    let t = trim_end(y);
    lemma_trim_start_first(s);
    lemma_trim_end_prefix(y);
    if t.len() > 0 {
        assert(t[0] == y[0]);
        assert(trim_start(t) == t);
        assert(trim_end(t) == t);
    }
}

/// A bool written as `1` or `0` reads back as itself, whatever the default.
proof fn lemma_bool_text_reads_back(b: bool, default: bool)
    ensures
        crate::settings::spec_env_bool_or(Some(crate::settings::bool_text(b)), default) == b,
{
    reveal_strlit("1");
    reveal_strlit("0");
    reveal_strlit("true");
    reveal_strlit("yes");
    reveal_strlit("on");
    reveal_strlit("false");
    reveal_strlit("no");
    reveal_strlit("off");
    let t = crate::settings::bool_text(b);
    lemma_trim_noop(t);
    assert(crate::text::lower(t) =~= t);
}

/// A count written in decimal reads back as itself, whatever the default.
proof fn lemma_count_text_reads_back(n: nat, default: nat)
    requires
        n <= usize::MAX,
    ensures
        crate::settings::spec_env_usize_or(Some(crate::num::decimal(n)), default) == n,
{
    let d = crate::num::decimal(n);
    crate::num::lemma_decimal(n);
    assert(crate::num::is_radix_digit(d[0], 10));
    assert(crate::num::is_radix_digit(d.last(), 10));
    lemma_trim_noop(d);
    crate::num::lemma_parse_decimal(n, usize::MAX as nat);
}


/// One write to the environment: set or remove a variable.
pub open spec fn apply_env_write(
    m: Map<BackgroundTaskEnvKey, Seq<char>>,
    w: (BackgroundTaskEnvKey, Option<Seq<char>>),
) -> Map<BackgroundTaskEnvKey, Seq<char>> {
    match w.1 {
        Some(v) => m.insert(w.0, v),
        None => m.remove(w.0),
    }
}

/// The environment after the writes, made in order.
pub open spec fn apply_env_writes(
    m: Map<BackgroundTaskEnvKey, Seq<char>>,
    ws: Seq<(BackgroundTaskEnvKey, Option<Seq<char>>)>,
) -> Map<BackgroundTaskEnvKey, Seq<char>>
    decreases ws.len(),
{
    if ws.len() == 0 {
        m
    } else {
        apply_env_writes(apply_env_write(m, ws[0]), ws.drop_first())
    }
}

pub open spec fn env_value(m: Map<BackgroundTaskEnvKey, Seq<char>>, k: BackgroundTaskEnvKey) -> Option<
    Seq<char>,
> {
    if m.dom().contains(k) {
        Some(m[k])
    } else {
        None
    }
}

/// The variables held as text (the interval variables are read by the
/// service's interval parser instead).
pub open spec fn is_text_key(k: BackgroundTaskEnvKey) -> bool {
    !(k is UsagePollIntervalSecs || k is GatewayKeepaliveIntervalSecs
        || k is TokenRefreshPollIntervalSecs)
}

/// The text of a variable as read for a reload.
pub open spec fn env_text(e: BackgroundTasksEnv, k: BackgroundTaskEnvKey) -> Option<Seq<char>> {
    match k {
        BackgroundTaskEnvKey::UsagePollingEnabled => opt_view(e.usage_polling_enabled),
        BackgroundTaskEnvKey::DisablePolling => opt_view(e.disable_polling),
        BackgroundTaskEnvKey::GatewayKeepaliveEnabled => opt_view(e.gateway_keepalive_enabled),
        BackgroundTaskEnvKey::TokenRefreshPollingEnabled => opt_view(e.token_refresh_polling_enabled),
        BackgroundTaskEnvKey::UsageRefreshWorkers => opt_view(e.usage_refresh_workers),
        BackgroundTaskEnvKey::HttpWorkerFactor => opt_view(e.http_worker_factor),
        BackgroundTaskEnvKey::HttpWorkerMin => opt_view(e.http_worker_min),
        BackgroundTaskEnvKey::HttpStreamWorkerFactor => opt_view(e.http_stream_worker_factor),
        BackgroundTaskEnvKey::HttpStreamWorkerMin => opt_view(e.http_stream_worker_min),
        BackgroundTaskEnvKey::AutoWarmupAfterQuotaRefreshEnabled => opt_view(
            e.auto_warmup_after_quota_refresh_enabled,
        ),
        BackgroundTaskEnvKey::WarmupCronEnabled => opt_view(e.warmup_cron_enabled),
        BackgroundTaskEnvKey::WarmupCronExpression => opt_view(e.warmup_cron_expression),
        _ => None,
    }
}

proof fn lemma_apply_concat(
    m: Map<BackgroundTaskEnvKey, Seq<char>>,
    a: Seq<(BackgroundTaskEnvKey, Option<Seq<char>>)>,
    b: Seq<(BackgroundTaskEnvKey, Option<Seq<char>>)>,
)
    ensures
        apply_env_writes(m, a + b) == apply_env_writes(apply_env_writes(m, a), b),
    decreases a.len(),
{
    if a.len() > 0 {
        lemma_apply_concat(apply_env_write(m, a[0]), a.drop_first(), b);
        assert((a + b).drop_first() =~= a.drop_first() + b);
        assert((a + b)[0] == a[0]);
    } else {
        assert(a + b =~= b);
    }
}

/// The last write to `k` among `ws`, if any.
pub open spec fn last_write(ws: Seq<(BackgroundTaskEnvKey, Option<Seq<char>>)>, k: BackgroundTaskEnvKey) -> Option<
    Option<Seq<char>>,
>
    decreases ws.len(),
{
    if ws.len() == 0 {
        None
    } else if ws.last().0 == k {
        Some(ws.last().1)
    } else {
        last_write(ws.drop_last(), k)
    }
}

pub open spec fn or_write(
    x: Option<Option<Seq<char>>>,
    y: Option<Option<Seq<char>>>,
) -> Option<Option<Seq<char>>> {
    match x {
        Some(v) => Some(v),
        None => y,
    }
}

/// A variable holds what its last write left, or what it held before.
proof fn lemma_apply_last_write(
    m: Map<BackgroundTaskEnvKey, Seq<char>>,
    ws: Seq<(BackgroundTaskEnvKey, Option<Seq<char>>)>,
    k: BackgroundTaskEnvKey,
)
    ensures
        env_value(apply_env_writes(m, ws), k) == match last_write(ws, k) {
            Some(v) => v,
            None => env_value(m, k),
        },
    decreases ws.len(),
{
    reveal_with_fuel(apply_env_writes, 2);
    if ws.len() > 0 {
        let init = ws.drop_last();
        let w = ws.last();
        lemma_apply_concat(m, init, seq![w]);
        assert(init + seq![w] =~= ws);
        lemma_apply_last_write(m, init, k);
        let mid = apply_env_writes(m, init);
        assert(seq![w].drop_first() =~= Seq::<(BackgroundTaskEnvKey, Option<Seq<char>>)>::empty());
        assert(apply_env_writes(mid, seq![w]) == apply_env_write(mid, w));
    }
}

proof fn lemma_last_write_concat(
    a: Seq<(BackgroundTaskEnvKey, Option<Seq<char>>)>,
    b: Seq<(BackgroundTaskEnvKey, Option<Seq<char>>)>,
    k: BackgroundTaskEnvKey,
)
    ensures
        last_write(a + b, k) == or_write(last_write(b, k), last_write(a, k)),
    decreases b.len(),
{
    if b.len() == 0 {
        assert(a + b =~= a);
    } else {
        assert((a + b).last() == b.last());
        assert((a + b).drop_last() =~= a + b.drop_last());
        lemma_last_write_concat(a, b.drop_last(), k);
    }
}

/// Where each variable's last write in a patch's writes comes from.
proof fn lemma_patch_last_write(
    p: BackgroundTasksSettingsPatch,
    c: BackgroundTasksConstants,
    k: BackgroundTaskEnvKey,
)
    ensures
        last_write(spec_patch_env_updates(p, c), k) == or_write(
            last_write(seg_expression(p.warmup_cron_expression), k),
            or_write(
                last_write(seg_bool(BackgroundTaskEnvKey::WarmupCronEnabled, p.warmup_cron_enabled), k),
                or_write(
                    last_write(
                        seg_bool(
                            BackgroundTaskEnvKey::AutoWarmupAfterQuotaRefreshEnabled,
                            p.auto_warmup_after_quota_refresh_enabled,
                        ),
                        k,
                    ),
                    or_write(
                        last_write(
                            seg_count(BackgroundTaskEnvKey::HttpStreamWorkerMin, p.http_stream_worker_min),
                            k,
                        ),
                        or_write(
                            last_write(
                                seg_count(
                                    BackgroundTaskEnvKey::HttpStreamWorkerFactor,
                                    p.http_stream_worker_factor,
                                ),
                                k,
                            ),
                            or_write(
                                last_write(
                                    seg_count(BackgroundTaskEnvKey::HttpWorkerMin, p.http_worker_min),
                                    k,
                                ),
                                or_write(
                                    last_write(
                                        seg_count(
                                            BackgroundTaskEnvKey::HttpWorkerFactor,
                                            p.http_worker_factor,
                                        ),
                                        k,
                                    ),
                                    or_write(
                                        last_write(
                                            seg_count(
                                                BackgroundTaskEnvKey::UsageRefreshWorkers,
                                                p.usage_refresh_workers,
                                            ),
                                            k,
                                        ),
                                        or_write(
                                            last_write(
                                                seg_interval(
                                                    BackgroundTaskEnvKey::TokenRefreshPollIntervalSecs,
                                                    p.token_refresh_poll_interval_secs,
                                                    c.min_token_refresh_poll_interval_secs,
                                                ),
                                                k,
                                            ),
                                            or_write(
                                                last_write(
                                                    seg_bool(
                                                        BackgroundTaskEnvKey::TokenRefreshPollingEnabled,
                                                        p.token_refresh_polling_enabled,
                                                    ),
                                                    k,
                                                ),
                                                or_write(
                                                    last_write(
                                                        seg_interval(
                                                            BackgroundTaskEnvKey::GatewayKeepaliveIntervalSecs,
                                                            p.gateway_keepalive_interval_secs,
                                                            c.min_gateway_keepalive_interval_secs,
                                                        ),
                                                        k,
                                                    ),
                                                    or_write(
                                                        last_write(
                                                            seg_bool(
                                                                BackgroundTaskEnvKey::GatewayKeepaliveEnabled,
                                                                p.gateway_keepalive_enabled,
                                                            ),
                                                            k,
                                                        ),
                                                        or_write(
                                                            last_write(
                                                                seg_interval(
                                                                    BackgroundTaskEnvKey::UsagePollIntervalSecs,
                                                                    p.usage_poll_interval_secs,
                                                                    c.min_usage_poll_interval_secs,
                                                                ),
                                                                k,
                                                            ),
                                                            last_write(
                                                                seg_usage_polling(p.usage_polling_enabled),
                                                                k,
                                                            ),
                                                        ),
                                                    ),
                                                ),
                                            ),
                                        ),
                                    ),
                                ),
                            ),
                        ),
                    ),
                ),
            ),
        ),
{
    let s1 = seg_usage_polling(p.usage_polling_enabled);
    let s2 = seg_interval(
        BackgroundTaskEnvKey::UsagePollIntervalSecs,
        p.usage_poll_interval_secs,
        c.min_usage_poll_interval_secs,
    );
    let s3 = seg_bool(BackgroundTaskEnvKey::GatewayKeepaliveEnabled, p.gateway_keepalive_enabled);
    let s4 = seg_interval(
        BackgroundTaskEnvKey::GatewayKeepaliveIntervalSecs,
        p.gateway_keepalive_interval_secs,
        c.min_gateway_keepalive_interval_secs,
    );
    let s5 = seg_bool(
        BackgroundTaskEnvKey::TokenRefreshPollingEnabled,
        p.token_refresh_polling_enabled,
    );
    let s6 = seg_interval(
        BackgroundTaskEnvKey::TokenRefreshPollIntervalSecs,
        p.token_refresh_poll_interval_secs,
        c.min_token_refresh_poll_interval_secs,
    );
    let s7 = seg_count(BackgroundTaskEnvKey::UsageRefreshWorkers, p.usage_refresh_workers);
    let s8 = seg_count(BackgroundTaskEnvKey::HttpWorkerFactor, p.http_worker_factor);
    let s9 = seg_count(BackgroundTaskEnvKey::HttpWorkerMin, p.http_worker_min);
    let s10 = seg_count(BackgroundTaskEnvKey::HttpStreamWorkerFactor, p.http_stream_worker_factor);
    let s11 = seg_count(BackgroundTaskEnvKey::HttpStreamWorkerMin, p.http_stream_worker_min);
    let s12 = seg_bool(
        BackgroundTaskEnvKey::AutoWarmupAfterQuotaRefreshEnabled,
        p.auto_warmup_after_quota_refresh_enabled,
    );
    let s13 = seg_bool(BackgroundTaskEnvKey::WarmupCronEnabled, p.warmup_cron_enabled);
    let s14 = seg_expression(p.warmup_cron_expression);
    let p2 = s1 + s2;
    let p3 = p2 + s3;
    let p4 = p3 + s4;
    let p5 = p4 + s5;
    let p6 = p5 + s6;
    let p7 = p6 + s7;
    let p8 = p7 + s8;
    let p9 = p8 + s9;
    let p10 = p9 + s10;
    let p11 = p10 + s11;
    let p12 = p11 + s12;
    let p13 = p12 + s13;
    assert(spec_patch_env_updates(p, c) == p13 + s14);
    lemma_last_write_concat(s1, s2, k);
    lemma_last_write_concat(p2, s3, k);
    lemma_last_write_concat(p3, s4, k);
    lemma_last_write_concat(p4, s5, k);
    lemma_last_write_concat(p5, s6, k);
    lemma_last_write_concat(p6, s7, k);
    lemma_last_write_concat(p7, s8, k);
    lemma_last_write_concat(p8, s9, k);
    lemma_last_write_concat(p9, s10, k);
    lemma_last_write_concat(p10, s11, k);
    lemma_last_write_concat(p11, s12, k);
    lemma_last_write_concat(p12, s13, k);
    lemma_last_write_concat(p13, s14, k);
}

/// The value a patch writes to each text variable (`None` when it writes none).
pub open spec fn patch_text_write(
    p: BackgroundTasksSettingsPatch,
    k: BackgroundTaskEnvKey,
) -> Option<Option<Seq<char>>> {
    let as_bool = |v: Option<bool>|
        match v {
            Some(b) => Some(Some(crate::settings::bool_text(b))),
            None => None,
        };
    let as_count = |v: Option<usize>|
        match v {
            Some(n) => Some(Some(crate::num::decimal(at_least_one(n as nat)))),
            None => None,
        };
    match k {
        BackgroundTaskEnvKey::UsagePollingEnabled => as_bool(p.usage_polling_enabled),
        BackgroundTaskEnvKey::DisablePolling => match p.usage_polling_enabled {
            Some(e) => Some(
                if e {
                    None
                } else {
                    Some("1"@)
                },
            ),
            None => None,
        },
        BackgroundTaskEnvKey::GatewayKeepaliveEnabled => as_bool(p.gateway_keepalive_enabled),
        BackgroundTaskEnvKey::TokenRefreshPollingEnabled => as_bool(p.token_refresh_polling_enabled),
        BackgroundTaskEnvKey::UsageRefreshWorkers => as_count(p.usage_refresh_workers),
        BackgroundTaskEnvKey::HttpWorkerFactor => as_count(p.http_worker_factor),
        BackgroundTaskEnvKey::HttpWorkerMin => as_count(p.http_worker_min),
        BackgroundTaskEnvKey::HttpStreamWorkerFactor => as_count(p.http_stream_worker_factor),
        BackgroundTaskEnvKey::HttpStreamWorkerMin => as_count(p.http_stream_worker_min),
        BackgroundTaskEnvKey::AutoWarmupAfterQuotaRefreshEnabled => as_bool(
            p.auto_warmup_after_quota_refresh_enabled,
        ),
        BackgroundTaskEnvKey::WarmupCronEnabled => as_bool(p.warmup_cron_enabled),
        BackgroundTaskEnvKey::WarmupCronExpression => match p.warmup_cron_expression {
            Some(x) => Some(Some(trim(x@))),
            None => None,
        },
        _ => None,
    }
}

proof fn lemma_lw_bool(key: BackgroundTaskEnvKey, v: Option<bool>, k: BackgroundTaskEnvKey)
    ensures
        last_write(seg_bool(key, v), k) == if k == key && v is Some {
            Some(Some(crate::settings::bool_text(v.unwrap())))
        } else {
            None
        },
{
    reveal_with_fuel(last_write, 2);
}

proof fn lemma_lw_count(key: BackgroundTaskEnvKey, v: Option<usize>, k: BackgroundTaskEnvKey)
    ensures
        last_write(seg_count(key, v), k) == if k == key && v is Some {
            Some(Some(crate::num::decimal(at_least_one(v.unwrap() as nat))))
        } else {
            None
        },
{
    reveal_with_fuel(last_write, 2);
}

proof fn lemma_lw_interval(key: BackgroundTaskEnvKey, v: Option<u64>, min: u64, k: BackgroundTaskEnvKey)
    requires
        k != key,
    ensures
        last_write(seg_interval(key, v, min), k) is None,
{
    reveal_with_fuel(last_write, 2);
}

proof fn lemma_lw_expression(v: Option<String>, k: BackgroundTaskEnvKey)
    ensures
        last_write(seg_expression(v), k) == if k == BackgroundTaskEnvKey::WarmupCronExpression
            && v is Some {
            Some(Some(trim(v.unwrap()@)))
        } else {
            None
        },
{
    reveal_with_fuel(last_write, 2);
}

proof fn lemma_lw_usage_polling(v: Option<bool>, k: BackgroundTaskEnvKey)
    ensures
        last_write(seg_usage_polling(v), k) == if v is Some && k
            == BackgroundTaskEnvKey::UsagePollingEnabled {
            Some(Some(crate::settings::bool_text(v.unwrap())))
        } else if v is Some && k == BackgroundTaskEnvKey::DisablePolling {
            Some(
                if v.unwrap() {
                    None
                } else {
                    Some("1"@)
                },
            )
        } else {
            None
        },
{
    reveal_with_fuel(last_write, 3);
}

proof fn lemma_patch_text_write(
    p: BackgroundTasksSettingsPatch,
    c: BackgroundTasksConstants,
    k: BackgroundTaskEnvKey,
)
    requires
        is_text_key(k),
    ensures
        last_write(spec_patch_env_updates(p, c), k) == patch_text_write(p, k),
{
    lemma_patch_last_write(p, c, k);
    lemma_lw_usage_polling(p.usage_polling_enabled, k);
    lemma_lw_interval(
        BackgroundTaskEnvKey::UsagePollIntervalSecs,
        p.usage_poll_interval_secs,
        c.min_usage_poll_interval_secs,
        k,
    );
    lemma_lw_bool(BackgroundTaskEnvKey::GatewayKeepaliveEnabled, p.gateway_keepalive_enabled, k);
    lemma_lw_interval(
        BackgroundTaskEnvKey::GatewayKeepaliveIntervalSecs,
        p.gateway_keepalive_interval_secs,
        c.min_gateway_keepalive_interval_secs,
        k,
    );
    lemma_lw_bool(
        BackgroundTaskEnvKey::TokenRefreshPollingEnabled,
        p.token_refresh_polling_enabled,
        k,
    );
    lemma_lw_interval(
        BackgroundTaskEnvKey::TokenRefreshPollIntervalSecs,
        p.token_refresh_poll_interval_secs,
        c.min_token_refresh_poll_interval_secs,
        k,
    );
    lemma_lw_count(BackgroundTaskEnvKey::UsageRefreshWorkers, p.usage_refresh_workers, k);
    lemma_lw_count(BackgroundTaskEnvKey::HttpWorkerFactor, p.http_worker_factor, k);
    lemma_lw_count(BackgroundTaskEnvKey::HttpWorkerMin, p.http_worker_min, k);
    lemma_lw_count(BackgroundTaskEnvKey::HttpStreamWorkerFactor, p.http_stream_worker_factor, k);
    lemma_lw_count(BackgroundTaskEnvKey::HttpStreamWorkerMin, p.http_stream_worker_min, k);
    lemma_lw_bool(
        BackgroundTaskEnvKey::AutoWarmupAfterQuotaRefreshEnabled,
        p.auto_warmup_after_quota_refresh_enabled,
        k,
    );
    lemma_lw_bool(BackgroundTaskEnvKey::WarmupCronEnabled, p.warmup_cron_enabled, k);
    lemma_lw_expression(p.warmup_cron_expression, k);
    match k {
        BackgroundTaskEnvKey::UsagePollingEnabled => {},
        BackgroundTaskEnvKey::DisablePolling => {},
        BackgroundTaskEnvKey::GatewayKeepaliveEnabled => {},
        BackgroundTaskEnvKey::TokenRefreshPollingEnabled => {},
        BackgroundTaskEnvKey::UsageRefreshWorkers => {},
        BackgroundTaskEnvKey::HttpWorkerFactor => {},
        BackgroundTaskEnvKey::HttpWorkerMin => {},
        BackgroundTaskEnvKey::HttpStreamWorkerFactor => {},
        BackgroundTaskEnvKey::HttpStreamWorkerMin => {},
        BackgroundTaskEnvKey::AutoWarmupAfterQuotaRefreshEnabled => {},
        BackgroundTaskEnvKey::WarmupCronEnabled => {},
        BackgroundTaskEnvKey::WarmupCronExpression => {},
        _ => {},
    }
}

/// What a patch writes to the environment is read back by a reload as the
/// patched settings: reloading from the environment after the patch's writes
/// gives every switch, count and the schedule expression the patch set the
/// value it was patched to.
pub proof fn law_patch_writes_reload_to_patched(
    old: BackgroundTasksRuntime,
    new: BackgroundTasksRuntime,
    p: BackgroundTasksSettingsPatch,
    c: BackgroundTasksConstants,
    before: Map<BackgroundTaskEnvKey, Seq<char>>,
    e: BackgroundTasksEnv,
    r: BackgroundTasksRuntime,
)
    requires
        spec_patched(new, old, p, c),
        forall|k: BackgroundTaskEnvKey|
            is_text_key(k) ==> #[trigger] env_text(e, k) == env_value(
                apply_env_writes(before, spec_patch_env_updates(p, c)),
                k,
            ),
        spec_reloaded(r, e, c),
    ensures
        p.usage_polling_enabled is Some ==> r.usage_polling_enabled == new.usage_polling_enabled,
        p.gateway_keepalive_enabled is Some ==> r.gateway_keepalive_enabled
            == new.gateway_keepalive_enabled,
        p.token_refresh_polling_enabled is Some ==> r.token_refresh_polling_enabled
            == new.token_refresh_polling_enabled,
        p.usage_refresh_workers is Some ==> r.usage_refresh_workers == new.usage_refresh_workers,
        p.http_worker_factor is Some ==> r.http_worker_factor == new.http_worker_factor,
        p.http_worker_min is Some ==> r.http_worker_min == new.http_worker_min,
        p.http_stream_worker_factor is Some ==> r.http_stream_worker_factor
            == new.http_stream_worker_factor,
        p.http_stream_worker_min is Some ==> r.http_stream_worker_min == new.http_stream_worker_min,
        p.auto_warmup_after_quota_refresh_enabled is Some ==> r.auto_warmup_after_quota_refresh_enabled
            == new.auto_warmup_after_quota_refresh_enabled,
        p.warmup_cron_enabled is Some ==> r.warmup_cron_enabled == new.warmup_cron_enabled,
        p.warmup_cron_expression is Some ==> slot_text(r.warmup_cron_expression) == slot_text(
            new.warmup_cron_expression,
        ),
{
    let u = spec_patch_env_updates(p, c);
    assert forall|k: BackgroundTaskEnvKey| is_text_key(k) && #[trigger] patch_text_write(p, k) is Some
        implies env_text(e, k) == patch_text_write(p, k).unwrap() by {
        lemma_apply_last_write(before, u, k);
        lemma_patch_text_write(p, c, k);
    }
    if let Some(b) = p.usage_polling_enabled {
        assert(patch_text_write(p, BackgroundTaskEnvKey::UsagePollingEnabled) == Some(
            Some(crate::settings::bool_text(b)),
        ));
        assert(env_text(e, BackgroundTaskEnvKey::UsagePollingEnabled) == Some(crate::settings::bool_text(b)));
        lemma_bool_text_reads_back(b, e.disable_polling is None);
    }
    if let Some(b) = p.gateway_keepalive_enabled {
        assert(patch_text_write(p, BackgroundTaskEnvKey::GatewayKeepaliveEnabled) == Some(
            Some(crate::settings::bool_text(b)),
        ));
        assert(env_text(e, BackgroundTaskEnvKey::GatewayKeepaliveEnabled) == Some(crate::settings::bool_text(b)));
        lemma_bool_text_reads_back(b, true);
    }
    if let Some(b) = p.token_refresh_polling_enabled {
        assert(patch_text_write(p, BackgroundTaskEnvKey::TokenRefreshPollingEnabled) == Some(
            Some(crate::settings::bool_text(b)),
        ));
        assert(env_text(e, BackgroundTaskEnvKey::TokenRefreshPollingEnabled) == Some(crate::settings::bool_text(b)));
        lemma_bool_text_reads_back(b, true);
    }
    if let Some(b) = p.auto_warmup_after_quota_refresh_enabled {
        assert(patch_text_write(p, BackgroundTaskEnvKey::AutoWarmupAfterQuotaRefreshEnabled) == Some(
            Some(crate::settings::bool_text(b)),
        ));
        assert(env_text(e, BackgroundTaskEnvKey::AutoWarmupAfterQuotaRefreshEnabled) == Some(crate::settings::bool_text(b)));
        lemma_bool_text_reads_back(b, false);
    }
    if let Some(b) = p.warmup_cron_enabled {
        assert(patch_text_write(p, BackgroundTaskEnvKey::WarmupCronEnabled) == Some(
            Some(crate::settings::bool_text(b)),
        ));
        assert(env_text(e, BackgroundTaskEnvKey::WarmupCronEnabled) == Some(crate::settings::bool_text(b)));
        lemma_bool_text_reads_back(b, false);
    }
    if let Some(n) = p.usage_refresh_workers {
        assert(patch_text_write(p, BackgroundTaskEnvKey::UsageRefreshWorkers) == Some(
            Some(crate::num::decimal(at_least_one(n as nat))),
        ));
        assert(env_text(e, BackgroundTaskEnvKey::UsageRefreshWorkers) == Some(
            crate::num::decimal(at_least_one(n as nat)),
        ));
        lemma_count_text_reads_back(at_least_one(n as nat), c.default_usage_refresh_workers as nat);
    }
    if let Some(n) = p.http_worker_factor {
        assert(patch_text_write(p, BackgroundTaskEnvKey::HttpWorkerFactor) == Some(
            Some(crate::num::decimal(at_least_one(n as nat))),
        ));
        assert(env_text(e, BackgroundTaskEnvKey::HttpWorkerFactor) == Some(
            crate::num::decimal(at_least_one(n as nat)),
        ));
        lemma_count_text_reads_back(at_least_one(n as nat), c.default_http_worker_factor as nat);
    }
    if let Some(n) = p.http_worker_min {
        assert(patch_text_write(p, BackgroundTaskEnvKey::HttpWorkerMin) == Some(
            Some(crate::num::decimal(at_least_one(n as nat))),
        ));
        assert(env_text(e, BackgroundTaskEnvKey::HttpWorkerMin) == Some(
            crate::num::decimal(at_least_one(n as nat)),
        ));
        lemma_count_text_reads_back(at_least_one(n as nat), c.default_http_worker_min as nat);
    }
    if let Some(n) = p.http_stream_worker_factor {
        assert(patch_text_write(p, BackgroundTaskEnvKey::HttpStreamWorkerFactor) == Some(
            Some(crate::num::decimal(at_least_one(n as nat))),
        ));
        assert(env_text(e, BackgroundTaskEnvKey::HttpStreamWorkerFactor) == Some(
            crate::num::decimal(at_least_one(n as nat)),
        ));
        lemma_count_text_reads_back(
            at_least_one(n as nat),
            c.default_http_stream_worker_factor as nat,
        );
    }
    if let Some(n) = p.http_stream_worker_min {
        assert(patch_text_write(p, BackgroundTaskEnvKey::HttpStreamWorkerMin) == Some(
            Some(crate::num::decimal(at_least_one(n as nat))),
        ));
        assert(env_text(e, BackgroundTaskEnvKey::HttpStreamWorkerMin) == Some(
            crate::num::decimal(at_least_one(n as nat)),
        ));
        lemma_count_text_reads_back(at_least_one(n as nat), c.default_http_stream_worker_min as nat);
    }
    if let Some(x) = p.warmup_cron_expression {
        assert(patch_text_write(p, BackgroundTaskEnvKey::WarmupCronExpression) == Some(
            Some(trim(x@)),
        ));
        assert(env_text(e, BackgroundTaskEnvKey::WarmupCronExpression) == Some(trim(x@)));
        lemma_trim_idempotent(x@);
    }
}


/// A bypass list holding the rule `*` exempts every target host and port.
pub proof fn law_star_rule_bypasses_everything(
    host: Seq<char>,
    port: Option<u16>,
    raw_rules: Seq<char>,
    i: int,
)
    requires
        0 <= i < split(raw_rules, Sep::CommaOrSemicolon).len(),
        trim(split(raw_rules, Sep::CommaOrSemicolon)[i]) == "*"@,
    ensures
        crate::proxy::spec_bypass_matches_host(host, port, raw_rules),
{
    reveal_strlit("*");
    let star = "*"@;
    lemma_trim_noop(star);
    assert(crate::text::trim_char_start(star, '"') == star);
    assert(crate::text::trim_char_end(star, '"') == star);
    assert(crate::text::trim_char_start(star, '\'') == star);
    assert(crate::text::trim_char_end(star, '\'') == star);
    assert(crate::proxy::spec_rule_matches(star, host, port));
    let pieces = split(raw_rules, Sep::CommaOrSemicolon);
    assert(trim(pieces[i]).len() > 0 && crate::proxy::spec_rule_matches(trim(pieces[i]), host, port));
}


/// Every proxy address taken from the environment is one that reqwest accepts
/// as a proxy. (A Windows `socks=host:port` entry is passed on as
/// `socks5h://host:port` without that check, so the system proxy is left out.)
pub proof fn law_env_proxy_is_accepted(values: Seq<Option<Seq<char>>>)
    ensures
        crate::proxy::scan_env_proxies(values) matches Some(u) ==> crate::proxy::proxy_url_accepted(u),
    decreases values.len(),
{
    if values.len() > 0 {
        law_env_proxy_is_accepted(values.drop_first());
    }
}


// ---------------------------------------------------------------------------
// Bypass lists.

proof fn lemma_next_sep_prefix(a: Seq<char>, c: char, b: Seq<char>, sep: Sep, i: int)
    requires
        0 <= i <= a.len(),
        crate::text::sep_matches(sep, c),
    ensures
        crate::text::next_sep(a + seq![c] + b, sep, i) == crate::text::next_sep(a, sep, i),
    decreases a.len() - i,
{
    let s = a + seq![c] + b;
    if i < a.len() {
        assert(s[i] == a[i]);
        lemma_next_sep_prefix(a, c, b, sep, i + 1);
    } else {
        assert(s[i] == c);
    }
}

proof fn lemma_next_sep_shift(p: Seq<char>, b: Seq<char>, sep: Sep, k: int)
    requires
        0 <= k <= b.len(),
    ensures
        crate::text::next_sep(p + b, sep, k + p.len()) == crate::text::next_sep(b, sep, k) + p.len(),
    decreases b.len() - k,
{
    let s = p + b;
    if k < b.len() {
        assert(s[k + p.len()] == b[k]);
        lemma_next_sep_shift(p, b, sep, k + 1);
    }
}

proof fn lemma_split_shift(p: Seq<char>, b: Seq<char>, sep: Sep, k: int)
    requires
        0 <= k <= b.len(),
    ensures
        crate::text::split_from(p + b, sep, k + p.len()) == crate::text::split_from(b, sep, k),
    decreases b.len() - k,
{
    let s = p + b;
    lemma_next_sep_shift(p, b, sep, k);
    crate::text::lemma_next_sep(b, sep, k);
    let j = crate::text::next_sep(b, sep, k);
    if j >= b.len() {
        assert(s.subrange(k + p.len(), s.len() as int) =~= b.subrange(k, b.len() as int));
    } else {
        assert(s.subrange(k + p.len(), j + p.len()) =~= b.subrange(k, j));
        lemma_split_shift(p, b, sep, j + 1);
    }
}

proof fn lemma_split_concat_from(a: Seq<char>, c: char, b: Seq<char>, sep: Sep, i: int)
    requires
        0 <= i <= a.len(),
        crate::text::sep_matches(sep, c),
    ensures
        crate::text::split_from(a + seq![c] + b, sep, i) == crate::text::split_from(a, sep, i) + split(
            b,
            sep,
        ),
    decreases a.len() - i,
{
    let s = a + seq![c] + b;
    let n = a.len() as int;
    lemma_next_sep_prefix(a, c, b, sep, i);
    crate::text::lemma_next_sep(a, sep, i);
    let j = crate::text::next_sep(a, sep, i);
    assert(s.subrange(i, j) =~= a.subrange(i, j));
    if j < n {
        lemma_split_concat_from(a, c, b, sep, j + 1);
        assert(crate::text::split_from(s, sep, i) =~= seq![a.subrange(i, j)] + (crate::text::split_from(
            a,
            sep,
            j + 1,
        ) + split(b, sep)));
    } else {
        let p = a + seq![c];
        assert(s =~= p + b);
        lemma_split_shift(p, b, sep, 0);
        assert(crate::text::split_from(s, sep, i) =~= seq![a.subrange(i, n)] + split(b, sep));
    }
}

/// Splitting rules joined by a separator gives the rules of each part in turn.
proof fn lemma_split_concat(a: Seq<char>, c: char, b: Seq<char>, sep: Sep)
    requires
        crate::text::sep_matches(sep, c),
    ensures
        split(a + seq![c] + b, sep) == split(a, sep) + split(b, sep),
{
    lemma_split_concat_from(a, c, b, sep, 0);
}

/// A bypass list joined from two lists with `;` or `,` exempts a host exactly
/// when one of the two lists does.
pub proof fn law_bypass_list_is_union(
    host: Seq<char>,
    port: Option<u16>,
    a: Seq<char>,
    b: Seq<char>,
    c: char,
)
    requires
        c == ';' || c == ',',
    ensures
        crate::proxy::spec_bypass_matches_host(host, port, a + seq![c] + b) == (
        crate::proxy::spec_bypass_matches_host(host, port, a)
            || crate::proxy::spec_bypass_matches_host(host, port, b)),
{
    let sep = Sep::CommaOrSemicolon;
    lemma_split_concat(a, c, b, sep);
    let pa = split(a, sep);
    let pb = split(b, sep);
    let ps = pa + pb;
    if crate::proxy::spec_bypass_matches_host(host, port, a + seq![c] + b) {
        let i = choose|i: int| 0 <= i < ps.len() && trim(#[trigger] ps[i]).len() > 0
            && crate::proxy::spec_rule_matches(trim(ps[i]), host, port);
        if i < pa.len() {
            assert(ps[i] == pa[i]);
        } else {
            assert(ps[i] == pb[i - pa.len()]);
        }
    }
    if crate::proxy::spec_bypass_matches_host(host, port, a) {
        let i = choose|i: int| 0 <= i < pa.len() && trim(#[trigger] pa[i]).len() > 0
            && crate::proxy::spec_rule_matches(trim(pa[i]), host, port);
        assert(ps[i] == pa[i]);
    }
    if crate::proxy::spec_bypass_matches_host(host, port, b) {
        let i = choose|i: int| 0 <= i < pb.len() && trim(#[trigger] pb[i]).len() > 0
            && crate::proxy::spec_rule_matches(trim(pb[i]), host, port);
        assert(ps[i + pa.len()] == pb[i]);
    }
}


proof fn lemma_trim_blank(x: Seq<char>)
    requires
        forall|k: int| 0 <= k < x.len() ==> is_ws(#[trigger] x[k]),
    ensures
        trim(x).len() == 0,
{
    crate::text::lemma_trim_start_skip(x, x.len() as int);
    assert(x.skip(x.len() as int) =~= Seq::<char>::empty());
}

proof fn lemma_blank_pieces(s: Seq<char>, i: int)
    requires
        0 <= i <= s.len(),
        forall|k: int| 0 <= k < s.len() ==> is_ws(#[trigger] s[k]) || s[k] == ',' || s[k] == ';',
    ensures
        forall|k: int|
            0 <= k < crate::text::split_from(s, Sep::CommaOrSemicolon, i).len() ==> trim(
                #[trigger] crate::text::split_from(s, Sep::CommaOrSemicolon, i)[k],
            ).len() == 0,
    decreases s.len() - i,
{
    let sep = Sep::CommaOrSemicolon;
    crate::text::lemma_next_sep(s, sep, i);
    let j = crate::text::next_sep(s, sep, i);
    let first = s.subrange(i, j);
    assert forall|k: int| 0 <= k < first.len() implies is_ws(#[trigger] first[k]) by {
        assert(first[k] == s[i + k]);
        assert(!crate::text::sep_matches(sep, s[i + k]));
    }
    lemma_trim_blank(first);
    if j < s.len() {
        lemma_blank_pieces(s, j + 1);
        let rest = crate::text::split_from(s, sep, j + 1);
        let all = crate::text::split_from(s, sep, i);
        assert(all =~= seq![first] + rest);
        assert forall|k: int| 0 <= k < all.len() implies trim(#[trigger] all[k]).len() == 0 by {
            if k > 0 {
                assert(all[k] == rest[k - 1]);
            }
        }
    }
}

/// A bypass list made only of white space, `,` and `;` exempts nothing.
pub proof fn law_blank_bypass_list_exempts_nothing(host: Seq<char>, port: Option<u16>, raw: Seq<char>)
    requires
        forall|k: int| 0 <= k < raw.len() ==> is_ws(#[trigger] raw[k]) || raw[k] == ',' || raw[k]
            == ';',
    ensures
        !crate::proxy::spec_bypass_matches_host(host, port, raw),
{
    lemma_blank_pieces(raw, 0);
}


// ---------------------------------------------------------------------------
// Proxy addresses.

proof fn lemma_trim_start_keeps_out(x: Seq<char>, c: char)
    requires
        !x.contains(c),
    ensures
        !trim_start(x).contains(c),
    decreases x.len(),
{
    if x.len() > 0 && is_ws(x[0]) {
        assert forall|k: int| 0 <= k < x.drop_first().len() implies x.drop_first()[k] != c by {
            assert(x.drop_first()[k] == x[k + 1]);
        }
        lemma_trim_start_keeps_out(x.drop_first(), c);
    }
}

proof fn lemma_trim_end_keeps_out(x: Seq<char>, c: char)
    requires
        !x.contains(c),
    ensures
        !trim_end(x).contains(c),
    decreases x.len(),
{
    if x.len() > 0 && is_ws(x.last()) {
        assert forall|k: int| 0 <= k < x.drop_last().len() implies x.drop_last()[k] != c by {
            assert(x.drop_last()[k] == x[k]);
        }
        lemma_trim_end_keeps_out(x.drop_last(), c);
    }
}

proof fn lemma_trim_char_noop(x: Seq<char>, c: char)
    requires
        !x.contains(c),
    ensures
        crate::text::trim_char(x, c) == x,
{
    if x.len() > 0 {
        assert(x[0] != c);
        assert(x.last() != c);
    }
}

/// Normalizing an accepted proxy address again gives it back (for addresses
/// written without quote characters, which normalization would strip).
pub proof fn law_normalize_proxy_is_idempotent(raw: Seq<char>, u: Seq<char>)
    requires
        !raw.contains('"'),
        !raw.contains('\''),
        crate::proxy::spec_normalize_proxy(raw) == Some(u),
    ensures
        crate::proxy::spec_normalize_proxy(u) == Some(u),
{
    reveal_strlit("://");
    reveal_strlit("http://");
    let t0 = trim(raw);
    lemma_trim_start_keeps_out(raw, '"');
    lemma_trim_end_keeps_out(trim_start(raw), '"');
    lemma_trim_start_keeps_out(raw, '\'');
    lemma_trim_end_keeps_out(trim_start(raw), '\'');
    lemma_trim_char_noop(t0, '"');
    lemma_trim_char_noop(t0, '\'');
    lemma_trim_idempotent(raw);
    let v = t0;
    assert(trim(crate::text::trim_char(crate::text::trim_char(trim(raw), '"'), '\'')) == v);
    assert(v.len() > 0);
    lemma_trim_start_first(raw);
    lemma_trim_end_prefix(trim_start(raw));
    if crate::text::contains(v, "://"@) {
        assert(u == v);
        lemma_trim_char_noop(u, '"');
        lemma_trim_char_noop(u, '\'');
    } else {
        let h = "http://"@;
        assert(u == h + v);
        assert(u[0] == 'h');
        assert(u.last() == v.last());
        assert(v[0] == trim_start(raw)[0]);
        lemma_trim_noop(u);
        assert forall|k: int| 0 <= k < u.len() implies u[k] != '"' && u[k] != '\'' by {
            if k >= 7 {
                assert(u[k] == v[k - 7]);
            }
        }
        lemma_trim_char_noop(u, '"');
        lemma_trim_char_noop(u, '\'');
        assert(u.subrange(4, 7) =~= "://"@);
        crate::text::lemma_find_from_finds(u, "://"@, 0, 4);
    }
}


/// Over a warmup of a list of accounts the in-flight marks end as they began:
/// the mark an attempt takes (one that was free) is given back when the
/// attempt is reported, and a skipped target takes none.
pub proof fn law_warmup_run_gives_marks_back(
    marks: Set<Seq<char>>,
    id: Seq<char>,
    event: crate::warmup::WarmupRunEvent,
)
    requires
        !marks.contains(id),
        event is Attempted,
    ensures
        crate::warmup::marks_after_event(marks.insert(id), Some(id), event) == marks,
{
    assert(marks.insert(id).remove(id) =~= marks);
}


// ---------------------------------------------------------------------------
// What single operations are for.

/// The status a usage snapshot gives an account: an account that is not
/// disabled becomes active (`usage_ok`) when usage is available, and limited
/// (`usage_limit_exhausted`) when either quota window, the primary five-hour one
/// or the secondary weekly one, is exhausted; any other unavailability leaves
/// it alone, and a disabled account (any case, surrounding space ignored) is
/// never touched.
pub proof fn law_snapshot_status_update(status: Seq<char>, a: crate::usage::Availability)
    ensures
        crate::text::lower(trim(status)) == "disabled"@ ==> crate::usage::spec_status_update(
            crate::usage::spec_status_updates_blocked(status),
            a,
        ) is None,
        crate::text::lower(trim(status)) != "disabled"@ ==> {
            let u = crate::usage::spec_status_update(
                crate::usage::spec_status_updates_blocked(status),
                a,
            );
            match a {
                crate::usage::Availability::Available => u == Some(("active"@, "usage_ok"@)),
                crate::usage::Availability::Unavailable(r) => if r@ == "usage_exhausted_primary"@
                    || r@ == "usage_exhausted_secondary"@ {
                    u == Some(("limited"@, "usage_limit_exhausted"@))
                } else {
                    u is None
                },
            }
        },
{
}

/// A boolean setting reads `1`, `true`, `yes`, `on` as true and `0`, `false`,
/// `no`, `off` as false, in any ASCII case and with surrounding white space,
/// whatever the default; any other text, or no value, gives the default.
pub proof fn law_env_bool_spellings(raw: Seq<char>, default: bool)
    ensures
        lower_trimmed_is_true_word(raw) ==> crate::settings::spec_env_bool_or(Some(raw), default),
        lower_trimmed_is_false_word(raw) ==> !crate::settings::spec_env_bool_or(Some(raw), default),
        !lower_trimmed_is_true_word(raw) && !lower_trimmed_is_false_word(raw)
            ==> crate::settings::spec_env_bool_or(Some(raw), default) == default,
        crate::settings::spec_env_bool_or(None, default) == default,
{
    reveal_strlit("1");
    reveal_strlit("true");
    reveal_strlit("yes");
    reveal_strlit("on");
    reveal_strlit("0");
    reveal_strlit("false");
    reveal_strlit("no");
    reveal_strlit("off");
    let v = crate::text::lower(trim(raw));
    if lower_trimmed_is_false_word(raw) {
        assert(v != "1"@) by {
            if v.len() == 1 {
                assert(v[0] != "1"@[0]);
            }
        }
        assert(v != "on"@) by {
            if v.len() == 2 {
                assert(v[0] != "on"@[0]);
            }
        }
        assert(v != "yes"@) by {
            if v.len() == 3 {
                assert(v[0] != "yes"@[0]);
            }
        }
        assert(v != "true"@) by {
            assert(v.len() != 4);
        }
    }
}

/// The text `1`, `true`, `yes` or `on` (lower case, trimmed).
pub open spec fn lower_trimmed_is_true_word(raw: Seq<char>) -> bool {
    let v = crate::text::lower(trim(raw));
    v == "1"@ || v == "true"@ || v == "yes"@ || v == "on"@
}

/// The text `0`, `false`, `no` or `off` (lower case, trimmed).
pub open spec fn lower_trimmed_is_false_word(raw: Seq<char>) -> bool {
    let v = crate::text::lower(trim(raw));
    v == "0"@ || v == "false"@ || v == "no"@ || v == "off"@
}

/// A failed warmup is retried after a token refresh exactly when a refresh
/// token is held (not blank) and the error, in any case, names status 401 or
/// 403, an auth error, "unauthorized" or "forbidden"; the retry step then asks
/// for the refresh, and otherwise reports the error as the outcome.
pub proof fn law_refresh_retry_rule(refresh_token: Seq<char>, err: String)
    ensures
        ({
            let e = crate::text::lower(err@);
            let auth_failure = crate::text::contains(e, "status=401"@) || crate::text::contains(
                e,
                "status=403"@,
            ) || crate::text::contains(e, "auth error"@) || crate::text::contains(
                e,
                "unauthorized"@,
            ) || crate::text::contains(e, "forbidden"@);
            let retry = trim(refresh_token).len() > 0 && auth_failure;
            &&& crate::warmup::spec_should_retry_with_refresh(refresh_token, err@) == retry
            &&& retry ==> crate::warmup::spec_retry_step(
                crate::warmup::WarmupRetryState::FirstSend,
                crate::warmup::WarmupRetryEvent::Sent(Err(err)),
                refresh_token,
            ) == (crate::warmup::WarmupRetryState::Refreshing, None::<Result<Seq<char>, Seq<char>>>)
            &&& !retry ==> crate::warmup::spec_retry_step(
                crate::warmup::WarmupRetryState::FirstSend,
                crate::warmup::WarmupRetryEvent::Sent(Err(err)),
                refresh_token,
            ).1 == Some(Err::<Seq<char>, Seq<char>>(err@))
        }),
{
}

/// Every bypass list in the environment counts: when any present list (the
/// `NO_PROXY` one or the `no_proxy` one, whichever index it has) exempts the
/// target's host and port, the target is bypassed and no proxy is chosen;
/// and a target is bypassed only when some present list exempts it.
pub proof fn law_every_bypass_list_counts(
    target_url: Seq<char>,
    env: crate::proxy::ProxyEnvironment,
    system: crate::proxy::WindowsInternetSettings,
    i: int,
)
    ensures
        ({
            let lists = crate::proxy::opt_views(env.no_proxy@);
            let exempts = |k: int|
                0 <= k < lists.len() && lists[k] is Some && match crate::proxy::spec_target_host_and_port(
                    target_url,
                ) {
                    Some((h, p)) => crate::proxy::spec_bypass_matches_host(h, p, lists[k].unwrap()),
                    None => false,
                };
            &&& exempts(i) ==> crate::proxy::spec_bypass_from_env(target_url, lists)
            &&& exempts(i) ==> crate::proxy::spec_default_proxy(target_url, env, system) is None
            &&& crate::proxy::spec_bypass_from_env(target_url, lists) ==> exists|k: int| #[trigger]
                exempts(k)
        }),
{
    let lists = crate::proxy::opt_views(env.no_proxy@);
    if crate::proxy::spec_bypass_from_env(target_url, lists) {
        let k = choose|k: int|
            0 <= k < lists.len() && (#[trigger] lists[k]) is Some && match crate::proxy::spec_target_host_and_port(
                target_url,
            ) {
                Some((h, p)) => crate::proxy::spec_bypass_matches_host(h, p, lists[k].unwrap()),
                None => false,
            };
        let exempts = |k: int|
            0 <= k < lists.len() && lists[k] is Some && match crate::proxy::spec_target_host_and_port(
                target_url,
            ) {
                Some((h, p)) => crate::proxy::spec_bypass_matches_host(h, p, lists[k].unwrap()),
                None => false,
            };
        assert(exempts(k));
    }
}

/// Without a configured token file (none, or a blank one, alike) the RPC token
/// file is `codexmanager.rpc-token` in the directory of the database: the
/// parent of the database path (the configured one resolved against the
/// executable's directory, else `codexmanager.db` there), or the executable's
/// directory when that path has no parent.
pub proof fn law_token_file_sits_by_the_database(
    configured: Option<Seq<char>>,
    configured_db_path: Option<Seq<char>>,
    exe_dir: Seq<char>,
)
    requires
        configured matches Some(raw) ==> trim(raw).len() == 0,
    ensures
        ({
            let db = match configured_db_path {
                Some(raw) if trim(raw).len() > 0 => if crate::paths::platform_path_is_absolute(
                    trim(raw),
                ) {
                    trim(raw)
                } else {
                    crate::paths::platform_path_join(exe_dir, trim(raw))
                },
                _ => crate::paths::platform_path_join(exe_dir, "codexmanager.db"@),
            };
            let dir = match crate::paths::platform_path_parent(db) {
                Some(p) => p,
                None => exe_dir,
            };
            &&& crate::paths::spec_rpc_token_file_path(configured, configured_db_path, exe_dir)
                == crate::paths::platform_path_join(dir, "codexmanager.rpc-token"@)
            &&& crate::paths::spec_rpc_token_file_path(configured, configured_db_path, exe_dir)
                == crate::paths::spec_rpc_token_file_path(None, configured_db_path, exe_dir)
        }),
{
}


/// An error that marks an account as failing authorization is one that names
/// status 401 or 403 or an auth error (any case); such an error also calls for
/// a refresh retry whenever a refresh token is held.
pub proof fn law_auth_error_marks_and_retries(refresh_token: Seq<char>, err: Seq<char>)
    ensures
        crate::warmup::spec_marks_auth_error(err) == (crate::text::contains(
            crate::text::lower(err),
            "status=401"@,
        ) || crate::text::contains(crate::text::lower(err), "status=403"@)
            || crate::text::contains(crate::text::lower(err), "auth error"@)),
        crate::warmup::spec_marks_auth_error(err) && trim(refresh_token).len() > 0
            ==> crate::warmup::spec_should_retry_with_refresh(refresh_token, err),
{
}

/// Settings written in decimal read back as the number: a count, the number
/// of snapshots to keep per account, and an interval at or above its lower
/// bound. An interval never comes out below its lower bound, and without a
/// value it is the default raised to that bound; without a value a count is
/// its default and one snapshot is kept.
pub proof fn law_numeric_settings_read_back(n: nat, default: nat, d: u64, min: u64, raw: Option<
    Seq<char>,
>)
    requires
        n <= usize::MAX,
    ensures
        crate::settings::spec_env_usize_or(Some(crate::num::decimal(n)), default) == n,
        crate::usage::spec_retain_per_account(Some(crate::num::decimal(n))) == n,
        crate::usage::spec_retain_per_account(None) == 1,
        crate::settings::spec_env_usize_or(None, default) == default,
        min <= n ==> crate::settings::spec_interval_secs(Some(crate::num::decimal(n)), d, min) == n,
        crate::settings::spec_interval_secs(raw, d, min) >= min,
        crate::settings::spec_interval_secs(None, d, min) == if d < min {
            min
        } else {
            d
        },
{
    lemma_count_text_reads_back(n, default);
    let t = crate::num::decimal(n);
    crate::num::lemma_decimal(n);
    assert(crate::num::is_radix_digit(t[0], 10));
    assert(crate::num::is_radix_digit(t.last(), 10));
    lemma_trim_noop(t);
    crate::num::lemma_parse_decimal(n, u64::MAX as nat);
}


/// `response.completed` and `response.done` end the stream; `error`,
/// `response.failed` and `response.incomplete` fail it (surrounding white space
/// ignored); no event name does both.
pub proof fn law_stream_event_kinds(v: Seq<char>)
    ensures
        trim(v) == "response.completed"@ || trim(v) == "response.done"@
            ==> crate::warmup::spec_is_terminal_event(v),
        trim(v) == "error"@ || trim(v) == "response.failed"@ || trim(v) == "response.incomplete"@
            ==> crate::warmup::spec_is_error_event(v),
        !(crate::warmup::spec_is_terminal_event(v) && crate::warmup::spec_is_error_event(v)),
{
    reveal_strlit("response.completed");
    reveal_strlit("response.done");
    reveal_strlit("error");
    reveal_strlit("response.failed");
    reveal_strlit("response.incomplete");
    assert("response.completed"@.len() == 18);
    assert("response.done"@.len() == 13);
    assert("error"@.len() == 5);
    assert("response.failed"@.len() == 15);
    assert("response.incomplete"@.len() == 19);
}

/// `localhost` (any case) and a name without a dot are local hosts, and the
/// `<local>` rule (any case) exempts exactly the local hosts, on any port.
pub proof fn law_local_rule(host: Seq<char>, port: Option<u16>)
    ensures
        crate::text::eq_ignore_case(host, "localhost"@) ==> crate::proxy::spec_is_local_host(host),
        !host.contains('.') ==> crate::proxy::spec_is_local_host(host),
        crate::proxy::spec_rule_matches("<local>"@, host, port) == crate::proxy::spec_is_local_host(
            host,
        ),
{
    reveal_strlit("<local>");
    reveal_strlit("*");
    let r = "<local>"@;
    lemma_trim_noop(r);
    assert(crate::text::trim_char_start(r, '"') == r);
    assert(crate::text::trim_char_end(r, '"') == r);
    assert(crate::text::trim_char_start(r, '\'') == r);
    assert(crate::text::trim_char_end(r, '\'') == r);
    assert(r != "*"@);
    assert(crate::text::lower(r) =~= r);
}

} // verus!
