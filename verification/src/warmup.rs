//! Account warmup: which accounts are warmed, how each attempt is judged and
//! reported, how an upstream answer stream is read, and the bookkeeping that
//! keeps two warmups of one account from running at once and one account from
//! being queued twice.
use vstd::prelude::*;
use crate::idset::AccountIdSet;
use crate::num::{parse_unsigned, push_decimal, push_signed_decimal, decimal, signed_decimal};
use crate::text::{
    append_str, append_vec, chars_of, contains, contains_str, eq_str, find, find_str, is_digit,
    is_digit_char, lower, lower_vec, seq_equal, slice_of, str_to_string, string_of, trim, trim_vec,
};

verus! {

// ---------------------------------------------------------------------------
// Fixed texts.

pub open spec fn default_warmup_message() -> Seq<char> {
    "hi"@
}

pub open spec fn fallback_warmup_message() -> Seq<char> {
    "\u{4f60}\u{597d}"@
}

pub open spec fn default_warmup_model() -> Seq<char> {
    "gpt-5.3-codex"@
}

pub open spec fn warmup_sent_message() -> Seq<char> {
    "\u{5df2}\u{53d1}\u{9001}\u{9884}\u{70ed}\u{6d88}\u{606f}"@
}

pub open spec fn warmup_failed_message() -> Seq<char> {
    "\u{9884}\u{70ed}\u{5931}\u{8d25}"@
}

pub open spec fn in_progress_message() -> Seq<char> {
    "warmup already in progress for this account"@
}

/// The message sent when the caller gives none.
pub fn default_warmup_message_text() -> (r: &'static str)
    ensures
        r@ == default_warmup_message(),
{
    proof {
        reveal_strlit("hi");
    }
    "hi"
}

/// The message retried with when the default one fails.
pub fn fallback_warmup_message_text() -> (r: &'static str)
    ensures
        r@ == fallback_warmup_message(),
{
    proof {
        reveal_strlit("\u{4f60}\u{597d}");
    }
    "\u{4f60}\u{597d}"
}

// ---------------------------------------------------------------------------
// Small judgements on texts.

/// The message to send: the trimmed one, or the default when it is blank.
pub open spec fn spec_normalize_warmup_message(message: Seq<char>) -> Seq<char> {
    if trim(message).len() == 0 {
        default_warmup_message()
    } else {
        trim(message)
    }
}

pub fn normalize_warmup_message(message: &str) -> (r: String)
    ensures
        r@ == spec_normalize_warmup_message(message@),
{
    let s = chars_of(message);
    let t = trim_vec(&s);
    if t.len() == 0 {
        str_to_string(default_warmup_message_text())
    } else {
        string_of(t.as_slice())
    }
}

/// How many leading characters of `s` are ASCII digits.
pub open spec fn digit_prefix_len(s: Seq<char>) -> nat
    decreases s.len(),
{
    if s.len() > 0 && is_digit(s[0]) {
        1 + digit_prefix_len(s.drop_first())
    } else {
        0
    }
}

/// The status code in an error message: the digits right after the first
/// `status=`, read as an `i64`; 500 when there is no marker, no digit, or the
/// number does not fit.
pub open spec fn spec_status_code_of(message: Seq<char>) -> int {
    match find(message, "status="@) {
        None => 500,
        Some(i) => {
            let rest = message.skip(i + 7);
            let digits = rest.take(digit_prefix_len(rest) as int);
            match parse_unsigned(digits, 10, i64::MAX as nat) {
                Some(v) => v as int,
                None => 500,
            }
        },
    }
}

pub proof fn lemma_digit_prefix(s: Seq<char>, i: int)
    requires
        0 <= i <= s.len(),
        forall|k: int| 0 <= k < i ==> is_digit(#[trigger] s[k]),
    ensures
        digit_prefix_len(s) == i + digit_prefix_len(s.skip(i)),
    decreases i,
{
    if i > 0 {
        lemma_digit_prefix(s.drop_first(), i - 1);
        assert(s.drop_first().skip(i - 1) =~= s.skip(i));
    } else {
        assert(s.skip(0) =~= s);
    }
}

pub fn extract_status_code_from_message(message: &str) -> (r: i64)
    ensures
        r == spec_status_code_of(message@),
{
    proof {
        reveal_strlit("status=");
    }
    let s = chars_of(message);
    let index = match find_str(&s, "status=") {
        Some(i) => i,
        None => return 500,
    };
    let start = index + 7;
    let mut end = start;
    while end < s.len() && is_digit_char(s[end])
        invariant
            start <= end <= s.len(),
            forall|k: int| start <= k < end ==> is_digit(#[trigger] s@[k]),
        decreases s.len() - end,
    {
        end += 1;
    }
    proof {
        let rest = s@.skip(start as int);
        assert forall|k: int| 0 <= k < end - start implies is_digit(#[trigger] rest[k]) by {
            assert(rest[k] == s@[start + k]);
        }
        lemma_digit_prefix(rest, end - start);
        let tail = rest.skip(end - start);
        if tail.len() > 0 {
            assert(tail[0] == s@[end as int]);
        }
        assert(digit_prefix_len(tail) == 0);
    }
    let digits = slice_of(&s, start, end);
    assert(digits@ =~= s@.skip(start as int).take(end - start));
    match crate::num::parse_unsigned_vec(&digits, 10, i64::MAX as u64) {
        Some(v) => v as i64,
        None => 500,
    }
}

pub open spec fn spec_is_terminal_event(value: Seq<char>) -> bool {
    trim(value) == "response.completed"@ || trim(value) == "response.done"@
}

pub open spec fn spec_is_error_event(value: Seq<char>) -> bool {
    trim(value) == "error"@ || trim(value) == "response.failed"@ || trim(value)
        == "response.incomplete"@
}

pub fn is_warmup_terminal_event(value: &str) -> (r: bool)
    ensures
        r == spec_is_terminal_event(value@),
{
    proof {
        reveal_strlit("response.completed");
        reveal_strlit("response.done");
    }
    let s = chars_of(value);
    let t = trim_vec(&s);
    eq_str(&t, "response.completed") || eq_str(&t, "response.done")
}

pub fn is_warmup_error_event(value: &str) -> (r: bool)
    ensures
        r == spec_is_error_event(value@),
{
    proof {
        reveal_strlit("error");
        reveal_strlit("response.failed");
        reveal_strlit("response.incomplete");
    }
    let s = chars_of(value);
    let t = trim_vec(&s);
    eq_str(&t, "error") || eq_str(&t, "response.failed") || eq_str(&t, "response.incomplete")
}

/// A failed warmup is retried after refreshing the access token when a refresh
/// token is held and the error reads as an authorization failure.
pub open spec fn spec_should_retry_with_refresh(refresh_token: Seq<char>, err: Seq<char>) -> bool {
    let e = lower(err);
    &&& trim(refresh_token).len() > 0
    &&& (contains(e, "status=401"@) || contains(e, "status=403"@) || contains(e, "auth error"@)
        || contains(e, "unauthorized"@) || contains(e, "forbidden"@))
}

pub fn should_retry_warmup_with_refresh(refresh_token: &str, err: &str) -> (r: bool)
    ensures
        r == spec_should_retry_with_refresh(refresh_token@, err@),
{
    let rt = chars_of(refresh_token);
    if trim_vec(&rt).len() == 0 {
        return false;
    }
    let e = lower_vec(&chars_of(err));
    contains_str(&e, "status=401") || contains_str(&e, "status=403") || contains_str(
        &e,
        "auth error",
    ) || contains_str(&e, "unauthorized") || contains_str(&e, "forbidden")
}

/// An error that marks the account as unavailable for an authorization problem.
pub open spec fn spec_marks_auth_error(err: Seq<char>) -> bool {
    let e = lower(err);
    contains(e, "auth error"@) || contains(e, "status=401"@) || contains(e, "status=403"@)
}

/// Whether a warmup error marks the account as failing authorization.
pub fn maybe_mark_account_auth_error(err: &str) -> (r: bool)
    ensures
        r == spec_marks_auth_error(err@),
{
    let e = lower_vec(&chars_of(err));
    contains_str(&e, "auth error") || contains_str(&e, "status=401") || contains_str(
        &e,
        "status=403",
    )
}

/// The model to warm with: the first listed model's slug unless it is blank.
pub open spec fn spec_warmup_model(first_model_slug: Option<Seq<char>>) -> Seq<char> {
    match first_model_slug {
        Some(s) => if trim(s).len() > 0 {
            s
        } else {
            default_warmup_model()
        },
        None => default_warmup_model(),
    }
}

pub fn resolve_warmup_model_slug(first_model_slug: Option<String>) -> (r: String)
    ensures
        r@ == spec_warmup_model(
            match first_model_slug {
                Some(s) => Some(s@),
                None => None,
            },
        ),
{
    proof {
        reveal_strlit("gpt-5.3-codex");
    }
    match first_model_slug {
        Some(slug) => {
            if trim_vec(&chars_of(slug.as_str())).len() > 0 {
                slug
            } else {
                str_to_string("gpt-5.3-codex")
            }
        },
        None => str_to_string("gpt-5.3-codex"),
    }
}

// ---------------------------------------------------------------------------
// The client for one account.

/// `fresh_client` answered `r` for the account id `id`.
pub open spec fn client_build_gave<C, F: Fn(&str) -> Result<C, String>>(
    fresh_client: F,
    id: Seq<char>,
    r: Result<C, String>,
) -> bool {
    exists|n: &str| #[trigger] fresh_client.ensures((n,), r) && n@ == id
}

/// The upstream client for a warmup of `account_id`: a blank id is refused;
/// otherwise `fresh_client` (the gateway's client for that account) is asked
/// with the trimmed id, and its error, if any, is prefixed.
pub fn build_warmup_client_for_account<C, F: Fn(&str) -> Result<C, String>>(
    account_id: &str,
    fresh_client: F,
) -> (r: Result<C, String>)
    requires
        forall|n: &str| fresh_client.requires((n,)),
    ensures
        trim(account_id@).len() == 0 ==> (r matches Err(e) && e@
            == "build warmup client failed: missing account id"@),
        trim(account_id@).len() > 0 ==> match r {
            Ok(c) => client_build_gave(fresh_client, trim(account_id@), Ok(c)),
            Err(e) => exists|f: String|
                client_build_gave(fresh_client, trim(account_id@), Err(f)) && e@
                    == "build warmup client failed: "@ + f@,
        },
{
    let id = trim_vec(&chars_of(account_id));
    if id.len() == 0 {
        proof {
            reveal_strlit("build warmup client failed: missing account id");
        }
        return Err(str_to_string("build warmup client failed: missing account id"));
    }
    let id_text = string_of(id.as_slice());
    let built = fresh_client(id_text.as_str());
    match built {
        Ok(c) => Ok(c),
        Err(f) => {
            proof {
                reveal_strlit("build warmup client failed: ");
            }
            let mut v = chars_of("build warmup client failed: ");
            append_str(&mut v, f.as_str());
            let e = string_of(v.as_slice());
            assert(client_build_gave(fresh_client, trim(account_id@), Err(f)));
            Err(e)
        },
    }
}

/// A 2xx status: the answer stream is read; any other status is a failure
/// summarized by [`summarize_warmup_error`].
pub fn warmup_status_is_success(status: u16) -> (r: bool)
    ensures
        r == (200 <= status && status < 300),
{
    200 <= status && status < 300
}

// ---------------------------------------------------------------------------
// Sending with a fallback message.

/// The next step after the first send of a warmup message.
pub enum WarmupSendStep {
    /// The attempt is over with this outcome.
    Done(Result<String, String>),
    /// Send again with the fallback message.
    SendFallback,
}

/// After the first send: success reports the sent message; a failure of the
/// default message asks for one more send with the fallback message; any
/// other failure is the outcome.
pub fn send_warmup_request_with_fallback(message: &str, primary: Result<(), String>) -> (r:
    WarmupSendStep)
    ensures
        match primary {
            Ok(()) => r matches WarmupSendStep::Done(Ok(m)) && m@ == warmup_sent_message(),
            Err(e) => if message@ == default_warmup_message() {
                r is SendFallback
            } else {
                r matches WarmupSendStep::Done(Err(f)) && f@ == e@
            },
        },
{
    proof {
        reveal_strlit("\u{5df2}\u{53d1}\u{9001}\u{9884}\u{70ed}\u{6d88}\u{606f}");
        reveal_strlit("hi");
    }
    match primary {
        Ok(()) => WarmupSendStep::Done(
            Ok(str_to_string("\u{5df2}\u{53d1}\u{9001}\u{9884}\u{70ed}\u{6d88}\u{606f}")),
        ),
        Err(e) => {
            if eq_str(&chars_of(message), "hi") {
                WarmupSendStep::SendFallback
            } else {
                WarmupSendStep::Done(Err(e))
            }
        },
    }
}

/// The outcome after the fallback send: success, or both errors joined.
pub fn finish_warmup_fallback(primary_err: &str, fallback: Result<(), String>) -> (r: Result<
    String,
    String,
>)
    ensures
        match fallback {
            Ok(()) => r matches Ok(m) && m@ == warmup_sent_message(),
            Err(f) => r matches Err(e) && e@ == primary_err@ + "; fallback="@ + f@,
        },
{
    proof {
        reveal_strlit("\u{5df2}\u{53d1}\u{9001}\u{9884}\u{70ed}\u{6d88}\u{606f}");
        reveal_strlit("; fallback=");
    }
    match fallback {
        Ok(()) => Ok(str_to_string("\u{5df2}\u{53d1}\u{9001}\u{9884}\u{70ed}\u{6d88}\u{606f}")),
        Err(f) => {
            let mut v = chars_of(primary_err);
            append_str(&mut v, "; fallback=");
            append_str(&mut v, f.as_str());
            Err(string_of(v.as_slice()))
        },
    }
}

// ---------------------------------------------------------------------------
// Refreshing the access token once after an authorization failure.

/// Where the warmup of one account stands.
pub enum WarmupRetryState {
    /// Waiting for the outcome of the first send (with its fallback).
    FirstSend,
    /// Waiting for the access token to be refreshed.
    Refreshing,
    /// Waiting for the outcome of the one send after the refresh.
    Resending,
}

/// What the caller reports back.
pub enum WarmupRetryEvent {
    /// A send (with its fallback) finished with this outcome.
    Sent(Result<String, String>),
    /// Refreshing the access token finished with this outcome.
    Refreshed(Result<(), String>),
}

/// What the caller does next.
pub enum WarmupRetryAction {
    /// Refresh and store the account's access token, then report.
    Refresh,
    /// Send again with the refreshed token, then report.
    Resend,
    /// The attempt is over with this outcome.
    Finish(Result<String, String>),
}

pub open spec fn retry_event_fits(state: WarmupRetryState, event: WarmupRetryEvent) -> bool {
    match state {
        WarmupRetryState::FirstSend => event is Sent,
        WarmupRetryState::Refreshing => event is Refreshed,
        WarmupRetryState::Resending => event is Sent,
    }
}

pub open spec fn outcome_view(o: Result<String, String>) -> Result<Seq<char>, Seq<char>> {
    match o {
        Ok(m) => Ok(m@),
        Err(e) => Err(e@),
    }
}

/// The refresh-and-retry rule: a successful first send is the outcome; a
/// failed one is the outcome unless the retry test holds for the refresh token
/// and the error, in which case the token is refreshed once; a failed refresh
/// is the outcome; after it succeeds, the one further send is the outcome.
pub open spec fn spec_retry_step(
    state: WarmupRetryState,
    event: WarmupRetryEvent,
    refresh_token: Seq<char>,
) -> (WarmupRetryState, Option<Result<Seq<char>, Seq<char>>>) {
    match (state, event) {
        (WarmupRetryState::FirstSend, WarmupRetryEvent::Sent(Ok(m))) => (
            WarmupRetryState::FirstSend,
            Some(Ok(m@)),
        ),
        (WarmupRetryState::FirstSend, WarmupRetryEvent::Sent(Err(e))) => if spec_should_retry_with_refresh(
            refresh_token,
            e@,
        ) {
            (WarmupRetryState::Refreshing, None)
        } else {
            (WarmupRetryState::FirstSend, Some(Err(e@)))
        },
        (WarmupRetryState::Refreshing, WarmupRetryEvent::Refreshed(Ok(()))) => (
            WarmupRetryState::Resending,
            None,
        ),
        (WarmupRetryState::Refreshing, WarmupRetryEvent::Refreshed(Err(e))) => (
            WarmupRetryState::Refreshing,
            Some(Err(e@)),
        ),
        (WarmupRetryState::Resending, WarmupRetryEvent::Sent(o)) => (
            WarmupRetryState::Resending,
            Some(outcome_view(o)),
        ),
        _ => (state, None),
    }
}

/// One step of warming an account with a refresh retry: from the state, what
/// the caller reports and the account's refresh token, the next state and
/// action. Begin in `FirstSend` with the first send's outcome; stop at
/// `Finish`. There is at most one refresh and one resend: after the resend
/// the attempt always finishes.
pub fn warmup_refresh_retry_step(
    state: WarmupRetryState,
    event: WarmupRetryEvent,
    refresh_token: &str,
) -> (r: (WarmupRetryState, WarmupRetryAction))
    requires
        retry_event_fits(state, event),
    ensures
        match spec_retry_step(state, event, refresh_token@).1 {
            Some(out) => r.1 matches WarmupRetryAction::Finish(o) && outcome_view(o) == out,
            None => {
                &&& r.0 == spec_retry_step(state, event, refresh_token@).0
                &&& (r.0 is Refreshing ==> r.1 is Refresh)
                &&& (r.0 is Resending ==> r.1 is Resend)
            },
        },
        state is Resending ==> r.1 is Finish,
        r.1 is Refresh ==> state is FirstSend,
{
    match (state, event) {
        (WarmupRetryState::FirstSend, WarmupRetryEvent::Sent(Ok(m))) => (
            WarmupRetryState::FirstSend,
            WarmupRetryAction::Finish(Ok(m)),
        ),
        (WarmupRetryState::FirstSend, WarmupRetryEvent::Sent(Err(e))) => {
            if should_retry_warmup_with_refresh(refresh_token, e.as_str()) {
                (WarmupRetryState::Refreshing, WarmupRetryAction::Refresh)
            } else {
                (WarmupRetryState::FirstSend, WarmupRetryAction::Finish(Err(e)))
            }
        },
        (WarmupRetryState::Refreshing, WarmupRetryEvent::Refreshed(Ok(()))) => (
            WarmupRetryState::Resending,
            WarmupRetryAction::Resend,
        ),
        (WarmupRetryState::Refreshing, WarmupRetryEvent::Refreshed(Err(e))) => (
            WarmupRetryState::Refreshing,
            WarmupRetryAction::Finish(Err(e)),
        ),
        (WarmupRetryState::Resending, WarmupRetryEvent::Sent(o)) => (
            WarmupRetryState::Resending,
            WarmupRetryAction::Finish(o),
        ),
        (st, _) => (st, WarmupRetryAction::Resend),
    }
}

// ---------------------------------------------------------------------------
// Marks: one warmup per account at a time, one queued task per account.

/// Marking an account id, trimmed: a blank id is never marked; otherwise the
/// id joins the set, and the mark is new exactly when it was not there.
pub open spec fn spec_mark_trimmed(marks: Set<Seq<char>>, account_id: Seq<char>) -> (Set<Seq<char>>, bool) {
    let t = trim(account_id);
    if t.len() == 0 {
        (marks, false)
    } else {
        (marks.insert(t), !marks.contains(t))
    }
}

/// Held while an account is being warmed; give it back with [`Self::release`].
pub struct WarmupAccountInFlightGuard {
    pub account_id: String,
}

impl WarmupAccountInFlightGuard {
    /// Marks the trimmed id as being warmed; `None` for a blank id or one
    /// already being warmed.
    pub fn try_acquire(in_flight: &mut AccountIdSet, account_id: &str) -> (r: Option<Self>)
        ensures
            (final(in_flight)@, r is Some) == spec_mark_trimmed(old(in_flight)@, account_id@),
            r matches Some(g) ==> g.account_id@ == trim(account_id@),
    {
        let id = trim_vec(&chars_of(account_id));
        if id.len() == 0 {
            return None;
        }
        let id_text = string_of(id.as_slice());
        if in_flight.insert(id_text.as_str()) {
            Some(WarmupAccountInFlightGuard { account_id: id_text })
        } else {
            None
        }
    }

    /// Clears the mark (what dropping the guard does).
    pub fn release(self, in_flight: &mut AccountIdSet)
        ensures
            final(in_flight)@ == old(in_flight)@.remove(self.account_id@),
    {
        in_flight.remove(self.account_id.as_str());
    }
}

/// Marks `account_id` as having a queued automatic warmup; `false` when it already had one.
pub fn mark_auto_warmup_task_pending(pending: &mut AccountIdSet, account_id: &str) -> (r: bool)
    ensures
        final(pending)@ == old(pending)@.insert(account_id@),
        r == !old(pending)@.contains(account_id@),
{
    pending.insert(account_id)
}

/// Clears the queued mark of `account_id`.
pub fn clear_auto_warmup_task_pending(pending: &mut AccountIdSet, account_id: &str)
    ensures
        final(pending)@ == old(pending)@.remove(account_id@),
{
    pending.remove(account_id);
}

/// A warmup to run in the background.
pub struct AutoWarmupTask {
    pub account_id: String,
    pub reason: String,
}

/// What became of handing a task to the bounded queue.
pub enum QueueSendOutcome {
    Sent,
    Full,
    Disconnected,
}

/// Prepares a background warmup for the trimmed id: `None` (and no change) for
/// a blank id or one already queued; otherwise the id is marked and the task to
/// queue is returned.
pub fn enqueue_auto_warmup_for_account(
    pending: &mut AccountIdSet,
    account_id: &str,
    reason: &str,
) -> (r: Option<AutoWarmupTask>)
    ensures
        (final(pending)@, r is Some) == spec_mark_trimmed(old(pending)@, account_id@),
        r matches Some(t) ==> t.account_id@ == trim(account_id@) && t.reason@ == trim(reason@),
{
    let id = trim_vec(&chars_of(account_id));
    if id.len() == 0 {
        return None;
    }
    let id_text = string_of(id.as_slice());
    if !mark_auto_warmup_task_pending(pending, id_text.as_str()) {
        return None;
    }
    let reason_text = string_of(trim_vec(&chars_of(reason)).as_slice());
    Some(AutoWarmupTask { account_id: id_text, reason: reason_text })
}

/// Settles a queue attempt: `true` when the task was queued; otherwise the
/// account's queued mark is cleared and `false` returned.
pub fn try_enqueue_auto_warmup_task(
    pending: &mut AccountIdSet,
    task: &AutoWarmupTask,
    outcome: QueueSendOutcome,
) -> (r: bool)
    ensures
        r == (outcome is Sent),
        r ==> final(pending)@ == old(pending)@,
        !r ==> final(pending)@ == old(pending)@.remove(task.account_id@),
{
    match outcome {
        QueueSendOutcome::Sent => true,
        _ => {
            clear_auto_warmup_task_pending(pending, task.account_id.as_str());
            false
        },
    }
}

// ---------------------------------------------------------------------------
// Results and records.

pub struct AccountWarmupItemResult {
    pub account_id: String,
    pub account_name: String,
    pub ok: bool,
    pub message: String,
}

pub struct AccountWarmupResult {
    pub requested: usize,
    pub succeeded: usize,
    pub failed: usize,
    pub results: Vec<AccountWarmupItemResult>,
}

pub open spec fn item_view(i: AccountWarmupItemResult) -> (Seq<char>, Seq<char>, bool, Seq<char>) {
    (i.account_id@, i.account_name@, i.ok, i.message@)
}

/// What the observability log records of one warmup.
pub struct WarmupObservation {
    pub trace_id: String,
    pub account_id: String,
    pub initial_account_id: String,
    pub request_path: String,
    pub original_path: String,
    pub adapted_path: String,
    pub method: String,
    pub request_type: String,
    pub upstream_url: String,
    /// The type of the account event recorded beside the request log.
    pub event_type: String,
    pub attempted_account_ids_json: String,
    pub model: String,
    pub status_code: i64,
    pub duration_ms: i64,
    pub error: Option<String>,
    pub event_message: String,
    pub created_at: i64,
}

/// The internal path a warmup is logged under.
pub open spec fn warmup_request_path() -> Seq<char> {
    "/internal/account/warmup"@
}

/// Where warmup requests are sent.
pub open spec fn warmup_upstream_url() -> Seq<char> {
    "https://chatgpt.com/backend-api/codex/responses"@
}

/// The upstream URL of warmup requests, as text.
pub fn warmup_upstream_url_text() -> (r: &'static str)
    ensures
        r@ == warmup_upstream_url(),
{
    proof {
        reveal_strlit("https://chatgpt.com/backend-api/codex/responses");
    }
    "https://chatgpt.com/backend-api/codex/responses"
}

/// The event text: message, model and status, and the error when there is one.
pub open spec fn spec_event_text(
    event_message: Seq<char>,
    model_slug: Seq<char>,
    status_code: i64,
    error: Option<Seq<char>>,
) -> Seq<char> {
    let base = event_message + "; model="@ + model_slug + "; status="@ + signed_decimal(
        status_code as int,
    );
    match error {
        Some(e) => base + "; error="@ + e,
        None => base,
    }
}

pub open spec fn spec_observation(
    o: WarmupObservation,
    account_id: Seq<char>,
    status_code: i64,
    error: Option<Seq<char>>,
    model_slug: Seq<char>,
    duration_ms: i64,
    event_message: Seq<char>,
    created_at: i64,
) -> bool {
    &&& o.trace_id@ == "warmup-"@ + account_id + "-"@ + signed_decimal(created_at as int)
    &&& o.account_id@ == account_id
    &&& o.initial_account_id@ == account_id
    &&& o.request_path@ == warmup_request_path()
    &&& o.original_path@ == warmup_request_path()
    &&& o.adapted_path@ == warmup_request_path()
    &&& o.method@ == "POST"@
    &&& o.request_type@ == "account_warmup"@
    &&& o.upstream_url@ == warmup_upstream_url()
    &&& o.event_type@ == "account_warmup"@
    &&& o.attempted_account_ids_json@ == "[\""@ + account_id + "\"]"@
    &&& o.model@ == model_slug
    &&& o.status_code == status_code
    &&& o.duration_ms == (if duration_ms < 0 {
        0
    } else {
        duration_ms
    })
    &&& (match o.error {
        Some(e) => error == Some(e@),
        None => error is None,
    })
    &&& o.event_message@ == spec_event_text(event_message, model_slug, status_code, error)
    &&& o.created_at == created_at
}

/// The log record of a warmup attempt made at `created_at`.
pub fn persist_warmup_observability(
    account_id: &str,
    status_code: i64,
    error: Option<&str>,
    model_slug: &str,
    duration_ms: i64,
    event_message: &str,
    created_at: i64,
) -> (o: WarmupObservation)
    ensures
        spec_observation(
            o,
            account_id@,
            status_code,
            match error {
                Some(e) => Some(e@),
                None => None,
            },
            model_slug@,
            duration_ms,
            event_message@,
            created_at,
        ),
{
    proof {
        reveal_strlit("warmup-");
        reveal_strlit("-");
        reveal_strlit("[\"");
        reveal_strlit("\"]");
        reveal_strlit("; model=");
        reveal_strlit("; status=");
        reveal_strlit("; error=");
        reveal_strlit("/internal/account/warmup");
        reveal_strlit("POST");
        reveal_strlit("account_warmup");
    }
    let mut trace = chars_of("warmup-");
    append_str(&mut trace, account_id);
    append_str(&mut trace, "-");
    push_signed_decimal(&mut trace, created_at);
    let mut ids = chars_of("[\"");
    append_str(&mut ids, account_id);
    append_str(&mut ids, "\"]");
    let mut text = chars_of(event_message);
    append_str(&mut text, "; model=");
    append_str(&mut text, model_slug);
    append_str(&mut text, "; status=");
    push_signed_decimal(&mut text, status_code);
    let err = match error {
        Some(e) => {
            append_str(&mut text, "; error=");
            append_str(&mut text, e);
            Some(str_to_string(e))
        },
        None => None,
    };
    WarmupObservation {
        trace_id: string_of(trace.as_slice()),
        account_id: str_to_string(account_id),
        initial_account_id: str_to_string(account_id),
        request_path: str_to_string("/internal/account/warmup"),
        original_path: str_to_string("/internal/account/warmup"),
        adapted_path: str_to_string("/internal/account/warmup"),
        method: str_to_string("POST"),
        request_type: str_to_string("account_warmup"),
        upstream_url: str_to_string(warmup_upstream_url_text()),
        event_type: str_to_string("account_warmup"),
        attempted_account_ids_json: string_of(ids.as_slice()),
        model: str_to_string(model_slug),
        status_code,
        duration_ms: if duration_ms < 0 {
            0
        } else {
            duration_ms
        },
        error: err,
        event_message: string_of(text.as_slice()),
        created_at,
    }
}

/// What a finished warmup of one account leads to.
pub struct WarmupReport {
    pub item: AccountWarmupItemResult,
    pub observation: WarmupObservation,
    /// Mark the account as failing authorization.
    pub mark_auth_error: bool,
    /// Queue a usage refresh for the account.
    pub enqueue_usage_refresh: bool,
}

/// Judges the final outcome of warming one account: success is logged with
/// status 200 and queues a usage refresh; failure is logged with the status
/// found in the error (500 by default) and may mark the account's
/// authorization as failing.
pub fn warmup_single_account(
    account_id: &str,
    account_name: &str,
    model_slug: &str,
    outcome: Result<String, String>,
    duration_ms: i64,
    created_at: i64,
) -> (r: WarmupReport)
    ensures
        r.item.account_id@ == account_id@,
        r.item.account_name@ == account_name@,
        match outcome {
            Ok(m) => {
                &&& r.item.ok
                &&& r.item.message@ == m@
                &&& spec_observation(
                    r.observation,
                    account_id@,
                    200,
                    None,
                    model_slug@,
                    duration_ms,
                    m@,
                    created_at,
                )
                &&& !r.mark_auth_error
                &&& r.enqueue_usage_refresh
            },
            Err(e) => {
                &&& !r.item.ok
                &&& r.item.message@ == e@
                &&& spec_observation(
                    r.observation,
                    account_id@,
                    spec_status_code_of(e@) as i64,
                    Some(e@),
                    model_slug@,
                    duration_ms,
                    warmup_failed_message(),
                    created_at,
                )
                &&& r.mark_auth_error == spec_marks_auth_error(e@)
                &&& !r.enqueue_usage_refresh
            },
        },
{
    proof {
        reveal_strlit("\u{9884}\u{70ed}\u{5931}\u{8d25}");
    }
    match outcome {
        Ok(ok_message) => {
            let observation = persist_warmup_observability(
                account_id,
                200,
                None,
                model_slug,
                duration_ms,
                ok_message.as_str(),
                created_at,
            );
            WarmupReport {
                item: AccountWarmupItemResult {
                    account_id: str_to_string(account_id),
                    account_name: str_to_string(account_name),
                    ok: true,
                    message: ok_message,
                },
                observation,
                mark_auth_error: false,
                enqueue_usage_refresh: true,
            }
        },
        Err(err) => {
            let mark = maybe_mark_account_auth_error(err.as_str());
            let status_code = extract_status_code_from_message(err.as_str());
            let observation = persist_warmup_observability(
                account_id,
                status_code,
                Some(err.as_str()),
                model_slug,
                duration_ms,
                "\u{9884}\u{70ed}\u{5931}\u{8d25}",
                created_at,
            );
            WarmupReport {
                item: AccountWarmupItemResult {
                    account_id: str_to_string(account_id),
                    account_name: str_to_string(account_name),
                    ok: false,
                    message: err,
                },
                observation,
                mark_auth_error: mark,
                enqueue_usage_refresh: false,
            }
        },
    }
}

// ---------------------------------------------------------------------------
// Warming a list of accounts.

/// An account to warm.
pub struct WarmupTarget {
    pub account_id: String,
    pub account_name: String,
}

pub open spec fn target_view(t: WarmupTarget) -> (Seq<char>, Seq<char>) {
    (t.account_id@, t.account_name@)
}

pub open spec fn targets_view(v: Seq<WarmupTarget>) -> Seq<(Seq<char>, Seq<char>)> {
    v.map_values(|t: WarmupTarget| target_view(t))
}

pub open spec fn items_view(v: Seq<AccountWarmupItemResult>) -> Seq<(Seq<char>, Seq<char>, bool, Seq<char>)> {
    v.map_values(|i: AccountWarmupItemResult| item_view(i))
}

/// The item of a target that another warmup of the same account is holding
/// (or whose id is blank).
pub open spec fn in_progress_item(t: (Seq<char>, Seq<char>)) -> (Seq<char>, Seq<char>, bool, Seq<char>) {
    (t.0, t.1, false, in_progress_message())
}

pub open spec fn count_ok(items: Seq<AccountWarmupItemResult>) -> nat
    decreases items.len(),
{
    if items.len() == 0 {
        0
    } else {
        count_ok(items.drop_last()) + if items.last().ok {
            1nat
        } else {
            0nat
        }
    }
}

proof fn lemma_count_ok_le(items: Seq<AccountWarmupItemResult>)
    ensures
        count_ok(items) <= items.len(),
    decreases items.len(),
{
    if items.len() > 0 {
        lemma_count_ok_le(items.drop_last());
    }
}

/// A warmup of a list of accounts, driven one step at a time by
/// [`warmup_accounts`] so that the caller can hold the in-flight marks' lock
/// only while a step runs, and run each account's warmup outside it.
pub struct WarmupRun {
    targets: Vec<WarmupTarget>,
    message: String,
    results: Vec<AccountWarmupItemResult>,
    succeeded: usize,
    held: Option<WarmupAccountInFlightGuard>,
    finished: bool,
}

impl WarmupRun {
    /// The targets, in order.
    pub closed spec fn targets(&self) -> Seq<(Seq<char>, Seq<char>)> {
        targets_view(self.targets@)
    }

    /// The message sent to every account (already normalized).
    pub closed spec fn message(&self) -> Seq<char> {
        self.message@
    }

    /// The items of the targets dealt with so far.
    pub closed spec fn items(&self) -> Seq<(Seq<char>, Seq<char>, bool, Seq<char>)> {
        items_view(self.results@)
    }

    /// The in-flight mark held for the target being attempted, if any.
    pub closed spec fn held_id(&self) -> Option<Seq<char>> {
        match self.held {
            Some(g) => Some(g.account_id@),
            None => None,
        }
    }

    pub closed spec fn finished(&self) -> bool {
        self.finished
    }

    /// The items follow the targets in order; the count of successes is kept;
    /// a mark is held only for the next target, by its trimmed id.
    pub closed spec fn wf(&self) -> bool {
        &&& self.results@.len() <= self.targets@.len()
        &&& self.succeeded == count_ok(self.results@)
        &&& forall|k: int|
            0 <= k < self.results@.len() ==> (#[trigger] self.results@[k]).account_id@
                == self.targets@[k].account_id@ && self.results@[k].account_name@
                == self.targets@[k].account_name@
        &&& (self.held matches Some(g) ==> self.results@.len() < self.targets@.len()
            && g.account_id@ == trim(self.targets@[self.results@.len() as int].account_id@))
        &&& (self.finished ==> self.held is None)
    }

    /// A warmup of `targets` with `message` (blank means the default message).
    pub fn new(targets: Vec<WarmupTarget>, message: &str) -> (r: Self)
        ensures
            r.wf(),
            r.targets() == targets_view(targets@),
            r.message() == spec_normalize_warmup_message(message@),
            r.items().len() == 0,
            r.held_id() is None,
            !r.finished(),
    {
        let r = WarmupRun {
            targets,
            message: normalize_warmup_message(message),
            results: Vec::new(),
            succeeded: 0,
            held: None,
            finished: false,
        };
        assert(r.results@ =~= Seq::<AccountWarmupItemResult>::empty());
        r
    }
}

/// What the caller reports to [`warmup_accounts`].
pub enum WarmupRunEvent {
    /// Start, or go on.
    Next,
    /// The warmup of the target last handed out ran (or could not start)
    /// with this result.
    Attempted { ok: bool, message: String },
}

/// What the caller does next.
pub enum WarmupRunAction {
    /// Warm this account with this message, then report `Attempted`.
    Attempt { target: WarmupTarget, message: String },
    /// The warmup of the list is over: its result, or the error when there
    /// was no account at all.
    Done(Result<AccountWarmupResult, String>),
}

/// The marks after the event: the mark of an attempted target is given back.
pub open spec fn marks_after_event(
    marks: Set<Seq<char>>,
    held: Option<Seq<char>>,
    event: WarmupRunEvent,
) -> Set<Seq<char>> {
    match (event, held) {
        (WarmupRunEvent::Attempted { .. }, Some(id)) => marks.remove(id),
        _ => marks,
    }
}

/// The items after the event: an attempted target's item is what its attempt
/// reported.
pub open spec fn items_after_event(
    items: Seq<(Seq<char>, Seq<char>, bool, Seq<char>)>,
    targets: Seq<(Seq<char>, Seq<char>)>,
    event: WarmupRunEvent,
) -> Seq<(Seq<char>, Seq<char>, bool, Seq<char>)> {
    match event {
        WarmupRunEvent::Attempted { ok, message } => items.push(
            (targets[items.len() as int].0, targets[items.len() as int].1, ok, message@),
        ),
        WarmupRunEvent::Next => items,
    }
}

/// From index `from` on, each item is the in-progress item of its target,
/// whose trimmed id was blank or already marked.
pub open spec fn skipped_from(
    items: Seq<(Seq<char>, Seq<char>, bool, Seq<char>)>,
    targets: Seq<(Seq<char>, Seq<char>)>,
    marks: Set<Seq<char>>,
    from: int,
) -> bool {
    forall|k: int|
        from <= k < items.len() ==> #[trigger] items[k] == in_progress_item(targets[k]) && (trim(
            targets[k].0,
        ).len() == 0 || marks.contains(trim(targets[k].0)))
}

/// One step of warming a list of accounts. Each target in turn takes the
/// in-flight mark of its trimmed id: a blank id, or one already marked (by
/// another warmup), gives the "warmup already in progress" item and no attempt;
/// otherwise the caller is asked to attempt it, and the mark is given back
/// when the attempt is reported. After the last target the result is handed
/// over; no target at all is an error. Over a whole run the marks end as they
/// began, each attempted target's mark being taken and given back once.
pub fn warmup_accounts(
    run: &mut WarmupRun,
    in_flight: &mut AccountIdSet,
    event: WarmupRunEvent,
) -> (r: WarmupRunAction)
    requires
        old(run).wf(),
        !old(run).finished(),
        (event is Attempted) == (old(run).held_id() is Some),
    ensures
        final(run).wf(),
        final(run).targets() == old(run).targets(),
        final(run).message() == old(run).message(),
        ({
            let marks = marks_after_event(old(in_flight)@, old(run).held_id(), event);
            let before = items_after_event(old(run).items(), old(run).targets(), event);
            let t = old(run).targets();
            match r {
                WarmupRunAction::Attempt { target, message } => {
                    let i = final(run).items().len() as int;
                    &&& !final(run).finished()
                    &&& before.len() <= i < t.len()
                    &&& final(run).items().take(before.len() as int) == before
                    &&& skipped_from(final(run).items(), t, marks, before.len() as int)
                    &&& target_view(target) == t[i]
                    &&& message@ == old(run).message()
                    &&& trim(t[i].0).len() > 0
                    &&& !marks.contains(trim(t[i].0))
                    &&& final(run).held_id() == Some(trim(t[i].0))
                    &&& final(in_flight)@ == marks.insert(trim(t[i].0))
                },
                WarmupRunAction::Done(res) => {
                    &&& final(run).finished()
                    &&& final(in_flight)@ == marks
                    &&& (t.len() == 0 <==> res is Err)
                    &&& (res matches Err(e) ==> e@ == "no account available for warmup"@)
                    &&& (res matches Ok(x) ==> {
                        &&& items_view(x.results@).len() == t.len()
                        &&& items_view(x.results@).take(before.len() as int) == before
                        &&& skipped_from(items_view(x.results@), t, marks, before.len() as int)
                        &&& x.requested == t.len()
                        &&& x.succeeded == count_ok(x.results@)
                        &&& x.failed == x.requested - x.succeeded
                    })
                },
            }
        }),
{
    proof {
        reveal_strlit("warmup already in progress for this account");
        reveal_strlit("no account available for warmup");
    }
    let ghost t = run.targets();
    let ghost marks0 = in_flight@;
    if let WarmupRunEvent::Attempted { ok, message } = event {
        let n = run.results.len();
        assert(old(run).held_id() is Some);
        let target_count = run.targets.len();
        assert(n < target_count);
        assert(run.succeeded == count_ok(run.results@));
        let guard = run.held.take().unwrap();
        guard.release(in_flight);
        let ghost before_results = run.results@;
        proof {
            lemma_count_ok_le(before_results);
        }
        let item = AccountWarmupItemResult {
            account_id: str_to_string(run.targets[n].account_id.as_str()),
            account_name: str_to_string(run.targets[n].account_name.as_str()),
            ok,
            message,
        };
        run.results.push(item);
        assert(run.succeeded <= n);
        if ok {
            run.succeeded = run.succeeded + 1;
        }
        proof {
            assert(run.results@.drop_last() =~= before_results);
            assert(items_view(run.results@) =~= items_view(before_results).push(item_view(item)));
        }
    }
    let ghost marks = in_flight@;
    let ghost before = items_view(run.results@);
    assert(marks == marks_after_event(marks0, old(run).held_id(), event));
    assert(before == items_after_event(old(run).items(), t, event));
    while run.results.len() < run.targets.len()
        invariant
            run.wf(),
            !run.finished,
            run.held is None,
            run.targets() == t,
            t == old(run).targets(),
            marks == marks_after_event(old(in_flight)@, old(run).held_id(), event),
            before == items_after_event(old(run).items(), t, event),
            run.message == old(run).message,
            in_flight@ == marks,
            before.len() <= run.results@.len(),
            items_view(run.results@).take(before.len() as int) == before,
            skipped_from(items_view(run.results@), t, marks, before.len() as int),
        decreases run.targets@.len() - run.results@.len(),
    {
        let i = run.results.len();
        let ghost id = run.targets@[i as int].account_id@;
        assert(t[i as int] == target_view(run.targets@[i as int]));
        match WarmupAccountInFlightGuard::try_acquire(in_flight, run.targets[i].account_id.as_str()) {
            Some(guard) => {
                proof {
                    if marks.contains(trim(id)) {
                        assert(marks.insert(trim(id)) =~= marks);
                    }
                }
                run.held = Some(guard);
                let target = WarmupTarget {
                    account_id: str_to_string(run.targets[i].account_id.as_str()),
                    account_name: str_to_string(run.targets[i].account_name.as_str()),
                };
                let message = str_to_string(run.message.as_str());
                return WarmupRunAction::Attempt { target, message };
            },
            None => {
                proof {
                    if trim(id).len() > 0 {
                        assert(marks.insert(trim(id)) =~= marks);
                    }
                }
                let ghost before_results = run.results@;
                let item = AccountWarmupItemResult {
                    account_id: str_to_string(run.targets[i].account_id.as_str()),
                    account_name: str_to_string(run.targets[i].account_name.as_str()),
                    ok: false,
                    message: str_to_string("warmup already in progress for this account"),
                };
                run.results.push(item);
                proof {
                    assert(run.results@.drop_last() =~= before_results);
                    assert(items_view(run.results@) =~= items_view(before_results).push(
                        item_view(item),
                    ));
                    assert(items_view(run.results@).take(before.len() as int) =~= items_view(
                        before_results,
                    ).take(before.len() as int));
                }
            },
        }
    }
    run.finished = true;
    if run.targets.len() == 0 {
        return WarmupRunAction::Done(Err(str_to_string("no account available for warmup")));
    }
    let mut results: Vec<AccountWarmupItemResult> = Vec::new();
    std::mem::swap(&mut results, &mut run.results);
    let succeeded = run.succeeded;
    run.succeeded = 0;
    let n = results.len();
    proof {
        lemma_count_ok_le(results@);
    }
    WarmupRunAction::Done(Ok(AccountWarmupResult { requested: n, succeeded, failed: n - succeeded, results }))
}

// ---------------------------------------------------------------------------
// Reading the upstream event stream.

/// What serde_json finds in a JSON text, as far as the stream reading looks:
/// the top-level `type` string, and for the top-level `error` and for
/// `response.error` their `message` string and their own string value.
pub type SseJsonView = (
    Option<Seq<char>>,
    Option<(Option<Seq<char>>, Option<Seq<char>>)>,
    Option<(Option<Seq<char>>, Option<Seq<char>>)>,
);

/// The fields above for the text `data`, or `None` when `serde_json::from_str`
/// rejects it.
pub uninterp spec fn sse_json_fields(data: Seq<char>) -> Option<SseJsonView>;

/// An `error` member of an event.
pub struct JsonErrorNode {
    /// Its `message` member, when that is a string.
    pub message_field: Option<String>,
    /// The member itself, when it is a string.
    pub text: Option<String>,
}

/// The parts of an event's JSON data that decide its meaning.
pub struct SseJson {
    /// The top-level `type` member, when it is a string.
    pub type_field: Option<String>,
    /// The top-level `error` member.
    pub error: Option<JsonErrorNode>,
    /// The `error` member of the top-level `response` member.
    pub response_error: Option<JsonErrorNode>,
}

pub open spec fn opt_str_view(o: Option<String>) -> Option<Seq<char>> {
    match o {
        Some(s) => Some(s@),
        None => None,
    }
}

pub open spec fn node_view(n: Option<JsonErrorNode>) -> Option<(Option<Seq<char>>, Option<Seq<char>>)> {
    match n {
        Some(e) => Some((opt_str_view(e.message_field), opt_str_view(e.text))),
        None => None,
    }
}

pub open spec fn sse_json_view(j: SseJson) -> SseJsonView {
    (opt_str_view(j.type_field), node_view(j.error), node_view(j.response_error))
}

/// `serde_json::from_str::<serde_json::Value>` on an event's data, with the
/// members the stream reading looks at taken out (`Value::get`, `Value::as_str`).
#[verifier::external_body]
fn parse_sse_json(data: &str) -> (r: Option<SseJson>)
    ensures
        match r {
            Some(j) => sse_json_fields(data@) == Some(sse_json_view(j)),
            None => sse_json_fields(data@) is None,
        },
{
    let value: serde_json::Value = serde_json::from_str(data).ok()?;
    let node = |e: &serde_json::Value| JsonErrorNode {
        message_field: e.get("message").and_then(serde_json::Value::as_str).map(str::to_string),
        text: e.as_str().map(str::to_string),
    };
    Some(SseJson {
        type_field: value.get("type").and_then(serde_json::Value::as_str).map(str::to_string),
        error: value.get("error").map(node),
        response_error: value.get("response").and_then(|r| r.get("error")).map(node),
    })
}

/// The error text of an error event: the `message` (or the string value) of
/// `error`, or else of `response.error`, trimmed; a fixed text when blank or absent.
pub open spec fn spec_stream_error_summary(j: SseJsonView) -> Seq<char> {
    let node = match j.1 {
        Some(n) => Some(n),
        None => j.2,
    };
    let text = match node {
        Some(n) => match n.0 {
            Some(m) => Some(m),
            None => n.1,
        },
        None => None,
    };
    match text {
        Some(t) => if trim(t).len() > 0 {
            trim(t)
        } else {
            "unknown stream error"@
        },
        None => "unknown stream error"@,
    }
}

pub fn summarize_warmup_stream_error(j: &SseJson) -> (r: String)
    ensures
        r@ == spec_stream_error_summary(sse_json_view(*j)),
{
    proof {
        reveal_strlit("unknown stream error");
    }
    let node = match &j.error {
        Some(n) => Some(n),
        None => match &j.response_error {
            Some(n) => Some(n),
            None => None,
        },
    };
    let text: Option<&String> = match node {
        Some(n) => match &n.message_field {
            Some(m) => Some(m),
            None => match &n.text {
                Some(t) => Some(t),
                None => None,
            },
        },
        None => None,
    };
    match text {
        Some(t) => {
            let tv = trim_vec(&chars_of(t.as_str()));
            if tv.len() > 0 {
                string_of(tv.as_slice())
            } else {
                str_to_string("unknown stream error")
            }
        },
        None => str_to_string("unknown stream error"),
    }
}

/// The error text of an error event without usable data.
pub open spec fn spec_error_event_text(event: Seq<char>) -> Seq<char> {
    "warmup stream error event: "@ + event
}

/// What an event whose data parsed as JSON means, given the event's (trimmed,
/// non-blank) name: the data's `type`, else the name, decides; a terminal type
/// ends the stream, an error type fails it with the error text; otherwise an
/// error name fails it; anything else reads on.
pub open spec fn spec_json_event_outcome(event: Option<Seq<char>>, j: SseJsonView) -> Result<
    bool,
    Seq<char>,
> {
    let event_type = match j.0 {
        Some(t) => Some(t),
        None => event,
    };
    if event_type is Some && spec_is_terminal_event(event_type.unwrap()) {
        Ok(true)
    } else if event_type is Some && spec_is_error_event(event_type.unwrap()) {
        Err(
            spec_error_event_text(event_type.unwrap()) + "; "@ + spec_stream_error_summary(j),
        )
    } else if event is Some && spec_is_error_event(event.unwrap()) {
        Err(spec_error_event_text(event.unwrap()))
    } else {
        Ok(false)
    }
}

fn error_event_text(event: &str) -> (r: String)
    ensures
        r@ == spec_error_event_text(event@),
{
    proof {
        reveal_strlit("warmup stream error event: ");
    }
    let mut v = chars_of("warmup stream error event: ");
    append_str(&mut v, event);
    string_of(v.as_slice())
}

pub fn warmup_sse_json_outcome(event: Option<&str>, j: &SseJson) -> (r: Result<bool, String>)
    ensures
        match r {
            Ok(b) => spec_json_event_outcome(
                match event {
                    Some(e) => Some(e@),
                    None => None,
                },
                sse_json_view(*j),
            ) == Ok::<bool, Seq<char>>(b),
            Err(e) => spec_json_event_outcome(
                match event {
                    Some(e) => Some(e@),
                    None => None,
                },
                sse_json_view(*j),
            ) == Err::<bool, Seq<char>>(e@),
        },
{
    proof {
        reveal_strlit("; ");
    }
    let event_type: Option<&str> = match &j.type_field {
        Some(t) => Some(t.as_str()),
        None => event,
    };
    if let Some(et) = event_type {
        if is_warmup_terminal_event(et) {
            return Ok(true);
        }
        if is_warmup_error_event(et) {
            let mut v = chars_of(error_event_text(et).as_str());
            append_str(&mut v, "; ");
            append_str(&mut v, summarize_warmup_stream_error(j).as_str());
            return Err(string_of(v.as_slice()));
        }
    }
    if let Some(e) = event {
        if is_warmup_error_event(e) {
            return Err(error_event_text(e));
        }
    }
    Ok(false)
}

pub open spec fn lines_view(v: Seq<String>) -> Seq<Seq<char>> {
    v.map_values(|s: String| s@)
}

/// The event name that counts: trimmed, and only when not blank.
pub open spec fn spec_event_name(event_name: Option<Seq<char>>) -> Option<Seq<char>> {
    match event_name {
        Some(e) => if trim(e).len() > 0 {
            Some(trim(e))
        } else {
            None
        },
        None => None,
    }
}

/// What one server-sent event means: `Ok(true)` when it ends the stream
/// successfully, `Ok(false)` to read on, `Err` when it reports an error.
pub open spec fn spec_process_event(event_name: Option<Seq<char>>, data_lines: Seq<Seq<char>>) -> Result<
    bool,
    Seq<char>,
> {
    let ev = spec_event_name(event_name);
    if ev is Some && spec_is_terminal_event(ev.unwrap()) {
        Ok(true)
    } else if data_lines.len() == 0 {
        if ev is Some && spec_is_error_event(ev.unwrap()) {
            Err(spec_error_event_text(ev.unwrap()))
        } else {
            Ok(false)
        }
    } else {
        let data = trim(crate::text::join(data_lines, "\n"@));
        if data == "[DONE]"@ {
            Ok(true)
        } else {
            match sse_json_fields(data) {
                None => Ok(false),
                Some(j) => spec_json_event_outcome(ev, j),
            }
        }
    }
}

pub fn process_warmup_sse_event(event_name: Option<&str>, data_lines: &Vec<String>) -> (r: Result<
    bool,
    String,
>)
    ensures
        match r {
            Ok(b) => spec_process_event(
                match event_name {
                    Some(e) => Some(e@),
                    None => None,
                },
                lines_view(data_lines@),
            ) == Ok::<bool, Seq<char>>(b),
            Err(e) => spec_process_event(
                match event_name {
                    Some(e) => Some(e@),
                    None => None,
                },
                lines_view(data_lines@),
            ) == Err::<bool, Seq<char>>(e@),
        },
{
    proof {
        reveal_strlit("\n");
        reveal_strlit("[DONE]");
    }
    let ev: Option<String> = match event_name {
        Some(e) => {
            let t = trim_vec(&chars_of(e));
            if t.len() > 0 {
                Some(string_of(t.as_slice()))
            } else {
                None
            }
        },
        None => None,
    };
    if let Some(e) = &ev {
        if is_warmup_terminal_event(e.as_str()) {
            return Ok(true);
        }
    }
    if data_lines.len() == 0 {
        if let Some(e) = &ev {
            if is_warmup_error_event(e.as_str()) {
                return Err(error_event_text(e.as_str()));
            }
        }
        return Ok(false);
    }
    let mut parts: Vec<Vec<char>> = Vec::new();
    let mut i: usize = 0;
    while i < data_lines.len()
        invariant
            i <= data_lines.len(),
            crate::text::vviews(parts@) == lines_view(data_lines@).take(i as int),
        decreases data_lines.len() - i,
    {
        let c = chars_of(data_lines[i].as_str());
        let ghost before = parts@;
        parts.push(c);
        assert(crate::text::vviews(parts@) =~= crate::text::vviews(before).push(c@));
        assert(lines_view(data_lines@).take(i + 1) =~= lines_view(data_lines@).take(i as int).push(
            data_lines@[i as int]@,
        ));
        i += 1;
    }
    assert(lines_view(data_lines@).take(data_lines.len() as int) =~= lines_view(data_lines@));
    let glue = chars_of("\n");
    let joined = crate::text::join_vec(&parts, &glue);
    let data = trim_vec(&joined);
    if eq_str(&data, "[DONE]") {
        return Ok(true);
    }
    let data_text = string_of(data.as_slice());
    match parse_sse_json(data_text.as_str()) {
        None => Ok(false),
        Some(j) => match &ev {
            Some(e) => warmup_sse_json_outcome(Some(e.as_str()), &j),
            None => warmup_sse_json_outcome(None, &j),
        },
    }
}

/// `s` without the `\r` and `\n` at its end (`trim_end_matches(['\r', '\n'])`).
pub open spec fn trim_line_end(s: Seq<char>) -> Seq<char>
    decreases s.len(),
{
    if s.len() > 0 && (s.last() == '\r' || s.last() == '\n') {
        trim_line_end(s.drop_last())
    } else {
        s
    }
}

proof fn lemma_trim_line_end_take(s: Seq<char>, j: int)
    requires
        0 <= j <= s.len(),
        forall|k: int| j <= k < s.len() ==> #[trigger] s[k] == '\r' || s[k] == '\n',
    ensures
        trim_line_end(s) == trim_line_end(s.take(j)),
    decreases s.len() - j,
{
    if j < s.len() {
        lemma_trim_line_end_take(s.drop_last(), j);
        assert(s.drop_last().take(j) =~= s.take(j));
    } else {
        assert(s.take(j) =~= s);
    }
}

/// The event being assembled from the stream: its name and its data lines.
pub struct WarmupStreamState {
    pub event_name: Option<String>,
    pub data_lines: Vec<String>,
}

/// What to do after a line of the stream.
pub enum WarmupStreamStep {
    /// Read the next line.
    Continue,
    /// The stream is done: completed, or failed with this error.
    Finished(Result<(), String>),
}

impl WarmupStreamState {
    pub fn new() -> (r: Self)
        ensures
            r.event_name is None,
            r.data_lines@.len() == 0,
    {
        WarmupStreamState { event_name: None, data_lines: Vec::new() }
    }
}

pub open spec fn state_event(st: WarmupStreamState) -> Option<Seq<char>> {
    opt_str_view(st.event_name)
}

/// The outcome when the stream ends at `state`.
pub open spec fn spec_end_of_stream(st: WarmupStreamState) -> Result<(), Seq<char>> {
    match spec_process_event(state_event(st), lines_view(st.data_lines@)) {
        Ok(true) => Ok(()),
        Ok(false) => Err("warmup stream ended before response.completed"@),
        Err(e) => Err(e),
    }
}

/// Takes one line of the server-sent event stream as read (with its line
/// ending), or `None` at the end of the stream. A blank line completes the
/// current event; `event:` names it; `data:` adds a data line; other lines
/// are skipped.
pub fn consume_warmup_stream(state: &mut WarmupStreamState, line: Option<&str>) -> (r:
    WarmupStreamStep)
    ensures
        match line {
            None => match r {
                WarmupStreamStep::Finished(Ok(())) => spec_end_of_stream(*old(state)) == Ok::<
                    (),
                    Seq<char>,
                >(()),
                WarmupStreamStep::Finished(Err(e)) => spec_end_of_stream(*old(state)) == Err::<
                    (),
                    Seq<char>,
                >(e@),
                WarmupStreamStep::Continue => false,
            },
            Some(l) => {
                let t = trim_line_end(l@);
                if t.len() == 0 {
                    match spec_process_event(state_event(*old(state)), lines_view(old(state).data_lines@)) {
                        Ok(true) => r matches WarmupStreamStep::Finished(Ok(())),
                        Err(e) => r matches WarmupStreamStep::Finished(Err(f)) && f@ == e,
                        Ok(false) => r is Continue && final(state).event_name is None
                            && final(state).data_lines@.len() == 0,
                    }
                } else if crate::text::starts_with(t, "event:"@) {
                    &&& r is Continue
                    &&& state_event(*final(state)) == Some(trim(t.skip(6)))
                    &&& final(state).data_lines@ == old(state).data_lines@
                } else if crate::text::starts_with(t, "data:"@) {
                    &&& r is Continue
                    &&& state_event(*final(state)) == state_event(*old(state))
                    &&& lines_view(final(state).data_lines@) == lines_view(old(state).data_lines@).push(
                        trim(t.skip(5)),
                    )
                } else {
                    r is Continue && *final(state) == *old(state)
                }
            },
        },
{
    proof {
        reveal_strlit("warmup stream ended before response.completed");
        reveal_strlit("event:");
        reveal_strlit("data:");
    }
    let text = match line {
        None => {
            let outcome = match &state.event_name {
                Some(e) => process_warmup_sse_event(Some(e.as_str()), &state.data_lines),
                None => process_warmup_sse_event(None, &state.data_lines),
            };
            return match outcome {
                Ok(true) => WarmupStreamStep::Finished(Ok(())),
                Ok(false) => WarmupStreamStep::Finished(
                    Err(str_to_string("warmup stream ended before response.completed")),
                ),
                Err(e) => WarmupStreamStep::Finished(Err(e)),
            };
        },
        Some(l) => l,
    };
    let s = chars_of(text);
    let mut hi: usize = s.len();
    while hi > 0 && (s[hi - 1] == '\r' || s[hi - 1] == '\n')
        invariant
            hi <= s.len(),
            forall|k: int| hi <= k < s.len() ==> #[trigger] s@[k] == '\r' || s@[k] == '\n',
        decreases hi,
    {
        hi -= 1;
    }
    proof {
        lemma_trim_line_end_take(s@, hi as int);
        let u = s@.take(hi as int);
        if u.len() > 0 {
            assert(u.last() == s@[hi - 1]);
        }
        assert(trim_line_end(u) == u);
    }
    let t = slice_of(&s, 0, hi);
    assert(t@ =~= s@.take(hi as int));
    if t.len() == 0 {
        let outcome = match &state.event_name {
            Some(e) => process_warmup_sse_event(Some(e.as_str()), &state.data_lines),
            None => process_warmup_sse_event(None, &state.data_lines),
        };
        return match outcome {
            Ok(true) => WarmupStreamStep::Finished(Ok(())),
            Err(e) => WarmupStreamStep::Finished(Err(e)),
            Ok(false) => {
                state.event_name = None;
                state.data_lines = Vec::new();
                WarmupStreamStep::Continue
            },
        };
    }
    if crate::text::starts_with_str(&t, "event:") {
        let rest = slice_of(&t, 6, t.len());
        assert(rest@ =~= t@.skip(6));
        state.event_name = Some(string_of(trim_vec(&rest).as_slice()));
        return WarmupStreamStep::Continue;
    }
    if crate::text::starts_with_str(&t, "data:") {
        let rest = slice_of(&t, 5, t.len());
        assert(rest@ =~= t@.skip(5));
        let ghost before = state.data_lines@;
        state.data_lines.push(string_of(trim_vec(&rest).as_slice()));
        assert(lines_view(state.data_lines@) =~= lines_view(before).push(trim(t@.skip(5))));
        return WarmupStreamStep::Continue;
    }
    WarmupStreamStep::Continue
}

// ---------------------------------------------------------------------------
// Request headers and error summaries.

/// Response headers in the order received: the lower-case name, and the value
/// as text when it is visible ASCII (`HeaderValue::to_str`), else `None`.
pub struct HttpHeaders {
    pub entries: Vec<(String, Option<String>)>,
}

pub open spec fn header_entries_view(v: Seq<(String, Option<String>)>) -> Seq<
    (Seq<char>, Option<Seq<char>>),
> {
    v.map_values(|e: (String, Option<String>)| (e.0@, opt_str_view(e.1)))
}

/// The value of the first entry named `name` (`HeaderMap::get`).
pub open spec fn header_lookup(entries: Seq<(Seq<char>, Option<Seq<char>>)>, name: Seq<char>) -> Option<
    Option<Seq<char>>,
>
    decreases entries.len(),
{
    if entries.len() == 0 {
        None
    } else if entries[0].0 == name {
        Some(entries[0].1)
    } else {
        header_lookup(entries.drop_first(), name)
    }
}

/// The first of `names` whose header has a text value that is not blank, trimmed.
pub open spec fn spec_first_header(
    entries: Seq<(Seq<char>, Option<Seq<char>>)>,
    names: Seq<Seq<char>>,
) -> Option<Seq<char>>
    decreases names.len(),
{
    if names.len() == 0 {
        None
    } else {
        match header_lookup(entries, names[0]) {
            Some(Some(v)) if trim(v).len() > 0 => Some(trim(v)),
            _ => spec_first_header(entries, names.drop_first()),
        }
    }
}

fn lookup_header(headers: &HttpHeaders, name: &str) -> (r: Option<Option<String>>)
    ensures
        match r {
            Some(v) => header_lookup(header_entries_view(headers.entries@), name@) == Some(
                opt_str_view(v),
            ),
            None => header_lookup(header_entries_view(headers.entries@), name@) is None,
        },
{
    let ghost all = header_entries_view(headers.entries@);
    let target = chars_of(name);
    let mut i: usize = 0;
    assert(all.skip(0) =~= all);
    while i < headers.entries.len()
        invariant
            i <= headers.entries.len(),
            all == header_entries_view(headers.entries@),
            target@ == name@,
            header_lookup(all, name@) == header_lookup(all.skip(i as int), name@),
        decreases headers.entries.len() - i,
    {
        let ghost rest = all.skip(i as int);
        assert(rest[0] == all[i as int]);
        assert(rest.drop_first() =~= all.skip(i + 1));
        let entry_name = chars_of(headers.entries[i].0.as_str());
        if seq_equal(&entry_name, &target) {
            let v = match &headers.entries[i].1 {
                Some(t) => Some(str_to_string(t.as_str())),
                None => None,
            };
            return Some(v);
        }
        i += 1;
    }
    None
}

/// The first header among `names` with a usable value.
pub fn first_header(headers: &HttpHeaders, names: &Vec<&str>) -> (r: Option<String>)
    ensures
        opt_str_view(r) == spec_first_header(
            header_entries_view(headers.entries@),
            names@.map_values(|n: &str| n@),
        ),
{
    let ghost all = names@.map_values(|n: &str| n@);
    let ghost entries = header_entries_view(headers.entries@);
    let mut i: usize = 0;
    assert(all.skip(0) =~= all);
    while i < names.len()
        invariant
            i <= names.len(),
            all == names@.map_values(|n: &str| n@),
            entries == header_entries_view(headers.entries@),
            spec_first_header(entries, all) == spec_first_header(entries, all.skip(i as int)),
        decreases names.len() - i,
    {
        let ghost rest = all.skip(i as int);
        assert(rest[0] == names@[i as int]@);
        assert(rest.drop_first() =~= all.skip(i + 1));
        if let Some(Some(v)) = lookup_header(headers, names[i]) {
            let t = trim_vec(&chars_of(v.as_str()));
            if t.len() > 0 {
                return Some(string_of(t.as_slice()));
            }
        }
        i += 1;
    }
    None
}

pub open spec fn spec_details(
    entries: Seq<(Seq<char>, Option<Seq<char>>)>,
) -> Seq<Seq<char>> {
    let request_id = spec_first_header(entries, seq!["x-request-id"@, "x-oai-request-id"@]);
    let auth_error = spec_first_header(entries, seq!["x-openai-authorization-error"@]);
    let cf_ray = spec_first_header(entries, seq!["cf-ray"@]);
    (match request_id {
        Some(v) => seq!["request id: "@ + v],
        None => Seq::empty(),
    }) + (match auth_error {
        Some(v) => seq!["auth error: "@ + v],
        None => Seq::empty(),
    }) + (match cf_ray {
        Some(v) => seq!["cf-ray: "@ + v],
        None => Seq::empty(),
    })
}

/// The error text of a failed warmup request: status, a body hint (the
/// upstream summary, else the trimmed body, else a fixed text) and the
/// request id, authorization error and cf-ray headers when present.
pub open spec fn spec_warmup_error_summary(
    status: u16,
    upstream_hint: Option<Seq<char>>,
    entries: Seq<(Seq<char>, Option<Seq<char>>)>,
    body: Seq<char>,
) -> Seq<char> {
    let hint = match upstream_hint {
        Some(h) => h,
        None => if trim(body).len() > 0 {
            trim(body)
        } else {
            "unknown error"@
        },
    };
    let head = "status="@ + decimal(status as nat) + " body="@ + hint;
    let details = spec_details(entries);
    if details.len() == 0 {
        head
    } else {
        head + ", "@ + crate::text::join(details, ", "@)
    }
}

pub fn summarize_warmup_error(
    status: u16,
    upstream_hint: Option<String>,
    headers: &HttpHeaders,
    body: &str,
) -> (r: String)
    ensures
        r@ == spec_warmup_error_summary(
            status,
            opt_str_view(upstream_hint),
            header_entries_view(headers.entries@),
            body@,
        ),
{
    proof {
        reveal_strlit("unknown error");
        reveal_strlit("status=");
        reveal_strlit(" body=");
        reveal_strlit(", ");
        reveal_strlit("x-request-id");
        reveal_strlit("x-oai-request-id");
        reveal_strlit("x-openai-authorization-error");
        reveal_strlit("cf-ray");
        reveal_strlit("request id: ");
        reveal_strlit("auth error: ");
        reveal_strlit("cf-ray: ");
    }
    let hint: Vec<char> = match upstream_hint {
        Some(h) => chars_of(h.as_str()),
        None => {
            let t = trim_vec(&chars_of(body));
            if t.len() > 0 {
                t
            } else {
                chars_of("unknown error")
            }
        },
    };
    let mut out = chars_of("status=");
    push_decimal(&mut out, status as u64);
    append_str(&mut out, " body=");
    append_vec(&mut out, &hint);
    let ghost entries = header_entries_view(headers.entries@);
    let mut names1: Vec<&str> = Vec::new();
    names1.push("x-request-id");
    names1.push("x-oai-request-id");
    assert(names1@.map_values(|n: &str| n@) =~= seq!["x-request-id"@, "x-oai-request-id"@]);
    let mut names2: Vec<&str> = Vec::new();
    names2.push("x-openai-authorization-error");
    assert(names2@.map_values(|n: &str| n@) =~= seq!["x-openai-authorization-error"@]);
    let mut names3: Vec<&str> = Vec::new();
    names3.push("cf-ray");
    assert(names3@.map_values(|n: &str| n@) =~= seq!["cf-ray"@]);
    let mut details: Vec<Vec<char>> = Vec::new();
    if let Some(v) = first_header(headers, &names1) {
        let mut d = chars_of("request id: ");
        append_str(&mut d, v.as_str());
        details.push(d);
    }
    if let Some(v) = first_header(headers, &names2) {
        let mut d = chars_of("auth error: ");
        append_str(&mut d, v.as_str());
        details.push(d);
    }
    if let Some(v) = first_header(headers, &names3) {
        let mut d = chars_of("cf-ray: ");
        append_str(&mut d, v.as_str());
        details.push(d);
    }
    assert(crate::text::vviews(details@) =~= spec_details(entries));
    if details.len() > 0 {
        append_str(&mut out, ", ");
        let glue = chars_of(", ");
        let joined = crate::text::join_vec(&details, &glue);
        append_vec(&mut out, &joined);
    }
    string_of(out.as_slice())
}

/// Text that a header value may hold: no control character but tab.
pub open spec fn header_text_valid(s: Seq<char>) -> bool {
    forall|i: int|
        0 <= i < s.len() ==> ((#[trigger] s[i] as u32) >= 32 && (s[i] as u32) != 127) || s[i]
            == '\t'
}

/// `HeaderValue::from_str`: accepts exactly the texts whose bytes are all
/// visible, tab or above 127 (for a `&str` that is the char test above), and
/// otherwise fails with the error whose text is "failed to parse header value".
#[verifier::external_body]
fn header_value(value: &str) -> (r: Result<(), String>)
    ensures
        r is Ok <==> header_text_valid(value@),
        r matches Err(e) ==> e@ == "failed to parse header value"@,
{
    reqwest::header::HeaderValue::from_str(value).map(|_| ()).map_err(|err| err.to_string())
}

/// A header for the warmup request, checked as a header value.
fn checked_header(name: &str, value: &str) -> (r: Result<(String, String), String>)
    ensures
        header_text_valid(value@) ==> (r matches Ok(h) && h.0@ == name@ && h.1@ == value@),
        !header_text_valid(value@) ==> (r matches Err(e) && e@ == invalid_header_error()),
{
    match header_value(value) {
        Ok(()) => Ok((str_to_string(name), str_to_string(value))),
        Err(err) => {
            proof {
                reveal_strlit("invalid header value: ");
            }
            let mut v = chars_of("invalid header value: ");
            append_str(&mut v, err.as_str());
            Err(string_of(v.as_slice()))
        },
    }
}

pub open spec fn invalid_header_error() -> Seq<char> {
    "invalid header value: "@ + "failed to parse header value"@
}

pub open spec fn headers_view(v: Seq<(String, String)>) -> Seq<(Seq<char>, Seq<char>)> {
    v.map_values(|h: (String, String)| (h.0@, h.1@))
}

/// The headers of a warmup request, in order; the optional ones only when given.
pub open spec fn spec_warmup_headers(
    bearer: Seq<char>,
    user_agent: Seq<char>,
    originator: Seq<char>,
    residency: Option<Seq<char>>,
    account_header: Option<Seq<char>>,
) -> Seq<(Seq<char>, Seq<char>)> {
    seq![
        ("authorization"@, "Bearer "@ + bearer),
        ("accept"@, "text/event-stream"@),
        ("content-type"@, "application/json"@),
        ("user-agent"@, user_agent),
        ("originator"@, originator),
    ] + (match residency {
        Some(r) => seq![("x-openai-internal-codex-residency"@, r)],
        None => Seq::empty(),
    }) + (match account_header {
        Some(a) => seq![("chatgpt-account-id"@, a)],
        None => Seq::empty(),
    })
}

/// Every value that the warmup request would send is a valid header value.
pub open spec fn spec_warmup_headers_valid(
    bearer: Seq<char>,
    user_agent: Seq<char>,
    originator: Seq<char>,
    residency: Option<Seq<char>>,
    account_header: Option<Seq<char>>,
) -> bool {
    &&& header_text_valid("Bearer "@ + bearer)
    &&& header_text_valid(user_agent)
    &&& header_text_valid(originator)
    &&& (residency matches Some(r) ==> header_text_valid(r))
    &&& (account_header matches Some(a) ==> header_text_valid(a))
}

/// Builds the warmup request headers; fails with the header-value error when
/// any of the caller's values cannot be a header value.
pub fn build_warmup_headers(
    bearer: &str,
    user_agent: &str,
    originator: &str,
    residency: Option<&str>,
    account_header: Option<&str>,
) -> (r: Result<Vec<(String, String)>, String>)
    ensures
        match r {
            Ok(h) => spec_warmup_headers_valid(
                bearer@,
                user_agent@,
                originator@,
                match residency {
                    Some(x) => Some(x@),
                    None => None,
                },
                match account_header {
                    Some(x) => Some(x@),
                    None => None,
                },
            ) && headers_view(h@) == spec_warmup_headers(
                bearer@,
                user_agent@,
                originator@,
                match residency {
                    Some(x) => Some(x@),
                    None => None,
                },
                match account_header {
                    Some(x) => Some(x@),
                    None => None,
                },
            ),
            Err(e) => !spec_warmup_headers_valid(
                bearer@,
                user_agent@,
                originator@,
                match residency {
                    Some(x) => Some(x@),
                    None => None,
                },
                match account_header {
                    Some(x) => Some(x@),
                    None => None,
                },
            ) && e@ == invalid_header_error(),
        },
{
    proof {
        reveal_strlit("Bearer ");
        reveal_strlit("authorization");
        reveal_strlit("accept");
        reveal_strlit("text/event-stream");
        reveal_strlit("content-type");
        reveal_strlit("application/json");
        reveal_strlit("user-agent");
        reveal_strlit("originator");
        reveal_strlit("x-openai-internal-codex-residency");
        reveal_strlit("chatgpt-account-id");
    }
    let mut auth = chars_of("Bearer ");
    append_str(&mut auth, bearer);
    let auth_text = string_of(auth.as_slice());
    let mut headers: Vec<(String, String)> = Vec::new();
    let h = checked_header("authorization", auth_text.as_str())?;
    headers.push(h);
    headers.push((str_to_string("accept"), str_to_string("text/event-stream")));
    headers.push((str_to_string("content-type"), str_to_string("application/json")));
    let h = checked_header("user-agent", user_agent)?;
    headers.push(h);
    let h = checked_header("originator", originator)?;
    headers.push(h);
    let ghost base = headers@;
    if let Some(r) = residency {
        let h = checked_header("x-openai-internal-codex-residency", r)?;
        headers.push(h);
    }
    let ghost mid = headers@;
    if let Some(a) = account_header {
        let h = checked_header("chatgpt-account-id", a)?;
        headers.push(h);
    }
    assert(headers_view(headers@) =~= spec_warmup_headers(
        bearer@,
        user_agent@,
        originator@,
        match residency {
            Some(x) => Some(x@),
            None => None,
        },
        match account_header {
            Some(x) => Some(x@),
            None => None,
        },
    ));
    Ok(headers)
}

} // verus!
