use codexmanager_service::idset::AccountIdSet;
use codexmanager_service::warmup::{
    build_warmup_client_for_account, build_warmup_headers, warmup_status_is_success, clear_auto_warmup_task_pending, consume_warmup_stream,
    enqueue_auto_warmup_for_account, extract_status_code_from_message, finish_warmup_fallback,
    first_header, is_warmup_error_event, is_warmup_terminal_event, mark_auto_warmup_task_pending,
    maybe_mark_account_auth_error, normalize_warmup_message, persist_warmup_observability,
    process_warmup_sse_event, resolve_warmup_model_slug, send_warmup_request_with_fallback,
    should_retry_warmup_with_refresh, summarize_warmup_error, summarize_warmup_stream_error,
    try_enqueue_auto_warmup_task, warmup_accounts, warmup_refresh_retry_step, warmup_single_account,
    warmup_sse_json_outcome, HttpHeaders, JsonErrorNode, QueueSendOutcome, SseJson,
    AccountWarmupResult, WarmupAccountInFlightGuard, WarmupRetryAction, WarmupRetryEvent,
    WarmupRetryState, WarmupRun, WarmupRunAction, WarmupRunEvent, WarmupSendStep,
    WarmupStreamState, WarmupStreamStep, WarmupTarget,
};

fn run_stream(lines: &[&str]) -> Result<(), String> {
    let mut state = WarmupStreamState::new();
    for line in lines {
        match consume_warmup_stream(&mut state, Some(line)) {
            WarmupStreamStep::Continue => {}
            WarmupStreamStep::Finished(outcome) => return outcome,
        }
    }
    match consume_warmup_stream(&mut state, None) {
        WarmupStreamStep::Finished(outcome) => outcome,
        WarmupStreamStep::Continue => panic!("end of stream must finish"),
    }
}

#[test]
fn blank_message_becomes_default() {
    assert_eq!(normalize_warmup_message("   "), "hi");
    assert_eq!(normalize_warmup_message(" hello \n"), "hello");
}

#[test]
fn status_code_is_read_after_marker() {
    assert_eq!(extract_status_code_from_message("status=401 body=nope"), 401);
    assert_eq!(extract_status_code_from_message("x status=503"), 503);
    assert_eq!(extract_status_code_from_message("no marker"), 500);
    assert_eq!(extract_status_code_from_message("status=abc"), 500);
    assert_eq!(extract_status_code_from_message("status=99999999999999999999"), 500);
    assert_eq!(extract_status_code_from_message("status=429 status=401"), 429);
}

#[test]
fn event_kinds_are_recognised() {
    assert!(is_warmup_terminal_event(" response.completed "));
    assert!(is_warmup_terminal_event("response.done"));
    assert!(!is_warmup_terminal_event("response.created"));
    assert!(is_warmup_error_event("error"));
    assert!(is_warmup_error_event("response.failed"));
    assert!(is_warmup_error_event("response.incomplete"));
    assert!(!is_warmup_error_event("response.output_text.delta"));
}

#[test]
fn refresh_retry_needs_token_and_auth_failure() {
    assert!(should_retry_warmup_with_refresh("rt", "status=401 body=x"));
    assert!(should_retry_warmup_with_refresh("rt", "Request FORBIDDEN"));
    assert!(!should_retry_warmup_with_refresh("  ", "status=401"));
    assert!(!should_retry_warmup_with_refresh("rt", "status=500"));
}

#[test]
fn auth_error_marks_account() {
    assert!(maybe_mark_account_auth_error("status=403 body=x"));
    assert!(maybe_mark_account_auth_error("Auth Error: expired"));
    assert!(!maybe_mark_account_auth_error("status=500 body=x"));
    assert!(!maybe_mark_account_auth_error("unauthorized"));
}

#[test]
fn model_slug_falls_back_to_default() {
    assert_eq!(resolve_warmup_model_slug(None), "gpt-5.3-codex");
    assert_eq!(resolve_warmup_model_slug(Some("  ".to_string())), "gpt-5.3-codex");
    assert_eq!(resolve_warmup_model_slug(Some("gpt-x".to_string())), "gpt-x");
}

#[test]
fn default_message_failure_asks_for_fallback() {
    match send_warmup_request_with_fallback("hi", Err("boom".to_string())) {
        WarmupSendStep::SendFallback => {}
        WarmupSendStep::Done(_) => panic!("expected a fallback send"),
    }
    match send_warmup_request_with_fallback("hello", Err("boom".to_string())) {
        WarmupSendStep::Done(Err(e)) => assert_eq!(e, "boom"),
        _ => panic!("expected the error"),
    }
    match send_warmup_request_with_fallback("hello", Ok(())) {
        WarmupSendStep::Done(Ok(m)) => assert_eq!(m, "\u{5df2}\u{53d1}\u{9001}\u{9884}\u{70ed}\u{6d88}\u{606f}"),
        _ => panic!("expected success"),
    }
    assert_eq!(
        finish_warmup_fallback("boom", Err("again".to_string())),
        Err("boom; fallback=again".to_string())
    );
    assert!(finish_warmup_fallback("boom", Ok(())).is_ok());
}

#[test]
fn in_flight_guard_is_exclusive() {
    let mut in_flight = AccountIdSet::new();
    let guard = WarmupAccountInFlightGuard::try_acquire(&mut in_flight, " acc-1 ").unwrap();
    assert_eq!(guard.account_id, "acc-1");
    assert!(in_flight.contains("acc-1"));
    assert!(WarmupAccountInFlightGuard::try_acquire(&mut in_flight, "acc-1").is_none());
    assert!(WarmupAccountInFlightGuard::try_acquire(&mut in_flight, "  ").is_none());
    guard.release(&mut in_flight);
    assert!(!in_flight.contains("acc-1"));
    assert!(WarmupAccountInFlightGuard::try_acquire(&mut in_flight, "acc-1").is_some());
}

#[test]
fn pending_marks_prevent_double_queueing() {
    let mut pending = AccountIdSet::new();
    assert!(mark_auto_warmup_task_pending(&mut pending, "a"));
    assert!(!mark_auto_warmup_task_pending(&mut pending, "a"));
    clear_auto_warmup_task_pending(&mut pending, "a");
    assert!(!pending.contains("a"));

    let task = enqueue_auto_warmup_for_account(&mut pending, " b ", " primary_quota_window_reset ")
        .unwrap();
    assert_eq!(task.account_id, "b");
    assert_eq!(task.reason, "primary_quota_window_reset");
    assert!(enqueue_auto_warmup_for_account(&mut pending, "b", "again").is_none());
    assert!(enqueue_auto_warmup_for_account(&mut pending, "", "x").is_none());

    assert!(!try_enqueue_auto_warmup_task(&mut pending, &task, QueueSendOutcome::Full));
    assert!(!pending.contains("b"));
    let task = enqueue_auto_warmup_for_account(&mut pending, "b", "r").unwrap();
    assert!(try_enqueue_auto_warmup_task(&mut pending, &task, QueueSendOutcome::Sent));
    assert!(pending.contains("b"));
    assert!(!try_enqueue_auto_warmup_task(&mut pending, &task, QueueSendOutcome::Disconnected));
    assert!(!pending.contains("b"));
}

#[test]
fn observation_record_texts() {
    let o = persist_warmup_observability("acc", 401, Some("status=401"), "gpt", -3, "failed", 1700);
    assert_eq!(o.trace_id, "warmup-acc-1700");
    assert_eq!(o.initial_account_id, "acc");
    assert_eq!(o.request_path, "/internal/account/warmup");
    assert_eq!(o.original_path, "/internal/account/warmup");
    assert_eq!(o.adapted_path, "/internal/account/warmup");
    assert_eq!(o.method, "POST");
    assert_eq!(o.request_type, "account_warmup");
    assert_eq!(o.upstream_url, "https://chatgpt.com/backend-api/codex/responses");
    assert_eq!(o.event_type, "account_warmup");
    assert_eq!(o.attempted_account_ids_json, "[\"acc\"]");
    assert_eq!(o.duration_ms, 0);
    assert_eq!(o.event_message, "failed; model=gpt; status=401; error=status=401");
    assert_eq!(o.error.as_deref(), Some("status=401"));
    let ok = persist_warmup_observability("acc", 200, None, "gpt", 12, "sent", -5);
    assert_eq!(ok.trace_id, "warmup-acc--5");
    assert_eq!(ok.event_message, "sent; model=gpt; status=200");
    assert_eq!(ok.duration_ms, 12);
}

#[test]
fn single_account_report_follows_outcome() {
    let ok = warmup_single_account("a", "A", "m", Ok("done".to_string()), 5, 10);
    assert!(ok.item.ok);
    assert_eq!(ok.item.message, "done");
    assert_eq!(ok.observation.status_code, 200);
    assert!(ok.enqueue_usage_refresh);
    assert!(!ok.mark_auth_error);

    let bad = warmup_single_account("a", "A", "m", Err("status=401 body=x".to_string()), 5, 10);
    assert!(!bad.item.ok);
    assert_eq!(bad.observation.status_code, 401);
    assert!(bad.mark_auth_error);
    assert!(!bad.enqueue_usage_refresh);
    assert_eq!(
        bad.observation.event_message,
        "\u{9884}\u{70ed}\u{5931}\u{8d25}; model=m; status=401; error=status=401 body=x"
    );

    let other = warmup_single_account("a", "A", "m", Err("timeout".to_string()), 5, 10);
    assert_eq!(other.observation.status_code, 500);
    assert!(!other.mark_auth_error);
}

fn drive_run(
    targets: Vec<WarmupTarget>,
    message: &str,
    in_flight: &mut AccountIdSet,
    attempts: &mut Vec<String>,
) -> Result<AccountWarmupResult, String> {
    let mut run = WarmupRun::new(targets, message);
    let mut event = WarmupRunEvent::Next;
    loop {
        match warmup_accounts(&mut run, in_flight, event) {
            WarmupRunAction::Done(result) => return result,
            WarmupRunAction::Attempt { target, message } => {
                assert_eq!(message, "hi");
                assert!(in_flight.contains(target.account_id.trim()));
                attempts.push(target.account_id.clone());
                let ok = target.account_id == "a";
                let text = if ok { "sent".to_string() } else { "status=500".to_string() };
                event = WarmupRunEvent::Attempted { ok, message: text };
            }
        }
    }
}

#[test]
fn warmup_accounts_counts_results() {
    let targets = vec![
        WarmupTarget { account_id: "a".to_string(), account_name: "A".to_string() },
        WarmupTarget { account_id: "b".to_string(), account_name: "B".to_string() },
        WarmupTarget { account_id: "c".to_string(), account_name: "C".to_string() },
        WarmupTarget { account_id: "  ".to_string(), account_name: "Blank".to_string() },
    ];
    let mut in_flight = AccountIdSet::new();
    in_flight.insert("b");
    let mut attempts = Vec::new();
    let result = drive_run(targets, "  ", &mut in_flight, &mut attempts).unwrap();
    assert_eq!(attempts, vec!["a".to_string(), "c".to_string()]);
    assert_eq!(result.requested, 4);
    assert_eq!(result.succeeded, 1);
    assert_eq!(result.failed, 3);
    assert_eq!(result.results[1].message, "warmup already in progress for this account");
    assert_eq!(result.results[3].message, "warmup already in progress for this account");
    assert_eq!(result.results[2].account_name, "C");
    assert!(in_flight.contains("b"));
    assert!(!in_flight.contains("a"));
    assert!(!in_flight.contains("c"));

    let mut none_attempts = Vec::new();
    assert_eq!(
        drive_run(Vec::new(), "x", &mut in_flight, &mut none_attempts).err(),
        Some("no account available for warmup".to_string())
    );
    assert!(none_attempts.is_empty());
}

#[test]
fn refresh_retry_happens_at_most_once() {
    let (state, action) = warmup_refresh_retry_step(
        WarmupRetryState::FirstSend,
        WarmupRetryEvent::Sent(Err("status=401 body=x".to_string())),
        "refresh",
    );
    assert!(matches!(action, WarmupRetryAction::Refresh));
    let (state, action) =
        warmup_refresh_retry_step(state, WarmupRetryEvent::Refreshed(Ok(())), "refresh");
    assert!(matches!(action, WarmupRetryAction::Resend));
    let (_, action) = warmup_refresh_retry_step(
        state,
        WarmupRetryEvent::Sent(Err("status=401 again".to_string())),
        "refresh",
    );
    match action {
        WarmupRetryAction::Finish(outcome) => assert_eq!(outcome, Err("status=401 again".to_string())),
        _ => panic!("the resend must finish the attempt"),
    }
}

#[test]
fn refresh_retry_needs_the_retry_test() {
    let (_, no_token) = warmup_refresh_retry_step(
        WarmupRetryState::FirstSend,
        WarmupRetryEvent::Sent(Err("status=401".to_string())),
        "  ",
    );
    assert!(matches!(no_token, WarmupRetryAction::Finish(Err(_))));
    let (_, other) = warmup_refresh_retry_step(
        WarmupRetryState::FirstSend,
        WarmupRetryEvent::Sent(Err("status=500".to_string())),
        "refresh",
    );
    assert!(matches!(other, WarmupRetryAction::Finish(Err(_))));
    let (_, ok) = warmup_refresh_retry_step(
        WarmupRetryState::FirstSend,
        WarmupRetryEvent::Sent(Ok("sent".to_string())),
        "refresh",
    );
    assert!(matches!(ok, WarmupRetryAction::Finish(Ok(_))));
    let (_, failed_refresh) = warmup_refresh_retry_step(
        WarmupRetryState::Refreshing,
        WarmupRetryEvent::Refreshed(Err("refresh failed".to_string())),
        "refresh",
    );
    match failed_refresh {
        WarmupRetryAction::Finish(outcome) => assert_eq!(outcome, Err("refresh failed".to_string())),
        _ => panic!("a failed refresh ends the attempt"),
    }
}

#[test]
fn stream_completes_on_terminal_event() {
    assert_eq!(
        run_stream(&["event: response.created\n", "data: {}\n", "\n", "event: response.completed\r\n", "data: {\"type\":\"response.completed\"}\n", "\n"]),
        Ok(())
    );
    assert_eq!(run_stream(&["data: [DONE]\n", "\n"]), Ok(()));
    assert_eq!(run_stream(&["data: {\"type\":\"response.done\"}\n"]), Ok(()));
}

#[test]
fn stream_reports_errors() {
    assert_eq!(
        run_stream(&["event: error\n", "data: {\"error\":{\"message\":\" quota \"}}\n", "\n"]),
        Err("warmup stream error event: error; quota".to_string())
    );
    assert_eq!(
        run_stream(&["data: {\"type\":\"response.failed\",\"response\":{\"error\":\"bad\"}}\n", "\n"]),
        Err("warmup stream error event: response.failed; bad".to_string())
    );
    assert_eq!(
        run_stream(&["event: response.failed\n", "\n"]),
        Err("warmup stream error event: response.failed".to_string())
    );
    assert_eq!(
        run_stream(&["event: response.created\n", "data: {}\n", "\n"]),
        Err("warmup stream ended before response.completed".to_string())
    );
    assert_eq!(
        run_stream(&[]),
        Err("warmup stream ended before response.completed".to_string())
    );
}

#[test]
fn sse_event_with_invalid_json_reads_on() {
    assert_eq!(process_warmup_sse_event(None, &vec!["not json".to_string()]), Ok(false));
    assert_eq!(
        process_warmup_sse_event(Some(" response.completed "), &Vec::new()),
        Ok(true)
    );
    assert_eq!(
        process_warmup_sse_event(Some("x"), &vec!["{\"a\":".to_string(), "1}".to_string()]),
        Ok(false)
    );
}

#[test]
fn json_outcome_uses_type_before_event_name() {
    let j = SseJson {
        type_field: Some("response.completed".to_string()),
        error: None,
        response_error: None,
    };
    assert_eq!(warmup_sse_json_outcome(Some("error"), &j), Ok(true));
    let k = SseJson { type_field: None, error: None, response_error: None };
    assert_eq!(
        warmup_sse_json_outcome(Some("error"), &k),
        Err("warmup stream error event: error; unknown stream error".to_string())
    );
    let other = SseJson {
        type_field: Some("response.output_text.delta".to_string()),
        error: None,
        response_error: None,
    };
    assert_eq!(
        warmup_sse_json_outcome(Some("error"), &other),
        Err("warmup stream error event: error".to_string())
    );
    assert_eq!(warmup_sse_json_outcome(None, &other), Ok(false));
}

#[test]
fn stream_error_summary_prefers_message() {
    let j = SseJson {
        type_field: None,
        error: Some(JsonErrorNode { message_field: None, text: Some(" plain ".to_string()) }),
        response_error: Some(JsonErrorNode {
            message_field: Some("nested".to_string()),
            text: None,
        }),
    };
    assert_eq!(summarize_warmup_stream_error(&j), "plain");
    let k = SseJson {
        type_field: None,
        error: None,
        response_error: Some(JsonErrorNode {
            message_field: Some("  ".to_string()),
            text: None,
        }),
    };
    assert_eq!(summarize_warmup_stream_error(&k), "unknown stream error");
}

fn headers(entries: &[(&str, Option<&str>)]) -> HttpHeaders {
    HttpHeaders {
        entries: entries
            .iter()
            .map(|(n, v)| (n.to_string(), v.map(|s| s.to_string())))
            .collect(),
    }
}

#[test]
fn first_header_skips_blank_values() {
    let h = headers(&[("x-request-id", Some("  ")), ("x-oai-request-id", Some(" r2 "))]);
    assert_eq!(first_header(&h, &vec!["x-request-id", "x-oai-request-id"]), Some("r2".to_string()));
    assert_eq!(first_header(&h, &vec!["cf-ray"]), None);
    let dup = headers(&[("cf-ray", None), ("cf-ray", Some("later"))]);
    assert_eq!(first_header(&dup, &vec!["cf-ray"]), None);
}

#[test]
fn error_summary_lists_details() {
    let h = headers(&[
        ("cf-ray", Some("ray1")),
        ("x-request-id", Some("req1")),
        ("x-openai-authorization-error", Some("expired")),
    ]);
    assert_eq!(
        summarize_warmup_error(401, None, &h, "  denied "),
        "status=401 body=denied, request id: req1, auth error: expired, cf-ray: ray1"
    );
    let empty = headers(&[]);
    assert_eq!(summarize_warmup_error(502, None, &empty, ""), "status=502 body=unknown error");
    assert_eq!(
        summarize_warmup_error(429, Some("rate limited".to_string()), &empty, "raw"),
        "status=429 body=rate limited"
    );
}

#[test]
fn warmup_headers_in_order() {
    let h = build_warmup_headers("tok", "ua/1", "codex_cli_rs", None, Some("acct")).unwrap();
    let names: Vec<&str> = h.iter().map(|(n, _)| n.as_str()).collect();
    assert_eq!(
        names,
        vec!["authorization", "accept", "content-type", "user-agent", "originator", "chatgpt-account-id"]
    );
    assert_eq!(h[0].1, "Bearer tok");
    assert_eq!(h[5].1, "acct");
    let with_residency = build_warmup_headers("tok", "ua", "o", Some("us"), None).unwrap();
    assert_eq!(with_residency.len(), 6);
    assert_eq!(with_residency[5].0, "x-openai-internal-codex-residency");
}

#[test]
fn warmup_headers_reject_control_characters() {
    assert_eq!(
        build_warmup_headers("tok\n", "ua", "o", None, None),
        Err("invalid header value: failed to parse header value".to_string())
    );
    assert!(build_warmup_headers("tok", "ua\u{7f}", "o", None, None).is_err());
    assert!(build_warmup_headers("tok", "ua\tok", "o\u{e9}", None, None).is_ok());
}

#[test]
fn warmup_client_needs_account_id() {
    let blank: Result<u32, String> = build_warmup_client_for_account("  ", |_: &str| Ok(7u32));
    assert_eq!(blank, Err("build warmup client failed: missing account id".to_string()));
    let ok = build_warmup_client_for_account(" acc ", |id: &str| {
        assert_eq!(id, "acc");
        Ok(id.len())
    });
    assert_eq!(ok, Ok(3));
    let failed: Result<u32, String> =
        build_warmup_client_for_account("acc", |_: &str| Err("no proxy".to_string()));
    assert_eq!(failed, Err("build warmup client failed: no proxy".to_string()));
}

#[test]
fn only_2xx_reads_the_stream() {
    assert!(warmup_status_is_success(200));
    assert!(warmup_status_is_success(299));
    assert!(!warmup_status_is_success(199));
    assert!(!warmup_status_is_success(300));
    assert!(!warmup_status_is_success(401));
}
