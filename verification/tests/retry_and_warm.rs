use qc::retry::{failure_facts, status_is_transient, is_transient, retry_decision, warn_on_failure, AttemptOutcome, ErrorReport, HttpErrorFacts, RetryDecision};
use qc::transport::{http_failure, HttpMethod};
use qc::warm::{
    compile_poll_action, compile_start_action, oversize_failure, push_accepted, syntax_failure, CompilePollAction,
    CompileRead, CompileStart, CompileStartAction,
};

fn facts(status: Option<u16>) -> HttpErrorFacts {
    HttpErrorFacts { status, is_timeout: false, is_connect: false, is_request: false, is_body: false }
}

#[test]
fn retry_backoff_schedule_sums_to_32() {
    let mut attempt = 0usize;
    let mut total = 0u64;
    let mut delays = Vec::new();
    loop {
        match retry_decision(attempt, AttemptOutcome::Failed { transient: true }) {
            RetryDecision::Retry { next_attempt, delay_secs } => {
                assert_eq!(next_attempt, attempt + 1);
                delays.push(delay_secs);
                total += delay_secs;
                attempt = next_attempt;
            }
            RetryDecision::Finish => break,
        }
    }
    assert_eq!(delays, vec![1, 2, 3, 5, 8, 13]);
    assert_eq!(total, 32);
    assert_eq!(attempt, 6);
}

#[test]
fn retry_fails_fast_on_permanent_errors() {
    assert_eq!(retry_decision(0, AttemptOutcome::Failed { transient: false }), RetryDecision::Finish);
    assert_eq!(retry_decision(3, AttemptOutcome::Succeeded), RetryDecision::Finish);
    assert!(warn_on_failure(5));
    assert!(!warn_on_failure(6));
}

#[test]
fn transient_by_status() {
    for s in [500u16, 502, 503, 504, 408, 429] {
        assert!(is_transient(&ErrorReport { chain: vec![Some(facts(Some(s)))], message: String::new() }));
    }
    assert!(!is_transient(&ErrorReport { chain: vec![Some(facts(Some(404)))], message: "502".into() }));
}

#[test]
fn transient_by_flags_and_message() {
    let mut f = facts(None);
    f.is_timeout = true;
    assert!(is_transient(&ErrorReport { chain: vec![None, Some(f)], message: String::new() }));
    assert!(is_transient(&ErrorReport { chain: vec![Some(facts(None))], message: "connection reset by peer".into() }));
    assert!(is_transient(&ErrorReport { chain: vec![], message: "504 Gateway Time-out".into() }));
    assert!(!is_transient(&ErrorReport { chain: vec![], message: "401 Unauthorized".into() }));
    assert!(!is_transient(&ErrorReport { chain: vec![], message: "bad gateway".into() }));
}

#[test]
fn oversize_code_is_refused_locally() {
    assert!(oversize_failure(&"x".repeat(128_000)).is_none());
    assert_eq!(
        oversize_failure(&"x".repeat(128_001)).unwrap(),
        "push_failed: [\"File exceeds the maximum size of 128000 characters by using 128001.\"]"
    );
}

#[test]
fn syntax_failure_keeps_200_chars() {
    assert_eq!(syntax_failure("bad indent"), "warmpool_compile_error: [\"local: bad indent\"]");
    let long = "é".repeat(250);
    assert_eq!(
        syntax_failure(&long),
        format!("warmpool_compile_error: [\"local: {}\"]", "é".repeat(200))
    );
}

#[test]
fn compile_start_actions() {
    match compile_start_action(CompileStart::Answered { success: true, compile_id: "c-1".into(), errors: vec![] }) {
        CompileStartAction::Poll { compile_id } => assert_eq!(compile_id, "c-1"),
        _ => panic!("expected poll"),
    }
    match compile_start_action(CompileStart::Answered {
        success: false,
        compile_id: String::new(),
        errors: vec!["no \"file\"".into()],
    }) {
        CompileStartAction::MarkFailed { reason } => assert_eq!(reason, "warmpool_compile: [\"no \\\"file\\\"\"]"),
        _ => panic!("expected failure"),
    }
    assert!(matches!(compile_start_action(CompileStart::Failed), CompileStartAction::Requeue));
}

#[test]
fn compile_poll_actions() {
    let st = |s: &str| CompileRead::State { state: s.into(), logs: vec!["line 3".into()] };
    assert!(matches!(compile_poll_action(st("BuildSuccess"), false), CompilePollAction::Ready));
    match compile_poll_action(st("BuildError"), false) {
        CompilePollAction::MarkFailed { reason } => assert_eq!(reason, "warmpool_compile_error: [\"line 3\"]"),
        _ => panic!("expected failure"),
    }
    assert!(matches!(compile_poll_action(st("InQueue"), true), CompilePollAction::Requeue));
    assert!(matches!(compile_poll_action(st("InQueue"), false), CompilePollAction::PollAgain { extra_wait_ms: 0 }));
    assert!(matches!(compile_poll_action(st("Building"), true), CompilePollAction::PollAgain { extra_wait_ms: 0 }));
    assert!(matches!(
        compile_poll_action(CompileRead::RateLimited, true),
        CompilePollAction::PollAgain { extra_wait_ms: 1400 }
    ));
    assert!(matches!(compile_poll_action(CompileRead::Failed, false), CompilePollAction::Requeue));
    assert!(push_accepted(true, true));
    assert!(!push_accepted(true, false));
    assert!(!push_accepted(false, true));
}

#[test]
fn non_success_answers_retry_by_status() {
    for s in [408u16, 429, 500, 502, 503, 504] {
        let f = http_failure(HttpMethod::Post, "/compile/create", s, b"{}");
        assert_eq!(f.status, s);
        assert_eq!(f.message, format!("qc POST /compile/create HTTP {s} body={{}}"));
        assert!(status_is_transient(s));
        let report = ErrorReport { chain: vec![Some(failure_facts(&f))], message: f.message.clone() };
        assert!(is_transient(&report));
    }
    for s in [400u16, 401, 403, 404, 501] {
        let f = http_failure(HttpMethod::Delete, "/projects/delete", s, b"gateway timed out");
        assert!(!status_is_transient(s));
        let report = ErrorReport { chain: vec![Some(failure_facts(&f))], message: f.message.clone() };
        assert!(!is_transient(&report));
    }
}
