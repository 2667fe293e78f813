//! Decisions of warming one job: the local checks before code is pushed, and
//! what follows each answer of the compile service.
use vstd::prelude::*;
use vstd::string::*;
use crate::text::{decimal, dec_digits, same_text};
use crate::projects::texts;

verus! {

/// The most characters the cloud service accepts in one file.
pub const QC_FILE_MAX: usize = 128000;

/// std's `Debug` rendering of a list of strings (`["a", "b"]`, with each
/// string quoted and escaped).
pub uninterp spec fn debug_list(items: Seq<Seq<char>>) -> Seq<char>;

/// `format!("{:?}", items)` for a list of strings.
#[verifier::external_body]
fn debug_strings(items: &[String]) -> (s: String)
    ensures
        s@ == debug_list(texts(items@)),
{
    format!("{:?}", items)
}

/// The failure recorded for a job whose code is longer than the service accepts.
pub open spec fn oversize_reason(used: nat) -> Seq<char> {
    "push_failed: [\"File exceeds the maximum size of 128000 characters by using "@ + dec_digits(used)
        + ".\"]"@
}

/// The local size check: code longer than 128000 bytes (`str::len`) is refused before any
/// call to the service, with the reason to record for the job.
pub fn oversize_failure(code: &str) -> (r: Option<String>)
    ensures
        code.len() > QC_FILE_MAX ==> (r matches Some(m) && m@ == oversize_reason(code.len() as nat)),
        code.len() <= QC_FILE_MAX ==> r is None,
{
    let used = code.len();
    if used > QC_FILE_MAX {
        let mut m = String::from_str("push_failed: [\"File exceeds the maximum size of 128000 characters by using ");
        let digits = decimal(used as u64);
        m.append(digits.as_str());
        m.append(".\"]");
        Some(m)
    } else {
        None
    }
}

/// The first `n` characters of a text, or all of it when shorter.
pub open spec fn prefix_chars(s: Seq<char>, n: nat) -> Seq<char> {
    if s.len() <= n {
        s
    } else {
        s.take(n as int)
    }
}

/// The failure recorded for a job whose code fails the local syntax check.
pub open spec fn syntax_reason(err: Seq<char>) -> Seq<char> {
    "warmpool_compile_error: [\"local: "@ + prefix_chars(err, 200) + "\"]"@
}

/// The failure recorded for a job whose code fails the local syntax check:
/// the first 200 characters of the checker's message.
pub fn syntax_failure(err: &str) -> (m: String)
    ensures
        m@ == syntax_reason(err@),
{
    let n = err.unicode_len();
    let head: &str = if n <= 200 { err } else { err.substring_char(0, 200) };
    let mut m = String::from_str("warmpool_compile_error: [\"local: ");
    m.append(head);
    m.append("\"]");
    m
}

/// The answer to a request to start a compile.
pub enum CompileStart {
    /// The service answered: `success`, the compile id, and errors when it refused.
    Answered { success: bool, compile_id: String, errors: Vec<String> },
    /// The request failed.
    Failed,
}

/// What follows a request to start a compile.
pub enum CompileStartAction {
    /// Poll this compile.
    Poll { compile_id: String },
    /// The service refused: mark the job failed with this reason.
    MarkFailed { reason: String },
    /// The request failed: put the job back in the queue.
    Requeue,
}

/// A started compile is polled; a refusal fails the job for good, with the
/// service's errors as reason; a failed request puts the job back.
pub fn compile_start_action(a: CompileStart) -> (r: CompileStartAction)
    ensures
        match a {
            CompileStart::Answered { success, compile_id, errors } => if success {
                r matches CompileStartAction::Poll { compile_id: c } && c@ == compile_id@
            } else {
                r matches CompileStartAction::MarkFailed { reason } && reason@ == "warmpool_compile: "@ + debug_list(texts(errors@))
            },
            CompileStart::Failed => r is Requeue,
        },
{
    match a {
        CompileStart::Answered { success, compile_id, errors } => {
            if success {
                CompileStartAction::Poll { compile_id }
            } else {
                let mut reason = String::from_str("warmpool_compile: ");
                let listed = debug_strings(errors.as_slice());
                reason.append(listed.as_str());
                CompileStartAction::MarkFailed { reason }
            }
        },
        CompileStart::Failed => CompileStartAction::Requeue,
    }
}

/// One poll of a compile's state.
pub enum CompileRead {
    /// The service answered with the compile state and its build log.
    State { state: String, logs: Vec<String> },
    /// The service is throttling requests.
    RateLimited,
    /// The request failed otherwise.
    Failed,
}

/// What follows one poll.
pub enum CompilePollAction {
    /// The build succeeded: the job is warm.
    Ready,
    /// The build failed: mark the job failed with this reason.
    MarkFailed { reason: String },
    /// Give up for now and put the job back in the queue.
    Requeue,
    /// Poll again, after waiting this many extra milliseconds.
    PollAgain { extra_wait_ms: u64 },
}

/// Extra wait after a throttled poll.
pub const RATE_LIMIT_BACKOFF_MS: u64 = 1400;

/// Pause before every poll.
pub const POLL_INTERVAL_MS: u64 = 1050;

/// How long a compile may stay queued before the job is put back.
pub const COMPILE_DEADLINE_SECS: u64 = 60;

/// Decide what follows one poll of a compile: `BuildSuccess` makes the job
/// warm; `BuildError` fails it with the build log; a compile still
/// `InQueue` after the deadline, or a failed request, puts the job back; a
/// throttled request waits a little longer; any other state polls again.
pub fn compile_poll_action(read: CompileRead, past_deadline: bool) -> (r: CompilePollAction)
    ensures
        match read {
            CompileRead::State { state, logs } => if state@ == "BuildSuccess"@ {
                r is Ready
            } else if state@ == "BuildError"@ {
                r matches CompilePollAction::MarkFailed { reason } && reason@ == "warmpool_compile_error: "@ + debug_list(texts(logs@))
            } else if state@ == "InQueue"@ && past_deadline {
                r is Requeue
            } else {
                r == (CompilePollAction::PollAgain { extra_wait_ms: 0 })
            },
            CompileRead::RateLimited => r == (CompilePollAction::PollAgain { extra_wait_ms: RATE_LIMIT_BACKOFF_MS }),
            CompileRead::Failed => r is Requeue,
        },
{
    match read {
        CompileRead::State { state, logs } => {
            if same_text(state.as_str(), "BuildSuccess") {
                CompilePollAction::Ready
            } else if same_text(state.as_str(), "BuildError") {
                let mut reason = String::from_str("warmpool_compile_error: ");
                let listed = debug_strings(logs.as_slice());
                reason.append(listed.as_str());
                CompilePollAction::MarkFailed { reason }
            } else if same_text(state.as_str(), "InQueue") && past_deadline {
                CompilePollAction::Requeue
            } else {
                CompilePollAction::PollAgain { extra_wait_ms: 0 }
            }
        },
        CompileRead::RateLimited => CompilePollAction::PollAgain { extra_wait_ms: RATE_LIMIT_BACKOFF_MS },
        CompileRead::Failed => CompilePollAction::Requeue,
    }
}

/// Whether a push of the job's code went through: only an answer that
/// reports success does; anything else puts the job back.
pub fn push_accepted(answered: bool, success: bool) -> (ok: bool)
    ensures
        ok == (answered && success),
{
    answered && success
}

} // verus!
