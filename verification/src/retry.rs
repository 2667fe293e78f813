//! Retry policy and transient-error classification for cloud API calls.
//!
//! The policy is bounded: one first attempt plus six retries, waiting
//! 1, 2, 3, 5, 8 and 13 seconds before them (32 s in all). Errors that are
//! not transient end the call at once.
use vstd::prelude::*;
use crate::text::{has_infix, chars_of, chars_contain};
use crate::transport::HttpFailure;

verus! {

/// Number of attempts, the first one included.
pub const MAX_ATTEMPTS: usize = 7;

/// Seconds waited before retry number `k` (`k` in `0..6`).
pub open spec fn backoff_secs(k: int) -> u64 {
    if k == 0 { 1 } else if k == 1 { 2 } else if k == 2 { 3 } else if k == 3 { 5 } else if k == 4 {
        8
    } else { 13 }
}

/// Sum of the waits before the first `n` retries.
pub open spec fn total_backoff(n: int) -> int
    decreases n,
{
    if n <= 0 {
        0
    } else {
        total_backoff(n - 1) + backoff_secs(n - 1)
    }
}

/// How one attempt ended.
#[derive(Clone, Copy, PartialEq, Eq, Debug)]
pub enum AttemptOutcome {
    Succeeded,
    /// The attempt failed; `transient` tells whether the error may pass on its own.
    Failed { transient: bool },
}

/// What to do after an attempt.
#[derive(Clone, Copy, PartialEq, Eq, Debug)]
pub enum RetryDecision {
    /// Hand the attempt's result (value or error) to the caller.
    Finish,
    /// Wait `delay_secs` seconds, then make attempt number `next_attempt` (0-based).
    Retry { next_attempt: usize, delay_secs: u64 },
}

/// The decision that the policy takes after attempt `attempt` (0-based).
pub open spec fn spec_retry_decision(attempt: int, outcome: AttemptOutcome) -> RetryDecision {
    match outcome {
        AttemptOutcome::Succeeded => RetryDecision::Finish,
        AttemptOutcome::Failed { transient } => if transient && attempt + 1 < MAX_ATTEMPTS {
            RetryDecision::Retry { next_attempt: (attempt + 1) as usize, delay_secs: backoff_secs(attempt) }
        } else {
            RetryDecision::Finish
        },
    }
}

fn backoff(k: usize) -> (secs: u64)
    requires
        k < 6,
    ensures
        secs == backoff_secs(k as int),
{
    if k == 0 { 1 } else if k == 1 { 2 } else if k == 2 { 3 } else if k == 3 { 5 } else if k == 4 {
        8
    } else { 13 }
}

/// Decide what follows attempt `attempt` (0-based) that ended with `outcome`:
/// success and permanent errors finish the call; a transient error is retried
/// after the next back-off step until seven attempts have been made, and the
/// last error is then returned.
pub fn retry_decision(attempt: usize, outcome: AttemptOutcome) -> (d: RetryDecision)
    requires
        attempt < MAX_ATTEMPTS,
    ensures
        d == spec_retry_decision(attempt as int, outcome),
{
    match outcome {
        AttemptOutcome::Succeeded => RetryDecision::Finish,
        AttemptOutcome::Failed { transient } => {
            if transient && attempt + 1 < MAX_ATTEMPTS {
                RetryDecision::Retry { next_attempt: attempt + 1, delay_secs: backoff(attempt) }
            } else {
                RetryDecision::Finish
            }
        },
    }
}

/// Whether a failure of attempt `attempt` (0-based) is worth a warning
/// naming the attempt: it is, when another attempt may follow.
pub fn warn_on_failure(attempt: usize) -> (w: bool)
    ensures
        w == (attempt + 1 < MAX_ATTEMPTS),
{
    attempt < MAX_ATTEMPTS - 1
}

/// A call fails within at most seven attempts: after attempt six no retry
/// follows, whatever the outcome.
pub proof fn law_attempts_bounded(attempt: int, outcome: AttemptOutcome)
    requires
        0 <= attempt < MAX_ATTEMPTS,
    ensures
        spec_retry_decision(attempt, outcome) matches RetryDecision::Retry { next_attempt, .. }
            ==> next_attempt == attempt + 1 && next_attempt < MAX_ATTEMPTS,
        attempt == MAX_ATTEMPTS - 1 ==> spec_retry_decision(attempt, outcome) == RetryDecision::Finish,
{
}

/// Errors that are not transient are never retried, and successes end the call.
pub proof fn law_fail_fast(attempt: int)
    requires
        0 <= attempt < MAX_ATTEMPTS,
    ensures
        spec_retry_decision(attempt, AttemptOutcome::Failed { transient: false }) == RetryDecision::Finish,
        spec_retry_decision(attempt, AttemptOutcome::Succeeded) == RetryDecision::Finish,
{
}

/// The waits of a call that fails transiently every time add up to 32 seconds.
pub proof fn law_total_backoff()
    ensures
        total_backoff((MAX_ATTEMPTS - 1) as int) == 32,
        forall|k: int| 0 <= k < MAX_ATTEMPTS - 1 ==> spec_retry_decision(k, AttemptOutcome::Failed { transient: true })
            == (RetryDecision::Retry { next_attempt: (k + 1) as usize, delay_secs: backoff_secs(k) }),
{
    reveal_with_fuel(total_backoff, 7);
}

/// What is known of one error in an error chain that came from the HTTP client.
#[derive(Clone, Copy, PartialEq, Eq, Debug)]
pub struct HttpErrorFacts {
    /// HTTP status of the response, when the error carries one.
    pub status: Option<u16>,
    pub is_timeout: bool,
    pub is_connect: bool,
    pub is_request: bool,
    pub is_body: bool,
}

/// What the classifier reads of an error: each link of its chain (the HTTP
/// client's facts where the link is an HTTP client error) and its message.
pub struct ErrorReport {
    pub chain: Vec<Option<HttpErrorFacts>>,
    pub message: String,
}

/// Statuses that mark a retriable server-side or throttling condition.
pub open spec fn transient_status(s: u16) -> bool {
    s == 500 || s == 502 || s == 503 || s == 504 || s == 408 || s == 429
}

/// Message fragments that mark a transient failure.
pub open spec fn transient_message(m: Seq<char>) -> bool {
    has_infix(m, "502"@) || has_infix(m, "503"@) || has_infix(m, "504"@) || has_infix(
        m,
        "Bad Gateway"@,
    ) || has_infix(m, "Gateway Time"@) || has_infix(m, "timed out"@) || has_infix(
        m,
        "connection reset"@,
    ) || has_infix(m, "connection closed"@)
}

/// Classification by the chain: the first HTTP client error that carries a
/// status decides by its status; before that, one that timed out, failed to
/// connect, or failed in the request or body counts as transient. `None`
/// when the chain decides nothing.
pub open spec fn chain_verdict(chain: Seq<Option<HttpErrorFacts>>) -> Option<bool>
    decreases chain.len(),
{
    if chain.len() == 0 {
        None
    } else {
        match chain[0] {
            Some(f) => match f.status {
                Some(s) => Some(transient_status(s)),
                None => if f.is_timeout || f.is_connect || f.is_request || f.is_body {
                    Some(true)
                } else {
                    chain_verdict(chain.drop_first())
                },
            },
            None => chain_verdict(chain.drop_first()),
        }
    }
}

/// An error is transient when its chain says so, or, where the chain decides
/// nothing, when its message names a gateway error, a timeout or a dropped connection.
pub open spec fn spec_is_transient(chain: Seq<Option<HttpErrorFacts>>, message: Seq<char>) -> bool {
    match chain_verdict(chain) {
        Some(v) => v,
        None => transient_message(message),
    }
}

/// Whether a response status marks a retriable condition: 408, 429, 500 and 502 to 504.
pub fn status_is_transient(s: u16) -> (r: bool)
    ensures
        r == transient_status(s),
{
    s == 500 || s == 502 || s == 503 || s == 504 || s == 408 || s == 429
}

fn message_contains(m: &Vec<char>, needle: &str) -> (r: bool)
    ensures
        r == has_infix(m@, needle@),
{
    let n = chars_of(needle);
    chars_contain(m, &n)
}

/// Classify an error as transient (retry) or permanent (fail fast).
pub fn is_transient(e: &ErrorReport) -> (r: bool)
    ensures
        r == spec_is_transient(e.chain@, e.message@),
{
    let mut i: usize = 0;
    assert(e.chain@.skip(0) =~= e.chain@);
    while i < e.chain.len()
        invariant
            i <= e.chain.len(),
            chain_verdict(e.chain@) == chain_verdict(e.chain@.skip(i as int)),
        decreases e.chain.len() - i,
    {
        proof {
            assert(e.chain@.skip(i as int)[0] == e.chain@[i as int]);
            assert(e.chain@.skip(i as int).drop_first() =~= e.chain@.skip(i + 1));
        }
        if let Some(f) = e.chain[i] {
            if let Some(s) = f.status {
                return status_is_transient(s);
            }
            if f.is_timeout || f.is_connect || f.is_request || f.is_body {
                return true;
            }
        }
        i = i + 1;
    }
    proof {
        assert(e.chain@.skip(i as int).len() == 0);
    }
    let m = chars_of(e.message.as_str());
    message_contains(&m, "502") || message_contains(&m, "503") || message_contains(&m, "504")
        || message_contains(&m, "Bad Gateway") || message_contains(&m, "Gateway Time")
        || message_contains(&m, "timed out") || message_contains(&m, "connection reset")
        || message_contains(&m, "connection closed")
}

/// What the classifier knows of a non-2xx answer: its status, and none of
/// the transport-level flags.
pub open spec fn spec_failure_facts(status: u16) -> HttpErrorFacts {
    HttpErrorFacts { status: Some(status), is_timeout: false, is_connect: false, is_request: false, is_body: false }
}

/// The chain link that stands for a non-2xx answer.
pub fn failure_facts(f: &HttpFailure) -> (facts: HttpErrorFacts)
    ensures
        facts == spec_failure_facts(f.status),
{
    HttpErrorFacts { status: Some(f.status), is_timeout: false, is_connect: false, is_request: false, is_body: false }
}

/// An error whose chain starts with a non-2xx answer is retried exactly when
/// the status is transient (408, 429, 500, 502, 503, 504), whatever the
/// rest of the chain and the message hold.
pub proof fn law_failed_status_decides(status: u16, rest: Seq<Option<HttpErrorFacts>>, message: Seq<char>)
    ensures
        spec_is_transient(seq![Some(spec_failure_facts(status))] + rest, message) == transient_status(status),
        (status == 408 || status == 429 || status == 500 || status == 502 || status == 503 || status == 504)
            <==> transient_status(status),
{
    assert((seq![Some(spec_failure_facts(status))] + rest)[0] == Some(spec_failure_facts(status)));
}

/// Transport failures are retried: an error whose first link from the HTTP
/// client carries no status and reports a timeout, a failed connection, a
/// failed request or a failed body is transient, whatever links without
/// HTTP facts come before it and whatever follows or the message says.
pub proof fn law_transport_failures_retried(
    before: Seq<Option<HttpErrorFacts>>,
    facts: HttpErrorFacts,
    rest: Seq<Option<HttpErrorFacts>>,
    message: Seq<char>,
)
    requires
        forall|j: int| 0 <= j < before.len() ==> #[trigger] before[j] is None,
        facts.status is None,
        facts.is_timeout || facts.is_connect || facts.is_request || facts.is_body,
    ensures
        spec_is_transient(before + seq![Some(facts)] + rest, message),
    decreases before.len(),
{
    let chain = before + seq![Some(facts)] + rest;
    if before.len() == 0 {
        assert(chain[0] == Some(facts));
    } else {
        assert(chain[0] == before[0]);
        assert(chain.drop_first() =~= before.drop_first() + seq![Some(facts)] + rest);
        law_transport_failures_retried(before.drop_first(), facts, rest, message);
    }
}

/// Where no link of the chain comes from the HTTP client, a message that
/// names a gateway status (502, 503, 504, "Bad Gateway", "Gateway Time"), a
/// timeout or a dropped connection marks the error as transient.
pub proof fn law_gateway_messages_retried(chain: Seq<Option<HttpErrorFacts>>, message: Seq<char>)
    requires
        forall|j: int| 0 <= j < chain.len() ==> #[trigger] chain[j] is None,
        has_infix(message, "502"@) || has_infix(message, "503"@) || has_infix(message, "504"@)
            || has_infix(message, "Bad Gateway"@) || has_infix(message, "Gateway Time"@)
            || has_infix(message, "timed out"@) || has_infix(message, "connection reset"@)
            || has_infix(message, "connection closed"@),
    ensures
        spec_is_transient(chain, message),
{
    lemma_no_facts_no_verdict(chain);
}

/// A chain without HTTP client links decides nothing.
proof fn lemma_no_facts_no_verdict(chain: Seq<Option<HttpErrorFacts>>)
    requires
        forall|j: int| 0 <= j < chain.len() ==> #[trigger] chain[j] is None,
    ensures
        chain_verdict(chain) is None,
    decreases chain.len(),
{
    if chain.len() > 0 {
        assert(chain[0] is None);
        assert forall|j: int| 0 <= j < chain.drop_first().len() implies #[trigger] chain.drop_first()[j] is None by {
            assert(chain.drop_first()[j] == chain[j + 1]);
        }
        lemma_no_facts_no_verdict(chain.drop_first());
    }
}

/// Client errors other than 408 (timeout) and 429 (too many requests) are
/// permanent: an error whose first status-carrying link reports one is not
/// retried.
pub proof fn law_client_errors_fail_fast(facts: HttpErrorFacts, rest: Seq<Option<HttpErrorFacts>>, message: Seq<char>)
    requires
        facts.status matches Some(s) && 400 <= s < 500 && s != 408 && s != 429,
    ensures
        !spec_is_transient(seq![Some(facts)] + rest, message),
{
    assert((seq![Some(facts)] + rest)[0] == Some(facts));
}

} // verus!
