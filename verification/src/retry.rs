//! The retry engine's decisions: which outcomes are retried, how many
//! attempts a run makes, and the exponential backoff delay between attempts.
//! The loop that performs the attempts lives outside the library; it feeds
//! each outcome to `decide_next` and sleeps for `backoff_delay_ms`.

use vstd::prelude::*;

verus! {

/// A status code is retryable exactly when it is a server error (500-599),
/// 429 (too many requests) or 408 (request timeout).
pub open spec fn spec_retryable(status: u16) -> bool {
    (500 <= status <= 599) || status == 429 || status == 408
}

/// Decides whether a response status calls for another attempt.
pub fn should_retry_for_status(status_code: u16) -> (r: bool)
    ensures
        r == spec_retryable(status_code),
{
    (500 <= status_code && status_code <= 599) || status_code == 429 || status_code == 408
}

/// What one attempt came to: a transport failure (no response), or a response
/// with its status code.
#[derive(Debug, PartialEq, Eq, Structural, Clone, Copy)]
pub enum AttemptOutcome {
    TransportError,
    Response(u16),
}

/// What the engine does after an attempt: wait and try again, or hand the
/// outcome out as terminal.
#[derive(Debug, PartialEq, Eq, Structural, Clone, Copy)]
pub enum RetryDecision {
    Retry,
    Terminate,
}

/// An outcome is retried when it is a transport error or a retryable status.
pub open spec fn retryable_outcome(o: AttemptOutcome) -> bool {
    match o {
        AttemptOutcome::TransportError => true,
        AttemptOutcome::Response(status) => spec_retryable(status),
    }
}

/// The engine retries exactly when the outcome is retryable and attempts are
/// left; every other outcome is terminal on the spot.
pub open spec fn spec_decision(o: AttemptOutcome, attempts_made: int, max_attempts: int) -> RetryDecision {
    if retryable_outcome(o) && attempts_made < max_attempts {
        RetryDecision::Retry
    } else {
        RetryDecision::Terminate
    }
}

/// How many attempts a run allows: one more than the retry count.
pub fn max_attempts(retries: u32) -> (m: u64)
    ensures
        m == retries as int + 1,
{
    retries as u64 + 1
}

/// Decides, after attempt `attempts_made` of at most `max_attempts`, whether
/// the outcome is retried or terminal.
pub fn decide_next(outcome: &AttemptOutcome, attempts_made: u64, max_attempts: u64) -> (d:
    RetryDecision)
    ensures
        d == spec_decision(*outcome, attempts_made as int, max_attempts as int),
{
    let retryable = match outcome {
        AttemptOutcome::TransportError => true,
        AttemptOutcome::Response(status) => should_retry_for_status(*status),
    };
    if retryable && attempts_made < max_attempts {
        RetryDecision::Retry
    } else {
        RetryDecision::Terminate
    }
}

/// Powers of two.
pub open spec fn pow2(n: nat) -> nat
    decreases n,
{
    if n == 0 {
        1
    } else {
        2 * pow2((n - 1) as nat)
    }
}

/// The delay before the attempt after attempt `n`: the base delay doubled
/// once per attempt already made, held at the largest representable value
/// where it no longer fits.
pub open spec fn spec_backoff_ms(base_ms: u64, n: int) -> int {
    if base_ms * pow2((n - 1) as nat) > u64::MAX {
        u64::MAX as int
    } else {
        base_ms * pow2((n - 1) as nat)
    }
}

/// The backoff delay, in milliseconds, slept after attempt `attempts_made`
/// before the next one.
pub fn backoff_delay_ms(base_ms: u64, attempts_made: u64) -> (d: u64)
    requires
        1 <= attempts_made,
    ensures
        d as int == spec_backoff_ms(base_ms, attempts_made as int),
{
    let mut d: u64 = base_ms;
    let mut i: u64 = 1;
    proof {
        assert(pow2(0) == 1);
        assert(base_ms * pow2(0) == base_ms) by (nonlinear_arith)
            requires
                pow2(0) == 1,
        ;
        assert(spec_backoff_ms(base_ms, 1) == base_ms as int);
    }
    while i < attempts_made
        invariant
            1 <= i <= attempts_made,
            d as int == spec_backoff_ms(base_ms, i as int),
        decreases attempts_made - i,
    {
        let ghost p = pow2((i - 1) as nat);
        proof {
            assert(pow2(i as nat) == 2 * p);
            assert(base_ms * (2 * p) == 2 * (base_ms * p)) by (nonlinear_arith);
        }
        if d > u64::MAX / 2 {
            proof {
                if base_ms * p <= u64::MAX {
                    assert(d == base_ms * p);
                    assert(2 * (d as int) > u64::MAX);
                } else {
                    assert(d == u64::MAX);
                    assert(base_ms * p > u64::MAX);
                    assert(base_ms * (2 * p) >= base_ms * p) by (nonlinear_arith)
                        requires
                            p >= 0,
                            base_ms >= 0,
                    ;
                }
            }
            d = u64::MAX;
        } else {
            proof {
                assert(2 * (d as int) <= u64::MAX);
                if base_ms * p > u64::MAX {
                    assert(d == u64::MAX);
                    assert(false);
                }
                assert(d == base_ms * p);
            }
            d = d * 2;
        }
        i = i + 1;
    }
    d
}


/// Law: below the saturation point, each backoff delay is the double of the
/// one before it — the ladder base, base*2, base*4, ...
pub proof fn lemma_backoff_doubles(base_ms: u64, n: int)
    requires
        2 <= n,
        base_ms * pow2((n - 1) as nat) <= u64::MAX,
    ensures
        spec_backoff_ms(base_ms, n) == 2 * spec_backoff_ms(base_ms, n - 1),
{
    let p = pow2((n - 2) as nat);
    assert(pow2((n - 1) as nat) == 2 * p);
    assert(base_ms * (2 * p) == 2 * (base_ms * p)) by (nonlinear_arith);
}

/// How many attempts follow from attempt `n` on (that attempt included) when
/// every attempt yields the outcome `o` and at most `max` attempts are
/// allowed, by the engine's own decision rule.
pub open spec fn attempts_from(o: AttemptOutcome, n: int, max: int) -> int
    decreases max - n,
{
    if spec_decision(o, n, max) == RetryDecision::Retry {
        1 + attempts_from(o, n + 1, max)
    } else {
        1
    }
}

/// From attempt `n` of `max`, a run of retryable outcomes makes every attempt
/// that is left.
proof fn lemma_attempts_from_retryable(o: AttemptOutcome, n: int, max: int)
    requires
        retryable_outcome(o),
        1 <= n <= max,
    ensures
        attempts_from(o, n, max) == max - n + 1,
    decreases max - n,
{
    if n < max {
        lemma_attempts_from_retryable(o, n + 1, max);
    }
}

/// Law: with retry count `r`, a server that always answers with a retryable
/// status (or a transport that always fails) gets exactly `r + 1` attempts,
/// and the delay slept after attempt `n` is `base * 2^(n-1)` — the ladder
/// base, base*2, base*4, ... as long as it fits the delay's range.
pub proof fn lemma_always_retryable_run(o: AttemptOutcome, r: u32, base_ms: u64)
    requires
        retryable_outcome(o),
    ensures
        attempts_from(o, 1, r as int + 1) == r as int + 1,
        forall|n: int|
            1 <= n <= r && base_ms * pow2((n - 1) as nat) <= u64::MAX
                ==> #[trigger] spec_backoff_ms(base_ms, n) == base_ms * pow2((n - 1) as nat),
{
    lemma_attempts_from_retryable(o, 1, r as int + 1);
}

/// Law: a non-retryable status is terminal at once — exactly one attempt,
/// whatever the retry count.
pub proof fn lemma_non_retryable_single_attempt(status: u16, r: u32)
    requires
        !spec_retryable(status),
    ensures
        attempts_from(AttemptOutcome::Response(status), 1, r as int + 1) == 1,
{
}

/// What the terminal attempt answered: status code, protocol version and
/// headers, captured before the body is read.  The version and the headers
/// are carried as plain text.
#[derive(Debug)]
pub struct ResponseInfo {
    pub status: u16,
    pub version: String,
    pub headers: Vec<(String, String)>,
}

impl ResponseInfo {
    /// Bundles the captured response data.
    pub fn new(status: u16, version: String, headers: Vec<(String, String)>) -> (r: ResponseInfo)
        ensures
            r.status == status,
            r.version == version,
            r.headers == headers,
    {
        ResponseInfo { status, version, headers }
    }

    /// The response's status code.
    pub fn status(&self) -> (s: u16)
        ensures
            s == self.status,
    {
        self.status
    }

    /// The response's protocol version.
    pub fn version(&self) -> (v: &String)
        ensures
            v == self.version,
    {
        &self.version
    }

    /// The response's headers.
    pub fn headers(&self) -> (h: &Vec<(String, String)>)
        ensures
            h == self.headers,
    {
        &self.headers
    }
}

/// The three durations measured around the terminal attempt, in
/// milliseconds: time to the status and headers of that attempt, time to
/// read its body, and the wall-clock total from the very first attempt's
/// start to the body fully read.
#[derive(Debug, PartialEq, Eq, Structural, Clone, Copy)]
pub struct TimingInfo {
    pub response_time: u64,
    pub body_read_time: u64,
    pub total_time: u64,
}

impl TimingInfo {
    /// Bundles the three measured durations.
    pub fn new(response_time: u64, body_read_time: u64, total_time: u64) -> (t: TimingInfo)
        ensures
            t.response_time == response_time,
            t.body_read_time == body_read_time,
            t.total_time == total_time,
    {
        TimingInfo { response_time, body_read_time, total_time }
    }
}

} // verus!
