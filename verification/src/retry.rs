//! Rate-limit-aware retry.
//!
//! A remote call is attempted, its status classified, and on a
//! "too many requests" answer the call is retried after an
//! exponentially-graduated delay, up to a fixed ceiling.  Any other status
//! ends the call at once: success and hard failure are never retried.

use vstd::prelude::*;

verus! {

/// The status signalling "too many requests".
pub const RATE_LIMIT_STATUS: u16 = 429;

/// Default retry ceiling of the client.
pub const DEFAULT_MAX_RETRIES: u32 = 3;

/// Delay before the first retry, in milliseconds.
pub const BASE_DELAY_MS: u64 = 1000;

/// Extra delay added per attempt, in milliseconds.
pub const DELAY_STEP_MS: u64 = 500;

/// How one HTTP status is treated.
#[derive(Debug, Clone, Copy, PartialEq, Eq, Structural)]
pub enum StatusClass {
    /// 2xx: the body is consumed.
    Success,
    /// Too many requests: the call is retried after a delay.
    RateLimited,
    /// Any other status: surfaced at once, never retried.
    HardFailure,
}

pub open spec fn spec_status_class(status: u16) -> StatusClass {
    if status == 429 {
        StatusClass::RateLimited
    } else if 200 <= status < 300 {
        StatusClass::Success
    } else {
        StatusClass::HardFailure
    }
}

pub fn classify_status(status: u16) -> (r: StatusClass)
    ensures
        r == spec_status_class(status),
{
    if status == RATE_LIMIT_STATUS {
        StatusClass::RateLimited
    } else if 200 <= status && status < 300 {
        StatusClass::Success
    } else {
        StatusClass::HardFailure
    }
}

/// Delay before retry number `attempt` (1-based), in milliseconds.
pub open spec fn spec_retry_delay_ms(attempt: u32) -> int {
    BASE_DELAY_MS as int + (attempt as int) * (DELAY_STEP_MS as int)
}

pub fn retry_delay_ms(attempt: u32) -> (r: u64)
    ensures
        r as int == spec_retry_delay_ms(attempt),
{
    BASE_DELAY_MS + (attempt as u64) * DELAY_STEP_MS
}

/// Later retries always wait strictly longer: the backoff is
/// exponentially graduated, never flat.
pub proof fn lemma_backoff_strictly_increasing(a: u32, b: u32)
    requires
        a < b,
    ensures
        spec_retry_delay_ms(a) < spec_retry_delay_ms(b),
{
}

/// Attempt counter of one in-flight call, bounded by the retry ceiling.
#[derive(Debug, Clone, Copy)]
pub struct RetryState {
    /// Retries consumed so far.
    pub attempt: u32,
    /// Ceiling on retries; once exceeded the call fails.
    pub max_retries: u32,
}

/// What to do after one rate-limited answer.
#[derive(Debug, Clone, Copy, PartialEq, Eq, Structural)]
pub enum RetryDecision {
    /// Wait this long, then reissue the same call.
    Wait { delay_ms: u64 },
    /// The ceiling is exceeded: fail with `RateLimitExceeded`.
    GiveUp,
}

impl RetryState {
    pub open spec fn wf(self) -> bool {
        self.attempt <= self.max_retries && self.max_retries < u32::MAX
    }

    pub fn new(max_retries: u32) -> (r: RetryState)
        requires
            max_retries < u32::MAX,
        ensures
            r.attempt == 0,
            r.max_retries == max_retries,
            r.wf(),
    {
        RetryState { attempt: 0, max_retries }
    }

    /// One rate-limited answer was observed: count the attempt and either
    /// schedule the next retry's delay or give up once the ceiling is passed.
    pub fn on_rate_limited(&mut self) -> (r: RetryDecision)
        requires
            old(self).wf(),
        ensures
            final(self).max_retries == old(self).max_retries,
            final(self).attempt == old(self).attempt + 1,
            r is GiveUp <==> final(self).attempt > final(self).max_retries,
            r matches RetryDecision::Wait { delay_ms } ==> delay_ms as int == spec_retry_delay_ms(
                final(self).attempt,
            ) && final(self).wf(),
    {
        self.attempt = self.attempt + 1;
        if self.attempt > self.max_retries {
            RetryDecision::GiveUp
        } else {
            RetryDecision::Wait { delay_ms: retry_delay_ms(self.attempt) }
        }
    }
}

/// What the transport produced for one attempt of a call.
#[derive(Debug, Clone, Copy, PartialEq, Eq, Structural)]
pub enum AttemptResult {
    /// The request never produced a response.
    NoResponse,
    /// A response with this status arrived.
    Status(u16),
}

pub open spec fn is_rate_limited(a: AttemptResult) -> bool {
    a == AttemptResult::Status(429u16)
}

/// Outcome of a whole call, retries included.
#[derive(Debug, Clone)]
pub enum CallOutcome {
    /// Attempt `attempts` (1-based) got no response; surfaced at once.
    Transport { attempts: usize },
    /// Every allowed attempt was rate-limited; `delays_ms` are the waits
    /// that were taken between attempts.
    TooManyRetries { delays_ms: Vec<u64> },
    /// Attempt `attempts` (1-based) answered with `status` (any status other
    /// than the rate-limit one, success or not).
    Responded { status: u16, attempts: usize, delays_ms: Vec<u64> },
}

/// Runs one call to completion against a given sequence of per-attempt
/// transport results: retries exactly the rate-limited answers, waits the
/// graduated delays in order, and stops on the first other result or once
/// the ceiling is passed.  `attempts[i]` is what attempt `i+1` would get.
pub fn run_call(attempts: &Vec<AttemptResult>, max_retries: u32) -> (r: CallOutcome)
    requires
        max_retries < u32::MAX,
        attempts@.len() > max_retries,
    ensures
        ({
            let s = attempts@;
            &&& (r matches CallOutcome::Responded { status, attempts: n, delays_ms } ==> {
                &&& 1 <= n <= max_retries + 1
                &&& s[n - 1] == AttemptResult::Status(status)
                &&& status != 429
                &&& forall|j: int| 0 <= j < n - 1 ==> is_rate_limited(#[trigger] s[j])
                &&& delays_ms@.len() == n - 1
                &&& forall|j: int|
                    0 <= j < n - 1 ==> #[trigger] delays_ms@[j] as int == spec_retry_delay_ms(
                        (j + 1) as u32,
                    )
                &&& forall|i: int, j: int|
                    0 <= i < j < delays_ms@.len() ==> #[trigger] delays_ms@[i]
                        < #[trigger] delays_ms@[j]
            })
            &&& (r matches CallOutcome::Transport { attempts: n } ==> {
                &&& 1 <= n <= max_retries + 1
                &&& s[n - 1] is NoResponse
                &&& forall|j: int| 0 <= j < n - 1 ==> is_rate_limited(#[trigger] s[j])
            })
            &&& (r matches CallOutcome::TooManyRetries { delays_ms } ==> {
                &&& forall|j: int| 0 <= j <= max_retries ==> is_rate_limited(#[trigger] s[j])
                &&& delays_ms@.len() == max_retries
                &&& forall|j: int|
                    0 <= j < max_retries ==> #[trigger] delays_ms@[j] as int == spec_retry_delay_ms(
                        (j + 1) as u32,
                    )
                &&& forall|i: int, j: int|
                    0 <= i < j < delays_ms@.len() ==> #[trigger] delays_ms@[i]
                        < #[trigger] delays_ms@[j]
            })
        }),
{
    let mut delays: Vec<u64> = Vec::new();
    let mut state = RetryState::new(max_retries);
    let mut i: usize = 0;
    loop
        invariant
            state.wf(),
            state.max_retries == max_retries,
            state.attempt == i,
            i <= max_retries,
            attempts@.len() > max_retries,
            forall|j: int| 0 <= j < i ==> is_rate_limited(#[trigger] attempts@[j]),
            delays@.len() == i,
            forall|j: int|
                0 <= j < i ==> #[trigger] delays@[j] as int == spec_retry_delay_ms((j + 1) as u32),
        decreases max_retries - i,
    {
        match attempts[i] {
            AttemptResult::NoResponse => {
                return CallOutcome::Transport { attempts: i + 1 };
            },
            AttemptResult::Status(status) => {
                if status != RATE_LIMIT_STATUS {
                    proof {
                        assert forall|x: int, y: int|
                            0 <= x < y < delays@.len() implies #[trigger] delays@[x]
                            < #[trigger] delays@[y] by {
                            lemma_backoff_strictly_increasing((x + 1) as u32, (y + 1) as u32);
                        }
                    }
                    return CallOutcome::Responded {
                        status,
                        attempts: i + 1,
                        delays_ms: delays,
                    };
                }
                match state.on_rate_limited() {
                    RetryDecision::GiveUp => {
                        proof {
                            assert forall|x: int, y: int|
                                0 <= x < y < delays@.len() implies #[trigger] delays@[x]
                                < #[trigger] delays@[y] by {
                                lemma_backoff_strictly_increasing((x + 1) as u32, (y + 1) as u32);
                            }
                        }
                        return CallOutcome::TooManyRetries { delays_ms: delays };
                    },
                    RetryDecision::Wait { delay_ms } => {
                        delays.push(delay_ms);
                        i = i + 1;
                    },
                }
            },
        }
    }
}

} // verus!
