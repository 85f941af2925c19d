//! The retry policy around the HTTP transport: which failures are worth
//! another attempt, and with what backoff delay. The transport itself lives
//! outside this library; callers perform the fetch, hand the failure in, and
//! obey the decision.
use vstd::prelude::*;

verus! {

/// Why a fetch failed.
#[derive(Clone, Copy, PartialEq, Eq, Structural, Debug)]
pub enum FetchError {
    /// Connection trouble or a timeout: worth retrying.
    Network,
    /// The server answered with this status code.
    HttpStatus(u16),
    /// The retry budget is spent.
    Terminal,
}

/// A failure worth another attempt: network trouble, throttling (429), or a
/// server-side status (5xx). Any other status is final, and so is a spent
/// budget.
pub open spec fn retryable(e: FetchError) -> bool {
    match e {
        FetchError::Network => true,
        FetchError::HttpStatus(code) => code == 429 || (500 <= code && code <= 599),
        FetchError::Terminal => false,
    }
}

/// What to do after a failed attempt.
#[derive(Clone, Copy, PartialEq, Eq, Structural, Debug)]
pub enum RetryDecision {
    /// Try again after waiting this many milliseconds.
    RetryAfter(u64),
    /// Stop: the failure is terminal or the budget is spent.
    GiveUp,
}

/// Bounded exponential backoff: `max_attempts` tries in all, waiting
/// `base_delay_ms` doubled once per completed attempt, capped.
pub struct RetryPolicy {
    pub max_attempts: u32,
    pub base_delay_ms: u64,
}

/// The delay is never grown past this bound.
pub open spec fn delay_cap() -> int {
    3600000
}

/// The backoff delay before retry number `attempt + 1`: the base delay
/// doubled `attempt` times, capped at an hour.
pub open spec fn backoff(base: u64, attempt: nat) -> int
    decreases attempt,
{
    if attempt == 0 {
        if base > delay_cap() {
            delay_cap()
        } else {
            base as int
        }
    } else {
        let d = backoff(base, (attempt - 1) as nat);
        if 2 * d > delay_cap() {
            delay_cap()
        } else {
            2 * d
        }
    }
}

impl RetryPolicy {
    /// Three attempts, half a second before the second one.
    pub fn new_default() -> (r: RetryPolicy)
        ensures
            r.max_attempts == 3,
            r.base_delay_ms == 500,
    {
        RetryPolicy { max_attempts: 3, base_delay_ms: 500 }
    }

    /// Decides what follows the failure of attempt number `attempt` (counted
    /// from zero). Orders a retry exactly when the failure is retryable and
    /// an attempt is left in the budget, and then with the backoff delay.
    pub fn next_action(&self, attempt: u32, e: &FetchError) -> (r: RetryDecision)
        ensures
            r matches RetryDecision::RetryAfter(d) <==> retryable(*e) && attempt + 1
                < self.max_attempts,
            r matches RetryDecision::RetryAfter(d) ==> d == backoff(
                self.base_delay_ms,
                attempt as nat,
            ),
    {
        let retry_ok = match e {
            FetchError::Network => true,
            FetchError::HttpStatus(code) => *code == 429 || (500 <= *code && *code <= 599),
            FetchError::Terminal => false,
        };
        if !retry_ok {
            return RetryDecision::GiveUp;
        }
        if attempt >= u32::MAX - 1 || attempt + 1 >= self.max_attempts {
            return RetryDecision::GiveUp;
        }
        let mut d: u64 = if self.base_delay_ms > 3600000 {
            3600000
        } else {
            self.base_delay_ms
        };
        let mut k: u32 = 0;
        while k < attempt
            invariant
                k <= attempt,
                d == backoff(self.base_delay_ms, k as nat),
                d <= 3600000,
            decreases attempt - k,
        {
            d = if 2 * d > 3600000 {
                3600000
            } else {
                2 * d
            };
            k += 1;
        }
        RetryDecision::RetryAfter(d)
    }
}

} // verus!
