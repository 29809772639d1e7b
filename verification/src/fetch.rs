//! The retry policy for fetching a page: what to do after each attempt.
//!
//! The caller owns the connection. It makes one request, reports what came
//! of it, and is told whether to wait and try again, to give up, or that the
//! page is there.

use vstd::prelude::*;

verus! {

/// The longest pause between two attempts, in seconds.
pub const MAX_BACKOFF_SECONDS: u64 = 300;

/// The time allowed for a whole request, in seconds.
pub const REQUEST_TIMEOUT_SECONDS: u64 = 20;

/// The time allowed for connecting, in seconds.
pub const CONNECT_TIMEOUT_SECONDS: u64 = 20;

/// The pause after a failed connection grows by this many seconds with each
/// rate limit met so far.
pub const CONNECTION_BACKOFF_SECONDS: u64 = 10;

/// The pause after a rate limit grows by this many seconds with each rate
/// limit met so far.
pub const RATE_LIMIT_BACKOFF_SECONDS: u64 = 60;

/// The status code of a page that was delivered.
pub const STATUS_OK: u16 = 200;

/// The status code by which the server asks for fewer requests.
pub const STATUS_TOO_MANY_REQUESTS: u16 = 429;

/// The user agent under which pages are requested.
pub fn user_agent() -> (agent: &'static str)
    ensures
        agent@ == "Mozilla/5.0 (Windows NT 10.0; rv:109.0) Gecko/20100101 Firefox/115.0"@,
{
    "Mozilla/5.0 (Windows NT 10.0; rv:109.0) Gecko/20100101 Firefox/115.0"
}

/// What one attempt to fetch a page came to.
pub enum Attempt {
    /// No response: the name did not resolve, the connection failed or timed
    /// out.
    ConnectionFailed,
    /// A response with its status code. `body` is the decoded text of a
    /// response with status 200, or `None` where it could not be decoded.
    Response { status: u16, body: Option<String> },
}

/// Why a fetch was given up.
#[derive(Debug, Clone, Copy, PartialEq, Eq, Structural)]
pub enum FetchError {
    /// The server answered with a status from 500 to 599.
    ServerError,
    /// The server answered with another status that is not 200, or the body
    /// could not be decoded.
    ResponseError,
}

/// Why the next attempt has to wait.
#[derive(Debug, Clone, Copy, PartialEq, Eq, Structural)]
pub enum WaitReason {
    /// The last attempt got no response.
    ConnectionFailed,
    /// The server asked for fewer requests.
    RateLimited,
}

/// What to do after an attempt.
pub enum FetchStep {
    /// Wait for `seconds`, then try again.
    Wait { seconds: u64, reason: WaitReason },
    /// Give up.
    Fail(FetchError),
    /// The page is there, with this text.
    Done(String),
}

/// A status code from 500 to 599.
pub open spec fn is_server_error(status: u16) -> bool {
    500 <= status < 600
}

/// `factor` seconds for each rate limit met, but at most the longest pause.
pub open spec fn backoff_seconds(factor: u64, rate_limits: u64) -> int {
    if factor * rate_limits <= MAX_BACKOFF_SECONDS {
        factor * rate_limits
    } else {
        MAX_BACKOFF_SECONDS as int
    }
}

/// The number of rate limits met once one more is met. The count stops at
/// the largest `u64`.
pub open spec fn count_after_rate_limit(rate_limits: u64) -> u64 {
    if rate_limits < u64::MAX {
        (rate_limits + 1) as u64
    } else {
        rate_limits
    }
}

/// The policy: the count of rate limits after the attempt, and the next
/// step.
///
/// A failed connection is tried again after 10 seconds for each rate limit
/// met so far; a rate limit is counted and tried again after 60 seconds for
/// each one met, the new one included; no pause is longer than 300 seconds.
/// A server error and any other status but 200 end the fetch, as does a body
/// that cannot be decoded.
pub open spec fn step_after(rate_limits: u64, attempt: Attempt) -> (u64, FetchStep) {
    match attempt {
        Attempt::ConnectionFailed => (
            rate_limits,
            FetchStep::Wait {
                seconds: backoff_seconds(CONNECTION_BACKOFF_SECONDS, rate_limits) as u64,
                reason: WaitReason::ConnectionFailed,
            },
        ),
        Attempt::Response { status, body } => if status == STATUS_OK {
            match body {
                Some(text) => (rate_limits, FetchStep::Done(text)),
                None => (rate_limits, FetchStep::Fail(FetchError::ResponseError)),
            }
        } else if status == STATUS_TOO_MANY_REQUESTS {
            (
                count_after_rate_limit(rate_limits),
                FetchStep::Wait {
                    seconds: backoff_seconds(
                        RATE_LIMIT_BACKOFF_SECONDS,
                        count_after_rate_limit(rate_limits),
                    ) as u64,
                    reason: WaitReason::RateLimited,
                },
            )
        } else if is_server_error(status) {
            (rate_limits, FetchStep::Fail(FetchError::ServerError))
        } else {
            (rate_limits, FetchStep::Fail(FetchError::ResponseError))
        },
    }
}

/// The state of one fetch: how many rate limits it has met.
pub struct Backoff {
    rate_limits: u64,
}

impl Backoff {
    /// The number of rate limits met so far.
    pub closed spec fn rate_limits(&self) -> u64 {
        self.rate_limits
    }

    /// The state before the first attempt.
    pub fn new() -> (backoff: Backoff)
        ensures
            backoff.rate_limits() == 0,
    {
        Backoff { rate_limits: 0 }
    }

    /// The pause of `factor` seconds for each rate limit met so far, capped.
    fn pause(&self, factor: u64) -> (seconds: u64)
        requires
            0 < factor <= MAX_BACKOFF_SECONDS,
        ensures
            seconds == backoff_seconds(factor, self.rate_limits()),
            seconds <= MAX_BACKOFF_SECONDS,
    {
        if self.rate_limits > MAX_BACKOFF_SECONDS / factor {
            assert(factor * self.rate_limits > MAX_BACKOFF_SECONDS) by (nonlinear_arith)
                requires
                    0 < factor,
                    self.rate_limits >= MAX_BACKOFF_SECONDS / factor + 1,
            ;
            MAX_BACKOFF_SECONDS
        } else {
            assert(factor * self.rate_limits <= MAX_BACKOFF_SECONDS) by (nonlinear_arith)
                requires
                    0 < factor,
                    self.rate_limits <= MAX_BACKOFF_SECONDS / factor,
            ;
            factor * self.rate_limits
        }
    }

    /// Takes in what an attempt came to and says what to do next.
    ///
    /// Only a rate limit changes the state. Any number of attempts may end
    /// in a pause: the policy never gives up on a connection failure or a
    /// rate limit.
    pub fn on_attempt(&mut self, attempt: Attempt) -> (step: FetchStep)
        ensures
            (final(self).rate_limits(), step) == step_after(old(self).rate_limits(), attempt),
            step matches FetchStep::Wait { seconds, .. } ==> seconds <= MAX_BACKOFF_SECONDS,
    {
        match attempt {
            Attempt::ConnectionFailed => FetchStep::Wait {
                seconds: self.pause(CONNECTION_BACKOFF_SECONDS),
                reason: WaitReason::ConnectionFailed,
            },
            Attempt::Response { status, body } => {
                if status == STATUS_OK {
                    match body {
                        Some(text) => FetchStep::Done(text),
                        None => FetchStep::Fail(FetchError::ResponseError),
                    }
                } else if status == STATUS_TOO_MANY_REQUESTS {
                    if self.rate_limits < u64::MAX {
                        self.rate_limits = self.rate_limits + 1;
                    }
                    FetchStep::Wait {
                        seconds: self.pause(RATE_LIMIT_BACKOFF_SECONDS),
                        reason: WaitReason::RateLimited,
                    }
                } else if 500 <= status && status < 600 {
                    FetchStep::Fail(FetchError::ServerError)
                } else {
                    FetchStep::Fail(FetchError::ResponseError)
                }
            },
        }
    }
}

} // verus!
