//! Throttling: the global minimum inter-request interval, and the
//! per-request random jitter delay plan.
use crate::text::{parse_u64_spec, parse_u64, seq_views, split_char, split_parts};
use vstd::prelude::*;

verus! {

/// Time conversion constant.
pub const MICROSECONDS_PER_SECOND: u64 = 1_000_000;

/// How long a worker must still wait, given the time already elapsed
/// since the last request start and the requests-per-second limit.
pub open spec fn required_delay(elapsed_micros: u64, rate_limit: u64) -> int {
    let min_interval = 1_000_000int / rate_limit as int;
    if elapsed_micros < min_interval {
        min_interval - elapsed_micros
    } else {
        0
    }
}

/// The remaining wait before the next request may start, enforcing the
/// minimum spacing `1s / rate_limit`.
pub fn required_delay_micros(elapsed_micros: u64, rate_limit: u64) -> (r: u64)
    requires
        rate_limit >= 1,
    ensures
        r as int == required_delay(elapsed_micros, rate_limit),
{
    let min_interval: u64 = MICROSECONDS_PER_SECOND / rate_limit;
    if elapsed_micros < min_interval {
        min_interval - elapsed_micros
    } else {
        0
    }
}

/// The shared pacing clock: when the last request was started,
/// microseconds on a monotonic clock. Mutated by every worker under
/// exclusive access.
pub struct ThrottleState {
    pub last_request_micros: u64,
}

impl ThrottleState {
    pub fn new(now_micros: u64) -> (r: ThrottleState)
        ensures
            r.last_request_micros == now_micros,
    {
        ThrottleState { last_request_micros: now_micros }
    }

    /// Record that a request starts now. The timestamp never moves
    /// backwards: with a monotonic clock the state is non-decreasing.
    pub fn stamp(&mut self, now_micros: u64)
        requires
            now_micros >= old(self).last_request_micros,
        ensures
            final (self).last_request_micros == now_micros,
            final (self).last_request_micros >= old(self).last_request_micros,
    {
        self.last_request_micros = now_micros;
    }
}

/// What the random-delay option calls for: no delay when unset; a sleep
/// drawn from `min..=max` for a well-formed "MIN:MAX"; otherwise one of
/// the warning its malformation calls for.
#[derive(Debug, Clone, Copy, PartialEq, Eq, Structural)]
pub enum DelayPlan {
    /// No random delay is configured.
    NoDelay,
    /// Sleep a uniformly random number of milliseconds in `min..=max`.
    Sleep { min_ms: u64, max_ms: u64 },
    /// The range was "MIN:MAX" with `max < min`: warn and skip.
    WarnInvalidOrder,
    /// The two fields were not parseable numbers: warn and skip.
    WarnInvalidValues,
    /// The text was not of the form "MIN:MAX": warn and skip.
    WarnInvalidFormat,
}

/// The delay plan a configured random-delay text calls for.
pub open spec fn delay_plan(spec_text: Option<Seq<char>>) -> DelayPlan {
    match spec_text {
        None => DelayPlan::NoDelay,
        Some(ds) => {
            let parts = split_parts(ds, ':', 0);
            if parts.len() != 2 {
                DelayPlan::WarnInvalidFormat
            } else {
                match (parse_u64_spec(parts[0]), parse_u64_spec(parts[1])) {
                    (Some(mn), Some(mx)) => if mx >= mn {
                        DelayPlan::Sleep { min_ms: mn, max_ms: mx }
                    } else {
                        DelayPlan::WarnInvalidOrder
                    },
                    _ => DelayPlan::WarnInvalidValues,
                }
            }
        },
    }
}

/// Decide what the configured random delay asks for.
pub fn plan_random_delay(random_delay: &Option<String>) -> (r: DelayPlan)
    ensures
        r == delay_plan(crate::text::opt_chars(*random_delay)),
{
    match random_delay {
        None => DelayPlan::NoDelay,
        Some(ds) => {
            let parts: Vec<String> = split_char(ds.as_str(), ':');
            proof {
                assert(seq_views(parts@).len() == parts@.len());
            }
            if parts.len() != 2 {
                DelayPlan::WarnInvalidFormat
            } else {
                proof {
                    assert(seq_views(parts@)[0] == parts@[0]@);
                    assert(seq_views(parts@)[1] == parts@[1]@);
                }
                let mn: Option<u64> = parse_u64(parts[0].as_str());
                let mx: Option<u64> = parse_u64(parts[1].as_str());
                match (mn, mx) {
                    (Some(mn), Some(mx)) => if mx >= mn {
                        DelayPlan::Sleep { min_ms: mn, max_ms: mx }
                    } else {
                        DelayPlan::WarnInvalidOrder
                    },
                    _ => DelayPlan::WarnInvalidValues,
                }
            }
        },
    }
}

/// Relies on rand::random_range over an inclusive range: some value
/// within the bounds; nothing more is promised of a random draw.
#[verifier::external_body]
pub fn random_in_range(min: u64, max: u64) -> (r: u64)
    requires
        min <= max,
    ensures
        min <= r <= max,
{
    rand::random_range(min..=max)
}

} // verus!
