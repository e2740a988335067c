//! Helpers of the provider adapters: the retry rule, and the time left
//! until a daily refresh.
use crate::clock::unix_millis;
use vstd::prelude::*;
use vstd::string::StringExecFns;

verus! {

/// Seconds in a day.
pub const SECONDS_PER_DAY: i64 = 86_400;

/// What to do after an attempt of an operation that is retried with a
/// fixed delay.
#[derive(Clone, Copy, Debug, PartialEq, Eq, Structural)]
pub enum RetryStep {
    /// The attempt succeeded: hand its result out.
    Done,
    /// The attempt failed and another is due after the delay.
    Retry { attempt: usize, delay_ms: u64 },
    /// The attempt failed and none is left: hand its error out.
    GiveUp,
}

/// The step after attempt number `attempt`, counted from one, of an
/// operation that may be retried `retries` times.
pub open spec fn retry_step(
    attempt: usize,
    retries: usize,
    delay_ms: u64,
    succeeded: bool,
) -> RetryStep {
    if succeeded {
        RetryStep::Done
    } else if attempt > retries || attempt == usize::MAX {
        RetryStep::GiveUp
    } else {
        RetryStep::Retry { attempt: (attempt + 1) as usize, delay_ms }
    }
}

/// Decides what follows an attempt: a success ends the run; a failure is
/// retried after `delay_ms` milliseconds until `retries` retries are used
/// up, so that an operation runs at most `retries + 1` times.
pub fn after_attempt(attempt: usize, retries: usize, delay_ms: u64, succeeded: bool) -> (r:
    RetryStep)
    ensures
        r == retry_step(attempt, retries, delay_ms, succeeded),
{
    if succeeded {
        RetryStep::Done
    } else if attempt > retries || attempt == usize::MAX {
        RetryStep::GiveUp
    } else {
        RetryStep::Retry { attempt: attempt + 1, delay_ms }
    }
}

/// The number of the attempt that is under way after `failures` failed
/// attempts in a row, if the run has not been given up.
pub open spec fn attempt_after(failures: nat, retries: usize, delay_ms: u64) -> Option<usize>
    decreases failures,
{
    if failures == 0 {
        Some(1)
    } else {
        match attempt_after((failures - 1) as nat, retries, delay_ms) {
            Some(attempt) => match retry_step(attempt, retries, delay_ms, false) {
                RetryStep::Retry { attempt: next, .. } => Some(next),
                _ => None,
            },
            None => None,
        }
    }
}

/// Bounded attempts: an operation that keeps failing is attempted exactly
/// `retries + 1` times. After no more than `retries` failures another
/// attempt is under way, and after one more the run has been given up.
pub proof fn lemma_attempts_are_bounded(failures: nat, retries: usize, delay_ms: u64)
    requires
        retries < usize::MAX,
    ensures
        failures <= retries ==> attempt_after(failures, retries, delay_ms) == Some(
            (failures + 1) as usize,
        ),
        failures > retries ==> attempt_after(failures, retries, delay_ms).is_none(),
    decreases failures,
{
    if failures > 0 {
        lemma_attempts_are_bounded((failures - 1) as nat, retries, delay_ms);
    }
}

/// The message for a target time that is no time of day.
pub open spec fn invalid_time_message() -> Seq<char> {
    "Invalid target time"@
}

/// Seconds from `now` to the next moment at which the time of day, in
/// UTC, is the target: later today if the target is still ahead, else
/// tomorrow. `now` is in seconds since the Unix epoch.
pub open spec fn seconds_to_target(target_hour: u32, target_minute: u32, now: i64) -> int {
    let seconds_of_day = now as int % (SECONDS_PER_DAY as int);
    let target = target_hour * 3600 + target_minute * 60;
    if target > seconds_of_day {
        target - seconds_of_day
    } else {
        target + SECONDS_PER_DAY - seconds_of_day
    }
}

/// Seconds from `now`, in seconds since the Unix epoch, until the time of
/// day next reads `target_hour:target_minute` in UTC. When it reads so
/// right now, a full day is left. An hour above 23 or a minute above 59 is
/// rejected.
pub fn seconds_until_with_now(target_hour: u32, target_minute: u32, now: i64) -> (r: Result<
    u64,
    String,
>)
    ensures
        match r {
            Ok(seconds) => target_hour < 24 && target_minute < 60 && seconds == seconds_to_target(
                target_hour,
                target_minute,
                now,
            ) && 0 < seconds <= SECONDS_PER_DAY,
            Err(msg) => (target_hour >= 24 || target_minute >= 60) && msg@
                == invalid_time_message(),
        },
{
    if target_hour >= 24 || target_minute >= 60 {
        return Err(String::from_str("Invalid target time"));
    }
    let seconds_of_day: i64 = match now.checked_rem_euclid(SECONDS_PER_DAY) {
        Some(s) => s,
        None => 0,
    };
    let target: i64 = (target_hour as i64) * 3600 + (target_minute as i64) * 60;
    let wait: i64 = if target > seconds_of_day {
        target - seconds_of_day
    } else {
        target + SECONDS_PER_DAY - seconds_of_day
    };
    Ok(wait as u64)
}

/// Seconds from now until the time of day next reads
/// `target_hour:target_minute` in UTC. Reads the clock.
pub fn seconds_until(target_hour: u32, target_minute: u32) -> (r: Result<u64, String>)
    ensures
        match r {
            Ok(seconds) => target_hour < 24 && target_minute < 60 && 0 < seconds
                <= SECONDS_PER_DAY,
            Err(msg) => (target_hour >= 24 || target_minute >= 60) && msg@
                == invalid_time_message(),
        },
{
    let now_ms = unix_millis();
    let now: u64 = now_ms / 1000;
    seconds_until_with_now(target_hour, target_minute, now as i64)
}

} // verus!
