use chrono::{TimeZone, Utc};
use xmf::util::{after_attempt, seconds_until, seconds_until_with_now, RetryStep};

#[test]
fn test_seconds_until_future_time() {
    let now = Utc.with_ymd_and_hms(2025, 1, 1, 12, 0, 0).unwrap();
    let result = seconds_until_with_now(15, 0, now.timestamp()).unwrap();
    assert_eq!(result, 3 * 60 * 60);
}

#[test]
fn test_seconds_until_past_time() {
    let now = Utc.with_ymd_and_hms(2025, 1, 1, 18, 0, 0).unwrap();
    let result = seconds_until_with_now(10, 0, now.timestamp()).unwrap();
    assert_eq!(result, 16 * 60 * 60);
}

#[test]
fn test_seconds_until_current_time() {
    let now = Utc.with_ymd_and_hms(2025, 1, 1, 19, 0, 0).unwrap();
    let result = seconds_until_with_now(19, 0, now.timestamp()).unwrap();
    assert_eq!(result, 24 * 60 * 60);
}

#[test]
fn test_seconds_until_boundary() {
    let now = Utc.with_ymd_and_hms(2025, 1, 1, 18, 59, 59).unwrap();
    let result = seconds_until_with_now(19, 0, now.timestamp()).unwrap();
    assert_eq!(result, 1);
}

#[test]
fn test_invalid_time() {
    assert!(seconds_until(24, 0).is_err());
    assert!(seconds_until(12, 60).is_err());
}

#[test]
fn seconds_until_reads_the_clock() {
    let seconds = seconds_until(19, 0).unwrap();
    assert!(seconds > 0 && seconds <= 86_400);
    assert_eq!(
        seconds_until_with_now(25, 0, 0).unwrap_err(),
        "Invalid target time"
    );
}

#[test]
fn seconds_until_before_the_epoch() {
    // one second before 1970-01-01 is 23:59:59
    assert_eq!(seconds_until_with_now(0, 0, -1).unwrap(), 1);
    let then = Utc.with_ymd_and_hms(1969, 12, 31, 6, 30, 0).unwrap();
    assert_eq!(
        seconds_until_with_now(7, 0, then.timestamp()).unwrap(),
        30 * 60
    );
}

#[test]
fn retries_are_bounded() {
    // three retries: four attempts in all
    let mut attempt = 1;
    let mut runs = 1;
    loop {
        match after_attempt(attempt, 3, 500, false) {
            RetryStep::Retry {
                attempt: next,
                delay_ms,
            } => {
                assert_eq!(delay_ms, 500);
                assert_eq!(next, attempt + 1);
                attempt = next;
                runs += 1;
            }
            RetryStep::GiveUp => break,
            RetryStep::Done => panic!("a failure is never a success"),
        }
    }
    assert_eq!(runs, 4);
    assert_eq!(after_attempt(2, 3, 500, true), RetryStep::Done);
    assert_eq!(after_attempt(1, 0, 500, false), RetryStep::GiveUp);
    assert_eq!(after_attempt(usize::MAX, usize::MAX, 1, false), RetryStep::GiveUp);
}
