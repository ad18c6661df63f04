//! Deadlines, contexts and permits on concrete values.

use nanorpc::context::{deadline_millis, expired, expires_at, NANOS_PER_MILLI};
use nanorpc::limit::Semaphore;
use nanorpc::Context;

#[test]
fn patience_travels_in_whole_milliseconds() {
    assert_eq!(NANOS_PER_MILLI, 1_000_000);
    assert_eq!(deadline_millis(None), 0);
    assert_eq!(deadline_millis(Some(1_500 * NANOS_PER_MILLI)), 1_500);
    assert_eq!(deadline_millis(Some(2 * NANOS_PER_MILLI - 1)), 1);
    assert_eq!(deadline_millis(Some(NANOS_PER_MILLI)), 1);
    assert_eq!(deadline_millis(Some(u32::MAX as u128 * NANOS_PER_MILLI)), u32::MAX);
    assert_eq!(deadline_millis(Some((u32::MAX as u128 + 1) * NANOS_PER_MILLI)), u32::MAX);
    assert_eq!(deadline_millis(Some(u128::MAX)), u32::MAX);
}

#[test]
fn short_patience_is_not_sent_as_unbounded() {
    assert_eq!(deadline_millis(Some(0)), 1);
    assert_eq!(deadline_millis(Some(1)), 1);
    assert_eq!(deadline_millis(Some(NANOS_PER_MILLI - 1)), 1);
}

#[test]
fn expiry_is_absolute() {
    assert_eq!(expires_at(100, None), None);
    assert_eq!(expires_at(100, Some(20)), Some(120));
    assert!(!expired(None, u128::MAX));
    assert!(!expired(Some(120), 119));
    assert!(expired(Some(120), 120));
    assert!(expired(Some(120), 121));
}

#[test]
fn contexts_know_their_deadline() {
    let context = Context::new(80, 1_000, "peer");
    assert_eq!(context.deadline(), Some(1_000 + 80 * NANOS_PER_MILLI));
    assert_eq!(context.remaining(1_000), Some(80 * NANOS_PER_MILLI));
    assert_eq!(context.remaining(999 + 80 * NANOS_PER_MILLI), Some(1));
    assert_eq!(context.remaining(u128::MAX), Some(0));
    assert!(!context.is_cancelled(false, 1_000));
    assert!(context.is_cancelled(true, 1_000));
    assert!(context.is_cancelled(false, 1_000 + 80 * NANOS_PER_MILLI));
    assert_eq!(*context.peer(), "peer");
}

#[test]
fn time_spent_is_taken_off_onward_calls() {
    let context = Context::new(80, 1_000, ());
    let onward = |spent_ms: u128| {
        deadline_millis(context.remaining(1_000 + spent_ms * NANOS_PER_MILLI))
    };
    assert_eq!(onward(0), 80);
    assert_eq!(onward(30), 50);
    assert_eq!(onward(79), 1);
    assert_eq!(onward(90), 1);
    assert_eq!(deadline_millis(Context::new(0, 1_000, ()).remaining(5_000)), 0);
}

#[test]
fn calls_without_a_deadline_are_unbounded() {
    let context = Context::new(0, 1_000, 4u8);
    assert_eq!(context.deadline(), None);
    assert_eq!(context.remaining(u128::MAX), None);
    assert!(!context.is_cancelled(false, u128::MAX));
    assert!(context.is_cancelled(true, 0));
    assert_eq!(*context.peer(), 4);
}

#[test]
fn permits_run_out_and_come_back() {
    let mut semaphore = Semaphore::new(2);
    assert!(!semaphore.is_exhausted());
    assert_eq!(semaphore.in_use(), 0);
    let first = semaphore.acquire();
    let second = semaphore.try_acquire().unwrap();
    assert!(semaphore.is_exhausted());
    assert_eq!(semaphore.in_use(), 2);
    assert!(semaphore.try_acquire().is_none());
    assert_eq!(semaphore.in_use(), 2);
    semaphore.release(first);
    assert!(!semaphore.is_exhausted());
    assert_eq!(semaphore.in_use(), 1);
    semaphore.release(second);
    assert_eq!(semaphore.in_use(), 0);
}

#[test]
fn a_semaphore_without_permits_gives_none() {
    let mut semaphore = Semaphore::new(0);
    assert!(semaphore.is_exhausted());
    assert!(semaphore.try_acquire().is_none());
}
