// Opaque-handle lifecycle and the scoped cleanup guard.

use compat::handle::{Handle, HandleError, Registry};
use compat::scoped::Scoped;

#[test]
fn handle_acquire_release_round_trip() {
    let mut registry: Registry<u64> = Registry::new();
    assert_eq!(registry.live_count(), 0);

    let a = registry.acquire(10);
    let b = registry.acquire(20);
    assert_eq!(registry.live_count(), 2);
    assert_eq!(registry.get(a).copied(), Some(10));
    assert_eq!(registry.get(b).copied(), Some(20));

    // Releasing one handle returns its resource and leaves the other
    // untouched: the counts return to baseline step by step.
    assert_eq!(registry.release(b), Ok(20));
    assert_eq!(registry.live_count(), 1);
    assert_eq!(registry.get(a).copied(), Some(10));
    assert_eq!(registry.release(a), Ok(10));
    assert_eq!(registry.live_count(), 0);
}

#[test]
fn handle_double_release_fails() {
    let mut registry: Registry<&'static str> = Registry::new();
    let h = registry.acquire("resource");
    assert_eq!(registry.release(h), Ok("resource"));
    assert_eq!(registry.release(h), Err(HandleError::Stale));
    assert!(registry.get(h).is_none());
}

#[test]
fn handle_stale_after_slot_reuse() {
    let mut registry: Registry<u32> = Registry::new();
    let first = registry.acquire(1);
    registry.release(first).unwrap();

    // The freed slot is reused, but under a new generation: the old
    // handle stays dead.
    let second = registry.acquire(2);
    assert_eq!(second.index, first.index);
    assert_ne!(second.generation, first.generation);
    assert!(registry.get(first).is_none());
    assert_eq!(registry.release(first), Err(HandleError::Stale));
    assert_eq!(registry.get(second).copied(), Some(2));
}

#[test]
fn handle_never_issued_fails() {
    let mut registry: Registry<u32> = Registry::new();
    let bogus = Handle { index: 7, generation: 0 };
    assert_eq!(registry.release(bogus), Err(HandleError::Stale));
}

#[test]
fn scoped_closer_runs_once_on_close() {
    let mut guard = Scoped::new(42);
    assert_eq!(guard.value, 42);
    // First settlement owes the cleanup action; the second never does.
    assert!(guard.close());
    assert!(!guard.close());
}

#[test]
fn scoped_swap_keeps_obligation_for_new_value() {
    let mut guard = Scoped::new(3);
    let prev = guard.swap(4);
    // The swapped-out value carries no obligation; the guard still owes
    // cleanup exactly once, now for the replacement.
    assert_eq!(prev, 3);
    assert_eq!(guard.value, 4);
    assert!(guard.close());
    assert!(!guard.close());
}

#[test]
fn scoped_release_suppresses_cleanup() {
    let guard = Scoped::new(5);
    let v = guard.release();
    assert_eq!(v, 5);
}
