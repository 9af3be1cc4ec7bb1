//! Tests of the memory guard.

use img4avif::{Error, MemoryGuard};

const MIB: u64 = 1024 * 1024;

#[test]
fn guard_passes_under_limit() {
    assert!(MemoryGuard::new(u64::MAX, Some(300 * MIB))
        .check(Some(900 * MIB))
        .is_ok());
}

#[test]
fn guard_fails_over_zero_limit() {
    assert!(MemoryGuard::new(0, Some(300 * MIB)).check(Some(300 * MIB)).is_err());
}

#[test]
fn memory_guard_unlimited_always_passes() {
    MemoryGuard::new(u64::MAX, Some(12 * MIB))
        .check(Some(4096 * MIB))
        .expect("unlimited guard must not fail");
}

#[test]
fn memory_guard_zero_limit_fails_on_linux() {
    assert!(MemoryGuard::new(0, Some(12 * MIB)).check(Some(13 * MIB)).is_err());
}

#[test]
fn guard_reports_growth_and_limit_in_mib() {
    let guard = MemoryGuard::new(10 * MIB, Some(100 * MIB));
    match guard.check(Some(100 * MIB + 25 * MIB + 5)) {
        Err(Error::MemoryExceeded { used_mb, limit_mb }) => {
            assert_eq!(used_mb, 25);
            assert_eq!(limit_mb, 10);
        }
        other => panic!("expected MemoryExceeded, got {other:?}"),
    }
}

#[test]
fn guard_measures_growth_not_absolute_rss() {
    let guard = MemoryGuard::new(10 * MIB, Some(500 * MIB));
    assert!(guard.check(Some(509 * MIB)).is_ok());
    assert!(guard.check(Some(510 * MIB)).is_err());
    assert!(guard.check(Some(100 * MIB)).is_ok());
}

#[test]
fn guard_fails_open_without_reading() {
    assert!(MemoryGuard::new(0, None).check(None).is_ok());
    assert!(MemoryGuard::new(0, Some(5)).check(None).is_ok());
}

#[test]
fn guard_without_baseline_counts_from_zero() {
    let guard = MemoryGuard::new(10 * MIB, None);
    assert!(guard.check(Some(9 * MIB)).is_ok());
    assert!(guard.check(Some(10 * MIB)).is_err());
}
