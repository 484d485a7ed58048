use mls_core::lifetime::{Lifetime, LifetimeError};
use mls_core::time::MlsTime;

#[test]
fn test_lifetime_overflow() {
    let res = Lifetime::seconds(u64::MAX);
    assert!(matches!(res, Err(LifetimeError::TimeOverflow)));
}

#[test]
fn test_seconds() {
    let seconds = 10;
    let lifetime = Lifetime::seconds(seconds).unwrap();
    assert_eq!(lifetime.not_after - lifetime.not_before, 3610);
}

#[test]
fn test_days() {
    let days = 2;
    let lifetime = Lifetime::days(days).unwrap();

    assert_eq!(
        lifetime.not_after - lifetime.not_before,
        86400u64 * days as u64 + 3600
    );
}

#[test]
fn test_years() {
    let years = 2;
    let lifetime = Lifetime::years(years).unwrap();

    assert_eq!(
        lifetime.not_after - lifetime.not_before,
        86400 * 365 * years as u64 + 3600
    );
}

#[test]
fn test_bounds() {
    let test_lifetime = Lifetime {
        not_before: 5,
        not_after: 10,
    };

    assert!(!test_lifetime
        .within_lifetime(MlsTime::from_duration_since_epoch(4))
        .unwrap());

    assert!(!test_lifetime
        .within_lifetime(MlsTime::from_duration_since_epoch(11))
        .unwrap());

    assert!(test_lifetime
        .within_lifetime(MlsTime::from_duration_since_epoch(5))
        .unwrap());

    assert!(test_lifetime
        .within_lifetime(MlsTime::from_duration_since_epoch(10))
        .unwrap());

    assert!(test_lifetime
        .within_lifetime(MlsTime::from_duration_since_epoch(6))
        .unwrap());
}

#[test]
fn lifetime_new_keeps_bounds() {
    let l = Lifetime::new(7, 19);
    assert_eq!(l.not_before, 7);
    assert_eq!(l.not_after, 19);
}
