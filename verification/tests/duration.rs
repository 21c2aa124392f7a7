use sundries::duration::{Duration, TimeUnit};

#[test]
fn constructors_and_getters() {
    assert_eq!(Duration::zero().num_seconds(), 0);
    assert_eq!(Duration::weeks(2).num_days(), 14);
    assert_eq!(Duration::days(3).num_hours(), 72);
    assert_eq!(Duration::hours(2).num_minutes(), 120);
    assert_eq!(Duration::minutes(5).num_seconds(), 300);
    assert_eq!(Duration::seconds(7).num_milliseconds(), 7_000);
    assert_eq!(Duration::milliseconds(1_500).num_seconds(), 1);
    assert_eq!(Duration::milliseconds(-1_500).num_seconds(), -1);
    assert_eq!(Duration::milliseconds(-1_500).num_milliseconds(), -1_500);
    assert_eq!(Duration::microseconds(5).num_nanoseconds(), Some(5_000));
    assert_eq!(Duration::nanoseconds(-7).num_nanoseconds(), Some(-7));
    assert_eq!(Duration::max_value().num_milliseconds(), i64::MAX);
}

#[test]
fn nanosecond_counts_that_do_not_fit_are_refused() {
    // 9.3e9 seconds exceeds i64 nanoseconds
    let d = Duration::seconds(9_300_000_000);
    assert_eq!(d.num_nanoseconds(), None);
    assert_eq!(d.num_seconds(), 9_300_000_000);
    // the extreme span overflows microseconds too
    assert_eq!(Duration::max_value().num_microseconds(), None);
    // while a span just inside the bound still fits
    assert_eq!(
        Duration::seconds(9_000_000_000_000).num_microseconds(),
        Some(9_000_000_000_000_000_000),
    );
}

#[test]
fn ramp_clamps_below_zero() {
    assert_eq!(Duration::seconds(-5).ramp().num_seconds(), 0);
    assert_eq!(Duration::seconds(5).ramp().num_seconds(), 5);
}

#[test]
fn naive_years() {
    assert_eq!(Duration::days(730).num_years_naive(), 2);
    assert_eq!(Duration::days(364).num_years_naive(), 0);
}

#[test]
fn display_as_word_picks_the_largest_unit() {
    let w = Duration::days(400).display_as_word();
    assert_eq!((w.value, w.unit, w.plural), (1, TimeUnit::Year, false));
    assert_eq!(w.unit.label(), "year");

    let w = Duration::days(8).display_as_word();
    assert_eq!((w.value, w.unit, w.plural), (1, TimeUnit::Week, false));

    let w = Duration::hours(72).display_as_word();
    assert_eq!((w.value, w.unit, w.plural), (3, TimeUnit::Day, true));
    assert_eq!(w.unit.label(), "day");

    let w = Duration::seconds(7_200).display_as_word();
    assert_eq!((w.value, w.unit, w.plural), (2, TimeUnit::Hour, true));

    let w = Duration::seconds(90).display_as_word();
    assert_eq!((w.value, w.unit, w.plural), (1, TimeUnit::Minute, false));

    let w = Duration::milliseconds(1_500).display_as_word();
    assert_eq!((w.value, w.unit, w.plural), (1, TimeUnit::Second, false));

    let w = Duration::milliseconds(20).display_as_word();
    assert_eq!((w.value, w.unit, w.plural), (20, TimeUnit::Millisecond, true));
    assert_eq!(w.unit.label(), "miliseconds");

    let w = Duration::microseconds(5).display_as_word();
    assert_eq!((w.value, w.unit, w.plural), (5, TimeUnit::Microsecond, true));

    let w = Duration::nanoseconds(3).display_as_word();
    assert_eq!((w.value, w.unit, w.plural), (3, TimeUnit::Nanosecond, true));

    let w = Duration::zero().display_as_word();
    assert_eq!((w.value, w.unit, w.plural), (0, TimeUnit::Moment, false));
    assert_eq!(w.unit.label(), "a moment");

    // negative spans display as a bare moment too
    let w = Duration::seconds(-90).display_as_word();
    assert_eq!(w.unit, TimeUnit::Moment);
}

#[test]
fn checked_arithmetic_adds_exactly_and_refuses_overflow() {
    let sum = Duration::seconds(1).checked_add(&Duration::milliseconds(500)).unwrap();
    assert_eq!(sum.num_milliseconds(), 1_500);
    let diff = Duration::seconds(1).checked_sub(&Duration::milliseconds(1_500)).unwrap();
    assert_eq!(diff.num_milliseconds(), -500);
    assert_eq!(
        Duration::max_value().checked_add(&Duration::nanoseconds(1)),
        None,
    );
    let low = Duration::zero().checked_sub(&Duration::max_value()).unwrap();
    assert_eq!(low.num_milliseconds(), -i64::MAX);
    assert_eq!(low.checked_sub(&Duration::milliseconds(1)), None);
}

#[test]
fn less_than_orders_by_the_whole_span() {
    assert!(Duration::milliseconds(-1_500).less_than(&Duration::milliseconds(-1_000)));
    assert!(!Duration::seconds(1).less_than(&Duration::milliseconds(999)));
    assert!(Duration::milliseconds(999).less_than(&Duration::seconds(1)));
    assert!(!Duration::zero().less_than(&Duration::zero()));
}
