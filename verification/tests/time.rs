use hakoniwa::Time;
use num_bigint::BigUint;

fn big(n: u64) -> BigUint {
    BigUint::from(n)
}

fn clock(all: u64) -> Time {
    Time::new(big(all), big(24), big(365))
}

fn fields(t: &Time) -> [BigUint; 7] {
    [
        t.all().clone(),
        t.one_day_of_time().clone(),
        t.day().clone(),
        t.remainder_time().clone(),
        t.one_year_of_day().clone(),
        t.year().clone(),
        t.remainder_day().clone(),
    ]
}

#[test]
fn new_derives_every_field() {
    let t = clock(24 * 400 + 7);
    assert_eq!(t.all(), &big(9607));
    assert_eq!(t.one_day_of_time(), &big(24));
    assert_eq!(t.day(), &big(400));
    assert_eq!(t.remainder_time(), &big(7));
    assert_eq!(t.one_year_of_day(), &big(365));
    assert_eq!(t.year(), &big(1));
    assert_eq!(t.remainder_day(), &big(9607 % 365));
}

#[test]
fn new_of_zero_is_all_zero() {
    let t = clock(0);
    assert_eq!(fields(&t), [big(0), big(24), big(0), big(0), big(365), big(0), big(0)]);
}

#[test]
fn new_splits_the_total_into_days_and_ticks() {
    for all in [0u64, 1, 23, 24, 25, 8759, 8760, 8761, 1_000_003] {
        let t = clock(all);
        assert_eq!(t.all(), &(t.day() * t.one_day_of_time() + t.remainder_time()));
        assert!(t.remainder_time() < t.one_day_of_time());
        assert!(t.remainder_day() < t.one_year_of_day());
    }
}

#[test]
fn new_splits_the_days_into_years_only_without_drift() {
    // With a day of one tick the day of the year is the days reduced by the year.
    let t = Time::new(big(1000), big(1), big(365));
    assert_eq!(t.day(), &(t.year() * t.one_year_of_day() + t.remainder_day()));
    // With longer days the day of the year is taken from the ticks, and drifts.
    let t = clock(25);
    assert_eq!(t.day(), &big(1));
    assert_eq!(t.year(), &big(0));
    assert_eq!(t.remainder_day(), &big(25));
    assert_ne!(t.day(), &(t.year() * t.one_year_of_day() + t.remainder_day()));
}

#[test]
fn numbers_beyond_machine_words() {
    let huge = BigUint::parse_bytes(b"1000000000000000000000000000000000000", 10).unwrap();
    let t = Time::new(huge.clone(), big(24), big(365));
    assert_eq!(t.day(), &(&huge / big(24)));
    assert_eq!(t.remainder_time(), &(&huge % big(24)));
    assert_eq!(t.year(), &(&huge / big(24) / big(365)));
    let mut u = t.clone();
    u.plus(huge.clone());
    assert_eq!(u.all(), &(&huge + &huge));
    assert_eq!(u.day(), &((&huge + &huge) / big(24)));
}

#[test]
fn plus_one_adds_exactly_one_tick() {
    let mut t = clock(41);
    t.plus_one();
    assert_eq!(t.all(), &big(42));
    assert_eq!(t.day(), &big(1));
    assert_eq!(t.remainder_time(), &big(18));
}

#[test]
fn a_day_of_ticks_then_a_year_of_days() {
    let mut t = clock(0);
    for _ in 0..24 {
        t.plus_one();
    }
    assert_eq!(t.day(), &big(1));
    assert_eq!(t.remainder_time(), &big(0));
    // A year is complete once 24 * 365 ticks have passed in all.
    for _ in 24..24 * 365 {
        t.plus_one();
    }
    assert_eq!(t.all(), &big(24 * 365));
    assert_eq!(t.day(), &big(365));
    assert_eq!(t.year(), &big(1));
    assert_eq!(t.remainder_day(), &big(0));
    assert_eq!(t.remainder_time(), &big(0));
}

#[test]
fn a_day_and_a_year_of_ticks() {
    let mut t = clock(0);
    for _ in 0..24 {
        t.plus_one();
    }
    for _ in 0..24 * 365 {
        t.plus_one();
    }
    // One day beyond the first year.
    assert_eq!(t.all(), &big(24 * 366));
    assert_eq!(t.day(), &big(366));
    assert_eq!(t.year(), &big(1));
    assert_eq!(t.remainder_day(), &big(1));
    assert_eq!(t.remainder_time(), &big(0));
}

#[test]
fn plus_carries_days_and_years() {
    let mut t = clock(0);
    t.plus(big(24 * 365 * 3 + 24 * 2 + 5));
    assert_eq!(
        fields(&t),
        [big(26333), big(24), big(1097), big(5), big(365), big(3), big(2)]
    );
}

#[test]
fn plus_in_two_steps_is_plus_of_the_sum() {
    let mut a = clock(17);
    a.plus(big(1000));
    a.plus(big(9000));
    let mut b = clock(17);
    b.plus(big(10000));
    assert_eq!(a, b);
}

#[test]
fn plus_matches_new_where_the_drift_stays() {
    // A day of one tick: no drift at any total.
    let mut t = Time::new(big(5), big(1), big(7));
    t.plus(big(10));
    assert_eq!(t, Time::new(big(15), big(1), big(7)));
    // Whole years from zero: no drift before or after.
    let mut t = clock(0);
    t.plus(big(24 * 365));
    assert_eq!(t, clock(24 * 365));
    // Nothing added.
    let mut t = clock(25);
    t.plus(big(0));
    assert_eq!(t, clock(25));
}

#[test]
fn plus_differs_from_new_where_the_drift_changes() {
    let mut t = clock(0);
    t.plus(big(1));
    let fresh = clock(1);
    assert_eq!(t.all(), fresh.all());
    assert_eq!(t.day(), fresh.day());
    assert_eq!(t.remainder_time(), fresh.remainder_time());
    assert_eq!(t.year(), fresh.year());
    assert_eq!(t.remainder_day(), &big(0));
    assert_eq!(fresh.remainder_day(), &big(1));
    assert_ne!(t, fresh);
}

#[test]
fn change_rule_carries_the_remainders() {
    let mut t = clock(50);
    assert_eq!(fields(&t), [big(50), big(24), big(2), big(2), big(365), big(0), big(50)]);
    t.change_rule(big(1), big(10));
    assert_eq!(fields(&t), [big(50), big(1), big(4), big(0), big(10), big(5), big(2)]);
}

#[test]
fn change_rule_to_longer_units_keeps_days_and_years() {
    let mut t = clock(50);
    t.change_rule(big(100), big(1000));
    assert_eq!(fields(&t), [big(50), big(100), big(2), big(2), big(1000), big(0), big(50)]);
}

#[test]
fn change_rule_may_leave_the_total_out_of_step() {
    let mut t = clock(50);
    t.change_rule(big(1), big(10));
    assert_ne!(t, Time::new(big(50), big(1), big(10)));
    assert_ne!(t.all(), &(t.day() * t.one_day_of_time() + t.remainder_time()));
}

#[test]
fn add_uses_left_ratios() {
    let a = clock(30);
    let b = Time::new(big(20), big(10), big(5));
    assert_eq!(a.add(&b), clock(50));
    assert_eq!(b.add(&a), Time::new(big(50), big(10), big(5)));
}

#[test]
fn minus_reports_no_result_on_underflow() {
    let a = clock(30);
    let b = clock(31);
    assert_eq!(a.minus(&b), None);
    assert_eq!(b.minus(&a), Some(clock(1)));
    assert_eq!(a.minus(&a), Some(clock(0)));
}

#[test]
fn minus_uses_left_ratios() {
    let a = clock(100);
    let b = Time::new(big(40), big(7), big(3));
    assert_eq!(a.minus(&b), Some(clock(60)));
}

#[test]
fn clone_is_equal() {
    let t = clock(12345);
    assert_eq!(t.clone(), t);
}
