//! Hierarchical time: unit-ticks, days and years.
//!
//! A [`Time`] counts unit-ticks in `all` and keeps that count split into
//! days and years by two ratios. Its numbers are arbitrary-precision; the
//! contracts below speak of them through [`TimeView`].

use crate::natural::{big_difference, big_less, big_one, big_quotient, big_remainder, big_sum, nat_of};
use num_bigint::BigUint;
use vstd::arithmetic::div_mod::{
    lemma_fundamental_div_mod, lemma_fundamental_div_mod_converse, lemma_mod_pos_bound,
};
use vstd::prelude::*;

verus! {

/// The numbers that a [`Time`] holds.
pub struct TimeView {
    /// Total elapsed unit-ticks.
    pub all: nat,
    /// Unit-ticks per day.
    pub one_day_of_time: nat,
    /// Whole days.
    pub day: nat,
    /// Unit-ticks beyond the last whole day.
    pub remainder_time: nat,
    /// Days per year.
    pub one_year_of_day: nat,
    /// Whole years.
    pub year: nat,
    /// Day of the year.
    pub remainder_day: nat,
}

/// How far the day of the year that [`TimeView::derive`] computes, the total
/// of unit-ticks reduced by the days of a year, runs ahead of the count of
/// whole days reduced the same way.
pub open spec fn day_drift(all: nat, one_day_of_time: nat, one_year_of_day: nat) -> int {
    (all % one_year_of_day) - ((all / one_day_of_time) % one_year_of_day)
}

impl TimeView {
    /// The time derived from a total of unit-ticks and the two unit ratios.
    pub open spec fn derive(all: nat, one_day_of_time: nat, one_year_of_day: nat) -> TimeView {
        TimeView {
            all,
            one_day_of_time,
            day: all / one_day_of_time,
            remainder_time: all % one_day_of_time,
            one_year_of_day,
            year: (all / one_day_of_time) / one_year_of_day,
            remainder_day: all % one_year_of_day,
        }
    }

    /// Both ratios are non-zero and both remainders are below their ratio.
    pub open spec fn well_formed(self) -> bool {
        &&& self.one_day_of_time > 0
        &&& self.one_year_of_day > 0
        &&& self.remainder_time < self.one_day_of_time
        &&& self.remainder_day < self.one_year_of_day
    }

    /// The days and the remaining unit-ticks add up to the total.
    pub open spec fn ticks_in_step(self) -> bool {
        self.all == self.day * self.one_day_of_time + self.remainder_time
    }

    /// The years and the day of the year add up to the days.
    pub open spec fn days_in_step(self) -> bool {
        self.drift() == 0
    }

    /// How far the years and the day of the year, taken together as a count
    /// of days, run ahead of the days.
    pub open spec fn drift(self) -> int {
        self.year * self.one_year_of_day + self.remainder_day - self.day
    }

    /// The days that `delta` more unit-ticks complete.
    pub open spec fn day_carry(self, delta: nat) -> nat {
        (self.remainder_time + delta) / self.one_day_of_time
    }

    /// This time advanced by `delta` unit-ticks: the total and the remaining
    /// unit-ticks grow by `delta`, the days completed carry into the days and
    /// the day of the year, and the years completed carry into the years.
    pub open spec fn plus(self, delta: nat) -> TimeView {
        TimeView {
            all: self.all + delta,
            one_day_of_time: self.one_day_of_time,
            day: self.day + self.day_carry(delta),
            remainder_time: (self.remainder_time + delta) % self.one_day_of_time,
            one_year_of_day: self.one_year_of_day,
            year: self.year + (self.remainder_day + self.day_carry(delta)) / self.one_year_of_day,
            remainder_day: (self.remainder_day + self.day_carry(delta)) % self.one_year_of_day,
        }
    }

    /// This time read against new ratios: the current remainders, not the
    /// total, are carried into days and years.
    pub open spec fn rebase(self, one_day_of_time: nat, one_year_of_day: nat) -> TimeView {
        let carry = self.remainder_time / one_day_of_time;
        TimeView {
            all: self.all,
            one_day_of_time,
            day: self.day + carry,
            remainder_time: self.remainder_time % one_day_of_time,
            one_year_of_day,
            year: self.year + (self.remainder_day + carry) / one_year_of_day,
            remainder_day: (self.remainder_day + carry) % one_year_of_day,
        }
    }

    /// The sum of two durations, read against the ratios of the left one.
    pub open spec fn sum(self, other: TimeView) -> TimeView {
        TimeView::derive(self.all + other.all, self.one_day_of_time, self.one_year_of_day)
    }

    /// The difference of two durations, read against the ratios of the left
    /// one; there is none where the right one is longer.
    pub open spec fn difference(self, other: TimeView) -> Option<TimeView> {
        if other.all <= self.all {
            Some(
                TimeView::derive(
                    (self.all - other.all) as nat,
                    self.one_day_of_time,
                    self.one_year_of_day,
                ),
            )
        } else {
            None
        }
    }
}

/// A point in time, or a duration.
#[derive(Debug, PartialEq, Eq)]
pub struct Time {
    all: BigUint,
    one_day_of_time: BigUint,
    day: BigUint,
    remainder_time: BigUint,
    one_year_of_day: BigUint,
    year: BigUint,
    remainder_day: BigUint,
}

impl View for Time {
    type V = TimeView;

    closed spec fn view(&self) -> TimeView {
        TimeView {
            all: nat_of(self.all),
            one_day_of_time: nat_of(self.one_day_of_time),
            day: nat_of(self.day),
            remainder_time: nat_of(self.remainder_time),
            one_year_of_day: nat_of(self.one_year_of_day),
            year: nat_of(self.year),
            remainder_day: nat_of(self.remainder_day),
        }
    }
}

impl Clone for Time {
    fn clone(&self) -> (t: Time)
        ensures
            t@ == self@,
    {
        proof {
            use_type_invariant(self);
        }
        Time {
            all: self.all.clone(),
            one_day_of_time: self.one_day_of_time.clone(),
            day: self.day.clone(),
            remainder_time: self.remainder_time.clone(),
            one_year_of_day: self.one_year_of_day.clone(),
            year: self.year.clone(),
            remainder_day: self.remainder_day.clone(),
        }
    }
}

impl Time {
    /// What every `Time` satisfies, whichever operations made it.
    #[verifier::type_invariant]
    pub open spec fn inv(&self) -> bool {
        self@.well_formed()
    }

    /// A time of `all` unit-ticks, split into days and years by the two
    /// ratios. A zero ratio has no meaning and is ruled out.
    pub fn new(all: BigUint, one_day_of_time: BigUint, one_year_of_day: BigUint) -> (t: Time)
        requires
            nat_of(one_day_of_time) > 0,
            nat_of(one_year_of_day) > 0,
        ensures
            t@ == TimeView::derive(nat_of(all), nat_of(one_day_of_time), nat_of(one_year_of_day)),
            t@.well_formed(),
    {
        let day = big_quotient(&all, &one_day_of_time);
        let remainder_time = big_remainder(&all, &one_day_of_time);
        let year = big_quotient(&day, &one_year_of_day);
        let remainder_day = big_remainder(&all, &one_year_of_day);
        proof {
            lemma_mod_pos_bound(nat_of(all) as int, nat_of(one_day_of_time) as int);
            lemma_mod_pos_bound(nat_of(all) as int, nat_of(one_year_of_day) as int);
        }
        Time { all, one_day_of_time, day, remainder_time, one_year_of_day, year, remainder_day }
    }

    /// Advances this time by `time` unit-ticks.
    pub fn plus(&mut self, time: BigUint)
        ensures
            final(self)@ == old(self)@.plus(nat_of(time)),
            final(self)@.well_formed(),
    {
        proof {
            use_type_invariant(&*self);
        }
        let all = big_sum(&self.all, &time);
        let new_remainder_time = big_sum(&self.remainder_time, &time);
        let plus_day = big_quotient(&new_remainder_time, &self.one_day_of_time);
        let day = big_sum(&self.day, &plus_day);
        let remainder_time = big_remainder(&new_remainder_time, &self.one_day_of_time);
        let new_remainder_day = big_sum(&self.remainder_day, &plus_day);
        let plus_year = big_quotient(&new_remainder_day, &self.one_year_of_day);
        let year = big_sum(&self.year, &plus_year);
        let remainder_day = big_remainder(&new_remainder_day, &self.one_year_of_day);
        proof {
            lemma_mod_pos_bound(
                nat_of(new_remainder_time) as int,
                nat_of(self.one_day_of_time) as int,
            );
            lemma_mod_pos_bound(
                nat_of(new_remainder_day) as int,
                nat_of(self.one_year_of_day) as int,
            );
        }
        self.all = all;
        self.day = day;
        self.remainder_time = remainder_time;
        self.year = year;
        self.remainder_day = remainder_day;
    }

    /// Advances this time by one unit-tick.
    pub fn plus_one(&mut self)
        ensures
            final(self)@ == old(self)@.plus(1),
            final(self)@.all == old(self)@.all + 1,
            final(self)@.well_formed(),
    {
        self.plus(big_one())
    }

    /// Replaces the two ratios and carries the current remainders into days
    /// and years against the new ones. A zero ratio is ruled out.
    pub fn change_rule(&mut self, one_day_of_time: BigUint, one_year_of_day: BigUint)
        requires
            nat_of(one_day_of_time) > 0,
            nat_of(one_year_of_day) > 0,
        ensures
            final(self)@ == old(self)@.rebase(nat_of(one_day_of_time), nat_of(one_year_of_day)),
            final(self)@.well_formed(),
    {
        let plus_day = big_quotient(&self.remainder_time, &one_day_of_time);
        let day = big_sum(&self.day, &plus_day);
        let remainder_time = big_remainder(&self.remainder_time, &one_day_of_time);
        let new_remainder_day = big_sum(&self.remainder_day, &plus_day);
        let plus_year = big_quotient(&new_remainder_day, &one_year_of_day);
        let year = big_sum(&self.year, &plus_year);
        let remainder_day = big_remainder(&new_remainder_day, &one_year_of_day);
        let all = self.all.clone();
        proof {
            lemma_mod_pos_bound(nat_of(self.remainder_time) as int, nat_of(one_day_of_time) as int);
            lemma_mod_pos_bound(nat_of(new_remainder_day) as int, nat_of(one_year_of_day) as int);
        }
        *self = Time { all, one_day_of_time, day, remainder_time, one_year_of_day, year, remainder_day };
    }

    /// The sum of this duration and `other`, with the ratios of this one.
    pub fn add(&self, other: &Time) -> (t: Time)
        ensures
            t@ == self@.sum(other@),
            t@.well_formed(),
    {
        proof {
            use_type_invariant(self);
        }
        let all = big_sum(&self.all, &other.all);
        Time::new(all, self.one_day_of_time.clone(), self.one_year_of_day.clone())
    }

    /// This duration less `other`, with the ratios of this one; `None` where
    /// `other` is the longer one.
    pub fn minus(&self, other: &Time) -> (t: Option<Time>)
        ensures
            t is Some <==> other@.all <= self@.all,
            match t {
                Some(d) => Some(d@) == self@.difference(other@) && d@.well_formed(),
                None => self@.difference(other@) is None,
            },
    {
        proof {
            use_type_invariant(self);
        }
        if big_less(&self.all, &other.all) {
            None
        } else {
            let all = big_difference(&self.all, &other.all);
            Some(Time::new(all, self.one_day_of_time.clone(), self.one_year_of_day.clone()))
        }
    }

    /// Total elapsed unit-ticks.
    pub fn all(&self) -> (n: &BigUint)
        ensures
            nat_of(*n) == self@.all,
    {
        &self.all
    }

    /// Unit-ticks per day.
    pub fn one_day_of_time(&self) -> (n: &BigUint)
        ensures
            nat_of(*n) == self@.one_day_of_time,
            nat_of(*n) > 0,
    {
        proof {
            use_type_invariant(self);
        }
        &self.one_day_of_time
    }

    /// Whole days.
    pub fn day(&self) -> (n: &BigUint)
        ensures
            nat_of(*n) == self@.day,
    {
        &self.day
    }

    /// Unit-ticks beyond the last whole day.
    pub fn remainder_time(&self) -> (n: &BigUint)
        ensures
            nat_of(*n) == self@.remainder_time,
    {
        &self.remainder_time
    }

    /// Days per year.
    pub fn one_year_of_day(&self) -> (n: &BigUint)
        ensures
            nat_of(*n) == self@.one_year_of_day,
            nat_of(*n) > 0,
    {
        proof {
            use_type_invariant(self);
        }
        &self.one_year_of_day
    }

    /// Whole years.
    pub fn year(&self) -> (n: &BigUint)
        ensures
            nat_of(*n) == self@.year,
    {
        &self.year
    }

    /// Day of the year.
    pub fn remainder_day(&self) -> (n: &BigUint)
        ensures
            nat_of(*n) == self@.remainder_day,
    {
        &self.remainder_day
    }
}

/// A derived time always splits its total into whole days and remaining
/// unit-ticks, and both its remainders are below their ratios.
pub proof fn lemma_derive_splits_ticks(all: nat, one_day_of_time: nat, one_year_of_day: nat)
    requires
        one_day_of_time > 0,
        one_year_of_day > 0,
    ensures
        TimeView::derive(all, one_day_of_time, one_year_of_day).ticks_in_step(),
        TimeView::derive(all, one_day_of_time, one_year_of_day).well_formed(),
{
    let d = one_day_of_time as int;
    lemma_fundamental_div_mod(all as int, d);
    lemma_mod_pos_bound(all as int, d);
    lemma_mod_pos_bound(all as int, one_year_of_day as int);
    assert(d * (all as int / d) == (all as int / d) * d) by (nonlinear_arith);
}

/// The drift of a derived time is the day drift of its total.
pub proof fn lemma_derive_drift(all: nat, one_day_of_time: nat, one_year_of_day: nat)
    requires
        one_day_of_time > 0,
        one_year_of_day > 0,
    ensures
        TimeView::derive(all, one_day_of_time, one_year_of_day).drift() == day_drift(
            all,
            one_day_of_time,
            one_year_of_day,
        ),
{
    let y = one_year_of_day as int;
    let day = (all / one_day_of_time) as int;
    lemma_fundamental_div_mod(day, y);
    assert(y * (day / y) == (day / y) * y) by (nonlinear_arith);
}

/// For a derived time whose total has no day drift, the total is the days
/// times the length of a day plus the remaining unit-ticks, and the days are
/// in turn the years times the length of a year plus the day of the year.
pub proof fn lemma_derive_decomposes(all: nat, one_day_of_time: nat, one_year_of_day: nat)
    requires
        one_day_of_time > 0,
        one_year_of_day > 0,
        day_drift(all, one_day_of_time, one_year_of_day) == 0,
    ensures
        ({
            let t = TimeView::derive(all, one_day_of_time, one_year_of_day);
            &&& t.all == t.day * one_day_of_time + t.remainder_time
            &&& t.all == (t.year * one_year_of_day + t.remainder_day) * one_day_of_time
                + t.remainder_time
        }),
{
    lemma_derive_splits_ticks(all, one_day_of_time, one_year_of_day);
    lemma_derive_drift(all, one_day_of_time, one_year_of_day);
}

/// A derived time decomposes into years, days and unit-ticks only where its
/// total has no day drift.
pub proof fn lemma_derive_decomposes_only_without_drift(
    all: nat,
    one_day_of_time: nat,
    one_year_of_day: nat,
)
    requires
        one_day_of_time > 0,
        one_year_of_day > 0,
        ({
            let t = TimeView::derive(all, one_day_of_time, one_year_of_day);
            t.all == (t.year * one_year_of_day + t.remainder_day) * one_day_of_time
                + t.remainder_time
        }),
    ensures
        day_drift(all, one_day_of_time, one_year_of_day) == 0,
{
    let t = TimeView::derive(all, one_day_of_time, one_year_of_day);
    let d = one_day_of_time as int;
    let days = t.year * one_year_of_day + t.remainder_day;
    lemma_derive_splits_ticks(all, one_day_of_time, one_year_of_day);
    lemma_derive_drift(all, one_day_of_time, one_year_of_day);
    assert(days == t.day) by (nonlinear_arith)
        requires
            days * d == t.day * d,
            d > 0,
    ;
}

/// Advancing a time whose unit-ticks are in step keeps them in step: its
/// days and remaining unit-ticks are then the quotient and the remainder of
/// the new total.
pub proof fn lemma_plus_keeps_ticks_in_step(t: TimeView, delta: nat)
    requires
        t.well_formed(),
        t.ticks_in_step(),
    ensures
        t.plus(delta).ticks_in_step(),
        t.plus(delta).day == (t.all + delta) / t.one_day_of_time,
        t.plus(delta).remainder_time == (t.all + delta) % t.one_day_of_time,
{
    let d = t.one_day_of_time as int;
    let s = (t.remainder_time + delta) as int;
    let carry = t.day_carry(delta) as int;
    lemma_fundamental_div_mod(s, d);
    lemma_mod_pos_bound(s, d);
    assert((t.day + carry) * d == t.day * d + d * carry) by (nonlinear_arith);
    lemma_fundamental_div_mod_converse((t.all + delta) as int, d, t.day + carry, s % d);
}

/// Advancing a time keeps it well formed and keeps its drift.
pub proof fn lemma_plus_keeps_drift(t: TimeView, delta: nat)
    requires
        t.well_formed(),
    ensures
        t.plus(delta).well_formed(),
        t.plus(delta).drift() == t.drift(),
{
    let y = t.one_year_of_day as int;
    let s = (t.remainder_day + t.day_carry(delta)) as int;
    lemma_fundamental_div_mod(s, y);
    lemma_mod_pos_bound(s, y);
    lemma_mod_pos_bound((t.remainder_time + delta) as int, t.one_day_of_time as int);
    assert((t.year + s / y) * y == t.year * y + y * (s / y)) by (nonlinear_arith);
}

/// Advancing a time by `delta` gives, field for field, the time derived
/// from the advanced total exactly when its unit-ticks are in step and its
/// drift is the day drift of the advanced total.
pub proof fn lemma_plus_matches_derive_iff(t: TimeView, delta: nat)
    requires
        t.well_formed(),
    ensures
        t.plus(delta) == TimeView::derive(t.all + delta, t.one_day_of_time, t.one_year_of_day)
            <==> t.ticks_in_step() && t.drift() == day_drift(
            t.all + delta,
            t.one_day_of_time,
            t.one_year_of_day,
        ),
{
    let d = t.one_day_of_time as int;
    let y = t.one_year_of_day as int;
    let p = t.plus(delta);
    let u = TimeView::derive(t.all + delta, t.one_day_of_time, t.one_year_of_day);
    lemma_derive_splits_ticks(t.all + delta, t.one_day_of_time, t.one_year_of_day);
    lemma_derive_drift(t.all + delta, t.one_day_of_time, t.one_year_of_day);
    lemma_plus_keeps_drift(t, delta);
    if p == u {
        let s = (t.remainder_time + delta) as int;
        let carry = t.day_carry(delta) as int;
        lemma_fundamental_div_mod(s, d);
        assert((t.day + carry) * d == t.day * d + d * carry) by (nonlinear_arith);
        assert(t.ticks_in_step());
    }
    if t.ticks_in_step() && t.drift() == u.drift() {
        lemma_plus_keeps_ticks_in_step(t, delta);
        assert(p.year * y + p.remainder_day == u.year * y + u.remainder_day);
        lemma_fundamental_div_mod_converse(
            p.year * y + p.remainder_day,
            y,
            p.year as int,
            p.remainder_day as int,
        );
        lemma_fundamental_div_mod_converse(
            u.year * y + u.remainder_day,
            y,
            u.year as int,
            u.remainder_day as int,
        );
        assert(p == u);
    }
}

/// Advancing a time by `delta` gives, field for field, the time derived
/// from the advanced total, provided its unit-ticks are in step and its
/// drift is the day drift of the advanced total.
pub proof fn lemma_plus_matches_derive(t: TimeView, delta: nat)
    requires
        t.well_formed(),
        t.ticks_in_step(),
        t.drift() == day_drift(t.all + delta, t.one_day_of_time, t.one_year_of_day),
    ensures
        t.plus(delta) == TimeView::derive(t.all + delta, t.one_day_of_time, t.one_year_of_day),
{
    lemma_plus_matches_derive_iff(t, delta);
}

/// Advancing in two steps is advancing by their sum.
pub proof fn lemma_plus_plus(t: TimeView, first: nat, second: nat)
    requires
        t.well_formed(),
    ensures
        t.plus(first).plus(second) == t.plus(first + second),
{
    let d = t.one_day_of_time as int;
    let y = t.one_year_of_day as int;
    let s1 = (t.remainder_time + first) as int;
    let s = (t.remainder_time + first + second) as int;
    let s2 = s1 % d + second;
    lemma_fundamental_div_mod(s1, d);
    lemma_fundamental_div_mod(s2, d);
    lemma_mod_pos_bound(s1, d);
    lemma_mod_pos_bound(s2, d);
    assert((s1 / d + s2 / d) * d == d * (s1 / d) + d * (s2 / d)) by (nonlinear_arith);
    lemma_fundamental_div_mod_converse(s, d, s1 / d + s2 / d, s2 % d);
    let e1 = t.remainder_day + s1 / d;
    let e2 = e1 % y + s2 / d;
    let e = t.remainder_day + s1 / d + s2 / d;
    lemma_fundamental_div_mod(e1, y);
    lemma_fundamental_div_mod(e2, y);
    lemma_mod_pos_bound(e1, y);
    lemma_mod_pos_bound(e2, y);
    assert((e1 / y + e2 / y) * y == y * (e1 / y) + y * (e2 / y)) by (nonlinear_arith);
    lemma_fundamental_div_mod_converse(e, y, e1 / y + e2 / y, e2 % y);
}

} // verus!
