//! Arbitrary-precision natural numbers.
//!
//! The kernel counts with `num_bigint::BigUint`. Verus cannot look inside
//! such a value, so this module names the number that a `BigUint` stands
//! for and states, for each operation the kernel uses, what the operation
//! does to that number. These statements are trusted, not proved.

use num_bigint::BigUint;
use num_traits::identities::One;
use vstd::prelude::*;

verus! {

/// `num_bigint::BigUint`, taken as it is: nothing inside it is visible here.
#[verifier::external_type_specification]
#[verifier::external_body]
pub struct ExBigUint(BigUint);

/// The natural number that a `BigUint` represents.
pub uninterp spec fn nat_of(n: BigUint) -> nat;

/// `BigUint::one()`: the number one.
#[verifier::external_body]
pub(crate) fn big_one() -> (r: BigUint)
    ensures
        nat_of(r) == 1,
{
    BigUint::one()
}

/// `BigUint::clone`: a second value that represents the same number.
pub assume_specification[ <BigUint as Clone>::clone ](a: &BigUint) -> (r: BigUint)
    ensures
        nat_of(r) == nat_of(*a),
;

/// `&BigUint + &BigUint`: the sum, which never overflows.
#[verifier::external_body]
pub(crate) fn big_sum(a: &BigUint, b: &BigUint) -> (r: BigUint)
    ensures
        nat_of(r) == nat_of(*a) + nat_of(*b),
{
    a + b
}

/// `&BigUint - &BigUint`: the difference. The outside code panics when the
/// right operand is the larger one, so callers must rule that out.
#[verifier::external_body]
pub(crate) fn big_difference(a: &BigUint, b: &BigUint) -> (r: BigUint)
    requires
        nat_of(*b) <= nat_of(*a),
    ensures
        nat_of(r) == nat_of(*a) - nat_of(*b),
{
    a - b
}

/// `&BigUint / &BigUint`: the quotient rounded down. The outside code
/// panics on a zero divisor, so callers must rule that out.
#[verifier::external_body]
pub(crate) fn big_quotient(a: &BigUint, b: &BigUint) -> (r: BigUint)
    requires
        nat_of(*b) > 0,
    ensures
        nat_of(r) == nat_of(*a) / nat_of(*b),
{
    a / b
}

/// `&BigUint % &BigUint`: the remainder of the division rounded down. The
/// outside code panics on a zero divisor, so callers must rule that out.
#[verifier::external_body]
pub(crate) fn big_remainder(a: &BigUint, b: &BigUint) -> (r: BigUint)
    requires
        nat_of(*b) > 0,
    ensures
        nat_of(r) == nat_of(*a) % nat_of(*b),
{
    a % b
}

/// `BigUint < BigUint`: whether the left number is the smaller one.
#[verifier::external_body]
pub(crate) fn big_less(a: &BigUint, b: &BigUint) -> (r: bool)
    ensures
        r == (nat_of(*a) < nat_of(*b)),
{
    a < b
}

/// The character of a decimal digit.
pub open spec fn digit_char(d: nat) -> char {
    seq!['0', '1', '2', '3', '4', '5', '6', '7', '8', '9'][d as int]
}

/// A natural number written in decimal, without leading zeros.
pub open spec fn decimal(n: nat) -> Seq<char>
    decreases n,
{
    if n < 10 {
        seq![digit_char(n)]
    } else {
        decimal(n / 10).push(digit_char(n % 10))
    }
}

/// `BigUint::to_string`: the number written in decimal.
#[verifier::external_body]
pub(crate) fn big_decimal(a: &BigUint) -> (s: String)
    ensures
        s@ == decimal(nat_of(*a)),
{
    a.to_string()
}

} // verus!
