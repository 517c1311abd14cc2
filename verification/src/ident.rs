//! Ids for newly generated entities.
//!
//! An id is made of the kind's name, the place of origin, the tick and a
//! sample of the wall clock, written out one after the other and encoded in
//! base64. The clock makes ids differ in practice from run to run; nothing
//! here promises that two ids differ.

use crate::natural::{big_decimal, decimal, nat_of};
use crate::point::{Point, PointView};
use num_bigint::BigUint;
use std::time::SystemTime;
use vstd::prelude::*;
use vstd::string::StringExecFns;
use vstd::utf8::encode_utf8;

verus! {

/// The base64 text, in the standard alphabet with padding, of a sequence of
/// bytes.
pub uninterp spec fn base64_text(bytes: Seq<u8>) -> Seq<char>;

/// `base64::encode`: the bytes in base64, standard alphabet, padded.
#[verifier::external_body]
#[allow(deprecated)]
fn base64_of(bytes: &[u8]) -> (text: String)
    ensures
        text@ == base64_text(bytes@),
{
    base64::encode(bytes)
}

/// `SystemTime::now`, written out as text. Each call may give another text.
#[verifier::external_body]
fn wall_clock() -> String {
    format!("{:?}", SystemTime::now())
}

/// How a point is written in an id.
pub open spec fn point_text(point: PointView) -> Seq<char> {
    "Point { x: "@ + decimal(point.x) + ", y: "@ + decimal(point.y) + " }"@
}

/// The text that an id encodes.
pub open spec fn id_source(name: Seq<char>, point: PointView, tick: nat, clock: Seq<char>) -> Seq<
    char,
> {
    name + point_text(point) + decimal(tick) + clock
}

/// The id of an entity of kind `name` that came into being at `point` in
/// tick `tick`, for a given sample of the clock.
pub open spec fn object_id(name: Seq<char>, point: PointView, tick: nat, clock: Seq<char>) -> Seq<
    char,
> {
    base64_text(encode_utf8(id_source(name, point, tick, clock)))
}

/// The id for a given sample of the clock.
pub fn object_id_from(name: &str, point: &Point, tick: &BigUint, clock: &str) -> (id: String)
    ensures
        id@ == object_id(name@, point@, nat_of(*tick), clock@),
{
    let mut source = String::from_str(name);
    source.append("Point { x: ");
    source.append(big_decimal(point.x()).as_str());
    source.append(", y: ");
    source.append(big_decimal(point.y()).as_str());
    source.append(" }");
    source.append(big_decimal(tick).as_str());
    source.append(clock);
    assert(source@ == id_source(name@, point@, nat_of(*tick), clock@));
    base64_of(source.as_str().as_bytes())
}

/// A fresh id: the id for the clock as it stands now.
pub fn generate_object_id(name: &str, point: &Point, tick: &BigUint) -> (id: String)
    ensures
        exists|clock: Seq<char>| id@ == object_id(name@, point@, nat_of(*tick), clock),
{
    let clock = wall_clock();
    object_id_from(name, point, tick, clock.as_str())
}

} // verus!
