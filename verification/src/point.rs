//! Points of the plane with natural coordinates.

use crate::natural::nat_of;
use num_bigint::BigUint;
use vstd::prelude::*;

verus! {

/// The coordinates that a [`Point`] holds.
pub struct PointView {
    pub x: nat,
    pub y: nat,
}

/// A place on the map. Which way the axes run is left to the host.
#[derive(Debug, PartialEq, Eq, Hash)]
pub struct Point {
    x: BigUint,
    y: BigUint,
}

impl View for Point {
    type V = PointView;

    closed spec fn view(&self) -> PointView {
        PointView { x: nat_of(self.x), y: nat_of(self.y) }
    }
}

impl Clone for Point {
    fn clone(&self) -> (p: Point)
        ensures
            p@ == self@,
    {
        Point { x: self.x.clone(), y: self.y.clone() }
    }
}

impl Point {
    /// The point with the given coordinates.
    pub fn new(x: BigUint, y: BigUint) -> (p: Point)
        ensures
            p@ == (PointView { x: nat_of(x), y: nat_of(y) }),
    {
        Point { x, y }
    }

    /// The first coordinate.
    pub fn x(&self) -> (n: &BigUint)
        ensures
            nat_of(*n) == self@.x,
    {
        &self.x
    }

    /// The second coordinate.
    pub fn y(&self) -> (n: &BigUint)
        ensures
            nat_of(*n) == self@.y,
    {
        &self.y
    }
}

} // verus!
