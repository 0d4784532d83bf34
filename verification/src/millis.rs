//! A duration in whole milliseconds.

use vstd::prelude::*;

verus! {

/// `From::from` of a type to itself, the conversion that the standard
/// library gives every type: it hands its argument back.
///
/// Not proved: taken from the standard library's documentation, which
/// calls `From` reflexive.
pub assume_specification<V>[ <V as core::convert::From<V>>::from ](v: V) -> (r: V)
    ensures
        r == v,
;

/// A non-negative duration, counted in milliseconds.
#[derive(Clone, Copy, Debug, PartialEq, Eq, PartialOrd, Ord)]
pub struct Millis(u64);

impl View for Millis {
    type V = nat;

    closed spec fn view(&self) -> nat {
        self.0 as nat
    }
}

impl Default for Millis {
    /// The empty duration.
    fn default() -> (r: Self)
        ensures
            r@ == 0,
    {
        Millis(0)
    }
}

impl Millis {
    /// Wraps a count of milliseconds, given in any type that converts to
    /// `u64`: the duration is what the conversion yields, so a `u64` count
    /// is kept as it is.
    pub fn new<T: Into<u64>>(milliseconds: T) -> (r: Self)
        ensures
            exists|v: u64| call_ensures(<T as Into<u64>>::into, (milliseconds,), v) && r@ == v,
    {
        Millis(milliseconds.into())
    }

    /// The count of milliseconds.
    pub fn as_u64(&self) -> (r: u64)
        ensures
            r == self@,
    {
        self.0
    }

    /// The duration in minutes, rounded down.
    pub fn whole_minutes(&self) -> (r: u64)
        ensures
            r == self@ / 60_000,
    {
        self.0 / 60_000
    }
}

} // verus!
