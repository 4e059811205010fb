//! Durations fixed in the type: a unit and a number.

use vstd::prelude::*;
use std::marker::PhantomData;

verus! {

/// The unit of a duration counted in nanoseconds.
pub struct Nanos {}

/// The unit of a duration counted in microseconds.
pub struct Micros {}

/// A duration of `V` units `U`.
pub struct Time<U, const V: u64> {
    _data: PhantomData<U>,
}

/// A duration known from its type alone.
pub trait TimeVal {
    /// The number the duration was written with, in its own unit.
    spec fn spec_value() -> nat;

    /// The duration in nanoseconds.
    spec fn spec_nanos() -> nat;

    /// The duration in whole microseconds, rounded down.
    spec fn spec_micros() -> nat;

    /// The number the duration was written with, in its own unit.
    fn value() -> (v: u64)
        ensures
            v == Self::spec_value(),
    ;

    /// The duration in nanoseconds, or `None` if that does not fit in 64 bits.
    fn nanos() -> (n: Option<u64>)
        ensures
            Self::spec_nanos() <= u64::MAX ==> n == Some(Self::spec_nanos() as u64),
            Self::spec_nanos() > u64::MAX ==> n.is_none(),
    ;

    /// The duration in whole microseconds, rounded down.
    fn micros() -> (m: u64)
        ensures
            m == Self::spec_micros(),
    ;
}

impl<const V: u64> TimeVal for Time<Micros, V> {
    open spec fn spec_value() -> nat {
        V as nat
    }

    open spec fn spec_nanos() -> nat {
        V as nat * 1000
    }

    open spec fn spec_micros() -> nat {
        V as nat
    }

    fn value() -> (v: u64) {
        V
    }

    fn nanos() -> (n: Option<u64>) {
        V.checked_mul(1000)
    }

    fn micros() -> (m: u64) {
        V
    }
}

impl<const V: u64> TimeVal for Time<Nanos, V> {
    open spec fn spec_value() -> nat {
        V as nat
    }

    open spec fn spec_nanos() -> nat {
        V as nat
    }

    open spec fn spec_micros() -> nat {
        V as nat / 1000
    }

    fn value() -> (v: u64) {
        V
    }

    fn nanos() -> (n: Option<u64>) {
        Some(V)
    }

    fn micros() -> (m: u64) {
        V / 1000
    }
}

} // verus!
