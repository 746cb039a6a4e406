//! Timers: durations, the programmable interval timer, the local APIC timer
//! and the HPET.
use vstd::prelude::*;

pub mod hpet;
pub mod lapic;
pub mod pit;

verus! {

/// A duration in one of five units.
#[derive(Debug, Clone, Copy, PartialEq, Eq, Structural)]
pub enum Time {
    Femtoseconds(u64),
    Nanoseconds(u64),
    Microseconds(u64),
    Milliseconds(u64),
    Seconds(u64),
}

/// The duration in nanoseconds (femtoseconds rounded down).
pub open spec fn nanoseconds(t: Time) -> int {
    match t {
        Time::Femtoseconds(n) => (n / 1_000_000) as int,
        Time::Nanoseconds(n) => n as int,
        Time::Microseconds(n) => n * 1000,
        Time::Milliseconds(n) => n * 1_000_000,
        Time::Seconds(n) => n * 1_000_000_000,
    }
}

/// The duration in femtoseconds.
pub open spec fn femtoseconds(t: Time) -> int {
    match t {
        Time::Femtoseconds(n) => n as int,
        Time::Nanoseconds(n) => n * 1_000_000,
        Time::Microseconds(n) => n * 1_000_000_000,
        Time::Milliseconds(n) => n * 1_000_000_000_000,
        Time::Seconds(n) => n * 1_000_000_000_000_000,
    }
}

impl Time {
    /// The duration in nanoseconds; it must fit in a `u64`.
    pub fn to_nanoseconds(&self) -> (n: u64)
        requires
            nanoseconds(*self) <= u64::MAX,
        ensures
            n == nanoseconds(*self),
    {
        match self {
            Time::Femtoseconds(n) => *n / 1_000_000,
            Time::Nanoseconds(n) => *n,
            Time::Microseconds(n) => *n * 1000,
            Time::Milliseconds(n) => *n * 1_000_000,
            Time::Seconds(n) => *n * 1_000_000_000,
        }
    }

    /// The duration in femtoseconds; it must fit in a `u64`.
    pub fn to_femtoseconds(&self) -> (n: u64)
        requires
            femtoseconds(*self) <= u64::MAX,
        ensures
            n == femtoseconds(*self),
    {
        match self {
            Time::Femtoseconds(n) => *n,
            Time::Nanoseconds(n) => *n * 1_000_000,
            Time::Microseconds(n) => *n * 1_000_000_000,
            Time::Milliseconds(n) => *n * 1_000_000_000_000,
            Time::Seconds(n) => *n * 1_000_000_000_000_000,
        }
    }
}

/// One nanosecond is a million femtoseconds: for every unit but
/// femtoseconds, the femtosecond count is the nanosecond count times a
/// million; femtoseconds round down to nanoseconds.
pub proof fn law_time_units(t: Time)
    ensures
        !(t is Femtoseconds) ==> femtoseconds(t) == nanoseconds(t) * 1_000_000,
        t is Femtoseconds ==> nanoseconds(t) == femtoseconds(t) / 1_000_000,
{
}

} // verus!
