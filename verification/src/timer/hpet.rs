//! A timer driven by the HPET.
use vstd::prelude::*;
use crate::drivers::acpi::hpet::HPET;
use crate::timer::Time;

verus! {

/// The HPET and its tick period.
pub struct HPETTimer {
    hpet: HPET,
    frequency: Time,
}

impl HPETTimer {
    /// The HPET.
    pub closed spec fn spec_hpet(&self) -> &HPET {
        &self.hpet
    }

    /// The tick period.
    pub closed spec fn spec_frequency(&self) -> Time {
        self.frequency
    }

    /// A timer on `hpet` whose general capabilities register reads
    /// `capabilities`: its upper 32 bits are the tick period in femtoseconds.
    pub fn new(hpet: HPET, capabilities: u64) -> (t: Self)
        ensures
            t.spec_hpet() == &hpet,
            t.spec_frequency() == Time::Femtoseconds(capabilities >> 32u64),
    {
        HPETTimer { hpet, frequency: Time::Femtoseconds(capabilities >> 32u64) }
    }

    /// The HPET.
    pub fn hpet(&self) -> (h: &HPET)
        ensures
            h == self.spec_hpet(),
    {
        &self.hpet
    }

    /// The tick period.
    pub fn frequency(&self) -> (f: Time)
        ensures
            f == self.spec_frequency(),
    {
        self.frequency
    }
}

} // verus!
