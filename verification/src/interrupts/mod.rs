//! Interrupt vector numbers used with the APIC.
use vstd::prelude::*;

verus! {

/// Interrupt vectors of the devices routed through the APIC.
#[derive(Debug, Clone, Copy, PartialEq, Eq, Structural)]
pub enum InterruptIndexAPIC {
    Timer,
    LAPICTimer,
    Keyboard,
    HPET,
    AtaMaster,
    AtaSlave,
    Spurious,
}

/// The vector number of each interrupt.
pub open spec fn vector_of(i: InterruptIndexAPIC) -> u8 {
    match i {
        InterruptIndexAPIC::Timer => 32,
        InterruptIndexAPIC::LAPICTimer => 33,
        InterruptIndexAPIC::Keyboard => 34,
        InterruptIndexAPIC::HPET => 35,
        InterruptIndexAPIC::AtaMaster => 36,
        InterruptIndexAPIC::AtaSlave => 37,
        InterruptIndexAPIC::Spurious => 0xFF,
    }
}

impl InterruptIndexAPIC {
    /// The vector number.
    pub fn as_u8(self) -> (v: u8)
        ensures
            v == vector_of(self),
    {
        match self {
            InterruptIndexAPIC::Timer => 32,
            InterruptIndexAPIC::LAPICTimer => 33,
            InterruptIndexAPIC::Keyboard => 34,
            InterruptIndexAPIC::HPET => 35,
            InterruptIndexAPIC::AtaMaster => 36,
            InterruptIndexAPIC::AtaSlave => 37,
            InterruptIndexAPIC::Spurious => 0xFF,
        }
    }

    /// The vector number, widened.
    pub fn as_u32(self) -> (v: u32)
        ensures
            v == vector_of(self) as u32,
    {
        self.as_u8() as u32
    }
}

} // verus!
