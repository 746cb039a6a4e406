//! The local APIC timer: the values written to its registers.
use vstd::prelude::*;
use crate::interrupts::InterruptIndexAPIC;

verus! {

/// Divide configuration of the local APIC timer.
#[derive(Debug, Clone, Copy, PartialEq, Eq, Structural)]
pub enum LAPICTimerDivideValue {
    Div2,
    Div4,
    Div8,
    Div16,
    Div32,
    Div64,
    Div128,
    Div1,
}

/// The bits of each divide configuration.
pub open spec fn divide_code(d: LAPICTimerDivideValue) -> u32 {
    match d {
        LAPICTimerDivideValue::Div2 => 0b0000,
        LAPICTimerDivideValue::Div4 => 0b0001,
        LAPICTimerDivideValue::Div8 => 0b0010,
        LAPICTimerDivideValue::Div16 => 0b0011,
        LAPICTimerDivideValue::Div32 => 0b1000,
        LAPICTimerDivideValue::Div64 => 0b1001,
        LAPICTimerDivideValue::Div128 => 0b1010,
        LAPICTimerDivideValue::Div1 => 0b1011,
    }
}

impl LAPICTimerDivideValue {
    /// The bits of the divide configuration.
    pub fn code(self) -> (c: u32)
        ensures
            c == divide_code(self),
    {
        match self {
            LAPICTimerDivideValue::Div2 => 0b0000,
            LAPICTimerDivideValue::Div4 => 0b0001,
            LAPICTimerDivideValue::Div8 => 0b0010,
            LAPICTimerDivideValue::Div16 => 0b0011,
            LAPICTimerDivideValue::Div32 => 0b1000,
            LAPICTimerDivideValue::Div64 => 0b1001,
            LAPICTimerDivideValue::Div128 => 0b1010,
            LAPICTimerDivideValue::Div1 => 0b1011,
        }
    }
}

/// Periodic mode bit (bit 17) of the timer's local vector table entry.
pub const LVT_PERIODIC: u32 = 0x2_0000;

/// Mask bit (bit 16) of the timer's local vector table entry.
pub const LVT_MASKED: u32 = 0x1_0000;

/// Largest initial count, loaded before a calibration.
pub const MAX_TICKS: u32 = 0xFFFF_FFFF;

/// The local APIC timer.  Each function gives the value to store in a
/// timer register, from the register's `current` value where it keeps bits.
pub struct LAPICTimer {}

impl LAPICTimer {
    /// The timer's local vector table entry: the timer's interrupt vector.
    pub fn set_lvt() -> (v: u32)
        ensures
            v == 33,
    {
        InterruptIndexAPIC::LAPICTimer.as_u32()
    }

    /// The entry with periodic mode switched on or off.
    pub fn set_periodic(current: u32, periodic: bool) -> (v: u32)
        ensures
            v == if periodic {
                current | LVT_PERIODIC
            } else {
                current & !LVT_PERIODIC
            },
    {
        if periodic {
            current | LVT_PERIODIC
        } else {
            current & !LVT_PERIODIC
        }
    }

    /// The entry with the timer unmasked (active) or masked.
    pub fn set_active(current: u32, active: bool) -> (v: u32)
        ensures
            v == if !active {
                current | LVT_MASKED
            } else {
                current & !LVT_MASKED
            },
    {
        if !active {
            current | LVT_MASKED
        } else {
            current & !LVT_MASKED
        }
    }

    /// The divide configuration register with its divide bits replaced:
    /// bits 3 to 7 of `current` are kept.
    pub fn set_divide(current: u32, divide: LAPICTimerDivideValue) -> (v: u32)
        ensures
            v == (current & 0b1111_1000) | divide_code(divide),
    {
        (current & 0b1111_1000) | divide.code()
    }
}

/// The ticks the timer counted down from [`MAX_TICKS`] during the
/// calibration sleep, when its current count reads `current_ticks`.
pub fn lapic_calibrate(current_ticks: u32) -> (ticks: u32)
    ensures
        ticks == MAX_TICKS - current_ticks,
{
    MAX_TICKS - current_ticks
}

/// The calibrated ticks divided by 1000, as used to start the periodic timer.
pub fn lapic_calibrate_ticks(current_ticks: u32) -> (ticks: u32)
    ensures
        ticks == (MAX_TICKS - current_ticks) / 1000,
{
    lapic_calibrate(current_ticks) / 1000
}

/// The periodic and mask bits read back as set, and each setting keeps the
/// other bits of the entry.
pub proof fn law_lvt_bits(current: u32, periodic: bool, active: bool)
    ensures
        ({
            let p = if periodic {
                current | LVT_PERIODIC
            } else {
                current & !LVT_PERIODIC
            };
            &&& ((p & LVT_PERIODIC) != 0) == periodic
            &&& p & !LVT_PERIODIC == current & !LVT_PERIODIC
        }),
        ({
            let a = if !active {
                current | LVT_MASKED
            } else {
                current & !LVT_MASKED
            };
            &&& ((a & LVT_MASKED) == 0) == active
            &&& a & !LVT_MASKED == current & !LVT_MASKED
        }),
{
    assert((current | 0x20000u32) & 0x20000u32 != 0 && (current & !0x20000u32) & 0x20000u32 == 0
        && (current | 0x20000u32) & !0x20000u32 == current & !0x20000u32 && (current & !0x20000u32)
        & !0x20000u32 == current & !0x20000u32) by (bit_vector);
    assert((current | 0x10000u32) & 0x10000u32 != 0 && (current & !0x10000u32) & 0x10000u32 == 0
        && (current | 0x10000u32) & !0x10000u32 == current & !0x10000u32 && (current & !0x10000u32)
        & !0x10000u32 == current & !0x10000u32) by (bit_vector);
}

/// The divide configuration keeps bits 4 to 7, puts the divide value's
/// bits 0 and 1 in place, and sets bit 3 when the divide value or the old
/// configuration has it (bit 3 of the old value is not cleared).
pub proof fn law_divide_bits(current: u32, divide: LAPICTimerDivideValue)
    ensures
        ({
            let v = (current & 0b1111_1000) | divide_code(divide);
            &&& v & 0b11 == divide_code(divide) & 0b11
            &&& v & 0b1111_0000 == current & 0b1111_0000
            &&& (v & 0b1000 != 0) == (current & 0b1000 != 0 || divide_code(divide) & 0b1000 != 0)
            &&& v & 0b100 == 0
        }),
{
    let d = divide_code(divide);
    let v = (current & 0b1111_1000) | d;
    assert(v & 0b11 == d & 0b11 && v & 0b1111_0000 == current & 0b1111_0000 && (v & 0b1000 != 0) == (
    current & 0b1000 != 0 || d & 0b1000 != 0) && v & 0b100 == 0) by (bit_vector)
        requires
            d == 0 || d == 1 || d == 2 || d == 3 || d == 8 || d == 9 || d == 10 || d == 11,
            v == (current & 0b1111_1000) | d,
    ;
}

} // verus!
