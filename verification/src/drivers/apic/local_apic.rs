//! The local APIC: its state as read from the `IA32_APIC_BASE` MSR and the
//! addresses and values of its memory-mapped registers.
use vstd::prelude::*;
use crate::drivers::mmio::MmioWrite32;

verus! {

/// Number of the `IA32_APIC_BASE` model-specific register.
pub const IA32_APIC_BASE_MSR: u32 = 0x1b;

/// Local APIC registers.
#[derive(Debug, Clone, Copy, PartialEq, Eq, Structural)]
pub enum LAPICReg {
    ID,
    Version,
    EOI,
    TimerLVT,
    /// Initial count.
    TimerICnt,
    /// Current count.
    TimerCCnt,
    /// Divide configuration.
    TimerDCnf,
    SpuriousInterruptVector,
}

/// Offset of each register from the APIC base address.
pub open spec fn lapic_reg_offset(r: LAPICReg) -> u64 {
    match r {
        LAPICReg::ID => 0x20,
        LAPICReg::Version => 0x30,
        LAPICReg::EOI => 0xb0,
        LAPICReg::TimerLVT => 0x320,
        LAPICReg::TimerICnt => 0x380,
        LAPICReg::TimerCCnt => 0x390,
        LAPICReg::TimerDCnf => 0x3e0,
        LAPICReg::SpuriousInterruptVector => 0xf0,
    }
}

impl LAPICReg {
    /// Offset of the register from the APIC base address.
    pub fn offset(self) -> (o: u64)
        ensures
            o == lapic_reg_offset(self),
    {
        match self {
            LAPICReg::ID => 0x20,
            LAPICReg::Version => 0x30,
            LAPICReg::EOI => 0xb0,
            LAPICReg::TimerLVT => 0x320,
            LAPICReg::TimerICnt => 0x380,
            LAPICReg::TimerCCnt => 0x390,
            LAPICReg::TimerDCnf => 0x3e0,
            LAPICReg::SpuriousInterruptVector => 0xf0,
        }
    }
}

/// The local APIC: whether this is the bootstrap processor, whether the
/// APIC is enabled, and the (page-aligned) base address of its registers.
#[derive(Debug)]
pub struct LocalAPIC {
    bsc: bool,
    is_enabled: bool,
    base_address: u64,
}

impl View for LocalAPIC {
    type V = (bool, bool, u64);

    /// `(bootstrap processor, enabled, base address)`.
    closed spec fn view(&self) -> (bool, bool, u64) {
        (self.bsc, self.is_enabled, self.base_address)
    }
}

impl LocalAPIC {
    #[verifier::type_invariant]
    spec fn inv(self) -> bool {
        self.base_address & 0xFFF == 0
    }

    /// Decodes the value of the `IA32_APIC_BASE` MSR: bit 8 is the bootstrap
    /// processor flag, bit 11 the enable flag, bits 12 and up the base.
    pub fn init(register: u64) -> (l: Self)
        ensures
            l@.0 == ((register >> 8) & 1 == 1),
            l@.1 == ((register >> 11) & 1 == 1),
            l@.2 == (register >> 12) << 12,
            l@.2 == register - register % 0x1000,
    {
        let bsc = (register >> 8) & 1 == 1;
        let is_enabled = (register >> 11) & 1 == 1;
        let base = register >> 12;
        let base_address = base << 12;
        assert(base_address & 0xFFF == 0 && base_address == register - register % 0x1000)
            by (bit_vector)
            requires
                base == register >> 12,
                base_address == base << 12,
        ;
        LocalAPIC { bsc, is_enabled, base_address }
    }

    /// The address of `register`.
    pub fn register_address(&self, register: LAPICReg) -> (a: u64)
        ensures
            a == self@.2 + lapic_reg_offset(register),
    {
        proof {
            use_type_invariant(self);
        }
        let offset = register.offset();
        let base = self.base_address;
        assert(base + offset <= u64::MAX) by (bit_vector)
            requires
                base & 0xFFF == 0,
                offset < 0x1000,
        ;
        base + offset
    }

    /// The store that writes `value` to `register`.
    pub fn write_register(&self, register: LAPICReg, value: u32) -> (w: MmioWrite32)
        ensures
            w.address == self@.2 + lapic_reg_offset(register),
            w.value == value,
    {
        MmioWrite32 { address: self.register_address(register), value }
    }

    /// The store that signals the end of an interrupt: 0 to the EOI register.
    pub fn set_eoi(&self) -> (w: MmioWrite32)
        ensures
            w.address == self@.2 + 0xb0,
            w.value == 0,
    {
        self.write_register(LAPICReg::EOI, 0)
    }

    /// The store that sets the spurious interrupt vector register.
    pub fn set_spurious_interrupt_vector(&self, value: u32) -> (w: MmioWrite32)
        ensures
            w.address == self@.2 + 0xf0,
            w.value == value,
    {
        self.write_register(LAPICReg::SpuriousInterruptVector, value)
    }

    /// Enabling needs no work beyond `init`.
    pub fn enable() {
    }
}

/// The spurious interrupt vector value that enables the APIC (bit 8) with
/// vector 0xFF, keeping the other bits of `current`.
pub fn enabled_spurious_vector(current: u32) -> (v: u32)
    ensures
        v == current | 0x1FF,
{
    current | 0x1FF
}

} // verus!
