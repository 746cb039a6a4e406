//! The HPET description table and the HPET's memory-mapped registers.
use vstd::prelude::*;
use crate::bytes::{le_u16, le_u32, le_u64, read_u16_le, read_u32_le, read_u64_le};
use crate::drivers::acpi::{ACPISDTHeader, SDT_HEADER_SIZE};
use crate::drivers::mmio::MmioWrite64;

verus! {

/// Size of the HPET table as read: the header and 20 more bytes.
pub const HPET_TABLE_SIZE: usize = 56;

/// General registers of the HPET.
#[derive(Debug, Clone, Copy, PartialEq, Eq, Structural)]
pub enum HPETRegisters {
    GeneralCapabilitiesID,
    GeneralConfiguration,
    MainCounterValue,
}

/// Offset of each general register from the HPET base address.
pub open spec fn hpet_reg_offset(r: HPETRegisters) -> u64 {
    match r {
        HPETRegisters::GeneralCapabilitiesID => 0x00,
        HPETRegisters::GeneralConfiguration => 0x10,
        HPETRegisters::MainCounterValue => 0xF0,
    }
}

impl HPETRegisters {
    /// Offset of the register from the HPET base address.
    pub fn offset(self) -> (o: u64)
        ensures
            o == hpet_reg_offset(self),
    {
        match self {
            HPETRegisters::GeneralCapabilitiesID => 0x00,
            HPETRegisters::GeneralConfiguration => 0x10,
            HPETRegisters::MainCounterValue => 0xF0,
        }
    }
}

/// The HPET table: event timer block id, the base address of the registers,
/// the HPET number, the minimum clock tick and the page protection.
#[derive(Debug)]
pub struct HPET {
    header: ACPISDTHeader,
    event_timer_block_id: u32,
    reseved: u32,
    address: u64,
    id: u8,
    min_clock_tick: u16,
    page_protection: u8,
}

/// The fields of an HPET table, in order.
pub struct HPETFields {
    pub event_timer_block_id: u32,
    pub reserved: u32,
    pub address: u64,
    pub id: u8,
    pub min_clock_tick: u16,
    pub page_protection: u8,
}

/// Offset of the configuration register of comparator `n`.
pub open spec fn timer_config_offset(n: u8) -> int {
    0x100 + n * 0x20
}

/// Offset of the comparator value register of comparator `n`.
pub open spec fn timer_comparator_offset(n: u8) -> int {
    0x108 + n * 0x20
}

impl HPET {
    /// The header bytes.
    pub closed spec fn header_bytes(&self) -> Seq<u8> {
        self.header@
    }

    /// The fields after the header.
    pub closed spec fn fields(&self) -> HPETFields {
        HPETFields {
            event_timer_block_id: self.event_timer_block_id,
            reserved: self.reseved,
            address: self.address,
            id: self.id,
            min_clock_tick: self.min_clock_tick,
            page_protection: self.page_protection,
        }
    }

    /// The base address of the registers.
    pub open spec fn base(&self) -> u64 {
        self.fields().address
    }

    /// Reads the table from the bytes at its address.
    pub fn new(table: &[u8]) -> (h: Self)
        requires
            table@.len() >= HPET_TABLE_SIZE,
        ensures
            h.header_bytes() == table@.take(SDT_HEADER_SIZE as int),
            h.fields() == (HPETFields {
                event_timer_block_id: le_u32(table@, 36),
                reserved: le_u32(table@, 40),
                address: le_u64(table@, 44),
                id: table@[52],
                min_clock_tick: le_u16(table@, 53),
                page_protection: table@[55],
            }),
    {
        let header = ACPISDTHeader::new(table);
        HPET {
            header,
            event_timer_block_id: read_u32_le(table, 36),
            reseved: read_u32_le(table, 40),
            address: read_u64_le(table, 44),
            id: table[52],
            min_clock_tick: read_u16_le(table, 53),
            page_protection: table[55],
        }
    }

    /// The address of a general register.
    pub fn register_address(&self, register: HPETRegisters) -> (a: u64)
        requires
            self.base() + 0xF0 <= u64::MAX,
        ensures
            a == self.base() + hpet_reg_offset(register),
    {
        self.address + register.offset()
    }

    /// The store that writes `value` to a general register.
    pub fn set_register(&self, register: HPETRegisters, value: u64) -> (w: MmioWrite64)
        requires
            self.base() + 0xF0 <= u64::MAX,
        ensures
            w.address == self.base() + hpet_reg_offset(register),
            w.value == value,
    {
        MmioWrite64 { address: self.register_address(register), value }
    }

    /// The store that starts the main counter, given the `current` value of
    /// the configuration register: bit 0 set.
    pub fn enable(&self, current: u64) -> (w: MmioWrite64)
        requires
            self.base() + 0xF0 <= u64::MAX,
        ensures
            w.address == self.base() + 0x10,
            w.value == current | 1,
    {
        self.set_register(HPETRegisters::GeneralConfiguration, current | 1)
    }

    /// The store that stops the main counter, given the `current` value of
    /// the configuration register: bit 0 cleared.
    pub fn disable(&self, current: u64) -> (w: MmioWrite64)
        requires
            self.base() + 0xF0 <= u64::MAX,
        ensures
            w.address == self.base() + 0x10,
            w.value == current & !1u64,
    {
        self.set_register(HPETRegisters::GeneralConfiguration, current & !1u64)
    }

    /// The configuration register of comparator `n`.
    pub fn get_timer_n_config(&self, n: u8) -> (c: HPETTimerConfig)
        requires
            self.base() + timer_comparator_offset(n) <= u64::MAX,
        ensures
            c.base_address() == self.base() + timer_config_offset(n),
    {
        let offset = 0x100 + (n as u64) * 0x20;
        HPETTimerConfig::new(self.address + offset)
    }

    /// The store that sets the comparator value of comparator `n`.
    pub fn set_timer_n_comparator(&self, n: u8, value: u64) -> (w: MmioWrite64)
        requires
            self.base() + timer_comparator_offset(n) <= u64::MAX,
        ensures
            w.address == self.base() + timer_comparator_offset(n),
            w.value == value,
    {
        let offset = 0x108 + (n as u64) * 0x20;
        MmioWrite64 { address: self.address + offset, value }
    }
}

/// Mask of the interrupt routing field (bits 9 to 13) of a comparator
/// configuration register.
pub const INT_ROUTE_MASK: u64 = 0x3E00;

/// The configuration register of one HPET comparator.
#[derive(Debug)]
pub struct HPETTimerConfig {
    base_address: u64,
}

impl HPETTimerConfig {
    /// The address of the register.
    pub closed spec fn base_address(&self) -> u64 {
        self.base_address
    }

    pub fn new(base_address: u64) -> (c: Self)
        ensures
            c.base_address() == base_address,
    {
        HPETTimerConfig { base_address }
    }

    /// The address of the register.
    pub fn address(&self) -> (a: u64)
        ensures
            a == self.base_address(),
    {
        self.base_address
    }

    /// The store that routes the comparator to I/O APIC input `idx`, given
    /// the `current` register value: bits 9 to 13 replaced by `idx`.
    pub fn set_interrupt_idx(&self, current: u64, idx: u8) -> (w: MmioWrite64)
        ensures
            w.address == self.base_address(),
            w.value == (current & !INT_ROUTE_MASK) | ((idx as u64) << 9u64),
    {
        let idx_mask: u64 = !((0b11111u64 << 9u64) as u64);
        assert(idx_mask == !INT_ROUTE_MASK) by (bit_vector)
            requires
                idx_mask == !((0b11111u64 << 9u64) as u64),
        ;
        let idx = (idx as u64) << 9u64;
        MmioWrite64 { address: self.base_address, value: (current & idx_mask) | idx }
    }

    /// The store that enables the comparator's interrupt: bit 2 set.
    pub fn enable_interrupt(&self, current: u64) -> (w: MmioWrite64)
        ensures
            w.address == self.base_address(),
            w.value == current | 0b100,
    {
        MmioWrite64 { address: self.base_address, value: current | 0b100 }
    }

    /// The store that disables the comparator's interrupt: bit 2 cleared.
    pub fn disable_interrupt(&self, current: u64) -> (w: MmioWrite64)
        ensures
            w.address == self.base_address(),
            w.value == current & !0b100u64,
    {
        MmioWrite64 { address: self.base_address, value: current & !0b100u64 }
    }
}

/// Starting the counter sets bit 0 and stopping it clears it; every other
/// bit of the configuration is kept, so stopping after starting is the same
/// as stopping.
pub proof fn law_enable_disable(current: u64)
    ensures
        (current | 1) & 1 == 1,
        (current & !1u64) & 1 == 0,
        (current | 1) & !1u64 == current & !1u64,
{
    assert((current | 1) & 1 == 1 && (current & !1u64) & 1 == 0 && (current | 1) & !1u64 == current
        & !1u64) by (bit_vector);
}

/// Routing a comparator to input `idx` (below 32) puts `idx` in bits 9 to
/// 13 and keeps every other bit.
pub proof fn law_interrupt_route(current: u64, idx: u8)
    requires
        idx < 32,
    ensures
        ({
            let v = (current & !INT_ROUTE_MASK) | ((idx as u64) << 9u64);
            &&& (v >> 9u64) & 0x1F == idx as u64
            &&& v & !INT_ROUTE_MASK == current & !INT_ROUTE_MASK
        }),
{
    let i = idx as u64;
    assert(((current & !0x3E00u64) | (i << 9u64)) >> 9u64 & 0x1F == i && ((current & !0x3E00u64) | (i
        << 9u64)) & !0x3E00u64 == current & !0x3E00u64) by (bit_vector)
        requires
            i < 32,
    ;
}

/// Enabling a comparator's interrupt sets bit 2 and disabling clears it;
/// the other bits are kept.
pub proof fn law_comparator_interrupt(current: u64)
    ensures
        (current | 0b100) & 0b100 == 0b100,
        (current & !0b100u64) & 0b100 == 0,
        (current | 0b100) & !0b100u64 == current & !0b100u64,
{
    assert((current | 0b100) & 0b100 == 0b100 && (current & !0b100u64) & 0b100 == 0 && (current
        | 0b100) & !0b100u64 == current & !0b100u64) by (bit_vector);
}

} // verus!
