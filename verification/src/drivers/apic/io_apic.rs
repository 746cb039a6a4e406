//! The I/O APIC: its identity as listed in the MADT, and the register
//! writes that route and mask interrupts.
use vstd::prelude::*;
use crate::interrupts::InterruptIndexAPIC;

verus! {

/// Base index of the redirection table registers.
pub const IOAPIC_REDTBL: u32 = 0x10;

/// Mask bit of a redirection entry.
pub const REDTBL_MASK: u32 = 0x10000;

/// An I/O APIC: its id, the physical address of its register window and
/// the first global system interrupt it serves.
pub struct IOAPICStruct {
    io_apic_id: u8,
    io_apic_address: u32,
    global_system_interrupt_base: u32,
}

/// An indirect register write: the register index goes to the select
/// register (`IOREGSEL`, at the base address), then the value to the window
/// register (`IOWIN`, 0x10 above it).
#[derive(Debug, Clone, Copy, PartialEq, Eq, Structural)]
pub struct IoApicWrite {
    pub register: u32,
    pub value: u32,
}

/// The register index of the redirection entry for `interrupt`.
pub open spec fn redirection_register(interrupt: u8) -> u32 {
    (IOAPIC_REDTBL + interrupt * 2) as u32
}

impl View for IOAPICStruct {
    type V = (u8, u32, u32);

    /// `(id, address, global system interrupt base)`.
    closed spec fn view(&self) -> (u8, u32, u32) {
        (self.io_apic_id, self.io_apic_address, self.global_system_interrupt_base)
    }
}

impl IOAPICStruct {
    pub fn new(io_apic_id: u8, io_apic_address: u32, global_system_interrupt_base: u32) -> (s: Self)
        ensures
            s@ == (io_apic_id, io_apic_address, global_system_interrupt_base),
    {
        IOAPICStruct { io_apic_id, io_apic_address, global_system_interrupt_base }
    }

    /// Address of the select register.
    pub fn select_address(&self) -> (a: u32)
        ensures
            a == self@.1,
    {
        self.io_apic_address
    }

    /// Address of the window register.
    pub fn window_address(&self) -> (a: u32)
        requires
            self@.1 + 0x10 <= u32::MAX,
        ensures
            a == self@.1 + 0x10,
    {
        self.io_apic_address + 0x10
    }

    /// The write, if any, that sets the mask bit of `interrupt`'s redirection
    /// entry to `mask`, given the entry's `current` value: none when the bit
    /// already has that value.
    pub fn set_mask(&self, interrupt: u8, mask: bool, current: u32) -> (w: Option<IoApicWrite>)
        ensures
            ((current & REDTBL_MASK) != 0) == mask ==> w is None,
            ((current & REDTBL_MASK) != 0) != mask ==> w == Some(
                IoApicWrite {
                    register: redirection_register(interrupt),
                    value: if mask {
                        current | REDTBL_MASK
                    } else {
                        current & !REDTBL_MASK
                    },
                },
            ),
    {
        let reg = IOAPIC_REDTBL + (interrupt as u32) * 2;
        if current & REDTBL_MASK != 0 {
            if !mask {
                return Some(IoApicWrite { register: reg, value: current & !REDTBL_MASK });
            }
        } else {
            if mask {
                return Some(IoApicWrite { register: reg, value: current | REDTBL_MASK });
            }
        }
        None
    }

    /// The write that routes `interrupt` to interrupt vector `vector`.
    pub fn set_red_tbl_vec(&self, interrupt: u8, vector: u8) -> (w: IoApicWrite)
        ensures
            w == (IoApicWrite { register: redirection_register(interrupt), value: vector as u32 }),
    {
        IoApicWrite { register: IOAPIC_REDTBL + (interrupt as u32) * 2, value: vector as u32 }
    }
}

/// The writes that route the legacy timer (IRQ 2), the keyboard (IRQ 1) and
/// the HPET (IRQ 0x12) of `io_apic` to their vectors, in that order.
pub fn init(io_apic: &IOAPICStruct) -> (ws: Vec<IoApicWrite>)
    ensures
        ws@ == seq![
            IoApicWrite { register: 0x14, value: 32 },
            IoApicWrite { register: 0x12, value: 34 },
            IoApicWrite { register: 0x34, value: 35 },
        ],
{
    let mut ws: Vec<IoApicWrite> = Vec::new();
    ws.push(io_apic.set_red_tbl_vec(2, InterruptIndexAPIC::Timer.as_u8()));
    ws.push(io_apic.set_red_tbl_vec(1, InterruptIndexAPIC::Keyboard.as_u8()));
    ws.push(io_apic.set_red_tbl_vec(0x12, InterruptIndexAPIC::HPET.as_u8()));
    ws
}

/// Masking (or unmasking) is idempotent: once the write that `set_mask`
/// asks for is done, asking again for the same mask needs no write.
pub proof fn law_set_mask_settles(current: u32, mask: bool)
    ensures
        ({
            let v = if ((current & REDTBL_MASK) != 0) == mask {
                current
            } else if mask {
                current | REDTBL_MASK
            } else {
                current & !REDTBL_MASK
            };
            ((v & REDTBL_MASK) != 0) == mask
        }),
{
    assert(((current | 0x10000u32) & 0x10000u32) != 0 && ((current & !0x10000u32) & 0x10000u32) == 0)
        by (bit_vector);
}

} // verus!
