//! The multiple APIC description table: the interrupt controllers of the
//! machine, as a list of variable-length records after a fixed part.
use vstd::prelude::*;
use crate::bytes::{le_u16, le_u32, read_u16_le, read_u32_le};
use crate::drivers::acpi::{ACPISDTHeader, SDT_HEADER_SIZE};
use crate::drivers::apic::io_apic::IOAPICStruct;

verus! {

/// Offset of the first record: after the header, the local APIC address and
/// the flags.
pub const MADT_ENTRIES_OFFSET: usize = 44;

/// The records the kernel understands.
#[derive(Debug, Clone, Copy, PartialEq, Eq, Structural)]
pub enum MADTEntry {
    /// Type 0: a processor and its local APIC.
    LocalApicEntry { processor_id: u8, apic_id: u8, flags: u32 },
    /// Type 1: an I/O APIC.
    IoApicEntry { ioapic_id: u8, ioapic_address: u32, global_system_interrupt_base: u32 },
    /// Type 2: an interrupt source override.
    IoApicInterruptSourceOverrideEntry {
        bus_source: u8,
        irq_source: u8,
        global_system_interrupt: u32,
        flags: u16,
    },
    /// Type 4: a local APIC non-maskable interrupt.
    LocalApicNmiEntry { processor_id: u8, flags: u16, local_apic_lint: u8 },
}

/// The record at `off` can be read: its type and length bytes are there,
/// its length is not zero, and the fields the kernel reads for its type are
/// inside `b`.
pub open spec fn record_fits(b: Seq<u8>, off: int) -> bool {
    &&& 0 <= off
    &&& off + 2 <= b.len()
    &&& b[off + 1] > 0
    &&& (b[off] == 0 ==> off + 8 <= b.len())
    &&& (b[off] == 1 ==> off + 12 <= b.len())
    &&& (b[off] == 2 ==> off + 10 <= b.len())
    &&& (b[off] == 4 ==> off + 6 <= b.len())
}

/// The record at `off`, or `None` for a type the kernel skips.
pub open spec fn parse_record(b: Seq<u8>, off: int) -> Option<MADTEntry> {
    if b[off] == 0 {
        Some(
            MADTEntry::LocalApicEntry {
                processor_id: b[off + 2],
                apic_id: b[off + 3],
                flags: le_u32(b, off + 4),
            },
        )
    } else if b[off] == 1 {
        Some(
            MADTEntry::IoApicEntry {
                ioapic_id: b[off + 2],
                ioapic_address: le_u32(b, off + 4),
                global_system_interrupt_base: le_u32(b, off + 8),
            },
        )
    } else if b[off] == 2 {
        Some(
            MADTEntry::IoApicInterruptSourceOverrideEntry {
                bus_source: b[off + 2],
                irq_source: b[off + 3],
                global_system_interrupt: le_u32(b, off + 4),
                flags: le_u16(b, off + 8),
            },
        )
    } else if b[off] == 4 {
        Some(
            MADTEntry::LocalApicNmiEntry {
                processor_id: b[off + 2],
                flags: le_u16(b, off + 3),
                local_apic_lint: b[off + 5],
            },
        )
    } else {
        None
    }
}

/// What is left to read after a record of `rl` bytes when `left` was left.
pub open spec fn left_after(left: int, rl: int) -> int {
    if rl > left {
        0
    } else {
        left - rl
    }
}

/// The walk over the records from `off`, with `left` bytes still to read,
/// reads only readable records, so it ends.
pub open spec fn madt_walk_ok(b: Seq<u8>, off: int, left: int) -> bool
    decreases left,
{
    if left <= 0 {
        true
    } else {
        record_fits(b, off) && madt_walk_ok(b, off + b[off + 1], left_after(left, b[off + 1] as int))
    }
}

/// The records the walk collects from `off` with `left` bytes to read.
pub open spec fn madt_entries(b: Seq<u8>, off: int, left: int) -> Seq<MADTEntry>
    decreases left,
{
    if left <= 0 || !record_fits(b, off) {
        seq![]
    } else {
        let rest = madt_entries(b, off + b[off + 1], left_after(left, b[off + 1] as int));
        match parse_record(b, off) {
            Some(e) => seq![e] + rest,
            None => rest,
        }
    }
}

/// The bytes the walk has to read: `length - 36` from the first record on.
pub open spec fn madt_left(b: Seq<u8>) -> int {
    le_u32(b, 4) - SDT_HEADER_SIZE
}

/// A MADT can be read from `b`.
pub open spec fn madt_readable(b: Seq<u8>) -> bool {
    &&& b.len() >= MADT_ENTRIES_OFFSET
    &&& le_u32(b, 4) >= SDT_HEADER_SIZE
    &&& madt_walk_ok(b, MADT_ENTRIES_OFFSET as int, madt_left(b))
}

/// The first I/O APIC record of `es`, as `(id, address, interrupt base)`.
pub open spec fn first_ioapic(es: Seq<MADTEntry>) -> Option<(u8, u32, u32)>
    decreases es.len(),
{
    if es.len() == 0 {
        None
    } else {
        match es[0] {
            MADTEntry::IoApicEntry { ioapic_id, ioapic_address, global_system_interrupt_base } => Some(
                (ioapic_id, ioapic_address, global_system_interrupt_base),
            ),
            _ => first_ioapic(es.drop_first()),
        }
    }
}

/// The interrupt controller table: its header, the local APIC address, the
/// flags and the records.
pub struct MADT {
    header: ACPISDTHeader,
    local_apic_address: u32,
    flags: u32,
    entries: Vec<MADTEntry>,
}

impl MADT {
    /// The header bytes.
    pub closed spec fn header_bytes(&self) -> Seq<u8> {
        self.header@
    }

    /// The local APIC address field.
    pub closed spec fn spec_local_apic_address(&self) -> u32 {
        self.local_apic_address
    }

    /// The flags field.
    pub closed spec fn spec_flags(&self) -> u32 {
        self.flags
    }

    /// The records read.
    pub closed spec fn spec_entries(&self) -> Seq<MADTEntry> {
        self.entries@
    }

    fn read_record(b: &[u8], off: usize) -> (e: Option<MADTEntry>)
        requires
            record_fits(b@, off as int),
        ensures
            e == parse_record(b@, off as int),
    {
        let entry_type = b[off];
        if entry_type == 0 {
            Some(
                MADTEntry::LocalApicEntry {
                    processor_id: b[off + 2],
                    apic_id: b[off + 3],
                    flags: read_u32_le(b, off + 4),
                },
            )
        } else if entry_type == 1 {
            Some(
                MADTEntry::IoApicEntry {
                    ioapic_id: b[off + 2],
                    ioapic_address: read_u32_le(b, off + 4),
                    global_system_interrupt_base: read_u32_le(b, off + 8),
                },
            )
        } else if entry_type == 2 {
            Some(
                MADTEntry::IoApicInterruptSourceOverrideEntry {
                    bus_source: b[off + 2],
                    irq_source: b[off + 3],
                    global_system_interrupt: read_u32_le(b, off + 4),
                    flags: read_u16_le(b, off + 8),
                },
            )
        } else if entry_type == 4 {
            Some(
                MADTEntry::LocalApicNmiEntry {
                    processor_id: b[off + 2],
                    flags: read_u16_le(b, off + 3),
                    local_apic_lint: b[off + 5],
                },
            )
        } else {
            None
        }
    }

    /// Reads the table from the bytes at its address.  The walk over the
    /// records reads `length - 36` bytes from offset 44 on, skipping records
    /// of unknown type.
    pub fn new(table: &[u8]) -> (m: Self)
        requires
            madt_readable(table@),
        ensures
            m.header_bytes() == table@.take(SDT_HEADER_SIZE as int),
            m.spec_local_apic_address() == le_u32(table@, 36),
            m.spec_flags() == le_u32(table@, 40),
            m.spec_entries() == madt_entries(table@, MADT_ENTRIES_OFFSET as int, madt_left(table@)),
    {
        let header = ACPISDTHeader::new(table);
        let length = read_u32_le(table, 4);
        let local_apic_address = read_u32_le(table, 36);
        let flags = read_u32_le(table, 40);
        let mut off: usize = MADT_ENTRIES_OFFSET;
        let mut left: u32 = length - SDT_HEADER_SIZE as u32;
        let mut entries: Vec<MADTEntry> = Vec::new();
        let ghost all = madt_entries(table@, MADT_ENTRIES_OFFSET as int, madt_left(table@));
        while left > 0
            invariant
                madt_walk_ok(table@, off as int, left as int),
                entries@ + madt_entries(table@, off as int, left as int) == all,
            decreases left,
        {
            let tlen = table.len();
            assert(record_fits(table@, off as int));
            let rl = table[off + 1];
            assert(rl == table@[off + 1]);
            assert(madt_walk_ok(table@, off + rl, left_after(left as int, rl as int)));
            let e = MADT::read_record(table, off);
            let ghost old_left = left;
            let ghost rest = madt_entries(table@, off + rl, left_after(left as int, rl as int));
            match e {
                Some(entry) => {
                    entries.push(entry);
                    assert(entries@ + rest =~= all);
                },
                None => {},
            }
            if rl as u32 >= left {
                left = 0;
                assert(madt_entries(table@, off + rl, 0) =~= Seq::<MADTEntry>::empty());
            } else {
                left = left - rl as u32;
                assert(left_after(old_left as int, rl as int) == left);
                assert(record_fits(table@, off + rl));
                off = off + rl as usize;
            }
        }
        MADT { header, local_apic_address, flags, entries }
    }

    /// The first I/O APIC listed in the table.
    pub fn get_ioapic(&self) -> (r: Option<IOAPICStruct>)
        ensures
            r is None <==> first_ioapic(self.spec_entries()) is None,
            r is Some ==> r->0@ == first_ioapic(self.spec_entries())->0,
    {
        let n = self.entries.len();
        let mut i: usize = 0;
        assert(self.entries@.skip(0) =~= self.entries@);
        while i < n
            invariant
                n == self.entries@.len(),
                i <= n,
                first_ioapic(self.entries@) == first_ioapic(self.entries@.skip(i as int)),
            decreases n - i,
        {
            proof {
                assert(self.entries@.skip(i as int).drop_first() =~= self.entries@.skip(i as int + 1));
            }
            match self.entries[i] {
                MADTEntry::IoApicEntry { ioapic_id, ioapic_address, global_system_interrupt_base } => {
                    return Some(IOAPICStruct::new(ioapic_id, ioapic_address, global_system_interrupt_base));
                },
                _ => {},
            }
            i = i + 1;
        }
        None
    }
}

} // verus!
