//! The root system description table: a header followed by the 32-bit
//! physical addresses of the other tables.
use vstd::prelude::*;
use crate::bytes::{byte_sum, le_u32, read_u32_le};
use crate::drivers::acpi::{ACPISDTHeader, SDT_HEADER_SIZE};

verus! {

/// The entries of a root table whose bytes are `table`: as many `u32`s after
/// the header as fit in its `length`.
pub open spec fn rsdt_entries(table: Seq<u8>) -> Seq<u32> {
    Seq::new(
        ((le_u32(table, 4) - SDT_HEADER_SIZE) / 4) as nat,
        |i: int| le_u32(table, SDT_HEADER_SIZE + 4 * i),
    )
}

/// The sum of the four bytes of `e`.
pub open spec fn u32_byte_sum(e: u32) -> nat {
    ((e % 0x100) + (e / 0x100) % 0x100 + (e / 0x1_0000) % 0x100 + e / 0x100_0000) as nat
}

/// The sum of the bytes of all entries.
pub open spec fn entries_byte_sum(es: Seq<u32>) -> nat
    decreases es.len(),
{
    if es.len() == 0 {
        0
    } else {
        entries_byte_sum(es.drop_last()) + u32_byte_sum(es.last())
    }
}

proof fn lemma_entries_sum_prefix(es: Seq<u32>, i: int)
    requires
        0 <= i <= es.len(),
    ensures
        entries_byte_sum(es.take(i)) <= entries_byte_sum(es),
    decreases es.len(),
{
    if i < es.len() {
        assert(es.drop_last().take(i) =~= es.take(i));
        lemma_entries_sum_prefix(es.drop_last(), i);
    } else {
        assert(es.take(i) =~= es);
    }
}

/// The sum of the four bytes of `e`, as the checksum adds them up.
fn entry_byte_sum(e: u32) -> (s: u32)
    ensures
        s == u32_byte_sum(e),
{
    let b0 = (e as u8) as u32;
    let b1 = ((e >> 8) as u8) as u32;
    let b2 = ((e >> 16) as u8) as u32;
    let b3 = ((e >> 24) as u8) as u32;
    assert(b0 == e % 0x100 && b1 == (e / 0x100) % 0x100 && b2 == (e / 0x1_0000) % 0x100 && b3 == e
        / 0x100_0000) by (bit_vector)
        requires
            b0 == (e as u8) as u32,
            b1 == ((e >> 8) as u8) as u32,
            b2 == ((e >> 16) as u8) as u32,
            b3 == ((e >> 24) as u8) as u32,
    ;
    b0 + b1 + b2 + b3
}

/// The root table: its header and its entries.
pub struct RSDT {
    header: ACPISDTHeader,
    entries: Vec<u32>,
}

impl RSDT {
    /// The header bytes.
    pub closed spec fn header_bytes(&self) -> Seq<u8> {
        self.header@
    }

    /// The table addresses listed in the table.
    pub closed spec fn spec_entries(&self) -> Seq<u32> {
        self.entries@
    }

    /// The sum of all bytes of the table, as the checksum computes it.
    pub open spec fn checksum_total(&self) -> nat {
        byte_sum(self.header_bytes()) + entries_byte_sum(self.spec_entries())
    }

    /// Reads the root table from the bytes at its address.
    pub fn new(table: &[u8]) -> (r: Self)
        requires
            table@.len() >= SDT_HEADER_SIZE,
            le_u32(table@, 4) >= SDT_HEADER_SIZE,
            SDT_HEADER_SIZE + 4 * ((le_u32(table@, 4) - SDT_HEADER_SIZE) / 4) <= table@.len(),
        ensures
            r.header_bytes() == table@.take(SDT_HEADER_SIZE as int),
            r.spec_entries() == rsdt_entries(table@),
    {
        let header = ACPISDTHeader::new(table);
        let length = read_u32_le(table, 4);
        let num_entries = (length - SDT_HEADER_SIZE as u32) / 4;
        let mut entries: Vec<u32> = Vec::new();
        let mut i: u32 = 0;
        while i < num_entries
            invariant
                i <= num_entries,
                num_entries == (le_u32(table@, 4) - SDT_HEADER_SIZE) / 4,
                SDT_HEADER_SIZE + 4 * num_entries <= table@.len(),
                entries@ == rsdt_entries(table@).take(i as int),
            decreases num_entries - i,
        {
            let off = SDT_HEADER_SIZE + 4 * (i as usize);
            let entry = read_u32_le(table, off);
            entries.push(entry);
            i = i + 1;
            assert(entries@ =~= rsdt_entries(table@).take(i as int));
        }
        assert(entries@ =~= rsdt_entries(table@));
        RSDT { header, entries }
    }

    /// The table addresses listed in the table.
    pub fn entries(&self) -> (es: &Vec<u32>)
        ensures
            es@ == self.spec_entries(),
    {
        &self.entries
    }

    /// The checksum holds: header and entry bytes sum to 0 modulo 256.
    pub fn is_valid(&self) -> (r: bool)
        requires
            self.checksum_total() <= u32::MAX,
        ensures
            r == (self.checksum_total() % 256 == 0),
    {
        let header_sum = self.header.get_sum();
        let mut entries_sum: u32 = 0;
        let mut i: usize = 0;
        let n = self.entries.len();
        while i < n
            invariant
                n == self.entries@.len(),
                i <= n,
                entries_sum == entries_byte_sum(self.entries@.take(i as int)),
                byte_sum(self.header@) + entries_byte_sum(self.entries@) <= u32::MAX,
            decreases n - i,
        {
            let e = self.entries[i];
            let t = entry_byte_sum(e);
            proof {
                let es = self.entries@;
                assert(es.take(i as int + 1).drop_last() =~= es.take(i as int));
                lemma_entries_sum_prefix(es, i as int + 1);
            }
            entries_sum = entries_sum + t;
            i = i + 1;
        }
        proof {
            assert(self.entries@.take(n as int) =~= self.entries@);
        }
        let total = header_sum + entries_sum;
        let masked = total & 0xff;
        assert(masked == total % 256) by (bit_vector)
            requires
                masked == total & 0xff,
        ;
        masked == 0
    }
}

} // verus!
