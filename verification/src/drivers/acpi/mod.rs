//! ACPI tables: the system description header shared by all tables, the root
//! pointer, the root table, the interrupt controller table and the HPET
//! table.  Each table is parsed from the bytes found at its physical address.
use vstd::prelude::*;
use crate::bytes::{byte_sum, le_u32, read_u32_le, sum_bytes};

pub mod hpet;
pub mod madt;
pub mod rsdp;
pub mod rsdt;

verus! {

/// Size in bytes of the system description table header.
pub const SDT_HEADER_SIZE: usize = 36;

/// The header that starts every ACPI system description table: signature
/// (4 bytes), length (`u32` at 4), revision, checksum, OEM id (6 bytes), OEM
/// table id (8 bytes), OEM revision, creator id and creator revision (`u32`
/// at 24, 28 and 32).
#[derive(Debug)]
pub struct ACPISDTHeader {
    raw: Vec<u8>,
}

impl View for ACPISDTHeader {
    type V = Seq<u8>;

    /// The 36 header bytes.
    closed spec fn view(&self) -> Seq<u8> {
        self.raw@
    }
}

impl ACPISDTHeader {
    #[verifier::type_invariant]
    spec fn inv(self) -> bool {
        self.raw@.len() == SDT_HEADER_SIZE
    }

    /// The `length` field: the size of the whole table, header included.
    pub open spec fn spec_length(&self) -> u32 {
        le_u32(self@, 4)
    }

    /// Reads the header at the start of a table's bytes.
    pub fn new(table: &[u8]) -> (h: Self)
        requires
            table@.len() >= SDT_HEADER_SIZE,
        ensures
            h@ == table@.take(SDT_HEADER_SIZE as int),
    {
        let mut raw: Vec<u8> = Vec::new();
        let mut i: usize = 0;
        while i < SDT_HEADER_SIZE
            invariant
                i <= SDT_HEADER_SIZE <= table@.len(),
                raw@ == table@.take(i as int),
            decreases SDT_HEADER_SIZE - i,
        {
            raw.push(table[i]);
            i = i + 1;
            assert(raw@ =~= table@.take(i as int));
        }
        ACPISDTHeader { raw }
    }

    /// The table length.
    pub fn length(&self) -> (l: u32)
        ensures
            l == self.spec_length(),
    {
        proof {
            use_type_invariant(self);
        }
        read_u32_le(self.raw.as_slice(), 4)
    }

    /// Whether the four signature bytes are `sig`.
    pub fn has_signature(&self, sig: &[u8]) -> (r: bool)
        requires
            sig@.len() == 4,
        ensures
            r == (self@.take(4) == sig@),
    {
        proof {
            use_type_invariant(self);
        }
        let r = self.raw[0] == sig[0] && self.raw[1] == sig[1] && self.raw[2] == sig[2]
            && self.raw[3] == sig[3];
        assert(r ==> self@.take(4) =~= sig@);
        r
    }

    /// The sum of the 36 header bytes (checksum included).
    pub fn get_sum(&self) -> (sum: u32)
        ensures
            sum == byte_sum(self@),
    {
        proof {
            use_type_invariant(self);
            assert(self.raw@.subrange(0, SDT_HEADER_SIZE as int) =~= self.raw@);
        }
        sum_bytes(self.raw.as_slice(), 0, SDT_HEADER_SIZE)
    }
}

} // verus!
