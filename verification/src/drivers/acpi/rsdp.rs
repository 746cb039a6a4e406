//! The root system description pointer (ACPI 1.0 layout).
use vstd::prelude::*;
use crate::bytes::{byte_sum, le_u32, read_u32_le, sum_bytes};

verus! {

/// Size in bytes of the ACPI 1.0 root pointer.
pub const RSDP_SIZE: usize = 20;

/// The root pointer: signature (8 bytes), checksum, OEM id (6 bytes),
/// revision and the 32-bit physical address of the root table (at 16).
pub struct Rsdp {
    raw: Vec<u8>,
}

impl View for Rsdp {
    type V = Seq<u8>;

    /// The 20 bytes of the structure.
    closed spec fn view(&self) -> Seq<u8> {
        self.raw@
    }
}

impl Rsdp {
    #[verifier::type_invariant]
    spec fn inv(self) -> bool {
        self.raw@.len() == RSDP_SIZE
    }

    /// Reads the root pointer from the bytes at its address.
    pub fn new(bytes: &[u8]) -> (r: Self)
        requires
            bytes@.len() >= RSDP_SIZE,
        ensures
            r@ == bytes@.take(RSDP_SIZE as int),
    {
        let mut raw: Vec<u8> = Vec::new();
        let mut i: usize = 0;
        while i < RSDP_SIZE
            invariant
                i <= RSDP_SIZE <= bytes@.len(),
                raw@ == bytes@.take(i as int),
            decreases RSDP_SIZE - i,
        {
            raw.push(bytes[i]);
            i = i + 1;
            assert(raw@ =~= bytes@.take(i as int));
        }
        Rsdp { raw }
    }

    /// The checksum holds: the 20 bytes sum to 0 modulo 256.
    pub fn is_valid(&self) -> (r: bool)
        ensures
            r == (byte_sum(self@) % 256 == 0),
    {
        proof {
            use_type_invariant(self);
            assert(self.raw@.subrange(0, RSDP_SIZE as int) =~= self.raw@);
        }
        let sum = sum_bytes(self.raw.as_slice(), 0, RSDP_SIZE);
        let masked = sum & 0xff;
        assert(masked == sum % 256) by (bit_vector)
            requires
                masked == sum & 0xff,
        ;
        masked == 0
    }

    /// The physical address of the root system description table.
    pub fn rsdt_address(&self) -> (a: u32)
        ensures
            a == le_u32(self@, 16),
    {
        proof {
            use_type_invariant(self);
        }
        read_u32_le(self.raw.as_slice(), 16)
    }
}

} // verus!
