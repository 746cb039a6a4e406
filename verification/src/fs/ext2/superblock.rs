//! The ext2 superblock: the first 236 bytes of the 1 KiB at byte 1024 of the
//! disk (sector 2), kept in their on-disk encoding.
use vstd::prelude::*;
use vstd::arithmetic::power2::{pow2, lemma_pow2_strictly_increases, lemma2_to64};
use vstd::bits::lemma_usize_shl_is_mul;
use crate::bytes::{le_u16, le_u32, lemma_read_after_write_u32, read_u16_le, read_u32_le, splice, u32_le_bytes, write_u32_le, copy_into};
use super::disk::{Disk, sector_exists, sector_of, slice_range};

verus! {

/// Bytes of the superblock fields this driver knows.
pub open spec fn superblock_len() -> int {
    236
}

// Byte offsets of the fields used by the driver.
pub open spec fn off_inodes_count() -> int { 0 }
pub open spec fn off_blocks_count() -> int { 4 }
pub open spec fn off_free_blocks() -> int { 12 }
pub open spec fn off_free_inodes() -> int { 16 }
pub open spec fn off_first_data_block() -> int { 20 }
pub open spec fn off_log_block_size() -> int { 24 }
pub open spec fn off_blocks_per_group() -> int { 32 }
pub open spec fn off_inodes_per_group() -> int { 40 }
pub open spec fn off_inode_size() -> int { 88 }

/// Superblock bytes from which a superblock can be built: the group
/// counts derived from blocks and from inodes agree.
pub open spec fn superblock_consistent(raw: Seq<u8>) -> bool {
    &&& raw.len() >= superblock_len()
    &&& le_u32(raw, off_blocks_per_group()) != 0
    &&& le_u32(raw, off_inodes_per_group()) != 0
    &&& le_u32(raw, off_blocks_count()) / le_u32(raw, off_blocks_per_group()) == le_u32(
        raw,
        off_inodes_count(),
    ) / le_u32(raw, off_inodes_per_group())
}

/// The superblock of a mounted ext2 file system.
pub struct Superblock {
    /// The on-disk bytes of the known fields.
    pub raw: Vec<u8>,
    /// Number of block groups.
    pub block_groups_count: u32,
}

impl Superblock {
    pub open spec fn wf(&self) -> bool {
        self.raw@.len() == superblock_len()
    }

    pub open spec fn spec_inodes_count(&self) -> u32 {
        le_u32(self.raw@, off_inodes_count())
    }

    pub open spec fn spec_blocks_count(&self) -> u32 {
        le_u32(self.raw@, off_blocks_count())
    }

    pub open spec fn spec_free_blocks(&self) -> u32 {
        le_u32(self.raw@, off_free_blocks())
    }

    pub open spec fn spec_free_inodes(&self) -> u32 {
        le_u32(self.raw@, off_free_inodes())
    }

    pub open spec fn spec_first_data_block(&self) -> u32 {
        le_u32(self.raw@, off_first_data_block())
    }

    /// The block size is 1024 shifted left by this.
    pub open spec fn spec_log_block_size(&self) -> u32 {
        le_u32(self.raw@, off_log_block_size())
    }

    pub open spec fn spec_block_size(&self) -> int {
        1024 * (pow2(self.spec_log_block_size() as nat) as int)
    }

    pub open spec fn spec_blocks_per_group(&self) -> u32 {
        le_u32(self.raw@, off_blocks_per_group())
    }

    pub open spec fn spec_inodes_per_group(&self) -> u32 {
        le_u32(self.raw@, off_inodes_per_group())
    }

    pub open spec fn spec_inode_size(&self) -> u16 {
        le_u16(self.raw@, off_inode_size())
    }

    /// Reads the superblock from sector 2 of the disk.
    pub fn new(disk: &Disk) -> (sb: Self)
        requires
            sector_exists(disk@.len() as int, 2),
            superblock_consistent(sector_of(disk@, 2)),
        ensures
            sb.wf(),
            sb.raw@ == sector_of(disk@, 2).subrange(0, superblock_len()),
            sb.block_groups_count == sb.spec_blocks_count() / sb.spec_blocks_per_group(),
    {
        let mut buf: Vec<u8> = vec![0u8; 512];
        let _ = disk.read(2, &mut buf);
        let mut raw: Vec<u8> = Vec::new();
        raw.extend_from_slice(slice_range(buf.as_slice(), 0, 236));
        let blocks_count = read_u32_le(raw.as_slice(), 4);
        let blocks_per_group = read_u32_le(raw.as_slice(), 32);
        let block_groups_count = blocks_count / blocks_per_group;
        assert(raw@ =~= sector_of(disk@, 2).subrange(0, superblock_len()));
        assert(le_u32(raw@, 4) == le_u32(sector_of(disk@, 2), 4));
        assert(le_u32(raw@, 32) == le_u32(sector_of(disk@, 2), 32));
        Superblock { raw, block_groups_count }
    }

    /// Block size in bytes.
    pub fn get_block_size(&self) -> (s: usize)
        requires
            self.wf(),
            self.spec_log_block_size() < 22,
        ensures
            s as int == self.spec_block_size(),
            1024 <= s <= 0x8000_0000,
    {
        let log = read_u32_le(self.raw.as_slice(), 24) as usize;
        proof {
            if log < 21 {
                lemma_pow2_strictly_increases(log as nat, 21);
            }
            if 0 < log {
                lemma_pow2_strictly_increases(0, log as nat);
            }
            lemma2_to64();
            lemma_usize_shl_is_mul(1024, log);
        }
        1024usize << log
    }

    /// Size of an on-disk inode in bytes.
    pub fn get_inode_size(&self) -> (s: usize)
        requires
            self.wf(),
        ensures
            s == self.spec_inode_size(),
    {
        read_u16_le(self.raw.as_slice(), 88) as usize
    }

    pub fn get_inodes_per_group(&self) -> (n: usize)
        requires
            self.wf(),
        ensures
            n == self.spec_inodes_per_group(),
    {
        read_u32_le(self.raw.as_slice(), 40) as usize
    }

    pub fn get_block_group_count(&self) -> (n: usize)
        ensures
            n == self.block_groups_count,
    {
        self.block_groups_count as usize
    }

    pub fn get_blocks_per_group(&self) -> (n: usize)
        requires
            self.wf(),
        ensures
            n == self.spec_blocks_per_group(),
    {
        read_u32_le(self.raw.as_slice(), 32) as usize
    }

    /// The bytes written back to disk.
    pub fn to_bytes(&self) -> (b: Vec<u8>)
        ensures
            b@ == self.raw@,
    {
        self.raw.clone()
    }

    pub fn get_free_blocks(&self) -> (n: u32)
        requires
            self.wf(),
        ensures
            n == self.spec_free_blocks(),
    {
        read_u32_le(self.raw.as_slice(), 12)
    }

    pub fn set_free_blocks(&mut self, new_value: u32)
        requires
            old(self).wf(),
        ensures
            final(self).wf(),
            final(self).raw@ == splice(old(self).raw@, off_free_blocks(), u32_le_bytes(new_value)),
            final(self).spec_free_blocks() == new_value,
            final(self).block_groups_count == old(self).block_groups_count,
    {
        proof {
            lemma_read_after_write_u32(self.raw@, off_free_blocks(), new_value);
        }
        write_u32_le(&mut self.raw, 12, new_value);
    }

    pub fn get_free_inodes(&self) -> (n: u32)
        requires
            self.wf(),
        ensures
            n == self.spec_free_inodes(),
    {
        read_u32_le(self.raw.as_slice(), 16)
    }

    pub fn set_free_inodes(&mut self, new_value: u32)
        requires
            old(self).wf(),
        ensures
            final(self).wf(),
            final(self).raw@ == splice(old(self).raw@, off_free_inodes(), u32_le_bytes(new_value)),
            final(self).spec_free_inodes() == new_value,
            final(self).block_groups_count == old(self).block_groups_count,
    {
        proof {
            lemma_read_after_write_u32(self.raw@, off_free_inodes(), new_value);
        }
        write_u32_le(&mut self.raw, 16, new_value);
    }

    /// The block the superblock lives in, which is where data blocks are
    /// counted from.
    pub fn get_first_free_data_block(&self) -> (n: u32)
        requires
            self.wf(),
        ensures
            n == self.spec_first_data_block(),
    {
        read_u32_le(self.raw.as_slice(), 20)
    }
}

/// The disk image after the superblock bytes are written over the start of
/// sector 2, keeping the rest of sectors 2 and 3.
pub open spec fn superblock_flushed(img: Seq<u8>, raw: Seq<u8>) -> Seq<u8> {
    splice(img, 1024, raw)
}

impl Superblock {
    /// Writes the superblock back over sectors 2 and 3 of the disk.
    pub fn flush(&self, disk: &mut Disk)
        requires
            self.wf(),
            sector_exists(old(disk)@.len() as int, 3),
        ensures
            final(disk)@ == superblock_flushed(old(disk)@, self.raw@),
    {
        let mut disk_data: Vec<u8> = Vec::new();
        let mut buf: Vec<u8> = vec![0u8; 512];
        let _ = disk.read(2, &mut buf);
        disk_data.extend_from_slice(buf.as_slice());
        let _ = disk.read(3, &mut buf);
        disk_data.extend_from_slice(buf.as_slice());
        let ghost img = disk@;
        assert(disk_data@ =~= img.subrange(1024, 2048));
        let self_data = self.to_bytes();
        copy_into(&mut disk_data, 0, self_data.as_slice());
        let _ = disk.write(2, slice_range(disk_data.as_slice(), 0, 512));
        let _ = disk.write(3, slice_range(disk_data.as_slice(), 512, 1024));
        assert(disk@ =~= superblock_flushed(img, self.raw@));
    }
}

} // verus!
