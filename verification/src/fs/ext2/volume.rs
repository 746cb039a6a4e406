//! A mounted ext2 volume: the disk together with the superblock and the
//! block group descriptor table kept in memory for it.
use vstd::prelude::*;
use vstd::arithmetic::power2::{pow2, lemma_pow2_strictly_increases, lemma2_to64};
use crate::bytes::{le_u16, le_u32};
use super::bgdt::{BlockGroupDescriptor, BlockGroupDescriptorTable};
use super::disk::{Disk, block_addressable};
use super::superblock::Superblock;

verus! {

/// What a volume holds, as plain values: the disk image, the superblock
/// bytes and the bytes of each block group descriptor.
pub struct VolumeState {
    pub img: Seq<u8>,
    pub sb: Seq<u8>,
    pub groups: Seq<Seq<u8>>,
}

impl VolumeState {
    pub open spec fn log_block_size(self) -> u32 {
        le_u32(self.sb, 24)
    }

    /// Block size in bytes.
    pub open spec fn block_size(self) -> int {
        1024 * (pow2(self.log_block_size() as nat) as int)
    }

    pub open spec fn blocks_per_group(self) -> u32 {
        le_u32(self.sb, 32)
    }

    pub open spec fn inodes_per_group(self) -> u32 {
        le_u32(self.sb, 40)
    }

    pub open spec fn first_data_block(self) -> u32 {
        le_u32(self.sb, 20)
    }

    pub open spec fn inode_size(self) -> u16 {
        le_u16(self.sb, 88)
    }

    pub open spec fn free_blocks(self) -> u32 {
        le_u32(self.sb, 12)
    }

    pub open spec fn free_inodes(self) -> u32 {
        le_u32(self.sb, 16)
    }

    pub open spec fn group_count(self) -> int {
        self.groups.len() as int
    }

    pub open spec fn block_bitmap(self, g: int) -> u32 {
        le_u32(self.groups[g], 0)
    }

    pub open spec fn inode_bitmap(self, g: int) -> u32 {
        le_u32(self.groups[g], 4)
    }

    pub open spec fn inode_table(self, g: int) -> u32 {
        le_u32(self.groups[g], 8)
    }

    pub open spec fn group_free_blocks(self, g: int) -> u16 {
        le_u16(self.groups[g], 12)
    }

    pub open spec fn group_free_inodes(self, g: int) -> u16 {
        le_u16(self.groups[g], 14)
    }

    /// Block `b` can be read and written: its byte and sector addresses fit
    /// in 32 bits.
    pub open spec fn addressable(self, b: u32) -> bool {
        block_addressable(b, self.block_size() as u32)
    }
}

/// A block size derived from a logarithm below 22 lies between 1 KiB and
/// 2 GiB.
pub proof fn lemma_block_size_range(s: VolumeState)
    requires
        s.log_block_size() < 22,
    ensures
        1024 <= s.block_size() <= 0x8000_0000,
{
    let log = s.log_block_size() as nat;
    if log < 21 {
        lemma_pow2_strictly_increases(log, 21);
    }
    if 0 < log {
        lemma_pow2_strictly_increases(0, log);
    }
    lemma2_to64();
}

/// Two states share their geometry: block size, entries per group, first
/// data block, inode size, the number of groups and the block numbers of
/// every group's bitmaps and inode table, and the size of the disk.
#[verifier::opaque]
pub open spec fn same_geometry(a: VolumeState, b: VolumeState) -> bool {
    &&& a.log_block_size() == b.log_block_size()
    &&& a.blocks_per_group() == b.blocks_per_group()
    &&& a.inodes_per_group() == b.inodes_per_group()
    &&& a.first_data_block() == b.first_data_block()
    &&& a.inode_size() == b.inode_size()
    &&& a.groups.len() == b.groups.len()
    &&& a.img.len() == b.img.len()
    &&& forall|g: int|
        0 <= g < a.groups.len() ==> {
            &&& #[trigger] a.block_bitmap(g) == b.block_bitmap(g)
            &&& a.inode_bitmap(g) == b.inode_bitmap(g)
            &&& a.inode_table(g) == b.inode_table(g)
        }
}

pub proof fn lemma_same_geometry_refl(a: VolumeState)
    ensures
        same_geometry(a, a),
{
    reveal(same_geometry);
}

pub proof fn lemma_same_geometry_trans(a: VolumeState, b: VolumeState, c: VolumeState)
    requires
        same_geometry(a, b),
        same_geometry(b, c),
    ensures
        same_geometry(a, c),
{
    reveal(same_geometry);
    assert forall|g: int| 0 <= g < a.groups.len() implies {
        &&& #[trigger] a.block_bitmap(g) == c.block_bitmap(g)
        &&& a.inode_bitmap(g) == c.inode_bitmap(g)
        &&& a.inode_table(g) == c.inode_table(g)
    } by {
        assert(a.block_bitmap(g) == b.block_bitmap(g));
        assert(b.block_bitmap(g) == c.block_bitmap(g));
    }
}

/// Writing the disk image keeps the geometry when it keeps the image's
/// size.
pub proof fn lemma_same_geometry_img(a: VolumeState, img: Seq<u8>)
    requires
        img.len() == a.img.len(),
    ensures
        same_geometry(a, VolumeState { img, ..a }),
{
    reveal(same_geometry);
}

/// A volume whose disk image was rewritten (keeping its size) is still
/// mounted.
pub proof fn lemma_wf_img(a: &Volume, b: &Volume)
    requires
        a.wf(),
        b.superblock == a.superblock,
        b.bgdt == a.bgdt,
        b@.img.len() == a@.img.len(),
    ensures
        b.wf(),
        b@ == (VolumeState { img: b@.img, ..a@ }),
{
    assert(b@.groups == a@.groups);
    assert forall|g: int| 0 <= g < b@.group_count() implies {
        &&& b@.addressable(#[trigger] b@.block_bitmap(g))
        &&& b@.addressable(b@.inode_bitmap(g))
    } by {
        assert(a@.addressable(a@.block_bitmap(g)));
    }
}

/// What two states of the same geometry share.
pub proof fn lemma_same_geometry_facts(a: VolumeState, b: VolumeState)
    requires
        same_geometry(a, b),
    ensures
        a.log_block_size() == b.log_block_size(),
        a.block_size() == b.block_size(),
        a.blocks_per_group() == b.blocks_per_group(),
        a.inodes_per_group() == b.inodes_per_group(),
        a.first_data_block() == b.first_data_block(),
        a.inode_size() == b.inode_size(),
        a.groups.len() == b.groups.len(),
        a.img.len() == b.img.len(),
        forall|x: u32| a.addressable(x) == b.addressable(x),
        forall|g: int|
            0 <= g < a.groups.len() ==> {
                &&& #[trigger] a.block_bitmap(g) == b.block_bitmap(g)
                &&& a.inode_bitmap(g) == b.inode_bitmap(g)
                &&& a.inode_table(g) == b.inode_table(g)
            },
{
    reveal(same_geometry);
}

/// A mounted volume.
pub struct Volume {
    pub disk: Disk,
    pub superblock: Superblock,
    pub bgdt: BlockGroupDescriptorTable,
}

impl Volume {
    pub open spec fn view(&self) -> VolumeState {
        VolumeState {
            img: self.disk@,
            sb: self.superblock.raw@,
            groups: self.bgdt@.map_values(|d: BlockGroupDescriptor| d.raw@),
        }
    }

    /// The invariant of a mounted volume: the in-memory metadata is well
    /// formed, the geometry is usable and the bitmaps and inode tables of
    /// every group can be addressed; there is one descriptor for each block
    /// group the superblock counts.
    pub open spec fn wf(&self) -> bool {
        &&& self.superblock.wf()
        &&& self.bgdt.wf()
        &&& self.bgdt@.len() <= 32
        &&& self.bgdt@.len() == self.superblock.block_groups_count
        &&& self@.log_block_size() < 22
        &&& self@.blocks_per_group() != 0
        &&& self@.inodes_per_group() != 0
        &&& forall|g: int|
            0 <= g < self@.group_count() ==> {
                &&& self@.addressable(#[trigger] self@.block_bitmap(g))
                &&& self@.addressable(self@.inode_bitmap(g))
            }
    }
}

} // verus!
