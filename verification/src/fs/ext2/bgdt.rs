//! Block group descriptors and their table (sectors 4 and 5 of the disk).
use vstd::prelude::*;
use crate::bytes::{
    le_u16, le_u32, lemma_read_after_write_u16, read_u16_le, read_u32_le, splice, u16_le_bytes,
    write_u16_le, copy_into,
};
use super::disk::{Disk, sector_exists, sector_of, slice_range};

verus! {

/// Bytes a descriptor occupies in memory (its fields and padding).
pub open spec fn descriptor_len() -> int {
    20
}

/// Bytes a descriptor occupies on disk.
pub open spec fn descriptor_disk_len() -> int {
    32
}

/// One block group descriptor, kept in its on-disk encoding.
pub struct BlockGroupDescriptor {
    pub raw: Vec<u8>,
}

/// The 32 bytes written to disk for a descriptor: its in-memory bytes
/// followed by zeros.
pub open spec fn descriptor_disk_bytes(raw: Seq<u8>) -> Seq<u8> {
    raw + Seq::new(12, |i: int| 0u8)
}

impl BlockGroupDescriptor {
    pub open spec fn wf(&self) -> bool {
        self.raw@.len() == descriptor_len()
    }

    pub open spec fn spec_block_bitmap(&self) -> u32 {
        le_u32(self.raw@, 0)
    }

    pub open spec fn spec_inode_bitmap(&self) -> u32 {
        le_u32(self.raw@, 4)
    }

    pub open spec fn spec_inode_table(&self) -> u32 {
        le_u32(self.raw@, 8)
    }

    pub open spec fn spec_free_blocks(&self) -> u16 {
        le_u16(self.raw@, 12)
    }

    pub open spec fn spec_free_inodes(&self) -> u16 {
        le_u16(self.raw@, 14)
    }

    /// Decodes a descriptor from its 32 on-disk bytes.
    pub fn new(buf: &[u8]) -> (d: Self)
        requires
            buf@.len() == 32,
        ensures
            d.wf(),
            d.raw@ == buf@.subrange(0, descriptor_len()),
    {
        let mut raw: Vec<u8> = Vec::new();
        raw.extend_from_slice(slice_range(buf, 0, 20));
        BlockGroupDescriptor { raw }
    }

    pub fn get_inode_table_start_address(&self) -> (a: usize)
        requires
            self.wf(),
        ensures
            a == self.spec_inode_table(),
    {
        read_u32_le(self.raw.as_slice(), 8) as usize
    }

    pub fn get_free_block_count(&self) -> (n: usize)
        requires
            self.wf(),
        ensures
            n == self.spec_free_blocks(),
    {
        read_u16_le(self.raw.as_slice(), 12) as usize
    }

    pub fn get_b_bitmap_block(&self) -> (b: usize)
        requires
            self.wf(),
        ensures
            b == self.spec_block_bitmap(),
    {
        read_u32_le(self.raw.as_slice(), 0) as usize
    }

    pub fn get_i_bitmap_block(&self) -> (b: usize)
        requires
            self.wf(),
        ensures
            b == self.spec_inode_bitmap(),
    {
        read_u32_le(self.raw.as_slice(), 4) as usize
    }

    pub fn get_free_inode_count(&self) -> (n: usize)
        requires
            self.wf(),
        ensures
            n == self.spec_free_inodes(),
    {
        read_u16_le(self.raw.as_slice(), 14) as usize
    }

    /// The 32 bytes written to disk.
    pub fn to_bytes(&self) -> (b: Vec<u8>)
        requires
            self.wf(),
        ensures
            b@ == descriptor_disk_bytes(self.raw@),
            b@.len() == 32,
    {
        let mut current_data = self.raw.clone();
        while current_data.len() < 32
            invariant
                self.raw@.len() == 20,
                20 <= current_data@.len() <= 32,
                current_data@ == self.raw@ + Seq::new(
                    (current_data@.len() - 20) as nat,
                    |i: int| 0u8,
                ),
            decreases 32 - current_data@.len(),
        {
            let ghost before = current_data@;
            current_data.push(0);
            assert(current_data@ =~= self.raw@ + Seq::new(
                (current_data@.len() - 20) as nat,
                |i: int| 0u8,
            ));
        }
        assert(current_data@ =~= descriptor_disk_bytes(self.raw@));
        current_data
    }

    pub fn set_free_block_count(&mut self, new_value: u16)
        requires
            old(self).wf(),
        ensures
            final(self).wf(),
            final(self).raw@ == splice(old(self).raw@, 12, u16_le_bytes(new_value)),
            final(self).spec_free_blocks() == new_value,
    {
        proof {
            lemma_read_after_write_u16(self.raw@, 12, new_value);
        }
        write_u16_le(&mut self.raw, 12, new_value);
    }

    pub fn set_free_inode_count(&mut self, new_value: u16)
        requires
            old(self).wf(),
        ensures
            final(self).wf(),
            final(self).raw@ == splice(old(self).raw@, 14, u16_le_bytes(new_value)),
            final(self).spec_free_inodes() == new_value,
    {
        proof {
            lemma_read_after_write_u16(self.raw@, 14, new_value);
        }
        write_u16_le(&mut self.raw, 14, new_value);
    }
}

/// The table of all block group descriptors.
pub struct BlockGroupDescriptorTable {
    pub block_group_descriptors: Vec<BlockGroupDescriptor>,
}

/// The on-disk bytes of a sequence of descriptors.
pub open spec fn table_disk_bytes(descs: Seq<BlockGroupDescriptor>) -> Seq<u8>
    decreases descs.len(),
{
    if descs.len() == 0 {
        seq![]
    } else {
        table_disk_bytes(descs.drop_last()) + descriptor_disk_bytes(descs.last().raw@)
    }
}

/// The on-disk bytes of descriptors given by their in-memory bytes.
pub open spec fn groups_disk_bytes(groups: Seq<Seq<u8>>) -> Seq<u8>
    decreases groups.len(),
{
    if groups.len() == 0 {
        seq![]
    } else {
        groups_disk_bytes(groups.drop_last()) + descriptor_disk_bytes(groups.last())
    }
}

/// The disk image after descriptors given by their bytes are written from
/// byte 2048 on.
pub open spec fn groups_flushed(img: Seq<u8>, groups: Seq<Seq<u8>>) -> Seq<u8> {
    splice(img, 2048, groups_disk_bytes(groups))
}

pub proof fn lemma_table_bytes_groups(descs: Seq<BlockGroupDescriptor>)
    ensures
        table_disk_bytes(descs) == groups_disk_bytes(
            descs.map_values(|d: BlockGroupDescriptor| d.raw@),
        ),
    decreases descs.len(),
{
    if descs.len() > 0 {
        lemma_table_bytes_groups(descs.drop_last());
        assert(descs.drop_last().map_values(|d: BlockGroupDescriptor| d.raw@) =~= descs.map_values(
            |d: BlockGroupDescriptor| d.raw@,
        ).drop_last());
    } else {
        assert(descs.map_values(|d: BlockGroupDescriptor| d.raw@) =~= Seq::<Seq<u8>>::empty());
    }
}

/// The disk image after the table bytes are written from byte 2048 on.
pub open spec fn table_flushed(img: Seq<u8>, descs: Seq<BlockGroupDescriptor>) -> Seq<u8> {
    splice(img, 2048, table_disk_bytes(descs))
}

pub proof fn lemma_table_disk_bytes_len(descs: Seq<BlockGroupDescriptor>)
    requires
        forall|i: int| 0 <= i < descs.len() ==> #[trigger] descs[i].wf(),
    ensures
        table_disk_bytes(descs).len() == 32 * descs.len(),
    decreases descs.len(),
{
    if descs.len() > 0 {
        let rest = descs.drop_last();
        assert forall|i: int| 0 <= i < rest.len() implies #[trigger] rest[i].wf() by {
            assert(descs[i].wf());
        }
        lemma_table_disk_bytes_len(rest);
        assert(descs[descs.len() - 1].wf());
        assert(descriptor_disk_bytes(descs.last().raw@).len() == 32);
    }
}

impl BlockGroupDescriptorTable {
    pub open spec fn view(&self) -> Seq<BlockGroupDescriptor> {
        self.block_group_descriptors@
    }

    pub open spec fn wf(&self) -> bool {
        forall|i: int| 0 <= i < self@.len() ==> #[trigger] self@[i].wf()
    }

    /// Reads `block_group_count` descriptors from sectors 4 and 5.
    pub fn new(disk: &Disk, block_group_count: usize) -> (t: Self)
        requires
            sector_exists(disk@.len() as int, 5),
            block_group_count <= 32,
        ensures
            t.wf(),
            t@.len() == block_group_count,
            forall|i: int|
                0 <= i < block_group_count ==> #[trigger] t@[i].raw@ == disk@.subrange(
                    2048 + 32 * i,
                    2048 + 32 * i + 20,
                ),
    {
        let mut data: Vec<u8> = Vec::new();
        let mut buf: Vec<u8> = vec![0u8; 512];
        let _ = disk.read(4, &mut buf);
        data.extend_from_slice(buf.as_slice());
        let _ = disk.read(5, &mut buf);
        data.extend_from_slice(buf.as_slice());
        assert(data@ =~= disk@.subrange(2048, 3072));
        let mut bgdt = BlockGroupDescriptorTable { block_group_descriptors: Vec::new() };
        let mut block: usize = 0;
        while block < block_group_count
            invariant
                block_group_count <= 32,
                3072 <= disk@.len(),
                data@ == disk@.subrange(2048, 3072),
                0 <= block <= block_group_count,
                bgdt@.len() == block,
                bgdt.wf(),
                forall|i: int|
                    0 <= i < block ==> #[trigger] bgdt@[i].raw@ == disk@.subrange(
                        2048 + 32 * i,
                        2048 + 32 * i + 20,
                    ),
            decreases block_group_count - block,
        {
            let start = block * 32;
            let current_buffer = slice_range(data.as_slice(), start, start + 32);
            let bgd = BlockGroupDescriptor::new(current_buffer);
            assert(bgd.raw@ =~= disk@.subrange(2048 + 32 * block, 2048 + 32 * block + 20));
            bgdt.block_group_descriptors.push(bgd);
            block = block + 1;
        }
        bgdt
    }

    pub fn get_block_group_descriptor_count(&self) -> (n: usize)
        ensures
            n == self@.len(),
    {
        self.block_group_descriptors.len()
    }

    pub fn get_block_group_descriptor(&self, index: usize) -> (d: &BlockGroupDescriptor)
        requires
            index < self@.len(),
        ensures
            *d == self@[index as int],
    {
        &self.block_group_descriptors[index]
    }

    pub fn get_block_group_descriptor_as_mut(&mut self, index: usize) -> (d:
        &mut BlockGroupDescriptor)
        requires
            index < old(self)@.len(),
        ensures
            *d == old(self)@[index as int],
            final(self)@ == old(self)@.update(index as int, *final(d)),
    {
        &mut self.block_group_descriptors[index]
    }

    /// The on-disk bytes of the whole table.
    pub fn to_bytes(&self) -> (b: Vec<u8>)
        requires
            self.wf(),
        ensures
            b@ == table_disk_bytes(self@),
    {
        let mut bytes: Vec<u8> = Vec::new();
        let n = self.block_group_descriptors.len();
        let mut i: usize = 0;
        while i < n
            invariant
                n == self@.len(),
                self.wf(),
                0 <= i <= n,
                bytes@ == table_disk_bytes(self@.subrange(0, i as int)),
            decreases n - i,
        {
            let b = self.block_group_descriptors[i].to_bytes();
            bytes.extend_from_slice(b.as_slice());
            assert(self@.subrange(0, i + 1).drop_last() =~= self@.subrange(0, i as int));
            i = i + 1;
        }
        assert(self@.subrange(0, n as int) =~= self@);
        bytes
    }

    /// Writes the table back over sectors 4 and 5.
    pub fn flush(&self, disk: &mut Disk)
        requires
            self.wf(),
            self@.len() <= 32,
            sector_exists(old(disk)@.len() as int, 5),
        ensures
            final(disk)@ == table_flushed(old(disk)@, self@),
    {
        let self_data = self.to_bytes();
        proof {
            lemma_table_disk_bytes_len(self@);
        }
        let mut disk_data: Vec<u8> = Vec::new();
        let mut buf: Vec<u8> = vec![0u8; 512];
        let _ = disk.read(4, &mut buf);
        disk_data.extend_from_slice(buf.as_slice());
        let _ = disk.read(5, &mut buf);
        disk_data.extend_from_slice(buf.as_slice());
        let ghost img = disk@;
        assert(disk_data@ =~= img.subrange(2048, 3072));
        copy_into(&mut disk_data, 0, self_data.as_slice());
        let _ = disk.write(4, slice_range(disk_data.as_slice(), 0, 512));
        let _ = disk.write(5, slice_range(disk_data.as_slice(), 512, 1024));
        assert(disk@ =~= table_flushed(img, self@));
    }
}

} // verus!
