//! Inodes: their fields, where they live on disk, and the blocks they own.
//!
//! An inode is kept in the 120 bytes of its on-disk encoding:
//! mode (0), uid (2), size (4), four time stamps (8..24), group (24),
//! hard links (26), sector count (28), flags (32), OS field (36), twelve
//! direct block pointers (40..88), the indirect (88), doubly indirect (92)
//! and triply indirect (96) pointers, then generation, ACLs, fragment
//! address and a second OS field (100..120).
use vstd::prelude::*;
use crate::bytes::{
    le_u16, le_u32, lemma_read_after_write_u16, lemma_read_after_write_u32, read_u16_le,
    read_u32_le, splice, u16_le_bytes, u32_le_bytes, write_u16_le, write_u32_le,
};
use super::disk::{
    block_read, block_write, first_sector, read_1kb_block, sector_exists, slice_range, Disk,
};
use super::volume::{Volume, VolumeState, lemma_block_size_range};

verus! {

/// Bytes of an inode's encoding.
pub open spec fn inode_len() -> int {
    120
}

/// The kind of file an inode describes.
#[derive(Debug, PartialEq, Eq, Structural, Clone, Copy)]
pub enum InodeType {
    FIFO,
    CharacterDevice,
    Directory,
    BlockDevice,
    RegularFile,
    SymbolicLink,
    Socket,
    Unknown,
}

/// The type field (top four bits of the mode) of each inode type.
pub open spec fn type_mode(t: InodeType) -> u16 {
    match t {
        InodeType::FIFO => 0x1000,
        InodeType::CharacterDevice => 0x2000,
        InodeType::Directory => 0x4000,
        InodeType::BlockDevice => 0x6000,
        InodeType::RegularFile => 0x8000,
        InodeType::SymbolicLink => 0xA000,
        InodeType::Socket => 0xC000,
        InodeType::Unknown => 0,
    }
}

/// The inode type that a mode's type field stands for.
pub open spec fn mode_type(mode: u16) -> InodeType {
    let t = mode & 0xF000;
    if t == 0x1000 {
        InodeType::FIFO
    } else if t == 0x2000 {
        InodeType::CharacterDevice
    } else if t == 0x4000 {
        InodeType::Directory
    } else if t == 0x6000 {
        InodeType::BlockDevice
    } else if t == 0x8000 {
        InodeType::RegularFile
    } else if t == 0xA000 {
        InodeType::SymbolicLink
    } else if t == 0xC000 {
        InodeType::Socket
    } else {
        InodeType::Unknown
    }
}

/// Inode flags.
#[derive(Debug, PartialEq, Eq, Structural, Clone, Copy)]
pub enum InodeFlags {
    SecureDeletion,
    KeepCopyWhenDeleted,
    FileCompression,
    /// New data is written to disk at once.
    SynUpdate,
    ImutableFile,
    AppendOnly,
    /// Left out of dumps.
    NotDump,
    /// Last access time is not updated.
    LastAccessNoUpdate,
    HashIndexedDir,
    AFSDirectory,
    JournalData,
}

/// The bit of each flag in the flags field.
pub open spec fn flag_bit(f: InodeFlags) -> u32 {
    match f {
        InodeFlags::SecureDeletion => 0x1,
        InodeFlags::KeepCopyWhenDeleted => 0x2,
        InodeFlags::FileCompression => 0x4,
        InodeFlags::SynUpdate => 0x8,
        InodeFlags::ImutableFile => 0x10,
        InodeFlags::AppendOnly => 0x20,
        InodeFlags::NotDump => 0x40,
        InodeFlags::LastAccessNoUpdate => 0x80,
        InodeFlags::HashIndexedDir => 0x10000,
        InodeFlags::AFSDirectory => 0x20000,
        InodeFlags::JournalData => 0x40000,
    }
}

impl InodeFlags {
    /// The bit of this flag in the flags field.
    pub fn value(&self) -> (v: u32)
        ensures
            v == flag_bit(*self),
    {
        match self {
            InodeFlags::SecureDeletion => 0x1,
            InodeFlags::KeepCopyWhenDeleted => 0x2,
            InodeFlags::FileCompression => 0x4,
            InodeFlags::SynUpdate => 0x8,
            InodeFlags::ImutableFile => 0x10,
            InodeFlags::AppendOnly => 0x20,
            InodeFlags::NotDump => 0x40,
            InodeFlags::LastAccessNoUpdate => 0x80,
            InodeFlags::HashIndexedDir => 0x10000,
            InodeFlags::AFSDirectory => 0x20000,
            InodeFlags::JournalData => 0x40000,
        }
    }
}

/// An inode loaded from disk, with where it came from.
pub struct Inode {
    /// The 120 bytes of its encoding.
    pub raw: Vec<u8>,
    /// Its number (from 1; 0 is the null inode).
    pub id: usize,
    /// The block that holds it.
    pub block: usize,
    /// Its offset inside that block.
    pub offset_in_block: usize,
    /// Whether it is written back when released.
    pub need_flush: bool,
}

/// An inode as plain values.
pub struct InodeView {
    pub raw: Seq<u8>,
    pub id: int,
    pub block: int,
    pub offset_in_block: int,
    pub need_flush: bool,
}

impl InodeView {
    pub open spec fn spec_mode(&self) -> u16 {
        le_u16(self.raw, 0)
    }

    pub open spec fn spec_size(&self) -> u32 {
        le_u32(self.raw, 4)
    }

    pub open spec fn spec_links(&self) -> u16 {
        le_u16(self.raw, 26)
    }

    pub open spec fn spec_direct(&self, i: int) -> u32 {
        le_u32(self.raw, direct_offset(i))
    }

    pub open spec fn spec_indirect(&self) -> u32 {
        le_u32(self.raw, 88)
    }

    pub open spec fn spec_dindirect(&self) -> u32 {
        le_u32(self.raw, 92)
    }

    pub open spec fn spec_tindirect(&self) -> u32 {
        le_u32(self.raw, 96)
    }

    /// The inode sits inside the 1 KiB read at its block, and the two
    /// sectors written back exist.
    pub open spec fn placed(&self, s: VolumeState) -> bool {
        &&& 0 <= self.offset_in_block
        &&& self.offset_in_block + 120 <= 1024
        &&& 0 <= self.block <= u32::MAX
        &&& s.addressable(self.block as u32)
        &&& sector_exists(
            s.img.len() as int,
            first_sector(self.block as u32, s.block_size() as u32) + 1,
        )
    }

    /// The disk image after the inode is written back: its block with the
    /// inode's bytes in place, written only where they changed something.
    pub open spec fn flushed(&self, s: VolumeState) -> Seq<u8> {
        let bs = s.block_size() as u32;
        let data = block_read(s.img, self.block as u32, bs);
        let updated = splice(data, self.offset_in_block, self.raw);
        if updated == data {
            s.img
        } else {
            block_write(s.img, self.block as u32, bs, updated)
        }
    }
}

/// Byte offset of direct block pointer `i`.
pub open spec fn direct_offset(i: int) -> int {
    40 + 4 * i
}

impl Inode {
    pub open spec fn view(&self) -> InodeView {
        InodeView {
            raw: self.raw@,
            id: self.id as int,
            block: self.block as int,
            offset_in_block: self.offset_in_block as int,
            need_flush: self.need_flush,
        }
    }

    pub open spec fn wf(&self) -> bool {
        self.raw@.len() == inode_len()
    }

    pub open spec fn spec_mode(&self) -> u16 {
        le_u16(self.raw@, 0)
    }

    pub open spec fn spec_size(&self) -> u32 {
        le_u32(self.raw@, 4)
    }

    pub open spec fn spec_links(&self) -> u16 {
        le_u16(self.raw@, 26)
    }

    pub open spec fn spec_sectors(&self) -> u32 {
        le_u32(self.raw@, 28)
    }

    pub open spec fn spec_flags(&self) -> u32 {
        le_u32(self.raw@, 32)
    }

    pub open spec fn spec_direct(&self, i: int) -> u32 {
        le_u32(self.raw@, direct_offset(i))
    }

    pub open spec fn spec_indirect(&self) -> u32 {
        le_u32(self.raw@, 88)
    }

    pub open spec fn spec_dindirect(&self) -> u32 {
        le_u32(self.raw@, 92)
    }

    pub open spec fn spec_tindirect(&self) -> u32 {
        le_u32(self.raw@, 96)
    }

    pub fn get_id(&self) -> (id: usize)
        ensures
            id == self.id,
    {
        self.id
    }

    /// The null inode: all fields zero.
    pub(crate) fn null() -> (i: Self)
        ensures
            i.wf(),
            i.raw@ == Seq::new(120, |k: int| 0u8),
            i.id == 0,
            i.block == 0,
            i.offset_in_block == 0,
            !i.need_flush,
    {
        let raw: Vec<u8> = vec![0u8; 120];
        Inode { raw, id: 0, block: 0, offset_in_block: 0, need_flush: false }
    }

    /// Zeroes every field of the inode's encoding.
    pub(crate) fn clear(&mut self)
        ensures
            final(self).raw@ == Seq::new(120, |k: int| 0u8),
            final(self).id == old(self).id,
            final(self).block == old(self).block,
            final(self).offset_in_block == old(self).offset_in_block,
            final(self).need_flush == old(self).need_flush,
    {
        self.raw = vec![0u8; 120];
    }

    pub fn get_type(&self) -> (t: InodeType)
        requires
            self.wf(),
        ensures
            t == mode_type(self.spec_mode()),
    {
        let file_type = read_u16_le(self.raw.as_slice(), 0) & 0xF000;
        if file_type == 0x1000 {
            InodeType::FIFO
        } else if file_type == 0x2000 {
            InodeType::CharacterDevice
        } else if file_type == 0x4000 {
            InodeType::Directory
        } else if file_type == 0x6000 {
            InodeType::BlockDevice
        } else if file_type == 0x8000 {
            InodeType::RegularFile
        } else if file_type == 0xA000 {
            InodeType::SymbolicLink
        } else if file_type == 0xC000 {
            InodeType::Socket
        } else {
            InodeType::Unknown
        }
    }

    /// The permission bits (low twelve bits of the mode).
    pub fn get_permissions(&self) -> (p: u16)
        requires
            self.wf(),
        ensures
            p == self.spec_mode() & 0x0FFF,
    {
        read_u16_le(self.raw.as_slice(), 0) & 0x0FFF
    }

    pub fn has_flag(&self, flag: InodeFlags) -> (b: bool)
        requires
            self.wf(),
        ensures
            b == (self.spec_flags() & flag_bit(flag) != 0),
    {
        (read_u32_le(self.raw.as_slice(), 32) & flag.value()) != 0
    }

    /// Direct block pointer `index`; there are twelve.
    pub fn get_direct_block(&self, index: usize) -> (b: u32)
        requires
            self.wf(),
            index < 12,
        ensures
            b == self.spec_direct(index as int),
    {
        read_u32_le(self.raw.as_slice(), 40 + 4 * index)
    }

    /// The twelve direct block pointers.
    pub fn get_direct_blocks(&self) -> (v: Vec<u32>)
        requires
            self.wf(),
        ensures
            v@.len() == 12,
            forall|i: int| 0 <= i < 12 ==> v@[i] == #[trigger] self.spec_direct(i),
    {
        let mut v: Vec<u32> = Vec::new();
        let mut i: usize = 0;
        while i < 12
            invariant
                self.wf(),
                0 <= i <= 12,
                v@.len() == i,
                forall|j: int| 0 <= j < i ==> v@[j] == #[trigger] self.spec_direct(j),
            decreases 12 - i,
        {
            v.push(read_u32_le(self.raw.as_slice(), 40 + 4 * i));
            i = i + 1;
        }
        v
    }

    pub fn get_indirect_block(&self) -> (b: u32)
        requires
            self.wf(),
        ensures
            b == self.spec_indirect(),
    {
        read_u32_le(self.raw.as_slice(), 88)
    }

    pub fn get_doubly_indirect_block(&self) -> (b: u32)
        requires
            self.wf(),
        ensures
            b == self.spec_dindirect(),
    {
        read_u32_le(self.raw.as_slice(), 92)
    }

    pub fn get_triply_indirect_block(&self) -> (b: u32)
        requires
            self.wf(),
        ensures
            b == self.spec_tindirect(),
    {
        read_u32_le(self.raw.as_slice(), 96)
    }

    pub fn get_size(&self) -> (s: usize)
        requires
            self.wf(),
        ensures
            s == self.spec_size(),
    {
        read_u32_le(self.raw.as_slice(), 4) as usize
    }

    /// Sets the size field to the low 32 bits of `size`.
    pub fn set_size(&mut self, size: usize)
        requires
            old(self).wf(),
        ensures
            final(self).wf(),
            final(self).raw@ == splice(old(self).raw@, 4, u32_le_bytes(size as u32)),
            final(self).spec_size() == size as u32,
            final(self).id == old(self).id,
            final(self).block == old(self).block,
            final(self).offset_in_block == old(self).offset_in_block,
            final(self).need_flush == old(self).need_flush,
    {
        proof {
            lemma_read_after_write_u32(self.raw@, 4, size as u32);
        }
        write_u32_le(&mut self.raw, 4, size as u32);
    }

    /// Sets the count of 512-byte sectors the inode owns.
    pub fn set_block_count(&mut self, count: u32)
        requires
            old(self).wf(),
        ensures
            final(self).wf(),
            final(self).raw@ == splice(old(self).raw@, 28, u32_le_bytes(count)),
            final(self).spec_sectors() == count,
            final(self).id == old(self).id,
            final(self).block == old(self).block,
            final(self).offset_in_block == old(self).offset_in_block,
            final(self).need_flush == old(self).need_flush,
    {
        proof {
            lemma_read_after_write_u32(self.raw@, 28, count);
        }
        write_u32_le(&mut self.raw, 28, count);
    }

    pub fn get_block_count(&self) -> (n: u32)
        requires
            self.wf(),
        ensures
            n == self.spec_sectors(),
    {
        read_u32_le(self.raw.as_slice(), 28)
    }

    pub fn inc_hard_links_count(&mut self)
        requires
            old(self).wf(),
            old(self).spec_links() < u16::MAX,
        ensures
            final(self).wf(),
            final(self).raw@ == splice(
                old(self).raw@,
                26,
                u16_le_bytes((old(self).spec_links() + 1) as u16),
            ),
            final(self).spec_links() == old(self).spec_links() + 1,
            final(self).id == old(self).id,
            final(self).block == old(self).block,
            final(self).offset_in_block == old(self).offset_in_block,
            final(self).need_flush == old(self).need_flush,
    {
        let links = read_u16_le(self.raw.as_slice(), 26);
        proof {
            lemma_read_after_write_u16(self.raw@, 26, (links + 1) as u16);
        }
        write_u16_le(&mut self.raw, 26, links + 1);
    }
}


/// The block group of inode `id`.
pub open spec fn inode_group(s: VolumeState, id: int) -> int {
    (id - 1) / (s.inodes_per_group() as int)
}

/// Offset of inode `id` from the start of its group's inode table.
pub open spec fn inode_byte_offset(s: VolumeState, id: int) -> int {
    ((id - 1) % (s.inodes_per_group() as int)) * (s.inode_size() as int)
}

/// The block that holds inode `id`.
pub open spec fn inode_block(s: VolumeState, id: int) -> int {
    s.inode_table(inode_group(s, id)) + inode_byte_offset(s, id) / s.block_size()
}

/// The offset of inode `id` inside that block.
pub open spec fn inode_offset(s: VolumeState, id: int) -> int {
    inode_byte_offset(s, id) % s.block_size()
}

/// Inode `id` can be loaded: 0 is the null inode; any other lies in a group
/// of the table, in a block that can be read, inside the 1 KiB read, and
/// the inode records are at least as large as the fields read from them.
pub open spec fn loadable(s: VolumeState, id: int) -> bool {
    id == 0 || {
        &&& 1 <= id
        &&& inode_group(s, id) < s.group_count()
        &&& inode_byte_offset(s, id) <= usize::MAX
        &&& inode_block(s, id) <= usize::MAX
        &&& s.addressable(inode_block(s, id) as u32)
        &&& inode_offset(s, id) + (s.inode_size() as int) <= 1024
        &&& s.inode_size() >= 120
    }
}

/// The bytes of inode `id` as stored on disk.
pub open spec fn stored_inode(s: VolumeState, id: int) -> Seq<u8> {
    block_read(s.img, inode_block(s, id) as u32, s.block_size() as u32).subrange(
        inode_offset(s, id),
        inode_offset(s, id) + 120,
    )
}

impl Inode {
    /// The inode was loaded as inode `id` of the volume.
    pub open spec fn loaded_from(&self, s: VolumeState, id: int) -> bool {
        &&& self.wf()
        &&& self.id == id
        &&& id == 0 ==> self.raw@ == Seq::new(120, |k: int| 0u8) && self.block == 0
            && self.offset_in_block == 0
        &&& id != 0 ==> self.raw@ == stored_inode(s, id) && self.block == inode_block(s, id)
            && self.offset_in_block == inode_offset(s, id)
    }

    /// Loads inode `inode_id`; it is written back when released.
    pub fn from_id(vol: &Volume, inode_id: usize) -> (i: Self)
        requires
            vol.wf(),
            loadable(vol@, inode_id as int),
        ensures
            i.loaded_from(vol@, inode_id as int),
            i.need_flush == (inode_id != 0),
    {
        if inode_id == 0 {
            return Inode::null();
        }
        let ghost s = vol@;
        let inode_size = vol.superblock.get_inode_size();
        let block_size = vol.superblock.get_block_size();
        let inodes_per_group = vol.superblock.get_inodes_per_group();
        let block_group = (inode_id - 1) / inodes_per_group;
        let index = (inode_id - 1) % inodes_per_group;
        let d = vol.bgdt.get_block_group_descriptor(block_group);
        assert(d.raw@ == s.groups[block_group as int]);
        let inode_table_start_block = d.get_inode_table_start_address();
        let byte_offset = index * inode_size;
        let containing_block = byte_offset / block_size;
        let offset_in_block = byte_offset % block_size;
        let inode_table_offset = inode_table_start_block + containing_block;
        let data = read_1kb_block(&vol.disk, inode_table_offset as u32, block_size as u32);
        let ndata = slice_range(data.as_slice(), offset_in_block, offset_in_block + inode_size);
        let mut raw: Vec<u8> = Vec::new();
        raw.extend_from_slice(slice_range(ndata, 0, 120));
        assert(raw@ =~= stored_inode(s, inode_id as int));
        Inode {
            raw,
            id: inode_id,
            block: inode_table_offset,
            offset_in_block,
            need_flush: true,
        }
    }

    /// Loads inode `inode_id` for reading only: it is not written back.
    pub fn from_id_no_flush(vol: &Volume, inode_id: usize) -> (i: Self)
        requires
            vol.wf(),
            loadable(vol@, inode_id as int),
        ensures
            i.loaded_from(vol@, inode_id as int),
            !i.need_flush,
    {
        let mut temp = Inode::from_id(vol, inode_id);
        temp.need_flush = false;
        temp
    }

    /// Writes the inode back into its block.
    pub fn flush(&self, vol: &mut Volume)
        requires
            self.wf(),
            old(vol).wf(),
            self@.placed(old(vol)@),
        ensures
            final(vol).wf(),
            final(vol)@ == (VolumeState { img: self@.flushed(old(vol)@), ..old(vol)@ }),
            final(vol).bgdt == old(vol).bgdt,
            final(vol).superblock == old(vol).superblock,
    {
        let ghost s = vol@;
        let block_size = vol.superblock.get_block_size();
        proof {
            lemma_block_size_range(s);
        }
        let ghost data0 = block_read(s.img, self.block as u32, block_size as u32);
        let mut disk_data = read_1kb_block(&vol.disk, self.block as u32, block_size as u32);
        let mut write_flag = false;
        let off = self.offset_in_block;
        let mut i: usize = 0;
        while i < 120
            invariant
                self.wf(),
                off == self.offset_in_block,
                off + 120 <= 1024,
                data0.len() == 1024,
                disk_data@.len() == 1024,
                0 <= i <= 120,
                forall|j: int| 0 <= j < off ==> disk_data@[j] == data0[j],
                forall|j: int| off + 120 <= j < 1024 ==> disk_data@[j] == data0[j],
                forall|j: int| 0 <= j < i ==> disk_data@[off + j] == #[trigger] self.raw@[j],
                forall|j: int| off + i <= j < off + 120 ==> disk_data@[j] == data0[j],
                write_flag <==> exists|j: int| 0 <= j < i && #[trigger] self.raw@[j] != data0[off + j],
            decreases 120 - i,
        {
            if self.raw[i] != disk_data[off + i] {
                disk_data.set(off + i, self.raw[i]);
                write_flag = true;
            }
            i = i + 1;
        }
        let ghost updated = splice(data0, off as int, self.raw@);
        assert(disk_data@ =~= updated);
        if write_flag {
            proof {
                let j = choose|j: int| 0 <= j < 120 && #[trigger] self.raw@[j] != data0[off + j];
                assert(updated[off + j] != data0[off + j]);
            }
            assert(self.block as u32 == self.block);
            assert(block_size as u32 == block_size);
            let current_block = (self.block * block_size) / 512;
            assert(current_block == first_sector(self.block as u32, block_size as u32));
            let _ = vol.disk.write(current_block as u32, slice_range(disk_data.as_slice(), 0, 512));
            let _ = vol.disk.write(
                (current_block + 1) as u32,
                slice_range(disk_data.as_slice(), 512, 1024),
            );
        } else {
            assert(updated =~= data0);
        }
        proof {
            assert forall|g2: int| 0 <= g2 < vol@.group_count() implies {
                &&& vol@.addressable(#[trigger] vol@.block_bitmap(g2))
                &&& vol@.addressable(vol@.inode_bitmap(g2))
            } by {
                assert(s.addressable(s.block_bitmap(g2)));
            }
        }
    }
}

/// Loading an inode after writing it back gives the bytes written: the
/// inode read from disk after `flush` is the inode flushed.
pub proof fn law_flush_then_load(inode: &Inode, s: VolumeState, id: int)
    requires
        inode.wf(),
        inode@.placed(s),
        id != 0,
        inode.block == inode_block(s, id),
        inode.offset_in_block == inode_offset(s, id),
    ensures
        stored_inode(VolumeState { img: inode@.flushed(s), ..s }, id) == inode.raw@,
{
    let bs = s.block_size() as u32;
    let b = inode.block as u32;
    let off = inode.offset_in_block as int;
    let data = block_read(s.img, b, bs);
    let updated = splice(data, off, inode.raw@);
    assert(data.len() == 1024);
    crate::bytes::lemma_splice_frame(data, off, inode.raw@);
    if updated != data {
        crate::fs::ext2::disk::law_block_read_after_write(s.img, b, bs, updated);
    }
    let s2 = VolumeState { img: inode@.flushed(s), ..s };
    assert(block_read(s2.img, b, bs) == updated);
    assert(updated.subrange(off, off + 120) =~= inode.raw@);
}

} // verus!
