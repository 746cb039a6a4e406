//! The blocks an inode owns: counting them, freeing them when the last hard
//! link goes, and allocating a new one.
//!
//! Indirect blocks hold 256 little-endian block numbers; a zero entry is an
//! empty slot.
use vstd::prelude::*;
use crate::bytes::{le_u16, le_u32, lemma_read_after_write_u16, read_u16_le, read_u32_le, splice, u16_le_bytes, write_u16_le};
use super::bitmap::{can_mark, marked, mark_block_as_free, mark_inode_as_free};
use super::disk::{block_addressable, block_read, block_write, read_1kb_block, write_1kb_block, lemma_block_write_len, sector_exists, Disk};
use super::inode::{Inode, InodeView};
use super::superblock::superblock_flushed;
use super::bgdt::{table_flushed, groups_flushed};
use crate::bytes::u32_le_bytes;
use super::volume::{Volume, VolumeState, lemma_block_size_range, same_geometry, lemma_same_geometry_refl, lemma_same_geometry_trans, lemma_same_geometry_facts};

verus! {

/// Entry `i` of an indirect block.
pub open spec fn word(data: Seq<u8>, i: int) -> u32 {
    le_u32(data, 4 * i)
}

/// How many of the first `n` entries of `data` are not zero.
pub open spec fn nonzero_words(data: Seq<u8>, n: int) -> nat
    decreases n,
{
    if n <= 0 {
        0
    } else {
        nonzero_words(data, n - 1) + if word(data, n - 1) != 0 {
            1nat
        } else {
            0nat
        }
    }
}

/// Blocks listed in the indirect block `b` (read as a 1 KiB block).
pub open spec fn ind_count(img: Seq<u8>, b: u32) -> nat {
    nonzero_words(block_read(img, b, 1024), 256)
}

/// Over the first `n` entries of a doubly indirect block: each listed
/// block and the blocks it lists.
pub open spec fn dind_sum(img: Seq<u8>, data: Seq<u8>, n: int) -> nat
    decreases n,
{
    if n <= 0 {
        0
    } else {
        dind_sum(img, data, n - 1) + if word(data, n - 1) != 0 {
            1 + ind_count(img, word(data, n - 1))
        } else {
            0nat
        }
    }
}

/// Blocks under the doubly indirect block `b`.
pub open spec fn dind_count(img: Seq<u8>, b: u32) -> nat {
    dind_sum(img, block_read(img, b, 1024), 256)
}

/// Over the first `n` entries of a triply indirect block.
pub open spec fn tind_sum(img: Seq<u8>, data: Seq<u8>, n: int) -> nat
    decreases n,
{
    if n <= 0 {
        0
    } else {
        tind_sum(img, data, n - 1) + if word(data, n - 1) != 0 {
            1 + dind_count(img, word(data, n - 1))
        } else {
            0nat
        }
    }
}

/// Blocks under the triply indirect block `b`.
pub open spec fn tind_count(img: Seq<u8>, b: u32) -> nat {
    tind_sum(img, block_read(img, b, 1024), 256)
}

/// Every block number met under the doubly indirect block `b` can be read
/// as a 1 KiB block.
pub open spec fn dind_readable(img: Seq<u8>, b: u32) -> bool {
    &&& block_addressable(b, 1024)
    &&& forall|i: int|
        0 <= i < 256 && #[trigger] word(block_read(img, b, 1024), i) != 0 ==> block_addressable(
            word(block_read(img, b, 1024), i),
            1024,
        )
}

/// Every block number met under the triply indirect block `b` can be read.
pub open spec fn tind_readable(img: Seq<u8>, b: u32) -> bool {
    &&& block_addressable(b, 1024)
    &&& forall|i: int|
        0 <= i < 256 && #[trigger] word(block_read(img, b, 1024), i) != 0 ==> dind_readable(
            img,
            word(block_read(img, b, 1024), i),
        )
}

proof fn lemma_nonzero_words_bound(data: Seq<u8>, n: int)
    requires
        0 <= n,
    ensures
        nonzero_words(data, n) <= n,
    decreases n,
{
    if n > 0 {
        lemma_nonzero_words_bound(data, n - 1);
    }
}

proof fn lemma_dind_sum_bound(img: Seq<u8>, data: Seq<u8>, n: int)
    requires
        0 <= n,
    ensures
        dind_sum(img, data, n) <= 257 * n,
    decreases n,
{
    if n > 0 {
        lemma_dind_sum_bound(img, data, n - 1);
        let w = word(data, n - 1);
        lemma_nonzero_words_bound(block_read(img, w, 1024), 256);
        assert(ind_count(img, w) <= 256);
    }
}

proof fn lemma_tind_sum_bound(img: Seq<u8>, data: Seq<u8>, n: int)
    requires
        0 <= n,
    ensures
        tind_sum(img, data, n) <= 65793 * n,
    decreases n,
{
    if n > 0 {
        lemma_tind_sum_bound(img, data, n - 1);
        let w = word(data, n - 1);
        lemma_dind_sum_bound(img, block_read(img, w, 1024), 256);
        assert(dind_count(img, w) <= 257 * 256);
        assert(tind_sum(img, data, n) <= tind_sum(img, data, n - 1) + 65793);
    }
}

/// Reads entry `i` of a 1 KiB indirect block.
fn read_word(data: &Vec<u8>, i: usize) -> (w: u32)
    requires
        data@.len() == 1024,
        i < 256,
    ensures
        w == word(data@, i as int),
{
    read_u32_le(data.as_slice(), i * 4)
}

/// Counts the blocks listed in the indirect block `block`.
fn count_ind(disk: &Disk, block: u32) -> (c: u32)
    requires
        block_addressable(block, 1024),
    ensures
        c == ind_count(disk@, block),
{
    let data = read_1kb_block(disk, block, 1024);
    let mut count: u32 = 0;
    let mut i: usize = 0;
    while i < 256
        invariant
            data@ == block_read(disk@, block, 1024),
            data@.len() == 1024,
            0 <= i <= 256,
            count == nonzero_words(data@, i as int),
        decreases 256 - i,
    {
        proof {
            lemma_nonzero_words_bound(data@, i as int);
        }
        if read_word(&data, i) != 0 {
            count = count + 1;
        }
        i = i + 1;
    }
    count
}

/// Counts the blocks under the doubly indirect block `block`.
fn count_dind(disk: &Disk, block: u32) -> (c: u32)
    requires
        dind_readable(disk@, block),
    ensures
        c == dind_count(disk@, block),
{
    let data = read_1kb_block(disk, block, 1024);
    let mut count: u32 = 0;
    let mut i: usize = 0;
    while i < 256
        invariant
            dind_readable(disk@, block),
            data@ == block_read(disk@, block, 1024),
            data@.len() == 1024,
            0 <= i <= 256,
            count == dind_sum(disk@, data@, i as int),
        decreases 256 - i,
    {
        proof {
            lemma_dind_sum_bound(disk@, data@, i as int);
        }
        let w = read_word(&data, i);
        if w != 0 {
            let c = count_ind(disk, w);
            proof {
                lemma_nonzero_words_bound(block_read(disk@, w, 1024), 256);
            }
            count = count + 1 + c;
        }
        i = i + 1;
    }
    count
}

/// Counts the blocks under the triply indirect block `block`.
fn count_tind(disk: &Disk, block: u32) -> (c: u32)
    requires
        tind_readable(disk@, block),
    ensures
        c == tind_count(disk@, block),
{
    let data = read_1kb_block(disk, block, 1024);
    let mut count: u32 = 0;
    let mut i: usize = 0;
    while i < 256
        invariant
            tind_readable(disk@, block),
            data@ == block_read(disk@, block, 1024),
            data@.len() == 1024,
            0 <= i <= 256,
            count == tind_sum(disk@, data@, i as int),
        decreases 256 - i,
    {
        proof {
            lemma_tind_sum_bound(disk@, data@, i as int);
        }
        let w = read_word(&data, i);
        let ghost before = count;
        if w != 0 {
            assert(dind_readable(disk@, w));
            let c = count_dind(disk, w);
            proof {
                lemma_dind_sum_bound(disk@, block_read(disk@, w, 1024), 256);
                assert(c <= 257 * 256);
                assert(count <= 65793 * 255);
            }
            count = count + 1 + c;
        }
        assert(count == tind_sum(disk@, data@, i + 1));
        i = i + 1;
    }
    count
}

/// Direct pointers among the first `n` that are set.
pub open spec fn direct_count(inode: InodeView, n: int) -> nat
    decreases n,
{
    if n <= 0 {
        0
    } else {
        direct_count(inode, n - 1) + if inode.spec_direct(n - 1) != 0 {
            1nat
        } else {
            0nat
        }
    }
}

impl InodeView {
    /// The pointer trees of the inode can be walked: every block number met
    /// can be read as a 1 KiB block.
    pub open spec fn trees_readable(&self, img: Seq<u8>) -> bool {
        &&& self.spec_indirect() != 0 ==> block_addressable(self.spec_indirect(), 1024)
        &&& self.spec_dindirect() != 0 ==> block_addressable(self.spec_dindirect(), 1024)
        &&& self.spec_tindirect() != 0 ==> tind_readable(img, self.spec_tindirect())
    }

    /// The count of blocks the inode owns, as counted when it is released:
    /// set direct pointers, the indirect block and what it lists, the doubly
    /// indirect block and the entries of its first level, and the triply
    /// indirect block with everything under it.
    pub open spec fn owned_blocks(&self, img: Seq<u8>) -> nat {
        direct_count(*self, 12) + (if self.spec_indirect() != 0 {
            1 + ind_count(img, self.spec_indirect())
        } else {
            0nat
        }) + (if self.spec_dindirect() != 0 {
            1 + ind_count(img, self.spec_dindirect())
        } else {
            0nat
        }) + (if self.spec_tindirect() != 0 {
            1 + tind_count(img, self.spec_tindirect())
        } else {
            0nat
        })
    }

}

impl Inode {
    /// Counts the blocks the inode owns.
    pub fn count_blocks(&self, disk: &Disk) -> (c: u32)
        requires
            self.wf(),
            self@.trees_readable(disk@),
        ensures
            c == self@.owned_blocks(disk@),
    {
        let mut count: u32 = 0;
        let mut i: usize = 0;
        while i < 12
            invariant
                self.wf(),
                0 <= i <= 12,
                count == direct_count(self@, i as int),
                count <= i,
            decreases 12 - i,
        {
            if self.get_direct_block(i) != 0 {
                count = count + 1;
            }
            i = i + 1;
        }
        let block = self.get_indirect_block();
        if block != 0 {
            let c = count_ind(disk, block);
            proof {
                lemma_nonzero_words_bound(block_read(disk@, block, 1024), 256);
            }
            count = count + 1 + c;
        }
        let block = self.get_doubly_indirect_block();
        if block != 0 {
            let c = count_ind(disk, block);
            proof {
                lemma_nonzero_words_bound(block_read(disk@, block, 1024), 256);
            }
            count = count + 1 + c;
        }
        let block = self.get_triply_indirect_block();
        if block != 0 {
            let c = count_tind(disk, block);
            proof {
                lemma_tind_sum_bound(disk@, block_read(disk@, block, 1024), 256);
            }
            count = count + 1 + c;
        }
        count
    }
}


/// A block of zeros.
pub open spec fn zero_block() -> Seq<u8> {
    Seq::new(1024, |i: int| 0u8)
}

/// The volume with block `b` overwritten by zeros.
pub open spec fn wiped(s: VolumeState, b: u32) -> VolumeState {
    VolumeState { img: block_write(s.img, b, s.block_size() as u32, zero_block()), ..s }
}

/// The volume after the tree under block `b` is freed: `level` 0 is a data
/// block, 1 an indirect, 2 a doubly and 3 a triply indirect block.  Every
/// listed block is freed first, in order; then `b` is zeroed and marked
/// free.  Block number 0 is an empty slot and frees nothing.
pub open spec fn free_tree(s: VolumeState, b: u32, level: nat) -> VolumeState
    decreases level, 0int, 0int,
{
    if b == 0 {
        s
    } else if level == 0 {
        marked(wiped(s, b), b as int, false, false)
    } else {
        let data = block_read(s.img, b, s.block_size() as u32);
        let s1 = free_each(s, data, 256, (level - 1) as nat);
        marked(wiped(s1, b), b as int, false, false)
    }
}

/// The volume after the trees under the first `n` entries of `data` are
/// freed, in order.
pub open spec fn free_each(s: VolumeState, data: Seq<u8>, n: int, level: nat) -> VolumeState
    decreases level, 1int, n,
{
    if n <= 0 {
        s
    } else {
        free_tree(free_each(s, data, n - 1, level), word(data, n - 1), level)
    }
}

/// Freeing the tree under `b` meets no fault: each block met can be read
/// and written, and each can be marked free.
pub open spec fn can_free_tree(s: VolumeState, b: u32, level: nat) -> bool
    decreases level, 0int, 0int,
{
    if b == 0 {
        true
    } else if level == 0 {
        s.addressable(b) && can_mark(wiped(s, b), b as int, false, false)
    } else {
        let data = block_read(s.img, b, s.block_size() as u32);
        &&& s.addressable(b)
        &&& can_free_each(s, data, 256, (level - 1) as nat)
        &&& can_mark(
            wiped(free_each(s, data, 256, (level - 1) as nat), b),
            b as int,
            false,
            false,
        )
    }
}

/// Freeing the trees under the first `n` entries of `data` meets no fault.
pub open spec fn can_free_each(s: VolumeState, data: Seq<u8>, n: int, level: nat) -> bool
    decreases level, 1int, n,
{
    if n <= 0 {
        true
    } else {
        can_free_each(s, data, n - 1, level) && can_free_tree(
            free_each(s, data, n - 1, level),
            word(data, n - 1),
            level,
        )
    }
}

proof fn lemma_can_free_each_prefix(s: VolumeState, data: Seq<u8>, n: int, m: int, level: nat)
    requires
        0 <= m <= n,
        can_free_each(s, data, n, level),
    ensures
        can_free_each(s, data, m, level),
    decreases n,
{
    if m < n {
        lemma_can_free_each_prefix(s, data, n - 1, m, level);
    }
}

/// Freeing keeps the geometry, the group table's size and every group's
/// bitmap block numbers.
pub open spec fn same_layout(a: VolumeState, b: VolumeState) -> bool {
    &&& a.sb.len() == b.sb.len()
    &&& a.log_block_size() == b.log_block_size()
    &&& a.blocks_per_group() == b.blocks_per_group()
    &&& a.inodes_per_group() == b.inodes_per_group()
    &&& a.groups.len() == b.groups.len()
    &&& a.img.len() == b.img.len()
}

/// Frees the tree under `block`.
fn dealloc(vol: &mut Volume, block: u32, level: u32)
    requires
        old(vol).wf(),
        level <= 3,
        can_free_tree(old(vol)@, block, level as nat),
    ensures
        final(vol).wf(),
        final(vol)@ == free_tree(old(vol)@, block, level as nat),
        same_geometry(old(vol)@, final(vol)@),
    decreases level,
{
    let ghost s0 = vol@;
    proof {
        lemma_same_geometry_refl(s0);
    }
    if block == 0 {
        return;
    }
    let bs = vol.superblock.get_block_size();
    if level > 0 {
        let data = read_1kb_block(&vol.disk, block, bs as u32);
        let mut i: usize = 0;
        while i < 256
            invariant
                vol.wf(),
                level <= 3,
                0 < level,
                data@ == block_read(s0.img, block, s0.block_size() as u32),
                data@.len() == 1024,
                0 <= i <= 256,
                can_free_each(s0, data@, 256, (level - 1) as nat),
                vol@ == free_each(s0, data@, i as int, (level - 1) as nat),
                bs == s0.block_size(),
                same_geometry(s0, vol@),
                s0.addressable(block),
            decreases 256 - i,
        {
            proof {
                lemma_can_free_each_prefix(s0, data@, 256, i + 1, (level - 1) as nat);
            }
            let w = read_word(&data, i);
            let ghost mid = vol@;
            dealloc(vol, w, level - 1);
            proof {
                lemma_same_geometry_trans(s0, mid, vol@);
            }
            i = i + 1;
        }
    }
    let ghost pre = vol@;
    let zeros: Vec<u8> = vec![0u8; 1024];
    assert(zeros@ =~= zero_block());
    write_1kb_block(&mut vol.disk, block, bs as u32, zeros.as_slice(), 1024);
    proof {
        lemma_block_write_len(pre.img, block, bs as u32, zeros@);
        lemma_same_geometry_facts(s0, pre);
        assert(vol@ == wiped(pre, block));
        reveal(same_geometry);
        lemma_same_geometry_trans(s0, pre, vol@);
        assert forall|g2: int| 0 <= g2 < vol@.group_count() implies {
            &&& vol@.addressable(#[trigger] vol@.block_bitmap(g2))
            &&& vol@.addressable(vol@.inode_bitmap(g2))
        } by {
            assert(pre.addressable(pre.block_bitmap(g2)));
        }
        assert(vol.superblock.wf());
        assert(vol.bgdt.wf());
        assert(vol@.sb == pre.sb);
        assert(vol.wf());
    }
    let ghost w = vol@;
    mark_block_as_free(vol, block as usize);
    proof {
        lemma_same_geometry_trans(s0, w, vol@);
    }
}

/// The volume after the direct blocks among the first `n` are freed.
pub open spec fn free_direct(s: VolumeState, inode: InodeView, n: int) -> VolumeState
    decreases n,
{
    if n <= 0 {
        s
    } else {
        free_tree(free_direct(s, inode, n - 1), inode.spec_direct(n - 1), 0)
    }
}

/// Freeing the first `n` direct blocks meets no fault.
pub open spec fn can_free_direct(s: VolumeState, inode: InodeView, n: int) -> bool
    decreases n,
{
    if n <= 0 {
        true
    } else {
        can_free_direct(s, inode, n - 1) && can_free_tree(
            free_direct(s, inode, n - 1),
            inode.spec_direct(n - 1),
            0,
        )
    }
}

proof fn lemma_can_free_direct_prefix(s: VolumeState, inode: InodeView, n: int, m: int)
    requires
        0 <= m <= n,
        can_free_direct(s, inode, n),
    ensures
        can_free_direct(s, inode, m),
    decreases n,
{
    if m < n {
        lemma_can_free_direct_prefix(s, inode, n - 1, m);
    }
}

/// The volume after the last hard link of `inode` goes: its triply, doubly
/// and singly indirect trees and then its direct blocks are freed, and its
/// inode is marked free.
pub open spec fn released(s: VolumeState, inode: InodeView) -> VolumeState {
    let s1 = free_tree(s, inode.spec_tindirect(), 3);
    let s2 = free_tree(s1, inode.spec_dindirect(), 2);
    let s3 = free_tree(s2, inode.spec_indirect(), 1);
    let s4 = free_direct(s3, inode, 12);
    marked(s4, inode.id, true, false)
}

/// Releasing `inode` meets no fault.
pub open spec fn can_release(s: VolumeState, inode: InodeView) -> bool {
    let s1 = free_tree(s, inode.spec_tindirect(), 3);
    let s2 = free_tree(s1, inode.spec_dindirect(), 2);
    let s3 = free_tree(s2, inode.spec_indirect(), 1);
    let s4 = free_direct(s3, inode, 12);
    &&& can_free_tree(s, inode.spec_tindirect(), 3)
    &&& can_free_tree(s1, inode.spec_dindirect(), 2)
    &&& can_free_tree(s2, inode.spec_indirect(), 1)
    &&& can_free_direct(s3, inode, 12)
    &&& can_mark(s4, inode.id, true, false)
}

/// Frees every block `inode` owns and marks the inode free.
fn release_blocks(vol: &mut Volume, inode: &Inode)
    requires
        inode.wf(),
        old(vol).wf(),
        can_release(old(vol)@, inode@),
    ensures
        final(vol).wf(),
        final(vol)@ == released(old(vol)@, inode@),
        same_geometry(old(vol)@, final(vol)@),
{
    let ghost s0 = vol@;
    dealloc(vol, inode.get_triply_indirect_block(), 3);
    let ghost s1 = vol@;
    dealloc(vol, inode.get_doubly_indirect_block(), 2);
    let ghost s2 = vol@;
    dealloc(vol, inode.get_indirect_block(), 1);
    let direct = inode.get_direct_blocks();
    assert forall|j: int| 0 <= j < 12 implies direct@[j] == #[trigger] inode@.spec_direct(j) by {
        assert(direct@[j] == inode.spec_direct(j));
    }
    let ghost s3 = vol@;
    proof {
        lemma_same_geometry_trans(s0, s1, s2);
        lemma_same_geometry_trans(s0, s2, s3);
    }
    let mut i: usize = 0;
    while i < 12
        invariant
            vol.wf(),
            0 <= i <= 12,
            direct@.len() == 12,
            forall|j: int| 0 <= j < 12 ==> direct@[j] == #[trigger] inode@.spec_direct(j),
            can_free_direct(s3, inode@, 12),
            vol@ == free_direct(s3, inode@, i as int),
            same_geometry(old(vol)@, vol@),
        decreases 12 - i,
    {
        proof {
            lemma_can_free_direct_prefix(s3, inode@, 12, i + 1);
        }
        let ghost mid = vol@;
        dealloc(vol, direct[i], 0);
        proof {
            lemma_same_geometry_trans(old(vol)@, mid, vol@);
        }
        i = i + 1;
    }
    let ghost s4 = vol@;
    mark_inode_as_free(vol, inode.id);
    proof {
        lemma_same_geometry_trans(old(vol)@, s4, vol@);
    }
}

impl Inode {
    /// Drops one hard link; when the last goes, every block the inode owns
    /// is freed, the inode is marked free and its fields are zeroed.
    pub fn dec_hard_links_count(&mut self, vol: &mut Volume)
        requires
            old(self).wf(),
            old(vol).wf(),
            old(self).spec_links() == 1 ==> can_release(old(vol)@, old(self)@),
        ensures
            final(self).wf(),
            final(vol).wf(),
            same_geometry(old(vol)@, final(vol)@),
            final(self).id == old(self).id,
            final(self).block == old(self).block,
            final(self).offset_in_block == old(self).offset_in_block,
            final(self).need_flush == old(self).need_flush,
            old(self).spec_links() == 0 ==> final(self).raw@ == old(self).raw@ && final(vol)@
                == old(vol)@,
            old(self).spec_links() > 1 ==> final(self).raw@ == splice(
                old(self).raw@,
                26,
                u16_le_bytes((old(self).spec_links() - 1) as u16),
            ) && final(vol)@ == old(vol)@,
            old(self).spec_links() == 1 ==> final(self).raw@ == Seq::new(120, |k: int| 0u8)
                && final(vol)@ == released(old(vol)@, old(self)@),
    {
        let links = read_u16_le(self.raw.as_slice(), 26);
        proof {
            lemma_same_geometry_refl(vol@);
        }
        if links == 0 {
            return;
        }
        if links == 1 {
            release_blocks(vol, self);
            self.clear();
            return;
        }
        proof {
            lemma_read_after_write_u16(self.raw@, 26, (links - 1) as u16);
        }
        write_u16_le(&mut self.raw, 26, links - 1);
    }
}


/// The volume after `inode` is released: when it is to be written back,
/// the inode with its refreshed sector count, the superblock and the
/// descriptor table are written to disk.
pub open spec fn written_back(s: VolumeState, inode: InodeView) -> VolumeState {
    if !inode.need_flush {
        s
    } else {
        let refreshed = InodeView {
            raw: splice(inode.raw, 28, u32_le_bytes(inode.refreshed_sectors(s))),
            ..inode
        };
        VolumeState {
            img: groups_flushed(superblock_flushed(refreshed.flushed(s), s.sb), s.groups),
            ..s
        }
    }
}

impl InodeView {
    /// The sector count recorded when the inode is released: the blocks it
    /// owns in 512-byte sectors.
    pub open spec fn refreshed_sectors(&self, s: VolumeState) -> u32 {
        ((self.owned_blocks(s.img) * s.block_size()) / 512) as u32
    }

    /// Releasing the inode meets no fault: its pointer trees can be walked,
    /// the sector count fits, and the inode, the superblock and the
    /// descriptor table can be written back.
    pub open spec fn can_write_back(&self, s: VolumeState) -> bool {
        &&& self.trees_readable(s.img)
        &&& self.owned_blocks(s.img) * s.block_size() <= u32::MAX
        &&& self.placed(s)
        &&& sector_exists(s.img.len() as int, 5)
    }
}

impl Inode {
    /// What releasing a loaded inode does: when it is to be written back,
    /// its sector count is refreshed from the blocks it owns and the inode,
    /// the superblock and the block group descriptor table are written to
    /// disk.
    pub fn release(&mut self, vol: &mut Volume)
        requires
            old(self).wf(),
            old(vol).wf(),
            old(self).need_flush ==> old(self)@.can_write_back(old(vol)@),
        ensures
            final(self).wf(),
            final(self).id == old(self).id,
            final(self).block == old(self).block,
            final(self).offset_in_block == old(self).offset_in_block,
            final(self).need_flush == old(self).need_flush,
            final(vol).wf(),
            same_geometry(old(vol)@, final(vol)@),
            !old(self).need_flush ==> final(self).raw@ == old(self).raw@ && final(vol)@ == old(vol)@,
            old(self).need_flush ==> final(self).raw@ == splice(
                old(self).raw@,
                28,
                u32_le_bytes(old(self)@.refreshed_sectors(old(vol)@)),
            ) && final(vol)@ == written_back(old(vol)@, old(self)@),
    {
        let ghost s0 = vol@;
        proof {
            lemma_same_geometry_refl(s0);
        }
        if !self.need_flush {
            return;
        }
        let block_size = vol.superblock.get_block_size() as u32;
        let count = self.count_blocks(&vol.disk);
        let blocks = count * block_size / 512;
        assert(count == old(self)@.owned_blocks(s0.img));
        assert(block_size == s0.block_size());
        assert(blocks == old(self)@.refreshed_sectors(s0));
        self.set_block_count(blocks);
        proof {
            crate::bytes::lemma_le_u32_outside(old(self).raw@, 28, u32_le_bytes(blocks), 88);
            crate::bytes::lemma_le_u32_outside(old(self).raw@, 28, u32_le_bytes(blocks), 92);
            crate::bytes::lemma_le_u32_outside(old(self).raw@, 28, u32_le_bytes(blocks), 96);
        }
        let ghost raw1 = self.raw@;
        self.flush(vol);
        let ghost s1 = vol@;
        proof {
            let bs = s0.block_size() as u32;
            let data = block_read(s0.img, self.block as u32, bs);
            crate::bytes::lemma_splice_frame(data, self.offset_in_block as int, self.raw@);
            lemma_block_write_len(s0.img, self.block as u32, bs, splice(data, self.offset_in_block as int, self.raw@));
            assert(s1.img.len() == s0.img.len());
        }
        vol.superblock.flush(&mut vol.disk);
        let ghost s2 = vol@;
        proof {
            crate::bytes::lemma_splice_frame(s1.img, 1024, s0.sb);
        }
        vol.bgdt.flush(&mut vol.disk);
        proof {
            super::bgdt::lemma_table_bytes_groups(vol.bgdt@);
            super::bgdt::lemma_table_disk_bytes_len(vol.bgdt@);
            crate::bytes::lemma_splice_frame(s2.img, 2048, super::bgdt::table_disk_bytes(vol.bgdt@));
            reveal(same_geometry);
            assert forall|g2: int| 0 <= g2 < vol@.group_count() implies {
                &&& vol@.addressable(#[trigger] vol@.block_bitmap(g2))
                &&& vol@.addressable(vol@.inode_bitmap(g2))
            } by {
                assert(s0.addressable(s0.block_bitmap(g2)));
            }
        }
    }
}

} // verus!
