//! Block and inode bitmaps: finding a free entry and marking entries used or
//! free, with the free counts of the group and of the superblock kept in
//! step.
use vstd::prelude::*;
use crate::bytes::{splice, u16_le_bytes, u32_le_bytes, le_u16, le_u32, lemma_le_u32_outside, lemma_le_u16_outside, lemma_splice_frame, lemma_read_after_write_u16, lemma_read_after_write_u32, lemma_splice_twice, lemma_splice_same, lemma_u16_bytes_of, lemma_u32_bytes_of};
use super::disk::{block_read, block_write, read_1kb_block, write_1kb_block, lemma_block_write_len, first_sector, sector_exists, law_block_read_after_write, lemma_block_write_read, lemma_block_write_twice};
use super::volume::{Volume, VolumeState, same_geometry, lemma_same_geometry_trans};
use super::bgdt::BlockGroupDescriptor;

verus! {

/// Bit `j` of `byte` is clear.
pub open spec fn bit_clear(byte: u8, j: int) -> bool {
    byte & (1u8 << (j as u8)) == 0u8
}

/// Entry `k` of the bitmap `data` is free.
pub open spec fn bitmap_free(data: Seq<u8>, k: int) -> bool {
    0 <= k < 8 * data.len() && bit_clear(data[k / 8], k % 8)
}

/// No entry below `k` is free.
pub open spec fn full_below(data: Seq<u8>, k: int) -> bool {
    forall|k2: int| 0 <= k2 < k ==> !#[trigger] bitmap_free(data, k2)
}

/// `byte` with bit `j` set.
pub open spec fn with_bit_set(byte: u8, j: int) -> u8 {
    byte | (1u8 << (j as u8))
}

/// `byte` with bit `j` cleared.
pub open spec fn with_bit_cleared(byte: u8, j: int) -> u8 {
    byte & !(1u8 << (j as u8))
}

/// The 1 KiB of the block or inode bitmap of group `g`.
pub open spec fn group_map(s: VolumeState, g: int, inode_maps: bool) -> Seq<u8> {
    let b = if inode_maps {
        s.inode_bitmap(g)
    } else {
        s.block_bitmap(g)
    };
    block_read(s.img, b, s.block_size() as u32)
}

/// Groups are searched only while their descriptor counts free blocks (for
/// inodes as well as for blocks).
pub open spec fn searchable(s: VolumeState, g: int) -> bool {
    s.group_free_blocks(g) != 0
}

/// Entries per group.
pub open spec fn per_group(s: VolumeState, inode_maps: bool) -> u32 {
    if inode_maps {
        s.inodes_per_group()
    } else {
        s.blocks_per_group()
    }
}

/// Entry `k` of group `g` is the first free entry met by a search through
/// the groups in order.
pub open spec fn first_free_slot(s: VolumeState, inode_maps: bool, g: int, k: int) -> bool {
    &&& 0 <= g < s.group_count()
    &&& searchable(s, g)
    &&& bitmap_free(group_map(s, g, inode_maps), k)
    &&& full_below(group_map(s, g, inode_maps), k)
    &&& forall|g2: int|
        0 <= g2 < g && searchable(s, g2) ==> full_below(
            #[trigger] group_map(s, g2, inode_maps),
            8192,
        )
}

/// The number reported for entry `k` of group `g`.
pub open spec fn slot_number(s: VolumeState, inode_maps: bool, g: int, k: int) -> u32 {
    (k + g * per_group(s, inode_maps) + s.first_data_block()) as u32
}

/// What the search for a free block (or inode) finds.
#[verifier::opaque]
pub open spec fn first_free(s: VolumeState, inode_maps: bool) -> Option<u32> {
    if exists|g: int, k: int| first_free_slot(s, inode_maps, g, k) {
        let (g, k) = choose|g: int, k: int| first_free_slot(s, inode_maps, g, k);
        Some(slot_number(s, inode_maps, g, k))
    } else {
        None
    }
}

proof fn lemma_first_free_slot_unique(
    s: VolumeState,
    inode_maps: bool,
    g: int,
    k: int,
    g2: int,
    k2: int,
)
    requires
        first_free_slot(s, inode_maps, g, k),
        first_free_slot(s, inode_maps, g2, k2),
    ensures
        g == g2 && k == k2,
{
    let m = group_map(s, g, inode_maps);
    if g < g2 {
        assert(full_below(group_map(s, g, inode_maps), 8192));
        assert(!bitmap_free(m, k));
    } else if g2 < g {
        let m2 = group_map(s, g2, inode_maps);
        assert(full_below(m2, 8192));
        assert(!bitmap_free(m2, k2));
    } else {
        if k < k2 {
            assert(!bitmap_free(m, k));
        } else if k2 < k {
            assert(!bitmap_free(m, k2));
        }
    }
}

proof fn lemma_first_free_is(s: VolumeState, inode_maps: bool, g: int, k: int)
    requires
        first_free_slot(s, inode_maps, g, k),
    ensures
        first_free(s, inode_maps) == Some(slot_number(s, inode_maps, g, k)),
{
    reveal(first_free);
    let (g2, k2) = choose|g2: int, k2: int| first_free_slot(s, inode_maps, g2, k2);
    lemma_first_free_slot_unique(s, inode_maps, g, k, g2, k2);
}

/// The first free entry of a 1 KiB bitmap, scanning bytes in order and the
/// bits of a byte from the lowest.
fn first_free_bit(data: &Vec<u8>) -> (r: Option<usize>)
    requires
        data@.len() == 1024,
    ensures
        match r {
            Some(k) => k < 8192 && bitmap_free(data@, k as int) && full_below(data@, k as int),
            None => full_below(data@, 8192),
        },
{
    let mut i: usize = 0;
    while i < data.len()
        invariant
            data@.len() == 1024,
            0 <= i <= 1024,
            full_below(data@, 8 * i),
        decreases 1024 - i,
    {
        let byte = data[i];
        if byte == 0xFF {
            assert(forall|j: u8| j < 8 ==> 0xFFu8 & (1u8 << j) != 0u8) by (bit_vector);
            assert forall|k2: int| 0 <= k2 < 8 * (i + 1) implies !#[trigger] bitmap_free(
                data@,
                k2,
            ) by {
                if k2 >= 8 * i {
                    assert(k2 / 8 == i);
                    assert(0 <= k2 % 8 < 8);
                    let jj = (k2 % 8) as u8;
                    assert(0xFFu8 & (1u8 << jj) != 0u8);
                }
            }
            i = i + 1;
            continue;
        }
        let mut j: usize = 0;
        while j < 8
            invariant
                data@.len() == 1024,
                0 <= i < 1024,
                byte == data@[i as int],
                0 <= j <= 8,
                full_below(data@, 8 * i + j),
            decreases 8 - j,
        {
            let jj: u8 = j as u8;
            let control_bit: u8 = 1u8 << jj;
            if byte & control_bit == 0 {
                let k = i * 8 + j;
                assert((8 * i + j) / 8 == i && (8 * i + j) % 8 == j);
                return Some(k);
            }
            assert((8 * i + j) / 8 == i && (8 * i + j) % 8 == j);
            assert forall|k2: int| 0 <= k2 < 8 * i + j + 1 implies !#[trigger] bitmap_free(
                data@,
                k2,
            ) by {
                if k2 < 8 * i + j {
                    assert(full_below(data@, 8 * i + j));
                }
            }
            j = j + 1;
        }
        i = i + 1;
    }
    None
}

/// Searches the groups in order for a free block (or, with `inode_maps`,
/// a free inode) and reports its number.
fn find_first_free(vol: &Volume, inode_maps: bool) -> (r: Option<u32>)
    requires
        vol.wf(),
    ensures
        r == first_free(vol@, inode_maps),
{
    let per = if inode_maps {
        vol.superblock.get_inodes_per_group()
    } else {
        vol.superblock.get_blocks_per_group()
    };
    let first = vol.superblock.get_first_free_data_block() as usize;
    let bs = vol.superblock.get_block_size();
    let count = vol.bgdt.get_block_group_descriptor_count();
    let ghost s = vol@;
    let mut id: usize = 0;
    while id < count
        invariant
            vol.wf(),
            s == vol@,
            count == s.group_count(),
            count <= 32,
            per == per_group(s, inode_maps),
            first == s.first_data_block(),
            bs == s.block_size(),
            0 <= id <= count,
            forall|g2: int|
                0 <= g2 < id && searchable(s, g2) ==> full_below(
                    #[trigger] group_map(s, g2, inode_maps),
                    8192,
                ),
        decreases count - id,
    {
        let bg_desc = vol.bgdt.get_block_group_descriptor(id);
        assert(bg_desc.raw@ == s.groups[id as int]);
        if bg_desc.get_free_block_count() == 0 {
            id = id + 1;
            continue;
        }
        let block = if inode_maps {
            bg_desc.get_i_bitmap_block()
        } else {
            bg_desc.get_b_bitmap_block()
        };
        assert(s.addressable(s.block_bitmap(id as int)));
        let data = read_1kb_block(&vol.disk, block as u32, bs as u32);
        assert(data@ == group_map(s, id as int, inode_maps));
        match first_free_bit(&data) {
            Some(k) => {
                proof {
                    lemma_first_free_is(s, inode_maps, id as int, k as int);
                }
                assert((id as u64) * (per as u64) <= 32 * 0xFFFF_FFFFu64) by (nonlinear_arith)
                    requires
                        id < 32,
                        per <= 0xFFFF_FFFF,
                ;
                return Some(((k as u64) + (id as u64) * (per as u64) + (first as u64)) as u32);
            },
            None => {},
        }
        id = id + 1;
    }
    proof {
        reveal(first_free);
        if exists|g: int, k: int| first_free_slot(s, inode_maps, g, k) {
            let (g, k) = choose|g: int, k: int| first_free_slot(s, inode_maps, g, k);
            assert(full_below(group_map(s, g, inode_maps), 8192));
        }
    }
    None
}

/// Finds the first free block.
pub fn find_first_free_block(vol: &Volume) -> (r: Option<u32>)
    requires
        vol.wf(),
    ensures
        r == first_free(vol@, false),
{
    find_first_free(vol, false)
}

/// Finds the first free inode.
pub fn find_first_free_inode(vol: &Volume) -> (r: Option<u32>)
    requires
        vol.wf(),
    ensures
        r == first_free(vol@, true),
{
    find_first_free(vol, true)
}


/// The group of entry `n` (entries are counted from 1).
pub open spec fn entry_group(s: VolumeState, n: int, inode_maps: bool) -> int {
    (n - 1) / (per_group(s, inode_maps) as int)
}

/// The byte of its group's bitmap that holds entry `n`.
pub open spec fn entry_byte(s: VolumeState, n: int, inode_maps: bool) -> int {
    ((n - 1) % (per_group(s, inode_maps) as int)) / 8
}

/// The bit of that byte that holds entry `n`.
pub open spec fn entry_bit(s: VolumeState, n: int, inode_maps: bool) -> int {
    ((n - 1) % (per_group(s, inode_maps) as int)) % 8
}

/// Free entries the descriptor of group `g` counts.
pub open spec fn group_free(s: VolumeState, g: int, inode_maps: bool) -> u16 {
    if inode_maps {
        s.group_free_inodes(g)
    } else {
        s.group_free_blocks(g)
    }
}

/// Free entries the superblock counts.
pub open spec fn total_free(s: VolumeState, inode_maps: bool) -> u32 {
    if inode_maps {
        s.free_inodes()
    } else {
        s.free_blocks()
    }
}

/// Entry `n` can be marked without a fault: it lies in a group of the
/// table and in the 1 KiB of its bitmap, and the free counts neither drop
/// below zero nor pass the range of the superblock's counter.
pub open spec fn can_mark(s: VolumeState, n: int, inode_maps: bool, used: bool) -> bool {
    &&& n >= 1
    &&& entry_group(s, n, inode_maps) < s.group_count()
    &&& entry_byte(s, n, inode_maps) < 1024
    &&& used ==> group_free(s, entry_group(s, n, inode_maps), inode_maps) > 0
    &&& used ==> total_free(s, inode_maps) > 0
    &&& !used ==> total_free(s, inode_maps) < u32::MAX
}

/// The volume after entry `n` is marked used (or free): its bit set (or
/// cleared) in the bitmap on disk and the free counts of its group and of
/// the superblock moved by one.
#[verifier::opaque]
pub open spec fn marked(s: VolumeState, n: int, inode_maps: bool, used: bool) -> VolumeState {
    let g = entry_group(s, n, inode_maps);
    let map = if inode_maps {
        s.inode_bitmap(g)
    } else {
        s.block_bitmap(g)
    };
    let bs = s.block_size() as u32;
    let data = block_read(s.img, map, bs);
    let at = entry_byte(s, n, inode_maps);
    let bit = entry_bit(s, n, inode_maps);
    let new_byte = if used {
        with_bit_set(data[at], bit)
    } else {
        with_bit_cleared(data[at], bit)
    };
    let gfree = group_free(s, g, inode_maps);
    let new_gfree = if used {
        (gfree - 1) as u16
    } else {
        (gfree + 1) as u16
    };
    let tfree = total_free(s, inode_maps);
    let new_tfree = if used {
        (tfree - 1) as u32
    } else {
        (tfree + 1) as u32
    };
    VolumeState {
        img: block_write(s.img, map, bs, data.update(at, new_byte)),
        sb: splice(
            s.sb,
            if inode_maps {
                16
            } else {
                12
            },
            u32_le_bytes(new_tfree),
        ),
        groups: s.groups.update(
            g,
            splice(
                s.groups[g],
                if inode_maps {
                    14
                } else {
                    12
                },
                u16_le_bytes(new_gfree),
            ),
        ),
    }
}

/// Offset of the free count in a group descriptor.
pub open spec fn group_free_offset(inode_maps: bool) -> int {
    if inode_maps {
        14
    } else {
        12
    }
}

/// Offset of the free count in the superblock.
pub open spec fn total_free_offset(inode_maps: bool) -> int {
    if inode_maps {
        16
    } else {
        12
    }
}

/// Sets the free count of group `g`.
fn set_group_free(vol: &mut Volume, g: usize, inode_maps: bool, v: u16)
    requires
        old(vol).wf(),
        g < old(vol)@.group_count(),
    ensures
        final(vol).wf(),
        same_geometry(old(vol)@, final(vol)@),
        final(vol)@ == (VolumeState {
            groups: old(vol)@.groups.update(
                g as int,
                splice(old(vol)@.groups[g as int], group_free_offset(inode_maps), u16_le_bytes(v)),
            ),
            ..old(vol)@
        }),
{
    let ghost s = vol@;
    let ghost old_descs = vol.bgdt@;
    let ghost off_g = group_free_offset(inode_maps);
    assert(s.groups[g as int] == vol.bgdt@[g as int].raw@);
    let dm = vol.bgdt.get_block_group_descriptor_as_mut(g);
    if inode_maps {
        dm.set_free_inode_count(v);
    } else {
        dm.set_free_block_count(v);
    }
    proof {
        reveal(same_geometry);
        let new_raw = splice(s.groups[g as int], off_g, u16_le_bytes(v));
        assert(vol.bgdt@[g as int].raw@ == new_raw);
        assert(vol@.groups =~= s.groups.update(g as int, new_raw));
        assert forall|g2: int| 0 <= g2 < vol@.group_count() implies {
            &&& vol@.addressable(#[trigger] vol@.block_bitmap(g2))
            &&& vol@.addressable(vol@.inode_bitmap(g2))
        } by {
            assert(s.addressable(s.block_bitmap(g2)));
            assert(old_descs[g2].wf());
            assert(s.groups[g2] == old_descs[g2].raw@);
            if g2 == g {
                lemma_le_u32_outside(s.groups[g2], off_g, u16_le_bytes(v), 0);
                lemma_le_u32_outside(s.groups[g2], off_g, u16_le_bytes(v), 4);
                lemma_le_u32_outside(s.groups[g2], off_g, u16_le_bytes(v), 8);
            }
        }
        assert forall|g2: int| 0 <= g2 < s.groups.len() implies {
            &&& #[trigger] s.block_bitmap(g2) == vol@.block_bitmap(g2)
            &&& s.inode_bitmap(g2) == vol@.inode_bitmap(g2)
            &&& s.inode_table(g2) == vol@.inode_table(g2)
        } by {
            assert(old_descs[g2].wf());
            assert(s.groups[g2] == old_descs[g2].raw@);
            if g2 == g {
                lemma_le_u32_outside(s.groups[g2], off_g, u16_le_bytes(v), 0);
                lemma_le_u32_outside(s.groups[g2], off_g, u16_le_bytes(v), 4);
                lemma_le_u32_outside(s.groups[g2], off_g, u16_le_bytes(v), 8);
            }
        }
    }
}

/// Sets the free count of the superblock.
fn set_total_free(vol: &mut Volume, inode_maps: bool, v: u32)
    requires
        old(vol).wf(),
    ensures
        final(vol).wf(),
        same_geometry(old(vol)@, final(vol)@),
        final(vol)@ == (VolumeState {
            sb: splice(old(vol)@.sb, total_free_offset(inode_maps), u32_le_bytes(v)),
            ..old(vol)@
        }),
{
    let ghost s = vol@;
    let ghost off_s = total_free_offset(inode_maps);
    if inode_maps {
        vol.superblock.set_free_inodes(v);
    } else {
        vol.superblock.set_free_blocks(v);
    }
    proof {
        reveal(same_geometry);
        assert(vol@.groups =~= s.groups);
        assert(vol@.img == s.img);
        assert(vol.bgdt.wf());
        lemma_le_u32_outside(s.sb, off_s, u32_le_bytes(v), 24);
        lemma_le_u32_outside(s.sb, off_s, u32_le_bytes(v), 32);
        lemma_le_u32_outside(s.sb, off_s, u32_le_bytes(v), 40);
        lemma_le_u32_outside(s.sb, off_s, u32_le_bytes(v), 20);
        lemma_le_u16_outside(s.sb, off_s, u32_le_bytes(v), 88);
        assert(vol.superblock.wf());
        assert(vol@.sb == splice(s.sb, off_s, u32_le_bytes(v)));
        assert(vol@.log_block_size() == s.log_block_size());
        assert(vol@.block_size() == s.block_size());
        assert(vol@.blocks_per_group() == s.blocks_per_group());
        assert(vol@.inodes_per_group() == s.inodes_per_group());
        assert forall|g2: int| 0 <= g2 < vol@.group_count() implies {
            &&& vol@.addressable(#[trigger] vol@.block_bitmap(g2))
            &&& vol@.addressable(vol@.inode_bitmap(g2))
        } by {
            assert(s.addressable(s.block_bitmap(g2)));
        }
        assert(vol.bgdt@.len() <= 32);
        assert(vol@.log_block_size() < 22);
        assert(vol@.blocks_per_group() != 0);
        assert(vol@.inodes_per_group() != 0);
        assert(vol.wf());
    }
}

/// Writes the bitmap byte of entry `n` with its bit set or cleared.
fn flip_entry_bit(vol: &mut Volume, n: usize, inode_maps: bool, used: bool) -> (g: usize)
    requires
        old(vol).wf(),
        can_mark(old(vol)@, n as int, inode_maps, used),
    ensures
        final(vol).wf(),
        g == entry_group(old(vol)@, n as int, inode_maps),
        same_geometry(old(vol)@, final(vol)@),
        final(vol)@ == (VolumeState { img: marked(old(vol)@, n as int, inode_maps, used).img, ..old(vol)@ }),
{
    let ghost s = vol@;
    proof {
        reveal(marked);
    }
    let bs = vol.superblock.get_block_size();
    let per = if inode_maps {
        vol.superblock.get_inodes_per_group()
    } else {
        vol.superblock.get_blocks_per_group()
    };
    let num = n - 1;
    let g = num / per;
    let byte_idx = num % per / 8;
    let bit = num % per % 8;
    let d = vol.bgdt.get_block_group_descriptor(g);
    assert(d.raw@ == s.groups[g as int]);
    let map = if inode_maps {
        d.get_i_bitmap_block()
    } else {
        d.get_b_bitmap_block()
    };
    assert(s.addressable(s.block_bitmap(g as int)));
    let mut data = read_1kb_block(&vol.disk, map as u32, bs as u32);
    let to_modify = data[byte_idx];
    let bb: u8 = bit as u8;
    let after = if used {
        to_modify | (1u8 << bb)
    } else {
        to_modify & !(1u8 << bb)
    };
    data.set(byte_idx, after);
    write_1kb_block(&mut vol.disk, map as u32, bs as u32, data.as_slice(), data.len());
    proof {
        reveal(same_geometry);
        lemma_block_write_len(s.img, map as u32, bs as u32, data@);
        assert forall|g2: int| 0 <= g2 < vol@.group_count() implies {
            &&& vol@.addressable(#[trigger] vol@.block_bitmap(g2))
            &&& vol@.addressable(vol@.inode_bitmap(g2))
        } by {
            assert(s.addressable(s.block_bitmap(g2)));
        }
    }
    g
}

/// Marks entry `n` used or free in its bitmap and moves the free counts.
fn mark_entry(vol: &mut Volume, n: usize, inode_maps: bool, used: bool)
    requires
        old(vol).wf(),
        can_mark(old(vol)@, n as int, inode_maps, used),
    ensures
        final(vol).wf(),
        final(vol)@ == marked(old(vol)@, n as int, inode_maps, used),
        same_geometry(old(vol)@, final(vol)@),
{
    let ghost s = vol@;
    proof {
        reveal(marked);
    }
    let g = flip_entry_bit(vol, n, inode_maps, used);
    let ghost s1 = vol@;
    let d = vol.bgdt.get_block_group_descriptor(g);
    assert(d.raw@ == s.groups[g as int]);
    let gfree = if inode_maps {
        d.get_free_inode_count()
    } else {
        d.get_free_block_count()
    };
    let new_gfree: u16 = if used {
        (gfree - 1) as u16
    } else {
        (gfree + 1) as u16
    };
    set_group_free(vol, g, inode_maps, new_gfree);
    let ghost s2 = vol@;
    let tfree = if inode_maps {
        vol.superblock.get_free_inodes()
    } else {
        vol.superblock.get_free_blocks()
    };
    let new_tfree: u32 = if used {
        tfree - 1
    } else {
        tfree + 1
    };
    set_total_free(vol, inode_maps, new_tfree);
    proof {
        lemma_same_geometry_trans(s, s1, s2);
        lemma_same_geometry_trans(s, s2, vol@);
    }
}

/// Marks block `block_number` used.
pub fn mark_block_as_used(vol: &mut Volume, block_number: usize)
    requires
        old(vol).wf(),
        can_mark(old(vol)@, block_number as int, false, true),
    ensures
        final(vol).wf(),
        final(vol)@ == marked(old(vol)@, block_number as int, false, true),
        same_geometry(old(vol)@, final(vol)@),
{
    mark_entry(vol, block_number, false, true)
}

/// Marks block `block_number` free.
pub fn mark_block_as_free(vol: &mut Volume, block_number: usize)
    requires
        old(vol).wf(),
        can_mark(old(vol)@, block_number as int, false, false),
    ensures
        final(vol).wf(),
        final(vol)@ == marked(old(vol)@, block_number as int, false, false),
        same_geometry(old(vol)@, final(vol)@),
{
    mark_entry(vol, block_number, false, false)
}

/// Marks inode `inode_number` used.
pub fn mark_inode_as_used(vol: &mut Volume, inode_number: usize)
    requires
        old(vol).wf(),
        can_mark(old(vol)@, inode_number as int, true, true),
    ensures
        final(vol).wf(),
        final(vol)@ == marked(old(vol)@, inode_number as int, true, true),
        same_geometry(old(vol)@, final(vol)@),
{
    mark_entry(vol, inode_number, true, true)
}

/// Marks inode `inode_number` free.
pub fn mark_inode_as_free(vol: &mut Volume, inode_number: usize)
    requires
        old(vol).wf(),
        can_mark(old(vol)@, inode_number as int, true, false),
    ensures
        final(vol).wf(),
        final(vol)@ == marked(old(vol)@, inode_number as int, true, false),
        same_geometry(old(vol)@, final(vol)@),
{
    mark_entry(vol, inode_number, true, false)
}

/// The bitmap block that holds entry `n`.
pub open spec fn entry_map(s: VolumeState, n: int, inode_maps: bool) -> u32 {
    if inode_maps {
        s.inode_bitmap(entry_group(s, n, inode_maps))
    } else {
        s.block_bitmap(entry_group(s, n, inode_maps))
    }
}

/// Marking a free entry used and then free again gives back the volume:
/// the bitmap on disk and the free counts of its group and of the
/// superblock are as they were.
pub proof fn law_mark_used_then_free(vol: &Volume, n: int, inode_maps: bool)
    requires
        vol.wf(),
        can_mark(vol@, n, inode_maps, true),
        bitmap_free(
            group_map(vol@, entry_group(vol@, n, inode_maps), inode_maps),
            (n - 1) % (per_group(vol@, inode_maps) as int),
        ),
        sector_exists(
            vol@.img.len() as int,
            first_sector(entry_map(vol@, n, inode_maps), vol@.block_size() as u32) + 1,
        ),
    ensures
        marked(marked(vol@, n, inode_maps, true), n, inode_maps, false) == vol@,
{
    reveal(marked);
    let s = vol@;
    let g = entry_group(s, n, inode_maps);
    let map = entry_map(s, n, inode_maps);
    let bs = s.block_size() as u32;
    let data = block_read(s.img, map, bs);
    let at = entry_byte(s, n, inode_maps);
    let bit = entry_bit(s, n, inode_maps);
    let off_g = group_free_offset(inode_maps);
    let off_t = total_free_offset(inode_maps);
    let gfree = group_free(s, g, inode_maps);
    let tfree = total_free(s, inode_maps);
    let s1 = marked(s, n, inode_maps, true);
    let d1 = data.update(at, with_bit_set(data[at], bit));
    // The superblock and descriptor fields that locate the entry are kept.
    assert(vol.superblock.wf());
    assert(s.sb.len() == 236);
    assert(vol.bgdt@[g].wf());
    assert(s.groups[g] == vol.bgdt@[g].raw@);
    lemma_le_u32_outside(s.sb, off_t, u32_le_bytes((tfree - 1) as u32), 24);
    lemma_le_u32_outside(s.sb, off_t, u32_le_bytes((tfree - 1) as u32), 32);
    lemma_le_u32_outside(s.sb, off_t, u32_le_bytes((tfree - 1) as u32), 40);
    lemma_le_u32_outside(s.groups[g], off_g, u16_le_bytes((gfree - 1) as u16), 0);
    lemma_le_u32_outside(s.groups[g], off_g, u16_le_bytes((gfree - 1) as u16), 4);
    assert(s1.block_size() == s.block_size());
    assert(per_group(s1, inode_maps) == per_group(s, inode_maps));
    assert(entry_group(s1, n, inode_maps) == g);
    assert(entry_map(s1, n, inode_maps) == map);
    // The bitmap block reads back as written.
    assert(data.len() == 1024);
    law_block_read_after_write(s.img, map, bs, d1);
    assert(block_read(s1.img, map, bs) == d1);
    let k = (n - 1) % (per_group(s, inode_maps) as int);
    assert(bit_clear(data[k / 8], k % 8));
    let byte = data[at];
    let j = bit as u8;
    assert(0 <= bit < 8);
    assert((byte | (1u8 << j)) & !(1u8 << j) == byte) by (bit_vector)
        requires
            byte & (1u8 << j) == 0u8,
            j < 8,
    ;
    assert(d1.update(at, with_bit_cleared(d1[at], bit)) =~= data);
    lemma_block_write_twice(s.img, map, bs, d1, data);
    lemma_block_write_read(s.img, map, bs);
    // The free counts come back.
    lemma_read_after_write_u16(s.groups[g], off_g, (gfree - 1) as u16);
    lemma_read_after_write_u32(s.sb, off_t, (tfree - 1) as u32);
    assert(group_free(s1, g, inode_maps) == gfree - 1);
    assert(total_free(s1, inode_maps) == tfree - 1);
    lemma_splice_twice(s.groups[g], off_g, u16_le_bytes((gfree - 1) as u16), u16_le_bytes(gfree));
    lemma_u16_bytes_of(s.groups[g], off_g);
    lemma_splice_same(s.groups[g], off_g, 2);
    lemma_splice_twice(s.sb, off_t, u32_le_bytes((tfree - 1) as u32), u32_le_bytes(tfree));
    lemma_u32_bytes_of(s.sb, off_t);
    lemma_splice_same(s.sb, off_t, 4);
    let s2 = marked(s1, n, inode_maps, false);
    assert(s2.img == s.img);
    assert(s2.sb == s.sb);
    assert(s2.groups =~= s.groups);
}

} // verus!
