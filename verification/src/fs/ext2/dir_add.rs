//! Adding an entry to a directory.
//!
//! The entry goes into the directory's last block: after the block's last
//! entry, whose record is shrunk to its own size, when the space left holds
//! it; otherwise into a fresh block given to the directory.
use vstd::prelude::*;
use crate::bytes::{le_u32, splice, u16_le_bytes, u32_le_bytes, copy_into};
use super::block_alloc::{grow, can_grow, Grown};
use super::dir::{chain, chain_last, chain_ok, continues, entry_at, entry_fits, DirEntry, EntryView};
use super::disk::{block_addressable, block_read, block_write, read_1kb_block, write_1kb_block, lemma_block_write_len};
use super::inode::{Inode, direct_offset};
use super::volume::{Volume, VolumeState, same_geometry, lemma_block_size_range, lemma_same_geometry_refl, lemma_same_geometry_trans, lemma_same_geometry_facts, lemma_same_geometry_img, lemma_wf_img};

verus! {

/// Bytes an entry with a name of `name_len` bytes takes, padded to a
/// multiple of four.
pub open spec fn entry_size(name_len: int) -> int {
    let n = 8 + name_len;
    n + (4 - n % 4) % 4
}

/// The on-disk bytes of an entry: inode, record length, name length, file
/// type and name, padded with zeros to a multiple of four.
pub open spec fn aligned_bytes(e: EntryView) -> Seq<u8> {
    let h = u32_le_bytes(e.inode) + u16_le_bytes(e.rec_len) + seq![e.name_len, e.file_type]
        + e.name;
    h + Seq::new(((4 - h.len() % 4) % 4) as nat, |i: int| 0u8)
}

pub proof fn lemma_aligned_len(e: EntryView)
    ensures
        aligned_bytes(e).len() == entry_size(e.name.len() as int),
{
}

impl DirEntry {
    /// Bytes the entry takes on disk.
    pub fn size(&self) -> (n: usize)
        requires
            self.name_len <= 247,
        ensures
            n == entry_size(self.name_len as int),
    {
        let mut size = (8 + self.name_len) as usize;
        let padding = (4 - (size % 4)) % 4;
        size = size + padding;
        size
    }

    /// The on-disk bytes of the entry.
    pub fn get_aligned_bytes(&self) -> (data: Vec<u8>)
        ensures
            data@ == aligned_bytes(self@),
    {
        let mut data: Vec<u8> = Vec::new();
        let ino = self.inode;
        data.push((ino % 0x100) as u8);
        data.push(((ino / 0x100) % 0x100) as u8);
        data.push(((ino / 0x1_0000) % 0x100) as u8);
        data.push((ino / 0x100_0000) as u8);
        let rl = self.rec_len;
        data.push((rl % 0x100) as u8);
        data.push((rl / 0x100) as u8);
        data.push(self.name_len);
        data.push(self.file_type);
        data.extend_from_slice(self.name.as_slice());
        let ghost h = data@;
        assert(h =~= u32_le_bytes(self.inode) + u16_le_bytes(self.rec_len) + seq![
            self.name_len,
            self.file_type,
        ] + self.name@);
        let padding = 4 - (data.len() % 4);
        if padding < 4 {
            let mut k: usize = 0;
            while k < padding
                invariant
                    k <= padding,
                    data@ == h + Seq::new(k as nat, |i: int| 0u8),
                decreases padding - k,
            {
                data.push(0);
                assert(data@ =~= h + Seq::new((k + 1) as nat, |i: int| 0u8));
                k = k + 1;
            }
        } else {
            assert(data@ =~= h + Seq::new(0, |i: int| 0u8));
        }
        data
    }
}

/// A block of zeros.
pub open spec fn zeros(n: int) -> Seq<u8> {
    Seq::new(n as nat, |i: int| 0u8)
}

/// The directory after an entry is added: the inode's bytes, the volume
/// and the added entry (whose record length is set on the way).
pub struct Added {
    pub raw: Seq<u8>,
    pub s: VolumeState,
    pub entry: EntryView,
}

/// The block an entry is added to: the triply, doubly or singly indirect
/// block when one is in use (the first of them found), else the last used
/// direct block (the one before the first unused pointer).
pub open spec fn target_block(raw: Seq<u8>) -> u32 {
    if le_u32(raw, 96) != 0 {
        le_u32(raw, 96)
    } else if le_u32(raw, 92) != 0 {
        le_u32(raw, 92)
    } else if le_u32(raw, 88) != 0 {
        le_u32(raw, 88)
    } else {
        last_direct_from(raw, 0)
    }
}

/// The direct block before the first unused pointer from `idx + 1` on, or
/// the twelfth when all are used.
pub open spec fn last_direct_from(raw: Seq<u8>, idx: int) -> u32
    decreases 11 - idx,
{
    if idx < 0 || idx >= 11 {
        le_u32(raw, direct_offset(11))
    } else if le_u32(raw, direct_offset(idx + 1)) == 0 {
        le_u32(raw, direct_offset(idx))
    } else {
        last_direct_from(raw, idx + 1)
    }
}

/// Where the last entry of a block ends once shrunk, and whether the new
/// entry needs a fresh block.
pub open spec fn last_start(last: EntryView) -> int {
    1024 - last.rec_len
}

pub open spec fn last_end(last: EntryView) -> int {
    last_start(last) + entry_size(last.name_len as int)
}

pub open spec fn needs_new_block(last: EntryView, block: u32) -> bool {
    1024 - last_end(last) < entry_size(last.name_len as int) || block == 0
}

/// Adding entry `e` to directory block `block`.
pub open spec fn on_block(raw: Seq<u8>, s: VolumeState, e: EntryView, block: u32) -> Added {
    let bs = s.block_size() as u32;
    let data = block_read(s.img, block, bs);
    let last = chain_last(data, 0);
    if needs_new_block(last, block) {
        let g = grow(raw, s);
        match g.r {
            None => Added { raw: g.raw, s: g.s, entry: e },
            Some(nb) => {
                let e2 = EntryView { rec_len: 1024, ..e };
                Added {
                    raw: g.raw,
                    s: VolumeState {
                        img: block_write(g.s.img, nb, bs, splice(zeros(1024), 0, aligned_bytes(e2))),
                        ..g.s
                    },
                    entry: e2,
                }
            },
        }
    } else {
        let cur = last_start(last);
        let next = last_end(last);
        let last2 = EntryView { rec_len: entry_size(last.name_len as int) as u16, ..last };
        let e2 = EntryView { rec_len: (1024 - next) as u16, ..e };
        let d1 = data.take(cur) + zeros(1024 - cur);
        let d2 = splice(d1, cur, aligned_bytes(last2));
        let d3 = splice(d2, next, aligned_bytes(e2));
        Added { raw, s: VolumeState { img: block_write(s.img, block, bs, d3), ..s }, entry: e2 }
    }
}

/// Adding to `block` meets no fault.
pub open spec fn can_on_block(raw: Seq<u8>, s: VolumeState, e: EntryView, block: u32) -> bool {
    let bs = s.block_size() as u32;
    let data = block_read(s.img, block, bs);
    let last = chain_last(data, 0);
    &&& block_addressable(block, bs)
    &&& chain_ok(data, 0)
    &&& last.rec_len <= 1024
    &&& last.name_len <= 247
    &&& last_end(last) <= 1024
    &&& needs_new_block(last, block) ==> {
        &&& can_grow(raw, s)
        &&& aligned_bytes(EntryView { rec_len: 1024, ..e }).len() <= 1024
        &&& grow(raw, s).r matches Some(nb) ==> block_addressable(nb, bs)
    }
    &&& !needs_new_block(last, block) ==> last_end(last) + aligned_bytes(
        EntryView { rec_len: (1024 - last_end(last)) as u16, ..e },
    ).len() <= 1024
}

/// Adding entry `e` to the directory whose inode bytes are `raw`.
pub open spec fn add_entry(raw: Seq<u8>, s: VolumeState, e: EntryView) -> Added {
    on_block(raw, s, e, target_block(raw))
}

/// Adding the entry meets no fault.
pub open spec fn can_add_entry(raw: Seq<u8>, s: VolumeState, e: EntryView) -> bool {
    can_on_block(raw, s, e, target_block(raw))
}

proof fn lemma_chain_last_name(data: Seq<u8>, start: int)
    requires
        chain_ok(data, start),
    ensures
        chain_last(data, start).name.len() == chain_last(data, start).name_len,
    decreases data.len() - start,
{
    if continues(data, start) {
        lemma_chain_last_name(data, start + crate::bytes::le_u16(data, start + 4));
    }
}

/// The direct block an entry is added to when no indirect block is in use.
fn last_direct(inode: &Inode) -> (b: u32)
    requires
        inode.wf(),
    ensures
        b == last_direct_from(inode.raw@, 0),
{
    let mut idx: usize = 0;
    while idx < 11
        invariant
            inode.wf(),
            0 <= idx <= 11,
            last_direct_from(inode.raw@, idx as int) == last_direct_from(inode.raw@, 0),
        decreases 11 - idx,
    {
        if inode.get_direct_block(idx + 1) == 0 {
            return inode.get_direct_block(idx);
        }
        idx = idx + 1;
    }
    inode.get_direct_block(11)
}

/// The last entry of the chain of a directory block.
fn last_in_chain(data: &Vec<u8>) -> (e: DirEntry)
    requires
        data@.len() == 1024,
        chain_ok(data@, 0),
    ensures
        e@ == chain_last(data@, 0),
{
    let mut entry = DirEntry::from_ptr(data.as_slice(), 0);
    let mut pos: usize = 0;
    while entry.rec_len != 0 && entry.next < data.len()
        invariant
            data@.len() == 1024,
            0 <= pos < 1024,
            chain_ok(data@, pos as int),
            entry@ == entry_at(data@, pos as int),
            chain_last(data@, pos as int) == chain_last(data@, 0),
        decreases 1024 - pos,
    {
        assert(continues(data@, pos as int));
        assert(chain_ok(data@, entry.next as int));
        pos = entry.next;
        entry = DirEntry::from_ptr(data.as_slice(), pos);
    }
    assert(!continues(data@, pos as int));
    entry
}

/// Zeroes `data` from `from` on.
fn zero_from(data: &mut Vec<u8>, from: usize)
    requires
        from <= old(data)@.len(),
    ensures
        final(data)@ == old(data)@.take(from as int) + zeros(old(data)@.len() - from),
{
    let n = data.len();
    let mut i: usize = from;
    while i < n
        invariant
            n == data@.len(),
            n == old(data)@.len(),
            from <= i <= n,
            data@ == old(data)@.take(from as int) + zeros(i - from) + old(data)@.skip(i as int),
        decreases n - i,
    {
        data.set(i, 0);
        assert(data@ =~= old(data)@.take(from as int) + zeros(i + 1 - from) + old(data)@.skip(
            i + 1,
        ));
        i = i + 1;
    }
    assert(data@ =~= old(data)@.take(from as int) + zeros(n - from));
}

/// Adds `new_entry` at the start of a fresh block given to `inode`.
fn entry_on_new_block(vol: &mut Volume, block: u32, inode: &mut Inode, new_entry: &mut DirEntry)
    requires
        old(vol).wf(),
        old(inode).wf(),
        can_on_block(old(inode).raw@, old(vol)@, old(new_entry)@, block),
        needs_new_block(
            chain_last(block_read(old(vol)@.img, block, old(vol)@.block_size() as u32), 0),
            block,
        ),
    ensures
        final(vol).wf(),
        final(inode).wf(),
        final(inode).same_place(old(inode)),
        same_geometry(old(vol)@, final(vol)@),
        (Added { raw: final(inode).raw@, s: final(vol)@, entry: final(new_entry)@ }) == on_block(
            old(inode).raw@,
            old(vol)@,
            old(new_entry)@,
            block,
        ),
{
    let ghost s0 = vol@;
    proof {
        lemma_block_size_range(s0);
    }
    let block_size = vol.superblock.get_block_size() as u32;
    let new_block = inode.allocate_new_block(vol);
    match new_block {
        None => {},
        Some(new_block) => {
            let ghost mid = vol@;
            proof {
                lemma_same_geometry_facts(s0, mid);
            }
            let mut fresh: Vec<u8> = vec![0u8; 1024];
            assert(fresh@ =~= zeros(1024));
            new_entry.rec_len = 1024;
            let new_entry_bytes = new_entry.get_aligned_bytes();
            copy_into(&mut fresh, 0, new_entry_bytes.as_slice());
            let ghost vm = *vol;
            write_1kb_block(&mut vol.disk, new_block, block_size, fresh.as_slice(), 1024);
            proof {
                lemma_block_write_len(mid.img, new_block, block_size, fresh@);
                lemma_wf_img(&vm, vol);
                lemma_same_geometry_img(mid, vol@.img);
                lemma_same_geometry_trans(s0, mid, vol@);
            }
        },
    }
}

/// Adds `new_entry` after the last entry of block `block`, shrinking that
/// entry's record to its own size.
fn entry_after_last(
    vol: &mut Volume,
    block: u32,
    data: Vec<u8>,
    entry: DirEntry,
    new_entry: &mut DirEntry,
)
    requires
        old(vol).wf(),
        data@ == block_read(old(vol)@.img, block, old(vol)@.block_size() as u32),
        entry@ == chain_last(data@, 0),
        entry@.name.len() == entry@.name_len,
        block_addressable(block, old(vol)@.block_size() as u32),
        entry.rec_len <= 1024,
        entry.name_len <= 247,
        last_end(entry@) <= 1024,
        last_end(entry@) + aligned_bytes(
            EntryView { rec_len: (1024 - last_end(entry@)) as u16, ..old(new_entry)@ },
        ).len() <= 1024,
    ensures
        final(vol).wf(),
        same_geometry(old(vol)@, final(vol)@),
        ({
            let s = old(vol)@;
            let bs = s.block_size() as u32;
            let last = entry@;
            let cur = last_start(last);
            let next = last_end(last);
            let last2 = EntryView { rec_len: entry_size(last.name_len as int) as u16, ..last };
            let e2 = EntryView { rec_len: (1024 - next) as u16, ..old(new_entry)@ };
            let d1 = data@.take(cur) + zeros(1024 - cur);
            let d2 = splice(d1, cur, aligned_bytes(last2));
            let d3 = splice(d2, next, aligned_bytes(e2));
            &&& final(vol)@ == (VolumeState { img: block_write(s.img, block, bs, d3), ..s })
            &&& final(new_entry)@ == e2
        }),
{
    let ghost s0 = vol@;
    proof {
        lemma_block_size_range(s0);
    }
    let block_size = vol.superblock.get_block_size() as u32;
    let mut data = data;
    let mut entry = entry;
    let current_offset = 1024 - entry.rec_len as usize;
    let next = current_offset + entry.size();
    zero_from(&mut data, current_offset);
    entry.rec_len = entry.size() as u16;
    let old_entry_bytes = entry.get_aligned_bytes();
    proof {
        lemma_aligned_len(entry@);
    }
    copy_into(&mut data, current_offset, old_entry_bytes.as_slice());
    new_entry.rec_len = (1024 - next) as u16;
    let new_entry_bytes = new_entry.get_aligned_bytes();
    copy_into(&mut data, next, new_entry_bytes.as_slice());
    let ghost v0 = *vol;
    write_1kb_block(&mut vol.disk, block, block_size, data.as_slice(), 1024);
    proof {
        lemma_block_write_len(s0.img, block, block_size, data@);
        lemma_wf_img(&v0, vol);
        lemma_same_geometry_img(s0, vol@.img);
    }
}

/// Adds `new_entry` to directory block `block` of `inode`.
fn entry_on_d(vol: &mut Volume, block: u32, inode: &mut Inode, new_entry: &mut DirEntry)
    requires
        old(vol).wf(),
        old(inode).wf(),
        can_on_block(old(inode).raw@, old(vol)@, old(new_entry)@, block),
    ensures
        final(vol).wf(),
        final(inode).wf(),
        final(inode).same_place(old(inode)),
        same_geometry(old(vol)@, final(vol)@),
        (Added { raw: final(inode).raw@, s: final(vol)@, entry: final(new_entry)@ }) == on_block(
            old(inode).raw@,
            old(vol)@,
            old(new_entry)@,
            block,
        ),
{
    let ghost s0 = vol@;
    proof {
        lemma_block_size_range(s0);
    }
    let block_size = vol.superblock.get_block_size() as u32;
    let data = read_1kb_block(&vol.disk, block, block_size);
    let entry = last_in_chain(&data);
    proof {
        lemma_chain_last_name(data@, 0);
    }
    let current_offset = data.len() - entry.rec_len as usize;
    let next = current_offset + entry.size();
    let remaining_space = data.len() - next;
    if remaining_space < entry.size() || block == 0 {
        entry_on_new_block(vol, block, inode, new_entry);
    } else {
        entry_after_last(vol, block, data, entry, new_entry);
    }
}

impl DirEntry {
    /// Adds this entry to the directory `inode`, setting its record length.
    pub fn add_to_inode(&mut self, inode: &mut Inode, vol: &mut Volume)
        requires
            old(vol).wf(),
            old(inode).wf(),
            can_add_entry(old(inode).raw@, old(vol)@, old(self)@),
        ensures
            final(vol).wf(),
            final(inode).wf(),
            final(inode).same_place(old(inode)),
            same_geometry(old(vol)@, final(vol)@),
            (Added { raw: final(inode).raw@, s: final(vol)@, entry: final(self)@ }) == add_entry(
                old(inode).raw@,
                old(vol)@,
                old(self)@,
            ),
    {
        let t = inode.get_triply_indirect_block();
        let d = inode.get_doubly_indirect_block();
        let i = inode.get_indirect_block();
        let block = if t != 0 {
            t
        } else if d != 0 {
            d
        } else if i != 0 {
            i
        } else {
            last_direct(inode)
        };
        assert(block == target_block(inode.raw@));
        entry_on_d(vol, block, inode, self);
    }
}

/// When an entry does not fit in the directory's last block, it goes into
/// a block newly given to the directory, alone (its record taking the whole
/// first kilobyte, the rest zero), and the block that held the directory's
/// entries keeps its bytes: no entry that was there is lost.
pub proof fn law_entry_on_new_block(raw: Seq<u8>, s: VolumeState, e: EntryView, block: u32)
    requires
        needs_new_block(chain_last(block_read(s.img, block, s.block_size() as u32), 0), block),
        grow(raw, s).r is Some,
        aligned_bytes(EntryView { rec_len: 1024, ..e }).len() <= 1024,
        super::disk::sector_exists(
            grow(raw, s).s.img.len() as int,
            super::disk::first_sector(grow(raw, s).r.unwrap(), s.block_size() as u32) + 1,
        ),
        block != 0 ==> {
            let bs = s.block_size() as u32;
            let nb = grow(raw, s).r.unwrap();
            super::disk::first_sector(nb, bs) + 1 < super::disk::first_sector(block, bs)
                || super::disk::first_sector(block, bs) + 1 < super::disk::first_sector(nb, bs)
        },
    ensures
        ({
            let bs = s.block_size() as u32;
            let g = grow(raw, s);
            let nb = g.r.unwrap();
            let a = on_block(raw, s, e, block);
            &&& a.entry == (EntryView { rec_len: 1024, ..e })
            &&& a.raw == g.raw
            &&& block_read(a.s.img, nb, bs) == splice(zeros(1024), 0, aligned_bytes(a.entry))
            &&& block != 0 ==> block_read(a.s.img, block, bs) == block_read(g.s.img, block, bs)
        }),
{
    let bs = s.block_size() as u32;
    let g = grow(raw, s);
    let nb = g.r.unwrap();
    let e2 = EntryView { rec_len: 1024, ..e };
    let d = splice(zeros(1024), 0, aligned_bytes(e2));
    assert(d.len() == 1024);
    super::disk::law_block_read_after_write(g.s.img, nb, bs, d);
    if block != 0 {
        super::disk::law_block_write_frame(g.s.img, nb, block, bs, d);
    }
}

/// When an entry fits after the last entry of the directory's last block,
/// the block keeps every byte before that last entry (so every earlier
/// entry), the last entry stays where it was with its record shrunk to its
/// own size, and the new entry follows it, its record running to the end
/// of the kilobyte.
pub proof fn law_entry_after_last(raw: Seq<u8>, s: VolumeState, e: EntryView, block: u32)
    requires
        ({
            let bs = s.block_size() as u32;
            let data = block_read(s.img, block, bs);
            let last = chain_last(data, 0);
            &&& !needs_new_block(last, block)
            &&& last.rec_len <= 1024
            &&& last.name.len() == last.name_len
            &&& last_end(last) + aligned_bytes(
                EntryView { rec_len: (1024 - last_end(last)) as u16, ..e },
            ).len() <= 1024
            &&& super::disk::sector_exists(s.img.len() as int, super::disk::first_sector(block, bs) + 1)
        }),
    ensures
        ({
            let bs = s.block_size() as u32;
            let data = block_read(s.img, block, bs);
            let last = chain_last(data, 0);
            let a = on_block(raw, s, e, block);
            let after = block_read(a.s.img, block, bs);
            let shrunk = EntryView { rec_len: entry_size(last.name_len as int) as u16, ..last };
            &&& a.raw == raw
            &&& a.entry == (EntryView { rec_len: (1024 - last_end(last)) as u16, ..e })
            &&& after.subrange(0, last_start(last)) == data.subrange(0, last_start(last))
            &&& after.subrange(last_start(last), last_end(last)) == aligned_bytes(shrunk)
            &&& after.subrange(last_end(last), last_end(last) + aligned_bytes(a.entry).len())
                == aligned_bytes(a.entry)
        }),
{
    let bs = s.block_size() as u32;
    let data = block_read(s.img, block, bs);
    let last = chain_last(data, 0);
    let cur = last_start(last);
    let next = last_end(last);
    let last2 = EntryView { rec_len: entry_size(last.name_len as int) as u16, ..last };
    let e2 = EntryView { rec_len: (1024 - next) as u16, ..e };
    lemma_aligned_len(last2);
    assert(data.len() == 1024);
    let d1 = data.take(cur) + zeros(1024 - cur);
    let d2 = splice(d1, cur, aligned_bytes(last2));
    let d3 = splice(d2, next, aligned_bytes(e2));
    assert(d3.len() == 1024);
    super::disk::law_block_read_after_write(s.img, block, bs, d3);
    assert(d3.subrange(0, cur) =~= data.subrange(0, cur));
    assert(d3.subrange(cur, next) =~= aligned_bytes(last2));
    assert(d3.subrange(next, next + aligned_bytes(e2).len()) =~= aligned_bytes(e2));
}

} // verus!
