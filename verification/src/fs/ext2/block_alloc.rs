//! Giving an inode a new data block.
//!
//! The block is taken from the first free entry of the block bitmaps and
//! recorded in the first empty direct pointer; once an indirect block is in
//! use the new block goes into the indirect tree instead, growing it with
//! further blocks from the bitmaps where a level is missing.
use vstd::prelude::*;
use crate::bytes::{le_u32, splice, u32_le_bytes, u16_le_bytes, lemma_read_after_write_u32, write_u32_le, write_u16_le, read_u32_le};
use super::bitmap::{can_mark, first_free, marked, mark_block_as_used, mark_inode_as_used, find_first_free_block, find_first_free_inode};
use super::disk::{block_read, block_write, read_1kb_block, write_1kb_block, lemma_block_write_len};
use super::inode::{Inode, InodeType, direct_offset, type_mode, inode_group, inode_byte_offset, inode_block, inode_offset};
use super::inode_blocks::word;
use super::volume::{Volume, VolumeState, same_geometry, lemma_block_size_range, lemma_same_geometry_refl, lemma_same_geometry_trans, lemma_same_geometry_facts};

verus! {

/// `data` with entry `i` set to `v`.
pub open spec fn set_word(data: Seq<u8>, i: int, v: u32) -> Seq<u8> {
    splice(data, 4 * i, u32_le_bytes(v))
}

/// Entry `k` is the first empty entry of the indirect block `data`.
pub open spec fn is_first_zero(data: Seq<u8>, k: int) -> bool {
    &&& 0 <= k < 256
    &&& word(data, k) == 0
    &&& forall|j: int| 0 <= j < k ==> #[trigger] word(data, j) != 0
}

/// The first empty entry of an indirect block, if any.
pub open spec fn first_zero(data: Seq<u8>) -> Option<int> {
    if exists|k: int| is_first_zero(data, k) {
        Some(choose|k: int| is_first_zero(data, k))
    } else {
        None
    }
}

/// The state of the volume and the block handed out by one step of an
/// allocation.
pub struct Placed {
    pub s: VolumeState,
    pub r: Option<u32>,
}

/// Recording data block `db` in the first empty entry of the indirect
/// block `b`: `db` is marked used and `b` written back with it.
#[verifier::opaque]
pub open spec fn place0(s: VolumeState, b: u32, db: u32) -> Placed {
    let bs = s.block_size() as u32;
    let data = block_read(s.img, b, bs);
    match first_zero(data) {
        None => Placed { s, r: None },
        Some(k) => {
            let s1 = marked(s, db as int, false, true);
            Placed {
                s: VolumeState { img: block_write(s1.img, b, bs, set_word(data, k, db)), ..s1 },
                r: Some(db),
            }
        },
    }
}

/// Recording into `b` meets no fault.
#[verifier::opaque]
pub open spec fn can_place0(s: VolumeState, b: u32, db: u32) -> bool {
    let data = block_read(s.img, b, s.block_size() as u32);
    &&& s.addressable(b)
    &&& first_zero(data) is Some ==> can_mark(s, db as int, false, true)
}

/// The copy of `b` after entry `p` is visited: an empty entry gets `db`.
#[verifier::opaque]
pub open spec fn step_data(data: Seq<u8>, p: int, db: u32) -> Seq<u8> {
    if word(data, p) == 0 {
        set_word(data, p, db)
    } else {
        data
    }
}

/// The volume after entry `p` is visited: an empty entry has `db` marked
/// used and the updated copy written back to `b`.
#[verifier::opaque]
pub open spec fn step_state(s: VolumeState, b: u32, db: u32, data: Seq<u8>, p: int) -> VolumeState {
    if word(data, p) == 0 {
        let sm = marked(s, db as int, false, true);
        VolumeState {
            img: block_write(sm.img, b, s.block_size() as u32, set_word(data, p, db)),
            ..sm
        }
    } else {
        s
    }
}

/// The block under entry `p` once it is visited.
pub open spec fn step_blk(data: Seq<u8>, p: int, db: u32) -> u32 {
    if word(data, p) == 0 {
        db
    } else {
        word(data, p)
    }
}

/// The block to place one level down once entry `p` is visited: after an
/// empty entry is filled, a fresh block from the bitmaps.
#[verifier::opaque]
pub open spec fn step_dblk(s1: VolumeState, data: Seq<u8>, p: int, dblk: u32) -> u32 {
    if word(data, p) == 0 {
        first_free(s1, false).unwrap()
    } else {
        dblk
    }
}

/// Entry `p` is skipped because the next entry is in use.
pub open spec fn skipped(data: Seq<u8>, p: int) -> bool {
    p < 255 && word(data, p + 1) != 0
}

/// The walk over the entries of `b` from entry `p` on, with `data` the
/// in-memory copy of `b`, `dblk` the block to be placed one level down and
/// `inner` the placing done there.  An entry followed by a used entry is
/// skipped; an empty entry gets `db` (marked used and written into `b`),
/// after which a fresh block from the bitmaps is placed under it; otherwise
/// the block is placed under the entry, and the walk goes on while that
/// fails.
#[verifier::opaque]
pub open spec fn walk(
    inner: spec_fn(VolumeState, u32, u32) -> Placed,
    s: VolumeState,
    b: u32,
    db: u32,
    data: Seq<u8>,
    dblk: u32,
    p: int,
) -> Placed
    decreases 256 - p,
{
    if p < 0 || p >= 256 {
        Placed { s, r: None }
    } else if skipped(data, p) {
        walk(inner, s, b, db, data, dblk, p + 1)
    } else {
        let s1 = step_state(s, b, db, data, p);
        let dblk1 = step_dblk(s1, data, p, dblk);
        let got = inner(s1, step_blk(data, p, db), dblk1);
        if got.r is Some {
            got
        } else {
            walk(inner, got.s, b, db, step_data(data, p, db), dblk1, p + 1)
        }
    }
}

/// The walk from entry `p` on meets no fault, given which placings one
/// level down meet none.
#[verifier::opaque]
pub open spec fn can_walk(
    inner: spec_fn(VolumeState, u32, u32) -> Placed,
    can_inner: spec_fn(VolumeState, u32, u32) -> bool,
    s: VolumeState,
    b: u32,
    db: u32,
    data: Seq<u8>,
    dblk: u32,
    p: int,
) -> bool
    decreases 256 - p,
{
    if p < 0 || p >= 256 {
        true
    } else if skipped(data, p) {
        can_walk(inner, can_inner, s, b, db, data, dblk, p + 1)
    } else {
        let s1 = step_state(s, b, db, data, p);
        let dblk1 = step_dblk(s1, data, p, dblk);
        let got = inner(s1, step_blk(data, p, db), dblk1);
        &&& word(data, p) == 0 ==> can_mark(s, db as int, false, true)
        &&& word(data, p) == 0 ==> first_free(s1, false) is Some
        &&& can_inner(s1, step_blk(data, p, db), dblk1)
        &&& got.r is None ==> can_walk(
            inner,
            can_inner,
            got.s,
            b,
            db,
            step_data(data, p, db),
            dblk1,
            p + 1,
        )
    }
}

/// Placing under an indirect block of the second level (one whose entries
/// are indirect blocks).
pub open spec fn place1(s: VolumeState, b: u32, db: u32) -> Placed {
    walk(
        |s: VolumeState, b: u32, db: u32| place0(s, b, db),
        s,
        b,
        db,
        block_read(s.img, b, s.block_size() as u32),
        db,
        0,
    )
}

pub open spec fn can_place1(s: VolumeState, b: u32, db: u32) -> bool {
    s.addressable(b) && can_walk(
        |s: VolumeState, b: u32, db: u32| place0(s, b, db),
        |s: VolumeState, b: u32, db: u32| can_place0(s, b, db),
        s,
        b,
        db,
        block_read(s.img, b, s.block_size() as u32),
        db,
        0,
    )
}

/// Placing under an indirect block of the third level.
pub open spec fn place2(s: VolumeState, b: u32, db: u32) -> Placed {
    walk(
        |s: VolumeState, b: u32, db: u32| place1(s, b, db),
        s,
        b,
        db,
        block_read(s.img, b, s.block_size() as u32),
        db,
        0,
    )
}

pub open spec fn can_place2(s: VolumeState, b: u32, db: u32) -> bool {
    s.addressable(b) && can_walk(
        |s: VolumeState, b: u32, db: u32| place1(s, b, db),
        |s: VolumeState, b: u32, db: u32| can_place1(s, b, db),
        s,
        b,
        db,
        block_read(s.img, b, s.block_size() as u32),
        db,
        0,
    )
}

/// Placing data block `db` under block `b` of the given level (0: `b`
/// lists data blocks; 1: it lists indirect blocks; 2: doubly indirect).
pub open spec fn place(s: VolumeState, b: u32, db: u32, level: nat) -> Placed {
    if level == 0 {
        place0(s, b, db)
    } else if level == 1 {
        place1(s, b, db)
    } else {
        place2(s, b, db)
    }
}

/// Placing meets no fault: blocks read or written can be addressed, marks
/// stay in range, and a free block is found whenever one is asked for.
pub open spec fn can_place(s: VolumeState, b: u32, db: u32, level: nat) -> bool {
    if level == 0 {
        can_place0(s, b, db)
    } else if level == 1 {
        can_place1(s, b, db)
    } else {
        can_place2(s, b, db)
    }
}

/// The placing done one level below a block of the given level.
pub open spec fn inner_of(level: nat) -> spec_fn(VolumeState, u32, u32) -> Placed {
    if level == 1 {
        |s: VolumeState, b: u32, db: u32| place0(s, b, db)
    } else {
        |s: VolumeState, b: u32, db: u32| place1(s, b, db)
    }
}

pub open spec fn can_inner_of(level: nat) -> spec_fn(VolumeState, u32, u32) -> bool {
    if level == 1 {
        |s: VolumeState, b: u32, db: u32| can_place0(s, b, db)
    } else {
        |s: VolumeState, b: u32, db: u32| can_place1(s, b, db)
    }
}

proof fn lemma_walk_end(
    inner: spec_fn(VolumeState, u32, u32) -> Placed,
    s: VolumeState,
    b: u32,
    db: u32,
    data: Seq<u8>,
    dblk: u32,
)
    ensures
        walk(inner, s, b, db, data, dblk, 256) == (Placed { s, r: None }),
{
    reveal_with_fuel(walk, 1);
}

proof fn lemma_walk_skip(
    inner: spec_fn(VolumeState, u32, u32) -> Placed,
    can_inner: spec_fn(VolumeState, u32, u32) -> bool,
    s: VolumeState,
    b: u32,
    db: u32,
    data: Seq<u8>,
    dblk: u32,
    p: int,
)
    requires
        0 <= p < 256,
        skipped(data, p),
    ensures
        walk(inner, s, b, db, data, dblk, p) == walk(inner, s, b, db, data, dblk, p + 1),
        can_walk(inner, can_inner, s, b, db, data, dblk, p) == can_walk(
            inner,
            can_inner,
            s,
            b,
            db,
            data,
            dblk,
            p + 1,
        ),
{
    reveal_with_fuel(walk, 1);
    reveal_with_fuel(can_walk, 1);
}

/// What visiting entry `p` of the walk gives.
#[verifier::opaque]
pub open spec fn visit(
    inner: spec_fn(VolumeState, u32, u32) -> Placed,
    s: VolumeState,
    b: u32,
    db: u32,
    data: Seq<u8>,
    dblk: u32,
    p: int,
) -> Placed {
    let s1 = step_state(s, b, db, data, p);
    inner(s1, step_blk(data, p, db), step_dblk(s1, data, p, dblk))
}

/// Visiting entry `p` meets no fault.
#[verifier::opaque]
pub open spec fn can_visit(
    can_inner: spec_fn(VolumeState, u32, u32) -> bool,
    s: VolumeState,
    b: u32,
    db: u32,
    data: Seq<u8>,
    dblk: u32,
    p: int,
) -> bool {
    let s1 = step_state(s, b, db, data, p);
    &&& word(data, p) == 0 ==> can_mark(s, db as int, false, true)
    &&& word(data, p) == 0 ==> first_free(s1, false) is Some
    &&& can_inner(s1, step_blk(data, p, db), step_dblk(s1, data, p, dblk))
}

proof fn lemma_walk_visit(
    inner: spec_fn(VolumeState, u32, u32) -> Placed,
    can_inner: spec_fn(VolumeState, u32, u32) -> bool,
    s: VolumeState,
    b: u32,
    db: u32,
    data: Seq<u8>,
    dblk: u32,
    p: int,
)
    requires
        0 <= p < 256,
        !skipped(data, p),
    ensures
        ({
            let got = visit(inner, s, b, db, data, dblk, p);
            let dblk1 = step_dblk(step_state(s, b, db, data, p), data, p, dblk);
            &&& walk(inner, s, b, db, data, dblk, p) == if got.r is Some {
                got
            } else {
                walk(inner, got.s, b, db, step_data(data, p, db), dblk1, p + 1)
            }
            &&& can_walk(inner, can_inner, s, b, db, data, dblk, p) == (can_visit(
                can_inner,
                s,
                b,
                db,
                data,
                dblk,
                p,
            ) && (got.r is None ==> can_walk(
                inner,
                can_inner,
                got.s,
                b,
                db,
                step_data(data, p, db),
                dblk1,
                p + 1,
            )))
        }),
{
    reveal(visit);
    reveal(can_visit);
    reveal_with_fuel(walk, 1);
    reveal_with_fuel(can_walk, 1);
}

/// The first empty entry of a 1 KiB indirect block.
fn find_zero_word(data: &Vec<u8>) -> (r: Option<usize>)
    requires
        data@.len() == 1024,
    ensures
        match r {
            Some(k) => k < 256 && first_zero(data@) == Some(k as int),
            None => first_zero(data@) is None,
        },
{
    let mut i: usize = 0;
    while i < 256
        invariant
            data@.len() == 1024,
            0 <= i <= 256,
            forall|j: int| 0 <= j < i ==> #[trigger] word(data@, j) != 0,
        decreases 256 - i,
    {
        if read_u32_le(data.as_slice(), i * 4) == 0 {
            proof {
                let k = choose|k: int| is_first_zero(data@, k);
                assert(is_first_zero(data@, i as int));
                if k < i {
                    assert(word(data@, k) != 0);
                } else if i < k {
                    assert(word(data@, i as int) != 0);
                }
            }
            return Some(i);
        }
        i = i + 1;
    }
    proof {
        if exists|k: int| is_first_zero(data@, k) {
            let k = choose|k: int| is_first_zero(data@, k);
            assert(word(data@, k) != 0);
        }
    }
    None
}

/// Sets entry `i` of a 1 KiB indirect block.
fn write_word(data: &mut Vec<u8>, i: usize, v: u32)
    requires
        old(data)@.len() == 1024,
        i < 256,
    ensures
        final(data)@ == set_word(old(data)@, i as int, v),
        final(data)@.len() == 1024,
{
    write_u32_le(data, i * 4, v);
}

/// Records data block `db` in the first empty entry of the indirect block
/// `b`.
fn place_direct(vol: &mut Volume, b: u32, bs: u32, db: u32) -> (r: Option<u32>)
    requires
        old(vol).wf(),
        bs == old(vol)@.block_size(),
        can_place0(old(vol)@, b, db),
    ensures
        final(vol).wf(),
        same_geometry(old(vol)@, final(vol)@),
        (Placed { s: final(vol)@, r }) == place0(old(vol)@, b, db),
{
    let ghost s0 = vol@;
    proof {
        reveal(place0);
        reveal(can_place0);
    }
    proof {
        lemma_block_size_range(s0);
    }
    let mut data = read_1kb_block(&vol.disk, b, bs);
    match find_zero_word(&data) {
        None => {
            proof {
                lemma_same_geometry_refl(s0);
            }
            None
        },
        Some(k) => {
            mark_block_as_used(vol, db as usize);
            write_word(&mut data, k, db);
            let ghost pre = vol@;
            write_1kb_block(&mut vol.disk, b, bs, data.as_slice(), 1024);
            proof {
                lemma_block_write_len(pre.img, b, bs, data@);
                lemma_same_geometry_facts(s0, pre);
                reveal(same_geometry);
                lemma_same_geometry_trans(s0, pre, vol@);
                assert forall|g2: int| 0 <= g2 < vol@.group_count() implies {
                    &&& vol@.addressable(#[trigger] vol@.block_bitmap(g2))
                    &&& vol@.addressable(vol@.inode_bitmap(g2))
                } by {
                    assert(pre.addressable(pre.block_bitmap(g2)));
                }
            }
            Some(db)
        },
    }
}

/// Records data block `db` under block `b` of the given level.
fn place_block(vol: &mut Volume, b: u32, bs: u32, db: u32, level: u32) -> (r: Option<u32>)
    requires
        old(vol).wf(),
        bs == old(vol)@.block_size(),
        level <= 2,
        can_place(old(vol)@, b, db, level as nat),
    ensures
        final(vol).wf(),
        same_geometry(old(vol)@, final(vol)@),
        (Placed { s: final(vol)@, r }) == place(old(vol)@, b, db, level as nat),
    decreases level, 2int,
{
    if level == 0 {
        return place_direct(vol, b, bs, db);
    }
    proof {
        lemma_block_size_range(vol@);
        reveal_with_fuel(place, 1);
    }
    let data = read_1kb_block(&vol.disk, b, bs);
    place_walk(vol, b, bs, db, data, level)
}

/// Visits an empty entry `p` of `b`: `db` is marked used and recorded in
/// the entry, `b` is written back, and a fresh block is taken from the
/// bitmaps for the level below.
fn fill_entry(vol: &mut Volume, b: u32, bs: u32, db: u32, data: &mut Vec<u8>, p: usize) -> (dblk: u32)
    requires
        old(vol).wf(),
        bs == old(vol)@.block_size(),
        old(vol)@.addressable(b),
        old(data)@.len() == 1024,
        p < 256,
        word(old(data)@, p as int) == 0,
        can_mark(old(vol)@, db as int, false, true),
        first_free(step_state(old(vol)@, b, db, old(data)@, p as int), false) is Some,
    ensures
        final(vol).wf(),
        same_geometry(old(vol)@, final(vol)@),
        final(vol)@ == step_state(old(vol)@, b, db, old(data)@, p as int),
        final(data)@ == step_data(old(data)@, p as int, db),
        dblk == step_dblk(final(vol)@, old(data)@, p as int, 0),
{
    let ghost s0 = vol@;
    proof {
        reveal(step_state);
        reveal(step_data);
        reveal(step_dblk);
    }
    mark_block_as_used(vol, db as usize);
    write_word(data, p, db);
    let ghost pre = vol@;
    write_1kb_block(&mut vol.disk, b, bs, data.as_slice(), 1024);
    proof {
        lemma_block_write_len(pre.img, b, bs, data@);
        lemma_same_geometry_facts(s0, pre);
        reveal(same_geometry);
        lemma_same_geometry_trans(s0, pre, vol@);
        assert forall|g2: int| 0 <= g2 < vol@.group_count() implies {
            &&& vol@.addressable(#[trigger] vol@.block_bitmap(g2))
            &&& vol@.addressable(vol@.inode_bitmap(g2))
        } by {
            assert(pre.addressable(pre.block_bitmap(g2)));
        }
        assert(vol@ == step_state(s0, b, db, old(data)@, p as int));
    }
    find_first_free_block(vol).unwrap()
}

/// Visits entry `p` of `b` during a walk at the given level.
fn visit_entry(
    vol: &mut Volume,
    b: u32,
    bs: u32,
    db: u32,
    data: &mut Vec<u8>,
    dblk: &mut u32,
    p: usize,
    level: u32,
) -> (r: Option<u32>)
    requires
        old(vol).wf(),
        bs == old(vol)@.block_size(),
        old(vol)@.addressable(b),
        old(data)@.len() == 1024,
        p < 256,
        1 <= level <= 2,
        !skipped(old(data)@, p as int),
        can_walk(
            inner_of(level as nat),
            can_inner_of(level as nat),
            old(vol)@,
            b,
            db,
            old(data)@,
            *old(dblk),
            p as int,
        ),
    ensures
        r is Some ==> (Placed { s: final(vol)@, r }) == walk(
            inner_of(level as nat),
            old(vol)@,
            b,
            db,
            old(data)@,
            *old(dblk),
            p as int,
        ),
        r is None ==> walk(
            inner_of(level as nat),
            old(vol)@,
            b,
            db,
            old(data)@,
            *old(dblk),
            p as int,
        ) == walk(inner_of(level as nat), final(vol)@, b, db, final(data)@, *final(dblk), p + 1),
        r is None ==> can_walk(
            inner_of(level as nat),
            can_inner_of(level as nat),
            final(vol)@,
            b,
            db,
            final(data)@,
            *final(dblk),
            p + 1,
        ),
        final(vol).wf(),
        same_geometry(old(vol)@, final(vol)@),
        final(data)@ == step_data(old(data)@, p as int, db),
        final(data)@.len() == 1024,
        *final(dblk) == step_dblk(
            step_state(old(vol)@, b, db, old(data)@, p as int),
            old(data)@,
            p as int,
            *old(dblk),
        ),
        (Placed { s: final(vol)@, r }) == visit(
            inner_of(level as nat),
            old(vol)@,
            b,
            db,
            old(data)@,
            *old(dblk),
            p as int,
        ),
    decreases level, 0int,
{
    let ghost s0 = vol@;
    let ghost data0 = data@;
    let ghost dblk0 = *dblk;
    proof {
        lemma_walk_visit(
            inner_of(level as nat),
            can_inner_of(level as nat),
            s0,
            b,
            db,
            data0,
            dblk0,
            p as int,
        );
        reveal(visit);
        reveal(can_visit);
        reveal(step_state);
        reveal(step_data);
        reveal(step_dblk);
    }
    let mut blk = read_u32_le(data.as_slice(), p * 4);
    proof {
        lemma_same_geometry_refl(s0);
    }
    if blk == 0 {
        *dblk = fill_entry(vol, b, bs, db, data, p);
        blk = db;
    }
    let ghost mid = vol@;
    proof {
        lemma_block_size_range(vol@);
        lemma_same_geometry_facts(s0, mid);
    }
    let r = place_block(vol, blk, bs, *dblk, level - 1);
    proof {
        lemma_same_geometry_trans(s0, mid, vol@);
        let got = visit(inner_of(level as nat), s0, b, db, data0, dblk0, p as int);
        assert(got == (Placed { s: vol@, r }));
    }
    r
}

/// Walks the entries of `b` (of level 1 or 2), placing a block one level
/// down.
fn place_walk(vol: &mut Volume, b: u32, bs: u32, db: u32, data: Vec<u8>, level: u32) -> (r: Option<
    u32,
>)
    requires
        old(vol).wf(),
        bs == old(vol)@.block_size(),
        1 <= level <= 2,
        data@ == block_read(old(vol)@.img, b, bs),
        old(vol)@.addressable(b),
        can_walk(inner_of(level as nat), can_inner_of(level as nat), old(vol)@, b, db, data@, db, 0),
    ensures
        final(vol).wf(),
        same_geometry(old(vol)@, final(vol)@),
        (Placed { s: final(vol)@, r }) == walk(inner_of(level as nat), old(vol)@, b, db, data@, db, 0),
    decreases level, 1int,
{
    let ghost s0 = vol@;
    let ghost data0 = data@;
    proof {
        lemma_same_geometry_refl(s0);
    }
    let mut data = data;
    let mut dblk = db;
    let mut p: usize = 0;
    #[verifier::loop_isolation(false)]
    while p < 256
        invariant
            vol.wf(),
            1 <= level <= 2,
            bs == s0.block_size(),
            s0.addressable(b),
            same_geometry(s0, vol@),
            data@.len() == 1024,
            0 <= p <= 256,
            can_walk(inner_of(level as nat), can_inner_of(level as nat), vol@, b, db, data@, dblk, p as int),
            walk(inner_of(level as nat), vol@, b, db, data@, dblk, p as int) == walk(inner_of(level as nat), s0, b, db, data0, db, 0),
        decreases 256 - p,
    {
        let blk = read_u32_le(data.as_slice(), p * 4);
        if p < 255 {
            let next = read_u32_le(data.as_slice(), p * 4 + 4);
            if next != 0 {
                proof {
                    assert(skipped(data@, p as int));
                    lemma_walk_skip(inner_of(level as nat), can_inner_of(level as nat), vol@, b, db, data@, dblk, p as int);
                }
                p = p + 1;
                continue;
            }
        }
        let ghost pre = vol@;
        let ghost pre_data = data@;
        let ghost pre_dblk = dblk;
        proof {
            assert(!skipped(data@, p as int));
            lemma_same_geometry_facts(s0, pre);
        }
        let r = visit_entry(vol, b, bs, db, &mut data, &mut dblk, p, level);
        proof {
            lemma_same_geometry_trans(s0, pre, vol@);
        }
        if r.is_some() {
            assert((Placed { s: vol@, r }) == walk(inner_of(level as nat), pre, b, db, pre_data, pre_dblk, p as int));
            return r;
        }
        p = p + 1;
    }
    proof {
        lemma_walk_end(inner_of(level as nat), vol@, b, db, data@, dblk);
    }
    None
}


/// The inode's bytes, the state of the volume and the block handed out
/// after an allocation step.
pub struct Grown {
    pub raw: Seq<u8>,
    pub s: VolumeState,
    pub r: Option<u32>,
}

/// Direct pointer `i` is the first unused one.
pub open spec fn is_first_free_direct(raw: Seq<u8>, i: int) -> bool {
    &&& 0 <= i < 12
    &&& le_u32(raw, direct_offset(i)) == 0
    &&& forall|j: int| 0 <= j < i ==> le_u32(raw, #[trigger] direct_offset(j)) != 0
}

/// The first unused direct pointer, if any.
pub open spec fn first_free_direct(raw: Seq<u8>) -> Option<int> {
    if exists|i: int| is_first_free_direct(raw, i) {
        Some(choose|i: int| is_first_free_direct(raw, i))
    } else {
        None
    }
}

/// Recording `db` in the first unused direct pointer (marking it used); no
/// direct pointer is used once the indirect block is.
pub open spec fn on_direct(raw: Seq<u8>, s: VolumeState, db: u32) -> Grown {
    if le_u32(raw, 88) != 0 {
        Grown { raw, s, r: None }
    } else {
        match first_free_direct(raw) {
            None => Grown { raw, s, r: None },
            Some(i) => Grown {
                raw: splice(raw, direct_offset(i), u32_le_bytes(db)),
                s: marked(s, db as int, false, true),
                r: Some(db),
            },
        }
    }
}

pub open spec fn can_on_direct(raw: Seq<u8>, s: VolumeState, db: u32) -> bool {
    le_u32(raw, 88) != 0 || first_free_direct(raw) is None || can_mark(s, db as int, false, true)
}

/// Placing `db` under the tree whose root pointer is at byte `at` of the
/// inode.  A missing root is created from `db` itself (marked used) and a
/// fresh block from the bitmaps is placed under it instead.
pub open spec fn on_tree(raw: Seq<u8>, s: VolumeState, db: u32, at: int, level: nat) -> Grown {
    let root = le_u32(raw, at);
    if root == 0 {
        let s1 = marked(s, db as int, false, true);
        let p = place(s1, db, first_free(s1, false).unwrap(), level);
        Grown { raw: splice(raw, at, u32_le_bytes(db)), s: p.s, r: p.r }
    } else {
        let p = place(s, root, db, level);
        Grown { raw, s: p.s, r: p.r }
    }
}

pub open spec fn can_on_tree(raw: Seq<u8>, s: VolumeState, db: u32, at: int, level: nat) -> bool {
    let root = le_u32(raw, at);
    if root == 0 {
        let s1 = marked(s, db as int, false, true);
        &&& can_mark(s, db as int, false, true)
        &&& first_free(s1, false) is Some
        &&& can_place(s1, db, first_free(s1, false).unwrap(), level)
    } else {
        can_place(s, root, db, level)
    }
}

/// The indirect tree is used only while no doubly indirect block exists.
pub open spec fn on_indirect(raw: Seq<u8>, s: VolumeState, db: u32) -> Grown {
    if le_u32(raw, 92) != 0 {
        Grown { raw, s, r: None }
    } else {
        on_tree(raw, s, db, 88, 0)
    }
}

pub open spec fn can_on_indirect(raw: Seq<u8>, s: VolumeState, db: u32) -> bool {
    le_u32(raw, 92) != 0 || can_on_tree(raw, s, db, 88, 0)
}

/// The doubly indirect tree is used only while no triply indirect block
/// exists.
pub open spec fn on_doubly(raw: Seq<u8>, s: VolumeState, db: u32) -> Grown {
    if le_u32(raw, 96) != 0 {
        Grown { raw, s, r: None }
    } else {
        on_tree(raw, s, db, 92, 1)
    }
}

pub open spec fn can_on_doubly(raw: Seq<u8>, s: VolumeState, db: u32) -> bool {
    le_u32(raw, 96) != 0 || can_on_tree(raw, s, db, 92, 1)
}

/// The first free block of the volume, given to the inode: tried in the
/// direct pointers, then the indirect, doubly and triply indirect trees.
#[verifier::opaque]
pub open spec fn grow(raw: Seq<u8>, s: VolumeState) -> Grown {
    let db = first_free(s, false).unwrap();
    let a = on_direct(raw, s, db);
    if a.r is Some {
        a
    } else {
        let b = on_indirect(a.raw, a.s, db);
        if b.r is Some {
            b
        } else {
            let c = on_doubly(b.raw, b.s, db);
            if c.r is Some {
                c
            } else {
                on_tree(c.raw, c.s, db, 96, 2)
            }
        }
    }
}

/// Growing the inode meets no fault: a free block exists and each step
/// taken can be carried out.
#[verifier::opaque]
pub open spec fn can_grow(raw: Seq<u8>, s: VolumeState) -> bool {
    let db = first_free(s, false).unwrap();
    let a = on_direct(raw, s, db);
    let b = on_indirect(a.raw, a.s, db);
    let c = on_doubly(b.raw, b.s, db);
    &&& first_free(s, false) is Some
    &&& can_on_direct(raw, s, db)
    &&& a.r is None ==> can_on_indirect(a.raw, a.s, db)
    &&& a.r is None && b.r is None ==> can_on_doubly(b.raw, b.s, db)
    &&& a.r is None && b.r is None && c.r is None ==> can_on_tree(c.raw, c.s, db, 96, 2)
}

impl Inode {
    /// The inode's position and flags stay as they were.
    pub open spec fn same_place(&self, other: &Inode) -> bool {
        &&& self.id == other.id
        &&& self.block == other.block
        &&& self.offset_in_block == other.offset_in_block
        &&& self.need_flush == other.need_flush
    }

    /// Records `data_block` in the first empty entry of the indirect block
    /// `block_to_write_in`.
    pub fn alloc_address_in_direct_block(
        &self,
        vol: &mut Volume,
        block_to_write_in: u32,
        block_size: u32,
        data_block: u32,
    ) -> (r: Option<u32>)
        requires
            old(vol).wf(),
            block_size == old(vol)@.block_size(),
            can_place(old(vol)@, block_to_write_in, data_block, 0),
        ensures
            final(vol).wf(),
            same_geometry(old(vol)@, final(vol)@),
            (Placed { s: final(vol)@, r }) == place(old(vol)@, block_to_write_in, data_block, 0),
    {
        place_block(vol, block_to_write_in, block_size, data_block, 0)
    }

    /// Places `data_block` under the doubly-level block `block_to_write_in`
    /// (one whose entries are indirect blocks).
    pub fn alloc_address_in_indirect_block(
        &self,
        vol: &mut Volume,
        block_to_write_in: u32,
        block_size: u32,
        data_block: u32,
    ) -> (r: Option<u32>)
        requires
            old(vol).wf(),
            block_size == old(vol)@.block_size(),
            can_place(old(vol)@, block_to_write_in, data_block, 1),
        ensures
            final(vol).wf(),
            same_geometry(old(vol)@, final(vol)@),
            (Placed { s: final(vol)@, r }) == place(old(vol)@, block_to_write_in, data_block, 1),
    {
        place_block(vol, block_to_write_in, block_size, data_block, 1)
    }

    /// Places `data_block` under the triply-level block `block_to_write_in`.
    pub fn alloc_address_in_doubly_indirect_block(
        &self,
        vol: &mut Volume,
        block_to_write_in: u32,
        block_size: u32,
        data_block: u32,
    ) -> (r: Option<u32>)
        requires
            old(vol).wf(),
            block_size == old(vol)@.block_size(),
            can_place(old(vol)@, block_to_write_in, data_block, 2),
        ensures
            final(vol).wf(),
            same_geometry(old(vol)@, final(vol)@),
            (Placed { s: final(vol)@, r }) == place(old(vol)@, block_to_write_in, data_block, 2),
    {
        place_block(vol, block_to_write_in, block_size, data_block, 2)
    }

    /// Records `data_block` in the first unused direct pointer.
    pub fn alloc_on_direct_block(&mut self, vol: &mut Volume, data_block: u32) -> (r: Option<u32>)
        requires
            old(self).wf(),
            old(vol).wf(),
            can_on_direct(old(self).raw@, old(vol)@, data_block),
        ensures
            final(self).wf(),
            final(vol).wf(),
            final(self).same_place(old(self)),
            same_geometry(old(vol)@, final(vol)@),
            (Grown { raw: final(self).raw@, s: final(vol)@, r }) == on_direct(
                old(self).raw@,
                old(vol)@,
                data_block,
            ),
    {
        proof {
            lemma_same_geometry_refl(vol@);
        }
        if self.get_indirect_block() != 0 {
            return None;
        }
        let mut i: usize = 0;
        while i < 12
            invariant
                self.wf(),
                self.raw@ == old(self).raw@,
                self.same_place(old(self)),
                vol.wf(),
                vol@ == old(vol)@,
                same_geometry(old(vol)@, vol@),
                le_u32(old(self).raw@, 88) == 0,
                can_on_direct(old(self).raw@, old(vol)@, data_block),
                0 <= i <= 12,
                forall|j: int| 0 <= j < i ==> le_u32(self.raw@, #[trigger] direct_offset(j)) != 0,
            decreases 12 - i,
        {
            if self.get_direct_block(i) == 0 {
                proof {
                    assert(is_first_free_direct(self.raw@, i as int));
                    let k = choose|k: int| is_first_free_direct(self.raw@, k);
                    if k < i {
                        assert(le_u32(self.raw@, direct_offset(k)) != 0);
                    } else if i < k {
                        assert(le_u32(self.raw@, direct_offset(i as int)) != 0);
                    }
                }
                mark_block_as_used(vol, data_block as usize);
                proof {
                    lemma_read_after_write_u32(self.raw@, direct_offset(i as int), data_block);
                }
                write_u32_le(&mut self.raw, 40 + 4 * i, data_block);
                return Some(data_block);
            }
            i = i + 1;
        }
        proof {
            if exists|k: int| is_first_free_direct(self.raw@, k) {
                let k = choose|k: int| is_first_free_direct(self.raw@, k);
                assert(le_u32(self.raw@, direct_offset(k)) != 0);
            }
        }
        None
    }

    /// Places `data_block` under the tree rooted at byte `at` of the inode.
    fn alloc_on_tree(&mut self, vol: &mut Volume, data_block: u32, at: usize, level: u32) -> (r:
        Option<u32>)
        requires
            old(self).wf(),
            old(vol).wf(),
            at == 88 || at == 92 || at == 96,
            level <= 2,
            can_on_tree(old(self).raw@, old(vol)@, data_block, at as int, level as nat),
        ensures
            final(self).wf(),
            final(vol).wf(),
            final(self).same_place(old(self)),
            same_geometry(old(vol)@, final(vol)@),
            (Grown { raw: final(self).raw@, s: final(vol)@, r }) == on_tree(
                old(self).raw@,
                old(vol)@,
                data_block,
                at as int,
                level as nat,
            ),
    {
        let ghost s0 = vol@;
        let block_size = vol.superblock.get_block_size() as u32;
        let root = read_u32_le(self.raw.as_slice(), at);
        let mut below = data_block;
        if root == 0 {
            proof {
                lemma_read_after_write_u32(self.raw@, at as int, data_block);
            }
            write_u32_le(&mut self.raw, at, data_block);
            mark_block_as_used(vol, data_block as usize);
            below = find_first_free_block(vol).unwrap();
        } else {
            proof {
                lemma_same_geometry_refl(s0);
            }
        }
        let ghost mid = vol@;
        proof {
            lemma_same_geometry_facts(s0, mid);
            lemma_block_size_range(s0);
        }
        let r = place_block(vol, read_u32_le(self.raw.as_slice(), at), block_size, below, level);
        proof {
            lemma_same_geometry_trans(s0, mid, vol@);
        }
        r
    }

    /// Places `data_block` in the indirect tree, while no doubly indirect
    /// block exists.
    pub fn alloc_on_indirect_block(&mut self, vol: &mut Volume, data_block: u32) -> (r: Option<u32>)
        requires
            old(self).wf(),
            old(vol).wf(),
            can_on_indirect(old(self).raw@, old(vol)@, data_block),
        ensures
            final(self).wf(),
            final(vol).wf(),
            final(self).same_place(old(self)),
            same_geometry(old(vol)@, final(vol)@),
            (Grown { raw: final(self).raw@, s: final(vol)@, r }) == on_indirect(
                old(self).raw@,
                old(vol)@,
                data_block,
            ),
    {
        if self.get_doubly_indirect_block() != 0 {
            proof {
                lemma_same_geometry_refl(vol@);
            }
            return None;
        }
        self.alloc_on_tree(vol, data_block, 88, 0)
    }

    /// Places `data_block` in the doubly indirect tree, while no triply
    /// indirect block exists.
    pub fn alloc_on_doubly_indirect_block(&mut self, vol: &mut Volume, data_block: u32) -> (r:
        Option<u32>)
        requires
            old(self).wf(),
            old(vol).wf(),
            can_on_doubly(old(self).raw@, old(vol)@, data_block),
        ensures
            final(self).wf(),
            final(vol).wf(),
            final(self).same_place(old(self)),
            same_geometry(old(vol)@, final(vol)@),
            (Grown { raw: final(self).raw@, s: final(vol)@, r }) == on_doubly(
                old(self).raw@,
                old(vol)@,
                data_block,
            ),
    {
        if self.get_triply_indirect_block() != 0 {
            proof {
                lemma_same_geometry_refl(vol@);
            }
            return None;
        }
        self.alloc_on_tree(vol, data_block, 92, 1)
    }

    /// Places `data_block` in the triply indirect tree.
    pub fn alloc_on_triply_indirect_block(&mut self, vol: &mut Volume, data_block: u32) -> (r:
        Option<u32>)
        requires
            old(self).wf(),
            old(vol).wf(),
            can_on_tree(old(self).raw@, old(vol)@, data_block, 96, 2),
        ensures
            final(self).wf(),
            final(vol).wf(),
            final(self).same_place(old(self)),
            same_geometry(old(vol)@, final(vol)@),
            (Grown { raw: final(self).raw@, s: final(vol)@, r }) == on_tree(
                old(self).raw@,
                old(vol)@,
                data_block,
                96,
                2,
            ),
    {
        self.alloc_on_tree(vol, data_block, 96, 2)
    }

    /// Gives the inode the first free block of the volume.
    pub fn allocate_new_block(&mut self, vol: &mut Volume) -> (r: Option<u32>)
        requires
            old(self).wf(),
            old(vol).wf(),
            can_grow(old(self).raw@, old(vol)@),
        ensures
            final(self).wf(),
            final(vol).wf(),
            final(self).same_place(old(self)),
            same_geometry(old(vol)@, final(vol)@),
            (Grown { raw: final(self).raw@, s: final(vol)@, r }) == grow(old(self).raw@, old(vol)@),
    {
        let ghost s0 = vol@;
        proof {
            reveal(grow);
            reveal(can_grow);
        }
        let data_block = find_first_free_block(vol).unwrap();
        let r = self.alloc_on_direct_block(vol, data_block);
        if r.is_some() {
            return r;
        }
        let ghost s1 = vol@;
        let r = self.alloc_on_indirect_block(vol, data_block);
        proof {
            lemma_same_geometry_trans(s0, s1, vol@);
        }
        if r.is_some() {
            return r;
        }
        let ghost s2 = vol@;
        let r = self.alloc_on_doubly_indirect_block(vol, data_block);
        proof {
            lemma_same_geometry_trans(s0, s2, vol@);
        }
        if r.is_some() {
            return r;
        }
        let ghost s3 = vol@;
        let r = self.alloc_on_triply_indirect_block(vol, data_block);
        proof {
            lemma_same_geometry_trans(s0, s3, vol@);
        }
        r
    }
}


/// The bytes of a new inode of type `t`: its type in the mode, one hard
/// link, everything else zero.
pub open spec fn new_inode_bytes(t: InodeType) -> Seq<u8> {
    splice(
        splice(Seq::new(120, |k: int| 0u8), 0, u16_le_bytes(type_mode(t))),
        26,
        u16_le_bytes(1),
    )
}

/// The location of inode `id` can be computed without a fault.
pub open spec fn locatable(s: VolumeState, id: int) -> bool {
    &&& 1 <= id
    &&& inode_group(s, id) < s.group_count()
    &&& inode_byte_offset(s, id) <= usize::MAX
    &&& inode_block(s, id) <= usize::MAX
}

/// Building an inode of type `t` meets no fault: a free inode exists and
/// can be located, the new inode can be given a block, and the inode can
/// then be marked used.
pub open spec fn can_build(s: VolumeState, t: InodeType) -> bool {
    let id = first_free(s, true).unwrap();
    &&& first_free(s, true) is Some
    &&& locatable(s, id as int)
    &&& can_grow(new_inode_bytes(t), s)
    &&& can_mark(grow(new_inode_bytes(t), s).s, id as int, true, true)
}

/// Writes the mode and hard link count of a new inode.
fn new_inode_raw(inode_type: InodeType) -> (raw: Vec<u8>)
    ensures
        raw@ == new_inode_bytes(inode_type),
        raw@.len() == 120,
{
    let mut raw: Vec<u8> = vec![0u8; 120];
    let mode: u16 = match inode_type {
        InodeType::FIFO => 0x1000,
        InodeType::CharacterDevice => 0x2000,
        InodeType::Directory => 0x4000,
        InodeType::BlockDevice => 0x6000,
        InodeType::RegularFile => 0x8000,
        InodeType::SymbolicLink => 0xA000,
        InodeType::Socket => 0xC000,
        _ => 0x0000,
    };
    assert(raw@ =~= Seq::new(120, |k: int| 0u8));
    write_u16_le(&mut raw, 0, mode);
    write_u16_le(&mut raw, 26, 1);
    raw
}

/// Creates an inode of type `inode_type` in the first free inode: it gets a
/// first block, a directory gets a size of 1 KiB, and the inode is marked
/// used.  It is written back when released.
pub fn build_inode(vol: &mut Volume, inode_type: InodeType) -> (inode: Inode)
    requires
        old(vol).wf(),
        can_build(old(vol)@, inode_type),
    ensures
        inode.wf(),
        final(vol).wf(),
        same_geometry(old(vol)@, final(vol)@),
        ({
            let s = old(vol)@;
            let id = first_free(s, true).unwrap() as int;
            let g = grow(new_inode_bytes(inode_type), s);
            &&& inode.id == id
            &&& inode.block == inode_block(s, id)
            &&& inode.offset_in_block == inode_offset(s, id)
            &&& inode.need_flush
            &&& inode.raw@ == if inode_type == InodeType::Directory {
                splice(g.raw, 4, u32_le_bytes(1024))
            } else {
                g.raw
            }
            &&& final(vol)@ == marked(g.s, id, true, true)
        }),
{
    let ghost s0 = vol@;
    let raw = new_inode_raw(inode_type);
    let free_inode = find_first_free_inode(vol).unwrap() as usize;
    let inode_size = vol.superblock.get_inode_size();
    let block_size = vol.superblock.get_block_size();
    let inodes_per_group = vol.superblock.get_inodes_per_group();
    let block_group = (free_inode - 1) / inodes_per_group;
    let index = (free_inode - 1) % inodes_per_group;
    let d = vol.bgdt.get_block_group_descriptor(block_group);
    assert(d.raw@ == s0.groups[block_group as int]);
    let inode_table_start_block = d.get_inode_table_start_address();
    let byte_offset = index * inode_size;
    let containing_block = byte_offset / block_size;
    let offset_in_block = byte_offset % block_size;
    let inode_table_offset = inode_table_start_block + containing_block;
    let mut inode = Inode {
        raw,
        id: free_inode,
        block: inode_table_offset,
        offset_in_block,
        need_flush: true,
    };
    inode.allocate_new_block(vol);
    if inode_type == InodeType::Directory {
        inode.set_size(1024);
    }
    let ghost mid = vol@;
    mark_inode_as_used(vol, free_inode);
    proof {
        lemma_same_geometry_trans(s0, mid, vol@);
    }
    inode
}

/// The bytes of the inode that building one of type `t` gives.
pub open spec fn built_raw(s: VolumeState, t: InodeType) -> Seq<u8> {
    let g = grow(new_inode_bytes(t), s);
    if t == InodeType::Directory {
        splice(g.raw, 4, u32_le_bytes(1024))
    } else {
        g.raw
    }
}

/// A built inode reads back as asked: its type is `t` with no permission
/// bits, it has one hard link, its one block is the first free block of the
/// volume (in the first direct pointer, marked used), no other block
/// pointer is set, and its size is 1 KiB for a directory and 0 otherwise.
pub proof fn law_build_inode_reads_back(s: VolumeState, t: InodeType)
    requires
        first_free(s, false) is Some,
    ensures
        ({
            let raw = built_raw(s, t);
            let db = first_free(s, false).unwrap();
            &&& raw.len() == 120
            &&& super::inode::mode_type(crate::bytes::le_u16(raw, 0)) == t
            &&& crate::bytes::le_u16(raw, 0) & 0x0FFF == 0
            &&& crate::bytes::le_u16(raw, 26) == 1
            &&& le_u32(raw, 4) == if t == InodeType::Directory { 1024u32 } else { 0u32 }
            &&& le_u32(raw, direct_offset(0)) == db
            &&& forall|i: int| 1 <= i < 12 ==> le_u32(raw, #[trigger] direct_offset(i)) == 0
            &&& le_u32(raw, 88) == 0 && le_u32(raw, 92) == 0 && le_u32(raw, 96) == 0
            &&& grow(new_inode_bytes(t), s).s == marked(s, db as int, false, true)
        }),
{
    reveal(grow);
    let n = new_inode_bytes(t);
    let z = Seq::new(120, |k: int| 0u8);
    let n1 = splice(z, 0, u16_le_bytes(type_mode(t)));
    crate::bytes::lemma_read_after_write_u16(z, 0, type_mode(t));
    crate::bytes::lemma_splice_frame(z, 0, u16_le_bytes(type_mode(t)));
    crate::bytes::lemma_read_after_write_u16(n1, 26, 1);
    crate::bytes::lemma_splice_frame(n1, 26, u16_le_bytes(1));
    crate::bytes::lemma_le_u16_outside(n1, 26, u16_le_bytes(1), 0);
    assert(n.len() == 120);
    assert(crate::bytes::le_u16(n, 0) == type_mode(t));
    assert(crate::bytes::le_u16(n, 26) == 1);
    assert forall|k: int| 28 <= k < 120 || 4 <= k < 8 implies #[trigger] n[k] == 0 by {
        assert(n[k] == n1[k]);
        assert(n1[k] == z[k]);
    }
    let db = first_free(s, false).unwrap();
    assert(le_u32(n, 88) == 0);
    assert(le_u32(n, direct_offset(0)) == 0);
    assert(is_first_free_direct(n, 0));
    assert forall|i: int| is_first_free_direct(n, i) implies i == 0 by {
        if i > 0 {
            assert(le_u32(n, direct_offset(0)) != 0);
        }
    }
    assert(first_free_direct(n) == Some(0int));
    let r1 = splice(n, direct_offset(0), u32_le_bytes(db));
    let a = on_direct(n, s, db);
    assert(a.raw == r1 && a.r == Some(db));
    lemma_read_after_write_u32(n, 40, db);
    crate::bytes::lemma_splice_frame(n, 40, u32_le_bytes(db));
    crate::bytes::lemma_le_u16_outside(n, 40, u32_le_bytes(db), 0);
    crate::bytes::lemma_le_u16_outside(n, 40, u32_le_bytes(db), 26);
    assert forall|i: int| 1 <= i < 12 implies le_u32(r1, #[trigger] direct_offset(i)) == 0 by {
        crate::bytes::lemma_le_u32_outside(n, 40, u32_le_bytes(db), direct_offset(i));
        let o = direct_offset(i);
        assert(n[o] == 0 && n[o + 1] == 0 && n[o + 2] == 0 && n[o + 3] == 0);
    }
    crate::bytes::lemma_le_u32_outside(n, 40, u32_le_bytes(db), 88);
    crate::bytes::lemma_le_u32_outside(n, 40, u32_le_bytes(db), 92);
    crate::bytes::lemma_le_u32_outside(n, 40, u32_le_bytes(db), 96);
    crate::bytes::lemma_le_u32_outside(n, 40, u32_le_bytes(db), 4);
    assert(le_u32(n, 92) == 0 && le_u32(n, 96) == 0 && le_u32(n, 4) == 0);
    let raw = built_raw(s, t);
    if t == InodeType::Directory {
        lemma_read_after_write_u32(r1, 4, 1024);
        crate::bytes::lemma_le_u16_outside(r1, 4, u32_le_bytes(1024), 0);
        crate::bytes::lemma_le_u16_outside(r1, 4, u32_le_bytes(1024), 26);
        crate::bytes::lemma_le_u32_outside(r1, 4, u32_le_bytes(1024), 40);
        crate::bytes::lemma_le_u32_outside(r1, 4, u32_le_bytes(1024), 88);
        crate::bytes::lemma_le_u32_outside(r1, 4, u32_le_bytes(1024), 92);
        crate::bytes::lemma_le_u32_outside(r1, 4, u32_le_bytes(1024), 96);
        assert forall|i: int| 1 <= i < 12 implies le_u32(raw, #[trigger] direct_offset(i)) == 0 by {
            crate::bytes::lemma_le_u32_outside(r1, 4, u32_le_bytes(1024), direct_offset(i));
            assert(le_u32(r1, direct_offset(i)) == 0);
        }
    }
    let m = type_mode(t);
    assert(super::inode::mode_type(m) == t && m & 0x0FFF == 0) by {
        assert(0x1000u16 & 0xF000 == 0x1000 && 0x1000u16 & 0x0FFF == 0) by (bit_vector);
        assert(0x2000u16 & 0xF000 == 0x2000 && 0x2000u16 & 0x0FFF == 0) by (bit_vector);
        assert(0x4000u16 & 0xF000 == 0x4000 && 0x4000u16 & 0x0FFF == 0) by (bit_vector);
        assert(0x6000u16 & 0xF000 == 0x6000 && 0x6000u16 & 0x0FFF == 0) by (bit_vector);
        assert(0x8000u16 & 0xF000 == 0x8000 && 0x8000u16 & 0x0FFF == 0) by (bit_vector);
        assert(0xA000u16 & 0xF000 == 0xA000 && 0xA000u16 & 0x0FFF == 0) by (bit_vector);
        assert(0xC000u16 & 0xF000 == 0xC000 && 0xC000u16 & 0x0FFF == 0) by (bit_vector);
        assert(0u16 & 0xF000 == 0 && 0u16 & 0x0FFF == 0) by (bit_vector);
    }
}

} // verus!
