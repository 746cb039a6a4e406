//! What a read gives back of a write: bytes written into one block of a
//! file are read back from the same offset.
use vstd::prelude::*;
use vstd::arithmetic::power2::pow2;
use crate::bytes::{le_u32, splice, u32_le_bytes, lemma_read_after_write_u32, lemma_le_u32_outside, lemma_splice_frame};
use super::disk::{block_read, block_write, first_sector, sector_exists, sector_of, lemma_block_write_len, law_block_read_after_write};
use super::file::{block_at, min, read_run, sized_after, word_at, write_ok, write_run, Written};
use super::inode::direct_offset;
use super::volume::{VolumeState, lemma_block_size_range};

verus! {

/// Block `p` holds pointers that a write to block `cb` cannot touch: it is
/// another block, addressed below 4 GiB.
pub open spec fn apart(p: u32, cb: u32, bs: int) -> bool {
    p != cb && p * bs <= u32::MAX
}

/// The pointer blocks on the way to the block that holds byte `off` of the
/// file are all apart from block `cb`.
pub open spec fn pointers_apart(img: Seq<u8>, raw: Seq<u8>, bs: int, off: int, cb: u32) -> bool {
    let apb = bs / 4;
    let bn = off / bs;
    if bn < 12 {
        true
    } else if bn - 12 < apb {
        apart(le_u32(raw, 88), cb, bs)
    } else if bn - 12 - apb < apb * apb {
        let b2 = bn - 12 - apb;
        let ib = word_at(img, le_u32(raw, 92) * bs, b2 / apb);
        apart(le_u32(raw, 92), cb, bs) && apart(ib, cb, bs)
    } else if bn - 12 - apb - apb * apb < apb * apb * apb {
        let b3 = bn - 12 - apb - apb * apb;
        let dib = word_at(img, le_u32(raw, 96) * bs, b3 / apb / apb);
        let ib = word_at(img, dib * bs, b3 / apb % apb);
        apart(le_u32(raw, 96), cb, bs) && apart(dib, cb, bs) && apart(ib, cb, bs)
    } else {
        true
    }
}

/// Reading back a write that stays within one block of a file gives the
/// bytes written, from the offset they were written at, for a write into
/// a block the file already has.  Left out: a whole block larger than
/// 1 KiB (only 1 KiB blocks are written whole), a block whose sectors run
/// past the end of the disk, a pointer block that is the written block
/// itself or lies above 4 GiB, and an end offset that does not fit the
/// 32-bit size field.
pub proof fn law_file_write_then_read(raw: Seq<u8>, s: VolumeState, off: int, buf: Seq<u8>)
    requires
        s.log_block_size() < 22,
        raw.len() >= 100,
        0 <= off,
        0 < buf.len(),
        off % s.block_size() + buf.len() <= s.block_size(),
        buf.len() == s.block_size() ==> s.block_size() == 1024,
        off + buf.len() <= u32::MAX,
        write_ok(raw, s, off, buf, 0, buf.len() as int),
        block_at(s.img, raw, s.block_size(), off) != 0,
        sector_exists(
            s.img.len() as int,
            first_sector(block_at(s.img, raw, s.block_size(), off), s.block_size() as u32) + 1,
        ),
        pointers_apart(s.img, raw, s.block_size(), off, block_at(s.img, raw, s.block_size(), off)),
    ensures
        ({
            let w = write_run(raw, s, off, buf, 0, buf.len() as int);
            let raw2 = sized_after(w);
            read_run(w.s.img, raw2, s.block_size(), off, buf.len() as int, le_u32(raw2, 4) as int)
                == buf
        }),
{
    lemma_block_size_range(s);
    let bs = s.block_size();
    let len = buf.len() as int;
    let cb = block_at(s.img, raw, bs, off);
    vstd::arithmetic::div_mod::lemma_mod_pos_bound(off, bs);
    let bo = off % bs;
    let ws = min(bs - bo, len);
    assert(ws == len);
    let data = if ws == bs {
        buf.subrange(0, bs)
    } else {
        splice(block_read(s.img, cb, bs as u32), bo, buf.subrange(0, ws))
    };
    assert(data.len() == 1024) by {
        if ws != bs {
            assert(bo + ws <= 1024);
        }
    }
    let img2 = block_write(s.img, cb, bs as u32, data);
    let s2 = VolumeState { img: img2, ..s };
    let w = write_run(raw, s, off, buf, 0, len);
    assert(w == write_run(raw, s2, off + len, buf, len, len));
    assert(w == (Written { raw, s: s2, off: off + len, n: len, stopped: false }));
    let raw2 = sized_after(w);
    // the size field now covers the bytes written
    if off + len >= le_u32(raw, 4) {
        lemma_read_after_write_u32(raw, 4, (off + len) as u32);
        assert(raw2 == splice(raw, 4, u32_le_bytes((off + len) as u32)));
    }
    let fsize = le_u32(raw2, 4) as int;
    assert(fsize >= off + len);
    // the pointers on the way to the block are where they were
    lemma_block_write_len(s.img, cb, bs as u32, data);
    lemma_block_at_kept(s, raw, raw2, off, cb, data);
    assert(block_at(img2, raw2, bs, off) == cb);
    // the block reads back as written
    law_block_read_after_write(s.img, cb, bs as u32, data);
    assert(block_read(img2, cb, bs as u32) == data);
    assert(data.subrange(bo, bo + len) =~= buf) by {
        if ws == bs {
            assert(bo == 0);
        }
    }
    let n = min(len, min(bs - bo, fsize - off));
    assert(n == len);
    assert(read_run(img2, raw2, bs, off + len, 0, fsize) == Seq::<u8>::empty());
    assert(read_run(img2, raw2, bs, off, len, fsize) == data.subrange(bo, bo + len) + Seq::<u8>::empty());
    assert(read_run(img2, raw2, bs, off, len, fsize) =~= buf);
}

/// The block that holds byte `off` is found again after block `cb` is
/// written and the size field of the inode changed.
proof fn lemma_block_at_kept(s: VolumeState, raw: Seq<u8>, raw2: Seq<u8>, off: int, cb: u32, data: Seq<u8>)
    requires
        s.log_block_size() < 22,
        raw.len() >= 100,
        raw2 == raw || exists|v: u32| raw2 == splice(raw, 4, u32_le_bytes(v)),
        0 <= off,
        data.len() == 1024,
        cb * s.block_size() <= u32::MAX,
        pointers_apart(s.img, raw, s.block_size(), off, cb),
    ensures
        block_at(block_write(s.img, cb, s.block_size() as u32, data), raw2, s.block_size(), off)
            == block_at(s.img, raw, s.block_size(), off),
{
    lemma_block_size_range(s);
    let bs = s.block_size();
    let q = pow2(s.log_block_size() as nat) as int;
    assert(bs == 1024 * q);
    assert(q >= 1);
    let img2 = block_write(s.img, cb, bs as u32, data);
    // the pointer fields of the inode are not the size field
    assert forall|at: int| 8 <= at && at + 4 <= raw.len() implies le_u32(raw2, at) == le_u32(raw, at) by {
        if raw2 != raw {
            let v = choose|v: u32| raw2 == splice(raw, 4, u32_le_bytes(v));
            lemma_le_u32_outside(raw, 4, u32_le_bytes(v), at);
        }
    }
    let apb = bs / 4;
    let bn = off / bs;
    assert(apb == 256 * q);
    if bn < 12 {
        assert(le_u32(raw2, direct_offset(bn)) == le_u32(raw, direct_offset(bn)));
    } else if bn - 12 < apb {
        let p = le_u32(raw, 88);
        assert(le_u32(raw2, 88) == p);
        lemma_word_kept(s.img, cb, q, data, p, bn - 12);
    } else if bn - 12 - apb < apb * apb {
        let b2 = bn - 12 - apb;
        let p = le_u32(raw, 92);
        assert(le_u32(raw2, 92) == p);
        vstd::arithmetic::div_mod::lemma_div_pos_is_pos(b2, apb);
        vstd::arithmetic::div_mod::lemma_multiply_divide_lt(b2, apb, apb);
        lemma_word_kept(s.img, cb, q, data, p, b2 / apb);
        let ib = word_at(s.img, p * bs, b2 / apb);
        vstd::arithmetic::div_mod::lemma_mod_pos_bound(b2, apb);
        lemma_word_kept(s.img, cb, q, data, ib, b2 % apb);
    } else if bn - 12 - apb - apb * apb < apb * apb * apb {
        let b3 = bn - 12 - apb - apb * apb;
        let p = le_u32(raw, 96);
        assert(le_u32(raw2, 96) == p);
        assert(apb * apb * apb == (apb * apb) * apb) by (nonlinear_arith);
        vstd::arithmetic::div_mod::lemma_div_pos_is_pos(b3, apb);
        vstd::arithmetic::div_mod::lemma_multiply_divide_lt(b3, apb, apb * apb);
        vstd::arithmetic::div_mod::lemma_div_pos_is_pos(b3 / apb, apb);
        vstd::arithmetic::div_mod::lemma_multiply_divide_lt(b3 / apb, apb, apb);
        lemma_word_kept(s.img, cb, q, data, p, b3 / apb / apb);
        let dib = word_at(s.img, p * bs, b3 / apb / apb);
        vstd::arithmetic::div_mod::lemma_mod_pos_bound(b3 / apb, apb);
        lemma_word_kept(s.img, cb, q, data, dib, b3 / apb % apb);
        let ib = word_at(s.img, dib * bs, b3 / apb % apb);
        vstd::arithmetic::div_mod::lemma_mod_pos_bound(b3, apb);
        lemma_word_kept(s.img, cb, q, data, ib, b3 % apb);
    }
}

/// Writing block `cb` leaves the pointers read from another block `p`
/// as they were.
proof fn lemma_word_kept(img: Seq<u8>, cb: u32, q: int, data: Seq<u8>, p: u32, k: int)
    requires
        1 <= q <= 0x20_0000,
        data.len() == 1024,
        cb * (1024 * q) <= u32::MAX,
        apart(p, cb, 1024 * q),
        0 <= k < 256 * q,
    ensures
        word_at(block_write(img, cb, (1024 * q) as u32, data), p * (1024 * q), k) == word_at(
            img,
            p * (1024 * q),
            k,
        ),
{
    let bs = 1024 * q;
    let img2 = block_write(img, cb, bs as u32, data);
    lemma_block_write_len(img, cb, bs as u32, data);
    let ra = p * bs + k * 4;
    let c1 = first_sector(cb, bs as u32);
    assert(c1 == 2 * (cb * q)) by (nonlinear_arith)
        requires
            c1 == (cb * (bs as u32)) / 512,
            bs == 1024 * q,
            bs as u32 == bs,
    ;
    let sec = ra / 512;
    assert(2 * (p * q) <= sec < 2 * (p * q) + 2 * q) by (nonlinear_arith)
        requires
            sec == (p * (1024 * q) + k * 4) / 512,
            0 <= k < 256 * q,
            p >= 0,
    ;
    assert(sec != c1 && sec != c1 + 1) by (nonlinear_arith)
        requires
            2 * (p * q) <= sec < 2 * (p * q) + 2 * q,
            c1 == 2 * (cb * q),
            p != cb,
            q >= 1,
            p >= 0,
            cb >= 0,
    {
        if p < cb {
            assert(p * q + q <= cb * q);
        } else {
            assert(cb * q + q <= p * q);
        }
    }
    assert(sec < 0x1_0000_0000) by (nonlinear_arith)
        requires
            sec == (p * (1024 * q) + k * 4) / 512,
            p * (1024 * q) <= u32::MAX,
            0 <= k < 256 * q,
            q <= 0x20_0000,
    ;
    assert((ra / 512) as u32 == sec);
    if sector_exists(img.len() as int, sec) {
        assert(sector_of(img2, sec) =~= sector_of(img, sec)) by {
            let w1 = super::disk::write_sector_image(img, c1, data.subrange(0, 512));
            if sector_exists(img.len() as int, c1) {
                lemma_splice_frame(img, c1 * 512, data.subrange(0, 512));
            }
            if sector_exists(w1.len() as int, c1 + 1) {
                lemma_splice_frame(w1, (c1 + 1) * 512, data.subrange(512, 1024));
            }
            assert forall|i: int| 0 <= i < 512 implies sector_of(img2, sec)[i] == sector_of(img, sec)[i] by {
                let j = sec * 512 + i;
                assert(!(c1 * 512 <= j < c1 * 512 + 512)) by (nonlinear_arith)
                    requires
                        j == sec * 512 + i,
                        0 <= i < 512,
                        sec != c1,
                ;
                assert(!((c1 + 1) * 512 <= j < (c1 + 1) * 512 + 512)) by (nonlinear_arith)
                    requires
                        j == sec * 512 + i,
                        0 <= i < 512,
                        sec != c1 + 1,
                ;
            }
        }
    }
}

} // verus!
