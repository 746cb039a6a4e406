//! Where the bytes of a file and the entries of a path are found, stated
//! directly in terms of the ext2 on-disk layout.
use vstd::prelude::*;
use crate::bytes::le_u32;
use super::disk::{sector_exists, sector_of};
use super::file::{block_at, word_at};
use super::volume::VolumeState;
use super::inode::{direct_offset, mode_type, InodeType};
use super::dir::{dir_entries, first_named};
use super::path::{inode_raw, path_entry, root_id, split_on, walk_path};
use crate::bytes::le_u16;

verus! {

/// Block `p` of `bs` bytes lies wholly on the image, below 2 TiB (where
/// sector numbers fit 32 bits).
pub open spec fn block_on_image(img: Seq<u8>, p: u32, bs: int) -> bool {
    &&& p * bs + bs <= img.len()
    &&& p * bs + bs <= 0x200_0000_0000
}

/// Entry `k` of the pointer block at byte `a` is the little-endian word at
/// byte `a + 4k` of the image, when the block is on the image.
proof fn lemma_word_at_image(img: Seq<u8>, p: u32, bs: int, k: int)
    requires
        bs % 512 == 0,
        512 <= bs,
        0 <= k,
        4 * k + 4 <= bs,
        block_on_image(img, p, bs),
    ensures
        word_at(img, p * bs, k) == le_u32(img, p * bs + 4 * k),
{
    let a = p * bs;
    let ra = a + k * 4;
    assert(a % 512 == 0) by {
        let m = bs / 512;
        vstd::arithmetic::div_mod::lemma_fundamental_div_mod(bs, 512);
        assert(a == (p * m) * 512) by (nonlinear_arith)
            requires
                a == p * bs,
                bs == 512 * m,
        ;
        vstd::arithmetic::div_mod::lemma_mod_multiples_basic(p * m, 512);
    }
    let sec = ra / 512;
    let off = ra % 512;
    assert(sec * 512 + off == ra && 0 <= off < 512) by (nonlinear_arith)
        requires
            sec == ra / 512,
            off == ra % 512,
            ra >= 0,
    ;
    assert(off + 4 <= 512 && sec * 512 + 512 <= a + bs) by (nonlinear_arith)
        requires
            sec * 512 + off == ra,
            0 <= off < 512,
            ra == a + k * 4,
            a % 512 == 0,
            bs % 512 == 0,
            4 * k + 4 <= bs,
            a >= 0,
            k >= 0,
    {
        let q = a / 512;
        assert(a == q * 512);
        let kk = (k * 4) / 512;
        let r = (k * 4) % 512;
        assert(k * 4 == kk * 512 + r);
        assert(ra == (q + kk) * 512 + r);
        assert(sec == q + kk && off == r);
        assert(r % 4 == 0);
        let m = bs / 512;
        assert(bs == m * 512);
        assert(kk < m);
    }
    assert(sec < 0x1_0000_0000);
    assert((ra / 512) as u32 == sec);
    assert(sector_exists(img.len() as int, sec));
    let buf = sector_of(img, sec);
    assert(buf[off] == img[ra] && buf[off + 1] == img[ra + 1] && buf[off + 2] == img[ra + 2]
        && buf[off + 3] == img[ra + 3]);
    assert(k * 4 == 4 * k);
}

/// The block that holds byte `off` of a file, as the ext2 layout defines
/// it: one of the twelve direct pointers of the inode (bytes 40..88) for
/// the first twelve blocks; for the next `bs/4` blocks, the word at entry
/// `off/bs - 12` of the singly indirect block (inode bytes 88..92); for the
/// next `(bs/4)^2`, the doubly indirect block (inode bytes 92..96) names an
/// indirect block at entry `(off/bs - 12 - bs/4) / (bs/4)`, whose entry
/// `(off/bs - 12 - bs/4) % (bs/4)` names the block.
pub proof fn law_block_lookup(img: Seq<u8>, raw: Seq<u8>, bs: int, off: int)
    requires
        bs % 1024 == 0,
        1024 <= bs,
        0 <= off,
    ensures
        off / bs < 12 ==> block_at(img, raw, bs, off) == le_u32(raw, 40 + 4 * (off / bs)),
        12 <= off / bs < 12 + bs / 4 && block_on_image(img, le_u32(raw, 88), bs) ==> block_at(
            img,
            raw,
            bs,
            off,
        ) == le_u32(img, le_u32(raw, 88) * bs + 4 * (off / bs - 12)),
        ({
            let apb = bs / 4;
            let b2 = off / bs - 12 - apb;
            let dind = le_u32(raw, 92);
            let ib = le_u32(img, dind * bs + 4 * (b2 / apb));
            (0 <= b2 < apb * apb && block_on_image(img, dind, bs) && block_on_image(img, ib, bs))
                ==> block_at(img, raw, bs, off) == le_u32(img, ib * bs + 4 * (b2 % apb))
        }),
        ({
            let apb = bs / 4;
            let b3 = off / bs - 12 - apb - apb * apb;
            let tind = le_u32(raw, 96);
            let dib = le_u32(img, tind * bs + 4 * (b3 / apb / apb));
            let ib = le_u32(img, dib * bs + 4 * (b3 / apb % apb));
            (0 <= b3 < apb * apb * apb && block_on_image(img, tind, bs) && block_on_image(img, dib, bs)
                && block_on_image(img, ib, bs)) ==> block_at(img, raw, bs, off) == le_u32(
                img,
                ib * bs + 4 * (b3 % apb),
            )
        }),
{
    let apb = bs / 4;
    let bn = off / bs;
    assert(apb * 4 == bs);
    vstd::arithmetic::div_mod::lemma_div_pos_is_pos(off, bs);
    if bn < 12 {
        assert(direct_offset(bn) == 40 + 4 * bn);
    } else if bn - 12 < apb {
        if block_on_image(img, le_u32(raw, 88), bs) {
            lemma_word_at_image(img, le_u32(raw, 88), bs, bn - 12);
        }
    }
    let b2 = bn - 12 - apb;
    let dind = le_u32(raw, 92);
    let ib = le_u32(img, dind * bs + 4 * (b2 / apb));
    if 0 <= b2 < apb * apb && block_on_image(img, dind, bs) && block_on_image(img, ib, bs) {
        vstd::arithmetic::div_mod::lemma_div_pos_is_pos(b2, apb);
        vstd::arithmetic::div_mod::lemma_multiply_divide_lt(b2, apb, apb);
        vstd::arithmetic::div_mod::lemma_mod_pos_bound(b2, apb);
        lemma_word_at_image(img, dind, bs, b2 / apb);
        lemma_word_at_image(img, ib, bs, b2 % apb);
    }
    let b3 = bn - 12 - apb - apb * apb;
    let tind = le_u32(raw, 96);
    let dib = le_u32(img, tind * bs + 4 * (b3 / apb / apb));
    let ib3 = le_u32(img, dib * bs + 4 * (b3 / apb % apb));
    if 0 <= b3 < apb * apb * apb && block_on_image(img, tind, bs) && block_on_image(img, dib, bs)
        && block_on_image(img, ib3, bs) {
        assert(apb * apb * apb == (apb * apb) * apb) by (nonlinear_arith);
        vstd::arithmetic::div_mod::lemma_div_pos_is_pos(b3, apb);
        vstd::arithmetic::div_mod::lemma_multiply_divide_lt(b3, apb, apb * apb);
        vstd::arithmetic::div_mod::lemma_div_pos_is_pos(b3 / apb, apb);
        vstd::arithmetic::div_mod::lemma_multiply_divide_lt(b3 / apb, apb, apb);
        vstd::arithmetic::div_mod::lemma_mod_pos_bound(b3 / apb, apb);
        vstd::arithmetic::div_mod::lemma_mod_pos_bound(b3, apb);
        lemma_word_at_image(img, tind, bs, b3 / apb / apb);
        lemma_word_at_image(img, dib, bs, b3 / apb % apb);
        lemma_word_at_image(img, ib3, bs, b3 % apb);
        assert(bn - 12 - apb >= apb * apb);
    }
}

/// `name` holds no `/`.
pub open spec fn no_slash(name: Seq<u8>) -> bool {
    forall|i: int| 0 <= i < name.len() ==> name[i] != 47u8
}

/// Splitting `x + y`, where `y` holds no `/`, extends the last piece of `x`.
proof fn lemma_split_append(x: Seq<u8>, y: Seq<u8>)
    requires
        no_slash(y),
    ensures
        split_on(x + y, 47u8) == split_on(x, 47u8).update(
            split_on(x, 47u8).len() - 1,
            split_on(x, 47u8).last() + y,
        ),
    decreases y.len(),
{
    super::path::lemma_split_on_nonempty(x, 47u8);
    let p = split_on(x, 47u8);
    if y.len() == 0 {
        assert(x + y =~= x);
        assert(p.last() + y =~= p.last());
        assert(p.update(p.len() - 1, p.last() + y) =~= p);
    } else {
        let yd = y.drop_last();
        assert(no_slash(yd)) by {
            assert forall|i: int| 0 <= i < yd.len() implies yd[i] != 47u8 by {
                assert(yd[i] == y[i]);
            }
        }
        lemma_split_append(x, yd);
        assert((x + y).drop_last() =~= x + yd);
        assert((x + y).last() == y.last());
        assert(y.last() != 47u8) by {
            assert(y[y.len() - 1] == y.last());
        }
        let q = split_on(x + yd, 47u8);
        assert(q == p.update(p.len() - 1, p.last() + yd));
        assert(split_on(x + y, 47u8) == q.update(q.len() - 1, q.last().push(y.last())));
        assert(q.last() == p.last() + yd);
        assert((p.last() + yd).push(y.last()) =~= p.last() + y);
        assert(split_on(x + y, 47u8) =~= p.update(p.len() - 1, p.last() + y));
    }
}

/// A name without `/` is one piece; `a/b` is the two pieces `a` and `b`.
proof fn lemma_split_names(a: Seq<u8>, b: Seq<u8>)
    requires
        no_slash(a),
        no_slash(b),
    ensures
        split_on(a, 47u8) == seq![a],
        split_on(a + seq![47u8] + b, 47u8) == seq![a, b],
{
    lemma_split_append(Seq::<u8>::empty(), a);
    assert(Seq::<u8>::empty() + a =~= a);
    assert(split_on(Seq::<u8>::empty(), 47u8) == seq![Seq::<u8>::empty()]);
    assert(Seq::<u8>::empty() + a =~= a);
    assert(seq![Seq::<u8>::empty()].update(0, Seq::<u8>::empty() + a) =~= seq![a]);
    let a1 = a + seq![47u8];
    assert(a1.drop_last() =~= a);
    assert(a1.last() == 47u8);
    assert(split_on(a1, 47u8) == seq![a].push(Seq::<u8>::empty()));
    lemma_split_append(a1, b);
    assert(seq![a].push(Seq::<u8>::empty()).update(1, Seq::<u8>::empty() + b) =~= seq![a, b]);
}

/// Looking a path up, as the directory tree defines it: a single name is
/// looked up among the entries of the root directory; for `a/b`, `b` is
/// looked up among the entries of the directory that `a` names there, and
/// nothing is found when `a` is not there.
pub proof fn law_path_lookup(s: VolumeState, a: Seq<u8>, b: Seq<u8>)
    requires
        a.len() > 0,
        b.len() > 0,
        no_slash(a),
        no_slash(b),
        mode_type(le_u16(inode_raw(s, root_id()), 0)) == InodeType::Directory,
    ensures
        ({
            let bs = s.block_size() as u32;
            let root_entries = dir_entries(s.img, inode_raw(s, root_id()), bs);
            &&& path_entry(s, a) == first_named(root_entries, a)
            &&& match first_named(root_entries, a) {
                None => path_entry(s, a + seq![47u8] + b) is None,
                Some(e) => mode_type(le_u16(inode_raw(s, e.inode as int), 0)) == InodeType::Directory
                    ==> path_entry(s, a + seq![47u8] + b) == first_named(
                    dir_entries(s.img, inode_raw(s, e.inode as int), bs),
                    b,
                ),
            }
        }),
{
    lemma_split_names(a, b);
    let root = inode_raw(s, root_id());
    let bs = s.block_size() as u32;
    let one = seq![a];
    let two = seq![a, b];
    assert(one[0] == a);
    assert(two[0] == a && two[1] == b);
    assert(path_entry(s, a) == walk_path(s, one, 0, root, 0));
    assert(path_entry(s, a + seq![47u8] + b) == walk_path(s, two, 0, root, 0));
    match first_named(dir_entries(s.img, root, bs), a) {
        None => {},
        Some(e) => {
            let sub = inode_raw(s, e.inode as int);
            assert(walk_path(s, two, 0, root, 0) == walk_path(s, two, 1, sub, 1));
            if mode_type(le_u16(sub, 0)) == InodeType::Directory {
                match first_named(dir_entries(s.img, sub, bs), b) {
                    None => {},
                    Some(e2) => {},
                }
            }
        },
    }
}

} // verus!
