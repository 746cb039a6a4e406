//! Little-endian integer fields inside byte buffers.
use vstd::prelude::*;

verus! {

/// The little-endian `u16` stored at `off`.
pub open spec fn le_u16(s: Seq<u8>, off: int) -> u16 {
    (s[off] + s[off + 1] * 0x100) as u16
}

/// The little-endian `u32` stored at `off`.
pub open spec fn le_u32(s: Seq<u8>, off: int) -> u32 {
    (s[off] + s[off + 1] * 0x100 + s[off + 2] * 0x1_0000 + s[off + 3] * 0x100_0000) as u32
}

/// The little-endian `u64` stored at `off`.
pub open spec fn le_u64(s: Seq<u8>, off: int) -> u64 {
    (le_u32(s, off) + le_u32(s, off + 4) * 0x1_0000_0000) as u64
}

/// The sum of all bytes of `s`.
pub open spec fn byte_sum(s: Seq<u8>) -> nat
    decreases s.len(),
{
    if s.len() == 0 {
        0
    } else {
        byte_sum(s.drop_last()) + s.last() as nat
    }
}

/// A byte sum is at most 255 per byte.
pub proof fn lemma_byte_sum_bound(s: Seq<u8>)
    ensures
        byte_sum(s) <= 255 * s.len(),
    decreases s.len(),
{
    if s.len() > 0 {
        lemma_byte_sum_bound(s.drop_last());
    }
}

/// The four little-endian bytes of `v`.
pub open spec fn u32_le_bytes(v: u32) -> Seq<u8> {
    seq![
        (v % 0x100) as u8,
        ((v / 0x100) % 0x100) as u8,
        ((v / 0x1_0000) % 0x100) as u8,
        (v / 0x100_0000) as u8,
    ]
}

/// The two little-endian bytes of `v`.
pub open spec fn u16_le_bytes(v: u16) -> Seq<u8> {
    seq![(v % 0x100) as u8, (v / 0x100) as u8]
}

/// `s` with the bytes from `off` on replaced by `b`.
pub open spec fn splice(s: Seq<u8>, off: int, b: Seq<u8>) -> Seq<u8> {
    s.take(off) + b + s.skip(off + b.len())
}

pub proof fn lemma_le_u32_bytes(v: u32)
    ensures
        le_u32(u32_le_bytes(v), 0) == v,
{
    let b = u32_le_bytes(v);
    let x = v as int;
    assert((x % 0x100) + ((x / 0x100) % 0x100) * 0x100 + ((x / 0x1_0000) % 0x100) * 0x1_0000 + (x
        / 0x100_0000) * 0x100_0000 == x && x / 0x100_0000 < 0x100) by (nonlinear_arith)
        requires
            0 <= x <= 0xFFFF_FFFF,
    ;
}

pub proof fn lemma_le_u16_bytes(v: u16)
    ensures
        le_u16(u16_le_bytes(v), 0) == v,
{
    let x = v as int;
    assert((x % 0x100) + (x / 0x100) * 0x100 == x && x / 0x100 < 0x100) by (nonlinear_arith)
        requires
            0 <= x <= 0xFFFF,
    ;
}

/// Reading a field back after writing it gives the value written.
pub proof fn lemma_read_after_write_u32(s: Seq<u8>, off: int, v: u32)
    requires
        0 <= off,
        off + 4 <= s.len(),
    ensures
        splice(s, off, u32_le_bytes(v)).len() == s.len(),
        le_u32(splice(s, off, u32_le_bytes(v)), off) == v,
{
    let t = splice(s, off, u32_le_bytes(v));
    lemma_le_u32_bytes(v);
    assert(t[off] == u32_le_bytes(v)[0]);
    assert(t[off + 1] == u32_le_bytes(v)[1]);
    assert(t[off + 2] == u32_le_bytes(v)[2]);
    assert(t[off + 3] == u32_le_bytes(v)[3]);
}

/// Reading a field back after writing it gives the value written.
pub proof fn lemma_read_after_write_u16(s: Seq<u8>, off: int, v: u16)
    requires
        0 <= off,
        off + 2 <= s.len(),
    ensures
        splice(s, off, u16_le_bytes(v)).len() == s.len(),
        le_u16(splice(s, off, u16_le_bytes(v)), off) == v,
{
    let t = splice(s, off, u16_le_bytes(v));
    lemma_le_u16_bytes(v);
    assert(t[off] == u16_le_bytes(v)[0]);
    assert(t[off + 1] == u16_le_bytes(v)[1]);
}

/// A splice keeps the length and every byte outside the replaced range.
pub proof fn lemma_splice_frame(s: Seq<u8>, off: int, b: Seq<u8>)
    requires
        0 <= off,
        off + b.len() <= s.len(),
    ensures
        splice(s, off, b).len() == s.len(),
        forall|i: int|
            0 <= i < s.len() && !(off <= i < off + b.len()) ==> #[trigger] splice(s, off, b)[i]
                == s[i],
        forall|i: int| 0 <= i < b.len() ==> #[trigger] splice(s, off, b)[off + i] == b[i],
{
    let t = splice(s, off, b);
    assert forall|i: int| 0 <= i < s.len() && !(off <= i < off + b.len()) implies #[trigger] t[i]
        == s[i] by {
        if i < off {
            assert(t[i] == s.take(off)[i]);
        } else {
            assert(t[i] == s.skip(off + b.len())[i - off - b.len()]);
        }
    }
    assert forall|i: int| 0 <= i < b.len() implies #[trigger] t[off + i] == b[i] by {
        assert(t[off + i] == (s.take(off) + b)[off + i]);
    }
}

/// A field that lies outside a splice reads the same after it.
pub proof fn lemma_le_u32_outside(s: Seq<u8>, off: int, b: Seq<u8>, at: int)
    requires
        0 <= off,
        off + b.len() <= s.len(),
        0 <= at,
        at + 4 <= s.len(),
        at + 4 <= off || off + b.len() <= at,
    ensures
        le_u32(splice(s, off, b), at) == le_u32(s, at),
{
    lemma_splice_frame(s, off, b);
    let t = splice(s, off, b);
    assert(t[at] == s[at]);
    assert(t[at + 1] == s[at + 1]);
    assert(t[at + 2] == s[at + 2]);
    assert(t[at + 3] == s[at + 3]);
}

/// A field that lies outside a splice reads the same after it.
pub proof fn lemma_le_u16_outside(s: Seq<u8>, off: int, b: Seq<u8>, at: int)
    requires
        0 <= off,
        off + b.len() <= s.len(),
        0 <= at,
        at + 2 <= s.len(),
        at + 2 <= off || off + b.len() <= at,
    ensures
        le_u16(splice(s, off, b), at) == le_u16(s, at),
{
    lemma_splice_frame(s, off, b);
    let t = splice(s, off, b);
    assert(t[at] == s[at]);
    assert(t[at + 1] == s[at + 1]);
}

/// Reads the little-endian `u32` at `off`.
pub fn read_u32_le(s: &[u8], off: usize) -> (v: u32)
    requires
        off + 4 <= s@.len(),
    ensures
        v == le_u32(s@, off as int),
{
    let b0 = s[off] as u32;
    let b1 = s[off + 1] as u32;
    let b2 = s[off + 2] as u32;
    let b3 = s[off + 3] as u32;
    assert(b0 < 0x100 && b1 < 0x100 && b2 < 0x100 && b3 < 0x100);
    assert(b0 + b1 * 0x100 + b2 * 0x1_0000 + b3 * 0x100_0000 <= 0xFFFF_FFFF) by (nonlinear_arith)
        requires
            b0 < 0x100,
            b1 < 0x100,
            b2 < 0x100,
            b3 < 0x100,
    ;
    b0 + b1 * 0x100 + b2 * 0x1_0000 + b3 * 0x100_0000
}

/// Reads the little-endian `u64` at `off`.
pub fn read_u64_le(s: &[u8], off: usize) -> (v: u64)
    requires
        off + 8 <= s@.len(),
    ensures
        v == le_u64(s@, off as int),
{
    let n = s.len();
    let lo = read_u32_le(s, off) as u64;
    let hi = read_u32_le(s, off + 4) as u64;
    assert(lo + hi * 0x1_0000_0000 <= 0xFFFF_FFFF_FFFF_FFFF) by (nonlinear_arith)
        requires
            lo <= 0xFFFF_FFFF,
            hi <= 0xFFFF_FFFF,
    ;
    lo + hi * 0x1_0000_0000
}

/// The sum of the bytes `s[lo..hi]`.
pub fn sum_bytes(s: &[u8], lo: usize, hi: usize) -> (sum: u32)
    requires
        lo <= hi <= s@.len(),
        hi - lo <= 0x100_0000,
    ensures
        sum == byte_sum(s@.subrange(lo as int, hi as int)),
{
    let mut sum: u32 = 0;
    let mut i: usize = lo;
    while i < hi
        invariant
            lo <= i <= hi <= s@.len(),
            hi - lo <= 0x100_0000,
            sum == byte_sum(s@.subrange(lo as int, i as int)),
        decreases hi - i,
    {
        proof {
            let t = s@.subrange(lo as int, i as int + 1);
            assert(t.drop_last() =~= s@.subrange(lo as int, i as int));
            lemma_byte_sum_bound(s@.subrange(lo as int, i as int));
        }
        sum = sum + s[i] as u32;
        i = i + 1;
    }
    sum
}

/// Reads the little-endian `u16` at `off`.
pub fn read_u16_le(s: &[u8], off: usize) -> (v: u16)
    requires
        off + 2 <= s@.len(),
    ensures
        v == le_u16(s@, off as int),
{
    let b0 = s[off] as u16;
    let b1 = s[off + 1] as u16;
    b0 + b1 * 0x100
}

/// Writes `v` as a little-endian `u32` at `off`.
pub fn write_u32_le(s: &mut Vec<u8>, off: usize, v: u32)
    requires
        off + 4 <= old(s)@.len(),
    ensures
        final(s)@ == splice(old(s)@, off as int, u32_le_bytes(v)),
{
    let len = s.len();
    assert(off + 4 <= len);
    s.set(off, (v % 0x100) as u8);
    s.set(off + 1, ((v / 0x100) % 0x100) as u8);
    s.set(off + 2, ((v / 0x1_0000) % 0x100) as u8);
    s.set(off + 3, (v / 0x100_0000) as u8);
    assert(s@ =~= splice(old(s)@, off as int, u32_le_bytes(v)));
}

/// Writes `v` as a little-endian `u16` at `off`.
pub fn write_u16_le(s: &mut Vec<u8>, off: usize, v: u16)
    requires
        off + 2 <= old(s)@.len(),
    ensures
        final(s)@ == splice(old(s)@, off as int, u16_le_bytes(v)),
{
    let len = s.len();
    assert(off + 2 <= len);
    s.set(off, (v % 0x100) as u8);
    s.set(off + 1, (v / 0x100) as u8);
    assert(s@ =~= splice(old(s)@, off as int, u16_le_bytes(v)));
}

/// Copies `src` into `dst` from `off` on.
pub fn copy_into(dst: &mut Vec<u8>, off: usize, src: &[u8])
    requires
        off + src@.len() <= old(dst)@.len(),
    ensures
        final(dst)@ == splice(old(dst)@, off as int, src@),
{
    let n = src.len();
    let len = dst.len();
    let mut i: usize = 0;
    while i < n
        invariant
            n == src@.len(),
            len == dst@.len(),
            off + n <= dst@.len(),
            dst@.len() == old(dst)@.len(),
            0 <= i <= n,
            forall|j: int| 0 <= j < off ==> dst@[j] == old(dst)@[j],
            forall|j: int| off + n <= j < dst@.len() ==> dst@[j] == old(dst)@[j],
            forall|j: int| 0 <= j < i ==> dst@[off + j] == src@[j],
            forall|j: int| off + i <= j < off + n ==> dst@[j] == old(dst)@[j],
        decreases n - i,
    {
        dst.set(off + i, src[i]);
        i = i + 1;
    }
    assert(dst@ =~= splice(old(dst)@, off as int, src@));
}

/// A second splice over the same range replaces the first.
pub proof fn lemma_splice_twice(s: Seq<u8>, off: int, a: Seq<u8>, b: Seq<u8>)
    requires
        0 <= off,
        a.len() == b.len(),
        off + a.len() <= s.len(),
    ensures
        splice(splice(s, off, a), off, b) == splice(s, off, b),
{
    assert(splice(splice(s, off, a), off, b) =~= splice(s, off, b));
}

/// Splicing in the bytes already there changes nothing.
pub proof fn lemma_splice_same(s: Seq<u8>, off: int, len: int)
    requires
        0 <= off,
        0 <= len,
        off + len <= s.len(),
    ensures
        splice(s, off, s.subrange(off, off + len)) == s,
{
    assert(splice(s, off, s.subrange(off, off + len)) =~= s);
}

/// The bytes of the `u32` stored at `off` are the bytes at `off`.
pub proof fn lemma_u32_bytes_of(s: Seq<u8>, off: int)
    requires
        0 <= off,
        off + 4 <= s.len(),
    ensures
        u32_le_bytes(le_u32(s, off)) == s.subrange(off, off + 4),
{
    let (b0, b1, b2, b3) = (s[off] as int, s[off + 1] as int, s[off + 2] as int, s[off + 3] as int);
    let v = b0 + b1 * 0x100 + b2 * 0x1_0000 + b3 * 0x100_0000;
    assert(v % 0x100 == b0 && (v / 0x100) % 0x100 == b1 && (v / 0x1_0000) % 0x100 == b2 && v
        / 0x100_0000 == b3 && v <= 0xFFFF_FFFF) by (nonlinear_arith)
        requires
            0 <= b0 < 0x100,
            0 <= b1 < 0x100,
            0 <= b2 < 0x100,
            0 <= b3 < 0x100,
            v == b0 + b1 * 0x100 + b2 * 0x1_0000 + b3 * 0x100_0000,
    ;
    assert(le_u32(s, off) as int == v);
    assert(u32_le_bytes(le_u32(s, off)) =~= s.subrange(off, off + 4));
}

/// The bytes of the `u16` stored at `off` are the bytes at `off`.
pub proof fn lemma_u16_bytes_of(s: Seq<u8>, off: int)
    requires
        0 <= off,
        off + 2 <= s.len(),
    ensures
        u16_le_bytes(le_u16(s, off)) == s.subrange(off, off + 2),
{
    let (b0, b1) = (s[off] as int, s[off + 1] as int);
    let v = b0 + b1 * 0x100;
    assert(v % 0x100 == b0 && v / 0x100 == b1 && v <= 0xFFFF) by (nonlinear_arith)
        requires
            0 <= b0 < 0x100,
            0 <= b1 < 0x100,
            v == b0 + b1 * 0x100,
    ;
    assert(le_u16(s, off) as int == v);
    assert(u16_le_bytes(le_u16(s, off)) =~= s.subrange(off, off + 2));
}

} // verus!
