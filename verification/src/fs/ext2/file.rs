//! Open files: finding the block that holds a byte of the file, reading and
//! writing from the current offset, and seeking.
use vstd::prelude::*;
use vstd::string::StringSliceAdditionalSpecFns;
use crate::bytes::{le_u16, le_u32, read_u32_le, splice};
use super::block_alloc::{grow, can_grow, Grown};
use super::dir::{DirEntry, EntryView, opt_view};
use super::disk::{block_addressable, block_read, block_write, read_1kb_block, write_1kb_block, sector_exists, sector_of, lemma_block_write_len, Disk};
use super::dir_add::zeros;
use super::create::parent_view;
use super::inode::{Inode, InodeType, InodeView, direct_offset, loadable, mode_type};
use super::inode_blocks::written_back;
use super::path::{find_by_path, inode_raw, path_entry, path_ok};
use super::volume::{Volume, VolumeState, same_geometry, lemma_block_size_range, lemma_same_geometry_refl, lemma_same_geometry_trans, lemma_same_geometry_facts, lemma_same_geometry_img, lemma_wf_img};

verus! {

/// Why a file cannot be opened.
#[derive(Debug, Clone, Copy, PartialEq, Eq, Structural)]
pub enum FileError {
    NotFound,
    NotAFile,
}

/// An open regular file and the offset of the next read or write.
pub struct File {
    pub inode: Inode,
    pub offset: usize,
}

/// Entry `bn` of the block whose byte address is `address`, read through
/// the 512-byte sector that holds it (a sector that cannot be read reads as
/// zeros).
pub open spec fn word_at(img: Seq<u8>, address: int, bn: int) -> u32 {
    let ra = address + bn * 4;
    let sec = (ra / 512) as u32;
    let buf = if sector_exists(img.len() as int, sec as int) {
        sector_of(img, sec as int)
    } else {
        zeros(512)
    };
    le_u32(buf, ra % 512)
}

/// The block that holds byte `offset` of the file whose inode bytes are
/// `raw`: through the direct pointers, then the indirect, doubly and triply
/// indirect blocks; 0 past the largest file.
pub open spec fn block_at(img: Seq<u8>, raw: Seq<u8>, bs: int, offset: int) -> u32 {
    let apb = bs / 4;
    let bn = offset / bs;
    if bn < 12 {
        le_u32(raw, direct_offset(bn))
    } else if bn - 12 < apb {
        word_at(img, le_u32(raw, 88) * bs, bn - 12)
    } else if bn - 12 - apb < apb * apb {
        let b2 = bn - 12 - apb;
        let ib = word_at(img, le_u32(raw, 92) * bs, b2 / apb);
        word_at(img, ib * bs, b2 % apb)
    } else if bn - 12 - apb - apb * apb < apb * apb * apb {
        let b3 = bn - 12 - apb - apb * apb;
        let dib = word_at(img, le_u32(raw, 96) * bs, b3 / apb / apb);
        let ib = word_at(img, dib * bs, b3 / apb % apb);
        word_at(img, ib * bs, b3 % apb)
    } else {
        0
    }
}

/// Looking a block up stays within the machine's arithmetic.
pub open spec fn block_at_ok(bs: int, offset: int) -> bool {
    let apb = bs / 4;
    let bn = offset / bs;
    bn - 12 - apb - apb * apb >= 0 ==> apb * apb * apb <= u64::MAX
}

/// Reads entry `block_number` of the block whose byte address is `address`.
fn get_block_in_address(disk: &Disk, address: u64, block_number: u64) -> (w: u32)
    requires
        address + block_number * 4 <= u64::MAX,
        address % 4 == 0,
    ensures
        w == word_at(disk@, address as int, block_number as int),
{
    let read_address = address + block_number * 4;
    let read_block = read_address / 512;
    let read_offset = (read_address % 512) as usize;
    assert(read_address % 512 <= 508) by (nonlinear_arith)
        requires
            read_address == address + block_number * 4,
            address % 4 == 0,
    ;
    let mut inode_buf: Vec<u8> = vec![0u8; 512];
    assert(inode_buf@ =~= zeros(512));
    let _ = disk.read(read_block as u32, &mut inode_buf);
    read_u32_le(inode_buf.as_slice(), read_offset)
}


/// Bytes read from the file whose inode bytes are `raw` and whose size is
/// `fsize`, from offset `off`, at most `want` of them: block by block,
/// stopping at the end of the file or at a block that is not there.
pub open spec fn read_run(img: Seq<u8>, raw: Seq<u8>, bs: int, off: int, want: int, fsize: int) -> Seq<u8>
    decreases want,
{
    if want <= 0 || off >= fsize || bs <= 0 || off < 0 {
        seq![]
    } else {
        let b = block_at(img, raw, bs, off);
        if b == 0 {
            seq![]
        } else {
            let bo = off % bs;
            let n = min(want, min(bs - bo, fsize - off));
            block_read(img, b, bs as u32).subrange(bo, bo + n) + read_run(
                img,
                raw,
                bs,
                off + n,
                want - n,
                fsize,
            )
        }
    }
}

/// Reading meets no fault: each block looked up can be found and read, and
/// each piece read lies in the 1 KiB read.
pub open spec fn read_ok(img: Seq<u8>, raw: Seq<u8>, bs: int, off: int, want: int, fsize: int) -> bool
    decreases want,
{
    if want <= 0 || off >= fsize || bs <= 0 || off < 0 {
        true
    } else {
        let b = block_at(img, raw, bs, off);
        let bo = off % bs;
        let n = min(want, min(bs - bo, fsize - off));
        &&& block_at_ok(bs, off)
        &&& b != 0 ==> {
            &&& block_addressable(b, bs as u32)
            &&& bo + n <= 1024
            &&& read_ok(img, raw, bs, off + n, want - n, fsize)
        }
    }
}

pub open spec fn min(a: int, b: int) -> int {
    if a < b {
        a
    } else {
        b
    }
}

pub proof fn lemma_read_run_len(img: Seq<u8>, raw: Seq<u8>, bs: int, off: int, want: int, fsize: int)
    requires
        read_ok(img, raw, bs, off, want, fsize),
    ensures
        read_run(img, raw, bs, off, want, fsize).len() <= if want < 0 {
            0
        } else {
            want
        },
    decreases want,
{
    if !(want <= 0 || off >= fsize || bs <= 0 || off < 0) {
        let b = block_at(img, raw, bs, off);
        if b != 0 {
            let bo = off % bs;
            let n = min(want, min(bs - bo, fsize - off));
            lemma_read_run_len(img, raw, bs, off + n, want - n, fsize);
        }
    }
}

proof fn lemma_times_mod4(x: int, bs: int)
    requires
        bs % 4 == 0,
        bs > 0,
    ensures
        (x * bs) % 4 == 0,
{
    let q = bs / 4;
    vstd::arithmetic::div_mod::lemma_fundamental_div_mod(bs, 4);
    assert(x * bs == (x * q) * 4) by (nonlinear_arith)
        requires
            bs == 4 * q,
    ;
    vstd::arithmetic::div_mod::lemma_mod_multiples_basic(x * q, 4);
}

proof fn lemma_block_size_mod4(s: VolumeState)
    ensures
        s.block_size() % 4 == 0,
{
    let p = vstd::arithmetic::power2::pow2(s.log_block_size() as nat) as int;
    assert(1024 * p == (256 * p) * 4) by (nonlinear_arith);
    vstd::arithmetic::div_mod::lemma_mod_multiples_basic(256 * p, 4);
}

proof fn lemma_div_below(b: int, apb: int, c: int)
    requires
        0 < apb,
        0 <= b,
        b < apb * c,
    ensures
        b / apb < c,
{
    vstd::arithmetic::div_mod::lemma_multiply_divide_lt(b, apb, c);
}

impl File {
    /// The block that holds byte `offset` of the file.
    pub fn get_block(&self, vol: &Volume, offset: usize) -> (b: u32)
        requires
            self.inode.wf(),
            vol.wf(),
            block_at_ok(vol@.block_size(), offset as int),
        ensures
            b == block_at(vol@.img, self.inode.raw@, vol@.block_size(), offset as int),
    {
        proof {
            lemma_block_size_range(vol@);
        }
        let bs = vol.superblock.get_block_size() as u64;
        proof {
            lemma_block_size_mod4(vol@);
        }
        let apb = bs / 4;
        let mut block_number = (offset as u64) / bs;
        if block_number < 12 {
            return self.inode.get_direct_block(block_number as usize);
        }
        block_number = block_number - 12;
        if block_number < apb {
            let ind = self.inode.get_indirect_block() as u64;
            assert(ind * bs <= 0xFFFF_FFFF * 0x8000_0000) by (nonlinear_arith)
                requires ind <= 0xFFFF_FFFF, bs <= 0x8000_0000;
            proof { lemma_times_mod4(ind as int, bs as int); }
            return get_block_in_address(&vol.disk, ind * bs, block_number);
        }
        block_number = block_number - apb;
        assert(apb * apb <= 0x2000_0000 * 0x2000_0000) by (nonlinear_arith)
            requires apb <= 0x2000_0000;
        if block_number < apb * apb {
            proof {
                lemma_div_below(block_number as int, apb as int, apb as int);
            }
            let dind = self.inode.get_doubly_indirect_block() as u64;
            assert(dind * bs <= 0xFFFF_FFFF * 0x8000_0000) by (nonlinear_arith)
                requires dind <= 0xFFFF_FFFF, bs <= 0x8000_0000;
            proof { lemma_times_mod4(dind as int, bs as int); }
            let indirect_block = get_block_in_address(&vol.disk, dind * bs, block_number / apb) as u64;
            assert(indirect_block * bs <= 0xFFFF_FFFF * 0x8000_0000) by (nonlinear_arith)
                requires indirect_block <= 0xFFFF_FFFF, bs <= 0x8000_0000;
            proof { lemma_times_mod4(indirect_block as int, bs as int); }
            return get_block_in_address(&vol.disk, indirect_block * bs, block_number % apb);
        }
        block_number = block_number - apb * apb;
        if block_number < apb * apb * apb {
            proof {
                assert(apb * apb * apb == apb * (apb * apb)) by (nonlinear_arith);
                lemma_div_below(block_number as int, apb as int, (apb * apb) as int);
                lemma_div_below((block_number / apb) as int, apb as int, apb as int);
            }
            let tind = self.inode.get_triply_indirect_block() as u64;
            assert(tind * bs <= 0xFFFF_FFFF * 0x8000_0000) by (nonlinear_arith)
                requires tind <= 0xFFFF_FFFF, bs <= 0x8000_0000;
            proof { lemma_times_mod4(tind as int, bs as int); }
            let dindirect_block = get_block_in_address(&vol.disk, tind * bs, block_number / apb / apb) as u64;
            assert(dindirect_block * bs <= 0xFFFF_FFFF * 0x8000_0000) by (nonlinear_arith)
                requires dindirect_block <= 0xFFFF_FFFF, bs <= 0x8000_0000;
            proof { lemma_times_mod4(dindirect_block as int, bs as int); }
            let indirect_block = get_block_in_address(&vol.disk, dindirect_block * bs, block_number / apb % apb) as u64;
            assert(indirect_block * bs <= 0xFFFF_FFFF * 0x8000_0000) by (nonlinear_arith)
                requires indirect_block <= 0xFFFF_FFFF, bs <= 0x8000_0000;
            proof { lemma_times_mod4(indirect_block as int, bs as int); }
            return get_block_in_address(&vol.disk, indirect_block * bs, block_number % apb);
        }
        0
    }

    /// Reads up to `size` bytes (and no more than `buffer` holds) from the
    /// current offset into the start of `buffer`, advancing the offset;
    /// returns how many were read.
    pub fn read(&mut self, vol: &Volume, buffer: &mut Vec<u8>, size: usize) -> (n: usize)
        requires
            old(self).inode.wf(),
            vol.wf(),
            read_ok(
                vol@.img,
                old(self).inode.raw@,
                vol@.block_size(),
                old(self).offset as int,
                min(old(buffer)@.len() as int, size as int),
                old(self).inode.spec_size() as int,
            ),
        ensures
            ({
                let run = read_run(
                    vol@.img,
                    old(self).inode.raw@,
                    vol@.block_size(),
                    old(self).offset as int,
                    min(old(buffer)@.len() as int, size as int),
                    old(self).inode.spec_size() as int,
                );
                &&& n == run.len()
                &&& final(buffer)@ == splice(old(buffer)@, 0, run)
                &&& final(self).offset == old(self).offset + n
                &&& final(self).inode == old(self).inode
            }),
    {
        proof {
            lemma_block_size_range(vol@);
        }
        let block_size = vol.superblock.get_block_size();
        let file_size = self.inode.get_size();
        let actual_size = if buffer.len() < size {
            buffer.len()
        } else {
            size
        };
        let ghost img = vol@.img;
        let ghost raw = self.inode.raw@;
        let ghost bs = block_size as int;
        let ghost off0 = self.offset as int;
        let ghost total = read_run(img, raw, bs, off0, actual_size as int, file_size as int);
        proof {
            lemma_read_run_len(img, raw, bs, off0, actual_size as int, file_size as int);
        }
        let mut bytes_read: usize = 0;
        let mut done = false;
        while !done && bytes_read < actual_size && self.offset < file_size
            invariant
                vol.wf(),
                self.inode.wf(),
                self.inode == old(self).inode,
                raw == self.inode.raw@,
                img == vol@.img,
                bs == block_size,
                bs == vol@.block_size(),
                1024 <= bs <= 0x8000_0000,
                file_size == self.inode.spec_size(),
                actual_size <= old(buffer)@.len(),
                buffer@.len() == old(buffer)@.len(),
                0 <= bytes_read <= actual_size,
                bytes_read <= total.len(),
                self.offset == off0 + bytes_read,
                self.offset <= file_size || bytes_read == 0,
                read_ok(img, raw, bs, self.offset as int, actual_size - bytes_read, file_size as int),
                !done ==> buffer@ == splice(old(buffer)@, 0, total.take(bytes_read as int)),
                !done ==> total == total.take(bytes_read as int) + read_run(
                    img,
                    raw,
                    bs,
                    self.offset as int,
                    actual_size - bytes_read,
                    file_size as int,
                ),
                done ==> buffer@ == splice(old(buffer)@, 0, total) && total.len() == bytes_read,
            decreases actual_size - bytes_read + if done { 0int } else { 1int },
        {
            let block = self.get_block(vol, self.offset);
            let block_offset = self.offset % block_size;
            let bytes_avail_in_block = block_size - block_offset;
            let bytes_until_eof = file_size - self.offset;
            let m = if bytes_avail_in_block < bytes_until_eof {
                bytes_avail_in_block
            } else {
                bytes_until_eof
            };
            let bytes_needed = if actual_size - bytes_read < m {
                actual_size - bytes_read
            } else {
                m
            };
            if block == 0 {
                proof {
                    assert(read_run(img, raw, bs, self.offset as int, actual_size - bytes_read, file_size as int) =~= Seq::<u8>::empty());
                    assert(total =~= total.take(bytes_read as int));
                }
                done = true;
            } else {
                let data = read_1kb_block(&vol.disk, block, block_size as u32);
                let ghost piece = data@.subrange(block_offset as int, block_offset + bytes_needed);
                let ghost rest = read_run(img, raw, bs, self.offset + bytes_needed, actual_size - bytes_read - bytes_needed, file_size as int);
                let mut k: usize = 0;
                let ghost before = buffer@;
                while k < bytes_needed
                    invariant
                        data@.len() == 1024,
                        block_offset + bytes_needed <= 1024,
                        bytes_read + bytes_needed <= actual_size,
                        actual_size <= buffer@.len(),
                        buffer@.len() == before.len(),
                        0 <= k <= bytes_needed,
                        buffer@ == splice(before, bytes_read as int, data@.subrange(block_offset as int, block_offset + k)),
                    decreases bytes_needed - k,
                {
                    buffer.set(bytes_read + k, data[block_offset + k]);
                    assert(buffer@ =~= splice(before, bytes_read as int, data@.subrange(block_offset as int, block_offset + k + 1)));
                    k = k + 1;
                }
                proof {
                    let want = actual_size - bytes_read;
                    assert(read_run(img, raw, bs, self.offset as int, want, file_size as int) == piece + rest);
                    assert(total =~= total.take(bytes_read as int) + piece + rest);
                    assert(total.take(bytes_read + bytes_needed) =~= total.take(bytes_read as int) + piece);
                    assert(buffer@ =~= splice(old(buffer)@, 0, total.take(bytes_read + bytes_needed)));
                    assert(total =~= total.take(bytes_read + bytes_needed) + rest);
                }
                bytes_read = bytes_read + bytes_needed;
                self.offset = self.offset + bytes_needed;
            }
        }
        proof {
            if !done {
                assert(read_run(img, raw, bs, self.offset as int, actual_size - bytes_read, file_size as int) =~= Seq::<u8>::empty());
                assert(total =~= total.take(bytes_read as int));
            }
        }
        bytes_read
    }

    /// Moves the offset; it may not pass the end of the file.
    pub fn seek(&mut self, offset: usize)
        requires
            old(self).inode.wf(),
            offset <= old(self).inode.spec_size(),
        ensures
            final(self).offset == offset,
            final(self).inode == old(self).inode,
    {
        self.offset = offset;
    }
}


/// The state after writing: the inode's bytes, the volume, the offset, how
/// many bytes were written, and whether a block could not be had.
pub struct Written {
    pub raw: Seq<u8>,
    pub s: VolumeState,
    pub off: int,
    pub n: int,
    pub stopped: bool,
}

/// The block written at offset `off`: the one there, or a fresh one given
/// to the inode when there is none (0 when none can be had).
pub open spec fn write_block(raw: Seq<u8>, s: VolumeState, off: int) -> Grown {
    let cb0 = block_at(s.img, raw, s.block_size(), off);
    if cb0 != 0 {
        Grown { raw, s, r: Some(cb0) }
    } else {
        grow(raw, s)
    }
}

/// Writing bytes `pos..size` of `buf` from offset `off` on, block by block:
/// a whole block is written from the buffer alone, a part of one over what
/// the block holds.  Writing stops when no block can be had.
pub open spec fn write_run(raw: Seq<u8>, s: VolumeState, off: int, buf: Seq<u8>, pos: int, size: int) -> Written
    decreases size - pos,
{
    if pos >= size || pos < 0 || s.block_size() <= 0 || off < 0 {
        Written { raw, s, off, n: pos, stopped: false }
    } else {
        let bs = s.block_size();
        proof {
            vstd::arithmetic::div_mod::lemma_mod_pos_bound(off, bs);
        }
        let wb = write_block(raw, s, off);
        let raw1 = wb.raw;
        let s1 = wb.s;
        let cb = wb.r.unwrap();
        if wb.r is None {
            Written { raw: raw1, s: s1, off, n: pos, stopped: true }
        } else {
            let bo = off % bs;
            let ws = min(bs - bo, size - pos);
            let data = if ws == bs {
                buf.subrange(pos, pos + bs)
            } else {
                splice(block_read(s1.img, cb, bs as u32), bo, buf.subrange(pos, pos + ws))
            };
            let img2 = if data.len() == 1024 {
                block_write(s1.img, cb, bs as u32, data)
            } else {
                s1.img
            };
            write_run(raw1, VolumeState { img: img2, ..s1 }, off + ws, buf, pos + ws, size)
        }
    }
}

/// Writing meets no fault.
pub open spec fn write_ok(raw: Seq<u8>, s: VolumeState, off: int, buf: Seq<u8>, pos: int, size: int) -> bool
    decreases size - pos,
{
    if pos >= size || pos < 0 || s.block_size() <= 0 || off < 0 {
        true
    } else {
        let bs = s.block_size();
        proof {
            vstd::arithmetic::div_mod::lemma_mod_pos_bound(off, bs);
        }
        let cb0 = block_at(s.img, raw, bs, off);
        let wb = write_block(raw, s, off);
        let raw1 = wb.raw;
        let s1 = wb.s;
        let cb = wb.r.unwrap();
        let bo = off % bs;
        let ws = min(bs - bo, size - pos);
        let data = if ws == bs {
            buf.subrange(pos, pos + bs)
        } else {
            splice(block_read(s1.img, cb, bs as u32), bo, buf.subrange(pos, pos + ws))
        };
        let img2 = if data.len() == 1024 {
            block_write(s1.img, cb, bs as u32, data)
        } else {
            s1.img
        };
        &&& 0 <= off
        &&& block_at_ok(bs, off)
        &&& cb0 == 0 ==> can_grow(raw, s)
        &&& wb.r is Some ==> {
            &&& block_addressable(cb, bs as u32)
            &&& ws != bs ==> bo + ws <= 1024
            &&& pos + ws <= buf.len()
            &&& off + ws <= usize::MAX
            &&& write_ok(raw1, VolumeState { img: img2, ..s1 }, off + ws, buf, pos + ws, size)
        }
    }
}

/// The file's inode bytes after a write: the size grows to the offset
/// reached when the write ran to its end.
pub open spec fn sized_after(w: Written) -> Seq<u8> {
    if !w.stopped && w.off >= le_u32(w.raw, 4) {
        splice(w.raw, 4, crate::bytes::u32_le_bytes(w.off as u32))
    } else {
        w.raw
    }
}

/// Opening meets no fault.
pub open spec fn can_open(s: VolumeState, path: Seq<u8>) -> bool {
    &&& path_ok(s, path)
    &&& match path_entry(s, path) {
        None => true,
        Some(e) => {
            let iv = parent_view(s, e.inode as int);
            &&& loadable(s, e.inode as int)
            &&& mode_type(le_u16(iv.raw, 0)) != InodeType::RegularFile && iv.need_flush
                ==> iv.can_write_back(s)
        },
    }
}

impl File {
    /// Opens the regular file `path`.  A path that names nothing gives
    /// `NotFound`; one that names something else gives `NotAFile` (and the
    /// inode loaded for it is written back, as every loaded inode is).
    pub fn from_path(vol: &mut Volume, path: &str) -> (r: Result<File, FileError>)
        requires
            old(vol).wf(),
            can_open(old(vol)@, path.spec_bytes()),
        ensures
            final(vol).wf(),
            match path_entry(old(vol)@, path.spec_bytes()) {
                None => r == Err::<File, FileError>(FileError::NotFound) && final(vol)@ == old(vol)@,
                Some(e) => {
                    let iv = parent_view(old(vol)@, e.inode as int);
                    if mode_type(le_u16(iv.raw, 0)) != InodeType::RegularFile {
                        r == Err::<File, FileError>(FileError::NotAFile) && final(vol)@
                            == written_back(old(vol)@, iv)
                    } else {
                        &&& r matches Ok(f) && f.inode@ == iv && f.offset == 0 && f.inode.wf()
                        &&& final(vol)@ == old(vol)@
                    }
                },
            },
    {
        let entry = find_by_path(vol, path);
        match entry {
            None => Err(FileError::NotFound),
            Some(entry) => {
                let mut inode = Inode::from_id(vol, entry.inode as usize);
                if inode.get_type() != InodeType::RegularFile {
                    inode.release(vol);
                    return Err(FileError::NotAFile);
                }
                Ok(File { inode, offset: 0 })
            },
        }
    }

    /// Writes `size` bytes of `buffer` from the current offset, giving the
    /// file blocks where it has none, and advances the offset; returns how
    /// many bytes were written.  When the write runs to its end, the size
    /// grows to the offset reached.
    pub fn write(&mut self, vol: &mut Volume, buffer: &[u8], size: usize) -> (n: usize)
        requires
            old(self).inode.wf(),
            old(vol).wf(),
            write_ok(old(self).inode.raw@, old(vol)@, old(self).offset as int, buffer@, 0, size as int),
        ensures
            final(vol).wf(),
            final(self).inode.wf(),
            final(self).inode.same_place(&old(self).inode),
            ({
                let w = write_run(old(self).inode.raw@, old(vol)@, old(self).offset as int, buffer@, 0, size as int);
                &&& n == w.n
                &&& final(self).offset == w.off
                &&& final(vol)@ == w.s
                &&& final(self).inode.raw@ == sized_after(w)
            }),
    {
        proof {
            lemma_block_size_range(vol@);
        }
        let block_size = vol.superblock.get_block_size() as u32;
        let ghost total = write_run(self.inode.raw@, vol@, self.offset as int, buffer@, 0, size as int);
        let ghost s0 = vol@;
        proof {
            lemma_same_geometry_refl(s0);
        }
        let mut bytes_written: usize = 0;
        while bytes_written < size
            invariant
                vol.wf(),
                self.inode.wf(),
                self.inode.same_place(&old(self).inode),
                same_geometry(s0, vol@),
                block_size == vol@.block_size(),
                1024 <= vol@.block_size() <= 0x8000_0000,
                0 <= bytes_written <= size,
                write_ok(self.inode.raw@, vol@, self.offset as int, buffer@, bytes_written as int, size as int),
                write_run(self.inode.raw@, vol@, self.offset as int, buffer@, bytes_written as int, size as int) == total,
                total == write_run(old(self).inode.raw@, old(vol)@, old(self).offset as int, buffer@, 0, size as int),
            decreases size - bytes_written,
        {
            let ghost s_before = vol@;
            let ghost raw_before = self.inode.raw@;
            let mut current_block = self.get_block(vol, self.offset);
            if current_block == 0 {
                match self.inode.allocate_new_block(vol) {
                    Some(block) => {
                        current_block = block;
                    },
                    None => {
                        proof {
                            lemma_same_geometry_trans(s0, s_before, vol@);
                            assert(write_block(raw_before, s_before, self.offset as int) == (Grown { raw: self.inode.raw@, s: vol@, r: None }));
                            assert(total == (Written { raw: self.inode.raw@, s: vol@, off: self.offset as int, n: bytes_written as int, stopped: true }));
                        }
                        return bytes_written;
                    },
                }
            } else {
                proof {
                    lemma_same_geometry_refl(vol@);
                }
            }
            let ghost s1 = vol@;
            proof {
                lemma_same_geometry_facts(s_before, s1);
                lemma_same_geometry_trans(s0, s_before, s1);
                assert(write_block(raw_before, s_before, self.offset as int) == (Grown { raw: self.inode.raw@, s: vol@, r: Some(current_block) }));
                vstd::arithmetic::div_mod::lemma_mod_pos_bound(self.offset as int, block_size as int);
            }
            let block_offset = self.offset % (block_size as usize);
            let left_in_block = block_size as usize - block_offset;
            let left_to_write = size - bytes_written;
            let write_size = if left_in_block < left_to_write {
                left_in_block
            } else {
                left_to_write
            };
            proof {
                assert(write_ok(raw_before, s_before, self.offset as int, buffer@, bytes_written as int, size as int));
                assert(bytes_written + write_size <= buffer@.len());
                assert(write_size != block_size ==> block_offset + write_size <= 1024);
            }
            let mut data = if write_size == block_size as usize {
                let z: Vec<u8> = vec![0u8; block_size as usize];
                z
            } else {
                read_1kb_block(&vol.disk, current_block, block_size)
            };
            let ghost d0 = data@;
            let mut k: usize = 0;
            while k < write_size
                invariant
                    block_offset + write_size <= data@.len(),
                    data@.len() <= 0x8000_0000,
                    bytes_written + write_size <= buffer@.len(),
                    bytes_written + write_size <= size,
                    data@.len() == d0.len(),
                    0 <= k <= write_size,
                    data@ == splice(d0, block_offset as int, buffer@.subrange(bytes_written as int, bytes_written + k)),
                decreases write_size - k,
            {
                data.set(block_offset + k, buffer[bytes_written + k]);
                assert(data@ =~= splice(d0, block_offset as int, buffer@.subrange(bytes_written as int, bytes_written + k + 1)));
                k = k + 1;
            }
            proof {
                if write_size == block_size {
                    assert(block_offset == 0);
                    assert(data@ =~= buffer@.subrange(bytes_written as int, bytes_written + block_size));
                }
            }
            let ghost vm = *vol;
            write_1kb_block(&mut vol.disk, current_block, block_size, data.as_slice(), data.len());
            proof {
                if data@.len() == 1024 {
                    lemma_block_write_len(s1.img, current_block, block_size, data@);
                }
                lemma_wf_img(&vm, vol);
                lemma_same_geometry_img(s1, vol@.img);
                lemma_same_geometry_trans(s0, s1, vol@);
            }
            bytes_written = bytes_written + write_size;
            self.offset = self.offset + write_size;
        }
        if self.offset >= self.inode.get_size() {
            self.inode.set_size(self.offset);
        }
        bytes_written
    }

    /// Releases the file's inode (written back when it was opened for it).
    pub fn close(self, vol: &mut Volume)
        requires
            self.inode.wf(),
            old(vol).wf(),
            self.inode.need_flush ==> self.inode@.can_write_back(old(vol)@),
        ensures
            final(vol).wf(),
            final(vol)@ == written_back(old(vol)@, self.inode@),
    {
        let mut inode = self.inode;
        inode.release(vol);
    }
}

} // verus!
