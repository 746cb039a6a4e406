//! The file work of the `cat` command: a file is read 1 KiB at a time until
//! a read gives nothing, and its bytes are shown as text.
use vstd::prelude::*;
use vstd::string::StringSliceAdditionalSpecFns;
use crate::bytes::{le_u32, splice};
use crate::fs::ext2::file::{can_open, lemma_read_run_len, min, read_ok, read_run, File};
use crate::fs::ext2::inode::InodeView;
use crate::fs::ext2::inode_blocks::written_back;
use crate::fs::ext2::volume::{Volume, VolumeState, lemma_block_size_range};
use super::run::{cat_text, shown_bytes};
use super::write_file::opened;

verus! {

/// The bytes of the file with inode bytes `raw` and size `fsize`, read
/// from offset `off` on, 1 KiB per read, until a read gives nothing.
pub open spec fn read_chunks(img: Seq<u8>, raw: Seq<u8>, bs: int, off: int, fsize: int) -> Seq<u8>
    decreases fsize - off,
{
    let r = read_run(img, raw, bs, off, 1024, fsize);
    if off >= fsize || r.len() == 0 || off + r.len() > fsize {
        Seq::empty()
    } else {
        r + read_chunks(img, raw, bs, off + r.len(), fsize)
    }
}

/// Each of those reads meets no fault.
pub open spec fn read_chunks_ok(img: Seq<u8>, raw: Seq<u8>, bs: int, off: int, fsize: int) -> bool
    decreases fsize - off,
{
    let r = read_run(img, raw, bs, off, 1024, fsize);
    &&& read_ok(img, raw, bs, off, 1024, fsize)
    &&& (off < fsize && r.len() != 0 && off + r.len() <= fsize) ==> read_chunks_ok(img, raw, bs, off + r.len(), fsize)
}

/// A read never passes the end of the file.
proof fn lemma_read_run_within(img: Seq<u8>, raw: Seq<u8>, bs: int, off: int, want: int, fsize: int)
    requires
        read_ok(img, raw, bs, off, want, fsize),
    ensures
        off < fsize ==> off + read_run(img, raw, bs, off, want, fsize).len() <= fsize,
    decreases want,
{
    if !(want <= 0 || off >= fsize || bs <= 0 || off < 0) {
        let b = crate::fs::ext2::file::block_at(img, raw, bs, off);
        vstd::arithmetic::div_mod::lemma_mod_pos_bound(off, bs);
        if b != 0 {
            let bo = off % bs;
            let n = min(want, min(bs - bo, fsize - off));
            lemma_read_run_within(img, raw, bs, off + n, want - n, fsize);
            let blk = crate::fs::ext2::disk::block_read(img, b, bs as u32);
            assert(blk.len() == 1024);
            let piece = blk.subrange(bo, bo + n);
            let rest = read_run(img, raw, bs, off + n, want - n, fsize);
            assert(read_run(img, raw, bs, off, want, fsize) == piece + rest);
            assert(0 <= bo && 0 < n && bo + n <= 1024);
            assert(piece.len() == n);
            if off + n >= fsize {
                assert(rest.len() == 0);
            }
        }
    }
}

/// What `cat` does with the file `path`: `None` when it cannot be opened;
/// otherwise the text shown for all of its bytes.  The state after: an
/// opened inode is released.
pub open spec fn cat_spec(s: VolumeState, path: Seq<u8>) -> (Option<Seq<char>>, VolumeState) {
    let o = opened(s, path);
    match o.0 {
        None => (None, o.1),
        Some(iv) => (
            Some(shown_bytes(read_chunks(o.1.img, iv.raw, o.1.block_size(), 0, le_u32(iv.raw, 4) as int))),
            written_back(o.1, iv),
        ),
    }
}

/// `cat` meets no fault: opening, each read and the release.
pub open spec fn cat_spec_ok(s: VolumeState, path: Seq<u8>) -> bool {
    let o = opened(s, path);
    &&& can_open(s, path)
    &&& match o.0 {
        None => true,
        Some(iv) => {
            &&& read_chunks_ok(o.1.img, iv.raw, o.1.block_size(), 0, le_u32(iv.raw, 4) as int)
            &&& iv.need_flush ==> iv.can_write_back(o.1)
        },
    }
}

/// Reads all of the opened file from its offset on, 1 KiB at a time until
/// a read gives nothing.
fn read_rest(file: &mut File, vol: &Volume) -> (all: Vec<u8>)
    requires
        old(file).inode.wf(),
        vol.wf(),
        old(file).offset <= old(file).inode.spec_size(),
        read_chunks_ok(vol@.img, old(file).inode.raw@, vol@.block_size(), old(file).offset as int, old(file).inode.spec_size() as int),
    ensures
        final(file).inode == old(file).inode,
        all@ == read_chunks(vol@.img, old(file).inode.raw@, vol@.block_size(), old(file).offset as int, old(file).inode.spec_size() as int),
{
    let ghost img = vol@.img;
    let ghost raw = file.inode.raw@;
    let ghost bs = vol@.block_size();
    let ghost fsize = file.inode.spec_size() as int;
    let ghost total = read_chunks(img, raw, bs, file.offset as int, fsize);
    let mut all: Vec<u8> = Vec::new();
    let mut done = false;
    while !done
        invariant
            file.inode.wf(),
            vol.wf(),
            file.inode == old(file).inode,
            raw == file.inode.raw@,
            img == vol@.img,
            bs == vol@.block_size(),
            fsize == file.inode.spec_size(),
            file.offset <= fsize,
            !done ==> read_chunks_ok(img, raw, bs, file.offset as int, fsize),
            !done ==> total == all@ + read_chunks(img, raw, bs, file.offset as int, fsize),
            done ==> total == all@,
        decreases fsize - file.offset + if done { 0int } else { 1int },
    {
        let mut buffer: Vec<u8> = vec![0u8; 1024];
        let ghost b0 = buffer@;
        let ghost off = file.offset as int;
        let ghost r = read_run(img, raw, bs, off, 1024, fsize);
        proof {
            lemma_read_run_len(img, raw, bs, off, 1024, fsize);
            lemma_read_run_within(img, raw, bs, off, 1024, fsize);
        }
        let n = file.read(vol, &mut buffer, 1024);
        if n == 0 {
            done = true;
            assert(read_chunks(img, raw, bs, off, fsize) =~= Seq::<u8>::empty());
        } else {
            let mut k: usize = 0;
            let ghost before = all@;
            while k < n
                invariant
                    n == r.len(),
                    n <= 1024,
                    buffer@.len() == 1024,
                    buffer@ == splice(b0, 0, r),
                    b0.len() == 1024,
                    0 <= k <= n,
                    all@ == before + r.take(k as int),
                decreases n - k,
            {
                all.push(buffer[k]);
                assert(buffer@[k as int] == r[k as int]);
                assert(all@ =~= before + r.take(k + 1));
                k = k + 1;
            }
            assert(r.take(n as int) =~= r);
            proof {
                assert(off < fsize) by {
                    if off >= fsize {
                        assert(r.len() == 0);
                    }
                }
                assert(total =~= all@ + read_chunks(img, raw, bs, file.offset as int, fsize));
            }
        }
    }
    all
}

/// Runs the file work of `cat` for `path`: the text shown for all of the
/// file's bytes (zero bytes left out), or `None` when it cannot be opened.
pub fn cat_file(vol: &mut Volume, path: &str) -> (r: Option<String>)
    requires
        old(vol).wf(),
        cat_spec_ok(old(vol)@, path.spec_bytes()),
    ensures
        final(vol).wf(),
        cat_spec(old(vol)@, path.spec_bytes()) == (
            match r {
                None => None::<Seq<char>>,
                Some(t) => Some(t@),
            },
            final(vol)@,
        ),
{
    match File::from_path(vol, path) {
        Ok(f) => {
            let mut file = f;
            proof {
                lemma_block_size_range(vol@);
            }
            let all = read_rest(&mut file, vol);
            let text = cat_text(all.as_slice());
            file.close(vol);
            Some(text)
        },
        Err(_) => None,
    }
}

} // verus!
