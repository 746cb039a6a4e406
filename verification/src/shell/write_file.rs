//! The file work of the `write` command: open the file (creating it when
//! asked), move to its end when appending, and write the text until it is
//! all written or no more can be.
use vstd::prelude::*;
use vstd::utf8::encode_utf8;
use vstd::string::StringSliceAdditionalSpecFns;
use crate::bytes::le_u16;
use crate::fs::ext2::create::{can_create, created, parent_view, touch};
use crate::fs::ext2::disk::slice_range;
use crate::fs::ext2::file::{can_open, sized_after, write_ok, write_run, File};
use crate::fs::ext2::inode::{mode_type, InodeType, InodeView};
use crate::fs::ext2::inode_blocks::written_back;
use crate::fs::ext2::path::path_entry;
use crate::fs::ext2::volume::{Volume, VolumeState};
use super::run::WriteRequest;

verus! {

/// How a `write` ended.
#[derive(Debug, Clone, Copy, PartialEq, Eq, Structural)]
pub enum WriteOutcome {
    /// The file could not be opened (nor created): nothing was written.
    NotOpened,
    /// The file was opened but there is no text: the usage is to be shown.
    Usage,
    /// This many bytes of the text were written.
    Written(usize),
}

/// Opening the file `path`: its inode when it is a regular file, and the
/// state after (an inode of another type is written back when released).
pub open spec fn opened(s: VolumeState, path: Seq<u8>) -> (Option<InodeView>, VolumeState) {
    match path_entry(s, path) {
        None => (None, s),
        Some(e) => {
            let iv = parent_view(s, e.inode as int);
            if mode_type(le_u16(iv.raw, 0)) != InodeType::RegularFile {
                (None, written_back(s, iv))
            } else {
                (Some(iv), s)
            }
        },
    }
}

/// Opening for `write`: when the file cannot be opened and `create` is
/// asked, the file is created and opened again.
pub open spec fn write_open(s: VolumeState, path: Seq<u8>, create: bool) -> (Option<InodeView>, VolumeState) {
    let o = opened(s, path);
    if o.0 is Some || !create {
        o
    } else {
        opened(created(o.1, path, InodeType::RegularFile, 1).1, path)
    }
}

/// Opening for `write` meets no fault.
pub open spec fn write_open_ok(s: VolumeState, path: Seq<u8>, create: bool) -> bool {
    let o = opened(s, path);
    &&& can_open(s, path)
    &&& (o.0 is None && create) ==> {
        &&& can_create(o.1, path, InodeType::RegularFile, 1)
        &&& can_open(created(o.1, path, InodeType::RegularFile, 1).1, path)
    }
}

/// Writing `buf` from byte `pos` on, at offset `off` of the file with inode
/// bytes `raw`: each write is asked for all that is left, and writing ends
/// when all is written or a write writes nothing.  The inode bytes, the
/// state and the number of bytes written at the end.
pub open spec fn write_loop(raw: Seq<u8>, s: VolumeState, off: int, buf: Seq<u8>, pos: int) -> (Seq<u8>, VolumeState, int)
    decreases buf.len() - pos,
{
    if pos >= buf.len() || pos < 0 {
        (raw, s, pos)
    } else {
        let w = write_run(raw, s, off, buf.skip(pos), 0, buf.len() - pos);
        if w.n <= 0 || pos + w.n > buf.len() {
            (sized_after(w), w.s, pos)
        } else {
            write_loop(sized_after(w), w.s, w.off, buf, pos + w.n)
        }
    }
}

/// Each write of the loop meets no fault.
pub open spec fn write_loop_ok(raw: Seq<u8>, s: VolumeState, off: int, buf: Seq<u8>, pos: int) -> bool
    decreases buf.len() - pos,
{
    if pos >= buf.len() || pos < 0 {
        true
    } else {
        let w = write_run(raw, s, off, buf.skip(pos), 0, buf.len() - pos);
        &&& 0 <= off <= usize::MAX
        &&& write_ok(raw, s, off, buf.skip(pos), 0, buf.len() - pos)
        &&& (w.n > 0 && pos + w.n <= buf.len()) ==> write_loop_ok(sized_after(w), w.s, w.off, buf, pos + w.n)
    }
}

/// Where writing starts: the end of the file when appending, else its start.
pub open spec fn start_offset(iv: InodeView, append: bool) -> int {
    if append {
        crate::bytes::le_u32(iv.raw, 4) as int
    } else {
        0
    }
}

/// What writing `content` to the opened file with inode `iv` does, from
/// the state `s` on: no text only releases the file; otherwise the text is
/// written from the start offset, then the file is released.
pub open spec fn write_opened(s: VolumeState, iv: InodeView, append: bool, content: Seq<u8>) -> (WriteOutcome, VolumeState) {
    if content.len() == 0 {
        (WriteOutcome::Usage, written_back(s, iv))
    } else {
        let l = write_loop(iv.raw, s, start_offset(iv, append), content, 0);
        (WriteOutcome::Written(l.2 as usize), written_back(l.1, InodeView { raw: l.0, ..iv }))
    }
}

/// Writing to the opened file meets no fault.
pub open spec fn write_opened_ok(s: VolumeState, iv: InodeView, append: bool, content: Seq<u8>) -> bool {
    if content.len() == 0 {
        iv.need_flush ==> iv.can_write_back(s)
    } else {
        let l = write_loop(iv.raw, s, start_offset(iv, append), content, 0);
        let fin = InodeView { raw: l.0, ..iv };
        &&& write_loop_ok(iv.raw, s, start_offset(iv, append), content, 0)
        &&& fin.need_flush ==> fin.can_write_back(l.1)
    }
}

/// What `write` does to the volume, and how it ends, for the file `path`,
/// the `create` and `append` options and the text `content`.  An opened
/// file is released at the end, whatever happened.
pub open spec fn write_spec(s: VolumeState, path: Seq<u8>, create: bool, append: bool, content: Seq<u8>) -> (WriteOutcome, VolumeState) {
    let o = write_open(s, path, create);
    match o.0 {
        None => (WriteOutcome::NotOpened, o.1),
        Some(iv) => write_opened(o.1, iv, append, content),
    }
}

/// `write` meets no fault: opening, each write and the release.
pub open spec fn write_spec_ok(s: VolumeState, path: Seq<u8>, create: bool, append: bool, content: Seq<u8>) -> bool {
    let o = write_open(s, path, create);
    &&& write_open_ok(s, path, create)
    &&& match o.0 {
        None => true,
        Some(iv) => write_opened_ok(o.1, iv, append, content),
    }
}

/// A write never reports more bytes than it was asked for.
proof fn lemma_write_run_count(raw: Seq<u8>, s: VolumeState, off: int, buf: Seq<u8>, pos: int, size: int)
    requires
        0 <= pos <= size,
    ensures
        pos <= write_run(raw, s, off, buf, pos, size).n <= size,
    decreases size - pos,
{
    if !(pos >= size || pos < 0 || s.block_size() <= 0 || off < 0) {
        let bs = s.block_size();
        vstd::arithmetic::div_mod::lemma_mod_pos_bound(off, bs);
        let wb = crate::fs::ext2::file::write_block(raw, s, off);
        if wb.r is Some {
            let bo = off % bs;
            let ws = crate::fs::ext2::file::min(bs - bo, size - pos);
            let cb = wb.r.unwrap();
            let s1 = wb.s;
            let data = if ws == bs {
                buf.subrange(pos, pos + bs)
            } else {
                crate::bytes::splice(crate::fs::ext2::disk::block_read(s1.img, cb, bs as u32), bo, buf.subrange(pos, pos + ws))
            };
            let img2 = if data.len() == 1024 {
                crate::fs::ext2::disk::block_write(s1.img, cb, bs as u32, data)
            } else {
                s1.img
            };
            lemma_write_run_count(wb.raw, VolumeState { img: img2, ..s1 }, off + ws, buf, pos + ws, size);
        }
    }
}

/// Opens the file `path` for `write`, creating it first when it cannot be
/// opened and `create` is set.
fn open_for_write(vol: &mut Volume, path: &str, create: bool) -> (f: Option<File>)
    requires
        old(vol).wf(),
        write_open_ok(old(vol)@, path.spec_bytes(), create),
    ensures
        final(vol).wf(),
        match f {
            None => write_open(old(vol)@, path.spec_bytes(), create) == (None::<InodeView>, final(vol)@),
            Some(file) => {
                &&& write_open(old(vol)@, path.spec_bytes(), create) == (Some(file.inode@), final(vol)@)
                &&& file.inode.wf()
                &&& file.offset == 0
            },
        },
{
    match File::from_path(vol, path) {
        Ok(f) => Some(f),
        Err(_) => {
            if !create {
                return None;
            }
            touch(vol, path);
            match File::from_path(vol, path) {
                Ok(f) => Some(f),
                Err(_) => None,
            }
        },
    }
}

/// Writes all of `bytes` from the file's offset on, each write asked for
/// all that is left, until all is written or a write writes nothing;
/// returns how many bytes were written.
fn write_all(file: &mut File, vol: &mut Volume, bytes: &[u8]) -> (n: usize)
    requires
        old(vol).wf(),
        old(file).inode.wf(),
        write_loop_ok(old(file).inode.raw@, old(vol)@, old(file).offset as int, bytes@, 0),
    ensures
        final(vol).wf(),
        final(file).inode.wf(),
        final(file).inode@ == (InodeView { raw: final(file).inode.raw@, ..old(file).inode@ }),
        (final(file).inode.raw@, final(vol)@, n as int) == write_loop(
            old(file).inode.raw@,
            old(vol)@,
            old(file).offset as int,
            bytes@,
            0,
        ),
{
    let len = bytes.len();
    let ghost iv = file.inode@;
    let ghost cb = bytes@;
    let ghost total = write_loop(file.inode.raw@, vol@, file.offset as int, cb, 0);
    let mut offset: usize = 0;
    let mut done = false;
    while !done && offset < len
        invariant
            vol.wf(),
            file.inode.wf(),
            file.inode@ == (InodeView { raw: file.inode.raw@, ..iv }),
            bytes@ == cb,
            len == cb.len(),
            0 <= offset <= len,
            !done ==> write_loop(file.inode.raw@, vol@, file.offset as int, cb, offset as int) == total,
            !done ==> write_loop_ok(file.inode.raw@, vol@, file.offset as int, cb, offset as int),
            done ==> (file.inode.raw@, vol@, offset as int) == total,
        decreases len - offset + if done { 0int } else { 1int },
    {
        let rest = slice_range(bytes, offset, len);
        assert(rest@ == cb.skip(offset as int));
        proof {
            lemma_write_run_count(file.inode.raw@, vol@, file.offset as int, cb.skip(offset as int), 0, (len - offset) as int);
        }
        let n = file.write(vol, rest, len - offset);
        if n == 0 {
            done = true;
        } else {
            offset = offset + n;
        }
    }
    offset
}

/// Writes `bytes` to the opened file, from its end when appending, and
/// releases it.
fn write_to_opened(file: File, vol: &mut Volume, append: bool, bytes: &[u8]) -> (r: WriteOutcome)
    requires
        old(vol).wf(),
        file.inode.wf(),
        file.offset == 0,
        write_opened_ok(old(vol)@, file.inode@, append, bytes@),
    ensures
        final(vol).wf(),
        (r, final(vol)@) == write_opened(old(vol)@, file.inode@, append, bytes@),
{
    let mut file = file;
    if append {
        let size = file.inode.get_size();
        file.seek(size);
    }
    if bytes.len() == 0 {
        file.close(vol);
        return WriteOutcome::Usage;
    }
    let n = write_all(&mut file, vol, bytes);
    file.close(vol);
    WriteOutcome::Written(n)
}

/// Runs the file work of `write`: the file of the request is opened,
/// created first when it cannot be opened and `create` is set; when
/// appending, writing starts at its end; the text is written until all is
/// written or a write writes nothing; the file is then released.
pub fn write_file(vol: &mut Volume, req: &WriteRequest) -> (r: WriteOutcome)
    requires
        old(vol).wf(),
        write_spec_ok(old(vol)@, encode_utf8(req.path@), req.create, req.append, encode_utf8(req.content@)),
    ensures
        final(vol).wf(),
        (r, final(vol)@) == write_spec(old(vol)@, encode_utf8(req.path@), req.create, req.append, encode_utf8(req.content@)),
{
    let path = req.path.as_str();
    match open_for_write(vol, path, req.create) {
        Some(file) => {
            let bytes = req.content.as_str().as_bytes();
            write_to_opened(file, vol, req.append, bytes)
        },
        None => WriteOutcome::NotOpened,
    }
}

} // verus!
