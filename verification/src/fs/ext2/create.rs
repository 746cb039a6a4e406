//! Creating files and directories: trimming and splitting the path, making
//! the inode, and adding its entry to the parent directory.
use vstd::prelude::*;
use vstd::string::StringSliceAdditionalSpecFns;
use crate::bytes::le_u32;
use super::bitmap::{can_mark, first_free, marked};
use super::block_alloc::{build_inode, can_build, grow, new_inode_bytes, Grown};
use super::dir::{DirEntry, EntryView, opt_view};
use super::dir_add::{add_entry, can_add_entry, Added};
use super::inode::{Inode, InodeType, InodeView, inode_block, inode_offset, loadable};
use super::inode_blocks::written_back;
use super::path::{find_path_bytes, inode_raw, path_entry, path_ok, split_bytes, split_on, byte_views};
use super::volume::{Volume, VolumeState, same_geometry, lemma_same_geometry_trans, lemma_same_geometry_refl};

verus! {

/// Length of the white-space character `s` starts with (as encoded in
/// UTF-8), or 0: tab to carriage return, space, U+0085, U+00A0, U+1680,
/// U+2000 to U+200A, U+2028, U+2029, U+202F, U+205F and U+3000.
pub open spec fn ws_prefix_len(s: Seq<u8>) -> int {
    if s.len() >= 1 && ((0x09 <= s[0] <= 0x0D) || s[0] == 0x20) {
        1
    } else if s.len() >= 2 && s[0] == 0xC2 && (s[1] == 0x85 || s[1] == 0xA0) {
        2
    } else if s.len() >= 3 && ((s[0] == 0xE1 && s[1] == 0x9A && s[2] == 0x80) || (s[0] == 0xE2
        && s[1] == 0x80 && ((0x80 <= s[2] <= 0x8A) || s[2] == 0xA8 || s[2] == 0xA9 || s[2]
        == 0xAF)) || (s[0] == 0xE2 && s[1] == 0x81 && s[2] == 0x9F) || (s[0] == 0xE3 && s[1]
        == 0x80 && s[2] == 0x80)) {
        3
    } else {
        0
    }
}

/// Length of the white-space character `s` ends with, or 0.
pub open spec fn ws_suffix_len(s: Seq<u8>) -> int {
    let n = s.len() as int;
    if n >= 1 && ws_prefix_len(s.skip(n - 1)) == 1 {
        1
    } else if n >= 2 && ws_prefix_len(s.skip(n - 2)) == 2 {
        2
    } else if n >= 3 && ws_prefix_len(s.skip(n - 3)) == 3 {
        3
    } else {
        0
    }
}

/// `s` without leading white space.
pub open spec fn trim_start(s: Seq<u8>) -> Seq<u8>
    decreases s.len(),
{
    let k = ws_prefix_len(s);
    if k == 0 {
        s
    } else {
        trim_start(s.skip(k))
    }
}

/// `s` without trailing white space.
pub open spec fn trim_end(s: Seq<u8>) -> Seq<u8>
    decreases s.len(),
{
    let k = ws_suffix_len(s);
    if k == 0 {
        s
    } else {
        trim_end(s.take(s.len() - k))
    }
}

/// `s` without leading and trailing white space.
pub open spec fn trimmed(s: Seq<u8>) -> Seq<u8> {
    trim_end(trim_start(s))
}

/// Length of the white-space character at `s[from..]`.
fn ws_prefix(s: &[u8], from: usize, to: usize) -> (k: usize)
    requires
        from <= to <= s@.len(),
    ensures
        k == ws_prefix_len(s@.subrange(from as int, to as int)),
{
    let ghost t = s@.subrange(from as int, to as int);
    let n = to - from;
    if n >= 1 && ((0x09 <= s[from] && s[from] <= 0x0D) || s[from] == 0x20) {
        return 1;
    }
    if n >= 2 && s[from] == 0xC2 && (s[from + 1] == 0x85 || s[from + 1] == 0xA0) {
        return 2;
    }
    if n >= 3 {
        let a = s[from];
        let b = s[from + 1];
        let c = s[from + 2];
        if (a == 0xE1 && b == 0x9A && c == 0x80) || (a == 0xE2 && b == 0x80 && ((0x80 <= c && c
            <= 0x8A) || c == 0xA8 || c == 0xA9 || c == 0xAF)) || (a == 0xE2 && b == 0x81 && c
            == 0x9F) || (a == 0xE3 && b == 0x80 && c == 0x80) {
            return 3;
        }
    }
    0
}

/// Length of the white-space character that `s[from..to]` ends with.
fn ws_suffix(s: &[u8], from: usize, to: usize) -> (k: usize)
    requires
        from <= to <= s@.len(),
    ensures
        k == ws_suffix_len(s@.subrange(from as int, to as int)),
{
    let ghost t = s@.subrange(from as int, to as int);
    let n = to - from;
    if n >= 1 && ws_prefix(s, to - 1, to) == 1 {
        assert(t.skip(n - 1) =~= s@.subrange(to - 1, to as int));
        return 1;
    }
    assert(n >= 1 ==> t.skip(n - 1) =~= s@.subrange(to - 1, to as int));
    if n >= 2 && ws_prefix(s, to - 2, to) == 2 {
        assert(t.skip(n - 2) =~= s@.subrange(to - 2, to as int));
        return 2;
    }
    assert(n >= 2 ==> t.skip(n - 2) =~= s@.subrange(to - 2, to as int));
    if n >= 3 && ws_prefix(s, to - 3, to) == 3 {
        assert(t.skip(n - 3) =~= s@.subrange(to - 3, to as int));
        return 3;
    }
    assert(n >= 3 ==> t.skip(n - 3) =~= s@.subrange(to - 3, to as int));
    0
}

/// `s` with leading and trailing white space removed.
pub fn trim_bytes(s: &[u8]) -> (t: Vec<u8>)
    ensures
        t@ == trimmed(s@),
{
    let mut from: usize = 0;
    let to = s.len();
    assert(s@.subrange(0, to as int) =~= s@);
    let mut k = ws_prefix(s, from, to);
    while k != 0
        invariant
            from <= to,
            to == s@.len(),
            k == ws_prefix_len(s@.subrange(from as int, to as int)),
            trim_start(s@.subrange(from as int, to as int)) == trim_start(s@),
        decreases to - from,
    {
        assert(s@.subrange(from as int, to as int).skip(k as int) =~= s@.subrange(
            from + k,
            to as int,
        ));
        from = from + k;
        k = ws_prefix(s, from, to);
    }
    let mut end: usize = to;
    assert(s@.subrange(from as int, end as int) == trim_start(s@));
    let mut k = ws_suffix(s, from, end);
    while k != 0
        invariant
            from <= end <= to,
            to == s@.len(),
            k == ws_suffix_len(s@.subrange(from as int, end as int)),
            trim_end(s@.subrange(from as int, end as int)) == trimmed(s@),
        decreases end - from,
    {
        assert(s@.subrange(from as int, end as int).take(end - from - k) =~= s@.subrange(
            from as int,
            end - k,
        ));
        end = end - k;
        k = ws_suffix(s, from, end);
    }
    let mut t: Vec<u8> = Vec::new();
    t.extend_from_slice(&s[from..end]);
    assert(t@ =~= s@.subrange(from as int, end as int));
    t
}

/// The pieces joined with `sep` between them.
pub open spec fn join_on(parts: Seq<Seq<u8>>, sep: u8) -> Seq<u8>
    decreases parts.len(),
{
    if parts.len() == 0 {
        seq![]
    } else if parts.len() == 1 {
        parts[0]
    } else {
        join_on(parts.drop_last(), sep).push(sep) + parts.last()
    }
}

/// Joins the first `n` pieces with `sep` between them.
fn join_bytes(parts: &Vec<Vec<u8>>, n: usize, sep: u8) -> (j: Vec<u8>)
    requires
        n <= parts@.len(),
    ensures
        j@ == join_on(byte_views(parts@).take(n as int), sep),
{
    let mut out: Vec<u8> = Vec::new();
    let mut i: usize = 0;
    assert(byte_views(parts@).take(0) =~= Seq::<Seq<u8>>::empty());
    while i < n
        invariant
            n <= parts@.len(),
            0 <= i <= n,
            out@ == join_on(byte_views(parts@).take(i as int), sep),
        decreases n - i,
    {
        let ghost before = out@;
        let ghost p = byte_views(parts@).take(i + 1);
        assert(p.drop_last() =~= byte_views(parts@).take(i as int));
        assert(p.last() == parts@[i as int]@);
        if i > 0 {
            out.push(sep);
        }
        out.extend_from_slice(parts[i].as_slice());
        assert(out@ =~= join_on(p, sep));
        i = i + 1;
    }
    out
}

/// The name of the entry a path creates: its last piece, trimmed.
pub open spec fn file_name_of(name: Seq<u8>) -> Seq<u8> {
    trimmed(split_on(name, 47u8).last())
}

/// The directory a path creates its entry in: the path up to its last '/',
/// or "." when it has none or starts with '/'.
pub open spec fn root_of(name: Seq<u8>) -> Seq<u8> {
    let t = split_on(name, 47u8);
    if t.len() > 1 && t[0].len() > 0 {
        join_on(t.take(t.len() - 1), 47u8)
    } else {
        seq![46u8]
    }
}

/// The entry first made for a new inode `id` named `fname`.
pub open spec fn fresh_entry(id: int, fname: Seq<u8>, code: u8) -> EntryView {
    EntryView {
        inode: id as u32,
        rec_len: (8 + (fname.len() as u16)) as u16,
        name_len: fname.len() as u8,
        file_type: code,
        name: fname,
        next: 0,
    }
}

/// The new inode of type `t` as it is built in state `s`.
pub open spec fn built_view(s: VolumeState, t: InodeType) -> InodeView {
    let id = first_free(s, true).unwrap() as int;
    let g = grow(new_inode_bytes(t), s);
    InodeView {
        raw: if t == InodeType::Directory {
            crate::bytes::splice(g.raw, 4, crate::bytes::u32_le_bytes(1024))
        } else {
            g.raw
        },
        id,
        block: inode_block(s, id),
        offset_in_block: inode_offset(s, id),
        need_flush: true,
    }
}

/// The state after the new inode of type `t` is built.
pub open spec fn built_state(s: VolumeState, t: InodeType) -> VolumeState {
    let id = first_free(s, true).unwrap() as int;
    marked(grow(new_inode_bytes(t), s).s, id, true, true)
}

/// The parent directory's inode, loaded (to be written back) from `id`.
pub open spec fn parent_view(s: VolumeState, id: int) -> InodeView {
    InodeView {
        raw: inode_raw(s, id),
        id,
        block: if id == 0 {
            0
        } else {
            inode_block(s, id)
        },
        offset_in_block: if id == 0 {
            0
        } else {
            inode_offset(s, id)
        },
        need_flush: id != 0,
    }
}

/// Creating the entry `name` with a new inode of type `t` and file type
/// code `code`: the entry and the state after.  An existing entry of that
/// (trimmed) path is returned as it is.  Otherwise an inode is built and
/// the entry for it is added to the parent directory when that directory
/// is found; the parent and the new inode are then written back.
pub open spec fn created(s: VolumeState, name: Seq<u8>, t: InodeType, code: u8) -> (EntryView, VolumeState) {
    match path_entry(s, trimmed(name)) {
        Some(e) => (e, s),
        None => {
            let iv = built_view(s, t);
            let s1 = built_state(s, t);
            let e0 = fresh_entry(iv.id, file_name_of(name), code);
            match path_entry(s1, root_of(name)) {
                None => (e0, written_back(s1, iv)),
                Some(re) => {
                    let pv = parent_view(s1, re.inode as int);
                    let a = add_entry(pv.raw, s1, e0);
                    let pv2 = InodeView { raw: a.raw, ..pv };
                    (a.entry, written_back(written_back(a.s, pv2), iv))
                },
            }
        },
    }
}

/// Creating the entry meets no fault.
pub open spec fn can_create(s: VolumeState, name: Seq<u8>, t: InodeType, code: u8) -> bool {
    &&& path_ok(s, trimmed(name))
    &&& path_entry(s, trimmed(name)) is None ==> {
        let iv = built_view(s, t);
        let s1 = built_state(s, t);
        let fname = file_name_of(name);
        let e0 = fresh_entry(iv.id, fname, code);
        &&& can_build(s, t)
        &&& (fname.len() as u16) + 8 <= u16::MAX
        &&& path_ok(s1, root_of(name))
        &&& match path_entry(s1, root_of(name)) {
            None => iv.can_write_back(s1),
            Some(re) => {
                let pv = parent_view(s1, re.inode as int);
                let a = add_entry(pv.raw, s1, e0);
                let pv2 = InodeView { raw: a.raw, ..pv };
                &&& loadable(s1, re.inode as int)
                &&& can_add_entry(pv.raw, s1, e0)
                &&& pv2.need_flush ==> pv2.can_write_back(a.s)
                &&& iv.can_write_back(written_back(a.s, pv2))
            },
        }
    }
}

/// Creates the entry `name` with a new inode of type `t` and file type
/// code `code`.
fn create_entry(vol: &mut Volume, name: &str, t: InodeType, code: u8) -> (e: DirEntry)
    requires
        old(vol).wf(),
        can_create(old(vol)@, name.spec_bytes(), t, code),
    ensures
        final(vol).wf(),
        (e@, final(vol)@) == created(old(vol)@, name.spec_bytes(), t, code),
{
    let name_b = name.as_bytes();
    let trimmed_name = trim_bytes(name_b);
    let existing = find_path_bytes(vol, trimmed_name.as_slice());
    match existing {
        Some(e) => {
            return e;
        },
        None => {},
    }
    let tokens = split_bytes(name_b, 47u8);
    proof {
        super::path::lemma_split_on_nonempty(name_b@, 47u8);
    }
    let n = tokens.len();
    let file_name = trim_bytes(tokens[n - 1].as_slice());
    let root: Vec<u8> = if n > 1 && tokens[0].len() > 0 {
        join_bytes(&tokens, n - 1, 47u8)
    } else {
        let mut dot: Vec<u8> = Vec::new();
        dot.push(46u8);
        assert(dot@ =~= seq![46u8]);
        dot
    };
    let mut inode = build_inode(vol, t);
    let rec_len: u16 = 8 + file_name.len() as u16;
    let fname_len = file_name.len() as u8;
    let mut entry = DirEntry {
        inode: inode.get_id() as u32,
        rec_len,
        name_len: fname_len,
        file_type: code,
        name: file_name,
        next: 0,
    };
    let root_entry = find_path_bytes(vol, root.as_slice());
    match root_entry {
        None => {
            inode.release(vol);
            entry
        },
        Some(re) => {
            let mut root_inode = Inode::from_id(vol, re.inode as usize);
            entry.add_to_inode(&mut root_inode, vol);
            root_inode.release(vol);
            inode.release(vol);
            entry
        },
    }
}

impl DirEntry {
    /// Creates the entry `name` with a new inode of type `file_type`; the
    /// entry records the directory file type.
    pub fn new(vol: &mut Volume, name: &str, file_type: InodeType) -> (e: DirEntry)
        requires
            old(vol).wf(),
            can_create(old(vol)@, name.spec_bytes(), file_type, 2),
        ensures
            final(vol).wf(),
            (e@, final(vol)@) == created(old(vol)@, name.spec_bytes(), file_type, 2),
    {
        create_entry(vol, name, file_type, 2)
    }

    /// Creates the regular file `name`.
    pub fn new_file(vol: &mut Volume, name: &str) -> (e: DirEntry)
        requires
            old(vol).wf(),
            can_create(old(vol)@, name.spec_bytes(), InodeType::RegularFile, 1),
        ensures
            final(vol).wf(),
            (e@, final(vol)@) == created(old(vol)@, name.spec_bytes(), InodeType::RegularFile, 1),
    {
        create_entry(vol, name, InodeType::RegularFile, 1)
    }
}

/// Creates the regular file `path`.
pub fn touch(vol: &mut Volume, path: &str)
    requires
        old(vol).wf(),
        can_create(old(vol)@, path.spec_bytes(), InodeType::RegularFile, 1),
    ensures
        final(vol).wf(),
        final(vol)@ == created(old(vol)@, path.spec_bytes(), InodeType::RegularFile, 1).1,
{
    let _entry = DirEntry::new_file(vol, path);
}

/// Creates the directory `path`.
pub fn mkdir(vol: &mut Volume, path: &str)
    requires
        old(vol).wf(),
        can_create(old(vol)@, path.spec_bytes(), InodeType::Directory, 2),
    ensures
        final(vol).wf(),
        final(vol)@ == created(old(vol)@, path.spec_bytes(), InodeType::Directory, 2).1,
{
    let _entry = DirEntry::new(vol, path, InodeType::Directory);
}

/// Creating an entry on a path that already names one gives that entry
/// back and leaves the volume as it was: a second creation of the same
/// file changes nothing.
pub proof fn law_create_existing(s: VolumeState, name: Seq<u8>, t: InodeType, code: u8)
    requires
        path_entry(s, trimmed(name)) is Some,
    ensures
        created(s, name, t, code) == (path_entry(s, trimmed(name)).unwrap(), s),
{
}

/// Start-up of the file system layer: everything it needs is read when the
/// volume is mounted, so nothing is left to do here.
pub fn init() {
}

} // verus!
