//! Paths: splitting them at '/', walking them from the root directory, and
//! listing the directory a path names.
use vstd::prelude::*;
use vstd::string::StringSliceAdditionalSpecFns;
use crate::bytes::{le_u16, le_u32};
use super::dir::{
    dir_entries, dir_ok, find_name_in_dir, first_named, list_dir, opt_view, views, DirEntry,
    EntryView,
};
use super::inode::{Inode, InodeType, loadable, mode_type, stored_inode};
use super::volume::{Volume, VolumeState};

verus! {

/// The pieces of `s` between the separators `sep`, as `split` gives them:
/// empty pieces included, and one piece more than there are separators.
pub open spec fn split_on(s: Seq<u8>, sep: u8) -> Seq<Seq<u8>>
    decreases s.len(),
{
    if s.len() == 0 {
        seq![seq![]]
    } else {
        let p = split_on(s.drop_last(), sep);
        if s.last() == sep {
            p.push(seq![])
        } else {
            p.update(p.len() - 1, p.last().push(s.last()))
        }
    }
}

pub proof fn lemma_split_on_nonempty(s: Seq<u8>, sep: u8)
    ensures
        split_on(s, sep).len() >= 1,
    decreases s.len(),
{
    if s.len() > 0 {
        lemma_split_on_nonempty(s.drop_last(), sep);
    }
}

/// The byte strings held by a list of byte vectors.
pub open spec fn byte_views(v: Seq<Vec<u8>>) -> Seq<Seq<u8>> {
    v.map_values(|b: Vec<u8>| b@)
}

/// Splits `s` at every `sep`.
pub fn split_bytes(s: &[u8], sep: u8) -> (parts: Vec<Vec<u8>>)
    ensures
        byte_views(parts@) == split_on(s@, sep),
{
    let mut parts: Vec<Vec<u8>> = Vec::new();
    let mut cur: Vec<u8> = Vec::new();
    let mut i: usize = 0;
    proof {
        assert(s@.take(0) =~= Seq::<u8>::empty());
    }
    while i < s.len()
        invariant
            0 <= i <= s@.len(),
            byte_views(parts@).push(cur@) == split_on(s@.take(i as int), sep),
        decreases s@.len() - i,
    {
        let ghost t = s@.take(i + 1);
        proof {
            assert(t.drop_last() =~= s@.take(i as int));
            assert(t.last() == s@[i as int]);
            lemma_split_on_nonempty(s@.take(i as int), sep);
        }
        if s[i] == sep {
            let ghost before = parts@;
            let done = cur;
            parts.push(done);
            cur = Vec::new();
            proof {
                assert(byte_views(parts@) =~= byte_views(before).push(done@));
                assert(byte_views(parts@).push(cur@) =~= byte_views(before).push(done@).push(
                    seq![],
                ));
            }
        } else {
            let ghost before = cur@;
            cur.push(s[i]);
            proof {
                let p = split_on(s@.take(i as int), sep);
                assert(byte_views(parts@).push(cur@) =~= p.update(p.len() - 1, p.last().push(s@[i as int])));
            }
        }
        i = i + 1;
    }
    assert(s@.take(s@.len() as int) =~= s@);
    let ghost before = parts@;
    parts.push(cur);
    assert(byte_views(parts@) =~= byte_views(before).push(cur@));
    parts
}

/// The bytes of inode `id`: the null inode for 0, else as stored on disk.
pub open spec fn inode_raw(s: VolumeState, id: int) -> Seq<u8> {
    if id == 0 {
        Seq::new(120, |k: int| 0u8)
    } else {
        stored_inode(s, id)
    }
}

/// The root directory's inode.
pub open spec fn root_id() -> int {
    2
}

/// The walk along the pieces of a path from piece `k` on, in the directory
/// whose inode bytes are `cur`, with `counter` pieces matched so far.
/// Empty pieces are skipped, and so is every piece while the current inode
/// is not a directory; a piece that is not found ends the walk with
/// nothing; the entry of the last matched piece is the result when every
/// piece of the path (empty ones counted) has been matched.
pub open spec fn walk_path(
    s: VolumeState,
    parts: Seq<Seq<u8>>,
    k: int,
    cur: Seq<u8>,
    counter: int,
) -> Option<EntryView>
    decreases parts.len() - k,
{
    if k < 0 || k >= parts.len() {
        None
    } else if parts[k].len() == 0 || mode_type(le_u16(cur, 0)) != InodeType::Directory {
        walk_path(s, parts, k + 1, cur, counter)
    } else {
        match first_named(dir_entries(s.img, cur, s.block_size() as u32), parts[k]) {
            None => None,
            Some(e) => if counter + 1 == parts.len() {
                Some(e)
            } else {
                walk_path(s, parts, k + 1, inode_raw(s, e.inode as int), counter + 1)
            },
        }
    }
}

/// The walk meets no fault: each directory searched can be read, and each
/// inode met can be loaded.
pub open spec fn walk_ok(s: VolumeState, parts: Seq<Seq<u8>>, k: int, cur: Seq<u8>, counter: int) -> bool
    decreases parts.len() - k,
{
    if k < 0 || k >= parts.len() {
        true
    } else if parts[k].len() == 0 || mode_type(le_u16(cur, 0)) != InodeType::Directory {
        walk_ok(s, parts, k + 1, cur, counter)
    } else {
        &&& dir_ok(s.img, cur, s.block_size() as u32)
        &&& match first_named(dir_entries(s.img, cur, s.block_size() as u32), parts[k]) {
            None => true,
            Some(e) => {
                &&& loadable(s, e.inode as int)
                &&& counter + 1 != parts.len() ==> walk_ok(
                    s,
                    parts,
                    k + 1,
                    inode_raw(s, e.inode as int),
                    counter + 1,
                )
            },
        }
    }
}

/// The entry a path names.
pub open spec fn path_entry(s: VolumeState, path: Seq<u8>) -> Option<EntryView> {
    walk_path(s, split_on(path, 47u8), 0, inode_raw(s, root_id()), 0)
}

/// Looking a path up meets no fault.
pub open spec fn path_ok(s: VolumeState, path: Seq<u8>) -> bool {
    &&& loadable(s, root_id())
    &&& walk_ok(s, split_on(path, 47u8), 0, inode_raw(s, root_id()), 0)
}

/// Looks up the entry a path names, walking from the root directory.
pub fn find_path_bytes(vol: &Volume, path: &[u8]) -> (r: Option<DirEntry>)
    requires
        vol.wf(),
        path_ok(vol@, path@),
    ensures
        opt_view(r) == path_entry(vol@, path@),
{
    let ghost s = vol@;
    let path_parts = split_bytes(path, 47u8);
    let ghost parts = byte_views(path_parts@);
    let mut current_inode = Inode::from_id_no_flush(vol, 2);
    let mut counter: usize = 0;
    let mut k: usize = 0;
    while k < path_parts.len()
        invariant
            vol.wf(),
            s == vol@,
            parts == byte_views(path_parts@),
            parts == split_on(path@, 47u8),
            parts.len() == path_parts@.len(),
            0 <= k <= parts.len(),
            counter <= k,
            current_inode.wf(),
            walk_ok(s, parts, k as int, current_inode.raw@, counter as int),
            walk_path(s, parts, k as int, current_inode.raw@, counter as int) == walk_path(
                s,
                parts,
                0,
                inode_raw(s, root_id()),
                0,
            ),
        decreases parts.len() - k,
    {
        let part = &path_parts[k];
        assert(part@ == parts[k as int]);
        if part.len() == 0 {
            k = k + 1;
            continue;
        }
        if current_inode.get_type() != InodeType::Directory {
            assert(mode_type(le_u16(current_inode.raw@, 0)) != InodeType::Directory);
            k = k + 1;
            continue;
        }
        counter = counter + 1;
        let found = find_name_in_dir(vol, part.as_slice(), &current_inode);
        match found {
            Some(entry) => {
                current_inode = Inode::from_id_no_flush(vol, entry.inode as usize);
                assert(current_inode.raw@ == inode_raw(s, entry.inode as int));
                if counter == path_parts.len() {
                    return Some(entry);
                }
            },
            None => {
                return None;
            },
        }
        k = k + 1;
    }
    None
}

/// Looks up the entry a path names.
pub fn find_by_path(vol: &Volume, path: &str) -> (r: Option<DirEntry>)
    requires
        vol.wf(),
        path_ok(vol@, path.spec_bytes()),
    ensures
        opt_view(r) == path_entry(vol@, path.spec_bytes()),
{
    find_path_bytes(vol, path.as_bytes())
}

/// What listing a path gives: the entries of the directory it names, or
/// nothing when it names nothing or no directory.
pub open spec fn files_at(s: VolumeState, path: Seq<u8>) -> Seq<EntryView> {
    match path_entry(s, path) {
        None => seq![],
        Some(e) => {
            let raw = inode_raw(s, e.inode as int);
            if mode_type(le_u16(raw, 0)) != InodeType::Directory {
                seq![]
            } else {
                dir_entries(s.img, raw, s.block_size() as u32)
            }
        },
    }
}

/// Listing a path meets no fault.
pub open spec fn files_ok(s: VolumeState, path: Seq<u8>) -> bool {
    &&& path_ok(s, path)
    &&& match path_entry(s, path) {
        None => true,
        Some(e) => {
            let raw = inode_raw(s, e.inode as int);
            &&& loadable(s, e.inode as int)
            &&& mode_type(le_u16(raw, 0)) == InodeType::Directory ==> dir_ok(
                s.img,
                raw,
                s.block_size() as u32,
            )
        },
    }
}

/// The entries of the directory a path names.
pub fn get_files_in_dir(vol: &Volume, path: &str) -> (v: Vec<DirEntry>)
    requires
        vol.wf(),
        files_ok(vol@, path.spec_bytes()),
    ensures
        views(v@) == files_at(vol@, path.spec_bytes()),
{
    let entry = find_by_path(vol, path);
    match entry {
        None => {
            let v: Vec<DirEntry> = Vec::new();
            assert(views(v@) =~= Seq::<EntryView>::empty());
            v
        },
        Some(entry) => {
            let inode = Inode::from_id_no_flush(vol, entry.inode as usize);
            if inode.get_type() != InodeType::Directory {
                let v: Vec<DirEntry> = Vec::new();
                assert(views(v@) =~= Seq::<EntryView>::empty());
                return v;
            }
            list_dir(vol, &inode)
        },
    }
}

} // verus!
