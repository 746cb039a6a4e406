//! Directory entries: reading them out of directory blocks, searching a
//! directory and listing it.
//!
//! An entry on disk is the inode number (4 bytes), the record length (2),
//! the name length (1), the file type (1) and the name.  Entries of a block
//! are chained by their record lengths; a record length of zero, or one
//! that reaches the end of the block, ends the chain.
use vstd::prelude::*;
use vstd::string::StringSliceAdditionalSpecFns;
use crate::bytes::{le_u16, le_u32, read_u16_le, read_u32_le};
use super::disk::{block_addressable, block_read, read_1kb_block, slice_range};
use super::inode::{Inode, direct_offset};
use super::inode_blocks::word;
use super::volume::{Volume, VolumeState, lemma_block_size_range};

verus! {

/// The file type recorded in a directory entry.
#[derive(Debug, Clone, Copy, PartialEq, Eq, Structural)]
pub enum DirEntryType {
    Unknown,
    RegularFile,
    Directory,
    CharacterDevice,
    BlockDevice,
    FIFO,
    Socket,
    Symlink,
}

/// The code of each file type.
pub open spec fn type_code(t: DirEntryType) -> u8 {
    match t {
        DirEntryType::Unknown => 0,
        DirEntryType::RegularFile => 1,
        DirEntryType::Directory => 2,
        DirEntryType::CharacterDevice => 3,
        DirEntryType::BlockDevice => 4,
        DirEntryType::FIFO => 5,
        DirEntryType::Socket => 6,
        DirEntryType::Symlink => 7,
    }
}

impl DirEntryType {
    /// Decodes a file type code; codes above 7 are unknown.
    pub fn from_u8(value: u8) -> (t: Self)
        ensures
            value <= 7 ==> type_code(t) == value,
            value > 7 ==> t == DirEntryType::Unknown,
    {
        match value {
            0 => DirEntryType::Unknown,
            1 => DirEntryType::RegularFile,
            2 => DirEntryType::Directory,
            3 => DirEntryType::CharacterDevice,
            4 => DirEntryType::BlockDevice,
            5 => DirEntryType::FIFO,
            6 => DirEntryType::Socket,
            7 => DirEntryType::Symlink,
            _ => DirEntryType::Unknown,
        }
    }

    /// The code of this file type.
    pub fn to_u8(&self) -> (v: u8)
        ensures
            v == type_code(*self),
    {
        match self {
            DirEntryType::Unknown => 0,
            DirEntryType::RegularFile => 1,
            DirEntryType::Directory => 2,
            DirEntryType::CharacterDevice => 3,
            DirEntryType::BlockDevice => 4,
            DirEntryType::FIFO => 5,
            DirEntryType::Socket => 6,
            DirEntryType::Symlink => 7,
        }
    }
}

/// A directory entry as plain values; `next` is where the following entry
/// of its block starts.
pub struct EntryView {
    pub inode: u32,
    pub rec_len: u16,
    pub name_len: u8,
    pub file_type: u8,
    pub name: Seq<u8>,
    pub next: int,
}

/// A directory entry read from (or to be written to) a directory block.
#[derive(Debug, Clone)]
pub struct DirEntry {
    pub inode: u32,
    pub rec_len: u16,
    pub name_len: u8,
    pub file_type: u8,
    pub name: Vec<u8>,
    pub next: usize,
}

impl DirEntry {
    pub open spec fn view(&self) -> EntryView {
        EntryView {
            inode: self.inode,
            rec_len: self.rec_len,
            name_len: self.name_len,
            file_type: self.file_type,
            name: self.name@,
            next: self.next as int,
        }
    }
}

/// The entry that starts at byte `start` of a directory block.
pub open spec fn entry_at(data: Seq<u8>, start: int) -> EntryView {
    EntryView {
        inode: le_u32(data, start),
        rec_len: le_u16(data, start + 4),
        name_len: data[start + 6],
        file_type: data[start + 7],
        name: data.subrange(start + 8, start + 8 + data[start + 6]),
        next: start + le_u16(data, start + 4),
    }
}

/// The entry at `start` lies inside the block, name included.
pub open spec fn entry_fits(data: Seq<u8>, start: int) -> bool {
    &&& 0 <= start
    &&& start + 8 <= data.len()
    &&& start + 8 + data[start + 6] <= data.len()
}

/// Another entry follows the one at `start`.
pub open spec fn continues(data: Seq<u8>, start: int) -> bool {
    &&& 0 <= start
    &&& le_u16(data, start + 4) != 0
    &&& start + le_u16(data, start + 4) < data.len()
}

/// Every entry of the chain from `start` on lies inside the block.
pub open spec fn chain_ok(data: Seq<u8>, start: int) -> bool
    decreases data.len() - start,
{
    &&& entry_fits(data, start)
    &&& continues(data, start) ==> chain_ok(data, start + le_u16(data, start + 4))
}

/// The entries of the chain from `start` on.
pub open spec fn chain(data: Seq<u8>, start: int) -> Seq<EntryView>
    decreases data.len() - start,
{
    if continues(data, start) {
        seq![entry_at(data, start)] + chain(data, start + le_u16(data, start + 4))
    } else {
        seq![entry_at(data, start)]
    }
}

/// The last entry of the chain from `start` on.
pub open spec fn chain_last(data: Seq<u8>, start: int) -> EntryView
    decreases data.len() - start,
{
    if continues(data, start) {
        chain_last(data, start + le_u16(data, start + 4))
    } else {
        entry_at(data, start)
    }
}

/// The entries of directory block `b`; block 0 has none.
pub open spec fn block_entries(img: Seq<u8>, b: u32, bs: u32) -> Seq<EntryView> {
    if b == 0 {
        seq![]
    } else {
        chain(block_read(img, b, bs), 0)
    }
}

/// Directory block `b` can be read and its chain parsed.
pub open spec fn block_ok(img: Seq<u8>, b: u32, bs: u32) -> bool {
    b == 0 || (block_addressable(b, bs) && chain_ok(block_read(img, b, bs), 0))
}

/// The entries of the listed blocks, in order.
pub open spec fn entries_in(img: Seq<u8>, blocks: Seq<u32>, bs: u32) -> Seq<EntryView>
    decreases blocks.len(),
{
    if blocks.len() == 0 {
        seq![]
    } else {
        entries_in(img, blocks.drop_last(), bs) + block_entries(img, blocks.last(), bs)
    }
}

/// Every listed block can be read and parsed.
pub open spec fn blocks_ok(img: Seq<u8>, blocks: Seq<u32>, bs: u32) -> bool {
    forall|i: int| 0 <= i < blocks.len() ==> #[trigger] block_ok(img, blocks[i], bs)
}

/// The first entry named `name`.
pub open spec fn first_named(es: Seq<EntryView>, name: Seq<u8>) -> Option<EntryView>
    decreases es.len(),
{
    if es.len() == 0 {
        None
    } else if es[0].name == name {
        Some(es[0])
    } else {
        first_named(es.drop_first(), name)
    }
}

/// The entries listed in the indirect block `b`, all 256 of them (empty
/// slots included).
pub open spec fn ind_words(img: Seq<u8>, b: u32, bs: u32) -> Seq<u32> {
    if b == 0 {
        seq![]
    } else {
        Seq::new(256, |i: int| word(block_read(img, b, bs), i))
    }
}

/// The blocks under the first `n` entries of a doubly indirect block.
pub open spec fn dind_prefix(img: Seq<u8>, data: Seq<u8>, n: int, bs: u32) -> Seq<u32>
    decreases n,
{
    if n <= 0 {
        seq![]
    } else {
        dind_prefix(img, data, n - 1, bs) + ind_words(img, word(data, n - 1), bs)
    }
}

/// The data blocks under the doubly indirect block `b`.
pub open spec fn dind_words(img: Seq<u8>, b: u32, bs: u32) -> Seq<u32> {
    if b == 0 {
        seq![]
    } else {
        dind_prefix(img, block_read(img, b, bs), 256, bs)
    }
}

/// The blocks under the first `n` entries of a triply indirect block.
pub open spec fn tind_prefix(img: Seq<u8>, data: Seq<u8>, n: int, bs: u32) -> Seq<u32>
    decreases n,
{
    if n <= 0 {
        seq![]
    } else {
        tind_prefix(img, data, n - 1, bs) + dind_words(img, word(data, n - 1), bs)
    }
}

/// The data blocks under the triply indirect block `b`.
pub open spec fn tind_words(img: Seq<u8>, b: u32, bs: u32) -> Seq<u32> {
    if b == 0 {
        seq![]
    } else {
        tind_prefix(img, block_read(img, b, bs), 256, bs)
    }
}

/// The directory blocks of an inode, in the order they are searched: the
/// twelve direct pointers, then the blocks under the indirect, doubly and
/// triply indirect blocks.
pub open spec fn dir_blocks(img: Seq<u8>, raw: Seq<u8>, bs: u32) -> Seq<u32> {
    direct_list(raw) + ind_words(img, le_u32(raw, 88), bs) + dind_words(img, le_u32(raw, 92), bs)
        + tind_words(img, le_u32(raw, 96), bs)
}

/// The twelve direct pointers of an inode's bytes.
pub open spec fn direct_list(raw: Seq<u8>) -> Seq<u32> {
    Seq::new(12, |i: int| le_u32(raw, direct_offset(i)))
}

/// The entries of a directory, in order.
pub open spec fn dir_entries(img: Seq<u8>, raw: Seq<u8>, bs: u32) -> Seq<EntryView> {
    entries_in(img, dir_blocks(img, raw, bs), bs)
}

/// The indirect block `b` can be read and each block it lists parsed.
pub open spec fn ind_ok(img: Seq<u8>, b: u32, bs: u32) -> bool {
    b == 0 || (block_addressable(b, bs) && blocks_ok(img, ind_words(img, b, bs), bs))
}

/// The doubly indirect block `b` and everything under it can be read.
pub open spec fn dind_ok(img: Seq<u8>, b: u32, bs: u32) -> bool {
    b == 0 || (block_addressable(b, bs) && forall|i: int|
        0 <= i < 256 ==> #[trigger] ind_ok(img, word(block_read(img, b, bs), i), bs))
}

/// The triply indirect block `b` and everything under it can be read.
pub open spec fn tind_ok(img: Seq<u8>, b: u32, bs: u32) -> bool {
    b == 0 || (block_addressable(b, bs) && forall|i: int|
        0 <= i < 256 ==> #[trigger] dind_ok(img, word(block_read(img, b, bs), i), bs))
}

/// The whole directory can be read and parsed.
pub open spec fn dir_ok(img: Seq<u8>, raw: Seq<u8>, bs: u32) -> bool {
    &&& blocks_ok(img, direct_list(raw), bs)
    &&& ind_ok(img, le_u32(raw, 88), bs)
    &&& dind_ok(img, le_u32(raw, 92), bs)
    &&& tind_ok(img, le_u32(raw, 96), bs)
}

/// The entry views of a list of entries.
pub open spec fn views(v: Seq<DirEntry>) -> Seq<EntryView> {
    v.map_values(|e: DirEntry| e@)
}

/// The entry view of an optional entry.
pub open spec fn opt_view(o: Option<DirEntry>) -> Option<EntryView> {
    match o {
        Some(e) => Some(e@),
        None => None,
    }
}

pub proof fn lemma_entries_in_push(img: Seq<u8>, a: Seq<u32>, x: u32, bs: u32)
    ensures
        entries_in(img, a.push(x), bs) == entries_in(img, a, bs) + block_entries(img, x, bs),
{
    assert(a.push(x).drop_last() =~= a);
}

pub proof fn lemma_entries_in_append(img: Seq<u8>, a: Seq<u32>, b: Seq<u32>, bs: u32)
    ensures
        entries_in(img, a + b, bs) == entries_in(img, a, bs) + entries_in(img, b, bs),
    decreases b.len(),
{
    if b.len() == 0 {
        assert(a + b =~= a);
        assert(entries_in(img, a, bs) + entries_in(img, b, bs) =~= entries_in(img, a, bs));
    } else {
        lemma_entries_in_append(img, a, b.drop_last(), bs);
        assert((a + b).drop_last() =~= a + b.drop_last());
        assert((a + b).last() == b.last());
        assert(entries_in(img, a, bs) + entries_in(img, b.drop_last(), bs) + block_entries(
            img,
            b.last(),
            bs,
        ) =~= entries_in(img, a, bs) + (entries_in(img, b.drop_last(), bs) + block_entries(
            img,
            b.last(),
            bs,
        )));
    }
}

pub proof fn lemma_first_named_append(x: Seq<EntryView>, y: Seq<EntryView>, name: Seq<u8>)
    ensures
        first_named(x + y, name) == if first_named(x, name) is Some {
            first_named(x, name)
        } else {
            first_named(y, name)
        },
    decreases x.len(),
{
    if x.len() == 0 {
        assert(x + y =~= y);
    } else {
        assert((x + y)[0] == x[0]);
        assert((x + y).drop_first() =~= x.drop_first() + y);
        lemma_first_named_append(x.drop_first(), y, name);
    }
}

/// Reads the entry starting at `start` of a directory block.
fn from_ptr(data: &[u8], start: usize) -> (e: DirEntry)
    requires
        data@.len() == 1024,
        entry_fits(data@, start as int),
    ensures
        e@ == entry_at(data@, start as int),
{
    let inode = read_u32_le(data, start);
    let rec_len = read_u16_le(data, start + 4);
    let name_len = data[start + 6];
    let file_type = data[start + 7];
    let mut name: Vec<u8> = Vec::new();
    name.extend_from_slice(slice_range(data, start + 8, start + 8 + name_len as usize));
    assert(name@ =~= data@.subrange(start + 8, start + 8 + data@[start + 6]));
    DirEntry { inode, rec_len, name_len, file_type, name, next: start + rec_len as usize }
}

impl DirEntry {
    /// Parses the entry at `start` of a directory block.
    pub fn from_ptr(data: &[u8], start: usize) -> (e: DirEntry)
        requires
            data@.len() == 1024,
            entry_fits(data@, start as int),
        ensures
            e@ == entry_at(data@, start as int),
    {
        from_ptr(data, start)
    }
}

/// Whether two byte strings are equal.
pub fn bytes_eq(a: &[u8], b: &[u8]) -> (r: bool)
    ensures
        r == (a@ == b@),
{
    if a.len() != b.len() {
        return false;
    }
    let mut i: usize = 0;
    while i < a.len()
        invariant
            a@.len() == b@.len(),
            0 <= i <= a@.len(),
            forall|j: int| 0 <= j < i ==> a@[j] == b@[j],
        decreases a@.len() - i,
    {
        if a[i] != b[i] {
            return false;
        }
        i = i + 1;
    }
    assert(a@ =~= b@);
    true
}

/// Finds the entry named `name` in the chain of a directory block.
fn find_in_chain(data: &Vec<u8>, name: &[u8]) -> (r: Option<DirEntry>)
    requires
        data@.len() == 1024,
        chain_ok(data@, 0),
    ensures
        opt_view(r) == first_named(chain(data@, 0), name@),
{
    let mut entry = from_ptr(data.as_slice(), 0);
    let ghost mut start: int = 0;
    let mut pos: usize = 0;
    while entry.rec_len != 0 && entry.next < data.len()
        invariant
            data@.len() == 1024,
            0 <= pos < 1024,
            chain_ok(data@, pos as int),
            entry@ == entry_at(data@, pos as int),
            first_named(chain(data@, pos as int), name@) == first_named(chain(data@, 0), name@),
        decreases 1024 - pos,
    {
        assert(continues(data@, pos as int));
        assert(chain(data@, pos as int) =~= seq![entry_at(data@, pos as int)] + chain(
            data@,
            entry.next as int,
        ));
        if bytes_eq(entry.name.as_slice(), name) {
            return Some(entry);
        }
        assert(chain(data@, pos as int)[0] == entry@);
        assert(chain(data@, pos as int).drop_first() =~= chain(data@, entry.next as int));
        assert(chain_ok(data@, entry.next as int));
        pos = entry.next;
        entry = from_ptr(data.as_slice(), pos);
    }
    assert(!continues(data@, pos as int));
    assert(chain(data@, pos as int) =~= seq![entry@]);
    if bytes_eq(entry.name.as_slice(), name) {
        return Some(entry);
    }
    assert(chain(data@, pos as int).drop_first() =~= Seq::<EntryView>::empty());
    assert(first_named(Seq::<EntryView>::empty(), name@) is None);
    assert(first_named(chain(data@, pos as int), name@) is None);
    None
}


/// A copy of an entry.
fn copy_entry(e: &DirEntry) -> (c: DirEntry)
    ensures
        c@ == e@,
{
    let mut name: Vec<u8> = Vec::new();
    name.extend_from_slice(e.name.as_slice());
    assert(name@ =~= e.name@);
    DirEntry {
        inode: e.inode,
        rec_len: e.rec_len,
        name_len: e.name_len,
        file_type: e.file_type,
        name,
        next: e.next,
    }
}

/// All entries of the chain of a directory block.
fn list_chain(data: &Vec<u8>) -> (v: Vec<DirEntry>)
    requires
        data@.len() == 1024,
        chain_ok(data@, 0),
    ensures
        views(v@) == chain(data@, 0),
{
    let mut v: Vec<DirEntry> = Vec::new();
    let mut entry = from_ptr(data.as_slice(), 0);
    let mut pos: usize = 0;
    while entry.rec_len != 0 && entry.next < data.len()
        invariant
            data@.len() == 1024,
            0 <= pos < 1024,
            chain_ok(data@, pos as int),
            entry@ == entry_at(data@, pos as int),
            views(v@) + chain(data@, pos as int) == chain(data@, 0),
        decreases 1024 - pos,
    {
        assert(continues(data@, pos as int));
        let ghost before = v@;
        v.push(copy_entry(&entry));
        assert(views(v@) =~= views(before).push(entry@));
        assert(views(v@) + chain(data@, entry.next as int) =~= views(before) + chain(
            data@,
            pos as int,
        ));
        assert(chain_ok(data@, entry.next as int));
        pos = entry.next;
        entry = from_ptr(data.as_slice(), pos);
    }
    assert(!continues(data@, pos as int));
    let ghost before = v@;
    v.push(entry);
    assert(views(v@) =~= views(before) + chain(data@, pos as int));
    v
}

/// Finds the entry named `file_name` in directory block `block_number`.
fn file_in_direct_block(vol: &Volume, block_number: u32, file_name: &[u8], block_size: u32) -> (r:
    Option<DirEntry>)
    requires
        block_ok(vol.disk@, block_number, block_size),
    ensures
        opt_view(r) == first_named(block_entries(vol.disk@, block_number, block_size), file_name@),
{
    if block_number == 0 {
        return None;
    }
    let data = read_1kb_block(&vol.disk, block_number, block_size);
    find_in_chain(&data, file_name)
}

/// Searches the listed directory blocks in order.
fn file_in_block_list(vol: &Volume, blocks: &Vec<u32>, file_name: &[u8], block_size: u32) -> (r:
    Option<DirEntry>)
    requires
        blocks_ok(vol.disk@, blocks@, block_size),
    ensures
        opt_view(r) == first_named(entries_in(vol.disk@, blocks@, block_size), file_name@),
{
    let ghost img = vol.disk@;
    let ghost words = blocks@;
    let mut i: usize = 0;
    while i < blocks.len()
        invariant
            img == vol.disk@,
            words == blocks@,
            blocks_ok(img, words, block_size),
            0 <= i <= words.len(),
            first_named(entries_in(img, words.take(i as int), block_size), file_name@) is None,
        decreases words.len() - i,
    {
        let w = blocks[i];
        assert(block_ok(img, words[i as int], block_size));
        let r = file_in_direct_block(vol, w, file_name, block_size);
        proof {
            assert(words.take(i + 1) =~= words.take(i as int).push(w));
            lemma_entries_in_push(img, words.take(i as int), w, block_size);
            lemma_first_named_append(
                entries_in(img, words.take(i as int), block_size),
                block_entries(img, w, block_size),
                file_name@,
            );
        }
        if r.is_some() {
            proof {
                lemma_entries_in_append(img, words.take(i + 1), words.skip(i + 1), block_size);
                assert(words.take(i + 1) + words.skip(i + 1) =~= words);
                lemma_first_named_append(
                    entries_in(img, words.take(i + 1), block_size),
                    entries_in(img, words.skip(i + 1), block_size),
                    file_name@,
                );
            }
            return r;
        }
        i = i + 1;
    }
    assert(words.take(words.len() as int) =~= words);
    None
}

/// Searches the blocks listed in the indirect block `block_number`.
fn file_in_indirect_block(vol: &Volume, block_number: u32, file_name: &[u8], block_size: u32) -> (r:
    Option<DirEntry>)
    requires
        ind_ok(vol.disk@, block_number, block_size),
    ensures
        opt_view(r) == first_named(
            entries_in(vol.disk@, ind_words(vol.disk@, block_number, block_size), block_size),
            file_name@,
        ),
{
    if block_number == 0 {
        return None;
    }
    let ghost img = vol.disk@;
    let ghost words = ind_words(img, block_number, block_size);
    let data = read_1kb_block(&vol.disk, block_number, block_size);
    let mut i: usize = 0;
    while i < 256
        invariant
            img == vol.disk@,
            block_number != 0,
            ind_ok(img, block_number, block_size),
            words == ind_words(img, block_number, block_size),
            data@ == block_read(img, block_number, block_size),
            data@.len() == 1024,
            0 <= i <= 256,
            first_named(entries_in(img, words.take(i as int), block_size), file_name@) is None,
        decreases 256 - i,
    {
        let w = read_u32_le(data.as_slice(), i * 4);
        assert(words[i as int] == w);
        assert(block_ok(img, words[i as int], block_size));
        let r = file_in_direct_block(vol, w, file_name, block_size);
        proof {
            assert(words.take(i + 1) =~= words.take(i as int).push(w));
            lemma_entries_in_push(img, words.take(i as int), w, block_size);
            lemma_first_named_append(
                entries_in(img, words.take(i as int), block_size),
                block_entries(img, w, block_size),
                file_name@,
            );
        }
        if r.is_some() {
            proof {
                lemma_entries_in_append(img, words.take(i + 1), words.skip(i + 1), block_size);
                assert(words.take(i + 1) + words.skip(i + 1) =~= words);
                lemma_first_named_append(
                    entries_in(img, words.take(i + 1), block_size),
                    entries_in(img, words.skip(i + 1), block_size),
                    file_name@,
                );
            }
            return r;
        }
        i = i + 1;
    }
    assert(words.take(256) =~= words);
    None
}

/// Searches the blocks under the doubly indirect block `block_number`.
fn file_in_d_indirect_block(
    vol: &Volume,
    block_number: u32,
    file_name: &[u8],
    block_size: u32,
) -> (r: Option<DirEntry>)
    requires
        dind_ok(vol.disk@, block_number, block_size),
    ensures
        opt_view(r) == first_named(
            entries_in(vol.disk@, dind_words(vol.disk@, block_number, block_size), block_size),
            file_name@,
        ),
{
    if block_number == 0 {
        return None;
    }
    let ghost img = vol.disk@;
    let data = read_1kb_block(&vol.disk, block_number, block_size);
    let mut i: usize = 0;
    while i < 256
        invariant
            img == vol.disk@,
            block_number != 0,
            dind_ok(img, block_number, block_size),
            data@ == block_read(img, block_number, block_size),
            data@.len() == 1024,
            0 <= i <= 256,
            first_named(
                entries_in(img, dind_prefix(img, data@, i as int, block_size), block_size),
                file_name@,
            ) is None,
        decreases 256 - i,
    {
        let w = read_u32_le(data.as_slice(), i * 4);
        assert(w == word(data@, i as int));
        assert(ind_ok(img, word(block_read(img, block_number, block_size), i as int), block_size));
        let r = file_in_indirect_block(vol, w, file_name, block_size);
        proof {
            lemma_entries_in_append(
                img,
                dind_prefix(img, data@, i as int, block_size),
                ind_words(img, w, block_size),
                block_size,
            );
            lemma_first_named_append(
                entries_in(img, dind_prefix(img, data@, i as int, block_size), block_size),
                entries_in(img, ind_words(img, w, block_size), block_size),
                file_name@,
            );
        }
        if r.is_some() {
            proof {
                lemma_dind_prefix_split(img, data@, i + 1, 256, block_size, file_name@);
            }
            return r;
        }
        i = i + 1;
    }
    None
}

/// A match found among the first `n` entries of a doubly indirect block is
/// the first match among all of them.
proof fn lemma_dind_prefix_split(
    img: Seq<u8>,
    data: Seq<u8>,
    n: int,
    m: int,
    bs: u32,
    name: Seq<u8>,
)
    requires
        0 <= n <= m,
        first_named(entries_in(img, dind_prefix(img, data, n, bs), bs), name) is Some,
    ensures
        first_named(entries_in(img, dind_prefix(img, data, m, bs), bs), name) == first_named(
            entries_in(img, dind_prefix(img, data, n, bs), bs),
            name,
        ),
    decreases m - n,
{
    if n < m {
        lemma_dind_prefix_split(img, data, n, m - 1, bs, name);
        lemma_entries_in_append(
            img,
            dind_prefix(img, data, m - 1, bs),
            ind_words(img, word(data, m - 1), bs),
            bs,
        );
        lemma_first_named_append(
            entries_in(img, dind_prefix(img, data, m - 1, bs), bs),
            entries_in(img, ind_words(img, word(data, m - 1), bs), bs),
            name,
        );
    }
}

/// A match found among the first `n` entries of a triply indirect block is
/// the first match among all of them.
proof fn lemma_tind_prefix_split(
    img: Seq<u8>,
    data: Seq<u8>,
    n: int,
    m: int,
    bs: u32,
    name: Seq<u8>,
)
    requires
        0 <= n <= m,
        first_named(entries_in(img, tind_prefix(img, data, n, bs), bs), name) is Some,
    ensures
        first_named(entries_in(img, tind_prefix(img, data, m, bs), bs), name) == first_named(
            entries_in(img, tind_prefix(img, data, n, bs), bs),
            name,
        ),
    decreases m - n,
{
    if n < m {
        lemma_tind_prefix_split(img, data, n, m - 1, bs, name);
        lemma_entries_in_append(
            img,
            tind_prefix(img, data, m - 1, bs),
            dind_words(img, word(data, m - 1), bs),
            bs,
        );
        lemma_first_named_append(
            entries_in(img, tind_prefix(img, data, m - 1, bs), bs),
            entries_in(img, dind_words(img, word(data, m - 1), bs), bs),
            name,
        );
    }
}

/// Searches the blocks under the triply indirect block `block_number`.
fn file_in_t_indirect_block(
    vol: &Volume,
    block_number: u32,
    file_name: &[u8],
    block_size: u32,
) -> (r: Option<DirEntry>)
    requires
        tind_ok(vol.disk@, block_number, block_size),
    ensures
        opt_view(r) == first_named(
            entries_in(vol.disk@, tind_words(vol.disk@, block_number, block_size), block_size),
            file_name@,
        ),
{
    if block_number == 0 {
        return None;
    }
    let ghost img = vol.disk@;
    let data = read_1kb_block(&vol.disk, block_number, block_size);
    let mut i: usize = 0;
    while i < 256
        invariant
            img == vol.disk@,
            block_number != 0,
            tind_ok(img, block_number, block_size),
            data@ == block_read(img, block_number, block_size),
            data@.len() == 1024,
            0 <= i <= 256,
            first_named(
                entries_in(img, tind_prefix(img, data@, i as int, block_size), block_size),
                file_name@,
            ) is None,
        decreases 256 - i,
    {
        let w = read_u32_le(data.as_slice(), i * 4);
        assert(w == word(data@, i as int));
        assert(dind_ok(img, word(block_read(img, block_number, block_size), i as int), block_size));
        let r = file_in_d_indirect_block(vol, w, file_name, block_size);
        proof {
            lemma_entries_in_append(
                img,
                tind_prefix(img, data@, i as int, block_size),
                dind_words(img, w, block_size),
                block_size,
            );
            lemma_first_named_append(
                entries_in(img, tind_prefix(img, data@, i as int, block_size), block_size),
                entries_in(img, dind_words(img, w, block_size), block_size),
                file_name@,
            );
        }
        if r.is_some() {
            proof {
                lemma_tind_prefix_split(img, data@, i + 1, 256, block_size, file_name@);
            }
            return r;
        }
        i = i + 1;
    }
    None
}

/// Finds the entry named `name` in the directory `root_inode`: its
/// direct blocks are searched first, then the blocks under its indirect,
/// doubly and triply indirect blocks; the first match is returned.
pub fn find_name_in_dir(vol: &Volume, name: &[u8], root_inode: &Inode) -> (r: Option<DirEntry>)
    requires
        vol.wf(),
        root_inode.wf(),
        dir_ok(vol@.img, root_inode.raw@, vol@.block_size() as u32),
    ensures
        opt_view(r) == first_named(
            dir_entries(vol@.img, root_inode.raw@, vol@.block_size() as u32),
            name@,
        ),
{
    let block_size = vol.superblock.get_block_size() as u32;
    let ghost img = vol@.img;
    let ghost bs = block_size;
    let ghost raw = root_inode.raw@;
    let ghost direct = direct_list(raw);
    let ghost ind = ind_words(img, le_u32(raw, 88), bs);
    let ghost dind = dind_words(img, le_u32(raw, 92), bs);
    let ghost tind = tind_words(img, le_u32(raw, 96), bs);
    let direct_blocks = root_inode.get_direct_blocks();
    assert forall|i: int| 0 <= i < 12 implies direct_blocks@[i] == direct[i] by {
        assert(direct_blocks@[i] == root_inode.spec_direct(i));
    }
    assert(direct_blocks@ =~= direct);
    let r = file_in_block_list(vol, &direct_blocks, name, block_size);
    if r.is_some() {
        proof {
            assert(dir_blocks(img, raw, bs) == direct + ind + dind + tind);
            assert(direct + (ind + dind + tind) =~= direct + ind + dind + tind);
            lemma_dir_first_in_part(img, raw, bs, name@, direct, ind + dind + tind);
        }
        return r;
    }
    let r = file_in_indirect_block(vol, root_inode.get_indirect_block(), name, block_size);
    proof {
        lemma_entries_in_append(img, direct, ind, bs);
        lemma_first_named_append(entries_in(img, direct, bs), entries_in(img, ind, bs), name@);
    }
    if r.is_some() {
        proof {
            assert(dir_blocks(img, raw, bs) == direct + ind + dind + tind);
            assert((direct + ind) + (dind + tind) =~= direct + ind + dind + tind);
            lemma_dir_first_in_part(img, raw, bs, name@, direct + ind, dind + tind);
        }
        return r;
    }
    let r = file_in_d_indirect_block(vol, root_inode.get_doubly_indirect_block(), name, block_size);
    proof {
        lemma_entries_in_append(img, direct + ind, dind, bs);
        lemma_first_named_append(entries_in(img, direct + ind, bs), entries_in(img, dind, bs), name@);
    }
    if r.is_some() {
        proof {
            assert(dir_blocks(img, raw, bs) == direct + ind + dind + tind);
            lemma_dir_first_in_part(img, raw, bs, name@, direct + ind + dind, tind);
        }
        return r;
    }
    let r = file_in_t_indirect_block(vol, root_inode.get_triply_indirect_block(), name, block_size);
    proof {
        lemma_entries_in_append(img, direct + ind + dind, tind, bs);
        lemma_first_named_append(
            entries_in(img, direct + ind + dind, bs),
            entries_in(img, tind, bs),
            name@,
        );
    }
    proof {
        assert(dir_blocks(img, raw, bs) == direct + ind + dind + tind);
    }
    r
}

/// Finds the entry named `file_name` in the directory `root_inode`.
pub fn find_file_in_dir(vol: &Volume, file_name: &str, root_inode: Inode) -> (r: Option<DirEntry>)
    requires
        vol.wf(),
        root_inode.wf(),
        dir_ok(vol@.img, root_inode.raw@, vol@.block_size() as u32),
    ensures
        opt_view(r) == first_named(
            dir_entries(vol@.img, root_inode.raw@, vol@.block_size() as u32),
            file_name.spec_bytes(),
        ),
{
    find_name_in_dir(vol, file_name.as_bytes(), &root_inode)
}

/// When the blocks of a directory split into a front part that holds a
/// match and the rest, the directory's first match is the front part's.
proof fn lemma_dir_first_in_part(
    img: Seq<u8>,
    inode: Seq<u8>,
    bs: u32,
    name: Seq<u8>,
    front: Seq<u32>,
    rest: Seq<u32>,
)
    requires
        front + rest == dir_blocks(img, inode, bs),
        first_named(entries_in(img, front, bs), name) is Some,
    ensures
        first_named(dir_entries(img, inode, bs), name) == first_named(
            entries_in(img, front, bs),
            name,
        ),
{
    lemma_entries_in_append(img, front, rest, bs);
    lemma_first_named_append(entries_in(img, front, bs), entries_in(img, rest, bs), name);
}


/// Reads the 256 entries of a 1 KiB indirect block.
fn read_words(data: &Vec<u8>) -> (v: Vec<u32>)
    requires
        data@.len() == 1024,
    ensures
        v@ == Seq::new(256, |i: int| word(data@, i)),
{
    let mut v: Vec<u32> = Vec::new();
    let mut i: usize = 0;
    while i < 256
        invariant
            data@.len() == 1024,
            0 <= i <= 256,
            v@ == Seq::new(i as nat, |j: int| word(data@, j)),
        decreases 256 - i,
    {
        v.push(read_u32_le(data.as_slice(), i * 4));
        assert(v@ =~= Seq::new((i + 1) as nat, |j: int| word(data@, j)));
        i = i + 1;
    }
    v
}

/// All entries of directory block `block_number`.
fn in_direct_block(vol: &Volume, block_number: u32, block_size: u32) -> (v: Vec<DirEntry>)
    requires
        block_ok(vol.disk@, block_number, block_size),
    ensures
        views(v@) == block_entries(vol.disk@, block_number, block_size),
{
    if block_number == 0 {
        let v: Vec<DirEntry> = Vec::new();
        assert(views(v@) =~= Seq::<EntryView>::empty());
        return v;
    }
    let data = read_1kb_block(&vol.disk, block_number, block_size);
    list_chain(&data)
}

/// All entries of the listed blocks, in order.
fn in_block_list(vol: &Volume, blocks: &Vec<u32>, block_size: u32) -> (v: Vec<DirEntry>)
    requires
        blocks_ok(vol.disk@, blocks@, block_size),
    ensures
        views(v@) == entries_in(vol.disk@, blocks@, block_size),
{
    let ghost img = vol.disk@;
    let mut entries: Vec<DirEntry> = Vec::new();
    let mut i: usize = 0;
    assert(views(entries@) =~= entries_in(img, blocks@.take(0), block_size));
    while i < blocks.len()
        invariant
            img == vol.disk@,
            blocks_ok(img, blocks@, block_size),
            0 <= i <= blocks@.len(),
            views(entries@) == entries_in(img, blocks@.take(i as int), block_size),
        decreases blocks@.len() - i,
    {
        assert(block_ok(img, blocks@[i as int], block_size));
        let mut more = in_direct_block(vol, blocks[i], block_size);
        let ghost before = entries@;
        let ghost more_v = more@;
        entries.append(&mut more);
        proof {
            assert(blocks@.take(i + 1) =~= blocks@.take(i as int).push(blocks@[i as int]));
            lemma_entries_in_push(img, blocks@.take(i as int), blocks@[i as int], block_size);
            assert(views(entries@) =~= views(before) + views(more_v));
        }
        i = i + 1;
    }
    assert(blocks@.take(blocks@.len() as int) =~= blocks@);
    entries
}

/// All entries of the blocks listed in the indirect block `block_number`.
fn in_indirect_block(vol: &Volume, block_number: u32, block_size: u32) -> (v: Vec<DirEntry>)
    requires
        ind_ok(vol.disk@, block_number, block_size),
    ensures
        views(v@) == entries_in(vol.disk@, ind_words(vol.disk@, block_number, block_size), block_size),
{
    if block_number == 0 {
        let v: Vec<DirEntry> = Vec::new();
        assert(views(v@) =~= Seq::<EntryView>::empty());
        return v;
    }
    let data = read_1kb_block(&vol.disk, block_number, block_size);
    let words = read_words(&data);
    assert(words@ =~= ind_words(vol.disk@, block_number, block_size));
    in_block_list(vol, &words, block_size)
}

/// All entries under the doubly indirect block `block_number`.
fn in_d_indirect_block(vol: &Volume, block_number: u32, block_size: u32) -> (v: Vec<DirEntry>)
    requires
        dind_ok(vol.disk@, block_number, block_size),
    ensures
        views(v@) == entries_in(vol.disk@, dind_words(vol.disk@, block_number, block_size), block_size),
{
    let ghost img = vol.disk@;
    let mut entries: Vec<DirEntry> = Vec::new();
    if block_number == 0 {
        assert(views(entries@) =~= Seq::<EntryView>::empty());
        return entries;
    }
    let data = read_1kb_block(&vol.disk, block_number, block_size);
    let mut i: usize = 0;
    assert(views(entries@) =~= Seq::<EntryView>::empty());
    while i < 256
        invariant
            img == vol.disk@,
            block_number != 0,
            dind_ok(img, block_number, block_size),
            data@ == block_read(img, block_number, block_size),
            data@.len() == 1024,
            0 <= i <= 256,
            views(entries@) == entries_in(img, dind_prefix(img, data@, i as int, block_size), block_size),
        decreases 256 - i,
    {
        let w = read_u32_le(data.as_slice(), i * 4);
        assert(w == word(data@, i as int));
        assert(ind_ok(img, word(block_read(img, block_number, block_size), i as int), block_size));
        let mut more = in_indirect_block(vol, w, block_size);
        let ghost before = entries@;
        let ghost more_v = more@;
        entries.append(&mut more);
        proof {
            lemma_entries_in_append(
                img,
                dind_prefix(img, data@, i as int, block_size),
                ind_words(img, w, block_size),
                block_size,
            );
            assert(views(entries@) =~= views(before) + views(more_v));
        }
        i = i + 1;
    }
    entries
}

/// All entries under the triply indirect block `block_number`.
fn in_t_indirect_block(vol: &Volume, block_number: u32, block_size: u32) -> (v: Vec<DirEntry>)
    requires
        tind_ok(vol.disk@, block_number, block_size),
    ensures
        views(v@) == entries_in(vol.disk@, tind_words(vol.disk@, block_number, block_size), block_size),
{
    let ghost img = vol.disk@;
    let mut entries: Vec<DirEntry> = Vec::new();
    if block_number == 0 {
        assert(views(entries@) =~= Seq::<EntryView>::empty());
        return entries;
    }
    let data = read_1kb_block(&vol.disk, block_number, block_size);
    let mut i: usize = 0;
    assert(views(entries@) =~= Seq::<EntryView>::empty());
    while i < 256
        invariant
            img == vol.disk@,
            block_number != 0,
            tind_ok(img, block_number, block_size),
            data@ == block_read(img, block_number, block_size),
            data@.len() == 1024,
            0 <= i <= 256,
            views(entries@) == entries_in(img, tind_prefix(img, data@, i as int, block_size), block_size),
        decreases 256 - i,
    {
        let w = read_u32_le(data.as_slice(), i * 4);
        assert(w == word(data@, i as int));
        assert(dind_ok(img, word(block_read(img, block_number, block_size), i as int), block_size));
        let mut more = in_d_indirect_block(vol, w, block_size);
        let ghost before = entries@;
        let ghost more_v = more@;
        entries.append(&mut more);
        proof {
            lemma_entries_in_append(
                img,
                tind_prefix(img, data@, i as int, block_size),
                dind_words(img, w, block_size),
                block_size,
            );
            assert(views(entries@) =~= views(before) + views(more_v));
        }
        i = i + 1;
    }
    entries
}

/// Every entry of the directory whose inode bytes are `inode`, in order.
#[verifier::spinoff_prover]
#[verifier::rlimit(40)]
pub fn list_dir(vol: &Volume, inode: &Inode) -> (v: Vec<DirEntry>)
    requires
        vol.wf(),
        inode.wf(),
        dir_ok(vol@.img, inode.raw@, vol@.block_size() as u32),
    ensures
        views(v@) == dir_entries(vol@.img, inode.raw@, vol@.block_size() as u32),
{
    let block_size = vol.superblock.get_block_size() as u32;
    let ghost img = vol@.img;
    let ghost bs = block_size;
    let ghost raw = inode.raw@;
    let direct_blocks = inode.get_direct_blocks();
    assert forall|i: int| 0 <= i < 12 implies direct_blocks@[i] == direct_list(raw)[i] by {
        assert(direct_blocks@[i] == inode.spec_direct(i));
    }
    assert(direct_blocks@ =~= direct_list(raw));
    let mut entries = in_block_list(vol, &direct_blocks, block_size);
    let mut more = in_indirect_block(vol, inode.get_indirect_block(), block_size);
    entries.append(&mut more);
    let mut more = in_d_indirect_block(vol, inode.get_doubly_indirect_block(), block_size);
    entries.append(&mut more);
    let mut more = in_t_indirect_block(vol, inode.get_triply_indirect_block(), block_size);
    entries.append(&mut more);
    proof {
        let direct = direct_list(raw);
        let ind = ind_words(img, le_u32(raw, 88), bs);
        let dind = dind_words(img, le_u32(raw, 92), bs);
        let tind = tind_words(img, le_u32(raw, 96), bs);
        lemma_entries_in_append(img, direct, ind, bs);
        lemma_entries_in_append(img, direct + ind, dind, bs);
        lemma_entries_in_append(img, direct + ind + dind, tind, bs);
        assert(views(entries@) =~= entries_in(img, direct, bs) + entries_in(img, ind, bs)
            + entries_in(img, dind, bs) + entries_in(img, tind, bs));
    }
    entries
}

} // verus!
