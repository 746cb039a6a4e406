use ferrum_os::drivers::ata::BusError;
use ferrum_os::fs::ext2::bgdt::BlockGroupDescriptorTable;
use ferrum_os::fs::ext2::bitmap::{
    find_first_free_block, find_first_free_inode, mark_block_as_free, mark_block_as_used, mark_inode_as_free,
    mark_inode_as_used,
};
use ferrum_os::fs::ext2::create::{mkdir, touch, trim_bytes};
use ferrum_os::fs::ext2::dir::{bytes_eq, find_file_in_dir, list_dir, DirEntry, DirEntryType};
use ferrum_os::fs::ext2::disk::{read_1kb_block, write_1kb_block, Disk};
use ferrum_os::fs::ext2::file::{File, FileError};
use ferrum_os::fs::ext2::inode::{Inode, InodeType};
use ferrum_os::fs::ext2::path::{find_by_path, get_files_in_dir, split_bytes};
use ferrum_os::fs::ext2::superblock::Superblock;
use ferrum_os::fs::ext2::volume::Volume;
use ferrum_os::shell::run::WriteRequest;
use ferrum_os::shell::write_file::{write_file, WriteOutcome};

const BS: usize = 1024;

fn put32(img: &mut [u8], at: usize, v: u32) {
    img[at..at + 4].copy_from_slice(&v.to_le_bytes());
}

fn put16(img: &mut [u8], at: usize, v: u16) {
    img[at..at + 2].copy_from_slice(&v.to_le_bytes());
}

fn dir_entry(img: &mut [u8], at: usize, inode: u32, rec_len: u16, name: &str, file_type: u8) {
    put32(img, at, inode);
    put16(img, at + 4, rec_len);
    img[at + 6] = name.len() as u8;
    img[at + 7] = file_type;
    img[at + 8..at + 8 + name.len()].copy_from_slice(name.as_bytes());
}

fn inode_at(id: usize) -> usize {
    5 * BS + (id - 1) * 128
}

/// A 64 KiB ext2 image with 1 KiB blocks and one group: superblock in block
/// 1, descriptors in block 2, bitmaps in blocks 3 and 4, 32 inodes of 128
/// bytes in blocks 5 to 8, the root directory in block 9 and the file
/// `hello.txt` (inode 12) in block 10.
fn image() -> Vec<u8> {
    let mut img = vec![0u8; 64 * BS];
    let sb = BS;
    put32(&mut img, sb, 32);
    put32(&mut img, sb + 4, 64);
    put32(&mut img, sb + 12, 53);
    put32(&mut img, sb + 16, 20);
    put32(&mut img, sb + 20, 1);
    put32(&mut img, sb + 24, 0);
    put32(&mut img, sb + 32, 64);
    put32(&mut img, sb + 36, 64);
    put32(&mut img, sb + 40, 32);
    put16(&mut img, sb + 56, 0xEF53);
    put32(&mut img, sb + 76, 1);
    put32(&mut img, sb + 84, 11);
    put16(&mut img, sb + 88, 128);
    let gd = 2 * BS;
    put32(&mut img, gd, 3);
    put32(&mut img, gd + 4, 4);
    put32(&mut img, gd + 8, 5);
    put16(&mut img, gd + 12, 53);
    put16(&mut img, gd + 14, 20);
    put16(&mut img, gd + 16, 1);
    img[3 * BS] = 0xFF;
    img[3 * BS + 1] = 0x03;
    img[4 * BS] = 0xFF;
    img[4 * BS + 1] = 0x0F;
    let root = inode_at(2);
    put16(&mut img, root, 0x41ED);
    put32(&mut img, root + 4, 1024);
    put16(&mut img, root + 26, 2);
    put32(&mut img, root + 28, 2);
    put32(&mut img, root + 40, 9);
    let hello = inode_at(12);
    put16(&mut img, hello, 0x81A4);
    put32(&mut img, hello + 4, 12);
    put16(&mut img, hello + 26, 1);
    put32(&mut img, hello + 28, 2);
    put32(&mut img, hello + 40, 10);
    dir_entry(&mut img, 9 * BS, 2, 12, ".", 2);
    dir_entry(&mut img, 9 * BS + 12, 2, 12, "..", 2);
    dir_entry(&mut img, 9 * BS + 24, 12, 1000, "hello.txt", 1);
    img[10 * BS..10 * BS + 12].copy_from_slice(b"Hello, ext2!");
    img
}

fn mount(img: Vec<u8>) -> Volume {
    let disk = Disk { image: img };
    let superblock = Superblock::new(&disk);
    let bgdt = BlockGroupDescriptorTable::new(&disk, superblock.block_groups_count as usize);
    Volume { disk, superblock, bgdt }
}

fn names(v: &[DirEntry]) -> Vec<String> {
    v.iter().map(|e| String::from_utf8(e.name.clone()).unwrap()).collect()
}

fn read_all(vol: &mut Volume, path: &str) -> Vec<u8> {
    let mut f = File::from_path(vol, path).ok().expect("file opens");
    let mut buf = vec![0u8; 4096];
    let n = f.read(vol, &mut buf, 4096);
    buf.truncate(n);
    f.close(vol);
    buf
}

#[test]
fn superblock_fields() {
    let vol = mount(image());
    let sb = &vol.superblock;
    assert_eq!(sb.block_groups_count, 1);
    assert_eq!(sb.get_block_size(), 1024);
    assert_eq!(sb.get_inode_size(), 128);
    assert_eq!(sb.get_inodes_per_group(), 32);
    assert_eq!(sb.get_blocks_per_group(), 64);
    assert_eq!(sb.get_block_group_count(), 1);
    assert_eq!(sb.get_free_blocks(), 53);
    assert_eq!(sb.get_free_inodes(), 20);
    assert_eq!(sb.get_first_free_data_block(), 1);
}

#[test]
fn block_group_descriptor_fields() {
    let vol = mount(image());
    assert_eq!(vol.bgdt.get_block_group_descriptor_count(), 1);
    let d = vol.bgdt.get_block_group_descriptor(0);
    assert_eq!(d.get_b_bitmap_block(), 3);
    assert_eq!(d.get_i_bitmap_block(), 4);
    assert_eq!(d.get_inode_table_start_address(), 5);
    assert_eq!(d.get_free_block_count(), 53);
    assert_eq!(d.get_free_inode_count(), 20);
}

#[test]
fn inode_fields() {
    let vol = mount(image());
    let root = Inode::from_id_no_flush(&vol, 2);
    assert_eq!(root.get_type(), InodeType::Directory);
    assert_eq!(root.get_id(), 2);
    assert_eq!(root.get_direct_block(0), 9);
    let hello = Inode::from_id_no_flush(&vol, 12);
    assert_eq!(hello.get_type(), InodeType::RegularFile);
    assert_eq!(hello.get_size(), 12);
    assert_eq!(hello.get_permissions(), 0x1A4);
    assert_eq!(hello.get_direct_blocks()[0], 10);
    assert_eq!(hello.get_block_count(), 2);
    assert_eq!(hello.get_indirect_block(), 0);
}

#[test]
fn path_lookup() {
    let vol = mount(image());
    let e = find_by_path(&vol, "hello.txt").expect("found");
    assert_eq!(e.inode, 12);
    assert_eq!(e.name, b"hello.txt".to_vec());
    assert_eq!(DirEntryType::from_u8(e.file_type), DirEntryType::RegularFile);
    assert!(find_by_path(&vol, "missing").is_none());
    assert_eq!(find_by_path(&vol, "..").unwrap().inode, 2);
    assert_eq!(find_by_path(&vol, "./hello.txt").unwrap().inode, 12);
    assert!(find_by_path(&vol, "hello.txt/x").is_none());
}

#[test]
fn path_with_empty_parts_names_nothing() {
    // A found entry is returned only when every part of the path is a name:
    // empty parts (a leading, doubled or trailing `/`) leave it unanswered.
    let vol = mount(image());
    assert!(find_by_path(&vol, "/hello.txt").is_none());
    assert!(find_by_path(&vol, "hello.txt/").is_none());
    assert!(find_by_path(&vol, "/").is_none());
    assert!(find_by_path(&vol, "").is_none());
}

#[test]
fn directory_listing() {
    let vol = mount(image());
    let root = Inode::from_id_no_flush(&vol, 2);
    assert_eq!(names(&list_dir(&vol, &root)), vec![".", "..", "hello.txt"]);
    assert_eq!(names(&get_files_in_dir(&vol, ".")), vec![".", "..", "hello.txt"]);
    assert!(get_files_in_dir(&vol, "hello.txt").is_empty());
    assert!(get_files_in_dir(&vol, "nothing").is_empty());
    assert_eq!(find_file_in_dir(&vol, "hello.txt", root).unwrap().inode, 12);
}

#[test]
fn file_read() {
    let mut vol = mount(image());
    assert_eq!(read_all(&mut vol, "hello.txt"), b"Hello, ext2!".to_vec());
    let mut f = File::from_path(&mut vol, "hello.txt").ok().unwrap();
    let mut buf = vec![0u8; 5];
    assert_eq!(f.read(&vol, &mut buf, 100), 5);
    assert_eq!(&buf, b"Hello");
    f.seek(7);
    let mut buf = vec![0u8; 10];
    assert_eq!(f.read(&vol, &mut buf, 10), 5);
    assert_eq!(&buf[0..5], b"ext2!");
    assert_eq!(f.get_block(&vol, 0), 10);
}

#[test]
fn file_open_errors() {
    let mut vol = mount(image());
    assert!(matches!(File::from_path(&mut vol, "missing"), Err(FileError::NotFound)));
    assert!(matches!(File::from_path(&mut vol, "."), Err(FileError::NotAFile)));
}

#[test]
fn file_write_then_read() {
    let mut vol = mount(image());
    let mut f = File::from_path(&mut vol, "hello.txt").ok().unwrap();
    f.seek(12);
    assert_eq!(f.write(&mut vol, b" more", 5), 5);
    assert_eq!(f.inode.get_size(), 17);
    f.close(&mut vol);
    assert_eq!(read_all(&mut vol, "hello.txt"), b"Hello, ext2! more".to_vec());
}

#[test]
fn file_write_grows_into_new_block() {
    let mut vol = mount(image());
    let data: Vec<u8> = (0..1500u32).map(|i| (i % 251) as u8).collect();
    let mut f = File::from_path(&mut vol, "hello.txt").ok().unwrap();
    assert_eq!(f.write(&mut vol, &data, 1500), 1500);
    assert_eq!(f.inode.get_size(), 1500);
    // the second block is the first free one
    assert_eq!(f.inode.get_direct_block(1), 11);
    f.close(&mut vol);
    assert_eq!(read_all(&mut vol, "hello.txt"), data);
    assert_eq!(find_first_free_block(&vol), Some(12));
}

#[test]
fn free_entries_are_found_in_order() {
    let vol = mount(image());
    assert_eq!(find_first_free_block(&vol), Some(11));
    assert_eq!(find_first_free_inode(&vol), Some(13));
}

#[test]
fn marking_blocks_and_inodes() {
    let mut vol = mount(image());
    mark_block_as_used(&mut vol, 11);
    assert_eq!(find_first_free_block(&vol), Some(12));
    assert_eq!(vol.superblock.get_free_blocks(), 52);
    assert_eq!(vol.bgdt.get_block_group_descriptor(0).get_free_block_count(), 52);
    mark_block_as_free(&mut vol, 11);
    assert_eq!(find_first_free_block(&vol), Some(11));
    assert_eq!(vol.superblock.get_free_blocks(), 53);
    // marking used then free gives back the bitmap it started from
    assert_eq!(vol.disk.image, mount(image()).disk.image);
    mark_inode_as_used(&mut vol, 13);
    assert_eq!(find_first_free_inode(&vol), Some(14));
    assert_eq!(vol.superblock.get_free_inodes(), 19);
    mark_inode_as_free(&mut vol, 13);
    assert_eq!(find_first_free_inode(&vol), Some(13));
}

#[test]
fn touch_creates_a_file() {
    let mut vol = mount(image());
    touch(&mut vol, "new.txt");
    let e = find_by_path(&vol, "new.txt").expect("created");
    assert_eq!(e.inode, 13);
    let root = Inode::from_id_no_flush(&vol, 2);
    assert_eq!(names(&list_dir(&vol, &root)), vec![".", "..", "hello.txt", "new.txt"]);
    let inode = Inode::from_id_no_flush(&vol, 13);
    assert_eq!(inode.get_type(), InodeType::RegularFile);
    assert_eq!(find_first_free_inode(&vol), Some(14));
    // the new file is empty
    assert_eq!(read_all(&mut vol, "new.txt"), Vec::<u8>::new());
    // and the old one is still there
    assert_eq!(read_all(&mut vol, "hello.txt"), b"Hello, ext2!".to_vec());
}

#[test]
fn mkdir_creates_a_directory() {
    let mut vol = mount(image());
    mkdir(&mut vol, "docs");
    let e = find_by_path(&vol, "docs").expect("created");
    let inode = Inode::from_id_no_flush(&vol, e.inode as usize);
    assert_eq!(inode.get_type(), InodeType::Directory);
    assert!(matches!(File::from_path(&mut vol, "docs"), Err(FileError::NotAFile)));
}

#[test]
fn write_to_new_file() {
    let mut vol = mount(image());
    touch(&mut vol, "notes");
    let mut f = File::from_path(&mut vol, "notes").ok().unwrap();
    assert_eq!(f.write(&mut vol, b"abc", 3), 3);
    f.close(&mut vol);
    assert_eq!(read_all(&mut vol, "notes"), b"abc".to_vec());
}

#[test]
fn disk_sector_errors() {
    let mut disk = Disk { image: vec![7u8; 1024] };
    let mut small = vec![0u8; 10];
    assert_eq!(disk.read(0, &mut small), Err(BusError::InvalidBufferSize));
    let mut buf = vec![0u8; 512];
    assert_eq!(disk.read(2, &mut buf), Err(BusError::UnableToRead));
    assert_eq!(disk.read(1, &mut buf), Ok(()));
    assert_eq!(buf, vec![7u8; 512]);
    assert_eq!(disk.write(0, &[1u8; 3]), Err(BusError::InvalidBufferSize));
    assert_eq!(disk.write(5, &[1u8; 512]), Err(BusError::UnableToRead));
    assert_eq!(disk.write(0, &[1u8; 512]), Ok(()));
    disk.read(0, &mut buf).unwrap();
    assert_eq!(buf, vec![1u8; 512]);
}

#[test]
fn block_read_after_write() {
    let mut disk = Disk { image: vec![0u8; 8 * 1024] };
    let data: Vec<u8> = (0..1024u32).map(|i| (i % 256) as u8).collect();
    write_1kb_block(&mut disk, 3, 1024, &data, 1024);
    assert_eq!(read_1kb_block(&disk, 3, 1024), data);
    assert_eq!(read_1kb_block(&disk, 2, 1024), vec![0u8; 1024]);
    // a size other than 1024 writes nothing
    write_1kb_block(&mut disk, 2, 1024, &data, 100);
    assert_eq!(read_1kb_block(&disk, 2, 1024), vec![0u8; 1024]);
}

#[test]
fn byte_string_helpers() {
    assert!(bytes_eq(b"abc", b"abc"));
    assert!(!bytes_eq(b"abc", b"abd"));
    assert!(!bytes_eq(b"ab", b"abc"));
    assert_eq!(trim_bytes(b"  name\t\n"), b"name".to_vec());
    assert_eq!(trim_bytes("\u{3000}x y\u{a0}".as_bytes()), b"x y".to_vec());
    assert_eq!(trim_bytes(b"   "), Vec::<u8>::new());
    assert_eq!(split_bytes(b"/a//b", b'/'), vec![b"".to_vec(), b"a".to_vec(), b"".to_vec(), b"b".to_vec()]);
    assert_eq!(split_bytes(b"", b'/'), vec![Vec::<u8>::new()]);
}

#[test]
fn directory_entry_parse() {
    let img = image();
    let block = &img[9 * BS..10 * BS];
    let e = DirEntry::from_ptr(block, 24);
    assert_eq!(e.inode, 12);
    assert_eq!(e.rec_len, 1000);
    assert_eq!(e.name_len, 9);
    assert_eq!(e.next, 1024);
    assert_eq!(e.size(), 20);
    assert_eq!(DirEntryType::Directory.to_u8(), 2);
    assert_eq!(DirEntryType::from_u8(7), DirEntryType::Symlink);
}

#[test]
fn write_then_seek_back_and_read() {
    let mut vol = mount(image());
    let mut f = File::from_path(&mut vol, "hello.txt").ok().unwrap();
    f.seek(7);
    assert_eq!(f.write(&mut vol, b"EXT2", 4), 4);
    f.seek(7);
    let mut buf = vec![0u8; 4];
    assert_eq!(f.read(&vol, &mut buf, 4), 4);
    assert_eq!(buf, b"EXT2".to_vec());
}

fn request(path: &str, create: bool, append: bool, content: &str) -> WriteRequest {
    WriteRequest { path: path.to_string(), create, append, content: content.to_string() }
}

#[test]
fn write_command_appends_and_overwrites() {
    let mut vol = mount(image());
    assert_eq!(write_file(&mut vol, &request("hello.txt", false, true, " more")), WriteOutcome::Written(5));
    assert_eq!(read_all(&mut vol, "hello.txt"), b"Hello, ext2! more".to_vec());
    // without append the text goes over the start of the file
    assert_eq!(write_file(&mut vol, &request("hello.txt", false, false, "J")), WriteOutcome::Written(1));
    assert_eq!(read_all(&mut vol, "hello.txt"), b"Jello, ext2! more".to_vec());
}

#[test]
fn write_command_creates_when_asked() {
    let mut vol = mount(image());
    assert_eq!(write_file(&mut vol, &request("new.txt", false, false, "abc")), WriteOutcome::NotOpened);
    assert!(find_by_path(&vol, "new.txt").is_none());
    assert_eq!(write_file(&mut vol, &request("new.txt", true, false, "abc")), WriteOutcome::Written(3));
    assert_eq!(read_all(&mut vol, "new.txt"), b"abc".to_vec());
}

#[test]
fn write_command_without_text_shows_usage() {
    let mut vol = mount(image());
    assert_eq!(write_file(&mut vol, &request("hello.txt", false, false, "")), WriteOutcome::Usage);
    assert_eq!(read_all(&mut vol, "hello.txt"), b"Hello, ext2!".to_vec());
}

#[test]
fn creating_an_existing_file_changes_nothing() {
    let mut vol = mount(image());
    let first = DirEntry::new_file(&mut vol, "new.txt");
    let before = vol.disk.image.clone();
    let again = DirEntry::new_file(&mut vol, "new.txt");
    assert_eq!(again.inode, first.inode);
    assert_eq!(vol.disk.image, before);
    let existing = DirEntry::new_file(&mut vol, "hello.txt");
    assert_eq!(existing.inode, 12);
    assert_eq!(vol.disk.image, before);
}

#[test]
fn built_inode_reads_back() {
    let mut vol = mount(image());
    touch(&mut vol, "f");
    let e = find_by_path(&vol, "f").expect("created");
    let inode = Inode::from_id_no_flush(&vol, e.inode as usize);
    assert_eq!(inode.get_type(), InodeType::RegularFile);
    assert_eq!(inode.get_permissions(), 0);
    assert_eq!(inode.get_size(), 0);
    assert_eq!(inode.get_direct_block(1), 0);
    assert!(inode.get_direct_block(0) != 0);
}

#[test]
fn cat_reads_whole_files() {
    let mut vol = mount(image());
    assert_eq!(ferrum_os::shell::cat_file::cat_file(&mut vol, "hello.txt"), Some("Hello, ext2!".to_string()));
    assert_eq!(ferrum_os::shell::cat_file::cat_file(&mut vol, "missing"), None);
    let data: Vec<u8> = (0..1500u32).map(|i| if i % 100 == 0 { 0 } else { b'a' + (i % 26) as u8 }).collect();
    let mut f = File::from_path(&mut vol, "hello.txt").ok().unwrap();
    assert_eq!(f.write(&mut vol, &data, 1500), 1500);
    f.close(&mut vol);
    let expected: String = data.iter().filter(|b| **b != 0).map(|b| *b as char).collect();
    assert_eq!(ferrum_os::shell::cat_file::cat_file(&mut vol, "hello.txt"), Some(expected));
}
