pub mod superblock_data_types;
pub mod disk;
pub mod superblock;
pub mod bgdt;
pub mod volume;
pub mod bitmap;
pub mod inode;
pub mod inode_blocks;
pub mod block_alloc;
pub mod dir;
pub mod path;
pub mod dir_add;
pub mod create;
pub mod file;
pub mod read_write;
pub mod lookup;
