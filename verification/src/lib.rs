//! Verified core of a small x86_64 hobby kernel: the ext2 file system logic,
//! terminal escape-sequence parsing, font and colour handling, ACPI table
//! parsing and device configuration words.
pub mod bytes;
pub mod drivers;
pub mod fs;
pub mod interrupts;
pub mod memory;
pub mod shell;
pub mod task;
pub mod text;
pub mod timer;
