# ferrum_os

The verified core of a small x86_64 hobby kernel, written in Verus.

- `src/` is the library: the ext2 file system logic over an in-memory disk
  image (superblock, block group descriptors, bitmaps, inodes, block
  allocation, directories, paths, files), the shell (line editing, history,
  command registry, manual pages, the work of each command), terminal escape
  sequences, PSF fonts and text writers, ACPI tables, APIC/HPET/PIT
  configuration words, ATA bus decisions, the frame allocator, task
  bookkeeping and keyboard decoding. Every function carries a contract that
  Verus proves; the laws that relate several functions are public proof
  functions.
- `app/` is the program around it: boot protocol requests, port and MMIO
  access, reading and writing the drive, the task executor and the main loop.
- `tests/` runs the library on concrete values, among them a small ext2 image
  built in memory.
