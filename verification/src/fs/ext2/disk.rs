//! The block device an ext2 file system lives on, held as a byte image of
//! 512-byte sectors, and the 1 KiB block reads and writes built on it.
use vstd::prelude::*;
use crate::bytes::splice;
use crate::drivers::ata::BusError;

verus! {

pub open spec fn sector_size() -> int {
    512
}

/// A sector exists on an image of `len` bytes.
pub open spec fn sector_exists(len: int, lba: int) -> bool {
    0 <= lba && (lba + 1) * 512 <= len
}

/// The bytes of sector `lba`.
pub open spec fn sector_of(img: Seq<u8>, lba: int) -> Seq<u8> {
    img.subrange(lba * 512, lba * 512 + 512)
}

/// The image after writing `data` to sector `lba`; a missing sector leaves
/// the image unchanged.
pub open spec fn write_sector_image(img: Seq<u8>, lba: int, data: Seq<u8>) -> Seq<u8> {
    if sector_exists(img.len() as int, lba) {
        splice(img, lba * 512, data)
    } else {
        img
    }
}

/// The first sector of file-system block `block` of `block_size` bytes.
pub open spec fn first_sector(block: u32, block_size: u32) -> int {
    (block * block_size) / 512
}

/// The 1 KiB that [`read_1kb_block`] returns: the two sectors from the
/// block's first sector on.  A sector that cannot be read leaves the read
/// buffer as it was (zeros before the first read).
pub open spec fn block_read(img: Seq<u8>, block: u32, block_size: u32) -> Seq<u8> {
    let b1 = first_sector(block, block_size);
    let s1 = if sector_exists(img.len() as int, b1) {
        sector_of(img, b1)
    } else {
        Seq::new(512, |i: int| 0u8)
    };
    let s2 = if sector_exists(img.len() as int, b1 + 1) {
        sector_of(img, b1 + 1)
    } else {
        s1
    };
    s1 + s2
}

/// The image after [`write_1kb_block`] writes 1 KiB of `data` to `block`.
pub open spec fn block_write(img: Seq<u8>, block: u32, block_size: u32, data: Seq<u8>) -> Seq<
    u8,
> {
    let b1 = first_sector(block, block_size);
    write_sector_image(
        write_sector_image(img, b1, data.subrange(0, 512)),
        b1 + 1,
        data.subrange(512, 1024),
    )
}

/// Writing a block keeps the size of the image.
pub proof fn lemma_block_write_len(img: Seq<u8>, block: u32, block_size: u32, data: Seq<u8>)
    requires
        data.len() == 1024,
    ensures
        block_write(img, block, block_size, data).len() == img.len(),
{
}

/// Block numbers whose sector addresses fit in 32 bits.
pub open spec fn block_addressable(block: u32, block_size: u32) -> bool {
    block * block_size <= u32::MAX && first_sector(block, block_size) + 1 <= u32::MAX
}

/// A disk image.
pub struct Disk {
    pub image: Vec<u8>,
}

impl Disk {
    pub open spec fn view(&self) -> Seq<u8> {
        self.image@
    }

    /// Reads sector `block` into `buf`, which must hold 512 bytes.
    pub fn read(&self, block: u32, buf: &mut Vec<u8>) -> (r: Result<(), BusError>)
        ensures
            old(buf)@.len() != 512 ==> r == Err::<(), BusError>(BusError::InvalidBufferSize)
                && final(buf)@ == old(buf)@,
            old(buf)@.len() == 512 && !sector_exists(self@.len() as int, block as int) ==> r
                == Err::<(), BusError>(BusError::UnableToRead) && final(buf)@ == old(buf)@,
            old(buf)@.len() == 512 && sector_exists(self@.len() as int, block as int) ==> r
                is Ok && final(buf)@ == sector_of(self@, block as int),
    {
        if buf.len() != 512 {
            return Err(BusError::InvalidBufferSize);
        }
        let len = self.image.len();
        if (block as u64 + 1) * 512 > len as u64 {
            return Err(BusError::UnableToRead);
        }
        let start = (block as usize) * 512;
        let mut i: usize = 0;
        while i < 512
            invariant
                buf@.len() == 512,
                len == self@.len(),
                start == block * 512,
                start + 512 <= len,
                0 <= i <= 512,
                forall|j: int| 0 <= j < i ==> buf@[j] == self@[start + j],
            decreases 512 - i,
        {
            buf.set(i, self.image[start + i]);
            i = i + 1;
        }
        assert(buf@ =~= sector_of(self@, block as int));
        Ok(())
    }

    /// Writes the 512 bytes of `buf` to sector `block`.
    pub fn write(&mut self, block: u32, buf: &[u8]) -> (r: Result<(), BusError>)
        ensures
            buf@.len() != 512 ==> r == Err::<(), BusError>(BusError::InvalidBufferSize)
                && final(self)@ == old(self)@,
            buf@.len() == 512 && !sector_exists(old(self)@.len() as int, block as int) ==> r
                == Err::<(), BusError>(BusError::UnableToRead) && final(self)@ == old(self)@,
            buf@.len() == 512 && sector_exists(old(self)@.len() as int, block as int) ==> r
                is Ok && final(self)@ == write_sector_image(old(self)@, block as int, buf@),
    {
        if buf.len() != 512 {
            return Err(BusError::InvalidBufferSize);
        }
        let len = self.image.len();
        if (block as u64 + 1) * 512 > len as u64 {
            return Err(BusError::UnableToRead);
        }
        let start = (block as usize) * 512;
        crate::bytes::copy_into(&mut self.image, start, buf);
        Ok(())
    }
}

/// Reads the 1 KiB starting at block `block_number` of `block_size` bytes.
pub fn read_1kb_block(disk: &Disk, block_number: u32, block_size: u32) -> (result: Vec<u8>)
    requires
        block_addressable(block_number, block_size),
    ensures
        result@ == block_read(disk@, block_number, block_size),
        result@.len() == 1024,
{
    let mut result: Vec<u8> = Vec::new();
    let block_address = block_number * block_size;
    let block_1 = block_address / 512;
    let block_2 = block_1 + 1;
    let mut buffer: Vec<u8> = vec![0u8; 512];
    assert(buffer@ =~= Seq::new(512, |i: int| 0u8));
    let _ = disk.read(block_1, &mut buffer);
    let ghost s1 = buffer@;
    result.extend_from_slice(buffer.as_slice());
    let _ = disk.read(block_2, &mut buffer);
    result.extend_from_slice(buffer.as_slice());
    assert(result@ =~= block_read(disk@, block_number, block_size));
    result
}

/// Writes the first 1 KiB of `buffer` at block `block_number`; nothing is
/// written unless `size` is 1024.
pub fn write_1kb_block(
    disk: &mut Disk,
    block_number: u32,
    block_size: u32,
    buffer: &[u8],
    size: usize,
)
    requires
        block_addressable(block_number, block_size),
        size == 1024 ==> buffer@.len() >= 1024,
    ensures
        size != 1024 ==> final(disk)@ == old(disk)@,
        size == 1024 ==> final(disk)@ == block_write(old(disk)@, block_number, block_size, buffer@),
{
    if size != 1024 {
        return ;
    }
    let block_address = block_number * block_size;
    let block_1 = block_address / 512;
    let block_2 = block_1 + 1;
    let data_1 = slice_range(buffer, 0, 512);
    let data_2 = slice_range(buffer, 512, 1024);
    let _ = disk.write(block_1, data_1);
    let _ = disk.write(block_2, data_2);
}

/// The sub-slice `s[from..to]`.
pub fn slice_range(s: &[u8], from: usize, to: usize) -> (r: &[u8])
    requires
        from <= to <= s@.len(),
    ensures
        r@ == s@.subrange(from as int, to as int),
{
    &s[from..to]
}

/// Reading a block back after writing it gives the bytes written, when the
/// block's two sectors are on the image.
pub proof fn law_block_read_after_write(img: Seq<u8>, block: u32, block_size: u32, data: Seq<u8>)
    requires
        data.len() == 1024,
        sector_exists(img.len() as int, first_sector(block, block_size) + 1),
    ensures
        block_read(block_write(img, block, block_size, data), block, block_size) == data,
{
    let b1 = first_sector(block, block_size);
    assert(b1 >= 0) by (nonlinear_arith)
        requires
            b1 == (block * block_size) / 512,
    ;
    let w1 = write_sector_image(img, b1, data.subrange(0, 512));
    assert(w1 == splice(img, b1 * 512, data.subrange(0, 512)));
    crate::bytes::lemma_splice_frame(img, b1 * 512, data.subrange(0, 512));
    let w2 = write_sector_image(w1, b1 + 1, data.subrange(512, 1024));
    assert(w2 == splice(w1, (b1 + 1) * 512, data.subrange(512, 1024)));
    crate::bytes::lemma_splice_frame(w1, (b1 + 1) * 512, data.subrange(512, 1024));
    assert(sector_of(w2, b1) =~= data.subrange(0, 512));
    assert(sector_of(w2, b1 + 1) =~= data.subrange(512, 1024));
    assert(block_read(w2, block, block_size) =~= data);
}

/// Writing a block leaves every block whose sectors lie elsewhere as it
/// was.
pub proof fn law_block_write_frame(img: Seq<u8>, block: u32, other: u32, block_size: u32, data: Seq<u8>)
    requires
        data.len() == 1024,
        first_sector(block, block_size) + 1 < first_sector(other, block_size)
            || first_sector(other, block_size) + 1 < first_sector(block, block_size),
    ensures
        block_read(block_write(img, block, block_size, data), other, block_size) == block_read(
            img,
            other,
            block_size,
        ),
{
    let b1 = first_sector(block, block_size);
    let o1 = first_sector(other, block_size);
    assert(b1 >= 0 && o1 >= 0) by (nonlinear_arith)
        requires
            b1 == (block * block_size) / 512,
            o1 == (other * block_size) / 512,
    ;
    let w1 = write_sector_image(img, b1, data.subrange(0, 512));
    let w2 = write_sector_image(w1, b1 + 1, data.subrange(512, 1024));
    if sector_exists(img.len() as int, b1) {
        crate::bytes::lemma_splice_frame(img, b1 * 512, data.subrange(0, 512));
    }
    if sector_exists(w1.len() as int, b1 + 1) {
        crate::bytes::lemma_splice_frame(w1, (b1 + 1) * 512, data.subrange(512, 1024));
    }
    assert(w2.len() == img.len());
    if sector_exists(img.len() as int, o1) {
        assert(sector_of(w2, o1) =~= sector_of(img, o1));
    }
    if sector_exists(img.len() as int, o1 + 1) {
        assert(sector_of(w2, o1 + 1) =~= sector_of(img, o1 + 1));
    }
    assert(block_read(w2, other, block_size) =~= block_read(img, other, block_size));
}

/// Writing back the bytes a block reads leaves the image as it was, when
/// the block's two sectors are on it.
pub proof fn lemma_block_write_read(img: Seq<u8>, block: u32, block_size: u32)
    requires
        sector_exists(img.len() as int, first_sector(block, block_size) + 1),
    ensures
        block_write(img, block, block_size, block_read(img, block, block_size)) == img,
{
    let b1 = first_sector(block, block_size);
    assert(b1 >= 0) by (nonlinear_arith)
        requires
            b1 == (block * block_size) / 512,
    ;
    let data = block_read(img, block, block_size);
    assert(data.subrange(0, 512) =~= img.subrange(b1 * 512, b1 * 512 + 512));
    assert(data.subrange(512, 1024) =~= img.subrange((b1 + 1) * 512, (b1 + 1) * 512 + 512));
    crate::bytes::lemma_splice_same(img, b1 * 512, 512);
    crate::bytes::lemma_splice_same(img, (b1 + 1) * 512, 512);
}

/// A second write of a block replaces the first, when the block's two
/// sectors are on the image.
pub proof fn lemma_block_write_twice(img: Seq<u8>, block: u32, block_size: u32, d1: Seq<u8>, d2: Seq<u8>)
    requires
        d1.len() == 1024,
        d2.len() == 1024,
        sector_exists(img.len() as int, first_sector(block, block_size) + 1),
    ensures
        block_write(block_write(img, block, block_size, d1), block, block_size, d2) == block_write(
            img,
            block,
            block_size,
            d2,
        ),
{
    let b1 = first_sector(block, block_size);
    assert(b1 >= 0) by (nonlinear_arith)
        requires
            b1 == (block * block_size) / 512,
    ;
    let w1 = block_write(img, block, block_size, d1);
    let x = write_sector_image(img, b1, d1.subrange(0, 512));
    crate::bytes::lemma_splice_frame(img, b1 * 512, d1.subrange(0, 512));
    crate::bytes::lemma_splice_frame(x, (b1 + 1) * 512, d1.subrange(512, 1024));
    let y = write_sector_image(w1, b1, d2.subrange(0, 512));
    crate::bytes::lemma_splice_frame(w1, b1 * 512, d2.subrange(0, 512));
    crate::bytes::lemma_splice_frame(y, (b1 + 1) * 512, d2.subrange(512, 1024));
    let p = write_sector_image(img, b1, d2.subrange(0, 512));
    crate::bytes::lemma_splice_frame(img, b1 * 512, d2.subrange(0, 512));
    crate::bytes::lemma_splice_frame(p, (b1 + 1) * 512, d2.subrange(512, 1024));
    assert(block_write(w1, block, block_size, d2) =~= block_write(img, block, block_size, d2));
}

} // verus!
