//! Physical memory: the regions of the boot memory map and a frame
//! allocator that hands out the usable 4 KiB frames one after another.
use vstd::prelude::*;
use x86_64::structures::paging::{PhysFrame, Size4KiB};
use x86_64::PhysAddr;

verus! {

/// The size of a frame, in bytes.
pub const FRAME_SIZE: u64 = 4096;

/// A region of the boot memory map: where it starts, how long it is and
/// whether it is free for use.
#[derive(Debug, Clone, Copy, PartialEq, Eq, Structural)]
pub struct MemoryRegion {
    pub base: u64,
    pub length: u64,
    pub usable: bool,
}

/// The addresses, one every frame, that a region contributes: from its
/// base up to (not including) its end, for a usable region; none for
/// another.
pub open spec fn region_frames(r: MemoryRegion) -> Seq<int> {
    if r.usable {
        Seq::new(
            ((r.length as int + (FRAME_SIZE - 1)) / FRAME_SIZE as int) as nat,
            |i: int| r.base + FRAME_SIZE * i,
        )
    } else {
        Seq::empty()
    }
}

/// The frame addresses of all usable regions, region after region.
pub open spec fn usable_frame_addresses(regions: Seq<MemoryRegion>) -> Seq<int>
    decreases regions.len(),
{
    if regions.len() == 0 {
        Seq::empty()
    } else {
        usable_frame_addresses(regions.drop_last()) + region_frames(regions.last())
    }
}

/// The start of the frame that holds `addr`.
pub open spec fn frame_start(addr: int) -> int {
    addr - addr % FRAME_SIZE as int
}

/// A memory map the allocator can walk: no usable region runs past the
/// end of the 64-bit address space.
pub open spec fn regions_in_range(regions: Seq<MemoryRegion>) -> bool {
    forall|i: int|
        0 <= i < regions.len() && (#[trigger] regions[i]).usable ==> regions[i].base
            + regions[i].length <= u64::MAX
}

/// Hands out the usable frames of the memory map in order: `next` frames
/// have been handed out so far.
pub struct BootInfoFrameAllocator {
    pub next: usize,
}

impl BootInfoFrameAllocator {
    /// An allocator that has handed out nothing yet.
    pub fn init() -> (a: Self)
        ensures
            a.next == 0,
    {
        BootInfoFrameAllocator { next: 0 }
    }

    /// The next usable frame of `regions`, by its start address, or `None`
    /// once they are all handed out; the count moves on either way.
    pub fn allocate_frame(&mut self, regions: &[MemoryRegion]) -> (frame: Option<u64>)
        requires
            old(self).next < usize::MAX,
            regions_in_range(regions@),
            old(self).next < usable_frame_addresses(regions@).len()
                ==> usable_frame_addresses(regions@)[old(self).next as int] < 0x10_0000_0000_0000,
        ensures
            final(self).next == old(self).next + 1,
            frame == (if old(self).next < usable_frame_addresses(regions@).len() {
                Some(frame_start(usable_frame_addresses(regions@)[old(self).next as int]) as u64)
            } else {
                None
            }),
    {
        let frame = nth_usable_frame(regions, self.next);
        self.next = self.next + 1;
        frame
    }
}

/// The start of the `n`-th usable frame of `regions`, if there are so many.
pub fn nth_usable_frame(regions: &[MemoryRegion], n: usize) -> (frame: Option<u64>)
    requires
        regions_in_range(regions@),
        n < usable_frame_addresses(regions@).len() ==> usable_frame_addresses(regions@)[n as int]
            < 0x10_0000_0000_0000,
    ensures
        frame == (if n < usable_frame_addresses(regions@).len() {
            Some(frame_start(usable_frame_addresses(regions@)[n as int]) as u64)
        } else {
            None
        }),
{
    let ghost all = usable_frame_addresses(regions@);
    let mut left: u64 = n as u64;
    let mut i: usize = 0;
    while i < regions.len()
        invariant
            i <= regions.len(),
            all == usable_frame_addresses(regions@),
            regions_in_range(regions@),
            n < all.len() ==> all[n as int] < 0x10_0000_0000_0000,
            left + usable_frame_addresses(regions@.take(i as int)).len() == n,
        decreases regions.len() - i,
    {
        let r = regions[i];
        proof {
            assert(regions@.take(i + 1).drop_last() =~= regions@.take(i as int));
            assert(regions@.take(i + 1).last() == r);
            lemma_prefix_frames(regions@, i + 1);
        }
        if r.usable {
            let count: u64 = r.length / FRAME_SIZE + if r.length % FRAME_SIZE != 0 {
                1
            } else {
                0
            };
            assert(count == region_frames(r).len()) by (nonlinear_arith)
                requires
                    count == r.length / 4096 + if r.length % 4096 != 0 { 1int } else { 0int },
                    region_frames(r).len() == (r.length as int + 4095) / 4096,
            ;
            if left < count {
                proof {
                    lemma_frame_in_region(r.length, left);
                    assert(regions@[i as int] == r);
                }
                let addr: u64 = r.base + FRAME_SIZE * left;
                proof {
                    let before = usable_frame_addresses(regions@.take(i as int));
                    assert(usable_frame_addresses(regions@.take(i + 1)) == before + region_frames(r));
                    assert(all[n as int] == usable_frame_addresses(regions@.take(i + 1))[n as int]);
                    assert(region_frames(r)[left as int] == addr);
                }
                let start = frame_start_of(addr);
                return Some(start);
            }
            left = left - count;
        }
        i = i + 1;
    }
    proof {
        assert(regions@.take(regions@.len() as int) =~= regions@);
    }
    None
}

/// Frame `k` of a region lies inside it: its offset from the base is below
/// the length.
proof fn lemma_frame_in_region(length: u64, k: u64)
    requires
        k < length / 4096 + if length % 4096 != 0 { 1int } else { 0int },
    ensures
        4096 * k < length,
{
    assert(4096 * k < length) by (nonlinear_arith)
        requires
            k < length / 4096 + if length % 4096 != 0 { 1int } else { 0int },
            length == 4096 * (length / 4096) + length % 4096,
            0 <= length % 4096 < 4096,
    ;
}

/// The frame addresses of the first `j` regions come first among those of
/// all regions.
proof fn lemma_prefix_frames(regions: Seq<MemoryRegion>, j: int)
    requires
        0 <= j <= regions.len(),
    ensures
        usable_frame_addresses(regions.take(j)).len() <= usable_frame_addresses(regions).len(),
        forall|k: int|
            0 <= k < usable_frame_addresses(regions.take(j)).len() ==> usable_frame_addresses(
                regions.take(j),
            )[k] == usable_frame_addresses(regions)[k],
    decreases regions.len(),
{
    if j == regions.len() {
        assert(regions.take(j) =~= regions);
    } else {
        let shorter = regions.drop_last();
        assert(regions.take(j) =~= shorter.take(j));
        lemma_prefix_frames(shorter, j);
    }
}

/// The frame that holds the physical address `addr`, by its start address
/// (`x86_64`'s `PhysFrame::containing_address` of `PhysAddr::new(addr)`):
/// `addr` rounded down to a multiple of 4096. `PhysAddr::new` panics when a
/// bit from 52 up is set, which the `requires` leaves out.
#[verifier::external_body]
fn frame_start_of(addr: u64) -> (start: u64)
    requires
        addr < 0x10_0000_0000_0000,
    ensures
        start == frame_start(addr as int),
{
    PhysFrame::<Size4KiB>::containing_address(PhysAddr::new(addr)).start_address().as_u64()
}

/// A memory map laid out as the boot loader hands it over: usable regions
/// start on a frame boundary and follow each other without overlapping.
pub open spec fn regions_ordered(regions: Seq<MemoryRegion>) -> bool {
    &&& forall|k: int|
        0 <= k < regions.len() && (#[trigger] regions[k]).usable ==> regions[k].base % FRAME_SIZE
            == 0
    &&& forall|k: int, l: int|
        0 <= k < l < regions.len() && (#[trigger] regions[k]).usable
            && (#[trigger] regions[l]).usable ==> regions[k].base + regions[k].length
            <= regions[l].base
}

/// On such a map the allocator never hands out a frame twice: the frames
/// it hands out come in strictly increasing order.
pub proof fn law_frames_distinct(regions: Seq<MemoryRegion>, i: int, j: int)
    requires
        regions_ordered(regions),
        0 <= i < j < usable_frame_addresses(regions).len(),
    ensures
        frame_start(usable_frame_addresses(regions)[i]) < frame_start(
            usable_frame_addresses(regions)[j],
        ),
{
    lemma_frames_increasing(regions);
}

/// On an ordered map the frame addresses start on frame boundaries and
/// strictly increase.
proof fn lemma_frames_increasing(regions: Seq<MemoryRegion>)
    requires
        regions_ordered(regions),
    ensures
        forall|i: int|
            0 <= i < usable_frame_addresses(regions).len() ==> #[trigger] usable_frame_addresses(
                regions,
            )[i] % FRAME_SIZE as int == 0 && frame_start(usable_frame_addresses(regions)[i])
                == usable_frame_addresses(regions)[i],
        forall|i: int, j: int|
            0 <= i < j < usable_frame_addresses(regions).len() ==> #[trigger] usable_frame_addresses(
                regions,
            )[i] < #[trigger] usable_frame_addresses(regions)[j],
    decreases regions.len(),
{
    if regions.len() > 0 {
        let shorter = regions.drop_last();
        let r = regions.last();
        assert(regions_ordered(shorter)) by {
            assert forall|k: int| 0 <= k < shorter.len() implies shorter[k] == regions[k] by {}
        }
        lemma_frames_increasing(shorter);
        let a = usable_frame_addresses(shorter);
        let f = region_frames(r);
        let all = usable_frame_addresses(regions);
        assert(all == a + f);
        if r.usable {
            assert(r.base % FRAME_SIZE == 0) by {
                assert(regions[regions.len() - 1] == r);
            }
            assert forall|k: int| 0 <= k < shorter.len() && (#[trigger] shorter[k]).usable implies shorter[k].base
                + shorter[k].length <= r.base by {
                assert(shorter[k] == regions[k]);
                assert(regions[regions.len() - 1] == r);
            }
            lemma_frames_below(shorter, r.base as int);
            assert forall|x: int| 0 <= x < f.len() implies (#[trigger] f[x]) % 4096 == 0 && r.base <= f[x] by {
                lemma_step_aligned(r.base as int, x);
            }
        }
        assert forall|i: int| 0 <= i < all.len() implies #[trigger] all[i] % FRAME_SIZE as int == 0
            && frame_start(all[i]) == all[i] by {
            if i >= a.len() {
                assert(all[i] == f[i - a.len()]);
            }
        }
        assert forall|i: int, j: int| 0 <= i < j < all.len() implies #[trigger] all[i] < #[trigger] all[j] by {
            if j < a.len() {
                assert(all[i] == a[i] && all[j] == a[j]);
            } else if i >= a.len() {
                assert(all[i] == f[i - a.len()] && all[j] == f[j - a.len()]);
            } else {
                assert(all[i] == a[i] && all[j] == f[j - a.len()]);
            }
        }
    }
}

/// When every usable region ends by `b`, so does every frame address.
proof fn lemma_frames_below(regions: Seq<MemoryRegion>, b: int)
    requires
        forall|k: int|
            0 <= k < regions.len() && (#[trigger] regions[k]).usable ==> regions[k].base
                + regions[k].length <= b,
    ensures
        forall|i: int|
            0 <= i < usable_frame_addresses(regions).len() ==> #[trigger] usable_frame_addresses(
                regions,
            )[i] < b,
    decreases regions.len(),
{
    if regions.len() > 0 {
        let shorter = regions.drop_last();
        let r = regions.last();
        assert forall|k: int| 0 <= k < shorter.len() && (#[trigger] shorter[k]).usable implies shorter[k].base
            + shorter[k].length <= b by {
            assert(shorter[k] == regions[k]);
        }
        lemma_frames_below(shorter, b);
        let a = usable_frame_addresses(shorter);
        let f = region_frames(r);
        let all = usable_frame_addresses(regions);
        assert forall|i: int| 0 <= i < all.len() implies #[trigger] all[i] < b by {
            if i >= a.len() {
                let x = i - a.len();
                assert(regions[regions.len() - 1] == r);
                assert(all[i] == f[x]);
                assert(FRAME_SIZE * x < r.length) by (nonlinear_arith)
                    requires
                        0 <= x < (r.length as int + 4095) / 4096,
                ;
            } else {
                assert(all[i] == a[i]);
            }
        }
    }
}

/// A multiple of the frame size added to a frame boundary is one.
proof fn lemma_step_aligned(base: int, x: int)
    requires
        base % 4096 == 0,
        0 <= x,
        0 <= base,
    ensures
        (base + 4096 * x) % 4096 == 0,
        base <= base + 4096 * x,
{
    assert((base + 4096 * x) % 4096 == 0) by (nonlinear_arith)
        requires
            base % 4096 == 0,
    ;
}

} // verus!
