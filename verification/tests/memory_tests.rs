use ferrum_os::memory::{nth_usable_frame, BootInfoFrameAllocator, MemoryRegion};

fn sample_map() -> Vec<MemoryRegion> {
    vec![
        MemoryRegion { base: 0x1000, length: 0x2000, usable: true },
        MemoryRegion { base: 0x8000, length: 0x4000, usable: false },
        MemoryRegion { base: 0x10_0800, length: 0x1001, usable: true },
    ]
}

#[test]
fn frames_come_from_usable_regions_in_order() {
    let map = sample_map();
    let mut alloc = BootInfoFrameAllocator::init();
    assert_eq!(alloc.next, 0);
    assert_eq!(alloc.allocate_frame(&map), Some(0x1000));
    assert_eq!(alloc.allocate_frame(&map), Some(0x2000));
    // the third region starts mid-frame: its frames are rounded down
    assert_eq!(alloc.allocate_frame(&map), Some(0x10_0000));
    assert_eq!(alloc.allocate_frame(&map), Some(0x10_1000));
    assert_eq!(alloc.next, 4);
}

#[test]
fn allocator_runs_out() {
    let map = sample_map();
    let mut alloc = BootInfoFrameAllocator::init();
    for _ in 0..4 {
        assert!(alloc.allocate_frame(&map).is_some());
    }
    assert_eq!(alloc.allocate_frame(&map), None);
    assert_eq!(alloc.allocate_frame(&map), None);
    assert_eq!(alloc.next, 6);
}

#[test]
fn nth_frame_of_empty_map_is_none() {
    assert_eq!(nth_usable_frame(&[], 0), None);
    let map = vec![MemoryRegion { base: 0, length: 0, usable: true }];
    assert_eq!(nth_usable_frame(&map, 0), None);
    let map = vec![MemoryRegion { base: 0x3000, length: 1, usable: true }];
    assert_eq!(nth_usable_frame(&map, 0), Some(0x3000));
    assert_eq!(nth_usable_frame(&map, 1), None);
}

#[test]
fn ordered_map_gives_each_frame_once() {
    let map = vec![
        MemoryRegion { base: 0x0, length: 0x3000, usable: true },
        MemoryRegion { base: 0x3000, length: 0x1000, usable: false },
        MemoryRegion { base: 0x4000, length: 0x2800, usable: true },
    ];
    let mut alloc = BootInfoFrameAllocator::init();
    let mut frames = Vec::new();
    while let Some(f) = alloc.allocate_frame(&map) {
        frames.push(f);
    }
    assert_eq!(frames, vec![0x0, 0x1000, 0x2000, 0x4000, 0x5000, 0x6000]);
    for w in frames.windows(2) {
        assert!(w[0] < w[1]);
    }
}
