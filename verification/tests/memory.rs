use mikan_xhci::memory::{ceil, Pool, POOL_SIZE};

#[test]
fn ceil_moves_to_the_following_multiple() {
    assert_eq!(ceil(10, 4), 12);
    assert_eq!(ceil(1, 64), 64);
    assert_eq!(ceil(0, 4096), 4096);
}

#[test]
fn ceil_moves_on_from_a_multiple() {
    assert_eq!(ceil(8, 4), 12);
    assert_eq!(ceil(4096, 4096), 8192);
}

#[test]
fn new_pool_starts_at_its_base() {
    let pool = Pool::new(0x1000, POOL_SIZE);
    assert_eq!(pool.base(), 0x1000);
    assert_eq!(pool.cursor(), 0x1000);
}

#[test]
fn allocate_without_constraints_is_sequential() {
    let mut pool = Pool::new(0x1000, POOL_SIZE);
    assert_eq!(pool.allocate(100, 0, 0), Some(0x1000));
    assert_eq!(pool.allocate(28, 0, 0), Some(0x1064));
    assert_eq!(pool.cursor(), 0x1080);
}

#[test]
fn allocate_aligns_the_start() {
    let mut pool = Pool::new(0x1000, POOL_SIZE);
    assert_eq!(pool.allocate(100, 64, 0), Some(0x1040));
    assert_eq!(pool.cursor(), 0x1040 + 100);
    let second = pool.allocate(16, 64, 0).unwrap();
    assert_eq!(second, 0x10c0);
    assert_eq!(second % 64, 0);
}

#[test]
fn allocate_jumps_to_the_boundary_it_would_cross() {
    let mut pool = Pool::new(0, 0x20000);
    assert_eq!(pool.allocate(0x100, 0, 0), Some(0));
    assert_eq!(pool.allocate(0x1000, 64, 0x1000), Some(0x1000));
    assert_eq!(pool.cursor(), 0x2000);
}

#[test]
fn allocate_stays_when_no_boundary_is_crossed() {
    let mut pool = Pool::new(0, 0x20000);
    assert_eq!(pool.allocate(0x100, 0, 0), Some(0));
    assert_eq!(pool.allocate(0x80, 64, 0x1000), Some(0x140));
    assert_eq!(pool.cursor(), 0x1c0);
}

#[test]
fn allocate_region_ending_on_the_boundary_stays() {
    let mut pool = Pool::new(0, 0x20000);
    assert_eq!(pool.allocate(1, 0, 0), Some(0));
    // Aligned to 64, the region ends exactly at 4096.
    assert_eq!(pool.allocate(4096 - 64, 64, 4096), Some(64));
    assert_eq!(pool.cursor(), 4096);
}

#[test]
fn allocations_do_not_overlap() {
    let mut pool = Pool::new(0x4000, POOL_SIZE);
    let demands = [(40usize, 64usize, 4096usize), (4096, 4096, 4096), (16, 0, 0), (512, 64, 65536)];
    let mut regions: Vec<(usize, usize)> = Vec::new();
    for (length, alignment, boundary) in demands {
        let start = pool.allocate(length, alignment, boundary).unwrap();
        assert_eq!(start % alignment.max(1), 0);
        regions.push((start, length));
    }
    for i in 0..regions.len() {
        assert!(regions[i].0 >= 0x4000);
        assert!(regions[i].0 + regions[i].1 <= 0x4000 + POOL_SIZE);
        for j in (i + 1)..regions.len() {
            assert!(regions[i].0 + regions[i].1 <= regions[j].0);
        }
    }
}

#[test]
fn allocate_fails_past_the_end() {
    let mut pool = Pool::new(0, 128);
    assert_eq!(pool.allocate(200, 0, 0), None);
    assert_eq!(pool.cursor(), 0);
    assert_eq!(pool.allocate(128, 0, 0), Some(0));
    assert_eq!(pool.allocate(1, 0, 0), None);
    assert_eq!(pool.allocate(0, 0, 0), Some(128));
}

#[test]
fn failed_allocation_keeps_the_aligned_cursor() {
    let mut pool = Pool::new(10, 100);
    assert_eq!(pool.allocate(200, 64, 0), None);
    assert_eq!(pool.cursor(), 64);
    assert_eq!(pool.allocate(8, 0, 0), Some(64));
}

#[test]
fn exhausted_pool_keeps_earlier_regions() {
    let mut pool = Pool::new(0x1000, 256);
    let first = pool.allocate(128, 0, 0).unwrap();
    let second = pool.allocate(128, 0, 0).unwrap();
    assert_eq!(pool.allocate(1, 0, 0), None);
    assert_eq!(pool.allocate(64, 64, 0), None);
    assert_eq!((first, second), (0x1000, 0x1080));
    assert_eq!(pool.base(), 0x1000);
}

#[test]
fn boundary_that_is_no_multiple_of_the_alignment_breaks_it() {
    let mut pool = Pool::new(0, 1000);
    assert_eq!(pool.allocate(10, 0, 0), Some(0));
    // Aligned to 64 the region would cross 100, so it starts there.
    assert_eq!(pool.allocate(90, 64, 100), Some(100));
}

#[test]
fn allocate_near_the_top_of_the_address_space() {
    let mut pool = Pool::new(usize::MAX - 100, 100);
    assert_eq!(pool.allocate(10, 4096, 0), None);
    assert_eq!(pool.cursor(), usize::MAX);
    assert_eq!(pool.allocate(0, 0, 0), Some(usize::MAX));
}

#[test]
fn allocate_slice_multiplies() {
    let mut pool = Pool::new(0, POOL_SIZE);
    assert_eq!(pool.allocate_slice(5, 8, 64, 4096), Some(64));
    assert_eq!(pool.cursor(), 104);
}

#[test]
fn allocate_slice_too_long_for_the_address_space() {
    let mut pool = Pool::new(0, POOL_SIZE);
    assert_eq!(pool.allocate_slice(usize::MAX, 8, 64, 4096), None);
    assert_eq!(pool.cursor(), 0);
}
