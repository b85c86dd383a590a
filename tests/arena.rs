use berrylite::errors::BLiteError;
use berrylite::micro_allocator::BumpArenaAllocator;

#[test]
fn allocations_are_aligned_and_disjoint() {
    let mut arena = BumpArenaAllocator::new(1001, 64);
    let a = arena.allocate(3, 1).unwrap();
    let b = arena.allocate(8, 8).unwrap();
    let c = arena.allocate(4, 4).unwrap();
    assert_eq!(a, 1001);
    assert_eq!(b, 1008);
    assert_eq!(c, 1016);
    assert!(a + 3 <= b && b + 8 <= c);
    assert_eq!(arena.used(), 19);
    assert_eq!(arena.description(), (64, 19));
}

#[test]
fn failed_allocation_leaves_cursor() {
    let mut arena = BumpArenaAllocator::new(0, 16);
    assert_eq!(arena.allocate(10, 1), Ok(0));
    assert_eq!(arena.allocate(7, 1), Err(BLiteError::FailedToAllocateMemory));
    assert_eq!(arena.used(), 10);
    // Alignment pushes this one past the end.
    assert_eq!(arena.allocate(4, 8), Err(BLiteError::FailedToAllocateMemory));
    assert_eq!(arena.used(), 10);
    assert_eq!(arena.allocate(6, 1), Ok(10));
    assert_eq!(arena.used(), 16);
    assert_eq!(arena.allocate(0, 1), Ok(16));
}

#[test]
fn alloc_from_offset_keeps_cursor() {
    let mut arena = BumpArenaAllocator::new(100, 50);
    arena.allocate(5, 1).unwrap();
    assert_eq!(arena.alloc_from_offset(10, 20, 4), Ok(116));
    assert_eq!(arena.used(), 5);
    assert_eq!(arena.alloc_from_offset(40, 6, 1), Err(BLiteError::FailedToAllocateMemory));
    arena.update_offset(30);
    assert_eq!(arena.used(), 35);
    assert_eq!(arena.capacity(), 50);
}

#[test]
fn align_up_rounds_to_multiple() {
    assert_eq!(BumpArenaAllocator::align_up(13, 4), Some(16));
    assert_eq!(BumpArenaAllocator::align_up(16, 4), Some(16));
    assert_eq!(BumpArenaAllocator::align_up(usize::MAX, 2), None);
}
