use iceoryx2_bb_elementary::bump_allocator::AllocationError;
use used_chunk_list::{
    FixedSizeUsedChunkList, RelativePointer, RelocatableUsedChunkList, SharedSegment,
    UsedChunkList,
};

#[test]
fn fresh_list_has_every_chunk_free() {
    for capacity in [0usize, 1, 5, 64] {
        let mut sut = UsedChunkList::new(capacity);
        assert_eq!(sut.capacity(), capacity);
        assert!(sut.remove_all().is_empty());
        for i in 0..capacity {
            assert!(!sut.remove(i));
        }
    }
}

#[test]
fn inserting_twice_reports_true_then_false() {
    let mut sut = UsedChunkList::new(8);
    assert!(sut.insert(5));
    assert!(!sut.insert(5));
    assert_eq!(sut.remove_all(), vec![5]);
}

#[test]
fn insert_then_remove_reports_true_twice() {
    let mut sut = UsedChunkList::new(4);
    assert!(sut.insert(2));
    assert!(sut.remove(2));
    assert!(!sut.remove(2));
    let mut fresh = UsedChunkList::new(4);
    assert!(!fresh.remove(1));
}

#[test]
fn remove_all_reports_each_used_chunk_once_and_frees_all() {
    let mut sut = UsedChunkList::new(16);
    for i in [9usize, 1, 15, 4, 1] {
        sut.insert(i);
    }
    sut.remove(4);
    assert_eq!(sut.remove_all(), vec![1, 9, 15]);
    assert!(sut.remove_all().is_empty());
    for i in 0..16 {
        assert!(sut.insert(i));
    }
}

#[test]
fn drain_scenario_with_capacity_ten() {
    let mut sut = UsedChunkList::new(10);
    assert!(sut.insert(0));
    assert!(sut.insert(3));
    assert!(sut.insert(7));
    assert_eq!(sut.remove_all(), vec![0, 3, 7]);
    assert!(sut.insert(3));
}

#[test]
fn single_chunk_scenario() {
    let mut sut = UsedChunkList::new(1);
    assert!(sut.insert(0));
    assert!(!sut.insert(0));
    assert!(sut.remove(0));
    assert!(!sut.remove(0));
}

#[test]
fn memory_size_is_one_byte_per_chunk() {
    assert_eq!(UsedChunkList::const_memory_size(0), 0);
    assert_eq!(UsedChunkList::const_memory_size(7), 7);
    assert_eq!(RelocatableUsedChunkList::memory_size(1000), 1000);
    let mut sizes = Vec::new();
    for c in 0..20usize {
        sizes.push(RelocatableUsedChunkList::memory_size(c));
    }
    assert!(sizes.windows(2).all(|w| w[0] <= w[1]));
    assert_eq!(RelocatableUsedChunkList::new_uninit(12).allocation_size(), 12);
}

#[test]
fn relocatable_list_is_unbound_until_init() {
    let sut = RelocatableUsedChunkList::new_uninit(4);
    assert!(!sut.is_bound());
    assert_eq!(sut.capacity(), 4);
}

#[test]
fn relocatable_list_binds_and_tracks_chunks() {
    let mut segment = SharedSegment::new(64);
    let own = 8usize;
    let start = 40usize;
    let mut sut = RelocatableUsedChunkList::new_uninit(10);
    assert_eq!(sut.init(&mut segment, own, Ok(start)), Ok(()));
    assert!(sut.is_bound());
    assert!(sut.insert(&mut segment, own, 3));
    assert!(!sut.insert(&mut segment, own, 3));
    assert_eq!(segment.byte(start + 3), 1);
    assert!(sut.insert(&mut segment, own, 9));
    assert!(sut.remove(&mut segment, own, 9));
    assert!(sut.insert(&mut segment, own, 0));
    assert_eq!(sut.remove_all(&mut segment, own), vec![0, 3]);
    assert!(sut.remove_all(&mut segment, own).is_empty());
    assert_eq!(segment.byte(start + 3), 0);
}

#[test]
fn relocatable_list_init_clears_stale_flags_in_its_region_only() {
    let mut segment = SharedSegment::new(16);
    let mut first = RelocatableUsedChunkList::new_uninit(16);
    first.init(&mut segment, 0, Ok(0)).unwrap();
    for i in 0..16 {
        first.insert(&mut segment, 0, i);
    }
    let mut second = RelocatableUsedChunkList::new_uninit(4);
    second.init(&mut segment, 2, Ok(10)).unwrap();
    assert_eq!(second.remove_all(&mut segment, 2), Vec::<usize>::new());
    assert_eq!(
        first.remove_all(&mut segment, 0),
        vec![0, 1, 2, 3, 4, 5, 6, 7, 8, 9, 14, 15]
    );
}

#[test]
fn relocatable_list_hands_back_allocation_failure() {
    let mut segment = SharedSegment::new(8);
    let mut sut = RelocatableUsedChunkList::new_uninit(4);
    assert_eq!(
        sut.init(&mut segment, 0, Err(AllocationError::OutOfMemory)),
        Err(AllocationError::OutOfMemory)
    );
    assert!(!sut.is_bound());
    assert_eq!(sut.init(&mut segment, 0, Ok(4)), Ok(()));
    assert!(sut.is_bound());
}

#[test]
fn relocatable_list_bound_at_construction() {
    let mut segment = SharedSegment::new(32);
    let sut = RelocatableUsedChunkList::new(5, 12);
    assert!(sut.is_bound());
    assert!(sut.insert(&mut segment, 4, 2));
    assert_eq!(segment.byte(18), 1);
    assert_eq!(sut.remove_all(&mut segment, 4), vec![2]);
}

#[test]
fn relative_pointer_follows_its_own_position() {
    let p = RelativePointer::between(100, 40);
    assert_eq!(p.distance(), -60);
    assert_eq!(p.resolve(100), 40);
    assert_eq!(p.resolve(1100), 1040);
    let q = RelativePointer::new(24);
    assert_eq!(q.resolve(0), 24);
    assert_eq!(RelativePointer::new_uninit().distance(), 0);
}

#[test]
fn fixed_size_list_tracks_chunks() {
    let mut sut = FixedSizeUsedChunkList::<10>::new();
    assert_eq!(sut.capacity(), 10);
    assert!(sut.remove_all().is_empty());
    assert!(sut.insert(0));
    assert!(sut.insert(3));
    assert!(!sut.insert(3));
    assert!(sut.insert(7));
    assert!(sut.insert(9));
    assert!(sut.remove(9));
    assert!(!sut.remove(9));
    assert_eq!(sut.remove_all(), vec![0, 3, 7]);
    assert!(sut.insert(3));
}

#[test]
fn fixed_size_list_of_one_chunk() {
    let mut sut = FixedSizeUsedChunkList::<1>::new();
    assert!(sut.insert(0));
    assert!(!sut.insert(0));
    assert!(sut.remove(0));
    assert!(!sut.remove(0));
}

#[test]
fn relocatable_list_placement_check() {
    let mut segment = SharedSegment::new(20);
    let mut sut = RelocatableUsedChunkList::new_uninit(6);
    assert!(!sut.is_placed_in(&segment, 4));
    sut.init(&mut segment, 4, Ok(14)).unwrap();
    assert!(sut.is_placed_in(&segment, 4));
    assert!(sut.is_placed_in(&segment, 0));
    assert!(!sut.is_placed_in(&segment, 5));
    let behind = RelocatableUsedChunkList::new(2, -3);
    assert!(!behind.is_placed_in(&segment, 2));
    assert!(behind.is_placed_in(&segment, 3));
}
