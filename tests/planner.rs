use berrylite::errors::BLiteError;
use berrylite::greedy_memory_planner::{GreedyMemoryPlanner, ListEntry, OffsetList};
use berrylite::micro_allocation_info::{AllocationInfo, Requirement};
use berrylite::micro_allocator::BumpArenaAllocator;

fn req(size: usize, idx: usize, first: usize, last: usize) -> Requirement {
    Requirement::new(size, idx, Some(first), Some(last), true)
}

fn table(reqs: &[Requirement]) -> AllocationInfo {
    let mut info = AllocationInfo::new(reqs.len());
    for r in reqs {
        info.add_info(r).unwrap();
    }
    info
}

#[test]
fn requirement_updates() {
    let mut r = Requirement::new(0, 0, None, None, false);
    r.update_first_time_used(Requirement::new(8, 2, Some(1), None, true));
    assert_eq!(r, Requirement::new(8, 2, Some(1), None, true));
    // A later writer does not replace the first one.
    r.update_first_time_used(Requirement::new(8, 2, Some(3), None, true));
    assert_eq!(r.first_time_used, Some(1));
    r.update_last_time_used(Requirement::new(8, 2, None, Some(4), true));
    r.update_last_time_used(Requirement::new(8, 2, None, Some(6), true));
    assert_eq!(r, Requirement::new(8, 2, Some(1), Some(6), true));
}

#[test]
fn add_info_fails_when_full() {
    let mut info = AllocationInfo::new(1);
    assert_eq!(info.add_info(&req(1, 0, 0, 0)), Ok(()));
    assert_eq!(info.add_info(&req(2, 1, 0, 0)), Err(BLiteError::InfoIndexOutOfBound));
    info.update_last_time_used(0, Requirement::new(5, 0, None, Some(9), true));
    assert_eq!(info.info[0].last_time_used, Some(9));
    info.update_first_time_used(0, Requirement::new(5, 0, Some(7), None, true));
    assert_eq!(info.info[0].first_time_used, Some(0));
}

#[test]
fn reverse_sort_is_stable() {
    let mut info = table(&[req(10, 0, 0, 0), req(30, 1, 0, 0), req(10, 2, 0, 0), req(30, 3, 0, 0), req(20, 4, 0, 0)]);
    info.in_place_reverse_sort();
    let order: Vec<usize> = info.info.iter().map(|r| r.idx).collect();
    assert_eq!(order, vec![1, 3, 4, 0, 2]);
}

#[test]
fn offset_list_keeps_offset_order() {
    let mut list = OffsetList::new(3);
    assert_eq!(list.get_first_entry(), None);
    assert_eq!(list.add_entry(ListEntry::new(5, Some(0))), Ok(0));
    assert_eq!(list.insert_entry(ListEntry::new(2, Some(1))), Ok(()));
    assert_eq!(list.insert_entry(ListEntry::new(5, Some(2))), Ok(()));
    assert_eq!(list.len(), 3);
    assert_eq!(list.get_first_entry(), Some(ListEntry::new(2, Some(1))));
    assert_eq!(list.entry(1), ListEntry::new(5, Some(0)));
    assert_eq!(list.entry(2), ListEntry::new(5, Some(2)));
    assert_eq!(list.insert_entry(ListEntry::new(0, Some(3))), Err(BLiteError::OutOfListEntrySize));
}

#[test]
fn planner_reuses_bytes_across_disjoint_lifetimes() {
    // A lives over nodes 0..1, B over 1..2, C over 2..3.
    let mut info = table(&[req(100, 0, 0, 1), req(50, 1, 1, 2), req(100, 2, 2, 3)]);
    info.in_place_reverse_sort();
    let mut planner = GreedyMemoryPlanner::new(info).unwrap();
    planner.calculate_offsets_if_needed().unwrap();
    // C reuses A's bytes; B lives with both and goes after them.
    assert_eq!(planner.high_water_mark(), 150);
    let mut arena = BumpArenaAllocator::new(1000, 1000);
    arena.allocate(8, 1).unwrap();
    let placed = planner.allocate_tensors_following_plan(&mut arena).unwrap();
    let mut by_tensor = placed.clone();
    by_tensor.sort();
    assert_eq!(by_tensor, vec![(0, 1008), (1, 1108), (2, 1008)]);
    assert_eq!(arena.used(), 158);
}

#[test]
fn planner_keeps_simultaneous_tensors_apart() {
    let reqs = [req(16, 0, 0, 3), req(8, 1, 1, 1), req(8, 2, 2, 2), req(24, 3, 0, 0), req(4, 4, 3, 5)];
    let mut info = table(&reqs);
    info.in_place_reverse_sort();
    let mut planner = GreedyMemoryPlanner::new(info).unwrap();
    planner.calculate_offsets_if_needed().unwrap();
    let n = planner.num_requirements();
    let mut spans = Vec::new();
    for k in 0..n {
        let e = planner.entry(k);
        let r = planner.requirement(e.requirement_idx.unwrap());
        spans.push((e.offset, r));
    }
    for (i, (oa, a)) in spans.iter().enumerate() {
        for (j, (ob, b)) in spans.iter().enumerate() {
            let live_together = a.first_time_used.unwrap() <= b.last_time_used.unwrap()
                && b.first_time_used.unwrap() <= a.last_time_used.unwrap();
            if i != j && live_together {
                assert!(oa + a.size <= *ob || ob + b.size <= *oa);
            }
        }
    }
    let total: usize = reqs.iter().map(|r| r.size).sum();
    let hw = planner.high_water_mark();
    assert!(hw <= total);
    assert_eq!(hw, spans.iter().map(|(o, r)| o + r.size).max().unwrap());
}

#[test]
fn planner_rejects_incomplete_requirements() {
    let info = table(&[Requirement::new(4, 0, Some(0), None, true)]);
    assert_eq!(GreedyMemoryPlanner::new(info).err(), Some(BLiteError::NotFoundRequirementIdx));
}

#[test]
fn planner_commit_fails_when_arena_too_small() {
    let mut info = table(&[req(100, 0, 0, 1), req(50, 1, 1, 2)]);
    info.in_place_reverse_sort();
    let mut planner = GreedyMemoryPlanner::new(info).unwrap();
    planner.calculate_offsets_if_needed().unwrap();
    let mut arena = BumpArenaAllocator::new(0, 120);
    assert_eq!(
        planner.allocate_tensors_following_plan(&mut arena).err(),
        Some(BLiteError::FailedToAllocateMemory)
    );
    assert_eq!(arena.used(), 0);
}

#[test]
fn empty_plan_commits_nothing() {
    let mut planner = GreedyMemoryPlanner::new(AllocationInfo::new(0)).unwrap();
    planner.calculate_offsets_if_needed().unwrap();
    let mut arena = BumpArenaAllocator::new(0, 8);
    assert_eq!(planner.allocate_tensors_following_plan(&mut arena), Ok(vec![]));
    assert_eq!(arena.used(), 0);
}
