use mve_transport::handle::{
    ContextHandle, HandleAllocator, FIRST_COALESCE_HANDLE, FIRST_UNRAVEL_HANDLE, HANDLE_STEP,
    ROOT_HANDLE,
};

#[test]
fn coalescing_side_gives_out_even_handles_from_two() {
    let mut indices = HandleAllocator::coalescing();
    assert_eq!(indices.allocate(), ContextHandle(2));
    assert_eq!(indices.allocate(), ContextHandle(4));
    assert_eq!(indices.allocate(), ContextHandle(6));
}

#[test]
fn unraveling_side_gives_out_odd_handles_from_one() {
    let mut indices = HandleAllocator::unraveling();
    assert_eq!(indices.allocate(), ContextHandle(1));
    assert_eq!(indices.allocate(), ContextHandle(3));
    assert_eq!(indices.allocate(), ContextHandle(5));
}

#[test]
fn the_two_sides_share_no_handle() {
    let mut even = HandleAllocator::coalescing();
    let mut odd = HandleAllocator::unraveling();
    let ours: Vec<u32> = (0..1000).map(|_| even.allocate().0).collect();
    let theirs: Vec<u32> = (0..1000).map(|_| odd.allocate().0).collect();
    assert!(ours.iter().all(|id| !theirs.contains(id)));
    assert!(!ours.contains(&ROOT_HANDLE));
    assert!(!theirs.contains(&ROOT_HANDLE));
}

#[test]
fn handles_of_one_side_are_distinct() {
    let mut indices = HandleAllocator::unraveling();
    let mut seen: Vec<u32> = (0..1000).map(|_| indices.allocate().0).collect();
    assert_eq!(seen[999], 1999);
    let given = seen.len();
    seen.sort_unstable();
    seen.dedup();
    assert_eq!(seen.len(), given);
}

#[test]
fn constants_of_the_handle_space() {
    assert_eq!(ROOT_HANDLE, 0);
    assert_eq!(FIRST_COALESCE_HANDLE, 2);
    assert_eq!(FIRST_UNRAVEL_HANDLE, 1);
    assert_eq!(HANDLE_STEP, 2);
}
