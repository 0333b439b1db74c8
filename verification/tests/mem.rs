use nx::mem::{align_down, align_up, ReferenceCount, Shared, SharedHeap};

#[test]
fn align_up_rounds_to_the_next_multiple() {
    assert_eq!(align_up(0, 8), 0);
    assert_eq!(align_up(1, 8), 8);
    assert_eq!(align_up(8, 8), 8);
    assert_eq!(align_up(9, 4), 12);
    assert_eq!(align_up(0x1001, 0x1000), 0x2000);
    assert_eq!(align_up(5, 1), 5);
}

#[test]
fn align_down_rounds_to_the_previous_multiple() {
    assert_eq!(align_down(0, 8), 0);
    assert_eq!(align_down(7, 8), 0);
    assert_eq!(align_down(8, 8), 8);
    assert_eq!(align_down(0x1fff, 0x1000), 0x1000);
    assert_eq!(align_down(5, 1), 5);
}

#[test]
fn reference_count_starts_without_storage() {
    let count = ReferenceCount::new();
    assert_eq!(count.use_count(), 0);
}

#[test]
fn reference_count_acquire_and_release() {
    let mut count = ReferenceCount::new();
    count.acquire();
    assert_eq!(count.use_count(), 1);
    count.acquire();
    assert_eq!(count.use_count(), 2);
    assert!(!count.release());
    assert_eq!(count.use_count(), 1);
    assert!(count.release());
    assert_eq!(count.use_count(), 0);
    // nothing left to release
    assert!(!count.release());
    assert_eq!(count.use_count(), 0);
}

#[test]
fn shared_new_has_one_owner() {
    let mut heap: SharedHeap<u32> = SharedHeap::new();
    let shared = Shared::new(&mut heap, 7);
    assert_eq!(shared.use_count(&heap), 1);
    assert_eq!(shared.get(&heap), Some(&7));
    assert!(heap.is_live(shared.id().unwrap()));
}

#[test]
fn shared_use_count_follows_copies_and_resets() {
    let mut heap: SharedHeap<u32> = SharedHeap::new();
    let mut a = Shared::new(&mut heap, 7);
    let mut b = a.copy(&mut heap);
    let mut c = a.to(&mut heap);
    assert_eq!(a.use_count(&heap), 3);
    assert_eq!(b.use_count(&heap), 3);
    assert_eq!(c.use_count(&heap), 3);
    b.reset(&mut heap);
    assert_eq!(a.use_count(&heap), 2);
    assert_eq!(b.use_count(&heap), 0);
    assert!(b.id().is_none());
    c.reset(&mut heap);
    assert_eq!(a.use_count(&heap), 1);
    let id = a.id().unwrap();
    a.reset(&mut heap);
    assert!(!heap.is_live(id));
    assert_eq!(a.use_count(&heap), 0);
}

#[test]
fn shared_reset_twice_releases_once() {
    let mut heap: SharedHeap<u32> = SharedHeap::new();
    let mut a = Shared::new(&mut heap, 1);
    let b = a.copy(&mut heap);
    a.reset(&mut heap);
    a.reset(&mut heap);
    assert_eq!(b.use_count(&heap), 1);
    assert_eq!(b.get(&heap), Some(&1));
}

#[test]
fn shared_take_hands_out_the_object_with_the_last_handle() {
    let mut heap: SharedHeap<String> = SharedHeap::new();
    let mut a = Shared::new(&mut heap, String::from("object"));
    let mut b = a.copy(&mut heap);
    assert_eq!(a.take(&mut heap), None);
    assert_eq!(b.take(&mut heap), Some(String::from("object")));
    assert_eq!(b.take(&mut heap), None);
}

#[test]
fn shared_handles_are_equal_when_they_name_one_allocation() {
    let mut heap: SharedHeap<u32> = SharedHeap::new();
    let a = Shared::new(&mut heap, 1);
    let b = a.copy(&mut heap);
    let c = Shared::new(&mut heap, 1);
    assert!(a == b);
    assert!(a != c);
}

#[test]
fn shared_get_mut_changes_the_object_for_every_handle() {
    let mut heap: SharedHeap<u32> = SharedHeap::new();
    let a = Shared::new(&mut heap, 1);
    let b = a.copy(&mut heap);
    *heap.get_mut(a.id().unwrap()) = 5;
    assert_eq!(b.get(&heap), Some(&5));
}

#[test]
fn stale_handle_does_not_reach_a_reused_slot() {
    let mut heap: SharedHeap<u32> = SharedHeap::new();
    let mut a = Shared::new(&mut heap, 1);
    let stale = a.id().unwrap();
    a.reset(&mut heap);
    let b = Shared::new(&mut heap, 2);
    let fresh = b.id().unwrap();
    assert_eq!(fresh.slot, stale.slot);
    assert_ne!(fresh.generation, stale.generation);
    assert!(!heap.is_live(stale));
    assert_eq!(heap.get(stale), None);
    assert_eq!(heap.get(fresh), Some(&2));
}

#[test]
fn copy_of_a_handle_on_nothing_is_a_handle_on_nothing() {
    let mut heap: SharedHeap<u32> = SharedHeap::new();
    let mut a = Shared::new(&mut heap, 1);
    a.reset(&mut heap);
    let b = a.copy(&mut heap);
    assert!(b.id().is_none());
    assert_eq!(b.use_count(&heap), 0);
}
