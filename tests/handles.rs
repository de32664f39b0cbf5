use shaderunner::handle::{Handle, HandleArena};

#[test]
fn inserted_value_is_found_by_its_handle() {
    let mut arena: HandleArena<u32> = HandleArena::new();
    let a = arena.insert(10);
    let b = Handle::insert(&mut arena, 20);
    assert!(arena.contains(a));
    assert!(arena.contains(b));
    assert_eq!(arena.get(a), Some(&10));
    assert_eq!(*arena.index(b), 20);
    assert_eq!(arena.len(), 2);
    assert!(a != b);
}

#[test]
fn removed_handle_stays_invalid_after_slot_reuse() {
    let mut arena: HandleArena<&str> = HandleArena::new();
    let first = arena.insert("first");
    assert_eq!(arena.remove(first), Some("first"));
    assert!(!arena.contains(first));
    let second = arena.insert("second");
    // the slot is reused, but the generation differs
    assert_eq!(second.index().0, first.index().0);
    assert_ne!(second.index().1, first.index().1);
    assert!(second != first);
    assert!(!arena.contains(first));
    assert_eq!(arena.get(first), None);
    assert_eq!(arena.get(second), Some(&"second"));
    assert_eq!(arena.remove(first), None);
    assert_eq!(arena.len(), 1);
}

#[test]
fn handles_list_live_values_by_slot() {
    let mut arena: HandleArena<u8> = HandleArena::new();
    let a = arena.insert(1);
    let b = arena.insert(2);
    let c = arena.insert(3);
    arena.remove(b);
    let hs = arena.handles();
    assert_eq!(hs.len(), 2);
    assert!(hs[0] == a);
    assert!(hs[1] == c);
}

#[test]
fn get_mut_changes_only_its_value() {
    let mut arena: HandleArena<u32> = HandleArena::new();
    let a = arena.insert(1);
    let b = arena.insert(2);
    *arena.get_mut(a) = 7;
    assert_eq!(arena.get(a), Some(&7));
    assert_eq!(arena.get(b), Some(&2));
}

#[test]
fn handle_round_trips_its_index() {
    let h: Handle<u32> = Handle::new((3, 9));
    assert_eq!(h.index(), (3, 9));
    let copy = h;
    assert!(copy == h);
    assert!(arena_is_empty());
}

fn arena_is_empty() -> bool {
    let arena: HandleArena<u32> = HandleArena::new();
    arena.len() == 0 && arena.handles().is_empty() && arena.removals_left()
}
