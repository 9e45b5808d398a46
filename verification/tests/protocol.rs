//! The ordering protocol on concrete trees: forward-only acquisition, the
//! reentrancy guard, release and reacquisition, and payload round trips.

use locktree::{
    AccessMode, Cursor, LockKind, SlotDescriptor, SlotGuard, Synchronicity, TreeDescriptor,
    TreeError, TreeInstance,
};

fn slot(name: &str, kind: LockKind) -> SlotDescriptor {
    SlotDescriptor { name: String::from(name), kind, sync: Synchronicity::Blocking }
}

fn exclusive_tree(names: &[&str]) -> TreeDescriptor {
    TreeDescriptor {
        name: String::from("Main"),
        slots: names.iter().map(|n| slot(n, LockKind::Exclusive)).collect(),
    }
}

fn shared_tree(names: &[&str]) -> TreeDescriptor {
    TreeDescriptor {
        name: String::from("Main"),
        slots: names.iter().map(|n| slot(n, LockKind::SharedExclusive)).collect(),
    }
}

#[test]
fn scenario_one_exclusive_slot_set_release_reacquire_reads_back() {
    let mut tree = TreeInstance::new(exclusive_tree(&["m"]), vec![0u64]);
    let (guard, cursor) = tree.entry_acquire(0, AccessMode::Write).unwrap();
    assert_eq!(tree.write_through(&guard, 5), 0);
    tree.release_guard(guard).unwrap();
    tree.release_cursor(cursor).unwrap();
    assert!(!tree.is_active());
    let (guard, cursor) = tree.entry_acquire(0, AccessMode::Write).unwrap();
    assert_eq!(*tree.read_through(&guard), 5);
    tree.release_guard(guard).unwrap();
    tree.release_cursor(cursor).unwrap();
}

#[test]
fn scenario_two_slots_forward_skip_and_backward_refusal() {
    let mut tree = TreeInstance::new(exclusive_tree(&["a", "b"]), vec![1u64, 2u64]);
    // acquire `a`, then forward-acquire `b`
    let (guard_a, cursor_a) = tree.entry_acquire(0, AccessMode::Write).unwrap();
    let (guard_b, cursor_b) = tree.acquire_from(cursor_a, 1, AccessMode::Write).unwrap();
    assert_eq!(*tree.read_through(&guard_a), 1);
    assert_eq!(*tree.read_through(&guard_b), 2);
    tree.release_guard(guard_b).unwrap();
    tree.release_guard(guard_a).unwrap();
    tree.release_cursor(cursor_b).unwrap();
    assert!(!tree.is_active());
    // acquiring `b` directly from the entry point, skipping `a`, succeeds
    let (guard_b, cursor_b) = tree.entry_acquire(1, AccessMode::Write).unwrap();
    // but from the cursor after `b`, attempting `a` is refused
    let refused = tree.acquire_from(cursor_b, 0, AccessMode::Write);
    assert!(matches!(refused, Err(TreeError::OrderingViolation)));
    tree.release_guard(guard_b).unwrap();
    assert!(!tree.is_active());
}

#[test]
fn scenario_concurrent_shared_readers_refused_per_instance() {
    // one shared-exclusive slot; the backend itself would admit two readers,
    // but the reentrancy guard is per instance chain, not per slot
    let mut tree = TreeInstance::new(shared_tree(&["s"]), vec![7u64]);
    let (read_guard, cursor) = tree.entry_acquire(0, AccessMode::Read).unwrap();
    let second = tree.entry_acquire(0, AccessMode::Read);
    assert!(matches!(second, Err(TreeError::Reentrancy)));
    assert_eq!(*tree.read_through(&read_guard), 7);
    tree.release_guard(read_guard).unwrap();
    tree.release_cursor(cursor).unwrap();
}

#[test]
fn scenario_dropping_only_the_guard_keeps_the_chain_live() {
    let mut tree = TreeInstance::new(exclusive_tree(&["m"]), vec![0u64]);
    let (guard, cursor) = tree.entry_acquire(0, AccessMode::Write).unwrap();
    tree.release_guard(guard).unwrap();
    // the chain's cursor is still live: a fresh entry acquisition is refused
    assert!(tree.is_active());
    assert!(matches!(tree.entry_acquire(0, AccessMode::Write), Err(TreeError::Reentrancy)));
    // only the full release reopens the tree
    tree.release_cursor(cursor).unwrap();
    assert!(!tree.is_active());
    let (guard, cursor) = tree.entry_acquire(0, AccessMode::Write).unwrap();
    tree.release_guard(guard).unwrap();
    tree.release_cursor(cursor).unwrap();
}

#[test]
fn round_trip_ascending_chain_reads_all_payloads() {
    let mut tree = TreeInstance::new(
        exclusive_tree(&["a", "b", "c"]),
        vec![10u64, 20u64, 30u64],
    );
    let (guard_a, cursor) = tree.entry_acquire(0, AccessMode::Write).unwrap();
    let (guard_b, cursor) = tree.acquire_from(cursor, 1, AccessMode::Write).unwrap();
    let (guard_c, cursor) = tree.acquire_from(cursor, 2, AccessMode::Write).unwrap();
    assert_eq!(*tree.read_through(&guard_a), 10);
    assert_eq!(*tree.read_through(&guard_b), 20);
    assert_eq!(*tree.read_through(&guard_c), 30);
    tree.release_cursor(cursor).unwrap();
    tree.release_guard(guard_c).unwrap();
    tree.release_guard(guard_b).unwrap();
    tree.release_guard(guard_a).unwrap();
    assert!(!tree.is_active());
    // a different valid order still reads the constructed values
    let (guard_b, cursor) = tree.entry_acquire(1, AccessMode::Write).unwrap();
    assert_eq!(*tree.read_through(&guard_b), 20);
    tree.release_guard(guard_b).unwrap();
    tree.release_cursor(cursor).unwrap();
}

#[test]
fn equal_position_is_refused_like_an_earlier_one() {
    let mut tree = TreeInstance::new(exclusive_tree(&["a", "b"]), vec![0u64, 0u64]);
    let (guard, cursor) = tree.entry_acquire(1, AccessMode::Write).unwrap();
    let refused = tree.acquire_from(cursor, 1, AccessMode::Write);
    assert!(matches!(refused, Err(TreeError::OrderingViolation)));
    tree.release_guard(guard).unwrap();
}

#[test]
fn reentrancy_refused_while_a_forward_guard_is_live() {
    let mut tree = TreeInstance::new(exclusive_tree(&["a", "b"]), vec![0u64, 0u64]);
    let (guard_a, cursor) = tree.entry_acquire(0, AccessMode::Write).unwrap();
    let (guard_b, cursor) = tree.acquire_from(cursor, 1, AccessMode::Write).unwrap();
    tree.release_guard(guard_a).unwrap();
    assert!(matches!(tree.entry_acquire(0, AccessMode::Write), Err(TreeError::Reentrancy)));
    tree.release_guard(guard_b).unwrap();
    assert!(matches!(tree.entry_acquire(0, AccessMode::Write), Err(TreeError::Reentrancy)));
    tree.release_cursor(cursor).unwrap();
    assert!(!tree.is_active());
}

#[test]
fn unknown_slot_is_refused_at_the_entry_point() {
    let mut tree = TreeInstance::new(exclusive_tree(&["m"]), vec![0u64]);
    assert!(matches!(tree.entry_acquire(5, AccessMode::Write), Err(TreeError::UnknownSlot)));
    assert!(!tree.is_active());
}

#[test]
fn unknown_slot_from_a_cursor_still_spends_it() {
    let mut tree = TreeInstance::new(exclusive_tree(&["m"]), vec![0u64]);
    let (guard, cursor) = tree.entry_acquire(0, AccessMode::Write).unwrap();
    assert!(matches!(
        tree.acquire_from(cursor, 9, AccessMode::Write),
        Err(TreeError::UnknownSlot)
    ));
    // the cursor is gone, the guard still holds the chain open
    assert!(tree.is_active());
    tree.release_guard(guard).unwrap();
    assert!(!tree.is_active());
}

#[test]
fn a_foreign_cursor_finds_no_active_chain() {
    let mut active = TreeInstance::new(exclusive_tree(&["m"]), vec![0u64]);
    let mut idle = TreeInstance::new(exclusive_tree(&["m"]), vec![0u64]);
    let (guard, cursor) = active.entry_acquire(0, AccessMode::Write).unwrap();
    assert!(matches!(
        idle.acquire_from(cursor, 0, AccessMode::Write),
        Err(TreeError::NoActiveChain)
    ));
    active.release_guard(guard).unwrap();
}

#[test]
fn a_held_slot_reports_busy_to_a_stale_cursor() {
    let mut tree = TreeInstance::new(exclusive_tree(&["a", "b"]), vec![0u64, 0u64]);
    let (guard, _cursor) = tree.entry_acquire(1, AccessMode::Write).unwrap();
    // a cursor that claims an earlier position reaches the held slot
    let stale = Cursor { after: 0 };
    assert!(matches!(
        tree.acquire_from(stale, 1, AccessMode::Write),
        Err(TreeError::SlotBusy)
    ));
    tree.release_guard(guard).unwrap();
}

#[test]
fn stale_handles_are_refused() {
    let mut tree = TreeInstance::new(exclusive_tree(&["m"]), vec![0u64]);
    let forged = SlotGuard { slot: 0, mode: AccessMode::Write };
    assert!(matches!(tree.release_guard(forged), Err(TreeError::StaleHandle)));
    let forged = Cursor { after: 0 };
    assert!(matches!(tree.release_cursor(forged), Err(TreeError::StaleHandle)));
    assert!(!tree.is_active());
}

#[test]
fn an_exclusive_slot_widens_a_read_request() {
    let mut tree = TreeInstance::new(exclusive_tree(&["m"]), vec![3u64]);
    let (guard, cursor) = tree.entry_acquire(0, AccessMode::Read).unwrap();
    // the granted guard is exclusive: it may write
    assert_eq!(guard.mode, AccessMode::Write);
    assert_eq!(tree.write_through(&guard, 4), 3);
    assert_eq!(*tree.read_through(&guard), 4);
    tree.release_guard(guard).unwrap();
    tree.release_cursor(cursor).unwrap();
}

#[test]
fn a_shared_slot_grants_the_requested_mode() {
    let mut tree = TreeInstance::new(shared_tree(&["s"]), vec![1u64]);
    let (guard, cursor) = tree.entry_acquire(0, AccessMode::Read).unwrap();
    assert_eq!(guard.mode, AccessMode::Read);
    assert_eq!(*tree.read_through(&guard), 1);
    tree.release_guard(guard).unwrap();
    tree.release_cursor(cursor).unwrap();
    let (guard, cursor) = tree.entry_acquire(0, AccessMode::Write).unwrap();
    assert_eq!(guard.mode, AccessMode::Write);
    assert_eq!(tree.write_through(&guard, 2), 1);
    tree.release_guard(guard).unwrap();
    tree.release_cursor(cursor).unwrap();
}

#[test]
fn the_reentrancy_diagnostic_names_the_tree() {
    let tree = TreeInstance::new(
        TreeDescriptor { name: String::from("MainLockTree"), slots: vec![] },
        Vec::<u64>::new(),
    );
    assert_eq!(
        tree.reentrancy_diagnostic(),
        "potential deadlock detected: MainLockTree was locked twice"
    );
}

#[test]
fn mixed_kinds_line_up_with_their_declarations() {
    let desc = TreeDescriptor {
        name: String::from("Mixed"),
        slots: vec![
            slot("m", LockKind::Exclusive),
            slot("s", LockKind::SharedExclusive),
        ],
    };
    let mut tree = TreeInstance::new(desc, vec![100u64, 200u64]);
    assert_eq!(tree.slot_count(), 2);
    let (guard_m, cursor) = tree.entry_acquire(0, AccessMode::Read).unwrap();
    assert_eq!(guard_m.mode, AccessMode::Write);
    let (guard_s, cursor) = tree.acquire_from(cursor, 1, AccessMode::Read).unwrap();
    assert_eq!(guard_s.mode, AccessMode::Read);
    assert_eq!(*tree.read_through(&guard_m), 100);
    assert_eq!(*tree.read_through(&guard_s), 200);
    tree.release_cursor(cursor).unwrap();
    tree.release_guard(guard_s).unwrap();
    tree.release_guard(guard_m).unwrap();
    assert!(!tree.is_active());
}
