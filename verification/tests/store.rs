use ledger_vm::store::atomic_owner::{claim, consults_atomic_batch, release, ThreadKeys};
use ledger_vm::store::atomic_scope::{
    AtomicInProgress, AtomicScope, FinalizeScope, FinalizeScopeError, ScopeEntry, ScopeExit,
};
use ledger_vm::store::flat_batch::{get_flat, rebuild_flat, FlatBatch};
use ledger_vm::store::nested_batch::{apply_nested_log, NestedBatch, NestedPending};

#[test]
fn rebuild_flat_keeps_latest_value() {
    let log = vec![(1u64, Some("a")), (1u64, Some("b")), (2u64, None)];
    let pending = rebuild_flat(&log);
    assert_eq!(get_flat(&log, &pending, 1), Some(Some("b")));
    assert_eq!(get_flat(&log, &pending, 2), Some(None));
}

#[test]
fn flat_push_replaces_with_a_later_index() {
    let mut batch = FlatBatch::default();
    batch.push(1u64, Some("a"));
    batch.push(1u64, Some("b"));
    assert_eq!(batch.get(1), Some(Some("b")));
}

#[test]
fn nested_delete_then_reinsert_ignores_confirmed_keys() {
    let mut batch = NestedBatch::default();
    batch.push(0, Some(1), Some(10u8));
    batch.push(0, None, None);
    batch.push(0, Some(2), Some(20u8));
    assert_eq!(batch.get(0, 2), Some(Some(20u8)));
    assert_eq!(batch.get(0, 1), Some(None));
    assert_eq!(batch.get(0, 99), Some(None));
}

#[test]
fn nested_rebuild_matches_apply() {
    let log = vec![(0u64, Some(1u64), Some(10u8)), (0, None, None), (0, Some(1), Some(11u8))];
    let pending = NestedPending::rebuild(&log);
    assert_eq!(pending.get(&log, 0, 1), Some(Some(11u8)));
    assert_eq!(pending.get(&log, 0, 99), Some(None));
}

#[test]
fn flat_batch_does_not_know_other_keys() {
    let mut batch: FlatBatch<u8> = FlatBatch::default();
    assert!(batch.is_empty());
    batch.push(1, Some(5));
    assert!(!batch.is_empty());
    assert_eq!(batch.get(2), None);
    assert_eq!(rebuild_flat::<u8>(&[]).len(), 0);
}

#[test]
fn flat_rewind_undoes_later_writes() {
    let mut batch = FlatBatch::default();
    batch.push(1, Some(5u8));
    batch.push(2, Some(6));
    batch.push(1, None);
    batch.rewind(1);
    assert_eq!(batch.get(1), Some(Some(5)));
    assert_eq!(batch.get(2), None);
    assert_eq!(batch.log.len(), 1);
}

#[test]
fn flat_take_log_empties_the_batch() {
    let mut batch = FlatBatch::default();
    batch.push(7, Some(1u8));
    batch.push(7, Some(2));
    assert_eq!(batch.take_log(), vec![(7, Some(1)), (7, Some(2))]);
    assert!(batch.is_empty());
    assert_eq!(batch.get(7), None);
    batch.push(7, Some(3));
    batch.clear();
    assert!(batch.is_empty());
}

#[test]
fn nested_batch_tells_maps_and_keys_apart() {
    let mut batch = NestedBatch::default();
    batch.push(1, Some(0x0100), Some(1u8));
    batch.push(1, Some(0x0001), Some(2));
    batch.push(2, Some(0x0100), Some(3));
    assert_eq!(batch.get(1, 0x0100), Some(Some(1)));
    assert_eq!(batch.get(1, 0x0001), Some(Some(2)));
    assert_eq!(batch.get(2, 0x0100), Some(Some(3)));
    assert_eq!(batch.get(2, 0x0001), None);
    // Removing a map hides its keys and leaves the others.
    batch.push(1, None, None);
    assert_eq!(batch.get(1, 0x0100), Some(None));
    assert_eq!(batch.get(2, 0x0100), Some(Some(3)));
    assert_eq!(batch.get(3, 1), None);
}

#[test]
fn nested_removal_of_a_key_is_the_latest_write() {
    let mut batch = NestedBatch::default();
    batch.push(4, Some(1), Some(1u8));
    batch.push(4, Some(1), None);
    assert_eq!(batch.get(4, 1), Some(None));
    assert_eq!(batch.get(4, 2), None);
}

#[test]
fn nested_rewind_undoes_the_removal_of_a_map() {
    let mut batch = NestedBatch::default();
    batch.push(1, Some(1), Some(1u8));
    batch.push(1, None, None);
    batch.push(1, Some(2), Some(2));
    batch.rewind(1);
    assert_eq!(batch.get(1, 1), Some(Some(1)));
    assert_eq!(batch.get(1, 2), None);
    assert!(!batch.is_empty());
    assert_eq!(batch.take_log(), vec![(1, Some(1), Some(1))]);
    assert!(batch.is_empty());
    assert_eq!(batch.get(1, 1), None);
}

#[test]
fn nested_log_is_applied_to_the_confirmed_entries() {
    // The confirmed entries of one map, and operations on two maps.
    let mut confirmed = vec![(1u64, 10u8), (2, 20), (3, 30)];
    let log = vec![
        (5u64, Some(2u64), Some(21u8)),
        (6, Some(3), Some(99)),
        (5, Some(3), None),
        (5, Some(4), Some(40)),
    ];
    apply_nested_log(&mut confirmed, &log, 5);
    let read = |key: u64| confirmed.iter().find(|entry| entry.0 == key).map(|entry| entry.1);
    assert_eq!(read(1), Some(10));
    assert_eq!(read(2), Some(21));
    assert_eq!(read(3), None);
    assert_eq!(read(4), Some(40));

    let mut confirmed = vec![(1u64, 10u8), (2, 20)];
    apply_nested_log(&mut confirmed, &[(5, None, None), (5, Some(2), Some(22))], 5);
    assert_eq!(confirmed, vec![(2, 22)]);
}

#[test]
fn threads_get_distinct_keys_and_only_the_owner_reads_its_batch() {
    let mut keys = ThreadKeys::new();
    let mut slot_a = 0;
    let mut slot_b = 0;
    let key_a = keys.current_thread_key(&mut slot_a);
    let key_b = keys.current_thread_key(&mut slot_b);
    assert_ne!(key_a, key_b);
    assert_ne!(key_a, 0);
    assert_eq!(keys.current_thread_key(&mut slot_a), key_a);

    let mut owner = 0;
    claim(&mut owner, &mut keys, &mut slot_a);
    assert_eq!(owner, key_a);
    assert!(consults_atomic_batch(true, owner, &mut keys, &mut slot_a));
    assert!(!consults_atomic_batch(true, owner, &mut keys, &mut slot_b));
    assert!(!consults_atomic_batch(false, owner, &mut keys, &mut slot_a));
    release(&mut owner);
    assert_eq!(owner, 0);
}

#[test]
fn top_level_scope_commits_and_nested_scope_checkpoints() {
    let (outer, entry) = AtomicScope::enter(false);
    assert_eq!(entry, ScopeEntry::StartAtomic);
    let (inner, entry) = AtomicScope::enter(true);
    assert_eq!(entry, ScopeEntry::AtomicCheckpoint);
    assert_eq!(inner.exit(true), ScopeExit::ClearLatestCheckpoint);
    assert_eq!(inner.exit(false), ScopeExit::AtomicRewind);
    assert_eq!(outer.exit(true), ScopeExit::FinishAtomic);
    assert_eq!(outer.exit(false), ScopeExit::AbortAtomic);

    assert_eq!(outer.result(Ok::<u8, &str>(1), Ok(())), Ok(1));
    assert_eq!(outer.result(Ok::<u8, &str>(1), Err("finish")), Err("finish"));
    assert_eq!(outer.result(Err::<u8, &str>("ops"), Ok(())), Err("ops"));
    assert_eq!(inner.result(Ok::<u8, &str>(1), Err("ignored")), Ok(1));
}

#[test]
fn finalize_scope_may_not_be_nested() {
    assert_eq!(FinalizeScope::enter(true), Err(AtomicInProgress));
    let (scope, entry) = FinalizeScope::enter(false).unwrap();
    assert_eq!(entry, ScopeEntry::StartAtomic);
    assert_eq!(scope.exit(true), ScopeExit::FinishAtomic);
    assert_eq!(scope.exit(false), ScopeExit::AbortAtomic);
    assert!(matches!(scope.result::<u8, u8>(Ok(3), Ok(())), Ok(3)));
    assert!(matches!(scope.result::<u8, u8>(Ok(3), Err(4)), Err(FinalizeScopeError::Finish(4))));
    match scope.result::<u8, u8>(Err(String::from("no")), Ok(())) {
        Err(FinalizeScopeError::Operations(message)) => assert_eq!(message, "no"),
        _ => panic!("expected the operations to fail"),
    }
}

#[test]
fn nested_log_applies_in_parts_and_without_other_maps() {
    let confirmed = vec![(1u64, 10u32), (2, 20)];
    let log = vec![
        (5u64, Some(1u64), Some(11u32)),
        (6, Some(1), Some(99)),
        (5, Some(3), Some(30)),
        (6, None, None),
        (5, Some(2), None),
    ];
    let mut whole = confirmed.clone();
    apply_nested_log(&mut whole, &log, 5);
    assert_eq!(whole, vec![(1, 11), (3, 30)]);
    for split in 0..=log.len() {
        let mut parts = confirmed.clone();
        apply_nested_log(&mut parts, &log[..split], 5);
        apply_nested_log(&mut parts, &log[split..], 5);
        assert_eq!(parts, whole);
    }
    let own: Vec<_> = log.iter().filter(|operation| operation.0 == 5).cloned().collect();
    let mut without = confirmed.clone();
    apply_nested_log(&mut without, &own, 5);
    assert_eq!(without, whole);
    let mut untouched = confirmed.clone();
    apply_nested_log(&mut untouched, &log, 7);
    assert_eq!(untouched, confirmed);
}
