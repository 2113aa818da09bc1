use ledger_vm::defer::Defer;
use std::sync::atomic::{AtomicBool, Ordering};

#[test]
fn disarm_skips_the_deferred_closure() {
    let ran = AtomicBool::new(false);
    {
        let guard = Defer::new(|| ran.store(true, Ordering::SeqCst));
        let guard = guard.disarm();
        assert!(!guard.leave());
    }
    assert!(!ran.load(Ordering::SeqCst));
}

#[test]
fn leaving_the_scope_runs_the_deferred_closure() {
    let ran = AtomicBool::new(false);
    let guard = Defer::new(|| ran.store(true, Ordering::SeqCst));
    assert!(!ran.load(Ordering::SeqCst));
    assert!(guard.leave());
    assert!(ran.load(Ordering::SeqCst));
}
