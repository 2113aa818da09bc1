//! The protocol that runs a block of operations as one atomic write batch.
//!
//! A scope that is entered while no batch is in progress is the top-level one: it starts the batch
//! and, at its end, commits or aborts it. A scope that is entered inside a batch sets a checkpoint
//! and, at its end, clears it or rewinds to it.

use vstd::prelude::*;

verus! {

/// What a scope does to the store when it is entered.
#[derive(Copy, Clone, Debug, PartialEq, Eq, Structural)]
pub enum ScopeEntry {
    /// Start a batch.
    StartAtomic,
    /// Set a checkpoint in the batch that is in progress.
    AtomicCheckpoint,
}

/// What a scope does to the store when its operations are done.
#[derive(Copy, Clone, Debug, PartialEq, Eq, Structural)]
pub enum ScopeExit {
    /// Forget the latest checkpoint, keeping the writes made since.
    ClearLatestCheckpoint,
    /// Commit the batch.
    FinishAtomic,
    /// Undo the writes made since the latest checkpoint, and forget it.
    AtomicRewind,
    /// Drop the batch.
    AbortAtomic,
}

/// A scope that was entered.
#[derive(Copy, Clone, Debug, PartialEq, Eq, Structural)]
pub struct AtomicScope {
    /// `true` when a batch was in progress as the scope was entered.
    pub nested: bool,
}

/// What entering a scope does.
pub open spec fn entry_of(is_atomic_in_progress: bool) -> ScopeEntry {
    if is_atomic_in_progress {
        ScopeEntry::AtomicCheckpoint
    } else {
        ScopeEntry::StartAtomic
    }
}

/// What leaving a scope does.
pub open spec fn exit_of(nested: bool, succeeded: bool) -> ScopeExit {
    match (nested, succeeded) {
        (true, true) => ScopeExit::ClearLatestCheckpoint,
        (false, true) => ScopeExit::FinishAtomic,
        (true, false) => ScopeExit::AtomicRewind,
        (false, false) => ScopeExit::AbortAtomic,
    }
}

impl AtomicScope {
    /// Enters a scope.
    pub fn enter(is_atomic_in_progress: bool) -> (entered: (AtomicScope, ScopeEntry))
        ensures
            entered.0.nested == is_atomic_in_progress,
            entered.1 == entry_of(is_atomic_in_progress),
    {
        let entry = if is_atomic_in_progress {
            ScopeEntry::AtomicCheckpoint
        } else {
            ScopeEntry::StartAtomic
        };
        (AtomicScope { nested: is_atomic_in_progress }, entry)
    }

    /// Decides what to do once the operations have ended.
    pub fn exit(&self, succeeded: bool) -> (exit: ScopeExit)
        ensures
            exit == exit_of(self.nested, succeeded),
    {
        if succeeded {
            if self.nested {
                ScopeExit::ClearLatestCheckpoint
            } else {
                ScopeExit::FinishAtomic
            }
        } else {
            if self.nested {
                ScopeExit::AtomicRewind
            } else {
                ScopeExit::AbortAtomic
            }
        }
    }

    /// Returns the result of the scope, given that of its operations and, for a batch that was
    /// committed, that of the commit.
    pub fn result<T, E>(&self, operations: Result<T, E>, finish: Result<(), E>) -> (result: Result<
        T,
        E,
    >)
        ensures
            result == (match (operations, finish) {
                (Ok(_), Err(error)) => if self.nested {
                    operations
                } else {
                    Err(error)
                },
                _ => operations,
            }),
    {
        match operations {
            Ok(value) => if self.nested {
                Ok(value)
            } else {
                match finish {
                    Ok(()) => Ok(value),
                    Err(error) => Err(error),
                }
            },
            Err(error) => Err(error),
        }
    }
}

/// The store refused to finalize, because another batch is in progress.
#[derive(Copy, Clone, Debug, PartialEq, Eq, Structural)]
pub struct AtomicInProgress;

/// A batch of finalize writes, which may not be nested.
#[derive(Copy, Clone, Debug, PartialEq, Eq, Structural)]
pub struct FinalizeScope;

impl FinalizeScope {
    /// Enters the scope, which starts a batch, unless one is in progress.
    pub fn enter(is_atomic_in_progress: bool) -> (entered: Result<
        (FinalizeScope, ScopeEntry),
        AtomicInProgress,
    >)
        ensures
            entered is Err <==> is_atomic_in_progress,
            entered matches Ok(pair) ==> pair.1 == ScopeEntry::StartAtomic,
    {
        if is_atomic_in_progress {
            Err(AtomicInProgress)
        } else {
            Ok((FinalizeScope, ScopeEntry::StartAtomic))
        }
    }

    /// Decides what to do once the operations have ended.
    pub fn exit(&self, succeeded: bool) -> (exit: ScopeExit)
        ensures
            exit == exit_of(false, succeeded),
    {
        if succeeded {
            ScopeExit::FinishAtomic
        } else {
            ScopeExit::AbortAtomic
        }
    }
}

/// Why a batch of finalize writes was not committed.
#[derive(Debug)]
pub enum FinalizeScopeError<E> {
    /// The operations failed with this message, and the batch was aborted.
    Operations(String),
    /// The operations succeeded, but the store failed to commit the batch.
    Finish(E),
}

impl FinalizeScope {
    /// Returns the result of the scope, given that of its operations and, when they succeeded, that
    /// of the commit.
    pub fn result<T, E>(
        &self,
        operations: Result<T, String>,
        finish: Result<(), E>,
    ) -> (result: Result<T, FinalizeScopeError<E>>)
        ensures
            result == (match (operations, finish) {
                (Ok(value), Ok(())) => Ok(value),
                (Ok(_), Err(error)) => Err(FinalizeScopeError::Finish(error)),
                (Err(message), _) => Err(FinalizeScopeError::Operations(message)),
            }),
    {
        match operations {
            Ok(value) => match finish {
                Ok(()) => Ok(value),
                Err(error) => Err(FinalizeScopeError::Finish(error)),
            },
            Err(message) => Err(FinalizeScopeError::Operations(message)),
        }
    }
}

/// A store with its batch: whether one is in progress, its pending writes, the checkpoints set in
/// it, and the writes committed so far.
#[verifier::ext_equal]
pub struct BatchState<W> {
    pub in_progress: bool,
    pub pending: Seq<W>,
    pub checkpoints: Seq<int>,
    pub committed: Seq<W>,
}

impl<W> BatchState<W> {
    /// Without a batch in progress nothing is pending, and checkpoints lie within the writes.
    pub open spec fn wf(self) -> bool {
        &&& !self.in_progress ==> self.pending.len() == 0 && self.checkpoints.len() == 0
        &&& forall|i: int|
            0 <= i < self.checkpoints.len() ==> 0 <= #[trigger] self.checkpoints[i]
                <= self.pending.len()
    }

    /// The store after a scope was entered.
    pub open spec fn entered(self, entry: ScopeEntry) -> BatchState<W> {
        match entry {
            ScopeEntry::StartAtomic => BatchState { in_progress: true, ..self },
            ScopeEntry::AtomicCheckpoint => BatchState {
                checkpoints: self.checkpoints.push(self.pending.len() as int),
                ..self
            },
        }
    }

    /// The store after operations queued `writes`.
    pub open spec fn wrote(self, writes: Seq<W>) -> BatchState<W> {
        BatchState { pending: self.pending + writes, ..self }
    }

    /// The store after a scope was left.
    pub open spec fn left(self, exit: ScopeExit) -> BatchState<W> {
        match exit {
            ScopeExit::ClearLatestCheckpoint => BatchState {
                checkpoints: self.checkpoints.drop_last(),
                ..self
            },
            ScopeExit::AtomicRewind => BatchState {
                pending: self.pending.take(self.checkpoints.last()),
                checkpoints: self.checkpoints.drop_last(),
                ..self
            },
            ScopeExit::FinishAtomic => BatchState {
                in_progress: false,
                pending: Seq::empty(),
                checkpoints: Seq::empty(),
                committed: self.committed + self.pending,
            },
            ScopeExit::AbortAtomic => BatchState {
                in_progress: false,
                pending: Seq::empty(),
                checkpoints: Seq::empty(),
                ..self
            },
        }
    }

    /// The store after a whole scope whose operations queued `writes`.
    pub open spec fn ran_scope(self, writes: Seq<W>, succeeded: bool) -> BatchState<W> {
        self.entered(entry_of(self.in_progress)).wrote(writes).left(
            exit_of(self.in_progress, succeeded),
        )
    }
}

/// A scope is all or nothing. When its operations fail, the store is as it was before the scope.
/// When they succeed, a nested scope adds its writes to those of the batch around it and commits
/// nothing, and a top-level scope commits exactly its writes. In every case the number of
/// checkpoints, and whether a batch is in progress, are as before.
pub proof fn law_scope_is_atomic<W>(store: BatchState<W>, writes: Seq<W>)
    requires
        store.wf(),
    ensures
        store.ran_scope(writes, false) == store,
        store.in_progress ==> store.ran_scope(writes, true) == store.wrote(writes),
        !store.in_progress ==> store.ran_scope(writes, true) == (BatchState {
            committed: store.committed + writes,
            ..store
        }),
{
    let pushed = store.checkpoints.push(store.pending.len() as int);
    assert(pushed.drop_last() =~= store.checkpoints);
    assert((store.pending + writes).take(store.pending.len() as int) =~= store.pending);
    if !store.in_progress {
        assert(store.pending =~= Seq::empty());
        assert(store.pending + writes =~= writes);
        assert(store.checkpoints =~= Seq::empty());
    }
    assert(store.ran_scope(writes, false) =~= store);
}

/// However deep scopes are nested, a batch is started once and committed once: inside a batch, a
/// scope neither starts, nor commits, nor aborts.
pub proof fn law_only_the_top_level_scope_commits(is_atomic_in_progress: bool, succeeded: bool)
    ensures
        entry_of(is_atomic_in_progress) == ScopeEntry::StartAtomic <==> !is_atomic_in_progress,
        exit_of(is_atomic_in_progress, succeeded) == ScopeExit::FinishAtomic
            <==> !is_atomic_in_progress && succeeded,
        exit_of(is_atomic_in_progress, succeeded) == ScopeExit::AbortAtomic
            <==> !is_atomic_in_progress && !succeeded,
{
}

/// A scope fails when its operations fail, and a top-level one also when its batch could not be
/// committed; otherwise it returns what its operations returned.
pub proof fn law_scope_returns_what_its_operations_did<T, E>(
    scope: AtomicScope,
    operations: Result<T, E>,
    finish: Result<(), E>,
    result: Result<T, E>,
)
    requires
        call_ensures(AtomicScope::result::<T, E>, (&scope, operations, finish), result),
    ensures
        operations is Err ==> result == operations,
        operations is Ok && (scope.nested || finish is Ok) ==> result == operations,
        operations is Ok && !scope.nested && finish is Err ==> result == Err::<T, E>(
            finish->Err_0,
        ),
{
}

} // verus!
