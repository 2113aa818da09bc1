//! Preparing a candidate for the next block.
//!
//! A candidate that cannot be built leaves nothing of its speculation behind, and the hash of one
//! that is built is bound to its speculation.

use crate::block::Header;
use crate::vm::speculation::{bound, speculated, SpeculationId};
use crate::vm::VM;
use vstd::prelude::*;

verus! {

/// What is to be done next while a candidate is prepared.
#[derive(Copy, Clone, Debug, PartialEq, Eq, Structural)]
pub enum PrepareAction {
    /// Construct the block template.
    ConstructTemplate,
    /// Construct the new block on the previous one, with the header of the template.
    NewBlock { previous_hash: u64, header: Header },
    /// Discard the kept speculation.
    DiscardSpeculation,
}

/// What came of an action.
pub enum PrepareReply<E> {
    /// The template was constructed, with the given id of its speculation and the given header.
    Template(SpeculationId, Header),
    /// The new block was constructed, with the given hash.
    Block(u64),
    /// The speculation was discarded.
    Discarded,
    /// The action failed.
    Failed(E),
}

/// How far the preparation has come.
pub enum Preparation<E> {
    Template { previous_hash: u64 },
    Block { id: SpeculationId, previous_hash: u64, header: Header },
    Discard { error: E },
    Ready { hash: u64 },
    Failed { error: E },
}

/// Why there is no candidate.
#[derive(Debug)]
pub enum PrepareError<E> {
    /// Ratifications are currently unsupported from the memory pool.
    RatificationsUnsupported,
    /// The template or the block could not be constructed.
    Other(E),
}

impl<E> Preparation<E> {
    /// Starts to prepare a candidate on the block with the given hash. Currently, ratifications from
    /// the memory pool are not supported.
    pub fn new(previous_hash: u64, num_ratifications: usize) -> (result: Result<
        Preparation<E>,
        PrepareError<E>,
    >)
        ensures
            if num_ratifications == 0 {
                result == Ok::<_, PrepareError<E>>(Preparation::<E>::Template { previous_hash })
            } else {
                result matches Err(error) && error is RatificationsUnsupported
            },
    {
        if num_ratifications != 0 {
            return Err(PrepareError::RatificationsUnsupported);
        }
        Ok(Preparation::Template { previous_hash })
    }

    /// The action to perform; none when the preparation is over.
    pub open spec fn spec_action(&self) -> Option<PrepareAction> {
        match self {
            Preparation::Template { .. } => Some(PrepareAction::ConstructTemplate),
            Preparation::Block { previous_hash, header, .. } => Some(
                PrepareAction::NewBlock { previous_hash: *previous_hash, header: *header },
            ),
            Preparation::Discard { .. } => Some(PrepareAction::DiscardSpeculation),
            Preparation::Ready { .. } => None,
            Preparation::Failed { .. } => None,
        }
    }

    /// Returns the action to perform, or `None` when the preparation is over.
    pub fn action(&self) -> (action: Option<PrepareAction>)
        ensures
            action == self.spec_action(),
    {
        match self {
            Preparation::Template { .. } => Some(PrepareAction::ConstructTemplate),
            Preparation::Block { previous_hash, header, .. } => Some(
                PrepareAction::NewBlock { previous_hash: *previous_hash, header: *header },
            ),
            Preparation::Discard { .. } => Some(PrepareAction::DiscardSpeculation),
            Preparation::Ready { .. } => None,
            Preparation::Failed { .. } => None,
        }
    }

    /// The preparation after a reply. A reply that does not fit the action leaves it as it is.
    pub open spec fn after(self, reply: PrepareReply<E>) -> Preparation<E> {
        match (self, reply) {
            (
                Preparation::Template { previous_hash },
                PrepareReply::Template(id, header),
            ) => Preparation::Block { id, previous_hash, header },
            (Preparation::Template { .. }, PrepareReply::Failed(error)) => Preparation::Discard {
                error,
            },
            (Preparation::Block { .. }, PrepareReply::Block(hash)) => Preparation::Ready { hash },
            (Preparation::Block { .. }, PrepareReply::Failed(error)) => Preparation::Discard {
                error,
            },
            (Preparation::Discard { error }, PrepareReply::Discarded) => Preparation::Failed {
                error,
            },
            _ => self,
        }
    }

    /// Returns the hash of a candidate that is ready, or the error of one that has failed; or `None`
    /// when it is neither.
    pub fn into_result(self) -> (result: Option<Result<u64, PrepareError<E>>>)
        ensures
            match self {
                Preparation::Ready { hash } => result == Some(Ok::<u64, PrepareError<E>>(hash)),
                Preparation::Failed { error } => result == Some(
                    Err::<u64, _>(PrepareError::Other(error)),
                ),
                _ => result is None,
            },
    {
        match self {
            Preparation::Ready { hash } => Some(Ok(hash)),
            Preparation::Failed { error } => Some(Err(PrepareError::Other(error))),
            _ => None,
        }
    }
}

impl VM {
    /// Takes the reply to the action of a preparation. The hash of a new block is bound to the
    /// speculation of its template.
    pub fn prepare_next_block<E>(&mut self, run: Preparation<E>, reply: PrepareReply<E>) -> (next:
        Preparation<E>)
        ensures
            next == run.after(reply),
            final(self).entry() == (match (run, reply) {
                (Preparation::Block { id, .. }, PrepareReply::Block(hash)) => bound(
                    old(self).entry(),
                    id,
                    hash,
                ),
                _ => old(self).entry(),
            }),
            old(self).wf() ==> final(self).wf(),
            final(self).proc() == old(self).proc(),
            final(self).cache() == old(self).cache(),
            final(self).next_id() == old(self).next_id(),
    {
        match (run, reply) {
            (
                Preparation::Template { previous_hash },
                PrepareReply::Template(id, header),
            ) => Preparation::Block { id, previous_hash, header },
            (Preparation::Template { .. }, PrepareReply::Failed(error)) => Preparation::Discard {
                error,
            },
            (Preparation::Block { id, .. }, PrepareReply::Block(hash)) => {
                self.bind_self_constructed_hash(id, hash);
                Preparation::Ready { hash }
            },
            (Preparation::Block { .. }, PrepareReply::Failed(error)) => Preparation::Discard {
                error,
            },
            (Preparation::Discard { error }, PrepareReply::Discarded) => Preparation::Failed {
                error,
            },
            (run, _) => run,
        }
    }
}

/// The preparation after the given replies, in order.
pub open spec fn prepared<E>(run: Preparation<E>, replies: Seq<PrepareReply<E>>) -> Preparation<E>
    decreases replies.len(),
{
    if replies.len() == 0 {
        run
    } else {
        prepared(run, replies.drop_last()).after(replies.last())
    }
}

/// Among the given replies, the speculation was discarded.
pub open spec fn discarded<E>(run: Preparation<E>, replies: Seq<PrepareReply<E>>) -> bool
    decreases replies.len(),
{
    replies.len() > 0 && (discarded(run, replies.drop_last()) || (prepared(
        run,
        replies.drop_last(),
    ) is Discard && replies.last() is Discarded))
}

/// A preparation that has failed has discarded the speculation first, and one that is ready has not.
pub proof fn law_failed_preparation_discards<E>(
    previous_hash: u64,
    replies: Seq<PrepareReply<E>>,
)
    ensures
        ({
            let run = Preparation::<E>::Template { previous_hash };
            prepared(run, replies) is Failed <==> discarded(run, replies)
        }),
    decreases replies.len(),
{
    if replies.len() > 0 {
        law_failed_preparation_discards(previous_hash, replies.drop_last());
    }
}

/// The new block is constructed on the previous one, with the header that came with the template.
pub proof fn law_block_has_header_of_template<E>(
    previous_hash: u64,
    replies: Seq<PrepareReply<E>>,
    action: PrepareAction,
)
    requires
        prepared(Preparation::<E>::Template { previous_hash }, replies).spec_action() == Some(action),
        action is NewBlock,
    ensures
        exists|i: int|
            0 <= i < replies.len() && (#[trigger] replies[i] matches PrepareReply::Template(
                _,
                header,
            ) && action == (PrepareAction::NewBlock { previous_hash, header })),
    decreases replies.len(),
{
    let run = Preparation::<E>::Template { previous_hash };
    if replies.len() > 0 {
        let rest = replies.drop_last();
        lemma_template_keeps_previous(previous_hash, rest);
        if prepared(run, rest) is Block {
            law_block_has_header_of_template(previous_hash, rest, action);
            let i = choose|i: int|
                0 <= i < rest.len() && (#[trigger] rest[i] matches PrepareReply::Template(
                    _,
                    header,
                ) && action == (PrepareAction::NewBlock { previous_hash, header }));
            assert(replies[i] == rest[i]);
        } else {
            assert(replies[replies.len() - 1] is Template);
        }
    }
}

/// As long as there is no template, the previous block stays as given.
proof fn lemma_template_keeps_previous<E>(previous_hash: u64, replies: Seq<PrepareReply<E>>)
    ensures
        ({
            let run = Preparation::<E>::Template { previous_hash };
            prepared(run, replies) is Template ==> prepared(run, replies) == run
        }),
    decreases replies.len(),
{
    if replies.len() > 0 {
        lemma_template_keeps_previous(previous_hash, replies.drop_last());
    }
}

/// A candidate that is ready has the hash of a block that was constructed, once a template was; and one
/// that has failed has the error of the construction of its template or of its block.
pub proof fn law_preparation_ends_with_what_came_of_it<E>(
    previous_hash: u64,
    replies: Seq<PrepareReply<E>>,
)
    ensures
        match prepared(Preparation::<E>::Template { previous_hash }, replies) {
            Preparation::Template { .. } => true,
            Preparation::Block { id, previous_hash: previous, header } => previous == previous_hash
                && exists|i: int|
                0 <= i < replies.len() && #[trigger] replies[i] == PrepareReply::<E>::Template(
                    id,
                    header,
                ),
            Preparation::Ready { hash } => (exists|i: int|
                0 <= i < replies.len() && #[trigger] replies[i] == PrepareReply::<E>::Block(hash))
                && (exists|i: int|
                0 <= i < replies.len() && (#[trigger] replies[i]) is Template),
            Preparation::Discard { error } => exists|i: int|
                0 <= i < replies.len() && #[trigger] replies[i] == PrepareReply::<E>::Failed(error),
            Preparation::Failed { error } => exists|i: int|
                0 <= i < replies.len() && #[trigger] replies[i] == PrepareReply::<E>::Failed(error),
        },
    decreases replies.len(),
{
    if replies.len() > 0 {
        let rest = replies.drop_last();
        law_preparation_ends_with_what_came_of_it(previous_hash, rest);
        lemma_template_keeps_previous(previous_hash, rest);
        assert(replies[replies.len() - 1] == replies.last());
        assert forall|i: int| 0 <= i < rest.len() implies #[trigger] rest[i] == replies[i] by {}
        match prepared(Preparation::<E>::Template { previous_hash }, rest) {
            Preparation::Template { .. } => {},
            Preparation::Block { id, header, .. } => {
                let i = choose|i: int|
                    0 <= i < rest.len() && #[trigger] rest[i] == PrepareReply::<E>::Template(
                        id,
                        header,
                    );
                assert(replies[i] == rest[i]);
            },
            Preparation::Ready { hash } => {
                let i = choose|i: int|
                    0 <= i < rest.len() && #[trigger] rest[i] == PrepareReply::<E>::Block(hash);
                let j = choose|j: int| 0 <= j < rest.len() && (#[trigger] rest[j]) is Template;
                assert(replies[i] == rest[i] && replies[j] == rest[j]);
            },
            Preparation::Discard { error } => {
                let i = choose|i: int|
                    0 <= i < rest.len() && #[trigger] rest[i] == PrepareReply::<E>::Failed(error);
                assert(replies[i] == rest[i]);
            },
            Preparation::Failed { error } => {
                let i = choose|i: int|
                    0 <= i < rest.len() && #[trigger] rest[i] == PrepareReply::<E>::Failed(error);
                assert(replies[i] == rest[i]);
            },
        }
    }
}

/// Each reply that an action asks for moves a preparation on: from its template to its block, from its
/// block to the end, and from any failure to the discarding of its speculation.
pub proof fn law_preparation_moves_on<E>(run: Preparation<E>, reply: PrepareReply<E>)
    ensures
        match run.spec_action() {
            Some(PrepareAction::ConstructTemplate) => {
                &&& reply matches PrepareReply::Template(_, header) ==> run.after(
                    reply,
                ).spec_action() matches Some(PrepareAction::NewBlock { header: given, .. })
                    && given == header
                &&& reply is Failed ==> run.after(reply).spec_action() == Some(
                    PrepareAction::DiscardSpeculation,
                )
            },
            Some(PrepareAction::NewBlock { .. }) => {
                &&& reply is Block ==> run.after(reply) is Ready
                &&& reply is Failed ==> run.after(reply).spec_action() == Some(
                    PrepareAction::DiscardSpeculation,
                )
            },
            Some(PrepareAction::DiscardSpeculation) => reply is Discarded ==> run.after(
                reply,
            ) is Failed,
            None => run.after(reply) == run,
        },
{
}

/// A preparation goes on as its replies say, and binds the hash of its block to the speculation of its
/// template, so that the entry of that speculation is the entry of the block; it changes no other entry.
pub proof fn law_preparation_binds_its_block<E>(
    vm: &mut VM,
    run: Preparation<E>,
    reply: PrepareReply<E>,
    next: Preparation<E>,
)
    requires
        call_ensures(VM::prepare_next_block::<E>, (vm, run, reply), next),
    ensures
        next == run.after(reply),
        match (run, reply, old(vm).entry()) {
            (
                Preparation::Block { id, .. },
                PrepareReply::Block(hash),
                Some(entry),
            ) => if entry.id == id {
                speculated(final(vm).entry(), hash)
            } else {
                final(vm).entry() == old(vm).entry()
            },
            _ => final(vm).entry() == old(vm).entry(),
        },
{
}

} // verus!
