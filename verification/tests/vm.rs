use ledger_vm::block::{Authority, Block, FinalizeStateArgs, Header, Limits, Metadata, Solution};
use ledger_vm::committee::{
    build_dev_committee, members_with_equal_stake, Bonded, Committee, Generator, Member,
};
use ledger_vm::id_map::IdMap;
use ledger_vm::process::program::{Mapping, PlaintextType, Program, Stack};
use ledger_vm::process::stacks::{Process, ProcessError};
use ledger_vm::vm::add_block::{advances_to_new_version, AddBlock, BlockAction};
use ledger_vm::vm::genesis::{
    beacon_public_balances, bonded_balances, check_genesis, check_nothing_aborted, check_supply,
    genesis_beacon_with_size, genesis_quorum, GenesisError, GenesisPlan, PlanError,
};
use ledger_vm::vm::history::{
    evaluate_view_at_height, finalize_state_for_block, resolve_program_edition_at_height,
    view_stack, HistoryError, ViewStack,
};
use ledger_vm::vm::load::{
    initialize_mappings, load_deployments, locate_deployments, uses_first_process, Deployment,
    DeploymentError,
};
use ledger_vm::vm::sequential_op::{
    add_next_block, perform, serve_sequential_queue, shutdown, FinalizeState, OperationError,
    Ratify, SequentialOperation, SequentialOperationResult, SpeculateArgs,
};
use ledger_vm::vm::speculation::{discard_route, discard_route_on_drop, DiscardRoute};
use ledger_vm::vm::start::StartError;
use ledger_vm::vm::VM;
use rand::{Rng, SeedableRng};
use rand_chacha::ChaChaRng;
use std::cell::RefCell;
use std::collections::HashMap;

const NO_LIMITS: Limits = Limits { spend: None, synthesis: None };

fn stack(id: u64, edition: u16) -> Stack {
    Stack {
        program: Program { id, imports: Vec::new(), structs: Vec::new(), mappings: Vec::new() },
        edition,
    }
}

fn sample_vm() -> VM {
    VM::new(Process::load_web(stack(1, 0)), 100)
}

fn block(hash: u64, height: u32) -> Block {
    let metadata = Metadata {
        network: 1,
        round: 2 * height as u64,
        height,
        cumulative_weight: 7,
        cumulative_proof_target: 8,
        coinbase_target: 9,
        proof_target: 10,
        last_coinbase_target: 11,
        last_coinbase_timestamp: 12,
        timestamp: 13,
    };
    let header = Header {
        previous_state_root: 1,
        transactions_root: 2,
        finalize_root: 3,
        ratifications_root: 4,
        solutions_root: 5,
        subdag_root: 6,
        metadata,
    };
    Block {
        hash,
        previous_hash: 99,
        header,
        authority: Authority::Beacon,
        solutions: vec![Solution { id: 1, address: 2 }],
        transactions: vec![30, 31],
    }
}

#[test]
fn bind_self_constructed_hash_ignores_stale_speculation_id() {
    let mut vm = sample_vm();
    let hash_a = 1;
    let hash_b = 2;

    let id_a = vm.allocate_speculation_id();
    let id_b = vm.allocate_speculation_id();
    vm.store_self_constructed(Vec::new(), IdMap::new(), Default::default(), id_a, false);
    vm.store_self_constructed(Vec::new(), IdMap::new(), Default::default(), id_b, false);

    vm.bind_self_constructed_hash(id_a, hash_a);
    assert!(vm.self_constructed_ops_for(hash_a).is_none());

    vm.bind_self_constructed_hash(id_b, hash_b);
    assert!(vm.self_constructed_ops_for(hash_b).is_some());
    assert!(vm.self_constructed_ops_for(hash_a).is_none());
}

#[test]
fn speculation_ids_differ() {
    let mut vm = sample_vm();
    let id_a = vm.allocate_speculation_id();
    let id_b = vm.allocate_speculation_id();
    assert_ne!(id_a, id_b);
    assert!(vm.contains_program(1));
    assert!(!vm.contains_program(2));
    vm.lock_process().add_stack(stack(2, 0));
    assert!(vm.process().contains_program(2));
}

#[test]
fn kept_batch_is_taken_once_and_only_for_its_block() {
    let mut vm = sample_vm();
    let id = vm.allocate_speculation_id();
    vm.store_self_constructed(vec![5, 6], IdMap::new(), HashMap::new(), id, true);
    assert!(vm.take_kept_matching(10).is_none());
    vm.bind_self_constructed_hash(id, 10);
    assert_eq!(vm.self_constructed_ops_for(10), Some(vec![5, 6]));
    assert!(vm.take_kept_matching(11).is_none());
    let kept = vm.take_kept_matching(10).unwrap();
    assert_eq!(kept.finalize_operations, vec![5, 6]);
    assert!(vm.take_kept_matching(10).is_none());

    // A speculate whose batch was not kept is not taken.
    vm.store_self_constructed(vec![7], IdMap::new(), HashMap::new(), id, false);
    vm.bind_self_constructed_hash(id, 10);
    assert!(vm.take_kept_matching(10).is_none());
    assert_eq!(vm.self_constructed_ops_for(10), Some(vec![7]));
}

#[test]
fn rejected_reasons_are_taken_and_the_rest_stays() {
    let mut vm = sample_vm();
    assert!(vm.take_rejected_reasons().is_empty());
    let id = vm.allocate_speculation_id();
    let reasons = HashMap::from([(4u64, 40u64), (5, 50)]);
    vm.store_self_constructed(vec![1], IdMap::new(), reasons.clone(), id, false);
    assert_eq!(vm.take_rejected_reasons(), reasons);
    assert!(vm.take_rejected_reasons().is_empty());
    vm.bind_self_constructed_hash(id, 3);
    assert_eq!(vm.self_constructed_ops_for(3), Some(vec![1]));
}

#[test]
fn discard_aborts_only_a_kept_batch_in_progress() {
    let mut vm = sample_vm();
    assert!(!vm.discard_kept_speculation_inner(true).abort);
    let id = vm.allocate_speculation_id();
    let reasons = HashMap::from([(4u64, 40u64)]);
    vm.store_self_constructed(vec![], IdMap::new(), reasons.clone(), id, false);
    let discarded = vm.discard_kept_speculation_inner(true);
    assert!(!discarded.abort);
    assert_eq!(discarded.pending_reasons, reasons);
    vm.store_self_constructed(vec![], IdMap::new(), reasons.clone(), id, true);
    assert!(!vm.discard_kept_speculation_inner(false).abort);
    vm.store_self_constructed(vec![], IdMap::new(), reasons, id, true);
    let discarded = vm.discard_kept_speculation_inner(true);
    assert!(discarded.abort);
    assert!(discarded.pending_reasons.is_empty());
    assert!(!vm.discard_kept_speculation_inner(true).abort);
}

#[test]
fn discard_is_routed_to_the_sequential_thread() {
    assert_eq!(discard_route(true), DiscardRoute::Here);
    assert_eq!(discard_route(false), DiscardRoute::QueueAndWait);
    assert_eq!(discard_route_on_drop(true, false), DiscardRoute::Here);
    assert_eq!(discard_route_on_drop(false, true), DiscardRoute::Queue);
    assert_eq!(discard_route_on_drop(false, false), DiscardRoute::Nothing);
}

#[test]
fn finalize_state_holds_the_timestamp_from_its_height_on() {
    let mut sample = block(1, 12);
    let beacon = Limits { spend: Some(3), synthesis: None };
    let expected = FinalizeStateArgs {
        round: 24,
        height: 12,
        timestamp: Some(13),
        cumulative_weight: 7,
        cumulative_proof_target: 8,
        previous_hash: 99,
        limits: beacon,
    };
    assert_eq!(sample.finalize_state_args(Some(12), beacon), expected);
    assert_eq!(sample.finalize_state_args(None, beacon), expected);
    assert_eq!(sample.finalize_state_args(Some(13), beacon).timestamp, None);
    sample.authority = Authority::Quorum { spend_limit: Some(1), synthesis_limit: Some(2) };
    assert_eq!(
        sample.finalize_state_args(None, beacon).limits,
        Limits { spend: Some(1), synthesis: Some(2) }
    );
    let copy = sample.copy();
    assert_eq!(copy.solutions, sample.solutions);
    assert_eq!(copy.transactions, vec![30, 31]);
    assert_eq!(copy.header, sample.header);
}

/// Runs an addition; the actions that are given fail with their error.
fn run(
    vm: &mut VM,
    sample: &Block,
    rocks: bool,
    keys_at: Option<u32>,
    failing: &[(BlockAction, &'static str)],
) -> (Vec<BlockAction>, Result<(), &'static str>) {
    let mut run = AddBlock::new(sample, rocks, NO_LIMITS, None, keys_at, &vec![0, 40, 50]);
    let mut actions = Vec::new();
    while let Some(action) = run.action() {
        actions.push(action);
        let reply = match failing.iter().find(|entry| entry.0 == action) {
            Some(entry) => Err(entry.1),
            None => Ok(()),
        };
        run = vm.add_next_block_inner(run, reply);
    }
    (actions, run.into_result())
}

#[test]
fn block_is_inserted_and_finalized() {
    let mut vm = sample_vm();
    let (actions, result) = run(&mut vm, &block(1, 7), false, Some(8), &[]);
    assert_eq!(
        actions,
        vec![BlockAction::BuildState, BlockAction::InsertBlock, BlockAction::Finalize]
    );
    assert_eq!(result, Ok(()));

    let (actions, result) = run(&mut vm, &block(1, 8), true, Some(8), &[]);
    assert_eq!(
        actions,
        vec![
            BlockAction::BuildState,
            BlockAction::PauseWrites,
            BlockAction::InsertBlock,
            BlockAction::Finalize,
            BlockAction::UpdateCreditsKeys,
            BlockAction::UnpauseWrites { discard: false },
        ]
    );
    assert_eq!(result, Ok(()));
}

#[test]
fn failed_insert_is_discarded() {
    let mut vm = sample_vm();
    let insert = (BlockAction::InsertBlock, "insert");
    let (actions, result) = run(&mut vm, &block(1, 7), true, None, &[insert]);
    assert_eq!(
        actions,
        vec![
            BlockAction::BuildState,
            BlockAction::PauseWrites,
            BlockAction::InsertBlock,
            BlockAction::AbortBlockBatch,
            BlockAction::UnpauseWrites { discard: true },
        ]
    );
    assert_eq!(result, Err("insert"));

    let (actions, result) = run(&mut vm, &block(1, 7), false, None, &[insert]);
    assert_eq!(actions, vec![BlockAction::BuildState, BlockAction::InsertBlock]);
    assert_eq!(result, Err("insert"));

    let unpause = (BlockAction::UnpauseWrites { discard: true }, "unpause");
    let (_, result) = run(&mut vm, &block(1, 7), true, None, &[insert, unpause]);
    assert_eq!(result, Err("unpause"));
}

/// Block and finalize stores whose writes can be paused.
struct SampleStores {
    height: u32,
    queued: Option<u32>,
    paused: bool,
}

impl SampleStores {
    /// Adds a block with the given hash and height.
    fn add(&mut self, vm: &mut VM, hash: u64, height: u32) -> Result<(), &'static str> {
        let sample = block(hash, height);
        let mut run = AddBlock::new(&sample, true, NO_LIMITS, None, None, &vec![0]);
        while let Some(action) = run.action() {
            let reply = match action {
                BlockAction::PauseWrites if self.paused => Err("already paused"),
                BlockAction::PauseWrites => {
                    self.paused = true;
                    Ok(())
                }
                BlockAction::InsertBlock if height != self.height + 1 => Err("incorrect height"),
                BlockAction::InsertBlock => {
                    self.queued = Some(height);
                    Ok(())
                }
                BlockAction::AbortBlockBatch => {
                    self.queued = None;
                    Ok(())
                }
                BlockAction::UnpauseWrites { discard } => {
                    self.paused = false;
                    match self.queued.take() {
                        Some(height) if !discard => self.height = height,
                        _ => {}
                    }
                    Ok(())
                }
                _ => Ok(()),
            };
            run = vm.add_next_block_inner(run, reply);
        }
        run.into_result()
    }
}

#[test]
fn test_atomic_unpause_on_error() {
    // The stores hold the genesis block.
    let mut vm = sample_vm();
    let mut stores = SampleStores { height: 0, queued: None, paused: false };
    // Try to insert the 2nd block first, which fails due to height.
    assert!(stores.add(&mut vm, 12, 2).is_err());
    assert!(!stores.paused && stores.queued.is_none());
    // It should still be possible to insert the 1st block afterwards.
    stores.add(&mut vm, 11, 1).unwrap();
    stores.add(&mut vm, 12, 2).unwrap();
    assert_eq!(stores.height, 2);
}

#[test]
fn failed_finalize_is_rolled_back() {
    let mut vm = sample_vm();
    let finalize = (BlockAction::Finalize, "finalize");
    let (actions, result) = run(&mut vm, &block(1, 7), true, None, &[finalize]);
    assert_eq!(
        actions,
        vec![
            BlockAction::BuildState,
            BlockAction::PauseWrites,
            BlockAction::InsertBlock,
            BlockAction::Finalize,
            BlockAction::AbortBlockBatch,
            BlockAction::AbortFinalizeBatch,
            BlockAction::UnpauseWrites { discard: true },
            BlockAction::RemoveLastFromTree,
        ]
    );
    assert_eq!(result, Err("finalize"));

    let (actions, result) = run(&mut vm, &block(1, 7), false, None, &[finalize]);
    assert_eq!(
        actions,
        vec![
            BlockAction::BuildState,
            BlockAction::InsertBlock,
            BlockAction::Finalize,
            BlockAction::RemoveLastBlock,
        ]
    );
    assert_eq!(result, Err("finalize"));

    // A failure to roll back takes the place of the error.
    let remove = (BlockAction::RemoveLastBlock, "remove");
    let (_, result) = run(&mut vm, &block(1, 7), false, None, &[finalize, remove]);
    assert_eq!(result, Err("remove"));
    // What cannot fail does not.
    let abort = (BlockAction::AbortBlockBatch, "abort");
    let (_, result) = run(&mut vm, &block(1, 7), true, None, &[finalize, abort]);
    assert_eq!(result, Err("finalize"));
}

/// A VM whose latest speculate kept the batch of the block with hash 10, and parked program 2.
fn vm_with_kept_batch() -> VM {
    let mut vm = sample_vm();
    vm.lock_process().insert_staged_stack(stack(2, 0));
    let parked = vm.lock_process().take_staged_stacks();
    let id = vm.allocate_speculation_id();
    vm.store_self_constructed(vec![1], parked, HashMap::from([(6, 60)]), id, true);
    vm.bind_self_constructed_hash(id, 10);
    vm
}

#[test]
fn kept_batch_is_finished_and_brings_its_stacks() {
    let mut vm = vm_with_kept_batch();
    assert!(!vm.contains_program(2));
    let (actions, result) = run(&mut vm, &block(10, 7), true, None, &[]);
    assert_eq!(
        actions,
        vec![BlockAction::BuildState, BlockAction::InsertBlock, BlockAction::FinishKept]
    );
    assert_eq!(result, Ok(()));
    assert!(vm.contains_program(2));
    assert!(vm.self_constructed_ops_for(10).is_none());
}

#[test]
fn kept_batch_of_another_block_is_discarded() {
    let mut vm = vm_with_kept_batch();
    let (actions, result) = run(&mut vm, &block(11, 7), true, None, &[]);
    assert_eq!(
        actions,
        vec![
            BlockAction::BuildState,
            BlockAction::AbortFinalizeIfOpen,
            BlockAction::PauseWrites,
            BlockAction::InsertBlock,
            BlockAction::Finalize,
            BlockAction::UnpauseWrites { discard: false },
        ]
    );
    assert_eq!(result, Ok(()));
    assert!(!vm.contains_program(2));
    assert!(vm.take_kept_matching(10).is_none());
}

#[test]
fn kept_batch_is_aborted_when_the_block_fails() {
    let insert = (BlockAction::InsertBlock, "insert");
    let (actions, result) = run(&mut vm_with_kept_batch(), &block(10, 7), true, None, &[insert]);
    assert_eq!(
        actions,
        vec![
            BlockAction::BuildState,
            BlockAction::InsertBlock,
            BlockAction::AbortFinalizeIfOpen,
        ]
    );
    assert_eq!(result, Err("insert"));

    let finish = (BlockAction::FinishKept, "finish");
    let mut vm = vm_with_kept_batch();
    let (actions, result) = run(&mut vm, &block(10, 7), true, None, &[finish]);
    assert_eq!(
        actions,
        vec![
            BlockAction::BuildState,
            BlockAction::InsertBlock,
            BlockAction::FinishKept,
            BlockAction::AbortBlockBatch,
            BlockAction::AbortFinalizeBatch,
            BlockAction::RemoveLastFromTree,
            BlockAction::AbortFinalizeIfOpen,
        ]
    );
    assert_eq!(result, Err("finish"));
    assert!(!vm.contains_program(2));

    let (actions, _) = run(&mut vm_with_kept_batch(), &block(10, 7), false, None, &[finish]);
    assert_eq!(
        actions,
        vec![
            BlockAction::BuildState,
            BlockAction::InsertBlock,
            BlockAction::FinishKept,
            BlockAction::AbortFinalizeIfOpen,
            BlockAction::RemoveLastBlock,
            BlockAction::AbortFinalizeIfOpen,
        ]
    );
}

#[test]
fn failed_state_leaves_the_kept_batch() {
    let mut vm = vm_with_kept_batch();
    let state = (BlockAction::BuildState, "state");
    let (actions, result) = run(&mut vm, &block(10, 7), true, None, &[state]);
    assert_eq!(actions, vec![BlockAction::BuildState]);
    assert_eq!(result, Err("state"));
    assert!(vm.take_kept_matching(10).is_some());
}

#[test]
fn rejected_reasons_reach_finalize() {
    let mut vm = sample_vm();
    let id = vm.allocate_speculation_id();
    vm.store_self_constructed(vec![], IdMap::new(), HashMap::from([(6, 60)]), id, false);
    let sample = block(10, 7);
    let addition: AddBlock<()> =
        AddBlock::new(&sample, false, NO_LIMITS, Some(7), None, &Vec::new());
    assert_eq!(addition.state_args(), sample.finalize_state_args(Some(7), NO_LIMITS));
    assert!(addition.rejected_reasons().is_empty());
    let addition = vm.add_next_block_inner(addition, Ok(()));
    assert_eq!(addition.rejected_reasons().get(&6), Some(&60));
}

#[test]
fn new_consensus_version_clears_the_partial_verification_cache() {
    let mut vm = sample_vm();
    assert_eq!(vm.partially_verified_transactions().cap().get(), 100);
    vm.partially_verified_transactions().put(1, 2);
    run(&mut vm, &block(1, 41), false, Some(1), &[]).1.unwrap();
    assert_eq!(vm.partially_verified_transactions().len(), 1);
    let finalize = (BlockAction::Finalize, "finalize");
    assert!(run(&mut vm, &block(1, 40), false, Some(1), &[finalize]).1.is_err());
    assert_eq!(vm.partially_verified_transactions().len(), 1);
    run(&mut vm, &block(1, 40), false, Some(1), &[]).1.unwrap();
    assert_eq!(vm.partially_verified_transactions().len(), 0);
    assert_eq!(vm.partially_verified_transactions().cap().get(), 100);

    assert!(advances_to_new_version(50, &vec![0, 40, 50]));
    assert!(!advances_to_new_version(45, &vec![0, 40, 50]));
    assert!(!advances_to_new_version(51, &vec![0, 40, 50]));
}

#[test]
fn operations_are_answered_in_kind() {
    let calls = RefCell::new(Vec::new());
    let answer = |operation: SequentialOperation| {
        perform(
            operation,
            &|block: Block| -> Result<(), u8> {
                calls.borrow_mut().push("add");
                if block.hash == 1 { Ok(()) } else { Err(4) }
            },
            &|args: SpeculateArgs| -> Result<i64, u8> { Ok(args.time_since_last_block) },
            &|| calls.borrow_mut().push("discard"),
        )
    };
    let good = SequentialOperation::AddNextBlock(block(1, 1));
    assert_eq!(good.label(), "add_next_block");
    assert!(add_next_block(Some(answer(good))).is_ok());
    let bad = answer(SequentialOperation::AddNextBlock(block(2, 1)));
    assert!(matches!(add_next_block(Some(bad)), Err(OperationError::Failed(4))));
    let args = SpeculateArgs {
        state: FinalizeState::Block(block(1, 1).finalize_state_args(None, NO_LIMITS)),
        time_since_last_block: -5,
        coinbase_reward: None,
        ratifications: vec![],
        solutions: vec![],
        transactions: vec![],
        keep: None,
    };
    let speculate = SequentialOperation::AtomicSpeculate(args);
    assert_eq!(speculate.label(), "atomic_speculate");
    let speculated = answer(speculate);
    assert!(matches!(speculated, SequentialOperationResult::AtomicSpeculate(Ok(-5))));
    assert!(matches!(add_next_block(Some(speculated)), Err(OperationError::ShuttingDown)));
    let discard = SequentialOperation::DiscardKeptSpeculation;
    assert_eq!(discard.label(), "discard_kept_speculation");
    assert!(matches!(answer(discard), SequentialOperationResult::DiscardKeptSpeculation));
    assert!(matches!(add_next_block::<i64, u8>(None), Err(OperationError::ShuttingDown)));
    assert_eq!(*calls.borrow(), vec!["add", "add", "discard"]);
}

#[test]
fn queue_is_served_in_order() {
    let queue = RefCell::new(vec![
        (SequentialOperation::AddNextBlock(block(1, 1)), 'a'),
        (SequentialOperation::AddNextBlock(block(2, 1)), 'b'),
        (SequentialOperation::DiscardKeptSpeculation, 'c'),
        (SequentialOperation::AddNextBlock(block(1, 2)), 'd'),
    ]);
    let events = RefCell::new(Vec::new());
    let serve = |limit: u64| {
        serve_sequential_queue(
            limit,
            |_| {
                let mut queue = queue.borrow_mut();
                if queue.is_empty() { None } else { Some(queue.remove(0)) }
            },
            |block: Block| -> Result<(), u8> {
                events.borrow_mut().push(format!("add {}", block.hash));
                if block.hash == 2 { Err(4) } else { Ok(()) }
            },
            |args: SpeculateArgs| -> Result<i64, u8> { Ok(args.time_since_last_block) },
            || events.borrow_mut().push(String::from("discard")),
            |to: char, answer| {
                let answer = match answer {
                    SequentialOperationResult::AddNextBlock(Ok(())) => "added",
                    SequentialOperationResult::AddNextBlock(Err(_)) => "failed",
                    SequentialOperationResult::AtomicSpeculate(_) => "speculated",
                    SequentialOperationResult::DiscardKeptSpeculation => "discarded",
                };
                events.borrow_mut().push(format!("{to} {answer}"));
            },
        )
    };
    // A failed operation is answered, and does not stop the queue.
    assert_eq!(serve(3), (3, false));
    assert_eq!(
        *events.borrow(),
        vec!["add 1", "a added", "add 2", "b failed", "discard", "c discarded"]
    );
    assert_eq!(serve(u64::MAX), (1, true));
    assert_eq!(events.borrow()[6..], ["add 1", "d added"]);
    assert_eq!(serve(5), (0, true));
    assert_eq!(serve(0), (0, false));
}

#[test]
fn only_the_last_reference_shuts_down() {
    assert!(!shutdown(2, true).discard && !shutdown(2, true).close_and_join);
    assert!(shutdown(1, true).discard && shutdown(1, true).close_and_join);
    assert!(shutdown(1, false).discard && !shutdown(1, false).close_and_join);
}

#[test]
fn genesis_supply_must_match() {
    let bonded = |amounts: &[u64]| -> Vec<Bonded> {
        amounts
            .iter()
            .map(|amount| Bonded { staker: 1, validator: 1, withdrawal: 1, amount: *amount })
            .collect()
    };
    let balances = |amounts: &[u64]| -> IdMap {
        let mut map = IdMap::new();
        for (address, amount) in amounts.iter().enumerate() {
            map.insert(address as u64, *amount);
        }
        map
    };
    assert_eq!(check_supply(&bonded(&[10, 20]), &balances(&[30, 40]), 100), Ok(()));
    assert_eq!(
        check_supply(&bonded(&[10, 20]), &balances(&[30, 41]), 100),
        Err(GenesisError::WrongTotalSupply { found: 101, expected: 100 })
    );
    assert_eq!(
        check_supply(&bonded(&[u64::MAX, 1]), &balances(&[u64::MAX, 1]), 100),
        Err(GenesisError::InvalidBondedAmount)
    );
    assert_eq!(
        check_supply(&bonded(&[1]), &balances(&[u64::MAX, 1]), 100),
        Err(GenesisError::InvalidAccountSupply)
    );
    assert_eq!(
        check_supply(&bonded(&[1]), &balances(&[u64::MAX]), 100),
        Err(GenesisError::InvalidTotalSupply)
    );

    let quorum = |bonded: Vec<Bonded>, balances: IdMap, caller: Result<u64, u8>| {
        genesis_quorum(genesis_committee(), balances, bonded, 100, 4, || caller)
    };
    let plan = quorum(bonded(&[10, 20]), balances(&[30, 40]), Ok(1)).ok().unwrap();
    assert_eq!((plan.caller, plan.amount, plan.num_transactions), (1, 5, 4));
    assert_eq!(plan.committee.members, genesis_committee().members);
    assert_eq!(plan.public_balances.get(0), Some(30));
    assert_eq!(plan.bonded_balances, bonded(&[10, 20]));
    assert!(matches!(
        quorum(bonded(&[30]), balances(&[70]), Ok(9)),
        Err(PlanError::Genesis(GenesisError::MissingBalance { address: 9 }))
    ));
    assert!(matches!(
        quorum(bonded(&[30]), balances(&[70]), Err(3)),
        Err(PlanError::Other(3))
    ));
    assert!(matches!(
        quorum(bonded(&[30]), balances(&[71]), Err(3)),
        Err(PlanError::Genesis(GenesisError::WrongTotalSupply { found: 101, expected: 100 }))
    ));
}

fn genesis_committee() -> Committee {
    let member = Member { stake: 30, is_open: true, commission: 0 };
    Committee { starting_round: 0, members: vec![(1, member)] }
}

#[test]
fn genesis_block_ratifies_the_committee_and_the_balances() {
    let plan = || -> GenesisPlan {
        let mut balances = IdMap::new();
        balances.insert(1, 70);
        let bonded = vec![Bonded { staker: 1, validator: 1, withdrawal: 1, amount: 30 }];
        genesis_quorum(genesis_committee(), balances, bonded, 100, 2, || -> Result<u64, u8> {
            Ok(1)
        })
        .ok()
        .unwrap()
    };
    let executed = RefCell::new(Vec::new());
    // Each stage fails on demand.
    let make = |failing: &str| {
        executed.borrow_mut().clear();
        plan().make_block(
            |to, amount| {
                if failing == "execute" {
                    return Err(1u8);
                }
                executed.borrow_mut().push((to, amount));
                Ok(40 + executed.borrow().len() as u64)
            },
            |args: SpeculateArgs| {
                if failing == "speculate" {
                    return Err(2);
                }
                assert_eq!(args.state, FinalizeState::Genesis);
                assert_eq!((args.time_since_last_block, args.coinbase_reward), (0, None));
                assert_eq!(args.transactions, vec![41, 42]);
                assert!(args.solutions.is_empty() && args.keep.is_none());
                assert_eq!(args.ratifications.len(), 1);
                match &args.ratifications[0] {
                    Ratify::Genesis { committee, public_balances, bonded_balances } => {
                        assert_eq!(committee.members, genesis_committee().members);
                        assert_eq!(public_balances.get(1), Some(70));
                        assert_eq!(bonded_balances[0].amount, 30);
                    }
                    Ratify::Other(_) => panic!("expected the ratification of a genesis block"),
                }
                Ok("speculation")
            },
            |_| if failing == "abort" { vec![41] } else { vec![] },
            |speculation| {
                assert_eq!(*speculation, "speculation");
                if failing == "block" { Err(3) } else { Ok(block(6, 0)) }
            },
            |made: &Block| {
                assert_eq!(made.hash, 6);
                match failing {
                    "check" => Err(4),
                    other => Ok(other != "genesis"),
                }
            },
        )
    };
    assert_eq!(make("nothing").ok().unwrap().hash, 6);
    assert_eq!(*executed.borrow(), vec![(1, 17), (1, 17)]);
    assert!(matches!(make("execute"), Err(PlanError::Other(1))));
    assert!(matches!(make("speculate"), Err(PlanError::Other(2))));
    assert!(matches!(make("block"), Err(PlanError::Other(3))));
    assert!(matches!(make("check"), Err(PlanError::Other(4))));
    assert!(matches!(
        make("abort"),
        Err(PlanError::Genesis(GenesisError::AbortedTransactions))
    ));
    assert!(matches!(make("genesis"), Err(PlanError::Genesis(GenesisError::NotGenesis))));
}

#[test]
fn beacon_genesis_shares_the_supply_out() {
    let same = |members: Vec<(u64, Member)>| -> Result<Committee, u8> {
        Ok(Committee { starting_round: 0, members })
    };
    let plan = genesis_beacon_with_size(&vec![4, 5, 6, 7], 100, 10, same).ok().unwrap();
    assert_eq!(plan.committee.members.len(), 4);
    assert_eq!(plan.bonded_balances.len(), 4);
    assert_eq!(
        plan.bonded_balances[1],
        Bonded { staker: 5, validator: 5, withdrawal: 5, amount: 10 }
    );
    assert_eq!(plan.public_balances.get(7), Some(15));
    assert_eq!(check_supply(&plan.bonded_balances, &plan.public_balances, 100), Ok(()));
    // What does not divide evenly is missing.
    let plan = genesis_beacon_with_size(&vec![4, 5, 6, 7], 103, 10, same).ok().unwrap();
    assert_eq!(
        check_supply(&plan.bonded_balances, &plan.public_balances, 103),
        Err(GenesisError::WrongTotalSupply { found: 100, expected: 103 })
    );
    assert!(matches!(
        genesis_beacon_with_size(&vec![4, 5, 6], 100, 10, same),
        Err(PlanError::Genesis(GenesisError::TooFewValidators))
    ));
    assert!(matches!(
        genesis_beacon_with_size(&vec![4, 5, 6, 7], 39, 10, same),
        Err(PlanError::Genesis(GenesisError::NotEnoughSupply))
    ));
    let refuse = |_: Vec<(u64, Member)>| -> Result<Committee, u8> { Err(2) };
    assert!(matches!(
        genesis_beacon_with_size(&vec![4, 5, 6, 7], 39, 10, refuse),
        Err(PlanError::Other(2))
    ));
    assert_eq!(beacon_public_balances(&vec![1, 2], 9, 2).ok().unwrap().get(1), Some(2));
    assert_eq!(check_nothing_aborted(&vec![]), Ok(()));
    assert_eq!(check_nothing_aborted(&vec![1]), Err(GenesisError::AbortedTransactions));
    assert_eq!(check_genesis(true), Ok(()));
    assert_eq!(check_genesis(false), Err(GenesisError::NotGenesis));
}

#[test]
fn committee_members_have_equal_stake() {
    let member = Member { stake: 8, is_open: true, commission: 0 };
    assert_eq!(members_with_equal_stake(&vec![3, 1, 3], 8), vec![(3, member), (1, member)]);
    let committee = dev_committee(4, 1, 0).unwrap();
    assert_eq!(committee.starting_round, 77);
    assert_eq!(committee.members.len(), 4);
    assert!(committee.members.iter().all(|(_, given)| *given == member));
    assert_eq!(bonded_balances(&committee.copy().members).len(), 4);
}

/// Builds a dev committee whose keys are the numbers that the generator draws; the address of a key is
/// its successor. The given step fails.
fn dev_committee(dev_num_validators: u16, seed: u64, failing: u8) -> Result<Committee, u8> {
    build_dev_committee(
        77,
        dev_num_validators,
        seed,
        8,
        |generator: Generator| {
            let mut rng = ChaChaRng::from_seed(generator.seed);
            rng.set_word_pos(generator.word_pos);
            let key = rng.next_u64();
            let next = Generator { word_pos: rng.get_word_pos(), ..generator };
            if failing == 1 { Err(1) } else { Ok((key, next)) }
        },
        |key: u64| if failing == 2 { Err(2) } else { Ok(key.wrapping_add(1)) },
        |committee: &Committee| if committee.members.len() < 2 { Err(3) } else { Ok(()) },
    )
}

#[test]
fn dev_committee_is_determined_by_its_seed() {
    let addresses = |committee: &Committee| -> Vec<u64> {
        committee.members.iter().map(|(address, _)| *address).collect()
    };
    let committee = dev_committee(3, 5, 0).unwrap();
    let mut generator = ChaChaRng::seed_from_u64(5);
    let expected: Vec<u64> = (0..3).map(|_| generator.next_u64().wrapping_add(1)).collect();
    assert_eq!(addresses(&committee), expected);
    assert_eq!(addresses(&dev_committee(3, 5, 0).unwrap()), expected);
    assert_ne!(addresses(&dev_committee(3, 6, 0).unwrap()), expected);
    assert_eq!(dev_committee(3, 5, 1).err(), Some(1));
    assert_eq!(dev_committee(3, 5, 2).err(), Some(2));
    assert_eq!(dev_committee(1, 5, 0).err(), Some(3));
}

#[test]
fn deployments_are_ordered_by_their_place() {
    // The hash of a transaction is ten times its ID; the height of a block is given by its hash.
    let find_hash = |transaction: u64| -> Result<Option<u64>, u8> {
        match transaction {
            8 => Ok(None),
            9 => Err(1),
            _ => Ok(Some(transaction % 4)),
        }
    };
    let get_height = |hash: u64| -> Result<Option<u32>, u8> {
        match hash {
            0 => Ok(None),
            _ => Ok(Some(100 - hash as u32)),
        }
    };
    let get_transactions = |hash: u64| -> Result<Option<Vec<u64>>, u8> {
        match hash {
            1 => Ok(Some(vec![5, 13, 1])),
            2 => Ok(Some(vec![2])),
            _ => Ok(None),
        }
    };
    let locate = |ids: Vec<u64>| locate_deployments(&ids, find_hash, get_height, get_transactions);
    let ordered = locate(vec![1, 5, 2, 13]).ok().unwrap();
    assert_eq!(
        ordered,
        vec![
            Deployment { transaction: 2, height: 98, index: 0 },
            Deployment { transaction: 5, height: 99, index: 0 },
            Deployment { transaction: 13, height: 99, index: 1 },
            Deployment { transaction: 1, height: 99, index: 2 },
        ]
    );
    assert!(matches!(locate(vec![2, 8]), Err(DeploymentError::NotFound { transaction: 8 })));
    assert!(matches!(locate(vec![2, 9]), Err(DeploymentError::Store(1))));
    assert!(matches!(locate(vec![4]), Err(DeploymentError::NoHeight { transaction: 4 })));
    assert!(matches!(locate(vec![3]), Err(DeploymentError::NoTransactions { hash: 3 })));
    assert!(matches!(locate(vec![6]), Err(DeploymentError::NotInBlock { transaction: 6 })));
}

#[test]
fn deployments_are_loaded_in_order() {
    let deployments: Vec<Deployment> =
        (0..300).map(|n| Deployment { transaction: n + 10, height: 1, index: 0 }).collect();
    let calls = RefCell::new(Vec::new());
    let load = |failing: u64| {
        calls.borrow_mut().clear();
        load_deployments(
            Process::load_web(stack(1, 0)),
            &deployments,
            |transaction| {
                calls.borrow_mut().push(("get", transaction));
                match transaction == failing {
                    true if failing == 20 => Ok(None),
                    true if failing == 21 => Err(1u8),
                    _ => Ok(Some(transaction)),
                }
            },
            |process: &Process, deployment: &u64| {
                calls.borrow_mut().push(("load", *deployment));
                // Those before it are there.
                assert!(*deployment == 10 || process.contains_program(*deployment - 1));
                if *deployment == failing {
                    return Err(2);
                }
                Ok(stack(*deployment, 0))
            },
        )
    };
    let process = load(0).ok().unwrap();
    let expected: Vec<u64> = std::iter::once(1).chain(10..310).collect();
    assert_eq!(process.program_ids(), expected);
    // The first chunk is read, then loaded, before the second one is read.
    assert_eq!(calls.borrow()[255], ("get", 265));
    assert_eq!(calls.borrow()[256], ("load", 10));
    assert_eq!(calls.borrow()[511], ("load", 265));
    assert_eq!(calls.borrow()[512], ("get", 266));
    assert_eq!(calls.borrow().len(), 600);
    assert!(matches!(load(20), Err(DeploymentError::NotFound { transaction: 20 })));
    assert!(matches!(load(21), Err(DeploymentError::Store(1))));
    assert!(matches!(load(22), Err(DeploymentError::Store(2))));
    assert!(uses_first_process(1) && uses_first_process(7));
    assert!(!uses_first_process(0) && !uses_first_process(8));
}

/// Starts a VM whose stores hold deployments: a transaction deploys the program that is given by its ID
/// modulo 100, with the edition that is given by its hundreds. The given step fails.
fn start(version: u16, ids: Vec<u64>, failing: &str) -> (Vec<String>, Result<VM, StartError<u8>>) {
    let calls = RefCell::new(Vec::new());
    let note = |call: String| calls.borrow_mut().push(call);
    let mut credits = stack(1, 0);
    let literal = || PlaintextType::Literal;
    credits.program.mappings = vec![
        Mapping { name: 70, key: literal(), value: literal() },
        Mapping { name: 71, key: literal(), value: literal() },
    ];
    let result = VM::from(
        credits,
        &vec![80, 81],
        82,
        &ids,
        100,
        |name| Ok(name == 70),
        |name| {
            note(format!("initialize {name}"));
            if failing == "mapping" { Err(1) } else { Ok(()) }
        },
        || if failing == "version" { Err(2) } else { Ok(version) },
        |name| {
            note(format!("first {name}"));
            Ok(())
        },
        |name| {
            note(format!("latest {name}"));
            if failing == "key" { Err(3) } else { Ok(()) }
        },
        |transaction| if transaction == 99 { Ok(None) } else { Ok(Some(transaction)) },
        // The later editions are in the later blocks.
        |hash| Ok(Some(hash as u32 / 100)),
        |hash| Ok(Some(vec![hash])),
        |transaction| if failing == "read" { Ok(None) } else { Ok(Some(transaction)) },
        |_: &Process, deployment: &u64| {
            if failing == "load" {
                return Err(4);
            }
            Ok(stack(*deployment % 100, (*deployment / 100) as u16))
        },
    );
    (calls.into_inner(), result)
}

#[test]
fn vm_starts_with_the_latest_deployment_of_each_program() {
    let (calls, result) = start(8, vec![305, 106, 105, 205], "nothing");
    assert_eq!(calls, vec!["initialize 71", "latest 80", "latest 81", "latest 82"]);
    let mut vm = result.ok().unwrap();
    assert!(vm.contains_program(1) && vm.contains_program(5) && vm.contains_program(6));
    assert!(!vm.contains_program(7));
    assert_eq!(vm.process().get_latest_edition_for_program(5), 3);
    assert_eq!(vm.process().get_latest_edition_for_program(6), 1);
    assert_eq!(vm.partially_verified_transactions().cap().get(), 100);
    assert_eq!(vm.partially_verified_transactions().len(), 0);
    let (calls, result) = start(7, vec![], "nothing");
    assert_eq!(calls, vec!["initialize 71", "first 80", "first 81"]);
    assert_eq!(result.ok().unwrap().process().program_ids(), vec![1]);
}

#[test]
fn test_load_deployments_with_imports() {
    // The second program imports the first one; the third and the fourth import the second one, and
    // the fourth the first one too. The last two are deployed in the same block.
    let imports = |id: u64| match id {
        12 => vec![11],
        13 => vec![12],
        14 => vec![12, 11],
        _ => vec![],
    };
    let blocks: Vec<Vec<u64>> = vec![vec![], vec![11], vec![12], vec![13, 14]];
    let result = VM::from(
        stack(1, 0),
        &vec![],
        2,
        // The store returns them in any order.
        &vec![14, 12, 13, 11],
        100,
        |_| Ok(true),
        |_| Ok(()),
        || Ok(8),
        |_| Ok(()),
        |_| Ok(()),
        |transaction| {
            Ok(blocks.iter().position(|ids| ids.contains(&transaction)).map(|at| at as u64))
        },
        |hash| Ok(Some(hash as u32)),
        |hash| Ok(Some(blocks[hash as usize].clone())),
        |transaction| Ok(Some(transaction)),
        |process: &Process, deployment: &u64| -> Result<Stack, u64> {
            let mut stack = stack(*deployment, 0);
            stack.program.imports = imports(*deployment);
            match stack.program.imports.iter().find(|id| !process.contains_program(**id)) {
                Some(missing) => Err(*missing),
                None => Ok(stack),
            }
        },
    );
    let vm = result.ok().unwrap();
    assert_eq!(vm.process().program_ids(), vec![1, 11, 12, 13, 14]);
}

#[test]
fn vm_does_not_start_without_its_stores() {
    assert!(matches!(start(8, vec![], "mapping").1, Err(StartError::Mappings(1))));
    assert!(matches!(start(8, vec![], "version").1, Err(StartError::ConsensusVersion(2))));
    assert!(matches!(start(8, vec![], "key").1, Err(StartError::Keys(3))));
    // No block holds the deployment.
    assert!(matches!(
        start(8, vec![105, 99], "nothing").1,
        Err(StartError::Locate(DeploymentError::NotFound { transaction: 99 }))
    ));
    assert!(matches!(
        start(8, vec![105], "read").1,
        Err(StartError::Load(DeploymentError::NotFound { transaction: 105 }))
    ));
    assert!(matches!(
        start(8, vec![105], "load").1,
        Err(StartError::Load(DeploymentError::Store(4)))
    ));
}

#[test]
fn missing_mappings_are_initialized() {
    let initialized = RefCell::new(Vec::new());
    let contains = |name: u64| -> Result<bool, u8> {
        if name == 99 { Err(1) } else { Ok(name == 2) }
    };
    let initialize = |name: u64| -> Result<(), u8> {
        initialized.borrow_mut().push(name);
        if name == 50 { Err(2) } else { Ok(()) }
    };
    assert_eq!(initialize_mappings(&vec![1, 2, 3], contains, initialize), Ok(()));
    assert_eq!(*initialized.borrow(), vec![1, 3]);
    assert_eq!(initialize_mappings(&vec![99], contains, initialize), Err(1));
    assert_eq!(initialize_mappings(&vec![50, 99], contains, initialize), Err(2));
}

#[test]
fn edition_at_height_is_the_newest_deployed_one() {
    // Edition 0 was deployed at height 10, edition 1 is not known, edition 2 at 30, edition 3 at 50.
    let find_transaction = |edition: u16| -> Result<Option<u64>, u8> {
        match edition {
            1 => Ok(None),
            7 => Err(5),
            _ => Ok(Some(edition as u64)),
        }
    };
    let find_hash = |transaction: u64| -> Result<Option<u64>, u8> {
        if transaction == 4 { Ok(None) } else { Ok(Some(transaction)) }
    };
    let get_height = |hash: u64| -> Result<Option<u32>, u8> {
        match hash {
            0 => Ok(Some(10)),
            2 => Ok(Some(30)),
            3 => Ok(Some(50)),
            _ => Ok(None),
        }
    };
    let resolve = |latest: Option<u16>, height: u32| {
        resolve_program_edition_at_height(
            6,
            height,
            latest,
            find_transaction,
            find_hash,
            get_height,
        )
    };
    assert_eq!(resolve(Some(3), 50).ok(), Some(3));
    assert_eq!(resolve(Some(3), 49).ok(), Some(2));
    assert_eq!(resolve(Some(5), 29).ok(), Some(0));
    assert!(matches!(
        resolve(Some(3), 9),
        Err(HistoryError::NotYetDeployed { program_id: 6, height: 9 })
    ));
    assert!(matches!(resolve(None, 9), Err(HistoryError::NotDeployed { program_id: 6 })));
    assert!(matches!(resolve(Some(7), 9), Err(HistoryError::Other(5))));
}

#[test]
fn historic_state_is_that_of_the_block() {
    let get_hash = |height: u32| -> Result<Option<u64>, u8> {
        match height {
            3 => Ok(None),
            4 => Err(1),
            _ => Ok(Some(height as u64)),
        }
    };
    let get_block = |hash: u64| -> Result<Option<Block>, u8> {
        match hash {
            5 => Ok(None),
            6 => Err(2),
            _ => Ok(Some(block(hash, hash as u32))),
        }
    };
    let state = |height: u32| {
        finalize_state_for_block(height, get_hash, get_block, Some(2), NO_LIMITS)
    };
    assert_eq!(state(2).ok(), Some(block(2, 2).finalize_state_args(Some(2), NO_LIMITS)));
    assert!(matches!(state(3), Err(HistoryError::NoBlock { height: 3 })));
    assert!(matches!(state(4), Err(HistoryError::Other(1))));
    assert!(matches!(state(5), Err(HistoryError::BlockNotLoaded { height: 5 })));
    assert!(matches!(state(6), Err(HistoryError::Other(2))));
}

#[test]
fn view_uses_the_loaded_stack_of_the_edition() {
    let mut process = Process::load_web(stack(1, 0));
    process.add_stack(stack(2, 5));
    let get_program = |id: u64, edition: u16| -> Result<Option<Program>, u8> {
        match edition {
            1 => Ok(None),
            2 => Err(2),
            _ => Ok(Some(stack(id, edition).program)),
        }
    };
    let new_raw = |_: &Process, program: &Program, edition: u16| -> Result<Stack, u8> {
        if edition == 3 { Err(3) } else { Ok(stack(program.id, edition)) }
    };
    let check = |_: &Process, stack: &Stack| -> Result<(), u8> {
        if stack.program_edition() == 4 { Err(4) } else { Ok(()) }
    };
    let view = |id: u64, edition: u16| {
        match view_stack(&process, id, edition, get_program, new_raw, check) {
            Ok(ViewStack::Loaded(stack)) => Ok((true, stack.program_edition())),
            Ok(ViewStack::Historic(stack)) => Ok((false, stack.program_edition())),
            Err(error) => Err(error),
        }
    };
    assert_eq!(view(2, 5).ok(), Some((true, 5)));
    assert_eq!(view(2, 0).ok(), Some((false, 0)));
    assert!(matches!(
        view(2, 1),
        Err(HistoryError::ProgramNotFound { program_id: 2, edition: 1 })
    ));
    assert!(matches!(view(2, 2), Err(HistoryError::Other(2))));
    assert!(matches!(view(2, 3), Err(HistoryError::Other(3))));
    assert!(matches!(view(2, 4), Err(HistoryError::Other(4))));
    assert!(matches!(
        view(9, 0),
        Err(HistoryError::Process(ProcessError::ProgramDoesNotExist { program_id: 9 }))
    ));
}

#[test]
fn view_is_evaluated_with_the_state_and_edition_of_its_height() {
    let mut process = Process::load_web(stack(1, 0));
    process.add_stack(stack(2, 1));
    let evaluate = |height: u32| -> Result<(u64, u16), HistoryError<u8>> {
        evaluate_view_at_height(
            &process,
            2,
            height,
            None,
            NO_LIMITS,
            |height| if height == 90 { Ok(None) } else { Ok(Some(height as u64)) },
            |hash| Ok(Some(block(hash, hash as u32))),
            |_| if height == 91 { Err(1) } else { Ok(Some(1)) },
            |edition| Ok(Some(edition as u64)),
            |transaction| Ok(Some(transaction)),
            // Edition 0 was deployed at height 10, edition 1 at height 20.
            |hash| Ok(Some(10 * hash as u32 + 10)),
            |id, edition| Ok(Some(stack(id, edition).program)),
            |_: &Process, program: &Program, edition| {
                if height == 12 { Err(2) } else { Ok(stack(program.id, edition)) }
            },
            |_: &Process, _: &Stack| Ok(()),
            |state, stack: &Stack| {
                if height == 99 { Err(3) } else { Ok((state.round, stack.program_edition())) }
            },
        )
    };
    assert_eq!(evaluate(20).ok(), Some((40, 1)));
    assert_eq!(evaluate(19).ok(), Some((38, 0)));
    assert!(matches!(evaluate(90), Err(HistoryError::NoBlock { height: 90 })));
    assert!(matches!(evaluate(91), Err(HistoryError::Other(1))));
    assert!(matches!(
        evaluate(9),
        Err(HistoryError::NotYetDeployed { program_id: 2, height: 9 })
    ));
    assert!(matches!(evaluate(12), Err(HistoryError::Other(2))));
    assert!(matches!(evaluate(99), Err(HistoryError::Other(3))));
}
