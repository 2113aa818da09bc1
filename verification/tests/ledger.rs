use ledger_vm::block::{Authority, Block, Header, Limits, Metadata, Solution};
use ledger_vm::committee::{Committee, Member};
use ledger_vm::id_map::IdMap;
use ledger_vm::ledger::advance::{AdvanceError, NextBlockError};
use ledger_vm::ledger::load::{
    check_genesis_block, dev_start_round, spot_check_heights, DevCommitteeOptions, LoadError,
    LoadReply, LoadRequest, Loading,
};
use ledger_vm::ledger::prepare::{Preparation, PrepareAction, PrepareError, PrepareReply};
use ledger_vm::ledger::provers::{epoch_heights, epoch_solutions, has_room, load_epoch_provers};
use ledger_vm::ledger::records::{
    deploy_fee_record, find_unspent_credits_records, transfer_records, CreditsRecord, Microcredits,
    PaymentError, RecordsError,
};
use ledger_vm::ledger::solutions::split_candidate_solutions;
use ledger_vm::ledger::template::{
    select_solutions, AcceptedSolutions, NextTargets, Subdag, Template, TemplateError,
    TemplateFacts, TemplateReply, TemplateRequest,
};
use ledger_vm::ledger::Ledger;
use ledger_vm::process::program::{Program, Stack};
use ledger_vm::process::stacks::Process;
use ledger_vm::vm::sequential_op::{FinalizeState, Ratify};
use ledger_vm::vm::VM;
use std::cell::{Cell, RefCell};
use std::collections::HashMap;

fn sample_vm() -> VM {
    let program =
        Program { id: 1, imports: Vec::new(), structs: Vec::new(), mappings: Vec::new() };
    VM::new(Process::load_web(Stack { program, edition: 0 }), 10)
}

fn metadata(height: u32) -> Metadata {
    Metadata {
        network: 1,
        round: 2 * height as u64,
        height,
        cumulative_weight: 70,
        cumulative_proof_target: 80,
        coinbase_target: 90,
        proof_target: 100,
        last_coinbase_target: 110,
        last_coinbase_timestamp: 120,
        timestamp: 1000,
    }
}

fn block(height: u32, provers: &[u64]) -> Block {
    Block {
        hash: 500 + height as u64,
        previous_hash: 499 + height as u64,
        header: Header {
            previous_state_root: 1,
            transactions_root: 2,
            finalize_root: 3,
            ratifications_root: 4,
            solutions_root: 5,
            subdag_root: 6,
            metadata: metadata(height),
        },
        authority: Authority::Beacon,
        solutions: provers.iter().map(|address| Solution { id: 1, address: *address }).collect(),
        transactions: vec![7, 8],
    }
}

fn committee(round: u64) -> Committee {
    let member = Member { stake: 5, is_open: true, commission: 0 };
    Committee { starting_round: round, members: vec![(3, member)] }
}

fn sample_ledger() -> Ledger {
    Ledger::new(block(0, &[]), block(0, &[]), 4, None, None)
}

#[test]
fn splitting_accepts_up_to_the_limit_in_order() {
    let candidates: Vec<u32> = (0..40).collect();
    let mut checked = Vec::new();
    let (valid, aborted) = split_candidate_solutions(candidates, 5, |candidate| {
        checked.push(*candidate);
        *candidate % 2 == 1
    });
    assert_eq!(valid, vec![1, 3, 5, 7, 9]);
    let expected: Vec<u32> = (0..40).filter(|n| !valid.contains(n)).collect();
    assert_eq!(aborted, expected);
    // The check stops at the end of the chunk in which the limit was reached.
    assert_eq!(checked, (0..16).collect::<Vec<u32>>());
}

#[test]
fn splitting_keeps_what_the_check_changed() {
    let (valid, aborted) = split_candidate_solutions(vec![1u8, 2, 3], 10, |candidate| {
        *candidate += 10;
        *candidate != 12
    });
    assert_eq!(valid, vec![11, 13]);
    assert_eq!(aborted, vec![12]);
    let (valid, aborted) = split_candidate_solutions(vec![1u8, 2], 0, |_| true);
    assert_eq!(valid, Vec::<u8>::new());
    assert_eq!(aborted, vec![1, 2]);
    let (valid, aborted) = split_candidate_solutions(Vec::<u8>::new(), 3, |_| true);
    assert!(valid.is_empty() && aborted.is_empty());
}

#[test]
fn solutions_count_for_their_prover_when_accepted() {
    let mut accepted = AcceptedSolutions::new();
    let solutions: Vec<Solution> =
        [7, 7, 8, 7, 7].iter().map(|address| Solution { id: 0, address: *address }).collect();
    let checks = Cell::new(0);
    // A prover may have two solutions.
    let limit_reached = |_: u64, count: u64| count >= 2;
    let check = |solution: &mut Solution| {
        checks.set(checks.get() + 1);
        solution.id = checks.get();
        // The second solution that is checked is invalid.
        checks.get() != 2
    };
    let (valid, aborted) = split_candidate_solutions(solutions, 10, |solution| {
        accepted.decide(solution, &limit_reached, &check)
    });
    assert_eq!(valid.iter().map(|s| (s.id, s.address)).collect::<Vec<_>>(), vec![
        (1, 7),
        (3, 8),
        (4, 7)
    ]);
    // The last candidate was not even checked.
    assert_eq!(aborted.iter().map(|s| (s.id, s.address)).collect::<Vec<_>>(), vec![(2, 7), (0, 7)]);
}

#[test]
fn selection_asks_for_the_limit_before_it_checks() {
    let solutions: Vec<Solution> =
        [7, 7, 8, 7, 7].iter().map(|address| Solution { id: 0, address: *address }).collect();
    let asked = RefCell::new(Vec::new());
    let checks = Cell::new(0);
    let (valid, aborted) = select_solutions(
        solutions,
        10,
        |address, count| {
            asked.borrow_mut().push((address, count));
            count >= 2
        },
        |solution| {
            checks.set(checks.get() + 1);
            solution.id = checks.get();
            checks.get() != 2
        },
    );
    let ids = |solutions: &[Solution]| -> Vec<(u64, u64)> {
        solutions.iter().map(|s| (s.id, s.address)).collect()
    };
    assert_eq!(ids(&valid), vec![(1, 7), (3, 8), (4, 7)]);
    assert_eq!(ids(&aborted), vec![(2, 7), (0, 7)]);
    assert_eq!(*asked.borrow(), vec![(7, 0), (7, 1), (8, 0), (7, 1), (7, 2)]);
    assert_eq!(checks.get(), 4);
    // Solutions that passed count for their prover, also when the block is full.
    let solutions: Vec<Solution> = (0..20).map(|id| Solution { id, address: 7 }).collect();
    asked.borrow_mut().clear();
    let (valid, aborted) = select_solutions(
        solutions,
        1,
        |address, count| {
            asked.borrow_mut().push((address, count));
            count >= 3
        },
        |_| true,
    );
    assert_eq!(ids(&valid), vec![(0, 7)]);
    assert_eq!(ids(&aborted), (1..20).map(|id| (id, 7)).collect::<Vec<_>>());
    assert_eq!(asked.borrow().len(), 16);
    assert_eq!(asked.borrow()[2..5], [(7, 2), (7, 3), (7, 3)]);
}

#[test]
fn ledger_tells_of_its_latest_block() {
    let mut ledger = Ledger::new(
        block(0, &[]),
        block(9, &[]),
        4,
        Some(committee(2)),
        Some(committee(6)),
    );
    assert_eq!(ledger.latest_height(), 9);
    assert_eq!(ledger.latest_round(), 18);
    assert_eq!(ledger.latest_hash(), 509);
    assert_eq!(ledger.latest_epoch_number(), 2);
    assert_eq!(ledger.latest_header().finalize_root, 3);
    assert_eq!(ledger.latest_solutions_root(), 5);
    assert_eq!(ledger.latest_cumulative_weight(), 70);
    assert_eq!(ledger.latest_cumulative_proof_target(), 80);
    assert_eq!(ledger.latest_coinbase_target(), 90);
    assert_eq!(ledger.latest_proof_target(), 100);
    assert_eq!(ledger.last_coinbase_target(), 110);
    assert_eq!(ledger.last_coinbase_timestamp(), 120);
    assert_eq!(ledger.latest_timestamp(), 1000);
    assert_eq!(*ledger.latest_transactions(), vec![7, 8]);
    assert_eq!(ledger.latest_block().hash, 509);
    assert_eq!(ledger.genesis_block().hash, 500);
    assert_eq!(ledger.dev_committee().unwrap().starting_round, 6);
    let known = ledger.latest_committee(|| -> Result<Committee, u8> { Err(1) }).unwrap();
    assert_eq!(known.starting_round, 2);
    assert_eq!(ledger.current_epoch_hash(), None);
    assert_eq!(ledger.latest_epoch_hash(|height| -> Result<u64, u8> { Ok(height as u64) }), Ok(9));
    assert_eq!(ledger.committee_cache().cap().get(), 16);
    assert!(ledger.committee_cache().is_empty());

    let bare = sample_ledger();
    assert!(bare.dev_committee().is_none());
    let stored = bare.latest_committee(|| -> Result<Committee, u8> { Err(1) });
    assert_eq!(stored.err(), Some(1));
}

#[test]
fn next_block_must_be_the_successor() {
    let ledger = sample_ledger();
    assert_eq!(ledger.check_next_block(&block(0, &[]), true), Ok(()));
    assert_eq!(ledger.check_next_block(&block(1, &[]), true), Ok(()));
    assert_eq!(ledger.check_next_block(&block(2, &[]), true), Err(AdvanceError::NotSuccessor));
    let ledger = Ledger::new(block(0, &[]), block(5, &[]), 4, None, None);
    assert_eq!(ledger.check_next_block(&block(6, &[]), false), Ok(()));
    assert_eq!(ledger.check_next_block(&block(5, &[]), false), Err(AdvanceError::NotSuccessor));
    assert_eq!(ledger.check_next_block(&block(7, &[]), false), Err(AdvanceError::NotSuccessor));
    assert_eq!(ledger.check_next_block(&block(0, &[]), false), Err(AdvanceError::HeightZero));
}

#[test]
fn ledger_advances_to_a_block_that_was_added_to_the_vm() {
    let mut ledger = sample_ledger();
    let calls = RefCell::new(Vec::new());
    let advance = |ledger: &mut Ledger, height: u32, genesis: Result<bool, u8>, added: Result<(), u8>| {
        calls.borrow_mut().clear();
        ledger.advance_to_next_block(
            block(height, &[7]),
            |_| genesis,
            |block| {
                calls.borrow_mut().push(("add", block.height()));
                added
            },
            || Some(committee(3)),
            |height| {
                calls.borrow_mut().push(("epoch hash", height));
                Some(70 + height as u64)
            },
        )
    };
    assert!(advance(&mut ledger, 0, Ok(true), Ok(())).is_ok());
    assert_eq!(*calls.borrow(), vec![("add", 0), ("epoch hash", 0)]);
    assert!(advance(&mut ledger, 1, Ok(true), Ok(())).is_ok());
    assert_eq!(*calls.borrow(), vec![("add", 1)]);
    assert_eq!((ledger.latest_height(), ledger.current_epoch_hash()), (1, Some(70)));
    assert_eq!(ledger.epoch_provers().get(7), Some(1));
    let known = ledger.latest_committee(|| -> Result<Committee, u8> { Err(1) }).unwrap();
    assert_eq!(known.starting_round, 3);
    // A block that is not the next one does not reach the VM.
    assert!(matches!(
        advance(&mut ledger, 3, Ok(false), Ok(())),
        Err(NextBlockError::Block(AdvanceError::NotSuccessor))
    ));
    assert!(matches!(
        advance(&mut ledger, 0, Ok(false), Ok(())),
        Err(NextBlockError::Block(AdvanceError::HeightZero))
    ));
    assert!(matches!(advance(&mut ledger, 2, Err(1), Ok(())), Err(NextBlockError::Other(1))));
    assert!(calls.borrow().is_empty());
    // One that the VM refuses leaves the ledger as it is.
    assert!(matches!(advance(&mut ledger, 2, Ok(false), Err(2)), Err(NextBlockError::Other(2))));
    assert_eq!(*calls.borrow(), vec![("add", 2)]);
    assert_eq!((ledger.latest_height(), ledger.epoch_provers().get(7)), (1, Some(1)));
}

#[test]
fn provers_are_counted_within_an_epoch() {
    let mut ledger = sample_ledger();
    // Without an epoch hash every block asks for one, and clears the provers.
    assert!(ledger.needs_epoch_hash(&block(1, &[])));
    ledger.update_to_block(block(1, &[7]), None, None);
    assert!(ledger.epoch_provers().is_empty());
    assert_eq!(ledger.current_epoch_hash(), None);
    ledger.update_to_block(block(2, &[7]), Some(committee(3)), Some(77));
    assert_eq!(ledger.current_epoch_hash(), Some(77));
    assert!(ledger.epoch_provers().is_empty());
    // Within an epoch the provers are counted.
    assert!(!ledger.needs_epoch_hash(&block(3, &[])));
    assert!(ledger.can_count(&block(3, &[7, 8, 7])));
    ledger.update_to_block(block(3, &[7, 8, 7]), None, Some(78));
    assert_eq!(ledger.current_epoch_hash(), Some(77));
    assert_eq!(ledger.epoch_provers().get(7), Some(2));
    assert_eq!(ledger.epoch_provers().get(8), Some(1));
    assert_eq!(ledger.epoch_provers().get(9), None);
    let known = ledger.latest_committee(|| -> Result<Committee, u8> { Err(1) }).unwrap();
    assert_eq!(known.starting_round, 3);
    assert_eq!(ledger.latest_height(), 3);
    // The block at the epoch boundary still belongs to the previous epoch.
    assert!(ledger.needs_epoch_hash(&block(4, &[])));
    ledger.update_to_block(block(4, &[7]), None, Some(79));
    assert_eq!(ledger.current_epoch_hash(), Some(79));
    assert!(ledger.epoch_provers().is_empty());
    ledger.update_to_block(block(5, &[9]), None, None);
    assert_eq!(ledger.epoch_provers().get(9), Some(1));
    // A failure to retrieve the epoch hash leaves the known one.
    ledger.update_to_block(block(8, &[7]), None, None);
    assert_eq!(ledger.current_epoch_hash(), Some(79));
    assert!(ledger.epoch_provers().is_empty());
}

#[test]
fn dev_committee_stands_in_from_its_round_on() {
    let ledger = Ledger::new(block(0, &[]), block(0, &[]), 4, None, Some(committee(8)));
    assert!(ledger.dev_committee_for_round(7).is_none());
    assert_eq!(ledger.dev_committee_for_round(8).unwrap().starting_round, 8);
    assert_eq!(ledger.dev_committee_for_round(u64::MAX).unwrap().starting_round, 8);
    let ledger = Ledger::new(block(0, &[]), block(0, &[]), 4, Some(committee(2)), None);
    assert!(ledger.dev_committee_for_round(8).is_none());
}

#[test]
fn epoch_solutions_are_collected_in_order() {
    let asked = RefCell::new(Vec::new());
    let get = |height: u32| -> Result<Option<Vec<Solution>>, u8> {
        asked.borrow_mut().push(height);
        match height {
            9 => Ok(Some(block(9, &[5, 6]).solutions)),
            10 => Err(1),
            11 => Ok(None),
            _ => Ok(Some(block(height, &[5]).solutions)),
        }
    };
    let addresses: Vec<u64> = epoch_solutions(12, 8, get).iter().map(|s| s.address).collect();
    assert_eq!(addresses, vec![5, 6, 5]);
    assert_eq!(*asked.borrow(), vec![9, 10, 11, 12]);
    // At the boundary the epoch has no blocks yet.
    assert!(epoch_solutions(16, 8, get).is_empty());
    assert_eq!(asked.borrow().len(), 4);
}

#[test]
fn epoch_heights_follow_the_boundary() {
    assert_eq!(epoch_heights(8, 4), Vec::<u32>::new());
    assert_eq!(epoch_heights(9, 4), vec![9]);
    assert_eq!(epoch_heights(11, 4), vec![9, 10, 11]);
    assert_eq!(epoch_heights(3, 360), vec![1, 2, 3]);
    assert_eq!(epoch_heights(0, 360), Vec::<u32>::new());
    assert_eq!(epoch_heights(u32::MAX, u32::MAX), vec![u32::MAX]);
    let solutions = block(1, &[5, 6, 5]).solutions;
    let counts = load_epoch_provers(&solutions);
    assert_eq!(counts.get(5), Some(2));
    assert_eq!(counts.get(6), Some(1));
    assert!(has_room(&counts, 10));
    let mut full = IdMap::new();
    full.insert(1, u32::MAX as u64);
    assert!(has_room(&full, 0));
    assert!(!has_room(&full, 1));
}

fn facts() -> TemplateFacts {
    TemplateFacts {
        network: 3,
        previous: metadata(20),
        previous_hash: 520,
        subdag: None,
        beacon_limits: Limits { spend: Some(1), synthesis: Some(2) },
        epoch_hash: None,
        timestamps_from: Some(21),
    }
}

fn targets() -> NextTargets {
    NextTargets {
        coinbase_target: 201,
        proof_target: 202,
        cumulative_proof_target: 203,
        cumulative_weight: 204,
        last_coinbase_target: 205,
        last_coinbase_timestamp: 206,
    }
}

/// Answers the requests of a template, and returns them with the template at its end. Only the
/// candidate with the ID 31 is valid.
fn construct(
    facts: TemplateFacts,
    candidates: Vec<Solution>,
) -> (Vec<TemplateRequest>, Template<&'static str>) {
    let mut vm = sample_vm();
    let mut template = Template::new(facts, candidates, 4);
    let mut requests = Vec::new();
    while let Some(request) = template.request() {
        requests.push(request);
        let reply = match request {
            TemplateRequest::EpochHash { height } => TemplateReply::Value(height as u64 + 1),
            TemplateRequest::SelectSolutions { .. } => {
                template = template.select(|_, _| false, |solution| solution.id == 31);
                continue;
            }
            TemplateRequest::CombineSolutions => {
                TemplateReply::Combined { root: 41, proof_target: 42 }
            }
            TemplateRequest::StateRoot => TemplateReply::Value(43),
            TemplateRequest::CommitteeLookback { round } => TemplateReply::Found(round != 50),
            TemplateRequest::SubdagTimestamp => TemplateReply::Timestamp(1100),
            TemplateRequest::Clock => TemplateReply::Timestamp(1200),
            TemplateRequest::NextTargets { .. } => TemplateReply::Targets(targets()),
            TemplateRequest::CoinbaseReward { .. } => TemplateReply::Value(44),
            TemplateRequest::BuildState(_) => TemplateReply::Built,
            TemplateRequest::Speculate { .. } => {
                TemplateReply::Speculated(vm.allocate_speculation_id())
            }
            TemplateRequest::RatificationsRoot => TemplateReply::Value(45),
            TemplateRequest::SubdagRoot => TemplateReply::Value(46),
            TemplateRequest::BuildMetadata(_) => TemplateReply::Built,
            TemplateRequest::TransactionsRoot => TemplateReply::Value(47),
            TemplateRequest::FinalizeRoot => TemplateReply::Value(48),
            TemplateRequest::BuildHeader(_) => TemplateReply::Built,
        };
        template = template.reply(reply);
    }
    (requests, template)
}

#[test]
fn beacon_template_without_solutions() {
    let (requests, template) = construct(facts(), vec![]);
    assert_eq!(requests.len(), 11);
    assert_eq!(requests[0], TemplateRequest::StateRoot);
    assert_eq!(requests[1], TemplateRequest::Clock);
    assert_eq!(
        requests[2],
        TemplateRequest::NextTargets {
            height: 21,
            latest_cumulative_proof_target: 80,
            combined_proof_target: 0,
            latest_coinbase_target: 90,
            latest_cumulative_weight: 70,
            last_coinbase_target: 110,
            last_coinbase_timestamp: 120,
            timestamp: 1200,
        }
    );
    assert_eq!(
        requests[3],
        TemplateRequest::CoinbaseReward {
            height: 21,
            timestamp: 1200,
            combined_proof_target: 0,
            cumulative_proof_target: 80,
            latest_coinbase_target: 90,
        }
    );
    match requests[4] {
        TemplateRequest::BuildState(args) => {
            assert_eq!((args.round, args.height, args.timestamp), (41, 21, Some(1200)));
            assert_eq!((args.cumulative_weight, args.cumulative_proof_target), (204, 203));
            assert_eq!(args.previous_hash, 520);
            assert_eq!(args.limits, Limits { spend: Some(1), synthesis: Some(2) });
        }
        _ => panic!("expected the finalize state"),
    }
    assert_eq!(
        requests[5],
        TemplateRequest::Speculate { time_since_last_block: 200, coinbase_reward: 44 }
    );
    let args = template.speculate_args(vec![Ratify::Other(3)], vec![61, 62]);
    match (args.state, requests[4]) {
        (FinalizeState::Block(state), TemplateRequest::BuildState(built)) => {
            assert_eq!(state, built);
        }
        _ => panic!("expected the state of a block"),
    }
    assert_eq!((args.time_since_last_block, args.coinbase_reward), (200, Some(44)));
    assert!(matches!(args.ratifications[..], [Ratify::Other(3)]));
    assert_eq!(args.transactions, vec![61, 62]);
    assert!(args.solutions.is_empty() && args.keep.is_none());
    assert!(template.solutions().is_empty());
    let (header, _) = template.into_result().unwrap().ok().unwrap();
    assert_eq!(
        header,
        Header {
            previous_state_root: 43,
            transactions_root: 47,
            finalize_root: 48,
            ratifications_root: 45,
            solutions_root: 0,
            subdag_root: 0,
            metadata: Metadata {
                network: 3,
                round: 41,
                height: 21,
                cumulative_weight: 204,
                cumulative_proof_target: 203,
                coinbase_target: 201,
                proof_target: 202,
                last_coinbase_target: 205,
                last_coinbase_timestamp: 206,
                timestamp: 1200,
            },
        }
    );
}

#[test]
fn quorum_template_with_solutions() {
    let mut facts = facts();
    let candidates = vec![
        Solution { id: 32, address: 7 },
        Solution { id: 31, address: 7 },
        Solution { id: 33, address: 8 },
    ];
    let limits = Limits { spend: Some(8), synthesis: None };
    facts.subdag = Some(Subdag { anchor_round: 52, limits });
    facts.timestamps_from = Some(22);
    let (requests, template) = construct(facts, candidates);
    assert_eq!(requests[0], TemplateRequest::EpochHash { height: 20 });
    assert_eq!(
        requests[1],
        TemplateRequest::SelectSolutions { epoch_hash: 21, proof_target: 100, timestamp: 1000 }
    );
    assert_eq!(requests[2], TemplateRequest::CombineSolutions);
    assert_eq!(requests[4], TemplateRequest::CommitteeLookback { round: 51 });
    assert_eq!(requests[5], TemplateRequest::SubdagTimestamp);
    match requests[8] {
        TemplateRequest::BuildState(args) => {
            assert_eq!((args.round, args.timestamp, args.limits), (52, None, limits));
        }
        _ => panic!("expected the finalize state"),
    }
    assert_eq!(requests.len(), 16);
    assert_eq!(template.solutions().len(), 1);
    assert_eq!(template.aborted_solution_ids(), vec![32, 33]);
    assert_eq!(
        template.speculate_args(vec![], vec![]).solutions,
        vec![Solution { id: 31, address: 7 }]
    );
    let (header, _) = template.into_result().unwrap().ok().unwrap();
    assert_eq!((header.solutions_root, header.subdag_root), (41, 46));
    assert_eq!((header.metadata.round, header.metadata.timestamp), (52, 1100));
}

#[test]
fn template_uses_the_known_epoch_hash() {
    let mut facts = facts();
    facts.epoch_hash = Some(600);
    let template: Template<u8> = Template::new(facts, vec![Solution { id: 5, address: 6 }], 4);
    assert_eq!(
        template.request(),
        Some(TemplateRequest::SelectSolutions {
            epoch_hash: 600,
            proof_target: 100,
            timestamp: 1000
        })
    );
    // A reply does not stand in for the selection.
    let template = template.reply(TemplateReply::Built);
    assert!(matches!(template.request(), Some(TemplateRequest::SelectSolutions { .. })));
    // Without valid solutions there is nothing to combine.
    let template = template.select(|_, _| true, |_| true);
    assert_eq!(template.request(), Some(TemplateRequest::StateRoot));
    assert_eq!(template.aborted_solution_ids(), vec![5]);
    // A reply that does not fit leaves the template as it is.
    let template = template.reply(TemplateReply::Built);
    assert_eq!(template.request(), Some(TemplateRequest::StateRoot));
    assert!(template.into_result().is_none());
}

#[test]
fn template_selects_as_many_solutions_as_fit() {
    let mut facts = facts();
    facts.epoch_hash = Some(600);
    let candidates: Vec<Solution> =
        (0..6).map(|id| Solution { id, address: id % 2 }).collect();
    let template: Template<u8> = Template::new(facts, candidates, 2);
    let asked = RefCell::new(Vec::new());
    let template = template.select(
        |address, count| {
            asked.borrow_mut().push((address, count));
            address == 0 && count >= 1
        },
        |solution| solution.id != 1,
    );
    assert_eq!(template.request(), Some(TemplateRequest::CombineSolutions));
    assert_eq!(
        *template.solutions(),
        vec![Solution { id: 0, address: 0 }, Solution { id: 3, address: 1 }]
    );
    assert_eq!(template.aborted_solution_ids(), vec![1, 2, 4, 5]);
    assert_eq!(*asked.borrow(), vec![(0, 0), (1, 0), (0, 1), (1, 0), (0, 1), (1, 1)]);
}

#[test]
fn template_errors() {
    let mut stale = facts();
    stale.subdag = Some(Subdag { anchor_round: 40, limits: stale.beacon_limits });
    let (requests, template) = construct(stale, vec![]);
    assert_eq!(requests, vec![TemplateRequest::StateRoot]);
    assert!(matches!(
        template.into_result(),
        Some(Err(TemplateError::InvalidRound { new: 40, previous: 40 }))
    ));

    let mut orphan = facts();
    orphan.subdag = Some(Subdag { anchor_round: 51, limits: orphan.beacon_limits });
    let (_, template) = construct(orphan, vec![]);
    assert!(matches!(
        template.into_result(),
        Some(Err(TemplateError::NoCommitteeLookback { round: 50 }))
    ));

    let mut heavy = facts();
    heavy.previous.cumulative_proof_target = u64::MAX as u128 + 1;
    let (requests, template) = construct(heavy, vec![]);
    assert_eq!(requests.len(), 3);
    assert!(matches!(
        template.into_result(),
        Some(Err(TemplateError::CumulativeProofTargetTooLarge))
    ));

    let template = Template::new(facts(), vec![], 4).reply(TemplateReply::Failed("no root"));
    assert_eq!(template.request(), None);
    assert!(matches!(template.into_result(), Some(Err(TemplateError::Other("no root")))));
}

#[test]
fn template_saturates() {
    let mut last = facts();
    last.previous.height = u32::MAX;
    last.previous.round = u64::MAX;
    last.previous.timestamp = i64::MIN;
    assert_eq!(last.next_height(), u32::MAX);
    let (requests, template) = construct(last, vec![]);
    assert!(requests.contains(&TemplateRequest::Speculate {
        time_since_last_block: i64::MAX,
        coinbase_reward: 44
    }));
    let (header, _) = template.into_result().unwrap().ok().unwrap();
    assert_eq!((header.metadata.round, header.metadata.height), (u64::MAX, u32::MAX));
}

#[test]
fn prepared_block_is_bound_to_its_speculation() {
    let mut vm = sample_vm();
    let id = vm.allocate_speculation_id();
    vm.store_self_constructed(vec![9], IdMap::new(), HashMap::new(), id, true);
    let run: Preparation<u8> = Preparation::new(555, 0).ok().unwrap();
    assert_eq!(run.action(), Some(PrepareAction::ConstructTemplate));
    let header = block(3, &[]).header;
    let run = vm.prepare_next_block(run, PrepareReply::Template(id, header));
    assert_eq!(run.action(), Some(PrepareAction::NewBlock { previous_hash: 555, header }));
    let run = vm.prepare_next_block(run, PrepareReply::Block(600));
    assert_eq!(run.action(), None);
    assert!(matches!(run.into_result(), Some(Ok(600))));
    assert_eq!(vm.self_constructed_ops_for(600), Some(vec![9]));
}

#[test]
fn failed_preparation_discards_the_speculation() {
    let mut vm = sample_vm();
    let run: Preparation<u8> = Preparation::new(555, 0).ok().unwrap();
    let run = vm.prepare_next_block(run, PrepareReply::Failed(1));
    assert_eq!(run.action(), Some(PrepareAction::DiscardSpeculation));
    let run = vm.prepare_next_block(run, PrepareReply::Discarded);
    assert!(matches!(run.into_result(), Some(Err(PrepareError::Other(1)))));

    let id = vm.allocate_speculation_id();
    let run: Preparation<u8> = Preparation::new(555, 0).ok().unwrap();
    let run = vm.prepare_next_block(run, PrepareReply::Template(id, block(3, &[]).header));
    let run = vm.prepare_next_block(run, PrepareReply::Failed(2));
    assert_eq!(run.action(), Some(PrepareAction::DiscardSpeculation));
    assert!(matches!(run.into_result(), None));

    let refused: Result<Preparation<u8>, _> = Preparation::new(555, 1);
    assert!(matches!(refused, Err(PrepareError::RatificationsUnsupported)));
}

#[test]
fn loading_sets_the_latest_block_and_the_caches() {
    let mut ledger = sample_ledger();
    let mut run: Loading<u8> = Loading::new();
    let mut requests = Vec::new();
    while let Some(request) = run.request() {
        requests.push(request);
        let reply = match request {
            LoadRequest::MaxHeight => LoadReply::MaxHeight(Some(9)),
            LoadRequest::AddGenesis => LoadReply::GenesisAdded,
            LoadRequest::TreeHeight => LoadReply::TreeHeight(9),
            LoadRequest::TreeRoot => LoadReply::TreeRoot(70),
            LoadRequest::StateRoot { .. } => LoadReply::StateRoot(Some(70)),
            LoadRequest::Block { height } => LoadReply::Block(block(height, &[])),
            LoadRequest::Committee => LoadReply::Committee(committee(4)),
            LoadRequest::EpochHash { height } => LoadReply::EpochHash(height as u64),
            LoadRequest::EpochSolutions { .. } => {
                LoadReply::EpochSolutions(block(1, &[5, 5]).solutions)
            }
        };
        run = ledger.load_unchecked_inner(run, reply);
    }
    assert!(matches!(run.into_result(), Some(Ok(()))));
    assert_eq!(
        requests,
        vec![
            LoadRequest::MaxHeight,
            LoadRequest::TreeHeight,
            LoadRequest::TreeRoot,
            LoadRequest::StateRoot { height: 9 },
            LoadRequest::Block { height: 9 },
            LoadRequest::Committee,
            LoadRequest::EpochHash { height: 9 },
            LoadRequest::EpochSolutions { height: 9 },
        ]
    );
    assert_eq!(ledger.latest_height(), 9);
    assert_eq!(ledger.current_epoch_hash(), Some(9));
    assert_eq!(ledger.epoch_provers().get(5), Some(2));
    assert_eq!(ledger.latest_epoch_hash(|_| -> Result<u64, u8> { Err(1) }), Ok(9));
}

#[test]
fn loading_checks_the_block_tree() {
    let step = |replies: Vec<LoadReply<u8>>| {
        let mut ledger = Ledger::new(
            block(0, &[]),
            block(0, &[]),
            4,
            Some(committee(1)),
            None,
        );
        let mut run = Loading::new();
        for reply in replies {
            run = ledger.load_unchecked_inner(run, reply);
        }
        run
    };
    // An empty storage starts with the genesis block.
    let run = step(vec![LoadReply::MaxHeight(None)]);
    assert_eq!(run.request(), Some(LoadRequest::AddGenesis));
    let run = step(vec![LoadReply::MaxHeight(None), LoadReply::GenesisAdded]);
    assert_eq!(run.request(), Some(LoadRequest::TreeHeight));
    let run = step(vec![LoadReply::MaxHeight(Some(4)), LoadReply::TreeHeight(5)]);
    assert!(matches!(
        run.into_result(),
        Some(Err(LoadError::HeightMismatch { stored: 4, tree: 5 }))
    ));
    let roots = |state_root: Option<u64>| {
        step(vec![
            LoadReply::MaxHeight(Some(4)),
            LoadReply::TreeHeight(4),
            LoadReply::TreeRoot(7),
            LoadReply::StateRoot(state_root),
        ])
    };
    assert!(matches!(roots(None).into_result(), Some(Err(LoadError::MissingStateRoot))));
    assert!(matches!(roots(Some(8)).into_result(), Some(Err(LoadError::RootMismatch))));
    assert_eq!(roots(Some(7)).request(), Some(LoadRequest::Block { height: 4 }));
    // A committee that is known is not retrieved.
    let run = step(vec![
        LoadReply::MaxHeight(Some(4)),
        LoadReply::TreeHeight(4),
        LoadReply::TreeRoot(7),
        LoadReply::StateRoot(Some(7)),
        LoadReply::Block(block(4, &[])),
    ]);
    assert_eq!(run.request(), Some(LoadRequest::EpochHash { height: 4 }));
    let run = step(vec![LoadReply::Failed(6)]);
    assert!(matches!(run.into_result(), Some(Err(LoadError::Store(6)))));
    assert!(check_genesis_block::<u8>(true).is_ok());
    assert!(matches!(check_genesis_block::<u8>(false), Err(LoadError::IncorrectGenesis)));
}

#[test]
fn dev_committee_starts_at_the_latest_round() {
    let options = |start_round: Option<u64>| DevCommitteeOptions {
        start_round,
        dev_num_validators: 4,
        seed: 1,
    };
    let get_hash = |height: u32| -> Result<Option<u64>, u8> {
        match height {
            3 => Ok(None),
            4 => Err(1),
            _ => Ok(Some(height as u64)),
        }
    };
    let get_round = |hash: u64| -> Result<Option<u64>, u8> {
        match hash {
            5 => Ok(None),
            6 => Err(2),
            _ => Ok(Some(hash * 2)),
        }
    };
    let round = |start: Option<u64>, max_height: Option<u32>| {
        dev_start_round(&options(start), max_height, 1, get_hash, get_round)
    };
    assert_eq!(round(Some(55), Some(3)).ok(), Some(55));
    assert_eq!(round(None, None).ok(), Some(1));
    assert_eq!(round(None, Some(9)).ok(), Some(18));
    assert!(matches!(round(None, Some(3)), Err(LoadError::MissingBlockHash { height: 3 })));
    assert!(matches!(round(None, Some(4)), Err(LoadError::Store(1))));
    assert!(matches!(round(None, Some(5)), Err(LoadError::MissingBlock { height: 5 })));
    assert!(matches!(round(None, Some(6)), Err(LoadError::Store(2))));
}

#[test]
fn spot_checks_are_distinct_heights() {
    let mut rng = rand::rng();
    assert!(spot_check_heights(0, &mut rng).is_empty());
    for latest in [3u32, 10, 1000] {
        let mut heights = spot_check_heights(latest, &mut rng);
        assert_eq!(heights.len(), latest.min(10) as usize);
        assert!(heights.iter().all(|height| *height <= latest));
        heights.sort();
        heights.dedup();
        assert_eq!(heights.len(), latest.min(10) as usize);
    }
}

#[test]
fn loaded_ledger_has_its_genesis_block_and_random_others() {
    let ledger = Ledger::new(block(0, &[]), block(30, &[]), 4, None, None);
    let checked = RefCell::new(Vec::new());
    let check = |contained: Result<bool, u8>, missing: bool| {
        checked.borrow_mut().clear();
        ledger.check_loaded(
            |hash| {
                assert_eq!(hash, 500);
                contained
            },
            |height| {
                checked.borrow_mut().push(height);
                if missing && checked.borrow().len() == 4 { Err(2) } else { Ok(()) }
            },
            &mut rand::rng(),
        )
    };
    assert!(check(Ok(true), false).is_ok());
    assert_eq!(checked.borrow().len(), 10);
    assert!(checked.borrow().iter().all(|height| *height <= 30));
    assert!(matches!(check(Ok(true), true), Err(LoadError::Store(2))));
    assert_eq!(checked.borrow().len(), 4);
    assert!(matches!(check(Ok(false), false), Err(LoadError::IncorrectGenesis)));
    assert!(checked.borrow().is_empty());
    assert!(matches!(check(Err(1), false), Err(LoadError::Store(1))));
}

#[test]
fn transactions_are_paid_with_the_records_that_hold_an_amount() {
    let ledger = sample_ledger();
    let record = |commitment: u64, amount: u64| CreditsRecord {
        commitment,
        is_credits: true,
        microcredits: Microcredits::Private(amount),
    };
    let deploy = |unspent: Result<Vec<CreditsRecord>, u8>| {
        ledger.create_deploy(
            7,
            || unspent,
            |fee_record, fee| if fee_record == 9 { Err(3) } else { Ok(1000 * fee_record + fee) },
        )
    };
    assert!(matches!(deploy(Ok(vec![record(1, 0), record(2, 5)])), Ok(2007)));
    assert!(matches!(
        deploy(Ok(vec![record(1, 0)])),
        Err(PaymentError::Records(RecordsError::NoRecords))
    ));
    assert!(matches!(deploy(Ok(vec![record(9, 1)])), Err(PaymentError::Other(3))));
    assert!(matches!(deploy(Err(4)), Err(PaymentError::Other(4))));

    let transfer = |unspent: Result<Vec<CreditsRecord>, u8>| {
        ledger.create_transfer(
            20,
            30,
            7,
            || unspent,
            |record, to, amount, fee_record, fee| {
                assert_eq!((to, amount, fee), (20, 30, 7));
                if fee_record == 9 { Err(3) } else { Ok(100 * record + fee_record) }
            },
        )
    };
    assert!(matches!(transfer(Ok(vec![record(1, 4), record(2, 0), record(3, 5)])), Ok(103)));
    assert!(matches!(
        transfer(Ok(vec![record(1, 4), record(2, 0)])),
        Err(PaymentError::Records(RecordsError::NotEnoughRecords))
    ));
    assert!(matches!(transfer(Ok(vec![record(1, 4), record(9, 1)])), Err(PaymentError::Other(3))));
    assert!(matches!(transfer(Err(4)), Err(PaymentError::Other(4))));
}

#[test]
fn unspent_records_hold_private_amounts() {
    let record = |commitment: u64, microcredits: Microcredits| CreditsRecord {
        commitment,
        is_credits: true,
        microcredits,
    };
    let records = find_unspent_credits_records(&vec![
        record(1, Microcredits::Other),
        record(2, Microcredits::Private(0)),
        record(3, Microcredits::Private(30)),
        // A record of another program is not found, whatever it holds.
        CreditsRecord { commitment: 9, is_credits: false, microcredits: Microcredits::Private(90) },
        record(4, Microcredits::Missing),
        record(5, Microcredits::Private(50)),
    ]);
    assert_eq!(records.len(), 5);
    assert_eq!(records.entry_at(0), (1, 0));
    assert_eq!(records.get(2), Some(0));
    assert_eq!(records.entry_at(2), (3, 30));
    assert_eq!(records.entry_at(4), (5, 50));
    assert_eq!(records.get(9), None);
    // Those that hold nothing do not pay.
    assert_eq!(deploy_fee_record(&records), Ok(3));
    assert_eq!(transfer_records(&records), Ok((3, 5)));
    let one = find_unspent_credits_records(&vec![record(3, Microcredits::Private(30))]);
    assert_eq!(deploy_fee_record(&one), Ok(3));
    assert_eq!(transfer_records(&one), Err(RecordsError::NotEnoughRecords));
    let none = find_unspent_credits_records(&vec![]);
    assert_eq!(deploy_fee_record(&none), Err(RecordsError::NoRecords));
}
