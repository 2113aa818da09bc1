//! The supply of a genesis block.

use crate::block::{Block, Solution};
use crate::committee::{
    equal_members, lemma_distinct_addresses, map_to_same, members_with_equal_stake, same_for_all,
    Bonded, Committee, Member,
};
use crate::id_map::{value_of, IdMap};
use crate::vm::sequential_op::{FinalizeState, Ratify, SpeculateArgs};
use vstd::prelude::*;

verus! {

/// Why there is no genesis block.
#[derive(Copy, Clone, Debug, PartialEq, Eq, Structural)]
pub enum GenesisError {
    /// A beacon chain needs at least four validators.
    TooFewValidators,
    /// There is not enough starting supply for this many validators.
    NotEnoughSupply,
    /// The bonded amounts add up to more than an amount can be.
    InvalidBondedAmount,
    /// The public balances add up to more than an amount can be.
    InvalidAccountSupply,
    /// The bonded amounts and the public balances add up to more than an amount can be.
    InvalidTotalSupply,
    /// The total supply is not the starting supply.
    WrongTotalSupply { found: u64, expected: u64 },
    /// The caller has no public balance.
    MissingBalance { address: u64 },
    /// Transactions of the block were aborted.
    AbortedTransactions,
    /// The block is not a genesis block.
    NotGenesis,
}

/// The sum of the given amounts.
pub open spec fn sum(amounts: Seq<u64>) -> nat
    decreases amounts.len(),
{
    if amounts.len() == 0 {
        0
    } else {
        sum(amounts.drop_last()) + amounts.last() as nat
    }
}

/// The sum of some amounts is at most that of all.
proof fn lemma_sum_of_some(amounts: Seq<u64>, count: int)
    requires
        0 <= count <= amounts.len(),
    ensures
        sum(amounts.take(count)) <= sum(amounts),
    decreases amounts.len(),
{
    if count < amounts.len() {
        assert(amounts.drop_last().take(count) =~= amounts.take(count));
        lemma_sum_of_some(amounts.drop_last(), count);
    } else {
        assert(amounts.take(count) =~= amounts);
    }
}

/// The sum of amounts that are all the same.
proof fn lemma_sum_of_same(amounts: Seq<u64>, amount: u64)
    requires
        forall|i: int| 0 <= i < amounts.len() ==> amounts[i] == amount,
    ensures
        sum(amounts) == amounts.len() * amount,
    decreases amounts.len(),
{
    if amounts.len() > 0 {
        lemma_sum_of_same(amounts.drop_last(), amount);
        let rest = (amounts.len() - 1) as int;
        assert((rest + 1) * amount == rest * amount + amount) by (nonlinear_arith);
    }
}

/// The amounts of the bonded balances.
pub open spec fn bonded_amounts(bonded: Seq<Bonded>) -> Seq<u64> {
    bonded.map_values(|entry: Bonded| entry.amount)
}

/// The amounts of the public balances.
pub open spec fn public_amounts(balances: Seq<(u64, u64)>) -> Seq<u64> {
    balances.map_values(|entry: (u64, u64)| entry.1)
}

/// Adds the bonded amounts up. Returns `None` when they are more than an amount can be.
pub fn total_bonded_amount(bonded: &Vec<Bonded>) -> (total: Option<u64>)
    ensures
        match total {
            Some(total) => total == sum(bonded_amounts(bonded@)),
            None => sum(bonded_amounts(bonded@)) > u64::MAX,
        },
{
    let ghost amounts = bonded_amounts(bonded@);
    let mut total: u64 = 0;
    let mut i: usize = 0;
    proof {
        assert(amounts.take(0) =~= Seq::empty());
    }
    while i < bonded.len()
        invariant
            i <= bonded@.len(),
            amounts == bonded_amounts(bonded@),
            total == sum(amounts.take(i as int)),
        decreases bonded@.len() - i,
    {
        proof {
            assert(amounts.take(i + 1).drop_last() =~= amounts.take(i as int));
            lemma_sum_of_some(amounts, i + 1);
        }
        match total.checked_add(bonded[i].amount) {
            Some(next) => {
                total = next;
            },
            None => {
                return None;
            },
        }
        i = i + 1;
    }
    proof {
        assert(amounts.take(amounts.len() as int) =~= amounts);
    }
    Some(total)
}

/// Adds the public balances up. Returns `None` when they are more than an amount can be.
pub fn account_supply(balances: &IdMap) -> (total: Option<u64>)
    ensures
        match total {
            Some(total) => total == sum(public_amounts(balances@)),
            None => sum(public_amounts(balances@)) > u64::MAX,
        },
{
    let ghost amounts = public_amounts(balances@);
    let mut total: u64 = 0;
    let mut i: usize = 0;
    proof {
        assert(amounts.take(0) =~= Seq::empty());
    }
    while i < balances.len()
        invariant
            i <= balances@.len(),
            amounts == public_amounts(balances@),
            total == sum(amounts.take(i as int)),
        decreases balances@.len() - i,
    {
        proof {
            assert(amounts.take(i + 1).drop_last() =~= amounts.take(i as int));
            lemma_sum_of_some(amounts, i + 1);
        }
        match total.checked_add(balances.entry_at(i).1) {
            Some(next) => {
                total = next;
            },
            None => {
                return None;
            },
        }
        i = i + 1;
    }
    proof {
        assert(amounts.take(amounts.len() as int) =~= amounts);
    }
    Some(total)
}

/// What is wrong with the supply of a genesis block, if anything.
pub open spec fn supply_error(
    bonded: Seq<Bonded>,
    balances: Seq<(u64, u64)>,
    starting_supply: u64,
) -> Option<GenesisError> {
    let total_bonded = sum(bonded_amounts(bonded));
    let total_public = sum(public_amounts(balances));
    if total_bonded > u64::MAX {
        Some(GenesisError::InvalidBondedAmount)
    } else if total_public > u64::MAX {
        Some(GenesisError::InvalidAccountSupply)
    } else if total_bonded + total_public > u64::MAX {
        Some(GenesisError::InvalidTotalSupply)
    } else if total_bonded + total_public != starting_supply {
        Some(
            GenesisError::WrongTotalSupply {
                found: (total_bonded + total_public) as u64,
                expected: starting_supply,
            },
        )
    } else {
        None
    }
}

/// Ensures that the bonded amounts and the public balances add up to the starting supply.
pub fn check_supply(bonded: &Vec<Bonded>, balances: &IdMap, starting_supply: u64) -> (result: Result<
    (),
    GenesisError,
>)
    ensures
        match supply_error(bonded@, balances@, starting_supply) {
            Some(error) => result == Err::<(), _>(error),
            None => result is Ok,
        },
{
    let total_bonded = match total_bonded_amount(bonded) {
        Some(total) => total,
        None => {
            return Err(GenesisError::InvalidBondedAmount);
        },
    };
    let account_supply = match account_supply(balances) {
        Some(total) => total,
        None => {
            return Err(GenesisError::InvalidAccountSupply);
        },
    };
    let total_supply = match total_bonded.checked_add(account_supply) {
        Some(total) => total,
        None => {
            return Err(GenesisError::InvalidTotalSupply);
        },
    };
    if total_supply != starting_supply {
        return Err(
            GenesisError::WrongTotalSupply { found: total_supply, expected: starting_supply },
        );
    }
    Ok(())
}

/// Returns the amount that each transaction of the genesis block transfers: the public balance of
/// the caller, divided by twice the number of those transactions.
pub fn genesis_transfer_amount(
    balances: &IdMap,
    caller: u64,
    num_genesis_transactions: usize,
) -> (result: Result<u64, GenesisError>)
    requires
        balances.wf(),
        num_genesis_transactions > 0,
    ensures
        match value_of(balances@, caller) {
            Some(balance) => result == Ok::<_, GenesisError>(
                transfer_amount(balance, num_genesis_transactions),
            ),
            None => result == Err::<u64, _>(GenesisError::MissingBalance { address: caller }),
        },
{
    match balances.get(caller) {
        Some(balance) => {
            let doubled = if num_genesis_transactions > usize::MAX / 2 {
                usize::MAX
            } else {
                2 * num_genesis_transactions
            };
            Ok(balance / (doubled as u64))
        },
        None => Err(GenesisError::MissingBalance { address: caller }),
    }
}

/// Why a genesis block cannot be started.
#[derive(Debug)]
pub enum PlanError<E> {
    /// The supply is wrong.
    Genesis(GenesisError),
    /// The caller or the committee could not be derived.
    Other(E),
}

/// How a genesis block is started: what it ratifies, who transfers how much in each transaction, and
/// how many transactions there are.
#[derive(Debug)]
pub struct GenesisPlan {
    pub committee: Committee,
    pub public_balances: IdMap,
    pub bonded_balances: Vec<Bonded>,
    pub caller: u64,
    pub amount: u64,
    pub num_transactions: usize,
}

/// The amount that each transaction of the genesis block transfers, of the given balance.
pub open spec fn transfer_amount(balance: u64, num_genesis_transactions: usize) -> u64 {
    balance / (if 2 * num_genesis_transactions > usize::MAX {
        usize::MAX as u64
    } else {
        (2 * num_genesis_transactions) as u64
    })
}

/// Starts a genesis block for a quorum chain: checks the supply, derives the caller, and prepares the
/// amount of the transactions. The block ratifies the given committee and balances.
pub fn genesis_quorum<E, Caller: FnOnce() -> Result<u64, E>>(
    committee: Committee,
    public_balances: IdMap,
    bonded_balances: Vec<Bonded>,
    starting_supply: u64,
    num_genesis_transactions: usize,
    caller: Caller,
) -> (result: Result<GenesisPlan, PlanError<E>>)
    requires
        public_balances.wf(),
        num_genesis_transactions > 0,
        supply_error(bonded_balances@, public_balances@, starting_supply) is None
            ==> call_requires(caller, ()),
    ensures
        match supply_error(bonded_balances@, public_balances@, starting_supply) {
            Some(error) => result == Err::<GenesisPlan, _>(PlanError::<E>::Genesis(error)),
            None => match result {
                Ok(plan) => {
                    &&& plan.committee == committee
                    &&& plan.public_balances == public_balances
                    &&& plan.bonded_balances == bonded_balances
                    &&& plan.num_transactions == num_genesis_transactions
                    &&& call_ensures(caller, (), Ok::<u64, E>(plan.caller))
                    &&& value_of(public_balances@, plan.caller) is Some
                    &&& plan.amount == transfer_amount(
                        value_of(public_balances@, plan.caller)->0,
                        num_genesis_transactions,
                    )
                },
                Err(PlanError::Genesis(error)) => exists|address: u64| #[trigger]
                    call_ensures(caller, (), Ok::<u64, E>(address)) && value_of(
                        public_balances@,
                        address,
                    ) is None && error == (GenesisError::MissingBalance { address }),
                Err(PlanError::Other(error)) => call_ensures(caller, (), Err::<u64, E>(error)),
            },
        },
{
    match check_supply(&bonded_balances, &public_balances, starting_supply) {
        Ok(_) => {},
        Err(error) => {
            return Err(PlanError::Genesis(error));
        },
    }
    let caller = match caller() {
        Ok(caller) => caller,
        Err(error) => {
            return Err(PlanError::Other(error));
        },
    };
    match genesis_transfer_amount(&public_balances, caller, num_genesis_transactions) {
        Ok(amount) => Ok(
            GenesisPlan {
                committee,
                public_balances,
                bonded_balances,
                caller,
                amount,
                num_transactions: num_genesis_transactions,
            },
        ),
        Err(error) => Err(PlanError::Genesis(error)),
    }
}

/// What the speculation of a genesis block is performed on: the plan's committee and balances are
/// ratified, without solutions or a reward, on the genesis state, and nothing is kept.
pub open spec fn speculates_genesis(
    args: SpeculateArgs,
    plan: GenesisPlan,
    transactions: Seq<u64>,
) -> bool {
    &&& args.state is Genesis
    &&& args.time_since_last_block == 0
    &&& args.coinbase_reward is None
    &&& args.ratifications@ == seq![
        Ratify::Genesis {
            committee: plan.committee,
            public_balances: plan.public_balances,
            bonded_balances: plan.bonded_balances,
        },
    ]
    &&& args.solutions@ == Seq::<Solution>::empty()
    &&& args.transactions@ == transactions
    &&& args.keep is None
}

/// The transactions were executed, in order: each transfers the plan's amount to the plan's caller.
pub open spec fn all_executed<E, Execute: Fn(u64, u64) -> Result<u64, E>>(
    execute: Execute,
    plan: GenesisPlan,
    transactions: Seq<u64>,
) -> bool {
    forall|i: int|
        0 <= i < transactions.len() ==> call_ensures(
            execute,
            (plan.caller, plan.amount),
            Ok::<u64, E>(#[trigger] transactions[i]),
        )
}

/// The speculation of the plan's genesis block gave `speculation`.
pub open spec fn speculated_genesis<
    S,
    E,
    Execute: Fn(u64, u64) -> Result<u64, E>,
    Speculate: FnOnce(SpeculateArgs) -> Result<S, E>,
>(
    plan: GenesisPlan,
    execute: Execute,
    speculate: Speculate,
    outcome: Result<S, E>,
) -> bool {
    exists|args: SpeculateArgs, transactions: Seq<u64>|
        {
            &&& transactions.len() == plan.num_transactions
            &&& #[trigger] all_executed(execute, plan, transactions)
            &&& speculates_genesis(args, plan, transactions)
            &&& #[trigger] call_ensures(speculate, (args,), outcome)
        }
}

/// The speculation of the plan's genesis block gave `speculation`, and nothing was aborted in it.
pub open spec fn speculated_in_full<
    S,
    E,
    Execute: Fn(u64, u64) -> Result<u64, E>,
    Speculate: FnOnce(SpeculateArgs) -> Result<S, E>,
    Aborted: FnOnce(&S) -> Vec<u64>,
>(
    plan: GenesisPlan,
    execute: Execute,
    speculate: Speculate,
    aborted_transaction_ids: Aborted,
    speculation: S,
) -> bool {
    &&& speculated_genesis(plan, execute, speculate, Ok::<S, E>(speculation))
    &&& exists|aborted: Vec<u64>| #[trigger]
        call_ensures(aborted_transaction_ids, (&speculation,), aborted) && aborted@.len() == 0
}

/// The block comes of the speculation of the plan's genesis block, in which nothing was aborted; and
/// asking if it is a genesis block gave `outcome`.
pub open spec fn made_block<
    S,
    E,
    Execute: Fn(u64, u64) -> Result<u64, E>,
    Speculate: FnOnce(SpeculateArgs) -> Result<S, E>,
    Aborted: FnOnce(&S) -> Vec<u64>,
    NewBlock: FnOnce(&S) -> Result<Block, E>,
    IsGenesis: FnOnce(&Block) -> Result<bool, E>,
>(
    plan: GenesisPlan,
    execute: Execute,
    speculate: Speculate,
    aborted_transaction_ids: Aborted,
    new_block: NewBlock,
    is_genesis: IsGenesis,
    block: Block,
    outcome: Result<bool, E>,
) -> bool {
    &&& call_ensures(is_genesis, (&block,), outcome)
    &&& exists|speculation: S| #[trigger]
        speculated_in_full(plan, execute, speculate, aborted_transaction_ids, speculation)
            && call_ensures(new_block, (&speculation,), Ok::<Block, E>(block))
}

/// One of the calls that make a genesis block gave the error, when those before it had succeeded.
pub open spec fn genesis_call_failed<
    S,
    E,
    Execute: Fn(u64, u64) -> Result<u64, E>,
    Speculate: FnOnce(SpeculateArgs) -> Result<S, E>,
    Aborted: FnOnce(&S) -> Vec<u64>,
    NewBlock: FnOnce(&S) -> Result<Block, E>,
    IsGenesis: FnOnce(&Block) -> Result<bool, E>,
>(
    plan: GenesisPlan,
    execute: Execute,
    speculate: Speculate,
    aborted_transaction_ids: Aborted,
    new_block: NewBlock,
    is_genesis: IsGenesis,
    error: E,
) -> bool {
    ||| plan.num_transactions > 0 && call_ensures(
        execute,
        (plan.caller, plan.amount),
        Err::<u64, E>(error),
    )
    ||| speculated_genesis(plan, execute, speculate, Err::<S, E>(error))
    ||| exists|speculation: S| #[trigger]
        speculated_in_full(plan, execute, speculate, aborted_transaction_ids, speculation)
            && call_ensures(new_block, (&speculation,), Err::<Block, E>(error))
    ||| exists|block: Block| #[trigger]
        made_block(
            plan,
            execute,
            speculate,
            aborted_transaction_ids,
            new_block,
            is_genesis,
            block,
            Err::<bool, E>(error),
        )
}

/// The plan refuses its genesis block: a transaction was aborted, or it is not a genesis block.
pub open spec fn genesis_refused<
    S,
    E,
    Execute: Fn(u64, u64) -> Result<u64, E>,
    Speculate: FnOnce(SpeculateArgs) -> Result<S, E>,
    Aborted: FnOnce(&S) -> Vec<u64>,
    NewBlock: FnOnce(&S) -> Result<Block, E>,
    IsGenesis: FnOnce(&Block) -> Result<bool, E>,
>(
    plan: GenesisPlan,
    execute: Execute,
    speculate: Speculate,
    aborted_transaction_ids: Aborted,
    new_block: NewBlock,
    is_genesis: IsGenesis,
    error: GenesisError,
) -> bool {
    ||| error == GenesisError::AbortedTransactions && exists|speculation: S, aborted: Vec<u64>|
        {
            &&& #[trigger] speculated_genesis(plan, execute, speculate, Ok::<S, E>(speculation))
            &&& #[trigger] call_ensures(aborted_transaction_ids, (&speculation,), aborted)
            &&& aborted@.len() > 0
        }
    ||| error == GenesisError::NotGenesis && exists|block: Block| #[trigger]
        made_block(
            plan,
            execute,
            speculate,
            aborted_transaction_ids,
            new_block,
            is_genesis,
            block,
            Ok::<bool, E>(false),
        )
}

impl GenesisPlan {
    /// Makes the genesis block of the plan: executes its transactions, speculates on them with the
    /// ratification of the plan's committee and balances, and constructs the block. A block with
    /// aborted transactions, or one that is not a genesis block, is refused.
    pub fn make_block<
        S,
        E,
        Execute: Fn(u64, u64) -> Result<u64, E>,
        Speculate: FnOnce(SpeculateArgs) -> Result<S, E>,
        Aborted: FnOnce(&S) -> Vec<u64>,
        NewBlock: FnOnce(&S) -> Result<Block, E>,
        IsGenesis: FnOnce(&Block) -> Result<bool, E>,
    >(
        self,
        execute: Execute,
        speculate: Speculate,
        aborted_transaction_ids: Aborted,
        new_block: NewBlock,
        is_genesis: IsGenesis,
    ) -> (result: Result<Block, PlanError<E>>)
        requires
            self.num_transactions > 0 ==> call_requires(execute, (self.caller, self.amount)),
            forall|args: SpeculateArgs, transactions: Seq<u64>|
                transactions.len() == self.num_transactions && #[trigger] all_executed(
                    execute,
                    self,
                    transactions,
                ) && #[trigger] speculates_genesis(args, self, transactions) ==> call_requires(
                    speculate,
                    (args,),
                ),
            forall|speculation: S|
                #[trigger] speculated_genesis(
                    self,
                    execute,
                    speculate,
                    Ok::<S, E>(speculation),
                ) ==> call_requires(aborted_transaction_ids, (&speculation,)),
            // A block is constructed only where nothing was aborted.
            forall|speculation: S|
                #[trigger] speculated_in_full(
                    self,
                    execute,
                    speculate,
                    aborted_transaction_ids,
                    speculation,
                ) ==> call_requires(new_block, (&speculation,)),
            forall|speculation: S, block: Block|
                #[trigger] speculated_in_full(
                    self,
                    execute,
                    speculate,
                    aborted_transaction_ids,
                    speculation,
                ) && #[trigger] call_ensures(new_block, (&speculation,), Ok::<Block, E>(block))
                    ==> call_requires(is_genesis, (&block,)),
        ensures
            match result {
                Ok(block) => made_block(
                    self,
                    execute,
                    speculate,
                    aborted_transaction_ids,
                    new_block,
                    is_genesis,
                    block,
                    Ok::<bool, E>(true),
                ),
                Err(PlanError::Genesis(error)) => genesis_refused(
                    self,
                    execute,
                    speculate,
                    aborted_transaction_ids,
                    new_block,
                    is_genesis,
                    error,
                ),
                Err(PlanError::Other(error)) => genesis_call_failed(
                    self,
                    execute,
                    speculate,
                    aborted_transaction_ids,
                    new_block,
                    is_genesis,
                    error,
                ),
            },
    {
        let ghost plan = self;
        let mut transactions: Vec<u64> = Vec::new();
        while transactions.len() < self.num_transactions
            invariant
                plan == self,
                self.num_transactions > 0 ==> call_requires(execute, (self.caller, self.amount)),
                transactions@.len() <= self.num_transactions,
                all_executed(execute, plan, transactions@),
            decreases self.num_transactions - transactions@.len(),
        {
            match execute(self.caller, self.amount) {
                Ok(transaction) => {
                    let ghost before = transactions@;
                    transactions.push(transaction);
                    assert forall|i: int| 0 <= i < transactions@.len() implies call_ensures(
                        execute,
                        (plan.caller, plan.amount),
                        Ok::<u64, E>(#[trigger] transactions@[i]),
                    ) by {
                        if i < before.len() {
                            assert(transactions@[i] == before[i]);
                        }
                    }
                },
                Err(error) => {
                    assert(genesis_call_failed(
                        plan,
                        execute,
                        speculate,
                        aborted_transaction_ids,
                        new_block,
                        is_genesis,
                        error,
                    ));
                    return Err(PlanError::Other(error));
                },
            }
        }
        let ghost executed = transactions@;
        let mut ratifications: Vec<Ratify> = Vec::new();
        ratifications.push(
            Ratify::Genesis {
                committee: self.committee,
                public_balances: self.public_balances,
                bonded_balances: self.bonded_balances,
            },
        );
        let args = SpeculateArgs {
            state: FinalizeState::Genesis,
            time_since_last_block: 0,
            coinbase_reward: None,
            ratifications,
            solutions: Vec::new(),
            transactions,
            keep: None,
        };
        assert(speculates_genesis(args, plan, executed));
        let ghost handed = args;
        assert(all_executed(execute, plan, executed));
        let outcome = speculate(args);
        assert(call_ensures(speculate, (handed,), outcome));
        assert(speculated_genesis(plan, execute, speculate, outcome));
        let speculation = match outcome {
            Ok(speculation) => speculation,
            Err(error) => {
                assert(genesis_call_failed(
                    plan,
                    execute,
                    speculate,
                    aborted_transaction_ids,
                    new_block,
                    is_genesis,
                    error,
                ));
                return Err(PlanError::Other(error));
            },
        };
        let aborted = aborted_transaction_ids(&speculation);
        assert(call_ensures(aborted_transaction_ids, (&speculation,), aborted));
        match check_nothing_aborted(&aborted) {
            Ok(_) => {
                assert(speculated_in_full(
                    plan,
                    execute,
                    speculate,
                    aborted_transaction_ids,
                    speculation,
                ));
            },
            Err(error) => {
                assert(genesis_refused(
                    plan,
                    execute,
                    speculate,
                    aborted_transaction_ids,
                    new_block,
                    is_genesis,
                    error,
                ));
                return Err(PlanError::Genesis(error));
            },
        }
        let block = match new_block(&speculation) {
            Ok(block) => block,
            Err(error) => {
                assert(genesis_call_failed(
                    plan,
                    execute,
                    speculate,
                    aborted_transaction_ids,
                    new_block,
                    is_genesis,
                    error,
                ));
                return Err(PlanError::Other(error));
            },
        };
        assert(call_ensures(new_block, (&speculation,), Ok::<Block, E>(block)));
        let asked = is_genesis(&block);
        assert(made_block(
            plan,
            execute,
            speculate,
            aborted_transaction_ids,
            new_block,
            is_genesis,
            block,
            asked,
        ));
        let genuine = match asked {
            Ok(genuine) => genuine,
            Err(error) => {
                assert(genesis_call_failed(
                    plan,
                    execute,
                    speculate,
                    aborted_transaction_ids,
                    new_block,
                    is_genesis,
                    error,
                ));
                return Err(PlanError::Other(error));
            },
        };
        match check_genesis(genuine) {
            Ok(_) => Ok(block),
            Err(error) => {
                assert(genesis_refused(
                    plan,
                    execute,
                    speculate,
                    aborted_transaction_ids,
                    new_block,
                    is_genesis,
                    error,
                ));
                Err(PlanError::Genesis(error))
            },
        }
    }
}

/// Ensures that no transaction of the genesis block was aborted.
pub fn check_nothing_aborted(aborted_transaction_ids: &Vec<u64>) -> (result: Result<(), GenesisError>)
    ensures
        aborted_transaction_ids@.len() == 0 <==> result is Ok,
        result matches Err(error) ==> error == GenesisError::AbortedTransactions,
{
    if aborted_transaction_ids.len() == 0 {
        Ok(())
    } else {
        Err(GenesisError::AbortedTransactions)
    }
}

/// Ensures that the block is a valid genesis block.
pub fn check_genesis(is_genesis: bool) -> (result: Result<(), GenesisError>)
    ensures
        is_genesis <==> result is Ok,
        result matches Err(error) ==> error == GenesisError::NotGenesis,
{
    if is_genesis {
        Ok(())
    } else {
        Err(GenesisError::NotGenesis)
    }
}

/// The fewest validators of a beacon chain.
pub const MIN_BEACON_VALIDATORS: usize = 4;

/// Ensures that a beacon chain has enough validators.
pub fn check_num_validators(num_validators: usize) -> (result: Result<(), GenesisError>)
    ensures
        num_validators >= MIN_BEACON_VALIDATORS <==> result is Ok,
        result matches Err(error) ==> error == GenesisError::TooFewValidators,
{
    if num_validators >= MIN_BEACON_VALIDATORS {
        Ok(())
    } else {
        Err(GenesisError::TooFewValidators)
    }
}

/// What each validator of a beacon chain has as its public balance: an equal share of what remains of
/// the starting supply once each has its stake.
pub open spec fn beacon_share(starting_supply: u64, stake: u64, num_validators: nat) -> u64 {
    ((starting_supply - stake * num_validators) / num_validators as int) as u64
}

/// Returns the public balances of a beacon chain: what remains of the starting supply once each
/// validator has its stake is shared out evenly.
pub fn beacon_public_balances(addresses: &Vec<u64>, starting_supply: u64, stake: u64) -> (result:
    Result<IdMap, GenesisError>)
    requires
        addresses@.len() > 0,
        stake * addresses@.len() <= u64::MAX,
    ensures
        if stake * addresses@.len() <= starting_supply {
            result matches Ok(balances) && balances.wf() && balances@ == same_for_all(
                addresses@,
                beacon_share(starting_supply, stake, addresses@.len()),
            )
        } else {
            result matches Err(error) && error == GenesisError::NotEnoughSupply
        },
{
    let num_validators = addresses.len() as u64;
    assert(stake * num_validators == stake * addresses@.len());
    let staked = stake * num_validators;
    match starting_supply.checked_sub(staked) {
        Some(remaining) => Ok(map_to_same(addresses, remaining / num_validators)),
        None => Err(GenesisError::NotEnoughSupply),
    }
}

/// The bonded balances of a genesis committee: each member bonds its stake to itself.
pub open spec fn self_bonded(members: Seq<(u64, Member)>) -> Seq<Bonded> {
    members.map_values(
        |member: (u64, Member)|
            Bonded {
                staker: member.0,
                validator: member.0,
                withdrawal: member.0,
                amount: member.1.stake,
            },
    )
}

/// Returns the bonded balances of a genesis committee.
pub fn bonded_balances(members: &Vec<(u64, Member)>) -> (bonded: Vec<Bonded>)
    ensures
        bonded@ == self_bonded(members@),
{
    let mut bonded: Vec<Bonded> = Vec::new();
    let mut i: usize = 0;
    while i < members.len()
        invariant
            i <= members@.len(),
            bonded@ == self_bonded(members@).take(i as int),
        decreases members@.len() - i,
    {
        let (address, member) = members[i];
        bonded.push(
            Bonded {
                staker: address,
                validator: address,
                withdrawal: address,
                amount: member.stake,
            },
        );
        i = i + 1;
        proof {
            assert(bonded@ =~= self_bonded(members@).take(i as int));
        }
    }
    proof {
        assert(bonded@ =~= self_bonded(members@));
    }
    bonded
}

/// What the genesis block of a beacon chain is started from.
pub struct BeaconPlan {
    pub committee: Committee,
    pub public_balances: IdMap,
    pub bonded_balances: Vec<Bonded>,
}

/// Starts a genesis block for a beacon chain: constructs the members of the committee from the
/// addresses of the validators, hands them to `new_genesis`, which returns the committee, and shares
/// the starting supply out.
pub fn genesis_beacon_with_size<
    E,
    NewGenesis: FnOnce(Vec<(u64, Member)>) -> Result<Committee, E>,
>(addresses: &Vec<u64>, starting_supply: u64, stake: u64, new_genesis: NewGenesis) -> (result: Result<
    BeaconPlan,
    PlanError<E>,
>)
    requires
        stake * addresses@.len() <= u64::MAX,
        forall|members: Vec<(u64, Member)>|
            addresses@.len() >= MIN_BEACON_VALIDATORS && members@ == equal_members(
                addresses@,
                stake,
            ) ==> #[trigger] call_requires(new_genesis, (members,)),
    ensures
        if addresses@.len() < MIN_BEACON_VALIDATORS {
            result == Err::<BeaconPlan, _>(
                PlanError::<E>::Genesis(GenesisError::TooFewValidators),
            )
        } else {
            match result {
                Ok(plan) => {
                    &&& stake * addresses@.len() <= starting_supply
                    &&& plan.public_balances.wf()
                    &&& plan.public_balances@ == same_for_all(
                        addresses@,
                        beacon_share(starting_supply, stake, addresses@.len()),
                    )
                    &&& committee_made(
                        new_genesis,
                        addresses@,
                        stake,
                        plan.committee,
                    )
                    &&& plan.bonded_balances@ == self_bonded(plan.committee.members@)
                },
                Err(PlanError::Genesis(error)) => error == GenesisError::NotEnoughSupply && stake
                    * addresses@.len() > starting_supply && exists|committee: Committee| #[trigger]
                    committee_made(new_genesis, addresses@, stake, committee),
                Err(PlanError::Other(error)) => committee_refused(
                    new_genesis,
                    addresses@,
                    stake,
                    error,
                ),
            }
        },
{
    match check_num_validators(addresses.len()) {
        Ok(_) => {},
        Err(error) => {
            return Err(PlanError::Genesis(error));
        },
    }
    let members = members_with_equal_stake(addresses, stake);
    let committee = match new_genesis(members) {
        Ok(committee) => committee,
        Err(error) => {
            assert(committee_refused(new_genesis, addresses@, stake, error));
            return Err(PlanError::Other(error));
        },
    };
    assert(committee_made(new_genesis, addresses@, stake, committee));
    let public_balances = match beacon_public_balances(addresses, starting_supply, stake) {
        Ok(balances) => balances,
        Err(error) => {
            return Err(PlanError::Genesis(error));
        },
    };
    let bonded_balances = bonded_balances(&committee.members);
    Ok(BeaconPlan { committee, public_balances, bonded_balances })
}

/// The committee was made of validators with equal stake.
pub open spec fn committee_made<
    E,
    NewGenesis: FnOnce(Vec<(u64, Member)>) -> Result<Committee, E>,
>(new_genesis: NewGenesis, addresses: Seq<u64>, stake: u64, committee: Committee) -> bool {
    exists|members: Vec<(u64, Member)>|
        members@ == equal_members(addresses, stake) && #[trigger] call_ensures(
            new_genesis,
            (members,),
            Ok::<Committee, E>(committee),
        )
}

/// No committee was made of validators with equal stake.
pub open spec fn committee_refused<
    E,
    NewGenesis: FnOnce(Vec<(u64, Member)>) -> Result<Committee, E>,
>(new_genesis: NewGenesis, addresses: Seq<u64>, stake: u64, error: E) -> bool {
    exists|members: Vec<(u64, Member)>|
        members@ == equal_members(addresses, stake) && #[trigger] call_ensures(
            new_genesis,
            (members,),
            Err::<Committee, E>(error),
        )
}

/// A beacon chain of distinct validators that the starting supply suffices for has the right supply
/// exactly when what remains can be shared out evenly to the last unit.
pub proof fn law_beacon_supply(addresses: Seq<u64>, starting_supply: u64, stake: u64)
    requires
        addresses.len() > 0,
        addresses.no_duplicates(),
        stake * addresses.len() <= starting_supply,
    ensures
        ({
            let count = addresses.len() as int;
            let remaining = starting_supply - stake * count;
            let bonded = self_bonded(equal_members(addresses, stake));
            let balances = same_for_all(addresses, (remaining / count) as u64);
            supply_error(bonded, balances, starting_supply) is None <==> remaining % count == 0
        }),
{
    let count = addresses.len() as int;
    let remaining = starting_supply - stake * count;
    let share = remaining / count;
    lemma_distinct_addresses(addresses);
    vstd::arithmetic::div_mod::lemma_fundamental_div_mod(remaining, count);
    assert(0 <= share <= remaining) by (nonlinear_arith)
        requires
            share == remaining / count,
            remaining >= 0,
            count > 0,
    ;
    assert(remaining >= 0);
    let bonded = self_bonded(equal_members(addresses, stake));
    let balances = same_for_all(addresses, share as u64);
    lemma_sum_of_same(bonded_amounts(bonded), stake);
    lemma_sum_of_same(public_amounts(balances), share as u64);
    assert(count * stake == stake * count) by (nonlinear_arith);
}

/// The amount of a genesis transaction is the largest one of which twice as many as there are genesis
/// transactions can be paid from the balance: the transactions together transfer half of the balance,
/// up to the rest of the division. Where twice their number is more than a size can be, the largest
/// size takes its place.
pub proof fn law_transfers_are_paid_from_half_of_the_balance(balance: u64, num_transactions: usize)
    requires
        num_transactions > 0,
    ensures
        ({
            let amount = transfer_amount(balance, num_transactions) as int;
            let parts = if 2 * num_transactions <= usize::MAX {
                2 * num_transactions
            } else {
                usize::MAX as int
            };
            &&& amount * parts <= balance < (amount + 1) * parts
            &&& 2 * num_transactions <= usize::MAX ==> 2 * (amount * num_transactions) <= balance
        }),
{
    let amount = transfer_amount(balance, num_transactions) as int;
    let parts = if 2 * num_transactions <= usize::MAX {
        2 * num_transactions
    } else {
        usize::MAX as int
    };
    let given = balance as int;
    assert(amount == given / parts);
    assert(amount * parts <= given < (amount + 1) * parts) by (nonlinear_arith)
        requires
            amount == given / parts,
            parts > 0,
            given >= 0,
    ;
    if 2 * num_transactions <= usize::MAX {
        let count = num_transactions as int;
        assert(2 * (amount * count) == amount * parts) by (nonlinear_arith)
            requires
                parts == 2 * count,
        ;
    }
}

/// The sum of amounts is what adding them one after another gives.
pub proof fn law_sum_adds_all_amounts(amounts: Seq<u64>)
    ensures
        sum(amounts) == amounts.fold_left(0int, |total: int, amount: u64| total + amount),
    decreases amounts.len(),
{
    if amounts.len() > 0 {
        law_sum_adds_all_amounts(amounts.drop_last());
    }
}

/// The bonded amounts are added one after another.
proof fn lemma_bonded_sum(bonded: Seq<Bonded>)
    ensures
        sum(bonded_amounts(bonded)) == bonded.fold_left(
            0int,
            |total: int, entry: Bonded| total + entry.amount,
        ),
    decreases bonded.len(),
{
    if bonded.len() > 0 {
        lemma_bonded_sum(bonded.drop_last());
        assert(bonded_amounts(bonded).drop_last() =~= bonded_amounts(bonded.drop_last()));
    }
}

/// The public balances are added one after another.
proof fn lemma_public_sum(balances: Seq<(u64, u64)>)
    ensures
        sum(public_amounts(balances)) == balances.fold_left(
            0int,
            |total: int, entry: (u64, u64)| total + entry.1,
        ),
    decreases balances.len(),
{
    if balances.len() > 0 {
        lemma_public_sum(balances.drop_last());
        assert(public_amounts(balances).drop_last() =~= public_amounts(balances.drop_last()));
    }
}

/// A genesis block has the right supply exactly when all bonded amounts and all public balances
/// together are the starting supply. Else the error says which of the sums is more than an amount can
/// be, or what the supply is.
pub proof fn law_supply_is_all_that_is_bonded_or_public(
    bonded: Seq<Bonded>,
    balances: Seq<(u64, u64)>,
    starting_supply: u64,
)
    ensures
        ({
            let total_bonded = bonded.fold_left(
                0int,
                |total: int, entry: Bonded| total + entry.amount,
            );
            let total_public = balances.fold_left(
                0int,
                |total: int, entry: (u64, u64)| total + entry.1,
            );
            &&& supply_error(bonded, balances, starting_supply) is None <==> total_bonded
                + total_public == starting_supply
            &&& supply_error(bonded, balances, starting_supply) matches Some(error)
                ==> match error {
                GenesisError::InvalidBondedAmount => total_bonded > u64::MAX,
                GenesisError::InvalidAccountSupply => total_bonded <= u64::MAX && total_public
                    > u64::MAX,
                GenesisError::InvalidTotalSupply => total_bonded <= u64::MAX && total_public
                    <= u64::MAX && total_bonded + total_public > u64::MAX,
                GenesisError::WrongTotalSupply { found, expected } => found == total_bonded
                    + total_public && expected == starting_supply,
                _ => false,
            }
        }),
{
    lemma_bonded_sum(bonded);
    lemma_public_sum(balances);
}

/// Each member of a genesis committee bonds its own stake to itself, for itself.
pub proof fn law_members_bond_to_themselves(members: Seq<(u64, Member)>, i: int)
    requires
        0 <= i < members.len(),
    ensures
        self_bonded(members).len() == members.len(),
        self_bonded(members)[i].staker == members[i].0,
        self_bonded(members)[i].validator == members[i].0,
        self_bonded(members)[i].withdrawal == members[i].0,
        self_bonded(members)[i].amount == members[i].1.stake,
{
}

/// The genesis block of a plan comes of as many transactions as planned, each of which transfers the
/// planned amount to the planned caller. They were speculated on, on the genesis state, with nothing
/// ratified but the committee and the balances of the plan, without solutions and without a reward;
/// nothing was aborted, and the block was found to be a genesis block.
pub proof fn law_genesis_block_comes_of_its_plan<
    S,
    E,
    Execute: Fn(u64, u64) -> Result<u64, E>,
    Speculate: FnOnce(SpeculateArgs) -> Result<S, E>,
    Aborted: FnOnce(&S) -> Vec<u64>,
    NewBlock: FnOnce(&S) -> Result<Block, E>,
    IsGenesis: FnOnce(&Block) -> Result<bool, E>,
>(
    plan: GenesisPlan,
    execute: Execute,
    speculate: Speculate,
    aborted_transaction_ids: Aborted,
    new_block: NewBlock,
    is_genesis: IsGenesis,
    block: Block,
)
    requires
        made_block(
            plan,
            execute,
            speculate,
            aborted_transaction_ids,
            new_block,
            is_genesis,
            block,
            Ok::<bool, E>(true),
        ),
    ensures
        call_ensures(is_genesis, (&block,), Ok::<bool, E>(true)),
        exists|args: SpeculateArgs, speculation: S, aborted: Vec<u64>|
            {
                &&& #[trigger] call_ensures(speculate, (args,), Ok::<S, E>(speculation))
                &&& #[trigger] call_ensures(aborted_transaction_ids, (&speculation,), aborted)
                &&& aborted@.len() == 0
                &&& call_ensures(new_block, (&speculation,), Ok::<Block, E>(block))
                &&& args.transactions@.len() == plan.num_transactions
                &&& forall|i: int|
                    0 <= i < args.transactions@.len() ==> call_ensures(
                        execute,
                        (plan.caller, plan.amount),
                        Ok::<u64, E>(#[trigger] args.transactions@[i]),
                    )
                &&& args.state == FinalizeState::Genesis
                &&& args.time_since_last_block == 0
                &&& args.coinbase_reward is None
                &&& args.solutions@.len() == 0
                &&& args.keep is None
                &&& args.ratifications@.len() == 1
                &&& args.ratifications@[0] matches Ratify::Genesis {
                    committee,
                    public_balances,
                    bonded_balances,
                } && committee == plan.committee && public_balances == plan.public_balances
                    && bonded_balances == plan.bonded_balances
            },
{
    let speculation = choose|speculation: S| #[trigger]
        speculated_in_full(plan, execute, speculate, aborted_transaction_ids, speculation)
            && call_ensures(new_block, (&speculation,), Ok::<Block, E>(block));
    let aborted = choose|aborted: Vec<u64>| #[trigger]
        call_ensures(aborted_transaction_ids, (&speculation,), aborted) && aborted@.len() == 0;
    let (args, transactions) = choose|args: SpeculateArgs, transactions: Seq<u64>|
        {
            &&& transactions.len() == plan.num_transactions
            &&& #[trigger] all_executed(execute, plan, transactions)
            &&& speculates_genesis(args, plan, transactions)
            &&& #[trigger] call_ensures(speculate, (args,), Ok::<S, E>(speculation))
        };
    assert(args.ratifications@.len() == 1);
    assert(call_ensures(speculate, (args,), Ok::<S, E>(speculation)));
    assert(call_ensures(aborted_transaction_ids, (&speculation,), aborted));
}

/// The committee of a beacon chain is made of its validators: of each address once, with the given
/// stake.
pub proof fn law_beacon_committee_is_made_of_its_validators<
    E,
    NewGenesis: FnOnce(Vec<(u64, Member)>) -> Result<Committee, E>,
>(
    new_genesis: NewGenesis,
    addresses: Seq<u64>,
    stake: u64,
    committee: Committee,
)
    requires
        committee_made(new_genesis, addresses, stake, committee),
        addresses.no_duplicates(),
    ensures
        exists|members: Vec<(u64, Member)>|
            {
                &&& #[trigger] call_ensures(new_genesis, (members,), Ok::<Committee, E>(committee))
                &&& members@.len() == addresses.len()
                &&& forall|i: int|
                    0 <= i < members@.len() ==> (#[trigger] members@[i]).0 == addresses[i]
                        && members@[i].1.stake == stake && members@[i].1.is_open
                        && members@[i].1.commission == 0
            },
{
    lemma_distinct_addresses(addresses);
    let members = choose|members: Vec<(u64, Member)>|
        members@ == equal_members(addresses, stake) && #[trigger] call_ensures(
            new_genesis,
            (members,),
            Ok::<Committee, E>(committee),
        );
    assert(members@.len() == addresses.len());
}

/// The shares and the stakes of all validators of a beacon chain together are no more than the starting
/// supply, and less remains of it than there are validators.
pub proof fn law_shares_use_the_supply_up(starting_supply: u64, stake: u64, num_validators: nat)
    requires
        num_validators > 0,
        stake * num_validators <= starting_supply,
    ensures
        ({
            let used = (beacon_share(starting_supply, stake, num_validators) + stake)
                * num_validators;
            used <= starting_supply < used + num_validators
        }),
{
    let count = num_validators as int;
    let remaining = starting_supply - stake * count;
    let share = remaining / count;
    assert(0 <= share <= remaining) by (nonlinear_arith)
        requires
            share == remaining / count,
            remaining >= 0,
            count > 0,
    ;
    assert(share * count <= remaining < share * count + count) by (nonlinear_arith)
        requires
            share == remaining / count,
            remaining >= 0,
            count > 0,
    ;
    assert(beacon_share(starting_supply, stake, num_validators) == share);
    assert((share + stake) * count == share * count + stake * count) by (nonlinear_arith);
}

/// A beacon chain has at least four validators.
pub proof fn law_beacon_chain_has_four_validators(num_validators: usize)
    ensures
        num_validators >= MIN_BEACON_VALIDATORS <==> num_validators > 3,
{
}

/// Twice as many transfers as there are genesis transactions can be paid from the public balance of the
/// caller, but no more than a rest remains of it; and a caller without a balance is refused.
pub proof fn law_returned_amount_is_paid_from_half_of_the_balance(
    balances: IdMap,
    caller: u64,
    num_transactions: usize,
    result: Result<u64, GenesisError>,
)
    requires
        balances.wf(),
        num_transactions > 0,
        2 * num_transactions <= usize::MAX,
        call_ensures(genesis_transfer_amount, (&balances, caller, num_transactions), result),
    ensures
        match value_of(balances@, caller) {
            Some(balance) => result matches Ok(amount) && amount * (2 * num_transactions)
                <= balance < (amount + 1) * (2 * num_transactions),
            None => result == Err::<u64, _>(GenesisError::MissingBalance { address: caller }),
        },
{
    match value_of(balances@, caller) {
        Some(balance) => {
            law_transfers_are_paid_from_half_of_the_balance(balance, num_transactions);
        },
        None => {},
    }
}

/// A genesis block is planned only where all bonded amounts and public balances together are the
/// starting supply. Each of its transactions then transfers the largest amount of which twice as many
/// as there are transactions can be paid from the public balance of the caller.
pub proof fn law_planned_genesis_block_is_covered<E, Caller: FnOnce() -> Result<u64, E>>(
    committee: Committee,
    public_balances: IdMap,
    bonded_balances: Vec<Bonded>,
    starting_supply: u64,
    num_transactions: usize,
    caller: Caller,
    plan: GenesisPlan,
)
    requires
        num_transactions > 0,
        2 * num_transactions <= usize::MAX,
        call_ensures(
            genesis_quorum::<E, Caller>,
            (
                committee,
                public_balances,
                bonded_balances,
                starting_supply,
                num_transactions,
                caller,
            ),
            Ok::<GenesisPlan, PlanError<E>>(plan),
        ),
    ensures
        bonded_balances@.fold_left(0int, |total: int, entry: Bonded| total + entry.amount)
            + public_balances@.fold_left(0int, |total: int, entry: (u64, u64)| total + entry.1)
            == starting_supply,
        call_ensures(caller, (), Ok::<u64, E>(plan.caller)),
        plan.num_transactions == num_transactions,
        plan.committee == committee,
        plan.public_balances == public_balances,
        plan.bonded_balances == bonded_balances,
        value_of(public_balances@, plan.caller) matches Some(balance) && plan.amount * (2
            * num_transactions) <= balance < (plan.amount + 1) * (2 * num_transactions),
{
    law_supply_is_all_that_is_bonded_or_public(
        bonded_balances@,
        public_balances@,
        starting_supply,
    );
    if value_of(public_balances@, plan.caller) is Some {
        law_transfers_are_paid_from_half_of_the_balance(
            value_of(public_balances@, plan.caller)->0,
            num_transactions,
        );
    }
}

} // verus!
