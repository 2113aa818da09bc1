//! Selecting the records that pay.

use crate::id_map::{distinct_keys, has_key, keys_of, lemma_put, place_of, put, value_of, IdMap};
use crate::ledger::Ledger;
use vstd::prelude::*;

verus! {

/// What a record holds as its microcredits.
#[derive(Copy, Clone, Debug, PartialEq, Eq, Structural)]
pub enum Microcredits {
    /// A private unsigned 64-bit integer.
    Private(u64),
    /// Something else.
    Other,
    /// Nothing.
    Missing,
}

/// A record with its commitment.
#[derive(Copy, Clone, Debug, PartialEq, Eq, Structural)]
pub struct CreditsRecord {
    pub commitment: u64,
    /// The record belongs to the `credits.aleo` program.
    pub is_credits: bool,
    pub microcredits: Microcredits,
}

/// The private amount of microcredits that a record holds; zero when it holds none.
pub open spec fn amount_of(record: CreditsRecord) -> u64 {
    match record.microcredits {
        Microcredits::Private(amount) => amount,
        _ => 0,
    }
}

/// The amounts of the `credits.aleo` records by commitment, in order.
pub open spec fn credits_records(records: Seq<CreditsRecord>) -> Seq<(u64, u64)>
    decreases records.len(),
{
    if records.len() == 0 {
        Seq::empty()
    } else {
        let earlier = credits_records(records.drop_last());
        if records.last().is_credits {
            put(earlier, records.last().commitment, amount_of(records.last()))
        } else {
            earlier
        }
    }
}

/// One of the records is a `credits.aleo` record with the given commitment.
pub open spec fn has_credits_record(records: Seq<CreditsRecord>, commitment: u64) -> bool {
    exists|i: int|
        0 <= i < records.len() && (#[trigger] records[i]).commitment == commitment
            && records[i].is_credits
}

/// The `credits.aleo` records are found, and no others.
proof fn lemma_credits_records(records: Seq<CreditsRecord>, commitment: u64)
    ensures
        distinct_keys(credits_records(records)),
        has_key(credits_records(records), commitment) <==> has_credits_record(records, commitment),
    decreases records.len(),
{
    if records.len() > 0 {
        let rest = records.drop_last();
        let last = records.last();
        lemma_credits_records(rest, commitment);
        lemma_put(credits_records(rest), last.commitment, amount_of(last));
        let next = put(credits_records(rest), last.commitment, amount_of(last));
        assert(value_of(next, commitment) is Some <==> has_key(next, commitment));
        assert(value_of(credits_records(rest), commitment) is Some <==> has_key(
            credits_records(rest),
            commitment,
        ));
        if has_credits_record(rest, commitment) {
            let i = choose|i: int|
                0 <= i < rest.len() && (#[trigger] rest[i]).commitment == commitment
                    && rest[i].is_credits;
            assert(records[i] == rest[i]);
        }
        if last.is_credits && last.commitment == commitment {
            assert(records[records.len() - 1] == last);
        } else if has_credits_record(records, commitment) {
            let i = choose|i: int|
                0 <= i < records.len() && (#[trigger] records[i]).commitment == commitment
                    && records[i].is_credits;
            assert(rest[i] == records[i]);
        }
    }
}

/// Returns the unspent `credits.aleo` records: the private amounts of microcredits that they hold, by
/// commitment.
pub fn find_unspent_credits_records(unspent: &Vec<CreditsRecord>) -> (records: IdMap)
    ensures
        records.wf(),
        records@ == credits_records(unspent@),
        forall|c: u64|
            has_key(records@, c) <==> exists|i: int|
                0 <= i < unspent@.len() && unspent@[i].commitment == c && unspent@[i].is_credits,
{
    let mut records = IdMap::new();
    let mut i: usize = 0;
    proof {
        assert(unspent@.take(0) =~= Seq::empty());
    }
    while i < unspent.len()
        invariant
            i <= unspent@.len(),
            records.wf(),
            records@ == credits_records(unspent@.take(i as int)),
        decreases unspent@.len() - i,
    {
        let record = unspent[i];
        proof {
            assert(unspent@.take(i + 1).drop_last() =~= unspent@.take(i as int));
            assert(unspent@.take(i + 1).last() == record);
            lemma_put(records@, record.commitment, amount_of(record));
        }
        if record.is_credits {
            let amount = match record.microcredits {
                Microcredits::Private(amount) => amount,
                _ => 0,
            };
            records.insert(record.commitment, amount);
        }
        i = i + 1;
    }
    proof {
        assert(unspent@.take(unspent@.len() as int) =~= unspent@);
        assert forall|c: u64|
            has_key(records@, c) <==> exists|i: int|
                0 <= i < unspent@.len() && unspent@[i].commitment == c && unspent@[i].is_credits by {
            lemma_credits_records(unspent@, c);
            assert(has_credits_record(unspent@, c) <==> exists|i: int|
                0 <= i < unspent@.len() && unspent@[i].commitment == c && unspent@[i].is_credits);
        }
    }
    records
}

/// The records that hold an amount, in order.
pub open spec fn spendable(records: Seq<(u64, u64)>) -> Seq<(u64, u64)> {
    records.filter(|record: (u64, u64)| record.1 != 0)
}

/// Returns the commitments of the records that hold an amount, in order.
fn spendable_commitments(records: &IdMap) -> (commitments: Vec<u64>)
    ensures
        commitments@ == keys_of(spendable(records@)),
{
    let ghost holds_amount = |record: (u64, u64)| record.1 != 0;
    let mut commitments: Vec<u64> = Vec::new();
    let mut i: usize = 0;
    proof {
        reveal(Seq::filter);
        assert(records@.take(0).filter(holds_amount) =~= Seq::empty());
        assert(commitments@ =~= keys_of(records@.take(0).filter(holds_amount)));
    }
    while i < records.len()
        invariant
            i <= records@.len(),
            holds_amount == (|record: (u64, u64)| record.1 != 0),
            commitments@ == keys_of(records@.take(i as int).filter(holds_amount)),
        decreases records@.len() - i,
    {
        let (commitment, amount) = records.entry_at(i);
        proof {
            reveal(Seq::filter);
            assert(records@.take(i + 1).drop_last() =~= records@.take(i as int));
            assert(records@.take(i + 1).last() == (commitment, amount));
        }
        if amount != 0 {
            commitments.push(commitment);
        }
        i = i + 1;
        proof {
            assert(commitments@ =~= keys_of(
                records@.take(i as int).filter(holds_amount),
            ));
        }
    }
    proof {
        assert(records@.take(records@.len() as int) =~= records@);
    }
    commitments
}

/// Why a transaction cannot be paid for.
#[derive(Copy, Clone, Debug, PartialEq, Eq, Structural)]
pub enum RecordsError {
    /// The account has no records to spend.
    NoRecords,
    /// The account does not have enough records to spend.
    NotEnoughRecords,
}

/// Returns the commitment of the record that pays the fee of a deploy transaction: the first one that
/// holds an amount.
pub fn deploy_fee_record(records: &IdMap) -> (result: Result<u64, RecordsError>)
    ensures
        if spendable(records@).len() == 0 {
            result == Err::<u64, _>(RecordsError::NoRecords)
        } else {
            result == Ok::<_, RecordsError>(spendable(records@)[0].0)
        },
{
    let commitments = spendable_commitments(records);
    if commitments.len() == 0 {
        return Err(RecordsError::NoRecords);
    }
    Ok(commitments[0])
}

/// Returns the commitments of the records of a transfer transaction, among those that hold an amount:
/// the first one is transferred, and the second one pays the fee.
pub fn transfer_records(records: &IdMap) -> (result: Result<(u64, u64), RecordsError>)
    ensures
        if spendable(records@).len() < 2 {
            result == Err::<(u64, u64), _>(RecordsError::NotEnoughRecords)
        } else {
            result == Ok::<_, RecordsError>((spendable(records@)[0].0, spendable(records@)[1].0))
        },
{
    let commitments = spendable_commitments(records);
    if commitments.len() < 2 {
        return Err(RecordsError::NotEnoughRecords);
    }
    Ok((commitments[0], commitments[1]))
}

/// A record that holds an amount is one of those given.
proof fn lemma_spendable(records: Seq<(u64, u64)>, i: int)
    requires
        0 <= i < spendable(records).len(),
    ensures
        spendable(records)[i].1 != 0,
        has_key(records, spendable(records)[i].0),
    decreases records.len(),
{
    reveal(Seq::filter);
    let rest = records.drop_last();
    if i < spendable(rest).len() {
        lemma_spendable(rest, i);
        let j = place_of(rest, spendable(rest)[i].0);
        assert(records[j] == rest[j]);
    } else {
        assert(records[records.len() - 1] == records.last());
    }
}

/// Every record that pays is one of the unspent `credits.aleo` records, and holds an amount.
pub proof fn law_paying_records_hold_amounts(records: Seq<CreditsRecord>, i: int)
    requires
        0 <= i < spendable(credits_records(records)).len(),
    ensures
        spendable(credits_records(records))[i].1 != 0,
        has_credits_record(records, spendable(credits_records(records))[i].0),
{
    lemma_spendable(credits_records(records), i);
    lemma_credits_records(records, spendable(credits_records(records))[i].0);
}

/// Why there is no transaction.
#[derive(Debug)]
pub enum PaymentError<E> {
    /// The records of the account do not pay for it.
    Records(RecordsError),
    /// The records could not be found, or the transaction could not be created.
    Other(E),
}

/// Creating a deploy transaction from the unspent records gave `outcome`.
pub open spec fn deploy_outcome<E, Deploy: FnOnce(u64, u64) -> Result<u64, E>>(
    unspent: Seq<CreditsRecord>,
    priority_fee: u64,
    deploy: Deploy,
    outcome: Result<u64, PaymentError<E>>,
) -> bool {
    let records = spendable(credits_records(unspent));
    if records.len() == 0 {
        outcome == Err::<u64, _>(PaymentError::<E>::Records(RecordsError::NoRecords))
    } else {
        match outcome {
            Ok(transaction) => call_ensures(
                deploy,
                (records[0].0, priority_fee),
                Ok::<u64, E>(transaction),
            ),
            Err(PaymentError::Other(error)) => call_ensures(
                deploy,
                (records[0].0, priority_fee),
                Err::<u64, E>(error),
            ),
            Err(PaymentError::Records(_)) => false,
        }
    }
}

/// Creating a transfer transaction from the unspent records gave `outcome`.
pub open spec fn transfer_outcome<E, Transfer: FnOnce(u64, u64, u64, u64, u64) -> Result<u64, E>>(
    unspent: Seq<CreditsRecord>,
    to: u64,
    amount: u64,
    priority_fee: u64,
    transfer: Transfer,
    outcome: Result<u64, PaymentError<E>>,
) -> bool {
    let records = spendable(credits_records(unspent));
    if records.len() < 2 {
        outcome == Err::<u64, _>(PaymentError::<E>::Records(RecordsError::NotEnoughRecords))
    } else {
        match outcome {
            Ok(transaction) => call_ensures(
                transfer,
                (records[0].0, to, amount, records[1].0, priority_fee),
                Ok::<u64, E>(transaction),
            ),
            Err(PaymentError::Other(error)) => call_ensures(
                transfer,
                (records[0].0, to, amount, records[1].0, priority_fee),
                Err::<u64, E>(error),
            ),
            Err(PaymentError::Records(_)) => false,
        }
    }
}

/// The unspent records of an account could not be found.
pub open spec fn finding_failed<E, Find: FnOnce() -> Result<Vec<CreditsRecord>, E>>(
    find_records: Find,
    outcome: Result<u64, PaymentError<E>>,
) -> bool {
    outcome matches Err(PaymentError::Other(error)) && call_ensures(
        find_records,
        (),
        Err::<Vec<CreditsRecord>, E>(error),
    )
}

impl Ledger {
    /// Creates a deploy transaction. `find_records` returns the unspent records of the account, and
    /// `deploy` takes the record that pays the fee and the priority fee, which is an additional fee
    /// **on top** of the deployment fee.
    pub fn create_deploy<
        E,
        Find: FnOnce() -> Result<Vec<CreditsRecord>, E>,
        Deploy: FnOnce(u64, u64) -> Result<u64, E>,
    >(&self, priority_fee: u64, find_records: Find, deploy: Deploy) -> (result: Result<
        u64,
        PaymentError<E>,
    >)
        requires
            call_requires(find_records, ()),
            // Only an account that has a record to spend deploys, and it pays with the first one.
            forall|unspent: Vec<CreditsRecord>|
                #[trigger] call_ensures(find_records, (), Ok::<Vec<CreditsRecord>, E>(unspent))
                    && spendable(credits_records(unspent@)).len() > 0 ==> call_requires(
                    deploy,
                    (spendable(credits_records(unspent@))[0].0, priority_fee),
                ),
        ensures
            finding_failed(find_records, result) || exists|unspent: Vec<CreditsRecord>|
                #[trigger]
                call_ensures(find_records, (), Ok::<Vec<CreditsRecord>, E>(unspent))
                    && deploy_outcome(unspent@, priority_fee, deploy, result),
    {
        let found = find_records();
        let unspent = match found {
            Ok(unspent) => unspent,
            Err(error) => {
                return Err(PaymentError::Other(error));
            },
        };
        assert(call_ensures(find_records, (), Ok::<Vec<CreditsRecord>, E>(unspent)));
        let records = find_unspent_credits_records(&unspent);
        let result = match deploy_fee_record(&records) {
            Ok(fee_record) => match deploy(fee_record, priority_fee) {
                Ok(transaction) => Ok(transaction),
                Err(error) => Err(PaymentError::Other(error)),
            },
            Err(error) => Err(PaymentError::Records(error)),
        };
        assert(deploy_outcome(unspent@, priority_fee, deploy, result));
        result
    }

    /// Creates a transfer transaction. `find_records` returns the unspent records of the account, and
    /// `transfer` takes the record that is transferred, the receiver, the amount, the record that pays
    /// the fee and the priority fee, which is an additional fee **on top** of the execution fee.
    pub fn create_transfer<
        E,
        Find: FnOnce() -> Result<Vec<CreditsRecord>, E>,
        Transfer: FnOnce(u64, u64, u64, u64, u64) -> Result<u64, E>,
    >(
        &self,
        to: u64,
        amount: u64,
        priority_fee: u64,
        find_records: Find,
        transfer: Transfer,
    ) -> (result: Result<u64, PaymentError<E>>)
        requires
            call_requires(find_records, ()),
            // Only an account that has two records to spend transfers: the first one is transferred,
            // and the second one pays.
            forall|unspent: Vec<CreditsRecord>|
                #[trigger] call_ensures(find_records, (), Ok::<Vec<CreditsRecord>, E>(unspent))
                    && spendable(credits_records(unspent@)).len() >= 2 ==> call_requires(
                    transfer,
                    (
                        spendable(credits_records(unspent@))[0].0,
                        to,
                        amount,
                        spendable(credits_records(unspent@))[1].0,
                        priority_fee,
                    ),
                ),
        ensures
            finding_failed(find_records, result) || exists|unspent: Vec<CreditsRecord>|
                #[trigger]
                call_ensures(find_records, (), Ok::<Vec<CreditsRecord>, E>(unspent))
                    && transfer_outcome(unspent@, to, amount, priority_fee, transfer, result),
    {
        let found = find_records();
        let unspent = match found {
            Ok(unspent) => unspent,
            Err(error) => {
                return Err(PaymentError::Other(error));
            },
        };
        assert(call_ensures(find_records, (), Ok::<Vec<CreditsRecord>, E>(unspent)));
        let records = find_unspent_credits_records(&unspent);
        let result = match transfer_records(&records) {
            Ok((record, fee_record)) => match transfer(
                record,
                to,
                amount,
                fee_record,
                priority_fee,
            ) {
                Ok(transaction) => Ok(transaction),
                Err(error) => Err(PaymentError::Other(error)),
            },
            Err(error) => Err(PaymentError::Records(error)),
        };
        assert(transfer_outcome(unspent@, to, amount, priority_fee, transfer, result));
        result
    }
}

/// A `credits.aleo` record is found with the private amount that it holds, or with none, unless a later
/// one has the same commitment.
pub proof fn law_records_are_found_with_their_amounts(records: Seq<CreditsRecord>, i: int)
    requires
        0 <= i < records.len(),
        records[i].is_credits,
        forall|j: int|
            i < j < records.len() && (#[trigger] records[j]).is_credits ==> records[j].commitment
                != records[i].commitment,
    ensures
        records[i].microcredits matches Microcredits::Private(amount) ==> value_of(
            credits_records(records),
            records[i].commitment,
        ) == Some(amount),
        !(records[i].microcredits is Private) ==> value_of(
            credits_records(records),
            records[i].commitment,
        ) == Some(0u64),
    decreases records.len(),
{
    let rest = records.drop_last();
    let last = records.last();
    lemma_credits_records(rest, last.commitment);
    if last.is_credits {
        lemma_put(credits_records(rest), last.commitment, amount_of(last));
    }
    if i < rest.len() {
        assert forall|j: int| i < j < rest.len() && (#[trigger] rest[j]).is_credits implies
            rest[j].commitment != rest[i].commitment by {
            assert(rest[j] == records[j]);
        }
        assert(rest[i] == records[i]);
        assert(records[records.len() - 1] == last);
        law_records_are_found_with_their_amounts(rest, i);
    }
}

/// The records that can be spent are those that hold an amount, and all of those.
pub proof fn law_every_amount_can_be_spent(records: Seq<(u64, u64)>, record: (u64, u64))
    ensures
        spendable(records).contains(record) <==> records.contains(record) && record.1 > 0,
    decreases records.len(),
{
    reveal(Seq::filter);
    if records.len() > 0 {
        let rest = records.drop_last();
        let last = records.last();
        law_every_amount_can_be_spent(rest, record);
        assert(records =~= rest.push(last));
        assert(records.contains(record) <==> rest.contains(record) || record == last) by {
            if rest.contains(record) {
                let j = choose|j: int| 0 <= j < rest.len() && rest[j] == record;
                assert(records[j] == record);
            }
            assert(records[records.len() - 1] == last);
            if records.contains(record) && record != last {
                let j = choose|j: int| 0 <= j < records.len() && records[j] == record;
                assert(rest[j] == record);
            }
        }
        if last.1 != 0 {
            let before = spendable(rest);
            assert(spendable(records) =~= before.push(last));
            if before.contains(record) {
                let j = choose|j: int| 0 <= j < before.len() && before[j] == record;
                assert(spendable(records)[j] == record);
            }
            assert(spendable(records)[before.len() as int] == last);
            if spendable(records).contains(record) && record != last {
                let j = choose|j: int|
                    0 <= j < spendable(records).len() && spendable(records)[j] == record;
                assert(before[j] == record);
            }
        }
    }
}

/// The records that can be spent keep their order.
pub proof fn law_spendable_records_keep_their_order(
    some: Seq<(u64, u64)>,
    others: Seq<(u64, u64)>,
)
    ensures
        spendable(some + others) == spendable(some) + spendable(others),
{
    Seq::filter_distributes_over_add(some, others, |record: (u64, u64)| record.1 != 0);
}

/// The places of two records that can be spent are in order, and their commitments differ.
proof fn lemma_spendable_are_distinct(records: Seq<(u64, u64)>, i: int, j: int)
    requires
        distinct_keys(records),
        0 <= i < j < spendable(records).len(),
    ensures
        spendable(records)[i].0 != spendable(records)[j].0,
    decreases records.len(),
{
    reveal(Seq::filter);
    let rest = records.drop_last();
    assert forall|a: int, b: int|
        0 <= a < rest.len() && 0 <= b < rest.len() && a != b implies (#[trigger] rest[a]).0 != (
    #[trigger] rest[b]).0 by {
        assert(rest[a] == records[a] && rest[b] == records[b]);
    }
    if j < spendable(rest).len() {
        lemma_spendable_are_distinct(rest, i, j);
    } else {
        lemma_spendable(rest, i);
        let p = place_of(rest, spendable(rest)[i].0);
        assert(rest[p] == records[p]);
        assert(records[records.len() - 1] == records.last());
    }
}

/// A deploy transaction is paid with one of the `credits.aleo` records, which holds an amount; and an
/// account is refused only when it has no such record.
pub proof fn law_deploy_is_paid_with_an_amount<E, Deploy: FnOnce(u64, u64) -> Result<u64, E>>(
    unspent: Seq<CreditsRecord>,
    priority_fee: u64,
    deploy: Deploy,
    outcome: Result<u64, PaymentError<E>>,
)
    requires
        deploy_outcome(unspent, priority_fee, deploy, outcome),
    ensures
        outcome matches Ok(transaction) ==> exists|record: (u64, u64)|
            {
                &&& #[trigger] credits_records(unspent).contains(record)
                &&& record.1 > 0
                &&& call_ensures(deploy, (record.0, priority_fee), Ok::<u64, E>(transaction))
            },
        outcome matches Err(PaymentError::Records(error)) <==> forall|record: (u64, u64)|
            credits_records(unspent).contains(record) ==> record.1 == 0,
{
    let records = credits_records(unspent);
    let found = spendable(records);
    if found.len() > 0 {
        law_every_amount_can_be_spent(records, found[0]);
        assert(found.contains(found[0]));
        assert(records.contains(found[0]) && found[0].1 > 0);
    } else {
        assert forall|record: (u64, u64)| records.contains(record) implies record.1 == 0 by {
            law_every_amount_can_be_spent(records, record);
        }
    }
}

/// A transfer transaction moves one `credits.aleo` record and is paid with another: both hold an amount.
/// It carries the given receiver, amount and priority fee. An account is refused only when it has fewer
/// than two such records.
pub proof fn law_transfer_takes_two_records<
    E,
    Transfer: FnOnce(u64, u64, u64, u64, u64) -> Result<u64, E>,
>(
    unspent: Seq<CreditsRecord>,
    to: u64,
    amount: u64,
    priority_fee: u64,
    transfer: Transfer,
    outcome: Result<u64, PaymentError<E>>,
)
    requires
        transfer_outcome(unspent, to, amount, priority_fee, transfer, outcome),
    ensures
        outcome matches Ok(transaction) ==> exists|record: (u64, u64), fee_record: (u64, u64)|
            {
                &&& #[trigger] credits_records(unspent).contains(record)
                &&& #[trigger] credits_records(unspent).contains(fee_record)
                &&& record.1 > 0 && fee_record.1 > 0 && record.0 != fee_record.0
                &&& call_ensures(
                    transfer,
                    (record.0, to, amount, fee_record.0, priority_fee),
                    Ok::<u64, E>(transaction),
                )
            },
        outcome matches Err(PaymentError::Records(error)) ==> forall|
            record: (u64, u64),
            other: (u64, u64),
        |
            credits_records(unspent).contains(record) && credits_records(unspent).contains(other)
                && record.1 > 0 && other.1 > 0 ==> record == other,
{
    let records = credits_records(unspent);
    let found = spendable(records);
    lemma_credits_records(unspent, 0);
    if found.len() >= 2 {
        law_every_amount_can_be_spent(records, found[0]);
        law_every_amount_can_be_spent(records, found[1]);
        assert(found.contains(found[0]) && found.contains(found[1]));
        lemma_spendable_are_distinct(records, 0, 1);
        assert(records.contains(found[0]) && records.contains(found[1]));
    } else {
        assert forall|record: (u64, u64), other: (u64, u64)|
            records.contains(record) && records.contains(other) && record.1 > 0 && other.1
                > 0 implies record == other by {
            law_every_amount_can_be_spent(records, record);
            law_every_amount_can_be_spent(records, other);
        }
    }
}

/// Where the transfer takes two records, the one that is transferred comes before the one that pays.
pub proof fn law_first_record_is_transferred(records: Seq<(u64, u64)>, first: int, second: int)
    requires
        0 <= first < second < records.len(),
        records[first].1 > 0,
        records[second].1 > 0,
        forall|i: int| 0 <= i < second && i != first ==> (#[trigger] records[i]).1 == 0,
    ensures
        spendable(records).len() >= 2,
        spendable(records)[0] == records[first],
        spendable(records)[1] == records[second],
{
    let nothing = records.take(first);
    let between = records.subrange(first + 1, second);
    lemma_nothing_to_spend(nothing);
    lemma_nothing_to_spend(between);
    reveal(Seq::filter);
    let one = seq![records[first]];
    let other = seq![records[second]];
    assert(one.drop_last() =~= Seq::empty() && other.drop_last() =~= Seq::empty());
    assert(spendable(one.drop_last()) =~= Seq::empty());
    assert(spendable(other.drop_last()) =~= Seq::empty());
    assert(spendable(one) =~= one);
    assert(spendable(other) =~= other);
    let rest = records.skip(second + 1);
    assert(records =~= nothing + one + between + other + rest);
    law_spendable_records_keep_their_order(nothing + one + between + other, rest);
    law_spendable_records_keep_their_order(nothing + one + between, other);
    law_spendable_records_keep_their_order(nothing + one, between);
    law_spendable_records_keep_their_order(nothing, one);
    assert(spendable(records) =~= one + other + spendable(rest));
}

/// Records without an amount cannot be spent.
proof fn lemma_nothing_to_spend(records: Seq<(u64, u64)>)
    requires
        forall|i: int| 0 <= i < records.len() ==> (#[trigger] records[i]).1 == 0,
    ensures
        spendable(records) == Seq::<(u64, u64)>::empty(),
    decreases records.len(),
{
    reveal(Seq::filter);
    if records.len() > 0 {
        lemma_nothing_to_spend(records.drop_last());
    }
}

} // verus!
