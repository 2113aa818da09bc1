//! Committees, and those whose members all have the same stake.

use crate::id_map::{has_key, place_of, IdMap};
use rand::SeedableRng;
use rand_chacha::ChaChaRng;
use vstd::prelude::*;

verus! {

/// A member of a committee: its stake, whether it is open to delegators, and its commission.
#[derive(Copy, Clone, Debug, PartialEq, Eq, Structural)]
pub struct Member {
    pub stake: u64,
    pub is_open: bool,
    pub commission: u8,
}

/// A committee: the round it starts at, and its members by address, in order.
#[derive(Debug)]
pub struct Committee {
    pub starting_round: u64,
    pub members: Vec<(u64, Member)>,
}

/// A bonded balance: who bonds, to which validator, for which withdrawal address, and how much.
#[derive(Copy, Clone, Debug, PartialEq, Eq, Structural)]
pub struct Bonded {
    pub staker: u64,
    pub validator: u64,
    pub withdrawal: u64,
    pub amount: u64,
}

impl Committee {
    /// Returns a committee with the same round and the same members.
    pub fn copy(&self) -> (other: Committee)
        ensures
            other.starting_round == self.starting_round,
            other.members@ == self.members@,
    {
        let mut members: Vec<(u64, Member)> = Vec::new();
        let mut i: usize = 0;
        while i < self.members.len()
            invariant
                i <= self.members@.len(),
                members@ == self.members@.take(i as int),
            decreases self.members@.len() - i,
        {
            members.push(self.members[i]);
            i = i + 1;
            proof {
                assert(members@ =~= self.members@.take(i as int));
            }
        }
        proof {
            assert(members@ =~= self.members@);
        }
        Committee { starting_round: self.starting_round, members }
    }
}

/// The addresses in order, each where it occurs first.
pub open spec fn first_occurrences(addresses: Seq<u64>) -> Seq<u64>
    decreases addresses.len(),
{
    if addresses.len() == 0 {
        Seq::empty()
    } else {
        let earlier = first_occurrences(addresses.drop_last());
        if earlier.contains(addresses.last()) {
            earlier
        } else {
            earlier.push(addresses.last())
        }
    }
}

/// Addresses that all differ are their own first occurrences.
pub proof fn lemma_distinct_addresses(addresses: Seq<u64>)
    requires
        addresses.no_duplicates(),
    ensures
        first_occurrences(addresses) == addresses,
    decreases addresses.len(),
{
    if addresses.len() > 0 {
        let rest = addresses.drop_last();
        assert(rest.no_duplicates()) by {
            assert forall|i: int, j: int|
                0 <= i < rest.len() && 0 <= j < rest.len() && i != j implies rest[i] != rest[j] by {
                assert(rest[i] == addresses[i] && rest[j] == addresses[j]);
            }
        }
        lemma_distinct_addresses(rest);
        assert(!rest.contains(addresses.last())) by {
            if rest.contains(addresses.last()) {
                let i = choose|i: int| 0 <= i < rest.len() && rest[i] == addresses.last();
                assert(addresses[i] == addresses[addresses.len() - 1]);
            }
        }
        assert(rest.push(addresses.last()) =~= addresses);
    }
}

/// The given addresses, each once, with the same value for all.
pub open spec fn same_for_all(addresses: Seq<u64>, value: u64) -> Seq<(u64, u64)> {
    first_occurrences(addresses).map_values(|address: u64| (address, value))
}

/// Maps each of the given addresses to the same value.
pub fn map_to_same(addresses: &Vec<u64>, value: u64) -> (map: IdMap)
    ensures
        map.wf(),
        map@ == same_for_all(addresses@, value),
{
    let mut map = IdMap::new();
    let mut i: usize = 0;
    proof {
        assert(addresses@.take(0) =~= Seq::empty());
        assert(map@ =~= same_for_all(addresses@.take(0), value));
    }
    while i < addresses.len()
        invariant
            i <= addresses@.len(),
            map.wf(),
            map@ == same_for_all(addresses@.take(i as int), value),
        decreases addresses@.len() - i,
    {
        let address = addresses[i];
        let ghost before = map@;
        let ghost earlier = first_occurrences(addresses@.take(i as int));
        map.insert(address, value);
        i = i + 1;
        proof {
            assert(addresses@.take(i as int).drop_last() =~= addresses@.take(i - 1));
            assert(addresses@.take(i as int).last() == address);
            if has_key(before, address) {
                let p = place_of(before, address);
                assert(before[p].0 == address);
                assert(earlier[p] == address);
                assert(map@ =~= before);
            } else if earlier.contains(address) {
                let p = choose|p: int| 0 <= p < earlier.len() && earlier[p] == address;
                assert(before[p].0 == address);
            } else {
                assert(map@ =~= same_for_all(addresses@.take(i as int), value));
            }
        }
    }
    proof {
        assert(addresses@.take(addresses@.len() as int) =~= addresses@);
    }
    map
}

/// The members of a committee in which each of the given addresses has the given stake, is open to
/// delegators and takes no commission.
pub open spec fn equal_members(addresses: Seq<u64>, stake: u64) -> Seq<(u64, Member)> {
    first_occurrences(addresses).map_values(
        |address: u64| (address, Member { stake, is_open: true, commission: 0 }),
    )
}

/// Returns the members of a committee in which each of the given addresses has the given stake, is
/// open to delegators and takes no commission.
pub fn members_with_equal_stake(addresses: &Vec<u64>, stake: u64) -> (members: Vec<(u64, Member)>)
    ensures
        members@ == equal_members(addresses@, stake),
{
    let stakes = map_to_same(addresses, stake);
    let mut members: Vec<(u64, Member)> = Vec::new();
    let mut i: usize = 0;
    while i < stakes.len()
        invariant
            i <= stakes@.len(),
            stakes@ == same_for_all(addresses@, stake),
            members@ == equal_members(addresses@, stake).take(i as int),
        decreases stakes@.len() - i,
    {
        let (address, stake) = stakes.entry_at(i);
        members.push((address, Member { stake, is_open: true, commission: 0 }));
        i = i + 1;
        proof {
            assert(members@ =~= equal_members(addresses@, stake).take(i as int));
        }
    }
    proof {
        assert(members@ =~= equal_members(addresses@, stake));
    }
    members
}

/// A generator of random numbers: the seed of its stream, and how many words of it were drawn.
#[derive(Copy, Clone, Debug)]
pub struct Generator {
    pub seed: [u8; 32],
    pub word_pos: u128,
}

/// The seed that `ChaChaRng::seed_from_u64` expands a number to.
pub uninterp spec fn expanded_seed(seed: u64) -> [u8; 32];

/// Wraps `ChaChaRng::seed_from_u64`, which expands a number to the seed of a generator, and
/// `ChaChaRng::get_seed`, which returns that seed: it is determined by the number.
#[verifier::external_body]
fn expand_seed(seed: u64) -> (expanded: [u8; 32])
    ensures
        expanded == expanded_seed(seed),
{
    ChaChaRng::seed_from_u64(seed).get_seed()
}

/// The generator of a number, from which nothing was drawn.
pub open spec fn seeded_generator(seed: u64) -> Generator {
    Generator { seed: expanded_seed(seed), word_pos: 0 }
}

/// The keys were drawn in order: the first from the generator of the seed, each later one from the
/// generator that the one before it left.
pub open spec fn keys_drawn<E, NewKey: Fn(Generator) -> Result<(u64, Generator), E>>(
    new_key: NewKey,
    seed: u64,
    generators: Seq<Generator>,
    keys: Seq<u64>,
) -> bool {
    &&& generators.len() == keys.len() + 1
    &&& generators[0] == seeded_generator(seed)
    &&& forall|i: int|
        0 <= i < keys.len() ==> call_ensures(
            new_key,
            (#[trigger] generators[i],),
            Ok::<(u64, Generator), E>((keys[i], generators[i + 1])),
        )
}

/// The addresses are those of the first keys, in order.
pub open spec fn addresses_derived<E, Address: Fn(u64) -> Result<u64, E>>(
    address: Address,
    keys: Seq<u64>,
    addresses: Seq<u64>,
) -> bool {
    &&& addresses.len() <= keys.len()
    &&& forall|i: int|
        0 <= i < addresses.len() ==> call_ensures(
            address,
            (#[trigger] keys[i],),
            Ok::<u64, E>(addresses[i]),
        )
}

/// The addresses are those of the keys that were drawn for the given number of validators.
pub open spec fn dev_addresses<
    E,
    NewKey: Fn(Generator) -> Result<(u64, Generator), E>,
    Address: Fn(u64) -> Result<u64, E>,
>(
    new_key: NewKey,
    address: Address,
    dev_num_validators: u16,
    seed: u64,
    addresses: Seq<u64>,
) -> bool {
    &&& addresses.len() == dev_num_validators
    &&& exists|generators: Seq<Generator>, keys: Seq<u64>| #[trigger]
        keys_drawn(new_key, seed, generators, keys) && keys.len() == dev_num_validators
            && addresses_derived(address, keys, addresses)
}

/// A key could not be drawn, or its address could not be derived.
pub open spec fn dev_addresses_failed<
    E,
    NewKey: Fn(Generator) -> Result<(u64, Generator), E>,
    Address: Fn(u64) -> Result<u64, E>,
>(new_key: NewKey, address: Address, dev_num_validators: u16, seed: u64, error: E) -> bool {
    exists|generators: Seq<Generator>, keys: Seq<u64>| #[trigger]
        keys_drawn(new_key, seed, generators, keys) && stops_with(
            new_key,
            address,
            dev_num_validators,
            generators,
            keys,
            error,
        )
}

/// After the given keys were drawn, the next one could not be; or all were drawn, and the address of
/// one could not be derived, while those of the earlier ones could.
pub open spec fn stops_with<
    E,
    NewKey: Fn(Generator) -> Result<(u64, Generator), E>,
    Address: Fn(u64) -> Result<u64, E>,
>(
    new_key: NewKey,
    address: Address,
    dev_num_validators: u16,
    generators: Seq<Generator>,
    keys: Seq<u64>,
    error: E,
) -> bool {
    ||| keys.len() < dev_num_validators && call_ensures(
        new_key,
        (generators.last(),),
        Err::<(u64, Generator), E>(error),
    )
    ||| keys.len() == dev_num_validators && exists|addresses: Seq<u64>|
        {
            &&& #[trigger] addresses_derived(address, keys, addresses)
            &&& addresses.len() < keys.len()
            &&& call_ensures(address, (keys[addresses.len() as int],), Err::<u64, E>(error))
        }
}

/// The committee has the members of the given addresses, each with the given stake.
pub open spec fn equal_committee(
    committee: Committee,
    start_round: u64,
    addresses: Seq<u64>,
    stake: u64,
) -> bool {
    &&& committee.starting_round == start_round
    &&& committee.members@ == equal_members(addresses, stake)
}

/// The calls that the addresses of a dev committee take: a key is drawn from the generator that the one
/// before it left, until there are enough; and then the address of each is derived, in order.
pub open spec fn may_draw<
    E,
    NewKey: Fn(Generator) -> Result<(u64, Generator), E>,
    Address: Fn(u64) -> Result<u64, E>,
>(new_key: NewKey, address: Address, dev_num_validators: u16, seed: u64) -> bool {
    &&& forall|generators: Seq<Generator>, keys: Seq<u64>|
        #[trigger] keys_drawn(new_key, seed, generators, keys) && keys.len() < dev_num_validators
            ==> call_requires(new_key, (generators.last(),))
    &&& forall|generators: Seq<Generator>, keys: Seq<u64>, addresses: Seq<u64>|
        #[trigger] keys_drawn(new_key, seed, generators, keys) && keys.len() == dev_num_validators
            && #[trigger] addresses_derived(address, keys, addresses) && addresses.len()
            < keys.len() ==> call_requires(address, (keys[addresses.len() as int],))
}

/// Draws the keys of the validators of a dev committee, and returns their addresses.
fn draw_dev_addresses<
    E,
    NewKey: Fn(Generator) -> Result<(u64, Generator), E>,
    Address: Fn(u64) -> Result<u64, E>,
>(dev_num_validators: u16, seed: u64, new_key: &NewKey, address: &Address) -> (result: Result<
    Vec<u64>,
    E,
>)
    requires
        may_draw(*new_key, *address, dev_num_validators, seed),
    ensures
        match result {
            Ok(addresses) => dev_addresses(
                *new_key,
                *address,
                dev_num_validators,
                seed,
                addresses@,
            ),
            Err(error) => dev_addresses_failed(
                *new_key,
                *address,
                dev_num_validators,
                seed,
                error,
            ),
        },
{
    let mut generator = Generator { seed: expand_seed(seed), word_pos: 0 };
    let mut keys: Vec<u64> = Vec::new();
    let ghost mut generators: Seq<Generator> = seq![generator];
    let mut drawn: u16 = 0;
    while drawn < dev_num_validators
        invariant
            may_draw(*new_key, *address, dev_num_validators, seed),
            drawn <= dev_num_validators,
            keys@.len() == drawn,
            keys_drawn(*new_key, seed, generators, keys@),
            generators.last() == generator,
        decreases dev_num_validators - drawn,
    {
        let ghost before = keys@;
        match new_key(generator) {
            Ok((key, next)) => {
                generator = next;
                keys.push(key);
                proof {
                    let more = generators.push(next);
                    assert forall|i: int| 0 <= i < keys@.len() implies call_ensures(
                        *new_key,
                        (#[trigger] more[i],),
                        Ok::<(u64, Generator), E>((keys@[i], more[i + 1])),
                    ) by {
                        assert(more[i] == generators[i]);
                        if i < before.len() {
                            assert(more[i + 1] == generators[i + 1]);
                            assert(keys@[i] == before[i]);
                        }
                    }
                    generators = more;
                }
            },
            Err(error) => {
                assert(keys_drawn(*new_key, seed, generators, keys@));
                return Err(error);
            },
        }
        drawn = drawn + 1;
    }
    let mut addresses: Vec<u64> = Vec::new();
    let mut i: usize = 0;
    while i < keys.len()
        invariant
            may_draw(*new_key, *address, dev_num_validators, seed),
            i <= keys@.len(),
            keys@.len() == dev_num_validators,
            keys_drawn(*new_key, seed, generators, keys@),
            addresses@.len() == i,
            addresses_derived(*address, keys@, addresses@),
        decreases keys@.len() - i,
    {
        match address(keys[i]) {
            Ok(derived) => {
                addresses.push(derived);
            },
            Err(error) => {
                assert(addresses_derived(*address, keys@, addresses@));
                return Err(error);
            },
        }
        i = i + 1;
    }
    assert(keys_drawn(*new_key, seed, generators, keys@));
    Ok(addresses)
}

/// Building a dev committee gave `result`.
pub open spec fn dev_committee_outcome<
    E,
    NewKey: Fn(Generator) -> Result<(u64, Generator), E>,
    Address: Fn(u64) -> Result<u64, E>,
    Check: FnOnce(&Committee) -> Result<(), E>,
>(
    start_round: u64,
    dev_num_validators: u16,
    seed: u64,
    stake: u64,
    new_key: NewKey,
    address: Address,
    check: Check,
    result: Result<Committee, E>,
) -> bool {
    match result {
        Ok(committee) => call_ensures(check, (&committee,), Ok::<(), E>(())) && exists|
            addresses: Seq<u64>,
        | #[trigger]
            dev_addresses(new_key, address, dev_num_validators, seed, addresses)
                && equal_committee(committee, start_round, addresses, stake),
        Err(error) => {
            ||| dev_addresses_failed(new_key, address, dev_num_validators, seed, error)
            ||| exists|addresses: Seq<u64>, committee: Committee|
                {
                    &&& #[trigger] dev_addresses(
                        new_key,
                        address,
                        dev_num_validators,
                        seed,
                        addresses,
                    )
                    &&& #[trigger] equal_committee(committee, start_round, addresses, stake)
                    &&& call_ensures(check, (&committee,), Err::<(), E>(error))
                }
        },
    }
}

/// Deterministically builds the dev committee from the given parameters. Every member is given equal
/// stake.
pub fn build_dev_committee<
    E,
    NewKey: Fn(Generator) -> Result<(u64, Generator), E>,
    Address: Fn(u64) -> Result<u64, E>,
    Check: FnOnce(&Committee) -> Result<(), E>,
>(
    start_round: u64,
    dev_num_validators: u16,
    seed: u64,
    stake: u64,
    new_key: NewKey,
    address: Address,
    check: Check,
) -> (result: Result<Committee, E>)
    requires
        may_draw(new_key, address, dev_num_validators, seed),
        forall|addresses: Seq<u64>, committee: Committee|
            #[trigger] dev_addresses(new_key, address, dev_num_validators, seed, addresses)
                && #[trigger] equal_committee(committee, start_round, addresses, stake)
                ==> call_requires(check, (&committee,)),
    ensures
        dev_committee_outcome(
            start_round,
            dev_num_validators,
            seed,
            stake,
            new_key,
            address,
            check,
            result,
        ),
{
    let addresses = match draw_dev_addresses(dev_num_validators, seed, &new_key, &address) {
        Ok(addresses) => addresses,
        Err(error) => {
            return Err(error);
        },
    };
    let members = members_with_equal_stake(&addresses, stake);
    let committee = Committee { starting_round: start_round, members };
    assert(equal_committee(committee, start_round, addresses@, stake));
    match check(&committee) {
        Ok(unit) => {
            assert(unit == ());
            Ok(committee)
        },
        Err(error) => Err(error),
    }
}

/// The addresses of a dev committee are determined by the number of its validators and the seed; and
/// they are derived either always or never, in the latter case with the same error.
proof fn lemma_dev_addresses_are_determined<
    E,
    NewKey: Fn(Generator) -> Result<(u64, Generator), E>,
    Address: Fn(u64) -> Result<u64, E>,
>(new_key: NewKey, address: Address, dev_num_validators: u16, seed: u64)
    requires
        forall|
            generator: Generator,
            one: Result<(u64, Generator), E>,
            two: Result<(u64, Generator), E>,
        |
            #[trigger] call_ensures(new_key, (generator,), one) && #[trigger] call_ensures(
                new_key,
                (generator,),
                two,
            ) ==> one == two,
        forall|key: u64, one: Result<u64, E>, two: Result<u64, E>| #[trigger]
            call_ensures(address, (key,), one) && #[trigger] call_ensures(address, (key,), two)
                ==> one == two,
    ensures
        forall|one: Seq<u64>, two: Seq<u64>|
            #[trigger] dev_addresses(new_key, address, dev_num_validators, seed, one)
                && #[trigger] dev_addresses(new_key, address, dev_num_validators, seed, two)
                ==> one == two,
        forall|one: Seq<u64>, error: E|
            !(#[trigger] dev_addresses(new_key, address, dev_num_validators, seed, one)
                && #[trigger] dev_addresses_failed(
                new_key,
                address,
                dev_num_validators,
                seed,
                error,
            )),
        forall|one: E, two: E|
            #[trigger] dev_addresses_failed(new_key, address, dev_num_validators, seed, one)
                && #[trigger] dev_addresses_failed(
                new_key,
                address,
                dev_num_validators,
                seed,
                two,
            ) ==> one == two,
{
    assert forall|one: Seq<u64>, two: Seq<u64>|
        #[trigger] dev_addresses(new_key, address, dev_num_validators, seed, one)
            && #[trigger] dev_addresses(new_key, address, dev_num_validators, seed, two) implies one
        == two by {
        let (generators, keys) = choose|generators: Seq<Generator>, keys: Seq<u64>| #[trigger]
            keys_drawn(new_key, seed, generators, keys) && keys.len() == dev_num_validators
                && addresses_derived(address, keys, one);
        let (others, other_keys) = choose|generators: Seq<Generator>, keys: Seq<u64>| #[trigger]
            keys_drawn(new_key, seed, generators, keys) && keys.len() == dev_num_validators
                && addresses_derived(address, keys, two);
        lemma_keys_are_determined(new_key, seed, generators, keys, others, other_keys, keys.len());
        assert(keys =~= other_keys);
        lemma_derived_are_determined(address, keys, one, two);
        assert(one =~= two);
    }
    assert forall|one: Seq<u64>, error: E|
        !(#[trigger] dev_addresses(new_key, address, dev_num_validators, seed, one)
            && #[trigger] dev_addresses_failed(
            new_key,
            address,
            dev_num_validators,
            seed,
            error,
        )) by {
        if dev_addresses(new_key, address, dev_num_validators, seed, one) && dev_addresses_failed(
            new_key,
            address,
            dev_num_validators,
            seed,
            error,
        ) {
            let (generators, keys) = choose|generators: Seq<Generator>, keys: Seq<u64>| #[trigger]
                keys_drawn(new_key, seed, generators, keys) && keys.len() == dev_num_validators
                    && addresses_derived(address, keys, one);
            let (others, other_keys) = choose|generators: Seq<Generator>, keys: Seq<u64>|
                #[trigger]
                keys_drawn(new_key, seed, generators, keys) && stops_with(
                    new_key,
                    address,
                    dev_num_validators,
                    generators,
                    keys,
                    error,
                );
            let n = other_keys.len();
            lemma_keys_are_determined(new_key, seed, generators, keys, others, other_keys, n);
            if n < dev_num_validators {
                assert(call_ensures(
                    new_key,
                    (generators[n as int],),
                    Ok::<(u64, Generator), E>((keys[n as int], generators[n as int + 1])),
                ));
            } else {
                assert(keys =~= other_keys);
                let two = choose|addresses: Seq<u64>|
                    {
                        &&& #[trigger] addresses_derived(address, other_keys, addresses)
                        &&& addresses.len() < other_keys.len()
                        &&& call_ensures(
                            address,
                            (other_keys[addresses.len() as int],),
                            Err::<u64, E>(error),
                        )
                    };
                let m = two.len() as int;
                assert(call_ensures(address, (keys[m],), Ok::<u64, E>(one[m])));
            }
        }
    }
    assert forall|one: E, two: E|
        #[trigger] dev_addresses_failed(new_key, address, dev_num_validators, seed, one)
            && #[trigger] dev_addresses_failed(
            new_key,
            address,
            dev_num_validators,
            seed,
            two,
        ) implies one == two by {
        lemma_failures_are_determined(new_key, address, dev_num_validators, seed, one, two);
    }
}

/// The error of a dev committee whose addresses are not derived is determined.
proof fn lemma_failures_are_determined<
    E,
    NewKey: Fn(Generator) -> Result<(u64, Generator), E>,
    Address: Fn(u64) -> Result<u64, E>,
>(new_key: NewKey, address: Address, dev_num_validators: u16, seed: u64, one: E, two: E)
    requires
        forall|
            generator: Generator,
            one: Result<(u64, Generator), E>,
            two: Result<(u64, Generator), E>,
        |
            #[trigger] call_ensures(new_key, (generator,), one) && #[trigger] call_ensures(
                new_key,
                (generator,),
                two,
            ) ==> one == two,
        forall|key: u64, one: Result<u64, E>, two: Result<u64, E>| #[trigger]
            call_ensures(address, (key,), one) && #[trigger] call_ensures(address, (key,), two)
                ==> one == two,
        dev_addresses_failed(new_key, address, dev_num_validators, seed, one),
        dev_addresses_failed(new_key, address, dev_num_validators, seed, two),
    ensures
        one == two,
{
    let (generators, keys) = choose|generators: Seq<Generator>, keys: Seq<u64>| #[trigger]
        keys_drawn(new_key, seed, generators, keys) && stops_with(
            new_key,
            address,
            dev_num_validators,
            generators,
            keys,
            one,
        );
    let (others, other_keys) = choose|generators: Seq<Generator>, keys: Seq<u64>| #[trigger]
        keys_drawn(new_key, seed, generators, keys) && stops_with(
            new_key,
            address,
            dev_num_validators,
            generators,
            keys,
            two,
        );
    let n = if keys.len() < other_keys.len() { keys.len() } else { other_keys.len() };
    lemma_keys_are_determined(new_key, seed, generators, keys, others, other_keys, n);
    let at = n as int;
    if n < keys.len() {
        assert(call_ensures(
            new_key,
            (generators[at],),
            Ok::<(u64, Generator), E>((keys[at], generators[at + 1])),
        ));
    }
    if n < other_keys.len() {
        assert(call_ensures(
            new_key,
            (others[at],),
            Ok::<(u64, Generator), E>((other_keys[at], others[at + 1])),
        ));
    }
    assert(keys.len() == other_keys.len());
    assert(keys =~= other_keys);
    if keys.len() == dev_num_validators {
        let first = choose|addresses: Seq<u64>| #[trigger]
            addresses_derived(address, keys, addresses) && addresses.len() < keys.len()
                && call_ensures(
                address,
                (keys[addresses.len() as int],),
                Err::<u64, E>(one),
            );
        let second = choose|addresses: Seq<u64>| #[trigger]
            addresses_derived(address, keys, addresses) && addresses.len() < keys.len()
                && call_ensures(
                address,
                (keys[addresses.len() as int],),
                Err::<u64, E>(two),
            );
        if first.len() < second.len() {
            let m = first.len() as int;
            assert(call_ensures(address, (keys[m],), Ok::<u64, E>(second[m])));
        } else if second.len() < first.len() {
            let m = second.len() as int;
            assert(call_ensures(address, (keys[m],), Ok::<u64, E>(first[m])));
        }
    }
}

/// The addresses of keys are determined by the keys.
proof fn lemma_derived_are_determined<E, Address: Fn(u64) -> Result<u64, E>>(
    address: Address,
    keys: Seq<u64>,
    one: Seq<u64>,
    two: Seq<u64>,
)
    requires
        forall|key: u64, one: Result<u64, E>, two: Result<u64, E>| #[trigger]
            call_ensures(address, (key,), one) && #[trigger] call_ensures(address, (key,), two)
                ==> one == two,
        addresses_derived(address, keys, one),
        addresses_derived(address, keys, two),
    ensures
        forall|i: int| 0 <= i < one.len() && i < two.len() ==> one[i] == two[i],
{
    assert forall|i: int| 0 <= i < one.len() && i < two.len() implies one[i] == two[i] by {
        assert(call_ensures(address, (keys[i],), Ok::<u64, E>(one[i])));
        assert(call_ensures(address, (keys[i],), Ok::<u64, E>(two[i])));
    }
}

/// Two results of building a dev committee from the same start round, number of validators and seed
/// are equal, as long as a generator determines the key that is drawn from it, a key its address, and
/// the round and the members of a committee whether it is one.
pub proof fn law_dev_committee_is_determined<
    E,
    NewKey: Fn(Generator) -> Result<(u64, Generator), E>,
    Address: Fn(u64) -> Result<u64, E>,
    Check: FnOnce(&Committee) -> Result<(), E>,
>(
    start_round: u64,
    dev_num_validators: u16,
    seed: u64,
    stake: u64,
    new_key: NewKey,
    address: Address,
    check: Check,
    result: Result<Committee, E>,
    other: Result<Committee, E>,
)
    requires
        forall|
            generator: Generator,
            one: Result<(u64, Generator), E>,
            two: Result<(u64, Generator), E>,
        |
            #[trigger] call_ensures(new_key, (generator,), one) && #[trigger] call_ensures(
                new_key,
                (generator,),
                two,
            ) ==> one == two,
        forall|key: u64, one: Result<u64, E>, two: Result<u64, E>| #[trigger]
            call_ensures(address, (key,), one) && #[trigger] call_ensures(address, (key,), two)
                ==> one == two,
        forall|one: Committee, two: Committee, first: Result<(), E>, second: Result<(), E>|
            #[trigger] call_ensures(check, (&one,), first) && #[trigger] call_ensures(
                check,
                (&two,),
                second,
            ) && one.starting_round == two.starting_round && one.members@ == two.members@ ==> first
                == second,
        dev_committee_outcome(
            start_round,
            dev_num_validators,
            seed,
            stake,
            new_key,
            address,
            check,
            result,
        ),
        dev_committee_outcome(
            start_round,
            dev_num_validators,
            seed,
            stake,
            new_key,
            address,
            check,
            other,
        ),
    ensures
        match (result, other) {
            (Ok(one), Ok(two)) => one.starting_round == two.starting_round && one.members@
                == two.members@,
            (Err(one), Err(two)) => one == two,
            _ => false,
        },
{
    lemma_dev_addresses_are_determined(new_key, address, dev_num_validators, seed);
}

/// The first keys that are drawn from the generator of a seed are determined by the seed.
proof fn lemma_keys_are_determined<E, NewKey: Fn(Generator) -> Result<(u64, Generator), E>>(
    new_key: NewKey,
    seed: u64,
    generators: Seq<Generator>,
    keys: Seq<u64>,
    others: Seq<Generator>,
    other_keys: Seq<u64>,
    n: nat,
)
    requires
        forall|
            generator: Generator,
            one: Result<(u64, Generator), E>,
            two: Result<(u64, Generator), E>,
        |
            #[trigger] call_ensures(new_key, (generator,), one) && #[trigger] call_ensures(
                new_key,
                (generator,),
                two,
            ) ==> one == two,
        keys_drawn(new_key, seed, generators, keys),
        keys_drawn(new_key, seed, others, other_keys),
        n <= keys.len(),
        n <= other_keys.len(),
    ensures
        generators[n as int] == others[n as int],
        forall|i: int| 0 <= i < n ==> keys[i] == other_keys[i],
    decreases n,
{
    if n > 0 {
        let last = n - 1;
        lemma_keys_are_determined(
            new_key,
            seed,
            generators,
            keys,
            others,
            other_keys,
            last as nat,
        );
        let one = Ok::<(u64, Generator), E>((keys[last], generators[last + 1]));
        let two = Ok::<(u64, Generator), E>((other_keys[last], others[last + 1]));
        assert(call_ensures(new_key, (generators[last],), one));
        assert(call_ensures(new_key, (others[last],), two));
        assert(one == two);
    }
}

/// A dev committee whose validators have distinct addresses has each of them as a member, with the
/// given stake, open to delegators and without commission.
pub proof fn law_dev_committee_has_equal_stakes(
    committee: Committee,
    start_round: u64,
    addresses: Seq<u64>,
    stake: u64,
)
    requires
        equal_committee(committee, start_round, addresses, stake),
        addresses.no_duplicates(),
    ensures
        committee.members@.len() == addresses.len(),
        forall|i: int|
            0 <= i < addresses.len() ==> #[trigger] committee.members@[i] == (
                addresses[i],
                Member { stake, is_open: true, commission: 0 },
            ),
{
    lemma_distinct_addresses(addresses);
}

/// The first occurrences of addresses are these addresses, each once.
pub proof fn law_first_occurrences_are_the_addresses(addresses: Seq<u64>, address: u64)
    ensures
        first_occurrences(addresses).no_duplicates(),
        first_occurrences(addresses).contains(address) <==> addresses.contains(address),
    decreases addresses.len(),
{
    if addresses.len() > 0 {
        let rest = addresses.drop_last();
        let last = addresses.last();
        let earlier = first_occurrences(rest);
        law_first_occurrences_are_the_addresses(rest, address);
        law_first_occurrences_are_the_addresses(rest, last);
        assert(addresses =~= rest.push(last));
        assert(addresses[addresses.len() - 1] == last);
        if rest.contains(address) {
            let i = choose|i: int| 0 <= i < rest.len() && rest[i] == address;
            assert(addresses[i] == address);
        }
        if addresses.contains(address) && address != last {
            let i = choose|i: int| 0 <= i < addresses.len() && addresses[i] == address;
            assert(rest[i] == address);
        }
        if !earlier.contains(last) {
            let next = earlier.push(last);
            assert(next[earlier.len() as int] == last);
            if earlier.contains(address) {
                let i = choose|i: int| 0 <= i < earlier.len() && earlier[i] == address;
                assert(next[i] == address);
            }
            if next.contains(address) && address != last {
                let i = choose|i: int| 0 <= i < next.len() && next[i] == address;
                assert(earlier[i] == address);
            }
        }
    }
}

/// Addresses that follow others leave the first occurrences of those where they are.
pub proof fn law_first_occurrences_keep_their_order(addresses: Seq<u64>, more: Seq<u64>)
    ensures
        first_occurrences(addresses).is_prefix_of(first_occurrences(addresses + more)),
    decreases more.len(),
{
    if more.len() == 0 {
        assert(addresses + more =~= addresses);
    } else {
        law_first_occurrences_keep_their_order(addresses, more.drop_last());
        assert((addresses + more).drop_last() =~= addresses + more.drop_last());
        let before = first_occurrences(addresses + more.drop_last());
        assert(before.is_prefix_of(first_occurrences(addresses + more)));
    }
}

/// The members of a committee with equal stakes are the given addresses, each once, and each has the
/// stake, is open to delegators and takes no commission.
pub proof fn law_equal_members_are_the_addresses(addresses: Seq<u64>, stake: u64, address: u64)
    ensures
        ({
            let members = equal_members(addresses, stake);
            &&& addresses.contains(address) <==> exists|i: int|
                0 <= i < members.len() && (#[trigger] members[i]).0 == address
            &&& forall|i: int, j: int|
                0 <= i < j < members.len() ==> (#[trigger] members[i]).0 != (
                #[trigger] members[j]).0
            &&& forall|i: int|
                0 <= i < members.len() ==> (#[trigger] members[i]).1.stake == stake
                    && members[i].1.is_open && members[i].1.commission == 0
        }),
{
    let members = equal_members(addresses, stake);
    let first = first_occurrences(addresses);
    law_first_occurrences_are_the_addresses(addresses, address);
    assert forall|i: int| 0 <= i < members.len() implies (#[trigger] members[i]).0 == first[i] by {}
    if first.contains(address) {
        let i = choose|i: int| 0 <= i < first.len() && first[i] == address;
        assert(members[i].0 == address);
    }
    if exists|i: int| 0 <= i < members.len() && (#[trigger] members[i]).0 == address {
        let i = choose|i: int| 0 <= i < members.len() && (#[trigger] members[i]).0 == address;
        assert(first[i] == address);
    }
}

/// Each of the given addresses is mapped to the value, and no other address is mapped.
pub proof fn law_addresses_are_mapped_to_the_same(addresses: Seq<u64>, value: u64, address: u64)
    ensures
        ({
            let entries = same_for_all(addresses, value);
            &&& has_key(entries, address) <==> addresses.contains(address)
            &&& forall|i: int| 0 <= i < entries.len() ==> (#[trigger] entries[i]).1 == value
            &&& entries.len() <= addresses.len()
        }),
{
    let entries = same_for_all(addresses, value);
    let first = first_occurrences(addresses);
    law_first_occurrences_are_the_addresses(addresses, address);
    lemma_no_more_first_occurrences(addresses);
    assert forall|i: int| 0 <= i < entries.len() implies (#[trigger] entries[i]).0 == first[i] by {}
    if first.contains(address) {
        let i = choose|i: int| 0 <= i < first.len() && first[i] == address;
        assert(entries[i].0 == address);
    }
    if has_key(entries, address) {
        assert(first[place_of(entries, address)] == address);
    }
}

/// There are no more first occurrences than addresses.
proof fn lemma_no_more_first_occurrences(addresses: Seq<u64>)
    ensures
        first_occurrences(addresses).len() <= addresses.len(),
    decreases addresses.len(),
{
    if addresses.len() > 0 {
        lemma_no_more_first_occurrences(addresses.drop_last());
    }
}

/// The keys of a dev committee are drawn in turn: the first from the unused generator of the seed, and
/// each later one from the generator that the one before it left.
pub proof fn law_dev_keys_are_drawn_in_turn<
    E,
    NewKey: Fn(Generator) -> Result<(u64, Generator), E>,
>(new_key: NewKey, seed: u64, generators: Seq<Generator>, keys: Seq<u64>, i: int)
    requires
        keys_drawn(new_key, seed, generators, keys),
        0 <= i < keys.len(),
    ensures
        generators[0].seed == expanded_seed(seed),
        generators[0].word_pos == 0,
        call_ensures(
            new_key,
            (generators[i],),
            Ok::<(u64, Generator), E>((keys[i], generators[i + 1])),
        ),
{
    assert(generators[i] == generators[i]);
}

/// The addresses of fewer dev validators are the first ones of more, with the same seed, as long as a
/// generator determines the key that is drawn from it, and a key its address: a larger dev committee
/// has the validators of a smaller one.
pub proof fn law_more_dev_validators_extend_fewer<
    E,
    NewKey: Fn(Generator) -> Result<(u64, Generator), E>,
    Address: Fn(u64) -> Result<u64, E>,
>(
    new_key: NewKey,
    address: Address,
    fewer: u16,
    more: u16,
    seed: u64,
    addresses: Seq<u64>,
    more_addresses: Seq<u64>,
)
    requires
        fewer <= more,
        forall|
            generator: Generator,
            one: Result<(u64, Generator), E>,
            two: Result<(u64, Generator), E>,
        |
            #[trigger] call_ensures(new_key, (generator,), one) && #[trigger] call_ensures(
                new_key,
                (generator,),
                two,
            ) ==> one == two,
        forall|key: u64, one: Result<u64, E>, two: Result<u64, E>| #[trigger]
            call_ensures(address, (key,), one) && #[trigger] call_ensures(address, (key,), two)
                ==> one == two,
        dev_addresses(new_key, address, fewer, seed, addresses),
        dev_addresses(new_key, address, more, seed, more_addresses),
    ensures
        addresses == more_addresses.take(fewer as int),
{
    let (generators, keys) = choose|generators: Seq<Generator>, keys: Seq<u64>| #[trigger]
        keys_drawn(new_key, seed, generators, keys) && keys.len() == fewer && addresses_derived(
            address,
            keys,
            addresses,
        );
    let (others, other_keys) = choose|generators: Seq<Generator>, keys: Seq<u64>| #[trigger]
        keys_drawn(new_key, seed, generators, keys) && keys.len() == more && addresses_derived(
            address,
            keys,
            more_addresses,
        );
    lemma_keys_are_determined(
        new_key,
        seed,
        generators,
        keys,
        others,
        other_keys,
        fewer as nat,
    );
    assert forall|i: int| 0 <= i < fewer implies addresses[i] == more_addresses[i] by {
        assert(keys[i] == other_keys[i]);
        assert(call_ensures(address, (keys[i],), Ok::<u64, E>(addresses[i])));
        assert(call_ensures(address, (other_keys[i],), Ok::<u64, E>(more_addresses[i])));
    }
    assert(addresses =~= more_addresses.take(fewer as int));
}

/// A dev committee starts at the given round, has as many addresses derived as there are to be
/// validators, and has these addresses as its members, with equal stakes.
pub proof fn law_dev_committee_is_made_of_its_addresses<
    E,
    NewKey: Fn(Generator) -> Result<(u64, Generator), E>,
    Address: Fn(u64) -> Result<u64, E>,
    Check: FnOnce(&Committee) -> Result<(), E>,
>(
    start_round: u64,
    dev_num_validators: u16,
    seed: u64,
    stake: u64,
    new_key: NewKey,
    address: Address,
    check: Check,
    committee: Committee,
)
    requires
        dev_committee_outcome(
            start_round,
            dev_num_validators,
            seed,
            stake,
            new_key,
            address,
            check,
            Ok::<Committee, E>(committee),
        ),
    ensures
        committee.starting_round == start_round,
        call_ensures(check, (&committee,), Ok::<(), E>(())),
        committee.members@.len() <= dev_num_validators,
        forall|i: int|
            0 <= i < committee.members@.len() ==> (#[trigger] committee.members@[i]).1 == (Member {
                stake,
                is_open: true,
                commission: 0,
            }),
        exists|addresses: Seq<u64>|
            {
                &&& addresses.len() == dev_num_validators
                &&& #[trigger] dev_addresses(new_key, address, dev_num_validators, seed, addresses)
                &&& forall|i: int|
                    0 <= i < committee.members@.len() ==> addresses.contains(
                        (#[trigger] committee.members@[i]).0,
                    )
            },
{
    let addresses = choose|addresses: Seq<u64>| #[trigger]
        dev_addresses(new_key, address, dev_num_validators, seed, addresses) && equal_committee(
            committee,
            start_round,
            addresses,
            stake,
        );
    lemma_no_more_first_occurrences(addresses);
    assert forall|i: int| 0 <= i < committee.members@.len() implies addresses.contains(
        (#[trigger] committee.members@[i]).0,
    ) by {
        let member = committee.members@[i].0;
        assert(first_occurrences(addresses)[i] == member);
        law_first_occurrences_are_the_addresses(addresses, member);
    }
}

} // verus!
