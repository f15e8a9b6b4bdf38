//! What holds of the registry whatever is asked of it, and in whatever
//! order.

use vstd::prelude::*;
use crate::genome::{bred_dna, lemma_bred_with_itself};
use crate::invariants::{
    lemma_breed_valid,
    lemma_create_valid,
    lemma_deposit_valid,
    lemma_owner_holds,
    lemma_transfor_valid,
};
use crate::registry::{minted, Call, State};
use crate::types::{AccountId, Config, Error, Event, Kitty, KittyIndex, Origin};
use vstd::seq_lib::{to_multiset_build, to_multiset_contains, to_multiset_len};

verus! {

broadcast use vstd::multiset::group_multiset_axioms;

/// No call can bring a registry out of order.
pub proof fn lemma_call_keeps_valid(state: State, config: Config, call: Call)
    requires
        state.valid(config),
    ensures
        state.answer(config, call).0.valid(config),
{
    match call {
        Call::Create { origin, dna } => {
            lemma_create_valid(state, config, origin, Kitty(dna));
        },
        Call::Breed { origin, kitty_id_1, kitty_id_2, selector } => {
            lemma_breed_valid(state, config, origin, kitty_id_1, kitty_id_2, selector);
        },
        Call::Transfor { origin, kitty_id, to } => {
            lemma_transfor_valid(state, config, origin, kitty_id, to);
        },
        Call::Deposit { who, amount } => {
            lemma_deposit_valid(state, config, who, amount as nat);
        },
    }
}

/// The registry is in order at all times: whatever calls are made of a
/// valid registry, in whatever order, the registry they leave is valid.
pub proof fn lemma_always_valid(state: State, config: Config, calls: Seq<Call>)
    requires
        state.valid(config),
    ensures
        state.run(config, calls).valid(config),
    decreases calls.len(),
{
    if calls.len() > 0 {
        lemma_always_valid(state, config, calls.drop_last());
        lemma_call_keeps_valid(state.run(config, calls.drop_last()), config, calls.last());
    }
}

/// A refused operation changes nothing: not the next identifier, not a
/// kitty, an owner or a collection, and not a balance, free or reserved.
pub proof fn lemma_refusal_changes_nothing(state: State, config: Config, call: Call)
    ensures
        state.answer(config, call).1 matches Some(Err(_)) ==> state.answer(config, call).0 == state,
{
}

/// A call hands out an identifier only by registering a kitty under the next
/// identifier and moving on to the one after it; any other call leaves the
/// next identifier alone.
pub proof fn lemma_call_advances(state: State, config: Config, call: Call)
    requires
        state.valid(config),
    ensures
        match minted(state.answer(config, call).1) {
            Some(kitty_id) => kitty_id == state.next_kitty_id && state.answer(
                config,
                call,
            ).0.next_kitty_id == kitty_id + 1,
            None => state.answer(config, call).0.next_kitty_id == state.next_kitty_id,
        },
{
}

/// Identifiers are handed out in strictly increasing order, so none is
/// handed out twice; all of them lie between the next identifier before the
/// calls and the next identifier after them.
pub proof fn lemma_identifiers_increase(state: State, config: Config, calls: Seq<Call>)
    requires
        state.valid(config),
    ensures
        forall|i: int, j: int|
            0 <= i < j < state.handed_out(config, calls).len() ==> state.handed_out(
                config,
                calls,
            )[i] < state.handed_out(config, calls)[j],
        forall|i: int|
            0 <= i < state.handed_out(config, calls).len() ==> state.next_kitty_id
                <= #[trigger] state.handed_out(config, calls)[i] < state.run(
                config,
                calls,
            ).next_kitty_id,
        state.next_kitty_id <= state.run(config, calls).next_kitty_id,
    decreases calls.len(),
{
    if calls.len() > 0 {
        let reached = state.run(config, calls.drop_last());
        let earlier = state.handed_out(config, calls.drop_last());
        let all = state.handed_out(config, calls);
        lemma_identifiers_increase(state, config, calls.drop_last());
        lemma_always_valid(state, config, calls.drop_last());
        lemma_call_advances(reached, config, calls.last());
        assert forall|i: int| 0 <= i < all.len() implies state.next_kitty_id <= #[trigger] all[i]
            < state.run(config, calls).next_kitty_id by {
            if i < earlier.len() {
                assert(all[i] == earlier[i]);
            }
        }
        assert forall|i: int, j: int| 0 <= i < j < all.len() implies all[i] < all[j] by {
            assert(all[i] == earlier[i]);
            if j < earlier.len() {
                assert(all[j] == earlier[j]);
            }
        }
    }
}

/// Once the identifiers are exhausted they stay exhausted: whatever calls
/// follow, none of them hands out an identifier.
pub proof fn lemma_exhaustion_is_final(state: State, config: Config, calls: Seq<Call>)
    requires
        state.valid(config),
        state.next_kitty_id == config.max_kitty_index,
    ensures
        state.run(config, calls).next_kitty_id == config.max_kitty_index,
        state.handed_out(config, calls).len() == 0,
    decreases calls.len(),
{
    if calls.len() > 0 {
        lemma_exhaustion_is_final(state, config, calls.drop_last());
        lemma_always_valid(state, config, calls.drop_last());
        lemma_call_advances(state.run(config, calls.drop_last()), config, calls.last());
    }
}

/// The three operations move stake between the free and the reserved balance
/// of an account, never from one account to another and never in or out of
/// the registry: what an account holds in total changes by a deposit alone.
pub proof fn lemma_operations_conserve_stake(
    state: State,
    config: Config,
    call: Call,
    who: AccountId,
)
    requires
        state.valid(config),
        !(call is Deposit),
    ensures
        state.answer(config, call).0.stakes.free[who] + state.answer(
            config,
            call,
        ).0.stakes.reserved[who] == state.stakes.free[who] + state.stakes.reserved[who],
{
    assert forall|any: AccountId|
        state.stakes.free.contains_key(any) && state.stakes.reserved.contains_key(any) by {}
}

/// No account ever holds more kitties than the configuration allows, and
/// each account has exactly the price of one kitty reserved for every kitty
/// it holds, which are the kitties that the owner index assigns to it.
pub proof fn lemma_collections_and_stakes(
    state: State,
    config: Config,
    calls: Seq<Call>,
    who: AccountId,
)
    requires
        state.valid(config),
    ensures
        state.run(config, calls).owned[who].len() <= config.max_kitty_length,
        state.run(config, calls).owned[who].len() == state.run(config, calls).holdings_of(
            who,
        ).len(),
        state.run(config, calls).stakes.reserved[who] == config.kitty_price * state.run(
            config,
            calls,
        ).holdings_of(who).len(),
{
    let reached = state.run(config, calls);
    lemma_always_valid(state, config, calls);
    assert(reached.owned[who].to_multiset() == reached.holdings_of(who));
    to_multiset_len(reached.owned[who]);
    assert(reached.stakes.reserved[who] == config.kitty_price * reached.owned[who].len());
}

/// Every registered kitty has an owner, and that owner has it in its
/// collection.
pub proof fn lemma_registered_is_owned(
    state: State,
    config: Config,
    calls: Seq<Call>,
    kitty_id: KittyIndex,
)
    requires
        state.valid(config),
        state.run(config, calls).kitties.contains_key(kitty_id),
    ensures
        kitty_id < state.run(config, calls).next_kitty_id,
        state.run(config, calls).owners.contains_key(kitty_id),
        state.run(config, calls).owned[state.run(config, calls).owners[kitty_id]].contains(
            state.run(config, calls).kitties[kitty_id],
        ),
{
    lemma_always_valid(state, config, calls);
    lemma_owner_holds(state.run(config, calls), config, kitty_id);
}

/// A kitty, once registered, is never removed and never changes.
pub proof fn lemma_kitties_are_kept(
    state: State,
    config: Config,
    calls: Seq<Call>,
    kitty_id: KittyIndex,
)
    requires
        state.valid(config),
        state.kitties.contains_key(kitty_id),
    ensures
        state.run(config, calls).kitties.contains_key(kitty_id),
        state.run(config, calls).kitties[kitty_id] == state.kitties[kitty_id],
    decreases calls.len(),
{
    if calls.len() > 0 {
        lemma_kitties_are_kept(state, config, calls.drop_last(), kitty_id);
        lemma_always_valid(state, config, calls.drop_last());
    }
}

/// An account whose collection is full gets no further kitty: where nothing
/// else stands against it, creating or breeding is refused with
/// `OwnerCollectionFull`, and so is a transfer to that account by the owner
/// of a kitty. Collections and reservations stay as they were.
pub proof fn lemma_full_collection_is_closed(
    state: State,
    config: Config,
    who: AccountId,
    dna: [u8; 16],
    kitty_id_1: KittyIndex,
    kitty_id_2: KittyIndex,
    kitty_id: KittyIndex,
    from: AccountId,
)
    requires
        state.valid(config),
        state.owned[who].len() == config.max_kitty_length,
    ensures
        state.stakes.can_reserve(who, config.kitty_price as nat) && state.next_kitty_id
            != config.max_kitty_index ==> state.create(config, Origin::Signed(who), Kitty(dna))
            == (state, Err::<Event, Error>(Error::OwnerCollectionFull)),
        state.stakes.can_reserve(who, config.kitty_price as nat) && state.next_kitty_id
            != config.max_kitty_index && state.kitties.contains_key(kitty_id_1)
            && state.kitties.contains_key(kitty_id_2) ==> state.breed(
            config,
            Origin::Signed(who),
            kitty_id_1,
            kitty_id_2,
            dna,
        ) == (state, Err::<Event, Error>(Error::OwnerCollectionFull)),
        state.kitties.contains_key(kitty_id) && state.owners[kitty_id] == from && from != who
            && state.stakes.can_reserve(who, config.kitty_price as nat) ==> state.transfor(
            config,
            Origin::Signed(from),
            kitty_id,
            who,
        ) == (state, Err::<Event, Error>(Error::OwnerCollectionFull)),
{
    if state.kitties.contains_key(kitty_id) && state.owners[kitty_id] == from && from != who
        && state.stakes.can_reserve(who, config.kitty_price as nat) {
        lemma_owner_holds(state, config, kitty_id);
        assert(state.stakes.free.contains_key(from) && state.stakes.reserved.contains_key(from));
        assert(state.owned.contains_key(from));
    }
}

/// A kitty created and then bred with itself gives a child that keeps
/// exactly the bits of the parent that the selector lets through.
pub proof fn lemma_bred_from_one_parent(
    state: State,
    config: Config,
    creator: Origin,
    dna: [u8; 16],
    breeder: Origin,
    selector: [u8; 16],
)
    requires
        state.valid(config),
        state.create(config, creator, Kitty(dna)).1 is Ok,
        state.create(config, creator, Kitty(dna)).0.breed(
            config,
            breeder,
            state.next_kitty_id,
            state.next_kitty_id,
            selector,
        ).1 is Ok,
    ensures
        state.create(config, creator, Kitty(dna)).0.breed(
            config,
            breeder,
            state.next_kitty_id,
            state.next_kitty_id,
            selector,
        ).1 matches Ok(Event::KittyBreed(_, _, child)) && forall|i: int|
            0 <= i < 16 ==> #[trigger] child.0[i] == dna[i] & selector[i],
{
    lemma_bred_with_itself(dna, selector);
}

/// Nobody but its owner can hand a kitty over: the attempt is refused with
/// `NotOwner`, and nothing changes.
pub proof fn lemma_stranger_cannot_transfer(
    state: State,
    config: Config,
    caller: AccountId,
    kitty_id: KittyIndex,
    to: AccountId,
)
    requires
        state.valid(config),
        state.kitties.contains_key(kitty_id),
        state.owners[kitty_id] != caller,
    ensures
        state.transfor(config, Origin::Signed(caller), kitty_id, to) == (
            state,
            Err::<Event, Error>(Error::NotOwner),
        ),
{
}

/// A kitty cannot be handed to another account that cannot afford the stake:
/// the attempt is refused with `InsufficientBalance`, and nothing changes, so
/// the caller's stake stays reserved.
pub proof fn lemma_recipient_must_afford(
    state: State,
    config: Config,
    caller: AccountId,
    kitty_id: KittyIndex,
    to: AccountId,
)
    requires
        state.valid(config),
        state.kitties.contains_key(kitty_id),
        state.owners[kitty_id] == caller,
        to != caller,
        state.stakes.free[to] < config.kitty_price,
    ensures
        state.transfor(config, Origin::Signed(caller), kitty_id, to) == (
            state,
            Err::<Event, Error>(Error::InsufficientBalance),
        ),
{
    assert(state.stakes.free.contains_key(caller) && state.stakes.reserved.contains_key(caller));
}

/// An owner can always hand a kitty to itself: the stake that the transfer
/// releases pays for the stake that it reserves, and the kitty moves to the
/// end of the collection.
pub proof fn lemma_transfer_to_oneself(
    state: State,
    config: Config,
    caller: AccountId,
    kitty_id: KittyIndex,
)
    requires
        state.valid(config),
        state.kitties.contains_key(kitty_id),
        state.owners[kitty_id] == caller,
    ensures
        state.transfor(config, Origin::Signed(caller), kitty_id, caller).1 == Ok::<Event, Error>(
            Event::KittyTransfor(caller, kitty_id, caller),
        ),
        state.transfor(config, Origin::Signed(caller), kitty_id, caller).0 == (State {
            owned: state.owned.insert(
                caller,
                state.owned[caller].remove_value(state.kitties[kitty_id]).push(
                    state.kitties[kitty_id],
                ),
            ),
            ..state
        }),
{
    let kitty = state.kitties[kitty_id];
    let price = config.kitty_price as nat;
    let held = state.owned[caller];
    lemma_owner_holds(state, config, kitty_id);
    held.index_of_first_ensures(kitty);
    assert(state.stakes.free.contains_key(caller) && state.stakes.reserved.contains_key(caller));
    assert(state.owned.contains_key(caller));
    assert(state.stakes.reserved[caller] == config.kitty_price * held.len());
    assert(config.kitty_price * held.len() >= config.kitty_price) by (nonlinear_arith)
        requires
            held.len() >= 1,
    ;
    assert(held.len() <= config.max_kitty_length);
    let after = state.transfor(config, Origin::Signed(caller), kitty_id, caller).0;
    assert(after.stakes.free =~= state.stakes.free);
    assert(after.stakes.reserved =~= state.stakes.reserved);
    assert(after.owners =~= state.owners);
    assert(after.owned =~= state.owned.insert(caller, held.remove_value(kitty).push(kitty)));
}

/// Breeding from an identifier under which nothing is registered is refused
/// with `InvalidAssetId`, and nothing changes: the stake that the caller
/// could afford is not reserved.
pub proof fn lemma_unknown_parent(
    state: State,
    config: Config,
    caller: AccountId,
    kitty_id_1: KittyIndex,
    kitty_id_2: KittyIndex,
    selector: [u8; 16],
)
    requires
        state.valid(config),
        state.stakes.can_reserve(caller, config.kitty_price as nat),
        !state.kitties.contains_key(kitty_id_1) || !state.kitties.contains_key(kitty_id_2),
    ensures
        state.breed(config, Origin::Signed(caller), kitty_id_1, kitty_id_2, selector) == (
            state,
            Err::<Event, Error>(Error::InvalidAssetId),
        ),
{
}

/// A kitty that is created, bred with itself, and whose child is then handed
/// to another account: the child ends up owned by that account, which holds
/// its genome exactly once, and the creator no longer holds it.
///
/// Collections hold genomes, so this is stated for a child whose genome
/// differs from its parent's and that neither account held before.
pub proof fn lemma_round_trip(
    state: State,
    config: Config,
    owner: AccountId,
    other: AccountId,
    dna: [u8; 16],
    selector: [u8; 16],
)
    requires
        state.valid(config),
        owner != other,
        bred_dna(dna, dna, selector) != dna,
        !state.owned[owner].contains(Kitty(bred_dna(dna, dna, selector))),
        !state.owned[other].contains(Kitty(bred_dna(dna, dna, selector))),
        state.create(config, Origin::Signed(owner), Kitty(dna)).1 is Ok,
        state.create(config, Origin::Signed(owner), Kitty(dna)).0.breed(
            config,
            Origin::Signed(owner),
            state.next_kitty_id,
            state.next_kitty_id,
            selector,
        ).1 is Ok,
        state.create(config, Origin::Signed(owner), Kitty(dna)).0.breed(
            config,
            Origin::Signed(owner),
            state.next_kitty_id,
            state.next_kitty_id,
            selector,
        ).0.transfor(
            config,
            Origin::Signed(owner),
            (state.next_kitty_id + 1) as KittyIndex,
            other,
        ).1 is Ok,
    ensures
        ({
            let child_id = (state.next_kitty_id + 1) as KittyIndex;
            let child = Kitty(bred_dna(dna, dna, selector));
            let end = state.create(config, Origin::Signed(owner), Kitty(dna)).0.breed(
                config,
                Origin::Signed(owner),
                state.next_kitty_id,
                state.next_kitty_id,
                selector,
            ).0.transfor(config, Origin::Signed(owner), child_id, other).0;
            &&& end.kitties[child_id] == child
            &&& end.owners[child_id] == other
            &&& !end.owned[owner].contains(child)
            &&& end.owned[owner] == state.owned[owner].push(Kitty(dna))
            &&& end.owned[other].to_multiset().count(child) == 1
            &&& end.owned[other] == state.owned[other].push(child)
        }),
{
    let id = state.next_kitty_id;
    let child_id = (id + 1) as KittyIndex;
    let parent = Kitty(dna);
    let child = Kitty(bred_dna(dna, dna, selector));
    let created = state.create(config, Origin::Signed(owner), parent).0;
    let bred = created.breed(config, Origin::Signed(owner), id, id, selector).0;
    let end = bred.transfor(config, Origin::Signed(owner), child_id, other).0;
    lemma_create_valid(state, config, Origin::Signed(owner), parent);
    lemma_breed_valid(created, config, Origin::Signed(owner), id, id, selector);
    assert(state.owned.contains_key(owner) && state.owned.contains_key(other));
    assert(created.owned[owner] == state.owned[owner].push(parent));
    assert(bred.kitties[child_id] == child);
    assert(bred.owned[owner] == state.owned[owner].push(parent).push(child));
    assert(bred.owned[other] == state.owned[other]);
    let held = bred.owned[owner];
    let last = held.len() - 1;
    held.index_of_first_ensures(child);
    assert(held[last] == child);
    assert forall|j: int| 0 <= j < last implies held[j] != child by {
        if j < state.owned[owner].len() {
            assert(held[j] == state.owned[owner][j]);
        } else {
            assert(held[j] == parent);
        }
    }
    assert(held.index_of_first(child) == Some(last));
    assert(held.remove_value(child) =~= state.owned[owner].push(parent));
    assert(end.owned[owner] == state.owned[owner].push(parent));
    assert(!end.owned[owner].contains(child)) by {
        let kept = state.owned[owner].push(parent);
        assert forall|j: int| 0 <= j < kept.len() implies kept[j] != child by {
            if j < state.owned[owner].len() {
                assert(kept[j] == state.owned[owner][j]);
            }
        }
    }
    assert(end.owned[other] == state.owned[other].push(child));
    to_multiset_build(state.owned[other], child);
    to_multiset_contains(state.owned[other], child);
}

} // verus!
