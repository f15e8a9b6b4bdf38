//! Proofs that the registry stays in order: a fresh registry is valid, and
//! every operation leads from a valid registry to a valid one.

use vstd::prelude::*;
use vstd::multiset::Multiset;
use vstd::seq_lib::{to_multiset_build, to_multiset_contains, to_multiset_len, to_multiset_remove};
use crate::registry::{holdings, State};
use crate::types::{signer, AccountId, Config, Event, Kitty, KittyIndex, Origin};

verus! {

broadcast use vstd::multiset::group_multiset_axioms;

/// Holdings below `n` depend on nothing but the entries below `n`.
pub proof fn lemma_holdings_agree(
    kitties_1: Map<KittyIndex, Kitty>,
    owners_1: Map<KittyIndex, AccountId>,
    kitties_2: Map<KittyIndex, Kitty>,
    owners_2: Map<KittyIndex, AccountId>,
    n: nat,
    who: AccountId,
)
    requires
        forall|id: KittyIndex|
            #![trigger kitties_1[id]]
            #![trigger owners_1[id]]
            id < n ==> kitties_1[id] == kitties_2[id] && owners_1[id] == owners_2[id],
    ensures
        holdings(kitties_1, owners_1, n, who) == holdings(kitties_2, owners_2, n, who),
    decreases n,
{
    if n > 0 {
        lemma_holdings_agree(kitties_1, owners_1, kitties_2, owners_2, (n - 1) as nat, who);
        let id = (n - 1) as KittyIndex;
        assert(kitties_1[id] == kitties_2[id] && owners_1[id] == owners_2[id]);
    }
}

/// A registered kitty is among the holdings of its owner.
pub proof fn lemma_holdings_has(
    kitties: Map<KittyIndex, Kitty>,
    owners: Map<KittyIndex, AccountId>,
    n: nat,
    id: KittyIndex,
)
    requires
        id < n <= KittyIndex::MAX + 1,
    ensures
        holdings(kitties, owners, n, owners[id]).count(kitties[id]) > 0,
    decreases n,
{
    if id < n - 1 {
        lemma_holdings_has(kitties, owners, (n - 1) as nat, id);
    }
}

/// What giving the kitty registered as `id` to `to` does to the holdings of
/// `who`: the former owner loses it, `to` gains it, nobody else is affected.
pub proof fn lemma_holdings_reassigned(
    kitties: Map<KittyIndex, Kitty>,
    owners: Map<KittyIndex, AccountId>,
    n: nat,
    id: KittyIndex,
    to: AccountId,
    who: AccountId,
)
    requires
        id < n <= KittyIndex::MAX + 1,
        owners[id] != to,
    ensures
        holdings(kitties, owners.insert(id, to), n, who) == if who == owners[id] {
            holdings(kitties, owners, n, who).remove(kitties[id])
        } else if who == to {
            holdings(kitties, owners, n, who).insert(kitties[id])
        } else {
            holdings(kitties, owners, n, who)
        },
    decreases n,
{
    let moved = owners.insert(id, to);
    let last = (n - 1) as KittyIndex;
    let below = holdings(kitties, owners, (n - 1) as nat, who);
    let below_moved = holdings(kitties, moved, (n - 1) as nat, who);
    let expected = if who == owners[id] {
        holdings(kitties, owners, n, who).remove(kitties[id])
    } else if who == to {
        holdings(kitties, owners, n, who).insert(kitties[id])
    } else {
        holdings(kitties, owners, n, who)
    };
    if id == last {
        lemma_holdings_agree(kitties, moved, kitties, owners, (n - 1) as nat, who);
        assert(below_moved == below);
        assert(holdings(kitties, moved, n, who) =~= expected);
    } else {
        lemma_holdings_reassigned(kitties, owners, (n - 1) as nat, id, to, who);
        if who == owners[id] {
            lemma_holdings_has(kitties, owners, (n - 1) as nat, id);
        }
        assert(moved[last] == owners[last]);
        assert(holdings(kitties, moved, n, who) =~= expected);
    }
}

/// A fresh registry is in order, whatever the configuration.
pub proof fn lemma_initial_valid(config: Config)
    ensures
        State::initial().valid(config),
{
    let state = State::initial();
    assert forall|who: AccountId| (#[trigger] state.owned[who]).to_multiset()
        == state.holdings_of(who) by {
        assert(state.owned[who] =~= Seq::<Kitty>::empty());
        to_multiset_len(state.owned[who]);
        assert(state.owned[who].to_multiset() =~= Multiset::<Kitty>::empty());
    }
    assert forall|who: AccountId| #[trigger]
        state.stakes.reserved[who] == config.kitty_price * state.owned[who].len() by {
        assert(state.owned[who].len() == 0);
        assert(config.kitty_price * 0 == 0);
    }
}

/// Crediting an account keeps the registry in order.
pub proof fn lemma_deposit_valid(state: State, config: Config, who: AccountId, amount: nat)
    requires
        state.valid(config),
    ensures
        state.deposit(who, amount).valid(config),
{
    let after = state.deposit(who, amount);
    assert(after.holdings_of(who) == state.holdings_of(who));
    assert forall|other: AccountId| (#[trigger] after.owned[other]).to_multiset()
        == after.holdings_of(other) by {
        assert(state.owned[other].to_multiset() == state.holdings_of(other));
    }
}

/// Registering a new kitty for an account that can take it keeps the
/// registry in order.
pub proof fn lemma_mint_valid(state: State, config: Config, who: AccountId, kitty: Kitty)
    requires
        state.valid(config),
        state.mint_error(config, who) is None,
    ensures
        state.mint(config, who, kitty).valid(config),
{
    let after = state.mint(config, who, kitty);
    let n = state.next_kitty_id as nat;
    assert(after.next_kitty_id == n + 1);
    assert(state.stakes.free.contains_key(who) && state.stakes.reserved.contains_key(who));
    assert(state.owned.contains_key(who));
    assert(after.indexed());
    assert(after.total()) by {
        assert forall|other: AccountId|
            #![trigger after.stakes.free[other]]
            #![trigger after.stakes.reserved[other]]
            after.stakes.free[other] + after.stakes.reserved[other] <= u128::MAX by {
            assert(state.stakes.free[other] + state.stakes.reserved[other] <= u128::MAX);
        }
    }
    assert(after.bounded(config)) by {
        assert forall|other: AccountId| (#[trigger] after.owned[other]).len()
            <= config.max_kitty_length by {
            assert(state.owned[other].len() <= config.max_kitty_length);
        }
    }
    assert(after.consistent()) by {
        assert forall|other: AccountId| (#[trigger] after.owned[other]).to_multiset()
            == after.holdings_of(other) by {
            lemma_holdings_agree(
                after.kitties,
                after.owners,
                state.kitties,
                state.owners,
                n,
                other,
            );
            assert(state.owned[other].to_multiset() == state.holdings_of(other));
            if other == who {
                to_multiset_build(state.owned[who], kitty);
            }
        }
    }
    assert(after.staked(config)) by {
        assert forall|other: AccountId| #[trigger]
            after.stakes.reserved[other] == config.kitty_price * after.owned[other].len() by {
            assert(state.stakes.reserved[other] == config.kitty_price * state.owned[other].len());
            if other == who {
                let held = state.owned[who].len();
                assert(config.kitty_price * (held + 1) == config.kitty_price * held
                    + config.kitty_price) by (nonlinear_arith);
            }
        }
    }
}

/// Creating a kitty keeps the registry in order, whether the call succeeds
/// or not.
pub proof fn lemma_create_valid(state: State, config: Config, origin: Origin, kitty: Kitty)
    requires
        state.valid(config),
    ensures
        state.create(config, origin, kitty).0.valid(config),
{
    if let Some(who) = signer(origin) {
        if state.mint_error(config, who) is None {
            lemma_mint_valid(state, config, who, kitty);
        }
    }
}

/// Breeding keeps the registry in order, whether the call succeeds or not.
pub proof fn lemma_breed_valid(
    state: State,
    config: Config,
    origin: Origin,
    kitty_id_1: KittyIndex,
    kitty_id_2: KittyIndex,
    selector: [u8; 16],
)
    requires
        state.valid(config),
    ensures
        state.breed(config, origin, kitty_id_1, kitty_id_2, selector).0.valid(config),
{
    if let Ok(Event::KittyBreed(who, _, child)) = state.breed(
        config,
        origin,
        kitty_id_1,
        kitty_id_2,
        selector,
    ).1 {
        lemma_mint_valid(state, config, who, child);
    }
}

/// The owner of a registered kitty has it in its collection.
pub proof fn lemma_owner_holds(state: State, config: Config, kitty_id: KittyIndex)
    requires
        state.valid(config),
        state.kitties.contains_key(kitty_id),
    ensures
        state.owners.contains_key(kitty_id),
        state.owned[state.owners[kitty_id]].contains(state.kitties[kitty_id]),
        state.owned[state.owners[kitty_id]].len() > 0,
{
    let who = state.owners[kitty_id];
    let kitty = state.kitties[kitty_id];
    lemma_holdings_has(state.kitties, state.owners, state.next_kitty_id as nat, kitty_id);
    assert(state.owned[who].to_multiset() == state.holdings_of(who));
    to_multiset_contains(state.owned[who], kitty);
}

/// A transfer keeps the registry in order, whether the call succeeds or not.
pub proof fn lemma_transfor_valid(
    state: State,
    config: Config,
    origin: Origin,
    kitty_id: KittyIndex,
    to: AccountId,
)
    requires
        state.valid(config),
    ensures
        state.transfor(config, origin, kitty_id, to).0.valid(config),
{
    let (after, result) = state.transfor(config, origin, kitty_id, to);
    if result is Ok {
        let who = signer(origin).unwrap();
        let kitty = state.kitties[kitty_id];
        let price = config.kitty_price as nat;
        let n = state.next_kitty_id as nat;
        let held = state.owned[who];
        let rest = held.remove_value(kitty);
        lemma_owner_holds(state, config, kitty_id);
        held.index_of_first_ensures(kitty);
        let at = held.index_of_first(kitty).unwrap();
        assert(rest == held.remove(at));
        to_multiset_remove(held, at);
        to_multiset_build(rest, kitty);
        assert(state.owned.contains_key(who) && state.owned.contains_key(to));
        assert(state.stakes.free.contains_key(who) && state.stakes.reserved.contains_key(who));
        assert(state.stakes.free.contains_key(to) && state.stakes.reserved.contains_key(to));
        assert(state.stakes.reserved[who] == config.kitty_price * held.len());
        assert(state.stakes.reserved[who] >= price) by {
            assert(held.len() >= 1);
            assert(config.kitty_price * held.len() >= config.kitty_price) by (nonlinear_arith)
                requires
                    held.len() >= 1,
            ;
        }
        assert(state.stakes.releasable(who, price) == price);
        assert(state.stakes.free[who] + state.stakes.reserved[who] <= u128::MAX);
        assert(state.stakes.free[to] + state.stakes.reserved[to] <= u128::MAX);
        assert(state.stakes.reserved[to] == config.kitty_price * state.owned[to].len());
        assert(held.len() <= config.max_kitty_length);
        assert(state.owned[to].len() <= config.max_kitty_length);
        assert(config.kitty_price * (held.len() - 1) == config.kitty_price * held.len()
            - config.kitty_price) by (nonlinear_arith);
        assert(config.kitty_price * (state.owned[to].len() + 1) == config.kitty_price
            * state.owned[to].len() + config.kitty_price) by (nonlinear_arith);
        assert(after.indexed());
        assert(after.total()) by {
            assert forall|other: AccountId|
                #![trigger after.stakes.free[other]]
                #![trigger after.stakes.reserved[other]]
                after.stakes.free[other] + after.stakes.reserved[other] <= u128::MAX by {
                assert(state.stakes.free[other] + state.stakes.reserved[other] <= u128::MAX);
            }
        }
        assert(after.bounded(config)) by {
            assert forall|other: AccountId| (#[trigger] after.owned[other]).len()
                <= config.max_kitty_length by {
                assert(state.owned[other].len() <= config.max_kitty_length);
            }
        }
        assert(after.staked(config)) by {
            assert forall|other: AccountId| #[trigger]
                after.stakes.reserved[other] == config.kitty_price * after.owned[other].len() by {
                assert(state.stakes.reserved[other] == config.kitty_price
                    * state.owned[other].len());
            }
        }
        assert(after.consistent()) by {
            assert forall|other: AccountId| (#[trigger] after.owned[other]).to_multiset()
                == after.holdings_of(other) by {
                assert(state.owned[other].to_multiset() == state.holdings_of(other));
                if who == to {
                    assert(after.owners =~= state.owners);
                    if other == who {
                        to_multiset_contains(held, kitty);
                        assert(after.owned[who] == rest.push(kitty));
                        assert(rest.push(kitty).to_multiset() =~= held.to_multiset());
                    }
                } else {
                    lemma_holdings_reassigned(state.kitties, state.owners, n, kitty_id, to, other);
                    if other == who {
                        assert(after.owned[who] == rest);
                    } else if other == to {
                        to_multiset_build(state.owned[to], kitty);
                        assert(after.owned[to] == state.owned[to].push(kitty));
                    } else {
                        assert(after.owned[other] == state.owned[other]);
                    }
                }
            }
        }
    }
}

} // verus!
