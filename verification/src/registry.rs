//! The registry as a mathematical object: what it holds, when that is
//! consistent, and what each operation makes of it.

use vstd::prelude::*;
use vstd::multiset::Multiset;
use crate::custody::Stakes;
use crate::genome::bred_dna;
use crate::types::{
    signer,
    AccountId,
    Balance,
    Config,
    Error,
    Event,
    Kitty,
    KittyIndex,
    Origin,
};

verus! {

/// Everything the registry remembers between calls.
#[verifier::ext_equal]
pub struct State {
    /// The identifier the next kitty will get.
    pub next_kitty_id: KittyIndex,
    /// Every kitty ever registered, by identifier.
    pub kitties: Map<KittyIndex, Kitty>,
    /// The current owner of every registered kitty.
    pub owners: Map<KittyIndex, AccountId>,
    /// For every account, the kitties it holds, in the order it acquired them.
    pub owned: Map<AccountId, Seq<Kitty>>,
    /// The free and reserved stake of every account.
    pub stakes: Stakes,
}

/// The kitties registered under identifiers below `n` that `who` owns, each
/// as often as it is registered to `who`.
pub open spec fn holdings(
    kitties: Map<KittyIndex, Kitty>,
    owners: Map<KittyIndex, AccountId>,
    n: nat,
    who: AccountId,
) -> Multiset<Kitty>
    decreases n,
{
    if n == 0 {
        Multiset::empty()
    } else {
        let id = (n - 1) as KittyIndex;
        let below = holdings(kitties, owners, (n - 1) as nat, who);
        if owners[id] == who {
            below.insert(kitties[id])
        } else {
            below
        }
    }
}

impl State {
    /// The registry before anything happened: no kitty, no stake.
    pub open spec fn initial() -> State {
        State {
            next_kitty_id: 0,
            kitties: Map::empty(),
            owners: Map::empty(),
            owned: Map::total(|who: AccountId| Seq::<Kitty>::empty()),
            stakes: Stakes::empty(),
        }
    }

    /// The kitties that the owner index assigns to `who`.
    pub open spec fn holdings_of(self, who: AccountId) -> Multiset<Kitty> {
        holdings(self.kitties, self.owners, self.next_kitty_id as nat, who)
    }

    /// The identifiers in use are exactly those below the next one, and each
    /// of them has a kitty and an owner.
    pub open spec fn indexed(self) -> bool {
        &&& forall|id: KittyIndex| #[trigger]
            self.kitties.contains_key(id) <==> id < self.next_kitty_id
        &&& forall|id: KittyIndex| #[trigger]
            self.owners.contains_key(id) <==> id < self.next_kitty_id
    }

    /// Every account has a collection, and a free and a reserved balance
    /// that together fit in a `Balance`.
    pub open spec fn total(self) -> bool {
        &&& forall|who: AccountId| #[trigger] self.owned.contains_key(who)
        &&& self.stakes.total()
        &&& self.stakes.representable()
    }

    /// No account holds more kitties than the configuration allows.
    pub open spec fn bounded(self, config: Config) -> bool {
        forall|who: AccountId| (#[trigger] self.owned[who]).len() <= config.max_kitty_length
    }

    /// Every account's collection holds exactly the kitties that the owner
    /// index assigns to it, each as often as it is assigned.
    pub open spec fn consistent(self) -> bool {
        forall|who: AccountId| (#[trigger] self.owned[who]).to_multiset() == self.holdings_of(who)
    }

    /// Every account has the price of one kitty reserved for each kitty it
    /// holds, and nothing more.
    pub open spec fn staked(self, config: Config) -> bool {
        forall|who: AccountId| #[trigger]
            self.stakes.reserved[who] == config.kitty_price * self.owned[who].len()
    }

    /// The registry is in order.
    pub open spec fn valid(self, config: Config) -> bool {
        &&& self.next_kitty_id <= config.max_kitty_index
        &&& self.indexed()
        &&& self.total()
        &&& self.bounded(config)
        &&& self.consistent()
        &&& self.staked(config)
    }

    /// `amount` credited to `who`, where the account can take it.
    pub open spec fn deposit(self, who: AccountId, amount: nat) -> State {
        if self.stakes.can_deposit(who, amount) {
            State { stakes: self.stakes.deposit(who, amount), ..self }
        } else {
            self
        }
    }

    /// Why `who` cannot be given a new kitty, if anything stands against it:
    /// the stake, the supply of identifiers, or the room in the collection,
    /// asked in this order.
    pub open spec fn mint_error(self, config: Config, who: AccountId) -> Option<Error> {
        if !self.stakes.can_reserve(who, config.kitty_price as nat) {
            Some(Error::InsufficientBalance)
        } else if self.next_kitty_id == config.max_kitty_index {
            Some(Error::IdentifierExhausted)
        } else if self.owned[who].len() >= config.max_kitty_length {
            Some(Error::OwnerCollectionFull)
        } else {
            None
        }
    }

    /// `kitty` registered under the next identifier, owned by `who`, who has
    /// put up the stake for it.
    pub open spec fn mint(self, config: Config, who: AccountId, kitty: Kitty) -> State {
        State {
            next_kitty_id: (self.next_kitty_id + 1) as KittyIndex,
            kitties: self.kitties.insert(self.next_kitty_id, kitty),
            owners: self.owners.insert(self.next_kitty_id, who),
            owned: self.owned.insert(who, self.owned[who].push(kitty)),
            stakes: self.stakes.reserve(who, config.kitty_price as nat),
        }
    }

    /// What creating `kitty` on behalf of `origin` leads to: the state
    /// afterwards, and what the caller is told.
    pub open spec fn create(self, config: Config, origin: Origin, kitty: Kitty) -> (
        State,
        Result<Event, Error>,
    ) {
        match signer(origin) {
            None => (self, Err(Error::Unauthorized)),
            Some(who) => match self.mint_error(config, who) {
                Some(error) => (self, Err(error)),
                None => (
                    self.mint(config, who, kitty),
                    Ok(Event::KittyCreate(who, self.next_kitty_id, kitty)),
                ),
            },
        }
    }

    /// What breeding the kitties registered as `kitty_id_1` and `kitty_id_2`
    /// under `selector` leads to. The caller need not own the parents.
    pub open spec fn breed(
        self,
        config: Config,
        origin: Origin,
        kitty_id_1: KittyIndex,
        kitty_id_2: KittyIndex,
        selector: [u8; 16],
    ) -> (State, Result<Event, Error>) {
        match signer(origin) {
            None => (self, Err(Error::Unauthorized)),
            Some(who) => if !self.stakes.can_reserve(who, config.kitty_price as nat) {
                (self, Err(Error::InsufficientBalance))
            } else if !self.kitties.contains_key(kitty_id_1) || !self.kitties.contains_key(
                kitty_id_2,
            ) {
                (self, Err(Error::InvalidAssetId))
            } else {
                match self.mint_error(config, who) {
                    Some(error) => (self, Err(error)),
                    None => {
                        let child = Kitty(
                            bred_dna(self.kitties[kitty_id_1].0, self.kitties[kitty_id_2].0, selector),
                        );
                        (
                            self.mint(config, who, child),
                            Ok(Event::KittyBreed(who, self.next_kitty_id, child)),
                        )
                    },
                }
            },
        }
    }

    /// What handing the kitty registered as `kitty_id` over to `to` leads to.
    ///
    /// The caller's stake is released before the recipient's is reserved, and
    /// the kitty leaves the caller's collection before it enters the
    /// recipient's: that is what makes a transfer to oneself succeed.
    pub open spec fn transfor(
        self,
        config: Config,
        origin: Origin,
        kitty_id: KittyIndex,
        to: AccountId,
    ) -> (State, Result<Event, Error>) {
        match signer(origin) {
            None => (self, Err(Error::Unauthorized)),
            Some(who) => if !self.kitties.contains_key(kitty_id) {
                (self, Err(Error::InvalidAssetId))
            } else if !self.owners.contains_key(kitty_id) || self.owners[kitty_id] != who {
                (self, Err(Error::NotOwner))
            } else {
                let kitty = self.kitties[kitty_id];
                let price = config.kitty_price as nat;
                let released = self.stakes.release(who, price);
                let given = self.owned.insert(who, self.owned[who].remove_value(kitty));
                if !released.can_reserve(to, price) {
                    (self, Err(Error::InsufficientBalance))
                } else if !self.owned[who].contains(kitty) {
                    (self, Err(Error::NotOwner))
                } else if given[to].len() >= config.max_kitty_length {
                    (self, Err(Error::OwnerCollectionFull))
                } else {
                    (
                        State {
                            next_kitty_id: self.next_kitty_id,
                            kitties: self.kitties,
                            owners: self.owners.insert(kitty_id, to),
                            owned: given.insert(to, given[to].push(kitty)),
                            stakes: released.reserve(to, price),
                        },
                        Ok(Event::KittyTransfor(who, kitty_id, to)),
                    )
                }
            },
        }
    }
}

/// Anything that can be asked of the registry.
#[derive(Clone, Copy, PartialEq, Eq, Debug)]
pub enum Call {
    /// Create a kitty with the genome `dna`.
    Create { origin: Origin, dna: [u8; 16] },
    /// Breed two registered kitties under `selector`.
    Breed { origin: Origin, kitty_id_1: KittyIndex, kitty_id_2: KittyIndex, selector: [u8; 16] },
    /// Hand a kitty over to `to`.
    Transfor { origin: Origin, kitty_id: KittyIndex, to: AccountId },
    /// Credit `amount` to the free balance of `who`.
    Deposit { who: AccountId, amount: Balance },
}

impl State {
    /// The state a call leaves behind, and what it reports: the outcome of an
    /// operation, or nothing for a deposit.
    pub open spec fn answer(self, config: Config, call: Call) -> (
        State,
        Option<Result<Event, Error>>,
    ) {
        match call {
            Call::Create { origin, dna } => {
                let (after, result) = self.create(config, origin, Kitty(dna));
                (after, Some(result))
            },
            Call::Breed { origin, kitty_id_1, kitty_id_2, selector } => {
                let (after, result) = self.breed(config, origin, kitty_id_1, kitty_id_2, selector);
                (after, Some(result))
            },
            Call::Transfor { origin, kitty_id, to } => {
                let (after, result) = self.transfor(config, origin, kitty_id, to);
                (after, Some(result))
            },
            Call::Deposit { who, amount } => (self.deposit(who, amount as nat), None),
        }
    }

    /// The state after all of `calls`, made one after the other.
    pub open spec fn run(self, config: Config, calls: Seq<Call>) -> State
        decreases calls.len(),
    {
        if calls.len() == 0 {
            self
        } else {
            self.run(config, calls.drop_last()).answer(config, calls.last()).0
        }
    }

    /// The identifiers handed out while `calls` are made, in the order in
    /// which they are handed out.
    pub open spec fn handed_out(self, config: Config, calls: Seq<Call>) -> Seq<KittyIndex>
        decreases calls.len(),
    {
        if calls.len() == 0 {
            Seq::empty()
        } else {
            let earlier = self.handed_out(config, calls.drop_last());
            let reached = self.run(config, calls.drop_last());
            match minted(reached.answer(config, calls.last()).1) {
                Some(kitty_id) => earlier.push(kitty_id),
                None => earlier,
            }
        }
    }
}

/// The identifier that a call reports to have handed out, if it did.
pub open spec fn minted(answer: Option<Result<Event, Error>>) -> Option<KittyIndex> {
    match answer {
        Some(Ok(Event::KittyCreate(_, kitty_id, _))) => Some(kitty_id),
        Some(Ok(Event::KittyBreed(_, kitty_id, _))) => Some(kitty_id),
        _ => None,
    }
}

} // verus!
