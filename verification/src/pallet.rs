//! The registry itself: its storage and the three operations on it.

use vstd::prelude::*;
use std::collections::HashMap;
use crate::custody::Custody;
use crate::genome::{breed_dna, random_dna, random_value};
use crate::invariants::{
    lemma_deposit_valid,
    lemma_initial_valid,
    lemma_mint_valid,
    lemma_owner_holds,
    lemma_transfor_valid,
};
use crate::registry::{Call, State};
use crate::types::{
    ensure_signed,
    signer,
    AccountId,
    Balance,
    Config,
    Error,
    Event,
    GetdefaultValue,
    Kitty,
    KittyIndex,
    Origin,
};

verus! {

broadcast use vstd::std_specs::hash::group_hash_axioms;

/// The collections of all accounts: an account without an entry holds
/// nothing.
spec fn collections(history: Map<AccountId, Vec<Kitty>>) -> Map<AccountId, Seq<Kitty>> {
    Map::total(
        |who: AccountId|
            if history.contains_key(who) {
                history[who]@
            } else {
                Seq::<Kitty>::empty()
            },
    )
}

/// Whether two kitties have the same genome.
fn same_kitty(a: &Kitty, b: &Kitty) -> (same: bool)
    ensures
        same == (*a == *b),
{
    let mut i: usize = 0;
    while i < 16
        invariant
            i <= 16,
            forall|j: int| 0 <= j < i ==> a.0[j] == b.0[j],
        decreases 16 - i,
    {
        if a.0[i] != b.0[i] {
            return false;
        }
        i += 1;
    }
    assert(a.0 =~= b.0);
    true
}

/// Where `kitty` first occurs in `held`.
fn position(held: &Vec<Kitty>, kitty: &Kitty) -> (at: Option<usize>)
    ensures
        match at {
            Some(i) => held@.index_of_first(*kitty) == Some(i as int),
            None => held@.index_of_first(*kitty) is None,
        },
{
    let mut i: usize = 0;
    while i < held.len()
        invariant
            i <= held.len(),
            forall|j: int| 0 <= j < i ==> held@[j] != *kitty,
        decreases held.len() - i,
    {
        if same_kitty(&held[i], kitty) {
            proof {
                held@.index_of_first_ensures(*kitty);
            }
            return Some(i);
        }
        i += 1;
    }
    proof {
        held@.index_of_first_ensures(*kitty);
    }
    None
}

/// Appends `kitty` to the collection of `who`.
fn push_kitty(history: &mut HashMap<AccountId, Vec<Kitty>>, who: AccountId, kitty: Kitty)
    ensures
        collections(final(history)@) == collections(old(history)@).insert(
            who,
            collections(old(history)@)[who].push(kitty),
        ),
{
    let mut held = match history.remove(&who) {
        Some(held) => held,
        None => Vec::new(),
    };
    held.push(kitty);
    history.insert(who, held);
    assert(collections(history@) =~= collections(old(history)@).insert(
        who,
        collections(old(history)@)[who].push(kitty),
    ));
}

/// Takes the kitty at position `at` out of the collection of `who`.
fn take_kitty(history: &mut HashMap<AccountId, Vec<Kitty>>, who: AccountId, at: usize)
    requires
        at < collections(old(history)@)[who].len(),
    ensures
        collections(final(history)@) == collections(old(history)@).insert(
            who,
            collections(old(history)@)[who].remove(at as int),
        ),
{
    let mut held = match history.remove(&who) {
        Some(held) => held,
        None => Vec::new(),
    };
    held.remove(at);
    history.insert(who, held);
    assert(collections(history@) =~= collections(old(history)@).insert(
        who,
        collections(old(history)@)[who].remove(at as int),
    ));
}

/// A registry of kitties, together with the stake that backs them.
pub struct Pallet {
    config: Config,
    next_kitty_id: KittyIndex,
    kitties: HashMap<KittyIndex, Kitty>,
    kitty_onwer: HashMap<KittyIndex, AccountId>,
    kitty_onwer_history: HashMap<AccountId, Vec<Kitty>>,
    currency: Custody,
}

impl View for Pallet {
    type V = State;

    closed spec fn view(&self) -> State {
        State {
            next_kitty_id: self.next_kitty_id,
            kitties: self.kitties@,
            owners: self.kitty_onwer@,
            owned: collections(self.kitty_onwer_history@),
            stakes: self.currency@,
        }
    }
}

impl Pallet {
    /// The configuration the registry was set up with. It never changes.
    pub closed spec fn config(&self) -> Config {
        self.config
    }

    /// The registry is in order. Every registry this module hands out is,
    /// and stays so.
    pub closed spec fn wf(&self) -> bool {
        &&& self.currency.wf()
        &&& self@.valid(self.config)
    }

    /// A registry that is in order holds a valid state.
    pub proof fn lemma_wf(&self)
        requires
            self.wf(),
        ensures
            self@.valid(self.config()),
    {
    }

    /// An empty registry: no kitty, no stake, and `0` as the next identifier.
    pub fn new(config: Config) -> (pallet: Pallet)
        ensures
            pallet.wf(),
            pallet.config() == config,
            pallet@ == State::initial(),
    {
        let pallet = Pallet {
            config,
            next_kitty_id: GetdefaultValue(),
            kitties: HashMap::new(),
            kitty_onwer: HashMap::new(),
            kitty_onwer_history: HashMap::new(),
            currency: Custody::new(),
        };
        proof {
            lemma_initial_valid(config);
            assert(pallet@.owned =~= State::initial().owned);
        }
        pallet
    }

    /// The identifier the next kitty will get.
    pub fn next_kitty_id(&self) -> (next: KittyIndex)
        ensures
            next == self@.next_kitty_id,
    {
        self.next_kitty_id
    }

    /// The kitty registered as `kitty_id`, if there is one.
    pub fn kitties(&self, kitty_id: KittyIndex) -> (kitty: Option<Kitty>)
        ensures
            kitty == if self@.kitties.contains_key(kitty_id) {
                Some(self@.kitties[kitty_id])
            } else {
                None
            },
    {
        match self.kitties.get(&kitty_id) {
            Some(kitty) => Some(*kitty),
            None => None,
        }
    }

    /// The current owner of the kitty registered as `kitty_id`, if there is
    /// one.
    pub fn kitty_onwer(&self, kitty_id: KittyIndex) -> (owner: Option<AccountId>)
        ensures
            owner == if self@.owners.contains_key(kitty_id) {
                Some(self@.owners[kitty_id])
            } else {
                None
            },
    {
        match self.kitty_onwer.get(&kitty_id) {
            Some(owner) => Some(*owner),
            None => None,
        }
    }

    /// The kitties that `who` holds, in the order `who` acquired them.
    pub fn all_kts_owned(&self, who: AccountId) -> (held: Vec<Kitty>)
        ensures
            held@ == self@.owned[who],
    {
        let mut held: Vec<Kitty> = Vec::new();
        match self.kitty_onwer_history.get(&who) {
            Some(stored) => {
                let mut i: usize = 0;
                while i < stored.len()
                    invariant
                        i <= stored.len(),
                        held@ == stored@.take(i as int),
                    decreases stored.len() - i,
                {
                    held.push(stored[i]);
                    i += 1;
                    assert(held@ =~= stored@.take(i as int));
                }
                assert(stored@.take(i as int) =~= stored@);
            },
            None => {},
        }
        held
    }

    /// How many kitties `who` holds.
    fn owned_len(&self, who: AccountId) -> (len: usize)
        ensures
            len == self@.owned[who].len(),
    {
        match self.kitty_onwer_history.get(&who) {
            Some(stored) => stored.len(),
            None => 0,
        }
    }

    /// The free balance of `who`.
    pub fn free_balance(&self, who: AccountId) -> (amount: Balance)
        ensures
            amount == self@.stakes.free[who],
    {
        self.currency.free_balance(who)
    }

    /// The balance reserved against `who`.
    pub fn reserved_balance(&self, who: AccountId) -> (amount: Balance)
        ensures
            amount == self@.stakes.reserved[who],
    {
        self.currency.reserved_balance(who)
    }

    /// Credits `amount` to the free balance of `who`, unless the account
    /// would then hold more than a `Balance` can express: in that case nothing
    /// changes and the answer is `false`.
    pub fn deposit(&mut self, who: AccountId, amount: Balance) -> (credited: bool)
        requires
            old(self).wf(),
        ensures
            final(self).wf(),
            final(self).config() == old(self).config(),
            credited == old(self)@.stakes.can_deposit(who, amount as nat),
            final(self)@ == old(self)@.deposit(who, amount as nat),
    {
        let credited = self.currency.deposit(who, amount);
        proof {
            lemma_deposit_valid(old(self)@, self.config, who, amount as nat);
        }
        credited
    }

    /// The identifier the next kitty will get, unless the supply of
    /// identifiers is exhausted. Nothing is allocated by asking.
    pub fn get_next_id(&self) -> (result: Result<KittyIndex, Error>)
        ensures
            result == if self@.next_kitty_id == self.config().max_kitty_index {
                Err::<KittyIndex, Error>(Error::IdentifierExhausted)
            } else {
                Ok(self@.next_kitty_id)
            },
    {
        let kitty_id = self.next_kitty_id;
        if kitty_id == self.config.max_kitty_index {
            return Err(Error::IdentifierExhausted);
        }
        Ok(kitty_id)
    }

    /// The kitty registered as `kitty_id`, or `InvalidAssetId` if there is
    /// none.
    pub fn get_kitty(&self, kitty_id: KittyIndex) -> (result: Result<Kitty, Error>)
        ensures
            result == if self@.kitties.contains_key(kitty_id) {
                Ok::<Kitty, Error>(self@.kitties[kitty_id])
            } else {
                Err(Error::InvalidAssetId)
            },
    {
        match self.kitties(kitty_id) {
            Some(kitty) => Ok(kitty),
            None => Err(Error::InvalidAssetId),
        }
    }

    /// Registers `kitty` under `kitty_id` for `sender` and reserves the
    /// stake for it.
    fn mint(&mut self, sender: AccountId, kitty_id: KittyIndex, next_kitty_id: KittyIndex, kitty: Kitty)
        requires
            old(self).wf(),
            old(self)@.mint_error(old(self).config(), sender) is None,
            kitty_id == old(self)@.next_kitty_id,
            next_kitty_id == kitty_id + 1,
        ensures
            final(self).wf(),
            final(self).config() == old(self).config(),
            final(self)@ == old(self)@.mint(old(self).config(), sender, kitty),
    {
        let reserved = self.currency.reserve(sender, self.config.kitty_price);
        assert(reserved is Ok);
        self.kitties.insert(kitty_id, kitty);
        self.kitty_onwer.insert(kitty_id, sender);
        self.next_kitty_id = next_kitty_id;
        push_kitty(&mut self.kitty_onwer_history, sender, kitty);
        proof {
            lemma_mint_valid(old(self)@, self.config, sender, kitty);
        }
    }

    /// Creates a kitty with the genome `dna` for the account that signed
    /// `origin`, which puts up the stake for it.
    ///
    /// Refused, in this order of precedence, when the origin is not signed,
    /// when the account cannot afford the stake, when no identifier is left,
    /// and when the account's collection is full. A refused call changes
    /// nothing.
    pub fn create_with_dna(&mut self, origin: Origin, dna: [u8; 16]) -> (result: Result<
        Event,
        Error,
    >)
        requires
            old(self).wf(),
        ensures
            final(self).wf(),
            final(self).config() == old(self).config(),
            (final(self)@, result) == old(self)@.create(old(self).config(), origin, Kitty(dna)),
    {
        let sender = match ensure_signed(origin) {
            Ok(sender) => sender,
            Err(error) => {
                return Err(error);
            },
        };
        if !self.currency.can_reserve(sender, self.config.kitty_price) {
            return Err(Error::InsufficientBalance);
        }
        let kitty_id = match self.get_next_id() {
            Ok(kitty_id) => kitty_id,
            Err(error) => {
                return Err(error);
            },
        };
        let next_kitty_id = match kitty_id.checked_add(1) {
            Some(next_kitty_id) => next_kitty_id,
            None => {
                return Err(Error::IdentifierExhausted);
            },
        };
        if self.owned_len(sender) >= self.config.max_kitty_length as usize {
            return Err(Error::OwnerCollectionFull);
        }
        let kitty = Kitty(dna);
        self.mint(sender, kitty_id, next_kitty_id, kitty);
        Ok(Event::KittyCreate(sender, kitty_id, kitty))
    }

    /// Creates a kitty whose genome is derived from `seed`, the signing
    /// account and `extrinsic_index`.
    pub fn create(&mut self, origin: Origin, seed: &[u8], extrinsic_index: Option<u32>) -> (result:
        Result<Event, Error>)
        requires
            old(self).wf(),
        ensures
            final(self).wf(),
            final(self).config() == old(self).config(),
            (final(self)@, result) == match signer(origin) {
                Some(sender) => old(self)@.create(
                    old(self).config(),
                    origin,
                    Kitty(random_dna(seed@, sender, extrinsic_index)),
                ),
                None => (old(self)@, Err(Error::Unauthorized)),
            },
    {
        let sender = match ensure_signed(origin) {
            Ok(sender) => sender,
            Err(error) => {
                return Err(error);
            },
        };
        let dna = random_value(seed, sender, extrinsic_index);
        self.create_with_dna(origin, dna)
    }

    /// Breeds the kitties registered as `kitty_id_1` and `kitty_id_2` under
    /// `selector`, for the account that signed `origin`, which puts up the
    /// stake for the child. The caller need not own the parents.
    ///
    /// Refused, in this order of precedence, when the origin is not signed,
    /// when the account cannot afford the stake, when either parent is not
    /// registered, when no identifier is left, and when the account's
    /// collection is full. A refused call changes nothing.
    pub fn breed_with_selector(
        &mut self,
        origin: Origin,
        kitty_id_1: KittyIndex,
        kitty_id_2: KittyIndex,
        selector: [u8; 16],
    ) -> (result: Result<Event, Error>)
        requires
            old(self).wf(),
        ensures
            final(self).wf(),
            final(self).config() == old(self).config(),
            (final(self)@, result) == old(self)@.breed(
                old(self).config(),
                origin,
                kitty_id_1,
                kitty_id_2,
                selector,
            ),
    {
        let sender = match ensure_signed(origin) {
            Ok(sender) => sender,
            Err(error) => {
                return Err(error);
            },
        };
        if !self.currency.can_reserve(sender, self.config.kitty_price) {
            return Err(Error::InsufficientBalance);
        }
        let kitty_1 = match self.get_kitty(kitty_id_1) {
            Ok(kitty) => kitty,
            Err(error) => {
                return Err(error);
            },
        };
        let kitty_2 = match self.get_kitty(kitty_id_2) {
            Ok(kitty) => kitty,
            Err(error) => {
                return Err(error);
            },
        };
        let kitty_id = match self.get_next_id() {
            Ok(kitty_id) => kitty_id,
            Err(error) => {
                return Err(error);
            },
        };
        let next_kitty_id = match kitty_id.checked_add(1) {
            Some(next_kitty_id) => next_kitty_id,
            None => {
                return Err(Error::IdentifierExhausted);
            },
        };
        if self.owned_len(sender) >= self.config.max_kitty_length as usize {
            return Err(Error::OwnerCollectionFull);
        }
        let new_kitty = Kitty(breed_dna(&kitty_1.0, &kitty_2.0, &selector));
        self.mint(sender, kitty_id, next_kitty_id, new_kitty);
        Ok(Event::KittyBreed(sender, kitty_id, new_kitty))
    }

    /// Breeds two kitties under a selector that is derived from `seed`, the
    /// signing account and `extrinsic_index`.
    pub fn breed(
        &mut self,
        origin: Origin,
        kitty_id_1: KittyIndex,
        kitty_id_2: KittyIndex,
        seed: &[u8],
        extrinsic_index: Option<u32>,
    ) -> (result: Result<Event, Error>)
        requires
            old(self).wf(),
        ensures
            final(self).wf(),
            final(self).config() == old(self).config(),
            (final(self)@, result) == match signer(origin) {
                Some(sender) => old(self)@.breed(
                    old(self).config(),
                    origin,
                    kitty_id_1,
                    kitty_id_2,
                    random_dna(seed@, sender, extrinsic_index),
                ),
                None => (old(self)@, Err(Error::Unauthorized)),
            },
    {
        let sender = match ensure_signed(origin) {
            Ok(sender) => sender,
            Err(error) => {
                return Err(error);
            },
        };
        let selector = random_value(seed, sender, extrinsic_index);
        self.breed_with_selector(origin, kitty_id_1, kitty_id_2, selector)
    }

    /// Hands the kitty registered as `kitty_id` over from the account that
    /// signed `origin` to `to`: the caller's stake is released, and `to` puts
    /// up its own.
    ///
    /// Refused, in this order of precedence, when the origin is not signed,
    /// when no kitty is registered as `kitty_id`, when the caller does not
    /// own it, when `to` cannot afford the stake, and when the collection of
    /// `to` is full. A refused call changes nothing: in particular the
    /// caller's stake stays reserved.
    pub fn transfor(&mut self, origin: Origin, kitty_id: KittyIndex, to: AccountId) -> (result:
        Result<Event, Error>)
        requires
            old(self).wf(),
        ensures
            final(self).wf(),
            final(self).config() == old(self).config(),
            (final(self)@, result) == old(self)@.transfor(old(self).config(), origin, kitty_id, to),
    {
        let sender = match ensure_signed(origin) {
            Ok(sender) => sender,
            Err(error) => {
                return Err(error);
            },
        };
        let kitty = match self.get_kitty(kitty_id) {
            Ok(kitty) => kitty,
            Err(error) => {
                return Err(error);
            },
        };
        match self.kitty_onwer(kitty_id) {
            Some(owner) => {
                if owner != sender {
                    return Err(Error::NotOwner);
                }
            },
            None => {
                return Err(Error::NotOwner);
            },
        }
        proof {
            self.currency.lemma_wf();
            lemma_owner_holds(self@, self.config, kitty_id);
        }
        let price = self.config.kitty_price;
        let affordable = if to == sender {
            let reserved = self.currency.reserved_balance(sender);
            let released = if price <= reserved {
                price
            } else {
                reserved
            };
            self.currency.free_balance(sender) + released >= price
        } else {
            self.currency.can_reserve(to, price)
        };
        if !affordable {
            return Err(Error::InsufficientBalance);
        }
        let held = self.owned_len(sender);
        let at = match self.kitty_onwer_history.get(&sender) {
            Some(stored) => position(stored, &kitty),
            None => None,
        };
        proof {
            self@.owned[sender].index_of_first_ensures(kitty);
        }
        let at = match at {
            Some(at) => at,
            None => {
                return Err(Error::NotOwner);
            },
        };
        let room_taken = if to == sender {
            held - 1
        } else {
            self.owned_len(to)
        };
        if room_taken >= self.config.max_kitty_length as usize {
            return Err(Error::OwnerCollectionFull);
        }
        self.currency.release(sender, price);
        let reserved = self.currency.reserve(to, price);
        assert(reserved is Ok);
        self.kitty_onwer.insert(kitty_id, to);
        take_kitty(&mut self.kitty_onwer_history, sender, at);
        push_kitty(&mut self.kitty_onwer_history, to, kitty);
        proof {
            lemma_transfor_valid(old(self)@, self.config, origin, kitty_id, to);
            assert(self@ =~= old(self)@.transfor(self.config, origin, kitty_id, to).0);
        }
        Ok(Event::KittyTransfor(sender, kitty_id, to))
    }

    /// Makes one call of any kind, and reports the outcome of an operation,
    /// or nothing for a deposit.
    pub fn dispatch(&mut self, call: Call) -> (answer: Option<Result<Event, Error>>)
        requires
            old(self).wf(),
        ensures
            final(self).wf(),
            final(self).config() == old(self).config(),
            (final(self)@, answer) == old(self)@.answer(old(self).config(), call),
    {
        match call {
            Call::Create { origin, dna } => Some(self.create_with_dna(origin, dna)),
            Call::Breed { origin, kitty_id_1, kitty_id_2, selector } => Some(
                self.breed_with_selector(origin, kitty_id_1, kitty_id_2, selector),
            ),
            Call::Transfor { origin, kitty_id, to } => Some(self.transfor(origin, kitty_id, to)),
            Call::Deposit { who, amount } => {
                self.deposit(who, amount);
                None
            },
        }
    }
}

} // verus!
