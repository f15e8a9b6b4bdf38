//! Custody of stake: every account has a free balance and a reserved one, and
//! stake moves between the two as kitties are acquired and given away.

use vstd::prelude::*;
use std::collections::HashMap;
use crate::types::{AccountId, Balance, Error};

verus! {

broadcast use vstd::std_specs::hash::group_hash_axioms;

/// The balances of all accounts, as two total maps.
#[verifier::ext_equal]
pub struct Stakes {
    /// What each account may still spend or reserve.
    pub free: Map<AccountId, nat>,
    /// What is locked against each account.
    pub reserved: Map<AccountId, nat>,
}

impl Stakes {
    /// Both maps cover every account.
    pub open spec fn total(self) -> bool {
        forall|who: AccountId|
            #![trigger self.free.contains_key(who)]
            #![trigger self.reserved.contains_key(who)]
            self.free.contains_key(who) && self.reserved.contains_key(who)
    }

    /// Every account's two balances together fit in a `Balance`.
    pub open spec fn representable(self) -> bool {
        forall|who: AccountId|
            #![trigger self.free[who]]
            #![trigger self.reserved[who]]
            self.free[who] + self.reserved[who] <= Balance::MAX
    }

    /// No account holds anything.
    pub open spec fn empty() -> Stakes {
        Stakes { free: Map::total(|who: AccountId| 0nat), reserved: Map::total(|who: AccountId| 0nat) }
    }

    /// Whether `who` has `amount` free.
    pub open spec fn can_reserve(self, who: AccountId, amount: nat) -> bool {
        self.free[who] >= amount
    }

    /// Whether crediting `amount` to `who` keeps the account representable.
    pub open spec fn can_deposit(self, who: AccountId, amount: nat) -> bool {
        self.free[who] + self.reserved[who] + amount <= Balance::MAX
    }

    /// `amount` more in the free balance of `who`.
    pub open spec fn deposit(self, who: AccountId, amount: nat) -> Stakes {
        Stakes { free: self.free.insert(who, self.free[who] + amount), reserved: self.reserved }
    }

    /// `amount` moved from the free balance of `who` to the reserved one.
    pub open spec fn reserve(self, who: AccountId, amount: nat) -> Stakes {
        Stakes {
            free: self.free.insert(who, (self.free[who] - amount) as nat),
            reserved: self.reserved.insert(who, self.reserved[who] + amount),
        }
    }

    /// How much of `amount` a release for `who` actually moves: all of it,
    /// unless less than that is reserved.
    pub open spec fn releasable(self, who: AccountId, amount: nat) -> nat {
        if amount <= self.reserved[who] {
            amount
        } else {
            self.reserved[who]
        }
    }

    /// Up to `amount` moved from the reserved balance of `who` back to the
    /// free one.
    pub open spec fn release(self, who: AccountId, amount: nat) -> Stakes {
        let moved = self.releasable(who, amount);
        Stakes {
            free: self.free.insert(who, self.free[who] + moved),
            reserved: self.reserved.insert(who, (self.reserved[who] - moved) as nat),
        }
    }
}

/// Reserving and then releasing the same amount changes nothing.
pub proof fn lemma_reserve_then_release(stakes: Stakes, who: AccountId, amount: nat)
    requires
        stakes.total(),
        stakes.can_reserve(who, amount),
    ensures
        stakes.reserve(who, amount).release(who, amount) == stakes,
{
    let back = stakes.reserve(who, amount).release(who, amount);
    assert(stakes.free.contains_key(who) && stakes.reserved.contains_key(who));
    assert(back.free =~= stakes.free);
    assert(back.reserved =~= stakes.reserved);
}

/// Neither reserving nor releasing changes what an account holds in total,
/// and neither touches any other account.
pub proof fn lemma_stake_is_conserved(stakes: Stakes, who: AccountId, amount: nat)
    requires
        stakes.total(),
    ensures
        stakes.can_reserve(who, amount) ==> stakes.reserve(who, amount).free[who]
            + stakes.reserve(who, amount).reserved[who] == stakes.free[who] + stakes.reserved[who],
        stakes.release(who, amount).free[who] + stakes.release(who, amount).reserved[who]
            == stakes.free[who] + stakes.reserved[who],
        forall|other: AccountId|
            other != who ==> stakes.reserve(who, amount).free[other] == stakes.free[other]
                && stakes.reserve(who, amount).reserved[other] == stakes.reserved[other]
                && stakes.release(who, amount).free[other] == stakes.free[other]
                && stakes.release(who, amount).reserved[other] == stakes.reserved[other],
{
}

/// The two balances of one account.
#[derive(Clone, Copy, Debug)]
struct AccountData {
    free: Balance,
    reserved: Balance,
}

/// The ledger that holds every account's free and reserved balance.
///
/// An account that was never credited holds nothing.
pub struct Custody {
    accounts: HashMap<AccountId, AccountData>,
}

impl View for Custody {
    type V = Stakes;

    closed spec fn view(&self) -> Stakes {
        Stakes {
            free: Map::total(
                |who: AccountId|
                    if self.accounts@.contains_key(who) {
                        self.accounts@[who].free as nat
                    } else {
                        0nat
                    },
            ),
            reserved: Map::total(
                |who: AccountId|
                    if self.accounts@.contains_key(who) {
                        self.accounts@[who].reserved as nat
                    } else {
                        0nat
                    },
            ),
        }
    }
}

impl Custody {
    /// The ledger is in order: the two balances of every account together
    /// fit in a `Balance`.
    pub closed spec fn wf(&self) -> bool {
        forall|who: AccountId| #[trigger]
            self.accounts@.contains_key(who) ==> self.accounts@[who].free
                + self.accounts@[who].reserved <= Balance::MAX
    }

    /// What a well-formed ledger guarantees of its view.
    pub proof fn lemma_wf(&self)
        requires
            self.wf(),
        ensures
            self@.total(),
            self@.representable(),
    {
        assert forall|who: AccountId|
            #![trigger self@.free[who]]
            #![trigger self@.reserved[who]]
            self@.free[who] + self@.reserved[who] <= Balance::MAX by {
            if self.accounts@.contains_key(who) {
            }
        }
    }

    /// A ledger in which no account holds anything.
    pub fn new() -> (custody: Custody)
        ensures
            custody.wf(),
            custody@ == Stakes::empty(),
    {
        let custody = Custody { accounts: HashMap::new() };
        assert(custody@.free =~= Stakes::empty().free);
        assert(custody@.reserved =~= Stakes::empty().reserved);
        custody
    }

    fn account(&self, who: AccountId) -> (data: AccountData)
        ensures
            data.free == self@.free[who],
            data.reserved == self@.reserved[who],
            self.wf() ==> data.free + data.reserved <= Balance::MAX,
    {
        match self.accounts.get(&who) {
            Some(data) => *data,
            None => AccountData { free: 0, reserved: 0 },
        }
    }

    fn set_account(&mut self, who: AccountId, data: AccountData)
        requires
            old(self).wf(),
            data.free + data.reserved <= Balance::MAX,
        ensures
            final(self).wf(),
            final(self)@.free == old(self)@.free.insert(who, data.free as nat),
            final(self)@.reserved == old(self)@.reserved.insert(who, data.reserved as nat),
    {
        self.accounts.insert(who, data);
        assert(self@.free =~= old(self)@.free.insert(who, data.free as nat));
        assert(self@.reserved =~= old(self)@.reserved.insert(who, data.reserved as nat));
    }

    /// The free balance of `who`.
    pub fn free_balance(&self, who: AccountId) -> (amount: Balance)
        ensures
            amount == self@.free[who],
    {
        self.account(who).free
    }

    /// The reserved balance of `who`.
    pub fn reserved_balance(&self, who: AccountId) -> (amount: Balance)
        ensures
            amount == self@.reserved[who],
    {
        self.account(who).reserved
    }

    /// Credits `amount` to the free balance of `who`, unless the account
    /// would then hold more than a `Balance` can express: in that case nothing
    /// changes and the answer is `false`.
    pub fn deposit(&mut self, who: AccountId, amount: Balance) -> (credited: bool)
        requires
            old(self).wf(),
        ensures
            final(self).wf(),
            credited == old(self)@.can_deposit(who, amount as nat),
            credited ==> final(self)@ == old(self)@.deposit(who, amount as nat),
            !credited ==> final(self)@ == old(self)@,
    {
        let data = self.account(who);
        if amount > Balance::MAX - data.free - data.reserved {
            return false;
        }
        self.set_account(who, AccountData { free: data.free + amount, reserved: data.reserved });
        assert(self@.reserved =~= old(self)@.reserved);
        true
    }

    /// Whether [`Custody::reserve`] would succeed.
    pub fn can_reserve(&self, who: AccountId, amount: Balance) -> (possible: bool)
        ensures
            possible == self@.can_reserve(who, amount as nat),
    {
        self.account(who).free >= amount
    }

    /// Moves `amount` from the free balance of `who` to the reserved one.
    ///
    /// Fails with `InsufficientBalance`, changing nothing, when less than
    /// `amount` is free.
    pub fn reserve(&mut self, who: AccountId, amount: Balance) -> (result: Result<(), Error>)
        requires
            old(self).wf(),
        ensures
            final(self).wf(),
            old(self)@.can_reserve(who, amount as nat) ==> result == Ok::<(), Error>(())
                && final(self)@ == old(self)@.reserve(who, amount as nat),
            !old(self)@.can_reserve(who, amount as nat) ==> result == Err::<(), Error>(
                Error::InsufficientBalance,
            ) && final(self)@ == old(self)@,
    {
        let data = self.account(who);
        if data.free < amount {
            return Err(Error::InsufficientBalance);
        }
        self.set_account(
            who,
            AccountData { free: data.free - amount, reserved: data.reserved + amount },
        );
        Ok(())
    }

    /// Moves up to `amount` from the reserved balance of `who` back to the
    /// free one, and returns what could not be moved because less than
    /// `amount` was reserved.
    pub fn release(&mut self, who: AccountId, amount: Balance) -> (missing: Balance)
        requires
            old(self).wf(),
        ensures
            final(self).wf(),
            final(self)@ == old(self)@.release(who, amount as nat),
            missing == amount - old(self)@.releasable(who, amount as nat),
    {
        let data = self.account(who);
        let moved = if amount <= data.reserved {
            amount
        } else {
            data.reserved
        };
        self.set_account(
            who,
            AccountData { free: data.free + moved, reserved: data.reserved - moved },
        );
        amount - moved
    }
}

} // verus!
