//! Plain data exchanged between the registry and its callers.

use vstd::prelude::*;

verus! {

/// The identity of an account holder.
pub type AccountId = u64;

/// The identifier under which a kitty is registered.
pub type KittyIndex = u32;

/// An amount of stake tokens.
pub type Balance = u128;

/// A creature, fully described by its 128-bit genome.
///
/// Two kitties with the same genome are the same value; what tells registered
/// kitties apart is the identifier they were registered under.
#[derive(Clone, Copy, PartialEq, Eq, Debug)]
pub struct Kitty(pub [u8; 16]);

/// Who authorised a call.
#[derive(Clone, Copy, PartialEq, Eq, Debug)]
pub enum Origin {
    /// The system itself.
    Root,
    /// The call carries a valid signature of this account.
    Signed(AccountId),
    /// Nobody signed the call.
    Unsigned,
}

/// What a successful operation reports to the outside world.
#[derive(Clone, Copy, PartialEq, Eq, Debug)]
pub enum Event {
    /// `(owner, identifier, kitty)`: a kitty was created from fresh randomness.
    KittyCreate(AccountId, KittyIndex, Kitty),
    /// `(owner, identifier, kitty)`: a kitty was bred from two existing ones.
    KittyBreed(AccountId, KittyIndex, Kitty),
    /// `(from, identifier, to)`: a kitty changed hands.
    KittyTransfor(AccountId, KittyIndex, AccountId),
}

/// Why an operation was refused. A refused operation changes nothing.
#[derive(Clone, Copy, PartialEq, Eq, Debug)]
pub enum Error {
    /// The call was not signed by an account.
    Unauthorized,
    /// The account that has to put up the stake cannot afford it.
    InsufficientBalance,
    /// No kitty is registered under the given identifier.
    InvalidAssetId,
    /// The caller does not own the kitty.
    NotOwner,
    /// Every identifier has been handed out.
    IdentifierExhausted,
    /// The receiving account already holds as many kitties as it may.
    OwnerCollectionFull,
}

/// The constants a deployment fixes once and for all.
#[derive(Clone, Copy, PartialEq, Eq, Debug)]
pub struct Config {
    /// The stake reserved for every kitty an account holds.
    pub kitty_price: Balance,
    /// The largest number of kitties one account may hold.
    pub max_kitty_length: u32,
    /// The identifier at which allocation stops: identifiers handed out are
    /// strictly below it.
    pub max_kitty_index: KittyIndex,
}

/// The signing account of `origin`, if it has one.
pub open spec fn signer(origin: Origin) -> Option<AccountId> {
    match origin {
        Origin::Signed(who) => Some(who),
        _ => None,
    }
}

/// Accepts only origins that carry an account's signature.
pub fn ensure_signed(origin: Origin) -> (result: Result<AccountId, Error>)
    ensures
        result == match signer(origin) {
            Some(who) => Ok::<AccountId, Error>(who),
            None => Err(Error::Unauthorized),
        },
{
    match origin {
        Origin::Signed(who) => Ok(who),
        _ => Err(Error::Unauthorized),
    }
}

/// The first identifier a fresh registry hands out.
#[allow(non_snake_case)]
pub fn GetdefaultValue() -> (value: u32)
    ensures
        value == 0,
{
    0_u32
}

} // verus!
