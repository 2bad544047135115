//! Plain value types shared by the pallets.

use vstd::prelude::*;

verus! {

/// An account of the chain.
pub type AccountId = u64;

/// An amount of a fungible token.
pub type Balance = u128;

/// Identifier of a fungible token id payload.
pub type TokenId = u64;

/// Identifier of a staking pool.
pub type PoolId = u32;

/// Identifier of an unlock (redeem) request in a currency's queue.
pub type QueueId = u32;

/// A fungible currency known to the runtime.
#[derive(Clone, Copy, Debug, PartialEq, Eq, Structural)]
pub enum FungibleTokenId {
    NativeToken(TokenId),
    FungibleToken(TokenId),
    DEXShare(TokenId, TokenId),
    MiningResource(TokenId),
    Stable(TokenId),
}

/// A length of time counted in one of the chain's staking units.
#[derive(Clone, Copy, Debug, PartialEq, Eq, Structural)]
pub enum StakingRound {
    Era(u32),
    Round(u32),
    Epoch(u32),
    Hour(u32),
}

/// The origin a call was dispatched with.
#[derive(Clone, Copy, Debug, PartialEq, Eq, Structural)]
pub enum Origin {
    Root,
    Signed(AccountId),
    Unsigned,
}

/// The signer of a signed origin, if the origin is signed.
pub open spec fn signer_of(origin: Origin) -> Option<AccountId> {
    match origin {
        Origin::Signed(who) => Some(who),
        _ => None,
    }
}

/// Returns the account that signed `origin`, or `None` when the origin is
/// root or unsigned (the call is then refused with a bad origin).
pub fn ensure_signed(origin: Origin) -> (who: Option<AccountId>)
    ensures
        who == signer_of(origin),
{
    match origin {
        Origin::Signed(who) => Some(who),
        _ => None,
    }
}

} // verus!
