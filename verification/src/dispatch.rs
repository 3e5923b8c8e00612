//! Origins of calls and the errors a dispatched call ends with.
use vstd::prelude::*;

verus! {

/// An account: the logic only ever compares accounts for equality.
pub type AccountId = u64;

/// An asset kind.
pub type AssetId = u32;

/// An amount of some asset.
pub type Balance = u128;

/// A block height.
pub type BlockNumber = u32;

/// Who makes a call.
#[derive(Clone, Copy, Debug, PartialEq, Eq, Structural)]
pub enum Origin {
    Root,
    Signed(AccountId),
    Unsigned,
}

/// The reason a call did not succeed: a bad origin, or an error of the module that refused it.
#[derive(Clone, Copy, Debug, PartialEq, Eq)]
pub enum DispatchError {
    BadOrigin,
    GenericAsset(crate::generic_asset::Error),
    LsBiding(crate::ls_biding::Error),
    BtcBridge(crate::btc_bridge::Error),
    AssetSymbol(crate::asset_symbol::Error),
}

/// Succeeds for the root origin only.
pub fn ensure_root(origin: Origin) -> (r: Result<(), DispatchError>)
    ensures
        r is Ok <==> origin == Origin::Root,
        r is Err ==> r == Err::<(), DispatchError>(DispatchError::BadOrigin),
{
    match origin {
        Origin::Root => Ok(()),
        _ => Err(DispatchError::BadOrigin),
    }
}

/// Succeeds for a signed origin, handing back the signer.
pub fn ensure_signed(origin: Origin) -> (r: Result<AccountId, DispatchError>)
    ensures
        match origin {
            Origin::Signed(who) => r == Ok::<AccountId, DispatchError>(who),
            _ => r == Err::<AccountId, DispatchError>(DispatchError::BadOrigin),
        },
{
    match origin {
        Origin::Signed(who) => Ok(who),
        _ => Err(DispatchError::BadOrigin),
    }
}

/// Succeeds for an unsigned origin only.
pub fn ensure_none(origin: Origin) -> (r: Result<(), DispatchError>)
    ensures
        r is Ok <==> origin == Origin::Unsigned,
        r is Err ==> r == Err::<(), DispatchError>(DispatchError::BadOrigin),
{
    match origin {
        Origin::Unsigned => Ok(()),
        _ => Err(DispatchError::BadOrigin),
    }
}

} // verus!
