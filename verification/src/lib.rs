//! A verified model of the definex runtime: a multi-asset ledger, a
//! peer-to-peer lending market on top of it, a bridge for deposits and
//! withdrawals, and the price oracle that the market reads.
use vstd::prelude::*;

pub mod asset_symbol;
pub mod assets;
pub mod bridge_laws;
pub mod btc_bridge;
pub mod dispatch;
pub mod generic_asset;
pub mod genesis;
pub mod generic_asset_rpc;
pub mod hashing;
pub mod key_derivation;
pub mod ledger_laws;
pub mod loan_laws;
pub mod ls_biding;
pub mod market_laws;
pub mod new_oracle;
pub mod oracle_laws;
pub mod permission_codec;
pub mod seqs;
pub mod storage;
pub mod symbol_laws;

verus! {

} // verus!
