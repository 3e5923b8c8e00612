//! The balances a ledger starts with: every endowed account holds the initial balance of
//! every listed asset, and each listed asset is issued that balance once per endowed account.
use vstd::prelude::*;
use crate::dispatch::{AccountId, AssetId, Balance};
use crate::storage::StorageMap;

verus! {

/// The issuance of each listed asset at genesis: the initial balance once per endowed
/// account, the count of accounts taken as a `u32`.
pub open spec fn genesis_issuance(initial_balance: Balance, accounts: Seq<AccountId>) -> int {
    initial_balance * (accounts.len() as u32)
}

/// Every listed asset with the same issuance.
pub open spec fn issued(assets: Seq<AssetId>, total: Balance) -> Map<AssetId, Balance> {
    Map::new(|a: AssetId| assets.contains(a), |a: AssetId| total)
}

/// Every endowed account holding the same balance of every listed asset.
pub open spec fn endowed(assets: Seq<AssetId>, accounts: Seq<AccountId>, balance: Balance) -> Map<(AssetId, AccountId), Balance> {
    Map::new(|k: (AssetId, AccountId)| assets.contains(k.0) && accounts.contains(k.1), |k: (AssetId, AccountId)| balance)
}

/// The issuance of each listed asset at genesis.
pub fn issuance(initial_balance: Balance, accounts: &Vec<AccountId>) -> (total: Balance)
    requires
        genesis_issuance(initial_balance, accounts@) <= Balance::MAX,
    ensures
        total == genesis_issuance(initial_balance, accounts@),
{
    let n: u32 = #[verifier::truncate] (accounts.len() as u32);
    initial_balance * (n as Balance)
}

/// A map giving every listed asset the issuance `total`.
pub fn issue(assets: &Vec<AssetId>, total: Balance) -> (m: StorageMap<AssetId, Balance>)
    ensures
        m@ == issued(assets@, total),
{
    let mut m: StorageMap<AssetId, Balance> = StorageMap::new();
    let mut i: usize = 0;
    while i < assets.len()
        invariant
            i <= assets@.len(),
            m@ == issued(assets@.take(i as int), total),
        decreases assets@.len() - i,
    {
        let a = assets[i];
        m.insert(a, total);
        proof {
            let before = assets@.take(i as int);
            let after = assets@.take(i + 1);
            assert(after =~= before.push(a));
            assert forall|x: AssetId| after.contains(x) <==> (before.contains(x) || x == a) by {
                if after.contains(x) {
                    let j = choose|j: int| 0 <= j < after.len() && after[j] == x;
                    if j < i {
                        assert(before[j] == x);
                    }
                }
                if before.contains(x) {
                    let j = choose|j: int| 0 <= j < before.len() && before[j] == x;
                    assert(after[j] == x);
                }
                if x == a {
                    assert(after[i as int] == x);
                }
            }
            assert(m@ =~= issued(after, total));
        }
        i = i + 1;
    }
    assert(assets@.take(assets@.len() as int) =~= assets@);
    m
}

/// A map giving every endowed account `balance` of every listed asset.
pub fn endow(assets: &Vec<AssetId>, accounts: &Vec<AccountId>, balance: Balance) -> (m: StorageMap<(AssetId, AccountId), Balance>)
    ensures
        m@ == endowed(assets@, accounts@, balance),
{
    let mut m: StorageMap<(AssetId, AccountId), Balance> = StorageMap::new();
    let mut i: usize = 0;
    while i < assets.len()
        invariant
            i <= assets@.len(),
            m@ == endowed(assets@.take(i as int), accounts@, balance),
        decreases assets@.len() - i,
    {
        let a = assets[i];
        let ghost before = assets@.take(i as int);
        let ghost after = assets@.take(i + 1);
        proof {
            assert forall|x: AssetId| after.contains(x) <==> (before.contains(x) || x == a) by {
                if after.contains(x) {
                    let j = choose|j: int| 0 <= j < after.len() && after[j] == x;
                    if j < i {
                        assert(before[j] == x);
                    }
                }
                if before.contains(x) {
                    let j = choose|j: int| 0 <= j < before.len() && before[j] == x;
                    assert(after[j] == x);
                }
                if x == a {
                    assert(after[i as int] == x);
                }
            }
        }
        let mut j: usize = 0;
        while j < accounts.len()
            invariant
                j <= accounts@.len(),
                i < assets@.len(),
                a == assets@[i as int],
                forall|x: AssetId| after.contains(x) <==> (before.contains(x) || x == a),
                m@ == Map::new(
                    |k: (AssetId, AccountId)| before.contains(k.0) && accounts@.contains(k.1)
                        || k.0 == a && accounts@.take(j as int).contains(k.1),
                    |k: (AssetId, AccountId)| balance,
                ),
            decreases accounts@.len() - j,
        {
            let x = accounts[j];
            m.insert((a, x), balance);
            proof {
                let b = accounts@.take(j as int);
                let c = accounts@.take(j + 1);
                assert forall|y: AccountId| c.contains(y) <==> (b.contains(y) || y == x) by {
                    if c.contains(y) {
                        let k = choose|k: int| 0 <= k < c.len() && c[k] == y;
                        if k < j {
                            assert(b[k] == y);
                        }
                    }
                    if b.contains(y) {
                        let k = choose|k: int| 0 <= k < b.len() && b[k] == y;
                        assert(c[k] == y);
                    }
                    if y == x {
                        assert(c[j as int] == y);
                    }
                }
                assert(m@ =~= Map::new(
                    |k: (AssetId, AccountId)| before.contains(k.0) && accounts@.contains(k.1)
                        || k.0 == a && c.contains(k.1),
                    |k: (AssetId, AccountId)| balance,
                )) by {
                    assert forall|k: (AssetId, AccountId)| c.contains(k.1) implies accounts@.contains(k.1) by {
                        {
                            let q = choose|q: int| 0 <= q < c.len() && c[q] == k.1;
                            assert(accounts@[q] == k.1);
                        }
                    }
                }
            }
            j = j + 1;
        }
        proof {
            assert(accounts@.take(accounts@.len() as int) =~= accounts@);
            assert(m@ =~= endowed(after, accounts@, balance));
        }
        i = i + 1;
    }
    assert(assets@.take(assets@.len() as int) =~= assets@);
    m
}

} // verus!
