//! Properties of the ledger that hold across calls.
use vstd::prelude::*;
use crate::dispatch::{AccountId, AssetId, Balance, Origin};
use crate::generic_asset::{
    burn_call_spec, mint_call_spec, repatriate_reserved_spec, slash_spec, AssetOptions, BalanceStatus,
    PermissionVersions, RawEvent, created_all, genesis_base, genesis_options, symbol_ids,
    burn_spec, has_lock_id, has_lock_amount, is_first_with_amount, lemma_first_with_amount, is_first_with_id, lemma_first_with_id, lemma_has_first_with_id, mint_spec,
    repatriate_fits, reserve_fits, reserve_spec, transfer_spec, unreserve_fits, unreserve_lock, unreserve_spec, without_lock,
    BalanceLock, Error, GenericAssetState, Owner, PermissionsV1, PermissionType, WithdrawReasons, first_with_id,
};
use crate::hashing::lock_identifier_of;

verus! {

/// A transfer that passes its balance check moves exactly `amount` from sender to
/// receiver: their sum is kept, every other free balance, every reserved balance and
/// every issuance stay as they were.
pub proof fn law_transfer_conserves(g: GenericAssetState, a: AssetId, from: AccountId, to: AccountId, amount: Balance)
    requires
        g.free(a, from) >= amount,
        g.transfer_fits(a, from, to, amount),
    ensures
        ({
            let (g2, r) = transfer_spec(g, a, from, to, amount);
            &&& r is Ok
            &&& g2.free(a, from) + g2.free(a, to) == g.free(a, from) + g.free(a, to)
            &&& from != to ==> g2.free(a, from) == g.free(a, from) - amount && g2.free(a, to) == g.free(a, to) + amount
            &&& forall|b: AssetId, y: AccountId| (b, y) != (a, from) && (b, y) != (a, to) ==> g2.free(b, y) == g.free(b, y)
            &&& g2.reserved_balance == g.reserved_balance
            &&& g2.total_issuance == g.total_issuance
        }),
{
}

/// A transfer refused for want of balance changes nothing.
pub proof fn law_refused_transfer_changes_nothing(g: GenericAssetState, a: AssetId, from: AccountId, to: AccountId, amount: Balance)
    requires
        g.free(a, from) < amount,
    ensures
        transfer_spec(g, a, from, to, amount) == (g, Err::<(), Error>(Error::InsufficientBalance)),
{
}

/// Reserving moves `amount` from free to reserved balance, and releasing the lock that the
/// reserve returned moves it back: free and reserved balances and the account's locks are
/// as before, no lock carries the returned id, and the release is owed success, with
/// nothing left unmoved.
pub proof fn law_reserve_then_unreserve_restores(g: GenericAssetState, a: AssetId, who: AccountId, amount: Balance)
    requires
        g.lock_ids_below_next(),
        g.free(a, who) >= amount,
        reserve_fits(g, a, who, amount),
    ensures
        ({
            let (g1, r1) = reserve_spec(g, a, who, amount);
            let id = g.next_lock_id;
            let (g2, r2) = unreserve_spec(g1, a, who, amount, Some(id));
            let idf = lock_identifier_of(a);
            &&& r1 == Ok::<u128, Error>(id)
            &&& g1.free(a, who) == g.free(a, who) - amount
            &&& g1.reserved(a, who) == g.reserved(a, who) + amount
            &&& unreserve_fits(g1, a, who, amount, Some(id))
            &&& r2 == Ok::<Balance, Error>(0)
            &&& g2.free(a, who) == g.free(a, who)
            &&& g2.reserved(a, who) == g.reserved(a, who)
            &&& g2.locks_of(idf, who) == g.locks_of(idf, who)
            &&& !has_lock_id(g2.locks_of(idf, who), id)
            &&& g2.total_issuance == g.total_issuance
        }),
{
    let idf = lock_identifier_of(a);
    let s = g.locks_of(idf, who);
    let id = g.next_lock_id;
    let lock = BalanceLock { id, asset_id: a, amount, reasons: WithdrawReasons { bits: WithdrawReasons::spec_reserve() } };
    let (g1, r1) = reserve_spec(g, a, who, amount);
    let t = g1.locks_of(idf, who);
    assert(t == s.push(lock));
    assert forall|j: int| 0 <= j < s.len() implies s[j].id != id by {
        if g.locks.contains_key((idf, who)) {
            assert(g.locks[(idf, who)][j].id < g.next_lock_id);
        }
    }
    assert(is_first_with_id(t, id, s.len() as int));
    lemma_first_with_id(t, id, s.len() as int);
    assert(without_lock(t, id) =~= s);
}

/// Reserving and then unreserving the same amount with no lock named restores the free
/// and reserved balances, and is owed success with nothing left unmoved. Where no earlier
/// lock of the account for that asset holds exactly `amount`, the lock that the reserve
/// made is the one released: the account's locks are as before and none carries its id.
pub proof fn law_reserve_then_unreserve_unnamed_restores(g: GenericAssetState, a: AssetId, who: AccountId, amount: Balance)
    requires
        g.lock_ids_below_next(),
        g.free(a, who) >= amount,
        reserve_fits(g, a, who, amount),
    ensures
        ({
            let (g1, r1) = reserve_spec(g, a, who, amount);
            let id = g.next_lock_id;
            let (g2, r2) = unreserve_spec(g1, a, who, amount, None);
            let idf = lock_identifier_of(a);
            &&& r1 == Ok::<u128, Error>(id)
            &&& unreserve_fits(g1, a, who, amount, None)
            &&& r2 == Ok::<Balance, Error>(0)
            &&& g2.free(a, who) == g.free(a, who)
            &&& g2.reserved(a, who) == g.reserved(a, who)
            &&& g2.total_issuance == g.total_issuance
            &&& !has_lock_amount(g.locks_of(idf, who), amount) ==> {
                &&& g2.locks_of(idf, who) == g.locks_of(idf, who)
                &&& !has_lock_id(g2.locks_of(idf, who), id)
            }
        }),
{
    let idf = lock_identifier_of(a);
    let s = g.locks_of(idf, who);
    let id = g.next_lock_id;
    let lock = BalanceLock { id, asset_id: a, amount, reasons: WithdrawReasons { bits: WithdrawReasons::spec_reserve() } };
    let (g1, r1) = reserve_spec(g, a, who, amount);
    let t = g1.locks_of(idf, who);
    assert(t == s.push(lock));
    assert(t[s.len() as int] == lock);
    assert(has_lock_amount(t, amount));
    if !has_lock_amount(s, amount) {
        assert forall|j: int| 0 <= j < s.len() implies t[j].amount != amount by {
            assert(t[j] == s[j]);
        }
        assert(is_first_with_amount(t, amount, s.len() as int));
        lemma_first_with_amount(t, amount, s.len() as int);
        assert forall|j: int| 0 <= j < s.len() implies s[j].id != id by {
            if g.locks.contains_key((idf, who)) {
                assert(g.locks[(idf, who)][j].id < g.next_lock_id);
            }
        }
        assert(is_first_with_id(t, id, s.len() as int));
        lemma_first_with_id(t, id, s.len() as int);
        assert(without_lock(t, id) =~= s);
    }
}

/// Reserving keeps every lock id below the next one handed out.
pub proof fn law_reserve_keeps_lock_ids_fresh(g: GenericAssetState, a: AssetId, who: AccountId, amount: Balance)
    requires
        g.lock_ids_below_next(),
        reserve_fits(g, a, who, amount),
    ensures
        reserve_spec(g, a, who, amount).0.lock_ids_below_next(),
{
    let g1 = reserve_spec(g, a, who, amount).0;
    if g.free(a, who) >= amount {
        let idf = lock_identifier_of(a);
        assert forall|k: (Seq<u8>, AccountId), i: int|
            #![trigger g1.locks[k][i]]
            g1.locks.contains_key(k) && 0 <= i < g1.locks[k].len() implies g1.locks[k][i].id < g1.next_lock_id by {
            if k != (idf, who) {
                assert(g.locks[k][i].id < g.next_lock_id);
            } else if i < g.locks_of(idf, who).len() {
                assert(g.locks[k][i].id < g.next_lock_id);
            }
        }
    }
}

/// Releasing a lock keeps every lock id below the next one handed out.
pub proof fn law_unreserve_keeps_lock_ids_fresh(g: GenericAssetState, a: AssetId, who: AccountId, amount: Balance, lock_id: Option<u128>)
    requires
        g.lock_ids_below_next(),
    ensures
        unreserve_spec(g, a, who, amount, lock_id).0.lock_ids_below_next(),
{
    let g1 = unreserve_spec(g, a, who, amount, lock_id).0;
    let idf = lock_identifier_of(a);
    let s = g.locks_of(idf, who);
    if unreserve_lock(s, amount, lock_id) is Some {
        let id = unreserve_lock(s, amount, lock_id)->Some_0;
        if has_lock_id(s, id) {
            lemma_has_first_with_id(s, id);
            let f = first_with_id(s, id);
            assert forall|k: (Seq<u8>, AccountId), i: int|
                #![trigger g1.locks[k][i]]
                g1.locks.contains_key(k) && 0 <= i < g1.locks[k].len() implies g1.locks[k][i].id < g1.next_lock_id by {
                if k != (idf, who) {
                    assert(g.locks[k][i].id < g.next_lock_id);
                } else if i < f {
                    assert(g.locks[k][i].id < g.next_lock_id);
                } else {
                    assert(g.locks[k][i + 1].id < g.next_lock_id);
                }
            }
        }
    }
}

/// Minting and then burning the same amount to the same account, by accounts that hold
/// both permissions, leaves issuance and that account's free balance as they were.
pub proof fn law_mint_then_burn_restores(g: GenericAssetState, a: AssetId, minter: AccountId, burner: AccountId, to: AccountId, amount: Balance)
    requires
        g.has_permission(a, minter, PermissionType::Mint),
        g.has_permission(a, burner, PermissionType::Burn),
        g.total(a) + amount <= Balance::MAX,
        g.free(a, to) + amount <= Balance::MAX,
    ensures
        ({
            let (g1, r1) = mint_spec(g, a, minter, to, amount);
            let (g2, r2) = burn_spec(g1, a, burner, to, amount);
            &&& r1 is Ok
            &&& r2 is Ok
            &&& g2.total(a) == g.total(a)
            &&& g2.free(a, to) == g.free(a, to)
        }),
{
}

/// Minting raises issuance and the receiver's free balance by the same amount.
pub proof fn law_mint_keeps_issuance_in_step(g: GenericAssetState, a: AssetId, who: AccountId, to: AccountId, amount: Balance)
    requires
        mint_spec(g, a, who, to, amount).1 is Ok,
    ensures
        ({
            let g1 = mint_spec(g, a, who, to, amount).0;
            &&& g1.total(a) - g.total(a) == amount
            &&& g1.free(a, to) - g.free(a, to) == amount
            &&& forall|b: AssetId, y: AccountId| (b, y) != (a, to) ==> g1.free(b, y) == g.free(b, y)
        }),
{
}

/// Every other operation of the ledger leaves the locks and the next lock id alone, so it
/// keeps every lock id below the next one handed out: minting, burning, transfers, asset
/// creation, permission updates, slashing and moving reserve.
pub proof fn law_ledger_calls_keep_lock_ids_fresh(
    g: GenericAssetState,
    origin: Origin,
    a: AssetId,
    who: AccountId,
    to: AccountId,
    amount: Balance,
    status: BalanceStatus,
    owner: AccountId,
    options: AssetOptions,
    p: PermissionVersions,
    e: RawEvent,
)
    requires
        g.lock_ids_below_next(),
    ensures
        mint_call_spec(g, origin, a, to, amount).0.lock_ids_below_next(),
        burn_call_spec(g, origin, a, to, amount).0.lock_ids_below_next(),
        transfer_spec(g, a, who, to, amount).0.lock_ids_below_next(),
        g.created(a, owner, options).lock_ids_below_next(),
        g.with_next_asset_id(a).lock_ids_below_next(),
        g.with_permission(a, p).emit(e).lock_ids_below_next(),
        slash_spec(g, a, who, amount).0.lock_ids_below_next(),
        repatriate_reserved_spec(g, a, who, to, amount, status).0.lock_ids_below_next(),
{
}

/// Creating assets leaves the locks and the next lock id alone.
proof fn lemma_created_all_keeps_locks(g: GenericAssetState, ids: Seq<AssetId>, owner: AccountId, options: AssetOptions)
    ensures
        created_all(g, ids, owner, options).locks == g.locks,
        created_all(g, ids, owner, options).next_lock_id == g.next_lock_id,
    decreases ids.len(),
{
    if ids.len() > 0 {
        lemma_created_all_keeps_locks(g, ids.drop_last(), owner, options);
    }
}

/// The ledger that genesis builds has its lock ids below the next one handed out.
pub proof fn law_genesis_lock_ids_fresh(
    assets: Seq<AssetId>,
    initial_balance: Balance,
    endowed_accounts: Seq<AccountId>,
    next_asset_id: AssetId,
    symbols: Seq<(AssetId, Vec<u8>)>,
    sudo_key: AccountId,
)
    ensures
        created_all(
            genesis_base(assets, initial_balance, endowed_accounts, next_asset_id, symbols, sudo_key),
            symbol_ids(symbols),
            sudo_key,
            genesis_options(sudo_key),
        ).lock_ids_below_next(),
{
    let g = genesis_base(assets, initial_balance, endowed_accounts, next_asset_id, symbols, sudo_key);
    lemma_created_all_keeps_locks(g, symbol_ids(symbols), sudo_key, genesis_options(sudo_key));
}

/// What the locks in `s` hold of asset `a`.
pub open spec fn locked_of(s: Seq<BalanceLock>, a: AssetId) -> int
    decreases s.len(),
{
    if s.len() == 0 {
        0
    } else {
        locked_of(s.drop_last(), a) + if s.last().asset_id == a { s.last().amount as int } else { 0 }
    }
}

/// The reserve of `who` in asset `a` covers what its locks of `a` hold.
pub open spec fn locks_covered(g: GenericAssetState, a: AssetId, who: AccountId) -> bool {
    locked_of(g.locks_of(lock_identifier_of(a), who), a) <= g.reserved(a, who)
}

proof fn lemma_locked_of_nonneg(s: Seq<BalanceLock>, a: AssetId)
    ensures
        locked_of(s, a) >= 0,
    decreases s.len(),
{
    if s.len() > 0 {
        lemma_locked_of_nonneg(s.drop_last(), a);
    }
}

proof fn lemma_locked_of_remove(s: Seq<BalanceLock>, i: int, a: AssetId)
    requires
        0 <= i < s.len(),
    ensures
        locked_of(s.remove(i), a) == locked_of(s, a) - if s[i].asset_id == a { s[i].amount as int } else { 0 },
    decreases s.len(),
{
    if i == s.len() - 1 {
        assert(s.remove(i) =~= s.drop_last());
    } else {
        lemma_locked_of_remove(s.drop_last(), i, a);
        assert(s.remove(i) =~= s.drop_last().remove(i).push(s.last()));
        assert(s.remove(i).drop_last() =~= s.drop_last().remove(i));
    }
}

/// Reserving keeps the reserve of every account covering what its locks hold: the new lock
/// and the reserve grow by the same amount.
pub proof fn law_reserve_keeps_locks_covered(g: GenericAssetState, a: AssetId, who: AccountId, amount: Balance, b: AssetId, x: AccountId)
    requires
        locks_covered(g, b, x),
        reserve_fits(g, a, who, amount),
    ensures
        locks_covered(reserve_spec(g, a, who, amount).0, b, x),
{
    let g1 = reserve_spec(g, a, who, amount).0;
    if g.free(a, who) >= amount {
        let ka = (lock_identifier_of(a), who);
        let kb = (lock_identifier_of(b), x);
        if kb == ka {
            let s = g.locks_of(lock_identifier_of(b), x);
            let t = g1.locks_of(lock_identifier_of(b), x);
            assert(t.drop_last() =~= s);
        }
    }
}

/// Releasing a lock by its id for exactly the amount it holds keeps the reserve of every
/// account covering what its locks hold: the lock and the reserve shrink by the same amount.
pub proof fn law_unreserve_keeps_locks_covered(g: GenericAssetState, a: AssetId, who: AccountId, id: u128, b: AssetId, x: AccountId)
    requires
        locks_covered(g, a, who),
        locks_covered(g, b, x),
        has_lock_id(g.locks_of(lock_identifier_of(a), who), id),
        g.locks_of(lock_identifier_of(a), who)[first_with_id(g.locks_of(lock_identifier_of(a), who), id)].asset_id == a,
    ensures
        ({
            let s = g.locks_of(lock_identifier_of(a), who);
            let amount = s[first_with_id(s, id)].amount;
            &&& unreserve_fits(g, a, who, amount, Some(id)) ==> {
                let (g1, r) = unreserve_spec(g, a, who, amount, Some(id));
                &&& r == Ok::<Balance, Error>(0)
                &&& locks_covered(g1, b, x)
            }
        }),
{
    let idf = lock_identifier_of(a);
    let s = g.locks_of(idf, who);
    lemma_has_first_with_id(s, id);
    let f = first_with_id(s, id);
    let amount = s[f].amount;
    lemma_locked_of_remove(s, f, a);
    lemma_locked_of_remove(s, f, b);
    lemma_locked_of_nonneg(s.remove(f), a);
    assert(g.reserved(a, who) >= amount);
    assert(without_lock(s, id) == s.remove(f));
}

/// Burning that goes through lowers issuance and the account's free balance by the same
/// amount, and leaves every other free balance alone.
pub proof fn law_burn_keeps_issuance_in_step(g: GenericAssetState, a: AssetId, who: AccountId, to: AccountId, amount: Balance)
    requires
        burn_spec(g, a, who, to, amount).1 is Ok,
    ensures
        ({
            let g1 = burn_spec(g, a, who, to, amount).0;
            &&& g.total(a) - g1.total(a) == amount
            &&& g.free(a, to) - g1.free(a, to) == amount
            &&& forall|b: AssetId, y: AccountId| (b, y) != (a, to) ==> g1.free(b, y) == g.free(b, y)
        }),
{
}

/// Unreserving moves as much of `amount` as is reserved from reserved to free balance,
/// reports the part it could not move, and leaves issuance and every other account alone.
pub proof fn law_unreserve_moves_up_to_the_reserve(g: GenericAssetState, a: AssetId, who: AccountId, amount: Balance, lock_id: Option<u128>)
    requires
        unreserve_fits(g, a, who, amount, lock_id),
    ensures
        ({
            let (g1, r) = unreserve_spec(g, a, who, amount, lock_id);
            let moved = if g.reserved(a, who) < amount { g.reserved(a, who) } else { amount };
            &&& r == Ok::<Balance, Error>((amount - moved) as Balance)
            &&& g1.free(a, who) == g.free(a, who) + moved
            &&& g1.reserved(a, who) == g.reserved(a, who) - moved
            &&& g1.total_issuance == g.total_issuance
            &&& forall|b: AssetId, y: AccountId| (b, y) != (a, who) ==> g1.free(b, y) == g.free(b, y) && g1.reserved(b, y) == g.reserved(b, y)
        }),
{
}

/// Slashing takes up to `amount` from the free balance first and the rest, as far as it
/// goes, from the reserve; it reports what it could not take, or nothing where it took it
/// all.
pub proof fn law_slash_takes_free_then_reserve(g: GenericAssetState, a: AssetId, who: AccountId, amount: Balance)
    ensures
        ({
            let (g1, r) = slash_spec(g, a, who, amount);
            let f = g.free(a, who);
            let v = g.reserved(a, who);
            let from_free = if f < amount { f } else { amount };
            let rest = amount - from_free;
            let from_reserve: int = if v < rest { v as int } else { rest };
            &&& g1.free(a, who) == f - from_free
            &&& g1.reserved(a, who) == v - from_reserve
            &&& (r is None <==> from_free + from_reserve == amount)
            &&& r is Some ==> r->Some_0 == amount - from_free - from_reserve
            &&& g1.total_issuance == g.total_issuance
        }),
{
}

/// Moving reserve to another account takes up to `amount` from the reserve of `who` and
/// credits it to the beneficiary's free or reserved balance, as asked, reporting the part
/// that could not be moved; the total of the two accounts is kept.
pub proof fn law_repatriate_moves_reserve(g: GenericAssetState, a: AssetId, who: AccountId, beneficiary: AccountId, amount: Balance, status: BalanceStatus)
    requires
        who != beneficiary,
        repatriate_fits(g, a, who, beneficiary, amount, status),
    ensures
        ({
            let (g1, r) = repatriate_reserved_spec(g, a, who, beneficiary, amount, status);
            let v = g.reserved(a, who);
            let moved = if v < amount { v } else { amount };
            &&& r == amount - moved
            &&& g1.reserved(a, who) == v - moved
            &&& g1.free(a, who) == g.free(a, who)
            &&& status == BalanceStatus::Free ==> g1.free(a, beneficiary) == g.free(a, beneficiary) + moved
                && g1.reserved(a, beneficiary) == g.reserved(a, beneficiary)
            &&& status == BalanceStatus::Reserved ==> g1.reserved(a, beneficiary) == g.reserved(a, beneficiary) + moved
                && g1.free(a, beneficiary) == g.free(a, beneficiary)
            &&& g1.total_issuance == g.total_issuance
        }),
{
}

/// A created asset starts with its initial issuance, all of it free with the owner, and
/// with the permissions it was created with; no other issuance or balance changes.
pub proof fn law_created_asset_starts_with_its_issuance(g: GenericAssetState, id: AssetId, owner: AccountId, options: AssetOptions)
    ensures
        ({
            let g1 = g.created(id, owner, options);
            &&& g1.total(id) == options.initial_issuance
            &&& g1.free(id, owner) == options.initial_issuance
            &&& g1.permission(id) == options.permissions
            &&& forall|b: AssetId| b != id ==> g1.total(b) == g.total(b)
            &&& forall|b: AssetId, y: AccountId| (b, y) != (id, owner) ==> g1.free(b, y) == g.free(b, y)
            &&& g1.reserved_balance == g.reserved_balance
        }),
{
}

/// After the permissions of an asset are replaced, an account holds a permission on it
/// exactly where the new permissions name that account for it; other assets keep theirs.
pub proof fn law_updated_permission_decides(g: GenericAssetState, a: AssetId, p: PermissionsV1, who: AccountId, what: PermissionType, b: AssetId)
    ensures
        ({
            let g1 = g.with_permission(a, PermissionVersions::V1(p));
            &&& g1.has_permission(a, who, what) == match what {
                PermissionType::Burn => p.burn == Owner::Address(who),
                PermissionType::Mint => p.mint == Owner::Address(who),
                PermissionType::Update => p.update == Owner::Address(who),
            }
            &&& b != a ==> g1.has_permission(b, who, what) == g.has_permission(b, who, what)
        }),
{
}

} // verus!
