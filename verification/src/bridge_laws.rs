//! Laws of the bridge: what its calls promise together.
use vstd::prelude::*;
use crate::btc_bridge::{
    deposit_mints, deposit_spec, withdraw_finish_spec, hashes_of, recorded, RawEvent, mark_black_spec, mark_white_spec, minted_deposit, white_run, refund_fits, refund_spec, withdraw_spec, Auth,
    BlackOrWhite, BridgeState, Deposit, Error, TxHash,
};
use crate::generic_asset::PermissionType;
use crate::dispatch::{AccountId, Balance, DispatchError, Origin};
use crate::seqs::lemma_remove_first_at;

verus! {

/// A transaction that a deposit took in is refused when it comes again, whoever sends it
/// and whatever it claims: nothing changes.
pub proof fn law_repeated_deposit_refused(
    s: BridgeState,
    origin: Origin,
    account: AccountId,
    amount: Balance,
    tx: TxHash,
    hook: Result<(), DispatchError>,
    origin2: Origin,
    account2: AccountId,
    amount2: Balance,
    hook2: Result<(), DispatchError>,
)
    requires
        deposit_spec(s, origin, account, amount, tx, hook).1 is Ok,
    ensures
        ({
            let s1 = deposit_spec(s, origin, account, amount, tx, hook).0;
            deposit_spec(s1, origin2, account2, amount2, tx, hook2)
                == (s1, Err::<(), DispatchError>(DispatchError::BtcBridge(Error::RepeatedTransaction)))
        }),
{
    let s1 = deposit_spec(s, origin, account, amount, tx, hook).0;
    assert(s1.history.contains_key(tx@));
}

/// A withdrawal refunded in full gives the account and the vault back their balances;
/// where no withdrawal of that amount was waiting before, the waiting list is as it was.
pub proof fn law_withdraw_then_refund_restores(s: BridgeState, who: AccountId, author: AccountId, amount: Balance)
    requires
        s.assets.ga.transfer_fits(s.asset_id, who, s.vault, amount),
        s.has_auth(author, Auth::Refund),
        withdraw_spec(s, Origin::Signed(who), amount).1 is Ok,
    ensures
        ({
            let s1 = withdraw_spec(s, Origin::Signed(who), amount).0;
            let (s2, r2) = refund_spec(s1, Origin::Signed(author), who, amount);
            &&& refund_fits(s1, Origin::Signed(author), who, amount)
            &&& r2 is Ok
            &&& s2.assets.ga.free(s.asset_id, who) == s.assets.ga.free(s.asset_id, who)
            &&& s2.assets.ga.free(s.asset_id, s.vault) == s.assets.ga.free(s.asset_id, s.vault)
            &&& !s.withdraws_of(who).contains(amount) ==> s2.withdraws_of(who) == s.withdraws_of(who)
        }),
{
    let s1 = withdraw_spec(s, Origin::Signed(who), amount).0;
    let p = s.withdraws_of(who);
    let q = p.push(amount);
    assert(s1.withdraws_of(who) == q);
    assert(q[p.len() as int] == amount);
    assert(q.contains(amount));
    if !p.contains(amount) {
        assert forall|j: int| 0 <= j < p.len() implies q[j] != amount by {
            assert(q[j] == p[j]);
        }
        lemma_remove_first_at(q, amount, p.len() as int);
        assert(q.take(p.len() as int) + q.skip(p.len() as int + 1) =~= p);
        if p.len() == 0 {
            assert(!refund_spec(s1, Origin::Signed(author), who, amount).0.pending_withdraws.contains_key(who));
        }
    }
}

/// A deposit held for vetting and then refused by marking its receiver black leaves no
/// trace: it no longer waits, its transaction may come again, and the receiver is black.
pub proof fn law_black_mark_releases_held_deposit(
    s: BridgeState,
    who: AccountId,
    account: AccountId,
    amount: Balance,
    tx: TxHash,
    hook: Result<(), DispatchError>,
)
    requires
        !s.tx_seen(tx),
        s.has_auth(who, Auth::Deposit),
        amount >= s.threshold,
        !s.is_white(account),
    ensures
        ({
            let (s1, r1) = deposit_spec(s, Origin::Signed(who), account, amount, tx, hook);
            let s2 = mark_black_spec(s1, account);
            &&& r1 is Ok
            &&& s1.pending_of(account).last() == (Deposit { account_id: account, tx_hash: Some(tx), amount })
            &&& !s2.tx_seen(tx)
            &&& s2.pending_of(account).len() == 0
            &&& s2.list[account] == BlackOrWhite::Black
            &&& s2.assets == s.assets
        }),
{
    let s1 = deposit_spec(s, Origin::Signed(who), account, amount, tx, hook).0;
    let ps = s1.pending_of(account);
    let n = ps.len() - 1;
    assert(ps[n].tx_hash.unwrap()@ == tx@);
    assert(hashes_of(ps).contains(tx@));
}

/// A deposit held for vetting is minted to its receiver once the receiver is marked white,
/// where the mint hook lets it through and the superuser may mint without overflow: the
/// receiver holds the amount more, nothing waits any longer, and the receiver is white.
pub proof fn law_white_mark_mints_held_deposit(s: BridgeState, account: AccountId, amount: Balance, tx: TxHash)
    requires
        s.pending_of(account) == seq![Deposit { account_id: account, tx_hash: Some(tx), amount }],
        s.assets.ga.has_permission(s.asset_id, s.assets.ga.sudo_key, PermissionType::Mint),
        s.assets.ga.total(s.asset_id) + amount <= Balance::MAX,
        s.assets.ga.free(s.asset_id, account) + amount <= Balance::MAX,
    ensures
        ({
            let (s1, r) = mark_white_spec(s, account, seq![Ok::<(), DispatchError>(())]);
            &&& r is Ok
            &&& s1.assets.ga.free(s.asset_id, account) == s.assets.ga.free(s.asset_id, account) + amount
            &&& s1.assets.ga.total(s.asset_id) == s.assets.ga.total(s.asset_id) + amount
            &&& s1.pending_of(account).len() == 0
            &&& s1.list[account] == BlackOrWhite::White
            &&& s1.tx_seen(tx)
        }),
{
    let ps = s.pending_of(account);
    let hooks = seq![Ok::<(), DispatchError>(())];
    let s0 = BridgeState { pending_deposits: s.pending_deposits.remove(account), ..s };
    assert(ps.drop_first() =~= Seq::<Deposit>::empty());
    assert(hooks.drop_first() =~= Seq::<Result<(), DispatchError>>::empty());
    assert(ps[0].tx_hash.unwrap() == tx);
    let (m1, r1) = minted_deposit(s0, account, amount, tx, Ok(()));
    assert(r1 is Ok);
    assert(m1.assets.ga.free(s.asset_id, account) == s.assets.ga.free(s.asset_id, account) + amount);
    assert(hooks[0] == Ok::<(), DispatchError>(()));
    assert(ps[0].account_id == account && ps[0].amount == amount);
    assert(white_run(m1, account, ps.drop_first(), hooks.drop_first()) == (m1, Ok::<(), DispatchError>(())));
    assert(white_run(s0, account, ps, hooks) == (m1, Ok::<(), DispatchError>(())));
    assert(!m1.pending_deposits.contains_key(account));
}

/// A deposit that reaches the mint, where the mint hook lets it through and the superuser
/// may mint without overflow, goes through: the receiver holds the amount more, the
/// transaction is recorded, and the deposit is announced.
pub proof fn law_minted_deposit_credits(s: BridgeState, origin: Origin, account: AccountId, amount: Balance, tx: TxHash)
    requires
        deposit_mints(s, origin, account, amount, tx),
        s.assets.ga.has_permission(s.asset_id, s.assets.ga.sudo_key, PermissionType::Mint),
        s.assets.ga.total(s.asset_id) + amount <= Balance::MAX,
        s.assets.ga.free(s.asset_id, account) + amount <= Balance::MAX,
    ensures
        ({
            let (s1, r) = deposit_spec(s, origin, account, amount, tx, Ok(()));
            &&& r is Ok
            &&& s1.assets.ga.free(s.asset_id, account) == s.assets.ga.free(s.asset_id, account) + amount
            &&& s1.history == s.history.insert(tx@, recorded(account, amount))
            &&& s1.events == s.events.push(RawEvent::Deposit(account, amount, tx))
        }),
{
}

proof fn lemma_first_index(s: Seq<Balance>, x: Balance) -> (k: int)
    requires
        s.contains(x),
    ensures
        0 <= k < s.len(),
        s[k] == x,
        forall|j: int| 0 <= j < k ==> s[j] != x,
    decreases s.len(),
{
    if s[0] == x {
        0
    } else {
        let w = choose|i: int| 0 <= i < s.len() && s[i] == x;
        assert(s.drop_first()[w - 1] == x);
        let k = lemma_first_index(s.drop_first(), x);
        assert forall|j: int| 0 <= j < k + 1 implies s[j] != x by {
            if j > 0 {
                assert(s[j] == s.drop_first()[j - 1]);
            }
        }
        k + 1
    }
}

/// Settling a waiting withdrawal, by an operator with the right, takes out exactly the
/// first waiting withdrawal of that amount, keeps the others in order, moves no balance,
/// and announces the settlement.
pub proof fn law_withdraw_finish_settles_one(s: BridgeState, author: AccountId, who: AccountId, amount: Balance)
    requires
        s.has_auth(author, Auth::Withdraw),
        s.withdraws_of(who).contains(amount),
    ensures
        ({
            let (s1, r) = withdraw_finish_spec(s, Origin::Signed(author), who, amount);
            let p = s.withdraws_of(who);
            &&& r is Ok
            &&& exists|k: int| 0 <= k < p.len() && p[k] == amount && (forall|j: int| 0 <= j < k ==> p[j] != amount)
                && s1.withdraws_of(who) == p.take(k) + p.skip(k + 1)
            &&& forall|y: AccountId| y != who ==> s1.withdraws_of(y) == s.withdraws_of(y)
            &&& s1.assets == s.assets
            &&& s1.events == s.events.push(RawEvent::Withdraw(who, amount))
        }),
{
    let p = s.withdraws_of(who);
    let k = lemma_first_index(p, amount);
    lemma_remove_first_at(p, amount, k);
    let (s1, r) = withdraw_finish_spec(s, Origin::Signed(author), who, amount);
    if p.len() <= 1 {
        assert(p.take(k) + p.skip(k + 1) =~= Seq::<Balance>::empty());
    }
    assert(s1.withdraws_of(who) == p.take(k) + p.skip(k + 1));
}

/// A refund, by an operator with the right, of a waiting withdrawal sends the amount from
/// the vault back to the account and takes out exactly the first waiting withdrawal of
/// that amount, where the vault holds it and is not the account.
pub proof fn law_refund_returns_one(s: BridgeState, author: AccountId, who: AccountId, amount: Balance)
    requires
        s.has_auth(author, Auth::Refund),
        s.withdraws_of(who).contains(amount),
        refund_fits(s, Origin::Signed(author), who, amount),
        s.assets.ga.free(s.asset_id, s.vault) >= amount,
        s.vault != who,
    ensures
        ({
            let (s1, r) = refund_spec(s, Origin::Signed(author), who, amount);
            let p = s.withdraws_of(who);
            &&& r is Ok
            &&& s1.assets.ga.free(s.asset_id, who) == s.assets.ga.free(s.asset_id, who) + amount
            &&& s1.assets.ga.free(s.asset_id, s.vault) == s.assets.ga.free(s.asset_id, s.vault) - amount
            &&& exists|k: int| 0 <= k < p.len() && p[k] == amount && (forall|j: int| 0 <= j < k ==> p[j] != amount)
                && s1.withdraws_of(who) == p.take(k) + p.skip(k + 1)
        }),
{
    let p = s.withdraws_of(who);
    let k = lemma_first_index(p, amount);
    lemma_remove_first_at(p, amount, k);
    let (s1, r) = refund_spec(s, Origin::Signed(author), who, amount);
    if p.len() <= 1 {
        assert(p.take(k) + p.skip(k + 1) =~= Seq::<Balance>::empty());
    }
    assert(s1.withdraws_of(who) == p.take(k) + p.skip(k + 1));
}

/// A withdrawal moves the amount from the signer into the vault and puts it last on the
/// signer's waiting list, where the signer holds it and is not the vault.
pub proof fn law_withdraw_moves_to_the_vault(s: BridgeState, who: AccountId, amount: Balance)
    requires
        s.assets.ga.transfer_fits(s.asset_id, who, s.vault, amount),
        s.assets.ga.free(s.asset_id, who) >= amount,
        who != s.vault,
    ensures
        ({
            let (s1, r) = withdraw_spec(s, Origin::Signed(who), amount);
            &&& r is Ok
            &&& s1.assets.ga.free(s.asset_id, who) == s.assets.ga.free(s.asset_id, who) - amount
            &&& s1.assets.ga.free(s.asset_id, s.vault) == s.assets.ga.free(s.asset_id, s.vault) + amount
            &&& s1.withdraws_of(who) == s.withdraws_of(who).push(amount)
        }),
{
}

/// A new deposit, from an operator with the right, of at least the threshold for a
/// receiver that is not white is held for vetting: nothing is minted, the transaction is
/// recorded, and the deposit with its hash waits last in the receiver's list.
pub proof fn law_large_deposit_is_held(s: BridgeState, who: AccountId, account: AccountId, amount: Balance, tx: TxHash, hook: Result<(), DispatchError>)
    requires
        !s.tx_seen(tx),
        s.has_auth(who, Auth::Deposit),
        amount >= s.threshold,
        !s.is_white(account),
    ensures
        ({
            let (s1, r) = deposit_spec(s, Origin::Signed(who), account, amount, tx, hook);
            &&& r is Ok
            &&& s1.assets == s.assets
            &&& s1.tx_seen(tx)
            &&& s1.pending_of(account) == s.pending_of(account).push(Deposit { account_id: account, tx_hash: Some(tx), amount })
            &&& forall|y: AccountId| y != account ==> s1.pending_of(y) == s.pending_of(y)
        }),
{
}

} // verus!
