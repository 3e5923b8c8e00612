//! Properties of the lending market that hold across calls.
use vstd::prelude::*;
use crate::dispatch::{AccountId, Balance, BlockNumber, DispatchError, Origin};
use crate::generic_asset::{has_lock_id, transfer_spec};
use crate::hashing::lock_identifier_of;
use crate::ledger_laws::law_reserve_then_unreserve_restores;
use crate::ls_biding::{
    call_spec, call_safe, initial_state, periodic_check_loans_spec, periodic_check_borrows_spec, create_loan_safe, add_collateral_safe, liquidate_loan_safe, repay_loan_safe, check_borrows, check_lenders, check_loans, create_borrow_safe, create_borrow_spec,
    add_collateral_spec, create_loan_spec, liquidate_loan_spec, loan_closed, ltv_of, on_finalize_spec,
    payout_spec, remove_borrow_safe, Loan, LoanId, remove_borrow_spec, repay_loan_spec, BorrowId, BorrowStatus, Call, Error, LoanHealth, LsState, RawEvent, TradingPair, TradingPairPrices, BorrowOptions,
};
use crate::seqs::{lemma_contains_push, lemma_without, without};

verus! {

/// A market call is a call that lists, unlists, lends, liquidates, adds collateral or repays.
pub open spec fn is_market_call(call: Call) -> bool {
    match call {
        Call::list_borrow(..) | Call::unlist_borrow(_) | Call::lend(_) | Call::liquidate(_)
        | Call::add_collateral(..) | Call::repay(_) => true,
        _ => false,
    }
}

/// While the market is paused, every market call is refused with `Paused` and changes nothing.
pub proof fn law_paused_market_refuses(s: LsState, origin: Origin, call: Call)
    requires
        s.paused,
        is_market_call(call),
    ensures
        call_spec(s, origin, call) == (s, Err::<(), DispatchError>(DispatchError::LsBiding(Error::Paused))),
{
}

/// Only the root origin changes a setting of the market.
pub proof fn law_settings_need_root(s: LsState, origin: Origin, call: Call)
    requires
        !is_market_call(call),
        origin != Origin::Root,
    ensures
        call_spec(s, origin, call) == (s, Err::<(), DispatchError>(DispatchError::BadOrigin)),
{
}

proof fn lemma_without_within(s: Seq<BorrowId>, x: BorrowId)
    ensures
        forall|y: BorrowId| #[trigger] without(s, x).contains(y) ==> s.contains(y) && y != x,
{
    lemma_without(s, x);
}

proof fn lemma_closed_keeps_listed(s: LsState, l: crate::ls_biding::Loan, bs: BorrowStatus, ls: LoanHealth)
    requires
        s.alive_borrows_listed(),
    ensures
        loan_closed(s, l, bs, ls).alive_borrows_listed(),
{
    lemma_without_within(s.alive_borrow_ids, l.borrow_id);
}

proof fn lemma_create_borrow_keeps_listed(s: LsState, who: AccountId, c: Balance, tp: TradingPair, o: BorrowOptions)
    requires
        s.alive_borrows_listed(),
    ensures
        create_borrow_spec(s, who, c, tp, o).0.alive_borrows_listed(),
{
    let id = s.next_borrow_id;
    assert forall|y: BorrowId| #[trigger] s.alive_borrow_ids.push(id).contains(y) implies s.alive_borrow_ids.contains(y) || y == id by {
        lemma_contains_push(s.alive_borrow_ids, id, y);
    }
}

proof fn lemma_create_loan_keeps_listed(s: LsState, loaner: AccountId, id: BorrowId)
    requires
        s.alive_borrows_listed(),
    ensures
        create_loan_spec(s, loaner, id).0.alive_borrows_listed(),
{
    lemma_without_within(s.alive_borrow_ids, id);
}

proof fn lemma_payout_keeps_listed(s: LsState, liquidator: AccountId, l: crate::ls_biding::Loan, loan_id: u128, covers: bool)
    requires
        s.alive_borrows_listed(),
    ensures
        payout_spec(s, liquidator, l, loan_id, covers).0.alive_borrows_listed(),
{
    let a = l.collateral_asset_id;
    let cb = l.collateral_balance;
    let to_loaner = if covers { (cb * 95 / 100) as Balance } else { (cb * 9 / 10) as Balance };
    let to_liquidator = if covers { (cb - to_loaner) as Balance } else { ((cb - to_loaner) / 2) as Balance };
    let to_platform = (cb - to_loaner - to_liquidator) as Balance;
    let (g1, r1) = transfer_spec(s.ga, a, s.money_pool, l.loaner_id, to_loaner);
    let (g2, r2) = transfer_spec(g1, a, s.money_pool, liquidator, to_liquidator);
    let (g3, r3) = transfer_spec(g2, a, s.money_pool, s.platform, to_platform);
    lemma_closed_keeps_listed(s.with_ga(g2), l, BorrowStatus::Liquidated, LoanHealth::Liquidated);
    lemma_closed_keeps_listed(s.with_ga(g3), l, BorrowStatus::Liquidated, LoanHealth::Liquidated);
}

proof fn lemma_liquidate_keeps_listed(s: LsState, liquidator: AccountId, loan_id: u128)
    requires
        s.alive_borrows_listed(),
    ensures
        liquidate_loan_spec(s, liquidator, loan_id).0.alive_borrows_listed(),
{
    let l = s.loan(loan_id);
    lemma_payout_keeps_listed(s, liquidator, l, loan_id, true);
    lemma_payout_keeps_listed(s, liquidator, l, loan_id, false);
}

proof fn lemma_repay_keeps_listed(s: LsState, who: AccountId, id: BorrowId)
    requires
        s.alive_borrows_listed(),
    ensures
        repay_loan_spec(s, who, id).0.alive_borrows_listed(),
{
    let b = s.borrows[id];
    let l = s.loans[b.loan_id->Some_0];
    let need = crate::ls_biding::amount_due(b) as Balance;
    let (g1, r1) = transfer_spec(s.ga, b.borrow_asset_id, who, l.loaner_id, need);
    let (g2, r2) = transfer_spec(g1, b.collateral_asset_id, s.money_pool, who, b.collateral_balance);
    lemma_closed_keeps_listed(s.with_ga(g2), l, BorrowStatus::Completed, LoanHealth::Completed);
}

/// Every call keeps each alive borrow id naming a stored borrow.
pub proof fn law_calls_keep_alive_borrows_listed(s: LsState, origin: Origin, call: Call)
    requires
        s.alive_borrows_listed(),
    ensures
        call_spec(s, origin, call).0.alive_borrows_listed(),
{
    if !s.paused {
        if let Origin::Signed(who) = origin {
            match call {
                Call::list_borrow(c, tp, o) => lemma_create_borrow_keeps_listed(s, who, c, tp, o),
                Call::unlist_borrow(id) => lemma_without_within(s.alive_borrow_ids, id),
                Call::lend(id) => lemma_create_loan_keeps_listed(s, who, id),
                Call::liquidate(id) => lemma_liquidate_keeps_listed(s, who, id),
                Call::repay(id) => lemma_repay_keeps_listed(s, who, id),
                _ => {},
            }
        }
    }
}

proof fn lemma_check_borrows(s: LsState, ids: Seq<BorrowId>, bn: BlockNumber)
    ensures
        forall|x: BorrowId| #[trigger] check_borrows(s, ids, bn).1.contains(x) ==> ids.contains(x),
        forall|k: BorrowId| s.borrows.contains_key(k) ==> #[trigger] check_borrows(s, ids, bn).0.borrows.contains_key(k),
        forall|x: BorrowId| #[trigger] ids.contains(x) ==> check_borrows(s, ids, bn).1.contains(x)
            || check_borrows(s, ids, bn).0.borrows.contains_key(x),
    decreases ids.len(),
{
    if ids.len() > 0 {
        let t = ids.drop_last();
        lemma_check_borrows(s, t, bn);
        let (s1, kept) = check_borrows(s, t, bn);
        let id = ids.last();
        assert(ids =~= t.push(id));
        assert forall|x: BorrowId| #[trigger] check_borrows(s, ids, bn).1.contains(x) implies ids.contains(x) by {
            lemma_contains_push(kept, id, x);
            lemma_contains_push(t, id, x);
        }
        assert forall|x: BorrowId| #[trigger] ids.contains(x) implies check_borrows(s, ids, bn).1.contains(x)
            || check_borrows(s, ids, bn).0.borrows.contains_key(x) by {
            lemma_contains_push(kept, id, x);
            lemma_contains_push(t, id, x);
        }
    }
}

proof fn lemma_check_loans_keeps(s: LsState, ids: Seq<u128>, bn: BlockNumber)
    ensures
        check_loans(s, ids, bn).borrows == s.borrows,
        check_loans(s, ids, bn).alive_borrow_ids == s.alive_borrow_ids,
    decreases ids.len(),
{
    if ids.len() > 0 {
        lemma_check_loans_keeps(s, ids.drop_last(), bn);
    }
}

proof fn lemma_check_lenders_keeps(s: LsState, lenders: Seq<AccountId>, bn: BlockNumber)
    ensures
        check_lenders(s, lenders, bn).borrows == s.borrows,
        check_lenders(s, lenders, bn).alive_borrow_ids == s.alive_borrow_ids,
    decreases lenders.len(),
{
    if lenders.len() > 0 {
        lemma_check_lenders_keeps(s, lenders.drop_last(), bn);
        let s1 = check_lenders(s, lenders.drop_last(), bn);
        lemma_check_loans_keeps(s1, s1.alive_loan_ids_of(lenders.last()), bn);
    }
}

/// The end of a block keeps each alive borrow id naming a stored borrow.
pub proof fn law_block_end_keeps_alive_borrows_listed(s: LsState, bn: BlockNumber)
    requires
        s.alive_borrows_listed(),
    ensures
        on_finalize_spec(s, bn).alive_borrows_listed(),
{
    lemma_check_lenders_keeps(s, s.account_ids_with_loans, bn);
    let s0 = s.with_alive(Seq::empty());
    lemma_check_borrows(s0, s.alive_borrow_ids, bn);
}

/// A borrow listed and then unlisted by its borrower gives the collateral back: the
/// unlisting is owed success, the borrower's free and reserved balances of the collateral
/// asset are as before the listing, the borrow is no longer alive, its record stays as the
/// listing stored it, and the lock that held its collateral is gone, the borrower's other
/// locks on that asset being as before.
pub proof fn law_list_then_unlist_returns_collateral(s: LsState, who: AccountId, c: Balance, tp: TradingPair, o: BorrowOptions)
    requires
        s.ga.lock_ids_below_next(),
        create_borrow_safe(s, who, c, tp, o),
        create_borrow_spec(s, who, c, tp, o).1 is Ok,
    ensures
        ({
            let s1 = create_borrow_spec(s, who, c, tp, o).0;
            let id = s.next_borrow_id;
            let (s2, r2) = remove_borrow_spec(s1, who, id);
            &&& remove_borrow_safe(s1, who, id)
            &&& r2 is Ok
            &&& s2.ga.free(tp.collateral, who) == s.ga.free(tp.collateral, who)
            &&& s2.ga.reserved(tp.collateral, who) == s.ga.reserved(tp.collateral, who)
            &&& !s2.alive_borrow_ids.contains(id)
            &&& s2.borrows == s1.borrows
            &&& s2.borrows[id].lock_id == s.ga.next_lock_id
            &&& s2.ga.locks_of(lock_identifier_of(tp.collateral), who) == s.ga.locks_of(lock_identifier_of(tp.collateral), who)
            &&& !has_lock_id(s2.ga.locks_of(lock_identifier_of(tp.collateral), who), s.ga.next_lock_id)
        }),
{
    let id = s.next_borrow_id;
    let s1 = create_borrow_spec(s, who, c, tp, o).0;
    law_reserve_then_unreserve_restores(s.ga, tp.collateral, who, c);
    lemma_contains_push(s.borrow_ids_of(who), id, id);
    lemma_contains_push(s.alive_borrow_ids, id, id);
    lemma_without(s1.alive_borrow_ids, id);
}

/// More collateral never lowers the loan-to-value ratio, and a larger debt never raises it.
pub proof fn law_ltv_monotone(p: TradingPairPrices, b1: Balance, b2: Balance, c1: Balance, c2: Balance)
    requires
        c1 <= c2,
        0 < b2 <= b1,
        p.borrow_asset_price > 0,
    ensures
        ltv_of(p, b1, c1) <= ltv_of(p, b2, c2),
{
    let n1 = p.collateral_asset_price * c1 * 10000;
    let n2 = p.collateral_asset_price * c2 * 10000;
    let d1 = p.borrow_asset_price * b1;
    let d2 = p.borrow_asset_price * b2;
    assert(0 <= n1 <= n2) by (nonlinear_arith)
        requires
            c1 <= c2,
            0 <= c1,
            n1 == p.collateral_asset_price * c1 * 10000,
            n2 == p.collateral_asset_price * c2 * 10000,
            p.collateral_asset_price >= 0,
    ;
    assert(0 < d2 <= d1) by (nonlinear_arith)
        requires
            0 < b2 <= b1,
            p.borrow_asset_price > 0,
            d1 == p.borrow_asset_price * b1,
            d2 == p.borrow_asset_price * b2,
    ;
    vstd::arithmetic::div_mod::lemma_div_is_ordered(n1, n2, d1);
    vstd::arithmetic::div_mod::lemma_div_is_ordered_by_denominator(n2, d2, d1);
}

/// The shares of a liquidated collateral add up to the collateral: the lender's, the
/// liquidator's and, where the debt is below the collateral's value, the platform's.
pub proof fn law_liquidation_shares_add_up(cb: Balance, debt_covers_collateral: bool)
    requires
        (if debt_covers_collateral { cb * 95 } else { cb * 9 }) <= Balance::MAX,
    ensures
        ({
            let to_loaner = if debt_covers_collateral { cb * 95 / 100 } else { cb * 9 / 10 };
            let to_liquidator = if debt_covers_collateral { cb - to_loaner } else { (cb - to_loaner) / 2 };
            let to_platform = cb - to_loaner - to_liquidator;
            &&& 0 <= to_loaner <= cb
            &&& 0 <= to_liquidator
            &&& 0 <= to_platform
            &&& to_loaner + to_liquidator + to_platform == cb
            &&& debt_covers_collateral ==> to_platform == 0
        }),
{
}

/// A repayment that succeeds completes the loan and its borrow, and the borrow is no
/// longer alive.
pub proof fn law_repay_completes(s: LsState, who: AccountId, borrow_id: BorrowId)
    requires
        repay_loan_spec(s, who, borrow_id).1 is Ok,
    ensures
        ({
            let l = s.loans[s.borrows[borrow_id].loan_id->Some_0];
            let s2 = repay_loan_spec(s, who, borrow_id).0;
            &&& s2.loan(l.id).status == LoanHealth::Completed
            &&& s2.borrow(l.borrow_id).status == BorrowStatus::Completed
            &&& !s2.alive_borrow_ids.contains(l.borrow_id)
            &&& !s2.alive_loan_ids_of(l.loaner_id).contains(l.id)
        }),
{
    let b = s.borrows[borrow_id];
    let l = s.loans[b.loan_id->Some_0];
    let need = crate::ls_biding::amount_due(b) as Balance;
    let (g1, r1) = transfer_spec(s.ga, b.borrow_asset_id, who, l.loaner_id, need);
    let (g2, r2) = transfer_spec(g1, b.collateral_asset_id, s.money_pool, who, b.collateral_balance);
    let t = s.with_ga(g2);
    let s1 = t.borrow_marked(l.borrow_id, BorrowStatus::Completed);
    lemma_without(s1.alive_borrow_ids, l.borrow_id);
    lemma_without(s1.alive_loan_ids_of(l.loaner_id), l.id);
}

/// A liquidation that pays out succeeds in moving exactly the loan's collateral out of the
/// money pool, where the pool is none of the accounts paid.
pub proof fn law_payout_empties_the_collateral(s: LsState, liquidator: AccountId, l: Loan, loan_id: LoanId, debt_covers_collateral: bool)
    requires
        (if debt_covers_collateral { l.collateral_balance * 95 } else { l.collateral_balance * 9 }) <= Balance::MAX,
        s.money_pool != l.loaner_id,
        s.money_pool != liquidator,
        s.money_pool != s.platform,
        payout_spec(s, liquidator, l, loan_id, debt_covers_collateral).1 is Ok,
    ensures
        payout_spec(s, liquidator, l, loan_id, debt_covers_collateral).0.ga.free(l.collateral_asset_id, s.money_pool)
            == s.ga.free(l.collateral_asset_id, s.money_pool) - l.collateral_balance,
{
    law_liquidation_shares_add_up(l.collateral_balance, debt_covers_collateral);
}

/// In an open market each market call acts for its signer: listing is `create_borrow`,
/// unlisting `remove_borrow`, lending `create_loan`, liquidating `liquidate_loan`, adding
/// collateral `add_collateral` and repaying `repay_loan`, each with the signer as the
/// account that acts, and each asks of the state what that function asks; an unsigned or
/// root origin is refused with nothing changed.
pub proof fn law_market_calls_act_for_the_signer(s: LsState, who: AccountId, c: Balance, tp: TradingPair, o: BorrowOptions, borrow_id: BorrowId, loan_id: LoanId, amount: Balance, origin: Origin, call: Call)
    requires
        !s.paused,
    ensures
        call_spec(s, Origin::Signed(who), Call::list_borrow(c, tp, o)) == create_borrow_spec(s, who, c, tp, o),
        call_spec(s, Origin::Signed(who), Call::unlist_borrow(borrow_id)) == remove_borrow_spec(s, who, borrow_id),
        call_spec(s, Origin::Signed(who), Call::lend(borrow_id)) == create_loan_spec(s, who, borrow_id),
        call_spec(s, Origin::Signed(who), Call::liquidate(loan_id)) == liquidate_loan_spec(s, who, loan_id),
        call_spec(s, Origin::Signed(who), Call::add_collateral(borrow_id, amount)) == add_collateral_spec(s, who, borrow_id, amount),
        call_spec(s, Origin::Signed(who), Call::repay(borrow_id)) == repay_loan_spec(s, who, borrow_id),
        call_safe(s, Origin::Signed(who), Call::list_borrow(c, tp, o)) == create_borrow_safe(s, who, c, tp, o),
        call_safe(s, Origin::Signed(who), Call::unlist_borrow(borrow_id)) == remove_borrow_safe(s, who, borrow_id),
        call_safe(s, Origin::Signed(who), Call::lend(borrow_id)) == create_loan_safe(s, who, borrow_id),
        call_safe(s, Origin::Signed(who), Call::liquidate(loan_id)) == liquidate_loan_safe(s, who, loan_id),
        call_safe(s, Origin::Signed(who), Call::add_collateral(borrow_id, amount)) == add_collateral_safe(s, who, borrow_id, amount),
        call_safe(s, Origin::Signed(who), Call::repay(borrow_id)) == repay_loan_safe(s, who, borrow_id),
        is_market_call(call) && !(origin is Signed) ==> call_spec(s, origin, call) == (s, Err::<(), DispatchError>(DispatchError::BadOrigin)),
{
}

/// A loan that lending succeeds in making is filed under its lender: the borrow is taken
/// and points at the new loan, which gets the next loan id and joins the lender's loans and
/// running loans; the lender is listed among those with loans once, and a list of lenders
/// with no repeats keeps none; the borrow stays alive.
pub proof fn law_lend_files_the_loan(s: LsState, loaner: AccountId, borrow_id: BorrowId)
    requires
        create_loan_spec(s, loaner, borrow_id).1 is Ok,
    ensures
        ({
            let s1 = create_loan_spec(s, loaner, borrow_id).0;
            let n = s.next_loan_id;
            &&& s1.borrow(borrow_id).status == BorrowStatus::Taken
            &&& s1.borrow(borrow_id).loan_id == Some(n)
            &&& s1.alive_borrow_ids == s.alive_borrow_ids
            &&& s1.loan_ids_of(loaner) == s.loan_ids_of(loaner).push(n)
            &&& s1.alive_loan_ids_of(loaner) == s.alive_loan_ids_of(loaner).push(n)
            &&& s1.account_ids_with_loans == if s.account_ids_with_loans.contains(loaner) {
                s.account_ids_with_loans
            } else {
                s.account_ids_with_loans.push(loaner)
            }
            &&& s1.loans[n].loaner_id == loaner
            &&& s1.loans[n].borrow_id == borrow_id
            &&& s.account_ids_with_loans.no_duplicates() ==> s1.account_ids_with_loans.no_duplicates()
        }),
{
    let a = s.account_ids_with_loans;
    if !a.contains(loaner) {
        let b = a.push(loaner);
        assert forall|i: int, j: int| 0 <= i < b.len() && 0 <= j < b.len() && i != j && a.no_duplicates() implies b[i] != b[j] by {
            if i < a.len() && j < a.len() {
                assert(b[i] == a[i] && b[j] == a[j]);
            } else if i < a.len() {
                assert(b[i] == a[i]);
            } else {
                assert(b[j] == a[j]);
            }
        }
    }
}

/// `t` keeps what the links between loans and borrows rest on in `s`: the same loans and
/// borrows are stored, each with its id and the id it points at, a borrow up for lending
/// in `t` was so in `s`, the next ids have not gone back, and the running loans are among
/// those of `s`.
spec fn links_kept(s: LsState, t: LsState) -> bool {
    &&& forall|id: LoanId| #[trigger] t.loans.contains_key(id) == s.loans.contains_key(id)
    &&& forall|id: LoanId| #[trigger] s.loans.contains_key(id) ==> t.loans[id].id == s.loans[id].id
        && t.loans[id].borrow_id == s.loans[id].borrow_id
    &&& forall|bid: BorrowId| #[trigger] t.borrows.contains_key(bid) == s.borrows.contains_key(bid)
    &&& forall|bid: BorrowId| #[trigger] s.borrows.contains_key(bid) ==> t.borrows[bid].id == s.borrows[bid].id
        && t.borrows[bid].loan_id == s.borrows[bid].loan_id
        && (t.borrows[bid].status == BorrowStatus::Alive ==> s.borrows[bid].status == BorrowStatus::Alive)
    &&& t.next_loan_id >= s.next_loan_id
    &&& t.next_borrow_id >= s.next_borrow_id
    &&& forall|x: AccountId, id: LoanId| #[trigger] t.alive_loan_ids_of(x).contains(id) ==> s.alive_loan_ids_of(x).contains(id)
}

proof fn lemma_links_kept(s: LsState, t: LsState)
    requires
        s.loans_linked(),
        links_kept(s, t),
        t.alive_borrows_listed(),
    ensures
        t.loans_linked(),
{
    assert forall|x: AccountId, id: LoanId| #[trigger] t.alive_loan_ids_of(x).contains(id) implies t.loans.contains_key(id) by {
        assert(s.alive_loan_ids_of(x).contains(id));
    }
    assert forall|id: LoanId| #[trigger] t.loans.contains_key(id) implies {
        &&& t.loans[id].id == id
        &&& id < t.next_loan_id
        &&& t.borrows.contains_key(t.loans[id].borrow_id)
        &&& t.borrows[t.loans[id].borrow_id].loan_id == Some(id)
    } by {
        assert(s.loans.contains_key(id));
        assert(s.borrows.contains_key(s.loans[id].borrow_id));
    }
    assert forall|bid: BorrowId| #[trigger] t.borrows.contains_key(bid) implies {
        &&& t.borrows[bid].id == bid
        &&& bid < t.next_borrow_id
        &&& t.borrows[bid].loan_id is Some ==> {
            &&& t.loans.contains_key(t.borrows[bid].loan_id->Some_0)
            &&& t.loans[t.borrows[bid].loan_id->Some_0].borrow_id == bid
            &&& t.borrows[bid].status != BorrowStatus::Alive
        }
    } by {
        assert(s.borrows.contains_key(bid));
        if t.borrows[bid].loan_id is Some {
            assert(s.loans.contains_key(s.borrows[bid].loan_id->Some_0));
        }
    }
}

proof fn lemma_links_kept_trans(a: LsState, b: LsState, c: LsState)
    requires
        links_kept(a, b),
        links_kept(b, c),
    ensures
        links_kept(a, c),
{
    assert forall|id: LoanId| #[trigger] a.loans.contains_key(id) implies c.loans[id].id == a.loans[id].id
        && c.loans[id].borrow_id == a.loans[id].borrow_id by {
        assert(b.loans.contains_key(id));
    }
    assert forall|bid: BorrowId| #[trigger] a.borrows.contains_key(bid) implies c.borrows[bid].id == a.borrows[bid].id
        && c.borrows[bid].loan_id == a.borrows[bid].loan_id
        && (c.borrows[bid].status == BorrowStatus::Alive ==> a.borrows[bid].status == BorrowStatus::Alive) by {
        assert(b.borrows.contains_key(bid));
    }
    assert forall|x: AccountId, id: LoanId| #[trigger] c.alive_loan_ids_of(x).contains(id) implies a.alive_loan_ids_of(x).contains(id) by {
        assert(b.alive_loan_ids_of(x).contains(id));
    }
}

proof fn lemma_borrow_marked_links(s: LsState, id: BorrowId, status: BorrowStatus)
    requires
        s.borrows.contains_key(id),
        status != BorrowStatus::Alive,
    ensures
        links_kept(s, s.borrow_marked(id, status)),
{
}

proof fn lemma_loan_marked_links(s: LsState, id: LoanId, status: LoanHealth)
    requires
        s.loans.contains_key(id),
    ensures
        links_kept(s, s.loan_marked(id, status)),
{
}

proof fn lemma_loan_closed_links(s: LsState, l: Loan, bs: BorrowStatus, ls: LoanHealth)
    requires
        s.loans.contains_key(l.id),
        s.borrows.contains_key(l.borrow_id),
        bs != BorrowStatus::Alive,
    ensures
        links_kept(s, loan_closed(s, l, bs, ls)),
        forall|e: RawEvent| links_kept(s, #[trigger] loan_closed(s, l, bs, ls).emit(e)),
        loan_closed(s, l, bs, ls).alive_borrow_ids == without(s.alive_borrow_ids, l.borrow_id),
{
    let s1 = s.borrow_marked(l.borrow_id, bs);
    lemma_borrow_marked_links(s, l.borrow_id, bs);
    let alive_loans = without(s1.alive_loan_ids_of(l.loaner_id), l.id);
    lemma_without(s1.alive_loan_ids_of(l.loaner_id), l.id);
    let s2 = LsState {
        alive_borrow_ids: without(s1.alive_borrow_ids, l.borrow_id),
        alive_loan_ids_by_account_id: s1.alive_loan_ids_by_account_id.insert(l.loaner_id, alive_loans),
        ..s1
    };
    assert forall|x: AccountId, id: LoanId| #[trigger] s2.alive_loan_ids_of(x).contains(id) implies s1.alive_loan_ids_of(x).contains(id) by {
        if x == l.loaner_id {
            assert(s2.alive_loan_ids_of(x) == alive_loans);
        } else {
            assert(s2.alive_loan_ids_of(x) == s1.alive_loan_ids_of(x));
        }
    }
    assert(links_kept(s1, s2));
    lemma_links_kept_trans(s, s1, s2);
    let s3 = if alive_loans.len() == 0 {
        LsState { account_ids_with_loans: without(s2.account_ids_with_loans, l.loaner_id), ..s2 }
    } else {
        s2
    };
    assert(links_kept(s2, s3));
    lemma_links_kept_trans(s, s2, s3);
    lemma_loan_marked_links(s3, l.id, ls);
    let s4 = s3.loan_marked(l.id, ls);
    lemma_links_kept_trans(s, s3, s4);
    assert forall|e: RawEvent| links_kept(s, #[trigger] s4.emit(e)) by {
        assert(links_kept(s4, s4.emit(e)));
        lemma_links_kept_trans(s, s4, s4.emit(e));
    }
}

proof fn lemma_create_borrow_links(s: LsState, who: AccountId, c: Balance, tp: TradingPair, o: BorrowOptions)
    requires
        s.loans_linked(),
        create_borrow_safe(s, who, c, tp, o),
    ensures
        create_borrow_spec(s, who, c, tp, o).0.loans_linked(),
{
    lemma_create_borrow_keeps_listed(s, who, c, tp, o);
    let t = create_borrow_spec(s, who, c, tp, o).0;
    let id = s.next_borrow_id;
    if t.next_borrow_id != s.next_borrow_id {
        assert(id < BorrowId::MAX);
        if t.borrows == s.borrows {
            assert(links_kept(s, t));
            lemma_links_kept(s, t);
        } else {
            assert(!s.borrows.contains_key(id));
            assert forall|x: AccountId, lid: LoanId| #[trigger] t.alive_loan_ids_of(x).contains(lid) implies t.loans.contains_key(lid) by {
                assert(s.alive_loan_ids_of(x).contains(lid));
            }
            assert forall|lid: LoanId| #[trigger] t.loans.contains_key(lid) implies {
                &&& t.loans[lid].id == lid
                &&& lid < t.next_loan_id
                &&& t.borrows.contains_key(t.loans[lid].borrow_id)
                &&& t.borrows[t.loans[lid].borrow_id].loan_id == Some(lid)
            } by {
                assert(s.borrows.contains_key(s.loans[lid].borrow_id));
            }
            assert forall|bid: BorrowId| #[trigger] t.borrows.contains_key(bid) implies {
                &&& t.borrows[bid].id == bid
                &&& bid < t.next_borrow_id
                &&& t.borrows[bid].loan_id is Some ==> {
                    &&& t.loans.contains_key(t.borrows[bid].loan_id->Some_0)
                    &&& t.loans[t.borrows[bid].loan_id->Some_0].borrow_id == bid
                    &&& t.borrows[bid].status != BorrowStatus::Alive
                }
            } by {
                if bid != id {
                    assert(s.borrows.contains_key(bid));
                }
            }
        }
    }
}

proof fn lemma_create_loan_links(s: LsState, loaner: AccountId, borrow_id: BorrowId)
    requires
        s.loans_linked(),
        create_loan_safe(s, loaner, borrow_id),
        !(create_loan_spec(s, loaner, borrow_id).1 is Err && create_loan_spec(s, loaner, borrow_id).0.next_loan_id != s.next_loan_id),
    ensures
        create_loan_spec(s, loaner, borrow_id).0.loans_linked(),
{
    lemma_create_loan_keeps_listed(s, loaner, borrow_id);
    let t = create_loan_spec(s, loaner, borrow_id).0;
    let r = create_loan_spec(s, loaner, borrow_id).1;
    if !s.alive_borrow_ids.contains(borrow_id) {
        assert(t == s);
    } else {
        let b = s.borrow(borrow_id);
        assert(s.borrows.contains_key(borrow_id));
        if b.dead_after is Some && b.dead_after->Some_0 <= s.block_number {
            let m = s.borrow_marked(borrow_id, BorrowStatus::Dead);
            lemma_borrow_marked_links(s, borrow_id, BorrowStatus::Dead);
            assert(links_kept(m, t));
            lemma_links_kept_trans(s, m, t);
            lemma_links_kept(s, t);
        } else if t.next_loan_id == s.next_loan_id {
            assert(t == s);
        } else {
            assert(r is Ok);
            let n = s.next_loan_id;
            assert(b.status == BorrowStatus::Alive);
            assert(b.loan_id is None);
            assert(!s.loans.contains_key(n));
            assert forall|x: AccountId, lid: LoanId| #[trigger] t.alive_loan_ids_of(x).contains(lid) implies t.loans.contains_key(lid) by {
                if x == loaner {
                    lemma_contains_push(s.alive_loan_ids_of(loaner), n, lid);
                } else {
                    assert(t.alive_loan_ids_of(x) == s.alive_loan_ids_of(x));
                }
                if lid != n {
                    assert(s.alive_loan_ids_of(x).contains(lid));
                }
            }
            assert forall|lid: LoanId| #[trigger] t.loans.contains_key(lid) implies {
                &&& t.loans[lid].id == lid
                &&& lid < t.next_loan_id
                &&& t.borrows.contains_key(t.loans[lid].borrow_id)
                &&& t.borrows[t.loans[lid].borrow_id].loan_id == Some(lid)
            } by {
                if lid != n {
                    let bb = s.loans[lid].borrow_id;
                    assert(s.borrows.contains_key(bb));
                    assert(bb != borrow_id);
                }
            }
            assert forall|bid: BorrowId| #[trigger] t.borrows.contains_key(bid) implies {
                &&& t.borrows[bid].id == bid
                &&& bid < t.next_borrow_id
                &&& t.borrows[bid].loan_id is Some ==> {
                    &&& t.loans.contains_key(t.borrows[bid].loan_id->Some_0)
                    &&& t.loans[t.borrows[bid].loan_id->Some_0].borrow_id == bid
                    &&& t.borrows[bid].status != BorrowStatus::Alive
                }
            } by {
                assert(s.borrows.contains_key(bid));
                if bid != borrow_id && s.borrows[bid].loan_id is Some {
                    assert(s.loans.contains_key(s.borrows[bid].loan_id->Some_0));
                }
            }
        }
    }
}

proof fn lemma_payout_links(s: LsState, liquidator: AccountId, l: Loan, loan_id: LoanId, covers: bool)
    requires
        s.loans_linked(),
        s.loans.contains_key(loan_id),
        l == s.loans[loan_id],
    ensures
        links_kept(s, payout_spec(s, liquidator, l, loan_id, covers).0),
{
    let t = payout_spec(s, liquidator, l, loan_id, covers).0;
    let a = l.collateral_asset_id;
    let cb = l.collateral_balance;
    let to_loaner = if covers { (cb * 95 / 100) as Balance } else { (cb * 9 / 10) as Balance };
    let to_liquidator = if covers { (cb - to_loaner) as Balance } else { ((cb - to_loaner) / 2) as Balance };
    let to_platform = (cb - to_loaner - to_liquidator) as Balance;
    let (g1, r1) = transfer_spec(s.ga, a, s.money_pool, l.loaner_id, to_loaner);
    let (g2, r2) = transfer_spec(g1, a, s.money_pool, liquidator, to_liquidator);
    let (g3, r3) = transfer_spec(g2, a, s.money_pool, s.platform, to_platform);
    assert(s.borrows.contains_key(l.borrow_id));
    lemma_loan_closed_links(s.with_ga(g2), l, BorrowStatus::Liquidated, LoanHealth::Liquidated);
    lemma_loan_closed_links(s.with_ga(g3), l, BorrowStatus::Liquidated, LoanHealth::Liquidated);
    assert(links_kept(s, s.with_ga(g2)));
    assert(links_kept(s, s.with_ga(g3)));
    lemma_links_kept_trans(s, s.with_ga(g2), loan_closed(s.with_ga(g2), l, BorrowStatus::Liquidated, LoanHealth::Liquidated));
    lemma_links_kept_trans(s, s.with_ga(g3), loan_closed(s.with_ga(g3), l, BorrowStatus::Liquidated, LoanHealth::Liquidated));
}

proof fn lemma_liquidate_links(s: LsState, liquidator: AccountId, loan_id: LoanId)
    requires
        s.loans_linked(),
        liquidate_loan_safe(s, liquidator, loan_id),
    ensures
        links_kept(s, liquidate_loan_spec(s, liquidator, loan_id).0),
{
    let t = liquidate_loan_spec(s, liquidator, loan_id).0;
    let l = s.loan(loan_id);
    if t != s {
        if !s.loans.contains_key(loan_id) {
            let p = s.prices(l.loan_asset_id, l.collateral_asset_id)->Some_0;
            assert(p.borrow_asset_price * l.loan_balance == 0);
        }
        lemma_payout_links(s, liquidator, l, loan_id, true);
        lemma_payout_links(s, liquidator, l, loan_id, false);
    }
}

proof fn lemma_add_collateral_links(s: LsState, who: AccountId, borrow_id: BorrowId, amount: Balance)
    requires
        s.loans_linked(),
    ensures
        links_kept(s, add_collateral_spec(s, who, borrow_id, amount).0),
{
    if s.borrows.contains_key(borrow_id) {
        let b = s.borrows[borrow_id];
        if b.loan_id is Some {
            assert(s.loans.contains_key(b.loan_id->Some_0));
        }
    }
}

proof fn lemma_repay_links(s: LsState, who: AccountId, borrow_id: BorrowId)
    requires
        s.loans_linked(),
    ensures
        links_kept(s, repay_loan_spec(s, who, borrow_id).0),
{
    let t = repay_loan_spec(s, who, borrow_id).0;
    if s.borrows.contains_key(borrow_id) && s.borrows[borrow_id].loan_id is Some {
        let b = s.borrows[borrow_id];
        let lid = b.loan_id->Some_0;
        if s.loans.contains_key(lid) {
            let l = s.loans[lid];
            assert(l.id == lid);
            assert(l.borrow_id == borrow_id);
            lemma_loan_marked_links(s, l.id, LoanHealth::ToBeLiquidated);
            let need = crate::ls_biding::amount_due(b) as Balance;
            let (g1, r1) = transfer_spec(s.ga, b.borrow_asset_id, who, l.loaner_id, need);
            let (g2, r2) = transfer_spec(g1, b.collateral_asset_id, s.money_pool, who, b.collateral_balance);
            lemma_loan_closed_links(s.with_ga(g2), l, BorrowStatus::Completed, LoanHealth::Completed);
            assert(links_kept(s, s.with_ga(g2)));
            lemma_links_kept_trans(s, s.with_ga(g2), loan_closed(s.with_ga(g2), l, BorrowStatus::Completed, LoanHealth::Completed));
        }
    }
}

/// Every call keeps loans and borrows pointing at each other, but for a lending that fails
/// after it has filed its loan: that loan stays stored with its borrow not pointing at it.
pub proof fn law_calls_keep_loans_linked(s: LsState, origin: Origin, call: Call)
    requires
        s.loans_linked(),
        call_safe(s, origin, call),
        !(call_spec(s, origin, call).1 is Err && call_spec(s, origin, call).0.next_loan_id != s.next_loan_id),
    ensures
        call_spec(s, origin, call).0.loans_linked(),
{
    law_calls_keep_alive_borrows_listed(s, origin, call);
    let t = call_spec(s, origin, call).0;
    if !s.paused {
        if let Origin::Signed(who) = origin {
            match call {
                Call::list_borrow(c, tp, o) => { lemma_create_borrow_links(s, who, c, tp, o); },
                Call::unlist_borrow(id) => { assert(links_kept(s, t)); lemma_links_kept(s, t); },
                Call::lend(id) => { lemma_create_loan_links(s, who, id); },
                Call::liquidate(id) => { lemma_liquidate_links(s, who, id); lemma_links_kept(s, t); },
                Call::add_collateral(id, amount) => { lemma_add_collateral_links(s, who, id, amount); lemma_links_kept(s, t); },
                Call::repay(id) => { lemma_repay_links(s, who, id); lemma_links_kept(s, t); },
                _ => { assert(links_kept(s, t)); lemma_links_kept(s, t); },
            }
        } else {
            assert(links_kept(s, t));
            lemma_links_kept(s, t);
        }
    } else {
        assert(links_kept(s, t));
        lemma_links_kept(s, t);
    }
}

proof fn lemma_check_borrows_links(s: LsState, ids: Seq<BorrowId>, bn: BlockNumber)
    requires
        forall|i: int| 0 <= i < ids.len() ==> s.borrows.contains_key(#[trigger] ids[i]),
    ensures
        links_kept(s, check_borrows(s, ids, bn).0),
    decreases ids.len(),
{
    if ids.len() == 0 {
        assert(links_kept(s, s));
    } else {
        let t = ids.drop_last();
        assert forall|i: int| 0 <= i < t.len() implies s.borrows.contains_key(#[trigger] t[i]) by {
            assert(t[i] == ids[i]);
        }
        lemma_check_borrows_links(s, t, bn);
        let s1 = check_borrows(s, t, bn).0;
        let id = ids.last();
        assert(s.borrows.contains_key(ids[ids.len() - 1]));
        assert(s1.borrows.contains_key(id));
        let b = s1.borrow(id);
        if b.dead_after is Some && b.dead_after->Some_0 <= bn {
            let m = s1.borrow_marked(id, BorrowStatus::Dead);
            lemma_borrow_marked_links(s1, id, BorrowStatus::Dead);
            lemma_links_kept_trans(s, s1, m);
            assert(links_kept(m, m.emit(RawEvent::BorrowDied(id))));
            lemma_links_kept_trans(s, m, m.emit(RawEvent::BorrowDied(id)));
        }
    }
}

proof fn lemma_check_loans_links(s: LsState, ids: Seq<LoanId>, bn: BlockNumber)
    requires
        forall|i: int| 0 <= i < ids.len() ==> s.loans.contains_key(#[trigger] ids[i]),
    ensures
        links_kept(s, check_loans(s, ids, bn)),
    decreases ids.len(),
{
    if ids.len() == 0 {
        assert(links_kept(s, s));
    } else {
        let t = ids.drop_last();
        assert forall|i: int| 0 <= i < t.len() implies s.loans.contains_key(#[trigger] t[i]) by {
            assert(t[i] == ids[i]);
        }
        lemma_check_loans_links(s, t, bn);
        let s1 = check_loans(s, t, bn);
        let id = ids.last();
        assert(s.loans.contains_key(ids[ids.len() - 1]));
        assert(s1.loans.contains_key(id));
        assert(links_kept(s1, check_loans(s, ids, bn)));
        lemma_links_kept_trans(s, s1, check_loans(s, ids, bn));
    }
}

proof fn lemma_check_lenders_links(s: LsState, lenders: Seq<AccountId>, bn: BlockNumber)
    requires
        s.loans_linked(),
    ensures
        links_kept(s, check_lenders(s, lenders, bn)),
    decreases lenders.len(),
{
    if lenders.len() == 0 {
        assert(links_kept(s, s));
    } else {
        let t = lenders.drop_last();
        lemma_check_lenders_links(s, t, bn);
        lemma_check_lenders_keeps(s, t, bn);
        let s1 = check_lenders(s, t, bn);
        lemma_links_kept(s, s1);
        let ids = s1.alive_loan_ids_of(lenders.last());
        assert forall|i: int| 0 <= i < ids.len() implies s1.loans.contains_key(#[trigger] ids[i]) by {
            assert(ids.contains(ids[i]));
        }
        lemma_check_loans_links(s1, ids, bn);
        lemma_links_kept_trans(s, s1, check_lenders(s, lenders, bn));
    }
}

/// The end of a block keeps loans and borrows pointing at each other.
pub proof fn law_block_end_keeps_loans_linked(s: LsState, bn: BlockNumber)
    requires
        s.loans_linked(),
    ensures
        on_finalize_spec(s, bn).loans_linked(),
{
    law_block_end_keeps_alive_borrows_listed(s, bn);
    let t = on_finalize_spec(s, bn);
    if (bn + 1) % 5 == 0 {
        lemma_check_lenders_links(s, s.account_ids_with_loans, bn);
    } else if bn % 2 == 0 {
        let s0 = s.with_alive(Seq::empty());
        assert(links_kept(s, s0));
        assert forall|i: int| 0 <= i < s.alive_borrow_ids.len() implies s0.borrows.contains_key(#[trigger] s.alive_borrow_ids[i]) by {
            assert(s.alive_borrow_ids.contains(s.alive_borrow_ids[i]));
        }
        lemma_check_borrows_links(s0, s.alive_borrow_ids, bn);
        let s1 = check_borrows(s0, s.alive_borrow_ids, bn).0;
        lemma_links_kept_trans(s, s0, s1);
        assert(links_kept(s1, t));
        lemma_links_kept_trans(s, s1, t);
    } else {
        assert(links_kept(s, t));
    }
    lemma_links_kept(s, t);
}

/// A fresh market has loans and borrows pointing at each other: it has none.
pub proof fn law_fresh_market_linked(
    money_pool: AccountId,
    platform: AccountId,
    trading_pairs: Seq<TradingPair>,
    safe_ltv: u32,
    liquidate_ltv: u32,
    min_borrow_terms: u64,
    min_borrow_interest_rate: u64,
    days: BlockNumber,
    ga: crate::generic_asset::GenericAssetState,
    oracle: crate::new_oracle::OracleState,
)
    ensures
        initial_state(money_pool, platform, trading_pairs, safe_ltv, liquidate_ltv, min_borrow_terms,
            min_borrow_interest_rate, days, ga, oracle).loans_linked(),
{
}

proof fn lemma_check_borrows_block(s: LsState, ids: Seq<BorrowId>, bn: BlockNumber)
    ensures
        check_borrows(s, ids, bn).0.block_number == s.block_number,
    decreases ids.len(),
{
    if ids.len() > 0 {
        lemma_check_borrows_block(s, ids.drop_last(), bn);
    }
}

proof fn lemma_check_loans_block(s: LsState, ids: Seq<LoanId>, bn: BlockNumber)
    ensures
        check_loans(s, ids, bn).block_number == s.block_number,
    decreases ids.len(),
{
    if ids.len() > 0 {
        lemma_check_loans_block(s, ids.drop_last(), bn);
    }
}

proof fn lemma_check_lenders_block(s: LsState, lenders: Seq<AccountId>, bn: BlockNumber)
    ensures
        check_lenders(s, lenders, bn).block_number == s.block_number,
    decreases lenders.len(),
{
    if lenders.len() > 0 {
        lemma_check_lenders_block(s, lenders.drop_last(), bn);
        let s1 = check_lenders(s, lenders.drop_last(), bn);
        lemma_check_loans_block(s1, s1.alive_loan_ids_of(lenders.last()), bn);
    }
}

/// The end of block `n` checks the borrows where `n` is even and `n + 1` is no multiple of
/// five, checks the loans where `n + 1` is a multiple of five, never both, and does
/// nothing on the other blocks; it never moves the block number.
pub proof fn law_block_end_schedule(s: LsState, n: BlockNumber)
    ensures
        (n + 1) % 5 == 0 ==> on_finalize_spec(s, n) == periodic_check_loans_spec(s, n),
        n % 2 == 0 && (n + 1) % 5 != 0 ==> on_finalize_spec(s, n) == periodic_check_borrows_spec(s, n),
        n % 2 != 0 && (n + 1) % 5 != 0 ==> on_finalize_spec(s, n) == s,
        on_finalize_spec(s, n).block_number == s.block_number,
{
    lemma_check_lenders_block(s, s.account_ids_with_loans, n);
    lemma_check_borrows_block(s.with_alive(Seq::empty()), s.alive_borrow_ids, n);
}

/// Two calls are equal exactly when they are the same call with equal arguments.
pub proof fn law_call_equality(a: Call, b: Call)
    ensures
        (a == b) <==> match (a, b) {
            (Call::pause, Call::pause) => true,
            (Call::resume, Call::resume) => true,
            (Call::change_platform(x), Call::change_platform(y)) => x == y,
            (Call::change_money_pool(x), Call::change_money_pool(y)) => x == y,
            (Call::change_safe_ltv(x), Call::change_safe_ltv(y)) => x == y,
            (Call::change_liquidate_ltv(x), Call::change_liquidate_ltv(y)) => x == y,
            (Call::change_min_borrow_terms(x), Call::change_min_borrow_terms(y)) => x == y,
            (Call::change_min_borrow_interest_rate(x), Call::change_min_borrow_interest_rate(y)) => x == y,
            (Call::list_borrow(c1, t1, o1), Call::list_borrow(c2, t2, o2)) => c1 == c2 && t1 == t2 && o1 == o2,
            (Call::unlist_borrow(x), Call::unlist_borrow(y)) => x == y,
            (Call::lend(x), Call::lend(y)) => x == y,
            (Call::liquidate(x), Call::liquidate(y)) => x == y,
            (Call::add_collateral(x1, m1), Call::add_collateral(x2, m2)) => x1 == x2 && m1 == m2,
            (Call::repay(x), Call::repay(y)) => x == y,
            _ => false,
        },
{
}

} // verus!
