//! What the market's calls make of borrows and loans, stated by their inputs.
use vstd::prelude::*;
use crate::dispatch::{AccountId, Balance, BlockNumber, DispatchError};
use crate::generic_asset::{is_first_with_id, lemma_first_with_id};
use crate::hashing::lock_identifier_of;
use crate::seqs::{lemma_contains_push, lemma_without};
use crate::ls_biding::{
    add_collateral_safe, add_collateral_spec, create_borrow_safe, create_borrow_spec, create_loan_safe, create_loan_spec,
    locked_collateral, check_loan, check_loans, check_lenders, on_finalize_spec, ltv_of, same_for_checks, lemma_same_for_checks_refl, lemma_same_for_checks_trans, lemma_check_loan_same, liquidate_loan_safe, liquidate_loan_spec, repay_loan_safe, repay_loan_spec, Error, Loan, Borrow, remove_borrow_safe, remove_borrow_spec, check_borrows, LiquidationType, LoanId, BorrowId, BorrowOptions, BorrowStatus, LoanHealth, LsState, TradingPair,
};

verus! {

/// A listing that goes through stores, under the next borrow id, a borrow of the lister
/// that is alive and not lent: it asks the amount of the borrow asset for the collateral of
/// the collateral asset, on the given terms and rate, and dies `w` blocks after the listing
/// block (at the last block, where that would overflow) for a warranty of `w`, or never
/// without one. The collateral moves from the lister's free balance into reserve.
pub proof fn law_list_files_the_borrow(s: LsState, who: AccountId, c: Balance, tp: TradingPair, o: BorrowOptions)
    requires
        s.ga.lock_ids_below_next(),
        create_borrow_safe(s, who, c, tp, o),
        create_borrow_spec(s, who, c, tp, o).1 is Ok,
    ensures
        ({
            let s1 = create_borrow_spec(s, who, c, tp, o).0;
            let id = s.next_borrow_id;
            let b = s1.borrows[id];
            &&& s1.borrows.contains_key(id)
            &&& s1.next_borrow_id == id + 1
            &&& b.id == id
            &&& b.who == who
            &&& b.status == BorrowStatus::Alive
            &&& b.loan_id is None
            &&& b.borrow_asset_id == tp.borrow
            &&& b.collateral_asset_id == tp.collateral
            &&& b.borrow_balance == o.amount
            &&& b.collateral_balance == c
            &&& b.terms == o.terms
            &&& b.interest_rate == o.interest_rate
            &&& match o.warranty {
                None => b.dead_after is None,
                Some(w) => b.dead_after == Some(
                    if s.block_number + w <= BlockNumber::MAX { (s.block_number + w) as BlockNumber } else { BlockNumber::MAX },
                ),
            }
            &&& b.dead_after is Some ==> b.dead_after->Some_0 >= s.block_number
            &&& s1.alive_borrow_ids == s.alive_borrow_ids.push(id)
            &&& s1.borrow_ids_of(who) == s.borrow_ids_of(who).push(id)
            &&& s1.ga.free(tp.collateral, who) == s.ga.free(tp.collateral, who) - c
            &&& s1.ga.reserved(tp.collateral, who) == s.ga.reserved(tp.collateral, who) + c
            &&& locked_collateral(s1, b) == Some(c)
        }),
{
    let s1 = create_borrow_spec(s, who, c, tp, o).0;
    let id = s.next_borrow_id;
    let b = s1.borrows[id];
    let idf = lock_identifier_of(tp.collateral);
    let old_locks = s.ga.locks_of(idf, who);
    let locks = s1.ga.locks_of(idf, who);
    let k = old_locks.len() as int;
    assert(locks[k].id == b.lock_id);
    assert forall|j: int| 0 <= j < k implies locks[j].id != b.lock_id by {
        assert(locks[j] == old_locks[j]);
        if s.ga.locks.contains_key((idf, who)) {
            assert(s.ga.locks[(idf, who)][j].id < s.ga.next_lock_id);
        }
    }
    assert(is_first_with_id(locks, b.lock_id, k));
    lemma_first_with_id(locks, b.lock_id, k);
}

/// A lending that goes through stores, under the next loan id, a loan of the lender to the
/// borrower on the borrow: it is well, lends the borrow's amount of the borrow asset at the
/// borrow's rate against the collateral locked for the borrow, and is due `days` times the
/// borrow's terms blocks after the block it is made in, so after that block wherever
/// that span is not empty. The borrower receives the amount from the lender, and the
/// collateral leaves the borrower's reserve for the money pool, where the accounts and
/// the two assets are distinct and the reserve covers the collateral.
pub proof fn law_lend_makes_the_loan(s: LsState, loaner: AccountId, borrow_id: BorrowId)
    requires
        create_loan_safe(s, loaner, borrow_id),
        create_loan_spec(s, loaner, borrow_id).1 is Ok,
    ensures
        ({
            let s1 = create_loan_spec(s, loaner, borrow_id).0;
            let b = s.borrow(borrow_id);
            let n = s.next_loan_id;
            let l = s1.loans[n];
            let cb = locked_collateral(s, b)->Some_0;
            &&& s1.loans.contains_key(n)
            &&& s1.next_loan_id == n + 1
            &&& locked_collateral(s, b) is Some
            &&& l.id == n
            &&& l.borrow_id == borrow_id
            &&& l.borrower_id == b.who
            &&& l.loaner_id == loaner
            &&& l.status == LoanHealth::Well
            &&& l.loan_asset_id == b.borrow_asset_id
            &&& l.loan_balance == b.borrow_balance
            &&& l.collateral_asset_id == b.collateral_asset_id
            &&& l.collateral_balance == cb
            &&& l.interest_rate == b.interest_rate
            &&& l.due == s.block_number + s.days * b.terms
            &&& s.days * b.terms > 0 ==> l.due > s.block_number
            &&& loaner != b.who && loaner != s.money_pool && b.who != s.money_pool
                && b.borrow_asset_id != b.collateral_asset_id
                && s.ga.reserved(b.collateral_asset_id, b.who) >= cb ==> {
                &&& s1.ga.free(b.borrow_asset_id, b.who) == s.ga.free(b.borrow_asset_id, b.who) + b.borrow_balance
                &&& s1.ga.free(b.borrow_asset_id, loaner) == s.ga.free(b.borrow_asset_id, loaner) - b.borrow_balance
                &&& s1.ga.reserved(b.collateral_asset_id, b.who) == s.ga.reserved(b.collateral_asset_id, b.who) - cb
                &&& s1.ga.free(b.collateral_asset_id, b.who) == s.ga.free(b.collateral_asset_id, b.who)
                &&& s1.ga.free(b.collateral_asset_id, s.money_pool) == s.ga.free(b.collateral_asset_id, s.money_pool) + cb
            }
        }),
{
}

/// Adding collateral to a borrow that goes through raises the borrow's collateral by the
/// amount, and, where the borrow is lent, its loan's collateral by the same amount, so that
/// a loan that held as much collateral as its borrow still does; an unlent borrow leaves
/// the loans alone. The amount moves from the caller to the money pool.
pub proof fn law_added_collateral_reaches_the_loan(s: LsState, who: AccountId, borrow_id: BorrowId, amount: Balance)
    requires
        add_collateral_safe(s, who, borrow_id, amount),
        add_collateral_spec(s, who, borrow_id, amount).1 is Ok,
    ensures
        ({
            let s1 = add_collateral_spec(s, who, borrow_id, amount).0;
            let b = s.borrows[borrow_id];
            &&& s1.borrows[borrow_id].collateral_balance == b.collateral_balance + amount
            &&& match b.loan_id {
                None => s1.loans == s.loans,
                Some(lid) => s.loans.contains_key(lid) ==> {
                    &&& s1.loans[lid].collateral_balance == s.loans[lid].collateral_balance + amount
                    &&& s.loans[lid].collateral_balance == b.collateral_balance
                        ==> s1.loans[lid].collateral_balance == s1.borrows[borrow_id].collateral_balance
                },
            }
            &&& who != s.money_pool ==> {
                &&& s1.ga.free(b.collateral_asset_id, who) == s.ga.free(b.collateral_asset_id, who) - amount
                &&& s1.ga.free(b.collateral_asset_id, s.money_pool) == s.ga.free(b.collateral_asset_id, s.money_pool) + amount
            }
        }),
{
}

/// A loan liquidated by handing over its collateral, where the liquidation goes through:
/// the whole collateral leaves the money pool. Where the debt (the loan with the interest
/// of its borrow) is at least the collateral's value in the borrowed asset, the lender
/// gets 95% of it, rounded down, and the liquidator the rest, the platform nothing; where
/// the debt is below that value, the lender gets 90%, rounded down, and the liquidator
/// and the platform share the rest, the platform taking the odd unit. The loan and its
/// borrow end liquidated, and the borrow is no longer alive. The pool, the lender, the
/// liquidator and the platform are taken to be distinct accounts.
pub proof fn law_liquidation_pays_out_the_collateral(s: LsState, liquidator: AccountId, loan_id: LoanId)
    requires
        s.loans_linked(),
        s.loans.contains_key(loan_id),
        s.loans[loan_id].liquidation_type == LiquidationType::JustCollateral,
        liquidate_loan_safe(s, liquidator, loan_id),
        liquidate_loan_spec(s, liquidator, loan_id).1 is Ok,
        s.money_pool != s.loans[loan_id].loaner_id,
        s.money_pool != liquidator,
        s.money_pool != s.platform,
        s.loans[loan_id].loaner_id != liquidator,
        s.loans[loan_id].loaner_id != s.platform,
        liquidator != s.platform,
    ensures
        ({
            let s1 = liquidate_loan_spec(s, liquidator, loan_id).0;
            let l = s.loans[loan_id];
            let a = l.collateral_asset_id;
            let cb = l.collateral_balance;
            let p = s.prices(l.loan_asset_id, a)->Some_0;
            let b = s.borrows[l.borrow_id];
            let debt = l.loan_balance + b.interest_rate * b.terms * b.borrow_balance / 100000000;
            let value = p.collateral_asset_price * cb / (p.borrow_asset_price as int);
            let g = s.ga;
            let g1 = s1.ga;
            &&& s.prices(l.loan_asset_id, a) is Some
            &&& g1.free(a, s.money_pool) == g.free(a, s.money_pool) - cb
            &&& debt >= value ==> {
                &&& g1.free(a, l.loaner_id) == g.free(a, l.loaner_id) + cb * 95 / 100
                &&& g1.free(a, liquidator) == g.free(a, liquidator) + (cb - cb * 95 / 100)
                &&& g1.free(a, s.platform) == g.free(a, s.platform)
            }
            &&& debt < value ==> {
                &&& g1.free(a, l.loaner_id) == g.free(a, l.loaner_id) + cb * 9 / 10
                &&& g1.free(a, liquidator) == g.free(a, liquidator) + (cb - cb * 9 / 10) / 2
                &&& g1.free(a, s.platform) == g.free(a, s.platform) + (cb - cb * 9 / 10 - (cb - cb * 9 / 10) / 2)
            }
            &&& s1.loans[loan_id].status == LoanHealth::Liquidated
            &&& s1.borrows[l.borrow_id].status == BorrowStatus::Liquidated
            &&& !s1.alive_borrow_ids.contains(l.borrow_id)
        }),
{
    let l = s.loans[loan_id];
    let cb = l.collateral_balance;
    assert(s.borrow(l.borrow_id) == s.borrows[l.borrow_id]);
    lemma_without(s.alive_borrow_ids, l.borrow_id);
}

/// What the loan check decides for loan `id` at block `bn`: below the liquidation ratio it
/// is to be liquidated; at or above it and past its due block it is overdue.
spec fn check_outcome(s: LsState, id: LoanId, bn: BlockNumber, want: LoanHealth) -> bool {
    let l = s.loan(id);
    &&& s.prices(l.loan_asset_id, l.collateral_asset_id) is Some
    &&& {
        let p = s.prices(l.loan_asset_id, l.collateral_asset_id)->Some_0;
        ||| ltv_of(p, l.loan_balance, l.collateral_balance) < s.liquidate_ltv && want == LoanHealth::ToBeLiquidated
        ||| ltv_of(p, l.loan_balance, l.collateral_balance) >= s.liquidate_ltv && bn > l.due && want == LoanHealth::Overdue
    }
}

proof fn lemma_outcome_same(a: LsState, b: LsState, id: LoanId, bn: BlockNumber, want: LoanHealth)
    requires
        same_for_checks(a, b),
        check_outcome(b, id, bn, want),
    ensures
        check_outcome(a, id, bn, want),
{
    assert(a.loan(id).loan_balance == b.loan(id).loan_balance);
}

proof fn lemma_check_loans_same(s: LsState, ids: Seq<LoanId>, bn: BlockNumber)
    ensures
        same_for_checks(check_loans(s, ids, bn), s),
    decreases ids.len(),
{
    if ids.len() == 0 {
        lemma_same_for_checks_refl(s);
    } else {
        lemma_check_loans_same(s, ids.drop_last(), bn);
        let t = check_loans(s, ids.drop_last(), bn);
        lemma_check_loan_same(t, ids.last(), bn);
        lemma_same_for_checks_trans(check_loan(t, ids.last(), bn), t, s);
    }
}

proof fn lemma_check_lenders_same(s: LsState, lenders: Seq<AccountId>, bn: BlockNumber)
    ensures
        same_for_checks(check_lenders(s, lenders, bn), s),
    decreases lenders.len(),
{
    if lenders.len() == 0 {
        lemma_same_for_checks_refl(s);
    } else {
        lemma_check_lenders_same(s, lenders.drop_last(), bn);
        let t = check_lenders(s, lenders.drop_last(), bn);
        lemma_check_loans_same(t, t.alive_loan_ids_of(lenders.last()), bn);
        lemma_same_for_checks_trans(check_lenders(s, lenders, bn), t, s);
    }
}

proof fn lemma_check_loans_outcome(s: LsState, ids: Seq<LoanId>, bn: BlockNumber, id: LoanId, want: LoanHealth)
    requires
        check_outcome(s, id, bn, want),
        ids.contains(id) || s.loan(id).status == want,
    ensures
        check_loans(s, ids, bn).loan(id).status == want,
    decreases ids.len(),
{
    if ids.len() > 0 {
        let t0 = ids.drop_last();
        let t = check_loans(s, t0, bn);
        lemma_check_loans_same(s, t0, bn);
        lemma_outcome_same(t, s, id, bn, want);
        if ids.last() != id {
            if ids.contains(id) {
                let k = choose|k: int| 0 <= k < ids.len() && ids[k] == id;
                assert(t0[k] == id);
            }
            lemma_check_loans_outcome(s, t0, bn, id, want);
        }
    }
}

proof fn lemma_check_lenders_outcome(s: LsState, lenders: Seq<AccountId>, bn: BlockNumber, lender: AccountId, id: LoanId, want: LoanHealth)
    requires
        check_outcome(s, id, bn, want),
        lenders.contains(lender),
        s.alive_loan_ids_of(lender).contains(id),
    ensures
        check_lenders(s, lenders, bn).loan(id).status == want,
    decreases lenders.len(),
{
    let t0 = lenders.drop_last();
    let t = check_lenders(s, t0, bn);
    lemma_check_lenders_same(s, t0, bn);
    lemma_outcome_same(t, s, id, bn, want);
    if lenders.last() == lender {
        lemma_check_loans_outcome(t, t.alive_loan_ids_of(lender), bn, id, want);
    } else {
        let k = choose|k: int| 0 <= k < lenders.len() && lenders[k] == lender;
        assert(t0[k] == lender);
        lemma_check_lenders_outcome(s, t0, bn, lender, id, want);
        lemma_check_loans_outcome(t, t.alive_loan_ids_of(lenders.last()), bn, id, want);
    }
}

/// At the end of a block whose successor is a multiple of five, every running loan of a
/// listed lender whose prices are known is judged: one below the liquidation ratio ends
/// to be liquidated, and one at or above it whose due block is past ends overdue.
pub proof fn law_block_end_judges_running_loans(s: LsState, bn: BlockNumber, lender: AccountId, loan_id: LoanId)
    requires
        (bn + 1) % 5 == 0,
        s.account_ids_with_loans.contains(lender),
        s.alive_loan_ids_of(lender).contains(loan_id),
        s.prices(s.loan(loan_id).loan_asset_id, s.loan(loan_id).collateral_asset_id) is Some,
    ensures
        ({
            let l = s.loan(loan_id);
            let p = s.prices(l.loan_asset_id, l.collateral_asset_id)->Some_0;
            let t = on_finalize_spec(s, bn);
            &&& ltv_of(p, l.loan_balance, l.collateral_balance) < s.liquidate_ltv
                ==> t.loan(loan_id).status == LoanHealth::ToBeLiquidated
            &&& ltv_of(p, l.loan_balance, l.collateral_balance) >= s.liquidate_ltv && bn > l.due
                ==> t.loan(loan_id).status == LoanHealth::Overdue
        }),
{
    let l = s.loan(loan_id);
    let p = s.prices(l.loan_asset_id, l.collateral_asset_id)->Some_0;
    if ltv_of(p, l.loan_balance, l.collateral_balance) < s.liquidate_ltv {
        lemma_check_lenders_outcome(s, s.account_ids_with_loans, bn, lender, loan_id, LoanHealth::ToBeLiquidated);
    } else if bn > l.due {
        lemma_check_lenders_outcome(s, s.account_ids_with_loans, bn, lender, loan_id, LoanHealth::Overdue);
    }
}

/// A repayment that goes through: the borrower pays the lender the borrowed amount with
/// its interest (rate times terms times amount, over 10^8, rounded down) in the borrow
/// asset and gets the borrow's collateral back from the money pool, where the borrower,
/// the lender and the pool are distinct accounts and the two assets differ.
pub proof fn law_repay_pays_the_debt(s: LsState, who: AccountId, borrow_id: BorrowId)
    requires
        repay_loan_safe(s, who, borrow_id),
        repay_loan_spec(s, who, borrow_id).1 is Ok,
    ensures
        ({
            let s1 = repay_loan_spec(s, who, borrow_id).0;
            let b = s.borrows[borrow_id];
            let l = s.loans[b.loan_id->Some_0];
            let debt = b.borrow_balance + b.interest_rate * b.terms * b.borrow_balance / 100000000;
            &&& b.who == who
            &&& who != l.loaner_id && who != s.money_pool && l.loaner_id != s.money_pool
                && b.borrow_asset_id != b.collateral_asset_id ==> {
                &&& s1.ga.free(b.borrow_asset_id, who) == s.ga.free(b.borrow_asset_id, who) - debt
                &&& s1.ga.free(b.borrow_asset_id, l.loaner_id) == s.ga.free(b.borrow_asset_id, l.loaner_id) + debt
                &&& s1.ga.free(b.collateral_asset_id, who) == s.ga.free(b.collateral_asset_id, who) + b.collateral_balance
                &&& s1.ga.free(b.collateral_asset_id, s.money_pool) == s.ga.free(b.collateral_asset_id, s.money_pool) - b.collateral_balance
            }
        }),
{
}

/// A repayment asked for a well loan below the liquidation ratio is refused with
/// `ShouldBeLiquidated`: the loan is marked to be liquidated and nothing else changes.
pub proof fn law_repay_below_ratio_marks_for_liquidation(s: LsState, who: AccountId, borrow_id: BorrowId)
    requires
        s.loans_linked(),
        s.borrows.contains_key(borrow_id),
        s.borrows[borrow_id].who == who,
        s.borrows[borrow_id].loan_id is Some,
        s.loans.contains_key(s.borrows[borrow_id].loan_id->Some_0),
        s.loans[s.borrows[borrow_id].loan_id->Some_0].status == LoanHealth::Well,
        s.prices(s.borrows[borrow_id].borrow_asset_id, s.borrows[borrow_id].collateral_asset_id) is Some,
        ({
            let l = s.loans[s.borrows[borrow_id].loan_id->Some_0];
            let p = s.prices(s.borrows[borrow_id].borrow_asset_id, s.borrows[borrow_id].collateral_asset_id)->Some_0;
            ltv_of(p, l.loan_balance, l.collateral_balance) < s.liquidate_ltv
        }),
    ensures
        ({
            let (s1, r) = repay_loan_spec(s, who, borrow_id);
            let lid = s.borrows[borrow_id].loan_id->Some_0;
            let l = s.loans[lid];
            &&& r == Err::<(), DispatchError>(DispatchError::LsBiding(Error::ShouldBeLiquidated))
            &&& s1.loans == s.loans.insert(lid, Loan { status: LoanHealth::ToBeLiquidated, ..l })
            &&& s1.ga == s.ga
            &&& s1.borrows == s.borrows
        }),
{
    let lid = s.borrows[borrow_id].loan_id->Some_0;
    assert(s.loans[lid].id == lid);
}

/// The borrow has a `dead_after` block and `bn` has reached it.
spec fn past_warranty(b: Borrow, bn: BlockNumber) -> bool {
    b.dead_after is Some && b.dead_after->Some_0 <= bn
}

proof fn lemma_check_borrows_effect(s: LsState, ids: Seq<BorrowId>, bn: BlockNumber)
    ensures
        forall|x: BorrowId| #[trigger] check_borrows(s, ids, bn).1.contains(x)
            <==> (ids.contains(x) && !past_warranty(s.borrow(x), bn)),
        forall|x: BorrowId| #[trigger] check_borrows(s, ids, bn).0.borrow(x)
            == if ids.contains(x) && past_warranty(s.borrow(x), bn) {
                Borrow { status: BorrowStatus::Dead, ..s.borrow(x) }
            } else {
                s.borrow(x)
            },
        check_borrows(s, ids, bn).0.alive_borrow_ids == s.alive_borrow_ids,
    decreases ids.len(),
{
    if ids.len() > 0 {
        let t = ids.drop_last();
        lemma_check_borrows_effect(s, t, bn);
        let (s1, kept) = check_borrows(s, t, bn);
        let id = ids.last();
        assert(ids =~= t.push(id));
        assert forall|x: BorrowId| #[trigger] check_borrows(s, ids, bn).1.contains(x)
            <==> (ids.contains(x) && !past_warranty(s.borrow(x), bn)) by {
            lemma_contains_push(kept, id, x);
            lemma_contains_push(t, id, x);
            assert(s1.borrow(id).dead_after == s.borrow(id).dead_after);
        }
        assert forall|x: BorrowId| #[trigger] check_borrows(s, ids, bn).0.borrow(x)
            == if ids.contains(x) && past_warranty(s.borrow(x), bn) {
                Borrow { status: BorrowStatus::Dead, ..s.borrow(x) }
            } else {
                s.borrow(x)
            } by {
            lemma_contains_push(t, id, x);
            assert(s1.borrow(id).dead_after == s.borrow(id).dead_after);
            assert(s1.borrow(x) == (if t.contains(x) && past_warranty(s.borrow(x), bn) {
                Borrow { status: BorrowStatus::Dead, ..s.borrow(x) }
            } else {
                s.borrow(x)
            }));
        }
    }
}

/// At the end of an even block whose successor is no multiple of five, a borrow that has
/// reached its `dead_after` block leaves the alive list and is marked dead, and every
/// other alive borrow stays alive and untouched.
pub proof fn law_block_end_retires_dead_borrows(s: LsState, bn: BlockNumber, id: BorrowId)
    requires
        bn % 2 == 0,
        (bn + 1) % 5 != 0,
    ensures
        ({
            let t = on_finalize_spec(s, bn);
            let b = s.borrow(id);
            let dead = b.dead_after is Some && b.dead_after->Some_0 <= bn;
            &&& t.alive_borrow_ids.contains(id) <==> (s.alive_borrow_ids.contains(id) && !dead)
            &&& s.alive_borrow_ids.contains(id) && dead ==> t.borrow(id) == Borrow { status: BorrowStatus::Dead, ..b }
            &&& !(s.alive_borrow_ids.contains(id) && dead) ==> t.borrow(id) == b
        }),
{
    let s0 = s.with_alive(Seq::empty());
    lemma_check_borrows_effect(s0, s.alive_borrow_ids, bn);
    assert(s0.borrow(id) == s.borrow(id));
    let r = check_borrows(s0, s.alive_borrow_ids, bn);
    assert(r.1.contains(id) <==> (s.alive_borrow_ids.contains(id) && !past_warranty(s.borrow(id), bn)));
    assert(r.0.borrow(id) == r.0.with_alive(r.1).borrow(id));
}

/// When a listing is refused and when it is owed success: terms below the minimum,
/// then a rate below the minimum, then a pair the market does not trade, then a lister
/// whose last borrow is still alive, then missing prices, then a ratio not above the
/// safe one are refused in that order with nothing changed; past these checks a lister
/// who holds the collateral free gets the borrow listed, and one who does not is refused
/// for want of balance.
pub proof fn law_listing_outcome(s: LsState, who: AccountId, c: Balance, tp: TradingPair, o: BorrowOptions)
    requires
        create_borrow_safe(s, who, c, tp, o),
    ensures
        ({
            let (s1, r) = create_borrow_spec(s, who, c, tp, o);
            let checks = o.terms >= s.min_borrow_terms && o.interest_rate >= s.min_borrow_interest_rate
                && s.trading_pairs.contains(tp) && !s.has_alive_borrow(who) && s.prices(tp.borrow, tp.collateral) is Some;
            let ratio = ltv_of(s.prices(tp.borrow, tp.collateral)->Some_0, o.amount, c);
            &&& o.terms < s.min_borrow_terms
                ==> s1 == s && r == Err::<(), DispatchError>(DispatchError::LsBiding(Error::MinBorrowTerms))
            &&& o.terms >= s.min_borrow_terms && o.interest_rate < s.min_borrow_interest_rate
                ==> s1 == s && r == Err::<(), DispatchError>(DispatchError::LsBiding(Error::MinBorrowInterestRate))
            &&& o.terms >= s.min_borrow_terms && o.interest_rate >= s.min_borrow_interest_rate && !s.trading_pairs.contains(tp)
                ==> s1 == s && r == Err::<(), DispatchError>(DispatchError::LsBiding(Error::TradingPairNotAllowed))
            &&& o.terms >= s.min_borrow_terms && o.interest_rate >= s.min_borrow_interest_rate && s.trading_pairs.contains(tp)
                && s.has_alive_borrow(who)
                ==> s1 == s && r == Err::<(), DispatchError>(DispatchError::LsBiding(Error::MultipleAliveBorrows))
            &&& o.terms >= s.min_borrow_terms && o.interest_rate >= s.min_borrow_interest_rate && s.trading_pairs.contains(tp)
                && !s.has_alive_borrow(who) && s.prices(tp.borrow, tp.collateral) is None
                ==> s1 == s && r == Err::<(), DispatchError>(DispatchError::LsBiding(Error::TradingPairPriceMissing))
            &&& checks && ratio <= s.safe_ltv
                ==> s1 == s && r == Err::<(), DispatchError>(DispatchError::LsBiding(Error::InitialCollateralRateFail))
            &&& checks && ratio > s.safe_ltv && s.ga.free(tp.collateral, who) >= c ==> r is Ok
            &&& checks && ratio > s.safe_ltv && s.ga.free(tp.collateral, who) < c
                ==> r == Err::<(), DispatchError>(DispatchError::GenericAsset(crate::generic_asset::Error::InsufficientBalance))
                    && s1.borrows == s.borrows && s1.ga == s.ga
        }),
{
}

/// When lending is owed success: on an alive borrow, not past its `dead_after` block and
/// in status `Alive`, whose collateral is still locked, with known prices and a ratio above
/// the safe one, a lender who holds the borrowed amount free gets the loan made, where the
/// lender is not the borrower, the two assets differ and the borrower's reserve covers the
/// collateral. A lender short of the amount is refused with `NotEnoughBalance`, and a
/// ratio not above the safe one with `InitialCollateralRateFail`, with nothing changed.
pub proof fn law_lending_outcome(s: LsState, loaner: AccountId, borrow_id: BorrowId)
    requires
        create_loan_safe(s, loaner, borrow_id),
        s.alive_borrow_ids.contains(borrow_id),
        !(s.borrow(borrow_id).dead_after is Some && s.borrow(borrow_id).dead_after->Some_0 <= s.block_number),
        s.borrow(borrow_id).status == BorrowStatus::Alive,
        locked_collateral(s, s.borrow(borrow_id)) is Some,
        s.prices(s.borrow(borrow_id).borrow_asset_id, s.borrow(borrow_id).collateral_asset_id) is Some,
    ensures
        ({
            let (s1, r) = create_loan_spec(s, loaner, borrow_id);
            let b = s.borrow(borrow_id);
            let cb = locked_collateral(s, b)->Some_0;
            let ratio = ltv_of(s.prices(b.borrow_asset_id, b.collateral_asset_id)->Some_0, b.borrow_balance, cb);
            &&& s.ga.free(b.borrow_asset_id, loaner) < b.borrow_balance
                ==> s1 == s && r == Err::<(), DispatchError>(DispatchError::LsBiding(Error::NotEnoughBalance))
            &&& s.ga.free(b.borrow_asset_id, loaner) >= b.borrow_balance && ratio <= s.safe_ltv
                ==> s1 == s && r == Err::<(), DispatchError>(DispatchError::LsBiding(Error::InitialCollateralRateFail))
            &&& s.ga.free(b.borrow_asset_id, loaner) >= b.borrow_balance && ratio > s.safe_ltv
                && loaner != b.who && b.borrow_asset_id != b.collateral_asset_id
                && s.ga.reserved(b.collateral_asset_id, b.who) >= cb
                ==> r is Ok
        }),
{
}

/// When liquidation is refused: a loan that is neither well, overdue nor marked to be
/// liquidated is refused with `ShouldNotBeLiquidated`, and one that is well or marked
/// but not overdue, whose prices are known and whose ratio is not below the liquidation
/// one, with `LTVNotMeet`; nothing changes.
pub proof fn law_liquidation_refusals(s: LsState, liquidator: AccountId, loan_id: LoanId)
    ensures
        ({
            let (s1, r) = liquidate_loan_spec(s, liquidator, loan_id);
            let l = s.loan(loan_id);
            &&& !(l.status == LoanHealth::Overdue || l.status == LoanHealth::Well || l.status == LoanHealth::ToBeLiquidated)
                ==> s1 == s && r == Err::<(), DispatchError>(DispatchError::LsBiding(Error::ShouldNotBeLiquidated))
            &&& (l.status == LoanHealth::Well || l.status == LoanHealth::ToBeLiquidated)
                && s.prices(l.loan_asset_id, l.collateral_asset_id) is Some
                && ltv_of(s.prices(l.loan_asset_id, l.collateral_asset_id)->Some_0, l.loan_balance, l.collateral_balance)
                    >= s.liquidate_ltv
                ==> s1 == s && r == Err::<(), DispatchError>(DispatchError::LsBiding(Error::LTVNotMeet))
        }),
{
}

/// When liquidation by handing over collateral is owed success: a loan that is well,
/// overdue or marked to be liquidated, whose prices are known, and that is overdue or below
/// the liquidation ratio, is liquidated where the money pool holds its collateral free.
pub proof fn law_liquidation_owed(s: LsState, liquidator: AccountId, loan_id: LoanId)
    requires
        liquidate_loan_safe(s, liquidator, loan_id),
        ({
            let l = s.loan(loan_id);
            &&& l.status == LoanHealth::Overdue || l.status == LoanHealth::Well || l.status == LoanHealth::ToBeLiquidated
            &&& l.liquidation_type == LiquidationType::JustCollateral
            &&& s.prices(l.loan_asset_id, l.collateral_asset_id) is Some
            &&& l.status == LoanHealth::Overdue || ltv_of(s.prices(l.loan_asset_id, l.collateral_asset_id)->Some_0,
                l.loan_balance, l.collateral_balance) < s.liquidate_ltv
            &&& s.ga.free(l.collateral_asset_id, s.money_pool) >= l.collateral_balance
        }),
    ensures
        liquidate_loan_spec(s, liquidator, loan_id).1 is Ok,
{
}

/// Lending on an alive borrow that has reached its `dead_after` block is refused with
/// `BorrowNotAlive`, and the borrow is marked dead and leaves the alive list; lending on
/// a borrow that is not alive is refused with nothing changed.
pub proof fn law_lending_on_expired_borrow(s: LsState, loaner: AccountId, borrow_id: BorrowId)
    ensures
        ({
            let (s1, r) = create_loan_spec(s, loaner, borrow_id);
            let b = s.borrow(borrow_id);
            &&& !s.alive_borrow_ids.contains(borrow_id)
                ==> s1 == s && r == Err::<(), DispatchError>(DispatchError::LsBiding(Error::BorrowNotAlive))
            &&& s.alive_borrow_ids.contains(borrow_id) && b.dead_after is Some && b.dead_after->Some_0 <= s.block_number ==> {
                &&& r == Err::<(), DispatchError>(DispatchError::LsBiding(Error::BorrowNotAlive))
                &&& s1.borrow(borrow_id) == Borrow { status: BorrowStatus::Dead, ..b }
                &&& !s1.alive_borrow_ids.contains(borrow_id)
                &&& s1.ga == s.ga
                &&& s1.loans == s.loans
            }
        }),
{
    lemma_without(s.alive_borrow_ids, borrow_id);
}

/// Unlisting is refused for an unknown borrow with `UnknownBorrowId`, for one the caller
/// did not list with `NotOwnerOfBorrow`, and for one no longer alive with
/// `BorrowNotAlive`, in that order, with nothing changed; an alive borrow of the caller is
/// unlisted, its collateral leaving reserve.
pub proof fn law_unlisting_outcome(s: LsState, who: AccountId, borrow_id: BorrowId)
    requires
        remove_borrow_safe(s, who, borrow_id),
    ensures
        ({
            let (s1, r) = remove_borrow_spec(s, who, borrow_id);
            &&& !s.borrows.contains_key(borrow_id)
                ==> s1 == s && r == Err::<(), DispatchError>(DispatchError::LsBiding(Error::UnknownBorrowId))
            &&& s.borrows.contains_key(borrow_id) && !s.borrow_ids_of(who).contains(borrow_id)
                ==> s1 == s && r == Err::<(), DispatchError>(DispatchError::LsBiding(Error::NotOwnerOfBorrow))
            &&& s.borrows.contains_key(borrow_id) && s.borrow_ids_of(who).contains(borrow_id)
                && !s.alive_borrow_ids.contains(borrow_id)
                ==> s1 == s && r == Err::<(), DispatchError>(DispatchError::LsBiding(Error::BorrowNotAlive))
            &&& s.borrows.contains_key(borrow_id) && s.borrow_ids_of(who).contains(borrow_id)
                && s.alive_borrow_ids.contains(borrow_id) ==> {
                let b = s.borrows[borrow_id];
                let moved = if s.ga.reserved(b.collateral_asset_id, who) < b.collateral_balance {
                    s.ga.reserved(b.collateral_asset_id, who)
                } else {
                    b.collateral_balance
                };
                &&& r is Ok
                &&& !s1.alive_borrow_ids.contains(borrow_id)
                &&& s1.borrows == s.borrows
                &&& s1.ga.free(b.collateral_asset_id, who) == s.ga.free(b.collateral_asset_id, who) + moved
                &&& s1.ga.reserved(b.collateral_asset_id, who) == s.ga.reserved(b.collateral_asset_id, who) - moved
            }
        }),
{
    lemma_without(s.alive_borrow_ids, borrow_id);
}

} // verus!
