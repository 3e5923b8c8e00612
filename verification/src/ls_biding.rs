//! The peer-to-peer lending market. Borrowers list a borrow, locking collateral;
//! lenders take a listed borrow, which turns it into a loan; borrowers repay,
//! or anyone liquidates a loan whose collateral has fallen in value or whose
//! term has run out.
use vstd::prelude::*;
use crate::dispatch::{
    ensure_root, ensure_signed, AccountId, AssetId, Balance, BlockNumber, DispatchError, Origin,
};
use crate::generic_asset::{
    first_with_id, has_lock_id, reserve_fits, reserve_spec, transfer_spec,
    unreserve_fits, unreserve_spec, GenericAssetState,
};
use crate::hashing::lock_identifier_of;
use crate::new_oracle::OracleState;
use crate::seqs::{contains_u128, contains_u64, copy_u128s, copy_u64s, without, without_u128, without_u64};
use crate::storage::StorageMap;

verus! {

pub type LoanId = u128;

pub type BorrowId = u128;

/// Interest rates are given in parts of this number per term.
pub const INTEREST_RATE_PRECISION: u64 = 100000000;

/// Loan-to-value ratios are given in parts of this number.
pub const LTV_SCALE: u32 = 10000;

/// The health of a loan.
#[derive(Clone, Copy, Debug, PartialEq, Eq, Structural)]
pub enum LoanHealth {
    Well,
    ToBeLiquidated,
    Overdue,
    Liquidated,
    Dead,
    Completed,
}

/// How a loan is liquidated.
#[derive(Clone, Copy, Debug, PartialEq, Eq, Structural)]
pub enum LiquidationType {
    JustCollateral,
    SellCollateral,
}

/// The status of a borrow.
#[derive(Clone, Copy, Debug, PartialEq, Eq, Structural)]
pub enum BorrowStatus {
    Alive,
    Taken,
    Completed,
    Dead,
    Liquidated,
}

/// A loan: a borrow that a lender has taken.
#[derive(Clone, Copy, Debug, PartialEq, Eq, Structural)]
pub struct Loan {
    pub id: LoanId,
    pub borrow_id: BorrowId,
    pub borrower_id: AccountId,
    pub loaner_id: AccountId,
    pub due: BlockNumber,
    pub collateral_asset_id: AssetId,
    pub collateral_balance: Balance,
    pub loan_balance: Balance,
    pub loan_asset_id: AssetId,
    pub status: LoanHealth,
    pub interest_rate: u64,
    pub liquidation_type: LiquidationType,
}

/// A borrow that a borrower has listed.
#[derive(Clone, Copy, Debug, PartialEq, Eq, Structural)]
pub struct Borrow {
    pub id: BorrowId,
    pub lock_id: u128,
    pub who: AccountId,
    pub status: BorrowStatus,
    pub borrow_asset_id: AssetId,
    pub collateral_asset_id: AssetId,
    pub borrow_balance: Balance,
    pub collateral_balance: Balance,
    pub terms: u64,
    pub interest_rate: u64,
    pub dead_after: Option<BlockNumber>,
    pub loan_id: Option<LoanId>,
}

/// A pair of assets the market accepts: one pledged as collateral, one borrowed.
#[derive(Clone, Copy, Debug, PartialEq, Eq, Structural)]
pub struct TradingPair {
    pub collateral: AssetId,
    pub borrow: AssetId,
}

/// The prices of the two assets of a pair.
#[derive(Clone, Copy, Debug, PartialEq, Eq, Structural)]
pub struct TradingPairPrices {
    pub borrow_asset_price: u64,
    pub collateral_asset_price: u64,
}

/// What a borrower asks for.
#[derive(Clone, Copy, Debug, PartialEq, Eq, Structural)]
pub struct BorrowOptions {
    pub amount: Balance,
    pub terms: u64,
    pub interest_rate: u64,
    pub warranty: Option<BlockNumber>,
}

/// Errors of the market.
#[derive(Clone, Copy, Debug, PartialEq, Eq, Structural)]
pub enum Error {
    Paused,
    MinBorrowTerms,
    MinBorrowInterestRate,
    CanNotReserve,
    MultipleAliveBorrows,
    BorrowNotAlive,
    TradingPairNotAllowed,
    NotOwnerOfBorrow,
    UnknownBorrowId,
    UnknownLoanId,
    NoLockedBalance,
    InitialCollateralRateFail,
    NotEnoughBalance,
    TradingPairPriceMissing,
    BorrowNotLoaned,
    LTVNotMeet,
    ShouldNotBeLiquidated,
    ShouldBeLiquidated,
    LoanNotWell,
}

/// Events of the market.
#[derive(Clone, Copy, Debug, PartialEq, Eq, Structural)]
pub enum RawEvent {
    BorrowListed(Borrow),
    BorrowUnlisted(BorrowId),
    LoanCreated(Loan),
    LoanLiquidated(LoanId),
    LoanRepaid(LoanId),
    CollateralAdded(BorrowId),
    BorrowDied(BorrowId),
    LoanOverdue(LoanId),
    LoanToBeLiquidated(LoanId),
}

impl View for Loan {
    type V = Loan;

    open spec fn view(&self) -> Loan {
        *self
    }
}

impl View for Borrow {
    type V = Borrow;

    open spec fn view(&self) -> Borrow {
        *self
    }
}

/// The loan storage hands out where no loan is stored.
pub open spec fn default_loan() -> Loan {
    Loan {
        id: 0,
        borrow_id: 0,
        borrower_id: 0,
        loaner_id: 0,
        due: 0,
        collateral_asset_id: 0,
        collateral_balance: 0,
        loan_balance: 0,
        loan_asset_id: 0,
        status: LoanHealth::Well,
        interest_rate: 0,
        liquidation_type: LiquidationType::JustCollateral,
    }
}

/// The borrow storage hands out where no borrow is stored.
pub open spec fn default_borrow() -> Borrow {
    Borrow {
        id: 0,
        lock_id: 0,
        who: 0,
        status: BorrowStatus::Alive,
        borrow_asset_id: 0,
        collateral_asset_id: 0,
        borrow_balance: 0,
        collateral_balance: 0,
        terms: 0,
        interest_rate: 0,
        dead_after: None,
        loan_id: None,
    }
}

impl Default for Loan {
    fn default() -> (l: Self)
        ensures
            l == default_loan(),
    {
        Loan {
            id: 0,
            borrow_id: 0,
            borrower_id: 0,
            loaner_id: 0,
            due: 0,
            collateral_asset_id: 0,
            collateral_balance: 0,
            loan_balance: 0,
            loan_asset_id: 0,
            status: LoanHealth::Well,
            interest_rate: 0,
            liquidation_type: LiquidationType::JustCollateral,
        }
    }
}

impl Default for Borrow {
    fn default() -> (b: Self)
        ensures
            b == default_borrow(),
    {
        Borrow {
            id: 0,
            lock_id: 0,
            who: 0,
            status: BorrowStatus::Alive,
            borrow_asset_id: 0,
            collateral_asset_id: 0,
            borrow_balance: 0,
            collateral_balance: 0,
            terms: 0,
            interest_rate: 0,
            dead_after: None,
            loan_id: None,
        }
    }
}

/// The ids stored under an account, empty where none are stored.
pub open spec fn ids_at<T>(m: Map<AccountId, Seq<T>>, x: AccountId) -> Seq<T> {
    if m.contains_key(x) {
        m[x]
    } else {
        Seq::empty()
    }
}

/// The loan-to-value ratio of a position, in parts of `LTV_SCALE`: the value of the
/// collateral over the value of the borrowed amount.
pub open spec fn ltv_of(p: TradingPairPrices, borrow_balance: Balance, collateral_balance: Balance) -> int {
    (p.collateral_asset_price * collateral_balance * LTV_SCALE) / (p.borrow_asset_price * borrow_balance)
}

/// The ratio can be computed in balance arithmetic: no overflow, no division by zero.
pub open spec fn ltv_computable(p: TradingPairPrices, borrow_balance: Balance, collateral_balance: Balance) -> bool {
    &&& p.collateral_asset_price * collateral_balance * LTV_SCALE <= Balance::MAX
    &&& 0 < p.borrow_asset_price * borrow_balance <= Balance::MAX
}

/// The interest owed on `amount` over `terms` terms at `interest_rate`.
pub open spec fn expected_interest(interest_rate: u64, terms: u64, amount: Balance) -> int {
    (interest_rate * terms * amount) / (INTEREST_RATE_PRECISION as int)
}

/// A block number plus a number of blocks, capped at the largest block number.
pub open spec fn saturating_block_add(a: BlockNumber, b: BlockNumber) -> BlockNumber {
    if a + b > BlockNumber::MAX {
        BlockNumber::MAX
    } else {
        (a + b) as BlockNumber
    }
}

/// The abstract state of the market and of the runtime around it.
pub struct LsState {
    pub paused: bool,
    pub money_pool: AccountId,
    pub platform: AccountId,
    pub trading_pairs: Seq<TradingPair>,
    pub safe_ltv: u32,
    pub liquidate_ltv: u32,
    pub min_borrow_terms: u64,
    pub min_borrow_interest_rate: u64,
    pub next_borrow_id: BorrowId,
    pub next_loan_id: LoanId,
    pub borrows: Map<BorrowId, Borrow>,
    pub borrow_ids_by_account_id: Map<AccountId, Seq<BorrowId>>,
    pub alive_borrow_ids: Seq<BorrowId>,
    pub loans: Map<LoanId, Loan>,
    pub loan_ids_by_account_id: Map<AccountId, Seq<LoanId>>,
    pub alive_loan_ids_by_account_id: Map<AccountId, Seq<LoanId>>,
    pub account_ids_with_loans: Seq<AccountId>,
    pub events: Seq<RawEvent>,
    pub days: BlockNumber,
    pub block_number: BlockNumber,
    pub ga: GenericAssetState,
    pub oracle: OracleState,
}

impl LsState {
    /// The borrow stored under `id`, the default borrow where none is.
    pub open spec fn borrow(self, id: BorrowId) -> Borrow {
        if self.borrows.contains_key(id) {
            self.borrows[id]
        } else {
            default_borrow()
        }
    }

    /// The loan stored under `id`, the default loan where none is.
    pub open spec fn loan(self, id: LoanId) -> Loan {
        if self.loans.contains_key(id) {
            self.loans[id]
        } else {
            default_loan()
        }
    }

    pub open spec fn borrow_ids_of(self, x: AccountId) -> Seq<BorrowId> {
        ids_at(self.borrow_ids_by_account_id, x)
    }

    pub open spec fn loan_ids_of(self, x: AccountId) -> Seq<LoanId> {
        ids_at(self.loan_ids_by_account_id, x)
    }

    pub open spec fn alive_loan_ids_of(self, x: AccountId) -> Seq<LoanId> {
        ids_at(self.alive_loan_ids_by_account_id, x)
    }

    /// The oracle's price of an asset: known only for a listed asset whose symbol the
    /// oracle knows, and never zero.
    pub open spec fn price_of(self, a: AssetId) -> Option<u64> {
        if !self.ga.symbols.contains_key(a) {
            None
        } else if !self.oracle.token_prices.contains_key(self.ga.symbols[a]) {
            None
        } else if self.oracle.token_prices[self.ga.symbols[a]] == 0 {
            None
        } else {
            Some(self.oracle.token_prices[self.ga.symbols[a]])
        }
    }

    /// The prices of a pair, where both are known.
    pub open spec fn prices(self, borrow_asset_id: AssetId, collateral_asset_id: AssetId) -> Option<TradingPairPrices> {
        match (self.price_of(collateral_asset_id), self.price_of(borrow_asset_id)) {
            (Some(c), Some(b)) => Some(TradingPairPrices { borrow_asset_price: b, collateral_asset_price: c }),
            _ => None,
        }
    }

    /// The last borrow `who` listed is still alive.
    pub open spec fn has_alive_borrow(self, who: AccountId) -> bool {
        let ids = self.borrow_ids_of(who);
        ids.len() > 0 && self.alive_borrow_ids.contains(ids.last())
    }

    pub open spec fn with_ga(self, g: GenericAssetState) -> Self {
        LsState { ga: g, ..self }
    }

    pub open spec fn with_borrow(self, id: BorrowId, b: Borrow) -> Self {
        LsState { borrows: self.borrows.insert(id, b), ..self }
    }

    pub open spec fn with_loan(self, id: LoanId, l: Loan) -> Self {
        LsState { loans: self.loans.insert(id, l), ..self }
    }

    pub open spec fn with_alive(self, ids: Seq<BorrowId>) -> Self {
        LsState { alive_borrow_ids: ids, ..self }
    }

    pub open spec fn emit(self, e: RawEvent) -> Self {
        LsState { events: self.events.push(e), ..self }
    }

    /// The borrow under `id` takes the status, all else kept.
    pub open spec fn borrow_marked(self, id: BorrowId, status: BorrowStatus) -> Self {
        self.with_borrow(id, Borrow { status, ..self.borrow(id) })
    }

    /// The loan under `id` takes the status, all else kept.
    pub open spec fn loan_marked(self, id: LoanId, status: LoanHealth) -> Self {
        self.with_loan(id, Loan { status, ..self.loan(id) })
    }

    /// Every alive borrow id names a stored borrow.
    pub open spec fn alive_borrows_listed(self) -> bool {
        forall|id: BorrowId| #[trigger] self.alive_borrow_ids.contains(id) ==> self.borrows.contains_key(id)
    }

    /// Loans and borrows point at each other: every loan is stored under its own id, below
    /// the next loan id, and names a stored borrow whose loan id names it back; every
    /// borrow is stored under its own id, below the next borrow id, and one that names a
    /// loan is no longer up for lending and is named back by a stored loan. Every alive
    /// borrow id and every running loan id names a stored borrow or loan.
    pub open spec fn loans_linked(self) -> bool {
        &&& self.alive_borrows_listed()
        &&& forall|x: AccountId, id: LoanId| #[trigger] self.alive_loan_ids_of(x).contains(id) ==> self.loans.contains_key(id)
        &&& forall|id: LoanId| #[trigger] self.loans.contains_key(id) ==> {
            &&& self.loans[id].id == id
            &&& id < self.next_loan_id
            &&& self.borrows.contains_key(self.loans[id].borrow_id)
            &&& self.borrows[self.loans[id].borrow_id].loan_id == Some(id)
        }
        &&& forall|bid: BorrowId| #[trigger] self.borrows.contains_key(bid) ==> {
            &&& self.borrows[bid].id == bid
            &&& bid < self.next_borrow_id
            &&& self.borrows[bid].loan_id is Some ==> {
                &&& self.loans.contains_key(self.borrows[bid].loan_id->Some_0)
                &&& self.loans[self.borrows[bid].loan_id->Some_0].borrow_id == bid
                &&& self.borrows[bid].status != BorrowStatus::Alive
            }
        }
    }
}

/// The failures a dispatched call of the market ends with.
pub open spec fn fail<T>(e: Error) -> Result<T, DispatchError> {
    Err(DispatchError::LsBiding(e))
}

/// A ledger failure as a dispatch failure.
pub open spec fn ga_result<T>(r: Result<T, crate::generic_asset::Error>) -> Result<(), DispatchError> {
    match r {
        Ok(_) => Ok(()),
        Err(e) => Err(DispatchError::GenericAsset(e)),
    }
}

/// The borrow a listing creates.
pub open spec fn listed_borrow(s: LsState, id: BorrowId, who: AccountId, collateral_balance: Balance, trading_pair: TradingPair, borrow_options: BorrowOptions) -> Borrow {
    Borrow {
        id,
        lock_id: s.ga.next_lock_id,
        who,
        status: BorrowStatus::Alive,
        borrow_asset_id: trading_pair.borrow,
        collateral_asset_id: trading_pair.collateral,
        borrow_balance: borrow_options.amount,
        collateral_balance,
        terms: borrow_options.terms,
        interest_rate: borrow_options.interest_rate,
        dead_after: match borrow_options.warranty {
            Some(w) => Some(saturating_block_add(s.block_number, w)),
            None => None,
        },
        loan_id: None,
    }
}

/// What listing a borrow does and returns: the checks in order, then a fresh borrow id is
/// taken, then the collateral is reserved (a failure there keeps the taken id), then the
/// borrow is stored, marked alive and filed under its borrower.
pub open spec fn create_borrow_spec(s: LsState, who: AccountId, collateral_balance: Balance, trading_pair: TradingPair, borrow_options: BorrowOptions) -> (LsState, Result<(), DispatchError>) {
    if borrow_options.terms < s.min_borrow_terms {
        (s, fail(Error::MinBorrowTerms))
    } else if borrow_options.interest_rate < s.min_borrow_interest_rate {
        (s, fail(Error::MinBorrowInterestRate))
    } else if !s.trading_pairs.contains(trading_pair) {
        (s, fail(Error::TradingPairNotAllowed))
    } else if s.has_alive_borrow(who) {
        (s, fail(Error::MultipleAliveBorrows))
    } else {
        match s.prices(trading_pair.borrow, trading_pair.collateral) {
            None => (s, fail(Error::TradingPairPriceMissing)),
            Some(p) => if !(ltv_of(p, borrow_options.amount, collateral_balance) > s.safe_ltv) {
                (s, fail(Error::InitialCollateralRateFail))
            } else {
                let id = s.next_borrow_id;
                let s1 = LsState { next_borrow_id: (id + 1) as BorrowId, ..s };
                let (g, r) = reserve_spec(s1.ga, trading_pair.collateral, who, collateral_balance);
                if r is Err {
                    (s1, ga_result(r))
                } else {
                    let b = listed_borrow(s1, id, who, collateral_balance, trading_pair, borrow_options);
                    (LsState {
                        ga: g,
                        borrows: s1.borrows.insert(id, b),
                        alive_borrow_ids: s1.alive_borrow_ids.push(id),
                        borrow_ids_by_account_id: s1.borrow_ids_by_account_id.insert(who, s1.borrow_ids_of(who).push(id)),
                        events: s1.events.push(RawEvent::BorrowListed(b)),
                        ..s1
                    }, Ok(()))
                }
            },
        }
    }
}

/// Listing a borrow panics nowhere: the ratio can be computed where it is checked, and
/// the borrow id and the reserve do not overflow.
pub open spec fn create_borrow_safe(s: LsState, who: AccountId, collateral_balance: Balance, trading_pair: TradingPair, borrow_options: BorrowOptions) -> bool {
    borrow_options.terms >= s.min_borrow_terms
        && borrow_options.interest_rate >= s.min_borrow_interest_rate
        && s.trading_pairs.contains(trading_pair)
        && !s.has_alive_borrow(who)
        && s.prices(trading_pair.borrow, trading_pair.collateral) is Some
    ==> {
        let p = s.prices(trading_pair.borrow, trading_pair.collateral)->Some_0;
        &&& ltv_computable(p, borrow_options.amount, collateral_balance)
        &&& ltv_of(p, borrow_options.amount, collateral_balance) > s.safe_ltv ==> s.next_borrow_id < BorrowId::MAX
            && reserve_fits(s.ga, trading_pair.collateral, who, collateral_balance)
    }
}

/// What unlisting a borrow does and returns: the borrow must exist, belong to the caller
/// and be alive; its collateral leaves reserve under the borrow's lock, and the id is no
/// longer alive.
pub open spec fn remove_borrow_spec(s: LsState, who: AccountId, borrow_id: BorrowId) -> (LsState, Result<(), DispatchError>) {
    if !s.borrows.contains_key(borrow_id) {
        (s, fail(Error::UnknownBorrowId))
    } else if !s.borrow_ids_of(who).contains(borrow_id) {
        (s, fail(Error::NotOwnerOfBorrow))
    } else if !s.alive_borrow_ids.contains(borrow_id) {
        (s, fail(Error::BorrowNotAlive))
    } else {
        let b = s.borrows[borrow_id];
        let (g, r) = unreserve_spec(s.ga, b.collateral_asset_id, who, b.collateral_balance, Some(b.lock_id));
        if r is Err {
            (s, ga_result(r))
        } else {
            (LsState {
                ga: g,
                alive_borrow_ids: without(s.alive_borrow_ids, borrow_id),
                events: s.events.push(RawEvent::BorrowUnlisted(borrow_id)),
                ..s
            }, Ok(()))
        }
    }
}

/// Unlisting a borrow panics nowhere.
pub open spec fn remove_borrow_safe(s: LsState, who: AccountId, borrow_id: BorrowId) -> bool {
    s.borrows.contains_key(borrow_id) ==> {
        let b = s.borrows[borrow_id];
        unreserve_fits(s.ga, b.collateral_asset_id, who, b.collateral_balance, Some(b.lock_id))
    }
}

/// What checking that a borrow can be taken does and returns: the id must be alive; a
/// borrow past its `dead_after` block is marked dead and no longer alive; a borrow that
/// is not in status `Alive` is refused.
pub open spec fn ensure_borrow_available_spec(s: LsState, borrow_id: BorrowId) -> (LsState, Result<Borrow, DispatchError>) {
    if !s.alive_borrow_ids.contains(borrow_id) {
        (s, fail(Error::BorrowNotAlive))
    } else {
        let b = s.borrow(borrow_id);
        if b.dead_after is Some && b.dead_after->Some_0 <= s.block_number {
            (s.borrow_marked(borrow_id, BorrowStatus::Dead).with_alive(without(s.alive_borrow_ids, borrow_id)), fail(Error::BorrowNotAlive))
        } else if b.status != BorrowStatus::Alive {
            (s, fail(Error::BorrowNotAlive))
        } else {
            (s, Ok(b))
        }
    }
}

/// The loan that lending on borrow `b` with collateral `cb` creates.
pub open spec fn new_loan(s: LsState, loaner: AccountId, borrow_id: BorrowId, b: Borrow, cb: Balance) -> Loan {
    Loan {
        id: s.next_loan_id,
        borrow_id,
        borrower_id: b.who,
        loaner_id: loaner,
        due: (s.block_number + s.days * b.terms) as BlockNumber,
        collateral_asset_id: b.collateral_asset_id,
        collateral_balance: cb,
        loan_balance: b.borrow_balance,
        loan_asset_id: b.borrow_asset_id,
        status: LoanHealth::Well,
        interest_rate: b.interest_rate,
        liquidation_type: LiquidationType::JustCollateral,
    }
}

/// The state once a loan is stored and filed under its lender.
pub open spec fn loan_filed(s: LsState, loan: Loan) -> LsState {
    let loaner = loan.loaner_id;
    LsState {
        next_loan_id: (s.next_loan_id + 1) as LoanId,
        loans: s.loans.insert(loan.id, loan),
        loan_ids_by_account_id: s.loan_ids_by_account_id.insert(loaner, s.loan_ids_of(loaner).push(loan.id)),
        alive_loan_ids_by_account_id: s.alive_loan_ids_by_account_id.insert(loaner, s.alive_loan_ids_of(loaner).push(loan.id)),
        account_ids_with_loans: if s.account_ids_with_loans.contains(loaner) {
            s.account_ids_with_loans
        } else {
            s.account_ids_with_loans.push(loaner)
        },
        ..s
    }
}

/// The collateral locked for a borrow, if its lock is still there.
pub open spec fn locked_collateral(s: LsState, b: Borrow) -> Option<Balance> {
    let locks = s.ga.locks_of(lock_identifier_of(b.collateral_asset_id), b.who);
    if has_lock_id(locks, b.lock_id) {
        Some(locks[first_with_id(locks, b.lock_id)].amount)
    } else {
        None
    }
}

/// What taking a borrow does once every check has passed: the loan is stored and filed,
/// then the collateral leaves reserve, moves to the money pool, and the borrowed amount
/// moves from lender to borrower; a failure in one of these keeps what came before it.
pub open spec fn lend_spec(s: LsState, loaner: AccountId, borrow_id: BorrowId, b: Borrow, cb: Balance) -> (LsState, Result<(), DispatchError>) {
    let loan = new_loan(s, loaner, borrow_id, b, cb);
    let s1 = loan_filed(s, loan);
    let (g2, r2) = unreserve_spec(s1.ga, b.collateral_asset_id, b.who, cb, Some(b.lock_id));
    if r2 is Err {
        (s1.with_ga(g2), ga_result(r2))
    } else {
        let (g3, r3) = transfer_spec(g2, b.collateral_asset_id, b.who, s.money_pool, cb);
        if r3 is Err {
            (s1.with_ga(g3), ga_result(r3))
        } else {
            let (g4, r4) = transfer_spec(g3, b.borrow_asset_id, loaner, b.who, b.borrow_balance);
            if r4 is Err {
                (s1.with_ga(g4), ga_result(r4))
            } else {
                (s1.with_ga(g4).with_borrow(borrow_id, Borrow {
                    status: BorrowStatus::Taken,
                    loan_id: Some(loan.id),
                    ..s1.borrow(borrow_id)
                }).emit(RawEvent::LoanCreated(loan)), Ok(()))
            }
        }
    }
}

/// Taking a borrow once every check has passed panics nowhere.
pub open spec fn lend_safe(s: LsState, loaner: AccountId, borrow_id: BorrowId, b: Borrow, cb: Balance) -> bool {
    let loan = new_loan(s, loaner, borrow_id, b, cb);
    let s1 = loan_filed(s, loan);
    let (g2, r2) = unreserve_spec(s1.ga, b.collateral_asset_id, b.who, cb, Some(b.lock_id));
    let (g3, r3) = transfer_spec(g2, b.collateral_asset_id, b.who, s.money_pool, cb);
    &&& s.next_loan_id < LoanId::MAX
    &&& b.terms <= BlockNumber::MAX
    &&& s.block_number + s.days * b.terms <= BlockNumber::MAX
    &&& unreserve_fits(s1.ga, b.collateral_asset_id, b.who, cb, Some(b.lock_id))
    &&& r2 is Ok ==> g2.transfer_fits(b.collateral_asset_id, b.who, s.money_pool, cb)
    &&& r2 is Ok && r3 is Ok ==> g3.transfer_fits(b.borrow_asset_id, loaner, b.who, b.borrow_balance)
}

/// What lending on a borrow does and returns.
pub open spec fn create_loan_spec(s: LsState, loaner: AccountId, borrow_id: BorrowId) -> (LsState, Result<(), DispatchError>) {
    let (s0, r0) = ensure_borrow_available_spec(s, borrow_id);
    match r0 {
        Err(e) => (s0, Err(e)),
        Ok(b) => match locked_collateral(s, b) {
            None => (s, fail(Error::NoLockedBalance)),
            Some(cb) => if s.ga.free(b.borrow_asset_id, loaner) < b.borrow_balance {
                (s, fail(Error::NotEnoughBalance))
            } else {
                match s.prices(b.borrow_asset_id, b.collateral_asset_id) {
                    None => (s, fail(Error::TradingPairPriceMissing)),
                    Some(p) => if !(ltv_of(p, b.borrow_balance, cb) > s.safe_ltv) {
                        (s, fail(Error::InitialCollateralRateFail))
                    } else {
                        lend_spec(s, loaner, borrow_id, b, cb)
                    },
                }
            },
        },
    }
}

/// Lending on a borrow panics nowhere.
pub open spec fn create_loan_safe(s: LsState, loaner: AccountId, borrow_id: BorrowId) -> bool {
    let (s0, r0) = ensure_borrow_available_spec(s, borrow_id);
    r0 is Ok && locked_collateral(s, r0->Ok_0) is Some
        && s.ga.free(r0->Ok_0.borrow_asset_id, loaner) >= r0->Ok_0.borrow_balance
        && s.prices(r0->Ok_0.borrow_asset_id, r0->Ok_0.collateral_asset_id) is Some
    ==> {
        let b = r0->Ok_0;
        let cb = locked_collateral(s, b)->Some_0;
        let p = s.prices(b.borrow_asset_id, b.collateral_asset_id)->Some_0;
        &&& ltv_computable(p, b.borrow_balance, cb)
        &&& ltv_of(p, b.borrow_balance, cb) > s.safe_ltv ==> lend_safe(s, loaner, borrow_id, b, cb)
    }
}

/// What adding collateral to a borrow does and returns: the amount moves from the caller
/// to the money pool and is added to the borrow's collateral and to its loan's, if any.
pub open spec fn add_collateral_spec(s: LsState, who: AccountId, borrow_id: BorrowId, amount: Balance) -> (LsState, Result<(), DispatchError>) {
    if !s.borrows.contains_key(borrow_id) {
        (s, fail(Error::UnknownBorrowId))
    } else {
        let b = s.borrows[borrow_id];
        if s.ga.free(b.collateral_asset_id, who) < amount {
            (s, fail(Error::NotEnoughBalance))
        } else {
            let (g, _) = transfer_spec(s.ga, b.collateral_asset_id, who, s.money_pool, amount);
            let s1 = s.with_ga(g).with_borrow(borrow_id, Borrow {
                collateral_balance: (b.collateral_balance + amount) as Balance,
                ..b
            });
            let s2 = match b.loan_id {
                Some(l) => s1.with_loan(l, Loan {
                    collateral_balance: (s1.loan(l).collateral_balance + amount) as Balance,
                    ..s1.loan(l)
                }),
                None => s1,
            };
            (s2.emit(RawEvent::CollateralAdded(borrow_id)), Ok(()))
        }
    }
}

/// Adding collateral panics nowhere: nothing overflows.
pub open spec fn add_collateral_safe(s: LsState, who: AccountId, borrow_id: BorrowId, amount: Balance) -> bool {
    s.borrows.contains_key(borrow_id) && s.ga.free(s.borrows[borrow_id].collateral_asset_id, who) >= amount ==> {
        let b = s.borrows[borrow_id];
        &&& s.ga.transfer_fits(b.collateral_asset_id, who, s.money_pool, amount)
        &&& b.collateral_balance + amount <= Balance::MAX
        &&& b.loan_id is Some ==> s.loan(b.loan_id->Some_0).collateral_balance + amount <= Balance::MAX
    }
}

/// The state once loan `l` ends: its borrow takes `borrow_status` and is no longer alive,
/// the loan leaves its lender's running loans and takes `loan_status`, and a lender with no
/// running loan left leaves the list of lenders.
pub open spec fn loan_closed(s: LsState, l: Loan, borrow_status: BorrowStatus, loan_status: LoanHealth) -> LsState {
    let s1 = s.borrow_marked(l.borrow_id, borrow_status);
    let alive_loans = without(s1.alive_loan_ids_of(l.loaner_id), l.id);
    let s2 = LsState {
        alive_borrow_ids: without(s1.alive_borrow_ids, l.borrow_id),
        alive_loan_ids_by_account_id: s1.alive_loan_ids_by_account_id.insert(l.loaner_id, alive_loans),
        ..s1
    };
    let s3 = if alive_loans.len() == 0 {
        LsState { account_ids_with_loans: without(s2.account_ids_with_loans, l.loaner_id), ..s2 }
    } else {
        s2
    };
    s3.loan_marked(l.id, loan_status)
}

/// The first of two results that is an error, else the second.
pub open spec fn first_err(first: Result<(), DispatchError>, second: Result<(), DispatchError>) -> Result<(), DispatchError> {
    if first is Err {
        first
    } else {
        second
    }
}

/// The amount a borrower repays: the borrowed amount with its interest.
pub open spec fn amount_due(b: Borrow) -> int {
    b.borrow_balance + expected_interest(b.interest_rate, b.terms, b.borrow_balance)
}

/// What repaying a loan does and returns: the borrower pays the borrowed amount with its
/// interest to the lender and gets the collateral back from the money pool; the borrow and
/// the loan are completed. A loan below the liquidation ratio is marked for
/// liquidation instead. Where the collateral cannot be returned, the payment is undone.
pub open spec fn repay_loan_spec(s: LsState, who: AccountId, borrow_id: BorrowId) -> (LsState, Result<(), DispatchError>) {
    if !s.borrows.contains_key(borrow_id) {
        (s, fail(Error::UnknownBorrowId))
    } else if s.borrows[borrow_id].who != who {
        (s, fail(Error::NotOwnerOfBorrow))
    } else if s.borrows[borrow_id].loan_id is None {
        (s, fail(Error::BorrowNotLoaned))
    } else {
        let b = s.borrows[borrow_id];
        match s.prices(b.borrow_asset_id, b.collateral_asset_id) {
            None => (s, fail(Error::TradingPairPriceMissing)),
            Some(p) => {
                let loan_id = b.loan_id->Some_0;
                if !s.loans.contains_key(loan_id) {
                    (s, fail(Error::UnknownLoanId))
                } else {
                    let l = s.loans[loan_id];
                    if l.status != LoanHealth::Well {
                        (s, fail(Error::LoanNotWell))
                    } else if ltv_of(p, l.loan_balance, l.collateral_balance) < s.liquidate_ltv {
                        (s.loan_marked(l.id, LoanHealth::ToBeLiquidated), fail(Error::ShouldBeLiquidated))
                    } else {
                        let need = amount_due(b) as Balance;
                        if s.ga.free(b.borrow_asset_id, who) < need {
                            (s, fail(Error::NotEnoughBalance))
                        } else {
                            let (g1, r1) = transfer_spec(s.ga, b.borrow_asset_id, who, l.loaner_id, need);
                            let (g2, r2) = transfer_spec(g1, b.collateral_asset_id, s.money_pool, who, b.collateral_balance);
                            let (g3, r3) = transfer_spec(g2, b.borrow_asset_id, l.loaner_id, who, need);
                            if r1 is Err {
                                (s.with_ga(g1), ga_result(r1))
                            } else if r2 is Err {
                                (s.with_ga(g3), first_err(ga_result(r3), ga_result(r2)))
                            } else {
                                (loan_closed(s.with_ga(g2), l, BorrowStatus::Completed, LoanHealth::Completed)
                                    .emit(RawEvent::LoanRepaid(loan_id)), Ok(()))
                            }
                        }
                    }
                }
            },
        }
    }
}

/// Repaying a loan panics nowhere.
pub open spec fn repay_loan_safe(s: LsState, who: AccountId, borrow_id: BorrowId) -> bool {
    let b = s.borrows[borrow_id];
    let loan_id = b.loan_id->Some_0;
    let l = s.loans[loan_id];
    s.borrows.contains_key(borrow_id) && b.who == who && b.loan_id is Some
        && s.prices(b.borrow_asset_id, b.collateral_asset_id) is Some && s.loans.contains_key(loan_id)
        && l.status == LoanHealth::Well
    ==> {
        let p = s.prices(b.borrow_asset_id, b.collateral_asset_id)->Some_0;
        &&& ltv_computable(p, l.loan_balance, l.collateral_balance)
        &&& ltv_of(p, l.loan_balance, l.collateral_balance) >= s.liquidate_ltv ==> {
            let need = amount_due(b) as Balance;
            let (g1, r1) = transfer_spec(s.ga, b.borrow_asset_id, who, l.loaner_id, need);
            let (g2, r2) = transfer_spec(g1, b.collateral_asset_id, s.money_pool, who, b.collateral_balance);
            &&& b.interest_rate * b.terms * b.borrow_balance <= Balance::MAX
            &&& amount_due(b) <= Balance::MAX
            &&& s.ga.transfer_fits(b.borrow_asset_id, who, l.loaner_id, need)
            &&& g1.transfer_fits(b.collateral_asset_id, s.money_pool, who, b.collateral_balance)
            &&& g2.transfer_fits(b.borrow_asset_id, l.loaner_id, who, need)
        }
    }
}

/// The collateral of a loan valued in its borrowed asset.
pub open spec fn collateral_in_borrow_asset(p: TradingPairPrices, collateral_balance: Balance) -> int {
    (p.collateral_asset_price * collateral_balance) / (p.borrow_asset_price as int)
}

/// What paying out a liquidated collateral does: where the debt is at least the value of
/// the collateral, 95% of it goes to the lender and the rest to the liquidator; else 90%
/// goes to the lender and the rest is shared by the liquidator and the platform. A failed
/// payment undoes the ones before it.
pub open spec fn payout_spec(s: LsState, liquidator: AccountId, l: Loan, loan_id: LoanId, debt_covers_collateral: bool) -> (LsState, Result<(), DispatchError>) {
    let a = l.collateral_asset_id;
    let cb = l.collateral_balance;
    let pool = s.money_pool;
    let to_loaner = if debt_covers_collateral {
        (cb * 95 / 100) as Balance
    } else {
        (cb * 9 / 10) as Balance
    };
    let to_liquidator = if debt_covers_collateral {
        (cb - to_loaner) as Balance
    } else {
        ((cb - to_loaner) / 2) as Balance
    };
    let to_platform = (cb - to_loaner - to_liquidator) as Balance;
    let (g1, r1) = transfer_spec(s.ga, a, pool, l.loaner_id, to_loaner);
    let (g2, r2) = transfer_spec(g1, a, pool, liquidator, to_liquidator);
    let (g2u, r2u) = transfer_spec(g2, a, l.loaner_id, pool, to_loaner);
    let (g3, r3) = transfer_spec(g2, a, pool, s.platform, to_platform);
    let (g4, r4) = transfer_spec(g3, a, liquidator, pool, to_liquidator);
    let (g5, r5) = transfer_spec(g4, a, l.loaner_id, pool, to_loaner);
    if r1 is Err {
        (s.with_ga(g1), ga_result(r1))
    } else if r2 is Err {
        (s.with_ga(g2u), first_err(ga_result(r2u), ga_result(r2)))
    } else if debt_covers_collateral {
        (loan_closed(s.with_ga(g2), l, BorrowStatus::Liquidated, LoanHealth::Liquidated).emit(RawEvent::LoanLiquidated(loan_id)), Ok(()))
    } else if r3 is Err {
        if r4 is Err {
            (s.with_ga(g4), ga_result(r4))
        } else {
            (s.with_ga(g5), first_err(ga_result(r5), ga_result(r3)))
        }
    } else {
        (loan_closed(s.with_ga(g3), l, BorrowStatus::Liquidated, LoanHealth::Liquidated).emit(RawEvent::LoanLiquidated(loan_id)), Ok(()))
    }
}

/// Paying out a liquidated collateral panics nowhere.
pub open spec fn payout_safe(s: LsState, liquidator: AccountId, l: Loan, debt_covers_collateral: bool) -> bool {
    let a = l.collateral_asset_id;
    let cb = l.collateral_balance;
    let pool = s.money_pool;
    let to_loaner = if debt_covers_collateral {
        (cb * 95 / 100) as Balance
    } else {
        (cb * 9 / 10) as Balance
    };
    let to_liquidator = if debt_covers_collateral {
        (cb - to_loaner) as Balance
    } else {
        ((cb - to_loaner) / 2) as Balance
    };
    let to_platform = (cb - to_loaner - to_liquidator) as Balance;
    let (g1, r1) = transfer_spec(s.ga, a, pool, l.loaner_id, to_loaner);
    let (g2, r2) = transfer_spec(g1, a, pool, liquidator, to_liquidator);
    let (g3, r3) = transfer_spec(g2, a, pool, s.platform, to_platform);
    let (g4, r4) = transfer_spec(g3, a, liquidator, pool, to_liquidator);
    &&& (if debt_covers_collateral { cb * 95 } else { cb * 9 }) <= Balance::MAX
    &&& s.ga.transfer_fits(a, pool, l.loaner_id, to_loaner)
    &&& r1 is Ok ==> g1.transfer_fits(a, pool, liquidator, to_liquidator)
    &&& r1 is Ok && r2 is Err ==> g2.transfer_fits(a, l.loaner_id, pool, to_loaner)
    &&& r1 is Ok && r2 is Ok && !debt_covers_collateral ==> {
        &&& g2.transfer_fits(a, pool, s.platform, to_platform)
        &&& r3 is Err ==> g3.transfer_fits(a, liquidator, pool, to_liquidator)
        &&& r3 is Err && r4 is Ok ==> g4.transfer_fits(a, l.loaner_id, pool, to_loaner)
    }
}

/// What liquidating a loan does and returns: a loan that is well, marked for liquidation
/// or overdue may be liquidated; one that is not overdue only below the liquidation
/// ratio. A loan liquidated by selling collateral only needs the liquidator to hold the
/// debt; one liquidated by handing over collateral has it paid out of the money pool.
pub open spec fn liquidate_loan_spec(s: LsState, liquidator: AccountId, loan_id: LoanId) -> (LsState, Result<(), DispatchError>) {
    let l = s.loan(loan_id);
    if !(l.status == LoanHealth::Overdue || l.status == LoanHealth::Well || l.status == LoanHealth::ToBeLiquidated) {
        (s, fail(Error::ShouldNotBeLiquidated))
    } else {
        match s.prices(l.loan_asset_id, l.collateral_asset_id) {
            None => (s, fail(Error::TradingPairPriceMissing)),
            Some(p) => if l.status != LoanHealth::Overdue && !(ltv_of(p, l.loan_balance, l.collateral_balance) < s.liquidate_ltv) {
                (s, fail(Error::LTVNotMeet))
            } else {
                let b = s.borrow(l.borrow_id);
                let need = l.loan_balance + expected_interest(b.interest_rate, b.terms, b.borrow_balance);
                match l.liquidation_type {
                    LiquidationType::SellCollateral => if s.ga.free(b.borrow_asset_id, liquidator) < need {
                        (s, fail(Error::NotEnoughBalance))
                    } else {
                        (s, Ok(()))
                    },
                    LiquidationType::JustCollateral => payout_spec(
                        s,
                        liquidator,
                        l,
                        loan_id,
                        need >= collateral_in_borrow_asset(p, l.collateral_balance),
                    ),
                }
            },
        }
    }
}

/// Liquidating a loan panics nowhere.
pub open spec fn liquidate_loan_safe(s: LsState, liquidator: AccountId, loan_id: LoanId) -> bool {
    let l = s.loan(loan_id);
    (l.status == LoanHealth::Overdue || l.status == LoanHealth::Well || l.status == LoanHealth::ToBeLiquidated)
        && s.prices(l.loan_asset_id, l.collateral_asset_id) is Some
    ==> {
        let p = s.prices(l.loan_asset_id, l.collateral_asset_id)->Some_0;
        let b = s.borrow(l.borrow_id);
        let need = l.loan_balance + expected_interest(b.interest_rate, b.terms, b.borrow_balance);
        &&& l.status != LoanHealth::Overdue ==> ltv_computable(p, l.loan_balance, l.collateral_balance)
        &&& l.status == LoanHealth::Overdue || ltv_of(p, l.loan_balance, l.collateral_balance) < s.liquidate_ltv ==> {
            &&& b.interest_rate * b.terms * b.borrow_balance <= Balance::MAX
            &&& need <= Balance::MAX
            &&& p.collateral_asset_price * l.collateral_balance <= Balance::MAX
            &&& l.liquidation_type == LiquidationType::JustCollateral ==> payout_safe(
                s,
                liquidator,
                l,
                need >= collateral_in_borrow_asset(p, l.collateral_balance),
            )
        }
    }
}

/// Going through the ids in order: a borrow past its `dead_after` block is marked dead
/// and its death announced; the others are kept, in order.
pub open spec fn check_borrows(s: LsState, ids: Seq<BorrowId>, block_number: BlockNumber) -> (LsState, Seq<BorrowId>)
    decreases ids.len(),
{
    if ids.len() == 0 {
        (s, Seq::empty())
    } else {
        let (s1, kept) = check_borrows(s, ids.drop_last(), block_number);
        let id = ids.last();
        let b = s1.borrow(id);
        if b.dead_after is Some && b.dead_after->Some_0 <= block_number {
            (s1.borrow_marked(id, BorrowStatus::Dead).emit(RawEvent::BorrowDied(id)), kept)
        } else {
            (s1, kept.push(id))
        }
    }
}

/// What the periodic check of borrows does: the dead ones leave the alive list.
pub open spec fn periodic_check_borrows_spec(s: LsState, block_number: BlockNumber) -> LsState {
    let (s1, kept) = check_borrows(s.with_alive(Seq::empty()), s.alive_borrow_ids, block_number);
    s1.with_alive(kept)
}

/// Checking one loan: below the liquidation ratio it is marked for liquidation;
/// else, past its due block, it is marked overdue. A loan whose prices are missing is
/// left alone.
pub open spec fn check_loan(s: LsState, loan_id: LoanId, block_number: BlockNumber) -> LsState {
    let l = s.loan(loan_id);
    match s.prices(l.loan_asset_id, l.collateral_asset_id) {
        None => s,
        Some(p) => if ltv_of(p, l.loan_balance, l.collateral_balance) < s.liquidate_ltv {
            s.with_loan(loan_id, Loan { status: LoanHealth::ToBeLiquidated, ..l }).emit(RawEvent::LoanToBeLiquidated(loan_id))
        } else if block_number > l.due {
            s.with_loan(loan_id, Loan { status: LoanHealth::Overdue, ..l }).emit(RawEvent::LoanOverdue(loan_id))
        } else {
            s
        },
    }
}

/// Checking the loans in order.
pub open spec fn check_loans(s: LsState, ids: Seq<LoanId>, block_number: BlockNumber) -> LsState
    decreases ids.len(),
{
    if ids.len() == 0 {
        s
    } else {
        check_loan(check_loans(s, ids.drop_last(), block_number), ids.last(), block_number)
    }
}

/// Checking the running loans of each lender in order.
pub open spec fn check_lenders(s: LsState, lenders: Seq<AccountId>, block_number: BlockNumber) -> LsState
    decreases lenders.len(),
{
    if lenders.len() == 0 {
        s
    } else {
        let s1 = check_lenders(s, lenders.drop_last(), block_number);
        check_loans(s1, s1.alive_loan_ids_of(lenders.last()), block_number)
    }
}

/// What the periodic check of loans does.
pub open spec fn periodic_check_loans_spec(s: LsState, block_number: BlockNumber) -> LsState {
    check_lenders(s, s.account_ids_with_loans, block_number)
}

/// The ratio of every running loan whose prices are known can be computed.
pub open spec fn running_loans_computable(s: LsState) -> bool {
    forall|i: int, j: int|
        0 <= i < s.account_ids_with_loans.len() && 0 <= j < s.alive_loan_ids_of(s.account_ids_with_loans[i]).len()
        ==> #[trigger] loan_computable(s, s.alive_loan_ids_of(s.account_ids_with_loans[i])[j])
}

/// The ratio of the loan can be computed where its prices are known.
pub open spec fn loan_computable(s: LsState, loan_id: LoanId) -> bool {
    let l = s.loan(loan_id);
    s.prices(l.loan_asset_id, l.collateral_asset_id) is Some
        ==> ltv_computable(s.prices(l.loan_asset_id, l.collateral_asset_id)->Some_0, l.loan_balance, l.collateral_balance)
}

/// Two states agree on everything a loan check reads.
pub open spec fn same_for_checks(a: LsState, b: LsState) -> bool {
    &&& a.ga == b.ga
    &&& a.oracle == b.oracle
    &&& a.liquidate_ltv == b.liquidate_ltv
    &&& a.alive_loan_ids_by_account_id == b.alive_loan_ids_by_account_id
    &&& a.account_ids_with_loans == b.account_ids_with_loans
    &&& forall|id: LoanId| #![trigger a.loan(id)] {
        &&& a.loan(id).loan_balance == b.loan(id).loan_balance
        &&& a.loan(id).collateral_balance == b.loan(id).collateral_balance
        &&& a.loan(id).loan_asset_id == b.loan(id).loan_asset_id
        &&& a.loan(id).collateral_asset_id == b.loan(id).collateral_asset_id
        &&& a.loan(id).due == b.loan(id).due
    }
}

/// What the end of a block does: on even blocks not followed by a multiple of five the
/// borrows are checked; on blocks followed by a multiple of five the loans are.
pub open spec fn on_finalize_spec(s: LsState, block_number: BlockNumber) -> LsState {
    if (block_number + 1) % 5 == 0 {
        periodic_check_loans_spec(s, block_number)
    } else if block_number % 2 == 0 {
        periodic_check_borrows_spec(s, block_number)
    } else {
        s
    }
}

pub proof fn lemma_same_for_checks_refl(a: LsState)
    ensures
        same_for_checks(a, a),
{
}

pub proof fn lemma_same_for_checks_trans(a: LsState, b: LsState, c: LsState)
    requires
        same_for_checks(a, b),
        same_for_checks(b, c),
    ensures
        same_for_checks(a, c),
{
    assert forall|id: LoanId| #![trigger a.loan(id)] a.loan(id).loan_balance == c.loan(id).loan_balance
        && a.loan(id).collateral_balance == c.loan(id).collateral_balance
        && a.loan(id).loan_asset_id == c.loan(id).loan_asset_id
        && a.loan(id).collateral_asset_id == c.loan(id).collateral_asset_id
        && a.loan(id).due == c.loan(id).due by {
        assert(b.loan(id).loan_balance == c.loan(id).loan_balance);
    }
}

pub proof fn lemma_check_loan_same(s: LsState, loan_id: LoanId, block_number: BlockNumber)
    ensures
        same_for_checks(check_loan(s, loan_id, block_number), s),
{
    let t = check_loan(s, loan_id, block_number);
    assert forall|id: LoanId| #![trigger t.loan(id)] t.loan(id).loan_balance == s.loan(id).loan_balance
        && t.loan(id).collateral_balance == s.loan(id).collateral_balance
        && t.loan(id).loan_asset_id == s.loan(id).loan_asset_id
        && t.loan(id).collateral_asset_id == s.loan(id).collateral_asset_id
        && t.loan(id).due == s.loan(id).due by {
    }
}

/// A call of the market that anyone may dispatch.
#[allow(non_camel_case_types)]
#[derive(Clone, Copy, Debug, PartialEq, Eq, Structural)]
pub enum Call {
    pause,
    resume,
    change_platform(AccountId),
    change_money_pool(AccountId),
    change_safe_ltv(u32),
    change_liquidate_ltv(u32),
    change_min_borrow_terms(u64),
    change_min_borrow_interest_rate(u64),
    list_borrow(Balance, TradingPair, BorrowOptions),
    unlist_borrow(BorrowId),
    lend(BorrowId),
    liquidate(LoanId),
    add_collateral(BorrowId, Balance),
    repay(BorrowId),
}

/// A setting only the root origin may change.
pub open spec fn admin_spec(s: LsState, origin: Origin, t: LsState) -> (LsState, Result<(), DispatchError>) {
    if origin == Origin::Root {
        (t, Ok(()))
    } else {
        (s, Err(DispatchError::BadOrigin))
    }
}

/// What dispatching a call does and returns. Market calls are refused while the market is
/// paused, and need a signed origin.
pub open spec fn call_spec(s: LsState, origin: Origin, call: Call) -> (LsState, Result<(), DispatchError>) {
    match call {
        Call::pause => admin_spec(s, origin, LsState { paused: true, ..s }),
        Call::resume => admin_spec(s, origin, LsState { paused: false, ..s }),
        Call::change_platform(a) => admin_spec(s, origin, LsState { platform: a, ..s }),
        Call::change_money_pool(a) => admin_spec(s, origin, LsState { money_pool: a, ..s }),
        Call::change_safe_ltv(v) => admin_spec(s, origin, LsState { safe_ltv: v, ..s }),
        Call::change_liquidate_ltv(v) => admin_spec(s, origin, LsState { liquidate_ltv: v, ..s }),
        Call::change_min_borrow_terms(v) => admin_spec(s, origin, LsState { min_borrow_terms: v, ..s }),
        Call::change_min_borrow_interest_rate(v) => admin_spec(s, origin, LsState { min_borrow_interest_rate: v, ..s }),
        _ => if s.paused {
            (s, fail(Error::Paused))
        } else {
            match origin {
                Origin::Signed(who) => match call {
                    Call::list_borrow(c, tp, o) => create_borrow_spec(s, who, c, tp, o),
                    Call::unlist_borrow(id) => remove_borrow_spec(s, who, id),
                    Call::lend(id) => create_loan_spec(s, who, id),
                    Call::liquidate(id) => liquidate_loan_spec(s, who, id),
                    Call::add_collateral(id, amount) => add_collateral_spec(s, who, id, amount),
                    Call::repay(id) => repay_loan_spec(s, who, id),
                    _ => (s, Ok(())),
                },
                _ => (s, Err(DispatchError::BadOrigin)),
            }
        },
    }
}

/// Dispatching a call panics nowhere: a paused market refuses market calls before any
/// work, so only an open market asks more of the state.
pub open spec fn call_safe(s: LsState, origin: Origin, call: Call) -> bool {
    s.paused || match origin {
        Origin::Signed(who) => match call {
            Call::list_borrow(c, tp, o) => create_borrow_safe(s, who, c, tp, o),
            Call::unlist_borrow(id) => remove_borrow_safe(s, who, id),
            Call::lend(id) => create_loan_safe(s, who, id),
            Call::liquidate(id) => liquidate_loan_safe(s, who, id),
            Call::add_collateral(id, amount) => add_collateral_safe(s, who, id, amount),
            Call::repay(id) => repay_loan_safe(s, who, id),
            _ => true,
        },
        _ => true,
    }
}

/// The initial settings of the market.
pub struct GenesisConfig {
    /// Holds borrowers' collateral while their borrows are loaned.
    pub money_pool: AccountId,
    /// Receives the platform's share of liquidations.
    pub platform: AccountId,
    /// The pairs the market accepts; the oracle prices every asset in them.
    pub trading_pairs: Vec<TradingPair>,
    /// A new borrow or loan needs a ratio above this one.
    pub safe_ltv: u32,
    /// A loan below this ratio is liquidated.
    pub liquidate_ltv: u32,
    /// Minimum borrow terms, in days.
    pub min_borrow_terms: u64,
    /// Minimum interest rate.
    pub min_borrow_interest_rate: u64,
}

impl GenesisConfig {
    /// Writes the settings into the market's storage.
    pub fn assimilate_storage(&self, storage: &mut Module)
        ensures
            final(storage)@ == (LsState {
                money_pool: self.money_pool,
                platform: self.platform,
                trading_pairs: self.trading_pairs@,
                safe_ltv: self.safe_ltv,
                liquidate_ltv: self.liquidate_ltv,
                min_borrow_terms: self.min_borrow_terms,
                min_borrow_interest_rate: self.min_borrow_interest_rate,
                ..old(storage)@
            }),
    {
        storage.money_pool = self.money_pool;
        storage.platform = self.platform;
        let mut pairs: Vec<TradingPair> = Vec::new();
        let mut i: usize = 0;
        while i < self.trading_pairs.len()
            invariant
                i <= self.trading_pairs@.len(),
                pairs@ == self.trading_pairs@.subrange(0, i as int),
            decreases self.trading_pairs@.len() - i,
        {
            pairs.push(self.trading_pairs[i]);
            i = i + 1;
            assert(pairs@ =~= self.trading_pairs@.subrange(0, i as int));
        }
        assert(pairs@ =~= self.trading_pairs@);
        storage.trading_pairs = pairs;
        storage.safe_ltv = self.safe_ltv;
        storage.liquidate_ltv = self.liquidate_ltv;
        storage.min_borrow_terms = self.min_borrow_terms;
        storage.min_borrow_interest_rate = self.min_borrow_interest_rate;
    }

    /// A market with these settings and nothing listed, beside the given ledger and oracle,
    /// at block zero, with `days` blocks per day.
    pub fn build_storage(&self, generic_asset: crate::generic_asset::Module, oracle: crate::new_oracle::Module, days: BlockNumber) -> (m: Module)
        ensures
            m@ == initial_state(self.money_pool, self.platform, self.trading_pairs@, self.safe_ltv, self.liquidate_ltv,
                self.min_borrow_terms, self.min_borrow_interest_rate, days, generic_asset@, oracle@),
    {
        let mut m = Module::new(generic_asset, oracle, days);
        self.assimilate_storage(&mut m);
        m
    }
}

/// The state of a market fresh from its settings.
pub open spec fn initial_state(
    money_pool: AccountId,
    platform: AccountId,
    trading_pairs: Seq<TradingPair>,
    safe_ltv: u32,
    liquidate_ltv: u32,
    min_borrow_terms: u64,
    min_borrow_interest_rate: u64,
    days: BlockNumber,
    ga: GenericAssetState,
    oracle: OracleState,
) -> LsState {
    LsState {
        paused: false,
        money_pool,
        platform,
        trading_pairs,
        safe_ltv,
        liquidate_ltv,
        min_borrow_terms,
        min_borrow_interest_rate,
        next_borrow_id: 1,
        next_loan_id: 1,
        borrows: Map::empty(),
        borrow_ids_by_account_id: Map::empty(),
        alive_borrow_ids: Seq::empty(),
        loans: Map::empty(),
        loan_ids_by_account_id: Map::empty(),
        alive_loan_ids_by_account_id: Map::empty(),
        account_ids_with_loans: Seq::empty(),
        events: Seq::empty(),
        days,
        block_number: 0,
        ga,
        oracle,
    }
}

/// The market module, with the ledger, the oracle and the block height it runs beside.
pub struct Module {
    /// Module level switch.
    pub paused: bool,
    /// Holds borrowers' collateral while their borrows are loaned.
    pub money_pool: AccountId,
    /// Receives the platform's share of liquidations.
    pub platform: AccountId,
    /// The pairs the market accepts; the oracle prices every asset in them.
    pub trading_pairs: Vec<TradingPair>,
    /// A new borrow or loan needs a ratio above this one.
    pub safe_ltv: u32,
    /// A loan below this ratio is liquidated.
    pub liquidate_ltv: u32,
    /// Minimum borrow terms, in days.
    pub min_borrow_terms: u64,
    /// Minimum interest rate.
    pub min_borrow_interest_rate: u64,
    pub next_borrow_id: BorrowId,
    pub next_loan_id: LoanId,
    pub borrows: StorageMap<BorrowId, Borrow>,
    pub borrow_ids_by_account_id: StorageMap<AccountId, Vec<BorrowId>>,
    pub alive_borrow_ids: Vec<BorrowId>,
    pub loans: StorageMap<LoanId, Loan>,
    pub loan_ids_by_account_id: StorageMap<AccountId, Vec<LoanId>>,
    pub alive_loan_ids_by_account_id: StorageMap<AccountId, Vec<LoanId>>,
    pub account_ids_with_loans: Vec<AccountId>,
    pub events: Vec<RawEvent>,
    /// Blocks per day.
    pub days: BlockNumber,
    /// The height of the current block.
    pub block_number: BlockNumber,
    /// The ledger the market moves balances in.
    pub generic_asset: crate::generic_asset::Module,
    /// The oracle the market reads prices from.
    pub oracle: crate::new_oracle::Module,
}

impl View for Module {
    type V = LsState;

    open spec fn view(&self) -> LsState {
        LsState {
            paused: self.paused,
            money_pool: self.money_pool,
            platform: self.platform,
            trading_pairs: self.trading_pairs@,
            safe_ltv: self.safe_ltv,
            liquidate_ltv: self.liquidate_ltv,
            min_borrow_terms: self.min_borrow_terms,
            min_borrow_interest_rate: self.min_borrow_interest_rate,
            next_borrow_id: self.next_borrow_id,
            next_loan_id: self.next_loan_id,
            borrows: self.borrows@,
            borrow_ids_by_account_id: self.borrow_ids_by_account_id@,
            alive_borrow_ids: self.alive_borrow_ids@,
            loans: self.loans@,
            loan_ids_by_account_id: self.loan_ids_by_account_id@,
            alive_loan_ids_by_account_id: self.alive_loan_ids_by_account_id@,
            account_ids_with_loans: self.account_ids_with_loans@,
            events: self.events@,
            days: self.days,
            block_number: self.block_number,
            ga: self.generic_asset@,
            oracle: self.oracle@,
        }
    }
}

impl Module {
    fn deposit_event(&mut self, e: RawEvent)
        ensures
            final(self)@ == old(self)@.emit(e),
    {
        self.events.push(e);
    }

    /// The stored borrow, the default where none is.
    pub fn borrows(&self, borrow_id: BorrowId) -> (b: Borrow)
        ensures
            b == self@.borrow(borrow_id),
    {
        match self.borrows.get(&borrow_id) {
            Some(b) => *b,
            None => Borrow::default(),
        }
    }

    /// The stored loan, the default where none is.
    pub fn loans(&self, loan_id: LoanId) -> (l: Loan)
        ensures
            l == self@.loan(loan_id),
    {
        match self.loans.get(&loan_id) {
            Some(l) => *l,
            None => Loan::default(),
        }
    }

    /// The borrows an account has listed, oldest first.
    pub fn borrow_ids_by_account_id(&self, who: &AccountId) -> (v: Vec<BorrowId>)
        ensures
            v@ == self@.borrow_ids_of(*who),
    {
        match self.borrow_ids_by_account_id.get(who) {
            Some(v) => copy_u128s(v),
            None => Vec::new(),
        }
    }

    /// The loans an account has made, oldest first.
    pub fn loan_ids_by_account_id(&self, who: &AccountId) -> (v: Vec<LoanId>)
        ensures
            v@ == self@.loan_ids_of(*who),
    {
        match self.loan_ids_by_account_id.get(who) {
            Some(v) => copy_u128s(v),
            None => Vec::new(),
        }
    }

    /// The loans an account has made that are still running.
    pub fn alive_loan_ids_by_account_id(&self, who: &AccountId) -> (v: Vec<LoanId>)
        ensures
            v@ == self@.alive_loan_ids_of(*who),
    {
        match self.alive_loan_ids_by_account_id.get(who) {
            Some(v) => copy_u128s(v),
            None => Vec::new(),
        }
    }

    /// The borrows that are alive.
    pub fn alive_borrow_ids(&self) -> (v: Vec<BorrowId>)
        ensures
            v@ == self@.alive_borrow_ids,
    {
        copy_u128s(&self.alive_borrow_ids)
    }

    /// The lenders with loans that are still running.
    pub fn account_ids_with_loans(&self) -> (v: Vec<AccountId>)
        ensures
            v@ == self@.account_ids_with_loans,
    {
        copy_u64s(&self.account_ids_with_loans)
    }

    /// The price of an asset: where the asset is listed, the oracle knows its symbol and
    /// the price is not zero.
    fn fetch_price(&self, asset_id: AssetId) -> (p: Option<u64>)
        ensures
            p == self@.price_of(asset_id),
    {
        if !self.generic_asset.asset_id_exists(asset_id) {
            return None;
        }
        let token = self.generic_asset.symbols(&asset_id);
        if !self.oracle.is_token_known(&token) {
            return None;
        }
        let price = self.oracle.current_price(&token);
        if price == 0 {
            None
        } else {
            Some(price)
        }
    }

    /// The prices of a pair, where the oracle has both.
    pub fn fetch_trading_pair_prices(&self, borrow_asset_id: AssetId, collateral_asset_id: AssetId) -> (p: Option<TradingPairPrices>)
        ensures
            p == self@.prices(borrow_asset_id, collateral_asset_id),
    {
        let collateral_price = self.fetch_price(collateral_asset_id);
        let borrow_price = self.fetch_price(borrow_asset_id);
        match (collateral_price, borrow_price) {
            (Some(c), Some(b)) => Some(TradingPairPrices { borrow_asset_price: b, collateral_asset_price: c }),
            _ => None,
        }
    }

    fn ltv(prices: &TradingPairPrices, borrow_balance: Balance, collateral_balance: Balance) -> (r: Balance)
        requires
            ltv_computable(*prices, borrow_balance, collateral_balance),
        ensures
            r == ltv_of(*prices, borrow_balance, collateral_balance),
    {
        let cp = prices.collateral_asset_price as u128;
        let bp = prices.borrow_asset_price as u128;
        assert(cp * collateral_balance <= cp * collateral_balance * 10000) by (nonlinear_arith)
            requires
                cp * collateral_balance >= 0,
        ;
        let numerator = cp * collateral_balance * 10000;
        let denominator = bp * borrow_balance;
        numerator / denominator
    }

    /// Whether the position is below the liquidation ratio.
    pub fn ltv_meet_liquidation(&self, prices: &TradingPairPrices, borrow_balance: Balance, collateral_balance: Balance) -> (b: bool)
        requires
            ltv_computable(*prices, borrow_balance, collateral_balance),
        ensures
            b == (ltv_of(*prices, borrow_balance, collateral_balance) < self@.liquidate_ltv),
    {
        Self::ltv(prices, borrow_balance, collateral_balance) < self.liquidate_ltv as u128
    }

    /// Whether the position is above the safe ratio.
    pub fn ltv_meet_safty(&self, prices: &TradingPairPrices, borrow_balance: Balance, collateral_balance: Balance) -> (b: bool)
        requires
            ltv_computable(*prices, borrow_balance, collateral_balance),
        ensures
            b == (ltv_of(*prices, borrow_balance, collateral_balance) > self@.safe_ltv),
    {
        Self::ltv(prices, borrow_balance, collateral_balance) > self.safe_ltv as u128
    }

    /// The interest owed on `amount` over `terms` terms at `interest_rate`.
    pub fn calculate_expected_interest(interest_rate: u64, terms: u64, amount: Balance) -> (r: Balance)
        requires
            interest_rate * terms * amount <= Balance::MAX,
        ensures
            r == expected_interest(interest_rate, terms, amount),
    {
        let rate = interest_rate as u128;
        let t = terms as u128;
        assert(rate * t <= 0xffff_ffff_ffff_ffff_ffff_ffff_ffff_ffffu128) by (nonlinear_arith)
            requires
                rate <= 0xffff_ffff_ffff_ffffu128,
                t <= 0xffff_ffff_ffff_ffffu128,
        ;
        rate * t * amount / 100000000
    }

    /// Whether the market accepts the pair.
    pub fn is_trading_pair_allowed(&self, trading_pair: &TradingPair) -> (b: bool)
        ensures
            b == self@.trading_pairs.contains(*trading_pair),
    {
        let mut i: usize = 0;
        while i < self.trading_pairs.len()
            invariant
                i <= self.trading_pairs@.len(),
                forall|j: int| 0 <= j < i ==> self.trading_pairs@[j] != *trading_pair,
            decreases self.trading_pairs@.len() - i,
        {
            let p = self.trading_pairs[i];
            if p.collateral == trading_pair.collateral && p.borrow == trading_pair.borrow {
                assert(self.trading_pairs@[i as int] == *trading_pair);
                return true;
            }
            i = i + 1;
        }
        false
    }

    fn generate_borrow_id(&mut self) -> (id: BorrowId)
        requires
            old(self).next_borrow_id < BorrowId::MAX,
        ensures
            id == old(self)@.next_borrow_id,
            final(self)@ == (LsState { next_borrow_id: (id + 1) as BorrowId, ..old(self)@ }),
    {
        let id = self.next_borrow_id;
        self.next_borrow_id = self.next_borrow_id + 1;
        id
    }

    fn generate_loan_id(&mut self) -> (id: LoanId)
        requires
            old(self).next_loan_id < LoanId::MAX,
        ensures
            id == old(self)@.next_loan_id,
            final(self)@ == (LsState { next_loan_id: (id + 1) as LoanId, ..old(self)@ }),
    {
        let id = self.next_loan_id;
        self.next_loan_id = self.next_loan_id + 1;
        id
    }

    /// Whether the last borrow `who` listed is still alive.
    fn has_alive_borrow(&self, who: &AccountId) -> (b: bool)
        ensures
            b == self@.has_alive_borrow(*who),
    {
        let ids = self.borrow_ids_by_account_id(who);
        if ids.len() > 0 {
            contains_u128(&self.alive_borrow_ids, ids[ids.len() - 1])
        } else {
            false
        }
    }

    /// List a borrow: lock `collateral_balance` of the pair's collateral asset and ask for
    /// `borrow_options.amount` of its borrow asset.
    pub fn create_borrow(&mut self, who: AccountId, collateral_balance: Balance, trading_pair: TradingPair, borrow_options: BorrowOptions) -> (r: Result<(), DispatchError>)
        requires
            create_borrow_safe(old(self)@, who, collateral_balance, trading_pair, borrow_options),
        ensures
            (final(self)@, r) == create_borrow_spec(old(self)@, who, collateral_balance, trading_pair, borrow_options),
    {
        if !(borrow_options.terms >= self.min_borrow_terms) {
            return Err(DispatchError::LsBiding(Error::MinBorrowTerms));
        }
        if !(borrow_options.interest_rate >= self.min_borrow_interest_rate) {
            return Err(DispatchError::LsBiding(Error::MinBorrowInterestRate));
        }
        if !self.is_trading_pair_allowed(&trading_pair) {
            return Err(DispatchError::LsBiding(Error::TradingPairNotAllowed));
        }
        if self.has_alive_borrow(&who) {
            return Err(DispatchError::LsBiding(Error::MultipleAliveBorrows));
        }
        let trading_pair_prices = match self.fetch_trading_pair_prices(trading_pair.borrow, trading_pair.collateral) {
            Some(p) => p,
            None => { return Err(DispatchError::LsBiding(Error::TradingPairPriceMissing)); },
        };
        if !self.ltv_meet_safty(&trading_pair_prices, borrow_options.amount, collateral_balance) {
            return Err(DispatchError::LsBiding(Error::InitialCollateralRateFail));
        }
        let borrow_id = self.generate_borrow_id();
        let ghost s1 = self@;
        let lock_id = match self.generic_asset.reserve(&trading_pair.collateral, &who, collateral_balance) {
            Ok(id) => id,
            Err(e) => { return Err(DispatchError::GenericAsset(e)); },
        };
        let dead_after = match borrow_options.warranty {
            Some(blk_num) => Some(self.block_number.saturating_add(blk_num)),
            None => None,
        };
        let b = Borrow {
            id: borrow_id,
            lock_id,
            who,
            status: BorrowStatus::Alive,
            borrow_asset_id: trading_pair.borrow,
            collateral_asset_id: trading_pair.collateral,
            borrow_balance: borrow_options.amount,
            collateral_balance,
            terms: borrow_options.terms,
            interest_rate: borrow_options.interest_rate,
            dead_after,
            loan_id: None,
        };
        assert(b == listed_borrow(s1, borrow_id, who, collateral_balance, trading_pair, borrow_options));
        self.borrows.insert(borrow_id, b);
        self.alive_borrow_ids.push(borrow_id);
        let mut ids = self.borrow_ids_by_account_id(&who);
        ids.push(borrow_id);
        self.borrow_ids_by_account_id.insert(who, ids);
        self.deposit_event(RawEvent::BorrowListed(b));
        Ok(())
    }

    /// Unlist a borrow that is still alive, returning its collateral from reserve.
    pub fn remove_borrow(&mut self, who: AccountId, borrow_id: BorrowId) -> (r: Result<(), DispatchError>)
        requires
            remove_borrow_safe(old(self)@, who, borrow_id),
        ensures
            (final(self)@, r) == remove_borrow_spec(old(self)@, who, borrow_id),
    {
        if !self.borrows.contains_key(&borrow_id) {
            return Err(DispatchError::LsBiding(Error::UnknownBorrowId));
        }
        let ids = self.borrow_ids_by_account_id(&who);
        if !contains_u128(&ids, borrow_id) {
            return Err(DispatchError::LsBiding(Error::NotOwnerOfBorrow));
        }
        if !contains_u128(&self.alive_borrow_ids, borrow_id) {
            return Err(DispatchError::LsBiding(Error::BorrowNotAlive));
        }
        let borrow = self.borrows(borrow_id);
        match self.generic_asset.unreserve(&borrow.collateral_asset_id, &who, borrow.collateral_balance, Some(borrow.lock_id)) {
            Ok(_) => {},
            Err(e) => { return Err(DispatchError::GenericAsset(e)); },
        }
        self.alive_borrow_ids = without_u128(&self.alive_borrow_ids, borrow_id);
        self.deposit_event(RawEvent::BorrowUnlisted(borrow_id));
        Ok(())
    }

    fn transfer(&mut self, asset_id: AssetId, from: AccountId, to: AccountId, amount: Balance) -> (r: Result<(), DispatchError>)
        requires
            old(self)@.ga.transfer_fits(asset_id, from, to, amount),
        ensures
            final(self)@ == old(self)@.with_ga(transfer_spec(old(self)@.ga, asset_id, from, to, amount).0),
            r == ga_result(transfer_spec(old(self)@.ga, asset_id, from, to, amount).1),
    {
        match self.generic_asset.make_transfer_with_event(&asset_id, &from, &to, amount) {
            Ok(()) => Ok(()),
            Err(e) => Err(DispatchError::GenericAsset(e)),
        }
    }

    fn unreserve(&mut self, asset_id: AssetId, who: AccountId, amount: Balance, lock_id: Option<u128>) -> (r: Result<(), DispatchError>)
        requires
            unreserve_fits(old(self)@.ga, asset_id, who, amount, lock_id),
        ensures
            final(self)@ == old(self)@.with_ga(unreserve_spec(old(self)@.ga, asset_id, who, amount, lock_id).0),
            r == ga_result(unreserve_spec(old(self)@.ga, asset_id, who, amount, lock_id).1),
    {
        match self.generic_asset.unreserve(&asset_id, &who, amount, lock_id) {
            Ok(_) => Ok(()),
            Err(e) => Err(DispatchError::GenericAsset(e)),
        }
    }

    /// Check that a borrow can be taken, marking it dead where its time has run out.
    pub fn ensure_borrow_available(&mut self, borrow_id: BorrowId) -> (r: Result<Borrow, DispatchError>)
        ensures
            (final(self)@, r) == ensure_borrow_available_spec(old(self)@, borrow_id),
    {
        if !contains_u128(&self.alive_borrow_ids, borrow_id) {
            return Err(DispatchError::LsBiding(Error::BorrowNotAlive));
        }
        let block_number = self.block_number;
        let borrow = self.borrows(borrow_id);
        match borrow.dead_after {
            Some(d) => {
                if d <= block_number {
                    self.borrows.insert(borrow_id, Borrow { status: BorrowStatus::Dead, ..borrow });
                    self.alive_borrow_ids = without_u128(&self.alive_borrow_ids, borrow_id);
                    return Err(DispatchError::LsBiding(Error::BorrowNotAlive));
                }
            },
            None => {},
        }
        if borrow.status != BorrowStatus::Alive {
            return Err(DispatchError::LsBiding(Error::BorrowNotAlive));
        }
        Ok(borrow)
    }

    /// Lend on a listed borrow: the borrower's collateral moves to the money pool and the
    /// asked amount moves from the lender to the borrower.
    pub fn create_loan(&mut self, loaner: AccountId, borrow_id: BorrowId) -> (r: Result<(), DispatchError>)
        requires
            create_loan_safe(old(self)@, loaner, borrow_id),
        ensures
            (final(self)@, r) == create_loan_spec(old(self)@, loaner, borrow_id),
    {
        let ghost s = self@;
        let borrow = match self.ensure_borrow_available(borrow_id) {
            Ok(b) => b,
            Err(e) => { return Err(e); },
        };
        let locked_balance = self.generic_asset.locked_balance(&borrow.collateral_asset_id, &borrow.who, borrow.lock_id);
        let collateral_balance = match locked_balance {
            None => { return Err(DispatchError::LsBiding(Error::NoLockedBalance)); },
            Some(cb) => cb,
        };
        if !(self.generic_asset.free_balance(&borrow.borrow_asset_id, &loaner) >= borrow.borrow_balance) {
            return Err(DispatchError::LsBiding(Error::NotEnoughBalance));
        }
        let trading_pair_prices = match self.fetch_trading_pair_prices(borrow.borrow_asset_id, borrow.collateral_asset_id) {
            Some(p) => p,
            None => { return Err(DispatchError::LsBiding(Error::TradingPairPriceMissing)); },
        };
        if !self.ltv_meet_safty(&trading_pair_prices, borrow.borrow_balance, collateral_balance) {
            return Err(DispatchError::LsBiding(Error::InitialCollateralRateFail));
        }
        let current_block_number = self.block_number;
        let loan_id = self.generate_loan_id();
        let terms = borrow.terms as BlockNumber;
        assert(terms == borrow.terms);
        let loan = Loan {
            id: loan_id,
            borrow_id,
            borrower_id: borrow.who,
            loaner_id: loaner,
            due: current_block_number + self.days * terms,
            collateral_asset_id: borrow.collateral_asset_id,
            loan_asset_id: borrow.borrow_asset_id,
            collateral_balance,
            loan_balance: borrow.borrow_balance,
            status: LoanHealth::Well,
            interest_rate: borrow.interest_rate,
            liquidation_type: LiquidationType::JustCollateral,
        };
        assert(loan == new_loan(s, loaner, borrow_id, borrow, collateral_balance));
        self.loans.insert(loan_id, loan);
        let mut ids = self.loan_ids_by_account_id(&loaner);
        ids.push(loan_id);
        self.loan_ids_by_account_id.insert(loaner, ids);
        let mut alive = self.alive_loan_ids_by_account_id(&loaner);
        alive.push(loan_id);
        self.alive_loan_ids_by_account_id.insert(loaner, alive);
        if !contains_u64(&self.account_ids_with_loans, loaner) {
            self.account_ids_with_loans.push(loaner);
        }
        assert(self@ == loan_filed(s, loan));
        match self.unreserve(borrow.collateral_asset_id, borrow.who, collateral_balance, Some(borrow.lock_id)) {
            Ok(()) => {},
            Err(e) => { return Err(e); },
        }
        let pool = self.money_pool;
        match self.transfer(borrow.collateral_asset_id, borrow.who, pool, collateral_balance) {
            Ok(()) => {},
            Err(e) => { return Err(e); },
        }
        match self.transfer(borrow.borrow_asset_id, loaner, borrow.who, borrow.borrow_balance) {
            Ok(()) => {},
            Err(e) => { return Err(e); },
        }
        let current = self.borrows(borrow_id);
        self.borrows.insert(borrow_id, Borrow { status: BorrowStatus::Taken, loan_id: Some(loan_id), ..current });
        self.deposit_event(RawEvent::LoanCreated(loan));
        Ok(())
    }

    /// Add collateral to a borrow, and to its loan if it has one.
    pub fn add_collateral(&mut self, who: AccountId, borrow_id: BorrowId, amount: Balance) -> (r: Result<(), DispatchError>)
        requires
            add_collateral_safe(old(self)@, who, borrow_id, amount),
        ensures
            (final(self)@, r) == add_collateral_spec(old(self)@, who, borrow_id, amount),
    {
        if !self.borrows.contains_key(&borrow_id) {
            return Err(DispatchError::LsBiding(Error::UnknownBorrowId));
        }
        let borrow = self.borrows(borrow_id);
        if !(self.generic_asset.free_balance(&borrow.collateral_asset_id, &who) >= amount) {
            return Err(DispatchError::LsBiding(Error::NotEnoughBalance));
        }
        let pool = self.money_pool;
        match self.transfer(borrow.collateral_asset_id, who, pool, amount) {
            Ok(()) => {},
            Err(e) => { return Err(e); },
        }
        let current = self.borrows(borrow_id);
        self.borrows.insert(borrow_id, Borrow { collateral_balance: current.collateral_balance + amount, ..current });
        match borrow.loan_id {
            Some(l) => {
                let loan = self.loans(l);
                self.loans.insert(l, Loan { collateral_balance: loan.collateral_balance + amount, ..loan });
            },
            None => {},
        }
        self.deposit_event(RawEvent::CollateralAdded(borrow_id));
        Ok(())
    }

    fn close_loan(&mut self, loan: Loan, borrow_status: BorrowStatus, loan_status: LoanHealth)
        ensures
            final(self)@ == loan_closed(old(self)@, loan, borrow_status, loan_status),
    {
        let current = self.borrows(loan.borrow_id);
        self.borrows.insert(loan.borrow_id, Borrow { status: borrow_status, ..current });
        self.alive_borrow_ids = without_u128(&self.alive_borrow_ids, loan.borrow_id);
        let alive = self.alive_loan_ids_by_account_id(&loan.loaner_id);
        let alive = without_u128(&alive, loan.id);
        let none_left = alive.len() == 0;
        self.alive_loan_ids_by_account_id.insert(loan.loaner_id, alive);
        if none_left {
            self.account_ids_with_loans = without_u64(&self.account_ids_with_loans, loan.loaner_id);
        }
        let l = self.loans(loan.id);
        self.loans.insert(loan.id, Loan { status: loan_status, ..l });
    }

    fn repay_cleanup(&mut self, borrow: Borrow, loan: Loan)
        ensures
            final(self)@ == loan_closed(old(self)@, loan, BorrowStatus::Completed, LoanHealth::Completed),
    {
        self.close_loan(loan, BorrowStatus::Completed, LoanHealth::Completed);
    }

    fn liquidation_cleanup(&mut self, loan: Loan)
        ensures
            final(self)@ == loan_closed(old(self)@, loan, BorrowStatus::Liquidated, LoanHealth::Liquidated),
    {
        self.close_loan(loan, BorrowStatus::Liquidated, LoanHealth::Liquidated);
    }

    /// Repay the loan of one's borrow: the debt with interest goes to the lender and the
    /// collateral comes back from the money pool.
    pub fn repay_loan(&mut self, who: AccountId, borrow_id: BorrowId) -> (r: Result<(), DispatchError>)
        requires
            repay_loan_safe(old(self)@, who, borrow_id),
        ensures
            (final(self)@, r) == repay_loan_spec(old(self)@, who, borrow_id),
    {
        if !self.borrows.contains_key(&borrow_id) {
            return Err(DispatchError::LsBiding(Error::UnknownBorrowId));
        }
        let borrow = self.borrows(borrow_id);
        if borrow.who != who {
            return Err(DispatchError::LsBiding(Error::NotOwnerOfBorrow));
        }
        let loan_id = match borrow.loan_id {
            Some(l) => l,
            None => { return Err(DispatchError::LsBiding(Error::BorrowNotLoaned)); },
        };
        let trading_pair_prices = match self.fetch_trading_pair_prices(borrow.borrow_asset_id, borrow.collateral_asset_id) {
            Some(p) => p,
            None => { return Err(DispatchError::LsBiding(Error::TradingPairPriceMissing)); },
        };
        if !self.loans.contains_key(&loan_id) {
            return Err(DispatchError::LsBiding(Error::UnknownLoanId));
        }
        let loan = self.loans(loan_id);
        if loan.status != LoanHealth::Well {
            return Err(DispatchError::LsBiding(Error::LoanNotWell));
        }
        if self.ltv_meet_liquidation(&trading_pair_prices, loan.loan_balance, loan.collateral_balance) {
            let current = self.loans(loan.id);
            self.loans.insert(loan.id, Loan { status: LoanHealth::ToBeLiquidated, ..current });
            return Err(DispatchError::LsBiding(Error::ShouldBeLiquidated));
        }
        let expected_interest = Self::calculate_expected_interest(borrow.interest_rate, borrow.terms, borrow.borrow_balance);
        let need_to_pay = borrow.borrow_balance + expected_interest;
        if !(self.generic_asset.free_balance(&borrow.borrow_asset_id, &who) >= need_to_pay) {
            return Err(DispatchError::LsBiding(Error::NotEnoughBalance));
        }
        match self.transfer(borrow.borrow_asset_id, who, loan.loaner_id, need_to_pay) {
            Ok(()) => {},
            Err(e) => { return Err(e); },
        }
        let pool = self.money_pool;
        match self.transfer(borrow.collateral_asset_id, pool, who, borrow.collateral_balance) {
            Ok(()) => {},
            Err(e) => {
                match self.transfer(borrow.borrow_asset_id, loan.loaner_id, who, need_to_pay) {
                    Ok(()) => {},
                    Err(e2) => { return Err(e2); },
                }
                return Err(e);
            },
        }
        self.repay_cleanup(borrow, loan);
        self.deposit_event(RawEvent::LoanRepaid(loan_id));
        Ok(())
    }

    fn pay_out(&mut self, liquidator: AccountId, loan: Loan, loan_id: LoanId, debt_covers_collateral: bool) -> (r: Result<(), DispatchError>)
        requires
            payout_safe(old(self)@, liquidator, loan, debt_covers_collateral),
        ensures
            (final(self)@, r) == payout_spec(old(self)@, liquidator, loan, loan_id, debt_covers_collateral),
    {
        let a = loan.collateral_asset_id;
        let cb = loan.collateral_balance;
        let pool = self.money_pool;
        let loaner = loan.loaner_id;
        let to_loaner = if debt_covers_collateral {
            cb * 95 / 100
        } else {
            cb * 9 / 10
        };
        let to_liquidator = if debt_covers_collateral {
            cb - to_loaner
        } else {
            (cb - to_loaner) / 2
        };
        match self.transfer(a, pool, loaner, to_loaner) {
            Ok(()) => {},
            Err(e) => { return Err(e); },
        }
        match self.transfer(a, pool, liquidator, to_liquidator) {
            Ok(()) => {},
            Err(e) => {
                match self.transfer(a, loaner, pool, to_loaner) {
                    Ok(()) => {},
                    Err(e2) => { return Err(e2); },
                }
                return Err(e);
            },
        }
        if !debt_covers_collateral {
            let to_platform = cb - to_loaner - to_liquidator;
            let platform = self.platform;
            match self.transfer(a, pool, platform, to_platform) {
                Ok(()) => {},
                Err(e) => {
                    match self.transfer(a, liquidator, pool, to_liquidator) {
                        Ok(()) => {},
                        Err(e2) => { return Err(e2); },
                    }
                    match self.transfer(a, loaner, pool, to_loaner) {
                        Ok(()) => {},
                        Err(e3) => { return Err(e3); },
                    }
                    return Err(e);
                },
            }
        }
        self.liquidation_cleanup(loan);
        self.deposit_event(RawEvent::LoanLiquidated(loan_id));
        Ok(())
    }

    /// Liquidate a loan that is overdue, or below the liquidation ratio.
    pub fn liquidate_loan(&mut self, liquidator: AccountId, loan_id: LoanId) -> (r: Result<(), DispatchError>)
        requires
            liquidate_loan_safe(old(self)@, liquidator, loan_id),
        ensures
            (final(self)@, r) == liquidate_loan_spec(old(self)@, liquidator, loan_id),
    {
        let loan = self.loans(loan_id);
        if !(loan.status == LoanHealth::Overdue || loan.status == LoanHealth::Well || loan.status == LoanHealth::ToBeLiquidated) {
            return Err(DispatchError::LsBiding(Error::ShouldNotBeLiquidated));
        }
        let trading_pair_prices = match self.fetch_trading_pair_prices(loan.loan_asset_id, loan.collateral_asset_id) {
            Some(p) => p,
            None => { return Err(DispatchError::LsBiding(Error::TradingPairPriceMissing)); },
        };
        if loan.status != LoanHealth::Overdue {
            if !self.ltv_meet_liquidation(&trading_pair_prices, loan.loan_balance, loan.collateral_balance) {
                return Err(DispatchError::LsBiding(Error::LTVNotMeet));
            }
        }
        let borrow = self.borrows(loan.borrow_id);
        let expected_interest = Self::calculate_expected_interest(borrow.interest_rate, borrow.terms, borrow.borrow_balance);
        let need_to_pay = loan.loan_balance + expected_interest;
        let collateral_in_borrow_asset_balance = (trading_pair_prices.collateral_asset_price as u128) * loan.collateral_balance
            / (trading_pair_prices.borrow_asset_price as u128);
        match loan.liquidation_type {
            LiquidationType::SellCollateral => {
                if !(self.generic_asset.free_balance(&borrow.borrow_asset_id, &liquidator) >= need_to_pay) {
                    return Err(DispatchError::LsBiding(Error::NotEnoughBalance));
                }
                Ok(())
            },
            LiquidationType::JustCollateral => {
                self.pay_out(liquidator, loan, loan_id, need_to_pay >= collateral_in_borrow_asset_balance)
            },
        }
    }

    /// Go through all borrows currently alive and mark dead those whose time has run out.
    pub fn periodic_check_borrows(&mut self, block_number: BlockNumber)
        ensures
            final(self)@ == periodic_check_borrows_spec(old(self)@, block_number),
    {
        let ids = copy_u128s(&self.alive_borrow_ids);
        self.alive_borrow_ids = Vec::new();
        let ghost s0 = self@;
        let mut new_alives: Vec<BorrowId> = Vec::new();
        let mut i: usize = 0;
        while i < ids.len()
            invariant
                i <= ids@.len(),
                (self@, new_alives@) == check_borrows(s0, ids@.subrange(0, i as int), block_number),
            decreases ids@.len() - i,
        {
            let borrow_id = ids[i];
            assert(ids@.subrange(0, i + 1).drop_last() =~= ids@.subrange(0, i as int));
            let borrow = self.borrows(borrow_id);
            let died = match borrow.dead_after {
                Some(d) => d <= block_number,
                None => false,
            };
            if died {
                self.borrows.insert(borrow_id, Borrow { status: BorrowStatus::Dead, ..borrow });
                self.deposit_event(RawEvent::BorrowDied(borrow_id));
            } else {
                new_alives.push(borrow_id);
            }
            i = i + 1;
        }
        assert(ids@.subrange(0, ids@.len() as int) =~= ids@);
        self.alive_borrow_ids = new_alives;
    }

    /// Go through all running loans, marking for liquidation those below the
    /// liquidation ratio and overdue those past their due block.
    pub fn periodic_check_loans(&mut self, block_number: BlockNumber)
        requires
            running_loans_computable(old(self)@),
        ensures
            final(self)@ == periodic_check_loans_spec(old(self)@, block_number),
    {
        let ghost s0 = self@;
        let account_ids = copy_u64s(&self.account_ids_with_loans);
        let mut i: usize = 0;
        proof {
            lemma_same_for_checks_refl(s0);
        }
        while i < account_ids.len()
            invariant
                i <= account_ids@.len(),
                account_ids@ == s0.account_ids_with_loans,
                running_loans_computable(s0),
                self@ == check_lenders(s0, account_ids@.subrange(0, i as int), block_number),
                same_for_checks(self@, s0),
            decreases account_ids@.len() - i,
        {
            let account_id = account_ids[i];
            assert(account_ids@.subrange(0, i + 1).drop_last() =~= account_ids@.subrange(0, i as int));
            let ghost s1 = self@;
            let loan_ids = self.alive_loan_ids_by_account_id(&account_id);
            let mut j: usize = 0;
            while j < loan_ids.len()
                invariant
                    j <= loan_ids@.len(),
                    i < account_ids@.len(),
                    account_id == account_ids@[i as int],
                    account_ids@ == s0.account_ids_with_loans,
                    loan_ids@ == s1.alive_loan_ids_of(account_id),
                    same_for_checks(s1, s0),
                    running_loans_computable(s0),
                    self@ == check_loans(s1, loan_ids@.subrange(0, j as int), block_number),
                    same_for_checks(self@, s0),
                decreases loan_ids@.len() - j,
            {
                let loan_id = loan_ids[j];
                assert(loan_ids@.subrange(0, j + 1).drop_last() =~= loan_ids@.subrange(0, j as int));
                assert(loan_computable(s0, s0.alive_loan_ids_of(s0.account_ids_with_loans[i as int])[j as int]));
                let ghost before = self@;
                let loan = self.loans(loan_id);
                match self.fetch_trading_pair_prices(loan.loan_asset_id, loan.collateral_asset_id) {
                    None => {},
                    Some(trading_pair_prices) => {
                        if self.ltv_meet_liquidation(&trading_pair_prices, loan.loan_balance, loan.collateral_balance) {
                            self.loans.insert(loan_id, Loan { status: LoanHealth::ToBeLiquidated, ..loan });
                            self.deposit_event(RawEvent::LoanToBeLiquidated(loan_id));
                        } else if block_number > loan.due {
                            self.loans.insert(loan_id, Loan { status: LoanHealth::Overdue, ..loan });
                            self.deposit_event(RawEvent::LoanOverdue(loan_id));
                        }
                    },
                }
                assert(self@ == check_loan(before, loan_id, block_number));
                proof {
                    lemma_check_loan_same(before, loan_id, block_number);
                    lemma_same_for_checks_trans(self@, before, s0);
                }
                j = j + 1;
            }
            assert(loan_ids@.subrange(0, loan_ids@.len() as int) =~= loan_ids@);
            i = i + 1;
        }
        assert(account_ids@.subrange(0, account_ids@.len() as int) =~= account_ids@);
    }

    /// The end of a block: borrows are checked on even blocks not followed by a multiple of
    /// five, loans on blocks followed by a multiple of five.
    pub fn on_finalize(&mut self, block_number: BlockNumber)
        requires
            block_number < BlockNumber::MAX,
            (block_number + 1) % 5 == 0 ==> running_loans_computable(old(self)@),
        ensures
            final(self)@ == on_finalize_spec(old(self)@, block_number),
    {
        if block_number % 2 == 0 && (block_number + 1) % 5 != 0 {
            self.periodic_check_borrows(block_number);
        }
        if (block_number + 1) % 5 == 0 {
            self.periodic_check_loans(block_number);
        }
    }

    /// Move to the next block and end it.
    pub fn next_block(&mut self)
        requires
            old(self).block_number + 2 <= BlockNumber::MAX,
            (old(self).block_number + 2) % 5 == 0 ==> running_loans_computable(old(self)@),
        ensures
            final(self)@ == on_finalize_spec(
                LsState { block_number: (old(self).block_number + 1) as BlockNumber, ..old(self)@ },
                (old(self).block_number + 1) as BlockNumber,
            ),
    {
        let ghost s0 = self@;
        self.block_number = self.block_number + 1;
        let block_number = self.block_number;
        proof {
            let s1 = self@;
            if (block_number + 1) % 5 == 0 {
                assert forall|i: int, j: int|
                    0 <= i < s1.account_ids_with_loans.len() && 0 <= j < s1.alive_loan_ids_of(s1.account_ids_with_loans[i]).len()
                    implies #[trigger] loan_computable(s1, s1.alive_loan_ids_of(s1.account_ids_with_loans[i])[j]) by {
                    assert(loan_computable(s0, s0.alive_loan_ids_of(s0.account_ids_with_loans[i])[j]));
                }
            }
        }
        self.on_finalize(block_number);
    }

    /// A market with default settings and nothing listed, beside the given ledger and
    /// oracle, at block zero, with `days` blocks per day.
    pub fn new(generic_asset: crate::generic_asset::Module, oracle: crate::new_oracle::Module, days: BlockNumber) -> (m: Self)
        ensures
            m@ == initial_state(0, 0, Seq::empty(), 0, 0, 0, 0, days, generic_asset@, oracle@),
    {
        Module {
            paused: false,
            money_pool: 0,
            platform: 0,
            trading_pairs: Vec::new(),
            safe_ltv: 0,
            liquidate_ltv: 0,
            min_borrow_terms: 0,
            min_borrow_interest_rate: 0,
            next_borrow_id: 1,
            next_loan_id: 1,
            borrows: StorageMap::new(),
            borrow_ids_by_account_id: StorageMap::new(),
            alive_borrow_ids: Vec::new(),
            loans: StorageMap::new(),
            loan_ids_by_account_id: StorageMap::new(),
            alive_loan_ids_by_account_id: StorageMap::new(),
            account_ids_with_loans: Vec::new(),
            events: Vec::new(),
            days,
            block_number: 0,
            generic_asset,
            oracle,
        }
    }

    pub fn paused(&self) -> (b: bool)
        ensures
            b == self@.paused,
    {
        self.paused
    }

    pub fn money_pool(&self) -> (a: AccountId)
        ensures
            a == self@.money_pool,
    {
        self.money_pool
    }

    pub fn platform(&self) -> (a: AccountId)
        ensures
            a == self@.platform,
    {
        self.platform
    }

    pub fn trading_pairs(&self) -> (v: Vec<TradingPair>)
        ensures
            v@ == self@.trading_pairs,
    {
        let mut pairs: Vec<TradingPair> = Vec::new();
        let mut i: usize = 0;
        while i < self.trading_pairs.len()
            invariant
                i <= self.trading_pairs@.len(),
                pairs@ == self.trading_pairs@.subrange(0, i as int),
            decreases self.trading_pairs@.len() - i,
        {
            pairs.push(self.trading_pairs[i]);
            i = i + 1;
            assert(pairs@ =~= self.trading_pairs@.subrange(0, i as int));
        }
        assert(pairs@ =~= self.trading_pairs@);
        pairs
    }

    pub fn safe_ltv(&self) -> (v: u32)
        ensures
            v == self@.safe_ltv,
    {
        self.safe_ltv
    }

    pub fn liquidate_ltv(&self) -> (v: u32)
        ensures
            v == self@.liquidate_ltv,
    {
        self.liquidate_ltv
    }

    pub fn min_borrow_terms(&self) -> (v: u64)
        ensures
            v == self@.min_borrow_terms,
    {
        self.min_borrow_terms
    }

    pub fn min_borrow_interest_rate(&self) -> (v: u64)
        ensures
            v == self@.min_borrow_interest_rate,
    {
        self.min_borrow_interest_rate
    }

    pub fn next_borrow_id(&self) -> (v: BorrowId)
        ensures
            v == self@.next_borrow_id,
    {
        self.next_borrow_id
    }

    pub fn next_loan_id(&self) -> (v: LoanId)
        ensures
            v == self@.next_loan_id,
    {
        self.next_loan_id
    }

    fn set_by_root(&mut self, origin: Origin, call: Call) -> (r: Result<(), DispatchError>)
        requires
            match call {
                Call::pause | Call::resume | Call::change_platform(_) | Call::change_money_pool(_)
                | Call::change_safe_ltv(_) | Call::change_liquidate_ltv(_) | Call::change_min_borrow_terms(_)
                | Call::change_min_borrow_interest_rate(_) => true,
                _ => false,
            },
        ensures
            (final(self)@, r) == call_spec(old(self)@, origin, call),
    {
        match ensure_root(origin) {
            Ok(()) => {},
            Err(e) => { return Err(e); },
        }
        match call {
            Call::pause => { self.paused = true; },
            Call::resume => { self.paused = false; },
            Call::change_platform(a) => { self.platform = a; },
            Call::change_money_pool(a) => { self.money_pool = a; },
            Call::change_safe_ltv(v) => { self.safe_ltv = v; },
            Call::change_liquidate_ltv(v) => { self.liquidate_ltv = v; },
            Call::change_min_borrow_terms(v) => { self.min_borrow_terms = v; },
            Call::change_min_borrow_interest_rate(v) => { self.min_borrow_interest_rate = v; },
            _ => {},
        }
        Ok(())
    }

    /// Pause the market; root only.
    pub fn pause(&mut self, origin: Origin) -> (r: Result<(), DispatchError>)
        ensures
            (final(self)@, r) == call_spec(old(self)@, origin, Call::pause),
    {
        self.set_by_root(origin, Call::pause)
    }

    /// Resume the market; root only.
    pub fn resume(&mut self, origin: Origin) -> (r: Result<(), DispatchError>)
        ensures
            (final(self)@, r) == call_spec(old(self)@, origin, Call::resume),
    {
        self.set_by_root(origin, Call::resume)
    }

    /// Change the platform account; root only.
    pub fn change_platform(&mut self, origin: Origin, platform: AccountId) -> (r: Result<(), DispatchError>)
        ensures
            (final(self)@, r) == call_spec(old(self)@, origin, Call::change_platform(platform)),
    {
        self.set_by_root(origin, Call::change_platform(platform))
    }

    /// Change the money pool account; root only.
    pub fn change_money_pool(&mut self, origin: Origin, pool: AccountId) -> (r: Result<(), DispatchError>)
        ensures
            (final(self)@, r) == call_spec(old(self)@, origin, Call::change_money_pool(pool)),
    {
        self.set_by_root(origin, Call::change_money_pool(pool))
    }

    /// Change the safe ratio; root only.
    pub fn change_safe_ltv(&mut self, origin: Origin, ltv: u32) -> (r: Result<(), DispatchError>)
        ensures
            (final(self)@, r) == call_spec(old(self)@, origin, Call::change_safe_ltv(ltv)),
    {
        self.set_by_root(origin, Call::change_safe_ltv(ltv))
    }

    /// Change the liquidation ratio; root only.
    pub fn change_liquidate_ltv(&mut self, origin: Origin, ltv: u32) -> (r: Result<(), DispatchError>)
        ensures
            (final(self)@, r) == call_spec(old(self)@, origin, Call::change_liquidate_ltv(ltv)),
    {
        self.set_by_root(origin, Call::change_liquidate_ltv(ltv))
    }

    /// Change the minimum borrow terms; root only.
    pub fn change_min_borrow_terms(&mut self, origin: Origin, t: u64) -> (r: Result<(), DispatchError>)
        ensures
            (final(self)@, r) == call_spec(old(self)@, origin, Call::change_min_borrow_terms(t)),
    {
        self.set_by_root(origin, Call::change_min_borrow_terms(t))
    }

    /// Change the minimum interest rate; root only.
    pub fn change_min_borrow_interest_rate(&mut self, origin: Origin, r: u64) -> (res: Result<(), DispatchError>)
        ensures
            (final(self)@, res) == call_spec(old(self)@, origin, Call::change_min_borrow_interest_rate(r)),
    {
        self.set_by_root(origin, Call::change_min_borrow_interest_rate(r))
    }

    /// List a borrow.
    pub fn list_borrow(&mut self, origin: Origin, collateral_balance: Balance, trading_pair: TradingPair, borrow_options: BorrowOptions) -> (r: Result<(), DispatchError>)
        requires
            call_safe(old(self)@, origin, Call::list_borrow(collateral_balance, trading_pair, borrow_options)),
        ensures
            (final(self)@, r) == call_spec(old(self)@, origin, Call::list_borrow(collateral_balance, trading_pair, borrow_options)),
    {
        if self.paused {
            return Err(DispatchError::LsBiding(Error::Paused));
        }
        let who = match ensure_signed(origin) {
            Ok(w) => w,
            Err(e) => { return Err(e); },
        };
        self.create_borrow(who, collateral_balance, trading_pair, borrow_options)
    }

    /// Unlist one's borrow.
    pub fn unlist_borrow(&mut self, origin: Origin, borrow_id: BorrowId) -> (r: Result<(), DispatchError>)
        requires
            call_safe(old(self)@, origin, Call::unlist_borrow(borrow_id)),
        ensures
            (final(self)@, r) == call_spec(old(self)@, origin, Call::unlist_borrow(borrow_id)),
    {
        if self.paused {
            return Err(DispatchError::LsBiding(Error::Paused));
        }
        let who = match ensure_signed(origin) {
            Ok(w) => w,
            Err(e) => { return Err(e); },
        };
        self.remove_borrow(who, borrow_id)
    }

    /// Lend on a listed borrow.
    pub fn lend(&mut self, origin: Origin, borrow_id: BorrowId) -> (r: Result<(), DispatchError>)
        requires
            call_safe(old(self)@, origin, Call::lend(borrow_id)),
        ensures
            (final(self)@, r) == call_spec(old(self)@, origin, Call::lend(borrow_id)),
    {
        if self.paused {
            return Err(DispatchError::LsBiding(Error::Paused));
        }
        let who = match ensure_signed(origin) {
            Ok(w) => w,
            Err(e) => { return Err(e); },
        };
        self.create_loan(who, borrow_id)
    }

    /// Liquidate a loan.
    pub fn liquidate(&mut self, origin: Origin, loan_id: LoanId) -> (r: Result<(), DispatchError>)
        requires
            call_safe(old(self)@, origin, Call::liquidate(loan_id)),
        ensures
            (final(self)@, r) == call_spec(old(self)@, origin, Call::liquidate(loan_id)),
    {
        if self.paused {
            return Err(DispatchError::LsBiding(Error::Paused));
        }
        let who = match ensure_signed(origin) {
            Ok(w) => w,
            Err(e) => { return Err(e); },
        };
        self.liquidate_loan(who, loan_id)
    }

    /// Add collateral to a borrow.
    pub fn add(&mut self, origin: Origin, borrow_id: BorrowId, amount: Balance) -> (r: Result<(), DispatchError>)
        requires
            call_safe(old(self)@, origin, Call::add_collateral(borrow_id, amount)),
        ensures
            (final(self)@, r) == call_spec(old(self)@, origin, Call::add_collateral(borrow_id, amount)),
    {
        if self.paused {
            return Err(DispatchError::LsBiding(Error::Paused));
        }
        let who = match ensure_signed(origin) {
            Ok(w) => w,
            Err(e) => { return Err(e); },
        };
        self.add_collateral(who, borrow_id, amount)
    }

    /// Repay the loan of one's borrow.
    pub fn repay(&mut self, origin: Origin, borrow_id: BorrowId) -> (r: Result<(), DispatchError>)
        requires
            call_safe(old(self)@, origin, Call::repay(borrow_id)),
        ensures
            (final(self)@, r) == call_spec(old(self)@, origin, Call::repay(borrow_id)),
    {
        if self.paused {
            return Err(DispatchError::LsBiding(Error::Paused));
        }
        let who = match ensure_signed(origin) {
            Ok(w) => w,
            Err(e) => { return Err(e); },
        };
        self.repay_loan(who, borrow_id)
    }

    /// Dispatch a call from an origin.
    pub fn dispatch(&mut self, call: Call, origin: Origin) -> (r: Result<(), DispatchError>)
        requires
            call_safe(old(self)@, origin, call),
        ensures
            (final(self)@, r) == call_spec(old(self)@, origin, call),
    {
        match call {
            Call::pause => self.pause(origin),
            Call::resume => self.resume(origin),
            Call::change_platform(a) => self.change_platform(origin, a),
            Call::change_money_pool(a) => self.change_money_pool(origin, a),
            Call::change_safe_ltv(v) => self.change_safe_ltv(origin, v),
            Call::change_liquidate_ltv(v) => self.change_liquidate_ltv(origin, v),
            Call::change_min_borrow_terms(v) => self.change_min_borrow_terms(origin, v),
            Call::change_min_borrow_interest_rate(v) => self.change_min_borrow_interest_rate(origin, v),
            Call::list_borrow(c, tp, o) => self.list_borrow(origin, c, tp, o),
            Call::unlist_borrow(id) => self.unlist_borrow(origin, id),
            Call::lend(id) => self.lend(origin, id),
            Call::liquidate(id) => self.liquidate(origin, id),
            Call::add_collateral(id, amount) => self.add(origin, id, amount),
            Call::repay(id) => self.repay(origin, id),
        }
    }
}

impl Error {
    /// The error's index among the market's errors.
    pub open spec fn spec_index(self) -> u8 {
        match self {
            Error::Paused => 0,
            Error::MinBorrowTerms => 1,
            Error::MinBorrowInterestRate => 2,
            Error::CanNotReserve => 3,
            Error::MultipleAliveBorrows => 4,
            Error::BorrowNotAlive => 5,
            Error::TradingPairNotAllowed => 6,
            Error::NotOwnerOfBorrow => 7,
            Error::UnknownBorrowId => 8,
            Error::UnknownLoanId => 9,
            Error::NoLockedBalance => 10,
            Error::InitialCollateralRateFail => 11,
            Error::NotEnoughBalance => 12,
            Error::TradingPairPriceMissing => 13,
            Error::BorrowNotLoaned => 14,
            Error::LTVNotMeet => 15,
            Error::ShouldNotBeLiquidated => 16,
            Error::ShouldBeLiquidated => 17,
            Error::LoanNotWell => 18,
        }
    }

    /// The error's index among the market's errors.
    pub fn as_u8(&self) -> (i: u8)
        ensures
            i == self.spec_index(),
    {
        match *self {
            Error::Paused => 0,
            Error::MinBorrowTerms => 1,
            Error::MinBorrowInterestRate => 2,
            Error::CanNotReserve => 3,
            Error::MultipleAliveBorrows => 4,
            Error::BorrowNotAlive => 5,
            Error::TradingPairNotAllowed => 6,
            Error::NotOwnerOfBorrow => 7,
            Error::UnknownBorrowId => 8,
            Error::UnknownLoanId => 9,
            Error::NoLockedBalance => 10,
            Error::InitialCollateralRateFail => 11,
            Error::NotEnoughBalance => 12,
            Error::TradingPairPriceMissing => 13,
            Error::BorrowNotLoaned => 14,
            Error::LTVNotMeet => 15,
            Error::ShouldNotBeLiquidated => 16,
            Error::ShouldBeLiquidated => 17,
            Error::LoanNotWell => 18,
        }
    }

    /// The error's name.
    pub fn as_str(&self) -> (s: &'static str)
        ensures
            s@ == (match *self {
            Error::Paused => "Paused"@,
            Error::MinBorrowTerms => "MinBorrowTerms"@,
            Error::MinBorrowInterestRate => "MinBorrowInterestRate"@,
            Error::CanNotReserve => "CanNotReserve"@,
            Error::MultipleAliveBorrows => "MultipleAliveBorrows"@,
            Error::BorrowNotAlive => "BorrowNotAlive"@,
            Error::TradingPairNotAllowed => "TradingPairNotAllowed"@,
            Error::NotOwnerOfBorrow => "NotOwnerOfBorrow"@,
            Error::UnknownBorrowId => "UnknownBorrowId"@,
            Error::UnknownLoanId => "UnknownLoanId"@,
            Error::NoLockedBalance => "NoLockedBalance"@,
            Error::InitialCollateralRateFail => "InitialCollateralRateFail"@,
            Error::NotEnoughBalance => "NotEnoughBalance"@,
            Error::TradingPairPriceMissing => "TradingPairPriceMissing"@,
            Error::BorrowNotLoaned => "BorrowNotLoaned"@,
            Error::LTVNotMeet => "LTVNotMeet"@,
            Error::ShouldNotBeLiquidated => "ShouldNotBeLiquidated"@,
            Error::ShouldBeLiquidated => "ShouldBeLiquidated"@,
            Error::LoanNotWell => "LoanNotWell"@,
            }),
    {
        match *self {
            Error::Paused => "Paused",
            Error::MinBorrowTerms => "MinBorrowTerms",
            Error::MinBorrowInterestRate => "MinBorrowInterestRate",
            Error::CanNotReserve => "CanNotReserve",
            Error::MultipleAliveBorrows => "MultipleAliveBorrows",
            Error::BorrowNotAlive => "BorrowNotAlive",
            Error::TradingPairNotAllowed => "TradingPairNotAllowed",
            Error::NotOwnerOfBorrow => "NotOwnerOfBorrow",
            Error::UnknownBorrowId => "UnknownBorrowId",
            Error::UnknownLoanId => "UnknownLoanId",
            Error::NoLockedBalance => "NoLockedBalance",
            Error::InitialCollateralRateFail => "InitialCollateralRateFail",
            Error::NotEnoughBalance => "NotEnoughBalance",
            Error::TradingPairPriceMissing => "TradingPairPriceMissing",
            Error::BorrowNotLoaned => "BorrowNotLoaned",
            Error::LTVNotMeet => "LTVNotMeet",
            Error::ShouldNotBeLiquidated => "ShouldNotBeLiquidated",
            Error::ShouldBeLiquidated => "ShouldBeLiquidated",
            Error::LoanNotWell => "LoanNotWell",
        }
    }
}

impl Call {
    /// The name of the call.
    pub fn get_call_name(&self) -> (s: &'static str)
        ensures
            s@ == (match *self {
            Call::pause => "pause"@,
            Call::resume => "resume"@,
            Call::change_platform(_) => "change_platform"@,
            Call::change_money_pool(_) => "change_money_pool"@,
            Call::change_safe_ltv(_) => "change_safe_ltv"@,
            Call::change_liquidate_ltv(_) => "change_liquidate_ltv"@,
            Call::change_min_borrow_terms(_) => "change_min_borrow_terms"@,
            Call::change_min_borrow_interest_rate(_) => "change_min_borrow_interest_rate"@,
            Call::list_borrow(_, _, _) => "list_borrow"@,
            Call::unlist_borrow(_) => "unlist_borrow"@,
            Call::lend(_) => "lend"@,
            Call::liquidate(_) => "liquidate"@,
            Call::add_collateral(_, _) => "add"@,
            Call::repay(_) => "repay"@,
            }),
    {
        match *self {
            Call::pause => "pause",
            Call::resume => "resume",
            Call::change_platform(_) => "change_platform",
            Call::change_money_pool(_) => "change_money_pool",
            Call::change_safe_ltv(_) => "change_safe_ltv",
            Call::change_liquidate_ltv(_) => "change_liquidate_ltv",
            Call::change_min_borrow_terms(_) => "change_min_borrow_terms",
            Call::change_min_borrow_interest_rate(_) => "change_min_borrow_interest_rate",
            Call::list_borrow(_, _, _) => "list_borrow",
            Call::unlist_borrow(_) => "unlist_borrow",
            Call::lend(_) => "lend",
            Call::liquidate(_) => "liquidate",
            Call::add_collateral(_, _) => "add",
            Call::repay(_) => "repay",
        }
    }

    /// The names of all calls, in declaration order.
    pub fn get_call_names() -> (v: Vec<&'static str>)
        ensures
            v@.map_values(|s: &'static str| s@) == seq!["pause"@, "resume"@, "change_platform"@, "change_money_pool"@, "change_safe_ltv"@, "change_liquidate_ltv"@, "change_min_borrow_terms"@, "change_min_borrow_interest_rate"@, "list_borrow"@, "unlist_borrow"@, "lend"@, "liquidate"@, "add"@, "repay"@],
    {
        let mut v: Vec<&'static str> = Vec::new();
        v.push("pause");
        v.push("resume");
        v.push("change_platform");
        v.push("change_money_pool");
        v.push("change_safe_ltv");
        v.push("change_liquidate_ltv");
        v.push("change_min_borrow_terms");
        v.push("change_min_borrow_interest_rate");
        v.push("list_borrow");
        v.push("unlist_borrow");
        v.push("lend");
        v.push("liquidate");
        v.push("add");
        v.push("repay");
        assert(v@.map_values(|s: &'static str| s@) =~= seq!["pause"@, "resume"@, "change_platform"@, "change_money_pool"@, "change_safe_ltv"@, "change_liquidate_ltv"@, "change_min_borrow_terms"@, "change_min_borrow_interest_rate"@, "list_borrow"@, "unlist_borrow"@, "lend"@, "liquidate"@, "add"@, "repay"@]);
        v
    }
}

impl Default for GenesisConfig {
    fn default() -> (c: Self)
        ensures
            c.money_pool == 0,
            c.platform == 0,
            c.trading_pairs@.len() == 0,
            c.safe_ltv == 0,
            c.liquidate_ltv == 0,
            c.min_borrow_terms == 0,
            c.min_borrow_interest_rate == 0,
    {
        GenesisConfig {
            money_pool: 0,
            platform: 0,
            trading_pairs: Vec::new(),
            safe_ltv: 0,
            liquidate_ltv: 0,
            min_borrow_terms: 0,
            min_borrow_interest_rate: 0,
        }
    }
}

} // verus!
