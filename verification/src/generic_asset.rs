//! The multi-asset ledger: issuance, free and reserved balances per account,
//! per-asset permissions, and the locks that back reserved balances.
use vstd::prelude::*;
use crate::dispatch::{
    ensure_root, ensure_signed, AccountId, AssetId, Balance, DispatchError, Origin,
};
use crate::hashing::{generic_asset_lock_identifier, lock_identifier_of};
use crate::genesis::{endow, endowed, genesis_issuance, issuance, issue, issued};
use crate::storage::{map_of, StorageMap};

verus! {

/// The identifier of a list of locks.
pub type LockIdentifier = [u8; 8];

/// Owner of an asset.
#[derive(Clone, Copy, Debug, PartialEq, Eq, Structural)]
pub enum Owner {
    /// No owner.
    Nobody,
    /// Owned by an account.
    Address(AccountId),
}

impl Default for Owner {
    fn default() -> (o: Self)
        ensures
            o == Owner::Nobody,
    {
        Owner::Nobody
    }
}

/// Who may update the permissions, mint and burn an asset.
#[derive(Clone, Copy, Debug, PartialEq, Eq, Structural)]
pub struct PermissionsV1 {
    pub update: Owner,
    pub mint: Owner,
    pub burn: Owner,
}

/// The latest layout of asset permissions.
pub type PermissionLatest = PermissionsV1;

impl Default for PermissionsV1 {
    fn default() -> (p: Self)
        ensures
            p == no_permissions(),
    {
        PermissionsV1 { update: Owner::Nobody, mint: Owner::Nobody, burn: Owner::Nobody }
    }
}

/// Permissions that name no owner at all.
pub open spec fn no_permissions() -> PermissionsV1 {
    PermissionsV1 { update: Owner::Nobody, mint: Owner::Nobody, burn: Owner::Nobody }
}

/// Versioned asset permissions, as stored.
#[derive(Clone, Copy, Debug, PartialEq, Eq, Structural)]
pub enum PermissionVersions {
    V1(PermissionsV1),
}

impl View for PermissionVersions {
    type V = PermissionVersions;

    open spec fn view(&self) -> PermissionVersions {
        *self
    }
}

impl Default for PermissionVersions {
    fn default() -> (p: Self)
        ensures
            p == PermissionVersions::V1(no_permissions()),
    {
        PermissionVersions::V1(PermissionsV1::default())
    }
}

impl PermissionVersions {
    /// The permissions in their latest layout.
    pub open spec fn latest_spec(self) -> PermissionsV1 {
        match self {
            PermissionVersions::V1(p) => p,
        }
    }

    /// The permissions in their latest layout.
    pub fn latest(self) -> (p: PermissionsV1)
        ensures
            p == self.latest_spec(),
    {
        match self {
            PermissionVersions::V1(p) => p,
        }
    }
}

impl PermissionsV1 {
    /// These permissions under the current version tag.
    pub fn versioned(self) -> (v: PermissionVersions)
        ensures
            v == PermissionVersions::V1(self),
    {
        PermissionVersions::V1(self)
    }
}

/// The kinds of permission an asset has.
#[derive(Clone, Copy, Debug, PartialEq, Eq, Structural)]
pub enum PermissionType {
    Burn,
    Mint,
    Update,
}

/// Asset creation options.
#[derive(Clone, Copy, Debug, PartialEq, Eq, Structural)]
pub struct AssetOptions {
    /// Initial issuance of this asset, all credited to the creator.
    pub initial_issuance: Balance,
    /// Which accounts may update, mint and burn the asset.
    pub permissions: PermissionLatest,
}

/// The reasons a withdrawal is made, as a set of flags.
#[derive(Clone, Copy, Debug, PartialEq, Eq, Structural)]
pub struct WithdrawReasons {
    pub bits: u8,
}

impl WithdrawReasons {
    /// Paying a transaction fee.
    pub open spec fn spec_transaction_payment() -> u8 {
        1
    }

    /// A transfer.
    pub open spec fn spec_transfer() -> u8 {
        2
    }

    /// Moving funds into reserve.
    pub open spec fn spec_reserve() -> u8 {
        4
    }

    /// The set that holds only `Reserve`.
    pub fn reserve() -> (r: Self)
        ensures
            r.bits == Self::spec_reserve(),
    {
        WithdrawReasons { bits: 4 }
    }

    /// The set that holds only `Transfer`.
    pub fn transfer() -> (r: Self)
        ensures
            r.bits == Self::spec_transfer(),
    {
        WithdrawReasons { bits: 2 }
    }

    /// Whether the two sets share a reason.
    pub fn intersects(&self, other: &Self) -> (b: bool)
        ensures
            b == (self.bits & other.bits != 0),
    {
        self.bits & other.bits != 0
    }

    /// The union of the two sets.
    pub fn union(&self, other: &Self) -> (r: Self)
        ensures
            r.bits == self.bits | other.bits,
    {
        WithdrawReasons { bits: self.bits | other.bits }
    }
}

/// A lock on some balance of an account.
#[derive(Clone, Copy, Debug, PartialEq, Eq, Structural)]
pub struct BalanceLock {
    pub id: u128,
    pub asset_id: AssetId,
    pub amount: Balance,
    pub reasons: WithdrawReasons,
}

/// Errors of the ledger.
#[derive(Clone, Copy, Debug, PartialEq, Eq, Structural)]
pub enum Error {
    /// No new asset id available.
    NoIdAvailable,
    /// Cannot transfer zero amount.
    ZeroAmount,
    /// The origin does not have permission to update permissions.
    NoUpdatePermission,
    /// The origin does not have permission to mint an asset.
    NoMintPermission,
    /// The origin does not have permission to burn an asset.
    NoBurnPermission,
    /// Total issuance got overflowed after minting.
    TotalMintingOverflow,
    /// Free balance got overflowed after minting.
    FreeMintingOverflow,
    /// Total issuance got underflowed after burning.
    TotalBurningUnderflow,
    /// Free balance got underflowed after burning.
    FreeBurningUnderflow,
    /// Asset id is already taken.
    IdAlreadyTaken,
    /// Asset id not available.
    IdUnavailable,
    /// The balance is too low to send amount.
    InsufficientBalance,
    /// The account liquidity restrictions prevent withdrawal.
    LiquidityRestrictions,
    /// The reserved balance is too low.
    InsufficientReservedBalance,
    /// The exact lock of the balance amount is not found.
    NoSuchLock,
    /// Lock id is unknown.
    MissingLock,
    /// No lock meets the required amount.
    NoLockMeetRequirement,
}

/// Events of the ledger.
#[derive(Clone, Copy, Debug, PartialEq, Eq, Structural)]
pub enum RawEvent {
    /// Asset created (asset_id, creator, asset_options).
    Created(AssetId, AccountId, AssetOptions),
    /// Asset transfer succeeded (asset_id, from, to, amount).
    Transferred(AssetId, AccountId, AccountId, Balance),
    /// Asset permission updated (asset_id, new_permissions).
    PermissionUpdated(AssetId, PermissionLatest),
    /// New asset minted (asset_id, account, amount).
    Minted(AssetId, AccountId, Balance),
    /// Asset burned (asset_id, account, amount).
    Burned(AssetId, AccountId, Balance),
    /// Balance moved into reserve under a lock (asset_id, account, amount, lock_id).
    Reserved(AssetId, AccountId, Balance, u128),
    /// Balance moved out of reserve, releasing a lock (asset_id, account, amount, lock_id).
    Unreserved(AssetId, AccountId, Balance, u128),
}

/// The value stored under `k`, or zero where nothing is.
pub open spec fn balance_at<K>(m: Map<K, Balance>, k: K) -> Balance {
    if m.contains_key(k) {
        m[k]
    } else {
        0
    }
}

/// The abstract state of the ledger.
pub struct GenericAssetState {
    pub total_issuance: Map<AssetId, Balance>,
    pub free_balance: Map<(AssetId, AccountId), Balance>,
    pub reserved_balance: Map<(AssetId, AccountId), Balance>,
    pub symbols: Map<AssetId, Seq<u8>>,
    pub next_asset_id: AssetId,
    pub permissions: Map<AssetId, PermissionVersions>,
    pub next_lock_id: u128,
    pub locks: Map<(Seq<u8>, AccountId), Seq<BalanceLock>>,
    pub sudo_key: AccountId,
    pub events: Seq<RawEvent>,
}

impl GenericAssetState {
    pub open spec fn total(self, a: AssetId) -> Balance {
        balance_at(self.total_issuance, a)
    }

    pub open spec fn free(self, a: AssetId, x: AccountId) -> Balance {
        balance_at(self.free_balance, (a, x))
    }

    pub open spec fn reserved(self, a: AssetId, x: AccountId) -> Balance {
        balance_at(self.reserved_balance, (a, x))
    }

    /// The permissions of an asset, the default where none are stored.
    pub open spec fn permission(self, a: AssetId) -> PermissionsV1 {
        if self.permissions.contains_key(a) {
            self.permissions[a].latest_spec()
        } else {
            no_permissions()
        }
    }

    /// The locks of an account under an identifier, empty where none are stored.
    pub open spec fn locks_of(self, idf: Seq<u8>, x: AccountId) -> Seq<BalanceLock> {
        if self.locks.contains_key((idf, x)) {
            self.locks[(idf, x)]
        } else {
            Seq::empty()
        }
    }

    /// Whether `who` holds the permission `what` on asset `a`.
    pub open spec fn has_permission(self, a: AssetId, who: AccountId, what: PermissionType) -> bool {
        let p = self.permission(a);
        match what {
            PermissionType::Burn => p.burn == Owner::Address(who),
            PermissionType::Mint => p.mint == Owner::Address(who),
            PermissionType::Update => p.update == Owner::Address(who),
        }
    }

    pub open spec fn with_free(self, a: AssetId, x: AccountId, v: Balance) -> Self {
        GenericAssetState { free_balance: self.free_balance.insert((a, x), v), ..self }
    }

    pub open spec fn with_reserved(self, a: AssetId, x: AccountId, v: Balance) -> Self {
        GenericAssetState { reserved_balance: self.reserved_balance.insert((a, x), v), ..self }
    }

    pub open spec fn with_total(self, a: AssetId, v: Balance) -> Self {
        GenericAssetState { total_issuance: self.total_issuance.insert(a, v), ..self }
    }

    pub open spec fn with_locks(self, idf: Seq<u8>, x: AccountId, s: Seq<BalanceLock>) -> Self {
        GenericAssetState { locks: self.locks.insert((idf, x), s), ..self }
    }

    pub open spec fn emit(self, e: RawEvent) -> Self {
        GenericAssetState { events: self.events.push(e), ..self }
    }


    pub open spec fn with_permission(self, a: AssetId, p: PermissionVersions) -> Self {
        GenericAssetState { permissions: self.permissions.insert(a, p), ..self }
    }

    pub open spec fn with_symbol(self, a: AssetId, sym: Seq<u8>) -> Self {
        GenericAssetState { symbols: self.symbols.insert(a, sym), ..self }
    }

    pub open spec fn with_next_asset_id(self, id: AssetId) -> Self {
        GenericAssetState { next_asset_id: id, ..self }
    }

    pub open spec fn with_next_lock_id(self, id: u128) -> Self {
        GenericAssetState { next_lock_id: id, ..self }
    }

    /// The state after an asset `id` is created for `owner` with `options`.
    pub open spec fn created(self, id: AssetId, owner: AccountId, options: AssetOptions) -> Self {
        self.with_total(id, options.initial_issuance)
            .with_free(id, owner, options.initial_issuance)
            .with_permission(id, PermissionVersions::V1(options.permissions))
            .emit(RawEvent::Created(id, owner, options))
    }

    /// The state after a lock of `amount` is set on `who` for asset `a`.
    pub open spec fn locked(self, a: AssetId, who: AccountId, amount: Balance, reasons: WithdrawReasons) -> Self {
        let idf = lock_identifier_of(a);
        let lock = BalanceLock { id: self.next_lock_id, asset_id: a, amount, reasons };
        self.with_next_lock_id((self.next_lock_id + 1) as u128)
            .with_locks(idf, who, self.locks_of(idf, who).push(lock))
    }

    /// The state after the first lock with the id is removed, where there is one.
    pub open spec fn unlocked(self, idf: Seq<u8>, who: AccountId, id: u128) -> Self {
        if has_lock_id(self.locks_of(idf, who), id) {
            self.with_locks(idf, who, without_lock(self.locks_of(idf, who), id))
        } else {
            self
        }
    }

    /// The state after `amount` of `a` moves from free into reserve under a new lock.
    pub open spec fn reserved_under_lock(self, a: AssetId, who: AccountId, amount: Balance) -> Self {
        self.with_reserved(a, who, (self.reserved(a, who) + amount) as Balance)
            .with_free(a, who, (self.free(a, who) - amount) as Balance)
            .locked(a, who, amount, WithdrawReasons { bits: WithdrawReasons::spec_reserve() })
            .emit(RawEvent::Reserved(a, who, amount, self.next_lock_id))
    }

    /// The state after `amount` of `a` moves from reserve back to free, releasing lock `id`.
    pub open spec fn released(self, a: AssetId, who: AccountId, amount: Balance, id: u128) -> Self {
        let s1 = self.unlocked(lock_identifier_of(a), who, id);
        s1.with_free(a, who, (s1.free(a, who) + amount) as Balance)
            .with_reserved(a, who, (self.reserved(a, who) - amount) as Balance)
            .emit(RawEvent::Unreserved(a, who, amount, id))
    }

    /// The state after a transfer that passed its balance check: nothing moves
    /// when sender and receiver are the same account.
    pub open spec fn transferred(self, a: AssetId, from: AccountId, to: AccountId, amount: Balance) -> Self {
        if from == to {
            self
        } else {
            let s1 = self.with_free(a, from, (self.free(a, from) - amount) as Balance);
            s1.with_free(a, to, (s1.free(a, to) + amount) as Balance)
        }
    }

    /// A transfer that passed its balance check does not overflow the receiver.
    pub open spec fn transfer_fits(self, a: AssetId, from: AccountId, to: AccountId, amount: Balance) -> bool {
        self.free(a, from) >= amount && from != to ==> self.free(a, to) + amount <= Balance::MAX
    }

    /// Every lock carries an id below the next one to be handed out.
    pub open spec fn lock_ids_below_next(self) -> bool {
        forall|k: (Seq<u8>, AccountId), i: int|
            #![trigger self.locks[k][i]]
            self.locks.contains_key(k) && 0 <= i < self.locks[k].len() ==> self.locks[k][i].id
                < self.next_lock_id
    }
}


/// Whether some lock in `s` carries the id.
pub open spec fn has_lock_id(s: Seq<BalanceLock>, id: u128) -> bool {
    exists|i: int| 0 <= i < s.len() && s[i].id == id
}

/// `i` is the position of the first lock in `s` that carries the id.
pub open spec fn is_first_with_id(s: Seq<BalanceLock>, id: u128, i: int) -> bool {
    &&& 0 <= i < s.len()
    &&& s[i].id == id
    &&& forall|j: int| 0 <= j < i ==> s[j].id != id
}

/// The position of the first lock that carries the id.
pub open spec fn first_with_id(s: Seq<BalanceLock>, id: u128) -> int {
    choose|i: int| is_first_with_id(s, id, i)
}

/// Whether some lock in `s` locks exactly `amount`.
pub open spec fn has_lock_amount(s: Seq<BalanceLock>, amount: Balance) -> bool {
    exists|i: int| 0 <= i < s.len() && s[i].amount == amount
}

/// `i` is the position of the first lock in `s` that locks exactly `amount`.
pub open spec fn is_first_with_amount(s: Seq<BalanceLock>, amount: Balance, i: int) -> bool {
    &&& 0 <= i < s.len()
    &&& s[i].amount == amount
    &&& forall|j: int| 0 <= j < i ==> s[j].amount != amount
}

/// The position of the first lock that locks exactly `amount`.
pub open spec fn first_with_amount(s: Seq<BalanceLock>, amount: Balance) -> int {
    choose|i: int| is_first_with_amount(s, amount, i)
}

/// The locks with the first one that carries the id taken out.
pub open spec fn without_lock(s: Seq<BalanceLock>, id: u128) -> Seq<BalanceLock> {
    if has_lock_id(s, id) {
        s.remove(first_with_id(s, id))
    } else {
        s
    }
}

/// The lock that an unreserve releases: the given id if some lock carries it,
/// else, where no id is given, the id of the first lock of exactly that amount.
pub open spec fn unreserve_lock(s: Seq<BalanceLock>, amount: Balance, lock_id: Option<u128>) -> Option<u128> {
    match lock_id {
        Some(id) => if has_lock_id(s, id) {
            Some(id)
        } else {
            None
        },
        None => if has_lock_amount(s, amount) {
            Some(s[first_with_amount(s, amount)].id)
        } else {
            None
        },
    }
}

/// A lock found at a first position is the one `first_with_id` names.
pub proof fn lemma_first_with_id(s: Seq<BalanceLock>, id: u128, i: int)
    requires
        is_first_with_id(s, id, i),
    ensures
        has_lock_id(s, id),
        first_with_id(s, id) == i,
{
    let k = first_with_id(s, id);
    assert(is_first_with_id(s, id, k));
    if k < i {
        assert(s[k].id != id);
    }
    if k > i {
        assert(s[i].id != id);
    }
}

/// A lock found at a first position is the one `first_with_amount` names.
pub proof fn lemma_first_with_amount(s: Seq<BalanceLock>, amount: Balance, i: int)
    requires
        is_first_with_amount(s, amount, i),
    ensures
        has_lock_amount(s, amount),
        first_with_amount(s, amount) == i,
{
    let k = first_with_amount(s, amount);
    assert(is_first_with_amount(s, amount, k));
    if k < i {
        assert(s[k].amount != amount);
    }
    if k > i {
        assert(s[i].amount != amount);
    }
}

/// Where some lock carries the id, a first one does.
pub proof fn lemma_has_first_with_id(s: Seq<BalanceLock>, id: u128)
    requires
        has_lock_id(s, id),
    ensures
        is_first_with_id(s, id, first_with_id(s, id)),
    decreases s.len(),
{
    if s[0].id == id {
        assert(is_first_with_id(s, id, 0));
    } else {
        let t = s.drop_first();
        let w = choose|i: int| 0 <= i < s.len() && s[i].id == id;
        assert(t[w - 1].id == id);
        lemma_has_first_with_id(t, id);
        let k = first_with_id(t, id);
        assert forall|j: int| 0 <= j < k + 1 implies s[j].id != id by {
            if j > 0 {
                assert(s[j] == t[j - 1]);
            }
        }
        assert(is_first_with_id(s, id, k + 1));
    }
}


/// What minting does to the ledger and what it returns.
pub open spec fn mint_spec(g: GenericAssetState, a: AssetId, who: AccountId, to: AccountId, amount: Balance) -> (GenericAssetState, Result<(), Error>) {
    if !g.has_permission(a, who, PermissionType::Mint) {
        (g, Err(Error::NoMintPermission))
    } else if g.total(a) + amount > Balance::MAX {
        (g, Err(Error::TotalMintingOverflow))
    } else if g.free(a, to) + amount > Balance::MAX {
        (g, Err(Error::FreeMintingOverflow))
    } else {
        (g.with_total(a, (g.total(a) + amount) as Balance).with_free(a, to, (g.free(a, to) + amount) as Balance), Ok(()))
    }
}

/// What burning does to the ledger and what it returns.
pub open spec fn burn_spec(g: GenericAssetState, a: AssetId, who: AccountId, to: AccountId, amount: Balance) -> (GenericAssetState, Result<(), Error>) {
    if !g.has_permission(a, who, PermissionType::Burn) {
        (g, Err(Error::NoBurnPermission))
    } else if g.total(a) < amount {
        (g, Err(Error::TotalBurningUnderflow))
    } else if g.free(a, to) < amount {
        (g, Err(Error::FreeBurningUnderflow))
    } else {
        (g.with_total(a, (g.total(a) - amount) as Balance).with_free(a, to, (g.free(a, to) - amount) as Balance), Ok(()))
    }
}

/// What the `mint` call does to the ledger and what it returns.
pub open spec fn mint_call_spec(g: GenericAssetState, origin: Origin, a: AssetId, to: AccountId, amount: Balance) -> (GenericAssetState, Result<(), DispatchError>) {
    match origin {
        Origin::Signed(who) => {
            let (g1, r1) = mint_spec(g, a, who, to, amount);
            if r1 is Err {
                (g, Err(DispatchError::GenericAsset(r1->Err_0)))
            } else {
                (g1.emit(RawEvent::Minted(a, to, amount)), Ok(()))
            }
        },
        _ => (g, Err(DispatchError::BadOrigin)),
    }
}

/// What the `burn` call does to the ledger and what it returns.
pub open spec fn burn_call_spec(g: GenericAssetState, origin: Origin, a: AssetId, to: AccountId, amount: Balance) -> (GenericAssetState, Result<(), DispatchError>) {
    match origin {
        Origin::Signed(who) => {
            let (g1, r1) = burn_spec(g, a, who, to, amount);
            if r1 is Err {
                (g, Err(DispatchError::GenericAsset(r1->Err_0)))
            } else {
                (g1.emit(RawEvent::Burned(a, to, amount)), Ok(()))
            }
        },
        _ => (g, Err(DispatchError::BadOrigin)),
    }
}

/// What a transfer with event does to the ledger and what it returns.
pub open spec fn transfer_spec(g: GenericAssetState, a: AssetId, from: AccountId, to: AccountId, amount: Balance) -> (GenericAssetState, Result<(), Error>) {
    if g.free(a, from) < amount {
        (g, Err(Error::InsufficientBalance))
    } else if from == to {
        (g, Ok(()))
    } else {
        (g.transferred(a, from, to, amount).emit(RawEvent::Transferred(a, from, to, amount)), Ok(()))
    }
}

/// What a reserve does to the ledger and what it returns.
pub open spec fn reserve_spec(g: GenericAssetState, a: AssetId, who: AccountId, amount: Balance) -> (GenericAssetState, Result<u128, Error>) {
    if g.free(a, who) < amount {
        (g, Err(Error::InsufficientBalance))
    } else {
        (g.reserved_under_lock(a, who, amount), Ok(g.next_lock_id))
    }
}

/// A reserve that passed its balance check overflows nothing.
pub open spec fn reserve_fits(g: GenericAssetState, a: AssetId, who: AccountId, amount: Balance) -> bool {
    g.free(a, who) >= amount ==> g.reserved(a, who) + amount <= Balance::MAX && g.next_lock_id < u128::MAX
}

/// The lesser of two amounts.
pub open spec fn min_amount(x: Balance, y: Balance) -> Balance {
    if x <= y {
        x
    } else {
        y
    }
}

/// What an unreserve does to the ledger and what it returns. It cannot fail: up to
/// `amount` moves from reserved back to free balance, and the part that could not move,
/// for want of reserved balance, is returned. Where a lock matches (the named one, or
/// where none is named the first of exactly `amount`) it is released as well.
pub open spec fn unreserve_spec(g: GenericAssetState, a: AssetId, who: AccountId, amount: Balance, lock_id: Option<u128>) -> (GenericAssetState, Result<Balance, Error>) {
    let s = g.locks_of(lock_identifier_of(a), who);
    let moved = min_amount(g.reserved(a, who), amount);
    match unreserve_lock(s, amount, lock_id) {
        Some(id) => (g.released(a, who, moved, id), Ok((amount - moved) as Balance)),
        None => (
            g.with_free(a, who, (g.free(a, who) + moved) as Balance).with_reserved(a, who, (g.reserved(a, who) - moved) as Balance),
            Ok((amount - moved) as Balance),
        ),
    }
}

/// An unreserve overflows nothing.
pub open spec fn unreserve_fits(g: GenericAssetState, a: AssetId, who: AccountId, amount: Balance, lock_id: Option<u128>) -> bool {
    g.free(a, who) + min_amount(g.reserved(a, who), amount) <= Balance::MAX
}

/// What slashing does: up to `amount` leaves the free balance, and what is still owed
/// leaves the reserve; what could not be taken at all is returned.
pub open spec fn slash_spec(g: GenericAssetState, a: AssetId, who: AccountId, amount: Balance) -> (GenericAssetState, Option<Balance>) {
    let free_slash = min_amount(g.free(a, who), amount);
    let g1 = g.with_free(a, who, (g.free(a, who) - free_slash) as Balance);
    if free_slash < amount {
        let rest = (amount - free_slash) as Balance;
        let slash = min_amount(g1.reserved(a, who), rest);
        (g1.with_reserved(a, who, (g1.reserved(a, who) - slash) as Balance), if rest == slash {
            None
        } else {
            Some((rest - slash) as Balance)
        })
    } else {
        (g1, None)
    }
}

/// What moving reserve to a beneficiary does: up to `amount` is credited to the
/// beneficiary's free or reserved balance, then the reserve of `who` is set to what it was
/// less that; the part that could not be moved is returned.
pub open spec fn repatriate_reserved_spec(g: GenericAssetState, a: AssetId, who: AccountId, beneficiary: AccountId, amount: Balance, status: BalanceStatus) -> (GenericAssetState, Balance) {
    let b = g.reserved(a, who);
    let slash = min_amount(b, amount);
    let g1 = match status {
        BalanceStatus::Free => g.with_free(a, beneficiary, (g.free(a, beneficiary) + slash) as Balance),
        BalanceStatus::Reserved => g.with_reserved(a, beneficiary, (g.reserved(a, beneficiary) + slash) as Balance),
    };
    (g1.with_reserved(a, who, (b - slash) as Balance), (amount - slash) as Balance)
}

/// A move of reserve overflows no balance of the beneficiary.
pub open spec fn repatriate_fits(g: GenericAssetState, a: AssetId, who: AccountId, beneficiary: AccountId, amount: Balance, status: BalanceStatus) -> bool {
    let slash = min_amount(g.reserved(a, who), amount);
    match status {
        BalanceStatus::Free => g.free(a, beneficiary) + slash <= Balance::MAX,
        BalanceStatus::Reserved => g.reserved(a, beneficiary) + slash <= Balance::MAX,
    }
}

/// How a balance moves between the free and reserved parts.
#[derive(Clone, Copy, Debug, PartialEq, Eq, Structural)]
pub enum BalanceStatus {
    Free,
    Reserved,
}

/// The ledger module: its storage and the events it has emitted.
pub struct Module {
    /// Total issuance of a given asset.
    pub total_issuance: StorageMap<AssetId, Balance>,
    /// The free balance of a given asset under an account.
    pub free_balance: StorageMap<(AssetId, AccountId), Balance>,
    /// The reserved balance of a given asset under an account.
    pub reserved_balance: StorageMap<(AssetId, AccountId), Balance>,
    /// Asset symbols; their UTF-8 validity is left to clients.
    pub symbols: StorageMap<AssetId, Vec<u8>>,
    /// Next available id for a user-created asset.
    pub next_asset_id: AssetId,
    /// Permission options for a given asset.
    pub permissions: StorageMap<AssetId, PermissionVersions>,
    /// The id the next lock receives.
    pub next_lock_id: u128,
    /// Liquidity locks on account balances.
    pub locks: StorageMap<(LockIdentifier, AccountId), Vec<BalanceLock>>,
    /// The account of the superuser, who creates assets.
    pub sudo_key: AccountId,
    /// Events emitted so far.
    pub events: Vec<RawEvent>,
}

impl View for Module {
    type V = GenericAssetState;

    open spec fn view(&self) -> GenericAssetState {
        GenericAssetState {
            total_issuance: self.total_issuance@,
            free_balance: self.free_balance@,
            reserved_balance: self.reserved_balance@,
            symbols: self.symbols@,
            next_asset_id: self.next_asset_id,
            permissions: self.permissions@,
            next_lock_id: self.next_lock_id,
            locks: self.locks@,
            sudo_key: self.sudo_key,
            events: self.events@,
        }
    }
}

impl Module {
    /// A ledger with no assets, whose superuser is `sudo_key`.
    pub fn new(sudo_key: AccountId) -> (m: Self)
        ensures
            m@.total_issuance == Map::<AssetId, Balance>::empty(),
            m@.free_balance == Map::<(AssetId, AccountId), Balance>::empty(),
            m@.reserved_balance == Map::<(AssetId, AccountId), Balance>::empty(),
            m@.symbols == Map::<AssetId, Seq<u8>>::empty(),
            m@.next_asset_id == 0,
            m@.permissions == Map::<AssetId, PermissionVersions>::empty(),
            m@.next_lock_id == 1,
            m@.locks == Map::<(Seq<u8>, AccountId), Seq<BalanceLock>>::empty(),
            m@.sudo_key == sudo_key,
            m@.events == Seq::<RawEvent>::empty(),
    {
        Module {
            total_issuance: StorageMap::new(),
            free_balance: StorageMap::new(),
            reserved_balance: StorageMap::new(),
            symbols: StorageMap::new(),
            next_asset_id: 0,
            permissions: StorageMap::new(),
            next_lock_id: 1,
            locks: StorageMap::new(),
            sudo_key,
            events: Vec::new(),
        }
    }

    /// Get an account's total balance of an asset kind.
    pub fn total_balance(&self, asset_id: &AssetId, who: &AccountId) -> (b: Balance)
        requires
            self@.free(*asset_id, *who) + self@.reserved(*asset_id, *who) <= Balance::MAX,
        ensures
            b == self@.free(*asset_id, *who) + self@.reserved(*asset_id, *who),
    {
        self.free_balance(asset_id, who) + self.reserved_balance(asset_id, who)
    }

    /// Get an account's free balance of an asset kind.
    pub fn free_balance(&self, asset_id: &AssetId, who: &AccountId) -> (b: Balance)
        ensures
            b == self@.free(*asset_id, *who),
    {
        match self.free_balance.get(&(*asset_id, *who)) {
            Some(v) => *v,
            None => 0,
        }
    }

    /// Get an account's reserved balance of an asset kind.
    pub fn reserved_balance(&self, asset_id: &AssetId, who: &AccountId) -> (b: Balance)
        ensures
            b == self@.reserved(*asset_id, *who),
    {
        match self.reserved_balance.get(&(*asset_id, *who)) {
            Some(v) => *v,
            None => 0,
        }
    }

    /// The total issuance of an asset.
    pub fn total_issuance(&self, asset_id: &AssetId) -> (b: Balance)
        ensures
            b == self@.total(*asset_id),
    {
        match self.total_issuance.get(asset_id) {
            Some(v) => *v,
            None => 0,
        }
    }

    /// The stored permissions of an asset, the default where none are stored.
    pub fn get_permission(&self, asset_id: &AssetId) -> (p: PermissionVersions)
        ensures
            p.latest_spec() == self@.permission(*asset_id),
    {
        match self.permissions.get(asset_id) {
            Some(p) => *p,
            None => PermissionVersions::default(),
        }
    }

    /// The symbol of an asset, empty where none is stored.
    pub fn symbols(&self, asset_id: &AssetId) -> (s: Vec<u8>)
        ensures
            s@ == (if self@.symbols.contains_key(*asset_id) {
                self@.symbols[*asset_id]
            } else {
                Seq::<u8>::empty()
            }),
    {
        match self.symbols.get(asset_id) {
            Some(s) => crate::storage::copy_bytes(s.as_slice()),
            None => Vec::new(),
        }
    }

    /// Whether an asset has a symbol, that is, whether it is listed.
    pub fn asset_id_exists(&self, asset_id: AssetId) -> (b: bool)
        ensures
            b == self@.symbols.contains_key(asset_id),
    {
        self.symbols.contains_key(&asset_id)
    }

    fn deposit_event(&mut self, e: RawEvent)
        ensures
            final(self)@ == old(self)@.emit(e),
    {
        self.events.push(e);
    }

    /// NOTE: LOW-LEVEL: does not maintain total issuance.
    fn set_free_balance(&mut self, asset_id: &AssetId, who: &AccountId, balance: Balance)
        ensures
            final(self)@ == old(self)@.with_free(*asset_id, *who, balance),
    {
        self.free_balance.insert((*asset_id, *who), balance);
    }

    /// NOTE: LOW-LEVEL: does not maintain total issuance.
    fn set_reserved_balance(&mut self, asset_id: &AssetId, who: &AccountId, balance: Balance)
        ensures
            final(self)@ == old(self)@.with_reserved(*asset_id, *who, balance),
    {
        self.reserved_balance.insert((*asset_id, *who), balance);
    }

    /// Whether `who` holds the permission `what` on the asset.
    pub fn check_permission(&self, asset_id: &AssetId, who: &AccountId, what: &PermissionType) -> (b: bool)
        ensures
            b == self@.has_permission(*asset_id, *who, *what),
    {
        let permission = self.get_permission(asset_id).latest();
        match what {
            PermissionType::Burn => match permission.burn {
                Owner::Address(account) => account == *who,
                Owner::Nobody => false,
            },
            PermissionType::Mint => match permission.mint {
                Owner::Address(account) => account == *who,
                Owner::Nobody => false,
            },
            PermissionType::Update => match permission.update {
                Owner::Address(account) => account == *who,
                Owner::Nobody => false,
            },
        }
    }

    /// Mint to an account's free balance, without event.
    pub fn mint_free(&mut self, asset_id: &AssetId, who: &AccountId, to: &AccountId, amount: &Balance) -> (r: Result<(), Error>)
        ensures
            (final(self)@, r) == mint_spec(old(self)@, *asset_id, *who, *to, *amount),
    {
        if self.check_permission(asset_id, who, &PermissionType::Mint) {
            let prior_free_balance = self.free_balance(asset_id, to);
            let current_total_issuance = self.total_issuance(asset_id);
            let new_total_issuance = match current_total_issuance.checked_add(*amount) {
                Some(v) => v,
                None => { return Err(Error::TotalMintingOverflow); },
            };
            let value = match prior_free_balance.checked_add(*amount) {
                Some(v) => v,
                None => { return Err(Error::FreeMintingOverflow); },
            };
            self.total_issuance.insert(*asset_id, new_total_issuance);
            self.set_free_balance(asset_id, to, value);
            Ok(())
        } else {
            Err(Error::NoMintPermission)
        }
    }

    /// Burn from an account's free balance, without event.
    pub fn burn_free(&mut self, asset_id: &AssetId, who: &AccountId, to: &AccountId, amount: &Balance) -> (r: Result<(), Error>)
        ensures
            (final(self)@, r) == burn_spec(old(self)@, *asset_id, *who, *to, *amount),
    {
        if self.check_permission(asset_id, who, &PermissionType::Burn) {
            let prior_free_balance = self.free_balance(asset_id, to);
            let current_total_issuance = self.total_issuance(asset_id);
            let new_total_issuance = match current_total_issuance.checked_sub(*amount) {
                Some(v) => v,
                None => { return Err(Error::TotalBurningUnderflow); },
            };
            let value = match prior_free_balance.checked_sub(*amount) {
                Some(v) => v,
                None => { return Err(Error::FreeBurningUnderflow); },
            };
            self.total_issuance.insert(*asset_id, new_total_issuance);
            self.set_free_balance(asset_id, to, value);
            Ok(())
        } else {
            Err(Error::NoBurnPermission)
        }
    }

    /// Creates an asset: under `asset_id` where one is given (a reserved id below the next
    /// free one that has no issuance yet), else under the next free id.
    pub fn create_asset(&mut self, asset_id: Option<AssetId>, from_account: Option<AccountId>, options: AssetOptions) -> (r: Result<(), Error>)
        ensures
            ({
                let pre = old(self)@;
                let owner = match from_account {
                    Some(a) => a,
                    None => 0,
                };
                match asset_id {
                    Some(id) => if pre.total_issuance.contains_key(id) {
                        r == Err::<(), Error>(Error::IdAlreadyTaken) && final(self)@ == pre
                    } else if id >= pre.next_asset_id {
                        r == Err::<(), Error>(Error::IdUnavailable) && final(self)@ == pre
                    } else {
                        r is Ok && final(self)@ == pre.created(id, owner, options)
                    },
                    None => if pre.next_asset_id == AssetId::MAX {
                        r == Err::<(), Error>(Error::NoIdAvailable) && final(self)@ == pre
                    } else {
                        r is Ok && final(self)@ == pre.with_next_asset_id((pre.next_asset_id + 1) as AssetId)
                            .created(pre.next_asset_id, owner, options)
                    },
                }
            }),
    {
        let asset_id = match asset_id {
            Some(asset_id) => {
                if self.total_issuance.contains_key(&asset_id) {
                    return Err(Error::IdAlreadyTaken);
                }
                if !(asset_id < self.next_asset_id) {
                    return Err(Error::IdUnavailable);
                }
                asset_id
            },
            None => {
                let asset_id = self.next_asset_id;
                let next_id = match asset_id.checked_add(1) {
                    Some(v) => v,
                    None => { return Err(Error::NoIdAvailable); },
                };
                self.next_asset_id = next_id;
                asset_id
            },
        };
        let account_id = match from_account {
            Some(a) => a,
            None => 0,
        };
        self.total_issuance.insert(asset_id, options.initial_issuance);
        self.free_balance.insert((asset_id, account_id), options.initial_issuance);
        self.permissions.insert(asset_id, options.permissions.versioned());
        self.deposit_event(RawEvent::Created(asset_id, account_id, options));
        Ok(())
    }

    /// Transfer some liquid free balance from one account to another, without event.
    pub fn make_transfer(&mut self, asset_id: &AssetId, from: &AccountId, to: &AccountId, amount: Balance) -> (r: Result<(), Error>)
        requires
            old(self)@.transfer_fits(*asset_id, *from, *to, amount),
        ensures
            old(self)@.free(*asset_id, *from) < amount ==> r == Err::<(), Error>(Error::InsufficientBalance) && final(self)@ == old(self)@,
            old(self)@.free(*asset_id, *from) >= amount ==> r is Ok && final(self)@ == old(self)@.transferred(*asset_id, *from, *to, amount),
    {
        if !(self.free_balance(asset_id, from) >= amount) {
            return Err(Error::InsufficientBalance);
        }
        if *from != *to {
            let from_balance = self.free_balance(asset_id, from);
            self.set_free_balance(asset_id, from, from_balance - amount);
            let to_balance = self.free_balance(asset_id, to);
            self.set_free_balance(asset_id, to, to_balance + amount);
        }
        Ok(())
    }

    /// Transfer some liquid free balance from one account to another, with a
    /// `Transferred` event where the two accounts differ.
    pub fn make_transfer_with_event(&mut self, asset_id: &AssetId, from: &AccountId, to: &AccountId, amount: Balance) -> (r: Result<(), Error>)
        requires
            old(self)@.transfer_fits(*asset_id, *from, *to, amount),
        ensures
            (final(self)@, r) == transfer_spec(old(self)@, *asset_id, *from, *to, amount),
    {
        match self.make_transfer(asset_id, from, to, amount) {
            Ok(()) => {},
            Err(e) => { return Err(e); },
        }
        if *from != *to {
            self.deposit_event(RawEvent::Transferred(*asset_id, *from, *to, amount));
        }
        Ok(())
    }

    /// Move `amount` from free balance to reserved balance under a new lock, whose id is
    /// returned. Where the free balance is lower than `amount`, nothing moves and an
    /// error is returned.
    pub fn reserve(&mut self, asset_id: &AssetId, who: &AccountId, amount: Balance) -> (r: Result<u128, Error>)
        requires
            reserve_fits(old(self)@, *asset_id, *who, amount),
        ensures
            (final(self)@, r) == reserve_spec(old(self)@, *asset_id, *who, amount),
    {
        let prior_reserve_balance = self.reserved_balance(asset_id, who);
        let prior_free_balance = self.free_balance(asset_id, who);
        if !(prior_free_balance >= amount) {
            return Err(Error::InsufficientBalance);
        }
        let new_reserve_balance = prior_reserve_balance + amount;
        self.set_reserved_balance(asset_id, who, new_reserve_balance);
        let new_free_balance = prior_free_balance - amount;
        self.set_free_balance(asset_id, who, new_free_balance);
        let lock_id = self.set_lock(asset_id, who, amount, WithdrawReasons::reserve());
        self.deposit_event(RawEvent::Reserved(*asset_id, *who, amount, lock_id));
        Ok(lock_id)
    }

    /// Moves up to `amount` from reserved balance back to free balance, and hands back the
    /// part that could not move for want of reserved balance; it cannot fail. Where a lock
    /// matches, the lock `lock_id` or, where none is named, the first lock of exactly
    /// `amount`, it is released.
    pub fn unreserve(&mut self, asset_id: &AssetId, who: &AccountId, amount: Balance, lock_id: Option<u128>) -> (r: Result<Balance, Error>)
        requires
            unreserve_fits(old(self)@, *asset_id, *who, amount, lock_id),
        ensures
            r is Ok,
            (final(self)@, r) == unreserve_spec(old(self)@, *asset_id, *who, amount, lock_id),
    {
        let idf = generic_asset_lock_identifier(asset_id);
        let valid_lock_id = match lock_id {
            Some(lock_id) => {
                if self.lock_id_exists(idf, who, lock_id) {
                    Some(lock_id)
                } else {
                    None
                }
            },
            None => self.find_lock_id_by_amount(idf, who, amount),
        };
        let reserved_balance = self.reserved_balance(asset_id, who);
        let moved = if reserved_balance <= amount { reserved_balance } else { amount };
        match valid_lock_id {
            Some(id) => {
                self.remove_lock(idf, who, id);
            },
            None => {},
        }
        let prior_free_balance = self.free_balance(asset_id, who);
        self.set_free_balance(asset_id, who, prior_free_balance + moved);
        self.set_reserved_balance(asset_id, who, reserved_balance - moved);
        match valid_lock_id {
            Some(id) => {
                self.deposit_event(RawEvent::Unreserved(*asset_id, *who, moved, id));
            },
            None => {},
        }
        Ok(amount - moved)
    }

    /// Deducts up to `amount` from the combined balance of `who`, free balance first; hands
    /// back what could not be deducted, `None` where all was. Issuance is left alone.
    pub fn slash(&mut self, asset_id: &AssetId, who: &AccountId, amount: Balance) -> (r: Option<Balance>)
        ensures
            (final(self)@, r) == slash_spec(old(self)@, *asset_id, *who, amount),
    {
        let free_balance = self.free_balance(asset_id, who);
        let free_slash = if free_balance <= amount { free_balance } else { amount };
        self.set_free_balance(asset_id, who, free_balance - free_slash);
        if free_slash < amount {
            let rest = amount - free_slash;
            let reserved = self.reserved_balance(asset_id, who);
            let slash = if reserved <= rest { reserved } else { rest };
            self.set_reserved_balance(asset_id, who, reserved - slash);
            if rest == slash {
                None
            } else {
                Some(rest - slash)
            }
        } else {
            None
        }
    }

    /// Moves up to `amount` from the reserve of `who` to the free or reserved balance of
    /// `beneficiary`; hands back what could not be moved. Issuance is left alone.
    pub fn repatriate_reserved(&mut self, asset_id: &AssetId, who: &AccountId, beneficiary: &AccountId, amount: Balance, status: BalanceStatus) -> (r: Balance)
        requires
            repatriate_fits(old(self)@, *asset_id, *who, *beneficiary, amount, status),
        ensures
            (final(self)@, r) == repatriate_reserved_spec(old(self)@, *asset_id, *who, *beneficiary, amount, status),
    {
        let b = self.reserved_balance(asset_id, who);
        let slash = if b <= amount { b } else { amount };
        match status {
            BalanceStatus::Free => {
                let prior = self.free_balance(asset_id, beneficiary);
                self.set_free_balance(asset_id, beneficiary, prior + slash);
            },
            BalanceStatus::Reserved => {
                let prior = self.reserved_balance(asset_id, beneficiary);
                self.set_reserved_balance(asset_id, beneficiary, prior + slash);
            },
        }
        self.set_reserved_balance(asset_id, who, b - slash);
        amount - slash
    }

    /// Withdrawals are not restricted by locks in this ledger: always `Ok`.
    pub fn ensure_can_withdraw(&self, asset_id: &AssetId, who: &AccountId, amount: Balance, reasons: WithdrawReasons, new_balance: Balance) -> (r: Result<(), Error>)
        ensures
            r is Ok,
    {
        Ok(())
    }

    fn take_lock_id(&mut self) -> (id: u128)
        requires
            old(self).next_lock_id < u128::MAX,
        ensures
            id == old(self)@.next_lock_id,
            final(self)@ == old(self)@.with_next_lock_id((id + 1) as u128),
    {
        let id = self.next_lock_id;
        self.next_lock_id = self.next_lock_id + 1;
        id
    }

    /// The locks of `who` under `identifier`, empty where none are stored.
    pub fn locks(&self, identifier: LockIdentifier, who: &AccountId) -> (v: Vec<BalanceLock>)
        ensures
            v@ == self@.locks_of(identifier@, *who),
    {
        match self.locks.get(&(identifier, *who)) {
            Some(v) => {
                let mut r: Vec<BalanceLock> = Vec::new();
                let mut i: usize = 0;
                while i < v.len()
                    invariant
                        i <= v@.len(),
                        r@ == v@.subrange(0, i as int),
                    decreases v@.len() - i,
                {
                    r.push(v[i]);
                    i = i + 1;
                    assert(r@ =~= v@.subrange(0, i as int));
                }
                assert(r@ =~= v@);
                r
            },
            None => Vec::new(),
        }
    }

    fn set_lock(&mut self, asset_id: &AssetId, who: &AccountId, amount: Balance, reasons: WithdrawReasons) -> (id: u128)
        requires
            old(self).next_lock_id < u128::MAX,
        ensures
            id == old(self)@.next_lock_id,
            final(self)@ == old(self)@.locked(*asset_id, *who, amount, reasons),
    {
        let lock_id = self.take_lock_id();
        let new_lock = BalanceLock { id: lock_id, asset_id: *asset_id, amount, reasons };
        let identifier = generic_asset_lock_identifier(asset_id);
        let mut list = self.locks(identifier, who);
        list.push(new_lock);
        self.locks.insert((identifier, *who), list);
        lock_id
    }

    /// Extending a lock is switched off in this ledger: nothing changes.
    fn extend_lock(&mut self, id: LockIdentifier, who: &AccountId, amount: Balance, reasons: WithdrawReasons)
        ensures
            final(self)@ == old(self)@,
    {
    }

    fn remove_lock(&mut self, identifier: LockIdentifier, who: &AccountId, lock_id: u128)
        ensures
            final(self)@ == old(self)@.unlocked(identifier@, *who, lock_id),
    {
        let locks = self.locks(identifier, who);
        let ghost s = locks@;
        let mut new_locks: Vec<BalanceLock> = Vec::new();
        let mut first = true;
        let mut i: usize = 0;
        let ghost mut found: int = -1;
        while i < locks.len()
            invariant
                s == locks@,
                i <= s.len(),
                first == (found == -1),
                first ==> forall|j: int| 0 <= j < i ==> s[j].id != lock_id,
                first ==> new_locks@ == s.subrange(0, i as int),
                !first ==> is_first_with_id(s, lock_id, found) && found < i
                    && new_locks@ == s.subrange(0, i as int).remove(found),
            decreases s.len() - i,
        {
            let l = locks[i];
            if first && l.id == lock_id {
                first = false;
                proof {
                    found = i as int;
                }
            } else {
                new_locks.push(l);
            }
            i = i + 1;
            assert(new_locks@ =~= (if first {
                s.subrange(0, i as int)
            } else {
                s.subrange(0, i as int).remove(found)
            }));
        }
        assert(s.subrange(0, s.len() as int) =~= s);
        if locks.len() - new_locks.len() == 1 {
            proof {
                lemma_first_with_id(s, lock_id, found);
            }
            self.locks.insert((identifier, *who), new_locks);
        }
    }

    /// Whether a lock of `who` under `identifier` carries the id.
    pub fn lock_id_exists(&self, identifier: LockIdentifier, who: &AccountId, lock_id: u128) -> (b: bool)
        ensures
            b == has_lock_id(self@.locks_of(identifier@, *who), lock_id),
    {
        let locks = self.locks(identifier, who);
        let mut i: usize = 0;
        while i < locks.len()
            invariant
                i <= locks@.len(),
                locks@ == self@.locks_of(identifier@, *who),
                forall|j: int| 0 <= j < i ==> locks@[j].id != lock_id,
            decreases locks@.len() - i,
        {
            if locks[i].id == lock_id {
                proof {
                    lemma_first_with_id(locks@, lock_id, i as int);
                }
                return true;
            }
            i = i + 1;
        }
        false
    }

    /// The id of the first lock of `who` under `identifier` that locks exactly `amount`.
    pub fn find_lock_id_by_amount(&self, identifier: LockIdentifier, who: &AccountId, amount: Balance) -> (r: Option<u128>)
        ensures
            ({
                let s = self@.locks_of(identifier@, *who);
                r == (if has_lock_amount(s, amount) {
                    Some(s[first_with_amount(s, amount)].id)
                } else {
                    None
                })
            }),
    {
        let locks = self.locks(identifier, who);
        let mut i: usize = 0;
        while i < locks.len()
            invariant
                i <= locks@.len(),
                locks@ == self@.locks_of(identifier@, *who),
                forall|j: int| 0 <= j < i ==> locks@[j].amount != amount,
            decreases locks@.len() - i,
        {
            if locks[i].amount == amount {
                proof {
                    lemma_first_with_amount(locks@, amount, i as int);
                }
                return Some(locks[i].id);
            }
            i = i + 1;
        }
        None
    }

    /// The amount locked by the first lock of `who` on the asset that carries the id.
    pub fn locked_balance(&self, asset_id: &AssetId, who: &AccountId, lock_id: u128) -> (r: Option<Balance>)
        ensures
            ({
                let s = self@.locks_of(lock_identifier_of(*asset_id), *who);
                r == (if has_lock_id(s, lock_id) {
                    Some(s[first_with_id(s, lock_id)].amount)
                } else {
                    None
                })
            }),
    {
        let locks = self.locks(generic_asset_lock_identifier(asset_id), who);
        let mut i: usize = 0;
        while i < locks.len()
            invariant
                i <= locks@.len(),
                locks@ == self@.locks_of(lock_identifier_of(*asset_id), *who),
                forall|j: int| 0 <= j < i ==> locks@[j].id != lock_id,
            decreases locks@.len() - i,
        {
            if locks[i].id == lock_id {
                proof {
                    lemma_first_with_id(locks@, lock_id, i as int);
                }
                return Some(locks[i].amount);
            }
            i = i + 1;
        }
        None
    }

    /// Create a new kind of asset under the next free id, owned in every permission by
    /// the superuser and issued to it; only the root origin may. The symbol is stored
    /// under the new id.
    pub fn create(&mut self, origin: Origin, initial_issuance: Balance, symbol: Vec<u8>) -> (r: Result<(), DispatchError>)
        ensures
            ({
                let pre = old(self)@;
                let root = pre.sudo_key;
                let options = AssetOptions {
                    initial_issuance,
                    permissions: PermissionsV1 {
                        update: Owner::Address(root),
                        mint: Owner::Address(root),
                        burn: Owner::Address(root),
                    },
                };
                if origin != Origin::Root {
                    r == Err::<(), DispatchError>(DispatchError::BadOrigin) && final(self)@ == pre
                } else if pre.next_asset_id == AssetId::MAX {
                    r == Err::<(), DispatchError>(DispatchError::GenericAsset(Error::NoIdAvailable)) && final(self)@ == pre
                } else {
                    r is Ok && final(self)@ == pre.with_next_asset_id((pre.next_asset_id + 1) as AssetId)
                        .created(pre.next_asset_id, root, options)
                        .with_symbol(pre.next_asset_id, symbol@)
                }
            }),
    {
        match ensure_root(origin) {
            Ok(()) => {},
            Err(e) => { return Err(e); },
        }
        let root_account_id = self.sudo_key;
        let options = AssetOptions {
            initial_issuance,
            permissions: PermissionsV1 {
                update: Owner::Address(root_account_id),
                mint: Owner::Address(root_account_id),
                burn: Owner::Address(root_account_id),
            },
        };
        let asset_id = self.next_asset_id;
        match self.create_asset(None, Some(root_account_id), options) {
            Ok(()) => {},
            Err(e) => { return Err(DispatchError::GenericAsset(e)); },
        }
        self.symbols.insert(asset_id, symbol);
        Ok(())
    }

    /// Transfer some liquid free balance to another account; zero amounts are refused.
    pub fn transfer(&mut self, origin: Origin, asset_id: AssetId, to: AccountId, amount: Balance) -> (r: Result<(), DispatchError>)
        requires
            forall|who: AccountId| origin == Origin::Signed(who) ==> old(self)@.transfer_fits(asset_id, who, to, amount),
        ensures
            ({
                let pre = old(self)@;
                match origin {
                    Origin::Signed(who) => if amount == 0 {
                        r == Err::<(), DispatchError>(DispatchError::GenericAsset(Error::ZeroAmount)) && final(self)@ == pre
                    } else if pre.free(asset_id, who) < amount {
                        r == Err::<(), DispatchError>(DispatchError::GenericAsset(Error::InsufficientBalance)) && final(self)@ == pre
                    } else {
                        r is Ok && final(self)@ == (if who == to {
                            pre
                        } else {
                            pre.transferred(asset_id, who, to, amount).emit(RawEvent::Transferred(asset_id, who, to, amount))
                        })
                    },
                    _ => r == Err::<(), DispatchError>(DispatchError::BadOrigin) && final(self)@ == pre,
                }
            }),
    {
        let origin = match ensure_signed(origin) {
            Ok(who) => who,
            Err(e) => { return Err(e); },
        };
        if amount == 0 {
            return Err(DispatchError::GenericAsset(Error::ZeroAmount));
        }
        match self.make_transfer_with_event(&asset_id, &origin, &to, amount) {
            Ok(()) => Ok(()),
            Err(e) => Err(DispatchError::GenericAsset(e)),
        }
    }

    /// Replace the permissions of an asset; the origin must hold its `update` permission.
    pub fn update_permission(&mut self, origin: Origin, asset_id: AssetId, new_permission: PermissionLatest) -> (r: Result<(), DispatchError>)
        ensures
            ({
                let pre = old(self)@;
                match origin {
                    Origin::Signed(who) => if pre.has_permission(asset_id, who, PermissionType::Update) {
                        r is Ok && final(self)@ == pre.with_permission(asset_id, PermissionVersions::V1(new_permission))
                            .emit(RawEvent::PermissionUpdated(asset_id, new_permission))
                    } else {
                        r == Err::<(), DispatchError>(DispatchError::GenericAsset(Error::NoUpdatePermission)) && final(self)@ == pre
                    },
                    _ => r == Err::<(), DispatchError>(DispatchError::BadOrigin) && final(self)@ == pre,
                }
            }),
    {
        let origin = match ensure_signed(origin) {
            Ok(who) => who,
            Err(e) => { return Err(e); },
        };
        let permissions = new_permission.versioned();
        if self.check_permission(&asset_id, &origin, &PermissionType::Update) {
            self.permissions.insert(asset_id, permissions);
            self.deposit_event(RawEvent::PermissionUpdated(asset_id, permissions.latest()));
            Ok(())
        } else {
            Err(DispatchError::GenericAsset(Error::NoUpdatePermission))
        }
    }

    /// Mint an asset, increasing its total issuance; the origin must hold its `mint` permission.
    pub fn mint(&mut self, origin: Origin, asset_id: AssetId, to: AccountId, amount: Balance) -> (r: Result<(), DispatchError>)
        ensures
            (final(self)@, r) == mint_call_spec(old(self)@, origin, asset_id, to, amount),
    {
        let who = match ensure_signed(origin) {
            Ok(who) => who,
            Err(e) => { return Err(e); },
        };
        match self.mint_free(&asset_id, &who, &to, &amount) {
            Ok(()) => {},
            Err(e) => { return Err(DispatchError::GenericAsset(e)); },
        }
        self.deposit_event(RawEvent::Minted(asset_id, to, amount));
        Ok(())
    }

    /// Burn an asset, decreasing its total issuance; the origin must hold its `burn` permission.
    pub fn burn(&mut self, origin: Origin, asset_id: AssetId, to: AccountId, amount: Balance) -> (r: Result<(), DispatchError>)
        ensures
            (final(self)@, r) == burn_call_spec(old(self)@, origin, asset_id, to, amount),
    {
        let who = match ensure_signed(origin) {
            Ok(who) => who,
            Err(e) => { return Err(e); },
        };
        match self.burn_free(&asset_id, &who, &to, &amount) {
            Ok(()) => {},
            Err(e) => { return Err(DispatchError::GenericAsset(e)); },
        }
        self.deposit_event(RawEvent::Burned(asset_id, to, amount));
        Ok(())
    }

    /// Create an asset under a reserved id, credited to account zero; only the root origin may.
    pub fn create_reserved(&mut self, origin: Origin, asset_id: AssetId, options: AssetOptions) -> (r: Result<(), DispatchError>)
        ensures
            ({
                let pre = old(self)@;
                if origin != Origin::Root {
                    r == Err::<(), DispatchError>(DispatchError::BadOrigin) && final(self)@ == pre
                } else if pre.total_issuance.contains_key(asset_id) {
                    r == Err::<(), DispatchError>(DispatchError::GenericAsset(Error::IdAlreadyTaken)) && final(self)@ == pre
                } else if asset_id >= pre.next_asset_id {
                    r == Err::<(), DispatchError>(DispatchError::GenericAsset(Error::IdUnavailable)) && final(self)@ == pre
                } else {
                    r is Ok && final(self)@ == pre.created(asset_id, 0, options)
                }
            }),
    {
        match ensure_root(origin) {
            Ok(()) => {},
            Err(e) => { return Err(e); },
        }
        match self.create_asset(Some(asset_id), None, options) {
            Ok(()) => Ok(()),
            Err(e) => Err(DispatchError::GenericAsset(e)),
        }
    }
}

/// The settings a ledger starts from.
pub struct GenesisConfig {
    /// The assets every endowed account holds from the start.
    pub assets: Vec<AssetId>,
    /// What each endowed account holds of each of those assets.
    pub initial_balance: Balance,
    /// The accounts endowed at genesis.
    pub endowed_accounts: Vec<AccountId>,
    /// The id the first asset created later receives.
    pub next_asset_id: AssetId,
    /// Assets created at genesis for the superuser, with their symbols.
    pub symbols: Vec<(AssetId, Vec<u8>)>,
}

/// The options of an asset created at genesis: nothing issued, every right to `root`.
pub open spec fn genesis_options(root: AccountId) -> AssetOptions {
    AssetOptions {
        initial_issuance: 0,
        permissions: PermissionsV1 { update: Owner::Address(root), mint: Owner::Address(root), burn: Owner::Address(root) },
    }
}

/// The ledger after the assets `ids` are created in order for `owner` with `options`.
pub open spec fn created_all(g: GenericAssetState, ids: Seq<AssetId>, owner: AccountId, options: AssetOptions) -> GenericAssetState
    decreases ids.len(),
{
    if ids.len() == 0 {
        g
    } else {
        created_all(g, ids.drop_last(), owner, options).created(ids.last(), owner, options)
    }
}

/// The ids of the assets that genesis creates.
pub open spec fn symbol_ids(symbols: Seq<(AssetId, Vec<u8>)>) -> Seq<AssetId> {
    symbols.map_values(|p: (AssetId, Vec<u8>)| p.0)
}

/// Genesis can create each of the assets `ids`: each lies below the next free id, is not
/// issued already, and comes once.
pub open spec fn genesis_creatable(issued: spec_fn(AssetId) -> bool, ids: Seq<AssetId>, next_asset_id: AssetId) -> bool {
    forall|i: int| 0 <= i < ids.len() ==> #[trigger] ids[i] < next_asset_id && !issued(ids[i])
        && forall|j: int| 0 <= j < i ==> ids[j] != ids[i]
}

/// The ledger as the settings make it, before any asset is created at genesis.
pub open spec fn genesis_base(config_assets: Seq<AssetId>, initial_balance: Balance, endowed_accounts: Seq<AccountId>, next_asset_id: AssetId, symbols: Seq<(AssetId, Vec<u8>)>, sudo_key: AccountId) -> GenericAssetState {
    GenericAssetState {
        total_issuance: issued(config_assets, genesis_issuance(initial_balance, endowed_accounts) as Balance),
        free_balance: endowed(config_assets, endowed_accounts, initial_balance),
        reserved_balance: Map::empty(),
        symbols: map_of(symbols),
        next_asset_id,
        permissions: Map::empty(),
        next_lock_id: 1,
        locks: Map::empty(),
        sudo_key,
        events: Seq::empty(),
    }
}

impl GenesisConfig {
    /// The ledger these settings make, with `sudo_key` as superuser: each listed asset is
    /// issued to the endowed accounts, then each asset with a symbol is created for the
    /// superuser with nothing issued.
    pub fn build(&self, sudo_key: AccountId) -> (m: Module)
        requires
            genesis_issuance(self.initial_balance, self.endowed_accounts@) <= Balance::MAX,
            genesis_creatable(|a: AssetId| self.assets@.contains(a), symbol_ids(self.symbols@), self.next_asset_id),
        ensures
            m@ == created_all(
                genesis_base(self.assets@, self.initial_balance, self.endowed_accounts@, self.next_asset_id, self.symbols@, sudo_key),
                symbol_ids(self.symbols@),
                sudo_key,
                genesis_options(sudo_key),
            ),
    {
        let total = issuance(self.initial_balance, &self.endowed_accounts);
        let mut symbol_map: StorageMap<AssetId, Vec<u8>> = StorageMap::new();
        let mut i: usize = 0;
        while i < self.symbols.len()
            invariant
                i <= self.symbols@.len(),
                symbol_map@ == map_of(self.symbols@.subrange(0, i as int)),
            decreases self.symbols@.len() - i,
        {
            let id = self.symbols[i].0;
            let sym = crate::storage::copy_bytes(self.symbols[i].1.as_slice());
            symbol_map.insert(id, sym);
            assert(self.symbols@.subrange(0, i + 1).drop_last() =~= self.symbols@.subrange(0, i as int));
            i = i + 1;
        }
        assert(self.symbols@.subrange(0, self.symbols@.len() as int) =~= self.symbols@);
        let mut m = Module {
            total_issuance: issue(&self.assets, total),
            free_balance: endow(&self.assets, &self.endowed_accounts, self.initial_balance),
            reserved_balance: StorageMap::new(),
            symbols: symbol_map,
            next_asset_id: self.next_asset_id,
            permissions: StorageMap::new(),
            next_lock_id: 1,
            locks: StorageMap::new(),
            sudo_key,
            events: Vec::new(),
        };
        let options = AssetOptions {
            initial_issuance: 0,
            permissions: PermissionsV1 { update: Owner::Address(sudo_key), mint: Owner::Address(sudo_key), burn: Owner::Address(sudo_key) },
        };
        m.create_all(&self.symbols, Some(sudo_key), options);
        m
    }
}

impl Module {
    /// Creates, in order, an asset under each id of `symbols`, for `from_account` with `options`;
    /// each must be creatable.
    pub fn create_all(&mut self, symbols: &Vec<(AssetId, Vec<u8>)>, from_account: Option<AccountId>, options: AssetOptions)
        requires
            genesis_creatable(|a: AssetId| old(self)@.total_issuance.contains_key(a), symbol_ids(symbols@), old(self)@.next_asset_id),
        ensures
            final(self)@ == created_all(old(self)@, symbol_ids(symbols@), match from_account { Some(a) => a, None => 0 }, options),
    {
        let ghost g0 = self@;
        let ghost ids = symbol_ids(symbols@);
        let ghost owner = match from_account { Some(a) => a, None => 0 };
        let mut k: usize = 0;
        assert(ids.take(0) =~= Seq::<AssetId>::empty());
        while k < symbols.len()
            invariant
                k <= symbols@.len(),
                ids == symbol_ids(symbols@),
                ids.len() == symbols@.len(),
                owner == (match from_account { Some(a) => a, None => 0 }),
                genesis_creatable(|a: AssetId| g0.total_issuance.contains_key(a), ids, g0.next_asset_id),
                self@ == created_all(g0, ids.take(k as int), owner, options),
                self@.next_asset_id == g0.next_asset_id,
                forall|a: AssetId| self@.total_issuance.contains_key(a) <==> (g0.total_issuance.contains_key(a) || ids.take(k as int).contains(a)),
            decreases symbols@.len() - k,
        {
            let id = symbols[k].0;
            proof {
                assert(ids[k as int] == id);
                if ids.take(k as int).contains(id) {
                    let j = choose|j: int| 0 <= j < ids.take(k as int).len() && ids.take(k as int)[j] == id;
                    assert(ids[j] == ids.take(k as int)[j]);
                }
            }
            let r = self.create_asset(Some(id), from_account, options);
            match r {
                Ok(()) => {},
                Err(_) => {
                    assert(false);
                },
            }
            proof {
                let t = ids.take(k + 1);
                assert(t.drop_last() =~= ids.take(k as int));
                assert(t.last() == id);
                assert forall|a: AssetId| self@.total_issuance.contains_key(a) <==> (g0.total_issuance.contains_key(a) || t.contains(a)) by {
                    if t.contains(a) && a != id {
                        let j = choose|j: int| 0 <= j < t.len() && t[j] == a;
                        assert(ids.take(k as int)[j] == a);
                    }
                    if ids.take(k as int).contains(a) {
                        let j = choose|j: int| 0 <= j < ids.take(k as int).len() && ids.take(k as int)[j] == a;
                        assert(t[j] == a);
                    }
                    if a == id {
                        assert(t[k as int] == a);
                    }
                }
            }
            k = k + 1;
        }
        assert(ids.take(ids.len() as int) =~= ids);
    }
}

} // verus!
