//! A ledger of named assets: like the generic ledger, with a symbol per asset, a fourth
//! permission, reserves that only an authorised delegate may move, and per-account locks
//! that restrict withdrawals of the staking asset.
use vstd::prelude::*;
use crate::dispatch::{ensure_root, ensure_signed, AccountId, AssetId, Balance, DispatchError, Origin};
use crate::genesis::{endow, endowed, genesis_issuance, issuance, issue, issued};
use crate::storage::{bytes_equal, copy_bytes, StorageMap};

pub use crate::generic_asset::{BalanceStatus, LockIdentifier, Owner, WithdrawReasons};

verus! {

/// Who may update, mint, burn and reserve an asset.
#[derive(Clone, Copy, Debug, PartialEq, Eq, Structural)]
pub struct Permissions {
    pub update: Owner,
    pub mint: Owner,
    pub burn: Owner,
    pub reserve: Owner,
}

impl Default for Permissions {
    fn default() -> (p: Self)
        ensures
            p == no_permissions(),
    {
        Permissions { update: Owner::Nobody, mint: Owner::Nobody, burn: Owner::Nobody, reserve: Owner::Nobody }
    }
}

impl View for Permissions {
    type V = Permissions;

    open spec fn view(&self) -> Permissions {
        *self
    }
}

/// Permissions that name no owner at all.
pub open spec fn no_permissions() -> Permissions {
    Permissions { update: Owner::Nobody, mint: Owner::Nobody, burn: Owner::Nobody, reserve: Owner::Nobody }
}

/// The kinds of permission an asset has.
#[derive(Clone, Copy, Debug, PartialEq, Eq, Structural)]
pub enum PermissionType {
    Burn,
    Mint,
    Update,
    Reserve,
}

/// Asset creation options.
#[derive(Clone, Copy, Debug, PartialEq, Eq, Structural)]
pub struct AssetOptions {
    /// Initial issuance of this asset, all credited to the creator.
    pub initial_issuance: Balance,
    /// Which accounts may update, mint, burn and reserve the asset.
    pub permissions: Permissions,
}

/// A lock on some balance of an account.
#[derive(Clone, Copy, Debug, PartialEq, Eq)]
pub struct BalanceLock {
    pub id: LockIdentifier,
    pub amount: Balance,
    pub reasons: WithdrawReasons,
}

/// Errors of the named ledger.
#[derive(Clone, Copy, Debug, PartialEq, Eq, Structural)]
pub enum Error {
    NoNamePermission,
    NoIdAvailable,
    ZeroAmount,
    NoUpdatePermission,
    NoMintPermission,
    NoBurnPermission,
    TotalMintingOverflow,
    FreeMintingOverflow,
    TotalBurningUnderflow,
    FreeBurningUnderflow,
    IdAlreadyTaken,
    IdUnavailable,
    InsufficientBalance,
    LiquidityRestrictions,
    NoReserveAuth,
    NotEnoughReserved,
}

/// Events of the named ledger.
#[derive(Clone, Copy, Debug, PartialEq, Eq)]
pub enum RawEvent {
    SymbolCreated(AssetId),
    SymbolUpdated(AssetId),
    Created(AssetId, AccountId, AssetOptions),
    Transferred(AssetId, AccountId, AccountId, Balance),
    PermissionUpdated(AssetId, Permissions),
    Minted(AssetId, AccountId, Balance),
    Burned(AssetId, AccountId, Balance),
    ReserveAuthorized(AccountId, AccountId),
}

/// The value stored under `k`, or zero where nothing is.
pub open spec fn amount_at<K>(m: Map<K, Balance>, k: K) -> Balance {
    if m.contains_key(k) {
        m[k]
    } else {
        0
    }
}

/// The abstract state of the named ledger.
pub struct SymbolState {
    pub symbols: Map<AssetId, Seq<u8>>,
    pub total_issuance: Map<AssetId, Balance>,
    pub free_balance: Map<(AssetId, AccountId), Balance>,
    pub reserved_balance: Map<(AssetId, AccountId), Balance>,
    pub next_asset_id: AssetId,
    pub permissions: Map<AssetId, Permissions>,
    pub locks: Map<AccountId, Seq<BalanceLock>>,
    pub reserve_delegate: Map<(AccountId, AccountId), bool>,
    pub staking_asset_id: AssetId,
    pub events: Seq<RawEvent>,
}

impl SymbolState {
    pub open spec fn total(self, a: AssetId) -> Balance {
        amount_at(self.total_issuance, a)
    }

    pub open spec fn free(self, a: AssetId, x: AccountId) -> Balance {
        amount_at(self.free_balance, (a, x))
    }

    pub open spec fn reserved(self, a: AssetId, x: AccountId) -> Balance {
        amount_at(self.reserved_balance, (a, x))
    }

    /// The permissions of an asset, the default where none are stored.
    pub open spec fn permission(self, a: AssetId) -> Permissions {
        if self.permissions.contains_key(a) {
            self.permissions[a]
        } else {
            no_permissions()
        }
    }

    /// The locks of an account, empty where none are stored.
    pub open spec fn locks_of(self, x: AccountId) -> Seq<BalanceLock> {
        if self.locks.contains_key(x) {
            self.locks[x]
        } else {
            Seq::empty()
        }
    }

    /// Whether `delegate` may move the reserve of `who`.
    pub open spec fn delegated(self, who: AccountId, delegate: AccountId) -> bool {
        self.reserve_delegate.contains_key((who, delegate)) && self.reserve_delegate[(who, delegate)]
    }

    /// Whether `who` holds the permission `what` on asset `a`; the reserve permission is
    /// never granted by this check.
    pub open spec fn has_permission(self, a: AssetId, who: AccountId, what: PermissionType) -> bool {
        let p = self.permission(a);
        match what {
            PermissionType::Burn => p.burn == Owner::Address(who),
            PermissionType::Mint => p.mint == Owner::Address(who),
            PermissionType::Update => p.update == Owner::Address(who),
            PermissionType::Reserve => false,
        }
    }

    pub open spec fn with_free(self, a: AssetId, x: AccountId, v: Balance) -> Self {
        SymbolState { free_balance: self.free_balance.insert((a, x), v), ..self }
    }

    pub open spec fn with_reserved(self, a: AssetId, x: AccountId, v: Balance) -> Self {
        SymbolState { reserved_balance: self.reserved_balance.insert((a, x), v), ..self }
    }

    pub open spec fn with_total(self, a: AssetId, v: Balance) -> Self {
        SymbolState { total_issuance: self.total_issuance.insert(a, v), ..self }
    }

    pub open spec fn with_locks(self, x: AccountId, s: Seq<BalanceLock>) -> Self {
        SymbolState { locks: self.locks.insert(x, s), ..self }
    }

    pub open spec fn emit(self, e: RawEvent) -> Self {
        SymbolState { events: self.events.push(e), ..self }
    }

    /// The state after asset `id` is created for `owner` under the symbol `name`.
    pub open spec fn created(self, id: AssetId, owner: AccountId, name: Seq<u8>, options: AssetOptions) -> Self {
        SymbolState {
            permissions: self.permissions.insert(id, options.permissions),
            symbols: self.symbols.insert(id, name),
            ..self.with_total(id, options.initial_issuance).with_free(id, owner, options.initial_issuance)
        }.emit(RawEvent::Created(id, owner, options))
    }

    /// Whether a withdrawal of `a` from `who` leaving `new_balance` free is allowed by the
    /// account's locks: only the staking asset is restricted, by every lock that shares a
    /// reason with the withdrawal and asks for more than is left.
    pub open spec fn can_withdraw(self, a: AssetId, who: AccountId, reasons: WithdrawReasons, new_balance: Balance) -> bool {
        a != self.staking_asset_id || forall|i: int|
            0 <= i < self.locks_of(who).len() ==> new_balance >= (#[trigger] self.locks_of(who)[i]).amount
                || self.locks_of(who)[i].reasons.bits & reasons.bits == 0
    }
}

/// What minting does and returns.
pub open spec fn mint_spec(g: SymbolState, a: AssetId, who: AccountId, to: AccountId, amount: Balance) -> (SymbolState, Result<(), Error>) {
    if !g.has_permission(a, who, PermissionType::Mint) {
        (g, Err(Error::NoMintPermission))
    } else if g.total(a) + amount > Balance::MAX {
        (g, Err(Error::TotalMintingOverflow))
    } else if g.free(a, to) + amount > Balance::MAX {
        (g, Err(Error::FreeMintingOverflow))
    } else {
        (g.with_total(a, (g.total(a) + amount) as Balance).with_free(a, to, (g.free(a, to) + amount) as Balance), Ok(()))
    }
}

/// What burning does and returns.
pub open spec fn burn_spec(g: SymbolState, a: AssetId, who: AccountId, to: AccountId, amount: Balance) -> (SymbolState, Result<(), Error>) {
    if !g.has_permission(a, who, PermissionType::Burn) {
        (g, Err(Error::NoBurnPermission))
    } else if g.total(a) < amount {
        (g, Err(Error::TotalBurningUnderflow))
    } else if g.free(a, to) < amount {
        (g, Err(Error::FreeBurningUnderflow))
    } else {
        (g.with_total(a, (g.total(a) - amount) as Balance).with_free(a, to, (g.free(a, to) - amount) as Balance), Ok(()))
    }
}

/// What creating an asset does and returns: under `asset_id` where one is given (a
/// reserved id below the next free one with no issuance yet), else under the next free id.
pub open spec fn create_asset_spec(g: SymbolState, asset_id: Option<AssetId>, from_account: Option<AccountId>, name: Seq<u8>, options: AssetOptions) -> (SymbolState, Result<(), Error>) {
    let owner = match from_account {
        Some(a) => a,
        None => 0,
    };
    match asset_id {
        Some(id) => if g.total_issuance.contains_key(id) {
            (g, Err(Error::IdAlreadyTaken))
        } else if id >= g.next_asset_id {
            (g, Err(Error::IdUnavailable))
        } else {
            (g.created(id, owner, name, options), Ok(()))
        },
        None => if g.next_asset_id == AssetId::MAX {
            (g, Err(Error::NoIdAvailable))
        } else {
            (SymbolState { next_asset_id: (g.next_asset_id + 1) as AssetId, ..g }.created(g.next_asset_id, owner, name, options), Ok(()))
        },
    }
}

/// What a transfer without event does and returns.
pub open spec fn transfer_spec(g: SymbolState, a: AssetId, from: AccountId, to: AccountId, amount: Balance) -> (SymbolState, Result<(), Error>) {
    if g.free(a, from) < amount {
        (g, Err(Error::InsufficientBalance))
    } else if !g.can_withdraw(a, from, WithdrawReasons { bits: 2 }, (g.free(a, from) - amount) as Balance) {
        (g, Err(Error::LiquidityRestrictions))
    } else if from == to {
        (g, Ok(()))
    } else {
        let g1 = g.with_free(a, from, (g.free(a, from) - amount) as Balance);
        (g1.with_free(a, to, (g1.free(a, to) + amount) as Balance), Ok(()))
    }
}

/// A transfer that passed its balance check does not overflow the receiver.
pub open spec fn transfer_fits(g: SymbolState, a: AssetId, from: AccountId, to: AccountId, amount: Balance) -> bool {
    g.free(a, from) >= amount && from != to ==> g.free(a, to) + amount <= Balance::MAX
}

/// What a reserve made by `from` on the balance of `who` does and returns.
pub open spec fn reserve_spec(g: SymbolState, from: AccountId, a: AssetId, who: AccountId, amount: Balance) -> (SymbolState, Result<(), Error>) {
    if !g.delegated(who, from) {
        (g, Err(Error::NoReserveAuth))
    } else if g.free(a, who) < amount {
        (g, Err(Error::InsufficientBalance))
    } else {
        (g.with_reserved(a, who, (g.reserved(a, who) + amount) as Balance).with_free(a, who, (g.free(a, who) - amount) as Balance), Ok(()))
    }
}

/// What an unreserve made by `from` on the balance of `who` does and returns.
pub open spec fn unreserve_spec(g: SymbolState, from: AccountId, a: AssetId, who: AccountId, amount: Balance) -> (SymbolState, Result<(), Error>) {
    if !g.delegated(who, from) {
        (g, Err(Error::NoReserveAuth))
    } else if amount > g.reserved(a, who) {
        (g, Err(Error::NotEnoughReserved))
    } else {
        (g.with_free(a, who, (g.free(a, who) + amount) as Balance).with_reserved(a, who, (g.reserved(a, who) - amount) as Balance), Ok(()))
    }
}

/// The lesser of two amounts.
pub open spec fn min_balance(x: Balance, y: Balance) -> Balance {
    if x <= y {
        x
    } else {
        y
    }
}

/// What slashing the reserve does: up to `amount` leaves it; what could not be taken is returned.
pub open spec fn slash_reserved_spec(g: SymbolState, a: AssetId, who: AccountId, amount: Balance) -> (SymbolState, Option<Balance>) {
    let slash = min_balance(g.reserved(a, who), amount);
    (g.with_reserved(a, who, (g.reserved(a, who) - slash) as Balance), if amount == slash {
        None
    } else {
        Some((amount - slash) as Balance)
    })
}

/// What slashing does: up to `amount` leaves the free balance, the rest the reserve.
pub open spec fn slash_spec(g: SymbolState, a: AssetId, who: AccountId, amount: Balance) -> (SymbolState, Option<Balance>) {
    let free_slash = min_balance(g.free(a, who), amount);
    let g1 = g.with_free(a, who, (g.free(a, who) - free_slash) as Balance);
    if free_slash < amount {
        slash_reserved_spec(g1, a, who, (amount - free_slash) as Balance)
    } else {
        (g1, None)
    }
}

/// What moving reserve to a beneficiary does: up to `amount` is credited to the
/// beneficiary's free or reserved balance, then the reserve of `who` is set to what it was
/// less that; the part that could not be moved is returned.
pub open spec fn repatriate_reserved_spec(g: SymbolState, a: AssetId, who: AccountId, beneficiary: AccountId, amount: Balance, status: BalanceStatus) -> (SymbolState, Balance) {
    let b = g.reserved(a, who);
    let slash = min_balance(b, amount);
    let g1 = match status {
        BalanceStatus::Free => g.with_free(a, beneficiary, (g.free(a, beneficiary) + slash) as Balance),
        BalanceStatus::Reserved => g.with_reserved(a, beneficiary, (g.reserved(a, beneficiary) + slash) as Balance),
    };
    (g1.with_reserved(a, who, (b - slash) as Balance), (amount - slash) as Balance)
}

/// A move of reserve overflows no balance of the beneficiary.
pub open spec fn repatriate_fits(g: SymbolState, a: AssetId, who: AccountId, beneficiary: AccountId, amount: Balance, status: BalanceStatus) -> bool {
    let slash = min_balance(g.reserved(a, who), amount);
    match status {
        BalanceStatus::Free => g.free(a, beneficiary) + slash <= Balance::MAX,
        BalanceStatus::Reserved => g.reserved(a, beneficiary) + slash <= Balance::MAX,
    }
}

/// The locks with the first one carrying `id` replaced by `replacement` (or dropped where
/// there is none) and every later one carrying `id` dropped.
pub open spec fn replace_lock(s: Seq<BalanceLock>, id: LockIdentifier, replacement: Option<BalanceLock>) -> Seq<BalanceLock>
    decreases s.len(),
{
    if s.len() == 0 {
        s
    } else if s[0].id == id {
        match replacement {
            Some(l) => replace_lock(s.drop_first(), id, None).insert(0, l),
            None => replace_lock(s.drop_first(), id, None),
        }
    } else {
        replace_lock(s.drop_first(), id, replacement).insert(0, s[0])
    }
}

/// The locks with the first one carrying the id of `new` merged with it (the larger amount,
/// the union of reasons) and every later one carrying that id dropped.
pub open spec fn merge_lock(s: Seq<BalanceLock>, new: Option<BalanceLock>, id: LockIdentifier) -> Seq<BalanceLock>
    decreases s.len(),
{
    if s.len() == 0 {
        s
    } else if s[0].id == id {
        match new {
            Some(nl) => merge_lock(s.drop_first(), None, id).insert(0, BalanceLock {
                id: s[0].id,
                amount: if s[0].amount >= nl.amount { s[0].amount } else { nl.amount },
                reasons: WithdrawReasons { bits: s[0].reasons.bits | nl.reasons.bits },
            }),
            None => merge_lock(s.drop_first(), None, id),
        }
    } else {
        merge_lock(s.drop_first(), new, id).insert(0, s[0])
    }
}

/// Whether some lock carries the id.
pub open spec fn has_lock(s: Seq<BalanceLock>, id: LockIdentifier) -> bool {
    exists|i: int| 0 <= i < s.len() && s[i].id == id
}

/// The locks with every one carrying `id` dropped.
pub open spec fn drop_lock(s: Seq<BalanceLock>, id: LockIdentifier) -> Seq<BalanceLock>
    decreases s.len(),
{
    if s.len() == 0 {
        s
    } else if s[0].id == id {
        drop_lock(s.drop_first(), id)
    } else {
        drop_lock(s.drop_first(), id).insert(0, s[0])
    }
}

/// Where no lock carries the id, replacing and merging change nothing.
proof fn lemma_locks_without_id(s: Seq<BalanceLock>, id: LockIdentifier, r: Option<BalanceLock>)
    requires
        !has_lock(s, id),
    ensures
        replace_lock(s, id, r) == s,
        merge_lock(s, r, id) == s,
    decreases s.len(),
{
    if s.len() > 0 {
        let t = s.drop_first();
        assert(!has_lock(t, id)) by {
            if has_lock(t, id) {
                let j = choose|j: int| 0 <= j < t.len() && t[j].id == id;
                assert(s[j + 1] == t[j]);
            }
        }
        assert(s[0].id != id) by {
            if s[0].id == id {
                assert(has_lock(s, id));
            }
        }
        lemma_locks_without_id(t, id, r);
        assert(t.insert(0, s[0]) =~= s);
    }
}

/// Splitting off the first element of what is left of `s` at `i`.
proof fn lemma_skip_step<T>(s: Seq<T>, i: int)
    requires
        0 <= i < s.len(),
    ensures
        s.skip(i).len() > 0,
        s.skip(i)[0] == s[i],
        s.skip(i).drop_first() == s.skip(i + 1),
        s.take(i + 1) == s.take(i).push(s[i]),
{
    assert(s.skip(i).drop_first() =~= s.skip(i + 1));
    assert(s.take(i + 1) =~= s.take(i).push(s[i]));
}

/// Whether some lock among the first `i + 1` carries the id.
proof fn lemma_has_lock_push(s: Seq<BalanceLock>, l: BalanceLock, id: LockIdentifier)
    ensures
        has_lock(s.push(l), id) <==> (has_lock(s, id) || l.id == id),
{
    if has_lock(s.push(l), id) {
        let j = choose|j: int| 0 <= j < s.push(l).len() && s.push(l)[j].id == id;
        if j < s.len() {
            assert(s[j] == s.push(l)[j]);
        }
    }
    if has_lock(s, id) {
        let j = choose|j: int| 0 <= j < s.len() && s[j].id == id;
        assert(s.push(l)[j] == s[j]);
    }
    if l.id == id {
        assert(s.push(l)[s.len() as int] == l);
    }
}

/// What `set_name` does: a holder of the update permission sets the asset's symbol.
pub open spec fn set_name_spec(g: SymbolState, origin: Origin, asset_id: AssetId, symbol: Seq<u8>) -> (SymbolState, Result<(), DispatchError>) {
    match origin {
        Origin::Signed(who) => if !g.has_permission(asset_id, who, PermissionType::Update) {
            (g, Err(DispatchError::AssetSymbol(Error::NoNamePermission)))
        } else {
            (SymbolState { symbols: g.symbols.insert(asset_id, symbol), ..g }.emit(
                if g.symbols.contains_key(asset_id) {
                    RawEvent::SymbolUpdated(asset_id)
                } else {
                    RawEvent::SymbolCreated(asset_id)
                },
            ), Ok(()))
        },
        _ => (g, Err(DispatchError::BadOrigin)),
    }
}

/// A ledger result as a dispatch result.
pub open spec fn lift(r: Result<(), Error>) -> Result<(), DispatchError> {
    match r {
        Ok(_) => Ok(()),
        Err(e) => Err(DispatchError::AssetSymbol(e)),
    }
}

/// What the `transfer` call does: a non-zero amount moves from the signer to `to`.
pub open spec fn transfer_call_spec(g: SymbolState, origin: Origin, asset_id: AssetId, to: AccountId, amount: Balance) -> (SymbolState, Result<(), DispatchError>) {
    match origin {
        Origin::Signed(from) => if amount == 0 {
            (g, Err(DispatchError::AssetSymbol(Error::ZeroAmount)))
        } else {
            let (g1, r) = transfer_spec(g, asset_id, from, to, amount);
            (if r is Ok && from != to { g1.emit(RawEvent::Transferred(asset_id, from, to, amount)) } else { g1 }, lift(r))
        },
        _ => (g, Err(DispatchError::BadOrigin)),
    }
}

/// What the `mint` call does.
pub open spec fn mint_call_spec(g: SymbolState, origin: Origin, a: AssetId, to: AccountId, amount: Balance) -> (SymbolState, Result<(), DispatchError>) {
    match origin {
        Origin::Signed(who) => {
            let (g1, r) = mint_spec(g, a, who, to, amount);
            (if r is Ok { g1.emit(RawEvent::Minted(a, to, amount)) } else { g1 }, lift(r))
        },
        _ => (g, Err(DispatchError::BadOrigin)),
    }
}

/// What the `burn` call does.
pub open spec fn burn_call_spec(g: SymbolState, origin: Origin, a: AssetId, to: AccountId, amount: Balance) -> (SymbolState, Result<(), DispatchError>) {
    match origin {
        Origin::Signed(who) => {
            let (g1, r) = burn_spec(g, a, who, to, amount);
            (if r is Ok { g1.emit(RawEvent::Burned(a, to, amount)) } else { g1 }, lift(r))
        },
        _ => (g, Err(DispatchError::BadOrigin)),
    }
}

/// Whether two lock identifiers are the same bytes.
fn same_lock_id(a: &LockIdentifier, b: &LockIdentifier) -> (r: bool)
    ensures
        r == (*a == *b),
{
    let r = bytes_equal(a.as_slice(), b.as_slice());
    proof {
        if r {
            assert(a@ =~= b@);
            assert(*a == *b) by {
                assert forall|i: int| 0 <= i < 8 implies a[i] == b[i] by {
                    assert(a@[i] == b@[i]);
                }
            }
        }
    }
    r
}

/// The lesser of two amounts.
fn min_of(x: Balance, y: Balance) -> (m: Balance)
    ensures
        m == min_balance(x, y),
{
    if x <= y {
        x
    } else {
        y
    }
}

/// The named ledger: its storage and the events it has emitted.
pub struct Module {
    /// The symbol of each asset.
    pub symbol: StorageMap<AssetId, Vec<u8>>,
    /// Total issuance of a given asset.
    pub total_issuance: StorageMap<AssetId, Balance>,
    /// The free balance of a given asset under an account.
    pub free_balance: StorageMap<(AssetId, AccountId), Balance>,
    /// The reserved balance of a given asset under an account.
    pub reserved_balance: StorageMap<(AssetId, AccountId), Balance>,
    /// Next available id for a user-created asset.
    pub next_asset_id: AssetId,
    /// Permission options for a given asset.
    pub permissions: StorageMap<AssetId, Permissions>,
    /// Liquidity locks on the balances of each account.
    pub locks: StorageMap<AccountId, Vec<BalanceLock>>,
    /// Whether the second account may move the reserve of the first.
    pub reserve_delegate: StorageMap<(AccountId, AccountId), bool>,
    /// The asset that locks restrict.
    pub staking_asset_id: AssetId,
    /// Events emitted so far.
    pub events: Vec<RawEvent>,
}

impl View for Module {
    type V = SymbolState;

    open spec fn view(&self) -> SymbolState {
        SymbolState {
            symbols: self.symbol@,
            total_issuance: self.total_issuance@,
            free_balance: self.free_balance@,
            reserved_balance: self.reserved_balance@,
            next_asset_id: self.next_asset_id,
            permissions: self.permissions@,
            locks: self.locks@,
            reserve_delegate: self.reserve_delegate@,
            staking_asset_id: self.staking_asset_id,
            events: self.events@,
        }
    }
}

impl Module {
    /// A named ledger with no assets, whose locks restrict `staking_asset_id`.
    pub fn new(staking_asset_id: AssetId) -> (m: Self)
        ensures
            m@ == (SymbolState {
                symbols: Map::empty(),
                total_issuance: Map::empty(),
                free_balance: Map::empty(),
                reserved_balance: Map::empty(),
                next_asset_id: 0,
                permissions: Map::empty(),
                locks: Map::empty(),
                reserve_delegate: Map::empty(),
                staking_asset_id,
                events: Seq::empty(),
            }),
    {
        Module {
            symbol: StorageMap::new(),
            total_issuance: StorageMap::new(),
            free_balance: StorageMap::new(),
            reserved_balance: StorageMap::new(),
            next_asset_id: 0,
            permissions: StorageMap::new(),
            locks: StorageMap::new(),
            reserve_delegate: StorageMap::new(),
            staking_asset_id,
            events: Vec::new(),
        }
    }

    /// The symbol of an asset, empty where none is stored.
    pub fn symbol(&self, asset_id: &AssetId) -> (v: Vec<u8>)
        ensures
            v@ == (if self@.symbols.contains_key(*asset_id) { self@.symbols[*asset_id] } else { Seq::<u8>::empty() }),
    {
        match self.symbol.get(asset_id) {
            Some(v) => copy_bytes(v.as_slice()),
            None => Vec::new(),
        }
    }

    /// The total issuance of an asset.
    pub fn total_issuance(&self, asset_id: &AssetId) -> (b: Balance)
        ensures
            b == self@.total(*asset_id),
    {
        match self.total_issuance.get(asset_id) {
            Some(v) => *v,
            None => 0,
        }
    }

    /// The id the next created asset receives.
    pub fn next_asset_id(&self) -> (id: AssetId)
        ensures
            id == self@.next_asset_id,
    {
        self.next_asset_id
    }

    /// The permissions of an asset, the default where none are stored.
    pub fn get_permission(&self, asset_id: &AssetId) -> (p: Permissions)
        ensures
            p == self@.permission(*asset_id),
    {
        match self.permissions.get(asset_id) {
            Some(p) => *p,
            None => Permissions::default(),
        }
    }

    /// The locks of an account, empty where none are stored.
    pub fn locks(&self, who: &AccountId) -> (v: Vec<BalanceLock>)
        ensures
            v@ == self@.locks_of(*who),
    {
        match self.locks.get(who) {
            Some(v) => {
                let mut r: Vec<BalanceLock> = Vec::new();
                let mut i: usize = 0;
                while i < v.len()
                    invariant
                        i <= v@.len(),
                        r@ == v@.subrange(0, i as int),
                    decreases v@.len() - i,
                {
                    r.push(v[i]);
                    i = i + 1;
                    assert(r@ =~= v@.subrange(0, i as int));
                }
                assert(r@ =~= v@);
                r
            },
            None => Vec::new(),
        }
    }

    /// Whether `delegate` may move the reserve of `who`.
    pub fn reserve_delegate(&self, who: &AccountId, delegate: &AccountId) -> (b: bool)
        ensures
            b == self@.delegated(*who, *delegate),
    {
        match self.reserve_delegate.get(&(*who, *delegate)) {
            Some(b) => *b,
            None => false,
        }
    }

    /// Get an account's total balance of an asset kind.
    pub fn total_balance(&self, asset_id: &AssetId, who: &AccountId) -> (b: Balance)
        requires
            self@.free(*asset_id, *who) + self@.reserved(*asset_id, *who) <= Balance::MAX,
        ensures
            b == self@.free(*asset_id, *who) + self@.reserved(*asset_id, *who),
    {
        self.free_balance(asset_id, who) + self.reserved_balance(asset_id, who)
    }

    /// Get an account's free balance of an asset kind.
    pub fn free_balance(&self, asset_id: &AssetId, who: &AccountId) -> (b: Balance)
        ensures
            b == self@.free(*asset_id, *who),
    {
        match self.free_balance.get(&(*asset_id, *who)) {
            Some(v) => *v,
            None => 0,
        }
    }

    /// Get an account's reserved balance of an asset kind.
    pub fn reserved_balance(&self, asset_id: &AssetId, who: &AccountId) -> (b: Balance)
        ensures
            b == self@.reserved(*asset_id, *who),
    {
        match self.reserved_balance.get(&(*asset_id, *who)) {
            Some(v) => *v,
            None => 0,
        }
    }

    fn deposit_event(&mut self, e: RawEvent)
        ensures
            final(self)@ == old(self)@.emit(e),
    {
        self.events.push(e);
    }

    /// NOTE: LOW-LEVEL: does not maintain total issuance.
    fn set_free_balance(&mut self, asset_id: &AssetId, who: &AccountId, balance: Balance)
        ensures
            final(self)@ == old(self)@.with_free(*asset_id, *who, balance),
    {
        self.free_balance.insert((*asset_id, *who), balance);
    }

    /// NOTE: LOW-LEVEL: does not maintain total issuance.
    fn set_reserved_balance(&mut self, asset_id: &AssetId, who: &AccountId, balance: Balance)
        ensures
            final(self)@ == old(self)@.with_reserved(*asset_id, *who, balance),
    {
        self.reserved_balance.insert((*asset_id, *who), balance);
    }

    /// Whether `who` holds the permission `what` on the asset; the reserve permission is
    /// never granted here.
    pub fn check_permission(&self, asset_id: &AssetId, who: &AccountId, what: &PermissionType) -> (b: bool)
        ensures
            b == self@.has_permission(*asset_id, *who, *what),
    {
        let permission = self.get_permission(asset_id);
        match what {
            PermissionType::Burn => match permission.burn {
                Owner::Address(account) => account == *who,
                Owner::Nobody => false,
            },
            PermissionType::Mint => match permission.mint {
                Owner::Address(account) => account == *who,
                Owner::Nobody => false,
            },
            PermissionType::Update => match permission.update {
                Owner::Address(account) => account == *who,
                Owner::Nobody => false,
            },
            PermissionType::Reserve => false,
        }
    }

    /// Mint to an account's free balance, without event.
    pub fn mint_free(&mut self, asset_id: &AssetId, who: &AccountId, to: &AccountId, amount: &Balance) -> (r: Result<(), Error>)
        ensures
            (final(self)@, r) == mint_spec(old(self)@, *asset_id, *who, *to, *amount),
    {
        if self.check_permission(asset_id, who, &PermissionType::Mint) {
            let prior_free_balance = self.free_balance(asset_id, to);
            let current_total_issuance = self.total_issuance(asset_id);
            let new_total_issuance = match current_total_issuance.checked_add(*amount) {
                Some(v) => v,
                None => { return Err(Error::TotalMintingOverflow); },
            };
            let value = match prior_free_balance.checked_add(*amount) {
                Some(v) => v,
                None => { return Err(Error::FreeMintingOverflow); },
            };
            self.total_issuance.insert(*asset_id, new_total_issuance);
            self.set_free_balance(asset_id, to, value);
            Ok(())
        } else {
            Err(Error::NoMintPermission)
        }
    }

    /// Burn from an account's free balance, without event.
    pub fn burn_free(&mut self, asset_id: &AssetId, who: &AccountId, to: &AccountId, amount: &Balance) -> (r: Result<(), Error>)
        ensures
            (final(self)@, r) == burn_spec(old(self)@, *asset_id, *who, *to, *amount),
    {
        if self.check_permission(asset_id, who, &PermissionType::Burn) {
            let prior_free_balance = self.free_balance(asset_id, to);
            let current_total_issuance = self.total_issuance(asset_id);
            let new_total_issuance = match current_total_issuance.checked_sub(*amount) {
                Some(v) => v,
                None => { return Err(Error::TotalBurningUnderflow); },
            };
            let value = match prior_free_balance.checked_sub(*amount) {
                Some(v) => v,
                None => { return Err(Error::FreeBurningUnderflow); },
            };
            self.total_issuance.insert(*asset_id, new_total_issuance);
            self.set_free_balance(asset_id, to, value);
            Ok(())
        } else {
            Err(Error::NoBurnPermission)
        }
    }

    /// Creates an asset under the symbol `name`: under `asset_id` where one is given (a
    /// reserved id below the next free one with no issuance yet), else under the next free id.
    pub fn create_asset(&mut self, asset_id: Option<AssetId>, from_account: Option<AccountId>, name: Vec<u8>, options: AssetOptions) -> (r: Result<(), Error>)
        ensures
            (final(self)@, r) == create_asset_spec(old(self)@, asset_id, from_account, name@, options),
    {
        let asset_id = match asset_id {
            Some(asset_id) => {
                if self.total_issuance.contains_key(&asset_id) {
                    return Err(Error::IdAlreadyTaken);
                }
                if !(asset_id < self.next_asset_id) {
                    return Err(Error::IdUnavailable);
                }
                asset_id
            },
            None => {
                let asset_id = self.next_asset_id;
                let next_id = match asset_id.checked_add(1) {
                    Some(v) => v,
                    None => { return Err(Error::NoIdAvailable); },
                };
                self.next_asset_id = next_id;
                asset_id
            },
        };
        let account_id = match from_account {
            Some(a) => a,
            None => 0,
        };
        self.total_issuance.insert(asset_id, options.initial_issuance);
        self.free_balance.insert((asset_id, account_id), options.initial_issuance);
        self.permissions.insert(asset_id, options.permissions);
        self.symbol.insert(asset_id, name);
        self.deposit_event(RawEvent::Created(asset_id, account_id, options));
        Ok(())
    }

    /// `Ok` where the account's locks allow the withdrawal, else `LiquidityRestrictions`.
    pub fn ensure_can_withdraw(&self, asset_id: &AssetId, who: &AccountId, amount: Balance, reasons: WithdrawReasons, new_balance: Balance) -> (r: Result<(), Error>)
        ensures
            r is Ok <==> self@.can_withdraw(*asset_id, *who, reasons, new_balance),
            r is Err ==> r == Err::<(), Error>(Error::LiquidityRestrictions),
    {
        if *asset_id != self.staking_asset_id {
            return Ok(());
        }
        let locks = self.locks(who);
        if locks.len() == 0 {
            return Ok(());
        }
        let mut i: usize = 0;
        while i < locks.len()
            invariant
                i <= locks@.len(),
                locks@ == self@.locks_of(*who),
                *asset_id == self@.staking_asset_id,
                forall|j: int| 0 <= j < i ==> new_balance >= (#[trigger] locks@[j]).amount
                    || locks@[j].reasons.bits & reasons.bits == 0,
            decreases locks@.len() - i,
        {
            let l = locks[i];
            if !(new_balance >= l.amount || !l.reasons.intersects(&reasons)) {
                assert(self@.locks_of(*who)[i as int] == l);
                assert(!(new_balance >= self@.locks_of(*who)[i as int].amount
                    || self@.locks_of(*who)[i as int].reasons.bits & reasons.bits == 0));
                return Err(Error::LiquidityRestrictions);
            }
            i = i + 1;
        }
        Ok(())
    }

    /// Transfer some liquid free balance from one account to another, without event.
    pub fn make_transfer(&mut self, asset_id: &AssetId, from: &AccountId, to: &AccountId, amount: Balance) -> (r: Result<(), Error>)
        requires
            transfer_fits(old(self)@, *asset_id, *from, *to, amount),
        ensures
            (final(self)@, r) == transfer_spec(old(self)@, *asset_id, *from, *to, amount),
    {
        let new_balance = match self.free_balance(asset_id, from).checked_sub(amount) {
            Some(v) => v,
            None => { return Err(Error::InsufficientBalance); },
        };
        match self.ensure_can_withdraw(asset_id, from, amount, WithdrawReasons::transfer(), new_balance) {
            Ok(()) => {},
            Err(e) => { return Err(e); },
        }
        if *from != *to {
            self.set_free_balance(asset_id, from, new_balance);
            let to_balance = self.free_balance(asset_id, to);
            self.set_free_balance(asset_id, to, to_balance + amount);
        }
        Ok(())
    }

    /// Transfer some liquid free balance from one account to another, with event.
    pub fn make_transfer_with_event(&mut self, asset_id: &AssetId, from: &AccountId, to: &AccountId, amount: Balance) -> (r: Result<(), Error>)
        requires
            transfer_fits(old(self)@, *asset_id, *from, *to, amount),
        ensures
            ({
                let (g, rr) = transfer_spec(old(self)@, *asset_id, *from, *to, amount);
                r == rr && final(self)@ == (if rr is Ok && *from != *to {
                    g.emit(RawEvent::Transferred(*asset_id, *from, *to, amount))
                } else {
                    g
                })
            }),
    {
        match self.make_transfer(asset_id, from, to, amount) {
            Ok(()) => {},
            Err(e) => { return Err(e); },
        }
        if *from != *to {
            self.deposit_event(RawEvent::Transferred(*asset_id, *from, *to, amount));
        }
        Ok(())
    }

    /// Moves `amount` of `who` from free into reserve, on behalf of `from`, whom `who` must
    /// have authorised.
    pub fn reserve(&mut self, from: &AccountId, asset_id: &AssetId, who: &AccountId, amount: Balance) -> (r: Result<(), Error>)
        requires
            old(self)@.free(*asset_id, *who) >= amount ==> old(self)@.reserved(*asset_id, *who) + amount <= Balance::MAX,
        ensures
            (final(self)@, r) == reserve_spec(old(self)@, *from, *asset_id, *who, amount),
    {
        if !self.reserve_delegate(who, from) {
            return Err(Error::NoReserveAuth);
        }
        let prior_reserve_balance = self.reserved_balance(asset_id, who);
        let prior_free_balance = self.free_balance(asset_id, who);
        if prior_free_balance < amount {
            return Err(Error::InsufficientBalance);
        }
        self.set_reserved_balance(asset_id, who, prior_reserve_balance + amount);
        self.set_free_balance(asset_id, who, prior_free_balance - amount);
        Ok(())
    }

    /// Moves `amount` of `who` from reserve back to free, on behalf of `from`, whom `who`
    /// must have authorised.
    pub fn unreserve(&mut self, from: &AccountId, asset_id: &AssetId, who: &AccountId, amount: Balance) -> (r: Result<(), Error>)
        requires
            amount <= old(self)@.reserved(*asset_id, *who) ==> old(self)@.free(*asset_id, *who) + amount <= Balance::MAX,
        ensures
            (final(self)@, r) == unreserve_spec(old(self)@, *from, *asset_id, *who, amount),
    {
        if !self.reserve_delegate(who, from) {
            return Err(Error::NoReserveAuth);
        }
        let b = self.reserved_balance(asset_id, who);
        if !(amount <= b) {
            return Err(Error::NotEnoughReserved);
        }
        let prior_free_balance = self.free_balance(asset_id, who);
        self.set_free_balance(asset_id, who, prior_free_balance + amount);
        self.set_reserved_balance(asset_id, who, b - amount);
        Ok(())
    }

    /// Deducts up to `amount` from the combined balance of `who`, free balance first; hands
    /// back what could not be deducted, `None` where all was.
    pub fn slash(&mut self, asset_id: &AssetId, who: &AccountId, amount: Balance) -> (r: Option<Balance>)
        ensures
            (final(self)@, r) == slash_spec(old(self)@, *asset_id, *who, amount),
    {
        let free_balance = self.free_balance(asset_id, who);
        let free_slash = min_of(free_balance, amount);
        self.set_free_balance(asset_id, who, free_balance - free_slash);
        if free_slash < amount {
            self.slash_reserved(asset_id, who, amount - free_slash)
        } else {
            None
        }
    }

    /// Deducts up to `amount` from the reserve of `who`; hands back what could not be
    /// deducted, `None` where all was.
    pub fn slash_reserved(&mut self, asset_id: &AssetId, who: &AccountId, amount: Balance) -> (r: Option<Balance>)
        ensures
            (final(self)@, r) == slash_reserved_spec(old(self)@, *asset_id, *who, amount),
    {
        let prior_reserve_balance = self.reserved_balance(asset_id, who);
        let slash = min_of(prior_reserve_balance, amount);
        self.set_reserved_balance(asset_id, who, prior_reserve_balance - slash);
        if amount == slash {
            None
        } else {
            Some(amount - slash)
        }
    }

    /// Moves up to `amount` from the reserve of `who` to the free or reserved balance of
    /// `beneficiary`; hands back what could not be moved.
    pub fn repatriate_reserved(&mut self, asset_id: &AssetId, who: &AccountId, beneficiary: &AccountId, amount: Balance, status: BalanceStatus) -> (r: Balance)
        requires
            repatriate_fits(old(self)@, *asset_id, *who, *beneficiary, amount, status),
        ensures
            (final(self)@, r) == repatriate_reserved_spec(old(self)@, *asset_id, *who, *beneficiary, amount, status),
    {
        let b = self.reserved_balance(asset_id, who);
        let slash = min_of(b, amount);
        match status {
            BalanceStatus::Free => {
                let prior_free_balance = self.free_balance(asset_id, beneficiary);
                self.set_free_balance(asset_id, beneficiary, prior_free_balance + slash);
            },
            BalanceStatus::Reserved => {
                let prior_reserved_balance = self.reserved_balance(asset_id, beneficiary);
                self.set_reserved_balance(asset_id, beneficiary, prior_reserved_balance + slash);
            },
        }
        self.set_reserved_balance(asset_id, who, b - slash);
        amount - slash
    }
    /// Sets the lock `id` of `who`: the first lock with that id is replaced and any later
    /// one with it dropped; where there is none, the lock is added at the end.
    pub fn set_lock(&mut self, id: LockIdentifier, who: &AccountId, amount: Balance, reasons: WithdrawReasons)
        ensures
            ({
                let s = old(self)@.locks_of(*who);
                let new_lock = BalanceLock { id, amount, reasons };
                final(self)@ == old(self)@.with_locks(*who, if has_lock(s, id) {
                    replace_lock(s, id, Some(new_lock))
                } else {
                    s.push(new_lock)
                })
            }),
    {
        let new_lock = BalanceLock { id, amount, reasons };
        let ghost s = old(self)@.locks_of(*who);
        let old_locks = self.locks(who);
        let mut pending: Option<BalanceLock> = Some(new_lock);
        let mut out: Vec<BalanceLock> = Vec::new();
        let mut i: usize = 0;
        assert(s.skip(0) =~= s);
        while i < old_locks.len()
            invariant
                i <= old_locks@.len(),
                old_locks@ == s,
                out@ + replace_lock(s.skip(i as int), id, pending) == replace_lock(s, id, Some(new_lock)),
                pending is None <==> has_lock(s.take(i as int), id),
                pending is Some ==> pending == Some(new_lock),
            decreases old_locks@.len() - i,
        {
            let l = old_locks[i];
            proof {
                lemma_skip_step(s, i as int);
                lemma_has_lock_push(s.take(i as int), l, id);
            }
            let ghost rest = replace_lock(s.skip(i + 1), id, if l.id == id { None } else { pending });
            if same_lock_id(&l.id, &id) {
                match pending {
                    Some(nl) => {
                        assert(out@.push(nl) + rest =~= out@ + rest.insert(0, nl));
                        out.push(nl);
                        pending = None;
                    },
                    None => {},
                }
            } else {
                assert(out@.push(l) + rest =~= out@ + rest.insert(0, l));
                out.push(l);
            }
            i = i + 1;
        }
        assert(s.take(s.len() as int) =~= s);
        assert(out@ + Seq::<BalanceLock>::empty() =~= out@);
        match pending {
            Some(l) => {
                proof {
                    lemma_locks_without_id(s, id, Some(new_lock));
                }
                out.push(l);
            },
            None => {},
        }
        self.locks.insert(*who, out);
    }

    /// Extends the lock `id` of `who`: the first lock with that id takes the larger amount
    /// and both sets of reasons, and any later one with it is dropped; where there is none,
    /// the lock is added at the end.
    pub fn extend_lock(&mut self, id: LockIdentifier, who: &AccountId, amount: Balance, reasons: WithdrawReasons)
        ensures
            ({
                let s = old(self)@.locks_of(*who);
                let new_lock = BalanceLock { id, amount, reasons };
                final(self)@ == old(self)@.with_locks(*who, if has_lock(s, id) {
                    merge_lock(s, Some(new_lock), id)
                } else {
                    s.push(new_lock)
                })
            }),
    {
        let new_lock = BalanceLock { id, amount, reasons };
        let ghost s = old(self)@.locks_of(*who);
        let old_locks = self.locks(who);
        let mut pending: Option<BalanceLock> = Some(new_lock);
        let mut out: Vec<BalanceLock> = Vec::new();
        let mut i: usize = 0;
        assert(s.skip(0) =~= s);
        while i < old_locks.len()
            invariant
                i <= old_locks@.len(),
                old_locks@ == s,
                out@ + merge_lock(s.skip(i as int), pending, id) == merge_lock(s, Some(new_lock), id),
                pending is None <==> has_lock(s.take(i as int), id),
                pending is Some ==> pending == Some(new_lock),
            decreases old_locks@.len() - i,
        {
            let l = old_locks[i];
            proof {
                lemma_skip_step(s, i as int);
                lemma_has_lock_push(s.take(i as int), l, id);
            }
            let ghost rest = merge_lock(s.skip(i + 1), if l.id == id { None } else { pending }, id);
            if same_lock_id(&l.id, &id) {
                match pending {
                    Some(nl) => {
                        let merged = BalanceLock {
                            id: l.id,
                            amount: if l.amount >= nl.amount { l.amount } else { nl.amount },
                            reasons: l.reasons.union(&nl.reasons),
                        };
                        assert(out@.push(merged) + rest =~= out@ + rest.insert(0, merged));
                        out.push(merged);
                        pending = None;
                    },
                    None => {},
                }
            } else {
                assert(out@.push(l) + rest =~= out@ + rest.insert(0, l));
                out.push(l);
            }
            i = i + 1;
        }
        assert(s.take(s.len() as int) =~= s);
        assert(out@ + Seq::<BalanceLock>::empty() =~= out@);
        match pending {
            Some(l) => {
                proof {
                    lemma_locks_without_id(s, id, Some(new_lock));
                }
                out.push(l);
            },
            None => {},
        }
        self.locks.insert(*who, out);
    }

    /// Drops every lock `id` of `who`.
    pub fn remove_lock(&mut self, id: LockIdentifier, who: &AccountId)
        ensures
            final(self)@ == old(self)@.with_locks(*who, drop_lock(old(self)@.locks_of(*who), id)),
    {
        let ghost s = old(self)@.locks_of(*who);
        let old_locks = self.locks(who);
        let mut out: Vec<BalanceLock> = Vec::new();
        let mut i: usize = 0;
        assert(s.skip(0) =~= s);
        while i < old_locks.len()
            invariant
                i <= old_locks@.len(),
                old_locks@ == s,
                out@ + drop_lock(s.skip(i as int), id) == drop_lock(s, id),
            decreases old_locks@.len() - i,
        {
            let l = old_locks[i];
            proof {
                lemma_skip_step(s, i as int);
            }
            let ghost rest = drop_lock(s.skip(i + 1), id);
            if !same_lock_id(&l.id, &id) {
                assert(out@.push(l) + rest =~= out@ + rest.insert(0, l));
                out.push(l);
            }
            i = i + 1;
        }
        assert(out@ + Seq::<BalanceLock>::empty() =~= out@);
        self.locks.insert(*who, out);
    }
    /// Sets the symbol of an asset; for a holder of its update permission.
    pub fn set_name(&mut self, origin: Origin, asset_id: AssetId, symbol: Vec<u8>) -> (r: Result<(), DispatchError>)
        ensures
            (final(self)@, r) == set_name_spec(old(self)@, origin, asset_id, symbol@),
    {
        let who = match ensure_signed(origin) {
            Ok(w) => w,
            Err(e) => { return Err(e); },
        };
        let can_update = self.check_permission(&asset_id, &who, &PermissionType::Update);
        if !can_update {
            return Err(DispatchError::AssetSymbol(Error::NoNamePermission));
        }
        if self.symbol.contains_key(&asset_id) {
            self.symbol.insert(asset_id, symbol);
            self.deposit_event(RawEvent::SymbolUpdated(asset_id));
        } else {
            self.symbol.insert(asset_id, symbol);
            self.deposit_event(RawEvent::SymbolCreated(asset_id));
        }
        Ok(())
    }

    /// Creates an asset under the next free id, owned by the signer, under the symbol `name`.
    pub fn create(&mut self, origin: Origin, name: Vec<u8>, options: AssetOptions) -> (r: Result<(), DispatchError>)
        ensures
            match origin {
                Origin::Signed(who) => {
                    let (g, rr) = create_asset_spec(old(self)@, None, Some(who), name@, options);
                    final(self)@ == g && r == lift(rr)
                },
                _ => r == Err::<(), DispatchError>(DispatchError::BadOrigin) && final(self)@ == old(self)@,
            },
    {
        let who = match ensure_signed(origin) {
            Ok(w) => w,
            Err(e) => { return Err(e); },
        };
        match self.create_asset(None, Some(who), name, options) {
            Ok(()) => Ok(()),
            Err(e) => Err(DispatchError::AssetSymbol(e)),
        }
    }

    /// Transfers a non-zero amount from the signer to `to`.
    pub fn transfer(&mut self, origin: Origin, asset_id: AssetId, to: AccountId, amount: Balance) -> (r: Result<(), DispatchError>)
        requires
            forall|from: AccountId| origin == Origin::Signed(from) ==> transfer_fits(old(self)@, asset_id, from, to, amount),
        ensures
            (final(self)@, r) == transfer_call_spec(old(self)@, origin, asset_id, to, amount),
    {
        let from = match ensure_signed(origin) {
            Ok(w) => w,
            Err(e) => { return Err(e); },
        };
        if amount == 0 {
            return Err(DispatchError::AssetSymbol(Error::ZeroAmount));
        }
        match self.make_transfer_with_event(&asset_id, &from, &to, amount) {
            Ok(()) => Ok(()),
            Err(e) => Err(DispatchError::AssetSymbol(e)),
        }
    }

    /// Replaces the permissions of an asset; for a holder of its update permission.
    pub fn update_permission(&mut self, origin: Origin, asset_id: AssetId, new_permission: Permissions) -> (r: Result<(), DispatchError>)
        ensures
            match origin {
                Origin::Signed(who) => if old(self)@.has_permission(asset_id, who, PermissionType::Update) {
                    r is Ok && final(self)@ == (SymbolState {
                        permissions: old(self)@.permissions.insert(asset_id, new_permission),
                        ..old(self)@
                    }).emit(RawEvent::PermissionUpdated(asset_id, new_permission))
                } else {
                    r == Err::<(), DispatchError>(DispatchError::AssetSymbol(Error::NoUpdatePermission)) && final(self)@ == old(self)@
                },
                _ => r == Err::<(), DispatchError>(DispatchError::BadOrigin) && final(self)@ == old(self)@,
            },
    {
        let who = match ensure_signed(origin) {
            Ok(w) => w,
            Err(e) => { return Err(e); },
        };
        if self.check_permission(&asset_id, &who, &PermissionType::Update) {
            self.permissions.insert(asset_id, new_permission);
            self.deposit_event(RawEvent::PermissionUpdated(asset_id, new_permission));
            Ok(())
        } else {
            Err(DispatchError::AssetSymbol(Error::NoUpdatePermission))
        }
    }

    /// Mints an asset; for a holder of its mint permission.
    pub fn mint(&mut self, origin: Origin, asset_id: AssetId, to: AccountId, amount: Balance) -> (r: Result<(), DispatchError>)
        ensures
            (final(self)@, r) == mint_call_spec(old(self)@, origin, asset_id, to, amount),
    {
        let who = match ensure_signed(origin) {
            Ok(w) => w,
            Err(e) => { return Err(e); },
        };
        match self.mint_free(&asset_id, &who, &to, &amount) {
            Ok(()) => {},
            Err(e) => { return Err(DispatchError::AssetSymbol(e)); },
        }
        self.deposit_event(RawEvent::Minted(asset_id, to, amount));
        Ok(())
    }

    /// Burns an asset; for a holder of its burn permission.
    pub fn burn(&mut self, origin: Origin, asset_id: AssetId, to: AccountId, amount: Balance) -> (r: Result<(), DispatchError>)
        ensures
            (final(self)@, r) == burn_call_spec(old(self)@, origin, asset_id, to, amount),
    {
        let who = match ensure_signed(origin) {
            Ok(w) => w,
            Err(e) => { return Err(e); },
        };
        match self.burn_free(&asset_id, &who, &to, &amount) {
            Ok(()) => {},
            Err(e) => { return Err(DispatchError::AssetSymbol(e)); },
        }
        self.deposit_event(RawEvent::Burned(asset_id, to, amount));
        Ok(())
    }

    /// Creates an asset under a reserved id, owned by nobody in particular, with an empty
    /// symbol; root only.
    pub fn create_reserved(&mut self, origin: Origin, asset_id: AssetId, options: AssetOptions) -> (r: Result<(), DispatchError>)
        ensures
            origin == Origin::Root ==> ({
                let (g, rr) = create_asset_spec(old(self)@, Some(asset_id), None, Seq::empty(), options);
                final(self)@ == g && r == lift(rr)
            }),
            origin != Origin::Root ==> r == Err::<(), DispatchError>(DispatchError::BadOrigin) && final(self)@ == old(self)@,
    {
        match ensure_root(origin) {
            Ok(()) => {},
            Err(e) => { return Err(e); },
        }
        match self.create_asset(Some(asset_id), None, Vec::new(), options) {
            Ok(()) => Ok(()),
            Err(e) => Err(DispatchError::AssetSymbol(e)),
        }
    }

    /// Lets `delegator` move the signer's reserve.
    pub fn authorize_reserve(&mut self, origin: Origin, delegator: AccountId) -> (r: Result<(), DispatchError>)
        ensures
            match origin {
                Origin::Signed(who) => r is Ok && final(self)@ == (SymbolState {
                    reserve_delegate: old(self)@.reserve_delegate.insert((who, delegator), true),
                    ..old(self)@
                }).emit(RawEvent::ReserveAuthorized(who, delegator)),
                _ => r == Err::<(), DispatchError>(DispatchError::BadOrigin) && final(self)@ == old(self)@,
            },
    {
        let who = match ensure_signed(origin) {
            Ok(w) => w,
            Err(e) => { return Err(e); },
        };
        self.reserve_delegate.insert((who, delegator), true);
        self.deposit_event(RawEvent::ReserveAuthorized(who, delegator));
        Ok(())
    }

    /// Takes back from `delegator` the right to move the signer's reserve.
    pub fn revoke_reserve(&mut self, origin: Origin, delegator: AccountId) -> (r: Result<(), DispatchError>)
        ensures
            match origin {
                Origin::Signed(who) => r is Ok && final(self)@ == (SymbolState {
                    reserve_delegate: old(self)@.reserve_delegate.remove((who, delegator)),
                    ..old(self)@
                }),
                _ => r == Err::<(), DispatchError>(DispatchError::BadOrigin) && final(self)@ == old(self)@,
            },
    {
        let who = match ensure_signed(origin) {
            Ok(w) => w,
            Err(e) => { return Err(e); },
        };
        self.reserve_delegate.remove(&(who, delegator));
        Ok(())
    }
}

/// The settings a named ledger starts from.
pub struct GenesisConfig {
    /// The assets every endowed account holds from the start.
    pub assets: Vec<AssetId>,
    /// What each endowed account holds of each of those assets.
    pub initial_balance: Balance,
    /// The accounts endowed at genesis.
    pub endowed_accounts: Vec<AccountId>,
    /// The id the first asset created later receives.
    pub next_asset_id: AssetId,
}

impl GenesisConfig {
    /// The named ledger these settings make, its locks restricting `staking_asset_id`:
    /// each listed asset is issued to the endowed accounts.
    pub fn build(&self, staking_asset_id: AssetId) -> (m: Module)
        requires
            genesis_issuance(self.initial_balance, self.endowed_accounts@) <= Balance::MAX,
        ensures
            m@ == (SymbolState {
                symbols: Map::empty(),
                total_issuance: issued(self.assets@, genesis_issuance(self.initial_balance, self.endowed_accounts@) as Balance),
                free_balance: endowed(self.assets@, self.endowed_accounts@, self.initial_balance),
                reserved_balance: Map::empty(),
                next_asset_id: self.next_asset_id,
                permissions: Map::empty(),
                locks: Map::empty(),
                reserve_delegate: Map::empty(),
                staking_asset_id,
                events: Seq::empty(),
            }),
    {
        let total = issuance(self.initial_balance, &self.endowed_accounts);
        Module {
            symbol: StorageMap::new(),
            total_issuance: issue(&self.assets, total),
            free_balance: endow(&self.assets, &self.endowed_accounts, self.initial_balance),
            reserved_balance: StorageMap::new(),
            next_asset_id: self.next_asset_id,
            permissions: StorageMap::new(),
            locks: StorageMap::new(),
            reserve_delegate: StorageMap::new(),
            staking_asset_id,
            events: Vec::new(),
        }
    }
}

} // verus!
