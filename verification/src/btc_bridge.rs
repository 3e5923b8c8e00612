//! A bridge for a shadow asset of BTC: deposits seen on the other chain are minted here,
//! or held for vetting when large and the receiver is not cleared; withdrawals wait in a
//! vault until an operator settles or refunds them.
use vstd::prelude::*;
use crate::assets::{mint_after_hook_spec, AssetsState, BeforeAssetMint, OnAssetMint};
use crate::dispatch::{ensure_root, ensure_signed, AccountId, AssetId, Balance, DispatchError, Origin};
use crate::generic_asset::transfer_spec;
use crate::key_derivation::{derive_subkey, lemma_split_on_nonempty, path_delimiter, spec_hkd32_derive, split_bytes, split_on, valid_component};
use crate::seqs::{contains_u128, copy_u128s, remove_first, remove_first_u128};
use crate::storage::{copy_bytes, map_of, StorageMap};

verus! {

/// The hash of a transaction on the other chain.
pub type TxHash = [u8; 32];

/// Whether an account is cleared (white) or not (black).
#[derive(Clone, Copy, Debug, PartialEq, Eq, Structural)]
pub enum BlackOrWhite {
    Black,
    White,
}

impl Default for BlackOrWhite {
    fn default() -> (r: Self)
        ensures
            r == BlackOrWhite::Black,
    {
        BlackOrWhite::Black
    }
}

impl View for BlackOrWhite {
    type V = BlackOrWhite;

    open spec fn view(&self) -> BlackOrWhite {
        *self
    }
}

/// What an operator may do: everything, or one kind of work.
#[derive(Clone, Copy, Debug, PartialEq, Eq, Structural)]
pub enum Auth {
    All,
    Deposit,
    Withdraw,
    Refund,
    Mark,
}

impl Default for Auth {
    fn default() -> (r: Self)
        ensures
            r == Auth::All,
    {
        Auth::All
    }
}

impl View for Auth {
    type V = Auth;

    open spec fn view(&self) -> Auth {
        *self
    }
}

/// A deposit: who receives how much of the shadow asset, and, while it waits for
/// vetting, the hash of the transaction that paid it in.
#[derive(Clone, Copy, Debug, PartialEq, Eq)]
pub struct Deposit {
    pub account_id: AccountId,
    pub tx_hash: Option<TxHash>,
    pub amount: Balance,
}

impl Default for Deposit {
    fn default() -> (r: Self)
        ensures
            r == (Deposit { account_id: 0, tx_hash: None, amount: 0 }),
    {
        Deposit { account_id: 0, tx_hash: None, amount: 0 }
    }
}

impl View for Deposit {
    type V = Deposit;

    open spec fn view(&self) -> Deposit {
        *self
    }
}

/// Why the bridge refused a call.
#[derive(Clone, Copy, Debug, PartialEq, Eq, Structural)]
pub enum Error {
    MissingKeyMaterial,
    InvalidPathInput,
    UnsupporttedPathDelimiter,
    RepeatedTransaction,
    NoDepositAuth,
    NoRefundAuth,
    PendingWithdrawNotFound,
    NoWithdrawAuth,
    NoMarkAuth,
}

impl Error {
    /// The error's text.
    pub fn as_str(&self) -> (s: &'static str)
        ensures
            s@ == (match *self {
                Error::MissingKeyMaterial => "MissingKeyMaterial"@,
                Error::InvalidPathInput => "InvalidPathInput"@,
                Error::UnsupporttedPathDelimiter => "UnsupporttedPathDelimiter"@,
                Error::RepeatedTransaction => "repeated transaction"@,
                Error::NoDepositAuth => "no deposit auth"@,
                Error::NoRefundAuth => "no refund auth"@,
                Error::PendingWithdrawNotFound => "pending withdraw not found"@,
                Error::NoWithdrawAuth => "no withdraw auth"@,
                Error::NoMarkAuth => "no mark auth"@,
            }),
    {
        match *self {
            Error::MissingKeyMaterial => "MissingKeyMaterial",
            Error::InvalidPathInput => "InvalidPathInput",
            Error::UnsupporttedPathDelimiter => "UnsupporttedPathDelimiter",
            Error::RepeatedTransaction => "repeated transaction",
            Error::NoDepositAuth => "no deposit auth",
            Error::NoRefundAuth => "no refund auth",
            Error::PendingWithdrawNotFound => "pending withdraw not found",
            Error::NoWithdrawAuth => "no withdraw auth",
            Error::NoMarkAuth => "no mark auth",
        }
    }
}

/// Events of the bridge.
#[derive(Clone, Copy, Debug, PartialEq, Eq)]
pub enum RawEvent {
    AccountMarked(AccountId, BlackOrWhite),
    Deposit(AccountId, Balance, TxHash),
    Pending(AccountId, Balance, TxHash),
    PendingWithdraw(AccountId, Balance),
    Refund(AccountId, Balance),
    Withdraw(AccountId, Balance),
}

/// The byte that separates the components of a derivation path: `'/'`.
pub open spec fn path_delimiter_byte() -> u8 {
    47u8
}

/// The components of a derivation path: the pieces between delimiters, the first left out.
pub open spec fn path_components(path: Seq<u8>) -> Seq<Seq<u8>> {
    split_on(path, path_delimiter_byte()).drop_first()
}

/// Every component of the path is one that a derivation path may hold.
pub open spec fn path_derivable(path: Seq<u8>) -> bool {
    forall|i: int| 0 <= i < path_components(path).len() ==> valid_component(#[trigger] path_components(path)[i])
}

/// The key derived from the material along the path.
pub open spec fn derived_key(material: [u8; 32], path: Seq<u8>) -> Seq<u8> {
    spec_hkd32_derive(material@, path_components(path))
}

/// Every deposit waiting to be vetted carries the hash of its transaction.
pub open spec fn pendings_hashed(m: Map<AccountId, Seq<Deposit>>) -> bool {
    forall|a: AccountId, i: int|
        #![trigger m[a][i]]
        m.contains_key(a) && 0 <= i < m[a].len() ==> m[a][i].tx_hash is Some
}

/// The abstract state of the bridge and of the asset module beneath it.
pub struct BridgeState {
    pub key_material: Option<[u8; 32]>,
    pub sub_keys: Map<(AccountId, Seq<u8>), Seq<u8>>,
    pub asset_id: AssetId,
    pub paused: bool,
    pub list: Map<AccountId, BlackOrWhite>,
    pub threshold: Balance,
    pub admins: Map<AccountId, Auth>,
    pub pending_deposits: Map<AccountId, Seq<Deposit>>,
    pub history: Map<Seq<u8>, Deposit>,
    pub pending_withdraws: Map<AccountId, Seq<Balance>>,
    pub vault: AccountId,
    pub assets: AssetsState,
    pub events: Seq<RawEvent>,
}

impl BridgeState {
    /// Whether `who` is an operator with the right `auth`, or with every right.
    pub open spec fn has_auth(self, who: AccountId, auth: Auth) -> bool {
        self.admins.contains_key(who) && (self.admins[who] == Auth::All || self.admins[who] == auth)
    }

    /// Whether the account is cleared.
    pub open spec fn is_white(self, who: AccountId) -> bool {
        self.list.contains_key(who) && self.list[who] == BlackOrWhite::White
    }

    /// The deposits of `who` waiting to be vetted, empty where none are stored.
    pub open spec fn pending_of(self, who: AccountId) -> Seq<Deposit> {
        if self.pending_deposits.contains_key(who) {
            self.pending_deposits[who]
        } else {
            Seq::empty()
        }
    }

    /// The withdrawals of `who` waiting in the vault, empty where none are stored.
    pub open spec fn withdraws_of(self, who: AccountId) -> Seq<Balance> {
        if self.pending_withdraws.contains_key(who) {
            self.pending_withdraws[who]
        } else {
            Seq::empty()
        }
    }

    /// Whether a deposit with this transaction hash was recorded.
    pub open spec fn tx_seen(self, tx: TxHash) -> bool {
        self.history.contains_key(tx@)
    }

    /// Every deposit waiting to be vetted carries the hash of its transaction.
    pub open spec fn well_formed(self) -> bool {
        pendings_hashed(self.pending_deposits)
    }

    pub open spec fn emit(self, e: RawEvent) -> Self {
        BridgeState { events: self.events.push(e), ..self }
    }

    /// The state after the account is marked.
    pub open spec fn marked(self, who: AccountId, bow: BlackOrWhite) -> Self {
        BridgeState { list: self.list.insert(who, bow), ..self }.emit(RawEvent::AccountMarked(who, bow))
    }

    /// The state after one pending withdrawal of `amount` is settled for `who`: the first
    /// one of that amount leaves the list, and the entry goes where at most one was left.
    pub open spec fn withdraw_settled(self, who: AccountId, amount: Balance) -> Self {
        let p = self.withdraws_of(who);
        BridgeState {
            pending_withdraws: if p.len() > 1 {
                self.pending_withdraws.insert(who, remove_first(p, amount))
            } else {
                self.pending_withdraws.remove(who)
            },
            ..self
        }
    }

    /// The state after the ledger moved on to `g`.
    pub open spec fn with_ledger(self, g: crate::generic_asset::GenericAssetState) -> Self {
        BridgeState { assets: AssetsState { ga: g, ..self.assets }, ..self }
    }
}

/// A deposit recorded in the history: no hash, who and how much.
pub open spec fn recorded(account: AccountId, amount: Balance) -> Deposit {
    Deposit { account_id: account, tx_hash: None, amount }
}

/// What a deposit that is minted at once does, once the mint hook has answered `hook`:
/// the transaction is recorded, then the superuser mints; the record stays where the mint fails.
pub open spec fn minted_deposit(s: BridgeState, account: AccountId, amount: Balance, tx: TxHash, hook: Result<(), DispatchError>) -> (BridgeState, Result<(), DispatchError>) {
    let s1 = BridgeState { history: s.history.insert(tx@, recorded(account, amount)), ..s };
    let (a, r) = mint_after_hook_spec(s1.assets, s.asset_id, account, amount, hook);
    match r {
        Ok(_) => (BridgeState { assets: a, ..s1 }.emit(RawEvent::Deposit(account, amount, tx)), Ok(())),
        Err(e) => (BridgeState { assets: a, ..s1 }, Err(e)),
    }
}

/// What a deposit held for vetting does: the transaction is recorded, and the deposit,
/// with its hash, waits at the end of the receiver's list.
pub open spec fn held_deposit(s: BridgeState, account: AccountId, amount: Balance, tx: TxHash) -> BridgeState {
    BridgeState {
        history: s.history.insert(tx@, recorded(account, amount)),
        pending_deposits: s.pending_deposits.insert(
            account,
            s.pending_of(account).push(Deposit { account_id: account, tx_hash: Some(tx), amount }),
        ),
        ..s
    }.emit(RawEvent::Pending(account, amount, tx))
}

/// Whether the `deposit` call reaches the mint, and so asks the mint hook: a new
/// transaction, from an operator with the right, that is not held for vetting.
pub open spec fn deposit_mints(s: BridgeState, origin: Origin, account: AccountId, amount: Balance, tx: TxHash) -> bool {
    !s.tx_seen(tx) && match origin {
        Origin::Signed(who) => s.has_auth(who, Auth::Deposit) && !(amount >= s.threshold && !s.is_white(account)),
        _ => false,
    }
}

/// What the `deposit` call does, once the mint hook has answered `hook` (it is asked only
/// where the deposit is minted at once).
pub open spec fn deposit_spec(s: BridgeState, origin: Origin, account: AccountId, amount: Balance, tx: TxHash, hook: Result<(), DispatchError>) -> (BridgeState, Result<(), DispatchError>) {
    if s.tx_seen(tx) {
        (s, Err(DispatchError::BtcBridge(Error::RepeatedTransaction)))
    } else {
        match origin {
            Origin::Signed(who) => {
                if !s.has_auth(who, Auth::Deposit) {
                    (s, Err(DispatchError::BtcBridge(Error::NoDepositAuth)))
                } else if amount >= s.threshold && !s.is_white(account) {
                    (held_deposit(s, account, amount, tx), Ok(()))
                } else {
                    minted_deposit(s, account, amount, tx, hook)
                }
            },
            _ => (s, Err(DispatchError::BadOrigin)),
        }
    }
}

/// What the `withdraw` call does: the amount moves into the vault and waits there.
pub open spec fn withdraw_spec(s: BridgeState, origin: Origin, amount: Balance) -> (BridgeState, Result<(), DispatchError>) {
    match origin {
        Origin::Signed(who) => {
            let (g, r) = transfer_spec(s.assets.ga, s.asset_id, who, s.vault, amount);
            match r {
                Err(e) => (s, Err(DispatchError::GenericAsset(e))),
                Ok(_) => (BridgeState {
                    pending_withdraws: s.pending_withdraws.insert(who, s.withdraws_of(who).push(amount)),
                    ..s.with_ledger(g)
                }.emit(RawEvent::PendingWithdraw(who, amount)), Ok(())),
            }
        },
        _ => (s, Err(DispatchError::BadOrigin)),
    }
}

/// What the `refund` call does: a waiting withdrawal goes back from the vault to `who`.
pub open spec fn refund_spec(s: BridgeState, origin: Origin, who: AccountId, amount: Balance) -> (BridgeState, Result<(), DispatchError>) {
    match origin {
        Origin::Signed(author) => {
            if !s.has_auth(author, Auth::Refund) {
                (s, Err(DispatchError::BtcBridge(Error::NoRefundAuth)))
            } else if !s.withdraws_of(who).contains(amount) {
                (s, Err(DispatchError::BtcBridge(Error::PendingWithdrawNotFound)))
            } else {
                let (g, r) = transfer_spec(s.assets.ga, s.asset_id, s.vault, who, amount);
                match r {
                    Err(e) => (s, Err(DispatchError::GenericAsset(e))),
                    Ok(_) => (s.with_ledger(g).withdraw_settled(who, amount).emit(RawEvent::Refund(who, amount)), Ok(())),
                }
            }
        },
        _ => (s, Err(DispatchError::BadOrigin)),
    }
}

/// A refund that reaches its transfer overflows nothing.
pub open spec fn refund_fits(s: BridgeState, origin: Origin, who: AccountId, amount: Balance) -> bool {
    match origin {
        Origin::Signed(author) => s.has_auth(author, Auth::Refund) && s.withdraws_of(who).contains(amount)
            ==> s.assets.ga.transfer_fits(s.asset_id, s.vault, who, amount),
        _ => true,
    }
}

/// What the `withdraw_finish` call does: a waiting withdrawal is settled; the asset stays in the vault.
pub open spec fn withdraw_finish_spec(s: BridgeState, origin: Origin, who: AccountId, amount: Balance) -> (BridgeState, Result<(), DispatchError>) {
    match origin {
        Origin::Signed(author) => {
            if !s.has_auth(author, Auth::Withdraw) {
                (s, Err(DispatchError::BtcBridge(Error::NoWithdrawAuth)))
            } else if !s.withdraws_of(who).contains(amount) {
                (s, Err(DispatchError::BtcBridge(Error::PendingWithdrawNotFound)))
            } else {
                (s.withdraw_settled(who, amount).emit(RawEvent::Withdraw(who, amount)), Ok(()))
            }
        },
        _ => (s, Err(DispatchError::BadOrigin)),
    }
}

/// The transaction hashes of the deposits.
pub open spec fn hashes_of(ps: Seq<Deposit>) -> Set<Seq<u8>> {
    Set::new(|k: Seq<u8>| exists|i: int| 0 <= i < ps.len() && (#[trigger] ps[i]).tx_hash.unwrap()@ == k)
}

/// What `mark_black` does for an operator with the right: the account's waiting deposits
/// are dropped, their transactions forgotten, and the account marked black.
pub open spec fn mark_black_spec(s: BridgeState, account: AccountId) -> BridgeState {
    BridgeState {
        pending_deposits: s.pending_deposits.remove(account),
        history: s.history.remove_keys(hashes_of(s.pending_of(account))),
        ..s
    }.marked(account, BlackOrWhite::Black)
}

/// Minting the waiting deposits `ps` of `account` in order, the `i`-th mint hook answering
/// `hooks[i]`: at the first failure, the deposits from the failed one on go back to the list.
pub open spec fn white_run(s: BridgeState, account: AccountId, ps: Seq<Deposit>, hooks: Seq<Result<(), DispatchError>>) -> (BridgeState, Result<(), DispatchError>)
    decreases ps.len(),
{
    if ps.len() == 0 {
        (s, Ok(()))
    } else {
        let (s1, r) = minted_deposit(s, ps[0].account_id, ps[0].amount, ps[0].tx_hash.unwrap(), hooks[0]);
        match r {
            Err(e) => (BridgeState { pending_deposits: s1.pending_deposits.insert(account, ps), ..s1 }, Err(e)),
            Ok(_) => white_run(s1, account, ps.drop_first(), hooks.drop_first()),
        }
    }
}

/// What `mark_white` does for an operator with the right, the mint hooks answering `hooks`:
/// the account's waiting deposits are minted in order, and, where all went through, the
/// account is marked white.
pub open spec fn mark_white_spec(s: BridgeState, account: AccountId, hooks: Seq<Result<(), DispatchError>>) -> (BridgeState, Result<(), DispatchError>) {
    let s0 = BridgeState { pending_deposits: s.pending_deposits.remove(account), ..s };
    let (s1, r) = white_run(s0, account, s.pending_of(account), hooks);
    match r {
        Err(e) => (s1, Err(e)),
        Ok(_) => (s1.marked(account, BlackOrWhite::White), Ok(())),
    }
}

/// The bridge.
pub struct Module {
    key_material: Option<[u8; 32]>,
    sub_key_map: StorageMap<(AccountId, Vec<u8>), [u8; 32]>,
    asset_id: AssetId,
    paused: bool,
    list: StorageMap<AccountId, BlackOrWhite>,
    threshold: Balance,
    admins: StorageMap<AccountId, Auth>,
    pending_deposit_list: StorageMap<AccountId, Vec<Deposit>>,
    deposit_history: StorageMap<TxHash, Deposit>,
    pending_withdraws: StorageMap<AccountId, Vec<Balance>>,
    pending_withdraw_vault: AccountId,
    assets: crate::assets::Module,
    events: Vec<RawEvent>,
}

impl View for Module {
    type V = BridgeState;

    closed spec fn view(&self) -> BridgeState {
        BridgeState {
            key_material: self.key_material,
            sub_keys: self.sub_key_map@,
            asset_id: self.asset_id,
            paused: self.paused,
            list: self.list@,
            threshold: self.threshold,
            admins: self.admins@,
            pending_deposits: self.pending_deposit_list@,
            history: self.deposit_history@,
            pending_withdraws: self.pending_withdraws@,
            vault: self.pending_withdraw_vault,
            assets: self.assets@,
            events: self.events@,
        }
    }
}

/// A copy of the deposits from index `from` on.
fn copy_deposits_from(v: &Vec<Deposit>, from: usize) -> (r: Vec<Deposit>)
    requires
        from <= v@.len(),
    ensures
        r@ == v@.skip(from as int),
{
    let mut r: Vec<Deposit> = Vec::new();
    let mut i: usize = from;
    while i < v.len()
        invariant
            from <= i <= v@.len(),
            r@ == v@.subrange(from as int, i as int),
        decreases v@.len() - i,
    {
        r.push(v[i]);
        i = i + 1;
        assert(r@ =~= v@.subrange(from as int, i as int));
    }
    assert(r@ =~= v@.skip(from as int));
    r
}

/// A copy of the pieces from index `from` on.
fn copy_pieces_from(v: &Vec<Vec<u8>>, from: usize) -> (r: Vec<Vec<u8>>)
    requires
        from <= v@.len(),
    ensures
        r@.map_values(|c: Vec<u8>| c@) == v@.map_values(|c: Vec<u8>| c@).skip(from as int),
{
    let mut r: Vec<Vec<u8>> = Vec::new();
    let mut i: usize = from;
    while i < v.len()
        invariant
            from <= i <= v@.len(),
            r@.len() == i - from,
            forall|j: int| 0 <= j < r@.len() ==> (#[trigger] r@[j])@ == v@[from + j]@,
        decreases v@.len() - i,
    {
        let c = copy_bytes(v[i].as_slice());
        r.push(c);
        i = i + 1;
    }
    assert(r@.map_values(|c: Vec<u8>| c@) =~= v@.map_values(|c: Vec<u8>| c@).skip(from as int));
    r
}

impl Module {
    /// The key material, zeros where none is stored.
    pub fn key_material(&self) -> (k: [u8; 32])
        ensures
            self@.key_material matches Some(m) ==> k == m,
            self@.key_material is None ==> forall|i: int| 0 <= i < 32 ==> k@[i] == 0,
    {
        match self.key_material {
            Some(k) => k,
            None => [0u8; 32],
        }
    }

    /// The key derived for `who` along `path`, zeros where none is stored.
    pub fn sub_key_map(&self, who: AccountId, path: &Vec<u8>) -> (k: [u8; 32])
        ensures
            self@.sub_keys.contains_key((who, path@)) ==> k@ == self@.sub_keys[(who, path@)],
            !self@.sub_keys.contains_key((who, path@)) ==> forall|i: int| 0 <= i < 32 ==> k@[i] == 0,
    {
        let key = (who, copy_bytes(path.as_slice()));
        match self.sub_key_map.get(&key) {
            Some(k) => *k,
            None => [0u8; 32],
        }
    }

    /// The id of the shadow asset.
    pub fn asset_id(&self) -> (a: AssetId)
        ensures
            a == self@.asset_id,
    {
        self.asset_id
    }

    /// Whether the bridge was paused.
    pub fn paused(&self) -> (b: bool)
        ensures
            b == self@.paused,
    {
        self.paused
    }

    /// The mark of the account, black where none is stored.
    pub fn list(&self, who: &AccountId) -> (b: BlackOrWhite)
        ensures
            b == (if self@.list.contains_key(*who) { self@.list[*who] } else { BlackOrWhite::Black }),
    {
        match self.list.get(who) {
            Some(b) => *b,
            None => BlackOrWhite::Black,
        }
    }

    /// Deposits from this amount on are held for vetting unless the receiver is white.
    pub fn threshold(&self) -> (t: Balance)
        ensures
            t == self@.threshold,
    {
        self.threshold
    }

    /// The right of the account, every right where none is stored.
    pub fn admins(&self, who: &AccountId) -> (a: Auth)
        ensures
            a == (if self@.admins.contains_key(*who) { self@.admins[*who] } else { Auth::All }),
    {
        match self.admins.get(who) {
            Some(a) => *a,
            None => Auth::All,
        }
    }

    /// The deposits of `who` waiting to be vetted.
    pub fn pending_deposit_list(&self, who: &AccountId) -> (v: Vec<Deposit>)
        ensures
            v@ == self@.pending_of(*who),
    {
        match self.pending_deposit_list.get(who) {
            Some(v) => copy_deposits_from(v, 0),
            None => Vec::new(),
        }
    }

    /// The record of a transaction, if it was seen.
    pub fn deposit_history(&self, tx: &TxHash) -> (d: Option<Deposit>)
        ensures
            d == (if self@.history.contains_key(tx@) { Some(self@.history[tx@]) } else { None::<Deposit> }),
    {
        match self.deposit_history.get(tx) {
            Some(d) => Some(*d),
            None => None,
        }
    }

    /// The withdrawals of `who` waiting in the vault.
    pub fn pending_withdraws(&self, who: &AccountId) -> (v: Vec<Balance>)
        ensures
            v@ == self@.withdraws_of(*who),
    {
        match self.pending_withdraws.get(who) {
            Some(v) => copy_u128s(v),
            None => Vec::new(),
        }
    }

    /// The account that holds withdrawals until they are settled.
    pub fn pending_withdraw_vault(&self) -> (a: AccountId)
        ensures
            a == self@.vault,
    {
        self.pending_withdraw_vault
    }

    /// The asset module beneath the bridge.
    pub fn assets(&self) -> (a: &crate::assets::Module)
        ensures
            a@ == self@.assets,
    {
        &self.assets
    }

    /// The events emitted so far.
    pub fn events(&self) -> (e: &Vec<RawEvent>)
        ensures
            e@ == self@.events,
    {
        &self.events
    }

    /// Whether a deposit with this transaction hash was recorded.
    fn is_tx_seen(&self, tx: &TxHash) -> (b: bool)
        ensures
            b == self@.tx_seen(*tx),
    {
        self.deposit_history.contains_key(tx)
    }

    /// Whether `who` is an operator with the right `auth`, or with every right.
    fn has_auth(&self, who: &AccountId, auth: Auth) -> (b: bool)
        ensures
            b == self@.has_auth(*who, auth),
    {
        match self.admins.get(who) {
            None => false,
            Some(a) => *a == Auth::All || *a == auth,
        }
    }

    /// The mark of the account, if it has one.
    pub fn check_list(&self, who: &AccountId) -> (b: Option<BlackOrWhite>)
        ensures
            b == (if self@.list.contains_key(*who) { Some(self@.list[*who]) } else { None::<BlackOrWhite> }),
    {
        match self.list.get(who) {
            Some(b) => Some(*b),
            None => None,
        }
    }

    /// Marks the account.
    pub fn mark(&mut self, who: AccountId, bow: BlackOrWhite)
        ensures
            final(self)@ == (BridgeState { list: old(self)@.list.insert(who, bow), ..old(self)@ }),
    {
        self.list.insert(who, bow);
    }

    /// Marks the account, with event.
    pub fn mark_with_event(&mut self, who: AccountId, bow: BlackOrWhite)
        ensures
            final(self)@ == old(self)@.marked(who, bow),
    {
        self.mark(who, bow);
        self.events.push(RawEvent::AccountMarked(who, bow));
    }

    /// Settles one waiting withdrawal of `amount` for `who`.
    fn remove_from_pending_withdraws(&mut self, who: AccountId, amount: Balance)
        ensures
            final(self)@ == old(self)@.withdraw_settled(who, amount),
    {
        let pendings = match self.pending_withdraws.remove(&who) {
            Some(v) => v,
            None => Vec::new(),
        };
        if pendings.len() > 1 {
            let x = remove_first_u128(&pendings, amount);
            self.pending_withdraws.insert(who, x);
            assert(self.pending_withdraws@ =~= old(self).pending_withdraws@.insert(who, remove_first(old(self)@.withdraws_of(who), amount)));
        }
    }

    /// Records the transaction and holds the deposit for vetting.
    fn hold_deposit_with_event(&mut self, account: &AccountId, amount: Balance, tx: TxHash) -> (r: Result<(), DispatchError>)
        ensures
            r == Ok::<(), DispatchError>(()),
            final(self)@ == held_deposit(old(self)@, *account, amount, tx),
    {
        let dep = Deposit { account_id: *account, tx_hash: None, amount };
        self.deposit_history.insert(tx, dep);
        let held = Deposit { account_id: *account, tx_hash: Some(tx), amount };
        let mut v = match self.pending_deposit_list.remove(account) {
            Some(v) => v,
            None => Vec::new(),
        };
        v.push(held);
        self.pending_deposit_list.insert(*account, v);
        assert(self.pending_deposit_list@ =~= old(self).pending_deposit_list@.insert(*account, old(self)@.pending_of(*account).push(held)));
        self.events.push(RawEvent::Pending(*account, amount, tx));
        Ok(())
    }

    /// Records the transaction and mints the deposit as the superuser.
    fn simple_deposit_with_event<B: BeforeAssetMint<AssetId, AccountId, Balance>, O: OnAssetMint<AssetId, AccountId, Balance>>(
        &mut self,
        account: &AccountId,
        amount: Balance,
        tx: TxHash,
    ) -> (r: Result<(), DispatchError>)
        ensures
            exists|hook: Result<(), DispatchError>|
                call_ensures(B::before_asset_mint, (&old(self)@.asset_id, account, &amount), hook)
                && (final(self)@, r) == minted_deposit(old(self)@, *account, amount, tx, hook),
            r is Ok ==> exists|after: Result<(), DispatchError>|
                call_ensures(O::on_asset_mint, (&old(self)@.asset_id, account, &amount), after),
    {
        let dep = Deposit { account_id: *account, tx_hash: None, amount };
        self.deposit_history.insert(tx, dep);
        let ghost mid = self@;
        let asset_id = self.asset_id;
        let r = self.assets.mint::<B, O>(Origin::Root, asset_id, *account, amount);
        let ghost hook = choose|hook: Result<(), DispatchError>|
            call_ensures(B::before_asset_mint, (&asset_id, account, &amount), hook)
            && (self.assets@, r) == mint_after_hook_spec(mid.assets, asset_id, *account, amount, hook);
        match r {
            Ok(()) => {},
            Err(e) => {
                assert((self@, r) == minted_deposit(old(self)@, *account, amount, tx, hook));
                return Err(e);
            },
        }
        self.events.push(RawEvent::Deposit(*account, amount, tx));
        assert((self@, r) == minted_deposit(old(self)@, *account, amount, tx, hook));
        Ok(())
    }

    /// Stores the key material; root only.
    pub fn set_key_material(&mut self, origin: Origin, material: [u8; 32]) -> (r: Result<(), DispatchError>)
        ensures
            origin == Origin::Root ==> r is Ok && final(self)@ == (BridgeState { key_material: Some(material), ..old(self)@ }),
            origin != Origin::Root ==> r == Err::<(), DispatchError>(DispatchError::BadOrigin) && final(self)@ == old(self)@,
    {
        match ensure_root(origin) {
            Ok(()) => {},
            Err(e) => { return Err(e); },
        }
        self.key_material = Some(material);
        Ok(())
    }

    /// Derives and stores the key of the signer along `path_input`, unless one is stored
    /// already: the path's pieces between `'/'` delimiters, the first left out, are the
    /// components of the derivation from the key material.
    pub fn get_subkey_from_path(&mut self, origin: Origin, path_input: Vec<u8>) -> (r: Result<(), DispatchError>)
        requires
            match origin {
                Origin::Signed(who) => old(self)@.key_material is Some
                    && !old(self)@.sub_keys.contains_key((who, path_input@)) ==> path_derivable(path_input@),
                _ => true,
            },
        ensures
            match origin {
                Origin::Signed(who) => match old(self)@.key_material {
                    None => r == Err::<(), DispatchError>(DispatchError::BtcBridge(Error::MissingKeyMaterial))
                        && final(self)@ == old(self)@,
                    Some(material) => r is Ok && final(self)@ == (if old(self)@.sub_keys.contains_key((who, path_input@)) {
                        old(self)@
                    } else {
                        BridgeState {
                            sub_keys: old(self)@.sub_keys.insert((who, path_input@), derived_key(material, path_input@)),
                            ..old(self)@
                        }
                    }),
                },
                _ => r == Err::<(), DispatchError>(DispatchError::BadOrigin) && final(self)@ == old(self)@,
            },
    {
        let who = match ensure_signed(origin) {
            Ok(w) => w,
            Err(e) => { return Err(e); },
        };
        let material = match self.key_material {
            Some(m) => m,
            None => { return Err(DispatchError::BtcBridge(Error::MissingKeyMaterial)); },
        };
        let d = path_delimiter();
        if (d as u32) >= 128 {
            return Err(DispatchError::BtcBridge(Error::UnsupporttedPathDelimiter));
        }
        let delimiter = d as u8;
        assert(delimiter == path_delimiter_byte());
        let key = (who, copy_bytes(path_input.as_slice()));
        if self.sub_key_map.contains_key(&key) {
            return Ok(());
        }
        let pieces = split_bytes(&path_input, delimiter);
        proof {
            lemma_split_on_nonempty(path_input@, delimiter);
        }
        let components = copy_pieces_from(&pieces, 1);
        proof {
            assert(components@.map_values(|c: Vec<u8>| c@) =~= path_components(path_input@));
            assert forall|i: int| 0 <= i < components@.len() implies valid_component(#[trigger] components@[i]@) by {
                assert(components@.map_values(|c: Vec<u8>| c@)[i] == components@[i]@);
            }
        }
        let derived = derive_subkey(material, &components);
        self.sub_key_map.insert(key, derived);
        Ok(())
    }

    /// Pauses the bridge; root only.
    pub fn pause(&mut self, origin: Origin) -> (r: Result<(), DispatchError>)
        ensures
            origin == Origin::Root ==> r is Ok && final(self)@ == (BridgeState { paused: true, ..old(self)@ }),
            origin != Origin::Root ==> r == Err::<(), DispatchError>(DispatchError::BadOrigin) && final(self)@ == old(self)@,
    {
        match ensure_root(origin) {
            Ok(()) => {},
            Err(e) => { return Err(e); },
        }
        self.paused = true;
        Ok(())
    }

    /// Resumes the bridge; root only.
    pub fn resume(&mut self, origin: Origin) -> (r: Result<(), DispatchError>)
        ensures
            origin == Origin::Root ==> r is Ok && final(self)@ == (BridgeState { paused: false, ..old(self)@ }),
            origin != Origin::Root ==> r == Err::<(), DispatchError>(DispatchError::BadOrigin) && final(self)@ == old(self)@,
    {
        match ensure_root(origin) {
            Ok(()) => {},
            Err(e) => { return Err(e); },
        }
        self.paused = false;
        Ok(())
    }

    /// Takes in a deposit seen on the other chain, through the mint hooks `B` and `O`: a
    /// repeated transaction is refused; an operator with the right records it, and mints it
    /// at once, unless it reaches the threshold and the receiver is not white, in which case
    /// it is held for vetting.
    pub fn deposit<B: BeforeAssetMint<AssetId, AccountId, Balance>, O: OnAssetMint<AssetId, AccountId, Balance>>(
        &mut self,
        origin: Origin,
        account_id: AccountId,
        amount: Balance,
        tx_hash: TxHash,
    ) -> (r: Result<(), DispatchError>)
        ensures
            exists|hook: Result<(), DispatchError>|
                (deposit_mints(old(self)@, origin, account_id, amount, tx_hash)
                    ==> call_ensures(B::before_asset_mint, (&old(self)@.asset_id, &account_id, &amount), hook))
                && (final(self)@, r) == deposit_spec(old(self)@, origin, account_id, amount, tx_hash, hook),
            deposit_mints(old(self)@, origin, account_id, amount, tx_hash) && r is Ok
                ==> exists|after: Result<(), DispatchError>|
                    call_ensures(O::on_asset_mint, (&old(self)@.asset_id, &account_id, &amount), after),
            old(self)@.well_formed() ==> final(self)@.well_formed(),
    {
        if self.is_tx_seen(&tx_hash) {
            let r = Err(DispatchError::BtcBridge(Error::RepeatedTransaction));
            assert((self@, r) == deposit_spec(old(self)@, origin, account_id, amount, tx_hash, Ok(())));
            return r;
        }
        let who = match ensure_signed(origin) {
            Ok(w) => w,
            Err(e) => {
                assert((self@, Err::<(), DispatchError>(e)) == deposit_spec(old(self)@, origin, account_id, amount, tx_hash, Ok(())));
                return Err(e);
            },
        };
        if !self.has_auth(&who, Auth::Deposit) {
            let r = Err(DispatchError::BtcBridge(Error::NoDepositAuth));
            assert((self@, r) == deposit_spec(old(self)@, origin, account_id, amount, tx_hash, Ok(())));
            return r;
        }
        if amount >= self.threshold {
            let bow = self.check_list(&account_id);
            let held = match bow {
                None => true,
                Some(BlackOrWhite::Black) => true,
                Some(BlackOrWhite::White) => false,
            };
            assert(held == !old(self)@.is_white(account_id));
            if held {
                let r = self.hold_deposit_with_event(&account_id, amount, tx_hash);
                assert((self@, r) == deposit_spec(old(self)@, origin, account_id, amount, tx_hash, Ok(())));
                return r;
            }
        }
        let r = self.simple_deposit_with_event::<B, O>(&account_id, amount, tx_hash);
        let ghost hook = choose|hook: Result<(), DispatchError>|
            call_ensures(B::before_asset_mint, (&old(self)@.asset_id, &account_id, &amount), hook)
            && (self@, r) == minted_deposit(old(self)@, account_id, amount, tx_hash, hook);
        assert((self@, r) == deposit_spec(old(self)@, origin, account_id, amount, tx_hash, hook));
        r
    }

    /// Sends a waiting withdrawal of `amount` back from the vault to `who`; for an operator
    /// with the refund right.
    pub fn refund(&mut self, origin: Origin, who: AccountId, amount: Balance) -> (r: Result<(), DispatchError>)
        requires
            refund_fits(old(self)@, origin, who, amount),
        ensures
            (final(self)@, r) == refund_spec(old(self)@, origin, who, amount),
    {
        let author = match ensure_signed(origin) {
            Ok(w) => w,
            Err(e) => { return Err(e); },
        };
        let asset_id = self.asset_id;
        if !self.has_auth(&author, Auth::Refund) {
            return Err(DispatchError::BtcBridge(Error::NoRefundAuth));
        }
        let pendings = self.pending_withdraws(&who);
        if !contains_u128(&pendings, amount) {
            return Err(DispatchError::BtcBridge(Error::PendingWithdrawNotFound));
        }
        let vault = self.pending_withdraw_vault;
        match self.assets.make_transfer_with_event(&asset_id, &vault, &who, amount) {
            Ok(()) => {},
            Err(e) => { return Err(DispatchError::GenericAsset(e)); },
        }
        self.remove_from_pending_withdraws(who, amount);
        self.events.push(RawEvent::Refund(who, amount));
        Ok(())
    }

    /// Settles a waiting withdrawal of `amount` for `who`, the asset staying in the vault;
    /// for an operator with the withdraw right.
    pub fn withdraw_finish(&mut self, origin: Origin, who: AccountId, amount: Balance) -> (r: Result<(), DispatchError>)
        ensures
            (final(self)@, r) == withdraw_finish_spec(old(self)@, origin, who, amount),
    {
        let author = match ensure_signed(origin) {
            Ok(w) => w,
            Err(e) => { return Err(e); },
        };
        if !self.has_auth(&author, Auth::Withdraw) {
            return Err(DispatchError::BtcBridge(Error::NoWithdrawAuth));
        }
        let pendings = self.pending_withdraws(&who);
        if !contains_u128(&pendings, amount) {
            return Err(DispatchError::BtcBridge(Error::PendingWithdrawNotFound));
        }
        self.remove_from_pending_withdraws(who, amount);
        self.events.push(RawEvent::Withdraw(who, amount));
        Ok(())
    }

    /// Moves `amount` of the signer into the vault, where it waits to be settled.
    pub fn withdraw(&mut self, origin: Origin, amount: Balance) -> (r: Result<(), DispatchError>)
        requires
            forall|who: AccountId| origin == Origin::Signed(who)
                ==> old(self)@.assets.ga.transfer_fits(old(self)@.asset_id, who, old(self)@.vault, amount),
        ensures
            (final(self)@, r) == withdraw_spec(old(self)@, origin, amount),
    {
        let who = match ensure_signed(origin) {
            Ok(w) => w,
            Err(e) => { return Err(e); },
        };
        let asset_id = self.asset_id;
        let vault = self.pending_withdraw_vault;
        match self.assets.make_transfer_with_event(&asset_id, &who, &vault, amount) {
            Ok(()) => {},
            Err(e) => { return Err(DispatchError::GenericAsset(e)); },
        }
        let mut v = match self.pending_withdraws.remove(&who) {
            Some(v) => v,
            None => Vec::new(),
        };
        v.push(amount);
        self.pending_withdraws.insert(who, v);
        assert(self.pending_withdraws@ =~= old(self).pending_withdraws@.insert(who, old(self)@.withdraws_of(who).push(amount)));
        self.events.push(RawEvent::PendingWithdraw(who, amount));
        Ok(())
    }

    /// Marks the account black; for an operator with the mark right. The account's waiting
    /// deposits are dropped and their transactions forgotten, so that they may come again.
    pub fn mark_black(&mut self, origin: Origin, account_id: AccountId) -> (r: Result<(), DispatchError>)
        requires
            old(self)@.well_formed(),
        ensures
            final(self)@.well_formed(),
            match origin {
                Origin::Signed(who) => if old(self)@.has_auth(who, Auth::Mark) {
                    r is Ok && final(self)@ == mark_black_spec(old(self)@, account_id)
                } else {
                    r == Err::<(), DispatchError>(DispatchError::BtcBridge(Error::NoMarkAuth)) && final(self)@ == old(self)@
                },
                _ => r == Err::<(), DispatchError>(DispatchError::BadOrigin) && final(self)@ == old(self)@,
            },
    {
        let who = match ensure_signed(origin) {
            Ok(w) => w,
            Err(e) => { return Err(e); },
        };
        if !self.has_auth(&who, Auth::Mark) {
            return Err(DispatchError::BtcBridge(Error::NoMarkAuth));
        }
        let pendings = match self.pending_deposit_list.remove(&account_id) {
            Some(v) => v,
            None => Vec::new(),
        };
        let ghost ps = old(self)@.pending_of(account_id);
        let ghost h0 = old(self)@.history;
        let ghost s1 = self@;
        assert(pendings@ == ps);
        assert(h0.remove_keys(hashes_of(ps.take(0))) =~= h0);
        let mut i: usize = 0;
        while i < pendings.len()
            invariant
                i <= pendings@.len(),
                pendings@ == ps,
                forall|j: int| 0 <= j < ps.len() ==> (#[trigger] ps[j]).tx_hash is Some,
                self@ == (BridgeState { history: h0.remove_keys(hashes_of(ps.take(i as int))), ..s1 }),
            decreases pendings@.len() - i,
        {
            let tx = pendings[i].tx_hash.unwrap();
            self.deposit_history.remove(&tx);
            proof {
                let a = hashes_of(ps.take(i as int));
                let b = hashes_of(ps.take(i + 1));
                assert forall|k: Seq<u8>| b.contains(k) <==> (a.contains(k) || k == tx@) by {
                    if b.contains(k) {
                        let j = choose|j: int| 0 <= j < ps.take(i + 1).len() && (#[trigger] ps.take(i + 1)[j]).tx_hash.unwrap()@ == k;
                        if j < i {
                            assert(ps.take(i as int)[j] == ps.take(i + 1)[j]);
                        }
                    }
                    if a.contains(k) {
                        let j = choose|j: int| 0 <= j < ps.take(i as int).len() && (#[trigger] ps.take(i as int)[j]).tx_hash.unwrap()@ == k;
                        assert(ps.take(i + 1)[j] == ps.take(i as int)[j]);
                    }
                    if k == tx@ {
                        assert(ps.take(i + 1)[i as int] == ps[i as int]);
                    }
                }
                assert(h0.remove_keys(a).remove(tx@) =~= h0.remove_keys(b));
            }
            i = i + 1;
        }
        assert(ps.take(ps.len() as int) =~= ps);
        self.mark_with_event(account_id, BlackOrWhite::Black);
        Ok(())
    }

    /// Marks the account white; for an operator with the mark right. The account's waiting
    /// deposits are minted in order, through the mint hooks `B` and `O`; at the first failure
    /// the rest go back to the list and the account stays unmarked.
    pub fn mark_white<B: BeforeAssetMint<AssetId, AccountId, Balance>, O: OnAssetMint<AssetId, AccountId, Balance>>(
        &mut self,
        origin: Origin,
        account_id: AccountId,
    ) -> (r: Result<(), DispatchError>)
        requires
            old(self)@.well_formed(),
        ensures
            final(self)@.well_formed(),
            match origin {
                Origin::Signed(who) => if old(self)@.has_auth(who, Auth::Mark) {
                    exists|hooks: Seq<Result<(), DispatchError>>|
                        hooks.len() <= old(self)@.pending_of(account_id).len()
                        && (forall|j: int| 0 <= j < hooks.len() ==> call_ensures(B::before_asset_mint,
                            (&old(self)@.asset_id, &old(self)@.pending_of(account_id)[j].account_id,
                                &old(self)@.pending_of(account_id)[j].amount), #[trigger] hooks[j]))
                        && (final(self)@, r) == mark_white_spec(old(self)@, account_id, hooks)
                } else {
                    r == Err::<(), DispatchError>(DispatchError::BtcBridge(Error::NoMarkAuth)) && final(self)@ == old(self)@
                },
                _ => r == Err::<(), DispatchError>(DispatchError::BadOrigin) && final(self)@ == old(self)@,
            },
    {
        let who = match ensure_signed(origin) {
            Ok(w) => w,
            Err(e) => { return Err(e); },
        };
        if !self.has_auth(&who, Auth::Mark) {
            return Err(DispatchError::BtcBridge(Error::NoMarkAuth));
        }
        let pendings = match self.pending_deposit_list.remove(&account_id) {
            Some(v) => v,
            None => Vec::new(),
        };
        let ghost ps = old(self)@.pending_of(account_id);
        let ghost s0 = self@;
        assert(pendings@ == ps);
        assert(s0 == (BridgeState { pending_deposits: old(self)@.pending_deposits.remove(account_id), ..old(self)@ }));
        let ghost mut hooks: Seq<Result<(), DispatchError>> = Seq::empty();
        assert forall|rest: Seq<Result<(), DispatchError>>|
            #[trigger] white_run(s0, account_id, ps, hooks + rest) == white_run(s0, account_id, ps.skip(0), rest) by {
            assert(hooks + rest =~= rest);
            assert(ps.skip(0) =~= ps);
        }
        let mut i: usize = 0;
        while i < pendings.len()
            invariant
                i <= pendings@.len(),
                pendings@ == ps,
                forall|j: int| 0 <= j < ps.len() ==> (#[trigger] ps[j]).tx_hash is Some,
                pendings_hashed(self@.pending_deposits),
                origin == Origin::Signed(who),
                old(self)@.has_auth(who, Auth::Mark),
                ps == old(self)@.pending_of(account_id),
                s0 == (BridgeState { pending_deposits: old(self)@.pending_deposits.remove(account_id), ..old(self)@ }),
                forall|rest: Seq<Result<(), DispatchError>>|
                    #[trigger] white_run(s0, account_id, ps, hooks + rest) == white_run(self@, account_id, ps.skip(i as int), rest),
                hooks.len() == i,
                self@.asset_id == old(self)@.asset_id,
                forall|j: int| 0 <= j < hooks.len() ==> call_ensures(B::before_asset_mint,
                    (&old(self)@.asset_id, &ps[j].account_id, &ps[j].amount), #[trigger] hooks[j]),
            decreases pendings@.len() - i,
        {
            let d = pendings[i];
            let tx = d.tx_hash.unwrap();
            let ghost pre = self@;
            let r = self.simple_deposit_with_event::<B, O>(&d.account_id, d.amount, tx);
            let ghost h = choose|h: Result<(), DispatchError>|
                call_ensures(B::before_asset_mint, (&pre.asset_id, &d.account_id, &d.amount), h)
                && (self@, r) == minted_deposit(pre, d.account_id, d.amount, tx, h);
            assert(d == ps[i as int]);
            assert(hooks.push(h)[i as int] == h);
            assert forall|j: int| 0 <= j < hooks.push(h).len() implies call_ensures(B::before_asset_mint,
                (&old(self)@.asset_id, &ps[j].account_id, &ps[j].amount), #[trigger] hooks.push(h)[j]) by {
                if j < i {
                    assert(hooks.push(h)[j] == hooks[j]);
                }
            }
            proof {
                let t = ps.skip(i as int);
                assert(t[0] == d);
                assert(t.drop_first() =~= ps.skip(i + 1));
                assert forall|rest: Seq<Result<(), DispatchError>>|
                    #[trigger] white_run(s0, account_id, ps, hooks.push(h) + rest) == white_run(pre, account_id, t, seq![h] + rest) by {
                    assert(hooks.push(h) + rest =~= hooks + (seq![h] + rest));
                }
            }
            match r {
                Ok(()) => {},
                Err(e) => {
                    let rest = copy_deposits_from(&pendings, i);
                    self.pending_deposit_list.insert(account_id, rest);
                    proof {
                        let (mid, rr) = minted_deposit(pre, d.account_id, d.amount, tx, h);
                        assert(seq![h][0] == h);
                        assert(white_run(pre, account_id, ps.skip(i as int), seq![h])
                            == (BridgeState { pending_deposits: mid.pending_deposits.insert(account_id, ps.skip(i as int)), ..mid }, r));
                        assert(white_run(s0, account_id, ps, hooks.push(h) + Seq::empty()) == white_run(pre, account_id, ps.skip(i as int), seq![h] + Seq::empty()));
                        assert(hooks.push(h) + Seq::<Result<(), DispatchError>>::empty() =~= hooks.push(h));
                        assert(seq![h] + Seq::<Result<(), DispatchError>>::empty() =~= seq![h]);
                        assert((self@, r) == mark_white_spec(old(self)@, account_id, hooks.push(h)));
                    }
                    return Err(e);
                },
            }
            proof {
                let t = ps.skip(i as int);
                assert forall|rest: Seq<Result<(), DispatchError>>|
                    #[trigger] white_run(s0, account_id, ps, hooks.push(h) + rest) == white_run(self@, account_id, ps.skip(i + 1), rest) by {
                    assert((seq![h] + rest)[0] == h);
                    assert((seq![h] + rest).drop_first() =~= rest);
                }
                hooks = hooks.push(h);
            }
            i = i + 1;
        }
        proof {
            assert(white_run(s0, account_id, ps, hooks + Seq::empty()) == white_run(self@, account_id, ps.skip(ps.len() as int), Seq::empty()));
            assert(hooks + Seq::<Result<(), DispatchError>>::empty() =~= hooks);
            assert(ps.skip(ps.len() as int) =~= Seq::<Deposit>::empty());
        }
        self.mark_with_event(account_id, BlackOrWhite::White);
        assert((self@, Ok::<(), DispatchError>(())) == mark_white_spec(old(self)@, account_id, hooks));
        Ok(())
    }

    /// The bridge as the genesis configuration sets it up, over an asset module.
    pub fn new(
        key_material: [u8; 32],
        asset_id: AssetId,
        threshold: Balance,
        pending_withdraw_vault: AccountId,
        admins: &Vec<(AccountId, Auth)>,
        assets: crate::assets::Module,
    ) -> (m: Self)
        ensures
            m@ == (BridgeState {
                key_material: Some(key_material),
                sub_keys: Map::empty(),
                asset_id,
                paused: false,
                list: Map::empty(),
                threshold,
                admins: map_of(admins@),
                pending_deposits: Map::empty(),
                history: Map::empty(),
                pending_withdraws: Map::empty(),
                vault: pending_withdraw_vault,
                assets: assets@,
                events: Seq::empty(),
            }),
    {
        let mut admin_map: StorageMap<AccountId, Auth> = StorageMap::new();
        let mut i: usize = 0;
        while i < admins.len()
            invariant
                i <= admins@.len(),
                admin_map@ == map_of(admins@.subrange(0, i as int)),
            decreases admins@.len() - i,
        {
            let (who, auth) = admins[i];
            admin_map.insert(who, auth);
            assert(admins@.subrange(0, i + 1).drop_last() =~= admins@.subrange(0, i as int));
            i = i + 1;
        }
        assert(admins@.subrange(0, admins@.len() as int) =~= admins@);
        Module {
            key_material: Some(key_material),
            sub_key_map: StorageMap::new(),
            asset_id,
            paused: false,
            list: StorageMap::new(),
            threshold,
            admins: admin_map,
            pending_deposit_list: StorageMap::new(),
            deposit_history: StorageMap::new(),
            pending_withdraws: StorageMap::new(),
            pending_withdraw_vault,
            assets,
            events: Vec::new(),
        }
    }
}

} // verus!
