//! Asset administration on top of the ledger: the superuser creates, mints and burns;
//! transfers, mints and burns pass through hooks that a runtime chooses.
use vstd::prelude::*;
use crate::dispatch::{ensure_root, ensure_signed, AccountId, AssetId, Balance, DispatchError, Origin};
use crate::generic_asset::{
    burn_call_spec, created_all, genesis_creatable, genesis_options, mint_call_spec, symbol_ids, transfer_spec,
    AssetOptions, GenericAssetState, Owner, PermissionsV1,
};
use crate::storage::{copy_bytes, map_of, StorageMap};

verus! {

/// Runs before an asset is created; an error stops the creation.
pub trait BeforeAssetCreate<A> {
    fn before_asset_create(_asset_id: &A) -> (r: Result<(), DispatchError>)
        default_ensures
            r == Ok::<(), DispatchError>(()),
    {
        Ok(())
    }
}

/// Runs after an asset is created; its error is ignored.
pub trait OnAssetCreate<A> {
    fn on_asset_create(_asset_id: &A) -> (r: Result<(), DispatchError>)
        default_ensures
            r == Ok::<(), DispatchError>(()),
    {
        Ok(())
    }
}

/// Runs before a transfer; an error stops the transfer.
pub trait BeforeAssetTransfer<A, U, B> {
    fn before_asset_transfer(_asset_id: &A, _from: &U, _to: &U, _balance: &B) -> (r: Result<(), DispatchError>)
        default_ensures
            r == Ok::<(), DispatchError>(()),
    {
        Ok(())
    }
}

/// Runs after a transfer; its error is ignored.
pub trait OnAssetTransfer<A, U, B> {
    fn on_asset_transfer(_asset_id: &A, _from: &U, _to: &U, _balance: &B) -> (r: Result<(), DispatchError>)
        default_ensures
            r == Ok::<(), DispatchError>(()),
    {
        Ok(())
    }
}

/// Runs before a mint; an error stops the mint.
pub trait BeforeAssetMint<A, U, B> {
    fn before_asset_mint(_asset_id: &A, _to: &U, _balance: &B) -> (r: Result<(), DispatchError>)
        default_ensures
            r == Ok::<(), DispatchError>(()),
    {
        Ok(())
    }
}

/// Runs after a mint; its error is ignored.
pub trait OnAssetMint<A, U, B> {
    fn on_asset_mint(_asset_id: &A, _to: &U, _balance: &B) -> (r: Result<(), DispatchError>)
        default_ensures
            r == Ok::<(), DispatchError>(()),
    {
        Ok(())
    }
}

/// Runs before a burn; an error stops the burn.
pub trait BeforeAssetBurn<A, U, B> {
    fn before_asset_burn(_asset_id: &A, _to: &U, _balance: &B) -> (r: Result<(), DispatchError>)
        default_ensures
            r == Ok::<(), DispatchError>(()),
    {
        Ok(())
    }
}

/// Runs after a burn; its error is ignored.
pub trait OnAssetBurn<A, U, B> {
    fn on_asset_burn(_asset_id: &A, _to: &U, _balance: &B) -> (r: Result<(), DispatchError>)
        default_ensures
            r == Ok::<(), DispatchError>(()),
    {
        Ok(())
    }
}

impl<A> BeforeAssetCreate<A> for () {
}

impl<A> OnAssetCreate<A> for () {
}

impl<A, U, B> BeforeAssetBurn<A, U, B> for () {
}

impl<A, U, B> OnAssetBurn<A, U, B> for () {
}

impl<A, U, B> BeforeAssetMint<A, U, B> for () {
}

impl<A, U, B> OnAssetMint<A, U, B> for () {
}

impl<A, U, B> BeforeAssetTransfer<A, U, B> for () {
}

impl<A, U, B> OnAssetTransfer<A, U, B> for () {
}

/// Where no hooks are set (the unit type), every mint, burn and transfer is let through:
/// whatever answer a call of the unit's hook may give is `Ok`.
pub proof fn law_unit_hooks_let_through(a: AssetId, from: AccountId, to: AccountId, amount: Balance)
    ensures
        forall|h: Result<(), DispatchError>|
            #[trigger] call_ensures(<() as BeforeAssetMint<AssetId, AccountId, Balance>>::before_asset_mint, (&a, &to, &amount), h)
            ==> h is Ok,
        forall|h: Result<(), DispatchError>|
            #[trigger] call_ensures(<() as BeforeAssetBurn<AssetId, AccountId, Balance>>::before_asset_burn, (&a, &to, &amount), h)
            ==> h is Ok,
        forall|h: Result<(), DispatchError>|
            #[trigger] call_ensures(<() as BeforeAssetTransfer<AssetId, AccountId, Balance>>::before_asset_transfer, (&a, &from, &to, &amount), h)
            ==> h is Ok,
{
}

/// Events of the module.
#[derive(Clone, Copy, Debug, PartialEq, Eq, Structural)]
pub enum RawEvent {
    PhantomEvent(u32, AccountId),
}

/// The abstract state of the module and of the ledger beneath it.
pub struct AssetsState {
    pub symbols: Map<AssetId, Seq<u8>>,
    pub ga: GenericAssetState,
}

/// The module: asset symbols, over the ledger.
pub struct Module {
    /// Asset symbols; their UTF-8 validity is left to clients.
    pub symbols: StorageMap<AssetId, Vec<u8>>,
    /// The ledger.
    pub generic_asset: crate::generic_asset::Module,
}

impl View for Module {
    type V = AssetsState;

    open spec fn view(&self) -> AssetsState {
        AssetsState { symbols: self.symbols@, ga: self.generic_asset@ }
    }
}

/// Permissions that give the account every right over an asset.
pub open spec fn all_rights(who: AccountId) -> PermissionsV1 {
    PermissionsV1 { update: Owner::Address(who), mint: Owner::Address(who), burn: Owner::Address(who) }
}

/// What a call guarded by a hook does: the hook's error stops it, else `then` happens.
pub open spec fn hooked(s: AssetsState, hook: Result<(), DispatchError>, then: (AssetsState, Result<(), DispatchError>)) -> (AssetsState, Result<(), DispatchError>) {
    if hook is Err {
        (s, hook)
    } else {
        then
    }
}

/// What a transfer does once its hook has answered.
pub open spec fn transfer_after_hook_spec(s: AssetsState, from: AccountId, asset_id: AssetId, to: AccountId, amount: Balance, hook: Result<(), DispatchError>) -> (AssetsState, Result<(), DispatchError>) {
    let (g, r) = transfer_spec(s.ga, asset_id, from, to, amount);
    hooked(s, hook, (AssetsState { ga: g, ..s }, match r {
        Ok(_) => Ok(()),
        Err(e) => Err(DispatchError::GenericAsset(e)),
    }))
}

/// What a root mint does once its hook has answered: the superuser mints on the ledger.
pub open spec fn mint_after_hook_spec(s: AssetsState, asset_id: AssetId, to: AccountId, amount: Balance, hook: Result<(), DispatchError>) -> (AssetsState, Result<(), DispatchError>) {
    let (g, r) = mint_call_spec(s.ga, Origin::Signed(s.ga.sudo_key), asset_id, to, amount);
    hooked(s, hook, (AssetsState { ga: g, ..s }, r))
}

/// What a root burn does once its hook has answered: the superuser burns on the ledger.
pub open spec fn burn_after_hook_spec(s: AssetsState, asset_id: AssetId, to: AccountId, amount: Balance, hook: Result<(), DispatchError>) -> (AssetsState, Result<(), DispatchError>) {
    let (g, r) = burn_call_spec(s.ga, Origin::Signed(s.ga.sudo_key), asset_id, to, amount);
    hooked(s, hook, (AssetsState { ga: g, ..s }, r))
}

impl Module {
    /// The module over a ledger, with no symbols.
    pub fn new(generic_asset: crate::generic_asset::Module) -> (m: Self)
        ensures
            m@ == (AssetsState { symbols: Map::empty(), ga: generic_asset@ }),
    {
        Module { symbols: StorageMap::new(), generic_asset }
    }

    /// Create an asset under the next free id with every right given to the superuser,
    /// and store its symbol; root only.
    pub fn create(&mut self, origin: Origin, initial_balance: Balance, symbol: Vec<u8>) -> (r: Result<(), DispatchError>)
        ensures
            ({
                let pre = old(self)@;
                let root = pre.ga.sudo_key;
                let id = pre.ga.next_asset_id;
                let options = AssetOptions { initial_issuance: initial_balance, permissions: all_rights(root) };
                if origin != Origin::Root {
                    r == Err::<(), DispatchError>(DispatchError::BadOrigin) && final(self)@ == pre
                } else if id == AssetId::MAX {
                    r == Err::<(), DispatchError>(DispatchError::GenericAsset(crate::generic_asset::Error::NoIdAvailable))
                        && final(self)@ == pre
                } else {
                    r is Ok && final(self)@ == (AssetsState {
                        symbols: pre.symbols.insert(id, symbol@),
                        ga: pre.ga.with_next_asset_id((id + 1) as AssetId).created(id, root, options),
                    })
                }
            }),
    {
        match ensure_root(origin) {
            Ok(()) => {},
            Err(e) => { return Err(e); },
        }
        let root_account_id = self.generic_asset.sudo_key;
        let options = AssetOptions {
            initial_issuance: initial_balance,
            permissions: PermissionsV1 {
                update: Owner::Address(root_account_id),
                mint: Owner::Address(root_account_id),
                burn: Owner::Address(root_account_id),
            },
        };
        let asset_id = self.generic_asset.next_asset_id;
        match self.generic_asset.create_asset(None, Some(root_account_id), options) {
            Ok(()) => {},
            Err(e) => { return Err(DispatchError::GenericAsset(e)); },
        }
        self.symbols.insert(asset_id, symbol);
        Ok(())
    }

    /// The transfer once its hook has answered `hook`.
    pub fn transfer_after_hook(&mut self, from: AccountId, asset_id: AssetId, to: AccountId, amount: Balance, hook: Result<(), DispatchError>) -> (r: Result<(), DispatchError>)
        requires
            old(self)@.ga.transfer_fits(asset_id, from, to, amount),
        ensures
            (final(self)@, r) == transfer_after_hook_spec(old(self)@, from, asset_id, to, amount, hook),
    {
        match hook {
            Ok(()) => {},
            Err(e) => { return Err(e); },
        }
        match self.generic_asset.make_transfer_with_event(&asset_id, &from, &to, amount) {
            Ok(()) => Ok(()),
            Err(e) => Err(DispatchError::GenericAsset(e)),
        }
    }

    /// Transfer through the hooks `B` (before) and `O` (after, whose error is ignored): `B`
    /// is asked with the asset, the signer, the receiver and the amount, and its answer
    /// decides; `O` is told of a transfer that went through.
    pub fn transfer<B: BeforeAssetTransfer<AssetId, AccountId, Balance>, O: OnAssetTransfer<AssetId, AccountId, Balance>>(
        &mut self,
        origin: Origin,
        asset_id: AssetId,
        to: AccountId,
        amount: Balance,
    ) -> (r: Result<(), DispatchError>)
        requires
            forall|who: AccountId| origin == Origin::Signed(who) ==> old(self)@.ga.transfer_fits(asset_id, who, to, amount),
        ensures
            match origin {
                Origin::Signed(who) => (exists|hook: Result<(), DispatchError>|
                    call_ensures(B::before_asset_transfer, (&asset_id, &who, &to, &amount), hook)
                    && (final(self)@, r) == transfer_after_hook_spec(old(self)@, who, asset_id, to, amount, hook))
                    && (r is Ok ==> exists|after: Result<(), DispatchError>|
                        call_ensures(O::on_asset_transfer, (&asset_id, &who, &to, &amount), after)),
                _ => r == Err::<(), DispatchError>(DispatchError::BadOrigin) && final(self)@ == old(self)@,
            },
    {
        let o = match ensure_signed(origin) {
            Ok(w) => w,
            Err(e) => { return Err(e); },
        };
        let before = B::before_asset_transfer;
        let hook = before(&asset_id, &o, &to, &amount);
        let r = self.transfer_after_hook(o, asset_id, to, amount, hook);
        if r.is_ok() {
            let after = O::on_asset_transfer;
            let _ = after(&asset_id, &o, &to, &amount);
        }
        r
    }

    /// The root mint once its hook has answered `hook`.
    pub fn mint_after_hook(&mut self, asset_id: AssetId, to: AccountId, amount: Balance, hook: Result<(), DispatchError>) -> (r: Result<(), DispatchError>)
        ensures
            (final(self)@, r) == mint_after_hook_spec(old(self)@, asset_id, to, amount, hook),
    {
        match hook {
            Ok(()) => {},
            Err(e) => { return Err(e); },
        }
        let root_account_id = self.generic_asset.sudo_key;
        self.generic_asset.mint(Origin::Signed(root_account_id), asset_id, to, amount)
    }

    /// Mint as the superuser through the hooks `B` and `O`; root only. `B` is asked with the
    /// asset, the receiver and the amount, and its answer decides; `O` is told of a mint
    /// that went through, and its answer is ignored.
    pub fn mint<B: BeforeAssetMint<AssetId, AccountId, Balance>, O: OnAssetMint<AssetId, AccountId, Balance>>(
        &mut self,
        origin: Origin,
        asset_id: AssetId,
        to: AccountId,
        amount: Balance,
    ) -> (r: Result<(), DispatchError>)
        ensures
            origin == Origin::Root ==> exists|hook: Result<(), DispatchError>|
                call_ensures(B::before_asset_mint, (&asset_id, &to, &amount), hook)
                && (final(self)@, r) == mint_after_hook_spec(old(self)@, asset_id, to, amount, hook),
            origin == Origin::Root && r is Ok ==> exists|after: Result<(), DispatchError>|
                call_ensures(O::on_asset_mint, (&asset_id, &to, &amount), after),
            origin != Origin::Root ==> r == Err::<(), DispatchError>(DispatchError::BadOrigin) && final(self)@ == old(self)@,
    {
        match ensure_root(origin) {
            Ok(()) => {},
            Err(e) => { return Err(e); },
        }
        let before = B::before_asset_mint;
        let hook = before(&asset_id, &to, &amount);
        let r = self.mint_after_hook(asset_id, to, amount, hook);
        if r.is_ok() {
            let after = O::on_asset_mint;
            let _ = after(&asset_id, &to, &amount);
        }
        r
    }

    /// The root burn once its hook has answered `hook`.
    pub fn burn_after_hook(&mut self, asset_id: AssetId, to: AccountId, amount: Balance, hook: Result<(), DispatchError>) -> (r: Result<(), DispatchError>)
        ensures
            (final(self)@, r) == burn_after_hook_spec(old(self)@, asset_id, to, amount, hook),
    {
        match hook {
            Ok(()) => {},
            Err(e) => { return Err(e); },
        }
        let root_account_id = self.generic_asset.sudo_key;
        self.generic_asset.burn(Origin::Signed(root_account_id), asset_id, to, amount)
    }

    /// Burn as the superuser through the hooks `B` and `O`; root only. `B` is asked with the
    /// asset, the account and the amount, and its answer decides; `O` is told of a burn
    /// that went through, and its answer is ignored.
    pub fn burn<B: BeforeAssetBurn<AssetId, AccountId, Balance>, O: OnAssetBurn<AssetId, AccountId, Balance>>(
        &mut self,
        origin: Origin,
        asset_id: AssetId,
        to: AccountId,
        amount: Balance,
    ) -> (r: Result<(), DispatchError>)
        ensures
            origin == Origin::Root ==> exists|hook: Result<(), DispatchError>|
                call_ensures(B::before_asset_burn, (&asset_id, &to, &amount), hook)
                && (final(self)@, r) == burn_after_hook_spec(old(self)@, asset_id, to, amount, hook),
            origin == Origin::Root && r is Ok ==> exists|after: Result<(), DispatchError>|
                call_ensures(O::on_asset_burn, (&asset_id, &to, &amount), after),
            origin != Origin::Root ==> r == Err::<(), DispatchError>(DispatchError::BadOrigin) && final(self)@ == old(self)@,
    {
        match ensure_root(origin) {
            Ok(()) => {},
            Err(e) => { return Err(e); },
        }
        let before = B::before_asset_burn;
        let hook = before(&asset_id, &to, &amount);
        let r = self.burn_after_hook(asset_id, to, amount, hook);
        if r.is_ok() {
            let after = O::on_asset_burn;
            let _ = after(&asset_id, &to, &amount);
        }
        r
    }

    /// Create an asset under a reserved id: root only, and handed on to the ledger as a
    /// signed call of the superuser, which the ledger refuses as not root.
    pub fn create_reserved(&mut self, origin: Origin, asset_id: AssetId, options: AssetOptions) -> (r: Result<(), DispatchError>)
        ensures
            r == Err::<(), DispatchError>(DispatchError::BadOrigin),
            final(self)@ == old(self)@,
    {
        match ensure_root(origin) {
            Ok(()) => {},
            Err(e) => { return Err(e); },
        }
        let root_account_id = self.generic_asset.sudo_key;
        self.generic_asset.create_reserved(Origin::Signed(root_account_id), asset_id, options)
    }

    /// The id the next created asset receives.
    pub fn get_current_asset_id(&self) -> (id: AssetId)
        ensures
            id == self@.ga.next_asset_id,
    {
        self.generic_asset.next_asset_id
    }

    /// Whether the asset has a symbol here.
    pub fn asset_exists(&self, asset_id: &AssetId) -> (b: bool)
        ensures
            b == self@.symbols.contains_key(*asset_id),
    {
        self.symbols.contains_key(asset_id)
    }

    /// The free balance on the ledger.
    pub fn free_balance(&self, asset_id: &AssetId, who: &AccountId) -> (b: Balance)
        ensures
            b == self@.ga.free(*asset_id, *who),
    {
        self.generic_asset.free_balance(asset_id, who)
    }

    /// A transfer on the ledger, without event.
    pub fn make_transfer(&mut self, asset_id: &AssetId, from: &AccountId, to: &AccountId, amount: Balance) -> (r: Result<(), crate::generic_asset::Error>)
        requires
            old(self)@.ga.transfer_fits(*asset_id, *from, *to, amount),
        ensures
            final(self)@.symbols == old(self)@.symbols,
            old(self)@.ga.free(*asset_id, *from) < amount ==> r == Err::<(), crate::generic_asset::Error>(crate::generic_asset::Error::InsufficientBalance)
                && final(self)@ == old(self)@,
            old(self)@.ga.free(*asset_id, *from) >= amount ==> r is Ok
                && final(self)@.ga == old(self)@.ga.transferred(*asset_id, *from, *to, amount),
    {
        self.generic_asset.make_transfer(asset_id, from, to, amount)
    }

    /// A transfer on the ledger, with event.
    pub fn make_transfer_with_event(&mut self, asset_id: &AssetId, from: &AccountId, to: &AccountId, amount: Balance) -> (r: Result<(), crate::generic_asset::Error>)
        requires
            old(self)@.ga.transfer_fits(*asset_id, *from, *to, amount),
        ensures
            final(self)@.symbols == old(self)@.symbols,
            (final(self)@.ga, r) == transfer_spec(old(self)@.ga, *asset_id, *from, *to, amount),
    {
        self.generic_asset.make_transfer_with_event(asset_id, from, to, amount)
    }
}

/// The settings the asset module starts from: the assets that exist from genesis, with
/// their symbols.
pub struct GenesisConfig {
    pub symbols: Vec<(AssetId, Vec<u8>)>,
}

impl GenesisConfig {
    /// The module these settings make over a ledger: the symbols are stored and each asset
    /// is created under its reserved id, owned by the default account, with every right
    /// given to the superuser and nothing issued.
    pub fn build(&self, generic_asset: crate::generic_asset::Module) -> (m: Module)
        requires
            genesis_creatable(|a: AssetId| generic_asset@.total_issuance.contains_key(a), symbol_ids(self.symbols@), generic_asset@.next_asset_id),
        ensures
            m@ == (AssetsState {
                symbols: map_of(self.symbols@),
                ga: created_all(generic_asset@, symbol_ids(self.symbols@), 0, genesis_options(generic_asset@.sudo_key)),
            }),
    {
        let mut symbols: StorageMap<AssetId, Vec<u8>> = StorageMap::new();
        let mut i: usize = 0;
        while i < self.symbols.len()
            invariant
                i <= self.symbols@.len(),
                symbols@ == map_of(self.symbols@.subrange(0, i as int)),
            decreases self.symbols@.len() - i,
        {
            let id = self.symbols[i].0;
            let sym = copy_bytes(self.symbols[i].1.as_slice());
            symbols.insert(id, sym);
            assert(self.symbols@.subrange(0, i + 1).drop_last() =~= self.symbols@.subrange(0, i as int));
            i = i + 1;
        }
        assert(self.symbols@.subrange(0, self.symbols@.len() as int) =~= self.symbols@);
        let mut generic_asset = generic_asset;
        let root = generic_asset.sudo_key;
        let options = AssetOptions {
            initial_issuance: 0,
            permissions: PermissionsV1 { update: Owner::Address(root), mint: Owner::Address(root), burn: Owner::Address(root) },
        };
        generic_asset.create_all(&self.symbols, None, options);
        Module { symbols, generic_asset }
    }
}

} // verus!
