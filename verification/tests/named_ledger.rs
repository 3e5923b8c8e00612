use definex::asset_symbol::{
    AssetOptions, BalanceLock, BalanceStatus, Error, GenesisConfig, Module, Owner, PermissionType, Permissions,
    RawEvent, WithdrawReasons,
};
use definex::dispatch::{DispatchError, Origin};

const ALICE: u64 = 1;
const BOB: u64 = 2;
const CAROL: u64 = 3;
const STAKING: u32 = 0;

fn rights(who: u64) -> Permissions {
    Permissions { update: Owner::Address(who), mint: Owner::Address(who), burn: Owner::Address(who), reserve: Owner::Address(who) }
}

/// A named ledger where ALICE created asset 0 (the staking asset) holding 1000 of it.
fn ledger() -> Module {
    let mut m = Module::new(STAKING);
    let options = AssetOptions { initial_issuance: 1000, permissions: rights(ALICE) };
    assert_eq!(m.create(Origin::Signed(ALICE), b"DEX".to_vec(), options), Ok(()));
    m
}

#[test]
fn create_names_the_asset_and_credits_the_creator() {
    let m = ledger();
    assert_eq!(m.symbol(&0), b"DEX".to_vec());
    assert_eq!(m.free_balance(&0, &ALICE), 1000);
    assert_eq!(m.total_issuance(&0), 1000);
    assert_eq!(m.next_asset_id(), 1);
    assert_eq!(m.get_permission(&0), rights(ALICE));
}

#[test]
fn set_name_needs_the_update_permission() {
    let mut m = ledger();
    assert_eq!(m.set_name(Origin::Signed(BOB), 0, b"X".to_vec()), Err(DispatchError::AssetSymbol(Error::NoNamePermission)));
    assert_eq!(m.set_name(Origin::Signed(ALICE), 0, b"DEX2".to_vec()), Ok(()));
    assert_eq!(m.symbol(&0), b"DEX2".to_vec());
    assert_eq!(m.events.last(), Some(&RawEvent::SymbolUpdated(0)));
}

#[test]
fn reserve_permission_is_never_granted_by_the_check() {
    let m = ledger();
    assert!(m.check_permission(&0, &ALICE, &PermissionType::Mint));
    assert!(!m.check_permission(&0, &ALICE, &PermissionType::Reserve));
    assert!(!m.check_permission(&0, &BOB, &PermissionType::Burn));
}

#[test]
fn named_transfer_of_zero_is_refused() {
    let mut m = ledger();
    assert_eq!(m.transfer(Origin::Signed(ALICE), 0, BOB, 0), Err(DispatchError::AssetSymbol(Error::ZeroAmount)));
    assert_eq!(m.transfer(Origin::Signed(ALICE), 0, BOB, 10), Ok(()));
    assert_eq!(m.free_balance(&0, &BOB), 10);
    assert_eq!(m.free_balance(&0, &ALICE), 990);
}

#[test]
fn reserve_needs_a_delegation() {
    let mut m = ledger();
    assert_eq!(m.reserve(&BOB, &0, &ALICE, 100), Err(Error::NoReserveAuth));
    assert_eq!(m.authorize_reserve(Origin::Signed(ALICE), BOB), Ok(()));
    assert!(m.reserve_delegate(&ALICE, &BOB));
    assert_eq!(m.reserve(&BOB, &0, &ALICE, 100), Ok(()));
    assert_eq!(m.free_balance(&0, &ALICE), 900);
    assert_eq!(m.reserved_balance(&0, &ALICE), 100);
    assert_eq!(m.total_balance(&0, &ALICE), 1000);
    assert_eq!(m.unreserve(&BOB, &0, &ALICE, 101), Err(Error::NotEnoughReserved));
    assert_eq!(m.unreserve(&BOB, &0, &ALICE, 100), Ok(()));
    assert_eq!(m.free_balance(&0, &ALICE), 1000);
    assert_eq!(m.revoke_reserve(Origin::Signed(ALICE), BOB), Ok(()));
    assert_eq!(m.reserve(&BOB, &0, &ALICE, 1), Err(Error::NoReserveAuth));
    assert_eq!(m.reserve(&CAROL, &0, &ALICE, 1), Err(Error::NoReserveAuth));
}

#[test]
fn reserve_more_than_free_is_refused() {
    let mut m = ledger();
    assert_eq!(m.authorize_reserve(Origin::Signed(ALICE), BOB), Ok(()));
    assert_eq!(m.reserve(&BOB, &0, &ALICE, 1001), Err(Error::InsufficientBalance));
}

#[test]
fn slash_takes_free_then_reserved() {
    let mut m = ledger();
    assert_eq!(m.authorize_reserve(Origin::Signed(ALICE), ALICE), Ok(()));
    assert_eq!(m.reserve(&ALICE, &0, &ALICE, 300), Ok(()));
    assert_eq!(m.slash(&0, &ALICE, 800), None);
    assert_eq!(m.free_balance(&0, &ALICE), 0);
    assert_eq!(m.reserved_balance(&0, &ALICE), 200);
    assert_eq!(m.slash(&0, &ALICE, 500), Some(300));
    assert_eq!(m.reserved_balance(&0, &ALICE), 0);
    assert_eq!(m.slash_reserved(&0, &ALICE, 5), Some(5));
}

#[test]
fn repatriate_moves_what_is_reserved() {
    let mut m = ledger();
    assert_eq!(m.authorize_reserve(Origin::Signed(ALICE), ALICE), Ok(()));
    assert_eq!(m.reserve(&ALICE, &0, &ALICE, 300), Ok(()));
    assert_eq!(m.repatriate_reserved(&0, &ALICE, &BOB, 200, BalanceStatus::Free), 0);
    assert_eq!(m.free_balance(&0, &BOB), 200);
    assert_eq!(m.reserved_balance(&0, &ALICE), 100);
    assert_eq!(m.repatriate_reserved(&0, &ALICE, &BOB, 500, BalanceStatus::Reserved), 400);
    assert_eq!(m.reserved_balance(&0, &BOB), 100);
    assert_eq!(m.reserved_balance(&0, &ALICE), 0);
}

#[test]
fn locks_restrict_transfers_of_the_staking_asset() {
    let mut m = ledger();
    m.set_lock(*b"stakingx", &ALICE, 900, WithdrawReasons { bits: 2 });
    assert_eq!(m.transfer(Origin::Signed(ALICE), 0, BOB, 200), Err(DispatchError::AssetSymbol(Error::LiquidityRestrictions)));
    assert_eq!(m.transfer(Origin::Signed(ALICE), 0, BOB, 100), Ok(()));
    // a lock for other reasons does not restrict transfers
    m.set_lock(*b"stakingx", &ALICE, 900, WithdrawReasons { bits: 4 });
    assert_eq!(m.locks(&ALICE).len(), 1);
    assert_eq!(m.transfer(Origin::Signed(ALICE), 0, BOB, 500), Ok(()));
    m.remove_lock(*b"stakingx", &ALICE);
    assert_eq!(m.locks(&ALICE), Vec::<BalanceLock>::new());
}

#[test]
fn extend_lock_keeps_the_larger_amount_and_all_reasons() {
    let mut m = ledger();
    m.extend_lock(*b"lock0001", &ALICE, 100, WithdrawReasons { bits: 2 });
    m.extend_lock(*b"lock0001", &ALICE, 50, WithdrawReasons { bits: 4 });
    m.extend_lock(*b"lock0002", &ALICE, 7, WithdrawReasons { bits: 1 });
    assert_eq!(
        m.locks(&ALICE),
        vec![
            BalanceLock { id: *b"lock0001", amount: 100, reasons: WithdrawReasons { bits: 6 } },
            BalanceLock { id: *b"lock0002", amount: 7, reasons: WithdrawReasons { bits: 1 } },
        ]
    );
    m.set_lock(*b"lock0001", &ALICE, 1, WithdrawReasons { bits: 1 });
    assert_eq!(m.locks(&ALICE)[0], BalanceLock { id: *b"lock0001", amount: 1, reasons: WithdrawReasons { bits: 1 } });
}

#[test]
fn mint_and_burn_follow_permissions() {
    let mut m = ledger();
    assert_eq!(m.mint(Origin::Signed(BOB), 0, BOB, 5), Err(DispatchError::AssetSymbol(Error::NoMintPermission)));
    assert_eq!(m.mint(Origin::Signed(ALICE), 0, BOB, 5), Ok(()));
    assert_eq!(m.total_issuance(&0), 1005);
    assert_eq!(m.burn(Origin::Signed(ALICE), 0, BOB, 6), Err(DispatchError::AssetSymbol(Error::FreeBurningUnderflow)));
    assert_eq!(m.burn(Origin::Signed(ALICE), 0, BOB, 5), Ok(()));
    assert_eq!(m.total_issuance(&0), 1000);
    assert_eq!(m.mint_free(&0, &ALICE, &BOB, &u128::MAX), Err(Error::TotalMintingOverflow));
}

#[test]
fn update_permission_and_reserved_ids() {
    let mut m = ledger();
    assert_eq!(
        m.update_permission(Origin::Signed(BOB), 0, rights(BOB)),
        Err(DispatchError::AssetSymbol(Error::NoUpdatePermission))
    );
    assert_eq!(m.update_permission(Origin::Signed(ALICE), 0, rights(BOB)), Ok(()));
    assert!(m.check_permission(&0, &BOB, &PermissionType::Update));
    let options = AssetOptions { initial_issuance: 5, permissions: rights(BOB) };
    assert_eq!(m.create_reserved(Origin::Signed(ALICE), 0, options), Err(DispatchError::BadOrigin));
    assert_eq!(m.create_reserved(Origin::Root, 0, options), Err(DispatchError::AssetSymbol(Error::IdAlreadyTaken)));
    assert_eq!(m.create_reserved(Origin::Root, 7, options), Err(DispatchError::AssetSymbol(Error::IdUnavailable)));
}

#[test]
fn genesis_endows_every_account_with_every_asset() {
    let config = GenesisConfig { assets: vec![0, 1], initial_balance: 50, endowed_accounts: vec![ALICE, BOB, CAROL], next_asset_id: 2 };
    let m = config.build(STAKING);
    assert_eq!(m.total_issuance(&0), 150);
    assert_eq!(m.total_issuance(&1), 150);
    assert_eq!(m.free_balance(&1, &CAROL), 50);
    assert_eq!(m.free_balance(&2, &CAROL), 0);
    assert_eq!(m.next_asset_id(), 2);
    assert!(m.ensure_can_withdraw(&1, &ALICE, 10, WithdrawReasons { bits: 2 }, 0).is_ok());
}
