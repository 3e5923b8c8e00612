use definex::dispatch::{DispatchError, Origin};
use definex::generic_asset::{AssetOptions, BalanceStatus, Error, Module, Owner, PermissionsV1};

const ROOT: u64 = 1;
const ALICE: u64 = 2;
const BOB: u64 = 3;

fn ledger_with_asset(issuance: u128) -> Module {
    let mut m = Module::new(ROOT);
    m.create(Origin::Root, issuance, b"BTC".to_vec()).unwrap();
    m
}

#[test]
fn create_credits_the_superuser_and_lists_the_symbol() {
    let m = ledger_with_asset(1000);
    assert_eq!(m.free_balance(&0, &ROOT), 1000);
    assert_eq!(m.total_issuance(&0), 1000);
    assert_eq!(m.symbols(&0), b"BTC".to_vec());
    assert!(m.asset_id_exists(0));
    assert_eq!(m.next_asset_id, 1);
}

#[test]
fn create_needs_root() {
    let mut m = Module::new(ROOT);
    assert_eq!(m.create(Origin::Signed(ROOT), 5, vec![]), Err(DispatchError::BadOrigin));
    assert!(!m.asset_id_exists(0));
}

#[test]
fn transfer_moves_exactly_the_amount() {
    let mut m = ledger_with_asset(1000);
    assert_eq!(m.transfer(Origin::Signed(ROOT), 0, ALICE, 300), Ok(()));
    assert_eq!(m.free_balance(&0, &ROOT), 700);
    assert_eq!(m.free_balance(&0, &ALICE), 300);
    assert_eq!(m.total_issuance(&0), 1000);
}

#[test]
fn transfer_of_zero_is_refused() {
    let mut m = ledger_with_asset(1000);
    assert_eq!(m.transfer(Origin::Signed(ROOT), 0, ALICE, 0), Err(DispatchError::GenericAsset(Error::ZeroAmount)));
}

#[test]
fn transfer_beyond_balance_is_refused() {
    let mut m = ledger_with_asset(10);
    assert_eq!(m.make_transfer(&0, &ROOT, &BOB, 11), Err(Error::InsufficientBalance));
    assert_eq!(m.free_balance(&0, &ROOT), 10);
}

#[test]
fn mint_and_burn_need_permission() {
    let mut m = ledger_with_asset(0);
    assert_eq!(m.mint_free(&0, &ALICE, &ALICE, &5), Err(Error::NoMintPermission));
    assert_eq!(m.mint_free(&0, &ROOT, &ALICE, &5), Ok(()));
    assert_eq!(m.free_balance(&0, &ALICE), 5);
    assert_eq!(m.total_issuance(&0), 5);
    assert_eq!(m.burn_free(&0, &ALICE, &ALICE, &5), Err(Error::NoBurnPermission));
    assert_eq!(m.burn_free(&0, &ROOT, &ALICE, &6), Err(Error::TotalBurningUnderflow));
    assert_eq!(m.burn_free(&0, &ROOT, &ALICE, &5), Ok(()));
    assert_eq!(m.free_balance(&0, &ALICE), 0);
    assert_eq!(m.total_issuance(&0), 0);
}

#[test]
fn reserve_and_unreserve_round_trip() {
    let mut m = ledger_with_asset(100);
    let id = m.reserve(&0, &ROOT, 40).unwrap();
    assert_eq!(id, 1);
    assert_eq!(m.free_balance(&0, &ROOT), 60);
    assert_eq!(m.reserved_balance(&0, &ROOT), 40);
    assert_eq!(m.locked_balance(&0, &ROOT, id), Some(40));
    assert_eq!(m.unreserve(&0, &ROOT, 40, Some(id)), Ok(0));
    assert_eq!(m.free_balance(&0, &ROOT), 100);
    assert_eq!(m.reserved_balance(&0, &ROOT), 0);
    assert_eq!(m.locked_balance(&0, &ROOT, id), None);
}

#[test]
fn reserve_then_unreserve_without_a_lock_id_restores() {
    let mut m = ledger_with_asset(100);
    let id = m.reserve(&0, &ROOT, 40).unwrap();
    assert_eq!(m.unreserve(&0, &ROOT, 40, None), Ok(0));
    assert_eq!(m.free_balance(&0, &ROOT), 100);
    assert_eq!(m.reserved_balance(&0, &ROOT), 0);
    assert_eq!(m.locked_balance(&0, &ROOT, id), None);
}

#[test]
fn update_permission_needs_the_updater() {
    let mut m = ledger_with_asset(0);
    let p = PermissionsV1 { update: Owner::Address(ALICE), mint: Owner::Address(ALICE), burn: Owner::Nobody };
    assert_eq!(m.update_permission(Origin::Signed(ALICE), 0, p), Err(DispatchError::GenericAsset(Error::NoUpdatePermission)));
    assert_eq!(m.update_permission(Origin::Signed(ROOT), 0, p), Ok(()));
    assert!(m.check_permission(&0, &ALICE, &definex::generic_asset::PermissionType::Mint));
    let _ = AssetOptions { initial_issuance: 0, permissions: p };
}

#[test]
fn unreserve_moves_what_is_reserved_and_reports_the_rest() {
    let mut m = ledger_with_asset(100);
    let id = m.reserve(&0, &ROOT, 40).unwrap();
    m.reserved_balance.insert((0, ROOT), 25);
    assert_eq!(m.unreserve(&0, &ROOT, 40, Some(id)), Ok(15));
    assert_eq!(m.reserved_balance(&0, &ROOT), 0);
    assert_eq!(m.free_balance(&0, &ROOT), 85);
    assert_eq!(m.locked_balance(&0, &ROOT, id), None);
    // nothing is reserved any more: nothing moves, and the whole amount is reported back
    assert_eq!(m.unreserve(&0, &ROOT, 40, Some(id)), Ok(40));
    assert_eq!(m.unreserve(&0, &ROOT, 7, None), Ok(7));
}

#[test]
fn unreserve_without_a_matching_lock_still_moves_the_reserve() {
    let mut m = ledger_with_asset(100);
    m.reserved_balance.insert((0, ROOT), 10);
    assert_eq!(m.unreserve(&0, &ROOT, 4, Some(99)), Ok(0));
    assert_eq!(m.reserved_balance(&0, &ROOT), 6);
    assert_eq!(m.free_balance(&0, &ROOT), 104);
    assert_eq!(m.unreserve(&0, &ROOT, 9, None), Ok(3));
    assert_eq!(m.reserved_balance(&0, &ROOT), 0);
    assert_eq!(m.free_balance(&0, &ROOT), 110);
}

#[test]
fn unreserve_without_a_lock_id_releases_the_lock_of_that_amount() {
    let mut m = ledger_with_asset(100);
    let a = m.reserve(&0, &ROOT, 30).unwrap();
    let b = m.reserve(&0, &ROOT, 20).unwrap();
    assert_eq!(m.unreserve(&0, &ROOT, 20, None), Ok(0));
    assert_eq!(m.locked_balance(&0, &ROOT, b), None);
    assert_eq!(m.locked_balance(&0, &ROOT, a), Some(30));
    assert_eq!(m.reserved_balance(&0, &ROOT), 30);
    assert_eq!(m.free_balance(&0, &ROOT), 70);
}

#[test]
fn slash_takes_free_then_reserved_and_reports_the_rest() {
    let mut m = ledger_with_asset(100);
    m.reserve(&0, &ROOT, 30).unwrap();
    assert_eq!(m.slash(&0, &ROOT, 50), None);
    assert_eq!(m.free_balance(&0, &ROOT), 20);
    assert_eq!(m.reserved_balance(&0, &ROOT), 30);
    assert_eq!(m.slash(&0, &ROOT, 60), Some(10));
    assert_eq!(m.free_balance(&0, &ROOT), 0);
    assert_eq!(m.reserved_balance(&0, &ROOT), 0);
    assert_eq!(m.total_issuance(&0), 100);
}

#[test]
fn repatriate_moves_reserve_to_the_beneficiary() {
    let mut m = ledger_with_asset(100);
    m.reserve(&0, &ROOT, 30).unwrap();
    assert_eq!(m.repatriate_reserved(&0, &ROOT, &ALICE, 20, BalanceStatus::Free), 0);
    assert_eq!(m.free_balance(&0, &ALICE), 20);
    assert_eq!(m.reserved_balance(&0, &ROOT), 10);
    assert_eq!(m.repatriate_reserved(&0, &ROOT, &BOB, 25, BalanceStatus::Reserved), 15);
    assert_eq!(m.reserved_balance(&0, &BOB), 10);
    assert_eq!(m.reserved_balance(&0, &ROOT), 0);
}
