use definex::btc_bridge::{Auth, BlackOrWhite, Deposit, Error, Module, RawEvent};
use definex::dispatch::{DispatchError, Origin};

const ROOT: u64 = 1;
const OPERATOR: u64 = 2;
const MARKER: u64 = 3;
const ALICE: u64 = 10;
const BOB: u64 = 11;
const VAULT: u64 = 99;
const SBTC: u32 = 0;
const THRESHOLD: u128 = 1000;

fn tx(n: u8) -> [u8; 32] {
    [n; 32]
}

fn bridge() -> Module {
    let mut ga = definex::generic_asset::Module::new(ROOT);
    ga.create(Origin::Root, 0, b"SBTC".to_vec()).unwrap();
    let assets = definex::assets::Module::new(ga);
    let admins = vec![(OPERATOR, Auth::All), (MARKER, Auth::Mark)];
    Module::new([7u8; 32], SBTC, THRESHOLD, VAULT, &admins, assets)
}

fn deposit(m: &mut Module, origin: Origin, who: u64, amount: u128, t: [u8; 32]) -> Result<(), DispatchError> {
    m.deposit::<(), ()>(origin, who, amount, t)
}

fn free(m: &Module, who: u64) -> u128 {
    m.assets().free_balance(&SBTC, &who)
}

#[test]
fn small_deposit_is_minted_at_once() {
    let mut m = bridge();
    assert_eq!(deposit(&mut m, Origin::Signed(OPERATOR), ALICE, 500, tx(1)), Ok(()));
    assert_eq!(free(&m, ALICE), 500);
    assert_eq!(m.deposit_history(&tx(1)), Some(Deposit { account_id: ALICE, tx_hash: None, amount: 500 }));
    assert_eq!(m.events().last(), Some(&RawEvent::Deposit(ALICE, 500, tx(1))));
}

#[test]
fn repeated_transaction_is_refused() {
    let mut m = bridge();
    assert_eq!(deposit(&mut m, Origin::Signed(OPERATOR), ALICE, 500, tx(1)), Ok(()));
    assert_eq!(
        deposit(&mut m, Origin::Signed(OPERATOR), BOB, 5, tx(1)),
        Err(DispatchError::BtcBridge(Error::RepeatedTransaction))
    );
    assert_eq!(free(&m, BOB), 0);
    assert_eq!(free(&m, ALICE), 500);
}

#[test]
fn deposit_needs_an_operator() {
    let mut m = bridge();
    assert_eq!(
        deposit(&mut m, Origin::Signed(ALICE), ALICE, 5, tx(2)),
        Err(DispatchError::BtcBridge(Error::NoDepositAuth))
    );
    assert_eq!(
        deposit(&mut m, Origin::Signed(MARKER), ALICE, 5, tx(2)),
        Err(DispatchError::BtcBridge(Error::NoDepositAuth))
    );
    assert_eq!(deposit(&mut m, Origin::Root, ALICE, 5, tx(2)), Err(DispatchError::BadOrigin));
    assert_eq!(m.deposit_history(&tx(2)), None);
}

#[test]
fn large_deposit_is_held_until_marked_white() {
    let mut m = bridge();
    assert_eq!(deposit(&mut m, Origin::Signed(OPERATOR), ALICE, 5000, tx(3)), Ok(()));
    assert_eq!(free(&m, ALICE), 0);
    assert_eq!(m.pending_deposit_list(&ALICE), vec![Deposit { account_id: ALICE, tx_hash: Some(tx(3)), amount: 5000 }]);
    assert_eq!(m.mark_white::<(), ()>(Origin::Signed(MARKER), ALICE), Ok(()));
    assert_eq!(free(&m, ALICE), 5000);
    assert_eq!(m.pending_deposit_list(&ALICE), vec![]);
    assert_eq!(m.list(&ALICE), BlackOrWhite::White);
    assert_eq!(m.check_list(&ALICE), Some(BlackOrWhite::White));
    // once white, large deposits go through at once
    assert_eq!(deposit(&mut m, Origin::Signed(OPERATOR), ALICE, 7000, tx(4)), Ok(()));
    assert_eq!(free(&m, ALICE), 12000);
}

#[test]
fn marking_black_drops_held_deposits_and_forgets_them() {
    let mut m = bridge();
    assert_eq!(deposit(&mut m, Origin::Signed(OPERATOR), ALICE, 5000, tx(5)), Ok(()));
    assert_eq!(m.mark_black(Origin::Signed(MARKER), ALICE), Ok(()));
    assert_eq!(m.pending_deposit_list(&ALICE), vec![]);
    assert_eq!(m.deposit_history(&tx(5)), None);
    assert_eq!(m.list(&ALICE), BlackOrWhite::Black);
    assert_eq!(free(&m, ALICE), 0);
    // the transaction may come again, and is held again
    assert_eq!(deposit(&mut m, Origin::Signed(OPERATOR), ALICE, 5000, tx(5)), Ok(()));
    assert_eq!(m.pending_deposit_list(&ALICE).len(), 1);
}

#[test]
fn marking_needs_the_mark_right() {
    let mut m = bridge();
    assert_eq!(m.mark_black(Origin::Signed(ALICE), BOB), Err(DispatchError::BtcBridge(Error::NoMarkAuth)));
    assert_eq!(m.mark_white::<(), ()>(Origin::Signed(ALICE), BOB), Err(DispatchError::BtcBridge(Error::NoMarkAuth)));
    assert_eq!(m.check_list(&BOB), None);
}

#[test]
fn withdraw_then_refund_restores_balances() {
    let mut m = bridge();
    assert_eq!(deposit(&mut m, Origin::Signed(OPERATOR), ALICE, 800, tx(6)), Ok(()));
    assert_eq!(m.withdraw(Origin::Signed(ALICE), 300), Ok(()));
    assert_eq!(free(&m, ALICE), 500);
    assert_eq!(free(&m, VAULT), 300);
    assert_eq!(m.pending_withdraws(&ALICE), vec![300]);
    assert_eq!(m.refund(Origin::Signed(OPERATOR), ALICE, 300), Ok(()));
    assert_eq!(free(&m, ALICE), 800);
    assert_eq!(free(&m, VAULT), 0);
    assert_eq!(m.pending_withdraws(&ALICE), Vec::<u128>::new());
}

#[test]
fn withdraw_finish_settles_the_first_matching_withdrawal() {
    let mut m = bridge();
    assert_eq!(deposit(&mut m, Origin::Signed(OPERATOR), ALICE, 900, tx(7)), Ok(()));
    assert_eq!(m.withdraw(Origin::Signed(ALICE), 100), Ok(()));
    assert_eq!(m.withdraw(Origin::Signed(ALICE), 200), Ok(()));
    assert_eq!(m.withdraw(Origin::Signed(ALICE), 100), Ok(()));
    assert_eq!(m.withdraw_finish(Origin::Signed(OPERATOR), ALICE, 100), Ok(()));
    assert_eq!(m.pending_withdraws(&ALICE), vec![200, 100]);
    assert_eq!(free(&m, VAULT), 400);
    assert_eq!(
        m.withdraw_finish(Origin::Signed(OPERATOR), ALICE, 55),
        Err(DispatchError::BtcBridge(Error::PendingWithdrawNotFound))
    );
    assert_eq!(
        m.withdraw_finish(Origin::Signed(MARKER), ALICE, 200),
        Err(DispatchError::BtcBridge(Error::NoWithdrawAuth))
    );
    assert_eq!(
        m.refund(Origin::Signed(MARKER), ALICE, 200),
        Err(DispatchError::BtcBridge(Error::NoRefundAuth))
    );
}

#[test]
fn withdraw_more_than_held_is_refused() {
    let mut m = bridge();
    assert_eq!(
        m.withdraw(Origin::Signed(ALICE), 1),
        Err(DispatchError::GenericAsset(definex::generic_asset::Error::InsufficientBalance))
    );
    assert_eq!(m.pending_withdraws(&ALICE), Vec::<u128>::new());
}

#[test]
fn key_material_and_pause_are_root_only() {
    let mut m = bridge();
    assert_eq!(m.key_material(), [7u8; 32]);
    assert_eq!(m.set_key_material(Origin::Signed(OPERATOR), [1u8; 32]), Err(DispatchError::BadOrigin));
    assert_eq!(m.set_key_material(Origin::Root, [1u8; 32]), Ok(()));
    assert_eq!(m.key_material(), [1u8; 32]);
    assert_eq!(m.pause(Origin::Signed(OPERATOR)), Err(DispatchError::BadOrigin));
    assert_eq!(m.pause(Origin::Root), Ok(()));
    assert!(m.paused());
    assert_eq!(m.resume(Origin::Root), Ok(()));
    assert!(!m.paused());
}

#[test]
fn getters_answer_defaults() {
    let m = bridge();
    assert_eq!(m.admins(&OPERATOR), Auth::All);
    assert_eq!(m.admins(&MARKER), Auth::Mark);
    assert_eq!(m.admins(&ALICE), Auth::All);
    assert_eq!(m.list(&ALICE), BlackOrWhite::Black);
    assert_eq!(m.threshold(), THRESHOLD);
    assert_eq!(m.asset_id(), SBTC);
    assert_eq!(m.pending_withdraw_vault(), VAULT);
    assert_eq!(m.sub_key_map(ALICE, &b"/a".to_vec()), [0u8; 32]);
}

#[test]
fn derived_keys_depend_on_the_path_and_are_kept() {
    let mut m = bridge();
    assert_eq!(m.get_subkey_from_path(Origin::Signed(ALICE), b"m/a/b".to_vec()), Ok(()));
    assert_eq!(m.get_subkey_from_path(Origin::Signed(ALICE), b"m/a/c".to_vec()), Ok(()));
    let k1 = m.sub_key_map(ALICE, &b"m/a/b".to_vec());
    let k2 = m.sub_key_map(ALICE, &b"m/a/c".to_vec());
    assert_ne!(k1, [0u8; 32]);
    assert_ne!(k1, [7u8; 32]);
    assert_ne!(k1, k2);
    // the first piece of the path is not a component
    assert_eq!(m.get_subkey_from_path(Origin::Signed(BOB), b"x/a/b".to_vec()), Ok(()));
    assert_eq!(m.sub_key_map(BOB, &b"x/a/b".to_vec()), k1);
    // the key matches the outside crate's derivation
    let mut path = hkd32::PathBuf::new();
    path.push(hkd32::Component::new(b"a").unwrap());
    path.push(hkd32::Component::new(b"b").unwrap());
    let expected = hkd32::KeyMaterial::new([7u8; 32]).derive_subkey(path);
    assert_eq!(&k1[..], expected.as_bytes());
    // a stored key is not derived again, even after the material changes
    assert_eq!(m.set_key_material(Origin::Root, [9u8; 32]), Ok(()));
    assert_eq!(m.get_subkey_from_path(Origin::Signed(ALICE), b"m/a/b".to_vec()), Ok(()));
    assert_eq!(m.sub_key_map(ALICE, &b"m/a/b".to_vec()), k1);
}

#[test]
fn error_texts() {
    assert_eq!(Error::RepeatedTransaction.as_str(), "repeated transaction");
    assert_eq!(Error::MissingKeyMaterial.as_str(), "MissingKeyMaterial");
    assert_eq!(Error::NoMarkAuth.as_str(), "no mark auth");
}

#[test]
fn defaults() {
    assert_eq!(BlackOrWhite::default(), BlackOrWhite::Black);
    assert_eq!(Auth::default(), Auth::All);
    assert_eq!(Deposit::default(), Deposit { account_id: 0, tx_hash: None, amount: 0 });
}
