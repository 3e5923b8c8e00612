use definex::dispatch::{DispatchError, Origin};
use definex::generic_asset::{GenesisConfig, Owner, PermissionVersions, PermissionsV1};
use definex::generic_asset_rpc::symbols_list;
use definex::hashing::generic_asset_lock_identifier;
use definex::permission_codec::{decode_permissions, encode_permissions, CodecError};

const ROOT: u64 = 1;
const ALICE: u64 = 2;

#[test]
fn lock_identifier_is_the_xx_hash_of_the_encoded_id() {
    let a = generic_asset_lock_identifier(&0);
    let b = generic_asset_lock_identifier(&1);
    assert_ne!(a, b);
    assert_eq!(a, sp_io::hashing::twox_64(&[0u8, 0, 0, 0]));
    assert_eq!(b, sp_io::hashing::twox_64(&1u32.to_le_bytes()));
}

#[test]
fn permissions_encode_as_the_codec_would() {
    let p = PermissionVersions::V1(PermissionsV1 { update: Owner::Address(ALICE), mint: Owner::Nobody, burn: Owner::Address(258) });
    let bytes = encode_permissions(&p);
    let mut expected = vec![0u8, 1];
    expected.extend_from_slice(&parity_scale_codec::Encode::encode(&ALICE));
    expected.push(0);
    expected.push(1);
    expected.extend_from_slice(&parity_scale_codec::Encode::encode(&258u64));
    assert_eq!(bytes, expected);
    assert_eq!(decode_permissions(&bytes), Ok(p));
    let mut longer = bytes.clone();
    longer.push(9);
    assert_eq!(decode_permissions(&longer), Ok(p));
}

#[test]
fn bad_permission_bytes_are_refused() {
    assert_eq!(decode_permissions(&[]), Err(CodecError::NotEnoughData));
    assert_eq!(decode_permissions(&[1, 0, 0, 0]), Err(CodecError::UnknownVersion));
    assert_eq!(decode_permissions(&[0, 0, 2, 0]), Err(CodecError::UnknownOwner));
    assert_eq!(decode_permissions(&[0, 1, 5, 0, 0]), Err(CodecError::NotEnoughData));
    assert_eq!(decode_permissions(&[0, 0, 0]), Err(CodecError::NotEnoughData));
}

#[test]
fn ledger_genesis_issues_endows_and_creates_symbols() {
    let config = GenesisConfig {
        assets: vec![0, 1],
        initial_balance: 10,
        endowed_accounts: vec![ALICE, 3],
        next_asset_id: 5,
        symbols: vec![(2, b"DUSD".to_vec()), (3, b"BTC".to_vec())],
    };
    let m = config.build(ROOT);
    assert_eq!(m.total_issuance(&0), 20);
    assert_eq!(m.free_balance(&1, &ALICE), 10);
    assert_eq!(m.total_issuance(&2), 0);
    assert!(m.asset_id_exists(3));
    assert_eq!(m.symbols(&2), b"DUSD".to_vec());
    assert!(m.check_permission(&3, &ROOT, &definex::generic_asset::PermissionType::Mint));
    assert_eq!(m.next_asset_id, 5);
}

#[test]
fn assets_module_creates_mints_and_burns_as_the_superuser() {
    let ga = definex::generic_asset::Module::new(ROOT);
    let mut m = definex::assets::Module::new(ga);
    assert_eq!(m.create(Origin::Signed(ALICE), 10, b"X".to_vec()), Err(DispatchError::BadOrigin));
    assert_eq!(m.create(Origin::Root, 10, b"X".to_vec()), Ok(()));
    assert!(m.asset_exists(&0));
    assert_eq!(m.get_current_asset_id(), 1);
    assert_eq!(m.mint::<(), ()>(Origin::Root, 0, ALICE, 5), Ok(()));
    assert_eq!(m.free_balance(&0, &ALICE), 5);
    assert_eq!(m.burn::<(), ()>(Origin::Root, 0, ALICE, 2), Ok(()));
    assert_eq!(m.free_balance(&0, &ALICE), 3);
    assert_eq!(m.transfer::<(), ()>(Origin::Signed(ALICE), 0, ROOT, 3), Ok(()));
    assert_eq!(m.free_balance(&0, &ROOT), 13);
    assert_eq!(m.mint::<(), ()>(Origin::Signed(ALICE), 0, ALICE, 5), Err(DispatchError::BadOrigin));
}

#[test]
fn assets_mint_stops_where_the_hook_refuses() {
    let ga = definex::generic_asset::Module::new(ROOT);
    let mut m = definex::assets::Module::new(ga);
    assert_eq!(m.create(Origin::Root, 0, b"X".to_vec()), Ok(()));
    let refused = Err(DispatchError::BadOrigin);
    assert_eq!(m.mint_after_hook(0, ALICE, 5, refused), refused);
    assert_eq!(m.free_balance(&0, &ALICE), 0);
    assert_eq!(m.mint_after_hook(0, ALICE, 5, Ok(())), Ok(()));
    assert_eq!(m.free_balance(&0, &ALICE), 5);
}

#[test]
fn rpc_lists_symbols_decoded_as_utf8() {
    let listed = symbols_list(Some(vec![(0, b"BTC".to_vec()), (1, vec![0xe2, 0x82, 0xac])])).unwrap();
    assert_eq!(listed, vec![(0, "BTC".to_string()), (1, "\u{20ac}".to_string())]);
    let missing = symbols_list(None).err().unwrap();
    assert_eq!(missing.message, "no assets found");
}

#[test]
fn assets_genesis_creates_the_listed_assets() {
    let mut ga = definex::generic_asset::Module::new(ROOT);
    ga.next_asset_id = 10;
    let config = definex::assets::GenesisConfig { symbols: vec![(1, b"DUSD".to_vec()), (2, b"BTC".to_vec())] };
    let m = config.build(ga);
    assert!(m.asset_exists(&1));
    assert!(m.asset_exists(&2));
    assert!(!m.asset_exists(&3));
    assert_eq!(m.generic_asset.total_issuance(&2), 0);
    assert!(m.generic_asset.check_permission(&1, &ROOT, &definex::generic_asset::PermissionType::Mint));
    assert_eq!(m.get_current_asset_id(), 10);
}
