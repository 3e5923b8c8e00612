use definex::new_oracle::{
    select_price_field, source_index, source_index_from_seed, validate_unsigned, vecchars_to_vecbytes, Call, Error,
    GenesisConfig, InvalidTransaction, JsonValue, Module, NumberValue, PriceSource, KEY_TYPE,
};
use definex::dispatch::{DispatchError, Origin};

fn num(integer: i64) -> JsonValue {
    JsonValue::Number(NumberValue { integer, fraction: 0, fraction_length: 0, exponent: 0 })
}

fn chars(s: &str) -> Vec<char> {
    s.chars().collect()
}

fn answer() -> JsonValue {
    JsonValue::Object(vec![
        (chars("status"), JsonValue::String(chars("ok"))),
        (chars("data"), JsonValue::Object(vec![(chars("price"), num(7)), (chars("price"), num(8))])),
    ])
}

#[test]
fn path_leads_to_the_first_matching_member() {
    let json = answer();
    let path = vec![b"data".to_vec(), b"price".to_vec()];
    match select_price_field(&json, &path) {
        Ok(JsonValue::Number(n)) => assert_eq!(n.integer, 7),
        other => panic!("unexpected {:?}", other),
    }
}

#[test]
fn empty_path_gives_the_whole_answer() {
    let json = num(3);
    match select_price_field(&json, &vec![]) {
        Ok(JsonValue::Number(n)) => assert_eq!(n.integer, 3),
        other => panic!("unexpected {:?}", other),
    }
}

#[test]
fn missing_member_and_non_object_are_errors() {
    let json = answer();
    assert_eq!(select_price_field(&json, &vec![b"nope".to_vec()]).err(), Some(Error::FieldMissing));
    assert_eq!(select_price_field(&json, &vec![b"status".to_vec(), b"x".to_vec()]).err(), Some(Error::NotAnObject));
    assert_eq!(Error::FieldMissing.as_str(), "fetch_price: JSON does not conform to expectation");
}

#[test]
fn chars_are_cut_to_their_low_byte() {
    assert_eq!(vecchars_to_vecbytes(&chars("abc")), b"abc".to_vec());
    assert_eq!(vecchars_to_vecbytes(&vec!['\u{141}']), vec![0x41u8]);
}

#[test]
fn unsigned_price_reports_are_valid_for_three_blocks() {
    let v = validate_unsigned(&Call::stack_price_unsigned(5, 10000)).unwrap();
    assert_eq!(v.priority, 0);
    assert_eq!(v.longevity, 3);
    assert!(v.propagate);
    assert!(v.requires.is_empty());
    assert_eq!(v.provides, vec![vec![5, 0, 0, 0, 16, 39, 0, 0, 0, 0, 0, 0]]);
    assert_eq!(validate_unsigned(&Call::stack_price_signed(5, 1)), Err(InvalidTransaction::Call));
}

#[test]
fn source_choice_is_the_random_value_modulo_the_count() {
    assert_eq!(source_index(10, 3), 1);
    assert_eq!(source_index(u64::MAX, 1), 0);
    let seed = vec![1u8, 2, 3];
    assert!(source_index_from_seed(&seed, 4) < 4);
    let hash = sp_io::hashing::twox_64(&seed);
    assert_eq!(source_index_from_seed(&seed, 7), (u64::from_ne_bytes(hash) % 7) as usize);
}

#[test]
fn reports_stack_up_only_when_unsigned() {
    let mut m = Module::new();
    assert_eq!(m.stack_price_unsigned(Origin::Unsigned, 1, 42), Ok(()));
    assert_eq!(m.stack_price_unsigned(Origin::Signed(1), 1, 43), Err(DispatchError::BadOrigin));
    assert_eq!(m.stack_price_signed(Origin::Signed(1), 1, 44), Ok(()));
    assert_eq!(m.stack_price_signed(Origin::Unsigned, 1, 44), Err(DispatchError::BadOrigin));
    assert_eq!(m.price_candidates, vec![42]);
}

#[test]
fn genesis_lists_the_sources() {
    let source = PriceSource { name: b"coin".to_vec(), url: b"https://x".to_vec(), json_path: vec![b"price".to_vec()] };
    let config = GenesisConfig { crypto_price_sources: vec![(b"BTC".to_vec(), vec![source])] };
    let m = config.build();
    let sources = m.crypto_price_sources(&b"BTC".to_vec()).unwrap();
    assert_eq!(sources.len(), 1);
    assert_eq!(sources[0].url, b"https://x".to_vec());
    assert!(m.crypto_price_sources(&b"ETH".to_vec()).is_none());
    assert_eq!(&KEY_TYPE, b"orcl");
}

#[test]
fn token_prices() {
    let mut m = Module::new();
    assert!(!m.is_token_known(&b"BTC".to_vec()));
    assert_eq!(m.current_price(&b"BTC".to_vec()), 0);
    m.set_token_price(b"BTC".to_vec(), 5);
    assert_eq!(m.current_price(&b"BTC".to_vec()), 5);
}
