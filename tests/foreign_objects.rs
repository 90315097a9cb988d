use keychain::foreign::create_dictionary;
use keychain::foreign::string_from_cf_string;
use keychain::foreign::text_from_secret;
use keychain::foreign::vec_from_cfdata;
use keychain::foreign::Key;
use keychain::foreign::Keychain;
use keychain::foreign::Operand;
use keychain::foreign::Value;

#[test]
fn string_value_converts_to_owned_text() {
    let v = Value::Text("héllo".to_string());
    assert_eq!(string_from_cf_string(&v), "héllo");
    assert_eq!(string_from_cf_string(&Value::Text(String::new())), "");
}

#[test]
fn data_value_copies_bytes() {
    let v = Value::Data(vec![0, 1, 255]);
    assert_eq!(vec_from_cfdata(&v), vec![0, 1, 255]);
    assert_eq!(vec_from_cfdata(&Value::Data(Vec::new())), Vec::<u8>::new());
}

#[test]
fn dictionary_holds_its_own_copies() {
    let mut kc = Keychain::new();
    let s = kc.create_string("svc");
    let d = kc.create_data(b"pw");
    let pairs = vec![
        (Key::Class, Operand::GenericPassword),
        (Key::Service, Operand::Object(&s)),
        (Key::ValueData, Operand::Object(&d)),
        (Key::MatchLimit, Operand::MatchLimitOne),
    ];
    let dict = create_dictionary(&mut kc, &pairs);
    kc.release(s);
    kc.release(d);
    match kc.get_value(&dict, Key::Service) {
        Some(v) => assert_eq!(string_from_cf_string(v), "svc"),
        None => panic!("service missing"),
    }
    match kc.get_value(&dict, Key::ValueData) {
        Some(v) => assert_eq!(vec_from_cfdata(v), b"pw".to_vec()),
        None => panic!("data missing"),
    }
    assert!(matches!(kc.get_value(&dict, Key::MatchLimit), Some(Value::MatchLimitOne)));
    assert!(kc.get_value(&dict, Key::Account).is_none());
    kc.release(dict);
    assert_eq!(kc.live_count(), 0);
}

#[test]
fn first_entry_wins_for_repeated_key() {
    let mut kc = Keychain::new();
    let a = kc.create_string("first");
    let b = kc.create_string("second");
    let pairs = vec![(Key::Service, Operand::Object(&a)), (Key::Service, Operand::Object(&b))];
    let dict = create_dictionary(&mut kc, &pairs);
    match kc.get_value(&dict, Key::Service) {
        Some(v) => assert_eq!(string_from_cf_string(v), "first"),
        None => panic!("service missing"),
    }
}

#[test]
fn malformed_requests_give_parameter_error() {
    let mut kc = Keychain::new();
    let s = kc.create_string("svc");
    let pairs = vec![(Key::Service, Operand::Object(&s))];
    let dict = create_dictionary(&mut kc, &pairs);
    assert_eq!(kc.item_add(&dict), -50);
    assert_eq!(kc.item_delete(&dict), -50);
    let (status, result) = kc.item_copy_matching(&dict);
    assert_eq!(status, -50);
    assert!(result.is_none());
}

#[test]
fn error_message_object_holds_store_text() {
    let mut kc = Keychain::new();
    let h = kc.copy_error_message(-25293);
    assert_eq!(kc.text_of(&h), "The user name or passphrase you entered is not correct.");
    kc.release(h);
    let h = kc.copy_error_message(12345);
    assert_eq!(kc.text_of(&h), "An unknown status code was returned.");
    kc.release(h);
}

#[test]
fn secret_decodes_only_valid_utf8() {
    assert_eq!(text_from_secret("päss".as_bytes().to_vec()), Some("päss".to_string()));
    assert_eq!(text_from_secret(Vec::new()), Some(String::new()));
    assert_eq!(text_from_secret(vec![0xc3]), None);
}
