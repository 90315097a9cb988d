use keychain::foreign::create_dictionary;
use keychain::foreign::Key;
use keychain::foreign::Keychain;
use keychain::foreign::Operand;
use keychain::keychain::add_generic_password;
use keychain::keychain::delete_generic_passwords_by_service;
use keychain::keychain::find_generic_password_by_service;
use keychain::keychain::Account;
use keychain::status::KeychainErrorCode;

fn account(name: &str, password: &str) -> Account {
    Account { name: name.to_string(), password: password.to_string() }
}

#[test]
fn example_sequence() {
    let mut kc = Keychain::new();
    assert_eq!(add_generic_password(&mut kc, "svc", &account("u", "p")), Ok(()));
    let dup = add_generic_password(&mut kc, "svc", &account("u", "p2")).unwrap_err();
    assert_eq!(dup.status, KeychainErrorCode::DuplicateItem);
    assert_eq!(find_generic_password_by_service(&mut kc, "svc"), Ok(account("u", "p")));
    assert_eq!(delete_generic_passwords_by_service(&mut kc, "svc"), Ok(()));
    let gone = find_generic_password_by_service(&mut kc, "svc").unwrap_err();
    assert_eq!(gone.status, KeychainErrorCode::ItemNotFound);
}

#[test]
fn round_trip_returns_added_account() {
    let mut kc = Keychain::new();
    let a = account("foo", "very safe password");
    assert!(add_generic_password(&mut kc, "fancy-service", &a).is_ok());
    let found = find_generic_password_by_service(&mut kc, "fancy-service").unwrap();
    assert_eq!(found, a);
    assert!(delete_generic_passwords_by_service(&mut kc, "fancy-service").is_ok());
    let err = find_generic_password_by_service(&mut kc, "fancy-service").unwrap_err();
    assert_eq!(err.status, KeychainErrorCode::ItemNotFound);
}

#[test]
fn round_trip_keeps_non_ascii_text() {
    let mut kc = Keychain::new();
    let a = account("ünïcødé", "pässwörd ✓");
    assert!(add_generic_password(&mut kc, "sérvice", &a).is_ok());
    assert_eq!(find_generic_password_by_service(&mut kc, "sérvice"), Ok(a));
}

#[test]
fn duplicate_keeps_first_entry() {
    let mut kc = Keychain::new();
    assert!(add_generic_password(&mut kc, "svc", &account("u", "first")).is_ok());
    let err = add_generic_password(&mut kc, "svc", &account("u", "second")).unwrap_err();
    assert_eq!(err.status, KeychainErrorCode::DuplicateItem);
    assert_eq!(err.message, "The specified item already exists in the keychain.");
    assert_eq!(find_generic_password_by_service(&mut kc, "svc"), Ok(account("u", "first")));
}

#[test]
fn same_name_under_other_service_is_no_duplicate() {
    let mut kc = Keychain::new();
    assert!(add_generic_password(&mut kc, "one", &account("u", "a")).is_ok());
    assert!(add_generic_password(&mut kc, "two", &account("u", "b")).is_ok());
    assert_eq!(find_generic_password_by_service(&mut kc, "two"), Ok(account("u", "b")));
}

#[test]
fn bulk_delete_removes_every_account_of_service() {
    let mut kc = Keychain::new();
    assert!(add_generic_password(&mut kc, "svc", &account("a", "1")).is_ok());
    assert!(add_generic_password(&mut kc, "svc", &account("b", "2")).is_ok());
    assert!(add_generic_password(&mut kc, "other", &account("c", "3")).is_ok());
    assert_eq!(find_generic_password_by_service(&mut kc, "svc"), Ok(account("a", "1")));
    assert!(delete_generic_passwords_by_service(&mut kc, "svc").is_ok());
    let err = find_generic_password_by_service(&mut kc, "svc").unwrap_err();
    assert_eq!(err.status, KeychainErrorCode::ItemNotFound);
    assert_eq!(find_generic_password_by_service(&mut kc, "other"), Ok(account("c", "3")));
}

#[test]
fn delete_of_unknown_service_succeeds() {
    let mut kc = Keychain::new();
    assert_eq!(delete_generic_passwords_by_service(&mut kc, "nothing-here"), Ok(()));
}

#[test]
fn not_found_on_empty_store() {
    let mut kc = Keychain::new();
    let err = find_generic_password_by_service(&mut kc, "never-used-service-xyz").unwrap_err();
    assert_eq!(err.status, KeychainErrorCode::ItemNotFound);
    assert_eq!(err.message, "The specified item could not be found in the keychain.");
}

#[test]
fn no_object_outlives_an_operation() {
    let mut kc = Keychain::new();
    assert_eq!(kc.live_count(), 0);
    assert!(add_generic_password(&mut kc, "svc", &account("u", "p")).is_ok());
    assert_eq!(kc.live_count(), 0);
    assert!(add_generic_password(&mut kc, "svc", &account("u", "p")).is_err());
    assert_eq!(kc.live_count(), 0);
    assert!(find_generic_password_by_service(&mut kc, "svc").is_ok());
    assert_eq!(kc.live_count(), 0);
    assert!(find_generic_password_by_service(&mut kc, "missing").is_err());
    assert_eq!(kc.live_count(), 0);
    assert!(delete_generic_passwords_by_service(&mut kc, "svc").is_ok());
    assert_eq!(kc.live_count(), 0);
}

#[test]
fn live_count_tracks_create_and_release() {
    let mut kc = Keychain::new();
    let s = kc.create_string("x");
    let d = kc.create_data(&[1, 2, 3]);
    assert_eq!(kc.live_count(), 2);
    kc.release(s);
    assert_eq!(kc.live_count(), 1);
    kc.release(d);
    assert_eq!(kc.live_count(), 0);
}

#[test]
fn undecodable_secret_reports_decode_error() {
    let mut kc = Keychain::new();
    let service = kc.create_string("svc");
    let name = kc.create_string("u");
    let secret = kc.create_data(&[0xff, 0xfe]);
    let pairs = vec![
        (Key::Class, Operand::GenericPassword),
        (Key::Service, Operand::Object(&service)),
        (Key::Account, Operand::Object(&name)),
        (Key::ValueData, Operand::Object(&secret)),
    ];
    let attrs = create_dictionary(&mut kc, &pairs);
    assert_eq!(kc.item_add(&attrs), 0);
    kc.release(attrs);
    kc.release(service);
    kc.release(name);
    kc.release(secret);
    let err = find_generic_password_by_service(&mut kc, "svc").unwrap_err();
    assert_eq!(err.status, KeychainErrorCode::UnknownStatusCode(-26275));
    assert_eq!(err.message, "Unable to decode the provided data.");
    assert_eq!(kc.live_count(), 0);
}
