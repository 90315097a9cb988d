use keychain::foreign::Keychain;
use keychain::keychain::status_to_result;
use keychain::keychain::KeychainError;
use keychain::status::KeychainErrorCode;

#[test]
fn known_codes_map_to_their_variants() {
    assert_eq!(KeychainErrorCode::from(-25293), KeychainErrorCode::AuthFailed);
    assert_eq!(KeychainErrorCode::from(-25299), KeychainErrorCode::DuplicateItem);
    assert_eq!(KeychainErrorCode::from(-25300), KeychainErrorCode::ItemNotFound);
    assert_eq!(KeychainErrorCode::from(-25244), KeychainErrorCode::InvalidOwnerEdit);
}

#[test]
fn unknown_codes_are_carried_unchanged() {
    assert_eq!(KeychainErrorCode::from(-50), KeychainErrorCode::UnknownStatusCode(-50));
    assert_eq!(KeychainErrorCode::from(i32::MIN), KeychainErrorCode::UnknownStatusCode(i32::MIN));
    assert_eq!(KeychainErrorCode::from(i32::MAX), KeychainErrorCode::UnknownStatusCode(i32::MAX));
}

#[test]
fn raw_status_inverts_mapping() {
    for s in [-25293, -25299, -25300, -25244, -50, 7, 0] {
        assert_eq!(KeychainErrorCode::from(s).raw_status(), s);
    }
}

#[test]
fn success_status_is_ok() {
    let mut kc = Keychain::new();
    assert_eq!(status_to_result(&mut kc, 0), Ok(()));
    assert_eq!(kc.live_count(), 0);
}

#[test]
fn failure_status_carries_code_and_message() {
    let mut kc = Keychain::new();
    let err = status_to_result(&mut kc, -25244).unwrap_err();
    assert_eq!(err.status, KeychainErrorCode::InvalidOwnerEdit);
    assert_eq!(err.message, "Invalid attempt to change the owner of this item.");
    let e = KeychainError::from_status(&mut kc, -1);
    assert_eq!(e.status, KeychainErrorCode::UnknownStatusCode(-1));
    assert_eq!(e.message, "An unknown status code was returned.");
    assert_eq!(kc.live_count(), 0);
}

#[test]
fn code_describes_like_its_debug_form() {
    for s in [-25293, -25299, -25300, -25244, -50, 0, 1234567, i32::MIN, i32::MAX, 9, 10] {
        let code = KeychainErrorCode::from(s);
        assert_eq!(code.describe(), format!("{:?}", code));
    }
    assert_eq!(KeychainErrorCode::UnknownStatusCode(-50).describe(), "UnknownStatusCode(-50)");
}

#[test]
fn error_describes_message_and_code() {
    let mut kc = Keychain::new();
    let e = KeychainError::from_status(&mut kc, -25300);
    assert_eq!(
        e.describe(),
        "Keychain error: The specified item could not be found in the keychain. (status: ItemNotFound)"
    );
}
