//! The credential operations: add, delete by service, and find the first
//! credential of a service, with the store's status codes turned into
//! [`KeychainError`]s.
use vstd::prelude::*;
use vstd::string::StringExecFns;
use vstd::utf8::decode_utf8;
use vstd::utf8::encode_utf8;
use vstd::utf8::valid_utf8;
use crate::foreign::add_request;
use crate::foreign::create_dictionary;
use crate::foreign::delete_request;
use crate::foreign::find_request;
use crate::foreign::first_for_service;
use crate::foreign::has_credential;
use crate::foreign::lookup;
use crate::foreign::result_entries;
use crate::foreign::status_message;
use crate::foreign::string_from_cf_string;
use crate::foreign::text_from_secret;
use crate::foreign::vec_from_cfdata;
use crate::foreign::without_service;
use crate::foreign::Credential;
use crate::foreign::Key;
use crate::foreign::Keychain;
use crate::foreign::Operand;
use crate::foreign::ValueModel;
use crate::status::code_text;
use crate::status::error_code_of;
use crate::status::KeychainErrorCode;
use crate::status::ERR_SEC_DECODE;
use crate::status::ERR_SEC_DUPLICATE_ITEM;
use crate::status::ERR_SEC_ITEM_NOT_FOUND;
use crate::status::ERR_SEC_SUCCESS;

verus! {

/// A keychain error.
#[derive(Debug, PartialEq, Eq)]
pub struct KeychainError {
    /// The status code of the error.
    ///
    /// Use this code to unambiguously identify the cause of an error.
    pub status: KeychainErrorCode,
    /// A human-readable, non-localized message for the error, as the store
    /// gave it.
    pub message: String,
}

/// An account: a user `name` and a `password`.
#[derive(Debug, PartialEq, Eq)]
pub struct Account {
    pub name: String,
    pub password: String,
}

/// Whether `e` is the error for `status`: its code, and the store's message
/// for it.
pub open spec fn is_error_for(e: KeychainError, status: i32) -> bool {
    e.status == error_code_of(status) && e.message@ == status_message(status)
}

/// The credential that adding `account` under `service` stores: the
/// password is kept as its UTF-8 bytes.
pub open spec fn credential_of(service: Seq<char>, account: Account) -> Credential {
    Credential { service, account: account.name@, secret: encode_utf8(account.password@) }
}

impl KeychainError {
    /// Builds the error for `status`, with the message that the store gives
    /// for it now.
    pub fn from_status(kc: &mut Keychain, status: i32) -> (e: KeychainError)
        ensures
            is_error_for(e, status),
            final(kc).live() == old(kc).live(),
            final(kc).items() == old(kc).items(),
    {
        let cf_message = kc.copy_error_message(status);
        let message = kc.text_of(&cf_message);
        kc.release(cf_message);
        assert(kc.live() =~= old(kc).live());
        KeychainError { status: KeychainErrorCode::from(status), message }
    }
}

impl KeychainError {
    /// The error written out for a log or a user: its message, then its code.
    pub fn describe(&self) -> (r: String)
        ensures
            r@ == "Keychain error: "@ + self.message@ + " (status: "@ + code_text(self.status) + ")"@,
    {
        let mut s = String::from_str("Keychain error: ");
        s.append(self.message.as_str());
        s.append(" (status: ");
        let code = self.status.describe();
        s.append(code.as_str());
        s.append(")");
        s
    }
}

/// Turns a status code into a result: `Ok` on the success code, otherwise
/// the error for that code.
pub fn status_to_result(kc: &mut Keychain, status: i32) -> (r: Result<(), KeychainError>)
    ensures
        status == ERR_SEC_SUCCESS <==> r is Ok,
        r matches Err(e) ==> is_error_for(e, status),
        final(kc).live() == old(kc).live(),
        final(kc).items() == old(kc).items(),
{
    if status == ERR_SEC_SUCCESS {
        Ok(())
    } else {
        Err(KeychainError::from_status(kc, status))
    }
}

proof fn lemma_add_request(service: Seq<char>, account: Seq<char>, secret: Seq<u8>)
    ensures
        add_request(
            seq![
                (Key::Class, ValueModel::GenericPassword),
                (Key::Service, ValueModel::Text(service)),
                (Key::Account, ValueModel::Text(account)),
                (Key::ValueData, ValueModel::Data(secret)),
            ],
        ) == Some(Credential { service, account, secret }),
{
    let e = seq![
        (Key::Class, ValueModel::GenericPassword),
        (Key::Service, ValueModel::Text(service)),
        (Key::Account, ValueModel::Text(account)),
        (Key::ValueData, ValueModel::Data(secret)),
    ];
    assert(e.drop_first() =~= e.subrange(1, 4));
    assert(e.subrange(1, 4).drop_first() =~= e.subrange(2, 4));
    assert(e.subrange(2, 4).drop_first() =~= e.subrange(3, 4));
    reveal_with_fuel(lookup, 5);
}

/// Adds a generic password for `account` under `service`.
///
/// Fails with `DuplicateItem` when a credential for `service` and
/// `account.name` is stored already; the store is then unchanged. Every
/// object created on the way is released on both paths.
pub fn add_generic_password(kc: &mut Keychain, service: &str, account: &Account) -> (r: Result<
    (),
    KeychainError,
>)
    ensures
        final(kc).live() == old(kc).live(),
        if has_credential(old(kc).items(), service@, account.name@) {
            &&& r matches Err(e) && is_error_for(e, ERR_SEC_DUPLICATE_ITEM)
            &&& final(kc).items() == old(kc).items()
        } else {
            &&& r is Ok
            &&& final(kc).items() == old(kc).items().push(credential_of(service@, *account))
        },
{
    let cf_service = kc.create_string(service);
    let cf_account = kc.create_string(account.name.as_str());
    let cf_password = kc.create_data(account.password.as_str().as_bytes());
    let mut items: Vec<(Key, Operand)> = Vec::new();
    items.push((Key::Class, Operand::GenericPassword));
    items.push((Key::Service, Operand::Object(&cf_service)));
    items.push((Key::Account, Operand::Object(&cf_account)));
    items.push((Key::ValueData, Operand::Object(&cf_password)));
    let attributes = create_dictionary(kc, &items);
    proof {
        assert(kc.entries(&attributes) =~= seq![
            (Key::Class, ValueModel::GenericPassword),
            (Key::Service, ValueModel::Text(service@)),
            (Key::Account, ValueModel::Text(account.name@)),
            (Key::ValueData, ValueModel::Data(encode_utf8(account.password@))),
        ]);
        lemma_add_request(service@, account.name@, encode_utf8(account.password@));
    }
    let status = kc.item_add(&attributes);
    kc.release(attributes);
    kc.release(cf_service);
    kc.release(cf_account);
    kc.release(cf_password);
    assert(kc.live() =~= old(kc).live());
    status_to_result(kc, status)
}

proof fn lemma_delete_request(service: Seq<char>)
    ensures
        delete_request(
            seq![(Key::Class, ValueModel::GenericPassword), (Key::Service, ValueModel::Text(service))],
        ) == Some(service),
{
    let e = seq![(Key::Class, ValueModel::GenericPassword), (Key::Service, ValueModel::Text(service))];
    assert(e.drop_first() =~= e.subrange(1, 2));
    reveal_with_fuel(lookup, 3);
}

/// Deletes every generic password stored for `service`.
///
/// Succeeds also where none was stored. Every object created on the way is
/// released.
pub fn delete_generic_passwords_by_service(kc: &mut Keychain, service: &str) -> (r: Result<
    (),
    KeychainError,
>)
    ensures
        final(kc).live() == old(kc).live(),
        r is Ok,
        final(kc).items() == without_service(old(kc).items(), service@),
{
    let cf_service = kc.create_string(service);
    let mut items: Vec<(Key, Operand)> = Vec::new();
    items.push((Key::Class, Operand::GenericPassword));
    items.push((Key::Service, Operand::Object(&cf_service)));
    let query = create_dictionary(kc, &items);
    proof {
        assert(kc.entries(&query) =~= seq![
            (Key::Class, ValueModel::GenericPassword),
            (Key::Service, ValueModel::Text(service@)),
        ]);
        lemma_delete_request(service@);
    }
    let status = kc.item_delete(&query);
    kc.release(query);
    kc.release(cf_service);
    assert(kc.live() =~= old(kc).live());
    status_to_result(kc, status)
}

/// The entries of a query for the first generic password of `service`.
pub open spec fn find_entries(service: Seq<char>) -> Seq<(Key, ValueModel)> {
    seq![
        (Key::Class, ValueModel::GenericPassword),
        (Key::Service, ValueModel::Text(service)),
        (Key::MatchLimit, ValueModel::MatchLimitOne),
        (Key::ReturnAttributes, ValueModel::BooleanTrue),
        (Key::ReturnData, ValueModel::BooleanTrue),
    ]
}

proof fn lemma_find_request(service: Seq<char>)
    ensures
        find_request(find_entries(service)) == Some(service),
{
    let e = find_entries(service);
    assert(e.drop_first() =~= e.subrange(1, 5));
    assert(e.subrange(1, 5).drop_first() =~= e.subrange(2, 5));
    assert(e.subrange(2, 5).drop_first() =~= e.subrange(3, 5));
    assert(e.subrange(3, 5).drop_first() =~= e.subrange(4, 5));
    reveal_with_fuel(lookup, 6);
}

proof fn lemma_result_fields(c: Credential)
    ensures
        lookup(result_entries(c), Key::Account) == Some(ValueModel::Text(c.account)),
        lookup(result_entries(c), Key::ValueData) == Some(ValueModel::Data(c.secret)),
{
    let e = result_entries(c);
    assert(e.drop_first() =~= e.subrange(1, 4));
    assert(e.subrange(1, 4).drop_first() =~= e.subrange(2, 4));
    assert(e.subrange(2, 4).drop_first() =~= e.subrange(3, 4));
    reveal_with_fuel(lookup, 5);
}

/// What finding the first generic password of `service` gives on the stored
/// credentials `items`: the oldest credential stored for `service`, with
/// its secret read as UTF-8 text; `ItemNotFound` where there is none; and
/// the store's decoding error where the secret is not valid UTF-8.
pub open spec fn find_outcome(items: Seq<Credential>, service: Seq<char>, r: Result<Account, KeychainError>) -> bool {
    match first_for_service(items, service) {
        None => r matches Err(e) && is_error_for(e, ERR_SEC_ITEM_NOT_FOUND),
        Some(c) => if valid_utf8(c.secret) {
            r matches Ok(a) && a.name@ == c.account && a.password@ == decode_utf8(c.secret)
        } else {
            r matches Err(e) && is_error_for(e, ERR_SEC_DECODE)
        },
    }
}

/// Finds the first generic password stored for `service`.
///
/// Fails with `ItemNotFound` when none is stored. The store is left as it
/// was, and every object created on the way is released; the fields read out
/// of the store's result are borrowed from it and released with it.
pub fn find_generic_password_by_service(kc: &mut Keychain, service: &str) -> (r: Result<
    Account,
    KeychainError,
>)
    ensures
        final(kc).live() == old(kc).live(),
        final(kc).items() == old(kc).items(),
        find_outcome(old(kc).items(), service@, r),
{
    let cf_service = kc.create_string(service);
    let mut items: Vec<(Key, Operand)> = Vec::new();
    items.push((Key::Class, Operand::GenericPassword));
    items.push((Key::Service, Operand::Object(&cf_service)));
    items.push((Key::MatchLimit, Operand::MatchLimitOne));
    items.push((Key::ReturnAttributes, Operand::BooleanTrue));
    items.push((Key::ReturnData, Operand::BooleanTrue));
    let query = create_dictionary(kc, &items);
    proof {
        assert(kc.entries(&query) =~= find_entries(service@));
        lemma_find_request(service@);
    }
    let (status, result) = kc.item_copy_matching(&query);
    kc.release(cf_service);
    kc.release(query);
    match result {
        None => {
            assert(kc.live() =~= old(kc).live());
            let e = KeychainError::from_status(kc, status);
            Err(e)
        },
        Some(found) => {
            let ghost c = first_for_service(old(kc).items(), service@)->0;
            proof {
                lemma_result_fields(c);
            }
            let name = match kc.get_value(&found, Key::Account) {
                Some(v) => string_from_cf_string(v),
                None => String::new(),
            };
            let secret = match kc.get_value(&found, Key::ValueData) {
                Some(v) => vec_from_cfdata(v),
                None => Vec::new(),
            };
            kc.release(found);
            assert(kc.live() =~= old(kc).live());
            match text_from_secret(secret) {
                Some(password) => Ok(Account { name, password }),
                None => Err(KeychainError::from_status(kc, ERR_SEC_DECODE)),
            }
        },
    }
}

/// The oldest credential of a service, once `c` is stored after `items`.
proof fn lemma_first_after_push(items: Seq<Credential>, c: Credential, service: Seq<char>)
    ensures
        first_for_service(items.push(c), service) == match first_for_service(items, service) {
            Some(x) => Some(x),
            None => if c.service == service {
                Some(c)
            } else {
                None
            },
        },
    decreases items.len(),
{
    if items.len() > 0 {
        assert(items.push(c).drop_first() =~= items.drop_first().push(c));
        assert(items.push(c)[0] == items[0]);
        lemma_first_after_push(items.drop_first(), c, service);
    } else {
        assert(items.push(c).drop_first() =~= Seq::<Credential>::empty());
        reveal_with_fuel(first_for_service, 2);
    }
}

/// A service has no first credential exactly when no credential is stored
/// for it.
proof fn lemma_first_none(items: Seq<Credential>, service: Seq<char>)
    ensures
        first_for_service(items, service) is None <==> forall|i: int|
            0 <= i < items.len() ==> (#[trigger] items[i]).service != service,
    decreases items.len(),
{
    if items.len() > 0 {
        lemma_first_none(items.drop_first(), service);
        assert forall|i: int| 0 < i < items.len() implies #[trigger] items[i] == items.drop_first()[i - 1] by {}
        if first_for_service(items, service) is None {
            assert forall|i: int| 0 <= i < items.len() implies (#[trigger] items[i]).service != service by {
                if i > 0 {
                    assert(items[i] == items.drop_first()[i - 1]);
                }
            }
        }
    }
}

/// After a delete by `service` nothing is stored for that service.
pub proof fn lemma_nothing_left_after_delete(items: Seq<Credential>, service: Seq<char>)
    ensures
        first_for_service(without_service(items, service), service) is None,
        forall|r: Result<Account, KeychainError>|
            find_outcome(without_service(items, service), service, r) ==> (r matches Err(e)
                && e.status == KeychainErrorCode::ItemNotFound),
{
    let rest = without_service(items, service);
    broadcast use vstd::seq_lib::group_filter_ensures;

    assert forall|i: int| 0 <= i < rest.len() implies (#[trigger] rest[i]).service != service by {}
    lemma_first_none(rest, service);
}

/// Round trip: adding `account` under a service that holds no credential
/// succeeds, finding the first credential of that service then gives back
/// an account equal to the one added, and after a delete by that service
/// the find reports `ItemNotFound`.
pub proof fn lemma_round_trip(items: Seq<Credential>, service: Seq<char>, account: Account)
    requires
        first_for_service(items, service) is None,
    ensures
        !has_credential(items, service, account.name@),
        forall|r: Result<Account, KeychainError>|
            find_outcome(items.push(credential_of(service, account)), service, r) ==> (r matches Ok(
                a,
            ) && a.name@ == account.name@ && a.password@ == account.password@),
        forall|r: Result<Account, KeychainError>|
            find_outcome(
                without_service(items.push(credential_of(service, account)), service),
                service,
                r,
            ) ==> (r matches Err(e) && e.status == KeychainErrorCode::ItemNotFound),
{
    broadcast use vstd::utf8::encode_utf8_valid_utf8, vstd::utf8::encode_utf8_decode_utf8;

    let c = credential_of(service, account);
    lemma_first_none(items, service);
    lemma_first_after_push(items, c, service);
    lemma_nothing_left_after_delete(items.push(c), service);
}

/// Adding a second account with the same service and name as a stored one is
/// refused as a duplicate (so the stored one stays as it was).
pub proof fn lemma_duplicate_rejected(items: Seq<Credential>, service: Seq<char>, first: Account, second: Account)
    requires
        first.name@ == second.name@,
    ensures
        has_credential(items.push(credential_of(service, first)), service, second.name@),
{
    let added = items.push(credential_of(service, first));
    assert(added[items.len() as int] == credential_of(service, first));
}

/// Deleting by a service removes every credential stored for it, both of two
/// accounts added under it among them; a find for it then reports
/// `ItemNotFound`.
pub proof fn lemma_bulk_delete(items: Seq<Credential>, service: Seq<char>, first: Account, second: Account)
    ensures
        without_service(
            items.push(credential_of(service, first)).push(credential_of(service, second)),
            service,
        ) == without_service(items, service),
        forall|r: Result<Account, KeychainError>|
            find_outcome(
                without_service(
                    items.push(credential_of(service, first)).push(credential_of(service, second)),
                    service,
                ),
                service,
                r,
            ) ==> (r matches Err(e) && e.status == KeychainErrorCode::ItemNotFound),
{
    let one = items.push(credential_of(service, first));
    let two = one.push(credential_of(service, second));
    reveal(Seq::filter);
    assert(two.drop_last() =~= one);
    assert(one.drop_last() =~= items);
    assert(without_service(two, service) == without_service(one, service));
    assert(without_service(one, service) == without_service(items, service));
    lemma_nothing_left_after_delete(two, service);
}

/// A find for a service under which nothing was ever stored reports
/// `ItemNotFound`.
pub proof fn lemma_not_found_when_absent(items: Seq<Credential>, service: Seq<char>)
    requires
        forall|i: int| 0 <= i < items.len() ==> (#[trigger] items[i]).service != service,
    ensures
        forall|r: Result<Account, KeychainError>|
            find_outcome(items, service, r) ==> (r matches Err(e) && e.status
                == KeychainErrorCode::ItemNotFound),
{
    lemma_first_none(items, service);
}

} // verus!
