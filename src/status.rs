//! Store status codes and how they map onto [`KeychainErrorCode`].
use vstd::prelude::*;
use vstd::string::StringExecFns;

verus! {

/// The store's single success code.
pub const ERR_SEC_SUCCESS: i32 = 0;

/// One or more parameters passed to the store were not valid.
pub const ERR_SEC_PARAM: i32 = -50;

/// Authorization and/or authentication failed.
pub const ERR_SEC_AUTH_FAILED: i32 = -25293;

/// The item already exists.
pub const ERR_SEC_DUPLICATE_ITEM: i32 = -25299;

/// The item cannot be found.
pub const ERR_SEC_ITEM_NOT_FOUND: i32 = -25300;

/// An invalid attempt to change the owner of an item.
pub const ERR_SEC_INVALID_OWNER_EDIT: i32 = -25244;

/// The stored data could not be decoded.
pub const ERR_SEC_DECODE: i32 = -26275;

/// A keychain error code.
#[derive(PartialEq, Eq, Structural, Debug, Clone, Copy)]
pub enum KeychainErrorCode {
    /// Authorization and/or authentication failed.
    AuthFailed,
    /// The item already exists.
    DuplicateItem,
    /// The item cannot be found.
    ItemNotFound,
    /// An invalid attempt to change the owner of an item.
    InvalidOwnerEdit,
    /// Any other status code, carried unchanged.
    UnknownStatusCode(i32),
}

/// The variant that a raw status code maps to.
pub open spec fn error_code_of(status: i32) -> KeychainErrorCode {
    if status == ERR_SEC_AUTH_FAILED {
        KeychainErrorCode::AuthFailed
    } else if status == ERR_SEC_DUPLICATE_ITEM {
        KeychainErrorCode::DuplicateItem
    } else if status == ERR_SEC_ITEM_NOT_FOUND {
        KeychainErrorCode::ItemNotFound
    } else if status == ERR_SEC_INVALID_OWNER_EDIT {
        KeychainErrorCode::InvalidOwnerEdit
    } else {
        KeychainErrorCode::UnknownStatusCode(status)
    }
}

/// Whether `status` is one of the codes that has a variant of its own.
pub open spec fn is_known_status(status: i32) -> bool {
    status == ERR_SEC_AUTH_FAILED || status == ERR_SEC_DUPLICATE_ITEM
        || status == ERR_SEC_ITEM_NOT_FOUND || status == ERR_SEC_INVALID_OWNER_EDIT
}

/// The raw status code that a variant stands for.
pub open spec fn raw_status_of(code: KeychainErrorCode) -> i32 {
    match code {
        KeychainErrorCode::AuthFailed => ERR_SEC_AUTH_FAILED,
        KeychainErrorCode::DuplicateItem => ERR_SEC_DUPLICATE_ITEM,
        KeychainErrorCode::ItemNotFound => ERR_SEC_ITEM_NOT_FOUND,
        KeychainErrorCode::InvalidOwnerEdit => ERR_SEC_INVALID_OWNER_EDIT,
        KeychainErrorCode::UnknownStatusCode(s) => s,
    }
}

impl KeychainErrorCode {
    /// The raw status code this variant stands for.
    pub fn raw_status(&self) -> (r: i32)
        ensures
            r == raw_status_of(*self),
    {
        match self {
            KeychainErrorCode::AuthFailed => ERR_SEC_AUTH_FAILED,
            KeychainErrorCode::DuplicateItem => ERR_SEC_DUPLICATE_ITEM,
            KeychainErrorCode::ItemNotFound => ERR_SEC_ITEM_NOT_FOUND,
            KeychainErrorCode::InvalidOwnerEdit => ERR_SEC_INVALID_OWNER_EDIT,
            KeychainErrorCode::UnknownStatusCode(s) => *s,
        }
    }
}

impl From<i32> for KeychainErrorCode {
    fn from(status: i32) -> (r: KeychainErrorCode) {
        if status == ERR_SEC_AUTH_FAILED {
            KeychainErrorCode::AuthFailed
        } else if status == ERR_SEC_DUPLICATE_ITEM {
            KeychainErrorCode::DuplicateItem
        } else if status == ERR_SEC_ITEM_NOT_FOUND {
            KeychainErrorCode::ItemNotFound
        } else if status == ERR_SEC_INVALID_OWNER_EDIT {
            KeychainErrorCode::InvalidOwnerEdit
        } else {
            KeychainErrorCode::UnknownStatusCode(status)
        }
    }
}

impl vstd::std_specs::convert::FromSpecImpl<i32> for KeychainErrorCode {
    open spec fn obeys_from_spec() -> bool {
        true
    }

    open spec fn from_spec(v: i32) -> KeychainErrorCode {
        error_code_of(v)
    }
}

/// The mapping of status codes is total and loses nothing: every code
/// maps to exactly one variant, the variant gives the code back, two codes
/// never share a variant, and a code outside the known set maps to
/// `UnknownStatusCode` carrying that very code.
pub proof fn lemma_status_mapping_total(status: i32, other: i32)
    ensures
        raw_status_of(error_code_of(status)) == status,
        error_code_of(status) == error_code_of(other) ==> status == other,
        !is_known_status(status) <==> error_code_of(status)
            == KeychainErrorCode::UnknownStatusCode(status),
        is_known_status(status) ==> !(error_code_of(status) is UnknownStatusCode),
{
}

/// The decimal digits of `n`, most significant first.
pub open spec fn digits(n: nat) -> Seq<char>
    decreases n,
{
    if n < 10 {
        seq![digit_char(n)]
    } else {
        digits(n / 10).push(digit_char(n % 10))
    }
}

/// The character of a decimal digit.
pub open spec fn digit_char(d: nat) -> char {
    if d == 0 { '0' }
    else if d == 1 { '1' }
    else if d == 2 { '2' }
    else if d == 3 { '3' }
    else if d == 4 { '4' }
    else if d == 5 { '5' }
    else if d == 6 { '6' }
    else if d == 7 { '7' }
    else if d == 8 { '8' }
    else { '9' }
}

/// `v` written in decimal, with a leading `-` when negative.
pub open spec fn decimal_text(v: int) -> Seq<char> {
    if v < 0 {
        seq!['-'] + digits((-v) as nat)
    } else {
        digits(v as nat)
    }
}

/// The name of a variant as it is printed, with the raw code in
/// parentheses for an unknown one.
pub open spec fn code_text(code: KeychainErrorCode) -> Seq<char> {
    match code {
        KeychainErrorCode::AuthFailed => "AuthFailed"@,
        KeychainErrorCode::DuplicateItem => "DuplicateItem"@,
        KeychainErrorCode::ItemNotFound => "ItemNotFound"@,
        KeychainErrorCode::InvalidOwnerEdit => "InvalidOwnerEdit"@,
        KeychainErrorCode::UnknownStatusCode(s) => "UnknownStatusCode("@ + decimal_text(s as int) + ")"@,
    }
}

fn digit_str(d: u64) -> (r: &'static str)
    requires
        d < 10,
    ensures
        r@ == seq![digit_char(d as nat)],
{
    proof {
        reveal_strlit("0");
        reveal_strlit("1");
        reveal_strlit("2");
        reveal_strlit("3");
        reveal_strlit("4");
        reveal_strlit("5");
        reveal_strlit("6");
        reveal_strlit("7");
        reveal_strlit("8");
        reveal_strlit("9");
    }
    if d == 0 { "0" }
    else if d == 1 { "1" }
    else if d == 2 { "2" }
    else if d == 3 { "3" }
    else if d == 4 { "4" }
    else if d == 5 { "5" }
    else if d == 6 { "6" }
    else if d == 7 { "7" }
    else if d == 8 { "8" }
    else { "9" }
}

fn append_digits(s: &mut String, n: u64)
    ensures
        final(s)@ == old(s)@ + digits(n as nat),
    decreases n,
{
    if n >= 10 {
        append_digits(s, n / 10);
    }
    s.append(digit_str(n % 10));
    assert(s@ =~= old(s)@ + digits(n as nat));
}

impl KeychainErrorCode {
    /// The variant written out as its name, with the raw code for an unknown one.
    pub fn describe(&self) -> (r: String)
        ensures
            r@ == code_text(*self),
    {
        match self {
            KeychainErrorCode::AuthFailed => String::from_str("AuthFailed"),
            KeychainErrorCode::DuplicateItem => String::from_str("DuplicateItem"),
            KeychainErrorCode::ItemNotFound => String::from_str("ItemNotFound"),
            KeychainErrorCode::InvalidOwnerEdit => String::from_str("InvalidOwnerEdit"),
            KeychainErrorCode::UnknownStatusCode(v) => {
                let mut s = String::from_str("UnknownStatusCode(");
                let ghost head = s@;
                proof {
                    reveal_strlit("-");
                }
                let magnitude: u64 = if *v < 0 {
                    s.append("-");
                    (-(*v as i64)) as u64
                } else {
                    *v as u64
                };
                let ghost sign = s@;
                assert(sign == head + (if *v < 0 { seq!['-'] } else { Seq::<char>::empty() }));
                append_digits(&mut s, magnitude);
                let ghost number = s@;
                assert(number =~= head + decimal_text(*v as int));
                s.append(")");
                assert(s@ =~= code_text(*self));
                s
            },
        }
    }
}

} // verus!
