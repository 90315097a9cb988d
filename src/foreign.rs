//! The store's object world: foreign strings, data blobs, attribute
//! dictionaries and the stored credentials, with ownership of every object
//! tracked so that a leak or a double release is a verification error.
use vstd::prelude::*;
use vstd::utf8::decode_utf8;
use vstd::utf8::valid_utf8;
use crate::status::ERR_SEC_AUTH_FAILED;
use crate::status::ERR_SEC_DECODE;
use crate::status::ERR_SEC_DUPLICATE_ITEM;
use crate::status::ERR_SEC_INVALID_OWNER_EDIT;
use crate::status::ERR_SEC_ITEM_NOT_FOUND;
use crate::status::ERR_SEC_PARAM;
use crate::status::ERR_SEC_SUCCESS;

verus! {

/// Attribute keys that the store's request protocol understands.
#[derive(PartialEq, Eq, Structural, Debug, Clone, Copy)]
pub enum Key {
    Class,
    Service,
    Account,
    ValueData,
    MatchLimit,
    ReturnAttributes,
    ReturnData,
}

/// What a dictionary entry holds: one of the store's constants, or the
/// dictionary's own copy of a string or data object.
#[derive(Debug)]
pub enum Value {
    GenericPassword,
    MatchLimitOne,
    BooleanTrue,
    Text(String),
    Data(Vec<u8>),
}

/// The mathematical content of a [`Value`].
pub enum ValueModel {
    GenericPassword,
    MatchLimitOne,
    BooleanTrue,
    Text(Seq<char>),
    Data(Seq<u8>),
}

impl View for Value {
    type V = ValueModel;

    open spec fn view(&self) -> ValueModel {
        match self {
            Value::GenericPassword => ValueModel::GenericPassword,
            Value::MatchLimitOne => ValueModel::MatchLimitOne,
            Value::BooleanTrue => ValueModel::BooleanTrue,
            Value::Text(s) => ValueModel::Text(s@),
            Value::Data(d) => ValueModel::Data(d@),
        }
    }
}

/// An object of the store, as held in its object table.
#[derive(Debug)]
pub enum Object {
    Text(String),
    Data(Vec<u8>),
    Dictionary(Vec<(Key, Value)>),
}

/// The mathematical content of an [`Object`].
pub enum ObjectModel {
    Text(Seq<char>),
    Data(Seq<u8>),
    Dictionary(Seq<(Key, ValueModel)>),
}

/// The mathematical content of a dictionary's entries.
pub open spec fn entries_view(entries: Seq<(Key, Value)>) -> Seq<(Key, ValueModel)> {
    entries.map_values(|e: (Key, Value)| (e.0, e.1@))
}

impl View for Object {
    type V = ObjectModel;

    open spec fn view(&self) -> ObjectModel {
        match self {
            Object::Text(s) => ObjectModel::Text(s@),
            Object::Data(d) => ObjectModel::Data(d@),
            Object::Dictionary(e) => ObjectModel::Dictionary(entries_view(e@)),
        }
    }
}

/// The value of the first entry under `key`, if any.
pub open spec fn lookup(entries: Seq<(Key, ValueModel)>, key: Key) -> Option<ValueModel>
    decreases entries.len(),
{
    if entries.len() == 0 {
        None
    } else if entries[0].0 == key {
        Some(entries[0].1)
    } else {
        lookup(entries.drop_first(), key)
    }
}

/// Finds the value of the first entry under `key`.
fn find_entry(entries: &Vec<(Key, Value)>, key: Key) -> (r: Option<&Value>)
    ensures
        match r {
            Some(v) => lookup(entries_view(entries@), key) == Some(v@),
            None => lookup(entries_view(entries@), key) is None,
        },
{
    let ghost all = entries_view(entries@);
    let mut i: usize = 0;
    assert(all.subrange(0, all.len() as int) =~= all);
    while i < entries.len()
        invariant
            0 <= i <= entries@.len(),
            all == entries_view(entries@),
            lookup(all, key) == lookup(all.subrange(i as int, all.len() as int), key),
        decreases entries@.len() - i,
    {
        let ghost rest = all.subrange(i as int, all.len() as int);
        assert(rest.drop_first() =~= all.subrange(i + 1, all.len() as int));
        if entries[i].0 == key {
            return Some(&entries[i].1);
        }
        i = i + 1;
    }
    assert(all.subrange(i as int, all.len() as int) =~= Seq::<(Key, ValueModel)>::empty());
    None
}

/// Copies `b` into a new vector.
fn copy_bytes(b: &[u8]) -> (r: Vec<u8>)
    ensures
        r@ == b@,
{
    let mut r: Vec<u8> = Vec::new();
    let mut i: usize = 0;
    while i < b.len()
        invariant
            0 <= i <= b@.len(),
            r@ == b@.subrange(0, i as int),
        decreases b@.len() - i,
    {
        r.push(b[i]);
        i = i + 1;
        assert(r@ =~= b@.subrange(0, i as int));
    }
    assert(r@ =~= b@);
    r
}

/// Copies the bytes of a data value into a new vector.
pub fn vec_from_cfdata(data: &Value) -> (r: Vec<u8>)
    requires
        data is Data,
    ensures
        data@ == ValueModel::Data(r@),
{
    match data {
        Value::Data(d) => copy_bytes(d.as_slice()),
        _ => Vec::new(),
    }
}

/// Relies on `String::from_utf8`: it succeeds exactly on valid UTF-8, and
/// then holds the characters that the bytes encode.
#[verifier::external_body]
fn string_from_utf8(bytes: Vec<u8>) -> (r: Option<String>)
    ensures
        r is Some <==> valid_utf8(bytes@),
        r matches Some(s) ==> s@ == decode_utf8(bytes@),
{
    String::from_utf8(bytes).ok()
}

/// Copies text out through its UTF-8 representation.
fn string_from_utf8_representation(s: &str) -> (r: String)
    ensures
        r@ == s@,
{
    broadcast use vstd::utf8::encode_utf8_valid_utf8, vstd::utf8::encode_utf8_decode_utf8;

    let utf8 = copy_bytes(s.as_bytes());
    match string_from_utf8(utf8) {
        Some(r) => r,
        None => String::new(),
    }
}

/// Converts a string value into an owned `String`, by way of its UTF-8
/// representation.
pub fn string_from_cf_string(text: &Value) -> (r: String)
    requires
        text is Text,
    ensures
        text@ == ValueModel::Text(r@),
{
    match text {
        Value::Text(s) => string_from_utf8_representation(s.as_str()),
        _ => String::new(),
    }
}

/// Decodes a secret as UTF-8 text; `None` where it is not valid UTF-8.
pub fn text_from_secret(bytes: Vec<u8>) -> (r: Option<String>)
    ensures
        r is Some <==> valid_utf8(bytes@),
        r matches Some(s) ==> s@ == decode_utf8(bytes@),
{
    string_from_utf8(bytes)
}

/// The message that the store gives for a status code.
pub open spec fn status_message(status: i32) -> Seq<char> {
    if status == ERR_SEC_SUCCESS {
        "No error."@
    } else if status == ERR_SEC_PARAM {
        "One or more parameters passed to a function were not valid."@
    } else if status == ERR_SEC_AUTH_FAILED {
        "The user name or passphrase you entered is not correct."@
    } else if status == ERR_SEC_DUPLICATE_ITEM {
        "The specified item already exists in the keychain."@
    } else if status == ERR_SEC_ITEM_NOT_FOUND {
        "The specified item could not be found in the keychain."@
    } else if status == ERR_SEC_INVALID_OWNER_EDIT {
        "Invalid attempt to change the owner of this item."@
    } else if status == ERR_SEC_DECODE {
        "Unable to decode the provided data."@
    } else {
        "An unknown status code was returned."@
    }
}

fn message_text(status: i32) -> (r: &'static str)
    ensures
        r@ == status_message(status),
{
    if status == ERR_SEC_SUCCESS {
        "No error."
    } else if status == ERR_SEC_PARAM {
        "One or more parameters passed to a function were not valid."
    } else if status == ERR_SEC_AUTH_FAILED {
        "The user name or passphrase you entered is not correct."
    } else if status == ERR_SEC_DUPLICATE_ITEM {
        "The specified item already exists in the keychain."
    } else if status == ERR_SEC_ITEM_NOT_FOUND {
        "The specified item could not be found in the keychain."
    } else if status == ERR_SEC_INVALID_OWNER_EDIT {
        "Invalid attempt to change the owner of this item."
    } else if status == ERR_SEC_DECODE {
        "Unable to decode the provided data."
    } else {
        "An unknown status code was returned."
    }
}

/// What a dictionary is built from: one of the store's constants, or a
/// string or data object whose content the dictionary copies.
pub enum Operand<'a> {
    GenericPassword,
    MatchLimitOne,
    BooleanTrue,
    Object(&'a Handle),
}

/// An owned reference to an object of the store.
///
/// It is neither `Copy` nor `Clone`: releasing consumes it, so an object is
/// released at most once through it.
#[derive(Debug)]
pub struct Handle {
    id: usize,
}

impl Handle {
    /// The slot of the object table that this handle refers to.
    pub closed spec fn id(&self) -> int {
        self.id as int
    }
}

/// A credential held by the store.
pub struct Credential {
    pub service: Seq<char>,
    pub account: Seq<char>,
    pub secret: Seq<u8>,
}

/// A stored credential, as held by the store.
#[derive(Debug)]
pub struct StoredItem {
    service: String,
    account: String,
    secret: Vec<u8>,
}

impl View for StoredItem {
    type V = Credential;

    closed spec fn view(&self) -> Credential {
        Credential { service: self.service@, account: self.account@, secret: self.secret@ }
    }
}

/// The credential that an attribute dictionary describes for an add
/// request, if it names the generic-password class, a service, an account
/// and secret data.
pub open spec fn add_request(e: Seq<(Key, ValueModel)>) -> Option<Credential> {
    match (lookup(e, Key::Class), lookup(e, Key::Service), lookup(e, Key::Account), lookup(e, Key::ValueData)) {
        (
            Some(ValueModel::GenericPassword),
            Some(ValueModel::Text(service)),
            Some(ValueModel::Text(account)),
            Some(ValueModel::Data(secret)),
        ) => Some(Credential { service, account, secret }),
        _ => None,
    }
}

/// The service that a delete query selects, if it names the
/// generic-password class and a service.
pub open spec fn delete_request(e: Seq<(Key, ValueModel)>) -> Option<Seq<char>> {
    match (lookup(e, Key::Class), lookup(e, Key::Service)) {
        (Some(ValueModel::GenericPassword), Some(ValueModel::Text(service))) => Some(service),
        _ => None,
    }
}

/// The service that a find query selects, if it names the generic-password
/// class and a service, limits the match to one item and asks for the item's
/// attributes and data.
pub open spec fn find_request(e: Seq<(Key, ValueModel)>) -> Option<Seq<char>> {
    if lookup(e, Key::MatchLimit) == Some(ValueModel::MatchLimitOne) && lookup(e, Key::ReturnAttributes)
        == Some(ValueModel::BooleanTrue) && lookup(e, Key::ReturnData) == Some(
        ValueModel::BooleanTrue,
    ) {
        delete_request(e)
    } else {
        None
    }
}

/// Whether a credential for `service` and `account` is stored.
pub open spec fn has_credential(items: Seq<Credential>, service: Seq<char>, account: Seq<char>) -> bool {
    exists|i: int| 0 <= i < items.len() && items[i].service == service && items[i].account == account
}

/// The credentials that remain once every one stored for `service` is removed.
pub open spec fn without_service(items: Seq<Credential>, service: Seq<char>) -> Seq<Credential> {
    items.filter(|c: Credential| c.service != service)
}

/// The oldest credential stored for `service`, if any.
pub open spec fn first_for_service(items: Seq<Credential>, service: Seq<char>) -> Option<Credential>
    decreases items.len(),
{
    if items.len() == 0 {
        None
    } else if items[0].service == service {
        Some(items[0])
    } else {
        first_for_service(items.drop_first(), service)
    }
}

/// The dictionary that a successful find hands back for credential `c`.
pub open spec fn result_entries(c: Credential) -> Seq<(Key, ValueModel)> {
    seq![
        (Key::Class, ValueModel::GenericPassword),
        (Key::Service, ValueModel::Text(c.service)),
        (Key::Account, ValueModel::Text(c.account)),
        (Key::ValueData, ValueModel::Data(c.secret)),
    ]
}

/// The number of live slots in an object table.
pub open spec fn count_live(objects: Seq<Option<ObjectModel>>) -> nat
    decreases objects.len(),
{
    if objects.len() == 0 {
        0
    } else {
        count_live(objects.drop_last()) + if objects.last() is Some {
            1nat
        } else {
            0nat
        }
    }
}

/// An in-memory credential store together with its object table.
#[derive(Debug)]
pub struct Keychain {
    objects: Vec<Option<Object>>,
    items: Vec<StoredItem>,
}

impl Keychain {
    /// The object table: slot `i` holds the object of handle `i` while it is live.
    pub closed spec fn objects(&self) -> Seq<Option<ObjectModel>> {
        self.objects@.map_values(|o: Option<Object>| match o {
            Some(obj) => Some(obj@),
            None => None,
        })
    }

    /// The stored credentials, oldest first.
    pub closed spec fn items(&self) -> Seq<Credential> {
        self.items@.map_values(|it: StoredItem| it@)
    }

    /// The ids of the objects that are created and not yet released.
    pub open spec fn live(&self) -> Set<int> {
        Set::new(|i: int| 0 <= i < self.objects().len() && self.objects()[i] is Some)
    }

    /// Whether `h` refers to a live object.
    pub open spec fn holds(&self, h: &Handle) -> bool {
        0 <= h.id() < self.objects().len() && self.objects()[h.id()] is Some
    }

    /// The content of the live object that `h` refers to.
    pub open spec fn object(&self, h: &Handle) -> ObjectModel {
        self.objects()[h.id()]->0
    }

    /// An empty store with no live objects.
    pub fn new() -> (r: Keychain)
        ensures
            r.objects() == Seq::<Option<ObjectModel>>::empty(),
            r.items() == Seq::<Credential>::empty(),
    {
        let r = Keychain { objects: Vec::new(), items: Vec::new() };
        assert(r.objects() =~= Seq::<Option<ObjectModel>>::empty());
        assert(r.items() =~= Seq::<Credential>::empty());
        r
    }

    /// The entries of the dictionary that `h` refers to.
    pub open spec fn entries(&self, h: &Handle) -> Seq<(Key, ValueModel)> {
        match self.object(h) {
            ObjectModel::Dictionary(e) => e,
            _ => Seq::empty(),
        }
    }

    /// Whether `h` refers to a live dictionary.
    pub open spec fn holds_dictionary(&self, h: &Handle) -> bool {
        self.holds(h) && self.object(h) is Dictionary
    }

    /// Whether an operand can go into a dictionary: a constant, or a live
    /// string or data object.
    pub open spec fn operand_ok(&self, op: Operand<'_>) -> bool {
        match op {
            Operand::Object(h) => self.holds(h) && !(self.object(h) is Dictionary),
            _ => true,
        }
    }

    /// The value that a dictionary holds for an operand.
    pub open spec fn operand_value(&self, op: Operand<'_>) -> ValueModel {
        match op {
            Operand::GenericPassword => ValueModel::GenericPassword,
            Operand::MatchLimitOne => ValueModel::MatchLimitOne,
            Operand::BooleanTrue => ValueModel::BooleanTrue,
            Operand::Object(h) => match self.object(h) {
                ObjectModel::Text(s) => ValueModel::Text(s),
                ObjectModel::Data(d) => ValueModel::Data(d),
                ObjectModel::Dictionary(_) => ValueModel::GenericPassword,
            },
        }
    }

    /// The entries of a dictionary built from `pairs`.
    pub open spec fn dictionary_of(&self, pairs: Seq<(Key, Operand<'_>)>) -> Seq<(Key, ValueModel)> {
        pairs.map_values(|p: (Key, Operand<'_>)| (p.0, self.operand_value(p.1)))
    }

    /// The dictionary's own copy of what an operand stands for.
    fn copy_operand(&self, op: &Operand<'_>) -> (r: Value)
        requires
            self.operand_ok(*op),
        ensures
            r@ == self.operand_value(*op),
    {
        match op {
            Operand::GenericPassword => Value::GenericPassword,
            Operand::MatchLimitOne => Value::MatchLimitOne,
            Operand::BooleanTrue => Value::BooleanTrue,
            Operand::Object(h) => {
                assert(self.objects()[h.id()] == Some(self.objects@[h.id()]->0@));
                match &self.objects[h.id] {
                    Some(Object::Text(s)) => Value::Text(s.clone()),
                    Some(Object::Data(d)) => Value::Data(copy_bytes(d.as_slice())),
                    _ => Value::GenericPassword,
                }
            },
        }
    }

    /// Converts the string object that `h` refers to into an owned `String`.
    pub fn text_of(&self, h: &Handle) -> (r: String)
        requires
            self.holds(h),
            self.object(h) is Text,
        ensures
            self.object(h) == ObjectModel::Text(r@),
    {
        assert(self.objects()[h.id()] == Some(self.objects@[h.id()]->0@));
        match &self.objects[h.id] {
            Some(Object::Text(s)) => string_from_utf8_representation(s.as_str()),
            _ => String::new(),
        }
    }

    /// Finds the value stored under `key` in the dictionary `dict`.
    ///
    /// The value is borrowed from the dictionary: it is never released on its
    /// own, and it cannot outlive a release of the dictionary.
    pub fn get_value(&self, dict: &Handle, key: Key) -> (r: Option<&Value>)
        requires
            self.holds_dictionary(dict),
        ensures
            match r {
                Some(v) => lookup(self.entries(dict), key) == Some(v@),
                None => lookup(self.entries(dict), key) is None,
            },
    {
        assert(self.objects()[dict.id()] == Some(self.objects@[dict.id()]->0@));
        match &self.objects[dict.id] {
            Some(Object::Dictionary(e)) => find_entry(e, key),
            _ => None,
        }
    }

    pub(crate) fn insert_object(&mut self, obj: Object) -> (h: Handle)
        ensures
            h.id() == old(self).objects().len(),
            final(self).objects() == old(self).objects().push(Some(obj@)),
            final(self).items() == old(self).items(),
    {
        let id = self.objects.len();
        self.objects.push(Some(obj));
        assert(self.objects() =~= old(self).objects().push(Some(obj@)));
        assert(self.items() =~= old(self).items());
        Handle { id }
    }

    /// Creates a string object holding `s`.
    pub fn create_string(&mut self, s: &str) -> (h: Handle)
        ensures
            h.id() == old(self).objects().len(),
            final(self).objects() == old(self).objects().push(Some(ObjectModel::Text(s@))),
            final(self).items() == old(self).items(),
    {
        self.insert_object(Object::Text(s.to_owned()))
    }

    /// The number of objects created and not yet released.
    pub fn live_count(&self) -> (r: usize)
        ensures
            r == count_live(self.objects()),
    {
        let ghost all = self.objects();
        let mut n: usize = 0;
        let mut i: usize = 0;
        while i < self.objects.len()
            invariant
                0 <= i <= self.objects@.len(),
                all == self.objects(),
                n == count_live(all.subrange(0, i as int)),
                n <= i,
            decreases self.objects@.len() - i,
        {
            assert(all.subrange(0, i + 1).drop_last() =~= all.subrange(0, i as int));
            assert(all[i as int] is Some <==> self.objects@[i as int] is Some);
            if self.objects[i].is_some() {
                n = n + 1;
            }
            i = i + 1;
        }
        assert(all.subrange(0, i as int) =~= all);
        n
    }

    /// Creates a data object holding a copy of `bytes`.
    pub fn create_data(&mut self, bytes: &[u8]) -> (h: Handle)
        ensures
            h.id() == old(self).objects().len(),
            final(self).objects() == old(self).objects().push(Some(ObjectModel::Data(bytes@))),
            final(self).items() == old(self).items(),
    {
        self.insert_object(Object::Data(copy_bytes(bytes)))
    }

    /// Creates a string object holding the store's message for `status`.
    pub fn copy_error_message(&mut self, status: i32) -> (h: Handle)
        ensures
            h.id() == old(self).objects().len(),
            final(self).objects() == old(self).objects().push(
                Some(ObjectModel::Text(status_message(status))),
            ),
            final(self).items() == old(self).items(),
    {
        self.create_string(message_text(status))
    }

    /// Whether a credential for `service` and `account` is stored.
    fn has_item(&self, service: &String, account: &String) -> (r: bool)
        ensures
            r == has_credential(self.items(), service@, account@),
    {
        let mut i: usize = 0;
        while i < self.items.len()
            invariant
                0 <= i <= self.items@.len(),
                forall|j: int|
                    0 <= j < i ==> !((#[trigger] self.items()[j]).service == service@
                        && self.items()[j].account == account@),
            decreases self.items@.len() - i,
        {
            assert(self.items()[i as int] == self.items@[i as int]@);
            if self.items[i].service == *service && self.items[i].account == *account {
                return true;
            }
            i = i + 1;
        }
        false
    }

    /// The index of the oldest credential stored for `service`, if any.
    fn first_item(&self, service: &String) -> (r: Option<usize>)
        ensures
            match first_for_service(self.items(), service@) {
                Some(c) => r matches Some(k) && k < self.items().len() && self.items()[k as int] == c,
                None => r is None,
            },
    {
        let ghost all = self.items();
        let mut i: usize = 0;
        assert(all.subrange(0, all.len() as int) =~= all);
        while i < self.items.len()
            invariant
                0 <= i <= self.items@.len(),
                all == self.items(),
                first_for_service(all, service@) == first_for_service(
                    all.subrange(i as int, all.len() as int),
                    service@,
                ),
            decreases self.items@.len() - i,
        {
            let ghost rest = all.subrange(i as int, all.len() as int);
            assert(rest.drop_first() =~= all.subrange(i + 1, all.len() as int));
            assert(all[i as int] == self.items@[i as int]@);
            if self.items[i].service == *service {
                return Some(i);
            }
            i = i + 1;
        }
        assert(all.subrange(i as int, all.len() as int) =~= Seq::<Credential>::empty());
        None
    }

    /// The service, account and secret that an add request names.
    fn add_fields(&self, h: &Handle) -> (r: Option<(String, String, Vec<u8>)>)
        requires
            self.holds_dictionary(h),
        ensures
            match add_request(self.entries(h)) {
                Some(c) => r matches Some(t) && t.0@ == c.service && t.1@ == c.account && t.2@
                    == c.secret,
                None => r is None,
            },
    {
        assert(self.objects()[h.id()] == Some(self.objects@[h.id()]->0@));
        match &self.objects[h.id] {
            Some(Object::Dictionary(e)) => {
                let class = find_entry(e, Key::Class);
                let service = find_entry(e, Key::Service);
                let account = find_entry(e, Key::Account);
                let data = find_entry(e, Key::ValueData);
                match (class, service, account, data) {
                    (
                        Some(Value::GenericPassword),
                        Some(Value::Text(s)),
                        Some(Value::Text(a)),
                        Some(Value::Data(d)),
                    ) => Some((s.clone(), a.clone(), copy_bytes(d.as_slice()))),
                    _ => None,
                }
            },
            _ => None,
        }
    }

    /// The service that a delete or find query names, provided it names the
    /// generic-password class; for a find query also that it asks for one
    /// item with its attributes and data.
    fn query_service(&self, h: &Handle, find: bool) -> (r: Option<String>)
        requires
            self.holds_dictionary(h),
        ensures
            match (if find { find_request(self.entries(h)) } else { delete_request(self.entries(h)) }) {
                Some(s) => r matches Some(t) && t@ == s,
                None => r is None,
            },
    {
        assert(self.objects()[h.id()] == Some(self.objects@[h.id()]->0@));
        match &self.objects[h.id] {
            Some(Object::Dictionary(e)) => {
                if find {
                    let limit = find_entry(e, Key::MatchLimit);
                    let attrs = find_entry(e, Key::ReturnAttributes);
                    let data = find_entry(e, Key::ReturnData);
                    match (limit, attrs, data) {
                        (Some(Value::MatchLimitOne), Some(Value::BooleanTrue), Some(Value::BooleanTrue)) => {},
                        _ => {
                            return None;
                        },
                    }
                }
                let class = find_entry(e, Key::Class);
                let service = find_entry(e, Key::Service);
                match (class, service) {
                    (Some(Value::GenericPassword), Some(Value::Text(s))) => Some(s.clone()),
                    _ => None,
                }
            },
            _ => None,
        }
    }

    /// Stores the credential that the dictionary `attributes` describes.
    ///
    /// Fails with a parameter error when the dictionary does not describe a
    /// generic password, and with a duplicate-item error when a credential for
    /// the same service and account is stored already.
    pub fn item_add(&mut self, attributes: &Handle) -> (r: i32)
        requires
            old(self).holds_dictionary(attributes),
        ensures
            final(self).objects() == old(self).objects(),
            match add_request(old(self).entries(attributes)) {
                None => r == ERR_SEC_PARAM && final(self).items() == old(self).items(),
                Some(c) => if has_credential(old(self).items(), c.service, c.account) {
                    r == ERR_SEC_DUPLICATE_ITEM && final(self).items() == old(self).items()
                } else {
                    r == ERR_SEC_SUCCESS && final(self).items() == old(self).items().push(c)
                },
            },
    {
        match self.add_fields(attributes) {
            None => ERR_SEC_PARAM,
            Some((service, account, secret)) => {
                if self.has_item(&service, &account) {
                    ERR_SEC_DUPLICATE_ITEM
                } else {
                    let item = StoredItem { service, account, secret };
                    self.items.push(item);
                    assert(self.items() =~= old(self).items().push(item@));
                    assert(self.objects() =~= old(self).objects());
                    ERR_SEC_SUCCESS
                }
            },
        }
    }

    /// Removes every credential stored for the service that `query` names.
    ///
    /// Succeeds also where no credential matched.
    pub fn item_delete(&mut self, query: &Handle) -> (r: i32)
        requires
            old(self).holds_dictionary(query),
        ensures
            final(self).objects() == old(self).objects(),
            match delete_request(old(self).entries(query)) {
                None => r == ERR_SEC_PARAM && final(self).items() == old(self).items(),
                Some(s) => r == ERR_SEC_SUCCESS && final(self).items() == without_service(
                    old(self).items(),
                    s,
                ),
            },
    {
        match self.query_service(query, false) {
            None => ERR_SEC_PARAM,
            Some(service) => {
                let ghost all = self.items();
                let mut kept: Vec<StoredItem> = Vec::new();
                let mut i: usize = 0;
                assert(all.subrange(0, 0) =~= Seq::<Credential>::empty());
                proof {
                    reveal(Seq::filter);
                }
                while i < self.items.len()
                    invariant
                        0 <= i <= self.items@.len(),
                        all == self.items(),
                        kept@.map_values(|it: StoredItem| it@) == without_service(
                            all.subrange(0, i as int),
                            service@,
                        ),
                    decreases self.items@.len() - i,
                {
                    assert(all[i as int] == self.items@[i as int]@);
                    let ghost before = kept@;
                    proof {
                        reveal(Seq::filter);
                        let next = all.subrange(0, i + 1);
                        assert(next.drop_last() =~= all.subrange(0, i as int));
                        assert(next.last() == all[i as int]);
                    }
                    if !(self.items[i].service == service) {
                        let item = StoredItem {
                            service: self.items[i].service.clone(),
                            account: self.items[i].account.clone(),
                            secret: copy_bytes(self.items[i].secret.as_slice()),
                        };
                        kept.push(item);
                        assert(kept@.map_values(|it: StoredItem| it@) =~= before.map_values(
                            |it: StoredItem| it@,
                        ).push(all[i as int]));
                    }
                    i = i + 1;
                }
                assert(all.subrange(0, i as int) =~= all);
                self.items = kept;
                assert(self.objects() =~= old(self).objects());
                ERR_SEC_SUCCESS
            },
        }
    }

    /// Looks up the oldest credential stored for the service that `query`
    /// names, and hands back a new dictionary with its service, account and
    /// secret.
    ///
    /// Fails with a parameter error when the query does not ask for one
    /// generic password with its attributes and data, and with an
    /// item-not-found error when no credential is stored for the service.
    pub fn item_copy_matching(&mut self, query: &Handle) -> (r: (i32, Option<Handle>))
        requires
            old(self).holds_dictionary(query),
        ensures
            final(self).items() == old(self).items(),
            match find_request(old(self).entries(query)) {
                None => r.0 == ERR_SEC_PARAM && r.1 is None && final(self).objects() == old(self).objects(),
                Some(s) => match first_for_service(old(self).items(), s) {
                    None => r.0 == ERR_SEC_ITEM_NOT_FOUND && r.1 is None && final(self).objects()
                        == old(self).objects(),
                    Some(c) => {
                        &&& r.0 == ERR_SEC_SUCCESS
                        &&& r.1 matches Some(h) && h.id() == old(self).objects().len()
                        &&& final(self).objects() == old(self).objects().push(
                            Some(ObjectModel::Dictionary(result_entries(c))),
                        )
                    },
                },
            },
    {
        match self.query_service(query, true) {
            None => (ERR_SEC_PARAM, None),
            Some(service) => match self.first_item(&service) {
                None => (ERR_SEC_ITEM_NOT_FOUND, None),
                Some(k) => {
                    assert(self.items()[k as int] == self.items@[k as int]@);
                    let mut entries: Vec<(Key, Value)> = Vec::new();
                    entries.push((Key::Class, Value::GenericPassword));
                    entries.push((Key::Service, Value::Text(self.items[k].service.clone())));
                    entries.push((Key::Account, Value::Text(self.items[k].account.clone())));
                    entries.push(
                        (Key::ValueData, Value::Data(copy_bytes(self.items[k].secret.as_slice()))),
                    );
                    assert(entries_view(entries@) =~= result_entries(self.items()[k as int]));
                    let h = self.insert_object(Object::Dictionary(entries));
                    (ERR_SEC_SUCCESS, Some(h))
                },
            },
        }
    }

    /// Releases the object that `h` refers to.
    pub fn release(&mut self, h: Handle)
        requires
            old(self).holds(&h),
        ensures
            final(self).objects() == old(self).objects().update(h.id(), None),
            final(self).items() == old(self).items(),
    {
        self.objects.set(h.id, None);
        assert(self.objects() =~= old(self).objects().update(h.id(), None));
        assert(self.items() =~= old(self).items());
    }
}

/// Creates a dictionary from `pairs`, in their order. The dictionary holds
/// its own copies of the objects named, so the caller still releases them.
pub fn create_dictionary(kc: &mut Keychain, pairs: &Vec<(Key, Operand<'_>)>) -> (h: Handle)
    requires
        forall|i: int| 0 <= i < pairs@.len() ==> old(kc).operand_ok(#[trigger] pairs@[i].1),
    ensures
        h.id() == old(kc).objects().len(),
        final(kc).objects() == old(kc).objects().push(
            Some(ObjectModel::Dictionary(old(kc).dictionary_of(pairs@))),
        ),
        final(kc).items() == old(kc).items(),
{
    let mut entries: Vec<(Key, Value)> = Vec::new();
    let mut i: usize = 0;
    while i < pairs.len()
        invariant
            0 <= i <= pairs@.len(),
            forall|j: int| 0 <= j < pairs@.len() ==> kc.operand_ok(#[trigger] pairs@[j].1),
            entries@.len() == i,
            forall|j: int|
                0 <= j < i ==> (#[trigger] entries@[j]).0 == pairs@[j].0 && entries@[j].1@
                    == kc.operand_value(pairs@[j].1),
        decreases pairs@.len() - i,
    {
        let v = kc.copy_operand(&pairs[i].1);
        entries.push((pairs[i].0, v));
        i = i + 1;
    }
    assert(entries_view(entries@) =~= kc.dictionary_of(pairs@));
    kc.insert_object(Object::Dictionary(entries))
}

} // verus!
