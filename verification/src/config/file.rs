//! The configuration file as text: JSON with the profiles under the key `profiles`, each an
//! object with its parity root, its port and its address.
//!
//! Reading the text from the disk and writing it back is the caller's part. The JSON itself is
//! read and written by the crate json; this module walks what that crate hands out.

use vstd::prelude::*;
use vstd::string::*;
use crate::config::common::{Field, ProfileBook, RawProfile};
use crate::config::{ConfigError, ConfigErrorView};
use crate::text::texts;

verus! {

/// `JsonValue` of the crate json: one value of a JSON text. Nothing is said of what it holds.
#[verifier::external_type_specification]
#[verifier::external_body]
pub struct ExJsonValue(json::JsonValue);

/// `Object` of the crate json: the members of a JSON object, in the order in which their keys
/// were first inserted. Its keys are named by `json_keys`.
#[verifier::external_type_specification]
#[verifier::external_body]
pub struct ExObject(json::object::Object);

/// The keys of a JSON object, in their order.
pub uninterp spec fn json_keys(object: json::object::Object) -> Seq<Seq<char>>;

/// `json::parse` of the crate json: the value that the text spells, or what the crate says
/// against the text.
#[verifier::external_body]
fn json_parse(source: &str) -> Result<json::JsonValue, String> {
    match json::parse(source) {
        Ok(value) => Ok(value),
        Err(error) => Err(error.to_string()),
    }
}

/// The variant `JsonValue::Object` of the crate json: the object that a value is, if it is one.
#[verifier::external_body]
fn json_object(value: &json::JsonValue) -> Option<&json::object::Object> {
    match value {
        json::JsonValue::Object(object) => Some(object),
        _ => None,
    }
}

/// The variant `JsonValue::Object` of the crate json, by value.
#[verifier::external_body]
fn json_into_object(value: json::JsonValue) -> Option<json::object::Object> {
    match value {
        json::JsonValue::Object(object) => Some(object),
        _ => None,
    }
}

/// `JsonValue::as_str` of the crate json: the text that a value is, if it is one.
#[verifier::external_body]
fn json_text(value: &json::JsonValue) -> Option<String> {
    match value.as_str() {
        Some(text) => Some(text.to_string()),
        None => None,
    }
}

/// `JsonValue::as_u16` of the crate json: the number that a value is, if it is one that 16
/// bits hold.
#[verifier::external_body]
fn json_port(value: &json::JsonValue) -> Option<u16> {
    value.as_u16()
}

/// `Object::iter` of the crate json: the keys of the object in their order.
#[verifier::external_body]
fn object_keys(object: &json::object::Object) -> (keys: Vec<String>)
    ensures
        texts(keys@) == json_keys(*object),
{
    let mut keys = Vec::new();
    for (key, _) in object.iter() {
        keys.push(key.to_string());
    }
    keys
}

/// `Object::get` of the crate json: the value under the key, which is there exactly when the
/// object has the key.
#[verifier::external_body]
fn object_get<'a>(object: &'a json::object::Object, key: &str) -> (value: Option<
    &'a json::JsonValue,
>)
    ensures
        value is Some <==> json_keys(*object).contains(key@),
{
    object.get(key)
}

/// `Object::new` of the crate json: an object without members.
#[verifier::external_body]
fn object_new() -> (object: json::object::Object)
    ensures
        json_keys(object) == Seq::<Seq<char>>::empty(),
{
    json::object::Object::new()
}

/// `Object::insert` of the crate json: a key that the object has keeps its place and gets the
/// value; a new key comes last.
#[verifier::external_body]
fn object_insert(object: &mut json::object::Object, key: &str, value: json::JsonValue)
    ensures
        json_keys(*final(object)) == if json_keys(*old(object)).contains(key@) {
            json_keys(*old(object))
        } else {
            json_keys(*old(object)).push(key@)
        },
{
    object.insert(key, value);
}

/// `Object::dump` of the crate json: the object as JSON text.
#[verifier::external_body]
fn object_dump(object: &json::object::Object) -> String {
    object.dump()
}

/// The variant `JsonValue::String` of the crate json: the value that is this text.
#[verifier::external_body]
fn json_of_text(text: &str) -> json::JsonValue {
    json::JsonValue::String(text.to_string())
}

/// `Number::from` of the crate json, in the variant `JsonValue::Number`: the value that is this
/// number.
#[verifier::external_body]
fn json_of_port(port: u16) -> json::JsonValue {
    json::JsonValue::Number(json::number::Number::from(port))
}

/// The variant `JsonValue::Object` of the crate json: the value that is this object.
#[verifier::external_body]
fn json_of_object(object: json::object::Object) -> json::JsonValue {
    json::JsonValue::Object(object)
}

/// The variant `JsonValue::Null` of the crate json.
#[verifier::external_body]
fn json_null() -> json::JsonValue {
    json::JsonValue::Null
}

/// `Clone` of the crate json's `JsonValue`: a second value that holds the same.
#[verifier::external_body]
fn json_copy(value: &json::JsonValue) -> json::JsonValue {
    value.clone()
}

/// The key under which the file keeps its profiles.
pub open spec fn profiles_key() -> Seq<char> {
    "profiles"@
}

/// What a profile's object holds under `key`, read as a text.
fn text_field(profile: &json::object::Object, key: &str) -> (field: Field<String>)
    ensures
        field is Missing <==> !json_keys(*profile).contains(key@),
{
    match object_get(profile, key) {
        None => Field::Missing,
        Some(value) => match json_text(value) {
            Some(text) => Field::Held(text),
            None => Field::Mistyped,
        },
    }
}

/// What a profile's object holds under `key`, read as a port.
fn port_field(profile: &json::object::Object, key: &str) -> (field: Field<u16>)
    ensures
        field is Missing <==> !json_keys(*profile).contains(key@),
{
    match object_get(profile, key) {
        None => Field::Missing,
        Some(value) => match json_port(value) {
            Some(port) => Field::Held(port),
            None => Field::Mistyped,
        },
    }
}

/// What a profile's object holds of the profile. The address stands under `address_key`. A
/// field is missing exactly where the object has no such key.
pub fn raw_profile(profile: &json::object::Object, address_key: &str) -> (raw: RawProfile)
    ensures
        raw.parity_root is Missing <==> !json_keys(*profile).contains("parity_root"@),
        raw.port is Missing <==> !json_keys(*profile).contains("port"@),
        raw.address is Missing <==> !json_keys(*profile).contains(address_key@),
{
    RawProfile {
        parity_root: text_field(profile, "parity_root"),
        port: port_field(profile, "port"),
        address: text_field(profile, address_key),
    }
}

/// The book of the profiles that stand in the object `profiles`: it has the object's keys as
/// its names, and under each what the object holds of a profile there, or nothing where it
/// holds no object.
pub fn book_of(profiles: &json::object::Object, address_key: &str) -> (book: ProfileBook)
    ensures
        book.wf(),
        forall|name: Seq<char>|
            book.names().contains(name) <==> json_keys(*profiles).contains(name),
{
    let keys = object_keys(profiles);
    let mut book = ProfileBook::new();
    let mut i: usize = 0;
    while i < keys.len()
        invariant
            i <= keys.len(),
            book.wf(),
            forall|name: Seq<char>|
                book.names().contains(name) <==> texts(keys@).take(i as int).contains(name),
        decreases keys.len() - i,
    {
        let key = keys[i].as_str();
        let slot = match object_get(profiles, key) {
            None => None,
            Some(value) => match json_object(value) {
                None => None,
                Some(profile) => Some(raw_profile(profile, address_key)),
            },
        };
        let ghost before = book;
        book.insert(key, slot);
        proof {
            let seen = texts(keys@).take(i as int);
            let now = texts(keys@).take(i + 1);
            assert(now =~= seen.push(key@));
            assert forall|name: Seq<char>| book.names().contains(name) <==> now.contains(
                name,
            ) by {
                if before.names().contains(key@) {
                    assert(book.names() == before.names());
                } else {
                    assert(book.names() == before.names().push(key@));
                    assert(book.names()[before.names().len() as int] == key@);
                }
                if now.contains(name) {
                    let j = choose|j: int| 0 <= j < now.len() && now[j] == name;
                    if j < seen.len() {
                        assert(seen[j] == name);
                    }
                }
                if seen.contains(name) {
                    let j = choose|j: int| 0 <= j < seen.len() && seen[j] == name;
                    assert(now[j] == name);
                }
                assert(now[seen.len() as int] == key@);
                if book.names().contains(name) && !before.names().contains(name) {
                    let j = choose|j: int| 0 <= j < book.names().len() && book.names()[j] == name;
                    assert(j == before.names().len());
                }
                if before.names().contains(name) {
                    let j = choose|j: int|
                        0 <= j < before.names().len() && before.names()[j] == name;
                    assert(book.names()[j] == name);
                }
            }
        }
        i = i + 1;
    }
    assert(texts(keys@).take(keys@.len() as int) =~= texts(keys@));
    book
}

/// Whether `error` is one of the failures of reading the file's text: the text is no JSON, the
/// JSON is no object, or the object has no object under `profiles`.
pub open spec fn is_read_failure(error: ConfigErrorView) -> bool {
    ||| error is Unreadable
    ||| error == ConfigErrorView::RootMalformed
    ||| error == ConfigErrorView::ProfileMissing(profiles_key())
    ||| error == ConfigErrorView::ProfileMalformed(profiles_key())
}

/// Reads the book of profiles from the text of a configuration file.
pub fn read_book(source: &str, address_key: &str) -> (book: Result<ProfileBook, ConfigError>)
    ensures
        match book {
            Ok(read) => read.wf(),
            Err(e) => is_read_failure(e@),
        },
{
    let value = match json_parse(source) {
        Err(text) => { return Err(ConfigError::Unreadable(text)); },
        Ok(value) => value,
    };
    let root = match json_object(&value) {
        None => { return Err(ConfigError::RootMalformed); },
        Some(root) => root,
    };
    let held = match object_get(root, "profiles") {
        None => { return Err(ConfigError::ProfileMissing(String::from_str("profiles"))); },
        Some(held) => held,
    };
    match json_object(held) {
        None => Err(ConfigError::ProfileMalformed(String::from_str("profiles"))),
        Some(profiles) => Ok(book_of(profiles, address_key)),
    }
}

/// The object of one profile: the fields that the profile holds, under their keys.
fn profile_object(raw: &RawProfile, address_key: &str) -> json::object::Object {
    let mut profile = object_new();
    match &raw.parity_root {
        Field::Held(root) => {
            object_insert(&mut profile, "parity_root", json_of_text(root.as_str()));
        },
        _ => {},
    }
    match raw.port {
        Field::Held(port) => {
            object_insert(&mut profile, "port", json_of_port(port));
        },
        _ => {},
    }
    match &raw.address {
        Field::Held(address) => {
            object_insert(&mut profile, address_key, json_of_text(address.as_str()));
        },
        _ => {},
    }
    profile
}

/// The object that holds the profiles of `book` under their names, in the book's order. A name
/// under which the book holds no profile gets what `before` holds under it, if `before` is
/// there and holds anything, and else nothing.
pub fn profiles_object(
    book: &ProfileBook,
    before: Option<&json::object::Object>,
    address_key: &str,
) -> (profiles: json::object::Object)
    requires
        book.wf(),
    ensures
        json_keys(profiles) == book.names(),
{
    let mut profiles = object_new();
    let mut place: usize = 0;
    let count = book.len();
    assert(book.names().take(0) =~= Seq::<Seq<char>>::empty());
    while place < count
        invariant
            book.wf(),
            place <= count == book.names().len(),
            book.names().len() == book.slots().len(),
            json_keys(profiles) == book.names().take(place as int),
        decreases book.names().len() - place,
    {
        let name = book.name_at(place);
        let value = match book.slot_at(place) {
            Some(raw) => json_of_object(profile_object(raw, address_key)),
            None => match before {
                None => json_null(),
                Some(held) => match object_get(held, name.as_str()) {
                    Some(kept) => json_copy(kept),
                    None => json_null(),
                },
            },
        };
        proof {
            let seen = book.names().take(place as int);
            if seen.contains(name@) {
                let j = choose|j: int| 0 <= j < seen.len() && seen[j] == name@;
                book.lemma_names_differ(j, place as int);
            }
            assert(book.names().take(place + 1) =~= seen.push(name@));
        }
        object_insert(&mut profiles, name.as_str(), value);
        place = place + 1;
    }
    assert(book.names().take(book.names().len() as int) =~= book.names());
    profiles
}

/// The text of a configuration file that holds the profiles of `book`. What the text `before`
/// holds beside the profiles stays, where `before` is the text of such a file; else the file
/// holds the profiles alone.
pub fn write_book(before: &str, book: &ProfileBook, address_key: &str) -> (text: String)
    requires
        book.wf(),
{
    let mut root = match json_parse(before) {
        Err(_) => object_new(),
        Ok(value) => match json_into_object(value) {
            None => object_new(),
            Some(root) => root,
        },
    };
    let profiles = {
        let held = match object_get(&root, "profiles") {
            None => None,
            Some(value) => json_object(value),
        };
        profiles_object(book, held, address_key)
    };
    object_insert(&mut root, "profiles", json_of_object(profiles));
    object_dump(&root)
}

} // verus!
