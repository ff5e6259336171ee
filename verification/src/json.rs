//! JSON documents as the tunnel reads and writes them, and the calls into
//! `serde_json` that parse and print them.
use vstd::prelude::*;

verus! {

#[verifier::external_type_specification]
#[verifier::external_body]
pub struct ExJsonValue(serde_json::Value);

/// A JSON document. Objects keep their members in document order, as
/// `serde_json` does when its `preserve_order` feature is on.
#[derive(Debug)]
pub enum Json {
    Null,
    Bool(bool),
    /// The number's text as `serde_json` prints it.
    Number(String),
    Str(String),
    Array(Vec<Json>),
    Object(Vec<(String, Json)>),
}

/// The mathematical model of a JSON document.
pub enum JsonSpec {
    Null,
    Bool(bool),
    Number(Seq<char>),
    Str(Seq<char>),
    Array(Seq<JsonSpec>),
    Object(Seq<(Seq<char>, JsonSpec)>),
}

impl Json {
    pub open spec fn model(self) -> JsonSpec
        decreases self,
    {
        match self {
            Json::Null => JsonSpec::Null,
            Json::Bool(b) => JsonSpec::Bool(b),
            Json::Number(n) => JsonSpec::Number(n@),
            Json::Str(s) => JsonSpec::Str(s@),
            Json::Array(items) => JsonSpec::Array(
                Seq::new(
                    items@.len(),
                    |i: int|
                        if 0 <= i < items@.len() {
                            items@[i].model()
                        } else {
                            JsonSpec::Null
                        },
                ),
            ),
            Json::Object(members) => JsonSpec::Object(
                Seq::new(
                    members@.len(),
                    |i: int|
                        if 0 <= i < members@.len() {
                            (members@[i].0@, members@[i].1.model())
                        } else {
                            (Seq::empty(), JsonSpec::Null)
                        },
                ),
            ),
        }
    }
}

impl View for Json {
    type V = JsonSpec;

    open spec fn view(&self) -> JsonSpec {
        self.model()
    }
}


/// The model of an object's member list.
pub open spec fn members_model(members: Seq<(String, Json)>) -> Seq<(Seq<char>, JsonSpec)> {
    Seq::new(members.len(), |i: int| (members[i].0@, members[i].1@))
}

/// The model of an array's items.
pub open spec fn items_model(items: Seq<Json>) -> Seq<JsonSpec> {
    Seq::new(items.len(), |i: int| items[i]@)
}

pub proof fn lemma_object_model(members: Vec<(String, Json)>)
    ensures
        Json::Object(members)@ == JsonSpec::Object(members_model(members@)),
{
    assert(Json::Object(members)@->Object_0 =~= members_model(members@));
}

pub proof fn lemma_array_model(items: Vec<Json>)
    ensures
        Json::Array(items)@ == JsonSpec::Array(items_model(items@)),
{
    assert(Json::Array(items)@->Array_0 =~= items_model(items@));
}

/// `i` is the position of the first member named `key`.
pub open spec fn is_first_key(members: Seq<(Seq<char>, JsonSpec)>, key: Seq<char>, i: int) -> bool {
    &&& 0 <= i < members.len()
    &&& members[i].0 == key
    &&& forall|j: int| 0 <= j < i ==> members[j].0 != key
}

/// Some member is named `key`.
pub open spec fn has_key(members: Seq<(Seq<char>, JsonSpec)>, key: Seq<char>) -> bool {
    exists|i: int| 0 <= i < members.len() && members[i].0 == key
}

/// The position of the first member named `key`, when there is one.
pub open spec fn key_position(members: Seq<(Seq<char>, JsonSpec)>, key: Seq<char>) -> int {
    choose|i: int| is_first_key(members, key, i)
}

pub proof fn lemma_key_position(members: Seq<(Seq<char>, JsonSpec)>, key: Seq<char>, i: int)
    requires
        is_first_key(members, key, i),
    ensures
        key_position(members, key) == i,
        has_key(members, key),
{
    let k = key_position(members, key);
    assert(is_first_key(members, key, k));
    if k < i {
        assert(members[k].0 != key);
    } else if i < k {
        assert(members[i].0 != key);
    }
}

pub proof fn lemma_has_key_first(members: Seq<(Seq<char>, JsonSpec)>, key: Seq<char>)
    requires
        has_key(members, key),
    ensures
        is_first_key(members, key, key_position(members, key)),
    decreases members.len(),
{
    if members[0].0 == key {
        lemma_key_position(members, key, 0);
    } else {
        let rest = members.drop_first();
        let i = choose|i: int| 0 <= i < members.len() && members[i].0 == key;
        assert(rest[i - 1].0 == key);
        lemma_has_key_first(rest, key);
        let k = key_position(rest, key);
        assert forall|j: int| 0 <= j < k + 1 implies members[j].0 != key by {
            if j > 0 {
                assert(members[j] == rest[j - 1]);
            }
        }
        lemma_key_position(members, key, k + 1);
    }
}

/// The value of the first member named `key` (what `serde_json::Map::get`
/// finds, since a parsed object names each key once).
pub open spec fn member(members: Seq<(Seq<char>, JsonSpec)>, key: Seq<char>) -> Option<JsonSpec> {
    if has_key(members, key) {
        Some(members[key_position(members, key)].1)
    } else {
        None
    }
}

/// The members after `serde_json::Map::insert(key, value)`: the first member
/// named `key` takes the new value in place, or the member is appended.
pub open spec fn with_member(
    members: Seq<(Seq<char>, JsonSpec)>,
    key: Seq<char>,
    value: JsonSpec,
) -> Seq<(Seq<char>, JsonSpec)> {
    if has_key(members, key) {
        members.update(key_position(members, key), (key, value))
    } else {
        members.push((key, value))
    }
}

/// After setting `key`, looking it up gives the new value and every other
/// member is unchanged.
pub proof fn lemma_member_of_with_member(
    members: Seq<(Seq<char>, JsonSpec)>,
    key: Seq<char>,
    value: JsonSpec,
    other: Seq<char>,
)
    ensures
        member(with_member(members, key, value), key) == Some(value),
        other != key ==> member(with_member(members, key, value), other) == member(members, other),
{
    let updated = with_member(members, key, value);
    if has_key(members, key) {
        lemma_has_key_first(members, key);
        let p = key_position(members, key);
        lemma_key_position(updated, key, p);
        if other != key {
            if has_key(members, other) {
                lemma_has_key_first(members, other);
                let q = key_position(members, other);
                assert(q != p);
                lemma_key_position(updated, other, q);
            } else {
                assert forall|i: int| 0 <= i < updated.len() implies updated[i].0 != other by {
                    if i != p {
                        assert(updated[i] == members[i]);
                    }
                }
            }
        }
    } else {
        let p = members.len() as int;
        assert forall|j: int| 0 <= j < p implies updated[j].0 != key by {
            assert(updated[j] == members[j]);
        }
        lemma_key_position(updated, key, p);
        if other != key {
            if has_key(members, other) {
                lemma_has_key_first(members, other);
                let q = key_position(members, other);
                assert forall|j: int| 0 <= j < q implies updated[j].0 != other by {
                    assert(updated[j] == members[j]);
                }
                lemma_key_position(updated, other, q);
            } else {
                assert forall|i: int| 0 <= i < updated.len() implies updated[i].0 != other by {
                    if i < p {
                        assert(updated[i] == members[i]);
                    }
                }
            }
        }
    }
}

/// Setting a member to the value it already has changes nothing.
pub proof fn lemma_with_member_of_same_value(
    members: Seq<(Seq<char>, JsonSpec)>,
    key: Seq<char>,
    value: JsonSpec,
)
    requires
        member(members, key) == Some(value),
    ensures
        with_member(members, key, value) == members,
{
    lemma_has_key_first(members, key);
    let p = key_position(members, key);
    assert(members[p] == (key, value));
    assert(with_member(members, key, value) =~= members);
}

/// Compares a string with a string slice.
pub fn same_text(text: &String, other: &str) -> (same: bool)
    ensures
        same == (text@ == other@),
{
    let owned = other.to_owned();
    text.eq(&owned)
}

/// The position of the first member named `key`.
pub fn find_member(members: &Vec<(String, Json)>, key: &str) -> (position: Option<usize>)
    ensures
        match position {
            Some(i) => is_first_key(members_model(members@), key@, i as int),
            None => !has_key(members_model(members@), key@),
        },
{
    let ghost model = members_model(members@);
    let mut index: usize = 0;
    while index < members.len()
        invariant
            index <= members@.len(),
            model == members_model(members@),
            forall|j: int| 0 <= j < index ==> model[j].0 != key@,
        decreases members@.len() - index,
    {
        if same_text(&members[index].0, key) {
            return Some(index);
        }
        index = index + 1;
    }
    None
}

/// The value of the first member named `key`.
pub fn get_member<'a>(members: &'a Vec<(String, Json)>, key: &str) -> (found: Option<&'a Json>)
    ensures
        match found {
            Some(v) => member(members_model(members@), key@) == Some(v@),
            None => member(members_model(members@), key@) is None,
        },
{
    match find_member(members, key) {
        Some(i) => {
            proof {
                lemma_key_position(members_model(members@), key@, i as int);
            }
            Some(&members[i].1)
        },
        None => None,
    }
}

/// `serde_json::Map::insert`: replaces the first member named `key` in
/// place, or appends the member.
pub fn set_member(members: &mut Vec<(String, Json)>, key: &str, value: Json)
    ensures
        members_model(final(members)@) == with_member(members_model(old(members)@), key@, value@),
{
    let ghost before = members_model(members@);
    match find_member(members, key) {
        Some(i) => {
            proof {
                lemma_key_position(before, key@, i as int);
            }
            members.set(i, (key.to_owned(), value));
            assert(members_model(members@) =~= before.update(i as int, (key@, value@)));
        },
        None => {
            members.push((key.to_owned(), value));
            assert(members_model(members@) =~= before.push((key@, value@)));
        },
    }
}

/// A JSON string.
pub fn text_value(text: &str) -> (value: Json)
    ensures
        value@ == JsonSpec::Str(text@),
{
    Json::Str(text.to_owned())
}

/// An object without members.
pub fn object0() -> (object: Json)
    ensures
        object@ == JsonSpec::Object(Seq::empty()),
{
    let members: Vec<(String, Json)> = Vec::new();
    proof {
        lemma_object_model(members);
        assert(members_model(members@) =~= Seq::empty());
    }
    Json::Object(members)
}

/// An object of one member.
pub fn object1(key: &str, value: Json) -> (object: Json)
    ensures
        object@ == JsonSpec::Object(seq![(key@, value@)]),
{
    let ghost v = value@;
    let mut members: Vec<(String, Json)> = Vec::new();
    members.push((key.to_owned(), value));
    proof {
        lemma_object_model(members);
        assert(members_model(members@) =~= seq![(key@, v)]);
    }
    Json::Object(members)
}

/// An object of two members, in order.
pub fn object2(key1: &str, value1: Json, key2: &str, value2: Json) -> (object: Json)
    ensures
        object@ == JsonSpec::Object(seq![(key1@, value1@), (key2@, value2@)]),
{
    let ghost v1 = value1@;
    let ghost v2 = value2@;
    let mut members: Vec<(String, Json)> = Vec::new();
    members.push((key1.to_owned(), value1));
    members.push((key2.to_owned(), value2));
    proof {
        lemma_object_model(members);
        assert(members_model(members@) =~= seq![(key1@, v1), (key2@, v2)]);
    }
    Json::Object(members)
}

/// An object of three members, in order.
pub fn object3(
    key1: &str,
    value1: Json,
    key2: &str,
    value2: Json,
    key3: &str,
    value3: Json,
) -> (object: Json)
    ensures
        object@ == JsonSpec::Object(seq![(key1@, value1@), (key2@, value2@), (key3@, value3@)]),
{
    let ghost v1 = value1@;
    let ghost v2 = value2@;
    let ghost v3 = value3@;
    let mut members: Vec<(String, Json)> = Vec::new();
    members.push((key1.to_owned(), value1));
    members.push((key2.to_owned(), value2));
    members.push((key3.to_owned(), value3));
    proof {
        lemma_object_model(members);
        assert(members_model(members@) =~= seq![(key1@, v1), (key2@, v2), (key3@, v3)]);
    }
    Json::Object(members)
}

/// An object of four members, in order.
pub fn object4(
    key1: &str,
    value1: Json,
    key2: &str,
    value2: Json,
    key3: &str,
    value3: Json,
    key4: &str,
    value4: Json,
) -> (object: Json)
    ensures
        object@ == JsonSpec::Object(
            seq![(key1@, value1@), (key2@, value2@), (key3@, value3@), (key4@, value4@)],
        ),
{
    let ghost v1 = value1@;
    let ghost v2 = value2@;
    let ghost v3 = value3@;
    let ghost v4 = value4@;
    let mut members: Vec<(String, Json)> = Vec::new();
    members.push((key1.to_owned(), value1));
    members.push((key2.to_owned(), value2));
    members.push((key3.to_owned(), value3));
    members.push((key4.to_owned(), value4));
    proof {
        lemma_object_model(members);
        assert(members_model(members@) =~= seq![(key1@, v1), (key2@, v2), (key3@, v3), (key4@, v4)]);
    }
    Json::Object(members)
}

/// A deep copy of a document.
pub fn clone_json(value: &Json) -> (copy: Json)
    ensures
        copy@ == value@,
    decreases value,
{
    match value {
        Json::Null => Json::Null,
        Json::Bool(b) => Json::Bool(*b),
        Json::Number(n) => Json::Number(n.clone()),
        Json::Str(s) => Json::Str(s.clone()),
        Json::Array(items) => {
            let mut copies: Vec<Json> = Vec::new();
            let mut index: usize = 0;
            while index < items.len()
                invariant
                    index <= items@.len(),
                    copies@.len() == index,
                    *value == Json::Array(*items),
                    forall|j: int| 0 <= j < index ==> copies@[j]@ == items@[j]@,
                decreases items@.len() - index,
            {
                assert((*value)->Array_0 == *items);
                assert(decreases_to!(*value => (*value)->Array_0));
                assert(decreases_to!(*items => items@));
                assert(decreases_to!(items@ => items@[index as int]));
                let copy = clone_json(&items[index]);
                copies.push(copy);
                index = index + 1;
            }
            proof {
                lemma_array_model(copies);
                lemma_array_model(*items);
                assert(items_model(copies@) =~= items_model(items@));
            }
            Json::Array(copies)
        },
        Json::Object(members) => {
            let mut copies: Vec<(String, Json)> = Vec::new();
            let mut index: usize = 0;
            while index < members.len()
                invariant
                    index <= members@.len(),
                    copies@.len() == index,
                    *value == Json::Object(*members),
                    forall|j: int|
                        0 <= j < index ==> copies@[j].0@ == members@[j].0@ && copies@[j].1@
                            == members@[j].1@,
                decreases members@.len() - index,
            {
                assert((*value)->Object_0 == *members);
                assert(decreases_to!(*value => (*value)->Object_0));
                assert(decreases_to!(*members => members@));
                assert(decreases_to!(members@ => members@[index as int]));
                assert(decreases_to!(members@[index as int] => members@[index as int].1));
                let copy = clone_json(&members[index].1);
                copies.push((members[index].0.clone(), copy));
                index = index + 1;
            }
            proof {
                lemma_object_model(copies);
                lemma_object_model(*members);
                assert(members_model(copies@) =~= members_model(members@));
            }
            Json::Object(copies)
        },
    }
}


/// What `serde_json::from_str::<serde_json::Value>` gives for a text: the
/// document, or the message of its parse error.
pub uninterp spec fn json_parse(text: Seq<char>) -> Result<JsonSpec, Seq<char>>;

/// What `serde_json::to_string` prints for a document.
pub uninterp spec fn json_text(document: JsonSpec) -> Seq<char>;

/// What `format!("{:?}", text)` prints for a string slice: Rust's quoted and
/// escaped form of it.
pub uninterp spec fn debug_quoted(text: Seq<char>) -> Seq<char>;

/// Moves a `serde_json::Value` into the library's document type, one variant
/// for the other; numbers keep the text that `serde_json` prints for them.
/// Nothing is claimed of it: it serves `parse_json` and
/// `canonical_stdio_server`, whose contracts speak of the whole conversion.
#[verifier::external_body]
pub(crate) fn json_from_value(value: serde_json::Value) -> Json {
    match value {
        serde_json::Value::Null => Json::Null,
        serde_json::Value::Bool(b) => Json::Bool(b),
        serde_json::Value::Number(n) => Json::Number(n.to_string()),
        serde_json::Value::String(s) => Json::Str(s),
        serde_json::Value::Array(items) => Json::Array(items.into_iter().map(json_from_value).collect()),
        serde_json::Value::Object(map) => Json::Object(
            map.into_iter().map(|(key, item)| (key, json_from_value(item))).collect(),
        ),
    }
}

/// Moves a document into a `serde_json::Value`, one variant for the other; a
/// number's text is read back with `str::parse::<serde_json::Number>`.
/// Nothing is claimed of it: it serves `json_to_text`, whose contract names
/// the whole conversion.
#[verifier::external_body]
fn json_to_value(document: &Json) -> serde_json::Value {
    match document {
        Json::Null => serde_json::Value::Null,
        Json::Bool(b) => serde_json::Value::Bool(*b),
        Json::Number(n) => n.parse::<serde_json::Number>().map_or(serde_json::Value::Null, serde_json::Value::Number),
        Json::Str(s) => serde_json::Value::String(s.clone()),
        Json::Array(items) => serde_json::Value::Array(items.iter().map(json_to_value).collect()),
        Json::Object(members) => serde_json::Value::Object(
            members.iter().map(|(key, item)| (key.clone(), json_to_value(item))).collect(),
        ),
    }
}

/// `serde_json::from_str::<serde_json::Value>`: the parsed document, or the
/// text of the parse error. Both are named by `json_parse`.
#[verifier::external_body]
pub(crate) fn parse_json(text: &str) -> (parsed: Result<Json, String>)
    ensures
        match parsed {
            Ok(document) => json_parse(text@) == Ok::<JsonSpec, Seq<char>>(document@),
            Err(message) => json_parse(text@) == Err::<JsonSpec, Seq<char>>(message@),
        },
{
    match serde_json::from_str::<serde_json::Value>(text) {
        Ok(value) => Ok(json_from_value(value)),
        Err(error) => Err(error.to_string()),
    }
}

/// `serde_json::to_string` of a document, named by `json_text`. Printing a
/// `serde_json::Value` into memory does not fail: its map keys are strings.
#[verifier::external_body]
pub(crate) fn json_to_text(document: &Json) -> (text: String)
    ensures
        text@ == json_text(document@),
{
    serde_json::to_string(&json_to_value(document)).unwrap_or_default()
}

/// `format!("{:?}", text)`, named by `debug_quoted`.
#[verifier::external_body]
pub(crate) fn quote_debug(text: &str) -> (quoted: String)
    ensures
        quoted@ == debug_quoted(text@),
{
    format!("{:?}", text)
}

} // verus!
