//! JSON documents as plain data, read and written by `serde_json`.

use crate::text;
use crate::text::{parse_u64, same_text};
use vstd::prelude::*;

verus! {

/// What a JSON document is, as mathematics.
pub enum JsonModel {
    Null,
    Bool(bool),
    Number { unsigned: Option<u64>, signed: Option<i64>, float_bits: Option<u64> },
    Text(Seq<char>),
    Array(Seq<JsonModel>),
    Object(Seq<(Seq<char>, JsonModel)>),
}

/// A JSON document.
///
/// A number keeps its readings: as an unsigned integer, as a signed integer, and as the bits of
/// a 64-bit float. The members of an object stand in the order in which they were handed over.
pub enum Json {
    Null,
    Bool(bool),
    Number { unsigned: Option<u64>, signed: Option<i64>, float_bits: Option<u64> },
    Text(String),
    Array(Vec<Json>),
    Object(Vec<(String, Json)>),
}

impl View for Json {
    type V = JsonModel;

    open spec fn view(&self) -> JsonModel {
        json_view(*self)
    }
}

/// The mathematics of a document.
pub open spec fn json_view(json: Json) -> JsonModel
    decreases json,
{
    match json {
        Json::Null => JsonModel::Null,
        Json::Bool(b) => JsonModel::Bool(b),
        Json::Number { unsigned, signed, float_bits } => JsonModel::Number {
            unsigned,
            signed,
            float_bits,
        },
        Json::Text(text) => JsonModel::Text(text@),
        Json::Array(items) => JsonModel::Array(
            Seq::new(
                items@.len(),
                |i: int|
                    if 0 <= i < items@.len() {
                        json_view(items@[i])
                    } else {
                        JsonModel::Null
                    },
            ),
        ),
        Json::Object(members) => JsonModel::Object(
            Seq::new(
                members@.len(),
                |i: int|
                    if 0 <= i < members@.len() {
                        (members@[i].0@, json_view(members@[i].1))
                    } else {
                        (Seq::empty(), JsonModel::Null)
                    },
            ),
        ),
    }
}

/// Declares `serde_json::Value`, which the library only hands from one trusted call to another.
#[verifier::external_type_specification]
#[verifier::external_body]
pub struct ExValue(serde_json::Value);

/// What a `serde_json::Value` holds.
pub uninterp spec fn value_model(value: serde_json::Value) -> JsonModel;

/// What `serde_json::from_slice` makes of a byte string as a `serde_json::Value`: the document,
/// or nothing where the bytes are not one JSON document.
pub uninterp spec fn parsed_json(raw: Seq<u8>) -> Option<JsonModel>;

/// Calls `serde_json::from_slice` for a `serde_json::Value`. Trusted: whether the bytes are
/// accepted, and what the value then holds, depend on the bytes alone.
#[verifier::external_body]
fn parse_value(raw: &[u8]) -> (r: Option<serde_json::Value>)
    ensures
        match r {
            Some(value) => parsed_json(raw@) == Some(value_model(value)),
            None => parsed_json(raw@) is None,
        },
{
    serde_json::from_slice(raw).ok()
}

/// One level of a `serde_json::Value`.
enum Node<'a> {
    Null,
    Bool(bool),
    Number { unsigned: Option<u64>, signed: Option<i64>, float_bits: Option<u64> },
    Text(&'a String),
    Array(&'a Vec<serde_json::Value>),
    Object(Vec<(&'a String, &'a serde_json::Value)>),
}

/// What one level of a value says that the value holds.
spec fn node_model(node: Node) -> JsonModel {
    match node {
        Node::Null => JsonModel::Null,
        Node::Bool(b) => JsonModel::Bool(b),
        Node::Number { unsigned, signed, float_bits } => JsonModel::Number {
            unsigned,
            signed,
            float_bits,
        },
        Node::Text(text) => JsonModel::Text(text@),
        Node::Array(items) => JsonModel::Array(
            Seq::new(items@.len(), |i: int| value_model(items@[i])),
        ),
        Node::Object(members) => JsonModel::Object(
            Seq::new(members@.len(), |i: int| (members@[i].0@, value_model(*members@[i].1))),
        ),
    }
}

/// Takes one level off a `serde_json::Value`, with `Number::as_u64`, `Number::as_i64`,
/// `Number::as_f64` and `Map::iter`. Trusted: the level shows what the value holds.
#[verifier::external_body]
fn open_value(value: &serde_json::Value) -> (r: Node<'_>)
    ensures
        node_model(r) == value_model(*value),
{
    match value {
        serde_json::Value::Null => Node::Null,
        serde_json::Value::Bool(b) => Node::Bool(*b),
        serde_json::Value::Number(n) => Node::Number {
            unsigned: n.as_u64(),
            signed: n.as_i64(),
            float_bits: n.as_f64().map(|x| x.to_bits()),
        },
        serde_json::Value::String(text) => Node::Text(text),
        serde_json::Value::Array(items) => Node::Array(items),
        serde_json::Value::Object(members) => Node::Object(members.iter().collect()),
    }
}

/// Copies a `serde_json::Value` into plain data.
fn from_value(value: &serde_json::Value) -> (r: Json)
    ensures
        r@ == value_model(*value),
    decreases value_model(*value),
{
    match open_value(value) {
        Node::Null => Json::Null,
        Node::Bool(b) => Json::Bool(b),
        Node::Number { unsigned, signed, float_bits } => Json::Number {
            unsigned,
            signed,
            float_bits,
        },
        Node::Text(text) => Json::Text(text.clone()),
        Node::Array(items) => {
            let ghost models = value_model(*value)->Array_0;
            let mut copies: Vec<Json> = Vec::new();
            let mut i: usize = 0;
            while i < items.len()
                invariant
                    i <= items.len(),
                    value_model(*value) == JsonModel::Array(models),
                    models == Seq::new(items@.len(), |k: int| value_model(items@[k])),
                    copies.len() == i,
                    forall|k: int| 0 <= k < i ==> json_view(#[trigger] copies@[k]) == models[k],
                decreases items.len() - i,
            {
                assert(models[i as int] == value_model(items@[i as int]));
                assert(decreases_to!(value_model(*value) => value_model(*value)->Array_0[i as int]));
                let copy = from_value(&items[i]);
                copies.push(copy);
                i += 1;
            }
            let r = Json::Array(copies);
            assert(r@->Array_0 =~= models);
            r
        },
        Node::Object(members) => {
            let ghost models = value_model(*value)->Object_0;
            let mut copies: Vec<(String, Json)> = Vec::new();
            let mut i: usize = 0;
            while i < members.len()
                invariant
                    i <= members.len(),
                    value_model(*value) == JsonModel::Object(models),
                    models == Seq::new(
                        members@.len(),
                        |k: int| (members@[k].0@, value_model(*members@[k].1)),
                    ),
                    copies.len() == i,
                    forall|k: int|
                        #![trigger copies@[k]]
                        0 <= k < i ==> copies@[k].0@ == models[k].0 && json_view(copies@[k].1)
                            == models[k].1,
                decreases members.len() - i,
            {
                assert(models[i as int].1 == value_model(*members@[i as int].1));
                assert(decreases_to!(value_model(*value) => value_model(*value)->Object_0[i as int].1));
                let copy = from_value(members[i].1);
                copies.push((members[i].0.clone(), copy));
                i += 1;
            }
            let r = Json::Object(copies);
            assert(r@->Object_0 =~= models);
            r
        },
    }
}

/// Reads a byte string as one JSON document.
pub fn parse_json(raw: &[u8]) -> (r: Option<Json>)
    ensures
        match r {
            Some(json) => parsed_json(raw@) == Some(json@),
            None => parsed_json(raw@) is None,
        },
{
    match parse_value(raw) {
        Some(value) => Some(from_value(&value)),
        None => None,
    }
}

/// The first member of that name.
pub open spec fn member_in(members: Seq<(Seq<char>, JsonModel)>, key: Seq<char>) -> Option<
    JsonModel,
>
    decreases members.len(),
{
    if members.len() == 0 {
        None
    } else if members[0].0 == key {
        Some(members[0].1)
    } else {
        member_in(members.drop_first(), key)
    }
}

/// The member of that name, where the document is an object and has one.
pub open spec fn member(json: JsonModel, key: Seq<char>) -> Option<JsonModel> {
    match json {
        JsonModel::Object(members) => member_in(members, key),
        _ => None,
    }
}

/// Where the member of that name stands.
fn position(members: &Vec<(String, Json)>, key: &str) -> (r: Option<usize>)
    ensures
        match r {
            Some(i) => i < members.len() && member(json_view(Json::Object(*members)), key@) == Some(
                members@[i as int].1@,
            ),
            None => member(json_view(Json::Object(*members)), key@) is None,
        },
{
    let ghost models = json_view(Json::Object(*members))->Object_0;
    let mut i: usize = 0;
    assert(models.skip(0) =~= models);
    while i < members.len()
        invariant
            i <= members.len(),
            models == json_view(Json::Object(*members))->Object_0,
            member_in(models, key@) == member_in(models.skip(i as int), key@),
        decreases members.len() - i,
    {
        assert(models[i as int] == (members@[i as int].0@, json_view(members@[i as int].1)));
        assert(models.skip(i as int)[0] == models[i as int]);
        if same_text(members[i].0.as_str(), key) {
            return Some(i);
        }
        assert(models.skip(i as int).drop_first() =~= models.skip(i + 1));
        i += 1;
    }
    None
}

impl Json {
    /// The member of that name, where the document is an object and has one.
    pub fn get(&self, key: &str) -> (r: Option<&Json>)
        ensures
            match r {
                Some(json) => member(self@, key@) == Some(json@),
                None => member(self@, key@) is None,
            },
    {
        match self {
            Json::Object(members) => match position(members, key) {
                Some(i) => Some(&members[i].1),
                None => None,
            },
            _ => None,
        }
    }

    /// The member of that name, taken out of the document.
    pub fn into_member(self, key: &str) -> (r: Option<Json>)
        ensures
            match r {
                Some(json) => member(self@, key@) == Some(json@),
                None => member(self@, key@) is None,
            },
    {
        match self {
            Json::Object(mut members) => match position(&members, key) {
                Some(i) => Some(members.swap_remove(i).1),
                None => None,
            },
            _ => None,
        }
    }

    /// The text, where the document is one.
    pub fn as_str(&self) -> (r: Option<&str>)
        ensures
            match r {
                Some(text) => self@ == JsonModel::Text(text@),
                None => self@ !is Text,
            },
    {
        match self {
            Json::Text(text) => Some(text.as_str()),
            _ => None,
        }
    }
}

/// What a document says as an unsigned 64-bit integer: a number that is one, or a text that
/// writes one.
pub open spec fn u64_reading(json: JsonModel) -> Option<u64> {
    match json {
        JsonModel::Number { unsigned: Some(n), .. } => Some(n),
        JsonModel::Number { unsigned: None, signed: Some(n), .. } => if n >= 0 {
            Some(n as u64)
        } else {
            None
        },
        JsonModel::Text(text) => text::parsed_u64(text),
        _ => None,
    }
}

/// Reads an unsigned 64-bit integer off a number or a text.
pub fn json_to_u64(value: &Json) -> (r: Option<u64>)
    ensures
        r == u64_reading(value@),
{
    match value {
        Json::Number { unsigned: Some(n), .. } => Some(*n),
        Json::Number { unsigned: None, signed: Some(n), .. } => if *n >= 0 {
            Some(*n as u64)
        } else {
            None
        },
        Json::Text(text) => parse_u64(text.as_str()),
        _ => None,
    }
}

/// Where the value of a 64-bit float is to be had from, as mathematics.
pub enum FloatModel {
    Bits(u64),
    Unsigned(u64),
    Signed(i64),
    Text(Seq<char>),
}

/// Where the value of a 64-bit float is to be had from: its bits are known, an integer is to be
/// converted, or a text is to be parsed.
pub enum FloatSource {
    Bits(u64),
    Unsigned(u64),
    Signed(i64),
    Text(String),
}

impl View for FloatSource {
    type V = FloatModel;

    open spec fn view(&self) -> FloatModel {
        match *self {
            FloatSource::Bits(bits) => FloatModel::Bits(bits),
            FloatSource::Unsigned(n) => FloatModel::Unsigned(n),
            FloatSource::Signed(n) => FloatModel::Signed(n),
            FloatSource::Text(text) => FloatModel::Text(text@),
        }
    }
}

/// Where a document takes the value of a 64-bit float from: the reading of a number as a float,
/// else as an unsigned, else as a signed integer, else a text.
pub open spec fn f64_reading(json: JsonModel) -> Option<FloatModel> {
    match json {
        JsonModel::Number { float_bits: Some(bits), .. } => Some(FloatModel::Bits(bits)),
        JsonModel::Number { float_bits: None, unsigned: Some(n), .. } => Some(
            FloatModel::Unsigned(n),
        ),
        JsonModel::Number { float_bits: None, unsigned: None, signed: Some(n) } => Some(
            FloatModel::Signed(n),
        ),
        JsonModel::Text(text) => Some(FloatModel::Text(text)),
        _ => None,
    }
}

/// Finds where a document takes the value of a 64-bit float from.
pub fn json_to_f64(value: &Json) -> (r: Option<FloatSource>)
    ensures
        match r {
            Some(source) => f64_reading(value@) == Some(source@),
            None => f64_reading(value@) is None,
        },
{
    match value {
        Json::Number { float_bits: Some(bits), .. } => Some(FloatSource::Bits(*bits)),
        Json::Number { float_bits: None, unsigned: Some(n), .. } => Some(
            FloatSource::Unsigned(*n),
        ),
        Json::Number { float_bits: None, unsigned: None, signed: Some(n) } => Some(
            FloatSource::Signed(*n),
        ),
        Json::Text(text) => Some(FloatSource::Text(text.clone())),
        _ => None,
    }
}

/// The value of one member of an object that is to be written, as mathematics.
pub enum FieldModel {
    Unsigned(u64),
    Text(Seq<char>),
    Texts(Seq<Seq<char>>),
}

/// The value of one member of an object that is to be written.
pub enum Field {
    Unsigned(u64),
    Text(String),
    Texts(Vec<String>),
}

impl View for Field {
    type V = FieldModel;

    open spec fn view(&self) -> FieldModel {
        match *self {
            Field::Unsigned(n) => FieldModel::Unsigned(n),
            Field::Text(text) => FieldModel::Text(text@),
            Field::Texts(texts) => FieldModel::Texts(texts@.map_values(|text: String| text@)),
        }
    }
}

/// The compact JSON text of an object with those members, as `serde_json::Value` displays it.
pub uninterp spec fn object_json(members: Seq<(Seq<char>, FieldModel)>) -> Seq<char>;

/// Whether a text stands in JSON as it is: without control characters, quotes and backslashes.
pub open spec fn is_plain(s: Seq<char>) -> bool {
    forall|i: int|
        #![trigger s[i]]
        0 <= i < s.len() ==> s[i] as int >= 32 && s[i] as int != 34 && s[i] as int != 92
}

/// Whether all texts in a member stand in JSON as they are.
pub open spec fn is_plain_member(member: (Seq<char>, FieldModel)) -> bool {
    is_plain(member.0) && match member.1 {
        FieldModel::Unsigned(_) => true,
        FieldModel::Text(text) => is_plain(text),
        FieldModel::Texts(texts) => forall|i: int|
            0 <= i < texts.len() ==> is_plain(#[trigger] texts[i]),
    }
}

/// Whether each key begins with a greater character than the keys before it, so that the keys
/// stand in ascending order.
pub open spec fn keys_ascend(members: Seq<(Seq<char>, FieldModel)>) -> bool {
    forall|i: int, j: int|
        #![trigger members[i], members[j]]
        0 <= i < j < members.len() ==> members[i].0.len() > 0 && members[j].0.len() > 0
            && members[i].0[0] < members[j].0[0]
}

/// A text between quotes.
pub open spec fn quoted(s: Seq<char>) -> Seq<char> {
    "\""@ + s + "\""@
}

/// Texts with commas between them.
pub open spec fn comma_joined(parts: Seq<Seq<char>>) -> Seq<char>
    decreases parts.len(),
{
    if parts.len() == 0 {
        Seq::empty()
    } else if parts.len() == 1 {
        parts[0]
    } else {
        comma_joined(parts.drop_last()) + ","@ + parts.last()
    }
}

/// The JSON text of a member whose texts stand as they are.
pub open spec fn plain_member_json(member: (Seq<char>, FieldModel)) -> Seq<char> {
    quoted(member.0) + ":"@ + match member.1 {
        FieldModel::Unsigned(n) => text::decimal(n as nat),
        FieldModel::Text(text) => quoted(text),
        FieldModel::Texts(texts) => "["@ + comma_joined(
            texts.map_values(|text: Seq<char>| quoted(text)),
        ) + "]"@,
    }
}

/// The JSON text of an object whose texts stand as they are and whose keys ascend.
pub open spec fn plain_object_json(members: Seq<(Seq<char>, FieldModel)>) -> Seq<char> {
    "{"@ + comma_joined(
        members.map_values(|member: (Seq<char>, FieldModel)| plain_member_json(member)),
    ) + "}"@
}

/// The mathematics of some members.
pub open spec fn members_view(members: Seq<(String, Field)>) -> Seq<(Seq<char>, FieldModel)> {
    members.map_values(|member: (String, Field)| (member.0@, member.1@))
}

/// Builds a `serde_json::Value::Object` of the members and calls its `to_string`. Trusted: the
/// text depends on the members alone; where nothing needs an escape and the keys ascend, it is
/// `plain_object_json`, without whitespace between the parts.
#[verifier::external_body]
pub(crate) fn object_text(members: Vec<(String, Field)>) -> (r: String)
    ensures
        r@ == object_json(members_view(members@)),
        (forall|i: int|
            0 <= i < members@.len() ==> is_plain_member(#[trigger] members_view(members@)[i]))
            && keys_ascend(members_view(members@)) ==> r@ == plain_object_json(
            members_view(members@),
        ),
{
    let object = members.into_iter().map(
        |(key, field)|
            match field {
                Field::Unsigned(n) => (key, serde_json::Value::from(n)),
                Field::Text(text) => (key, serde_json::Value::from(text)),
                Field::Texts(texts) => (key, serde_json::Value::from(texts)),
            },
    ).collect();
    serde_json::Value::Object(object).to_string()
}

/// A member is found by its name: the value that stands with the name, at its first place in the
/// object, and none where the name does not stand there. Nothing else has members.
pub proof fn law_member_is_found_by_name(
    members: Seq<(Seq<char>, JsonModel)>,
    key: Seq<char>,
    i: int,
    other: JsonModel,
)
    ensures
        0 <= i < members.len() && members[i].0 == key && (forall|k: int|
            0 <= k < i ==> (#[trigger] members[k]).0 != key) ==> member(
            JsonModel::Object(members),
            key,
        ) == Some(members[i].1),
        (forall|k: int| 0 <= k < members.len() ==> (#[trigger] members[k]).0 != key) ==> member(
            JsonModel::Object(members),
            key,
        ) is None,
        !(other is Object) ==> member(other, key) is None,
    decreases members.len(),
{
    if members.len() > 0 {
        let rest = members.drop_first();
        law_member_is_found_by_name(rest, key, i - 1, other);
        if members[0].0 != key {
            if 0 <= i < members.len() && members[i].0 == key && (forall|k: int|
                0 <= k < i ==> (#[trigger] members[k]).0 != key) {
                assert forall|k: int| 0 <= k < i - 1 implies (#[trigger] rest[k]).0 != key by {
                    assert(rest[k] == members[k + 1]);
                }
                assert(rest[i - 1] == members[i]);
            }
            if forall|k: int| 0 <= k < members.len() ==> (#[trigger] members[k]).0 != key {
                assert forall|k: int| 0 <= k < rest.len() implies (#[trigger] rest[k]).0 != key by {
                    assert(rest[k] == members[k + 1]);
                }
            }
        }
    }
}

/// Every unsigned 64-bit number is read as it is: off a number that is one, off a signed number
/// that is not negative, and off its decimal text. A negative number, a number that is no whole
/// one, and anything that is neither number nor text has no reading.
pub proof fn law_unsigned_numbers_are_read_as_they_are(
    n: u64,
    signed: Option<i64>,
    float_bits: Option<u64>,
    negative: i64,
    text: Seq<char>,
)
    requires
        negative < 0,
    ensures
        u64_reading(JsonModel::Number { unsigned: Some(n), signed, float_bits }) == Some(n),
        n <= i64::MAX ==> u64_reading(
            JsonModel::Number { unsigned: None, signed: Some(n as i64), float_bits },
        ) == Some(n),
        u64_reading(JsonModel::Text(text::decimal(n as nat))) == Some(n),
        u64_reading(JsonModel::Text(text)) == text::parsed_u64(text),
        u64_reading(JsonModel::Number { unsigned: None, signed: Some(negative), float_bits }) is None,
        u64_reading(JsonModel::Number { unsigned: None, signed: None, float_bits }) is None,
        u64_reading(JsonModel::Null) is None,
        forall|b: bool| (#[trigger] u64_reading(JsonModel::Bool(b))) is None,
        forall|items: Seq<JsonModel>| (#[trigger] u64_reading(JsonModel::Array(items))) is None,
        forall|members: Seq<(Seq<char>, JsonModel)>|
            (#[trigger] u64_reading(JsonModel::Object(members))) is None,
{
    text::law_decimal_round_trip(n);
}

/// A float is had from the bits of a number that has them, else from its unsigned, else from its
/// signed value, unchanged, and from the whole of a text. Nothing else gives one.
pub proof fn law_floats_have_one_source(
    bits: u64,
    unsigned: Option<u64>,
    signed: Option<i64>,
    text: Seq<char>,
)
    ensures
        f64_reading(JsonModel::Number { unsigned, signed, float_bits: Some(bits) }) == Some(
            FloatModel::Bits(bits),
        ),
        unsigned is Some ==> f64_reading(
            JsonModel::Number { unsigned, signed, float_bits: None },
        ) == Some(FloatModel::Unsigned(unsigned->0)),
        signed is Some ==> f64_reading(
            JsonModel::Number { unsigned: None, signed, float_bits: None },
        ) == Some(FloatModel::Signed(signed->0)),
        f64_reading(JsonModel::Number { unsigned: None, signed: None, float_bits: None }) is None,
        f64_reading(JsonModel::Text(text)) == Some(FloatModel::Text(text)),
        f64_reading(JsonModel::Null) is None,
        forall|b: bool| (#[trigger] f64_reading(JsonModel::Bool(b))) is None,
        forall|items: Seq<JsonModel>| (#[trigger] f64_reading(JsonModel::Array(items))) is None,
        forall|members: Seq<(Seq<char>, JsonModel)>|
            (#[trigger] f64_reading(JsonModel::Object(members))) is None,
{
}

} // verus!
