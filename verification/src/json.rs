//! JSON documents as plain values.
//!
//! `serde_json` reads and writes the documents; a [`Json`] holds what was read, and the
//! rules of the library are stated on its model.

use crate::json_text::{json_pretty, json_written, quoted};
use crate::text::{before, same};
use vstd::prelude::*;

verus! {

/// What a JSON document holds.
///
/// A number is a non-negative integer, a negative integer, or a double, which stands here
/// by the 64 bits of its IEEE 754 form. An object lists its members in the order in which
/// they are walked.
pub enum JsonModel {
    Null,
    Bool(bool),
    Unsigned(u64),
    Negative(i64),
    Float(u64),
    Text(Seq<char>),
    Array(Seq<JsonModel>),
    Object(Seq<(Seq<char>, JsonModel)>),
}

/// The first member of that name.
pub open spec fn lookup(members: Seq<(Seq<char>, JsonModel)>, key: Seq<char>) -> Option<JsonModel>
    decreases members.len(),
{
    if members.len() == 0 {
        None
    } else if members[0].0 == key {
        Some(members[0].1)
    } else {
        lookup(members.skip(1), key)
    }
}

impl JsonModel {
    /// The member of that name, of an object that has it.
    pub open spec fn member(self, key: Seq<char>) -> Option<JsonModel> {
        match self {
            JsonModel::Object(members) => lookup(members, key),
            _ => None,
        }
    }

    /// The text, of a text.
    pub open spec fn text(self) -> Option<Seq<char>> {
        match self {
            JsonModel::Text(text) => Some(text),
            _ => None,
        }
    }

    /// The number, of a non-negative integer.
    pub open spec fn unsigned(self) -> Option<u64> {
        match self {
            JsonModel::Unsigned(n) => Some(n),
            _ => None,
        }
    }

    /// The truth value, of one.
    pub open spec fn truth(self) -> Option<bool> {
        match self {
            JsonModel::Bool(b) => Some(b),
            _ => None,
        }
    }

    /// The items, of an array.
    pub open spec fn items(self) -> Option<Seq<JsonModel>> {
        match self {
            JsonModel::Array(items) => Some(items),
            _ => None,
        }
    }

    /// The member of that name, where it is a text.
    pub open spec fn text_member(self, key: Seq<char>) -> Option<Seq<char>> {
        match self.member(key) {
            Some(value) => value.text(),
            None => None,
        }
    }

    /// The member of that name, where it is a non-negative integer.
    pub open spec fn unsigned_member(self, key: Seq<char>) -> Option<u64> {
        match self.member(key) {
            Some(value) => value.unsigned(),
            None => None,
        }
    }
}

/// A JSON document.
#[derive(Debug)]
pub enum Json {
    Null,
    Bool(bool),
    Unsigned(u64),
    Negative(i64),
    /// The bits of a double.
    Float(u64),
    Text(String),
    Array(Vec<Json>),
    Object(Vec<(String, Json)>),
}

/// The models of a list of documents.
pub open spec fn models(items: Seq<Json>) -> Seq<JsonModel> {
    Seq::new(items.len(), |i: int| items[i]@)
}

impl Json {
    /// The document without its representation.
    pub open spec fn model(self) -> JsonModel
        decreases self,
    {
        match self {
            Json::Null => JsonModel::Null,
            Json::Bool(b) => JsonModel::Bool(b),
            Json::Unsigned(n) => JsonModel::Unsigned(n),
            Json::Negative(n) => JsonModel::Negative(n),
            Json::Float(bits) => JsonModel::Float(bits),
            Json::Text(text) => JsonModel::Text(text@),
            Json::Array(items) => JsonModel::Array(
                Seq::new(
                    items@.len(),
                    |i: int|
                        if 0 <= i < items@.len() {
                            items@[i].model()
                        } else {
                            arbitrary()
                        },
                ),
            ),
            Json::Object(members) => JsonModel::Object(
                Seq::new(
                    members@.len(),
                    |i: int|
                        if 0 <= i < members@.len() {
                            (members@[i].0@, members@[i].1.model())
                        } else {
                            arbitrary()
                        },
                ),
            ),
        }
    }
}

impl View for Json {
    type V = JsonModel;

    open spec fn view(&self) -> JsonModel {
        self.model()
    }
}

/// The model of an array is the list of its items' models.
pub proof fn array_model(items: Vec<Json>)
    ensures
        Json::Array(items)@ == JsonModel::Array(models(items@)),
{
    reveal_with_fuel(Json::model, 2);
    assert(Json::Array(items)@->Array_0 =~= models(items@));
}

/// The models of the members of an object.
pub open spec fn member_models(members: Seq<(String, Json)>) -> Seq<(Seq<char>, JsonModel)> {
    Seq::new(members.len(), |i: int| (members[i].0@, members[i].1@))
}

/// The model of an object is the list of its members' names and models.
pub proof fn object_model(members: Vec<(String, Json)>)
    ensures
        Json::Object(members)@ == JsonModel::Object(member_models(members@)),
{
    reveal_with_fuel(Json::model, 2);
    assert(Json::Object(members)@->Object_0 =~= member_models(members@));
}

/// A JSON value as `serde_json` holds it.
#[verifier::external_type_specification]
#[verifier::external_body]
pub struct ExValue(serde_json::Value);

/// What a `serde_json::Value` holds.
pub uninterp spec fn json_contents(value: serde_json::Value) -> JsonModel;

/// What `serde_json::from_slice` reads from a document: the value, or the text of the error.
pub uninterp spec fn json_read(bytes: Seq<u8>) -> Result<JsonModel, Seq<char>>;

/// The outermost level of a `serde_json::Value`.
enum Layer<'a> {
    Null,
    Bool(bool),
    Unsigned(u64),
    Negative(i64),
    Float(u64),
    Text(&'a str),
    Array(Vec<&'a serde_json::Value>),
    Object(Vec<(&'a String, &'a serde_json::Value)>),
}

impl<'a> Layer<'a> {
    spec fn model(self) -> JsonModel {
        match self {
            Layer::Null => JsonModel::Null,
            Layer::Bool(b) => JsonModel::Bool(b),
            Layer::Unsigned(n) => JsonModel::Unsigned(n),
            Layer::Negative(n) => JsonModel::Negative(n),
            Layer::Float(bits) => JsonModel::Float(bits),
            Layer::Text(text) => JsonModel::Text(text@),
            Layer::Array(items) => JsonModel::Array(
                Seq::new(items@.len(), |i: int| json_contents(*items@[i])),
            ),
            Layer::Object(members) => JsonModel::Object(
                Seq::new(members@.len(), |i: int| (members@[i].0@, json_contents(*members@[i].1))),
            ),
        }
    }
}

/// `serde_json::from_slice` into a `serde_json::Value`: what comes back is a function of the
/// bytes, [`json_read`].
#[verifier::external_body]
fn read_value(bytes: &[u8]) -> (r: Result<serde_json::Value, String>)
    ensures
        match r {
            Ok(value) => json_read(bytes@) == Ok::<JsonModel, Seq<char>>(json_contents(value)),
            Err(text) => json_read(bytes@) == Err::<JsonModel, Seq<char>>(text@),
        },
{
    serde_json::from_slice(bytes).map_err(|error: serde_json::Error| error.to_string())
}

/// Opens one level of a `serde_json::Value`: the variant and its fields, a number by what
/// `Number::as_u64`, `as_i64` and `as_f64` give, the members of an object in the order in
/// which `serde_json::Map` walks them.
#[verifier::external_body]
fn open_value<'a>(value: &'a serde_json::Value) -> (layer: Layer<'a>)
    ensures
        layer.model() == json_contents(*value),
{
    match value {
        serde_json::Value::Null => Layer::Null,
        serde_json::Value::Bool(b) => Layer::Bool(*b),
        serde_json::Value::Number(n) => match (n.as_u64(), n.as_i64(), n.as_f64()) {
            (Some(unsigned), _, _) => Layer::Unsigned(unsigned),
            (None, Some(negative), _) => Layer::Negative(negative),
            (None, None, double) => Layer::Float(double.map_or(0, |x| x.to_bits())),
        },
        serde_json::Value::String(text) => Layer::Text(text),
        serde_json::Value::Array(items) => Layer::Array(items.iter().collect()),
        serde_json::Value::Object(members) => Layer::Object(members.iter().collect()),
    }
}

/// A `serde_json::Value` as a [`Json`].
fn from_value(value: &serde_json::Value) -> (json: Json)
    ensures
        json@ == json_contents(*value),
    decreases json_contents(*value),
{
    match open_value(value) {
        Layer::Null => Json::Null,
        Layer::Bool(b) => Json::Bool(b),
        Layer::Unsigned(n) => Json::Unsigned(n),
        Layer::Negative(n) => Json::Negative(n),
        Layer::Float(bits) => Json::Float(bits),
        Layer::Text(text) => Json::Text(text.to_owned()),
        Layer::Array(items) => {
            let ghost whole = json_contents(*value)->Array_0;
            let mut list: Vec<Json> = Vec::new();
            let mut i: usize = 0;
            while i < items.len()
                invariant
                    i <= items@.len(),
                    list@.len() == i,
                    json_contents(*value) == JsonModel::Array(whole),
                    whole.len() == items@.len(),
                    forall|j: int| 0 <= j < items@.len() ==> whole[j] == json_contents(
                        *#[trigger] items@[j],
                    ),
                    forall|j: int| 0 <= j < i ==> #[trigger] list@[j]@ == whole[j],
                decreases items@.len() - i,
            {
                assert(whole[i as int] == json_contents(*items@[i as int]));
                assert(decreases_to!(json_contents(*value) => json_contents(*value)->Array_0[i as int]));
                list.push(from_value(items[i]));
                i += 1;
            }
            proof {
                array_model(list);
            }
            assert(models(list@) =~= whole);
            Json::Array(list)
        },
        Layer::Object(members) => {
            let ghost whole = json_contents(*value)->Object_0;
            let mut list: Vec<(String, Json)> = Vec::new();
            let mut i: usize = 0;
            while i < members.len()
                invariant
                    i <= members@.len(),
                    list@.len() == i,
                    json_contents(*value) == JsonModel::Object(whole),
                    whole.len() == members@.len(),
                    forall|j: int| 0 <= j < members@.len() ==> whole[j] == (
                        (#[trigger] members@[j]).0@,
                        json_contents(*members@[j].1),
                    ),
                    forall|j: int| 0 <= j < i ==> (#[trigger] list@[j]).0@ == whole[j].0
                        && list@[j].1@ == whole[j].1,
                decreases members@.len() - i,
            {
                let member = members[i];
                assert(whole[i as int].1 == json_contents(*member.1));
                assert(decreases_to!(json_contents(*value) => json_contents(*value)->Object_0[i as int].1));
                list.push((member.0.clone(), from_value(member.1)));
                i += 1;
            }
            proof {
                object_model(list);
            }
            assert(member_models(list@) =~= whole);
            Json::Object(list)
        },
    }
}

/// Reads a JSON document.
pub fn read_json(bytes: &[u8]) -> (r: Result<Json, String>)
    ensures
        match r {
            Ok(json) => json_read(bytes@) == Ok::<JsonModel, Seq<char>>(json@),
            Err(text) => json_read(bytes@) == Err::<JsonModel, Seq<char>>(text@),
        },
{
    match read_value(bytes) {
        Ok(value) => Ok(from_value(&value)),
        Err(text) => Err(text),
    }
}

/// Whether the names of an object's members are in ascending order, each once.
pub open spec fn ascending(members: Seq<(Seq<char>, JsonModel)>) -> bool {
    forall|i: int, j: int|
        0 <= i < j < members.len() ==> before(#[trigger] members[i].0, #[trigger] members[j].0)
}

/// The documents that this library writes: no numbers but non-negative integers, no arrays, and
/// objects with their members in the order in which `serde_json` keeps them.
pub open spec fn writable(document: JsonModel) -> bool
    decreases document,
{
    match document {
        JsonModel::Null => true,
        JsonModel::Bool(_) => true,
        JsonModel::Unsigned(_) => true,
        JsonModel::Text(_) => true,
        JsonModel::Object(members) => ascending(members) && forall|i: int|
            0 <= i < members.len() ==> writable((#[trigger] members[i]).1),
        _ => false,
    }
}

/// The outermost level of a `serde_json::Value` to be made.
enum Draft {
    Null,
    Bool(bool),
    Unsigned(u64),
    Text(String),
    Object(Vec<(String, serde_json::Value)>),
}

impl Draft {
    spec fn model(self) -> JsonModel {
        match self {
            Draft::Null => JsonModel::Null,
            Draft::Bool(b) => JsonModel::Bool(b),
            Draft::Unsigned(n) => JsonModel::Unsigned(n),
            Draft::Text(text) => JsonModel::Text(text@),
            Draft::Object(members) => JsonModel::Object(
                Seq::new(members@.len(), |i: int| (members@[i].0@, json_contents(members@[i].1))),
            ),
        }
    }
}

/// Makes one level of a `serde_json::Value`. An object comes from its members by
/// `serde_json::Map`'s `FromIterator`; the map keeps its members in ascending order of their
/// names, so members that come in that order, each name once, stay as they are.
#[verifier::external_body]
fn make_value(draft: Draft) -> (value: serde_json::Value)
    requires
        draft is Object ==> ascending(draft.model()->Object_0),
    ensures
        json_contents(value) == draft.model(),
{
    match draft {
        Draft::Null => serde_json::Value::Null,
        Draft::Bool(b) => serde_json::Value::Bool(b),
        Draft::Unsigned(n) => serde_json::Value::Number(n.into()),
        Draft::Text(text) => serde_json::Value::String(text),
        Draft::Object(members) => serde_json::Value::Object(members.into_iter().collect()),
    }
}

/// `serde_json::to_string` of a `serde_json::Value`, whose names are texts, so that writing it
/// does not fail. Of the documents that this library writes the text is [`json_written`]: no
/// white space, numbers in base 10, and in texts only quotes, backslashes and the control
/// characters below a space escaped.
#[verifier::external_body]
fn write_value(value: &serde_json::Value) -> (text: String)
    requires
        writable(json_contents(*value)),
    ensures
        text@ == json_written(json_contents(*value)),
{
    serde_json::to_string(value).unwrap()
}

/// `serde_json::to_vec_pretty` of a `serde_json::Value`, whose names are texts, so that writing
/// it does not fail. Of the documents that this library writes the bytes are [`json_pretty`]:
/// each member on a line of its own, indented by two spaces for each level.
#[verifier::external_body]
fn write_pretty_value(value: &serde_json::Value) -> (bytes: Vec<u8>)
    requires
        writable(json_contents(*value)),
    ensures
        bytes@ == json_pretty(json_contents(*value)),
{
    serde_json::to_vec_pretty(value).unwrap()
}

/// A [`Json`] as a `serde_json::Value`.
fn to_value(json: &Json) -> (value: serde_json::Value)
    requires
        writable(json@),
    ensures
        json_contents(value) == json@,
    decreases json@,
{
    match json {
        Json::Bool(b) => make_value(Draft::Bool(*b)),
        Json::Unsigned(n) => make_value(Draft::Unsigned(*n)),
        Json::Text(text) => make_value(Draft::Text(text.clone())),
        Json::Object(members) => {
            proof {
                object_model(*members);
            }
            let ghost whole = member_models(members@);
            let mut list: Vec<(String, serde_json::Value)> = Vec::new();
            let mut i: usize = 0;
            while i < members.len()
                invariant
                    i <= members@.len(),
                    list@.len() == i,
                    json@ == JsonModel::Object(whole),
                    whole == member_models(members@),
                    forall|j: int| 0 <= j < whole.len() ==> writable((#[trigger] whole[j]).1),
                    forall|j: int| 0 <= j < i ==> (#[trigger] list@[j]).0@ == whole[j].0
                        && json_contents(list@[j].1) == whole[j].1,
                decreases members@.len() - i,
            {
                assert(writable(whole[i as int].1));
                assert(decreases_to!(json@ => json@->Object_0[i as int].1));
                let value = to_value(&members[i].1);
                list.push((members[i].0.clone(), value));
                i += 1;
            }
            assert(Draft::Object(list).model()->Object_0 =~= whole);
            make_value(Draft::Object(list))
        },
        _ => make_value(Draft::Null),
    }
}

/// Writes a JSON document.
pub fn write_json(json: &Json) -> (text: String)
    requires
        writable(json@),
    ensures
        text@ == json_written(json@),
{
    write_value(&to_value(json))
}

/// Writes a JSON document with line breaks and indentation.
pub fn write_json_pretty(json: &Json) -> (bytes: Vec<u8>)
    requires
        writable(json@),
    ensures
        bytes@ == json_pretty(json@),
{
    write_pretty_value(&to_value(json))
}

/// Writes a text as a JSON string literal.
pub fn quote(text: &str) -> (r: String)
    ensures
        r@ == quoted(text@),
{
    write_value(&make_value(Draft::Text(text.to_owned())))
}

impl Json {
    /// The member of that name, of an object that has it.
    pub fn get(&self, key: &str) -> (r: Option<&Json>)
        ensures
            match r {
                Some(value) => self@.member(key@) == Some(value@),
                None => self@.member(key@) is None,
            },
    {
        match self {
            Json::Object(members) => {
                let ghost whole = member_models(members@);
                proof {
                    object_model(*members);
                }
                let mut i: usize = 0;
                assert(whole.skip(0) =~= whole);
                while i < members.len()
                    invariant
                        i <= members@.len(),
                        self@ == JsonModel::Object(whole),
                        whole.len() == members@.len(),
                        forall|j: int| 0 <= j < members@.len() ==> whole[j] == (
                            (#[trigger] members@[j]).0@,
                            members@[j].1@,
                        ),
                        self@.member(key@) == lookup(whole.skip(i as int), key@),
                    decreases members@.len() - i,
                {
                    assert(whole.skip(i as int)[0] == whole[i as int]);
                    assert(whole.skip(i as int).skip(1) =~= whole.skip(i + 1));
                    if same(&members[i].0, key) {
                        return Some(&members[i].1);
                    }
                    i += 1;
                }
                None
            },
            _ => None,
        }
    }

    /// The text, of a text.
    pub fn as_text(&self) -> (r: Option<&str>)
        ensures
            match r {
                Some(text) => self@.text() == Some(text@),
                None => self@.text() is None,
            },
    {
        match self {
            Json::Text(text) => Some(text.as_str()),
            _ => None,
        }
    }

    /// The number, of a non-negative integer.
    pub fn as_unsigned(&self) -> (r: Option<u64>)
        ensures
            r == self@.unsigned(),
    {
        match self {
            Json::Unsigned(n) => Some(*n),
            _ => None,
        }
    }

    /// The truth value, of one.
    pub fn as_truth(&self) -> (r: Option<bool>)
        ensures
            r == self@.truth(),
    {
        match self {
            Json::Bool(b) => Some(*b),
            _ => None,
        }
    }

    /// The items, of an array.
    pub fn as_items(&self) -> (r: Option<&Vec<Json>>)
        ensures
            match r {
                Some(items) => self@.items() == Some(models(items@)),
                None => self@.items() is None,
            },
    {
        match self {
            Json::Array(items) => {
                proof {
                    array_model(*items);
                }
                Some(items)
            },
            _ => None,
        }
    }

    /// The member of that name, where it is a text.
    pub fn text_at(&self, key: &str) -> (r: Option<&str>)
        ensures
            match r {
                Some(text) => self@.text_member(key@) == Some(text@),
                None => self@.text_member(key@) is None,
            },
    {
        match self.get(key) {
            Some(value) => value.as_text(),
            None => None,
        }
    }

    /// The member of that name, where it is a non-negative integer.
    pub fn unsigned_at(&self, key: &str) -> (r: Option<u64>)
        ensures
            r == self@.unsigned_member(key@),
    {
        match self.get(key) {
            Some(value) => value.as_unsigned(),
            None => None,
        }
    }
}

} // verus!
