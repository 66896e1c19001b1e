//! JSON values as the library holds them, and the passage to and from
//! `serde_json`.
//!
//! A number is kept as the decimal text that `serde_json` writes for it, so
//! that nothing is lost between reading a value and writing it again.

use crate::text::text_eq;
use vstd::prelude::*;

verus! {

/// A JSON value. The members of an object are kept in order; a key is looked
/// up from the front.
#[derive(Debug)]
pub enum JsonValue {
    Null,
    Bool(bool),
    Number(String),
    Text(String),
    Array(Vec<JsonValue>),
    Object(Vec<Member>),
}

/// One member of an object.
#[derive(Debug)]
pub struct Member {
    pub key: String,
    pub value: JsonValue,
}

/// The mathematical tree that a [`JsonValue`] stands for.
pub enum Json {
    Null,
    Bool(bool),
    Number(Seq<char>),
    Text(Seq<char>),
    Array(Seq<Json>),
    Object(Seq<Field>),
}

/// One member of an object, as a key and a tree.
pub struct Field {
    pub key: Seq<char>,
    pub value: Json,
}

impl View for JsonValue {
    type V = Json;

    open spec fn view(&self) -> Json
        decreases self,
    {
        match self {
            JsonValue::Null => Json::Null,
            JsonValue::Bool(b) => Json::Bool(*b),
            JsonValue::Number(n) => Json::Number(n@),
            JsonValue::Text(t) => Json::Text(t@),
            JsonValue::Array(items) => Json::Array(
                Seq::new(
                    items.len() as nat,
                    |i: int|
                        if 0 <= i < items.len() {
                            items[i].view()
                        } else {
                            Json::Null
                        },
                ),
            ),
            JsonValue::Object(fields) => Json::Object(
                Seq::new(
                    fields.len() as nat,
                    |i: int|
                        if 0 <= i < fields.len() {
                            Field { key: fields[i].key@, value: fields[i].value.view() }
                        } else {
                            Field { key: Seq::<char>::empty(), value: Json::Null }
                        },
                ),
            ),
        }
    }
}

/// The trees of a list of values.
pub open spec fn trees(items: Seq<JsonValue>) -> Seq<Json> {
    Seq::new(items.len(), |i: int| items[i]@)
}

/// The keys and trees of a list of fields.
pub open spec fn field_trees(fields: Seq<Member>) -> Seq<Field> {
    Seq::new(fields.len(), |i: int| Field { key: fields[i].key@, value: fields[i].value@ })
}

pub proof fn lemma_array_view(items: Vec<JsonValue>)
    ensures
        JsonValue::Array(items)@ == Json::Array(trees(items@)),
{
    assert(JsonValue::Array(items)@->Array_0 =~= trees(items@));
}

pub proof fn lemma_object_view(fields: Vec<Member>)
    ensures
        JsonValue::Object(fields)@ == Json::Object(field_trees(fields@)),
{
    assert(JsonValue::Object(fields)@->Object_0 =~= field_trees(fields@));
}

/// The value of the first field named `key`.
pub open spec fn field(fields: Seq<Field>, key: Seq<char>) -> Option<Json>
    decreases fields.len(),
{
    if fields.len() == 0 {
        None
    } else if fields.first().key == key {
        Some(fields.first().value)
    } else {
        field(fields.drop_first(), key)
    }
}

/// The member `key` of an object; `None` of anything else.
pub open spec fn member(tree: Json, key: Seq<char>) -> Option<Json> {
    match tree {
        Json::Object(fields) => field(fields, key),
        _ => None,
    }
}

/// The item at `i` of an array; `None` of anything else.
pub open spec fn item(tree: Json, i: int) -> Option<Json> {
    match tree {
        Json::Array(items) => if 0 <= i < items.len() {
            Some(items[i])
        } else {
            None
        },
        _ => None,
    }
}

pub open spec fn text_of_tree(tree: Json) -> Option<Seq<char>> {
    match tree {
        Json::Text(t) => Some(t),
        _ => None,
    }
}

pub open spec fn items_of_tree(tree: Json) -> Option<Seq<Json>> {
    match tree {
        Json::Array(items) => Some(items),
        _ => None,
    }
}

pub open spec fn bool_of_tree(tree: Json) -> Option<bool> {
    match tree {
        Json::Bool(b) => Some(b),
        _ => None,
    }
}

/// The text of the member `key`, where it is a text.
pub open spec fn text_member(tree: Json, key: Seq<char>) -> Option<Seq<char>> {
    match member(tree, key) {
        Some(v) => text_of_tree(v),
        None => None,
    }
}

/// Looks a key up among fields, from the front.
pub fn find_field<'a>(fields: &'a Vec<Member>, key: &str) -> (out: Option<&'a JsonValue>)
    ensures
        match out {
            Some(v) => field(field_trees(fields@), key@) == Some(v@),
            None => field(field_trees(fields@), key@) is None,
        },
{
    let ghost all = field_trees(fields@);
    let mut i: usize = 0;
    assert(all.skip(0) == all);
    while i < fields.len()
        invariant
            i <= fields.len(),
            all == field_trees(fields@),
            field(all, key@) == field(all.skip(i as int), key@),
        decreases fields.len() - i,
    {
        assert(all.skip(i as int).first() == all[i as int]);
        assert(all.skip(i as int).drop_first() == all.skip(i + 1));
        if text_eq(fields[i].key.as_str(), key) {
            return Some(&fields[i].value);
        }
        i += 1;
    }
    None
}

impl JsonValue {
    /// The member `key` of an object.
    pub fn get(&self, key: &str) -> (out: Option<&JsonValue>)
        ensures
            match out {
                Some(v) => member(self@, key@) == Some(v@),
                None => member(self@, key@) is None,
            },
    {
        match self {
            JsonValue::Object(fields) => {
                proof {
                    lemma_object_view(*fields);
                }
                find_field(fields, key)
            },
            _ => None,
        }
    }

    /// The item at `i` of an array.
    pub fn at(&self, i: usize) -> (out: Option<&JsonValue>)
        ensures
            match out {
                Some(v) => item(self@, i as int) == Some(v@),
                None => item(self@, i as int) is None,
            },
    {
        match self {
            JsonValue::Array(items) => {
                proof {
                    lemma_array_view(*items);
                }
                if i < items.len() {
                    Some(&items[i])
                } else {
                    None
                }
            },
            _ => None,
        }
    }

    pub fn as_text(&self) -> (out: Option<&String>)
        ensures
            match out {
                Some(t) => text_of_tree(self@) == Some(t@),
                None => text_of_tree(self@) is None,
            },
    {
        match self {
            JsonValue::Text(t) => Some(t),
            _ => None,
        }
    }

    pub fn as_items(&self) -> (out: Option<&Vec<JsonValue>>)
        ensures
            match out {
                Some(items) => items_of_tree(self@) == Some(trees(items@)),
                None => items_of_tree(self@) is None,
            },
    {
        match self {
            JsonValue::Array(items) => {
                proof {
                    lemma_array_view(*items);
                }
                Some(items)
            },
            _ => None,
        }
    }

    pub fn as_bool(&self) -> (out: Option<bool>)
        ensures
            out == bool_of_tree(self@),
    {
        match self {
            JsonValue::Bool(b) => Some(*b),
            _ => None,
        }
    }

    /// The text of the member `key`, where it is a text.
    pub fn text_at(&self, key: &str) -> (out: Option<&String>)
        ensures
            match out {
                Some(t) => text_member(self@, key@) == Some(t@),
                None => text_member(self@, key@) is None,
            },
    {
        match self.get(key) {
            Some(v) => v.as_text(),
            None => None,
        }
    }

    /// A copy of this value.
    pub fn copy(&self) -> (out: JsonValue)
        ensures
            out@ == self@,
        decreases self,
    {
        match self {
            JsonValue::Null => JsonValue::Null,
            JsonValue::Bool(b) => JsonValue::Bool(*b),
            JsonValue::Number(n) => JsonValue::Number(n.clone()),
            JsonValue::Text(t) => JsonValue::Text(t.clone()),
            JsonValue::Array(items) => {
                let mut out: Vec<JsonValue> = Vec::new();
                let mut i: usize = 0;
                while i < items.len()
                    invariant
                        i <= items.len(),
                        out.len() == i,
                        forall|k: int| 0 <= k < i ==> out@[k]@ == items@[k]@,
                        decreases_to!(self => items),
                    decreases items.len() - i,
                {
                    proof {
                        vstd::std_specs::vec::axiom_vec_index_decreases(*items, i as int);
                    }
                    out.push(items[i].copy());
                    i += 1;
                }
                proof {
                    lemma_array_view(*items);
                    lemma_array_view(out);
                    assert(trees(out@) =~= trees(items@));
                }
                JsonValue::Array(out)
            },
            JsonValue::Object(fields) => {
                let mut out: Vec<Member> = Vec::new();
                let mut i: usize = 0;
                while i < fields.len()
                    invariant
                        i <= fields.len(),
                        out.len() == i,
                        forall|k: int|
                            0 <= k < i ==> out@[k].key@ == fields@[k].key@ && out@[k].value@
                                == fields@[k].value@,
                        decreases_to!(self => fields),
                    decreases fields.len() - i,
                {
                    proof {
                        vstd::std_specs::vec::axiom_vec_index_decreases(*fields, i as int);
                        assert(decreases_to!(fields@[i as int] => fields@[i as int].value));
                    }
                    out.push(Member { key: fields[i].key.clone(), value: fields[i].value.copy() });
                    i += 1;
                }
                proof {
                    lemma_object_view(*fields);
                    lemma_object_view(out);
                    assert(field_trees(out@) =~= field_trees(fields@));
                }
                JsonValue::Object(out)
            },
        }
    }
}

/// `serde_json::Value`, which is only carried from one call to the next.
#[verifier::external_type_specification]
#[verifier::external_body]
pub struct ExValue(serde_json::Value);

/// `serde_json::Error`, of which nothing is read.
#[verifier::external_type_specification]
#[verifier::external_body]
pub struct ExJsonError(serde_json::Error);

/// `serde_json::Map`, the object of that crate, which the library fills and
/// hands on.
#[verifier::external_type_specification]
#[verifier::external_body]
#[verifier::reject_recursive_types(K)]
#[verifier::reject_recursive_types(V)]
pub struct ExMap<K, V>(serde_json::Map<K, V>);

/// What a `serde_json::Map` holds: its keys with the trees of their values,
/// in the order in which the map hands them out.
pub uninterp spec fn map_fields(m: serde_json::Map<String, serde_json::Value>) -> Seq<Field>;

/// What a `serde_json::Map` that held `fields` holds after `insert` of `key`
/// and a value with the tree `value`. Where in the order the key stands is
/// the map's affair.
pub uninterp spec fn inserted(fields: Seq<Field>, key: Seq<char>, value: Json) -> Seq<Field>;

/// The tree that a `serde_json::Value` holds: a number as the text that
/// `serde_json` writes for it, the fields of an object in the order in which
/// its map hands them out.
pub uninterp spec fn value_tree(v: serde_json::Value) -> Json;

/// What `serde_json::from_str` reads from a text; `None` where it reports an error.
pub uninterp spec fn parsed_json(text: Seq<char>) -> Option<Json>;

/// The tree as a `serde_json::Value` holds it once it has been built from a
/// tree of the library: the fields of each object entered into a
/// `serde_json::Map` one after the other, each number read by
/// `serde_json::Number::from_str`, and `null` where that fails.
pub uninterp spec fn settled(tree: Json) -> Json;

/// The compact text that `serde_json::to_string` writes for a value that holds `tree`.
pub uninterp spec fn rendered(tree: Json) -> Seq<char>;

/// `serde_json::from_str`, read as a `serde_json::Value`. The result is named,
/// not described: it is whatever the parser reads from `text`.
#[verifier::external_body]
fn serde_parse(text: &str) -> (out: Result<serde_json::Value, serde_json::Error>)
    ensures
        out matches Ok(v) ==> parsed_json(text@) == Some(value_tree(v)),
        out is Err ==> parsed_json(text@) is None,
{
    serde_json::from_str::<serde_json::Value>(text)
}

/// Copies a `serde_json::Value` into a [`JsonValue`], variant by variant; a
/// number goes through `serde_json::Number`'s `to_string`.
#[verifier::external_body]
fn lift(v: &serde_json::Value) -> (out: JsonValue)
    ensures
        out@ == value_tree(*v),
{
    match v {
        serde_json::Value::Null => JsonValue::Null,
        serde_json::Value::Bool(b) => JsonValue::Bool(*b),
        serde_json::Value::Number(n) => JsonValue::Number(n.to_string()),
        serde_json::Value::String(s) => JsonValue::Text(s.clone()),
        serde_json::Value::Array(a) => JsonValue::Array(a.iter().map(lift).collect()),
        serde_json::Value::Object(m) => JsonValue::Object(
            m.iter().map(|(k, x)| Member { key: k.clone(), value: lift(x) }).collect(),
        ),
    }
}

/// Builds the `serde_json::Value` for a [`JsonValue`], variant by variant; a
/// number goes through `serde_json::Number::from_str`, the fields of an object
/// through the `FromIterator` of `serde_json::Map`.
#[verifier::external_body]
fn lower(v: &JsonValue) -> (out: serde_json::Value)
    ensures
        value_tree(out) == settled(v@),
{
    match v {
        JsonValue::Null => serde_json::Value::Null,
        JsonValue::Bool(b) => serde_json::Value::Bool(*b),
        JsonValue::Number(n) => n.parse().map_or(
            serde_json::Value::Null,
            serde_json::Value::Number,
        ),
        JsonValue::Text(t) => serde_json::Value::String(t.clone()),
        JsonValue::Array(a) => serde_json::Value::Array(a.iter().map(lower).collect()),
        JsonValue::Object(f) => serde_json::Value::Object(
            f.iter().map(|m| (m.key.clone(), lower(&m.value))).collect(),
        ),
    }
}

/// `serde_json::to_string` on a `serde_json::Value`, which cannot fail there:
/// every key is a string. The text is named, not described.
#[verifier::external_body]
fn serde_render(v: &serde_json::Value) -> (out: String)
    ensures
        out@ == rendered(value_tree(*v)),
{
    serde_json::to_string(v).unwrap_or_default()
}

/// `serde_json::Map::new`: a map that holds nothing.
#[verifier::external_body]
pub(crate) fn new_map() -> (out: serde_json::Map<String, serde_json::Value>)
    ensures
        map_fields(out) == Seq::<Field>::empty(),
{
    serde_json::Map::new()
}

/// `serde_json::Map::insert` of a key and a text. As the crate documents it,
/// the key has the new value afterwards, whether it was there before or not,
/// and every other key has what it had.
#[verifier::external_body]
pub(crate) fn insert_text(
    m: &mut serde_json::Map<String, serde_json::Value>,
    key: String,
    text: String,
)
    ensures
        map_fields(*final(m)) == inserted(map_fields(*old(m)), key@, Json::Text(text@)),
        field(map_fields(*final(m)), key@) == Some(Json::Text(text@)),
        forall|other: Seq<char>|
            other != key@ ==> #[trigger] field(map_fields(*final(m)), other) == field(
                map_fields(*old(m)),
                other,
            ),
{
    m.insert(key, serde_json::Value::String(text));
}

/// The `serde_json::Value` that is the object `m`: a clone of the map as
/// `Value::Object`.
#[verifier::external_body]
fn object_value(m: &serde_json::Map<String, serde_json::Value>) -> (out: serde_json::Value)
    ensures
        value_tree(out) == Json::Object(map_fields(*m)),
{
    serde_json::Value::Object(m.clone())
}

/// The object that a map is, as a value of the library.
pub fn map_to_json(m: &serde_json::Map<String, serde_json::Value>) -> (out: JsonValue)
    ensures
        out@ == Json::Object(map_fields(*m)),
{
    let raw = object_value(m);
    lift(&raw)
}

/// Reads a JSON text.
pub fn parse_json(text: &str) -> (out: Option<JsonValue>)
    ensures
        match out {
            Some(v) => parsed_json(text@) == Some(v@),
            None => parsed_json(text@) is None,
        },
{
    match serde_parse(text) {
        Ok(v) => Some(lift(&v)),
        Err(_) => None,
    }
}

/// Writes a value as compact JSON text.
pub fn render_json(v: &JsonValue) -> (out: String)
    ensures
        out@ == rendered(settled(v@)),
{
    let raw = lower(v);
    serde_render(&raw)
}

} // verus!
