//! JSON documents, as far as the description of a video needs them.
//!
//! Bytes are parsed by `serde_json`. What it found is carried over into `Json`,
//! a plain tree on which everything else works.

use serde_json::Value;
use vstd::prelude::*;

use crate::text;

verus! {

broadcast use vstd::string::group_string_axioms;

/// A JSON value. A number is held as the two readings that are of use: as an
/// unsigned integer, where it is one, and as the bits of a 64-bit float.
#[derive(Debug)]
pub enum Json {
    Null,
    Bool(bool),
    Number { unsigned: Option<u64>, float_bits: Option<u64> },
    Text(String),
    Array(Vec<Json>),
    Object(Vec<(String, Json)>),
}

/// What a JSON value says.
pub enum JsonTree {
    Null,
    Bool(bool),
    Number { unsigned: Option<u64>, float_bits: Option<u64> },
    Text(Seq<char>),
    Array(Seq<JsonTree>),
    Object(Seq<(Seq<char>, JsonTree)>),
}

/// One level of a parsed document.
enum JsonNode<'a> {
    Null,
    Bool(bool),
    Number { unsigned: Option<u64>, float_bits: Option<u64> },
    Text(&'a String),
    Array(&'a Vec<Value>),
    Object(Vec<(&'a String, &'a Value)>),
}

/// `serde_json::Value`, a parsed document.
#[verifier::external_type_specification]
#[verifier::external_body]
pub struct ExValue(serde_json::Value);

/// `serde_json::Error`, the reason why bytes are no document.
#[verifier::external_type_specification]
#[verifier::external_body]
pub struct ExError(serde_json::Error);

/// What a parsed document says.
pub uninterp spec fn json_tree(value: Value) -> JsonTree;

/// The text by which `serde_json::Error` shows itself.
pub uninterp spec fn error_text(error: serde_json::Error) -> Seq<char>;

/// What `serde_json::from_slice` makes of bytes: what the document says, or the
/// text of the error.
pub uninterp spec fn parsed_json(bytes: Seq<u8>) -> Result<JsonTree, Seq<char>>;

impl Json {
    /// What this value says.
    pub open spec fn tree(self) -> JsonTree
        decreases self,
    {
        match self {
            Json::Null => JsonTree::Null,
            Json::Bool(b) => JsonTree::Bool(b),
            Json::Number { unsigned, float_bits } => JsonTree::Number { unsigned, float_bits },
            Json::Text(s) => JsonTree::Text(s@),
            Json::Array(items) => JsonTree::Array(
                Seq::new(
                    items@.len(),
                    |i: int|
                        if 0 <= i < items@.len() {
                            items@[i].tree()
                        } else {
                            JsonTree::Null
                        },
                ),
            ),
            Json::Object(fields) => JsonTree::Object(
                Seq::new(
                    fields@.len(),
                    |i: int|
                        if 0 <= i < fields@.len() {
                            (fields@[i].0@, fields@[i].1.tree())
                        } else {
                            (Seq::empty(), JsonTree::Null)
                        },
                ),
            ),
        }
    }
}

/// The value of the first of `fields` that is named `key`.
pub open spec fn lookup(fields: Seq<(Seq<char>, JsonTree)>, key: Seq<char>) -> Option<JsonTree>
    decreases fields.len(),
{
    if fields.len() == 0 {
        None
    } else if fields[0].0 == key {
        Some(fields[0].1)
    } else {
        lookup(fields.drop_first(), key)
    }
}

impl JsonTree {
    /// The field of an object; no other value has fields.
    pub open spec fn field(self, key: Seq<char>) -> Option<JsonTree> {
        match self {
            JsonTree::Object(fields) => lookup(fields, key),
            _ => None,
        }
    }

    /// The text of a string.
    pub open spec fn text(self) -> Option<Seq<char>> {
        match self {
            JsonTree::Text(s) => Some(s),
            _ => None,
        }
    }

    /// The items of an array.
    pub open spec fn items(self) -> Option<Seq<JsonTree>> {
        match self {
            JsonTree::Array(items) => Some(items),
            _ => None,
        }
    }

    /// A number that is an unsigned integer.
    pub open spec fn unsigned(self) -> Option<u64> {
        match self {
            JsonTree::Number { unsigned, .. } => unsigned,
            _ => None,
        }
    }

    /// The bits of a number as a float.
    pub open spec fn float_bits(self) -> Option<u64> {
        match self {
            JsonTree::Number { float_bits, .. } => float_bits,
            _ => None,
        }
    }

    /// The text of a field.
    pub open spec fn text_field(self, key: Seq<char>) -> Option<Seq<char>> {
        match self.field(key) {
            Some(value) => value.text(),
            None => None,
        }
    }

    /// The items of a field.
    pub open spec fn items_field(self, key: Seq<char>) -> Option<Seq<JsonTree>> {
        match self.field(key) {
            Some(value) => value.items(),
            None => None,
        }
    }

    /// The unsigned integer of a field.
    pub open spec fn unsigned_field(self, key: Seq<char>) -> Option<u64> {
        match self.field(key) {
            Some(value) => value.unsigned(),
            None => None,
        }
    }

    /// The bits of the float of a field.
    pub open spec fn float_bits_field(self, key: Seq<char>) -> Option<u64> {
        match self.field(key) {
            Some(value) => value.float_bits(),
            None => None,
        }
    }
}

/// What a list of values says.
pub open spec fn trees(items: Seq<Json>) -> Seq<JsonTree> {
    Seq::new(items.len(), |i: int| items[i].tree())
}

/// What a value says that may be absent.
pub open spec fn opt_tree(json: Option<&Json>) -> Option<JsonTree> {
    match json {
        Some(value) => Some(value.tree()),
        None => None,
    }
}

impl Json {
    /// The field of an object that is named `key`.
    pub fn get(&self, key: &str) -> (value: Option<&Json>)
        ensures
            opt_tree(value) == self.tree().field(key@),
    {
        match self {
            Json::Object(fields) => {
                let ghost all = self.tree()->Object_0;
                let mut i: usize = 0;
                assert(all.skip(0) =~= all);
                while i < fields.len()
                    invariant
                        i <= fields@.len(),
                        self.tree() == JsonTree::Object(all),
                        all.len() == fields@.len(),
                        forall|k: int|
                            0 <= k < fields@.len() ==> #[trigger] all[k] == (
                                fields@[k].0@,
                                fields@[k].1.tree(),
                            ),
                        lookup(all, key@) == lookup(all.skip(i as int), key@),
                    decreases fields@.len() - i,
                {
                    assert(all.skip(i as int)[0] == all[i as int]);
                    if text::same_text(fields[i].0.as_str(), key) {
                        return Some(&fields[i].1);
                    }
                    assert(all.skip(i as int).drop_first() =~= all.skip(i + 1));
                    i = i + 1;
                }
                None
            },
            _ => None,
        }
    }

    /// The text of a string.
    pub fn as_str(&self) -> (string: Option<&str>)
        ensures
            text::opt_str(string) == self.tree().text(),
    {
        match self {
            Json::Text(s) => Some(s.as_str()),
            _ => None,
        }
    }

    /// The items of an array.
    pub fn as_array(&self) -> (items: Option<&Vec<Json>>)
        ensures
            match items {
                Some(list) => self.tree().items() == Some(trees(list@)),
                None => self.tree().items() is None,
            },
    {
        match self {
            Json::Array(items) => {
                assert(self.tree()->Array_0 =~= trees(items@));
                Some(items)
            },
            _ => None,
        }
    }

    /// A number that is an unsigned integer.
    pub fn as_u64(&self) -> (number: Option<u64>)
        ensures
            number == self.tree().unsigned(),
    {
        match self {
            Json::Number { unsigned, .. } => *unsigned,
            _ => None,
        }
    }

    /// The bits of a number as a float.
    pub fn as_float_bits(&self) -> (bits: Option<u64>)
        ensures
            bits == self.tree().float_bits(),
    {
        match self {
            Json::Number { float_bits, .. } => *float_bits,
            _ => None,
        }
    }

    /// The text of a field.
    pub fn text_at(&self, key: &str) -> (string: Option<String>)
        ensures
            text::opt_text(string) == self.tree().text_field(key@),
    {
        match self.get(key) {
            Some(value) => match value.as_str() {
                Some(s) => Some(s.to_owned()),
                None => None,
            },
            None => None,
        }
    }

    /// The items of a field.
    pub fn items_at(&self, key: &str) -> (items: Option<&Vec<Json>>)
        ensures
            match items {
                Some(list) => self.tree().items_field(key@) == Some(trees(list@)),
                None => self.tree().items_field(key@) is None,
            },
    {
        match self.get(key) {
            Some(value) => value.as_array(),
            None => None,
        }
    }

    /// The unsigned integer of a field.
    pub fn u64_at(&self, key: &str) -> (number: Option<u64>)
        ensures
            number == self.tree().unsigned_field(key@),
    {
        match self.get(key) {
            Some(value) => value.as_u64(),
            None => None,
        }
    }

    /// The bits of the float of a field.
    pub fn float_bits_at(&self, key: &str) -> (bits: Option<u64>)
        ensures
            bits == self.tree().float_bits_field(key@),
    {
        match self.get(key) {
            Some(value) => value.as_float_bits(),
            None => None,
        }
    }
}

impl<'a> JsonNode<'a> {
    spec fn tree(self) -> JsonTree {
        match self {
            JsonNode::Null => JsonTree::Null,
            JsonNode::Bool(b) => JsonTree::Bool(b),
            JsonNode::Number { unsigned, float_bits } => JsonTree::Number { unsigned, float_bits },
            JsonNode::Text(s) => JsonTree::Text(s@),
            JsonNode::Array(items) => JsonTree::Array(
                Seq::new(items@.len(), |i: int| json_tree(items@[i])),
            ),
            JsonNode::Object(fields) => JsonTree::Object(
                Seq::new(fields@.len(), |i: int| (fields@[i].0@, json_tree(*fields@[i].1))),
            ),
        }
    }
}

/// Reads bytes as a document: `serde_json::from_slice`, whose result is named
/// `parsed_json`. It depends on the bytes alone.
#[verifier::external_body]
fn parse_value(bytes: &[u8]) -> (parsed: Result<Value, serde_json::Error>)
    ensures
        parsed_json(bytes@) == match parsed {
            Ok(value) => Ok::<JsonTree, Seq<char>>(json_tree(value)),
            Err(error) => Err::<JsonTree, Seq<char>>(error_text(error)),
        },
{
    serde_json::from_slice(bytes)
}

/// The text of an error: `Display` of `serde_json::Error`, named `error_text`.
#[verifier::external_body]
fn show_error(error: &serde_json::Error) -> (shown: String)
    ensures
        shown@ == error_text(*error),
{
    error.to_string()
}

/// One level of a document: the variants of `serde_json::Value`, with
/// `Number::as_u64` and `Number::as_f64`. The fields of an object come in the
/// order of `serde_json::Map::iter`. What a document says, `json_tree`, is made
/// up of its levels.
#[verifier::external_body]
fn unfold<'a>(value: &'a Value) -> (node: JsonNode<'a>)
    ensures
        node.tree() == json_tree(*value),
{
    match value {
        Value::Null => JsonNode::Null,
        Value::Bool(b) => JsonNode::Bool(*b),
        Value::Number(n) => JsonNode::Number {
            unsigned: n.as_u64(),
            float_bits: n.as_f64().map(|d| d.to_bits()),
        },
        Value::String(s) => JsonNode::Text(s),
        Value::Array(items) => JsonNode::Array(items),
        Value::Object(fields) => JsonNode::Object(fields.iter().collect()),
    }
}

/// Carries a document over into a plain tree.
fn json_of(value: &Value) -> (json: Json)
    ensures
        json.tree() == json_tree(*value),
    decreases json_tree(*value),
{
    match unfold(value) {
        JsonNode::Null => Json::Null,
        JsonNode::Bool(b) => Json::Bool(b),
        JsonNode::Number { unsigned, float_bits } => Json::Number { unsigned, float_bits },
        JsonNode::Text(s) => Json::Text(s.clone()),
        JsonNode::Array(items) => {
            let mut list: Vec<Json> = Vec::new();
            let mut i: usize = 0;
            while i < items.len()
                invariant
                    i <= items@.len(),
                    list@.len() == i,
                    json_tree(*value) == JsonNode::Array(items).tree(),
                    forall|k: int| 0 <= k < i ==> (#[trigger] list@[k]).tree() == json_tree(items@[k]),
                decreases items@.len() - i,
            {
                assert(json_tree(*value)->Array_0[i as int] == json_tree(items@[i as int]));
                list.push(json_of(&items[i]));
                i = i + 1;
            }
            let json: Json = Json::Array(list);
            assert(json.tree()->Array_0 =~= json_tree(*value)->Array_0);
            json
        },
        JsonNode::Object(fields) => {
            let mut list: Vec<(String, Json)> = Vec::new();
            let mut i: usize = 0;
            while i < fields.len()
                invariant
                    i <= fields@.len(),
                    list@.len() == i,
                    json_tree(*value) == JsonNode::Object(fields).tree(),
                    forall|k: int|
                        0 <= k < i ==> (#[trigger] list@[k]).0@ == fields@[k].0@ && list@[k].1.tree()
                            == json_tree(*fields@[k].1),
                decreases fields@.len() - i,
            {
                assert(json_tree(*value)->Object_0[i as int].1 == json_tree(*fields@[i as int].1));
                let field: (&String, &Value) = fields[i];
                list.push((field.0.clone(), json_of(field.1)));
                i = i + 1;
            }
            let json: Json = Json::Object(list);
            assert(json.tree()->Object_0 =~= json_tree(*value)->Object_0);
            json
        },
    }
}

/// Reads bytes as a document. On failure the text says what is wrong with them.
pub fn parse_json(bytes: &[u8]) -> (parsed: Result<Json, String>)
    ensures
        match parsed {
            Ok(json) => parsed_json(bytes@) == Ok::<JsonTree, Seq<char>>(json.tree()),
            Err(error) => parsed_json(bytes@) == Err::<JsonTree, Seq<char>>(error@),
        },
{
    match parse_value(bytes) {
        Ok(value) => Ok(json_of(&value)),
        Err(error) => Err(show_error(&error)),
    }
}

/// A field of an object is the first one that has its name; without one the
/// object has no such field, and nothing but an object has fields.
pub proof fn law_field_is_first_of_its_name(
    fields: Seq<(Seq<char>, JsonTree)>,
    key: Seq<char>,
    k: int,
)
    ensures
        0 <= k < fields.len() && fields[k].0 == key && (forall|i: int|
            0 <= i < k ==> (#[trigger] fields[i]).0 != key) ==> JsonTree::Object(fields).field(key)
            == Some(fields[k].1),
        (forall|i: int| 0 <= i < fields.len() ==> (#[trigger] fields[i]).0 != key)
            ==> JsonTree::Object(fields).field(key) is None,
    decreases fields.len(),
{
    if fields.len() > 0 && fields[0].0 != key {
        let rest = fields.drop_first();
        law_field_is_first_of_its_name(rest, key, k - 1);
        if k < fields.len() && forall|i: int| 0 <= i < k ==> (#[trigger] fields[i]).0 != key {
            assert forall|i: int| 0 <= i < k - 1 implies (#[trigger] rest[i]).0 != key by {
                assert(rest[i] == fields[i + 1]);
            }
        }
        if forall|i: int| 0 <= i < fields.len() ==> (#[trigger] fields[i]).0 != key {
            assert forall|i: int| 0 <= i < rest.len() implies (#[trigger] rest[i]).0 != key by {
                assert(rest[i] == fields[i + 1]);
            }
        }
    }
}

/// Nothing but an object has fields.
pub proof fn law_only_objects_have_fields(value: JsonTree, key: Seq<char>)
    ensures
        value.field(key) is Some ==> value is Object,
{
}

/// A field is read as what it is: a text as a text, an array as its items, and a
/// number by its two readings, of which neither stands in for the other.
pub proof fn law_fields_are_read_as_they_are(doc: JsonTree, key: Seq<char>)
    ensures
        doc.text_field(key) == match doc.field(key) {
            Some(JsonTree::Text(s)) => Some(s),
            _ => None,
        },
        doc.items_field(key) == match doc.field(key) {
            Some(JsonTree::Array(items)) => Some(items),
            _ => None,
        },
        doc.unsigned_field(key) == match doc.field(key) {
            Some(JsonTree::Number { unsigned, float_bits }) => unsigned,
            _ => None,
        },
        doc.float_bits_field(key) == match doc.field(key) {
            Some(JsonTree::Number { unsigned, float_bits }) => float_bits,
            _ => None,
        },
{
}

/// A value says what it holds, and a list of values what each of them says.
pub proof fn law_values_say_what_they_hold(json: Json, i: int)
    ensures
        json matches Json::Text(s) ==> json.tree() == JsonTree::Text(s@),
        json matches Json::Number { unsigned, float_bits } ==> json.tree() == (JsonTree::Number {
            unsigned,
            float_bits,
        }),
        json matches Json::Array(items) ==> (json.tree() matches JsonTree::Array(all) && all.len()
            == items@.len() && (0 <= i < all.len() ==> all[i] == items@[i].tree())),
        json matches Json::Object(fields) ==> (json.tree() matches JsonTree::Object(all)
            && all.len() == fields@.len() && (0 <= i < all.len() ==> all[i] == (
            fields@[i].0@,
            fields@[i].1.tree(),
        ))),
{
}

} // verus!
