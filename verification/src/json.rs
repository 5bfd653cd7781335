//! JSON documents as plain values.
//!
//! A response body is parsed by `serde_json`; what it yields is held here as a
//! [`Json`] tree, which the decoders read. The parser itself is not verified:
//! [`parse`] states what is assumed of it.

use vstd::prelude::*;

verus! {

/// A JSON document.
#[derive(Debug, PartialEq, Eq)]
pub enum Json {
    Null,
    Bool(bool),
    /// A number, held as the text that writes it.
    Number(String),
    Text(String),
    Array(Vec<Json>),
    /// An object, as its entries in the order in which the parser yields them.
    Object(Vec<JsonMember>),
}

/// One `key: value` entry of a JSON object.
#[derive(Debug, PartialEq, Eq)]
pub struct JsonMember {
    pub key: String,
    pub value: Json,
}

/// The mathematical value of a [`Json`] document.
pub enum JsonTree {
    Null,
    Bool(bool),
    Number(Seq<char>),
    Text(Seq<char>),
    Array(Seq<JsonTree>),
    Object(Seq<JsonField>),
}

/// The mathematical value of a [`JsonMember`].
pub struct JsonField {
    pub key: Seq<char>,
    pub value: JsonTree,
}

impl View for Json {
    type V = JsonTree;

    open spec fn view(&self) -> JsonTree
        decreases self,
    {
        match self {
            Json::Null => JsonTree::Null,
            Json::Bool(b) => JsonTree::Bool(*b),
            Json::Number(n) => JsonTree::Number(n@),
            Json::Text(t) => JsonTree::Text(t@),
            Json::Array(items) => JsonTree::Array(
                Seq::new(
                    items@.len(),
                    |i: int|
                        if 0 <= i < items@.len() {
                            items@[i]@
                        } else {
                            JsonTree::Null
                        },
                ),
            ),
            Json::Object(members) => JsonTree::Object(
                Seq::new(
                    members@.len(),
                    |i: int|
                        if 0 <= i < members@.len() {
                            JsonField { key: members@[i].key@, value: members@[i].value@ }
                        } else {
                            JsonField { key: Seq::empty(), value: JsonTree::Null }
                        },
                ),
            ),
        }
    }
}

/// The values of a sequence of documents.
pub open spec fn trees(items: Seq<Json>) -> Seq<JsonTree> {
    Seq::new(items.len(), |i: int| items[i]@)
}

/// The entries of an object, as pairs of key and value.
pub open spec fn entries(members: Seq<JsonMember>) -> Seq<JsonField> {
    Seq::new(members.len(), |i: int| JsonField { key: members[i].key@, value: members[i].value@ })
}

/// The value of the first entry of `fields` whose key is `key`.
pub open spec fn member(fields: Seq<JsonField>, key: Seq<char>) -> Option<JsonTree>
    decreases fields.len(),
{
    if fields.len() == 0 {
        None
    } else if fields.first().key == key {
        Some(fields.first().value)
    } else {
        member(fields.drop_first(), key)
    }
}

/// What the parser makes of `text`: the document, or the parser's own
/// description of the first error.
pub uninterp spec fn parsed(text: Seq<char>) -> Result<JsonTree, Seq<char>>;

#[verifier::external_type_specification]
#[verifier::external_body]
pub struct ExValue(serde_json::Value);

/// Trusted: converts a `serde_json::Value` into a [`Json`], one variant for
/// one. A number becomes the text that `serde_json::Number`'s `Display`
/// writes; an object becomes its entries in the order of
/// `serde_json::Map::into_iter`. Nothing is stated of the result here: it is
/// named as a whole in [`parse`].
#[verifier::external_body]
fn from_value(value: serde_json::Value) -> Json {
    match value {
        serde_json::Value::Null => Json::Null,
        serde_json::Value::Bool(b) => Json::Bool(b),
        serde_json::Value::Number(n) => Json::Number(n.to_string()),
        serde_json::Value::String(s) => Json::Text(s),
        serde_json::Value::Array(items) => Json::Array(items.into_iter().map(from_value).collect()),
        serde_json::Value::Object(map) => Json::Object(
            map.into_iter().map(|(key, v)| JsonMember { key, value: from_value(v) }).collect(),
        ),
    }
}

/// Trusted: parses `text` with `serde_json::from_str`. The outcome depends on
/// the text alone and is what [`parsed`] names: the document on success, else
/// the text of the `serde_json::Error`.
#[verifier::external_body]
pub(crate) fn parse(text: &str) -> (r: Result<Json, String>)
    ensures
        crate::error::outcome(r) == parsed(text@),
{
    match serde_json::from_str::<serde_json::Value>(text) {
        Ok(value) => Ok(from_value(value)),
        Err(error) => Err(error.to_string()),
    }
}

/// The value of an array is the sequence of the values of its items.
pub(crate) proof fn lemma_array_view(items: Vec<Json>)
    ensures
        Json::Array(items)@ == JsonTree::Array(trees(items@)),
{
    assert(Json::Array(items)@->Array_0 =~= trees(items@));
}

/// The value of an object is the sequence of its entries.
pub(crate) proof fn lemma_object_view(members: Vec<JsonMember>)
    ensures
        Json::Object(members)@ == JsonTree::Object(entries(members@)),
{
    assert(Json::Object(members)@->Object_0 =~= entries(members@));
}

/// Looking up a key skips the entries before the first one that has it.
pub(crate) proof fn lemma_member_at(fields: Seq<JsonField>, key: Seq<char>, at: int)
    requires
        0 <= at <= fields.len(),
        forall|i: int| 0 <= i < at ==> (#[trigger] fields[i]).key != key,
    ensures
        at < fields.len() && fields[at].key == key ==> member(fields, key) == Some(
            fields[at].value,
        ),
        at == fields.len() ==> member(fields, key) is None,
    decreases at,
{
    if at > 0 {
        let rest = fields.drop_first();
        assert forall|i: int| 0 <= i < at - 1 implies (#[trigger] rest[i]).key != key by {
            assert(rest[i] == fields[i + 1]);
        }
        lemma_member_at(rest, key, at - 1);
        if at < fields.len() {
            assert(rest[at - 1] == fields[at]);
        }
    }
}

/// The value of the first entry of `members` whose key is `key`.
pub fn find_member<'a>(members: &'a Vec<JsonMember>, key: &str) -> (found: Option<&'a Json>)
    ensures
        match found {
            Some(value) => member(entries(members@), key@) == Some(value@),
            None => member(entries(members@), key@) is None,
        },
{
    let wanted = key.to_owned();
    let mut i: usize = 0;
    while i < members.len()
        invariant
            i <= members.len(),
            wanted@ == key@,
            forall|j: int| 0 <= j < i ==> (#[trigger] entries(members@)[j]).key != key@,
        decreases members.len() - i,
    {
        if members[i].key == wanted {
            proof {
                lemma_member_at(entries(members@), key@, i as int);
            }
            return Some(&members[i].value);
        }
        i += 1;
    }
    proof {
        lemma_member_at(entries(members@), key@, i as int);
    }
    None
}

} // verus!
