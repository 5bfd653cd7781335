//! Reading the fields of a response document.
//!
//! A response is an object whose fields hold arrays of objects. The readers
//! here take one field of one object and say, where it is not what is
//! expected, which field is at fault and how ([`ShapeFault`]).

use crate::decimal::{parse_u64, parsed_u64};
use crate::json::{
    entries, find_member, lemma_array_view, lemma_member_at, lemma_object_view, member, trees,
    Json, JsonField, JsonMember, JsonTree,
};
use vstd::prelude::*;

verus! {

/// A field of a response document.
#[derive(Debug, Clone, Copy, PartialEq, Eq, Structural)]
pub enum Field {
    Meta,
    Data,
    Name,
    Database,
    TotalRows,
    Version,
    CurrentDatabase,
}

/// How a document departs from the expected shape.
#[derive(Debug, Clone, Copy, PartialEq, Eq, Structural)]
pub enum ShapeFault {
    /// The document is not an object.
    Document,
    /// An item of the array in this field is not an object.
    Element(Field),
    /// The field is absent.
    Missing(Field),
    /// The field holds a value of another kind than expected.
    Mistyped(Field),
}

impl Field {
    /// The key under which the field stands in an object.
    pub open spec fn key(self) -> Seq<char> {
        match self {
            Field::Meta => "meta"@,
            Field::Data => "data"@,
            Field::Name => "name"@,
            Field::Database => "database"@,
            Field::TotalRows => "total_rows"@,
            Field::Version => "version"@,
            Field::CurrentDatabase => "current_database"@,
        }
    }

    /// The key under which the field stands in an object.
    pub fn key_text(&self) -> (text: &'static str)
        ensures
            text@ == self.key(),
    {
        match self {
            Field::Meta => "meta",
            Field::Data => "data",
            Field::Name => "name",
            Field::Database => "database",
            Field::TotalRows => "total_rows",
            Field::Version => "version",
            Field::CurrentDatabase => "current_database",
        }
    }
}

impl ShapeFault {
    /// The description of the fault that is shown to the caller.
    pub open spec fn cause(self) -> Seq<char> {
        match self {
            ShapeFault::Document => "expected an object"@,
            ShapeFault::Element(field) => "expected an object in `"@ + field.key() + "`"@,
            ShapeFault::Missing(field) => "missing field `"@ + field.key() + "`"@,
            ShapeFault::Mistyped(field) => "invalid type for field `"@ + field.key() + "`"@,
        }
    }

    /// The description of the fault that is shown to the caller.
    pub fn cause_text(&self) -> (text: String)
        ensures
            text@ == self.cause(),
    {
        let mut text = String::new();
        match self {
            ShapeFault::Document => {
                text.append("expected an object");
            },
            ShapeFault::Element(field) => {
                text.append("expected an object in `");
                text.append(field.key_text());
                text.append("`");
            },
            ShapeFault::Missing(field) => {
                text.append("missing field `");
                text.append(field.key_text());
                text.append("`");
            },
            ShapeFault::Mistyped(field) => {
                text.append("invalid type for field `");
                text.append(field.key_text());
                text.append("`");
            },
        }
        assert(text@ =~= self.cause());
        text
    }
}

/// The fields of a document, which must be an object.
pub open spec fn fields_of(doc: JsonTree) -> Result<Seq<JsonField>, ShapeFault> {
    match doc {
        JsonTree::Object(fields) => Ok(fields),
        _ => Err(ShapeFault::Document),
    }
}

/// The fields of an item of the array in field `of`; the item must be an
/// object.
pub open spec fn element_fields(item: JsonTree, of: Field) -> Result<Seq<JsonField>, ShapeFault> {
    match item {
        JsonTree::Object(fields) => Ok(fields),
        _ => Err(ShapeFault::Element(of)),
    }
}

/// The items of the array that `field` holds.
pub open spec fn array_field(fields: Seq<JsonField>, field: Field) -> Result<
    Seq<JsonTree>,
    ShapeFault,
> {
    match member(fields, field.key()) {
        None => Err(ShapeFault::Missing(field)),
        Some(JsonTree::Array(items)) => Ok(items),
        Some(_) => Err(ShapeFault::Mistyped(field)),
    }
}

/// The text that `field` holds.
pub open spec fn text_field(fields: Seq<JsonField>, field: Field) -> Result<
    Seq<char>,
    ShapeFault,
> {
    match member(fields, field.key()) {
        None => Err(ShapeFault::Missing(field)),
        Some(JsonTree::Text(text)) => Ok(text),
        Some(_) => Err(ShapeFault::Mistyped(field)),
    }
}

/// The count that `field` holds: none where the field is absent or null, else
/// an unsigned number of at most 64 bits.
pub open spec fn count_field(fields: Seq<JsonField>, field: Field) -> Result<
    Option<u64>,
    ShapeFault,
> {
    match member(fields, field.key()) {
        None => Ok(None),
        Some(JsonTree::Null) => Ok(None),
        Some(JsonTree::Number(digits)) => match parsed_u64(digits) {
            Some(count) => Ok(Some(count)),
            None => Err(ShapeFault::Mistyped(field)),
        },
        Some(_) => Err(ShapeFault::Mistyped(field)),
    }
}

/// What each item of an array holds, in order, or the fault of the first item
/// that has one.
pub open spec fn collected<T>(
    items: Seq<JsonTree>,
    each: spec_fn(JsonTree) -> Result<T, ShapeFault>,
) -> Result<Seq<T>, ShapeFault>
    decreases items.len(),
{
    if items.len() == 0 {
        Ok(Seq::empty())
    } else {
        match collected(items.drop_last(), each) {
            Err(fault) => Err(fault),
            Ok(values) => match each(items.last()) {
                Err(fault) => Err(fault),
                Ok(value) => Ok(values.push(value)),
            },
        }
    }
}

/// A fault met in the first `k` items is the fault of the whole.
pub(crate) proof fn lemma_fault_stays<T>(
    items: Seq<JsonTree>,
    each: spec_fn(JsonTree) -> Result<T, ShapeFault>,
    k: int,
)
    requires
        0 <= k <= items.len(),
        collected(items.take(k), each) is Err,
    ensures
        collected(items, each) == collected(items.take(k), each),
    decreases items.len() - k,
{
    if k == items.len() {
        assert(items.take(k) =~= items);
    } else {
        assert(items.drop_last().take(k) =~= items.take(k));
        lemma_fault_stays(items.drop_last(), each, k);
    }
}

/// What the first `k + 1` items hold follows from what the first `k` hold and
/// what the next one holds.
pub(crate) proof fn lemma_collected_next<T>(
    items: Seq<JsonTree>,
    each: spec_fn(JsonTree) -> Result<T, ShapeFault>,
    k: int,
)
    requires
        0 <= k < items.len(),
    ensures
        collected(items.take(k + 1), each) == match collected(items.take(k), each) {
            Err(fault) => Err(fault),
            Ok(values) => match each(items[k]) {
                Err(fault) => Err(fault),
                Ok(value) => Ok(values.push(value)),
            },
        },
{
    assert(items.take(k + 1).drop_last() =~= items.take(k));
    assert(items.take(k + 1).last() == items[k]);
}

/// The fields of a document, which must be an object.
pub fn object_members<'a>(doc: &'a Json) -> (r: Result<&'a Vec<JsonMember>, ShapeFault>)
    ensures
        match r {
            Ok(members) => fields_of(doc@) == Ok::<Seq<JsonField>, ShapeFault>(entries(members@)),
            Err(fault) => fields_of(doc@) == Err::<Seq<JsonField>, ShapeFault>(fault),
        },
{
    match doc {
        Json::Object(members) => {
            proof {
                lemma_object_view(*members);
            }
            Ok(members)
        },
        _ => Err(ShapeFault::Document),
    }
}

/// The fields of an item of the array in field `of`; the item must be an
/// object.
pub fn element_members<'a>(item: &'a Json, of: Field) -> (r: Result<
    &'a Vec<JsonMember>,
    ShapeFault,
>)
    ensures
        match r {
            Ok(members) => element_fields(item@, of) == Ok::<Seq<JsonField>, ShapeFault>(
                entries(members@),
            ),
            Err(fault) => element_fields(item@, of) == Err::<Seq<JsonField>, ShapeFault>(fault),
        },
{
    match item {
        Json::Object(members) => {
            proof {
                lemma_object_view(*members);
            }
            Ok(members)
        },
        _ => Err(ShapeFault::Element(of)),
    }
}

/// The items of the array that `field` holds.
pub fn array_member<'a>(members: &'a Vec<JsonMember>, field: Field) -> (r: Result<
    &'a Vec<Json>,
    ShapeFault,
>)
    ensures
        match r {
            Ok(items) => array_field(entries(members@), field) == Ok::<Seq<JsonTree>, ShapeFault>(
                trees(items@),
            ),
            Err(fault) => array_field(entries(members@), field) == Err::<
                Seq<JsonTree>,
                ShapeFault,
            >(fault),
        },
{
    match find_member(members, field.key_text()) {
        None => Err(ShapeFault::Missing(field)),
        Some(Json::Array(items)) => {
            proof {
                lemma_array_view(*items);
            }
            Ok(items)
        },
        Some(_) => Err(ShapeFault::Mistyped(field)),
    }
}

/// The text that `field` holds.
pub fn text_member<'a>(members: &'a Vec<JsonMember>, field: Field) -> (r: Result<
    &'a String,
    ShapeFault,
>)
    ensures
        match r {
            Ok(text) => text_field(entries(members@), field) == Ok::<Seq<char>, ShapeFault>(text@),
            Err(fault) => text_field(entries(members@), field) == Err::<Seq<char>, ShapeFault>(
                fault,
            ),
        },
{
    match find_member(members, field.key_text()) {
        None => Err(ShapeFault::Missing(field)),
        Some(Json::Text(text)) => Ok(text),
        Some(_) => Err(ShapeFault::Mistyped(field)),
    }
}

/// The count that `field` holds: none where the field is absent or null, else
/// an unsigned number of at most 64 bits.
pub fn count_member(members: &Vec<JsonMember>, field: Field) -> (r: Result<
    Option<u64>,
    ShapeFault,
>)
    ensures
        r == count_field(entries(members@), field),
{
    match find_member(members, field.key_text()) {
        None => Ok(None),
        Some(Json::Null) => Ok(None),
        Some(Json::Number(digits)) => match parse_u64(digits.as_str()) {
            Some(count) => Ok(Some(count)),
            None => Err(ShapeFault::Mistyped(field)),
        },
        Some(_) => Err(ShapeFault::Mistyped(field)),
    }
}

/// Takes the value of the first entry whose key is `key` out of `members`.
pub fn take_member(members: Vec<JsonMember>, key: &str) -> (taken: Option<Json>)
    ensures
        match taken {
            Some(value) => member(entries(members@), key@) == Some(value@),
            None => member(entries(members@), key@) is None,
        },
{
    let ghost fields = entries(members@);
    let mut rest = members;
    let wanted = key.to_owned();
    let mut i: usize = 0;
    while i < rest.len()
        invariant
            i <= rest.len(),
            rest@ == members@,
            fields == entries(members@),
            wanted@ == key@,
            forall|j: int| 0 <= j < i ==> (#[trigger] fields[j]).key != key@,
        decreases rest.len() - i,
    {
        if rest[i].key == wanted {
            proof {
                lemma_member_at(fields, key@, i as int);
            }
            let found = rest.remove(i);
            return Some(found.value);
        }
        i += 1;
    }
    proof {
        lemma_member_at(fields, key@, i as int);
    }
    None
}

} // verus!
