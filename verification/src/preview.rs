//! Decoding a tabular response: `{meta: [{name}], data: [...]}`.
//!
//! The column names are taken from `meta` in the order given; the rows of
//! `data` are handed on as they are. The strict decoder reports a document of
//! another shape as a failure; the lenient one answers it with a single cell
//! that holds the body's text.

use crate::error::{DecodeStage, RelayError, RelayFault};
use crate::json::{
    entries, lemma_array_view, lemma_object_view, member, trees, Json, JsonField, JsonMember,
    JsonTree,
};
use crate::model::{texts, TablePreview, TablePreviewModel};
use crate::shape::{
    array_field, array_member, collected, element_fields, element_members, fields_of,
    lemma_collected_next, lemma_fault_stays, object_members, take_member, text_field,
    text_member, Field, ShapeFault,
};
use crate::text::{is_blank, is_blank_text, trim, trimmed};
use vstd::prelude::*;

verus! {

/// The name of the column that one item of `meta` describes.
pub open spec fn column_name(item: JsonTree) -> Result<Seq<char>, ShapeFault> {
    match element_fields(item, Field::Meta) {
        Ok(fields) => text_field(fields, Field::Name),
        Err(fault) => Err(fault),
    }
}

/// The names of the columns that the items of `meta` describe, in order, or
/// the fault of the first item that has one.
pub open spec fn column_names(items: Seq<JsonTree>) -> Result<Seq<Seq<char>>, ShapeFault> {
    collected(items, |item: JsonTree| column_name(item))
}

/// The table that a document holds: its columns are the names in `meta`, its
/// rows the items of `data`, unchanged.
pub open spec fn preview_of(doc: JsonTree) -> Result<TablePreviewModel, ShapeFault> {
    match fields_of(doc) {
        Err(fault) => Err(fault),
        Ok(fields) => match array_field(fields, Field::Meta) {
            Err(fault) => Err(fault),
            Ok(meta) => match column_names(meta) {
                Err(fault) => Err(fault),
                Ok(columns) => match array_field(fields, Field::Data) {
                    Err(fault) => Err(fault),
                    Ok(rows) => Ok(TablePreviewModel { columns, rows }),
                },
            },
        },
    }
}

/// The failure reported for a body that could not be decoded, with its cause.
pub open spec fn undecodable(cause: Seq<char>) -> RelayFault {
    RelayFault::Decoding { stage: DecodeStage::Parse, cause }
}

/// The table of a parsed body, where a body that is no JSON or has another
/// shape is a failure.
pub open spec fn strict_preview(parsed: Result<JsonTree, Seq<char>>) -> Result<
    TablePreviewModel,
    RelayFault,
> {
    match parsed {
        Err(cause) => Err(undecodable(cause)),
        Ok(doc) => match preview_of(doc) {
            Ok(table) => Ok(table),
            Err(fault) => Err(undecodable(fault.cause())),
        },
    }
}

/// The text shown for a body that is no table: the body without the white
/// space around it, or a fixed notice where the body is blank.
pub open spec fn notice(body: Seq<char>) -> Seq<char> {
    if is_blank(body) {
        "Query executed successfully"@
    } else {
        trimmed(body)
    }
}

/// The table of a single cell: one column, `result`, and one row that holds
/// `text` under that name.
pub open spec fn single_cell(text: Seq<char>) -> TablePreviewModel {
    TablePreviewModel {
        columns: seq!["result"@],
        rows: seq![
            JsonTree::Object(seq![JsonField { key: "result"@, value: JsonTree::Text(text) }]),
        ],
    }
}

/// The table of a parsed body, where a body that is no JSON or has another
/// shape is answered with a single cell.
pub open spec fn lenient_preview(
    parsed: Result<JsonTree, Seq<char>>,
    body: Seq<char>,
) -> TablePreviewModel {
    match parsed {
        Ok(doc) => match preview_of(doc) {
            Ok(table) => table,
            Err(_) => single_cell(notice(body)),
        },
        Err(_) => single_cell(notice(body)),
    }
}

/// Law: a table passes through. Where `meta` holds the columns and `data`
/// holds rows, the table has those columns and exactly those rows, in order
/// and unchanged, whatever the rows are.
pub proof fn law_rows_pass_through(
    fields: Seq<JsonField>,
    meta: Seq<JsonTree>,
    columns: Seq<Seq<char>>,
    rows: Seq<JsonTree>,
)
    requires
        member(fields, Field::Meta.key()) == Some(JsonTree::Array(meta)),
        column_names(meta) == Ok::<Seq<Seq<char>>, ShapeFault>(columns),
        member(fields, Field::Data.key()) == Some(JsonTree::Array(rows)),
    ensures
        preview_of(JsonTree::Object(fields)) == Ok::<TablePreviewModel, ShapeFault>(
            TablePreviewModel { columns, rows },
        ),
        forall|body: Seq<char>|
            #[trigger] lenient_preview(Ok(JsonTree::Object(fields)), body) == (TablePreviewModel {
                columns,
                rows,
            }),
{
}

/// Law: a body that is no table is answered with a single cell. Where the
/// body is no JSON, or is JSON of another shape, the lenient decoder yields
/// one column, `result`, and one row, which holds the body's text without the
/// white space around it, or the fixed notice where the body is blank.
pub proof fn law_other_body_becomes_single_cell(
    parsed: Result<JsonTree, Seq<char>>,
    body: Seq<char>,
)
    requires
        parsed matches Ok(doc) ==> preview_of(doc) is Err,
    ensures
        lenient_preview(parsed, body) == single_cell(notice(body)),
        lenient_preview(parsed, body).columns == seq!["result"@],
        lenient_preview(parsed, body).rows.len() == 1,
        is_blank(body) ==> lenient_preview(parsed, body) == single_cell(
            "Query executed successfully"@,
        ),
{
}

/// The names of the columns that the items of `meta` describe.
fn read_column_names(items: &Vec<Json>) -> (r: Result<Vec<String>, ShapeFault>)
    ensures
        match r {
            Ok(names) => column_names(trees(items@)) == Ok::<Seq<Seq<char>>, ShapeFault>(
                texts(names@),
            ),
            Err(fault) => column_names(trees(items@)) == Err::<Seq<Seq<char>>, ShapeFault>(fault),
        },
{
    let ghost all = trees(items@);
    let ghost each = |item: JsonTree| column_name(item);
    let mut names: Vec<String> = Vec::new();
    let mut i: usize = 0;
    proof {
        assert(texts(names@) =~= Seq::<Seq<char>>::empty());
    }
    while i < items.len()
        invariant
            i <= items.len(),
            all == trees(items@),
            each == |item: JsonTree| column_name(item),
            collected(all.take(i as int), each) == Ok::<Seq<Seq<char>>, ShapeFault>(texts(names@)),
        decreases items.len() - i,
    {
        proof {
            lemma_collected_next(all, each, i as int);
        }
        let name = match element_members(&items[i], Field::Meta) {
            Err(fault) => {
                proof {
                    lemma_fault_stays(all, each, i + 1);
                }
                return Err(fault);
            },
            Ok(members) => match text_member(members, Field::Name) {
                Err(fault) => {
                    proof {
                        lemma_fault_stays(all, each, i + 1);
                    }
                    return Err(fault);
                },
                Ok(text) => text.clone(),
            },
        };
        let ghost before = texts(names@);
        names.push(name);
        proof {
            assert(texts(names@) =~= before.push(name@));
        }
        i += 1;
    }
    proof {
        assert(all.take(items.len() as int) =~= all);
    }
    Ok(names)
}

/// The table that a document holds: its columns are the names in `meta`, in
/// order, and its rows are the items of `data`, unchanged. A document of
/// another shape yields the fault of the first field that departs from it.
pub fn read_preview(doc: Json) -> (r: Result<TablePreview, ShapeFault>)
    ensures
        match r {
            Ok(table) => preview_of(doc@) == Ok::<TablePreviewModel, ShapeFault>(table@),
            Err(fault) => preview_of(doc@) == Err::<TablePreviewModel, ShapeFault>(fault),
        },
{
    let columns = match object_members(&doc) {
        Err(fault) => {
            return Err(fault);
        },
        Ok(members) => {
            let names = match array_member(members, Field::Meta) {
                Err(fault) => {
                    return Err(fault);
                },
                Ok(meta) => match read_column_names(meta) {
                    Err(fault) => {
                        return Err(fault);
                    },
                    Ok(names) => names,
                },
            };
            match array_member(members, Field::Data) {
                Err(fault) => {
                    return Err(fault);
                },
                Ok(_) => {},
            }
            names
        },
    };
    match doc {
        Json::Object(members) => {
            proof {
                lemma_object_view(members);
            }
            match take_member(members, Field::Data.key_text()) {
                Some(Json::Array(rows)) => {
                    proof {
                        lemma_array_view(rows);
                    }
                    Ok(TablePreview { columns, rows })
                },
                _ => Err(ShapeFault::Missing(Field::Data)),
            }
        },
        _ => Err(ShapeFault::Document),
    }
}

/// The table of a parsed body. Fails with a decoding error, which names the
/// cause, where the body is no JSON or has another shape.
pub fn preview_from_parsed(parsed: Result<Json, String>) -> (r: Result<TablePreview, RelayError>)
    ensures
        crate::error::outcome(r) == strict_preview(crate::error::outcome(parsed)),
{
    match parsed {
        Err(cause) => Err(RelayError::Decoding { stage: DecodeStage::Parse, cause }),
        Ok(doc) => match read_preview(doc) {
            Ok(table) => Ok(table),
            Err(fault) => Err(
                RelayError::Decoding { stage: DecodeStage::Parse, cause: fault.cause_text() },
            ),
        },
    }
}

/// The table of a single cell: one column, `result`, and one row that holds
/// `text` under that name.
pub fn single_cell_preview(text: String) -> (table: TablePreview)
    ensures
        table@ == single_cell(text@),
{
    let mut members: Vec<JsonMember> = Vec::new();
    members.push(JsonMember { key: "result".to_owned(), value: Json::Text(text) });
    let mut rows: Vec<Json> = Vec::new();
    let ghost cell = Json::Object(members);
    rows.push(Json::Object(members));
    let mut columns: Vec<String> = Vec::new();
    columns.push("result".to_owned());
    let table = TablePreview { columns, rows };
    proof {
        lemma_object_view(members);
        assert(entries(members@) =~= seq![
            JsonField { key: "result"@, value: JsonTree::Text(text@) },
        ]);
        assert(table@.columns =~= seq!["result"@]);
        assert(table@.rows =~= seq![cell@]);
    }
    table
}

/// The text shown for a body that is no table: the body without the white
/// space around it, or a fixed notice where the body is blank.
pub fn notice_text(body: &str) -> (text: String)
    ensures
        text@ == notice(body@),
{
    if is_blank_text(body) {
        "Query executed successfully".to_owned()
    } else {
        trim(body).to_owned()
    }
}

/// The table of a parsed body whose text is `body`: the table that the
/// document holds or, where the body is no JSON or has another shape, a single
/// cell with the body's text.
pub fn preview_or_notice(parsed: Result<Json, String>, body: &str) -> (table: TablePreview)
    ensures
        table@ == lenient_preview(crate::error::outcome(parsed), body@),
{
    match parsed {
        Ok(doc) => match read_preview(doc) {
            Ok(table) => table,
            Err(_) => single_cell_preview(notice_text(body)),
        },
        Err(_) => single_cell_preview(notice_text(body)),
    }
}

} // verus!
