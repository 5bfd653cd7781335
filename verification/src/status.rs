//! Decoding the answer to a status probe:
//! `{data: [{version, current_database}]}`.

use crate::error::{DecodeStage, RelayError, RelayFault};
use crate::json::{member, trees, Json, JsonField, JsonTree};
use crate::model::{ConnectionStatus, ConnectionStatusModel};
use crate::preview::undecodable;
use crate::shape::{
    array_field, array_member, collected, element_fields, element_members, fields_of,
    lemma_collected_next, lemma_fault_stays, object_members, text_field, text_member, Field,
    ShapeFault,
};
use vstd::prelude::*;

verus! {

/// One row of the answer to a status probe.
#[derive(Debug, Clone, PartialEq, Eq)]
pub struct StatusRow {
    pub version: String,
    pub current_database: String,
}

/// The mathematical value of a [`StatusRow`].
pub struct StatusRowModel {
    pub version: Seq<char>,
    pub current_database: Seq<char>,
}

impl View for StatusRow {
    type V = StatusRowModel;

    open spec fn view(&self) -> StatusRowModel {
        StatusRowModel { version: self.version@, current_database: self.current_database@ }
    }
}

/// The values of a sequence of rows.
pub open spec fn status_list(rows: Seq<StatusRow>) -> Seq<StatusRowModel> {
    Seq::new(rows.len(), |i: int| rows[i]@)
}

/// The row that one item of `data` holds.
pub open spec fn status_row(item: JsonTree) -> Result<StatusRowModel, ShapeFault> {
    match element_fields(item, Field::Data) {
        Err(fault) => Err(fault),
        Ok(fields) => match text_field(fields, Field::Version) {
            Err(fault) => Err(fault),
            Ok(version) => match text_field(fields, Field::CurrentDatabase) {
                Err(fault) => Err(fault),
                Ok(current_database) => Ok(StatusRowModel { version, current_database }),
            },
        },
    }
}

/// The rows that the items of `data` hold, in order, or the fault of the first
/// item that has one.
pub open spec fn status_rows(items: Seq<JsonTree>) -> Result<Seq<StatusRowModel>, ShapeFault> {
    collected(items, |item: JsonTree| status_row(item))
}

/// The rows that a document holds.
pub open spec fn status_rows_of(doc: JsonTree) -> Result<Seq<StatusRowModel>, ShapeFault> {
    match fields_of(doc) {
        Err(fault) => Err(fault),
        Ok(fields) => match array_field(fields, Field::Data) {
            Err(fault) => Err(fault),
            Ok(items) => status_rows(items),
        },
    }
}

/// The status that the rows of a probe report, the exchange having taken
/// `latency_ms`: that of the first row. A probe without rows is a protocol
/// error.
pub open spec fn status_from_rows(rows: Seq<StatusRowModel>, latency_ms: u128) -> Result<
    ConnectionStatusModel,
    RelayFault,
> {
    if rows.len() == 0 {
        Err(RelayFault::Protocol)
    } else {
        Ok(
            ConnectionStatusModel {
                connected: true,
                latency_ms,
                version: rows[0].version,
                current_database: rows[0].current_database,
            },
        )
    }
}

/// The status of a parsed body. A body that is no JSON or has another shape
/// is a decoding error; one without rows is a protocol error.
pub open spec fn strict_status(parsed: Result<JsonTree, Seq<char>>, latency_ms: u128) -> Result<
    ConnectionStatusModel,
    RelayFault,
> {
    match parsed {
        Err(cause) => Err(undecodable(cause)),
        Ok(doc) => match status_rows_of(doc) {
            Err(fault) => Err(undecodable(fault.cause())),
            Ok(rows) => status_from_rows(rows, latency_ms),
        },
    }
}

/// Law: a probe that returns no row is a protocol error. Whatever else the
/// document holds, where its `data` is an empty array no status is made up.
pub proof fn law_probe_without_rows_fails(fields: Seq<JsonField>, latency_ms: u128)
    requires
        member(fields, Field::Data.key()) == Some(JsonTree::Array(Seq::empty())),
    ensures
        strict_status(Ok(JsonTree::Object(fields)), latency_ms) == Err::<
            ConnectionStatusModel,
            RelayFault,
        >(RelayFault::Protocol),
{
}

/// The row that one item of `data` holds.
fn read_status_row(item: &Json) -> (r: Result<StatusRow, ShapeFault>)
    ensures
        match r {
            Ok(row) => status_row(item@) == Ok::<StatusRowModel, ShapeFault>(row@),
            Err(fault) => status_row(item@) == Err::<StatusRowModel, ShapeFault>(fault),
        },
{
    let members = match element_members(item, Field::Data) {
        Err(fault) => {
            return Err(fault);
        },
        Ok(members) => members,
    };
    let version = match text_member(members, Field::Version) {
        Err(fault) => {
            return Err(fault);
        },
        Ok(text) => text.clone(),
    };
    match text_member(members, Field::CurrentDatabase) {
        Err(fault) => Err(fault),
        Ok(text) => Ok(StatusRow { version, current_database: text.clone() }),
    }
}

/// The rows that a document holds, in order. A document of another shape
/// yields the fault of the first field that departs from it.
pub fn read_status_rows(doc: &Json) -> (r: Result<Vec<StatusRow>, ShapeFault>)
    ensures
        match r {
            Ok(rows) => status_rows_of(doc@) == Ok::<Seq<StatusRowModel>, ShapeFault>(
                status_list(rows@),
            ),
            Err(fault) => status_rows_of(doc@) == Err::<Seq<StatusRowModel>, ShapeFault>(fault),
        },
{
    let items = match object_members(doc) {
        Err(fault) => {
            return Err(fault);
        },
        Ok(members) => match array_member(members, Field::Data) {
            Err(fault) => {
                return Err(fault);
            },
            Ok(items) => items,
        },
    };
    let ghost all = trees(items@);
    let ghost each = |item: JsonTree| status_row(item);
    let mut rows: Vec<StatusRow> = Vec::new();
    let mut i: usize = 0;
    proof {
        assert(status_list(rows@) =~= Seq::<StatusRowModel>::empty());
    }
    while i < items.len()
        invariant
            i <= items.len(),
            all == trees(items@),
            each == |item: JsonTree| status_row(item),
            status_rows_of(doc@) == status_rows(all),
            collected(all.take(i as int), each) == Ok::<Seq<StatusRowModel>, ShapeFault>(
                status_list(rows@),
            ),
        decreases items.len() - i,
    {
        proof {
            lemma_collected_next(all, each, i as int);
        }
        match read_status_row(&items[i]) {
            Err(fault) => {
                proof {
                    lemma_fault_stays(all, each, i + 1);
                }
                return Err(fault);
            },
            Ok(row) => {
                let ghost before = status_list(rows@);
                rows.push(row);
                proof {
                    assert(status_list(rows@) =~= before.push(row@));
                }
            },
        }
        i += 1;
    }
    proof {
        assert(all.take(items.len() as int) =~= all);
    }
    Ok(rows)
}

/// The status that the rows of a probe report, the exchange having taken
/// `latency_ms`: connected, with the version and the current database of the
/// first row. Fails with a protocol error where there is no row.
pub fn status_of_rows(rows: Vec<StatusRow>, latency_ms: u128) -> (r: Result<
    ConnectionStatus,
    RelayError,
>)
    ensures
        crate::error::outcome(r) == status_from_rows(status_list(rows@), latency_ms),
{
    let mut rows = rows;
    if rows.len() == 0 {
        return Err(RelayError::Protocol);
    }
    let first = rows.swap_remove(0);
    Ok(
        ConnectionStatus {
            connected: true,
            latency_ms,
            version: first.version,
            current_database: first.current_database,
        },
    )
}

/// The status of a parsed body, the exchange having taken `latency_ms`. Fails
/// with a decoding error, which names the cause, where the body is no JSON or
/// has another shape, and with a protocol error where it holds no row.
pub fn status_from_parsed(parsed: Result<Json, String>, latency_ms: u128) -> (r: Result<
    ConnectionStatus,
    RelayError,
>)
    ensures
        crate::error::outcome(r) == strict_status(crate::error::outcome(parsed), latency_ms),
{
    match parsed {
        Err(cause) => Err(RelayError::Decoding { stage: DecodeStage::Parse, cause }),
        Ok(doc) => match read_status_rows(&doc) {
            Err(fault) => Err(
                RelayError::Decoding { stage: DecodeStage::Parse, cause: fault.cause_text() },
            ),
            Ok(rows) => status_of_rows(rows, latency_ms),
        },
    }
}

} // verus!
