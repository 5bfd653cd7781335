//! The four operations of the relay.
//!
//! Each operation is one exchange with the server, in two steps that the
//! caller joins: `*_request` checks the inputs and says what to send, and
//! `*_response` turns what came back into the result. Neither step keeps
//! anything between calls. An operation whose inputs are refused yields no
//! request, so nothing is sent for it.

use crate::error::{outcome, DecodeStage, RelayError, RelayFault};
use crate::json::{parse, parsed, JsonTree};
use crate::model::{
    ConnectionDescriptor, ConnectionModel, ConnectionStatus, ConnectionStatusModel,
    QueryRequest, QueryRequestModel, SchemaTables, SchemaTablesModel, TablePreview,
    TablePreviewModel, TablePreviewRequest, TablePreviewRequestModel,
};
use crate::preview::{lenient_preview, preview_from_parsed, preview_or_notice, strict_preview};
use crate::query::{
    arbitrary_query, arbitrary_query_plan, schema_listing_query, schema_listing_text,
    status_probe_query, status_probe_statement, table_preview_plan, table_preview_query,
};
use crate::schemas::{listing_from_parsed, listing_outcome, strict_listing};
use crate::status::{status_from_parsed, strict_status};
use crate::text::is_blank;
use crate::transport::{
    accept, accepted, prepare, prepared, Body, BodyModel, PostRequest, PostRequestModel, Reply,
    ReplyModel,
};
use vstd::prelude::*;

verus! {

/// What the parser makes of a body: of its text or, where the body could not
/// be read, the cause of that in place of the parser's own.
pub open spec fn document_of(body: BodyModel) -> Result<JsonTree, Seq<char>> {
    match body {
        BodyModel::Text(text) => parsed(text),
        BodyModel::Unreadable(cause) => Err(cause),
    }
}

/// What is sent to list the tables over `connection`.
pub open spec fn list_schemas_plan(connection: ConnectionModel) -> Result<
    PostRequestModel,
    RelayFault,
> {
    prepared(connection, schema_listing_text(connection.database))
}

/// What is sent to preview a table. The schema and the table are checked
/// before the connection.
pub open spec fn preview_table_plan(request: TablePreviewRequestModel) -> Result<
    PostRequestModel,
    RelayFault,
> {
    match table_preview_plan(
        request.schema,
        request.table,
        request.limit,
        request.sort_column,
        request.sort_direction,
    ) {
        Err(fault) => Err(fault),
        Ok(statement) => prepared(request.connection, statement),
    }
}

/// What is sent to run a query. The query is checked before the connection.
pub open spec fn run_query_plan(request: QueryRequestModel) -> Result<
    PostRequestModel,
    RelayFault,
> {
    match arbitrary_query_plan(request.query, request.limit) {
        Err(fault) => Err(fault),
        Ok(statement) => prepared(request.connection, statement),
    }
}

/// What is sent to probe the status of `connection`.
pub open spec fn connection_status_plan(connection: ConnectionModel) -> Result<
    PostRequestModel,
    RelayFault,
> {
    prepared(connection, status_probe_statement())
}

/// The listing that `reply` carries: the failure that the reply reports, else
/// the rows of its body grouped by schema.
pub open spec fn list_schemas_result(reply: ReplyModel) -> Result<
    Seq<SchemaTablesModel>,
    RelayFault,
> {
    match accepted(reply) {
        Err(fault) => Err(fault),
        Ok(body) => strict_listing(document_of(body)),
    }
}

/// The preview that `reply` carries: the failure that the reply reports, else
/// the table of its body, decoded strictly.
pub open spec fn preview_table_result(reply: ReplyModel) -> Result<TablePreviewModel, RelayFault> {
    match accepted(reply) {
        Err(fault) => Err(fault),
        Ok(body) => strict_preview(document_of(body)),
    }
}

/// The result of a query that `reply` carries: the failure that the reply
/// reports, else the table of its body or, where the body is no table, a
/// single cell with its text. Only a body that could not be read is a
/// failure here.
pub open spec fn run_query_result(reply: ReplyModel) -> Result<TablePreviewModel, RelayFault> {
    match accepted(reply) {
        Err(fault) => Err(fault),
        Ok(BodyModel::Unreadable(cause)) => Err(
            RelayFault::Decoding { stage: DecodeStage::Read, cause },
        ),
        Ok(BodyModel::Text(text)) => Ok(lenient_preview(parsed(text), text)),
    }
}

/// The status that `reply` carries, the exchange having taken `latency_ms`:
/// the failure that the reply reports, else the status of its body.
pub open spec fn connection_status_result(reply: ReplyModel, latency_ms: u128) -> Result<
    ConnectionStatusModel,
    RelayFault,
> {
    match accepted(reply) {
        Err(fault) => Err(fault),
        Ok(body) => strict_status(document_of(body), latency_ms),
    }
}

/// Law: an operation over a connection whose host or user name is blank fails
/// with a validation error, whatever its other inputs are. It yields no
/// request, so nothing is sent.
pub proof fn law_blank_connection_is_refused(
    connection: ConnectionModel,
    preview: TablePreviewRequestModel,
    query: QueryRequestModel,
)
    requires
        is_blank(connection.host) || is_blank(connection.username),
        preview.connection == connection,
        query.connection == connection,
    ensures
        list_schemas_plan(connection) matches Err(fault) && fault.is_validation(),
        preview_table_plan(preview) matches Err(fault) && fault.is_validation(),
        run_query_plan(query) matches Err(fault) && fault.is_validation(),
        connection_status_plan(connection) matches Err(fault) && fault.is_validation(),
{
}

/// Parses a body: its text or, where the body could not be read, the cause of
/// that in place of the parser's own.
fn parse_body(body: Body) -> (r: Result<crate::json::Json, String>)
    ensures
        outcome(r) == document_of(body@),
{
    match body {
        Body::Text(text) => parse(text.as_str()),
        Body::Unreadable(cause) => Err(cause),
    }
}

/// List schemas, first step: what to send to list the tables of the
/// connection's database or, where it names none, of every schema but the
/// server's own. Fails where the host or the user name is blank.
pub fn list_schemas_request(connection: &ConnectionDescriptor) -> (r: Result<
    PostRequest,
    RelayError,
>)
    ensures
        outcome(r) == list_schemas_plan(connection@),
{
    prepare(connection, schema_listing_query(&connection.database))
}

/// List schemas, second step: the schemas in ascending order, each with its
/// tables in the order in which the server sent them; or the failure that the
/// reply reports; or a decoding error where the body is not a listing.
pub fn list_schemas_response(reply: Reply) -> (r: Result<Vec<SchemaTables>, RelayError>)
    ensures
        listing_outcome(r) == list_schemas_result(reply@),
{
    match accept(reply) {
        Err(error) => Err(error),
        Ok(body) => listing_from_parsed(parse_body(body)),
    }
}

/// Preview table, first step: what to send to read the first rows of a
/// table. Fails where the schema, the table, the host or the user name is
/// blank, in this order.
pub fn preview_table_request(request: &TablePreviewRequest) -> (r: Result<
    PostRequest,
    RelayError,
>)
    ensures
        outcome(r) == preview_table_plan(request@),
{
    match table_preview_query(
        request.schema.as_str(),
        request.table.as_str(),
        request.limit,
        &request.sort_column,
        &request.sort_direction,
    ) {
        Err(error) => Err(error),
        Ok(statement) => prepare(&request.connection, statement),
    }
}

/// Preview table, second step: the table that the body holds; or the failure
/// that the reply reports; or a decoding error where the body is not a table.
pub fn preview_table_response(reply: Reply) -> (r: Result<TablePreview, RelayError>)
    ensures
        outcome(r) == preview_table_result(reply@),
{
    match accept(reply) {
        Err(error) => Err(error),
        Ok(body) => preview_from_parsed(parse_body(body)),
    }
}

/// Run query, first step: what to send to run the statement. Fails where the
/// statement is empty or the host or the user name is blank, in this order.
pub fn run_query_request(request: &QueryRequest) -> (r: Result<PostRequest, RelayError>)
    ensures
        outcome(r) == run_query_plan(request@),
{
    match arbitrary_query(request.query.as_str(), request.limit) {
        Err(error) => Err(error),
        Ok(statement) => prepare(&request.connection, statement),
    }
}

/// Run query, second step: the table that the body holds or, where the body
/// is no table, a single cell with its text; or the failure that the reply
/// reports. A body of another shape is no failure here.
pub fn run_query_response(reply: Reply) -> (r: Result<TablePreview, RelayError>)
    ensures
        outcome(r) == run_query_result(reply@),
{
    match accept(reply) {
        Err(error) => Err(error),
        Ok(Body::Unreadable(cause)) => Err(
            RelayError::Decoding { stage: DecodeStage::Read, cause },
        ),
        Ok(Body::Text(text)) => {
            let document = parse(text.as_str());
            Ok(preview_or_notice(document, text.as_str()))
        },
    }
}

/// Connection status, first step: what to send to probe the server. Fails
/// where the host or the user name is blank.
pub fn connection_status_request(connection: &ConnectionDescriptor) -> (r: Result<
    PostRequest,
    RelayError,
>)
    ensures
        outcome(r) == connection_status_plan(connection@),
{
    prepare(connection, status_probe_query())
}

/// Connection status, second step: the status that the first row of the body
/// reports, the exchange having taken `latency_ms`; or the failure that the
/// reply reports; or a decoding error where the body is not the answer to a
/// probe; or a protocol error where it holds no row.
pub fn connection_status_response(reply: Reply, latency_ms: u128) -> (r: Result<
    ConnectionStatus,
    RelayError,
>)
    ensures
        outcome(r) == connection_status_result(reply@, latency_ms),
{
    match accept(reply) {
        Err(error) => Err(error),
        Ok(body) => status_from_parsed(parse_body(body), latency_ms),
    }
}

} // verus!
