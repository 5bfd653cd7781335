//! The values that callers hand in and get back, each with the mathematical
//! value (`@`) that the contracts speak of.

use crate::json::{trees, Json, JsonTree};
use vstd::prelude::*;

verus! {

/// One ClickHouse endpoint and the credentials for it.
#[derive(Debug, Clone, PartialEq, Eq)]
pub struct ConnectionDescriptor {
    pub host: String,
    pub port: u16,
    pub username: String,
    pub password: String,
    pub database: Option<String>,
    pub secure: bool,
}

/// The mathematical value of a [`ConnectionDescriptor`].
pub struct ConnectionModel {
    pub host: Seq<char>,
    pub port: u16,
    pub username: Seq<char>,
    pub password: Seq<char>,
    pub database: Option<Seq<char>>,
    pub secure: bool,
}

/// A request for the first rows of one table.
#[derive(Debug, Clone, PartialEq, Eq)]
pub struct TablePreviewRequest {
    pub connection: ConnectionDescriptor,
    pub schema: String,
    pub table: String,
    pub limit: Option<u32>,
    pub sort_column: Option<String>,
    pub sort_direction: Option<String>,
}

/// The mathematical value of a [`TablePreviewRequest`].
pub struct TablePreviewRequestModel {
    pub connection: ConnectionModel,
    pub schema: Seq<char>,
    pub table: Seq<char>,
    pub limit: Option<u32>,
    pub sort_column: Option<Seq<char>>,
    pub sort_direction: Option<Seq<char>>,
}

/// A request to run one statement.
#[derive(Debug, Clone, PartialEq, Eq)]
pub struct QueryRequest {
    pub connection: ConnectionDescriptor,
    pub query: String,
    pub limit: Option<u32>,
}

/// The mathematical value of a [`QueryRequest`].
pub struct QueryRequestModel {
    pub connection: ConnectionModel,
    pub query: Seq<char>,
    pub limit: Option<u32>,
}

/// One table of a schema, with its number of rows where the server knows it.
#[derive(Debug, Clone, PartialEq, Eq)]
pub struct SchemaTableEntry {
    pub name: String,
    pub row_count: Option<u64>,
}

/// The mathematical value of a [`SchemaTableEntry`].
pub struct TableEntryModel {
    pub name: Seq<char>,
    pub row_count: Option<u64>,
}

/// A schema and its tables.
#[derive(Debug, Clone, PartialEq, Eq)]
pub struct SchemaTables {
    pub schema: String,
    pub tables: Vec<SchemaTableEntry>,
}

/// The mathematical value of a [`SchemaTables`].
pub struct SchemaTablesModel {
    pub schema: Seq<char>,
    pub tables: Seq<TableEntryModel>,
}

/// A table of results: the column names in the order the server reported
/// them, and the rows as the server sent them.
#[derive(Debug, PartialEq, Eq)]
pub struct TablePreview {
    pub columns: Vec<String>,
    pub rows: Vec<Json>,
}

/// The mathematical value of a [`TablePreview`].
pub struct TablePreviewModel {
    pub columns: Seq<Seq<char>>,
    pub rows: Seq<JsonTree>,
}

/// What a status probe found.
#[derive(Debug, Clone, PartialEq, Eq)]
pub struct ConnectionStatus {
    pub connected: bool,
    pub latency_ms: u128,
    pub version: String,
    pub current_database: String,
}

/// The mathematical value of a [`ConnectionStatus`].
pub struct ConnectionStatusModel {
    pub connected: bool,
    pub latency_ms: u128,
    pub version: Seq<char>,
    pub current_database: Seq<char>,
}

/// The characters of an optional text.
pub open spec fn text_of(value: Option<String>) -> Option<Seq<char>> {
    match value {
        Some(text) => Some(text@),
        None => None,
    }
}

/// The characters of each text of a sequence.
pub open spec fn texts(items: Seq<String>) -> Seq<Seq<char>> {
    Seq::new(items.len(), |i: int| items[i]@)
}

/// The values of a sequence of table entries.
pub open spec fn table_entries(items: Seq<SchemaTableEntry>) -> Seq<TableEntryModel> {
    Seq::new(items.len(), |i: int| items[i]@)
}

/// The values of a sequence of schemas.
pub open spec fn schema_list(items: Seq<SchemaTables>) -> Seq<SchemaTablesModel> {
    Seq::new(items.len(), |i: int| items[i]@)
}

impl View for ConnectionDescriptor {
    type V = ConnectionModel;

    open spec fn view(&self) -> ConnectionModel {
        ConnectionModel {
            host: self.host@,
            port: self.port,
            username: self.username@,
            password: self.password@,
            database: text_of(self.database),
            secure: self.secure,
        }
    }
}

impl View for TablePreviewRequest {
    type V = TablePreviewRequestModel;

    open spec fn view(&self) -> TablePreviewRequestModel {
        TablePreviewRequestModel {
            connection: self.connection@,
            schema: self.schema@,
            table: self.table@,
            limit: self.limit,
            sort_column: text_of(self.sort_column),
            sort_direction: text_of(self.sort_direction),
        }
    }
}

impl View for QueryRequest {
    type V = QueryRequestModel;

    open spec fn view(&self) -> QueryRequestModel {
        QueryRequestModel { connection: self.connection@, query: self.query@, limit: self.limit }
    }
}

impl View for SchemaTableEntry {
    type V = TableEntryModel;

    open spec fn view(&self) -> TableEntryModel {
        TableEntryModel { name: self.name@, row_count: self.row_count }
    }
}

impl View for SchemaTables {
    type V = SchemaTablesModel;

    open spec fn view(&self) -> SchemaTablesModel {
        SchemaTablesModel { schema: self.schema@, tables: table_entries(self.tables@) }
    }
}

impl View for TablePreview {
    type V = TablePreviewModel;

    open spec fn view(&self) -> TablePreviewModel {
        TablePreviewModel { columns: texts(self.columns@), rows: trees(self.rows@) }
    }
}

impl View for ConnectionStatus {
    type V = ConnectionStatusModel;

    open spec fn view(&self) -> ConnectionStatusModel {
        ConnectionStatusModel {
            connected: self.connected,
            latency_ms: self.latency_ms,
            version: self.version@,
            current_database: self.current_database@,
        }
    }
}

} // verus!
