//! Decoding a listing of tables, `{data: [{database, name, total_rows}]}`, and
//! grouping its rows by schema.

use crate::error::{DecodeStage, RelayError, RelayFault};
use crate::json::{trees, Json, JsonTree};
use crate::lexical::{
    law_precedes_irreflexive, law_precedes_total, law_precedes_transitive, precedes,
    text_precedes,
};
use crate::model::{
    schema_list, table_entries, SchemaTableEntry, SchemaTables, SchemaTablesModel,
    TableEntryModel,
};
use crate::preview::undecodable;
use crate::shape::{
    array_field, array_member, collected, count_field, count_member, element_fields,
    element_members, fields_of, lemma_collected_next, lemma_fault_stays, object_members,
    text_field, text_member, Field, ShapeFault,
};
use vstd::prelude::*;

verus! {

/// One row of a listing of tables.
#[derive(Debug, Clone, PartialEq, Eq)]
pub struct TableRow {
    pub database: String,
    pub name: String,
    pub total_rows: Option<u64>,
}

/// The mathematical value of a [`TableRow`].
pub struct TableRowModel {
    pub database: Seq<char>,
    pub name: Seq<char>,
    pub total_rows: Option<u64>,
}

impl View for TableRow {
    type V = TableRowModel;

    open spec fn view(&self) -> TableRowModel {
        TableRowModel { database: self.database@, name: self.name@, total_rows: self.total_rows }
    }
}

/// The values of a sequence of rows.
pub open spec fn row_list(rows: Seq<TableRow>) -> Seq<TableRowModel> {
    Seq::new(rows.len(), |i: int| rows[i]@)
}

/// The row that one item of `data` holds.
pub open spec fn table_row(item: JsonTree) -> Result<TableRowModel, ShapeFault> {
    match element_fields(item, Field::Data) {
        Err(fault) => Err(fault),
        Ok(fields) => match text_field(fields, Field::Database) {
            Err(fault) => Err(fault),
            Ok(database) => match text_field(fields, Field::Name) {
                Err(fault) => Err(fault),
                Ok(name) => match count_field(fields, Field::TotalRows) {
                    Err(fault) => Err(fault),
                    Ok(total_rows) => Ok(TableRowModel { database, name, total_rows }),
                },
            },
        },
    }
}

/// The rows that the items of `data` hold, in order, or the fault of the first
/// item that has one.
pub open spec fn table_rows(items: Seq<JsonTree>) -> Result<Seq<TableRowModel>, ShapeFault> {
    collected(items, |item: JsonTree| table_row(item))
}

/// The rows that a document holds.
pub open spec fn table_rows_of(doc: JsonTree) -> Result<Seq<TableRowModel>, ShapeFault> {
    match fields_of(doc) {
        Err(fault) => Err(fault),
        Ok(fields) => match array_field(fields, Field::Data) {
            Err(fault) => Err(fault),
            Ok(items) => table_rows(items),
        },
    }
}

/// The table that a row describes.
pub open spec fn entry_of(row: TableRowModel) -> TableEntryModel {
    TableEntryModel { name: row.name, row_count: row.total_rows }
}

/// The tables of `schema` among `rows`, in the order of the rows.
pub open spec fn tables_of(rows: Seq<TableRowModel>, schema: Seq<char>) -> Seq<TableEntryModel>
    decreases rows.len(),
{
    if rows.len() == 0 {
        Seq::empty()
    } else if rows.last().database == schema {
        tables_of(rows.drop_last(), schema).push(entry_of(rows.last()))
    } else {
        tables_of(rows.drop_last(), schema)
    }
}

/// Whether one of `groups` is for `schema`.
pub open spec fn has_schema(groups: Seq<SchemaTablesModel>, schema: Seq<char>) -> bool {
    exists|i: int| 0 <= i < groups.len() && (#[trigger] groups[i]).schema == schema
}

/// Whether `groups` is the grouping of `rows` by schema: the schemas come in
/// ascending order, each once; every schema of a row has its group; and a
/// group holds the tables of its schema, in the order of the rows.
pub open spec fn is_grouping_of(groups: Seq<SchemaTablesModel>, rows: Seq<TableRowModel>) -> bool {
    &&& forall|i: int, j: int|
        0 <= i < j < groups.len() ==> precedes(
            (#[trigger] groups[i]).schema,
            (#[trigger] groups[j]).schema,
        )
    &&& forall|i: int|
        0 <= i < groups.len() ==> (#[trigger] groups[i]).tables.len() > 0 && groups[i].tables
            == tables_of(rows, groups[i].schema)
    &&& forall|k: int| 0 <= k < rows.len() ==> has_schema(groups, (#[trigger] rows[k]).database)
}

/// The grouping of `rows` by schema. There is exactly one
/// ([`law_grouping_is_unique`]), and [`group_by_schema`] computes it.
pub open spec fn grouping_of(rows: Seq<TableRowModel>) -> Seq<SchemaTablesModel> {
    choose|groups: Seq<SchemaTablesModel>| is_grouping_of(groups, rows)
}

/// The listing of a parsed body: its rows grouped by schema. A body that is
/// no JSON or has another shape is a failure.
pub open spec fn strict_listing(parsed: Result<JsonTree, Seq<char>>) -> Result<
    Seq<SchemaTablesModel>,
    RelayFault,
> {
    match parsed {
        Err(cause) => Err(undecodable(cause)),
        Ok(doc) => match table_rows_of(doc) {
            Err(fault) => Err(undecodable(fault.cause())),
            Ok(rows) => Ok(grouping_of(rows)),
        },
    }
}

/// The values of both sides of the result of a listing.
pub open spec fn listing_outcome(r: Result<Vec<SchemaTables>, RelayError>) -> Result<
    Seq<SchemaTablesModel>,
    RelayFault,
> {
    match r {
        Ok(groups) => Ok(schema_list(groups@)),
        Err(error) => Err(error@),
    }
}

/// Whether the texts of `names` come in ascending order, each once.
pub open spec fn ascending(names: Seq<Seq<char>>) -> bool {
    forall|i: int, j: int|
        0 <= i < j < names.len() ==> precedes(#[trigger] names[i], #[trigger] names[j])
}

/// The schemas of `groups`, in order.
pub open spec fn schemas_of(groups: Seq<SchemaTablesModel>) -> Seq<Seq<char>> {
    Seq::new(groups.len(), |i: int| groups[i].schema)
}

/// Two ascending sequences that hold the same texts are the same sequence.
proof fn lemma_ascending_same_members(a: Seq<Seq<char>>, b: Seq<Seq<char>>)
    requires
        ascending(a),
        ascending(b),
        forall|i: int| 0 <= i < a.len() ==> b.contains(#[trigger] a[i]),
        forall|j: int| 0 <= j < b.len() ==> a.contains(#[trigger] b[j]),
    ensures
        a == b,
    decreases a.len(),
{
    if a.len() == 0 {
        if b.len() > 0 {
            assert(a.contains(b[0]));
        }
        assert(a =~= b);
    } else {
        assert(b.contains(a[0]));
        let j = choose|j: int| 0 <= j < b.len() && b[j] == a[0];
        assert(a.contains(b[0]));
        let i = choose|i: int| 0 <= i < a.len() && a[i] == b[0];
        law_precedes_irreflexive(a[0]);
        if j > 0 {
            assert(precedes(b[0], b[j]));
            if i > 0 {
                assert(precedes(a[0], a[i]));
                law_precedes_transitive(a[0], b[0], a[0]);
            }
        }
        assert(a[0] == b[0]);
        let a_rest = a.drop_first();
        let b_rest = b.drop_first();
        assert forall|m: int, n: int| 0 <= m < n < a_rest.len() implies precedes(
            #[trigger] a_rest[m],
            #[trigger] a_rest[n],
        ) by {
            assert(precedes(a[m + 1], a[n + 1]));
        }
        assert forall|m: int, n: int| 0 <= m < n < b_rest.len() implies precedes(
            #[trigger] b_rest[m],
            #[trigger] b_rest[n],
        ) by {
            assert(precedes(b[m + 1], b[n + 1]));
        }
        assert forall|m: int| 0 <= m < a_rest.len() implies b_rest.contains(
            #[trigger] a_rest[m],
        ) by {
            assert(precedes(a[0], a[m + 1]));
            assert(b.contains(a[m + 1]));
            let n = choose|n: int| 0 <= n < b.len() && b[n] == a[m + 1];
            assert(b_rest[n - 1] == a_rest[m]);
        }
        assert forall|n: int| 0 <= n < b_rest.len() implies a_rest.contains(
            #[trigger] b_rest[n],
        ) by {
            assert(precedes(b[0], b[n + 1]));
            assert(a.contains(b[n + 1]));
            let m = choose|m: int| 0 <= m < a.len() && a[m] == b[n + 1];
            assert(a_rest[m - 1] == b_rest[n]);
        }
        lemma_ascending_same_members(a_rest, b_rest);
        assert(a =~= seq![a[0]] + a_rest);
        assert(b =~= seq![b[0]] + b_rest);
    }
}

/// Every schema of one grouping of `rows` is a schema of any other.
proof fn lemma_schema_is_shared(
    a: Seq<SchemaTablesModel>,
    b: Seq<SchemaTablesModel>,
    rows: Seq<TableRowModel>,
    i: int,
)
    requires
        is_grouping_of(a, rows),
        is_grouping_of(b, rows),
        0 <= i < a.len(),
    ensures
        schemas_of(b).contains(a[i].schema),
{
    let schema = a[i].schema;
    if forall|k: int| 0 <= k < rows.len() ==> (#[trigger] rows[k]).database != schema {
        lemma_no_tables(rows, schema);
        assert(a[i].tables.len() > 0);
    }
    let k = choose|k: int| 0 <= k < rows.len() && (#[trigger] rows[k]).database == schema;
    assert(has_schema(b, rows[k].database));
    let j = choose|j: int| 0 <= j < b.len() && (#[trigger] b[j]).schema == schema;
    assert(schemas_of(b)[j] == schema);
}

/// Law: rows have one grouping by schema. Two sequences of groups that both
/// hold the schemas of the rows in ascending order, each once and each with
/// its tables in the order of the rows, are the same sequence.
pub proof fn law_grouping_is_unique(
    a: Seq<SchemaTablesModel>,
    b: Seq<SchemaTablesModel>,
    rows: Seq<TableRowModel>,
)
    requires
        is_grouping_of(a, rows),
        is_grouping_of(b, rows),
    ensures
        a == b,
{
    let a_names = schemas_of(a);
    let b_names = schemas_of(b);
    assert forall|i: int, j: int| 0 <= i < j < a_names.len() implies precedes(
        #[trigger] a_names[i],
        #[trigger] a_names[j],
    ) by {
        assert(precedes(a[i].schema, a[j].schema));
    }
    assert forall|i: int, j: int| 0 <= i < j < b_names.len() implies precedes(
        #[trigger] b_names[i],
        #[trigger] b_names[j],
    ) by {
        assert(precedes(b[i].schema, b[j].schema));
    }
    assert forall|i: int| 0 <= i < a_names.len() implies b_names.contains(
        #[trigger] a_names[i],
    ) by {
        lemma_schema_is_shared(a, b, rows, i);
    }
    assert forall|j: int| 0 <= j < b_names.len() implies a_names.contains(
        #[trigger] b_names[j],
    ) by {
        lemma_schema_is_shared(b, a, rows, j);
    }
    lemma_ascending_same_members(a_names, b_names);
    assert(a.len() == b.len());
    assert forall|i: int| 0 <= i < a.len() implies a[i] == b[i] by {
        assert(a_names[i] == a[i].schema);
        assert(b_names[i] == b[i].schema);
        assert(a[i].tables == tables_of(rows, a[i].schema));
        assert(b[i].tables == tables_of(rows, b[i].schema));
    }
    assert(a =~= b);
}

/// Rows of which none is of `schema` hold no table of it.
proof fn lemma_no_tables(rows: Seq<TableRowModel>, schema: Seq<char>)
    requires
        forall|k: int| 0 <= k < rows.len() ==> (#[trigger] rows[k]).database != schema,
    ensures
        tables_of(rows, schema) == Seq::<TableEntryModel>::empty(),
    decreases rows.len(),
{
    if rows.len() > 0 {
        let front = rows.drop_last();
        assert forall|k: int| 0 <= k < front.len() implies (#[trigger] front[k]).database
            != schema by {
            assert(front[k] == rows[k]);
        }
        lemma_no_tables(front, schema);
        assert(rows.last() == rows[rows.len() - 1]);
    }
}

/// The groups of a grouping have different schemas.
proof fn lemma_schemas_differ(
    groups: Seq<SchemaTablesModel>,
    rows: Seq<TableRowModel>,
    i: int,
    j: int,
)
    requires
        is_grouping_of(groups, rows),
        0 <= i < groups.len(),
        0 <= j < groups.len(),
        i != j,
    ensures
        groups[i].schema != groups[j].schema,
{
    law_precedes_irreflexive(groups[i].schema);
    if i < j {
        assert(precedes(groups[i].schema, groups[j].schema));
    } else {
        assert(precedes(groups[j].schema, groups[i].schema));
    }
}

/// A row of a schema that has a group joins that group, at its end.
proof fn lemma_join_group(
    groups: Seq<SchemaTablesModel>,
    rows: Seq<TableRowModel>,
    row: TableRowModel,
    at: int,
)
    requires
        is_grouping_of(groups, rows),
        0 <= at < groups.len(),
        groups[at].schema == row.database,
    ensures
        is_grouping_of(
            groups.update(
                at,
                SchemaTablesModel {
                    schema: groups[at].schema,
                    tables: groups[at].tables.push(entry_of(row)),
                },
            ),
            rows.push(row),
        ),
{
    let joined = SchemaTablesModel {
        schema: groups[at].schema,
        tables: groups[at].tables.push(entry_of(row)),
    };
    let after = groups.update(at, joined);
    let more = rows.push(row);
    assert(more.drop_last() =~= rows);
    assert forall|i: int, j: int| 0 <= i < j < after.len() implies precedes(
        (#[trigger] after[i]).schema,
        (#[trigger] after[j]).schema,
    ) by {
        assert(after[i].schema == groups[i].schema);
        assert(after[j].schema == groups[j].schema);
    }
    assert forall|i: int| 0 <= i < after.len() implies (#[trigger] after[i]).tables.len() > 0
        && after[i].tables == tables_of(more, after[i].schema) by {
        if i != at {
            lemma_schemas_differ(groups, rows, i, at);
            assert(after[i] == groups[i]);
        }
    }
    assert forall|k: int| 0 <= k < more.len() implies has_schema(
        after,
        (#[trigger] more[k]).database,
    ) by {
        if k < rows.len() {
            assert(more[k] == rows[k]);
            assert(has_schema(groups, rows[k].database));
            let i = choose|i: int| 0 <= i < groups.len() && (#[trigger] groups[i]).schema
                == rows[k].database;
            assert(after[i].schema == groups[i].schema);
        } else {
            assert(after[at].schema == row.database);
        }
    }
}

/// A row of a schema that has no group yet opens one, at the place that keeps
/// the schemas in order.
proof fn lemma_open_group(
    groups: Seq<SchemaTablesModel>,
    rows: Seq<TableRowModel>,
    row: TableRowModel,
    at: int,
)
    requires
        is_grouping_of(groups, rows),
        0 <= at <= groups.len(),
        forall|k: int| 0 <= k < at ==> precedes((#[trigger] groups[k]).schema, row.database),
        at < groups.len() ==> !precedes(groups[at].schema, row.database) && groups[at].schema
            != row.database,
    ensures
        is_grouping_of(
            groups.insert(
                at,
                SchemaTablesModel { schema: row.database, tables: seq![entry_of(row)] },
            ),
            rows.push(row),
        ),
{
    let opened = SchemaTablesModel { schema: row.database, tables: seq![entry_of(row)] };
    let after = groups.insert(at, opened);
    let more = rows.push(row);
    assert(more.drop_last() =~= rows);
    assert forall|j: int| at <= j < groups.len() implies precedes(
        row.database,
        (#[trigger] groups[j]).schema,
    ) by {
        law_precedes_total(groups[at].schema, row.database);
        if j > at {
            assert(precedes(groups[at].schema, groups[j].schema));
            law_precedes_transitive(row.database, groups[at].schema, groups[j].schema);
        }
    }
    assert forall|j: int| 0 <= j < groups.len() implies (#[trigger] groups[j]).schema
        != row.database by {
        law_precedes_irreflexive(row.database);
        if j < at {
            assert(precedes(groups[j].schema, row.database));
        } else {
            assert(precedes(row.database, groups[j].schema));
        }
    }
    assert forall|k: int| 0 <= k < rows.len() implies (#[trigger] rows[k]).database
        != row.database by {
        assert(has_schema(groups, rows[k].database));
    }
    lemma_no_tables(rows, row.database);
    assert forall|i: int, j: int| 0 <= i < j < after.len() implies precedes(
        (#[trigger] after[i]).schema,
        (#[trigger] after[j]).schema,
    ) by {
        if j < at {
            assert(after[i] == groups[i] && after[j] == groups[j]);
        } else if j == at {
            assert(after[i] == groups[i]);
        } else if i < at {
            assert(after[i] == groups[i] && after[j] == groups[j - 1]);
        } else if i == at {
            assert(after[j] == groups[j - 1]);
        } else {
            assert(after[i] == groups[i - 1] && after[j] == groups[j - 1]);
        }
    }
    assert forall|i: int| 0 <= i < after.len() implies (#[trigger] after[i]).tables.len() > 0
        && after[i].tables == tables_of(more, after[i].schema) by {
        if i < at {
            assert(after[i] == groups[i]);
        } else if i == at {
            assert(tables_of(more, row.database) =~= seq![entry_of(row)]);
        } else {
            assert(after[i] == groups[i - 1]);
        }
    }
    assert forall|k: int| 0 <= k < more.len() implies has_schema(
        after,
        (#[trigger] more[k]).database,
    ) by {
        if k < rows.len() {
            assert(more[k] == rows[k]);
            assert(has_schema(groups, rows[k].database));
            let i = choose|i: int| 0 <= i < groups.len() && (#[trigger] groups[i]).schema
                == rows[k].database;
            if i < at {
                assert(after[i] == groups[i]);
            } else {
                assert(after[i + 1] == groups[i]);
            }
        } else {
            assert(after[at].schema == row.database);
        }
    }
}

/// Whether the rows of each schema come in ascending order of their table
/// names, as the listing statement asks the server to send them.
pub open spec fn names_in_order(rows: Seq<TableRowModel>) -> bool {
    forall|i: int, j: int|
        0 <= i < j < rows.len() && (#[trigger] rows[i]).database == (#[trigger] rows[j]).database
            ==> !precedes(rows[j].name, rows[i].name)
}

/// Whether the tables come in ascending order of their names.
pub open spec fn tables_in_order(tables: Seq<TableEntryModel>) -> bool {
    forall|i: int, j: int|
        0 <= i < j < tables.len() ==> !precedes(
            (#[trigger] tables[j]).name,
            (#[trigger] tables[i]).name,
        )
}

/// Every table of a schema is the table of one of its rows.
proof fn lemma_table_has_row(rows: Seq<TableRowModel>, schema: Seq<char>, at: int) -> (k: int)
    requires
        0 <= at < tables_of(rows, schema).len(),
    ensures
        0 <= k < rows.len(),
        rows[k].database == schema,
        entry_of(rows[k]) == tables_of(rows, schema)[at],
    decreases rows.len(),
{
    let front = rows.drop_last();
    if rows.last().database == schema && at == tables_of(front, schema).len() {
        rows.len() - 1
    } else {
        let k = lemma_table_has_row(front, schema, at);
        assert(front[k] == rows[k]);
        k
    }
}

/// The tables of a schema among rows whose names are in order are in order.
proof fn lemma_tables_in_order(rows: Seq<TableRowModel>, schema: Seq<char>)
    requires
        names_in_order(rows),
    ensures
        tables_in_order(tables_of(rows, schema)),
    decreases rows.len(),
{
    if rows.len() > 0 {
        let front = rows.drop_last();
        assert forall|i: int, j: int|
            0 <= i < j < front.len() && (#[trigger] front[i]).database == (
            #[trigger] front[j]).database implies !precedes(front[j].name, front[i].name) by {
            assert(front[i] == rows[i] && front[j] == rows[j]);
        }
        lemma_tables_in_order(front, schema);
        if rows.last().database == schema {
            let before = tables_of(front, schema);
            let tables = tables_of(rows, schema);
            assert forall|i: int, j: int| 0 <= i < j < tables.len() implies !precedes(
                (#[trigger] tables[j]).name,
                (#[trigger] tables[i]).name,
            ) by {
                if j < before.len() {
                    assert(tables[i] == before[i] && tables[j] == before[j]);
                } else {
                    let k = lemma_table_has_row(front, schema, i);
                    assert(rows[k] == front[k]);
                    assert(rows[rows.len() - 1] == rows.last());
                    assert(tables[i] == before[i]);
                }
            }
        }
    }
}

/// Law: where the rows of each schema come in ascending order of their table
/// names, the tables of each group do too, so that the listing is ordered by
/// schema and then by table.
pub proof fn law_ordered_rows_give_ordered_tables(
    groups: Seq<SchemaTablesModel>,
    rows: Seq<TableRowModel>,
)
    requires
        is_grouping_of(groups, rows),
        names_in_order(rows),
    ensures
        forall|i: int| 0 <= i < groups.len() ==> tables_in_order((#[trigger] groups[i]).tables),
{
    assert forall|i: int| 0 <= i < groups.len() implies tables_in_order(
        (#[trigger] groups[i]).tables,
    ) by {
        lemma_tables_in_order(rows, groups[i].schema);
    }
}

/// The row that one item of `data` holds.
fn read_table_row(item: &Json) -> (r: Result<TableRow, ShapeFault>)
    ensures
        match r {
            Ok(row) => table_row(item@) == Ok::<TableRowModel, ShapeFault>(row@),
            Err(fault) => table_row(item@) == Err::<TableRowModel, ShapeFault>(fault),
        },
{
    let members = match element_members(item, Field::Data) {
        Err(fault) => {
            return Err(fault);
        },
        Ok(members) => members,
    };
    let database = match text_member(members, Field::Database) {
        Err(fault) => {
            return Err(fault);
        },
        Ok(text) => text.clone(),
    };
    let name = match text_member(members, Field::Name) {
        Err(fault) => {
            return Err(fault);
        },
        Ok(text) => text.clone(),
    };
    match count_member(members, Field::TotalRows) {
        Err(fault) => Err(fault),
        Ok(total_rows) => Ok(TableRow { database, name, total_rows }),
    }
}

/// The rows that a document holds, in order. A document of another shape
/// yields the fault of the first field that departs from it.
pub fn read_table_rows(doc: &Json) -> (r: Result<Vec<TableRow>, ShapeFault>)
    ensures
        match r {
            Ok(rows) => table_rows_of(doc@) == Ok::<Seq<TableRowModel>, ShapeFault>(
                row_list(rows@),
            ),
            Err(fault) => table_rows_of(doc@) == Err::<Seq<TableRowModel>, ShapeFault>(fault),
        },
{
    let items = match object_members(doc) {
        Err(fault) => {
            return Err(fault);
        },
        Ok(members) => match array_member(members, Field::Data) {
            Err(fault) => {
                return Err(fault);
            },
            Ok(items) => items,
        },
    };
    let ghost all = trees(items@);
    let ghost each = |item: JsonTree| table_row(item);
    let mut rows: Vec<TableRow> = Vec::new();
    let mut i: usize = 0;
    proof {
        assert(row_list(rows@) =~= Seq::<TableRowModel>::empty());
    }
    while i < items.len()
        invariant
            i <= items.len(),
            all == trees(items@),
            each == |item: JsonTree| table_row(item),
            table_rows_of(doc@) == table_rows(all),
            collected(all.take(i as int), each) == Ok::<Seq<TableRowModel>, ShapeFault>(
                row_list(rows@),
            ),
        decreases items.len() - i,
    {
        proof {
            lemma_collected_next(all, each, i as int);
        }
        match read_table_row(&items[i]) {
            Err(fault) => {
                proof {
                    lemma_fault_stays(all, each, i + 1);
                }
                return Err(fault);
            },
            Ok(row) => {
                let ghost before = row_list(rows@);
                rows.push(row);
                proof {
                    assert(row_list(rows@) =~= before.push(row@));
                }
            },
        }
        i += 1;
    }
    proof {
        assert(all.take(items.len() as int) =~= all);
    }
    Ok(rows)
}

/// Puts the table of `row` into `groups`: at the end of the group of its
/// schema or, where there is none, as a new group at the place that keeps the
/// schemas in order.
fn place(groups: &mut Vec<SchemaTables>, row: &TableRow, Ghost(rows): Ghost<Seq<TableRowModel>>)
    requires
        is_grouping_of(schema_list(old(groups)@), rows),
    ensures
        is_grouping_of(schema_list(final(groups)@), rows.push(row@)),
{
    let ghost before = schema_list(groups@);
    let mut at: usize = 0;
    while at < groups.len() && text_precedes(groups[at].schema.as_str(), row.database.as_str())
        invariant
            at <= groups.len(),
            before == schema_list(groups@),
            forall|k: int| 0 <= k < at ==> precedes((#[trigger] before[k]).schema, row@.database),
        decreases groups.len() - at,
    {
        proof {
            assert(before[at as int] == groups@[at as int]@);
        }
        at += 1;
    }
    let entry = SchemaTableEntry { name: row.name.clone(), row_count: row.total_rows };
    assert(entry@ == entry_of(row@));
    if at < groups.len() && groups[at].schema == row.database {
        let mut group = groups.remove(at);
        let ghost tables = table_entries(group.tables@);
        proof {
            assert(before[at as int] == group@);
        }
        group.tables.push(entry);
        proof {
            assert(table_entries(group.tables@) =~= tables.push(entry@));
        }
        groups.insert(at, group);
        proof {
            lemma_join_group(before, rows, row@, at as int);
            assert(schema_list(groups@) =~= before.update(
                at as int,
                SchemaTablesModel {
                    schema: before[at as int].schema,
                    tables: before[at as int].tables.push(entry_of(row@)),
                },
            ));
        }
    } else {
        let mut tables: Vec<SchemaTableEntry> = Vec::new();
        tables.push(entry);
        let group = SchemaTables { schema: row.database.clone(), tables };
        proof {
            assert(table_entries(group.tables@) =~= seq![entry_of(row@)]);
            if at < groups.len() {
                assert(before[at as int] == groups@[at as int]@);
            }
        }
        groups.insert(at, group);
        proof {
            lemma_open_group(before, rows, row@, at as int);
            assert(schema_list(groups@) =~= before.insert(
                at as int,
                SchemaTablesModel { schema: row@.database, tables: seq![entry_of(row@)] },
            ));
        }
    }
}

/// The grouping of `rows` by schema: the schemas in ascending order, each
/// once, each with its tables in the order of the rows.
pub fn group_by_schema(rows: &Vec<TableRow>) -> (groups: Vec<SchemaTables>)
    ensures
        is_grouping_of(schema_list(groups@), row_list(rows@)),
        schema_list(groups@) == grouping_of(row_list(rows@)),
{
    let ghost all = row_list(rows@);
    let mut groups: Vec<SchemaTables> = Vec::new();
    let mut i: usize = 0;
    while i < rows.len()
        invariant
            i <= rows.len(),
            all == row_list(rows@),
            is_grouping_of(schema_list(groups@), all.take(i as int)),
        decreases rows.len() - i,
    {
        place(&mut groups, &rows[i], Ghost(all.take(i as int)));
        proof {
            assert(all.take(i as int).push(rows@[i as int]@) =~= all.take(i + 1));
        }
        i += 1;
    }
    proof {
        assert(all.take(rows.len() as int) =~= all);
        law_grouping_is_unique(schema_list(groups@), grouping_of(all), all);
    }
    groups
}

/// The listing of a parsed body: its rows grouped by schema. Fails with a
/// decoding error, which names the cause, where the body is no JSON or has
/// another shape.
pub fn listing_from_parsed(parsed: Result<Json, String>) -> (r: Result<
    Vec<SchemaTables>,
    RelayError,
>)
    ensures
        listing_outcome(r) == strict_listing(crate::error::outcome(parsed)),
{
    match parsed {
        Err(cause) => Err(RelayError::Decoding { stage: DecodeStage::Parse, cause }),
        Ok(doc) => match read_table_rows(&doc) {
            Err(fault) => Err(
                RelayError::Decoding { stage: DecodeStage::Parse, cause: fault.cause_text() },
            ),
            Ok(rows) => Ok(group_by_schema(&rows)),
        },
    }
}

} // verus!
