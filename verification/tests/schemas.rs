use clickhouse_relay::commands::list_schemas_response;
use clickhouse_relay::error::{DecodeStage, RelayError};
use clickhouse_relay::model::{SchemaTableEntry, SchemaTables};
use clickhouse_relay::schemas::{group_by_schema, TableRow};
use clickhouse_relay::transport::{Body, Reply};

fn ok(body: &str) -> Reply {
    Reply::Answered { status: 200, reason: "OK".to_string(), body: Body::Text(body.to_string()) }
}

fn row(database: &str, name: &str, total_rows: Option<u64>) -> TableRow {
    TableRow { database: database.to_string(), name: name.to_string(), total_rows }
}

fn entry(name: &str, row_count: Option<u64>) -> SchemaTableEntry {
    SchemaTableEntry { name: name.to_string(), row_count }
}

fn group(schema: &str, tables: Vec<SchemaTableEntry>) -> SchemaTables {
    SchemaTables { schema: schema.to_string(), tables }
}

fn parse_failure(cause: &str) -> RelayError {
    RelayError::Decoding { stage: DecodeStage::Parse, cause: cause.to_string() }
}

#[test]
fn no_rows_give_no_groups() {
    assert_eq!(group_by_schema(&vec![]), vec![]);
}

#[test]
fn groups_come_in_schema_order_with_tables_in_row_order() {
    let rows = vec![
        row("shop", "orders", Some(10)),
        row("analytics", "visits", None),
        row("shop", "customers", Some(3)),
        row("Zeta", "a", Some(0)),
        row("analytics", "events", Some(7)),
        row("shop", "orders", Some(11)),
    ];
    assert_eq!(
        group_by_schema(&rows),
        vec![
            group("Zeta", vec![entry("a", Some(0))]),
            group("analytics", vec![entry("visits", None), entry("events", Some(7))]),
            group(
                "shop",
                vec![entry("orders", Some(10)), entry("customers", Some(3)), entry("orders", Some(11))],
            ),
        ]
    );
}

#[test]
fn schema_order_is_that_of_strings() {
    let names = ["b", "", "ab", "a", "B", "é", "abc", "z"];
    let rows: Vec<TableRow> = names.iter().map(|name| row(name, "t", None)).collect();
    let groups = group_by_schema(&rows);
    let mut sorted: Vec<&str> = names.to_vec();
    sorted.sort();
    let schemas: Vec<&str> = groups.iter().map(|g| g.schema.as_str()).collect();
    assert_eq!(schemas, sorted);
}

#[test]
fn listing_is_decoded_and_grouped() {
    let body = r#"{
        "meta": [{"name": "database"}, {"name": "name"}, {"name": "total_rows"}],
        "data": [
            {"database": "default", "name": "b", "total_rows": 12},
            {"database": "analytics", "name": "hits", "total_rows": null},
            {"database": "default", "name": "a"},
            {"database": "analytics", "name": "big", "total_rows": 18446744073709551615, "engine": "MergeTree"}
        ],
        "rows": 4
    }"#;
    assert_eq!(
        list_schemas_response(ok(body)),
        Ok(vec![
            group("analytics", vec![entry("hits", None), entry("big", Some(u64::MAX))]),
            group("default", vec![entry("b", Some(12)), entry("a", None)]),
        ])
    );
}

#[test]
fn empty_listing_is_no_failure() {
    assert_eq!(list_schemas_response(ok("{\"data\": []}")), Ok(vec![]));
}

#[test]
fn listing_of_another_shape_is_a_decoding_error() {
    let cases = [
        ("Ok.", "expected value at line 1 column 1"),
        ("", "EOF while parsing a value at line 1 column 0"),
        ("[]", "expected an object"),
        ("{}", "missing field `data`"),
        ("{\"data\": 1}", "invalid type for field `data`"),
        ("{\"data\": [[]]}", "expected an object in `data`"),
        ("{\"data\": [{\"name\": \"t\"}]}", "missing field `database`"),
        ("{\"data\": [{\"database\": 1, \"name\": \"t\"}]}", "invalid type for field `database`"),
        ("{\"data\": [{\"database\": \"d\"}]}", "missing field `name`"),
        ("{\"data\": [{\"database\": \"d\", \"name\": null}]}", "invalid type for field `name`"),
        (
            "{\"data\": [{\"database\": \"d\", \"name\": \"t\", \"total_rows\": \"12\"}]}",
            "invalid type for field `total_rows`",
        ),
        (
            "{\"data\": [{\"database\": \"d\", \"name\": \"t\", \"total_rows\": -1}]}",
            "invalid type for field `total_rows`",
        ),
        (
            "{\"data\": [{\"database\": \"d\", \"name\": \"t\", \"total_rows\": 1.5}]}",
            "invalid type for field `total_rows`",
        ),
        (
            "{\"data\": [{\"database\": \"d\", \"name\": \"t\", \"total_rows\": 18446744073709551616}]}",
            "invalid type for field `total_rows`",
        ),
        (
            "{\"data\": [{\"database\": \"d\", \"name\": \"t\"}, {\"database\": \"d\"}]}",
            "missing field `name`",
        ),
    ];
    for (body, cause) in cases {
        assert_eq!(list_schemas_response(ok(body)), Err(parse_failure(cause)), "{body}");
    }
}

#[test]
fn failed_listing_reports_the_failure() {
    assert_eq!(
        list_schemas_response(Reply::Answered {
            status: 401,
            reason: "Unauthorized".to_string(),
            body: Body::Text("Code: 516".to_string()),
        }),
        Err(RelayError::Server {
            status: 401,
            reason: "Unauthorized".to_string(),
            body: "Code: 516".to_string(),
        })
    );
    assert_eq!(
        list_schemas_response(Reply::Answered {
            status: 200,
            reason: "OK".to_string(),
            body: Body::Unreadable("broken pipe".to_string()),
        }),
        Err(parse_failure("broken pipe"))
    );
}

#[test]
fn rows_sorted_by_schema_and_table_give_a_listing_sorted_by_both() {
    let rows = vec![
        row("a", "t1", None),
        row("a", "t2", None),
        row("a", "t2", Some(1)),
        row("b", "", None),
        row("b", "t0", None),
        row("c", "x", None),
    ];
    let groups = group_by_schema(&rows);
    assert_eq!(
        groups,
        vec![
            group("a", vec![entry("t1", None), entry("t2", None), entry("t2", Some(1))]),
            group("b", vec![entry("", None), entry("t0", None)]),
            group("c", vec![entry("x", None)]),
        ]
    );
    for found in &groups {
        assert!(found.tables.windows(2).all(|pair| pair[0].name <= pair[1].name));
    }
}

#[test]
fn grouping_does_not_depend_on_how_schemas_interleave() {
    let one = vec![row("b", "t1", None), row("a", "u1", None), row("b", "t2", None)];
    let other = vec![row("a", "u1", None), row("b", "t1", None), row("b", "t2", None)];
    assert_eq!(group_by_schema(&one), group_by_schema(&other));
}
