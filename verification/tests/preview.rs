use clickhouse_relay::commands::{preview_table_response, run_query_response};
use clickhouse_relay::error::{DecodeStage, RelayError};
use clickhouse_relay::json::{Json, JsonMember};
use clickhouse_relay::model::TablePreview;
use clickhouse_relay::preview::{
    notice_text, preview_from_parsed, preview_or_notice, read_preview, single_cell_preview,
};
use clickhouse_relay::shape::{Field, ShapeFault};
use clickhouse_relay::transport::{Body, Reply};

fn ok(body: &str) -> Reply {
    Reply::Answered { status: 200, reason: "OK".to_string(), body: Body::Text(body.to_string()) }
}

fn text(value: &str) -> Json {
    Json::Text(value.to_string())
}

fn number(value: &str) -> Json {
    Json::Number(value.to_string())
}

fn object(members: Vec<(&str, Json)>) -> Json {
    Json::Object(
        members
            .into_iter()
            .map(|(key, value)| JsonMember { key: key.to_string(), value })
            .collect(),
    )
}

fn column(name: &str) -> Json {
    object(vec![("name", text(name)), ("type", text("String"))])
}

fn single_cell(value: &str) -> TablePreview {
    TablePreview {
        columns: vec!["result".to_string()],
        rows: vec![object(vec![("result", text(value))])],
    }
}

fn parse_failure(cause: &str) -> RelayError {
    RelayError::Decoding { stage: DecodeStage::Parse, cause: cause.to_string() }
}

#[test]
fn non_json_body_becomes_a_single_cell() {
    assert_eq!(run_query_response(ok("Ok.")), Ok(single_cell("Ok.")));
    assert_eq!(run_query_response(ok("  Ok.\n")), Ok(single_cell("Ok.")));
}

#[test]
fn empty_body_becomes_the_success_notice() {
    assert_eq!(run_query_response(ok("")), Ok(single_cell("Query executed successfully")));
    assert_eq!(run_query_response(ok(" \n\t")), Ok(single_cell("Query executed successfully")));
}

#[test]
fn json_of_another_shape_becomes_a_single_cell() {
    assert_eq!(run_query_response(ok("[1, 2]")), Ok(single_cell("[1, 2]")));
    assert_eq!(run_query_response(ok("{\"data\": []}")), Ok(single_cell("{\"data\": []}")));
    assert_eq!(run_query_response(ok(" 42 ")), Ok(single_cell("42")));
    assert_eq!(
        run_query_response(ok("{\"meta\": [{\"name\": 1}], \"data\": []}")),
        Ok(single_cell("{\"meta\": [{\"name\": 1}], \"data\": []}"))
    );
}

#[test]
fn table_body_yields_columns_and_rows_unchanged() {
    let body = r#"{
        "meta": [{"name": "id", "type": "UInt32"}, {"name": "val", "type": "String"}],
        "data": [
            {"id": 1, "val": "a"},
            {"id": 2, "val": null, "extra": [true, -3, 1.5, {"deep": []}]}
        ],
        "rows": 2,
        "statistics": {"elapsed": 0.001}
    }"#;
    let expected = TablePreview {
        columns: vec!["id".to_string(), "val".to_string()],
        rows: vec![
            object(vec![("id", number("1")), ("val", text("a"))]),
            object(vec![
                (
                    "extra",
                    Json::Array(vec![
                        Json::Bool(true),
                        number("-3"),
                        number("1.5"),
                        object(vec![("deep", Json::Array(vec![]))]),
                    ]),
                ),
                ("id", number("2")),
                ("val", Json::Null),
            ]),
        ],
    };
    assert_eq!(run_query_response(ok(body)), Ok(TablePreview { ..expected }));
    let again = TablePreview {
        columns: vec!["id".to_string(), "val".to_string()],
        rows: vec![
            object(vec![("id", number("1")), ("val", text("a"))]),
            object(vec![
                (
                    "extra",
                    Json::Array(vec![
                        Json::Bool(true),
                        number("-3"),
                        number("1.5"),
                        object(vec![("deep", Json::Array(vec![]))]),
                    ]),
                ),
                ("id", number("2")),
                ("val", Json::Null),
            ]),
        ],
    };
    assert_eq!(preview_table_response(ok(body)), Ok(again));
}

#[test]
fn rows_need_not_be_objects() {
    let body = r#"{"meta": [], "data": [1, "two", [3], null]}"#;
    let expected = TablePreview {
        columns: vec![],
        rows: vec![number("1"), text("two"), Json::Array(vec![number("3")]), Json::Null],
    };
    assert_eq!(preview_table_response(ok(body)), Ok(expected));
}

#[test]
fn text_escapes_are_decoded() {
    let body = r#"{"meta": [{"name": "a\"bé"}], "data": ["x\ny"]}"#;
    let expected = TablePreview { columns: vec!["a\"bé".to_string()], rows: vec![text("x\ny")] };
    assert_eq!(preview_table_response(ok(body)), Ok(expected));
}

#[test]
fn strict_decoding_names_the_syntax_error() {
    assert_eq!(
        preview_table_response(ok("Ok.")),
        Err(parse_failure("expected value at line 1 column 1"))
    );
    assert_eq!(
        preview_table_response(ok("")),
        Err(parse_failure("EOF while parsing a value at line 1 column 0"))
    );
    assert_eq!(
        preview_table_response(ok("{\"meta\": [}")),
        Err(parse_failure("expected value at line 1 column 11"))
    );
}

#[test]
fn strict_decoding_names_the_field_at_fault() {
    let cases = [
        ("[]", "expected an object"),
        ("null", "expected an object"),
        ("{}", "missing field `meta`"),
        ("{\"data\": []}", "missing field `meta`"),
        ("{\"meta\": {}, \"data\": []}", "invalid type for field `meta`"),
        ("{\"meta\": [1], \"data\": []}", "expected an object in `meta`"),
        ("{\"meta\": [{}], \"data\": []}", "missing field `name`"),
        ("{\"meta\": [{\"name\": \"a\"}, {\"name\": 2}], \"data\": []}", "invalid type for field `name`"),
        ("{\"meta\": []}", "missing field `data`"),
        ("{\"meta\": [], \"data\": {}}", "invalid type for field `data`"),
        ("{\"meta\": [], \"data\": null}", "invalid type for field `data`"),
    ];
    for (body, cause) in cases {
        assert_eq!(preview_table_response(ok(body)), Err(parse_failure(cause)), "{body}");
    }
}

#[test]
fn the_first_fault_is_the_one_reported() {
    assert_eq!(
        read_preview(object(vec![("meta", Json::Array(vec![Json::Null, object(vec![])]))])),
        Err(ShapeFault::Element(Field::Meta))
    );
    assert_eq!(
        read_preview(object(vec![("meta", text("x")), ("data", text("y"))])),
        Err(ShapeFault::Mistyped(Field::Meta))
    );
    assert_eq!(read_preview(Json::Bool(false)), Err(ShapeFault::Document));
}

#[test]
fn the_first_entry_of_a_key_counts() {
    let doc = object(vec![
        ("data", Json::Array(vec![number("1")])),
        ("meta", Json::Array(vec![column("a")])),
        ("data", Json::Array(vec![number("2")])),
        ("meta", text("shadowed")),
    ]);
    assert_eq!(
        read_preview(doc),
        Ok(TablePreview { columns: vec!["a".to_string()], rows: vec![number("1")] })
    );
}

#[test]
fn unreadable_body_is_a_decoding_error_on_both_paths() {
    let reply = || Reply::Answered {
        status: 200,
        reason: "OK".to_string(),
        body: Body::Unreadable("error decoding response body".to_string()),
    };
    assert_eq!(
        preview_table_response(reply()),
        Err(parse_failure("error decoding response body"))
    );
    assert_eq!(
        run_query_response(reply()),
        Err(RelayError::Decoding {
            stage: DecodeStage::Read,
            cause: "error decoding response body".to_string(),
        })
    );
}

#[test]
fn transport_and_server_failures_are_not_masked() {
    let failed = || Reply::Answered {
        status: 400,
        reason: "Bad Request".to_string(),
        body: Body::Text("Code: 62. Syntax error".to_string()),
    };
    let expected = RelayError::Server {
        status: 400,
        reason: "Bad Request".to_string(),
        body: "Code: 62. Syntax error".to_string(),
    };
    assert_eq!(run_query_response(failed()), Err(expected.clone()));
    assert_eq!(preview_table_response(failed()), Err(expected));
    assert_eq!(
        run_query_response(Reply::SendFailed("timed out".to_string())),
        Err(RelayError::Connectivity("timed out".to_string()))
    );
    assert_eq!(
        run_query_response(Reply::ClientFailed("bad".to_string())),
        Err(RelayError::Configuration("bad".to_string()))
    );
}

#[test]
fn decoders_take_the_parse_result_as_it_is() {
    assert_eq!(
        preview_from_parsed(Err("boom".to_string())),
        Err(parse_failure("boom"))
    );
    assert_eq!(
        preview_from_parsed(Ok(object(vec![("meta", Json::Array(vec![]))]))),
        Err(parse_failure("missing field `data`"))
    );
    assert_eq!(preview_or_notice(Err("boom".to_string()), " hi "), single_cell("hi"));
    assert_eq!(preview_or_notice(Ok(Json::Null), ""), single_cell("Query executed successfully"));
    let table = object(vec![
        ("meta", Json::Array(vec![column("n")])),
        ("data", Json::Array(vec![object(vec![("n", number("7"))])])),
    ]);
    assert_eq!(
        preview_or_notice(Ok(table), "ignored"),
        TablePreview {
            columns: vec!["n".to_string()],
            rows: vec![object(vec![("n", number("7"))])],
        }
    );
}

#[test]
fn notice_is_the_trimmed_body_or_the_fixed_text() {
    assert_eq!(notice_text("Ok."), "Ok.");
    assert_eq!(notice_text("\n Ok. \n"), "Ok.");
    assert_eq!(notice_text(""), "Query executed successfully");
    assert_eq!(notice_text("\n"), "Query executed successfully");
}

#[test]
fn single_cell_holds_the_text_under_result() {
    assert_eq!(single_cell_preview(" as given ".to_string()), single_cell(" as given "));
    assert_eq!(single_cell_preview(String::new()), single_cell(""));
}
