use clickhouse_relay::json::{find_member, Json, JsonMember};
use clickhouse_relay::shape::{
    array_member, count_member, element_members, object_members, take_member, text_member,
    Field, ShapeFault,
};

fn member(key: &str, value: Json) -> JsonMember {
    JsonMember { key: key.to_string(), value }
}

fn number(value: &str) -> Json {
    Json::Number(value.to_string())
}

fn text(value: &str) -> Json {
    Json::Text(value.to_string())
}

#[test]
fn find_member_takes_the_first_entry_of_the_key() {
    let members = vec![
        member("a", number("1")),
        member("b", number("2")),
        member("a", number("3")),
        member("", Json::Null),
    ];
    assert_eq!(find_member(&members, "a"), Some(&number("1")));
    assert_eq!(find_member(&members, "b"), Some(&number("2")));
    assert_eq!(find_member(&members, ""), Some(&Json::Null));
    assert_eq!(find_member(&members, "c"), None);
    assert_eq!(find_member(&members, "A"), None);
    assert_eq!(find_member(&vec![], "a"), None);
}

#[test]
fn take_member_hands_the_value_out() {
    let members =
        || vec![member("x", text("1")), member("data", Json::Array(vec![])), member("x", text("2"))];
    assert_eq!(take_member(members(), "x"), Some(text("1")));
    assert_eq!(take_member(members(), "data"), Some(Json::Array(vec![])));
    assert_eq!(take_member(members(), "meta"), None);
}

#[test]
fn only_objects_have_members() {
    let doc = Json::Object(vec![member("k", Json::Null)]);
    assert_eq!(object_members(&doc).map(|members| members.len()), Ok(1));
    assert_eq!(element_members(&doc, Field::Meta).map(|members| members.len()), Ok(1));
    for other in [Json::Null, Json::Bool(true), number("1"), text("{}"), Json::Array(vec![])] {
        assert_eq!(object_members(&other), Err(ShapeFault::Document));
        assert_eq!(element_members(&other, Field::Data), Err(ShapeFault::Element(Field::Data)));
    }
}

#[test]
fn array_member_wants_an_array() {
    let members = vec![member("data", Json::Array(vec![Json::Null])), member("meta", text("x"))];
    assert_eq!(array_member(&members, Field::Data), Ok(&vec![Json::Null]));
    assert_eq!(array_member(&members, Field::Meta), Err(ShapeFault::Mistyped(Field::Meta)));
    assert_eq!(array_member(&members, Field::Name), Err(ShapeFault::Missing(Field::Name)));
}

#[test]
fn text_member_wants_a_text() {
    let members = vec![member("name", text("id")), member("version", number("24"))];
    assert_eq!(text_member(&members, Field::Name), Ok(&"id".to_string()));
    assert_eq!(text_member(&members, Field::Version), Err(ShapeFault::Mistyped(Field::Version)));
    assert_eq!(
        text_member(&members, Field::CurrentDatabase),
        Err(ShapeFault::Missing(Field::CurrentDatabase))
    );
}

#[test]
fn count_member_wants_an_unsigned_number_or_nothing() {
    let with = |value: Json| vec![member("total_rows", value)];
    assert_eq!(count_member(&vec![], Field::TotalRows), Ok(None));
    assert_eq!(count_member(&with(Json::Null), Field::TotalRows), Ok(None));
    assert_eq!(count_member(&with(number("0")), Field::TotalRows), Ok(Some(0)));
    assert_eq!(count_member(&with(number("1234567")), Field::TotalRows), Ok(Some(1234567)));
    for wrong in [number("-1"), number("1.0"), number("1e2"), text("5"), Json::Bool(true)] {
        assert_eq!(
            count_member(&with(wrong), Field::TotalRows),
            Err(ShapeFault::Mistyped(Field::TotalRows))
        );
    }
}

#[test]
fn faults_are_described() {
    assert_eq!(ShapeFault::Document.cause_text(), "expected an object");
    assert_eq!(ShapeFault::Element(Field::Data).cause_text(), "expected an object in `data`");
    assert_eq!(ShapeFault::Missing(Field::Meta).cause_text(), "missing field `meta`");
    assert_eq!(
        ShapeFault::Mistyped(Field::TotalRows).cause_text(),
        "invalid type for field `total_rows`"
    );
    assert_eq!(
        ShapeFault::Missing(Field::CurrentDatabase).cause_text(),
        "missing field `current_database`"
    );
    assert_eq!(Field::Database.key_text(), "database");
    assert_eq!(Field::Name.key_text(), "name");
    assert_eq!(Field::Version.key_text(), "version");
}
