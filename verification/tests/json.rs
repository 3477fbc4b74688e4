use trader::json::{parse_i64, parse_json, Json};

fn text(s: &str) -> Json {
    Json::Text(s.to_string())
}

fn number(s: &str) -> Json {
    Json::Number(s.to_string())
}

#[test]
fn a_document_is_read_as_a_tree() {
    let document = parse_json(r#"{"b":[1,-2.5,"x",null,true],"a":{"k":"v"}}"#).unwrap();
    assert_eq!(
        document,
        Json::Object(vec![
            ("a".to_string(), Json::Object(vec![("k".to_string(), text("v"))])),
            (
                "b".to_string(),
                Json::Array(vec![number("1"), number("-2.5"), text("x"), Json::Null, Json::Bool(true)])
            ),
        ])
    );
}

#[test]
fn scalars_are_documents() {
    assert_eq!(parse_json("null"), Some(Json::Null));
    assert_eq!(parse_json("false"), Some(Json::Bool(false)));
    assert_eq!(parse_json(" 17 "), Some(number("17")));
    assert_eq!(parse_json("\"a\\nb\""), Some(text("a\nb")));
    assert_eq!(parse_json("[]"), Some(Json::Array(vec![])));
    assert_eq!(parse_json("{}"), Some(Json::Object(vec![])));
}

#[test]
fn numbers_keep_their_literal() {
    assert_eq!(parse_json("0"), Some(number("0")));
    assert_eq!(parse_json("-7"), Some(number("-7")));
    assert_eq!(parse_json("18446744073709551615"), Some(number("18446744073709551615")));
    assert_eq!(parse_json("-9223372036854775808"), Some(number("-9223372036854775808")));
    assert_eq!(parse_json("7.777"), Some(number("7.777")));
    assert_eq!(parse_json("1.0"), Some(number("1.0")));
}

#[test]
fn what_is_not_json_is_refused() {
    for bad in ["", "   ", "Blargh!", "{", "{\"a\":}", "[1,]", "{\"a\":1} 2", "'a'", "01"] {
        assert_eq!(parse_json(bad), None, "{}", bad);
    }
}

#[test]
fn the_last_of_two_equal_names_in_a_text_is_kept() {
    let document = parse_json(r#"{"a":1,"a":2}"#).unwrap();
    assert_eq!(document, Json::Object(vec![("a".to_string(), number("2"))]));
}

#[test]
fn members_are_found_by_name() {
    let document = Json::Object(vec![
        ("one".to_string(), number("1")),
        ("two".to_string(), text("2")),
        ("one".to_string(), number("3")),
        ("".to_string(), Json::Null),
    ]);
    assert_eq!(document.get("one"), Some(&number("1")));
    assert_eq!(document.get("two"), Some(&text("2")));
    assert_eq!(document.get(""), Some(&Json::Null));
    assert_eq!(document.get("three"), None);
    assert_eq!(document.get("On"), None);
    assert_eq!(Json::Object(vec![]).get("one"), None);
    assert_eq!(Json::Array(vec![number("1")]).get("one"), None);
    assert_eq!(text("one").get("one"), None);
}

#[test]
fn strings_and_numbers_are_told_apart() {
    assert_eq!(text("5").as_text(), Some(&"5".to_string()));
    assert_eq!(text("5").as_number(), None);
    assert_eq!(number("5").as_number(), Some(&"5".to_string()));
    assert_eq!(number("5").as_text(), None);
    assert_eq!(Json::Null.as_text(), None);
    assert_eq!(Json::Bool(true).as_number(), None);
}

#[test]
fn integers_are_read_from_their_digits() {
    assert_eq!(parse_i64("0"), Some(0));
    assert_eq!(parse_i64("42"), Some(42));
    assert_eq!(parse_i64("-42"), Some(-42));
    assert_eq!(parse_i64("007"), Some(7));
    assert_eq!(parse_i64("-0"), Some(0));
    assert_eq!(parse_i64("9223372036854775807"), Some(i64::MAX));
    assert_eq!(parse_i64("-9223372036854775808"), Some(i64::MIN));
    assert_eq!(parse_i64("-9223372036854775807"), Some(i64::MIN + 1));
    assert_eq!(parse_i64("1000000000000000000"), Some(1_000_000_000_000_000_000));
}

#[test]
fn what_is_no_64_bit_integer_is_refused() {
    for bad in [
        "", "-", "+1", "1.0", "1e3", " 1", "1 ", "--1", "1-", "a", "١٢", "9223372036854775808",
        "-9223372036854775809", "18446744073709551616", "99999999999999999999999999", "1_000",
    ] {
        assert_eq!(parse_i64(bad), None, "{}", bad);
    }
}
