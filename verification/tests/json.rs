use codex_skin::json::{quote, read_json, write_json, write_json_pretty, Json};

#[test]
fn documents_are_read() {
    let document = read_json(
        br#"{"b":[1,-2,0.5,true,null,"x"],"a":{"deep":18446744073709551615},"b2":1e3}"#,
    )
    .unwrap();
    let items = document.get("b").unwrap().as_items().unwrap();
    assert!(matches!(items[0], Json::Unsigned(1)));
    assert!(matches!(items[1], Json::Negative(-2)));
    assert!(matches!(items[2], Json::Float(bits) if bits == 0.5f64.to_bits()));
    assert_eq!(items[3].as_truth(), Some(true));
    assert!(matches!(items[4], Json::Null));
    assert_eq!(items[5].as_text(), Some("x"));
    assert_eq!(
        document.get("a").unwrap().unsigned_at("deep"),
        Some(u64::MAX)
    );
    assert!(document.unsigned_at("b2").is_none());
    assert!(document.text_at("missing").is_none());
    assert!(items[0].get("x").is_none());
    assert!(read_json(b"{").is_err());
}

#[test]
fn documents_are_written() {
    let document = Json::Object(vec![
        ("a".to_string(), Json::Unsigned(1)),
        ("b".to_string(), Json::Text("\"\n".to_string())),
        ("c".to_string(), Json::Object(vec![("d".to_string(), Json::Bool(false))])),
    ]);
    assert_eq!(
        write_json(&document),
        r#"{"a":1,"b":"\"\n","c":{"d":false}}"#
    );
    assert_eq!(
        write_json_pretty(&Json::Object(vec![("a".to_string(), Json::Null)])),
        b"{\n  \"a\": null\n}"
    );
    assert_eq!(quote("a\\\"b\u{1}é"), "\"a\\\\\\\"b\\u0001é\"");
}

#[test]
fn literals_escape_what_would_end_them() {
    assert_eq!(
        quote("\u{8}\t\n\u{c}\r\0\u{1f} \"\\/\u{7f}\u{2028}中"),
        "\"\\b\\t\\n\\f\\r\\u0000\\u001f \\\"\\\\/\u{7f}\u{2028}中\""
    );
    assert_eq!(quote(""), "\"\"");
    let text = "\"; alert('x'); //\n\\";
    let literal = quote(text);
    assert_eq!(literal, r#""\"; alert('x'); //\n\\""#);
    assert_eq!(read_json(literal.as_bytes()).unwrap().as_text(), Some(text));
}

#[test]
fn numbers_and_nested_documents_are_written() {
    assert_eq!(write_json(&Json::Unsigned(0)), "0");
    assert_eq!(write_json(&Json::Unsigned(u64::MAX)), "18446744073709551615");
    assert_eq!(write_json(&Json::Null), "null");
    assert_eq!(write_json(&Json::Bool(true)), "true");
    assert_eq!(write_json(&Json::Object(vec![])), "{}");
    let document = Json::Object(vec![
        ("a".to_string(), Json::Object(vec![])),
        ("b".to_string(), Json::Object(vec![("c".to_string(), Json::Unsigned(10))])),
    ]);
    assert_eq!(
        write_json_pretty(&document),
        b"{\n  \"a\": {},\n  \"b\": {\n    \"c\": 10\n  }\n}"
    );
}
