use openab_agent::json::{Json, JsonObject};
use openab_agent::openai::encode_tool_use;

#[test]
fn values_convert_both_ways() {
    let text = r#"{"a":[null,true,-3,18446744073709551615,1.5,"x\n"],"b":{"c":{}},"z":[]}"#;
    let value: serde_json::Value = serde_json::from_str(text).unwrap();
    let json = Json::from_value(value.clone());
    assert_eq!(json.to_value(), value);
    assert_eq!(json.clone().to_value(), value);
    assert_eq!(json.render(), text);
}

#[test]
fn texts_are_parsed() {
    assert_eq!(Json::parse(" [1, 2] ").unwrap().render(), "[1,2]");
    assert!(Json::parse("").is_none());
    assert!(Json::parse("[1,").is_none());
    assert!(Json::parse("1 2").is_none());
    assert_eq!(Json::parse_bytes(b"{\"b\":1,\"a\":2,\"b\":3}").unwrap().render(), "{\"a\":2,\"b\":3}");
    assert!(Json::parse_bytes(b"\"\xff\"").is_none());
}

#[test]
fn rendered_values_read_back() {
    let text = format!("{}{{\"k\":\"\u{1}\\\"\u{1F600}\"}}{}", "[".repeat(126), "]".repeat(126));
    let rendered = Json::parse(&text.replace('\u{1}', "\\u0001")).unwrap().render();
    assert_eq!(Json::parse(&rendered).unwrap().render(), rendered);
    let deeper = format!("[{rendered}]");
    assert!(Json::parse(&deeper).is_none());
}

#[test]
fn tool_use_keeps_its_input() {
    let input = Json::parse(r#"{"n": [1, "two", null]}"#).unwrap();
    let item = encode_tool_use("c", "run", &input);
    assert_eq!(item.str_at("arguments"), Some(r#"{"n":[1,"two",null]}"#));
    let arguments = Json::parse(item.str_at("arguments").unwrap()).unwrap();
    assert_eq!(arguments.to_value(), input.to_value());
}

#[test]
fn objects_hold_each_key_once() {
    let object = JsonObject::new()
        .with("b", Json::integer(1))
        .with("a", Json::text("t"))
        .with("b", Json::integer(4294967295));
    assert!(object.get("c").is_none());
    assert_eq!(object.get("a").unwrap().as_str(), Some("t"));
    assert_eq!(Json::Object(object).render(), r#"{"a":"t","b":4294967295}"#);
}

#[test]
fn parts_of_values() {
    let json = Json::parse(r#"{"list": [1], "text": "t", "null": null}"#).unwrap();
    assert_eq!(json.array_at("list").unwrap().len(), 1);
    assert!(json.array_at("text").is_none());
    assert_eq!(json.str_at("text"), Some("t"));
    assert_eq!(json.str_at("list"), None);
    assert_eq!(json.text_or("text", "d"), "t");
    assert_eq!(json.text_or("null", "d"), "d");
    assert_eq!(json.text_or("none", "d"), "d");
    assert!(matches!(json.get("null"), Some(Json::Null)));
    assert!(json.get("none").is_none());
    assert!(matches!(json.get_or_empty("null"), Json::Null));
    assert_eq!(json.get_or_empty("none").render(), "{}");
    assert!(Json::Null.get("x").is_none());
    assert!(json.as_array().is_none());
    assert_eq!(Json::array(vec![Json::Bool(true), Json::empty_object()]).render(), "[true,{}]");
}
