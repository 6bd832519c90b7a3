fn j(text: &str) -> serde_json::Value {
    serde_json::from_str(text).unwrap()
}

use mcpjs::json::{decimal_text, to_json_text, JsonMember, JsonNumber, JsonValue};
use mcpjs::rpc::{jsonrpc_error, jsonrpc_ok, parse_jsonrpc, read_jsonrpc, response_is_error};

fn convert(v: &serde_json::Value) -> JsonValue {
    match v {
        serde_json::Value::Null => JsonValue::Null,
        serde_json::Value::Bool(b) => JsonValue::Bool(*b),
        serde_json::Value::Number(n) => {
            JsonValue::Number(JsonNumber { text: n.to_string(), unsigned: n.as_u64() })
        }
        serde_json::Value::String(s) => JsonValue::Str(s.clone()),
        serde_json::Value::Array(items) => JsonValue::Array(items.iter().map(convert).collect()),
        serde_json::Value::Object(map) => JsonValue::Object(
            map.iter().map(|(k, v)| JsonMember { key: k.clone(), value: convert(v) }).collect(),
        ),
    }
}

fn parse(text: &str) -> JsonValue {
    convert(&serde_json::from_str(text).unwrap())
}

#[test]
fn json_text_is_what_serde_json_writes() {
    for text in [
        "null",
        "true",
        "[1,2.5,-3,\"x\\ny\",{\"b\":1,\"a\":[{}]}]",
        "{\"z\":{\"q\":\"\\u0001\"},\"a\":[]}",
        "\"tab\\there\"",
    ] {
        let v: serde_json::Value = serde_json::from_str(text).unwrap();
        assert_eq!(to_json_text(&convert(&v)), serde_json::to_string(&v).unwrap());
    }
}

#[test]
fn decimal_text_of_integers() {
    assert_eq!(decimal_text(0), "0");
    assert_eq!(decimal_text(7), "7");
    assert_eq!(decimal_text(1234567890), "1234567890");
    assert_eq!(decimal_text(u64::MAX), u64::MAX.to_string());
}

#[test]
fn ok_response_carries_normalized_result() {
    let r = jsonrpc_ok(Some("1".to_string()), "{ \"b\": 2, \"a\": 1 }".to_string());
    assert_eq!(r, "{\"id\":\"1\",\"jsonrpc\":\"2.0\",\"result\":{\"a\":1,\"b\":2}}");
}

#[test]
fn ok_response_with_invalid_result_carries_null() {
    let r = jsonrpc_ok(None, "not json".to_string());
    assert_eq!(r, "{\"id\":null,\"jsonrpc\":\"2.0\",\"result\":null}");
}

#[test]
fn error_response_layout() {
    let r = jsonrpc_error(Some("abc".to_string()), -32601, "Method not found: x".to_string());
    assert_eq!(
        r,
        "{\"error\":{\"code\":-32601,\"message\":\"Method not found: x\"},\"id\":\"abc\",\"jsonrpc\":\"2.0\"}"
    );
    let r = jsonrpc_error(None, 42, "say \"hi\"".to_string());
    assert_eq!(r, "{\"error\":{\"code\":42,\"message\":\"say \\\"hi\\\"\"},\"id\":null,\"jsonrpc\":\"2.0\"}");
    let r = jsonrpc_error(None, i32::MIN, String::new());
    assert_eq!(r, format!("{{\"error\":{{\"code\":{},\"message\":\"\"}},\"id\":null,\"jsonrpc\":\"2.0\"}}", i32::MIN));
}

#[test]
fn responses_agree_with_serde_json_objects() {
    let r = jsonrpc_ok(Some("7".to_string()), "[1,2]".to_string());
    let expected = j(r#"{ "jsonrpc": "2.0", "id": "7", "result": [1, 2] }"#);
    assert_eq!(r, serde_json::to_string(&expected).unwrap());
}

#[test]
fn parse_request_reads_fields() {
    let r = parse_jsonrpc("{\"jsonrpc\":\"2.0\",\"id\":5,\"method\":\"tools/list\",\"params\":{ \"x\" : [1] }}").unwrap();
    assert_eq!(r.jsonrpc, "2.0");
    assert_eq!(r.id, Some("5".to_string()));
    assert_eq!(r.method, "tools/list");
    assert_eq!(r.params, Some("{\"x\":[1]}".to_string()));
}

#[test]
fn parse_request_defaults() {
    let r = parse_jsonrpc("{\"id\":\"req-1\"}").unwrap();
    assert_eq!(r.jsonrpc, "2.0");
    assert_eq!(r.id, Some("req-1".to_string()));
    assert_eq!(r.method, "");
    assert_eq!(r.params, None);
    // negative and fractional ids are not read as ids
    assert_eq!(parse_jsonrpc("{\"id\":-1}").unwrap().id, None);
    assert_eq!(parse_jsonrpc("{\"id\":1.5}").unwrap().id, None);
    assert_eq!(parse_jsonrpc("[1]").unwrap().method, "");
}

#[test]
fn parse_request_refuses_text_that_is_not_json() {
    let expected = serde_json::from_str::<serde_json::Value>("{bad").unwrap_err().to_string();
    assert_eq!(parse_jsonrpc("{bad").unwrap_err(), expected);
    assert!(parse_jsonrpc("").is_err());
}

#[test]
fn read_request_from_parsed_value() {
    let r = read_jsonrpc(&parse("{\"id\":18446744073709551615,\"method\":7,\"params\":null}"));
    assert_eq!(r.id, Some("18446744073709551615".to_string()));
    assert_eq!(r.method, "");
    assert_eq!(r.params, Some("null".to_string()));
}

#[test]
fn error_responses_are_told_apart() {
    assert!(response_is_error(&jsonrpc_error(Some("1".to_string()), -32601, "x".to_string())));
    assert!(response_is_error(&jsonrpc_error(None, 5, String::new())));
    assert!(!response_is_error(&jsonrpc_ok(Some("1".to_string()), "{\"error\":1}".to_string())));
    assert!(!response_is_error(&jsonrpc_ok(None, "null".to_string())));
}

#[test]
fn strings_are_escaped_as_serde_json_escapes_them() {
    let text = "q\"b\\s\u{8}\t\n\u{c}\r\u{1}\u{1f}\u{7f}é€";
    let r = jsonrpc_error(None, 1, text.to_string());
    let expected = format!("{}{}", r#""message":"q\"b\\s\b\t\n\f\r\u0001\u001f"#, "\u{7f}é€\"");
    assert!(r.contains(&expected));
    assert_eq!(r, serde_json::to_string(&j(&r)).unwrap());
}

#[test]
fn responses_read_back_as_requests() {
    let r = parse_jsonrpc(&jsonrpc_ok(Some("7".to_string()), "[1]".to_string())).unwrap();
    assert_eq!(r.jsonrpc, "2.0");
    assert_eq!(r.id, Some("7".to_string()));
    assert_eq!(r.method, "");
    assert_eq!(r.params, None);
    let r = parse_jsonrpc(&jsonrpc_error(None, -1, "m".to_string())).unwrap();
    assert_eq!((r.jsonrpc.as_str(), r.id, r.method.as_str(), r.params), ("2.0", None, "", None));
}
