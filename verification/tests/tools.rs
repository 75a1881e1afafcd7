use mcp_agent::rmcp_tool::{concat_texts, RmcpTool};

#[test]
fn tool_accessors_return_the_plain_data() {
    let t = RmcpTool::new(
        "lookup".to_string(),
        Some("finds things".to_string()),
        "{\"type\":\"object\"}".to_string(),
    );
    assert_eq!(t.name(), "lookup");
    assert_eq!(t.description(), "finds things");
    assert_eq!(t.parameters(), "{\"type\":\"object\"}");
}

#[test]
fn missing_description_is_empty() {
    let t = RmcpTool::new("lookup".to_string(), None, "{}".to_string());
    assert_eq!(t.description(), "");
}

#[test]
fn object_input_passes_through_canonically() {
    let t = RmcpTool::new("lookup".to_string(), None, "{}".to_string());
    let out = t.parse_input("{\"b\": 2, \"a\": 1}");
    let v: serde_json::Value = serde_json::from_str(&out).expect("output must be JSON");
    assert_eq!(v["a"], serde_json::Value::from(1i64));
    assert_eq!(v["b"], serde_json::Value::from(2i64));
}

#[test]
fn object_input_is_canonicalized_not_echoed() {
    let t = RmcpTool::new("lookup".to_string(), None, "{}".to_string());
    let out = t.parse_input("{ \"a\" : 1 }");
    assert!(!out.contains(' '), "canonical JSON carries no blanks: {out}");
    let v: serde_json::Value = serde_json::from_str(&out).expect("output must be JSON");
    assert_eq!(v["a"], serde_json::Value::from(1i64));
}

#[test]
fn non_object_input_is_wrapped_as_value() {
    let t = RmcpTool::new("lookup".to_string(), None, "{}".to_string());
    let out = t.parse_input("just words");
    assert_eq!(out, "{\"value\":\"just words\"}");
    let out = t.parse_input("[1,2]");
    assert_eq!(out, "{\"value\":\"[1,2]\"}");
}

#[test]
fn observation_text_parts_concatenate_in_order() {
    let parts = vec!["first ".to_string(), "second ".to_string(), "third".to_string()];
    assert_eq!(concat_texts(&parts), "first second third");
    let empty: Vec<String> = Vec::new();
    assert_eq!(concat_texts(&empty), "");
}
