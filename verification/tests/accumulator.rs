use mcp_agent::accumulator::{ToolCallAccumulator, ToolCallFragment};
use mcp_agent::log_codec::parse_log;

fn args_fragment(args: &str) -> ToolCallFragment {
    ToolCallFragment { id: None, name: None, arguments: Some(args.to_string()) }
}

#[test]
fn fragmented_arguments_are_joined() {
    let mut acc = ToolCallAccumulator::new();
    acc.accumulate(&args_fragment("{\"a\":"));
    acc.accumulate(&args_fragment("3}"));
    let action = acc.take_action();
    assert_eq!(action.tool_input, "{\"a\":3}");
}

#[test]
fn zero_fragments_yield_empty_object() {
    let mut acc = ToolCallAccumulator::new();
    let action = acc.take_action();
    assert_eq!(action.tool_input, "{}");
}

#[test]
fn whitespace_only_arguments_yield_empty_object() {
    let mut acc = ToolCallAccumulator::new();
    acc.accumulate(&args_fragment("  \t\n "));
    let action = acc.take_action();
    assert_eq!(action.tool_input, "{}");
}

#[test]
fn id_is_kept_from_first_non_empty_sighting() {
    let mut acc = ToolCallAccumulator::new();
    acc.accumulate(&ToolCallFragment { id: Some("".to_string()), name: None, arguments: None });
    acc.accumulate(&ToolCallFragment {
        id: Some("call_a".to_string()),
        name: None,
        arguments: None,
    });
    acc.accumulate(&ToolCallFragment {
        id: Some("call_b".to_string()),
        name: None,
        arguments: None,
    });
    let action = acc.take_action();
    let (tool_id, _tools) = parse_log(action.log.as_str()).expect("log must parse");
    assert_eq!(tool_id, "call_a");
}

#[test]
fn name_last_write_wins() {
    let mut acc = ToolCallAccumulator::new();
    acc.accumulate(&ToolCallFragment { id: None, name: Some("first".to_string()), arguments: None });
    acc.accumulate(&ToolCallFragment { id: None, name: Some("second".to_string()), arguments: None });
    let action = acc.take_action();
    assert_eq!(action.tool, "second");
}

#[test]
fn take_resets_arguments_but_keeps_identity() {
    let mut acc = ToolCallAccumulator::new();
    acc.accumulate(&ToolCallFragment {
        id: Some("call_z".to_string()),
        name: Some("tool_z".to_string()),
        arguments: Some("{\"x\":1}".to_string()),
    });
    let first = acc.take_action();
    assert_eq!(first.tool_input, "{\"x\":1}");
    let second = acc.take_action();
    assert_eq!(second.tool, "tool_z");
    assert_eq!(second.tool_input, "{}");
    let (tool_id, _) = parse_log(second.log.as_str()).expect("log must parse");
    assert_eq!(tool_id, "call_z");
}

#[test]
fn accumulator_log_matches_its_assistant_payload() {
    let mut acc = ToolCallAccumulator::new();
    acc.accumulate(&ToolCallFragment {
        id: Some("call_7".to_string()),
        name: Some("search".to_string()),
        arguments: Some("{\"q\":\"ro\\\"se\"}".to_string()),
    });
    let action = acc.take_action();
    let (tool_id, tools) = parse_log(action.log.as_str()).expect("log must parse");
    assert_eq!(tool_id, "call_7");
    let v: serde_json::Value = serde_json::from_str(&tools).expect("payload must be JSON");
    assert_eq!(v[0]["id"], serde_json::Value::String("call_7".to_string()));
    assert_eq!(v[0]["function"]["name"], serde_json::Value::String("search".to_string()));
    assert_eq!(
        v[0]["function"]["arguments"],
        serde_json::Value::String("{\"q\":\"ro\\\"se\"}".to_string())
    );
}
