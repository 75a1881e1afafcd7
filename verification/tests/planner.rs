use mcp_agent::accumulator::{ToolCallAccumulator, ToolCallFragment};
use mcp_agent::log_codec::parse_log;
use mcp_agent::planner::{
    finalize_plan_stream, handle_finish_reason, plan_decision, process_chunk, ModelChunk,
    ModelDelta,
};
use mcp_agent::types::{AgentEvent, AgentEventChunk, DeltaEvent};

#[test]
fn plan_decision_parses_a_batch_into_actions() {
    let output = "[{\"id\":\"call_1\",\"type\":\"function\",\"function\":{\"name\":\"search\",\"arguments\":\"{\\\"q\\\":1}\"}}]";
    match plan_decision(output) {
        AgentEvent::Action(actions) => {
            assert_eq!(actions.len(), 1);
            assert_eq!(actions[0].tool, "search");
            assert_eq!(actions[0].tool_input, "{\"q\":1}");
            let (tool_id, tools) = parse_log(actions[0].log.as_str()).expect("log must parse");
            assert_eq!(tool_id, "call_1");
            assert_eq!(tools, output, "the log carries the raw generation");
        },
        AgentEvent::Finish(_) => panic!("a valid batch must become actions"),
    }
}

#[test]
fn plan_decision_finishes_on_plain_text() {
    match plan_decision("The answer is 42.") {
        AgentEvent::Finish(output) => assert_eq!(output, "The answer is 42."),
        AgentEvent::Action(_) => panic!("plain text is a finish"),
    }
}

#[test]
fn finish_reason_stop_without_tool_calls_finishes() {
    let mut acc = ToolCallAccumulator::new();
    match handle_finish_reason("stop", &mut acc, false, "final text") {
        AgentEvent::Finish(output) => assert_eq!(output, "final text"),
        _ => panic!("expected a finish"),
    }
}

#[test]
fn finish_reason_stop_with_tool_calls_drains_the_accumulator() {
    let mut acc = ToolCallAccumulator::new();
    acc.accumulate(&ToolCallFragment {
        id: Some("call_1".to_string()),
        name: Some("search".to_string()),
        arguments: Some("{}".to_string()),
    });
    match handle_finish_reason("stop", &mut acc, true, "") {
        AgentEvent::Action(actions) => {
            assert_eq!(actions.len(), 1);
            assert_eq!(actions[0].tool, "search");
        },
        _ => panic!("expected an action batch"),
    }
}

#[test]
fn finish_reason_tool_calls_always_drains() {
    let mut acc = ToolCallAccumulator::new();
    acc.accumulate(&ToolCallFragment {
        id: Some("call_2".to_string()),
        name: Some("fetch".to_string()),
        arguments: Some("{\"u\":\"x\"}".to_string()),
    });
    match handle_finish_reason("tool_calls", &mut acc, false, "ignored") {
        AgentEvent::Action(actions) => assert_eq!(actions[0].tool_input, "{\"u\":\"x\"}"),
        _ => panic!("expected an action batch"),
    }
}

#[test]
fn unknown_finish_reason_finishes_with_output() {
    let mut acc = ToolCallAccumulator::new();
    match handle_finish_reason("content_filter", &mut acc, true, "partial") {
        AgentEvent::Finish(output) => assert_eq!(output, "partial"),
        _ => panic!("expected a finish"),
    }
}

#[test]
fn content_chunks_accumulate_and_forward() {
    let mut output = String::new();
    let mut acc = ToolCallAccumulator::new();
    let mut has_tool_calls = false;
    let events = process_chunk(
        ModelChunk { delta: ModelDelta::Content("Hel".to_string()), finish_reason: None },
        &mut output,
        &mut acc,
        &mut has_tool_calls,
    );
    assert_eq!(events.len(), 1);
    assert!(matches!(&events[0], AgentEventChunk::Delta(DeltaEvent::Content(c)) if c == "Hel"));
    let events = process_chunk(
        ModelChunk { delta: ModelDelta::Content("lo".to_string()), finish_reason: None },
        &mut output,
        &mut acc,
        &mut has_tool_calls,
    );
    assert_eq!(events.len(), 1);
    assert_eq!(output, "Hello");
    assert!(!has_tool_calls);
}

#[test]
fn empty_content_is_dropped() {
    let mut output = String::new();
    let mut acc = ToolCallAccumulator::new();
    let mut has_tool_calls = false;
    let events = process_chunk(
        ModelChunk { delta: ModelDelta::Content(String::new()), finish_reason: None },
        &mut output,
        &mut acc,
        &mut has_tool_calls,
    );
    assert!(events.is_empty());
    assert_eq!(output, "");
}

#[test]
fn tool_call_deltas_emit_partial_actions_and_a_final_batch() {
    let mut output = String::new();
    let mut acc = ToolCallAccumulator::new();
    let mut has_tool_calls = false;
    let events = process_chunk(
        ModelChunk {
            delta: ModelDelta::ToolCalls(ToolCallFragment {
                id: Some("call_9".to_string()),
                name: Some("grep".to_string()),
                arguments: Some("{\"p\":".to_string()),
            }),
            finish_reason: None,
        },
        &mut output,
        &mut acc,
        &mut has_tool_calls,
    );
    assert!(has_tool_calls);
    assert_eq!(events.len(), 1);
    assert!(matches!(&events[0], AgentEventChunk::Delta(DeltaEvent::Action(a)) if a.tool == "grep"));
    let events = process_chunk(
        ModelChunk {
            delta: ModelDelta::ToolCalls(ToolCallFragment {
                id: None,
                name: None,
                arguments: Some("\"x\"}".to_string()),
            }),
            finish_reason: Some("tool_calls".to_string()),
        },
        &mut output,
        &mut acc,
        &mut has_tool_calls,
    );
    assert_eq!(events.len(), 2);
    match &events[1] {
        AgentEventChunk::Final(AgentEvent::Action(actions)) => {
            assert_eq!(actions.len(), 1);
            assert_eq!(actions[0].tool_input, "{\"p\":\"x\"}");
        },
        _ => panic!("expected the terminal action batch"),
    }
}

#[test]
fn stream_end_without_finish_reason_is_decided_by_tool_calls() {
    let mut acc = ToolCallAccumulator::new();
    acc.accumulate(&ToolCallFragment {
        id: Some("call_1".to_string()),
        name: Some("run".to_string()),
        arguments: Some("{}".to_string()),
    });
    match finalize_plan_stream(&mut acc, true, "text".to_string()) {
        AgentEventChunk::Final(AgentEvent::Action(actions)) => {
            assert_eq!(actions[0].tool, "run");
        },
        _ => panic!("expected an action batch"),
    }
    let mut acc2 = ToolCallAccumulator::new();
    match finalize_plan_stream(&mut acc2, false, "text".to_string()) {
        AgentEventChunk::Final(AgentEvent::Finish(output)) => assert_eq!(output, "text"),
        _ => panic!("expected a finish"),
    }
}
