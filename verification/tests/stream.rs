use mcp_agent::log_codec::encode_log;
use mcp_agent::stream::{
    render_chunk, ChunkDelta, FinishReason, StreamCommand, StreamEngine, StreamIds, WireChunk,
};
use mcp_agent::types::{Action, MemoryOp};

fn ids() -> StreamIds {
    StreamIds {
        completion_id: "chatcmpl-test".to_string(),
        conversation_id: "conv-1".to_string(),
        model: "test-model".to_string(),
        created: 1700000000,
    }
}

fn batch_payload(id: &str) -> String {
    format!(
        "[{{\"id\":\"{id}\",\"type\":\"function\",\"function\":{{\"name\":\"echo\",\"arguments\":\"{{}}\"}}}}]"
    )
}

fn action(id: &str, tool: &str) -> Action {
    let tools = batch_payload(id);
    Action {
        tool: tool.to_string(),
        tool_input: "{}".to_string(),
        log: encode_log(id, &tools),
    }
}

fn engine(max_iterations: Option<i32>, break_if_error: bool) -> (StreamEngine, WireChunk) {
    StreamEngine::new(
        max_iterations,
        break_if_error,
        vec!["echo".to_string()],
        "question".to_string(),
        ids(),
    )
}

fn rendered(c: &WireChunk) -> serde_json::Value {
    let text = render_chunk(&ids(), c);
    serde_json::from_str(&text).expect("a rendered chunk must be valid JSON")
}

#[test]
fn first_chunk_is_assistant_role_with_null_content() {
    let (_e, first) = engine(Some(10), false);
    let v = rendered(&first);
    let delta = &v["choices"][0]["delta"];
    assert_eq!(delta["role"], serde_json::Value::String("assistant".to_string()));
    assert_eq!(delta["content"], serde_json::Value::Null);
    assert_eq!(v["choices"][0]["finish_reason"], serde_json::Value::Null);
    assert_eq!(v["object"], serde_json::Value::String("chat.completion.chunk".to_string()));
    assert_eq!(v["created"], serde_json::Value::from(1700000000i64));
}

#[test]
fn finished_stream_ends_with_stop_chunk() {
    let (mut e, _first) = engine(Some(10), false);
    e.begin_cycle();
    let ch = e.on_content("thinking".to_string()).expect("non-empty content is forwarded");
    let v = rendered(&ch);
    assert_eq!(
        v["choices"][0]["delta"]["content"],
        serde_json::Value::String("thinking".to_string())
    );
    let (terminal, ops) = e.on_finish("the answer");
    assert!(matches!(terminal.finish_reason, Some(FinishReason::Stop)));
    let v = rendered(&terminal);
    assert_eq!(
        v["choices"][0]["finish_reason"],
        serde_json::Value::String("stop".to_string())
    );
    assert!(matches!(&ops[0], MemoryOp::AddUser(s) if s == "question"));
    assert!(matches!(&ops[1], MemoryOp::AddAi(s) if s == "thinking"));
    assert!(matches!(&ops[2], MemoryOp::AddAi(s) if s == "the answer"));
}

#[test]
fn tool_batch_emits_call_and_result_chunks() {
    let (mut e, _first) = engine(Some(10), false);
    e.begin_cycle();
    let (chunks, cmd) = e.on_batch(vec![action("call_1", "echo")], "fresh-1".to_string());
    assert_eq!(chunks.len(), 1);
    let v = rendered(&chunks[0]);
    let call = &v["choices"][0]["delta"]["tool_calls"][0];
    assert_eq!(call["id"], serde_json::Value::String("call_1".to_string()));
    assert_eq!(call["function"]["name"], serde_json::Value::String("echo".to_string()));
    assert!(matches!(cmd, StreamCommand::Invoke { tool_index: 0, .. }));

    let (chunks, cmd) = e.on_tool_result(Ok("{\"n\": 3}".to_string()), "fresh-2".to_string());
    assert_eq!(chunks.len(), 1);
    let v = rendered(&chunks[0]);
    let delta = &v["choices"][0]["delta"];
    assert_eq!(delta["content"], serde_json::Value::Null);
    assert_eq!(delta["parsed"]["n"], serde_json::Value::from(3i64));
    assert_eq!(delta["tool_name"], serde_json::Value::String("echo".to_string()));
    assert_eq!(delta["tool_call_id"], serde_json::Value::String("call_1".to_string()));
    match cmd {
        StreamCommand::Continue { memory_ops } => {
            assert!(memory_ops.iter().any(|op| matches!(op, MemoryOp::AddTool { .. })));
        },
        _ => panic!("the stream must continue to the next cycle"),
    }
}

#[test]
fn json_observation_is_canonicalized_not_echoed() {
    let (mut e, _first) = engine(Some(10), false);
    e.begin_cycle();
    let (_chunks, _cmd) = e.on_batch(vec![action("call_1", "echo")], "f1".to_string());
    let (chunks, _cmd) = e.on_tool_result(Ok("{ \"n\" : 3 }".to_string()), "f2".to_string());
    let text = render_chunk(&ids(), &chunks[0]);
    assert!(
        text.contains("\"parsed\":{\"n\":3}"),
        "the parsed field carries canonical JSON: {text}"
    );
}

#[test]
fn non_json_observation_is_embedded_as_string() {
    let (mut e, _first) = engine(Some(10), false);
    e.begin_cycle();
    let (_chunks, _cmd) = e.on_batch(vec![action("call_1", "echo")], "f1".to_string());
    let (chunks, _cmd) = e.on_tool_result(Ok("plain text".to_string()), "f2".to_string());
    let v = rendered(&chunks[0]);
    assert_eq!(
        v["choices"][0]["delta"]["parsed"],
        serde_json::Value::String("plain text".to_string())
    );
}

#[test]
fn unknown_tool_ends_the_stream_with_stop() {
    let (mut e, _first) = engine(Some(10), false);
    e.begin_cycle();
    let (chunks, cmd) = e.on_batch(vec![action("call_1", "missing")], "f1".to_string());
    assert_eq!(chunks.len(), 1);
    assert!(matches!(chunks[0].finish_reason, Some(FinishReason::Stop)));
    assert!(
        matches!(&chunks[0].delta, ChunkDelta::Content(c) if c == "Tool missing not found")
    );
    assert!(matches!(cmd, StreamCommand::Ended { .. }));
}

#[test]
fn failing_tool_with_break_ends_the_stream() {
    let (mut e, _first) = engine(Some(10), true);
    e.begin_cycle();
    let (_chunks, _cmd) = e.on_batch(vec![action("call_1", "echo")], "f1".to_string());
    let (chunks, cmd) = e.on_tool_result(Err("boom".to_string()), "f2".to_string());
    assert_eq!(chunks.len(), 1);
    assert!(matches!(&chunks[0].delta, ChunkDelta::Content(c) if c == "Tool error: boom"));
    assert!(matches!(chunks[0].finish_reason, Some(FinishReason::Stop)));
    assert!(matches!(cmd, StreamCommand::Ended { .. }));
}

#[test]
fn failing_tool_without_break_degrades_to_observation() {
    let (mut e, _first) = engine(Some(10), false);
    e.begin_cycle();
    let (_chunks, _cmd) = e.on_batch(vec![action("call_1", "echo")], "f1".to_string());
    let (chunks, cmd) = e.on_tool_result(Err("boom".to_string()), "f2".to_string());
    let v = rendered(&chunks[0]);
    assert_eq!(
        v["choices"][0]["delta"]["parsed"],
        serde_json::Value::String("Tool error: boom".to_string())
    );
    assert!(matches!(cmd, StreamCommand::Continue { .. }));
}

#[test]
fn iteration_cap_ends_the_stream_with_length() {
    let (mut e, _first) = engine(Some(1), false);
    e.begin_cycle();
    let (_chunks, _cmd) = e.on_batch(vec![action("call_1", "echo")], "f1".to_string());
    let (chunks, cmd) = e.on_tool_result(Ok("done".to_string()), "f2".to_string());
    assert_eq!(chunks.len(), 2, "the result chunk, then the terminal chunk");
    assert!(matches!(chunks[1].finish_reason, Some(FinishReason::Length)));
    let v = rendered(&chunks[1]);
    assert_eq!(
        v["choices"][0]["delta"]["content"],
        serde_json::Value::String("Maximum iterations reached.".to_string())
    );
    assert!(matches!(cmd, StreamCommand::Ended { .. }));
}

#[test]
fn partial_action_uses_log_id_or_minted_id() {
    let (mut e, _first) = engine(Some(10), false);
    e.begin_cycle();
    let (chunk, minted) = e.on_partial_action(&action("call_5", "echo"), "minted-1".to_string());
    assert!(!minted);
    let v = rendered(&chunk);
    assert_eq!(
        v["choices"][0]["delta"]["tool_calls"][0]["id"],
        serde_json::Value::String("call_5".to_string())
    );

    let broken = Action {
        tool: "echo".to_string(),
        tool_input: "{}".to_string(),
        log: "not a log".to_string(),
    };
    let (chunk, minted) = e.on_partial_action(&broken, "minted-2".to_string());
    assert!(minted, "a missing id is minted and reported");
    let v = rendered(&chunk);
    assert_eq!(
        v["choices"][0]["delta"]["tool_calls"][0]["id"],
        serde_json::Value::String("minted-2".to_string())
    );
}

#[test]
fn plan_error_ends_the_stream() {
    let (mut e, _first) = engine(Some(10), false);
    let chunk = e.on_plan_error("no model");
    assert!(matches!(&chunk.delta, ChunkDelta::Content(c) if c == "Error: no model"));
    assert!(matches!(chunk.finish_reason, Some(FinishReason::Stop)));
}

#[test]
fn rendered_chunk_escapes_hostile_text() {
    let c = WireChunk {
        delta: ChunkDelta::Content("a \"quote\" and \\ and\nnewline".to_string()),
        finish_reason: None,
    };
    let v = rendered(&c);
    assert_eq!(
        v["choices"][0]["delta"]["content"],
        serde_json::Value::String("a \"quote\" and \\ and\nnewline".to_string())
    );
}
