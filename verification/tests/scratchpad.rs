use mcp_agent::log_codec::encode_log;
use mcp_agent::scratchpad::construct_scratchpad;
use mcp_agent::types::{Action, AgentError, ScratchpadMessage, Step};

fn batch_payload(id: &str) -> String {
    format!(
        "[{{\"id\":\"{id}\",\"type\":\"function\",\"function\":{{\"name\":\"lookup\",\"arguments\":\"{{}}\"}}}}]"
    )
}

fn step(id: &str, observation: &str) -> Step {
    let tools = batch_payload(id);
    Step {
        action: Action {
            tool: "lookup".to_string(),
            tool_input: "{}".to_string(),
            log: encode_log(id, &tools),
        },
        observation: observation.to_string(),
    }
}

#[test]
fn short_history_renders_pair_per_step_in_order() {
    let steps: Vec<Step> = (0..3).map(|i| step(&format!("call_{i}"), &format!("obs {i}"))).collect();
    let msgs = construct_scratchpad(&steps).expect("valid steps must render");
    assert_eq!(msgs.len(), 6);
    for i in 0..3 {
        match &msgs[2 * i] {
            ScratchpadMessage::AiToolCalls(tools) => {
                assert_eq!(*tools, batch_payload(&format!("call_{i}")));
            },
            _ => panic!("expected an assistant tool-call message"),
        }
        match &msgs[2 * i + 1] {
            ScratchpadMessage::ToolResult { content, tool_call_id } => {
                assert_eq!(*content, format!("obs {i}"));
                assert_eq!(*tool_call_id, format!("call_{i}"));
            },
            _ => panic!("expected a tool-result message"),
        }
    }
}

#[test]
fn ten_steps_render_without_summary() {
    let steps: Vec<Step> = (0..10).map(|i| step(&format!("call_{i}"), "ok")).collect();
    let msgs = construct_scratchpad(&steps).expect("valid steps must render");
    assert_eq!(msgs.len(), 20);
    assert!(msgs.iter().all(|m| !matches!(m, ScratchpadMessage::Summary(_))));
}

#[test]
fn long_history_is_compacted_to_summary_plus_five_pairs() {
    let steps: Vec<Step> = (0..12).map(|i| step(&format!("call_{i}"), &format!("obs {i}"))).collect();
    let msgs = construct_scratchpad(&steps).expect("valid steps must render");
    assert_eq!(msgs.len(), 11);
    match &msgs[0] {
        ScratchpadMessage::Summary(text) => {
            assert_eq!(
                *text,
                "Previous 7 steps summary: [Summarized execution history with 7 actions completed]"
            );
        },
        _ => panic!("expected the summary message first"),
    }
    for i in 0..5 {
        let id = format!("call_{}", 7 + i);
        match &msgs[2 * i + 1] {
            ScratchpadMessage::AiToolCalls(tools) => assert_eq!(*tools, batch_payload(&id)),
            _ => panic!("expected an assistant tool-call message"),
        }
        match &msgs[2 * i + 2] {
            ScratchpadMessage::ToolResult { tool_call_id, .. } => assert_eq!(*tool_call_id, id),
            _ => panic!("expected a tool-result message"),
        }
    }
}

#[test]
fn eleven_steps_still_render_exactly_five_pairs() {
    let steps: Vec<Step> = (0..11).map(|i| step(&format!("call_{i}"), "ok")).collect();
    let msgs = construct_scratchpad(&steps).expect("valid steps must render");
    assert_eq!(msgs.len(), 11);
    assert!(matches!(&msgs[0], ScratchpadMessage::Summary(_)));
}

#[test]
fn identical_payloads_collapse_into_one_assistant_message() {
    let tools = batch_payload("call_x");
    let mk = |obs: &str| Step {
        action: Action {
            tool: "lookup".to_string(),
            tool_input: "{}".to_string(),
            log: encode_log("call_x", &tools),
        },
        observation: obs.to_string(),
    };
    let steps = vec![mk("first"), mk("second")];
    let msgs = construct_scratchpad(&steps).expect("valid steps must render");
    assert_eq!(msgs.len(), 3);
    assert!(matches!(&msgs[0], ScratchpadMessage::AiToolCalls(_)));
    assert!(matches!(&msgs[1], ScratchpadMessage::ToolResult { .. }));
    assert!(matches!(&msgs[2], ScratchpadMessage::ToolResult { .. }));
}

#[test]
fn unparsable_log_is_a_fatal_serialization_error() {
    let steps = vec![Step {
        action: Action {
            tool: "lookup".to_string(),
            tool_input: "{}".to_string(),
            log: "not a log".to_string(),
        },
        observation: "ok".to_string(),
    }];
    match construct_scratchpad(&steps) {
        Err(AgentError::Serialization(_)) => {},
        _ => panic!("expected a serialization error"),
    }
}

#[test]
fn non_batch_payload_is_a_fatal_serialization_error() {
    let steps = vec![Step {
        action: Action {
            tool: "lookup".to_string(),
            tool_input: "{}".to_string(),
            log: encode_log("call_1", "{\"not\":\"a batch\"}"),
        },
        observation: "ok".to_string(),
    }];
    match construct_scratchpad(&steps) {
        Err(AgentError::Serialization(_)) => {},
        _ => panic!("expected a serialization error"),
    }
}

#[test]
fn old_steps_with_bad_logs_are_not_touched_when_summarized() {
    let mut steps: Vec<Step> = (0..7)
        .map(|_| Step {
            action: Action {
                tool: "lookup".to_string(),
                tool_input: "{}".to_string(),
                log: "broken".to_string(),
            },
            observation: "old".to_string(),
        })
        .collect();
    for i in 0..5 {
        steps.push(step(&format!("call_{i}"), "recent"));
    }
    let msgs = construct_scratchpad(&steps).expect("recent steps are valid");
    assert_eq!(msgs.len(), 11);
}
