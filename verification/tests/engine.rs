use mcp_agent::executor::{normalize_tool_name, CallCommand, CallEngine, ToolTable};
use mcp_agent::log_codec::encode_log;
use mcp_agent::types::{Action, AgentError, AgentEvent, MemoryOp};

fn batch_payload(id: &str) -> String {
    format!(
        "[{{\"id\":\"{id}\",\"type\":\"function\",\"function\":{{\"name\":\"echo\",\"arguments\":\"{{}}\"}}}}]"
    )
}

fn action(id: &str, tool: &str) -> Action {
    let tools = batch_payload(id);
    Action {
        tool: tool.to_string(),
        tool_input: "{}".to_string(),
        log: encode_log(id, &tools),
    }
}

fn engine(max_iterations: Option<i32>, break_if_error: bool) -> CallEngine {
    CallEngine::new(
        max_iterations,
        break_if_error,
        vec!["echo".to_string()],
        "what is up".to_string(),
    )
}

#[test]
fn normalization_trims_and_underscores() {
    assert_eq!(normalize_tool_name("  my tool \n"), "my_tool");
    assert_eq!(normalize_tool_name("plain"), "plain");
    assert_eq!(normalize_tool_name("   "), "");
    assert_eq!(normalize_tool_name("a b c"), "a_b_c");
}

#[test]
fn lookup_normalizes_both_sides_and_last_registration_wins() {
    let table = ToolTable::new(vec!["my tool".to_string(), " my_tool ".to_string()]);
    assert_eq!(table.resolve("My tool"), None);
    assert_eq!(table.resolve("my tool"), Some(1));
    assert_eq!(table.resolve(" my_tool"), Some(1));
    assert_eq!(table.resolve("other"), None);
}

#[test]
fn finish_on_first_cycle_returns_output_without_invocation() {
    let mut e = engine(Some(10), false);
    let cmd = e.on_plan_result(Ok(AgentEvent::Finish("all done".to_string())));
    match cmd {
        CallCommand::Finished { output, memory_ops } => {
            assert_eq!(output, "all done");
            assert_eq!(memory_ops.len(), 2);
            assert!(matches!(&memory_ops[0], MemoryOp::AddUser(s) if s == "what is up"));
            assert!(matches!(&memory_ops[1], MemoryOp::AddAi(s) if s == "all done"));
        },
        _ => panic!("expected the call to finish at once"),
    }
}

#[test]
fn max_iterations_is_exact() {
    let mut e = engine(Some(2), false);
    let mut invocations: usize = 0;
    let mut cmd = e.on_plan_result(Ok(AgentEvent::Action(vec![action("call_0", "echo")])));
    let mut round: usize = 1;
    loop {
        match cmd {
            CallCommand::Invoke { tool_index, .. } => {
                assert_eq!(tool_index, 0);
                invocations += 1;
                cmd = e.on_tool_result(Ok("fine".to_string()));
            },
            CallCommand::Plan => {
                round += 1;
                cmd = e.on_plan_result(Ok(AgentEvent::Action(vec![action(
                    &format!("call_{round}"),
                    "echo",
                )])));
            },
            CallCommand::Finished { output, .. } => {
                assert_eq!(output, "Max iterations reached");
                break;
            },
            CallCommand::Failed { .. } => panic!("the call must not fail"),
        }
        assert!(invocations <= 3, "the loop must stop at the cap");
    }
    assert_eq!(invocations, 2, "exactly two steps are recorded, never three");
}

#[test]
fn break_if_error_aborts_after_one_attempt() {
    let mut e = engine(Some(10), true);
    let cmd = e.on_plan_result(Ok(AgentEvent::Action(vec![action("call_0", "echo")])));
    let cmd = match cmd {
        CallCommand::Invoke { .. } => e.on_tool_result(Err("boom".to_string())),
        _ => panic!("expected an invocation"),
    };
    match cmd {
        CallCommand::Failed { error: AgentError::ToolExecution(msg) } => {
            assert_eq!(msg, "boom");
        },
        _ => panic!("expected a fatal tool-execution error"),
    }
}

#[test]
fn without_break_the_error_becomes_an_observation() {
    let mut e = engine(Some(10), false);
    let cmd = e.on_plan_result(Ok(AgentEvent::Action(vec![action("call_0", "echo")])));
    let cmd = match cmd {
        CallCommand::Invoke { .. } => e.on_tool_result(Err("boom".to_string())),
        _ => panic!("expected an invocation"),
    };
    assert!(matches!(cmd, CallCommand::Plan), "the loop must continue planning");
    let cmd = e.on_plan_result(Ok(AgentEvent::Finish("recovered".to_string())));
    match cmd {
        CallCommand::Finished { output, memory_ops } => {
            assert_eq!(output, "recovered");
            let obs = memory_ops.iter().find_map(|op| match op {
                MemoryOp::AddTool { content, .. } => Some(content.clone()),
                _ => None,
            });
            let obs = obs.expect("the failed step must be persisted");
            assert!(obs.contains("boom"), "the observation must embed the error text");
            assert_eq!(obs, "The tool return the following error: boom");
        },
        _ => panic!("expected the call to finish"),
    }
}

#[test]
fn unknown_tool_is_fatal_regardless_of_policy() {
    let mut e = engine(Some(10), false);
    let cmd = e.on_plan_result(Ok(AgentEvent::Action(vec![action("call_0", "missing")])));
    match cmd {
        CallCommand::Failed { error: AgentError::ToolNotFound(msg) } => {
            assert_eq!(msg, "Tool missing not found");
        },
        _ => panic!("expected a tool-not-found error"),
    }
}

#[test]
fn planning_error_is_fatal() {
    let mut e = engine(Some(10), false);
    let cmd = e.on_plan_result(Err("model unreachable".to_string()));
    match cmd {
        CallCommand::Failed { error: AgentError::Planning(msg) } => {
            assert_eq!(msg, "Error in agent planning: model unreachable");
        },
        _ => panic!("expected a planning error"),
    }
}

#[test]
fn finish_persists_steps_with_payload_dedup() {
    let mut e = engine(Some(10), false);
    let cmd = e.on_plan_result(Ok(AgentEvent::Action(vec![
        action("call_0", "echo"),
        action("call_0", "echo"),
    ])));
    let cmd = match cmd {
        CallCommand::Invoke { .. } => e.on_tool_result(Ok("one".to_string())),
        _ => panic!("expected an invocation"),
    };
    let cmd = match cmd {
        CallCommand::Invoke { .. } => e.on_tool_result(Ok("two".to_string())),
        _ => panic!("expected a second invocation"),
    };
    let cmd = match cmd {
        CallCommand::Plan => e.on_plan_result(Ok(AgentEvent::Finish("done".to_string()))),
        _ => panic!("expected the loop to plan again"),
    };
    match cmd {
        CallCommand::Finished { memory_ops, .. } => {
            let announcements = memory_ops
                .iter()
                .filter(|op| matches!(op, MemoryOp::AddAiWithToolCalls(_)))
                .count();
            let results = memory_ops
                .iter()
                .filter(|op| matches!(op, MemoryOp::AddTool { .. }))
                .count();
            assert_eq!(announcements, 1, "identical payloads collapse");
            assert_eq!(results, 2);
            assert_eq!(memory_ops.len(), 5);
        },
        _ => panic!("expected the call to finish"),
    }
}

#[test]
fn zero_cap_finishes_after_first_batch() {
    let mut e = engine(Some(0), false);
    let cmd = e.on_plan_result(Ok(AgentEvent::Action(vec![])));
    match cmd {
        CallCommand::Finished { output, .. } => assert_eq!(output, "Max iterations reached"),
        _ => panic!("expected the cap to trigger"),
    }
}
