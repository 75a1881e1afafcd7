//! Core data model: actions, steps, planner events, errors, and the
//! mathematical views the contracts are stated over.

use vstd::prelude::*;

verus! {

/// A planner-issued request to invoke a named tool with serialized arguments.
/// `log` carries the tool-call id and the raw tool-call batch JSON, in the
/// format of `crate::log_codec`.
pub struct Action {
    pub tool: String,
    pub tool_input: String,
    pub log: String,
}

/// Mathematical view of an [`Action`].
#[verifier::ext_equal]
pub struct ActionM {
    pub tool: Seq<char>,
    pub tool_input: Seq<char>,
    pub log: Seq<char>,
}

impl View for Action {
    type V = ActionM;

    open spec fn view(&self) -> ActionM {
        ActionM { tool: self.tool@, tool_input: self.tool_input@, log: self.log@ }
    }
}

impl Action {
    pub fn clone_action(&self) -> (r: Action)
        ensures
            r@ == self@,
    {
        Action {
            tool: self.tool.clone(),
            tool_input: self.tool_input.clone(),
            log: self.log.clone(),
        }
    }
}

/// One executed step: the action taken and the observation it produced.
pub struct Step {
    pub action: Action,
    pub observation: String,
}

/// Mathematical view of a [`Step`].
#[verifier::ext_equal]
pub struct StepM {
    pub action: ActionM,
    pub observation: Seq<char>,
}

impl View for Step {
    type V = StepM;

    open spec fn view(&self) -> StepM {
        StepM { action: self.action@, observation: self.observation@ }
    }
}

/// Terminal decision from the planner for one cycle.
pub enum AgentEvent {
    Action(Vec<Action>),
    Finish(String),
}

/// Mathematical view of an [`AgentEvent`].
#[verifier::ext_equal]
pub enum AgentEventM {
    Action(Seq<ActionM>),
    Finish(Seq<char>),
}

impl View for AgentEvent {
    type V = AgentEventM;

    open spec fn view(&self) -> AgentEventM {
        match self {
            AgentEvent::Action(v) => AgentEventM::Action(
                v@.map(|i: int, a: Action| a@),
            ),
            AgentEvent::Finish(o) => AgentEventM::Finish(o@),
        }
    }
}

/// Sub-event preceding a terminal [`AgentEvent`] in the streaming planner
/// protocol.
pub enum DeltaEvent {
    Action(Action),
    Content(String),
}

/// Mathematical view of a [`DeltaEvent`].
#[verifier::ext_equal]
pub enum DeltaEventM {
    Action(ActionM),
    Content(Seq<char>),
}

impl View for DeltaEvent {
    type V = DeltaEventM;

    open spec fn view(&self) -> DeltaEventM {
        match self {
            DeltaEvent::Action(a) => DeltaEventM::Action(a@),
            DeltaEvent::Content(c) => DeltaEventM::Content(c@),
        }
    }
}

/// One event of the streaming planner: a sub-event or the cycle's terminal
/// decision.
pub enum AgentEventChunk {
    Delta(DeltaEvent),
    Final(AgentEvent),
}

/// Mathematical view of an [`AgentEventChunk`].
#[verifier::ext_equal]
pub enum AgentEventChunkM {
    Delta(DeltaEventM),
    Final(AgentEventM),
}

impl View for AgentEventChunk {
    type V = AgentEventChunkM;

    open spec fn view(&self) -> AgentEventChunkM {
        match self {
            AgentEventChunk::Delta(d) => AgentEventChunkM::Delta(d@),
            AgentEventChunk::Final(e) => AgentEventChunkM::Final(e@),
        }
    }
}

/// Error taxonomy of the loop. Planning, tool-lookup and serialization
/// failures are always fatal; tool execution failures are fatal only under
/// the `break_if_error` policy.
#[derive(Debug)]
pub enum AgentError {
    Planning(String),
    ToolNotFound(String),
    ToolExecution(String),
    Serialization(String),
}

/// Mathematical view of an [`AgentError`].
#[verifier::ext_equal]
pub enum AgentErrorM {
    Planning(Seq<char>),
    ToolNotFound(Seq<char>),
    ToolExecution(Seq<char>),
    Serialization(Seq<char>),
}

impl View for AgentError {
    type V = AgentErrorM;

    open spec fn view(&self) -> AgentErrorM {
        match self {
            AgentError::Planning(m) => AgentErrorM::Planning(m@),
            AgentError::ToolNotFound(m) => AgentErrorM::ToolNotFound(m@),
            AgentError::ToolExecution(m) => AgentErrorM::ToolExecution(m@),
            AgentError::Serialization(m) => AgentErrorM::Serialization(m@),
        }
    }
}

impl AgentError {
    /// The error as display text, in the shape the loop's callers see:
    /// planning failures carry their message verbatim, tool failures the
    /// tool-error prefix, serialization failures their own prefix.
    pub fn message(&self) -> (r: String)
        ensures
            r@ == match self@ {
                AgentErrorM::Planning(m) => m,
                AgentErrorM::ToolNotFound(m) => "Tool error: "@ + m,
                AgentErrorM::ToolExecution(m) => "Tool error: "@ + m,
                AgentErrorM::Serialization(m) => "Serialization error: "@ + m,
            },
    {
        match self {
            AgentError::Planning(m) => m.clone(),
            AgentError::ToolNotFound(m) => {
                let mut out = String::new();
                out.append("Tool error: ");
                out.append(m.as_str());
                out
            },
            AgentError::ToolExecution(m) => {
                let mut out = String::new();
                out.append("Tool error: ");
                out.append(m.as_str());
                out
            },
            AgentError::Serialization(m) => {
                let mut out = String::new();
                out.append("Serialization error: ");
                out.append(m.as_str());
                out
            },
        }
    }
}

/// One write against the conversation memory, in the order it must be
/// applied. Mirrors the memory sink capability set: user message, plain
/// assistant message, assistant message announcing tool calls, tool-result
/// message.
pub enum MemoryOp {
    AddUser(String),
    AddAi(String),
    AddAiWithToolCalls(String),
    AddTool { content: String, tool_call_id: String },
}

/// Mathematical view of a [`MemoryOp`].
#[verifier::ext_equal]
pub enum MemoryOpM {
    AddUser(Seq<char>),
    AddAi(Seq<char>),
    AddAiWithToolCalls(Seq<char>),
    AddTool { content: Seq<char>, tool_call_id: Seq<char> },
}

impl View for MemoryOp {
    type V = MemoryOpM;

    open spec fn view(&self) -> MemoryOpM {
        match self {
            MemoryOp::AddUser(s) => MemoryOpM::AddUser(s@),
            MemoryOp::AddAi(s) => MemoryOpM::AddAi(s@),
            MemoryOp::AddAiWithToolCalls(s) => MemoryOpM::AddAiWithToolCalls(s@),
            MemoryOp::AddTool { content, tool_call_id } => MemoryOpM::AddTool {
                content: content@,
                tool_call_id: tool_call_id@,
            },
        }
    }
}

/// A message of the rendered scratchpad: either the synthesized summary of
/// compacted steps, an assistant message carrying a tool-call batch, or a
/// tool-result message.
pub enum ScratchpadMessage {
    Summary(String),
    AiToolCalls(String),
    ToolResult { content: String, tool_call_id: String },
}

/// Mathematical view of a [`ScratchpadMessage`].
#[verifier::ext_equal]
pub enum ScratchpadMessageM {
    Summary(Seq<char>),
    AiToolCalls(Seq<char>),
    ToolResult { content: Seq<char>, tool_call_id: Seq<char> },
}

impl View for ScratchpadMessage {
    type V = ScratchpadMessageM;

    open spec fn view(&self) -> ScratchpadMessageM {
        match self {
            ScratchpadMessage::Summary(s) => ScratchpadMessageM::Summary(s@),
            ScratchpadMessage::AiToolCalls(s) => ScratchpadMessageM::AiToolCalls(s@),
            ScratchpadMessage::ToolResult { content, tool_call_id } => {
                ScratchpadMessageM::ToolResult {
                    content: content@,
                    tool_call_id: tool_call_id@,
                }
            },
        }
    }
}

} // verus!
