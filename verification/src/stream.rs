//! The streaming execution loop and its relay: a verified state machine that
//! decides every step of the streaming variant, shapes each outgoing wire
//! chunk, and keeps the whole emitted chunk sequence as its ghost history —
//! over which the stream protocol (assistant-role first chunk, terminal
//! chunk last) is proved.

use vstd::prelude::*;

use crate::executor::{cap_reached, lemma_resolve_range, names_view, resolve_spec, ops_view,
    steps_seq_view, ToolTable, actions_view};
use crate::json_text::json_quoted;
use crate::log_codec::spec_parse_log;
use crate::outside::{canonicalize_json, json_canon_of};
use crate::scratchpad::strs_set;
use crate::types::{Action, ActionM, MemoryOp, MemoryOpM, Step, StepM};

verus! {

/// The terminal markers of the wire protocol: `stop` for a finished or
/// aborted stream, `length` for the iteration cap.
pub enum FinishReason {
    Stop,
    Length,
}

/// The delta payload of one wire chunk.
pub enum ChunkDelta {
    RoleAssistant,
    Content(String),
    ToolCalls { id: String, conversation_id: String, name: String, arguments: String },
    ToolResult { parsed: String, tool_name: String, tool_call_id: String },
    Empty,
}

/// Mathematical view of a [`ChunkDelta`].
#[verifier::ext_equal]
pub enum ChunkDeltaM {
    RoleAssistant,
    Content(Seq<char>),
    ToolCalls { id: Seq<char>, conversation_id: Seq<char>, name: Seq<char>, arguments: Seq<char> },
    ToolResult { parsed: Seq<char>, tool_name: Seq<char>, tool_call_id: Seq<char> },
    Empty,
}

impl View for ChunkDelta {
    type V = ChunkDeltaM;

    open spec fn view(&self) -> ChunkDeltaM {
        match self {
            ChunkDelta::RoleAssistant => ChunkDeltaM::RoleAssistant,
            ChunkDelta::Content(c) => ChunkDeltaM::Content(c@),
            ChunkDelta::ToolCalls { id, conversation_id, name, arguments } => {
                ChunkDeltaM::ToolCalls {
                    id: id@,
                    conversation_id: conversation_id@,
                    name: name@,
                    arguments: arguments@,
                }
            },
            ChunkDelta::ToolResult { parsed, tool_name, tool_call_id } => {
                ChunkDeltaM::ToolResult {
                    parsed: parsed@,
                    tool_name: tool_name@,
                    tool_call_id: tool_call_id@,
                }
            },
            ChunkDelta::Empty => ChunkDeltaM::Empty,
        }
    }
}

/// One chunk of the outgoing stream: the delta and the finish reason.
pub struct WireChunk {
    pub delta: ChunkDelta,
    pub finish_reason: Option<FinishReason>,
}

/// Mathematical view of a [`WireChunk`].
#[verifier::ext_equal]
pub struct WireChunkM {
    pub delta: ChunkDeltaM,
    pub finish_reason: Option<FinishReason>,
}

impl View for WireChunk {
    type V = WireChunkM;

    open spec fn view(&self) -> WireChunkM {
        WireChunkM { delta: self.delta@, finish_reason: self.finish_reason }
    }
}

/// The view of a chunk vector.
pub open spec fn wire_view(v: Seq<WireChunk>) -> Seq<WireChunkM> {
    v.map(|i: int, c: WireChunk| c@)
}

/// The chunk opening every stream: the assistant role with null content.
pub open spec fn initial_chunk_m() -> WireChunkM {
    WireChunkM { delta: ChunkDeltaM::RoleAssistant, finish_reason: None }
}

/// The memory writes one step contributes when a cycle or a finished stream
/// is persisted, and the seen-payload set after it. A step whose log does
/// not parse, or whose payload is not valid JSON, is skipped.
pub open spec fn lenient_step_ops(s: StepM, seen: Set<Seq<char>>) -> (Seq<MemoryOpM>, Set<
    Seq<char>,
>) {
    match spec_parse_log(s.action.log) {
        Some(p) => if json_canon_of(p.1) is Some {
            (
                (if seen.contains(p.1) {
                    Seq::<MemoryOpM>::empty()
                } else {
                    seq![MemoryOpM::AddAiWithToolCalls(p.1)]
                }) + seq![
                    MemoryOpM::AddTool { content: s.observation, tool_call_id: p.0 },
                ],
                seen.insert(p.1),
            )
        } else {
            (Seq::empty(), seen)
        },
        None => (Seq::empty(), seen),
    }
}

/// The memory writes of a step list, in order, deduplicating identical
/// batch payloads and skipping unpersistable steps.
pub open spec fn lenient_steps_ops(steps: Seq<StepM>, seen: Set<Seq<char>>) -> Seq<MemoryOpM>
    decreases steps.len(),
{
    if steps.len() == 0 {
        Seq::empty()
    } else {
        let (ops, seen2) = lenient_step_ops(steps[0], seen);
        ops + lenient_steps_ops(steps.drop_first(), seen2)
    }
}

/// The memory writes that persist one finished cycle: the cycle's text
/// content when non-empty, then its steps.
pub open spec fn cycle_flush_ops(content: Seq<char>, steps: Seq<StepM>) -> Seq<MemoryOpM> {
    (if content.len() > 0 {
        seq![MemoryOpM::AddAi(content)]
    } else {
        Seq::<MemoryOpM>::empty()
    }) + lenient_steps_ops(steps, Set::empty())
}

/// The memory writes that persist a finished streamed turn: the turn's user
/// input, the last cycle's content when non-empty, every recorded step, and
/// the final output.
pub open spec fn stream_finish_ops(
    input: Seq<char>,
    content: Seq<char>,
    steps: Seq<StepM>,
    output: Seq<char>,
) -> Seq<MemoryOpM> {
    seq![MemoryOpM::AddUser(input)] + (if content.len() > 0 {
        seq![MemoryOpM::AddAi(content)]
    } else {
        Seq::<MemoryOpM>::empty()
    }) + lenient_steps_ops(steps, Set::empty()) + seq![MemoryOpM::AddAi(output)]
}

/// A leniently persisted step list contributes only batch announcements and
/// tool results, and every tool-result write is preceded by a batch
/// announcement unless a payload was already announced by the earlier
/// context.
proof fn lemma_lenient_steps_ops_shape(steps: Seq<StepM>, seen: Set<Seq<char>>)
    ensures
        ({
            let ops = lenient_steps_ops(steps, seen);
            &&& forall|k: int|
                0 <= k < ops.len() ==> (#[trigger] ops[k]) is AddAiWithToolCalls || ops[k]
                    is AddTool
            &&& forall|k: int|
                0 <= k < ops.len() && (#[trigger] ops[k]) is AddTool ==> (exists|j: int|
                    0 <= j < k && (#[trigger] ops[j]) is AddAiWithToolCalls) || seen
                    != Set::<Seq<char>>::empty()
        }),
    decreases steps.len(),
{
    if steps.len() > 0 {
        let (head, seen2) = lenient_step_ops(steps[0], seen);
        lemma_lenient_steps_ops_shape(steps.drop_first(), seen2);
        let rest = lenient_steps_ops(steps.drop_first(), seen2);
        let ops = lenient_steps_ops(steps, seen);
        assert(ops == head + rest);
        assert forall|k: int| 0 <= k < ops.len() implies (#[trigger] ops[k])
            is AddAiWithToolCalls || ops[k] is AddTool by {
            if k >= head.len() {
                assert(ops[k] == rest[k - head.len()]);
            }
        }
        assert forall|k: int|
            0 <= k < ops.len() && (#[trigger] ops[k]) is AddTool implies (exists|j: int|
                0 <= j < k && (#[trigger] ops[j]) is AddAiWithToolCalls) || seen
                != Set::<Seq<char>>::empty() by {
            if head.len() == 2 {
                assert(head[0] is AddAiWithToolCalls);
                assert(ops[0] is AddAiWithToolCalls);
                if k == 0 {
                    assert(!(ops[0] is AddTool));
                }
            } else if head.len() == 1 {
                assert(seen.contains(lenient_payload(steps[0])));
                assert(seen != Set::<Seq<char>>::empty());
            } else {
                assert(head.len() == 0);
                assert(ops[k] == rest[k as int]);
                assert(seen2 == seen);
            }
        }
    }
}

/// The payload a step announces when its log parses.
pub open spec fn lenient_payload(s: StepM) -> Seq<char> {
    spec_parse_log(s.action.log)->Some_0.1
}

/// Law: the writes persisting a finished streamed turn have the shape the
/// memory expects. The turn contributes exactly one user message, which
/// comes first; the final assistant output comes last; and a tool-result
/// message never precedes an announcing assistant message.
pub proof fn lemma_stream_finish_ops_memory_shape(
    input: Seq<char>,
    content: Seq<char>,
    steps: Seq<StepM>,
    output: Seq<char>,
)
    ensures
        ({
            let ops = stream_finish_ops(input, content, steps, output);
            &&& ops.len() >= 2
            &&& ops[0] == MemoryOpM::AddUser(input)
            &&& ops.last() == MemoryOpM::AddAi(output)
            &&& forall|k: int| 1 <= k < ops.len() ==> !((#[trigger] ops[k]) is AddUser)
            &&& forall|k: int|
                0 <= k < ops.len() && (#[trigger] ops[k]) is AddTool ==> exists|j: int|
                    0 <= j < k && (#[trigger] ops[j]) is AddAiWithToolCalls
        }),
{
    lemma_lenient_steps_ops_shape(steps, Set::empty());
    let mid = lenient_steps_ops(steps, Set::empty());
    let cpart = if content.len() > 0 {
        seq![MemoryOpM::AddAi(content)]
    } else {
        Seq::<MemoryOpM>::empty()
    };
    let ops = stream_finish_ops(input, content, steps, output);
    assert(ops == seq![MemoryOpM::AddUser(input)] + cpart + mid + seq![
        MemoryOpM::AddAi(output),
    ]);
    let base = 1 + cpart.len();
    assert forall|k: int| 1 <= k < ops.len() implies !((#[trigger] ops[k]) is AddUser) by {
        if k < base {
            assert(ops[k] == cpart[k - 1]);
        } else if k < base + mid.len() {
            assert(ops[k] == mid[k - base]);
        }
    }
    assert forall|k: int|
        0 <= k < ops.len() && (#[trigger] ops[k]) is AddTool implies exists|j: int|
            0 <= j < k && (#[trigger] ops[j]) is AddAiWithToolCalls by {
        assert(base <= k < base + mid.len());
        assert(ops[k] == mid[k - base]);
        assert(mid[k - base] is AddTool);
        let j0 = choose|j0: int| 0 <= j0 < k - base && (#[trigger] mid[j0]) is AddAiWithToolCalls;
        assert(ops[j0 + base] == mid[j0]);
    }
}

/// Computes the lenient memory writes of a step list.
pub fn compute_lenient_steps_ops(steps: &Vec<Step>) -> (r: Vec<MemoryOp>)
    ensures
        ops_view(r@) == lenient_steps_ops(steps_seq_view(steps@), Set::empty()),
{
    let n: usize = steps.len();
    let mut ops: Vec<MemoryOp> = Vec::new();
    let mut seen: Vec<String> = Vec::new();
    let mut i: usize = 0;
    proof {
        assert(strs_set(seen@) =~= Set::<Seq<char>>::empty());
        assert(steps_seq_view(steps@).skip(0) =~= steps_seq_view(steps@));
        assert(ops_view(ops@) =~= Seq::<MemoryOpM>::empty());
    }
    while i < n
        invariant
            i <= n,
            n == steps@.len(),
            lenient_steps_ops(steps_seq_view(steps@), Set::empty()) == ops_view(ops@)
                + lenient_steps_ops(steps_seq_view(steps@).skip(i as int), strs_set(seen@)),
        decreases n - i,
    {
        let ghost pre_ops = ops_view(ops@);
        let ghost pre_seen = strs_set(seen@);
        let ghost remaining = steps_seq_view(steps@).skip(i as int);
        let step = &steps[i];
        proof {
            assert(remaining[0] == step@);
            assert(remaining.drop_first() =~= steps_seq_view(steps@).skip(i + 1 as int));
        }
        match crate::log_codec::parse_log(step.action.log.as_str()) {
            Some(p) => {
                let (tool_id, tools) = p;
                if canonicalize_json(tools.as_str()).is_some() {
                    if !seen_contains(&seen, tools.as_str()) {
                        ops.push(MemoryOp::AddAiWithToolCalls(tools.clone()));
                        let pushed = tools.clone();
                        proof {
                            crate::scratchpad::lemma_strs_set_push(seen@, pushed);
                        }
                        seen.push(pushed);
                    } else {
                        proof {
                            assert(strs_set(seen@).insert(tools@) =~= strs_set(seen@));
                        }
                    }
                    ops.push(
                        MemoryOp::AddTool {
                            content: step.observation.clone(),
                            tool_call_id: tool_id,
                        },
                    );
                    proof {
                        let (ms, _) = lenient_step_ops(step@, pre_seen);
                        assert(ops_view(ops@) =~= pre_ops + ms);
                        assert forall|rest: Seq<MemoryOpM>| true implies (pre_ops + ms) + rest
                            =~= pre_ops + (ms + rest) by {}
                    }
                } else {
                    proof {
                        assert(lenient_step_ops(step@, pre_seen) == (
                            Seq::<MemoryOpM>::empty(),
                            pre_seen,
                        ));
                        assert(pre_ops + Seq::<MemoryOpM>::empty() =~= pre_ops);
                    }
                }
            },
            None => {
                proof {
                    assert(lenient_step_ops(step@, pre_seen) == (
                        Seq::<MemoryOpM>::empty(),
                        pre_seen,
                    ));
                    assert(pre_ops + Seq::<MemoryOpM>::empty() =~= pre_ops);
                }
            },
        }
        i += 1;
    }
    proof {
        assert(steps_seq_view(steps@).skip(n as int) =~= Seq::<StepM>::empty());
        assert(ops_view(ops@) + Seq::<MemoryOpM>::empty() =~= ops_view(ops@));
    }
    ops
}

fn seen_contains(seen: &Vec<String>, s: &str) -> (r: bool)
    ensures
        r == strs_set(seen@).contains(s@),
{
    let n: usize = seen.len();
    let mut i: usize = 0;
    while i < n
        invariant
            i <= n,
            n == seen@.len(),
            forall|j: int| 0 <= j < i ==> seen@[j]@ != s@,
        decreases n - i,
    {
        if crate::text::str_eq(seen[i].as_str(), s) {
            return true;
        }
        i += 1;
    }
    false
}


/// The wire-envelope constants of one stream: completion id, conversation
/// id, model name, creation time in unix seconds.
pub struct StreamIds {
    pub completion_id: String,
    pub conversation_id: String,
    pub model: String,
    pub created: i64,
}

/// The phase of the streaming loop: about to plan a cycle, inside a cycle's
/// sub-events, awaiting the result of the tool call last commanded, or
/// ended.
pub enum StreamPhase {
    Planning,
    InCycle,
    AwaitingTool,
    Done,
}

/// The per-stream configuration and envelope, which no transition changes.
#[verifier::ext_equal]
pub struct StreamCfgM {
    pub max_iterations: Option<i32>,
    pub break_if_error: bool,
    pub tools: Seq<Seq<char>>,
    pub input: Seq<char>,
    pub completion_id: Seq<char>,
    pub conversation_id: Seq<char>,
    pub model: Seq<char>,
    pub created: int,
}

/// The mutable state of the streaming loop.
#[verifier::ext_equal]
pub struct StreamStateM {
    pub steps: Seq<StepM>,
    pub cycle_steps: Seq<StepM>,
    pub content: Seq<char>,
    pub pending: Seq<ActionM>,
    pub current_id: Option<Seq<char>>,
    pub current_name: Option<Seq<char>>,
    pub phase: StreamPhase,
    pub history: Seq<WireChunkM>,
}

/// What the caller must do next: invoke a tool, apply the cycle's memory
/// writes and plan the next cycle, or apply the final writes — the stream
/// has ended and its terminal chunk is already emitted.
pub enum StreamCommand {
    Invoke { tool_index: usize, action: Action },
    Continue { memory_ops: Vec<MemoryOp> },
    Ended { memory_ops: Vec<MemoryOp> },
}

/// Mathematical view of a [`StreamCommand`].
#[verifier::ext_equal]
pub enum StreamCommandM {
    Invoke { tool_index: int, action: ActionM },
    Continue { memory_ops: Seq<MemoryOpM> },
    Ended { memory_ops: Seq<MemoryOpM> },
}

impl View for StreamCommand {
    type V = StreamCommandM;

    open spec fn view(&self) -> StreamCommandM {
        match self {
            StreamCommand::Invoke { tool_index, action } => StreamCommandM::Invoke {
                tool_index: *tool_index as int,
                action: action@,
            },
            StreamCommand::Continue { memory_ops } => StreamCommandM::Continue {
                memory_ops: ops_view(memory_ops@),
            },
            StreamCommand::Ended { memory_ops } => StreamCommandM::Ended {
                memory_ops: ops_view(memory_ops@),
            },
        }
    }
}

/// The tool-call id a partial or final action is announced under: the id
/// recovered from its log, or the caller-minted fresh id when the log does
/// not parse.
pub open spec fn chosen_id(a: ActionM, fresh: Seq<char>) -> Seq<char> {
    match spec_parse_log(a.log) {
        Some(p) => p.0,
        None => fresh,
    }
}

/// The tool-call announcement chunk for an action.
pub open spec fn tool_call_chunk_m(c: StreamCfgM, a: ActionM, fresh: Seq<char>) -> WireChunkM {
    WireChunkM {
        delta: ChunkDeltaM::ToolCalls {
            id: chosen_id(a, fresh),
            conversation_id: c.conversation_id,
            name: a.tool,
            arguments: a.tool_input,
        },
        finish_reason: None,
    }
}

/// After an action batch was handed in or a step was recorded: announce and
/// command the next pending call (an unresolvable name ends the stream with
/// a fatal chunk), or end the batch — flushing the cycle and either emitting
/// the cap's terminal chunk or planning the next cycle.
pub open spec fn advance_tr(c: StreamCfgM, s: StreamStateM, fresh: Seq<char>) -> (
    StreamStateM,
    Seq<WireChunkM>,
    StreamCommandM,
) {
    if s.pending.len() > 0 {
        let a = s.pending[0];
        match resolve_spec(c.tools, a.tool) {
            None => {
                let ch = WireChunkM {
                    delta: ChunkDeltaM::Content("Tool "@ + a.tool + " not found"@),
                    finish_reason: Some(FinishReason::Stop),
                };
                (
                    StreamStateM { phase: StreamPhase::Done, history: s.history + seq![ch], ..s },
                    seq![ch],
                    StreamCommandM::Ended { memory_ops: Seq::empty() },
                )
            },
            Some(i) => {
                let ch = tool_call_chunk_m(c, a, fresh);
                (
                    StreamStateM {
                        phase: StreamPhase::AwaitingTool,
                        current_id: Some(chosen_id(a, fresh)),
                        current_name: Some(c.tools[i]),
                        history: s.history + seq![ch],
                        ..s
                    },
                    seq![ch],
                    StreamCommandM::Invoke { tool_index: i, action: a },
                )
            },
        }
    } else {
        let ops = cycle_flush_ops(s.content, s.cycle_steps);
        if cap_reached(c.max_iterations, s.steps.len() as int) {
            let ch = WireChunkM {
                delta: ChunkDeltaM::Content("Maximum iterations reached."@),
                finish_reason: Some(FinishReason::Length),
            };
            (
                StreamStateM { phase: StreamPhase::Done, history: s.history + seq![ch], ..s },
                seq![ch],
                StreamCommandM::Ended { memory_ops: ops },
            )
        } else {
            (
                StreamStateM { phase: StreamPhase::Planning, ..s },
                Seq::empty(),
                StreamCommandM::Continue { memory_ops: ops },
            )
        }
    }
}

/// How the commanded tool call's outcome drives the stream: a failure under
/// the break-on-error policy ends the stream with a fatal chunk; otherwise
/// the observation (the result, or the embedded error text) is emitted as a
/// tool-result chunk — its `parsed` field the canonical JSON of the
/// observation, or the observation as a JSON string when it is no JSON —
/// the step is recorded in both step lists, and the batch advances.
pub open spec fn tool_result_tr(
    c: StreamCfgM,
    s: StreamStateM,
    r: Result<Seq<char>, Seq<char>>,
    fresh: Seq<char>,
) -> (StreamStateM, Seq<WireChunkM>, StreamCommandM) {
    if r is Err && c.break_if_error {
        let ch = WireChunkM {
            delta: ChunkDeltaM::Content("Tool error: "@ + r->Err_0),
            finish_reason: Some(FinishReason::Stop),
        };
        (
            StreamStateM { phase: StreamPhase::Done, history: s.history + seq![ch], ..s },
            seq![ch],
            StreamCommandM::Ended { memory_ops: Seq::empty() },
        )
    } else {
        let obs = match r {
            Ok(o) => o,
            Err(m) => "Tool error: "@ + m,
        };
        let parsed = match json_canon_of(obs) {
            Some(t) => t,
            None => json_quoted(obs),
        };
        let ch = WireChunkM {
            delta: ChunkDeltaM::ToolResult {
                parsed: parsed,
                tool_name: s.current_name->Some_0,
                tool_call_id: s.current_id->Some_0,
            },
            finish_reason: None,
        };
        let step = StepM { action: s.pending[0], observation: obs };
        let s2 = StreamStateM {
            steps: s.steps.push(step),
            cycle_steps: s.cycle_steps.push(step),
            pending: s.pending.drop_first(),
            history: s.history + seq![ch],
            ..s
        };
        let (s3, chunks, cmd) = advance_tr(c, s2, fresh);
        (s3, seq![ch] + chunks, cmd)
    }
}

/// The verified state of one streaming call.
pub struct StreamEngine {
    pub max_iterations: Option<i32>,
    pub break_if_error: bool,
    pub table: ToolTable,
    pub input: String,
    pub ids: StreamIds,
    pub steps: Vec<Step>,
    pub cycle_steps: Vec<Step>,
    pub content: String,
    pub pending: Vec<Action>,
    pub current_id: Option<String>,
    pub current_name: Option<String>,
    pub phase: StreamPhase,
    pub history: Ghost<Seq<WireChunkM>>,
}

impl StreamEngine {
    /// The per-stream configuration and envelope.
    pub open spec fn cfg(&self) -> StreamCfgM {
        StreamCfgM {
            max_iterations: self.max_iterations,
            break_if_error: self.break_if_error,
            tools: names_view(self.table.names@),
            input: self.input@,
            completion_id: self.ids.completion_id@,
            conversation_id: self.ids.conversation_id@,
            model: self.ids.model@,
            created: self.ids.created as int,
        }
    }

    /// The mutable state.
    pub open spec fn st(&self) -> StreamStateM {
        StreamStateM {
            steps: steps_seq_view(self.steps@),
            cycle_steps: steps_seq_view(self.cycle_steps@),
            content: self.content@,
            pending: actions_view(self.pending@),
            current_id: crate::accumulator::opt_view(self.current_id),
            current_name: crate::accumulator::opt_view(self.current_name),
            phase: self.phase,
            history: self.history@,
        }
    }

    /// The history part of the protocol invariant: the history opens with
    /// the assistant role chunk, only its last chunk may carry a finish
    /// reason, and it does so exactly when the stream has ended.
    pub open spec fn hist_wf(&self) -> bool {
        &&& self.history@.len() >= 1
        &&& self.history@[0] == initial_chunk_m()
        &&& (self.phase is Done <==> self.history@.last().finish_reason is Some)
        &&& forall|i: int|
            0 <= i < self.history@.len() - 1 ==> (#[trigger] self.history@[i]).finish_reason
                is None
    }

    /// The stream protocol invariant: the history invariant, and an
    /// outstanding tool call has its action pending and its id and name
    /// recorded.
    pub open spec fn wf(&self) -> bool {
        &&& self.hist_wf()
        &&& self.phase is AwaitingTool ==> self.pending@.len() > 0 && self.current_id is Some
            && self.current_name is Some
    }

    /// A fresh stream: the initial chunk — the assistant role with null
    /// content and no finish reason — is emitted at once.
    pub fn new(
        max_iterations: Option<i32>,
        break_if_error: bool,
        tool_names: Vec<String>,
        input: String,
        ids: StreamIds,
    ) -> (r: (StreamEngine, WireChunk))
        ensures
            r.0.wf(),
            r.0.phase is Planning,
            r.0.cfg() == (StreamCfgM {
                max_iterations,
                break_if_error,
                tools: names_view(tool_names@),
                input: input@,
                completion_id: ids.completion_id@,
                conversation_id: ids.conversation_id@,
                model: ids.model@,
                created: ids.created as int,
            }),
            r.0.st().steps == Seq::<StepM>::empty(),
            r.0.st().history == seq![initial_chunk_m()],
            r.1@ == initial_chunk_m(),
    {
        let chunk = WireChunk { delta: ChunkDelta::RoleAssistant, finish_reason: None };
        let ghost h0 = seq![initial_chunk_m()];
        let hist: Ghost<Seq<WireChunkM>> = Ghost(h0);
        let engine = StreamEngine {
            max_iterations,
            break_if_error,
            table: ToolTable::new(tool_names),
            input,
            ids,
            steps: Vec::new(),
            cycle_steps: Vec::new(),
            content: String::new(),
            pending: Vec::new(),
            current_id: None,
            current_name: None,
            phase: StreamPhase::Planning,
            history: hist,
        };
        proof {
            assert(steps_seq_view(engine.steps@) =~= Seq::<StepM>::empty());
        }
        (engine, chunk)
    }

    /// Opens a cycle: the cycle-local content and step list start empty.
    pub fn begin_cycle(&mut self)
        requires
            old(self).wf(),
            old(self).phase is Planning,
        ensures
            final(self).wf(),
            final(self).cfg() == old(self).cfg(),
            final(self).st() == (StreamStateM {
                cycle_steps: Seq::<StepM>::empty(),
                content: Seq::<char>::empty(),
                phase: StreamPhase::InCycle,
                ..old(self).st()
            }),
    {
        self.cycle_steps = Vec::new();
        self.content = String::new();
        self.phase = StreamPhase::InCycle;
        proof {
            assert(steps_seq_view(self.cycle_steps@) =~= Seq::<StepM>::empty());
            assert(self.st() =~~= (StreamStateM {
                cycle_steps: Seq::<StepM>::empty(),
                content: Seq::<char>::empty(),
                phase: StreamPhase::InCycle,
                ..old(self).st()
            }));
        }
    }

    /// A planning failure is fatal: one terminal chunk embedding the error
    /// text ends the stream.
    pub fn on_plan_error(&mut self, e: &str) -> (c: WireChunk)
        requires
            old(self).wf(),
            old(self).phase is Planning,
        ensures
            final(self).wf(),
            final(self).cfg() == old(self).cfg(),
            c@ == (WireChunkM {
                delta: ChunkDeltaM::Content("Error: "@ + e@),
                finish_reason: Some(FinishReason::Stop),
            }),
            final(self).st() == (StreamStateM {
                phase: StreamPhase::Done,
                history: old(self).st().history + seq![c@],
                ..old(self).st()
            }),
    {
        let mut msg = String::new();
        msg.append("Error: ");
        msg.append(e);
        let c = WireChunk {
            delta: ChunkDelta::Content(msg),
            finish_reason: Some(FinishReason::Stop),
        };
        self.phase = StreamPhase::Done;
        proof {
            self.history@ = self.history@ + seq![c@];
            assert(self.st() =~~= (StreamStateM {
                phase: StreamPhase::Done,
                history: old(self).st().history + seq![c@],
                ..old(self).st()
            }));
        }
        c
    }

    /// A failure of the model stream mid-cycle is fatal in the same way.
    pub fn on_stream_error(&mut self, e: &str) -> (c: WireChunk)
        requires
            old(self).wf(),
            old(self).phase is InCycle,
        ensures
            final(self).wf(),
            final(self).cfg() == old(self).cfg(),
            c@ == (WireChunkM {
                delta: ChunkDeltaM::Content("Stream error: "@ + e@),
                finish_reason: Some(FinishReason::Stop),
            }),
            final(self).st() == (StreamStateM {
                phase: StreamPhase::Done,
                history: old(self).st().history + seq![c@],
                ..old(self).st()
            }),
    {
        let mut msg = String::new();
        msg.append("Stream error: ");
        msg.append(e);
        let c = WireChunk {
            delta: ChunkDelta::Content(msg),
            finish_reason: Some(FinishReason::Stop),
        };
        self.phase = StreamPhase::Done;
        proof {
            self.history@ = self.history@ + seq![c@];
            assert(self.st() =~~= (StreamStateM {
                phase: StreamPhase::Done,
                history: old(self).st().history + seq![c@],
                ..old(self).st()
            }));
        }
        c
    }

    /// A content sub-event: a non-empty fragment is accumulated and
    /// forwarded verbatim as a content chunk; an empty one is dropped.
    pub fn on_content(&mut self, c: String) -> (r: Option<WireChunk>)
        requires
            old(self).wf(),
            old(self).phase is InCycle,
        ensures
            final(self).wf(),
            final(self).cfg() == old(self).cfg(),
            c@.len() > 0 ==> (r matches Some(ch) && ch@ == (WireChunkM {
                delta: ChunkDeltaM::Content(c@),
                finish_reason: None,
            }) && final(self).st() == (StreamStateM {
                content: old(self).st().content + c@,
                history: old(self).st().history + seq![ch@],
                ..old(self).st()
            })),
            c@.len() == 0 ==> r is None && final(self).st() == old(self).st(),
    {
        if c.unicode_len() > 0 {
            self.content.append(c.as_str());
            let ch = WireChunk { delta: ChunkDelta::Content(c), finish_reason: None };
            proof {
                self.history@ = self.history@ + seq![ch@];
                assert(self.st() =~~= (StreamStateM {
                    content: old(self).st().content + ch@.delta->Content_0,
                    history: old(self).st().history + seq![ch@],
                    ..old(self).st()
                }));
            }
            Some(ch)
        } else {
            proof {
                assert(self.st() =~~= old(self).st());
            }
            None
        }
    }

    /// A partial-action sub-event: forwarded as a tool-call chunk carrying
    /// the id recovered from the action's log, or the caller-minted fresh id
    /// when the log does not parse — the second result says whether the
    /// fresh id was used, so the caller can raise its diagnostic.
    pub fn on_partial_action(&mut self, a: &Action, fresh_id: String) -> (r: (WireChunk, bool))
        requires
            old(self).wf(),
            old(self).phase is InCycle,
        ensures
            final(self).wf(),
            final(self).cfg() == old(self).cfg(),
            r.0@ == tool_call_chunk_m(old(self).cfg(), a@, fresh_id@),
            r.1 == (spec_parse_log(a@.log) is None),
            final(self).st() == (StreamStateM {
                history: old(self).st().history + seq![r.0@],
                ..old(self).st()
            }),
    {
        let (id, minted): (String, bool) = match crate::log_codec::parse_log(self_log(a)) {
            Some(p) => (p.0, false),
            None => (fresh_id, true),
        };
        let ch = WireChunk {
            delta: ChunkDelta::ToolCalls {
                id,
                conversation_id: self.ids.conversation_id.clone(),
                name: a.tool.clone(),
                arguments: a.tool_input.clone(),
            },
            finish_reason: None,
        };
        proof {
            self.history@ = self.history@ + seq![ch@];
            assert(ch@ =~~= tool_call_chunk_m(old(self).cfg(), a@, fresh_id@));
            assert(self.st() =~~= (StreamStateM {
                history: old(self).st().history + seq![ch@],
                ..old(self).st()
            }));
        }
        (ch, minted)
    }

    fn advance_stream(&mut self, fresh_id: String) -> (r: (Vec<WireChunk>, StreamCommand))
        requires
            old(self).hist_wf(),
            !(old(self).phase is Done),
        ensures
            final(self).wf(),
            final(self).cfg() == old(self).cfg(),
            (final(self).st(), wire_view(r.0@), r.1@) == advance_tr(
                old(self).cfg(),
                old(self).st(),
                fresh_id@,
            ),
    {
        let ghost c0 = self.cfg();
        let ghost s0 = self.st();
        let mut chunks: Vec<WireChunk> = Vec::new();
        if self.pending.len() > 0 {
            let a = self.pending[0].clone_action();
            proof {
                assert(a@ == s0.pending[0]);
            }
            match self.table.resolve(a.tool.as_str()) {
                None => {
                    let mut msg = String::new();
                    msg.append("Tool ");
                    msg.append(a.tool.as_str());
                    msg.append(" not found");
                    let ch = WireChunk {
                        delta: ChunkDelta::Content(msg),
                        finish_reason: Some(FinishReason::Stop),
                    };
                    self.phase = StreamPhase::Done;
                    proof {
                        self.history@ = self.history@ + seq![ch@];
                    }
                    chunks.push(ch);
                    let cmd = StreamCommand::Ended { memory_ops: Vec::new() };
                    proof {
                        assert(wire_view(chunks@) =~~= advance_tr(c0, s0, fresh_id@).1);
                        assert(ops_view(Seq::<MemoryOp>::empty()) =~= Seq::<MemoryOpM>::empty());
                        assert(cmd@ =~~= advance_tr(c0, s0, fresh_id@).2);
                        assert(self.st() =~~= advance_tr(c0, s0, fresh_id@).0);
                    }
                    (chunks, cmd)
                },
                Some(i) => {
                    proof {
                        lemma_resolve_range(names_view(self.table.names@), a.tool@);
                    }
                    let (id, _minted): (String, bool) = match crate::log_codec::parse_log(
                        self_log(&a),
                    ) {
                        Some(p) => (p.0, false),
                        None => (fresh_id, true),
                    };
                    let ch = WireChunk {
                        delta: ChunkDelta::ToolCalls {
                            id: id.clone(),
                            conversation_id: self.ids.conversation_id.clone(),
                            name: a.tool.clone(),
                            arguments: a.tool_input.clone(),
                        },
                        finish_reason: None,
                    };
                    self.current_id = Some(id);
                    self.current_name = Some(self.table.names[i].clone());
                    self.phase = StreamPhase::AwaitingTool;
                    proof {
                        self.history@ = self.history@ + seq![ch@];
                    }
                    chunks.push(ch);
                    let cmd = StreamCommand::Invoke { tool_index: i, action: a };
                    proof {
                        assert(ch@ =~~= tool_call_chunk_m(c0, s0.pending[0], fresh_id@));
                        assert(wire_view(chunks@) =~~= advance_tr(c0, s0, fresh_id@).1);
                        assert(cmd@ =~~= advance_tr(c0, s0, fresh_id@).2);
                        assert(self.st() =~~= advance_tr(c0, s0, fresh_id@).0);
                    }
                    (chunks, cmd)
                },
            }
        } else {
            let mut ops: Vec<MemoryOp> = Vec::new();
            if self.content.unicode_len() > 0 {
                ops.push(MemoryOp::AddAi(self.content.clone()));
            }
            let mut step_ops_v = compute_lenient_steps_ops(&self.cycle_steps);
            let ghost head = ops_view(ops@);
            let ghost mid = ops_view(step_ops_v@);
            ops.append(&mut step_ops_v);
            proof {
                assert(ops_view(ops@) =~= head + mid);
                assert(head + mid =~= cycle_flush_ops(s0.content, s0.cycle_steps));
            }
            let capped: bool = match self.max_iterations {
                Some(m) => m == 0 || (m > 0 && self.steps.len() >= (m as usize)),
                None => false,
            };
            assert(capped == cap_reached(c0.max_iterations, s0.steps.len() as int));
            if capped {
                let ch = WireChunk {
                    delta: ChunkDelta::Content("Maximum iterations reached.".to_owned()),
                    finish_reason: Some(FinishReason::Length),
                };
                self.phase = StreamPhase::Done;
                proof {
                    self.history@ = self.history@ + seq![ch@];
                }
                chunks.push(ch);
                let cmd = StreamCommand::Ended { memory_ops: ops };
                proof {
                    assert(wire_view(chunks@) =~~= advance_tr(c0, s0, fresh_id@).1);
                    assert(cmd@ =~~= advance_tr(c0, s0, fresh_id@).2);
                    assert(self.st() =~~= advance_tr(c0, s0, fresh_id@).0);
                }
                (chunks, cmd)
            } else {
                self.phase = StreamPhase::Planning;
                let cmd = StreamCommand::Continue { memory_ops: ops };
                proof {
                    assert(wire_view(chunks@) =~~= advance_tr(c0, s0, fresh_id@).1);
                    assert(cmd@ =~~= advance_tr(c0, s0, fresh_id@).2);
                    assert(self.st() =~~= advance_tr(c0, s0, fresh_id@).0);
                }
                (chunks, cmd)
            }
        }
    }

    /// The cycle's terminal action batch: becomes the pending work, and the
    /// first call is announced and commanded.
    pub fn on_batch(&mut self, batch: Vec<Action>, fresh_id: String) -> (r: (
        Vec<WireChunk>,
        StreamCommand,
    ))
        requires
            old(self).wf(),
            old(self).phase is InCycle,
        ensures
            final(self).wf(),
            final(self).cfg() == old(self).cfg(),
            (final(self).st(), wire_view(r.0@), r.1@) == advance_tr(
                old(self).cfg(),
                StreamStateM { pending: actions_view(batch@), ..old(self).st() },
                fresh_id@,
            ),
    {
        self.pending = batch;
        proof {
            assert(self.st() =~~= (StreamStateM {
                pending: actions_view(self.pending@),
                ..old(self).st()
            }));
        }
        self.advance_stream(fresh_id)
    }

    /// The commanded tool call's outcome: drives the stream as
    /// [`tool_result_tr`] says.
    pub fn on_tool_result(&mut self, r: Result<String, String>, fresh_id: String) -> (res: (
        Vec<WireChunk>,
        StreamCommand,
    ))
        requires
            old(self).wf(),
            old(self).phase is AwaitingTool,
        ensures
            final(self).wf(),
            final(self).cfg() == old(self).cfg(),
            (final(self).st(), wire_view(res.0@), res.1@) == tool_result_tr(
                old(self).cfg(),
                old(self).st(),
                crate::executor::obs_result_view(r),
                fresh_id@,
            ),
    {
        let ghost c0 = self.cfg();
        let ghost s0 = self.st();
        let is_err = r.is_err();
        if is_err && self.break_if_error {
            let m = match r {
                Err(m) => m,
                Ok(_) => String::new(),
            };
            let mut msg = String::new();
            msg.append("Tool error: ");
            msg.append(m.as_str());
            let ch = WireChunk {
                delta: ChunkDelta::Content(msg),
                finish_reason: Some(FinishReason::Stop),
            };
            self.phase = StreamPhase::Done;
            proof {
                self.history@ = self.history@ + seq![ch@];
            }
            let mut chunks: Vec<WireChunk> = Vec::new();
            chunks.push(ch);
            let cmd = StreamCommand::Ended { memory_ops: Vec::new() };
            proof {
                let tr = tool_result_tr(c0, s0, crate::executor::obs_result_view(r), fresh_id@);
                assert(wire_view(chunks@) =~~= tr.1);
                assert(ops_view(Seq::<MemoryOp>::empty()) =~= Seq::<MemoryOpM>::empty());
                assert(cmd@ =~~= tr.2);
                assert(self.st() =~~= tr.0);
            }
            (chunks, cmd)
        } else {
            let obs: String = match r {
                Ok(o) => o,
                Err(m) => {
                    let mut msg = String::new();
                    msg.append("Tool error: ");
                    msg.append(m.as_str());
                    msg
                },
            };
            let parsed: String = match canonicalize_json(obs.as_str()) {
                Some(t) => t,
                None => {
                    let mut q = String::new();
                    crate::json_text::push_json_string(&mut q, obs.as_str());
                    proof {
                        assert(q@ =~= json_quoted(obs@));
                    }
                    q
                },
            };
            let tool_name: String = match &self.current_name {
                Some(nm) => nm.clone(),
                None => {
                    proof {
                        assert(false);
                    }
                    String::new()
                },
            };
            let tool_call_id: String = match &self.current_id {
                Some(idv) => idv.clone(),
                None => {
                    proof {
                        assert(false);
                    }
                    String::new()
                },
            };
            let ch = WireChunk {
                delta: ChunkDelta::ToolResult {
                    parsed,
                    tool_name,
                    tool_call_id,
                },
                finish_reason: None,
            };
            let action0 = self.pending.remove(0);
            let step = Step { action: action0, observation: obs };
            let step2 = Step {
                action: step.action.clone_action(),
                observation: step.observation.clone(),
            };
            self.steps.push(step);
            self.cycle_steps.push(step2);
            proof {
                self.history@ = self.history@ + seq![ch@];
            }
            let ghost obs_v = crate::executor::obs_result_view(r);
            let ghost mid = (StreamStateM {
                steps: s0.steps.push(
                    StepM {
                        action: s0.pending[0],
                        observation: match obs_v {
                            Ok(o) => o,
                            Err(m) => "Tool error: "@ + m,
                        },
                    },
                ),
                cycle_steps: s0.cycle_steps.push(
                    StepM {
                        action: s0.pending[0],
                        observation: match obs_v {
                            Ok(o) => o,
                            Err(m) => "Tool error: "@ + m,
                        },
                    },
                ),
                pending: s0.pending.drop_first(),
                history: s0.history + seq![ch@],
                ..s0
            });
            proof {
                assert(self.st() =~~= mid);
            }
            let (rest_chunks, cmd) = self.advance_stream(fresh_id);
            let ghost rest_v = wire_view(rest_chunks@);
            let mut chunks: Vec<WireChunk> = Vec::new();
            chunks.push(ch);
            let mut rest = rest_chunks;
            chunks.append(&mut rest);
            proof {
                let tr = tool_result_tr(c0, s0, obs_v, fresh_id@);
                assert(wire_view(chunks@) =~~= seq![ch@] + rest_v);
                assert(wire_view(chunks@) =~~= tr.1);
                assert(self.st() =~~= tr.0);
                assert(cmd@ =~~= tr.2);
            }
            (chunks, cmd)
        }
    }

    /// The cycle's terminal finish: the turn is persisted — user input, the
    /// cycle's content, every recorded step, the output — and the stream
    /// ends with the empty terminal chunk.
    pub fn on_finish(&mut self, output: &str) -> (r: (WireChunk, Vec<MemoryOp>))
        requires
            old(self).wf(),
            old(self).phase is InCycle,
        ensures
            final(self).wf(),
            final(self).cfg() == old(self).cfg(),
            r.0@ == (WireChunkM {
                delta: ChunkDeltaM::Empty,
                finish_reason: Some(FinishReason::Stop),
            }),
            ops_view(r.1@) == stream_finish_ops(
                old(self).cfg().input,
                old(self).st().content,
                old(self).st().steps,
                output@,
            ),
            final(self).st() == (StreamStateM {
                phase: StreamPhase::Done,
                history: old(self).st().history + seq![r.0@],
                ..old(self).st()
            }),
    {
        let ghost s0 = self.st();
        let mut ops: Vec<MemoryOp> = Vec::new();
        ops.push(MemoryOp::AddUser(self.input.clone()));
        if self.content.unicode_len() > 0 {
            ops.push(MemoryOp::AddAi(self.content.clone()));
        }
        let ghost head = ops_view(ops@);
        let mut step_ops_v = compute_lenient_steps_ops(&self.steps);
        let ghost mid = ops_view(step_ops_v@);
        ops.append(&mut step_ops_v);
        ops.push(MemoryOp::AddAi(output.to_owned()));
        proof {
            assert(head =~= seq![MemoryOpM::AddUser(self.input@)] + (if s0.content.len() > 0 {
                seq![MemoryOpM::AddAi(s0.content)]
            } else {
                Seq::<MemoryOpM>::empty()
            }));
            assert(ops_view(ops@) =~= head + mid + seq![MemoryOpM::AddAi(output@)]);
            assert(ops_view(ops@) =~= stream_finish_ops(
                self.input@,
                s0.content,
                s0.steps,
                output@,
            ));
        }
        let ch = WireChunk { delta: ChunkDelta::Empty, finish_reason: Some(FinishReason::Stop) };
        self.phase = StreamPhase::Done;
        proof {
            self.history@ = self.history@ + seq![ch@];
            assert(self.st() =~~= (StreamStateM {
                phase: StreamPhase::Done,
                history: s0.history + seq![ch@],
                ..s0
            }));
        }
        (ch, ops)
    }
}

fn self_log(a: &Action) -> (r: &str)
    ensures
        r@ == a@.log,
{
    a.log.as_str()
}

/// Law: the stream protocol. Every stream opens with the assistant-role
/// chunk carrying null content and no finish reason; once the stream has
/// ended, its last chunk — and only its last — carries a non-null finish
/// reason.
pub proof fn lemma_stream_chunk_protocol(e: StreamEngine)
    requires
        e.wf(),
        e.phase is Done,
    ensures
        e.history@.len() >= 2,
        e.history@[0].delta is RoleAssistant,
        e.history@[0].finish_reason is None,
        e.history@.last().finish_reason is Some,
        forall|i: int|
            0 <= i < e.history@.len() - 1 ==> (#[trigger] e.history@[i]).finish_reason is None,
{
    assert(e.history@.last().finish_reason is Some);
    if e.history@.len() == 1 {
        assert(e.history@[0].finish_reason is None);
    }
}


/// The JSON text of a finish reason.
pub open spec fn finish_reason_json(f: Option<FinishReason>) -> Seq<char> {
    match f {
        None => "null"@,
        Some(FinishReason::Stop) => "\"stop\""@,
        Some(FinishReason::Length) => "\"length\""@,
    }
}

/// The JSON text of a chunk's delta payload.
pub open spec fn delta_json(d: ChunkDeltaM) -> Seq<char> {
    match d {
        ChunkDeltaM::RoleAssistant => "{\"role\":\"assistant\",\"content\":null}"@,
        ChunkDeltaM::Content(c) => "{\"content\":"@ + json_quoted(c) + "}"@,
        ChunkDeltaM::ToolCalls { id, conversation_id, name, arguments } => "{\"tool_calls\":[{\"id\":"@
            + json_quoted(id) + ",\"conversation_id\":"@ + json_quoted(conversation_id)
            + ",\"type\":\"function\",\"function\":{\"name\":"@ + json_quoted(name)
            + ",\"arguments\":"@ + json_quoted(arguments) + "}}]}"@,
        ChunkDeltaM::ToolResult { parsed, tool_name, tool_call_id } => "{\"content\":null,\"parsed\":"@
            + parsed + ",\"tool_name\":"@ + json_quoted(tool_name) + ",\"tool_call_id\":"@
            + json_quoted(tool_call_id) + "}"@,
        ChunkDeltaM::Empty => "{}"@,
    }
}

/// The JSON text of a whole wire chunk, envelope included.
pub open spec fn chunk_json(
    completion_id: Seq<char>,
    conversation_id: Seq<char>,
    model: Seq<char>,
    created: int,
    c: WireChunkM,
) -> Seq<char> {
    "{\"id\":"@ + json_quoted(completion_id) + ",\"conversation_id\":"@ + json_quoted(
        conversation_id,
    ) + ",\"object\":\"chat.completion.chunk\",\"created\":"@ + crate::text::dec_of_int(created)
        + ",\"model\":"@ + json_quoted(model) + ",\"choices\":[{\"index\":0,\"delta\":"@
        + delta_json(c.delta) + ",\"logprobs\":null,\"finish_reason\":"@ + finish_reason_json(
        c.finish_reason,
    ) + "}]}"@
}

fn push_delta_json(out: &mut String, d: &ChunkDelta)
    ensures
        final(out)@ == old(out)@ + delta_json(d@),
{
    match d {
        ChunkDelta::RoleAssistant => {
            out.append("{\"role\":\"assistant\",\"content\":null}");
        },
        ChunkDelta::Content(c) => {
            out.append("{\"content\":");
            crate::json_text::push_json_string(out, c.as_str());
            out.append("}");
            assert(out@ =~= old(out)@ + delta_json(d@));
        },
        ChunkDelta::ToolCalls { id, conversation_id, name, arguments } => {
            out.append("{\"tool_calls\":[{\"id\":");
            crate::json_text::push_json_string(out, id.as_str());
            out.append(",\"conversation_id\":");
            crate::json_text::push_json_string(out, conversation_id.as_str());
            out.append(",\"type\":\"function\",\"function\":{\"name\":");
            crate::json_text::push_json_string(out, name.as_str());
            out.append(",\"arguments\":");
            crate::json_text::push_json_string(out, arguments.as_str());
            out.append("}}]}");
            assert(out@ =~= old(out)@ + delta_json(d@));
        },
        ChunkDelta::ToolResult { parsed, tool_name, tool_call_id } => {
            out.append("{\"content\":null,\"parsed\":");
            out.append(parsed.as_str());
            out.append(",\"tool_name\":");
            crate::json_text::push_json_string(out, tool_name.as_str());
            out.append(",\"tool_call_id\":");
            crate::json_text::push_json_string(out, tool_call_id.as_str());
            out.append("}");
            assert(out@ =~= old(out)@ + delta_json(d@));
        },
        ChunkDelta::Empty => {
            out.append("{}");
        },
    }
}

/// Renders one wire chunk as its JSON text, envelope included.
pub fn render_chunk(ids: &StreamIds, c: &WireChunk) -> (r: String)
    ensures
        r@ == chunk_json(
            ids.completion_id@,
            ids.conversation_id@,
            ids.model@,
            ids.created as int,
            c@,
        ),
{
    let mut out = String::new();
    out.append("{\"id\":");
    crate::json_text::push_json_string(&mut out, ids.completion_id.as_str());
    out.append(",\"conversation_id\":");
    crate::json_text::push_json_string(&mut out, ids.conversation_id.as_str());
    out.append(",\"object\":\"chat.completion.chunk\",\"created\":");
    let created = crate::text::i64_to_dec(ids.created);
    out.append(created.as_str());
    out.append(",\"model\":");
    crate::json_text::push_json_string(&mut out, ids.model.as_str());
    out.append(",\"choices\":[{\"index\":0,\"delta\":");
    push_delta_json(&mut out, &c.delta);
    out.append(",\"logprobs\":null,\"finish_reason\":");
    match c.finish_reason {
        None => {
            out.append("null");
        },
        Some(FinishReason::Stop) => {
            out.append("\"stop\"");
        },
        Some(FinishReason::Length) => {
            out.append("\"length\"");
        },
    }
    out.append("}]}");
    proof {
        assert(out@ =~= chunk_json(
            ids.completion_id@,
            ids.conversation_id@,
            ids.model@,
            ids.created as int,
            c@,
        ));
    }
    out
}

} // verus!
