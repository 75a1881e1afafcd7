//! Planner-side logic: folding streamed model chunks into cycle state and
//! events, deciding the terminal event from a finish reason, and turning a
//! complete model generation into the cycle's decision.

use vstd::prelude::*;

use crate::accumulator::{action_chunk, opt_or_empty, opt_view, ToolCallAccumulator,
    ToolCallFragment};
use crate::log_codec::log_json;
use crate::outside::{parse_tool_call_batch, parsed_tool_calls, ToolCallParsedM};
use crate::types::{Action, ActionM, AgentEvent, AgentEventChunk, AgentEventChunkM, AgentEventM,
    DeltaEvent, DeltaEventM};

verus! {

/// Mathematical view of a [`ToolCallFragment`].
#[verifier::ext_equal]
pub struct FragM {
    pub id: Option<Seq<char>>,
    pub name: Option<Seq<char>>,
    pub arguments: Option<Seq<char>>,
}

impl View for ToolCallFragment {
    type V = FragM;

    open spec fn view(&self) -> FragM {
        FragM {
            id: opt_view(self.id),
            name: opt_view(self.name),
            arguments: opt_view(self.arguments),
        }
    }
}

/// One parsed delta of a streamed model chunk: a text fragment, a tool-call
/// fragment, or nothing of either.
pub enum ModelDelta {
    Content(String),
    ToolCalls(ToolCallFragment),
    Empty,
}

/// Mathematical view of a [`ModelDelta`].
#[verifier::ext_equal]
pub enum ModelDeltaM {
    Content(Seq<char>),
    ToolCalls(FragM),
    Empty,
}

impl View for ModelDelta {
    type V = ModelDeltaM;

    open spec fn view(&self) -> ModelDeltaM {
        match self {
            ModelDelta::Content(c) => ModelDeltaM::Content(c@),
            ModelDelta::ToolCalls(f) => ModelDeltaM::ToolCalls(f@),
            ModelDelta::Empty => ModelDeltaM::Empty,
        }
    }
}

/// One streamed model chunk, already parsed at the boundary into a closed
/// shape: the delta and the finish reason, when one arrived.
pub struct ModelChunk {
    pub delta: ModelDelta,
    pub finish_reason: Option<String>,
}

/// The cycle-local planning state: the accumulated text output, the delta
/// accumulator's fields, and whether any tool-call delta arrived.
#[verifier::ext_equal]
pub struct PlanCycleM {
    pub output: Seq<char>,
    pub acc_name: Option<Seq<char>>,
    pub acc_args: Seq<char>,
    pub acc_id: Option<Seq<char>>,
    pub has_tool_calls: bool,
}

/// The view of the mutable cycle state carried by the exec planner.
pub open spec fn cycle_view(
    output: Seq<char>,
    acc: ToolCallAccumulator,
    has_tool_calls: bool,
) -> PlanCycleM {
    PlanCycleM {
        output: output,
        acc_name: opt_view(acc.name),
        acc_args: acc.args@,
        acc_id: opt_view(acc.id),
        has_tool_calls: has_tool_calls,
    }
}

/// The view of an event list.
pub open spec fn chunks_view(v: Seq<AgentEventChunk>) -> Seq<AgentEventChunkM> {
    v.map(|i: int, c: AgentEventChunk| c@)
}

/// How one tool-call fragment changes the cycle state: the name is updated
/// when present, the arguments are appended, the id is kept from its first
/// non-empty sighting, and tool calls are marked seen.
pub open spec fn frag_step(s: PlanCycleM, f: FragM) -> PlanCycleM {
    PlanCycleM {
        output: s.output,
        acc_name: if f.name is Some {
            f.name
        } else {
            s.acc_name
        },
        acc_args: s.acc_args + opt_or_empty(f.arguments),
        acc_id: if s.acc_id is None && (f.id matches Some(i) && i.len() > 0) {
            f.id
        } else {
            s.acc_id
        },
        has_tool_calls: true,
    }
}

/// Whether a finish reason drains the accumulator into an action batch:
/// `tool_calls` always does, `stop` does when tool-call deltas were seen,
/// anything else finishes with the accumulated text.
pub open spec fn finish_takes(reason: Seq<char>, has_tool_calls: bool) -> bool {
    reason == "tool_calls"@ || (reason == "stop"@ && has_tool_calls)
}

/// The terminal event decided by a finish reason, and the state after it:
/// either a one-action batch drained from the accumulator, or a finish
/// carrying the accumulated text.
pub open spec fn finish_event(s: PlanCycleM, reason: Seq<char>) -> (PlanCycleM, AgentEventM) {
    if finish_takes(reason, s.has_tool_calls) {
        (
            PlanCycleM {
                output: s.output,
                acc_name: s.acc_name,
                acc_args: Seq::empty(),
                acc_id: s.acc_id,
                has_tool_calls: s.has_tool_calls,
            },
            AgentEventM::Action(seq![action_chunk(s.acc_id, s.acc_name, s.acc_args)]),
        )
    } else {
        (s, AgentEventM::Finish(s.output))
    }
}

/// How one whole model chunk changes the cycle state and which events it
/// emits: a non-empty content delta is forwarded and accumulated, a
/// tool-call delta is folded into the accumulator and forwarded as a partial
/// action, and a finish reason appends the cycle's terminal event.
pub open spec fn chunk_step(s: PlanCycleM, delta: ModelDeltaM, finish: Option<Seq<char>>) -> (
    PlanCycleM,
    Seq<AgentEventChunkM>,
) {
    let (s1, evs1): (PlanCycleM, Seq<AgentEventChunkM>) = match delta {
        ModelDeltaM::Content(c) => if c.len() > 0 {
            (
                PlanCycleM {
                    output: s.output + c,
                    acc_name: s.acc_name,
                    acc_args: s.acc_args,
                    acc_id: s.acc_id,
                    has_tool_calls: s.has_tool_calls,
                },
                seq![AgentEventChunkM::Delta(DeltaEventM::Content(c))],
            )
        } else {
            (s, Seq::empty())
        },
        ModelDeltaM::ToolCalls(f) => {
            let s2 = frag_step(s, f);
            (
                s2,
                seq![
                    AgentEventChunkM::Delta(
                        DeltaEventM::Action(
                            action_chunk(s2.acc_id, s2.acc_name, opt_or_empty(f.arguments)),
                        ),
                    ),
                ],
            )
        },
        ModelDeltaM::Empty => (s, Seq::empty()),
    };
    match finish {
        Some(reason) => {
            let (s3, ev) = finish_event(s1, reason);
            (s3, evs1 + seq![AgentEventChunkM::Final(ev)])
        },
        None => (s1, evs1),
    }
}

/// Decides the terminal event for a finish reason and drains the accumulator
/// when an action batch is due.
pub fn handle_finish_reason(
    finish_reason: &str,
    acc: &mut ToolCallAccumulator,
    has_tool_calls: bool,
    model_output: &str,
) -> (r: AgentEvent)
    ensures
        ({
            let s0 = cycle_view(model_output@, *old(acc), has_tool_calls);
            let (s1, ev) = finish_event(s0, finish_reason@);
            cycle_view(model_output@, *final(acc), has_tool_calls) == s1 && r@ == ev
        }),
{
    let takes = crate::text::str_eq(finish_reason, "tool_calls") || (crate::text::str_eq(
        finish_reason,
        "stop",
    ) && has_tool_calls);
    if takes {
        let action = acc.take_action();
        let mut batch: Vec<Action> = Vec::new();
        batch.push(action);
        let r = AgentEvent::Action(batch);
        proof {
            let s0 = cycle_view(model_output@, *old(acc), has_tool_calls);
            assert(r@ matches AgentEventM::Action(b) && b =~= seq![action_chunk(
                s0.acc_id,
                s0.acc_name,
                s0.acc_args,
            )]);
        }
        r
    } else {
        AgentEvent::Finish(model_output.to_owned())
    }
}

/// Folds one streamed model chunk into the cycle state and returns the
/// events it gives rise to, the terminal event last.
pub fn process_chunk(
    chunk: ModelChunk,
    model_output: &mut String,
    acc: &mut ToolCallAccumulator,
    has_tool_calls: &mut bool,
) -> (events: Vec<AgentEventChunk>)
    ensures
        ({
            let s0 = cycle_view(old(model_output)@, *old(acc), *old(has_tool_calls));
            let (s1, evs) = chunk_step(s0, chunk.delta@, opt_view(chunk.finish_reason));
            cycle_view(final(model_output)@, *final(acc), *final(has_tool_calls)) == s1
                && chunks_view(events@) == evs
        }),
{
    let ghost s0 = cycle_view(model_output@, *acc, *has_tool_calls);
    let mut events: Vec<AgentEventChunk> = Vec::new();

    match chunk.delta {
        ModelDelta::Content(c) => {
            if c.unicode_len() > 0 {
                model_output.append(c.as_str());
                events.push(AgentEventChunk::Delta(DeltaEvent::Content(c)));
            }
        },
        ModelDelta::ToolCalls(f) => {
            *has_tool_calls = true;
            let partial = acc.accumulate(&f);
            events.push(AgentEventChunk::Delta(DeltaEvent::Action(partial)));
        },
        ModelDelta::Empty => {},
    }
    proof {
        let (s1, evs1) = chunk_step(s0, chunk.delta@, None);
        assert(cycle_view(model_output@, *acc, *has_tool_calls) == s1);
        assert(chunks_view(events@) =~~= evs1);
    }

    if let Some(reason) = &chunk.finish_reason {
        let ghost pre = chunks_view(events@);
        let ev = handle_finish_reason(reason.as_str(), acc, *has_tool_calls, model_output.as_str());
        events.push(AgentEventChunk::Final(ev));
        proof {
            let (s1, evs1) = chunk_step(s0, chunk.delta@, None);
            let (s3, evf) = finish_event(s1, reason@);
            assert(chunks_view(events@) =~~= pre + seq![AgentEventChunkM::Final(evf)]);
        }
    }
    events
}

/// The end-of-stream decision when the model stream closes without a finish
/// reason: drain the accumulator into an action batch if tool-call deltas
/// were seen, else finish with the accumulated text.
pub fn finalize_plan_stream(
    acc: &mut ToolCallAccumulator,
    has_tool_calls: bool,
    model_output: String,
) -> (r: AgentEventChunk)
    ensures
        has_tool_calls ==> final(acc).args@ == Seq::<char>::empty() && final(acc).name == old(
            acc,
        ).name && final(acc).id == old(acc).id && r@ == AgentEventChunkM::Final(
            AgentEventM::Action(
                seq![
                    action_chunk(opt_view(old(acc).id), opt_view(old(acc).name), old(acc).args@),
                ],
            ),
        ),
        !has_tool_calls ==> *final(acc) == *old(acc) && r@ == AgentEventChunkM::Final(
            AgentEventM::Finish(model_output@),
        ),
{
    if has_tool_calls {
        let action = acc.take_action();
        let mut batch: Vec<Action> = Vec::new();
        batch.push(action);
        let r = AgentEventChunk::Final(AgentEvent::Action(batch));
        proof {
            assert(r@ matches AgentEventChunkM::Final(AgentEventM::Action(b)) && b =~= seq![
                action_chunk(opt_view(old(acc).id), opt_view(old(acc).name), old(acc).args@),
            ]);
        }
        r
    } else {
        AgentEventChunk::Final(AgentEvent::Finish(model_output))
    }
}

/// The planner's decision for a complete model generation: an action per
/// parsed tool call, each log carrying the call's id and the raw generation,
/// or a finish carrying the generation verbatim when it is no batch.
pub open spec fn plan_event(output: Seq<char>) -> AgentEventM {
    match parsed_tool_calls(output) {
        Some(calls) => AgentEventM::Action(
            calls.map(
                |i: int, c: ToolCallParsedM| ActionM { tool: c.1, tool_input: c.2, log: log_json(c.0, output) },
            ),
        ),
        None => AgentEventM::Finish(output),
    }
}

/// Decides the cycle's terminal event from a complete model generation.
pub fn plan_decision(output: &str) -> (r: AgentEvent)
    ensures
        r@ == plan_event(output@),
{
    match parse_tool_call_batch(output) {
        Some(calls) => {
            let ghost calls_m = calls@.map(|i: int, t: crate::outside::ToolCallParsed| t@);
            let n: usize = calls.len();
            let mut actions: Vec<Action> = Vec::new();
            let mut i: usize = 0;
            while i < n
                invariant
                    i <= n,
                    n == calls@.len(),
                    calls_m == calls@.map(|i: int, t: crate::outside::ToolCallParsed| t@),
                    actions@.len() == i as int,
                    forall|j: int|
                        0 <= j < i ==> (#[trigger] actions@[j])@ == (ActionM {
                            tool: calls_m[j].1,
                            tool_input: calls_m[j].2,
                            log: log_json(calls_m[j].0, output@),
                        }),
                decreases n - i,
            {
                let call = &calls[i];
                proof {
                    assert(calls_m[i as int] == calls@[i as int]@);
                }
                let log = crate::log_codec::encode_log(call.id.as_str(), output);
                actions.push(
                    Action { tool: call.name.clone(), tool_input: call.arguments.clone(), log },
                );
                i += 1;
            }
            let r = AgentEvent::Action(actions);
            proof {
                let f = |j: int, c: ToolCallParsedM| ActionM {
                    tool: c.1,
                    tool_input: c.2,
                    log: log_json(c.0, output@),
                };
                let lhs = r@->Action_0;
                let rhs = calls_m.map(f);
                assert forall|k: int| 0 <= k < n implies lhs[k] == rhs[k] by {
                    assert(lhs[k] == actions@[k]@);
                    assert(rhs[k] == f(k, calls_m[k]));
                }
                assert(lhs =~= rhs);
            }
            r
        },
        None => AgentEvent::Finish(output.to_owned()),
    }
}

} // verus!
