//! The scratchpad builder: renders the ordered step history into prompt
//! messages, collapsing identical tool-call payloads into one assistant
//! message and compacting all but the most recent steps into a single
//! summary message once the history grows long.

use vstd::prelude::*;

use crate::log_codec::spec_parse_log;
use crate::outside::{parse_tool_call_batch, parsed_tool_calls};
use crate::text::u64_to_dec;
use crate::types::{AgentError, ScratchpadMessage, ScratchpadMessageM, Step, StepM};

verus! {

/// The steps kept out of the summary and rendered in full.
pub const MAX_RECENT: usize = 5;

/// The history length above which older steps are summarized.
pub const SUMMARY_THRESHOLD: usize = 10;

/// The view of a step vector.
pub open spec fn steps_view(v: Seq<Step>) -> Seq<StepM> {
    v.map(|i: int, s: Step| s@)
}

/// The view of a message vector.
pub open spec fn msgs_view(v: Seq<ScratchpadMessage>) -> Seq<ScratchpadMessageM> {
    v.map(|i: int, m: ScratchpadMessage| m@)
}

/// The set of payloads already rendered, as views of the seen list.
pub open spec fn strs_set(v: Seq<String>) -> Set<Seq<char>> {
    Set::new(|t: Seq<char>| exists|i: int| 0 <= i < v.len() && v[i]@ == t)
}

/// What a step's log yields for rendering: the tool-call id and the batch
/// payload, provided the log parses and the payload is a tool-call batch.
pub open spec fn step_render(s: StepM) -> Option<(Seq<char>, Seq<char>)> {
    match spec_parse_log(s.action.log) {
        Some(p) => match parsed_tool_calls(p.1) {
            Some(_) => Some(p),
            None => None,
        },
        None => None,
    }
}

/// The batch payload of a step whose log renders.
pub open spec fn step_tools(s: StepM) -> Seq<char> {
    step_render(s)->Some_0.1
}

/// The messages one step contributes, given the payloads already rendered:
/// an assistant message carrying the batch unless the same payload was
/// already announced, then one tool-result message.
pub open spec fn step_messages(s: StepM, seen: Set<Seq<char>>) -> Option<Seq<ScratchpadMessageM>> {
    match step_render(s) {
        Some(p) => Some(
            (if seen.contains(p.1) {
                Seq::<ScratchpadMessageM>::empty()
            } else {
                seq![ScratchpadMessageM::AiToolCalls(p.1)]
            }) + seq![
                ScratchpadMessageM::ToolResult { content: s.observation, tool_call_id: p.0 },
            ],
        ),
        None => None,
    }
}

/// Renders a step list in order, threading the seen-payload set through;
/// `None` as soon as one step's log does not render.
pub open spec fn render_steps(steps: Seq<StepM>, seen: Set<Seq<char>>) -> Option<
    Seq<ScratchpadMessageM>,
>
    decreases steps.len(),
{
    if steps.len() == 0 {
        Some(Seq::empty())
    } else {
        match step_messages(steps[0], seen) {
            Some(ms) => match render_steps(steps.drop_first(), seen.insert(step_tools(steps[0]))) {
                Some(rest) => Some(ms + rest),
                None => None,
            },
            None => None,
        }
    }
}

/// The text of the summary message covering `n` compacted steps.
pub open spec fn summary_text(n: nat) -> Seq<char> {
    "Previous "@ + crate::text::dec_of(n)
        + " steps summary: [Summarized execution history with "@ + crate::text::dec_of(n)
        + " actions completed]"@
}

/// The full scratchpad for a step history: all steps rendered in order when
/// the history is short; one summary message covering all but the last
/// [`MAX_RECENT`] steps, then those steps rendered, once the history exceeds
/// [`SUMMARY_THRESHOLD`].
pub open spec fn scratchpad_messages(steps: Seq<StepM>) -> Option<Seq<ScratchpadMessageM>> {
    if steps.len() > SUMMARY_THRESHOLD as int {
        let old_n = steps.len() - MAX_RECENT as int;
        match render_steps(steps.skip(old_n), Set::empty()) {
            Some(ms) => Some(
                seq![ScratchpadMessageM::Summary(summary_text(old_n as nat))] + ms,
            ),
            None => None,
        }
    } else {
        render_steps(steps, Set::empty())
    }
}

/// Appending one string to the seen list inserts its view into the set.
pub proof fn lemma_strs_set_push(v: Seq<String>, s: String)
    ensures
        strs_set(v.push(s)) == strs_set(v).insert(s@),
{
    assert forall|t: Seq<char>| strs_set(v.push(s)).contains(t) implies strs_set(v).insert(
        s@,
    ).contains(t) by {
        let i = choose|i: int| 0 <= i < v.push(s).len() && v.push(s)[i]@ == t;
        if i < v.len() {
            assert(v[i]@ == t);
        }
    }
    assert forall|t: Seq<char>| strs_set(v).insert(s@).contains(t) implies strs_set(
        v.push(s),
    ).contains(t) by {
        if t == s@ {
            assert(v.push(s)[v.len() as int]@ == t);
        } else {
            let i = choose|i: int| 0 <= i < v.len() && v[i]@ == t;
            assert(v.push(s)[i]@ == t);
        }
    }
    assert(strs_set(v.push(s)) =~= strs_set(v).insert(s@));
}

/// Inserting a payload the set already holds leaves it unchanged.
proof fn lemma_strs_set_insert_seen(v: Seq<String>, t: Seq<char>)
    requires
        strs_set(v).contains(t),
    ensures
        strs_set(v).insert(t) == strs_set(v),
{
    assert(strs_set(v).insert(t) =~= strs_set(v));
}

fn seen_contains(seen: &Vec<String>, s: &str) -> (r: bool)
    ensures
        r == strs_set(seen@).contains(s@),
{
    let n: usize = seen.len();
    let mut i: usize = 0;
    while i < n
        invariant
            i <= n,
            n == seen@.len(),
            forall|j: int| 0 <= j < i ==> seen@[j]@ != s@,
        decreases n - i,
    {
        if crate::text::str_eq(seen[i].as_str(), s) {
            return true;
        }
        i += 1;
    }
    false
}

impl Step {
    /// Renders this step into `thoughts`: the assistant message carrying the
    /// step's batch payload unless an identical payload is in `seen`, then
    /// the tool-result message. An unrenderable log is a serialization
    /// error, and nothing is appended.
    pub fn append_to_conversation(
        &self,
        thoughts: &mut Vec<ScratchpadMessage>,
        seen: &mut Vec<String>,
    ) -> (r: Result<(), AgentError>)
        ensures
            match r {
                Ok(()) => {
                    &&& step_messages(self@, strs_set(old(seen)@)) matches Some(ms)
                        && msgs_view(final(thoughts)@) == msgs_view(old(thoughts)@) + ms
                    &&& strs_set(final(seen)@) == strs_set(old(seen)@).insert(step_tools(self@))
                },
                Err(e) => {
                    &&& step_messages(self@, strs_set(old(seen)@)) is None
                    &&& final(thoughts)@ == old(thoughts)@
                    &&& final(seen)@ == old(seen)@
                    &&& e matches AgentError::Serialization(_)
                },
            },
    {
        let parsed = match crate::log_codec::parse_log(self.action.log.as_str()) {
            Some(p) => p,
            None => {
                return Err(AgentError::Serialization(String::from_str(
                    "unparsable action log",
                )));
            },
        };
        let (tool_id, tools) = parsed;
        if parse_tool_call_batch(tools.as_str()).is_none() {
            return Err(AgentError::Serialization(String::from_str(
                "unparsable tool-call payload",
            )));
        }
        let ghost seen0 = strs_set(seen@);
        let ghost seen_pre = seen@;
        if !seen_contains(seen, tools.as_str()) {
            thoughts.push(ScratchpadMessage::AiToolCalls(tools.clone()));
            let pushed = tools.clone();
            proof {
                lemma_strs_set_push(seen@, pushed);
            }
            seen.push(pushed);
        } else {
            proof {
                lemma_strs_set_insert_seen(seen_pre, tools@);
            }
        }
        thoughts.push(ScratchpadMessage::ToolResult { content: self.observation.clone(), tool_call_id: tool_id });
        proof {
            let ms = step_messages(self@, seen0)->Some_0;
            assert(msgs_view(thoughts@) =~= msgs_view(old(thoughts)@) + ms);
        }
        Ok(())
    }
}

fn summary_message(count: u64) -> (r: ScratchpadMessage)
    ensures
        r@ == ScratchpadMessageM::Summary(summary_text(count as nat)),
{
    let mut t = String::new();
    t.append("Previous ");
    let d = u64_to_dec(count);
    t.append(d.as_str());
    t.append(" steps summary: [Summarized execution history with ");
    let d2 = u64_to_dec(count);
    t.append(d2.as_str());
    t.append(" actions completed]");
    proof {
        assert(t@ =~= summary_text(count as nat));
    }
    ScratchpadMessage::Summary(t)
}

/// Builds the scratchpad for the given step history; a step whose log does
/// not render is a fatal serialization error, never silently skipped.
pub fn construct_scratchpad(steps: &Vec<Step>) -> (r: Result<Vec<ScratchpadMessage>, AgentError>)
    ensures
        match r {
            Ok(msgs) => scratchpad_messages(steps_view(steps@)) == Some(msgs_view(msgs@)),
            Err(e) => scratchpad_messages(steps_view(steps@)) is None && (
            e matches AgentError::Serialization(_)),
        },
{
    let n: usize = steps.len();
    let start: usize = if n > SUMMARY_THRESHOLD {
        n - MAX_RECENT
    } else {
        0
    };
    let ghost window = steps_view(steps@).skip(start as int);

    let mut rendered: Vec<ScratchpadMessage> = Vec::new();
    let mut seen: Vec<String> = Vec::new();
    let mut i: usize = start;
    proof {
        assert(strs_set(seen@) =~= Set::<Seq<char>>::empty());
        assert(steps_view(steps@).skip(i as int) == window);
        assert(msgs_view(rendered@) =~= Seq::<ScratchpadMessageM>::empty());
    }
    while i < n
        invariant
            start <= i <= n,
            n == steps@.len(),
            start as int == (if n > SUMMARY_THRESHOLD {
                n - MAX_RECENT as int
            } else {
                0int
            }),
            window == steps_view(steps@).skip(start as int),
            render_steps(window, Set::empty()) == match render_steps(
                steps_view(steps@).skip(i as int),
                strs_set(seen@),
            ) {
                Some(rest) => Some(msgs_view(rendered@) + rest),
                None => None::<Seq<ScratchpadMessageM>>,
            },
        decreases n - i,
    {
        let ghost pre_msgs = msgs_view(rendered@);
        let ghost pre_seen = strs_set(seen@);
        let ghost remaining = steps_view(steps@).skip(i as int);
        let step = &steps[i];
        proof {
            assert(remaining[0] == step@);
            assert(remaining.drop_first() =~= steps_view(steps@).skip(i + 1 as int));
        }
        match step.append_to_conversation(&mut rendered, &mut seen) {
            Ok(()) => {
                proof {
                    let ms = step_messages(step@, pre_seen)->Some_0;
                    assert(render_steps(remaining, pre_seen) == match render_steps(
                        remaining.drop_first(),
                        pre_seen.insert(step_tools(step@)),
                    ) {
                        Some(rest) => Some(ms + rest),
                        None => None::<Seq<ScratchpadMessageM>>,
                    });
                    assert forall|rest: Seq<ScratchpadMessageM>|
                        true implies (pre_msgs + ms) + rest =~= pre_msgs + (ms + rest) by {}
                }
                i += 1;
            },
            Err(e) => {
                proof {
                    assert(render_steps(remaining, pre_seen) is None);
                    assert(render_steps(window, Set::empty()) is None);
                    assert(steps_view(steps@).len() == n as int);
                    if n > SUMMARY_THRESHOLD {
                        assert(start == n - MAX_RECENT);
                        assert(window == steps_view(steps@).skip(
                            steps_view(steps@).len() - MAX_RECENT as int,
                        ));
                        assert(scratchpad_messages(steps_view(steps@)) is None);
                    } else {
                        assert(steps_view(steps@).skip(0) =~= steps_view(steps@));
                        assert(render_steps(steps_view(steps@), Set::empty()) is None);
                        assert(scratchpad_messages(steps_view(steps@)) is None);
                    }
                }
                return Err(e);
            },
        }
    }
    proof {
        assert(steps_view(steps@).skip(n as int) =~= Seq::<StepM>::empty());
        assert(render_steps(steps_view(steps@).skip(n as int), strs_set(seen@)) == Some(
            Seq::<ScratchpadMessageM>::empty(),
        ));
        assert(msgs_view(rendered@) + Seq::<ScratchpadMessageM>::empty() =~= msgs_view(
            rendered@,
        ));
        assert(render_steps(window, Set::empty()) == Some(msgs_view(rendered@)));
    }

    if n > SUMMARY_THRESHOLD {
        let mut out: Vec<ScratchpadMessage> = Vec::new();
        out.push(summary_message((n - MAX_RECENT) as u64));
        let ghost summary_only = msgs_view(out@);
        out.append(&mut rendered);
        proof {
            assert(summary_only =~= seq![
                ScratchpadMessageM::Summary(summary_text((n - MAX_RECENT) as nat)),
            ]);
            assert(msgs_view(out@) =~= summary_only + render_steps(
                window,
                Set::empty(),
            )->Some_0);
        }
        Ok(out)
    } else {
        proof {
            assert(steps_view(steps@).skip(0) =~= steps_view(steps@));
        }
        Ok(rendered)
    }
}

/// Law: a history of at most [`SUMMARY_THRESHOLD`] steps whose logs render
/// and whose batch payloads are pairwise distinct yields exactly one
/// assistant/tool-result message pair per step, in step order, with no
/// summary message.
pub proof fn lemma_scratchpad_no_summary(steps: Seq<StepM>)
    requires
        steps.len() <= SUMMARY_THRESHOLD as int,
        forall|i: int| 0 <= i < steps.len() ==> (#[trigger] step_render(steps[i])) is Some,
        forall|i: int, j: int|
            0 <= i < j < steps.len() ==> step_tools(steps[i]) != step_tools(steps[j]),
    ensures
        scratchpad_messages(steps) matches Some(ms) && ms.len() == 2 * steps.len() && (forall|
            i: int,
        | 0 <= i < steps.len() ==> #[trigger] pair_ok(steps, ms, i)),
{
    lemma_render_steps_distinct(steps, Set::empty());
}

/// Law: a history of more than [`SUMMARY_THRESHOLD`] steps, the last
/// [`MAX_RECENT`] of which render with pairwise distinct payloads, yields
/// exactly one summary message covering the older steps followed by exactly
/// one message pair per recent step.
pub proof fn lemma_scratchpad_summary(steps: Seq<StepM>)
    requires
        steps.len() > SUMMARY_THRESHOLD as int,
        forall|i: int|
            steps.len() - MAX_RECENT as int <= i < steps.len() ==> (#[trigger] step_render(
                steps[i],
            )) is Some,
        forall|i: int, j: int|
            steps.len() - MAX_RECENT as int <= i < j < steps.len() ==> step_tools(steps[i])
                != step_tools(steps[j]),
    ensures
        scratchpad_messages(steps) matches Some(ms) && ms.len() == 1 + 2 * MAX_RECENT as int
            && ms[0] == ScratchpadMessageM::Summary(
            summary_text((steps.len() - MAX_RECENT as int) as nat),
        ) && (forall|i: int|
            0 <= i < MAX_RECENT as int ==> #[trigger] summary_pair_ok(
                steps.skip(steps.len() - MAX_RECENT as int),
                ms,
                i,
            )),
{
    let old_n = steps.len() - MAX_RECENT as int;
    let recent = steps.skip(old_n);
    assert(recent.len() == MAX_RECENT as int);
    assert forall|i: int| 0 <= i < recent.len() implies (#[trigger] step_render(
        recent[i],
    )) is Some by {
        assert(recent[i] == steps[old_n + i]);
    }
    assert forall|i: int, j: int| 0 <= i < j < recent.len() implies step_tools(recent[i])
        != step_tools(recent[j]) by {
        assert(recent[i] == steps[old_n + i]);
        assert(recent[j] == steps[old_n + j]);
    }
    lemma_render_steps_distinct(recent, Set::empty());
    let ms5 = render_steps(recent, Set::empty())->Some_0;
    let ms = scratchpad_messages(steps)->Some_0;
    assert(ms == seq![ScratchpadMessageM::Summary(summary_text(old_n as nat))] + ms5);
    assert forall|i: int| 0 <= i < MAX_RECENT as int implies #[trigger] summary_pair_ok(
        recent,
        ms,
        i,
    ) by {
        assert(pair_ok(recent, ms5, i));
        assert(ms[2 * i + 1] == ms5[2 * i]);
        assert(ms[2 * i + 2] == ms5[2 * i + 1]);
    }
}

/// The message pair of step `i` stands at positions `2 i` and `2 i + 1`: the
/// assistant message carrying the step's batch payload, then the tool-result
/// message carrying its observation and tool-call id.
pub open spec fn pair_ok(steps: Seq<StepM>, ms: Seq<ScratchpadMessageM>, i: int) -> bool {
    ms[2 * i] == ScratchpadMessageM::AiToolCalls(step_tools(steps[i])) && ms[2 * i + 1] == (
    ScratchpadMessageM::ToolResult {
        content: steps[i].observation,
        tool_call_id: step_render(steps[i])->Some_0.0,
    })
}

/// The message pair of recent step `i` stands at positions `2 i + 1` and
/// `2 i + 2`, after the summary message.
pub open spec fn summary_pair_ok(recent: Seq<StepM>, ms: Seq<ScratchpadMessageM>, i: int) -> bool {
    ms[2 * i + 1] == ScratchpadMessageM::AiToolCalls(step_tools(recent[i])) && ms[2 * i + 2] == (
    ScratchpadMessageM::ToolResult {
        content: recent[i].observation,
        tool_call_id: step_render(recent[i])->Some_0.0,
    })
}

/// Rendering with pairwise-distinct renderable payloads, none already seen,
/// yields exactly one message pair per step, in order.
proof fn lemma_render_steps_distinct(steps: Seq<StepM>, seen: Set<Seq<char>>)
    requires
        forall|i: int| 0 <= i < steps.len() ==> (#[trigger] step_render(steps[i])) is Some,
        forall|i: int| 0 <= i < steps.len() ==> !seen.contains(#[trigger] step_tools(steps[i])),
        forall|i: int, j: int|
            0 <= i < j < steps.len() ==> step_tools(steps[i]) != step_tools(steps[j]),
    ensures
        render_steps(steps, seen) matches Some(ms) && ms.len() == 2 * steps.len() && (forall|
            i: int,
        | 0 <= i < steps.len() ==> #[trigger] pair_ok(steps, ms, i)),
    decreases steps.len(),
{
    if steps.len() == 0 {
    } else {
        let head = steps[0];
        let rest = steps.drop_first();
        let seen2 = seen.insert(step_tools(head));
        assert forall|i: int| 0 <= i < rest.len() implies (#[trigger] step_render(
            rest[i],
        )) is Some by {
            assert(rest[i] == steps[i + 1]);
        }
        assert forall|i: int| 0 <= i < rest.len() implies !seen2.contains(#[trigger] step_tools(
            rest[i],
        )) by {
            assert(rest[i] == steps[i + 1]);
            assert(step_tools(steps[i + 1]) != step_tools(steps[0]));
        }
        assert forall|i: int, j: int| 0 <= i < j < rest.len() implies step_tools(rest[i])
            != step_tools(rest[j]) by {
            assert(rest[i] == steps[i + 1]);
            assert(rest[j] == steps[j + 1]);
        }
        lemma_render_steps_distinct(rest, seen2);
        let ms_head = step_messages(head, seen)->Some_0;
        assert(!seen.contains(step_tools(head)));
        assert(ms_head =~= seq![
            ScratchpadMessageM::AiToolCalls(step_tools(head)),
            ScratchpadMessageM::ToolResult {
                content: head.observation,
                tool_call_id: step_render(head)->Some_0.0,
            },
        ]);
        let ms_rest = render_steps(rest, seen2)->Some_0;
        let ms = render_steps(steps, seen)->Some_0;
        assert(ms == ms_head + ms_rest);
        assert forall|i: int| 0 <= i < steps.len() implies #[trigger] pair_ok(
            steps,
            ms,
            i,
        ) by {
            if i == 0 {
            } else {
                assert(pair_ok(rest, ms_rest, i - 1));
                assert(ms[2 * i] == ms_rest[2 * (i - 1)]);
                assert(ms[2 * i + 1] == ms_rest[2 * (i - 1) + 1]);
                assert(rest[i - 1] == steps[i]);
            }
        }
    }
}

} // verus!
