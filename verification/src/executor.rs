//! The synchronous execution loop, as a verified state machine: the caller
//! performs planning and tool calls (the outside work) and hands each result
//! back; the engine decides every step, keeps the step history, applies the
//! error policy and the iteration cap, and computes the memory writes that
//! persist a finished turn.

use vstd::prelude::*;

use crate::log_codec::spec_parse_log;
use crate::outside::{canonicalize_json, json_canon_of};
use crate::scratchpad::strs_set;
use crate::types::{Action, ActionM, AgentError, AgentErrorM, AgentEvent, AgentEventM, MemoryOp,
    MemoryOpM, Step, StepM};

verus! {

/// Whitespace stripped from the ends of a tool name.
pub open spec fn is_name_ws(c: char) -> bool {
    c == ' ' || c == '\t' || c == '\n' || c == '\r'
}

pub open spec fn trim_front(s: Seq<char>) -> Seq<char>
    decreases s.len(),
{
    if s.len() > 0 && is_name_ws(s[0]) {
        trim_front(s.drop_first())
    } else {
        s
    }
}

pub open spec fn trim_back(s: Seq<char>) -> Seq<char>
    decreases s.len(),
{
    if s.len() > 0 && is_name_ws(s.last()) {
        trim_back(s.drop_last())
    } else {
        s
    }
}

/// A tool name in canonical form: trimmed, interior spaces replaced with
/// underscores. Registered and planner-emitted names are normalized
/// identically before lookup.
pub open spec fn normalize_spec(s: Seq<char>) -> Seq<char> {
    trim_back(trim_front(s)).map(
        |i: int, c: char|
            if c == ' ' {
                '_'
            } else {
                c
            },
    )
}

proof fn lemma_trim_front_skip(s: Seq<char>, k: int)
    requires
        0 <= k <= s.len(),
        forall|j: int| 0 <= j < k ==> is_name_ws(s[j]),
        k < s.len() ==> !is_name_ws(s[k]),
    ensures
        trim_front(s) == s.skip(k),
    decreases k,
{
    if k == 0 {
        assert(s.skip(0) =~= s);
        if s.len() > 0 {
            assert(!is_name_ws(s[0]));
        }
    } else {
        assert(is_name_ws(s[0]));
        let t = s.drop_first();
        lemma_trim_front_skip(t, k - 1);
        assert(t.skip(k - 1) =~= s.skip(k));
    }
}

proof fn lemma_trim_back_take(s: Seq<char>, k: int)
    requires
        0 <= k <= s.len(),
        forall|j: int| k <= j < s.len() ==> is_name_ws(s[j]),
        k > 0 ==> !is_name_ws(s[k - 1]),
    ensures
        trim_back(s) == s.take(k),
    decreases s.len() - k,
{
    if k == s.len() {
        assert(s.take(k) =~= s);
        if s.len() > 0 {
            assert(!is_name_ws(s.last()));
        }
    } else {
        assert(is_name_ws(s.last()));
        let t = s.drop_last();
        lemma_trim_back_take(t, k);
        assert(t.take(k) =~= s.take(k));
    }
}

fn is_name_ws_exec(c: char) -> (r: bool)
    ensures
        r == is_name_ws(c),
{
    c == ' ' || c == '\t' || c == '\n' || c == '\r'
}

/// Normalizes a tool name: trims surrounding whitespace and replaces the
/// remaining spaces with underscores.
pub fn normalize_tool_name(s: &str) -> (r: String)
    ensures
        r@ == normalize_spec(s@),
{
    let cs = crate::text::str_chars(s);
    let n: usize = cs.len();
    let mut start: usize = 0;
    while start < n && is_name_ws_exec(cs[start])
        invariant
            start <= n,
            n == cs@.len(),
            cs@ == s@,
            forall|j: int| 0 <= j < start ==> is_name_ws(s@[j]),
        decreases n - start,
    {
        start += 1;
    }
    proof {
        lemma_trim_front_skip(s@, start as int);
    }
    let mut end: usize = n;
    while end > start && is_name_ws_exec(cs[end - 1])
        invariant
            start <= end <= n,
            n == cs@.len(),
            cs@ == s@,
            forall|j: int| end <= j < n ==> is_name_ws(s@[j]),
        decreases end,
    {
        end -= 1;
    }
    let ghost trimmed = s@.skip(start as int);
    proof {
        assert forall|j: int| end - start <= j < trimmed.len() implies is_name_ws(
            #[trigger] trimmed[j],
        ) by {
            assert(trimmed[j] == s@[start + j]);
        }
        if end > start {
            assert(trimmed[end - start - 1] == s@[end - 1]);
        }
        lemma_trim_back_take(trimmed, end - start);
    }
    let ghost core = trim_back(trim_front(s@));
    let mut out: Vec<char> = Vec::new();
    let mut i: usize = start;
    while i < end
        invariant
            start <= i <= end <= n,
            n == cs@.len(),
            cs@ == s@,
            core == trim_back(trim_front(s@)),
            core =~= s@.skip(start as int).take(end - start),
            out@ =~= core.take(i - start).map(
                |k: int, c: char|
                    if c == ' ' {
                        '_'
                    } else {
                        c
                    },
            ),
        decreases end - i,
    {
        let c = cs[i];
        proof {
            assert(core[i - start] == s@[i as int]);
        }
        if c == ' ' {
            out.push('_');
        } else {
            out.push(c);
        }
        proof {
            assert(core.take(i + 1 - start) =~= core.take(i - start).push(core[i - start]));
            assert(out@ =~= core.take(i + 1 - start).map(
                |k: int, c: char|
                    if c == ' ' {
                        '_'
                    } else {
                        c
                    },
            ));
        }
        i += 1;
    }
    proof {
        assert(core.take(end - start) =~= core);
    }
    crate::text::chars_to_string(&out)
}

/// The registered tools, by their raw names; the index of a name is the
/// handle the caller invokes the tool by.
pub struct ToolTable {
    pub names: Vec<String>,
}

/// The last registered tool whose normalized name equals the normalized
/// query, as in a name table built by inserting each tool in registration
/// order.
pub open spec fn resolve_spec(names: Seq<Seq<char>>, q: Seq<char>) -> Option<int>
    decreases names.len(),
{
    if names.len() == 0 {
        None
    } else if normalize_spec(names.last()) == normalize_spec(q) {
        Some(names.len() - 1)
    } else {
        resolve_spec(names.drop_last(), q)
    }
}

/// A resolved tool index lies within the table.
pub proof fn lemma_resolve_range(names: Seq<Seq<char>>, q: Seq<char>)
    ensures
        resolve_spec(names, q) matches Some(i) ==> 0 <= i < names.len(),
    decreases names.len(),
{
    if names.len() > 0 && normalize_spec(names.last()) != normalize_spec(q) {
        lemma_resolve_range(names.drop_last(), q);
    }
}

/// The views of the registered names.
pub open spec fn names_view(v: Seq<String>) -> Seq<Seq<char>> {
    v.map(|i: int, s: String| s@)
}

impl ToolTable {
    /// A table over the given raw tool names.
    pub fn new(names: Vec<String>) -> (r: Self)
        ensures
            r.names@ == names@,
    {
        ToolTable { names }
    }

    /// Resolves a planner-emitted tool name by exact normalized-name match;
    /// of several tools registered under one normalized name, the last
    /// registered wins.
    pub fn resolve(&self, name: &str) -> (r: Option<usize>)
        ensures
            match r {
                Some(i) => resolve_spec(names_view(self.names@), name@) == Some(i as int),
                None => resolve_spec(names_view(self.names@), name@) is None,
            },
    {
        let q = normalize_tool_name(name);
        let n: usize = self.names.len();
        let mut i: usize = n;
        proof {
            assert(names_view(self.names@).take(n as int) =~= names_view(self.names@));
        }
        while i > 0
            invariant
                i <= n,
                n == self.names@.len(),
                q@ == normalize_spec(name@),
                resolve_spec(names_view(self.names@), name@) == resolve_spec(
                    names_view(self.names@).take(i as int),
                    name@,
                ),
            decreases i,
        {
            let cand = normalize_tool_name(self.names[i - 1].as_str());
            let ghost pre = names_view(self.names@).take(i as int);
            proof {
                assert(pre.last() == self.names@[i - 1]@);
                assert(pre.drop_last() =~= names_view(self.names@).take(i - 1));
            }
            if crate::text::str_eq(cand.as_str(), q.as_str()) {
                return Some(i - 1);
            }
            i -= 1;
        }
        proof {
            assert(names_view(self.names@).take(0) =~= Seq::<Seq<char>>::empty());
        }
        None
    }
}

/// The memory writes one step contributes when a turn is persisted: the
/// assistant message announcing its batch payload, unless an identical
/// payload was already announced, then the tool-result message. `None` when
/// the log does not parse or the payload is not valid JSON.
pub open spec fn step_ops(s: StepM, seen: Set<Seq<char>>) -> Option<Seq<MemoryOpM>> {
    match spec_parse_log(s.action.log) {
        Some(p) => if json_canon_of(p.1) is Some {
            Some(
                (if seen.contains(p.1) {
                    Seq::<MemoryOpM>::empty()
                } else {
                    seq![MemoryOpM::AddAiWithToolCalls(p.1)]
                }) + seq![
                    MemoryOpM::AddTool { content: s.observation, tool_call_id: p.0 },
                ],
            )
        } else {
            None
        },
        None => None,
    }
}

/// The batch payload a step announces, when its log parses.
pub open spec fn step_payload(s: StepM) -> Seq<char> {
    spec_parse_log(s.action.log)->Some_0.1
}

/// The memory writes of a step list, in order, deduplicating identical batch
/// payloads; `None` as soon as one step cannot be persisted.
pub open spec fn steps_ops(steps: Seq<StepM>, seen: Set<Seq<char>>) -> Option<Seq<MemoryOpM>>
    decreases steps.len(),
{
    if steps.len() == 0 {
        Some(Seq::empty())
    } else {
        match step_ops(steps[0], seen) {
            Some(ops) => match steps_ops(steps.drop_first(), seen.insert(step_payload(steps[0]))) {
                Some(rest) => Some(ops + rest),
                None => None,
            },
            None => None,
        }
    }
}

/// The view of a memory-op vector.
pub open spec fn ops_view(v: Seq<MemoryOp>) -> Seq<MemoryOpM> {
    v.map(|i: int, m: MemoryOp| m@)
}

/// The view of a step vector.
pub open spec fn steps_seq_view(v: Seq<Step>) -> Seq<StepM> {
    v.map(|i: int, s: Step| s@)
}

/// Computes the memory writes of a step list, deduplicating identical batch
/// payloads; `None` as soon as one step cannot be persisted.
pub fn compute_steps_ops(steps: &Vec<Step>) -> (r: Option<Vec<MemoryOp>>)
    ensures
        match r {
            Some(ops) => steps_ops(steps_seq_view(steps@), Set::empty()) == Some(ops_view(ops@)),
            None => steps_ops(steps_seq_view(steps@), Set::empty()) is None,
        },
{
    let n: usize = steps.len();
    let mut ops: Vec<MemoryOp> = Vec::new();
    let mut seen: Vec<String> = Vec::new();
    let mut i: usize = 0;
    proof {
        assert(strs_set(seen@) =~= Set::<Seq<char>>::empty());
        assert(steps_seq_view(steps@).skip(0) =~= steps_seq_view(steps@));
        assert(ops_view(ops@) =~= Seq::<MemoryOpM>::empty());
    }
    while i < n
        invariant
            i <= n,
            n == steps@.len(),
            steps_ops(steps_seq_view(steps@), Set::empty()) == match steps_ops(
                steps_seq_view(steps@).skip(i as int),
                strs_set(seen@),
            ) {
                Some(rest) => Some(ops_view(ops@) + rest),
                None => None::<Seq<MemoryOpM>>,
            },
        decreases n - i,
    {
        let ghost pre_ops = ops_view(ops@);
        let ghost pre_seen = strs_set(seen@);
        let ghost remaining = steps_seq_view(steps@).skip(i as int);
        let step = &steps[i];
        proof {
            assert(remaining[0] == step@);
            assert(remaining.drop_first() =~= steps_seq_view(steps@).skip(i + 1 as int));
        }
        let parsed = match crate::log_codec::parse_log(step.action.log.as_str()) {
            Some(p) => p,
            None => {
                proof {
                    assert(step_ops(step@, pre_seen) is None);
                    assert(steps_ops(remaining, pre_seen) is None);
                }
                return None;
            },
        };
        let (tool_id, tools) = parsed;
        if canonicalize_json(tools.as_str()).is_none() {
            proof {
                assert(step_ops(step@, pre_seen) is None);
                assert(steps_ops(remaining, pre_seen) is None);
            }
            return None;
        }
        if !seen_contains(&seen, tools.as_str()) {
            ops.push(MemoryOp::AddAiWithToolCalls(tools.clone()));
            let pushed = tools.clone();
            proof {
                crate::scratchpad::lemma_strs_set_push(seen@, pushed);
            }
            seen.push(pushed);
        } else {
            proof {
                assert(strs_set(seen@).insert(tools@) =~= strs_set(seen@));
            }
        }
        ops.push(MemoryOp::AddTool { content: step.observation.clone(), tool_call_id: tool_id });
        proof {
            let ms = step_ops(step@, pre_seen)->Some_0;
            assert(ops_view(ops@) =~= pre_ops + ms);
            assert forall|rest: Seq<MemoryOpM>| true implies (pre_ops + ms) + rest =~= pre_ops + (
            ms + rest) by {}
        }
        i += 1;
    }
    proof {
        assert(steps_seq_view(steps@).skip(n as int) =~= Seq::<StepM>::empty());
        assert(ops_view(ops@) + Seq::<MemoryOpM>::empty() =~= ops_view(ops@));
    }
    Some(ops)
}

fn seen_contains(seen: &Vec<String>, s: &str) -> (r: bool)
    ensures
        r == strs_set(seen@).contains(s@),
{
    let n: usize = seen.len();
    let mut i: usize = 0;
    while i < n
        invariant
            i <= n,
            n == seen@.len(),
            forall|j: int| 0 <= j < i ==> seen@[j]@ != s@,
        decreases n - i,
    {
        if crate::text::str_eq(seen[i].as_str(), s) {
            return true;
        }
        i += 1;
    }
    false
}

/// The memory writes that persist a finished turn: the turn's user input,
/// the deduplicated assistant and tool-result messages of every step, and
/// the final assistant output.
pub open spec fn finish_ops(input: Seq<char>, steps: Seq<StepM>, output: Seq<char>) -> Option<
    Seq<MemoryOpM>,
> {
    match steps_ops(steps, Set::empty()) {
        Some(ops) => Some(
            seq![MemoryOpM::AddUser(input)] + ops + seq![MemoryOpM::AddAi(output)],
        ),
        None => None,
    }
}

/// Computes the memory writes that persist a finished turn.
pub fn compute_finish_ops(input: &str, steps: &Vec<Step>, output: &str) -> (r: Option<
    Vec<MemoryOp>,
>)
    ensures
        match r {
            Some(ops) => finish_ops(input@, steps_seq_view(steps@), output@) == Some(
                ops_view(ops@),
            ),
            None => finish_ops(input@, steps_seq_view(steps@), output@) is None,
        },
{
    let mut middle = match compute_steps_ops(steps) {
        Some(ops) => ops,
        None => {
            return None;
        },
    };
    let mut ops: Vec<MemoryOp> = Vec::new();
    ops.push(MemoryOp::AddUser(input.to_owned()));
    let ghost head = ops_view(ops@);
    let ghost mid = ops_view(middle@);
    ops.append(&mut middle);
    ops.push(MemoryOp::AddAi(output.to_owned()));
    proof {
        assert(head =~= seq![MemoryOpM::AddUser(input@)]);
        assert(ops_view(ops@) =~= head + mid + seq![MemoryOpM::AddAi(output@)]);
    }
    Some(ops)
}


/// A step list contributes only batch announcements and tool results.
proof fn lemma_steps_ops_kinds(steps: Seq<StepM>, seen: Set<Seq<char>>)
    ensures
        steps_ops(steps, seen) matches Some(ops) ==> forall|k: int|
            0 <= k < ops.len() ==> (#[trigger] ops[k]) is AddAiWithToolCalls || ops[k] is AddTool,
    decreases steps.len(),
{
    if steps.len() > 0 && steps_ops(steps, seen) is Some {
        lemma_steps_ops_kinds(steps.drop_first(), seen.insert(step_payload(steps[0])));
        let head = step_ops(steps[0], seen)->Some_0;
        let rest = steps_ops(steps.drop_first(), seen.insert(step_payload(steps[0])))->Some_0;
        let ops = steps_ops(steps, seen)->Some_0;
        assert(ops == head + rest);
        assert forall|k: int| 0 <= k < ops.len() implies (#[trigger] ops[k])
            is AddAiWithToolCalls || ops[k] is AddTool by {
            if k >= head.len() {
                assert(ops[k] == rest[k - head.len()]);
            }
        }
    }
}

/// In a step list persisted with no payload announced yet, every tool-result
/// write is preceded by a batch announcement; with payloads already
/// announced, the claim is owed by the earlier context.
proof fn lemma_steps_ops_announced(steps: Seq<StepM>, seen: Set<Seq<char>>)
    ensures
        steps_ops(steps, seen) matches Some(ops) ==> forall|k: int|
            0 <= k < ops.len() && (#[trigger] ops[k]) is AddTool ==> (exists|j: int|
                0 <= j < k && (#[trigger] ops[j]) is AddAiWithToolCalls) || seen
                != Set::<Seq<char>>::empty(),
    decreases steps.len(),
{
    if steps.len() > 0 && steps_ops(steps, seen) is Some {
        let p = step_payload(steps[0]);
        lemma_steps_ops_announced(steps.drop_first(), seen.insert(p));
        let head = step_ops(steps[0], seen)->Some_0;
        let rest = steps_ops(steps.drop_first(), seen.insert(p))->Some_0;
        let ops = steps_ops(steps, seen)->Some_0;
        assert(ops == head + rest);
        assert forall|k: int|
            0 <= k < ops.len() && (#[trigger] ops[k]) is AddTool implies (exists|j: int|
                0 <= j < k && (#[trigger] ops[j]) is AddAiWithToolCalls) || seen
                != Set::<Seq<char>>::empty() by {
            if seen.contains(p) {
                assert(seen != Set::<Seq<char>>::empty());
            } else {
                assert(head[0] is AddAiWithToolCalls);
                assert(ops[0] is AddAiWithToolCalls);
                if k == 0 {
                    assert(!(ops[0] is AddTool));
                }
            }
        }
    }
}

/// Law: the writes persisting a finished turn have the shape the memory
/// expects. The turn contributes exactly one user message, which comes
/// first; and a tool-result message never precedes an announcing assistant
/// message — the first write after the user message is never a tool result
/// without an announcement before it.
pub proof fn lemma_finish_ops_memory_shape(input: Seq<char>, steps: Seq<StepM>, output: Seq<char>)
    ensures
        finish_ops(input, steps, output) matches Some(ops) ==> {
            &&& ops.len() >= 2
            &&& ops[0] == MemoryOpM::AddUser(input)
            &&& ops.last() == MemoryOpM::AddAi(output)
            &&& forall|k: int| 1 <= k < ops.len() ==> !((#[trigger] ops[k]) is AddUser)
            &&& forall|k: int|
                0 <= k < ops.len() && (#[trigger] ops[k]) is AddTool ==> exists|j: int|
                    0 <= j < k && (#[trigger] ops[j]) is AddAiWithToolCalls
        },
{
    if finish_ops(input, steps, output) is Some {
        lemma_steps_ops_kinds(steps, Set::empty());
        lemma_steps_ops_announced(steps, Set::empty());
        let mid = steps_ops(steps, Set::empty())->Some_0;
        let ops = finish_ops(input, steps, output)->Some_0;
        assert(ops == seq![MemoryOpM::AddUser(input)] + mid + seq![MemoryOpM::AddAi(output)]);
        assert forall|k: int| 1 <= k < ops.len() implies !((#[trigger] ops[k]) is AddUser) by {
            if k < 1 + mid.len() {
                assert(ops[k] == mid[k - 1]);
            }
        }
        assert forall|k: int|
            0 <= k < ops.len() && (#[trigger] ops[k]) is AddTool implies exists|j: int|
                0 <= j < k && (#[trigger] ops[j]) is AddAiWithToolCalls by {
            assert(1 <= k < 1 + mid.len());
            assert(ops[k] == mid[k - 1]);
            assert(mid[k - 1] is AddTool);
            let j0 = choose|j0: int|
                0 <= j0 < k - 1 && (#[trigger] mid[j0]) is AddAiWithToolCalls;
            assert(ops[j0 + 1] == mid[j0]);
        }
    }
}

/// The phase of the call loop: about to plan, awaiting the result of the
/// tool call last commanded, or finished.
pub enum CallPhase {
    Planning,
    AwaitingTool,
    Done,
}

/// The verified state of one synchronous call: configuration, registered
/// tools, the turn's input, the recorded steps, and the remainder of the
/// batch being executed.
pub struct CallEngine {
    pub max_iterations: Option<i32>,
    pub break_if_error: bool,
    pub table: ToolTable,
    pub input: String,
    pub steps: Vec<Step>,
    pub pending: Vec<Action>,
    pub phase: CallPhase,
}

/// Mathematical view of a [`CallEngine`].
#[verifier::ext_equal]
pub struct CallEngineM {
    pub max_iterations: Option<i32>,
    pub break_if_error: bool,
    pub tools: Seq<Seq<char>>,
    pub input: Seq<char>,
    pub steps: Seq<StepM>,
    pub pending: Seq<ActionM>,
    pub phase: CallPhase,
}

/// The view of an action vector.
pub open spec fn actions_view(v: Seq<Action>) -> Seq<ActionM> {
    v.map(|i: int, a: Action| a@)
}

impl View for CallEngine {
    type V = CallEngineM;

    open spec fn view(&self) -> CallEngineM {
        CallEngineM {
            max_iterations: self.max_iterations,
            break_if_error: self.break_if_error,
            tools: names_view(self.table.names@),
            input: self.input@,
            steps: steps_seq_view(self.steps@),
            pending: actions_view(self.pending@),
            phase: self.phase,
        }
    }
}

/// What the caller must do next: ask the planner, invoke a tool, apply the
/// finished turn's memory writes and return its output, or surface a fatal
/// error.
pub enum CallCommand {
    Plan,
    Invoke { tool_index: usize, action: Action },
    Finished { output: String, memory_ops: Vec<MemoryOp> },
    Failed { error: AgentError },
}

/// Mathematical view of a [`CallCommand`].
#[verifier::ext_equal]
pub enum CallCommandM {
    Plan,
    Invoke { tool_index: int, action: ActionM },
    Finished { output: Seq<char>, memory_ops: Seq<MemoryOpM> },
    Failed { error: AgentErrorM },
}

impl View for CallCommand {
    type V = CallCommandM;

    open spec fn view(&self) -> CallCommandM {
        match self {
            CallCommand::Plan => CallCommandM::Plan,
            CallCommand::Invoke { tool_index, action } => CallCommandM::Invoke {
                tool_index: *tool_index as int,
                action: action@,
            },
            CallCommand::Finished { output, memory_ops } => CallCommandM::Finished {
                output: output@,
                memory_ops: ops_view(memory_ops@),
            },
            CallCommand::Failed { error } => CallCommandM::Failed { error: error@ },
        }
    }
}

/// Whether the step count has reached the iteration cap.
pub open spec fn cap_reached(max: Option<i32>, n: int) -> bool {
    match max {
        Some(m) => m == 0 || (m > 0 && n >= m as int),
        None => false,
    }
}

pub open spec fn with_phase(s: CallEngineM, p: CallPhase) -> CallEngineM {
    CallEngineM {
        max_iterations: s.max_iterations,
        break_if_error: s.break_if_error,
        tools: s.tools,
        input: s.input,
        steps: s.steps,
        pending: s.pending,
        phase: p,
    }
}

/// After a planning decision or a recorded step: command the next pending
/// action's tool call (a name that resolves to no tool is fatal, whatever
/// the error policy), or end the batch — finishing with the fixed sentinel
/// once the cap is reached, else planning the next cycle.
pub open spec fn advance_t(s: CallEngineM) -> (CallEngineM, CallCommandM) {
    if s.pending.len() > 0 {
        match resolve_spec(s.tools, s.pending[0].tool) {
            Some(i) => (
                with_phase(s, CallPhase::AwaitingTool),
                CallCommandM::Invoke { tool_index: i, action: s.pending[0] },
            ),
            None => (
                with_phase(s, CallPhase::Done),
                CallCommandM::Failed {
                    error: AgentErrorM::ToolNotFound("Tool "@ + s.pending[0].tool + " not found"@),
                },
            ),
        }
    } else if cap_reached(s.max_iterations, s.steps.len() as int) {
        (
            with_phase(s, CallPhase::Done),
            CallCommandM::Finished {
                output: "Max iterations reached"@,
                memory_ops: Seq::empty(),
            },
        )
    } else {
        (with_phase(s, CallPhase::Planning), CallCommandM::Plan)
    }
}

/// How a planning result drives the loop: a planning failure is fatal; a
/// finish persists the turn (or fails fatally when a step's log cannot be
/// persisted) and returns the output; an action batch becomes the pending
/// work and the first call is commanded.
pub open spec fn plan_transition(s: CallEngineM, r: Result<AgentEventM, Seq<char>>) -> (
    CallEngineM,
    CallCommandM,
) {
    match r {
        Err(e) => (
            with_phase(s, CallPhase::Done),
            CallCommandM::Failed {
                error: AgentErrorM::Planning("Error in agent planning: "@ + e),
            },
        ),
        Ok(AgentEventM::Finish(o)) => match finish_ops(s.input, s.steps, o) {
            Some(ops) => (
                with_phase(s, CallPhase::Done),
                CallCommandM::Finished { output: o, memory_ops: ops },
            ),
            None => (
                with_phase(s, CallPhase::Done),
                CallCommandM::Failed {
                    error: AgentErrorM::Serialization(
                        "unparsable action log in step history"@,
                    ),
                },
            ),
        },
        Ok(AgentEventM::Action(batch)) => advance_t(
            CallEngineM {
                max_iterations: s.max_iterations,
                break_if_error: s.break_if_error,
                tools: s.tools,
                input: s.input,
                steps: s.steps,
                pending: batch,
                phase: s.phase,
            },
        ),
    }
}

pub open spec fn step_recorded(s: CallEngineM, obs: Seq<char>) -> CallEngineM {
    CallEngineM {
        max_iterations: s.max_iterations,
        break_if_error: s.break_if_error,
        tools: s.tools,
        input: s.input,
        steps: s.steps.push(StepM { action: s.pending[0], observation: obs }),
        pending: s.pending.drop_first(),
        phase: s.phase,
    }
}

/// How a tool result drives the loop: success records the observation; a
/// failure aborts fatally under the break-on-error policy, and is otherwise
/// degraded into an observation embedding the error text; then the batch
/// advances.
pub open spec fn tool_transition(s: CallEngineM, r: Result<Seq<char>, Seq<char>>) -> (
    CallEngineM,
    CallCommandM,
) {
    match r {
        Ok(obs) => advance_t(step_recorded(s, obs)),
        Err(m) => if s.break_if_error {
            (
                with_phase(s, CallPhase::Done),
                CallCommandM::Failed { error: AgentErrorM::ToolExecution(m) },
            )
        } else {
            advance_t(step_recorded(s, "The tool return the following error: "@ + m))
        },
    }
}

/// The view of a planning result.
pub open spec fn plan_result_view(r: Result<AgentEvent, String>) -> Result<
    AgentEventM,
    Seq<char>,
> {
    match r {
        Ok(e) => Ok(e@),
        Err(s) => Err(s@),
    }
}

/// The view of a tool result.
pub open spec fn obs_result_view(r: Result<String, String>) -> Result<Seq<char>, Seq<char>> {
    match r {
        Ok(o) => Ok(o@),
        Err(m) => Err(m@),
    }
}

impl CallEngine {
    /// A command for a tool call is outstanding only while the batch still
    /// holds the action it belongs to.
    pub open spec fn wf(&self) -> bool {
        self.phase is AwaitingTool ==> self.pending@.len() > 0
    }

    /// A fresh engine for one call: no steps, nothing pending, about to
    /// plan.
    pub fn new(
        max_iterations: Option<i32>,
        break_if_error: bool,
        tool_names: Vec<String>,
        input: String,
    ) -> (r: Self)
        ensures
            r.wf(),
            r@ == (CallEngineM {
                max_iterations,
                break_if_error,
                tools: names_view(tool_names@),
                input: input@,
                steps: Seq::empty(),
                pending: Seq::empty(),
                phase: CallPhase::Planning,
            }),
    {
        let r = CallEngine {
            max_iterations,
            break_if_error,
            table: ToolTable::new(tool_names),
            input,
            steps: Vec::new(),
            pending: Vec::new(),
            phase: CallPhase::Planning,
        };
        proof {
            assert(steps_seq_view(r.steps@) =~= Seq::<StepM>::empty());
            assert(actions_view(r.pending@) =~= Seq::<ActionM>::empty());
            assert(r@ =~~= (CallEngineM {
                max_iterations,
                break_if_error,
                tools: names_view(tool_names@),
                input: input@,
                steps: Seq::empty(),
                pending: Seq::empty(),
                phase: CallPhase::Planning,
            }));
        }
        r
    }

    fn advance(&mut self) -> (cmd: CallCommand)
        ensures
            final(self).wf(),
            (final(self)@, cmd@) == advance_t(old(self)@),
    {
        let ghost s0 = self@;
        if self.pending.len() > 0 {
            let action0 = self.pending[0].clone_action();
            proof {
                assert(action0@ == s0.pending[0]);
            }
            match self.table.resolve(action0.tool.as_str()) {
                Some(i) => {
                    self.phase = CallPhase::AwaitingTool;
                    let cmd = CallCommand::Invoke { tool_index: i, action: action0 };
                    proof {
                        assert(self@ =~~= advance_t(s0).0);
                        assert(cmd@ =~~= advance_t(s0).1);
                    }
                    cmd
                },
                None => {
                    self.phase = CallPhase::Done;
                    let mut msg = String::new();
                    msg.append("Tool ");
                    msg.append(action0.tool.as_str());
                    msg.append(" not found");
                    let cmd = CallCommand::Failed { error: AgentError::ToolNotFound(msg) };
                    proof {
                        assert(self@ =~~= advance_t(s0).0);
                        assert(cmd@ =~~= advance_t(s0).1);
                    }
                    cmd
                },
            }
        } else {
            let capped: bool = match self.max_iterations {
                Some(m) => m == 0 || (m > 0 && self.steps.len() >= (m as usize)),
                None => false,
            };
            assert(capped == cap_reached(s0.max_iterations, s0.steps.len() as int));
            if capped {
                self.phase = CallPhase::Done;
                let cmd = CallCommand::Finished {
                    output: "Max iterations reached".to_owned(),
                    memory_ops: Vec::new(),
                };
                proof {
                    assert(ops_view(Seq::<MemoryOp>::empty()) =~= Seq::<MemoryOpM>::empty());
                    assert(self@ =~~= advance_t(s0).0);
                    assert(cmd@ =~~= advance_t(s0).1);
                }
                cmd
            } else {
                self.phase = CallPhase::Planning;
                proof {
                    assert(self@ =~~= advance_t(s0).0);
                }
                CallCommand::Plan
            }
        }
    }

    /// Feeds the planner's decision (or its failure) into the loop and
    /// returns what to do next.
    pub fn on_plan_result(&mut self, r: Result<AgentEvent, String>) -> (cmd: CallCommand)
        requires
            old(self).wf(),
            old(self).phase is Planning,
        ensures
            final(self).wf(),
            (final(self)@, cmd@) == plan_transition(old(self)@, plan_result_view(r)),
    {
        let ghost s0 = self@;
        match r {
            Err(e) => {
                self.phase = CallPhase::Done;
                let mut msg = String::new();
                msg.append("Error in agent planning: ");
                msg.append(e.as_str());
                let cmd = CallCommand::Failed { error: AgentError::Planning(msg) };
                proof {
                    assert(self@ =~~= plan_transition(s0, plan_result_view(Err(e))).0);
                    assert(cmd@ =~~= plan_transition(s0, plan_result_view(Err(e))).1);
                }
                cmd
            },
            Ok(AgentEvent::Finish(o)) => {
                self.phase = CallPhase::Done;
                match compute_finish_ops(self.input.as_str(), &self.steps, o.as_str()) {
                    Some(ops) => {
                        let cmd = CallCommand::Finished { output: o, memory_ops: ops };
                        proof {
                            assert(self@ =~~= with_phase(s0, CallPhase::Done));
                        }
                        cmd
                    },
                    None => {
                        let cmd = CallCommand::Failed {
                            error: AgentError::Serialization(
                                "unparsable action log in step history".to_owned(),
                            ),
                        };
                        proof {
                            assert(self@ =~~= with_phase(s0, CallPhase::Done));
                        }
                        cmd
                    },
                }
            },
            Ok(AgentEvent::Action(batch)) => {
                self.pending = batch;
                proof {
                    assert(self@ =~~= (CallEngineM {
                        max_iterations: s0.max_iterations,
                        break_if_error: s0.break_if_error,
                        tools: s0.tools,
                        input: s0.input,
                        steps: s0.steps,
                        pending: self@.pending,
                        phase: s0.phase,
                    }));
                }
                self.advance()
            },
        }
    }

    /// Feeds the outcome of the commanded tool call into the loop and
    /// returns what to do next.
    pub fn on_tool_result(&mut self, r: Result<String, String>) -> (cmd: CallCommand)
        requires
            old(self).wf(),
            old(self).phase is AwaitingTool,
        ensures
            final(self).wf(),
            (final(self)@, cmd@) == tool_transition(old(self)@, obs_result_view(r)),
    {
        let ghost s0 = self@;
        match r {
            Ok(obs) => {
                let action0 = self.pending.remove(0);
                self.steps.push(Step { action: action0, observation: obs });
                proof {
                    assert(self@ =~~= step_recorded(s0, obs@));
                }
                self.advance()
            },
            Err(m) => {
                if self.break_if_error {
                    self.phase = CallPhase::Done;
                    let cmd = CallCommand::Failed { error: AgentError::ToolExecution(m) };
                    proof {
                        assert(self@ =~~= with_phase(s0, CallPhase::Done));
                    }
                    cmd
                } else {
                    let action0 = self.pending.remove(0);
                    let mut obs = String::new();
                    obs.append("The tool return the following error: ");
                    obs.append(m.as_str());
                    let ghost obs_v = obs@;
                    self.steps.push(Step { action: action0, observation: obs });
                    proof {
                        assert(self@ =~~= step_recorded(s0, obs_v));
                    }
                    self.advance()
                }
            },
        }
    }
}

/// Law: a planner that finishes on the first cycle ends the call with that
/// very output and no tool invocation; the persisted turn is the user input
/// and the output alone.
pub proof fn lemma_finish_first_cycle(s: CallEngineM, o: Seq<char>)
    requires
        s.steps.len() == 0,
    ensures
        ({
            let (s2, cmd) = plan_transition(s, Ok(AgentEventM::Finish(o)));
            &&& s2.phase is Done
            &&& s2.steps == s.steps
            &&& cmd == (CallCommandM::Finished {
                output: o,
                memory_ops: seq![MemoryOpM::AddUser(s.input), MemoryOpM::AddAi(o)],
            })
        }),
{
    assert(s.steps =~= Seq::<StepM>::empty());
    assert(steps_ops(s.steps, Set::empty()) == Some(Seq::<MemoryOpM>::empty()));
    assert(seq![MemoryOpM::AddUser(s.input)] + Seq::<MemoryOpM>::empty() + seq![
        MemoryOpM::AddAi(o),
    ] =~= seq![MemoryOpM::AddUser(s.input), MemoryOpM::AddAi(o)]);
}

/// Law: the iteration cap is exact. Completing the last call of a batch
/// records the step; if the step count has then reached the cap the call
/// finishes with the fixed sentinel and no further cycle runs, and below the
/// cap the loop plans the next cycle.
pub proof fn lemma_iteration_cap(s: CallEngineM, obs: Seq<char>, m: i32)
    requires
        s.pending.len() == 1,
        s.max_iterations == Some(m),
        m > 0,
    ensures
        ({
            let (s2, cmd) = tool_transition(s, Ok(obs));
            &&& s2.steps.len() == s.steps.len() + 1
            &&& s.steps.len() + 1 >= m as int ==> s2.phase is Done && cmd == (
            CallCommandM::Finished {
                output: "Max iterations reached"@,
                memory_ops: Seq::empty(),
            })
            &&& s.steps.len() + 1 < m as int ==> s2.phase is Planning && cmd is Plan
        }),
{
    let mid = step_recorded(s, obs);
    assert(mid.pending =~= Seq::<ActionM>::empty());
    assert(mid.steps.len() == s.steps.len() + 1);
}

/// Law: under the break-on-error policy a failing tool aborts the call at
/// once: no step is recorded, no retry happens, and the fatal command
/// carries the tool's error message.
pub proof fn lemma_break_if_error(s: CallEngineM, m: Seq<char>)
    requires
        s.break_if_error,
    ensures
        ({
            let (s2, cmd) = tool_transition(s, Err(m));
            &&& s2.steps == s.steps
            &&& s2.phase is Done
            &&& cmd == (CallCommandM::Failed { error: AgentErrorM::ToolExecution(m) })
        }),
{
}

/// Law: without the break-on-error policy a failing tool does not abort the
/// call: a step is recorded whose observation embeds the tool's error
/// message, and the loop goes on — to the next call, the next cycle, or the
/// iteration cap; only an unresolvable tool name can still end it with an
/// error.
pub proof fn lemma_continue_on_error(s: CallEngineM, m: Seq<char>)
    requires
        !s.break_if_error,
        s.pending.len() > 0,
    ensures
        ({
            let (s2, cmd) = tool_transition(s, Err(m));
            &&& s2.steps.len() == s.steps.len() + 1
            &&& s2.steps.last().observation == "The tool return the following error: "@ + m
            &&& match cmd {
                CallCommandM::Plan => true,
                CallCommandM::Invoke { .. } => true,
                CallCommandM::Finished { output, memory_ops } => output
                    == "Max iterations reached"@,
                CallCommandM::Failed { error } => error is ToolNotFound,
            }
        }),
{
}

} // verus!
