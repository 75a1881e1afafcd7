//! The delta accumulator: reconstructs one tool invocation from argument
//! fragments streamed over a model connection, and renders the accumulated
//! state as an [`Action`] whose log carries the tool-call batch JSON.

use vstd::prelude::*;

use crate::json_text::json_quoted;
use crate::log_codec::{encode_log, log_json};
use crate::text::push_char;
use crate::types::{Action, ActionM};

verus! {

/// One streamed fragment of a tool call: an id and a function name, each
/// possibly arriving once, and a partial arguments string.
pub struct ToolCallFragment {
    pub id: Option<String>,
    pub name: Option<String>,
    pub arguments: Option<String>,
}

/// The view of an optional string.
pub open spec fn opt_view(o: Option<String>) -> Option<Seq<char>> {
    match o {
        Some(s) => Some(s@),
        None => None,
    }
}

/// The characters of an optional string, empty when absent.
pub open spec fn opt_or_empty(o: Option<Seq<char>>) -> Seq<char> {
    match o {
        Some(s) => s,
        None => Seq::empty(),
    }
}

/// An optional string as a JSON value: a string literal, or `null`.
pub open spec fn opt_json_string(o: Option<Seq<char>>) -> Seq<char> {
    match o {
        Some(s) => json_quoted(s),
        None => seq!['n', 'u', 'l', 'l'],
    }
}

pub open spec fn lit_batch_head() -> Seq<char> {
    seq!['[', '{', '"', 'i', 'd', '"', ':']
}

pub open spec fn lit_batch_type_fn() -> Seq<char> {
    seq![',', '"', 't', 'y', 'p', 'e', '"', ':', '"', 'f', 'u', 'n', 'c', 't', 'i', 'o', 'n', '"',
        ',', '"', 'f', 'u', 'n', 'c', 't', 'i', 'o', 'n', '"', ':', '{', '"', 'n', 'a', 'm', 'e',
        '"', ':']
}

pub open spec fn lit_batch_args() -> Seq<char> {
    seq![',', '"', 'a', 'r', 'g', 'u', 'm', 'e', 'n', 't', 's', '"', ':']
}

pub open spec fn lit_batch_tail() -> Seq<char> {
    seq!['}', '}', ']']
}

/// The single-call tool-call batch JSON for an id, a function name and an
/// arguments string.
pub open spec fn tool_calls_json(
    id: Option<Seq<char>>,
    name: Option<Seq<char>>,
    args: Seq<char>,
) -> Seq<char> {
    lit_batch_head() + opt_json_string(id) + lit_batch_type_fn() + opt_json_string(name)
        + lit_batch_args() + json_quoted(args) + lit_batch_tail()
}

/// JSON whitespace.
pub open spec fn is_json_ws(c: char) -> bool {
    c == ' ' || c == '\t' || c == '\n' || c == '\r'
}

/// A string that holds nothing but whitespace.
pub open spec fn is_blank(s: Seq<char>) -> bool {
    forall|i: int| 0 <= i < s.len() ==> is_json_ws(s[i])
}

/// An argument buffer made safe for downstream parsing: blank text becomes
/// the canonical empty JSON object.
pub open spec fn processed_args(a: Seq<char>) -> Seq<char> {
    if is_blank(a) {
        seq!['{', '}']
    } else {
        a
    }
}

/// The action rendered from accumulated state: the tool name (empty when
/// never seen), the processed arguments, and a log carrying the id (empty
/// when never seen) and the single-call batch JSON.
pub open spec fn action_chunk(
    id: Option<Seq<char>>,
    name: Option<Seq<char>>,
    args: Seq<char>,
) -> ActionM {
    let pa = processed_args(args);
    ActionM {
        tool: opt_or_empty(name),
        tool_input: pa,
        log: log_json(opt_or_empty(id), tool_calls_json(id, name, pa)),
    }
}

/// True when `s` holds nothing but whitespace.
pub fn str_is_blank(s: &str) -> (r: bool)
    ensures
        r == is_blank(s@),
{
    let n: usize = s.unicode_len();
    let mut i: usize = 0;
    while i < n
        invariant
            i <= n,
            n == s@.len(),
            forall|j: int| 0 <= j < i ==> is_json_ws(s@[j]),
        decreases n - i,
    {
        let c = s.get_char(i);
        if !(c == ' ' || c == '\t' || c == '\n' || c == '\r') {
            return false;
        }
        i += 1;
    }
    true
}

fn push_opt_json_string(out: &mut String, o: &Option<String>)
    ensures
        final(out)@ == old(out)@ + opt_json_string(opt_view(*o)),
{
    match o {
        Some(s) => {
            crate::json_text::push_json_string(out, s.as_str());
        },
        None => {
            push_char(out, 'n');
            push_char(out, 'u');
            push_char(out, 'l');
            push_char(out, 'l');
            assert(out@ =~= old(out)@ + opt_json_string(None));
        },
    }
}

/// Renders the single-call batch JSON for the given id, name and arguments.
pub fn encode_tool_calls(id: &Option<String>, name: &Option<String>, args: &str) -> (r: String)
    ensures
        r@ == tool_calls_json(opt_view(*id), opt_view(*name), args@),
{
    let mut out = String::new();
    let head = "[{\"id\":";
    proof {
        reveal_strlit("[{\"id\":");
        assert(head@ =~= lit_batch_head());
    }
    out.append(head);
    push_opt_json_string(&mut out, id);
    let mid = ",\"type\":\"function\",\"function\":{\"name\":";
    proof {
        reveal_strlit(",\"type\":\"function\",\"function\":{\"name\":");
        assert(mid@ =~= lit_batch_type_fn());
    }
    out.append(mid);
    push_opt_json_string(&mut out, name);
    let argk = ",\"arguments\":";
    proof {
        reveal_strlit(",\"arguments\":");
        assert(argk@ =~= lit_batch_args());
    }
    out.append(argk);
    crate::json_text::push_json_string(&mut out, args);
    let tail = "}}]";
    proof {
        reveal_strlit("}}]");
        assert(tail@ =~= lit_batch_tail());
    }
    out.append(tail);
    proof {
        assert(out@ =~= tool_calls_json(opt_view(*id), opt_view(*name), args@));
    }
    out
}

/// Mutable state reconstructing one in-flight tool call: the function name
/// (last write wins), the growing argument buffer, and the id (first
/// non-empty sighting wins). One accumulator tracks exactly one call.
pub struct ToolCallAccumulator {
    pub name: Option<String>,
    pub args: String,
    pub id: Option<String>,
}

impl ToolCallAccumulator {
    /// A fresh accumulator with no name, no id and an empty buffer.
    pub fn new() -> (r: Self)
        ensures
            r.name is None,
            r.args@ == Seq::<char>::empty(),
            r.id is None,
    {
        ToolCallAccumulator { name: None, args: String::new(), id: None }
    }

    /// Folds one fragment into the state: the name is updated whenever
    /// present, argument text is appended, and the id is recorded on its
    /// first non-empty sighting and never overwritten. Returns the partial
    /// action reflecting cumulative state so far.
    pub fn accumulate(&mut self, delta: &ToolCallFragment) -> (r: Action)
        ensures
            opt_view(final(self).name) == (if delta.name is Some {
                opt_view(delta.name)
            } else {
                opt_view(old(self).name)
            }),
            final(self).args@ == old(self).args@ + opt_or_empty(opt_view(delta.arguments)),
            opt_view(final(self).id) == (if old(self).id is None && (delta.id matches Some(i)
                && i@.len() > 0) {
                opt_view(delta.id)
            } else {
                opt_view(old(self).id)
            }),
            r@ == action_chunk(
                opt_view(final(self).id),
                opt_view(final(self).name),
                opt_or_empty(opt_view(delta.arguments)),
            ),
    {
        let mut args_chunk = String::new();
        if let Some(name) = &delta.name {
            self.name = Some(name.clone());
        }
        if let Some(args) = &delta.arguments {
            self.args.append(args.as_str());
            args_chunk = args.clone();
        }
        if let Some(id) = &delta.id {
            if self.id.is_none() && id.unicode_len() > 0 {
                self.id = Some(id.clone());
            }
        }
        assert(args_chunk@ =~= opt_or_empty(opt_view(delta.arguments)));
        self.to_action_chunk(args_chunk)
    }

    /// Drains the argument buffer into a finalized action; name and id are
    /// kept for reuse within the same cycle slot.
    pub fn take_action(&mut self) -> (r: Action)
        ensures
            final(self).args@ == Seq::<char>::empty(),
            final(self).name == old(self).name,
            final(self).id == old(self).id,
            r@ == action_chunk(
                opt_view(old(self).id),
                opt_view(old(self).name),
                old(self).args@,
            ),
    {
        let args = self.args.clone();
        self.args = String::new();
        self.to_action_chunk(args)
    }

    /// Renders an action from the current name and id and the given argument
    /// text: blank arguments become the empty JSON object, and the log
    /// carries the id and the single-call batch JSON.
    pub fn to_action_chunk(&self, args_chunk: String) -> (r: Action)
        ensures
            r@ == action_chunk(opt_view(self.id), opt_view(self.name), args_chunk@),
    {
        let processed: String = if str_is_blank(args_chunk.as_str()) {
            let mut o = String::new();
            push_char(&mut o, '{');
            push_char(&mut o, '}');
            assert(o@ =~= seq!['{', '}']);
            o
        } else {
            args_chunk
        };
        let tools = encode_tool_calls(&self.id, &self.name, processed.as_str());
        let id_str: String = match &self.id {
            Some(i) => i.clone(),
            None => String::new(),
        };
        let name_str: String = match &self.name {
            Some(n) => n.clone(),
            None => String::new(),
        };
        let log = encode_log(id_str.as_str(), tools.as_str());
        Action { tool: name_str, tool_input: processed, log }
    }
}

} // verus!
