//! The library's model of a remotely served tool: the plain data the logic
//! reads — name, description, parameter schema — and the input-normalization
//! decision. The transport that actually executes the tool lives outside the
//! library and consumes these values.

use vstd::prelude::*;

use crate::accumulator::{opt_or_empty, opt_view};
use crate::json_text::json_quoted;
use crate::outside::{canonicalize_json_object, json_object_canon};

verus! {

/// A remotely served tool, as the loop sees it: its name, its optional
/// description, and its parameter schema as JSON text.
pub struct RmcpTool {
    pub tool_name: String,
    pub tool_description: Option<String>,
    pub parameters_json: String,
}

/// The normalized tool input: a JSON object passes through in canonical
/// form; anything else is wrapped as the `value` member of a fresh object.
pub open spec fn parse_input_spec(input: Seq<char>) -> Seq<char> {
    match json_object_canon(input) {
        Some(c) => c,
        None => "{\"value\":"@ + json_quoted(input) + "}"@,
    }
}

impl RmcpTool {
    /// A tool model from its plain data.
    pub fn new(tool_name: String, tool_description: Option<String>, parameters_json: String) -> (r:
        Self)
        ensures
            r.tool_name@ == tool_name@,
            opt_view(r.tool_description) == opt_view(tool_description),
            r.parameters_json@ == parameters_json@,
    {
        RmcpTool { tool_name, tool_description, parameters_json }
    }

    /// The tool's name.
    pub fn name(&self) -> (r: String)
        ensures
            r@ == self.tool_name@,
    {
        self.tool_name.clone()
    }

    /// The tool's description, empty when it has none.
    pub fn description(&self) -> (r: String)
        ensures
            r@ == opt_or_empty(opt_view(self.tool_description)),
    {
        match &self.tool_description {
            Some(d) => d.clone(),
            None => String::new(),
        }
    }

    /// The tool's parameter schema, as JSON text.
    pub fn parameters(&self) -> (r: String)
        ensures
            r@ == self.parameters_json@,
    {
        self.parameters_json.clone()
    }

    /// Normalizes a serialized tool input before dispatch: a JSON object
    /// passes through in canonical form, anything else is wrapped as the
    /// `value` member of a fresh object, so dispatch never fails on
    /// non-object input.
    pub fn parse_input(&self, input: &str) -> (r: String)
        ensures
            r@ == parse_input_spec(input@),
    {
        match canonicalize_json_object(input) {
            Some(c) => c,
            None => {
                let mut out = String::new();
                out.append("{\"value\":");
                crate::json_text::push_json_string(&mut out, input);
                out.append("}");
                proof {
                    assert(out@ =~= parse_input_spec(input@));
                }
                out
            },
        }
    }
}

/// The concatenation of a list of text parts.
pub open spec fn concat_spec(v: Seq<Seq<char>>) -> Seq<char>
    decreases v.len(),
{
    if v.len() == 0 {
        Seq::empty()
    } else {
        concat_spec(v.drop_last()) + v.last()
    }
}

/// Concatenates the text parts of a tool response into one observation
/// string.
pub fn concat_texts(parts: &Vec<String>) -> (r: String)
    ensures
        r@ == concat_spec(parts@.map(|i: int, s: String| s@)),
{
    let n: usize = parts.len();
    let mut out = String::new();
    let mut i: usize = 0;
    while i < n
        invariant
            i <= n,
            n == parts@.len(),
            out@ == concat_spec(parts@.map(|j: int, s: String| s@).take(i as int)),
        decreases n - i,
    {
        out.append(parts[i].as_str());
        proof {
            let all = parts@.map(|j: int, s: String| s@);
            assert(all.take(i + 1 as int).drop_last() =~= all.take(i as int));
            assert(all.take(i + 1 as int).last() == parts@[i as int]@);
        }
        i += 1;
    }
    proof {
        assert(parts@.map(|j: int, s: String| s@).take(n as int) =~= parts@.map(
            |j: int, s: String| s@,
        ));
    }
    out
}

} // verus!
