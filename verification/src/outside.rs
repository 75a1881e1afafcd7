//! Trusted declarations for the outside calls the logic relies on: JSON
//! canonicalization through serde_json and tool-call batch parsing through
//! langchain_rust's wire schema. Each result is a function of its text
//! argument alone and is given an uninterpreted name that the callers'
//! contracts are stated over.

use vstd::prelude::*;

verus! {

/// The canonical re-serialization of a JSON text: `Some` exactly when the
/// text is valid JSON.
pub uninterp spec fn json_canon_of(s: Seq<char>) -> Option<Seq<char>>;

/// Relies on `serde_json::from_str::<Value>` and `Value::to_string`: whether
/// a text parses as JSON, and the canonical text of the parsed value, depend
/// on the input text alone.
#[verifier::external_body]
pub fn canonicalize_json(s: &str) -> (r: Option<String>)
    ensures
        match r {
            Some(c) => json_canon_of(s@) == Some(c@),
            None => json_canon_of(s@) is None,
        },
{
    match serde_json::from_str::<serde_json::Value>(s) {
        Ok(v) => Some(v.to_string()),
        Err(_) => None,
    }
}

/// The canonical re-serialization of a JSON object text: `Some` exactly when
/// the text is a valid JSON object.
pub uninterp spec fn json_object_canon(s: Seq<char>) -> Option<Seq<char>>;

/// Relies on `serde_json::from_str::<Map<String, Value>>` and
/// `Value::to_string`: whether a text parses as a JSON object, and the
/// canonical text of the parsed object, depend on the input text alone.
#[verifier::external_body]
pub fn canonicalize_json_object(s: &str) -> (r: Option<String>)
    ensures
        match r {
            Some(c) => json_object_canon(s@) == Some(c@),
            None => json_object_canon(s@) is None,
        },
{
    match serde_json::from_str::<serde_json::Map<String, serde_json::Value>>(s) {
        Ok(m) => Some(serde_json::Value::Object(m).to_string()),
        Err(_) => None,
    }
}

/// One tool call recovered from a model-produced tool-call batch.
pub struct ToolCallParsed {
    pub id: String,
    pub name: String,
    pub arguments: String,
}

/// Mathematical view of a [`ToolCallParsed`]: id, name, arguments.
pub type ToolCallParsedM = (Seq<char>, Seq<char>, Seq<char>);

impl View for ToolCallParsed {
    type V = ToolCallParsedM;

    open spec fn view(&self) -> ToolCallParsedM {
        (self.id@, self.name@, self.arguments@)
    }
}

/// The tool-call batch a text parses to: `Some` exactly when the text is a
/// JSON array of tool calls, each with a string id, a type tag, and a
/// function object holding a name and an arguments string.
pub uninterp spec fn parsed_tool_calls(s: Seq<char>) -> Option<Seq<ToolCallParsedM>>;

/// Relies on `serde_json::from_str` for `Vec<FunctionCallResponse>` of
/// langchain_rust: whether a text parses as a tool-call batch, and the id,
/// name and arguments of each call, depend on the text alone.
#[verifier::external_body]
pub fn parse_tool_call_batch(s: &str) -> (r: Option<Vec<ToolCallParsed>>)
    ensures
        match r {
            Some(v) => parsed_tool_calls(s@) == Some(v@.map(|i: int, t: ToolCallParsed| t@)),
            None => parsed_tool_calls(s@) is None,
        },
{
    match serde_json::from_str::<Vec<langchain_rust::schemas::FunctionCallResponse>>(s) {
        Ok(v) => Some(
            v.into_iter().map(
                |f| ToolCallParsed { id: f.id, name: f.function.name, arguments: f.function.arguments },
            ).collect(),
        ),
        Err(_) => None,
    }
}

} // verus!
