//! The action-log format: a JSON object `{"tool_id": <id>, "tools": <batch>}`
//! carrying the tool-call id and the raw tool-call batch JSON of one action.
//! The encoder and parser are exact inverses (see [`lemma_log_round_trip`]).

use vstd::prelude::*;

use crate::json_text::{
    esc, find_end, json_quoted, lemma_find_end_esc, lemma_unesc_esc, scan_string_end, unesc,
    unescape_region,
};
use crate::text::push_char;

verus! {

/// The opening of the log object, up to the colon of the `tool_id` key.
pub open spec fn log_key_head() -> Seq<char> {
    seq!['{', '"', 't', 'o', 'o', 'l', '_', 'i', 'd', '"', ':']
}

/// The separator between the `tool_id` value and the `tools` key.
pub open spec fn log_sep() -> Seq<char> {
    seq![',', '"', 't', 'o', 'o', 'l', 's', '"', ':']
}

/// The rendered log object for a tool-call id and a batch payload.
pub open spec fn log_json(id: Seq<char>, tools: Seq<char>) -> Seq<char> {
    log_key_head() + json_quoted(id) + log_sep() + json_quoted(tools) + seq!['}']
}

/// Parses a rendered log object back into the id and the batch payload.
pub open spec fn spec_parse_log(s: Seq<char>) -> Option<(Seq<char>, Seq<char>)> {
    if s.len() >= 12 && s.subrange(0, 12) == log_key_head() + seq!['"'] {
        match find_end(s.skip(12)) {
            Some(k) => {
                let sep_to = 12 + k + 11;
                if sep_to <= s.len() && s.subrange(12 + k, sep_to) == seq!['"'] + log_sep()
                    + seq!['"'] {
                    match find_end(s.skip(sep_to)) {
                        Some(m) => {
                            if sep_to + m + 2 == s.len() && s[s.len() - 1] == '}' {
                                match (unesc(s.subrange(12, 12 + k)), unesc(
                                    s.subrange(sep_to, sep_to + m),
                                )) {
                                    (Some(id), Some(tools)) => Some((id, tools)),
                                    _ => None,
                                }
                            } else {
                                None
                            }
                        },
                        None => None,
                    }
                } else {
                    None
                }
            },
            None => None,
        }
    } else {
        None
    }
}

/// Law: parsing a log written by the encoder recovers exactly the id and the
/// batch payload that were encoded.
pub proof fn lemma_log_round_trip(id: Seq<char>, tools: Seq<char>)
    ensures
        spec_parse_log(log_json(id, tools)) == Some((id, tools)),
{
    let s = log_json(id, tools);
    let k = esc(id).len() as int;
    let m = esc(tools).len() as int;
    let sep_to = 12 + k + 11;

    assert(s.len() == 11 + (k + 2) + 9 + (m + 2) + 1);
    assert(s.subrange(0, 12) =~= log_key_head() + seq!['"']);

    let t1 = log_sep() + json_quoted(tools) + seq!['}'];
    assert(s.skip(12) =~= esc(id) + seq!['"'] + t1);
    lemma_find_end_esc(id, t1);
    assert(find_end(s.skip(12)) == Some(k));

    assert(s.subrange(12 + k, sep_to) =~= seq!['"'] + log_sep() + seq!['"']);

    assert(s.skip(sep_to) =~= esc(tools) + seq!['"'] + seq!['}']);
    lemma_find_end_esc(tools, seq!['}']);
    assert(find_end(s.skip(sep_to)) == Some(m));

    assert(sep_to + m + 2 == s.len());
    assert(s[s.len() - 1] == '}');

    assert(s.subrange(12, 12 + k) =~= esc(id));
    assert(s.subrange(sep_to, sep_to + m) =~= esc(tools));
    lemma_unesc_esc(id);
    lemma_unesc_esc(tools);
}

/// Renders the log object for `id` and `tools`.
pub fn encode_log(id: &str, tools: &str) -> (r: String)
    ensures
        r@ == log_json(id@, tools@),
{
    let mut out = String::new();
    let head = "{\"tool_id\":";
    proof {
        reveal_strlit("{\"tool_id\":");
        assert(head@ =~= log_key_head());
    }
    out.append(head);
    crate::json_text::push_json_string(&mut out, id);
    let sep = ",\"tools\":";
    proof {
        reveal_strlit(",\"tools\":");
        assert(sep@ =~= log_sep());
    }
    out.append(sep);
    crate::json_text::push_json_string(&mut out, tools);
    push_char(&mut out, '}');
    proof {
        assert(out@ =~= log_json(id@, tools@));
    }
    out
}

/// True when `v[at .. at + pat.len()]` equals `pat`.
fn chars_match(v: &Vec<char>, at: usize, pat: &Vec<char>) -> (r: bool)
    requires
        at <= v@.len(),
        pat@.len() <= v@.len() - at,
    ensures
        r == (v@.subrange(at as int, at + pat@.len()) == pat@),
{
    let vn: usize = v.len();
    let n: usize = pat.len();
    let mut j: usize = 0;
    while j < n
        invariant
            j <= n,
            n == pat@.len(),
            vn == v@.len(),
            at + n <= vn,
            forall|x: int| 0 <= x < j ==> v@[at + x] == pat@[x],
        decreases n - j,
    {
        if v[at + j] != pat[j] {
            proof {
                assert(v@.subrange(at as int, at + pat@.len())[j as int] != pat@[j as int]);
            }
            return false;
        }
        j += 1;
    }
    proof {
        assert(v@.subrange(at as int, at + pat@.len()) =~= pat@);
    }
    true
}

/// Parses a log object; `None` exactly when the text is not a rendering of
/// the log format.
pub fn parse_log(log: &str) -> (r: Option<(String, String)>)
    ensures
        match r {
            Some(p) => spec_parse_log(log@) == Some((p.0@, p.1@)),
            None => spec_parse_log(log@) is None,
        },
{
    let v = crate::text::str_chars(log);
    let n: usize = v.len();

    let hdr = crate::text::str_chars("{\"tool_id\":\"");
    proof {
        reveal_strlit("{\"tool_id\":\"");
        assert(hdr@ =~= log_key_head() + seq!['"']);
    }
    if n < 12 {
        return None;
    }
    if !chars_match(&v, 0, &hdr) {
        proof {
            assert(log@.subrange(0, 12) != log_key_head() + seq!['"']);
        }
        return None;
    }

    let j = match scan_string_end(&v, 12) {
        Some(j) => j,
        None => {
            return None;
        },
    };
    let ghost k = j - 12int;

    let sepq = crate::text::str_chars("\",\"tools\":\"");
    proof {
        reveal_strlit("\",\"tools\":\"");
        assert(sepq@ =~= seq!['"'] + log_sep() + seq!['"']);
    }
    if n - j < 11 {
        proof {
            assert(12 + k + 11 > log@.len());
        }
        return None;
    }
    if !chars_match(&v, j, &sepq) {
        proof {
            assert(log@.subrange(12 + k, 12 + k + 11) != seq!['"'] + log_sep() + seq!['"']);
        }
        return None;
    }

    let j2 = match scan_string_end(&v, j + 11) {
        Some(j2) => j2,
        None => {
            return None;
        },
    };
    let ghost m = j2 - (j + 11) as int;

    if n - j2 != 2 {
        return None;
    }
    if v[n - 1] != '}' {
        return None;
    }

    let id = match unescape_region(&v, 12, j) {
        Some(id) => id,
        None => {
            return None;
        },
    };
    let tools = match unescape_region(&v, j + 11, j2) {
        Some(t) => t,
        None => {
            return None;
        },
    };
    proof {
        assert(spec_parse_log(log@) == Some((id@, tools@)));
    }
    Some((id, tools))
}

} // verus!
