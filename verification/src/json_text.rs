//! JSON string-literal escaping and scanning, with proofs that unescaping
//! inverts escaping and that an escape-aware scan finds the closing quote of
//! an escaped region. This underpins the action-log codec.

use vstd::prelude::*;

use crate::text::push_char;

verus! {

/// A control character, which JSON forbids raw inside string literals.
pub open spec fn is_ctrl(c: char) -> bool {
    (c as u32) < 32
}

/// The lower-case hexadecimal digit for `d`.
pub open spec fn hex_digit(d: nat) -> char {
    if d == 0 {
        '0'
    } else if d == 1 {
        '1'
    } else if d == 2 {
        '2'
    } else if d == 3 {
        '3'
    } else if d == 4 {
        '4'
    } else if d == 5 {
        '5'
    } else if d == 6 {
        '6'
    } else if d == 7 {
        '7'
    } else if d == 8 {
        '8'
    } else if d == 9 {
        '9'
    } else if d == 10 {
        'a'
    } else if d == 11 {
        'b'
    } else if d == 12 {
        'c'
    } else if d == 13 {
        'd'
    } else if d == 14 {
        'e'
    } else {
        'f'
    }
}

/// Whether `c` is a lower-case hexadecimal digit.
pub open spec fn is_hex(c: char) -> bool {
    c == '0' || c == '1' || c == '2' || c == '3' || c == '4' || c == '5' || c == '6' || c == '7'
        || c == '8' || c == '9' || c == 'a' || c == 'b' || c == 'c' || c == 'd' || c == 'e'
        || c == 'f'
}

/// The value of a lower-case hexadecimal digit.
pub open spec fn hex_val(c: char) -> nat {
    if c == '0' {
        0
    } else if c == '1' {
        1
    } else if c == '2' {
        2
    } else if c == '3' {
        3
    } else if c == '4' {
        4
    } else if c == '5' {
        5
    } else if c == '6' {
        6
    } else if c == '7' {
        7
    } else if c == '8' {
        8
    } else if c == '9' {
        9
    } else if c == 'a' {
        10
    } else if c == 'b' {
        11
    } else if c == 'c' {
        12
    } else if c == 'd' {
        13
    } else if c == 'e' {
        14
    } else {
        15
    }
}

/// The escape of one character inside a JSON string literal: quote and
/// backslash get a backslash escape, control characters a `\u00XX` escape,
/// every other character stands for itself.
pub open spec fn esc_char(c: char) -> Seq<char> {
    if c == '"' {
        seq!['\\', '"']
    } else if c == '\\' {
        seq!['\\', '\\']
    } else if is_ctrl(c) {
        seq!['\\', 'u', '0', '0', hex_digit((c as u32 / 16) as nat), hex_digit(
            (c as u32 % 16) as nat,
        )]
    } else {
        seq![c]
    }
}

/// The escaped form of a whole string.
pub open spec fn esc(s: Seq<char>) -> Seq<char>
    decreases s.len(),
{
    if s.len() == 0 {
        Seq::empty()
    } else {
        esc_char(s[0]) + esc(s.drop_first())
    }
}

/// The characters of `s` as a JSON string literal, quotes included.
pub open spec fn json_quoted(s: Seq<char>) -> Seq<char> {
    seq!['"'] + esc(s) + seq!['"']
}

pub open spec fn opt_cons(c: char, r: Option<Seq<char>>) -> Option<Seq<char>> {
    match r {
        Some(t) => Some(seq![c] + t),
        None => None,
    }
}

/// Unescaping: the partial inverse of [`esc`]. `None` on a malformed escape.
pub open spec fn unesc(s: Seq<char>) -> Option<Seq<char>>
    decreases s.len(),
{
    if s.len() == 0 {
        Some(Seq::empty())
    } else if s[0] != '\\' {
        opt_cons(s[0], unesc(s.drop_first()))
    } else if s.len() >= 2 && s[1] == '"' {
        opt_cons('"', unesc(s.skip(2)))
    } else if s.len() >= 2 && s[1] == '\\' {
        opt_cons('\\', unesc(s.skip(2)))
    } else if s.len() >= 6 && s[1] == 'u' && s[2] == '0' && s[3] == '0' && is_hex(s[4]) && is_hex(
        s[5],
    ) {
        opt_cons(((16 * hex_val(s[4]) + hex_val(s[5])) as u32) as char, unesc(s.skip(6)))
    } else {
        None
    }
}

pub open spec fn opt_add(r: Option<int>, k: int) -> Option<int> {
    match r {
        Some(i) => Some(i + k),
        None => None,
    }
}

/// The index of the closing quote of a JSON string literal body: the first
/// unescaped `"` in `s`, skipping over backslash escapes.
pub open spec fn find_end(s: Seq<char>) -> Option<int>
    decreases s.len(),
{
    if s.len() == 0 {
        None
    } else if s[0] == '"' {
        Some(0)
    } else if s[0] == '\\' {
        if s.len() >= 2 {
            opt_add(find_end(s.skip(2)), 2)
        } else {
            None
        }
    } else {
        opt_add(find_end(s.skip(1)), 1)
    }
}

/// Escaping distributes over appending one character.
pub proof fn lemma_esc_snoc(s: Seq<char>, c: char)
    ensures
        esc(s.push(c)) == esc(s) + esc_char(c),
    decreases s.len(),
{
    assert(s.push(c).len() == s.len() + 1);
    assert(esc(s.push(c)) == esc_char(s.push(c)[0]) + esc(s.push(c).drop_first()));
    if s.len() == 0 {
        assert(s.push(c)[0] == c);
        assert(s.push(c).drop_first() =~= Seq::<char>::empty());
        assert(esc(s.push(c).drop_first()) == Seq::<char>::empty());
        assert(esc(s.push(c)) =~= esc(s) + esc_char(c));
    } else {
        assert(s.push(c)[0] == s[0]);
        assert(s.push(c).drop_first() =~= s.drop_first().push(c));
        lemma_esc_snoc(s.drop_first(), c);
        assert(esc(s.push(c)) == esc_char(s[0]) + (esc(s.drop_first()) + esc_char(c)));
        assert(esc(s.push(c)) =~= (esc_char(s[0]) + esc(s.drop_first())) + esc_char(c));
        assert(esc(s.push(c)) =~= esc(s) + esc_char(c));
    }
}

/// Unescaping inverts escaping.
pub proof fn lemma_unesc_esc(s: Seq<char>)
    ensures
        unesc(esc(s)) == Some(s),
    decreases s.len(),
{
    broadcast use vstd::utf8::char_u32_cast;

    if s.len() == 0 {
        assert(unesc(esc(s)) == Some(Seq::<char>::empty()));
        assert(s =~= Seq::<char>::empty());
    } else {
        let c = s[0];
        let rest = s.drop_first();
        let e = esc(rest);
        lemma_unesc_esc(rest);
        let w = esc(s);
        assert(w == esc_char(c) + e);
        if c == '"' {
            assert(w.skip(2) =~= e);
            assert(unesc(w) == opt_cons('"', unesc(e)));
            assert(seq!['"'] + rest =~= s);
        } else if c == '\\' {
            assert(w.skip(2) =~= e);
            assert(seq!['\\'] + rest =~= s);
        } else if is_ctrl(c) {
            let hi = (c as u32 / 16) as nat;
            let lo = (c as u32 % 16) as nat;
            assert(w[0] == '\\' && w[1] == 'u' && w[2] == '0' && w[3] == '0');
            assert(w[4] == hex_digit(hi) && w[5] == hex_digit(lo));
            assert(is_hex(hex_digit(hi)) && hex_val(hex_digit(hi)) == hi);
            assert(is_hex(hex_digit(lo)) && hex_val(hex_digit(lo)) == lo);
            assert(w.skip(6) =~= e);
            assert(16 * hi + lo == c as u32);
            assert(((16 * hex_val(w[4]) + hex_val(w[5])) as u32) == c as u32);
            vstd::utf8::char_u32_cast(c, c as u32);
            assert(((c as u32) as char) == c);
            assert(seq![c] + rest =~= s);
        } else {
            assert(w[0] == c && c != '\\');
            assert(w.drop_first() =~= e);
            assert(seq![c] + rest =~= s);
        }
    }
}

/// In `esc(s) + '"' + t`, the first unescaped quote is the one written after
/// `esc(s)`: an escape-aware scan recovers the region boundary.
pub proof fn lemma_find_end_esc(s: Seq<char>, t: Seq<char>)
    ensures
        find_end(esc(s) + seq!['"'] + t) == Some(esc(s).len() as int),
    decreases s.len(),
{
    if s.len() == 0 {
        let w = esc(s) + seq!['"'] + t;
        assert(w[0] == '"');
    } else {
        let c = s[0];
        let rest = s.drop_first();
        lemma_find_end_esc(rest, t);
        let inner = esc(rest) + seq!['"'] + t;
        let w = esc(s) + seq!['"'] + t;
        assert(esc(s) == esc_char(c) + esc(rest));
        if c == '"' || c == '\\' {
            assert(w[0] == '\\');
            assert(w.len() >= 2);
            assert(w.skip(2) =~= inner);
            assert(find_end(w) == opt_add(find_end(inner), 2));
        } else if is_ctrl(c) {
            assert(w[0] == '\\');
            assert(w.len() >= 6);
            assert(w.skip(2) =~= seq!['0', '0', hex_digit((c as u32 / 16) as nat), hex_digit(
                (c as u32 % 16) as nat,
            )] + inner);
            let w2 = w.skip(2);
            assert(w2[0] == '0' && w2[0] != '"' && w2[0] != '\\');
            assert(w2.skip(1) =~= seq!['0', hex_digit((c as u32 / 16) as nat), hex_digit(
                (c as u32 % 16) as nat,
            )] + inner);
            let w3 = w2.skip(1);
            assert(w3[0] == '0' && w3[0] != '"' && w3[0] != '\\');
            assert(w3.skip(1) =~= seq![hex_digit((c as u32 / 16) as nat), hex_digit(
                (c as u32 % 16) as nat,
            )] + inner);
            let w4 = w3.skip(1);
            assert(!is_hex('"') && !is_hex('\\'));
            assert(w4[0] != '"' && w4[0] != '\\');
            assert(w4.skip(1) =~= seq![hex_digit((c as u32 % 16) as nat)] + inner);
            let w5 = w4.skip(1);
            assert(w5[0] != '"' && w5[0] != '\\');
            assert(w5.skip(1) =~= inner);
            assert(find_end(w5) == opt_add(find_end(inner), 1));
            assert(find_end(w4) == opt_add(find_end(inner), 2));
            assert(find_end(w3) == opt_add(find_end(inner), 3));
            assert(find_end(w2) == opt_add(find_end(inner), 4));
            assert(find_end(w) == opt_add(find_end(inner), 6));
        } else {
            assert(w[0] == c && c != '"' && c != '\\');
            assert(w.skip(1) =~= inner);
            assert(find_end(w) == opt_add(find_end(inner), 1));
        }
    }
}

fn hex_digit_exec(d: u32) -> (c: char)
    requires
        d < 16,
    ensures
        c == hex_digit(d as nat),
{
    if d == 0 {
        '0'
    } else if d == 1 {
        '1'
    } else if d == 2 {
        '2'
    } else if d == 3 {
        '3'
    } else if d == 4 {
        '4'
    } else if d == 5 {
        '5'
    } else if d == 6 {
        '6'
    } else if d == 7 {
        '7'
    } else if d == 8 {
        '8'
    } else if d == 9 {
        '9'
    } else if d == 10 {
        'a'
    } else if d == 11 {
        'b'
    } else if d == 12 {
        'c'
    } else if d == 13 {
        'd'
    } else if d == 14 {
        'e'
    } else {
        'f'
    }
}

fn hex_val_exec(c: char) -> (r: Option<u32>)
    ensures
        match r {
            Some(v) => is_hex(c) && v == hex_val(c),
            None => !is_hex(c),
        },
{
    if c == '0' {
        Some(0)
    } else if c == '1' {
        Some(1)
    } else if c == '2' {
        Some(2)
    } else if c == '3' {
        Some(3)
    } else if c == '4' {
        Some(4)
    } else if c == '5' {
        Some(5)
    } else if c == '6' {
        Some(6)
    } else if c == '7' {
        Some(7)
    } else if c == '8' {
        Some(8)
    } else if c == '9' {
        Some(9)
    } else if c == 'a' {
        Some(10)
    } else if c == 'b' {
        Some(11)
    } else if c == 'c' {
        Some(12)
    } else if c == 'd' {
        Some(13)
    } else if c == 'e' {
        Some(14)
    } else if c == 'f' {
        Some(15)
    } else {
        None
    }
}

/// Appends the escaped form of `s` to `out`.
pub fn push_escaped(out: &mut String, s: &str)
    ensures
        final(out)@ == old(out)@ + esc(s@),
{
    let cs = crate::text::str_chars(s);
    let n: usize = cs.len();
    let mut i: usize = 0;
    while i < n
        invariant
            i <= n,
            n == cs.len(),
            cs@ == s@,
            out@ == old(out)@ + esc(s@.subrange(0, i as int)),
        decreases n - i,
    {
        let c = cs[i];
        let code = c as u32;
        if c == '"' {
            push_char(out, '\\');
            push_char(out, '"');
        } else if c == '\\' {
            push_char(out, '\\');
            push_char(out, '\\');
        } else if code < 32 {
            push_char(out, '\\');
            push_char(out, 'u');
            push_char(out, '0');
            push_char(out, '0');
            push_char(out, hex_digit_exec(code / 16));
            push_char(out, hex_digit_exec(code % 16));
        } else {
            push_char(out, c);
        }
        proof {
            lemma_esc_snoc(s@.subrange(0, i as int), c);
            assert(s@.subrange(0, i + 1 as int) =~= s@.subrange(0, i as int).push(c));
            assert(out@ =~= old(out)@ + esc(s@.subrange(0, i + 1 as int)));
        }
        i += 1;
    }
    proof {
        assert(s@.subrange(0, n as int) =~= s@);
    }
}

/// Appends `s` as a JSON string literal (quotes and escapes) to `out`.
pub fn push_json_string(out: &mut String, s: &str)
    ensures
        final(out)@ == old(out)@ + json_quoted(s@),
{
    push_char(out, '"');
    push_escaped(out, s);
    push_char(out, '"');
    assert(out@ =~= old(out)@ + json_quoted(s@));
}

/// Unescapes the region `v[from..to]`, the body of a JSON string literal.
pub fn unescape_region(v: &Vec<char>, from: usize, to: usize) -> (r: Option<String>)
    requires
        from <= to <= v@.len(),
    ensures
        match r {
            Some(t) => unesc(v@.subrange(from as int, to as int)) == Some(t@),
            None => unesc(v@.subrange(from as int, to as int)) is None,
        },
{
    let ghost w = v@.subrange(from as int, to as int);
    let mut out = String::new();
    let mut i: usize = from;
    while i < to
        invariant
            from <= i <= to <= v@.len(),
            w == v@.subrange(from as int, to as int),
            unesc(w) == match unesc(v@.subrange(i as int, to as int)) {
                Some(t) => Some(out@ + t),
                None => None::<Seq<char>>,
            },
        decreases to - i,
    {
        let ghost pre = out@;
        let ghost cur = v@.subrange(i as int, to as int);
        let c = v[i];
        assert(cur[0] == c);
        if c != '\\' {
            push_char(&mut out, c);
            proof {
                assert(cur.drop_first() =~= v@.subrange(i + 1 as int, to as int));
                assert(unesc(cur) == opt_cons(c, unesc(cur.drop_first())));
                assert forall|t: Seq<char>|
                    unesc(v@.subrange(i + 1 as int, to as int)) == Some(t) implies pre + (seq![c]
                    + t) =~= out@ + t by {}
            }
            i += 1;
        } else {
            if to - i < 2 {
                proof {
                    assert(unesc(cur) is None);
                }
                return None;
            }
            let d = v[i + 1];
            assert(cur.len() >= 2 && cur[1] == d);
            if d == '"' || d == '\\' {
                push_char(&mut out, d);
                proof {
                    assert(cur.skip(2) =~= v@.subrange(i + 2 as int, to as int));
                    assert(unesc(cur) == opt_cons(d, unesc(cur.skip(2))));
                    assert forall|t: Seq<char>|
                        unesc(v@.subrange(i + 2 as int, to as int)) == Some(t) implies pre + (
                    seq![d] + t) =~= out@ + t by {}
                }
                i += 2;
            } else if d == 'u' {
                if to - i < 6 {
                    proof {
                        assert(unesc(cur) is None);
                    }
                    return None;
                }
                if v[i + 2] != '0' || v[i + 3] != '0' {
                    proof {
                        assert(cur[2] == v@[i + 2] && cur[3] == v@[i + 3]);
                        assert(unesc(cur) is None);
                    }
                    return None;
                }
                let h1 = hex_val_exec(v[i + 4]);
                let h2 = hex_val_exec(v[i + 5]);
                assert(cur[2] == '0' && cur[3] == '0');
                assert(cur[4] == v@[i + 4] && cur[5] == v@[i + 5]);
                match (h1, h2) {
                    (Some(a), Some(b)) => {
                        let code: u32 = 16 * a + b;
                        assert(code < 256);
                        let ch = char_from_code(code);
                        push_char(&mut out, ch);
                        proof {
                            assert(cur.skip(6) =~= v@.subrange(i + 6 as int, to as int));
                            assert(unesc(cur) == opt_cons(
                                ((16 * hex_val(cur[4]) + hex_val(cur[5])) as u32) as char,
                                unesc(cur.skip(6)),
                            ));
                            assert(((16 * hex_val(cur[4]) + hex_val(cur[5])) as u32) == code);
                            assert forall|t: Seq<char>|
                                unesc(v@.subrange(i + 6 as int, to as int)) == Some(t) implies pre
                                + (seq![ch] + t) =~= out@ + t by {}
                        }
                        i += 6;
                    },
                    _ => {
                        proof {
                            assert(unesc(cur) is None);
                        }
                        return None;
                    },
                }
            } else {
                proof {
                    assert(unesc(cur) is None);
                }
                return None;
            }
        }
    }
    proof {
        assert(v@.subrange(i as int, to as int) =~= Seq::<char>::empty());
        assert(unesc(v@.subrange(i as int, to as int)) == Some(Seq::<char>::empty()));
        assert(unesc(w) == Some(out@ + Seq::<char>::empty()));
        assert(out@ + Seq::<char>::empty() =~= out@);
    }
    Some(out)
}

fn char_from_code(code: u32) -> (c: char)
    requires
        code < 256,
    ensures
        c as u32 == code,
{
    (code as u8) as char
}

/// Finds the closing quote of a string-literal body in `v`, scanning from
/// `from` and skipping backslash escapes; returns its index.
pub fn scan_string_end(v: &Vec<char>, from: usize) -> (r: Option<usize>)
    requires
        from <= v@.len(),
    ensures
        match r {
            Some(j) => from <= j < v@.len() && find_end(v@.skip(from as int)) == Some(
                j - from as int,
            ),
            None => find_end(v@.skip(from as int)) is None,
        },
{
    let n: usize = v.len();
    let mut i: usize = from;
    while i < n
        invariant
            from <= i <= n,
            n == v@.len(),
            find_end(v@.skip(from as int)) == opt_add(
                find_end(v@.skip(i as int)),
                i - from as int,
            ),
        decreases n - i,
    {
        let ghost cur = v@.skip(i as int);
        let c = v[i];
        assert(cur[0] == c);
        if c == '"' {
            proof {
                assert(find_end(cur) == Some(0int));
            }
            return Some(i);
        } else if c == '\\' {
            if n - i < 2 {
                proof {
                    assert(cur.len() == 1);
                    assert(find_end(cur) is None);
                }
                return None;
            }
            proof {
                assert(cur.skip(2) =~= v@.skip(i + 2 as int));
                assert(find_end(cur) == opt_add(find_end(v@.skip(i + 2 as int)), 2));
            }
            i += 2;
        } else {
            proof {
                assert(cur.skip(1) =~= v@.skip(i + 1 as int));
                assert(find_end(cur) == opt_add(find_end(v@.skip(i + 1 as int)), 1));
            }
            i += 1;
        }
    }
    proof {
        assert(v@.skip(i as int) =~= Seq::<char>::empty());
        assert(find_end(v@.skip(i as int)) is None);
    }
    None
}

} // verus!
