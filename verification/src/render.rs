//! Rendering a JSON value as text: the exact character sequence is
//! specified, so the encoded payload is pinned byte for byte.

use vstd::prelude::*;
use crate::json::{JsonV, JsonValue};
use crate::text::{dec_int, chars_to_string, i64_to_chars};

verus! {

broadcast use
    vstd::std_specs::vec::group_vec_axioms,
    vstd::seq::group_seq_axioms,
    vstd::string::group_string_axioms,
;

/// The lower-case hexadecimal digit character for `d` (0 to 15).
pub open spec fn hex_char(d: int) -> char {
    if d < 10 {
        ((48 + d) as u8) as char
    } else {
        ((87 + d) as u8) as char
    }
}

/// How one character appears inside a JSON string: quotes and
/// backslashes take a two-character escape, the named control characters
/// their short escapes, the remaining control characters a hexadecimal
/// escape, and everything else stands for itself.
pub open spec fn esc_char(c: char) -> Seq<char> {
    if c == '"' {
        seq!['\\', '"']
    } else if c == '\\' {
        seq!['\\', '\\']
    } else if c == '\u{8}' {
        seq!['\\', 'b']
    } else if c == '\u{c}' {
        seq!['\\', 'f']
    } else if c == '\n' {
        seq!['\\', 'n']
    } else if c == '\r' {
        seq!['\\', 'r']
    } else if c == '\t' {
        seq!['\\', 't']
    } else if (c as int) < 32 {
        seq!['\\', 'u', '0', '0', hex_char(c as int / 16), hex_char(c as int % 16)]
    } else {
        seq![c]
    }
}

/// The characters of a string's content, escaped.
pub open spec fn esc_str(s: Seq<char>) -> Seq<char>
    decreases s.len(),
{
    if s.len() == 0 {
        Seq::empty()
    } else {
        esc_str(s.drop_last()) + esc_char(s.last())
    }
}

/// A JSON string: the escaped content between quotes.
pub open spec fn render_str(s: Seq<char>) -> Seq<char> {
    seq!['"'] + esc_str(s) + seq!['"']
}

/// The text of a JSON value, with no whitespace.
pub open spec fn render(v: JsonV) -> Seq<char>
    decreases v,
{
    match v {
        JsonV::Null => seq!['n', 'u', 'l', 'l'],
        JsonV::Bool(b) => if b {
            seq!['t', 'r', 'u', 'e']
        } else {
            seq!['f', 'a', 'l', 's', 'e']
        },
        JsonV::Int(n) => dec_int(n),
        JsonV::Str(s) => render_str(s),
        JsonV::Arr(vs) => seq!['['] + render_elems(vs) + seq![']'],
        JsonV::Obj(ps) => seq!['{'] + render_members(ps) + seq!['}'],
    }
}

/// The comma-separated elements of an array.
pub open spec fn render_elems(vs: Seq<JsonV>) -> Seq<char>
    decreases vs,
{
    if vs.len() == 0 {
        Seq::empty()
    } else if vs.len() == 1 {
        render(vs.last())
    } else {
        render_elems(vs.drop_last()) + seq![','] + render(vs.last())
    }
}

/// The comma-separated members of an object, each a quoted key, a colon
/// and a value.
pub open spec fn render_members(ps: Seq<(Seq<char>, JsonV)>) -> Seq<char>
    decreases ps,
{
    if ps.len() == 0 {
        Seq::empty()
    } else if ps.len() == 1 {
        render_member(ps.last())
    } else {
        render_members(ps.drop_last()) + seq![','] + render_member(ps.last())
    }
}

/// One member of an object.
pub open spec fn render_member(p: (Seq<char>, JsonV)) -> Seq<char>
    decreases p,
{
    render_str(p.0) + seq![':'] + render(p.1)
}

/// Appends one escaped character.
fn emit_escaped(c: char, out: &mut Vec<char>)
    ensures
        final(out)@ == old(out)@ + esc_char(c),
{
    let ghost pre = out@;
    if c == '"' {
        out.push('\\');
        out.push('"');
    } else if c == '\\' {
        out.push('\\');
        out.push('\\');
    } else if c == '\u{8}' {
        out.push('\\');
        out.push('b');
    } else if c == '\u{c}' {
        out.push('\\');
        out.push('f');
    } else if c == '\n' {
        out.push('\\');
        out.push('n');
    } else if c == '\r' {
        out.push('\\');
        out.push('r');
    } else if c == '\t' {
        out.push('\\');
        out.push('t');
    } else if (c as u32) < 32 {
        out.push('\\');
        out.push('u');
        out.push('0');
        out.push('0');
        let hi: u32 = (c as u32) / 16;
        let lo: u32 = (c as u32) % 16;
        let hic: char = if hi < 10 {
            ((48 + hi) as u8) as char
        } else {
            ((87 + hi) as u8) as char
        };
        let loc: char = if lo < 10 {
            ((48 + lo) as u8) as char
        } else {
            ((87 + lo) as u8) as char
        };
        out.push(hic);
        out.push(loc);
        proof {
            assert(hic == hex_char(c as int / 16));
            assert(loc == hex_char(c as int % 16));
        }
    } else {
        out.push(c);
    }
    proof {
        assert(out@ =~= pre + esc_char(c));
    }
}

/// Appends a quoted, escaped JSON string.
fn emit_string(s: &Vec<char>, out: &mut Vec<char>)
    ensures
        final(out)@ == old(out)@ + render_str(s@),
{
    let ghost pre = out@;
    out.push('"');
    let mut i: usize = 0;
    while i < s.len()
        invariant
            i <= s@.len(),
            out@ == pre + seq!['"'] + esc_str(s@.take(i as int)),
        decreases s@.len() - i,
    {
        emit_escaped(s[i], out);
        proof {
            assert(s@.take(i + 1).drop_last() =~= s@.take(i as int));
            assert(s@.take(i + 1).last() == s@[i as int]);
            assert(out@ =~= pre + seq!['"'] + esc_str(s@.take(i + 1)));
        }
        i = i + 1;
    }
    out.push('"');
    proof {
        assert(s@.take(s@.len() as int) =~= s@);
        assert(out@ =~= pre + render_str(s@));
    }
}

/// Appends the text of a JSON value.
pub fn emit_value(v: &JsonValue, out: &mut Vec<char>)
    ensures
        final(out)@ == old(out)@ + render(v@),
    decreases *v,
{
    let ghost pre = out@;
    match v {
        JsonValue::Null => {
            out.push('n');
            out.push('u');
            out.push('l');
            out.push('l');
            proof {
                assert(out@ =~= pre + render(v@));
            }
        },
        JsonValue::Bool(b) => {
            if *b {
                out.push('t');
                out.push('r');
                out.push('u');
                out.push('e');
            } else {
                out.push('f');
                out.push('a');
                out.push('l');
                out.push('s');
                out.push('e');
            }
            proof {
                assert(out@ =~= pre + render(v@));
            }
        },
        JsonValue::Int(n) => {
            let mut digits = i64_to_chars(*n);
            out.append(&mut digits);
            proof {
                assert(out@ =~= pre + render(v@));
            }
        },
        JsonValue::Str(s) => {
            let chars = crate::text::str_to_chars(s.as_str());
            emit_string(&chars, out);
            proof {
                assert(out@ =~= pre + render(v@));
            }
        },
        JsonValue::Arr(vs) => {
            out.push('[');
            emit_elems(vs, out);
            out.push(']');
            proof {
                assert(out@ =~= pre + render(v@));
            }
        },
        JsonValue::Obj(ps) => {
            out.push('{');
            emit_members(ps, out);
            out.push('}');
            proof {
                assert(out@ =~= pre + render(v@));
            }
        },
    }
}


/// Appends the comma-separated elements of an array.
fn emit_elems(vs: &Vec<JsonValue>, out: &mut Vec<char>)
    ensures
        final(out)@ == old(out)@ + render_elems(crate::json::model_arr(vs@)),
    decreases *vs,
{
    let ghost vsv = crate::json::model_arr(vs@);
    proof {
        crate::json::lemma_model_arr(vs@);
        assert(vsv.take(0) =~= Seq::<JsonV>::empty());
    }
    let ghost pre = out@;
    let mut i: usize = 0;
    while i < vs.len()
        invariant
            i <= vs@.len(),
            vsv == crate::json::model_arr(vs@),
            vsv.len() == vs@.len(),
            forall|j: int| 0 <= j < vs@.len() ==> #[trigger] vsv[j] == vs@[j]@,
            out@ == pre + render_elems(vsv.take(i as int)),
        decreases vs@.len() - i,
    {
        if i > 0 {
            out.push(',');
        }
        emit_value(&vs[i], out);
        proof {
            assert(vsv.take(i + 1).drop_last() =~= vsv.take(i as int));
            assert(vsv.take(i + 1).last() == vsv[i as int]);
            if i == 0 {
                assert(render_elems(vsv.take(0)) =~= Seq::<char>::empty());
                assert(out@ =~= pre + render_elems(vsv.take(1)));
            } else {
                assert(out@ =~= pre + render_elems(vsv.take(i + 1)));
            }
        }
        i = i + 1;
    }
    proof {
        assert(vsv.take(vs@.len() as int) =~= vsv);
    }
}

/// Appends the comma-separated members of an object.
fn emit_members(ps: &Vec<(String, JsonValue)>, out: &mut Vec<char>)
    ensures
        final(out)@ == old(out)@ + render_members(crate::json::model_obj(ps@)),
    decreases *ps,
{
    let ghost psv = crate::json::model_obj(ps@);
    proof {
        crate::json::lemma_model_obj(ps@);
        assert(psv.take(0) =~= Seq::<(Seq<char>, JsonV)>::empty());
    }
    let ghost pre = out@;
    let mut i: usize = 0;
    while i < ps.len()
        invariant
            i <= ps@.len(),
            psv == crate::json::model_obj(ps@),
            psv.len() == ps@.len(),
            forall|j: int| 0 <= j < ps@.len() ==> #[trigger] psv[j] == (ps@[j].0@, ps@[j].1@),
            out@ == pre + render_members(psv.take(i as int)),
        decreases ps@.len() - i,
    {
        if i > 0 {
            out.push(',');
        }
        let kchars = crate::text::str_to_chars(ps[i].0.as_str());
        emit_string(&kchars, out);
        out.push(':');
        emit_value(&ps[i].1, out);
        proof {
            assert(psv.take(i + 1).drop_last() =~= psv.take(i as int));
            assert(psv.take(i + 1).last() == psv[i as int]);
            assert(render_member(psv[i as int]) =~= render_str(psv[i as int].0) + seq![':'] + render(psv[i as int].1));
            if i == 0 {
                assert(render_members(psv.take(0)) =~= Seq::<char>::empty());
                assert(out@ =~= pre + render_members(psv.take(1)));
            } else {
                assert(out@ =~= pre + render_members(psv.take(i + 1)));
            }
        }
        i = i + 1;
    }
    proof {
        assert(psv.take(ps@.len() as int) =~= psv);
    }
}

/// The text of a JSON value, as a string.
pub fn json_to_string(v: &JsonValue) -> (r: String)
    ensures
        r@ == render(v@),
{
    let mut out: Vec<char> = Vec::new();
    emit_value(v, &mut out);
    chars_to_string(&out)
}

} // verus!
