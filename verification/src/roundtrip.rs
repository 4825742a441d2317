//! Parsing inverts rendering: reading back the exact text the emitter
//! produces yields the original value, which lifts the codec's
//! round-trip law from wire objects to wire text.

use vstd::prelude::*;
use crate::json::JsonV;
use crate::errors::DecodeErrorV;
use crate::render::{render, render_elems, render_members, render_member, render_str, esc_str, esc_char, hex_char};
use crate::parse::{sp_json, sp_ws, sp_value, sp_members, sp_elems, sp_string_body, sp_number, sp_digits_end, is_ws, hex_val, uescape_char};
use crate::text::{dec_nat, dec_int, is_digit, parse_capped, lemma_dec_nat};
use crate::status::status_wire;
use crate::action_type::action_type_wire;
use crate::port::enc_port;
use crate::leaseinfo::{LeaseInfo, enc_lease};
use crate::amazonmetadata::{AmazonMetaDataV, enc_amd};
use crate::datacenterinfo::{DataCenterInfoV, enc_dci};
use crate::metadata::enc_meta;
use crate::instance::{InstanceV, enc_instance};
use crate::laws::{instance_canonical, lemma_instance_round_trip};
use crate::wire::decoded_instance;

verus! {

broadcast use
    vstd::std_specs::vec::group_vec_axioms,
    vstd::seq::group_seq_axioms,
    vstd::string::group_string_axioms,
;

/// A value whose integers fit the signed 64-bit wire numbers: every
/// value built by the crate's encoders satisfies this.
pub open spec fn wf_json(v: JsonV) -> bool
    decreases v,
{
    match v {
        JsonV::Null => true,
        JsonV::Bool(_) => true,
        JsonV::Int(n) => i64::MIN <= n <= i64::MAX,
        JsonV::Str(_) => true,
        JsonV::Arr(vs) => forall|i: int| 0 <= i < vs.len() ==> wf_json(#[trigger] vs[i]),
        JsonV::Obj(ps) => forall|i: int| 0 <= i < ps.len() ==> wf_json((#[trigger] ps[i]).1),
    }
}

/// A character that cannot continue a number.
pub open spec fn num_delim(c: char) -> bool {
    !is_digit(c) && c != '.' && c != 'e' && c != 'E'
}

/// The text ends at `j`, or continues with something no number absorbs.
pub open spec fn delim_at(s: Seq<char>, j: int) -> bool {
    j == s.len() || (j < s.len() && num_delim(s[j]))
}

/// A character's codepoint is bounded by the Unicode range.
proof fn lemma_char_bounds(c: char)
    ensures
        0 <= c as int <= 0x10FFFF,
{
}

/// Rendered text is never empty.
pub proof fn lemma_render_nonempty(v: JsonV)
    ensures
        render(v).len() >= 1,
{
    match v {
        JsonV::Int(n) => {
            if n < 0 {
                lemma_dec_nat((-n) as nat);
            } else {
                lemma_dec_nat(n as nat);
            }
        },
        _ => {},
    }
}

/// Escaping distributes over concatenation.
pub proof fn lemma_esc_str_concat(a: Seq<char>, b: Seq<char>)
    ensures
        esc_str(a + b) == esc_str(a) + esc_str(b),
    decreases b.len(),
{
    if b.len() == 0 {
        assert(a + b =~= a);
        assert(esc_str(a) + esc_str(b) =~= esc_str(a));
    } else {
        assert((a + b).drop_last() =~= a + b.drop_last());
        assert((a + b).last() == b.last());
        lemma_esc_str_concat(a, b.drop_last());
        assert(esc_str(a) + esc_str(b.drop_last()) + esc_char(b.last()) =~= esc_str(a) + esc_str(
            b,
        ));
    }
}

/// Escaping reads off the front character first.
pub proof fn lemma_esc_str_front(t: Seq<char>)
    requires
        t.len() > 0,
    ensures
        esc_str(t) == esc_char(t[0]) + esc_str(t.drop_first()),
{
    assert(t =~= seq![t[0]] + t.drop_first());
    lemma_esc_str_concat(seq![t[0]], t.drop_first());
    let single = seq![t[0]];
    assert(single.drop_last() =~= Seq::<char>::empty());
    assert(single.last() == t[0]);
    assert(esc_str(single) == esc_str(Seq::<char>::empty()) + esc_char(t[0]));
    assert(esc_str(single) =~= esc_char(t[0]));
}

/// A digit run bounded by a non-digit ends exactly at the bound.
pub proof fn lemma_digits_end_exact(s: Seq<char>, i: int, j: int)
    requires
        0 <= i <= j <= s.len(),
        forall|k: int| i <= k < j ==> is_digit(#[trigger] s[k]),
        j == s.len() || !is_digit(s[j]),
    ensures
        sp_digits_end(s, i) == j,
    decreases j - i,
{
    if i < j {
        lemma_digits_end_exact(s, i + 1, j);
    }
}

/// Skipping whitespace from a non-whitespace character goes nowhere.
pub proof fn lemma_ws_stays(s: Seq<char>, i: int)
    requires
        0 <= i,
        i >= s.len() || !is_ws(s[i]),
    ensures
        sp_ws(s, i) == i,
{
}


/// Reading back an escaped string body consumes exactly the escape text
/// and the closing quote, recovering the original characters.
pub proof fn lemma_parse_string_body(t: Seq<char>, s: Seq<char>, i: int, acc: Seq<char>)
    requires
        0 <= i,
        i + esc_str(t).len() + 1 <= s.len(),
        s.subrange(i, i + esc_str(t).len() + 1) == esc_str(t) + seq!['"'],
    ensures
        sp_string_body(s, i, acc) == Ok::<(Seq<char>, int), DecodeErrorV>(
            (acc + t, i + esc_str(t).len() + 1),
        ),
    decreases t.len(),
{
    let w = s.subrange(i, i + esc_str(t).len() + 1);
    if t.len() == 0 {
        assert(w[0] == '"');
        assert(s[i] == '"');
        assert(acc + t =~= acc);
    } else {
        let c = t[0];
        lemma_char_bounds(c);
        let e = esc_char(c);
        let rest = t.drop_first();
        lemma_esc_str_front(t);
        assert(esc_str(t) == e + esc_str(rest));
        assert forall|k: int| 0 <= k < e.len() implies s[i + k] == e[k] by {
            assert(w[k] == (e + esc_str(rest) + seq!['"'])[k]);
        }
        let i2 = i + e.len();
        assert(s.subrange(i2, i2 + esc_str(rest).len() + 1) =~= esc_str(rest) + seq!['"']) by {
            assert forall|k: int| 0 <= k < esc_str(rest).len() + 1 implies s.subrange(
                i2,
                i2 + esc_str(rest).len() + 1,
            )[k] == (esc_str(rest) + seq!['"'])[k] by {
                assert(s[i2 + k] == w[e.len() + k]);
            }
        }
        lemma_parse_string_body(rest, s, i2, acc.push(c));
        assert(acc.push(c) + rest =~= acc + t);
        if c == '"' || c == '\\' {
            assert(e == seq!['\\', c]);
            assert(s[i] == '\\' && s[i + 1] == c);
        } else if c == '\u{8}' {
            assert(s[i] == '\\' && s[i + 1] == 'b');
        } else if c == '\u{c}' {
            assert(s[i] == '\\' && s[i + 1] == 'f');
        } else if c == '\n' {
            assert(s[i] == '\\' && s[i + 1] == 'n');
        } else if c == '\r' {
            assert(s[i] == '\\' && s[i + 1] == 'r');
        } else if c == '\t' {
            assert(s[i] == '\\' && s[i + 1] == 't');
        } else if (c as int) < 32 {
            assert(e == seq!['\\', 'u', '0', '0', hex_char(c as int / 16), hex_char(
                c as int % 16,
            )]);
            assert(s[i] == '\\' && s[i + 1] == 'u' && s[i + 2] == '0' && s[i + 3] == '0');
            assert(s[i + 4] == hex_char(c as int / 16) && s[i + 5] == hex_char(c as int % 16));
            assert(hex_val('0') == 0);
            let dh = c as int / 16;
            let dl = c as int % 16;
            assert(0 <= dh < 2 && 0 <= dl < 16);
            assert(((48 + dh) as u8) as int == 48 + dh);
            assert((((48 + dh) as u8) as char) as int == 48 + dh);
            assert(hex_val(hex_char(dh)) == dh);
            if dl < 10 {
                assert(((48 + dl) as u8) as int == 48 + dl);
                assert((((48 + dl) as u8) as char) as int == 48 + dl);
            } else {
                assert(((87 + dl) as u8) as int == 87 + dl);
                assert((((87 + dl) as u8) as char) as int == 87 + dl);
            }
            assert(hex_val(hex_char(dl)) == dl);
            let code = 0 * 4096 + 0 * 256 + dh * 16 + dl;
            assert(code == c as int);
            assert((code as u8) as int == code);
            assert(((code as u8) as char) as int == code);
            assert(((code as u8) as char) == c);
            assert(uescape_char(code) == Some(c));
        } else {
            assert(e =~= seq![c]);
            assert(e.len() == 1);
            assert(e[0] == c);
            assert(s[i + 0] == e[0]);
            assert(s[i] == c);
            assert(c != '"' && c != '\\' && !((s[i] as int) < 32));
        }
    }
}


/// Rendered text never begins with whitespace, and its first character
/// identifies the grammar production.
proof fn lemma_render_first(v: JsonV)
    ensures
        render(v).len() >= 1,
        !is_ws(render(v)[0]),
        render(v)[0] != ']' && render(v)[0] != '}' && render(v)[0] != ',',
{
    lemma_render_nonempty(v);
    match v {
        JsonV::Int(n) => {
            if n < 0 {
                lemma_dec_nat((-n) as nat);
                assert(render(v)[0] == '-');
            } else {
                lemma_dec_nat(n as nat);
                assert(is_digit(render(v)[0]));
            }
        },
        JsonV::Str(s) => {
            assert(render(v)[0] == '"');
        },
        JsonV::Arr(vs) => {
            assert(render(v)[0] == '[');
        },
        JsonV::Obj(ps) => {
            assert(render(v)[0] == '{');
        },
        _ => {},
    }
}

/// Reading back a rendered integer consumes exactly its numeral.
proof fn lemma_parse_number(n: int, s: Seq<char>, i: int)
    requires
        i64::MIN <= n <= i64::MAX,
        0 <= i,
        i + dec_int(n).len() <= s.len(),
        s.subrange(i, i + dec_int(n).len()) == dec_int(n),
        delim_at(s, i + dec_int(n).len()),
    ensures
        sp_number(s, i) == Ok::<(JsonV, int), DecodeErrorV>((JsonV::Int(n), i + dec_int(n).len())),
{
    let w = s.subrange(i, i + dec_int(n).len());
    let end = i + dec_int(n).len();
    if n < 0 {
        lemma_dec_nat((-n) as nat);
        let digits = dec_nat((-n) as nat);
        assert(w[0] == '-');
        assert(s[i] == '-');
        let j0 = i + 1;
        assert forall|k: int| j0 <= k < end implies is_digit(#[trigger] s[k]) by {
            assert(s[k] == w[k - i]);
            assert(w[k - i] == digits[k - i - 1]);
        }
        if end < s.len() {
            assert(!is_digit(s[end]));
        }
        lemma_digits_end_exact(s, j0, end);
        assert(s.subrange(j0, end) =~= digits) by {
            assert forall|k: int| 0 <= k < digits.len() implies s.subrange(j0, end)[k]
                == digits[k] by {
                assert(s[j0 + k] == w[k + 1]);
            }
        }
        assert(0 - n <= 0x8000_0000_0000_0000);
        assert(parse_capped(digits, 0x8000_0000_0000_0000) == Some(0 - n));
    } else {
        lemma_dec_nat(n as nat);
        let digits = dec_nat(n as nat);
        assert(is_digit(w[0]));
        assert(s[i] == w[0]);
        assert(s[i] != '-') by {
            assert(is_digit(s[i]));
        }
        assert forall|k: int| i <= k < end implies is_digit(#[trigger] s[k]) by {
            assert(s[k] == w[k - i]);
        }
        if end < s.len() {
            assert(!is_digit(s[end]));
        }
        lemma_digits_end_exact(s, i, end);
        assert(s.subrange(i, end) =~= digits);
        assert(parse_capped(digits, 0x7fff_ffff_ffff_ffff) == Some(n));
    }
}

/// Rendered array elements read off the first element, then a comma and
/// the rest.
proof fn lemma_render_elems_front(vs: Seq<JsonV>)
    requires
        vs.len() > 0,
    ensures
        render_elems(vs) == render(vs[0]) + (if vs.len() > 1 {
            seq![','] + render_elems(vs.drop_first())
        } else {
            Seq::<char>::empty()
        }),
    decreases vs.len(),
{
    if vs.len() == 1 {
        assert(vs.last() == vs[0]);
        assert(render(vs[0]) + Seq::<char>::empty() =~= render(vs[0]));
    } else {
        let dl = vs.drop_last();
        lemma_render_elems_front(dl);
        assert(dl[0] == vs[0]);
        if vs.len() == 2 {
            assert(vs.drop_first().len() == 1);
            assert(vs.drop_first().last() == vs.last());
            assert(render_elems(vs.drop_first()) == render(vs.last()));
            assert(render(vs[0]) + seq![','] + render(vs.last()) =~= render(vs[0]) + (seq![',']
                + render_elems(vs.drop_first())));
        } else {
            assert(dl.drop_first() =~= vs.drop_first().drop_last());
            assert(vs.drop_first().last() == vs.last());
            assert(vs.drop_first().len() > 1);
            assert(render_elems(vs.drop_first()) == render_elems(vs.drop_first().drop_last())
                + seq![','] + render(vs.last()));
            assert(render(vs[0]) + (seq![','] + render_elems(vs.drop_first().drop_last()))
                + seq![','] + render(vs.last()) =~= render(vs[0]) + (seq![','] + render_elems(
                vs.drop_first(),
            )));
        }
    }
}

/// Rendered object members read off the first member, then a comma and
/// the rest.
proof fn lemma_render_members_front(ps: Seq<(Seq<char>, JsonV)>)
    requires
        ps.len() > 0,
    ensures
        render_members(ps) == render_member(ps[0]) + (if ps.len() > 1 {
            seq![','] + render_members(ps.drop_first())
        } else {
            Seq::<char>::empty()
        }),
    decreases ps.len(),
{
    if ps.len() == 1 {
        assert(ps.last() == ps[0]);
        assert(render_member(ps[0]) + Seq::<char>::empty() =~= render_member(ps[0]));
    } else {
        let dl = ps.drop_last();
        lemma_render_members_front(dl);
        assert(dl[0] == ps[0]);
        if ps.len() == 2 {
            assert(ps.drop_first().len() == 1);
            assert(ps.drop_first().last() == ps.last());
            assert(render_members(ps.drop_first()) == render_member(ps.last()));
            assert(render_member(ps[0]) + seq![','] + render_member(ps.last()) =~= render_member(
                ps[0],
            ) + (seq![','] + render_members(ps.drop_first())));
        } else {
            assert(dl.drop_first() =~= ps.drop_first().drop_last());
            assert(ps.drop_first().last() == ps.last());
            assert(ps.drop_first().len() > 1);
            assert(render_members(ps.drop_first()) == render_members(ps.drop_first().drop_last())
                + seq![','] + render_member(ps.last()));
            assert(render_member(ps[0]) + (seq![','] + render_members(ps.drop_first().drop_last()))
                + seq![','] + render_member(ps.last()) =~= render_member(ps[0]) + (seq![',']
                + render_members(ps.drop_first())));
        }
    }
}


/// Reading back a rendered value consumes exactly its text, provided
/// what follows cannot extend a number.
pub proof fn lemma_parse_render(v: JsonV, s: Seq<char>, i: int)
    requires
        wf_json(v),
        0 <= i,
        i + render(v).len() <= s.len(),
        s.subrange(i, i + render(v).len()) == render(v),
        delim_at(s, i + render(v).len()),
    ensures
        sp_value(s, i) == Ok::<(JsonV, int), DecodeErrorV>((v, i + render(v).len())),
    decreases v,
{
    let r = render(v);
    let end = i + r.len();
    let w = s.subrange(i, end);
    lemma_render_first(v);
    assert(s[i] == r[0]);
    lemma_ws_stays(s, i);
    match v {
        JsonV::Null => {
            reveal_strlit("null");
            assert("null"@.len() == 4);
            assert(s[i] == 'n');
            assert(s.subrange(i, i + 4) =~= "null"@);
        },
        JsonV::Bool(b) => {
            if b {
                reveal_strlit("true");
                assert("true"@.len() == 4);
                assert(s[i] == 't');
                assert(s.subrange(i, i + 4) =~= "true"@);
            } else {
                reveal_strlit("false");
                assert("false"@.len() == 5);
                assert(s[i] == 'f');
                assert(s.subrange(i, i + 5) =~= "false"@);
            }
        },
        JsonV::Int(n) => {
            assert(s[i] == '-' || is_digit(s[i])) by {
                if n < 0 {
                    assert(r[0] == '-');
                } else {
                    lemma_dec_nat(n as nat);
                }
            }
            assert(s[i] != 'n' && s[i] != 't' && s[i] != 'f' && s[i] != '"');
            lemma_parse_number(n, s, i);
        },
        JsonV::Str(t) => {
            assert(s[i] == '"');
            assert(r == render_str(t));
            assert(s.subrange(i + 1, i + 1 + esc_str(t).len() + 1) =~= esc_str(t) + seq!['"']) by {
                assert forall|k: int| 0 <= k < esc_str(t).len() + 1 implies s.subrange(
                    i + 1,
                    i + 1 + esc_str(t).len() + 1,
                )[k] == (esc_str(t) + seq!['"'])[k] by {
                    assert(s[i + 1 + k] == w[1 + k]);
                }
            }
            lemma_parse_string_body(t, s, i + 1, Seq::empty());
            assert(Seq::<char>::empty() + t =~= t);
        },
        JsonV::Arr(vs) => {
            assert(s[i] == '[');
            assert(s[end - 1] == w[r.len() - 1]);
            assert(s[end - 1] == ']');
            if vs.len() == 0 {
                assert(render_elems(vs).len() == 0);
                assert(s[i + 1] == ']');
                lemma_ws_stays(s, i + 1);
                assert(vs =~= Seq::<JsonV>::empty());
            } else {
                lemma_render_elems_front(vs);
                lemma_render_first(vs[0]);
                assert(render_elems(vs)[0] == render(vs[0])[0]);
                assert(s[i + 1] == w[1]);
                assert(s[i + 1] == render(vs[0])[0]);
                lemma_ws_stays(s, i + 1);
                assert(s.subrange(i + 1, i + 1 + render_elems(vs).len() + 1) =~= render_elems(vs)
                    + seq![']']) by {
                    assert forall|k: int| 0 <= k < render_elems(vs).len() + 1 implies s.subrange(
                        i + 1,
                        i + 1 + render_elems(vs).len() + 1,
                    )[k] == (render_elems(vs) + seq![']'])[k] by {
                        assert(s[i + 1 + k] == w[1 + k]);
                    }
                }
                lemma_parse_elems(vs, s, i + 1, Seq::empty());
                assert(Seq::<JsonV>::empty() + vs =~= vs);
            }
        },
        JsonV::Obj(ps) => {
            assert(s[i] == '{');
            assert(s[end - 1] == w[r.len() - 1]);
            assert(s[end - 1] == '}');
            if ps.len() == 0 {
                assert(render_members(ps).len() == 0);
                assert(s[i + 1] == '}');
                lemma_ws_stays(s, i + 1);
                assert(ps =~= Seq::<(Seq<char>, JsonV)>::empty());
            } else {
                lemma_render_members_front(ps);
                assert(render_member(ps[0])[0] == '"');
                assert(render_members(ps)[0] == render_member(ps[0])[0]);
                assert(s[i + 1] == w[1]);
                assert(s[i + 1] == '"');
                lemma_ws_stays(s, i + 1);
                assert(s.subrange(i + 1, i + 1 + render_members(ps).len() + 1) =~= render_members(
                    ps,
                ) + seq!['}']) by {
                    assert forall|k: int| 0 <= k < render_members(ps).len() + 1 implies s.subrange(
                        i + 1,
                        i + 1 + render_members(ps).len() + 1,
                    )[k] == (render_members(ps) + seq!['}'])[k] by {
                        assert(s[i + 1 + k] == w[1 + k]);
                    }
                }
                lemma_parse_members(ps, s, i + 1, Seq::empty());
                assert(Seq::<(Seq<char>, JsonV)>::empty() + ps =~= ps);
            }
        },
    }
}

/// Reading back rendered array elements up to the closing bracket
/// appends exactly those elements.
proof fn lemma_parse_elems(vs: Seq<JsonV>, s: Seq<char>, i: int, acc: Seq<JsonV>)
    requires
        vs.len() > 0,
        forall|k: int| 0 <= k < vs.len() ==> wf_json(#[trigger] vs[k]),
        0 <= i,
        i + render_elems(vs).len() + 1 <= s.len(),
        s.subrange(i, i + render_elems(vs).len() + 1) == render_elems(vs) + seq![']'],
    ensures
        sp_elems(s, i, acc) == Ok::<(JsonV, int), DecodeErrorV>(
            (JsonV::Arr(acc + vs), i + render_elems(vs).len() + 1),
        ),
    decreases vs,
{
    let w = s.subrange(i, i + render_elems(vs).len() + 1);
    let end = i + render_elems(vs).len() + 1;
    lemma_render_elems_front(vs);
    let r0 = render(vs[0]);
    lemma_render_first(vs[0]);
    let i2 = i + r0.len();
    assert forall|k: int| 0 <= k < r0.len() implies s.subrange(i, i2)[k] == r0[k] by {
        assert(s[i + k] == w[k]);
    }
    assert(s.subrange(i, i2) =~= r0);
    assert(s[i2] == w[r0.len() as int]);
    if vs.len() == 1 {
        assert(s[i2] == ']');
        lemma_parse_render(vs[0], s, i);
        lemma_ws_stays(s, i2);
        assert(acc.push(vs[0]) =~= acc + vs);
    } else {
        assert(s[i2] == ',');
        lemma_parse_render(vs[0], s, i);
        lemma_ws_stays(s, i2);
        let rest = vs.drop_first();
        assert(forall|k: int| 0 <= k < rest.len() ==> #[trigger] rest[k] == vs[k + 1]);
        assert(render_elems(vs).len() == r0.len() + 1 + render_elems(rest).len());
        assert(s.subrange(i2 + 1, i2 + 1 + render_elems(rest).len() + 1) =~= render_elems(rest)
            + seq![']']) by {
            assert forall|k: int| 0 <= k < render_elems(rest).len() + 1 implies s.subrange(
                i2 + 1,
                i2 + 1 + render_elems(rest).len() + 1,
            )[k] == (render_elems(rest) + seq![']'])[k] by {
                assert(s[i2 + 1 + k] == w[r0.len() + 1 + k]);
            }
        }
        lemma_parse_elems(rest, s, i2 + 1, acc.push(vs[0]));
        assert(acc.push(vs[0]) + rest =~= acc + vs);
    }
}

/// Reading back rendered object members up to the closing brace appends
/// exactly those members.
proof fn lemma_parse_members(ps: Seq<(Seq<char>, JsonV)>, s: Seq<char>, i: int, acc: Seq<
    (Seq<char>, JsonV),
>)
    requires
        ps.len() > 0,
        forall|k: int| 0 <= k < ps.len() ==> wf_json((#[trigger] ps[k]).1),
        0 <= i,
        i + render_members(ps).len() + 1 <= s.len(),
        s.subrange(i, i + render_members(ps).len() + 1) == render_members(ps) + seq!['}'],
    ensures
        sp_members(s, i, acc) == Ok::<(JsonV, int), DecodeErrorV>(
            (JsonV::Obj(acc + ps), i + render_members(ps).len() + 1),
        ),
    decreases ps,
{
    let w = s.subrange(i, i + render_members(ps).len() + 1);
    let end = i + render_members(ps).len() + 1;
    lemma_render_members_front(ps);
    let (k0, v0) = ps[0];
    let m0 = render_member(ps[0]);
    assert(m0 == render_str(k0) + seq![':'] + render(v0));
    lemma_render_first(v0);
    assert forall|k: int| 0 <= k < m0.len() implies s[i + k] == m0[k] by {
        assert(s[i + k] == w[k]);
    }
    assert(m0[0] == render_str(k0)[0]);
    assert(render_str(k0)[0] == '"');
    assert(s[i + 0] == m0[0]);
    assert(s[i] == '"');
    lemma_ws_stays(s, i);
    let jk = i + render_str(k0).len();
    assert(s.subrange(i + 1, i + 1 + esc_str(k0).len() + 1) =~= esc_str(k0) + seq!['"']) by {
        assert forall|k: int| 0 <= k < esc_str(k0).len() + 1 implies s.subrange(
            i + 1,
            i + 1 + esc_str(k0).len() + 1,
        )[k] == (esc_str(k0) + seq!['"'])[k] by {
            assert(s[i + 1 + k] == m0[1 + k]);
        }
    }
    lemma_parse_string_body(k0, s, i + 1, Seq::empty());
    assert(Seq::<char>::empty() + k0 =~= k0);
    assert(s[jk] == m0[jk - i]);
    assert(s[jk] == ':');
    lemma_ws_stays(s, jk);
    let iv = jk + 1;
    assert forall|k: int| 0 <= k < render(v0).len() implies s.subrange(iv, iv + render(v0).len())[k]
        == render(v0)[k] by {
        assert(s[iv + k] == m0[iv - i + k]);
    }
    assert(s.subrange(iv, iv + render(v0).len()) =~= render(v0));
    let j4 = iv + render(v0).len();
    assert(j4 == i + m0.len());
    assert(s[j4] == w[m0.len() as int]);
    if ps.len() == 1 {
        assert(s[j4] == '}');
        lemma_parse_render(v0, s, iv);
        lemma_ws_stays(s, j4);
        assert(acc.push((k0, v0)) =~= acc + ps);
    } else {
        assert(s[j4] == ',');
        lemma_parse_render(v0, s, iv);
        lemma_ws_stays(s, j4);
        let rest = ps.drop_first();
        assert(forall|k: int| 0 <= k < rest.len() ==> #[trigger] rest[k] == ps[k + 1]);
        assert(render_members(ps).len() == m0.len() + 1 + render_members(rest).len());
        assert(s.subrange(j4 + 1, j4 + 1 + render_members(rest).len() + 1) =~= render_members(rest)
            + seq!['}']) by {
            assert forall|k: int| 0 <= k < render_members(rest).len() + 1 implies s.subrange(
                j4 + 1,
                j4 + 1 + render_members(rest).len() + 1,
            )[k] == (render_members(rest) + seq!['}'])[k] by {
                assert(s[j4 + 1 + k] == w[m0.len() + 1 + k]);
            }
        }
        lemma_parse_members(rest, s, j4 + 1, acc.push((k0, v0)));
        assert(acc.push((k0, v0)) + rest =~= acc + ps);
    }
}

/// Parsing inverts rendering on whole texts.
pub proof fn lemma_parse_inverts_render(v: JsonV)
    requires
        wf_json(v),
    ensures
        sp_json(render(v)) == Ok::<JsonV, DecodeErrorV>(v),
{
    let s = render(v);
    lemma_render_nonempty(v);
    assert(s.subrange(0, s.len() as int) =~= s);
    lemma_parse_render(v, s, 0);
    lemma_ws_stays(s, s.len() as int);
}


/// Members of a concatenation are well formed when both sides' are.
proof fn lemma_wf_obj_concat(a: Seq<(Seq<char>, JsonV)>, b: Seq<(Seq<char>, JsonV)>)
    requires
        forall|k: int| 0 <= k < a.len() ==> wf_json((#[trigger] a[k]).1),
        forall|k: int| 0 <= k < b.len() ==> wf_json((#[trigger] b[k]).1),
    ensures
        forall|k: int| 0 <= k < (a + b).len() ==> wf_json((#[trigger] (a + b)[k]).1),
{
    assert forall|k: int| 0 <= k < (a + b).len() implies wf_json((#[trigger] (a + b)[k]).1) by {
        if k < a.len() {
            assert((a + b)[k] == a[k]);
        } else {
            assert((a + b)[k] == b[k - a.len()]);
        }
    }
}

/// Every value the instance encoder produces is well formed.
proof fn lemma_enc_instance_wf(x: InstanceV)
    ensures
        wf_json(enc_instance(x)),
{
    assert forall|p: u16| true implies wf_json(#[trigger] enc_port(p)) by {
        let ps = enc_port(p)->Obj_0;
        assert forall|k: int| 0 <= k < ps.len() implies wf_json((#[trigger] ps[k]).1) by {
            assert(ps[0].1 is Str && ps[1].1 is Str);
        }
    }
    assert forall|l: LeaseInfo| true implies wf_json(#[trigger] enc_lease(l)) by {
        let ps = enc_lease(l)->Obj_0;
        assert forall|k: int| 0 <= k < ps.len() implies wf_json((#[trigger] ps[k]).1) by {
            assert(ps.len() == 6);
        }
    }
    assert forall|m: AmazonMetaDataV| true implies wf_json(#[trigger] enc_amd(m)) by {
        let ps = enc_amd(m)->Obj_0;
        assert forall|k: int| 0 <= k < ps.len() implies wf_json((#[trigger] ps[k]).1) by {
            assert(ps.len() == 11);
        }
    }
    assert forall|d: DataCenterInfoV| true implies wf_json(#[trigger] enc_dci(d)) by {
        let ps = enc_dci(d)->Obj_0;
        assert forall|k: int| 0 <= k < ps.len() implies wf_json((#[trigger] ps[k]).1) by {
            match d.metadata {
                Some(m) => {
                    assert(ps[0].1 is Str && ps[1].1 is Str && ps[2].1 == enc_amd(m));
                },
                None => {
                    assert(ps[0].1 is Str && ps[1].1 is Str);
                },
            }
        }
    }
    let meta_members = enc_meta(x.metadata);
    assert forall|k: int| 0 <= k < meta_members.len() implies wf_json(
        (#[trigger] meta_members[k]).1,
    ) by {
        assert(meta_members[k].1 == JsonV::Str(x.metadata[k].1));
    }
    let ps = enc_instance(x)->Obj_0;
    assert forall|k: int| 0 <= k < ps.len() implies wf_json((#[trigger] ps[k]).1) by {
        let sa = seq![
            ("hostName"@, JsonV::Str(x.host_name)),
            ("app"@, JsonV::Str(x.app)),
            ("ipAddr"@, JsonV::Str(x.ip_addr)),
            ("vipAddress"@, JsonV::Str(x.vip_address)),
            ("secureVipAddress"@, JsonV::Str(x.secure_vip_address)),
            ("status"@, JsonV::Str(status_wire(x.status))),
        ];
        let sb = (match x.port {
            Some(p) => seq![("port"@, enc_port(p))],
            None => seq![],
        });
        let sc = (match x.secure_port {
            Some(p) => seq![("securePort"@, enc_port(p))],
            None => seq![],
        });
        let sd = seq![
            ("homePageUrl"@, JsonV::Str(x.homepage_url)),
            ("statusPageUrl"@, JsonV::Str(x.status_page_url)),
            ("healthCheckUrl"@, JsonV::Str(x.health_check_url)),
            ("dataCenterInfo"@, enc_dci(x.data_center_info)),
        ];
        let se = (match x.lease_info {
            Some(l) => seq![("leaseInfo"@, enc_lease(l))],
            None => seq![],
        });
        let sf = (if x.metadata.len() > 0 {
            seq![("metadata"@, JsonV::Obj(enc_meta(x.metadata)))]
        } else {
            seq![]
        });
        let sg = seq![("countryId"@, JsonV::Int(x.country_id as int))];
        let sh = (match x.overriddenstatus {
            Some(st) => seq![("overriddenstatus"@, JsonV::Str(status_wire(st)))],
            None => seq![],
        });
        let si = seq![
            ("isCoordinatingDiscoveryServer"@, JsonV::Bool(x.is_coordinating_discovery_server)),
            ("lastUpdatedTimestamp"@, JsonV::Int(x.last_updated_timestamp as int)),
            ("lastDirtyTimestamp"@, JsonV::Int(x.last_dirty_timestamp as int)),
            ("actionType"@, JsonV::Str(action_type_wire(x.action_type))),
        ];
        lemma_wf_obj_concat(sa, sb);
        lemma_wf_obj_concat(sa + sb, sc);
        lemma_wf_obj_concat(sa + sb + sc, sd);
        lemma_wf_obj_concat(sa + sb + sc + sd, se);
        lemma_wf_obj_concat(sa + sb + sc + sd + se, sf);
        lemma_wf_obj_concat(sa + sb + sc + sd + se + sf, sg);
        lemma_wf_obj_concat(sa + sb + sc + sd + se + sf + sg, sh);
        lemma_wf_obj_concat(sa + sb + sc + sd + se + sf + sg + sh, si);
        assert(ps == sa + sb + sc + sd + se + sf + sg + sh + si);
    }
}

/// The full text-level round trip: parsing the exact text the encoder
/// emits for a canonical instance, and validating it, gives back exactly
/// that instance.
pub proof fn lemma_instance_text_round_trip(x: InstanceV)
    requires
        instance_canonical(x),
    ensures
        decoded_instance(render(enc_instance(x))) == Ok::<InstanceV, DecodeErrorV>(x),
{
    lemma_enc_instance_wf(x);
    lemma_parse_inverts_render(enc_instance(x));
    lemma_instance_round_trip(x);
}

} // verus!
