//! Reading JSON text into a value tree by recursive descent. The parser
//! is specified by a mirror grammar over character sequences: each
//! executable function returns exactly what its specification function
//! says for the same input and position. Numbers must be integers that
//! fit a signed 64-bit value, and unicode escapes are accepted only for
//! characters the escape table produces; the registry's payloads use
//! neither fractions nor such escapes.

use vstd::prelude::*;
use vstd::string::StringExecFns;
use crate::json::{JsonV, JsonValue, model_arr, model_obj};
use crate::errors::{DecodeError, DecodeErrorV};
use crate::text::{is_digit, parse_capped, chars_parse_capped, chars_to_string};

verus! {

broadcast use
    vstd::std_specs::vec::group_vec_axioms,
    vstd::seq::group_seq_axioms,
    vstd::string::group_string_axioms,
;

/// The single value carried by every syntax error.
pub open spec fn jerr() -> DecodeErrorV {
    DecodeErrorV::TypeMismatch("json"@)
}

fn jerr_exec() -> (r: DecodeError)
    ensures
        r@ == jerr(),
{
    DecodeError::TypeMismatch(String::from_str("json"))
}

/// JSON whitespace.
pub open spec fn is_ws(c: char) -> bool {
    c == ' ' || c == '\t' || c == '\n' || c == '\r'
}

/// The first position at or after `i` holding no whitespace.
pub open spec fn sp_ws(s: Seq<char>, i: int) -> int
    decreases s.len() - i,
{
    if 0 <= i < s.len() && is_ws(s[i]) {
        sp_ws(s, i + 1)
    } else {
        i
    }
}

/// Skipping whitespace stays within the text.
pub proof fn lemma_sp_ws(s: Seq<char>, i: int)
    requires
        0 <= i <= s.len(),
    ensures
        i <= sp_ws(s, i) <= s.len(),
    decreases s.len() - i,
{
    if i < s.len() && is_ws(s[i]) {
        lemma_sp_ws(s, i + 1);
    }
}

/// The value of a hexadecimal digit character, or -1.
pub open spec fn hex_val(c: char) -> int {
    if 48 <= c as int <= 57 {
        c as int - 48
    } else if 97 <= c as int <= 102 {
        c as int - 87
    } else if 65 <= c as int <= 70 {
        c as int - 55
    } else {
        -1
    }
}

/// The character a unicode escape value stands for, when it is one the
/// escape table produces; larger values are not accepted.
pub open spec fn uescape_char(n: int) -> Option<char> {
    if 0 <= n < 128 {
        Some((n as u8) as char)
    } else {
        None
    }
}

/// Reads a string's content from position `i` (just after the opening
/// quote) up to its closing quote, unescaping as it goes.
pub open spec fn sp_string_body(s: Seq<char>, i: int, acc: Seq<char>) -> Result<
    (Seq<char>, int),
    DecodeErrorV,
>
    decreases s.len() - i,
{
    if i < 0 || i >= s.len() {
        Err(jerr())
    } else if s[i] == '"' {
        Ok((acc, i + 1))
    } else if s[i] == '\\' {
        if i + 1 >= s.len() {
            Err(jerr())
        } else {
            let c = s[i + 1];
            if c == '"' {
                sp_string_body(s, i + 2, acc.push('"'))
            } else if c == '\\' {
                sp_string_body(s, i + 2, acc.push('\\'))
            } else if c == '/' {
                sp_string_body(s, i + 2, acc.push('/'))
            } else if c == 'b' {
                sp_string_body(s, i + 2, acc.push('\u{8}'))
            } else if c == 'f' {
                sp_string_body(s, i + 2, acc.push('\u{c}'))
            } else if c == 'n' {
                sp_string_body(s, i + 2, acc.push('\n'))
            } else if c == 'r' {
                sp_string_body(s, i + 2, acc.push('\r'))
            } else if c == 't' {
                sp_string_body(s, i + 2, acc.push('\t'))
            } else if c == 'u' {
                if i + 5 >= s.len() {
                    Err(jerr())
                } else {
                    let h0 = hex_val(s[i + 2]);
                    let h1 = hex_val(s[i + 3]);
                    let h2 = hex_val(s[i + 4]);
                    let h3 = hex_val(s[i + 5]);
                    if h0 < 0 || h1 < 0 || h2 < 0 || h3 < 0 {
                        Err(jerr())
                    } else {
                        match uescape_char(h0 * 4096 + h1 * 256 + h2 * 16 + h3) {
                            Some(u) => sp_string_body(s, i + 6, acc.push(u)),
                            None => Err(jerr()),
                        }
                    }
                }
            } else {
                Err(jerr())
            }
        }
    } else if (s[i] as int) < 32 {
        Err(jerr())
    } else {
        sp_string_body(s, i + 1, acc.push(s[i]))
    }
}

/// The position just after a run of decimal digits.
pub open spec fn sp_digits_end(s: Seq<char>, i: int) -> int
    decreases s.len() - i,
{
    if 0 <= i < s.len() && is_digit(s[i]) {
        sp_digits_end(s, i + 1)
    } else {
        i
    }
}

/// A digit run stays within the text and is all digits.
pub proof fn lemma_sp_digits_end(s: Seq<char>, i: int)
    requires
        0 <= i <= s.len(),
    ensures
        i <= sp_digits_end(s, i) <= s.len(),
        forall|j: int| i <= j < sp_digits_end(s, i) ==> is_digit(#[trigger] s[j]),
        sp_digits_end(s, i) < s.len() ==> !is_digit(s[sp_digits_end(s, i)]),
    decreases s.len() - i,
{
    if i < s.len() && is_digit(s[i]) {
        lemma_sp_digits_end(s, i + 1);
    }
}

/// Reads an integer starting at `i`: an optional minus sign and a digit
/// run, rejected if a fraction or exponent follows or the value does not
/// fit a signed 64-bit integer.
pub open spec fn sp_number(s: Seq<char>, i: int) -> Result<(JsonV, int), DecodeErrorV> {
    let neg = 0 <= i < s.len() && s[i] == '-';
    let j0 = if neg {
        i + 1
    } else {
        i
    };
    let j = sp_digits_end(s, j0);
    if j < s.len() && (s[j] == '.' || s[j] == 'e' || s[j] == 'E') {
        Err(jerr())
    } else {
        let cap: int = if neg {
            0x8000_0000_0000_0000
        } else {
            0x7fff_ffff_ffff_ffff
        };
        match parse_capped(s.subrange(j0, j), cap) {
            Some(m) => Ok(
                (
                    JsonV::Int(
                        if neg {
                            -m
                        } else {
                            m
                        },
                    ),
                    j,
                ),
            ),
            None => Err(jerr()),
        }
    }
}

/// Reads one JSON value starting at `i`, whitespace allowed first.
pub open spec fn sp_value(s: Seq<char>, i: int) -> Result<(JsonV, int), DecodeErrorV>
    decreases s.len() - i, 0int,
{
    let j = sp_ws(s, i);
    if j < i || j >= s.len() {
        Err(jerr())
    } else {
        let c = s[j];
        if c == 'n' {
            if j + 4 <= s.len() && s.subrange(j, j + 4) == "null"@ {
                Ok((JsonV::Null, j + 4))
            } else {
                Err(jerr())
            }
        } else if c == 't' {
            if j + 4 <= s.len() && s.subrange(j, j + 4) == "true"@ {
                Ok((JsonV::Bool(true), j + 4))
            } else {
                Err(jerr())
            }
        } else if c == 'f' {
            if j + 5 <= s.len() && s.subrange(j, j + 5) == "false"@ {
                Ok((JsonV::Bool(false), j + 5))
            } else {
                Err(jerr())
            }
        } else if c == '"' {
            match sp_string_body(s, j + 1, Seq::empty()) {
                Ok((str, j2)) => Ok((JsonV::Str(str), j2)),
                Err(e) => Err(e),
            }
        } else if c == '-' || is_digit(c) {
            sp_number(s, j)
        } else if c == '{' {
            sp_object(s, j + 1)
        } else if c == '[' {
            sp_array(s, j + 1)
        } else {
            Err(jerr())
        }
    }
}

/// Reads an object's members starting just after '{'.
pub open spec fn sp_object(s: Seq<char>, i: int) -> Result<(JsonV, int), DecodeErrorV>
    decreases s.len() - i, 2int,
{
    let j = sp_ws(s, i);
    if j < i || j >= s.len() {
        Err(jerr())
    } else if s[j] == '}' {
        Ok((JsonV::Obj(Seq::empty()), j + 1))
    } else {
        sp_members(s, j, Seq::empty())
    }
}

/// Reads the remaining members of an object, the next key expected at
/// `i` (whitespace allowed).
pub open spec fn sp_members(s: Seq<char>, i: int, acc: Seq<(Seq<char>, JsonV)>) -> Result<
    (JsonV, int),
    DecodeErrorV,
>
    decreases s.len() - i, 1int,
{
    let j = sp_ws(s, i);
    if j < i || j >= s.len() || s[j] != '"' {
        Err(jerr())
    } else {
        match sp_string_body(s, j + 1, Seq::empty()) {
            Ok((k, j2)) => {
                let j3 = sp_ws(s, j2);
                if j3 < i || j3 >= s.len() || s[j3] != ':' {
                    Err(jerr())
                } else {
                    match sp_value(s, j3 + 1) {
                        Ok((v, j4)) => {
                            let j5 = sp_ws(s, j4);
                            if j5 < i || j5 >= s.len() {
                                Err(jerr())
                            } else if s[j5] == ',' {
                                if j5 + 1 > i {
                                    sp_members(s, j5 + 1, acc.push((k, v)))
                                } else {
                                    Err(jerr())
                                }
                            } else if s[j5] == '}' {
                                Ok((JsonV::Obj(acc.push((k, v))), j5 + 1))
                            } else {
                                Err(jerr())
                            }
                        },
                        Err(e) => Err(e),
                    }
                }
            },
            Err(e) => Err(e),
        }
    }
}

/// Reads an array's elements starting just after '['.
pub open spec fn sp_array(s: Seq<char>, i: int) -> Result<(JsonV, int), DecodeErrorV>
    decreases s.len() - i, 2int,
{
    let j = sp_ws(s, i);
    if j < i || j >= s.len() {
        Err(jerr())
    } else if s[j] == ']' {
        Ok((JsonV::Arr(Seq::empty()), j + 1))
    } else {
        sp_elems(s, j, Seq::empty())
    }
}

/// Reads the remaining elements of an array, the next value expected at
/// `i`.
pub open spec fn sp_elems(s: Seq<char>, i: int, acc: Seq<JsonV>) -> Result<
    (JsonV, int),
    DecodeErrorV,
>
    decreases s.len() - i, 1int,
{
    if i < 0 {
        Err(jerr())
    } else {
        match sp_value(s, i) {
            Ok((v, j)) => {
                let j2 = sp_ws(s, j);
                if j2 < i || j2 >= s.len() {
                    Err(jerr())
                } else if s[j2] == ',' {
                    if j2 + 1 > i {
                        sp_elems(s, j2 + 1, acc.push(v))
                    } else {
                        Err(jerr())
                    }
                } else if s[j2] == ']' {
                    Ok((JsonV::Arr(acc.push(v)), j2 + 1))
                } else {
                    Err(jerr())
                }
            },
            Err(e) => Err(e),
        }
    }
}

/// What a whole text parses to: one value, then only whitespace.
pub open spec fn sp_json(s: Seq<char>) -> Result<JsonV, DecodeErrorV> {
    match sp_value(s, 0) {
        Ok((v, j)) => if sp_ws(s, j) < s.len() {
            Err(jerr())
        } else {
            Ok(v)
        },
        Err(e) => Err(e),
    }
}

/// Executable form of `sp_ws`.
fn ws_exec(s: &Vec<char>, i: usize) -> (r: usize)
    requires
        i <= s@.len(),
    ensures
        r as int == sp_ws(s@, i as int),
        i <= r <= s@.len(),
{
    let mut cur: usize = i;
    while cur < s.len() && (s[cur] == ' ' || s[cur] == '\t' || s[cur] == '\n' || s[cur] == '\r')
        invariant
            i <= cur <= s@.len(),
            sp_ws(s@, i as int) == sp_ws(s@, cur as int),
        decreases s@.len() - cur,
    {
        cur = cur + 1;
    }
    cur
}

/// Executable form of `hex_val`.
fn hex_val_exec(c: char) -> (r: i32)
    ensures
        r as int == hex_val(c),
{
    if '0' <= c && c <= '9' {
        ((c as u32) - 48) as i32
    } else if 'a' <= c && c <= 'f' {
        ((c as u32) - 87) as i32
    } else if 'A' <= c && c <= 'F' {
        ((c as u32) - 55) as i32
    } else {
        -1
    }
}

/// Executable form of `sp_string_body`: reads a string's content and
/// returns the unescaped text with the position after the closing quote.
fn parse_string_body(s: &Vec<char>, i: usize) -> (r: Result<(String, usize), DecodeError>)
    requires
        i <= s@.len(),
    ensures
        match r {
            Ok((st, j)) => sp_string_body(s@, i as int, Seq::empty()) == Ok::<
                (Seq<char>, int),
                DecodeErrorV,
            >((st@, j as int)) && i < j <= s@.len(),
            Err(e) => sp_string_body(s@, i as int, Seq::empty()) == Err::<
                (Seq<char>, int),
                DecodeErrorV,
            >(e@),
        },
{
    let mut acc: Vec<char> = Vec::new();
    let mut cur: usize = i;
    proof {
        assert(acc@ =~= Seq::<char>::empty());
    }
    loop
        invariant
            i <= cur <= s@.len(),
            sp_string_body(s@, i as int, Seq::empty()) == sp_string_body(s@, cur as int, acc@),
        decreases s@.len() - cur,
    {
        if cur >= s.len() {
            return Err(jerr_exec());
        }
        let ghost cur0 = cur as int;
        let ghost acc0 = acc@;
        let c = s[cur];
        if c == '"' {
            return Ok((chars_to_string(&acc), cur + 1));
        } else if c == '\\' {
            if cur + 1 >= s.len() {
                return Err(jerr_exec());
            }
            let e = s[cur + 1];
            let unescaped: char = if e == '"' {
                '"'
            } else if e == '\\' {
                '\\'
            } else if e == '/' {
                '/'
            } else if e == 'b' {
                '\u{8}'
            } else if e == 'f' {
                '\u{c}'
            } else if e == 'n' {
                '\n'
            } else if e == 'r' {
                '\r'
            } else if e == 't' {
                '\t'
            } else if e == 'u' {
                if s.len() - cur < 6 {
                    return Err(jerr_exec());
                }
                let h0 = hex_val_exec(s[cur + 2]);
                let h1 = hex_val_exec(s[cur + 3]);
                let h2 = hex_val_exec(s[cur + 4]);
                let h3 = hex_val_exec(s[cur + 5]);
                if h0 < 0 || h1 < 0 || h2 < 0 || h3 < 0 {
                    return Err(jerr_exec());
                }
                let code: i32 = h0 * 4096 + h1 * 256 + h2 * 16 + h3;
                if code >= 128 {
                    return Err(jerr_exec());
                }
                acc.push((code as u8) as char);
                cur = cur + 6;
                proof {
                    assert(uescape_char(hex_val(s@[cur0 + 2]) * 4096 + hex_val(s@[cur0 + 3]) * 256
                        + hex_val(s@[cur0 + 4]) * 16 + hex_val(s@[cur0 + 5])) == Some((code as u8) as char));
                    assert(sp_string_body(s@, cur0, acc0) == sp_string_body(s@, cur as int, acc@));
                }
                continue ;
            } else {
                return Err(jerr_exec());
            };
            acc.push(unescaped);
            cur = cur + 2;
            proof {
                assert(acc@ == acc0.push(unescaped));
                assert(sp_string_body(s@, cur0, acc0) == sp_string_body(s@, cur as int, acc@));
            }
        } else if '\u{20}' > c {
            proof {
                assert((s@[cur0] as int) < 32);
                assert(sp_string_body(s@, cur0, acc0) == Err::<(Seq<char>, int), DecodeErrorV>(jerr()));
            }
            return Err(jerr_exec());
        } else {
            proof {
                assert((c as int) >= 32);
            }
            acc.push(c);
            cur = cur + 1;
            proof {
                assert(sp_string_body(s@, cur0, acc0) == sp_string_body(s@, cur as int, acc@));
            }
        }
    }
}

/// Executable form of `sp_number`.
fn parse_number(s: &Vec<char>, i: usize) -> (r: Result<(JsonValue, usize), DecodeError>)
    requires
        i <= s@.len(),
    ensures
        match r {
            Ok((v, j)) => sp_number(s@, i as int) == Ok::<(JsonV, int), DecodeErrorV>(
                (v@, j as int),
            ) && i <= j <= s@.len(),
            Err(e) => sp_number(s@, i as int) == Err::<(JsonV, int), DecodeErrorV>(e@),
        },
{
    let neg = i < s.len() && s[i] == '-';
    let j0: usize = if neg {
        i + 1
    } else {
        i
    };
    let mut j: usize = j0;
    while j < s.len() && '0' <= s[j] && s[j] <= '9'
        invariant
            j0 <= j <= s@.len(),
            sp_digits_end(s@, j0 as int) == sp_digits_end(s@, j as int),
        decreases s@.len() - j,
    {
        j = j + 1;
    }
    proof {
        assert(sp_digits_end(s@, j0 as int) == j as int);
    }
    if j < s.len() && (s[j] == '.' || s[j] == 'e' || s[j] == 'E') {
        return Err(jerr_exec());
    }
    let cap: u64 = if neg {
        9223372036854775808
    } else {
        9223372036854775807
    };
    match chars_parse_capped(s, j0, j, cap) {
        Some(m) => {
            let val: i64 = if !neg {
                m as i64
            } else if m == 9223372036854775808 {
                i64::MIN
            } else {
                -(m as i64)
            };
            proof {
                if neg {
                    assert(val as int == -(m as int));
                }
            }
            Ok((JsonValue::Int(val), j))
        },
        None => Err(jerr_exec()),
    }
}

/// Executable form of `sp_value`.
pub fn parse_value(s: &Vec<char>, i: usize) -> (r: Result<(JsonValue, usize), DecodeError>)
    requires
        i <= s@.len(),
    ensures
        match r {
            Ok((v, j)) => sp_value(s@, i as int) == Ok::<(JsonV, int), DecodeErrorV>(
                (v@, j as int),
            ) && i <= j <= s@.len(),
            Err(e) => sp_value(s@, i as int) == Err::<(JsonV, int), DecodeErrorV>(e@),
        },
    decreases s@.len() - i, 0int,
{
    let j = ws_exec(s, i);
    if j >= s.len() {
        return Err(jerr_exec());
    }
    let c = s[j];
    if c == 'n' {
        proof {
            reveal_strlit("null");
            assert("null"@.len() == 4);
        }
        if s.len() - j >= 4 && s[j + 1] == 'u' && s[j + 2] == 'l' && s[j + 3] == 'l' {
            proof {
                assert(s@.subrange(j as int, j + 4) =~= "null"@);
            }
            Ok((JsonValue::Null, j + 4))
        } else {
            proof {
                if j + 4 <= s@.len() {
                    assert(s@.subrange(j as int, j + 4)[1] == s@[j + 1]);
                    assert(s@.subrange(j as int, j + 4)[2] == s@[j + 2]);
                    assert(s@.subrange(j as int, j + 4)[3] == s@[j + 3]);
                }
            }
            Err(jerr_exec())
        }
    } else if c == 't' {
        proof {
            reveal_strlit("true");
            assert("true"@.len() == 4);
        }
        if s.len() - j >= 4 && s[j + 1] == 'r' && s[j + 2] == 'u' && s[j + 3] == 'e' {
            proof {
                assert(s@.subrange(j as int, j + 4) =~= "true"@);
            }
            Ok((JsonValue::Bool(true), j + 4))
        } else {
            proof {
                if j + 4 <= s@.len() {
                    assert(s@.subrange(j as int, j + 4)[1] == s@[j + 1]);
                    assert(s@.subrange(j as int, j + 4)[2] == s@[j + 2]);
                    assert(s@.subrange(j as int, j + 4)[3] == s@[j + 3]);
                }
            }
            Err(jerr_exec())
        }
    } else if c == 'f' {
        proof {
            reveal_strlit("false");
            assert("false"@.len() == 5);
        }
        if s.len() - j >= 5 && s[j + 1] == 'a' && s[j + 2] == 'l' && s[j + 3] == 's' && s[j + 4]
            == 'e' {
            proof {
                assert(s@.subrange(j as int, j + 5) =~= "false"@);
            }
            Ok((JsonValue::Bool(false), j + 5))
        } else {
            proof {
                if j + 5 <= s@.len() {
                    assert(s@.subrange(j as int, j + 5)[1] == s@[j + 1]);
                    assert(s@.subrange(j as int, j + 5)[2] == s@[j + 2]);
                    assert(s@.subrange(j as int, j + 5)[3] == s@[j + 3]);
                    assert(s@.subrange(j as int, j + 5)[4] == s@[j + 4]);
                }
            }
            Err(jerr_exec())
        }
    } else if c == '"' {
        match parse_string_body(s, j + 1) {
            Ok((st, j2)) => Ok((JsonValue::Str(st), j2)),
            Err(e) => Err(e),
        }
    } else if c == '-' || ('0' <= c && c <= '9') {
        parse_number(s, j)
    } else if c == '{' {
        parse_object(s, j + 1)
    } else if c == '[' {
        parse_array(s, j + 1)
    } else {
        Err(jerr_exec())
    }
}

/// Executable form of `sp_object`.
fn parse_object(s: &Vec<char>, i: usize) -> (r: Result<(JsonValue, usize), DecodeError>)
    requires
        i <= s@.len(),
    ensures
        match r {
            Ok((v, j)) => sp_object(s@, i as int) == Ok::<(JsonV, int), DecodeErrorV>(
                (v@, j as int),
            ) && i <= j <= s@.len(),
            Err(e) => sp_object(s@, i as int) == Err::<(JsonV, int), DecodeErrorV>(e@),
        },
    decreases s@.len() - i, 2int,
{
    let j = ws_exec(s, i);
    if j >= s.len() {
        return Err(jerr_exec());
    }
    if s[j] == '}' {
        let r = JsonValue::Obj(Vec::new());
        proof {
            assert(model_obj(Seq::<(String, JsonValue)>::empty()) =~= Seq::<
                (Seq<char>, JsonV),
            >::empty());
        }
        return Ok((r, j + 1));
    }
    parse_members(s, j, i)
}

/// Executable form of `sp_members`, looping where the specification
/// recurses; `lo` is the position the enclosing object started scanning
/// from, carried only for termination bookkeeping.
fn parse_members(s: &Vec<char>, i: usize, lo: usize) -> (r: Result<(JsonValue, usize), DecodeError>)
    requires
        lo <= i <= s@.len(),
    ensures
        match r {
            Ok((v, j)) => sp_members(s@, i as int, Seq::empty()) == Ok::<
                (JsonV, int),
                DecodeErrorV,
            >((v@, j as int)) && i <= j <= s@.len(),
            Err(e) => sp_members(s@, i as int, Seq::empty()) == Err::<(JsonV, int), DecodeErrorV>(
                e@,
            ),
        },
    decreases s@.len() - lo, 1int,
{
    let mut acc: Vec<(String, JsonValue)> = Vec::new();
    let mut cur: usize = i;
    proof {
        assert(model_obj(acc@) =~= Seq::<(Seq<char>, JsonV)>::empty());
    }
    loop
        invariant
            lo <= i <= cur <= s@.len(),
            sp_members(s@, i as int, Seq::empty()) == sp_members(s@, cur as int, model_obj(acc@)),
        decreases s@.len() - cur,
    {
        let ghost accv = model_obj(acc@);
        let j = ws_exec(s, cur);
        if j >= s.len() {
            return Err(jerr_exec());
        }
        if s[j] != '"' {
            return Err(jerr_exec());
        }
        let (k, j2) = match parse_string_body(s, j + 1) {
            Ok(p) => p,
            Err(e) => {
                return Err(e);
            },
        };
        let j3 = ws_exec(s, j2);
        if j3 >= s.len() {
            return Err(jerr_exec());
        }
        if s[j3] != ':' {
            return Err(jerr_exec());
        }
        let (v, j4) = match parse_value(s, j3 + 1) {
            Ok(p) => p,
            Err(e) => {
                return Err(e);
            },
        };
        let ghost kv = k@;
        let ghost vv = v@;
        let ghost acc_pre = acc@;
        acc.push((k, v));
        proof {
            assert(acc@.drop_last() =~= acc_pre);
            assert(model_obj(acc@) == model_obj(acc_pre).push((kv, vv)));
        }
        let j5 = ws_exec(s, j4);
        if j5 >= s.len() {
            return Err(jerr_exec());
        }
        if s[j5] == ',' {
            cur = j5 + 1;
        } else if s[j5] == '}' {
            let ghost psv = model_obj(acc@);
            let r = JsonValue::Obj(acc);
            proof {
                assert(r@ == JsonV::Obj(psv));
            }
            return Ok((r, j5 + 1));
        } else {
            return Err(jerr_exec());
        }
    }
}

/// Executable form of `sp_array`.
fn parse_array(s: &Vec<char>, i: usize) -> (r: Result<(JsonValue, usize), DecodeError>)
    requires
        i <= s@.len(),
    ensures
        match r {
            Ok((v, j)) => sp_array(s@, i as int) == Ok::<(JsonV, int), DecodeErrorV>(
                (v@, j as int),
            ) && i <= j <= s@.len(),
            Err(e) => sp_array(s@, i as int) == Err::<(JsonV, int), DecodeErrorV>(e@),
        },
    decreases s@.len() - i, 2int,
{
    let j = ws_exec(s, i);
    if j >= s.len() {
        return Err(jerr_exec());
    }
    if s[j] == ']' {
        let r = JsonValue::Arr(Vec::new());
        proof {
            assert(model_arr(Seq::<JsonValue>::empty()) =~= Seq::<JsonV>::empty());
        }
        return Ok((r, j + 1));
    }
    parse_elems(s, j, i)
}

/// Executable form of `sp_elems`, looping where the specification
/// recurses; `lo` is carried only for termination bookkeeping.
fn parse_elems(s: &Vec<char>, i: usize, lo: usize) -> (r: Result<(JsonValue, usize), DecodeError>)
    requires
        lo <= i <= s@.len(),
    ensures
        match r {
            Ok((v, j)) => sp_elems(s@, i as int, Seq::empty()) == Ok::<(JsonV, int), DecodeErrorV>(
                (v@, j as int),
            ) && i <= j <= s@.len(),
            Err(e) => sp_elems(s@, i as int, Seq::empty()) == Err::<(JsonV, int), DecodeErrorV>(
                e@,
            ),
        },
    decreases s@.len() - lo, 1int,
{
    let mut acc: Vec<JsonValue> = Vec::new();
    let mut cur: usize = i;
    proof {
        assert(model_arr(acc@) =~= Seq::<JsonV>::empty());
    }
    loop
        invariant
            lo <= i <= cur <= s@.len(),
            sp_elems(s@, i as int, Seq::empty()) == sp_elems(s@, cur as int, model_arr(acc@)),
        decreases s@.len() - cur,
    {
        let ghost accv = model_arr(acc@);
        let (v, j) = match parse_value(s, cur) {
            Ok(p) => p,
            Err(e) => {
                return Err(e);
            },
        };
        let ghost vv = v@;
        let ghost acc_pre = acc@;
        acc.push(v);
        proof {
            assert(acc@.drop_last() =~= acc_pre);
            assert(model_arr(acc@) == model_arr(acc_pre).push(vv));
        }
        let j2 = ws_exec(s, j);
        if j2 >= s.len() {
            return Err(jerr_exec());
        }
        if s[j2] == ',' {
            cur = j2 + 1;
        } else if s[j2] == ']' {
            let ghost vsv = model_arr(acc@);
            let r = JsonValue::Arr(acc);
            proof {
                assert(r@ == JsonV::Arr(vsv));
            }
            return Ok((r, j2 + 1));
        } else {
            return Err(jerr_exec());
        }
    }
}

/// Parses a whole JSON text: one value, then only whitespace.
pub fn parse_json(text: &str) -> (r: Result<JsonValue, DecodeError>)
    ensures
        match r {
            Ok(v) => sp_json(text@) == Ok::<JsonV, DecodeErrorV>(v@),
            Err(e) => sp_json(text@) == Err::<JsonV, DecodeErrorV>(e@),
        },
{
    let s = crate::text::str_to_chars(text);
    match parse_value(&s, 0) {
        Ok((v, j)) => {
            let j2 = ws_exec(&s, j);
            if j2 < s.len() {
                Err(jerr_exec())
            } else {
                Ok(v)
            }
        },
        Err(e) => Err(e),
    }
}

} // verus!
