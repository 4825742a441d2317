//! The registry's synthetic port object: a value under "$" and an
//! enabled flag under "@enabled". The value arrives as a numeric literal
//! or as a numeric string depending on the server's vintage; both are
//! accepted and normalized to a plain unsigned 16-bit integer. The
//! enabled flag is consumed only to satisfy field validation, and is
//! always written as the string "true" on encode.

use vstd::prelude::*;
use vstd::string::StringExecFns;
use crate::json::{JsonV, JsonValue, model_obj, lemma_model_obj};
use crate::errors::{DecodeError, DecodeErrorV};
use crate::codec::{obj_fold, lemma_obj_fold_push, lemma_obj_fold_stops, result_view};
use crate::text::{dec_nat, parse_capped, str_to_chars, chars_parse_capped, chars_to_string, u64_to_chars, str_eq};

verus! {

broadcast use
    vstd::std_specs::vec::group_vec_axioms,
    vstd::seq::group_seq_axioms,
    vstd::string::group_string_axioms,
;

/// A plain port number wrapped for the wire.
pub struct Port {
    pub port: u16,
}

impl Port {
    /// Wraps a port number.
    pub fn new(port: u16) -> (r: Port)
        ensures
            r.port == port,
    {
        Port { port }
    }
}

/// The wire object of a port: its decimal numeral under "$" and the
/// always-true enabled flag.
pub open spec fn enc_port(p: u16) -> JsonV {
    JsonV::Obj(
        seq![
            ("$"@, JsonV::Str(dec_nat(p as nat))),
            ("@enabled"@, JsonV::Str("true"@)),
        ],
    )
}

/// Partially decoded port: the value, and whether the flag was seen.
pub struct PortBuilder {
    pub dollar: Option<u16>,
    pub enabled_seen: bool,
}

/// The builder before any member is read.
pub open spec fn port_empty() -> PortBuilder {
    PortBuilder { dollar: None, enabled_seen: false }
}

/// What the "$" member's value yields: a numeric string or a numeric
/// literal, in unsigned 16-bit range either way.
pub open spec fn port_value_of(v: JsonV) -> Option<u16> {
    match v {
        JsonV::Str(s) => match parse_capped(s, u16::MAX as int) {
            Some(n) => Some(n as u16),
            None => None,
        },
        JsonV::Int(n) => if 0 <= n <= u16::MAX {
            Some(n as u16)
        } else {
            None
        },
        _ => None,
    }
}

/// Folds one member into the builder.
pub open spec fn port_step(b: PortBuilder, p: (Seq<char>, JsonV)) -> Result<
    PortBuilder,
    DecodeErrorV,
> {
    let (k, v) = p;
    if k == "$"@ {
        if b.dollar is Some {
            Err(DecodeErrorV::DuplicateField(k))
        } else {
            match port_value_of(v) {
                Some(n) => Ok(PortBuilder { dollar: Some(n), ..b }),
                None => Err(DecodeErrorV::TypeMismatch(k)),
            }
        }
    } else if k == "@enabled"@ {
        if b.enabled_seen {
            Err(DecodeErrorV::DuplicateField(k))
        } else {
            match v {
                JsonV::Str(_) => Ok(PortBuilder { enabled_seen: true, ..b }),
                JsonV::Bool(_) => Ok(PortBuilder { enabled_seen: true, ..b }),
                _ => Err(DecodeErrorV::TypeMismatch(k)),
            }
        }
    } else {
        Err(DecodeErrorV::UnknownField(k))
    }
}

/// The step function of a port, as a value for the fold.
pub open spec fn port_step_f() -> spec_fn(PortBuilder, (Seq<char>, JsonV)) -> Result<
    PortBuilder,
    DecodeErrorV,
> {
    |b: PortBuilder, p: (Seq<char>, JsonV)| port_step(b, p)
}

/// Both members are required; the flag's content is discarded.
pub open spec fn port_finish(b: PortBuilder) -> Result<u16, DecodeErrorV> {
    if b.dollar is None {
        Err(DecodeErrorV::MissingField("$"@))
    } else if !b.enabled_seen {
        Err(DecodeErrorV::MissingField("@enabled"@))
    } else {
        Ok(b.dollar->0)
    }
}

/// What a wire value decodes to as a port number; `ctx` names the member
/// being decoded ("port" or "securePort").
pub open spec fn dec_port(v: JsonV, ctx: Seq<char>) -> Result<u16, DecodeErrorV> {
    match v {
        JsonV::Obj(ps) => match obj_fold(port_step_f(), port_empty(), ps) {
            Ok(b) => port_finish(b),
            Err(e) => Err(e),
        },
        _ => Err(DecodeErrorV::TypeMismatch(ctx)),
    }
}

/// Executable form of `port_value_of`.
fn port_value_from(v: &JsonValue) -> (r: Option<u16>)
    ensures
        r == port_value_of(v@),
{
    match v {
        JsonValue::Str(s) => {
            let chars = str_to_chars(s.as_str());
            proof {
                assert(chars@.subrange(0, chars@.len() as int) =~= s@);
            }
            match chars_parse_capped(&chars, 0, chars.len(), 65535) {
                Some(n) => Some(n as u16),
                None => None,
            }
        },
        JsonValue::Int(n) => if 0 <= *n && *n <= u16::MAX as i64 {
            Some(*n as u16)
        } else {
            None
        },
        _ => None,
    }
}

/// Executable form of `port_step`, updating the builder in place.
fn port_apply(b: &mut PortBuilder, k: &String, v: &JsonValue) -> (r: Result<(), DecodeError>)
    ensures
        match r {
            Ok(_) => port_step(*old(b), (k@, v@)) == Ok::<PortBuilder, DecodeErrorV>(*final(b)),
            Err(e) => port_step(*old(b), (k@, v@)) == Err::<PortBuilder, DecodeErrorV>(e@),
        },
{
    if str_eq(k.as_str(), "$") {
        if b.dollar.is_some() {
            return Err(DecodeError::DuplicateField(k.clone()));
        }
        match port_value_from(v) {
            Some(n) => {
                b.dollar = Some(n);
                Ok(())
            },
            None => Err(DecodeError::TypeMismatch(k.clone())),
        }
    } else if str_eq(k.as_str(), "@enabled") {
        if b.enabled_seen {
            return Err(DecodeError::DuplicateField(k.clone()));
        }
        match v {
            JsonValue::Str(_) => {
                b.enabled_seen = true;
                Ok(())
            },
            JsonValue::Bool(_) => {
                b.enabled_seen = true;
                Ok(())
            },
            _ => Err(DecodeError::TypeMismatch(k.clone())),
        }
    } else {
        Err(DecodeError::UnknownField(k.clone()))
    }
}

/// Decodes a wire value as a port number, surfacing the first violation.
pub fn port_from_json(v: &JsonValue, ctx: &str) -> (r: Result<u16, DecodeError>)
    ensures
        result_view(r) == dec_port(v@, ctx@),
{
    let ps = match v {
        JsonValue::Obj(ps) => ps,
        _ => {
            return Err(DecodeError::TypeMismatch(String::from_str(ctx)));
        },
    };
    let ghost psv = model_obj(ps@);
    proof {
        lemma_model_obj(ps@);
        assert(v@ == JsonV::Obj(psv));
    }
    let mut b = PortBuilder { dollar: None, enabled_seen: false };
    let mut i: usize = 0;
    while i < ps.len()
        invariant
            i <= ps.len(),
            psv == model_obj(ps@),
            v@ == JsonV::Obj(psv),
            psv.len() == ps@.len(),
            forall|j: int| 0 <= j < ps@.len() ==> #[trigger] psv[j] == (ps@[j].0@, ps@[j].1@),
            obj_fold(port_step_f(), port_empty(), psv.take(i as int)) == Ok::<
                PortBuilder,
                DecodeErrorV,
            >(b),
        decreases ps.len() - i,
    {
        let ghost b_pre = b;
        match port_apply(&mut b, &ps[i].0, &ps[i].1) {
            Ok(_) => {
                proof {
                    lemma_obj_fold_push(port_step_f(), port_empty(), psv.take(i as int), psv[i as int]);
                    assert(psv.take(i as int).push(psv[i as int]) =~= psv.take(i + 1));
                }
            },
            Err(e) => {
                proof {
                    lemma_obj_fold_stops(port_step_f(), port_empty(), psv, i as int, b_pre, e@);
                }
                return Err(e);
            },
        }
        i = i + 1;
    }
    proof {
        assert(psv.take(ps@.len() as int) =~= psv);
    }
    let dollar = match b.dollar {
        Some(n) => n,
        None => {
            return Err(DecodeError::MissingField(String::from_str("$")));
        },
    };
    if !b.enabled_seen {
        return Err(DecodeError::MissingField(String::from_str("@enabled")));
    }
    Ok(dollar)
}

/// Encodes a port number as its wire object.
pub fn port_to_json(p: u16) -> (r: JsonValue)
    ensures
        r@ == enc_port(p),
{
    let digits = u64_to_chars(p as u64);
    let value = chars_to_string(&digits);
    let mut ps: Vec<(String, JsonValue)> = Vec::new();
    ps.push((String::from_str("$"), JsonValue::Str(value)));
    ps.push((String::from_str("@enabled"), JsonValue::Str(String::from_str("true"))));
    let ghost psv = ps@;
    let r = JsonValue::Obj(ps);
    proof {
        lemma_model_obj(psv);
        assert(model_obj(psv) =~= enc_port(p)->Obj_0);
        assert(r@ =~= enc_port(p));
    }
    r
}

} // verus!
