//! A registration request: the instance to register, framed for the registry's POST body.

use vstd::prelude::*;
use vstd::string::StringExecFns;
use crate::json::{JsonV, JsonValue, model_obj, lemma_model_obj};
use crate::errors::{DecodeError, DecodeErrorV};
use crate::codec::{obj_fold, lemma_obj_fold_push, lemma_obj_fold_stops, result_view, opt_view};
use crate::instance::{Instance, InstanceV, enc_instance, dec_instance, instance_from_json, instance_to_json};
use crate::text::str_eq;

verus! {

broadcast use
    vstd::std_specs::vec::group_vec_axioms,
    vstd::seq::group_seq_axioms,
    vstd::string::group_string_axioms,
;

/// A registration request: the instance to register, framed for the registry's POST body.
#[derive(Debug, PartialEq, Eq, Clone)]
pub struct RegisterRequest {
    pub instance: Instance,
}

/// Model of the wrapper.
#[verifier::ext_equal]
pub struct RegisterRequestV {
    pub instance: InstanceV,
}

impl View for RegisterRequest {
    type V = RegisterRequestV;

    open spec fn view(&self) -> RegisterRequestV {
        RegisterRequestV { instance: self.instance@ }
    }
}

impl RegisterRequest {
    /// Frames an instance for registration.
    pub fn new(instance: Instance) -> (r: RegisterRequest)
        ensures
            r@ == (RegisterRequestV { instance: instance@ }),
    {
        RegisterRequest { instance }
    }
}

/// The wire object of the wrapper: its single member.
pub open spec fn enc_register(x: RegisterRequestV) -> JsonV {
    JsonV::Obj(seq![("instance"@, enc_instance(x.instance))])
}

/// Folds one member into the partially decoded wrapper.
pub open spec fn register_step(b: Option<InstanceV>, p: (Seq<char>, JsonV)) -> Result<
    Option<InstanceV>,
    DecodeErrorV,
> {
    let (k, v) = p;
    if k == "instance"@ {
        if b is Some {
            Err(DecodeErrorV::DuplicateField(k))
        } else {
            match dec_instance(v) {
                Ok(x) => Ok(Some(x)),
                Err(e) => Err(e),
            }
        }
    } else {
        Err(DecodeErrorV::UnknownField(k))
    }
}

/// The step function of the wrapper, as a value for the fold.
pub open spec fn register_step_f() -> spec_fn(Option<InstanceV>, (Seq<char>, JsonV)) -> Result<
    Option<InstanceV>,
    DecodeErrorV,
> {
    |b: Option<InstanceV>, p: (Seq<char>, JsonV)| register_step(b, p)
}

/// What a wire value decodes to as the wrapper: its single member is
/// mandatory.
pub open spec fn dec_register(v: JsonV) -> Result<RegisterRequestV, DecodeErrorV> {
    match v {
        JsonV::Obj(ps) => match obj_fold(register_step_f(), None, ps) {
            Ok(b) => match b {
                Some(x) => Ok(RegisterRequestV { instance: x }),
                None => Err(DecodeErrorV::MissingField("instance"@)),
            },
            Err(e) => Err(e),
        },
        _ => Err(DecodeErrorV::TypeMismatch("RegisterRequest"@)),
    }
}

/// Executable form of `register_step`.
fn register_apply(b: &mut Option<Instance>, k: &String, v: &JsonValue) -> (r: Result<
    (),
    DecodeError,
>)
    ensures
        match r {
            Ok(_) => register_step(opt_view(*old(b)), (k@, v@)) == Ok::<
                Option<InstanceV>,
                DecodeErrorV,
            >(opt_view(*final(b))),
            Err(e) => register_step(opt_view(*old(b)), (k@, v@)) == Err::<
                Option<InstanceV>,
                DecodeErrorV,
            >(e@),
        },
{
    if str_eq(k.as_str(), "instance") {
        if b.is_some() {
            return Err(DecodeError::DuplicateField(k.clone()));
        }
        match instance_from_json(v) {
            Ok(x) => {
                *b = Some(x);
                Ok(())
            },
            Err(e) => Err(e),
        }
    } else {
        Err(DecodeError::UnknownField(k.clone()))
    }
}

/// Decodes a wire value as the wrapper, surfacing the first violation.
pub fn register_from_json(v: &JsonValue) -> (r: Result<RegisterRequest, DecodeError>)
    ensures
        result_view(r) == dec_register(v@),
{
    let ps = match v {
        JsonValue::Obj(ps) => ps,
        _ => {
            return Err(DecodeError::TypeMismatch(String::from_str("RegisterRequest")));
        },
    };
    let ghost psv = model_obj(ps@);
    proof {
        lemma_model_obj(ps@);
        assert(v@ == JsonV::Obj(psv));
    }
    let mut b: Option<Instance> = None;
    let mut i: usize = 0;
    while i < ps.len()
        invariant
            i <= ps.len(),
            psv == model_obj(ps@),
            v@ == JsonV::Obj(psv),
            psv.len() == ps@.len(),
            forall|j: int| 0 <= j < ps@.len() ==> #[trigger] psv[j] == (ps@[j].0@, ps@[j].1@),
            obj_fold(register_step_f(), None, psv.take(i as int)) == Ok::<
                Option<InstanceV>,
                DecodeErrorV,
            >(opt_view(b)),
        decreases ps.len() - i,
    {
        let ghost b_pre = opt_view(b);
        match register_apply(&mut b, &ps[i].0, &ps[i].1) {
            Ok(_) => {
                proof {
                    lemma_obj_fold_push(register_step_f(), None, psv.take(i as int), psv[i as int]);
                    assert(psv.take(i as int).push(psv[i as int]) =~= psv.take(i + 1));
                }
            },
            Err(e) => {
                proof {
                    lemma_obj_fold_stops(register_step_f(), None, psv, i as int, b_pre, e@);
                }
                return Err(e);
            },
        }
        i = i + 1;
    }
    proof {
        assert(psv.take(ps@.len() as int) =~= psv);
    }
    match b {
        Some(x) => Ok(RegisterRequest { instance: x }),
        None => Err(DecodeError::MissingField(String::from_str("instance"))),
    }
}

/// Encodes the wrapper as its wire object.
pub fn register_to_json(x: &RegisterRequest) -> (r: JsonValue)
    ensures
        r@ == enc_register(x@),
{
    let mut ps: Vec<(String, JsonValue)> = Vec::new();
    ps.push((String::from_str("instance"), instance_to_json(&x.instance)));
    let ghost psv = ps@;
    let r = JsonValue::Obj(ps);
    proof {
        lemma_model_obj(psv);
        assert(model_obj(psv) =~= enc_register(x@)->Obj_0);
        assert(r@ =~= enc_register(x@));
    }
    r
}

} // verus!
