//! A response carrying the registry's whole collection.

use vstd::prelude::*;
use vstd::string::StringExecFns;
use crate::json::{JsonV, JsonValue, model_obj, lemma_model_obj};
use crate::errors::{DecodeError, DecodeErrorV};
use crate::codec::{obj_fold, lemma_obj_fold_push, lemma_obj_fold_stops, result_view, opt_view};
use crate::applications::{Applications, ApplicationsV, enc_applications, dec_applications, applications_from_json, applications_to_json};
use crate::text::str_eq;

verus! {

broadcast use
    vstd::std_specs::vec::group_vec_axioms,
    vstd::seq::group_seq_axioms,
    vstd::string::group_string_axioms,
;

/// A response carrying the registry's whole collection.
#[derive(Debug, PartialEq, Eq, Clone)]
pub struct ApplicationsResponse {
    pub applications: Applications,
}

/// Model of the wrapper.
#[verifier::ext_equal]
pub struct ApplicationsResponseV {
    pub applications: ApplicationsV,
}

impl View for ApplicationsResponse {
    type V = ApplicationsResponseV;

    open spec fn view(&self) -> ApplicationsResponseV {
        ApplicationsResponseV { applications: self.applications@ }
    }
}

impl ApplicationsResponse {
    /// Wraps the collection.
    pub fn new(applications: Applications) -> (r: ApplicationsResponse)
        ensures
            r@ == (ApplicationsResponseV { applications: applications@ }),
    {
        ApplicationsResponse { applications }
    }
}

/// The wire object of the wrapper: its single member.
pub open spec fn enc_apps_response(x: ApplicationsResponseV) -> JsonV {
    JsonV::Obj(seq![("applications"@, enc_applications(x.applications))])
}

/// Folds one member into the partially decoded wrapper.
pub open spec fn apps_response_step(b: Option<ApplicationsV>, p: (Seq<char>, JsonV)) -> Result<
    Option<ApplicationsV>,
    DecodeErrorV,
> {
    let (k, v) = p;
    if k == "applications"@ {
        if b is Some {
            Err(DecodeErrorV::DuplicateField(k))
        } else {
            match dec_applications(v) {
                Ok(x) => Ok(Some(x)),
                Err(e) => Err(e),
            }
        }
    } else {
        Err(DecodeErrorV::UnknownField(k))
    }
}

/// The step function of the wrapper, as a value for the fold.
pub open spec fn apps_response_step_f() -> spec_fn(Option<ApplicationsV>, (Seq<char>, JsonV)) -> Result<
    Option<ApplicationsV>,
    DecodeErrorV,
> {
    |b: Option<ApplicationsV>, p: (Seq<char>, JsonV)| apps_response_step(b, p)
}

/// What a wire value decodes to as the wrapper: its single member is
/// mandatory.
pub open spec fn dec_apps_response(v: JsonV) -> Result<ApplicationsResponseV, DecodeErrorV> {
    match v {
        JsonV::Obj(ps) => match obj_fold(apps_response_step_f(), None, ps) {
            Ok(b) => match b {
                Some(x) => Ok(ApplicationsResponseV { applications: x }),
                None => Err(DecodeErrorV::MissingField("applications"@)),
            },
            Err(e) => Err(e),
        },
        _ => Err(DecodeErrorV::TypeMismatch("ApplicationsResponse"@)),
    }
}

/// Executable form of `apps_response_step`.
fn apps_response_apply(b: &mut Option<Applications>, k: &String, v: &JsonValue) -> (r: Result<
    (),
    DecodeError,
>)
    ensures
        match r {
            Ok(_) => apps_response_step(opt_view(*old(b)), (k@, v@)) == Ok::<
                Option<ApplicationsV>,
                DecodeErrorV,
            >(opt_view(*final(b))),
            Err(e) => apps_response_step(opt_view(*old(b)), (k@, v@)) == Err::<
                Option<ApplicationsV>,
                DecodeErrorV,
            >(e@),
        },
{
    if str_eq(k.as_str(), "applications") {
        if b.is_some() {
            return Err(DecodeError::DuplicateField(k.clone()));
        }
        match applications_from_json(v) {
            Ok(x) => {
                *b = Some(x);
                Ok(())
            },
            Err(e) => Err(e),
        }
    } else {
        Err(DecodeError::UnknownField(k.clone()))
    }
}

/// Decodes a wire value as the wrapper, surfacing the first violation.
pub fn apps_response_from_json(v: &JsonValue) -> (r: Result<ApplicationsResponse, DecodeError>)
    ensures
        result_view(r) == dec_apps_response(v@),
{
    let ps = match v {
        JsonValue::Obj(ps) => ps,
        _ => {
            return Err(DecodeError::TypeMismatch(String::from_str("ApplicationsResponse")));
        },
    };
    let ghost psv = model_obj(ps@);
    proof {
        lemma_model_obj(ps@);
        assert(v@ == JsonV::Obj(psv));
    }
    let mut b: Option<Applications> = None;
    let mut i: usize = 0;
    while i < ps.len()
        invariant
            i <= ps.len(),
            psv == model_obj(ps@),
            v@ == JsonV::Obj(psv),
            psv.len() == ps@.len(),
            forall|j: int| 0 <= j < ps@.len() ==> #[trigger] psv[j] == (ps@[j].0@, ps@[j].1@),
            obj_fold(apps_response_step_f(), None, psv.take(i as int)) == Ok::<
                Option<ApplicationsV>,
                DecodeErrorV,
            >(opt_view(b)),
        decreases ps.len() - i,
    {
        let ghost b_pre = opt_view(b);
        match apps_response_apply(&mut b, &ps[i].0, &ps[i].1) {
            Ok(_) => {
                proof {
                    lemma_obj_fold_push(apps_response_step_f(), None, psv.take(i as int), psv[i as int]);
                    assert(psv.take(i as int).push(psv[i as int]) =~= psv.take(i + 1));
                }
            },
            Err(e) => {
                proof {
                    lemma_obj_fold_stops(apps_response_step_f(), None, psv, i as int, b_pre, e@);
                }
                return Err(e);
            },
        }
        i = i + 1;
    }
    proof {
        assert(psv.take(ps@.len() as int) =~= psv);
    }
    match b {
        Some(x) => Ok(ApplicationsResponse { applications: x }),
        None => Err(DecodeError::MissingField(String::from_str("applications"))),
    }
}

/// Encodes the wrapper as its wire object.
pub fn apps_response_to_json(x: &ApplicationsResponse) -> (r: JsonValue)
    ensures
        r@ == enc_apps_response(x@),
{
    let mut ps: Vec<(String, JsonValue)> = Vec::new();
    ps.push((String::from_str("applications"), applications_to_json(&x.applications)));
    let ghost psv = ps@;
    let r = JsonValue::Obj(ps);
    proof {
        lemma_model_obj(psv);
        assert(model_obj(psv) =~= enc_apps_response(x@)->Obj_0);
        assert(r@ =~= enc_apps_response(x@));
    }
    r
}

} // verus!
