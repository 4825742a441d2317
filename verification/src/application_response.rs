//! A response carrying a single application group.

use vstd::prelude::*;
use vstd::string::StringExecFns;
use crate::json::{JsonV, JsonValue, model_obj, lemma_model_obj};
use crate::errors::{DecodeError, DecodeErrorV};
use crate::codec::{obj_fold, lemma_obj_fold_push, lemma_obj_fold_stops, result_view, opt_view};
use crate::application::{Application, ApplicationV, enc_application, dec_application, application_from_json, application_to_json};
use crate::text::str_eq;

verus! {

broadcast use
    vstd::std_specs::vec::group_vec_axioms,
    vstd::seq::group_seq_axioms,
    vstd::string::group_string_axioms,
;

/// A response carrying a single application group.
#[derive(Debug, PartialEq, Eq, Clone)]
pub struct ApplicationResponse {
    pub application: Application,
}

/// Model of the wrapper.
#[verifier::ext_equal]
pub struct ApplicationResponseV {
    pub application: ApplicationV,
}

impl View for ApplicationResponse {
    type V = ApplicationResponseV;

    open spec fn view(&self) -> ApplicationResponseV {
        ApplicationResponseV { application: self.application@ }
    }
}

impl ApplicationResponse {
    /// Wraps an application group.
    pub fn new(application: Application) -> (r: ApplicationResponse)
        ensures
            r@ == (ApplicationResponseV { application: application@ }),
    {
        ApplicationResponse { application }
    }
}

/// The wire object of the wrapper: its single member.
pub open spec fn enc_app_response(x: ApplicationResponseV) -> JsonV {
    JsonV::Obj(seq![("application"@, enc_application(x.application))])
}

/// Folds one member into the partially decoded wrapper.
pub open spec fn app_response_step(b: Option<ApplicationV>, p: (Seq<char>, JsonV)) -> Result<
    Option<ApplicationV>,
    DecodeErrorV,
> {
    let (k, v) = p;
    if k == "application"@ {
        if b is Some {
            Err(DecodeErrorV::DuplicateField(k))
        } else {
            match dec_application(v) {
                Ok(x) => Ok(Some(x)),
                Err(e) => Err(e),
            }
        }
    } else {
        Err(DecodeErrorV::UnknownField(k))
    }
}

/// The step function of the wrapper, as a value for the fold.
pub open spec fn app_response_step_f() -> spec_fn(Option<ApplicationV>, (Seq<char>, JsonV)) -> Result<
    Option<ApplicationV>,
    DecodeErrorV,
> {
    |b: Option<ApplicationV>, p: (Seq<char>, JsonV)| app_response_step(b, p)
}

/// What a wire value decodes to as the wrapper: its single member is
/// mandatory.
pub open spec fn dec_app_response(v: JsonV) -> Result<ApplicationResponseV, DecodeErrorV> {
    match v {
        JsonV::Obj(ps) => match obj_fold(app_response_step_f(), None, ps) {
            Ok(b) => match b {
                Some(x) => Ok(ApplicationResponseV { application: x }),
                None => Err(DecodeErrorV::MissingField("application"@)),
            },
            Err(e) => Err(e),
        },
        _ => Err(DecodeErrorV::TypeMismatch("ApplicationResponse"@)),
    }
}

/// Executable form of `app_response_step`.
fn app_response_apply(b: &mut Option<Application>, k: &String, v: &JsonValue) -> (r: Result<
    (),
    DecodeError,
>)
    ensures
        match r {
            Ok(_) => app_response_step(opt_view(*old(b)), (k@, v@)) == Ok::<
                Option<ApplicationV>,
                DecodeErrorV,
            >(opt_view(*final(b))),
            Err(e) => app_response_step(opt_view(*old(b)), (k@, v@)) == Err::<
                Option<ApplicationV>,
                DecodeErrorV,
            >(e@),
        },
{
    if str_eq(k.as_str(), "application") {
        if b.is_some() {
            return Err(DecodeError::DuplicateField(k.clone()));
        }
        match application_from_json(v) {
            Ok(x) => {
                *b = Some(x);
                Ok(())
            },
            Err(e) => Err(e),
        }
    } else {
        Err(DecodeError::UnknownField(k.clone()))
    }
}

/// Decodes a wire value as the wrapper, surfacing the first violation.
pub fn app_response_from_json(v: &JsonValue) -> (r: Result<ApplicationResponse, DecodeError>)
    ensures
        result_view(r) == dec_app_response(v@),
{
    let ps = match v {
        JsonValue::Obj(ps) => ps,
        _ => {
            return Err(DecodeError::TypeMismatch(String::from_str("ApplicationResponse")));
        },
    };
    let ghost psv = model_obj(ps@);
    proof {
        lemma_model_obj(ps@);
        assert(v@ == JsonV::Obj(psv));
    }
    let mut b: Option<Application> = None;
    let mut i: usize = 0;
    while i < ps.len()
        invariant
            i <= ps.len(),
            psv == model_obj(ps@),
            v@ == JsonV::Obj(psv),
            psv.len() == ps@.len(),
            forall|j: int| 0 <= j < ps@.len() ==> #[trigger] psv[j] == (ps@[j].0@, ps@[j].1@),
            obj_fold(app_response_step_f(), None, psv.take(i as int)) == Ok::<
                Option<ApplicationV>,
                DecodeErrorV,
            >(opt_view(b)),
        decreases ps.len() - i,
    {
        let ghost b_pre = opt_view(b);
        match app_response_apply(&mut b, &ps[i].0, &ps[i].1) {
            Ok(_) => {
                proof {
                    lemma_obj_fold_push(app_response_step_f(), None, psv.take(i as int), psv[i as int]);
                    assert(psv.take(i as int).push(psv[i as int]) =~= psv.take(i + 1));
                }
            },
            Err(e) => {
                proof {
                    lemma_obj_fold_stops(app_response_step_f(), None, psv, i as int, b_pre, e@);
                }
                return Err(e);
            },
        }
        i = i + 1;
    }
    proof {
        assert(psv.take(ps@.len() as int) =~= psv);
    }
    match b {
        Some(x) => Ok(ApplicationResponse { application: x }),
        None => Err(DecodeError::MissingField(String::from_str("application"))),
    }
}

/// Encodes the wrapper as its wire object.
pub fn app_response_to_json(x: &ApplicationResponse) -> (r: JsonValue)
    ensures
        r@ == enc_app_response(x@),
{
    let mut ps: Vec<(String, JsonValue)> = Vec::new();
    ps.push((String::from_str("application"), application_to_json(&x.application)));
    let ghost psv = ps@;
    let r = JsonValue::Obj(ps);
    proof {
        lemma_model_obj(psv);
        assert(model_obj(psv) =~= enc_app_response(x@)->Obj_0);
        assert(r@ =~= enc_app_response(x@));
    }
    r
}

} // verus!
