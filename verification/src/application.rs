//! A named group holding exactly one instance in this codec's supported
//! shape.

use vstd::prelude::*;
use vstd::string::StringExecFns;
use crate::json::{JsonV, JsonValue, model_obj, lemma_model_obj};
use crate::errors::{DecodeError, DecodeErrorV};
use crate::codec::{obj_fold, lemma_obj_fold_push, lemma_obj_fold_stops, result_view, opt_view, str_of, json_str};
use crate::instance::{Instance, InstanceV, enc_instance, dec_instance, instance_from_json, instance_to_json};
use crate::text::str_eq;

verus! {

broadcast use
    vstd::std_specs::vec::group_vec_axioms,
    vstd::seq::group_seq_axioms,
    vstd::string::group_string_axioms,
;

/// A named application group with its single instance.
#[derive(Debug, PartialEq, Eq, Clone)]
pub struct Application {
    pub name: String,
    pub instance: Instance,
}

/// Model of an application group.
#[verifier::ext_equal]
pub struct ApplicationV {
    pub name: Seq<char>,
    pub instance: InstanceV,
}

impl View for Application {
    type V = ApplicationV;

    open spec fn view(&self) -> ApplicationV {
        ApplicationV { name: self.name@, instance: self.instance@ }
    }
}

/// The wire object of an application group.
pub open spec fn enc_application(a: ApplicationV) -> JsonV {
    JsonV::Obj(
        seq![("name"@, JsonV::Str(a.name)), ("instance"@, enc_instance(a.instance))],
    )
}

/// Partially decoded application group.
pub struct AppBuilder {
    pub name: Option<String>,
    pub instance: Option<Instance>,
}

/// Model of the partially decoded application group.
pub struct AppBuilderV {
    pub name: Option<Seq<char>>,
    pub instance: Option<InstanceV>,
}

impl View for AppBuilder {
    type V = AppBuilderV;

    open spec fn view(&self) -> AppBuilderV {
        AppBuilderV { name: opt_view(self.name), instance: opt_view(self.instance) }
    }
}

/// The builder before any member is read.
pub open spec fn app_empty() -> AppBuilderV {
    AppBuilderV { name: None, instance: None }
}

/// Folds one member into the builder.
pub open spec fn app_step(b: AppBuilderV, p: (Seq<char>, JsonV)) -> Result<
    AppBuilderV,
    DecodeErrorV,
> {
    let (k, v) = p;
    if k == "name"@ {
        if b.name is Some {
            Err(DecodeErrorV::DuplicateField(k))
        } else {
            match str_of(v, k) {
                Ok(s) => Ok(AppBuilderV { name: Some(s), ..b }),
                Err(e) => Err(e),
            }
        }
    } else if k == "instance"@ {
        if b.instance is Some {
            Err(DecodeErrorV::DuplicateField(k))
        } else {
            match dec_instance(v) {
                Ok(x) => Ok(AppBuilderV { instance: Some(x), ..b }),
                Err(e) => Err(e),
            }
        }
    } else {
        Err(DecodeErrorV::UnknownField(k))
    }
}

/// The step function of an application group, as a value for the fold.
pub open spec fn app_step_f() -> spec_fn(AppBuilderV, (Seq<char>, JsonV)) -> Result<
    AppBuilderV,
    DecodeErrorV,
> {
    |b: AppBuilderV, p: (Seq<char>, JsonV)| app_step(b, p)
}

/// After all members are consumed, both fields must be present.
pub open spec fn app_finish(b: AppBuilderV) -> Result<ApplicationV, DecodeErrorV> {
    if b.name is None {
        Err(DecodeErrorV::MissingField("name"@))
    } else if b.instance is None {
        Err(DecodeErrorV::MissingField("instance"@))
    } else {
        Ok(ApplicationV { name: b.name->0, instance: b.instance->0 })
    }
}

/// What a wire value decodes to as an application group.
pub open spec fn dec_application(v: JsonV) -> Result<ApplicationV, DecodeErrorV> {
    match v {
        JsonV::Obj(ps) => match obj_fold(app_step_f(), app_empty(), ps) {
            Ok(b) => app_finish(b),
            Err(e) => Err(e),
        },
        _ => Err(DecodeErrorV::TypeMismatch("application"@)),
    }
}

/// Executable form of `app_step`, updating the builder in place.
fn app_apply(b: &mut AppBuilder, k: &String, v: &JsonValue) -> (r: Result<(), DecodeError>)
    ensures
        match r {
            Ok(_) => app_step(old(b)@, (k@, v@)) == Ok::<AppBuilderV, DecodeErrorV>(final(b)@),
            Err(e) => app_step(old(b)@, (k@, v@)) == Err::<AppBuilderV, DecodeErrorV>(e@),
        },
{
    if str_eq(k.as_str(), "name") {
        if b.name.is_some() {
            return Err(DecodeError::DuplicateField(k.clone()));
        }
        match json_str(v, "name") {
            Ok(s) => {
                b.name = Some(s);
                Ok(())
            },
            Err(e) => Err(e),
        }
    } else if str_eq(k.as_str(), "instance") {
        if b.instance.is_some() {
            return Err(DecodeError::DuplicateField(k.clone()));
        }
        match instance_from_json(v) {
            Ok(x) => {
                b.instance = Some(x);
                Ok(())
            },
            Err(e) => Err(e),
        }
    } else {
        Err(DecodeError::UnknownField(k.clone()))
    }
}

/// Decodes a wire value as an application group.
pub fn application_from_json(v: &JsonValue) -> (r: Result<Application, DecodeError>)
    ensures
        result_view(r) == dec_application(v@),
{
    let ps = match v {
        JsonValue::Obj(ps) => ps,
        _ => {
            return Err(DecodeError::TypeMismatch(String::from_str("application")));
        },
    };
    let ghost psv = model_obj(ps@);
    proof {
        lemma_model_obj(ps@);
        assert(v@ == JsonV::Obj(psv));
    }
    let mut b = AppBuilder { name: None, instance: None };
    let mut i: usize = 0;
    while i < ps.len()
        invariant
            i <= ps.len(),
            psv == model_obj(ps@),
            v@ == JsonV::Obj(psv),
            psv.len() == ps@.len(),
            forall|j: int| 0 <= j < ps@.len() ==> #[trigger] psv[j] == (ps@[j].0@, ps@[j].1@),
            obj_fold(app_step_f(), app_empty(), psv.take(i as int)) == Ok::<
                AppBuilderV,
                DecodeErrorV,
            >(b@),
        decreases ps.len() - i,
    {
        let ghost b_pre = b@;
        match app_apply(&mut b, &ps[i].0, &ps[i].1) {
            Ok(_) => {
                proof {
                    lemma_obj_fold_push(app_step_f(), app_empty(), psv.take(i as int), psv[i as int]);
                    assert(psv.take(i as int).push(psv[i as int]) =~= psv.take(i + 1));
                }
            },
            Err(e) => {
                proof {
                    lemma_obj_fold_stops(app_step_f(), app_empty(), psv, i as int, b_pre, e@);
                }
                return Err(e);
            },
        }
        i = i + 1;
    }
    proof {
        assert(psv.take(ps@.len() as int) =~= psv);
    }
    let name = match b.name {
        Some(s) => s,
        None => {
            return Err(DecodeError::MissingField(String::from_str("name")));
        },
    };
    let instance = match b.instance {
        Some(x) => x,
        None => {
            return Err(DecodeError::MissingField(String::from_str("instance")));
        },
    };
    Ok(Application { name, instance })
}

/// Encodes an application group as its wire object.
pub fn application_to_json(a: &Application) -> (r: JsonValue)
    ensures
        r@ == enc_application(a@),
{
    let mut ps: Vec<(String, JsonValue)> = Vec::new();
    ps.push((String::from_str("name"), JsonValue::Str(a.name.clone())));
    ps.push((String::from_str("instance"), instance_to_json(&a.instance)));
    let ghost psv = ps@;
    let r = JsonValue::Obj(ps);
    proof {
        lemma_model_obj(psv);
        assert(model_obj(psv) =~= enc_application(a@)->Obj_0);
        assert(r@ =~= enc_application(a@));
    }
    r
}

} // verus!
