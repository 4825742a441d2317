//! The top-level registry collection, and the cardinality resolver for
//! its "application" member: the registry serializes a one-element
//! collection as a bare object and a larger one as an array, so decoding
//! probes the shape and normalizes to a list, while encoding branches on
//! the list's length and omits the member when the list is empty.

use vstd::prelude::*;
use vstd::string::StringExecFns;
use crate::json::{JsonV, JsonValue, model_obj, lemma_model_obj, model_arr, lemma_model_arr};
use crate::errors::{DecodeError, DecodeErrorV};
use crate::codec::{obj_fold, lemma_obj_fold_push, lemma_obj_fold_stops, result_view, opt_view, str_of, i16_of, json_str, json_i16};
use crate::application::{Application, ApplicationV, enc_application, dec_application, application_from_json, application_to_json};
use crate::text::str_eq;

verus! {

broadcast use
    vstd::std_specs::vec::group_vec_axioms,
    vstd::seq::group_seq_axioms,
    vstd::string::group_string_axioms,
;

/// The registry's top-level collection: a version-delta counter, a hash
/// code summarizing registry state, and the application list.
#[derive(Debug, PartialEq, Eq, Clone)]
pub struct Applications {
    pub versions_delta: i16,
    pub apps_hashcode: String,
    pub applications: Vec<Application>,
}

/// Model of the collection.
#[verifier::ext_equal]
pub struct ApplicationsV {
    pub versions_delta: i16,
    pub apps_hashcode: Seq<char>,
    pub applications: Seq<ApplicationV>,
}

/// Model of an executable application list, elementwise.
pub open spec fn app_list_model(s: Seq<Application>) -> Seq<ApplicationV>
    decreases s,
{
    if s.len() == 0 {
        Seq::empty()
    } else {
        app_list_model(s.drop_last()).push(s.last()@)
    }
}

/// `app_list_model` is the elementwise model.
pub proof fn lemma_app_list_model(s: Seq<Application>)
    ensures
        app_list_model(s).len() == s.len(),
        forall|i: int| 0 <= i < s.len() ==> #[trigger] app_list_model(s)[i] == s[i]@,
    decreases s.len(),
{
    if s.len() > 0 {
        lemma_app_list_model(s.drop_last());
        assert forall|i: int| 0 <= i < s.len() implies #[trigger] app_list_model(s)[i] == s[i]@ by {
            if i < s.len() - 1 {
                assert(s.drop_last()[i] == s[i]);
            }
        }
    }
}

impl View for Applications {
    type V = ApplicationsV;

    open spec fn view(&self) -> ApplicationsV {
        ApplicationsV {
            versions_delta: self.versions_delta,
            apps_hashcode: self.apps_hashcode@,
            applications: app_list_model(self.applications@),
        }
    }
}

/// Decodes the elements of an "application" array in order, surfacing
/// the first element's violation.
pub open spec fn dec_app_seq(vs: Seq<JsonV>) -> Result<Seq<ApplicationV>, DecodeErrorV>
    decreases vs.len(),
{
    if vs.len() == 0 {
        Ok(Seq::empty())
    } else {
        match dec_app_seq(vs.drop_last()) {
            Ok(rest) => match dec_application(vs.last()) {
                Ok(a) => Ok(rest.push(a)),
                Err(e) => Err(e),
            },
            Err(e) => Err(e),
        }
    }
}

/// Decoding one more element appends its result.
pub proof fn lemma_dec_app_seq_push(vs: Seq<JsonV>, v: JsonV)
    ensures
        dec_app_seq(vs.push(v)) == (match dec_app_seq(vs) {
            Ok(rest) => match dec_application(v) {
                Ok(a) => Ok::<Seq<ApplicationV>, DecodeErrorV>(rest.push(a)),
                Err(e) => Err::<Seq<ApplicationV>, DecodeErrorV>(e),
            },
            Err(e) => Err::<Seq<ApplicationV>, DecodeErrorV>(e),
        }),
    decreases vs.len(),
{
    let q = vs.push(v);
    assert(q.drop_last() =~= vs);
    assert(q.last() == v);
}

/// Once an element fails to decode, the whole array fails with that same
/// first violation.
pub proof fn lemma_dec_app_seq_stops(vs: Seq<JsonV>, i: int, e: DecodeErrorV)
    requires
        0 <= i < vs.len(),
        dec_app_seq(vs.take(i)) is Ok,
        dec_application(vs[i]) == Err::<ApplicationV, DecodeErrorV>(e),
    ensures
        dec_app_seq(vs) == Err::<Seq<ApplicationV>, DecodeErrorV>(e),
    decreases vs.len(),
{
    if i == vs.len() - 1 {
        assert(vs.take(i) =~= vs.drop_last());
        assert(vs.last() == vs[i]);
    } else {
        assert(vs.drop_last().take(i) =~= vs.take(i));
        assert(vs.drop_last()[i] == vs[i]);
        lemma_dec_app_seq_stops(vs.drop_last(), i, e);
    }
}

/// The cardinality resolver on decode: a bare object is one application,
/// an array is decoded elementwise; anything else is a type mismatch.
pub open spec fn dec_app_field(v: JsonV) -> Result<Seq<ApplicationV>, DecodeErrorV> {
    match v {
        JsonV::Obj(_) => match dec_application(v) {
            Ok(a) => Ok(seq![a]),
            Err(e) => Err(e),
        },
        JsonV::Arr(vs) => dec_app_seq(vs),
        _ => Err(DecodeErrorV::TypeMismatch("application"@)),
    }
}

/// The elements of the encoded application array.
pub open spec fn enc_app_seq(apps: Seq<ApplicationV>) -> Seq<JsonV> {
    Seq::new(apps.len(), |i: int| enc_application(apps[i]))
}

/// The cardinality resolver on encode: exactly one application is
/// written as a bare object, two or more as an array, and none at all
/// writes no member.
pub open spec fn enc_app_field(apps: Seq<ApplicationV>) -> Seq<(Seq<char>, JsonV)> {
    if apps.len() == 1 {
        seq![("application"@, enc_application(apps[0]))]
    } else if apps.len() > 1 {
        seq![("application"@, JsonV::Arr(enc_app_seq(apps)))]
    } else {
        seq![]
    }
}

/// The wire object of the collection.
pub open spec fn enc_applications(a: ApplicationsV) -> JsonV {
    JsonV::Obj(
        seq![
            ("versions__delta"@, JsonV::Int(a.versions_delta as int)),
            ("apps__hashcode"@, JsonV::Str(a.apps_hashcode)),
        ] + enc_app_field(a.applications),
    )
}

/// Partially decoded collection.
pub struct AppsBuilder {
    pub versions_delta: Option<i16>,
    pub apps_hashcode: Option<String>,
    pub applications: Option<Vec<Application>>,
}

/// Model of the partially decoded collection.
pub struct AppsBuilderV {
    pub versions_delta: Option<i16>,
    pub apps_hashcode: Option<Seq<char>>,
    pub applications: Option<Seq<ApplicationV>>,
}

impl View for AppsBuilder {
    type V = AppsBuilderV;

    open spec fn view(&self) -> AppsBuilderV {
        AppsBuilderV {
            versions_delta: self.versions_delta,
            apps_hashcode: opt_view(self.apps_hashcode),
            applications: (match self.applications {
                Some(l) => Some(app_list_model(l@)),
                None => None,
            }),
        }
    }
}

/// The builder before any member is read.
pub open spec fn apps_empty() -> AppsBuilderV {
    AppsBuilderV { versions_delta: None, apps_hashcode: None, applications: None }
}

/// Folds one member into the builder.
pub open spec fn apps_step(b: AppsBuilderV, p: (Seq<char>, JsonV)) -> Result<
    AppsBuilderV,
    DecodeErrorV,
> {
    let (k, v) = p;
    if k == "versions__delta"@ {
        if b.versions_delta is Some {
            Err(DecodeErrorV::DuplicateField(k))
        } else {
            match i16_of(v, k) {
                Ok(n) => Ok(AppsBuilderV { versions_delta: Some(n), ..b }),
                Err(e) => Err(e),
            }
        }
    } else if k == "apps__hashcode"@ {
        if b.apps_hashcode is Some {
            Err(DecodeErrorV::DuplicateField(k))
        } else {
            match str_of(v, k) {
                Ok(s) => Ok(AppsBuilderV { apps_hashcode: Some(s), ..b }),
                Err(e) => Err(e),
            }
        }
    } else if k == "application"@ {
        if b.applications is Some {
            Err(DecodeErrorV::DuplicateField(k))
        } else {
            match dec_app_field(v) {
                Ok(l) => Ok(AppsBuilderV { applications: Some(l), ..b }),
                Err(e) => Err(e),
            }
        }
    } else {
        Err(DecodeErrorV::UnknownField(k))
    }
}

/// The step function of the collection, as a value for the fold.
pub open spec fn apps_step_f() -> spec_fn(AppsBuilderV, (Seq<char>, JsonV)) -> Result<
    AppsBuilderV,
    DecodeErrorV,
> {
    |b: AppsBuilderV, p: (Seq<char>, JsonV)| apps_step(b, p)
}

/// After all members are consumed, all three fields must be present.
pub open spec fn apps_finish(b: AppsBuilderV) -> Result<ApplicationsV, DecodeErrorV> {
    if b.versions_delta is None {
        Err(DecodeErrorV::MissingField("versions__delta"@))
    } else if b.apps_hashcode is None {
        Err(DecodeErrorV::MissingField("apps__hashcode"@))
    } else if b.applications is None {
        Err(DecodeErrorV::MissingField("application"@))
    } else {
        Ok(
            ApplicationsV {
                versions_delta: b.versions_delta->0,
                apps_hashcode: b.apps_hashcode->0,
                applications: b.applications->0,
            },
        )
    }
}

/// What a wire value decodes to as the collection.
pub open spec fn dec_applications(v: JsonV) -> Result<ApplicationsV, DecodeErrorV> {
    match v {
        JsonV::Obj(ps) => match obj_fold(apps_step_f(), apps_empty(), ps) {
            Ok(b) => apps_finish(b),
            Err(e) => Err(e),
        },
        _ => Err(DecodeErrorV::TypeMismatch("applications"@)),
    }
}

/// Executable form of the decode-side cardinality resolver.
pub fn app_field_from_json(v: &JsonValue) -> (r: Result<Vec<Application>, DecodeError>)
    ensures
        match r {
            Ok(l) => dec_app_field(v@) == Ok::<Seq<ApplicationV>, DecodeErrorV>(app_list_model(l@)),
            Err(e) => dec_app_field(v@) == Err::<Seq<ApplicationV>, DecodeErrorV>(e@),
        },
{
    match v {
        JsonValue::Obj(_) => {
            match application_from_json(v) {
                Ok(a) => {
                    let mut l: Vec<Application> = Vec::new();
                    let ghost av = a@;
                    l.push(a);
                    proof {
                        lemma_app_list_model(l@);
                        assert(app_list_model(l@) =~= seq![av]);
                    }
                    Ok(l)
                },
                Err(e) => Err(e),
            }
        },
        JsonValue::Arr(vs) => {
            let ghost vsv = model_arr(vs@);
            proof {
                lemma_model_arr(vs@);
                assert(v@ == JsonV::Arr(vsv));
            }
            let mut l: Vec<Application> = Vec::new();
            proof {
                assert(vsv.take(0) =~= Seq::<JsonV>::empty());
                assert(app_list_model(l@) =~= Seq::<ApplicationV>::empty());
            }
            let mut i: usize = 0;
            while i < vs.len()
                invariant
                    i <= vs.len(),
                    vsv == model_arr(vs@),
                    v@ == JsonV::Arr(vsv),
                    vsv.len() == vs@.len(),
                    forall|j: int| 0 <= j < vs@.len() ==> #[trigger] vsv[j] == vs@[j]@,
                    dec_app_seq(vsv.take(i as int)) == Ok::<Seq<ApplicationV>, DecodeErrorV>(
                        app_list_model(l@),
                    ),
                decreases vs.len() - i,
            {
                let ghost l_pre = app_list_model(l@);
                match application_from_json(&vs[i]) {
                    Ok(a) => {
                        let ghost av = a@;
                        let ghost lv_pre = l@;
                        l.push(a);
                        proof {
                            lemma_dec_app_seq_push(vsv.take(i as int), vsv[i as int]);
                            assert(vsv.take(i as int).push(vsv[i as int]) =~= vsv.take(i + 1));
                            assert(l@.drop_last() =~= lv_pre);
                            assert(app_list_model(l@) == app_list_model(lv_pre).push(l@.last()@));
                            assert(l@.last()@ == av);
                        }
                    },
                    Err(e) => {
                        proof {
                            lemma_dec_app_seq_stops(vsv, i as int, e@);
                        }
                        return Err(e);
                    },
                }
                i = i + 1;
            }
            proof {
                assert(vsv.take(vs@.len() as int) =~= vsv);
            }
            Ok(l)
        },
        _ => Err(DecodeError::TypeMismatch(String::from_str("application"))),
    }
}

/// Executable form of `apps_step`, updating the builder in place.
fn apps_apply(b: &mut AppsBuilder, k: &String, v: &JsonValue) -> (r: Result<(), DecodeError>)
    ensures
        match r {
            Ok(_) => apps_step(old(b)@, (k@, v@)) == Ok::<AppsBuilderV, DecodeErrorV>(final(b)@),
            Err(e) => apps_step(old(b)@, (k@, v@)) == Err::<AppsBuilderV, DecodeErrorV>(e@),
        },
{
    if str_eq(k.as_str(), "versions__delta") {
        if b.versions_delta.is_some() {
            return Err(DecodeError::DuplicateField(k.clone()));
        }
        match json_i16(v, "versions__delta") {
            Ok(n) => {
                b.versions_delta = Some(n);
                Ok(())
            },
            Err(e) => Err(e),
        }
    } else if str_eq(k.as_str(), "apps__hashcode") {
        if b.apps_hashcode.is_some() {
            return Err(DecodeError::DuplicateField(k.clone()));
        }
        match json_str(v, "apps__hashcode") {
            Ok(s) => {
                b.apps_hashcode = Some(s);
                Ok(())
            },
            Err(e) => Err(e),
        }
    } else if str_eq(k.as_str(), "application") {
        if b.applications.is_some() {
            return Err(DecodeError::DuplicateField(k.clone()));
        }
        match app_field_from_json(v) {
            Ok(l) => {
                b.applications = Some(l);
                Ok(())
            },
            Err(e) => Err(e),
        }
    } else {
        Err(DecodeError::UnknownField(k.clone()))
    }
}

/// Decodes a wire value as the collection, surfacing the first
/// violation.
pub fn applications_from_json(v: &JsonValue) -> (r: Result<Applications, DecodeError>)
    ensures
        result_view(r) == dec_applications(v@),
{
    let ps = match v {
        JsonValue::Obj(ps) => ps,
        _ => {
            return Err(DecodeError::TypeMismatch(String::from_str("applications")));
        },
    };
    let ghost psv = model_obj(ps@);
    proof {
        lemma_model_obj(ps@);
        assert(v@ == JsonV::Obj(psv));
    }
    let mut b = AppsBuilder { versions_delta: None, apps_hashcode: None, applications: None };
    let mut i: usize = 0;
    while i < ps.len()
        invariant
            i <= ps.len(),
            psv == model_obj(ps@),
            v@ == JsonV::Obj(psv),
            psv.len() == ps@.len(),
            forall|j: int| 0 <= j < ps@.len() ==> #[trigger] psv[j] == (ps@[j].0@, ps@[j].1@),
            obj_fold(apps_step_f(), apps_empty(), psv.take(i as int)) == Ok::<
                AppsBuilderV,
                DecodeErrorV,
            >(b@),
        decreases ps.len() - i,
    {
        let ghost b_pre = b@;
        match apps_apply(&mut b, &ps[i].0, &ps[i].1) {
            Ok(_) => {
                proof {
                    lemma_obj_fold_push(apps_step_f(), apps_empty(), psv.take(i as int), psv[i as int]);
                    assert(psv.take(i as int).push(psv[i as int]) =~= psv.take(i + 1));
                }
            },
            Err(e) => {
                proof {
                    lemma_obj_fold_stops(apps_step_f(), apps_empty(), psv, i as int, b_pre, e@);
                }
                return Err(e);
            },
        }
        i = i + 1;
    }
    proof {
        assert(psv.take(ps@.len() as int) =~= psv);
    }
    let versions_delta = match b.versions_delta {
        Some(n) => n,
        None => {
            return Err(DecodeError::MissingField(String::from_str("versions__delta")));
        },
    };
    let apps_hashcode = match b.apps_hashcode {
        Some(s) => s,
        None => {
            return Err(DecodeError::MissingField(String::from_str("apps__hashcode")));
        },
    };
    let applications = match b.applications {
        Some(l) => l,
        None => {
            return Err(DecodeError::MissingField(String::from_str("application")));
        },
    };
    Ok(Applications { versions_delta, apps_hashcode, applications })
}

/// Encodes the collection as its wire object, the application member's
/// shape chosen by the list's length.
pub fn applications_to_json(a: &Applications) -> (r: JsonValue)
    ensures
        r@ == enc_applications(a@),
{
    let mut ps: Vec<(String, JsonValue)> = Vec::new();
    ps.push((String::from_str("versions__delta"), JsonValue::Int(a.versions_delta as i64)));
    ps.push((String::from_str("apps__hashcode"), JsonValue::Str(a.apps_hashcode.clone())));
    proof {
        lemma_app_list_model(a.applications@);
    }
    if a.applications.len() == 1 {
        ps.push((String::from_str("application"), application_to_json(&a.applications[0])));
    } else if a.applications.len() > 1 {
        let mut arr: Vec<JsonValue> = Vec::new();
        let mut i: usize = 0;
        while i < a.applications.len()
            invariant
                i <= a.applications@.len(),
                arr@.len() == i,
                forall|j: int| 0 <= j < a.applications@.len() ==> #[trigger] app_list_model(
                    a.applications@,
                )[j] == a.applications@[j]@,
                app_list_model(a.applications@).len() == a.applications@.len(),
                forall|j: int| 0 <= j < i ==> #[trigger] arr@[j]@ == enc_application(
                    a.applications@[j]@,
                ),
            decreases a.applications@.len() - i,
        {
            arr.push(application_to_json(&a.applications[i]));
            i = i + 1;
        }
        let ghost arrv = arr@;
        let jarr = JsonValue::Arr(arr);
        proof {
            lemma_model_arr(arrv);
            lemma_app_list_model(a.applications@);
            assert forall|j: int| 0 <= j < arrv.len() implies #[trigger] model_arr(arrv)[j]
                == enc_app_seq(app_list_model(a.applications@))[j] by {
                assert(model_arr(arrv)[j] == arrv[j].model());
                assert(arrv[j]@ == enc_application(a.applications@[j]@));
                assert(app_list_model(a.applications@)[j] == a.applications@[j]@);
            }
            assert(model_arr(arrv) =~= enc_app_seq(app_list_model(a.applications@)));
            assert(jarr@ =~= JsonV::Arr(enc_app_seq(app_list_model(a.applications@))));
        }
        ps.push((String::from_str("application"), jarr));
    }
    let ghost psv = ps@;
    let r = JsonValue::Obj(ps);
    proof {
        lemma_model_obj(psv);
        assert(model_obj(psv) =~= enc_applications(a@)->Obj_0);
        assert(r@ =~= enc_applications(a@));
    }
    r
}

} // verus!
