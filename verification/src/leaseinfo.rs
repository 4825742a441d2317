//! Lease information attached to an instance: six integer fields. The
//! lease duration is optional in the domain model; encoding an absent
//! duration emits the registry's default of 90 seconds, and decoding
//! never invents a value the server omitted.

use vstd::prelude::*;
use vstd::string::StringExecFns;
use crate::json::{JsonV, JsonValue};
use crate::errors::{DecodeError, DecodeErrorV};
use crate::codec::{obj_fold, lemma_obj_fold_push, lemma_obj_fold_stops, result_view, int_of, json_int};
use crate::json::model_obj;
use crate::json::lemma_model_obj;
use crate::text::str_eq;

verus! {

broadcast use
    vstd::std_specs::vec::group_vec_axioms,
    vstd::seq::group_seq_axioms,
    vstd::string::group_string_axioms,
;

/// The wire default for an absent lease duration, in seconds.
pub const LEASE_DURATION_DEFAULT: i64 = 90;

/// A lease: renewal interval, duration, and four timestamps.
#[derive(Debug, PartialEq, Eq, Clone, Copy)]
pub struct LeaseInfo {
    pub renewal_interval_in_secs: i64,
    pub duration_in_secs: Option<i64>,
    pub registration_timestamp: i64,
    pub last_renewal_timestamp: i64,
    pub eviction_timestamp: i64,
    pub service_up_timestamp: i64,
}

// A lease holds plain integers only, so it is its own model.
impl View for LeaseInfo {
    type V = LeaseInfo;

    open spec fn view(&self) -> LeaseInfo {
        *self
    }
}

/// The duration written on encode: the stored one, or the default.
pub open spec fn lease_duration_emitted(l: LeaseInfo) -> i64 {
    match l.duration_in_secs {
        Some(d) => d,
        None => LEASE_DURATION_DEFAULT,
    }
}

/// The wire object of a lease, members in canonical order.
pub open spec fn enc_lease(l: LeaseInfo) -> JsonV {
    JsonV::Obj(
        seq![
            ("renewalIntervalInSecs"@, JsonV::Int(l.renewal_interval_in_secs as int)),
            ("durationInSecs"@, JsonV::Int(lease_duration_emitted(l) as int)),
            ("registrationTimestamp"@, JsonV::Int(l.registration_timestamp as int)),
            ("lastRenewalTimestamp"@, JsonV::Int(l.last_renewal_timestamp as int)),
            ("evictionTimestamp"@, JsonV::Int(l.eviction_timestamp as int)),
            ("serviceUpTimestamp"@, JsonV::Int(l.service_up_timestamp as int)),
        ],
    )
}

/// Partially decoded lease: which members have been seen, and their values.
pub struct LeaseBuilder {
    pub renewal_interval_in_secs: Option<i64>,
    pub duration_in_secs: Option<i64>,
    pub registration_timestamp: Option<i64>,
    pub last_renewal_timestamp: Option<i64>,
    pub eviction_timestamp: Option<i64>,
    pub service_up_timestamp: Option<i64>,
}

/// The builder before any member is read.
pub open spec fn lease_empty() -> LeaseBuilder {
    LeaseBuilder {
        renewal_interval_in_secs: None,
        duration_in_secs: None,
        registration_timestamp: None,
        last_renewal_timestamp: None,
        eviction_timestamp: None,
        service_up_timestamp: None,
    }
}

/// Folds one member into the builder: an unrecognized key or a repeated
/// one is the first violation, and a non-integer value a type mismatch.
pub open spec fn lease_step(b: LeaseBuilder, p: (Seq<char>, JsonV)) -> Result<
    LeaseBuilder,
    DecodeErrorV,
> {
    let (k, v) = p;
    if k == "renewalIntervalInSecs"@ {
        if b.renewal_interval_in_secs is Some {
            Err(DecodeErrorV::DuplicateField(k))
        } else {
            match int_of(v, k) {
                Ok(n) => Ok(LeaseBuilder { renewal_interval_in_secs: Some(n), ..b }),
                Err(e) => Err(e),
            }
        }
    } else if k == "durationInSecs"@ {
        if b.duration_in_secs is Some {
            Err(DecodeErrorV::DuplicateField(k))
        } else {
            match int_of(v, k) {
                Ok(n) => Ok(LeaseBuilder { duration_in_secs: Some(n), ..b }),
                Err(e) => Err(e),
            }
        }
    } else if k == "registrationTimestamp"@ {
        if b.registration_timestamp is Some {
            Err(DecodeErrorV::DuplicateField(k))
        } else {
            match int_of(v, k) {
                Ok(n) => Ok(LeaseBuilder { registration_timestamp: Some(n), ..b }),
                Err(e) => Err(e),
            }
        }
    } else if k == "lastRenewalTimestamp"@ {
        if b.last_renewal_timestamp is Some {
            Err(DecodeErrorV::DuplicateField(k))
        } else {
            match int_of(v, k) {
                Ok(n) => Ok(LeaseBuilder { last_renewal_timestamp: Some(n), ..b }),
                Err(e) => Err(e),
            }
        }
    } else if k == "evictionTimestamp"@ {
        if b.eviction_timestamp is Some {
            Err(DecodeErrorV::DuplicateField(k))
        } else {
            match int_of(v, k) {
                Ok(n) => Ok(LeaseBuilder { eviction_timestamp: Some(n), ..b }),
                Err(e) => Err(e),
            }
        }
    } else if k == "serviceUpTimestamp"@ {
        if b.service_up_timestamp is Some {
            Err(DecodeErrorV::DuplicateField(k))
        } else {
            match int_of(v, k) {
                Ok(n) => Ok(LeaseBuilder { service_up_timestamp: Some(n), ..b }),
                Err(e) => Err(e),
            }
        }
    } else {
        Err(DecodeErrorV::UnknownField(k))
    }
}

/// The step function of a lease, as a value for the fold.
pub open spec fn lease_step_f() -> spec_fn(LeaseBuilder, (Seq<char>, JsonV)) -> Result<
    LeaseBuilder,
    DecodeErrorV,
> {
    |b: LeaseBuilder, p: (Seq<char>, JsonV)| lease_step(b, p)
}

/// After all members are consumed, every mandatory field must be present;
/// the duration stays absent if the server omitted it.
pub open spec fn lease_finish(b: LeaseBuilder) -> Result<LeaseInfo, DecodeErrorV> {
    if b.renewal_interval_in_secs is None {
        Err(DecodeErrorV::MissingField("renewalIntervalInSecs"@))
    } else if b.registration_timestamp is None {
        Err(DecodeErrorV::MissingField("registrationTimestamp"@))
    } else if b.last_renewal_timestamp is None {
        Err(DecodeErrorV::MissingField("lastRenewalTimestamp"@))
    } else if b.eviction_timestamp is None {
        Err(DecodeErrorV::MissingField("evictionTimestamp"@))
    } else if b.service_up_timestamp is None {
        Err(DecodeErrorV::MissingField("serviceUpTimestamp"@))
    } else {
        Ok(LeaseInfo {
            renewal_interval_in_secs: b.renewal_interval_in_secs->0,
            duration_in_secs: b.duration_in_secs,
            registration_timestamp: b.registration_timestamp->0,
            last_renewal_timestamp: b.last_renewal_timestamp->0,
            eviction_timestamp: b.eviction_timestamp->0,
            service_up_timestamp: b.service_up_timestamp->0,
        })
    }
}

/// What a wire value decodes to as a lease: the fold over an object's
/// members, then the mandatory-field check.
pub open spec fn dec_lease(v: JsonV) -> Result<LeaseInfo, DecodeErrorV> {
    match v {
        JsonV::Obj(ps) => match obj_fold(lease_step_f(), lease_empty(), ps) {
            Ok(b) => lease_finish(b),
            Err(e) => Err(e),
        },
        _ => Err(DecodeErrorV::TypeMismatch("leaseInfo"@)),
    }
}

/// Executable form of `lease_step`, updating the builder in place.
fn lease_apply(b: &mut LeaseBuilder, k: &String, v: &JsonValue) -> (r: Result<(), DecodeError>)
    ensures
        match r {
            Ok(_) => lease_step(*old(b), (k@, v@)) == Ok::<LeaseBuilder, DecodeErrorV>(*final(b)),
            Err(e) => lease_step(*old(b), (k@, v@)) == Err::<LeaseBuilder, DecodeErrorV>(e@),
        },
{
    if str_eq(k.as_str(), "renewalIntervalInSecs") {
        if b.renewal_interval_in_secs.is_some() {
            return Err(DecodeError::DuplicateField(k.clone()));
        }
        match json_int(v, "renewalIntervalInSecs") {
            Ok(n) => {
                b.renewal_interval_in_secs = Some(n);
                Ok(())
            },
            Err(e) => Err(e),
        }
    } else if str_eq(k.as_str(), "durationInSecs") {
        if b.duration_in_secs.is_some() {
            return Err(DecodeError::DuplicateField(k.clone()));
        }
        match json_int(v, "durationInSecs") {
            Ok(n) => {
                b.duration_in_secs = Some(n);
                Ok(())
            },
            Err(e) => Err(e),
        }
    } else if str_eq(k.as_str(), "registrationTimestamp") {
        if b.registration_timestamp.is_some() {
            return Err(DecodeError::DuplicateField(k.clone()));
        }
        match json_int(v, "registrationTimestamp") {
            Ok(n) => {
                b.registration_timestamp = Some(n);
                Ok(())
            },
            Err(e) => Err(e),
        }
    } else if str_eq(k.as_str(), "lastRenewalTimestamp") {
        if b.last_renewal_timestamp.is_some() {
            return Err(DecodeError::DuplicateField(k.clone()));
        }
        match json_int(v, "lastRenewalTimestamp") {
            Ok(n) => {
                b.last_renewal_timestamp = Some(n);
                Ok(())
            },
            Err(e) => Err(e),
        }
    } else if str_eq(k.as_str(), "evictionTimestamp") {
        if b.eviction_timestamp.is_some() {
            return Err(DecodeError::DuplicateField(k.clone()));
        }
        match json_int(v, "evictionTimestamp") {
            Ok(n) => {
                b.eviction_timestamp = Some(n);
                Ok(())
            },
            Err(e) => Err(e),
        }
    } else if str_eq(k.as_str(), "serviceUpTimestamp") {
        if b.service_up_timestamp.is_some() {
            return Err(DecodeError::DuplicateField(k.clone()));
        }
        match json_int(v, "serviceUpTimestamp") {
            Ok(n) => {
                b.service_up_timestamp = Some(n);
                Ok(())
            },
            Err(e) => Err(e),
        }
    } else {
        Err(DecodeError::UnknownField(k.clone()))
    }
}

/// Decodes a wire value as a lease, surfacing the first violation.
pub fn lease_from_json(v: &JsonValue) -> (r: Result<LeaseInfo, DecodeError>)
    ensures
        result_view(r) == dec_lease(v@),
{
    let ps = match v {
        JsonValue::Obj(ps) => ps,
        _ => {
            return Err(DecodeError::TypeMismatch(String::from_str("leaseInfo")));
        },
    };
    let ghost psv = model_obj(ps@);
    proof {
        lemma_model_obj(ps@);
        assert(v@ == JsonV::Obj(psv));
    }
    let mut b = LeaseBuilder {
        renewal_interval_in_secs: None,
        duration_in_secs: None,
        registration_timestamp: None,
        last_renewal_timestamp: None,
        eviction_timestamp: None,
        service_up_timestamp: None,
    };
    let mut i: usize = 0;
    while i < ps.len()
        invariant
            i <= ps.len(),
            psv == model_obj(ps@),
            v@ == JsonV::Obj(psv),
            psv.len() == ps@.len(),
            forall|j: int| 0 <= j < ps@.len() ==> psv[j] == (#[trigger] ps@[j].0@, ps@[j].1@),
            obj_fold(lease_step_f(), lease_empty(), psv.take(i as int)) == Ok::<
                LeaseBuilder,
                DecodeErrorV,
            >(b),
        decreases ps.len() - i,
    {
        let ghost b_pre = b;
        match lease_apply(&mut b, &ps[i].0, &ps[i].1) {
            Ok(_) => {
                proof {
                    assert(lease_step_f()(b_pre, psv[i as int]) == Ok::<
                        LeaseBuilder,
                        DecodeErrorV,
                    >(b));
                    lemma_obj_fold_push(lease_step_f(), lease_empty(), psv.take(i as int), psv[i as int]);
                    assert(psv.take(i as int).push(psv[i as int]) =~= psv.take(i + 1));
                }
            },
            Err(e) => {
                proof {
                    assert(lease_step_f()(b_pre, psv[i as int]) == lease_step(b_pre, psv[i as int]));
                    assert((ps@[i as int].0@, ps@[i as int].1@) == psv[i as int]);
                    assert(lease_step(b_pre, psv[i as int]) == Err::<LeaseBuilder, DecodeErrorV>(e@));
                    lemma_obj_fold_stops(
                        lease_step_f(),
                        lease_empty(),
                        psv,
                        i as int,
                        b_pre,
                        e@,
                    );
                }
                return Err(e);
            },
        }
        i = i + 1;
    }
    proof {
        assert(psv.take(ps@.len() as int) =~= psv);
    }
    if b.renewal_interval_in_secs.is_none() {
        return Err(DecodeError::MissingField(String::from_str("renewalIntervalInSecs")));
    }
    if b.registration_timestamp.is_none() {
        return Err(DecodeError::MissingField(String::from_str("registrationTimestamp")));
    }
    if b.last_renewal_timestamp.is_none() {
        return Err(DecodeError::MissingField(String::from_str("lastRenewalTimestamp")));
    }
    if b.eviction_timestamp.is_none() {
        return Err(DecodeError::MissingField(String::from_str("evictionTimestamp")));
    }
    if b.service_up_timestamp.is_none() {
        return Err(DecodeError::MissingField(String::from_str("serviceUpTimestamp")));
    }
    Ok(LeaseInfo {
        renewal_interval_in_secs: b.renewal_interval_in_secs.unwrap(),
        duration_in_secs: b.duration_in_secs,
        registration_timestamp: b.registration_timestamp.unwrap(),
        last_renewal_timestamp: b.last_renewal_timestamp.unwrap(),
        eviction_timestamp: b.eviction_timestamp.unwrap(),
        service_up_timestamp: b.service_up_timestamp.unwrap(),
    })
}

/// Encodes a lease as its wire object, injecting the duration default.
pub fn lease_to_json(l: &LeaseInfo) -> (r: JsonValue)
    ensures
        r@ == enc_lease(*l),
{
    let duration: i64 = match l.duration_in_secs {
        Some(d) => d,
        None => LEASE_DURATION_DEFAULT,
    };
    let mut ps: Vec<(String, JsonValue)> = Vec::new();
    ps.push((String::from_str("renewalIntervalInSecs"), JsonValue::Int(l.renewal_interval_in_secs)));
    ps.push((String::from_str("durationInSecs"), JsonValue::Int(duration)));
    ps.push((String::from_str("registrationTimestamp"), JsonValue::Int(l.registration_timestamp)));
    ps.push((String::from_str("lastRenewalTimestamp"), JsonValue::Int(l.last_renewal_timestamp)));
    ps.push((String::from_str("evictionTimestamp"), JsonValue::Int(l.eviction_timestamp)));
    ps.push((String::from_str("serviceUpTimestamp"), JsonValue::Int(l.service_up_timestamp)));
    let ghost psv = ps@;
    let r = JsonValue::Obj(ps);
    proof {
        lemma_model_obj(psv);
        assert(psv.len() == 6);
        assert(psv[0].0@ == "renewalIntervalInSecs"@);
        assert(psv[0].1@ == JsonV::Int(l.renewal_interval_in_secs as int));
        assert(psv[1].1@ == JsonV::Int(lease_duration_emitted(*l) as int));
        assert(psv[2].1@ == JsonV::Int(l.registration_timestamp as int));
        assert(psv[3].1@ == JsonV::Int(l.last_renewal_timestamp as int));
        assert(psv[4].1@ == JsonV::Int(l.eviction_timestamp as int));
        assert(psv[5].1@ == JsonV::Int(l.service_up_timestamp as int));
        assert(model_obj(psv) =~= enc_lease(*l)->Obj_0);
        assert(r@ =~= enc_lease(*l));
    }
    r
}

} // verus!
