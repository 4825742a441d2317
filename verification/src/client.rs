//! The compute side of the registry client: request paths and headers
//! as strings, the decision taken on each response status, and the
//! decoding of a query response's body into instance records. The
//! transport itself (issuing the request, reading the body) lives
//! outside this crate and hands plain values in and out.

use vstd::prelude::*;
use vstd::string::StringExecFns;
use crate::json::{JsonV, JsonValue, model_arr, lemma_model_arr};
use crate::errors::{DecodeError, DecodeErrorV, EurekaClientError, EurekaClientErrorV};
use crate::instance::{Instance, InstanceV, dec_instance, instance_from_json};
use crate::parse::{sp_json, parse_json};
use vstd::string::StringExecFnsIsAscii;

verus! {

broadcast use
    vstd::std_specs::vec::group_vec_axioms,
    vstd::seq::group_seq_axioms,
    vstd::string::group_string_axioms,
;

/// Model of an executable instance list, elementwise.
pub open spec fn inst_list_model(s: Seq<Instance>) -> Seq<InstanceV>
    decreases s,
{
    if s.len() == 0 {
        Seq::empty()
    } else {
        inst_list_model(s.drop_last()).push(s.last()@)
    }
}

/// Decodes the elements of an instance array in order, surfacing the
/// first element's violation.
pub open spec fn dec_instance_seq(vs: Seq<JsonV>) -> Result<Seq<InstanceV>, DecodeErrorV>
    decreases vs.len(),
{
    if vs.len() == 0 {
        Ok(Seq::empty())
    } else {
        match dec_instance_seq(vs.drop_last()) {
            Ok(rest) => match dec_instance(vs.last()) {
                Ok(x) => Ok(rest.push(x)),
                Err(e) => Err(e),
            },
            Err(e) => Err(e),
        }
    }
}

/// Once an element fails to decode, the whole array fails with that same
/// first violation.
proof fn lemma_dec_instance_seq_stops(vs: Seq<JsonV>, i: int, e: DecodeErrorV)
    requires
        0 <= i < vs.len(),
        dec_instance_seq(vs.take(i)) is Ok,
        dec_instance(vs[i]) == Err::<InstanceV, DecodeErrorV>(e),
    ensures
        dec_instance_seq(vs) == Err::<Seq<InstanceV>, DecodeErrorV>(e),
    decreases vs.len(),
{
    if i == vs.len() - 1 {
        assert(vs.take(i) =~= vs.drop_last());
        assert(vs.last() == vs[i]);
    } else {
        assert(vs.drop_last().take(i) =~= vs.take(i));
        assert(vs.drop_last()[i] == vs[i]);
        lemma_dec_instance_seq_stops(vs.drop_last(), i, e);
    }
}

/// What a JSON text decodes to as a list of instances: the legacy
/// read-only path returns a bare array of instance records.
pub open spec fn decoded_instance_list(s: Seq<char>) -> Result<Seq<InstanceV>, DecodeErrorV> {
    match sp_json(s) {
        Ok(j) => match j {
            JsonV::Arr(vs) => dec_instance_seq(vs),
            _ => Err(DecodeErrorV::TypeMismatch("Instance"@)),
        },
        Err(e) => Err(e),
    }
}

/// Decodes a JSON text as a list of instances.
pub fn decode_instance_list(text: &str) -> (r: Result<Vec<Instance>, DecodeError>)
    ensures
        match r {
            Ok(l) => decoded_instance_list(text@) == Ok::<Seq<InstanceV>, DecodeErrorV>(
                inst_list_model(l@),
            ),
            Err(e) => decoded_instance_list(text@) == Err::<Seq<InstanceV>, DecodeErrorV>(e@),
        },
{
    let v = match parse_json(text) {
        Ok(v) => v,
        Err(e) => {
            return Err(e);
        },
    };
    let vs = match &v {
        JsonValue::Arr(vs) => vs,
        _ => {
            return Err(DecodeError::TypeMismatch(String::from_str("Instance")));
        },
    };
    let ghost vsv = model_arr(vs@);
    proof {
        lemma_model_arr(vs@);
        assert(v@ == JsonV::Arr(vsv));
    }
    let mut l: Vec<Instance> = Vec::new();
    proof {
        assert(vsv.take(0) =~= Seq::<JsonV>::empty());
        assert(inst_list_model(l@) =~= Seq::<InstanceV>::empty());
    }
    let mut i: usize = 0;
    while i < vs.len()
        invariant
            i <= vs.len(),
            vsv == model_arr(vs@),
            v@ == JsonV::Arr(vsv),
            sp_json(text@) == Ok::<JsonV, DecodeErrorV>(v@),
            vsv.len() == vs@.len(),
            forall|j: int| 0 <= j < vs@.len() ==> #[trigger] vsv[j] == vs@[j]@,
            dec_instance_seq(vsv.take(i as int)) == Ok::<Seq<InstanceV>, DecodeErrorV>(
                inst_list_model(l@),
            ),
        decreases vs.len() - i,
    {
        match instance_from_json(&vs[i]) {
            Ok(x) => {
                let ghost xv = x@;
                let ghost lv_pre = l@;
                l.push(x);
                proof {
                    assert(vsv.take(i + 1).drop_last() =~= vsv.take(i as int));
                    assert(vsv.take(i + 1).last() == vsv[i as int]);
                    assert(l@.drop_last() =~= lv_pre);
                    assert(inst_list_model(l@) == inst_list_model(lv_pre).push(l@.last()@));
                    assert(l@.last()@ == xv);
                }
            },
            Err(e) => {
                proof {
                    lemma_dec_instance_seq_stops(vsv, i as int, e@);
                }
                return Err(e);
            },
        }
        i = i + 1;
    }
    proof {
        assert(vsv.take(vs@.len() as int) =~= vsv);
    }
    Ok(l)
}

/// The request path for an application's registration and lookup.
pub fn registry_path(application_id: &str) -> (r: String)
    ensures
        r@ == "/v2/apps/"@ + application_id@,
{
    let mut r = String::from_str("/v2/apps/");
    r.append(application_id);
    r
}

/// The user-agent header value the client sends.
pub fn user_agent(client_name: &str) -> (r: String)
    ensures
        r@ == "Rust Hyper/"@ + client_name@,
{
    let mut r = String::from_str("Rust Hyper/");
    r.append(client_name);
    r
}

/// Decides a registration response: a 400 status is a bad request, a 500
/// an internal server error, and every other status a success with an
/// empty result.
pub fn register_outcome(status: u16) -> (r: Result<(), EurekaClientError>)
    ensures
        match r {
            Ok(_) => status != 400 && status != 500,
            Err(e) => (status == 400 && e@ == EurekaClientErrorV::BadRequest) || (status == 500
                && e@ == EurekaClientErrorV::InternalServerError),
        },
{
    if status == 400 {
        Err(EurekaClientError::BadRequest)
    } else if status == 500 {
        Err(EurekaClientError::InternalServerError)
    } else {
        Ok(())
    }
}

/// Decides a lookup response: a 404 status means the application does
/// not exist; any other status has its body decoded as a list of
/// instances, a codec failure surfacing as a json error.
pub fn lookup_outcome(status: u16, body: &str) -> (r: Result<Vec<Instance>, EurekaClientError>)
    ensures
        match r {
            Ok(l) => status != 404 && decoded_instance_list(body@) == Ok::<
                Seq<InstanceV>,
                DecodeErrorV,
            >(inst_list_model(l@)),
            Err(e) => (status == 404 && e@ == EurekaClientErrorV::NotFound) || (status != 404
                && (match decoded_instance_list(body@) {
                    Err(d) => e@ == EurekaClientErrorV::JsonError(d),
                    Ok(_) => false,
                })),
        },
{
    if status == 404 {
        return Err(EurekaClientError::NotFound);
    }
    match decode_instance_list(body) {
        Ok(l) => Ok(l),
        Err(d) => Err(EurekaClientError::JsonError(d)),
    }
}

/// Decides a plain http fetch: a non-success status is a generic error,
/// otherwise the body is handed back unchanged.
pub fn classify_http_response(status: u16, body: String) -> (r: Result<String, EurekaClientError>)
    ensures
        match r {
            Ok(b) => 200 <= status < 300 && b@ == body@,
            Err(e) => !(200 <= status < 300) && e@ == EurekaClientErrorV::GenericError(
                "Request was not successful"@,
            ),
        },
{
    if 200 <= status && status < 300 {
        Ok(body)
    } else {
        Err(EurekaClientError::GenericError(String::from_str("Request was not successful")))
    }
}

} // verus!
