//! Data-center descriptor: a name plus optional cloud metadata. The wire
//! form additionally carries a vendor class-tag string under "@class",
//! which is tolerated (and may repeat) on decode and is emitted with a
//! fixed value on encode.

use vstd::prelude::*;
use vstd::string::StringExecFns;
use crate::json::{JsonV, JsonValue, model_obj, lemma_model_obj};
use crate::errors::{DecodeError, DecodeErrorV};
use crate::codec::{obj_fold, lemma_obj_fold_push, lemma_obj_fold_stops, result_view, opt_view, str_of, json_str};
use crate::dcname::{DcName, dcname_wire, dcname_of};
use crate::amazonmetadata::{AmazonMetaData, AmazonMetaDataV, enc_amd, dec_amd, amd_from_json, amd_to_json};
use crate::text::str_eq;

verus! {

broadcast use
    vstd::std_specs::vec::group_vec_axioms,
    vstd::seq::group_seq_axioms,
    vstd::string::group_string_axioms,
;

/// A discriminated data-center descriptor: cloud metadata is present only
/// for Amazon-like centers.
#[derive(Debug, PartialEq, Eq, Clone)]
pub struct DataCenterInfo {
    pub name: DcName,
    pub metadata: Option<AmazonMetaData>,
}

/// Model of a data-center descriptor.
#[verifier::ext_equal]
pub struct DataCenterInfoV {
    pub name: DcName,
    pub metadata: Option<AmazonMetaDataV>,
}

impl View for DataCenterInfo {
    type V = DataCenterInfoV;

    open spec fn view(&self) -> DataCenterInfoV {
        DataCenterInfoV { name: self.name, metadata: opt_view(self.metadata) }
    }
}

/// The class-tag value written on encode.
pub open spec fn dci_class_value() -> Seq<char> {
    "com.netflix.appinfo.InstanceInfo$DefaultDataCenterInfo"@
}

/// The wire object of a data-center descriptor: the vendor class tag,
/// the name, and the metadata only when present.
pub open spec fn enc_dci(d: DataCenterInfoV) -> JsonV {
    match d.metadata {
        Some(m) => JsonV::Obj(
            seq![
                ("@class"@, JsonV::Str(dci_class_value())),
                ("name"@, JsonV::Str(dcname_wire(d.name))),
                ("metadata"@, enc_amd(m)),
            ],
        ),
        None => JsonV::Obj(
            seq![
                ("@class"@, JsonV::Str(dci_class_value())),
                ("name"@, JsonV::Str(dcname_wire(d.name))),
            ],
        ),
    }
}

/// Partially decoded data-center descriptor.
pub struct DciBuilder {
    pub name: Option<DcName>,
    pub metadata: Option<AmazonMetaData>,
}

/// Model of the partially decoded descriptor.
pub struct DciBuilderV {
    pub name: Option<DcName>,
    pub metadata: Option<AmazonMetaDataV>,
}

impl View for DciBuilder {
    type V = DciBuilderV;

    open spec fn view(&self) -> DciBuilderV {
        DciBuilderV { name: self.name, metadata: opt_view(self.metadata) }
    }
}

/// The builder before any member is read.
pub open spec fn dci_empty() -> DciBuilderV {
    DciBuilderV { name: None, metadata: None }
}

/// Folds one member into the builder. The class tag must be a string but
/// is otherwise ignored, even when repeated; an unrecognized name string
/// is a type mismatch.
pub open spec fn dci_step(b: DciBuilderV, p: (Seq<char>, JsonV)) -> Result<
    DciBuilderV,
    DecodeErrorV,
> {
    let (k, v) = p;
    if k == "@class"@ {
        match str_of(v, k) {
            Ok(_) => Ok(b),
            Err(e) => Err(e),
        }
    } else if k == "name"@ {
        if b.name is Some {
            Err(DecodeErrorV::DuplicateField(k))
        } else {
            match str_of(v, k) {
                Ok(s) => match dcname_of(s) {
                    Some(n) => Ok(DciBuilderV { name: Some(n), ..b }),
                    None => Err(DecodeErrorV::TypeMismatch(k)),
                },
                Err(e) => Err(e),
            }
        }
    } else if k == "metadata"@ {
        if b.metadata is Some {
            Err(DecodeErrorV::DuplicateField(k))
        } else {
            match dec_amd(v) {
                Ok(m) => Ok(DciBuilderV { metadata: Some(m), ..b }),
                Err(e) => Err(e),
            }
        }
    } else {
        Err(DecodeErrorV::UnknownField(k))
    }
}

/// The step function of the descriptor, as a value for the fold.
pub open spec fn dci_step_f() -> spec_fn(DciBuilderV, (Seq<char>, JsonV)) -> Result<
    DciBuilderV,
    DecodeErrorV,
> {
    |b: DciBuilderV, p: (Seq<char>, JsonV)| dci_step(b, p)
}

/// After all members are consumed, the name must be present; metadata
/// stays absent if the server omitted it.
pub open spec fn dci_finish(b: DciBuilderV) -> Result<DataCenterInfoV, DecodeErrorV> {
    if b.name is None {
        Err(DecodeErrorV::MissingField("name"@))
    } else {
        Ok(DataCenterInfoV { name: b.name->0, metadata: b.metadata })
    }
}

/// What a wire value decodes to as a data-center descriptor.
pub open spec fn dec_dci(v: JsonV) -> Result<DataCenterInfoV, DecodeErrorV> {
    match v {
        JsonV::Obj(ps) => match obj_fold(dci_step_f(), dci_empty(), ps) {
            Ok(b) => dci_finish(b),
            Err(e) => Err(e),
        },
        _ => Err(DecodeErrorV::TypeMismatch("dataCenterInfo"@)),
    }
}

/// Executable form of `dci_step`, updating the builder in place.
fn dci_apply(b: &mut DciBuilder, k: &String, v: &JsonValue) -> (r: Result<(), DecodeError>)
    ensures
        match r {
            Ok(_) => dci_step(old(b)@, (k@, v@)) == Ok::<DciBuilderV, DecodeErrorV>(final(b)@),
            Err(e) => dci_step(old(b)@, (k@, v@)) == Err::<DciBuilderV, DecodeErrorV>(e@),
        },
{
    if str_eq(k.as_str(), "@class") {
        match json_str(v, "@class") {
            Ok(_) => Ok(()),
            Err(e) => Err(e),
        }
    } else if str_eq(k.as_str(), "name") {
        if b.name.is_some() {
            return Err(DecodeError::DuplicateField(k.clone()));
        }
        match json_str(v, "name") {
            Ok(s) => match DcName::from_str(s.as_str()) {
                Ok(n) => {
                    b.name = Some(n);
                    Ok(())
                },
                Err(_) => Err(DecodeError::TypeMismatch(k.clone())),
            },
            Err(e) => Err(e),
        }
    } else if str_eq(k.as_str(), "metadata") {
        if b.metadata.is_some() {
            return Err(DecodeError::DuplicateField(k.clone()));
        }
        match amd_from_json(v) {
            Ok(m) => {
                b.metadata = Some(m);
                Ok(())
            },
            Err(e) => Err(e),
        }
    } else {
        Err(DecodeError::UnknownField(k.clone()))
    }
}

/// Decodes a wire value as a data-center descriptor, surfacing the first
/// violation.
pub fn dci_from_json(v: &JsonValue) -> (r: Result<DataCenterInfo, DecodeError>)
    ensures
        result_view(r) == dec_dci(v@),
{
    let ps = match v {
        JsonValue::Obj(ps) => ps,
        _ => {
            return Err(DecodeError::TypeMismatch(String::from_str("dataCenterInfo")));
        },
    };
    let ghost psv = model_obj(ps@);
    proof {
        lemma_model_obj(ps@);
        assert(v@ == JsonV::Obj(psv));
    }
    let mut b = DciBuilder { name: None, metadata: None };
    let mut i: usize = 0;
    while i < ps.len()
        invariant
            i <= ps.len(),
            psv == model_obj(ps@),
            v@ == JsonV::Obj(psv),
            psv.len() == ps@.len(),
            forall|j: int| 0 <= j < ps@.len() ==> #[trigger] psv[j] == (ps@[j].0@, ps@[j].1@),
            obj_fold(dci_step_f(), dci_empty(), psv.take(i as int)) == Ok::<
                DciBuilderV,
                DecodeErrorV,
            >(b@),
        decreases ps.len() - i,
    {
        let ghost b_pre = b@;
        match dci_apply(&mut b, &ps[i].0, &ps[i].1) {
            Ok(_) => {
                proof {
                    lemma_obj_fold_push(dci_step_f(), dci_empty(), psv.take(i as int), psv[i as int]);
                    assert(psv.take(i as int).push(psv[i as int]) =~= psv.take(i + 1));
                }
            },
            Err(e) => {
                proof {
                    lemma_obj_fold_stops(dci_step_f(), dci_empty(), psv, i as int, b_pre, e@);
                }
                return Err(e);
            },
        }
        i = i + 1;
    }
    proof {
        assert(psv.take(ps@.len() as int) =~= psv);
    }
    let name = match b.name {
        Some(n) => n,
        None => {
            return Err(DecodeError::MissingField(String::from_str("name")));
        },
    };
    Ok(DataCenterInfo { name, metadata: b.metadata })
}

/// Encodes a data-center descriptor as its wire object, writing the fixed
/// vendor class tag and omitting absent metadata.
pub fn dci_to_json(d: &DataCenterInfo) -> (r: JsonValue)
    ensures
        r@ == enc_dci(d@),
{
    let mut ps: Vec<(String, JsonValue)> = Vec::new();
    ps.push((
        String::from_str("@class"),
        JsonValue::Str(String::from_str("com.netflix.appinfo.InstanceInfo$DefaultDataCenterInfo")),
    ));
    ps.push((String::from_str("name"), JsonValue::Str(d.name.wire_str())));
    match &d.metadata {
        Some(m) => {
            ps.push((String::from_str("metadata"), amd_to_json(m)));
        },
        None => {},
    }
    let ghost psv = ps@;
    let r = JsonValue::Obj(ps);
    proof {
        lemma_model_obj(psv);
        assert(model_obj(psv) =~= enc_dci(d@)->Obj_0);
        assert(r@ =~= enc_dci(d@));
    }
    r
}

} // verus!
