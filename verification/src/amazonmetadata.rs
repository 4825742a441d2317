//! Cloud metadata carried by an Amazon-style data-center descriptor:
//! eleven flat string fields, all required when the object is present.
//! Its wire keys use hyphenated lower-case words, unlike every other
//! entity's leading-lower-case compound words.

use vstd::prelude::*;
use vstd::string::StringExecFns;
use crate::json::{JsonV, JsonValue, model_obj, lemma_model_obj};
use crate::errors::{DecodeError, DecodeErrorV};
use crate::codec::{obj_fold, lemma_obj_fold_push, lemma_obj_fold_stops, result_view, str_of, json_str};
use crate::text::str_eq;

verus! {

broadcast use
    vstd::std_specs::vec::group_vec_axioms,
    vstd::seq::group_seq_axioms,
    vstd::string::group_string_axioms,
;

/// Cloud metadata describing where an instance runs.
#[derive(Debug, PartialEq, Eq, Clone)]
pub struct AmazonMetaData {
    pub ami_launch_index: String,
    pub local_hostname: String,
    pub availability_zone: String,
    pub instance_id: String,
    pub public_ipv4: String,
    pub public_hostname: String,
    pub ami_manifest_path: String,
    pub local_ipv4: String,
    pub hostname: String,
    pub ami_id: String,
    pub instance_type: String,
}

/// Model of the cloud metadata: each field as its characters.
#[verifier::ext_equal]
pub struct AmazonMetaDataV {
    pub ami_launch_index: Seq<char>,
    pub local_hostname: Seq<char>,
    pub availability_zone: Seq<char>,
    pub instance_id: Seq<char>,
    pub public_ipv4: Seq<char>,
    pub public_hostname: Seq<char>,
    pub ami_manifest_path: Seq<char>,
    pub local_ipv4: Seq<char>,
    pub hostname: Seq<char>,
    pub ami_id: Seq<char>,
    pub instance_type: Seq<char>,
}

impl View for AmazonMetaData {
    type V = AmazonMetaDataV;

    open spec fn view(&self) -> AmazonMetaDataV {
        AmazonMetaDataV {
            ami_launch_index: self.ami_launch_index@,
            local_hostname: self.local_hostname@,
            availability_zone: self.availability_zone@,
            instance_id: self.instance_id@,
            public_ipv4: self.public_ipv4@,
            public_hostname: self.public_hostname@,
            ami_manifest_path: self.ami_manifest_path@,
            local_ipv4: self.local_ipv4@,
            hostname: self.hostname@,
            ami_id: self.ami_id@,
            instance_type: self.instance_type@,
        }
    }
}

/// The wire object of the cloud metadata, members in canonical order.
pub open spec fn enc_amd(m: AmazonMetaDataV) -> JsonV {
    JsonV::Obj(
        seq![
            ("ami-launch-index"@, JsonV::Str(m.ami_launch_index)),
            ("local-hostname"@, JsonV::Str(m.local_hostname)),
            ("availability-zone"@, JsonV::Str(m.availability_zone)),
            ("instance-id"@, JsonV::Str(m.instance_id)),
            ("public-ipv4"@, JsonV::Str(m.public_ipv4)),
            ("public-hostname"@, JsonV::Str(m.public_hostname)),
            ("ami-manifest-path"@, JsonV::Str(m.ami_manifest_path)),
            ("local-ipv4"@, JsonV::Str(m.local_ipv4)),
            ("hostname"@, JsonV::Str(m.hostname)),
            ("ami-id"@, JsonV::Str(m.ami_id)),
            ("instance-type"@, JsonV::Str(m.instance_type)),
        ],
    )
}

/// Partially decoded cloud metadata.
pub struct AmdBuilder {
    pub ami_launch_index: Option<String>,
    pub local_hostname: Option<String>,
    pub availability_zone: Option<String>,
    pub instance_id: Option<String>,
    pub public_ipv4: Option<String>,
    pub public_hostname: Option<String>,
    pub ami_manifest_path: Option<String>,
    pub local_ipv4: Option<String>,
    pub hostname: Option<String>,
    pub ami_id: Option<String>,
    pub instance_type: Option<String>,
}

/// Model of the partially decoded cloud metadata.
pub struct AmdBuilderV {
    pub ami_launch_index: Option<Seq<char>>,
    pub local_hostname: Option<Seq<char>>,
    pub availability_zone: Option<Seq<char>>,
    pub instance_id: Option<Seq<char>>,
    pub public_ipv4: Option<Seq<char>>,
    pub public_hostname: Option<Seq<char>>,
    pub ami_manifest_path: Option<Seq<char>>,
    pub local_ipv4: Option<Seq<char>>,
    pub hostname: Option<Seq<char>>,
    pub ami_id: Option<Seq<char>>,
    pub instance_type: Option<Seq<char>>,
}

impl View for AmdBuilder {
    type V = AmdBuilderV;

    open spec fn view(&self) -> AmdBuilderV {
        AmdBuilderV {
            ami_launch_index: crate::codec::opt_view(self.ami_launch_index),
            local_hostname: crate::codec::opt_view(self.local_hostname),
            availability_zone: crate::codec::opt_view(self.availability_zone),
            instance_id: crate::codec::opt_view(self.instance_id),
            public_ipv4: crate::codec::opt_view(self.public_ipv4),
            public_hostname: crate::codec::opt_view(self.public_hostname),
            ami_manifest_path: crate::codec::opt_view(self.ami_manifest_path),
            local_ipv4: crate::codec::opt_view(self.local_ipv4),
            hostname: crate::codec::opt_view(self.hostname),
            ami_id: crate::codec::opt_view(self.ami_id),
            instance_type: crate::codec::opt_view(self.instance_type),
        }
    }
}

/// The builder before any member is read.
pub open spec fn amd_empty() -> AmdBuilderV {
    AmdBuilderV {
        ami_launch_index: None,
        local_hostname: None,
        availability_zone: None,
        instance_id: None,
        public_ipv4: None,
        public_hostname: None,
        ami_manifest_path: None,
        local_ipv4: None,
        hostname: None,
        ami_id: None,
        instance_type: None,
    }
}

/// Folds one member into the builder: an unrecognized key or a repeated
/// one is the first violation, and a non-string value a type mismatch.
pub open spec fn amd_step(b: AmdBuilderV, p: (Seq<char>, JsonV)) -> Result<
    AmdBuilderV,
    DecodeErrorV,
> {
    let (k, v) = p;
    if k == "ami-launch-index"@ {
        if b.ami_launch_index is Some {
            Err(DecodeErrorV::DuplicateField(k))
        } else {
            match str_of(v, k) {
                Ok(s) => Ok(AmdBuilderV { ami_launch_index: Some(s), ..b }),
                Err(e) => Err(e),
            }
        }
    } else if k == "local-hostname"@ {
        if b.local_hostname is Some {
            Err(DecodeErrorV::DuplicateField(k))
        } else {
            match str_of(v, k) {
                Ok(s) => Ok(AmdBuilderV { local_hostname: Some(s), ..b }),
                Err(e) => Err(e),
            }
        }
    } else if k == "availability-zone"@ {
        if b.availability_zone is Some {
            Err(DecodeErrorV::DuplicateField(k))
        } else {
            match str_of(v, k) {
                Ok(s) => Ok(AmdBuilderV { availability_zone: Some(s), ..b }),
                Err(e) => Err(e),
            }
        }
    } else if k == "instance-id"@ {
        if b.instance_id is Some {
            Err(DecodeErrorV::DuplicateField(k))
        } else {
            match str_of(v, k) {
                Ok(s) => Ok(AmdBuilderV { instance_id: Some(s), ..b }),
                Err(e) => Err(e),
            }
        }
    } else if k == "public-ipv4"@ {
        if b.public_ipv4 is Some {
            Err(DecodeErrorV::DuplicateField(k))
        } else {
            match str_of(v, k) {
                Ok(s) => Ok(AmdBuilderV { public_ipv4: Some(s), ..b }),
                Err(e) => Err(e),
            }
        }
    } else if k == "public-hostname"@ {
        if b.public_hostname is Some {
            Err(DecodeErrorV::DuplicateField(k))
        } else {
            match str_of(v, k) {
                Ok(s) => Ok(AmdBuilderV { public_hostname: Some(s), ..b }),
                Err(e) => Err(e),
            }
        }
    } else if k == "ami-manifest-path"@ {
        if b.ami_manifest_path is Some {
            Err(DecodeErrorV::DuplicateField(k))
        } else {
            match str_of(v, k) {
                Ok(s) => Ok(AmdBuilderV { ami_manifest_path: Some(s), ..b }),
                Err(e) => Err(e),
            }
        }
    } else if k == "local-ipv4"@ {
        if b.local_ipv4 is Some {
            Err(DecodeErrorV::DuplicateField(k))
        } else {
            match str_of(v, k) {
                Ok(s) => Ok(AmdBuilderV { local_ipv4: Some(s), ..b }),
                Err(e) => Err(e),
            }
        }
    } else if k == "hostname"@ {
        if b.hostname is Some {
            Err(DecodeErrorV::DuplicateField(k))
        } else {
            match str_of(v, k) {
                Ok(s) => Ok(AmdBuilderV { hostname: Some(s), ..b }),
                Err(e) => Err(e),
            }
        }
    } else if k == "ami-id"@ {
        if b.ami_id is Some {
            Err(DecodeErrorV::DuplicateField(k))
        } else {
            match str_of(v, k) {
                Ok(s) => Ok(AmdBuilderV { ami_id: Some(s), ..b }),
                Err(e) => Err(e),
            }
        }
    } else if k == "instance-type"@ {
        if b.instance_type is Some {
            Err(DecodeErrorV::DuplicateField(k))
        } else {
            match str_of(v, k) {
                Ok(s) => Ok(AmdBuilderV { instance_type: Some(s), ..b }),
                Err(e) => Err(e),
            }
        }
    } else {
        Err(DecodeErrorV::UnknownField(k))
    }
}

/// The step function of the cloud metadata, as a value for the fold.
pub open spec fn amd_step_f() -> spec_fn(AmdBuilderV, (Seq<char>, JsonV)) -> Result<
    AmdBuilderV,
    DecodeErrorV,
> {
    |b: AmdBuilderV, p: (Seq<char>, JsonV)| amd_step(b, p)
}

/// After all members are consumed, every field must be present.
pub open spec fn amd_finish(b: AmdBuilderV) -> Result<AmazonMetaDataV, DecodeErrorV> {
    if b.ami_launch_index is None {
        Err(DecodeErrorV::MissingField("ami-launch-index"@))
    } else if b.local_hostname is None {
        Err(DecodeErrorV::MissingField("local-hostname"@))
    } else if b.availability_zone is None {
        Err(DecodeErrorV::MissingField("availability-zone"@))
    } else if b.instance_id is None {
        Err(DecodeErrorV::MissingField("instance-id"@))
    } else if b.public_ipv4 is None {
        Err(DecodeErrorV::MissingField("public-ipv4"@))
    } else if b.public_hostname is None {
        Err(DecodeErrorV::MissingField("public-hostname"@))
    } else if b.ami_manifest_path is None {
        Err(DecodeErrorV::MissingField("ami-manifest-path"@))
    } else if b.local_ipv4 is None {
        Err(DecodeErrorV::MissingField("local-ipv4"@))
    } else if b.hostname is None {
        Err(DecodeErrorV::MissingField("hostname"@))
    } else if b.ami_id is None {
        Err(DecodeErrorV::MissingField("ami-id"@))
    } else if b.instance_type is None {
        Err(DecodeErrorV::MissingField("instance-type"@))
    } else {
        Ok(AmazonMetaDataV {
            ami_launch_index: b.ami_launch_index->0,
            local_hostname: b.local_hostname->0,
            availability_zone: b.availability_zone->0,
            instance_id: b.instance_id->0,
            public_ipv4: b.public_ipv4->0,
            public_hostname: b.public_hostname->0,
            ami_manifest_path: b.ami_manifest_path->0,
            local_ipv4: b.local_ipv4->0,
            hostname: b.hostname->0,
            ami_id: b.ami_id->0,
            instance_type: b.instance_type->0,
        })
    }
}

/// What a wire value decodes to as cloud metadata.
pub open spec fn dec_amd(v: JsonV) -> Result<AmazonMetaDataV, DecodeErrorV> {
    match v {
        JsonV::Obj(ps) => match obj_fold(amd_step_f(), amd_empty(), ps) {
            Ok(b) => amd_finish(b),
            Err(e) => Err(e),
        },
        _ => Err(DecodeErrorV::TypeMismatch("metadata"@)),
    }
}

/// Executable form of `amd_step`, updating the builder in place.
fn amd_apply(b: &mut AmdBuilder, k: &String, v: &JsonValue) -> (r: Result<(), DecodeError>)
    ensures
        match r {
            Ok(_) => amd_step(old(b)@, (k@, v@)) == Ok::<AmdBuilderV, DecodeErrorV>(final(b)@),
            Err(e) => amd_step(old(b)@, (k@, v@)) == Err::<AmdBuilderV, DecodeErrorV>(e@),
        },
{
    if str_eq(k.as_str(), "ami-launch-index") {
        if b.ami_launch_index.is_some() {
            return Err(DecodeError::DuplicateField(k.clone()));
        }
        match json_str(v, "ami-launch-index") {
            Ok(s) => {
                b.ami_launch_index = Some(s);
                Ok(())
            },
            Err(e) => Err(e),
        }
    } else if str_eq(k.as_str(), "local-hostname") {
        if b.local_hostname.is_some() {
            return Err(DecodeError::DuplicateField(k.clone()));
        }
        match json_str(v, "local-hostname") {
            Ok(s) => {
                b.local_hostname = Some(s);
                Ok(())
            },
            Err(e) => Err(e),
        }
    } else if str_eq(k.as_str(), "availability-zone") {
        if b.availability_zone.is_some() {
            return Err(DecodeError::DuplicateField(k.clone()));
        }
        match json_str(v, "availability-zone") {
            Ok(s) => {
                b.availability_zone = Some(s);
                Ok(())
            },
            Err(e) => Err(e),
        }
    } else if str_eq(k.as_str(), "instance-id") {
        if b.instance_id.is_some() {
            return Err(DecodeError::DuplicateField(k.clone()));
        }
        match json_str(v, "instance-id") {
            Ok(s) => {
                b.instance_id = Some(s);
                Ok(())
            },
            Err(e) => Err(e),
        }
    } else if str_eq(k.as_str(), "public-ipv4") {
        if b.public_ipv4.is_some() {
            return Err(DecodeError::DuplicateField(k.clone()));
        }
        match json_str(v, "public-ipv4") {
            Ok(s) => {
                b.public_ipv4 = Some(s);
                Ok(())
            },
            Err(e) => Err(e),
        }
    } else if str_eq(k.as_str(), "public-hostname") {
        if b.public_hostname.is_some() {
            return Err(DecodeError::DuplicateField(k.clone()));
        }
        match json_str(v, "public-hostname") {
            Ok(s) => {
                b.public_hostname = Some(s);
                Ok(())
            },
            Err(e) => Err(e),
        }
    } else if str_eq(k.as_str(), "ami-manifest-path") {
        if b.ami_manifest_path.is_some() {
            return Err(DecodeError::DuplicateField(k.clone()));
        }
        match json_str(v, "ami-manifest-path") {
            Ok(s) => {
                b.ami_manifest_path = Some(s);
                Ok(())
            },
            Err(e) => Err(e),
        }
    } else if str_eq(k.as_str(), "local-ipv4") {
        if b.local_ipv4.is_some() {
            return Err(DecodeError::DuplicateField(k.clone()));
        }
        match json_str(v, "local-ipv4") {
            Ok(s) => {
                b.local_ipv4 = Some(s);
                Ok(())
            },
            Err(e) => Err(e),
        }
    } else if str_eq(k.as_str(), "hostname") {
        if b.hostname.is_some() {
            return Err(DecodeError::DuplicateField(k.clone()));
        }
        match json_str(v, "hostname") {
            Ok(s) => {
                b.hostname = Some(s);
                Ok(())
            },
            Err(e) => Err(e),
        }
    } else if str_eq(k.as_str(), "ami-id") {
        if b.ami_id.is_some() {
            return Err(DecodeError::DuplicateField(k.clone()));
        }
        match json_str(v, "ami-id") {
            Ok(s) => {
                b.ami_id = Some(s);
                Ok(())
            },
            Err(e) => Err(e),
        }
    } else if str_eq(k.as_str(), "instance-type") {
        if b.instance_type.is_some() {
            return Err(DecodeError::DuplicateField(k.clone()));
        }
        match json_str(v, "instance-type") {
            Ok(s) => {
                b.instance_type = Some(s);
                Ok(())
            },
            Err(e) => Err(e),
        }
    } else {
        Err(DecodeError::UnknownField(k.clone()))
    }
}

/// Decodes a wire value as cloud metadata, surfacing the first violation.
pub fn amd_from_json(v: &JsonValue) -> (r: Result<AmazonMetaData, DecodeError>)
    ensures
        result_view(r) == dec_amd(v@),
{
    let ps = match v {
        JsonValue::Obj(ps) => ps,
        _ => {
            return Err(DecodeError::TypeMismatch(String::from_str("metadata")));
        },
    };
    let ghost psv = model_obj(ps@);
    proof {
        lemma_model_obj(ps@);
        assert(v@ == JsonV::Obj(psv));
    }
    let mut b = AmdBuilder {
        ami_launch_index: None,
        local_hostname: None,
        availability_zone: None,
        instance_id: None,
        public_ipv4: None,
        public_hostname: None,
        ami_manifest_path: None,
        local_ipv4: None,
        hostname: None,
        ami_id: None,
        instance_type: None,
    };
    let mut i: usize = 0;
    while i < ps.len()
        invariant
            i <= ps.len(),
            psv == model_obj(ps@),
            v@ == JsonV::Obj(psv),
            psv.len() == ps@.len(),
            forall|j: int| 0 <= j < ps@.len() ==> #[trigger] psv[j] == (ps@[j].0@, ps@[j].1@),
            obj_fold(amd_step_f(), amd_empty(), psv.take(i as int)) == Ok::<
                AmdBuilderV,
                DecodeErrorV,
            >(b@),
        decreases ps.len() - i,
    {
        let ghost b_pre = b@;
        match amd_apply(&mut b, &ps[i].0, &ps[i].1) {
            Ok(_) => {
                proof {
                    lemma_obj_fold_push(amd_step_f(), amd_empty(), psv.take(i as int), psv[i as int]);
                    assert(psv.take(i as int).push(psv[i as int]) =~= psv.take(i + 1));
                }
            },
            Err(e) => {
                proof {
                    lemma_obj_fold_stops(amd_step_f(), amd_empty(), psv, i as int, b_pre, e@);
                }
                return Err(e);
            },
        }
        i = i + 1;
    }
    proof {
        assert(psv.take(ps@.len() as int) =~= psv);
    }
    if b.ami_launch_index.is_none() {
        return Err(DecodeError::MissingField(String::from_str("ami-launch-index")));
    }
    if b.local_hostname.is_none() {
        return Err(DecodeError::MissingField(String::from_str("local-hostname")));
    }
    if b.availability_zone.is_none() {
        return Err(DecodeError::MissingField(String::from_str("availability-zone")));
    }
    if b.instance_id.is_none() {
        return Err(DecodeError::MissingField(String::from_str("instance-id")));
    }
    if b.public_ipv4.is_none() {
        return Err(DecodeError::MissingField(String::from_str("public-ipv4")));
    }
    if b.public_hostname.is_none() {
        return Err(DecodeError::MissingField(String::from_str("public-hostname")));
    }
    if b.ami_manifest_path.is_none() {
        return Err(DecodeError::MissingField(String::from_str("ami-manifest-path")));
    }
    if b.local_ipv4.is_none() {
        return Err(DecodeError::MissingField(String::from_str("local-ipv4")));
    }
    if b.hostname.is_none() {
        return Err(DecodeError::MissingField(String::from_str("hostname")));
    }
    if b.ami_id.is_none() {
        return Err(DecodeError::MissingField(String::from_str("ami-id")));
    }
    if b.instance_type.is_none() {
        return Err(DecodeError::MissingField(String::from_str("instance-type")));
    }
    Ok(AmazonMetaData {
        ami_launch_index: b.ami_launch_index.unwrap(),
        local_hostname: b.local_hostname.unwrap(),
        availability_zone: b.availability_zone.unwrap(),
        instance_id: b.instance_id.unwrap(),
        public_ipv4: b.public_ipv4.unwrap(),
        public_hostname: b.public_hostname.unwrap(),
        ami_manifest_path: b.ami_manifest_path.unwrap(),
        local_ipv4: b.local_ipv4.unwrap(),
        hostname: b.hostname.unwrap(),
        ami_id: b.ami_id.unwrap(),
        instance_type: b.instance_type.unwrap(),
    })
}

/// Encodes the cloud metadata as its wire object.
pub fn amd_to_json(m: &AmazonMetaData) -> (r: JsonValue)
    ensures
        r@ == enc_amd(m@),
{
    let mut ps: Vec<(String, JsonValue)> = Vec::new();
    ps.push((String::from_str("ami-launch-index"), JsonValue::Str(m.ami_launch_index.clone())));
    ps.push((String::from_str("local-hostname"), JsonValue::Str(m.local_hostname.clone())));
    ps.push((String::from_str("availability-zone"), JsonValue::Str(m.availability_zone.clone())));
    ps.push((String::from_str("instance-id"), JsonValue::Str(m.instance_id.clone())));
    ps.push((String::from_str("public-ipv4"), JsonValue::Str(m.public_ipv4.clone())));
    ps.push((String::from_str("public-hostname"), JsonValue::Str(m.public_hostname.clone())));
    ps.push((String::from_str("ami-manifest-path"), JsonValue::Str(m.ami_manifest_path.clone())));
    ps.push((String::from_str("local-ipv4"), JsonValue::Str(m.local_ipv4.clone())));
    ps.push((String::from_str("hostname"), JsonValue::Str(m.hostname.clone())));
    ps.push((String::from_str("ami-id"), JsonValue::Str(m.ami_id.clone())));
    ps.push((String::from_str("instance-type"), JsonValue::Str(m.instance_type.clone())));
    let ghost psv = ps@;
    let r = JsonValue::Obj(ps);
    proof {
        lemma_model_obj(psv);
        assert(model_obj(psv) =~= enc_amd(m@)->Obj_0);
        assert(r@ =~= enc_amd(m@));
    }
    r
}

} // verus!
