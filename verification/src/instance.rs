//! A registered service endpoint record: the largest entity of the wire
//! format, with twenty fields of mixed kinds. Ports travel inside the
//! synthetic port object, the status falls back to `Unknown`, the action
//! type is strict, and the metadata map strips the vendor class tag.

use vstd::prelude::*;
use vstd::string::StringExecFns;
use crate::json::{JsonV, JsonValue, model_obj, lemma_model_obj};
use crate::errors::{DecodeError, DecodeErrorV};
use crate::codec::{obj_fold, lemma_obj_fold_push, lemma_obj_fold_stops, result_view, opt_view,
    str_of, int_of, bool_of, u16_of, json_str, json_int, json_bool, json_u16};
use crate::status::{Status, status_of, status_wire};
use crate::action_type::{ActionType, action_type_of, action_type_wire};
use crate::datacenterinfo::{DataCenterInfo, DataCenterInfoV, enc_dci, dec_dci, dci_from_json, dci_to_json};
use crate::leaseinfo::{LeaseInfo, enc_lease, dec_lease, lease_from_json, lease_to_json};
use crate::metadata::{MetaV, meta_model, lemma_meta_model, enc_meta, dec_meta, meta_from_json, meta_to_members};
use crate::port::{enc_port, dec_port, port_from_json, port_to_json};
use crate::text::str_eq;

verus! {

broadcast use
    vstd::std_specs::vec::group_vec_axioms,
    vstd::seq::group_seq_axioms,
    vstd::string::group_string_axioms,
;

/// One registered service endpoint.
#[derive(Debug, PartialEq, Eq, Clone)]
pub struct Instance {
    pub host_name: String,
    pub app: String,
    pub ip_addr: String,
    pub vip_address: String,
    pub secure_vip_address: String,
    pub status: Status,
    pub port: Option<u16>,
    pub secure_port: Option<u16>,
    pub homepage_url: String,
    pub status_page_url: String,
    pub health_check_url: String,
    pub data_center_info: DataCenterInfo,
    pub lease_info: Option<LeaseInfo>,
    pub metadata: Vec<(String, String)>,
    pub overriddenstatus: Option<Status>,
    pub country_id: u16,
    pub last_updated_timestamp: i64,
    pub last_dirty_timestamp: i64,
    pub action_type: ActionType,
    pub is_coordinating_discovery_server: bool,
}

/// Model of an instance record.
#[verifier::ext_equal]
pub struct InstanceV {
    pub host_name: Seq<char>,
    pub app: Seq<char>,
    pub ip_addr: Seq<char>,
    pub vip_address: Seq<char>,
    pub secure_vip_address: Seq<char>,
    pub status: Status,
    pub port: Option<u16>,
    pub secure_port: Option<u16>,
    pub homepage_url: Seq<char>,
    pub status_page_url: Seq<char>,
    pub health_check_url: Seq<char>,
    pub data_center_info: DataCenterInfoV,
    pub lease_info: Option<LeaseInfo>,
    pub metadata: MetaV,
    pub overriddenstatus: Option<Status>,
    pub country_id: u16,
    pub last_updated_timestamp: i64,
    pub last_dirty_timestamp: i64,
    pub action_type: ActionType,
    pub is_coordinating_discovery_server: bool,
}

impl View for Instance {
    type V = InstanceV;

    open spec fn view(&self) -> InstanceV {
        InstanceV {
            host_name: self.host_name@,
            app: self.app@,
            ip_addr: self.ip_addr@,
            vip_address: self.vip_address@,
            secure_vip_address: self.secure_vip_address@,
            status: self.status,
            port: self.port,
            secure_port: self.secure_port,
            homepage_url: self.homepage_url@,
            status_page_url: self.status_page_url@,
            health_check_url: self.health_check_url@,
            data_center_info: self.data_center_info@,
            lease_info: self.lease_info,
            metadata: meta_model(self.metadata@),
            overriddenstatus: self.overriddenstatus,
            country_id: self.country_id,
            last_updated_timestamp: self.last_updated_timestamp,
            last_dirty_timestamp: self.last_dirty_timestamp,
            action_type: self.action_type,
            is_coordinating_discovery_server: self.is_coordinating_discovery_server,
        }
    }
}

/// The wire object of an instance, members in canonical order: absent
/// ports, lease and overridden status are omitted, as is empty metadata.
pub open spec fn enc_instance(x: InstanceV) -> JsonV {
    JsonV::Obj(
        seq![
            ("hostName"@, JsonV::Str(x.host_name)),
            ("app"@, JsonV::Str(x.app)),
            ("ipAddr"@, JsonV::Str(x.ip_addr)),
            ("vipAddress"@, JsonV::Str(x.vip_address)),
            ("secureVipAddress"@, JsonV::Str(x.secure_vip_address)),
            ("status"@, JsonV::Str(status_wire(x.status))),
        ] + (match x.port {
            Some(p) => seq![("port"@, enc_port(p))],
            None => seq![],
        }) + (match x.secure_port {
            Some(p) => seq![("securePort"@, enc_port(p))],
            None => seq![],
        }) + seq![
            ("homePageUrl"@, JsonV::Str(x.homepage_url)),
            ("statusPageUrl"@, JsonV::Str(x.status_page_url)),
            ("healthCheckUrl"@, JsonV::Str(x.health_check_url)),
            ("dataCenterInfo"@, enc_dci(x.data_center_info)),
        ] + (match x.lease_info {
            Some(l) => seq![("leaseInfo"@, enc_lease(l))],
            None => seq![],
        }) + (if x.metadata.len() > 0 {
            seq![("metadata"@, JsonV::Obj(enc_meta(x.metadata)))]
        } else {
            seq![]
        }) + seq![("countryId"@, JsonV::Int(x.country_id as int))]
            + (match x.overriddenstatus {
            Some(st) => seq![("overriddenstatus"@, JsonV::Str(status_wire(st)))],
            None => seq![],
        }) + seq![
            ("isCoordinatingDiscoveryServer"@, JsonV::Bool(x.is_coordinating_discovery_server)),
            ("lastUpdatedTimestamp"@, JsonV::Int(x.last_updated_timestamp as int)),
            ("lastDirtyTimestamp"@, JsonV::Int(x.last_dirty_timestamp as int)),
            ("actionType"@, JsonV::Str(action_type_wire(x.action_type))),
        ],
    )
}

/// Partially decoded instance.
pub struct InstBuilder {
    pub host_name: Option<String>,
    pub app: Option<String>,
    pub ip_addr: Option<String>,
    pub vip_address: Option<String>,
    pub secure_vip_address: Option<String>,
    pub status: Option<Status>,
    pub port: Option<u16>,
    pub secure_port: Option<u16>,
    pub homepage_url: Option<String>,
    pub status_page_url: Option<String>,
    pub health_check_url: Option<String>,
    pub data_center_info: Option<DataCenterInfo>,
    pub lease_info: Option<LeaseInfo>,
    pub metadata: Option<Vec<(String, String)>>,
    pub overriddenstatus: Option<Status>,
    pub country_id: Option<u16>,
    pub last_updated_timestamp: Option<i64>,
    pub last_dirty_timestamp: Option<i64>,
    pub action_type: Option<ActionType>,
    pub is_coordinating_discovery_server: Option<bool>,
}

/// Model of the partially decoded instance.
pub struct InstBuilderV {
    pub host_name: Option<Seq<char>>,
    pub app: Option<Seq<char>>,
    pub ip_addr: Option<Seq<char>>,
    pub vip_address: Option<Seq<char>>,
    pub secure_vip_address: Option<Seq<char>>,
    pub status: Option<Status>,
    pub port: Option<u16>,
    pub secure_port: Option<u16>,
    pub homepage_url: Option<Seq<char>>,
    pub status_page_url: Option<Seq<char>>,
    pub health_check_url: Option<Seq<char>>,
    pub data_center_info: Option<DataCenterInfoV>,
    pub lease_info: Option<LeaseInfo>,
    pub metadata: Option<MetaV>,
    pub overriddenstatus: Option<Status>,
    pub country_id: Option<u16>,
    pub last_updated_timestamp: Option<i64>,
    pub last_dirty_timestamp: Option<i64>,
    pub action_type: Option<ActionType>,
    pub is_coordinating_discovery_server: Option<bool>,
}

impl View for InstBuilder {
    type V = InstBuilderV;

    open spec fn view(&self) -> InstBuilderV {
        InstBuilderV {
            host_name: (opt_view(self.host_name)),
            app: (opt_view(self.app)),
            ip_addr: (opt_view(self.ip_addr)),
            vip_address: (opt_view(self.vip_address)),
            secure_vip_address: (opt_view(self.secure_vip_address)),
            status: (self.status),
            port: (self.port),
            secure_port: (self.secure_port),
            homepage_url: (opt_view(self.homepage_url)),
            status_page_url: (opt_view(self.status_page_url)),
            health_check_url: (opt_view(self.health_check_url)),
            data_center_info: (opt_view(self.data_center_info)),
            lease_info: (self.lease_info),
            metadata: (match self.metadata { Some(m) => Some(meta_model(m@)), None => None }),
            overriddenstatus: (self.overriddenstatus),
            country_id: (self.country_id),
            last_updated_timestamp: (self.last_updated_timestamp),
            last_dirty_timestamp: (self.last_dirty_timestamp),
            action_type: (self.action_type),
            is_coordinating_discovery_server: (self.is_coordinating_discovery_server),
        }
    }
}

/// The builder before any member is read.
pub open spec fn inst_empty() -> InstBuilderV {
    InstBuilderV {
        host_name: None,
        app: None,
        ip_addr: None,
        vip_address: None,
        secure_vip_address: None,
        status: None,
        port: None,
        secure_port: None,
        homepage_url: None,
        status_page_url: None,
        health_check_url: None,
        data_center_info: None,
        lease_info: None,
        metadata: None,
        overriddenstatus: None,
        country_id: None,
        last_updated_timestamp: None,
        last_dirty_timestamp: None,
        action_type: None,
        is_coordinating_discovery_server: None,
    }
}

/// Folds one member into the builder: an unrecognized key or a repeated
/// one is the first violation; each value is read by its field's rule.
pub open spec fn inst_step(b: InstBuilderV, p: (Seq<char>, JsonV)) -> Result<
    InstBuilderV,
    DecodeErrorV,
> {
    let (k, v) = p;
    if k == "hostName"@ {
        if b.host_name is Some {
            Err(DecodeErrorV::DuplicateField(k))
        } else {
            match str_of(v, k) {
                Ok(s) => Ok(InstBuilderV { host_name: Some(s), ..b }),
                Err(e) => Err(e),
            }
        }
    } else if k == "app"@ {
        if b.app is Some {
            Err(DecodeErrorV::DuplicateField(k))
        } else {
            match str_of(v, k) {
                Ok(s) => Ok(InstBuilderV { app: Some(s), ..b }),
                Err(e) => Err(e),
            }
        }
    } else if k == "ipAddr"@ {
        if b.ip_addr is Some {
            Err(DecodeErrorV::DuplicateField(k))
        } else {
            match str_of(v, k) {
                Ok(s) => Ok(InstBuilderV { ip_addr: Some(s), ..b }),
                Err(e) => Err(e),
            }
        }
    } else if k == "vipAddress"@ {
        if b.vip_address is Some {
            Err(DecodeErrorV::DuplicateField(k))
        } else {
            match str_of(v, k) {
                Ok(s) => Ok(InstBuilderV { vip_address: Some(s), ..b }),
                Err(e) => Err(e),
            }
        }
    } else if k == "secureVipAddress"@ {
        if b.secure_vip_address is Some {
            Err(DecodeErrorV::DuplicateField(k))
        } else {
            match str_of(v, k) {
                Ok(s) => Ok(InstBuilderV { secure_vip_address: Some(s), ..b }),
                Err(e) => Err(e),
            }
        }
    } else if k == "status"@ {
        if b.status is Some {
            Err(DecodeErrorV::DuplicateField(k))
        } else {
            match str_of(v, k) {
                Ok(s) => Ok(InstBuilderV { status: Some(status_of(s)), ..b }),
                Err(e) => Err(e),
            }
        }
    } else if k == "port"@ {
        if b.port is Some {
            Err(DecodeErrorV::DuplicateField(k))
        } else {
            match dec_port(v, k) {
                Ok(n) => Ok(InstBuilderV { port: Some(n), ..b }),
                Err(e) => Err(e),
            }
        }
    } else if k == "securePort"@ {
        if b.secure_port is Some {
            Err(DecodeErrorV::DuplicateField(k))
        } else {
            match dec_port(v, k) {
                Ok(n) => Ok(InstBuilderV { secure_port: Some(n), ..b }),
                Err(e) => Err(e),
            }
        }
    } else if k == "homePageUrl"@ {
        if b.homepage_url is Some {
            Err(DecodeErrorV::DuplicateField(k))
        } else {
            match str_of(v, k) {
                Ok(s) => Ok(InstBuilderV { homepage_url: Some(s), ..b }),
                Err(e) => Err(e),
            }
        }
    } else if k == "statusPageUrl"@ {
        if b.status_page_url is Some {
            Err(DecodeErrorV::DuplicateField(k))
        } else {
            match str_of(v, k) {
                Ok(s) => Ok(InstBuilderV { status_page_url: Some(s), ..b }),
                Err(e) => Err(e),
            }
        }
    } else if k == "healthCheckUrl"@ {
        if b.health_check_url is Some {
            Err(DecodeErrorV::DuplicateField(k))
        } else {
            match str_of(v, k) {
                Ok(s) => Ok(InstBuilderV { health_check_url: Some(s), ..b }),
                Err(e) => Err(e),
            }
        }
    } else if k == "dataCenterInfo"@ {
        if b.data_center_info is Some {
            Err(DecodeErrorV::DuplicateField(k))
        } else {
            match dec_dci(v) {
                Ok(d) => Ok(InstBuilderV { data_center_info: Some(d), ..b }),
                Err(e) => Err(e),
            }
        }
    } else if k == "leaseInfo"@ {
        if b.lease_info is Some {
            Err(DecodeErrorV::DuplicateField(k))
        } else {
            match dec_lease(v) {
                Ok(l) => Ok(InstBuilderV { lease_info: Some(l), ..b }),
                Err(e) => Err(e),
            }
        }
    } else if k == "metadata"@ {
        if b.metadata is Some {
            Err(DecodeErrorV::DuplicateField(k))
        } else {
            match dec_meta(v) {
                Ok(m) => Ok(InstBuilderV { metadata: Some(m), ..b }),
                Err(e) => Err(e),
            }
        }
    } else if k == "overriddenstatus"@ {
        if b.overriddenstatus is Some {
            Err(DecodeErrorV::DuplicateField(k))
        } else {
            match str_of(v, k) {
                Ok(s) => Ok(InstBuilderV { overriddenstatus: Some(status_of(s)), ..b }),
                Err(e) => Err(e),
            }
        }
    } else if k == "countryId"@ {
        if b.country_id is Some {
            Err(DecodeErrorV::DuplicateField(k))
        } else {
            match u16_of(v, k) {
                Ok(n) => Ok(InstBuilderV { country_id: Some(n), ..b }),
                Err(e) => Err(e),
            }
        }
    } else if k == "lastUpdatedTimestamp"@ {
        if b.last_updated_timestamp is Some {
            Err(DecodeErrorV::DuplicateField(k))
        } else {
            match int_of(v, k) {
                Ok(n) => Ok(InstBuilderV { last_updated_timestamp: Some(n), ..b }),
                Err(e) => Err(e),
            }
        }
    } else if k == "lastDirtyTimestamp"@ {
        if b.last_dirty_timestamp is Some {
            Err(DecodeErrorV::DuplicateField(k))
        } else {
            match int_of(v, k) {
                Ok(n) => Ok(InstBuilderV { last_dirty_timestamp: Some(n), ..b }),
                Err(e) => Err(e),
            }
        }
    } else if k == "actionType"@ {
        if b.action_type is Some {
            Err(DecodeErrorV::DuplicateField(k))
        } else {
            match str_of(v, k) {
                Ok(s) => match action_type_of(s) {
                    Some(a) => Ok(InstBuilderV { action_type: Some(a), ..b }),
                    None => Err(DecodeErrorV::TypeMismatch(k)),
                },
                Err(e) => Err(e),
            }
        }
    } else if k == "isCoordinatingDiscoveryServer"@ {
        if b.is_coordinating_discovery_server is Some {
            Err(DecodeErrorV::DuplicateField(k))
        } else {
            match bool_of(v, k) {
                Ok(n) => Ok(InstBuilderV { is_coordinating_discovery_server: Some(n), ..b }),
                Err(e) => Err(e),
            }
        }
    } else {
        Err(DecodeErrorV::UnknownField(k))
    }
}

/// The step function of an instance, as a value for the fold.
pub open spec fn inst_step_f() -> spec_fn(InstBuilderV, (Seq<char>, JsonV)) -> Result<
    InstBuilderV,
    DecodeErrorV,
> {
    |b: InstBuilderV, p: (Seq<char>, JsonV)| inst_step(b, p)
}

/// After all members are consumed, every mandatory field must be
/// present; ports, lease and overridden status stay absent if omitted,
/// and absent metadata becomes a zero-length mapping.
pub open spec fn inst_finish(b: InstBuilderV) -> Result<InstanceV, DecodeErrorV> {
    if b.host_name is None {
        Err(DecodeErrorV::MissingField("hostName"@))
    } else if b.app is None {
        Err(DecodeErrorV::MissingField("app"@))
    } else if b.ip_addr is None {
        Err(DecodeErrorV::MissingField("ipAddr"@))
    } else if b.vip_address is None {
        Err(DecodeErrorV::MissingField("vipAddress"@))
    } else if b.secure_vip_address is None {
        Err(DecodeErrorV::MissingField("secureVipAddress"@))
    } else if b.status is None {
        Err(DecodeErrorV::MissingField("status"@))
    } else if b.homepage_url is None {
        Err(DecodeErrorV::MissingField("homePageUrl"@))
    } else if b.status_page_url is None {
        Err(DecodeErrorV::MissingField("statusPageUrl"@))
    } else if b.health_check_url is None {
        Err(DecodeErrorV::MissingField("healthCheckUrl"@))
    } else if b.data_center_info is None {
        Err(DecodeErrorV::MissingField("dataCenterInfo"@))
    } else if b.country_id is None {
        Err(DecodeErrorV::MissingField("countryId"@))
    } else if b.last_updated_timestamp is None {
        Err(DecodeErrorV::MissingField("lastUpdatedTimestamp"@))
    } else if b.last_dirty_timestamp is None {
        Err(DecodeErrorV::MissingField("lastDirtyTimestamp"@))
    } else if b.is_coordinating_discovery_server is None {
        Err(DecodeErrorV::MissingField("isCoordinatingDiscoveryServer"@))
    } else if b.action_type is None {
        Err(DecodeErrorV::MissingField("actionType"@))
    } else {
        Ok(InstanceV {
            host_name: b.host_name->0,
            app: b.app->0,
            ip_addr: b.ip_addr->0,
            vip_address: b.vip_address->0,
            secure_vip_address: b.secure_vip_address->0,
            status: b.status->0,
            port: b.port,
            secure_port: b.secure_port,
            homepage_url: b.homepage_url->0,
            status_page_url: b.status_page_url->0,
            health_check_url: b.health_check_url->0,
            data_center_info: b.data_center_info->0,
            lease_info: b.lease_info,
            metadata: (match b.metadata { Some(m) => m, None => Seq::empty() }),
            overriddenstatus: b.overriddenstatus,
            country_id: b.country_id->0,
            last_updated_timestamp: b.last_updated_timestamp->0,
            last_dirty_timestamp: b.last_dirty_timestamp->0,
            action_type: b.action_type->0,
            is_coordinating_discovery_server: b.is_coordinating_discovery_server->0,
        })
    }
}

/// What a wire value decodes to as an instance.
pub open spec fn dec_instance(v: JsonV) -> Result<InstanceV, DecodeErrorV> {
    match v {
        JsonV::Obj(ps) => match obj_fold(inst_step_f(), inst_empty(), ps) {
            Ok(b) => inst_finish(b),
            Err(e) => Err(e),
        },
        _ => Err(DecodeErrorV::TypeMismatch("Instance"@)),
    }
}

/// Executable form of `inst_step`, updating the builder in place.
fn inst_apply(b: &mut InstBuilder, k: &String, v: &JsonValue) -> (r: Result<(), DecodeError>)
    ensures
        match r {
            Ok(_) => inst_step(old(b)@, (k@, v@)) == Ok::<InstBuilderV, DecodeErrorV>(final(b)@),
            Err(e) => inst_step(old(b)@, (k@, v@)) == Err::<InstBuilderV, DecodeErrorV>(e@),
        },
{
    if str_eq(k.as_str(), "hostName") {
        if b.host_name.is_some() {
            return Err(DecodeError::DuplicateField(k.clone()));
        }
        match json_str(v, "hostName") {
            Ok(x) => {
                b.host_name = Some(x);
                Ok(())
            },
            Err(e) => Err(e),
        }
    } else if str_eq(k.as_str(), "app") {
        if b.app.is_some() {
            return Err(DecodeError::DuplicateField(k.clone()));
        }
        match json_str(v, "app") {
            Ok(x) => {
                b.app = Some(x);
                Ok(())
            },
            Err(e) => Err(e),
        }
    } else if str_eq(k.as_str(), "ipAddr") {
        if b.ip_addr.is_some() {
            return Err(DecodeError::DuplicateField(k.clone()));
        }
        match json_str(v, "ipAddr") {
            Ok(x) => {
                b.ip_addr = Some(x);
                Ok(())
            },
            Err(e) => Err(e),
        }
    } else if str_eq(k.as_str(), "vipAddress") {
        if b.vip_address.is_some() {
            return Err(DecodeError::DuplicateField(k.clone()));
        }
        match json_str(v, "vipAddress") {
            Ok(x) => {
                b.vip_address = Some(x);
                Ok(())
            },
            Err(e) => Err(e),
        }
    } else if str_eq(k.as_str(), "secureVipAddress") {
        if b.secure_vip_address.is_some() {
            return Err(DecodeError::DuplicateField(k.clone()));
        }
        match json_str(v, "secureVipAddress") {
            Ok(x) => {
                b.secure_vip_address = Some(x);
                Ok(())
            },
            Err(e) => Err(e),
        }
    } else if str_eq(k.as_str(), "status") {
        if b.status.is_some() {
            return Err(DecodeError::DuplicateField(k.clone()));
        }
        match json_str(v, "status") {
            Ok(s) => {
                b.status = Some(Status::from(s.as_str()));
                Ok(())
            },
            Err(e) => Err(e),
        }
    } else if str_eq(k.as_str(), "port") {
        if b.port.is_some() {
            return Err(DecodeError::DuplicateField(k.clone()));
        }
        match port_from_json(v, "port") {
            Ok(x) => {
                b.port = Some(x);
                Ok(())
            },
            Err(e) => Err(e),
        }
    } else if str_eq(k.as_str(), "securePort") {
        if b.secure_port.is_some() {
            return Err(DecodeError::DuplicateField(k.clone()));
        }
        match port_from_json(v, "securePort") {
            Ok(x) => {
                b.secure_port = Some(x);
                Ok(())
            },
            Err(e) => Err(e),
        }
    } else if str_eq(k.as_str(), "homePageUrl") {
        if b.homepage_url.is_some() {
            return Err(DecodeError::DuplicateField(k.clone()));
        }
        match json_str(v, "homePageUrl") {
            Ok(x) => {
                b.homepage_url = Some(x);
                Ok(())
            },
            Err(e) => Err(e),
        }
    } else if str_eq(k.as_str(), "statusPageUrl") {
        if b.status_page_url.is_some() {
            return Err(DecodeError::DuplicateField(k.clone()));
        }
        match json_str(v, "statusPageUrl") {
            Ok(x) => {
                b.status_page_url = Some(x);
                Ok(())
            },
            Err(e) => Err(e),
        }
    } else if str_eq(k.as_str(), "healthCheckUrl") {
        if b.health_check_url.is_some() {
            return Err(DecodeError::DuplicateField(k.clone()));
        }
        match json_str(v, "healthCheckUrl") {
            Ok(x) => {
                b.health_check_url = Some(x);
                Ok(())
            },
            Err(e) => Err(e),
        }
    } else if str_eq(k.as_str(), "dataCenterInfo") {
        if b.data_center_info.is_some() {
            return Err(DecodeError::DuplicateField(k.clone()));
        }
        match dci_from_json(v) {
            Ok(x) => {
                b.data_center_info = Some(x);
                Ok(())
            },
            Err(e) => Err(e),
        }
    } else if str_eq(k.as_str(), "leaseInfo") {
        if b.lease_info.is_some() {
            return Err(DecodeError::DuplicateField(k.clone()));
        }
        match lease_from_json(v) {
            Ok(x) => {
                b.lease_info = Some(x);
                Ok(())
            },
            Err(e) => Err(e),
        }
    } else if str_eq(k.as_str(), "metadata") {
        if b.metadata.is_some() {
            return Err(DecodeError::DuplicateField(k.clone()));
        }
        match meta_from_json(v) {
            Ok(x) => {
                b.metadata = Some(x);
                Ok(())
            },
            Err(e) => Err(e),
        }
    } else if str_eq(k.as_str(), "overriddenstatus") {
        if b.overriddenstatus.is_some() {
            return Err(DecodeError::DuplicateField(k.clone()));
        }
        match json_str(v, "overriddenstatus") {
            Ok(s) => {
                b.overriddenstatus = Some(Status::from(s.as_str()));
                Ok(())
            },
            Err(e) => Err(e),
        }
    } else if str_eq(k.as_str(), "countryId") {
        if b.country_id.is_some() {
            return Err(DecodeError::DuplicateField(k.clone()));
        }
        match json_u16(v, "countryId") {
            Ok(x) => {
                b.country_id = Some(x);
                Ok(())
            },
            Err(e) => Err(e),
        }
    } else if str_eq(k.as_str(), "lastUpdatedTimestamp") {
        if b.last_updated_timestamp.is_some() {
            return Err(DecodeError::DuplicateField(k.clone()));
        }
        match json_int(v, "lastUpdatedTimestamp") {
            Ok(x) => {
                b.last_updated_timestamp = Some(x);
                Ok(())
            },
            Err(e) => Err(e),
        }
    } else if str_eq(k.as_str(), "lastDirtyTimestamp") {
        if b.last_dirty_timestamp.is_some() {
            return Err(DecodeError::DuplicateField(k.clone()));
        }
        match json_int(v, "lastDirtyTimestamp") {
            Ok(x) => {
                b.last_dirty_timestamp = Some(x);
                Ok(())
            },
            Err(e) => Err(e),
        }
    } else if str_eq(k.as_str(), "actionType") {
        if b.action_type.is_some() {
            return Err(DecodeError::DuplicateField(k.clone()));
        }
        match json_str(v, "actionType") {
            Ok(s) => match ActionType::from_str(s.as_str()) {
                Ok(a) => {
                    b.action_type = Some(a);
                    Ok(())
                },
                Err(_) => Err(DecodeError::TypeMismatch(k.clone())),
            },
            Err(e) => Err(e),
        }
    } else if str_eq(k.as_str(), "isCoordinatingDiscoveryServer") {
        if b.is_coordinating_discovery_server.is_some() {
            return Err(DecodeError::DuplicateField(k.clone()));
        }
        match json_bool(v, "isCoordinatingDiscoveryServer") {
            Ok(x) => {
                b.is_coordinating_discovery_server = Some(x);
                Ok(())
            },
            Err(e) => Err(e),
        }
    } else {
        Err(DecodeError::UnknownField(k.clone()))
    }
}

/// Decodes a wire value as an instance, surfacing the first violation.
pub fn instance_from_json(v: &JsonValue) -> (r: Result<Instance, DecodeError>)
    ensures
        result_view(r) == dec_instance(v@),
{
    let ps = match v {
        JsonValue::Obj(ps) => ps,
        _ => {
            return Err(DecodeError::TypeMismatch(String::from_str("Instance")));
        },
    };
    let ghost psv = model_obj(ps@);
    proof {
        lemma_model_obj(ps@);
        assert(v@ == JsonV::Obj(psv));
    }
    let mut b = InstBuilder {
        host_name: None,
        app: None,
        ip_addr: None,
        vip_address: None,
        secure_vip_address: None,
        status: None,
        port: None,
        secure_port: None,
        homepage_url: None,
        status_page_url: None,
        health_check_url: None,
        data_center_info: None,
        lease_info: None,
        metadata: None,
        overriddenstatus: None,
        country_id: None,
        last_updated_timestamp: None,
        last_dirty_timestamp: None,
        action_type: None,
        is_coordinating_discovery_server: None,
    };
    let mut i: usize = 0;
    while i < ps.len()
        invariant
            i <= ps.len(),
            psv == model_obj(ps@),
            v@ == JsonV::Obj(psv),
            psv.len() == ps@.len(),
            forall|j: int| 0 <= j < ps@.len() ==> #[trigger] psv[j] == (ps@[j].0@, ps@[j].1@),
            obj_fold(inst_step_f(), inst_empty(), psv.take(i as int)) == Ok::<
                InstBuilderV,
                DecodeErrorV,
            >(b@),
        decreases ps.len() - i,
    {
        let ghost b_pre = b@;
        match inst_apply(&mut b, &ps[i].0, &ps[i].1) {
            Ok(_) => {
                proof {
                    lemma_obj_fold_push(inst_step_f(), inst_empty(), psv.take(i as int), psv[i as int]);
                    assert(psv.take(i as int).push(psv[i as int]) =~= psv.take(i + 1));
                }
            },
            Err(e) => {
                proof {
                    lemma_obj_fold_stops(inst_step_f(), inst_empty(), psv, i as int, b_pre, e@);
                }
                return Err(e);
            },
        }
        i = i + 1;
    }
    proof {
        assert(psv.take(ps@.len() as int) =~= psv);
    }
    if b.host_name.is_none() {
        return Err(DecodeError::MissingField(String::from_str("hostName")));
    }
    if b.app.is_none() {
        return Err(DecodeError::MissingField(String::from_str("app")));
    }
    if b.ip_addr.is_none() {
        return Err(DecodeError::MissingField(String::from_str("ipAddr")));
    }
    if b.vip_address.is_none() {
        return Err(DecodeError::MissingField(String::from_str("vipAddress")));
    }
    if b.secure_vip_address.is_none() {
        return Err(DecodeError::MissingField(String::from_str("secureVipAddress")));
    }
    if b.status.is_none() {
        return Err(DecodeError::MissingField(String::from_str("status")));
    }
    if b.homepage_url.is_none() {
        return Err(DecodeError::MissingField(String::from_str("homePageUrl")));
    }
    if b.status_page_url.is_none() {
        return Err(DecodeError::MissingField(String::from_str("statusPageUrl")));
    }
    if b.health_check_url.is_none() {
        return Err(DecodeError::MissingField(String::from_str("healthCheckUrl")));
    }
    if b.data_center_info.is_none() {
        return Err(DecodeError::MissingField(String::from_str("dataCenterInfo")));
    }
    if b.country_id.is_none() {
        return Err(DecodeError::MissingField(String::from_str("countryId")));
    }
    if b.last_updated_timestamp.is_none() {
        return Err(DecodeError::MissingField(String::from_str("lastUpdatedTimestamp")));
    }
    if b.last_dirty_timestamp.is_none() {
        return Err(DecodeError::MissingField(String::from_str("lastDirtyTimestamp")));
    }
    if b.is_coordinating_discovery_server.is_none() {
        return Err(DecodeError::MissingField(String::from_str("isCoordinatingDiscoveryServer")));
    }
    if b.action_type.is_none() {
        return Err(DecodeError::MissingField(String::from_str("actionType")));
    }
    let r = Instance {
        host_name: b.host_name.unwrap(),
        app: b.app.unwrap(),
        ip_addr: b.ip_addr.unwrap(),
        vip_address: b.vip_address.unwrap(),
        secure_vip_address: b.secure_vip_address.unwrap(),
        status: b.status.unwrap(),
        port: b.port,
        secure_port: b.secure_port,
        homepage_url: b.homepage_url.unwrap(),
        status_page_url: b.status_page_url.unwrap(),
        health_check_url: b.health_check_url.unwrap(),
        data_center_info: b.data_center_info.unwrap(),
        lease_info: b.lease_info,
        metadata: (match b.metadata { Some(m) => m, None => Vec::new() }),
        overriddenstatus: b.overriddenstatus,
        country_id: b.country_id.unwrap(),
        last_updated_timestamp: b.last_updated_timestamp.unwrap(),
        last_dirty_timestamp: b.last_dirty_timestamp.unwrap(),
        action_type: b.action_type.unwrap(),
        is_coordinating_discovery_server: b.is_coordinating_discovery_server.unwrap(),
    };
    proof {
        assert(meta_model(Seq::<(String, String)>::empty()) =~= Seq::<(Seq<char>, Seq<char>)>::empty());
        assert(r@ =~= inst_finish(obj_fold(inst_step_f(), inst_empty(), psv)->Ok_0)->Ok_0);
    }
    Ok(r)
}

/// Encodes an instance as its wire object, in canonical member order,
/// omitting absent ports, lease, overridden status and empty metadata.
#[verifier::rlimit(100)]
pub fn instance_to_json(x: &Instance) -> (r: JsonValue)
    ensures
        r@ == enc_instance(x@),
{
    let mut ps: Vec<(String, JsonValue)> = Vec::new();
    ps.push((String::from_str("hostName"), JsonValue::Str(x.host_name.clone())));
    ps.push((String::from_str("app"), JsonValue::Str(x.app.clone())));
    ps.push((String::from_str("ipAddr"), JsonValue::Str(x.ip_addr.clone())));
    ps.push((String::from_str("vipAddress"), JsonValue::Str(x.vip_address.clone())));
    ps.push((String::from_str("secureVipAddress"), JsonValue::Str(x.secure_vip_address.clone())));
    ps.push((String::from_str("status"), JsonValue::Str(x.status.wire_str())));
    match x.port {
        Some(p) => {
            ps.push((String::from_str("port"), port_to_json(p)));
        },
        None => {},
    }
    match x.secure_port {
        Some(p) => {
            ps.push((String::from_str("securePort"), port_to_json(p)));
        },
        None => {},
    }
    ps.push((String::from_str("homePageUrl"), JsonValue::Str(x.homepage_url.clone())));
    ps.push((String::from_str("statusPageUrl"), JsonValue::Str(x.status_page_url.clone())));
    ps.push((String::from_str("healthCheckUrl"), JsonValue::Str(x.health_check_url.clone())));
    ps.push((String::from_str("dataCenterInfo"), dci_to_json(&x.data_center_info)));
    match &x.lease_info {
        Some(l) => {
            ps.push((String::from_str("leaseInfo"), lease_to_json(l)));
        },
        None => {},
    }
    if x.metadata.len() > 0 {
        ps.push((String::from_str("metadata"), JsonValue::Obj(meta_to_members(&x.metadata))));
    }
    proof {
        lemma_meta_model(x.metadata@);
    }
    ps.push((String::from_str("countryId"), JsonValue::Int(x.country_id as i64)));
    match x.overriddenstatus {
        Some(st) => {
            ps.push((String::from_str("overriddenstatus"), JsonValue::Str(st.wire_str())));
        },
        None => {},
    }
    ps.push((
        String::from_str("isCoordinatingDiscoveryServer"),
        JsonValue::Bool(x.is_coordinating_discovery_server),
    ));
    ps.push((String::from_str("lastUpdatedTimestamp"), JsonValue::Int(x.last_updated_timestamp)));
    ps.push((String::from_str("lastDirtyTimestamp"), JsonValue::Int(x.last_dirty_timestamp)));
    ps.push((String::from_str("actionType"), JsonValue::Str(x.action_type.wire_str())));
    let ghost psv = ps@;
    let r = JsonValue::Obj(ps);
    proof {
        lemma_model_obj(psv);
        assert(model_obj(psv) =~= enc_instance(x@)->Obj_0);
        assert(r@ =~= enc_instance(x@));
    }
    r
}

} // verus!
