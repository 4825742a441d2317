//! The codec's laws, proved once and for all: encoding and decoding are
//! inverse on canonical values, unknown and duplicate and missing fields
//! are rejected as the first violation, the cardinality resolver
//! normalizes both shapes to the same list, the lease default is
//! injected, the status fallback and action-type strictness differ, and
//! the vendor class tag never survives a metadata decode.

use vstd::prelude::*;
use crate::json::JsonV;
use crate::errors::DecodeErrorV;
use crate::codec::{obj_fold, lemma_obj_fold_append, lemma_obj_fold_snoc_ok, lemma_obj_fold_stops};
use crate::text::{dec_nat, parse_capped, lemma_dec_nat};
use crate::status::{Status, status_of, status_wire, lemma_status_round_trip};
use crate::action_type::{action_type_of, action_type_wire, lemma_action_type_round_trip};
use crate::dcname::{dcname_wire, lemma_dcname_round_trip};
use crate::port::{enc_port, dec_port, port_empty, port_step, port_step_f, PortBuilder};
use crate::leaseinfo::{LeaseInfo, enc_lease, dec_lease, lease_empty, lease_step_f, lease_duration_emitted, LeaseBuilder};
use crate::amazonmetadata::{AmazonMetaDataV, enc_amd, dec_amd, amd_empty, amd_step_f, AmdBuilderV};
use crate::metadata::{MetaV, enc_meta, dec_meta, meta_step_f, meta_put, lemma_meta_put_append};
use crate::datacenterinfo::{DataCenterInfoV, enc_dci, dec_dci, dci_empty, dci_step_f, dci_class_value, DciBuilderV};
use crate::instance::{InstanceV, enc_instance, dec_instance, inst_empty, inst_step_f, inst_step, inst_finish, InstBuilderV};
use crate::application::{ApplicationV, enc_application, dec_application, app_empty, app_step_f, AppBuilderV};
use crate::applications::{ApplicationsV, enc_applications, dec_applications, apps_empty, apps_step_f, AppsBuilderV, dec_app_seq, enc_app_seq, dec_app_field, enc_app_field};
use crate::register::{RegisterRequestV, enc_register, dec_register, register_step_f};
use crate::codec::lemma_obj_fold_push;
use crate::codec::lemma_obj_fold_prefix_err;

verus! {

broadcast use
    vstd::std_specs::vec::group_vec_axioms,
    vstd::seq::group_seq_axioms,
    vstd::string::group_string_axioms,
;

/// Decoding the wire object of a port gives back the port number,
/// whatever wire name it sat under.
pub proof fn lemma_port_round_trip(p: u16, ctx: Seq<char>)
    ensures
        dec_port(enc_port(p), ctx) == Ok::<u16, DecodeErrorV>(p),
{
    reveal_strlit("$");
    reveal_strlit("@enabled");
    reveal_strlit("true");
    assert("$"@.len() == 1);
    assert("@enabled"@.len() == 8);
    lemma_dec_nat(p as nat);
    let ps = enc_port(p)->Obj_0;
    let e0 = ("$"@, JsonV::Str(dec_nat(p as nat)));
    let e1 = ("@enabled"@, JsonV::Str("true"@));
    assert(ps =~= Seq::empty().push(e0).push(e1));
    let b0 = port_empty();
    let b1 = PortBuilder { dollar: Some(p), enabled_seen: false };
    let b2 = PortBuilder { dollar: Some(p), enabled_seen: true };
    assert(parse_capped(dec_nat(p as nat), u16::MAX as int) == Some(p as int));
    assert(port_step(b0, e0) == Ok::<PortBuilder, DecodeErrorV>(b1));
    lemma_obj_fold_snoc_ok(port_step_f(), b0, Seq::empty(), b0, e0, b1);
    assert(port_step(b1, e1) == Ok::<PortBuilder, DecodeErrorV>(b2));
    lemma_obj_fold_snoc_ok(port_step_f(), b0, Seq::empty().push(e0), b1, e1, b2);
}

/// Decoding the wire object of a lease gives back the lease, provided
/// its duration was stored rather than injected at encode time.
pub proof fn lemma_lease_round_trip(l: LeaseInfo)
    requires
        l.duration_in_secs is Some,
    ensures
        dec_lease(enc_lease(l)) == Ok::<LeaseInfo, DecodeErrorV>(l),
{
    reveal_strlit("renewalIntervalInSecs");
    reveal_strlit("durationInSecs");
    reveal_strlit("registrationTimestamp");
    reveal_strlit("lastRenewalTimestamp");
    reveal_strlit("evictionTimestamp");
    reveal_strlit("serviceUpTimestamp");
    assert("renewalIntervalInSecs"@.len() == 21);
    assert("durationInSecs"@.len() == 14);
    assert("registrationTimestamp"@.len() == 21);
    assert("lastRenewalTimestamp"@.len() == 20);
    assert("evictionTimestamp"@.len() == 17);
    assert("serviceUpTimestamp"@.len() == 18);
    assert("renewalIntervalInSecs"@[2] == 'n' && "registrationTimestamp"@[2] == 'g');
    let ps = enc_lease(l)->Obj_0;
    let e0 = ("renewalIntervalInSecs"@, JsonV::Int(l.renewal_interval_in_secs as int));
    let e1 = ("durationInSecs"@, JsonV::Int(lease_duration_emitted(l) as int));
    let e2 = ("registrationTimestamp"@, JsonV::Int(l.registration_timestamp as int));
    let e3 = ("lastRenewalTimestamp"@, JsonV::Int(l.last_renewal_timestamp as int));
    let e4 = ("evictionTimestamp"@, JsonV::Int(l.eviction_timestamp as int));
    let e5 = ("serviceUpTimestamp"@, JsonV::Int(l.service_up_timestamp as int));
    assert(ps =~= Seq::empty().push(e0).push(e1).push(e2).push(e3).push(e4).push(e5));
    let b0 = lease_empty();
    let b1 = LeaseBuilder { renewal_interval_in_secs: Some(l.renewal_interval_in_secs), ..b0 };
    let b2 = LeaseBuilder { duration_in_secs: Some(lease_duration_emitted(l)), ..b1 };
    let b3 = LeaseBuilder { registration_timestamp: Some(l.registration_timestamp), ..b2 };
    let b4 = LeaseBuilder { last_renewal_timestamp: Some(l.last_renewal_timestamp), ..b3 };
    let b5 = LeaseBuilder { eviction_timestamp: Some(l.eviction_timestamp), ..b4 };
    let b6 = LeaseBuilder { service_up_timestamp: Some(l.service_up_timestamp), ..b5 };
    lemma_obj_fold_snoc_ok(lease_step_f(), b0, Seq::empty(), b0, e0, b1);
    lemma_obj_fold_snoc_ok(lease_step_f(), b0, Seq::empty().push(e0), b1, e1, b2);
    lemma_obj_fold_snoc_ok(lease_step_f(), b0, Seq::empty().push(e0).push(e1), b2, e2, b3);
    lemma_obj_fold_snoc_ok(lease_step_f(), b0, Seq::empty().push(e0).push(e1).push(e2), b3, e3, b4);
    lemma_obj_fold_snoc_ok(
        lease_step_f(),
        b0,
        Seq::empty().push(e0).push(e1).push(e2).push(e3),
        b4,
        e4,
        b5,
    );
    lemma_obj_fold_snoc_ok(
        lease_step_f(),
        b0,
        Seq::empty().push(e0).push(e1).push(e2).push(e3).push(e4),
        b5,
        e5,
        b6,
    );
    assert(obj_fold(lease_step_f(), b0, ps) == Ok::<LeaseBuilder, DecodeErrorV>(b6));
}

/// Decoding the wire object of cloud metadata gives it back.
pub proof fn lemma_amd_round_trip(m: AmazonMetaDataV)
    ensures
        dec_amd(enc_amd(m)) == Ok::<AmazonMetaDataV, DecodeErrorV>(m),
{
    reveal_strlit("ami-launch-index");
    reveal_strlit("local-hostname");
    reveal_strlit("availability-zone");
    reveal_strlit("instance-id");
    reveal_strlit("public-ipv4");
    reveal_strlit("public-hostname");
    reveal_strlit("ami-manifest-path");
    reveal_strlit("local-ipv4");
    reveal_strlit("hostname");
    reveal_strlit("ami-id");
    reveal_strlit("instance-type");
    assert("ami-launch-index"@.len() == 16);
    assert("local-hostname"@.len() == 14);
    assert("availability-zone"@.len() == 17);
    assert("instance-id"@.len() == 11);
    assert("public-ipv4"@.len() == 11);
    assert("public-hostname"@.len() == 15);
    assert("ami-manifest-path"@.len() == 17);
    assert("local-ipv4"@.len() == 10);
    assert("hostname"@.len() == 8);
    assert("ami-id"@.len() == 6);
    assert("instance-type"@.len() == 13);
    assert("instance-id"@[0] == 'i' && "public-ipv4"@[0] == 'p');
    assert("availability-zone"@[1] == 'v' && "ami-manifest-path"@[1] == 'm');
    let ps = enc_amd(m)->Obj_0;
    let e0 = ("ami-launch-index"@, JsonV::Str(m.ami_launch_index));
    let e1 = ("local-hostname"@, JsonV::Str(m.local_hostname));
    let e2 = ("availability-zone"@, JsonV::Str(m.availability_zone));
    let e3 = ("instance-id"@, JsonV::Str(m.instance_id));
    let e4 = ("public-ipv4"@, JsonV::Str(m.public_ipv4));
    let e5 = ("public-hostname"@, JsonV::Str(m.public_hostname));
    let e6 = ("ami-manifest-path"@, JsonV::Str(m.ami_manifest_path));
    let e7 = ("local-ipv4"@, JsonV::Str(m.local_ipv4));
    let e8 = ("hostname"@, JsonV::Str(m.hostname));
    let e9 = ("ami-id"@, JsonV::Str(m.ami_id));
    let e10 = ("instance-type"@, JsonV::Str(m.instance_type));
    assert(ps =~= Seq::empty().push(e0).push(e1).push(e2).push(e3).push(e4).push(e5).push(e6).push(e7).push(e8).push(e9).push(e10));
    let b0 = amd_empty();
    let b1 = AmdBuilderV { ami_launch_index: Some(m.ami_launch_index), ..b0 };
    let b2 = AmdBuilderV { local_hostname: Some(m.local_hostname), ..b1 };
    let b3 = AmdBuilderV { availability_zone: Some(m.availability_zone), ..b2 };
    let b4 = AmdBuilderV { instance_id: Some(m.instance_id), ..b3 };
    let b5 = AmdBuilderV { public_ipv4: Some(m.public_ipv4), ..b4 };
    let b6 = AmdBuilderV { public_hostname: Some(m.public_hostname), ..b5 };
    let b7 = AmdBuilderV { ami_manifest_path: Some(m.ami_manifest_path), ..b6 };
    let b8 = AmdBuilderV { local_ipv4: Some(m.local_ipv4), ..b7 };
    let b9 = AmdBuilderV { hostname: Some(m.hostname), ..b8 };
    let b10 = AmdBuilderV { ami_id: Some(m.ami_id), ..b9 };
    let b11 = AmdBuilderV { instance_type: Some(m.instance_type), ..b10 };
    lemma_obj_fold_snoc_ok(amd_step_f(), b0, Seq::empty(), b0, e0, b1);
    lemma_obj_fold_snoc_ok(amd_step_f(), b0, Seq::empty().push(e0), b1, e1, b2);
    lemma_obj_fold_snoc_ok(amd_step_f(), b0, Seq::empty().push(e0).push(e1), b2, e2, b3);
    lemma_obj_fold_snoc_ok(amd_step_f(), b0, Seq::empty().push(e0).push(e1).push(e2), b3, e3, b4);
    lemma_obj_fold_snoc_ok(amd_step_f(), b0, Seq::empty().push(e0).push(e1).push(e2).push(e3), b4, e4, b5);
    lemma_obj_fold_snoc_ok(amd_step_f(), b0, Seq::empty().push(e0).push(e1).push(e2).push(e3).push(e4), b5, e5, b6);
    lemma_obj_fold_snoc_ok(amd_step_f(), b0, Seq::empty().push(e0).push(e1).push(e2).push(e3).push(e4).push(e5), b6, e6, b7);
    lemma_obj_fold_snoc_ok(amd_step_f(), b0, Seq::empty().push(e0).push(e1).push(e2).push(e3).push(e4).push(e5).push(e6), b7, e7, b8);
    lemma_obj_fold_snoc_ok(amd_step_f(), b0, Seq::empty().push(e0).push(e1).push(e2).push(e3).push(e4).push(e5).push(e6).push(e7), b8, e8, b9);
    lemma_obj_fold_snoc_ok(amd_step_f(), b0, Seq::empty().push(e0).push(e1).push(e2).push(e3).push(e4).push(e5).push(e6).push(e7).push(e8), b9, e9, b10);
    lemma_obj_fold_snoc_ok(amd_step_f(), b0, Seq::empty().push(e0).push(e1).push(e2).push(e3).push(e4).push(e5).push(e6).push(e7).push(e8).push(e9), b10, e10, b11);
    assert(obj_fold(amd_step_f(), b0, ps) == Ok::<AmdBuilderV, DecodeErrorV>(b11));
}

/// Keys of a metadata mapping are pairwise distinct and none is the
/// vendor class tag.
pub open spec fn meta_canonical(m: MetaV) -> bool {
    &&& forall|i: int, j: int| 0 <= i < j < m.len() ==> (#[trigger] m[i]).0 != (#[trigger] m[j]).0
    &&& forall|i: int| 0 <= i < m.len() ==> (#[trigger] m[i]).0 != "@class"@
}

/// Decoding the encoded metadata mapping gives it back, provided its
/// keys are distinct and none is the vendor class tag.
pub proof fn lemma_meta_round_trip(m: MetaV)
    requires
        meta_canonical(m),
    ensures
        dec_meta(JsonV::Obj(enc_meta(m))) == Ok::<MetaV, DecodeErrorV>(m),
    decreases m.len(),
{
    if m.len() == 0 {
        assert(enc_meta(m) =~= Seq::<(Seq<char>, JsonV)>::empty());
        assert(m =~= Seq::<(Seq<char>, Seq<char>)>::empty());
    } else {
        let m0 = m.drop_last();
        let (k, v) = m.last();
        assert(meta_canonical(m0)) by {
            assert(forall|i: int, j: int| 0 <= i < j < m0.len() ==> m0[i] == m[i] && m0[j] == m[j]);
            assert(forall|i: int| 0 <= i < m0.len() ==> m0[i] == m[i]);
        }
        lemma_meta_round_trip(m0);
        assert(enc_meta(m) =~= enc_meta(m0).push((k, JsonV::Str(v))));
        assert(forall|i: int| 0 <= i < m0.len() ==> (#[trigger] m0[i]).0 != k);
        lemma_meta_put_append(m0, k, v);
        assert(crate::metadata::meta_step(m0, (k, JsonV::Str(v))) == Ok::<MetaV, DecodeErrorV>(
            m0.push((k, v)),
        ));
        lemma_obj_fold_snoc_ok(meta_step_f(), Seq::empty(), enc_meta(m0), m0, (k, JsonV::Str(v)), m0.push((k, v)));
        assert(m0.push((k, v)) =~= m);
    }
}

/// Decoding the wire object of a data-center descriptor gives it back:
/// the vendor class tag written on encode is tolerated and dropped.
pub proof fn lemma_dci_round_trip(d: DataCenterInfoV)
    ensures
        dec_dci(enc_dci(d)) == Ok::<DataCenterInfoV, DecodeErrorV>(d),
{
    reveal_strlit("@class");
    reveal_strlit("name");
    reveal_strlit("metadata");
    assert("@class"@.len() == 6);
    assert("name"@.len() == 4);
    assert("metadata"@.len() == 8);
    lemma_dcname_round_trip(d.name);
    let ps = enc_dci(d)->Obj_0;
    let e0 = ("@class"@, JsonV::Str(dci_class_value()));
    let e1 = ("name"@, JsonV::Str(dcname_wire(d.name)));
    let b0 = dci_empty();
    let b1 = DciBuilderV { name: Some(d.name), ..b0 };
    lemma_obj_fold_snoc_ok(dci_step_f(), b0, Seq::empty(), b0, e0, b0);
    lemma_obj_fold_snoc_ok(dci_step_f(), b0, Seq::empty().push(e0), b0, e1, b1);
    match d.metadata {
        Some(amd) => {
            lemma_amd_round_trip(amd);
            let e2 = ("metadata"@, enc_amd(amd));
            assert(ps =~= Seq::empty().push(e0).push(e1).push(e2));
            let b2 = DciBuilderV { metadata: Some(amd), ..b1 };
            lemma_obj_fold_snoc_ok(dci_step_f(), b0, Seq::empty().push(e0).push(e1), b1, e2, b2);
            assert(obj_fold(dci_step_f(), b0, ps) == Ok::<DciBuilderV, DecodeErrorV>(b2));
        },
        None => {
            assert(ps =~= Seq::empty().push(e0).push(e1));
            assert(obj_fold(dci_step_f(), b0, ps) == Ok::<DciBuilderV, DecodeErrorV>(b1));
        },
    }
}

/// A canonical instance: one whose encoding loses nothing. A stored
/// lease must carry its duration (an absent one is replaced by the wire
/// default on encode), and metadata keys must be distinct and free of
/// the vendor class tag (decode strips the tag and collapses repeats).
pub open spec fn instance_canonical(x: InstanceV) -> bool {
    &&& (x.lease_info matches Some(l) ==> l.duration_in_secs is Some)
    &&& meta_canonical(x.metadata)
}

/// Round trip: decoding the wire object of a canonical instance gives
/// back exactly that instance.
#[verifier::rlimit(100)]
pub proof fn lemma_instance_round_trip(x: InstanceV)
    requires
        instance_canonical(x),
    ensures
        dec_instance(enc_instance(x)) == Ok::<InstanceV, DecodeErrorV>(x),
{
    reveal_strlit("hostName");
    reveal_strlit("app");
    reveal_strlit("ipAddr");
    reveal_strlit("vipAddress");
    reveal_strlit("secureVipAddress");
    reveal_strlit("status");
    reveal_strlit("port");
    reveal_strlit("securePort");
    reveal_strlit("homePageUrl");
    reveal_strlit("statusPageUrl");
    reveal_strlit("healthCheckUrl");
    reveal_strlit("dataCenterInfo");
    reveal_strlit("leaseInfo");
    reveal_strlit("metadata");
    reveal_strlit("overriddenstatus");
    reveal_strlit("countryId");
    reveal_strlit("lastUpdatedTimestamp");
    reveal_strlit("lastDirtyTimestamp");
    reveal_strlit("actionType");
    reveal_strlit("isCoordinatingDiscoveryServer");
    assert("hostName"@.len() == 8 && "hostName"@[0] == 'h');
    assert("app"@.len() == 3 && "app"@[0] == 'a');
    assert("ipAddr"@.len() == 6 && "ipAddr"@[0] == 'i');
    assert("vipAddress"@.len() == 10 && "vipAddress"@[0] == 'v');
    assert("secureVipAddress"@.len() == 16 && "secureVipAddress"@[0] == 's');
    assert("status"@.len() == 6 && "status"@[0] == 's');
    assert("port"@.len() == 4 && "port"@[0] == 'p');
    assert("securePort"@.len() == 10 && "securePort"@[0] == 's');
    assert("homePageUrl"@.len() == 11 && "homePageUrl"@[0] == 'h');
    assert("statusPageUrl"@.len() == 13 && "statusPageUrl"@[0] == 's');
    assert("healthCheckUrl"@.len() == 14 && "healthCheckUrl"@[0] == 'h');
    assert("dataCenterInfo"@.len() == 14 && "dataCenterInfo"@[0] == 'd');
    assert("leaseInfo"@.len() == 9 && "leaseInfo"@[0] == 'l');
    assert("metadata"@.len() == 8 && "metadata"@[0] == 'm');
    assert("overriddenstatus"@.len() == 16 && "overriddenstatus"@[0] == 'o');
    assert("countryId"@.len() == 9 && "countryId"@[0] == 'c');
    assert("lastUpdatedTimestamp"@.len() == 20 && "lastUpdatedTimestamp"@[0] == 'l');
    assert("lastDirtyTimestamp"@.len() == 18 && "lastDirtyTimestamp"@[0] == 'l');
    assert("actionType"@.len() == 10 && "actionType"@[0] == 'a');
    assert("isCoordinatingDiscoveryServer"@.len() == 29 && "isCoordinatingDiscoveryServer"@[0] == 'i');
    assert("vipAddress"@[0] == 'v' && "securePort"@[0] == 's' && "actionType"@[0] == 'a');
    lemma_status_round_trip(x.status);
    lemma_action_type_round_trip(x.action_type);
    lemma_dci_round_trip(x.data_center_info);
    lemma_meta_round_trip(x.metadata);
    let f = inst_step_f();
    let b0 = inst_empty();
    let seg1 = seq![
        ("hostName"@, JsonV::Str(x.host_name)),
        ("app"@, JsonV::Str(x.app)),
        ("ipAddr"@, JsonV::Str(x.ip_addr)),
        ("vipAddress"@, JsonV::Str(x.vip_address)),
        ("secureVipAddress"@, JsonV::Str(x.secure_vip_address)),
        ("status"@, JsonV::Str(status_wire(x.status))),
    ];
    let b1 = InstBuilderV { host_name: Some(x.host_name), ..b0 };
    let b2 = InstBuilderV { app: Some(x.app), ..b1 };
    let b3 = InstBuilderV { ip_addr: Some(x.ip_addr), ..b2 };
    let b4 = InstBuilderV { vip_address: Some(x.vip_address), ..b3 };
    let b5 = InstBuilderV { secure_vip_address: Some(x.secure_vip_address), ..b4 };
    let b6 = InstBuilderV { status: Some(x.status), ..b5 };
    lemma_obj_fold_snoc_ok(f, b0, Seq::empty(), b0, seg1[0], b1);
    lemma_obj_fold_snoc_ok(f, b0, Seq::empty().push(seg1[0]), b1, seg1[1], b2);
    lemma_obj_fold_snoc_ok(f, b0, Seq::empty().push(seg1[0]).push(seg1[1]), b2, seg1[2], b3);
    lemma_obj_fold_snoc_ok(f, b0, Seq::empty().push(seg1[0]).push(seg1[1]).push(seg1[2]), b3, seg1[3], b4);
    lemma_obj_fold_snoc_ok(f, b0, Seq::empty().push(seg1[0]).push(seg1[1]).push(seg1[2]).push(seg1[3]), b4, seg1[4], b5);
    lemma_obj_fold_snoc_ok(f, b0, Seq::empty().push(seg1[0]).push(seg1[1]).push(seg1[2]).push(seg1[3]).push(seg1[4]), b5, seg1[5], b6);
    assert(seg1 =~= Seq::empty().push(seg1[0]).push(seg1[1]).push(seg1[2]).push(seg1[3]).push(seg1[4]).push(seg1[5]));
    assert(obj_fold(f, b0, seg1) == Ok::<InstBuilderV, DecodeErrorV>(b6));

    let portseg = (match x.port {
        Some(p) => seq![("port"@, enc_port(p))],
        None => seq![],
    });
    let b7 = InstBuilderV { port: x.port, ..b6 };
    match x.port {
        Some(p) => {
            lemma_port_round_trip(p, "port"@);
            assert(portseg =~= Seq::empty().push(("port"@, enc_port(p))));
            lemma_obj_fold_snoc_ok(f, b6, Seq::empty(), b6, ("port"@, enc_port(p)), b7);
        },
        None => {
            assert(portseg =~= Seq::<(Seq<char>, JsonV)>::empty());
            assert(b7 == b6);
        },
    }
    assert(obj_fold(f, b6, portseg) == Ok::<InstBuilderV, DecodeErrorV>(b7));

    let sportseg = (match x.secure_port {
        Some(p) => seq![("securePort"@, enc_port(p))],
        None => seq![],
    });
    let b8 = InstBuilderV { secure_port: x.secure_port, ..b7 };
    match x.secure_port {
        Some(p) => {
            lemma_port_round_trip(p, "securePort"@);
            assert(sportseg =~= Seq::empty().push(("securePort"@, enc_port(p))));
            lemma_obj_fold_snoc_ok(f, b7, Seq::empty(), b7, ("securePort"@, enc_port(p)), b8);
        },
        None => {
            assert(sportseg =~= Seq::<(Seq<char>, JsonV)>::empty());
            assert(b8 == b7);
        },
    }
    assert(obj_fold(f, b7, sportseg) == Ok::<InstBuilderV, DecodeErrorV>(b8));

    let seg2 = seq![
        ("homePageUrl"@, JsonV::Str(x.homepage_url)),
        ("statusPageUrl"@, JsonV::Str(x.status_page_url)),
        ("healthCheckUrl"@, JsonV::Str(x.health_check_url)),
        ("dataCenterInfo"@, enc_dci(x.data_center_info)),
    ];
    let b9 = InstBuilderV { homepage_url: Some(x.homepage_url), ..b8 };
    let b10 = InstBuilderV { status_page_url: Some(x.status_page_url), ..b9 };
    let b11 = InstBuilderV { health_check_url: Some(x.health_check_url), ..b10 };
    let b12 = InstBuilderV { data_center_info: Some(x.data_center_info), ..b11 };
    lemma_obj_fold_snoc_ok(f, b8, Seq::empty(), b8, seg2[0], b9);
    lemma_obj_fold_snoc_ok(f, b8, Seq::empty().push(seg2[0]), b9, seg2[1], b10);
    lemma_obj_fold_snoc_ok(f, b8, Seq::empty().push(seg2[0]).push(seg2[1]), b10, seg2[2], b11);
    lemma_obj_fold_snoc_ok(f, b8, Seq::empty().push(seg2[0]).push(seg2[1]).push(seg2[2]), b11, seg2[3], b12);
    assert(seg2 =~= Seq::empty().push(seg2[0]).push(seg2[1]).push(seg2[2]).push(seg2[3]));
    assert(obj_fold(f, b8, seg2) == Ok::<InstBuilderV, DecodeErrorV>(b12));

    let leaseseg = (match x.lease_info {
        Some(l) => seq![("leaseInfo"@, enc_lease(l))],
        None => seq![],
    });
    let b13 = InstBuilderV { lease_info: x.lease_info, ..b12 };
    match x.lease_info {
        Some(l) => {
            lemma_lease_round_trip(l);
            assert(leaseseg =~= Seq::empty().push(("leaseInfo"@, enc_lease(l))));
            lemma_obj_fold_snoc_ok(f, b12, Seq::empty(), b12, ("leaseInfo"@, enc_lease(l)), b13);
        },
        None => {
            assert(leaseseg =~= Seq::<(Seq<char>, JsonV)>::empty());
            assert(b13 == b12);
        },
    }
    assert(obj_fold(f, b12, leaseseg) == Ok::<InstBuilderV, DecodeErrorV>(b13));

    let metaseg = (if x.metadata.len() > 0 {
        seq![("metadata"@, JsonV::Obj(enc_meta(x.metadata)))]
    } else {
        seq![]
    });
    let b14 = InstBuilderV {
        metadata: (if x.metadata.len() > 0 {
            Some(x.metadata)
        } else {
            None
        }),
        ..b13
    };
    if x.metadata.len() > 0 {
        assert(metaseg =~= Seq::empty().push(("metadata"@, JsonV::Obj(enc_meta(x.metadata)))));
        lemma_obj_fold_snoc_ok(
            f,
            b13,
            Seq::empty(),
            b13,
            ("metadata"@, JsonV::Obj(enc_meta(x.metadata))),
            b14,
        );
    } else {
        assert(metaseg =~= Seq::<(Seq<char>, JsonV)>::empty());
        assert(b14 == b13);
    }
    assert(obj_fold(f, b13, metaseg) == Ok::<InstBuilderV, DecodeErrorV>(b14));

    let seg3 = seq![("countryId"@, JsonV::Int(x.country_id as int))];
    let b15 = InstBuilderV { country_id: Some(x.country_id), ..b14 };
    lemma_obj_fold_snoc_ok(f, b14, Seq::empty(), b14, seg3[0], b15);
    assert(seg3 =~= Seq::empty().push(seg3[0]));
    assert(obj_fold(f, b14, seg3) == Ok::<InstBuilderV, DecodeErrorV>(b15));

    let ovseg = (match x.overriddenstatus {
        Some(st) => seq![("overriddenstatus"@, JsonV::Str(status_wire(st)))],
        None => seq![],
    });
    let b16 = InstBuilderV { overriddenstatus: x.overriddenstatus, ..b15 };
    match x.overriddenstatus {
        Some(st) => {
            lemma_status_round_trip(st);
            assert(ovseg =~= Seq::empty().push(("overriddenstatus"@, JsonV::Str(status_wire(st)))));
            lemma_obj_fold_snoc_ok(
                f,
                b15,
                Seq::empty(),
                b15,
                ("overriddenstatus"@, JsonV::Str(status_wire(st))),
                b16,
            );
        },
        None => {
            assert(ovseg =~= Seq::<(Seq<char>, JsonV)>::empty());
            assert(b16 == b15);
        },
    }
    assert(obj_fold(f, b15, ovseg) == Ok::<InstBuilderV, DecodeErrorV>(b16));

    let seg4 = seq![
        ("isCoordinatingDiscoveryServer"@, JsonV::Bool(x.is_coordinating_discovery_server)),
        ("lastUpdatedTimestamp"@, JsonV::Int(x.last_updated_timestamp as int)),
        ("lastDirtyTimestamp"@, JsonV::Int(x.last_dirty_timestamp as int)),
        ("actionType"@, JsonV::Str(action_type_wire(x.action_type))),
    ];
    let b17 = InstBuilderV { is_coordinating_discovery_server: Some(x.is_coordinating_discovery_server), ..b16 };
    let b18 = InstBuilderV { last_updated_timestamp: Some(x.last_updated_timestamp), ..b17 };
    let b19 = InstBuilderV { last_dirty_timestamp: Some(x.last_dirty_timestamp), ..b18 };
    let b20 = InstBuilderV { action_type: Some(x.action_type), ..b19 };
    lemma_obj_fold_snoc_ok(f, b16, Seq::empty(), b16, seg4[0], b17);
    lemma_obj_fold_snoc_ok(f, b16, Seq::empty().push(seg4[0]), b17, seg4[1], b18);
    lemma_obj_fold_snoc_ok(f, b16, Seq::empty().push(seg4[0]).push(seg4[1]), b18, seg4[2], b19);
    lemma_obj_fold_snoc_ok(f, b16, Seq::empty().push(seg4[0]).push(seg4[1]).push(seg4[2]), b19, seg4[3], b20);
    assert(seg4 =~= Seq::empty().push(seg4[0]).push(seg4[1]).push(seg4[2]).push(seg4[3]));
    assert(obj_fold(f, b16, seg4) == Ok::<InstBuilderV, DecodeErrorV>(b20));

    // compose the segments left to right
    let s1 = seg1 + portseg;
    lemma_obj_fold_append(f, b0, seg1, portseg);
    let s2 = s1 + sportseg;
    lemma_obj_fold_append(f, b0, s1, sportseg);
    let s3 = s2 + seg2;
    lemma_obj_fold_append(f, b0, s2, seg2);
    let s4 = s3 + leaseseg;
    lemma_obj_fold_append(f, b0, s3, leaseseg);
    let s5 = s4 + metaseg;
    lemma_obj_fold_append(f, b0, s4, metaseg);
    let s6 = s5 + seg3;
    lemma_obj_fold_append(f, b0, s5, seg3);
    let s7 = s6 + ovseg;
    lemma_obj_fold_append(f, b0, s6, ovseg);
    let s8 = s7 + seg4;
    lemma_obj_fold_append(f, b0, s7, seg4);
    assert(obj_fold(f, b0, s8) == Ok::<InstBuilderV, DecodeErrorV>(b20));
    assert(enc_instance(x)->Obj_0 == s8);
    let fin = inst_finish(b20);
    assert(fin is Ok);
    assert(fin->Ok_0 =~= x) by {
        if x.metadata.len() == 0 {
            assert(x.metadata =~= Seq::<(Seq<char>, Seq<char>)>::empty());
        }
    }
}


/// Decoding the wire object of an application group gives it back,
/// provided its instance is canonical.
pub proof fn lemma_application_round_trip(a: ApplicationV)
    requires
        instance_canonical(a.instance),
    ensures
        dec_application(enc_application(a)) == Ok::<ApplicationV, DecodeErrorV>(a),
{
    reveal_strlit("name");
    reveal_strlit("instance");
    assert("name"@.len() == 4);
    assert("instance"@.len() == 8);
    lemma_instance_round_trip(a.instance);
    let ps = enc_application(a)->Obj_0;
    let e0 = ("name"@, JsonV::Str(a.name));
    let e1 = ("instance"@, enc_instance(a.instance));
    assert(ps =~= Seq::empty().push(e0).push(e1));
    let b0 = app_empty();
    let b1 = AppBuilderV { name: Some(a.name), ..b0 };
    let b2 = AppBuilderV { instance: Some(a.instance), ..b1 };
    lemma_obj_fold_snoc_ok(app_step_f(), b0, Seq::empty(), b0, e0, b1);
    lemma_obj_fold_snoc_ok(app_step_f(), b0, Seq::empty().push(e0), b1, e1, b2);
}

/// Decoding the encoded elements of an application array gives them
/// back, provided every instance is canonical.
pub proof fn lemma_app_seq_round_trip(apps: Seq<ApplicationV>)
    requires
        forall|i: int| 0 <= i < apps.len() ==> instance_canonical((#[trigger] apps[i]).instance),
    ensures
        dec_app_seq(enc_app_seq(apps)) == Ok::<Seq<ApplicationV>, DecodeErrorV>(apps),
    decreases apps.len(),
{
    if apps.len() == 0 {
        assert(enc_app_seq(apps) =~= Seq::<JsonV>::empty());
        assert(apps =~= Seq::<ApplicationV>::empty());
    } else {
        let a0 = apps.drop_last();
        assert(forall|i: int| 0 <= i < a0.len() ==> a0[i] == apps[i]);
        lemma_app_seq_round_trip(a0);
        lemma_application_round_trip(apps.last());
        let es = enc_app_seq(apps);
        assert(es.drop_last() =~= enc_app_seq(a0));
        assert(es.last() == enc_application(apps.last()));
        assert(a0.push(apps.last()) =~= apps);
    }
}

/// An `Applications` whose encoding loses nothing: the registry omits
/// the application member for an empty list and then rejects the result
/// as missing, so the list must be non-empty, with canonical instances.
pub open spec fn applications_canonical(a: ApplicationsV) -> bool {
    &&& a.applications.len() >= 1
    &&& forall|i: int| 0 <= i < a.applications.len() ==> instance_canonical(
        (#[trigger] a.applications[i]).instance,
    )
}

/// Round trip for the collection: decoding the wire object of a
/// canonical collection gives it back, through either cardinality shape.
pub proof fn lemma_applications_round_trip(a: ApplicationsV)
    requires
        applications_canonical(a),
    ensures
        dec_applications(enc_applications(a)) == Ok::<ApplicationsV, DecodeErrorV>(a),
{
    reveal_strlit("versions__delta");
    reveal_strlit("apps__hashcode");
    reveal_strlit("application");
    assert("versions__delta"@.len() == 15);
    assert("apps__hashcode"@.len() == 14);
    assert("application"@.len() == 11);
    let ps = enc_applications(a)->Obj_0;
    let e0 = ("versions__delta"@, JsonV::Int(a.versions_delta as int));
    let e1 = ("apps__hashcode"@, JsonV::Str(a.apps_hashcode));
    let b0 = apps_empty();
    let b1 = AppsBuilderV { versions_delta: Some(a.versions_delta), ..b0 };
    let b2 = AppsBuilderV { apps_hashcode: Some(a.apps_hashcode), ..b1 };
    let b3 = AppsBuilderV { applications: Some(a.applications), ..b2 };
    lemma_obj_fold_snoc_ok(apps_step_f(), b0, Seq::empty(), b0, e0, b1);
    lemma_obj_fold_snoc_ok(apps_step_f(), b0, Seq::empty().push(e0), b1, e1, b2);
    if a.applications.len() == 1 {
        let e2 = ("application"@, enc_application(a.applications[0]));
        assert(instance_canonical(a.applications[0].instance));
        lemma_application_round_trip(a.applications[0]);
        assert(dec_app_field(e2.1) == Ok::<Seq<ApplicationV>, DecodeErrorV>(
            seq![a.applications[0]],
        ));
        assert(seq![a.applications[0]] =~= a.applications);
        lemma_obj_fold_snoc_ok(apps_step_f(), b0, Seq::empty().push(e0).push(e1), b2, e2, b3);
        assert(ps =~= Seq::empty().push(e0).push(e1).push(e2));
    } else {
        let e2 = ("application"@, JsonV::Arr(enc_app_seq(a.applications)));
        lemma_app_seq_round_trip(a.applications);
        lemma_obj_fold_snoc_ok(apps_step_f(), b0, Seq::empty().push(e0).push(e1), b2, e2, b3);
        assert(ps =~= Seq::empty().push(e0).push(e1).push(e2));
    }
    assert(obj_fold(apps_step_f(), b0, ps) == Ok::<AppsBuilderV, DecodeErrorV>(b3));
}

/// Round trip for the registration request.
pub proof fn lemma_register_round_trip(r: RegisterRequestV)
    requires
        instance_canonical(r.instance),
    ensures
        dec_register(enc_register(r)) == Ok::<RegisterRequestV, DecodeErrorV>(r),
{
    reveal_strlit("instance");
    assert("instance"@.len() == 8);
    lemma_instance_round_trip(r.instance);
    let e0 = ("instance"@, enc_instance(r.instance));
    assert(enc_register(r)->Obj_0 =~= Seq::empty().push(e0));
    lemma_obj_fold_snoc_ok(
        register_step_f(),
        None,
        Seq::empty(),
        None,
        e0,
        Some(r.instance),
    );
}

/// A key is one of the instance's recognized wire names.
pub open spec fn inst_key_recognized(k: Seq<char>) -> bool {
    ||| k == "hostName"@
    ||| k == "app"@
    ||| k == "ipAddr"@
    ||| k == "vipAddress"@
    ||| k == "secureVipAddress"@
    ||| k == "status"@
    ||| k == "port"@
    ||| k == "securePort"@
    ||| k == "homePageUrl"@
    ||| k == "statusPageUrl"@
    ||| k == "healthCheckUrl"@
    ||| k == "dataCenterInfo"@
    ||| k == "leaseInfo"@
    ||| k == "metadata"@
    ||| k == "overriddenstatus"@
    ||| k == "countryId"@
    ||| k == "lastUpdatedTimestamp"@
    ||| k == "lastDirtyTimestamp"@
    ||| k == "actionType"@
    ||| k == "isCoordinatingDiscoveryServer"@
}

/// Whether the builder already holds a value for the recognized key.
pub open spec fn inst_slot_set(b: InstBuilderV, k: Seq<char>) -> bool {
    if k == "hostName"@ {
        b.host_name is Some
    } else if k == "app"@ {
        b.app is Some
    } else if k == "ipAddr"@ {
        b.ip_addr is Some
    } else if k == "vipAddress"@ {
        b.vip_address is Some
    } else if k == "secureVipAddress"@ {
        b.secure_vip_address is Some
    } else if k == "status"@ {
        b.status is Some
    } else if k == "port"@ {
        b.port is Some
    } else if k == "securePort"@ {
        b.secure_port is Some
    } else if k == "homePageUrl"@ {
        b.homepage_url is Some
    } else if k == "statusPageUrl"@ {
        b.status_page_url is Some
    } else if k == "healthCheckUrl"@ {
        b.health_check_url is Some
    } else if k == "dataCenterInfo"@ {
        b.data_center_info is Some
    } else if k == "leaseInfo"@ {
        b.lease_info is Some
    } else if k == "metadata"@ {
        b.metadata is Some
    } else if k == "overriddenstatus"@ {
        b.overriddenstatus is Some
    } else if k == "countryId"@ {
        b.country_id is Some
    } else if k == "lastUpdatedTimestamp"@ {
        b.last_updated_timestamp is Some
    } else if k == "lastDirtyTimestamp"@ {
        b.last_dirty_timestamp is Some
    } else if k == "actionType"@ {
        b.action_type is Some
    } else if k == "isCoordinatingDiscoveryServer"@ {
        b.is_coordinating_discovery_server is Some
    } else {
        true
    }
}

/// One accepted member sets its own slot and clears none.
proof fn lemma_inst_step_slots(b: InstBuilderV, p: (Seq<char>, JsonV), b2: InstBuilderV, k: Seq<char>)
    requires
        inst_step(b, p) == Ok::<InstBuilderV, DecodeErrorV>(b2),
    ensures
        inst_slot_set(b, k) ==> inst_slot_set(b2, k),
        p.0 == k ==> inst_slot_set(b2, k),
{
}

/// After a successful fold, every recognized key that appeared has its
/// slot set.
proof fn lemma_inst_fold_seen(s: Seq<(Seq<char>, JsonV)>, b: InstBuilderV, j: int)
    requires
        obj_fold(inst_step_f(), inst_empty(), s) == Ok::<InstBuilderV, DecodeErrorV>(b),
        0 <= j < s.len(),
    ensures
        inst_slot_set(b, s[j].0),
    decreases s.len(),
{
    let s0 = s.drop_last();
    lemma_obj_fold_push(inst_step_f(), inst_empty(), s0, s.last());
    assert(s0.push(s.last()) =~= s);
    let b1 = obj_fold(inst_step_f(), inst_empty(), s0)->Ok_0;
    if j == s.len() - 1 {
        lemma_inst_step_slots(b1, s.last(), b, s[j].0);
    } else {
        assert(s0[j] == s[j]);
        lemma_inst_fold_seen(s0, b1, j);
        lemma_inst_step_slots(b1, s.last(), b, s[j].0);
    }
}

/// After a successful fold, a key that never appeared has its slot
/// still empty.
proof fn lemma_inst_fold_unseen(s: Seq<(Seq<char>, JsonV)>, b: InstBuilderV, k: Seq<char>)
    requires
        obj_fold(inst_step_f(), inst_empty(), s) == Ok::<InstBuilderV, DecodeErrorV>(b),
        forall|j: int| 0 <= j < s.len() ==> (#[trigger] s[j]).0 != k,
    ensures
        !inst_slot_set(b, k) || !inst_key_recognized(k),
    decreases s.len(),
{
    if s.len() == 0 {
        assert(b == inst_empty());
    } else {
        let s0 = s.drop_last();
        lemma_obj_fold_push(inst_step_f(), inst_empty(), s0, s.last());
        assert(s0.push(s.last()) =~= s);
        let b1 = obj_fold(inst_step_f(), inst_empty(), s0)->Ok_0;
        assert(forall|j: int| 0 <= j < s0.len() ==> (#[trigger] s0[j]) == s[j]);
        lemma_inst_fold_unseen(s0, b1, k);
        assert(s.last().0 != k);
    }
}

/// Unknown-field rejection: once the members before position `i` have
/// been accepted, an unrecognized key there fails the whole decode with
/// exactly that unknown field.
pub proof fn lemma_unknown_field_rejected(ps: Seq<(Seq<char>, JsonV)>, i: int)
    requires
        0 <= i < ps.len(),
        obj_fold(inst_step_f(), inst_empty(), ps.take(i)) is Ok,
        !inst_key_recognized(ps[i].0),
    ensures
        dec_instance(JsonV::Obj(ps)) == Err::<InstanceV, DecodeErrorV>(
            DecodeErrorV::UnknownField(ps[i].0),
        ),
{
    let b = obj_fold(inst_step_f(), inst_empty(), ps.take(i))->Ok_0;
    assert(inst_step(b, ps[i]) == Err::<InstBuilderV, DecodeErrorV>(
        DecodeErrorV::UnknownField(ps[i].0),
    ));
    lemma_obj_fold_stops(
        inst_step_f(),
        inst_empty(),
        ps,
        i,
        b,
        DecodeErrorV::UnknownField(ps[i].0),
    );
}

/// A decode that succeeds consumed recognized keys only.
pub proof fn lemma_decode_only_recognized(ps: Seq<(Seq<char>, JsonV)>, x: InstanceV)
    requires
        dec_instance(JsonV::Obj(ps)) == Ok::<InstanceV, DecodeErrorV>(x),
    ensures
        forall|j: int| 0 <= j < ps.len() ==> inst_key_recognized((#[trigger] ps[j]).0),
    decreases ps.len(),
{
    assert forall|j: int| 0 <= j < ps.len() implies inst_key_recognized((#[trigger] ps[j]).0) by {
        if !inst_key_recognized(ps[j].0) {
            let pre = obj_fold(inst_step_f(), inst_empty(), ps.take(j));
            if pre is Ok {
                lemma_unknown_field_rejected(ps, j);
            } else {
                let e = pre->Err_0;
                lemma_obj_fold_prefix_err(inst_step_f(), inst_empty(), ps, j, e);
            }
        }
    }
}

/// Duplicate-field rejection: a recognized key that repeats, after every
/// earlier member was accepted, fails the whole decode with exactly that
/// duplicate field.
pub proof fn lemma_duplicate_field_rejected(ps: Seq<(Seq<char>, JsonV)>, i: int, j: int)
    requires
        0 <= j < i < ps.len(),
        obj_fold(inst_step_f(), inst_empty(), ps.take(i)) is Ok,
        ps[j].0 == ps[i].0,
        inst_key_recognized(ps[i].0),
    ensures
        dec_instance(JsonV::Obj(ps)) == Err::<InstanceV, DecodeErrorV>(
            DecodeErrorV::DuplicateField(ps[i].0),
        ),
{
    let b = obj_fold(inst_step_f(), inst_empty(), ps.take(i))->Ok_0;
    assert(ps.take(i)[j] == ps[j]);
    lemma_inst_fold_seen(ps.take(i), b, j);
    assert(inst_step(b, ps[i]) == Err::<InstBuilderV, DecodeErrorV>(
        DecodeErrorV::DuplicateField(ps[i].0),
    ));
    lemma_obj_fold_stops(
        inst_step_f(),
        inst_empty(),
        ps,
        i,
        b,
        DecodeErrorV::DuplicateField(ps[i].0),
    );
}

/// Missing-required-field rejection: when every member is accepted but
/// the host name never appears, the decode fails with exactly that
/// missing field.
pub proof fn lemma_missing_host_name_rejected(ps: Seq<(Seq<char>, JsonV)>)
    requires
        obj_fold(inst_step_f(), inst_empty(), ps) is Ok,
        forall|j: int| 0 <= j < ps.len() ==> (#[trigger] ps[j]).0 != "hostName"@,
    ensures
        dec_instance(JsonV::Obj(ps)) == Err::<InstanceV, DecodeErrorV>(
            DecodeErrorV::MissingField("hostName"@),
        ),
{
    let b = obj_fold(inst_step_f(), inst_empty(), ps)->Ok_0;
    lemma_inst_fold_unseen(ps, b, "hostName"@);
}

/// Omitting an optional field succeeds with that field absent: a decode
/// that never saw a port leaves the instance's port empty.
pub proof fn lemma_missing_port_stays_absent(ps: Seq<(Seq<char>, JsonV)>, x: InstanceV)
    requires
        dec_instance(JsonV::Obj(ps)) == Ok::<InstanceV, DecodeErrorV>(x),
        forall|j: int| 0 <= j < ps.len() ==> (#[trigger] ps[j]).0 != "port"@,
    ensures
        x.port is None,
{
    let b = obj_fold(inst_step_f(), inst_empty(), ps)->Ok_0;
    lemma_inst_fold_unseen(ps, b, "port"@);
}

/// Cardinality normalization: a bare application object and the
/// one-element array holding it decode to the same one-element list.
pub proof fn lemma_cardinality_normalization(o: JsonV)
    requires
        o is Obj,
    ensures
        dec_app_field(JsonV::Arr(seq![o])) == dec_app_field(o),
{
    let vs = seq![o];
    assert(vs.drop_last() =~= Seq::<JsonV>::empty());
    assert(vs.last() == o);
    assert(dec_app_seq(Seq::<JsonV>::empty()) == Ok::<Seq<ApplicationV>, DecodeErrorV>(
        Seq::empty(),
    ));
    match dec_application(o) {
        Ok(a) => {
            assert(Seq::<ApplicationV>::empty().push(a) =~= seq![a]);
            assert(dec_app_seq(vs) == Ok::<Seq<ApplicationV>, DecodeErrorV>(seq![a]));
        },
        Err(e) => {
            assert(dec_app_seq(vs) == Err::<Seq<ApplicationV>, DecodeErrorV>(e));
        },
    }
}

/// Encode cardinality: exactly one application is written as a bare
/// object, two or more as an array, and an empty list writes no
/// application member at all.
pub proof fn lemma_encode_cardinality(apps: Seq<ApplicationV>)
    ensures
        apps.len() == 1 ==> enc_app_field(apps) == seq![
            ("application"@, enc_application(apps[0])),
        ],
        apps.len() > 1 ==> enc_app_field(apps) == seq![
            ("application"@, JsonV::Arr(enc_app_seq(apps))),
        ],
        apps.len() == 0 ==> enc_app_field(apps) == Seq::<(Seq<char>, JsonV)>::empty(),
{
    if apps.len() == 0 {
        assert(enc_app_field(apps) =~= Seq::<(Seq<char>, JsonV)>::empty());
    }
}

/// Default injection: encoding a lease without a stored duration emits
/// the wire default of 90 seconds under the duration key.
pub proof fn lemma_lease_default_injected(l: LeaseInfo)
    requires
        l.duration_in_secs is None,
    ensures
        enc_lease(l)->Obj_0[1] == ("durationInSecs"@, JsonV::Int(90)),
{
}

/// Status fallback: any wire string that is not one of the four known
/// status literals decodes to `Unknown` rather than failing.
pub proof fn lemma_status_fallback(s: Seq<char>)
    requires
        s != "UP"@,
        s != "DOWN"@,
        s != "STARTING"@,
        s != "OUT_OF_SERVICE"@,
    ensures
        status_of(s) == Status::Unknown,
{
}

/// Action-type strictness: any wire string that is not one of the three
/// known action literals is rejected rather than defaulted.
pub proof fn lemma_action_type_strict(s: Seq<char>)
    requires
        s != "ADDED"@,
        s != "DELETED"@,
        s != "MODIFIED"@,
    ensures
        action_type_of(s) is None,
{
}

/// Storing a key other than the vendor class tag never introduces it.
proof fn lemma_meta_put_no_class(m: MetaV, k: Seq<char>, v: Seq<char>)
    requires
        k != "@class"@,
        forall|i: int| 0 <= i < m.len() ==> (#[trigger] m[i]).0 != "@class"@,
    ensures
        forall|i: int| 0 <= i < meta_put(m, k, v).len() ==> (#[trigger] meta_put(m, k, v)[i]).0
            != "@class"@,
    decreases m.len(),
{
    let r = meta_put(m, k, v);
    if m.len() == 0 {
        assert(r =~= seq![(k, v)]);
    } else if m[0].0 == k {
        assert forall|i: int| 0 <= i < r.len() implies (#[trigger] r[i]).0 != "@class"@ by {
            if i > 0 {
                assert(r[i] == m.drop_first()[i - 1]);
                assert(m.drop_first()[i - 1] == m[i]);
            }
        }
    } else {
        assert(forall|i: int| 0 <= i < m.drop_first().len() ==> (#[trigger] m.drop_first()[i])
            == m[i + 1]);
        lemma_meta_put_no_class(m.drop_first(), k, v);
        let r2 = meta_put(m.drop_first(), k, v);
        assert forall|i: int| 0 <= i < r.len() implies (#[trigger] r[i]).0 != "@class"@ by {
            if i > 0 {
                assert(r[i] == r2[i - 1]);
            }
        }
    }
}

/// Vendor-key stripping: the class tag never survives a metadata fold.
proof fn lemma_meta_fold_no_class(s: Seq<(Seq<char>, JsonV)>, m: MetaV)
    requires
        obj_fold(meta_step_f(), Seq::empty(), s) == Ok::<MetaV, DecodeErrorV>(m),
    ensures
        forall|i: int| 0 <= i < m.len() ==> (#[trigger] m[i]).0 != "@class"@,
    decreases s.len(),
{
    if s.len() == 0 {
        assert(m =~= Seq::<(Seq<char>, Seq<char>)>::empty());
    } else {
        let s0 = s.drop_last();
        lemma_obj_fold_push(meta_step_f(), Seq::empty(), s0, s.last());
        assert(s0.push(s.last()) =~= s);
        let m1 = obj_fold(meta_step_f(), Seq::empty(), s0)->Ok_0;
        lemma_meta_fold_no_class(s0, m1);
        let (k, v) = s.last();
        if k != "@class"@ {
            match crate::codec::str_of(v, k) {
                Ok(sv) => {
                    lemma_meta_put_no_class(m1, k, sv);
                },
                Err(_) => {},
            }
        }
    }
}

/// Vendor-key stripping: a decoded metadata mapping never holds the
/// class tag, and a map holding only class tags decodes to a zero-length
/// mapping.
pub proof fn lemma_metadata_class_stripped(ps: Seq<(Seq<char>, JsonV)>, m: MetaV)
    requires
        dec_meta(JsonV::Obj(ps)) == Ok::<MetaV, DecodeErrorV>(m),
    ensures
        forall|i: int| 0 <= i < m.len() ==> (#[trigger] m[i]).0 != "@class"@,
        (forall|j: int| 0 <= j < ps.len() ==> (#[trigger] ps[j]).0 == "@class"@) ==> m.len() == 0,
    decreases ps.len(),
{
    lemma_meta_fold_no_class(ps, m);
    if forall|j: int| 0 <= j < ps.len() ==> (#[trigger] ps[j]).0 == "@class"@ {
        lemma_meta_all_class_empty(ps);
    }
}

/// A map holding only class tags folds to the empty mapping, if it
/// folds at all.
proof fn lemma_meta_all_class_empty(ps: Seq<(Seq<char>, JsonV)>)
    requires
        forall|j: int| 0 <= j < ps.len() ==> (#[trigger] ps[j]).0 == "@class"@,
    ensures
        (match obj_fold(meta_step_f(), Seq::empty(), ps) {
            Ok(m) => m.len() == 0,
            Err(_) => true,
        }),
    decreases ps.len(),
{
    if ps.len() > 0 {
        let s0 = ps.drop_last();
        assert(forall|j: int| 0 <= j < s0.len() ==> (#[trigger] s0[j]) == ps[j]);
        lemma_meta_all_class_empty(s0);
        lemma_obj_fold_push(meta_step_f(), Seq::empty(), s0, ps.last());
        assert(s0.push(ps.last()) =~= ps);
    }
}

} // verus!
