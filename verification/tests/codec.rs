// The wire-format codec on whole entities: exact encoded text, decoding
// of both registry fixtures, and the validation rules end to end.

use rust_eureka::{
    ActionType, AmazonMetaData, Application, ApplicationResponse, Applications,
    ApplicationsResponse, DataCenterInfo, DcName, DecodeError, Instance, LeaseInfo,
    RegisterRequest, Status,
};
use rust_eureka::wire::{
    decode_amazon_meta_data, decode_application, decode_application_response,
    decode_applications, decode_applications_response, decode_data_center_info,
    decode_instance, decode_lease_info, decode_register_request, encode_amazon_meta_data,
    encode_application, encode_application_response, encode_applications,
    encode_applications_response, encode_data_center_info, encode_instance, encode_lease_info,
    encode_register_request,
};

pub fn sample_meta_data() -> String {
    r#"{ "ami-launch-index": "001a",
        "local-hostname": "localhost0",
        "availability-zone": "US_East1a",
        "instance-id": "instance1a",
        "public-ipv4": "32.23.21.212",
        "public-hostname": "foo.coma",
        "ami-manifest-path": "/dev/nulla",
        "local-ipv4": "127.0.0.12",
        "hostname": "privatefoo.coma",
        "ami-id": "ami0023",
        "instance-type": "c4xlarged" }"#
        .to_string()
        .replace(" ", "")
        .replace("\n", "")
}

fn build_meta_data() -> AmazonMetaData {
    AmazonMetaData {
        ami_launch_index: "001a".to_string(),
        local_hostname: "localhost0".to_string(),
        availability_zone: "US_East1a".to_string(),
        instance_id: "instance1a".to_string(),
        public_ipv4: "32.23.21.212".to_string(),
        public_hostname: "foo.coma".to_string(),
        ami_manifest_path: "/dev/nulla".to_string(),
        local_ipv4: "127.0.0.12".to_string(),
        hostname: "privatefoo.coma".to_string(),
        ami_id: "ami0023".to_string(),
        instance_type: "c4xlarged".to_string(),
    }
}

#[test]
fn amazonmetadata_test_serialize_amazon_meta_data() {
    let md = build_meta_data();
    let json = sample_meta_data();
    let result = encode_amazon_meta_data(&md);
    assert_eq!(json, result);
}

#[test]
fn amazonmetadata_test_deserialize_amazon_meta_data() {
    let md = build_meta_data();
    let json = sample_meta_data();
    let result = decode_amazon_meta_data(&json).unwrap();
    assert_eq!(md, result);
}

#[test]
fn model_test_serialize_amazon_meta_data() {
    let md = build_meta_data();
    let json = sample_meta_data();
    let result = encode_amazon_meta_data(&md);
    assert_eq!(json, result);
}

fn sample_data_center() -> String {
    format!(
        "{{\"@class\":\"com.netflix.appinfo.InstanceInfo$DefaultDataCenterInfo\",\"name\":\"Amazon\",\"metadata\":{}}}",
        sample_meta_data()
    )
}

#[test]
fn datacenterinfo_test_serialize_data_center_info() {
    let dci = DataCenterInfo { name: DcName::Amazon, metadata: Some(build_meta_data()) };
    let json = sample_data_center();
    let result = encode_data_center_info(&dci);
    assert_eq!(json, result);
}

#[test]
fn datacenterinfo_test_deserialize_data_center_info() {
    let dci = DataCenterInfo { name: DcName::Amazon, metadata: Some(build_meta_data()) };
    let json = sample_data_center();
    let result = decode_data_center_info(&json).unwrap();
    assert_eq!(dci, result);
}

fn build_lease_info_json() -> String {
    r#"{
        "renewalIntervalInSecs": 30,
        "durationInSecs": 90,
        "registrationTimestamp": 1503442035871,
        "lastRenewalTimestamp": 1503442035871,
        "evictionTimestamp": 0,
        "serviceUpTimestamp": 1503442035721
    }"#
    .to_string()
    .replace(" ", "")
    .replace("\n", "")
}

fn build_lease_info() -> LeaseInfo {
    LeaseInfo {
        renewal_interval_in_secs: 30,
        duration_in_secs: Some(90),
        registration_timestamp: 1503442035871,
        last_renewal_timestamp: 1503442035871,
        eviction_timestamp: 0,
        service_up_timestamp: 1503442035721,
    }
}

#[test]
fn test_serialize() {
    let li = build_lease_info();
    let json = build_lease_info_json();
    let result = encode_lease_info(&li);
    assert_eq!(json, result);
}

#[test]
fn test_deserialize() {
    let li = build_lease_info();
    let json = build_lease_info_json();
    let result = decode_lease_info(&json).unwrap();
    assert_eq!(li, result);
}

#[test]
fn test_lease_default_injected() {
    // encoding an absent duration writes the wire default of 90
    let li = LeaseInfo { duration_in_secs: None, ..build_lease_info() };
    let json = encode_lease_info(&li);
    assert!(json.contains("\"durationInSecs\":90"));
    assert_eq!(build_lease_info_json(), json);
}

pub fn build_test_instance_json() -> String {
    r#"{
       "hostName": "Foo",
       "app": "Bar",
       "ipAddr": "3.128.2.12",
       "vipAddress": "127.0.0.1",
       "secureVipAddress": "127.0.0.2",
       "status": "UP",
       "port": { "$": "80", "@enabled": "true" },
       "securePort": { "$": "443", "@enabled": "true" },
       "homePageUrl": "http://google.com",
       "statusPageUrl": "http://nytimes.com",
       "healthCheckUrl": "http://washingtonpost.com",
       "dataCenterInfo": { "@class": "com.netflix.appinfo.InstanceInfo$DefaultDataCenterInfo", "name":"Amazon","metadata":
       {
            "ami-launch-index": "001a",
            "local-hostname": "localhost0",
            "availability-zone": "US_East1a",
            "instance-id": "instance1a",
            "public-ipv4": "32.23.21.212",
            "public-hostname": "foo.coma",
            "ami-manifest-path": "/dev/nulla",
            "local-ipv4": "127.0.0.12",
            "hostname": "privatefoo.coma",
            "ami-id": "ami0023",
            "instance-type": "c4xlarged"
       }},
        "leaseInfo": {
        "renewalIntervalInSecs": 30,
        "durationInSecs": 90,
        "registrationTimestamp": 1503442035871,
        "lastRenewalTimestamp": 1503442035871,
        "evictionTimestamp": 0,
        "serviceUpTimestamp": 1503442035721
        },
        "metadata": {"something": "somethingelse"},
        "countryId": 1,
        "overriddenstatus": "UNKNOWN",
        "isCoordinatingDiscoveryServer": false,
        "lastUpdatedTimestamp": 1503442035871,
        "lastDirtyTimestamp": 1503442035714,
        "actionType": "ADDED"
    }"#
    .to_string()
    .replace(" ", "")
    .replace("\n", "")
}

pub fn build_test_instance() -> Instance {
    let metadata = vec![("something".to_owned(), "somethingelse".to_owned())];
    Instance {
        host_name: "Foo".to_string(),
        app: "Bar".to_string(),
        ip_addr: "3.128.2.12".to_string(),
        vip_address: "127.0.0.1".to_string(),
        secure_vip_address: "127.0.0.2".to_string(),
        status: Status::Up,
        port: Some(80),
        secure_port: Some(443),
        homepage_url: "http://google.com".to_string(),
        status_page_url: "http://nytimes.com".to_string(),
        health_check_url: "http://washingtonpost.com".to_string(),
        data_center_info: DataCenterInfo {
            name: DcName::Amazon,
            metadata: Some(build_meta_data()),
        },
        lease_info: Some(build_lease_info()),
        metadata,
        overriddenstatus: Some(Status::Unknown),
        country_id: 1,
        last_dirty_timestamp: 1503442035714,
        last_updated_timestamp: 1503442035871,
        action_type: ActionType::Added,
        is_coordinating_discovery_server: false,
    }
}

#[test]
fn instance_test_instance_serialization() {
    let json = build_test_instance_json();
    let instance = build_test_instance();
    let result = encode_instance(&instance);
    assert_eq!(json, result);
}

#[test]
fn instance_test_instance_deserialization() {
    let json = build_test_instance_json();
    let instance = build_test_instance();
    let result = decode_instance(&json).unwrap();
    assert_eq!(instance, result);
}

#[test]
fn test_round_trip() {
    // the canonical sample comes back identical through encode then decode
    let instance = build_test_instance();
    let result = decode_instance(&encode_instance(&instance)).unwrap();
    assert_eq!(instance, result);
}

#[test]
fn test_empty_map() {
    let json = build_test_instance_json().replace(
        "{\"something\":\"somethingelse\"}",
        "{\"@class\":\"java.util.Collections$EmptyMap\"}",
    );
    let instance = decode_instance(&json).unwrap();
    assert_eq!(0, instance.metadata.len());
}

#[test]
fn test_unknown_field_rejected() {
    let json = build_test_instance_json().replace("\"app\":\"Bar\"", "\"app\":\"Bar\",\"bogus\":1");
    let err = decode_instance(&json).unwrap_err();
    assert_eq!(DecodeError::UnknownField("bogus".to_string()), err);
}

#[test]
fn test_duplicate_field_rejected() {
    let json = build_test_instance_json().replace(
        "\"app\":\"Bar\"",
        "\"app\":\"Bar\",\"app\":\"Baz\"",
    );
    let err = decode_instance(&json).unwrap_err();
    assert_eq!(DecodeError::DuplicateField("app".to_string()), err);
}

#[test]
fn test_missing_required_field_rejected() {
    let json = build_test_instance_json().replace("\"hostName\":\"Foo\",", "");
    let err = decode_instance(&json).unwrap_err();
    assert_eq!(DecodeError::MissingField("hostName".to_string()), err);
}

#[test]
fn test_missing_optional_field_accepted() {
    let json = build_test_instance_json().replace(
        "\"port\":{\"$\":\"80\",\"@enabled\":\"true\"},",
        "",
    );
    let instance = decode_instance(&json).unwrap();
    assert_eq!(None, instance.port);
    assert_eq!(Some(443), instance.secure_port);
}

#[test]
fn test_port_numeric_literal_accepted() {
    // the other observed registry convention writes the value as a number
    let json = build_test_instance_json().replace(
        "\"port\":{\"$\":\"80\",\"@enabled\":\"true\"}",
        "\"port\":{\"$\":80,\"@enabled\":true}",
    );
    let instance = decode_instance(&json).unwrap();
    assert_eq!(Some(80), instance.port);
}

#[test]
fn test_status_garbage_falls_back() {
    let json = build_test_instance_json().replace("\"status\":\"UP\"", "\"status\":\"GARBAGE\"");
    let instance = decode_instance(&json).unwrap();
    assert_eq!(Status::Unknown, instance.status);
}

#[test]
fn test_action_type_garbage_fails() {
    let json = build_test_instance_json().replace(
        "\"actionType\":\"ADDED\"",
        "\"actionType\":\"GARBAGE\"",
    );
    let err = decode_instance(&json).unwrap_err();
    assert_eq!(DecodeError::TypeMismatch("actionType".to_string()), err);
}

#[test]
fn test_status_type_mismatch() {
    let json = build_test_instance_json().replace("\"status\":\"UP\"", "\"status\":5");
    let err = decode_instance(&json).unwrap_err();
    assert_eq!(DecodeError::TypeMismatch("status".to_string()), err);
}

fn build_register_json() -> String {
    format!("{{\"instance\":{}}}", build_test_instance_json())
}

#[test]
fn register_test_instance_serialization() {
    let json = build_register_json();
    let instance = build_test_instance();
    let rr = RegisterRequest::new(instance);
    let result = encode_register_request(&rr);
    assert_eq!(json, result);
}

#[test]
fn register_test_instance_deserialization() {
    let json = build_register_json();
    let instance = build_test_instance();
    let rr = RegisterRequest::new(instance);
    let result = decode_register_request(&json).unwrap();
    assert_eq!(rr, result);
}

#[test]
fn application_test_instance_serialization() {
    let json = format!("{{\"name\":\"test_name\",\"instance\":{}}}", build_test_instance_json());
    let app = Application { name: "test_name".to_owned(), instance: build_test_instance() };
    let result = encode_application(&app);
    assert_eq!(json, result);
}

#[test]
fn application_test_instance_deserialization() {
    let json = format!("{{\"name\":\"test_name\",\"instance\":{}}}", build_test_instance_json());
    let app = Application { name: "test_name".to_owned(), instance: build_test_instance() };
    let result = decode_application(&json).unwrap();
    assert_eq!(app, result);
}

#[test]
fn test_application_response_serialization() {
    let json = format!(
        "{{\"application\":{{\"name\":\"test_app\",\"instance\":{}}}}}",
        build_test_instance_json()
    );
    let application = Application { name: "test_app".to_owned(), instance: build_test_instance() };
    let ar = ApplicationResponse::new(application);
    let result = encode_application_response(&ar);
    assert_eq!(json, result);
}

#[test]
fn test_application_response_deserialization() {
    let json = format!(
        "{{\"application\":{{\"name\":\"test_app\",\"instance\":{}}}}}",
        build_test_instance_json()
    );
    let application = Application { name: "test_app".to_owned(), instance: build_test_instance() };
    let ar = ApplicationResponse::new(application);
    let result = decode_application_response(&json).unwrap();
    assert_eq!(ar, result);
}

pub fn build_test_applications() -> Applications {
    Applications {
        versions_delta: 1,
        apps_hashcode: "UP_1_".to_string(),
        applications: vec![Application {
            name: "INTEGRATION_TEST".to_string(),
            instance: Instance {
                host_name: "localhost".to_string(),
                app: "INTEGRATION_TEST".to_string(),
                ip_addr: "127.0.0.1".to_string(),
                status: Status::Up,
                overriddenstatus: Some(Status::Unknown),
                port: Some(7001),
                secure_port: Some(7002),
                country_id: 1,
                data_center_info: DataCenterInfo { name: DcName::MyOwn, metadata: None },
                lease_info: Some(LeaseInfo {
                    renewal_interval_in_secs: 30,
                    duration_in_secs: Some(90),
                    registration_timestamp: 1503701416749,
                    last_renewal_timestamp: 1503701416749,
                    eviction_timestamp: 0,
                    service_up_timestamp: 1503701416464,
                }),
                metadata: vec![],
                homepage_url: "http://google.com".to_string(),
                status_page_url: "http://google.com".to_string(),
                health_check_url: "http://google.com".to_string(),
                vip_address: "127.0.0.1".to_string(),
                secure_vip_address: "127.0.0.1".to_string(),
                is_coordinating_discovery_server: false,
                last_updated_timestamp: 1503701416750,
                last_dirty_timestamp: 1503701416457,
                action_type: ActionType::Added,
            },
        }],
    }
}

pub fn build_test_applications_json() -> String {
    r#"
    {
    "versions__delta": 1,
    "apps__hashcode": "UP_1_",
    "application": {
        "name": "INTEGRATION_TEST",
        "instance": {
            "hostName": "localhost",
            "app": "INTEGRATION_TEST",
            "ipAddr": "127.0.0.1",
            "status": "UP",
            "overriddenstatus": "UNKNOWN",
            "port": {
                "@enabled": "true",
                "$": "7001"
            },
            "securePort": {
                "@enabled": "false",
                "$": "7002"
            },
            "countryId": 1,
            "dataCenterInfo": {
                "name": "MyOwn"
            },
            "leaseInfo": {
                "renewalIntervalInSecs": 30,
                "durationInSecs": 90,
                "registrationTimestamp": 1503701416749,
                "lastRenewalTimestamp": 1503701416749,
                "evictionTimestamp": 0,
                "serviceUpTimestamp": 1503701416464
            },
            "metadata": {
                "@class": "java.util.Collections$EmptyMap"
            },
            "homePageUrl": "http://google.com",
            "statusPageUrl": "http://google.com",
            "healthCheckUrl": "http://google.com",
            "vipAddress": "127.0.0.1",
            "secureVipAddress": "127.0.0.1",
            "isCoordinatingDiscoveryServer": false,
            "lastUpdatedTimestamp": 1503701416750,
            "lastDirtyTimestamp": 1503701416457,
            "actionType": "ADDED"
        }
    }
    }
    "#
    .to_string()
    .replace(" ", "")
    .replace("\n", "")
}

pub fn build_test_multi_applications_json() -> String {
    let first = r#"{
        "name": "INTEGRATION_TEST",
        "instance": {
            "hostName": "localhost",
            "app": "INTEGRATION_TEST",
            "ipAddr": "127.0.0.1",
            "status": "UP",
            "overriddenstatus": "UNKNOWN",
            "port": {
                "@enabled": "true",
                "$": "7001"
            },
            "securePort": {
                "@enabled": "false",
                "$": "7002"
            },
            "countryId": 1,
            "dataCenterInfo": {
                "name": "MyOwn"
            },
            "leaseInfo": {
                "renewalIntervalInSecs": 30,
                "durationInSecs": 90,
                "registrationTimestamp": 1503701416749,
                "lastRenewalTimestamp": 1503701416749,
                "evictionTimestamp": 0,
                "serviceUpTimestamp": 1503701416464
            },
            "metadata": {
                "@class": "java.util.Collections$EmptyMap"
            },
            "homePageUrl": "http://google.com",
            "statusPageUrl": "http://google.com",
            "healthCheckUrl": "http://google.com",
            "vipAddress": "127.0.0.1",
            "secureVipAddress": "127.0.0.1",
            "isCoordinatingDiscoveryServer": false,
            "lastUpdatedTimestamp": 1503701416750,
            "lastDirtyTimestamp": 1503701416457,
            "actionType": "ADDED"
        }
    }"#;
    let second = first.replace("INTEGRATION_TEST\",\n            \"instance", "INTEGRATION_TEST2\",\n            \"instance");
    let second = second.replacen("INTEGRATION_TEST", "INTEGRATION_TEST2", 1);
    format!(
        "{{\"versions__delta\": 1, \"apps__hashcode\": \"UP_1_\", \"application\": [{}, {}]}}",
        first, second
    )
    .replace(" ", "")
    .replace("\n", "")
}

#[test]
fn test_applications_serialize() {
    let applications = build_test_applications();
    let result = encode_applications(&applications);
    assert!(result.contains("\"apps__hashcode\":\"UP_1_\""));
    assert!(result.contains("\"name\":\"INTEGRATION_TEST\""));
}

#[test]
fn test_applications_deserialize() {
    let json = build_test_applications_json();
    let applications = build_test_applications();
    let result = decode_applications(json.as_ref()).unwrap();
    assert_eq!(applications, result)
}

#[test]
fn test_applications_multi_deserialize() {
    let json = build_test_multi_applications_json();
    let result: Applications = decode_applications(json.as_ref()).unwrap();
    assert_eq!(2, result.applications.len())
}

#[test]
fn test_cardinality_normalization() {
    // the same single application, as a bare object and as an array
    let bare = build_test_applications_json();
    let wrapped = bare.replace("\"application\":{", "\"application\":[{");
    let wrapped = format!("{}]}}", &wrapped[..wrapped.len() - 1]);
    let a = decode_applications(&bare).unwrap();
    let b = decode_applications(&wrapped).unwrap();
    assert_eq!(a, b);
    assert_eq!(1, b.applications.len());
}

#[test]
fn test_encode_cardinality() {
    // one element is written as a bare object
    let one = build_test_applications();
    let json = encode_applications(&one);
    assert!(json.contains("\"application\":{"));
    // two elements are written as an array
    let mut two = build_test_applications();
    let mut second = two.applications[0].clone();
    second.name = "INTEGRATION_TEST2".to_string();
    two.applications.push(second);
    let json2 = encode_applications(&two);
    assert!(json2.contains("\"application\":[{"));
    // an empty list writes no application member at all
    let none = Applications {
        versions_delta: 1,
        apps_hashcode: "UP_1_".to_string(),
        applications: vec![],
    };
    let json3 = encode_applications(&none);
    assert!(!json3.contains("application"));
    assert_eq!("{\"versions__delta\":1,\"apps__hashcode\":\"UP_1_\"}", json3);
}

#[test]
fn test_applications_response_serialization() {
    let applications = build_test_applications();
    let ar = ApplicationsResponse::new(applications);
    let result = encode_applications_response(&ar);
    assert!(result.contains("{\"applications\":"))
}

#[test]
fn test_applications_response_deserialization() {
    let json = format!("{{\"applications\":{}}}", build_test_applications_json());
    let applications = build_test_applications();
    let ar = ApplicationsResponse::new(applications);
    let result = decode_applications_response(&json).unwrap();
    assert_eq!(ar, result);
}

#[test]
fn test_local_eureka_response() {
    let json = r#"{
    "applications": {
        "versions__delta": 1,
        "apps__hashcode": "UP_1_",
        "application": {
            "name": "INTEGRATION_TEST",
            "instance": {
                "hostName": "localhost",
                "app": "INTEGRATION_TEST",
                "ipAddr": "127.0.0.1",
                "status": "UP",
                "overriddenstatus": "UNKNOWN",
                "port": {
                    "@enabled": "true",
                    "$": "7001"
                },
                "securePort": {
                    "@enabled": "false",
                    "$": "7002"
                },
                "countryId": 1,
                "dataCenterInfo": {
                    "@class": "com.netflix.appinfo.InstanceInfo$DefaultDataCenterInfo",
                    "name": "MyOwn"
                },
                "leaseInfo": {
                    "renewalIntervalInSecs": 30,
                    "durationInSecs": 90,
                    "registrationTimestamp": 1504830481334,
                    "lastRenewalTimestamp": 1504830481334,
                    "evictionTimestamp": 0,
                    "serviceUpTimestamp": 1504830302194
                },
                "metadata": {
                    "@class": "java.util.Collections$EmptyMap"
                },
                "homePageUrl": "http://google.com",
                "statusPageUrl": "http://google.com",
                "healthCheckUrl": "http://google.com",
                "vipAddress": "127.0.0.1",
                "secureVipAddress": "127.0.0.1",
                "isCoordinatingDiscoveryServer": false,
                "lastUpdatedTimestamp": 1504830481334,
                "lastDirtyTimestamp": 1504830480933,
                "actionType": "ADDED"
            }
        }
    }
}"#;
    let ar = decode_applications_response(json);
    assert!(ar.is_ok())
}
