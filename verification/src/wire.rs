//! The crate's text-level surface: each entity encoded to, and decoded
//! from, the registry's JSON text. Encoding is pinned to the exact
//! rendered characters; decoding parses the text and runs the entity's
//! field validation, surfacing the first violation.

use vstd::prelude::*;
use crate::json::JsonV;
use crate::errors::{DecodeError, DecodeErrorV};
use crate::codec::result_view;
use crate::render::{render, json_to_string};
use crate::parse::{sp_json, parse_json};
use crate::amazonmetadata::{AmazonMetaData, AmazonMetaDataV, enc_amd, dec_amd, amd_from_json, amd_to_json};
use crate::datacenterinfo::{DataCenterInfo, DataCenterInfoV, enc_dci, dec_dci, dci_from_json, dci_to_json};
use crate::leaseinfo::{LeaseInfo, enc_lease, dec_lease, lease_from_json, lease_to_json};
use crate::instance::{Instance, InstanceV, enc_instance, dec_instance, instance_from_json, instance_to_json};
use crate::application::{Application, ApplicationV, enc_application, dec_application, application_from_json, application_to_json};
use crate::applications::{Applications, ApplicationsV, enc_applications, dec_applications, applications_from_json, applications_to_json};
use crate::register::{RegisterRequest, RegisterRequestV, enc_register, dec_register, register_from_json, register_to_json};
use crate::application_response::{ApplicationResponse, ApplicationResponseV, enc_app_response, dec_app_response, app_response_from_json, app_response_to_json};
use crate::applications_response::{ApplicationsResponse, ApplicationsResponseV, enc_apps_response, dec_apps_response, apps_response_from_json, apps_response_to_json};

verus! {

broadcast use
    vstd::std_specs::vec::group_vec_axioms,
    vstd::seq::group_seq_axioms,
    vstd::string::group_string_axioms,
;

/// What a JSON text decodes to as a AmazonMetaData: parse, then validate.
pub open spec fn decoded_amazon_meta_data(s: Seq<char>) -> Result<AmazonMetaDataV, DecodeErrorV> {
    match sp_json(s) {
        Ok(j) => dec_amd(j),
        Err(e) => Err(e),
    }
}

/// Decodes a JSON text as a AmazonMetaData.
pub fn decode_amazon_meta_data(text: &str) -> (r: Result<AmazonMetaData, DecodeError>)
    ensures
        result_view(r) == decoded_amazon_meta_data(text@),
{
    match parse_json(text) {
        Ok(v) => amd_from_json(&v),
        Err(e) => Err(e),
    }
}

/// Encodes a AmazonMetaData as its exact wire text.
pub fn encode_amazon_meta_data(x: &AmazonMetaData) -> (r: String)
    ensures
        r@ == render(enc_amd(x@)),
{
    let v = amd_to_json(x);
    json_to_string(&v)
}

/// What a JSON text decodes to as a DataCenterInfo: parse, then validate.
pub open spec fn decoded_data_center_info(s: Seq<char>) -> Result<DataCenterInfoV, DecodeErrorV> {
    match sp_json(s) {
        Ok(j) => dec_dci(j),
        Err(e) => Err(e),
    }
}

/// Decodes a JSON text as a DataCenterInfo.
pub fn decode_data_center_info(text: &str) -> (r: Result<DataCenterInfo, DecodeError>)
    ensures
        result_view(r) == decoded_data_center_info(text@),
{
    match parse_json(text) {
        Ok(v) => dci_from_json(&v),
        Err(e) => Err(e),
    }
}

/// Encodes a DataCenterInfo as its exact wire text.
pub fn encode_data_center_info(x: &DataCenterInfo) -> (r: String)
    ensures
        r@ == render(enc_dci(x@)),
{
    let v = dci_to_json(x);
    json_to_string(&v)
}

/// What a JSON text decodes to as a LeaseInfo: parse, then validate.
pub open spec fn decoded_lease_info(s: Seq<char>) -> Result<LeaseInfo, DecodeErrorV> {
    match sp_json(s) {
        Ok(j) => dec_lease(j),
        Err(e) => Err(e),
    }
}

/// Decodes a JSON text as a LeaseInfo.
pub fn decode_lease_info(text: &str) -> (r: Result<LeaseInfo, DecodeError>)
    ensures
        result_view(r) == decoded_lease_info(text@),
{
    match parse_json(text) {
        Ok(v) => lease_from_json(&v),
        Err(e) => Err(e),
    }
}

/// Encodes a LeaseInfo as its exact wire text.
pub fn encode_lease_info(x: &LeaseInfo) -> (r: String)
    ensures
        r@ == render(enc_lease(x@)),
{
    let v = lease_to_json(x);
    json_to_string(&v)
}

/// What a JSON text decodes to as a Instance: parse, then validate.
pub open spec fn decoded_instance(s: Seq<char>) -> Result<InstanceV, DecodeErrorV> {
    match sp_json(s) {
        Ok(j) => dec_instance(j),
        Err(e) => Err(e),
    }
}

/// Decodes a JSON text as a Instance.
pub fn decode_instance(text: &str) -> (r: Result<Instance, DecodeError>)
    ensures
        result_view(r) == decoded_instance(text@),
{
    match parse_json(text) {
        Ok(v) => instance_from_json(&v),
        Err(e) => Err(e),
    }
}

/// Encodes a Instance as its exact wire text.
pub fn encode_instance(x: &Instance) -> (r: String)
    ensures
        r@ == render(enc_instance(x@)),
{
    let v = instance_to_json(x);
    json_to_string(&v)
}

/// What a JSON text decodes to as a Application: parse, then validate.
pub open spec fn decoded_application(s: Seq<char>) -> Result<ApplicationV, DecodeErrorV> {
    match sp_json(s) {
        Ok(j) => dec_application(j),
        Err(e) => Err(e),
    }
}

/// Decodes a JSON text as a Application.
pub fn decode_application(text: &str) -> (r: Result<Application, DecodeError>)
    ensures
        result_view(r) == decoded_application(text@),
{
    match parse_json(text) {
        Ok(v) => application_from_json(&v),
        Err(e) => Err(e),
    }
}

/// Encodes a Application as its exact wire text.
pub fn encode_application(x: &Application) -> (r: String)
    ensures
        r@ == render(enc_application(x@)),
{
    let v = application_to_json(x);
    json_to_string(&v)
}

/// What a JSON text decodes to as a Applications: parse, then validate.
pub open spec fn decoded_applications(s: Seq<char>) -> Result<ApplicationsV, DecodeErrorV> {
    match sp_json(s) {
        Ok(j) => dec_applications(j),
        Err(e) => Err(e),
    }
}

/// Decodes a JSON text as a Applications.
pub fn decode_applications(text: &str) -> (r: Result<Applications, DecodeError>)
    ensures
        result_view(r) == decoded_applications(text@),
{
    match parse_json(text) {
        Ok(v) => applications_from_json(&v),
        Err(e) => Err(e),
    }
}

/// Encodes a Applications as its exact wire text.
pub fn encode_applications(x: &Applications) -> (r: String)
    ensures
        r@ == render(enc_applications(x@)),
{
    let v = applications_to_json(x);
    json_to_string(&v)
}

/// What a JSON text decodes to as a RegisterRequest: parse, then validate.
pub open spec fn decoded_register_request(s: Seq<char>) -> Result<RegisterRequestV, DecodeErrorV> {
    match sp_json(s) {
        Ok(j) => dec_register(j),
        Err(e) => Err(e),
    }
}

/// Decodes a JSON text as a RegisterRequest.
pub fn decode_register_request(text: &str) -> (r: Result<RegisterRequest, DecodeError>)
    ensures
        result_view(r) == decoded_register_request(text@),
{
    match parse_json(text) {
        Ok(v) => register_from_json(&v),
        Err(e) => Err(e),
    }
}

/// Encodes a RegisterRequest as its exact wire text.
pub fn encode_register_request(x: &RegisterRequest) -> (r: String)
    ensures
        r@ == render(enc_register(x@)),
{
    let v = register_to_json(x);
    json_to_string(&v)
}

/// What a JSON text decodes to as a ApplicationResponse: parse, then validate.
pub open spec fn decoded_application_response(s: Seq<char>) -> Result<ApplicationResponseV, DecodeErrorV> {
    match sp_json(s) {
        Ok(j) => dec_app_response(j),
        Err(e) => Err(e),
    }
}

/// Decodes a JSON text as a ApplicationResponse.
pub fn decode_application_response(text: &str) -> (r: Result<ApplicationResponse, DecodeError>)
    ensures
        result_view(r) == decoded_application_response(text@),
{
    match parse_json(text) {
        Ok(v) => app_response_from_json(&v),
        Err(e) => Err(e),
    }
}

/// Encodes a ApplicationResponse as its exact wire text.
pub fn encode_application_response(x: &ApplicationResponse) -> (r: String)
    ensures
        r@ == render(enc_app_response(x@)),
{
    let v = app_response_to_json(x);
    json_to_string(&v)
}

/// What a JSON text decodes to as a ApplicationsResponse: parse, then validate.
pub open spec fn decoded_applications_response(s: Seq<char>) -> Result<ApplicationsResponseV, DecodeErrorV> {
    match sp_json(s) {
        Ok(j) => dec_apps_response(j),
        Err(e) => Err(e),
    }
}

/// Decodes a JSON text as a ApplicationsResponse.
pub fn decode_applications_response(text: &str) -> (r: Result<ApplicationsResponse, DecodeError>)
    ensures
        result_view(r) == decoded_applications_response(text@),
{
    match parse_json(text) {
        Ok(v) => apps_response_from_json(&v),
        Err(e) => Err(e),
    }
}

/// Encodes a ApplicationsResponse as its exact wire text.
pub fn encode_applications_response(x: &ApplicationsResponse) -> (r: String)
    ensures
        r@ == render(enc_apps_response(x@)),
{
    let v = apps_response_to_json(x);
    json_to_string(&v)
}

} // verus!
