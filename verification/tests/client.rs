// The client's compute surface: response-status decisions, the request
// path and header strings, and the legacy instance-array decode.

use rust_eureka::EurekaClientError;
use rust_eureka::client::{
    classify_http_response, decode_instance_list, lookup_outcome, register_outcome, registry_path,
    user_agent,
};

#[test]
fn test_register_outcome() {
    assert!(register_outcome(204).is_ok());
    assert!(register_outcome(200).is_ok());
    assert_eq!(Err(EurekaClientError::BadRequest), register_outcome(400));
    assert_eq!(Err(EurekaClientError::InternalServerError), register_outcome(500));
}

#[test]
fn test_lookup_outcome_not_found() {
    assert_eq!(Err(EurekaClientError::NotFound), lookup_outcome(404, "[]"));
}

#[test]
fn test_lookup_outcome_bad_body() {
    let r = lookup_outcome(200, "not json");
    match r {
        Err(EurekaClientError::JsonError(_)) => {},
        _ => panic!("expected a json error"),
    }
}

#[test]
fn test_decode_instance_list_empty() {
    let l = decode_instance_list("[]").unwrap();
    assert_eq!(0, l.len());
}

#[test]
fn test_classify_http_response() {
    assert_eq!(Ok("body".to_string()), classify_http_response(200, "body".to_string()));
    let err = classify_http_response(500, "oops".to_string()).unwrap_err();
    assert_eq!(
        EurekaClientError::GenericError("Request was not successful".to_string()),
        err
    );
    assert_eq!("Some error occurred".to_string(), err.description());
}

#[test]
fn test_error_descriptions() {
    assert_eq!(
        "Received a 400 (Bad Request) response".to_string(),
        EurekaClientError::BadRequest.description()
    );
    assert_eq!(
        "Error calling downstream client: ".to_string(),
        EurekaClientError::ClientError("x".to_string()).description()
    );
}

#[test]
fn test_paths_and_headers() {
    assert_eq!("/v2/apps/INTEGRATION_TEST".to_string(), registry_path("INTEGRATION_TEST"));
    assert_eq!("Rust Hyper/INTEGRATION_TEST".to_string(), user_agent("INTEGRATION_TEST"));
}
