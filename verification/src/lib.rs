//! Client-side codec for a service-registry (discovery) server.
//!
//! The registry speaks an idiosyncratic JSON dialect: mixed naming
//! conventions, a synthetic wrapper object for port numbers, vendor
//! metadata keys that must be tolerated and discarded, and collections
//! that are serialized as a bare object when they hold exactly one
//! element.  This crate models that wire format as a JSON value tree,
//! implements the encode/decode transformations between the clean domain
//! model and the wire shape, and proves them against a mathematical
//! specification: field validation (unknown, duplicate and missing
//! fields), default injection, cardinality normalization, and the exact
//! rendered text.

pub mod action_type;
pub mod amazonmetadata;
pub mod application;
pub mod application_response;
pub mod applications;
pub mod applications_response;
pub mod client;
pub mod codec;
pub mod datacenterinfo;
pub mod dcname;
pub mod errors;
pub mod instance;
pub mod json;
pub mod laws;
pub mod leaseinfo;
pub mod metadata;
pub mod parse;
pub mod port;
pub mod register;
pub mod render;
pub mod roundtrip;
pub mod status;
pub mod text;
pub mod wire;

pub use action_type::ActionType;
pub use action_type::InvalidActionTypeError;
pub use amazonmetadata::AmazonMetaData;
pub use application::Application;
pub use application_response::ApplicationResponse;
pub use applications::Applications;
pub use applications_response::ApplicationsResponse;
pub use datacenterinfo::DataCenterInfo;
pub use dcname::DcName;
pub use dcname::InvalidDcNameError;
pub use errors::DecodeError;
pub use errors::EurekaClientError;
pub use instance::Instance;
pub use json::JsonValue;
pub use leaseinfo::LeaseInfo;
pub use register::RegisterRequest;
pub use status::Status;
