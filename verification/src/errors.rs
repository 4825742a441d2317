//! Error taxonomy: codec validation failures and client-level errors.

use vstd::prelude::*;

verus! {

/// Model of a codec failure.
#[verifier::ext_equal]
pub enum DecodeErrorV {
    /// A key that is not among the entity's recognized wire names.
    UnknownField(Seq<char>),
    /// A recognized key that appeared twice.
    DuplicateField(Seq<char>),
    /// A mandatory key that never appeared.
    MissingField(Seq<char>),
    /// A value (or the surrounding text) of the wrong shape; carries the
    /// wire name or entity name where the mismatch was found.
    TypeMismatch(Seq<char>),
}

/// A codec failure: decoding surfaces the first violation and stops.
#[derive(Debug, PartialEq, Eq, Clone)]
pub enum DecodeError {
    UnknownField(String),
    DuplicateField(String),
    MissingField(String),
    TypeMismatch(String),
}

impl View for DecodeError {
    type V = DecodeErrorV;

    open spec fn view(&self) -> DecodeErrorV {
        match self {
            DecodeError::UnknownField(k) => DecodeErrorV::UnknownField(k@),
            DecodeError::DuplicateField(k) => DecodeErrorV::DuplicateField(k@),
            DecodeError::MissingField(k) => DecodeErrorV::MissingField(k@),
            DecodeError::TypeMismatch(k) => DecodeErrorV::TypeMismatch(k@),
        }
    }
}

/// Model of a client-level error.
#[verifier::ext_equal]
pub enum EurekaClientErrorV {
    ClientError(Seq<char>),
    JsonError(DecodeErrorV),
    GenericError(Seq<char>),
    InvalidUri(Seq<char>),
    InternalServerError,
    BadRequest,
    NotFound,
}

/// Errors that can be returned by the registry client. Transport-level
/// failures carry the transport's message as plain text.
#[derive(Debug, PartialEq, Eq, Clone)]
pub enum EurekaClientError {
    /// An underlying error occurred with the http client
    ClientError(String),
    /// An error occurred parsing a response from the server
    JsonError(DecodeError),
    /// A generic error that was not otherwise typed occurred
    GenericError(String),
    /// The Uri of the registry server was invalid
    InvalidUri(String),
    /// A server error occurred with the registry
    InternalServerError,
    /// Request parameters sent to the registry were invalid
    BadRequest,
    /// The specified resource does not exist in the registry
    NotFound,
}

impl View for EurekaClientError {
    type V = EurekaClientErrorV;

    open spec fn view(&self) -> EurekaClientErrorV {
        match self {
            EurekaClientError::ClientError(s) => EurekaClientErrorV::ClientError(s@),
            EurekaClientError::JsonError(e) => EurekaClientErrorV::JsonError(e@),
            EurekaClientError::GenericError(s) => EurekaClientErrorV::GenericError(s@),
            EurekaClientError::InvalidUri(s) => EurekaClientErrorV::InvalidUri(s@),
            EurekaClientError::InternalServerError => EurekaClientErrorV::InternalServerError,
            EurekaClientError::BadRequest => EurekaClientErrorV::BadRequest,
            EurekaClientError::NotFound => EurekaClientErrorV::NotFound,
        }
    }
}

/// The fixed description for each error variant.
pub open spec fn spec_description(e: EurekaClientErrorV) -> Seq<char> {
    match e {
        EurekaClientErrorV::ClientError(_) => "Error calling downstream client: "@,
        EurekaClientErrorV::JsonError(_) => "A json error occurred "@,
        EurekaClientErrorV::BadRequest => "Received a 400 (Bad Request) response"@,
        _ => "Some error occurred"@,
    }
}

impl EurekaClientError {
    /// A short, fixed description of the error variant.
    pub fn description(&self) -> (r: String)
        ensures
            r@ == spec_description(self@),
    {
        match self {
            EurekaClientError::ClientError(_) => String::from_str("Error calling downstream client: "),
            EurekaClientError::JsonError(_) => String::from_str("A json error occurred "),
            EurekaClientError::BadRequest => String::from_str("Received a 400 (Bad Request) response"),
            _ => String::from_str("Some error occurred"),
        }
    }
}

impl From<DecodeError> for EurekaClientError {
    /// A codec failure surfaces as a json error.
    fn from(err: DecodeError) -> EurekaClientError {
        EurekaClientError::JsonError(err)
    }
}

impl vstd::std_specs::convert::FromSpecImpl<DecodeError> for EurekaClientError {
    open spec fn obeys_from_spec() -> bool {
        true
    }

    open spec fn from_spec(err: DecodeError) -> EurekaClientError {
        EurekaClientError::JsonError(err)
    }
}

} // verus!
