//! The ways in which a request or the reading of its response can fail.
use vstd::prelude::*;

verus! {

/// The error that `serde_json` reports for a text that is no JSON document.
#[verifier::external_type_specification]
#[verifier::external_body]
pub struct ExJsonError(serde_json::Error);

/// The error that std reports for failed input or output.
#[verifier::external_type_specification]
#[verifier::external_body]
pub struct ExIoError(std::io::Error);

/// Wikipedia failed to fetch some information.
#[derive(Debug)]
pub enum WikiError {
    /// Some error communicating with the server.
    HTTPError,
    /// Bad HTTP status.
    BadStatus,
    /// Error reading the response.
    IOError(std::io::Error),
    /// Failed to parse the JSON response.
    JSONError(serde_json::Error),
    /// Missing required keys in the JSON response.
    JSONPathError,
    /// One of the parameters provided (identified by the `String`) is invalid.
    InvalidParameter(String),
    /// The server kept redirecting past the number of hops that are followed.
    RedirectCycle,
}

/// The value of a [`WikiError`]: which failure it is.
pub ghost enum Failure {
    Http,
    BadStatus,
    Io,
    Json,
    JsonPath,
    InvalidParameter(Seq<char>),
    RedirectCycle,
}

impl View for WikiError {
    type V = Failure;

    open spec fn view(&self) -> Failure {
        match self {
            WikiError::HTTPError => Failure::Http,
            WikiError::BadStatus => Failure::BadStatus,
            WikiError::IOError(_) => Failure::Io,
            WikiError::JSONError(_) => Failure::Json,
            WikiError::JSONPathError => Failure::JsonPath,
            WikiError::InvalidParameter(name) => Failure::InvalidParameter(name@),
            WikiError::RedirectCycle => Failure::RedirectCycle,
        }
    }
}

impl WikiError {
    /// A short description of the error.
    pub fn message(&self) -> (text: String)
        ensures
            text@ == match self {
                WikiError::HTTPError => "HTTP Error"@,
                WikiError::BadStatus => "Bad status"@,
                WikiError::IOError(_) => "IO Error"@,
                WikiError::JSONError(_) => "JSON Error"@,
                WikiError::JSONPathError => "JSON Path Error"@,
                WikiError::InvalidParameter(name) => "Invalid Parameter: "@ + name@,
                WikiError::RedirectCycle => "Too many redirects"@,
            },
    {
        match self {
            WikiError::HTTPError => "HTTP Error".to_owned(),
            WikiError::BadStatus => "Bad status".to_owned(),
            WikiError::IOError(_) => "IO Error".to_owned(),
            WikiError::JSONError(_) => "JSON Error".to_owned(),
            WikiError::JSONPathError => "JSON Path Error".to_owned(),
            WikiError::InvalidParameter(name) => "Invalid Parameter: ".to_owned().concat(name.as_str()),
            WikiError::RedirectCycle => "Too many redirects".to_owned(),
        }
    }
}

} // verus!
