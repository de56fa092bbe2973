use vstd::prelude::*;

verus! {

use vstd::string::StringExecFns;

/// The unified error taxonomy of the crate.
///
/// Filesystem and serialization failures arise outside the library and are
/// carried here as plain messages; an invalid request specification is
/// detected by the library itself.
#[derive(Debug)]
pub enum BurlError {
    /// A filesystem operation failed.
    IO { message: String },
    /// Encoding or decoding an artifact failed.
    SerDe { message: String },
    /// The request specification is structurally invalid.
    InvalidConfig { issue: String },
}

pub type BurlResult<T> = Result<T, BurlError>;

impl BurlError {
    /// The text of the error, prefixed with its kind.
    pub fn description(&self) -> (r: String)
        ensures
            r@ == match self {
                BurlError::IO { message } => "IO error: "@ + message@,
                BurlError::SerDe { message } => "Serialization error: "@ + message@,
                BurlError::InvalidConfig { issue } => "Invalid configuration: "@ + issue@,
            },
    {
        match self {
            BurlError::IO { message } => String::from_str("IO error: ").concat(message.as_str()),
            BurlError::SerDe { message } => String::from_str("Serialization error: ").concat(
                message.as_str(),
            ),
            BurlError::InvalidConfig { issue } => String::from_str(
                "Invalid configuration: ",
            ).concat(issue.as_str()),
        }
    }
}

} // verus!
