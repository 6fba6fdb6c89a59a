//! The error taxonomy of the coordinator: invalid input, and references to
//! ids that no entity carries. Input/output and parse failures arise only at
//! the store boundary and are reported there.

use vstd::prelude::*;
use vstd::string::StrSliceExecFns;

verus! {

/// Why a coordinator operation refused to act.
#[derive(Clone, Copy, Debug, PartialEq, Eq, Structural)]
pub enum CoreError {
    /// The input was rejected: an empty name or title, or an attempt to
    /// delete the sole remaining workspace.
    Validation,
    /// The operation referenced an id that matches no entity.
    NotFound,
}

/// How an upstream HTTP failure status is classified for the caller.
#[derive(Clone, Copy, Debug, PartialEq, Eq, Structural)]
pub enum StatusClass {
    /// 404: the referenced model or entity is absent upstream.
    AbsentUpstream,
    /// 400: the request shape was rejected.
    BadRequest,
    /// 500..=599: the backend failed internally.
    BackendInternal,
    /// Any other non-success status.
    Other,
}

/// Classify a non-success HTTP status from the model backend.
pub fn classify_http_status(status: u16) -> (r: StatusClass)
    ensures
        r == StatusClass::AbsentUpstream <==> status == 404,
        r == StatusClass::BadRequest <==> status == 400,
        r == StatusClass::BackendInternal <==> (500 <= status <= 599),
{
    if status == 404 {
        StatusClass::AbsentUpstream
    } else if status == 400 {
        StatusClass::BadRequest
    } else if 500 <= status && status <= 599 {
        StatusClass::BackendInternal
    } else {
        StatusClass::Other
    }
}


/// The message shown when the model backend cannot be reached.
pub fn connect_error_message() -> (r: String)
    ensures
        r@ == "Could not connect to Ollama. Make sure Ollama is running on http://localhost:11434"@,
{
    "Could not connect to Ollama. Make sure Ollama is running on http://localhost:11434".to_owned()
}

/// The message shown when the model backend does not answer in time.
pub fn timeout_error_message() -> (r: String)
    ensures
        r@ == "Request to Ollama timed out"@,
{
    "Request to Ollama timed out".to_owned()
}

} // verus!
