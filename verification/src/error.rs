use vstd::prelude::*;

verus! {

/// The JSON body of every error the service answers with.
#[derive(Debug, PartialEq, Eq)]
pub struct ErrorResponse {
    pub status: u16,
    pub error: String,
}

/// `err` carries `status` and the message `message`.
pub open spec fn is_error(err: ErrorResponse, status: u16, message: Seq<char>) -> bool {
    err.status == status && err.error@ == message
}

/// An error body with the given status and message.
pub fn error_response(status: u16, message: &str) -> (err: ErrorResponse)
    ensures
        err.status == status,
        err.error@ == message@,
{
    ErrorResponse { status, error: String::from_str(message) }
}

} // verus!
