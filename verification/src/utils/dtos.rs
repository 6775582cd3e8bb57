use vstd::prelude::*;

verus! {

/// A status and message without further data.
#[derive(Debug, PartialEq, Eq)]
pub struct GenericResponse {
    pub status: u16,
    pub message: String,
}

} // verus!
