//! The error structure handed to the transport collaborator: a message and
//! the status code it should map the failure to. The collaborator owns the
//! formatting of responses; this core only carries the data.

use vstd::prelude::*;

verus! {

/// A user-visible error: a message and a transport status code.
#[derive(Debug)]
pub struct UserError {
    pub error: String,
    pub code: u16,
}

} // verus!
