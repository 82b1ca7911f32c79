//! Failures that are shown to the user.

use vstd::prelude::*;

verus! {

/// A failure with its message.
#[derive(Debug)]
pub struct Failure {
    pub message: String,
}

} // verus!
