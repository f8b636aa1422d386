//! Failures of reading and writing files, as the library carries them.

use vstd::prelude::*;

verus! {

/// The error that reading or writing a file gives; the library carries it and does not look in.
#[verifier::external_type_specification]
#[verifier::external_body]
pub struct ExIoError(std::io::Error);

} // verus!
