//! The error of the functions that deal with the cluster tool.

use vstd::prelude::*;

verus! {

/// `std::io::Error`, carried through as it is: nothing is known of its
/// content.
#[verifier::external_type_specification]
#[verifier::external_body]
pub struct ExIoError(std::io::Error);

} // verus!
