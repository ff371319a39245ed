//! Types of the standard library that values of this crate carry along.

use vstd::prelude::*;

verus! {

/// `std::io::Error`, carried inside this crate's errors and never looked into.
#[verifier::external_type_specification]
#[verifier::external_body]
pub struct ExIoError(std::io::Error);

/// `std::path::PathBuf`, carried inside this crate's errors and never looked into.
#[verifier::external_type_specification]
#[verifier::external_body]
pub struct ExPathBuf(std::path::PathBuf);

} // verus!
