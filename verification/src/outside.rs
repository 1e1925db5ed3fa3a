//! The types of other crates that values of this one carry.

use vstd::prelude::*;

verus! {

/// The error of a failed read or write, as std reports it.
#[verifier::external_type_specification]
#[verifier::external_body]
pub struct ExIoError(std::io::Error);

/// The error of a store that is no valid JSON list of tasks, as serde_json
/// reports it.
#[verifier::external_type_specification]
#[verifier::external_body]
pub struct ExJsonError(serde_json::Error);

} // verus!
