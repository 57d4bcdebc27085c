//! File paths, which the library carries and never looks into.

use std::path::PathBuf;
use vstd::prelude::*;

verus! {

/// Declares [`std::path::PathBuf`] as an opaque type.
#[verifier::external_type_specification]
#[verifier::external_body]
pub struct ExPathBuf(std::path::PathBuf);

/// `PathBuf::clone`: the copy is the same path.
pub assume_specification[ <PathBuf as Clone>::clone ](path: &PathBuf) -> (copy: PathBuf)
    ensures
        copy == *path,
;

} // verus!
