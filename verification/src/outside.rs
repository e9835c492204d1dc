//! Types of the `git2` crate that the library carries through its logic.
use vstd::prelude::*;

verus! {

/// `git2::Oid`, the identity of a git object; the library only copies it.
#[verifier::external_type_specification]
#[verifier::external_body]
pub struct ExOid(git2::Oid);

/// `git2::Index`, an index of a repository (the staging area) in memory.
#[verifier::external_type_specification]
#[verifier::external_body]
pub struct ExIndex(git2::Index);

/// `git2::Error`, the error of a `git2` call.
#[verifier::external_type_specification]
#[verifier::external_body]
pub struct ExError(git2::Error);

} // verus!
