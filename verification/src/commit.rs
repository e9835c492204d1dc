//! The parents of the commit that resolves a conflict.
use vstd::prelude::*;
use git2::Oid;

verus! {

/// The parents of the resolving commit: the common ancestor alone when the
/// conflicted commits are overwritten, otherwise our head commit and then
/// the commit being merged (`MERGE_HEAD`).
pub fn resolution_parents(overwrite: bool, ours: Oid, theirs: Oid, ancestor: Oid) -> (r: Vec<Oid>)
    ensures
        r@ == (if overwrite { seq![ancestor] } else { seq![ours, theirs] }),
{
    let mut r: Vec<Oid> = Vec::new();
    if overwrite {
        r.push(ancestor);
    } else {
        r.push(ours);
        r.push(theirs);
    }
    r
}

} // verus!
