use vstd::prelude::*;
use vstd::string::*;

verus! {

/// The two branches of a conflicted merge: the one that `HEAD` points to
/// and the one being merged into it.
#[derive(Clone)]
pub struct Branches {
    pub src_branch: String,
    pub dest_branch: String,
}

/// The version of the conflicted files that a checkout keeps.
#[derive(Clone, Copy, PartialEq, Eq, Structural)]
pub enum CheckoutSide {
    /// The version of the branch that `HEAD` points to.
    Ours,
    /// The version of the branch being merged.
    Theirs,
}

impl Branches {
    /// Builds the pair from the source (local) and destination (foreign) names.
    pub fn init(branch_1: String, branch_2: String) -> (r: Self)
        ensures
            r.src_branch@ == branch_1@,
            r.dest_branch@ == branch_2@,
    {
        Branches { src_branch: branch_1, dest_branch: branch_2 }
    }

    /// The side to check the conflicted files out from, given the branch
    /// that `HEAD` points to: `None` when `HEAD` is on neither branch,
    /// otherwise ours when `ours` holds and theirs when it does not.
    pub fn checkout_side(&self, head: &String, ours: bool) -> (r: Option<CheckoutSide>)
        ensures
            r == (if head@ != self.src_branch@ && head@ != self.dest_branch@ {
                None
            } else if ours {
                Some(CheckoutSide::Ours)
            } else {
                Some(CheckoutSide::Theirs)
            }),
    {
        if *head != self.src_branch && *head != self.dest_branch {
            None
        } else if ours {
            Some(CheckoutSide::Ours)
        } else {
            Some(CheckoutSide::Theirs)
        }
    }

    /// The message of the commit that resolves the conflict by keeping one
    /// side or both: `Resolve Conflict: Merge <src> branch into <dest> branch`.
    pub fn merge_commit_message(&self) -> (r: String)
        ensures
            r@ == "Resolve Conflict: Merge "@ + self.src_branch@ + " branch into "@
                + self.dest_branch@ + " branch"@,
    {
        let mut m = String::from_str("Resolve Conflict: Merge ");
        m.append(self.src_branch.as_str());
        m.append(" branch into ");
        m.append(self.dest_branch.as_str());
        m.append(" branch");
        m
    }

    /// The message of the commit that resolves the conflict at the tree
    /// level: `Resolve Conflict through tree resolution:  <src> branch into
    /// <dest> branch` (two spaces after the colon).
    pub fn tree_merge_message(&self) -> (r: String)
        ensures
            r@ == "Resolve Conflict through tree resolution:  "@ + self.src_branch@
                + " branch into "@ + self.dest_branch@ + " branch"@,
    {
        let mut m = String::from_str("Resolve Conflict through tree resolution:  ");
        m.append(self.src_branch.as_str());
        m.append(" branch into ");
        m.append(self.dest_branch.as_str());
        m.append(" branch");
        m
    }
}

} // verus!
