//! Branch-range request and response types.

use vstd::prelude::*;

verus! {

/// A query for the commit range of one branch.
pub struct GetCommitsForBranchParams {
    pub branch: String,
}

/// The first and last commit ids of a branch's history.
pub struct CommitsForBranch {
    pub start_commit: String,
    pub end_commit: String,
}

} // verus!
