//! Merges of a workspace's branch: a direct merge into a target branch, or a
//! pull (merge) request and what the code host last said of it.
use vstd::prelude::*;
use crate::text::copy_str;

verus! {

/// The state of a pull request as the code host reports it.
#[derive(Debug, Clone, Copy, PartialEq, Eq, Structural)]
pub enum MergeStatus {
    Open,
    Merged,
    Closed,
    Unknown,
}

/// A pull request of a merge.
#[derive(Debug, Clone)]
pub struct PullRequestInfo {
    pub number: i64,
    pub url: String,
    pub status: MergeStatus,
    pub merged_at: Option<i128>,
    pub merge_commit_sha: Option<String>,
}

/// A branch merged straight into its target.
#[derive(Debug, Clone)]
pub struct DirectMerge {
    pub id: u128,
    pub workspace_id: u128,
    pub repo_id: u128,
    pub merge_commit: String,
    pub target_branch_name: String,
    pub created_at: i128,
}

/// A branch merged through a pull request.
#[derive(Debug, Clone)]
pub struct PrMerge {
    pub id: u128,
    pub workspace_id: u128,
    pub repo_id: u128,
    pub created_at: i128,
    pub target_branch_name: String,
    pub pr_info: PullRequestInfo,
}

/// A merge of a workspace's branch.
#[derive(Debug, Clone)]
pub enum Merge {
    Direct(DirectMerge),
    Pr(PrMerge),
}

/// The commit a merge produced, if it is known: a direct merge's commit, or
/// the merge commit of a pull request.
pub open spec fn merge_commit_of(m: Merge) -> Option<Seq<char>> {
    match m {
        Merge::Direct(d) => Some(d.merge_commit@),
        Merge::Pr(p) => match p.pr_info.merge_commit_sha {
            Some(s) => Some(s@),
            None => None,
        },
    }
}

/// The id of a merge.
pub open spec fn merge_id(m: Merge) -> u128 {
    match m {
        Merge::Direct(d) => d.id,
        Merge::Pr(p) => p.id,
    }
}

impl Merge {
    /// The commit this merge produced, if it is known.
    pub fn merge_commit(&self) -> (r: Option<String>)
        ensures
            r is Some <==> merge_commit_of(*self) is Some,
            r matches Some(s) ==> merge_commit_of(*self) == Some(s@),
    {
        match self {
            Merge::Direct(d) => Some(copy_str(d.merge_commit.as_str())),
            Merge::Pr(p) => match &p.pr_info.merge_commit_sha {
                Some(s) => Some(copy_str(s.as_str())),
                None => None,
            },
        }
    }

    /// The id of this merge.
    pub fn id(&self) -> (r: u128)
        ensures
            r == merge_id(*self),
    {
        match self {
            Merge::Direct(d) => d.id,
            Merge::Pr(p) => p.id,
        }
    }
}

} // verus!
