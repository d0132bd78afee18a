//! What is asked of one remote repository.

use vstd::prelude::*;
use crate::parse::Method;

verus! {

/// A remote repository at a branch, with the place its content goes to.
#[derive(Debug)]
pub struct RepositoryConfiguration {
    /// The URL of the remote repository.
    pub url: String,
    /// The branch to pull from.
    pub branch: String,
    /// The local path where content is placed.
    pub target_path: String,
    /// Paths or file names to include from the repository.
    pub filters: Vec<String>,
    /// A commit to check out, when the branch head is not wanted.
    pub commit_hash: Option<String>,
    /// How to fetch.
    pub mtd: Option<Method>,
}

impl RepositoryConfiguration {
    /// A configuration with exactly the given parts.
    pub fn new(
        url: String,
        branch: String,
        target_path: String,
        filters: Vec<String>,
        commit_hash: Option<String>,
        mtd: Option<Method>,
    ) -> (config: Self)
        ensures
            config.url == url,
            config.branch == branch,
            config.target_path == target_path,
            config.filters == filters,
            config.commit_hash == commit_hash,
            config.mtd == mtd,
    {
        Self { url, branch, target_path, filters, commit_hash, mtd }
    }

    /// The pinned commit as a sequence of characters, if there is one.
    pub open spec fn commit_text(self) -> Option<Seq<char>> {
        match self.commit_hash {
            Some(commit) => Some(commit@),
            None => None,
        }
    }

    /// Two configurations name the same remote content: the same URL, branch
    /// and pinned commit.
    pub open spec fn same_remote(self, other: Self) -> bool {
        self.url@ == other.url@ && self.branch@ == other.branch@ && self.commit_text()
            == other.commit_text()
    }
}

} // verus!
