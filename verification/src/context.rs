//! What is known of a change that is about to be committed.

use vstd::prelude::*;

verus! {

/// A file staged for commit.
#[derive(Debug, Clone)]
pub struct StagedFile {
    /// The path of the file in the repository.
    pub path: String,
    /// The staged diff of the file.
    pub diff: String,
    /// The content of the file, where it was read.
    pub content: Option<String>,
    /// Whether the content was left out on purpose.
    pub content_excluded: bool,
}

/// An earlier commit.
#[derive(Debug, Clone)]
pub struct RecentCommit {
    pub hash: String,
    pub message: String,
    pub author: String,
    pub timestamp: String,
}

/// The change to describe: the staged files and the commits before them.
#[derive(Debug, Clone)]
pub struct CommitContext {
    pub branch: String,
    pub recent_commits: Vec<RecentCommit>,
    pub staged_files: Vec<StagedFile>,
    pub author_history: Vec<String>,
}

/// What the template of the user prompt is filled with.
#[derive(Debug)]
pub struct CommitUserTemplateContext<'a> {
    pub context: &'a CommitContext,
    pub recent_commits: String,
    pub staged_changes: String,
    pub project_metadata: String,
    pub detailed_changes: String,
    pub author_history: String,
}

} // verus!
