//! Error taxonomy of the repository pipeline: resolution failures and diff
//! failures. Highlighting problems are absorbed where they occur and never
//! appear here.

use vstd::prelude::*;

verus! {

/// A failure while resolving objects of a repository or while diffing trees.
///
/// Resolution errors and diff errors abort the unit of work that met them and
/// are handed to the caller; nothing is retried.
#[derive(Clone, Copy, Debug, PartialEq, Eq, Structural)]
pub enum GitError {
    /// The repository could not be opened.
    OpenRepo,
    /// The references of the repository could not be enumerated.
    ReferenceIter,
    /// An id did not resolve to a commit, or a parent was not a commit.
    CommitResolution,
    /// A revision did not resolve to a tree.
    TreeResolution,
    /// A blob's bytes could not be read.
    BlobResolution,
    /// Enumerating the changes between two trees failed.
    TreeDiff,
    /// A blob is too large for the line-diff primitive.
    BlobTooLarge,
}

impl GitError {
    /// A short, stable description of the failure.
    pub fn describe(&self) -> (r: &'static str)
        ensures
            r@.len() > 0,
    {
        let r = match self {
            GitError::OpenRepo => "failed to open the repository",
            GitError::ReferenceIter => "failed to enumerate the repository's references",
            GitError::CommitResolution => "an object id did not resolve to a commit",
            GitError::TreeResolution => "a revision did not resolve to a tree",
            GitError::BlobResolution => "failed to read a blob's content",
            GitError::TreeDiff => "failed to enumerate the changes between two trees",
            GitError::BlobTooLarge => "a blob is too large for the line-diff primitive",
        };
        proof {
            reveal_strlit("failed to open the repository");
            reveal_strlit("failed to enumerate the repository's references");
            reveal_strlit("an object id did not resolve to a commit");
            reveal_strlit("a revision did not resolve to a tree");
            reveal_strlit("failed to read a blob's content");
            reveal_strlit("failed to enumerate the changes between two trees");
            reveal_strlit("a blob is too large for the line-diff primitive");
        }
        r
    }
}

} // verus!
