//! Commit-graph data model: object identifiers and commit projections.

pub mod adapter;
pub mod diff;
pub mod error;
pub mod render;
pub mod walk;

use vstd::prelude::*;

use crate::git::error::GitError;
use crate::git::walk::id_views;
use crate::text::{hex_string, spec_hex};

verus! {

/// An opaque, content-addressed identifier of a commit, tree or blob.
///
/// Held by value everywhere; its mathematical model is its byte sequence.
pub struct ObjectId {
    pub bytes: Vec<u8>,
}

impl View for ObjectId {
    type V = Seq<u8>;

    open spec fn view(&self) -> Seq<u8> {
        self.bytes@
    }
}

impl ObjectId {
    /// Wrap raw hash bytes as an identifier.
    pub fn new(bytes: Vec<u8>) -> (r: ObjectId)
        ensures
            r@ == bytes@,
    {
        ObjectId { bytes }
    }

    /// Value equality of two identifiers.
    pub fn same(&self, other: &ObjectId) -> (r: bool)
        ensures
            r <==> self@ == other@,
    {
        let r = self.bytes == other.bytes;
        proof {
            if r {
                assert(self.bytes@ =~= other.bytes@);
            }
        }
        r
    }

    /// An identifier with the same bytes.
    pub fn duplicate(&self) -> (r: ObjectId)
        ensures
            r@ == self@,
    {
        let bytes = self.bytes.clone();
        proof {
            assert(bytes@ =~= self.bytes@);
        }
        ObjectId { bytes }
    }

    /// The lower-case hexadecimal form of the identifier.
    pub fn to_hex(&self) -> (r: String)
        ensures
            r@ == spec_hex(self@),
    {
        hex_string(self.bytes.as_slice())
    }
}

/// `cs` holds one commit per id of `ids`, in order, each with the id's
/// lower-case hexadecimal form as its hash and no diff attached.
pub open spec fn commits_match_ids(cs: Seq<GitCommit>, ids: Seq<Seq<u8>>) -> bool {
    &&& cs.len() == ids.len()
    &&& forall|i: int|
        0 <= i < cs.len() ==> (#[trigger] cs[i]).hash@ == spec_hex(ids[i]) && cs[i].diff is None
}

/// `cs` is the projection of some commit id sequence, one commit per id in
/// order, as [`commits_match_ids`] describes.
pub open spec fn is_commit_projection(cs: Seq<GitCommit>) -> bool {
    exists|ids: Seq<Seq<u8>>| commits_match_ids(cs, ids)
}

/// A read-only projection of a stored commit.
#[derive(Debug)]
pub struct GitCommit {
    pub hash: String,
    pub title: String,
    pub body: Option<String>,
    pub author: String,
    pub date_seconds: i64,
    pub diff: Option<String>,
}

impl GitCommit {
    /// Assemble a commit projection from resolved parts; the hash is the
    /// lower-case hexadecimal form of the id.
    pub fn from_parts(
        id: &ObjectId,
        author: String,
        date_seconds: i64,
        title: String,
        body: Option<String>,
    ) -> (r: GitCommit)
        ensures
            r.hash@ == spec_hex(id@),
            r.title == title,
            r.body == body,
            r.author == author,
            r.date_seconds == date_seconds,
            r.diff is None,
    {
        GitCommit { hash: id.to_hex(), title, body, author, date_seconds, diff: None }
    }

    /// One commit projection per id of `ids`, in order: each holds that id's
    /// hexadecimal form as its hash, no diff, and the author, time and
    /// message resolved through the object store. The first resolution
    /// failure aborts the whole collection with its error.
    pub fn from_ids(repo: &gix::Repository, ids: &Vec<ObjectId>) -> (r: Result<
        Vec<GitCommit>,
        GitError,
    >)
        ensures
            r matches Ok(cs) ==> commits_match_ids(cs@, id_views(ids@)),
    {
        let mut commits: Vec<GitCommit> = Vec::new();
        let n: usize = ids.len();
        for i in 0..n
            invariant
                n == ids@.len(),
                commits@.len() == i,
                forall|m: int|
                    0 <= m < i ==> (#[trigger] commits@[m]).hash@ == spec_hex(id_views(ids@)[m])
                        && commits@[m].diff is None,
        {
            let details = crate::git::adapter::commit_details(&repo, &ids[i])?;
            let (author, seconds, title, body) = details;
            let commit = GitCommit::from_parts(&ids[i], author, seconds, title, body);
            proof {
                assert(commit.hash@ == spec_hex(id_views(ids@)[i as int]));
            }
            commits.push(commit);
        }
        Ok(commits)
    }

    /// Every commit of the repository at `repo_path`: the head commit and all
    /// its ancestors, in traversal order, one projection per walked id as
    /// [`GitCommit::from_ids`] describes. The first resolution failure
    /// aborts the whole collection with its error.
    pub fn from_repo(repo_path: &str) -> (r: Result<Vec<GitCommit>, GitError>)
        ensures
            r matches Ok(cs) ==> is_commit_projection(cs@),
    {
        let repo = crate::git::adapter::open_repo(repo_path)?;
        let ids = crate::git::adapter::head_ancestor_ids(&repo)?;
        let result = Self::from_ids(&repo, &ids);
        proof {
            if result is Ok {
                assert(commits_match_ids(result->Ok_0@, id_views(ids@)));
                assert(is_commit_projection(result->Ok_0@));
            }
        }
        result
    }
}

} // verus!
