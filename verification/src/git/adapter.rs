//! Trusted boundary to the object store and the highlighter.
//!
//! Everything the pipeline needs from the `gix` and `syntect` crates passes
//! through the wrappers here; each one converts between outside values and
//! the plain records the verified code works on, and nothing else.

use vstd::prelude::*;

use crate::git::ObjectId;
use crate::git::error::GitError;

use gix::diff::tree_with_rewrites::Change as DetachedChange;

verus! {

#[verifier::external_type_specification]
#[verifier::external_body]
pub struct ExRepository(gix::Repository);

#[verifier::external_type_specification]
#[verifier::external_body]
pub struct ExDetachedChange(DetachedChange);

#[verifier::external_type_specification]
#[verifier::external_body]
pub struct ExTree<'a>(gix::Tree<'a>);

/// A tree-level change reported by the object store, as plain values.
///
/// `entry_mode` carries the raw git tree-entry mode bits of the new side
/// (for a deletion, of the deleted side).
pub enum TreeChange {
    Addition { path: String, entry_mode: u16, id: ObjectId },
    Deletion { path: String, entry_mode: u16, id: ObjectId },
    Modification { path: String, entry_mode: u16, previous_id: ObjectId, id: ObjectId },
    Rewrite { path: String, source_path: String, copy: bool, stats: Option<(u32, u32)> },
}

impl TreeChange {
    /// An addition record from plain parts.
    pub fn addition(path: String, entry_mode: u16, id: Vec<u8>) -> (r: TreeChange)
        ensures
            r == (TreeChange::Addition { path, entry_mode, id: ObjectId { bytes: id } }),
    {
        TreeChange::Addition { path, entry_mode, id: ObjectId { bytes: id } }
    }

    /// A deletion record from plain parts.
    pub fn deletion(path: String, entry_mode: u16, id: Vec<u8>) -> (r: TreeChange)
        ensures
            r == (TreeChange::Deletion { path, entry_mode, id: ObjectId { bytes: id } }),
    {
        TreeChange::Deletion { path, entry_mode, id: ObjectId { bytes: id } }
    }

    /// A modification record from plain parts.
    pub fn modification(path: String, entry_mode: u16, previous_id: Vec<u8>, id: Vec<u8>) -> (r:
        TreeChange)
        ensures
            r == (TreeChange::Modification {
                path,
                entry_mode,
                previous_id: ObjectId { bytes: previous_id },
                id: ObjectId { bytes: id },
            }),
    {
        TreeChange::Modification {
            path,
            entry_mode,
            previous_id: ObjectId { bytes: previous_id },
            id: ObjectId { bytes: id },
        }
    }

    /// A rewrite record from plain parts.
    pub fn rewrite(path: String, source_path: String, copy: bool, stats: Option<(u32, u32)>) -> (r:
        TreeChange)
        ensures
            r == (TreeChange::Rewrite { path, source_path, copy, stats }),
    {
        TreeChange::Rewrite { path, source_path, copy, stats }
    }
}

/// Relies on `gix::open`: opens the repository at `path` on disk.
#[verifier::external_body]
pub(crate) fn open_repo(path: &str) -> (r: Result<gix::Repository, GitError>) {
    gix::open(path).map_err(|_| GitError::OpenRepo)
}

/// Relies on `gix::Repository::references`, `Platform::all` and
/// `Reference::try_id`: the target id of every directly-targeted reference of
/// the repository, in iteration order. A symbolic reference carries no id of
/// its own and is skipped; the reference it points at is iterated on its own.
#[verifier::external_body]
pub(crate) fn reference_tip_ids(repo: &gix::Repository) -> (r: Result<Vec<ObjectId>, GitError>) {
    let refs = repo.references().map_err(|_| GitError::ReferenceIter)?;
    let iter = refs.all().map_err(|_| GitError::ReferenceIter)?;
    let mut out = Vec::new();
    for reference in iter {
        let reference = reference.map_err(|_| GitError::ReferenceIter)?;
        if let Some(id) = reference.try_id() {
            out.push(ObjectId::new(id.detach().as_slice().to_vec()));
        }
    }
    Ok(out)
}

/// Relies on `gix::Repository::find_commit`, `Commit::parent_ids`,
/// `Id::object` and `Object::try_into_commit`: the parent ids of commit `id`,
/// each checked to resolve to a commit object.
#[verifier::external_body]
pub(crate) fn commit_parent_ids(repo: &gix::Repository, id: &ObjectId) -> (r: Result<
    Vec<ObjectId>,
    GitError,
>) {
    let oid = gix::ObjectId::try_from(id.bytes.as_slice()).map_err(
        |_| GitError::CommitResolution,
    )?;
    let commit = repo.find_commit(oid).map_err(|_| GitError::CommitResolution)?;
    let mut out = Vec::new();
    for pid in commit.parent_ids() {
        let obj = pid.object().map_err(|_| GitError::CommitResolution)?;
        let parent = obj.try_into_commit().map_err(|_| GitError::CommitResolution)?;
        out.push(ObjectId::new(parent.id.as_slice().to_vec()));
    }
    Ok(out)
}

/// Relies on `gix::Repository::find_commit`, `Commit::author`, `Commit::time`
/// and `Commit::message`: the author name, time in seconds since the epoch,
/// title and optional body of commit `id`.
#[verifier::external_body]
pub(crate) fn commit_details(repo: &gix::Repository, id: &ObjectId) -> (r: Result<
    (String, i64, String, Option<String>),
    GitError,
>) {
    let oid = gix::ObjectId::try_from(id.bytes.as_slice()).map_err(
        |_| GitError::CommitResolution,
    )?;
    let commit = repo.find_commit(oid).map_err(|_| GitError::CommitResolution)?;
    let author = commit.author().map_err(|_| GitError::CommitResolution)?.name.to_string();
    let seconds = commit.time().map_err(|_| GitError::CommitResolution)?.seconds;
    let msg = commit.message().map_err(|_| GitError::CommitResolution)?;
    let title = msg.title.to_string();
    let body = msg.body().map(|b| b.to_string());
    Ok((author, seconds, title, body))
}

/// Relies on `gix::Repository::head_commit` and `Commit::ancestors`: the ids
/// of the head commit and all its ancestors, in traversal order.
#[verifier::external_body]
pub(crate) fn head_ancestor_ids(repo: &gix::Repository) -> (r: Result<Vec<ObjectId>, GitError>) {
    let head = repo.head_commit().map_err(|_| GitError::CommitResolution)?;
    let walk = head.ancestors().all().map_err(|_| GitError::CommitResolution)?;
    let mut out = Vec::new();
    for info in walk {
        let info = info.map_err(|_| GitError::CommitResolution)?;
        out.push(ObjectId::new(info.id.as_slice().to_vec()));
    }
    Ok(out)
}

/// Relies on `gix::Repository::rev_parse_single`, `Id::object` and
/// `Object::peel_to_tree`: the id of the tree that revision `spec` points at.
#[verifier::external_body]
pub(crate) fn resolve_tree_id(repo: &gix::Repository, spec: &str) -> (r: Result<
    ObjectId,
    GitError,
>) {
    let id = repo.rev_parse_single(spec).map_err(|_| GitError::TreeResolution)?;
    let obj = id.object().map_err(|_| GitError::TreeResolution)?;
    let tree = obj.peel_to_tree().map_err(|_| GitError::TreeResolution)?;
    Ok(ObjectId::new(tree.id.as_slice().to_vec()))
}

/// Relies on `gix::Repository::find_tree`: the tree object with id `id`.
#[verifier::external_body]
pub(crate) fn find_tree<'r>(repo: &'r gix::Repository, id: &ObjectId) -> (r: Result<
    gix::Tree<'r>,
    GitError,
>) {
    let oid = gix::ObjectId::try_from(id.bytes.as_slice()).map_err(|_| GitError::TreeResolution)?;
    repo.find_tree(oid).map_err(|_| GitError::TreeResolution)
}

/// Relies on `gix::Tree::changes` and `Platform::for_each_to_obtain_tree`,
/// with path tracking and rewrite detection switched on: every change turning
/// the old tree into the new one, in enumeration order, detached from the
/// repository.
#[verifier::external_body]
pub(crate) fn tree_changes(old: &gix::Tree<'_>, new: &gix::Tree<'_>) -> (r: Result<
    Vec<DetachedChange>,
    GitError,
>) {
    let mut out = Vec::new();
    let mut platform = old.changes().map_err(|_| GitError::TreeDiff)?;
    platform.options(|o| { o.track_path().track_rewrites(Some(gix::diff::Rewrites::default())); });
    platform.for_each_to_obtain_tree(new, |c| {
        out.push(gix::diff::tree_with_rewrites::ChangeRef::from(c).into_owned());
        Ok(std::ops::ControlFlow::Continue(()))
    }).map_err(|_| GitError::TreeDiff)?;
    Ok(out)
}

/// Relies on the fields of `gix_diff::tree_with_rewrites::Change`: repacks
/// one detached change into the plain record the diff engine works on, one
/// match arm per variant.
#[verifier::external_body]
pub(crate) fn classify_change(c: &DetachedChange) -> (r: TreeChange) {
    match c {
        DetachedChange::Addition { location, entry_mode, id, .. } => TreeChange::addition(location.to_string(), entry_mode.value(), id.as_slice().to_vec()),
        DetachedChange::Deletion { location, entry_mode, id, .. } => TreeChange::deletion(location.to_string(), entry_mode.value(), id.as_slice().to_vec()),
        DetachedChange::Modification { location, entry_mode, previous_id, id, .. } => TreeChange::modification(location.to_string(), entry_mode.value(), previous_id.as_slice().to_vec(), id.as_slice().to_vec()),
        DetachedChange::Rewrite { location, source_location, copy, diff, .. } => TreeChange::rewrite(location.to_string(), source_location.to_string(), *copy, diff.as_ref().map(|d| (d.insertions, d.removals))),
    }
}

/// Relies on `gix::Repository::find_object`: the raw bytes of object `id`.
#[verifier::external_body]
pub(crate) fn read_blob(repo: &gix::Repository, id: &ObjectId) -> (r: Result<Vec<u8>, GitError>) {
    let oid = gix::ObjectId::try_from(id.bytes.as_slice()).map_err(|_| GitError::BlobResolution)?;
    let obj = repo.find_object(oid).map_err(|_| GitError::BlobResolution)?;
    Ok(obj.detach().data)
}

/// The largest byte-buffer length the line-diff primitive accepts: its
/// algorithm asserts that each side's line count is below `i32::MAX`, and a
/// buffer of fewer bytes than that cannot hold that many lines.
pub const MAX_DIFF_BYTES: usize = 0x7fff_ffff;

/// The insertion and removal counts of the line diff between two byte
/// buffers; a function of the buffers alone.
pub uninterp spec fn line_diff_counts(old: Seq<u8>, new: Seq<u8>) -> (u32, u32);

/// Relies on `gix::diff::blob::Diff::compute` with the Myers algorithm over
/// line tokens: counts the inserted and removed lines between two byte
/// buffers. The computation asserts that each side holds fewer lines than
/// fit in an `i32`; the bound on the buffers' byte lengths keeps that
/// assertion unreachable, as lines cannot outnumber bytes.
#[verifier::external_body]
pub(crate) fn diff_byte_counts(old: &Vec<u8>, new: &Vec<u8>) -> (r: (u32, u32))
    requires
        old@.len() < MAX_DIFF_BYTES,
        new@.len() < MAX_DIFF_BYTES,
    ensures
        r == line_diff_counts(old@, new@),
{
    let input = gix::diff::blob::InternedInput::new(old.as_slice(), new.as_slice());
    let d = gix::diff::blob::Diff::compute(gix::diff::blob::Algorithm::Myers, &input);
    (d.count_additions(), d.count_removals())
}

/// What the highlighter yields for one line of text and one path: a function
/// of the two texts alone, `None` where highlighting is unavailable.
pub uninterp spec fn highlight_of(line: Seq<char>, path: Seq<char>) -> Option<Seq<char>>;

/// `rendered` is exactly what the highlighter yields for `content` at `path`.
pub open spec fn is_highlight_result(
    rendered: Option<String>,
    content: Seq<char>,
    path: Seq<char>,
) -> bool {
    match rendered {
        Some(s) => highlight_of(content, path) == Some(s@),
        None => highlight_of(content, path) is None,
    }
}

/// Relies on syntect's `HighlightLines::highlight_line` over the bundled
/// default syntaxes and themes, keyed by the extension of `file_path`: one
/// rendering with terminal colour escapes per input line, or `None` where
/// highlighting is unavailable. The bundled tables are loaded once per call
/// and shared across all the lines.
#[verifier::external_body]
pub(crate) fn syntax_highlight_content(lines: &Vec<String>, file_path: &str) -> (r: Vec<
    Option<String>,
>)
    ensures
        r@.len() == lines@.len(),
        forall|i: int|
            0 <= i < r@.len() ==> ((#[trigger] r@[i]) is Some <==> highlight_of(
                lines@[i]@,
                file_path@,
            ) is Some),
        forall|i: int|
            0 <= i < r@.len() ==> is_highlight_result(#[trigger] r@[i], lines@[i]@, file_path@),
{
    let ps = syntect::parsing::SyntaxSet::load_defaults_newlines();
    let ts = syntect::highlighting::ThemeSet::load_defaults();
    let ext = std::path::Path::new(file_path).extension().and_then(|e| e.to_str()).unwrap_or("");
    let syntax = ps.find_syntax_by_extension(ext).unwrap_or_else(|| ps.find_syntax_plain_text());
    let theme = ts.themes.get("base16-ocean.dark");
    lines.iter().map(|line| {
        let mut h = syntect::easy::HighlightLines::new(syntax, theme?);
        let ranges = h.highlight_line(line, &ps).ok()?;
        Some(syntect::util::as_24_bit_terminal_escaped(&ranges[..], false))
    }).collect()
}

} // verus!
