//! Structured tree diffs: per-file change classification and per-line change
//! records between the trees of two revisions.

use vstd::prelude::*;

use crate::git::adapter::{
    MAX_DIFF_BYTES, TreeChange, classify_change, diff_byte_counts, find_tree,
    is_highlight_result, line_diff_counts, read_blob, resolve_tree_id, syntax_highlight_content,
    tree_changes,
};
use crate::git::error::GitError;
use crate::text::{bytes_to_display, lossy_str};

verus! {

/// The full set of file-level changes between two tree snapshots.
#[derive(Debug)]
pub struct CommitDiff {
    pub old_commit: String,
    pub new_commit: String,
    pub changes: Vec<FileChange>,
}

/// One changed file: its classification, line counts and per-line breakdown.
#[derive(Debug)]
pub struct FileChange {
    pub path: String,
    pub change_type: ChangeType,
    pub lines_added: usize,
    pub lines_removed: usize,
    pub source_path: Option<String>,
    pub diff_lines: Vec<DiffLine>,
}

/// How a file changed between the two trees.
#[derive(Debug, Clone, Copy, PartialEq, Eq, Structural)]
pub enum ChangeType {
    Added,
    Deleted,
    Modified,
    Renamed,
    Copied,
}

/// One line of a file's diff, with an optional highlighted rendering.
#[derive(Debug)]
pub struct DiffLine {
    pub line_type: DiffLineType,
    pub content: String,
    pub syntax_highlighted: Option<String>,
}

/// The role of one line in a diff.
#[derive(Debug, Clone, Copy, PartialEq, Eq, Structural)]
pub enum DiffLineType {
    Added,
    Removed,
    Context,
}

/// A change carries a source path exactly when it is a rename or a copy.
pub open spec fn source_path_consistent(c: FileChange) -> bool {
    (c.change_type == ChangeType::Renamed || c.change_type == ChangeType::Copied)
        <==> c.source_path is Some
}

/// The number of line feeds in `data`.
pub open spec fn spec_count_lines(data: Seq<u8>) -> nat
    decreases data.len(),
{
    if data.len() == 0 {
        0
    } else {
        (if data.first() == 10 {
            1nat
        } else {
            0nat
        }) + spec_count_lines(data.drop_first())
    }
}

/// The index of the first line feed in `data`, or `data.len()` if none.
pub open spec fn find_nl(data: Seq<u8>) -> int
    decreases data.len(),
{
    if data.len() == 0 {
        0
    } else if data.first() == 10 {
        0
    } else {
        1 + find_nl(data.drop_first())
    }
}

/// A line with one trailing carriage return stripped.
pub open spec fn strip_cr(line: Seq<u8>) -> Seq<u8> {
    if line.len() > 0 && line.last() == 13 {
        line.drop_last()
    } else {
        line
    }
}

pub proof fn lemma_find_nl_bounds(data: Seq<u8>)
    ensures
        0 <= find_nl(data) <= data.len(),
        find_nl(data) < data.len() ==> data[find_nl(data)] == 10,
        forall|j: int| 0 <= j < find_nl(data) ==> data[j] != 10,
    decreases data.len(),
{
    if data.len() > 0 && data.first() != 10 {
        lemma_find_nl_bounds(data.drop_first());
        assert forall|j: int| 0 <= j < find_nl(data) implies data[j] != 10 by {
            if j > 0 {
                assert(data.drop_first()[j - 1] == data[j]);
            }
        }
    }
}

/// The first line feed is the only index with its properties.
pub proof fn lemma_find_nl_is(data: Seq<u8>, f: int)
    requires
        0 <= f <= data.len(),
        f < data.len() ==> data[f] == 10,
        forall|m: int| 0 <= m < f ==> data[m] != 10,
    ensures
        find_nl(data) == f,
{
    lemma_find_nl_bounds(data);
    if find_nl(data) < f {
        assert(data[find_nl(data)] == 10);
    } else if f < find_nl(data) {
        assert(data[f] != 10);
    }
}

/// The lines of `data`: split at line feeds, each stripped of one trailing
/// carriage return; a trailing line feed opens no further line.
pub open spec fn spec_split_lines(data: Seq<u8>) -> Seq<Seq<u8>>
    decreases data.len(),
    via spec_split_lines_decreases
{
    if data.len() == 0 {
        Seq::empty()
    } else {
        let i = find_nl(data);
        if i == data.len() {
            seq![strip_cr(data)]
        } else {
            seq![strip_cr(data.take(i))] + spec_split_lines(data.skip(i + 1))
        }
    }
}

#[via_fn]
proof fn spec_split_lines_decreases(data: Seq<u8>) {
    lemma_find_nl_bounds(data);
}

/// Count the line feeds in `data`.
pub fn count_lines(data: &[u8]) -> (r: usize)
    ensures
        r == spec_count_lines(data@),
{
    let mut count: usize = 0;
    let n: usize = data.len();
    proof {
        assert(data@.skip(0) =~= data@);
    }
    for i in 0..n
        invariant
            n == data@.len(),
            count <= i,
            count + spec_count_lines(data@.skip(i as int)) == spec_count_lines(data@),
    {
        proof {
            assert(data@.skip(i as int).first() == data@[i as int]);
            assert(data@.skip(i as int).drop_first() =~= data@.skip(i + 1));
        }
        if data[i] == 10 {
            count += 1;
        }
    }
    proof {
        assert(data@.skip(n as int) =~= Seq::<u8>::empty());
    }
    count
}

/// The byte views of a vector of lines.
pub open spec fn line_views(s: Seq<Vec<u8>>) -> Seq<Seq<u8>> {
    s.map_values(|v: Vec<u8>| v@)
}

/// Split `data` into its lines, as [`spec_split_lines`] describes.
pub fn split_lines(data: &[u8]) -> (r: Vec<Vec<u8>>)
    ensures
        line_views(r@) == spec_split_lines(data@),
{
    let mut r: Vec<Vec<u8>> = Vec::new();
    let mut pos: usize = 0;
    let n: usize = data.len();
    proof {
        assert(data@.skip(0) =~= data@);
        assert(line_views(r@) =~= Seq::<Seq<u8>>::empty());
    }
    while pos < n
        invariant
            pos <= n,
            n == data@.len(),
            line_views(r@) + spec_split_lines(data@.skip(pos as int)) == spec_split_lines(data@),
        decreases n - pos,
    {
        let ghost t = data@.skip(pos as int);
        let mut j: usize = pos;
        while j < n && data[j] != 10
            invariant
                pos <= j <= n,
                n == data@.len(),
                forall|m: int| pos <= m < j ==> data@[m] != 10,
            decreases n - j,
        {
            j += 1;
        }
        proof {
            assert forall|m: int| 0 <= m < j - pos implies t[m] != 10 by {
                assert(t[m] == data@[pos + m]);
            }
            if j < n {
                assert(t[j - pos] == data@[j as int]);
            }
            lemma_find_nl_is(t, j - pos);
        }
        let end: usize = if j > pos && data[j - 1] == 13 {
            j - 1
        } else {
            j
        };
        let mut line: Vec<u8> = Vec::new();
        line.extend_from_slice(&data[pos..end]);
        proof {
            assert(line@ =~= data@.subrange(pos as int, end as int));
            if j == n {
                assert(strip_cr(t) =~= data@.subrange(pos as int, end as int));
                assert(spec_split_lines(t) == seq![strip_cr(t)]);
            } else {
                assert(t.take(j - pos) =~= data@.subrange(pos as int, j as int));
                assert(strip_cr(t.take(j - pos)) =~= data@.subrange(pos as int, end as int));
                assert(t.skip(j - pos + 1) =~= data@.skip(j + 1));
            }
        }
        r.push(line);
        proof {
            assert(line_views(r@) =~= line_views(r@.drop_last()).push(line@));
        }
        if j < n {
            pos = j + 1;
        } else {
            pos = n;
        }
        proof {
            assert(line_views(r@) + spec_split_lines(data@.skip(pos as int)) =~= spec_split_lines(
                data@,
            ));
        }
    }
    proof {
        assert(data@.skip(n as int) =~= Seq::<u8>::empty());
        assert(line_views(r@) =~= spec_split_lines(data@));
    }
    r
}

/// The lossy text of each line of a split blob.
fn display_lines(lines: &Vec<Vec<u8>>) -> (r: Vec<String>)
    ensures
        r@.len() == lines@.len(),
        forall|i: int| 0 <= i < r@.len() ==> (#[trigger] r@[i])@ == lossy_str(lines@[i]@),
{
    let mut r: Vec<String> = Vec::new();
    let n: usize = lines.len();
    for i in 0..n
        invariant
            n == lines@.len(),
            r@.len() == i,
            forall|m: int| 0 <= m < i ==> (#[trigger] r@[m])@ == lossy_str(lines@[m]@),
    {
        r.push(bytes_to_display(lines[i].as_slice()));
    }
    r
}

/// The record for a newly added file: the count is the blob's total line
/// count, every line tagged added and left unannotated.
pub fn added_change(path: String, data: &[u8]) -> (r: FileChange)
    ensures
        r.change_type == ChangeType::Added,
        r.path == path,
        r.lines_added == spec_split_lines(data@).len(),
        r.lines_removed == 0,
        r.source_path is None,
        source_path_consistent(r),
        r.diff_lines@.len() == spec_split_lines(data@).len(),
        forall|i: int|
            0 <= i < r.diff_lines@.len() ==> {
                &&& (#[trigger] r.diff_lines@[i]).line_type == DiffLineType::Added
                &&& r.diff_lines@[i].content@ == lossy_str(spec_split_lines(data@)[i])
                &&& r.diff_lines@[i].syntax_highlighted is None
            },
{
    let lines = split_lines(data);
    let mut diff_lines: Vec<DiffLine> = Vec::new();
    let count: usize = lines.len();
    for i in 0..count
        invariant
            count == lines@.len(),
            line_views(lines@) == spec_split_lines(data@),
            diff_lines@.len() == i,
            forall|m: int|
                0 <= m < i ==> {
                    &&& (#[trigger] diff_lines@[m]).line_type == DiffLineType::Added
                    &&& diff_lines@[m].content@ == lossy_str(spec_split_lines(data@)[m])
                    &&& diff_lines@[m].syntax_highlighted is None
                },
    {
        let content = bytes_to_display(lines[i].as_slice());
        proof {
            assert(line_views(lines@)[i as int] == lines@[i as int]@);
        }
        diff_lines.push(
            DiffLine { line_type: DiffLineType::Added, content, syntax_highlighted: None },
        );
    }
    FileChange {
        path,
        change_type: ChangeType::Added,
        lines_added: count,
        lines_removed: 0,
        source_path: None,
        diff_lines,
    }
}

/// The record for a deleted file: the count is the blob's total line count,
/// every line tagged removed and left unannotated.
pub fn deleted_change(path: String, data: &[u8]) -> (r: FileChange)
    ensures
        r.change_type == ChangeType::Deleted,
        r.path == path,
        r.lines_added == 0,
        r.lines_removed == spec_split_lines(data@).len(),
        r.source_path is None,
        source_path_consistent(r),
        r.diff_lines@.len() == spec_split_lines(data@).len(),
        forall|i: int|
            0 <= i < r.diff_lines@.len() ==> {
                &&& (#[trigger] r.diff_lines@[i]).line_type == DiffLineType::Removed
                &&& r.diff_lines@[i].content@ == lossy_str(spec_split_lines(data@)[i])
                &&& r.diff_lines@[i].syntax_highlighted is None
            },
{
    let lines = split_lines(data);
    let mut diff_lines: Vec<DiffLine> = Vec::new();
    let count: usize = lines.len();
    for i in 0..count
        invariant
            count == lines@.len(),
            line_views(lines@) == spec_split_lines(data@),
            diff_lines@.len() == i,
            forall|m: int|
                0 <= m < i ==> {
                    &&& (#[trigger] diff_lines@[m]).line_type == DiffLineType::Removed
                    &&& diff_lines@[m].content@ == lossy_str(spec_split_lines(data@)[m])
                    &&& diff_lines@[m].syntax_highlighted is None
                },
    {
        let content = bytes_to_display(lines[i].as_slice());
        proof {
            assert(line_views(lines@)[i as int] == lines@[i as int]@);
        }
        diff_lines.push(
            DiffLine { line_type: DiffLineType::Removed, content, syntax_highlighted: None },
        );
    }
    FileChange {
        path,
        change_type: ChangeType::Deleted,
        lines_added: 0,
        lines_removed: count,
        source_path: None,
        diff_lines,
    }
}

/// The per-line breakdown a modified file's record must carry: the full old
/// content tagged removed, then the full new content tagged added, each line
/// annotated with exactly what the highlighter yields for it.
pub open spec fn modified_diff_lines_ok(
    r: FileChange,
    path: Seq<char>,
    old_data: Seq<u8>,
    new_data: Seq<u8>,
) -> bool {
    &&& r.diff_lines@.len() == spec_split_lines(old_data).len() + spec_split_lines(new_data).len()
    &&& forall|i: int|
        0 <= i < spec_split_lines(old_data).len() ==> {
            &&& (#[trigger] r.diff_lines@[i]).line_type == DiffLineType::Removed
            &&& r.diff_lines@[i].content@ == lossy_str(spec_split_lines(old_data)[i])
            &&& is_highlight_result(
                r.diff_lines@[i].syntax_highlighted,
                lossy_str(spec_split_lines(old_data)[i]),
                path,
            )
        }
    &&& forall|i: int|
        0 <= i < spec_split_lines(new_data).len() ==> {
            &&& (#[trigger] r.diff_lines@[spec_split_lines(old_data).len() + i]).line_type
                == DiffLineType::Added
            &&& r.diff_lines@[spec_split_lines(old_data).len() + i].content@ == lossy_str(
                spec_split_lines(new_data)[i],
            )
            &&& is_highlight_result(
                r.diff_lines@[spec_split_lines(old_data).len() + i].syntax_highlighted,
                lossy_str(spec_split_lines(new_data)[i]),
                path,
            )
        }
}

/// The record for a modified file, from the line-diff counts the adapter
/// reported: the full old content tagged removed, then the full new content
/// tagged added. Each line is annotated with the highlighter's rendering
/// where one is available; a highlighting failure leaves the line plain and
/// never surfaces as an error.
pub fn modified_change(
    path: String,
    old_data: &[u8],
    new_data: &[u8],
    insertions: u32,
    removals: u32,
) -> (r: FileChange)
    ensures
        r.change_type == ChangeType::Modified,
        r.path == path,
        r.lines_added == insertions,
        r.lines_removed == removals,
        r.source_path is None,
        source_path_consistent(r),
        modified_diff_lines_ok(r, path@, old_data@, new_data@),
{
    let old_lines = split_lines(old_data);
    let new_lines = split_lines(new_data);
    let old_contents = display_lines(&old_lines);
    let new_contents = display_lines(&new_lines);
    let old_marks = syntax_highlight_content(&old_contents, path.as_str());
    let new_marks = syntax_highlight_content(&new_contents, path.as_str());
    proof {
        assert forall|q: int| 0 <= q < old_contents@.len() implies (#[trigger] old_contents@[q])@
            == lossy_str(spec_split_lines(old_data@)[q]) by {
            assert(line_views(old_lines@)[q] == old_lines@[q]@);
        }
        assert forall|q: int| 0 <= q < new_contents@.len() implies (#[trigger] new_contents@[q])@
            == lossy_str(spec_split_lines(new_data@)[q]) by {
            assert(line_views(new_lines@)[q] == new_lines@[q]@);
        }
    }
    let mut diff_lines: Vec<DiffLine> = Vec::new();
    let old_count: usize = old_contents.len();
    for i in 0..old_count
        invariant
            old_count == old_contents@.len(),
            old_count == spec_split_lines(old_data@).len(),
            old_marks@.len() == old_contents@.len(),
            forall|q: int|
                0 <= q < old_contents@.len() ==> (#[trigger] old_contents@[q])@ == lossy_str(
                    spec_split_lines(old_data@)[q],
                ),
            forall|q: int|
                0 <= q < old_marks@.len() ==> is_highlight_result(
                    #[trigger] old_marks@[q],
                    old_contents@[q]@,
                    path@,
                ),
            diff_lines@.len() == i,
            forall|m: int|
                0 <= m < i ==> {
                    &&& (#[trigger] diff_lines@[m]).line_type == DiffLineType::Removed
                    &&& diff_lines@[m].content@ == lossy_str(spec_split_lines(old_data@)[m])
                    &&& is_highlight_result(
                        diff_lines@[m].syntax_highlighted,
                        lossy_str(spec_split_lines(old_data@)[m]),
                        path@,
                    )
                },
    {
        let content = old_contents[i].clone();
        let syntax_highlighted: Option<String> = match &old_marks[i] {
            Some(s) => Some(s.clone()),
            None => None,
        };
        proof {
            assert(content@ == old_contents@[i as int]@);
            assert(is_highlight_result(syntax_highlighted, old_contents@[i as int]@, path@));
        }
        diff_lines.push(
            DiffLine { line_type: DiffLineType::Removed, content, syntax_highlighted },
        );
    }
    let new_count: usize = new_contents.len();
    for i in 0..new_count
        invariant
            old_count == spec_split_lines(old_data@).len(),
            new_count == new_contents@.len(),
            new_count == spec_split_lines(new_data@).len(),
            new_marks@.len() == new_contents@.len(),
            forall|q: int|
                0 <= q < new_contents@.len() ==> (#[trigger] new_contents@[q])@ == lossy_str(
                    spec_split_lines(new_data@)[q],
                ),
            forall|q: int|
                0 <= q < new_marks@.len() ==> is_highlight_result(
                    #[trigger] new_marks@[q],
                    new_contents@[q]@,
                    path@,
                ),
            diff_lines@.len() == old_count + i,
            forall|m: int|
                0 <= m < old_count ==> {
                    &&& (#[trigger] diff_lines@[m]).line_type == DiffLineType::Removed
                    &&& diff_lines@[m].content@ == lossy_str(spec_split_lines(old_data@)[m])
                    &&& is_highlight_result(
                        diff_lines@[m].syntax_highlighted,
                        lossy_str(spec_split_lines(old_data@)[m]),
                        path@,
                    )
                },
            forall|m: int|
                0 <= m < i ==> {
                    &&& (#[trigger] diff_lines@[old_count + m]).line_type == DiffLineType::Added
                    &&& diff_lines@[old_count + m].content@ == lossy_str(
                        spec_split_lines(new_data@)[m],
                    )
                    &&& is_highlight_result(
                        diff_lines@[old_count + m].syntax_highlighted,
                        lossy_str(spec_split_lines(new_data@)[m]),
                        path@,
                    )
                },
    {
        let content = new_contents[i].clone();
        let syntax_highlighted: Option<String> = match &new_marks[i] {
            Some(s) => Some(s.clone()),
            None => None,
        };
        proof {
            assert(content@ == new_contents@[i as int]@);
            assert(is_highlight_result(syntax_highlighted, new_contents@[i as int]@, path@));
        }
        diff_lines.push(DiffLine { line_type: DiffLineType::Added, content, syntax_highlighted });
    }
    FileChange {
        path,
        change_type: ChangeType::Modified,
        lines_added: insertions as usize,
        lines_removed: removals as usize,
        source_path: None,
        diff_lines,
    }
}

/// The record for a modified file straight from its two byte buffers: the
/// line counts are the insertions and removals the line-diff primitive
/// reports for them, the per-line breakdown as in [`modified_change`]. The
/// buffers must fit the line-diff primitive's machine bound; the diff
/// engine tests that bound before calling.
pub fn modified_change_from_bytes(path: String, old_data: &Vec<u8>, new_data: &Vec<u8>) -> (r:
    FileChange)
    requires
        old_data@.len() < MAX_DIFF_BYTES,
        new_data@.len() < MAX_DIFF_BYTES,
    ensures
        r.change_type == ChangeType::Modified,
        r.path == path,
        r.lines_added == line_diff_counts(old_data@, new_data@).0,
        r.lines_removed == line_diff_counts(old_data@, new_data@).1,
        r.source_path is None,
        source_path_consistent(r),
        modified_diff_lines_ok(r, path@, old_data@, new_data@),
{
    let counts = diff_byte_counts(old_data, new_data);
    modified_change(path, old_data.as_slice(), new_data.as_slice(), counts.0, counts.1)
}

/// The record for a rename or a copy: counts from the adapter's reported
/// stats where present, otherwise zero; the per-line breakdown is left
/// empty.
pub fn rewrite_change(path: String, source_path: String, copy: bool, stats: Option<(u32, u32)>)
    -> (r: FileChange)
    ensures
        r.change_type == (if copy {
            ChangeType::Copied
        } else {
            ChangeType::Renamed
        }),
        r.path == path,
        r.source_path == Some(source_path),
        r.lines_added == (match stats {
            Some(s) => s.0 as usize,
            None => 0usize,
        }),
        r.lines_removed == (match stats {
            Some(s) => s.1 as usize,
            None => 0usize,
        }),
        r.diff_lines@.len() == 0,
        source_path_consistent(r),
{
    let (lines_added, lines_removed): (usize, usize) = match stats {
        Some(s) => (s.0 as usize, s.1 as usize),
        None => (0, 0),
    };
    FileChange {
        path,
        change_type: if copy {
            ChangeType::Copied
        } else {
            ChangeType::Renamed
        },
        lines_added,
        lines_removed,
        source_path: Some(source_path),
        diff_lines: Vec::new(),
    }
}

/// Whether a raw tree-entry mode denotes a blob (an ordinary or executable
/// file), following git's mode layout.
pub open spec fn spec_mode_is_blob(mode: u16) -> bool {
    mode & 0o170000u16 == 0o100000u16
}

/// Whether a raw tree-entry mode denotes a symbolic link.
pub open spec fn spec_mode_is_link(mode: u16) -> bool {
    mode & 0o170000u16 == 0o120000u16
}

/// Whether a raw tree-entry mode denotes a blob or a symbolic link.
pub open spec fn spec_mode_is_blob_or_symlink(mode: u16) -> bool {
    spec_mode_is_blob(mode) || spec_mode_is_link(mode)
}

pub fn mode_is_blob(mode: u16) -> (r: bool)
    ensures
        r == spec_mode_is_blob(mode),
{
    mode & 0o170000u16 == 0o100000u16
}

pub fn mode_is_blob_or_symlink(mode: u16) -> (r: bool)
    ensures
        r == spec_mode_is_blob_or_symlink(mode),
{
    let kind = mode & 0o170000u16;
    kind == 0o100000u16 || kind == 0o120000u16
}

/// Whether the diff engine records a change: blob or symlink entries for
/// additions and deletions, blob entries for modifications, every rewrite.
pub open spec fn recordable(c: TreeChange) -> bool {
    match c {
        TreeChange::Addition { entry_mode, .. } => spec_mode_is_blob_or_symlink(entry_mode),
        TreeChange::Deletion { entry_mode, .. } => spec_mode_is_blob_or_symlink(entry_mode),
        TreeChange::Modification { entry_mode, .. } => spec_mode_is_blob(entry_mode),
        TreeChange::Rewrite { .. } => true,
    }
}

/// The recordable changes among the adapter's records, in enumeration order.
pub open spec fn recordable_changes(raw: Seq<TreeChange>) -> Seq<TreeChange> {
    raw.filter(|c: TreeChange| recordable(c))
}

/// What a recorded file change must look like, judged from the adapter's
/// record alone: classification, paths and whatever counts depend only on
/// the record.
pub open spec fn matches_tree_change(f: FileChange, c: TreeChange) -> bool {
    match c {
        TreeChange::Addition { path, .. } => {
            &&& f.change_type == ChangeType::Added
            &&& f.path@ == path@
            &&& f.lines_removed == 0
            &&& f.source_path is None
        },
        TreeChange::Deletion { path, .. } => {
            &&& f.change_type == ChangeType::Deleted
            &&& f.path@ == path@
            &&& f.lines_added == 0
            &&& f.source_path is None
        },
        TreeChange::Modification { path, .. } => {
            &&& f.change_type == ChangeType::Modified
            &&& f.path@ == path@
            &&& f.source_path is None
        },
        TreeChange::Rewrite { path, source_path, copy, stats } => {
            &&& f.change_type == (if copy {
                ChangeType::Copied
            } else {
                ChangeType::Renamed
            })
            &&& f.path@ == path@
            &&& (f.source_path matches Some(sp) && sp@ == source_path@)
            &&& f.lines_added == (match stats {
                Some(s) => s.0 as usize,
                None => 0usize,
            })
            &&& f.lines_removed == (match stats {
                Some(s) => s.1 as usize,
                None => 0usize,
            })
            &&& f.diff_lines@.len() == 0
        },
    }
}

proof fn lemma_recordable_changes_push(s: Seq<TreeChange>, c: TreeChange)
    ensures
        recordable(c) ==> recordable_changes(s.push(c)) == recordable_changes(s).push(c),
        !recordable(c) ==> recordable_changes(s.push(c)) == recordable_changes(s),
{
    broadcast use vstd::seq_lib::group_seq_lib_default;

    reveal_with_fuel(Seq::<_>::filter, 3);
    let pred = |x: TreeChange| recordable(x);
    let single = seq![c];
    assert(single.drop_last() =~= Seq::<TreeChange>::empty());
    assert(Seq::<TreeChange>::empty().filter(pred) == Seq::<TreeChange>::empty());
    assert(single.filter(pred) == (if pred(c) {
        Seq::<TreeChange>::empty().push(c)
    } else {
        Seq::<TreeChange>::empty()
    }));
    assert(s.push(c) =~= s + single);
    assert((s + single).filter(pred) == s.filter(pred) + single.filter(pred));
    if recordable(c) {
        assert(s.filter(pred) + single.filter(pred) =~= s.filter(pred).push(c));
    } else {
        assert(s.filter(pred) + single.filter(pred) =~= s.filter(pred));
    }
}

/// Build the file-change record for each recordable change the adapter
/// enumerated, in enumeration order — no change duplicated or dropped but
/// the non-recordable ones. The first resolution failure aborts the whole
/// computation with its error.
pub fn changes_from_tree_changes(repo: &gix::Repository, raw: &Vec<TreeChange>) -> (r: Result<
    Vec<FileChange>,
    GitError,
>)
    ensures
        r matches Ok(cs) ==> {
            &&& cs@.len() == recordable_changes(raw@).len()
            &&& forall|i: int|
                0 <= i < cs@.len() ==> matches_tree_change(
                    #[trigger] cs@[i],
                    recordable_changes(raw@)[i],
                ) && source_path_consistent(cs@[i])
        },
        (forall|i: int|
            0 <= i < raw@.len() ==> (#[trigger] raw@[i]) is Rewrite) ==> r is Ok,
{
    let mut cs: Vec<FileChange> = Vec::new();
    let n: usize = raw.len();
    proof {
        assert(raw@.take(0) =~= Seq::<TreeChange>::empty());
        assert(recordable_changes(Seq::<TreeChange>::empty()) =~= Seq::<TreeChange>::empty());
    }
    for idx in 0..n
        invariant
            n == raw@.len(),
            cs@.len() == recordable_changes(raw@.take(idx as int)).len(),
            forall|i: int|
                0 <= i < cs@.len() ==> matches_tree_change(
                    #[trigger] cs@[i],
                    recordable_changes(raw@.take(idx as int))[i],
                ) && source_path_consistent(cs@[i]),
    {
        match &raw[idx] {
            TreeChange::Addition { path, entry_mode, id } => {
                if mode_is_blob_or_symlink(*entry_mode) {
                    let data = read_blob(repo, id)?;
                    cs.push(added_change(path.clone(), data.as_slice()));
                }
            },
            TreeChange::Deletion { path, entry_mode, id } => {
                if mode_is_blob_or_symlink(*entry_mode) {
                    let data = read_blob(repo, id)?;
                    cs.push(deleted_change(path.clone(), data.as_slice()));
                }
            },
            TreeChange::Modification { path, entry_mode, previous_id, id } => {
                if mode_is_blob(*entry_mode) {
                    let old_data = read_blob(repo, previous_id)?;
                    let new_data = read_blob(repo, id)?;
                    if old_data.len() >= MAX_DIFF_BYTES || new_data.len() >= MAX_DIFF_BYTES {
                        return Err(GitError::BlobTooLarge);
                    }
                    cs.push(modified_change_from_bytes(path.clone(), &old_data, &new_data));
                }
            },
            TreeChange::Rewrite { path, source_path, copy, stats } => {
                cs.push(rewrite_change(path.clone(), source_path.clone(), *copy, *stats));
            },
        }
        proof {
            assert(raw@.take(idx + 1) =~= raw@.take(idx as int).push(raw@[idx as int]));
            lemma_recordable_changes_push(raw@.take(idx as int), raw@[idx as int]);
        }
    }
    proof {
        assert(raw@.take(n as int) =~= raw@);
    }
    Ok(cs)
}

/// Compute the structured diff between the trees of two revisions.
///
/// Both revisions are resolved to trees; the changes between them are
/// enumerated with path tracking and rewrite detection, and each recordable
/// one becomes a `FileChange`, in enumeration order. Every recorded change
/// carries a source path exactly when it is a rename or a copy. Any
/// resolution or diff failure aborts the computation with its error —
/// no partial diff is returned.
pub fn get_commit_diff(repo: &gix::Repository, old_commit: &str, new_commit: &str) -> (r: Result<
    CommitDiff,
    GitError,
>)
    ensures
        r matches Ok(d) ==> {
            &&& d.old_commit@ == old_commit@
            &&& d.new_commit@ == new_commit@
            &&& forall|i: int|
                0 <= i < d.changes@.len() ==> source_path_consistent(#[trigger] d.changes@[i])
        },
{
    let old_tree_id = resolve_tree_id(repo, old_commit)?;
    let new_tree_id = resolve_tree_id(repo, new_commit)?;
    let old_tree = find_tree(repo, &old_tree_id)?;
    let new_tree = find_tree(repo, &new_tree_id)?;
    let detached = tree_changes(&old_tree, &new_tree)?;
    let mut raw: Vec<TreeChange> = Vec::new();
    let n: usize = detached.len();
    for i in 0..n
        invariant
            n == detached@.len(),
    {
        raw.push(classify_change(&detached[i]));
    }
    let changes = changes_from_tree_changes(repo, &raw)?;
    Ok(
        CommitDiff {
            old_commit: old_commit.to_owned(),
            new_commit: new_commit.to_owned(),
            changes,
        },
    )
}

} // verus!
