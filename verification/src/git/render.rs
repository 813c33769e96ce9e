//! Rendering of commit diffs for display.
//!
//! Each record has two renderings: a plain one, specified exactly, and a
//! coloured one that mirrors it with terminal colours applied through the
//! `colored` crate. Whether colour codes are emitted depends on the terminal
//! and environment, so the coloured renderings carry no contract; the choice
//! of what is shown is specified on the plain ones.

use vstd::prelude::*;
use vstd::string::StringExecFns;

use colored::Colorize;

use crate::git::GitCommit;
use crate::git::diff::{ChangeType, CommitDiff, DiffLine, DiffLineType, FileChange};
use crate::text::{decimal_string, push_char, spec_decimal};

verus! {

/// The UTC civil datetime text chrono renders for a timestamp: a function
/// of the seconds alone, the epoch default where the timestamp is out of
/// chrono's range.
pub uninterp spec fn utc_text_of(seconds: i64) -> Seq<char>;

/// Relies on chrono's `DateTime::from_timestamp` and the `Display` of
/// `DateTime<Utc>`: the timestamp rendered as a UTC civil datetime, falling
/// back to the epoch where the timestamp is out of chrono's range.
#[verifier::external_body]
fn utc_datetime_string(seconds: i64) -> (r: String)
    ensures
        r@ == utc_text_of(seconds),
{
    chrono::DateTime::<chrono::Utc>::from_timestamp(seconds, 0).unwrap_or_default().to_string()
}

/// Relies on colored's `Colorize::green`.
#[verifier::external_body]
fn paint_green(s: &str) -> (r: String) {
    s.green().to_string()
}

/// Relies on colored's `Colorize::red`.
#[verifier::external_body]
fn paint_red(s: &str) -> (r: String) {
    s.red().to_string()
}

/// Relies on colored's `Colorize::yellow`.
#[verifier::external_body]
fn paint_yellow(s: &str) -> (r: String) {
    s.yellow().to_string()
}

/// Relies on colored's `Colorize::blue`.
#[verifier::external_body]
fn paint_blue(s: &str) -> (r: String) {
    s.blue().to_string()
}

/// Relies on colored's `Colorize::cyan`.
#[verifier::external_body]
fn paint_cyan(s: &str) -> (r: String) {
    s.cyan().to_string()
}

/// Relies on colored's `Colorize::normal`.
#[verifier::external_body]
fn paint_normal(s: &str) -> (r: String) {
    s.normal().to_string()
}

/// Relies on colored's `Colorize::bright_yellow`.
#[verifier::external_body]
fn paint_bright_yellow(s: &str) -> (r: String) {
    s.bright_yellow().to_string()
}

/// Relies on colored's `Colorize::bright_white`.
#[verifier::external_body]
fn paint_bright_white(s: &str) -> (r: String) {
    s.bright_white().to_string()
}

/// Relies on colored's `Colorize::bright_black`.
#[verifier::external_body]
fn paint_bright_black(s: &str) -> (r: String) {
    s.bright_black().to_string()
}

/// Relies on colored's `Colorize::bright_blue`.
#[verifier::external_body]
fn paint_bright_blue(s: &str) -> (r: String) {
    s.bright_blue().to_string()
}

/// Relies on colored's `Colorize::bright_green`.
#[verifier::external_body]
fn paint_bright_green(s: &str) -> (r: String) {
    s.bright_green().to_string()
}

/// The marker in front of one diff line.
pub open spec fn spec_line_prefix(t: DiffLineType) -> char {
    match t {
        DiffLineType::Added => '+',
        DiffLineType::Removed => '-',
        DiffLineType::Context => ' ',
    }
}

/// The text a diff line shows: its highlighted rendering where one is
/// present, else its plain content.
pub open spec fn spec_display_text(l: DiffLine) -> Seq<char> {
    match l.syntax_highlighted {
        Some(h) => h@,
        None => l.content@,
    }
}

/// The plain rendering of one diff line: its marker, a space, its text.
pub open spec fn spec_render_line_plain(l: DiffLine) -> Seq<char> {
    seq![spec_line_prefix(l.line_type)] + seq![' '] + spec_display_text(l)
}

/// The marker in front of one file change.
pub open spec fn spec_change_symbol(t: ChangeType) -> char {
    match t {
        ChangeType::Added => '+',
        ChangeType::Deleted => '-',
        ChangeType::Modified => 'M',
        ChangeType::Renamed => 'R',
        ChangeType::Copied => 'C',
    }
}

/// The plain renderings of a run of diff lines, one per line.
pub open spec fn spec_render_lines_plain(ls: Seq<DiffLine>) -> Seq<char>
    decreases ls.len(),
{
    if ls.len() == 0 {
        Seq::empty()
    } else {
        spec_render_line_plain(ls[0]) + seq!['\n'] + spec_render_lines_plain(ls.drop_first())
    }
}

/// The plain rendering of one file change: a summary line with its marker,
/// path, optional source path and counts, then each diff line, then a blank
/// line.
pub open spec fn spec_render_file_change_plain(c: FileChange) -> Seq<char> {
    seq![spec_change_symbol(c.change_type)] + seq![' '] + c.path@ + seq![' '] + (
    match c.source_path {
        Some(s) => "(from: "@ + s@ + ") "@,
        None => Seq::<char>::empty(),
    }) + "(changes: +"@ + spec_decimal(c.lines_added as nat) + ", -"@ + spec_decimal(
        c.lines_removed as nat,
    ) + ")\n"@ + spec_render_lines_plain(c.diff_lines@) + seq!['\n']
}

/// The plain renderings of a run of file changes.
pub open spec fn spec_render_changes_plain(cs: Seq<FileChange>) -> Seq<char>
    decreases cs.len(),
{
    if cs.len() == 0 {
        Seq::empty()
    } else {
        spec_render_file_change_plain(cs[0]) + spec_render_changes_plain(cs.drop_first())
    }
}

/// The plain rendering of a whole commit diff: a header with the two ids,
/// then every file change.
pub open spec fn spec_render_commit_diff_plain(d: CommitDiff) -> Seq<char> {
    "Commit diff "@ + d.old_commit@ + " -> "@ + d.new_commit@ + seq!['\n']
        + spec_render_changes_plain(d.changes@)
}

impl DiffLine {
    /// The plain rendering of this line: marker, space, then the highlighted
    /// rendering where one is present, else the plain content.
    pub fn render_plain(&self) -> (r: String)
        ensures
            r@ == spec_render_line_plain(*self),
    {
        let mut r = String::new();
        let prefix: char = match self.line_type {
            DiffLineType::Added => '+',
            DiffLineType::Removed => '-',
            DiffLineType::Context => ' ',
        };
        push_char(&mut r, prefix);
        push_char(&mut r, ' ');
        match &self.syntax_highlighted {
            Some(h) => r.append(h.as_str()),
            None => r.append(self.content.as_str()),
        }
        proof {
            assert(r@ =~= spec_render_line_plain(*self));
        }
        r
    }

    /// The coloured rendering of this line: like the plain one, with the
    /// marker and any unhighlighted content coloured by the line's role.
    pub fn render(&self) -> (r: String) {
        let prefix = match self.line_type {
            DiffLineType::Added => paint_green("+"),
            DiffLineType::Removed => paint_red("-"),
            DiffLineType::Context => paint_normal(" "),
        };
        let content = match &self.syntax_highlighted {
            Some(h) => h.clone(),
            None => match self.line_type {
                DiffLineType::Added => paint_green(self.content.as_str()),
                DiffLineType::Removed => paint_red(self.content.as_str()),
                DiffLineType::Context => paint_normal(self.content.as_str()),
            },
        };
        let mut r = prefix;
        r.append(" ");
        r.append(content.as_str());
        r
    }
}

impl FileChange {
    /// The plain rendering of this change: one summary line, each diff line
    /// on a line of its own, and a closing blank line.
    pub fn render_plain(&self) -> (r: String)
        ensures
            r@ == spec_render_file_change_plain(*self),
    {
        let mut r = String::new();
        let symbol: char = match self.change_type {
            ChangeType::Added => '+',
            ChangeType::Deleted => '-',
            ChangeType::Modified => 'M',
            ChangeType::Renamed => 'R',
            ChangeType::Copied => 'C',
        };
        push_char(&mut r, symbol);
        push_char(&mut r, ' ');
        r.append(self.path.as_str());
        push_char(&mut r, ' ');
        match &self.source_path {
            Some(s) => {
                r.append("(from: ");
                r.append(s.as_str());
                r.append(") ");
            },
            None => {},
        }
        r.append("(changes: +");
        let added = decimal_string(self.lines_added as u64);
        r.append(added.as_str());
        r.append(", -");
        let removed = decimal_string(self.lines_removed as u64);
        r.append(removed.as_str());
        r.append(")\n");
        let ghost header = r@;
        let n: usize = self.diff_lines.len();
        proof {
            assert(self.diff_lines@.skip(0) =~= self.diff_lines@);
        }
        for i in 0..n
            invariant
                n == self.diff_lines@.len(),
                r@ + spec_render_lines_plain(self.diff_lines@.skip(i as int)) == header
                    + spec_render_lines_plain(self.diff_lines@),
        {
            let line = self.diff_lines[i].render_plain();
            r.append(line.as_str());
            push_char(&mut r, '\n');
            proof {
                assert(self.diff_lines@.skip(i as int).drop_first() =~= self.diff_lines@.skip(
                    i + 1,
                ));
                assert(self.diff_lines@.skip(i as int)[0] == self.diff_lines@[i as int]);
                assert(r@ + spec_render_lines_plain(self.diff_lines@.skip(i + 1)) =~= header
                    + spec_render_lines_plain(self.diff_lines@));
            }
        }
        push_char(&mut r, '\n');
        proof {
            assert(self.diff_lines@.skip(n as int) =~= Seq::<DiffLine>::empty());
            assert(r@ =~= spec_render_file_change_plain(*self));
        }
        r
    }

    /// The coloured rendering of this change, mirroring the plain one: the
    /// marker coloured by the change type, the path bright white, the source
    /// path and counts label dimmed, the counts green and red.
    pub fn render(&self) -> (r: String) {
        let symbol = match self.change_type {
            ChangeType::Added => paint_green("+"),
            ChangeType::Deleted => paint_red("-"),
            ChangeType::Modified => paint_yellow("M"),
            ChangeType::Renamed => paint_blue("R"),
            ChangeType::Copied => paint_cyan("C"),
        };
        let mut r = symbol;
        r.append(" ");
        let path = paint_bright_white(self.path.as_str());
        r.append(path.as_str());
        r.append(" ");
        match &self.source_path {
            Some(s) => {
                r.append("(from: ");
                let src = paint_bright_black(s.as_str());
                r.append(src.as_str());
                r.append(") ");
            },
            None => {},
        }
        r.append("(");
        let label = paint_bright_black("changes:");
        r.append(label.as_str());
        r.append(" +");
        let added = paint_green(decimal_string(self.lines_added as u64).as_str());
        r.append(added.as_str());
        r.append(", -");
        let removed = paint_red(decimal_string(self.lines_removed as u64).as_str());
        r.append(removed.as_str());
        r.append(")\n");
        let n: usize = self.diff_lines.len();
        for i in 0..n
            invariant
                n == self.diff_lines@.len(),
        {
            let line = self.diff_lines[i].render();
            r.append(line.as_str());
            r.append("\n");
        }
        r.append("\n");
        r
    }
}

impl CommitDiff {
    /// The plain rendering of this diff: a header naming the old and new
    /// commits, then the rendering of every file change.
    pub fn render_plain(&self) -> (r: String)
        ensures
            r@ == spec_render_commit_diff_plain(*self),
    {
        let mut r = String::new();
        r.append("Commit diff ");
        r.append(self.old_commit.as_str());
        r.append(" -> ");
        r.append(self.new_commit.as_str());
        push_char(&mut r, '\n');
        let ghost header = r@;
        let n: usize = self.changes.len();
        proof {
            assert(self.changes@.skip(0) =~= self.changes@);
        }
        for i in 0..n
            invariant
                n == self.changes@.len(),
                r@ + spec_render_changes_plain(self.changes@.skip(i as int)) == header
                    + spec_render_changes_plain(self.changes@),
        {
            let one = self.changes[i].render_plain();
            r.append(one.as_str());
            proof {
                assert(self.changes@.skip(i as int).drop_first() =~= self.changes@.skip(i + 1));
                assert(self.changes@.skip(i as int)[0] == self.changes@[i as int]);
                assert(r@ + spec_render_changes_plain(self.changes@.skip(i + 1)) =~= header
                    + spec_render_changes_plain(self.changes@));
            }
        }
        proof {
            assert(self.changes@.skip(n as int) =~= Seq::<FileChange>::empty());
            assert(r@ =~= spec_render_commit_diff_plain(*self));
        }
        r
    }

    /// The coloured rendering of this diff, mirroring the plain one with the
    /// two commit ids in bright yellow.
    pub fn render(&self) -> (r: String) {
        let mut r = String::new();
        r.append("Commit diff ");
        let old_id = paint_bright_yellow(self.old_commit.as_str());
        r.append(old_id.as_str());
        r.append(" -> ");
        let new_id = paint_bright_yellow(self.new_commit.as_str());
        r.append(new_id.as_str());
        r.append("\n");
        let n: usize = self.changes.len();
        for i in 0..n
            invariant
                n == self.changes@.len(),
        {
            let one = self.changes[i].render();
            r.append(one.as_str());
        }
        r
    }
}

/// The plain rendering of a commit: its hash line, then an author line where
/// one is present, always a date line, then title and body lines where they
/// are present, and a closing blank line.
pub open spec fn spec_render_commit_plain(c: GitCommit) -> Seq<char> {
    "commit "@ + c.hash@ + seq!['\n'] + (if c.author@.len() > 0 {
        "Author: "@ + c.author@ + seq!['\n']
    } else {
        Seq::<char>::empty()
    }) + "Date: "@ + utc_text_of(c.date_seconds) + seq!['\n'] + (if c.title@.len()
        > 0 {
        "Title: "@ + c.title@ + seq!['\n']
    } else {
        Seq::<char>::empty()
    }) + (match c.body {
        Some(b) => if b@.len() > 0 {
            "Body: "@ + b@ + seq!['\n']
        } else {
            Seq::<char>::empty()
        },
        None => Seq::<char>::empty(),
    }) + seq!['\n']
}

impl GitCommit {
    /// The plain rendering of this commit, as [`spec_render_commit_plain`]
    /// describes.
    pub fn render_plain(&self) -> (r: String)
        ensures
            r@ == spec_render_commit_plain(*self),
    {
        let mut r = String::new();
        r.append("commit ");
        r.append(self.hash.as_str());
        push_char(&mut r, '\n');
        if !self.author.as_str().is_empty() {
            r.append("Author: ");
            r.append(self.author.as_str());
            push_char(&mut r, '\n');
        }
        r.append("Date: ");
        let date = utc_datetime_string(self.date_seconds);
        r.append(date.as_str());
        push_char(&mut r, '\n');
        if !self.title.as_str().is_empty() {
            r.append("Title: ");
            r.append(self.title.as_str());
            push_char(&mut r, '\n');
        }
        match &self.body {
            Some(b) => {
                if !b.as_str().is_empty() {
                    r.append("Body: ");
                    r.append(b.as_str());
                    push_char(&mut r, '\n');
                }
            },
            None => {},
        }
        push_char(&mut r, '\n');
        proof {
            assert(r@ =~= spec_render_commit_plain(*self));
        }
        r
    }

    /// The coloured rendering of this commit: its hash, then author, date and
    /// message where they are present, and a closing blank line.
    pub fn render(&self) -> (r: String) {
        let mut r = paint_bright_yellow("commit");
        r.append(" ");
        let hash = paint_bright_white(self.hash.as_str());
        r.append(hash.as_str());
        r.append("\n");
        if !self.author.as_str().is_empty() {
            let label = paint_bright_blue("Author");
            r.append(label.as_str());
            r.append(": ");
            r.append(self.author.as_str());
            r.append("\n");
        }
        let date_label = paint_bright_blue("Date");
        r.append(date_label.as_str());
        r.append(": ");
        let date = utc_datetime_string(self.date_seconds);
        r.append(date.as_str());
        r.append("\n");
        if !self.title.as_str().is_empty() {
            let label = paint_bright_blue("Title");
            r.append(label.as_str());
            r.append(": ");
            let title = paint_bright_green(self.title.as_str());
            r.append(title.as_str());
            r.append("\n");
        }
        match &self.body {
            Some(body) => {
                if !body.as_str().is_empty() {
                    let label = paint_bright_blue("Body");
                    r.append(label.as_str());
                    r.append(": ");
                    let text = paint_bright_green(body.as_str());
                    r.append(text.as_str());
                    r.append("\n");
                }
            },
            None => {},
        }
        r.append("\n");
        r
    }
}

} // verus!
