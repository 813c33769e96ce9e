use timex_core::git::diff::{
    ChangeType, CommitDiff, DiffLine, DiffLineType, added_change, count_lines, deleted_change,
    modified_change_from_bytes, rewrite_change, split_lines,
};
use timex_core::git::error::GitError;

#[test]
fn test_added_three_line_blob() {
    let c = added_change("notes.txt".to_string(), b"x\ny\nz\n");
    assert!(matches!(c.change_type, ChangeType::Added));
    assert_eq!(c.lines_added, 3);
    assert_eq!(c.lines_removed, 0);
    assert!(c.source_path.is_none());
    assert_eq!(c.diff_lines.len(), 3);
    for line in &c.diff_lines {
        assert!(matches!(line.line_type, DiffLineType::Added));
        assert!(line.syntax_highlighted.is_none());
    }
    assert_eq!(c.diff_lines[0].content, "x");
    assert_eq!(c.diff_lines[1].content, "y");
    assert_eq!(c.diff_lines[2].content, "z");
}

#[test]
fn test_deleted_blob_tags_removed() {
    let c = deleted_change("gone.txt".to_string(), b"one\ntwo\n");
    assert!(matches!(c.change_type, ChangeType::Deleted));
    assert_eq!(c.lines_added, 0);
    assert_eq!(c.lines_removed, 2);
    assert_eq!(c.diff_lines.len(), 2);
    for line in &c.diff_lines {
        assert!(matches!(line.line_type, DiffLineType::Removed));
    }
}

#[test]
fn test_modified_counts_and_full_content() {
    let c = modified_change_from_bytes(
        "f.txt".to_string(),
        &b"a\nb\n".to_vec(),
        &b"a\nc\n".to_vec(),
    );
    assert!(matches!(c.change_type, ChangeType::Modified));
    assert_eq!(c.lines_added, 1, "one inserted line");
    assert_eq!(c.lines_removed, 1, "one removed line");
    assert_eq!(c.diff_lines.len(), 4, "full content, not a minimal script");
    assert!(matches!(c.diff_lines[0].line_type, DiffLineType::Removed));
    assert!(matches!(c.diff_lines[1].line_type, DiffLineType::Removed));
    assert!(matches!(c.diff_lines[2].line_type, DiffLineType::Added));
    assert!(matches!(c.diff_lines[3].line_type, DiffLineType::Added));
    assert_eq!(c.diff_lines[0].content, "a");
    assert_eq!(c.diff_lines[1].content, "b");
    assert_eq!(c.diff_lines[2].content, "a");
    assert_eq!(c.diff_lines[3].content, "c");
}

#[test]
fn test_modified_identical_content_counts_zero() {
    let c = modified_change_from_bytes(
        "same.txt".to_string(),
        &b"a\nb\n".to_vec(),
        &b"a\nb\n".to_vec(),
    );
    assert_eq!(c.lines_added, 0);
    assert_eq!(c.lines_removed, 0);
    assert_eq!(c.diff_lines.len(), 4);
}

#[test]
fn test_modified_keeps_plain_content_whatever_highlighting() {
    let c = modified_change_from_bytes(
        "code.rs".to_string(),
        &b"let a = 1;\n".to_vec(),
        &b"let a = 2;\n".to_vec(),
    );
    assert_eq!(c.diff_lines[0].content, "let a = 1;");
    assert_eq!(c.diff_lines[1].content, "let a = 2;");
    assert!(matches!(c.diff_lines[0].line_type, DiffLineType::Removed));
    assert!(matches!(c.diff_lines[1].line_type, DiffLineType::Added));
}

#[test]
fn test_highlighting_annotates_known_extension() {
    let c = modified_change_from_bytes(
        "code.rs".to_string(),
        &b"fn main() {}\n".to_vec(),
        &b"fn main() { }\n".to_vec(),
    );
    let rendered = c.diff_lines[0]
        .syntax_highlighted
        .as_ref()
        .expect("highlighting should be available for a Rust file");
    assert!(rendered.contains('\u{1b}'), "terminal escapes expected");
    assert_ne!(rendered, &c.diff_lines[0].content);
}

#[test]
fn test_rewrite_records_source_path() {
    let r = rewrite_change("new.rs".to_string(), "old.rs".to_string(), false, Some((3, 1)));
    assert!(matches!(r.change_type, ChangeType::Renamed));
    assert_eq!(r.source_path.as_deref(), Some("old.rs"));
    assert_eq!(r.lines_added, 3);
    assert_eq!(r.lines_removed, 1);
    assert!(r.diff_lines.is_empty());

    let c = rewrite_change("a".to_string(), "b".to_string(), true, None);
    assert!(matches!(c.change_type, ChangeType::Copied));
    assert_eq!(c.lines_added, 0);
    assert_eq!(c.lines_removed, 0);
}

#[test]
fn test_source_path_only_for_rewrites() {
    assert!(added_change("a".to_string(), b"x\n").source_path.is_none());
    assert!(deleted_change("d".to_string(), b"x\n").source_path.is_none());
    assert!(
        modified_change_from_bytes("m".to_string(), &b"x\n".to_vec(), &b"y\n".to_vec())
            .source_path
            .is_none()
    );
    assert!(
        rewrite_change("n".to_string(), "o".to_string(), false, None).source_path.is_some()
    );
}

#[test]
fn test_count_lines_counts_line_feeds() {
    assert_eq!(count_lines(b""), 0);
    assert_eq!(count_lines(b"a\nb"), 1);
    assert_eq!(count_lines(b"a\nb\n"), 2);
}

#[test]
fn test_split_lines_semantics() {
    let ls = split_lines(b"a\r\nb\nlast");
    assert_eq!(ls, vec![b"a".to_vec(), b"b".to_vec(), b"last".to_vec()]);
    assert!(split_lines(b"").is_empty());
    assert_eq!(split_lines(b"x\n"), vec![b"x".to_vec()]);
}

#[test]
fn test_lossy_decoding_of_blob_content() {
    let c = added_change("café.txt".to_string(), b"caf\xc3\xa9\n\xff\n");
    assert_eq!(c.diff_lines[0].content, "café");
    assert_eq!(c.diff_lines[1].content, "\u{fffd}");
}

#[test]
fn test_render_line_plain_prefers_highlighted() {
    let plain = DiffLine {
        line_type: DiffLineType::Removed,
        content: "plain".to_string(),
        syntax_highlighted: None,
    };
    assert_eq!(plain.render_plain(), "- plain");
    let highlighted = DiffLine {
        line_type: DiffLineType::Added,
        content: "x".to_string(),
        syntax_highlighted: Some("HIGH".to_string()),
    };
    assert_eq!(highlighted.render_plain(), "+ HIGH");
}

#[test]
fn test_render_file_change_plain() {
    let c = added_change("f.txt".to_string(), b"hi\n");
    assert_eq!(c.render_plain(), "+ f.txt (changes: +1, -0)\n+ hi\n\n");
    let r = rewrite_change("new.rs".to_string(), "old.rs".to_string(), false, Some((2, 0)));
    assert_eq!(r.render_plain(), "R new.rs (from: old.rs) (changes: +2, -0)\n\n");
}

#[test]
fn test_render_multi_digit_counts() {
    let r = rewrite_change("w.rs".to_string(), "v.rs".to_string(), true, Some((12, 345)));
    assert_eq!(r.render_plain(), "C w.rs (from: v.rs) (changes: +12, -345)\n\n");
}

#[test]
fn test_render_commit_diff_plain() {
    let d = CommitDiff {
        old_commit: "abc".to_string(),
        new_commit: "def".to_string(),
        changes: vec![],
    };
    assert_eq!(d.render_plain(), "Commit diff abc -> def\n");
}

#[test]
fn test_error_descriptions() {
    assert!(!GitError::OpenRepo.describe().is_empty());
    assert!(!GitError::TreeDiff.describe().is_empty());
    assert_eq!(GitError::TreeDiff, GitError::TreeDiff);
    assert_ne!(GitError::TreeDiff, GitError::OpenRepo);
}

#[test]
fn test_render_coloured_keeps_path_text() {
    let c = added_change("f.txt".to_string(), b"hi\n");
    let coloured = c.render();
    assert!(coloured.contains("f.txt"));
    assert!(coloured.contains("hi"));
    let d = CommitDiff {
        old_commit: "abc".to_string(),
        new_commit: "def".to_string(),
        changes: vec![c],
    };
    let whole = d.render();
    assert!(whole.contains("Commit diff "));
    assert!(whole.contains("abc"));
    assert!(whole.contains("def"));
}

#[test]
fn test_added_counts_line_without_trailing_feed() {
    let c = added_change("a.txt".to_string(), b"x");
    assert_eq!(c.lines_added, 1, "a blob of one unterminated line has one line");
    assert_eq!(c.diff_lines.len(), 1);
    let d = deleted_change("d.txt".to_string(), b"x\ny");
    assert_eq!(d.lines_removed, 2);
}
