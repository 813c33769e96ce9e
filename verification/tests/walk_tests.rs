use timex_core::git::GitCommit;
use timex_core::git::ObjectId;
use timex_core::git::error::GitError;
use timex_core::git::walk::{WalkState, pair_up, walk_graph};

fn oid(b: u8) -> ObjectId {
    ObjectId::new(vec![b; 20])
}

#[test]
fn test_walk_graph_no_duplicates() {
    // A diamond: both sides of the fork lead to the same ancestor.
    let entries = vec![
        (oid(0), vec![oid(1), oid(2)]),
        (oid(1), vec![oid(3)]),
        (oid(2), vec![oid(3)]),
    ];
    let out = walk_graph(vec![oid(0)], &entries);
    assert_eq!(out.len(), 4);
    assert_eq!(out[0].bytes, vec![0u8; 20]);
    assert_eq!(out[1].bytes, vec![1u8; 20]);
    assert_eq!(out[2].bytes, vec![2u8; 20]);
    assert_eq!(out[3].bytes, vec![3u8; 20]);
}

#[test]
fn test_walk_graph_full_reachability_multi_source() {
    // Two references into overlapping history: everything reachable shows
    // up, nothing twice.
    let entries = vec![
        (oid(1), vec![oid(3)]),
        (oid(2), vec![oid(3)]),
        (oid(3), vec![oid(4)]),
    ];
    let out = walk_graph(vec![oid(1), oid(2)], &entries);
    assert_eq!(out.len(), 4);
    for wanted in [1u8, 2, 3, 4] {
        assert_eq!(
            out.iter().filter(|o| o.bytes == vec![wanted; 20]).count(),
            1,
            "commit should be produced exactly once"
        );
    }
}

#[test]
fn test_walk_state_deduplicates_tips() {
    let mut st = WalkState::from_tips(vec![oid(7), oid(7)]);
    let first = st.take_next().expect("one id queued");
    assert_eq!(first.bytes, vec![7u8; 20]);
    assert!(st.take_next().is_none(), "the duplicate tip is discarded");
}

#[test]
fn test_aborted_walk_produces_nothing() {
    let mut st = WalkState::from_tips(vec![oid(1), oid(2)]);
    st.abort();
    assert!(st.take_next().is_none());
}

#[test]
fn test_pair_up_adjacent() {
    let ids = vec![oid(1), oid(2), oid(3)];
    let ps = pair_up(&ids);
    assert_eq!(ps.len(), 2);
    assert_eq!(ps[0].0.bytes, vec![1u8; 20]);
    assert_eq!(ps[0].1.bytes, vec![2u8; 20]);
    assert_eq!(ps[1].0.bytes, vec![2u8; 20]);
    assert_eq!(ps[1].1.bytes, vec![3u8; 20]);
}

#[test]
fn test_pair_up_short_inputs() {
    assert!(pair_up(&vec![]).is_empty());
    assert!(pair_up(&vec![oid(9)]).is_empty());
}

#[test]
fn test_object_id_hex() {
    assert_eq!(ObjectId::new(vec![0xbe, 0xef, 0x00, 0x1a]).to_hex(), "beef001a");
}

#[test]
fn test_object_id_same() {
    assert!(oid(5).same(&oid(5)));
    assert!(!oid(5).same(&oid(6)));
    assert!(oid(5).same(&oid(5).duplicate()));
}

#[test]
fn test_from_repo_missing_path() {
    let r = GitCommit::from_repo("/no/such/repository/anywhere");
    assert!(matches!(r, Err(GitError::OpenRepo)));
}

#[test]
fn test_walk_graph_yields_only_reachable() {
    // An entry not reachable from the tip is never produced.
    let entries = vec![
        (oid(1), vec![oid(2)]),
        (oid(8), vec![oid(9)]),
    ];
    let out = walk_graph(vec![oid(1)], &entries);
    assert_eq!(out.len(), 2);
    assert!(out.iter().all(|o| o.bytes != vec![8u8; 20] && o.bytes != vec![9u8; 20]));
}

#[test]
fn test_commit_render_shows_metadata() {
    let commit = timex_core::git::GitCommit::from_parts(
        &oid(0xab),
        "Ada".to_string(),
        12345,
        "first".to_string(),
        Some("body text".to_string()),
    );
    assert_eq!(commit.hash, "ab".repeat(20));
    let shown = commit.render();
    assert!(shown.contains(&commit.hash));
    assert!(shown.contains("Ada"));
    assert!(shown.contains("1970-01-01 03:25:45 UTC"));
    assert!(shown.contains("first"));
    assert!(shown.contains("body text"));
}

#[test]
fn test_commit_render_plain_exact() {
    let commit = timex_core::git::GitCommit::from_parts(
        &oid(0xab),
        "Ada".to_string(),
        12345,
        "first".to_string(),
        Some("body text".to_string()),
    );
    let expected = format!(
        "commit {}\nAuthor: Ada\nDate: 1970-01-01 03:25:45 UTC\nTitle: first\nBody: body text\n\n",
        "ab".repeat(20)
    );
    assert_eq!(commit.render_plain(), expected);

    let bare = timex_core::git::GitCommit::from_parts(
        &oid(0x01),
        String::new(),
        -5,
        String::new(),
        None,
    );
    let expected_bare = format!("commit {}\nDate: 1969-12-31 23:59:55 UTC\n\n", "01".repeat(20));
    assert_eq!(bare.render_plain(), expected_bare);
}
