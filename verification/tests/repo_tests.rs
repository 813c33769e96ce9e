use timex_core::git::GitCommit;
use timex_core::git::diff::{ChangeType, DiffLineType, get_commit_diff};
use timex_core::git::walk::{CommitTreeIterator, Walker};

fn unique_path(tag: &str) -> String {
    let nanos = std::time::SystemTime::now()
        .duration_since(std::time::UNIX_EPOCH)
        .unwrap()
        .as_nanos();
    format!("/tmp/timex_core_fixture_{tag}_{nanos}")
}

fn sig() -> gix::actor::SignatureRef<'static> {
    gix::actor::SignatureRef {
        name: "Tester".into(),
        email: "tester@example.com".into(),
        time: "1700000000 +0000",
    }
}

fn write_tree(repo: &gix::Repository, files: &[(&str, &[u8])]) -> gix::ObjectId {
    let mut entries: Vec<gix::objs::tree::Entry> = files
        .iter()
        .map(|(name, data)| gix::objs::tree::Entry {
            mode: gix::objs::tree::EntryKind::Blob.into(),
            filename: (*name).into(),
            oid: repo.write_blob(*data).unwrap().detach(),
        })
        .collect();
    entries.sort();
    repo.write_object(&gix::objs::Tree { entries }).unwrap().detach()
}

#[test]
fn test_pipeline_on_real_repository() {
    let path = unique_path("pipeline");
    let repo = gix::init_bare(&path).unwrap();

    let tree1 = write_tree(&repo, &[("f.txt", b"a\nb\n")]);
    let c1 = repo
        .commit_as(sig(), sig(), "HEAD", "one", tree1, Vec::<gix::ObjectId>::new())
        .unwrap()
        .detach();
    let tree2 = write_tree(&repo, &[("f.txt", b"a\nc\n"), ("new.txt", b"x\n")]);
    let c2 = repo.commit_as(sig(), sig(), "HEAD", "two", tree2, vec![c1]).unwrap().detach();

    // The walker produces every commit exactly once, tip first.
    let mut walker = CommitTreeIterator::new(&repo).unwrap();
    let ids = walker.walk_ids(usize::MAX).unwrap();
    assert_eq!(ids.len(), 2);
    assert_eq!(ids[0].bytes, c2.as_slice().to_vec());
    assert_eq!(ids[1].bytes, c1.as_slice().to_vec());

    // Pairing yields (tip, parent); the diff engine classifies each change.
    let mut walker = CommitTreeIterator::new(&repo).unwrap();
    let pairs = walker.adjacent_pairs(usize::MAX).unwrap();
    assert_eq!(pairs.len(), 1);
    let diff = get_commit_diff(&repo, &pairs[0].0.to_hex(), &pairs[0].1.to_hex()).unwrap();
    assert_eq!(diff.old_commit, c2.to_string());
    assert_eq!(diff.new_commit, c1.to_string());
    assert_eq!(diff.changes.len(), 2);

    let f = diff.changes.iter().find(|c| c.path == "f.txt").unwrap();
    assert!(matches!(f.change_type, ChangeType::Modified));
    assert_eq!(f.lines_added, 1);
    assert_eq!(f.lines_removed, 1);
    assert_eq!(f.diff_lines.len(), 4);
    assert!(f.source_path.is_none());

    let n = diff.changes.iter().find(|c| c.path == "new.txt").unwrap();
    assert!(matches!(n.change_type, ChangeType::Deleted));
    assert_eq!(n.lines_removed, 1);
    assert_eq!(n.diff_lines.len(), 1);
    assert!(matches!(n.diff_lines[0].line_type, DiffLineType::Removed));
    assert_eq!(n.diff_lines[0].content, "x");

    // Commit projections carry hex hashes and the stored metadata.
    let commits = GitCommit::from_repo(&path).unwrap();
    assert_eq!(commits.len(), 2);
    assert_eq!(commits[0].hash, c2.to_string());
    assert_eq!(commits[0].title, "two");
    assert_eq!(commits[0].author, "Tester");
    assert_eq!(commits[0].date_seconds, 1700000000);
    assert_eq!(commits[1].hash, c1.to_string());
}

#[test]
fn test_walker_error_short_circuit() {
    let path = unique_path("shortcircuit");
    let repo = gix::init_bare(&path).unwrap();
    let tree = write_tree(&repo, &[("f.txt", b"a\n")]);
    let missing =
        gix::ObjectId::from_hex(b"aaaaaaaaaaaaaaaaaaaaaaaaaaaaaaaaaaaaaaaa").unwrap();
    let commit = gix::objs::Commit {
        tree,
        parents: vec![missing].into(),
        author: sig().to_owned().unwrap(),
        committer: sig().to_owned().unwrap(),
        encoding: None,
        message: "dangling parent".into(),
        extra_headers: Vec::new(),
    };
    let cid = repo.write_object(&commit).unwrap().detach();
    repo.reference(
        "refs/heads/broken",
        cid,
        gix::refs::transaction::PreviousValue::Any,
        "test fixture",
    )
    .unwrap();

    // Collecting aborts with the resolution error.
    let mut walker = CommitTreeIterator::new(&repo).unwrap();
    assert!(matches!(
        walker.walk_ids(usize::MAX),
        Err(timex_core::git::error::GitError::CommitResolution)
    ));

    // Pulled by hand: the error is produced once, then nothing follows.
    let mut walker = CommitTreeIterator::new(&repo).unwrap();
    assert!(matches!(
        walker.next(),
        Some(Err(timex_core::git::error::GitError::CommitResolution))
    ));
    assert!(walker.next().is_none());
    assert!(walker.next().is_none());
}

#[test]
fn test_walker_skips_symbolic_reference() {
    let path = unique_path("symbolic");
    let repo = gix::init_bare(&path).unwrap();
    let tree = write_tree(&repo, &[("f.txt", b"a\n")]);
    let c1 = repo
        .commit_as(sig(), sig(), "refs/heads/main", "one", tree, Vec::<gix::ObjectId>::new())
        .unwrap()
        .detach();
    // An un-peeled symbolic reference, as every cloned repository holds one.
    repo.edit_reference(gix::refs::transaction::RefEdit {
        change: gix::refs::transaction::Change::Update {
            log: gix::refs::transaction::LogChange::default(),
            expected: gix::refs::transaction::PreviousValue::Any,
            new: gix::refs::Target::Symbolic("refs/heads/main".try_into().unwrap()),
        },
        name: "refs/remotes/origin/HEAD".try_into().unwrap(),
        deref: false,
    })
    .unwrap();

    let mut walker = CommitTreeIterator::new(&repo).expect("symbolic references are skipped");
    let ids = walker.walk_ids(usize::MAX).unwrap();
    assert_eq!(ids.len(), 1, "the one commit is still produced exactly once");
    assert_eq!(ids[0].bytes, c1.as_slice().to_vec());
}
