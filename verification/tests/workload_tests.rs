use timex_core::git::error::GitError;
use timex_core::project::workload::Workload;
use timex_core::project::{Project, UserConfig};

fn user() -> UserConfig {
    UserConfig { name: "Ada".to_string(), email: "ada@example.com".to_string() }
}

#[test]
fn test_generate_workload_empty() {
    let w = Workload { user: user(), projects: vec![] };
    let out = w.generate_workload().expect("no projects, nothing to fail");
    assert!(out.is_empty());
}

#[test]
fn test_generate_workload_bad_repo() {
    let w = Workload {
        user: user(),
        projects: vec![Project {
            name: "Broken".to_string(),
            code: "BRK".to_string(),
            description: "points nowhere".to_string(),
            git_url: "/no/such/repository/anywhere".to_string(),
        }],
    };
    assert!(matches!(w.generate_workload(), Err(GitError::OpenRepo)));
}

fn unique_path(tag: &str) -> String {
    let nanos = std::time::SystemTime::now()
        .duration_since(std::time::UNIX_EPOCH)
        .unwrap()
        .as_nanos();
    format!("/tmp/timex_core_workload_{tag}_{nanos}")
}

fn sig() -> gix::actor::SignatureRef<'static> {
    gix::actor::SignatureRef {
        name: "Tester".into(),
        email: "tester@example.com".into(),
        time: "1700000000 +0000",
    }
}

fn repo_with_commits(tag: &str, messages: &[&str]) -> String {
    let path = unique_path(tag);
    let repo = gix::init_bare(&path).unwrap();
    let mut parent: Option<gix::ObjectId> = None;
    for (n, message) in messages.iter().enumerate() {
        let blob = repo.write_blob(format!("line {n}\n").as_bytes()).unwrap().detach();
        let entries = vec![gix::objs::tree::Entry {
            mode: gix::objs::tree::EntryKind::Blob.into(),
            filename: "f.txt".into(),
            oid: blob,
        }];
        let tree = repo.write_object(&gix::objs::Tree { entries }).unwrap().detach();
        let id = repo
            .commit_as(sig(), sig(), "HEAD", *message, tree, parent.take().into_iter())
            .unwrap()
            .detach();
        parent = Some(id);
    }
    path
}

fn project(name: &str, git_url: String) -> Project {
    Project {
        name: name.to_string(),
        code: "X".to_string(),
        description: String::new(),
        git_url,
    }
}

#[test]
fn test_generate_workload_names_in_order() {
    let a = repo_with_commits("order_a", &["one"]);
    let b = repo_with_commits("order_b", &["one", "two"]);
    let w = Workload {
        user: user(),
        projects: vec![project("First", a), project("Second", b)],
    };
    let out = w.generate_workload().unwrap();
    assert_eq!(out.len(), 2);
    assert_eq!(out[0].0, "First");
    assert_eq!(out[1].0, "Second");
    assert!(out[0].1.is_empty(), "a single commit pairs with nothing");
    assert_eq!(out[1].1.len(), 1, "two commits give one adjacent pair");
}

#[test]
fn test_generate_workload_duplicate_name_last_wins() {
    let two_commits = repo_with_commits("dup_a", &["one", "two"]);
    let one_commit = repo_with_commits("dup_b", &["only"]);
    let w = Workload {
        user: user(),
        projects: vec![
            project("Same", two_commits),
            project("Same", one_commit),
        ],
    };
    let out = w.generate_workload().unwrap();
    assert_eq!(out.len(), 1, "one entry per distinct project name");
    assert_eq!(out[0].0, "Same");
    assert!(out[0].1.is_empty(), "the later project's diffs win");
}
