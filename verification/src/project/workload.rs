//! The workload pipeline: walk each project's repository and collect the
//! structured diff of every adjacent commit pair of the walk.

use vstd::prelude::*;
use vstd::string::StringExecFns;

use crate::git::adapter::open_repo;
use crate::git::diff::{CommitDiff, get_commit_diff, source_path_consistent};
use crate::git::error::GitError;
use crate::git::render::spec_render_commit_diff_plain;
use crate::git::walk::{CommitTreeIterator, Walker};
use crate::project::{Project, UserConfig};
use crate::text::{push_char, spec_hex};

verus! {

/// Whether every file change of a commit diff carries a source path exactly
/// when it is a rename or a copy.
pub open spec fn diff_changes_consistent(d: CommitDiff) -> bool {
    forall|i: int| 0 <= i < d.changes@.len() ==> source_path_consistent(#[trigger] d.changes@[i])
}

/// The project names of a project list, in order.
pub open spec fn name_views(ps: Seq<Project>) -> Seq<Seq<char>> {
    ps.map_values(|p: Project| p.name@)
}

/// The entry names of a collected workload, in order.
pub open spec fn entry_names(es: Seq<(String, Vec<CommitDiff>)>) -> Seq<Seq<char>> {
    es.map_values(|e: (String, Vec<CommitDiff>)| e.0@)
}

/// The distinct names of a name list, each at its first occurrence.
pub open spec fn dedup_names(names: Seq<Seq<char>>) -> Seq<Seq<char>>
    decreases names.len(),
{
    if names.len() == 0 {
        Seq::empty()
    } else {
        let rest = dedup_names(names.drop_last());
        if rest.contains(names.last()) {
            rest
        } else {
            rest.push(names.last())
        }
    }
}

/// `ds` is the diff sequence of walking the duplicate-free commit ids `ids`
/// in order: one diff per adjacent pair, its old and new sides the pair's
/// ids in hexadecimal form.
pub open spec fn diffs_match_walk(ds: Seq<CommitDiff>, ids: Seq<Seq<u8>>) -> bool {
    &&& ids.no_duplicates()
    &&& (ids.len() <= 1 ==> ds.len() == 0)
    &&& (ids.len() > 1 ==> ds.len() == ids.len() - 1)
    &&& forall|i: int|
        0 <= i < ds.len() ==> (#[trigger] ds[i]).old_commit@ == spec_hex(ids[i]) && ds[i].new_commit@
            == spec_hex(ids[i + 1])
}

/// `ds` is the diff sequence of walking some duplicate-free commit id
/// sequence, as [`diffs_match_walk`] describes.
pub open spec fn is_walk_shaped(ds: Seq<CommitDiff>) -> bool {
    exists|ids: Seq<Seq<u8>>| diffs_match_walk(ds, ids)
}

/// A user together with the projects whose repositories are walked.
#[derive(Debug)]
pub struct Workload {
    pub user: UserConfig,
    pub projects: Vec<Project>,
}

/// The position of the entry named `name` among the collected entries, if
/// any; the earliest one where several exist.
fn find_entry(all: &Vec<(String, Vec<CommitDiff>)>, name: &String) -> (r: Option<usize>)
    ensures
        match r {
            Some(j) => j < all@.len() && all@[j as int].0@ == name@,
            None => forall|q: int| 0 <= q < all@.len() ==> (#[trigger] all@[q]).0@ != name@,
        },
{
    let m: usize = all.len();
    for j in 0..m
        invariant
            m == all@.len(),
            forall|q: int| 0 <= q < j ==> (#[trigger] all@[q]).0@ != name@,
    {
        if all[j].0 == *name {
            return Some(j);
        }
    }
    None
}

impl Workload {
    /// Walk the repository at `repo_path` breadth-first from all its
    /// references and compute one diff per adjacent pair of walked commits:
    /// the diffs correspond pairwise to the duplicate-free walked id
    /// sequence, so consecutive diffs share a commit, each diff's new side
    /// being the next diff's old side. Any resolution or diff failure aborts
    /// with its error.
    #[verifier::rlimit(50)]
    fn walk_commit_diffs(repo_path: &str) -> (r: Result<Vec<CommitDiff>, GitError>)
        ensures
            r matches Ok(ds) ==> is_walk_shaped(ds@),
            r matches Ok(ds) ==> forall|i: int|
                0 <= i < ds@.len() ==> diff_changes_consistent(#[trigger] ds@[i]),
            r matches Ok(ds) ==> forall|i: int|
                0 <= i < ds@.len() - 1 ==> (#[trigger] ds@[i]).new_commit@ == ds@[i
                    + 1].old_commit@,
    {
        let repo = open_repo(repo_path)?;
        let mut walker = CommitTreeIterator::new(&repo)?;
        let ghost before = walker.produced();
        let pairs = walker.adjacent_pairs(usize::MAX)?;
        let ghost walked = walker.produced().skip(before.len() as int);
        proof {
            assert forall|q: int| 0 <= q < pairs@.len() - 1 implies (#[trigger] pairs@[q]).1@
                == pairs@[q + 1].0@ by {
                assert(0 <= q < pairs@.len());
                assert(0 <= q + 1 < pairs@.len());
            }
        }
        let mut diffs: Vec<CommitDiff> = Vec::new();
        let n: usize = pairs.len();
        for i in 0..n
            invariant
                n == pairs@.len(),
                walked.no_duplicates(),
                walked.len() <= 1 ==> n == 0,
                walked.len() > 1 ==> n == walked.len() - 1,
                forall|q: int|
                    0 <= q < pairs@.len() ==> (#[trigger] pairs@[q]).0@ == walked[q]
                        && pairs@[q].1@ == walked[q + 1],
                forall|q: int|
                    0 <= q < pairs@.len() - 1 ==> (#[trigger] pairs@[q]).1@ == pairs@[q + 1].0@,
                diffs@.len() == i,
                forall|m: int|
                    0 <= m < i ==> diff_changes_consistent(#[trigger] diffs@[m]),
                forall|m: int|
                    0 <= m < i ==> (#[trigger] diffs@[m]).old_commit@ == spec_hex(pairs@[m].0@)
                        && diffs@[m].new_commit@ == spec_hex(pairs@[m].1@),
        {
            let old_hex = pairs[i].0.to_hex();
            let new_hex = pairs[i].1.to_hex();
            let diff = get_commit_diff(&repo, old_hex.as_str(), new_hex.as_str())?;
            diffs.push(diff);
        }
        proof {
            assert forall|i: int| 0 <= i < diffs@.len() implies (#[trigger] diffs@[i]).old_commit@
                == spec_hex(walked[i]) && diffs@[i].new_commit@ == spec_hex(walked[i + 1]) by {
                assert(pairs@[i].0@ == walked[i]);
                assert(pairs@[i].1@ == walked[i + 1]);
            }
            assert(diffs_match_walk(diffs@, walked));
            assert forall|i: int| 0 <= i < diffs@.len() - 1 implies (#[trigger] diffs@[i]).new_commit@
                == diffs@[i + 1].old_commit@ by {
                assert(pairs@[i].1@ == pairs@[i + 1].0@);
            }
        }
        proof {
            assert(is_walk_shaped(diffs@));
        }
        Ok(diffs)
    }

    /// The commit diffs of every project, keyed by project name: one entry
    /// per distinct name, at the name's first occurrence, and where several
    /// projects share a name the diffs of the last of them win. Each entry's
    /// diffs are one project's walk, as [`diffs_match_walk`] describes. The
    /// first failure aborts the whole generation with its error.
    pub fn generate_workload(&self) -> (r: Result<Vec<(String, Vec<CommitDiff>)>, GitError>)
        ensures
            r matches Ok(w) ==> {
                &&& entry_names(w@) == dedup_names(name_views(self.projects@))
                &&& forall|i: int, m: int|
                    0 <= i < w@.len() && 0 <= m < w@[i].1@.len() ==> diff_changes_consistent(
                        #[trigger] w@[i].1@[m],
                    )
            },
            r matches Ok(w) ==> forall|i: int|
                0 <= i < w@.len() ==> is_walk_shaped((#[trigger] w@[i]).1@),
            self.projects@.len() == 0 ==> r is Ok,
    {
        let mut all: Vec<(String, Vec<CommitDiff>)> = Vec::new();
        let n: usize = self.projects.len();
        proof {
            assert(name_views(self.projects@.take(0)) =~= Seq::<Seq<char>>::empty());
            assert(entry_names(all@) =~= dedup_names(name_views(self.projects@.take(0))));
        }
        for i in 0..n
            invariant
                n == self.projects@.len(),
                entry_names(all@) == dedup_names(name_views(self.projects@.take(i as int))),
                forall|q: int, m: int|
                    0 <= q < all@.len() && 0 <= m < all@[q].1@.len() ==> diff_changes_consistent(
                        #[trigger] all@[q].1@[m],
                    ),
                forall|q: int| 0 <= q < all@.len() ==> is_walk_shaped((#[trigger] all@[q]).1@),
        {
            let diffs = Self::walk_commit_diffs(self.projects[i].git_url.as_str())?;
            let ghost pre = all@;
            match find_entry(&all, &self.projects[i].name) {
                Some(j) => {
                    proof {
                        assert(entry_names(pre)[j as int] == self.projects@[i as int].name@);
                        assert(entry_names(pre).contains(self.projects@[i as int].name@));
                    }
                    let entry = all.remove(j);
                    all.insert(j, (entry.0, diffs));
                    proof {
                        assert(entry_names(all@) =~= entry_names(pre));
                        assert forall|q: int| 0 <= q < all@.len() implies is_walk_shaped(
                            (#[trigger] all@[q]).1@,
                        ) by {
                            if q != j {
                                assert(all@[q] == pre[q]);
                            }
                        }
                    }
                },
                None => {
                    proof {
                        if entry_names(pre).contains(self.projects@[i as int].name@) {
                            let q = choose|q: int|
                                0 <= q < entry_names(pre).len() && entry_names(pre)[q]
                                    == self.projects@[i as int].name@;
                            assert(pre[q].0@ == self.projects@[i as int].name@);
                        }
                        assert(!entry_names(pre).contains(self.projects@[i as int].name@));
                    }
                    all.push((self.projects[i].name.clone(), diffs));
                    proof {
                        assert(entry_names(all@) =~= entry_names(pre).push(
                            self.projects@[i as int].name@,
                        ));
                        assert forall|q: int| 0 <= q < all@.len() implies is_walk_shaped(
                            (#[trigger] all@[q]).1@,
                        ) by {
                            if q < pre.len() {
                                assert(all@[q] == pre[q]);
                            }
                        }
                    }
                },
            }
            proof {
                let names = name_views(self.projects@.take(i as int));
                let step = name_views(self.projects@.take(i + 1));
                assert(self.projects@.take(i + 1) =~= self.projects@.take(i as int).push(
                    self.projects@[i as int],
                ));
                assert(step =~= names.push(self.projects@[i as int].name@));
                assert(step.drop_last() =~= names);
                assert(entry_names(all@) =~= dedup_names(step));
            }
        }
        proof {
            assert(self.projects@.take(n as int) =~= self.projects@);
        }
        Ok(all)
    }
}

/// The recursion of [`spec_summary_prompt`] over the diffs: each one's plain
/// rendering on a line of its own.
pub open spec fn spec_rendered_diffs(ds: Seq<CommitDiff>) -> Seq<char>
    decreases ds.len(),
{
    if ds.len() == 0 {
        Seq::empty()
    } else {
        spec_render_commit_diff_plain(ds[0]) + seq!['\n'] + spec_rendered_diffs(ds.drop_first())
    }
}

/// The summarisation prompt for one project's diffs: a fixed instruction
/// line, then the plain rendering of every diff, one per line.
pub open spec fn spec_summary_prompt(ds: Seq<CommitDiff>) -> Seq<char> {
    "Please analyze these git commits and write a brief summary of the work done:\n"@
        + spec_rendered_diffs(ds)
}

/// Build the summarisation prompt for one project's diffs.
pub fn summary_prompt(diffs: &Vec<CommitDiff>) -> (r: String)
    ensures
        r@ == spec_summary_prompt(diffs@),
{
    let mut r = String::new();
    r.append("Please analyze these git commits and write a brief summary of the work done:\n");
    let ghost header = r@;
    let n: usize = diffs.len();
    proof {
        assert(diffs@.skip(0) =~= diffs@);
    }
    for i in 0..n
        invariant
            n == diffs@.len(),
            r@ + spec_rendered_diffs(diffs@.skip(i as int)) == header + spec_rendered_diffs(
                diffs@,
            ),
    {
        let one = diffs[i].render_plain();
        r.append(one.as_str());
        push_char(&mut r, '\n');
        proof {
            assert(diffs@.skip(i as int).drop_first() =~= diffs@.skip(i + 1));
            assert(diffs@.skip(i as int)[0] == diffs@[i as int]);
            assert(r@ + spec_rendered_diffs(diffs@.skip(i + 1)) =~= header + spec_rendered_diffs(
                diffs@,
            ));
        }
    }
    proof {
        assert(diffs@.skip(n as int) =~= Seq::<CommitDiff>::empty());
        assert(r@ =~= spec_summary_prompt(diffs@));
    }
    r
}

} // verus!
