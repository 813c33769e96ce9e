//! Project and user configuration records consumed by the workload pipeline.

pub mod workload;

use vstd::prelude::*;

verus! {

/// A tracked repository: a name, a short code, a description and the path or
/// URL of its repository.
#[derive(Debug, PartialEq, Eq, Hash)]
pub struct Project {
    pub name: String,
    pub code: String,
    pub description: String,
    pub git_url: String,
}

/// A span of time spent on one project, as seconds since the Unix epoch.
#[derive(Debug)]
pub struct TimeEntry {
    pub project: Project,
    pub start_seconds: i64,
    pub end_seconds: i64,
}

/// The person the configuration belongs to.
#[derive(Debug)]
pub struct UserConfig {
    pub name: String,
    pub email: String,
}

/// A user together with the projects they track.
#[derive(Debug)]
pub struct WorkConfig {
    pub user: UserConfig,
    pub project: Vec<Project>,
}

} // verus!
