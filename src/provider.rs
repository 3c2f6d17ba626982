//! Addressing of the hosted repository, and the data sources that are not a
//! live hosting service.

use vstd::prelude::*;

use crate::stage::DataSource;
use crate::trust::{Commit, PullRequest, PullRequestId};

verus! {

/// Relies on `str::split_once`: the text before and after the first
/// occurrence of `delimiter`, or `None` where it does not occur.
#[verifier::external_body]
fn split_once_at(s: &str, delimiter: char) -> (r: Option<(String, String)>)
    ensures
        r is None <==> !s@.contains(delimiter),
        r matches Some((before, after)) ==> s@ == before@ + seq![delimiter] + after@
            && !before@.contains(delimiter),
{
    s.split_once(delimiter).map(|(before, after)| (before.to_owned(), after.to_owned()))
}

/// An organization and a repository on the hosting service.
#[derive(Clone, Debug)]
pub struct RepoPath {
    pub org: String,
    pub repo: String,
}

/// Why a repository path did not parse: it holds no `/`.
#[derive(Clone, Copy, Debug, PartialEq, Eq, Structural)]
pub struct InvalidRepoPath;

impl RepoPath {
    pub fn new(org: String, repo: String) -> (r: RepoPath)
        ensures
            r.org == org,
            r.repo == repo,
    {
        RepoPath { org, repo }
    }

    /// The organization and the repository.
    pub fn into_parts(self) -> (r: (String, String))
        ensures
            r.0 == self.org,
            r.1 == self.repo,
    {
        (self.org, self.repo)
    }

    /// Reads `org/repo`: the organization ends at the first `/`, and the
    /// repository is everything after it.
    pub fn parse(s: &str) -> (r: Result<RepoPath, InvalidRepoPath>)
        ensures
            r is Ok <==> s@.contains('/'),
            r matches Ok(p) ==> s@ == p.org@ + seq!['/'] + p.repo@ && !p.org@.contains('/'),
    {
        match split_once_at(s, '/') {
            Some((org, repo)) => Ok(RepoPath { org, repo }),
            None => Err(InvalidRepoPath),
        }
    }
}

impl std::str::FromStr for RepoPath {
    type Err = InvalidRepoPath;

    fn from_str(s: &str) -> Result<RepoPath, InvalidRepoPath> {
        RepoPath::parse(s)
    }
}

/// A snapshot of fetched data in a local directory, for resuming a run.
#[derive(Clone, Debug)]
pub struct LocalJsonCache {
    pub dir_path: String,
}

impl LocalJsonCache {
    pub fn from_dir_path(dir_path: String) -> (r: LocalJsonCache)
        ensures
            r.dir_path == dir_path,
    {
        LocalJsonCache { dir_path }
    }
}

/// Replaying a snapshot is not supported yet: every query fails, so a run
/// over this source stays at the stage it started from.
impl DataSource for LocalJsonCache {
    fn query_commit_prs(&mut self, _commits: Vec<Commit>) -> Result<Vec<(Commit, Vec<PullRequestId>)>, String> {
        Err("reading commit pull requests from a local snapshot is not supported yet".to_string())
    }

    fn query_pr_reviewers(&mut self, _prs: Vec<PullRequestId>) -> Result<Vec<(PullRequestId, PullRequest)>, String> {
        Err("reading pull request reviews from a local snapshot is not supported yet".to_string())
    }
}

/// The command that fetches the commits of a range on its own.
#[derive(Clone, Copy, Debug)]
pub struct FetchCommitsCommand {}

impl FetchCommitsCommand {
    /// Fetching a commit range on its own is not supported yet: this always
    /// fails.
    pub fn run(self) -> (r: Result<(), String>)
        ensures
            r is Err,
    {
        Err("fetching commits on their own is not supported yet".to_string())
    }
}

} // verus!
