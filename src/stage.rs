//! The extraction state machine: stages of fetched data that only ever move
//! forward, one fetch at a time, and the report built from the last stage.

use vstd::prelude::*;

use crate::trust::{
    authors_unique, check_authors_unique, check_ids_unique, check_keys_unique, ids_unique, keys_unique, aggregate, commit_levels, overall_level, range_complete, has_pr, Commit, MissingPullRequest,
    PullRequest, PullRequestId, TrustLevel,
};

verus! {

/// Names of the stages, in the order in which they are reached.
#[derive(Clone, Copy, Debug, PartialEq, Eq, Structural)]
pub enum ExtractionStageName {
    Starter,
    CommitPullRequests,
    PullRequestReviewers,
}

/// Position of a stage name in the order of stages.
pub open spec fn stage_rank(n: ExtractionStageName) -> nat {
    match n {
        ExtractionStageName::Starter => 0,
        ExtractionStageName::CommitPullRequests => 1,
        ExtractionStageName::PullRequestReviewers => 2,
    }
}

/// The stage that a transition out of stage `n` reaches; the last stage
/// stays where it is.
pub open spec fn successor_name(n: ExtractionStageName) -> ExtractionStageName {
    match n {
        ExtractionStageName::Starter => ExtractionStageName::CommitPullRequests,
        _ => ExtractionStageName::PullRequestReviewers,
    }
}

impl ExtractionStageName {
    /// Position of this name in the order of stages.
    pub fn rank(&self) -> (r: u8)
        ensures
            r as nat == stage_rank(*self),
    {
        match self {
            ExtractionStageName::Starter => 0,
            ExtractionStageName::CommitPullRequests => 1,
            ExtractionStageName::PullRequestReviewers => 2,
        }
    }

    /// The stage that a transition out of this one reaches.
    pub fn successor(&self) -> (r: ExtractionStageName)
        ensures
            r == successor_name(*self),
    {
        match self {
            ExtractionStageName::Starter => ExtractionStageName::CommitPullRequests,
            _ => ExtractionStageName::PullRequestReviewers,
        }
    }
}

/// Commits of the audited range, before anything is fetched.
#[derive(Clone, Debug)]
pub struct StarterStage {
    pub trusted_reviewers: Vec<String>,
    pub commits: Vec<Commit>,
}

/// The pull requests associated with each commit.
#[derive(Clone, Debug)]
pub struct CommitPullRequestsStage {
    pub trusted_reviewers: Vec<String>,
    pub prs_by_commit: Vec<(Commit, Vec<PullRequestId>)>,
}

/// The pull requests of each commit and the reviews of each pull request.
#[derive(Clone, Debug)]
pub struct PullRequestReviewersStage {
    pub trusted_reviewers: Vec<String>,
    pub prs_by_commit: Vec<(Commit, Vec<PullRequestId>)>,
    pub pr_reviews: Vec<(PullRequestId, PullRequest)>,
}

/// Everything fetched so far for one audit run.
#[derive(Clone, Debug)]
pub enum ExtractionStage {
    Starter(StarterStage),
    CommitPullRequests(CommitPullRequestsStage),
    PullRequestReviewers(PullRequestReviewersStage),
}

/// A fetch that the state machine needs to make its next transition.
#[derive(Clone, Debug)]
pub enum FetchRequest {
    /// The pull requests associated with each of these commits.
    CommitPullRequests(Vec<Commit>),
    /// The reviews of each of these pull requests.
    PullRequestReviewers(Vec<PullRequestId>),
}

/// What a fetch returned.
#[derive(Clone, Debug)]
pub enum FetchResponse {
    /// One entry per requested commit, in the order requested.
    CommitPullRequests(Vec<(Commit, Vec<PullRequestId>)>),
    /// One entry per requested pull request.
    PullRequestReviewers(Vec<(PullRequestId, PullRequest)>),
}

/// Why an audit step failed.
#[derive(Clone, Debug)]
pub enum AuditError {
    /// The fetch for the transition into `transition` failed.
    Fetch { transition: ExtractionStageName, message: String },
    /// A fetch response does not fit the stage it was handed to.
    MismatchedResponse { transition: ExtractionStageName },
    /// A commit references a pull request that has no reviews entry.
    MissingPullRequest { pull_request: PullRequestId },
}

/// The pull request ids referenced across `prs_by_commit`, in order, with
/// repetitions kept.
pub open spec fn referenced_prs(prs_by_commit: Seq<(Commit, Vec<PullRequestId>)>) -> Seq<PullRequestId>
    decreases prs_by_commit.len(),
{
    if prs_by_commit.len() == 0 {
        Seq::empty()
    } else {
        referenced_prs(prs_by_commit.drop_last()) + prs_by_commit.last().1@
    }
}

/// Whether `prs_by_commit` holds exactly one entry per commit of `commits`,
/// in the same order, each for the very commit that was asked about.
pub open spec fn covers_commits(commits: Seq<Commit>, prs_by_commit: Seq<(Commit, Vec<PullRequestId>)>) -> bool {
    &&& prs_by_commit.len() == commits.len()
    &&& forall|i: int| 0 <= i < commits.len() ==> same_commit((#[trigger] prs_by_commit[i]).0, commits[i])
}

/// Every commit's pull request ids are distinct.
pub open spec fn entries_well_formed(prs_by_commit: Seq<(Commit, Vec<PullRequestId>)>) -> bool {
    forall|i: int| 0 <= i < prs_by_commit.len() ==> ids_unique(#[trigger] prs_by_commit[i].1@)
}

/// Each pull request has one entry, and each identity one review on it.
pub open spec fn reviews_well_formed(pr_reviews: Seq<(PullRequestId, PullRequest)>) -> bool {
    &&& keys_unique(pr_reviews)
    &&& forall|i: int| 0 <= i < pr_reviews.len() ==> authors_unique(#[trigger] pr_reviews[i].1.reviews@)
}

/// Whether two commits have the same hash and the same committer.
pub open spec fn same_commit(a: Commit, b: Commit) -> bool {
    a.hash@ == b.hash@ && a.committer@ == b.committer@
}

impl ExtractionStage {
    /// The name of this stage.
    pub open spec fn stage_name(&self) -> ExtractionStageName {
        match self {
            ExtractionStage::Starter(_) => ExtractionStageName::Starter,
            ExtractionStage::CommitPullRequests(_) => ExtractionStageName::CommitPullRequests,
            ExtractionStage::PullRequestReviewers(_) => ExtractionStageName::PullRequestReviewers,
        }
    }

    /// The trusted identities, carried unchanged through every stage.
    pub open spec fn trusted(&self) -> Seq<String> {
        match self {
            ExtractionStage::Starter(s) => s.trusted_reviewers@,
            ExtractionStage::CommitPullRequests(s) => s.trusted_reviewers@,
            ExtractionStage::PullRequestReviewers(s) => s.trusted_reviewers@,
        }
    }

    /// Whether `response` can carry this stage one step forward.
    pub open spec fn accepts(&self, response: FetchResponse) -> bool {
        match (self, response) {
            (ExtractionStage::Starter(s), FetchResponse::CommitPullRequests(prs_by_commit)) => covers_commits(
                s.commits@,
                prs_by_commit@,
            ) && entries_well_formed(prs_by_commit@),
            (ExtractionStage::CommitPullRequests(_), FetchResponse::PullRequestReviewers(pr_reviews)) => {
                reviews_well_formed(pr_reviews@)
            },
            _ => false,
        }
    }

    /// The invariants of the data held so far: distinct pull request ids per
    /// commit, one entry per pull request, one review per identity.
    pub open spec fn well_formed(&self) -> bool {
        match self {
            ExtractionStage::Starter(_) => true,
            ExtractionStage::CommitPullRequests(s) => entries_well_formed(s.prs_by_commit@),
            ExtractionStage::PullRequestReviewers(s) => entries_well_formed(s.prs_by_commit@)
                && reviews_well_formed(s.pr_reviews@),
        }
    }

    /// The stage that `response` carries this stage to, where it is accepted.
    pub open spec fn after(self, response: FetchResponse) -> ExtractionStage {
        match (self, response) {
            (ExtractionStage::Starter(s), FetchResponse::CommitPullRequests(prs_by_commit)) => {
                ExtractionStage::CommitPullRequests(
                    CommitPullRequestsStage { trusted_reviewers: s.trusted_reviewers, prs_by_commit },
                )
            },
            (ExtractionStage::CommitPullRequests(s), FetchResponse::PullRequestReviewers(pr_reviews)) => {
                ExtractionStage::PullRequestReviewers(
                    PullRequestReviewersStage {
                        trusted_reviewers: s.trusted_reviewers,
                        prs_by_commit: s.prs_by_commit,
                        pr_reviews,
                    },
                )
            },
            (stage, _) => stage,
        }
    }

    /// A new run over `commits`, judged against `trusted_reviewers`.
    pub fn new(trusted_reviewers: Vec<String>, commits: Vec<Commit>) -> (r: ExtractionStage)
        ensures
            r == ExtractionStage::Starter(StarterStage { trusted_reviewers, commits }),
    {
        ExtractionStage::Starter(StarterStage { trusted_reviewers, commits })
    }

    /// The name of this stage.
    pub fn name(&self) -> (r: ExtractionStageName)
        ensures
            r == self.stage_name(),
    {
        match self {
            ExtractionStage::Starter(_) => ExtractionStageName::Starter,
            ExtractionStage::CommitPullRequests(_) => ExtractionStageName::CommitPullRequests,
            ExtractionStage::PullRequestReviewers(_) => ExtractionStageName::PullRequestReviewers,
        }
    }

    /// The fetch needed to move one step towards `target`, or `None` where
    /// this stage already ranks at or above it.
    pub fn next_request(&self, target: ExtractionStageName) -> (r: Option<FetchRequest>)
        ensures
            r.is_none() == (stage_rank(target) <= stage_rank(self.stage_name())),
            r.is_some() ==> match self {
                ExtractionStage::Starter(s) => r matches Some(FetchRequest::CommitPullRequests(commits))
                    && commits@ == s.commits@,
                ExtractionStage::CommitPullRequests(s) => r matches Some(FetchRequest::PullRequestReviewers(prs))
                    && ids_unique(prs@) && forall|id: PullRequestId| prs@.contains(id) <==> referenced_prs(
                    s.prs_by_commit@,
                ).contains(id),
                ExtractionStage::PullRequestReviewers(_) => false,
            },
    {
        if target.rank() <= self.name().rank() {
            return None;
        }
        match self {
            ExtractionStage::Starter(s) => Some(FetchRequest::CommitPullRequests(copy_commits(&s.commits))),
            ExtractionStage::CommitPullRequests(s) => Some(
                FetchRequest::PullRequestReviewers(distinct_ids(&collect_referenced_prs(&s.prs_by_commit))),
            ),
            ExtractionStage::PullRequestReviewers(_) => None,
        }
    }

    /// Whether `response` can carry this stage one step forward.
    pub fn accepts_response(&self, response: &FetchResponse) -> (r: bool)
        ensures
            r == self.accepts(*response),
    {
        match (self, response) {
            (ExtractionStage::Starter(s), FetchResponse::CommitPullRequests(prs_by_commit)) => {
                response_covers_commits(&s.commits, prs_by_commit) && check_entries(prs_by_commit)
            },
            (ExtractionStage::CommitPullRequests(_), FetchResponse::PullRequestReviewers(pr_reviews)) => {
                check_reviews(pr_reviews)
            },
            _ => false,
        }
    }

    /// Hands the outcome of the fetch that `next_request` asked for to this
    /// stage. On success the stage moves one step forward; on any error it
    /// stays exactly as it was.
    pub fn advance_with(&mut self, response: Result<FetchResponse, String>) -> (r: Result<(), AuditError>)
        ensures
            r.is_ok() == (response matches Ok(resp) && old(self).accepts(resp)),
            r.is_ok() ==> *final(self) == old(self).after(response->Ok_0),
            r.is_ok() ==> stage_rank(final(self).stage_name()) == stage_rank(old(self).stage_name()) + 1,
            r.is_err() ==> *final(self) == *old(self),
            old(self).well_formed() ==> final(self).well_formed(),
            response matches Err(message) ==> r == Err::<(), AuditError>(
                AuditError::Fetch { transition: successor_name(old(self).stage_name()), message },
            ),
            response matches Ok(resp) && !old(self).accepts(resp) ==> r == Err::<(), AuditError>(
                AuditError::MismatchedResponse { transition: successor_name(old(self).stage_name()) },
            ),
    {
        let transition = self.name().successor();
        let resp = match response {
            Ok(resp) => resp,
            Err(message) => {
                return Err(AuditError::Fetch { transition, message });
            },
        };
        if !self.accepts_response(&resp) {
            return Err(AuditError::MismatchedResponse { transition });
        }
        let mut current = ExtractionStage::new(Vec::new(), Vec::new());
        std::mem::swap(self, &mut current);
        *self = successor(current, resp);
        Ok(())
    }
}

/// A source of the data that the stages fetch: a hosting service, or a
/// snapshot saved by an earlier run.
pub trait DataSource {
    /// The pull requests associated with each of `commits`: one entry per
    /// commit, in the order given.
    fn query_commit_prs(&mut self, commits: Vec<Commit>) -> Result<Vec<(Commit, Vec<PullRequestId>)>, String>;

    /// The reviews of each of `prs`: one entry per pull request.
    fn query_pr_reviewers(&mut self, prs: Vec<PullRequestId>) -> Result<Vec<(PullRequestId, PullRequest)>, String>;
}

/// The larger of two stage ranks.
pub open spec fn max_rank(a: nat, b: nat) -> nat {
    if a <= b {
        b
    } else {
        a
    }
}

impl ExtractionStage {
    /// Fetches from `source` until this stage ranks at least as high as
    /// `target`. A target at or below the current stage fetches nothing and
    /// changes nothing. A failed fetch stops the run and leaves the stage as
    /// the last successful transition left it.
    pub fn run_until<D: DataSource>(&mut self, target: ExtractionStageName, source: &mut D) -> (r: Result<(), AuditError>)
        ensures
            stage_rank(target) <= stage_rank(old(self).stage_name()) ==> r.is_ok() && *final(self) == *old(self)
                && *final(source) == *old(source),
            r.is_ok() && stage_rank(old(self).stage_name()) < stage_rank(target) ==> stage_rank(
                final(self).stage_name(),
            ) == stage_rank(target),
            r.is_ok() ==> stage_rank(final(self).stage_name()) == max_rank(
                stage_rank(old(self).stage_name()),
                stage_rank(target),
            ),
            stage_rank(old(self).stage_name()) <= stage_rank(final(self).stage_name()),
            stage_rank(final(self).stage_name()) <= max_rank(stage_rank(old(self).stage_name()), stage_rank(target)),
            old(self).well_formed() ==> final(self).well_formed(),
            r.is_err() ==> stage_rank(final(self).stage_name()) < stage_rank(target),
            final(self).trusted() == old(self).trusted(),
    {
        loop
            invariant
                stage_rank(old(self).stage_name()) <= stage_rank(self.stage_name()),
                stage_rank(self.stage_name()) <= max_rank(stage_rank(old(self).stage_name()), stage_rank(target)),
                stage_rank(target) <= stage_rank(old(self).stage_name()) ==> *self == *old(self)
                    && *source == *old(source),
                self.trusted() == old(self).trusted(),
                old(self).well_formed() ==> self.well_formed(),
            decreases 2 - stage_rank(self.stage_name()),
        {
            let request = match self.next_request(target) {
                None => {
                    return Ok(());
                },
                Some(request) => request,
            };
            let response = match request {
                FetchRequest::CommitPullRequests(commits) => match source.query_commit_prs(commits) {
                    Ok(prs_by_commit) => Ok(FetchResponse::CommitPullRequests(prs_by_commit)),
                    Err(message) => Err(message),
                },
                FetchRequest::PullRequestReviewers(prs) => match source.query_pr_reviewers(prs) {
                    Ok(pr_reviews) => Ok(FetchResponse::PullRequestReviewers(pr_reviews)),
                    Err(message) => Err(message),
                },
            };
            let ghost before = *self;
            match self.advance_with(response) {
                Ok(()) => {},
                Err(e) => {
                    return Err(e);
                },
            }
            proof {
                assert(self.trusted() == before.trusted());
            }
        }
    }

    /// Runs to the last stage, then aggregates what it holds into a report.
    pub fn report<D: DataSource>(&mut self, source: &mut D) -> (r: Result<Report, AuditError>)
        ensures
            r.is_ok() ==> *final(self) is PullRequestReviewers,
            stage_rank(old(self).stage_name()) <= stage_rank(final(self).stage_name()),
            final(self).trusted() == old(self).trusted(),
            *old(self) is PullRequestReviewers ==> *final(self) == *old(self),
            r matches Ok(report) ==> match *final(self) {
                ExtractionStage::PullRequestReviewers(s) => report.describes(s),
                _ => false,
            },
            *old(self) is PullRequestReviewers ==> *final(source) == *old(source),
            old(self).well_formed() ==> final(self).well_formed(),
            *old(self) matches ExtractionStage::PullRequestReviewers(s) ==> (r is Ok == range_complete(
                s.prs_by_commit@,
                s.pr_reviews@,
            )),
            *old(self) matches ExtractionStage::PullRequestReviewers(s) ==> (r matches Err(e) ==> missing_from(
                e,
                s,
            )),
    {
        match self.run_until(ExtractionStageName::PullRequestReviewers, source) {
            Ok(()) => {},
            Err(e) => {
                return Err(e);
            },
        }
        match self {
            ExtractionStage::PullRequestReviewers(s) => s.report(),
            _ => {
                // run_until reached the last stage, so no other stage is left here.
                proof {
                    assert(false);
                }
                Err(AuditError::MismatchedResponse { transition: ExtractionStageName::PullRequestReviewers })
            },
        }
    }
}

/// Whether `e` names a pull request that a commit of `stage` references and
/// that has no reviews entry there.
pub open spec fn missing_from(e: AuditError, stage: PullRequestReviewersStage) -> bool {
    e matches AuditError::MissingPullRequest { pull_request } && !has_pr(stage.pr_reviews@, pull_request) && exists|i: int|
        0 <= i < stage.prs_by_commit@.len() && (#[trigger] stage.prs_by_commit@[i]).1@.contains(pull_request)
}

impl PullRequestReviewersStage {
    /// Aggregates this stage's data into a report, or names a pull request
    /// that a commit references and that has no reviews entry.
    pub fn report(&self) -> (r: Result<Report, AuditError>)
        ensures
            r.is_ok() == range_complete(self.prs_by_commit@, self.pr_reviews@),
            r matches Ok(report) ==> report.describes(*self),
            r matches Err(e) ==> missing_from(e, *self),
    {
        let (overall, levels) = match aggregate(&self.trusted_reviewers, &self.prs_by_commit, &self.pr_reviews) {
            Ok(result) => result,
            Err(MissingPullRequest { pull_request }) => {
                return Err(AuditError::MissingPullRequest { pull_request });
            },
        };
        let mut commits: Vec<CommitReport> = Vec::new();
        let mut i: usize = 0;
        while i < self.prs_by_commit.len()
            invariant
                i <= self.prs_by_commit.len(),
                levels@.len() == self.prs_by_commit@.len(),
                commits@.len() == i,
                forall|k: int| 0 <= k < i ==> (#[trigger] commits@[k]).describes(self.prs_by_commit@[k], levels@[k]),
            decreases self.prs_by_commit.len() - i,
        {
            let (commit, prs) = &self.prs_by_commit[i];
            commits.push(
                CommitReport {
                    commit: commit.duplicate(),
                    pull_requests: copy_ids(prs),
                    trust_level: levels[i],
                },
            );
            i = i + 1;
        }
        Ok(Report { overall_trust_level: overall, commits, pr_reviews: copy_pr_reviews(&self.pr_reviews) })
    }
}

/// The verdict on one commit.
#[derive(Clone, Debug)]
pub struct CommitReport {
    pub commit: Commit,
    pub pull_requests: Vec<PullRequestId>,
    pub trust_level: TrustLevel,
}

impl CommitReport {
    /// Whether this report is the `entry` of a stage, judged `level`.
    pub open spec fn describes(self, entry: (Commit, Vec<PullRequestId>), level: TrustLevel) -> bool {
        &&& self.commit == entry.0
        &&& self.pull_requests@ == entry.1@
        &&& self.trust_level == level
    }
}

/// The verdict on a whole commit range, and on each of its commits.
#[derive(Clone, Debug)]
pub struct Report {
    pub overall_trust_level: TrustLevel,
    pub commits: Vec<CommitReport>,
    /// The reviews of every pull request that the commits reference.
    pub pr_reviews: Vec<(PullRequestId, PullRequest)>,
}

impl Report {
    /// Whether this report holds the aggregation of `stage`.
    pub open spec fn describes(self, stage: PullRequestReviewersStage) -> bool {
        let levels = commit_levels(stage.trusted_reviewers@, stage.prs_by_commit@, stage.pr_reviews@);
        &&& self.overall_trust_level == overall_level(
            stage.trusted_reviewers@,
            stage.prs_by_commit@,
            stage.pr_reviews@,
        )
        &&& self.commits@.len() == stage.prs_by_commit@.len()
        &&& forall|i: int| 0 <= i < self.commits@.len() ==> (#[trigger] self.commits@[i]).describes(stage.prs_by_commit@[i], levels[i])
        &&& same_pr_reviews(self.pr_reviews@, stage.pr_reviews@)
    }

    /// The verdict on the whole range.
    pub fn overall_trust_level(&self) -> (r: TrustLevel)
        ensures
            r == self.overall_trust_level,
    {
        self.overall_trust_level
    }

    /// Every commit report, in the order of the commit range, for the summary
    /// that follows the overall verdict.
    pub fn outstanding(&self) -> (r: Vec<&CommitReport>)
        ensures
            r@.len() == self.commits@.len(),
            forall|i: int| 0 <= i < r@.len() ==> *r@[i] == self.commits@[i],
    {
        let mut out: Vec<&CommitReport> = Vec::new();
        let mut i: usize = 0;
        while i < self.commits.len()
            invariant
                i <= self.commits.len(),
                out@.len() == i,
                forall|k: int| 0 <= k < i ==> *out@[k] == self.commits@[k],
            decreases self.commits.len() - i,
        {
            out.push(&self.commits[i]);
            i = i + 1;
        }
        out
    }
}

/// `stage` carried forward by `response`, or `stage` itself where the two do
/// not fit together.
fn successor(stage: ExtractionStage, response: FetchResponse) -> (r: ExtractionStage)
    ensures
        r == stage.after(response),
{
    match (stage, response) {
        (ExtractionStage::Starter(s), FetchResponse::CommitPullRequests(prs_by_commit)) => {
            ExtractionStage::CommitPullRequests(
                CommitPullRequestsStage { trusted_reviewers: s.trusted_reviewers, prs_by_commit },
            )
        },
        (ExtractionStage::CommitPullRequests(s), FetchResponse::PullRequestReviewers(pr_reviews)) => {
            ExtractionStage::PullRequestReviewers(
                PullRequestReviewersStage {
                    trusted_reviewers: s.trusted_reviewers,
                    prs_by_commit: s.prs_by_commit,
                    pr_reviews,
                },
            )
        },
        (stage, _) => stage,
    }
}

/// A copy of `commits`.
fn copy_commits(commits: &Vec<Commit>) -> (r: Vec<Commit>)
    ensures
        r@ == commits@,
{
    let mut out: Vec<Commit> = Vec::new();
    let mut i: usize = 0;
    while i < commits.len()
        invariant
            i <= commits.len(),
            out@ == commits@.subrange(0, i as int),
        decreases commits.len() - i,
    {
        out.push(commits[i].duplicate());
        i = i + 1;
    }
    proof {
        assert(commits@.subrange(0, i as int) =~= commits@);
    }
    out
}

/// Whether two lists of pull request reviews hold the same ids and reviews,
/// in the same order.
pub open spec fn same_pr_reviews(a: Seq<(PullRequestId, PullRequest)>, b: Seq<(PullRequestId, PullRequest)>) -> bool {
    &&& a.len() == b.len()
    &&& forall|i: int| 0 <= i < a.len() ==> (#[trigger] a[i]).0 == b[i].0 && a[i].1.reviews@ == b[i].1.reviews@
}

/// A copy of a list of pull request reviews.
fn copy_pr_reviews(pr_reviews: &Vec<(PullRequestId, PullRequest)>) -> (r: Vec<(PullRequestId, PullRequest)>)
    ensures
        same_pr_reviews(r@, pr_reviews@),
{
    let mut out: Vec<(PullRequestId, PullRequest)> = Vec::new();
    let mut i: usize = 0;
    while i < pr_reviews.len()
        invariant
            i <= pr_reviews.len(),
            out@.len() == i,
            forall|k: int| 0 <= k < i ==> (#[trigger] out@[k]).0 == pr_reviews@[k].0 && out@[k].1.reviews@
                == pr_reviews@[k].1.reviews@,
        decreases pr_reviews.len() - i,
    {
        let (id, pr) = &pr_reviews[i];
        out.push((*id, pr.duplicate()));
        i = i + 1;
    }
    out
}

/// Whether every commit's pull request ids are distinct.
fn check_entries(prs_by_commit: &Vec<(Commit, Vec<PullRequestId>)>) -> (r: bool)
    ensures
        r == entries_well_formed(prs_by_commit@),
{
    let mut i: usize = 0;
    while i < prs_by_commit.len()
        invariant
            i <= prs_by_commit.len(),
            forall|k: int| 0 <= k < i ==> ids_unique(#[trigger] prs_by_commit@[k].1@),
        decreases prs_by_commit.len() - i,
    {
        if !check_ids_unique(&prs_by_commit[i].1) {
            return false;
        }
        i = i + 1;
    }
    true
}

/// Whether each pull request has one entry, and each identity one review on it.
fn check_reviews(pr_reviews: &Vec<(PullRequestId, PullRequest)>) -> (r: bool)
    ensures
        r == reviews_well_formed(pr_reviews@),
{
    if !check_keys_unique(pr_reviews) {
        return false;
    }
    let mut i: usize = 0;
    while i < pr_reviews.len()
        invariant
            i <= pr_reviews.len(),
            forall|k: int| 0 <= k < i ==> authors_unique(#[trigger] pr_reviews@[k].1.reviews@),
        decreases pr_reviews.len() - i,
    {
        if !check_authors_unique(&pr_reviews[i].1.reviews) {
            return false;
        }
        i = i + 1;
    }
    true
}

/// Whether `id` occurs in `ids`.
fn contains_id(ids: &Vec<PullRequestId>, id: PullRequestId) -> (r: bool)
    ensures
        r == ids@.contains(id),
{
    let mut i: usize = 0;
    while i < ids.len()
        invariant
            i <= ids.len(),
            forall|k: int| 0 <= k < i ==> ids@[k] != id,
        decreases ids.len() - i,
    {
        if ids[i] == id {
            return true;
        }
        i = i + 1;
    }
    false
}

/// The ids of `ids`, each once, in order of first appearance. A pull request
/// shared by several commits is requested once.
pub fn distinct_ids(ids: &Vec<PullRequestId>) -> (r: Vec<PullRequestId>)
    ensures
        ids_unique(r@),
        forall|id: PullRequestId| r@.contains(id) <==> ids@.contains(id),
{
    let mut out: Vec<PullRequestId> = Vec::new();
    let mut i: usize = 0;
    while i < ids.len()
        invariant
            i <= ids.len(),
            ids_unique(out@),
            forall|id: PullRequestId| out@.contains(id) <==> ids@.subrange(0, i as int).contains(id),
        decreases ids.len() - i,
    {
        let id = ids[i];
        let ghost before = out@;
        if !contains_id(&out, id) {
            out.push(id);
            proof {
                assert forall|a: int, b: int| 0 <= a < b < out@.len() implies out@[a] != out@[b] by {
                    if b == out@.len() - 1 {
                        assert(before.contains(before[a]));
                    }
                }
            }
        }
        proof {
            let prefix = ids@.subrange(0, i as int);
            let next = ids@.subrange(0, i + 1);
            assert(next =~= prefix.push(id));
            assert(out@ == before || out@ == before.push(id));
            assert(before.contains(id) ==> out@ == before);
            assert forall|x: PullRequestId| out@.contains(x) <==> next.contains(x) by {
                if out@.contains(x) {
                    let w = choose|w: int| 0 <= w < out@.len() && out@[w] == x;
                    if w < before.len() {
                        assert(before[w] == x);
                        assert(before.contains(x));
                        let v = choose|v: int| 0 <= v < prefix.len() && prefix[v] == x;
                        assert(next[v] == x);
                    } else {
                        assert(next[i as int] == x);
                    }
                }
                if next.contains(x) {
                    let v = choose|v: int| 0 <= v < next.len() && next[v] == x;
                    if v < i {
                        assert(prefix[v] == x);
                        assert(prefix.contains(x));
                        assert(before.contains(x));
                        let w = choose|w: int| 0 <= w < before.len() && before[w] == x;
                        assert(out@[w] == x);
                    } else if !before.contains(id) {
                        assert(out@[out@.len() - 1] == x);
                    } else {
                        assert(x == id);
                        assert(before.contains(x));
                        let w = choose|w: int| 0 <= w < before.len() && before[w] == x;
                        assert(out@[w] == x);
                    }
                }
            }
        }
        i = i + 1;
    }
    proof {
        assert(ids@.subrange(0, i as int) =~= ids@);
    }
    out
}

/// A copy of a list of pull request ids.
fn copy_ids(ids: &Vec<PullRequestId>) -> (r: Vec<PullRequestId>)
    ensures
        r@ == ids@,
{
    let mut out: Vec<PullRequestId> = Vec::new();
    let mut i: usize = 0;
    while i < ids.len()
        invariant
            i <= ids.len(),
            out@ == ids@.subrange(0, i as int),
        decreases ids.len() - i,
    {
        out.push(ids[i]);
        i = i + 1;
    }
    proof {
        assert(ids@.subrange(0, i as int) =~= ids@);
    }
    out
}

/// Every pull request id referenced across `prs_by_commit`, in order. Ids
/// shared by several commits are requested once per commit.
pub fn collect_referenced_prs(prs_by_commit: &Vec<(Commit, Vec<PullRequestId>)>) -> (r: Vec<PullRequestId>)
    ensures
        r@ == referenced_prs(prs_by_commit@),
{
    let mut out: Vec<PullRequestId> = Vec::new();
    let mut i: usize = 0;
    while i < prs_by_commit.len()
        invariant
            i <= prs_by_commit.len(),
            out@ == referenced_prs(prs_by_commit@.subrange(0, i as int)),
        decreases prs_by_commit.len() - i,
    {
        let prs = &prs_by_commit[i].1;
        let mut j: usize = 0;
        let ghost start = out@;
        while j < prs.len()
            invariant
                j <= prs.len(),
                out@ == start + prs@.subrange(0, j as int),
            decreases prs.len() - j,
        {
            out.push(prs[j]);
            proof {
                assert(start + prs@.subrange(0, j + 1) =~= (start + prs@.subrange(0, j as int)).push(prs@[j as int]));
            }
            j = j + 1;
        }
        proof {
            assert(prs@.subrange(0, j as int) =~= prs@);
            let next = prs_by_commit@.subrange(0, i + 1);
            assert(next.drop_last() =~= prs_by_commit@.subrange(0, i as int));
        }
        i = i + 1;
    }
    proof {
        assert(prs_by_commit@.subrange(0, i as int) =~= prs_by_commit@);
    }
    out
}

/// Whether `prs_by_commit` has exactly one entry per commit, in order.
pub fn response_covers_commits(commits: &Vec<Commit>, prs_by_commit: &Vec<(Commit, Vec<PullRequestId>)>) -> (r: bool)
    ensures
        r == covers_commits(commits@, prs_by_commit@),
{
    if commits.len() != prs_by_commit.len() {
        return false;
    }
    let mut i: usize = 0;
    while i < commits.len()
        invariant
            i <= commits.len(),
            commits.len() == prs_by_commit.len(),
            forall|k: int| 0 <= k < i ==> same_commit((#[trigger] prs_by_commit@[k]).0, commits@[k]),
        decreases commits.len() - i,
    {
        if prs_by_commit[i].0.hash != commits[i].hash || prs_by_commit[i].0.committer != commits[i].committer {
            return false;
        }
        i = i + 1;
    }
    true
}

} // verus!
