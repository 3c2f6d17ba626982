use trust_audit::provider::{FetchCommitsCommand, LocalJsonCache, RepoPath};
use trust_audit::stage::{
    collect_referenced_prs, distinct_ids, AuditError, DataSource, ExtractionStage, ExtractionStageName, FetchRequest,
    FetchResponse,
};
use trust_audit::trust::{Commit, PullRequest, Review, ReviewState, TrustLevel};

/// An in-memory source that answers from fixed data and counts its calls.
struct FakeSource {
    commit_calls: usize,
    review_calls: usize,
    fail_reviews: bool,
    requested_prs: Vec<u64>,
}

impl FakeSource {
    fn new() -> FakeSource {
        FakeSource { commit_calls: 0, review_calls: 0, fail_reviews: false, requested_prs: vec![] }
    }
}

impl DataSource for FakeSource {
    fn query_commit_prs(&mut self, commits: Vec<Commit>) -> Result<Vec<(Commit, Vec<u64>)>, String> {
        self.commit_calls += 1;
        Ok(commits
            .into_iter()
            .map(|c| {
                let prs = if c.hash == "c1" { vec![10, 11] } else { vec![11] };
                (c, prs)
            })
            .collect())
    }

    fn query_pr_reviewers(&mut self, prs: Vec<u64>) -> Result<Vec<(u64, PullRequest)>, String> {
        self.review_calls += 1;
        if self.fail_reviews {
            return Err("service unavailable".to_string());
        }
        self.requested_prs = prs.clone();
        Ok(prs
            .into_iter()
            .map(|id| {
                let state = if id == 10 { ReviewState::Approved } else { ReviewState::Commented };
                (id, PullRequest { reviews: vec![("alice".to_string(), Review { id: id * 100, state })] })
            })
            .collect())
    }
}

fn starter() -> ExtractionStage {
    ExtractionStage::new(
        vec!["alice".to_string()],
        vec![
            Commit::new("c1".to_string(), "alice".to_string()),
            Commit::new("c2".to_string(), "carol".to_string()),
        ],
    )
}

#[test]
fn advancing_to_a_lower_or_equal_stage_fetches_nothing() {
    let mut stage = starter();
    let mut source = FakeSource::new();
    stage.run_until(ExtractionStageName::Starter, &mut source).unwrap();
    assert_eq!(stage.name(), ExtractionStageName::Starter);
    assert_eq!(source.commit_calls + source.review_calls, 0);

    stage.run_until(ExtractionStageName::PullRequestReviewers, &mut source).unwrap();
    assert_eq!(source.commit_calls + source.review_calls, 2);
    stage.run_until(ExtractionStageName::CommitPullRequests, &mut source).unwrap();
    stage.run_until(ExtractionStageName::PullRequestReviewers, &mut source).unwrap();
    assert_eq!(source.commit_calls + source.review_calls, 2);
    assert_eq!(stage.name(), ExtractionStageName::PullRequestReviewers);
    assert!(stage.next_request(ExtractionStageName::PullRequestReviewers).is_none());
}

#[test]
fn advancing_reaches_exactly_the_target() {
    let mut stage = starter();
    let mut source = FakeSource::new();
    stage.run_until(ExtractionStageName::CommitPullRequests, &mut source).unwrap();
    assert_eq!(stage.name(), ExtractionStageName::CommitPullRequests);
    assert_eq!(source.commit_calls, 1);
    assert_eq!(source.review_calls, 0);
    stage.run_until(ExtractionStageName::PullRequestReviewers, &mut source).unwrap();
    assert_eq!(stage.name(), ExtractionStageName::PullRequestReviewers);
    // A pull request shared by two commits is requested once.
    assert_eq!(source.requested_prs, vec![10, 11]);
}

#[test]
fn failed_fetch_leaves_the_stage_in_place() {
    let mut stage = starter();
    let mut source = FakeSource::new();
    source.fail_reviews = true;
    let err = stage.run_until(ExtractionStageName::PullRequestReviewers, &mut source).unwrap_err();
    match err {
        AuditError::Fetch { transition, message } => {
            assert_eq!(transition, ExtractionStageName::PullRequestReviewers);
            assert_eq!(message, "service unavailable");
        }
        other => panic!("unexpected error {other:?}"),
    }
    assert_eq!(stage.name(), ExtractionStageName::CommitPullRequests);
    source.fail_reviews = false;
    stage.run_until(ExtractionStageName::PullRequestReviewers, &mut source).unwrap();
    assert_eq!(source.commit_calls, 1);
    assert_eq!(stage.name(), ExtractionStageName::PullRequestReviewers);
}

#[test]
fn report_aggregates_the_last_stage() {
    let mut stage = starter();
    let mut source = FakeSource::new();
    let report = stage.report(&mut source).unwrap();
    assert_eq!(report.commits.len(), 2);
    assert_eq!(report.commits[0].commit.hash, "c1");
    assert_eq!(report.commits[0].pull_requests, vec![10, 11]);
    assert_eq!(report.commits[0].trust_level, TrustLevel::Trusted);
    assert_eq!(report.commits[1].trust_level, TrustLevel::Unknown);
    assert_eq!(report.overall_trust_level(), TrustLevel::Unknown);
    let listed = report.outstanding();
    assert_eq!(listed.len(), 2);
    assert_eq!(listed[0].commit.hash, "c1");
    assert_eq!(listed[0].trust_level, TrustLevel::Trusted);
    assert_eq!(listed[1].commit.hash, "c2");
    assert_eq!(listed[1].pull_requests, vec![11]);
    let ids: Vec<u64> = report.pr_reviews.iter().map(|(id, _)| *id).collect();
    assert_eq!(ids, vec![10, 11]);
}

#[test]
fn report_of_an_empty_range() {
    let mut stage = ExtractionStage::new(vec!["alice".to_string()], vec![]);
    let mut source = FakeSource::new();
    let report = stage.report(&mut source).unwrap();
    assert_eq!(report.overall_trust_level, TrustLevel::Trusted);
    assert!(report.commits.is_empty());
}

#[test]
fn mismatched_response_is_refused() {
    let mut stage = starter();
    // Only one entry for two commits.
    let response = FetchResponse::CommitPullRequests(vec![(Commit::new("c1".to_string(), "alice".to_string()), vec![])]);
    let err = stage.advance_with(Ok(response)).unwrap_err();
    assert!(matches!(
        err,
        AuditError::MismatchedResponse { transition: ExtractionStageName::CommitPullRequests }
    ));
    assert_eq!(stage.name(), ExtractionStageName::Starter);
    let wrong_kind = FetchResponse::PullRequestReviewers(vec![]);
    assert!(stage.advance_with(Ok(wrong_kind)).is_err());
    assert_eq!(stage.name(), ExtractionStageName::Starter);
}

#[test]
fn missing_pull_request_fails_the_report() {
    let mut stage = starter();
    let pr_ids = vec![(Commit::new("c1".to_string(), "alice".to_string()), vec![5]),
        (Commit::new("c2".to_string(), "carol".to_string()), vec![])];
    stage.advance_with(Ok(FetchResponse::CommitPullRequests(pr_ids))).unwrap();
    stage.advance_with(Ok(FetchResponse::PullRequestReviewers(vec![]))).unwrap();
    let mut source = FakeSource::new();
    let err = stage.report(&mut source).unwrap_err();
    assert!(matches!(err, AuditError::MissingPullRequest { pull_request: 5 }));
    assert_eq!(source.commit_calls + source.review_calls, 0);
}

#[test]
fn requests_follow_the_stage() {
    let stage = starter();
    match stage.next_request(ExtractionStageName::PullRequestReviewers) {
        Some(FetchRequest::CommitPullRequests(commits)) => {
            assert_eq!(commits.len(), 2);
            assert_eq!(commits[1].hash, "c2");
        }
        other => panic!("unexpected request {other:?}"),
    }
    let entries = vec![
        (Commit::new("a".to_string(), "x".to_string()), vec![1, 2]),
        (Commit::new("b".to_string(), "x".to_string()), vec![2, 3]),
    ];
    assert_eq!(collect_referenced_prs(&entries), vec![1, 2, 2, 3]);
    assert_eq!(distinct_ids(&vec![3, 1, 3, 2, 1]), vec![3, 1, 2]);
    assert_eq!(ExtractionStageName::Starter.successor(), ExtractionStageName::CommitPullRequests);
}

#[test]
fn local_cache_cannot_replay_yet() {
    let mut cache = LocalJsonCache::from_dir_path("snapshots".to_string());
    assert_eq!(cache.dir_path, "snapshots");
    let mut stage = starter();
    let err = stage.run_until(ExtractionStageName::CommitPullRequests, &mut cache).unwrap_err();
    assert!(matches!(err, AuditError::Fetch { transition: ExtractionStageName::CommitPullRequests, .. }));
    assert_eq!(stage.name(), ExtractionStageName::Starter);
    assert!(FetchCommitsCommand {}.run().is_err());
}

#[test]
fn repo_path_splits_at_the_first_slash() {
    let path = RepoPath::parse("rust-lang/rust").unwrap();
    assert_eq!(path.org, "rust-lang");
    assert_eq!(path.repo, "rust");
    let nested = RepoPath::parse("org/repo/extra").unwrap();
    assert_eq!(nested.into_parts(), ("org".to_string(), "repo/extra".to_string()));
    assert!(RepoPath::parse("no-slash").is_err());
    let parsed: RepoPath = "a/b".parse().unwrap();
    assert_eq!(parsed.into_parts(), ("a".to_string(), "b".to_string()));
    assert_eq!(
        RepoPath::new("o".to_string(), "r".to_string()).into_parts(),
        ("o".to_string(), "r".to_string())
    );
}

#[test]
fn responses_breaking_the_invariants_are_refused() {
    // A reply that names another committer for a commit.
    let mut stage = starter();
    let other_committer = vec![
        (Commit::new("c1".to_string(), "mallory".to_string()), vec![]),
        (Commit::new("c2".to_string(), "carol".to_string()), vec![]),
    ];
    assert!(stage.advance_with(Ok(FetchResponse::CommitPullRequests(other_committer))).is_err());
    assert_eq!(stage.name(), ExtractionStageName::Starter);

    // A pull request listed twice for one commit.
    let repeated = vec![
        (Commit::new("c1".to_string(), "alice".to_string()), vec![4, 4]),
        (Commit::new("c2".to_string(), "carol".to_string()), vec![]),
    ];
    assert!(stage.advance_with(Ok(FetchResponse::CommitPullRequests(repeated))).is_err());
    assert_eq!(stage.name(), ExtractionStageName::Starter);

    let fine = vec![
        (Commit::new("c1".to_string(), "alice".to_string()), vec![4]),
        (Commit::new("c2".to_string(), "carol".to_string()), vec![4]),
    ];
    stage.advance_with(Ok(FetchResponse::CommitPullRequests(fine))).unwrap();

    // Two entries for one pull request.
    let twice = vec![(4, PullRequest::new()), (4, PullRequest::new())];
    let err = stage.advance_with(Ok(FetchResponse::PullRequestReviewers(twice))).unwrap_err();
    assert!(matches!(
        err,
        AuditError::MismatchedResponse { transition: ExtractionStageName::PullRequestReviewers }
    ));
    // Two reviews by one identity on a pull request.
    let review = Review { id: 1, state: ReviewState::Approved };
    let doubled = PullRequest { reviews: vec![("alice".to_string(), review), ("alice".to_string(), review)] };
    assert!(stage.advance_with(Ok(FetchResponse::PullRequestReviewers(vec![(4, doubled)]))).is_err());
    assert_eq!(stage.name(), ExtractionStageName::CommitPullRequests);

    stage.advance_with(Ok(FetchResponse::PullRequestReviewers(vec![(4, PullRequest::new())]))).unwrap();
    assert_eq!(stage.name(), ExtractionStageName::PullRequestReviewers);
}
