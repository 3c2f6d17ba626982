use trust_audit::trust::{
    aggregate, least_trusted, pull_request_floor, review_contribution, Commit, PullRequest, Review, ReviewState, TrustLevel,
};

fn commit(hash: &str, committer: &str) -> Commit {
    Commit::new(hash.to_string(), committer.to_string())
}

fn review(id: u64, state: ReviewState) -> Review {
    Review { id, state }
}

fn trusted_alice() -> Vec<String> {
    vec!["alice".to_string()]
}

fn pr_with(reviews: Vec<(&str, Review)>) -> PullRequest {
    PullRequest { reviews: reviews.into_iter().map(|(u, r)| (u.to_string(), r)).collect() }
}

#[test]
fn trusted_approval_outweighs_unknown_rejection() {
    let prs_by_commit = vec![(commit("c1", "carol"), vec![7])];
    let pr_reviews = vec![(
        7,
        pr_with(vec![("alice", review(1, ReviewState::Approved)), ("bob", review(2, ReviewState::ChangesRequested))]),
    )];
    // The reviews of the pull request aggregate to Trusted: bob is not trusted.
    assert_eq!(pull_request_floor(&trusted_alice(), &pr_reviews[0].1), TrustLevel::Trusted);
    let (overall, levels) = aggregate(&trusted_alice(), &prs_by_commit, &pr_reviews).unwrap();
    // The committer is Unknown, which bounds the commit from above.
    assert_eq!(levels, vec![TrustLevel::Unknown]);
    assert_eq!(overall, TrustLevel::Unknown);

    // With a trusted committer, alice's approval makes the commit Trusted and
    // bob's request for changes is ignored.
    let prs_by_commit = vec![(commit("c1", "alice"), vec![7])];
    let (overall, levels) = aggregate(&trusted_alice(), &prs_by_commit, &pr_reviews).unwrap();
    assert_eq!(levels, vec![TrustLevel::Trusted]);
    assert_eq!(overall, TrustLevel::Trusted);
}

#[test]
fn trusted_rejection_overrides_unknown_approval() {
    let prs_by_commit = vec![(commit("c1", "carol"), vec![7])];
    let pr_reviews = vec![(
        7,
        pr_with(vec![("alice", review(1, ReviewState::ChangesRequested)), ("bob", review(2, ReviewState::Approved))]),
    )];
    assert_eq!(pull_request_floor(&trusted_alice(), &pr_reviews[0].1), TrustLevel::Untrusted);
    let (overall, levels) = aggregate(&trusted_alice(), &prs_by_commit, &pr_reviews).unwrap();
    assert_eq!(levels, vec![TrustLevel::Untrusted]);
    assert_eq!(overall, TrustLevel::Untrusted);
}

#[test]
fn trusted_rejection_overrides_trusted_approvals() {
    let trusted = vec!["alice".to_string(), "dave".to_string()];
    let prs_by_commit = vec![(commit("c1", "alice"), vec![7, 8])];
    let pr_reviews = vec![
        (7, pr_with(vec![("alice", review(1, ReviewState::Approved)), ("dave", review(2, ReviewState::Approved))])),
        (8, pr_with(vec![("dave", review(3, ReviewState::ChangesRequested))])),
    ];
    let (overall, _) = aggregate(&trusted, &prs_by_commit, &pr_reviews).unwrap();
    assert_eq!(overall, TrustLevel::Untrusted);
}

#[test]
fn commit_without_pull_requests_is_unknown() {
    let prs_by_commit = vec![(commit("c1", "mallory"), vec![])];
    let (overall, levels) = aggregate(&trusted_alice(), &prs_by_commit, &vec![]).unwrap();
    assert_eq!(levels, vec![TrustLevel::Unknown]);
    assert_eq!(overall, TrustLevel::Unknown);
}

#[test]
fn commit_without_pull_requests_by_trusted_committer_is_trusted() {
    let prs_by_commit = vec![(commit("c1", "alice"), vec![])];
    let (overall, levels) = aggregate(&trusted_alice(), &prs_by_commit, &vec![]).unwrap();
    assert_eq!(levels, vec![TrustLevel::Trusted]);
    assert_eq!(overall, TrustLevel::Trusted);
}

#[test]
fn empty_range_is_trusted() {
    let (overall, levels) = aggregate(&trusted_alice(), &vec![], &vec![]).unwrap();
    assert_eq!(overall, TrustLevel::Trusted);
    assert!(levels.is_empty());
}

#[test]
fn missing_pull_request_is_an_error() {
    let prs_by_commit = vec![(commit("c1", "alice"), vec![7]), (commit("c2", "alice"), vec![9])];
    let pr_reviews = vec![(7, pr_with(vec![("alice", review(1, ReviewState::Approved))]))];
    let err = aggregate(&trusted_alice(), &prs_by_commit, &pr_reviews).unwrap_err();
    assert_eq!(err.pull_request, 9);
}

#[test]
fn overall_is_least_over_any_grouping() {
    let trusted = trusted_alice();
    let entries = vec![
        (commit("c1", "alice"), vec![1]),
        (commit("c2", "carol"), vec![]),
        (commit("c3", "alice"), vec![2]),
    ];
    let pr_reviews = vec![
        (1, pr_with(vec![("alice", review(1, ReviewState::Approved))])),
        (2, pr_with(vec![("alice", review(2, ReviewState::ChangesRequested))])),
    ];
    let (all, levels) = aggregate(&trusted, &entries, &pr_reviews).unwrap();
    assert_eq!(levels, vec![TrustLevel::Trusted, TrustLevel::Unknown, TrustLevel::Untrusted]);
    assert_eq!(all, TrustLevel::Untrusted);
    let group_a = vec![entries[2].clone(), entries[0].clone()];
    let group_b = vec![entries[1].clone()];
    let (a, _) = aggregate(&trusted, &group_a, &pr_reviews).unwrap();
    let (b, _) = aggregate(&trusted, &group_b, &pr_reviews).unwrap();
    assert_eq!(a, TrustLevel::Untrusted);
    assert_eq!(b, TrustLevel::Unknown);
    assert_eq!(all, a.least_of(b));
}

#[test]
fn contribution_table_is_total() {
    let states = [
        ReviewState::Approved,
        ReviewState::ChangesRequested,
        ReviewState::Commented,
        ReviewState::Pending,
        ReviewState::Dismissed,
        ReviewState::Other,
    ];
    for state in states {
        assert_eq!(review_contribution(TrustLevel::Untrusted, state), None);
        assert_eq!(review_contribution(TrustLevel::Unknown, state), None);
    }
    assert_eq!(review_contribution(TrustLevel::Trusted, ReviewState::Approved), Some(TrustLevel::Trusted));
    assert_eq!(review_contribution(TrustLevel::Trusted, ReviewState::ChangesRequested), Some(TrustLevel::Untrusted));
    assert_eq!(review_contribution(TrustLevel::Trusted, ReviewState::Commented), None);
    assert_eq!(review_contribution(TrustLevel::Trusted, ReviewState::Pending), None);
    assert_eq!(review_contribution(TrustLevel::Trusted, ReviewState::Dismissed), None);
    assert_eq!(review_contribution(TrustLevel::Trusted, ReviewState::Other), None);
}

#[test]
fn least_trusted_of_levels() {
    assert_eq!(least_trusted(&vec![]), TrustLevel::Trusted);
    assert_eq!(least_trusted(&vec![TrustLevel::Trusted, TrustLevel::Unknown]), TrustLevel::Unknown);
    assert_eq!(
        least_trusted(&vec![TrustLevel::Unknown, TrustLevel::Untrusted, TrustLevel::Trusted]),
        TrustLevel::Untrusted
    );
    assert_eq!(TrustLevel::Untrusted.rank(), 0);
    assert_eq!(TrustLevel::Trusted.rank(), 2);
}

#[test]
fn later_review_by_the_same_identity_wins() {
    let mut pr = PullRequest::new();
    pr.record_review("alice".to_string(), review(5, ReviewState::ChangesRequested));
    pr.record_review("bob".to_string(), review(6, ReviewState::Commented));
    pr.record_review("alice".to_string(), review(9, ReviewState::Approved));
    pr.record_review("alice".to_string(), review(3, ReviewState::Dismissed));
    assert_eq!(pr.reviews.len(), 2);
    assert_eq!(pr.reviews[0].0, "alice");
    assert_eq!(pr.reviews[0].1, review(9, ReviewState::Approved));
    assert_eq!(pr.reviews[1].1, review(6, ReviewState::Commented));
}

#[test]
fn untrusted_review_changes_nothing() {
    let prs_by_commit = vec![(commit("c1", "alice"), vec![7])];
    let base = vec![(7, pr_with(vec![("alice", review(1, ReviewState::Approved))]))];
    let with_bob = vec![(
        7,
        pr_with(vec![("alice", review(1, ReviewState::Approved)), ("bob", review(2, ReviewState::ChangesRequested))]),
    )];
    assert_eq!(
        aggregate(&trusted_alice(), &prs_by_commit, &base).unwrap(),
        aggregate(&trusted_alice(), &prs_by_commit, &with_bob).unwrap()
    );
}
