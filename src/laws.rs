//! Properties of aggregation that hold for every input.

use vstd::prelude::*;

use crate::trust::{
    classify, commit_level, commit_levels, contribution, find_pr, is_trusted, least, min_level, overall_level,
    prs_floor, rank, reviews_floor, Commit, PullRequest, PullRequestId, Review, ReviewState, TrustLevel,
};

verus! {

/// `least(s)` is at or below every element of `s`, and is one of them unless
/// `s` is empty, in which case it is `Trusted`.
pub proof fn lemma_least_is_minimum(s: Seq<TrustLevel>)
    ensures
        forall|i: int| 0 <= i < s.len() ==> rank(least(s)) <= rank(#[trigger] s[i]),
        s.len() == 0 ==> least(s) == TrustLevel::Trusted,
        s.len() > 0 ==> exists|i: int| 0 <= i < s.len() && least(s) == s[i],
    decreases s.len(),
{
    if s.len() > 0 {
        let init = s.drop_last();
        lemma_least_is_minimum(init);
        assert forall|i: int| 0 <= i < s.len() implies rank(least(s)) <= rank(#[trigger] s[i]) by {
            if i < s.len() - 1 {
                assert(s[i] == init[i]);
            }
        }
        if init.len() > 0 && rank(least(init)) <= rank(s.last()) {
            let j = choose|j: int| 0 <= j < init.len() && least(init) == init[j];
            assert(least(s) == s[j]);
        } else {
            assert(least(s) == s[s.len() - 1]);
        }
    }
}

/// Grouping does not matter: when every commit entry of `all` lies in `a` or
/// in `b`, and each entry of `a` and `b` lies in `all`, the overall level of
/// `all` is the lesser of the overall levels of the two groups. Applied
/// repeatedly, this covers any partition into disjoint groups, in any order.
pub proof fn lemma_overall_of_partition(
    trusted: Seq<String>,
    all: Seq<(Commit, Vec<PullRequestId>)>,
    a: Seq<(Commit, Vec<PullRequestId>)>,
    b: Seq<(Commit, Vec<PullRequestId>)>,
    pr_reviews: Seq<(PullRequestId, PullRequest)>,
)
    requires
        forall|e: (Commit, Vec<PullRequestId>)| all.contains(e) <==> (a.contains(e) || b.contains(e)),
    ensures
        overall_level(trusted, all, pr_reviews) == min_level(
            overall_level(trusted, a, pr_reviews),
            overall_level(trusted, b, pr_reviews),
        ),
{
    let la = commit_levels(trusted, a, pr_reviews);
    let lb = commit_levels(trusted, b, pr_reviews);
    let ls = commit_levels(trusted, all, pr_reviews);
    lemma_least_is_minimum(la);
    lemma_least_is_minimum(lb);
    lemma_least_is_minimum(ls);
    let l = least(ls);
    let m = min_level(least(la), least(lb));
    // Every level of a group is a level of `all`, so `l` lies at or below both.
    if la.len() > 0 {
        let i = choose|i: int| 0 <= i < la.len() && least(la) == la[i];
        assert(a.contains(a[i]));
        let j = choose|j: int| 0 <= j < all.len() && all[j] == a[i];
        assert(ls[j] == la[i]);
    }
    if lb.len() > 0 {
        let i = choose|i: int| 0 <= i < lb.len() && least(lb) == lb[i];
        assert(b.contains(b[i]));
        let j = choose|j: int| 0 <= j < all.len() && all[j] == b[i];
        assert(ls[j] == lb[i]);
    }
    assert(rank(l) <= rank(m));
    // The level that `l` is comes from one of the groups.
    if ls.len() > 0 {
        let j = choose|j: int| 0 <= j < ls.len() && l == ls[j];
        assert(all.contains(all[j]));
        if a.contains(all[j]) {
            let i = choose|i: int| 0 <= i < a.len() && a[i] == all[j];
            assert(la[i] == ls[j]);
        } else {
            let i = choose|i: int| 0 <= i < b.len() && b[i] == all[j];
            assert(lb[i] == ls[j]);
        }
    } else {
        if la.len() > 0 {
            assert(all.contains(a[0]));
        }
        if lb.len() > 0 {
            assert(all.contains(b[0]));
        }
    }
    assert(rank(m) <= rank(l));
}

/// A commit whose committer is not trusted never reaches `Trusted`, and with
/// no pull requests at all it is exactly `Unknown`.
pub proof fn lemma_untrusted_committer_never_trusted(
    trusted: Seq<String>,
    commit: Commit,
    prs: Seq<PullRequestId>,
    pr_reviews: Seq<(PullRequestId, PullRequest)>,
)
    requires
        !is_trusted(trusted, commit.committer@),
    ensures
        commit_level(trusted, commit, prs, pr_reviews) != TrustLevel::Trusted,
        prs.len() == 0 ==> commit_level(trusted, commit, prs, pr_reviews) == TrustLevel::Unknown,
{
    assert(classify(trusted, commit.committer@) == TrustLevel::Unknown);
    if prs.len() == 0 {
        assert(prs_floor(trusted, prs, pr_reviews) == TrustLevel::Trusted);
    }
}

/// The floor of a list of reviews lies at or below what any one of them
/// contributes.
pub proof fn lemma_reviews_floor_below_each(trusted: Seq<String>, reviews: Seq<(String, Review)>, i: int)
    requires
        0 <= i < reviews.len(),
        contribution(classify(trusted, reviews[i].0@), reviews[i].1.state) is Some,
    ensures
        rank(reviews_floor(trusted, reviews)) <= rank(
            contribution(classify(trusted, reviews[i].0@), reviews[i].1.state)->Some_0,
        ),
    decreases reviews.len(),
{
    if i < reviews.len() - 1 {
        let init = reviews.drop_last();
        assert(init[i] == reviews[i]);
        lemma_reviews_floor_below_each(trusted, init, i);
    }
}

/// The floor over several pull requests lies at or below the floor of any
/// one of them that has an entry.
pub proof fn lemma_prs_floor_below_each(
    trusted: Seq<String>,
    prs: Seq<PullRequestId>,
    pr_reviews: Seq<(PullRequestId, PullRequest)>,
    j: int,
)
    requires
        0 <= j < prs.len(),
        find_pr(pr_reviews, prs[j], 0) is Some,
    ensures
        rank(prs_floor(trusted, prs, pr_reviews)) <= rank(
            reviews_floor(trusted, find_pr(pr_reviews, prs[j], 0)->Some_0.reviews@),
        ),
    decreases prs.len(),
{
    if j < prs.len() - 1 {
        let init = prs.drop_last();
        assert(init[j] == prs[j]);
        lemma_prs_floor_below_each(trusted, init, pr_reviews, j);
    }
}

/// One request for changes by a trusted identity, on any pull request of a
/// commit, makes the commit `Untrusted`, however many trusted approvals it
/// also has.
pub proof fn lemma_trusted_rejection_overrides(
    trusted: Seq<String>,
    commit: Commit,
    prs: Seq<PullRequestId>,
    pr_reviews: Seq<(PullRequestId, PullRequest)>,
    j: int,
    i: int,
)
    requires
        0 <= j < prs.len(),
        find_pr(pr_reviews, prs[j], 0) is Some,
        0 <= i < find_pr(pr_reviews, prs[j], 0)->Some_0.reviews@.len(),
        is_trusted(trusted, find_pr(pr_reviews, prs[j], 0)->Some_0.reviews@[i].0@),
        find_pr(pr_reviews, prs[j], 0)->Some_0.reviews@[i].1.state == ReviewState::ChangesRequested,
    ensures
        commit_level(trusted, commit, prs, pr_reviews) == TrustLevel::Untrusted,
{
    let reviews = find_pr(pr_reviews, prs[j], 0)->Some_0.reviews@;
    lemma_reviews_floor_below_each(trusted, reviews, i);
    lemma_prs_floor_below_each(trusted, prs, pr_reviews, j);
}

/// The overall level of each group, in order.
pub open spec fn group_levels(
    trusted: Seq<String>,
    groups: Seq<Seq<(Commit, Vec<PullRequestId>)>>,
    pr_reviews: Seq<(PullRequestId, PullRequest)>,
) -> Seq<TrustLevel> {
    Seq::new(groups.len(), |k: int| overall_level(trusted, groups[k], pr_reviews))
}

/// Grouping does not matter, for any number of groups: when the commit
/// entries of `all` are exactly those that lie in some group, the overall
/// level of `all` is the least of the groups' overall levels (`Trusted` when
/// there are none).
pub proof fn lemma_overall_of_groups(
    trusted: Seq<String>,
    all: Seq<(Commit, Vec<PullRequestId>)>,
    groups: Seq<Seq<(Commit, Vec<PullRequestId>)>>,
    pr_reviews: Seq<(PullRequestId, PullRequest)>,
)
    requires
        forall|e: (Commit, Vec<PullRequestId>)| all.contains(e) <==> exists|k: int|
            0 <= k < groups.len() && (#[trigger] groups[k]).contains(e),
    ensures
        overall_level(trusted, all, pr_reviews) == least(group_levels(trusted, groups, pr_reviews)),
{
    let ls = commit_levels(trusted, all, pr_reviews);
    let gl = group_levels(trusted, groups, pr_reviews);
    lemma_least_is_minimum(ls);
    lemma_least_is_minimum(gl);
    let l = least(ls);
    let m = least(gl);
    // Every group's level lies at or above `l`.
    assert forall|k: int| 0 <= k < gl.len() implies rank(l) <= rank(#[trigger] gl[k]) by {
        let lk = commit_levels(trusted, groups[k], pr_reviews);
        lemma_least_is_minimum(lk);
        if lk.len() > 0 {
            let i = choose|i: int| 0 <= i < lk.len() && least(lk) == lk[i];
            assert(groups[k].contains(groups[k][i]));
            assert(all.contains(groups[k][i]));
            let j = choose|j: int| 0 <= j < all.len() && all[j] == groups[k][i];
            assert(ls[j] == lk[i]);
        }
    }
    if gl.len() > 0 {
        let k = choose|k: int| 0 <= k < gl.len() && m == gl[k];
        assert(rank(l) <= rank(gl[k]));
    }
    assert(rank(l) <= rank(m));
    if ls.len() > 0 {
        let j = choose|j: int| 0 <= j < ls.len() && l == ls[j];
        assert(all.contains(all[j]));
        let k = choose|k: int| 0 <= k < groups.len() && (#[trigger] groups[k]).contains(all[j]);
        let i = choose|i: int| 0 <= i < groups[k].len() && groups[k][i] == all[j];
        let lk = commit_levels(trusted, groups[k], pr_reviews);
        lemma_least_is_minimum(lk);
        assert(lk[i] == ls[j]);
        assert(rank(gl[k]) <= rank(lk[i]));
        assert(rank(m) <= rank(gl[k]));
    } else {
        assert forall|k: int| 0 <= k < gl.len() implies #[trigger] gl[k] == TrustLevel::Trusted by {
            if groups[k].len() > 0 {
                assert(groups[k].contains(groups[k][0]));
                assert(all.contains(groups[k][0]));
            }
            lemma_least_is_minimum(commit_levels(trusted, groups[k], pr_reviews));
        }
    }
    assert(rank(m) <= rank(l));
}

/// A review written by an identity outside `trusted` counts for nothing:
/// taking it out leaves the floor of the reviews as it was. So adding such a
/// review, or changing its state, changes nothing either.
pub proof fn lemma_untrusted_review_ignored(trusted: Seq<String>, reviews: Seq<(String, Review)>, i: int)
    requires
        0 <= i < reviews.len(),
        !is_trusted(trusted, reviews[i].0@),
    ensures
        reviews_floor(trusted, reviews) == reviews_floor(trusted, reviews.remove(i)),
    decreases reviews.len(),
{
    if i == reviews.len() - 1 {
        assert(reviews.remove(i) =~= reviews.drop_last());
    } else {
        let init = reviews.drop_last();
        assert(init[i] == reviews[i]);
        lemma_untrusted_review_ignored(trusted, init, i);
        assert(reviews.remove(i).drop_last() =~= init.remove(i));
        assert(reviews.remove(i).last() == reviews.last());
    }
}

/// Looking up any pull request in `a` or in `b`, which differ only in the
/// reviews of entry `k` and not in their floor, finds entries with equal
/// floors.
pub proof fn lemma_find_pr_same_floor(
    trusted: Seq<String>,
    a: Seq<(PullRequestId, PullRequest)>,
    b: Seq<(PullRequestId, PullRequest)>,
    k: int,
    id: PullRequestId,
    from: int,
)
    requires
        a.len() == b.len(),
        0 <= k < a.len(),
        forall|j: int| 0 <= j < a.len() && j != k ==> a[j] == b[j],
        a[k].0 == b[k].0,
        reviews_floor(trusted, a[k].1.reviews@) == reviews_floor(trusted, b[k].1.reviews@),
    ensures
        find_pr(a, id, from) is Some == find_pr(b, id, from) is Some,
        find_pr(a, id, from) is Some ==> reviews_floor(trusted, find_pr(a, id, from)->Some_0.reviews@)
            == reviews_floor(trusted, find_pr(b, id, from)->Some_0.reviews@),
    decreases a.len() - from,
{
    if 0 <= from < a.len() {
        if from != k {
            assert(a[from] == b[from]);
        }
        lemma_find_pr_same_floor(trusted, a, b, k, id, from + 1);
    }
}

/// The floor over the pull requests `prs` is the same in `a` and in `b`,
/// which differ only in the reviews of entry `k` and not in their floor.
pub proof fn lemma_prs_floor_same(
    trusted: Seq<String>,
    prs: Seq<PullRequestId>,
    a: Seq<(PullRequestId, PullRequest)>,
    b: Seq<(PullRequestId, PullRequest)>,
    k: int,
)
    requires
        a.len() == b.len(),
        0 <= k < a.len(),
        forall|j: int| 0 <= j < a.len() && j != k ==> a[j] == b[j],
        a[k].0 == b[k].0,
        reviews_floor(trusted, a[k].1.reviews@) == reviews_floor(trusted, b[k].1.reviews@),
    ensures
        prs_floor(trusted, prs, a) == prs_floor(trusted, prs, b),
    decreases prs.len(),
{
    if prs.len() > 0 {
        lemma_prs_floor_same(trusted, prs.drop_last(), a, b, k);
        lemma_find_pr_same_floor(trusted, a, b, k, prs.last(), 0);
    }
}

/// Taking out, from the reviews of entry `k`, the review at `i` written by
/// an identity outside `trusted` leaves every commit's level, and the overall
/// level, as they were.
pub proof fn lemma_untrusted_review_changes_no_level(
    trusted: Seq<String>,
    prs_by_commit: Seq<(Commit, Vec<PullRequestId>)>,
    a: Seq<(PullRequestId, PullRequest)>,
    b: Seq<(PullRequestId, PullRequest)>,
    k: int,
    i: int,
)
    requires
        a.len() == b.len(),
        0 <= k < a.len(),
        forall|j: int| 0 <= j < a.len() && j != k ==> a[j] == b[j],
        a[k].0 == b[k].0,
        0 <= i < a[k].1.reviews@.len(),
        !is_trusted(trusted, a[k].1.reviews@[i].0@),
        b[k].1.reviews@ == a[k].1.reviews@.remove(i),
    ensures
        commit_levels(trusted, prs_by_commit, a) == commit_levels(trusted, prs_by_commit, b),
        overall_level(trusted, prs_by_commit, a) == overall_level(trusted, prs_by_commit, b),
{
    lemma_untrusted_review_ignored(trusted, a[k].1.reviews@, i);
    assert forall|c: int| 0 <= c < prs_by_commit.len() implies #[trigger] commit_levels(trusted, prs_by_commit, a)[c]
        == commit_levels(trusted, prs_by_commit, b)[c] by {
        lemma_prs_floor_same(trusted, prs_by_commit[c].1@, a, b, k);
    }
    assert(commit_levels(trusted, prs_by_commit, a) =~= commit_levels(trusted, prs_by_commit, b));
}

} // verus!
