//! Trust levels, review states, and the aggregation of reviews into a verdict
//! per commit and over a whole commit range.

use vstd::prelude::*;

verus! {

/// Identifier of a pull request on the hosting service.
pub type PullRequestId = u64;

/// Identifier of a single review on the hosting service.
pub type ReviewId = u64;

/// Three-valued classification, ordered `Untrusted < Unknown < Trusted`.
#[derive(Clone, Copy, Debug, PartialEq, Eq, Structural)]
pub enum TrustLevel {
    Untrusted,
    Unknown,
    Trusted,
}

/// Position of a trust level in its total order.
pub open spec fn rank(t: TrustLevel) -> nat {
    match t {
        TrustLevel::Untrusted => 0,
        TrustLevel::Unknown => 1,
        TrustLevel::Trusted => 2,
    }
}

/// The lesser of two trust levels.
pub open spec fn min_level(a: TrustLevel, b: TrustLevel) -> TrustLevel {
    if rank(a) <= rank(b) {
        a
    } else {
        b
    }
}

/// The least of a sequence of levels; `Trusted` when it is empty.
pub open spec fn least(s: Seq<TrustLevel>) -> TrustLevel
    decreases s.len(),
{
    if s.len() == 0 {
        TrustLevel::Trusted
    } else {
        min_level(least(s.drop_last()), s.last())
    }
}

impl TrustLevel {
    /// Position of this level in the order `Untrusted < Unknown < Trusted`.
    pub fn rank(&self) -> (r: u8)
        ensures
            r as nat == rank(*self),
    {
        match self {
            TrustLevel::Untrusted => 0,
            TrustLevel::Unknown => 1,
            TrustLevel::Trusted => 2,
        }
    }

    /// The lesser of `self` and `other`.
    pub fn least_of(self, other: TrustLevel) -> (r: TrustLevel)
        ensures
            r == min_level(self, other),
    {
        if self.rank() <= other.rank() {
            self
        } else {
            other
        }
    }
}

/// State of a review, as the hosting service reports it.
#[derive(Clone, Copy, Debug, PartialEq, Eq, Structural)]
pub enum ReviewState {
    Approved,
    ChangesRequested,
    Commented,
    Pending,
    Dismissed,
    Other,
}

/// A judgment passed on a pull request by one identity.
#[derive(Clone, Copy, Debug, PartialEq, Eq, Structural)]
pub struct Review {
    pub id: ReviewId,
    pub state: ReviewState,
}

/// The reviews of one pull request, keyed by the identity that wrote each.
#[derive(Clone, Debug)]
pub struct PullRequest {
    pub reviews: Vec<(String, Review)>,
}

/// Index of the first review in `reviews`, from `from` on, written by
/// `user`; `-1` where there is none.
pub open spec fn user_index(reviews: Seq<(String, Review)>, user: Seq<char>, from: int) -> int
    decreases reviews.len() - from,
{
    if from < 0 || from >= reviews.len() {
        -1
    } else if reviews[from].0@ == user {
        from
    } else {
        user_index(reviews, user, from + 1)
    }
}

/// Of two reviews by one identity, the one that stays: the later one, by id.
pub open spec fn kept_review(current: Review, incoming: Review) -> Review {
    if incoming.id > current.id {
        incoming
    } else {
        current
    }
}

impl PullRequest {
    /// A copy of this pull request's reviews.
    pub fn duplicate(&self) -> (r: PullRequest)
        ensures
            r.reviews@ == self.reviews@,
    {
        let mut reviews: Vec<(String, Review)> = Vec::new();
        let mut i: usize = 0;
        while i < self.reviews.len()
            invariant
                i <= self.reviews.len(),
                reviews@ == self.reviews@.subrange(0, i as int),
            decreases self.reviews.len() - i,
        {
            let (user, review) = &self.reviews[i];
            reviews.push((user.clone(), *review));
            i = i + 1;
        }
        proof {
            assert(self.reviews@.subrange(0, i as int) =~= self.reviews@);
        }
        PullRequest { reviews }
    }

    /// A pull request with no reviews yet.
    pub fn new() -> (r: PullRequest)
        ensures
            r.reviews@.len() == 0,
    {
        PullRequest { reviews: Vec::new() }
    }

    /// Records `review` by `user`, keeping at most one review per identity:
    /// where `user` already has one, the review with the higher id stays.
    pub fn record_review(&mut self, user: String, review: Review)
        ensures
            ({
                let before = old(self).reviews@;
                let i = user_index(before, user@, 0);
                if i < 0 {
                    final(self).reviews@ == before.push((user, review))
                } else {
                    final(self).reviews@ == before.update(i, (before[i].0, kept_review(before[i].1, review)))
                }
            }),
            authors_unique(old(self).reviews@) ==> authors_unique(final(self).reviews@),
    {
        let mut i: usize = 0;
        while i < self.reviews.len()
            invariant
                i <= self.reviews.len(),
                self.reviews@ == old(self).reviews@,
                user_index(self.reviews@, user@, 0) == user_index(self.reviews@, user@, i as int),
                forall|k: int| 0 <= k < i ==> self.reviews@[k].0@ != user@,
            decreases self.reviews.len() - i,
        {
            if self.reviews[i].0 == user {
                if review.id > self.reviews[i].1.id {
                    let name = self.reviews[i].0.clone();
                    self.reviews.set(i, (name, review));
                }
                return;
            }
            i = i + 1;
        }
        let ghost before = self.reviews@;
        self.reviews.push((user, review));
        proof {
            assert forall|a: int, b: int| 0 <= a < b < self.reviews@.len() && authors_unique(before) implies self.reviews@[a].0@
                != self.reviews@[b].0@ by {
                if b < before.len() {
                    assert(self.reviews@[a] == before[a] && self.reviews@[b] == before[b]);
                } else {
                    assert(self.reviews@[a] == before[a]);
                }
            }
        }
    }
}

/// No pull request id occurs twice in `ids`.
pub open spec fn ids_unique(ids: Seq<PullRequestId>) -> bool {
    forall|a: int, b: int| 0 <= a < b < ids.len() ==> ids[a] != ids[b]
}

/// No pull request has two entries in `pr_reviews`.
pub open spec fn keys_unique(pr_reviews: Seq<(PullRequestId, PullRequest)>) -> bool {
    forall|a: int, b: int| 0 <= a < b < pr_reviews.len() ==> pr_reviews[a].0 != pr_reviews[b].0
}

/// No identity wrote two of `reviews`.
pub open spec fn authors_unique(reviews: Seq<(String, Review)>) -> bool {
    forall|a: int, b: int| 0 <= a < b < reviews.len() ==> reviews[a].0@ != reviews[b].0@
}

/// Whether no pull request id occurs twice in `ids`.
pub fn check_ids_unique(ids: &Vec<PullRequestId>) -> (r: bool)
    ensures
        r == ids_unique(ids@),
{
    let mut i: usize = 0;
    while i < ids.len()
        invariant
            i <= ids.len(),
            forall|a: int, b: int| 0 <= a < i && a < b < ids@.len() ==> ids@[a] != ids@[b],
        decreases ids.len() - i,
    {
        let mut j: usize = i + 1;
        while j < ids.len()
            invariant
                i < ids.len(),
                i + 1 <= j <= ids.len(),
                forall|a: int, b: int| 0 <= a < i && a < b < ids@.len() ==> ids@[a] != ids@[b],
                forall|b: int| i < b < j ==> ids@[i as int] != ids@[b],
            decreases ids.len() - j,
        {
            if ids[i] == ids[j] {
                return false;
            }
            j = j + 1;
        }
        i = i + 1;
    }
    true
}

/// Whether no pull request has two entries in `pr_reviews`.
pub fn check_keys_unique(pr_reviews: &Vec<(PullRequestId, PullRequest)>) -> (r: bool)
    ensures
        r == keys_unique(pr_reviews@),
{
    let mut i: usize = 0;
    while i < pr_reviews.len()
        invariant
            i <= pr_reviews.len(),
            forall|a: int, b: int| 0 <= a < i && a < b < pr_reviews@.len() ==> pr_reviews@[a].0 != pr_reviews@[b].0,
        decreases pr_reviews.len() - i,
    {
        let mut j: usize = i + 1;
        while j < pr_reviews.len()
            invariant
                i < pr_reviews.len(),
                i + 1 <= j <= pr_reviews.len(),
                forall|a: int, b: int| 0 <= a < i && a < b < pr_reviews@.len() ==> pr_reviews@[a].0 != pr_reviews@[b].0,
                forall|b: int| i < b < j ==> pr_reviews@[i as int].0 != pr_reviews@[b].0,
            decreases pr_reviews.len() - j,
        {
            if pr_reviews[i].0 == pr_reviews[j].0 {
                return false;
            }
            j = j + 1;
        }
        i = i + 1;
    }
    true
}

/// Whether no identity wrote two of `reviews`.
pub fn check_authors_unique(reviews: &Vec<(String, Review)>) -> (r: bool)
    ensures
        r == authors_unique(reviews@),
{
    let mut i: usize = 0;
    while i < reviews.len()
        invariant
            i <= reviews.len(),
            forall|a: int, b: int| 0 <= a < i && a < b < reviews@.len() ==> reviews@[a].0@ != reviews@[b].0@,
        decreases reviews.len() - i,
    {
        let mut j: usize = i + 1;
        while j < reviews.len()
            invariant
                i < reviews.len(),
                i + 1 <= j <= reviews.len(),
                forall|a: int, b: int| 0 <= a < i && a < b < reviews@.len() ==> reviews@[a].0@ != reviews@[b].0@,
                forall|b: int| i < b < j ==> reviews@[i as int].0@ != reviews@[b].0@,
            decreases reviews.len() - j,
        {
            if reviews[i].0 == reviews[j].0 {
                return false;
            }
            j = j + 1;
        }
        i = i + 1;
    }
    true
}

/// A commit of the audited range. `committer` is the identity that the
/// version-control history records as its committer; it is classified like
/// the author of a review and gives every commit its baseline contribution,
/// so an unreviewed commit is `Trusted` only when a trusted identity
/// committed it.
#[derive(Clone, Debug)]
pub struct Commit {
    pub hash: String,
    pub committer: String,
}

impl Commit {
    pub fn new(hash: String, committer: String) -> (r: Commit)
        ensures
            r.hash == hash,
            r.committer == committer,
    {
        Commit { hash, committer }
    }

    /// A field-by-field copy of this commit.
    pub fn duplicate(&self) -> (r: Commit)
        ensures
            r == *self,
    {
        Commit { hash: self.hash.clone(), committer: self.committer.clone() }
    }
}

/// Whether `user` is among the configured trusted identities.
pub open spec fn is_trusted(trusted: Seq<String>, user: Seq<char>) -> bool {
    exists|i: int| 0 <= i < trusted.len() && trusted[i]@ == user
}

/// How an identity is classified: `Trusted` when configured so, else
/// `Unknown`. No identity is classified `Untrusted` today.
pub open spec fn classify(trusted: Seq<String>, user: Seq<char>) -> TrustLevel {
    if is_trusted(trusted, user) {
        TrustLevel::Trusted
    } else {
        TrustLevel::Unknown
    }
}

/// What a review contributes to a commit's verdict, over every pair of the
/// author's classification and the review state. Only an approval or a
/// request for changes by a trusted author counts; every other pair is
/// ignored.
pub open spec fn contribution(reviewer: TrustLevel, state: ReviewState) -> Option<TrustLevel> {
    match (reviewer, state) {
        (TrustLevel::Trusted, ReviewState::Approved) => Some(TrustLevel::Trusted),
        (TrustLevel::Trusted, ReviewState::ChangesRequested) => Some(TrustLevel::Untrusted),
        _ => None,
    }
}

/// The contribution table as an executable, total function.
pub fn review_contribution(reviewer: TrustLevel, state: ReviewState) -> (r: Option<TrustLevel>)
    ensures
        r == contribution(reviewer, state),
{
    match reviewer {
        TrustLevel::Trusted => match state {
            ReviewState::Approved => Some(TrustLevel::Trusted),
            ReviewState::ChangesRequested => Some(TrustLevel::Untrusted),
            ReviewState::Commented => None,
            ReviewState::Pending => None,
            ReviewState::Dismissed => None,
            ReviewState::Other => None,
        },
        TrustLevel::Unknown => None,
        TrustLevel::Untrusted => None,
    }
}

/// The least contribution of a sequence of reviews, starting from `Trusted`.
pub open spec fn reviews_floor(trusted: Seq<String>, reviews: Seq<(String, Review)>) -> TrustLevel
    decreases reviews.len(),
{
    if reviews.len() == 0 {
        TrustLevel::Trusted
    } else {
        let rest = reviews_floor(trusted, reviews.drop_last());
        let (user, review) = reviews.last();
        match contribution(classify(trusted, user@), review.state) {
            Some(t) => min_level(rest, t),
            None => rest,
        }
    }
}

/// The first entry for `id` in `pr_reviews`, looking from index `from` on.
pub open spec fn find_pr(pr_reviews: Seq<(PullRequestId, PullRequest)>, id: PullRequestId, from: int) -> Option<PullRequest>
    decreases pr_reviews.len() - from,
{
    if from < 0 || from >= pr_reviews.len() {
        None
    } else if pr_reviews[from].0 == id {
        Some(pr_reviews[from].1)
    } else {
        find_pr(pr_reviews, id, from + 1)
    }
}

/// Whether `pr_reviews` has an entry for `id`.
pub open spec fn has_pr(pr_reviews: Seq<(PullRequestId, PullRequest)>, id: PullRequestId) -> bool {
    exists|i: int| 0 <= i < pr_reviews.len() && pr_reviews[i].0 == id
}

/// Whether every id in `prs` has an entry in `pr_reviews`.
pub open spec fn all_prs_known(prs: Seq<PullRequestId>, pr_reviews: Seq<(PullRequestId, PullRequest)>) -> bool {
    forall|j: int| 0 <= j < prs.len() ==> has_pr(pr_reviews, #[trigger] prs[j])
}

/// The least contribution over the reviews of the pull requests `prs`.
pub open spec fn prs_floor(
    trusted: Seq<String>,
    prs: Seq<PullRequestId>,
    pr_reviews: Seq<(PullRequestId, PullRequest)>,
) -> TrustLevel
    decreases prs.len(),
{
    if prs.len() == 0 {
        TrustLevel::Trusted
    } else {
        let rest = prs_floor(trusted, prs.drop_last(), pr_reviews);
        match find_pr(pr_reviews, prs.last(), 0) {
            Some(pr) => min_level(rest, reviews_floor(trusted, pr.reviews@)),
            None => rest,
        }
    }
}

/// A commit's trust level: the committer's own classification, lowered by
/// every contribution of the reviews of its pull requests.
pub open spec fn commit_level(
    trusted: Seq<String>,
    commit: Commit,
    prs: Seq<PullRequestId>,
    pr_reviews: Seq<(PullRequestId, PullRequest)>,
) -> TrustLevel {
    min_level(classify(trusted, commit.committer@), prs_floor(trusted, prs, pr_reviews))
}

/// Whether every pull request referenced by any commit has an entry.
pub open spec fn range_complete(
    prs_by_commit: Seq<(Commit, Vec<PullRequestId>)>,
    pr_reviews: Seq<(PullRequestId, PullRequest)>,
) -> bool {
    forall|i: int| 0 <= i < prs_by_commit.len() ==> all_prs_known(#[trigger] prs_by_commit[i].1@, pr_reviews)
}

/// The trust level of every commit, in order.
pub open spec fn commit_levels(
    trusted: Seq<String>,
    prs_by_commit: Seq<(Commit, Vec<PullRequestId>)>,
    pr_reviews: Seq<(PullRequestId, PullRequest)>,
) -> Seq<TrustLevel> {
    Seq::new(
        prs_by_commit.len(),
        |i: int| commit_level(trusted, prs_by_commit[i].0, prs_by_commit[i].1@, pr_reviews),
    )
}

/// The overall level of a commit range: the least of its commits' levels.
pub open spec fn overall_level(
    trusted: Seq<String>,
    prs_by_commit: Seq<(Commit, Vec<PullRequestId>)>,
    pr_reviews: Seq<(PullRequestId, PullRequest)>,
) -> TrustLevel {
    least(commit_levels(trusted, prs_by_commit, pr_reviews))
}

/// The least of `levels`; `Trusted` when there are none.
pub fn least_trusted(levels: &Vec<TrustLevel>) -> (r: TrustLevel)
    ensures
        r == least(levels@),
{
    let mut floor = TrustLevel::Trusted;
    let mut i: usize = 0;
    while i < levels.len()
        invariant
            i <= levels.len(),
            floor == least(levels@.subrange(0, i as int)),
        decreases levels.len() - i,
    {
        floor = floor.least_of(levels[i]);
        proof {
            assert(levels@.subrange(0, i + 1).drop_last() =~= levels@.subrange(0, i as int));
        }
        i = i + 1;
    }
    proof {
        assert(levels@.subrange(0, i as int) =~= levels@);
    }
    floor
}

/// Why aggregation failed: a commit references a pull request that has no
/// entry among the fetched reviews.
#[derive(Clone, Copy, Debug, PartialEq, Eq, Structural)]
pub struct MissingPullRequest {
    pub pull_request: PullRequestId,
}

/// Whether `user` is one of the `trusted` identities.
pub fn is_trusted_user(trusted: &Vec<String>, user: &String) -> (r: bool)
    ensures
        r == is_trusted(trusted@, user@),
{
    let mut i: usize = 0;
    while i < trusted.len()
        invariant
            i <= trusted.len(),
            forall|k: int| 0 <= k < i ==> trusted@[k]@ != user@,
        decreases trusted.len() - i,
    {
        if trusted[i] == *user {
            return true;
        }
        i = i + 1;
    }
    false
}

/// Classifies `user` against the `trusted` identities.
pub fn classify_user(trusted: &Vec<String>, user: &String) -> (r: TrustLevel)
    ensures
        r == classify(trusted@, user@),
{
    if is_trusted_user(trusted, user) {
        TrustLevel::Trusted
    } else {
        TrustLevel::Unknown
    }
}

/// The first entry for `id` in `pr_reviews`, if any.
pub fn lookup_pr(pr_reviews: &Vec<(PullRequestId, PullRequest)>, id: PullRequestId) -> (r: Option<&PullRequest>)
    ensures
        match r {
            Some(pr) => find_pr(pr_reviews@, id, 0) == Some(*pr),
            None => find_pr(pr_reviews@, id, 0).is_none(),
        },
        r.is_some() == has_pr(pr_reviews@, id),
{
    let mut i: usize = 0;
    while i < pr_reviews.len()
        invariant
            i <= pr_reviews.len(),
            find_pr(pr_reviews@, id, 0) == find_pr(pr_reviews@, id, i as int),
            forall|k: int| 0 <= k < i ==> pr_reviews@[k].0 != id,
        decreases pr_reviews.len() - i,
    {
        if pr_reviews[i].0 == id {
            return Some(&pr_reviews[i].1);
        }
        i = i + 1;
    }
    None
}

/// The least contribution among the reviews of one pull request.
pub fn pull_request_floor(trusted: &Vec<String>, pr: &PullRequest) -> (r: TrustLevel)
    ensures
        r == reviews_floor(trusted@, pr.reviews@),
{
    let mut floor = TrustLevel::Trusted;
    let mut i: usize = 0;
    while i < pr.reviews.len()
        invariant
            i <= pr.reviews.len(),
            floor == reviews_floor(trusted@, pr.reviews@.subrange(0, i as int)),
        decreases pr.reviews.len() - i,
    {
        let (user, review) = &pr.reviews[i];
        let reviewer = classify_user(trusted, user);
        match review_contribution(reviewer, review.state) {
            Some(t) => {
                floor = floor.least_of(t);
            },
            None => {},
        }
        proof {
            assert(pr.reviews@.subrange(0, i + 1).drop_last() =~= pr.reviews@.subrange(0, i as int));
        }
        i = i + 1;
    }
    proof {
        assert(pr.reviews@.subrange(0, i as int) =~= pr.reviews@);
    }
    floor
}

/// The trust level of one commit whose pull requests are `prs`, or the first
/// of them that has no entry in `pr_reviews`.
pub fn aggregate_commit(
    trusted: &Vec<String>,
    commit: &Commit,
    prs: &Vec<PullRequestId>,
    pr_reviews: &Vec<(PullRequestId, PullRequest)>,
) -> (r: Result<TrustLevel, MissingPullRequest>)
    ensures
        r.is_ok() == all_prs_known(prs@, pr_reviews@),
        r matches Ok(t) ==> t == commit_level(trusted@, *commit, prs@, pr_reviews@),
        r matches Err(e) ==> prs@.contains(e.pull_request) && !has_pr(pr_reviews@, e.pull_request),
{
    let mut floor = TrustLevel::Trusted;
    let mut i: usize = 0;
    while i < prs.len()
        invariant
            i <= prs.len(),
            floor == prs_floor(trusted@, prs@.subrange(0, i as int), pr_reviews@),
            all_prs_known(prs@.subrange(0, i as int), pr_reviews@),
        decreases prs.len() - i,
    {
        let id = prs[i];
        match lookup_pr(pr_reviews, id) {
            Some(pr) => {
                let t = pull_request_floor(trusted, pr);
                floor = floor.least_of(t);
            },
            None => {
                proof {
                    assert(prs@[i as int] == id);
                    assert(!all_prs_known(prs@, pr_reviews@));
                }
                return Err(MissingPullRequest { pull_request: id });
            },
        }
        proof {
            let next = prs@.subrange(0, i + 1);
            assert(next.drop_last() =~= prs@.subrange(0, i as int));
            assert forall|j: int| 0 <= j < next.len() implies has_pr(pr_reviews@, #[trigger] next[j]) by {
                if j < i {
                    assert(next[j] == prs@.subrange(0, i as int)[j]);
                }
            }
        }
        i = i + 1;
    }
    proof {
        assert(prs@.subrange(0, i as int) =~= prs@);
    }
    let own = classify_user(trusted, &commit.committer);
    Ok(own.least_of(floor))
}

/// Levels of every commit and of the whole range, or the first pull request
/// that a commit references and `pr_reviews` lacks.
pub fn aggregate(
    trusted: &Vec<String>,
    prs_by_commit: &Vec<(Commit, Vec<PullRequestId>)>,
    pr_reviews: &Vec<(PullRequestId, PullRequest)>,
) -> (r: Result<(TrustLevel, Vec<TrustLevel>), MissingPullRequest>)
    ensures
        r.is_ok() == range_complete(prs_by_commit@, pr_reviews@),
        r matches Ok((overall, levels)) ==> levels@ == commit_levels(trusted@, prs_by_commit@, pr_reviews@)
            && overall == overall_level(trusted@, prs_by_commit@, pr_reviews@),
        r matches Err(e) ==> !has_pr(pr_reviews@, e.pull_request) && exists|i: int|
            0 <= i < prs_by_commit.len() && (#[trigger] prs_by_commit@[i]).1@.contains(e.pull_request),
{
    let mut levels: Vec<TrustLevel> = Vec::new();
    let mut overall = TrustLevel::Trusted;
    let mut i: usize = 0;
    while i < prs_by_commit.len()
        invariant
            i <= prs_by_commit.len(),
            levels@ == commit_levels(trusted@, prs_by_commit@.subrange(0, i as int), pr_reviews@),
            overall == least(levels@),
            range_complete(prs_by_commit@.subrange(0, i as int), pr_reviews@),
        decreases prs_by_commit.len() - i,
    {
        let (commit, prs) = &prs_by_commit[i];
        match aggregate_commit(trusted, commit, prs, pr_reviews) {
            Ok(t) => {
                proof {
                    let before = levels@;
                    let next = prs_by_commit@.subrange(0, i + 1);
                    assert(before.push(t) =~= commit_levels(trusted@, next, pr_reviews@));
                    assert(before.push(t).drop_last() =~= before);
                    assert forall|k: int| 0 <= k < next.len() implies all_prs_known(
                        (#[trigger] next[k]).1@,
                        pr_reviews@,
                    ) by {
                        if k < i {
                            assert(next[k] == prs_by_commit@.subrange(0, i as int)[k]);
                        }
                    }
                }
                levels.push(t);
                overall = overall.least_of(t);
            },
            Err(e) => {
                proof {
                    assert(!all_prs_known(prs_by_commit@[i as int].1@, pr_reviews@));
                }
                return Err(e);
            },
        }
        i = i + 1;
    }
    proof {
        assert(prs_by_commit@.subrange(0, i as int) =~= prs_by_commit@);
    }
    Ok((overall, levels))
}

} // verus!
