//! Which unsolved problems to practise next.
//!
//! Two regimes. With no accepted submission yet (a cold start) there is
//! nothing personal to go on, so popular problems around a default level are
//! surfaced. With history, the user's weak topics are targeted just above
//! their level. Either way the list is kept varied.
//!
//! Recommending happens in three steps. [`eligible_candidates`] keeps the
//! problems that may be recommended, with what their score depends on. The
//! score itself is a floating-point formula and is computed outside this
//! library; [`rank_order`] orders the candidates by it, highest first, keeping
//! equal scores in catalogue order. [`recommend_problems`] then picks from
//! that order while capping how many share a topic or a rating.

use vstd::prelude::*;
use vstd::set_lib::*;

use crate::models::{texts, Platform, Problem, ProblemView, Submission, TagStat, Verdict};
use crate::text::{decimal, lowercase_of, to_lowercase, u64_text};
use vstd::string::*;

verus! {

/// A problem recommended to the user, with the reason shown beside it.
#[derive(Debug)]
pub struct Recommendation {
    pub problem: Problem,
    pub reason: String,
}

/// A problem that may be recommended, with what its score depends on.
#[derive(Debug)]
pub struct Candidate {
    pub problem: Problem,
    /// Why it would be recommended.
    pub reason: String,
    /// Its first tag in lower case (`misc` when it has none).
    pub primary_tag: String,
    /// Its rating.
    pub rating: u32,
    /// How many of its tags are weak topics of the user.
    pub weak_matches: usize,
    /// Whether the user has submitted to it.
    pub attempted: bool,
}

/// The content of a [`Candidate`].
pub struct CandidateView {
    pub problem: ProblemView,
    pub reason: Seq<char>,
    pub primary_tag: Seq<char>,
    pub rating: u32,
    pub weak_matches: nat,
    pub attempted: bool,
}

impl View for Candidate {
    type V = CandidateView;

    open spec fn view(&self) -> CandidateView {
        CandidateView {
            problem: self.problem@,
            reason: self.reason@,
            primary_tag: self.primary_tag@,
            rating: self.rating,
            weak_matches: self.weak_matches as nat,
            attempted: self.attempted,
        }
    }
}

/// The content of a [`Recommendation`].
pub struct RecommendationView {
    pub problem: ProblemView,
    pub reason: Seq<char>,
}

impl View for Recommendation {
    type V = RecommendationView;

    open spec fn view(&self) -> RecommendationView {
        RecommendationView { problem: self.problem@, reason: self.reason@ }
    }
}

/// The contents of a list of candidates.
pub open spec fn candidate_views(v: Seq<Candidate>) -> Seq<CandidateView> {
    v.map_values(|c: Candidate| c@)
}

/// The contents of a list of recommendations.
pub open spec fn recommendation_views(v: Seq<Recommendation>) -> Seq<RecommendationView> {
    v.map_values(|r: Recommendation| r@)
}

/// The contents of a list of problems.
pub open spec fn problem_views(v: Seq<Problem>) -> Seq<ProblemView> {
    v.map_values(|p: Problem| p@)
}

// ---------------------------------------------------------------------------
// What the user has done
// ---------------------------------------------------------------------------

/// Whether a submission is to the given problem.
pub open spec fn submitted_to(s: Submission, platform: Platform, id: Seq<char>) -> bool {
    s.platform == platform && s.problem_id@ == id
}

/// Whether the user has an accepted submission to the problem.
pub open spec fn is_solved(subs: Seq<Submission>, platform: Platform, id: Seq<char>) -> bool {
    exists|j: int|
        0 <= j < subs.len() && #[trigger] submitted_to(subs[j], platform, id) && subs[j].verdict
            == Verdict::Accepted
}

/// Whether the user has any submission to the problem.
pub open spec fn is_attempted(subs: Seq<Submission>, platform: Platform, id: Seq<char>) -> bool {
    exists|j: int| 0 <= j < subs.len() && #[trigger] submitted_to(subs[j], platform, id)
}

/// Whether the user has solved anything at all.
pub open spec fn has_history(subs: Seq<Submission>) -> bool {
    exists|j: int| 0 <= j < subs.len() && #[trigger] subs[j].verdict == Verdict::Accepted
}

/// The topics the user has worked on at least twice, in the order given.
pub open spec fn frequent_tags(stats: Seq<TagStat>) -> Seq<Seq<char>>
    decreases stats.len(),
{
    if stats.len() == 0 {
        Seq::empty()
    } else {
        let earlier = frequent_tags(stats.drop_last());
        let t = stats.last();
        if t.solved + t.attempted >= 2 {
            earlier.push(t.tag@)
        } else {
            earlier
        }
    }
}

/// The user's weak topics: the first six topics worked on at least twice
/// (topic statistics come weakest first), in lower case.
pub open spec fn weak_tags(stats: Seq<TagStat>) -> Seq<Seq<char>> {
    let f = frequent_tags(stats);
    let top = if f.len() > 6 {
        f.subrange(0, 6)
    } else {
        f
    };
    top.map_values(|t: Seq<char>| lowercase_of(t))
}

// ---------------------------------------------------------------------------
// Candidates
// ---------------------------------------------------------------------------

/// A problem's tags in lower case.
pub open spec fn lower_tags(p: ProblemView) -> Seq<Seq<char>> {
    p.tags.map_values(|t: Seq<char>| lowercase_of(t))
}

/// The tags that are weak topics, in the problem's order.
pub open spec fn weak_matches(tags: Seq<Seq<char>>, weak: Seq<Seq<char>>) -> Seq<Seq<char>>
    decreases tags.len(),
{
    if tags.len() == 0 {
        Seq::empty()
    } else {
        let earlier = weak_matches(tags.drop_last(), weak);
        if weak.contains(tags.last()) {
            earlier.push(tags.last())
        } else {
            earlier
        }
    }
}

/// At most the first two of a list of tags, separated by a comma.
pub open spec fn first_two_joined(ts: Seq<Seq<char>>) -> Seq<char> {
    if ts.len() == 0 {
        Seq::empty()
    } else if ts.len() == 1 {
        ts[0]
    } else {
        ts[0] + ", "@ + ts[1]
    }
}

/// Why a problem is recommended: its weak topics, else that it was tried and
/// not solved, else that it is just above the user's level (or, on a cold
/// start, that it is popular at its rating).
pub open spec fn reason_text(matches: Seq<Seq<char>>, attempted: bool, history: bool, rating: u32) -> Seq<char> {
    if matches.len() > 0 {
        "Weak topic: "@ + first_two_joined(matches)
    } else if attempted {
        "Unfinished — give it another go"@
    } else if history {
        "Just above your level · "@ + decimal(rating as nat)
    } else {
        "Popular "@ + decimal(rating as nat) + " problem"@
    }
}

/// A problem's first tag in lower case, or `misc`.
pub open spec fn primary_tag_text(tags: Seq<Seq<char>>) -> Seq<char> {
    if tags.len() > 0 {
        tags[0]
    } else {
        "misc"@
    }
}

/// The level practice is centred on: the user's rating, or 1200 without one.
pub open spec fn center(user_rating: Option<u32>) -> int {
    match user_rating {
        Some(r) => r as int,
        None => 1200,
    }
}

/// The lowest rating recommended: 200 below the centre, but not below zero.
pub open spec fn window_low(user_rating: Option<u32>) -> int {
    if center(user_rating) >= 200 {
        center(user_rating) - 200
    } else {
        0
    }
}

/// The highest rating recommended: 300 above the centre.
pub open spec fn window_high(user_rating: Option<u32>) -> int {
    center(user_rating) + 300
}

/// Whether a problem may be recommended: not solved, rated, and rated within
/// the window around the user's level.
pub open spec fn eligible(subs: Seq<Submission>, user_rating: Option<u32>, p: ProblemView) -> bool {
    &&& !is_solved(subs, p.platform, p.id)
    &&& p.rating matches Some(r)
    &&& window_low(user_rating) <= r <= window_high(user_rating)
}

/// The candidate a problem makes, when it is eligible.
pub open spec fn candidate_of(
    subs: Seq<Submission>,
    weak: Seq<Seq<char>>,
    user_rating: Option<u32>,
    p: ProblemView,
) -> CandidateView {
    let tags = lower_tags(p);
    let m = weak_matches(tags, weak);
    let attempted = is_attempted(subs, p.platform, p.id);
    CandidateView {
        problem: p,
        reason: reason_text(m, attempted, has_history(subs), p.rating->0),
        primary_tag: primary_tag_text(tags),
        rating: p.rating->0,
        weak_matches: m.len(),
        attempted,
    }
}

/// The candidates among the problems, in catalogue order.
pub open spec fn candidate_list(
    subs: Seq<Submission>,
    problems: Seq<ProblemView>,
    stats: Seq<TagStat>,
    user_rating: Option<u32>,
) -> Seq<CandidateView>
    decreases problems.len(),
{
    if problems.len() == 0 {
        Seq::empty()
    } else {
        let earlier = candidate_list(subs, problems.drop_last(), stats, user_rating);
        let p = problems.last();
        if eligible(subs, user_rating, p) {
            earlier.push(candidate_of(subs, weak_tags(stats), user_rating, p))
        } else {
            earlier
        }
    }
}

fn submission_matches(s: &Submission, platform: Platform, id: &String) -> (r: bool)
    ensures
        r == submitted_to(*s, platform, id@),
{
    s.platform == platform && s.problem_id == *id
}

/// Whether the user solved (`accepted_only`) or tried the problem.
fn find_submission(subs: &[Submission], platform: Platform, id: &String, accepted_only: bool) -> (r: bool)
    ensures
        accepted_only ==> r == is_solved(subs@, platform, id@),
        !accepted_only ==> r == is_attempted(subs@, platform, id@),
{
    let mut j: usize = 0;
    while j < subs.len()
        invariant
            j <= subs@.len(),
            forall|k: int|
                0 <= k < j ==> !(#[trigger] submitted_to(subs@[k], platform, id@) && (!accepted_only
                    || subs@[k].verdict == Verdict::Accepted)),
        decreases subs.len() - j,
    {
        if submission_matches(&subs[j], platform, id) && (!accepted_only || subs[j].verdict == Verdict::Accepted) {
            return true;
        }
        j = j + 1;
    }
    false
}

fn any_accepted(subs: &[Submission]) -> (r: bool)
    ensures
        r == has_history(subs@),
{
    let mut j: usize = 0;
    while j < subs.len()
        invariant
            j <= subs@.len(),
            forall|k: int| 0 <= k < j ==> !(#[trigger] subs@[k].verdict == Verdict::Accepted),
        decreases subs.len() - j,
    {
        if subs[j].verdict == Verdict::Accepted {
            return true;
        }
        j = j + 1;
    }
    false
}

/// The user's weak topics, in lower case.
pub fn weak_topics(stats: &[TagStat]) -> (r: Vec<String>)
    ensures
        texts(r@) == weak_tags(stats@),
{
    let mut top: Vec<String> = Vec::new();
    let mut j: usize = 0;
    while j < stats.len() && top.len() < 6
        invariant
            j <= stats@.len(),
            top@.len() <= 6,
            top@.len() < 6 ==> texts(top@) == frequent_tags(stats@.subrange(0, j as int)),
            top@.len() == 6 ==> texts(top@) == frequent_tags(stats@.subrange(0, j as int)).subrange(0, 6),
            top@.len() == 6 ==> frequent_tags(stats@.subrange(0, j as int)).len() >= 6,
        decreases stats.len() - j,
    {
        proof {
            assert(stats@.subrange(0, j + 1).drop_last() =~= stats@.subrange(0, j as int));
        }
        let t = &stats[j];
        if t.solved as u64 + t.attempted as u64 >= 2 {
            top.push(t.tag.clone());
            assert(texts(top@) =~= frequent_tags(stats@.subrange(0, j + 1)));
        }
        j = j + 1;
    }
    proof {
        lemma_frequent_prefix(stats@, j as int);
        if j == stats@.len() {
            assert(stats@.subrange(0, j as int) =~= stats@);
        }
    }
    let mut r: Vec<String> = Vec::new();
    let mut k: usize = 0;
    while k < top.len()
        invariant
            k <= top@.len(),
            r@.len() == k,
            forall|i: int| 0 <= i < k ==> #[trigger] r@[i]@ == lowercase_of(top@[i]@),
        decreases top.len() - k,
    {
        r.push(to_lowercase(top[k].as_str()));
        k = k + 1;
    }
    let ghost f = frequent_tags(stats@);
    assert(texts(top@) == (if f.len() > 6 { f.subrange(0, 6) } else { f }));
    assert(texts(r@) =~= weak_tags(stats@));
    r
}

/// The frequent topics of a prefix are a prefix of the frequent topics.
proof fn lemma_frequent_prefix(stats: Seq<TagStat>, j: int)
    requires
        0 <= j <= stats.len(),
    ensures
        frequent_tags(stats.subrange(0, j)).len() <= frequent_tags(stats).len(),
        frequent_tags(stats.subrange(0, j)) == frequent_tags(stats).subrange(
            0,
            frequent_tags(stats.subrange(0, j)).len() as int,
        ),
    decreases stats.len() - j,
{
    if j == stats.len() {
        assert(stats.subrange(0, j) =~= stats);
        assert(frequent_tags(stats) =~= frequent_tags(stats).subrange(0, frequent_tags(stats).len() as int));
    } else {
        lemma_frequent_prefix(stats, j + 1);
        assert(stats.subrange(0, j + 1).drop_last() =~= stats.subrange(0, j));
        let a = frequent_tags(stats.subrange(0, j));
        let b = frequent_tags(stats.subrange(0, j + 1));
        assert(a =~= b.subrange(0, a.len() as int));
    }
}

fn lower_all(tags: &Vec<String>) -> (r: Vec<String>)
    ensures
        texts(r@) == texts(tags@).map_values(|t: Seq<char>| lowercase_of(t)),
{
    let mut r: Vec<String> = Vec::new();
    let mut k: usize = 0;
    while k < tags.len()
        invariant
            k <= tags@.len(),
            r@.len() == k,
            forall|i: int| 0 <= i < k ==> #[trigger] r@[i]@ == lowercase_of(tags@[i]@),
        decreases tags.len() - k,
    {
        r.push(to_lowercase(tags[k].as_str()));
        k = k + 1;
    }
    assert(texts(r@) =~= texts(tags@).map_values(|t: Seq<char>| lowercase_of(t)));
    r
}

fn contains_tag(list: &Vec<String>, t: &String) -> (r: bool)
    ensures
        r == texts(list@).contains(t@),
{
    let mut k: usize = 0;
    while k < list.len()
        invariant
            k <= list@.len(),
            forall|i: int| 0 <= i < k ==> #[trigger] list@[i]@ != t@,
        decreases list.len() - k,
    {
        if list[k] == *t {
            assert(texts(list@)[k as int] == t@);
            return true;
        }
        k = k + 1;
    }
    assert(!texts(list@).contains(t@)) by {
        if texts(list@).contains(t@) {
            let i = choose|i: int| 0 <= i < texts(list@).len() && texts(list@)[i] == t@;
            assert(list@[i]@ == t@);
        }
    }
    false
}

fn matching_tags(tags: &Vec<String>, weak: &Vec<String>) -> (r: Vec<String>)
    ensures
        texts(r@) == weak_matches(texts(tags@), texts(weak@)),
{
    let mut r: Vec<String> = Vec::new();
    let mut k: usize = 0;
    while k < tags.len()
        invariant
            k <= tags@.len(),
            texts(r@) == weak_matches(texts(tags@).subrange(0, k as int), texts(weak@)),
        decreases tags.len() - k,
    {
        proof {
            assert(texts(tags@).subrange(0, k + 1).drop_last() =~= texts(tags@).subrange(0, k as int));
        }
        if contains_tag(weak, &tags[k]) {
            r.push(tags[k].clone());
            assert(texts(r@) =~= weak_matches(texts(tags@).subrange(0, k + 1), texts(weak@)));
        }
        k = k + 1;
    }
    assert(texts(tags@).subrange(0, tags@.len() as int) =~= texts(tags@));
    r
}

fn reason_for(matches: &Vec<String>, attempted: bool, history: bool, rating: u32) -> (r: String)
    ensures
        r@ == reason_text(texts(matches@), attempted, history, rating),
{
    if matches.len() > 0 {
        let mut r = String::from_str("Weak topic: ");
        r.append(matches[0].as_str());
        if matches.len() > 1 {
            r.append(", ");
            r.append(matches[1].as_str());
        }
        r
    } else if attempted {
        String::from_str("Unfinished — give it another go")
    } else if history {
        let mut r = String::from_str("Just above your level · ");
        let n = u64_text(rating as u64);
        r.append(n.as_str());
        r
    } else {
        let mut r = String::from_str("Popular ");
        let n = u64_text(rating as u64);
        r.append(n.as_str());
        r.append(" problem");
        r
    }
}

/// The problems that may be recommended, in catalogue order, each with its
/// reason, its primary topic and what its score depends on. A problem may be
/// recommended when it is not solved and is rated from 200 below to 300 above
/// the user's rating (1200 without one).
pub fn eligible_candidates(
    submissions: &[Submission],
    all_problems: &[Problem],
    tag_stats: &[TagStat],
    user_rating: Option<u32>,
) -> (r: Vec<Candidate>)
    requires
        window_high(user_rating) <= u32::MAX,
    ensures
        candidate_views(r@) == candidate_list(submissions@, problem_views(all_problems@), tag_stats@, user_rating),
{
    let weak = weak_topics(tag_stats);
    let history = any_accepted(submissions);
    let center: u32 = match user_rating {
        Some(c) => c,
        None => 1200,
    };
    let lo: u32 = if center >= 200 { center - 200 } else { 0 };
    let hi: u32 = center + 300;
    let mut out: Vec<Candidate> = Vec::new();
    let mut i: usize = 0;
    while i < all_problems.len()
        invariant
            i <= all_problems@.len(),
            texts(weak@) == weak_tags(tag_stats@),
            history == has_history(submissions@),
            lo == window_low(user_rating),
            hi == window_high(user_rating),
            candidate_views(out@) == candidate_list(
                submissions@,
                problem_views(all_problems@.subrange(0, i as int)),
                tag_stats@,
                user_rating,
            ),
        decreases all_problems.len() - i,
    {
        let p = &all_problems[i];
        let ghost pv = p@;
        proof {
            assert(problem_views(all_problems@.subrange(0, i + 1)).drop_last()
                =~= problem_views(all_problems@.subrange(0, i as int)));
            assert(problem_views(all_problems@.subrange(0, i + 1)).last() == pv);
        }
        let solved = find_submission(submissions, p.platform, &p.id, true);
        if !solved {
            if let Some(rating) = p.rating {
                if lo <= rating && rating <= hi {
                    let tags = lower_all(&p.tags);
                    let matches = matching_tags(&tags, &weak);
                    let attempted = find_submission(submissions, p.platform, &p.id, false);
                    let reason = reason_for(&matches, attempted, history, rating);
                    let primary = if tags.len() > 0 {
                        tags[0].clone()
                    } else {
                        String::from_str("misc")
                    };
                    let c = Candidate {
                        problem: p.duplicate(),
                        reason,
                        primary_tag: primary,
                        rating,
                        weak_matches: matches.len(),
                        attempted,
                    };
                    proof {
                        assert(texts(tags@) == lower_tags(pv));
                        assert(c@ == candidate_of(submissions@, weak_tags(tag_stats@), user_rating, pv));
                    }
                    out.push(c);
                    assert(candidate_views(out@) =~= candidate_list(
                        submissions@,
                        problem_views(all_problems@.subrange(0, i + 1)),
                        tag_stats@,
                        user_rating,
                    ));
                }
            }
        }
        i = i + 1;
    }
    assert(all_problems@.subrange(0, i as int) =~= all_problems@);
    out
}

// ---------------------------------------------------------------------------
// Ranking by score
// ---------------------------------------------------------------------------

/// Positions as integers.
pub open spec fn as_ints(v: Seq<usize>) -> Seq<int> {
    v.map_values(|u: usize| u as int)
}

/// Where an entry scored `key` goes in an order sorted by score, highest
/// first, searching from `j`: before the first entry scored lower.
pub open spec fn insert_pos_from(order: Seq<int>, keys: Seq<u64>, key: u64, j: int) -> int
    decreases order.len() - j,
{
    if j < 0 || j >= order.len() {
        order.len() as int
    } else if keys[order[j]] < key {
        j
    } else {
        insert_pos_from(order, keys, key, j + 1)
    }
}

/// The first `n` positions ordered by score, highest first, ties in their
/// original order: each position in turn goes after every earlier one
/// scored at least as high.
pub open spec fn rank_prefix(keys: Seq<u64>, n: nat) -> Seq<int>
    decreases n,
{
    if n == 0 {
        Seq::empty()
    } else {
        let prev = rank_prefix(keys, (n - 1) as nat);
        prev.insert(insert_pos_from(prev, keys, keys[n - 1], 0), n - 1)
    }
}

/// All positions ordered by score, highest first, ties in their original order.
pub open spec fn ranking(keys: Seq<u64>) -> Seq<int> {
    rank_prefix(keys, keys.len())
}

/// Orders positions by score, highest first, keeping tied positions in their
/// original order (a stable sort by descending score). Scores are compared
/// as integers; any order-preserving encoding of the real scores will do.
pub fn rank_order(keys: &[u64]) -> (r: Vec<usize>)
    ensures
        as_ints(r@) == ranking(keys@),
{
    let n = keys.len();
    let mut order: Vec<usize> = Vec::new();
    let mut i: usize = 0;
    while i < n
        invariant
            n == keys@.len(),
            i <= n,
            order@.len() == i,
            forall|k: int| 0 <= k < order@.len() ==> #[trigger] order@[k] < i,
            as_ints(order@) == rank_prefix(keys@, i as nat),
        decreases n - i,
    {
        let key = keys[i];
        let ghost prev = as_ints(order@);
        let mut j: usize = 0;
        while j < order.len() && keys[order[j]] >= key
            invariant
                n == keys@.len(),
                j <= order@.len(),
                order@.len() == i,
                i < n,
                prev == as_ints(order@),
                forall|k: int| 0 <= k < order@.len() ==> #[trigger] order@[k] < i,
                insert_pos_from(prev, keys@, key, 0) == insert_pos_from(prev, keys@, key, j as int),
            decreases order.len() - j,
        {
            j = j + 1;
        }
        order.insert(j, i);
        proof {
            assert(as_ints(order@) =~= prev.insert(j as int, i as int));
        }
        i = i + 1;
    }
    order
}

// ---------------------------------------------------------------------------
// Picking a varied list
// ---------------------------------------------------------------------------

/// At most this many recommendations picked for their merit share a primary topic.
pub open spec fn tag_cap(count: nat) -> nat {
    if count / 3 > 3 {
        count / 3
    } else {
        3
    }
}

/// At most this many recommendations picked for their merit share a rating.
pub open spec fn rating_cap(count: nat) -> nat {
    if count / 4 > 3 {
        count / 4
    } else {
        3
    }
}

/// How many of the picked positions have the given primary topic.
pub open spec fn count_tag(picked: Seq<int>, ranked: Seq<CandidateView>, tag: Seq<char>) -> nat
    decreases picked.len(),
{
    if picked.len() == 0 {
        0
    } else {
        count_tag(picked.drop_last(), ranked, tag) + if ranked[picked.last()].primary_tag == tag {
            1nat
        } else {
            0nat
        }
    }
}

/// How many of the picked positions have the given rating.
pub open spec fn count_rating(picked: Seq<int>, ranked: Seq<CandidateView>, rating: u32) -> nat
    decreases picked.len(),
{
    if picked.len() == 0 {
        0
    } else {
        count_rating(picked.drop_last(), ranked, rating) + if ranked[picked.last()].rating == rating {
            1nat
        } else {
            0nat
        }
    }
}

/// The greedy pass over the first `i` ranked candidates: each is picked
/// unless `count` are already picked, or its primary topic or its rating
/// has reached its cap.
pub open spec fn first_pass(ranked: Seq<CandidateView>, count: nat, i: nat) -> Seq<int>
    decreases i,
{
    if i == 0 {
        Seq::empty()
    } else {
        let prev = first_pass(ranked, count, (i - 1) as nat);
        let c = ranked[i - 1];
        if prev.len() >= count || count_tag(prev, ranked, c.primary_tag) >= tag_cap(count)
            || count_rating(prev, ranked, c.rating) >= rating_cap(count) {
            prev
        } else {
            prev.push(i - 1)
        }
    }
}

/// Topping up `first` from the first `i` ranked candidates not yet picked,
/// best first, until `count` are picked.
pub open spec fn top_up(ranked: Seq<CandidateView>, count: nat, first: Seq<int>, i: nat) -> Seq<int>
    decreases i,
{
    if i == 0 {
        first
    } else {
        let prev = top_up(ranked, count, first, (i - 1) as nat);
        if prev.len() >= count || first.contains(i - 1) {
            prev
        } else {
            prev.push(i - 1)
        }
    }
}

/// The ranked positions recommended, in the order they are listed: the
/// greedy pass under the topic and rating caps, then the top-up.
pub open spec fn diversified(ranked: Seq<CandidateView>, count: nat) -> Seq<int> {
    if count == 0 {
        Seq::empty()
    } else {
        top_up(ranked, count, first_pass(ranked, count, ranked.len()), ranked.len())
    }
}

/// The recommendation a candidate makes.
pub open spec fn recommendation_of(c: CandidateView) -> RecommendationView {
    RecommendationView { problem: c.problem, reason: c.reason }
}

/// The candidates in ranked order.
pub open spec fn ranked_candidates(cands: Seq<CandidateView>, keys: Seq<u64>) -> Seq<CandidateView> {
    ranking(keys).map_values(|k: int| cands[k])
}

/// What is recommended from candidates scored `keys`: the diversified picks
/// of the ranked candidates, in pick order.
pub open spec fn recommended(cands: Seq<CandidateView>, keys: Seq<u64>, count: nat) -> Seq<RecommendationView> {
    let ranked = ranked_candidates(cands, keys);
    diversified(ranked, count).map_values(|k: int| recommendation_of(ranked[k]))
}

fn count_tag_exec(cands: &Vec<Candidate>, order: &Vec<usize>, picked: &Vec<usize>, tag: &String) -> (r: usize)
    requires
        forall|k: int| 0 <= k < order@.len() ==> #[trigger] order@[k] < cands@.len(),
        forall|k: int| 0 <= k < picked@.len() ==> #[trigger] picked@[k] < order@.len(),
    ensures
        r == count_tag(
            as_ints(picked@),
            as_ints(order@).map_values(|k: int| candidate_views(cands@)[k]),
            tag@,
        ),
{
    let ghost ranked = as_ints(order@).map_values(|k: int| candidate_views(cands@)[k]);
    let mut r: usize = 0;
    let mut k: usize = 0;
    while k < picked.len()
        invariant
            k <= picked@.len(),
            r <= k,
            ranked == as_ints(order@).map_values(|k: int| candidate_views(cands@)[k]),
            forall|k: int| 0 <= k < order@.len() ==> #[trigger] order@[k] < cands@.len(),
            forall|k: int| 0 <= k < picked@.len() ==> #[trigger] picked@[k] < order@.len(),
            r == count_tag(as_ints(picked@).subrange(0, k as int), ranked, tag@),
        decreases picked.len() - k,
    {
        proof {
            assert(as_ints(picked@).subrange(0, k + 1).drop_last() =~= as_ints(picked@).subrange(0, k as int));
        }
        if cands[order[picked[k]]].primary_tag == *tag {
            r = r + 1;
        }
        k = k + 1;
    }
    assert(as_ints(picked@).subrange(0, picked@.len() as int) =~= as_ints(picked@));
    r
}

fn count_rating_exec(cands: &Vec<Candidate>, order: &Vec<usize>, picked: &Vec<usize>, rating: u32) -> (r: usize)
    requires
        forall|k: int| 0 <= k < order@.len() ==> #[trigger] order@[k] < cands@.len(),
        forall|k: int| 0 <= k < picked@.len() ==> #[trigger] picked@[k] < order@.len(),
    ensures
        r == count_rating(
            as_ints(picked@),
            as_ints(order@).map_values(|k: int| candidate_views(cands@)[k]),
            rating,
        ),
{
    let ghost ranked = as_ints(order@).map_values(|k: int| candidate_views(cands@)[k]);
    let mut r: usize = 0;
    let mut k: usize = 0;
    while k < picked.len()
        invariant
            k <= picked@.len(),
            r <= k,
            ranked == as_ints(order@).map_values(|k: int| candidate_views(cands@)[k]),
            forall|k: int| 0 <= k < order@.len() ==> #[trigger] order@[k] < cands@.len(),
            forall|k: int| 0 <= k < picked@.len() ==> #[trigger] picked@[k] < order@.len(),
            r == count_rating(as_ints(picked@).subrange(0, k as int), ranked, rating),
        decreases picked.len() - k,
    {
        proof {
            assert(as_ints(picked@).subrange(0, k + 1).drop_last() =~= as_ints(picked@).subrange(0, k as int));
        }
        if cands[order[picked[k]]].rating == rating {
            r = r + 1;
        }
        k = k + 1;
    }
    assert(as_ints(picked@).subrange(0, picked@.len() as int) =~= as_ints(picked@));
    r
}

/// The positions in `order` to recommend, in pick order.
fn diversify(cands: &Vec<Candidate>, order: &Vec<usize>, count: usize) -> (r: Vec<usize>)
    requires
        forall|k: int| 0 <= k < order@.len() ==> #[trigger] order@[k] < cands@.len(),
    ensures
        as_ints(r@) == diversified(as_ints(order@).map_values(|k: int| candidate_views(cands@)[k]), count as nat),
        forall|k: int| 0 <= k < r@.len() ==> #[trigger] r@[k] < order@.len(),
{
    let ghost ranked = as_ints(order@).map_values(|k: int| candidate_views(cands@)[k]);
    if count == 0 {
        return Vec::new();
    }
    let tag_limit: usize = if count / 3 > 3 { count / 3 } else { 3 };
    let rating_limit: usize = if count / 4 > 3 { count / 4 } else { 3 };
    let n = order.len();
    let mut picked: Vec<usize> = Vec::new();
    let mut chosen: Vec<bool> = Vec::new();
    let mut i: usize = 0;
    while i < n
        invariant
            n == order@.len(),
            i <= n,
            ranked == as_ints(order@).map_values(|k: int| candidate_views(cands@)[k]),
            tag_limit == tag_cap(count as nat),
            rating_limit == rating_cap(count as nat),
            forall|k: int| 0 <= k < order@.len() ==> #[trigger] order@[k] < cands@.len(),
            forall|k: int| 0 <= k < picked@.len() ==> #[trigger] picked@[k] < i,
            chosen@.len() == i,
            forall|k: int| 0 <= k < i ==> (#[trigger] chosen@[k] <==> as_ints(picked@).contains(k)),
            as_ints(picked@) == first_pass(ranked, count as nat, i as nat),
        decreases n - i,
    {
        let c = &cands[order[i]];
        let mut take = false;
        if picked.len() < count {
            let t = count_tag_exec(cands, order, &picked, &c.primary_tag);
            if t < tag_limit {
                let r = count_rating_exec(cands, order, &picked, c.rating);
                if r < rating_limit {
                    take = true;
                }
            }
        }
        let ghost before = as_ints(picked@);
        if take {
            picked.push(i);
        }
        chosen.push(take);
        proof {
            assert(ranked[i as int] == candidate_views(cands@)[order@[i as int] as int]);
            if take {
                assert(as_ints(picked@) =~= before.push(i as int));
            } else {
                assert(as_ints(picked@) =~= before);
            }
            assert forall|k: int| 0 <= k < i + 1 implies (#[trigger] chosen@[k] <==> as_ints(picked@).contains(k)) by {
                if k < i {
                    if before.contains(k) {
                        let w = choose|w: int| 0 <= w < before.len() && before[w] == k;
                        assert(as_ints(picked@)[w] == k);
                    }
                    if as_ints(picked@).contains(k) {
                        let w = choose|w: int| 0 <= w < as_ints(picked@).len() && as_ints(picked@)[w] == k;
                        if w < before.len() {
                            assert(before[w] == k);
                        }
                    }
                } else {
                    if take {
                        assert(as_ints(picked@)[before.len() as int] == k);
                    } else {
                        if as_ints(picked@).contains(k) {
                            let w = choose|w: int| 0 <= w < as_ints(picked@).len() && as_ints(picked@)[w] == k;
                            assert(picked@[w] < i);
                        }
                    }
                }
            }
        }
        i = i + 1;
    }
    let ghost first = as_ints(picked@);
    let mut j: usize = 0;
    while j < n
        invariant
            n == order@.len(),
            j <= n,
            chosen@.len() == n,
            forall|k: int| 0 <= k < n ==> (#[trigger] chosen@[k] <==> first.contains(k)),
            forall|k: int| 0 <= k < picked@.len() ==> #[trigger] picked@[k] < n,
            as_ints(picked@) == top_up(ranked, count as nat, first, j as nat),
        decreases n - j,
    {
        let ghost before = as_ints(picked@);
        if picked.len() < count && !chosen[j] {
            picked.push(j);
            assert(as_ints(picked@) =~= before.push(j as int));
        }
        j = j + 1;
    }
    picked
}

/// Recommends unsolved problems to practise next.
///
/// `candidates` are the eligible problems (see [`eligible_candidates`]) and
/// `scores` their scores, one each, larger meaning more worth practising.
/// The candidates are ranked by score, highest first, ties in catalogue
/// order. They are then picked greedily while capping how many share a
/// primary topic (at most `max(count / 3, 3)`) or an exact rating (at most
/// `max(count / 4, 3)`); if the caps leave the list short of `count`, it is
/// topped up from the best of the rest.
pub fn recommend_problems(candidates: &Vec<Candidate>, scores: &[u64], count: usize) -> (r: Vec<Recommendation>)
    requires
        scores@.len() == candidates@.len(),
    ensures
        recommendation_views(r@) == recommended(candidate_views(candidates@), scores@, count as nat),
{
    let order = rank_order(scores);
    proof {
        ranking_is_stable_descending_sort(scores@);
        assert forall|k: int| 0 <= k < order@.len() implies #[trigger] order@[k] < candidates@.len() by {
            assert(as_ints(order@)[k] == order@[k] as int);
        }
    }
    let picks = diversify(candidates, &order, count);
    let ghost ranked = as_ints(order@).map_values(|k: int| candidate_views(candidates@)[k]);
    assert(ranked =~= ranked_candidates(candidate_views(candidates@), scores@));
    let mut out: Vec<Recommendation> = Vec::new();
    let mut k: usize = 0;
    while k < picks.len()
        invariant
            k <= picks@.len(),
            out@.len() == k,
            forall|k: int| 0 <= k < order@.len() ==> #[trigger] order@[k] < candidates@.len(),
            forall|k: int| 0 <= k < picks@.len() ==> #[trigger] picks@[k] < order@.len(),
            forall|t: int| 0 <= t < k ==> #[trigger] out@[t]@ == recommendation_of(
                candidate_views(candidates@)[order@[picks@[t] as int] as int],
            ),
        decreases picks.len() - k,
    {
        let c = &candidates[order[picks[k]]];
        out.push(Recommendation { problem: c.problem.duplicate(), reason: c.reason.clone() });
        k = k + 1;
    }
    assert(recommendation_views(out@) =~= recommended(candidate_views(candidates@), scores@, count as nat));
    out
}

// ---------------------------------------------------------------------------
// Facts about the ranking
// ---------------------------------------------------------------------------

/// `order` lists each of the positions `0..n` exactly once.
pub open spec fn is_arrangement(order: Seq<int>, n: int) -> bool {
    &&& order.len() == n
    &&& forall|k: int| 0 <= k < order.len() ==> 0 <= #[trigger] order[k] < n
    &&& forall|k: int, l: int| 0 <= k < l < order.len() ==> order[k] != order[l]
}

/// Position `a` comes before position `b` in a stable sort by descending score.
pub open spec fn ranks_before(keys: Seq<u64>, a: int, b: int) -> bool {
    keys[a] > keys[b] || (keys[a] == keys[b] && a < b)
}

/// `order` is sorted highest score first, ties in original order.
pub open spec fn sorted_by_score(keys: Seq<u64>, order: Seq<int>) -> bool {
    forall|k: int, l: int| 0 <= k < l < order.len() ==> ranks_before(keys, #[trigger] order[k], #[trigger] order[l])
}

proof fn lemma_insert_pos(order: Seq<int>, keys: Seq<u64>, key: u64, j: int)
    requires
        0 <= j <= order.len(),
        forall|k: int| 0 <= k < order.len() ==> 0 <= #[trigger] order[k] < keys.len(),
    ensures
        j <= insert_pos_from(order, keys, key, j) <= order.len(),
        forall|k: int| j <= k < insert_pos_from(order, keys, key, j) ==> keys[#[trigger] order[k]] >= key,
        insert_pos_from(order, keys, key, j) < order.len() ==> keys[order[insert_pos_from(order, keys, key, j)]] < key,
    decreases order.len() - j,
{
    if j < order.len() && keys[order[j]] >= key {
        lemma_insert_pos(order, keys, key, j + 1);
    }
}

proof fn lemma_rank_prefix(keys: Seq<u64>, n: nat)
    requires
        n <= keys.len(),
    ensures
        is_arrangement(rank_prefix(keys, n), n as int),
        sorted_by_score(keys, rank_prefix(keys, n)),
    decreases n,
{
    if n > 0 {
        lemma_rank_prefix(keys, (n - 1) as nat);
        let prev = rank_prefix(keys, (n - 1) as nat);
        let key = keys[n - 1];
        lemma_insert_pos(prev, keys, key, 0);
        let p = insert_pos_from(prev, keys, key, 0);
        let cur = prev.insert(p, n - 1);
        assert(cur == rank_prefix(keys, n));
        assert forall|k: int| 0 <= k < cur.len() implies 0 <= #[trigger] cur[k] < n by {
            if k < p {
                assert(cur[k] == prev[k]);
            } else if k > p {
                assert(cur[k] == prev[k - 1]);
            }
        }
        assert forall|k: int, l: int| 0 <= k < l < cur.len() implies cur[k] != cur[l] by {
            if k < p && l < p {
                assert(cur[k] == prev[k] && cur[l] == prev[l]);
            } else if k < p && l > p {
                assert(cur[k] == prev[k] && cur[l] == prev[l - 1]);
            } else if k > p && l > p {
                assert(cur[k] == prev[k - 1] && cur[l] == prev[l - 1]);
            } else if k == p {
                assert(cur[l] == prev[l - 1]);
            } else {
                assert(cur[k] == prev[k]);
            }
        }
        assert forall|k: int, l: int| 0 <= k < l < cur.len() implies ranks_before(keys, #[trigger] cur[k], #[trigger] cur[l]) by {
            if k < p && l < p {
                assert(cur[k] == prev[k] && cur[l] == prev[l]);
            } else if k < p && l > p {
                assert(cur[k] == prev[k] && cur[l] == prev[l - 1]);
                assert(ranks_before(keys, prev[k], prev[l - 1]));
            } else if k > p && l > p {
                assert(cur[k] == prev[k - 1] && cur[l] == prev[l - 1]);
                assert(ranks_before(keys, prev[k - 1], prev[l - 1]));
            } else if k == p {
                assert(cur[k] == n - 1);
                assert(cur[l] == prev[l - 1]);
                if l - 1 > p {
                    assert(ranks_before(keys, prev[p], prev[l - 1]));
                }
                assert(keys[prev[l - 1]] < key);
            } else {
                assert(cur[k] == prev[k]);
                assert(cur[l] == n - 1);
                assert(keys[prev[k]] >= key);
            }
        }
    }
}

/// Ranking is a stable sort by descending score: every candidate appears
/// exactly once, a higher score comes first, and equal scores keep their
/// original order.
pub proof fn ranking_is_stable_descending_sort(keys: Seq<u64>)
    ensures
        is_arrangement(ranking(keys), keys.len() as int),
        sorted_by_score(keys, ranking(keys)),
{
    lemma_rank_prefix(keys, keys.len());
}

// ---------------------------------------------------------------------------
// Facts about the picks
// ---------------------------------------------------------------------------

/// The entries of `s` are distinct and lie in `0..n`.
pub open spec fn distinct_below(s: Seq<int>, n: int) -> bool {
    &&& forall|k: int| 0 <= k < s.len() ==> 0 <= #[trigger] s[k] < n
    &&& forall|k: int, l: int| 0 <= k < l < s.len() ==> s[k] != s[l]
}

/// Distinct entries below `n` number at most `n`, and exactly `n` when every
/// position below `n` occurs.
proof fn lemma_distinct_below_len(s: Seq<int>, n: int)
    requires
        n >= 0,
        distinct_below(s, n),
    ensures
        s.len() <= n,
        (forall|k: int| 0 <= k < n ==> s.contains(k)) ==> s.len() == n,
{
    assert(s.no_duplicates()) by {
        assert forall|k: int, l: int| 0 <= k < s.len() && 0 <= l < s.len() && k != l implies s[k] != s[l] by {
            if k < l {
            } else {
                assert(s[l] != s[k]);
            }
        }
    }
    s.unique_seq_to_set();
    lemma_int_range(0, n);
    assert(s.to_set().subset_of(set_int_range(0, n))) by {
        assert forall|x: int| s.to_set().contains(x) implies set_int_range(0, n).contains(x) by {
            let k = choose|k: int| 0 <= k < s.len() && s[k] == x;
        }
    }
    lemma_len_subset(s.to_set(), set_int_range(0, n));
    if forall|k: int| 0 <= k < n ==> s.contains(k) {
        assert(set_int_range(0, n).subset_of(s.to_set()));
        lemma_len_subset(set_int_range(0, n), s.to_set());
    }
}

proof fn lemma_count_tag_push(picked: Seq<int>, ranked: Seq<CandidateView>, x: int, tag: Seq<char>)
    ensures
        count_tag(picked.push(x), ranked, tag) == count_tag(picked, ranked, tag) + if ranked[x].primary_tag
            == tag {
            1nat
        } else {
            0nat
        },
{
    assert(picked.push(x).drop_last() =~= picked);
}

proof fn lemma_count_rating_push(picked: Seq<int>, ranked: Seq<CandidateView>, x: int, rating: u32)
    ensures
        count_rating(picked.push(x), ranked, rating) == count_rating(picked, ranked, rating) + if ranked[x].rating
            == rating {
            1nat
        } else {
            0nat
        },
{
    assert(picked.push(x).drop_last() =~= picked);
}

proof fn lemma_first_pass(ranked: Seq<CandidateView>, count: nat, i: nat)
    requires
        i <= ranked.len(),
    ensures
        distinct_below(first_pass(ranked, count, i), i as int),
        first_pass(ranked, count, i).len() <= count,
        forall|tag: Seq<char>| #[trigger] count_tag(first_pass(ranked, count, i), ranked, tag) <= tag_cap(count),
        forall|rating: u32| #[trigger] count_rating(first_pass(ranked, count, i), ranked, rating) <= rating_cap(count),
    decreases i,
{
    if i > 0 {
        lemma_first_pass(ranked, count, (i - 1) as nat);
        let prev = first_pass(ranked, count, (i - 1) as nat);
        let c = ranked[i - 1];
        if !(prev.len() >= count || count_tag(prev, ranked, c.primary_tag) >= tag_cap(count)
            || count_rating(prev, ranked, c.rating) >= rating_cap(count)) {
            let cur = prev.push(i - 1);
            assert forall|tag: Seq<char>| #[trigger] count_tag(cur, ranked, tag) <= tag_cap(count) by {
                lemma_count_tag_push(prev, ranked, i - 1, tag);
                assert(count_tag(prev, ranked, tag) <= tag_cap(count));
            }
            assert forall|rating: u32| #[trigger] count_rating(cur, ranked, rating) <= rating_cap(count) by {
                lemma_count_rating_push(prev, ranked, i - 1, rating);
                assert(count_rating(prev, ranked, rating) <= rating_cap(count));
            }
        }
    }
}

proof fn lemma_top_up(ranked: Seq<CandidateView>, count: nat, first: Seq<int>, i: nat)
    requires
        i <= ranked.len(),
        first.len() <= count,
        distinct_below(first, ranked.len() as int),
    ensures
        distinct_below(top_up(ranked, count, first, i), ranked.len() as int),
        top_up(ranked, count, first, i).len() <= count,
        top_up(ranked, count, first, i).len() >= first.len(),
        top_up(ranked, count, first, i).subrange(0, first.len() as int) == first,
        forall|k: int| 0 <= k < i ==> (top_up(ranked, count, first, i).len() < count ==> #[trigger] top_up(
            ranked,
            count,
            first,
            i,
        ).contains(k)),
        forall|k: int| 0 <= k < first.len() ==> top_up(ranked, count, first, i).contains(#[trigger] first[k]),
        forall|k: int|
            first.len() <= k < top_up(ranked, count, first, i).len() ==> #[trigger] top_up(ranked, count, first, i)[k]
                < i,
    decreases i,
{
    if i == 0 {
        assert(first.subrange(0, first.len() as int) =~= first);
        assert forall|k: int| 0 <= k < first.len() implies first.contains(#[trigger] first[k]) by {}
    } else {
        lemma_top_up(ranked, count, first, (i - 1) as nat);
        let prev = top_up(ranked, count, first, (i - 1) as nat);
        let cur = top_up(ranked, count, first, i);
        if prev.len() >= count || first.contains(i - 1) {
            assert(cur == prev);
            assert forall|k: int| 0 <= k < i && cur.len() < count implies #[trigger] cur.contains(k) by {
                if k == i - 1 {
                    let w = choose|w: int| 0 <= w < first.len() && first[w] == i - 1;
                    assert(prev.contains(first[w]));
                }
            }
        } else {
            assert(cur == prev.push(i - 1));
            assert(!prev.contains(i - 1)) by {
                if prev.contains(i - 1) {
                    let w = choose|w: int| 0 <= w < prev.len() && prev[w] == i - 1;
                    if w < first.len() {
                        assert(prev.subrange(0, first.len() as int)[w] == prev[w]);
                        assert(first.contains(i - 1));
                    }
                }
            }
            assert forall|k: int, l: int| 0 <= k < l < cur.len() implies cur[k] != cur[l] by {
                if l == cur.len() - 1 {
                    assert(cur[l] == i - 1);
                    assert(cur[k] == prev[k]);
                } else {
                    assert(cur[k] == prev[k] && cur[l] == prev[l]);
                }
            }
            assert(cur.subrange(0, first.len() as int) =~= prev.subrange(0, first.len() as int));
            assert forall|k: int| 0 <= k < i && cur.len() < count implies #[trigger] cur.contains(k) by {
                if k == i - 1 {
                    assert(cur[cur.len() - 1] == k);
                } else {
                    assert(prev.len() < count);
                    assert(prev.contains(k));
                    let w = choose|w: int| 0 <= w < prev.len() && prev[w] == k;
                    assert(cur[w] == k);
                }
            }
            assert forall|k: int| 0 <= k < first.len() implies cur.contains(#[trigger] first[k]) by {
                let w = choose|w: int| 0 <= w < prev.len() && prev[w] == first[k];
                assert(cur[w] == first[k]);
            }
        }
    }
}

/// The picks are distinct ranked positions, as many as asked for or as
/// there are candidates, whichever is fewer.
pub proof fn diversified_picks_are_distinct_and_fill_up(ranked: Seq<CandidateView>, count: nat)
    ensures
        distinct_below(diversified(ranked, count), ranked.len() as int),
        diversified(ranked, count).len() == if count < ranked.len() {
            count
        } else {
            ranked.len()
        },
{
    let n = ranked.len();
    if count > 0 {
        lemma_first_pass(ranked, count, n);
        let first = first_pass(ranked, count, n);
        lemma_top_up(ranked, count, first, n);
        let d = top_up(ranked, count, first, n);
        lemma_distinct_below_len(d, n as int);
    }
}

/// The picks made on merit, under the caps, come first; the top-up only
/// adds after them.
pub proof fn merit_picks_come_first(ranked: Seq<CandidateView>, count: nat)
    requires
        count > 0,
    ensures
        diversified(ranked, count).subrange(0, first_pass(ranked, count, ranked.len()).len() as int)
            == first_pass(ranked, count, ranked.len()),
{
    lemma_first_pass(ranked, count, ranked.len());
    lemma_top_up(ranked, count, first_pass(ranked, count, ranked.len()), ranked.len());
}

/// Among the picks made on merit, no primary topic occurs more than
/// `max(count / 3, 3)` times and no rating more than `max(count / 4, 3)` times.
pub proof fn merit_picks_respect_caps(ranked: Seq<CandidateView>, count: nat, tag: Seq<char>, rating: u32)
    ensures
        count_tag(first_pass(ranked, count, ranked.len()), ranked, tag) <= tag_cap(count),
        count_rating(first_pass(ranked, count, ranked.len()), ranked, rating) <= rating_cap(count),
{
    lemma_first_pass(ranked, count, ranked.len());
}

proof fn lemma_candidates_eligible(
    subs: Seq<Submission>,
    problems: Seq<ProblemView>,
    stats: Seq<TagStat>,
    user_rating: Option<u32>,
)
    ensures
        forall|k: int| 0 <= k < candidate_list(subs, problems, stats, user_rating).len() ==> eligible(
            subs,
            user_rating,
            #[trigger] candidate_list(subs, problems, stats, user_rating)[k].problem,
        ),
        candidate_list(subs, problems, stats, user_rating).len() <= problems.len(),
    decreases problems.len(),
{
    if problems.len() > 0 {
        lemma_candidates_eligible(subs, problems.drop_last(), stats, user_rating);
    }
}

/// Every recommended problem is unsolved and rated within the window around
/// the user's level, and there are `count` of them unless fewer problems are
/// eligible.
pub proof fn recommendations_are_eligible(
    subs: Seq<Submission>,
    problems: Seq<ProblemView>,
    stats: Seq<TagStat>,
    user_rating: Option<u32>,
    scores: Seq<u64>,
    count: nat,
)
    requires
        scores.len() == candidate_list(subs, problems, stats, user_rating).len(),
    ensures
        forall|k: int|
            0 <= k < recommended(candidate_list(subs, problems, stats, user_rating), scores, count).len()
                ==> eligible(
                subs,
                user_rating,
                #[trigger] recommended(candidate_list(subs, problems, stats, user_rating), scores, count)[k].problem,
            ),
        recommended(candidate_list(subs, problems, stats, user_rating), scores, count).len() == if count
            < scores.len() {
            count
        } else {
            scores.len()
        },
{
    let cands = candidate_list(subs, problems, stats, user_rating);
    lemma_candidates_eligible(subs, problems, stats, user_rating);
    ranking_is_stable_descending_sort(scores);
    let ranked = ranked_candidates(cands, scores);
    diversified_picks_are_distinct_and_fill_up(ranked, count);
    let picks = diversified(ranked, count);
    assert forall|k: int| 0 <= k < recommended(cands, scores, count).len() implies eligible(
        subs,
        user_rating,
        #[trigger] recommended(cands, scores, count)[k].problem,
    ) by {
        let p = picks[k];
        assert(0 <= p < ranked.len());
        let c = ranking(scores)[p];
        assert(0 <= c < cands.len());
        assert(ranked[p] == cands[c]);
    }
}

/// Without a rating the recommender centres on 1200: the candidates, and so
/// the recommendations for any scores, are those for a rating of 1200.
pub proof fn no_rating_means_1200(
    subs: Seq<Submission>,
    problems: Seq<ProblemView>,
    stats: Seq<TagStat>,
    scores: Seq<u64>,
    count: nat,
)
    ensures
        candidate_list(subs, problems, stats, None) == candidate_list(subs, problems, stats, Some(1200u32)),
        recommended(candidate_list(subs, problems, stats, None), scores, count) == recommended(
            candidate_list(subs, problems, stats, Some(1200u32)),
            scores,
            count,
        ),
    decreases problems.len(),
{
    if problems.len() > 0 {
        no_rating_means_1200(subs, problems.drop_last(), stats, scores, count);
    }
}

/// Why a candidate is recommended follows a fixed priority. With a weak
/// topic among its tags the reason starts `Weak topic: `. Without one, a
/// problem the user has submitted to is "Unfinished — give it another go",
/// whether or not the user has solved anything else. Otherwise it is "Just
/// above your level · <rating>" once the user has solved something, and
/// "Popular <rating> problem" before that. A candidate is marked attempted
/// exactly when the user has submitted to it.
pub proof fn reasons_follow_priority(
    subs: Seq<Submission>,
    problems: Seq<ProblemView>,
    stats: Seq<TagStat>,
    user_rating: Option<u32>,
)
    ensures
        forall|k: int|
            0 <= k < candidate_list(subs, problems, stats, user_rating).len() ==> {
                let c = #[trigger] candidate_list(subs, problems, stats, user_rating)[k];
                &&& c.attempted == is_attempted(subs, c.problem.platform, c.problem.id)
                &&& c.weak_matches > 0 ==> c.reason.len() >= "Weak topic: "@.len() && c.reason.subrange(
                    0,
                    "Weak topic: "@.len() as int,
                ) == "Weak topic: "@
                &&& c.weak_matches == 0 && c.attempted ==> c.reason == "Unfinished — give it another go"@
                &&& c.weak_matches == 0 && !c.attempted && has_history(subs) ==> c.reason
                    == "Just above your level · "@ + decimal(c.rating as nat)
                &&& c.weak_matches == 0 && !c.attempted && !has_history(subs) ==> c.reason == "Popular "@
                    + decimal(c.rating as nat) + " problem"@
            },
    decreases problems.len(),
{
    if problems.len() > 0 {
        reasons_follow_priority(subs, problems.drop_last(), stats, user_rating);
        let earlier = candidate_list(subs, problems.drop_last(), stats, user_rating);
        let p = problems.last();
        if eligible(subs, user_rating, p) {
            let c = candidate_of(subs, weak_tags(stats), user_rating, p);
            let m = weak_matches(lower_tags(p), weak_tags(stats));
            if m.len() > 0 {
                let w = "Weak topic: "@;
                assert((w + first_two_joined(m)).subrange(0, w.len() as int) =~= w);
            }
            let all = earlier.push(c);
            assert forall|k: int| 0 <= k < all.len() - 1 implies all[k] == earlier[k] by {}
        }
    }
}

/// Problems are recommended from 200 below to 300 above the user's rating
/// (from 1000 to 1500 without one); the lower end is never below zero.
pub proof fn window_around_user_level(user_rating: Option<u32>, r: u32)
    ensures
        user_rating is None ==> (window_low(user_rating) <= r <= window_high(user_rating) <==> 1000 <= r <= 1500),
        user_rating matches Some(c) ==> (window_low(user_rating) <= r <= window_high(user_rating) <==> r + 200 >= c
            && r <= c + 300),
{
}

/// At most `max(count / 3, 3)` picks on merit share a primary topic and at
/// most `max(count / 4, 3)` share a rating.
pub proof fn caps_grow_with_count(count: nat)
    ensures
        tag_cap(count) >= 3 && tag_cap(count) >= count / 3,
        tag_cap(count) == 3 || tag_cap(count) == count / 3,
        rating_cap(count) >= 3 && rating_cap(count) >= count / 4,
        rating_cap(count) == 3 || rating_cap(count) == count / 4,
{
}

} // verus!
