use cpos::models::{Platform, Problem, SolveStatus, Submission, TagStat, Verdict};
use cpos::recommender::{eligible_candidates, rank_order, recommend_problems, weak_topics, Candidate};

fn problem(id: &str, rating: Option<u32>, tags: &[&str]) -> Problem {
    Problem {
        platform: Platform::Codeforces,
        id: id.to_string(),
        name: format!("Problem {id}"),
        url: String::new(),
        rating,
        tags: tags.iter().map(|t| t.to_string()).collect(),
        category: None,
        solved_count: Some(100),
        status: SolveStatus::Unsolved,
    }
}

fn sub(id: &str, verdict: Verdict) -> Submission {
    Submission { platform: Platform::Codeforces, problem_id: id.to_string(), verdict, submitted_at: 0, submitted_nanos: 0 }
}

fn stat(tag: &str, solved: u32, attempted: u32) -> TagStat {
    TagStat { tag: tag.to_string(), solved, attempted }
}

fn candidate(id: &str, tag: &str, rating: u32) -> Candidate {
    Candidate {
        problem: problem(id, Some(rating), &[tag]),
        reason: format!("r{id}"),
        primary_tag: tag.to_string(),
        rating,
        weak_matches: 0,
        attempted: false,
    }
}

#[test]
fn weak_topics_take_the_first_six_worked_on_twice() {
    let stats = vec![
        stat("DP", 1, 1),
        stat("Graphs", 0, 1),
        stat("Math", 0, 2),
        stat("A", 2, 0),
        stat("B", 3, 3),
        stat("C", 1, 4),
        stat("D", 5, 0),
        stat("E", 9, 9),
    ];
    assert_eq!(weak_topics(&stats), vec!["dp", "math", "a", "b", "c", "d"]);
    assert!(weak_topics(&[]).is_empty());
}

#[test]
fn candidates_exclude_solved_unrated_and_out_of_window() {
    let problems = vec![
        problem("1A", Some(1300), &["DP"]),
        problem("2B", Some(1300), &["math"]),
        problem("3C", None, &["math"]),
        problem("4D", Some(900), &["math"]),
        problem("5E", Some(1700), &["math"]),
        problem("6F", Some(1000), &[]),
        problem("7G", Some(1500), &["Greedy", "dp"]),
    ];
    let subs = vec![sub("2B", Verdict::Accepted), sub("7G", Verdict::WrongAnswer)];
    let stats = vec![stat("dp", 1, 1)];
    let c = eligible_candidates(&subs, &problems, &stats, None);
    let ids: Vec<&str> = c.iter().map(|c| c.problem.id.as_str()).collect();
    assert_eq!(ids, vec!["1A", "6F", "7G"]);
    assert_eq!(c[0].reason, "Weak topic: dp");
    assert_eq!(c[0].weak_matches, 1);
    assert_eq!(c[1].reason, "Just above your level · 1000");
    assert_eq!(c[1].primary_tag, "misc");
    assert_eq!(c[2].reason, "Weak topic: dp");
    assert_eq!(c[2].primary_tag, "greedy");
    assert!(c[2].attempted);
}

#[test]
fn cold_start_reasons() {
    let problems = vec![problem("1A", Some(1200), &["math"]), problem("2B", Some(1250), &[])];
    let subs = vec![sub("2B", Verdict::WrongAnswer)];
    let c = eligible_candidates(&[], &problems, &[], Some(1100));
    assert_eq!(c[0].reason, "Popular 1200 problem");
    let c = eligible_candidates(&subs, &problems, &[], Some(1100));
    assert_eq!(c[1].reason, "Unfinished — give it another go");
}

#[test]
fn window_is_clamped_at_zero() {
    let problems = vec![problem("1A", Some(0), &[]), problem("2B", Some(401), &[])];
    let c = eligible_candidates(&[], &problems, &[], Some(100));
    assert_eq!(c.len(), 1);
    assert_eq!(c[0].problem.id, "1A");
}

#[test]
fn ranking_is_stable_and_descending() {
    assert_eq!(rank_order(&[5, 9, 5, 1, 9]), vec![1, 4, 0, 2, 3]);
    assert_eq!(rank_order(&[]), Vec::<usize>::new());
}

#[test]
fn caps_spread_topics_then_top_up() {
    // Five dp problems scored highest, then two graph problems.
    let cands = vec![
        candidate("1", "dp", 1200),
        candidate("2", "dp", 1300),
        candidate("3", "dp", 1400),
        candidate("4", "dp", 1500),
        candidate("5", "dp", 1600),
        candidate("6", "graphs", 1700),
        candidate("7", "graphs", 1800),
    ];
    let scores = [70, 60, 50, 40, 30, 20, 10];
    let recs = recommend_problems(&cands, &scores, 6);
    let ids: Vec<&str> = recs.iter().map(|r| r.problem.id.as_str()).collect();
    // At most three dp problems on merit, the graphs, then the top-up.
    assert_eq!(ids, vec!["1", "2", "3", "6", "7", "4"]);
    assert_eq!(recs[0].reason, "r1");
}

#[test]
fn rating_cap_applies_too() {
    let cands = vec![
        candidate("1", "a", 1500),
        candidate("2", "b", 1500),
        candidate("3", "c", 1500),
        candidate("4", "d", 1500),
        candidate("5", "e", 1600),
    ];
    let recs = recommend_problems(&cands, &[5, 4, 3, 2, 1], 4);
    let ids: Vec<&str> = recs.iter().map(|r| r.problem.id.as_str()).collect();
    assert_eq!(ids, vec!["1", "2", "3", "5"]);
}

#[test]
fn fewer_candidates_than_asked() {
    let cands = vec![candidate("1", "a", 1500), candidate("2", "a", 1500)];
    assert_eq!(recommend_problems(&cands, &[1, 2], 10).len(), 2);
    assert!(recommend_problems(&cands, &[1, 2], 0).is_empty());
    assert_eq!(recommend_problems(&cands, &[1, 2], 1)[0].problem.id, "2");
}

#[test]
fn no_rating_centres_on_1200() {
    let problems = vec![
        problem("1A", Some(999), &["math"]),
        problem("2B", Some(1000), &["dp"]),
        problem("3C", Some(1500), &[]),
        problem("4D", Some(1501), &["math"]),
    ];
    let subs = vec![sub("3C", Verdict::WrongAnswer)];
    let stats = vec![stat("dp", 1, 1)];
    let summary = |c: Vec<Candidate>| -> Vec<(String, String, String)> {
        c.into_iter().map(|c| (c.problem.id, c.reason, c.primary_tag)).collect()
    };
    let none = summary(eligible_candidates(&subs, &problems, &stats, None));
    let at_1200 = summary(eligible_candidates(&subs, &problems, &stats, Some(1200)));
    assert_eq!(none, at_1200);
    assert_eq!(none.iter().map(|c| c.0.as_str()).collect::<Vec<_>>(), vec!["2B", "3C"]);
}
