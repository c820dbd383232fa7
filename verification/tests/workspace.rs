use cpos::config::Config;
use cpos::models::{Platform, Problem, SolveStatus};
use cpos::workspace::{
    expand_tilde_with, root_with, safe_id, slug_from_name, solution_basename, solution_path,
    solution_path_with, template_content_from, template_for, tests_path_with, TEMPLATE_CPP,
    TEMPLATE_PYTHON,
};

fn cses_problem(id: &str, name: &str) -> Problem {
    Problem {
        platform: Platform::Cses,
        id: id.to_string(),
        name: name.to_string(),
        url: format!("https://cses.fi/problemset/task/{id}"),
        rating: None,
        tags: vec![],
        category: None,
        solved_count: None,
        status: SolveStatus::Unsolved,
    }
}

fn problem_on(platform: Platform, id: &str, name: &str) -> Problem {
    Problem {
        platform,
        id: id.to_string(),
        name: name.to_string(),
        url: String::new(),
        rating: None,
        tags: vec![],
        category: None,
        solved_count: None,
        status: SolveStatus::Unsolved,
    }
}

#[test]
fn cses_slug_from_name() {
    assert_eq!(slug_from_name("Weird Algorithm"), "WeirdAlgorithm");
    assert_eq!(slug_from_name("Coin Combinations I"), "CoinCombinationsI");
    assert_eq!(slug_from_name("Sum of Two Values"), "SumOfTwoValues");
}

#[test]
fn cses_solution_uses_slug() {
    let p = cses_problem("1068", "Weird Algorithm");
    let path = solution_path(&Config::default(), &p, "cpp");
    assert!(path.to_string_lossy().ends_with("cses/WeirdAlgorithm.cpp"));
}

#[test]
fn codeforces_solution_uses_id() {
    let p = Problem {
        platform: Platform::Codeforces,
        id: "2232F".to_string(),
        name: "Magical Tiered Cake".to_string(),
        url: "https://codeforces.com/contest/2232/problem/F".to_string(),
        rating: None,
        tags: vec![],
        category: None,
        solved_count: None,
        status: SolveStatus::Unsolved,
    };
    let path = solution_path(&Config::default(), &p, "cpp");
    assert!(path.to_string_lossy().ends_with("codeforces/2232F.cpp"));
}

#[test]
fn slug_drops_punctuation_and_lowers_the_rest() {
    assert_eq!(slug_from_name("  Two   SETS ii "), "TwoSetsIi");
    assert_eq!(slug_from_name("Apple-Division!"), "Appledivision");
    assert_eq!(slug_from_name("... ---"), "");
    assert_eq!(slug_from_name(""), "");
    assert_eq!(slug_from_name("élan vital"), "ÉlanVital");
}

#[test]
fn safe_id_replaces_unsafe_characters() {
    assert_eq!(safe_id("abc123_A-b"), "abc123_A-b");
    assert_eq!(safe_id("abc/def:1"), "abc_def_1");
    assert_eq!(safe_id(""), "");
}

#[test]
fn cses_falls_back_to_id_when_title_has_no_slug() {
    let p = cses_problem("1068", "?!");
    assert_eq!(solution_basename(&p), "1068");
    let a = problem_on(Platform::AtCoder, "abc300/a", "A");
    assert_eq!(solution_basename(&a), "abc300_a");
}

#[test]
fn root_uses_configured_directory() {
    let mut c = Config::default();
    assert_eq!(root_with(&c, Some("/home/u")), "/home/u/cpos");
    assert_eq!(root_with(&c, None), "./cpos");
    c.workspace_dir = Some("   ".to_string());
    assert_eq!(root_with(&c, Some("/home/u")), "/home/u/cpos");
    c.workspace_dir = Some("~/code/cp".to_string());
    assert_eq!(root_with(&c, Some("/home/u/")), "/home/u/code/cp");
    c.workspace_dir = Some("/srv/cp".to_string());
    assert_eq!(root_with(&c, Some("/home/u")), "/srv/cp");
}

#[test]
fn tilde_expansion() {
    assert_eq!(expand_tilde_with("~/x/y", Some("/h")), "/h/x/y");
    assert_eq!(expand_tilde_with("~/x", None), "./x");
    assert_eq!(expand_tilde_with("~x", Some("/h")), "~x");
    assert_eq!(expand_tilde_with("~//abs", Some("/h")), "/abs");
}

#[test]
fn solution_and_tests_paths() {
    let c = Config::default();
    let p = problem_on(Platform::Codeforces, "1095F", "Make It Connected");
    assert_eq!(solution_path_with(&c, Some("/home/u"), &p, "py"), "/home/u/cpos/codeforces/1095F.py");
    let a = problem_on(Platform::AtCoder, "abc300:a", "A");
    assert_eq!(tests_path_with(Some("/cfg"), &a), "/cfg/cpos/tests/atcoder/abc300_a.json");
    assert_eq!(tests_path_with(None, &a), "./cpos/tests/atcoder/abc300_a.json");
}

#[test]
fn tests_stay_under_the_data_directory() {
    let blank = problem_on(Platform::Cses, "", "Weird Algorithm");
    assert_eq!(tests_path_with(Some("/cfg/"), &blank), "/cfg/cpos/tests/cses/.json");
    let p = problem_on(Platform::Codeforces, "/etc/passwd", "x");
    assert_eq!(tests_path_with(Some("/cfg"), &p), "/cfg/cpos/tests/codeforces/_etc_passwd.json");
}

#[test]
fn templates_by_language() {
    assert_eq!(template_for("cpp"), TEMPLATE_CPP);
    assert_eq!(template_for("pypy"), TEMPLATE_PYTHON);
    assert_eq!(template_for("python"), TEMPLATE_PYTHON);
    assert_eq!(template_for("pascal"), "program solution;\nbegin\n\nend.\n");
    assert_eq!(template_for("brainfuck"), "");
    assert!(template_for("c").starts_with("#include <stdio.h>"));
}

#[test]
fn configured_template_wins() {
    assert_eq!(template_content_from(Some("// mine\n".to_string()), "cpp"), "// mine\n");
    assert_eq!(template_content_from(None, "ruby"), "# read input with gets / STDIN.read\n\n");
}
