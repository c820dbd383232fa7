//! The data the engine works on: problems, submissions, tests and their results.

use vstd::prelude::*;

verus! {

/// A judge that problems come from.
#[derive(Clone, Copy, Debug, PartialEq, Eq, Structural)]
pub enum Platform {
    Codeforces,
    Cses,
    AtCoder,
}

/// The judge's verdict on one submission.
#[derive(Clone, Copy, Debug, PartialEq, Eq, Structural)]
pub enum Verdict {
    Accepted,
    WrongAnswer,
    TimeLimitExceeded,
    MemoryLimitExceeded,
    RuntimeError,
    CompilationError,
    Other,
}

/// How far the user has got with a problem.
#[derive(Clone, Copy, Debug, PartialEq, Eq, Structural)]
pub enum SolveStatus {
    Unsolved,
    Attempted,
    Solved,
}

/// A problem of the catalogue.
#[derive(Debug)]
pub struct Problem {
    pub platform: Platform,
    pub id: String,
    pub name: String,
    pub url: String,
    pub rating: Option<u32>,
    pub tags: Vec<String>,
    pub category: Option<String>,
    pub solved_count: Option<u32>,
    pub status: SolveStatus,
}

/// The mathematical content of a [`Problem`].
pub struct ProblemView {
    pub platform: Platform,
    pub id: Seq<char>,
    pub name: Seq<char>,
    pub url: Seq<char>,
    pub rating: Option<u32>,
    pub tags: Seq<Seq<char>>,
    pub category: Option<Seq<char>>,
    pub solved_count: Option<u32>,
    pub status: SolveStatus,
}

/// The text of an optional `String`.
pub open spec fn opt_text(o: Option<String>) -> Option<Seq<char>> {
    match o {
        Some(s) => Some(s@),
        None => None,
    }
}

/// The texts of a list of `String`s.
pub open spec fn texts(v: Seq<String>) -> Seq<Seq<char>> {
    v.map_values(|s: String| s@)
}

impl View for Problem {
    type V = ProblemView;

    open spec fn view(&self) -> ProblemView {
        ProblemView {
            platform: self.platform,
            id: self.id@,
            name: self.name@,
            url: self.url@,
            rating: self.rating,
            tags: texts(self.tags@),
            category: opt_text(self.category),
            solved_count: self.solved_count,
            status: self.status,
        }
    }
}

/// A copy of an optional `String`.
pub fn copy_opt_string(o: &Option<String>) -> (r: Option<String>)
    ensures
        opt_text(r) == opt_text(*o),
{
    match o {
        Some(s) => Some(s.clone()),
        None => None,
    }
}

/// A copy of a list of `String`s.
pub fn copy_strings(v: &Vec<String>) -> (r: Vec<String>)
    ensures
        texts(r@) == texts(v@),
{
    let mut r: Vec<String> = Vec::new();
    let mut i: usize = 0;
    while i < v.len()
        invariant
            i <= v.len(),
            r@.len() == i,
            forall|k: int| 0 <= k < i ==> #[trigger] r@[k]@ == v@[k]@,
        decreases v.len() - i,
    {
        r.push(v[i].clone());
        i = i + 1;
    }
    assert(texts(r@) =~= texts(v@));
    r
}

impl Problem {
    /// A copy of the problem with the same content.
    pub fn duplicate(&self) -> (r: Problem)
        ensures
            r@ == self@,
    {
        Problem {
            platform: self.platform,
            id: self.id.clone(),
            name: self.name.clone(),
            url: self.url.clone(),
            rating: self.rating,
            tags: copy_strings(&self.tags),
            category: copy_opt_string(&self.category),
            solved_count: self.solved_count,
            status: self.status,
        }
    }
}

/// One submission of the user.
#[derive(Debug)]
pub struct Submission {
    pub platform: Platform,
    pub problem_id: String,
    pub verdict: Verdict,
    /// When it was made: whole seconds since the Unix epoch ...
    pub submitted_at: i64,
    /// ... and the nanoseconds past that second.
    pub submitted_nanos: u32,
}

/// How the user fares on one topic.
#[derive(Debug)]
pub struct TagStat {
    pub tag: String,
    pub solved: u32,
    pub attempted: u32,
}

/// One sample test: what goes to standard input and what should come out.
#[derive(Debug)]
pub struct TestCase {
    pub input: String,
    pub expected_output: String,
}

/// The outcome of running a solution on one sample test.
#[derive(Debug)]
pub struct TestResult {
    pub test_index: usize,
    pub passed: bool,
    pub input: String,
    pub expected: String,
    pub actual: String,
    pub time_ms: u64,
    pub error: Option<String>,
}

} // verus!
