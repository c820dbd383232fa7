//! Stress testing: run a generator with seeds 1, 2, ... and compare the
//! solution's output with a brute-force solution's until they differ.
//!
//! [`StressDriver`] decides what to run next; the caller runs it and feeds
//! the program's trimmed output, or why it failed, back until the driver ends.

use vstd::prelude::*;
use vstd::string::*;

use crate::models::opt_text;
use crate::text::{decimal, push_char, u64_text};

verus! {

/// The outcome of a stress test.
#[derive(Debug)]
pub struct StressResult {
    /// The seed the run stopped at (the number of iterations run).
    pub iterations: u64,
    pub found_mismatch: bool,
    pub failing_input: Option<String>,
    pub expected_output: Option<String>,
    pub actual_output: Option<String>,
}

/// Which program the driver is waiting on.
#[derive(Clone, Copy, Debug, PartialEq, Eq, Structural)]
pub enum StressStage {
    Generator,
    Brute,
    Solution,
}

/// The state of a stress test in progress.
#[derive(Debug)]
pub struct StressDriver {
    generator_cmd: String,
    solution_cmd: String,
    brute_cmd: String,
    max_iterations: u64,
    iteration: u64,
    stage: StressStage,
    input: String,
    expected: String,
}

/// What the caller is to do next.
#[derive(Debug)]
pub enum StressAction {
    /// Run `cmd` with `input` on standard input and report its trimmed output.
    Run { cmd: String, input: String },
    /// The stress test is over.
    Finish(StressResult),
    /// A program could not be run or did not succeed; the text says why.
    Fail(String),
}

/// The content of a [`StressResult`].
pub struct StressResultView {
    pub iterations: u64,
    pub found_mismatch: bool,
    pub failing_input: Option<Seq<char>>,
    pub expected_output: Option<Seq<char>>,
    pub actual_output: Option<Seq<char>>,
}

/// The content of a [`StressAction`].
pub enum ActionView {
    Run(Seq<char>, Seq<char>),
    Finish(StressResultView),
    Fail(Seq<char>),
}

/// The content of a [`StressDriver`].
pub struct DriverView {
    pub generator_cmd: Seq<char>,
    pub solution_cmd: Seq<char>,
    pub brute_cmd: Seq<char>,
    pub max_iterations: u64,
    pub iteration: u64,
    pub stage: StressStage,
    pub input: Seq<char>,
    pub expected: Seq<char>,
}

impl View for StressResult {
    type V = StressResultView;

    open spec fn view(&self) -> StressResultView {
        StressResultView {
            iterations: self.iterations,
            found_mismatch: self.found_mismatch,
            failing_input: opt_text(self.failing_input),
            expected_output: opt_text(self.expected_output),
            actual_output: opt_text(self.actual_output),
        }
    }
}

impl View for StressAction {
    type V = ActionView;

    open spec fn view(&self) -> ActionView {
        match self {
            StressAction::Run { cmd, input } => ActionView::Run(cmd@, input@),
            StressAction::Finish(r) => ActionView::Finish(r@),
            StressAction::Fail(e) => ActionView::Fail(e@),
        }
    }
}

impl View for StressDriver {
    type V = DriverView;

    closed spec fn view(&self) -> DriverView {
        DriverView {
            generator_cmd: self.generator_cmd@,
            solution_cmd: self.solution_cmd@,
            brute_cmd: self.brute_cmd@,
            max_iterations: self.max_iterations,
            iteration: self.iteration,
            stage: self.stage,
            input: self.input@,
            expected: self.expected@,
        }
    }
}

/// The generator command for a seed: the command, a space, the seed.
pub open spec fn seeded(generator_cmd: Seq<char>, seed: u64) -> Seq<char> {
    generator_cmd + seq![' '] + decimal(seed as nat)
}

/// The result when no iteration disagreed.
pub open spec fn agreed(max_iterations: u64) -> StressResultView {
    StressResultView {
        iterations: max_iterations,
        found_mismatch: false,
        failing_input: None,
        expected_output: None,
        actual_output: None,
    }
}

/// The result when iteration `i` disagreed.
pub open spec fn disagreed(i: u64, input: Seq<char>, expected: Seq<char>, actual: Seq<char>) -> StressResultView {
    StressResultView {
        iterations: i,
        found_mismatch: true,
        failing_input: Some(input),
        expected_output: Some(expected),
        actual_output: Some(actual),
    }
}

/// The driver's well-formedness: while running, the iteration is one of
/// `1..=max_iterations`.
pub open spec fn driver_wf(d: DriverView) -> bool {
    1 <= d.iteration <= d.max_iterations
}

/// The driver at the start of an iteration, waiting on the generator.
pub open spec fn at_generator(d: DriverView, i: u64) -> DriverView {
    DriverView { iteration: i, stage: StressStage::Generator, ..d }
}

/// A driver for the given commands at the start of the first iteration.
pub open spec fn starts(d: DriverView, generator_cmd: Seq<char>, solution_cmd: Seq<char>, brute_cmd: Seq<char>, max_iterations: u64) -> bool {
    &&& d.generator_cmd == generator_cmd
    &&& d.solution_cmd == solution_cmd
    &&& d.brute_cmd == brute_cmd
    &&& d.max_iterations == max_iterations
    &&& d.iteration == 1
    &&& d.stage == StressStage::Generator
}

/// One transition: the state after the awaited program printed `output`, or
/// failed with an error, and what to do next. An error ends the test.
pub open spec fn transition(d: DriverView, output: Result<Seq<char>, Seq<char>>) -> (DriverView, ActionView) {
    match output {
        Err(e) => (d, ActionView::Fail(e)),
        Ok(output) => match d.stage {
            StressStage::Generator => (
                DriverView { stage: StressStage::Brute, input: output, ..d },
                ActionView::Run(d.brute_cmd, output),
            ),
            StressStage::Brute => (
                DriverView { stage: StressStage::Solution, expected: output, ..d },
                ActionView::Run(d.solution_cmd, d.input),
            ),
            StressStage::Solution => if d.expected != output {
                (d, ActionView::Finish(disagreed(d.iteration, d.input, d.expected, output)))
            } else if d.iteration >= d.max_iterations {
                (d, ActionView::Finish(agreed(d.max_iterations)))
            } else {
                (
                    at_generator(d, (d.iteration + 1) as u64),
                    ActionView::Run(seeded(d.generator_cmd, (d.iteration + 1) as u64), Seq::empty()),
                )
            },
        },
    }
}

/// The text of a program's output or of its error.
pub open spec fn result_text(r: Result<String, String>) -> Result<Seq<char>, Seq<char>> {
    match r {
        Ok(o) => Ok(o@),
        Err(e) => Err(e@),
    }
}

fn seeded_command(generator_cmd: &String, seed: u64) -> (r: String)
    ensures
        r@ == seeded(generator_cmd@, seed),
{
    let mut r = generator_cmd.clone();
    push_char(&mut r, ' ');
    let n = u64_text(seed);
    r.append(n.as_str());
    r
}

impl StressDriver {
    /// Starts a stress test of at most `max_iterations` seeds; with none it
    /// is over at once.
    pub fn new(generator_cmd: String, solution_cmd: String, brute_cmd: String, max_iterations: u64) -> (r: (
        Option<StressDriver>,
        StressAction,
    ))
        ensures
            max_iterations == 0 ==> r.0 is None && r.1@ == ActionView::Finish(agreed(0)),
            max_iterations > 0 ==> (r.0 matches Some(d) && driver_wf(d@) && starts(
                d@,
                generator_cmd@,
                solution_cmd@,
                brute_cmd@,
                max_iterations,
            )),
            max_iterations > 0 ==> r.1@ == ActionView::Run(seeded(generator_cmd@, 1), Seq::empty()),
    {
        if max_iterations == 0 {
            return (
                None,
                StressAction::Finish(
                    StressResult {
                        iterations: 0,
                        found_mismatch: false,
                        failing_input: None,
                        expected_output: None,
                        actual_output: None,
                    },
                ),
            );
        }
        let cmd = seeded_command(&generator_cmd, 1);
        let d = StressDriver {
            generator_cmd,
            solution_cmd,
            brute_cmd,
            max_iterations,
            iteration: 1,
            stage: StressStage::Generator,
            input: String::new(),
            expected: String::new(),
        };
        (Some(d), StressAction::Run { cmd, input: String::new() })
    }

    /// Takes the trimmed output of the program the driver waited on, or why
    /// it failed, and says what to do next.
    pub fn step(&mut self, output: Result<String, String>) -> (a: StressAction)
        requires
            driver_wf(old(self)@),
        ensures
            final(self)@ == transition(old(self)@, result_text(output)).0,
            a@ == transition(old(self)@, result_text(output)).1,
            driver_wf(final(self)@),
    {
        let output = match output {
            Ok(o) => o,
            Err(e) => return StressAction::Fail(e),
        };
        match self.stage {
            StressStage::Generator => {
                let cmd = self.brute_cmd.clone();
                let input = output.clone();
                self.input = output;
                self.stage = StressStage::Brute;
                StressAction::Run { cmd, input }
            },
            StressStage::Brute => {
                self.expected = output;
                self.stage = StressStage::Solution;
                StressAction::Run { cmd: self.solution_cmd.clone(), input: self.input.clone() }
            },
            StressStage::Solution => {
                if self.expected != output {
                    StressAction::Finish(
                        StressResult {
                            iterations: self.iteration,
                            found_mismatch: true,
                            failing_input: Some(self.input.clone()),
                            expected_output: Some(self.expected.clone()),
                            actual_output: Some(output),
                        },
                    )
                } else if self.iteration >= self.max_iterations {
                    StressAction::Finish(
                        StressResult {
                            iterations: self.max_iterations,
                            found_mismatch: false,
                            failing_input: None,
                            expected_output: None,
                            actual_output: None,
                        },
                    )
                } else {
                    self.iteration = self.iteration + 1;
                    self.stage = StressStage::Generator;
                    StressAction::Run { cmd: seeded_command(&self.generator_cmd, self.iteration), input: String::new() }
                }
            },
        }
    }
}

// ---------------------------------------------------------------------------
// A whole stress test
// ---------------------------------------------------------------------------

/// What the programs print, or why they fail: the generator for each seed,
/// the brute-force and the tested solution for each input.
pub struct Programs {
    pub generator: spec_fn(u64) -> Result<Seq<char>, Seq<char>>,
    pub brute: spec_fn(Seq<char>) -> Result<Seq<char>, Seq<char>>,
    pub solution: spec_fn(Seq<char>) -> Result<Seq<char>, Seq<char>>,
}

/// The outcome of a stress test from seed `i` on: the first failure of a
/// program, in the order they run, or else the first seed (up to
/// `max_iterations`) where the brute-force and the tested solution print
/// different outputs, or agreement on all of them.
pub open spec fn stress_outcome(p: Programs, max_iterations: u64, i: u64) -> Result<StressResultView, Seq<char>>
    decreases max_iterations - i,
{
    match (p.generator)(i) {
        Err(e) => Err(e),
        Ok(input) => match (p.brute)(input) {
            Err(e) => Err(e),
            Ok(expected) => match (p.solution)(input) {
                Err(e) => Err(e),
                Ok(actual) => if expected != actual {
                    Ok(disagreed(i, input, expected, actual))
                } else if i >= max_iterations {
                    Ok(agreed(max_iterations))
                } else {
                    stress_outcome(p, max_iterations, (i + 1) as u64)
                },
            },
        },
    }
}

/// What the program the driver waits on prints, or why it fails.
pub open spec fn response(d: DriverView, p: Programs) -> Result<Seq<char>, Seq<char>> {
    match d.stage {
        StressStage::Generator => (p.generator)(d.iteration),
        StressStage::Brute => (p.brute)(d.input),
        StressStage::Solution => (p.solution)(d.input),
    }
}

/// Running the driver for at most `fuel` programs: the result it finishes
/// with or the error it fails with, or `None` if it has not ended by then.
pub open spec fn drive(d: DriverView, a: ActionView, p: Programs, fuel: nat) -> Option<Result<StressResultView, Seq<char>>>
    decreases fuel,
{
    match a {
        ActionView::Finish(r) => Some(Ok(r)),
        ActionView::Fail(e) => Some(Err(e)),
        ActionView::Run(_, _) => if fuel == 0 {
            None
        } else {
            let next = transition(d, response(d, p));
            drive(next.0, next.1, p, (fuel - 1) as nat)
        },
    }
}

proof fn lemma_drive_from(d: DriverView, p: Programs, i: u64, input: Seq<char>)
    requires
        d.stage == StressStage::Generator,
        d.iteration == i,
        1 <= i <= d.max_iterations,
    ensures
        drive(d, ActionView::Run(seeded(d.generator_cmd, i), input), p, (3 * (d.max_iterations - i + 1)) as nat)
            == Some(stress_outcome(p, d.max_iterations, i)),
    decreases d.max_iterations - i,
{
    let fuel = (3 * (d.max_iterations - i + 1)) as nat;
    let a0 = ActionView::Run(seeded(d.generator_cmd, i), input);
    let t1 = transition(d, response(d, p));
    assert(drive(d, a0, p, fuel) == drive(t1.0, t1.1, p, (fuel - 1) as nat));
    match (p.generator)(i) {
        Err(e) => {},
        Ok(g) => {
            let t2 = transition(t1.0, response(t1.0, p));
            assert(drive(t1.0, t1.1, p, (fuel - 1) as nat) == drive(t2.0, t2.1, p, (fuel - 2) as nat));
            match (p.brute)(g) {
                Err(e) => {},
                Ok(e) => {
                    let t3 = transition(t2.0, response(t2.0, p));
                    assert(drive(t2.0, t2.1, p, (fuel - 2) as nat) == drive(t3.0, t3.1, p, (fuel - 3) as nat));
                    assert(t2.0.input == g && t2.0.expected == e);
                    match (p.solution)(g) {
                        Err(x) => {},
                        Ok(s) => {
                            if e != s {
                            } else if i >= d.max_iterations {
                            } else {
                                let d4 = at_generator(t2.0, (i + 1) as u64);
                                assert(t3.0 == d4);
                                lemma_drive_from(d4, p, (i + 1) as u64, Seq::empty());
                                assert((fuel - 3) as nat == (3 * (d4.max_iterations - (i + 1) + 1)) as nat);
                            }
                        },
                    }
                },
            }
        },
    }
}

/// A stress test ends with the first failure of a program, in the order
/// they run; otherwise it reports the first seed at which the brute-force
/// and the tested solution disagree, with the input and both outputs, or,
/// when they agree on every seed, that `max_iterations` seeds passed. It ends
/// after at most three program runs per seed.
pub proof fn stress_test_finds_first_mismatch(
    d: DriverView,
    p: Programs,
    generator_cmd: Seq<char>,
    solution_cmd: Seq<char>,
    brute_cmd: Seq<char>,
    max_iterations: u64,
)
    requires
        max_iterations > 0,
        starts(d, generator_cmd, solution_cmd, brute_cmd, max_iterations),
    ensures
        drive(d, ActionView::Run(seeded(generator_cmd, 1), Seq::empty()), p, (3 * max_iterations) as nat)
            == Some(stress_outcome(p, max_iterations, 1)),
{
    lemma_drive_from(d, p, 1, Seq::empty());
}

} // verus!
