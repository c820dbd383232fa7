//! Building and running a solution against its sample tests: the commands
//! to run, and how what the process did becomes a verdict. The processes
//! themselves are run by the caller.

use vstd::prelude::*;
use vstd::string::*;
use vstd::utf8::*;

use crate::config::CompileConfig;
use crate::models::{opt_text, TestCase, TestResult};
use crate::text::{replace_all, replaced, trim, trimmed};

verus! {

/// A command template with its placeholders filled in, in this order:
/// `{source}`, `{output}`, `{dir}`, `{classname}`.
pub open spec fn expanded_command(
    template: Seq<char>,
    source: Seq<char>,
    output: Seq<char>,
    dir: Seq<char>,
    classname: Seq<char>,
) -> Seq<char> {
    replaced(
        replaced(replaced(replaced(template, "{source}"@, source), "{output}"@, output), "{dir}"@, dir),
        "{classname}"@,
        classname,
    )
}

/// Fills the placeholders of a compile or run command: `{source}` is the
/// solution file, `{output}` the build artifact's name, `{dir}` the build
/// directory and `{classname}` the file's stem.
pub fn expand_command(template: &str, source: &str, output: &str, dir: &str, classname: &str) -> (r: String)
    ensures
        r@ == expanded_command(template@, source@, output@, dir@, classname@),
{
    proof {
        reveal_strlit("{source}");
        reveal_strlit("{output}");
        reveal_strlit("{dir}");
        reveal_strlit("{classname}");
    }
    let a = replace_all(template, "{source}", source);
    let b = replace_all(a.as_str(), "{output}", output);
    let c = replace_all(b.as_str(), "{dir}", dir);
    replace_all(c.as_str(), "{classname}", classname)
}

/// The build command of a solution, or `None` when the language is not
/// built. The artifact is named after the file's stem.
pub fn compile_command(config: &CompileConfig, source: &str, stem: &str, dir: &str) -> (r: Option<String>)
    ensures
        opt_text(config.compile) is None ==> r is None,
        opt_text(config.compile) matches Some(t) ==> (r matches Some(c) && c@ == expanded_command(
            t,
            source@,
            stem@,
            dir@,
            stem@,
        )),
{
    match &config.compile {
        Some(t) => Some(expand_command(t.as_str(), source, stem, dir, stem)),
        None => None,
    }
}

/// The command that runs a solution: `{output}` is the built artifact when
/// there is one, else the file's stem.
pub fn run_command(config: &CompileConfig, compiled_output: Option<&str>, source: &str, stem: &str, dir: &str) -> (r: String)
    ensures
        r@ == expanded_command(
            config.run@,
            source@,
            match compiled_output {
                Some(o) => o@,
                None => stem@,
            },
            dir@,
            stem@,
        ),
{
    let output = match compiled_output {
        Some(o) => o,
        None => stem,
    };
    expand_command(config.run.as_str(), source, output, dir, stem)
}

/// What the text of a process's output is: its bytes decoded as UTF-8,
/// invalid sequences replaced.
pub uninterp spec fn lossy_text(bytes: Seq<u8>) -> Seq<char>;

/// `String::from_utf8_lossy`: valid UTF-8 is decoded as such; how invalid
/// sequences are replaced is left to the name.
#[verifier::external_body]
pub(crate) fn from_utf8_lossy(bytes: &[u8]) -> (r: String)
    ensures
        r@ == lossy_text(bytes@),
        valid_utf8(bytes@) ==> r@ == decode_utf8(bytes@),
{
    String::from_utf8_lossy(bytes).into_owned()
}

/// The outcome of building a solution, given whether the build command
/// succeeded and what it wrote on standard error: the artifact's name, or
/// the error `Compilation failed:` with the trimmed error output.
pub fn compile_result(success: bool, stderr: &[u8], stem: &str) -> (r: Result<Option<String>, String>)
    ensures
        success ==> (r matches Ok(Some(o)) && o@ == stem@),
        !success ==> (r matches Err(e) && e@ == "Compilation failed:\n"@ + trimmed(lossy_text(stderr@))),
{
    if success {
        Ok(Some(String::from_str(stem)))
    } else {
        let text = from_utf8_lossy(stderr);
        let mut e = String::from_str("Compilation failed:\n");
        let t = trim(text.as_str());
        e.append(t.as_str());
        Err(e)
    }
}

/// What happened when a program was run on one input.
#[derive(Debug)]
pub enum RunOutcome {
    /// The process could not be started; the text says why.
    SpawnFailed(String),
    /// The process ran to its end.
    Finished { stdout: Vec<u8>, stderr: Vec<u8>, success: bool },
    /// Waiting for the process failed; the text says why.
    ProcessError(String),
    /// The process ran past the time limit.
    TimedOut,
}

/// A failed test: what it was given and expected, an empty output, and why.
pub open spec fn failed_result(
    r: TestResult,
    test: TestCase,
    index: usize,
    time_ms: u64,
    error: Seq<char>,
) -> bool {
    &&& r.test_index == index
    &&& !r.passed
    &&& r.input@ == test.input@
    &&& r.expected@ == test.expected_output@
    &&& r.actual@ == Seq::<char>::empty()
    &&& r.time_ms == time_ms
    &&& opt_text(r.error) == Some(error)
}

/// The verdict on one sample test from what running the solution did. A
/// test passes when the trimmed output equals the trimmed expected output;
/// the error output is reported only when the process failed and wrote some.
pub fn test_result(test: &TestCase, index: usize, outcome: RunOutcome, elapsed_ms: u64) -> (r: TestResult)
    ensures
        outcome matches RunOutcome::SpawnFailed(e) ==> failed_result(r, *test, index, 0, "Failed to spawn: "@ + e@),
        outcome matches RunOutcome::ProcessError(e) ==> failed_result(r, *test, index, elapsed_ms, "Process error: "@ + e@),
        outcome is TimedOut ==> failed_result(r, *test, index, elapsed_ms, "Time limit exceeded"@),
        outcome matches RunOutcome::Finished { stdout, stderr, success } ==> {
            &&& r.test_index == index
            &&& r.input@ == test.input@
            &&& r.actual@ == trimmed(lossy_text(stdout@))
            &&& r.expected@ == trimmed(test.expected_output@)
            &&& r.passed == (trimmed(lossy_text(stdout@)) == trimmed(test.expected_output@))
            &&& r.time_ms == elapsed_ms
            &&& opt_text(r.error) == if !success && lossy_text(stderr@).len() > 0 {
                Some(lossy_text(stderr@))
            } else {
                None
            }
        },
{
    match outcome {
        RunOutcome::SpawnFailed(e) => {
            let mut msg = String::from_str("Failed to spawn: ");
            msg.append(e.as_str());
            TestResult {
                test_index: index,
                passed: false,
                input: test.input.clone(),
                expected: test.expected_output.clone(),
                actual: String::new(),
                time_ms: 0,
                error: Some(msg),
            }
        },
        RunOutcome::Finished { stdout, stderr, success } => {
            let out = from_utf8_lossy(stdout.as_slice());
            let actual = trim(out.as_str());
            let expected = trim(test.expected_output.as_str());
            let err = from_utf8_lossy(stderr.as_slice());
            let passed = actual == expected;
            let error = if !success && err.unicode_len() > 0 {
                Some(err)
            } else {
                None
            };
            TestResult { test_index: index, passed, input: test.input.clone(), expected, actual, time_ms: elapsed_ms, error }
        },
        RunOutcome::ProcessError(e) => {
            let mut msg = String::from_str("Process error: ");
            msg.append(e.as_str());
            TestResult {
                test_index: index,
                passed: false,
                input: test.input.clone(),
                expected: test.expected_output.clone(),
                actual: String::new(),
                time_ms: elapsed_ms,
                error: Some(msg),
            }
        },
        RunOutcome::TimedOut => TestResult {
            test_index: index,
            passed: false,
            input: test.input.clone(),
            expected: test.expected_output.clone(),
            actual: String::new(),
            time_ms: elapsed_ms,
            error: Some(String::from_str("Time limit exceeded")),
        },
    }
}

/// What a program run gives a stress test: its trimmed output when it
/// succeeded, otherwise the reason it failed.
pub open spec fn program_output_spec(outcome: RunOutcome) -> Result<Seq<char>, Seq<char>> {
    match outcome {
        RunOutcome::SpawnFailed(e) => Err(e@),
        RunOutcome::Finished { stdout, stderr, success } => if success {
            Ok(trimmed(lossy_text(stdout@)))
        } else {
            Err("Runtime error: "@ + lossy_text(stderr@))
        },
        RunOutcome::ProcessError(e) => Err("Process error: "@ + e@),
        RunOutcome::TimedOut => Err("Time limit exceeded"@),
    }
}

/// The trimmed output of a successful run, or why the run failed.
pub fn program_output(outcome: RunOutcome) -> (r: Result<String, String>)
    ensures
        match (r, program_output_spec(outcome)) {
            (Ok(o), Ok(s)) => o@ == s,
            (Err(e), Err(s)) => e@ == s,
            _ => false,
        },
{
    match outcome {
        RunOutcome::SpawnFailed(e) => Err(e),
        RunOutcome::Finished { stdout, stderr, success } => {
            if success {
                let out = from_utf8_lossy(stdout.as_slice());
                Ok(trim(out.as_str()))
            } else {
                let err = from_utf8_lossy(stderr.as_slice());
                let mut msg = String::from_str("Runtime error: ");
                msg.append(err.as_str());
                Err(msg)
            }
        },
        RunOutcome::ProcessError(e) => {
            let mut msg = String::from_str("Process error: ");
            msg.append(e.as_str());
            Err(msg)
        },
        RunOutcome::TimedOut => Err(String::from_str("Time limit exceeded")),
    }
}

} // verus!
