use cpos::text::replace_all;
use cpos::config::CompileConfig;
use cpos::models::TestCase;
use cpos::runner::{compile_command, compile_result, expand_command, program_output, run_command, test_result, RunOutcome};

#[test]
fn placeholders_are_filled() {
    assert_eq!(
        expand_command("g++ {source} -o {dir}/{output} # {classname} {source}", "/w/a.cpp", "a", "/b", "A"),
        "g++ /w/a.cpp -o /b/a # A /w/a.cpp"
    );
    assert_eq!(expand_command("echo {unknown}", "s", "o", "d", "c"), "echo {unknown}");
}

#[test]
fn compile_and_run_commands() {
    let cfg = CompileConfig { compile: Some("g++ {source} -o {output}".to_string()), run: "./{output}".to_string() };
    assert_eq!(compile_command(&cfg, "/w/x.cpp", "x", "/b"), Some("g++ /w/x.cpp -o x".to_string()));
    assert_eq!(run_command(&cfg, Some("x"), "/w/x.cpp", "x", "/b"), "./x");
    let py = CompileConfig { compile: None, run: "python3 {source}".to_string() };
    assert_eq!(compile_command(&py, "/w/x.py", "x", "/b"), None);
    assert_eq!(run_command(&py, None, "/w/x.py", "x", "/b"), "python3 /w/x.py");
    let java = CompileConfig { compile: None, run: "java -cp {dir} {output}".to_string() };
    assert_eq!(run_command(&java, None, "/w/Main.java", "Main", "/b"), "java -cp /b Main");
}

#[test]
fn compile_outcomes() {
    assert_eq!(compile_result(true, b"", "x"), Ok(Some("x".to_string())));
    assert_eq!(
        compile_result(false, b"  error: oops\n", "x"),
        Err("Compilation failed:\nerror: oops".to_string())
    );
}

fn case() -> TestCase {
    TestCase { input: "1 2\n".to_string(), expected_output: "3\n".to_string() }
}

#[test]
fn passing_test() {
    let r = test_result(&case(), 1, RunOutcome::Finished { stdout: b"3 \n".to_vec(), stderr: vec![], success: true }, 12);
    assert!(r.passed);
    assert_eq!(r.actual, "3");
    assert_eq!(r.expected, "3");
    assert_eq!(r.time_ms, 12);
    assert_eq!(r.error, None);
}

#[test]
fn failing_tests() {
    let r = test_result(&case(), 2, RunOutcome::Finished { stdout: b"4".to_vec(), stderr: b"warn".to_vec(), success: true }, 5);
    assert!(!r.passed);
    assert_eq!(r.error, None);
    let r = test_result(&case(), 2, RunOutcome::Finished { stdout: vec![], stderr: b"boom".to_vec(), success: false }, 5);
    assert_eq!(r.error, Some("boom".to_string()));
    let r = test_result(&case(), 2, RunOutcome::Finished { stdout: vec![], stderr: vec![], success: false }, 5);
    assert_eq!(r.error, None);
    let r = test_result(&case(), 3, RunOutcome::SpawnFailed("no sh".to_string()), 5);
    assert_eq!((r.passed, r.time_ms, r.actual.as_str()), (false, 0, ""));
    assert_eq!(r.expected, "3\n");
    assert_eq!(r.error, Some("Failed to spawn: no sh".to_string()));
    let r = test_result(&case(), 4, RunOutcome::ProcessError("io".to_string()), 7);
    assert_eq!(r.error, Some("Process error: io".to_string()));
    assert_eq!(r.time_ms, 7);
    let r = test_result(&case(), 5, RunOutcome::TimedOut, 2000);
    assert_eq!(r.error, Some("Time limit exceeded".to_string()));
    assert_eq!(r.test_index, 5);
}

#[test]
fn invalid_utf8_output_is_replaced() {
    let r = test_result(&case(), 1, RunOutcome::Finished { stdout: vec![0xff, b'3'], stderr: vec![], success: true }, 1);
    assert_eq!(r.actual, "\u{fffd}3");
}

#[test]
fn program_outputs() {
    assert_eq!(program_output(RunOutcome::Finished { stdout: b" 42\n".to_vec(), stderr: vec![], success: true }), Ok("42".to_string()));
    assert_eq!(
        program_output(RunOutcome::Finished { stdout: vec![], stderr: b"segfault\n".to_vec(), success: false }),
        Err("Runtime error: segfault\n".to_string())
    );
    assert_eq!(program_output(RunOutcome::TimedOut), Err("Time limit exceeded".to_string()));
    assert_eq!(program_output(RunOutcome::ProcessError("x".to_string())), Err("Process error: x".to_string()));
}

#[test]
fn replacement_is_left_to_right_without_overlap() {
    assert_eq!(replace_all("aaa", "aa", "b"), "ba");
    assert_eq!(replace_all("{x}{x}", "{x}", "yy"), "yyyy");
    assert_eq!(replace_all("éa{x}é", "{x}", "ü"), "éaüé");
    assert_eq!(replace_all("ab", "abc", "z"), "ab");
    assert_eq!(replace_all("", "a", "z"), "");
}
