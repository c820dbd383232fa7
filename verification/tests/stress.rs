use cpos::stress::{StressAction, StressDriver};

/// Runs a driver against pretend programs: the generator prints the seed,
/// the brute-force doubles it, and the solution doubles it except for `bad`.
fn run(max: u64, bad: Option<u64>) -> (u64, bool, Option<String>, Option<String>, Option<String>, usize) {
    let (mut driver, mut action) = StressDriver::new("gen".to_string(), "sol".to_string(), "brute".to_string(), max);
    let mut runs = 0;
    loop {
        match action {
            StressAction::Finish(r) => {
                return (r.iterations, r.found_mismatch, r.failing_input, r.expected_output, r.actual_output, runs)
            }
            StressAction::Run { cmd, input } => {
                runs += 1;
                let out = if let Some(seed) = cmd.strip_prefix("gen ") {
                    assert!(input.is_empty());
                    seed.to_string()
                } else {
                    let n: u64 = input.parse().unwrap();
                    if cmd == "sol" && Some(n) == bad { (2 * n + 1).to_string() } else { (2 * n).to_string() }
                };
                action = driver.as_mut().unwrap().step(Ok(out));
            }
            StressAction::Fail(e) => panic!("unexpected failure {e}"),
        }
    }
}

#[test]
fn stops_at_first_mismatch() {
    assert_eq!(
        run(10, Some(4)),
        (4, true, Some("4".to_string()), Some("8".to_string()), Some("9".to_string()), 12)
    );
}

#[test]
fn all_agree() {
    assert_eq!(run(5, None), (5, false, None, None, None, 15));
    assert_eq!(run(5, Some(6)), (5, false, None, None, None, 15));
}

#[test]
fn zero_iterations_finish_at_once() {
    assert_eq!(run(0, None), (0, false, None, None, None, 0));
}

#[test]
fn a_failing_program_ends_the_test() {
    let (mut driver, action) = StressDriver::new("gen".to_string(), "sol".to_string(), "brute".to_string(), 3);
    assert!(matches!(action, StressAction::Run { .. }));
    let d = driver.as_mut().unwrap();
    assert!(matches!(d.step(Ok("7".to_string())), StressAction::Run { ref cmd, ref input } if cmd == "brute" && input == "7"));
    match d.step(Err("Time limit exceeded".to_string())) {
        StressAction::Fail(e) => assert_eq!(e, "Time limit exceeded"),
        other => panic!("unexpected {other:?}"),
    }
}
