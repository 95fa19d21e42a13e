use cmdtimer::duration::Dur;
use cmdtimer::runner::{
    line_color, run_report, LineColor, LineKind, RunConfig, RunOutcome, Runner,
};

fn completed(status: &str, secs: u64, nanos: u32) -> RunOutcome {
    RunOutcome::Completed { status: String::from(status), elapsed: Dur::new(secs, nanos) }
}

#[test]
fn line_kinds_have_their_categorical_colors() {
    assert_eq!(line_color(LineKind::Status), LineColor::Magenta);
    assert_eq!(line_color(LineKind::Timing), LineColor::Green);
    assert_eq!(line_color(LineKind::Error), LineColor::Red);
    assert_eq!(line_color(LineKind::Summary), LineColor::Cyan);
}

#[test]
fn run_config_carries_its_fields() {
    let config = RunConfig::new(String::from("true"), 3, false);
    assert_eq!(config.command, "true");
    assert_eq!(config.times, 3);
    assert!(!config.capture_output);
}

#[test]
fn three_successful_runs_report_three_pairs_and_one_average() {
    // Three instant runs of an always-succeeding command, one millisecond each.
    let outcomes = vec![
        completed("exit status: 0", 0, 1_000_000),
        completed("exit status: 0", 0, 1_000_000),
        completed("exit status: 0", 0, 1_000_000),
    ];
    let lines = run_report(3, &outcomes);
    assert_eq!(lines.len(), 7);
    for i in 0..3 {
        assert_eq!(lines[2 * i].kind, LineKind::Status);
        assert_eq!(lines[2 * i].text, "Process finished. exit status: 0");
        assert_eq!(lines[2 * i + 1].kind, LineKind::Timing);
        assert_eq!(
            lines[2 * i + 1].text,
            "Time: 0 days, 00 hrs 00 min 00 sec 001 ms 000 us 000 ns"
        );
    }
    assert_eq!(lines[6].kind, LineKind::Summary);
    assert_eq!(
        lines[6].text,
        "Average time for 3 runs: 0 days, 00 hrs 00 min 00 sec 001 ms 000 us 000 ns"
    );
}

#[test]
fn first_launch_failure_gives_one_error_line_and_no_average() {
    // Five configured runs of a nonexistent binary: the first outcome is a
    // launch failure, so exactly one error line comes out and no average.
    let outcomes = vec![
        RunOutcome::SpawnFailed {
            message: String::from("No such file or directory (os error 2)"),
        },
        RunOutcome::WaitFailed,
        RunOutcome::WaitFailed,
        RunOutcome::WaitFailed,
        RunOutcome::WaitFailed,
    ];
    let lines = run_report(5, &outcomes);
    assert_eq!(lines.len(), 1);
    assert_eq!(lines[0].kind, LineKind::Error);
    assert_eq!(lines[0].text, "Error: No such file or directory (os error 2)");
}

#[test]
fn launch_failure_aborts_the_runner_loop() {
    let mut runner = Runner::new(5);
    assert!(runner.should_continue());
    let lines = runner.step(&RunOutcome::SpawnFailed {
        message: String::from("Permission denied (os error 13)"),
    });
    assert_eq!(lines.len(), 1);
    assert_eq!(lines[0].kind, LineKind::Error);
    assert_eq!(lines[0].text, "Error: Permission denied (os error 13)");
    assert!(!runner.should_continue());
    assert!(runner.finish().is_none());
}

#[test]
fn average_divides_by_times_not_by_completed_count() {
    // Four configured runs, one of which fails at the wait step: its
    // iteration still counts toward the divisor, so the average is
    // (2 s + 4 s + 6 s) / 4 = 3 s, not 4 s.
    let outcomes = vec![
        completed("exit status: 0", 2, 0),
        RunOutcome::WaitFailed,
        completed("exit status: 0", 4, 0),
        completed("exit status: 0", 6, 0),
    ];
    let lines = run_report(4, &outcomes);
    assert_eq!(lines.len(), 7);
    assert_eq!(lines[6].kind, LineKind::Summary);
    assert_eq!(
        lines[6].text,
        "Average time for 4 runs: 0 days, 00 hrs 00 min 03 sec 000 ms 000 us 000 ns"
    );
}

#[test]
fn wait_failure_is_silently_skipped() {
    let mut runner = Runner::new(2);
    let lines = runner.step(&RunOutcome::WaitFailed);
    assert!(lines.is_empty());
    assert_eq!(runner.done, 1);
    assert!(runner.should_continue());
}

#[test]
fn runner_steps_match_the_replayed_report() {
    let outcomes = vec![
        completed("exit status: 0", 1, 500_000_000),
        completed("exit status: 1", 2, 500_000_000),
    ];
    let mut runner = Runner::new(2);
    let mut stepped = Vec::new();
    for outcome in &outcomes {
        if let RunOutcome::Completed { elapsed, .. } = outcome {
            assert!(runner.can_accept(elapsed));
        }
        stepped.extend(runner.step(outcome));
        if !runner.should_continue() {
            break;
        }
    }
    if let Some(summary) = runner.finish() {
        stepped.push(summary);
    }
    let replayed = run_report(2, &outcomes);
    assert_eq!(stepped.len(), replayed.len());
    for (a, b) in stepped.iter().zip(replayed.iter()) {
        assert_eq!(a.kind, b.kind);
        assert_eq!(a.text, b.text);
    }
    assert_eq!(stepped[4].text, "Average time for 2 runs: 0 days, 00 hrs 00 min 02 sec 000 ms 000 us 000 ns");
}
