//! The run loop's state machine: accumulate elapsed time across runs,
//! decide what to report after each run, and produce the final average.
//!
//! The loop that actually spawns processes lives outside the library; it
//! hands each run's outcome to [`Runner::step`] and prints the report lines
//! it gets back. Launch failure aborts the loop and suppresses the average;
//! wait failure is silently skipped for that one iteration while still
//! counting toward the configured number of runs, so the average always
//! divides by the configured count.

use vstd::prelude::*;
use vstd::string::StringExecFns;

use crate::duration::{Dur, dur_from_ns, lemma_dur_canonical, max_dur_ns};
use crate::format::{dec_spec, format_spec, parse_time, u64_to_dec};

verus! {

/// The configuration of one invocation: the command to run, how many times
/// to run it, and whether the child's output is shown or suppressed.
pub struct RunConfig {
    pub command: String,
    pub times: u32,
    pub capture_output: bool,
}

impl RunConfig {
    /// At least one run is requested, so the average's divisor is positive.
    pub open spec fn wf(self) -> bool {
        self.times >= 1
    }

    /// Builds a configuration; the repeat count must be positive.
    pub fn new(command: String, times: u32, capture_output: bool) -> (r: RunConfig)
        requires
            times >= 1,
        ensures
            r.wf(),
            r.command@ == command@,
            r.times == times,
            r.capture_output == capture_output,
    {
        RunConfig { command, times, capture_output }
    }
}

/// The category of a report line; each category is rendered with its own
/// visual emphasis.
#[derive(Clone, Copy, Debug, PartialEq, Eq, Structural)]
pub enum LineKind {
    Status,
    Timing,
    Error,
    Summary,
}

/// The colour a report line is rendered in.
#[derive(Clone, Copy, Debug, PartialEq, Eq, Structural)]
pub enum LineColor {
    Magenta,
    Green,
    Red,
    Cyan,
}

/// The categorical colour of each line kind.
pub open spec fn color_spec(k: LineKind) -> LineColor {
    match k {
        LineKind::Status => LineColor::Magenta,
        LineKind::Timing => LineColor::Green,
        LineKind::Error => LineColor::Red,
        LineKind::Summary => LineColor::Cyan,
    }
}

/// Maps a line kind to its colour: magenta status, green timing, red error,
/// cyan summary.
pub fn line_color(k: LineKind) -> (c: LineColor)
    ensures
        c == color_spec(k),
{
    match k {
        LineKind::Status => LineColor::Magenta,
        LineKind::Timing => LineColor::Green,
        LineKind::Error => LineColor::Red,
        LineKind::Summary => LineColor::Cyan,
    }
}

/// One line of the report: its category and its text.
pub struct ReportLine {
    pub kind: LineKind,
    pub text: String,
}

impl View for ReportLine {
    type V = (LineKind, Seq<char>);

    open spec fn view(&self) -> (LineKind, Seq<char>) {
        (self.kind, self.text@)
    }
}

/// The outcome of one spawn-and-wait cycle: the child ran to an observed
/// exit (with its status text and the elapsed wall-clock time), or the
/// child could not be waited on, or it could not be launched at all.
pub enum RunOutcome {
    Completed { status: String, elapsed: Dur },
    WaitFailed,
    SpawnFailed { message: String },
}

/// The status text of a completed run.
pub open spec fn status_of(o: RunOutcome) -> Seq<char>
    recommends
        o is Completed,
{
    o->Completed_status@
}

/// The elapsed duration of a completed run.
pub open spec fn elapsed_of(o: RunOutcome) -> Dur
    recommends
        o is Completed,
{
    o->Completed_elapsed
}

/// The error message of a run that failed to launch.
pub open spec fn message_of(o: RunOutcome) -> Seq<char>
    recommends
        o is SpawnFailed,
{
    o->SpawnFailed_message@
}

/// What a completed run adds to the accumulated total; other outcomes add
/// nothing.
pub open spec fn elapsed_contrib(o: RunOutcome) -> int {
    match o {
        RunOutcome::Completed { elapsed, .. } => elapsed.total_ns(),
        _ => 0,
    }
}

/// Every completed outcome carries a well-formed duration.
pub open spec fn outcomes_wf(outs: Seq<RunOutcome>) -> bool {
    forall|i: int|
        0 <= i < outs.len() ==> ((#[trigger] outs[i]) matches RunOutcome::Completed {
            elapsed,
            ..
        } ==> elapsed.wf())
}

/// No outcome in the sequence is a launch failure.
pub open spec fn no_spawn_failure(outs: Seq<RunOutcome>) -> bool {
    forall|i: int| 0 <= i < outs.len() ==> !((#[trigger] outs[i]) is SpawnFailed)
}

/// The sum, in nanoseconds, of the elapsed durations of the completed runs.
pub open spec fn sum_elapsed(outs: Seq<RunOutcome>) -> int
    decreases outs.len(),
{
    if outs.len() == 0 {
        0
    } else {
        sum_elapsed(outs.drop_last()) + elapsed_contrib(outs.last())
    }
}

/// Every accumulated total reached while replaying the outcomes in order
/// (stopping at the first launch failure) stays representable.
pub open spec fn sums_fit(outs: Seq<RunOutcome>) -> bool {
    forall|i: int|
        0 <= i <= outs.len() && no_spawn_failure(#[trigger] outs.take(i)) ==> sum_elapsed(
            outs.take(i),
        ) <= max_dur_ns()
}

/// The status line for a completed run.
pub open spec fn status_text(status: Seq<char>) -> Seq<char> {
    "Process finished. "@ + status
}

/// The timing line for a completed run.
pub open spec fn timing_text(elapsed: Dur) -> Seq<char> {
    "Time: "@ + format_spec(elapsed)
}

/// The error line for a run that failed to launch.
pub open spec fn error_text(message: Seq<char>) -> Seq<char> {
    "Error: "@ + message
}

/// The summary line: the accumulated total divided by the configured
/// number of runs — by `times`, never by the count of completed runs.
pub open spec fn summary_text(times: nat, acc_ns: int) -> Seq<char> {
    "Average time for "@ + dec_spec(times) + " runs: "@ + format_spec(
        dur_from_ns(acc_ns / (times as int)),
    )
}

/// The lines one outcome gives rise to: a status and a timing line for a
/// completed run, nothing for a failed wait, one error line for a failed
/// launch.
pub open spec fn lines_of_outcome(o: RunOutcome) -> Seq<(LineKind, Seq<char>)> {
    match o {
        RunOutcome::Completed { status, elapsed } => seq![
            (LineKind::Status, status_text(status@)),
            (LineKind::Timing, timing_text(elapsed)),
        ],
        RunOutcome::WaitFailed => seq![],
        RunOutcome::SpawnFailed { message } => seq![(LineKind::Error, error_text(message@))],
    }
}

/// The views of a sequence of report lines.
pub open spec fn line_views(lines: Seq<ReportLine>) -> Seq<(LineKind, Seq<char>)> {
    lines.map_values(|l: ReportLine| l@)
}

/// The report produced from outcome `i` onward, with `acc_ns` nanoseconds
/// already accumulated: per-outcome lines until the first launch failure
/// (which ends the report with its error line), else a final summary line.
pub open spec fn report_rec(
    times: nat,
    outs: Seq<RunOutcome>,
    i: nat,
    acc_ns: int,
) -> Seq<(LineKind, Seq<char>)>
    decreases outs.len() - i,
{
    if i >= outs.len() {
        seq![(LineKind::Summary, summary_text(times, acc_ns))]
    } else {
        match outs[i as int] {
            RunOutcome::Completed { status, elapsed } => lines_of_outcome(outs[i as int])
                + report_rec(times, outs, i + 1, acc_ns + elapsed.total_ns()),
            RunOutcome::WaitFailed => report_rec(times, outs, i + 1, acc_ns),
            RunOutcome::SpawnFailed { .. } => lines_of_outcome(outs[i as int]),
        }
    }
}

/// The whole report for a sequence of run outcomes.
pub open spec fn report_spec(times: nat, outs: Seq<RunOutcome>) -> Seq<(LineKind, Seq<char>)> {
    report_rec(times, outs, 0, 0)
}

/// The run loop's state: the configured repeat count, how many runs have
/// been consumed, the accumulated elapsed time of the completed runs, and
/// whether a launch failure has aborted the loop.
pub struct Runner {
    pub times: u32,
    pub done: u32,
    pub acc: Dur,
    pub failed: bool,
}

impl Runner {
    /// The repeat count is positive, no more runs were consumed than
    /// configured, and the accumulator is well-formed.
    pub open spec fn wf(self) -> bool {
        &&& self.times >= 1
        &&& self.done <= self.times
        &&& self.acc.wf()
    }

    /// A fresh runner: nothing consumed, nothing accumulated, no failure.
    pub fn new(times: u32) -> (r: Runner)
        requires
            times >= 1,
        ensures
            r.wf(),
            r.times == times,
            r.done == 0,
            r.acc.total_ns() == 0,
            !r.failed,
    {
        Runner { times, done: 0, acc: Dur::zero(), failed: false }
    }

    /// True while another run should be attempted: no launch failure yet
    /// and fewer runs consumed than configured.
    pub fn should_continue(&self) -> (b: bool)
        ensures
            b == (!self.failed && self.done < self.times),
    {
        !self.failed && self.done < self.times
    }

    /// Whether the accumulated total can absorb `elapsed` without leaving
    /// the representable range, so that a completed outcome may be stepped.
    pub fn can_accept(&self, elapsed: &Dur) -> (b: bool)
        requires
            self.wf(),
            elapsed.wf(),
        ensures
            b == (self.acc.total_ns() + elapsed.total_ns() <= max_dur_ns()),
    {
        self.acc.can_add(elapsed)
    }

    /// Consumes one run's outcome and returns the lines to report for it.
    ///
    /// A completed run adds its elapsed time to the accumulator and yields
    /// a status and a timing line. A failed wait yields nothing and adds
    /// nothing, but still counts toward the configured number of runs. A
    /// failed launch yields one error line and aborts the loop.
    pub fn step(&mut self, outcome: &RunOutcome) -> (lines: Vec<ReportLine>)
        requires
            old(self).wf(),
            !old(self).failed,
            old(self).done < old(self).times,
            *outcome matches RunOutcome::Completed { elapsed, .. } ==> elapsed.wf() && old(
                self,
            ).acc.total_ns() + elapsed.total_ns() <= max_dur_ns(),
        ensures
            final(self).wf(),
            final(self).times == old(self).times,
            line_views(lines@) == lines_of_outcome(*outcome),
            match *outcome {
                RunOutcome::Completed { status, elapsed } => {
                    &&& final(self).acc.total_ns() == old(self).acc.total_ns()
                        + elapsed.total_ns()
                    &&& final(self).done == old(self).done + 1
                    &&& !final(self).failed
                },
                RunOutcome::WaitFailed => {
                    &&& final(self).acc == old(self).acc
                    &&& final(self).done == old(self).done + 1
                    &&& !final(self).failed
                },
                RunOutcome::SpawnFailed { .. } => {
                    &&& final(self).acc == old(self).acc
                    &&& final(self).done == old(self).done
                    &&& final(self).failed
                },
            },
    {
        match outcome {
            RunOutcome::Completed { status, elapsed } => {
                let mut status_line = String::from_str("Process finished. ");
                status_line.append(status.as_str());
                let mut timing_line = String::from_str("Time: ");
                let rendered = parse_time(*elapsed);
                timing_line.append(rendered.as_str());
                self.acc = self.acc.plus(elapsed);
                self.done = self.done + 1;
                let mut lines: Vec<ReportLine> = Vec::new();
                lines.push(ReportLine { kind: LineKind::Status, text: status_line });
                lines.push(ReportLine { kind: LineKind::Timing, text: timing_line });
                proof {
                    assert(line_views(lines@) =~= lines_of_outcome(*outcome));
                }
                lines
            },
            RunOutcome::WaitFailed => {
                self.done = self.done + 1;
                let lines: Vec<ReportLine> = Vec::new();
                proof {
                    assert(line_views(lines@) =~= lines_of_outcome(*outcome));
                }
                lines
            },
            RunOutcome::SpawnFailed { message } => {
                let mut error_line = String::from_str("Error: ");
                error_line.append(message.as_str());
                self.failed = true;
                let mut lines: Vec<ReportLine> = Vec::new();
                lines.push(ReportLine { kind: LineKind::Error, text: error_line });
                proof {
                    assert(line_views(lines@) =~= lines_of_outcome(*outcome));
                }
                lines
            },
        }
    }

    /// The post-loop summary: `None` after a launch failure (no partial
    /// average is reported), else the summary line whose average is the
    /// accumulated total divided by the configured repeat count.
    pub fn finish(&self) -> (r: Option<ReportLine>)
        requires
            self.wf(),
            self.failed || self.done == self.times,
        ensures
            self.failed ==> r is None,
            !self.failed ==> (r matches Some(line) && line@ == (
                LineKind::Summary,
                summary_text(self.times as nat, self.acc.total_ns()),
            )),
    {
        if self.failed {
            None
        } else {
            let avg = self.acc.div_by(self.times);
            let mut text = String::from_str("Average time for ");
            let count = u64_to_dec(self.times as u64);
            text.append(count.as_str());
            text.append(" runs: ");
            let rendered = parse_time(avg);
            text.append(rendered.as_str());
            proof {
                lemma_dur_canonical(avg);
            }
            Some(ReportLine { kind: LineKind::Summary, text })
        }
    }
}

/// Replays a full invocation over a recorded sequence of outcomes, one per
/// configured run, and returns every line the run loop reports, in order.
pub fn run_report(times: u32, outcomes: &Vec<RunOutcome>) -> (lines: Vec<ReportLine>)
    requires
        times >= 1,
        outcomes@.len() == times as nat,
        outcomes_wf(outcomes@),
        sums_fit(outcomes@),
    ensures
        line_views(lines@) == report_spec(times as nat, outcomes@),
{
    let ghost outs = outcomes@;
    let mut runner = Runner::new(times);
    let mut lines: Vec<ReportLine> = Vec::new();
    let mut i: usize = 0;
    proof {
        assert(outs.take(0) =~= Seq::<RunOutcome>::empty());
    }
    while i < outcomes.len()
        invariant
            outcomes@ == outs,
            outs.len() == times as nat,
            times >= 1,
            outcomes_wf(outs),
            sums_fit(outs),
            i <= outs.len(),
            runner.wf(),
            runner.times == times,
            runner.done == i,
            !runner.failed,
            no_spawn_failure(outs.take(i as int)),
            runner.acc.total_ns() == sum_elapsed(outs.take(i as int)),
            line_views(lines@) + report_rec(times as nat, outs, i as nat, runner.acc.total_ns())
                == report_spec(times as nat, outs),
        decreases outs.len() - i,
    {
        let outcome = &outcomes[i];
        proof {
            assert(outs.take(i + 1).drop_last() =~= outs.take(i as int));
            assert(outs.take(i + 1).last() == outs[i as int]);
            if !(outs[i as int] is SpawnFailed) {
                assert forall|j: int| 0 <= j < i + 1 implies !((#[trigger] outs.take(i + 1)[j])
                    is SpawnFailed) by {
                    if j < i {
                        assert(outs.take(i + 1)[j] == outs.take(i as int)[j]);
                    } else {
                        assert(outs.take(i + 1)[j] == outs[i as int]);
                    }
                };
                assert(sum_elapsed(outs.take(i + 1)) <= max_dur_ns());
            }
        }
        let ghost acc_before = runner.acc.total_ns();
        let ghost lines_before = lines@;
        let mut step_lines = runner.step(outcome);
        lines.append(&mut step_lines);
        proof {
            assert(line_views(lines@) =~= line_views(lines_before) + lines_of_outcome(
                outs[i as int],
            ));
        }
        if runner.failed {
            proof {
                assert(report_rec(times as nat, outs, i as nat, acc_before) == lines_of_outcome(
                    outs[i as int],
                ));
                assert(line_views(lines@) =~= report_spec(times as nat, outs));
            }
            return lines;
        }
        proof {
            assert(report_rec(times as nat, outs, i as nat, acc_before) == lines_of_outcome(
                outs[i as int],
            ) + report_rec(times as nat, outs, (i + 1) as nat, runner.acc.total_ns()));
            assert(line_views(lines@) + report_rec(
                times as nat,
                outs,
                (i + 1) as nat,
                runner.acc.total_ns(),
            ) =~= report_spec(times as nat, outs));
        }
        i = i + 1;
    }
    proof {
        assert(outs.take(outs.len() as int) =~= outs);
    }
    let summary = runner.finish();
    match summary {
        Some(line) => {
            let ghost lines_before = lines@;
            lines.push(line);
            proof {
                assert(line_views(lines@) =~= line_views(lines_before) + seq![line@]);
                assert(report_rec(times as nat, outs, outs.len(), runner.acc.total_ns()) =~= seq![
                    (
                        LineKind::Summary,
                        summary_text(times as nat, runner.acc.total_ns()),
                    ),
                ]);
            }
            lines
        },
        None => {
            proof {
                assert(false);
            }
            lines
        },
    }
}

/// A non-empty sequence's elapsed sum splits off its first outcome.
proof fn lemma_sum_elapsed_front(s: Seq<RunOutcome>)
    requires
        s.len() >= 1,
    ensures
        sum_elapsed(s) == elapsed_contrib(s[0]) + sum_elapsed(s.drop_first()),
    decreases s.len(),
{
    if s.len() == 1 {
        assert(s.drop_last() =~= Seq::<RunOutcome>::empty());
        assert(s.drop_first() =~= Seq::<RunOutcome>::empty());
    } else {
        lemma_sum_elapsed_front(s.drop_last());
        assert(s.drop_last()[0] == s[0]);
        assert(s.drop_last().drop_first() =~= s.drop_first().drop_last());
        assert(s.drop_first().last() == s.last());
    }
}

/// The elapsed sum of the tail from `i` splits off outcome `i`.
proof fn lemma_sum_elapsed_skip(outs: Seq<RunOutcome>, i: int)
    requires
        0 <= i < outs.len(),
    ensures
        sum_elapsed(outs.skip(i)) == elapsed_contrib(outs[i]) + sum_elapsed(outs.skip(i + 1)),
{
    let s = outs.skip(i);
    lemma_sum_elapsed_front(s);
    assert(s[0] == outs[i]);
    assert(s.drop_first() =~= outs.skip(i + 1));
}

/// The shape of the report from outcome `i` on when every remaining
/// outcome completed: a status/timing pair per outcome, then one summary
/// whose accumulated total is `acc` plus everything still to come.
#[verifier::rlimit(50)]
proof fn lemma_report_all_completed_from(times: nat, outs: Seq<RunOutcome>, i: nat, acc: int)
    requires
        i <= outs.len(),
        forall|j: int| i <= j < outs.len() ==> (#[trigger] outs[j]) is Completed,
    ensures
        ({
            let r = report_rec(times, outs, i, acc);
            &&& r.len() == 2 * (outs.len() - i) + 1
            &&& forall|j: int|
                i <= j < outs.len() ==> r[2 * (j - i)] == (
                    LineKind::Status,
                    status_text(status_of(#[trigger] outs[j])),
                ) && r[2 * (j - i) + 1] == (LineKind::Timing, timing_text(elapsed_of(outs[j])))
            &&& r[r.len() - 1] == (
                LineKind::Summary,
                summary_text(times, acc + sum_elapsed(outs.skip(i as int))),
            )
        }),
    decreases outs.len() - i,
{
    let r = report_rec(times, outs, i, acc);
    if i >= outs.len() {
        assert(outs.skip(i as int) =~= Seq::<RunOutcome>::empty());
    } else {
        let o = outs[i as int];
        let acc2 = acc + elapsed_of(o).total_ns();
        lemma_report_all_completed_from(times, outs, i + 1, acc2);
        lemma_sum_elapsed_skip(outs, i as int);
        let rp = report_rec(times, outs, i + 1, acc2);
        assert(r == lines_of_outcome(o) + rp);
        assert forall|j: int|
            i <= j < outs.len() implies r[2 * (j - i)] == (
            LineKind::Status,
            status_text(status_of(#[trigger] outs[j])),
        ) && r[2 * (j - i) + 1] == (LineKind::Timing, timing_text(elapsed_of(outs[j]))) by {
            if j == i {
                assert(r[0] == lines_of_outcome(o)[0]);
                assert(r[1] == lines_of_outcome(o)[1]);
            } else {
                assert(r[2 * (j - i)] == rp[2 * (j - (i + 1))]);
                assert(r[2 * (j - i) + 1] == rp[2 * (j - (i + 1)) + 1]);
            }
        };
        assert(r[r.len() - 1] == rp[rp.len() - 1]);
    }
}

/// The shape of the report from outcome `i` on when no remaining outcome is
/// a launch failure: it ends in exactly one summary line, whose accumulated
/// total counts the completed runs only.
proof fn lemma_report_no_failure_from(times: nat, outs: Seq<RunOutcome>, i: nat, acc: int)
    requires
        i <= outs.len(),
        forall|j: int| i <= j < outs.len() ==> !((#[trigger] outs[j]) is SpawnFailed),
    ensures
        ({
            let r = report_rec(times, outs, i, acc);
            &&& r.len() >= 1
            &&& r[r.len() - 1] == (
                LineKind::Summary,
                summary_text(times, acc + sum_elapsed(outs.skip(i as int))),
            )
            &&& forall|k: int| 0 <= k < r.len() - 1 ==> (#[trigger] r[k]).0 != LineKind::Summary
        }),
    decreases outs.len() - i,
{
    let r = report_rec(times, outs, i, acc);
    if i >= outs.len() {
        assert(outs.skip(i as int) =~= Seq::<RunOutcome>::empty());
    } else {
        let o = outs[i as int];
        lemma_sum_elapsed_skip(outs, i as int);
        match o {
            RunOutcome::Completed { .. } => {
                let acc2 = acc + elapsed_of(o).total_ns();
                lemma_report_no_failure_from(times, outs, i + 1, acc2);
                let rp = report_rec(times, outs, i + 1, acc2);
                assert(r == lines_of_outcome(o) + rp);
                assert(r[r.len() - 1] == rp[rp.len() - 1]);
                assert forall|k: int|
                    0 <= k < r.len() - 1 implies (#[trigger] r[k]).0 != LineKind::Summary by {
                    if k == 0 {
                        assert(r[0] == lines_of_outcome(o)[0]);
                    } else if k == 1 {
                        assert(r[1] == lines_of_outcome(o)[1]);
                    } else {
                        assert(r[k] == rp[k - 2]);
                    }
                };
            },
            RunOutcome::WaitFailed => {
                lemma_report_no_failure_from(times, outs, i + 1, acc);
            },
            RunOutcome::SpawnFailed { .. } => {
                assert(false);
            },
        }
    }
}

/// When every one of the `times` configured runs completes, the report is
/// exactly one status line and one timing line per run, in order, followed
/// by exactly one summary line whose accumulated total is the sum of the
/// elapsed durations.
pub proof fn lemma_report_all_completed(times: nat, outs: Seq<RunOutcome>)
    requires
        times >= 1,
        outs.len() == times,
        forall|j: int| 0 <= j < outs.len() ==> (#[trigger] outs[j]) is Completed,
    ensures
        ({
            let r = report_spec(times, outs);
            &&& r.len() == 2 * times + 1
            &&& forall|j: int|
                0 <= j < outs.len() ==> r[2 * j] == (
                    LineKind::Status,
                    status_text(status_of(#[trigger] outs[j])),
                ) && r[2 * j + 1] == (LineKind::Timing, timing_text(elapsed_of(outs[j])))
            &&& r[r.len() - 1] == (LineKind::Summary, summary_text(times, sum_elapsed(outs)))
        }),
{
    lemma_report_all_completed_from(times, outs, 0, 0);
    assert(outs.skip(0) =~= outs);
}

/// When the very first run fails to launch, the report is exactly one
/// error line carrying that failure's message: no status or timing lines,
/// and no summary.
pub proof fn lemma_report_first_spawn_failure(times: nat, outs: Seq<RunOutcome>)
    requires
        outs.len() >= 1,
        outs[0] is SpawnFailed,
    ensures
        report_spec(times, outs) == seq![(LineKind::Error, error_text(message_of(outs[0])))],
{
    assert(report_spec(times, outs) =~= seq![(LineKind::Error, error_text(message_of(outs[0])))]);
}

/// When no run fails to launch, the report ends in exactly one summary
/// line, and the average it carries divides the sum of the elapsed
/// durations of the *completed* runs by the configured count `times` — a
/// failed wait lowers the sum but never the divisor.
pub proof fn lemma_average_divides_by_times(times: nat, outs: Seq<RunOutcome>)
    requires
        times >= 1,
        outs.len() == times,
        no_spawn_failure(outs),
    ensures
        ({
            let r = report_spec(times, outs);
            &&& r.len() >= 1
            &&& r[r.len() - 1] == (
                LineKind::Summary,
                "Average time for "@ + dec_spec(times) + " runs: "@ + format_spec(
                    dur_from_ns(sum_elapsed(outs) / (times as int)),
                ),
            )
            &&& forall|k: int| 0 <= k < r.len() - 1 ==> (#[trigger] r[k]).0 != LineKind::Summary
        }),
{
    lemma_report_no_failure_from(times, outs, 0, 0);
    assert(outs.skip(0) =~= outs);
}

} // verus!
