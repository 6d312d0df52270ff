//! The run of a script in its sandbox: its time limit, and what it leaves behind.

use vstd::prelude::*;
use vstd::string::*;
use crate::text;

verus! {

broadcast use vstd::string::group_string_axioms;

/// How many bytes of standard output a script may write: 4 MiB.
pub const STDOUT_LIMIT: usize = 4194304;

/// How many bytes of standard error a script may write: 1 MiB.
pub const STDERR_LIMIT: usize = 1048576;

/// How long a request waits for a human decision, in seconds.
pub const APPROVAL_TIMEOUT_SECS: u64 = 120;

/// The longest span that the clock can hold, in nanoseconds: that of `std::time::Duration`.
pub const MAX_SPAN: u128 = 18446744073709551615999999999;

/// The clock of a script's run, in nanoseconds.
///
/// It pauses while an approval is pending, so that the time a human takes to decide does
/// not count against the execution timeout.
#[derive(Debug)]
pub struct ExecutionClock {
    pub elapsed: u128,
    pub timeout: u128,
}

impl ExecutionClock {
    /// A clock that has not run yet.
    pub fn new(timeout: u128) -> (r: Self)
        ensures
            r.elapsed == 0,
            r.timeout == timeout,
    {
        ExecutionClock { elapsed: 0, timeout }
    }

    /// Advances the clock by the time since the last tick, unless an approval is pending.
    /// Tells whether the timeout is reached.
    pub fn tick(&mut self, since_last: u128, approval_pending: bool) -> (r: bool)
        requires
            !approval_pending ==> old(self).elapsed + since_last <= MAX_SPAN,
        ensures
            final(self).timeout == old(self).timeout,
            final(self).elapsed == old(self).elapsed + counted((since_last, approval_pending)),
            !approval_pending ==> final(self).elapsed == old(self).elapsed + since_last,
            approval_pending ==> final(self).elapsed == old(self).elapsed,
            r == (final(self).elapsed >= final(self).timeout),
    {
        if !approval_pending {
            self.elapsed = self.elapsed + since_last;
        }
        self.elapsed >= self.timeout
    }
}

/// How much of a tick counts: all of it, or nothing while an approval is pending.
pub open spec fn counted(tick: (u128, bool)) -> int {
    if tick.1 {
        0
    } else {
        tick.0 as int
    }
}

/// What a clock shows after `ticks`.
pub open spec fn run_time(ticks: Seq<(u128, bool)>) -> int
    decreases ticks.len(),
{
    if ticks.len() == 0 {
        0
    } else {
        run_time(ticks.drop_last()) + counted(ticks.last())
    }
}

/// Ticks during a pending approval do not count: the clock shows the same as if they
/// had not been.
pub proof fn law_approval_time_is_free(ticks: Seq<(u128, bool)>)
    ensures
        run_time(ticks) == run_time(ticks.filter(|tick: (u128, bool)| !tick.1)),
    decreases ticks.len(),
{
    reveal(Seq::filter);
    if ticks.len() > 0 {
        let front = ticks.drop_last();
        law_approval_time_is_free(front);
        let kept = front.filter(|tick: (u128, bool)| !tick.1);
        assert(kept.push(ticks.last()).drop_last() == kept);
    }
}

/// While no approval is pending, the clock shows all the time that has passed: the sum of
/// the ticks' lengths.
pub proof fn law_clock_counts_running_time(ticks: Seq<(u128, bool)>)
    requires
        forall|i: int| 0 <= i < ticks.len() ==> !(#[trigger] ticks[i]).1,
    ensures
        run_time(ticks) == ticks.map_values(|tick: (u128, bool)| tick.0 as int).fold_left(
            0int,
            |sum: int, length: int| sum + length,
        ),
    decreases ticks.len(),
{
    let length_of = |tick: (u128, bool)| tick.0 as int;
    if ticks.len() > 0 {
        let front = ticks.drop_last();
        assert forall|i: int| 0 <= i < front.len() implies !(#[trigger] front[i]).1 by {
            assert(!ticks[i].1);
        }
        law_clock_counts_running_time(front);
        assert(!ticks[ticks.len() - 1].1);
        assert(ticks.map_values(length_of).drop_last() == front.map_values(length_of));
        assert(ticks.map_values(length_of).last() == ticks.last().0 as int);
    }
}

/// Time passes on the clock as it passes: what it shows after two runs of ticks is the sum
/// of what it shows after each; one tick shows its length, or nothing while an approval is
/// pending.
pub proof fn law_clock_adds_up(a: Seq<(u128, bool)>, b: Seq<(u128, bool)>, length: u128)
    ensures
        run_time(Seq::empty()) == 0,
        run_time(seq![(length, false)]) == length,
        run_time(seq![(length, true)]) == 0,
        run_time(a + b) == run_time(a) + run_time(b),
    decreases b.len(),
{
    reveal_with_fuel(run_time, 2);
    assert(seq![(length, false)].drop_last() == Seq::<(u128, bool)>::empty());
    assert(seq![(length, true)].drop_last() == Seq::<(u128, bool)>::empty());
    if b.len() == 0 {
        assert(a + b == a);
    } else {
        law_clock_adds_up(a, b.drop_last(), length);
        assert((a + b).drop_last() == a + b.drop_last());
        assert((a + b).last() == b.last());
    }
}

/// The clock never runs backwards.
pub proof fn law_clock_is_monotonic(ticks: Seq<(u128, bool)>, more: Seq<(u128, bool)>)
    ensures
        run_time(ticks) <= run_time(ticks + more),
    decreases more.len(),
{
    if more.len() == 0 {
        assert(ticks + more == ticks);
    } else {
        law_clock_is_monotonic(ticks, more.drop_last());
        assert((ticks + more).drop_last() == ticks + more.drop_last());
        assert((ticks + more).last() == more.last());
    }
}

/// Result of a JS execution.
#[derive(Debug)]
pub struct JsResult {
    pub stdout: String,
    pub stderr: String,
    pub success: bool,
}

/// The model of a [`JsResult`].
#[verifier::ext_equal]
pub struct JsResultModel {
    pub stdout: Seq<char>,
    pub stderr: Seq<char>,
    pub success: bool,
}

impl View for JsResult {
    type V = JsResultModel;

    open spec fn view(&self) -> JsResultModel {
        JsResultModel { stdout: self.stdout@, stderr: self.stderr@, success: self.success }
    }
}

impl DeepView for JsResult {
    type V = JsResultModel;

    open spec fn deep_view(&self) -> JsResultModel {
        self.view()
    }
}

impl Clone for JsResult {
    fn clone(&self) -> (r: Self)
        ensures
            r@ == self@,
    {
        JsResult {
            stdout: self.stdout.clone(),
            stderr: self.stderr.clone(),
            success: self.success,
        }
    }
}

/// How the sandboxed program ended.
#[derive(Debug)]
pub enum RunOutcome {
    /// It returned.
    Finished,
    /// It returned with an error code.
    ExitedWithError,
    /// It was stopped, with this error.
    Trapped(String),
}

/// The result of a run that ended with `outcome` after writing `stdout` and `stderr`.
/// `timeout` is the time limit as shown to people.
pub open spec fn run_result(
    outcome: RunOutcome,
    stdout: Seq<char>,
    stderr: Seq<char>,
    timeout: Seq<char>,
) -> JsResultModel {
    match outcome {
        RunOutcome::Finished => JsResultModel { stdout, stderr, success: stderr.len() == 0 },
        RunOutcome::ExitedWithError => JsResultModel { stdout, stderr, success: false },
        RunOutcome::Trapped(error) => JsResultModel {
            stdout,
            stderr: if text::occurs_in("epoch"@, error@) {
                stderr + "\nExecution timed out after "@ + timeout
            } else if stderr.len() == 0 {
                error@
            } else {
                stderr
            },
            success: false,
        },
    }
}

/// Makes the result of a run out of its outcome and its output.
pub fn js_result(outcome: RunOutcome, stdout: String, stderr: String, timeout: &str) -> (r: JsResult)
    ensures
        r@ == run_result(outcome, stdout@, stderr@, timeout@),
{
    match outcome {
        RunOutcome::Finished => {
            let success = stderr.as_str().is_empty();
            JsResult { stdout, stderr, success }
        },
        RunOutcome::ExitedWithError => JsResult { stdout, stderr, success: false },
        RunOutcome::Trapped(error) => {
            if text::contains(error.as_str(), "epoch") {
                let mut shown = stderr;
                shown.append("\nExecution timed out after ");
                shown.append(timeout);
                JsResult { stdout, stderr: shown, success: false }
            } else {
                let shown = if stderr.as_str().is_empty() {
                    error
                } else {
                    stderr
                };
                JsResult { stdout, stderr: shown, success: false }
            }
        },
    }
}

/// Makes the result of a run out of its outcome, the bytes it wrote, and its time limit of
/// `secs` seconds and `nanos` nanoseconds.
pub fn execution_result(
    outcome: RunOutcome,
    stdout: &[u8],
    stderr: &[u8],
    secs: u64,
    nanos: u32,
) -> (r: JsResult)
    requires
        nanos < 1_000_000_000,
    ensures
        r@ == run_result(
            outcome,
            text::utf8_lossy(stdout@),
            text::utf8_lossy(stderr@),
            text::duration_debug(secs, nanos),
        ),
{
    let timeout = text::duration_text(secs, nanos);
    js_result(outcome, text::lossy_text(stdout), text::lossy_text(stderr), timeout.as_str())
}

/// A run succeeds exactly when the program returned without an error and wrote nothing to
/// standard error.
pub proof fn law_success_means_clean_run(
    outcome: RunOutcome,
    stdout: Seq<char>,
    stderr: Seq<char>,
    timeout: Seq<char>,
)
    ensures
        run_result(outcome, stdout, stderr, timeout).success <==> outcome is Finished
            && stderr.len() == 0,
        run_result(outcome, stdout, stderr, timeout).stdout == stdout,
{
}

/// What a run left on standard error is shown in full. A run that was stopped at its time
/// limit is told so after it, with the limit; one that was stopped otherwise shows the
/// error where there is nothing on standard error.
pub proof fn law_run_shows_what_went_wrong(
    outcome: RunOutcome,
    stdout: Seq<char>,
    stderr: Seq<char>,
    timeout: Seq<char>,
)
    ensures
        ({
            let shown = run_result(outcome, stdout, stderr, timeout).stderr;
            &&& !(outcome is Trapped) ==> shown == stderr
            &&& outcome matches RunOutcome::Trapped(error) ==> {
                &&& (exists|i: int|
                    0 <= i && i + 5 <= error@.len() && #[trigger] error@.subrange(i, i + 5)
                        == seq!['e', 'p', 'o', 'c', 'h']) ==> shown == stderr
                    + "\nExecution timed out after "@ + timeout
                &&& !(exists|i: int|
                    0 <= i && i + 5 <= error@.len() && #[trigger] error@.subrange(i, i + 5)
                        == seq!['e', 'p', 'o', 'c', 'h']) ==> {
                    &&& stderr.len() > 0 ==> shown == stderr
                    &&& stderr.len() == 0 ==> shown == error@
                }
            }
        }),
{
    reveal_strlit("epoch");
    assert("epoch"@ == seq!['e', 'p', 'o', 'c', 'h']);
}

/// The results of two runs are the same only where their outputs are.
pub proof fn law_result_model_leaves_nothing_out(a: JsResult, b: JsResult)
    ensures
        a.deep_view() == b.deep_view() <==> a.stdout@ == b.stdout@ && a.stderr@ == b.stderr@
            && a.success == b.success,
{
}

/// A script may write four mebibytes of output and one of errors; a request waits two
/// minutes for a decision; and the clock holds as much as seconds in 64 bits and the
/// nanoseconds of one more.
pub proof fn law_limits()
    ensures
        STDOUT_LIMIT == 4 * STDERR_LIMIT,
        STDERR_LIMIT == 1024 * 1024,
        APPROVAL_TIMEOUT_SECS == 2 * 60,
        MAX_SPAN + 1 == (u64::MAX + 1) * 1_000_000_000,
{
}

} // verus!
