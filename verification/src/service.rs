//! The decision core of the process supervisor.
//!
//! The supervisor spawns the driver process and reads its output; the
//! decisions it takes — when the driver counts as ready, when its exit is
//! fatal, and in what order its background tasks are torn down — live
//! here, as a state machine over the observed events.  Readiness is a
//! one-shot transition: once a line holding the readiness pattern has been
//! observed, no later line reverts it.
use vstd::prelude::*;

verus! {

/// Whether `pat` stands in `s` starting at `i`.
pub open spec fn contains_at(s: Seq<char>, pat: Seq<char>, i: int) -> bool {
    0 <= i && i + pat.len() <= s.len() && s.subrange(i, i + pat.len() as int) == pat
}

/// Whether `pat` stands anywhere in `s`.
pub open spec fn spec_contains(s: Seq<char>, pat: Seq<char>) -> bool {
    exists|i: int| contains_at(s, pat, i)
}

/// Whether `pat` stands anywhere in `s`.
pub fn contains_pattern(s: &str, pat: &str) -> (r: bool)
    ensures
        r == spec_contains(s@, pat@),
{
    let n = s.unicode_len();
    let m = pat.unicode_len();
    if m == 0 {
        proof {
            assert(s@.subrange(0, 0) =~= pat@);
            assert(contains_at(s@, pat@, 0));
        }
        return true;
    }
    if m > n {
        proof {
            assert forall|i: int| !contains_at(s@, pat@, i) by {}
        }
        return false;
    }
    let mut i: usize = 0;
    while i <= n - m
        invariant
            n == s@.len(),
            m == pat@.len(),
            0 < m <= n,
            i <= n - m + 1,
            forall|k: int| 0 <= k < i ==> !contains_at(s@, pat@, k),
        decreases n - m + 1 - i,
    {
        let mut j: usize = 0;
        let mut matches = true;
        while j < m
            invariant
                n == s@.len(),
                m == pat@.len(),
                i + m <= n,
                j <= m,
                matches ==> forall|k: int| 0 <= k < j ==> s@[i + k] == pat@[k],
                !matches ==> !contains_at(s@, pat@, i as int),
            decreases m - j,
        {
            if s.get_char(i + j) != pat.get_char(j) {
                proof {
                    assert(s@.subrange(i as int, i + m as int)[j as int] == s@[i + j]);
                }
                matches = false;
            }
            j = j + 1;
        }
        if matches {
            proof {
                assert(s@.subrange(i as int, i + m as int) =~= pat@);
                assert(contains_at(s@, pat@, i as int));
            }
            return true;
        }
        i = i + 1;
    }
    proof {
        assert forall|k: int| !contains_at(s@, pat@, k) by {
            if 0 <= k <= n - m {
                assert(!contains_at(s@, pat@, k));
            }
        }
    }
    false
}

/// The fixed substring of the driver's startup output that signals it is
/// accepting connections.
pub fn readiness_pattern() -> (r: &'static str)
    ensures
        r@ == "Listening on"@,
{
    "Listening on"
}

/// Whether one output line signals readiness.
pub fn line_signals_ready(line: &str) -> (r: bool)
    ensures
        r == spec_contains(line@, "Listening on"@),
{
    contains_pattern(line, readiness_pattern())
}

/// The three background tasks a started supervisor owns.
#[derive(PartialEq, Eq, Structural)]
pub enum SupervisorTask {
    /// Reads the driver's standard output line by line.
    StdoutReader,
    /// Reads the driver's standard error line by line.
    StderrReader,
    /// Awaits the driver process's exit.
    ExitWaiter,
}

/// The order in which a supervisor tears its background tasks down: the
/// output reader, then the error reader, then the exit waiter — each
/// cancelled explicitly, before the process handle is released.
pub fn teardown_plan() -> (r: Vec<SupervisorTask>)
    ensures
        r@ =~= seq![
            SupervisorTask::StdoutReader,
            SupervisorTask::StderrReader,
            SupervisorTask::ExitWaiter,
        ],
{
    let mut v: Vec<SupervisorTask> = Vec::new();
    v.push(SupervisorTask::StdoutReader);
    v.push(SupervisorTask::StderrReader);
    v.push(SupervisorTask::ExitWaiter);
    v
}

/// The supervisor's decision state: whether readiness has been observed,
/// and whether the process has failed.
pub struct SupervisorState {
    ready: bool,
    failed: bool,
}

impl SupervisorState {
    /// Whether the readiness line has been observed at least once.
    pub closed spec fn is_ready(&self) -> bool {
        self.ready
    }

    /// Whether the process has exited fatally.
    pub closed spec fn has_failed(&self) -> bool {
        self.failed
    }

    /// A supervisor that has observed nothing: not ready, not failed.
    pub fn new() -> (r: SupervisorState)
        ensures
            !r.is_ready(),
            !r.has_failed(),
    {
        SupervisorState { ready: false, failed: false }
    }

    /// Observes one output line: the state becomes ready exactly when it
    /// already was, or the line holds the readiness pattern — so readiness
    /// never reverts, and a non-matching line never sets it.
    pub fn observe_line(&mut self, line: &str)
        ensures
            final(self).is_ready() == (old(self).is_ready() || spec_contains(
                line@,
                "Listening on"@,
            )),
            final(self).has_failed() == old(self).has_failed(),
    {
        if line_signals_ready(line) {
            self.ready = true;
        }
    }

    /// Observes the process exit: a non-zero code is fatal, a zero code
    /// changes nothing.
    pub fn observe_exit(&mut self, code: i32)
        ensures
            final(self).has_failed() == (old(self).has_failed() || code != 0),
            final(self).is_ready() == old(self).is_ready(),
    {
        if code != 0 {
            self.failed = true;
        }
    }

    /// Whether a command may be issued: readiness has been observed.
    pub fn ready(&self) -> (r: bool)
        ensures
            r == self.is_ready(),
    {
        self.ready
    }

    /// Whether the process has exited fatally.
    pub fn failed(&self) -> (r: bool)
        ensures
            r == self.has_failed(),
    {
        self.failed
    }
}

/// Whether a supervisor that started in readiness state `init` is ready
/// after observing `lines`, in order.
pub open spec fn ready_after(init: bool, lines: Seq<Seq<char>>) -> bool
    decreases lines.len(),
{
    if lines.len() == 0 {
        init
    } else {
        ready_after(init || spec_contains(lines[0], "Listening on"@), lines.drop_first())
    }
}

/// LAW: readiness is monotone — a supervisor that is ready stays ready,
/// whatever lines it observes afterwards.
pub proof fn lemma_ready_is_one_shot(lines: Seq<Seq<char>>)
    ensures
        ready_after(true, lines),
    decreases lines.len(),
{
    if lines.len() > 0 {
        lemma_ready_is_one_shot(lines.drop_first());
    }
}

/// LAW: a supervisor that observed `lines` from the start is ready exactly
/// when some observed line holds the readiness pattern.  With exactly one
/// matching line, the not-ready to ready transition happens exactly once,
/// and with none — as in a driver that never becomes reachable — the state
/// never leaves not-ready, so waiting on it never returns.
pub proof fn lemma_ready_iff_line_matched(lines: Seq<Seq<char>>)
    ensures
        ready_after(false, lines) <==> exists|i: int|
            0 <= i < lines.len() && spec_contains(#[trigger] lines[i], "Listening on"@),
    decreases lines.len(),
{
    if lines.len() > 0 {
        lemma_ready_iff_line_matched(lines.drop_first());
        if spec_contains(lines[0], "Listening on"@) {
            lemma_ready_is_one_shot(lines.drop_first());
            assert(ready_after(false, lines));
        } else {
            assert forall|i: int|
                0 <= i < lines.len() && spec_contains(
                    #[trigger] lines[i],
                    "Listening on"@,
                ) implies ready_after(false, lines) by {
                assert(lines.drop_first()[i - 1] == lines[i]);
            }
            if ready_after(false, lines) {
                let i = choose|i: int|
                    0 <= i < lines.drop_first().len() && spec_contains(
                        #[trigger] lines.drop_first()[i],
                        "Listening on"@,
                    );
                assert(lines[i + 1] == lines.drop_first()[i]);
            }
        }
    }
}

} // verus!
