//! Text-mode display driver, serial diagnostics model, and test-harness
//! logic for a freestanding kernel.
//!
//! The crate verifies the pure core: the printer state machine that renders
//! bytes into a fixed 25x80 cell grid, the color attribute encoding, and the
//! harness transcript (which markers are emitted and which exit code is
//! signalled for a given suite of tests). The hardware edges - the
//! memory-mapped video buffer, the UART port, and the debug-exit port - live
//! with the surrounding unverified binary.

use vstd::prelude::*;

pub mod vga_interface;

verus! {

/// Exit status written to the hardware debug-exit port when the test suite
/// finishes: `Success` when every test returned, `Failed` when one faulted.
#[derive(Clone, Copy, PartialEq, Eq, Structural, Debug)]
pub enum QemuExitCode {
    Success,
    Failed,
}

impl QemuExitCode {
    /// The fixed four-byte value the debug-exit port expects for this status.
    pub open spec fn spec_value(self) -> u32 {
        match self {
            QemuExitCode::Success => 0x10,
            QemuExitCode::Failed => 0x11,
        }
    }

    /// Executable form of `spec_value`.
    pub fn value(self) -> (r: u32)
        ensures
            r == self.spec_value(),
    {
        match self {
            QemuExitCode::Success => 0x10,
            QemuExitCode::Failed => 0x11,
        }
    }
}

/// A zero-argument test entry. The surrounding binary implements this for
/// its registered test functions; a faulting test never returns from `run`.
pub trait Testable {
    fn run(&self);
}

/// How one test entry ends: it returns normally, or it faults (and then
/// control never comes back to the harness loop).
#[derive(Clone, Copy, PartialEq, Eq, Structural, Debug)]
pub enum TestOutcome {
    Returned,
    Faulted,
}

/// One marker the harness emits over the serial channel, in order. The
/// surrounding binary formats each as text; the verified logic fixes which
/// markers appear and in which order.
#[derive(Clone, Copy, PartialEq, Eq, Structural, Debug)]
pub enum HarnessEvent {
    SuiteStart { count: usize },
    Running { index: usize },
    TestOk,
    FailureBanner,
}

/// The markers emitted from test `i` on: a running marker per test reached,
/// an ok marker after each test that returns, and a failure banner - ending
/// the suite - at the first test that faults.
pub open spec fn run_events_from(outs: Seq<TestOutcome>, i: int) -> Seq<HarnessEvent>
    decreases outs.len() - i,
{
    if i < 0 || i >= outs.len() {
        Seq::empty()
    } else if outs[i] == TestOutcome::Returned {
        seq![HarnessEvent::Running { index: i as usize }, HarnessEvent::TestOk]
            + run_events_from(outs, i + 1)
    } else {
        seq![HarnessEvent::Running { index: i as usize }, HarnessEvent::FailureBanner]
    }
}

/// The full transcript of a suite: the start banner, then the per-test
/// markers.
pub open spec fn harness_events(outs: Seq<TestOutcome>) -> Seq<HarnessEvent> {
    seq![HarnessEvent::SuiteStart { count: outs.len() as usize }] + run_events_from(outs, 0)
}

/// Whether some test of the suite faults.
pub open spec fn suite_faults(outs: Seq<TestOutcome>) -> bool {
    exists|i: int| 0 <= i < outs.len() && outs[i] == TestOutcome::Faulted
}

/// The exit code the harness signals: `Failed` exactly when a test faults.
pub open spec fn harness_exit(outs: Seq<TestOutcome>) -> QemuExitCode {
    if suite_faults(outs) {
        QemuExitCode::Failed
    } else {
        QemuExitCode::Success
    }
}

/// The running/ok marker pairs of the first `i` tests, all of which
/// returned.
pub open spec fn passed_pairs(i: int) -> Seq<HarnessEvent>
    decreases i,
{
    if i <= 0 {
        Seq::empty()
    } else {
        passed_pairs(i - 1) + seq![
            HarnessEvent::Running { index: (i - 1) as usize },
            HarnessEvent::TestOk,
        ]
    }
}

/// When the first `i` tests all returned, the transcript splits into their
/// marker pairs followed by the markers of the rest.
pub proof fn lemma_run_events_split(outs: Seq<TestOutcome>, i: int)
    requires
        0 <= i <= outs.len(),
        forall|j: int| 0 <= j < i ==> #[trigger] outs[j] == TestOutcome::Returned,
    ensures
        run_events_from(outs, 0) == passed_pairs(i) + run_events_from(outs, i),
    decreases i,
{
    if i == 0 {
        assert(passed_pairs(0) + run_events_from(outs, 0) =~= run_events_from(outs, 0));
    } else {
        lemma_run_events_split(outs, i - 1);
        assert(run_events_from(outs, i - 1) == seq![
            HarnessEvent::Running { index: (i - 1) as usize },
            HarnessEvent::TestOk,
        ] + run_events_from(outs, i));
        assert(passed_pairs(i - 1) + (seq![
            HarnessEvent::Running { index: (i - 1) as usize },
            HarnessEvent::TestOk,
        ] + run_events_from(outs, i)) =~= passed_pairs(i) + run_events_from(outs, i));
    }
}

/// Run every registered test in order. Each test gets a running marker
/// before it is invoked and an ok marker when it returns; a faulting test
/// never returns here, so a normal return means the whole suite passed and
/// the success code is to be signalled. The returned transcript is exactly
/// that of a suite in which every test returned.
pub fn test_runner<T: Testable>(tests: &Vec<T>) -> (r: (Vec<HarnessEvent>, QemuExitCode))
    ensures
        r.0@ == harness_events(Seq::new(tests@.len(), |i: int| TestOutcome::Returned)),
        r.1 == QemuExitCode::Success,
{
    let n = tests.len();
    let mut events: Vec<HarnessEvent> = Vec::new();
    events.push(HarnessEvent::SuiteStart { count: n });
    proof {
        assert(events@ =~= seq![HarnessEvent::SuiteStart { count: n }] + passed_pairs(0));
    }
    let mut i: usize = 0;
    while i < n
        invariant
            n == tests@.len(),
            i <= n,
            events@ == seq![HarnessEvent::SuiteStart { count: n }] + passed_pairs(i as int),
        decreases n - i,
    {
        events.push(HarnessEvent::Running { index: i });
        tests[i].run();
        events.push(HarnessEvent::TestOk);
        i += 1;
        proof {
            assert(events@ =~= seq![HarnessEvent::SuiteStart { count: n }] + passed_pairs(
                i as int,
            ));
        }
    }
    proof {
        let all = Seq::new(n as nat, |j: int| TestOutcome::Returned);
        lemma_run_events_split(all, n as int);
        assert(run_events_from(all, n as int) =~= Seq::<HarnessEvent>::empty());
        assert(events@ =~= harness_events(all));
    }
    (events, QemuExitCode::Success)
}

/// The harness decision function over a whole suite: given how each test
/// would end, the markers that are emitted and the exit code that is
/// signalled. Tests past the first faulting one are never reached; the
/// failure banner ends the suite.
pub fn suite_transcript(outcomes: &Vec<TestOutcome>) -> (r: (Vec<HarnessEvent>, QemuExitCode))
    ensures
        r.0@ == harness_events(outcomes@),
        r.1 == harness_exit(outcomes@),
{
    let n = outcomes.len();
    let mut events: Vec<HarnessEvent> = Vec::new();
    events.push(HarnessEvent::SuiteStart { count: n });
    proof {
        assert(events@ =~= seq![HarnessEvent::SuiteStart { count: n }] + passed_pairs(0));
    }
    let mut i: usize = 0;
    while i < n
        invariant
            n == outcomes@.len(),
            i <= n,
            forall|j: int| 0 <= j < i ==> #[trigger] outcomes@[j] == TestOutcome::Returned,
            events@ == seq![HarnessEvent::SuiteStart { count: n }] + passed_pairs(i as int),
        decreases n - i,
    {
        events.push(HarnessEvent::Running { index: i });
        match outcomes[i] {
            TestOutcome::Returned => {
                events.push(HarnessEvent::TestOk);
            },
            TestOutcome::Faulted => {
                events.push(HarnessEvent::FailureBanner);
                proof {
                    lemma_run_events_split(outcomes@, i as int);
                    assert(run_events_from(outcomes@, i as int) == seq![
                        HarnessEvent::Running { index: i },
                        HarnessEvent::FailureBanner,
                    ]);
                    assert(events@ =~= harness_events(outcomes@));
                    assert(suite_faults(outcomes@));
                }
                return (events, QemuExitCode::Failed);
            },
        }
        i += 1;
        proof {
            assert(events@ =~= seq![HarnessEvent::SuiteStart { count: n }] + passed_pairs(
                i as int,
            ));
        }
    }
    proof {
        lemma_run_events_split(outcomes@, n as int);
        assert(run_events_from(outcomes@, n as int) =~= Seq::<HarnessEvent>::empty());
        assert(events@ =~= harness_events(outcomes@));
        assert(!suite_faults(outcomes@));
    }
    (events, QemuExitCode::Success)
}

} // verus!
