use std::cell::Cell;

use rust_kernel::{
    suite_transcript, test_runner, HarnessEvent, QemuExitCode, Testable, TestOutcome,
};

struct CountingTest<'a> {
    hits: &'a Cell<usize>,
}

impl<'a> Testable for CountingTest<'a> {
    fn run(&self) {
        self.hits.set(self.hits.get() + 1);
    }
}

#[test]
fn trivial_assertion() {
    assert_eq!(1, 1);
}

#[test]
fn exit_code_values() {
    assert_eq!(QemuExitCode::Success.value(), 0x10);
    assert_eq!(QemuExitCode::Failed.value(), 0x11);
}

#[test]
fn runner_invokes_each_test_once_in_order() {
    let a = Cell::new(0);
    let b = Cell::new(0);
    let tests = vec![CountingTest { hits: &a }, CountingTest { hits: &b }];
    let (events, code) = test_runner(&tests);
    assert_eq!(a.get(), 1);
    assert_eq!(b.get(), 1);
    assert_eq!(code, QemuExitCode::Success);
    assert_eq!(
        events,
        vec![
            HarnessEvent::SuiteStart { count: 2 },
            HarnessEvent::Running { index: 0 },
            HarnessEvent::TestOk,
            HarnessEvent::Running { index: 1 },
            HarnessEvent::TestOk,
        ]
    );
}

#[test]
fn runner_of_empty_suite_succeeds() {
    let tests: Vec<CountingTest> = Vec::new();
    let (events, code) = test_runner(&tests);
    assert_eq!(code, QemuExitCode::Success);
    assert_eq!(events, vec![HarnessEvent::SuiteStart { count: 0 }]);
}

#[test]
fn fault_in_second_of_three_stops_the_suite() {
    let outcomes = vec![TestOutcome::Returned, TestOutcome::Faulted, TestOutcome::Returned];
    let (events, code) = suite_transcript(&outcomes);
    assert_eq!(code, QemuExitCode::Failed);
    assert_eq!(
        events,
        vec![
            HarnessEvent::SuiteStart { count: 3 },
            HarnessEvent::Running { index: 0 },
            HarnessEvent::TestOk,
            HarnessEvent::Running { index: 1 },
            HarnessEvent::FailureBanner,
        ]
    );
    let running = events
        .iter()
        .filter(|e| matches!(e, HarnessEvent::Running { .. }))
        .count();
    let ok = events.iter().filter(|e| matches!(e, HarnessEvent::TestOk)).count();
    let banners = events
        .iter()
        .filter(|e| matches!(e, HarnessEvent::FailureBanner))
        .count();
    assert_eq!(running, 2);
    assert_eq!(ok, 1);
    assert_eq!(banners, 1);
    assert!(!events.contains(&HarnessEvent::Running { index: 2 }));
}

#[test]
fn all_returning_suite_exits_success() {
    let outcomes = vec![TestOutcome::Returned, TestOutcome::Returned, TestOutcome::Returned];
    let (events, code) = suite_transcript(&outcomes);
    assert_eq!(code, QemuExitCode::Success);
    assert_eq!(
        events,
        vec![
            HarnessEvent::SuiteStart { count: 3 },
            HarnessEvent::Running { index: 0 },
            HarnessEvent::TestOk,
            HarnessEvent::Running { index: 1 },
            HarnessEvent::TestOk,
            HarnessEvent::Running { index: 2 },
            HarnessEvent::TestOk,
        ]
    );
}

#[test]
fn fault_in_first_test_emits_no_ok_marker() {
    let outcomes = vec![TestOutcome::Faulted, TestOutcome::Returned];
    let (events, code) = suite_transcript(&outcomes);
    assert_eq!(code, QemuExitCode::Failed);
    assert_eq!(
        events,
        vec![
            HarnessEvent::SuiteStart { count: 2 },
            HarnessEvent::Running { index: 0 },
            HarnessEvent::FailureBanner,
        ]
    );
}
