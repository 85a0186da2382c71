use wasm_test_harness::executor::Executor;
use wasm_test_harness::outcome::{classify_outcome, TestOutcome};
use wasm_test_harness::report::{failed_line, passed_line, render_line, Stream};
use wasm_test_harness::select::plan_tests;

#[test]
fn clean_return_passes() {
    let outcome = classify_outcome(Ok(()));
    assert!(matches!(outcome, TestOutcome::Passed));
}

#[test]
fn signaled_failure_carries_its_diagnostic() {
    let outcome = classify_outcome(Err(b"wasm trap: integer divide by zero".to_vec()));
    match outcome {
        TestOutcome::Failed(reason) => {
            assert_eq!(reason, b"wasm trap: integer divide by zero".to_vec());
        }
        TestOutcome::Passed => panic!("a signaled failure must not pass"),
    }
}

#[test]
fn success_line_format() {
    let line = passed_line(&b"addition-works".to_vec());
    assert_eq!(line, b"addition-works ... OK!".to_vec());
}

#[test]
fn failure_line_format() {
    let line = failed_line(&b"division".to_vec(), &b"divide by zero".to_vec());
    assert_eq!(line, b"error: division test failed: divide by zero".to_vec());
}

#[test]
fn lines_go_to_distinguished_streams() {
    let name = b"case".to_vec();
    let ok = render_line(&name, &TestOutcome::Passed);
    assert_eq!(ok.1, Stream::Stdout);
    let bad = render_line(&name, &TestOutcome::Failed(b"boom".to_vec()));
    assert_eq!(bad.1, Stream::Stderr);
}

#[test]
fn failed_case_does_not_abort_the_run() {
    let exports: Vec<Vec<u8>> = vec![
        b"test-divide".to_vec(),
        b"test-add".to_vec(),
        b"helper".to_vec(),
    ];
    let plan = plan_tests(&exports);
    let mut exec = Executor::new(plan);

    let first = exec.current_test().expect("a first case is planned");
    assert_eq!(first, b"test-add".to_vec());
    let (line, stream) = exec.record(Ok(()));
    assert_eq!(line, b"add ... OK!".to_vec());
    assert_eq!(stream, Stream::Stdout);

    let second = exec.current_test().expect("a second case is planned");
    assert_eq!(second, b"test-divide".to_vec());
    let (line, stream) = exec.record(Err(b"trap".to_vec()));
    assert_eq!(line, b"error: divide test failed: trap".to_vec());
    assert_eq!(stream, Stream::Stderr);

    assert_eq!(exec.current_test(), None);
}

#[test]
fn run_with_no_matching_exports_reports_nothing() {
    let exports: Vec<Vec<u8>> = vec![b"helper-a".to_vec(), b"helper-b".to_vec()];
    let plan = plan_tests(&exports);
    let exec = Executor::new(plan);
    assert_eq!(exec.current_test(), None);
}
