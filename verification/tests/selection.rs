use wasm_test_harness::catalog::normalize_exports;
use wasm_test_harness::names::strip_test_prefix;
use wasm_test_harness::order::{bytes_eq, bytes_lt};
use wasm_test_harness::select::plan_tests;

#[test]
fn prefixed_export_is_selected_and_stripped() {
    let exports: Vec<Vec<u8>> = vec![b"test-addition-works".to_vec(), b"helper-func".to_vec()];
    let plan = plan_tests(&exports);
    assert_eq!(plan.len(), 1);
    assert_eq!(plan[0].raw, b"test-addition-works".to_vec());
    assert_eq!(plan[0].name, b"addition-works".to_vec());
}

#[test]
fn unprefixed_exports_are_never_selected() {
    let exports: Vec<Vec<u8>> = vec![
        b"helper-func".to_vec(),
        b"tes".to_vec(),
        b"tester".to_vec(),
        b"Test-upper".to_vec(),
        b"".to_vec(),
    ];
    let plan = plan_tests(&exports);
    assert_eq!(plan.len(), 0);
}

#[test]
fn exports_are_planned_in_lexicographic_order() {
    let exports: Vec<Vec<u8>> =
        vec![b"test-c".to_vec(), b"test-a".to_vec(), b"test-b".to_vec()];
    let plan = plan_tests(&exports);
    assert_eq!(plan.len(), 3);
    assert_eq!(plan[0].name, b"a".to_vec());
    assert_eq!(plan[1].name, b"b".to_vec());
    assert_eq!(plan[2].name, b"c".to_vec());
}

#[test]
fn planning_is_idempotent() {
    let exports: Vec<Vec<u8>> = vec![
        b"test-zeta".to_vec(),
        b"other".to_vec(),
        b"test-alpha".to_vec(),
        b"test-zeta".to_vec(),
    ];
    let first = plan_tests(&exports);
    let second = plan_tests(&exports);
    assert_eq!(first.len(), second.len());
    for (a, b) in first.iter().zip(second.iter()) {
        assert_eq!(a.raw, b.raw);
        assert_eq!(a.name, b.name);
    }
    assert_eq!(first.len(), 2);
    assert_eq!(first[0].name, b"alpha".to_vec());
    assert_eq!(first[1].name, b"zeta".to_vec());
}

#[test]
fn normalize_sorts_and_deduplicates() {
    let names: Vec<Vec<u8>> = vec![
        b"pear".to_vec(),
        b"apple".to_vec(),
        b"pear".to_vec(),
        b"fig".to_vec(),
    ];
    let sorted = normalize_exports(&names);
    assert_eq!(
        sorted,
        vec![b"apple".to_vec(), b"fig".to_vec(), b"pear".to_vec()]
    );
}

#[test]
fn normalize_ignores_declaration_order() {
    let one: Vec<Vec<u8>> = vec![b"b".to_vec(), b"a".to_vec(), b"c".to_vec()];
    let two: Vec<Vec<u8>> = vec![b"c".to_vec(), b"b".to_vec(), b"a".to_vec(), b"b".to_vec()];
    assert_eq!(normalize_exports(&one), normalize_exports(&two));
}

#[test]
fn empty_export_listing_plans_nothing() {
    let exports: Vec<Vec<u8>> = Vec::new();
    assert_eq!(plan_tests(&exports).len(), 0);
    assert_eq!(normalize_exports(&exports), Vec::<Vec<u8>>::new());
}

#[test]
fn strip_test_prefix_splits_raw_names() {
    assert_eq!(
        strip_test_prefix(&b"test-addition-works".to_vec()),
        Some(b"addition-works".to_vec())
    );
    assert_eq!(strip_test_prefix(&b"test-".to_vec()), Some(b"".to_vec()));
    assert_eq!(strip_test_prefix(&b"helper".to_vec()), None);
    assert_eq!(strip_test_prefix(&b"tes".to_vec()), None);
}

#[test]
fn byte_order_is_lexicographic() {
    assert!(bytes_lt(&b"a".to_vec(), &b"b".to_vec()));
    assert!(bytes_lt(&b"a".to_vec(), &b"ab".to_vec()));
    assert!(!bytes_lt(&b"ab".to_vec(), &b"a".to_vec()));
    assert!(!bytes_lt(&b"a".to_vec(), &b"a".to_vec()));
    assert!(bytes_lt(&b"".to_vec(), &b"a".to_vec()));
    assert!(bytes_eq(&b"same".to_vec(), &b"same".to_vec()));
    assert!(!bytes_eq(&b"same".to_vec(), &b"sam".to_vec()));
}
