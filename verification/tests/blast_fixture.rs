use rust_analyzer_mcp::blast_fixture::{production_caller, shared_helper};

/// Test code that is not itself a `#[test]`.
fn a_test_helper(value: i32) -> i32 {
    shared_helper(value)
}

#[test]
fn the_helper_adds_one() {
    assert_eq!(shared_helper(1), 2);
    assert_eq!(a_test_helper(1), 2);
}

#[test]
fn the_production_caller_adds_one_too() {
    assert_eq!(production_caller(41), 42);
    assert_eq!(production_caller(-1), 0);
}
