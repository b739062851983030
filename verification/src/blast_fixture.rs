//! A symbol reached from production code and from tests, both living in one file: the shape
//! that decides whether a test/production split is real.
use vstd::prelude::*;

verus! {

/// The symbol a blast radius is taken of.
pub fn shared_helper(value: i32) -> (result: i32)
    requires
        value < i32::MAX,
    ensures
        result == value + 1,
{
    value + 1
}

/// Production code calling it.
pub fn production_caller(value: i32) -> (result: i32)
    requires
        value < i32::MAX,
    ensures
        result == value + 1,
{
    shared_helper(value)
}

} // verus!
