//! Outcome and error taxonomy.
//!
//! Errors come in two tiers. A fatal, run-level error (the input could not
//! be obtained, or the module and adapter could not be encoded) aborts the
//! whole run before any test executes. A test-level failure is local to one
//! test case: it is recorded as a `Failed` outcome and the run proceeds to
//! the next case.

use vstd::prelude::*;

verus! {

/// The outcome of one test case's invocation.
#[derive(Debug)]
pub enum TestOutcome {
    /// The exported function returned cleanly.
    Passed,
    /// The invocation trapped or signaled a failure; the bytes carry the
    /// underlying diagnostic message.
    Failed(Vec<u8>),
}

/// A run-level fatal error from loading: without a component there is
/// nothing to test, so these abort the run.
#[derive(Debug)]
pub enum LoadError {
    /// The input could not be obtained.
    Unreadable,
    /// The module or adapter was malformed, or their ABIs mismatched; the
    /// bytes carry the encoder's diagnostic.
    EncodingFailed(Vec<u8>),
}

/// Classifies the result of one invocation: a clean return passes; any
/// trap, capability error or signaled failure carries its diagnostic into a
/// `Failed` outcome.
pub fn classify_outcome(result: Result<(), Vec<u8>>) -> (o: TestOutcome)
    ensures
        result is Ok ==> o is Passed,
        result matches Err(e) ==> (o matches TestOutcome::Failed(d) && d@ == e@),
{
    match result {
        Ok(()) => TestOutcome::Passed,
        Err(e) => TestOutcome::Failed(e),
    }
}

} // verus!
