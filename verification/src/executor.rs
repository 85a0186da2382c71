//! The test executor's sequencing.
//!
//! Execution is strictly sequential: one test case completes before the
//! next begins, and a failure never aborts the run. The executor hands out
//! one raw export name at a time; the embedding layer creates a fresh
//! instantiation for that name alone, invokes the export, and hands the
//! result back. Instantiations are never reused across cases, so one case's
//! mutable state is not visible to another. Each handed-back result is
//! classified and rendered immediately, so an interrupted run keeps the
//! lines of the cases that finished.

use vstd::prelude::*;
use crate::catalog::copy_bytes;
use crate::outcome::classify_outcome;
use crate::report::{Stream, render_line, passed_line_of, failed_line_of};
use crate::select::TestCase;

verus! {

/// Walks a run's plan one test case at a time.
pub struct Executor {
    /// The planned test cases, in execution order.
    pub plan: Vec<TestCase>,
    /// The index of the next case to run.
    pub next: usize,
}

impl Executor {
    /// The executor has not walked past its plan.
    pub open spec fn wf(&self) -> bool {
        self.next <= self.plan@.len()
    }

    /// Starts a run over a plan, at its first case.
    pub fn new(plan: Vec<TestCase>) -> (e: Executor)
        ensures
            e.wf(),
            e.plan@ == plan@,
            e.next == 0,
    {
        Executor { plan, next: 0 }
    }

    /// The raw export name of the current case, or nothing when every case
    /// has run. The embedding layer must resolve the name in a fresh
    /// instantiation, created for this case alone, and invoke it with zero
    /// arguments and zero results.
    pub fn current_test(&self) -> (d: Option<Vec<u8>>)
        requires
            self.wf(),
        ensures
            self.next < self.plan@.len() ==> (d matches Some(raw) && raw@ == self.plan@[
                self.next as int
            ].raw@),
            self.next >= self.plan@.len() ==> d is None,
    {
        if self.next < self.plan.len() {
            Some(copy_bytes(&self.plan[self.next].raw))
        } else {
            None
        }
    }

    /// Records the current case's invocation result and steps to the next
    /// case: a clean return yields the success line on the ordinary stream,
    /// a failure yields the failure line, with the diagnostic, on the error
    /// stream. The rest of the plan is untouched: a failed case never
    /// aborts the run.
    pub fn record(&mut self, result: Result<(), Vec<u8>>) -> (line: (Vec<u8>, Stream))
        requires
            old(self).wf(),
            old(self).next < old(self).plan@.len(),
        ensures
            final(self).wf(),
            final(self).plan@ == old(self).plan@,
            final(self).next == old(self).next + 1,
            result is Ok ==> (line.0@ == passed_line_of(
                old(self).plan@[old(self).next as int].name@,
            ) && line.1 == Stream::Stdout),
            result matches Err(e) ==> (line.0@ == failed_line_of(
                old(self).plan@[old(self).next as int].name@,
                e@,
            ) && line.1 == Stream::Stderr),
    {
        let n = self.plan.len();
        assert(self.next < n);
        let outcome = classify_outcome(result);
        let line = render_line(&self.plan[self.next].name, &outcome);
        self.next = self.next + 1;
        line
    }
}

} // verus!
