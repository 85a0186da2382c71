//! Report formatting.
//!
//! Each completed test case yields one line of text: a success line on the
//! ordinary output stream, or a failure line — test name and diagnostic —
//! on the error-distinguished stream. Lines are rendered one at a time, so
//! an interrupted run still leaves a record of the cases that finished.

use vstd::prelude::*;
use crate::catalog::copy_bytes;
use crate::outcome::TestOutcome;

verus! {

/// The output stream a report line is directed to.
#[derive(Debug, Clone, Copy, PartialEq, Eq, Structural)]
pub enum Stream {
    /// The ordinary output stream.
    Stdout,
    /// The error-distinguished output stream.
    Stderr,
}

/// The bytes of ` ... OK!`, appended to a passing test's name.
pub open spec fn ok_suffix() -> Seq<u8> {
    seq![32u8, 46u8, 46u8, 46u8, 32u8, 79u8, 75u8, 33u8]
}

/// The bytes of `error: `, opening a failure line.
pub open spec fn err_prefix() -> Seq<u8> {
    seq![101u8, 114u8, 114u8, 111u8, 114u8, 58u8, 32u8]
}

/// The bytes of ` test failed: `, between a failing test's name and the
/// diagnostic.
pub open spec fn failed_infix() -> Seq<u8> {
    seq![32u8, 116u8, 101u8, 115u8, 116u8, 32u8, 102u8, 97u8, 105u8, 108u8, 101u8, 100u8, 58u8, 32u8]
}

/// The success line for a test name.
pub open spec fn passed_line_of(name: Seq<u8>) -> Seq<u8> {
    name + ok_suffix()
}

/// The failure line for a test name and a diagnostic.
pub open spec fn failed_line_of(name: Seq<u8>, reason: Seq<u8>) -> Seq<u8> {
    err_prefix() + name + failed_infix() + reason
}

/// Appends a byte string to another.
pub fn append_bytes(dst: &mut Vec<u8>, src: &Vec<u8>)
    ensures
        final(dst)@ == old(dst)@ + src@,
{
    let mut i: usize = 0;
    while i < src.len()
        invariant
            0 <= i <= src.len(),
            dst@ =~= old(dst)@ + src@.subrange(0, i as int),
        decreases src.len() - i,
    {
        dst.push(src[i]);
        i = i + 1;
    }
    proof {
        assert(dst@ =~= old(dst)@ + src@);
    }
}

/// Renders the success line for a test name.
pub fn passed_line(name: &Vec<u8>) -> (r: Vec<u8>)
    ensures
        r@ == passed_line_of(name@),
{
    let mut r = copy_bytes(name);
    r.push(32);
    r.push(46);
    r.push(46);
    r.push(46);
    r.push(32);
    r.push(79);
    r.push(75);
    r.push(33);
    proof {
        assert(r@ =~= passed_line_of(name@));
    }
    r
}

/// Renders the failure line for a test name and a diagnostic.
pub fn failed_line(name: &Vec<u8>, reason: &Vec<u8>) -> (r: Vec<u8>)
    ensures
        r@ == failed_line_of(name@, reason@),
{
    let mut r: Vec<u8> = Vec::new();
    r.push(101);
    r.push(114);
    r.push(114);
    r.push(111);
    r.push(114);
    r.push(58);
    r.push(32);
    proof {
        assert(r@ =~= err_prefix());
    }
    append_bytes(&mut r, name);
    let mut infix: Vec<u8> = Vec::new();
    infix.push(32);
    infix.push(116);
    infix.push(101);
    infix.push(115);
    infix.push(116);
    infix.push(32);
    infix.push(102);
    infix.push(97);
    infix.push(105);
    infix.push(108);
    infix.push(101);
    infix.push(100);
    infix.push(58);
    infix.push(32);
    proof {
        assert(infix@ =~= failed_infix());
    }
    append_bytes(&mut r, &infix);
    append_bytes(&mut r, reason);
    proof {
        assert(r@ =~= failed_line_of(name@, reason@));
    }
    r
}

/// Renders the report line for one completed test case: the success line on
/// the ordinary stream for a pass, the failure line on the error stream
/// otherwise.
pub fn render_line(name: &Vec<u8>, outcome: &TestOutcome) -> (r: (Vec<u8>, Stream))
    ensures
        *outcome is Passed ==> (r.0@ == passed_line_of(name@) && r.1 == Stream::Stdout),
        *outcome matches TestOutcome::Failed(reason) ==> (r.0@ == failed_line_of(name@, reason@)
            && r.1 == Stream::Stderr),
{
    match outcome {
        TestOutcome::Passed => (passed_line(name), Stream::Stdout),
        TestOutcome::Failed(reason) => (failed_line(name, reason), Stream::Stderr),
    }
}

} // verus!
