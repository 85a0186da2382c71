//! Export names and the test-naming convention.
//!
//! An export name is a byte string. A name designates a runnable test
//! exactly when it starts with the prefix `test-`; the test's display name
//! is the remainder after that prefix.

use vstd::prelude::*;

verus! {

/// The byte sequence of the export-name prefix that marks a runnable test:
/// the characters of `test-`.
pub open spec fn test_prefix() -> Seq<u8> {
    seq![116u8, 101u8, 115u8, 116u8, 45u8]
}

/// An export name designates a test when it starts with the prefix.
pub open spec fn is_test_name(s: Seq<u8>) -> bool {
    s.len() >= 5 && s.subrange(0, 5) == test_prefix()
}

/// The display name of a test: the export name with the prefix removed.
pub open spec fn display_of(s: Seq<u8>) -> Seq<u8> {
    s.subrange(5, s.len() as int)
}

/// Decides whether an export name designates a test.
pub fn has_test_prefix(name: &Vec<u8>) -> (r: bool)
    ensures
        r == is_test_name(name@),
{
    if name.len() < 5 {
        return false;
    }
    let r = name[0] == 116 && name[1] == 101 && name[2] == 115 && name[3] == 116
        && name[4] == 45;
    proof {
        if r {
            assert(name@.subrange(0, 5) =~= test_prefix());
        } else {
            assert(name@.subrange(0, 5) != test_prefix()) by {
                if name@.subrange(0, 5) == test_prefix() {
                    assert(name@[0] == test_prefix()[0]);
                    assert(name@[1] == test_prefix()[1]);
                    assert(name@[2] == test_prefix()[2]);
                    assert(name@[3] == test_prefix()[3]);
                    assert(name@[4] == test_prefix()[4]);
                }
            }
        }
    }
    r
}

/// Strips the test prefix from an export name, yielding the display name,
/// or nothing when the name does not designate a test.
pub fn strip_test_prefix(name: &Vec<u8>) -> (r: Option<Vec<u8>>)
    ensures
        is_test_name(name@) ==> (r matches Some(d) && d@ == display_of(name@)),
        !is_test_name(name@) ==> r is None,
{
    if !has_test_prefix(name) {
        return None;
    }
    let mut d: Vec<u8> = Vec::new();
    let mut i: usize = 5;
    while i < name.len()
        invariant
            5 <= i <= name.len(),
            d@ =~= name@.subrange(5, i as int),
        decreases name.len() - i,
    {
        d.push(name[i]);
        i = i + 1;
    }
    assert(d@ =~= display_of(name@));
    Some(d)
}

} // verus!
