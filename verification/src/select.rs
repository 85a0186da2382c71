//! Test selection: filtering the catalog's listing down to runnable tests.
//!
//! An export is selected exactly when its name carries the test prefix; the
//! resulting test case pairs the raw export name (needed to resolve the
//! function at invocation time) with the display name (shown in reports).
//! Selection preserves the catalog's deterministic order.

use vstd::prelude::*;
use crate::names::{is_test_name, display_of, strip_test_prefix};
use crate::catalog::{
    strictly_sorted, same_names, copy_bytes, normalize_exports, lemma_sorted_listing_canonical,
};

verus! {

/// One runnable test, transient for the duration of one invocation.
#[derive(Debug)]
pub struct TestCase {
    /// The raw export name, prefix included.
    pub raw: Vec<u8>,
    /// The display name: the raw export name with the prefix stripped.
    pub name: Vec<u8>,
}

/// A well-formed test case: the raw name carries the prefix and the display
/// name is the remainder.
pub open spec fn case_wf(c: TestCase) -> bool {
    is_test_name(c.raw@) && c.name@ == display_of(c.raw@)
}

/// The raw export names of a sequence of test cases, in order.
pub open spec fn case_raws(cases: Seq<TestCase>) -> Seq<Seq<u8>> {
    Seq::new(cases.len(), |i: int| cases[i].raw@)
}

/// The selection predicate over export names.
pub open spec fn test_pred() -> spec_fn(Seq<u8>) -> bool {
    |e: Seq<u8>| is_test_name(e)
}

/// A filtered listing holds exactly the input listing's names that satisfy the
/// predicate.
pub proof fn lemma_filter_elements(s: Seq<Seq<u8>>, p: spec_fn(Seq<u8>) -> bool)
    ensures
        forall|x: Seq<u8>| #[trigger] s.filter(p).contains(x) <==> (s.contains(x) && p(x)),
    decreases s.len(),
{
    reveal(Seq::filter);
    if s.len() == 0 {
    } else {
        let d = s.drop_last();
        lemma_filter_elements(d, p);
        let f = s.filter(p);
        let fd = d.filter(p);
        assert forall|x: Seq<u8>| #[trigger] f.contains(x) <==> (s.contains(x) && p(x)) by {
            if f.contains(x) {
                let i = choose|i: int| 0 <= i < f.len() && f[i] == x;
                if p(s.last()) && i == f.len() - 1 {
                    assert(x == s.last());
                    assert(s[s.len() - 1] == x);
                } else {
                    assert(fd[i] == x);
                    assert(fd.contains(x));
                    let k = choose|k: int| 0 <= k < d.len() && d[k] == x;
                    assert(s[k] == x);
                }
            }
            if s.contains(x) && p(x) {
                let i = choose|i: int| 0 <= i < s.len() && s[i] == x;
                if i == s.len() - 1 {
                    assert(f[f.len() - 1] == x);
                } else {
                    assert(d[i] == x);
                    assert(fd.contains(x));
                    let k = choose|k: int| 0 <= k < fd.len() && fd[k] == x;
                    assert(f[k] == x);
                }
            }
        }
    }
}

/// Filtering a strictly sorted listing leaves a strictly sorted listing.
pub proof fn lemma_filter_sorted(s: Seq<Seq<u8>>, p: spec_fn(Seq<u8>) -> bool)
    requires
        strictly_sorted(s),
    ensures
        strictly_sorted(s.filter(p)),
    decreases s.len(),
{
    reveal(Seq::filter);
    if s.len() == 0 {
    } else {
        let d = s.drop_last();
        assert(strictly_sorted(d)) by {
            assert forall|i: int, j: int|
                0 <= i < j < d.len() implies crate::order::lex_lt(d[i], d[j]) by {
                assert(d[i] == s[i] && d[j] == s[j]);
            }
        }
        lemma_filter_sorted(d, p);
        lemma_filter_elements(d, p);
        let f = s.filter(p);
        let fd = d.filter(p);
        if p(s.last()) {
            assert forall|i: int, j: int|
                0 <= i < j < f.len() implies crate::order::lex_lt(f[i], f[j]) by {
                if j < f.len() - 1 {
                    assert(f[i] == fd[i] && f[j] == fd[j]);
                } else {
                    assert(f[i] == fd[i]);
                    assert(fd.contains(fd[i]));
                    let k = choose|k: int| 0 <= k < d.len() && d[k] == fd[i];
                    assert(crate::order::lex_lt(s[k], s[s.len() - 1]));
                }
            }
        }
    }
}

/// Selects the test cases from an export listing, in the listing's order:
/// an export is selected exactly when its name carries the test prefix, and
/// each selected case's display name is its raw name with the prefix
/// stripped.
pub fn select_tests(exports: &Vec<Vec<u8>>) -> (r: Vec<TestCase>)
    ensures
        case_raws(r@) == exports.deep_view().filter(test_pred()),
        forall|i: int| 0 <= i < r@.len() ==> case_wf(#[trigger] r@[i]),
{
    let ghost dv = exports.deep_view();
    let mut out: Vec<TestCase> = Vec::new();
    let mut i: usize = 0;
    while i < exports.len()
        invariant
            0 <= i <= exports.len(),
            dv == exports.deep_view(),
            case_raws(out@) =~= dv.subrange(0, i as int).filter(test_pred()),
            forall|k: int| 0 <= k < out@.len() ==> case_wf(#[trigger] out@[k]),
        decreases exports.len() - i,
    {
        let ghost pre = out@;
        proof {
            assert(dv[i as int] == exports@[i as int]@);
        }
        match strip_test_prefix(&exports[i]) {
            Some(nm) => {
                let raw = copy_bytes(&exports[i]);
                out.push(TestCase { raw, name: nm });
            },
            None => {},
        }
        proof {
            dv.subrange(0, i as int).lemma_filter_push(dv[i as int], test_pred());
            assert(dv.subrange(0, i as int).push(dv[i as int]) =~= dv.subrange(0, i as int + 1));
            if is_test_name(dv[i as int]) {
                assert(case_raws(out@) =~= case_raws(pre).push(dv[i as int])) by {
                    assert forall|k: int| 0 <= k < out@.len() implies case_raws(out@)[k]
                        == case_raws(pre).push(dv[i as int])[k] by {
                        if k < pre.len() {
                            assert(out@[k] == pre[k]);
                        }
                    }
                }
            }
        }
        i = i + 1;
    }
    proof {
        assert(dv.subrange(0, dv.len() as int) =~= dv);
    }
    out
}

/// Plans a run: normalizes the raw export listing to the catalog's canonical
/// order, then selects the test cases. The plan's raw names are strictly
/// sorted, hold exactly the prefixed export names, and each case is
/// well-formed.
pub fn plan_tests(exports: &Vec<Vec<u8>>) -> (r: Vec<TestCase>)
    ensures
        strictly_sorted(case_raws(r@)),
        forall|i: int| 0 <= i < r@.len() ==> case_wf(#[trigger] r@[i]),
        forall|x: Seq<u8>|
            #[trigger] case_raws(r@).contains(x) <==> (exports.deep_view().contains(x)
                && is_test_name(x)),
{
    let sorted = normalize_exports(exports);
    let r = select_tests(&sorted);
    proof {
        lemma_filter_sorted(sorted.deep_view(), test_pred());
        lemma_filter_elements(sorted.deep_view(), test_pred());
    }
    r
}

/// When none of a component's exports carries the test prefix, the plan is
/// empty: the run completes with zero reported outcomes.
pub proof fn lemma_no_prefixed_exports_no_cases(exports: Seq<Seq<u8>>, raws: Seq<Seq<u8>>)
    requires
        forall|x: Seq<u8>| #[trigger] raws.contains(x) <==> (exports.contains(x) && is_test_name(x)),
        forall|i: int| 0 <= i < exports.len() ==> !is_test_name(#[trigger] exports[i]),
    ensures
        raws.len() == 0,
{
    if raws.len() > 0 {
        assert(raws.contains(raws[0]));
        let i = choose|i: int| 0 <= i < exports.len() && exports[i] == raws[0];
        assert(!is_test_name(exports[i]));
    }
}

/// An export whose name does not carry the test prefix is never selected,
/// whatever its signature.
pub proof fn lemma_unprefixed_never_selected(exports: Seq<Seq<u8>>, raws: Seq<Seq<u8>>, x: Seq<u8>)
    requires
        forall|y: Seq<u8>| #[trigger] raws.contains(y) <==> (exports.contains(y) && is_test_name(y)),
        !is_test_name(x),
    ensures
        !raws.contains(x),
{
}

/// The plan is a function of the exported names alone: two plans over
/// listings of the same names — in particular, over the same component on
/// two runs, or over two declaration orders of the same exports — select
/// the same raw names in the same order.
pub proof fn lemma_plan_deterministic(
    exports1: Seq<Seq<u8>>,
    exports2: Seq<Seq<u8>>,
    raws1: Seq<Seq<u8>>,
    raws2: Seq<Seq<u8>>,
)
    requires
        same_names(exports1, exports2),
        strictly_sorted(raws1),
        strictly_sorted(raws2),
        forall|x: Seq<u8>|
            #[trigger] raws1.contains(x) <==> (exports1.contains(x) && is_test_name(x)),
        forall|x: Seq<u8>|
            #[trigger] raws2.contains(x) <==> (exports2.contains(x) && is_test_name(x)),
    ensures
        raws1 == raws2,
{
    assert(same_names(raws1, raws2));
    lemma_sorted_listing_canonical(raws1, raws2);
}

/// Well-formed plans with the same raw names show the same display names:
/// the report lines of two identical runs are identical.
pub proof fn lemma_same_raws_same_names(a: Seq<TestCase>, b: Seq<TestCase>)
    requires
        case_raws(a) == case_raws(b),
        forall|i: int| 0 <= i < a.len() ==> case_wf(#[trigger] a[i]),
        forall|i: int| 0 <= i < b.len() ==> case_wf(#[trigger] b[i]),
    ensures
        a.len() == b.len(),
        forall|i: int| 0 <= i < a.len() ==> a[i].raw@ == b[i].raw@ && a[i].name@ == b[i].name@,
{
    assert(case_raws(a).len() == a.len());
    assert(case_raws(b).len() == b.len());
    assert forall|i: int| 0 <= i < a.len() implies a[i].raw@ == b[i].raw@ && a[i].name@
        == b[i].name@ by {
        assert(case_raws(a)[i] == a[i].raw@);
        assert(case_raws(b)[i] == b[i].raw@);
        assert(case_raws(a)[i] == case_raws(b)[i]);
        assert(case_wf(a[i]));
        assert(case_wf(b[i]));
    }
}

} // verus!
