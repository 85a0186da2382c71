//! The export catalog: a deterministically ordered listing of a component's
//! export names.
//!
//! The component's type lists its exports in an arbitrary order. The catalog
//! normalizes that listing to a strictly ascending (hence duplicate-free)
//! lexicographic order, so that every run of the harness walks the same
//! component's exports in the same order.

use vstd::prelude::*;
use crate::order::{lex_lt, bytes_lt, bytes_eq, lemma_lex_trichotomy, lemma_lex_lt_trans};

verus! {

/// A listing is strictly sorted: names stand in ascending lexicographic
/// order, so no name appears twice.
pub open spec fn strictly_sorted(s: Seq<Seq<u8>>) -> bool {
    forall|i: int, j: int| 0 <= i < j < s.len() ==> lex_lt(s[i], s[j])
}

/// Two listings hold exactly the same names.
pub open spec fn same_names(a: Seq<Seq<u8>>, b: Seq<Seq<u8>>) -> bool {
    forall|x: Seq<u8>| a.contains(x) <==> b.contains(x)
}

/// Copies a byte string.
pub fn copy_bytes(v: &Vec<u8>) -> (r: Vec<u8>)
    ensures
        r@ == v@,
{
    let mut r: Vec<u8> = Vec::new();
    let mut i: usize = 0;
    while i < v.len()
        invariant
            0 <= i <= v.len(),
            r@ =~= v@.subrange(0, i as int),
        decreases v.len() - i,
    {
        r.push(v[i]);
        i = i + 1;
    }
    proof {
        assert(r@ =~= v@);
    }
    r
}

/// The position before which `name` belongs in the sorted listing `r`:
/// the first index whose entry is not lexicographically below `name`.
fn find_position(r: &Vec<Vec<u8>>, name: &Vec<u8>) -> (j: usize)
    requires
        strictly_sorted(r.deep_view()),
    ensures
        j <= r.len(),
        forall|k: int| 0 <= k < j ==> lex_lt(r.deep_view()[k], name@),
        j < r.len() ==> !lex_lt(r.deep_view()[j as int], name@),
{
    let mut j: usize = 0;
    while j < r.len()
        invariant
            0 <= j <= r.len(),
            forall|k: int| 0 <= k < j ==> lex_lt(r.deep_view()[k], name@),
        decreases r.len() - j,
    {
        proof {
            assert(r.deep_view()[j as int] == r@[j as int]@);
        }
        if !bytes_lt(&r[j], name) {
            return j;
        }
        j = j + 1;
    }
    j
}

/// Inserts a name into a sorted listing, keeping the order and adding
/// nothing when the name is already present.
pub fn insert_name(r: &mut Vec<Vec<u8>>, name: &Vec<u8>)
    requires
        strictly_sorted(old(r).deep_view()),
    ensures
        strictly_sorted(final(r).deep_view()),
        forall|x: Seq<u8>|
            final(r).deep_view().contains(x) <==> (old(r).deep_view().contains(x) || x
                == name@),
{
    let ghost dvo = r.deep_view();
    let j = find_position(r, name);
    if j < r.len() {
        proof {
            assert(r.deep_view()[j as int] == r@[j as int]@);
        }
        if bytes_eq(&r[j], name) {
            proof {
                assert(dvo[j as int] == name@);
                assert(dvo.contains(name@));
            }
            return ;
        }
    }
    proof {
        assert forall|k: int| j <= k < dvo.len() implies lex_lt(name@, dvo[k]) by {
            lemma_lex_trichotomy(name@, dvo[j as int]);
            if k > j {
                lemma_lex_lt_trans(name@, dvo[j as int], dvo[k]);
            }
        }
    }
    let nm = copy_bytes(name);
    r.insert(j, nm);
    proof {
        let dvf = r.deep_view();
        assert(dvf =~= dvo.insert(j as int, name@)) by {
            dvo.insert_ensures(j as int, name@);
            assert forall|i: int| 0 <= i < dvf.len() implies dvf[i] == dvo.insert(
                j as int,
                name@,
            )[i] by {
                assert(dvf[i] == r@[i]@);
            }
        }
        dvo.insert_ensures(j as int, name@);
        assert forall|p: int, q: int| 0 <= p < q < dvf.len() implies lex_lt(dvf[p], dvf[q]) by {
            if q < j {
                assert(dvf[p] == dvo[p] && dvf[q] == dvo[q]);
            } else if p < j && q == j {
                assert(dvf[p] == dvo[p] && dvf[q] == name@);
            } else if p < j && q > j {
                assert(dvf[p] == dvo[p] && dvf[q] == dvo[q - 1]);
            } else if p == j {
                assert(dvf[p] == name@ && dvf[q] == dvo[q - 1]);
            } else {
                assert(dvf[p] == dvo[p - 1] && dvf[q] == dvo[q - 1]);
            }
        }
        assert forall|x: Seq<u8>| dvf.contains(x) <==> (dvo.contains(x) || x == name@) by {
            if dvf.contains(x) {
                let i = choose|i: int| 0 <= i < dvf.len() && dvf[i] == x;
                if i < j {
                    assert(dvo[i] == x);
                } else if i == j {
                    assert(x == name@);
                } else {
                    assert(dvo[i - 1] == x);
                }
            }
            if dvo.contains(x) {
                let i = choose|i: int| 0 <= i < dvo.len() && dvo[i] == x;
                if i < j {
                    assert(dvf[i] == x);
                } else {
                    assert(dvf[i + 1] == x);
                }
            }
            if x == name@ {
                assert(dvf[j as int] == x);
            }
        }
    }
}

/// Normalizes a raw export listing into the catalog's canonical form:
/// strictly ascending lexicographic order, each name kept once.
pub fn normalize_exports(names: &Vec<Vec<u8>>) -> (r: Vec<Vec<u8>>)
    ensures
        strictly_sorted(r.deep_view()),
        same_names(r.deep_view(), names.deep_view()),
{
    let ghost dvn = names.deep_view();
    let mut r: Vec<Vec<u8>> = Vec::new();
    let mut i: usize = 0;
    while i < names.len()
        invariant
            0 <= i <= names.len(),
            dvn == names.deep_view(),
            strictly_sorted(r.deep_view()),
            forall|x: Seq<u8>|
                r.deep_view().contains(x) <==> dvn.subrange(0, i as int).contains(x),
        decreases names.len() - i,
    {
        let ghost dvr = r.deep_view();
        proof {
            assert(names.deep_view()[i as int] == names@[i as int]@);
        }
        insert_name(&mut r, &names[i]);
        proof {
            let pre = dvn.subrange(0, i as int);
            let post = dvn.subrange(0, i as int + 1);
            assert(post =~= pre.push(dvn[i as int]));
            assert forall|x: Seq<u8>| r.deep_view().contains(x) <==> post.contains(x) by {
                if post.contains(x) {
                    let k = choose|k: int| 0 <= k < post.len() && post[k] == x;
                    if k < pre.len() {
                        assert(pre[k] == x);
                    } else {
                        assert(x == dvn[i as int]);
                    }
                }
                if pre.contains(x) {
                    let k = choose|k: int| 0 <= k < pre.len() && pre[k] == x;
                    assert(post[k] == x);
                }
                if x == dvn[i as int] {
                    assert(post[post.len() - 1] == x);
                }
            }
        }
        i = i + 1;
    }
    proof {
        assert(dvn.subrange(0, dvn.len() as int) =~= dvn);
    }
    r
}

/// A strictly sorted listing is canonical: two strictly sorted listings of
/// the same names are the same listing. Hence the catalog's output depends
/// only on which names a component exports, never on the order in which its
/// type declares them, and two runs over the same component walk identical
/// listings.
pub proof fn lemma_sorted_listing_canonical(a: Seq<Seq<u8>>, b: Seq<Seq<u8>>)
    requires
        strictly_sorted(a),
        strictly_sorted(b),
        same_names(a, b),
    ensures
        a == b,
    decreases a.len(),
{
    if a.len() == 0 {
        if b.len() > 0 {
            assert(b.contains(b[0]));
            assert(a.contains(b[0]));
        }
        assert(a =~= b);
    } else {
        assert(a.contains(a[0]));
        assert(b.contains(a[0]));
        let jb = choose|j: int| 0 <= j < b.len() && b[j] == a[0];
        assert(b.contains(b[0]));
        assert(a.contains(b[0]));
        let ja = choose|j: int| 0 <= j < a.len() && a[j] == b[0];
        assert(a[0] == b[0]) by {
            if jb > 0 && ja > 0 {
                assert(lex_lt(b[0], b[jb]));
                assert(lex_lt(a[0], a[ja]));
                lemma_lex_trichotomy(a[0], b[0]);
            }
        }
        let at = a.skip(1);
        let bt = b.skip(1);
        assert(strictly_sorted(at)) by {
            assert forall|i: int, j: int| 0 <= i < j < at.len() implies lex_lt(at[i], at[j]) by {
                assert(at[i] == a[i + 1] && at[j] == a[j + 1]);
            }
        }
        assert(strictly_sorted(bt)) by {
            assert forall|i: int, j: int| 0 <= i < j < bt.len() implies lex_lt(bt[i], bt[j]) by {
                assert(bt[i] == b[i + 1] && bt[j] == b[j + 1]);
            }
        }
        assert(same_names(at, bt)) by {
            assert forall|x: Seq<u8>| at.contains(x) <==> bt.contains(x) by {
                if at.contains(x) {
                    let i = choose|i: int| 0 <= i < at.len() && at[i] == x;
                    assert(a[i + 1] == x);
                    assert(lex_lt(a[0], x));
                    assert(b.contains(x));
                    let j = choose|j: int| 0 <= j < b.len() && b[j] == x;
                    assert(j != 0) by {
                        lemma_lex_trichotomy(a[0], x);
                    }
                    assert(bt[j - 1] == x);
                }
                if bt.contains(x) {
                    let i = choose|i: int| 0 <= i < bt.len() && bt[i] == x;
                    assert(b[i + 1] == x);
                    assert(lex_lt(b[0], x));
                    assert(a.contains(x));
                    let j = choose|j: int| 0 <= j < a.len() && a[j] == x;
                    assert(j != 0) by {
                        lemma_lex_trichotomy(b[0], x);
                    }
                    assert(at[j - 1] == x);
                }
            }
        }
        lemma_sorted_listing_canonical(at, bt);
        assert(a =~= b) by {
            assert(at =~= bt);
            assert(at.len() == bt.len());
            assert forall|k: int| 0 <= k < a.len() implies a[k] == b[k] by {
                if k >= 1 {
                    assert(a[k] == at[k - 1] && b[k] == bt[k - 1]);
                }
            }
        }
    }
}

} // verus!
