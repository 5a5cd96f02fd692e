//! Lexicographic order of strings by characters (the order of `String`'s
//! `Ord`, since UTF-8 preserves the order of code points), and the sorted,
//! duplicate-free list of a collection of names.

use vstd::prelude::*;

verus! {

/// Length of the longest common prefix of `a` and `b`.
pub open spec fn common_prefix(a: Seq<char>, b: Seq<char>) -> nat
    decreases a.len(),
{
    if a.len() == 0 || b.len() == 0 || a[0] != b[0] {
        0
    } else {
        1 + common_prefix(a.drop_first(), b.drop_first())
    }
}

/// `a` sorts strictly before `b`: a proper prefix of `b`, or smaller at
/// the first character where they differ.
pub open spec fn seq_lt(a: Seq<char>, b: Seq<char>) -> bool {
    let k = common_prefix(a, b);
    (k == a.len() && k < b.len()) || (k < a.len() && k < b.len() && (a[k as int] as u32) < (b[k as int] as u32))
}

pub proof fn lemma_common_prefix(a: Seq<char>, b: Seq<char>)
    ensures
        common_prefix(a, b) <= a.len(),
        common_prefix(a, b) <= b.len(),
        forall|i: int| 0 <= i < common_prefix(a, b) ==> #[trigger] a[i] == b[i],
        common_prefix(a, b) < a.len() && common_prefix(a, b) < b.len() ==> a[common_prefix(a, b) as int]
            != b[common_prefix(a, b) as int],
        common_prefix(a, b) == common_prefix(b, a),
    decreases a.len(),
{
    if !(a.len() == 0 || b.len() == 0 || a[0] != b[0]) {
        lemma_common_prefix(a.drop_first(), b.drop_first());
        assert forall|i: int| 0 <= i < common_prefix(a, b) implies #[trigger] a[i] == b[i] by {
            if i > 0 {
                assert(a[i] == a.drop_first()[i - 1]);
                assert(b[i] == b.drop_first()[i - 1]);
            }
        }
    }
}

/// The common prefix is the first index where the two differ (or the
/// shorter length).
pub proof fn lemma_common_prefix_is(a: Seq<char>, b: Seq<char>, k: int)
    requires
        0 <= k <= a.len(),
        k <= b.len(),
        forall|i: int| 0 <= i < k ==> #[trigger] a[i] == b[i],
        k < a.len() && k < b.len() ==> a[k] != b[k],
    ensures
        common_prefix(a, b) == k,
    decreases a.len(),
{
    if k > 0 {
        assert forall|i: int| 0 <= i < k - 1 implies #[trigger] a.drop_first()[i] == b.drop_first()[i] by {
            assert(a[i + 1] == b[i + 1]);
        }
        if k < a.len() && k < b.len() {
            assert(a.drop_first()[k - 1] == a[k]);
            assert(b.drop_first()[k - 1] == b[k]);
        }
        assert(a[0] == b[0]);
        lemma_common_prefix_is(a.drop_first(), b.drop_first(), k - 1);
    }
}

/// `seq_lt` is a strict total order on character sequences.
pub proof fn lemma_order(a: Seq<char>, b: Seq<char>, c: Seq<char>)
    ensures
        !seq_lt(a, a),
        seq_lt(a, b) ==> !seq_lt(b, a),
        a != b ==> seq_lt(a, b) || seq_lt(b, a),
        seq_lt(a, b) && seq_lt(b, c) ==> seq_lt(a, c),
{
    lemma_common_prefix(a, a);
    lemma_common_prefix(a, b);
    lemma_common_prefix(b, c);
    lemma_common_prefix(a, c);
    let kab = common_prefix(a, b);
    if a != b && kab == a.len() && kab == b.len() {
        assert(a =~= b);
    }
    if kab < a.len() && kab < b.len() {
        let x = a[kab as int];
        let y = b[kab as int];
        vstd::utf8::char_u32_cast(x, x as u32);
        vstd::utf8::char_u32_cast(y, y as u32);
    }
    if seq_lt(a, b) && seq_lt(b, c) {
        let kbc = common_prefix(b, c);
        let m = if kab < kbc { kab } else { kbc };
        assert forall|i: int| 0 <= i < m implies #[trigger] a[i] == c[i] by {
            assert(a[i] == b[i]);
            assert(b[i] == c[i]);
        }
        if kab < kbc {
            if kab < a.len() {
                assert(b[kab as int] == c[kab as int]);
                lemma_common_prefix_is(a, c, kab as int);
            } else {
                lemma_common_prefix_is(a, c, kab as int);
            }
        } else if kbc < kab {
            assert(a[kbc as int] == b[kbc as int]);
            lemma_common_prefix_is(a, c, kbc as int);
        } else {
            if kab < a.len() {
                assert((a[kab as int] as u32) < (b[kab as int] as u32));
                assert((b[kab as int] as u32) < (c[kab as int] as u32));
                lemma_common_prefix_is(a, c, kab as int);
            } else {
                lemma_common_prefix_is(a, c, kab as int);
            }
        }
    }
}

/// Whether `a` sorts strictly before `b`.
pub fn chars_lt(a: &Vec<char>, b: &Vec<char>) -> (r: bool)
    ensures
        r == seq_lt(a@, b@),
{
    let mut k: usize = 0;
    while k < a.len() && k < b.len() && a[k] == b[k]
        invariant
            k <= a@.len(),
            k <= b@.len(),
            forall|i: int| 0 <= i < k ==> #[trigger] a@[i] == b@[i],
        decreases a@.len() - k,
    {
        k = k + 1;
    }
    proof {
        lemma_common_prefix_is(a@, b@, k as int);
    }
    if k == a.len() {
        k < b.len()
    } else if k == b.len() {
        false
    } else {
        (a[k] as u32) < (b[k] as u32)
    }
}

/// Strictly increasing: each element sorts before every later one.
pub open spec fn strictly_sorted(v: Seq<Seq<char>>) -> bool {
    forall|i: int, j: int| 0 <= i < j < v.len() ==> seq_lt(#[trigger] v[i], #[trigger] v[j])
}

/// Insert `x` into the strictly sorted `v`, unless it is already there.
pub fn insert_sorted(v: &mut Vec<Vec<char>>, x: Vec<char>)
    requires
        strictly_sorted(old(v)@.map_values(|e: Vec<char>| e@)),
    ensures
        strictly_sorted(final(v)@.map_values(|e: Vec<char>| e@)),
        final(v)@.map_values(|e: Vec<char>| e@).to_set() == old(v)@.map_values(|e: Vec<char>| e@).to_set().insert(
            x@,
        ),
{
    let ghost ov = old(v)@.map_values(|e: Vec<char>| e@);
    let mut p: usize = 0;
    while p < v.len() && chars_lt(&v[p], &x)
        invariant
            p <= v@.len(),
            v@.map_values(|e: Vec<char>| e@) == ov,
            strictly_sorted(ov),
            forall|i: int| 0 <= i < p ==> seq_lt(#[trigger] ov[i], x@),
        decreases v@.len() - p,
    {
        p = p + 1;
    }
    if p < v.len() && !chars_lt(&x, &v[p]) {
        proof {
            lemma_order(ov[p as int], x@, x@);
            assert(ov[p as int] == x@);
            assert(ov.to_set().insert(x@) =~= ov.to_set()) by {
                assert(ov.to_set().contains(ov[p as int]));
            }
        }
        return;
    }
    proof {
        if p < ov.len() {
            lemma_order(ov[p as int], x@, x@);
            assert(!seq_lt(ov[p as int], x@));
            assert(ov[p as int] != x@);
            assert(seq_lt(x@, ov[p as int]));
        }
    }
    v.insert(p, x);
    proof {
        let nv = v@.map_values(|e: Vec<char>| e@);
        assert(nv =~= ov.insert(p as int, x@));
        assert forall|i: int, j: int| 0 <= i < j < nv.len() implies seq_lt(#[trigger] nv[i], #[trigger] nv[j]) by {
            if j < p {
            } else if j == p {
                assert(nv[i] == ov[i]);
            } else if i < p {
                assert(nv[j] == ov[j - 1]);
                assert(seq_lt(ov[i], x@));
                assert(seq_lt(x@, ov[p as int]));
                if j - 1 > p {
                    assert(seq_lt(ov[p as int], ov[j - 1]));
                    lemma_order(x@, ov[p as int], ov[j - 1]);
                }
                lemma_order(ov[i], x@, ov[j - 1]);
            } else if i == p {
                assert(nv[j] == ov[j - 1]);
                if j - 1 > p {
                    assert(seq_lt(ov[p as int], ov[j - 1]));
                    lemma_order(x@, ov[p as int], ov[j - 1]);
                }
            } else {
                assert(nv[i] == ov[i - 1]);
                assert(nv[j] == ov[j - 1]);
            }
        }
        assert(nv.to_set() =~= ov.to_set().insert(x@)) by {
            assert forall|e: Seq<char>| nv.to_set().contains(e) implies ov.to_set().insert(x@).contains(e) by {
                let i = choose|i: int| 0 <= i < nv.len() && nv[i] == e;
                if i < p {
                    assert(ov[i] == e);
                } else if i > p {
                    assert(ov[i - 1] == e);
                }
            }
            assert forall|e: Seq<char>| ov.to_set().insert(x@).contains(e) implies nv.to_set().contains(e) by {
                if e == x@ {
                    assert(nv[p as int] == x@);
                } else {
                    let i = choose|i: int| 0 <= i < ov.len() && ov[i] == e;
                    if i < p {
                        assert(nv[i] == e);
                    } else {
                        assert(nv[i + 1] == e);
                    }
                }
            }
        }
    }
}

} // verus!
