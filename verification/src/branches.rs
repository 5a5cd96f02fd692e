//! The git branch picker: the branch names out of `git branch` output, and
//! the picker's labels, with the current branch marked.

use vstd::prelude::*;
use crate::order::seq_lt;
use vstd::string::StringExecFns;
use crate::slash::{trail_count, trim_spec};

verus! {

/// The pieces of `s` between newline characters (one more than there are
/// newlines).
pub open spec fn split_lines(s: Seq<char>) -> Seq<Seq<char>>
    decreases s.len(),
{
    if s.len() == 0 {
        seq![Seq::<char>::empty()]
    } else {
        let p = split_lines(s.drop_last());
        if s.last() == '\n' {
            p.push(Seq::<char>::empty())
        } else {
            p.update(p.len() - 1, p.last().push(s.last()))
        }
    }
}

/// The trimmed lines among `lines` that are not empty, in order.
pub open spec fn nonblank_trimmed(lines: Seq<Seq<char>>) -> Seq<Seq<char>>
    decreases lines.len(),
{
    if lines.len() == 0 {
        Seq::empty()
    } else {
        let p = nonblank_trimmed(lines.drop_last());
        let t = trim_spec(lines.last());
        if t.len() > 0 {
            p.push(t)
        } else {
            p
        }
    }
}

/// The branch names that `git branch --format=%(refname:short)` printed as
/// `out`: its lines, trimmed, blank ones left out (in output order).
pub open spec fn branch_lines(out: Seq<char>) -> Seq<Seq<char>> {
    nonblank_trimmed(split_lines(out))
}

/// Ascending, equal names allowed: no element sorts before an earlier one.
pub open spec fn sorted(v: Seq<Seq<char>>) -> bool {
    forall|i: int, j: int| 0 <= i < j < v.len() ==> !seq_lt(#[trigger] v[j], #[trigger] v[i])
}

proof fn lemma_split_lines_len(s: Seq<char>)
    ensures
        split_lines(s).len() >= 1,
    decreases s.len(),
{
    if s.len() > 0 {
        lemma_split_lines_len(s.drop_last());
    }
}

/// Insert `x` into the sorted `v` after every element that does not sort
/// after it.
fn insert_ordered(v: &mut Vec<Vec<char>>, x: Vec<char>)
    requires
        sorted(old(v)@.map_values(|e: Vec<char>| e@)),
    ensures
        sorted(final(v)@.map_values(|e: Vec<char>| e@)),
        final(v)@.map_values(|e: Vec<char>| e@).to_multiset() == old(v)@.map_values(
            |e: Vec<char>| e@,
        ).to_multiset().insert(x@),
{
    let ghost ov = old(v)@.map_values(|e: Vec<char>| e@);
    let mut p: usize = 0;
    while p < v.len() && !crate::order::chars_lt(&x, &v[p])
        invariant
            p <= v@.len(),
            v@.map_values(|e: Vec<char>| e@) == ov,
            sorted(ov),
            forall|i: int| 0 <= i < p ==> !seq_lt(x@, #[trigger] ov[i]),
        decreases v@.len() - p,
    {
        p = p + 1;
    }
    let ghost xs = x@;
    v.insert(p, x);
    proof {
        let nv = v@.map_values(|e: Vec<char>| e@);
        assert(nv =~= ov.insert(p as int, xs));
        assert forall|i: int, j: int| 0 <= i < j < nv.len() implies !seq_lt(#[trigger] nv[j], #[trigger] nv[i]) by {
            if j < p {
                assert(nv[i] == ov[i]);
                assert(nv[j] == ov[j]);
            } else if j == p {
                assert(nv[i] == ov[i]);
            } else if i < p {
                assert(nv[i] == ov[i]);
                assert(nv[j] == ov[j - 1]);
            } else if i == p {
                assert(nv[j] == ov[j - 1]);
                assert(seq_lt(xs, ov[p as int]));
                crate::order::lemma_order(ov[j - 1], xs, ov[p as int]);
                if j - 1 > p {
                    assert(!seq_lt(ov[j - 1], ov[p as int]));
                }
            } else {
                assert(nv[i] == ov[i - 1]);
                assert(nv[j] == ov[j - 1]);
            }
        }
        assert(nv.remove(p as int) =~= ov);
        broadcast use vstd::seq_lib::group_to_multiset_ensures;
        assert(nv.to_multiset().remove(xs) =~= ov.to_multiset());
        assert(nv[p as int] == xs);
        assert(nv.contains(xs));
        assert(nv.to_multiset() =~= ov.to_multiset().insert(xs)) by {
            assert forall|e: Seq<char>| #[trigger] nv.to_multiset().count(e) == ov.to_multiset().insert(
                xs,
            ).count(e) by {
                if e == xs {
                    assert(nv.to_multiset().count(e) > 0);
                }
            }
        }
    }
}

/// The branch names in `out`, the output of `git branch
/// --format=%(refname:short)`: each line trimmed, blank lines dropped, in
/// ascending order (duplicates kept).
pub fn branch_names(out: &str) -> (r: Vec<String>)
    ensures
        sorted(r@.map_values(|e: String| e@)),
        r@.map_values(|e: String| e@).to_multiset() == branch_lines(out@).to_multiset(),
{
    let v = crate::strs::chars_of(out);
    let n = v.len();
    let mut names: Vec<Vec<char>> = Vec::new();
    let mut start: usize = 0;
    let mut i: usize = 0;
    proof {
        assert(v@.take(0) =~= Seq::<char>::empty());
        assert(split_lines(v@.take(0)).drop_last() =~= Seq::<Seq<char>>::empty());
        assert(names@.map_values(|e: Vec<char>| e@) =~= Seq::<Seq<char>>::empty());
        assert(v@.subrange(0, 0) =~= Seq::<char>::empty());
    }
    while i < n
        invariant
            n == v@.len(),
            v@ == out@,
            start <= i <= n,
            split_lines(v@.take(i as int)).len() >= 1,
            split_lines(v@.take(i as int)).last() == v@.subrange(start as int, i as int),
            sorted(names@.map_values(|e: Vec<char>| e@)),
            names@.map_values(|e: Vec<char>| e@).to_multiset() == nonblank_trimmed(
                split_lines(v@.take(i as int)).drop_last(),
            ).to_multiset(),
        decreases n - i,
    {
        let ghost pl = split_lines(v@.take(i as int));
        proof {
            assert(v@.take(i + 1).drop_last() =~= v@.take(i as int));
            assert(v@.take(i + 1).last() == v@[i as int]);
        }
        if v[i] == '\n' {
            let piece = crate::strs::string_of(&v, start, i);
            let t = crate::slash::trim(piece.as_str());
            let tc = crate::strs::chars_of(t.as_str());
            let ghost before = names@.map_values(|e: Vec<char>| e@);
            if tc.len() > 0 {
                insert_ordered(&mut names, tc);
            }
            proof {
                let npl = split_lines(v@.take(i + 1));
                assert(npl == pl.push(Seq::<char>::empty()));
                assert(npl.drop_last() =~= pl);
                assert(pl.drop_last() =~= pl.subrange(0, pl.len() - 1));
                broadcast use vstd::seq_lib::group_to_multiset_ensures;
                if tc@.len() > 0 {
                    assert(nonblank_trimmed(pl) == nonblank_trimmed(pl.drop_last()).push(tc@));
                }
                assert(v@.subrange(i + 1, i + 1) =~= Seq::<char>::empty());
            }
            start = i + 1;
        } else {
            proof {
                let npl = split_lines(v@.take(i + 1));
                assert(npl == pl.update(pl.len() - 1, pl.last().push(v@[i as int])));
                assert(npl.drop_last() =~= pl.drop_last());
                assert(npl.last() =~= v@.subrange(start as int, i + 1));
            }
        }
        i = i + 1;
    }
    let piece = crate::strs::string_of(&v, start, n);
    let t = crate::slash::trim(piece.as_str());
    let tc = crate::strs::chars_of(t.as_str());
    if tc.len() > 0 {
        insert_ordered(&mut names, tc);
    }
    proof {
        let pl = split_lines(v@.take(n as int));
        assert(v@.take(n as int) =~= v@);
        assert(pl.drop_last() =~= pl.subrange(0, pl.len() - 1));
        broadcast use vstd::seq_lib::group_to_multiset_ensures;
        if tc@.len() > 0 {
            assert(nonblank_trimmed(pl) == nonblank_trimmed(pl.drop_last()).push(tc@));
        }
    }
    let mut r: Vec<String> = Vec::new();
    let mut k: usize = 0;
    while k < names.len()
        invariant
            k <= names@.len(),
            r@.map_values(|e: String| e@) =~= names@.map_values(|e: Vec<char>| e@).take(k as int),
        decreases names@.len() - k,
    {
        let s = crate::strs::string_of(&names[k], 0, names[k].len());
        proof {
            assert(names[k as int]@.subrange(0, names[k as int]@.len() as int) =~= names[k as int]@);
        }
        let ghost before = r@;
        r.push(s);
        proof {
            assert(r@ == before.push(s));
            assert(s@ == names@.map_values(|e: Vec<char>| e@)[k as int]);
            let rm = r@.map_values(|e: String| e@);
            let nm = names@.map_values(|e: Vec<char>| e@);
            let bm = before.map_values(|e: String| e@);
            assert(bm.len() == k);
            assert(rm.len() == k + 1);
            assert forall|j: int| 0 <= j < k + 1 implies #[trigger] rm[j] == nm[j] by {
                if j < k {
                    assert(r@[j] == before[j]);
                    assert(rm[j] == bm[j]);
                    assert(bm[j] == nm.take(k as int)[j]);
                }
            }
            assert(rm =~= nm.take(k + 1));
        }
        k = k + 1;
    }
    assert(names@.map_values(|e: Vec<char>| e@).take(names@.len() as int) =~= names@.map_values(
        |e: Vec<char>| e@,
    ));
    r
}

/// `s` without its trailing `*` characters (git marks the current branch
/// that way in the status bar's cache).
pub open spec fn without_trailing_stars(s: Seq<char>) -> Seq<char> {
    s.take(s.len() - trail_count(s, |c: char| c == '*'))
}

/// The picker's label for branch `b`: indented, and marked with a check
/// mark when it is the current branch.
pub open spec fn branch_label(b: Seq<char>, current: Seq<char>) -> Seq<char> {
    if b == without_trailing_stars(current) {
        "  "@ + b + "  "@ + seq!['\u{2713}']
    } else {
        "  "@ + b
    }
}

/// The branch picker's rows for `branches`, with `current` the branch the
/// status bar last read (empty when unknown); `None` when there are no
/// branches, and the picker closes.
pub fn branch_picker_labels(branches: &[String], current: &str) -> (r: Option<Vec<String>>)
    ensures
        r is None <==> branches@.len() == 0,
        r matches Some(v) ==> v@.len() == branches@.len() && forall|i: int|
            0 <= i < v@.len() ==> #[trigger] v@[i]@ == branch_label(branches@[i]@, current@),
{
    if branches.len() == 0 {
        return None;
    }
    let cv = crate::strs::chars_of(current);
    let mut end: usize = cv.len();
    while end > 0 && cv[end - 1] == '*'
        invariant
            end <= cv@.len(),
            forall|i: int| end <= i < cv@.len() ==> #[trigger] cv@[i] == '*',
        decreases end,
    {
        end = end - 1;
    }
    proof {
        crate::slash::lemma_trail_count_char(cv@, |c: char| c == '*', cv@.len() - end);
    }
    let cur = crate::strs::string_of(&cv, 0, end);
    assert(cur@ == without_trailing_stars(current@));
    let mut out: Vec<String> = Vec::new();
    let mut i: usize = 0;
    while i < branches.len()
        invariant
            i <= branches@.len(),
            cur@ == without_trailing_stars(current@),
            out@.len() == i,
            forall|j: int| 0 <= j < i ==> #[trigger] out@[j]@ == branch_label(branches@[j]@, current@),
        decreases branches@.len() - i,
    {
        let b = branches[i].as_str();
        let mut label = String::from_str("  ");
        label.append(b);
        if crate::strs::str_eq(b, cur.as_str()) {
            label.append("  ");
            crate::text::push_char(&mut label, '\u{2713}');
        }
        out.push(label);
        i = i + 1;
    }
    Some(out)
}

} // verus!
