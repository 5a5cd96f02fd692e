//! Search-match highlighting for the terminal grid: the matches of the
//! in-terminal search are indexed by grid line once per frame, so that each
//! painted cell asks only the spans of its own line whether it is inside a
//! match, and whether that match is the current one.

use vstd::prelude::*;
use std::collections::HashMap;
use rustc_hash::{FxBuildHasher, FxHashMap};

verus! {

/// The Fx hasher builder of `rustc_hash`, the index's hasher.
#[verifier::external_type_specification]
#[verifier::external_body]
pub struct ExFxBuildHasher(FxBuildHasher);

/// One search match: `len` cells starting at column `col` of buffer line
/// `grid_line`.
#[derive(Debug, Clone, Copy, PartialEq, Eq, Structural)]
pub struct SearchMatch {
    pub grid_line: i32,
    pub col: usize,
    pub len: usize,
}

/// A match's columns on its line, `start..end`, and whether it is the
/// current match.
pub type MatchSpan = (usize, usize, bool);

/// Search-match spans by buffer line.
pub type SearchIndex = FxHashMap<i32, Vec<MatchSpan>>;

/// The spans of each line, as sequences.
pub open spec fn spans_by_line(m: Map<i32, Vec<MatchSpan>>) -> Map<i32, Seq<MatchSpan>> {
    Map::new(|k: i32| m.contains_key(k), |k: i32| m[k]@)
}

/// The index of `matches`: each line maps to the spans of the matches on
/// it, in match order; the match at position `current` is the current one.
pub open spec fn index_spec(matches: Seq<SearchMatch>, current: int) -> Map<i32, Seq<MatchSpan>>
    decreases matches.len(),
{
    if matches.len() == 0 {
        Map::empty()
    } else {
        let prev = index_spec(matches.drop_last(), current);
        let m = matches.last();
        let span: MatchSpan = (m.col, (m.col + m.len) as usize, matches.len() - 1 == current);
        let before = if prev.contains_key(m.grid_line) { prev[m.grid_line] } else { Seq::empty() };
        prev.insert(m.grid_line, before.push(span))
    }
}

/// Whether the first span of `spans` that covers `col` is current, or
/// `None` when no span covers it.
pub open spec fn first_cover(spans: Seq<MatchSpan>, col: usize) -> Option<bool>
    decreases spans.len(),
{
    if spans.len() == 0 {
        None
    } else if spans[0].0 <= col && col < spans[0].1 {
        Some(spans[0].2)
    } else {
        first_cover(spans.drop_first(), col)
    }
}

/// Remove and return the spans of `line` (`HashMap::remove`).
#[verifier::external_body]
fn take_line(idx: &mut SearchIndex, line: i32) -> (r: Option<Vec<MatchSpan>>)
    ensures
        final(idx)@ == old(idx)@.remove(line),
        r == (if old(idx)@.contains_key(line) { Some(old(idx)@[line]) } else { None::<Vec<MatchSpan>> }),
{
    idx.remove(&line)
}

/// Set the spans of `line` (`HashMap::insert`).
#[verifier::external_body]
fn put_line(idx: &mut SearchIndex, line: i32, spans: Vec<MatchSpan>)
    ensures
        final(idx)@ == old(idx)@.insert(line, spans),
{
    idx.insert(line, spans);
}

/// The spans of `line`, if it has any entry (`HashMap::get`).
#[verifier::external_body]
fn line_spans(idx: &SearchIndex, line: i32) -> (r: Option<&Vec<MatchSpan>>)
    ensures
        match r {
            Some(v) => idx@.contains_key(line) && *v == idx@[line],
            None => !idx@.contains_key(line),
        },
{
    idx.get(&line)
}

/// Index the matches of a search by line; the match at position `current`
/// is the current one. No search gives an empty index.
pub fn build_search_index(search: Option<(&[SearchMatch], usize)>) -> (r: SearchIndex)
    requires
        search matches Some((ms, _)) ==> forall|i: int|
            0 <= i < ms@.len() ==> #[trigger] ms@[i].col + ms@[i].len <= usize::MAX,
    ensures
        spans_by_line(r@) == (match search {
            Some((ms, current)) => index_spec(ms@, current as int),
            None => Map::<i32, Seq<MatchSpan>>::empty(),
        }),
{
    let mut idx: SearchIndex = FxHashMap::default();
    match search {
        None => {
            assert(spans_by_line(idx@) =~= Map::<i32, Seq<MatchSpan>>::empty());
            idx
        },
        Some((matches, current)) => {
            let mut i: usize = 0;
            assert(spans_by_line(idx@) =~= index_spec(matches@.take(0), current as int));
            while i < matches.len()
                invariant
                    i <= matches@.len(),
                    forall|j: int| 0 <= j < matches@.len() ==> #[trigger] matches@[j].col + matches@[j].len <= usize::MAX,
                    spans_by_line(idx@) == index_spec(matches@.take(i as int), current as int),
                decreases matches@.len() - i,
            {
                let m = matches[i];
                let ghost before = idx@;
                let mut spans = match take_line(&mut idx, m.grid_line) {
                    Some(v) => v,
                    None => Vec::new(),
                };
                spans.push((m.col, m.col + m.len, i == current));
                put_line(&mut idx, m.grid_line, spans);
                proof {
                    let next = matches@.take(i + 1);
                    assert(next.drop_last() =~= matches@.take(i as int));
                    assert(next.last() == m);
                    assert(spans_by_line(idx@) =~= index_spec(next, current as int));
                }
                i = i + 1;
            }
            assert(matches@.take(matches@.len() as int) =~= matches@);
            idx
        },
    }
}

/// Whether cell (`line`, `col`) is inside a match, and if so whether the
/// first match covering it is the current one.
pub fn search_highlight_at(line: i32, col: usize, idx: &SearchIndex) -> (r: Option<bool>)
    ensures
        r == first_cover(if idx@.contains_key(line) { idx@[line]@ } else { Seq::empty() }, col),
{
    let spans = match line_spans(idx, line) {
        Some(v) => v,
        None => {
            return None;
        },
    };
    let ghost s = spans@;
    let mut i: usize = 0;
    assert(s.skip(0) =~= s);
    while i < spans.len()
        invariant
            i <= s.len(),
            s == spans@,
            idx@.contains_key(line),
            s == idx@[line]@,
            first_cover(s, col) == first_cover(s.skip(i as int), col),
        decreases s.len() - i,
    {
        let (start, end, current) = spans[i];
        proof {
            assert(s.skip(i as int)[0] == s[i as int]);
            assert(s.skip(i as int).drop_first() =~= s.skip(i + 1));
        }
        if col >= start && col < end {
            assert(first_cover(s.skip(i as int), col) == Some(current));
            return Some(current);
        }
        i = i + 1;
    }
    proof {
        assert(s.skip(i as int).len() == 0);
    }
    None
}

/// Whether a new query can be answered by narrowing the previous matches
/// instead of searching the whole terminal again: there were matches, the
/// list was complete, and the new query extends a non-empty previous one.
pub fn can_refine_search(has_matches: bool, truncated: bool, query: &str, prev_query: &str) -> (r: bool)
    ensures
        r == (has_matches && !truncated && prev_query@.len() > 0 && prev_query@.len() <= query@.len()
            && query@.subrange(0, prev_query@.len() as int) == prev_query@),
{
    if !has_matches || truncated {
        return false;
    }
    let q = crate::strs::chars_of(query);
    let p = crate::strs::chars_of(prev_query);
    if p.len() == 0 || p.len() > q.len() {
        return false;
    }
    let mut i: usize = 0;
    while i < p.len()
        invariant
            i <= p@.len(),
            p@.len() <= q@.len(),
            q@ == query@,
            p@ == prev_query@,
            has_matches && !truncated,
            forall|j: int| 0 <= j < i ==> q@[j] == p@[j],
        decreases p@.len() - i,
    {
        if q[i] != p[i] {
            assert(q@.subrange(0, p@.len() as int)[i as int] != p@[i as int]);
            return false;
        }
        i = i + 1;
    }
    assert(q@.subrange(0, p@.len() as int) =~= p@);
    true
}

/// The viewport offset that brings a match on buffer line `grid_line`
/// to the middle of a `screen_rows`-row screen: half the screen above the
/// line, never below the live bottom.
pub open spec fn centering_offset(screen_rows: i32, grid_line: i32) -> int {
    let t = screen_rows / 2 - grid_line;
    if t < 0 {
        0
    } else {
        t
    }
}

/// Lines to scroll (positive toward history) to center a match on
/// `grid_line` when the view is `display_offset` lines back.
pub fn scroll_to_match(display_offset: usize, screen_rows: i32, grid_line: i32) -> (r: i64)
    requires
        screen_rows >= 0,
        display_offset <= i32::MAX,
        i32::MIN <= screen_rows / 2 - grid_line <= i32::MAX,
    ensures
        r == centering_offset(screen_rows, grid_line) - display_offset,
{
    let half: i32 = screen_rows / 2;
    let t: i64 = half as i64 - grid_line as i64;
    let target: i64 = if t < 0 { 0 } else { t };
    target - display_offset as i64
}

/// Whether match `m` covers column `col` of buffer line `line`.
pub open spec fn covers(m: SearchMatch, line: i32, col: usize) -> bool {
    m.grid_line == line && m.col <= col && col < m.col + m.len
}

/// The spans recorded for `line`, none if it has no entry.
pub open spec fn spans_of(index: Map<i32, Seq<MatchSpan>>, line: i32) -> Seq<MatchSpan> {
    if index.contains_key(line) {
        index[line]
    } else {
        Seq::empty()
    }
}

proof fn lemma_first_cover_push(s: Seq<MatchSpan>, x: MatchSpan, col: usize)
    ensures
        first_cover(s.push(x), col) == (if first_cover(s, col) is Some {
            first_cover(s, col)
        } else if x.0 <= col && col < x.1 {
            Some(x.2)
        } else {
            None
        }),
    decreases s.len(),
{
    if s.len() == 0 {
        assert(s.push(x)[0] == x);
        assert(s.push(x).drop_first() =~= Seq::<MatchSpan>::empty());
        assert(first_cover(Seq::<MatchSpan>::empty(), col) is None);
    } else {
        assert(s.push(x)[0] == s[0]);
        assert(s.push(x).drop_first() =~= s.drop_first().push(x));
        lemma_first_cover_push(s.drop_first(), x, col);
    }
}

/// Looking a cell up in the line index agrees with scanning every match: a
/// cell that no match covers is not highlighted, and a covered cell is
/// highlighted as current exactly when the first match (in match order)
/// covering it is the current one.
pub proof fn lemma_index_lookup(matches: Seq<SearchMatch>, current: int, line: i32, col: usize)
    requires
        forall|i: int| 0 <= i < matches.len() ==> #[trigger] matches[i].col + matches[i].len <= usize::MAX,
    ensures
        (forall|i: int| 0 <= i < matches.len() ==> !#[trigger] covers(matches[i], line, col))
            ==> first_cover(spans_of(index_spec(matches, current), line), col) is None,
        forall|i: int|
            0 <= i < matches.len() && #[trigger] covers(matches[i], line, col) && (forall|j: int|
                0 <= j < i ==> !#[trigger] covers(matches[j], line, col))
                ==> first_cover(spans_of(index_spec(matches, current), line), col) == Some(i == current),
    decreases matches.len(),
{
    if matches.len() > 0 {
        let prev = matches.drop_last();
        let n = matches.len() - 1;
        let m = matches.last();
        assert forall|i: int| 0 <= i < prev.len() implies #[trigger] prev[i].col + prev[i].len <= usize::MAX by {
            assert(prev[i] == matches[i]);
        }
        lemma_index_lookup(prev, current, line, col);
        let before = spans_of(index_spec(prev, current), line);
        let span: MatchSpan = (m.col, (m.col + m.len) as usize, n == current);
        if m.grid_line == line {
            assert(spans_of(index_spec(matches, current), line) == before.push(span));
            lemma_first_cover_push(before, span, col);
        } else {
            assert(spans_of(index_spec(matches, current), line) == before);
        }
        assert forall|i: int|
            0 <= i < matches.len() && #[trigger] covers(matches[i], line, col) && (forall|j: int|
                0 <= j < i ==> !#[trigger] covers(matches[j], line, col))
            implies first_cover(spans_of(index_spec(matches, current), line), col) == Some(i == current) by {
            if i < n {
                assert(prev[i] == matches[i]);
                assert forall|j: int| 0 <= j < i implies !#[trigger] covers(prev[j], line, col) by {
                    assert(prev[j] == matches[j]);
                }
            } else {
                assert forall|j: int| 0 <= j < prev.len() implies !#[trigger] covers(prev[j], line, col) by {
                    assert(prev[j] == matches[j]);
                }
            }
        }
        if forall|i: int| 0 <= i < matches.len() ==> !#[trigger] covers(matches[i], line, col) {
            assert forall|j: int| 0 <= j < prev.len() implies !#[trigger] covers(prev[j], line, col) by {
                assert(prev[j] == matches[j]);
            }
            assert(!covers(matches[n], line, col));
        }
    }
}

} // verus!
