//! Assembling the visible terminal grid for painting: placing each visible
//! cell into its row (padding skipped columns with blanks), testing cells
//! against the selection, and cutting the rows into shaping runs that
//! change only where bold or italic changes.

use vstd::prelude::*;
use crate::text::push_char;

verus! {

/// A grid position: buffer line (negative in scrollback) and column.
#[derive(Debug, Clone, Copy, PartialEq, Eq, Structural)]
pub struct GridPoint {
    pub line: i32,
    pub column: usize,
}

/// A selected range: from `start` to `end` inclusive in reading order, or,
/// for a block selection, the rectangle they span.
#[derive(Debug, Clone, Copy, PartialEq, Eq, Structural)]
pub struct SelRange {
    pub start: GridPoint,
    pub end: GridPoint,
    pub is_block: bool,
}

/// Reading order of grid points: by line, then by column.
pub open spec fn point_le(a: GridPoint, b: GridPoint) -> bool {
    a.line < b.line || (a.line == b.line && a.column <= b.column)
}

pub open spec fn selected(range: Option<SelRange>, p: GridPoint) -> bool {
    match range {
        None => false,
        Some(r) => if r.is_block {
            r.start.line <= p.line && p.line <= r.end.line && r.start.column <= p.column && p.column
                <= r.end.column
        } else {
            point_le(r.start, p) && point_le(p, r.end)
        },
    }
}

/// A block selection is the rectangle its corners span: a cell is selected
/// exactly when its line lies between the start and end lines and its
/// column between the start and end columns, so a cell left of the start
/// column or right of the end column never is. On a single line, a block
/// selection and a reading-order selection with the same corners hold the
/// same cells. A reading-order selection holds every cell of the lines
/// strictly between its ends, and on its first line exactly the cells from
/// the start column on.
pub proof fn lemma_selection_shape(r: SelRange, p: GridPoint)
    ensures
        r.is_block ==> (selected(Some(r), p) <==> (r.start.line <= p.line <= r.end.line
            && r.start.column <= p.column <= r.end.column)),
        r.is_block && (p.column < r.start.column || p.column > r.end.column) ==> !selected(Some(r), p),
        r.start.line == r.end.line ==> selected(Some(SelRange { is_block: true, ..r }), p) == selected(
            Some(SelRange { is_block: false, ..r }),
            p,
        ),
        !r.is_block && r.start.line < p.line < r.end.line ==> selected(Some(r), p),
        !r.is_block && p.line == r.start.line && p.line < r.end.line ==> (selected(Some(r), p) <==> p.column
            >= r.start.column),
        !r.is_block && (p.line < r.start.line || p.line > r.end.line) ==> !selected(Some(r), p),
        !selected(None, p),
{
}

fn point_le_exec(a: GridPoint, b: GridPoint) -> (r: bool)
    ensures
        r == point_le(a, b),
{
    a.line < b.line || (a.line == b.line && a.column <= b.column)
}

/// Whether cell `p` is inside the selection.
pub fn in_selection(range: Option<SelRange>, p: GridPoint) -> (r: bool)
    ensures
        r == selected(range, p),
{
    match range {
        None => false,
        Some(r) => {
            if r.is_block {
                r.start.line <= p.line && p.line <= r.end.line && r.start.column <= p.column
                    && p.column <= r.end.column
            } else {
                point_le_exec(r.start, p) && point_le_exec(p, r.end)
            }
        },
    }
}

/// The text of each visible row, one character per cell, with a payload
/// (colors and style) per character.
pub struct GridText<T> {
    pub rows: Vec<Vec<char>>,
    pub cells: Vec<Vec<T>>,
}

impl<T: Copy> GridText<T> {
    /// Rows and payloads line up character for character.
    pub open spec fn wf(&self) -> bool {
        &&& self.rows@.len() == self.cells@.len()
        &&& forall|r: int| 0 <= r < self.rows@.len() ==> #[trigger] self.rows@[r]@.len() == self.cells@[r]@.len()
    }

    /// `n` empty rows.
    pub fn new(n: usize) -> (g: Self)
        ensures
            g.wf(),
            g.rows@.len() == n,
            forall|r: int| 0 <= r < n ==> #[trigger] g.rows@[r]@.len() == 0,
    {
        let mut rows: Vec<Vec<char>> = Vec::new();
        let mut cells: Vec<Vec<T>> = Vec::new();
        let mut i: usize = 0;
        while i < n
            invariant
                i <= n,
                rows@.len() == i,
                cells@.len() == i,
                forall|r: int| 0 <= r < i ==> #[trigger] rows@[r]@.len() == 0,
                forall|r: int| 0 <= r < i ==> #[trigger] cells@[r]@.len() == 0,
            decreases n - i,
        {
            rows.push(Vec::new());
            cells.push(Vec::new());
            i = i + 1;
        }
        GridText { rows, cells }
    }

    /// Put character `c` with `payload` into row `row` at column `col`:
    /// blanks carrying `blank` first fill the row up to `col`, then the
    /// character follows whatever the row already holds.
    pub fn place(&mut self, row: usize, col: usize, c: char, blank: T, payload: T)
        requires
            old(self).wf(),
            row < old(self).rows@.len(),
        ensures
            final(self).wf(),
            final(self).rows@.len() == old(self).rows@.len(),
            ({
                let before = old(self).rows@[row as int]@;
                let pad = if before.len() < col { col - before.len() } else { 0 };
                &&& final(self).rows@[row as int]@ == before + Seq::new(pad as nat, |_i: int| ' ') + seq![c]
                &&& final(self).cells@[row as int]@ == old(self).cells@[row as int]@ + Seq::new(
                    pad as nat,
                    |_i: int| blank,
                ) + seq![payload]
            }),
            forall|r: int|
                0 <= r < old(self).rows@.len() && r != row ==> #[trigger] final(self).rows@[r] == old(self).rows@[r]
                    && final(self).cells@[r] == old(self).cells@[r],
    {
        let mut text: Vec<char> = Vec::new();
        std::mem::swap(&mut text, &mut self.rows[row]);
        let mut styles: Vec<T> = Vec::new();
        std::mem::swap(&mut styles, &mut self.cells[row]);
        let ghost t0 = text@;
        let ghost s0 = styles@;
        assert(t0.len() == s0.len()) by {
            assert(old(self).rows@[row as int]@.len() == old(self).cells@[row as int]@.len());
        }
        let mut k: usize = 0;
        let start = text.len();
        while text.len() < col
            invariant
                text@.len() == styles@.len(),
                text@.len() == start + k,
                start == t0.len(),
                text@.len() <= col || k == 0,
                text@ == t0 + Seq::new(k as nat, |_i: int| ' '),
                styles@ == s0 + Seq::new(k as nat, |_i: int| blank),
            decreases col - text@.len(),
        {
            text.push(' ');
            styles.push(blank);
            k = k + 1;
            assert(text@ =~= t0 + Seq::new(k as nat, |_i: int| ' '));
            assert(styles@ =~= s0 + Seq::new(k as nat, |_i: int| blank));
        }
        text.push(c);
        styles.push(payload);
        self.rows.set(row, text);
        self.cells.set(row, styles);
    }

    /// Row `row` as a string.
    pub fn row_string(&self, row: usize) -> (s: String)
        requires
            row < self.rows@.len(),
        ensures
            s@ == self.rows@[row as int]@,
    {
        let chars = &self.rows[row];
        let mut s = String::new();
        let mut i: usize = 0;
        while i < chars.len()
            invariant
                i <= chars@.len(),
                chars@ == self.rows@[row as int]@,
                s@ == chars@.take(i as int),
            decreases chars@.len() - i,
        {
            push_char(&mut s, chars[i]);
            i = i + 1;
            assert(s@ =~= chars@.take(i as int));
        }
        assert(chars@.take(chars@.len() as int) =~= chars@);
        s
    }
}

/// Bold and italic, the only style that splits a shaping run.
pub type StyleKey = (bool, bool);

/// One item of the text to shape: a character and its style key, or a row
/// break (`'\n'` with no key).
pub type ShapeItem = (char, Option<StyleKey>);

/// The characters of one row with their keys; a character past the end
/// of `keys` is plain (not bold, not italic).
pub open spec fn row_items(row: Seq<char>, keys: Seq<StyleKey>) -> Seq<ShapeItem> {
    Seq::new(row.len(), |i: int| (row[i], Some(if i < keys.len() { keys[i] } else { (false, false) })))
}

/// The whole grid as one item sequence: the rows in order, each of the
/// first `n_rows - 1` rows followed by a row break.
pub open spec fn grid_items(rows: Seq<Seq<char>>, keys: Seq<Seq<StyleKey>>, n_rows: nat) -> Seq<ShapeItem>
    decreases rows.len(),
{
    if rows.len() == 0 {
        Seq::empty()
    } else {
        let r = rows.len() - 1;
        grid_items(rows.drop_last(), keys, n_rows) + row_items(rows.last(), keys[r]) + (if r + 1 < n_rows {
            seq![('\n', None)]
        } else {
            Seq::empty()
        })
    }
}

/// The runs of `items`: a new run starts at each character whose key
/// differs from the key of the run in progress; row breaks, and the
/// characters of an unchanged key, extend the run in progress. The first
/// run takes the key of the first character (`None` while there is none).
pub open spec fn runs_spec(items: Seq<ShapeItem>) -> Seq<(Seq<char>, Option<StyleKey>)>
    decreases items.len(),
{
    if items.len() == 0 {
        seq![(Seq::empty(), None)]
    } else {
        let prev = runs_spec(items.drop_last());
        let x = items.last();
        let li = prev.len() - 1;
        let last = prev[li];
        match x.1 {
            None => prev.update(li, (last.0.push(x.0), last.1)),
            Some(key) => if last.1 is Some && last.1 != Some(key) {
                prev.push((seq![x.0], Some(key)))
            } else {
                prev.update(li, (last.0.push(x.0), Some(key)))
            },
        }
    }
}

proof fn lemma_runs_nonempty(items: Seq<ShapeItem>)
    ensures
        runs_spec(items).len() >= 1,
        forall|i: int| 0 <= i < runs_spec(items).len() - 1 ==> (#[trigger] runs_spec(items)[i]).1 is Some,
    decreases items.len(),
{
    if items.len() > 0 {
        lemma_runs_nonempty(items.drop_last());
    }
}

spec fn runs_match(spans: Seq<(String, StyleKey)>, text: Seq<char>, key: Option<StyleKey>, runs: Seq<(Seq<char>, Option<StyleKey>)>) -> bool {
    &&& runs.len() == spans.len() + 1
    &&& forall|i: int| 0 <= i < spans.len() ==> (#[trigger] spans[i]).0@ == runs[i].0 && runs[i].1 == Some(spans[i].1)
    &&& text == runs[spans.len() as int].0
    &&& key == runs[spans.len() as int].1
}

/// Cut the grid into shaping runs: one run per stretch of equal (bold,
/// italic), rows joined by `'\n'` (after each of the first `n_rows - 1`
/// rows). A run with no character at all is plain.
pub fn shaping_runs(rows: &[Vec<char>], keys: &[Vec<StyleKey>], n_rows: usize) -> (r: Vec<(String, StyleKey)>)
    requires
        keys@.len() >= rows@.len(),
    ensures
        ({
            let runs = runs_spec(grid_items(rows@.map_values(|v: Vec<char>| v@), keys@.map_values(|v: Vec<StyleKey>| v@), n_rows as nat));
            &&& r@.len() == runs.len()
            &&& forall|i: int| 0 <= i < runs.len() ==> (#[trigger] r@[i]).0@ == runs[i].0 && r@[i].1 == (match runs[i].1 {
                Some(k) => k,
                None => (false, false),
            })
        }),
{
    let ghost rv = rows@.map_values(|v: Vec<char>| v@);
    let ghost kv = keys@.map_values(|v: Vec<StyleKey>| v@);
    let mut spans: Vec<(String, StyleKey)> = Vec::new();
    let mut span_text = String::new();
    let mut span_key: Option<StyleKey> = None;
    let mut r: usize = 0;
    proof {
        assert(rv.take(0) =~= Seq::<Seq<char>>::empty());
        assert(runs_spec(grid_items(rv.take(0), kv, n_rows as nat)) =~= seq![(Seq::<char>::empty(), None::<StyleKey>)]);
    }
    while r < rows.len()
        invariant
            r <= rows@.len(),
            keys@.len() >= rows@.len(),
            rv == rows@.map_values(|v: Vec<char>| v@),
            kv == keys@.map_values(|v: Vec<StyleKey>| v@),
            runs_match(spans@, span_text@, span_key, runs_spec(grid_items(rv.take(r as int), kv, n_rows as nat))),
        decreases rows@.len() - r,
    {
        let row = &rows[r];
        let row_keys = &keys[r];
        let ghost base = grid_items(rv.take(r as int), kv, n_rows as nat);
        let ghost ri = row_items(rv[r as int], kv[r as int]);
        let mut i: usize = 0;
        assert(base + ri.take(0) =~= base);
        while i < row.len()
            invariant
                i <= row@.len(),
                row@ == rv[r as int],
                row_keys@ == kv[r as int],
                ri == row_items(rv[r as int], kv[r as int]),
                runs_match(spans@, span_text@, span_key, runs_spec(base + ri.take(i as int))),
            decreases row@.len() - i,
        {
            let ch = row[i];
            let key: StyleKey = if i < row_keys.len() { row_keys[i] } else { (false, false) };
            let ghost before = base + ri.take(i as int);
            proof {
                assert((base + ri.take(i + 1)).drop_last() =~= before);
                assert((base + ri.take(i + 1)).last() == (ch, Some(key)));
                lemma_runs_nonempty(before);
            }
            match span_key {
                Some(prev_key) => {
                    if prev_key.0 != key.0 || prev_key.1 != key.1 {
                        let done = span_text;
                        span_text = String::new();
                        spans.push((done, prev_key));
                    }
                },
                None => {},
            }
            span_key = Some(key);
            push_char(&mut span_text, ch);
            i = i + 1;
            proof {
                let now = runs_spec(base + ri.take(i as int));
                assert(runs_match(spans@, span_text@, span_key, now));
            }
        }
        proof {
            assert(ri.take(row@.len() as int) =~= ri);
            assert(rv.take(r + 1).drop_last() =~= rv.take(r as int));
            assert(rv.take(r + 1).last() == rv[r as int]);
        }
        if r + 1 < n_rows {
            let ghost before = base + ri;
            proof {
                assert((before + seq![('\n', None::<StyleKey>)]).drop_last() =~= before);
                lemma_runs_nonempty(before);
            }
            push_char(&mut span_text, '\n');
            proof {
                assert(grid_items(rv.take(r + 1), kv, n_rows as nat) =~= before + seq![('\n', None::<StyleKey>)]);
            }
        } else {
            proof {
                assert(grid_items(rv.take(r + 1), kv, n_rows as nat) =~= base + ri);
            }
        }
        r = r + 1;
    }
    proof {
        assert(rv.take(rows@.len() as int) =~= rv);
    }
    let final_key: StyleKey = match span_key {
        Some(k) => k,
        None => (false, false),
    };
    spans.push((span_text, final_key));
    proof {
        lemma_runs_nonempty(grid_items(rv, kv, n_rows as nat));
    }
    spans
}

/// The runs' texts one after another.
pub open spec fn runs_text(runs: Seq<(Seq<char>, Option<StyleKey>)>) -> Seq<char>
    decreases runs.len(),
{
    if runs.len() == 0 {
        Seq::empty()
    } else {
        runs_text(runs.drop_last()) + runs.last().0
    }
}

proof fn lemma_runs_text_update_last(runs: Seq<(Seq<char>, Option<StyleKey>)>, t: Seq<char>, k: Option<StyleKey>)
    requires
        runs.len() >= 1,
    ensures
        runs_text(runs.update(runs.len() - 1, (t, k))) == runs_text(runs.drop_last()) + t,
{
    assert(runs.update(runs.len() - 1, (t, k)).drop_last() =~= runs.drop_last());
}

/// Cutting into runs loses, adds and reorders nothing: the runs' texts
/// spell out the items' characters in order. Neighbouring runs differ in
/// style, and only the first run can lack a key (when the text has no
/// character yet).
pub proof fn lemma_runs_partition(items: Seq<ShapeItem>)
    ensures
        runs_text(runs_spec(items)) == items.map_values(|x: ShapeItem| x.0),
        forall|i: int| 0 <= i < runs_spec(items).len() - 1 ==> (#[trigger] runs_spec(items)[i]).1 != runs_spec(items)[i + 1].1,
        forall|i: int| 1 <= i < runs_spec(items).len() ==> (#[trigger] runs_spec(items)[i]).1 is Some,
    decreases items.len(),
{
    let runs = runs_spec(items);
    if items.len() == 0 {
        assert(runs_text(runs) =~= Seq::<char>::empty()) by {
            assert(runs.drop_last() =~= Seq::<(Seq<char>, Option<StyleKey>)>::empty());
            assert(runs_text(runs.drop_last()) =~= Seq::<char>::empty());
            assert(runs.last().0 =~= Seq::<char>::empty());
        }
        assert(items.map_values(|x: ShapeItem| x.0) =~= Seq::<char>::empty());
    } else {
        let pre = items.drop_last();
        lemma_runs_partition(pre);
        lemma_runs_nonempty(pre);
        let prev = runs_spec(pre);
        let x = items.last();
        let li = prev.len() - 1;
        let last = prev[li];
        assert(items.map_values(|y: ShapeItem| y.0) =~= pre.map_values(|y: ShapeItem| y.0).push(x.0));
        assert(prev.drop_last().push(last) =~= prev);
        assert(runs_text(prev) == runs_text(prev.drop_last()) + last.0);
        match x.1 {
            None => {
                lemma_runs_text_update_last(prev, last.0.push(x.0), last.1);
                assert(runs_text(runs) =~= runs_text(prev).push(x.0));
            },
            Some(key) => {
                if last.1 is Some && last.1 != Some(key) {
                    assert(runs.drop_last() =~= prev);
                    assert(runs_text(runs) =~= runs_text(prev) + seq![x.0]);
                } else {
                    lemma_runs_text_update_last(prev, last.0.push(x.0), Some(key));
                    assert(runs_text(runs) =~= runs_text(prev).push(x.0));
                }
            },
        }
    }
}

/// A cell's (foreground, background) after inverse video and selection:
/// each of the two swaps the pair, so they cancel out when both apply.
/// Resolving palette colors commutes with the swaps, so the pair may be
/// given resolved or not.
pub fn resolve_cell_colors<T: Copy>(fg: T, bg: T, inverse: bool, in_selection: bool) -> (r: (T, T))
    ensures
        r == (if inverse != in_selection { (bg, fg) } else { (fg, bg) }),
{
    let (fg, bg) = if inverse {
        (bg, fg)
    } else {
        (fg, bg)
    };
    if in_selection {
        (bg, fg)
    } else {
        (fg, bg)
    }
}

} // verus!
