//! Plain text read off the terminal screen: rows of cells become lines
//! without trailing blanks, joined by line breaks. The caller reads the
//! cells out of the terminal grid.

use vstd::prelude::*;
use crate::slash::{is_ws, is_ws_char, join_lines, lemma_trail_count_char, trail_count, trim, trim_spec};
use crate::text::push_char;

verus! {

/// An empty cell reads as a space.
pub open spec fn cell_char(c: char) -> char {
    if c == '\0' {
        ' '
    } else {
        c
    }
}

/// `s` without trailing white space.
pub open spec fn trim_end_spec(s: Seq<char>) -> Seq<char> {
    s.take(s.len() - trail_count(s, |c: char| is_ws(c)))
}

/// The text of one row of cells.
pub open spec fn row_text_spec(cells: Seq<char>) -> Seq<char> {
    trim_end_spec(cells.map_values(|c: char| cell_char(c)))
}

/// One row's text: empty cells as spaces, trailing white space dropped.
pub fn row_text(cells: &Vec<char>) -> (r: String)
    ensures
        r@ == row_text_spec(cells@),
{
    let ghost m = cells@.map_values(|c: char| cell_char(c));
    let n = cells.len();
    let mut b: usize = n;
    while b > 0
        invariant
            b <= n,
            n == cells@.len(),
            m == cells@.map_values(|c: char| cell_char(c)),
            forall|i: int| b <= i < n ==> is_ws(#[trigger] m[i]),
        ensures
            b <= n,
            forall|i: int| b <= i < n ==> is_ws(#[trigger] m[i]),
            b > 0 ==> !is_ws(m[b - 1]),
        decreases b,
    {
        let c = cells[b - 1];
        let shown = if c == '\0' { ' ' } else { c };
        if !is_ws_char(shown) {
            break;
        }
        b = b - 1;
    }
    proof {
        lemma_trail_count_char(m, |c: char| is_ws(c), (n - b) as int);
    }
    let mut s = String::new();
    let mut i: usize = 0;
    while i < b
        invariant
            i <= b <= n,
            n == cells@.len(),
            m == cells@.map_values(|c: char| cell_char(c)),
            s@ == m.take(i as int),
        decreases b - i,
    {
        let c = cells[i];
        push_char(&mut s, if c == '\0' { ' ' } else { c });
        i = i + 1;
        assert(s@ =~= m.take(i as int));
    }
    s
}

/// The rows' texts joined by line breaks.
pub fn rows_text(rows: &[Vec<char>]) -> (r: String)
    ensures
        r@ == join_lines(rows@.map_values(|v: Vec<char>| row_text_spec(v@))),
{
    let ghost lines = rows@.map_values(|v: Vec<char>| row_text_spec(v@));
    let mut out = String::new();
    let mut i: usize = 0;
    assert(lines.take(0) =~= Seq::<Seq<char>>::empty());
    while i < rows.len()
        invariant
            i <= rows@.len(),
            lines == rows@.map_values(|v: Vec<char>| row_text_spec(v@)),
            out@ == join_lines(lines.take(i as int)),
        decreases rows@.len() - i,
    {
        let t = row_text(&rows[i]);
        if i > 0 {
            push_char(&mut out, '\n');
        }
        let ghost before = out@;
        let mut j: usize = 0;
        let tv = crate::strs::chars_of(t.as_str());
        while j < tv.len()
            invariant
                j <= tv@.len(),
                out@ == before + tv@.take(j as int),
            decreases tv@.len() - j,
        {
            push_char(&mut out, tv[j]);
            j = j + 1;
            assert(out@ =~= before + tv@.take(j as int));
        }
        proof {
            assert(tv@.take(tv@.len() as int) =~= tv@);
            assert(lines.take(i + 1).drop_last() =~= lines.take(i as int));
            assert(lines.take(i + 1).last() == lines[i as int]);
            if i > 0 {
                assert(out@ =~= join_lines(lines.take(i as int)) + "\n"@ + lines[i as int]) by {
                    reveal_strlit("\n");
                }
            } else {
                assert(lines.take(1) =~= seq![lines[0]]);
            }
        }
        i = i + 1;
    }
    assert(lines.take(rows@.len() as int) =~= lines);
    out
}

/// The last screen lines as one text, trimmed at both ends.
pub fn last_lines_text(rows: &[Vec<char>]) -> (r: String)
    ensures
        r@ == trim_spec(join_lines(rows@.map_values(|v: Vec<char>| row_text_spec(v@)))),
{
    let joined = rows_text(rows);
    trim(joined.as_str())
}

/// Rows `rows - n .. rows` of a screen, the first row at least 0.
pub fn last_rows_start(rows: usize, n: usize) -> (r: usize)
    ensures
        r == (if n >= rows { 0 } else { rows - n }),
{
    rows.saturating_sub(n)
}

/// The buffer position of viewport row `row` when the view is scrolled
/// back `display_offset` lines: its grid line (negative in scrollback) and
/// its row counted from the top of the whole buffer.
pub fn row_position(row: usize, display_offset: usize, history_size: usize) -> (r: (i64, i64))
    requires
        row <= i32::MAX,
        display_offset <= i32::MAX,
        history_size <= i64::MAX / 2,
    ensures
        r.0 == row - display_offset,
        r.1 == history_size + row - display_offset,
{
    let grid_line: i64 = row as i64 - display_offset as i64;
    (grid_line, history_size as i64 + grid_line)
}

} // verus!
