//! Laws of how a change on the screen is noticed: by a signature of what the view shows.

use vstd::arithmetic::div_mod::{
    lemma_mod_multiples_vanish, lemma_mul_mod_noop_left, lemma_small_mod,
};
use vstd::prelude::*;

use crate::color::{color_number, law_color_number_tells_colors_apart};
use crate::grid::{Cell, GridView};
use crate::search::{
    hashed_cell, hashed_cells, hashed_rows, mixed, signature, wrapping_mul_u64, FNV_PRIME,
};

verus! {

/// The number that undoes the factor of the hash.
spec fn undoing() -> int {
    14886173955864302971
}

proof fn lemma_undone(x: u64)
    ensures
        (wrapping_mul_u64(x) as int * undoing()) % 0x1_0000_0000_0000_0000 == x,
{
    let m: int = 0x1_0000_0000_0000_0000;
    let p = FNV_PRIME as int;
    let i = undoing();
    let k: int = 887285111055;
    assert(p * i == m * k + 1);
    let y = x as int * p;
    assert(0 <= y % m < m);
    lemma_mul_mod_noop_left(y, i, m);
    assert(y * i == m * (x as int * k) + x as int) by (nonlinear_arith)
        requires
            y == x as int * p,
            p * i == m * k + 1,
    ;
    lemma_mod_multiples_vanish(x as int * k, x as int, m);
    lemma_small_mod(x as nat, m as nat);
}

/// One step of the hash tells apart what went before, and what comes in.
proof fn lemma_mixed(h: u64, k: u64, v: u64, w: u64)
    ensures
        h == k && v != w ==> mixed(h, v) != mixed(k, w),
        h != k && v == w ==> mixed(h, v) != mixed(k, w),
{
    lemma_undone(h ^ v);
    lemma_undone(k ^ w);
    assert(h == k && v != w ==> h ^ v != k ^ w) by (bit_vector);
    assert(h != k && v == w ==> h ^ v != k ^ w) by (bit_vector);
}

/// Whether two cells differ in one thing: the character, the style, the color of the text or that
/// behind it.
pub open spec fn one_change(a: Cell, b: Cell) -> bool {
    ||| a.c != b.c && a.flags == b.flags && a.fg == b.fg && a.bg == b.bg
    ||| a.c == b.c && a.flags != b.flags && a.fg == b.fg && a.bg == b.bg
    ||| a.c == b.c && a.flags == b.flags && a.fg != b.fg && a.bg == b.bg
    ||| a.c == b.c && a.flags == b.flags && a.fg == b.fg && a.bg != b.bg
}

proof fn lemma_cell(h: u64, k: u64, line: i32, col: usize, a: Cell, b: Cell)
    ensures
        h == k && one_change(a, b) ==> hashed_cell(h, line, col, a) != hashed_cell(k, line, col, b),
        h != k && a == b ==> hashed_cell(h, line, col, a) != hashed_cell(k, line, col, b),
{
    let h1 = mixed(h, line as u64);
    let k1 = mixed(k, line as u64);
    lemma_mixed(h, k, line as u64, line as u64);
    let h2 = mixed(h1, col as u64);
    let k2 = mixed(k1, col as u64);
    lemma_mixed(h1, k1, col as u64, col as u64);
    let h3 = mixed(h2, a.c as u64);
    let k3 = mixed(k2, b.c as u64);
    lemma_mixed(h2, k2, a.c as u64, b.c as u64);
    let h4 = mixed(h3, a.flags as u64);
    let k4 = mixed(k3, b.flags as u64);
    lemma_mixed(h3, k3, a.flags as u64, b.flags as u64);
    let h5 = mixed(h4, color_number(a.fg));
    let k5 = mixed(k4, color_number(b.fg));
    lemma_mixed(h4, k4, color_number(a.fg), color_number(b.fg));
    lemma_mixed(h5, k5, color_number(a.bg), color_number(b.bg));
    if a.fg != b.fg && color_number(a.fg) == color_number(b.fg) {
        law_color_number_tells_colors_apart(a.fg, b.fg);
    }
    if a.bg != b.bg && color_number(a.bg) == color_number(b.bg) {
        law_color_number_tells_colors_apart(a.bg, b.bg);
    }
}

/// Whether two grids show the same cells in a row, but for one column where that is given.
spec fn same_row(g: GridView, f: GridView, row: int, but: int) -> bool {
    &&& g.offset == f.offset
    &&& g.cols == f.cols
    &&& forall|c: int|
        0 <= c < g.cols && c != but ==> #[trigger] g.cell(row, c) == f.cell(row, c)
}

proof fn lemma_cells(h: u64, k: u64, g: GridView, f: GridView, row: int, cols: int, but: int)
    requires
        same_row(g, f, row, but),
        cols <= g.cols,
        but < 0 || (0 <= but < g.cols && h == k && one_change(g.cell(row, but), f.cell(row, but))),
    ensures
        h == k && (but < 0 || cols <= but) ==> hashed_cells(h, g, row, cols) == hashed_cells(
            k,
            f,
            row,
            cols,
        ),
        h != k && but < 0 ==> hashed_cells(h, g, row, cols) != hashed_cells(k, f, row, cols),
        0 <= but < cols ==> hashed_cells(h, g, row, cols) != hashed_cells(k, f, row, cols),
    decreases cols,
{
    if cols > 0 {
        lemma_cells(h, k, g, f, row, cols - 1, but);
        let a = g.cell(row, cols - 1);
        let b = f.cell(row, cols - 1);
        lemma_cell(
            hashed_cells(h, g, row, cols - 1),
            hashed_cells(k, f, row, cols - 1),
            g.line_of(row) as i32,
            (cols - 1) as usize,
            a,
            b,
        );
        assert(g.line_of(row) == f.line_of(row));
        if cols - 1 != but {
            assert(a == b);
        }
    }
}

/// Whether two grids show the same, but for one cell where that is given.
pub open spec fn same_view(g: GridView, f: GridView, row: int, col: int) -> bool {
    &&& g.rows == f.rows && g.cols == f.cols && g.offset == f.offset
    &&& forall|r: int, c: int|
        0 <= r < g.rows && 0 <= c < g.cols && !(r == row && c == col) ==> #[trigger] g.cell(r, c)
            == f.cell(r, c)
}

proof fn lemma_rows(g: GridView, f: GridView, rows: int, row: int, col: int)
    requires
        same_view(g, f, row, col),
        rows <= g.rows,
        row < 0 || (0 <= row < g.rows && 0 <= col < g.cols && one_change(
            g.cell(row, col),
            f.cell(row, col),
        )),
    ensures
        row < 0 || rows <= row ==> hashed_rows(g, rows) == hashed_rows(f, rows),
        0 <= row < rows ==> hashed_rows(g, rows) != hashed_rows(f, rows),
    decreases rows,
{
    if rows > 0 {
        lemma_rows(g, f, rows - 1, row, col);
        let but = if rows - 1 == row {
            col
        } else {
            -1
        };
        assert(same_row(g, f, rows - 1, but));
        lemma_cells(
            hashed_rows(g, rows - 1),
            hashed_rows(f, rows - 1),
            g,
            f,
            rows - 1,
            g.cols as int,
            but,
        );
    }
}

/// Whatever is drawn in place is noticed: where one cell of the view takes another character,
/// another style or another color, the signature changes.
pub proof fn law_changed_cell_is_noticed(g: GridView, f: GridView, row: int, col: int)
    requires
        same_view(g, f, row, col),
        0 <= row < g.rows,
        0 <= col < g.cols,
        one_change(g.cell(row, col), f.cell(row, col)),
        g.cursor_line == f.cursor_line,
        g.cursor_col == f.cursor_col,
    ensures
        signature(g) != signature(f),
{
    lemma_rows(g, f, g.rows as int, row, col);
    let h = hashed_rows(g, g.rows as int);
    let k = hashed_rows(f, f.rows as int);
    let line = g.cursor_line as i32 as u64;
    let at = g.cursor_col as usize as u64;
    lemma_mixed(h, k, line, line);
    lemma_mixed(mixed(h, line), mixed(k, line), at, at);
}

/// A cursor that moves along its line is noticed, and so is one that moves to another line.
pub proof fn law_moved_cursor_is_noticed(g: GridView, f: GridView)
    requires
        same_view(g, f, -1, -1),
        0 <= g.cursor_line <= i32::MAX,
        0 <= f.cursor_line <= i32::MAX,
        0 <= g.cursor_col <= usize::MAX,
        0 <= f.cursor_col <= usize::MAX,
        (g.cursor_line == f.cursor_line) != (g.cursor_col == f.cursor_col),
    ensures
        signature(g) != signature(f),
{
    lemma_rows(g, f, g.rows as int, -1, -1);
    let h = hashed_rows(g, g.rows as int);
    let (a, b) = (g.cursor_line as i32 as u64, f.cursor_line as i32 as u64);
    let (c, d) = (g.cursor_col as usize as u64, f.cursor_col as usize as u64);
    lemma_mixed(h, h, a, b);
    lemma_mixed(mixed(h, a), mixed(h, b), c, d);
}

/// A view that shows what it showed, with the cursor where it was, is not taken for a change.
pub proof fn law_unchanged_view_is_passed_over(g: GridView, f: GridView)
    requires
        same_view(g, f, -1, -1),
        g.cursor_line == f.cursor_line,
        g.cursor_col == f.cursor_col,
    ensures
        signature(g) == signature(f),
{
    lemma_rows(g, f, g.rows as int, -1, -1);
}

} // verus!
