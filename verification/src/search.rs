//! Searching the scrollback, and telling whether the screen changed.

use vstd::prelude::*;
use vstd::std_specs::num::*;
use vstd::utf8::is_ascii_chars;

use crate::color::{color_key, color_number};
use crate::grid::{Cell, Find, Grid, GridView};
use crate::text::{
    ascii_lowered, chars_of, find_from, lemma_search, lowercase, lowercased, occurs, search,
    string_of,
};

verus! {

/// The width of a match, in cells: as many as the query has characters.
pub fn match_width(query: &str) -> (w: usize)
    ensures
        w == query@.len(),
{
    chars_of(query).len()
}

/// The characters of a line.
pub open spec fn line_chars(line: Seq<Cell>) -> Seq<char> {
    line.map_values(|c: Cell| c.c)
}

impl GridView {
    /// The number of the topmost line.
    pub open spec fn top(self) -> int {
        -self.history()
    }

    /// The line with a number.
    pub open spec fn line(self, l: int) -> Seq<Cell> {
        self.lines[l + self.history()]
    }
}

/// The text of a line, from the scrollback or the screen.
pub fn line_text(grid: &Grid, line: i32) -> (s: Vec<char>)
    requires
        grid.wf(),
        grid@.top() <= line < grid.rows,
    ensures
        s@ == line_chars(grid@.line(line as int)),
{
    let i: usize = (line as i64 + grid.history() as i64) as usize;
    proof {
        assert(grid@.lines[i as int] == grid.lines@[i as int]@);
    }
    let row = &grid.lines[i];
    let mut out: Vec<char> = Vec::new();
    let mut k: usize = 0;
    while k < row.len()
        invariant
            k <= row@.len(),
            out@ == line_chars(row@).take(k as int),
        decreases row@.len() - k,
    {
        out.push(row[k].c);
        proof {
            assert(out@ =~= line_chars(row@).take(k + 1));
        }
        k = k + 1;
    }
    proof {
        assert(line_chars(row@).take(k as int) =~= line_chars(row@));
    }
    out
}

/// The cell that the `k`th character of a line's lowercase form comes from, looking from cell `c`
/// on. A character can become several when it is made small.
pub open spec fn cell_of(text: Seq<char>, c: int, k: int) -> int
    decreases text.len() - c,
{
    if c < 0 || c >= text.len() {
        c
    } else {
        let n = lowercased(seq![text[c]]).len();
        if k < n {
            c
        } else {
            cell_of(text, c + 1, k - n)
        }
    }
}

fn cell_at(text: &Vec<char>, k: usize) -> (c: usize)
    ensures
        c == cell_of(text@, 0, k as int),
{
    let mut c: usize = 0;
    let mut left: usize = k;
    while c < text.len()
        invariant
            c <= text@.len(),
            cell_of(text@, 0, k as int) == cell_of(text@, c as int, left as int),
        decreases text@.len() - c,
    {
        let mut one: Vec<char> = Vec::new();
        one.push(text[c]);
        proof {
            assert(one@ =~= seq![text@[c as int]]);
        }
        let n: usize = chars_of(lowercase(string_of(&one).as_str()).as_str()).len();
        if left < n {
            return c;
        }
        left = left - n;
        c = c + 1;
    }
    c
}

/// Where every character becomes one when made small, the character and the cell have the same
/// number.
pub proof fn law_cells_are_columns(text: Seq<char>, c: int, k: int)
    requires
        0 <= c,
        0 <= k,
        c + k < text.len(),
        forall|i: int| 0 <= i < text.len() ==> lowercased(seq![#[trigger] text[i]]).len() == 1,
    ensures
        cell_of(text, c, k) == c + k,
    decreases k,
{
    assert(lowercased(seq![text[c]]).len() == 1);
    if k > 0 {
        law_cells_are_columns(text, c + 1, k - 1);
    }
}

/// In a line in ASCII the column of a match is the place where it stands.
pub proof fn law_ascii_cells_are_columns(text: Seq<char>, k: int)
    requires
        is_ascii_chars(text),
        0 <= k < text.len(),
    ensures
        cell_of(text, 0, k) == k,
{
    assert forall|i: int| 0 <= i < text.len() implies lowercased(
        seq![#[trigger] text[i]],
    ).len() == 1 by {
        assert(is_ascii_chars(seq![text[i]]));
    }
    law_cells_are_columns(text, 0, k);
}

/// The places where `q` stands in a text, from `from` on, each search going on behind the match
/// before.
pub open spec fn hits(low: Seq<char>, q: Seq<char>, from: int) -> Seq<int>
    decreases low.len() + 1 - from,
{
    if q.len() == 0 || from < 0 || from > low.len() {
        Seq::empty()
    } else {
        match search(low, q, from) {
            Some(i) => if i >= from && i + q.len() <= low.len() {
                seq![i] + hits(low, q, i + q.len())
            } else {
                Seq::empty()
            },
            None => Seq::empty(),
        }
    }
}

/// The matches, each `width` cells wide, of a lowercase query in one line.
pub open spec fn line_finds(text: Seq<char>, line: int, q: Seq<char>, width: nat) -> Seq<Find> {
    hits(lowercased(text), q, 0).map_values(
        |k: int| (line as i32, cell_of(text, 0, k) as usize, width as usize),
    )
}

/// The matches of a query in one line.
pub open spec fn line_hits(text: Seq<char>, line: int, query: Seq<char>) -> Seq<Find> {
    line_finds(text, line, lowercased(query), query.len())
}

/// Matches do not overlap, and each is one.
pub proof fn law_hits_are_disjoint(low: Seq<char>, q: Seq<char>, from: int)
    requires
        0 <= from,
    ensures
        forall|i: int|
            0 <= i < hits(low, q, from).len() ==> from <= #[trigger] hits(low, q, from)[i] && occurs(
                low,
                q,
                hits(low, q, from)[i],
            ),
        forall|i: int, j: int|
            0 <= i < j < hits(low, q, from).len() ==> hits(low, q, from)[i] + q.len() <= hits(
                low,
                q,
                from,
            )[j],
    decreases low.len() + 1 - from,
{
    if q.len() == 0 || from > low.len() {
    } else {
        lemma_search(low, q, from);
        if let Some(k) = search(low, q, from) {
            let rest = hits(low, q, k + q.len());
            law_hits_are_disjoint(low, q, k + q.len());
            let all = hits(low, q, from);
            assert(all == seq![k] + rest);
            assert forall|i: int| 0 <= i < all.len() implies from <= #[trigger] all[i] && occurs(
                low,
                q,
                all[i],
            ) by {
                if i > 0 {
                    assert(all[i] == rest[i - 1]);
                }
            }
            assert forall|i: int, j: int| 0 <= i < j < all.len() implies all[i] + q.len()
                <= all[j] by {
                assert(all[j] == rest[j - 1]);
                if i > 0 {
                    assert(all[i] == rest[i - 1]);
                }
            }
        }
    }
}

/// No match is missed: wherever the query stands, some listed match overlaps it.
pub proof fn law_hits_miss_nothing(low: Seq<char>, q: Seq<char>, from: int, at: int)
    requires
        0 <= from <= at,
        q.len() > 0,
        occurs(low, q, at),
    ensures
        exists|i: int|
            0 <= i < hits(low, q, from).len() && at - q.len() < #[trigger] hits(low, q, from)[i]
                <= at,
    decreases low.len() + 1 - from,
{
    lemma_search(low, q, from);
    let k = search(low, q, from).unwrap();
    let all = hits(low, q, from);
    let rest = hits(low, q, k + q.len());
    assert(all == seq![k] + rest);
    if at < k + q.len() {
        assert(all[0] == k);
    } else {
        law_hits_miss_nothing(low, q, k + q.len(), at);
        let i = choose|i: int| 0 <= i < rest.len() && at - q.len() < #[trigger] rest[i] <= at;
        assert(all[i + 1] == rest[i]);
    }
}

/// The matches of a lowercase query in the lines from the topmost up to, not with, line `upto`.
pub open spec fn grid_finds(g: GridView, q: Seq<char>, width: nat, upto: int) -> Seq<Find>
    decreases upto - g.top(),
{
    if upto <= g.top() {
        Seq::empty()
    } else {
        grid_finds(g, q, width, upto - 1) + line_finds(
            line_chars(g.line(upto - 1)),
            upto - 1,
            q,
            width,
        )
    }
}

/// The matches in the lines from the topmost up to, not with, line `upto`.
pub open spec fn grid_hits(g: GridView, query: Seq<char>, upto: int) -> Seq<Find> {
    grid_finds(g, lowercased(query), query.len(), upto)
}

fn push_line_hits(out: &mut Vec<Find>, text: &Vec<char>, line: i32, query: &str, q: &Vec<char>)
    requires
        q@ == lowercased(query@),
        q@.len() > 0,
    ensures
        final(out)@ == old(out)@ + line_hits(text@, line as int, query@),
{
    let low = chars_of(lowercase(string_of(text).as_str()).as_str());
    let width: usize = match_width(query);
    let ghost was = out@;
    let ghost to_find = |k: int|
        (line as int as i32, cell_of(text@, 0, k) as usize, query@.len() as usize);
    let n: usize = low.len();
    let mut from: usize = 0;
    let ghost mut got: Seq<int> = Seq::empty();
    loop
        invariant
            from <= n,
            q@ == lowercased(query@),
            was == old(out)@,
            q@.len() > 0,
            n == low@.len(),
            width == query@.len(),
            low@ == lowercased(text@),
            to_find == (|k: int|
                (line as int as i32, cell_of(text@, 0, k) as usize, query@.len() as usize)),
            out@ == was + got.map_values(to_find),
            got + hits(low@, q@, from as int) == hits(low@, q@, 0),
        decreases n + 1 - from,
    {
        match find_from(&low, q, from) {
            None => {
                proof {
                    assert(hits(low@, q@, from as int) =~= Seq::empty());
                    assert(got =~= hits(low@, q@, 0));
                    assert(out@ =~= was + line_hits(text@, line as int, query@));
                }
                return ;
            },
            Some(i) => {
                let col: usize = cell_at(text, i);
                out.push((line, col, width));
                proof {
                    assert(hits(low@, q@, from as int) == seq![i as int] + hits(
                        low@,
                        q@,
                        i + q@.len(),
                    ));
                    let more = got.push(i as int);
                    assert(more + hits(low@, q@, i + q@.len()) =~= got + hits(
                        low@,
                        q@,
                        from as int,
                    ));
                    assert(more.map_values(to_find) =~= got.map_values(to_find).push(
                        (line, col, width),
                    ));
                    got = more;
                    assert(out@ =~= was + got.map_values(to_find));
                }
                from = i + q.len();
            },
        }
    }
}

/// Every match of a query in the scrollback and on the screen, line by line, ASCII and Unicode case
/// aside. Matches do not overlap.
pub fn all_matches(grid: &Grid, query: &str) -> (r: Vec<Find>)
    requires
        grid.wf(),
    ensures
        r@ == grid_hits(grid@, query@, grid.rows as int),
        query@.len() == 0 ==> r@.len() == 0,
{
    let mut out: Vec<Find> = Vec::new();
    let q = chars_of(lowercase(query).as_str());
    let top: i32 = -(grid.history() as i32);
    let bottom: i32 = grid.rows as i32;
    let mut line: i32 = top;
    if q.len() == 0 {
        proof {
            lemma_no_hits(grid@, query@, grid.rows as int);
        }
        return out;
    }
    while line < bottom
        invariant
            grid.wf(),
            bottom == grid.rows,
            grid@.top() <= line <= bottom,
            q@ == lowercased(query@),
            q@.len() > 0,
            out@ == grid_hits(grid@, query@, line as int),
        decreases bottom - line,
    {
        let text = line_text(grid, line);
        push_line_hits(&mut out, &text, line, query, &q);
        line = line + 1;
    }
    out
}

proof fn lemma_no_hits(g: GridView, query: Seq<char>, upto: int)
    requires
        lowercased(query).len() == 0,
    ensures
        grid_hits(g, query, upto) == Seq::<Find>::empty(),
    decreases upto - g.top(),
{
    if upto > g.top() {
        lemma_no_hits(g, query, upto - 1);
        let t = line_chars(g.line(upto - 1));
        assert(hits(lowercased(t), lowercased(query), 0) =~= Seq::empty());
        assert(line_hits(t, upto - 1, query) =~= Seq::empty());
    }
}

proof fn lemma_no_find(g: GridView, query: Seq<char>, from: int)
    requires
        lowercased(query).len() == 0,
    ensures
        first_hit(g, query, from) is None,
    decreases g.rows - from,
{
    if from < g.rows {
        lemma_no_find(g, query, from + 1);
        let t = line_chars(g.line(from));
        assert(hits(lowercased(t), lowercased(query), 0) =~= Seq::empty());
        assert(line_hits(t, from, query) =~= Seq::empty());
    }
}

/// How many matches of a query there are in the scrollback and on the screen.
pub fn count_matches(grid: &Grid, query: &str) -> (n: usize)
    requires
        grid.wf(),
    ensures
        n == grid_hits(grid@, query@, grid.rows as int).len(),
{
    all_matches(grid, query).len()
}

/// The first match of a lowercase query in the lines from `from` on.
pub open spec fn first_find(g: GridView, q: Seq<char>, width: nat, from: int) -> Option<Find>
    decreases g.rows - from,
{
    if from >= g.rows {
        None
    } else {
        let here = line_finds(line_chars(g.line(from)), from, q, width);
        if here.len() > 0 {
            Some(here[0])
        } else {
            first_find(g, q, width, from + 1)
        }
    }
}

/// The first match in the lines from `from` on.
pub open spec fn first_hit(g: GridView, query: Seq<char>, from: int) -> Option<Find> {
    first_find(g, lowercased(query), query.len(), from)
}

/// The first match of a query in the line `start` or below it, ASCII and Unicode case aside.
pub fn find(grid: &Grid, query: &str, start: i32) -> (r: Option<Find>)
    requires
        grid.wf(),
        grid@.top() <= start,
    ensures
        r == first_hit(grid@, query@, start as int),
        query@.len() == 0 ==> r is None,
{
    let q = chars_of(lowercase(query).as_str());
    let bottom: i32 = grid.rows as i32;
    let mut line: i32 = start;
    if q.len() == 0 {
        proof {
            lemma_no_find(grid@, query@, start as int);
        }
        return None;
    }
    while line < bottom
        invariant
            grid.wf(),
            bottom == grid.rows,
            grid@.top() <= start <= line,
            line <= bottom || line == start,
            q@ == lowercased(query@),
            q@.len() > 0,
            first_hit(grid@, query@, start as int) == first_hit(grid@, query@, line as int),
        decreases bottom - line,
    {
        let text = line_text(grid, line);
        let low = chars_of(lowercase(string_of(&text).as_str()).as_str());
        let ghost all = hits(low@, q@, 0);
        if let Some(i) = find_from(&low, &q, 0) {
            let col: usize = cell_at(&text, i);
            let hit: Find = (line, col, match_width(query));
            proof {
                assert(all == seq![i as int] + hits(low@, q@, i + q@.len()));
                assert(all[0] == i);
                assert(line_hits(text@, line as int, query@)[0] == hit);
            }
            return Some(hit);
        }
        proof {
            assert(all =~= Seq::empty());
            assert(line_hits(text@, line as int, query@) =~= Seq::empty());
        }
        line = line + 1;
    }
    None
}

proof fn lemma_finds_split(g: GridView, q: Seq<char>, width: nat, start: int, upto: int)
    requires
        g.wf(),
        g.top() <= start <= upto <= g.rows,
    ensures
        ({
            let before = grid_finds(g, q, width, start);
            let all = grid_finds(g, q, width, upto);
            &&& before.len() <= all.len()
            &&& forall|i: int| 0 <= i < before.len() ==> #[trigger] all[i] == before[i]
            &&& forall|i: int| before.len() <= i < all.len() ==> (#[trigger] all[i]).0 >= start
            &&& first_find(g, q, width, start) == if before.len() < all.len() {
                Some(all[before.len() as int])
            } else {
                first_find(g, q, width, upto)
            }
        }),
    decreases upto - start,
{
    if start < upto {
        lemma_finds_split(g, q, width, start, upto - 1);
        let before = grid_finds(g, q, width, start);
        let front = grid_finds(g, q, width, upto - 1);
        let here = line_finds(line_chars(g.line(upto - 1)), upto - 1, q, width);
        let all = grid_finds(g, q, width, upto);
        assert(all == front + here);
        assert forall|i: int| 0 <= i < before.len() implies #[trigger] all[i] == before[i] by {
            assert(all[i] == front[i]);
        }
        assert forall|i: int| before.len() <= i < all.len() implies (#[trigger] all[i]).0
            >= start by {
            if i < front.len() {
                assert(all[i] == front[i]);
            } else {
                assert(all[i] == here[i - front.len()]);
            }
        }
        if before.len() < front.len() {
            assert(all[before.len() as int] == front[before.len() as int]);
        } else if here.len() > 0 {
            assert(all[before.len() as int] == here[0]);
        }
    }
}

/// What the search from a line finds is the first of all matches that stands in this line or below
/// it; and where no match does, it finds none.
pub proof fn law_find_is_first_of_all(g: GridView, query: Seq<char>, start: int)
    requires
        g.wf(),
        g.cols <= usize::MAX,
        g.top() <= start,
    ensures
        ({
            let all = grid_hits(g, query, g.rows as int);
            match first_hit(g, query, start) {
                Some(f) => exists|i: int|
                    0 <= i < all.len() && #[trigger] all[i] == f && f.0 >= start && (forall|j: int|
                        0 <= j < i ==> (#[trigger] all[j]).0 < start),
                None => forall|i: int| 0 <= i < all.len() ==> (#[trigger] all[i]).0 < start,
            }
        }),
{
    let all = grid_hits(g, query, g.rows as int);
    law_hits_are_in_order(g, query, g.rows as int);
    if start <= g.rows {
        lemma_finds_split(g, lowercased(query), query.len(), start, g.rows as int);
        law_hits_are_in_order(g, query, start);
        let before = grid_hits(g, query, start);
        assert forall|j: int| 0 <= j < before.len() implies (#[trigger] all[j]).0 < start by {
            assert(all[j] == before[j]);
        }
        if before.len() < all.len() {
            assert(first_hit(g, query, start) == Some(all[before.len() as int]));
        }
    }
}

/// The case of the letters of a query makes no difference: two queries in ASCII that differ in
/// nothing else have the same matches, and the same first one from any line on.
pub proof fn law_case_makes_no_difference(g: GridView, a: Seq<char>, b: Seq<char>, at: int)
    requires
        is_ascii_chars(a),
        is_ascii_chars(b),
        ascii_lowered(a) == ascii_lowered(b),
    ensures
        grid_hits(g, a, at) == grid_hits(g, b, at),
        first_hit(g, a, at) == first_hit(g, b, at),
{
    assert(ascii_lowered(a).len() == a.len());
    assert(ascii_lowered(b).len() == b.len());
}

/// Nor does the case of the letters of a line: two lines in ASCII that differ in nothing else have
/// the same matches.
pub proof fn law_case_of_a_line_makes_no_difference(
    a: Seq<char>,
    b: Seq<char>,
    line: int,
    query: Seq<char>,
)
    requires
        is_ascii_chars(a),
        is_ascii_chars(b),
        ascii_lowered(a) == ascii_lowered(b),
    ensures
        line_hits(a, line, query) == line_hits(b, line, query),
{
    assert(ascii_lowered(a).len() == a.len());
    assert(ascii_lowered(b).len() == b.len());
    let ks = hits(lowercased(a), lowercased(query), 0);
    law_hits_are_disjoint(lowercased(a), lowercased(query), 0);
    let one = line_hits(a, line, query);
    let two = line_hits(b, line, query);
    assert forall|i: int| 0 <= i < ks.len() implies one[i] == two[i] by {
        if ks[i] < a.len() {
            law_ascii_cells_are_columns(a, ks[i]);
            law_ascii_cells_are_columns(b, ks[i]);
        } else {
            assert(occurs(lowercased(a), lowercased(query), ks[i]));
        }
    }
    assert(one =~= two);
}

/// The starting value and the factor of the 64-bit FNV-1a hash.
pub const FNV_BASIS: u64 = 0xcbf2_9ce4_8422_2325;

pub const FNV_PRIME: u64 = 0x0000_0100_0000_01b3;

/// One step of the hash.
pub open spec fn mixed(h: u64, v: u64) -> u64 {
    wrapping_mul_u64(h ^ v)
}

/// A number times the factor of the hash, cut to 64 bits.
pub open spec fn wrapping_mul_u64(x: u64) -> u64 {
    ((x as int * FNV_PRIME as int) % 0x1_0000_0000_0000_0000) as u64
}

fn mix(h: u64, v: u64) -> (r: u64)
    ensures
        r == mixed(h, v),
{
    (h ^ v).wrapping_mul(FNV_PRIME)
}

/// The hash of a cell at its place, on top of `h`.
pub open spec fn hashed_cell(h: u64, line: i32, col: usize, c: Cell) -> u64 {
    mixed(
        mixed(
            mixed(mixed(mixed(mixed(h, line as u64), col as u64), c.c as u64), c.flags as u64),
            color_number(c.fg),
        ),
        color_number(c.bg),
    )
}

/// The hash of the first `cols` cells of a row of the view.
pub open spec fn hashed_cells(h: u64, g: GridView, row: int, cols: int) -> u64
    decreases cols,
{
    if cols <= 0 {
        h
    } else {
        hashed_cell(
            hashed_cells(h, g, row, cols - 1),
            g.line_of(row) as i32,
            (cols - 1) as usize,
            g.cell(row, cols - 1),
        )
    }
}

/// The hash of the first `rows` rows of the view.
pub open spec fn hashed_rows(g: GridView, rows: int) -> u64
    decreases rows,
{
    if rows <= 0 {
        FNV_BASIS
    } else {
        hashed_cells(hashed_rows(g, rows - 1), g, rows - 1, g.cols as int)
    }
}

/// The signature of what the view shows: every cell, and the cursor's place.
pub open spec fn signature(g: GridView) -> u64 {
    mixed(
        mixed(hashed_rows(g, g.rows as int), g.cursor_line as i32 as u64),
        g.cursor_col as usize as u64,
    )
}

/// A signature of what the view shows, so that output which redraws the screen in place is noticed
/// though the scrollback does not grow. The same cells and cursor give the same signature.
pub fn visible_signature(grid: &Grid) -> (h: u64)
    requires
        grid.wf(),
    ensures
        h == signature(grid@),
{
    let mut h: u64 = FNV_BASIS;
    let mut row: usize = 0;
    while row < grid.rows
        invariant
            grid.wf(),
            row <= grid.rows,
            h == hashed_rows(grid@, row as int),
        decreases grid.rows - row,
    {
        let line: i32 = grid.line_of(row);
        let mut col: usize = 0;
        let ghost base = h;
        while col < grid.cols
            invariant
                grid.wf(),
                row < grid.rows,
                col <= grid.cols,
                line == grid@.line_of(row as int),
                h == hashed_cells(base, grid@, row as int, col as int),
            decreases grid.cols - col,
        {
            let c = grid.cell(row, col);
            h = mix(h, line as u64);
            h = mix(h, col as u64);
            h = mix(h, c.c as u64);
            h = mix(h, c.flags as u64);
            h = mix(h, color_key(&c.fg));
            h = mix(h, color_key(&c.bg));
            col = col + 1;
        }
        row = row + 1;
    }
    h = mix(h, grid.cursor_line as u64);
    h = mix(h, grid.cursor_col as u64);
    h
}

/// One hit of a search through all sessions: which tab, which line of its scrollback, which column.
#[derive(Clone, Copy, Debug, PartialEq, Eq, Structural)]
pub struct FleetMatch {
    pub tab: usize,
    pub line: i32,
    pub col: usize,
}

/// A tab's matches as hits of the fleet.
pub open spec fn tab_hits(g: GridView, tab: int, query: Seq<char>) -> Seq<FleetMatch> {
    grid_hits(g, query, g.rows as int).map_values(
        |f: Find| FleetMatch { tab: tab as usize, line: f.0, col: f.1 },
    )
}

/// The hits in the first `n` tabs, tab by tab, and within a tab from its topmost line down.
pub open spec fn fleet_hits(grids: Seq<Grid>, query: Seq<char>, n: int) -> Seq<FleetMatch>
    decreases n,
{
    if n <= 0 {
        Seq::empty()
    } else {
        fleet_hits(grids, query, n - 1) + tab_hits(grids[n - 1]@, n - 1, query)
    }
}

/// Every hit in every session, in the order of the tabs and of their lines.
pub fn collect_fleet_matches(grids: &Vec<Grid>, query: &str) -> (r: Vec<FleetMatch>)
    requires
        forall|i: int| 0 <= i < grids@.len() ==> (#[trigger] grids@[i]).wf(),
    ensures
        r@ == fleet_hits(grids@, query@, grids@.len() as int),
{
    let mut out: Vec<FleetMatch> = Vec::new();
    let mut tab: usize = 0;
    while tab < grids.len()
        invariant
            tab <= grids@.len(),
            forall|i: int| 0 <= i < grids@.len() ==> (#[trigger] grids@[i]).wf(),
            out@ == fleet_hits(grids@, query@, tab as int),
        decreases grids@.len() - tab,
    {
        let hits = all_matches(&grids[tab], query);
        let ghost base = out@;
        let ghost want = tab_hits(grids@[tab as int]@, tab as int, query@);
        let mut k: usize = 0;
        while k < hits.len()
            invariant
                k <= hits@.len(),
                want.len() == hits@.len(),
                forall|i: int|
                    0 <= i < want.len() ==> #[trigger] want[i] == (FleetMatch {
                        tab,
                        line: hits@[i].0,
                        col: hits@[i].1,
                    }),
                out@ == base + want.take(k as int),
            decreases hits@.len() - k,
        {
            out.push(FleetMatch { tab, line: hits[k].0, col: hits[k].1 });
            proof {
                assert(out@ =~= base + want.take(k + 1));
            }
            k = k + 1;
        }
        proof {
            assert(want.take(k as int) =~= want);
        }
        tab = tab + 1;
    }
    out
}

proof fn lemma_cells_ascend(text: Seq<char>, c: int, k: int, l: int)
    requires
        0 <= c <= text.len(),
        k <= l,
    ensures
        c <= cell_of(text, c, k) <= cell_of(text, c, l) <= text.len(),
    decreases text.len() - c,
{
    if c < text.len() {
        let n = lowercased(seq![text[c]]).len();
        lemma_cells_ascend(text, c + 1, k - n, l - n);
    }
}

/// Whether a match stands before another, or in the same place: in an earlier line, or in the same
/// line and not further right.
pub open spec fn reads_before(a: Find, b: Find) -> bool {
    a.0 < b.0 || (a.0 == b.0 && a.1 <= b.1)
}

/// The matches of a session come in the order they are read: by line, then by column.
pub proof fn law_hits_are_in_order(g: GridView, query: Seq<char>, upto: int)
    requires
        g.wf(),
        g.cols <= usize::MAX,
        g.top() <= upto <= g.rows,
    ensures
        forall|i: int|
            0 <= i < grid_hits(g, query, upto).len() ==> (#[trigger] grid_hits(
                g,
                query,
                upto,
            )[i]).0 < upto,
        forall|i: int, j: int|
            0 <= i < j < grid_hits(g, query, upto).len() ==> reads_before(
                #[trigger] grid_hits(g, query, upto)[i],
                #[trigger] grid_hits(g, query, upto)[j],
            ),
    decreases upto - g.top(),
{
    if upto > g.top() {
        law_hits_are_in_order(g, query, upto - 1);
        let text = line_chars(g.line(upto - 1));
        let ks = hits(lowercased(text), lowercased(query), 0);
        let here = line_hits(text, upto - 1, query);
        let front = grid_hits(g, query, upto - 1);
        let all = grid_hits(g, query, upto);
        law_hits_are_disjoint(lowercased(text), lowercased(query), 0);
        assert(text.len() == g.cols);
        assert forall|i: int| 0 <= i < all.len() implies (#[trigger] all[i]).0 < upto && (i
            >= front.len() ==> all[i].0 == upto - 1 && all[i].1 == cell_of(
            text,
            0,
            ks[i - front.len()],
        )) by {
            if i < front.len() {
                assert(all[i] == front[i]);
            } else {
                assert(all[i] == here[i - front.len()]);
                lemma_cells_ascend(text, 0, ks[i - front.len()], ks[i - front.len()]);
            }
        }
        assert forall|i: int, j: int| 0 <= i < j < all.len() implies reads_before(
            #[trigger] all[i],
            #[trigger] all[j],
        ) by {
            if j < front.len() {
                assert(all[i] == front[i] && all[j] == front[j]);
            } else if i < front.len() {
                assert(all[i] == front[i]);
            } else {
                lemma_cells_ascend(text, 0, ks[i - front.len()], ks[j - front.len()]);
            }
        }
    }
}

/// Whether a hit of the fleet comes before another, or is the same: by tab, then by line, then by
/// column.
pub open spec fn comes_before(a: FleetMatch, b: FleetMatch) -> bool {
    a.tab < b.tab || (a.tab == b.tab && reads_before((a.line, a.col, 0), (b.line, b.col, 0)))
}

/// The hits of the fleet come sorted by tab, then by line, then by column.
pub proof fn law_fleet_hits_are_sorted(grids: Seq<Grid>, query: Seq<char>, n: int)
    requires
        0 <= n <= grids.len() <= usize::MAX,
        forall|i: int| 0 <= i < grids.len() ==> (#[trigger] grids[i]).wf(),
    ensures
        forall|i: int|
            0 <= i < fleet_hits(grids, query, n).len() ==> (#[trigger] fleet_hits(
                grids,
                query,
                n,
            )[i]).tab < n,
        forall|i: int, j: int|
            0 <= i < j < fleet_hits(grids, query, n).len() ==> comes_before(
                #[trigger] fleet_hits(grids, query, n)[i],
                #[trigger] fleet_hits(grids, query, n)[j],
            ),
    decreases n,
{
    if n > 0 {
        law_fleet_hits_are_sorted(grids, query, n - 1);
        let g = grids[n - 1]@;
        assert(grids[n - 1].wf());
        law_hits_are_in_order(g, query, g.rows as int);
        let front = fleet_hits(grids, query, n - 1);
        let here = grid_hits(g, query, g.rows as int);
        let all = fleet_hits(grids, query, n);
        assert forall|i: int| 0 <= i < all.len() implies (#[trigger] all[i]).tab < n && (i
            >= front.len() ==> all[i].tab == n - 1 && all[i].line == here[i - front.len()].0
            && all[i].col == here[i - front.len()].1) by {
            if i < front.len() {
                assert(all[i] == front[i]);
            } else {
                assert(all[i] == tab_hits(g, n - 1, query)[i - front.len()]);
            }
        }
        assert forall|i: int, j: int| 0 <= i < j < all.len() implies comes_before(
            #[trigger] all[i],
            #[trigger] all[j],
        ) by {
            if j < front.len() {
                assert(all[i] == front[i] && all[j] == front[j]);
            } else if i < front.len() {
                assert(all[i] == front[i]);
            } else {
                assert(reads_before(here[i - front.len()], here[j - front.len()]));
            }
        }
    }
}

} // verus!
