//! The terminal's grid of cells: its model, how a cell looks, and how the visible part is drawn.

use alacritty_terminal::index::{Column, Line, Point};
use alacritty_terminal::selection::SelectionRange;
use alacritty_terminal::term::cell::Flags;
use vstd::prelude::*;

use crate::color::{cell_color, exact, resolved, CellColor, Colors, PaletteColor};
use crate::glyph::{lemma_extends, slot, Face, GlyphCache};
use crate::paint::{fill_rect, lemma_same_image, opaque, stamp, Bitmap, Framebuffer, Image, Rgb};

verus! {

/// The style bits of a cell, as the terminal emulator keeps them.
pub const INVERSE: u16 = 0x1;

pub const BOLD: u16 = 0x2;

pub const ITALIC: u16 = 0x4;

pub const UNDERLINE: u16 = 0x8;

pub const DIM: u16 = 0x80;

pub const STRIKEOUT: u16 = 0x200;

/// Text on a search match, behind a match, and behind the focused match.
pub const HIT_FG: (u8, u8, u8) = (0x00, 0x00, 0x00);

pub const HIT_BG: (u8, u8, u8) = (0xff, 0xd2, 0x00);

pub const FOCUS_BG: (u8, u8, u8) = (0xff, 0x99, 0x00);

/// The tint of a detected link.
pub const LINK_FG: (u8, u8, u8) = (0x5c, 0xb8, 0xff);

/// One cell: its character, its style bits and its colors.
#[derive(Clone, Copy, Debug, PartialEq, Eq, Structural)]
pub struct Cell {
    pub c: char,
    pub flags: u16,
    pub fg: CellColor,
    pub bg: CellColor,
}

/// Whether all the bits of `mask` are set.
pub open spec fn styled(flags: u16, mask: u16) -> bool {
    flags & mask == mask
}

/// `Flags::contains` of the terminal emulator: whether all bits of the second value are set in the
/// first.
#[verifier::external_body]
fn has_flags(flags: u16, mask: u16) -> (r: bool)
    ensures
        r == styled(flags, mask),
{
    Flags::from_bits_retain(flags).contains(Flags::from_bits_retain(mask))
}

/// The shapes of the text cursor.
#[derive(Clone, Copy, Debug, PartialEq, Eq, Structural)]
pub enum CursorShape {
    Block,
    Underline,
    Beam,
    HollowBlock,
    Hidden,
}

/// A search match: its line, its first column and its width in cells.
pub type Find = (i32, usize, usize);

/// A stretch of columns that a link takes: `start` up to, not with, `end`.
#[derive(Clone, Copy, Debug, PartialEq, Eq, Structural)]
pub struct UrlSpan {
    pub start: usize,
    pub end: usize,
}

/// A selection, from its top left to its bottom right cell.
#[derive(Clone, Copy, Debug, PartialEq, Eq, Structural)]
pub struct Selected {
    pub start_line: i32,
    pub start_col: usize,
    pub end_line: i32,
    pub end_col: usize,
    /// Only the columns from `start_col` to `end_col`, on each line.
    pub is_block: bool,
}

impl Selected {
    /// Whether the cell is part of the selection. Inner lines of a plain selection belong to it
    /// from edge to edge.
    pub open spec fn covers(self, line: i32, col: usize) -> bool {
        &&& self.start_line <= line <= self.end_line
        &&& self.start_col <= col || (self.start_line != line && !self.is_block)
        &&& col <= self.end_col || (self.end_line != line && !self.is_block)
    }
}

/// `SelectionRange::contains` of the terminal emulator: whether a cell lies in the selection.
#[verifier::external_body]
fn selected(s: &Selected, line: i32, col: usize) -> (r: bool)
    ensures
        r == s.covers(line, col),
{
    let range = SelectionRange {
        start: Point::new(Line(s.start_line), Column(s.start_col)),
        end: Point::new(Line(s.end_line), Column(s.end_col)),
        is_block: s.is_block,
    };
    range.contains(Point::new(Line(line), Column(col)))
}

/// The grid: the lines scrolled out above the screen, then the screen's own. Line 0 is the first of
/// the screen; the lines above it count down from -1.
pub struct Grid {
    pub cols: usize,
    pub rows: usize,
    /// How many lines the view is scrolled up.
    pub offset: usize,
    pub lines: Vec<Vec<Cell>>,
    pub cursor_line: i32,
    pub cursor_col: usize,
    pub shape: CursorShape,
}

/// The grid as plain data.
#[verifier::ext_equal]
pub struct GridView {
    pub cols: nat,
    pub rows: nat,
    pub offset: nat,
    pub lines: Seq<Seq<Cell>>,
    pub cursor_line: int,
    pub cursor_col: int,
    pub shape: CursorShape,
}

impl View for Grid {
    type V = GridView;

    open spec fn view(&self) -> GridView {
        GridView {
            cols: self.cols as nat,
            rows: self.rows as nat,
            offset: self.offset as nat,
            lines: self.lines@.map_values(|l: Vec<Cell>| l@),
            cursor_line: self.cursor_line as int,
            cursor_col: self.cursor_col as int,
            shape: self.shape,
        }
    }
}

impl GridView {
    /// How many lines lie above the screen.
    pub open spec fn history(self) -> int {
        self.lines.len() - self.rows
    }

    /// The screen is there, the view stays within the history, and every line has every column.
    pub open spec fn wf(self) -> bool {
        &&& self.rows <= self.lines.len() <= i32::MAX
        &&& self.offset <= self.history()
        &&& forall|i: int| 0 <= i < self.lines.len() ==> (#[trigger] self.lines[i]).len() == self.cols
    }

    /// The number of the line that a row of the view shows.
    pub open spec fn line_of(self, row: int) -> int {
        row - self.offset
    }

    /// The cell in a row and a column of the view.
    pub open spec fn cell(self, row: int, col: int) -> Cell {
        self.lines[self.line_of(row) + self.history()][col]
    }

    /// Whether the cursor stands in this cell of the view. A scrolled view shows no cursor.
    pub open spec fn cursor_at(self, row: int, col: int) -> bool {
        self.offset == 0 && self.line_of(row) == self.cursor_line && col == self.cursor_col
    }
}

impl Grid {
    pub open spec fn wf(&self) -> bool {
        self@.wf()
    }

    /// How many lines lie above the screen.
    pub fn history(&self) -> (n: usize)
        requires
            self.wf(),
        ensures
            n == self@.history(),
    {
        self.lines.len() - self.rows
    }

    /// The cell in a row and a column of the view.
    pub fn cell(&self, row: usize, col: usize) -> (c: Cell)
        requires
            self.wf(),
            row < self.rows,
            col < self.cols,
        ensures
            c == self@.cell(row as int, col as int),
    {
        let i: usize = self.history() - self.offset + row;
        proof {
            assert(self@.lines[i as int] == self.lines@[i as int]@);
        }
        self.lines[i][col]
    }

    /// The number of the line that a row of the view shows.
    pub fn line_of(&self, row: usize) -> (l: i32)
        requires
            self.wf(),
            row < self.rows,
        ensures
            l == self@.line_of(row as int),
    {
        row as i32 - self.offset as i32
    }
}

/// What is marked in the grid.
#[verifier::ext_equal]
pub struct MarksView {
    pub find: Option<Find>,
    pub matches: Seq<Find>,
    pub sel: Option<Selected>,
    pub copy: Option<(i32, usize)>,
    pub links: Seq<Seq<UrlSpan>>,
}

/// Whether a search match takes the cell.
pub open spec fn hit(f: Find, line: int, col: int) -> bool {
    f.0 == line && f.1 <= col < f.1 + f.2
}

impl MarksView {
    pub open spec fn in_focus(self, line: int, col: int) -> bool {
        match self.find {
            Some(f) => hit(f, line, col),
            None => false,
        }
    }

    pub open spec fn in_match(self, line: int, col: int) -> bool {
        exists|i: int| 0 <= i < self.matches.len() && hit(#[trigger] self.matches[i], line, col)
    }

    pub open spec fn in_sel(self, line: int, col: int) -> bool {
        match self.sel {
            Some(s) => s.covers(line as i32, col as usize),
            None => false,
        }
    }

    pub open spec fn at_copy_cursor(self, line: int, col: int) -> bool {
        match self.copy {
            Some(p) => p.0 == line && p.1 == col,
            None => false,
        }
    }

    /// Whether a link of the row takes the column.
    pub open spec fn in_link(self, row: int, col: int) -> bool {
        row < self.links.len() && linked(self.links[row], col)
    }
}

/// Whether one of the spans takes the column.
pub open spec fn linked(spans: Seq<UrlSpan>, col: int) -> bool {
    exists|i: int| 0 <= i < spans.len() && (#[trigger] spans[i]).start <= col < spans[i].end
}

/// The colors of a cell's text and background. Inverse video swaps them first; then come, each over
/// the one before, the selection, a search match, a block cursor and the copy-mode cursor.
pub open spec fn look(
    cell: Cell,
    colors: Colors,
    in_sel: bool,
    in_focus: bool,
    in_match: bool,
    block: bool,
    at_copy: bool,
) -> (PaletteColor, PaletteColor) {
    let inverse = styled(cell.flags, INVERSE);
    let front = resolved(
        if inverse {
            cell.bg
        } else {
            cell.fg
        },
        colors.fg,
        colors.bg,
    );
    let back = resolved(
        if inverse {
            cell.fg
        } else {
            cell.bg
        },
        colors.fg,
        colors.bg,
    );
    let (front, back) = if in_focus {
        (exact(HIT_FG), exact(FOCUS_BG))
    } else if in_match {
        (exact(HIT_FG), exact(HIT_BG))
    } else if in_sel {
        (front, exact(colors.selection))
    } else {
        (front, back)
    };
    if at_copy {
        (exact((0, 0, 0)), exact(colors.copy_cursor))
    } else if block {
        (exact(colors.bg), front)
    } else {
        (front, back)
    }
}

/// A channel drawn a third of the way toward the link tint.
pub open spec fn tinted(v: u8, tint: u8) -> u8 {
    (v * 2 / 3 + tint / 3) as u8
}

/// The color a glyph is drawn in: links are tinted, dim text is half as bright.
pub open spec fn ink(c: Rgb, link: bool, dim: bool) -> Rgb {
    let t = if link {
        (tinted(c.0, LINK_FG.0), tinted(c.1, LINK_FG.1), tinted(c.2, LINK_FG.2))
    } else {
        c
    };
    if dim {
        (t.0 / 2, t.1 / 2, t.2 / 2)
    } else {
        t
    }
}

/// The size of a cell in pixels, and of the font.
pub struct Pen {
    pub cell_w: u32,
    pub cell_h: u32,
    pub font_px: u32,
}

/// The larger of two numbers.
pub open spec fn larger(a: int, b: int) -> int {
    if a < b {
        b
    } else {
        a
    }
}

/// The image with a cell's glyph drawn, its underline and its strike-through.
pub open spec fn inked(
    img: Image,
    m: Map<u64, Bitmap>,
    pen: Pen,
    cell: Cell,
    x0: int,
    y0: int,
    c: Rgb,
    link: bool,
) -> Image {
    let thick = larger(pen.cell_h as int / 10, 1);
    let g = img.stamp(
        x0,
        y0 + pen.cell_h,
        m[slot(styled(cell.flags, BOLD), styled(cell.flags, ITALIC), cell.c, pen.font_px)],
        c,
    );
    let u = if link || styled(cell.flags, UNDERLINE) {
        g.fill(
            x0,
            y0 + pen.cell_h - thick - pen.cell_h as int / 12,
            pen.cell_w as int,
            thick,
            opaque(c),
        )
    } else {
        g
    };
    if styled(cell.flags, STRIKEOUT) {
        u.fill(x0, y0 + pen.cell_h * 5 / 12, pen.cell_w as int, thick, opaque(c))
    } else {
        u
    }
}

/// The image with a bar cursor drawn over a cell: an underline at its bottom, or a beam at its left
/// edge.
pub open spec fn barred(
    img: Image,
    pen: Pen,
    shape: CursorShape,
    x0: int,
    y0: int,
    c: Rgb,
) -> Image {
    match shape {
        CursorShape::Underline => {
            let h = larger(pen.cell_h as int / 5, 2);
            img.fill(x0, y0 + pen.cell_h - h, pen.cell_w as int, h, opaque(c))
        },
        CursorShape::Beam => img.fill(
            x0,
            y0,
            larger(pen.cell_w as int / 6, 2),
            pen.cell_h as int,
            opaque(c),
        ),
        _ => img,
    }
}

/// The image with one cell of the view drawn.
pub open spec fn with_cell(
    img: Image,
    m: Map<u64, Bitmap>,
    g: GridView,
    k: MarksView,
    pen: Pen,
    colors: Colors,
    row: int,
    col: int,
) -> Image {
    let cell = g.cell(row, col);
    let line = g.line_of(row);
    let cursor = g.cursor_at(row, col);
    let block = cursor && (g.shape is Block || g.shape is HollowBlock);
    let link = k.in_link(row, col);
    let (front, back) = look(
        cell,
        colors,
        k.in_sel(line, col),
        k.in_focus(line, col),
        k.in_match(line, col),
        block,
        k.at_copy_cursor(line, col),
    );
    let x0 = col * pen.cell_w;
    let y0 = row * pen.cell_h;
    let filled = img.fill(
        x0,
        y0,
        pen.cell_w as int,
        pen.cell_h as int,
        opaque(back.rgb(colors.ansi@)),
    );
    let drawn = if cell.c == ' ' {
        filled
    } else {
        inked(
            filled,
            m,
            pen,
            cell,
            x0,
            y0,
            ink(front.rgb(colors.ansi@), link, styled(cell.flags, DIM)),
            link,
        )
    };
    if cursor {
        barred(drawn, pen, g.shape, x0, y0, colors.cursor)
    } else {
        drawn
    }
}

/// The image with the first `cols` cells of a row drawn.
pub open spec fn with_cells(
    img: Image,
    m: Map<u64, Bitmap>,
    g: GridView,
    k: MarksView,
    pen: Pen,
    colors: Colors,
    row: int,
    cols: int,
) -> Image
    decreases cols,
{
    if cols <= 0 {
        img
    } else {
        with_cell(
            with_cells(img, m, g, k, pen, colors, row, cols - 1),
            m,
            g,
            k,
            pen,
            colors,
            row,
            cols - 1,
        )
    }
}

/// The image with the first `rows` rows of the view drawn.
pub open spec fn with_rows(
    img: Image,
    m: Map<u64, Bitmap>,
    g: GridView,
    k: MarksView,
    pen: Pen,
    colors: Colors,
    rows: int,
) -> Image
    decreases rows,
{
    if rows <= 0 {
        img
    } else {
        with_cells(
            with_rows(img, m, g, k, pen, colors, rows - 1),
            m,
            g,
            k,
            pen,
            colors,
            rows - 1,
            g.cols as int,
        )
    }
}

/// The slot of a cell's glyph.
pub open spec fn cell_slot(cell: Cell, px: u32) -> u64 {
    slot(styled(cell.flags, BOLD), styled(cell.flags, ITALIC), cell.c, px)
}

/// Whether a cache holds the glyphs of the first `rows` rows of the view. Blank cells have none.
pub open spec fn covers_rows(m: Map<u64, Bitmap>, g: GridView, px: u32, rows: int) -> bool {
    forall|r: int, c: int|
        0 <= r < rows && 0 <= c < g.cols && g.cell(r, c).c != ' ' ==> m.contains_key(
            cell_slot(#[trigger] g.cell(r, c), px),
        )
}

/// Whether one of the spans starts there.
pub open spec fn started(spans: Seq<UrlSpan>, start: usize) -> bool {
    exists|i: int| 0 <= i < spans.len() && (#[trigger] spans[i]).start == start
}

/// The spans of a row, given for each column the link found when looking there. The columns are
/// gone through from the left, past the end of each link, and no start counts twice.
pub open spec fn spans_from(
    hits: Seq<Option<UrlSpan>>,
    i: int,
    got: Seq<UrlSpan>,
) -> Seq<UrlSpan>
    decreases larger(hits.len() - i, 0),
{
    if i >= hits.len() || i < 0 {
        got
    } else {
        match hits[i] {
            None => spans_from(hits, i + 1, got),
            Some(s) => spans_from(
                hits,
                larger(s.end as int, i + 1),
                if s.end > i && !started(got, s.start) {
                    got.push(s)
                } else {
                    got
                },
            ),
        }
    }
}

/// The spans of a row, given for each column the link found when looking there.
pub open spec fn row_spans(hits: Seq<Option<UrlSpan>>) -> Seq<UrlSpan> {
    spans_from(hits, 0, Seq::empty())
}

/// The distinct links of a row; see [`row_spans`].
pub fn link_spans(hits: &Vec<Option<UrlSpan>>) -> (r: Vec<UrlSpan>)
    ensures
        r@ == row_spans(hits@),
{
    let mut out: Vec<UrlSpan> = Vec::new();
    let mut i: usize = 0;
    while i < hits.len()
        invariant
            spans_from(hits@, 0, Seq::empty()) == spans_from(hits@, i as int, out@),
        decreases larger(hits@.len() - i, 0),
    {
        match hits[i] {
            None => {
                i = i + 1;
            },
            Some(s) => {
                let mut seen = false;
                let mut j: usize = 0;
                while j < out.len()
                    invariant
                        j <= out@.len(),
                        seen == exists|k: int| 0 <= k < j && (#[trigger] out@[k]).start == s.start,
                    decreases out@.len() - j,
                {
                    if out[j].start == s.start {
                        seen = true;
                    }
                    j = j + 1;
                }
                if s.end > i && !seen {
                    out.push(s);
                }
                i = if s.end > i + 1 {
                    s.end
                } else {
                    i + 1
                };
            },
        }
    }
    out
}

/// Each link of a row is listed once.
pub proof fn law_links_are_distinct(hits: Seq<Option<UrlSpan>>, i: int, j: int)
    requires
        0 <= i < j < row_spans(hits).len(),
    ensures
        row_spans(hits)[i].start != row_spans(hits)[j].start,
{
    lemma_spans_distinct(hits, 0, Seq::empty());
}

proof fn lemma_spans_distinct(hits: Seq<Option<UrlSpan>>, i: int, got: Seq<UrlSpan>)
    requires
        forall|a: int, b: int| 0 <= a < b < got.len() ==> got[a].start != got[b].start,
    ensures
        forall|a: int, b: int|
            0 <= a < b < spans_from(hits, i, got).len() ==> spans_from(hits, i, got)[a].start
                != spans_from(hits, i, got)[b].start,
    decreases larger(hits.len() - i, 0),
{
    if i >= hits.len() || i < 0 {
        assert(spans_from(hits, i, got) == got);
    } else {
        match hits[i] {
            None => {
                lemma_spans_distinct(hits, i + 1, got);
                assert(spans_from(hits, i, got) == spans_from(hits, i + 1, got));
            },
            Some(s) => {
                let next = if s.end > i && !started(got, s.start) {
                    got.push(s)
                } else {
                    got
                };
                assert forall|a: int, b: int| 0 <= a < b < next.len() implies next[a].start
                    != next[b].start by {
                    if b == got.len() {
                        assert(next[a] == got[a]);
                    }
                }
                lemma_spans_distinct(hits, larger(s.end as int, i + 1), next);
                assert(spans_from(hits, i, got) == spans_from(
                    hits,
                    larger(s.end as int, i + 1),
                    next,
                ));
            },
        }
    }
}

fn is_hit(f: Find, line: i32, col: usize) -> (r: bool)
    ensures
        r == hit(f, line as int, col as int),
{
    f.0 == line && f.1 <= col && col - f.1 < f.2
}

fn any_hit(matches: &[Find], line: i32, col: usize) -> (r: bool)
    ensures
        r == exists|i: int|
            0 <= i < matches@.len() && hit(#[trigger] matches@[i], line as int, col as int),
{
    let mut i: usize = 0;
    while i < matches.len()
        invariant
            i <= matches@.len(),
            forall|k: int| 0 <= k < i ==> !hit(#[trigger] matches@[k], line as int, col as int),
        decreases matches@.len() - i,
    {
        if is_hit(matches[i], line, col) {
            proof {
                assert(hit(matches@[i as int], line as int, col as int));
            }
            return true;
        }
        i = i + 1;
    }
    false
}

fn is_linked(spans: &Vec<UrlSpan>, col: usize) -> (r: bool)
    ensures
        r == linked(spans@, col as int),
{
    let mut i: usize = 0;
    while i < spans.len()
        invariant
            i <= spans@.len(),
            forall|k: int| 0 <= k < i ==> !((#[trigger] spans@[k]).start <= col < spans@[k].end),
        decreases spans@.len() - i,
    {
        if spans[i].start <= col && col < spans[i].end {
            proof {
                assert(spans@[i as int].start <= col < spans@[i as int].end);
            }
            return true;
        }
        i = i + 1;
    }
    false
}

fn plain(c: Rgb) -> (r: PaletteColor)
    ensures
        r == exact(c),
{
    PaletteColor::Spec { r: c.0, g: c.1, b: c.2 }
}

fn cell_look(
    cell: &Cell,
    colors: &Colors,
    in_sel: bool,
    in_focus: bool,
    in_match: bool,
    block: bool,
    at_copy: bool,
) -> (r: (PaletteColor, PaletteColor))
    ensures
        r == look(*cell, *colors, in_sel, in_focus, in_match, block, at_copy),
{
    let inverse = has_flags(cell.flags, INVERSE);
    let mut front = if inverse {
        cell_color(&cell.bg, colors)
    } else {
        cell_color(&cell.fg, colors)
    };
    let mut back = if inverse {
        cell_color(&cell.fg, colors)
    } else {
        cell_color(&cell.bg, colors)
    };
    if in_sel {
        back = plain(colors.selection);
    }
    if in_focus {
        front = plain(HIT_FG);
        back = plain(FOCUS_BG);
    } else if in_match {
        front = plain(HIT_FG);
        back = plain(HIT_BG);
    }
    if block {
        back = front;
        front = plain(colors.bg);
    }
    if at_copy {
        back = plain(colors.copy_cursor);
        front = plain((0, 0, 0));
    }
    (front, back)
}

fn tint(v: u8, t: u8) -> (r: u8)
    ensures
        r == tinted(v, t),
{
    (v as u16 * 2 / 3 + t as u16 / 3) as u8
}

fn glyph_ink(c: Rgb, link: bool, dim: bool) -> (r: Rgb)
    ensures
        r == ink(c, link, dim),
{
    let t = if link {
        (tint(c.0, LINK_FG.0), tint(c.1, LINK_FG.1), tint(c.2, LINK_FG.2))
    } else {
        c
    };
    if dim {
        (t.0 / 2, t.1 / 2, t.2 / 2)
    } else {
        t
    }
}

/// Fills from `height` rows above `bottom` down to it, as far as they are on the image.
fn fill_above(buf: &mut Framebuffer, x0: usize, bottom: usize, w: usize, height: usize, c: Rgb)
    requires
        old(buf).wf(),
    ensures
        final(buf).wf(),
        final(buf).width == old(buf).width,
        final(buf).height == old(buf).height,
        final(buf)@ == old(buf)@.fill(
            x0 as int,
            bottom - height,
            w as int,
            height as int,
            opaque(c),
        ),
{
    let ghost before = buf@;
    let top: usize = bottom.saturating_sub(height);
    fill_rect(buf, x0, top, w, bottom - top, c);
    proof {
        lemma_same_image(
            buf@,
            before.fill(x0 as int, bottom - height, w as int, height as int, opaque(c)),
        );
    }
}

fn draw_ink<F: Face>(
    buf: &mut Framebuffer,
    cache: &GlyphCache<F>,
    pen: &Pen,
    cell: &Cell,
    x0: usize,
    y0: usize,
    c: Rgb,
    link: bool,
)
    requires
        old(buf).wf(),
        cache.wf(),
        cache@.contains_key(cell_slot(*cell, pen.font_px)),
        1 <= pen.cell_h,
        y0 + pen.cell_h <= u32::MAX,
    ensures
        final(buf).wf(),
        final(buf).width == old(buf).width,
        final(buf).height == old(buf).height,
        final(buf)@ == inked(
            old(buf)@,
            cache@,
            *pen,
            *cell,
            x0 as int,
            y0 as int,
            c,
            link,
        ),
{
    let cell_h: usize = pen.cell_h as usize;
    let cell_w: usize = pen.cell_w as usize;
    let g = cache.peek(
        cell.c,
        pen.font_px,
        has_flags(cell.flags, BOLD),
        has_flags(cell.flags, ITALIC),
    );
    stamp(buf, x0, y0 + cell_h, g.w as usize, g.h as usize, &g.alpha, c);
    let thick: usize = if cell_h / 10 < 1 {
        1
    } else {
        cell_h / 10
    };
    if link || has_flags(cell.flags, UNDERLINE) {
        fill_rect(buf, x0, y0 + cell_h - thick - cell_h / 12, cell_w, thick, c);
    }
    if has_flags(cell.flags, STRIKEOUT) {
        let drop: usize = (pen.cell_h as u64 * 5 / 12) as usize;
        fill_rect(buf, x0, y0 + drop, cell_w, thick, c);
    }
}

fn draw_bar(buf: &mut Framebuffer, pen: &Pen, shape: CursorShape, x0: usize, y0: usize, c: Rgb)
    requires
        old(buf).wf(),
        y0 + pen.cell_h <= u32::MAX,
    ensures
        final(buf).wf(),
        final(buf).width == old(buf).width,
        final(buf).height == old(buf).height,
        final(buf)@ == barred(old(buf)@, *pen, shape, x0 as int, y0 as int, c),
{
    let cell_h: usize = pen.cell_h as usize;
    let cell_w: usize = pen.cell_w as usize;
    match shape {
        CursorShape::Underline => {
            let h: usize = if cell_h / 5 < 2 {
                2
            } else {
                cell_h / 5
            };
            fill_above(buf, x0, y0 + cell_h, cell_w, h, c);
        },
        CursorShape::Beam => {
            let w: usize = if cell_w / 6 < 2 {
                2
            } else {
                cell_w / 6
            };
            fill_rect(buf, x0, y0, w, cell_h, c);
        },
        _ => {},
    }
}

/// Makes the glyphs of the visible cells, as far as they are missing.
fn prepare_grid<F: Face>(cache: &mut GlyphCache<F>, grid: &Grid, px: u32)
    requires
        old(cache).wf(),
        grid.wf(),
    ensures
        final(cache).extends(old(cache)),
        covers_rows(final(cache)@, grid@, px, grid.rows as int),
{
    let ghost before = *cache;
    let mut row: usize = 0;
    while row < grid.rows
        invariant
            row <= grid.rows,
            grid.wf(),
            cache.wf(),
            cache.extends(&before),
            covers_rows(cache@, grid@, px, row as int),
        decreases grid.rows - row,
    {
        let mut col: usize = 0;
        while col < grid.cols
            invariant
                row < grid.rows,
                col <= grid.cols,
                grid.wf(),
                cache.wf(),
                cache.extends(&before),
                covers_rows(cache@, grid@, px, row as int),
                forall|c: int|
                    0 <= c < col && grid@.cell(row as int, c).c != ' ' ==> cache@.contains_key(
                        cell_slot(#[trigger] grid@.cell(row as int, c), px),
                    ),
            decreases grid.cols - col,
        {
            let cell = grid.cell(row, col);
            if cell.c != ' ' {
                let ghost mid = *cache;
                let bold = has_flags(cell.flags, BOLD);
                let italic = has_flags(cell.flags, ITALIC);
                cache.prepare(cell.c, px, bold, italic);
                proof {
                    lemma_extends(before, mid, *cache);
                    assert(cache@.contains_key(cell_slot(cell, px)));
                    assert forall|r: int, c: int|
                        0 <= r < row && 0 <= c < grid@.cols && grid@.cell(r, c).c
                            != ' ' implies cache@.contains_key(
                        cell_slot(#[trigger] grid@.cell(r, c), px),
                    ) by {
                        assert(mid@.contains_key(cell_slot(grid@.cell(r, c), px)));
                    }
                    assert forall|c: int|
                        0 <= c < col + 1 && grid@.cell(row as int, c).c
                            != ' ' implies cache@.contains_key(
                        cell_slot(#[trigger] grid@.cell(row as int, c), px),
                    ) by {
                        if c < col {
                            assert(mid@.contains_key(cell_slot(grid@.cell(row as int, c), px)));
                        }
                    }
                }
            }
            col = col + 1;
        }
        row = row + 1;
    }
}

/// The marks as plain data, with the links of each row listed.
pub open spec fn marks_of(
    find: Option<Find>,
    matches: Seq<Find>,
    sel: Option<Selected>,
    copy: Option<(i32, usize)>,
    links: Seq<Vec<Option<UrlSpan>>>,
) -> MarksView {
    MarksView {
        find,
        matches,
        sel,
        copy,
        links: links.map_values(|hits: Vec<Option<UrlSpan>>| row_spans(hits@)),
    }
}

/// Draws the visible cells of the grid, each with its background, its glyph and its rules, the
/// search matches, the selection and the cursors marked.
///
/// `find` is the focused search match and `matches` are all of them; both are drawn on a bright
/// background, the focused one in its own color. `copy` is the copy-mode cursor. `links` gives, for
/// each row of the view and each column, the link found when looking there.
pub fn draw_grid<F: Face>(
    buf: &mut Framebuffer,
    grid: &Grid,
    cell_w: u32,
    cell_h: u32,
    font_px: u32,
    cache: &mut GlyphCache<F>,
    colors: &Colors,
    find: Option<Find>,
    matches: &[Find],
    sel: Option<&Selected>,
    copy: Option<(i32, usize)>,
    links: &Vec<Vec<Option<UrlSpan>>>,
)
    requires
        old(buf).wf(),
        old(cache).wf(),
        grid.wf(),
        1 <= cell_h,
        grid.cols * cell_w <= u32::MAX,
        grid.rows * cell_h <= u32::MAX,
    ensures
        final(buf).wf(),
        final(buf).width == old(buf).width,
        final(buf).height == old(buf).height,
        final(cache).extends(old(cache)),
        covers_rows(final(cache)@, grid@, font_px, grid.rows as int),
        final(buf)@ == with_rows(
            old(buf)@,
            final(cache)@,
            grid@,
            marks_of(
                find,
                matches@,
                match sel {
                    Some(s) => Some(*s),
                    None => None,
                },
                copy,
                links@,
            ),
            Pen { cell_w, cell_h, font_px },
            *colors,
            grid.rows as int,
        ),
{
    let pen = Pen { cell_w, cell_h, font_px };
    prepare_grid(cache, grid, font_px);
    let ghost before = buf@;
    let ghost m = cache@;
    let ghost k = marks_of(
        find,
        matches@,
        match sel {
            Some(s) => Some(*s),
            None => None,
        },
        copy,
        links@,
    );
    let mut row: usize = 0;
    while row < grid.rows
        invariant
            row <= grid.rows,
            grid.wf(),
            cache.wf(),
            m == cache@,
            covers_rows(m, grid@, font_px, grid.rows as int),
            buf.wf(),
            buf.width == old(buf).width,
            buf.height == old(buf).height,
            1 <= cell_h,
            grid.cols * cell_w <= u32::MAX,
            grid.rows * cell_h <= u32::MAX,
            pen == (Pen { cell_w, cell_h, font_px }),
            k == marks_of(
                find,
                matches@,
                match sel {
                    Some(s) => Some(*s),
                    None => None,
                },
                copy,
                links@,
            ),
            buf@ == with_rows(before, m, grid@, k, pen, *colors, row as int),
        decreases grid.rows - row,
    {
        let spans = if row < links.len() {
            link_spans(&links[row])
        } else {
            Vec::new()
        };
        proof {
            assert(forall|c: int| linked(spans@, c) == k.in_link(row as int, c));
        }
        let ghost so_far = buf@;
        let mut col: usize = 0;
        while col < grid.cols
            invariant
                row < grid.rows,
                col <= grid.cols,
                grid.wf(),
                cache.wf(),
                m == cache@,
                covers_rows(m, grid@, font_px, grid.rows as int),
                buf.wf(),
                buf.width == old(buf).width,
                buf.height == old(buf).height,
                1 <= cell_h,
                grid.cols * cell_w <= u32::MAX,
                grid.rows * cell_h <= u32::MAX,
                pen == (Pen { cell_w, cell_h, font_px }),
                k == marks_of(
                    find,
                    matches@,
                    match sel {
                        Some(s) => Some(*s),
                        None => None,
                    },
                    copy,
                    links@,
                ),
                forall|c: int| linked(spans@, c) == k.in_link(row as int, c),
                buf@ == with_cells(so_far, m, grid@, k, pen, *colors, row as int, col as int),
            decreases grid.cols - col,
        {
            let cell = grid.cell(row, col);
            let line: i32 = grid.line_of(row);
            proof {
                assert(col * cell_w <= grid.cols * cell_w) by (nonlinear_arith)
                    requires
                        col <= grid.cols,
                        0 <= cell_w,
                ;
                assert(row * cell_h + cell_h <= grid.rows * cell_h) by (nonlinear_arith)
                    requires
                        row + 1 <= grid.rows,
                        0 <= cell_h,
                ;
                assert(0 <= col * cell_w) by (nonlinear_arith)
                    requires
                        0 <= col,
                        0 <= cell_w,
                ;
                assert(0 <= row * cell_h) by (nonlinear_arith)
                    requires
                        0 <= row,
                        0 <= cell_h,
                ;
            }
            let x0: usize = col * cell_w as usize;
            let y0: usize = row * cell_h as usize;
            let cursor = grid.offset == 0 && line == grid.cursor_line && col == grid.cursor_col;
            let in_focus = match find {
                Some(f) => is_hit(f, line, col),
                None => false,
            };
            let in_match = any_hit(matches, line, col);
            let in_sel = match sel {
                Some(s) => selected(s, line, col),
                None => false,
            };
            let at_copy = match copy {
                Some(p) => p.0 == line && p.1 == col,
                None => false,
            };
            let link = is_linked(&spans, col);
            let block = cursor && matches!(grid.shape, CursorShape::Block | CursorShape::HollowBlock);
            let ghost now = buf@;
            proof {
                let (r, c) = (row as int, col as int);
                assert(cell == grid@.cell(r, c));
                assert(cursor == grid@.cursor_at(r, c));
                assert(in_focus == k.in_focus(grid@.line_of(r), c));
                assert(k.matches == matches@);
                assert(line == grid@.line_of(r));
                assert(in_match == k.in_match(line as int, c));
                assert(in_sel == k.in_sel(grid@.line_of(r), c));
                assert(at_copy == k.at_copy_cursor(grid@.line_of(r), c));
                assert(link == k.in_link(r, c));
            }
            let (front, back) = cell_look(
                &cell,
                colors,
                in_sel,
                in_focus,
                in_match,
                block,
                at_copy,
            );
            let fill = back.to_rgb(colors);
            fill_rect(buf, x0, y0, cell_w as usize, cell_h as usize, fill);
            if cell.c != ' ' {
                proof {
                    assert(m.contains_key(cell_slot(grid@.cell(row as int, col as int), font_px)));
                }
                let c = glyph_ink(front.to_rgb(colors), link, has_flags(cell.flags, DIM));
                draw_ink(buf, cache, &pen, &cell, x0, y0, c, link);
            }
            if cursor {
                draw_bar(buf, &pen, grid.shape, x0, y0, colors.cursor);
            }
            proof {
                assert(buf@ == with_cell(
                    now,
                    m,
                    grid@,
                    k,
                    pen,
                    *colors,
                    row as int,
                    col as int,
                ));
            }
            col = col + 1;
        }
        row = row + 1;
    }
}

/// A scrolled view shows the same picture wherever the cursor stands.
pub proof fn law_scrolled_view_hides_cursor(g: GridView, row: int, col: int)
    requires
        g.offset > 0,
    ensures
        !g.cursor_at(row, col),
{
}

/// The focused search match is drawn in its own color whatever else is marked there, cursors apart.
pub proof fn law_focus_wins(
    cell: Cell,
    colors: Colors,
    in_sel: bool,
    in_match: bool,
)
    ensures
        look(cell, colors, in_sel, true, in_match, false, false) == (
            exact(HIT_FG),
            exact(FOCUS_BG),
        ),
{
}

/// The copy-mode cursor is drawn over everything.
pub proof fn law_copy_cursor_wins(
    cell: Cell,
    colors: Colors,
    in_sel: bool,
    in_focus: bool,
    in_match: bool,
    block: bool,
)
    ensures
        look(cell, colors, in_sel, in_focus, in_match, block, true) == (
            exact((0, 0, 0)),
            exact(colors.copy_cursor),
        ),
{
}

/// Without marks, inverse video swaps the colors that the same cell has without it.
pub proof fn law_inverse_swaps(cell: Cell, upright: Cell, colors: Colors)
    requires
        styled(cell.flags, INVERSE),
        !styled(upright.flags, INVERSE),
        cell.fg == upright.fg,
        cell.bg == upright.bg,
    ensures
        ({
            let a = look(cell, colors, false, false, false, false, false);
            let b = look(upright, colors, false, false, false, false, false);
            a.0 == b.1 && a.1 == b.0
        }),
{
}

} // verus!
