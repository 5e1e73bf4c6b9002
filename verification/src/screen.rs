//! What stands on the screen once the grid is drawn: the pixels of each cell, told from what the
//! cell holds and what is marked there.

use vstd::prelude::*;

use crate::color::{resolved, CellColor, Colors, NamedColor};
use crate::grid::{
    barred, cell_slot, hit, ink, inked, look, with_cell, with_cells, with_rows, Cell, CursorShape,
    GridView, MarksView, Pen,
};
use crate::paint::{law_channels_of_packed, opaque, over, Bitmap, Image, Pixel, Rgb};

verus! {

/// A drawing of the grid: the image before, the glyphs, the grid, what is marked in it, the size of
/// a cell, and the palette.
pub struct Drawing {
    pub img: Image,
    pub glyphs: Map<u64, Bitmap>,
    pub g: GridView,
    pub k: MarksView,
    pub pen: Pen,
    pub colors: Colors,
}

impl Drawing {
    /// The grid is there, a cell has at least two rows and two columns of pixels, and no glyph is
    /// taller than a cell.
    pub open spec fn wf(self) -> bool {
        &&& self.img.shaped()
        &&& self.g.wf()
        &&& 2 <= self.pen.cell_h
        &&& 2 <= self.pen.cell_w
        &&& forall|r: int, c: int|
            0 <= r < self.g.rows && 0 <= c < self.g.cols && (#[trigger] self.g.cell(r, c)).c != ' '
                ==> self.glyphs[cell_slot(self.g.cell(r, c), self.pen.font_px)].h <= self.pen.cell_h
    }

    /// What is on the image afterwards.
    pub open spec fn drawn(self) -> Image {
        with_rows(
            self.img,
            self.glyphs,
            self.g,
            self.k,
            self.pen,
            self.colors,
            self.g.rows as int,
        )
    }

    /// The pixel of a cell so many columns from its left edge and so many rows below its top.
    pub open spec fn pixel(self, row: int, col: int, dx: int, dy: int) -> Pixel {
        self.drawn().at(col * self.pen.cell_w + dx, row * self.pen.cell_h + dy)
    }

    /// Whether there is such a pixel of such a cell, on the image.
    pub open spec fn shows(self, row: int, col: int, dx: int, dy: int) -> bool {
        &&& 0 <= row < self.g.rows
        &&& 0 <= col < self.g.cols
        &&& 0 <= dx < self.pen.cell_w
        &&& 0 <= dy < self.pen.cell_h
        &&& self.img.has(col * self.pen.cell_w + dx, row * self.pen.cell_h + dy)
    }

    /// The cell that a row of the view shows: the view starts so many lines above the screen as it
    /// is scrolled.
    pub open spec fn cell(self, row: int, col: int) -> Cell {
        self.g.lines[self.g.lines.len() - self.g.rows - self.g.offset + row][col]
    }

    /// Whether the text cursor stands in the cell: never in a view that is scrolled.
    pub open spec fn has_cursor(self, row: int, col: int) -> bool {
        self.g.offset == 0 && row == self.g.cursor_line && col == self.g.cursor_col
    }

    /// Whether the cursor stands there as a bar.
    pub open spec fn has_bar(self, row: int, col: int) -> bool {
        self.has_cursor(row, col) && (self.g.shape == CursorShape::Underline || self.g.shape
            == CursorShape::Beam)
    }

    /// Whether the cursor fills the cell.
    pub open spec fn has_block(self, row: int, col: int) -> bool {
        self.has_cursor(row, col) && (self.g.shape == CursorShape::Block || self.g.shape
            == CursorShape::HollowBlock)
    }

    /// Whether a link takes the cell.
    pub open spec fn has_link(self, row: int, col: int) -> bool {
        row < self.k.links.len() && exists|i: int|
            0 <= i < self.k.links[row].len() && (#[trigger] self.k.links[row][i]).start <= col
                < self.k.links[row][i].end
    }

    /// The colors of the cell's text and of what is behind it.
    pub open spec fn look(self, row: int, col: int) -> (Rgb, Rgb) {
        let line = row - self.g.offset;
        let (front, back) = look(
            self.cell(row, col),
            self.colors,
            self.k.in_sel(line, col),
            self.k.in_focus(line, col),
            self.k.in_match(line, col),
            self.has_block(row, col),
            self.k.at_copy_cursor(line, col),
        );
        (front.rgb(self.colors.ansi@), back.rgb(self.colors.ansi@))
    }

    /// The color that the cell's glyph and its rules are drawn in.
    pub open spec fn ink(self, row: int, col: int) -> Rgb {
        ink(
            self.look(row, col).0,
            self.has_link(row, col),
            self.cell(row, col).flags & 0x80 == 0x80,
        )
    }

    /// How much of the pixel the cell's glyph covers.
    pub open spec fn cover(self, row: int, col: int, dx: int, dy: int) -> u8 {
        let b = self.glyphs[cell_slot(self.cell(row, col), self.pen.font_px)];
        b.cover(dx, dy - (self.pen.cell_h - b.h))
    }

    /// The height of a rule.
    pub open spec fn thick(self) -> int {
        if self.pen.cell_h >= 20 {
            self.pen.cell_h as int / 10
        } else {
            1
        }
    }

    /// Whether the row of pixels is one of the rule below the text.
    pub open spec fn below(self, dy: int) -> bool {
        let end = self.pen.cell_h - self.pen.cell_h as int / 12;
        end - self.thick() <= dy < end
    }

    /// Whether the row of pixels is one of the rule through the text.
    pub open spec fn through(self, dy: int) -> bool {
        let start = self.pen.cell_h * 5 / 12;
        start <= dy < start + self.thick()
    }
}

proof fn lemma_sizes(d: Drawing, img: Image, row: int, col: int)
    requires
        img.shaped(),
    ensures
        ({
            let t = with_cell(img, d.glyphs, d.g, d.k, d.pen, d.colors, row, col);
            t.shaped() && t.width == img.width && t.height == img.height
        }),
{
}

/// A cell changes no pixel left of it or above it.
proof fn lemma_elsewhere(d: Drawing, img: Image, row: int, col: int, x: int, y: int)
    requires
        d.wf(),
        img.shaped(),
        img.has(x, y),
        0 <= row < d.g.rows,
        0 <= col < d.g.cols,
        x < col * d.pen.cell_w || y < row * d.pen.cell_h,
    ensures
        with_cell(img, d.glyphs, d.g, d.k, d.pen, d.colors, row, col).at(x, y) == img.at(x, y),
{
    let cell = d.g.cell(row, col);
    if cell.c != ' ' {
        assert(d.glyphs[cell_slot(cell, d.pen.font_px)].h <= d.pen.cell_h);
    }
}

/// A cell settles each of its own pixels, whatever was there before.
proof fn lemma_own(d: Drawing, a: Image, b: Image, row: int, col: int, x: int, y: int)
    requires
        a.shaped(),
        b.shaped(),
        a.width == b.width,
        a.height == b.height,
        a.has(x, y),
        col * d.pen.cell_w <= x < col * d.pen.cell_w + d.pen.cell_w,
        row * d.pen.cell_h <= y < row * d.pen.cell_h + d.pen.cell_h,
    ensures
        with_cell(a, d.glyphs, d.g, d.k, d.pen, d.colors, row, col).at(x, y) == with_cell(
            b,
            d.glyphs,
            d.g,
            d.k,
            d.pen,
            d.colors,
            row,
            col,
        ).at(x, y),
{
}

proof fn lemma_cells(d: Drawing, img: Image, row: int, cols: int, col: int, x: int, y: int)
    requires
        d.wf(),
        img.shaped(),
        img.width == d.img.width,
        img.height == d.img.height,
        img.has(x, y),
        0 <= row < d.g.rows,
        0 <= cols <= d.g.cols,
    ensures
        ({
            let t = with_cells(img, d.glyphs, d.g, d.k, d.pen, d.colors, row, cols);
            &&& t.shaped() && t.width == img.width && t.height == img.height
            &&& y < row * d.pen.cell_h ==> t.at(x, y) == img.at(x, y)
            &&& 0 <= col < cols && col * d.pen.cell_w <= x < col * d.pen.cell_w + d.pen.cell_w && row
                * d.pen.cell_h <= y < row * d.pen.cell_h + d.pen.cell_h ==> t.at(x, y) == with_cell(
                d.img,
                d.glyphs,
                d.g,
                d.k,
                d.pen,
                d.colors,
                row,
                col,
            ).at(x, y)
        }),
    decreases cols,
{
    if cols > 0 {
        lemma_cells(d, img, row, cols - 1, col, x, y);
        let front = with_cells(img, d.glyphs, d.g, d.k, d.pen, d.colors, row, cols - 1);
        lemma_sizes(d, front, row, cols - 1);
        if y < row * d.pen.cell_h {
            lemma_elsewhere(d, front, row, cols - 1, x, y);
        }
        if 0 <= col < cols - 1 && x < col * d.pen.cell_w + d.pen.cell_w {
            assert(col * d.pen.cell_w + d.pen.cell_w <= (cols - 1) * d.pen.cell_w) by (nonlinear_arith)
                requires
                    col + 1 <= cols - 1,
                    0 <= d.pen.cell_w,
            ;
            lemma_elsewhere(d, front, row, cols - 1, x, y);
        }
        if col == cols - 1 && col * d.pen.cell_w <= x < col * d.pen.cell_w + d.pen.cell_w && row
            * d.pen.cell_h <= y < row * d.pen.cell_h + d.pen.cell_h {
            lemma_own(d, front, d.img, row, col, x, y);
        }
    }
}

proof fn lemma_rows(d: Drawing, rows: int, row: int, col: int, x: int, y: int)
    requires
        d.wf(),
        d.img.has(x, y),
        0 <= rows <= d.g.rows,
        0 <= col < d.g.cols,
    ensures
        ({
            let t = with_rows(d.img, d.glyphs, d.g, d.k, d.pen, d.colors, rows);
            &&& t.shaped() && t.width == d.img.width && t.height == d.img.height
            &&& 0 <= row < rows && col * d.pen.cell_w <= x < col * d.pen.cell_w + d.pen.cell_w && row
                * d.pen.cell_h <= y < row * d.pen.cell_h + d.pen.cell_h ==> t.at(x, y) == with_cell(
                d.img,
                d.glyphs,
                d.g,
                d.k,
                d.pen,
                d.colors,
                row,
                col,
            ).at(x, y)
        }),
    decreases rows,
{
    if rows > 0 {
        lemma_rows(d, rows - 1, row, col, x, y);
        let front = with_rows(d.img, d.glyphs, d.g, d.k, d.pen, d.colors, rows - 1);
        lemma_cells(d, front, rows - 1, d.g.cols as int, col, x, y);
        if 0 <= row < rows - 1 && y < row * d.pen.cell_h + d.pen.cell_h {
            assert(row * d.pen.cell_h + d.pen.cell_h <= (rows - 1) * d.pen.cell_h) by (nonlinear_arith)
                requires
                    row + 1 <= rows - 1,
                    0 <= d.pen.cell_h,
            ;
        }
    }
}

/// The text of a cell: a rule, or the glyph laid over what is behind it.
proof fn lemma_inked(d: Drawing, img: Image, cell: Cell, x0: int, y0: int, c: Rgb, link: bool, x: int, y: int)
    requires
        2 <= d.pen.cell_h,
        img.shaped(),
        img.has(x, y),
        x0 <= x < x0 + d.pen.cell_w,
        y0 <= y < y0 + d.pen.cell_h,
    ensures
        ({
            let b = d.glyphs[cell_slot(cell, d.pen.font_px)];
            let under = cell.flags & 0x8 == 0x8 || link;
            let struck = cell.flags & 0x200 == 0x200;
            inked(img, d.glyphs, d.pen, cell, x0, y0, c, link).at(x, y) == if (under && d.below(y - y0))
                || (struck && d.through(y - y0)) {
                opaque(c)
            } else {
                over(img.at(x, y), c, b.cover(x - x0, y - y0 - (d.pen.cell_h - b.h)))
            }
        }),
{
    let b = d.glyphs[cell_slot(cell, d.pen.font_px)];
    let g = img.stamp(x0, y0 + d.pen.cell_h, b, c);
    assert(g.at(x, y) == over(img.at(x, y), c, b.cover(x - x0, y - (y0 + d.pen.cell_h - b.h))));
}

/// A cell's bar cursor: along its bottom, or along its left edge.
proof fn lemma_barred(d: Drawing, img: Image, x0: int, y0: int, x: int, y: int)
    requires
        2 <= d.pen.cell_h,
        2 <= d.pen.cell_w,
        img.shaped(),
        img.has(x, y),
        x0 <= x < x0 + d.pen.cell_w,
        y0 <= y < y0 + d.pen.cell_h,
    ensures
        barred(img, d.pen, d.g.shape, x0, y0, d.colors.cursor).at(x, y) == if (d.g.shape
            == CursorShape::Underline && y - y0 >= d.pen.cell_h - d.bar_height()) || (d.g.shape
            == CursorShape::Beam && x - x0 < d.bar_width()) {
            opaque(d.colors.cursor)
        } else {
            img.at(x, y)
        },
{
}

impl Drawing {
    /// How high a cursor along the bottom of a cell is.
    pub open spec fn bar_height(self) -> int {
        if self.pen.cell_h >= 10 {
            self.pen.cell_h as int / 5
        } else {
            2
        }
    }

    /// How wide a cursor along the left edge of a cell is.
    pub open spec fn bar_width(self) -> int {
        if self.pen.cell_w >= 12 {
            self.pen.cell_w as int / 6
        } else {
            2
        }
    }

    /// Whether the pixel of the cell is one of the cursor's bar.
    pub open spec fn in_bar(self, row: int, col: int, dx: int, dy: int) -> bool {
        self.has_cursor(row, col) && ((self.g.shape == CursorShape::Underline && dy >= self.pen.cell_h
            - self.bar_height()) || (self.g.shape == CursorShape::Beam && dx < self.bar_width()))
    }
}

/// What a pixel of a cell is: the cursor's bar, a rule, or the glyph laid over the background.
proof fn lemma_pixel(d: Drawing, row: int, col: int, dx: int, dy: int)
    requires
        d.wf(),
        d.shows(row, col, dx, dy),
    ensures
        ({
            let cell = d.cell(row, col);
            let under = cell.flags & 0x8 == 0x8 || d.has_link(row, col);
            let struck = cell.flags & 0x200 == 0x200;
            let back = opaque(d.look(row, col).1);
            let text = if cell.c == ' ' {
                back
            } else if (under && d.below(dy)) || (struck && d.through(dy)) {
                opaque(d.ink(row, col))
            } else {
                over(back, d.ink(row, col), d.cover(row, col, dx, dy))
            };
            d.pixel(row, col, dx, dy) == if d.in_bar(row, col, dx, dy) {
                opaque(d.colors.cursor)
            } else {
                text
            }
        }),
{
    let x0 = col * d.pen.cell_w;
    let y0 = row * d.pen.cell_h;
    let x = x0 + dx;
    let y = y0 + dy;
    lemma_rows(d, d.g.rows as int, row, col, x, y);
    let cell = d.g.cell(row, col);
    assert(cell == d.cell(row, col));
    assert(d.g.cursor_at(row, col) == d.has_cursor(row, col));
    assert(d.k.in_link(row, col) == d.has_link(row, col));
    let (_, back) = d.look(row, col);
    let filled = d.img.fill(x0, y0, d.pen.cell_w as int, d.pen.cell_h as int, opaque(back));
    assert(filled.at(x, y) == opaque(back));
    let c = d.ink(row, col);
    let link = d.has_link(row, col);
    lemma_inked(d, filled, cell, x0, y0, c, link, x, y);
    let text = if cell.c == ' ' {
        filled
    } else {
        inked(filled, d.glyphs, d.pen, cell, x0, y0, c, link)
    };
    assert(text.shaped());
    lemma_barred(d, text, x0, y0, x, y);
    let all = if d.has_cursor(row, col) {
        barred(text, d.pen, d.g.shape, x0, y0, d.colors.cursor)
    } else {
        text
    };
    assert(with_cell(d.img, d.glyphs, d.g, d.k, d.pen, d.colors, row, col) == all);
}

/// Underlined text carries a rule across the whole cell, in the color of the text, whether a link
/// takes the cell or not: it is a tenth of the cell high, at least one pixel, and ends a twelfth of
/// the cell's height above its bottom.
pub proof fn law_underlined_text_has_a_rule(d: Drawing, row: int, col: int, dx: int, dy: int)
    requires
        d.wf(),
        d.shows(row, col, dx, dy),
        d.cell(row, col).c != ' ',
        d.cell(row, col).flags & 0x8 == 0x8,
        d.cell(row, col).flags & 0x200 != 0x200,
        !d.has_bar(row, col),
        ({
            let h = d.pen.cell_h as int;
            let t = if h / 10 > 1 {
                h / 10
            } else {
                1
            };
            h - t - h / 12 <= dy < h - h / 12
        }),
    ensures
        d.pixel(row, col, dx, dy) == opaque(d.ink(row, col)),
{
    lemma_pixel(d, row, col, dx, dy);
}

/// A link carries the same rule.
pub proof fn law_links_have_a_rule(d: Drawing, row: int, col: int, dx: int, dy: int)
    requires
        d.wf(),
        d.shows(row, col, dx, dy),
        d.cell(row, col).c != ' ',
        d.has_link(row, col),
        !d.has_bar(row, col),
        ({
            let h = d.pen.cell_h as int;
            let t = if h / 10 > 1 {
                h / 10
            } else {
                1
            };
            h - t - h / 12 <= dy < h - h / 12
        }),
    ensures
        d.pixel(row, col, dx, dy) == opaque(d.ink(row, col)),
{
    lemma_pixel(d, row, col, dx, dy);
}

/// Struck text carries a rule across the whole cell that starts five twelfths of the cell's height
/// below its top, in the color of the text.
pub proof fn law_struck_text_has_a_rule(d: Drawing, row: int, col: int, dx: int, dy: int)
    requires
        d.wf(),
        d.shows(row, col, dx, dy),
        d.cell(row, col).c != ' ',
        d.cell(row, col).flags & 0x200 == 0x200,
        !d.has_bar(row, col),
        ({
            let h = d.pen.cell_h as int;
            let t = if h / 10 > 1 {
                h / 10
            } else {
                1
            };
            h * 5 / 12 <= dy < h * 5 / 12 + t
        }),
    ensures
        d.pixel(row, col, dx, dy) == opaque(d.ink(row, col)),
{
    lemma_pixel(d, row, col, dx, dy);
}

/// Text that is neither underlined, nor struck, nor a link carries no rule: beside its glyph there
/// is nothing but its background.
pub proof fn law_plain_text_has_no_rule(d: Drawing, row: int, col: int, dx: int, dy: int)
    requires
        d.wf(),
        d.shows(row, col, dx, dy),
        d.cell(row, col).c != ' ',
        d.cell(row, col).flags & 0x8 != 0x8,
        d.cell(row, col).flags & 0x200 != 0x200,
        !d.has_link(row, col),
        !d.has_bar(row, col),
        d.cover(row, col, dx, dy) == 0,
    ensures
        d.pixel(row, col, dx, dy) == opaque(d.look(row, col).1),
{
    lemma_pixel(d, row, col, dx, dy);
}

/// Off its rules, a cell shows its glyph, standing on the bottom of the cell at its left edge:
/// where the glyph covers a pixel wholly the pixel has the color of the text, where it covers none
/// it has the color behind, and in between each channel is mixed of the two by how much is covered.
pub proof fn law_glyphs_show(d: Drawing, row: int, col: int, dx: int, dy: int)
    requires
        d.wf(),
        d.shows(row, col, dx, dy),
        d.cell(row, col).c != ' ',
        !d.has_bar(row, col),
        !d.below(dy),
        !d.through(dy),
    ensures
        ({
            let p = d.pixel(row, col, dx, dy);
            let a = d.cover(row, col, dx, dy);
            let (c, b) = (d.ink(row, col), d.look(row, col).1);
            &&& a == 255 ==> p == opaque(c)
            &&& a == 0 ==> p == opaque(b)
            &&& p == opaque((
                ((c.0 * a + b.0 * (255 - a)) / 255) as u8,
                ((c.1 * a + b.1 * (255 - a)) / 255) as u8,
                ((c.2 * a + b.2 * (255 - a)) / 255) as u8,
            ))
        }),
{
    lemma_pixel(d, row, col, dx, dy);
    let (c, b) = (d.ink(row, col), d.look(row, col).1);
    law_channels_of_packed(255, b.0, b.1, b.2);
    assert((b.0 * 255) / 255 == b.0 && (b.1 * 255) / 255 == b.1 && (b.2 * 255) / 255 == b.2);
    assert(c.0 * 0 == 0 && c.1 * 0 == 0 && c.2 * 0 == 0);
}

/// A blank cell is filled with the color behind its text, from edge to edge.
pub proof fn law_blank_cells_are_filled(d: Drawing, row: int, col: int, dx: int, dy: int)
    requires
        d.wf(),
        d.shows(row, col, dx, dy),
        d.cell(row, col).c == ' ',
        !d.has_bar(row, col),
    ensures
        d.pixel(row, col, dx, dy) == opaque(d.look(row, col).1),
{
    lemma_pixel(d, row, col, dx, dy);
}

/// The cursor of a live view is seen: as a bar along the bottom of its cell, a fifth of its height
/// and at least two pixels, or along its left edge, a sixth of its width and at least two pixels,
/// in the cursor's color and over whatever the cell shows; as a block it is the cell with the
/// text's color behind and the background's in front.
pub proof fn law_cursor_is_seen(d: Drawing, row: int, col: int, dx: int, dy: int)
    requires
        d.wf(),
        d.shows(row, col, dx, dy),
        d.g.offset == 0,
        row == d.g.cursor_line,
        col == d.g.cursor_col,
    ensures
        ({
            let (w, h) = (d.pen.cell_w as int, d.pen.cell_h as int);
            let p = d.pixel(row, col, dx, dy);
            &&& d.g.shape == CursorShape::Underline && (dy >= h - h / 5 || dy >= h - 2) ==> p == opaque(
                d.colors.cursor,
            )
            &&& d.g.shape == CursorShape::Beam && (dx < w / 6 || dx < 2) ==> p == opaque(
                d.colors.cursor,
            )
            &&& (d.g.shape == CursorShape::Block || d.g.shape == CursorShape::HollowBlock)
                && d.k.copy is None ==> {
                &&& d.look(row, col).0 == d.colors.bg
                &&& d.cell(row, col).c == ' ' ==> p == opaque(d.without_cursor().look(row, col).0)
            }
        }),
{
    lemma_pixel(d, row, col, dx, dy);
}

impl Drawing {
    /// The drawing with the cursor hidden.
    pub open spec fn without_cursor(self) -> Drawing {
        Drawing { g: GridView { shape: CursorShape::Hidden, ..self.g }, ..self }
    }
}

/// Beside its bar, and in every other cell, a bar cursor changes nothing.
pub proof fn law_bar_keeps_to_its_place(d: Drawing, row: int, col: int, dx: int, dy: int)
    requires
        d.wf(),
        d.shows(row, col, dx, dy),
        ({
            let (w, h) = (d.pen.cell_w as int, d.pen.cell_h as int);
            ||| !d.has_cursor(row, col)
            ||| d.g.shape == CursorShape::Hidden
            ||| d.g.shape == CursorShape::Underline && dy < h - h / 5 && dy < h - 2
            ||| d.g.shape == CursorShape::Beam && dx >= w / 6 && dx >= 2
        }),
    ensures
        d.pixel(row, col, dx, dy) == d.without_cursor().pixel(row, col, dx, dy),
{
    let e = d.without_cursor();
    assert(e.wf()) by {
        assert forall|r: int, c: int|
            0 <= r < e.g.rows && 0 <= c < e.g.cols && (#[trigger] e.g.cell(r, c)).c
                != ' ' implies e.glyphs[cell_slot(e.g.cell(r, c), e.pen.font_px)].h <= e.pen.cell_h by {
            assert(e.g.cell(r, c) == d.g.cell(r, c));
        }
    }
    lemma_pixel(d, row, col, dx, dy);
    lemma_pixel(e, row, col, dx, dy);
    assert(e.cell(row, col) == d.cell(row, col));
    assert(e.look(row, col) == d.look(row, col));
    assert(e.has_link(row, col) == d.has_link(row, col));
}

/// Whether nothing is marked in the cell, and no cursor fills it.
pub open spec fn unmarked(d: Drawing, row: int, col: int) -> bool {
    &&& d.k.find is None
    &&& d.k.matches.len() == 0
    &&& d.k.sel is None
    &&& d.k.copy is None
    &&& !d.has_block(row, col)
}

/// Where nothing is marked a cell has its own colors: the text that of its foreground, and what is
/// behind that of its background, and the other way round in inverse video.
pub proof fn law_own_colors(d: Drawing, row: int, col: int, front: Rgb, back: Rgb)
    requires
        unmarked(d, row, col),
        is_color(d.cell(row, col).fg, d.colors, front),
        is_color(d.cell(row, col).bg, d.colors, back),
    ensures
        d.cell(row, col).flags & 0x1 != 0x1 ==> d.look(row, col) == (front, back),
        d.cell(row, col).flags & 0x1 == 0x1 ==> d.look(row, col) == (back, front),
{
    let cell = d.cell(row, col);
    law_colors_are_told(cell.fg, d.colors, front);
    law_colors_are_told(cell.bg, d.colors, back);
    let line = row - d.g.offset;
    assert(!d.k.in_match(line, col) && !d.k.in_focus(line, col) && !d.k.in_sel(line, col)
        && !d.k.at_copy_cursor(line, col));
}

/// Each color of a cell becomes the one that it stands for under the palette.
pub proof fn law_colors_are_told(c: CellColor, p: Colors, rgb: Rgb)
    requires
        is_color(c, p, rgb),
    ensures
        resolved(c, p.fg, p.bg).rgb(p.ansi@) == rgb,
{
    if let CellColor::Indexed(i) = c {
        if 16 <= i < 232 {
            let (r, g, b) = choose|r: int, g: int, b: int|
                0 <= r < 6 && 0 <= g < 6 && 0 <= b < 6 && i == 16 + r * 36 + g * 6 + b
                    && #[trigger] cube(r, g, b) == rgb;
            let n = i - 16;
            assert(n / 36 == r && (n / 6) % 6 == g && n % 6 == b);
        }
    }
}

/// What a color of a cell is under a palette: the sixteen named ones and the first sixteen numbers
/// are the palette's, the others of the names its foreground but for its background, the next
/// numbers the cube of six levels for each channel, and the last a row of greys.
pub open spec fn is_color(c: CellColor, p: Colors, rgb: Rgb) -> bool {
    match c {
        CellColor::Spec { r, g, b } => rgb == (r, g, b),
        CellColor::Indexed(i) => if i < 16 {
            rgb == p.ansi@[i as int]
        } else if i < 232 {
            exists|r: int, g: int, b: int|
                0 <= r < 6 && 0 <= g < 6 && 0 <= b < 6 && i == 16 + r * 36 + g * 6 + b
                    && #[trigger] cube(r, g, b) == rgb
        } else {
            rgb.0 == rgb.1 && rgb.1 == rgb.2 && rgb.0 == 8 + (i - 232) * 10
        },
        CellColor::Named(n) => match n {
            NamedColor::Black => rgb == p.ansi@[0],
            NamedColor::Red => rgb == p.ansi@[1],
            NamedColor::Green => rgb == p.ansi@[2],
            NamedColor::Yellow => rgb == p.ansi@[3],
            NamedColor::Blue => rgb == p.ansi@[4],
            NamedColor::Magenta => rgb == p.ansi@[5],
            NamedColor::Cyan => rgb == p.ansi@[6],
            NamedColor::White => rgb == p.ansi@[7],
            NamedColor::BrightBlack => rgb == p.ansi@[8],
            NamedColor::BrightRed => rgb == p.ansi@[9],
            NamedColor::BrightGreen => rgb == p.ansi@[10],
            NamedColor::BrightYellow => rgb == p.ansi@[11],
            NamedColor::BrightBlue => rgb == p.ansi@[12],
            NamedColor::BrightMagenta => rgb == p.ansi@[13],
            NamedColor::BrightCyan => rgb == p.ansi@[14],
            NamedColor::BrightWhite => rgb == p.ansi@[15],
            NamedColor::Background => rgb == p.bg,
            _ => rgb == p.fg,
        },
    }
}

/// A color of the cube, by the level of each channel: none, and then from 95 up in steps of 40.
pub open spec fn cube(r: int, g: int, b: int) -> Rgb {
    let level = |v: int|
        if v == 0 {
            0u8
        } else {
            (95 + (v - 1) * 40) as u8
        };
    (level(r), level(g), level(b))
}

/// The colors of a search match: black on orange where it has the focus, and on yellow where it has
/// not, whatever else is marked there, cursors apart. A match takes as many cells from its column
/// on as it is wide, in its own line.
pub proof fn law_matches_stand_out(d: Drawing, row: int, col: int, i: int)
    requires
        !d.has_block(row, col),
        d.k.copy is None,
    ensures
        ({
            let at = |f: (i32, usize, usize)|
                f.0 == row - d.g.offset && f.1 <= col && col - f.1 < f.2;
            &&& d.k.find matches Some(f) ==> at(f) ==> d.look(row, col) == ((0u8, 0u8, 0u8), (
                0xffu8,
                0x99u8,
                0x00u8,
            ))
            &&& (d.k.find matches Some(f) ==> !at(f)) && 0 <= i < d.k.matches.len() && at(
                d.k.matches[i],
            ) ==> d.look(row, col) == ((0u8, 0u8, 0u8), (0xffu8, 0xd2u8, 0x00u8))
            &&& (d.k.find matches Some(f) ==> !at(f)) && (forall|j: int|
                0 <= j < d.k.matches.len() ==> !at(#[trigger] d.k.matches[j])) ==> d.look(row, col)
                == d.without_matches().look(row, col)
        }),
{
    if 0 <= i < d.k.matches.len() {
        assert(hit(d.k.matches[i], row - d.g.offset, col) == (d.k.matches[i].0 == row
            - d.g.offset && d.k.matches[i].1 <= col && col - d.k.matches[i].1 < d.k.matches[i].2));
    }
    let at = |f: (i32, usize, usize)| f.0 == row - d.g.offset && f.1 <= col && col - f.1 < f.2;
    if forall|j: int| 0 <= j < d.k.matches.len() ==> !at(#[trigger] d.k.matches[j]) {
        assert(!d.k.in_match(row - d.g.offset, col));
    }
}

impl Drawing {
    /// The drawing without search matches.
    pub open spec fn without_matches(self) -> Drawing {
        Drawing { k: MarksView { find: None, matches: Seq::empty(), ..self.k }, ..self }
    }

    /// The drawing without a selection.
    pub open spec fn without_selection(self) -> Drawing {
        Drawing { k: MarksView { sel: None, ..self.k }, ..self }
    }
}

/// What is selected has the selection's color behind and its text as it was; what is not is as it
/// was. A selection within one line takes the cells from its first column to its last; one over
/// several lines takes the first line from its first column on, the last up to its last column, and
/// those in between whole.
pub proof fn law_selection_is_seen(d: Drawing, row: int, col: int)
    requires
        d.k.find is None,
        d.k.matches.len() == 0,
        d.k.copy is None,
        !d.has_block(row, col),
        d.k.sel matches Some(s) && !s.is_block,
        0 <= col <= usize::MAX,
        i32::MIN <= row - d.g.offset <= i32::MAX,
    ensures
        ({
            let s = d.k.sel->0;
            let line = row - d.g.offset;
            let from = s.start_line < line || (s.start_line == line && s.start_col <= col);
            let to = line < s.end_line || (line == s.end_line && col <= s.end_col);
            &&& from && to ==> d.look(row, col) == (
                d.without_selection().look(row, col).0,
                d.colors.selection,
            )
            &&& !(from && to) ==> d.look(row, col) == d.without_selection().look(row, col)
        }),
{
}

/// The cursor of copy mode is black on its own color, over everything, and in its own cell only.
pub proof fn law_copy_cursor_is_seen(d: Drawing, row: int, col: int, at: (i32, usize))
    requires
        d.k.copy == Some(at),
    ensures
        at.0 == row - d.g.offset && at.1 == col ==> d.look(row, col) == (
            (0u8, 0u8, 0u8),
            d.colors.copy_cursor,
        ),
        !(at.0 == row - d.g.offset && at.1 == col) ==> d.look(row, col) == (Drawing {
            k: MarksView { copy: None, ..d.k },
            ..d
        }).look(row, col),
{
    let e = Drawing { k: MarksView { copy: None, ..d.k }, ..d };
    let line = row - d.g.offset;
    assert(e.k.matches == d.k.matches);
    if d.k.in_match(line, col) {
        let i = choose|i: int| 0 <= i < d.k.matches.len() && hit(#[trigger] d.k.matches[i], line, col);
        assert(hit(e.k.matches[i], line, col));
    }
    if e.k.in_match(line, col) {
        let i = choose|i: int| 0 <= i < e.k.matches.len() && hit(#[trigger] e.k.matches[i], line, col);
        assert(hit(d.k.matches[i], line, col));
    }
    assert(e.cell(row, col) == d.cell(row, col));
    assert(e.has_block(row, col) == d.has_block(row, col));
}

/// The color of the text: dim text is half as bright, and a link's is drawn a third of the way
/// toward the blue of links; else it is the color in front.
pub proof fn law_ink(d: Drawing, row: int, col: int)
    ensures
        ({
            let c = d.look(row, col).0;
            let dim = d.cell(row, col).flags & 0x80 == 0x80;
            let link = d.has_link(row, col);
            &&& !dim && !link ==> d.ink(row, col) == c
            &&& dim && !link ==> d.ink(row, col) == (c.0 / 2, c.1 / 2, c.2 / 2)
            &&& link && !dim ==> {
                let t = d.ink(row, col);
                &&& t.0 == c.0 as int * 2 / 3 + 30
                &&& t.1 == c.1 as int * 2 / 3 + 61
                &&& t.2 == c.2 as int * 2 / 3 + 85
            }
        }),
{
}

/// A pixel of a color is opaque and holds its three channels in their places.
pub proof fn law_opaque(c: Rgb)
    ensures
        opaque(c) == 0xff00_0000 + c.0 * 0x1_0000 + c.1 * 0x100 + c.2,
{
}

/// Drawing the grid leaves the pixels beside the grid alone.
pub proof fn law_grid_keeps_to_itself(d: Drawing, x: int, y: int)
    requires
        d.wf(),
        d.img.has(x, y),
        y >= d.g.rows * d.pen.cell_h,
    ensures
        d.drawn().at(x, y) == d.img.at(x, y),
{
    lemma_beside(d, d.g.rows as int, x, y);
}

proof fn lemma_beside(d: Drawing, rows: int, x: int, y: int)
    requires
        d.wf(),
        d.img.has(x, y),
        0 <= rows <= d.g.rows,
        y >= d.g.rows * d.pen.cell_h,
    ensures
        ({
            let t = with_rows(d.img, d.glyphs, d.g, d.k, d.pen, d.colors, rows);
            t.shaped() && t.width == d.img.width && t.height == d.img.height && t.at(x, y) == d.img.at(
                x,
                y,
            )
        }),
    decreases rows,
{
    if rows > 0 {
        lemma_beside(d, rows - 1, x, y);
        let front = with_rows(d.img, d.glyphs, d.g, d.k, d.pen, d.colors, rows - 1);
        lemma_beside_row(d, front, rows - 1, d.g.cols as int, x, y);
    }
}

proof fn lemma_beside_row(d: Drawing, img: Image, row: int, cols: int, x: int, y: int)
    requires
        d.wf(),
        img.shaped(),
        img.has(x, y),
        0 <= row < d.g.rows,
        0 <= cols <= d.g.cols,
        y >= d.g.rows * d.pen.cell_h,
    ensures
        ({
            let t = with_cells(img, d.glyphs, d.g, d.k, d.pen, d.colors, row, cols);
            t.shaped() && t.width == img.width && t.height == img.height && t.at(x, y) == img.at(x, y)
        }),
    decreases cols,
{
    if cols > 0 {
        lemma_beside_row(d, img, row, cols - 1, x, y);
        let front = with_cells(img, d.glyphs, d.g, d.k, d.pen, d.colors, row, cols - 1);
        lemma_sizes(d, front, row, cols - 1);
        assert(row * d.pen.cell_h + d.pen.cell_h <= d.g.rows * d.pen.cell_h) by (nonlinear_arith)
            requires
                row + 1 <= d.g.rows,
                0 <= d.pen.cell_h,
        ;
        lemma_below(d, front, row, cols - 1, x, y);
    }
}

/// A cell changes no pixel below it.
proof fn lemma_below(d: Drawing, img: Image, row: int, col: int, x: int, y: int)
    requires
        d.wf(),
        img.shaped(),
        img.has(x, y),
        y >= row * d.pen.cell_h + d.pen.cell_h,
    ensures
        with_cell(img, d.glyphs, d.g, d.k, d.pen, d.colors, row, col).at(x, y) == img.at(x, y),
{
}

} // verus!
