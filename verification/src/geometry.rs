//! Where things stand in the window: the bars, the grid, the tiles of the fleet grid.

use vstd::prelude::*;

use crate::lettering::clamped;

verus! {

/// The sum of two numbers, or the largest number.
pub fn plus(a: usize, b: usize) -> (r: usize)
    ensures
        r == clamped(a + b),
{
    a.saturating_add(b)
}

/// The product of two numbers, or the largest number.
pub fn times(a: usize, b: usize) -> (r: usize)
    ensures
        r == clamped(a * b),
{
    match a.checked_mul(b) {
        Some(n) => n,
        None => usize::MAX,
    }
}

/// The difference of two numbers, or zero.
pub open spec fn less(a: int, b: int) -> int {
    if a < b {
        0
    } else {
        a - b
    }
}

/// The measures of the window, in pixels.
#[derive(Clone, Copy, Debug, PartialEq, Eq, Structural)]
pub struct Metrics {
    pub width: usize,
    pub height: usize,
    pub font_px: u32,
    pub cell_w: usize,
    pub cell_h: usize,
}

/// Where the tiles of the fleet grid stand: the first tile's corner, a tile's size, the columns,
/// how many tiles there are, and the window's height.
#[derive(Clone, Copy, Debug, PartialEq, Eq, Structural)]
pub struct Tiles {
    pub x0: usize,
    pub y0: usize,
    pub tw: usize,
    pub th: usize,
    pub cols: usize,
    pub n: usize,
    pub height: usize,
}

impl Metrics {
    /// The height of the bar on top: two rows, or none where the bars are hidden.
    pub open spec fn top(self, hidden: bool) -> int {
        if hidden {
            0
        } else {
            clamped(self.cell_h * 2)
        }
    }

    /// The height of the bar at the bottom.
    pub open spec fn bottom(self, hidden: bool) -> int {
        if hidden {
            0
        } else {
            self.cell_h as int
        }
    }

    /// The height of a line of an overlay.
    pub open spec fn line(self) -> int {
        clamped(self.font_px + 6)
    }

    /// The height of the bar on top.
    pub fn chrome_top(&self, hidden: bool) -> (r: usize)
        ensures
            r == self.top(hidden),
    {
        if hidden {
            0
        } else {
            times(self.cell_h, 2)
        }
    }

    /// The height of the bar at the bottom.
    pub fn chrome_bottom(&self, hidden: bool) -> (r: usize)
        ensures
            r == self.bottom(hidden),
    {
        if hidden {
            0
        } else {
            self.cell_h
        }
    }

    /// The distance between two lines of an overlay.
    pub fn line_px(&self) -> (r: usize)
        ensures
            r == self.line(),
    {
        plus(self.font_px as usize, 6)
    }

    /// Where an overlay starts, and how high its lines are.
    pub fn overlay_base_y(&self, hidden: bool) -> (r: (usize, usize))
        ensures
            r.0 == clamped(self.top(hidden) + 4),
            r.1 == self.line(),
    {
        (plus(self.chrome_top(hidden), 4), self.line_px())
    }

    /// How many columns of tiles fit: a tile takes at least twelve cells, and there are no more
    /// columns than tiles.
    pub open spec fn tile_cols(self, n: int) -> int {
        let unit = clamped(
            (if self.cell_w == 0 {
                1
            } else {
                self.cell_w as int
            }) * 12,
        );
        let fit = less(self.width as int, 16) / unit;
        let fit = if fit < 1 {
            1
        } else {
            fit
        };
        if fit < n {
            fit
        } else {
            n
        }
    }

    /// Where the tiles of `n` sessions stand; without a session there is room for one.
    pub open spec fn tiles(self, hidden: bool, n: int) -> Tiles {
        let n = if n < 1 {
            1
        } else {
            n
        };
        let cols = self.tile_cols(n);
        Tiles {
            x0: 8,
            y0: clamped(clamped(self.top(hidden) + 2) + self.line()) as usize,
            tw: (less(self.width as int, 16) / cols) as usize,
            th: clamped(self.cell_h * 4) as usize,
            cols: cols as usize,
            n: n as usize,
            height: self.height,
        }
    }

    /// Where the tiles of the fleet grid stand.
    pub fn fleet_grid_geom(&self, hidden: bool, tabs: usize) -> (r: Tiles)
        ensures
            r == self.tiles(hidden, tabs as int),
            r.cols >= 1,
            r.n >= 1,
    {
        let n: usize = if tabs < 1 {
            1
        } else {
            tabs
        };
        let inner: usize = if self.width < 16 {
            0
        } else {
            self.width - 16
        };
        let unit: usize = times(
            if self.cell_w == 0 {
                1
            } else {
                self.cell_w
            },
            12,
        );
        let fit: usize = inner / unit;
        let fit: usize = if fit < 1 {
            1
        } else {
            fit
        };
        let cols: usize = if fit < n {
            fit
        } else {
            n
        };
        let y0: usize = plus(plus(self.chrome_top(hidden), 2), self.line_px());
        let th: usize = times(self.cell_h, 4);
        Tiles { x0: 8, y0, tw: inner / cols, th, cols, n, height: self.height }
    }

    /// The size of the grid between two bars, in rows and columns.
    pub open spec fn grid_size(self, top: int, bottom: int) -> (int, int) {
        let room = less(less(self.height as int, bottom), top);
        (
            (if room < 1 {
                1
            } else {
                room
            }) / self.cell_h as int,
            (if self.width < 1 {
                1
            } else {
                self.width as int
            }) / self.cell_w as int,
        )
    }

    /// The size of the grid between two bars, in rows and columns.
    pub fn grid_cells(&self, top: usize, bottom: usize) -> (r: (usize, usize))
        requires
            self.cell_w > 0,
            self.cell_h > 0,
        ensures
            (r.0 as int, r.1 as int) == self.grid_size(top as int, bottom as int),
    {
        let room: usize = self.height.saturating_sub(bottom).saturating_sub(top);
        let room: usize = if room < 1 {
            1
        } else {
            room
        };
        let width: usize = if self.width < 1 {
            1
        } else {
            self.width
        };
        (room / self.cell_h, width / self.cell_w)
    }

    /// The row and the column of the grid at a place of the window, where there is a cell between
    /// the bars and within the columns.
    pub open spec fn cell_at(self, top: int, bottom: int, x: int, y: int) -> Option<(int, int)> {
        if self.cell_w == 0 || self.cell_h == 0 || x < 0 || y < top || y >= self.height - bottom || x
            / self.cell_w as int >= self.width as int / self.cell_w as int {
            None
        } else {
            Some(((y - top) / self.cell_h as int, x / self.cell_w as int))
        }
    }

    /// The row and the column of the grid at a place of the window; nothing on a bar or in the
    /// gutter that is too narrow for a column.
    pub fn mouse_to_cell(&self, top: usize, bottom: usize, x: i64, y: i64) -> (r: Option<
        (usize, usize),
    >)
        ensures
            match r {
                Some(c) => self.cell_at(top as int, bottom as int, x as int, y as int) == Some(
                    (c.0 as int, c.1 as int),
                ) && c.0 < usize::MAX && c.1 < usize::MAX,
                None => self.cell_at(top as int, bottom as int, x as int, y as int) is None,
            },
    {
        if self.cell_w == 0 || self.cell_h == 0 || x < 0 {
            return None;
        }
        let (w, h): (i128, i128) = (self.width as i128, self.height as i128);
        let (cw, ch): (i128, i128) = (self.cell_w as i128, self.cell_h as i128);
        let (px, py): (i128, i128) = (x as i128, y as i128);
        if py < top as i128 || py >= h - bottom as i128 || px / cw >= w / cw {
            return None;
        }
        let row: i128 = (py - top as i128) / ch;
        let col: i128 = px / cw;
        proof {
            let (a, b) = (py - top, ch as int);
            vstd::arithmetic::div_mod::lemma_div_is_ordered_by_denominator(a, 1, b);
            vstd::arithmetic::div_mod::lemma_div_basics(a);
            vstd::arithmetic::div_mod::lemma_div_is_ordered_by_denominator(w as int, 1, cw as int);
            vstd::arithmetic::div_mod::lemma_div_basics(w as int);
            vstd::arithmetic::div_mod::lemma_div_pos_is_pos(a, b);
            vstd::arithmetic::div_mod::lemma_div_pos_is_pos(px as int, cw as int);
        }
        Some((row as usize, col as usize))
    }
}

/// A cell under the pointer is one that the grid shows.
pub proof fn law_cell_is_on_the_grid(m: Metrics, top: int, bottom: int, x: int, y: int)
    requires
        0 <= top,
        0 <= bottom,
        m.cell_at(top, bottom, x, y) is Some,
        (m.height - bottom - top) % m.cell_h as int == 0,
    ensures
        ({
            let c = m.cell_at(top, bottom, x, y).unwrap();
            0 <= c.0 < m.grid_size(top, bottom).0 && 0 <= c.1 < m.grid_size(top, bottom).1
        }),
{
    let (a, h) = (y - top, m.cell_h as int);
    let room = m.height - bottom - top;
    vstd::arithmetic::div_mod::lemma_div_pos_is_pos(a, h);
    vstd::arithmetic::div_mod::lemma_div_pos_is_pos(x, m.cell_w as int);
    vstd::arithmetic::div_mod::lemma_fundamental_div_mod(room, h);
    vstd::arithmetic::div_mod::lemma_fundamental_div_mod(a, h);
    assert(a / h < room / h) by (nonlinear_arith)
        requires
            a < room,
            room == h * (room / h),
            a == h * (a / h) + a % h,
            0 <= a % h,
            h > 0,
    ;
}

} // verus!
