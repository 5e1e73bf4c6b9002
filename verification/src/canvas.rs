//! The canvas of a window: its ground, and the grid of the active session between the bars.

use vstd::prelude::*;

use crate::color::Colors;
use crate::glyph::{Face, GlyphCache};
use crate::grid::{
    covers_rows, draw_grid, marks_of, with_rows, Find, Grid, GridView, Pen, Selected, UrlSpan,
};
use crate::paint::{fill_rect, lemma_same_image, opaque, Framebuffer, Image, Pixel, Rgb};

verus! {

impl Image {
    /// An image of one color.
    pub open spec fn blank(width: nat, height: nat, c: Rgb) -> Image {
        Image {
            width,
            height,
            rows: Seq::new(height, |y: int| Seq::new(width, |x: int| opaque(c))),
        }
    }

    /// The image with another one laid over it, `top` rows down, as far as it lies inside.
    pub open spec fn pasted(self, other: Image, top: int) -> Image {
        self.shade(
            |x: int, y: int, c: Pixel|
                if top <= y < top + other.height && x < other.width {
                    other.at(x, y - top)
                } else {
                    c
                },
        )
    }
}

/// A buffer of one color.
pub fn blank(width: usize, height: usize, c: Rgb) -> (r: Framebuffer)
    requires
        width * height * 4 <= isize::MAX,
    ensures
        r.wf(),
        r.width == width,
        r.height == height,
        r@ == Image::blank(width as nat, height as nat, c),
{
    let mut buf = Framebuffer::new(width, height);
    fill_rect(&mut buf, 0, 0, width, height, c);
    proof {
        lemma_same_image(buf@, Image::blank(width as nat, height as nat, c));
    }
    buf
}

/// Lays a buffer over another one, `top` rows down.
pub fn paste(buf: &mut Framebuffer, other: &Framebuffer, top: usize)
    requires
        old(buf).wf(),
        other.wf(),
    ensures
        final(buf).wf(),
        final(buf).width == old(buf).width,
        final(buf).height == old(buf).height,
        final(buf)@ == old(buf)@.pasted(other@, top as int),
{
    let ghost before = *buf;
    let h: usize = if buf.height <= top {
        0
    } else if other.height < buf.height - top {
        other.height
    } else {
        buf.height - top
    };
    let w: usize = if other.width < buf.width {
        other.width
    } else {
        buf.width
    };
    let mut y: usize = 0;
    while y < h
        invariant
            y <= h,
            h <= other.height,
            h == 0 || top + h <= buf.height,
            w <= other.width,
            w <= buf.width,
            buf.wf(),
            other.wf(),
            before.wf(),
            buf.width == before.width,
            buf.height == before.height,
            forall|i: int, j: int|
                before@.has(i, j) ==> #[trigger] buf@.at(i, j) == if top <= j < top + y && i < w {
                    other@.at(i, j - top)
                } else {
                    before@.at(i, j)
                },
        decreases h - y,
    {
        let mut x: usize = 0;
        while x < w
            invariant
                x <= w,
                y < h,
                h <= other.height,
                top + h <= buf.height,
                w <= other.width,
                w <= buf.width,
                buf.wf(),
                other.wf(),
                before.wf(),
                buf.width == before.width,
                buf.height == before.height,
                forall|i: int, j: int|
                    before@.has(i, j) ==> #[trigger] buf@.at(i, j) == if (top <= j < top + y && i
                        < w) || (j == top + y && i < x) {
                        other@.at(i, j - top)
                    } else {
                        before@.at(i, j)
                    },
            decreases w - x,
        {
            let p: u32 = other.get(x, y);
            let ghost mid = *buf;
            buf.set(x, top + y, p);
            proof {
                assert forall|i: int, j: int| before@.has(i, j) implies #[trigger] buf@.at(i, j)
                    == if (top <= j < top + y && i < w) || (j == top + y && i < x + 1) {
                    other@.at(i, j - top)
                } else {
                    before@.at(i, j)
                } by {
                    assert(buf@.at(i, j) == mid@.put(x as int, top + y, p).at(i, j));
                    assert(mid@.at(i, j) == mid@.at(i, j));
                }
            }
            x = x + 1;
        }
        proof {
            assert forall|i: int, j: int| before@.has(i, j) implies #[trigger] buf@.at(i, j) == if top
                <= j < top + y + 1 && i < w {
                other@.at(i, j - top)
            } else {
                before@.at(i, j)
            } by {}
        }
        y = y + 1;
    }
    proof {
        let want = before@.pasted(other@, top as int);
        assert forall|i: int, j: int| buf@.has(i, j) implies #[trigger] buf@.at(i, j) == want.at(
            i,
            j,
        ) by {
            assert(before@.has(i, j));
        }
        lemma_same_image(buf@, want);
    }
}

/// What is marked in the grid.
pub struct Marking {
    /// The match in focus, and all of them.
    pub hit: Option<Find>,
    pub all: Vec<Find>,
    pub sel: Option<Selected>,
    /// The cursor of copy mode.
    pub copy: Option<(i32, usize)>,
    /// For each row and column, the link that was found there.
    pub links: Vec<Vec<Option<UrlSpan>>>,
}

/// The grid of a session, painted on its own ground.
pub open spec fn grid_image(
    size: (nat, nat),
    m: Map<u64, crate::paint::Bitmap>,
    g: GridView,
    marks: Marking,
    pen: Pen,
    colors: Colors,
) -> Image {
    with_rows(
        Image::blank(size.0, size.1, colors.bg),
        m,
        g,
        marks_of(marks.hit, marks.all@, marks.sel, marks.copy, marks.links@),
        pen,
        colors,
        g.rows as int,
    )
}

/// Paints the grid of a session between the bars: below the first `top` rows of the window, and
/// above its last `bottom` rows. Where these leave no room, nothing is painted.
pub fn paint_grid<F: Face>(
    buf: &mut Framebuffer,
    cache: &mut GlyphCache<F>,
    grid: &Grid,
    marks: &Marking,
    colors: &Colors,
    pen: Pen,
    top: usize,
    bottom: usize,
)
    requires
        old(buf).wf(),
        old(buf).width * old(buf).height * 4 <= isize::MAX,
        old(cache).wf(),
        grid.wf(),
        1 <= pen.cell_h,
        grid.cols * pen.cell_w <= u32::MAX,
        grid.rows * pen.cell_h <= u32::MAX,
    ensures
        final(buf).wf(),
        final(buf).width == old(buf).width,
        final(buf).height == old(buf).height,
        final(cache).extends(old(cache)),
        top + bottom <= old(buf).height ==> covers_rows(
            final(cache)@,
            grid@,
            pen.font_px,
            grid.rows as int,
        ),
        final(buf)@ == if top + bottom <= old(buf).height {
            old(buf)@.pasted(
                grid_image(
                    (old(buf).width as nat, (old(buf).height - top - bottom) as nat),
                    final(cache)@,
                    grid@,
                    *marks,
                    pen,
                    *colors,
                ),
                top as int,
            )
        } else {
            old(buf)@
        },
{
    if top > buf.height || bottom > buf.height - top {
        return ;
    }
    let h: usize = buf.height - top - bottom;
    proof {
        assert(buf.width * h * 4 <= buf.width * buf.height * 4) by (nonlinear_arith)
            requires
                h <= buf.height,
        ;
    }
    let mut area = blank(buf.width, h, colors.bg);
    let sel = match &marks.sel {
        Some(s) => Some(s),
        None => None,
    };
    draw_grid(
        &mut area,
        grid,
        pen.cell_w,
        pen.cell_h,
        pen.font_px,
        cache,
        colors,
        marks.hit,
        marks.all.as_slice(),
        sel,
        marks.copy,
        &marks.links,
    );
    paste(buf, &area, top);
}

/// The grid leaves the bars alone: above it and below it the window is as it was.
pub proof fn law_grid_spares_the_bars(img: Image, area: Image, top: int, x: int, y: int)
    requires
        img.shaped(),
        img.has(x, y),
        y < top || y >= top + area.height,
    ensures
        img.pasted(area, top).at(x, y) == img.at(x, y),
{
}

} // verus!
