//! What the window's own chrome is painted of: rectangles, raised tabs and lines of text, one after
//! the other.

use vstd::prelude::*;

use crate::geometry::{less, plus, times, Metrics};
use crate::glyph::{keeps, lemma_extends, Face, GlyphCache};
use crate::lettering::{
    clamped, covers, draw_text, lemma_lettered_stays, lemma_width_stays, lettered,
};
use crate::paint::{fill_rect, filled_round_top, opaque, Bitmap, Framebuffer, Image, Rgb};
use crate::text::copy_text;
use crate::triage::CHROME_ACTIVE_BG;

verus! {

/// What runs.
pub const CHROME_LIVE: (u8, u8, u8) = (0x4a, 0xe0, 0x8a);

/// The edge of what pops up.
pub const CHROME_EDGE: (u8, u8, u8) = (0x3a, 0x3a, 0x44);

/// The line between the rows of a menu.
pub const CHROME_RULE: (u8, u8, u8) = (0x33, 0x33, 0x3d);

/// The banner of copy mode.
pub const COPY_GREEN: (u8, u8, u8) = (0x18, 0xe0, 0x8a);

pub const BLACK: (u8, u8, u8) = (0, 0, 0);

/// One thing to paint.
pub enum Stroke {
    /// A rectangle: its corner and its size.
    Fill(usize, usize, usize, usize, Rgb),
    /// A rectangle with round corners at the top: its corner, its size and the radius.
    Tab(usize, usize, usize, usize, usize, Rgb),
    /// A line of text: where it starts, and the row it stands on.
    Text(String, usize, usize, Rgb),
}

/// One thing to paint as plain data.
#[verifier::ext_equal]
pub enum StrokeView {
    Fill(usize, usize, usize, usize, Rgb),
    Tab(usize, usize, usize, usize, usize, Rgb),
    Text(Seq<char>, usize, usize, Rgb),
}

impl View for Stroke {
    type V = StrokeView;

    open spec fn view(&self) -> StrokeView {
        match *self {
            Stroke::Fill(x, y, w, h, c) => StrokeView::Fill(x, y, w, h, c),
            Stroke::Tab(x, y, w, h, r, c) => StrokeView::Tab(x, y, w, h, r, c),
            Stroke::Text(t, x, y, c) => StrokeView::Text(t@, x, y, c),
        }
    }
}

/// The things to paint as plain data.
pub open spec fn strokes(v: Seq<Stroke>) -> Seq<StrokeView> {
    v.map_values(|s: Stroke| s@)
}

/// The image with one thing painted over it.
pub open spec fn painted_one(img: Image, m: Map<u64, Bitmap>, s: StrokeView, px: u32) -> Image {
    match s {
        StrokeView::Fill(x, y, w, h, c) => img.fill(
            x as int,
            y as int,
            w as int,
            h as int,
            opaque(c),
        ),
        StrokeView::Tab(x, y, w, h, r, c) => img.fill_round_top(
            x as int,
            y as int,
            w as int,
            h as int,
            r as int,
            opaque(c),
        ),
        StrokeView::Text(t, x, y, c) => lettered(img, m, t, x as int, y as int, px, c),
    }
}

/// The image with the things painted over it, one after the other.
pub open spec fn painted(img: Image, m: Map<u64, Bitmap>, s: Seq<StrokeView>, px: u32) -> Image
    decreases s.len(),
{
    if s.len() == 0 {
        img
    } else {
        painted_one(painted(img, m, s.drop_last(), px), m, s.last(), px)
    }
}

/// Whether a cache holds the glyphs of all the lines of text.
pub open spec fn inked(m: Map<u64, Bitmap>, s: Seq<StrokeView>, px: u32) -> bool {
    forall|i: int|
        0 <= i < s.len() ==> (match #[trigger] s[i] {
            StrokeView::Text(t, x, y, c) => covers(m, t, px),
            _ => true,
        })
}

/// What more glyphs in the cache change of a painting whose own are all there: nothing.
pub proof fn lemma_painted_stays(
    img: Image,
    m: Map<u64, Bitmap>,
    n: Map<u64, Bitmap>,
    s: Seq<StrokeView>,
    px: u32,
)
    requires
        inked(m, s, px),
        keeps(m, n),
    ensures
        inked(n, s, px),
        painted(img, m, s, px) == painted(img, n, s, px),
    decreases s.len(),
{
    assert forall|i: int| 0 <= i < s.len() implies (match #[trigger] s[i] {
        StrokeView::Text(t, x, y, c) => covers(n, t, px),
        _ => true,
    }) by {
        match s[i] {
            StrokeView::Text(t, x, y, c) => {
                lemma_width_stays(m, n, t, px);
            },
            _ => {},
        }
    }
    if s.len() > 0 {
        assert forall|i: int| 0 <= i < s.drop_last().len() implies (match #[trigger] s.drop_last()[i] {
            StrokeView::Text(t, x, y, c) => covers(m, t, px),
            _ => true,
        }) by {
            assert(s.drop_last()[i] == s[i]);
        }
        lemma_painted_stays(img, m, n, s.drop_last(), px);
        match s[s.len() - 1] {
            StrokeView::Text(t, x, y, c) => {
                lemma_lettered_stays(
                    painted(img, m, s.drop_last(), px),
                    m,
                    n,
                    t,
                    x as int,
                    y as int,
                    px,
                    c,
                );
            },
            _ => {},
        }
    }
}

/// To paint two lists is to paint the one and then the other.
pub proof fn law_painted_in_turn(
    img: Image,
    m: Map<u64, Bitmap>,
    a: Seq<StrokeView>,
    b: Seq<StrokeView>,
    px: u32,
)
    ensures
        painted(img, m, a + b, px) == painted(painted(img, m, a, px), m, b, px),
    decreases b.len(),
{
    if b.len() == 0 {
        assert(a + b =~= a);
    } else {
        assert((a + b).drop_last() =~= a + b.drop_last());
        law_painted_in_turn(img, m, a, b.drop_last(), px);
    }
}

/// Paints the things, one after the other.
pub fn paint<F: Face>(
    buf: &mut Framebuffer,
    cache: &mut GlyphCache<F>,
    list: &Vec<Stroke>,
    font_px: u32,
)
    requires
        old(buf).wf(),
        old(cache).wf(),
    ensures
        final(buf).wf(),
        final(buf).width == old(buf).width,
        final(buf).height == old(buf).height,
        final(cache).extends(old(cache)),
        inked(final(cache)@, strokes(list@), font_px),
        final(buf)@ == painted(old(buf)@, final(cache)@, strokes(list@), font_px),
{
    let ghost before = *cache;
    let ghost img = buf@;
    let ghost all = strokes(list@);
    let mut i: usize = 0;
    while i < list.len()
        invariant
            i <= list@.len(),
            all == strokes(list@),
            buf.wf(),
            buf.width == old(buf).width,
            buf.height == old(buf).height,
            cache.wf(),
            cache.extends(&before),
            inked(cache@, all.take(i as int), font_px),
            buf@ == painted(img, cache@, all.take(i as int), font_px),
        decreases list@.len() - i,
    {
        let ghost mid = *cache;
        proof {
            assert(all.take(i + 1).drop_last() =~= all.take(i as int));
            assert(all.take(i + 1).last() == list@[i as int]@);
        }
        match &list[i] {
            Stroke::Fill(x, y, w, h, c) => fill_rect(buf, *x, *y, *w, *h, *c),
            Stroke::Tab(x, y, w, h, r, c) => filled_round_top(buf, *x, *y, *w, *h, *r, *c),
            Stroke::Text(t, x, y, c) => {
                let w: usize = draw_text(buf, cache, t.as_str(), *x, *y, font_px, *c);
                proof {
                    lemma_extends(before, mid, *cache);
                    lemma_painted_stays(img, mid@, cache@, all.take(i as int), font_px);
                }
            },
        }
        proof {
            assert forall|k: int| 0 <= k < i + 1 implies (match #[trigger] all.take(i + 1)[k] {
                StrokeView::Text(t, x, y, c) => covers(cache@, t, font_px),
                _ => true,
            }) by {
                if k < i {
                    assert(all.take(i as int)[k] == all[k]);
                }
            }
        }
        i = i + 1;
    }
    proof {
        assert(all.take(i as int) =~= all);
    }
}

/// A line of a panel: its text, the line it stands on counted from the panel's first, its color,
/// and whether it is selected.
pub struct Row {
    pub text: String,
    pub slot: usize,
    pub color: Rgb,
    pub lit: bool,
}

#[verifier::ext_equal]
pub struct RowView {
    pub text: Seq<char>,
    pub slot: usize,
    pub color: Rgb,
    pub lit: bool,
}

impl View for Row {
    type V = RowView;

    open spec fn view(&self) -> RowView {
        RowView { text: self.text@, slot: self.slot, color: self.color, lit: self.lit }
    }
}

/// The lines of a panel as plain data.
pub open spec fn rows(v: Seq<Row>) -> Seq<RowView> {
    v.map_values(|r: Row| r@)
}

/// A line of a panel that is not selected.
pub open spec fn said(text: Seq<char>, slot: int, color: Rgb) -> RowView {
    RowView { text, slot: slot as usize, color, lit: false }
}

/// The bar behind the selected row of a list, over the window but for a margin.
pub open spec fn row_bar(m: Metrics, y: int) -> StrokeView {
    StrokeView::Fill(
        18,
        less(y, m.line() / 2) as usize,
        less(m.width as int, 36) as usize,
        m.line() as usize,
        CHROME_ACTIVE_BG,
    )
}

/// The bar behind the selected row of a list that stands on the row `y_center`.
pub fn overlay_row_sel(m: &Metrics, y_center: usize) -> (r: Stroke)
    ensures
        r@ == row_bar(*m, y_center as int),
{
    let line: usize = m.line_px();
    let top: usize = if y_center < line / 2 {
        0
    } else {
        y_center - line / 2
    };
    let w: usize = if m.width < 36 {
        0
    } else {
        m.width - 36
    };
    Stroke::Fill(18, top, w, line, CHROME_ACTIVE_BG)
}

/// Where a line of a panel stands.
pub open spec fn slot_y(m: Metrics, hidden: bool, slot: int) -> int {
    clamped(clamped(m.top(hidden) + 4) + clamped(slot * m.line()))
}

/// Where a line of a panel stands.
pub fn slot_top(m: &Metrics, hidden: bool, slot: usize) -> (y: usize)
    ensures
        y == slot_y(*m, hidden, slot as int),
{
    let (base, line): (usize, usize) = m.overlay_base_y(hidden);
    plus(base, times(slot, line))
}

/// What a line of a panel is painted of.
pub open spec fn row_strokes(m: Metrics, hidden: bool, r: RowView) -> Seq<StrokeView> {
    let y = slot_y(m, hidden, r.slot as int);
    let text = StrokeView::Text(r.text, 32, y as usize, r.color);
    if r.lit {
        seq![row_bar(m, y), text]
    } else {
        seq![text]
    }
}

/// What a panel is painted of.
pub open spec fn panel(m: Metrics, hidden: bool, s: Seq<RowView>) -> Seq<StrokeView>
    decreases s.len(),
{
    if s.len() == 0 {
        Seq::empty()
    } else {
        panel(m, hidden, s.drop_last()) + row_strokes(m, hidden, s.last())
    }
}

/// What a panel is painted of: for each line its text, and a bar behind it where it is selected.
pub fn panel_strokes(m: &Metrics, hidden: bool, list: &Vec<Row>) -> (r: Vec<Stroke>)
    ensures
        strokes(r@) == panel(*m, hidden, rows(list@)),
{
    let ghost all = rows(list@);
    let mut out: Vec<Stroke> = Vec::new();
    let mut i: usize = 0;
    proof {
        assert(strokes(out@) =~= panel(*m, hidden, all.take(0)));
    }
    while i < list.len()
        invariant
            i <= list@.len(),
            all == rows(list@),
            strokes(out@) == panel(*m, hidden, all.take(i as int)),
        decreases list@.len() - i,
    {
        let ghost had = strokes(out@);
        let y: usize = slot_top(m, hidden, list[i].slot);
        if list[i].lit {
            out.push(overlay_row_sel(m, y));
        }
        out.push(Stroke::Text(copy_text(list[i].text.as_str()), 32, y, list[i].color));
        proof {
            assert(all.take(i + 1).drop_last() =~= all.take(i as int));
            assert(all.take(i + 1).last() == list@[i as int]@);
            assert(strokes(out@) =~= had + row_strokes(*m, hidden, list@[i as int]@));
        }
        i = i + 1;
    }
    proof {
        assert(all.take(i as int) =~= all);
    }
    out
}

/// Adds a thing to paint.
pub fn lay(out: &mut Vec<Stroke>, s: Stroke)
    ensures
        strokes(final(out)@) == strokes(old(out)@).push(s@),
{
    let ghost had = strokes(out@);
    let ghost v = s@;
    out.push(s);
    proof {
        assert(strokes(out@) =~= had.push(v));
    }
}

/// Adds a line to a panel.
pub fn put_row(out: &mut Vec<Row>, text: String, slot: usize, color: Rgb, lit: bool)
    ensures
        rows(final(out)@) == rows(old(out)@).push((RowView { text: text@, slot, color, lit })),
{
    let ghost had = rows(out@);
    let ghost t = text@;
    out.push(Row { text, slot, color, lit });
    proof {
        assert(rows(out@) =~= had.push(RowView { text: t, slot, color, lit }));
    }
}

} // verus!
