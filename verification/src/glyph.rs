//! Glyph bitmaps: composing one from what a font face covers, keeping each once made, and choosing
//! the fonts.

use std::collections::HashMap;

use vstd::prelude::*;

use crate::paint::{lemma_place, lemma_place_unique, Bitmap};

verus! {

broadcast use vstd::std_specs::hash::group_hash_axioms;

/// One pixel that an outline covers, and how much of it.
#[derive(Clone, Copy, Debug, PartialEq, Eq, Structural)]
pub struct Dot {
    pub x: u32,
    pub y: u32,
    pub cover: u8,
}

/// What a face makes of one character: the box it takes and the pixels its outline covers.
pub struct Raster {
    pub w: u32,
    pub h: u32,
    pub dots: Vec<Dot>,
}

/// A font face, which turns characters into outlines. Nothing is assumed of it.
pub trait Face {
    /// The outline of `ch` at `px` pixels.
    fn raster(&self, ch: char, px: u32) -> Raster;
}

/// The most that any of the dots covers of the pixel (`x`, `y`).
pub open spec fn coverage(dots: Seq<Dot>, x: int, y: int) -> u8
    decreases dots.len(),
{
    if dots.len() == 0 {
        0
    } else {
        let rest = coverage(dots.drop_last(), x, y);
        let d = dots.last();
        if d.x == x && d.y == y && d.cover > rest {
            d.cover
        } else {
            rest
        }
    }
}

impl Bitmap {
    /// The bold form: each pixel also takes what covers its left neighbor, so that strokes grow by
    /// one pixel and stay crisp. The box stays as it is.
    pub open spec fn thickened(self) -> Bitmap {
        Bitmap {
            alpha: Seq::new(
                self.alpha.len(),
                |i: int|
                    if i % self.w as int > 0 && self.alpha[i - 1] > self.alpha[i] {
                        self.alpha[i - 1]
                    } else {
                        self.alpha[i]
                    },
            ),
            ..self
        }
    }
}

impl Raster {
    /// The width of the glyph: no glyph is narrower than a pixel.
    pub open spec fn width(&self) -> int {
        if self.w == 0 {
            1
        } else {
            self.w as int
        }
    }

    /// The bitmap of this outline, plain or bold. A box too large to be held has no rows.
    pub open spec fn bitmap(&self, bold: bool) -> Bitmap {
        if self.width() * self.h > u32::MAX {
            Bitmap { w: 1, h: 0, alpha: Seq::empty() }
        } else {
            let plain = Bitmap {
                w: self.width() as nat,
                h: self.h as nat,
                alpha: Seq::new(
                    (self.width() * self.h) as nat,
                    |i: int| coverage(self.dots@, i % self.width(), i / self.width()),
                ),
            };
            if bold {
                plain.thickened()
            } else {
                plain
            }
        }
    }
}

/// A glyph as it is kept: its box and its coverage, row by row.
pub struct Glyph {
    pub w: u32,
    pub h: u32,
    pub alpha: Vec<u8>,
}

impl View for Glyph {
    type V = Bitmap;

    open spec fn view(&self) -> Bitmap {
        Bitmap { w: self.w as nat, h: self.h as nat, alpha: self.alpha@ }
    }
}

proof fn lemma_cell(w: int, h: int, i: int)
    requires
        0 <= w,
        0 <= i < w * h,
    ensures
        0 < w,
        0 <= i % w < w,
        0 <= i / w < h,
        (i / w) * w + i % w == i,
{
    assert(0 < w) by (nonlinear_arith)
        requires
            0 <= w,
            0 <= i < w * h,
    ;
    assert(0 <= i % w < w && 0 <= i / w < h && (i / w) * w + i % w == i) by (nonlinear_arith)
        requires
            0 < w,
            0 <= i < w * h,
    ;
}

proof fn lemma_cell_of(w: int, h: int, x: int, y: int)
    requires
        0 <= x < w,
        0 <= y < h,
    ensures
        (y * w + x) % w == x,
        (y * w + x) / w == y,
{
    lemma_place(w, h, x, y);
    lemma_cell(w, h, y * w + x);
    lemma_place_unique(w, x, y, (y * w + x) % w, (y * w + x) / w);
}

/// The bitmap of an outline, plain or bold.
pub fn compose(r: &Raster, bold: bool) -> (g: Glyph)
    ensures
        g@ == r.bitmap(bold),
        g@.shaped(),
        g@.w > 0,
{
    let wide: u32 = if r.w == 0 {
        1
    } else {
        r.w
    };
    let w: usize = wide as usize;
    let h: usize = r.h as usize;
    proof {
        assert(0 <= wide * r.h <= 0xffff_ffff * 0xffff_ffff) by (nonlinear_arith)
            requires
                0 <= wide <= 0xffff_ffff,
                0 <= r.h <= 0xffff_ffff,
        ;
    }
    if wide as u64 * r.h as u64 > u32::MAX as u64 {
        return Glyph { w: 1, h: 0, alpha: Vec::new() };
    }
    let n: usize = w * h;
    let mut out: Vec<u8> = vec![0; n];
    let mut k: usize = 0;
    while k < r.dots.len()
        invariant
            k <= r.dots@.len(),
            w == r.width(),
            h == r.h,
            n == w * h,
            out@.len() == n,
            forall|i: int|
                0 <= i < n ==> #[trigger] out@[i] == coverage(
                    r.dots@.take(k as int),
                    i % w as int,
                    i / w as int,
                ),
        decreases r.dots@.len() - k,
    {
        let d = r.dots[k];
        let ghost was = out@;
        proof {
            assert(r.dots@.take(k + 1).drop_last() =~= r.dots@.take(k as int));
        }
        if (d.x as usize) < w && (d.y as usize) < h {
            proof {
                lemma_place(w as int, h as int, d.x as int, d.y as int);
                lemma_cell_of(w as int, h as int, d.x as int, d.y as int);
            }
            let i: usize = d.y as usize * w + d.x as usize;
            if d.cover > out[i] {
                out[i] = d.cover;
            }
        }
        proof {
            assert forall|j: int| 0 <= j < n implies #[trigger] out@[j] == coverage(
                r.dots@.take(k + 1),
                j % w as int,
                j / w as int,
            ) by {
                assert(was[j] == coverage(r.dots@.take(k as int), j % w as int, j / w as int));
                lemma_cell(w as int, h as int, j);
            }
        }
        k = k + 1;
    }
    let g = Glyph { w: wide, h: r.h, alpha: out };
    proof {
        assert(r.dots@.take(k as int) =~= r.dots@);
        assert(g@ =~= r.bitmap(false));
    }
    if bold {
        thicken(&g)
    } else {
        g
    }
}

/// The bold form of a glyph.
pub fn thicken(g: &Glyph) -> (r: Glyph)
    requires
        g@.shaped(),
        g@.w > 0,
    ensures
        r@ == g@.thickened(),
        r@.shaped(),
{
    let w: usize = g.w as usize;
    let n: usize = g.alpha.len();
    let mut out: Vec<u8> = Vec::new();
    let mut i: usize = 0;
    while i < n
        invariant
            i <= n,
            n == g.alpha@.len(),
            w == g.w,
            w > 0,
            out@.len() == i,
            forall|k: int| 0 <= k < i ==> out@[k] == g@.thickened().alpha[k],
        decreases n - i,
    {
        proof {
            vstd::arithmetic::div_mod::lemma_small_mod(0, w as nat);
        }
        let mut v: u8 = g.alpha[i];
        if i % w > 0 && g.alpha[i - 1] > v {
            v = g.alpha[i - 1];
        }
        out.push(v);
        i = i + 1;
    }
    let r = Glyph { w: g.w, h: g.h, alpha: out };
    proof {
        assert(r@.alpha =~= g@.thickened().alpha);
    }
    r
}

/// Bold never makes a pixel lighter.
pub proof fn law_bold_only_adds(b: Bitmap, i: int)
    requires
        0 <= i < b.alpha.len(),
    ensures
        b.thickened().alpha[i] >= b.alpha[i],
{
}

/// The slot of a style, a character and a size.
pub open spec fn slot(bold: bool, italic: bool, ch: char, px: u32) -> u64 {
    (((px * 0x11_0000 + ch as int) * 2 + (if italic {
        1int
    } else {
        0
    })) * 2 + (if bold {
        1int
    } else {
        0
    })) as u64
}

fn slot_of(bold: bool, italic: bool, ch: char, px: u32) -> (k: u64)
    ensures
        k == slot(bold, italic, ch, px),
{
    let i: u64 = if italic { 1 } else { 0 };
    let b: u64 = if bold { 1 } else { 0 };
    ((px as u64 * 0x11_0000 + ch as u64) * 2 + i) * 2 + b
}

/// No two glyphs share a slot: style, character and size can each be told from it.
pub proof fn law_slots_are_distinct(
    bold: bool,
    italic: bool,
    ch: char,
    px: u32,
    bold2: bool,
    italic2: bool,
    ch2: char,
    px2: u32,
)
    requires
        slot(bold, italic, ch, px) == slot(bold2, italic2, ch2, px2),
    ensures
        bold == bold2,
        italic == italic2,
        ch == ch2,
        px == px2,
{
    let a = px * 0x11_0000 + ch as int;
    let a2 = px2 * 0x11_0000 + ch2 as int;
    let i: int = if italic { 1 } else { 0 };
    let i2: int = if italic2 { 1 } else { 0 };
    let b: int = if bold { 1 } else { 0 };
    let b2: int = if bold2 { 1 } else { 0 };
    assert(0 <= ch as int <= 0x10_ffff);
    assert(0 <= ch2 as int <= 0x10_ffff);
    assert(slot(bold, italic, ch, px) == (a * 2 + i) * 2 + b);
    assert(slot(bold2, italic2, ch2, px2) == (a2 * 2 + i2) * 2 + b2);
    assert(a * 2 + i == a2 * 2 + i2 && b == b2);
    assert(a == a2 && i == i2);
    assert(px == px2);
}

/// The glyphs made so far, one per style, character and size, and the faces they are made from.
pub struct GlyphCache<F: Face> {
    font: F,
    /// A matching italic face; without one, italic text is drawn upright.
    italic: Option<F>,
    map: HashMap<u64, Glyph>,
}

impl<F: Face> View for GlyphCache<F> {
    type V = Map<u64, Bitmap>;

    /// The bitmap in each slot that holds one.
    closed spec fn view(&self) -> Map<u64, Bitmap> {
        self.map@.map_values(|g: Glyph| g@)
    }
}

/// Whether `b` is what one of the faces makes of the style, character and size with slot `k`.
pub open spec fn drawn_from<F: Face>(upright: F, italic: F, k: u64, b: Bitmap) -> bool {
    exists|bold: bool, slanted: bool, ch: char, px: u32, r: Raster|
        #![trigger slot(bold, slanted, ch, px), r.bitmap(bold)]
        k == slot(bold, slanted, ch, px) && b == r.bitmap(bold) && call_ensures(
            F::raster,
            (&(if slanted {
                italic
            } else {
                upright
            }), ch, px),
            r,
        )
}

/// Whether every bitmap fills its box.
pub open spec fn all_shaped(m: Map<u64, Bitmap>) -> bool {
    forall|k: u64| m.contains_key(k) ==> (#[trigger] m[k]).shaped()
}

/// Whether every bitmap is what the faces make of its slot, and each bold one is the thickened form
/// of the plain one, which is kept too.
#[verifier::opaque]
pub open spec fn all_drawn<F: Face>(upright: F, italic: F, m: Map<u64, Bitmap>) -> bool {
    &&& forall|k: u64| #[trigger] m.contains_key(k) ==> drawn_from(upright, italic, k, m[k])
    &&& forall|slanted: bool, ch: char, px: u32|
        m.contains_key(#[trigger] slot(true, slanted, ch, px)) ==> m.contains_key(
            slot(false, slanted, ch, px),
        ) && m[slot(true, slanted, ch, px)] == m[slot(false, slanted, ch, px)].thickened()
}

impl<F: Face> GlyphCache<F> {
    /// The face that draws upright or italic text: upright where there is no italic one.
    pub closed spec fn face(&self, italic: bool) -> F {
        match (italic, self.italic) {
            (true, Some(f)) => f,
            _ => self.font,
        }
    }

    /// Every glyph fills its box and comes from the faces, a bold one by way of the plain one.
    pub open spec fn wf(&self) -> bool {
        all_shaped(self@) && all_drawn(self.face(false), self.face(true), self@)
    }

    /// Whether this is `before` with further glyphs: the faces are the same, and what was kept is
    /// still there.
    pub open spec fn extends(&self, before: &Self) -> bool {
        &&& self.wf()
        &&& self.face(false) == before.face(false)
        &&& self.face(true) == before.face(true)
        &&& keeps(before@, self@)
    }

    /// An empty cache over the given faces.
    pub fn new(font: F, italic: Option<F>) -> (r: Self)
        ensures
            r.wf(),
            r@ == Map::<u64, Bitmap>::empty(),
            r.face(false) == font,
            r.face(true) == (match italic {
                Some(f) => f,
                None => font,
            }),
    {
        let r = GlyphCache { font, italic, map: HashMap::new() };
        proof {
            assert(r@ =~= Map::<u64, Bitmap>::empty());
            reveal(all_drawn);
        }
        r
    }

    /// Makes the plain glyph of `ch` at `px` pixels and keeps it, unless it is there already.
    fn prepare_plain(&mut self, ch: char, px: u32, italic: bool)
        requires
            old(self).wf(),
        ensures
            final(self).extends(old(self)),
            final(self)@.dom() == old(self)@.dom().insert(slot(false, italic, ch, px)),
    {
        let key: u64 = slot_of(false, italic, ch, px);
        if self.map.contains_key(&key) {
            proof {
                assert(self@.dom() =~= self@.dom().insert(key));
            }
            return ;
        }
        let r = match (italic, &self.italic) {
            (true, Some(f)) => f.raster(ch, px),
            _ => self.font.raster(ch, px),
        };
        let g = compose(&r, false);
        let ghost before = *self;
        self.map.insert(key, g);
        proof {
            assert(call_ensures(F::raster, (&before.face(italic), ch, px), r));
            assert(self@ =~= before@.insert(key, r.bitmap(false)));
            assert(self@.dom() =~= before@.dom().insert(key));
            assert(drawn_from(self.face(false), self.face(true), key, r.bitmap(false))) by {
                assert(key == slot(false, italic, ch, px));
            }
            lemma_drawn_plain(before.face(false), before.face(true), before@, self@, italic, ch, px);
        }
    }

    /// Makes the glyph of `ch` at `px` pixels in a style and keeps it, unless it is there already.
    /// A bold one is made from the plain one, which is then kept too.
    pub fn prepare(&mut self, ch: char, px: u32, bold: bool, italic: bool)
        requires
            old(self).wf(),
        ensures
            final(self).extends(old(self)),
            final(self)@.dom() == old(self)@.dom().insert(slot(false, italic, ch, px)).insert(
                slot(bold, italic, ch, px),
            ),
    {
        self.prepare_plain(ch, px, italic);
        let key: u64 = slot_of(bold, italic, ch, px);
        if self.map.contains_key(&key) {
            proof {
                assert(self@.dom() =~= self@.dom().insert(key));
            }
            return ;
        }
        let ghost before = *self;
        proof {
            assert(!before@.contains_key(key));
            assert(before@.contains_key(slot(false, italic, ch, px)));
            assert(bold);
        }
        let g = thicken(self.peek(ch, px, false, italic));
        let ghost kept = g@;
        self.map.insert(key, g);
        proof {
            assert(self@ =~= before@.insert(key, kept));
            assert(self@.dom() =~= before@.dom().insert(key));
            lemma_drawn_bold(before.face(false), before.face(true), before@, self@, italic, ch, px);
        }
    }

    /// The glyph of `ch` at `px` pixels in a style, once it has been made.
    pub fn peek(&self, ch: char, px: u32, bold: bool, italic: bool) -> (g: &Glyph)
        requires
            self.wf(),
            self@.contains_key(slot(bold, italic, ch, px)),
        ensures
            g@ == self@[slot(bold, italic, ch, px)],
            g@.shaped(),
            g@.w > 0,
    {
        let key: u64 = slot_of(bold, italic, ch, px);
        let g = self.map.get(&key).unwrap();
        proof {
            assert(self@[key] == g@);
            assert(g@.w > 0) by {
                reveal(all_drawn);
                assert(self@.contains_key(key));
            }
        }
        g
    }

    /// Recalls the upright glyph of `ch` at `px` pixels, or makes it.
    pub fn glyph(&mut self, ch: char, px: u32, bold: bool) -> (g: (u32, u32, Vec<u8>))
        requires
            old(self).wf(),
        ensures
            final(self).extends(old(self)),
            final(self)@.dom() == old(self)@.dom().insert(slot(false, false, ch, px)).insert(
                slot(bold, false, ch, px),
            ),
            final(self)@[slot(bold, false, ch, px)] == (Bitmap {
                w: g.0 as nat,
                h: g.1 as nat,
                alpha: g.2@,
            }),
    {
        self.glyph_styled(ch, px, bold, false)
    }

    /// Recalls the glyph of `ch` at `px` pixels in a style, or makes it: its width, its height and
    /// its coverage.
    pub fn glyph_styled(&mut self, ch: char, px: u32, bold: bool, italic: bool) -> (g: (
        u32,
        u32,
        Vec<u8>,
    ))
        requires
            old(self).wf(),
        ensures
            final(self).extends(old(self)),
            final(self)@.dom() == old(self)@.dom().insert(slot(false, italic, ch, px)).insert(
                slot(bold, italic, ch, px),
            ),
            final(self)@[slot(bold, italic, ch, px)] == (Bitmap {
                w: g.0 as nat,
                h: g.1 as nat,
                alpha: g.2@,
            }),
    {
        self.prepare(ch, px, bold, italic);
        let g = self.peek(ch, px, bold, italic);
        let out = (g.w, g.h, g.alpha.clone());
        proof {
            assert(out.2@ =~= g.alpha@);
        }
        out
    }
}

proof fn lemma_drawn_plain<F: Face>(
    upright: F,
    italic: F,
    m: Map<u64, Bitmap>,
    n: Map<u64, Bitmap>,
    slanted: bool,
    ch: char,
    px: u32,
)
    requires
        all_drawn(upright, italic, m),
        !m.contains_key(slot(false, slanted, ch, px)),
        n == m.insert(slot(false, slanted, ch, px), n[slot(false, slanted, ch, px)]),
        drawn_from(
            upright,
            italic,
            slot(false, slanted, ch, px),
            n[slot(false, slanted, ch, px)],
        ),
    ensures
        all_drawn(upright, italic, n),
{
    reveal(all_drawn);
    let key = slot(false, slanted, ch, px);
    assert forall|k: u64| #[trigger] n.contains_key(k) implies drawn_from(
        upright,
        italic,
        k,
        n[k],
    ) by {
        if k != key {
            assert(m.contains_key(k));
        }
    }
    assert forall|s: bool, c: char, p: u32|
        n.contains_key(#[trigger] slot(true, s, c, p)) implies n.contains_key(slot(false, s, c, p))
        && n[slot(true, s, c, p)] == n[slot(false, s, c, p)].thickened() by {
        if slot(true, s, c, p) == key {
            law_slots_are_distinct(true, s, c, p, false, slanted, ch, px);
        }
        assert(m.contains_key(slot(true, s, c, p)));
    }
}

proof fn lemma_drawn_bold<F: Face>(
    upright: F,
    italic: F,
    m: Map<u64, Bitmap>,
    n: Map<u64, Bitmap>,
    slanted: bool,
    ch: char,
    px: u32,
)
    requires
        all_drawn(upright, italic, m),
        m.contains_key(slot(false, slanted, ch, px)),
        !m.contains_key(slot(true, slanted, ch, px)),
        n == m.insert(
            slot(true, slanted, ch, px),
            m[slot(false, slanted, ch, px)].thickened(),
        ),
    ensures
        all_drawn(upright, italic, n),
{
    reveal(all_drawn);
    let (key, base) = (slot(true, slanted, ch, px), slot(false, slanted, ch, px));
    let (bold, s, c, p, r) = choose|bold: bool, s: bool, c: char, p: u32, r: Raster|
        #![trigger slot(bold, s, c, p), r.bitmap(bold)]
        base == slot(bold, s, c, p) && m[base] == r.bitmap(bold) && call_ensures(
            F::raster,
            (&(if s {
                italic
            } else {
                upright
            }), c, p),
            r,
        );
    assert(drawn_from(upright, italic, base, m[base]));
    law_slots_are_distinct(bold, s, c, p, false, slanted, ch, px);
    assert(r.bitmap(true) =~= m[base].thickened());
    assert(drawn_from(upright, italic, key, r.bitmap(true)));
    assert forall|k: u64| #[trigger] n.contains_key(k) implies drawn_from(
        upright,
        italic,
        k,
        n[k],
    ) by {
        if k != key {
            assert(m.contains_key(k));
        }
    }
    assert forall|s: bool, c: char, p: u32|
        n.contains_key(#[trigger] slot(true, s, c, p)) implies n.contains_key(slot(false, s, c, p))
        && n[slot(true, s, c, p)] == n[slot(false, s, c, p)].thickened() by {
        if slot(false, s, c, p) == key {
            law_slots_are_distinct(false, s, c, p, true, slanted, ch, px);
        }
        if slot(true, s, c, p) == key {
            law_slots_are_distinct(true, s, c, p, true, slanted, ch, px);
        } else {
            assert(m.contains_key(slot(true, s, c, p)));
        }
    }
}

/// The bold glyph of a character has the box of the plain one, which is at least a pixel wide. Its
/// leftmost column is the plain one's, and each other pixel is the larger of the plain pixel and
/// its left neighbor.
pub proof fn law_bold_thickens<F: Face>(
    cache: GlyphCache<F>,
    ch: char,
    px: u32,
    italic: bool,
    x: int,
    y: int,
)
    requires
        cache.wf(),
        cache@.contains_key(slot(true, italic, ch, px)),
    ensures
        cache@.contains_key(slot(false, italic, ch, px)),
        ({
            let plain = cache@[slot(false, italic, ch, px)];
            let bold = cache@[slot(true, italic, ch, px)];
            let (w, h) = (plain.w as int, plain.h as int);
            &&& w >= 1
            &&& bold.w == w && bold.h == h
            &&& plain.alpha.len() == w * h && bold.alpha.len() == w * h
            &&& 0 <= y < h ==> bold.alpha[y * w] == plain.alpha[y * w]
            &&& 0 <= y < h && 1 <= x < w ==> {
                let (own, left) = (plain.alpha[y * w + x], plain.alpha[y * w + x - 1]);
                bold.alpha[y * w + x] == if own >= left {
                    own
                } else {
                    left
                }
            }
        }),
{
    reveal(all_drawn);
    let plain = cache@[slot(false, italic, ch, px)];
    let bold = cache@[slot(true, italic, ch, px)];
    assert(cache@.contains_key(slot(false, italic, ch, px)));
    assert(bold == plain.thickened());
    assert(plain.shaped());
    let (w, h) = (plain.w as int, plain.h as int);
    if 0 <= y < h {
        lemma_place(w, h, 0, y);
        lemma_cell_of(w, h, 0, y);
        if 1 <= x < w {
            lemma_place(w, h, x, y);
            lemma_cell_of(w, h, x, y);
        }
    }
}

/// Asking again for a glyph gives the same: what a cache kept, one that extends it still holds.
pub proof fn law_glyphs_stay<F: Face>(
    before: GlyphCache<F>,
    after: GlyphCache<F>,
    ch: char,
    px: u32,
    bold: bool,
    italic: bool,
)
    requires
        after.extends(&before),
        before@.contains_key(slot(bold, italic, ch, px)),
    ensures
        after@.contains_key(slot(bold, italic, ch, px)),
        after@[slot(bold, italic, ch, px)] == before@[slot(bold, italic, ch, px)],
{
}

/// Whether what one cache holds is in another one too.
pub open spec fn keeps(m: Map<u64, Bitmap>, n: Map<u64, Bitmap>) -> bool {
    forall|k: u64| #[trigger] m.contains_key(k) ==> n.contains_key(k) && n[k] == m[k]
}

/// A cache that extends one that extends another extends that one too.
pub proof fn lemma_extends<F: Face>(a: GlyphCache<F>, b: GlyphCache<F>, c: GlyphCache<F>)
    requires
        b.extends(&a),
        c.extends(&b),
    ensures
        c.extends(&a),
{
    assert forall|k: u64| #[trigger] a@.contains_key(k) implies c@.contains_key(k) && c@[k]
        == a@[k] by {
        assert(b@.contains_key(k));
    }
}

} // verus!
