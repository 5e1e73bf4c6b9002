//! The pixel buffer and the shapes drawn into it.
//!
//! A buffer is modelled by its [`Image`]: rows of pixels. Every drawing operation is described by
//! what it makes of each pixel, given its position and the color that was there.

use vstd::prelude::*;

verus! {

/// A packed pixel, 0xAARRGGBB.
pub type Pixel = u32;

/// Red, green and blue.
pub type Rgb = (u8, u8, u8);

/// The pixel with the given channels.
pub open spec fn packed(a: u8, r: u8, g: u8, b: u8) -> Pixel {
    (a * 0x100_0000 + r * 0x1_0000 + g * 0x100 + b) as u32
}

/// The opaque pixel of a color.
pub open spec fn opaque(c: Rgb) -> Pixel {
    packed(255, c.0, c.1, c.2)
}

/// The color channels of a pixel.
pub open spec fn channels(p: Pixel) -> Rgb {
    (((p / 0x1_0000) % 0x100) as u8, ((p / 0x100) % 0x100) as u8, (p % 0x100) as u8)
}

/// The alpha channel of a pixel.
pub open spec fn alpha_of(p: Pixel) -> u8 {
    (p / 0x100_0000) as u8
}

/// Packs four channels into a pixel.
pub fn argb(a: u8, r: u8, g: u8, b: u8) -> (p: Pixel)
    ensures
        p == packed(a, r, g, b),
{
    let p: u32 = ((a as u32) << 24) | ((r as u32) << 16) | ((g as u32) << 8) | (b as u32);
    assert(((a as u32) << 24u32) | ((r as u32) << 16u32) | ((g as u32) << 8u32) | (b as u32) == a
        * 0x100_0000 + r * 0x1_0000 + g * 0x100 + b) by (bit_vector);
    p
}

/// Splits a pixel into its color channels.
pub fn argb_to_rgb(p: Pixel) -> (c: Rgb)
    ensures
        c == channels(p),
{
    let r: u8 = ((p >> 16) & 0xff) as u8;
    let g: u8 = ((p >> 8) & 0xff) as u8;
    let b: u8 = (p & 0xff) as u8;
    assert((p >> 16u32) & 0xff == (p / 0x1_0000) % 0x100) by (bit_vector);
    assert((p >> 8u32) & 0xff == (p / 0x100) % 0x100) by (bit_vector);
    assert(p & 0xff == p % 0x100) by (bit_vector);
    (r, g, b)
}

/// Packing and splitting are inverse: the channels of a packed pixel are the ones it was made of.
pub proof fn law_channels_of_packed(a: u8, r: u8, g: u8, b: u8)
    ensures
        channels(packed(a, r, g, b)) == (r, g, b),
        alpha_of(packed(a, r, g, b)) == a,
{
    let p = packed(a, r, g, b);
    assert(p == (a * 0x100_0000 + r * 0x1_0000 + g * 0x100 + b) as u32);
    assert((p / 0x1_0000) % 0x100 == r && (p / 0x100) % 0x100 == g && p % 0x100 == b && p
        / 0x100_0000 == a) by (bit_vector)
        requires
            p == (a * 0x100_0000 + r * 0x1_0000 + g * 0x100 + b) as u32,
    ;
}

/// What a pixel buffer shows: `height` rows of `width` pixels.
#[verifier::ext_equal]
pub struct Image {
    pub width: nat,
    pub height: nat,
    pub rows: Seq<Seq<Pixel>>,
}

impl Image {
    /// The pixel in column `x` of row `y`.
    pub open spec fn at(self, x: int, y: int) -> Pixel {
        self.rows[y][x]
    }

    /// Whether column `x` of row `y` lies in the image.
    pub open spec fn has(self, x: int, y: int) -> bool {
        0 <= x < self.width && 0 <= y < self.height
    }

    /// The image in which each pixel is `f` of its column, its row and its color before.
    pub open spec fn shade(self, f: spec_fn(int, int, Pixel) -> Pixel) -> Image {
        Image {
            width: self.width,
            height: self.height,
            rows: Seq::new(
                self.height,
                |y: int| Seq::new(self.width, |x: int| f(x, y, self.at(x, y))),
            ),
        }
    }

    /// The image with one pixel replaced; a position outside changes nothing.
    pub open spec fn put(self, x: int, y: int, p: Pixel) -> Image {
        self.shade(
            |i: int, j: int, c: Pixel|
                if i == x && j == y {
                    p
                } else {
                    c
                },
        )
    }

    /// The image with the pixels of a rectangle replaced, as far as it lies inside.
    pub open spec fn fill(self, x0: int, y0: int, w: int, h: int, p: Pixel) -> Image {
        self.shade(
            |x: int, y: int, c: Pixel|
                if x0 <= x < x0 + w && y0 <= y < y0 + h {
                    p
                } else {
                    c
                },
        )
    }

    pub open spec fn shaped(self) -> bool {
        &&& self.rows.len() == self.height
        &&& forall|y: int| 0 <= y < self.height ==> (#[trigger] self.rows[y]).len() == self.width
    }
}

/// Two images of one size that agree on every pixel are the same.
pub proof fn lemma_same_image(a: Image, b: Image)
    requires
        a.shaped(),
        b.shaped(),
        a.width == b.width,
        a.height == b.height,
        forall|x: int, y: int| a.has(x, y) ==> #[trigger] a.at(x, y) == b.at(x, y),
    ensures
        a == b,
{
    assert forall|y: int| 0 <= y < a.height implies a.rows[y] == b.rows[y] by {
        assert forall|x: int| 0 <= x < a.width implies a.rows[y][x] == b.rows[y][x] by {
            assert(a.at(x, y) == b.at(x, y));
        }
        assert(a.rows[y] =~= b.rows[y]);
    }
    assert(a.rows =~= b.rows);
}

/// Column `x` of row `y` has its place in a buffer of `w` by `h` pixels, and no other has it.
pub proof fn lemma_place(w: int, h: int, x: int, y: int)
    requires
        0 <= x < w,
        0 <= y < h,
    ensures
        0 <= y * w + x < w * h,
        y * w <= w * h,
{
    assert(0 <= y * w + x < w * h && y * w <= w * h) by (nonlinear_arith)
        requires
            0 <= x < w,
            0 <= y < h,
    ;
}

pub proof fn lemma_place_unique(w: int, x: int, y: int, i: int, j: int)
    requires
        0 <= x < w,
        0 <= i < w,
        y * w + x == j * w + i,
    ensures
        x == i,
        y == j,
{
    assert(y == j) by (nonlinear_arith)
        requires
            0 <= x < w,
            0 <= i < w,
            y * w + x == j * w + i,
    ;
}

/// A pixel buffer: the pixel in column x of row y is `pixels[y * width + x]`.
pub struct Framebuffer {
    pub width: usize,
    pub height: usize,
    pub pixels: Vec<Pixel>,
}

impl View for Framebuffer {
    type V = Image;

    open spec fn view(&self) -> Image {
        Image {
            width: self.width as nat,
            height: self.height as nat,
            rows: Seq::new(
                self.height as nat,
                |y: int| Seq::new(self.width as nat, |x: int| self.pixels@[y * self.width + x]),
            ),
        }
    }
}

impl Framebuffer {
    /// The buffer holds one pixel for each position.
    pub open spec fn wf(&self) -> bool {
        self.pixels@.len() == self.width * self.height <= usize::MAX
    }

    /// A buffer of zero pixels.
    pub fn new(width: usize, height: usize) -> (r: Self)
        requires
            width * height * 4 <= isize::MAX,
        ensures
            r.wf(),
            r.width == width,
            r.height == height,
            forall|i: int| 0 <= i < r.pixels@.len() ==> r.pixels@[i] == 0,
    {
        proof {
            assert(0 <= width * height) by (nonlinear_arith);
        }
        Framebuffer { width, height, pixels: vec![0; width * height] }
    }

    /// Sets one pixel; a position outside the buffer is ignored.
    pub fn set(&mut self, x: usize, y: usize, p: Pixel)
        requires
            old(self).wf(),
        ensures
            final(self).wf(),
            final(self).width == old(self).width,
            final(self).height == old(self).height,
            final(self)@ == old(self)@.put(x as int, y as int, p),
    {
        let ghost before = *self;
        if x < self.width && y < self.height {
            proof {
                lemma_place(self.width as int, self.height as int, x as int, y as int);
            }
            let i: usize = y * self.width + x;
            self.pixels[i] = p;
            proof {
                assert forall|a: int, b: int| self@.has(a, b) implies #[trigger] self@.at(a, b)
                    == before@.put(x as int, y as int, p).at(a, b) by {
                    lemma_place(self.width as int, self.height as int, a, b);
                    if b * self.width + a == i {
                        lemma_place_unique(self.width as int, x as int, y as int, a, b);
                    }
                }
            }
        }
        proof {
            lemma_same_image(self@, before@.put(x as int, y as int, p));
        }
    }

    /// The pixel in column `x` of row `y`.
    pub fn get(&self, x: usize, y: usize) -> (p: Pixel)
        requires
            self.wf(),
            self@.has(x as int, y as int),
        ensures
            p == self@.at(x as int, y as int),
    {
        proof {
            lemma_place(self.width as int, self.height as int, x as int, y as int);
        }
        self.pixels[y * self.width + x]
    }

    /// Replaces each color channel `v` of each pixel by `levels[v]`; alpha stays. With levels that
    /// scale toward zero this darkens what lies behind a modal overlay, so that the overlay's own
    /// text reads clearly.
    pub fn dim(&mut self, levels: &[u8; 256])
        requires
            old(self).wf(),
        ensures
            final(self).wf(),
            final(self).width == old(self).width,
            final(self).height == old(self).height,
            final(self)@ == old(self)@.shade(
                |x: int, y: int, c: Pixel| dimmed(c, levels@),
            ),
    {
        let ghost before = *self;
        let mut i: usize = 0;
        let n: usize = self.pixels.len();
        while i < n
            invariant
                i <= n,
                n == self.pixels@.len(),
                n == before.pixels@.len(),
                self.width == before.width,
                self.height == before.height,
                levels@.len() == 256,
                forall|k: int| 0 <= k < i ==> self.pixels@[k] == dimmed(before.pixels@[k], levels@),
                forall|k: int| i <= k < n ==> self.pixels@[k] == before.pixels@[k],
            decreases n - i,
        {
            let p: u32 = self.pixels[i];
            let a: u8 = (p >> 24) as u8;
            assert(p >> 24u32 == p / 0x100_0000 && p / 0x100_0000 < 0x100) by (bit_vector);
            let (r, g, b) = argb_to_rgb(p);
            self.pixels[i] = argb(a, levels[r as usize], levels[g as usize], levels[b as usize]);
            i = i + 1;
        }
        proof {
            let want = before@.shade(|x: int, y: int, c: Pixel| dimmed(c, levels@));
            assert forall|a: int, b: int| self@.has(a, b) implies #[trigger] self@.at(a, b)
                == want.at(a, b) by {
                lemma_place(self.width as int, self.height as int, a, b);
            }
            lemma_same_image(self@, want);
        }
    }
}

/// A pixel whose color channels went through `levels`.
pub open spec fn dimmed(p: Pixel, levels: Seq<u8>) -> Pixel {
    let c = channels(p);
    packed(alpha_of(p), levels[c.0 as int], levels[c.1 as int], levels[c.2 as int])
}

/// Fills the rectangle of `w` by `h` pixels at (`x0`, `y0`) with an opaque color.
pub fn fill_rect(buf: &mut Framebuffer, x0: usize, y0: usize, w: usize, h: usize, color: Rgb)
    requires
        old(buf).wf(),
    ensures
        final(buf).wf(),
        final(buf).width == old(buf).width,
        final(buf).height == old(buf).height,
        final(buf)@ == old(buf)@.fill(x0 as int, y0 as int, w as int, h as int, opaque(color)),
{
    let p: u32 = argb(255, color.0, color.1, color.2);
    let xe: usize = x0.saturating_add(w);
    let ye: usize = y0.saturating_add(h);
    let x1: usize = if xe < buf.width { xe } else { buf.width };
    let y1: usize = if ye < buf.height { ye } else { buf.height };
    let ghost before = *buf;
    let mut y: usize = y0;
    while y < y1
        invariant
            y0 <= y,
            y1 <= buf.height,
            x1 <= buf.width,
            buf.wf(),
            buf.width == before.width,
            buf.height == before.height,
            y <= y1 || y == y0,
            forall|i: int, j: int|
                before@.has(i, j) ==> #[trigger] buf@.at(i, j) == (if x0 <= i < x1 && y0 <= j < y {
                    p
                } else {
                    before@.at(i, j)
                }),
        decreases y1 - y,
    {
        let mut x: usize = x0;
        while x < x1
            invariant
                x0 <= x,
                y0 <= y < y1,
                y1 <= buf.height,
                x1 <= buf.width,
                buf.wf(),
                buf.width == before.width,
                buf.height == before.height,
                forall|i: int, j: int|
                    before@.has(i, j) ==> #[trigger] buf@.at(i, j) == (if x0 <= i < x1 && y0 <= j
                        && (j < y || (j == y && i < x)) {
                        p
                    } else {
                        before@.at(i, j)
                    }),
            decreases x1 - x,
        {
            buf.set(x, y, p);
            x = x + 1;
        }
        y = y + 1;
    }
    proof {
        lemma_same_image(
            buf@,
            before@.fill(x0 as int, y0 as int, w as int, h as int, opaque(color)),
        );
    }
}

/// The corner radius that fits a shape of `w` by `h` pixels.
pub open spec fn corner_radius(w: int, h: int, r: int) -> int {
    let a = if r < h {
        r
    } else {
        h
    };
    if a < w / 2 {
        a
    } else {
        w / 2
    }
}

/// Whether the pixel (`dx`, `dy`) of a `w` by `h` shape lies inside once its top corners are
/// rounded by `r`: in a corner band, only what lies within `r` of the corner's center does. The
/// lowest row is no part of a band: it stays whole however large the radius is.
pub open spec fn in_round_top(dx: int, dy: int, w: int, h: int, r: int) -> bool {
    let left = dx < r;
    let right = dx > w - 1 - r;
    let cx = if left {
        r
    } else {
        w - 1 - r
    };
    &&& 0 <= dx < w
    &&& 0 <= dy < h
    &&& dy < r && dy < h - 1 && (left || right) ==> (dx - cx) * (dx - cx) + (dy - r) * (dy - r)
        <= r * r
}

impl Image {
    /// The image with a shape filled whose top corners are rounded and whose bottom is square.
    pub open spec fn fill_round_top(
        self,
        x0: int,
        y0: int,
        w: int,
        h: int,
        r: int,
        p: Pixel,
    ) -> Image {
        self.shade(
            |x: int, y: int, c: Pixel|
                if in_round_top(x - x0, y - y0, w, h, corner_radius(w, h, r)) {
                    p
                } else {
                    c
                },
        )
    }
}

fn inside_round_top(dx: usize, dy: usize, w: usize, h: usize, r: usize) -> (b: bool)
    requires
        dx < w,
        dy < h,
        r <= h,
        r <= w / 2,
    ensures
        b == in_round_top(dx as int, dy as int, w as int, h as int, r as int),
{
    if dy < r && dy < h - 1 && (dx < r || dx > w - 1 - r) {
        let a: usize = if dx < r {
            r - dx
        } else {
            dx - (w - 1 - r)
        };
        let b: usize = r - dy;
        let ghost cx = if dx < r {
            r as int
        } else {
            w - 1 - r
        };
        proof {
            assert(a as int * a as int == (dx - cx) * (dx - cx)) by (nonlinear_arith)
                requires
                    a == dx - cx || a == cx - dx,
            ;
            assert(b as int * b as int == (dy - r) * (dy - r)) by (nonlinear_arith)
                requires
                    b == r - dy,
            ;
            assert(0 <= a as int * a as int <= 0x4000_0000_0000_0000_0000_0000_0000_0000)
                by (nonlinear_arith)
                requires
                    0 <= a <= 0x8000_0000_0000_0000,
            ;
            assert(0 <= b as int * b as int <= 0x4000_0000_0000_0000_0000_0000_0000_0000)
                by (nonlinear_arith)
                requires
                    0 <= b <= 0x8000_0000_0000_0000,
            ;
            assert(0 <= r as int * r as int <= 0x4000_0000_0000_0000_0000_0000_0000_0000)
                by (nonlinear_arith)
                requires
                    0 <= r <= 0x8000_0000_0000_0000,
            ;
        }
        let (a, b, rr): (u128, u128, u128) = (a as u128, b as u128, r as u128);
        a * a + b * b <= rr * rr
    } else {
        true
    }
}

/// Fills a rectangle whose top corners are rounded by `r` pixels while the bottom stays square: a
/// raised tab. Pixels outside the shape keep what was painted before.
pub fn filled_round_top(
    buf: &mut Framebuffer,
    x0: usize,
    y0: usize,
    w: usize,
    h: usize,
    r: usize,
    color: Rgb,
)
    requires
        old(buf).wf(),
    ensures
        final(buf).wf(),
        final(buf).width == old(buf).width,
        final(buf).height == old(buf).height,
        final(buf)@ == old(buf)@.fill_round_top(
            x0 as int,
            y0 as int,
            w as int,
            h as int,
            r as int,
            opaque(color),
        ),
{
    let ghost before = *buf;
    let low: usize = if r < h { r } else { h };
    let rad: usize = if low < w / 2 { low } else { w / 2 };
    let p: u32 = argb(255, color.0, color.1, color.2);
    let xe: usize = x0.saturating_add(w);
    let ye: usize = y0.saturating_add(h);
    let x1: usize = if xe < buf.width { xe } else { buf.width };
    let y1: usize = if ye < buf.height { ye } else { buf.height };
    let mut y: usize = y0;
    while y < y1
        invariant
            y0 <= y,
            y1 <= buf.height,
            x1 <= buf.width,
            x1 <= x0 + w,
            y1 <= y0 + h,
            rad <= h,
            rad <= w / 2,
            buf.wf(),
            buf.width == before.width,
            buf.height == before.height,
            y <= y1 || y == y0,
            forall|i: int, j: int|
                before@.has(i, j) ==> #[trigger] buf@.at(i, j) == (if x0 <= i < x1 && y0 <= j < y
                    && in_round_top(i - x0, j - y0, w as int, h as int, rad as int) {
                    p
                } else {
                    before@.at(i, j)
                }),
        decreases y1 - y,
    {
        let mut x: usize = x0;
        while x < x1
            invariant
                x0 <= x,
                y0 <= y < y1,
                y1 <= buf.height,
                x1 <= buf.width,
                x1 <= x0 + w,
                y1 <= y0 + h,
                rad <= h,
                rad <= w / 2,
                buf.wf(),
                buf.width == before.width,
                buf.height == before.height,
                forall|i: int, j: int|
                    before@.has(i, j) ==> #[trigger] buf@.at(i, j) == (if x0 <= i < x1 && y0 <= j
                        && (j < y || (j == y && i < x)) && in_round_top(
                        i - x0,
                        j - y0,
                        w as int,
                        h as int,
                        rad as int,
                    ) {
                        p
                    } else {
                        before@.at(i, j)
                    }),
            decreases x1 - x,
        {
            if inside_round_top(x - x0, y - y0, w, h, rad) {
                buf.set(x, y, p);
            }
            x = x + 1;
        }
        y = y + 1;
    }
    proof {
        lemma_same_image(
            buf@,
            before@.fill_round_top(
                x0 as int,
                y0 as int,
                w as int,
                h as int,
                r as int,
                opaque(color),
            ),
        );
    }
}

/// A raised tab never paints outside its own box.
pub proof fn law_round_top_stays_in_box(
    img: Image,
    x0: int,
    y0: int,
    w: int,
    h: int,
    r: int,
    p: Pixel,
    x: int,
    y: int,
)
    requires
        img.shaped(),
        img.has(x, y),
        !(x0 <= x < x0 + w && y0 <= y < y0 + h),
    ensures
        img.fill_round_top(x0, y0, w, h, r, p).at(x, y) == img.at(x, y),
{
}

/// The bottom edge of a raised tab is square, whatever its radius is: its lowest row is filled from
/// side to side.
pub proof fn law_round_top_has_square_bottom(
    img: Image,
    x0: int,
    y0: int,
    w: int,
    h: int,
    r: int,
    p: Pixel,
    x: int,
)
    requires
        img.shaped(),
        0 < h,
        x0 <= x < x0 + w,
        img.has(x, y0 + h - 1),
    ensures
        img.fill_round_top(x0, y0, w, h, r, p).at(x, y0 + h - 1) == p,
{
}

/// One channel of a color laid over another with coverage `a` of 255.
pub open spec fn mix(src: u8, dst: u8, a: u8) -> u8 {
    ((src * a + dst * (255 - a)) / 255) as u8
}

/// A color laid over a pixel with coverage `a`: no coverage leaves the pixel alone, any other makes
/// it opaque.
pub open spec fn over(dst: Pixel, c: Rgb, a: u8) -> Pixel {
    if a == 0 {
        dst
    } else {
        let d = channels(dst);
        packed(255, mix(c.0, d.0, a), mix(c.1, d.1, a), mix(c.2, d.2, a))
    }
}

/// Full coverage gives the color itself.
pub proof fn law_full_coverage(dst: Pixel, c: Rgb)
    ensures
        over(dst, c, 255) == opaque(c),
{
}

fn mixed(src: u8, dst: u8, a: u8) -> (r: u8)
    ensures
        r == mix(src, dst, a),
{
    proof {
        assert(0 <= src * a <= 255 * a) by (nonlinear_arith)
            requires
                0 <= src <= 255,
                0 <= a,
        ;
        assert(0 <= dst * (255 - a) <= 255 * (255 - a)) by (nonlinear_arith)
            requires
                0 <= dst <= 255,
                0 <= 255 - a,
        ;
    }
    ((src as u32 * a as u32 + dst as u32 * (255 - a as u32)) / 255) as u8
}

fn laid_over(dst: Pixel, c: Rgb, a: u8) -> (r: Pixel)
    ensures
        r == over(dst, c, a),
{
    if a == 0 {
        dst
    } else {
        let d = argb_to_rgb(dst);
        argb(255, mixed(c.0, d.0, a), mixed(c.1, d.1, a), mixed(c.2, d.2, a))
    }
}

/// A coverage bitmap of `w` by `h` values.
#[verifier::ext_equal]
pub struct Bitmap {
    pub w: nat,
    pub h: nat,
    pub alpha: Seq<u8>,
}

impl Bitmap {
    pub open spec fn shaped(self) -> bool {
        self.alpha.len() == self.w * self.h
    }

    /// The coverage at column `x` of row `y`; none outside.
    pub open spec fn cover(self, x: int, y: int) -> u8 {
        if 0 <= x < self.w && 0 <= y < self.h {
            self.alpha[y * self.w + x]
        } else {
            0
        }
    }
}

impl Image {
    /// The image with a bitmap laid over it in a color: its left edge at `x0`, and `bottom` the
    /// first row below it.
    pub open spec fn stamp(self, x0: int, bottom: int, b: Bitmap, c: Rgb) -> Image {
        self.shade(|x: int, y: int, p: Pixel| over(p, c, b.cover(x - x0, y - (bottom - b.h))))
    }
}

/// Lays a coverage bitmap of `w` by `h` over the buffer; see [`Image::stamp`].
pub fn stamp(
    buf: &mut Framebuffer,
    x0: usize,
    bottom: usize,
    w: usize,
    h: usize,
    alpha: &Vec<u8>,
    color: Rgb,
)
    requires
        old(buf).wf(),
        alpha@.len() == w * h,
    ensures
        final(buf).wf(),
        final(buf).width == old(buf).width,
        final(buf).height == old(buf).height,
        final(buf)@ == old(buf)@.stamp(
            x0 as int,
            bottom as int,
            Bitmap { w: w as nat, h: h as nat, alpha: alpha@ },
            color,
        ),
{
    let n: usize = alpha.len();
    let ghost before = *buf;
    let ghost bm = Bitmap { w: w as nat, h: h as nat, alpha: alpha@ };
    let ghost t = bottom - h;
    let skip: usize = h.saturating_sub(bottom);
    let top: usize = bottom.saturating_sub(h);
    let mut gy: usize = skip;
    while gy < h
        invariant
            skip <= gy,
            gy <= h || gy == skip,
            t == bottom - h,
            top - skip == t,
            skip == 0 || top == 0,
            bm == (Bitmap { w: w as nat, h: h as nat, alpha: alpha@ }),
            n == alpha@.len() == w * h,
            buf.wf(),
            buf.width == before.width,
            buf.height == before.height,
            forall|i: int, j: int|
                before@.has(i, j) ==> #[trigger] buf@.at(i, j) == (if j - t < gy {
                    over(before@.at(i, j), color, bm.cover(i - x0, j - t))
                } else {
                    before@.at(i, j)
                }),
        decreases h - gy,
    {
        let y: usize = top + (gy - skip);
        if y < buf.height {
            let mut gx: usize = 0;
            while gx < w
                invariant
                    gx <= w,
                    gy < h,
                    y == t + gy,
                    y < buf.height,
                    bm == (Bitmap { w: w as nat, h: h as nat, alpha: alpha@ }),
                    n == alpha@.len() == w * h,
                    buf.wf(),
                    buf.width == before.width,
                    buf.height == before.height,
                    forall|i: int, j: int|
                        before@.has(i, j) ==> #[trigger] buf@.at(i, j) == (if j - t < gy || (j - t
                            == gy && i - x0 < gx) {
                            over(before@.at(i, j), color, bm.cover(i - x0, j - t))
                        } else {
                            before@.at(i, j)
                        }),
                decreases w - gx,
            {
                if x0 < buf.width && gx < buf.width - x0 {
                    let x: usize = x0 + gx;
                    proof {
                        lemma_place(w as int, h as int, gx as int, gy as int);
                        assert(before@.has(x as int, y as int));
                    }
                    let a: u8 = alpha[gy * w + gx];
                    if a != 0 {
                        let dst: u32 = buf.get(x, y);
                        buf.set(x, y, laid_over(dst, color, a));
                    }
                }
                gx = gx + 1;
            }
        }
        gy = gy + 1;
    }
    proof {
        lemma_same_image(buf@, before@.stamp(x0 as int, bottom as int, bm, color));
    }
}

} // verus!
