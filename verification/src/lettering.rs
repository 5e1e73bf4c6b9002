//! Lines of text in the window's own chrome: measuring and drawing them.

use vstd::prelude::*;

use crate::glyph::{keeps, lemma_extends, slot, Face, GlyphCache};
use crate::paint::{
    alpha_of, channels, law_channels_of_packed, lemma_same_image, mix, over, stamp, Bitmap,
    Framebuffer, Image, Rgb,
};
use crate::text::{chars_of, texts};

verus! {

/// Whether a cache holds the upright glyph of each character of a text. Line breaks have none.
pub open spec fn covers(m: Map<u64, Bitmap>, text: Seq<char>, px: u32) -> bool {
    forall|i: int|
        0 <= i < text.len() && text[i] != '\n' ==> m.contains_key(
            slot(false, false, #[trigger] text[i], px),
        )
}

/// The width a character takes.
pub open spec fn char_width(m: Map<u64, Bitmap>, c: char, px: u32) -> nat {
    if c == '\n' {
        0
    } else {
        m[slot(false, false, c, px)].w
    }
}

/// The width a text takes: that of its characters, one after the other.
pub open spec fn width_of(m: Map<u64, Bitmap>, text: Seq<char>, px: u32) -> nat
    decreases text.len(),
{
    if text.len() == 0 {
        0
    } else {
        width_of(m, text.drop_last(), px) + char_width(m, text.last(), px)
    }
}

/// The image with a text drawn: glyph after glyph from `x0`, all standing on the row `bottom`.
pub open spec fn lettered(
    img: Image,
    m: Map<u64, Bitmap>,
    text: Seq<char>,
    x0: int,
    bottom: int,
    px: u32,
    c: Rgb,
) -> Image
    decreases text.len(),
{
    if text.len() == 0 {
        img
    } else {
        let front = text.drop_last();
        let so_far = lettered(img, m, front, x0, bottom, px, c);
        if text.last() == '\n' {
            so_far
        } else {
            so_far.stamp(
                x0 + width_of(m, front, px),
                bottom,
                m[slot(false, false, text.last(), px)],
                c,
            )
        }
    }
}

/// The width of each of the texts, as far as a machine number goes.
pub open spec fn widths_of(m: Map<u64, Bitmap>, lines: Seq<Seq<char>>, px: u32) -> Seq<usize> {
    lines.map_values(|t: Seq<char>| clamped(width_of(m, t, px) as int) as usize)
}

/// Whether a cache holds the upright glyph of each character of all the texts.
pub open spec fn covers_all(m: Map<u64, Bitmap>, lines: Seq<Seq<char>>, px: u32) -> bool {
    forall|i: int| 0 <= i < lines.len() ==> covers(m, #[trigger] lines[i], px)
}

/// `n`, or the largest machine number where that is less.
pub open spec fn clamped(n: int) -> int {
    if n < usize::MAX {
        n
    } else {
        usize::MAX as int
    }
}

/// What more glyphs in the cache change of a text whose own are all there: nothing.
pub proof fn lemma_width_stays(
    m: Map<u64, Bitmap>,
    n: Map<u64, Bitmap>,
    text: Seq<char>,
    px: u32,
)
    requires
        covers(m, text, px),
        keeps(m, n),
    ensures
        covers(n, text, px),
        width_of(m, text, px) == width_of(n, text, px),
    decreases text.len(),
{
    assert forall|i: int| 0 <= i < text.len() && text[i] != '\n' implies n.contains_key(
        slot(false, false, #[trigger] text[i], px),
    ) by {
        assert(m.contains_key(slot(false, false, text[i], px)));
    }
    if text.len() > 0 {
        assert forall|i: int|
            0 <= i < text.drop_last().len() && text.drop_last()[i] != '\n' implies m.contains_key(
            slot(false, false, #[trigger] text.drop_last()[i], px),
        ) by {
            assert(text.drop_last()[i] == text[i]);
        }
        lemma_width_stays(m, n, text.drop_last(), px);
        if text.last() != '\n' {
            assert(m.contains_key(slot(false, false, text[text.len() - 1], px)));
            assert(n.contains_key(slot(false, false, text[text.len() - 1], px)));
        }
    }
}

/// What more glyphs in the cache change of texts whose own are all there: nothing.
pub proof fn lemma_widths_stay(
    m: Map<u64, Bitmap>,
    n: Map<u64, Bitmap>,
    lines: Seq<Seq<char>>,
    px: u32,
)
    requires
        covers_all(m, lines, px),
        keeps(m, n),
    ensures
        covers_all(n, lines, px),
        widths_of(m, lines, px) == widths_of(n, lines, px),
{
    assert forall|i: int| 0 <= i < lines.len() implies covers(n, #[trigger] lines[i], px)
        && width_of(m, lines[i], px) == width_of(n, lines[i], px) by {
        lemma_width_stays(m, n, lines[i], px);
    }
    assert(widths_of(m, lines, px) =~= widths_of(n, lines, px));
}

/// What more glyphs in the cache change of a drawn text whose own are all there: nothing.
pub proof fn lemma_lettered_stays(
    img: Image,
    m: Map<u64, Bitmap>,
    n: Map<u64, Bitmap>,
    text: Seq<char>,
    x0: int,
    bottom: int,
    px: u32,
    c: Rgb,
)
    requires
        covers(m, text, px),
        keeps(m, n),
    ensures
        lettered(img, m, text, x0, bottom, px, c) == lettered(img, n, text, x0, bottom, px, c),
    decreases text.len(),
{
    if text.len() > 0 {
        assert forall|i: int|
            0 <= i < text.drop_last().len() && text.drop_last()[i] != '\n' implies m.contains_key(
            slot(false, false, #[trigger] text.drop_last()[i], px),
        ) by {
            assert(text.drop_last()[i] == text[i]);
        }
        lemma_lettered_stays(img, m, n, text.drop_last(), x0, bottom, px, c);
        lemma_width_stays(m, n, text.drop_last(), px);
        if text.last() != '\n' {
            assert(m.contains_key(slot(false, false, text[text.len() - 1], px)));
        }
    }
}

/// The width of a text is that of its parts.
pub proof fn law_width_of_joined(m: Map<u64, Bitmap>, a: Seq<char>, b: Seq<char>, px: u32)
    ensures
        width_of(m, a + b, px) == width_of(m, a, px) + width_of(m, b, px),
    decreases b.len(),
{
    if b.len() == 0 {
        assert(a + b =~= a);
    } else {
        assert((a + b).drop_last() =~= a + b.drop_last());
        law_width_of_joined(m, a, b.drop_last(), px);
    }
}

/// Drawing a text leaves the size of the image, and every pixel but those of its own box: from its
/// left edge as far as its width goes, and above the row it stands on. A pixel that it does change
/// becomes opaque.
pub proof fn law_text_keeps_to_its_box(
    img: Image,
    m: Map<u64, Bitmap>,
    text: Seq<char>,
    x0: int,
    bottom: int,
    px: u32,
    c: Rgb,
    x: int,
    y: int,
)
    ensures
        ({
            let after = lettered(img, m, text, x0, bottom, px, c);
            &&& after.width == img.width
            &&& after.height == img.height
            &&& img.has(x, y) && after.at(x, y) != img.at(x, y) ==> {
                &&& x0 <= x < x0 + width_of(m, text, px)
                &&& y < bottom
                &&& alpha_of(after.at(x, y)) == 255
            }
        }),
    decreases text.len(),
{
    if text.len() > 0 {
        let front = text.drop_last();
        law_text_keeps_to_its_box(img, m, front, x0, bottom, px, c, x, y);
        let so_far = lettered(img, m, front, x0, bottom, px, c);
        if text.last() != '\n' && img.has(x, y) {
            let b = m[slot(false, false, text.last(), px)];
            let left = x0 + width_of(m, front, px);
            let a = b.cover(x - left, y - (bottom - b.h));
            assert(so_far.stamp(left, bottom, b, c).at(x, y) == over(so_far.at(x, y), c, a));
            let d = channels(so_far.at(x, y));
            law_channels_of_packed(255, mix(c.0, d.0, a), mix(c.1, d.1, a), mix(c.2, d.2, a));
        }
    }
}

/// A line break in a text takes no width and draws nothing.
pub proof fn law_line_break_shows_nothing(
    img: Image,
    m: Map<u64, Bitmap>,
    a: Seq<char>,
    b: Seq<char>,
    x0: int,
    bottom: int,
    px: u32,
    c: Rgb,
)
    ensures
        width_of(m, a.push('\n') + b, px) == width_of(m, a + b, px),
        lettered(img, m, a.push('\n') + b, x0, bottom, px, c) == lettered(
            img,
            m,
            a + b,
            x0,
            bottom,
            px,
            c,
        ),
    decreases b.len(),
{
    if b.len() == 0 {
        assert(a.push('\n') + b =~= a.push('\n'));
        assert(a.push('\n').drop_last() =~= a);
        assert(a + b =~= a);
    } else {
        law_line_break_shows_nothing(img, m, a, b.drop_last(), x0, bottom, px, c);
        assert((a.push('\n') + b).drop_last() =~= a.push('\n') + b.drop_last());
        assert((a + b).drop_last() =~= a + b.drop_last());
    }
}

/// A bitmap that starts to the right of the image shows nothing of itself.
proof fn lemma_stamp_beyond(img: Image, x0: int, bottom: int, b: Bitmap, c: Rgb)
    requires
        img.shaped(),
        x0 >= img.width,
    ensures
        img.stamp(x0, bottom, b, c) == img,
{
    lemma_same_image(img.stamp(x0, bottom, b, c), img);
}

/// Makes the glyphs of a text, as far as they are missing.
pub fn prepare_text<F: Face>(cache: &mut GlyphCache<F>, text: &Vec<char>, px: u32)
    requires
        old(cache).wf(),
    ensures
        final(cache).extends(old(cache)),
        covers(final(cache)@, text@, px),
{
    let ghost before = *cache;
    let mut i: usize = 0;
    while i < text.len()
        invariant
            i <= text@.len(),
            cache.wf(),
            cache.extends(&before),
            covers(cache@, text@.take(i as int), px),
        decreases text@.len() - i,
    {
        let c = text[i];
        let ghost mid = *cache;
        if c != '\n' {
            cache.prepare(c, px, false, false);
            proof {
                lemma_extends(before, mid, *cache);
                assert(cache@.contains_key(slot(false, false, c, px)));
            }
        }
        proof {
            assert forall|k: int|
                0 <= k < i + 1 && text@.take(i + 1)[k] != '\n' implies cache@.contains_key(
                slot(false, false, #[trigger] text@.take(i + 1)[k], px),
            ) by {
                if k < i {
                    assert(text@.take(i as int)[k] == text@[k]);
                    assert(mid@.contains_key(slot(false, false, text@.take(i as int)[k], px)));
                }
            }
        }
        i = i + 1;
    }
    proof {
        assert(text@.take(i as int) =~= text@);
    }
}

fn width_prepared<F: Face>(cache: &GlyphCache<F>, text: &Vec<char>, px: u32) -> (w: usize)
    requires
        cache.wf(),
        covers(cache@, text@, px),
    ensures
        w == clamped(width_of(cache@, text@, px) as int),
{
    let mut w: usize = 0;
    let mut i: usize = 0;
    while i < text.len()
        invariant
            i <= text@.len(),
            cache.wf(),
            covers(cache@, text@, px),
            w == clamped(width_of(cache@, text@.take(i as int), px) as int),
        decreases text@.len() - i,
    {
        let c = text[i];
        proof {
            assert(text@.take(i + 1).drop_last() =~= text@.take(i as int));
        }
        if c != '\n' {
            proof {
                assert(cache@.contains_key(slot(false, false, text@[i as int], px)));
            }
            let g = cache.peek(c, px, false, false);
            w = w.saturating_add(g.w as usize);
        }
        i = i + 1;
    }
    proof {
        assert(text@.take(i as int) =~= text@);
    }
    w
}

/// The width [`draw_text`] takes for a text, without drawing it: the same glyphs, the same
/// advances.
pub fn text_width<F: Face>(cache: &mut GlyphCache<F>, text: &str, font_px: u32) -> (w: usize)
    requires
        old(cache).wf(),
    ensures
        final(cache).extends(old(cache)),
        covers(final(cache)@, text@, font_px),
        w == clamped(width_of(final(cache)@, text@, font_px) as int),
{
    let v = chars_of(text);
    prepare_text(cache, &v, font_px);
    width_prepared(cache, &v, font_px)
}

/// The width of each of the texts.
pub fn text_widths<F: Face>(cache: &mut GlyphCache<F>, lines: &Vec<String>, font_px: u32) -> (w: Vec<
    usize,
>)
    requires
        old(cache).wf(),
    ensures
        final(cache).extends(old(cache)),
        covers_all(final(cache)@, texts(lines@), font_px),
        w@ == widths_of(final(cache)@, texts(lines@), font_px),
{
    let ghost before = *cache;
    let ghost want = texts(lines@);
    let mut out: Vec<usize> = Vec::new();
    let mut i: usize = 0;
    while i < lines.len()
        invariant
            i <= lines@.len(),
            want == texts(lines@),
            cache.wf(),
            cache.extends(&before),
            covers_all(cache@, want.take(i as int), font_px),
            out@ == widths_of(cache@, want.take(i as int), font_px),
        decreases lines@.len() - i,
    {
        let ghost mid = *cache;
        let w: usize = text_width(cache, lines[i].as_str(), font_px);
        out.push(w);
        proof {
            lemma_extends(before, mid, *cache);
            lemma_widths_stay(mid@, cache@, want.take(i as int), font_px);
            assert(want[i as int] == lines@[i as int]@);
            assert forall|k: int| 0 <= k < i + 1 implies covers(
                cache@,
                #[trigger] want.take(i + 1)[k],
                font_px,
            ) by {
                if k < i {
                    assert(want.take(i as int)[k] == want[k]);
                }
            }
            assert(out@ =~= widths_of(cache@, want.take(i + 1), font_px));
        }
        i = i + 1;
    }
    proof {
        assert(want.take(i as int) =~= want);
    }
    out
}

/// Draws a line of text whose first glyph has its left edge at `x0`, all glyphs standing on the row
/// `y0`. Returns the width it took.
pub fn draw_text<F: Face>(
    buf: &mut Framebuffer,
    cache: &mut GlyphCache<F>,
    text: &str,
    x0: usize,
    y0: usize,
    font_px: u32,
    color: Rgb,
) -> (w: usize)
    requires
        old(buf).wf(),
        old(cache).wf(),
    ensures
        final(buf).wf(),
        final(buf).width == old(buf).width,
        final(buf).height == old(buf).height,
        final(cache).extends(old(cache)),
        covers(final(cache)@, text@, font_px),
        final(buf)@ == lettered(
            old(buf)@,
            final(cache)@,
            text@,
            x0 as int,
            y0 as int,
            font_px,
            color,
        ),
        w == clamped(x0 + width_of(final(cache)@, text@, font_px)) - x0,
{
    let v = chars_of(text);
    prepare_text(cache, &v, font_px);
    let ghost before = buf@;
    let ghost m = cache@;
    let mut cx: usize = x0;
    let mut i: usize = 0;
    while i < v.len()
        invariant
            i <= v@.len(),
            m == cache@,
            cache.wf(),
            covers(m, v@, font_px),
            buf.wf(),
            buf.width == old(buf).width,
            buf.height == old(buf).height,
            x0 <= cx,
            cx == clamped(x0 + width_of(m, v@.take(i as int), font_px)),
            buf@ == lettered(
                before,
                m,
                v@.take(i as int),
                x0 as int,
                y0 as int,
                font_px,
                color,
            ),
        decreases v@.len() - i,
    {
        let c = v[i];
        proof {
            assert(v@.take(i + 1).drop_last() =~= v@.take(i as int));
        }
        if c != '\n' {
            proof {
                assert(m.contains_key(slot(false, false, v@[i as int], font_px)));
            }
            let g = cache.peek(c, font_px, false, false);
            let ghost now = buf@;
            proof {
                let at = x0 + width_of(m, v@.take(i as int), font_px);
                if at != cx {
                    lemma_stamp_beyond(now, at, y0 as int, g@, color);
                    lemma_stamp_beyond(now, cx as int, y0 as int, g@, color);
                }
            }
            stamp(buf, cx, y0, g.w as usize, g.h as usize, &g.alpha, color);
            cx = cx.saturating_add(g.w as usize);
        }
        i = i + 1;
    }
    proof {
        assert(v@.take(i as int) =~= v@);
    }
    cx - x0
}

} // verus!
