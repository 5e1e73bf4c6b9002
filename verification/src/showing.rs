//! Laws of what the bars, the panels and the images show.

use vstd::prelude::*;

use crate::board::BoardView;
use crate::color::{palette, Accent};
use crate::fonts::{chosen_path, first_usable};
use crate::geometry::Metrics;
use crate::glyph::{coverage, slot, Raster};
use crate::grid::{
    cell_slot, larger, linked, row_spans, spans_from, started, styled, Cell, Selected, UrlSpan,
    BOLD, DIM, INVERSE, ITALIC, STRIKEOUT, UNDERLINE,
};
use crate::lettering::{lettered, width_of};
use crate::paint::{mix, opaque, Bitmap, Image, Rgb};
use crate::rosters::how_many;
use crate::seqs::{lemma_set_indices, listed, set_indices};
use crate::shell::ShellView;
use crate::status::down_hosts;
use crate::strip::{note, spinner, tab_rest, tab_sheet, tab_text, StripView};
use crate::strokes::{painted, panel, row_strokes, slot_y, RowView, StrokeView};
use crate::tabs::{one_line, TabView};
use crate::text::dec;
use crate::triage::{accent_of, host_hue, Engine};
use crate::words::clipped;

verus! {

/// A message stays for three seconds, and takes the place of what the status line says else; then
/// it is dropped.
pub proof fn law_messages_last(b: BoardView, text: Seq<char>, at: u64, now: u64, up: bool)
    ensures
        ({
            let c = b.says(text, at);
            &&& now < at + 3000 ==> c.status_text(up, now) == "  ⚑ "@ + text && c.flash_kept(now)
                == c
            &&& now >= at + 3000 ==> c.flash_kept(now).flash is None
            &&& c.flash_kept(now).tabs == b.tabs && c.flash_kept(now).slots == b.slots
                && c.flash_kept(now).todo == b.todo
        }),
{
}

/// Without a message the status line says whether the tunnel is up.
pub proof fn law_tunnel_is_told(b: BoardView, up: bool, now: u64)
    requires
        b.flash is None,
    ensures
        b.status_text(up, now)[2] == '●' <==> up,
        b.status_text(up, now)[2] == '○' <==> !up,
{
    reveal_strlit("  ");
    reveal_strlit("● tunnel up");
    reveal_strlit("○ tunnel down");
    assert("● tunnel up"@[0] == '●');
    assert("○ tunnel down"@[0] == '○');
    let t = b.status_text(up, now);
    let word = crate::rosters::either(up, "● tunnel up"@, "○ tunnel down"@);
    assert(t[2] == word[0]);
}

proof fn lemma_how_many(mask: Seq<bool>)
    ensures
        how_many(mask) == 0 <==> forall|i: int| 0 <= i < mask.len() ==> !#[trigger] mask[i],
{
    lemma_set_indices(mask);
    let s = set_indices(mask);
    if how_many(mask) > 0 {
        assert(mask[s[0]]);
    }
    if exists|i: int| 0 <= i < mask.len() && #[trigger] mask[i] {
        let i = choose|i: int| 0 <= i < mask.len() && #[trigger] mask[i];
        assert(s.contains(i));
    }
}

/// The fleet is well just where no pane is down and none of several sessions grew; a single session
/// is not told of.
pub proof fn law_fleet_is_well(b: BoardView)
    requires
        b.tabs.len() > 1,
        forall|i: int| 0 <= i < b.tabs.len() ==> !(#[trigger] b.tabs[i]).down(),
        forall|i: int| 0 <= i < b.slots.len() ==> !#[trigger] b.growing(i),
    ensures
        b.fleet_note() == "  ✓ fleet ok"@,
{
    let d = b.down_mask();
    let g = b.growing_mask();
    lemma_how_many(d);
    lemma_how_many(g);
    assert forall|i: int| 0 <= i < g.len() implies !#[trigger] g[i] by {
        assert(!b.growing(i));
    }
    assert forall|i: int| 0 <= i < d.len() implies !#[trigger] d[i] by {
        assert(!b.tabs[i].down());
    }
}

/// How far back a view is held is told in percent: nothing at the live screen, more the further
/// back, and never all of it.
pub proof fn law_scroll_percent(b: BoardView, k: int)
    requires
        b.active < b.tabs.len(),
    ensures
        0 <= b.scroll_percent() <= 99,
        b.tabs[b.active as int].offset == 0 ==> b.scroll_percent() == 0,
        0 < b.tabs[b.active as int].depth <= b.tabs[b.active as int].offset ==> b.scroll_percent()
            == 99,
        0 <= k < 99 && k * b.tabs[b.active as int].depth <= b.tabs[b.active as int].offset * 100 < (k
            + 1) * b.tabs[b.active as int].depth ==> b.scroll_percent() == k,
{
    let t = b.tabs[b.active as int];
    let d = t.depth as int;
    if d > 0 {
        let above = if t.offset < t.depth {
            t.offset as int
        } else {
            d
        };
        vstd::arithmetic::div_mod::lemma_div_pos_is_pos(above * 100, d);
        if above == 0 {
            vstd::arithmetic::div_mod::lemma_div_of0(d);
        }
        if above == d {
            vstd::arithmetic::div_mod::lemma_div_multiples_vanish(100, d);
            assert(d * 100 == 100 * d);
        }
        let (x, o) = (k * d, t.offset as int);
        if 0 <= k < 99 && x <= o * 100 < (k + 1) * d {
            assert((k + 1) * d == x + d && (k + 1) * d <= 99 * d) by (nonlinear_arith)
                requires
                    x == k * d,
                    0 <= k < 99,
                    0 < d,
            ;
            vstd::arithmetic::div_mod::lemma_fundamental_div_mod_converse(o * 100, d, k, o * 100 - x);
        }
    }
}

/// The machines of the panes that are down are told, and no others.
pub proof fn law_down_hosts(tabs: Seq<TabView>, h: Seq<char>)
    ensures
        listed(down_hosts(tabs), h) <==> exists|i: int|
            0 <= i < tabs.len() && (#[trigger] tabs[i]).down() && tabs[i].host_or_unknown() == h,
    decreases tabs.len(),
{
    if tabs.len() > 0 {
        let front = tabs.drop_last();
        let t = tabs.last();
        law_down_hosts(front, h);
        let r = down_hosts(tabs);
        let q = down_hosts(front);
        assert(tabs[tabs.len() - 1] == t);
        if exists|i: int|
            0 <= i < front.len() && (#[trigger] front[i]).down() && front[i].host_or_unknown() == h {
            let i = choose|i: int|
                0 <= i < front.len() && (#[trigger] front[i]).down() && front[i].host_or_unknown()
                    == h;
            assert(tabs[i] == front[i]);
        }
        if exists|i: int|
            0 <= i < tabs.len() && (#[trigger] tabs[i]).down() && tabs[i].host_or_unknown() == h {
            let i = choose|i: int|
                0 <= i < tabs.len() && (#[trigger] tabs[i]).down() && tabs[i].host_or_unknown() == h;
            if i < front.len() {
                assert(front[i] == tabs[i]);
            }
        }
        if t.down() {
            assert(r == q.push(t.host_or_unknown()));
            assert(r[q.len() as int] == t.host_or_unknown());
            if listed(q, h) {
                let j = choose|j: int| 0 <= j < q.len() && #[trigger] q[j] == h;
                assert(r[j] == h);
            }
            if listed(r, h) && t.host_or_unknown() != h {
                let j = choose|j: int| 0 <= j < r.len() && #[trigger] r[j] == h;
                assert(q[j] == h);
            }
        }
    }
}

/// What waits to be sent is what waits for each session, one added to the other.
pub proof fn law_staged(b: BoardView, n: int)
    requires
        0 <= n < b.tabs.len(),
    ensures
        b.staged(0) == 0,
        b.staged(n + 1) == b.staged(n) + b.tabs[n].pending,
{
}

/// The counts at the end of the bar: a mark and a number for what there is, and nothing for what
/// there is not.
pub proof fn law_counts(b: BoardView, busy: Seq<bool>, now: u64)
    ensures
        note("↓"@, 0) == ""@,
        forall|n: nat| n > 0 ==> #[trigger] note("↓"@, n) == "↓"@ + dec(n) + " "@,
        b.others(busy).len() == busy.len(),
        forall|i: int|
            0 <= i < busy.len() ==> (#[trigger] b.others(busy)[i] <==> busy[i] && i != b.active),
        how_many(b.down_mask()) == 0 && how_many(b.recovery_mask()) == 0 && how_many(b.others(busy))
            == 0 && b.staged(b.tabs.len() as int) == 0 && how_many(b.quiet_mask(now)) == 0 && !b.dnd
            ==> b.triage_text(busy, now).len() == 0,
        how_many(b.down_mask()) > 0 ==> b.triage_text(busy, now).len() > 0 && b.triage_text(
            busy,
            now,
        )[0] == '↓',
        b.dnd ==> b.triage_text(busy, now).len() >= 2 && b.triage_text(busy, now)[b.triage_text(
            busy,
            now,
        ).len() - 2] == '🔕',
{
    reveal_strlit("");
    reveal_strlit("↓");
    reveal_strlit("🔕 ");
    assert("↓"@[0] == '↓');
    assert("🔕 "@[0] == '🔕');
    let t = b.triage_text(busy, now);
    if how_many(b.down_mask()) > 0 {
        let d = note("↓"@, how_many(b.down_mask()));
        assert(d[0] == '↓');
        assert(t[0] == d[0]);
    }
    if b.dnd {
        assert(t[t.len() - 2] == "🔕 "@[0]);
    }
}

/// The mark of a busy session turns once in eight frames; that of any other is not there.
pub proof fn law_spinner(frame: u64)
    ensures
        spinner(false, frame).len() == 0,
        frame % 8 == 0 || frame % 8 == 1 ==> spinner(true, frame) == "◐"@,
        frame % 8 == 2 || frame % 8 == 3 ==> spinner(true, frame) == "◓"@,
        frame % 8 == 4 || frame % 8 == 5 ==> spinner(true, frame) == "◑"@,
        frame % 8 == 6 || frame % 8 == 7 ==> spinner(true, frame) == "◒"@,
{
    reveal_strlit("");
}

/// The tab of a pane that is down starts with an arrow; one of which there is nothing to tell shows
/// its name and what it is doing, on one line and cut. The active tab ends in a full mark, any
/// other in an empty one.
pub proof fn law_tab_marks(b: BoardView, i: int, frame: u64)
    requires
        b.slots.len() == b.tabs.len() <= usize::MAX,
        0 <= i < b.tabs.len(),
    ensures
        ({
            let t = b.tabs[i];
            let front = b.tab_front(i, false, frame);
            let back = b.tab_back(i);
            &&& t.down() ==> front[1] == '↓'
            &&& !t.down() && !b.ringing(i) && !b.recovering(i) && b.unread(i) == 0 && !b.pinned(i)
                && !b.muted(i) ==> front == "  "@ + t.head() + " "@
                    + clipped(one_line(t.doing()), 18)
                + " "@
            &&& back.len() >= 2
            &&& back[back.len() - 2] == '●' <==> i == b.active
            &&& back[back.len() - 2] == '○' <==> i != b.active
        }),
{
    reveal_strlit("");
    reveal_strlit(" ");
    reveal_strlit("  ");
    reveal_strlit("↓");
    reveal_strlit("● ");
    reveal_strlit("○ ");
    assert("↓"@[0] == '↓');
    assert("● "@[0] == '●' && "○ "@[0] == '○');
    let t = b.tabs[i];
    let front = b.tab_front(i, false, frame);
    let back = b.tab_back(i);
    let end = crate::rosters::either(i == b.active, "● "@, "○ "@);
    assert(back[back.len() - 2] == end[0]);
    if t.down() {
        assert(front[1] == "↓"@[0]);
    } else if !b.ringing(i) && !b.recovering(i) && b.unread(i) == 0 && !b.pinned(i) && !b.muted(i) {
        assert(" "@ + ""@ + ""@ + ""@ + ""@ + ""@ + " "@ =~= "  "@);
        assert(front =~= "  "@ + t.head() + " "@ + clipped(one_line(t.doing()), 18) + " "@);
    }
}

/// Each style is one bit of its own, and a cell's glyph is the one of its style.
pub proof fn law_style_bits(f: u16, cell: Cell, px: u32)
    ensures
        styled(f, INVERSE) <==> f & 1 == 1,
        styled(f, BOLD) <==> f & 2 == 2,
        styled(f, ITALIC) <==> f & 4 == 4,
        styled(f, UNDERLINE) <==> f & 8 == 8,
        styled(f, DIM) <==> f & 128 == 128,
        styled(f, STRIKEOUT) <==> f & 512 == 512,
        cell_slot(cell, px) == slot(cell.flags & 2 == 2, cell.flags & 4 == 4, cell.c, px),
{
}

/// A cell belongs to a plain selection where it does not stand before its first cell or behind its
/// last one, and to a block where it stands between the columns of both.
pub proof fn law_selections(s: Selected, line: i32, col: usize)
    requires
        s.start_line <= s.end_line,
    ensures
        !s.is_block ==> (s.covers(line, col) <==> !(line < s.start_line || (line == s.start_line
            && col < s.start_col)) && !(line > s.end_line || (line == s.end_line && col
            > s.end_col))),
        s.is_block ==> (s.covers(line, col) <==> s.start_line <= line <= s.end_line && s.start_col
            <= col <= s.end_col),
{
}

/// Whether the links found in a row agree: the link found when looking at a column takes that
/// column, and is found when looking at any other column that it takes.
pub open spec fn agreeing(hits: Seq<Option<UrlSpan>>) -> bool {
    forall|i: int|
        0 <= i < hits.len() ==> (#[trigger] hits[i] matches Some(s) ==> s.start <= i < s.end
            <= hits.len() && forall|j: int| s.start <= j < s.end ==> #[trigger] hits[j] == Some(s))
}

/// A column is shown as part of a link just where a link was found there.
pub proof fn law_links_are_where_they_are_found(hits: Seq<Option<UrlSpan>>, col: int)
    requires
        agreeing(hits),
        0 <= col < hits.len(),
    ensures
        linked(row_spans(hits), col) <==> hits[col] is Some,
{
    lemma_spans(hits, 0, Seq::empty());
}

/// Whether each span is one that was found, and what was found in the first columns is there.
spec fn gathered(hits: Seq<Option<UrlSpan>>, i: int, got: Seq<UrlSpan>) -> bool {
    &&& forall|k: int|
        0 <= k < got.len() ==> (#[trigger] got[k]).start < hits.len() && hits[got[k].start as int]
            == Some(got[k])
    &&& forall|k: int| 0 <= k < i && k < hits.len() && #[trigger] hits[k] is Some ==> linked(got, k)
}

proof fn lemma_spans(hits: Seq<Option<UrlSpan>>, i: int, got: Seq<UrlSpan>)
    requires
        agreeing(hits),
        0 <= i,
        gathered(hits, i, got),
    ensures
        forall|k: int|
            0 <= k < hits.len() ==> (linked(spans_from(hits, i, got), k) <==> #[trigger] hits[k] is Some),
    decreases larger(hits.len() - i, 0),
{
    if i >= hits.len() {
        assert forall|k: int| 0 <= k < hits.len() implies (linked(got, k)
            <==> #[trigger] hits[k] is Some) by {
            if linked(got, k) {
                let x = choose|x: int| 0 <= x < got.len() && (#[trigger] got[x]).start <= k
                    < got[x].end;
                assert(hits[got[x].start as int] == Some(got[x]));
            }
        }
    } else {
        match hits[i] {
            None => {
                lemma_spans(hits, i + 1, got);
            },
            Some(s) => {
                let next = if s.end > i && !started(got, s.start) {
                    got.push(s)
                } else {
                    got
                };
                assert(hits[s.start as int] == Some(s));
                assert forall|k: int| 0 <= k < next.len() implies (#[trigger] next[k]).start
                    < hits.len() && hits[next[k].start as int] == Some(next[k]) by {
                    if k < got.len() {
                        assert(next[k] == got[k]);
                    }
                }
                let x = if started(got, s.start) {
                    let y = choose|y: int| 0 <= y < got.len() && (#[trigger] got[y]).start == s.start;
                    assert(hits[got[y].start as int] == Some(got[y]));
                    y
                } else {
                    got.len() as int
                };
                assert(next[x] == s);
                assert forall|k: int|
                    0 <= k < s.end && k < hits.len() && #[trigger] hits[k] is Some implies linked(
                    next,
                    k,
                ) by {
                    if k < i {
                        assert(linked(got, k));
                        let y = choose|y: int|
                            0 <= y < got.len() && (#[trigger] got[y]).start <= k < got[y].end;
                        assert(next[y] == got[y]);
                    } else {
                        assert(s.start <= k < s.end);
                        assert(next[x].start <= k < next[x].end);
                    }
                }
                assert(larger(s.end as int, i + 1) == s.end);
                lemma_spans(hits, s.end as int, next);
            },
        }
    }
}

/// The presets go by their names: each has the foreground, the background and the red of its own.
pub proof fn law_presets()
    ensures
        palette("gruvbox-dark"@).0@[0] == (0xebu8, 0xdbu8, 0xb2u8) && palette("gruvbox-dark"@).0@[1]
            == (0x28u8, 0x28u8, 0x28u8) && palette("gruvbox-dark"@).1@[1] == (0xccu8, 0x24u8, 0x1du8),
        palette("solarized-dark"@).0@[0] == (0x83u8, 0x94u8, 0x96u8) && palette(
            "solarized-dark"@,
        ).0@[1] == (0x00u8, 0x2bu8, 0x36u8) && palette("solarized-dark"@).1@[1] == (
            0xdcu8,
            0x32u8,
            0x2fu8,
        ),
        palette("nord"@).0@[0] == (0xd8u8, 0xdeu8, 0xe9u8) && palette("nord"@).0@[1] == (
            0x2eu8,
            0x34u8,
            0x40u8,
        ) && palette("nord"@).1@[1] == (0xbfu8, 0x61u8, 0x6au8),
        palette("dracula"@).0@[0] == (0xf8u8, 0xf8u8, 0xf2u8) && palette("dracula"@).0@[1] == (
            0x28u8,
            0x2au8,
            0x36u8,
        ) && palette("dracula"@).1@[1] == (0xffu8, 0x55u8, 0x55u8),
        palette("github-dark"@).0@[0] == (0xc9u8, 0xd1u8, 0xd9u8) && palette("github-dark"@).0@[1] == (
            0x0du8,
            0x11u8,
            0x17u8,
        ) && palette("github-dark"@).1@[1] == (0xffu8, 0x7bu8, 0x72u8),
        palette(""@).0@[0] == (0xc0u8, 0xcau8, 0xf5u8) && palette(""@).0@[1] == (
            0x1au8,
            0x1bu8,
            0x26u8,
        ) && palette(""@).1@[1] == (0xf7u8, 0x76u8, 0x8eu8),
{
    reveal_strlit("");
    reveal_strlit("gruvbox-dark");
    reveal_strlit("solarized-dark");
    reveal_strlit("nord");
    reveal_strlit("dracula");
    reveal_strlit("github-dark");
    assert("gruvbox-dark"@[1] == 'r' && "gruvbox-dark"@[0] == 'g');
    assert("solarized-dark"@[0] == 's');
    assert("nord"@[0] == 'n');
    assert("dracula"@[0] == 'd');
    assert("github-dark"@[0] == 'g' && "github-dark"@[1] == 'i');
    assert(""@.len() == 0);
    assert("gruvbox-dark"@.len() == 12 && "solarized-dark"@.len() == 14 && "nord"@.len() == 4
        && "dracula"@.len() == 7 && "github-dark"@.len() == 11);
}

/// A color laid over another lies between both, is itself at full coverage and is not there at
/// none.
pub proof fn law_mixing(src: u8, dst: u8, a: u8)
    ensures
        mix(src, dst, 255) == src,
        mix(src, dst, 0) == dst,
        src <= dst ==> src <= mix(src, dst, a) <= dst,
        dst <= src ==> dst <= mix(src, dst, a) <= src,
{
    let (s, d, k) = (src as int, dst as int, a as int);
    let x = s * k + d * (255 - k);
    assert(s <= d ==> 255 * s <= x <= 255 * d) by (nonlinear_arith)
        requires
            x == s * k + d * (255 - k),
            0 <= k <= 255,
    ;
    assert(d <= s ==> 255 * d <= x <= 255 * s) by (nonlinear_arith)
        requires
            x == s * k + d * (255 - k),
            0 <= k <= 255,
    ;
    assert(src * 0 + dst * 255 == dst * 255);
}

/// The box of a glyph takes what the outline covers, pixel by pixel, and at least one column.
pub proof fn law_glyph_is_what_is_covered(r: Raster, x: int, y: int)
    requires
        0 <= x < r.w,
        0 <= y < r.h,
        r.w * r.h <= u32::MAX,
    ensures
        r.bitmap(false).w == r.w,
        r.bitmap(false).h == r.h,
        r.bitmap(false).cover(x, y) == coverage(r.dots@, x, y),
{
    let w = r.w as int;
    let i = y * w + x;
    vstd::arithmetic::div_mod::lemma_fundamental_div_mod_converse(i, w, y, x);
    assert(0 <= i < w * r.h) by (nonlinear_arith)
        requires
            i == y * w + x,
            0 <= x < w,
            0 <= y < r.h,
    ;
}

/// What covers a pixel is the most that any of the dots there covers.
pub proof fn law_coverage(r: Raster, x: int, y: int)
    ensures
        forall|k: int|
            0 <= k < r.dots@.len() && (#[trigger] r.dots@[k]).x == x && r.dots@[k].y == y
                ==> r.dots@[k].cover <= coverage(r.dots@, x, y),
        coverage(r.dots@, x, y) > 0 ==> exists|k: int|
            0 <= k < r.dots@.len() && (#[trigger] r.dots@[k]).x == x && r.dots@[k].y == y
                && r.dots@[k].cover == coverage(r.dots@, x, y),
{
    lemma_coverage(r.dots@, x, y);
}

proof fn lemma_coverage(dots: Seq<crate::glyph::Dot>, x: int, y: int)
    ensures
        forall|k: int|
            0 <= k < dots.len() && (#[trigger] dots[k]).x == x && dots[k].y == y ==> dots[k].cover
                <= coverage(dots, x, y),
        coverage(dots, x, y) > 0 ==> exists|k: int|
            0 <= k < dots.len() && (#[trigger] dots[k]).x == x && dots[k].y == y && dots[k].cover
                == coverage(dots, x, y),
    decreases dots.len(),
{
    if dots.len() > 0 {
        let front = dots.drop_last();
        let d = dots.last();
        lemma_coverage(front, x, y);
        assert(dots[dots.len() - 1] == d);
        let c = coverage(dots, x, y);
        assert forall|k: int|
            0 <= k < dots.len() && (#[trigger] dots[k]).x == x && dots[k].y == y implies dots[k].cover
            <= c by {
            if k < front.len() {
                assert(front[k] == dots[k]);
            }
        }
        if c > 0 && !(d.x == x && d.y == y && d.cover > coverage(front, x, y)) {
            let k = choose|k: int|
                0 <= k < front.len() && (#[trigger] front[k]).x == x && front[k].y == y
                    && front[k].cover == c;
            assert(dots[k] == front[k]);
        }
    }
}

/// The font of the configuration comes before that of the environment, and that before the
/// system's; of several files the first that can be used is taken.
pub proof fn law_fonts(config: Seq<char>, env: Seq<char>, primary: Seq<char>, a: bool, b: bool)
    ensures
        chosen_path(Some(config), Some(env)) == config,
        chosen_path(Some(config), None) == config,
        env.len() > 0 ==> chosen_path(None, Some(env)) == env,
        env.len() == 0 ==> chosen_path(None, Some(env)) == "/System/Library/Fonts/SFNSMono.ttf"@,
        chosen_path(None, None) == "/System/Library/Fonts/SFNSMono.ttf"@,
        first_usable(primary, true, a, b) == Some(primary),
        primary != "/System/Library/Fonts/SFNSMono.ttf"@ ==> first_usable(primary, false, true, b)
            == Some("/System/Library/Fonts/SFNSMono.ttf"@),
        primary != "/System/Library/Fonts/Monaco.ttf"@ ==> first_usable(primary, false, false, true)
            == Some("/System/Library/Fonts/Monaco.ttf"@),
        first_usable(primary, false, false, false) is None,
{
}

/// The grid takes as many whole rows and columns as fit between the bars, and at least the room of
/// one pixel is counted.
pub proof fn law_grid_fits(m: Metrics, top: int, bottom: int)
    requires
        m.cell_w > 0,
        m.cell_h > 0,
        0 <= top,
        0 <= bottom,
        m.height > top + bottom,
        m.width > 0,
    ensures
        ({
            let (rows, cols) = m.grid_size(top, bottom);
            &&& rows * m.cell_h <= m.height - top - bottom < (rows + 1) * m.cell_h
            &&& cols * m.cell_w <= m.width < (cols + 1) * m.cell_w
        }),
{
    let (rows, cols) = m.grid_size(top, bottom);
    let (h, w) = (m.cell_h as int, m.cell_w as int);
    let room = m.height - top - bottom;
    vstd::arithmetic::div_mod::lemma_fundamental_div_mod(room, h);
    vstd::arithmetic::div_mod::lemma_mod_bound(room, h);
    vstd::arithmetic::div_mod::lemma_fundamental_div_mod(m.width as int, w);
    vstd::arithmetic::div_mod::lemma_mod_bound(m.width as int, w);
    assert(h * rows == rows * h && w * cols == cols * w && (rows + 1) * h == rows * h + h && (cols
        + 1) * w == cols * w + w) by (nonlinear_arith);
}

/// A session that has the size of its window needs no other; one that has not is given whole rows
/// and columns, and at least one of each.
pub proof fn law_resizing(s: ShellView)
    requires
        s.board.active < s.board.tabs.len(),
    ensures
        s.resize_due() matches Some((rows, cols)) ==> rows >= 1 && cols >= 1 && (
        s.board.tabs[s.board.active as int].lines != rows || s.board.tabs[s.board.active as int].cols
            != cols),
        s.resize_due() is None ==> ({
            let (top, bottom) = s.bars();
            let (rows, cols) = s.metrics.grid_size(top, bottom);
            &&& rows >= 1 ==> s.board.tabs[s.board.active as int].lines == rows
            &&& cols >= 1 ==> s.board.tabs[s.board.active as int].cols == cols
        }),
{
}

/// A view that is not held goes back to the live screen, and one that is held stays.
pub proof fn law_views_follow(b: BoardView)
    requires
        b.active < b.tabs.len(),
    ensures
        b.tabs[b.active as int].scrolled ==> b.followed() == b,
        !b.tabs[b.active as int].scrolled ==> b.followed().tabs[b.active as int].offset == 0,
        b.followed().active == b.active,
        b.followed().slots == b.slots,
{
}

/// A text is painted glyph after glyph: what stands behind starts where what stands before ends.
pub proof fn law_text_goes_on(
    img: Image,
    m: Map<u64, Bitmap>,
    a: Seq<char>,
    b: Seq<char>,
    x0: int,
    bottom: int,
    px: u32,
    c: Rgb,
)
    ensures
        lettered(img, m, a + b, x0, bottom, px, c) == lettered(
            lettered(img, m, a, x0, bottom, px, c),
            m,
            b,
            x0 + width_of(m, a, px),
            bottom,
            px,
            c,
        ),
        width_of(m, a + b, px) == width_of(m, a, px) + width_of(m, b, px),
    decreases b.len(),
{
    if b.len() == 0 {
        assert(a + b =~= a);
    } else {
        let t = a + b;
        assert(t.drop_last() =~= a + b.drop_last());
        assert(t.last() == b.last());
        law_text_goes_on(img, m, a, b.drop_last(), x0, bottom, px, c);
    }
}

/// The lines of a panel are painted one after the other: each text stands on its own line, and only
/// a selected one has a bar behind it, which is painted before it.
pub proof fn law_panel_lines(m: Metrics, hidden: bool, s: Seq<RowView>, r: RowView)
    ensures
        panel(m, hidden, Seq::empty()).len() == 0,
        panel(m, hidden, s.push(r)) == panel(m, hidden, s) + row_strokes(m, hidden, r),
        row_strokes(m, hidden, r).last() == StrokeView::Text(
            r.text,
            32,
            slot_y(m, hidden, r.slot as int) as usize,
            r.color,
        ),
        !r.lit ==> row_strokes(m, hidden, r).len() == 1,
        r.lit ==> row_strokes(m, hidden, r).len() == 2 && row_strokes(m, hidden, r)[0] is Fill,
{
    assert(s.push(r).drop_last() =~= s);
}

/// An image of one color shows it everywhere; another laid over it shows where it lies, and nowhere
/// else.
pub proof fn law_pasting(w: nat, h: nat, c: Rgb, other: Image, top: int, x: int, y: int)
    requires
        0 <= x < w,
        0 <= y < h,
        other.shaped(),
    ensures
        Image::blank(w, h, c).at(x, y) == opaque(c),
        top <= y < top + other.height && x < other.width ==> Image::blank(w, h, c).pasted(
            other,
            top,
        ).at(x, y) == other.at(x, y - top),
        !(top <= y < top + other.height && x < other.width) ==> Image::blank(w, h, c).pasted(
            other,
            top,
        ).at(x, y) == opaque(c),
{
}

/// The text of the active tab has the color of its machine, that of any other the tint of its
/// agent; the machine on a tab always has its own color.
pub proof fn law_tab_colors(b: BoardView, accents: Seq<Accent>, engines: Seq<Engine>, i: int)
    requires
        0 <= i < b.tabs.len(),
    ensures
        i == b.active ==> b.tab_colors(accents, engines)[i] == host_hue(b.tabs[i].host),
        i != b.active ==> b.tab_colors(accents, engines)[i] == accent_of(
            b.tabs[i].engine,
            accents,
            engines,
        ),
        b.tab_hues()[i] == host_hue(b.tabs[i].host),
{
}

/// Only the active tab lies on a sheet, with an edge above and a line in its color below; the tab
/// under the pointer lies on a chip, and any other on nothing.
pub proof fn law_tab_sheets(m: Metrics, x: int, w: int, color: Rgb)
    ensures
        tab_sheet(m, x, w, false, false, color).len() == 0,
        tab_sheet(m, x, w, false, true, color).len() == 1,
        tab_sheet(m, x, w, true, false, color).len() == 3,
        tab_sheet(m, x, w, true, true, color) == tab_sheet(m, x, w, true, false, color),
        tab_sheet(m, x, w, true, false, color)[2] matches StrokeView::Fill(fx, fy, fw, fh, c) && fx
            == x as usize && fw == w as usize && fh == 2 && c == color,
{
}

/// The text on a tab stands in one piece on the active one; on any other with a machine the machine
/// has a color of its own, between what stands before and behind it.
pub proof fn law_tab_texts(m: Metrics, s: StripView, i: int, x: usize)
    requires
        s.hosts[i].len() > 0,
        x + s.front_w[i] + s.host_w[i] < usize::MAX,
    ensures
        ({
            let y = m.strip_row(false) as usize;
            let away = tab_text(m, s, i, x as int, false);
            &&& tab_text(m, s, i, x as int, true) == seq![
                StrokeView::Text(s.fronts[i] + s.hosts[i] + s.backs[i], x, y, s.colors[i]),
            ]
            &&& away.len() == 3
            &&& away[0] == StrokeView::Text(s.fronts[i], x, y, s.colors[i])
            &&& away[1] == StrokeView::Text(s.hosts[i], (x + s.front_w[i]) as usize, y, s.hues[i])
            &&& away[2] == StrokeView::Text(
                s.backs[i],
                (x + s.front_w[i] + s.host_w[i]) as usize,
                y,
                s.colors[i],
            )
        }),
{
}

/// The tabs that do not fit the bar are counted; where all fit nothing is said.
pub proof fn law_tabs_left_over(m: Metrics, n: nat)
    ensures
        tab_rest(m, 0).len() == 0,
        n > 0 ==> (tab_rest(m, n as int).len() == 1 && (tab_rest(m, n as int)[0] matches StrokeView::Text(
            t,
            x,
            y,
            c,
        ) && t == "⋯ +"@ + dec(n))),
{
}

/// The button for a new tab is noted where it is painted: at the end of the bar, as high as the
/// bar.
pub proof fn law_new_tab_button(s: ShellView, v: StripView)
    requires
        s.metrics.width >= 24,
    ensures
        s.strip_noted(v).mouse.new_tab == Some(
            ((s.metrics.width - 24) as usize, 0usize, 18usize, s.metrics.top(false) as usize),
        ),
        s.new_tab_strokes().last() matches StrokeView::Text(t, x, y, c) && t == "+"@ && x
            == s.metrics.width - 19,
        s.on_new_tab() ==> s.new_tab_strokes().len() == 2,
        !s.on_new_tab() ==> s.new_tab_strokes().len() == 1,
{
}

/// A session's connection is told by a full mark where it is there; else by an empty one, how the
/// reconnect goes, and what waits to be sent.
pub proof fn law_links_are_told(t: TabView)
    ensures
        t.seen.alive ==> t.link_text() == "●"@,
        !t.seen.alive && t.pending > 0 && t.retry is Some ==> t.link_text() == "○ "@ + t.retry->0
            + " · queued "@ + dec(t.pending) + "B"@,
        !t.seen.alive && t.pending == 0 && t.retry is None ==> t.link_text() == "○ "@
            + "reconnecting…"@,
{
    reveal_strlit("");
    if !t.seen.alive && t.pending > 0 && t.retry is Some {
        assert(t.link_text() =~= "○ "@ + t.retry->0 + " · queued "@ + dec(t.pending) + "B"@);
    }
    if !t.seen.alive && t.pending == 0 && t.retry is None {
        assert(t.link_text() =~= "○ "@ + "reconnecting…"@);
    }
}

/// The status line starts with what it says, has the chip of the prefix only while that is held,
/// and ends with the reminder of the keys.
pub proof fn law_status_line(s: ShellView, w: Seq<usize>, up: bool, now: u64)
    ensures
        ({
            let p = s.status_panel(w, up, now);
            &&& p.len() == if s.prefix.down {
                7int
            } else {
                5
            }
            &&& p[2] matches StrokeView::Text(t, x, y, c) && t == s.board.status_text(up, now) && x == 6
            &&& p.last() matches StrokeView::Text(t, x, y, c) && t == crate::status::HINTS@
            &&& s.prefix.down ==> (p[4] matches StrokeView::Text(t, x, y, c) && t == s.chip())
        }),
{
}

} // verus!
