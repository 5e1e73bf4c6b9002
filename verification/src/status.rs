//! The bar at the bottom of the window: the session that is looked at, messages, hints and counts.

use vstd::prelude::*;
use vstd::string::*;

use crate::board::{Board, BoardView};
use crate::copying::{CopyMode, CopyView};
use crate::geometry::{less, plus, times, Metrics};
use crate::glyph::{Face, GlyphCache};
use crate::lettering::{clamped, covers_all, text_widths, widths_of};
use crate::prompts::{status_base, status_row};
use crate::rosters::{count_set, either, how_many, pick_text};
use crate::seqs::{firsts, listed};
use crate::shell::{Shell, ShellView};
use crate::strip::{note, note_text};
use crate::strokes::{lay, strokes, Stroke, StrokeView, BLACK, COPY_GREEN};
use crate::tabs::{Tab, TabView};
use crate::text::{chars_of, copy_text, dec, decimal, same_text, texts, trim, trimmed};
use crate::triage::{
    CHROME_ACTIVE_BG, CHROME_BG, CHROME_DIM, CHROME_ERR, CHROME_FG, CHROME_HAIR, WHITE,
};
use crate::words::{clip_dots, clipped, join, joined};

verus! {

/// The keys that the status line reminds of.
pub const HINTS: &'static str =
    " prefix+/ palette  prefix+a broadcast  prefix+h search all  prefix+n new  prefix+r remote  prefix+s fleet  prefix+o busy  prefix+[ copy  prefix+p paste  prefix+l last  prefix+? help  prefix+q quit ";

/// How long a message stays, in milliseconds.
pub const FLASH_MS: u64 = 3000;

impl TabView {
    /// Whether a session is connected, or how the reconnect goes and what waits for it.
    pub open spec fn link_text(self) -> Seq<char> {
        if self.seen.alive {
            "●"@
        } else {
            "○ "@ + (match self.retry { Some(r) => r, None => "reconnecting…"@ })
                + (if self.pending > 0 { " · queued "@ + dec(self.pending) + "B"@ } else { ""@ })
        }
    }

    /// What the status line says of a session.
    pub open spec fn status_note(self) -> Seq<char> {
        " "@ + self.host + " · "@ + self.head() + " · "@ + self.doing() + " · ["@ + self.kind + " "@
            + self.link_text() + "] · "@ + dec(self.seen.history as nat) + " ln"@
    }
}

impl Tab {
    fn link_text(&self) -> (r: String)
        ensures
            r@ == self@.link_text(),
    {
        if self.seen.alive {
            return copy_text("●");
        }
        let how = match &self.retry {
            Some(r) => r.as_str(),
            None => "reconnecting…",
        };
        let mut queued = copy_text("");
        if self.pending > 0 {
            queued = copy_text(" · queued ");
            queued.append(decimal(self.pending as u64).as_str());
            queued.append("B");
        }
        let mut s = copy_text("○ ");
        s.append(how);
        s.append(queued.as_str());
        s
    }

    fn status_note(&self) -> (r: String)
        ensures
            r@ == self@.status_note(),
    {
        let link = self.link_text();
        let mut s = copy_text(" ");
        s.append(self.host.as_str());
        s.append(" · ");
        s.append(self.head());
        s.append(" · ");
        s.append(self.doing());
        s.append(" · [");
        s.append(self.kind.as_str());
        s.append(" ");
        s.append(link.as_str());
        s.append("] · ");
        s.append(decimal(self.seen.history as u64).as_str());
        s.append(" ln");
        s
    }
}

impl BoardView {
    /// What the status line says of the active session.
    pub open spec fn active_note(self) -> Seq<char> {
        if self.active < self.tabs.len() {
            self.tabs[self.active as int].status_note()
        } else {
            ""@
        }
    }

    /// Which sessions grew when they were last sampled.
    pub open spec fn growing_mask(self) -> Seq<bool> {
        Seq::new(self.slots.len(), |i: int| self.growing(i))
    }

    /// What the status line says of the fleet, where there is more than one session.
    pub open spec fn fleet_note(self) -> Seq<char> {
        let down = how_many(self.down_mask());
        let busy = how_many(self.growing_mask());
        if self.tabs.len() <= 1 {
            ""@
        } else if down == 0 && busy == 0 {
            "  ✓ fleet ok"@
        } else {
            (if down > 0 {
                "  "@ + dec(down) + " ⚠ down"@
            } else {
                ""@
            }) + (if busy > 0 {
                "  "@ + dec(busy) + " ⚡ busy"@
            } else {
                ""@
            })
        }
    }

    /// How far back the active view is held, in percent; never all the way.
    pub open spec fn scroll_percent(self) -> int {
        let t = self.tabs[self.active as int];
        let above = if t.offset < t.depth {
            t.offset as int
        } else {
            t.depth as int
        };
        if t.depth == 0 {
            0
        } else if above * 100 / t.depth as int > 99 {
            99
        } else {
            above * 100 / t.depth as int
        }
    }

    /// That the active view is held in the scrollback, and how far back.
    pub open spec fn scroll_note(self) -> Seq<char> {
        if self.active < self.tabs.len() && self.tabs[self.active as int].scrolled {
            "  ▾ "@ + dec(self.scroll_percent() as nat) + "% (Esc/b to bottom)"@
        } else {
            ""@
        }
    }

    /// Whether a message is still shown.
    pub open spec fn flashing(self, now: u64) -> bool {
        self.flash is Some && now < self.flash->0.at + FLASH_MS
    }

    /// With a message that has been shown long enough dropped.
    pub open spec fn flash_kept(self, now: u64) -> BoardView {
        if self.flashing(now) {
            self
        } else {
            BoardView { flash: None, ..self }
        }
    }

    /// What the status line says: the tunnel, the fleet, the active session; or a message in place
    /// of it.
    pub open spec fn status_text(self, up: bool, now: u64) -> Seq<char> {
        if self.flashing(now) {
            "  ⚑ "@ + self.flash->0.text
        } else {
            "  "@ + either(up, "● tunnel up"@, "○ tunnel down"@) + self.fleet_note() + " · "@
                + self.active_note() + self.scroll_note()
        }
    }
}

impl Board {
    fn active_note(&self) -> (r: String)
        ensures
            r@ == self@.active_note(),
    {
        let i: usize = self.active;
        if i < self.tabs.len() {
            proof {
                assert(self@.tabs[i as int] == self.tabs@[i as int]@);
            }
            self.tabs[i].status_note()
        } else {
            copy_text("")
        }
    }

    fn growing_count(&self) -> (n: usize)
        ensures
            n == how_many(self@.growing_mask()),
    {
        let ghost want = self@.growing_mask();
        let mut mask: Vec<bool> = Vec::new();
        let n: usize = self.slots.len();
        let mut i: usize = 0;
        while i < n
            invariant
                i <= n,
                n == self.slots@.len(),
                want == self@.growing_mask(),
                mask@ == want.take(i as int),
            decreases n - i,
        {
            mask.push(self.is_growing(i));
            proof {
                assert(mask@ =~= want.take(i + 1));
            }
            i = i + 1;
        }
        proof {
            assert(want.take(i as int) =~= want);
        }
        count_set(&mask)
    }

    fn fleet_note(&self) -> (r: String)
        ensures
            r@ == self@.fleet_note(),
    {
        let down: usize = self.down_count();
        let busy: usize = self.growing_count();
        if self.tabs.len() <= 1 {
            copy_text("")
        } else if down == 0 && busy == 0 {
            copy_text("  ✓ fleet ok")
        } else {
            let mut s = copy_text("");
            if down > 0 {
                s = copy_text("  ");
                s.append(decimal(down as u64).as_str());
                s.append(" ⚠ down");
            }
            let mut t = copy_text("");
            if busy > 0 {
                t = copy_text("  ");
                t.append(decimal(busy as u64).as_str());
                t.append(" ⚡ busy");
            }
            s.append(t.as_str());
            s
        }
    }

    fn scroll_note(&self) -> (r: String)
        ensures
            r@ == self@.scroll_note(),
    {
        let i: usize = self.active;
        if i < self.tabs.len() {
            proof {
                assert(self@.tabs[i as int] == self.tabs@[i as int]@);
            }
            if self.tabs[i].scrolled {
                let depth: u64 = self.tabs[i].depth as u64;
                let above: u64 = if self.tabs[i].offset < self.tabs[i].depth {
                    self.tabs[i].offset as u64
                } else {
                    depth
                };
                let far: u64 = if depth == 0 {
                    0
                } else if above * 100 / depth > 99 {
                    99
                } else {
                    above * 100 / depth
                };
                let mut s = copy_text("  ▾ ");
                s.append(decimal(far).as_str());
                s.append("% (Esc/b to bottom)");
                return s;
            }
        }
        copy_text("")
    }

    /// Drops a message that has been shown long enough.
    pub fn fade_flash(&mut self, now: u64)
        ensures
            final(self)@ == old(self)@.flash_kept(now),
            final(self)@.wf() == old(self)@.wf(),
    {
        let keep = match &self.flash {
            Some(f) => now < f.at || now - f.at < FLASH_MS,
            None => false,
        };
        if !keep {
            self.flash = None;
        }
    }

    /// What the status line says.
    pub fn status_text(&self, up: bool, now: u64) -> (r: String)
        ensures
            r@ == self@.status_text(up, now),
    {
        if let Some(f) = &self.flash {
            if now < f.at || now - f.at < FLASH_MS {
                return copy_text("  ⚑ ").concat(f.text.as_str());
            }
        }
        let fleet = self.fleet_note();
        let mine = self.active_note();
        let far = self.scroll_note();
        let mut s = copy_text("  ");
        s.append(pick_text(up, "● tunnel up", "○ tunnel down"));
        s.append(fleet.as_str());
        s.append(" · ");
        s.append(mine.as_str());
        s.append(far.as_str());
        s
    }
}

impl CopyView {
    /// What the banner of copy mode says.
    pub open spec fn banner(self) -> Seq<char> {
        if self.searching {
            " COPY SEARCH /"@ + self.query + " · Enter jump · Esc cancel "@
        } else if self.query.len() > 0 {
            " COPY MODE · h/j/k/l/w/b move "@
                + either(self.anchor is Some, "[selecting]"@, "[v=select]"@) + " · n/N search /"@
                + self.query + " · Enter copy · / search · Esc quit "@
        } else {
            " COPY MODE · h/j/k/l/w/b move "@
                + either(self.anchor is Some, "[selecting]"@, "[v=select]"@)
                + " · / search · Enter copy · Esc quit "@
        }
    }
}

impl CopyMode {
    /// What the banner of copy mode says.
    pub fn banner(&self) -> (r: String)
        ensures
            r@ == self@.banner(),
    {
        let how = pick_text(self.anchor.is_some(), "[selecting]", "[v=select]");
        if self.searching {
            let mut s = copy_text(" COPY SEARCH /");
            s.append(self.query.as_str());
            s.append(" · Enter jump · Esc cancel ");
            s
        } else if !self.query.as_str().is_empty() {
            let mut s = copy_text(" COPY MODE · h/j/k/l/w/b move ");
            s.append(how);
            s.append(" · n/N search /");
            s.append(self.query.as_str());
            s.append(" · Enter copy · / search · Esc quit ");
            s
        } else {
            let mut s = copy_text(" COPY MODE · h/j/k/l/w/b move ");
            s.append(how);
            s.append(" · / search · Enter copy · Esc quit ");
            s
        }
    }
}

/// The box around the text of the status line, from `x` on.
pub open spec fn status_box(m: Metrics, x: int, w: int, c: (u8, u8, u8)) -> StrokeView {
    let y = status_row(m);
    let top = less(y, m.font_px as int);
    StrokeView::Fill(
        x as usize,
        top as usize,
        w as usize,
        less(clamped(y + m.font_px), top) as usize,
        c,
    )
}

fn box_of_status(m: &Metrics, x: usize, w: usize, c: (u8, u8, u8)) -> (r: Stroke)
    ensures
        r@ == status_box(*m, x as int, w as int, c),
{
    let y: usize = status_base(m);
    let top: usize = y.saturating_sub(m.font_px as usize);
    Stroke::Fill(x, top, w, plus(y, m.font_px as usize).saturating_sub(top), c)
}

/// The chip that shows that the prefix was pressed.
pub open spec fn chip_strokes(
    m: Metrics,
    x: int,
    text: Seq<char>,
    w: usize,
    down: bool,
) -> Seq<StrokeView> {
    let y = status_row(m);
    if down {
        seq![
            StrokeView::Fill(
                x as usize,
                less(y, m.font_px as int) as usize,
                w,
                clamped(m.font_px + 4) as usize,
                CHROME_ACTIVE_BG,
            ),
            StrokeView::Text(text, x as usize, y as usize, WHITE),
        ]
    } else {
        Seq::empty()
    }
}

fn add_chip(out: &mut Vec<Stroke>, m: &Metrics, x: usize, text: &str, w: usize, down: bool)
    ensures
        strokes(final(out)@) == strokes(old(out)@) + chip_strokes(*m, x as int, text@, w, down),
{
    let ghost had = strokes(out@);
    if down {
        let y: usize = status_base(m);
        let top: usize = y.saturating_sub(m.font_px as usize);
        lay(out, Stroke::Fill(x, top, w, plus(m.font_px as usize, 4), CHROME_ACTIVE_BG));
        lay(out, Stroke::Text(copy_text(text), x, y, WHITE));
    }
    proof {
        assert(strokes(out@) =~= had + chip_strokes(*m, x as int, text@, w, down));
    }
}

/// The hints at the end of the status line, given how wide they are.
pub open spec fn hint_strokes(m: Metrics, w: usize) -> Seq<StrokeView> {
    let x = less(m.width as int, clamped(w + 6));
    seq![
        status_box(m, x, m.width - x, CHROME_BG),
        StrokeView::Text(HINTS@, x as usize, status_row(m) as usize, CHROME_DIM),
    ]
}

fn add_hints(out: &mut Vec<Stroke>, m: &Metrics, w: usize)
    ensures
        strokes(final(out)@) == strokes(old(out)@) + hint_strokes(*m, w),
{
    let ghost had = strokes(out@);
    let x: usize = m.width.saturating_sub(plus(w, 6));
    lay(out, box_of_status(m, x, m.width - x, CHROME_BG));
    lay(out, Stroke::Text(copy_text(HINTS), x, status_base(m), CHROME_DIM));
    proof {
        assert(strokes(out@) =~= had + hint_strokes(*m, w));
    }
}

/// The ground of a bar of height `h` at the bottom of the window.
pub open spec fn bottom_ground(m: Metrics, h: int) -> Seq<StrokeView> {
    let top = less(m.height as int, h) as usize;
    seq![
        StrokeView::Fill(0, top, m.width, h as usize, CHROME_BG),
        StrokeView::Fill(0, top, m.width, 1, CHROME_HAIR),
    ]
}

fn add_ground(out: &mut Vec<Stroke>, m: &Metrics, h: usize)
    ensures
        strokes(final(out)@) == strokes(old(out)@) + bottom_ground(*m, h as int),
{
    let ghost had = strokes(out@);
    let top: usize = m.height.saturating_sub(h);
    lay(out, Stroke::Fill(0, top, m.width, h, CHROME_BG));
    lay(out, Stroke::Fill(0, top, m.width, 1, CHROME_HAIR));
    proof {
        assert(strokes(out@) =~= had + bottom_ground(*m, h as int));
    }
}

impl ShellView {
    /// What the chip of the prefix says.
    pub open spec fn chip(self) -> Seq<char> {
        "  "@ + self.prefix.chord + " "@
    }

    /// The texts of the status line whose widths are needed: the chip and the hints.
    pub open spec fn status_texts(self) -> Seq<Seq<char>> {
        seq![self.chip(), HINTS@]
    }

    /// What the status line is painted of, given how wide the chip and the hints are.
    pub open spec fn status_panel(self, w: Seq<usize>, up: bool, now: u64) -> Seq<StrokeView> {
        let m = self.metrics;
        bottom_ground(m, m.bottom(false)).push(
            StrokeView::Text(
                self.board.status_text(up, now),
                6,
                status_row(m) as usize,
                CHROME_FG,
            ),
        ) + chip_strokes(m, 6, self.chip(), w[0], self.prefix.down) + hint_strokes(m, w[1])
    }

    /// What the banner of copy mode is painted of, given how wide its text is.
    pub open spec fn banner_panel(self, w: usize) -> Seq<StrokeView> {
        let m = self.metrics;
        seq![
            status_box(
                m,
                0,
                if w < m.width {
                    w as int
                } else {
                    m.width as int
                },
                COPY_GREEN,
            ),
            StrokeView::Text(self.copy.banner(), 6, status_row(m) as usize, BLACK),
        ]
    }
}

impl Shell {
    fn chip(&self) -> (r: String)
        ensures
            r@ == self@.chip(),
    {
        let mut s = copy_text("  ");
        s.append(self.prefix.chord.as_str());
        s.append(" ");
        s
    }

    fn status_strokes(&self, w: &Vec<usize>, up: bool, now: u64) -> (r: Vec<Stroke>)
        requires
            w@.len() == 2,
        ensures
            strokes(r@) == self@.status_panel(w@, up, now),
    {
        let m = &self.metrics;
        let mut out: Vec<Stroke> = Vec::new();
        let chip = self.chip();
        add_ground(&mut out, m, m.chrome_bottom(false));
        lay(
            &mut out,
            Stroke::Text(self.board.status_text(up, now), 6, status_base(m), CHROME_FG),
        );
        add_chip(&mut out, m, 6, chip.as_str(), w[0], self.prefix.down);
        add_hints(&mut out, m, w[1]);
        proof {
            assert(strokes(out@) =~= self@.status_panel(w@, up, now));
        }
        out
    }

    /// Drops a message that has been shown long enough. Returns what the status line is painted of,
    /// with the tunnel up or not.
    pub fn render_status<F: Face>(
        &mut self,
        cache: &mut GlyphCache<F>,
        up: bool,
        now: u64,
    ) -> (r: Vec<Stroke>)
        requires
            old(cache).wf(),
        ensures
            final(cache).extends(old(cache)),
            final(self)@ == old(self)@.on(old(self)@.board.flash_kept(now)),
            final(self)@.wf() == old(self)@.wf(),
            covers_all(final(cache)@, old(self)@.status_texts(), old(self)@.metrics.font_px),
            strokes(r@) == old(self)@.status_panel(
                widths_of(final(cache)@, old(self)@.status_texts(), old(self)@.metrics.font_px),
                up,
                now,
            ),
    {
        let mut lines: Vec<String> = Vec::new();
        lines.push(self.chip());
        lines.push(copy_text(HINTS));
        proof {
            assert(texts(lines@) =~= self@.status_texts());
        }
        let w = text_widths(cache, &lines, self.metrics.font_px);
        let out = self.status_strokes(&w, up, now);
        self.board.fade_flash(now);
        out
    }

    /// What the banner of copy mode is painted of.
    pub fn render_banner<F: Face>(&self, cache: &mut GlyphCache<F>) -> (r: Vec<Stroke>)
        requires
            old(cache).wf(),
        ensures
            final(cache).extends(old(cache)),
            covers_all(final(cache)@, seq![self@.copy.banner()], self@.metrics.font_px),
            strokes(r@) == self@.banner_panel(
                widths_of(final(cache)@, seq![self@.copy.banner()], self@.metrics.font_px)[0],
            ),
    {
        let m = &self.metrics;
        let mut lines: Vec<String> = Vec::new();
        lines.push(self.copy.banner());
        proof {
            assert(texts(lines@) =~= seq![self@.copy.banner()]);
        }
        let w = text_widths(cache, &lines, m.font_px);
        let wide: usize = if w[0] < m.width {
            w[0]
        } else {
            m.width
        };
        let mut out: Vec<Stroke> = Vec::new();
        lay(&mut out, box_of_status(m, 0, wide, COPY_GREEN));
        lay(&mut out, Stroke::Text(self.copy.banner(), 6, status_base(m), BLACK));
        proof {
            assert(strokes(out@) =~= self@.banner_panel(w@[0]));
        }
        out
    }
}

impl TabView {
    /// Whether a session is connected, in its own window; nothing for a local shell.
    pub open spec fn native_state(self) -> Seq<char> {
        if self.seen.pty {
            ""@
        } else if self.seen.alive {
            "  ● live"@
        } else if clipped(trimmed(self.reason()), 22).len() == 0 {
            "  ○ down"@
        } else {
            "  ○ down ("@ + clipped(trimmed(self.reason()), 22) + ")"@
        }
    }

    /// What a session's own window says of it.
    pub open spec fn native_note(self) -> Seq<char> {
        self.head() + "@"@ + self.host + "  "@ + self.native_state()
    }

    /// The machine of a pane, or a question mark.
    pub open spec fn host_or_unknown(self) -> Seq<char> {
        if self.host.len() == 0 {
            "?"@
        } else {
            self.host
        }
    }
}

impl Tab {
    fn native_state(&self) -> (r: String)
        ensures
            r@ == self@.native_state(),
    {
        if self.seen.pty {
            return copy_text("");
        }
        if self.seen.alive {
            return copy_text("  ● live");
        }
        let why = clip_dots(trim(self.reason()).as_str(), 22);
        if why.as_str().is_empty() {
            copy_text("  ○ down")
        } else {
            let mut s = copy_text("  ○ down (");
            s.append(why.as_str());
            s.append(")");
            s
        }
    }

    fn native_note(&self) -> (r: String)
        ensures
            r@ == self@.native_note(),
    {
        let state = self.native_state();
        let mut s = copy_text(self.head());
        s.append("@");
        s.append(self.host.as_str());
        s.append("  ");
        s.append(state.as_str());
        s
    }
}

/// The machines of the panes that are down, in order.
pub open spec fn down_hosts(tabs: Seq<TabView>) -> Seq<Seq<char>>
    decreases tabs.len(),
{
    if tabs.len() == 0 {
        Seq::empty()
    } else if tabs.last().down() {
        down_hosts(tabs.drop_last()).push(tabs.last().host_or_unknown())
    } else {
        down_hosts(tabs.drop_last())
    }
}

/// Whether a text is among those listed.
pub fn holds(v: &Vec<String>, t: &str) -> (r: bool)
    ensures
        r == listed(texts(v@), t@),
{
    let mut i: usize = 0;
    while i < v.len()
        invariant
            i <= v@.len(),
            forall|k: int| 0 <= k < i ==> #[trigger] texts(v@)[k] != t@,
        decreases v@.len() - i,
    {
        proof {
            assert(texts(v@)[i as int] == v@[i as int]@);
        }
        if same_text(v[i].as_str(), t) {
            return true;
        }
        i = i + 1;
    }
    false
}

impl BoardView {
    /// How many panes are down, and where, if they are few.
    pub open spec fn dark_text(self) -> Seq<char> {
        let n = how_many(self.down_mask());
        if n == 0 {
            ""@
        } else if n <= 2 {
            "↓"@ + dec(n) + " "@ + clipped(joined(firsts(down_hosts(self.tabs)), ", "@), 16) + " "@
        } else {
            "↓"@ + dec(n) + " "@
        }
    }

    /// What needs attention, in a session's own window.
    pub open spec fn native_triage(self, busy: Seq<bool>, now: u64) -> Seq<char> {
        self.dark_text() + note("!"@, how_many(self.others(busy))) + note(
            "⏳"@,
            self.staged(self.tabs.len() as int),
        ) + note("⌛"@, how_many(self.quiet_mask(now))) + either(self.dnd, "🔕 "@, ""@)
    }

    /// What a session's own window says of it.
    pub open spec fn window_note(self) -> Seq<char> {
        if self.active < self.tabs.len() {
            self.tabs[self.active as int].native_note()
        } else {
            "no session"@
        }
    }
}

impl Board {
    fn dark_hosts(&self) -> (r: Vec<String>)
        ensures
            texts(r@) == firsts(down_hosts(self@.tabs)),
    {
        let mut out: Vec<String> = Vec::new();
        let n: usize = self.tabs.len();
        let ghost all = self@.tabs;
        let mut i: usize = 0;
        proof {
            assert(texts(out@) =~= firsts(down_hosts(all.take(0))));
        }
        while i < n
            invariant
                i <= n,
                n == self.tabs@.len(),
                all == self@.tabs,
                texts(out@) == firsts(down_hosts(all.take(i as int))),
            decreases n - i,
        {
            let t = &self.tabs[i];
            proof {
                assert(all[i as int] == t@);
                assert(all.take(i + 1).drop_last() =~= all.take(i as int));
                assert(all.take(i + 1).last() == t@);
            }
            if t.is_down() {
                let host = pick_text(t.host.as_str().is_empty(), "?", t.host.as_str());
                let ghost before = down_hosts(all.take(i as int));
                proof {
                    assert(host@ == t@.host_or_unknown());
                    assert(before.push(host@).drop_last() =~= before);
                }
                if !holds(&out, host) {
                    let ghost had = texts(out@);
                    out.push(copy_text(host));
                    proof {
                        assert(texts(out@) =~= had.push(host@));
                    }
                }
            }
            i = i + 1;
        }
        proof {
            assert(all.take(i as int) =~= all);
        }
        out
    }

    fn dark_text(&self) -> (r: String)
        ensures
            r@ == self@.dark_text(),
    {
        let n: usize = self.down_count();
        if n == 0 {
            return copy_text("");
        }
        let mut s = copy_text("↓");
        s.append(decimal(n as u64).as_str());
        s.append(" ");
        if n <= 2 {
            let names = self.dark_hosts();
            s.append(clip_dots(join(names.as_slice(), ", ").as_str(), 16).as_str());
            s.append(" ");
        }
        s
    }

    fn native_triage(&self, busy: &Vec<bool>, now: u64) -> (r: String)
        requires
            self@.wf(),
        ensures
            r@ == self@.native_triage(busy@, now),
    {
        let mut s = self.dark_text();
        s.append(note_text("!", self.busy_others(busy) as u128).as_str());
        s.append(note_text("⏳", self.staged_bytes()).as_str());
        s.append(note_text("⌛", self.waiting_count(now) as u128).as_str());
        s.append(pick_text(self.dnd, "🔕 ", ""));
        s
    }

    fn window_note(&self) -> (r: String)
        ensures
            r@ == self@.window_note(),
    {
        let i: usize = self.active;
        if i < self.tabs.len() {
            proof {
                assert(self@.tabs[i as int] == self.tabs@[i as int]@);
            }
            self.tabs[i].native_note()
        } else {
            copy_text("no session")
        }
    }
}

impl ShellView {
    /// What the counts in a session's own window are painted of.
    pub open spec fn native_counts(self, busy: Seq<bool>, now: u64) -> Seq<StrokeView> {
        let m = self.metrics;
        let text = self.board.native_triage(busy, now);
        let x = less(m.width as int, clamped(clamped(text.len() * m.cell_w) + 10));
        if text.len() == 0 {
            Seq::empty()
        } else {
            seq![
                status_box(m, x, m.width - x, CHROME_BG),
                StrokeView::Text(
                    text,
                    x as usize,
                    status_row(m) as usize,
                    if how_many(self.board.down_mask()) > 0 {
                        CHROME_ERR
                    } else {
                        CHROME_DIM
                    },
                ),
            ]
        }
    }

    /// What the bar of a session's own window is painted of, given how wide the chip is.
    pub open spec fn native_panel(self, w: usize, busy: Seq<bool>, now: u64) -> Seq<StrokeView> {
        let m = self.metrics;
        bottom_ground(m, m.cell_h as int).push(
            StrokeView::Text(self.board.window_note(), 6, status_row(m) as usize, CHROME_FG),
        ) + self.native_counts(busy, now) + chip_strokes(m, 64, self.chip(), w, self.prefix.down)
    }
}

impl Shell {
    fn add_native_counts(&self, out: &mut Vec<Stroke>, busy: &Vec<bool>, now: u64)
        requires
            self@.wf(),
        ensures
            strokes(final(out)@) == strokes(old(out)@) + self@.native_counts(busy@, now),
    {
        let ghost had = strokes(out@);
        let m = &self.metrics;
        let text = self.board.native_triage(busy, now);
        let n: usize = chars_of(text.as_str()).len();
        if n > 0 {
            let color = if self.board.down_count() > 0 {
                CHROME_ERR
            } else {
                CHROME_DIM
            };
            let x: usize = m.width.saturating_sub(plus(times(n, m.cell_w), 10));
            lay(out, box_of_status(m, x, m.width - x, CHROME_BG));
            lay(out, Stroke::Text(text, x, status_base(m), color));
        }
        proof {
            assert(strokes(out@) =~= had + self@.native_counts(busy@, now));
        }
    }

    /// What the bar of a session's own window is painted of. `busy` says which sessions printed
    /// something.
    pub fn draw_native_status<F: Face>(
        &self,
        cache: &mut GlyphCache<F>,
        busy: &Vec<bool>,
        now: u64,
    ) -> (r: Vec<Stroke>)
        requires
            self@.wf(),
            old(cache).wf(),
        ensures
            final(cache).extends(old(cache)),
            covers_all(final(cache)@, seq![self@.chip()], self@.metrics.font_px),
            strokes(r@) == self@.native_panel(
                widths_of(final(cache)@, seq![self@.chip()], self@.metrics.font_px)[0],
                busy@,
                now,
            ),
    {
        let m = &self.metrics;
        let mut lines: Vec<String> = Vec::new();
        lines.push(self.chip());
        proof {
            assert(texts(lines@) =~= seq![self@.chip()]);
        }
        let w = text_widths(cache, &lines, m.font_px);
        let mut out: Vec<Stroke> = Vec::new();
        add_ground(&mut out, m, m.cell_h);
        lay(&mut out, Stroke::Text(self.board.window_note(), 6, status_base(m), CHROME_FG));
        self.add_native_counts(&mut out, busy, now);
        add_chip(&mut out, m, 64, lines[0].as_str(), w[0], self.prefix.down);
        proof {
            assert(strokes(out@) =~= self@.native_panel(w@[0], busy@, now));
        }
        out
    }
}

} // verus!
