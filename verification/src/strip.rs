//! The bar of tabs at the top of the window.

use vstd::prelude::*;
use vstd::string::*;

use crate::activity::quiet_flags;
use crate::board::{Board, BoardView};
use crate::color::Accent;
use crate::geometry::{less, plus, times, Metrics};
use crate::glyph::{keeps, lemma_extends, Face, GlyphCache};
use crate::lettering::{
    clamped, covers, covers_all, lemma_width_stays, lemma_widths_stay, text_width, text_widths,
    width_of, widths_of,
};
use crate::mouse::{pixel, pixel_of};
use crate::overview::{cap, capped, tally, tally_text};
use crate::paint::{Bitmap, Rgb};
use crate::rosters::{count_set, either, how_many, pick_text};
use crate::shell::{PointerView, Shell, ShellView};
use crate::strokes::{lay, strokes, Stroke, StrokeView};
use crate::tabs::{on_one_line, one_line, wide_decimal, Tab};
use crate::text::{chars_of, copy_text, dec, decimal, texts};
use crate::triage::{
    accent_of, engine_accent, host_color, host_hue, Engine, CHROME_ACTIVE_BG, CHROME_BG, CHROME_DIM,
    CHROME_ERR, CHROME_FG, CHROME_HAIR, CHROME_HOVER, CHROME_SHEET_HI, WHITE,
};
use crate::words::{clip_dots, clipped};

verus! {

/// The glyph that turns while a session prints.
pub open spec fn spinner(busy: bool, frame: u64) -> Seq<char> {
    if !busy {
        ""@
    } else if frame / 2 % 4 == 0 {
        "◐"@
    } else if frame / 2 % 4 == 1 {
        "◓"@
    } else if frame / 2 % 4 == 2 {
        "◑"@
    } else {
        "◒"@
    }
}

fn spinner_text(busy: bool, frame: u64) -> (r: &'static str)
    ensures
        r@ == spinner(busy, frame),
{
    if !busy {
        ""
    } else if frame / 2 % 4 == 0 {
        "◐"
    } else if frame / 2 % 4 == 1 {
        "◓"
    } else if frame / 2 % 4 == 2 {
        "◑"
    } else {
        "◒"
    }
}

impl BoardView {
    /// Whether a tab rang not long ago.
    pub open spec fn ringing(self, i: int) -> bool {
        0 <= i < self.slots.len() && self.slots[i].bell_until is Some
    }

    /// What stands on a tab before the machine.
    pub open spec fn tab_front(self, i: int, busy: bool, frame: u64) -> Seq<char> {
        let t = self.tabs[i];
        " "@ + either(t.down(), "↓"@, ""@) + either(self.ringing(i), "🔔 "@, ""@)
            + either(self.recovering(i), "↻ "@, ""@) + tally("!"@, capped(self.unread(i)))
            + spinner(busy, frame) + either(self.pinned(i), "🔒"@, " "@) + t.head() + " "@
            + clipped(one_line(t.doing()), 18) + either(self.muted(i), " M "@, " "@)
    }

    /// What stands on a tab behind the machine.
    pub open spec fn tab_back(self, i: int) -> Seq<char> {
        tally("⏳"@, self.tabs[i].pending as int) + either(i == self.active, "● "@, "○ "@)
    }

    pub open spec fn tab_fronts(self, busy: Seq<bool>, frame: u64) -> Seq<Seq<char>> {
        Seq::new(
            self.tabs.len(),
            |i: int| self.tab_front(i, i < busy.len() && busy[i], frame),
        )
    }

    pub open spec fn tab_hosts(self) -> Seq<Seq<char>> {
        Seq::new(self.tabs.len(), |i: int| self.tabs[i].whereabouts())
    }

    pub open spec fn tab_backs(self) -> Seq<Seq<char>> {
        Seq::new(self.tabs.len(), |i: int| self.tab_back(i))
    }
}

impl Board {
    fn is_ringing(&self, i: usize) -> (r: bool)
        ensures
            r == self@.ringing(i as int),
    {
        i < self.slots.len() && self.slots[i].bell_until.is_some()
    }

    fn tab_front(&self, i: usize, busy: bool, frame: u64) -> (r: String)
        requires
            i < self@.tabs.len(),
        ensures
            r@ == self@.tab_front(i as int, busy, frame),
    {
        let t = &self.tabs[i];
        proof {
            assert(self@.tabs[i as int] == t@);
        }
        let news = tally_text("!", cap(self.unread_of(i)));
        let spin = spinner_text(busy, frame);
        let live = clip_dots(on_one_line(t.doing()).as_str(), 18);
        let mut s = copy_text(" ");
        s.append(pick_text(t.is_down(), "↓", ""));
        s.append(pick_text(self.is_ringing(i), "🔔 ", ""));
        s.append(pick_text(self.is_recovering(i), "↻ ", ""));
        s.append(news.as_str());
        s.append(spin);
        s.append(pick_text(self.is_pinned(i), "🔒", " "));
        s.append(t.head());
        s.append(" ");
        s.append(live.as_str());
        s.append(pick_text(self.is_muted(i), " M ", " "));
        s
    }

    fn tab_back(&self, i: usize) -> (r: String)
        requires
            i < self@.tabs.len(),
        ensures
            r@ == self@.tab_back(i as int),
    {
        proof {
            assert(self@.tabs[i as int] == self.tabs@[i as int]@);
        }
        let mut s = tally_text("⏳", self.tabs[i].pending);
        s.append(pick_text(i == self.active, "● ", "○ "));
        s
    }

    fn tab_fronts(&self, busy: &Vec<bool>, frame: u64) -> (r: Vec<String>)
        ensures
            texts(r@) == self@.tab_fronts(busy@, frame),
    {
        let ghost want = self@.tab_fronts(busy@, frame);
        let n: usize = self.tabs.len();
        let mut out: Vec<String> = Vec::new();
        let mut i: usize = 0;
        while i < n
            invariant
                i <= n,
                n == self.tabs@.len(),
                want == self@.tab_fronts(busy@, frame),
                texts(out@) == want.take(i as int),
            decreases n - i,
        {
            proof {
                assert(self@.tabs[i as int] == self.tabs@[i as int]@);
            }
            let t = self.tab_front(i, i < busy.len() && busy[i], frame);
            let ghost had = texts(out@);
            let ghost line = t@;
            out.push(t);
            proof {
                assert(texts(out@) =~= had.push(line));
                assert(want.take(i + 1) =~= had.push(line));
            }
            i = i + 1;
        }
        proof {
            assert(want.take(i as int) =~= want);
        }
        out
    }

    fn tab_hosts(&self) -> (r: Vec<String>)
        ensures
            texts(r@) == self@.tab_hosts(),
    {
        let ghost want = self@.tab_hosts();
        let n: usize = self.tabs.len();
        let mut out: Vec<String> = Vec::new();
        let mut i: usize = 0;
        while i < n
            invariant
                i <= n,
                n == self.tabs@.len(),
                want == self@.tab_hosts(),
                texts(out@) == want.take(i as int),
            decreases n - i,
        {
            proof {
                assert(self@.tabs[i as int] == self.tabs@[i as int]@);
            }
            let t = self.tabs[i].whereabouts();
            let ghost had = texts(out@);
            let ghost line = t@;
            out.push(t);
            proof {
                assert(texts(out@) =~= had.push(line));
                assert(want.take(i + 1) =~= had.push(line));
            }
            i = i + 1;
        }
        proof {
            assert(want.take(i as int) =~= want);
        }
        out
    }

    fn tab_backs(&self) -> (r: Vec<String>)
        ensures
            texts(r@) == self@.tab_backs(),
    {
        let ghost want = self@.tab_backs();
        let n: usize = self.tabs.len();
        let mut out: Vec<String> = Vec::new();
        let mut i: usize = 0;
        while i < n
            invariant
                i <= n,
                n == self.tabs@.len(),
                want == self@.tab_backs(),
                texts(out@) == want.take(i as int),
            decreases n - i,
        {
            proof {
                assert(self@.tabs[i as int] == self.tabs@[i as int]@);
            }
            let t = self.tab_back(i);
            let ghost had = texts(out@);
            let ghost line = t@;
            out.push(t);
            proof {
                assert(texts(out@) =~= had.push(line));
                assert(want.take(i + 1) =~= had.push(line));
            }
            i = i + 1;
        }
        proof {
            assert(want.take(i as int) =~= want);
        }
        out
    }
}

/// The bar as it is to be painted: the texts on each tab and their colors.
pub struct Strip {
    pub fronts: Vec<String>,
    pub hosts: Vec<String>,
    pub backs: Vec<String>,
    /// The color of each tab's text.
    pub colors: Vec<Rgb>,
    /// The color of each tab's machine.
    pub hues: Vec<Rgb>,
    /// How wide each text is.
    pub front_w: Vec<usize>,
    pub host_w: Vec<usize>,
    pub back_w: Vec<usize>,
    /// How wide the closing mark is.
    pub cross: usize,
}

/// The bar as plain data.
#[verifier::ext_equal]
pub struct StripView {
    pub fronts: Seq<Seq<char>>,
    pub hosts: Seq<Seq<char>>,
    pub backs: Seq<Seq<char>>,
    pub colors: Seq<Rgb>,
    pub hues: Seq<Rgb>,
    pub front_w: Seq<usize>,
    pub host_w: Seq<usize>,
    pub back_w: Seq<usize>,
    pub cross: usize,
}

impl View for Strip {
    type V = StripView;

    open spec fn view(&self) -> StripView {
        StripView {
            fronts: texts(self.fronts@),
            hosts: texts(self.hosts@),
            backs: texts(self.backs@),
            colors: self.colors@,
            hues: self.hues@,
            front_w: self.front_w@,
            host_w: self.host_w@,
            back_w: self.back_w@,
            cross: self.cross,
        }
    }
}

impl StripView {
    /// There is one of each for every tab.
    pub open spec fn wf(self, n: int) -> bool {
        &&& self.fronts.len() == n
        &&& self.hosts.len() == n
        &&& self.backs.len() == n
        &&& self.colors.len() == n
        &&& self.hues.len() == n
        &&& self.front_w.len() == n
        &&& self.host_w.len() == n
        &&& self.back_w.len() == n
    }

    /// How wide a tab's label is.
    pub open spec fn label_w(self, i: int) -> int {
        clamped(clamped(self.front_w[i] + self.host_w[i]) + self.back_w[i])
    }
}

impl Metrics {
    /// The row that the text of the bar stands on.
    pub open spec fn strip_row(self, hidden: bool) -> int {
        self.top(hidden) / 2
    }

    /// How high the tabs are, which start a little below the window's edge.
    pub open spec fn sheet_h(self, hidden: bool) -> int {
        less(self.top(hidden), 3)
    }
}

/// What lies behind a tab: a raised sheet for the active one, with its edges; a chip for the one
/// under the pointer.
pub open spec fn tab_sheet(
    m: Metrics,
    x: int,
    w: int,
    active: bool,
    hover: bool,
    color: Rgb,
) -> Seq<StrokeView> {
    if active {
        seq![
            StrokeView::Tab(
                x as usize,
                3,
                w as usize,
                m.sheet_h(false) as usize,
                7,
                CHROME_ACTIVE_BG,
            ),
            StrokeView::Fill(x as usize, 3, w as usize, 1, CHROME_SHEET_HI),
            StrokeView::Fill(x as usize, less(m.top(false), 2) as usize, w as usize, 2, color),
        ]
    } else if hover {
        seq![
            StrokeView::Tab(
                x as usize,
                3,
                w as usize,
                m.sheet_h(false) as usize,
                7,
                CHROME_HOVER,
            ),
        ]
    } else {
        Seq::empty()
    }
}

/// The text on a tab: in one color, but for the machine of a tab that is not active.
pub open spec fn tab_text(
    m: Metrics,
    s: StripView,
    i: int,
    x: int,
    active: bool,
) -> Seq<StrokeView> {
    let y = m.strip_row(false) as usize;
    if !active && s.hosts[i].len() > 0 {
        let x1 = clamped(x + s.front_w[i]);
        seq![
            StrokeView::Text(s.fronts[i], x as usize, y, s.colors[i]),
            StrokeView::Text(s.hosts[i], x1 as usize, y, s.hues[i]),
            StrokeView::Text(s.backs[i], clamped(x1 + s.host_w[i]) as usize, y, s.colors[i]),
        ]
    } else {
        seq![StrokeView::Text(s.fronts[i] + s.hosts[i] + s.backs[i], x as usize, y, s.colors[i])]
    }
}

/// The closing mark of the tab under the pointer.
pub open spec fn tab_cross(
    m: Metrics,
    s: StripView,
    end: int,
    active: bool,
    hover: bool,
) -> Seq<StrokeView> {
    if hover {
        seq![
            StrokeView::Text(
                "×"@,
                less(less(end, s.cross as int), 2) as usize,
                m.strip_row(false) as usize,
                if active {
                    CHROME_DIM
                } else {
                    CHROME_FG
                },
            ),
        ]
    } else {
        Seq::empty()
    }
}

/// How many tabs did not fit the bar.
pub open spec fn tab_rest(m: Metrics, hidden: int) -> Seq<StrokeView> {
    if hidden > 0 {
        seq![
            StrokeView::Text(
                "⋯ +"@ + dec(hidden as nat),
                less(m.width as int, 58) as usize,
                m.strip_row(false) as usize,
                CHROME_DIM,
            ),
        ]
    } else {
        Seq::empty()
    }
}

/// What one tab at `x` is painted of.
pub open spec fn tab_strokes(
    m: Metrics,
    s: StripView,
    i: int,
    x: int,
    active: bool,
    hover: bool,
) -> Seq<StrokeView> {
    let w = s.label_w(i);
    tab_sheet(m, x, w, active, hover, s.colors[i]) + tab_text(m, s, i, x, active) + tab_cross(
        m,
        s,
        clamped(clamped(x + w) + 12),
        active,
        hover,
    )
}

/// What the tabs from number `i` on, which starts at `x`, are painted of, and where each was
/// painted; none behind the first that reaches the window's end.
pub open spec fn tabs_from(
    m: Metrics,
    s: StripView,
    active: usize,
    hover: Option<usize>,
    i: int,
    x: int,
) -> (Seq<StrokeView>, Seq<(usize, usize)>)
    decreases s.fronts.len() - i,
{
    if i < 0 || i >= s.fronts.len() {
        (Seq::empty(), Seq::empty())
    } else {
        let end = clamped(clamped(x + s.label_w(i)) + 12);
        let mine = tab_strokes(m, s, i, x, i == active, hover == Some(i as usize));
        let rect = seq![(x as usize, end as usize)];
        if end > less(m.width as int, 20) {
            (mine + tab_rest(m, s.fronts.len() - i - 1), rect)
        } else {
            let rest = tabs_from(m, s, active, hover, i + 1, end);
            (mine + rest.0, rect + rest.1)
        }
    }
}

impl Strip {
    fn label_w(&self, i: usize) -> (w: usize)
        requires
            self@.wf(self@.fronts.len() as int),
            i < self@.fronts.len(),
        ensures
            w == self@.label_w(i as int),
    {
        plus(plus(self.front_w[i], self.host_w[i]), self.back_w[i])
    }

    fn add_sheet(
        &self,
        out: &mut Vec<Stroke>,
        m: &Metrics,
        x: usize,
        w: usize,
        active: bool,
        hover: bool,
        color: Rgb,
    )
        ensures
            strokes(final(out)@) == strokes(old(out)@) + tab_sheet(
                *m,
                x as int,
                w as int,
                active,
                hover,
                color,
            ),
    {
        let ghost had = strokes(out@);
        let top: usize = m.chrome_top(false);
        let sheet: usize = if top < 3 {
            0
        } else {
            top - 3
        };
        let low: usize = if top < 2 {
            0
        } else {
            top - 2
        };
        if active {
            lay(out, Stroke::Tab(x, 3, w, sheet, 7, CHROME_ACTIVE_BG));
            lay(out, Stroke::Fill(x, 3, w, 1, CHROME_SHEET_HI));
            lay(out, Stroke::Fill(x, low, w, 2, color));
        } else if hover {
            lay(out, Stroke::Tab(x, 3, w, sheet, 7, CHROME_HOVER));
        }
        proof {
            assert(strokes(out@) =~= had + tab_sheet(
                *m,
                x as int,
                w as int,
                active,
                hover,
                color,
            ));
        }
    }

    fn add_text(&self, out: &mut Vec<Stroke>, m: &Metrics, i: usize, x: usize, active: bool)
        requires
            self@.wf(self@.fronts.len() as int),
            i < self@.fronts.len(),
        ensures
            strokes(final(out)@) == strokes(old(out)@) + tab_text(
                *m,
                self@,
                i as int,
                x as int,
                active,
            ),
    {
        let ghost had = strokes(out@);
        let y: usize = m.chrome_top(false) / 2;
        let front = self.fronts[i].as_str();
        let host = self.hosts[i].as_str();
        let back = self.backs[i].as_str();
        proof {
            assert(self@.fronts[i as int] == front@);
            assert(self@.hosts[i as int] == host@);
            assert(self@.backs[i as int] == back@);
        }
        if !active && !host.is_empty() {
            let x1: usize = plus(x, self.front_w[i]);
            lay(out, Stroke::Text(copy_text(front), x, y, self.colors[i]));
            lay(out, Stroke::Text(copy_text(host), x1, y, self.hues[i]));
            lay(out, Stroke::Text(copy_text(back), plus(x1, self.host_w[i]), y, self.colors[i]));
        } else {
            let mut s = copy_text(front);
            s.append(host);
            s.append(back);
            lay(out, Stroke::Text(s, x, y, self.colors[i]));
        }
        proof {
            assert(strokes(out@) =~= had + tab_text(*m, self@, i as int, x as int, active));
        }
    }

    fn add_cross(&self, out: &mut Vec<Stroke>, m: &Metrics, end: usize, active: bool, hover: bool)
        ensures
            strokes(final(out)@) == strokes(old(out)@) + tab_cross(
                *m,
                self@,
                end as int,
                active,
                hover,
            ),
    {
        let ghost had = strokes(out@);
        if hover {
            let color = if active {
                CHROME_DIM
            } else {
                CHROME_FG
            };
            let at: usize = end.saturating_sub(self.cross).saturating_sub(2);
            lay(out, Stroke::Text(copy_text("×"), at, m.chrome_top(false) / 2, color));
        }
        proof {
            assert(strokes(out@) =~= had + tab_cross(*m, self@, end as int, active, hover));
        }
    }

    fn add_rest(&self, out: &mut Vec<Stroke>, m: &Metrics, hidden: usize)
        ensures
            strokes(final(out)@) == strokes(old(out)@) + tab_rest(*m, hidden as int),
    {
        let ghost had = strokes(out@);
        if hidden > 0 {
            let s = copy_text("⋯ +").concat(decimal(hidden as u64).as_str());
            lay(
                out,
                Stroke::Text(s, m.width.saturating_sub(58), m.chrome_top(false) / 2, CHROME_DIM),
            );
        }
        proof {
            assert(strokes(out@) =~= had + tab_rest(*m, hidden as int));
        }
    }

    fn add_tab(
        &self,
        out: &mut Vec<Stroke>,
        m: &Metrics,
        i: usize,
        x: usize,
        active: bool,
        hover: bool,
    ) -> (end: usize)
        requires
            self@.wf(self@.fronts.len() as int),
            i < self@.fronts.len(),
        ensures
            end == clamped(clamped(x + self@.label_w(i as int)) + 12),
            strokes(final(out)@) == strokes(old(out)@) + tab_strokes(
                *m,
                self@,
                i as int,
                x as int,
                active,
                hover,
            ),
    {
        let ghost had = strokes(out@);
        let w: usize = self.label_w(i);
        let end: usize = plus(plus(x, w), 12);
        self.add_sheet(out, m, x, w, active, hover, self.colors[i]);
        self.add_text(out, m, i, x, active);
        self.add_cross(out, m, end, active, hover);
        proof {
            assert(strokes(out@) =~= had + tab_strokes(
                *m,
                self@,
                i as int,
                x as int,
                active,
                hover,
            ));
        }
        end
    }

    /// Lays out the tabs. Returns what they are painted of, and where each was painted.
    fn lay_out(&self, m: &Metrics, active: usize, hover: Option<usize>) -> (r: (
        Vec<Stroke>,
        Vec<(usize, usize)>,
    ))
        requires
            self@.wf(self@.fronts.len() as int),
        ensures
            (strokes(r.0@), r.1@) == tabs_from(*m, self@, active, hover, 0, 6),
    {
        let n: usize = self.fronts.len();
        let mut out: Vec<Stroke> = Vec::new();
        let mut rects: Vec<(usize, usize)> = Vec::new();
        let mut x: usize = 6;
        let mut i: usize = 0;
        let end: usize = m.width.saturating_sub(20);
        let ghost all = tabs_from(*m, self@, active, hover, 0, 6);
        proof {
            assert(all.0 =~= strokes(out@) + all.0);
            assert(all.1 =~= rects@ + all.1);
        }
        while i < n
            invariant
                i <= n,
                n == self.fronts@.len(),
                self@.wf(n as int),
                end == less(m.width as int, 20),
                all == tabs_from(*m, self@, active, hover, 0, 6),
                all.0 == strokes(out@) + tabs_from(
                    *m,
                    self@,
                    active,
                    hover,
                    i as int,
                    x as int,
                ).0,
                all.1 == rects@ + tabs_from(*m, self@, active, hover, i as int, x as int).1,
            decreases n - i,
        {
            let ghost had = strokes(out@);
            let ghost were = rects@;
            let ghost rest = tabs_from(*m, self@, active, hover, i as int, x as int);
            let over = match hover {
                Some(h) => h == i,
                None => false,
            };
            let next: usize = self.add_tab(&mut out, m, i, x, i == active, over);
            rects.push((x, next));
            if next > end {
                self.add_rest(&mut out, m, n - i - 1);
                proof {
                    assert(strokes(out@) =~= had + rest.0);
                    assert(rects@ =~= were + rest.1);
                }
                return (out, rects);
            }
            proof {
                let after = tabs_from(*m, self@, active, hover, i + 1, next as int);
                assert(strokes(out@) + after.0 =~= had + rest.0);
                assert(rects@ + after.1 =~= were + rest.1);
            }
            x = next;
            i = i + 1;
        }
        proof {
            assert(strokes(out@) =~= all.0);
            assert(rects@ =~= all.1);
        }
        (out, rects)
    }
}

impl BoardView {
    /// The colors of the tabs' texts: that of its machine for the active one, else that of its
    /// engine.
    pub open spec fn tab_colors(self, accents: Seq<Accent>, engines: Seq<Engine>) -> Seq<Rgb> {
        Seq::new(
            self.tabs.len(),
            |i: int|
                if i == self.active {
                    host_hue(self.tabs[i].host)
                } else {
                    accent_of(self.tabs[i].engine, accents, engines)
                },
        )
    }

    pub open spec fn tab_hues(self) -> Seq<Rgb> {
        Seq::new(self.tabs.len(), |i: int| host_hue(self.tabs[i].host))
    }

    /// The bar as it is to be painted, given the glyphs there are.
    pub open spec fn strip(
        self,
        m: Map<u64, Bitmap>,
        px: u32,
        busy: Seq<bool>,
        frame: u64,
        accents: Seq<Accent>,
        engines: Seq<Engine>,
    ) -> StripView {
        StripView {
            fronts: self.tab_fronts(busy, frame),
            hosts: self.tab_hosts(),
            backs: self.tab_backs(),
            colors: self.tab_colors(accents, engines),
            hues: self.tab_hues(),
            front_w: widths_of(m, self.tab_fronts(busy, frame), px),
            host_w: widths_of(m, self.tab_hosts(), px),
            back_w: widths_of(m, self.tab_backs(), px),
            cross: clamped(width_of(m, "×"@, px) as int) as usize,
        }
    }

    /// Whether the glyphs of the bar are there.
    pub open spec fn strip_inked(
        self,
        m: Map<u64, Bitmap>,
        px: u32,
        busy: Seq<bool>,
        frame: u64,
    ) -> bool {
        &&& covers_all(m, self.tab_fronts(busy, frame), px)
        &&& covers_all(m, self.tab_hosts(), px)
        &&& covers_all(m, self.tab_backs(), px)
        &&& covers(m, "×"@, px)
    }

    /// How many bytes wait to be sent to the first `n` tabs.
    pub open spec fn staged(self, n: int) -> nat
        decreases n,
    {
        if n <= 0 {
            0
        } else {
            self.staged(n - 1) + self.tabs[n - 1].pending
        }
    }

    /// Which sessions print something, but for the one that is looked at.
    pub open spec fn others(self, busy: Seq<bool>) -> Seq<bool> {
        Seq::new(busy.len(), |i: int| busy[i] && i != self.active)
    }

    /// What needs attention: panes down, just back, busy, with bytes to be sent, waiting; and
    /// whether nothing is announced.
    pub open spec fn triage_text(self, busy: Seq<bool>, now: u64) -> Seq<char> {
        note("↓"@, how_many(self.down_mask())) + note("↻"@, how_many(self.recovery_mask())) + note(
            "!"@,
            how_many(self.others(busy)),
        ) + note("⏳"@, self.staged(self.tabs.len() as int)) + note(
            "⌛"@,
            how_many(self.quiet_mask(now)),
        ) + either(self.dnd, "🔕 "@, ""@)
    }
}

/// What more glyphs in the cache change of a bar whose own are all there: nothing.
pub proof fn lemma_strip_stays(
    b: BoardView,
    m: Map<u64, Bitmap>,
    n: Map<u64, Bitmap>,
    px: u32,
    busy: Seq<bool>,
    frame: u64,
    accents: Seq<Accent>,
    engines: Seq<Engine>,
)
    requires
        b.strip_inked(m, px, busy, frame),
        keeps(m, n),
    ensures
        b.strip_inked(n, px, busy, frame),
        b.strip(m, px, busy, frame, accents, engines) == b.strip(
            n,
            px,
            busy,
            frame,
            accents,
            engines,
        ),
{
    lemma_widths_stay(m, n, b.tab_fronts(busy, frame), px);
    lemma_widths_stay(m, n, b.tab_hosts(), px);
    lemma_widths_stay(m, n, b.tab_backs(), px);
    lemma_width_stays(m, n, "×"@, px);
}

/// `n` behind a mark and before a space, where there is something to count.
pub open spec fn note(mark: Seq<char>, n: nat) -> Seq<char> {
    if n > 0 {
        mark + dec(n) + " "@
    } else {
        ""@
    }
}

/// `n` behind a mark and before a space, where there is something to count.
pub fn note_text(mark: &str, n: u128) -> (r: String)
    ensures
        r@ == note(mark@, n as nat),
{
    if n > 0 {
        let mut s = copy_text(mark);
        s.append(wide_decimal(n).as_str());
        s.append(" ");
        s
    } else {
        copy_text("")
    }
}

impl Board {
    fn tab_colors(&self, accents: &Vec<Accent>, engines: &Vec<Engine>) -> (r: (Vec<Rgb>, Vec<Rgb>))
        ensures
            r.0@ == self@.tab_colors(accents@, engines@),
            r.1@ == self@.tab_hues(),
    {
        let ghost want = self@.tab_colors(accents@, engines@);
        let ghost hues = self@.tab_hues();
        let mut a: Vec<Rgb> = Vec::new();
        let mut b: Vec<Rgb> = Vec::new();
        let n: usize = self.tabs.len();
        let mut i: usize = 0;
        while i < n
            invariant
                i <= n,
                n == self.tabs@.len(),
                want == self@.tab_colors(accents@, engines@),
                hues == self@.tab_hues(),
                a@ == want.take(i as int),
                b@ == hues.take(i as int),
            decreases n - i,
        {
            proof {
                assert(self@.tabs[i as int] == self.tabs@[i as int]@);
            }
            let hue = host_color(self.tabs[i].host.as_str());
            let color = if i == self.active {
                hue
            } else {
                engine_accent(self.tabs[i].engine.as_str(), accents, engines)
            };
            a.push(color);
            b.push(hue);
            proof {
                assert(a@ =~= want.take(i + 1));
                assert(b@ =~= hues.take(i + 1));
            }
            i = i + 1;
        }
        proof {
            assert(want.take(i as int) =~= want);
            assert(hues.take(i as int) =~= hues);
        }
        (a, b)
    }

    /// Measures the bar.
    fn measure<F: Face>(
        &self,
        cache: &mut GlyphCache<F>,
        px: u32,
        busy: &Vec<bool>,
        frame: u64,
        accents: &Vec<Accent>,
        engines: &Vec<Engine>,
    ) -> (r: Strip)
        requires
            old(cache).wf(),
        ensures
            final(cache).extends(old(cache)),
            self@.strip_inked(final(cache)@, px, busy@, frame),
            r@ == self@.strip(final(cache)@, px, busy@, frame, accents@, engines@),
            r@.wf(self@.tabs.len() as int),
    {
        let fronts = self.tab_fronts(busy, frame);
        let hosts = self.tab_hosts();
        let backs = self.tab_backs();
        let (colors, hues) = self.tab_colors(accents, engines);
        let ghost c0 = *cache;
        let front_w = text_widths(cache, &fronts, px);
        let ghost c1 = *cache;
        let host_w = text_widths(cache, &hosts, px);
        let ghost c2 = *cache;
        let back_w = text_widths(cache, &backs, px);
        let ghost c3 = *cache;
        let cross: usize = text_width(cache, "×", px);
        proof {
            lemma_extends(c0, c1, c2);
            lemma_extends(c0, c2, c3);
            lemma_extends(c0, c3, *cache);
            lemma_extends(c1, c2, c3);
            lemma_extends(c1, c3, *cache);
            lemma_extends(c2, c3, *cache);
            lemma_widths_stay(c1@, cache@, texts(fronts@), px);
            lemma_widths_stay(c2@, cache@, texts(hosts@), px);
            lemma_widths_stay(c3@, cache@, texts(backs@), px);
        }
        Strip { fronts, hosts, backs, colors, hues, front_w, host_w, back_w, cross }
    }

    /// How many bytes wait to be sent.
    pub fn staged_bytes(&self) -> (r: u128)
        ensures
            r == self@.staged(self@.tabs.len() as int),
    {
        let n: usize = self.tabs.len();
        let mut sum: u128 = 0;
        let mut i: usize = 0;
        while i < n
            invariant
                i <= n,
                n == self.tabs@.len(),
                sum == self@.staged(i as int),
                sum <= i * usize::MAX,
            decreases n - i,
        {
            proof {
                assert(self@.tabs[i as int] == self.tabs@[i as int]@);
                assert(i * usize::MAX + usize::MAX == (i + 1) * usize::MAX) by (nonlinear_arith);
                assert((i + 1) * usize::MAX <= usize::MAX * usize::MAX) by (nonlinear_arith)
                    requires
                        i + 1 <= usize::MAX,
                ;
                assert(usize::MAX * usize::MAX <= u128::MAX) by (nonlinear_arith)
                    requires
                        usize::MAX <= u64::MAX,
                ;
            }
            sum = sum + self.tabs[i].pending as u128;
            i = i + 1;
        }
        sum
    }

    /// How many sessions print something, but for the one that is looked at.
    pub fn busy_others(&self, busy: &Vec<bool>) -> (n: usize)
        ensures
            n == how_many(self@.others(busy@)),
    {
        let ghost want = self@.others(busy@);
        let mut mask: Vec<bool> = Vec::new();
        let mut i: usize = 0;
        while i < busy.len()
            invariant
                i <= busy@.len(),
                want == self@.others(busy@),
                mask@ == want.take(i as int),
            decreases busy@.len() - i,
        {
            mask.push(busy[i] && i != self.active);
            proof {
                assert(mask@ =~= want.take(i + 1));
            }
            i = i + 1;
        }
        proof {
            assert(want.take(i as int) =~= want);
        }
        count_set(&mask)
    }

    /// How many sessions wait for the user.
    pub fn waiting_count(&self, now: u64) -> (n: usize)
        requires
            self@.wf(),
        ensures
            n == how_many(self@.quiet_mask(now)),
    {
        let seen = self.observed();
        quiet_flags(&self.slots, &seen, self.active, now, self.quiet_after).0
    }

    fn triage_text(&self, busy: &Vec<bool>, now: u64) -> (r: String)
        requires
            self@.wf(),
        ensures
            r@ == self@.triage_text(busy@, now),
    {
        let mut s = note_text("↓", self.down_count() as u128);
        s.append(note_text("↻", self.recovery_count() as u128).as_str());
        s.append(note_text("!", self.busy_others(busy) as u128).as_str());
        s.append(note_text("⏳", self.staged_bytes()).as_str());
        s.append(note_text("⌛", self.waiting_count(now) as u128).as_str());
        s.append(pick_text(self.dnd, "🔕 ", ""));
        s
    }
}

/// Where the button for a new tab is.
pub open spec fn new_tab_x(m: Metrics) -> int {
    less(m.width as int, 24)
}

impl ShellView {
    /// Whether the pointer is on the button for a new tab.
    pub open spec fn on_new_tab(self) -> bool {
        let (x, at) = (new_tab_x(self.metrics), pixel(self.mouse.x));
        self.mouse.y < self.metrics.top(false) && x <= at < x + 18
    }

    /// What the counts at the end of the bar are painted of.
    pub open spec fn triage_strokes(self, busy: Seq<bool>, now: u64) -> Seq<StrokeView> {
        let text = self.board.triage_text(busy, now);
        if text.len() == 0 {
            Seq::empty()
        } else {
            seq![
                StrokeView::Text(
                    text,
                    less(
                        self.metrics.width as int,
                        clamped(clamped(text.len() * self.metrics.cell_w) + 46),
                    ) as usize,
                    self.metrics.strip_row(false) as usize,
                    if how_many(self.board.down_mask()) > 0 {
                        CHROME_ERR
                    } else {
                        CHROME_DIM
                    },
                ),
            ]
        }
    }

    /// What the button for a new tab is painted of.
    pub open spec fn new_tab_strokes(self) -> Seq<StrokeView> {
        let m = self.metrics;
        let x = new_tab_x(m);
        let plus = StrokeView::Text(
            "+"@,
            clamped(x + 5) as usize,
            m.strip_row(false) as usize,
            if self.on_new_tab() {
                WHITE
            } else {
                CHROME_FG
            },
        );
        if self.on_new_tab() {
            seq![
                StrokeView::Tab(
                    x as usize,
                    3,
                    18,
                    m.sheet_h(false) as usize,
                    6,
                    CHROME_ACTIVE_BG,
                ),
                plus,
            ]
        } else {
            seq![plus]
        }
    }

    /// What the bar is painted of, and where its tabs are, given the glyphs there are.
    pub open spec fn strip_laid(self, s: StripView) -> (Seq<StrokeView>, Seq<(usize, usize)>) {
        tabs_from(self.metrics, s, self.board.active, self.board.hover, 0, 6)
    }

    /// What the bar is painted of: its ground, the tabs, the counts and the button.
    pub open spec fn strip_panel(self, s: StripView, busy: Seq<bool>, now: u64) -> Seq<StrokeView> {
        let m = self.metrics;
        seq![
            StrokeView::Fill(0, 0, m.width, m.top(false) as usize, CHROME_BG),
            StrokeView::Fill(0, less(m.top(false), 1) as usize, m.width, 1, CHROME_HAIR),
        ] + self.strip_laid(s).0 + self.triage_strokes(busy, now) + self.new_tab_strokes()
    }

    /// With the places noted where the bar was painted.
    pub open spec fn strip_noted(self, s: StripView) -> ShellView {
        self.pointing(
            PointerView {
                rects: self.strip_laid(s).1,
                new_tab: Some(
                    (
                        new_tab_x(self.metrics) as usize,
                        0,
                        18,
                        self.metrics.top(false) as usize,
                    ),
                ),
                ..self.mouse
            },
        )
    }
}

impl Shell {
    fn add_triage(&self, out: &mut Vec<Stroke>, busy: &Vec<bool>, now: u64)
        requires
            self@.wf(),
        ensures
            strokes(final(out)@) == strokes(old(out)@) + self@.triage_strokes(busy@, now),
    {
        let ghost had = strokes(out@);
        let text = self.board.triage_text(busy, now);
        let n: usize = chars_of(text.as_str()).len();
        if n > 0 {
            let color = if self.board.down_count() > 0 {
                CHROME_ERR
            } else {
                CHROME_DIM
            };
            let back: usize = plus(times(n, self.metrics.cell_w), 46);
            let x: usize = self.metrics.width.saturating_sub(back);
            lay(out, Stroke::Text(text, x, self.metrics.chrome_top(false) / 2, color));
        }
        proof {
            assert(strokes(out@) =~= had + self@.triage_strokes(busy@, now));
        }
    }

    fn add_new_tab(&self, out: &mut Vec<Stroke>)
        ensures
            strokes(final(out)@) == strokes(old(out)@) + self@.new_tab_strokes(),
    {
        let ghost had = strokes(out@);
        let m = &self.metrics;
        let top: usize = m.chrome_top(false);
        let x: usize = m.width.saturating_sub(24);
        let at: usize = pixel_of(self.mouse.x);
        let on = (self.mouse.y as i128) < top as i128 && x <= at && at - x < 18;
        if on {
            lay(out, Stroke::Tab(x, 3, 18, top.saturating_sub(3), 6, CHROME_ACTIVE_BG));
        }
        let color = if on {
            WHITE
        } else {
            CHROME_FG
        };
        lay(out, Stroke::Text(copy_text("+"), plus(x, 5), top / 2, color));
        proof {
            assert(on == self@.on_new_tab());
            assert(strokes(out@) =~= had + self@.new_tab_strokes());
        }
    }

    fn strip_list(&self, s: &Strip, busy: &Vec<bool>, now: u64) -> (r: (
        Vec<Stroke>,
        Vec<(usize, usize)>,
    ))
        requires
            self@.wf(),
            s@.wf(s@.fronts.len() as int),
        ensures
            strokes(r.0@) == self@.strip_panel(s@, busy@, now),
            r.1@ == self@.strip_laid(s@).1,
    {
        let m = &self.metrics;
        let top: usize = m.chrome_top(false);
        let mut out: Vec<Stroke> = Vec::new();
        lay(&mut out, Stroke::Fill(0, 0, m.width, top, CHROME_BG));
        lay(&mut out, Stroke::Fill(0, top.saturating_sub(1), m.width, 1, CHROME_HAIR));
        let (mut tabs, rects) = s.lay_out(m, self.board.active, self.board.hover);
        let ghost mine = strokes(tabs@);
        let ghost front = strokes(out@);
        out.append(&mut tabs);
        proof {
            assert(strokes(out@) =~= front + mine);
        }
        self.add_triage(&mut out, busy, now);
        self.add_new_tab(&mut out);
        proof {
            assert(strokes(out@) =~= self@.strip_panel(s@, busy@, now));
        }
        (out, rects)
    }

    /// Lays out the bar and notes where its tabs are. Returns what it is painted of.
    pub fn render_strip<F: Face>(
        &mut self,
        cache: &mut GlyphCache<F>,
        busy: &Vec<bool>,
        frame: u64,
        accents: &Vec<Accent>,
        engines: &Vec<Engine>,
        now: u64,
    ) -> (r: Vec<Stroke>)
        requires
            old(self)@.wf(),
            old(cache).wf(),
        ensures
            final(cache).extends(old(cache)),
            final(self)@.wf(),
            old(self)@.board.strip_inked(
                final(cache)@,
                old(self)@.metrics.font_px,
                busy@,
                frame,
            ),
            ({
                let s = old(self)@.board.strip(
                    final(cache)@,
                    old(self)@.metrics.font_px,
                    busy@,
                    frame,
                    accents@,
                    engines@,
                );
                &&& final(self)@ == old(self)@.strip_noted(s)
                &&& strokes(r@) == old(self)@.strip_panel(s, busy@, now)
            }),
    {
        let s = self.board.measure(
            cache,
            self.metrics.font_px,
            busy,
            frame,
            accents,
            engines,
        );
        let (out, rects) = self.strip_list(&s, busy, now);
        self.mouse.rects = rects;
        self.mouse.new_tab = Some(
            (self.metrics.width.saturating_sub(24), 0, 18, self.metrics.chrome_top(false)),
        );
        out
    }
}

/// The tabs of the bar stand one after the other: each starts where the one before ends.
pub proof fn law_tabs_in_a_row(
    m: Metrics,
    s: StripView,
    active: usize,
    hover: Option<usize>,
    i: int,
    x: int,
    k: int,
)
    requires
        0 <= x <= usize::MAX,
        0 <= k < tabs_from(m, s, active, hover, i, x).1.len(),
    ensures
        ({
            let r = tabs_from(m, s, active, hover, i, x).1;
            &&& k == 0 ==> r[k].0 == x
            &&& k + 1 < r.len() ==> r[k + 1].0 == r[k].1
            &&& r[k].0 <= r[k].1
        }),
    decreases s.fronts.len() - i,
{
    if 0 <= i < s.fronts.len() {
        let end = clamped(clamped(x + s.label_w(i)) + 12);
        let rest = tabs_from(m, s, active, hover, i + 1, end).1;
        if end <= less(m.width as int, 20) {
            if k > 0 {
                law_tabs_in_a_row(m, s, active, hover, i + 1, end, k - 1);
            } else if rest.len() > 0 {
                law_tabs_in_a_row(m, s, active, hover, i + 1, end, 0);
            }
        }
    }
}

} // verus!
