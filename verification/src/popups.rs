//! What pops up over the window: the preview of the tab under the pointer, and the context menu.

use vstd::prelude::*;
use vstd::string::*;

use crate::board::{Board, BoardView};
use crate::geometry::{less, plus, times};
use crate::glyph::{Face, GlyphCache};
use crate::lettering::{clamped, covers_all, text_widths, widths_of};
use crate::menu::{
    ctx_label, ctx_text, item_height, items_height, menu_row_h, row_height, widest, widest_of,
    CtxAction, CtxMenu, MenuView,
};
use crate::overview::{add_edges, edges};
use crate::rosters::{either, pick_text};
use crate::shell::{Shell, ShellView};
use crate::strokes::{lay, strokes, Stroke, StrokeView, CHROME_EDGE, CHROME_RULE};
use crate::tabs::{Tab, TabView};
use crate::text::{add_line, copy_text, texts, trim, trimmed};
use crate::triage::{CHROME_ACTIVE_BG, CHROME_BG, CHROME_DIM, CHROME_FG, WHITE};
use crate::words::{clip_dots, clipped};

verus! {

/// How a tab is shielded, in its preview.
pub open spec fn tip_shield(pinned: bool, muted: bool) -> Seq<char> {
    if pinned && muted {
        " · pinned🔒 muted"@
    } else if pinned {
        " · pinned🔒"@
    } else if muted {
        " · muted"@
    } else {
        ""@
    }
}

impl TabView {
    /// How a pane that is down recovers, and why it is down.
    pub open spec fn outage_lines(self) -> Seq<Seq<char>> {
        let retry = "  ○ "@ + clipped(
            match self.retry {
                Some(r) => r,
                None => "reconnecting…"@,
            },
            40,
        );
        if !self.down() {
            Seq::empty()
        } else if self.down_reason is Some && trimmed(self.down_reason->0).len() > 0 {
            seq![retry, "  ↳ "@ + clipped(trimmed(self.down_reason->0), 56)]
        } else {
            seq![retry]
        }
    }
}

impl BoardView {
    /// What the preview of a tab says of it.
    pub open spec fn tip_head(self, i: int) -> Seq<char> {
        let t = self.tabs[i];
        " "@ + t.head() + " · "@ + t.doing() + " · "@ + either(t.seen.alive, "● live"@, "○ down"@)
            + tip_shield(self.pinned(i), self.muted(i))
    }

    /// The last lines of a session for its preview: what scrolled away where the screen is moving.
    pub open spec fn tip_tail(
        self,
        i: int,
        history: Seq<Seq<char>>,
        tail: Seq<Seq<char>>,
    ) -> Seq<Seq<char>> {
        if self.growing(i) && history.len() > 0 {
            history
        } else {
            tail
        }
    }

    /// The lines of the preview of a tab.
    pub open spec fn tip_lines(
        self,
        i: int,
        history: Seq<Seq<char>>,
        tail: Seq<Seq<char>>,
    ) -> Seq<Seq<char>> {
        let lines = seq![self.tip_head(i)] + self.tabs[i].outage_lines() + self.tip_tail(
            i,
            history,
            tail,
        );
        if lines.len() > 1 {
            lines.push(" (click → switch to this tab) "@)
        } else {
            lines
        }
    }
}

impl Tab {
    fn add_outage(&self, out: &mut Vec<String>)
        ensures
            texts(final(out)@) == texts(old(out)@) + self@.outage_lines(),
    {
        let ghost had = texts(out@);
        if self.is_down() {
            let retry = match &self.retry {
                Some(r) => r.as_str(),
                None => "reconnecting…",
            };
            add_line(out, copy_text("  ○ ").concat(clip_dots(retry, 40).as_str()));
            if let Some(why) = &self.down_reason {
                let why = trim(why.as_str());
                if !why.as_str().is_empty() {
                    add_line(out, copy_text("  ↳ ").concat(clip_dots(why.as_str(), 56).as_str()));
                }
            }
        }
        proof {
            assert(texts(out@) =~= had + self@.outage_lines());
        }
    }
}

impl Board {
    fn tip_head(&self, i: usize) -> (r: String)
        requires
            i < self@.tabs.len(),
        ensures
            r@ == self@.tip_head(i as int),
    {
        let t = &self.tabs[i];
        proof {
            assert(self@.tabs[i as int] == t@);
        }
        let guard = match (self.is_pinned(i), self.is_muted(i)) {
            (true, true) => " · pinned🔒 muted",
            (true, false) => " · pinned🔒",
            (false, true) => " · muted",
            (false, false) => "",
        };
        let mut s = copy_text(" ");
        s.append(t.head());
        s.append(" · ");
        s.append(t.doing());
        s.append(" · ");
        s.append(pick_text(t.seen.alive, "● live", "○ down"));
        s.append(guard);
        s
    }

    /// The lines of the preview of a tab.
    fn tip_lines(&self, i: usize, history: &Vec<String>, tail: &Vec<String>) -> (r: Vec<String>)
        requires
            i < self@.tabs.len(),
        ensures
            texts(r@) == self@.tip_lines(i as int, texts(history@), texts(tail@)),
    {
        let mut out: Vec<String> = Vec::new();
        proof {
            assert(self@.tabs[i as int] == self.tabs@[i as int]@);
            assert(texts(history@).len() == history@.len());
        }
        add_line(&mut out, self.tip_head(i));
        self.tabs[i].add_outage(&mut out);
        let ghost front = texts(out@);
        let last = if self.is_growing(i) && history.len() > 0 {
            history
        } else {
            tail
        };
        let ghost want = texts(last@);
        let mut k: usize = 0;
        proof {
            assert(texts(out@) =~= front + want.take(0));
        }
        while k < last.len()
            invariant
                k <= last@.len(),
                want == texts(last@),
                texts(out@) == front + want.take(k as int),
            decreases last@.len() - k,
        {
            add_line(&mut out, copy_text(last[k].as_str()));
            proof {
                assert(texts(last@)[k as int] == last@[k as int]@);
                assert(texts(out@) =~= front + want.take(k + 1));
            }
            k = k + 1;
        }
        proof {
            assert(want.take(k as int) =~= want);
            assert(texts(out@).len() == out@.len());
            assert(front + want =~= seq![self@.tip_head(i as int)]
                + self@.tabs[i as int].outage_lines() + self@.tip_tail(
                i as int,
                texts(history@),
                texts(tail@),
            ));
        }
        if out.len() > 1 {
            add_line(&mut out, copy_text(" (click → switch to this tab) "));
        }
        out
    }
}

impl ShellView {
    /// Where the preview stands: its corner and its size, given how wide its lines are.
    pub open spec fn tip_box(self, w: Seq<usize>) -> (int, int, int, int) {
        let m = self.metrics;
        let right = (if m.width < 60 {
            60
        } else {
            m.width as int
        }) - 40;
        let x = self.mouse.x as int;
        let hx = if x < 6 {
            6
        } else if x > right {
            right
        } else {
            x
        };
        let pw = clamped(widest(w) + 36);
        let far = less(m.width as int, clamped(pw + 8));
        (
            if hx < far {
                hx
            } else {
                far
            },
            clamped(m.top(self.board.focus) + 8),
            pw,
            clamped(clamped(w.len() * clamped(m.font_px + 4)) + 14),
        )
    }

    /// The text of the preview.
    pub open spec fn tip_text(
        self,
        lines: Seq<Seq<char>>,
        at: (int, int, int, int),
    ) -> Seq<StrokeView> {
        Seq::new(
            lines.len(),
            |k: int|
                StrokeView::Text(
                    lines[k],
                    clamped(at.0 + 18) as usize,
                    clamped(
                        clamped(at.1 + 8) + clamped(k * clamped(self.metrics.font_px + 4)),
                    ) as usize,
                    if k == 0 {
                        WHITE
                    } else {
                        CHROME_DIM
                    },
                ),
        )
    }

    /// What the preview is painted of.
    pub open spec fn tip_panel(self, lines: Seq<Seq<char>>, w: Seq<usize>) -> Seq<StrokeView> {
        let at = self.tip_box(w);
        seq![
            StrokeView::Fill(
                at.0 as usize,
                at.1 as usize,
                at.2 as usize,
                at.3 as usize,
                CHROME_BG,
            ),
        ] + edges(at.0, at.1, at.2, at.3, CHROME_EDGE) + self.tip_text(lines, at)
    }

    /// With the place of the preview noted.
    pub open spec fn tip_noted(self, w: Seq<usize>) -> ShellView {
        let at = self.tip_box(w);
        self.on(
            BoardView {
                tip: Some((at.0 as usize, at.1 as usize, at.2 as usize, at.3 as usize)),
                ..self.board
            },
        )
    }
}

impl Shell {
    fn tip_place(&self, w: &Vec<usize>) -> (r: (usize, usize, usize, usize))
        ensures
            (r.0 as int, r.1 as int, r.2 as int, r.3 as int) == self@.tip_box(w@),
    {
        let m = &self.metrics;
        let right: usize = (if m.width < 60 {
            60
        } else {
            m.width
        }) - 40;
        let x: i64 = self.mouse.x;
        let hx: usize = if x < 6 {
            6
        } else if x as i128 > right as i128 {
            right
        } else {
            x as usize
        };
        let pw: usize = plus(widest_of(w), 36);
        let far: usize = m.width.saturating_sub(plus(pw, 8));
        (
            if hx < far {
                hx
            } else {
                far
            },
            plus(m.chrome_top(self.board.focus), 8),
            pw,
            plus(times(w.len(), plus(m.font_px as usize, 4)), 14),
        )
    }

    fn add_tip_text(
        &self,
        out: &mut Vec<Stroke>,
        lines: &Vec<String>,
        at: (usize, usize, usize, usize),
    )
        ensures
            strokes(final(out)@) == strokes(old(out)@) + self@.tip_text(
                texts(lines@),
                (at.0 as int, at.1 as int, at.2 as int, at.3 as int),
            ),
    {
        let ghost had = strokes(out@);
        let ghost want = self@.tip_text(
            texts(lines@),
            (at.0 as int, at.1 as int, at.2 as int, at.3 as int),
        );
        let row: usize = plus(self.metrics.font_px as usize, 4);
        let top: usize = plus(at.1, 8);
        let x: usize = plus(at.0, 18);
        let mut k: usize = 0;
        proof {
            assert(strokes(out@) =~= had + want.take(0));
        }
        while k < lines.len()
            invariant
                k <= lines@.len(),
                row == clamped(self.metrics.font_px + 4),
                top == clamped(at.1 + 8),
                x == clamped(at.0 + 18),
                want == self@.tip_text(
                    texts(lines@),
                    (at.0 as int, at.1 as int, at.2 as int, at.3 as int),
                ),
                strokes(out@) == had + want.take(k as int),
            decreases lines@.len() - k,
        {
            let color = if k == 0 {
                WHITE
            } else {
                CHROME_DIM
            };
            let y: usize = plus(top, times(k, row));
            lay(out, Stroke::Text(copy_text(lines[k].as_str()), x, y, color));
            proof {
                assert(texts(lines@)[k as int] == lines@[k as int]@);
                assert(strokes(out@) =~= had + want.take(k + 1));
            }
            k = k + 1;
        }
        proof {
            assert(want.take(k as int) =~= want);
        }
    }

    /// Notes where the preview of the tab under the pointer stands. Returns what it is painted of;
    /// nothing without such a tab. `history` are the lines of that session that scrolled away last,
    /// and `tail` the last ones of its screen.
    pub fn render_tooltip<F: Face>(
        &mut self,
        cache: &mut GlyphCache<F>,
        history: &Vec<String>,
        tail: &Vec<String>,
    ) -> (r: Vec<Stroke>)
        requires
            old(cache).wf(),
        ensures
            final(cache).extends(old(cache)),
            final(self)@.wf() == old(self)@.wf(),
            match old(self)@.board.hover {
                Some(i) => if i < old(self)@.board.tabs.len() {
                    let lines = old(self)@.board.tip_lines(
                        i as int,
                        texts(history@),
                        texts(tail@),
                    );
                    let w = widths_of(final(cache)@, lines, old(self)@.metrics.font_px);
                    covers_all(final(cache)@, lines, old(self)@.metrics.font_px) && final(self)@
                        == old(self)@.tip_noted(w) && strokes(r@) == old(self)@.tip_panel(
                        lines,
                        w,
                    )
                } else {
                    final(self)@ == old(self)@ && r@.len() == 0
                },
                None => final(self)@ == old(self)@ && r@.len() == 0,
            },
    {
        let mut out: Vec<Stroke> = Vec::new();
        if let Some(i) = self.board.hover {
            if i < self.board.tabs.len() {
                let lines = self.board.tip_lines(i, history, tail);
                let w = text_widths(cache, &lines, self.metrics.font_px);
                let at = self.tip_place(&w);
                lay(&mut out, Stroke::Fill(at.0, at.1, at.2, at.3, CHROME_BG));
                add_edges(&mut out, at.0, at.1, at.2, at.3, CHROME_EDGE);
                self.add_tip_text(&mut out, &lines, at);
                proof {
                    assert(strokes(out@) =~= self@.tip_panel(texts(lines@), w@));
                }
                self.board.set_tip(Some(at));
            }
        }
        out
    }
}

impl MenuView {
    /// What the row `i` of the menu, which starts at `y`, is painted of: a line between rows, or a
    /// label, lit where it is in focus.
    pub open spec fn row_strokes(self, i: int, y: int, row_h: int) -> Seq<StrokeView> {
        let a = self.items[i];
        let sel = i == self.sel;
        let label = StrokeView::Text(
            ctx_text(a),
            clamped(self.px + 12) as usize,
            clamped(y + row_h / 2) as usize,
            if sel {
                WHITE
            } else {
                CHROME_FG
            },
        );
        if a == CtxAction::Separator {
            seq![
                StrokeView::Fill(
                    clamped(self.px + 4) as usize,
                    clamped(y + row_h / 2 / 2) as usize,
                    less(self.w as int, 8) as usize,
                    1,
                    CHROME_RULE,
                ),
            ]
        } else if sel {
            seq![
                StrokeView::Fill(self.px, y as usize, self.w, row_h as usize, CHROME_ACTIVE_BG),
                label,
            ]
        } else {
            seq![label]
        }
    }

    /// What the rows of the menu from number `i` on, which starts at `y`, are painted of.
    pub open spec fn rows_from(self, i: int, y: int, row_h: int) -> Seq<StrokeView>
        decreases self.items.len() - i,
    {
        if i < 0 || i >= self.items.len() {
            Seq::empty()
        } else {
            self.row_strokes(i, y, row_h) + self.rows_from(
                i + 1,
                clamped(y + item_height(self.items[i], row_h)),
                row_h,
            )
        }
    }

    /// What the menu is painted of: its ground, its edges, its rows.
    pub open spec fn panel(self, row_h: int) -> Seq<StrokeView> {
        let h = clamped(items_height(self.items, row_h));
        seq![StrokeView::Fill(self.px, self.py, self.w, h as usize, CHROME_BG)] + edges(
            self.px as int,
            self.py as int,
            self.w as int,
            h,
            CHROME_EDGE,
        ) + self.rows_from(0, self.py as int, row_h)
    }
}

impl CtxMenu {
    fn add_row(&self, out: &mut Vec<Stroke>, i: usize, y: usize, row_h: usize)
        requires
            i < self@.items.len(),
        ensures
            strokes(final(out)@) == strokes(old(out)@) + self@.row_strokes(
                i as int,
                y as int,
                row_h as int,
            ),
    {
        let ghost had = strokes(out@);
        let a = self.items[i];
        let sel = i == self.sel;
        if a == CtxAction::Separator {
            lay(
                out,
                Stroke::Fill(
                    plus(self.px, 4),
                    plus(y, row_h / 2 / 2),
                    self.w.saturating_sub(8),
                    1,
                    CHROME_RULE,
                ),
            );
        } else {
            let color = if sel {
                WHITE
            } else {
                CHROME_FG
            };
            if sel {
                lay(out, Stroke::Fill(self.px, y, self.w, row_h, CHROME_ACTIVE_BG));
            }
            lay(
                out,
                Stroke::Text(copy_text(ctx_label(a)), plus(self.px, 12), plus(y, row_h / 2), color),
            );
        }
        proof {
            assert(strokes(out@) =~= had + self@.row_strokes(i as int, y as int, row_h as int));
        }
    }

    /// What the context menu is painted of.
    pub fn render(&self, cell_h: usize) -> (r: Vec<Stroke>)
        ensures
            strokes(r@) == self@.panel(row_height(cell_h as int)),
    {
        let row_h: usize = menu_row_h(cell_h);
        let h: usize = crate::menu::height_of(&self.items, row_h);
        let mut out: Vec<Stroke> = Vec::new();
        lay(&mut out, Stroke::Fill(self.px, self.py, self.w, h, CHROME_BG));
        add_edges(&mut out, self.px, self.py, self.w, h, CHROME_EDGE);
        let ghost front = strokes(out@);
        let ghost all = self@.rows_from(0, self.py as int, row_h as int);
        let n: usize = self.items.len();
        let mut y: usize = self.py;
        let mut i: usize = 0;
        proof {
            assert(strokes(out@) + all =~= front + all);
        }
        while i < n
            invariant
                i <= n,
                n == self.items@.len(),
                all == self@.rows_from(0, self.py as int, row_h as int),
                strokes(out@) + self@.rows_from(i as int, y as int, row_h as int) == front + all,
            decreases n - i,
        {
            let ghost had = strokes(out@);
            let ghost mine = self@.row_strokes(i as int, y as int, row_h as int);
            let ghost rest = self@.rows_from(
                i + 1,
                clamped(y + item_height(self.items@[i as int], row_h as int)),
                row_h as int,
            );
            self.add_row(&mut out, i, y, row_h);
            proof {
                assert(had + (mine + rest) =~= (had + mine) + rest);
            }
            let step: usize = if self.items[i] == CtxAction::Separator {
                row_h / 2
            } else {
                row_h
            };
            y = plus(y, step);
            i = i + 1;
        }
        proof {
            assert(strokes(out@) =~= front + all);
            assert(strokes(out@) =~= self@.panel(row_h as int));
        }
        out
    }
}

} // verus!
