//! The sessions at a glance: the triage list, and the tiles of the fleet grid.

use vstd::prelude::*;
use vstd::string::*;

use crate::board::{Board, BoardView};
use crate::geometry::{less, plus, times, Metrics, Tiles};
use crate::glyph::{Face, GlyphCache};
use crate::lettering::{clamped, covers_all, text_widths, widths_of};
use crate::machines::{machine, machine_name};
use crate::paint::Rgb;
use crate::prompts::{plural_end, plural_s};
use crate::rosters::{count_set, either, how_many, pick_text};
use crate::shell::{Shell, ShellView};
use crate::strokes::{lay, slot_top, slot_y, strokes, Stroke, StrokeView};
use crate::tabs::{on_one_line, one_based, one_line, Tab, TabView};
use crate::text::{copy_text, dec, decimal, texts, trim, trim_back, trim_end, trimmed};
use crate::triage::{
    host_color, host_hue, state_color, status_accent, CHROME_DIM, CHROME_ERR, TILE_GAP, WHITE,
};
use crate::words::{clip_dots, clipped, duration_text, fmt_duration};

verus! {

/// `n` behind a mark, where there is something to count.
pub open spec fn tally(mark: Seq<char>, n: int) -> Seq<char> {
    if n > 0 {
        mark + dec(n as nat)
    } else {
        ""@
    }
}

/// `n` behind a mark, where there is something to count.
pub fn tally_text(mark: &str, n: usize) -> (r: String)
    ensures
        r@ == tally(mark@, n as int),
{
    if n > 0 {
        copy_text(mark).concat(decimal(n as u64).as_str())
    } else {
        copy_text("")
    }
}

/// A number, but at most 999.
pub open spec fn capped(n: int) -> int {
    if n < 999 {
        n
    } else {
        999
    }
}

/// A number, but at most 999.
pub fn cap(n: usize) -> (r: usize)
    ensures
        r == capped(n as int),
{
    if n < 999 {
        n
    } else {
        999
    }
}

impl BoardView {
    /// Whether a tab just came back.
    pub open spec fn recovering(self, i: int) -> bool {
        0 <= i < self.slots.len() && self.slots[i].recover_until is Some
    }

    /// The lines of a tab that were not looked at yet.
    pub open spec fn unread(self, i: int) -> int {
        if 0 <= i < self.slots.len() {
            self.slots[i].unread as int
        } else {
            0
        }
    }

    /// Whether a tab is marked.
    pub open spec fn marked(self, i: int) -> bool {
        0 <= i < self.slots.len() && self.slots[i].mark
    }

    /// Which tabs just came back.
    pub open spec fn recovery_mask(self) -> Seq<bool> {
        Seq::new(self.slots.len(), |i: int| self.recovering(i))
    }
}

impl Board {
    /// Whether a tab shows that its pane came back.
    pub fn is_recovering(&self, i: usize) -> (r: bool)
        ensures
            r == self@.recovering(i as int),
    {
        i < self.slots.len() && self.slots[i].recover_until.is_some()
    }

    /// How much of a tab is unread.
    pub fn unread_of(&self, i: usize) -> (r: usize)
        ensures
            r == self@.unread(i as int),
    {
        if i < self.slots.len() {
            self.slots[i].unread
        } else {
            0
        }
    }

    /// Whether a tab is marked.
    pub fn is_marked(&self, i: usize) -> (r: bool)
        ensures
            r == self@.marked(i as int),
    {
        i < self.slots.len() && self.slots[i].mark
    }

    /// How many tabs just came back.
    pub fn recovery_count(&self) -> (n: usize)
        ensures
            n == how_many(self@.recovery_mask()),
    {
        let ghost want = self@.recovery_mask();
        let mut mask: Vec<bool> = Vec::new();
        let n: usize = self.slots.len();
        let mut i: usize = 0;
        while i < n
            invariant
                i <= n,
                n == self.slots@.len(),
                want == self@.recovery_mask(),
                mask@ == want.take(i as int),
            decreases n - i,
        {
            mask.push(self.is_recovering(i));
            proof {
                assert(mask@ =~= want.take(i + 1));
            }
            i = i + 1;
        }
        proof {
            assert(want.take(i as int) =~= want);
        }
        count_set(&mask)
    }

    /// How many sessions are down.
    pub fn down_count(&self) -> (n: usize)
        ensures
            n == how_many(self@.down_mask()),
    {
        count_set(&self.downs())
    }
}

impl TabView {
    /// Why a pane is down, in the triage list.
    pub open spec fn reason_tag(self) -> Seq<char> {
        if self.down() {
            " ○ "@ + clipped(self.reason(), 22)
        } else {
            ""@
        }
    }

    /// The machine in the triage list.
    pub open spec fn host_seg(self) -> Seq<char> {
        "  "@ + machine(self.host)
    }
}

impl BoardView {
    /// How long a session has waited, in the triage list.
    pub open spec fn wait_tag(self, i: int, now: u64) -> Seq<char> {
        if !self.tabs[i].down() && self.waits(i, now) {
            " · ⌛"@ + duration_text(self.parked(i, now))
        } else {
            ""@
        }
    }

    /// What is new of a session and what shields it, in the triage list. Of the selected one
    /// nothing is new: it is being read.
    pub open spec fn badges(self, i: int, sel: bool) -> Seq<char> {
        (if sel { ""@ } else { tally(" · !"@, capped(self.unread(i))) })
            + either(self.recovering(i), " ↻"@, ""@) + either(self.pinned(i), "🔒"@, ""@)
            + either(self.muted(i), " M"@, ""@) + tally(" ⏳"@, self.tabs[i].pending as int)
    }

    /// What a row of the triage list says behind the machine.
    pub open spec fn peek_rest(self, i: int, sel: bool, now: u64) -> Seq<char> {
        let t = self.tabs[i];
        " · "@ + t.full_name() + " · "@ + one_line(t.doing()) + self.wait_tag(i, now)
            + t.reason_tag() + self.badges(i, sel) + either(sel, " ◄"@, ""@)
    }

    /// The color of a row of the triage list.
    pub open spec fn peek_color(self, i: int, sel: bool) -> Rgb {
        if sel {
            WHITE
        } else if self.tabs[i].down() {
            CHROME_ERR
        } else {
            CHROME_DIM
        }
    }
}

impl Tab {
    fn reason_tag(&self) -> (r: String)
        ensures
            r@ == self@.reason_tag(),
    {
        if self.is_down() {
            copy_text(" ○ ").concat(clip_dots(self.reason(), 22).as_str())
        } else {
            copy_text("")
        }
    }

    fn host_seg(&self) -> (r: String)
        ensures
            r@ == self@.host_seg(),
    {
        copy_text("  ").concat(machine_name(self.host.as_str()))
    }
}

impl Board {
    fn wait_tag(&self, i: usize, now: u64) -> (r: String)
        requires
            self@.wf(),
            i < self@.tabs.len(),
        ensures
            r@ == self@.wait_tag(i as int, now),
    {
        proof {
            assert(self@.tabs[i as int] == self.tabs@[i as int]@);
        }
        if !self.tabs[i].is_down() && self.is_waiting(i, now) {
            copy_text(" · ⌛").concat(fmt_duration(self.parked_secs(i, now)).as_str())
        } else {
            copy_text("")
        }
    }

    fn badges(&self, i: usize, sel: bool) -> (r: String)
        requires
            i < self@.tabs.len(),
        ensures
            r@ == self@.badges(i as int, sel),
    {
        proof {
            assert(self@.tabs[i as int] == self.tabs@[i as int]@);
        }
        let news = if sel {
            copy_text("")
        } else {
            tally_text(" · !", cap(self.unread_of(i)))
        };
        let mut s = news;
        s.append(pick_text(self.is_recovering(i), " ↻", ""));
        s.append(pick_text(self.is_pinned(i), "🔒", ""));
        s.append(pick_text(self.is_muted(i), " M", ""));
        s.append(tally_text(" ⏳", self.tabs[i].pending).as_str());
        s
    }

    fn peek_rest(&self, i: usize, sel: bool, now: u64) -> (r: String)
        requires
            self@.wf(),
            i < self@.tabs.len(),
        ensures
            r@ == self@.peek_rest(i as int, sel, now),
    {
        let t = &self.tabs[i];
        proof {
            assert(self@.tabs[i as int] == t@);
        }
        let wait = self.wait_tag(i, now);
        let why = t.reason_tag();
        let badges = self.badges(i, sel);
        let mut s = copy_text(" · ");
        s.append(t.full_name().as_str());
        s.append(" · ");
        s.append(on_one_line(t.doing()).as_str());
        s.append(wait.as_str());
        s.append(why.as_str());
        s.append(badges.as_str());
        s.append(pick_text(sel, " ◄", ""));
        s
    }

    fn peek_color(&self, i: usize, sel: bool) -> (c: Rgb)
        requires
            i < self@.tabs.len(),
        ensures
            c == self@.peek_color(i as int, sel),
    {
        proof {
            assert(self@.tabs[i as int] == self.tabs@[i as int]@);
        }
        if sel {
            WHITE
        } else if self.tabs[i].is_down() {
            CHROME_ERR
        } else {
            CHROME_DIM
        }
    }
}

/// The lines that say something, without the spaces at their ends.
pub open spec fn said_lines(lines: Seq<Seq<char>>) -> Seq<Seq<char>>
    decreases lines.len(),
{
    if lines.len() == 0 {
        Seq::empty()
    } else {
        let front = said_lines(lines.drop_last());
        if trim_back(lines.last()).len() > 0 {
            front.push(trim_back(lines.last()))
        } else {
            front
        }
    }
}

/// The last lines of a session that say something: of what scrolled away where that says anything,
/// else of its screen.
pub open spec fn peek_preview(history: Seq<Seq<char>>, tail: Seq<Seq<char>>) -> Seq<Seq<char>> {
    let all = if said_lines(history).len() > 0 {
        said_lines(history)
    } else {
        said_lines(tail)
    };
    if all.len() > 4 {
        all.subrange(all.len() - 4, all.len() as int)
    } else {
        all
    }
}

fn lines_said(lines: &Vec<String>) -> (r: Vec<String>)
    ensures
        texts(r@) == said_lines(texts(lines@)),
{
    let ghost all = texts(lines@);
    let mut out: Vec<String> = Vec::new();
    let mut i: usize = 0;
    proof {
        assert(texts(out@) =~= said_lines(all.take(0)));
    }
    while i < lines.len()
        invariant
            i <= lines@.len(),
            all == texts(lines@),
            texts(out@) == said_lines(all.take(i as int)),
        decreases lines@.len() - i,
    {
        let t = trim_end(lines[i].as_str());
        let ghost had = texts(out@);
        let ghost line = t@;
        proof {
            assert(all.take(i + 1).drop_last() =~= all.take(i as int));
            assert(all.take(i + 1).last() == lines@[i as int]@);
        }
        if !t.as_str().is_empty() {
            out.push(t);
            proof {
                assert(texts(out@) =~= had.push(line));
            }
        }
        i = i + 1;
    }
    proof {
        assert(all.take(i as int) =~= all);
    }
    out
}

/// The last lines of a session that say something.
pub fn preview_lines(history: &Vec<String>, tail: &Vec<String>) -> (r: Vec<String>)
    ensures
        texts(r@) == peek_preview(texts(history@), texts(tail@)),
        r@.len() <= 4,
{
    let past = lines_said(history);
    proof {
        assert(texts(past@).len() == past@.len());
    }
    let all = if past.len() > 0 {
        past
    } else {
        lines_said(tail)
    };
    proof {
        assert(texts(all@).len() == all@.len());
    }
    let from: usize = if all.len() > 4 {
        all.len() - 4
    } else {
        0
    };
    let ghost want = texts(all@).subrange(from as int, all@.len() as int);
    let mut out: Vec<String> = Vec::new();
    let mut i: usize = from;
    while i < all.len()
        invariant
            from <= i <= all@.len(),
            want == texts(all@).subrange(from as int, all@.len() as int),
            out@.len() == i - from,
            texts(out@) == want.take(i - from),
        decreases all@.len() - i,
    {
        let t = copy_text(all[i].as_str());
        let ghost had = texts(out@);
        let ghost line = t@;
        out.push(t);
        proof {
            assert(texts(all@)[i as int] == line);
            assert(texts(out@) =~= had.push(line));
            assert(want.take(i + 1 - from) =~= had.push(line));
        }
        i = i + 1;
    }
    proof {
        assert(want.take(i - from) =~= want);
        assert(texts(out@) =~= peek_preview(texts(history@), texts(tail@)));
    }
    out
}

impl ShellView {
    /// How many rows of the triage list are in view.
    pub open spec fn peek_rows(self) -> int {
        let n = self.peek.shown.len();
        if self.peek.scroll >= n {
            0
        } else if n - self.peek.scroll < 10 {
            n - self.peek.scroll
        } else {
            10
        }
    }

    /// What stands above the triage list.
    pub open spec fn peek_heading(self) -> Seq<char> {
        let down = how_many(self.board.down_mask());
        let back = how_many(self.board.recovery_mask());
        let f = self.peek.filtering;
        let front = if f {
            "  peek · /"@ + self.peek.query + " · "@ + dec(self.peek.shown.len() as nat) + "/"@
                + dec(self.board.tabs.len() as nat) + " match · "@
        } else {
            "  peek · "@
        };
        let health = if down > 0 && back > 0 {
            dec(down as nat) + " down · "@ + dec(back as nat) + " reconnected · "@
        } else if down > 0 {
            dec(down as nat) + " down · "@
        } else if back > 0 {
            dec(back as nat) + " reconnected · "@
        } else if !f {
            "fleet healthy · "@
        } else {
            ""@
        };
        front + health + either(
            f,
            "↑/↓ · Enter jump · Esc clear  "@,
            "↑/↓ preview · PgUp/Dn page · n down · r reconnect · m mute · p pin · x close · Enter jump · Esc close  "@,
        )
    }

    /// The machines of the rows in view.
    pub open spec fn peek_segs(self) -> Seq<Seq<char>> {
        Seq::new(
            self.peek_rows() as nat,
            |k: int| self.board.tabs[self.peek.shown[self.peek.scroll + k]].host_seg(),
        )
    }

    /// What the row `k` in view of the triage list is painted of, given how wide its machine is.
    pub open spec fn peek_row(self, k: int, w: usize, now: u64) -> Seq<StrokeView> {
        let i = self.peek.shown[self.peek.scroll + k];
        let sel = self.peek.scroll + k == self.peek.sel;
        let y = slot_y(self.metrics, self.board.focus, k + 1) as usize;
        let c = self.board.peek_color(i, sel);
        seq![
            StrokeView::Text(
                self.board.tabs[i].host_seg(),
                32,
                y,
                if sel {
                    c
                } else {
                    host_hue(machine(self.board.tabs[i].host))
                },
            ),
            StrokeView::Text(
                self.board.peek_rest(i, sel, now),
                clamped(32 + w) as usize,
                y,
                c,
            ),
        ]
    }

    /// What the last lines of the selected session are painted of, below the row `k`.
    pub open spec fn peek_lines(self, k: int, lines: Seq<Seq<char>>) -> Seq<StrokeView> {
        Seq::new(
            lines.len(),
            |j: int|
                StrokeView::Text(
                    "      "@ + clipped(lines[j], 90),
                    32,
                    slot_y(self.metrics, self.board.focus, k + j + 2) as usize,
                    CHROME_DIM,
                ),
        )
    }

    /// What the first `n` rows in view of the triage list are painted of.
    pub open spec fn peek_body(
        self,
        w: Seq<usize>,
        lines: Seq<Seq<char>>,
        now: u64,
        n: int,
    ) -> Seq<StrokeView>
        decreases n,
    {
        if n <= 0 {
            Seq::empty()
        } else {
            let front = self.peek_body(w, lines, now, n - 1) + self.peek_row(n - 1, w[n - 1], now);
            if self.peek.scroll + n - 1 == self.peek.sel {
                front + self.peek_lines(n - 1, lines)
            } else {
                front
            }
        }
    }

    /// What the triage list is painted of, given how wide the machines of its rows are and the last
    /// lines of the selected session.
    pub open spec fn peek_panel(
        self,
        w: Seq<usize>,
        lines: Seq<Seq<char>>,
        now: u64,
    ) -> Seq<StrokeView> {
        seq![
            StrokeView::Text(
                self.peek_heading(),
                32,
                slot_y(self.metrics, self.board.focus, 0) as usize,
                if how_many(self.board.down_mask()) > 0 {
                    CHROME_ERR
                } else {
                    WHITE
                },
            ),
        ] + self.peek_body(w, lines, now, self.peek_rows())
    }
}

impl Shell {
    fn peek_count(&self) -> (n: usize)
        ensures
            n == self@.peek_rows(),
            n <= 10,
    {
        let n: usize = self.peek.shown.len();
        proof {
            assert(self@.peek.shown.len() == n);
        }
        if self.peek.scroll >= n {
            0
        } else if n - self.peek.scroll < 10 {
            n - self.peek.scroll
        } else {
            10
        }
    }

    fn peek_heading(&self) -> (r: String)
        ensures
            r@ == self@.peek_heading(),
    {
        let down: usize = self.board.down_count();
        let back: usize = self.board.recovery_count();
        let shown: usize = self.peek.shown.len();
        let total: usize = self.board.tabs.len();
        proof {
            assert(self@.peek.shown.len() == shown);
            assert(self@.board.tabs.len() == total);
        }
        let f = self.peek.filtering;
        let mut front = copy_text("  peek · ");
        if f {
            let mut s = copy_text("  peek · /");
            s.append(self.peek.query.as_str());
            s.append(" · ");
            s.append(decimal(shown as u64).as_str());
            s.append("/");
            s.append(decimal(total as u64).as_str());
            s.append(" match · ");
            front = s;
        }
        let health = if down > 0 && back > 0 {
            let mut s = decimal(down as u64);
            s.append(" down · ");
            s.append(decimal(back as u64).as_str());
            s.append(" reconnected · ");
            s
        } else if down > 0 {
            let mut s = decimal(down as u64);
            s.append(" down · ");
            s
        } else if back > 0 {
            let mut s = decimal(back as u64);
            s.append(" reconnected · ");
            s
        } else if !f {
            copy_text("fleet healthy · ")
        } else {
            copy_text("")
        };
        front.append(health.as_str());
        front.append(
            pick_text(
                f,
                "↑/↓ · Enter jump · Esc clear  ",
                "↑/↓ preview · PgUp/Dn page · n down · r reconnect · m mute · p pin · x close · Enter jump · Esc close  ",
            ),
        );
        front
    }

    /// The machines of the rows in view of the triage list.
    fn peek_hosts(&self) -> (r: Vec<String>)
        requires
            self@.peek_listed(),
        ensures
            texts(r@) == self@.peek_segs(),
    {
        let ghost want = self@.peek_segs();
        let n: usize = self.peek_count();
        let mut out: Vec<String> = Vec::new();
        let mut k: usize = 0;
        while k < n
            invariant
                k <= n,
                n == self@.peek_rows(),
                self@.peek_listed(),
                want == self@.peek_segs(),
                texts(out@) == want.take(k as int),
            decreases n - k,
        {
            let total: usize = self.peek.shown.len();
            proof {
                assert(self@.peek.shown.len() == total);
            }
            let row: usize = self.peek.scroll + k;
            let i: usize = self.peek.shown[row];
            proof {
                assert(self@.peek.shown[row as int] == i);
                assert(self@.board.tabs[i as int] == self.board.tabs@[i as int]@);
            }
            let t = self.board.tabs[i].host_seg();
            let ghost had = texts(out@);
            let ghost line = t@;
            out.push(t);
            proof {
                assert(texts(out@) =~= had.push(line));
                assert(want.take(k + 1) =~= had.push(line));
            }
            k = k + 1;
        }
        proof {
            assert(want.take(k as int) =~= want);
        }
        out
    }

    fn add_peek_lines(&self, out: &mut Vec<Stroke>, k: usize, lines: &Vec<String>)
        requires
            k <= 10,
            lines@.len() <= 4,
        ensures
            strokes(final(out)@) == strokes(old(out)@) + self@.peek_lines(k as int, texts(lines@)),
    {
        let ghost had = strokes(out@);
        let ghost want = self@.peek_lines(k as int, texts(lines@));
        let mut j: usize = 0;
        proof {
            assert(strokes(out@) =~= had + want.take(0));
        }
        while j < lines.len()
            invariant
                k <= 10,
                j <= lines@.len() <= 4,
                want == self@.peek_lines(k as int, texts(lines@)),
                strokes(out@) == had + want.take(j as int),
            decreases lines@.len() - j,
        {
            let s = copy_text("      ").concat(clip_dots(lines[j].as_str(), 90).as_str());
            let y: usize = slot_top(&self.metrics, self.board.focus, k + j + 2);
            lay(out, Stroke::Text(s, 32, y, CHROME_DIM));
            proof {
                assert(texts(lines@)[j as int] == lines@[j as int]@);
                assert(strokes(out@) =~= had + want.take(j + 1));
            }
            j = j + 1;
        }
        proof {
            assert(want.take(j as int) =~= want);
        }
    }

    fn add_peek_row(&self, out: &mut Vec<Stroke>, k: usize, w: usize, now: u64)
        requires
            self@.wf(),
            self@.peek_listed(),
            k < self@.peek_rows(),
        ensures
            strokes(final(out)@) == strokes(old(out)@) + self@.peek_row(k as int, w, now),
    {
        let total: usize = self.peek.shown.len();
        proof {
            assert(self@.peek.shown.len() == total);
        }
        let row: usize = self.peek.scroll + k;
        let i: usize = self.peek.shown[row];
        let sel = row == self.peek.sel;
        let ghost had = strokes(out@);
        proof {
            assert(self@.peek.shown[row as int] == i);
            assert(self@.board.tabs[i as int] == self.board.tabs@[i as int]@);
        }
        let c = self.board.peek_color(i, sel);
        let y: usize = slot_top(&self.metrics, self.board.focus, k + 1);
        let hue = if sel {
            c
        } else {
            host_color(machine_name(self.board.tabs[i].host.as_str()))
        };
        lay(out, Stroke::Text(self.board.tabs[i].host_seg(), 32, y, hue));
        lay(out, Stroke::Text(self.board.peek_rest(i, sel, now), plus(32, w), y, c));
        proof {
            assert(strokes(out@) =~= had + self@.peek_row(k as int, w, now));
        }
    }

    fn peek_strokes(&self, w: &Vec<usize>, lines: &Vec<String>, now: u64) -> (r: Vec<Stroke>)
        requires
            self@.wf(),
            self@.peek_listed(),
            w@.len() == self@.peek_rows(),
            lines@.len() <= 4,
        ensures
            strokes(r@) == self@.peek_panel(w@, texts(lines@), now),
    {
        let n: usize = self.peek_count();
        let mut out: Vec<Stroke> = Vec::new();
        let color = if self.board.down_count() > 0 {
            CHROME_ERR
        } else {
            WHITE
        };
        let y: usize = slot_top(&self.metrics, self.board.focus, 0);
        lay(&mut out, Stroke::Text(self.peek_heading(), 32, y, color));
        let ghost head = strokes(out@);
        let mut k: usize = 0;
        proof {
            assert(strokes(out@) =~= head + self@.peek_body(w@, texts(lines@), now, 0));
        }
        while k < n
            invariant
                k <= n <= 10,
                n == self@.peek_rows(),
                self@.wf(),
                self@.peek_listed(),
                w@.len() == n,
                lines@.len() <= 4,
                strokes(out@) == head + self@.peek_body(w@, texts(lines@), now, k as int),
            decreases n - k,
        {
            let total: usize = self.peek.shown.len();
            proof {
                assert(self@.peek.shown.len() == total);
            }
            self.add_peek_row(&mut out, k, w[k], now);
            if self.peek.scroll + k == self.peek.sel {
                self.add_peek_lines(&mut out, k, lines);
            }
            proof {
                assert(strokes(out@) =~= head + self@.peek_body(w@, texts(lines@), now, k + 1));
            }
            k = k + 1;
        }
        proof {
            assert(strokes(out@) =~= self@.peek_panel(w@, texts(lines@), now));
        }
        out
    }

    /// Filters the triage list. Returns what it is painted of. `history` are the lines that
    /// scrolled away last of the selected session, and `tail` the last ones of its screen.
    pub fn render_peek<F: Face>(
        &mut self,
        cache: &mut GlyphCache<F>,
        history: &Vec<String>,
        tail: &Vec<String>,
        now: u64,
    ) -> (r: Vec<Stroke>)
        requires
            old(self)@.wf(),
            old(cache).wf(),
        ensures
            final(cache).extends(old(cache)),
            final(self)@ == old(self)@.peek_refreshed(now),
            final(self)@.wf(),
            covers_all(
                final(cache)@,
                final(self)@.peek_segs(),
                final(self)@.metrics.font_px,
            ),
            strokes(r@) == final(self)@.peek_panel(
                widths_of(
                    final(cache)@,
                    final(self)@.peek_segs(),
                    final(self)@.metrics.font_px,
                ),
                peek_preview(texts(history@), texts(tail@)),
                now,
            ),
    {
        self.peek_refresh_filter(now);
        let segs = self.peek_hosts();
        let w = text_widths(cache, &segs, self.metrics.font_px);
        let lines = preview_lines(history, tail);
        self.peek_strokes(&w, &lines, now)
    }
}

impl TabView {
    /// Why a pane is down, on its tile.
    pub open spec fn tile_reason(self) -> Seq<char> {
        if self.down() && trimmed(self.reason()).len() > 0 {
            " ("@ + trimmed(self.reason()) + ")"@
        } else {
            ""@
        }
    }
}

impl Tab {
    fn tile_reason(&self) -> (r: String)
        ensures
            r@ == self@.tile_reason(),
    {
        let why = trim(self.reason());
        if self.is_down() && !why.as_str().is_empty() {
            let mut s = copy_text(" (");
            s.append(why.as_str());
            s.append(")");
            s
        } else {
            copy_text("")
        }
    }
}

impl BoardView {
    /// The mark of a session on its tile: down, with news, or waiting and for how long. The tile in
    /// focus is being read.
    pub open spec fn tile_state(self, i: int, sel: bool, now: u64) -> Seq<char> {
        if self.tabs[i].down() {
            "○"@
        } else if !sel && self.unread(i) > 0 {
            "!"@ + dec(capped(self.unread(i)) as nat)
        } else if !sel && self.waits(i, now) {
            "⌛"@ + duration_text(self.parked(i, now))
        } else {
            ""@
        }
    }

    /// All marks of a session on its tile.
    pub open spec fn tile_marks(self, i: int, sel: bool, now: u64) -> Seq<char> {
        self.tile_state(i, sel, now) + either(self.recovering(i), "↻"@, ""@)
            + either(self.pinned(i), "🔒"@, ""@) + either(self.muted(i), "M"@, ""@)
            + tally("⏳"@, self.tabs[i].pending as int)
    }

    /// All marks of a session on its tile, with a space behind them.
    pub open spec fn tile_front(self, i: int, sel: bool, now: u64) -> Seq<char> {
        if self.tile_marks(i, sel, now).len() == 0 {
            ""@
        } else {
            self.tile_marks(i, sel, now) + " "@
        }
    }

    /// What stands above a tile.
    pub open spec fn tile_head(self, i: int, sel: bool, now: u64) -> Seq<char> {
        let t = self.tabs[i];
        "  "@ + dec((i + 1) as nat) + t.whereabouts() + either(self.marked(i), " ●"@, ""@) + "  "@
            + t.head() + either(sel, " ◄"@, ""@) + " "@ + self.tile_front(i, sel, now)
            + t.tile_reason()
    }

    /// The color of a tile: that of the session's state, else white for the one in focus.
    pub open spec fn tile_color(self, i: int, sel: bool, busy: bool, now: u64) -> Rgb {
        match state_color(
            self.tabs[i].down(),
            !sel && busy,
            !sel && self.waits(i, now),
            self.recovering(i),
        ) {
            Some(c) => c,
            None => if sel {
                WHITE
            } else {
                CHROME_DIM
            },
        }
    }
}

impl Board {
    fn tile_state(&self, i: usize, sel: bool, now: u64) -> (r: String)
        requires
            self@.wf(),
            i < self@.tabs.len(),
        ensures
            r@ == self@.tile_state(i as int, sel, now),
    {
        proof {
            assert(self@.tabs[i as int] == self.tabs@[i as int]@);
        }
        if self.tabs[i].is_down() {
            copy_text("○")
        } else if !sel && self.unread_of(i) > 0 {
            copy_text("!").concat(decimal(cap(self.unread_of(i)) as u64).as_str())
        } else if !sel && self.is_waiting(i, now) {
            copy_text("⌛").concat(fmt_duration(self.parked_secs(i, now)).as_str())
        } else {
            copy_text("")
        }
    }

    fn tile_front(&self, i: usize, sel: bool, now: u64) -> (r: String)
        requires
            self@.wf(),
            i < self@.tabs.len(),
        ensures
            r@ == self@.tile_front(i as int, sel, now),
    {
        proof {
            assert(self@.tabs[i as int] == self.tabs@[i as int]@);
        }
        let state = self.tile_state(i, sel, now);
        let mut s = state;
        s.append(pick_text(self.is_recovering(i), "↻", ""));
        s.append(pick_text(self.is_pinned(i), "🔒", ""));
        s.append(pick_text(self.is_muted(i), "M", ""));
        s.append(tally_text("⏳", self.tabs[i].pending).as_str());
        if !s.as_str().is_empty() {
            s.append(" ");
        }
        s
    }

    fn tile_head(&self, i: usize, sel: bool, now: u64) -> (r: String)
        requires
            self@.wf(),
            i < self@.tabs.len(),
        ensures
            r@ == self@.tile_head(i as int, sel, now),
    {
        let t = &self.tabs[i];
        proof {
            assert(self@.tabs[i as int] == t@);
        }
        let front = self.tile_front(i, sel, now);
        let why = t.tile_reason();
        let mut s = copy_text("  ");
        s.append(one_based(i).as_str());
        s.append(t.whereabouts().as_str());
        s.append(pick_text(self.is_marked(i), " ●", ""));
        s.append("  ");
        s.append(t.head());
        s.append(pick_text(sel, " ◄", ""));
        s.append(" ");
        s.append(front.as_str());
        s.append(why.as_str());
        s
    }

    fn tile_color(&self, i: usize, sel: bool, busy: bool, now: u64) -> (c: Rgb)
        requires
            i < self@.tabs.len(),
        ensures
            c == self@.tile_color(i as int, sel, busy, now),
    {
        proof {
            assert(self@.tabs[i as int] == self.tabs@[i as int]@);
        }
        match status_accent(
            self.tabs[i].is_down(),
            !sel && busy,
            !sel && self.is_waiting(i, now),
            self.is_recovering(i),
        ) {
            Some(c) => c,
            None => if sel {
                WHITE
            } else {
                CHROME_DIM
            },
        }
    }
}

/// Where a tile stands.
pub open spec fn tile_corner(t: Tiles, i: int) -> (int, int) {
    (
        clamped(t.x0 + clamped((i % t.cols as int) * clamped(t.tw + TILE_GAP))),
        clamped(t.y0 + clamped((i / t.cols as int) * clamped(t.th + TILE_GAP))),
    )
}

fn corner_of(t: &Tiles, i: usize) -> (r: (usize, usize))
    requires
        t.cols > 0,
    ensures
        (r.0 as int, r.1 as int) == tile_corner(*t, i as int),
{
    (
        plus(t.x0, times(i % t.cols, plus(t.tw, TILE_GAP))),
        plus(t.y0, times(i / t.cols, plus(t.th, TILE_GAP))),
    )
}

/// The edges of a box.
pub open spec fn edges(x: int, y: int, w: int, h: int, c: Rgb) -> Seq<StrokeView> {
    seq![
        StrokeView::Fill(x as usize, y as usize, 1, h as usize, c),
        StrokeView::Fill(clamped(x + less(w, 1)) as usize, y as usize, 1, h as usize, c),
        StrokeView::Fill(x as usize, y as usize, w as usize, 1, c),
        StrokeView::Fill(x as usize, clamped(y + less(h, 1)) as usize, w as usize, 1, c),
    ]
}

fn one_less(n: usize) -> (r: usize)
    ensures
        r == less(n as int, 1),
{
    if n < 1 {
        0
    } else {
        n - 1
    }
}

/// Adds the edges of a box.
pub fn add_edges(out: &mut Vec<Stroke>, x: usize, y: usize, w: usize, h: usize, c: Rgb)
    ensures
        strokes(final(out)@) == strokes(old(out)@) + edges(
            x as int,
            y as int,
            w as int,
            h as int,
            c,
        ),
{
    let ghost had = strokes(out@);
    lay(out, Stroke::Fill(x, y, 1, h, c));
    lay(out, Stroke::Fill(plus(x, one_less(w)), y, 1, h, c));
    lay(out, Stroke::Fill(x, y, w, 1, c));
    lay(out, Stroke::Fill(x, plus(y, one_less(h)), w, 1, c));
    proof {
        assert(strokes(out@) =~= had + edges(x as int, y as int, w as int, h as int, c));
    }
}

/// How many characters fit a tile.
pub open spec fn tile_room(m: Metrics, t: Tiles) -> int {
    less(
        t.tw as int / (if m.cell_w == 0 {
            1
        } else {
            m.cell_w as int
        }),
        2,
    )
}

fn room_of_tile(m: &Metrics, t: &Tiles) -> (r: usize)
    ensures
        r == tile_room(*m, *t),
{
    let n: usize = if m.cell_w == 0 {
        t.tw / 1
    } else {
        t.tw / m.cell_w
    };
    if n < 2 {
        0
    } else {
        n - 2
    }
}

/// The lines of a session on its tile: the newest at the bottom.
pub open spec fn tile_lines(
    m: Metrics,
    t: Tiles,
    at: (int, int),
    tail: Seq<Seq<char>>,
    fg: Rgb,
) -> Seq<StrokeView> {
    Seq::new(
        if tail.len() < 3 {
            tail.len()
        } else {
            3
        },
        |k: int|
            StrokeView::Text(
                clipped(tail[tail.len() - 1 - k], tile_room(m, t)),
                clamped(at.0 + 2) as usize,
                clamped(at.1 + clamped((k + 2) * m.cell_h)) as usize,
                fg,
            ),
    )
}

fn add_tile_lines(
    out: &mut Vec<Stroke>,
    m: &Metrics,
    t: &Tiles,
    at: (usize, usize),
    tail: &Vec<String>,
    fg: Rgb,
)
    ensures
        strokes(final(out)@) == strokes(old(out)@) + tile_lines(
            *m,
            *t,
            (at.0 as int, at.1 as int),
            texts(tail@),
            fg,
        ),
{
    let ghost had = strokes(out@);
    let ghost want = tile_lines(*m, *t, (at.0 as int, at.1 as int), texts(tail@), fg);
    let room: usize = room_of_tile(m, t);
    let n: usize = if tail.len() < 3 {
        tail.len()
    } else {
        3
    };
    let mut k: usize = 0;
    proof {
        assert(strokes(out@) =~= had + want.take(0));
    }
    while k < n
        invariant
            k <= n <= 3,
            n <= tail@.len(),
            n == want.len(),
            room == tile_room(*m, *t),
            want == tile_lines(*m, *t, (at.0 as int, at.1 as int), texts(tail@), fg),
            strokes(out@) == had + want.take(k as int),
        decreases n - k,
    {
        let line = clip_dots(tail[tail.len() - 1 - k].as_str(), room);
        lay(
            out,
            Stroke::Text(line, plus(at.0, 2), plus(at.1, times(k + 2, m.cell_h)), fg),
        );
        proof {
            assert(texts(tail@)[tail@.len() - 1 - k] == tail@[tail@.len() - 1 - k]@);
            assert(strokes(out@) =~= had + want.take(k + 1));
        }
        k = k + 1;
    }
    proof {
        assert(want.take(k as int) =~= want);
    }
}

/// The lines of a session by its number.
pub open spec fn tail_at(tails: Seq<Vec<String>>, i: int) -> Seq<Seq<char>> {
    if 0 <= i < tails.len() {
        texts(tails[i]@)
    } else {
        Seq::empty()
    }
}

impl ShellView {
    /// What stands above the fleet grid.
    pub open spec fn grid_heading(self) -> Seq<char> {
        "  fleet grid · "@ + dec(self.board.tabs.len() as nat) + " session"@
            + plural_s(self.board.tabs.len())
            + " · ↑/↓/PgUp/PgDn/1-9 select · n→next trouble · Space mark · b→broadcast · C→Ctrl-C · m mute · p pin · x/X→close sel/all · r/R→reconnect · Enter dive · Esc close  "@
    }

    /// Where the tiles stand.
    pub open spec fn tiling(self) -> Tiles {
        self.metrics.tiles(self.board.focus, self.board.tabs.len() as int)
    }

    /// What a tile is painted of.
    pub open spec fn tile(
        self,
        i: int,
        busy: Seq<bool>,
        tails: Seq<Vec<String>>,
        fg: Rgb,
        now: u64,
    ) -> Seq<StrokeView> {
        let t = self.tiling();
        let at = tile_corner(t, i);
        let sel = i == self.grid_sel;
        let c = self.board.tile_color(i, sel, i < busy.len() && busy[i], now);
        edges(at.0, at.1, t.tw as int, t.th as int, c).push(
            StrokeView::Text(
                clipped(self.board.tile_head(i, sel, now), tile_room(self.metrics, t)),
                clamped(at.0 + 2) as usize,
                clamped(at.1 + self.metrics.cell_h) as usize,
                c,
            ),
        ) + tile_lines(self.metrics, t, at, tail_at(tails, i), fg)
    }

    /// What the first `n` tiles are painted of, but for those below the window.
    pub open spec fn tile_strokes(
        self,
        busy: Seq<bool>,
        tails: Seq<Vec<String>>,
        fg: Rgb,
        now: u64,
        n: int,
    ) -> Seq<StrokeView>
        decreases n,
    {
        if n <= 0 {
            Seq::empty()
        } else {
            let front = self.tile_strokes(busy, tails, fg, now, n - 1);
            let t = self.tiling();
            if tile_corner(t, n - 1).1 + t.th > self.metrics.height {
                front
            } else {
                front + self.tile(n - 1, busy, tails, fg, now)
            }
        }
    }

    /// What the fleet grid is painted of. `busy` says which sessions printed something, and `tails`
    /// are the last lines of each, the newest first.
    pub open spec fn grid_panel(
        self,
        busy: Seq<bool>,
        tails: Seq<Vec<String>>,
        fg: Rgb,
        now: u64,
    ) -> Seq<StrokeView> {
        seq![
            StrokeView::Text(
                self.grid_heading(),
                32,
                clamped(self.metrics.top(self.board.focus) + 2) as usize,
                WHITE,
            ),
        ] + self.tile_strokes(busy, tails, fg, now, self.board.tabs.len() as int)
    }

    /// With the tile in focus among those there are.
    pub open spec fn grid_kept(self) -> ShellView {
        let n = self.board.tabs.len();
        ShellView {
            grid_sel: if n > 0 && self.grid_sel >= n {
                (n - 1) as usize
            } else {
                self.grid_sel
            },
            ..self
        }
    }
}

impl Shell {
    fn add_tile(
        &self,
        out: &mut Vec<Stroke>,
        t: &Tiles,
        i: usize,
        busy: &Vec<bool>,
        tails: &Vec<Vec<String>>,
        fg: Rgb,
        now: u64,
    )
        requires
            self@.wf(),
            i < self@.board.tabs.len(),
            *t == self@.tiling(),
            t.cols > 0,
        ensures
            strokes(final(out)@) == strokes(old(out)@) + self@.tile(i as int, busy@, tails@, fg, now),
    {
        let ghost had = strokes(out@);
        let at: (usize, usize) = corner_of(t, i);
        let sel = i == self.grid_sel;
        let on = i < busy.len() && busy[i];
        let c = self.board.tile_color(i, sel, on, now);
        add_edges(out, at.0, at.1, t.tw, t.th, c);
        let head = clip_dots(
            self.board.tile_head(i, sel, now).as_str(),
            room_of_tile(&self.metrics, t),
        );
        lay(out, Stroke::Text(head, plus(at.0, 2), plus(at.1, self.metrics.cell_h), c));
        if i < tails.len() {
            add_tile_lines(out, &self.metrics, t, at, &tails[i], fg);
        } else {
            proof {
                assert(tile_lines(
                    self.metrics,
                    *t,
                    (at.0 as int, at.1 as int),
                    Seq::empty(),
                    fg,
                ) =~= Seq::empty());
            }
        }
        proof {
            assert(strokes(out@) =~= had + self@.tile(i as int, busy@, tails@, fg, now));
        }
    }

    /// Keeps the focus among the tiles there are. Returns what the fleet grid is painted of.
    pub fn render_fleet_grid(
        &mut self,
        busy: &Vec<bool>,
        tails: &Vec<Vec<String>>,
        fg: Rgb,
        now: u64,
    ) -> (r: Vec<Stroke>)
        requires
            old(self)@.wf(),
        ensures
            final(self)@ == old(self)@.grid_kept(),
            final(self)@.wf(),
            strokes(r@) == final(self)@.grid_panel(busy@, tails@, fg, now),
    {
        let n: usize = self.board.tabs.len();
        if n > 0 && self.grid_sel >= n {
            self.grid_sel = n - 1;
        }
        self.tile_list(busy, tails, fg, now)
    }

    fn tile_list(
        &self,
        busy: &Vec<bool>,
        tails: &Vec<Vec<String>>,
        fg: Rgb,
        now: u64,
    ) -> (r: Vec<Stroke>)
        requires
            self@.wf(),
        ensures
            strokes(r@) == self@.grid_panel(busy@, tails@, fg, now),
    {
        let n: usize = self.board.tabs.len();
        let mut out: Vec<Stroke> = Vec::new();
        proof {
            assert(self@.board.tabs.len() == n);
        }
        let mut s = copy_text("  fleet grid · ");
        s.append(decimal(n as u64).as_str());
        s.append(" session");
        s.append(plural_end(n));
        s.append(" · ↑/↓/PgUp/PgDn/1-9 select · n→next trouble · Space mark · b→broadcast · C→Ctrl-C · m mute · p pin · x/X→close sel/all · r/R→reconnect · Enter dive · Esc close  ");
        let y: usize = plus(self.metrics.chrome_top(self.board.focus), 2);
        lay(&mut out, Stroke::Text(s, 32, y, WHITE));
        let ghost head = strokes(out@);
        let t: Tiles = self.metrics.fleet_grid_geom(self.board.focus, n);
        let mut i: usize = 0;
        proof {
            assert(strokes(out@) =~= head + self@.tile_strokes(busy@, tails@, fg, now, 0));
        }
        while i < n
            invariant
                i <= n,
                n == self.board.tabs@.len(),
                self@.wf(),
                t == self@.tiling(),
                t.cols > 0,
                strokes(out@) == head + self@.tile_strokes(busy@, tails@, fg, now, i as int),
            decreases n - i,
        {
            let at: (usize, usize) = corner_of(&t, i);
            if at.1 as u128 + t.th as u128 <= self.metrics.height as u128 {
                self.add_tile(&mut out, &t, i, busy, tails, fg, now);
            }
            proof {
                assert(strokes(out@) =~= head + self@.tile_strokes(
                    busy@,
                    tails@,
                    fg,
                    now,
                    i + 1,
                ));
            }
            i = i + 1;
        }
        proof {
            assert(strokes(out@) =~= self@.grid_panel(busy@, tails@, fg, now));
        }
        out
    }
}

/// A tile that lies wholly in the window is found under its own corner.
pub proof fn law_tile_under_corner(s: ShellView, i: int)
    requires
        0 <= i < s.board.tabs.len() <= usize::MAX,
        s.tiling().cols > 0,
        s.tiling().tw > 0,
        s.tiling().x0 + s.tiling().cols * (s.tiling().tw + TILE_GAP) < usize::MAX,
        0 < s.tiling().th < usize::MAX - TILE_GAP,
        tile_corner(s.tiling(), i).1 + s.tiling().th <= s.metrics.height,
    ensures
        ({
            let t = s.tiling();
            let at = tile_corner(t, i);
            crate::triage::tile_at(
                at.0,
                at.1,
                t.x0 as int,
                t.y0 as int,
                t.tw as int,
                t.th as int,
                t.cols as int,
                t.n as int,
                t.height as int,
            ) == Some(i)
        }),
{
    let t = s.tiling();
    let (w, h, n) = (t.tw + TILE_GAP, t.th + TILE_GAP, t.cols as int);
    let (c, r) = (i % n, i / n);
    vstd::arithmetic::div_mod::lemma_fundamental_div_mod(i, n);
    vstd::arithmetic::div_mod::lemma_div_pos_is_pos(i, n);
    assert(0 <= c < n);
    assert(0 <= c * w <= n * w) by (nonlinear_arith)
        requires
            0 <= c < n,
            0 < w,
    ;
    assert(0 <= r * h) by (nonlinear_arith)
        requires
            0 <= r,
            0 < h,
    ;
    assert(c * w / w == c && (c * w) % w == 0) by (nonlinear_arith)
        requires
            0 < w,
    ;
    assert(r * h / h == r && (r * h) % h == 0) by (nonlinear_arith)
        requires
            0 < h,
    ;
    assert(r * n + c == i) by (nonlinear_arith)
        requires
            i == n * r + c,
    ;
    assert(w <= n * w) by (nonlinear_arith)
        requires
            1 <= n,
            0 < w,
    ;
    assert(tile_corner(t, i) == (t.x0 + c * w, t.y0 + r * h));
}

} // verus!
