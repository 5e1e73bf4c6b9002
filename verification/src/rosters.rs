//! The panels that list: sessions to jump to, the fleet, what a search found, machines and their
//! sessions, and whom a broadcast goes to.

use vstd::prelude::*;
use vstd::string::*;

use crate::activity::{idle, idle_ms, quiet, quiet_for};
use crate::board::{Board, BoardView};
use crate::finding::{kept, keep_within, Hunt, HuntView};
use crate::geometry::{less, Metrics};
use crate::glyph::{keeps, Face, GlyphCache};
use crate::lettering::{char_width, covers, prepare_text};
use crate::lists::{fleet_mask, FleetRow, FleetRowView};
use crate::machines::{
    agents_on, format_engine_mix, host_engine_breakdown, host_mark, host_state, lemma_mix_said,
    live_on, mix_said,
};
use crate::paint::{Bitmap, Rgb};
use crate::prompts::{plural_end, plural_s};
use crate::seqs::{indices_set, ints, lemma_set_indices, set_indices};
use crate::search::FleetMatch;
use crate::shell::{Cast, CastView, FleetList, FleetListView, Shell, ShellView};
use crate::strokes::{put_row, rows, said, Row, RowView, CHROME_LIVE};
use crate::tabs::{
    agent_rows, agent_tabs, first_said, session_row, session_row_label, session_tail_preview, Tab,
    TabView,
};
use crate::text::{
    chars_of, copy_text, dec, decimal, same_text, string_from, texts, trim, trim_back, trim_end,
    trimmed,
};
use crate::triage::{list_top, scroll_top, CHROME_DIM, CHROME_ERR, WHITE};
use crate::words::{clip_dots, clipped, focus_snippet, pad, padded, snippet};

verus! {

/// How many rows of a list are seen below the first one in view.
pub open spec fn seen_rows(total: int, top: int, room: int) -> int {
    if total - top < room {
        total - top
    } else {
        room
    }
}

fn rows_in_view(total: usize, top: usize, room: usize) -> (n: usize)
    requires
        top <= total,
    ensures
        n == seen_rows(total as int, top as int, room as int),
{
    if total - top < room {
        total - top
    } else {
        room
    }
}

/// The color of a row, as it is selected or not.
pub open spec fn row_color(sel: bool) -> Rgb {
    if sel {
        WHITE
    } else {
        CHROME_DIM
    }
}

fn color_of_row(sel: bool) -> (c: Rgb)
    ensures
        c == row_color(sel),
{
    if sel {
        WHITE
    } else {
        CHROME_DIM
    }
}

/// One text or another.
pub open spec fn either(b: bool, yes: Seq<char>, no: Seq<char>) -> Seq<char> {
    if b {
        yes
    } else {
        no
    }
}

/// One text or another.
pub fn pick_text<'a>(b: bool, yes: &'a str, no: &'a str) -> (r: &'a str)
    ensures
        r@ == either(b, yes@, no@),
{
    if b {
        yes
    } else {
        no
    }
}

/// How many are set.
pub open spec fn how_many(mask: Seq<bool>) -> nat {
    set_indices(mask).len()
}

/// How many are set.
pub fn count_set(mask: &Vec<bool>) -> (n: usize)
    ensures
        n == how_many(mask@),
        n <= mask@.len(),
{
    let list = indices_set(mask.as_slice());
    proof {
        lemma_set_indices(mask@);
        assert(ints(list@).len() == list@.len());
    }
    list.len()
}

impl BoardView {
    /// Whether a tab waits for the user.
    pub open spec fn waits(self, i: int, now: u64) -> bool {
        0 <= i < self.slots.len() && i < self.tabs.len() && quiet(
            self.slots[i],
            self.tabs[i].seen,
            i == self.active,
            now,
            self.quiet_after,
        )
    }

    /// How many seconds a tab has been silent.
    pub open spec fn parked(self, i: int, now: u64) -> int {
        idle(self.slots[i], now) / 1000
    }

    /// Whether a tab is muted.
    pub open spec fn muted(self, i: int) -> bool {
        0 <= i < self.slots.len() && self.slots[i].muted
    }

    /// Whether a tab grew when it was last sampled.
    pub open spec fn growing(self, i: int) -> bool {
        0 <= i < self.slots.len() && self.slots[i].grew > 0
    }
}

impl Board {
    /// Whether a tab waits for the user.
    pub fn is_waiting(&self, i: usize, now: u64) -> (r: bool)
        ensures
            r == self@.waits(i as int, now),
    {
        if i < self.slots.len() && i < self.tabs.len() {
            proof {
                assert(self@.tabs[i as int] == self.tabs@[i as int]@);
            }
            quiet_for(
                &self.slots[i],
                &self.tabs[i].seen,
                i == self.active,
                now,
                self.quiet_after,
            )
        } else {
            false
        }
    }

    /// Whether a tab is muted.
    pub fn is_muted(&self, i: usize) -> (r: bool)
        ensures
            r == self@.muted(i as int),
    {
        i < self.slots.len() && self.slots[i].muted
    }

    /// Whether a tab grew when it was last sampled.
    pub fn is_growing(&self, i: usize) -> (r: bool)
        ensures
            r == self@.growing(i as int),
    {
        i < self.slots.len() && self.slots[i].grew > 0
    }

    /// How many seconds a tab has been silent.
    pub fn parked_secs(&self, i: usize, now: u64) -> (r: u64)
        requires
            i < self@.slots.len(),
        ensures
            r == self@.parked(i as int, now),
    {
        idle_ms(&self.slots[i], now) / 1000
    }
}

impl BoardView {
    /// What a tab is up to, in the list of sessions to jump to: down, busy or waiting; pinned;
    /// muted.
    pub open spec fn jump_flags(self, i: int, now: u64) -> Seq<char> {
        either(
            !self.tabs[i].seen.alive,
            "○"@,
            either(self.growing(i), "!"@, either(self.waits(i, now), "⌛"@, " "@)),
        )
            + either(self.pinned(i), "🔒"@, " "@) + either(self.muted(i), "M"@, " "@)
    }

    /// A tab's row in the list of sessions to jump to.
    pub open spec fn jump_row(self, i: int, slot: int, sel: bool, now: u64) -> RowView {
        let t = self.tabs[i];
        RowView {
            text: "  "@ + self.jump_flags(i, now) + " "@ + t.host + " · "@ + t.head() + " · "@
                + t.title + "  "@ + either(sel, "◄"@, ""@),
            slot: slot as usize,
            color: row_color(sel),
            lit: sel,
        }
    }
}

impl Board {
    fn flags_of(&self, i: usize, now: u64) -> (r: String)
        requires
            i < self@.tabs.len(),
        ensures
            r@ == self@.jump_flags(i as int, now),
    {
        proof {
            assert(self@.tabs[i as int] == self.tabs@[i as int]@);
        }
        let waiting = pick_text(self.is_waiting(i, now), "⌛", " ");
        let living = pick_text(self.is_growing(i), "!", waiting);
        let mut s = copy_text(pick_text(!self.tabs[i].seen.alive, "○", living));
        s.append(pick_text(self.is_pinned(i), "🔒", " "));
        s.append(pick_text(self.is_muted(i), "M", " "));
        s
    }
}

impl ShellView {
    /// The lines of the list of sessions to jump to, of those the query leaves.
    pub open spec fn jump_panel(self, filtered: Seq<usize>, now: u64) -> Seq<RowView> {
        let top = list_top(filtered.len() as int, self.selected as int, 12);
        seq![said("🔍 "@ + self.jump.query, 0, WHITE)] + Seq::new(
            seen_rows(filtered.len() as int, top, 12) as nat,
            |k: int|
                self.board.jump_row(
                    filtered[top + k] as int,
                    k + 1,
                    top + k == self.selected,
                    now,
                ),
        )
    }
}

impl Shell {
    /// The lines of the list of sessions to jump to.
    pub fn render_palette(&self, filtered: &Vec<usize>, now: u64) -> (r: Vec<Row>)
        requires
            forall|k: int| 0 <= k < filtered@.len() ==> #[trigger] filtered@[k]
                < self@.board.tabs.len(),
        ensures
            rows(r@) == self@.jump_panel(filtered@, now),
    {
        let mut out: Vec<Row> = Vec::new();
        let mut s = copy_text("🔍 ");
        s.append(self.jump.query.as_str());
        put_row(&mut out, s, 0, WHITE, false);
        let ghost head = rows(out@);
        let total: usize = filtered.len();
        let top: usize = scroll_top(total, self.selected, 12);
        let n: usize = rows_in_view(total, top, 12);
        let ghost want = Seq::new(
            n as nat,
            |k: int|
                self@.board.jump_row(
                    filtered@[top + k] as int,
                    k + 1,
                    top + k == self.selected,
                    now,
                ),
        );
        let mut k: usize = 0;
        proof {
            assert(rows(out@) =~= head + want.take(0));
        }
        while k < n
            invariant
                k <= n,
                top + n <= total,
                n <= 12,
                total == filtered@.len(),
                forall|k: int| 0 <= k < filtered@.len() ==> #[trigger] filtered@[k] < self@.board.tabs.len(),
                want == Seq::new(
                    n as nat,
                    |k: int|
                        self@.board.jump_row(
                            filtered@[top + k] as int,
                            k + 1,
                            top + k == self.selected,
                            now,
                        ),
                ),
                rows(out@) == head + want.take(k as int),
            decreases n - k,
        {
            let i: usize = filtered[top + k];
            let sel = top + k == self.selected;
            proof {
                assert(filtered@[top + k] < self@.board.tabs.len());
                assert(self@.board.tabs[i as int] == self.board.tabs@[i as int]@);
            }
            let t = &self.board.tabs[i];
            let flags = self.board.flags_of(i, now);
            let mut s = copy_text("  ");
            s.append(flags.as_str());
            s.append(" ");
            s.append(t.host.as_str());
            s.append(" · ");
            s.append(t.head());
            s.append(" · ");
            s.append(t.title.as_str());
            s.append("  ");
            s.append(pick_text(sel, "◄", ""));
            put_row(&mut out, s, k + 1, color_of_row(sel), sel);
            proof {
                assert(rows(out@) =~= head + want.take(k + 1));
            }
            k = k + 1;
        }
        proof {
            assert(want.take(k as int) =~= want);
        }
        proof {
            assert(head =~= seq![said("🔍 "@ + self@.jump.query, 0, WHITE)]);
            assert(rows(out@) =~= self@.jump_panel(filtered@, now));
        }
        out
    }
}

/// The front of a text, in at most `max` characters.
pub open spec fn front_of(s: Seq<char>, max: int) -> Seq<char> {
    if s.len() <= max {
        s
    } else {
        s.take(max)
    }
}

/// The front of a text, in at most `max` characters.
pub fn cut(s: &str, max: usize) -> (r: String)
    ensures
        r@ == front_of(s@, max as int),
{
    let v = chars_of(s);
    if v.len() <= max {
        copy_text(s)
    } else {
        let r = string_from(&v, 0, max);
        proof {
            assert(r@ =~= s@.take(max as int));
        }
        r
    }
}

/// What a machine is called by its number.
pub open spec fn machine_tag(id: Seq<char>) -> Seq<char> {
    if id.len() == 0 {
        "unknown"@
    } else {
        front_of(id, 6)
    }
}

/// How many rows of a list are out of view.
pub open spec fn hidden_note(above: int, below: int) -> Seq<char> {
    if above == 0 && below == 0 {
        ""@
    } else if above == 0 {
        " · ▼"@ + dec(below as nat) + " below"@
    } else if below == 0 {
        " · ▲"@ + dec(above as nat) + " above"@
    } else {
        " · ▲"@ + dec(above as nat) + " ▼"@ + dec(below as nat)
    }
}

fn hidden_text(above: usize, below: usize) -> (r: String)
    ensures
        r@ == hidden_note(above as int, below as int),
{
    if above == 0 && below == 0 {
        copy_text("")
    } else if above == 0 {
        let mut s = copy_text(" · ▼");
        s.append(decimal(below as u64).as_str());
        s.append(" below");
        s
    } else if below == 0 {
        let mut s = copy_text(" · ▲");
        s.append(decimal(above as u64).as_str());
        s.append(" above");
        s
    } else {
        let mut s = copy_text(" · ▲");
        s.append(decimal(above as u64).as_str());
        s.append(" ▼");
        s.append(decimal(below as u64).as_str());
        s
    }
}

impl FleetRowView {
    /// A session's line in the fleet.
    pub open spec fn line(self, sel: bool) -> Seq<char> {
        let r = self;
        "  "@ + either(r.live, "●"@, "○"@) + " "@ + either(r.engine.len() == 0, "?"@, r.engine)
            + "  "@ + padded(clipped(r.name, 12), 12) + " "@
            + (if r.session_id.len() == 0 { r.tmux_pane } else { front_of(r.session_id, 8) })
            + either(sel, "  ◄"@, ""@)
    }
}

impl FleetRow {
    fn line(&self, sel: bool) -> (r: String)
        ensures
            r@ == self@.line(sel),
    {
        let r = self;
        let id = if r.session_id.as_str().is_empty() {
            copy_text(r.tmux_pane.as_str())
        } else {
            cut(r.session_id.as_str(), 8)
        };
        let mut s = copy_text("  ");
        s.append(pick_text(r.live, "●", "○"));
        s.append(" ");
        s.append(pick_text(r.engine.as_str().is_empty(), "?", r.engine.as_str()));
        s.append("  ");
        s.append(pad(clip_dots(r.name.as_str(), 12).as_str(), 12).as_str());
        s.append(" ");
        s.append(id.as_str());
        s.append(pick_text(sel, "  ◄", ""));
        s
    }
}

impl FleetListView {
    /// The query, where there is one.
    pub open spec fn query_note(self) -> Seq<char> {
        if self.query.len() == 0 {
            ""@
        } else {
            "/"@ + self.query + " "@
        }
    }

    /// A row of those the query leaves.
    pub open spec fn row(self, row: int, slot: int, sel: bool) -> RowView {
        let r = self.rows[self.shown[row]];
        RowView {
            text: r.line(sel),
            slot: slot as usize,
            color: if sel {
                WHITE
            } else if r.live {
                CHROME_LIVE
            } else {
                CHROME_DIM
            },
            lit: sel,
        }
    }

    /// What stands above the fleet: the machine, the tunnel, how many sessions there are.
    pub open spec fn heading(self, id: Seq<char>, up: bool, top: int) -> Seq<char> {
        "  fleet · "@ + machine_tag(id) + " · "@ + either(up, "tunnel up"@, "tunnel down"@) + " · "@
            + dec(self.rows.len() as nat) + " session"@ + plural_s(self.rows.len()) + " · "@
            + hidden_note(top, less(self.shown.len() as int, top + 20)) + self.query_note()
            + "type to filter · Up/Down+Enter to dive  "@
    }

    /// The lines of the fleet.
    pub open spec fn panel(self, id: Seq<char>, up: bool, selected: usize) -> Seq<RowView> {
        let total = self.shown.len() as int;
        let top = list_top(total, selected as int, 20);
        let head = seq![said(self.heading(id, up, top), 0, WHITE)];
        if self.rows.len() == 0 {
            head.push(
                said(
                    "  no harness sessions (daemon unreachable or nothing joined)  "@,
                    1,
                    CHROME_DIM,
                ),
            )
        } else if total == 0 && self.query.len() > 0 {
            head.push(said("  no sessions match  "@, 1, CHROME_DIM))
        } else {
            head + Seq::new(
                seen_rows(total, top, 20) as nat,
                |k: int| self.row(top + k, k + 1, top + k == selected),
            )
        }
    }
}

impl FleetList {
    /// Filters the rows by the query. Returns the lines of the fleet.
    pub fn render(&mut self, id: &str, up: bool, selected: usize) -> (r: Vec<Row>)
        ensures
            final(self)@ == old(self)@.refreshed(),
            rows(r@) == old(self)@.refreshed().panel(id@, up, selected),
    {
        self.refresh();
        proof {
            lemma_set_indices(fleet_mask(self@.rows, self@.query));
            assert forall|k: int| 0 <= k < self.shown@.len() implies #[trigger] self.shown@[k]
                < self.rows@.len() by {
                assert(self@.shown[k] == self.shown@[k]);
            }
        }
        self.shown_rows(id, up, selected)
    }

    fn heading(&self, id: &str, up: bool, top: usize) -> (r: String)
        ensures
            r@ == self@.heading(id@, up, top as int),
    {
        let all: usize = self.rows.len();
        let total: usize = self.shown.len();
        let tag = if id.is_empty() {
            copy_text("unknown")
        } else {
            cut(id, 6)
        };
        let below: usize = if total as u128 <= top as u128 + 20 {
            0
        } else {
            total - top - 20
        };
        let note = hidden_text(top, below);
        let q = if self.query.as_str().is_empty() {
            copy_text("")
        } else {
            let mut s = copy_text("/");
            s.append(self.query.as_str());
            s.append(" ");
            s
        };
        proof {
            assert(self@.shown.len() == total);
            assert(self@.rows.len() == all);
        }
        let mut s = copy_text("  fleet · ");
        s.append(tag.as_str());
        s.append(" · ");
        s.append(pick_text(up, "tunnel up", "tunnel down"));
        s.append(" · ");
        s.append(decimal(all as u64).as_str());
        s.append(" session");
        s.append(plural_end(all));
        s.append(" · ");
        s.append(note.as_str());
        s.append(q.as_str());
        s.append("type to filter · Up/Down+Enter to dive  ");
        s
    }

    fn shown_rows(&self, id: &str, up: bool, selected: usize) -> (r: Vec<Row>)
        requires
            forall|k: int| 0 <= k < self.shown@.len() ==> #[trigger] self.shown@[k]
                < self.rows@.len(),
        ensures
            rows(r@) == self@.panel(id@, up, selected),
    {
        let total: usize = self.shown.len();
        let top: usize = scroll_top(total, selected, 20);
        let mut out: Vec<Row> = Vec::new();
        proof {
            assert(self@.shown.len() == total);
            assert(self@.rows.len() == self.rows@.len());
        }
        let s = self.heading(id, up, top);
        let ghost line = s@;
        put_row(&mut out, s, 0, WHITE, false);
        let ghost head = rows(out@);
        proof {
            assert(head =~= seq![said(line, 0, WHITE)]);
        }
        if self.rows.len() == 0 {
            put_row(
                &mut out,
                copy_text("  no harness sessions (daemon unreachable or nothing joined)  "),
                1,
                CHROME_DIM,
                false,
            );
            return out;
        }
        if total == 0 && !self.query.as_str().is_empty() {
            put_row(&mut out, copy_text("  no sessions match  "), 1, CHROME_DIM, false);
            return out;
        }
        let n: usize = rows_in_view(total, top, 20);
        let ghost want = Seq::new(n as nat, |k: int| self@.row(top + k, k + 1, top + k == selected));
        let mut k: usize = 0;
        proof {
            assert(rows(out@) =~= head + want.take(0));
        }
        while k < n
            invariant
                k <= n,
                top + n <= total,
                n <= 20,
                total == self.shown@.len(),
                forall|k: int| 0 <= k < self.shown@.len() ==> #[trigger] self.shown@[k] < self.rows@.len(),
                want == Seq::new(n as nat, |k: int| self@.row(top + k, k + 1, top + k == selected)),
                rows(out@) == head + want.take(k as int),
            decreases n - k,
        {
            let i: usize = self.shown[top + k];
            let sel = top + k == selected;
            let color = if sel {
                WHITE
            } else if self.rows[i].live {
                CHROME_LIVE
            } else {
                CHROME_DIM
            };
            proof {
                assert(self@.shown[top + k] == i);
                assert(self@.rows[i as int] == self.rows@[i as int]@);
            }
            put_row(&mut out, self.rows[i].line(sel), k + 1, color, sel);
            proof {
                assert(rows(out@) =~= head + want.take(k + 1));
            }
            k = k + 1;
        }
        proof {
            assert(want.take(k as int) =~= want);
        }
        out
    }
}

impl TabView {
    /// What the session is called, and the agent where the name hides it.
    pub open spec fn full_name(self) -> Seq<char> {
        if self.head() != self.engine {
            self.head() + " ("@ + self.engine + ")"@
        } else {
            self.head()
        }
    }

    /// What the session is called, and the machine where there is one.
    pub open spec fn full_label(self) -> Seq<char> {
        if self.host.len() == 0 {
            self.full_name()
        } else {
            self.full_name() + "@"@ + self.host
        }
    }
}

impl Tab {
    /// What the session is called, and the agent where the name hides it.
    pub fn full_name(&self) -> (r: String)
        ensures
            r@ == self@.full_name(),
    {
        if same_text(self.head(), self.engine.as_str()) {
            copy_text(self.head())
        } else {
            let mut s = copy_text(self.head());
            s.append(" (");
            s.append(self.engine.as_str());
            s.append(")");
            s
        }
    }

    /// What the session is called, and the machine where there is one.
    pub fn full_label(&self) -> (r: String)
        ensures
            r@ == self@.full_label(),
    {
        let mut s = self.full_name();
        if !self.host.as_str().is_empty() {
            s.append("@");
            s.append(self.host.as_str());
        }
        s
    }
}

/// How many characters of a line that was found fit behind a label of so many.
pub open spec fn hit_room(m: Metrics, label: int) -> int {
    let cells = less(m.width as int, 48) / (if m.cell_w == 0 {
        1
    } else {
        m.cell_w as int
    });
    let room = less(cells, label + 7);
    if room < 8 {
        8
    } else {
        room
    }
}

fn room_for_hit(m: &Metrics, label: usize) -> (r: usize)
    ensures
        r == hit_room(*m, label as int),
{
    let w: usize = if m.width < 48 {
        0
    } else {
        m.width - 48
    };
    let cells: usize = if m.cell_w == 0 {
        w / 1
    } else {
        w / m.cell_w
    };
    let room: usize = if cells <= 7 || cells - 7 <= label {
        0
    } else {
        cells - 7 - label
    };
    if room < 8 {
        8
    } else {
        room
    }
}

/// The part of a line that was found around the match.
pub open spec fn hit_snippet(raw: Seq<char>, col: usize, room: int) -> Seq<char> {
    if trimmed(raw).len() == 0 {
        "(blank line)"@
    } else {
        snippet(trim_back(raw), col as int, room)
    }
}

/// A match's line in what a search over all sessions found.
pub open spec fn hit_line(t: TabView, raw: Seq<char>, col: usize, sel: bool, m: Metrics) -> Seq<char> {
    "  ["@ + t.full_label() + "] "@ + either(sel, "◄"@, " "@) + "  "@
        + hit_snippet(raw, col, hit_room(m, t.full_label().len() as int))
}

fn hit_text(t: &Tab, raw: &str, col: usize, sel: bool, m: &Metrics) -> (r: String)
    ensures
        r@ == hit_line(t@, raw@, col, sel, *m),
{
    let label = t.full_label();
    let n: usize = chars_of(label.as_str()).len();
    let bit = if trim(raw).as_str().is_empty() {
        copy_text("(blank line)")
    } else {
        focus_snippet(trim_end(raw).as_str(), col, room_for_hit(m, n))
    };
    let mut s = copy_text("  [");
    s.append(label.as_str());
    s.append("] ");
    s.append(pick_text(sel, "◄", " "));
    s.append("  ");
    s.append(bit.as_str());
    s
}

/// The text of a line by its number, and nothing for one that is gone.
pub open spec fn line_at(lines: Seq<Seq<char>>, k: int) -> Seq<char> {
    if 0 <= k < lines.len() {
        lines[k]
    } else {
        ""@
    }
}

impl HuntView {
    /// The matches in view.
    pub open spec fn in_view(self) -> int {
        if self.query.len() == 0 {
            0
        } else if self.matches.len() < 8 {
            self.matches.len() as int
        } else {
            8
        }
    }

    /// The matches in view, in order.
    pub open spec fn hits_in_view(self) -> Seq<FleetMatch> {
        let top = list_top(self.matches.len() as int, self.sel as int, self.in_view());
        Seq::new(self.in_view() as nat, |k: int| self.matches[top + k])
    }

    /// What stands above the matches.
    pub open spec fn heading(self, tabs: int) -> RowView {
        if self.query.len() == 0 {
            said("  search all sessions: (type to match every tab)  "@, 0, CHROME_DIM)
        } else if self.matches.len() == 0 {
            said("  search all sessions: "@ + self.query + "  (no matches)"@, 0, CHROME_DIM)
        } else {
            said(
                "  search all sessions: "@ + self.query + "  · "@ + dec(self.matches.len() as nat)
                    + " match"@ + either(self.matches.len() == 1, ""@, "es"@) + " across "@
                    + dec(tabs as nat) + " tab"@ + plural_s(tabs as nat) + " · showing "@
                    + dec((self.sel as int % self.matches.len() as int + 1) as nat) + " of "@
                    + dec(self.matches.len() as nat) + "  "@,
                0,
                WHITE,
            )
        }
    }

    /// The lines of the first `n` matches in view, but for those whose session is gone. `raw` are
    /// the lines that were found.
    pub open spec fn hit_rows(
        self,
        tabs: Seq<TabView>,
        raw: Seq<Seq<char>>,
        m: Metrics,
        n: int,
    ) -> Seq<RowView>
        decreases n,
    {
        if n <= 0 {
            Seq::empty()
        } else {
            let front = self.hit_rows(tabs, raw, m, n - 1);
            let row = list_top(self.matches.len() as int, self.sel as int, self.in_view()) + n - 1;
            let hit = self.matches[row];
            let sel = row == self.sel;
            if hit.tab < tabs.len() {
                front.push(
                    said(
                        hit_line(tabs[hit.tab as int], line_at(raw, n - 1), hit.col, sel, m),
                        n,
                        row_color(sel),
                    ),
                )
            } else {
                front
            }
        }
    }

    /// The lines of what a search over all sessions found.
    pub open spec fn panel(
        self,
        tabs: Seq<TabView>,
        raw: Seq<Seq<char>>,
        m: Metrics,
    ) -> Seq<RowView> {
        seq![self.heading(tabs.len() as int)] + self.hit_rows(tabs, raw, m, self.in_view())
    }
}

impl Hunt {
    fn heading(&self, tabs: usize) -> (r: (String, Rgb))
        ensures
            said(r.0@, 0, r.1) == self@.heading(tabs as int),
    {
        let n: usize = self.matches.len();
        if self.query.as_str().is_empty() {
            (copy_text("  search all sessions: (type to match every tab)  "), CHROME_DIM)
        } else if n == 0 {
            let mut s = copy_text("  search all sessions: ");
            s.append(self.query.as_str());
            s.append("  (no matches)");
            (s, CHROME_DIM)
        } else {
            let mut s = copy_text("  search all sessions: ");
            s.append(self.query.as_str());
            s.append("  · ");
            s.append(decimal(n as u64).as_str());
            s.append(" match");
            s.append(pick_text(n == 1, "", "es"));
            s.append(" across ");
            s.append(decimal(tabs as u64).as_str());
            s.append(" tab");
            s.append(plural_end(tabs));
            s.append(" · showing ");
            s.append(decimal((self.sel % n) as u64 + 1).as_str());
            s.append(" of ");
            s.append(decimal(n as u64).as_str());
            s.append("  ");
            (s, WHITE)
        }
    }

    /// The matches in view, in order.
    pub fn hits_in_view(&self) -> (r: Vec<FleetMatch>)
        ensures
            r@ == self@.hits_in_view(),
    {
        let total: usize = self.matches.len();
        let n: usize = if self.query.as_str().is_empty() {
            0
        } else if total < 8 {
            total
        } else {
            8
        };
        let mut out: Vec<FleetMatch> = Vec::new();
        if n == 0 {
            return out;
        }
        let top: usize = scroll_top(total, self.sel, n);
        let mut k: usize = 0;
        while k < n
            invariant
                k <= n <= 8,
                n == self@.in_view(),
                total == self.matches@.len(),
                0 < n <= total,
                top == list_top(total as int, self.sel as int, n as int),
                out@ == self@.hits_in_view().take(k as int),
            decreases n - k,
        {
            out.push(self.matches[top + k]);
            proof {
                assert(out@ =~= self@.hits_in_view().take(k + 1));
            }
            k = k + 1;
        }
        out
    }

    /// The lines of what a search over all sessions found. `raw` are the lines of the matches in
    /// view, empty for one that scrolled away.
    pub fn render(&self, tabs: &Vec<Tab>, raw: &Vec<String>, m: &Metrics) -> (r: Vec<Row>)
        ensures
            rows(r@) == self@.panel(crate::tabs::tab_views(tabs@), texts(raw@), *m),
    {
        let ghost views = crate::tabs::tab_views(tabs@);
        let mut out: Vec<Row> = Vec::new();
        let (s, color) = self.heading(tabs.len());
        let ghost first = said(s@, 0, color);
        put_row(&mut out, s, 0, color, false);
        let ghost head = rows(out@);
        let total: usize = self.matches.len();
        let n: usize = if self.query.as_str().is_empty() {
            0
        } else if total < 8 {
            total
        } else {
            8
        };
        let top: usize = if n == 0 {
            0
        } else {
            scroll_top(total, self.sel, n)
        };
        let mut k: usize = 0;
        proof {
            assert(head =~= seq![first]);
            assert(rows(out@) =~= head + self@.hit_rows(views, texts(raw@), *m, 0));
        }
        while k < n
            invariant
                k <= n <= 8,
                n == self@.in_view(),
                total == self.matches@.len(),
                n <= total,
                n > 0 ==> top == list_top(total as int, self.sel as int, n as int),
                views == crate::tabs::tab_views(tabs@),
                rows(out@) == head + self@.hit_rows(views, texts(raw@), *m, k as int),
            decreases n - k,
        {
            let row: usize = top + k;
            let hit = self.matches[row];
            let sel = row == self.sel;
            let ghost had = rows(out@);
            if hit.tab < tabs.len() {
                let line = if k < raw.len() {
                    raw[k].as_str()
                } else {
                    ""
                };
                proof {
                    if k < raw.len() {
                        assert(texts(raw@)[k as int] == raw@[k as int]@);
                    }
                    assert(views[hit.tab as int] == tabs@[hit.tab as int]@);
                }
                let text = hit_text(&tabs[hit.tab], line, hit.col, sel, m);
                put_row(&mut out, text, k + 1, color_of_row(sel), false);
            }
            proof {
                assert(rows(out@) =~= head + self@.hit_rows(views, texts(raw@), *m, k + 1));
            }
            k = k + 1;
        }
        out
    }
}

/// How much of a broadcast has to wait.
pub open spec fn queue_note(queued: nat) -> Seq<char> {
    if queued > 0 {
        " · ⏳"@ + dec(queued as nat) + " queued"@
    } else {
        ""@
    }
}

impl CastView {
    /// Which of the lines that were sent is recalled.
    pub open spec fn recall_note(self) -> Seq<char> {
        if self.recall is Some && self.history.len() > 0 {
            " ⇧↑ "@ + dec((self.recall->0 + 1) as nat) + "/"@ + dec(self.history.len() as nat)
        } else {
            ""@
        }
    }

    /// What stands above the targets: how many there are, how many of them have to wait, the line.
    pub open spec fn heading(self, n: nat, all: nat, queued: nat) -> Seq<char> {
        if self.query.len() == 0 {
            "  send line to "@ + dec(n as nat) + " of "@ + dec(all as nat) + " session"@
                + plural_s(n) + queue_note(queued)
                + " (↑/↓ focus · PgUp/Dn page · Space=toggle · ⇧Space=all · ⇧↑/⇧↓ history · Enter=broadcast · Esc=cancel)  "@
        } else {
            "  broadcast to "@ + dec(n as nat) + " session"@ + plural_s(n) + queue_note(queued)
                + self.recall_note() + ": "@ + self.query + " ▏"@
        }
    }
}

impl Cast {
    fn heading(&self, n: usize, all: usize, queued: usize) -> (r: String)
        ensures
            r@ == self@.heading(n as nat, all as nat, queued as nat),
    {
        let tag = if queued > 0 {
            let mut s = copy_text(" · ⏳");
            s.append(decimal(queued as u64).as_str());
            s.append(" queued");
            s
        } else {
            copy_text("")
        };
        if self.query.as_str().is_empty() {
            let mut s = copy_text("  send line to ");
            s.append(decimal(n as u64).as_str());
            s.append(" of ");
            s.append(decimal(all as u64).as_str());
            s.append(" session");
            s.append(plural_end(n));
            s.append(tag.as_str());
            s.append(" (↑/↓ focus · PgUp/Dn page · Space=toggle · ⇧Space=all · ⇧↑/⇧↓ history · Enter=broadcast · Esc=cancel)  ");
            return s;
        }
        let past = match self.recall {
            Some(i) => {
                if self.history.len() > 0 {
                    self.recall_text(i)
                } else {
                    copy_text("")
                }
            },
            None => copy_text(""),
        };
        let mut s = copy_text("  broadcast to ");
        s.append(decimal(n as u64).as_str());
        s.append(" session");
        s.append(plural_end(n));
        s.append(tag.as_str());
        s.append(past.as_str());
        s.append(": ");
        s.append(self.query.as_str());
        s.append(" ▏");
        s
    }

    fn recall_text(&self, i: usize) -> (r: String)
        requires
            self.recall == Some(i),
            self.history@.len() > 0,
        ensures
            r@ == self@.recall_note(),
    {
        let mut s = copy_text(" ⇧↑ ");
        let mine = crate::tabs::one_based(i);
        s.append(mine.as_str());
        s.append("/");
        s.append(decimal(self.history.len() as u64).as_str());
        s
    }
}

impl TabView {
    /// That a session is down, and why.
    pub open spec fn down_tag(self) -> Seq<char> {
        if !self.down() {
            ""@
        } else if clipped(trimmed(self.reason()), 18).len() == 0 {
            "  ○ down"@
        } else {
            "  ○ down ("@ + clipped(trimmed(self.reason()), 18) + ")"@
        }
    }
}

impl Tab {
    fn down_tag(&self) -> (r: String)
        ensures
            r@ == self@.down_tag(),
    {
        if !self.is_down() {
            return copy_text("");
        }
        let why = clip_dots(trim(self.reason()).as_str(), 18);
        if why.as_str().is_empty() {
            copy_text("  ○ down")
        } else {
            let mut s = copy_text("  ○ down (");
            s.append(why.as_str());
            s.append(")");
            s
        }
    }
}

impl BoardView {
    /// Which targets of a broadcast are down.
    pub open spec fn queued_mask(self) -> Seq<bool> {
        Seq::new(
            self.tabs.len(),
            |i: int| i < self.slots.len() && self.slots[i].target && self.tabs[i].down(),
        )
    }

    /// A tab's row in the list of targets.
    pub open spec fn cast_row(self, i: int, slot: int, sel: bool) -> RowView {
        let t = self.tabs[i];
        let on = i < self.slots.len() && self.slots[i].target;
        said(
            "  "@ + either(on, "☑"@, "☐"@) + " "@ + t.head() + " @ "@ + t.host + t.down_tag(),
            slot,
            if sel {
                WHITE
            } else if t.down() {
                CHROME_ERR
            } else {
                CHROME_DIM
            },
        )
    }
}

impl Board {
    fn queued(&self) -> (n: usize)
        ensures
            n == how_many(self@.queued_mask()),
    {
        let ghost want = self@.queued_mask();
        let mut mask: Vec<bool> = Vec::new();
        let n: usize = self.tabs.len();
        let mut i: usize = 0;
        while i < n
            invariant
                i <= n,
                n == self.tabs@.len(),
                want == self@.queued_mask(),
                mask@ == want.take(i as int),
            decreases n - i,
        {
            proof {
                assert(self@.tabs[i as int] == self.tabs@[i as int]@);
            }
            mask.push(i < self.slots.len() && self.slots[i].target && self.tabs[i].is_down());
            proof {
                assert(mask@ =~= want.take(i + 1));
            }
            i = i + 1;
        }
        proof {
            assert(want.take(i as int) =~= want);
        }
        count_set(&mask)
    }
}

impl ShellView {
    /// The lines of the broadcast: the line to send, and whom it goes to.
    pub open spec fn cast_panel(self) -> Seq<RowView> {
        let b = self.board;
        let total = b.tabs.len() as int;
        let top = list_top(total, self.cast.sel as int, 20);
        seq![
            said(
                self.cast.heading(
                    how_many(b.target_mask()),
                    b.tabs.len(),
                    how_many(b.queued_mask()),
                ),
                0,
                WHITE,
            ),
        ] + Seq::new(
            seen_rows(total, top, 20) as nat,
            |k: int| b.cast_row(top + k, k + 2, top + k == self.cast.sel),
        )
    }
}

impl Shell {
    /// The lines of the broadcast.
    pub fn render_broadcast(&self) -> (r: Vec<Row>)
        ensures
            rows(r@) == self@.cast_panel(),
    {
        let mask = self.board.targets();
        let on: usize = count_set(&mask);
        let waiting: usize = self.board.queued();
        let total: usize = self.board.tabs.len();
        let top: usize = scroll_top(total, self.cast.sel, 20);
        let mut out: Vec<Row> = Vec::new();
        let s = self.cast.heading(on, total, waiting);
        let ghost line = s@;
        put_row(&mut out, s, 0, WHITE, false);
        let ghost head = rows(out@);
        proof {
            assert(head =~= seq![said(line, 0, WHITE)]);
            assert(self@.board.tabs.len() == total);
        }
        let n: usize = rows_in_view(total, top, 20);
        let ghost want = Seq::new(
            n as nat,
            |k: int| self@.board.cast_row(top + k, k + 2, top + k == self.cast.sel),
        );
        let mut k: usize = 0;
        proof {
            assert(rows(out@) =~= head + want.take(0));
        }
        while k < n
            invariant
                k <= n,
                top + n <= total,
                n <= 20,
                total == self.board.tabs@.len(),
                want == Seq::new(
                    n as nat,
                    |k: int| self@.board.cast_row(top + k, k + 2, top + k == self.cast.sel),
                ),
                rows(out@) == head + want.take(k as int),
            decreases n - k,
        {
            let i: usize = top + k;
            let sel = i == self.cast.sel;
            proof {
                assert(self@.board.tabs[i as int] == self.board.tabs@[i as int]@);
            }
            let t = &self.board.tabs[i];
            let on = i < self.board.slots.len() && self.board.slots[i].target;
            let tag = t.down_tag();
            let color = if sel {
                WHITE
            } else if t.is_down() {
                CHROME_ERR
            } else {
                CHROME_DIM
            };
            let mut s = copy_text("  ");
            s.append(pick_text(on, "☑", "☐"));
            s.append(" ");
            s.append(t.head());
            s.append(" @ ");
            s.append(t.host.as_str());
            s.append(tag.as_str());
            put_row(&mut out, s, k + 2, color, false);
            proof {
                assert(rows(out@) =~= head + want.take(k + 1));
            }
            k = k + 1;
        }
        proof {
            assert(want.take(k as int) =~= want);
        }
        proof {
            assert(rows(out@) =~= self@.cast_panel());
        }
        out
    }
}

/// What the first pane of a machine that is down and knows why says, from a tab on.
pub open spec fn first_reason(tabs: Seq<TabView>, host: Seq<char>, from: int) -> Option<Seq<char>>
    decreases tabs.len() - from,
{
    if from < 0 || from >= tabs.len() {
        None
    } else if crate::machines::machine(tabs[from].host) == host && tabs[from].down()
        && tabs[from].down_reason is Some {
        tabs[from].down_reason
    } else {
        first_reason(tabs, host, from + 1)
    }
}

impl BoardView {
    /// Why a machine is dark.
    pub open spec fn dark_note(self, host: Seq<char>) -> Seq<char> {
        let why = clipped(
            trimmed(
                match first_reason(self.tabs, host, 0) {
                    Some(r) => r,
                    None => "reconnecting…"@,
                },
            ),
            24,
        );
        if why.len() == 0 {
            ""@
        } else {
            " ("@ + why + ")"@
        }
    }

    /// A machine's row in the list of machines.
    pub open spec fn host_row(self, host: Seq<char>, slot: int, sel: bool) -> RowView {
        let all = agent_tabs(self.tabs);
        let alive = live_on(all, host) as int;
        let total = agents_on(all, host).len() as int;
        RowView {
            text: "  "@ + host_mark(alive, total) + " "@ + host + " · "@ + host_state(alive, total)
                + (if alive == 0 { self.dark_note(host) } else { ""@ }) + " · "@ + dec(total as nat)
                + either(total == 1, " session · "@, " sessions · "@)
                + mix_said(agents_on(all, host)) + either(sel, "  ◄"@, ""@),
            slot: slot as usize,
            color: if sel {
                WHITE
            } else if alive == 0 {
                CHROME_DIM
            } else {
                CHROME_LIVE
            },
            lit: sel,
        }
    }
}

impl Board {
    fn dark_note(&self, host: &str) -> (r: String)
        ensures
            r@ == self@.dark_note(host@),
    {
        let why = clip_dots(trim(self.why_dark(host)).as_str(), 24);
        if why.as_str().is_empty() {
            copy_text("")
        } else {
            let mut s = copy_text(" (");
            s.append(why.as_str());
            s.append(")");
            s
        }
    }

    fn why_dark(&self, host: &str) -> (r: &str)
        ensures
            r@ == (match first_reason(self@.tabs, host@, 0) {
                Some(t) => t,
                None => "reconnecting…"@,
            }),
    {
        let mut i: usize = 0;
        while i < self.tabs.len()
            invariant
                i <= self.tabs@.len(),
                first_reason(self@.tabs, host@, 0) == first_reason(self@.tabs, host@, i as int),
            decreases self.tabs@.len() - i,
        {
            proof {
                assert(self@.tabs[i as int] == self.tabs@[i as int]@);
            }
            let here = same_text(crate::machines::machine_name(self.tabs[i].host.as_str()), host);
            if here && self.tabs[i].is_down() {
                if let Some(t) = &self.tabs[i].down_reason {
                    return t.as_str();
                }
            }
            i = i + 1;
        }
        "reconnecting…"
    }
}

/// The front of a text that fits a width, with an ellipsis where something was cut, from `shown`
/// pixels and the character `from` on.
pub open spec fn fitted_end(
    m: Map<u64, Bitmap>,
    text: Seq<char>,
    px: u32,
    avail: int,
    shown: int,
    from: int,
) -> (int, bool)
    decreases text.len() - from,
{
    if from < 0 || from >= text.len() {
        (from, false)
    } else if shown + char_width(m, text[from], px) > avail {
        (from, true)
    } else {
        fitted_end(m, text, px, avail, shown + char_width(m, text[from], px), from + 1)
    }
}

/// The front of a text that fits a width, with an ellipsis where something was cut.
pub open spec fn fitted(m: Map<u64, Bitmap>, text: Seq<char>, px: u32, avail: int) -> Seq<char> {
    let (end, cut) = fitted_end(m, text, px, avail, 0, 0);
    if cut {
        text.take(end).push('…')
    } else {
        text
    }
}

/// What more glyphs in the cache change of a text whose own are all there: nothing.
pub proof fn lemma_fitted_stays(
    m: Map<u64, Bitmap>,
    n: Map<u64, Bitmap>,
    text: Seq<char>,
    px: u32,
    avail: int,
)
    requires
        covers(m, text, px),
        keeps(m, n),
    ensures
        fitted(m, text, px, avail) == fitted(n, text, px, avail),
{
    lemma_fitted_end_stays(m, n, text, px, avail, 0, 0);
}

proof fn lemma_fitted_end_stays(
    m: Map<u64, Bitmap>,
    n: Map<u64, Bitmap>,
    text: Seq<char>,
    px: u32,
    avail: int,
    shown: int,
    from: int,
)
    requires
        covers(m, text, px),
        keeps(m, n),
    ensures
        fitted_end(m, text, px, avail, shown, from) == fitted_end(
            n,
            text,
            px,
            avail,
            shown,
            from,
        ),
    decreases text.len() - from,
{
    if 0 <= from < text.len() {
        if text[from] != '\n' {
            assert(m.contains_key(crate::glyph::slot(false, false, text[from], px)));
        }
        lemma_fitted_end_stays(
            m,
            n,
            text,
            px,
            avail,
            shown + char_width(m, text[from], px),
            from + 1,
        );
    }
}

/// The front of a text that fits a width, with an ellipsis where something was cut.
pub fn fit<F: Face>(cache: &mut GlyphCache<F>, text: &str, px: u32, avail: usize) -> (r: String)
    requires
        old(cache).wf(),
    ensures
        final(cache).extends(old(cache)),
        covers(final(cache)@, text@, px),
        r@ == fitted(final(cache)@, text@, px, avail as int),
{
    let v = chars_of(text);
    prepare_text(cache, &v, px);
    let ghost m = cache@;
    let mut shown: usize = 0;
    let mut i: usize = 0;
    while i < v.len()
        invariant
            i <= v@.len(),
            v@ == text@,
            cache.wf(),
            m == cache@,
            cache.extends(old(cache)),
            covers(m, v@, px),
            shown <= avail,
            fitted_end(m, text@, px, avail as int, 0, 0) == fitted_end(
                m,
                text@,
                px,
                avail as int,
                shown as int,
                i as int,
            ),
        decreases v@.len() - i,
    {
        let c = v[i];
        let w: usize = if c == '\n' {
            0
        } else {
            proof {
                assert(m.contains_key(crate::glyph::slot(false, false, v@[i as int], px)));
            }
            cache.peek(c, px, false, false).w as usize
        };
        if w > avail - shown {
            let mut r = string_from(&v, 0, i);
            r.push('…');
            proof {
                assert(r@ =~= text@.take(i as int).push('…'));
            }
            return r;
        }
        shown = shown + w;
        i = i + 1;
    }
    copy_text(text)
}

impl ShellView {
    /// The lines of the list of machines.
    pub open spec fn hosts_panel(self) -> Seq<RowView> {
        let list = self.board.host_list();
        let total = list.len() as int;
        let sel = kept(self.hosts_sel, list.len());
        let top = list_top(total, sel as int, 20);
        let head = seq![
            said(
                "  hosts · which machines are up · ↑/↓ select · → drill · Enter → first tab · Esc close  "@,
                0,
                WHITE,
            ),
        ];
        if total == 0 {
            head.push(said("  no hosts (no open sessions)  "@, 1, CHROME_DIM))
        } else {
            head + Seq::new(
                seen_rows(total, top, 20) as nat,
                |k: int| self.board.host_row(list[top + k], k + 1, top + k == sel),
            )
        }
    }
}

impl BoardView {
    /// How long a tab has waited for the user, where it does.
    pub open spec fn wait_secs(self, t: int, now: u64) -> Option<u64> {
        if self.waits(t, now) {
            Some(self.parked(t, now) as u64)
        } else {
            None
        }
    }

    /// A session's row in the list of a machine's sessions.
    pub open spec fn session_line(self, t: int, slot: int, sel: bool, now: u64) -> RowView {
        let idle = self.wait_secs(t, now);
        RowView {
            text: "  "@
                + (if t < self.tabs.len() { session_row(self.tabs[t], t, idle) } else { Seq::empty() })
                + either(sel, "  ◄"@, ""@),
            slot: slot as usize,
            color: if sel {
                WHITE
            } else if t < self.tabs.len() && self.tabs[t].seen.alive {
                CHROME_LIVE
            } else {
                CHROME_DIM
            },
            lit: sel,
        }
    }

    /// The first `n` rows in view of a machine's sessions from the row `top` on, with what the
    /// selected one is doing below it.
    pub open spec fn session_lines(
        self,
        list: Seq<int>,
        top: int,
        sel: usize,
        preview: Option<Seq<char>>,
        now: u64,
        n: int,
    ) -> Seq<RowView>
        decreases n,
    {
        if n <= 0 {
            Seq::empty()
        } else {
            let front = self.session_lines(list, top, sel, preview, now, n - 1);
            let row = top + n - 1;
            let below = if preview is Some && row > sel {
                1int
            } else {
                0
            };
            let mine = front.push(self.session_line(list[row], n + below, row == sel, now));
            if row == sel && preview is Some {
                mine.push(said("   ↳ "@ + preview->0, n + 1, CHROME_DIM))
            } else {
                mine
            }
        }
    }
}

impl ShellView {
    /// The lines of the list of a machine's sessions.
    pub open spec fn host_panel(
        self,
        host: Seq<char>,
        preview: Option<Seq<char>>,
        now: u64,
    ) -> Seq<RowView> {
        let list = self.board.on_host(host);
        let total = list.len() as int;
        let sel = kept(self.hosts_sel, list.len());
        let top = list_top(total, sel as int, 20);
        let head = seq![
            said(
                "  "@ + host
                    + " sessions · ↑/↓ select · Enter → open · r reconnect · b broadcast · ←/Esc back  "@,
                0,
                WHITE,
            ),
        ];
        if total == 0 {
            head.push(said("  no sessions on this host  "@, 1, CHROME_DIM))
        } else {
            head + self.board.session_lines(
                list,
                top,
                sel,
                preview,
                now,
                seen_rows(total, top, 20),
            )
        }
    }

    /// With the selection within the list that is shown.
    pub open spec fn hosts_kept(self) -> ShellView {
        let n = match self.hosts_host {
            Some(h) => self.board.on_host(h).len(),
            None => self.board.host_list().len(),
        };
        ShellView {
            hosts_sel: if n == 0 {
                self.hosts_sel
            } else {
                kept(self.hosts_sel, n)
            },
            ..self
        }
    }
}

impl Shell {
    /// The lines of the list of machines.
    fn host_overview(&self) -> (r: Vec<Row>)
        ensures
            rows(r@) == self@.hosts_panel(),
    {
        let mut out: Vec<Row> = Vec::new();
        let first = "  hosts · which machines are up · ↑/↓ select · → drill · Enter → first tab · Esc close  ";
        put_row(&mut out, copy_text(first), 0, WHITE, false);
        let ghost head = rows(out@);
        proof {
            assert(head =~= seq![said(first@, 0, WHITE)]);
        }
        let pairs = agent_rows(&self.board.tabs);
        let hosts = host_engine_breakdown(pairs.as_slice());
        let ghost all = agent_tabs(self@.board.tabs);
        let ghost want_hosts = self@.board.host_list();
        let total: usize = hosts.len();
        if total == 0 {
            put_row(&mut out, copy_text("  no hosts (no open sessions)  "), 1, CHROME_DIM, false);
            return out;
        }
        let chosen: usize = keep_within(self.hosts_sel, total);
        let top: usize = scroll_top(total, chosen, 20);
        let n: usize = rows_in_view(total, top, 20);
        let ghost want = Seq::new(
            n as nat,
            |k: int| self@.board.host_row(want_hosts[top + k], k + 1, top + k == chosen),
        );
        let mut k: usize = 0;
        proof {
            assert(rows(out@) =~= head + want.take(0));
        }
        while k < n
            invariant
                k <= n,
                top + n <= total,
                n <= 20,
                total == hosts@.len(),
                all == agent_tabs(self@.board.tabs),
                want_hosts == self@.board.host_list(),
                hosts@.len() == want_hosts.len(),
                forall|j: int|
                    #![trigger hosts@[j]]
                    0 <= j < hosts@.len() ==> hosts@[j].0@ == want_hosts[j]
                        && crate::machines::row_tells(hosts@[j], all),
                want == Seq::new(
                    n as nat,
                    |k: int| self@.board.host_row(want_hosts[top + k], k + 1, top + k == chosen),
                ),
                rows(out@) == head + want.take(k as int),
            decreases n - k,
        {
            let row = &hosts[top + k];
            let sel = top + k == chosen;
            proof {
                lemma_mix_said(row.3@, agents_on(all, row.0@));
            }
            let mark = pick_text(row.1 == 0, "○", pick_text(row.1 == row.2, "●", "◐"));
            let mut state = copy_text("down");
            if row.1 > 0 && row.1 < row.2 {
                state = decimal(row.1 as u64);
                state.append("/");
                state.append(decimal(row.2 as u64).as_str());
                state.append(" live");
            } else if row.1 > 0 {
                state = copy_text("live");
            }
            let note = if row.1 == 0 {
                self.board.dark_note(row.0.as_str())
            } else {
                copy_text("")
            };
            let mix = format_engine_mix(row.3.as_slice());
            let color = if sel {
                WHITE
            } else if row.1 == 0 {
                CHROME_DIM
            } else {
                CHROME_LIVE
            };
            let mut s = copy_text("  ");
            s.append(mark);
            s.append(" ");
            s.append(row.0.as_str());
            s.append(" · ");
            s.append(state.as_str());
            s.append(note.as_str());
            s.append(" · ");
            s.append(decimal(row.2 as u64).as_str());
            s.append(pick_text(row.2 == 1, " session · ", " sessions · "));
            s.append(mix.as_str());
            s.append(pick_text(sel, "  ◄", ""));
            put_row(&mut out, s, k + 1, color, sel);
            proof {
                assert(rows(out@) =~= head + want.take(k + 1));
            }
            k = k + 1;
        }
        proof {
            assert(want.take(k as int) =~= want);
        }
        proof {
            assert(rows(out@) =~= self@.hosts_panel());
        }
        out
    }

    /// The lines of the list of a machine's sessions, given what the selected one is doing.
    fn host_sessions(&self, host: &str, preview: Option<&str>, now: u64) -> (r: Vec<Row>)
        ensures
            rows(r@) == self@.host_panel(
                host@,
                match preview {
                    Some(p) => Some(p@),
                    None => None,
                },
                now,
            ),
    {
        let ghost shown = match preview {
            Some(p) => Some(p@),
            None => None,
        };
        let mut out: Vec<Row> = Vec::new();
        let mut s = copy_text("  ");
        s.append(host);
        s.append(" sessions · ↑/↓ select · Enter → open · r reconnect · b broadcast · ←/Esc back  ");
        let ghost first = s@;
        put_row(&mut out, s, 0, WHITE, false);
        let ghost head = rows(out@);
        let list = self.board.host_session_indices(host);
        let total: usize = list.len();
        proof {
            assert(head =~= seq![said(first, 0, WHITE)]);
            assert(self@.board.on_host(host@).len() == total);
        }
        if total == 0 {
            put_row(&mut out, copy_text("  no sessions on this host  "), 1, CHROME_DIM, false);
            return out;
        }
        let sel: usize = keep_within(self.hosts_sel, total);
        let top: usize = scroll_top(total, sel, 20);
        let n: usize = rows_in_view(total, top, 20);
        let ghost want = self@.board.on_host(host@);
        let mut k: usize = 0;
        proof {
            assert(rows(out@) =~= head + self@.board.session_lines(
                want,
                top as int,
                sel,
                shown,
                now,
                0,
            ));
        }
        while k < n
            invariant
                k <= n <= 20,
                top + n <= total,
                total == list@.len(),
                want == ints(list@),
                want == self@.board.on_host(host@),
                forall|k: int| 0 <= k < list@.len() ==> #[trigger] list@[k] < self@.board.tabs.len(),
                shown == (match preview {
                    Some(p) => Some(p@),
                    None => None,
                }),
                rows(out@) == head + self@.board.session_lines(
                    want,
                    top as int,
                    sel,
                    shown,
                    now,
                    k as int,
                ),
            decreases n - k,
        {
            let row: usize = top + k;
            let t: usize = list[row];
            let here = row == sel;
            let below: usize = if preview.is_some() && row > sel {
                1
            } else {
                0
            };
            proof {
                assert(want[row as int] == t);
                assert(self@.board.tabs[t as int] == self.board.tabs@[t as int]@);
            }
            let idle = if self.board.is_waiting(t, now) {
                Some(self.board.parked_secs(t, now))
            } else {
                None
            };
            let label = session_row_label(&self.board.tabs, t, idle);
            let color = if here {
                WHITE
            } else if self.board.tabs[t].seen.alive {
                CHROME_LIVE
            } else {
                CHROME_DIM
            };
            let ghost had = rows(out@);
            let mut s = copy_text("  ");
            s.append(label.as_str());
            s.append(pick_text(here, "  ◄", ""));
            put_row(&mut out, s, k + 1 + below, color, here);
            if here {
                if let Some(p) = preview {
                    let mut s = copy_text("   ↳ ");
                    s.append(p);
                    put_row(&mut out, s, k + 2, CHROME_DIM, false);
                }
            }
            proof {
                assert(rows(out@) =~= head + self@.board.session_lines(
                    want,
                    top as int,
                    sel,
                    shown,
                    now,
                    k + 1,
                ));
            }
            k = k + 1;
        }
        out
    }

    /// The width there is for what a session is doing.
    pub open spec fn preview_room(m: Metrics) -> int {
        let room = less(m.width as int, 72);
        if room < 40 {
            40
        } else {
            room
        }
    }

    /// The lines of the list of machines, or of the sessions of the machine that is looked into.
    /// `tail` are the newest lines of the selected session, the newest first.
    pub fn render_hosts<F: Face>(
        &mut self,
        cache: &mut GlyphCache<F>,
        tail: &Vec<String>,
        now: u64,
    ) -> (r: Vec<Row>)
        requires
            old(cache).wf(),
        ensures
            final(cache).extends(old(cache)),
            final(self)@ == old(self)@.hosts_kept(),
            first_said(texts(tail@)) matches Some(t) ==> covers(
                final(cache)@,
                t,
                old(self)@.metrics.font_px,
            ),
            rows(r@) == (match old(self)@.hosts_host {
                Some(h) => old(self)@.host_panel(
                    h,
                    match first_said(texts(tail@)) {
                        Some(t) => Some(
                            fitted(
                                final(cache)@,
                                t,
                                old(self)@.metrics.font_px,
                                Self::preview_room(old(self)@.metrics),
                            ),
                        ),
                        None => None,
                    },
                    now,
                ),
                None => old(self)@.hosts_panel(),
            }),
    {
        let room: usize = if self.metrics.width < 112 {
            40
        } else {
            self.metrics.width - 72
        };
        let said = session_tail_preview(tail);
        let preview = match &said {
            Some(t) => Some(fit(cache, t.as_str(), self.metrics.font_px, room)),
            None => None,
        };
        match &self.hosts_host {
            Some(h) => {
                let out = match &preview {
                    Some(p) => self.host_sessions(h.as_str(), Some(p.as_str()), now),
                    None => self.host_sessions(h.as_str(), None, now),
                };
                let list = self.board.host_session_indices(h.as_str());
                proof {
                    assert(ints(list@).len() == list@.len());
                }
                let n: usize = list.len();
                if n > 0 {
                    self.hosts_sel = keep_within(self.hosts_sel, n);
                }
                out
            },
            None => {
                let out = self.host_overview();
                let names = self.board.host_names();
                proof {
                    assert(texts(names@).len() == names@.len());
                }
                let n: usize = names.len();
                if n > 0 {
                    self.hosts_sel = keep_within(self.hosts_sel, n);
                }
                out
            },
        }
    }
}

} // verus!
