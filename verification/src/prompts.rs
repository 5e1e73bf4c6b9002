//! The panels that ask: what to find, a new name, a new session, a machine, a command; and the list
//! of keys.

use vstd::prelude::*;
use vstd::string::*;

use crate::finding::{Finder, FinderView};
use crate::geometry::{less, Metrics};
use crate::lists::{palette_mask, PALETTE_ROWS};
use crate::seqs::lemma_set_indices;
use crate::shell::{Commands, CommandsView, Shell, ShellView};
use crate::strokes::{lay, put_row, rows, said, strokes, Row, RowView, Stroke, StrokeView};
use crate::text::{copy_text, dec, decimal, same_text};
use crate::triage::{Engine, CHROME_DIM, CHROME_ERR, CHROME_FG, WHITE};
use crate::words::{pad, padded};

verus! {

/// The row that the text of the status line stands on.
pub open spec fn status_row(m: Metrics) -> int {
    less(m.height as int, m.cell_h as int / 2)
}

/// The row that the text of the status line stands on.
pub fn status_base(m: &Metrics) -> (y: usize)
    ensures
        y == status_row(*m),
{
    if m.height < m.cell_h / 2 {
        0
    } else {
        m.height - m.cell_h / 2
    }
}

/// Which options of a search are on.
pub open spec fn find_flags(case: bool, word: bool) -> Seq<char> {
    if case && word {
        "  [Aa whole-word]"@
    } else if case {
        "  [Aa]"@
    } else if word {
        "  [whole-word]"@
    } else {
        ""@
    }
}

impl FinderView {
    /// What the find bar says.
    pub open spec fn line(self) -> Seq<char> {
        if self.query.len() == 0 {
            if self.history.len() == 0 {
                "  find: (type to search · ↑ recalls history)"@
                    + find_flags(self.case_sensitive, self.whole_word) + "  c case · w whole-word"@
                    + "  "@
            } else {
                "  find: (up recalls "@ + self.history[0] + ")"@
                    + find_flags(self.case_sensitive, self.whole_word) + "  "@
            }
        } else if self.all.len() > 0 {
            "  find: "@ + self.query + "  (match "@
                + dec((self.index as int % self.all.len() as int + 1) as nat) + " of "@
                + dec(self.all.len() as nat) + " · Enter/Tab next, Shift+Enter prev, Cmd+G repeat)"@
        } else {
            "  find: "@ + self.query + "  (no match)"@
        }
    }
}

impl Finder {
    /// What the find bar says: the query and which of its matches is in focus, or how to use it.
    pub fn line(&self) -> (r: String)
        ensures
            r@ == self@.line(),
    {
        let n: usize = self.all.len();
        if self.query.as_str().is_empty() {
            let flags = match (self.case_sensitive, self.whole_word) {
                (true, true) => "  [Aa whole-word]",
                (true, false) => "  [Aa]",
                (false, true) => "  [whole-word]",
                (false, false) => "",
            };
            if self.history.len() == 0 {
                let mut s = copy_text("  find: (type to search · ↑ recalls history)");
                s.append(flags);
                s.append("  c case · w whole-word");
                s.append("  ");
                s
            } else {
                let mut s = copy_text("  find: (up recalls ");
                s.append(self.history[0].as_str());
                s.append(")");
                s.append(flags);
                s.append("  ");
                s
            }
        } else if n > 0 {
            let mut s = copy_text("  find: ");
            s.append(self.query.as_str());
            s.append("  (match ");
            s.append(decimal((self.index % n) as u64 + 1).as_str());
            s.append(" of ");
            s.append(decimal(n as u64).as_str());
            s.append(" · Enter/Tab next, Shift+Enter prev, Cmd+G repeat)");
            s
        } else {
            let mut s = copy_text("  find: ");
            s.append(self.query.as_str());
            s.append("  (no match)");
            s
        }
    }
}

impl ShellView {
    /// What the active session is called.
    pub open spec fn active_head(self) -> Seq<char> {
        if self.board.active < self.board.tabs.len() {
            self.board.tabs[self.board.active as int].head()
        } else {
            ""@
        }
    }

    /// What the find bar is painted of.
    pub open spec fn find_panel(self) -> Seq<StrokeView> {
        seq![StrokeView::Text(self.finder.line(), 6, status_row(self.metrics) as usize, WHITE)]
    }

    /// What the field for a new name is painted of: the name now, and below it the new one.
    pub open spec fn rename_panel(self) -> Seq<StrokeView> {
        let y = status_row(self.metrics);
        let prompt = if self.rename.len() == 0 {
            "  rename tab: (type a name, Enter keeps, Esc cancels)  "@
        } else {
            "  rename tab: "@ + self.rename + " ▏"@
        };
        seq![
            StrokeView::Text(
                "  currently: "@ + self.active_head() + "  "@,
                6,
                less(y, self.metrics.cell_h as int) as usize,
                CHROME_DIM,
            ),
            StrokeView::Text(prompt, 6, y as usize, WHITE),
        ]
    }
}

impl Shell {
    fn head_of_active(&self) -> (r: &str)
        ensures
            r@ == self@.active_head(),
    {
        let i: usize = self.board.active;
        if i < self.board.tabs.len() {
            proof {
                assert(self@.board.tabs[i as int] == self.board.tabs@[i as int]@);
            }
            self.board.tabs[i].head()
        } else {
            ""
        }
    }

    /// What the find bar is painted of.
    pub fn render_find(&self) -> (r: Vec<Stroke>)
        ensures
            strokes(r@) == self@.find_panel(),
    {
        let mut out: Vec<Stroke> = Vec::new();
        lay(&mut out, Stroke::Text(self.finder.line(), 6, status_base(&self.metrics), WHITE));
        proof {
            assert(strokes(out@) =~= self@.find_panel());
        }
        out
    }

    /// What the field for a new name is painted of.
    pub fn render_rename(&self) -> (r: Vec<Stroke>)
        ensures
            strokes(r@) == self@.rename_panel(),
    {
        let y: usize = status_base(&self.metrics);
        let above: usize = if y < self.metrics.cell_h {
            0
        } else {
            y - self.metrics.cell_h
        };
        let mut s = copy_text("  currently: ");
        s.append(self.head_of_active());
        s.append("  ");
        let prompt = if self.rename.as_str().is_empty() {
            copy_text("  rename tab: (type a name, Enter keeps, Esc cancels)  ")
        } else {
            let mut p = copy_text("  rename tab: ");
            p.append(self.rename.as_str());
            p.append(" ▏");
            p
        };
        let mut out: Vec<Stroke> = Vec::new();
        lay(&mut out, Stroke::Text(s, 6, above, CHROME_DIM));
        lay(&mut out, Stroke::Text(prompt, 6, y, WHITE));
        proof {
            assert(strokes(out@) =~= self@.rename_panel());
        }
        out
    }
}

/// The ending of a word for so many things.
pub open spec fn plural_s(n: nat) -> Seq<char> {
    if n == 1 {
        ""@
    } else {
        "s"@
    }
}

/// The ending of a word for so many things.
pub fn plural_end(n: usize) -> (r: &'static str)
    ensures
        r@ == plural_s(n as nat),
{
    if n == 1 {
        ""
    } else {
        "s"
    }
}

/// An engine's line in a list, with a mark behind it.
pub open spec fn engine_line(e: Engine, mark: Seq<char>) -> Seq<char> {
    "  "@ + e.id@ + "  "@ + e.label@ + "  "@ + mark
}

fn engine_text(e: &Engine, mark: &str) -> (r: String)
    ensures
        r@ == engine_line(*e, mark@),
{
    let mut s = copy_text("  ");
    s.append(e.id.as_str());
    s.append("  ");
    s.append(e.label.as_str());
    s.append("  ");
    s.append(mark);
    s
}

/// What an engine is.
pub open spec fn engine_about(e: Engine) -> Seq<char> {
    "      "@ + e.label@ + " — "@ + e.desc@
}

fn about_text(e: &Engine) -> (r: String)
    ensures
        r@ == engine_about(*e),
{
    let mut s = copy_text("      ");
    s.append(e.label.as_str());
    s.append(" — ");
    s.append(e.desc.as_str());
    s
}

/// The mark of an engine in a list: selected, or missing on this machine.
pub open spec fn engine_mark(sel: bool, present: bool) -> Seq<char> {
    if sel {
        "◄"@
    } else if present {
        ""@
    } else {
        "✗"@
    }
}

/// An engine's line in a list, as it is selected or not, and on this machine or not.
pub open spec fn engine_row(e: Engine, i: int, first: int, selected: usize, present: bool) -> RowView {
    let sel = i == selected;
    RowView {
        text: engine_line(e, engine_mark(sel, present)),
        slot: (first + i) as usize,
        color: if sel {
            WHITE
        } else if present {
            CHROME_DIM
        } else {
            CHROME_ERR
        },
        lit: sel,
    }
}

/// The engines' lines from line `first` on, and below them what the selected one is.
pub open spec fn engine_rows(
    engines: Seq<Engine>,
    present: Seq<bool>,
    first: int,
    selected: usize,
) -> Seq<RowView> {
    let list = Seq::new(
        engines.len(),
        |i: int| engine_row(engines[i], i, first, selected, i >= present.len() || present[i]),
    );
    if selected < engines.len() {
        list.push(said(engine_about(engines[selected as int]), first + engines.len(), CHROME_DIM))
    } else {
        list
    }
}

fn list_engines(
    out: &mut Vec<Row>,
    engines: &Vec<Engine>,
    present: &Vec<bool>,
    first: usize,
    selected: usize,
)
    requires
        first + engines@.len() <= usize::MAX,
    ensures
        rows(final(out)@) == rows(old(out)@) + engine_rows(
            engines@,
            present@,
            first as int,
            selected,
        ),
{
    let ghost had = rows(out@);
    let ghost want = Seq::new(
        engines@.len(),
        |i: int|
            engine_row(
                engines@[i],
                i,
                first as int,
                selected,
                i >= present@.len() || present@[i],
            ),
    );
    let mut i: usize = 0;
    proof {
        assert(rows(out@) =~= had + want.take(0));
    }
    while i < engines.len()
        invariant
            i <= engines@.len(),
            first + engines@.len() <= usize::MAX,
            want == Seq::new(
                engines@.len(),
                |i: int|
                    engine_row(
                        engines@[i],
                        i,
                        first as int,
                        selected,
                        i >= present@.len() || present@[i],
                    ),
            ),
            rows(out@) == had + want.take(i as int),
        decreases engines@.len() - i,
    {
        let sel = i == selected;
        let there = i >= present.len() || present[i];
        let mark = if sel {
            "◄"
        } else if there {
            ""
        } else {
            "✗"
        };
        let color = if sel {
            WHITE
        } else if there {
            CHROME_DIM
        } else {
            CHROME_ERR
        };
        put_row(out, engine_text(&engines[i], mark), first + i, color, sel);
        proof {
            assert(rows(out@) =~= had + want.take(i + 1));
        }
        i = i + 1;
    }
    proof {
        assert(want.take(i as int) =~= want);
    }
    if selected < engines.len() {
        put_row(out, about_text(&engines[selected]), first + engines.len(), CHROME_DIM, false);
        proof {
            assert(rows(out@) =~= had + engine_rows(engines@, present@, first as int, selected));
        }
    }
}

impl ShellView {
    /// The lines of the picker for a new session.
    pub open spec fn new_session_panel(
        self,
        engines: Seq<Engine>,
        present: Seq<bool>,
    ) -> Seq<RowView> {
        seq![
            said("  new session  "@, 0, WHITE),
            said("  ✗ = not on PATH  "@, 1, CHROME_DIM),
            said(
                if self.new_cwd.len() == 0 {
                    "  dir:  (blank = start_cwd · pre-filled from last use)  "@
                } else {
                    "  dir: "@ + self.new_cwd
                },
                2,
                CHROME_FG,
            ),
        ] + engine_rows(engines, present, 3, self.selected)
    }

    /// The lines of the field for a machine.
    pub open spec fn remote_panel(self, engines: Seq<Engine>) -> Seq<RowView> {
        seq![
            said("  attach to pane@host  "@, 0, WHITE),
            said("  host[:port] "@ + self.remote, 1, CHROME_FG),
            said(
                if self.recent_hosts.len() == 0 {
                    "  host[:port] = new engine · host[:port]/session = attach existing  "@
                } else {
                    "  Tab/⇧Tab = last "@ + dec(self.recent_hosts.len() as nat) + " host"@
                        + plural_s(self.recent_hosts.len()) + " ("@ + self.recent_hosts[0]
                        + ") · host/session = attach existing · host = new engine  "@
                },
                2,
                CHROME_DIM,
            ),
        ] + engine_rows(engines, Seq::empty(), 4, self.selected)
    }
}

impl Shell {
    /// The lines of the picker for a new session, given the engines in order and which of them are
    /// on this machine.
    pub fn render_new_session(&self, engines: &Vec<Engine>, present: &Vec<bool>) -> (r: Vec<Row>)
        requires
            engines@.len() + 3 <= usize::MAX,
        ensures
            rows(r@) == self@.new_session_panel(engines@, present@),
    {
        let mut out: Vec<Row> = Vec::new();
        put_row(&mut out, copy_text("  new session  "), 0, WHITE, false);
        put_row(&mut out, copy_text("  ✗ = not on PATH  "), 1, CHROME_DIM, false);
        let dir = if self.new_cwd.as_str().is_empty() {
            copy_text("  dir:  (blank = start_cwd · pre-filled from last use)  ")
        } else {
            let mut s = copy_text("  dir: ");
            s.append(self.new_cwd.as_str());
            s
        };
        put_row(&mut out, dir, 2, CHROME_FG, false);
        let ghost front = rows(out@);
        list_engines(&mut out, engines, present, 3, self.selected);
        proof {
            assert(rows(out@) =~= self@.new_session_panel(engines@, present@));
        }
        out
    }

    /// The lines of the field for a machine, given the engines.
    pub fn render_remote(&self, engines: &Vec<Engine>) -> (r: Vec<Row>)
        requires
            engines@.len() + 4 <= usize::MAX,
        ensures
            rows(r@) == self@.remote_panel(engines@),
    {
        let n: usize = self.recent_hosts.len();
        let mut out: Vec<Row> = Vec::new();
        put_row(&mut out, copy_text("  attach to pane@host  "), 0, WHITE, false);
        let mut s = copy_text("  host[:port] ");
        s.append(self.remote.as_str());
        put_row(&mut out, s, 1, CHROME_FG, false);
        let hint = if n == 0 {
            copy_text("  host[:port] = new engine · host[:port]/session = attach existing  ")
        } else {
            proof {
                assert(self@.recent_hosts[0] == self.recent_hosts@[0]@);
            }
            let mut h = copy_text("  Tab/⇧Tab = last ");
            h.append(decimal(n as u64).as_str());
            h.append(" host");
            h.append(plural_end(n));
            h.append(" (");
            h.append(self.recent_hosts[0].as_str());
            h.append(") · host/session = attach existing · host = new engine  ");
            h
        };
        put_row(&mut out, hint, 2, CHROME_DIM, false);
        let all: Vec<bool> = Vec::new();
        list_engines(&mut out, engines, &all, 4, self.selected);
        proof {
            assert(all@ =~= Seq::empty());
            assert(rows(out@) =~= self@.remote_panel(engines@));
        }
        out
    }
}

impl CommandsView {
    /// A row of the command palette.
    pub open spec fn row(self, k: int) -> RowView {
        let sel = k == self.sel;
        let i = self.shown[k];
        let mark = if sel {
            "◄"@
        } else {
            ""@
        };
        RowView {
            text: "  "@ + PALETTE_ROWS@[i].0@ + "  "@ + mark,
            slot: (k + 1) as usize,
            color: if sel {
                WHITE
            } else {
                CHROME_DIM
            },
            lit: sel,
        }
    }

    /// The lines of the command palette: up to twelve rows that the query leaves.
    pub open spec fn panel(self) -> Seq<RowView> {
        let head = seq![
            said(
                "  ⚡ [action] "@ + self.query + "  · "@ + dec(self.shown.len() as nat) + " of "@
                    + dec(PALETTE_ROWS@.len() as nat) + "  "@,
                0,
                WHITE,
            ),
        ];
        if self.shown.len() == 0 {
            head.push(said("  no actions match  "@, 1, CHROME_DIM))
        } else {
            head + Seq::new(
                if self.shown.len() < 12 {
                    self.shown.len()
                } else {
                    12
                },
                |k: int| self.row(k),
            )
        }
    }
}

impl Commands {
    /// Filters the rows by the query. Returns the lines of the command palette.
    pub fn render(&mut self) -> (r: Vec<Row>)
        ensures
            final(self)@ == old(self)@.refreshed(),
            rows(r@) == old(self)@.refreshed().panel(),
    {
        self.refresh();
        proof {
            lemma_set_indices(palette_mask(self@.query));
            assert forall|k: int| 0 <= k < self.shown@.len() implies #[trigger] self.shown@[k]
                < PALETTE_ROWS@.len() by {
                assert(self@.shown[k] == self.shown@[k]);
            }
        }
        self.shown_rows()
    }

    fn shown_rows(&self) -> (r: Vec<Row>)
        requires
            forall|k: int| 0 <= k < self.shown@.len() ==> #[trigger] self.shown@[k]
                < PALETTE_ROWS@.len(),
        ensures
            rows(r@) == self@.panel(),
    {
        let list = PALETTE_ROWS;
        let total: usize = list.len();
        let n: usize = self.shown.len();
        let mut out: Vec<Row> = Vec::new();
        proof {
            assert(self@.shown.len() == n);
        }
        let mut s = copy_text("  ⚡ [action] ");
        s.append(self.query.as_str());
        s.append("  · ");
        s.append(decimal(n as u64).as_str());
        s.append(" of ");
        s.append(decimal(total as u64).as_str());
        s.append("  ");
        put_row(&mut out, s, 0, WHITE, false);
        let ghost head = rows(out@);
        proof {
            assert(head =~= seq![said(s@, 0, WHITE)]);
        }
        if n == 0 {
            put_row(&mut out, copy_text("  no actions match  "), 1, CHROME_DIM, false);
            return out;
        }
        let most: usize = if n < 12 {
            n
        } else {
            12
        };
        let ghost want = Seq::new(most as nat, |k: int| self@.row(k));
        let mut k: usize = 0;
        proof {
            assert(rows(out@) =~= head + want.take(0));
        }
        while k < most
            invariant
                k <= most <= n,
                most <= 12,
                n == self.shown@.len(),
                list == PALETTE_ROWS,
                forall|k: int| 0 <= k < self.shown@.len() ==> #[trigger] self.shown@[k]
                    < PALETTE_ROWS@.len(),
                want == Seq::new(most as nat, |k: int| self@.row(k)),
                rows(out@) == head + want.take(k as int),
            decreases most - k,
        {
            let sel = k == self.sel;
            let i: usize = self.shown[k];
            let mark = if sel {
                "◄"
            } else {
                ""
            };
            let color = if sel {
                WHITE
            } else {
                CHROME_DIM
            };
            let mut s = copy_text("  ");
            s.append(list[i].0);
            s.append("  ");
            s.append(mark);
            put_row(&mut out, s, k + 1, color, sel);
            proof {
                assert(self@.shown[k as int] == i);
                assert(rows(out@) =~= head + want.take(k + 1));
            }
            k = k + 1;
        }
        proof {
            assert(want.take(k as int) =~= want);
        }
        out
    }
}

/// The commands behind the prefix, and what they do.
pub const HELP_COMMANDS: [(&'static str, &'static str); 39] = [
    ("palette", "jump to any session"),
    ("command_palette", "command palette (all actions)"),
    ("new_session", "new session (engine + working dir)"),
    ("remote_attach", "attach to a remote pane@host"),
    ("fleet", "fleet status"),
    ("search", "search scrollback"),
    ("search_all", "search all sessions (fleet)"),
    ("copy_mode", "copy mode"),
    ("rename", "rename the active tab"),
    ("broadcast", "broadcast a line to all sessions"),
    ("paste", "paste clipboard (bracketed)"),
    ("next_busy", "jump to next busy tab"),
    ("next_quiet", "jump to next quiet (awaiting-you) tab"),
    ("next_down", "jump to next down/reconnecting tab"),
    ("next_pinned", "jump to next pinned tab"),
    ("next_host", "jump to next host (page the fleet by machine)"),
    ("hosts", "host overview: which machines are up"),
    ("dnd", "toggle do-not-disturb (mute all OS notifications)"),
    ("reconnect", "force reconnect active tab (bypass backoff)"),
    ("reconnect_all", "force reconnect ALL down panes at once"),
    ("destroy", "kill active tab's remote pane"),
    ("interrupt", "send Ctrl-C to active tab (stop the run)"),
    ("close_quiet", "close all quiet (done) tabs at once"),
    ("mute", "mute/unmute the active tab"),
    ("pin", "pin/unpin the active tab (protect from close)"),
    ("last_window", "flip to the previous tab"),
    ("undo_close", "undo close (reopen last closed tab)"),
    ("duplicate", "duplicate this tab (fork same engine@host)"),
    ("copy_scrollback", "copy whole scrollback to clipboard"),
    ("export_scrollback", "write scrollback to a .log file"),
    ("copy_identity", "copy session identity (engine@host) to clipboard"),
    ("copy_fleet", "copy whole fleet summary (all tabs)"),
    ("peek", "peek tails of all sessions"),
    ("fleet_grid", "fleet grid: live tails of every session"),
    ("session_info", "show this tab's info (kind/host/task)"),
    ("mark_all_read", "clear every tab's busy + bell badges (mark the whole fleet read)"),
    ("toggle_focus", "focus mode (hide tab bar + status)"),
    ("help", "this help"),
    ("quit", "quit"),
];

/// The keys that are always the same, and what they do.
pub const HELP_KEYS: [(&'static str, &'static str); 34] = [
    ("prefix { }", "move tab left / right"),
    ("1-9 / 0 / Tab", "switch tab (0 = last)"),
    ("x / c", "close tab / go to tab 0"),
    ("g / G / b", "scroll up a page / to the top / jump to bottom"),
    ("Ctrl/Cmd+= / -", "font zoom (Ctrl+0 reset; Cmd+0 = last tab)"),
    ("Ctrl+Enter", "toggle fullscreen"),
    ("PgUp/PgDn", "scrollback"),
    ("Cmd/Ctrl+click", "open URL / file path"),
    ("Cmd+T / Cmd+N / Cmd+Shift+N", "new session (new native tab)"),
    ("Cmd+W", "close active tab/window"),
    ("Cmd+Shift+T", "reopen last-closed tab"),
    ("Cmd+Shift+D", "duplicate active session"),
    ("Cmd+Q", "quit"),
    ("Cmd+Shift+[ / ]", "previous / next tab"),
    ("Ctrl+Tab / Ctrl+Shift+Tab", "previous / next tab"),
    ("Cmd+1-9 / 0", "jump straight to that tab (0 = last)"),
    ("Cmd+Shift+P", "command palette"),
    ("Cmd+F", "find in this session"),
    ("Cmd+G / Cmd+Shift+G", "next / previous find match"),
    ("Cmd+Shift+F", "search all sessions (fleet)"),
    ("Cmd+Shift+R", "force-reconnect ALL down panes"),
    ("Cmd+Shift+U / Cmd+Shift+M", "pin active tab / mute active tab"),
    ("Cmd+Shift+I", "show this tab's info (kind/host/task)"),
    ("Cmd+Shift+C", "copy whole scrollback to clipboard"),
    ("Cmd+Shift+S", "write scrollback to a .log file"),
    ("Cmd+Up / Cmd+Home · Cmd+Down / Cmd+End", "jump to top / bottom of scrollback"),
    ("Cmd+.", "interrupt the active session (stop the run)"),
    ("Cmd+Shift+J", "jump to the next quiet (awaiting-you) agent"),
    ("Cmd+Shift+K", "send Ctrl-C to every session (stop the fleet)"),
    ("Cmd+Shift+Y", "peek at every session's tail (war-room)"),
    ("Hosts drill · r / b", "reconnect this host / broadcast to this host"),
    (
        "Peek · / filter · n down · r reconnect · m mute · p pin · x close",
        "narrow by host/engine/name · up/down/busy/quiet (compose: \"build05 down\") · n/r/m/p/x",
    ),
    ("Broadcast · Space · ⇧Space", "toggle one target · select all / clear all"),
    (
        "Fleet grid · Space mark · b/C/m/x/X/r/R",
        "mark · broadcast · Ctrl-C · mute · close · bulk-close · reconnect sel/all · n next/prev trouble",
    ),
];

/// The key that stands for a command: the first that is bound to it, else the command itself.
pub open spec fn key_for(keys: Seq<(Seq<char>, Seq<char>)>, action: Seq<char>, from: int) -> Seq<char>
    decreases keys.len() - from,
{
    if from < 0 || from >= keys.len() {
        action
    } else if keys[from].1 == action {
        keys[from].0
    } else {
        key_for(keys, action, from + 1)
    }
}

/// A line of the list of keys.
pub open spec fn help_line(key: Seq<char>, what: Seq<char>) -> Seq<char> {
    "  "@ + padded(key, 16) + " "@ + what
}

fn help_text(key: &str, what: &str) -> (r: String)
    ensures
        r@ == help_line(key@, what@),
{
    let mut s = copy_text("  ");
    s.append(pad(key, 16).as_str());
    s.append(" ");
    s.append(what);
    s
}

impl ShellView {
    /// The key that stands for a command, behind the prefix.
    pub open spec fn key_label(self, action: Seq<char>) -> Seq<char> {
        "prefix "@ + key_for(self.keymap, action, 0)
    }

    /// The lines of the list of keys: the prefix, the commands behind it, and the other keys.
    pub open spec fn help_panel(self) -> Seq<RowView> {
        seq![
            said("  harness-terminal keys  "@, 0, WHITE),
            said(help_line(self.prefix.chord, "prefix (then a command)"@), 1, CHROME_DIM),
        ] + Seq::new(
            HELP_COMMANDS@.len(),
            |i: int|
                said(
                    help_line(self.key_label(HELP_COMMANDS@[i].0@), HELP_COMMANDS@[i].1@),
                    i + 2,
                    CHROME_DIM,
                ),
        ) + Seq::new(
            HELP_KEYS@.len(),
            |i: int|
                said(
                    help_line(HELP_KEYS@[i].0@, HELP_KEYS@[i].1@),
                    HELP_COMMANDS@.len() + i + 2,
                    CHROME_DIM,
                ),
        )
    }
}

impl Shell {
    /// The key that stands for a command, behind the prefix.
    pub fn prefix_label(&self, action: &str) -> (r: String)
        ensures
            r@ == self@.key_label(action@),
    {
        let mut s = copy_text("prefix ");
        let mut i: usize = 0;
        while i < self.keymap.len()
            invariant
                i <= self.keymap@.len(),
                s@ == "prefix "@,
                key_for(self@.keymap, action@, 0) == key_for(self@.keymap, action@, i as int),
            decreases self.keymap@.len() - i,
        {
            proof {
                assert(self@.keymap[i as int] == (
                    self.keymap@[i as int].0@,
                    self.keymap@[i as int].1@,
                ));
            }
            if same_text(self.keymap[i].1.as_str(), action) {
                s.append(self.keymap[i].0.as_str());
                return s;
            }
            i = i + 1;
        }
        s.append(action);
        s
    }

    /// The lines of the list of keys.
    pub fn render_help(&self) -> (r: Vec<Row>)
        ensures
            rows(r@) == self@.help_panel(),
    {
        let mut out: Vec<Row> = Vec::new();
        put_row(&mut out, copy_text("  harness-terminal keys  "), 0, WHITE, false);
        let first = help_text(self.prefix.chord.as_str(), "prefix (then a command)");
        put_row(&mut out, first, 1, CHROME_DIM, false);
        let ghost head = rows(out@);
        let ghost some = Seq::new(
            HELP_COMMANDS@.len(),
            |i: int|
                said(
                    help_line(self@.key_label(HELP_COMMANDS@[i].0@), HELP_COMMANDS@[i].1@),
                    i + 2,
                    CHROME_DIM,
                ),
        );
        let list = HELP_COMMANDS;
        let n: usize = list.len();
        let mut i: usize = 0;
        proof {
            assert(rows(out@) =~= head + some.take(0));
        }
        while i < n
            invariant
                i <= n,
                n == HELP_COMMANDS@.len(),
                n < 100,
                list == HELP_COMMANDS,
                some == Seq::new(
                    HELP_COMMANDS@.len(),
                    |i: int|
                        said(
                            help_line(self@.key_label(HELP_COMMANDS@[i].0@), HELP_COMMANDS@[i].1@),
                            i + 2,
                            CHROME_DIM,
                        ),
                ),
                rows(out@) == head + some.take(i as int),
            decreases n - i,
        {
            let key = self.prefix_label(list[i].0);
            put_row(&mut out, help_text(key.as_str(), list[i].1), i + 2, CHROME_DIM, false);
            proof {
                assert(rows(out@) =~= head + some.take(i + 1));
            }
            i = i + 1;
        }
        proof {
            assert(some.take(i as int) =~= some);
        }
        let ghost front = rows(out@);
        let ghost rest = Seq::new(
            HELP_KEYS@.len(),
            |i: int|
                said(
                    help_line(HELP_KEYS@[i].0@, HELP_KEYS@[i].1@),
                    HELP_COMMANDS@.len() + i + 2,
                    CHROME_DIM,
                ),
        );
        let keys = HELP_KEYS;
        let m: usize = keys.len();
        let mut k: usize = 0;
        proof {
            assert(rows(out@) =~= front + rest.take(0));
        }
        while k < m
            invariant
                k <= m,
                m == HELP_KEYS@.len(),
                n == HELP_COMMANDS@.len(),
                n < 100,
                m < 100,
                keys == HELP_KEYS,
                rest == Seq::new(
                    HELP_KEYS@.len(),
                    |i: int|
                        said(
                            help_line(HELP_KEYS@[i].0@, HELP_KEYS@[i].1@),
                            HELP_COMMANDS@.len() + i + 2,
                            CHROME_DIM,
                        ),
                ),
                rows(out@) == front + rest.take(k as int),
            decreases m - k,
        {
            put_row(&mut out, help_text(keys[k].0, keys[k].1), n + k + 2, CHROME_DIM, false);
            proof {
                assert(rows(out@) =~= front + rest.take(k + 1));
            }
            k = k + 1;
        }
        proof {
            assert(rest.take(k as int) =~= rest);
            assert(rows(out@) =~= self@.help_panel());
        }
        out
    }
}

} // verus!
