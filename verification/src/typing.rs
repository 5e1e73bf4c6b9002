//! What the keys do while an overlay is open that holds a field or a plain list: the sessions to
//! jump to, a new session, a machine to connect to, the searches, the fleet, a new name, the
//! commands.

use vstd::prelude::*;
use vstd::string::*;

use crate::board::{at_most, last_of, Act};
use crate::copying::CopyView;
use crate::finding::{kept, keep_within, nth, FinderView, HuntView};
use crate::geometry::less;
use crate::grid::{Find, Grid};
use crate::keys::{Key, KeyView, Mods, NamedKey};
use crate::lettering::clamped;
use crate::lists::PALETTE_ROWS;
use crate::machines::text_index;
use crate::seqs::ints;
use crate::shell::{CommandsView, FleetListView, JumpView, Overlay, Shell, ShellView};
use crate::tabs::{opt_text, tab_views, TabView};
use crate::text::{copy_text, drop_last_char, same_text, texts, trim, trimmed, without_last};
use crate::triage::index_of;

verus! {

/// A row so many rows down in a list of `n`, at most the last.
pub open spec fn row_down(sel: usize, k: int, n: nat) -> usize {
    at_most(clamped(sel + k) as usize, last_of(n))
}

/// A row so many rows up, at least the first.
pub open spec fn row_up(sel: usize, k: int) -> usize {
    less(sel as int, k) as usize
}

/// A row so many rows down in a list, at most the last.
pub fn step_down(sel: usize, k: usize, n: usize) -> (r: usize)
    ensures
        r == row_down(sel, k as int, n as nat),
{
    let to: usize = sel.saturating_add(k);
    let last: usize = if n == 0 {
        0
    } else {
        n - 1
    };
    if to <= last {
        to
    } else {
        last
    }
}

/// A row so many rows up, at least the first.
pub fn step_up(sel: usize, k: usize) -> (r: usize)
    ensures
        r == row_up(sel, k as int),
{
    sel.saturating_sub(k)
}

/// The row before a row, round the end; the first one where there is none.
pub open spec fn row_before(sel: usize, n: nat) -> usize {
    if n == 0 {
        0
    } else if sel > 0 {
        (sel - 1) as usize
    } else {
        last_of(n)
    }
}

/// The row behind a row, round the end.
pub open spec fn row_behind(sel: usize, n: nat) -> usize {
    if sel + 1 < n {
        (sel + 1) as usize
    } else {
        0
    }
}

fn step_before(sel: usize, n: usize) -> (r: usize)
    ensures
        r == row_before(sel, n as nat),
{
    if n == 0 {
        0
    } else if sel > 0 {
        sel - 1
    } else {
        n - 1
    }
}

fn step_behind(sel: usize, n: usize) -> (r: usize)
    ensures
        r == row_behind(sel, n as nat),
{
    if n > 0 && sel < n - 1 {
        sel + 1
    } else {
        0
    }
}

/// Where a text stands in a list.
pub fn place_of(v: &Vec<String>, t: &str) -> (r: Option<usize>)
    ensures
        index_of(r) == text_index(texts(v@), t@, 0),
        r matches Some(i) ==> i < v@.len(),
{
    let mut i: usize = 0;
    while i < v.len()
        invariant
            i <= v@.len(),
            text_index(texts(v@), t@, 0) == text_index(texts(v@), t@, i as int),
        decreases v@.len() - i,
    {
        if same_text(v[i].as_str(), t) {
            return Some(i);
        }
        i = i + 1;
    }
    None
}

impl ShellView {
    pub open spec fn at_row(self, selected: usize) -> ShellView {
        ShellView { selected, ..self }
    }

    pub open spec fn jump_typed(self, query: Seq<char>) -> ShellView {
        ShellView { jump: JumpView { query, ..self.jump }, ..self }.asks(Act::Refilter)
    }

    /// After a key in the list of sessions to jump to.
    #[verifier::opaque]
    pub open spec fn jump_keyed(self, key: KeyView, m: Mods) -> ShellView {
        let n = self.jump.shown as nat;
        match key {
            KeyView::Character(c) => self.jump_typed(self.jump.query + c),
            KeyView::Named(k) => match k {
                NamedKey::Enter => self.asks(Act::JumpTo),
                NamedKey::Escape => self.over(Overlay::Closed),
                NamedKey::ArrowDown => self.at_row(row_down(self.selected, 1, n)),
                NamedKey::ArrowUp => self.at_row(row_up(self.selected, 1)),
                NamedKey::Tab => if m.shift {
                    self.at_row(row_up(self.selected, 1))
                } else {
                    self.at_row(row_down(self.selected, 1, n))
                },
                NamedKey::PageDown => self.at_row(row_down(self.selected, 12, n)),
                NamedKey::PageUp => self.at_row(row_up(self.selected, 12)),
                NamedKey::Backspace => self.jump_typed(without_last(self.jump.query)),
                _ => self,
            },
            KeyView::Other => self,
        }
    }

    /// After a key in the picker for a new session.
    #[verifier::opaque]
    pub open spec fn new_keyed(self, key: KeyView) -> ShellView {
        let n = self.engines.len();
        match key {
            KeyView::Character(c) => ShellView { new_cwd: self.new_cwd + c, ..self },
            KeyView::Named(k) => match k {
                NamedKey::Enter => if self.selected < n {
                    self.asks(Act::SpawnLocal)
                } else {
                    self
                },
                NamedKey::Escape => self.over(Overlay::Closed),
                NamedKey::ArrowDown => self.at_row(row_down(self.selected, 1, n)),
                NamedKey::ArrowUp => self.at_row(row_up(self.selected, 1)),
                NamedKey::Backspace => ShellView { new_cwd: without_last(self.new_cwd), ..self },
                _ => self,
            },
            KeyView::Other => self,
        }
    }

    /// The machine that the tab key goes to: the next one remembered, or the one before, round the
    /// ends.
    pub open spec fn next_remote(self, back: bool) -> Seq<char> {
        let n = self.recent_hosts.len() as int;
        let i = match text_index(self.recent_hosts, trimmed(self.remote), 0) {
            Some(i) => if back {
                if i > 0 {
                    i - 1
                } else {
                    n - 1
                }
            } else if i + 1 < n {
                i + 1
            } else {
                0
            },
            None => if back {
                n - 1
            } else {
                0
            },
        };
        self.recent_hosts[i]
    }

    /// After a key in the field for a machine.
    #[verifier::opaque]
    pub open spec fn remote_keyed(self, key: KeyView, m: Mods) -> ShellView {
        let n = self.engines.len();
        match key {
            KeyView::Character(c) => ShellView { remote: self.remote + c, ..self },
            KeyView::Named(k) => match k {
                NamedKey::Tab => if self.recent_hosts.len() == 0 {
                    self
                } else {
                    ShellView { remote: self.next_remote(m.shift), ..self }
                },
                NamedKey::Enter => self.asks(Act::Connect),
                NamedKey::Escape => self.over(Overlay::Closed),
                NamedKey::ArrowDown => self.at_row(row_down(self.selected, 1, n)),
                NamedKey::ArrowUp => self.at_row(row_up(self.selected, 1)),
                NamedKey::Backspace => ShellView { remote: without_last(self.remote), ..self },
                _ => self,
            },
            KeyView::Other => self,
        }
    }

    pub open spec fn with_finder(self, finder: FinderView) -> ShellView {
        ShellView { finder, ..self }
    }

    pub open spec fn find_typed(self, query: Seq<char>) -> ShellView {
        self.with_finder(FinderView { query, ..self.finder }).asks(Act::FindAll)
    }

    pub open spec fn find_recorded(self) -> ShellView {
        self.with_finder(self.finder.recorded()).asks(Act::SaveFindHistory)
    }

    /// After a key in the find bar. While nothing is typed, `c` and `w` are the options.
    #[verifier::opaque]
    pub open spec fn find_keyed(self, key: KeyView, m: Mods) -> ShellView {
        let f = self.finder;
        match key {
            KeyView::Character(c) => if c == "c"@ && f.query.len() == 0 {
                self.with_finder(
                    FinderView { case_sensitive: !f.case_sensitive, ..f },
                ).asks(Act::SaveFindOptions).asks(Act::FindAll)
            } else if c == "w"@ && f.query.len() == 0 {
                self.with_finder(FinderView { whole_word: !f.whole_word, ..f }).asks(
                    Act::SaveFindOptions,
                ).asks(Act::FindAll)
            } else {
                self.find_typed(f.query + c)
            },
            KeyView::Named(k) => match k {
                NamedKey::Enter => self.find_recorded().find_stepped(!m.shift),
                NamedKey::Tab => self.find_stepped(!m.shift),
                NamedKey::ArrowDown => self.find_stepped(true),
                NamedKey::ArrowUp => if f.query.len() > 0 {
                    self.find_stepped(false)
                } else if f.history.len() > 0 {
                    self.find_typed(f.history[0])
                } else {
                    self
                },
                NamedKey::Backspace => self.find_typed(without_last(f.query)),
                NamedKey::Escape => self.over(Overlay::Closed),
                _ => self,
            },
            KeyView::Other => self,
        }
    }

    pub open spec fn with_hunt(self, hunt: HuntView) -> ShellView {
        ShellView { hunt, ..self }
    }

    pub open spec fn hunt_typed(self, query: Seq<char>) -> ShellView {
        self.with_hunt(HuntView { query, ..self.hunt }).asks(Act::HuntAll)
    }

    /// At the selected match of the search over all sessions: its tab active, its line in view, and
    /// the copy cursor on it.
    pub open spec fn hunt_taken(self) -> ShellView {
        match nth(self.hunt.matches, self.hunt.sel as int) {
            Some(m) => if m.tab < self.board.tabs.len() {
                ShellView {
                    board: self.board.focused(m.tab).at_line(m.line as int),
                    copy: CopyView { line: m.line, col: m.col, ..self.copy },
                    overlay: Overlay::Closed,
                    ..self
                }
            } else {
                self.over(Overlay::Closed)
            },
            None => self.over(Overlay::Closed),
        }
    }

    /// After a key in the search over all sessions.
    #[verifier::opaque]
    pub open spec fn hunt_keyed(self, key: KeyView, m: Mods) -> ShellView {
        match key {
            KeyView::Character(c) => self.hunt_typed(self.hunt.query + c),
            KeyView::Named(k) => match k {
                NamedKey::Enter => self.hunt_taken(),
                NamedKey::Tab => self.with_hunt(self.hunt.stepped(!m.shift)),
                NamedKey::ArrowDown => self.with_hunt(self.hunt.stepped(true)),
                NamedKey::ArrowUp => self.with_hunt(self.hunt.stepped(false)),
                NamedKey::Backspace => self.hunt_typed(without_last(self.hunt.query)),
                NamedKey::Escape => self.over(Overlay::Closed),
                _ => self,
            },
            KeyView::Other => self,
        }
    }

    /// With the fleet's rows that the query leaves, and the selection among them.
    pub open spec fn fleet_refreshed(self) -> ShellView {
        let f = self.fleet.refreshed();
        ShellView { fleet: f, selected: kept(self.selected, f.shown.len()), ..self }
    }

    pub open spec fn fleet_typed(self, query: Seq<char>) -> ShellView {
        ShellView {
            fleet: FleetListView { query, ..self.fleet },
            selected: 0,
            ..self
        }.fleet_refreshed()
    }

    /// With the selected session of the fleet in view: an open tab of its engine, else a new
    /// session.
    pub open spec fn fleet_taken(self) -> ShellView {
        let row = match nth(self.fleet.shown, self.selected as int) {
            Some(i) => i,
            None => self.selected as int,
        };
        match nth(self.fleet.rows, row) {
            Some(r) => match text_index(
                self.board.tabs.map_values(|t: TabView| t.engine),
                r.engine,
                0,
            ) {
                Some(i) => self.on(self.board.focused(i as usize)),
                None => if r.engine.len() > 0 {
                    self.asks(Act::SpawnFleet(row as usize))
                } else {
                    self
                },
            },
            None => self,
        }.over(Overlay::Closed)
    }

    /// After a key in the list of the fleet.
    #[verifier::opaque]
    pub open spec fn fleet_keyed(self, key: KeyView) -> ShellView {
        let n = self.fleet.shown.len();
        match key {
            KeyView::Named(k) => match k {
                NamedKey::Escape => self.over(Overlay::Closed),
                NamedKey::ArrowDown => if n > 0 {
                    self.at_row(row_down(self.selected, 1, n))
                } else {
                    self
                },
                NamedKey::ArrowUp => self.at_row(row_up(self.selected, 1)),
                NamedKey::PageDown => if n > 0 {
                    self.at_row(row_down(self.selected, 10, n))
                } else {
                    self
                },
                NamedKey::PageUp => self.at_row(row_up(self.selected, 10)),
                NamedKey::Enter => self.fleet_taken(),
                NamedKey::Backspace => self.fleet_typed(without_last(self.fleet.query)),
                _ => self,
            },
            KeyView::Character(c) => if c == "s"@ && self.fleet.query.len() == 0 {
                self.asks(Act::RefreshFleet)
            } else {
                self.fleet_typed(self.fleet.query + c)
            },
            KeyView::Other => self,
        }
    }

    /// With the active session renamed; a blank name takes its name away.
    pub open spec fn renamed(self) -> ShellView {
        let b = self.board;
        let name = if trimmed(self.rename).len() == 0 {
            None
        } else {
            Some(trimmed(self.rename))
        };
        if b.active < b.tabs.len() {
            self.on(b.with_active(TabView { name, ..b.tabs[b.active as int] }))
        } else {
            self
        }.over(Overlay::Closed)
    }

    /// After a key in the field for a name.
    #[verifier::opaque]
    pub open spec fn rename_keyed(self, key: KeyView) -> ShellView {
        match key {
            KeyView::Character(c) => ShellView { rename: self.rename + c, ..self },
            KeyView::Named(k) => match k {
                NamedKey::Enter => self.renamed(),
                NamedKey::Backspace => ShellView { rename: without_last(self.rename), ..self },
                NamedKey::Escape => self.over(Overlay::Closed),
                _ => self,
            },
            KeyView::Other => self,
        }
    }

    pub open spec fn with_cmd(self, cmd: CommandsView) -> ShellView {
        ShellView { cmd, ..self }
    }

    /// After a key in the command palette.
    #[verifier::opaque]
    pub open spec fn cmd_keyed(self, key: KeyView, m: Mods, now: u64) -> ShellView {
        let c = self.cmd;
        let n = c.shown.len();
        let to = |sel: usize| self.with_cmd(CommandsView { sel, ..c });
        match key {
            KeyView::Character(t) => self.with_cmd(
                CommandsView { query: c.query + t, ..c }.refreshed(),
            ),
            KeyView::Named(k) => match k {
                NamedKey::Enter => match nth(c.shown, c.sel as int) {
                    Some(i) => match nth(PALETTE_ROWS@, i) {
                        Some(row) => self.over(Overlay::Closed).performed(row.1, now),
                        None => self,
                    },
                    None => self,
                },
                NamedKey::Tab => if m.shift {
                    to(row_before(c.sel, n))
                } else if n > 0 {
                    to(row_behind(c.sel, n))
                } else {
                    self
                },
                NamedKey::ArrowDown => if n > 0 {
                    to(row_down(c.sel, 1, n))
                } else {
                    self
                },
                NamedKey::ArrowUp => to(row_up(c.sel, 1)),
                NamedKey::Backspace => self.with_cmd(
                    CommandsView { query: without_last(c.query), ..c }.refreshed(),
                ),
                NamedKey::Escape => self.with_cmd(
                    CommandsView { query: Seq::empty(), ..c },
                ).over(Overlay::Closed),
                _ => self,
            },
            KeyView::Other => self,
        }
    }
}

impl Shell {
    /// Handles a key in the list of sessions to jump to.
    pub fn jump_key(&mut self, key: &Key, mods: &Mods)
        ensures
            final(self)@ == old(self)@.jump_keyed(key@, *mods),
            final(self)@.wf() == old(self)@.wf(),
    {
        proof {
            reveal(ShellView::jump_keyed);
        }
        let n: usize = self.jump.shown;
        match key {
            Key::Character(c) => {
                self.jump.query.append(c.as_str());
                self.board.ask(Act::Refilter);
            },
            Key::Named(k) => match k {
                NamedKey::Enter => self.board.ask(Act::JumpTo),
                NamedKey::Escape => {
                    self.overlay = Overlay::Closed;
                },
                NamedKey::ArrowDown => {
                    self.selected = step_down(self.selected, 1, n);
                },
                NamedKey::ArrowUp => {
                    self.selected = step_up(self.selected, 1);
                },
                NamedKey::Tab => {
                    self.selected =
                    if mods.shift {
                        step_up(self.selected, 1)
                    } else {
                        step_down(self.selected, 1, n)
                    };
                },
                NamedKey::PageDown => {
                    self.selected = step_down(self.selected, 12, n);
                },
                NamedKey::PageUp => {
                    self.selected = step_up(self.selected, 12);
                },
                NamedKey::Backspace => {
                    self.jump.query = drop_last_char(self.jump.query.as_str());
                    self.board.ask(Act::Refilter);
                },
                _ => {},
            },
            Key::Other => {},
        }
    }

    /// Handles a key in the picker for a new session.
    pub fn new_session_key(&mut self, key: &Key)
        ensures
            final(self)@ == old(self)@.new_keyed(key@),
            final(self)@.wf() == old(self)@.wf(),
    {
        proof {
            reveal(ShellView::new_keyed);
        }
        let n: usize = self.engines.len();
        match key {
            Key::Character(c) => self.new_cwd.append(c.as_str()),
            Key::Named(k) => match k {
                NamedKey::Enter => {
                    if self.selected < n {
                        self.board.ask(Act::SpawnLocal);
                    }
                },
                NamedKey::Escape => {
                    self.overlay = Overlay::Closed;
                },
                NamedKey::ArrowDown => {
                    self.selected = step_down(self.selected, 1, n);
                },
                NamedKey::ArrowUp => {
                    self.selected = step_up(self.selected, 1);
                },
                NamedKey::Backspace => {
                    self.new_cwd = drop_last_char(self.new_cwd.as_str());
                },
                _ => {},
            },
            Key::Other => {},
        }
    }

    fn cycle_remote(&mut self, back: bool)
        requires
            old(self)@.recent_hosts.len() > 0,
        ensures
            final(self)@ == (ShellView { remote: old(self)@.next_remote(back), ..old(self)@ }),
    {
        let n: usize = self.recent_hosts.len();
        let cur = trim(self.remote.as_str());
        let i: usize = match place_of(&self.recent_hosts, cur.as_str()) {
            Some(i) => if back {
                if i > 0 {
                    i - 1
                } else {
                    n - 1
                }
            } else if i + 1 < n {
                i + 1
            } else {
                0
            },
            None => if back {
                n - 1
            } else {
                0
            },
        };
        self.remote = copy_text(self.recent_hosts[i].as_str());
    }

    /// Handles a key in the field for a machine.
    pub fn remote_key(&mut self, key: &Key, mods: &Mods)
        ensures
            final(self)@ == old(self)@.remote_keyed(key@, *mods),
            final(self)@.wf() == old(self)@.wf(),
    {
        proof {
            reveal(ShellView::remote_keyed);
        }
        let n: usize = self.engines.len();
        match key {
            Key::Character(c) => self.remote.append(c.as_str()),
            Key::Named(k) => match k {
                NamedKey::Tab => {
                    if self.recent_hosts.len() > 0 {
                        self.cycle_remote(mods.shift);
                    }
                },
                NamedKey::Enter => self.board.ask(Act::Connect),
                NamedKey::Escape => {
                    self.overlay = Overlay::Closed;
                },
                NamedKey::ArrowDown => {
                    self.selected = step_down(self.selected, 1, n);
                },
                NamedKey::ArrowUp => {
                    self.selected = step_up(self.selected, 1);
                },
                NamedKey::Backspace => {
                    self.remote = drop_last_char(self.remote.as_str());
                },
                _ => {},
            },
            Key::Other => {},
        }
    }

    /// Handles a key in the find bar.
    #[verifier::rlimit(40)]
    pub fn find_key(&mut self, key: &Key, mods: &Mods)
        ensures
            final(self)@ == old(self)@.find_keyed(key@, *mods),
            final(self)@.wf() == old(self)@.wf(),
    {
        proof {
            reveal(ShellView::find_keyed);
        }
        let blank = self.finder.query.as_str().is_empty();
        match key {
            Key::Character(c) => {
                let c = c.as_str();
                if same_text(c, "c") && blank {
                    self.finder.case_sensitive = !self.finder.case_sensitive;
                    self.board.ask(Act::SaveFindOptions);
                } else if same_text(c, "w") && blank {
                    self.finder.whole_word = !self.finder.whole_word;
                    self.board.ask(Act::SaveFindOptions);
                } else {
                    self.finder.query.append(c);
                }
                self.board.ask(Act::FindAll);
            },
            Key::Named(k) => match k {
                NamedKey::Enter => {
                    self.finder.record();
                    self.board.ask(Act::SaveFindHistory);
                    self.find_jump(!mods.shift);
                },
                NamedKey::Tab => self.find_jump(!mods.shift),
                NamedKey::ArrowDown => self.find_jump(true),
                NamedKey::ArrowUp => {
                    if !blank {
                        self.find_jump(false);
                    } else if self.finder.history.len() > 0 {
                        self.finder.query = copy_text(self.finder.history[0].as_str());
                        self.board.ask(Act::FindAll);
                    }
                },
                NamedKey::Backspace => {
                    self.finder.query = drop_last_char(self.finder.query.as_str());
                    self.board.ask(Act::FindAll);
                },
                NamedKey::Escape => {
                    self.overlay = Overlay::Closed;
                },
                _ => {},
            },
            Key::Other => {},
        }
    }

    /// Takes the matches of the find bar's query in the active session.
    pub fn found(&mut self, all: Vec<Find>)
        ensures
            final(self)@ == (ShellView {
                finder: old(self)@.finder.found(all@),
                board: old(self)@.finder.found(all@).shown(old(self)@.board),
                ..old(self)@
            }),
            final(self)@.wf() == old(self)@.wf(),
    {
        self.finder.take(all, &mut self.board);
    }

    /// Searches for the text that is selected, where there is any.
    pub fn search_selection(&mut self, text: &str)
        ensures
            final(self)@ == if text@.len() == 0 {
                old(self)@
            } else {
                ShellView {
                    finder: FinderView {
                        query: text@,
                        hit: None,
                        all: Seq::empty(),
                        ..old(self)@.finder
                    },
                    selected: 0,
                    overlay: Overlay::Find,
                    ..old(self)@
                }.asks(Act::FindAll)
            },
            final(self)@.wf() == old(self)@.wf(),
    {
        if !text.is_empty() {
            self.finder.query = copy_text(text);
            self.finder.hit = None;
            self.finder.all = Vec::new();
            self.selected = 0;
            self.overlay = Overlay::Find;
            self.board.ask(Act::FindAll);
        }
    }

    /// Searches all sessions for the query that was typed.
    pub fn hunted(&mut self, grids: &Vec<Grid>)
        requires
            forall|i: int| 0 <= i < grids@.len() ==> (#[trigger] grids@[i]).wf(),
        ensures
            final(self)@ == old(self)@.with_hunt(old(self)@.hunt.hunted(grids@)),
    {
        self.hunt.run(grids);
    }

    fn fleet_jump_to(&mut self)
        requires
            old(self)@.wf(),
        ensures
            final(self)@ == old(self)@.hunt_taken(),
            final(self)@.wf(),
    {
        if self.hunt.sel < self.hunt.matches.len() {
            let m = self.hunt.matches[self.hunt.sel];
            if m.tab < self.board.tabs.len() {
                self.board.set_active(m.tab);
                self.board.scroll_to_line(m.line);
                self.copy.line = m.line;
                self.copy.col = m.col;
            }
        }
        self.overlay = Overlay::Closed;
    }

    /// Handles a key in the search over all sessions.
    pub fn hunt_key(&mut self, key: &Key, mods: &Mods)
        requires
            old(self)@.wf(),
        ensures
            final(self)@ == old(self)@.hunt_keyed(key@, *mods),
            final(self)@.wf(),
    {
        proof {
            reveal(ShellView::hunt_keyed);
        }
        match key {
            Key::Character(c) => {
                self.hunt.query.append(c.as_str());
                self.board.ask(Act::HuntAll);
            },
            Key::Named(k) => match k {
                NamedKey::Enter => self.fleet_jump_to(),
                NamedKey::Tab => self.hunt.jump(!mods.shift),
                NamedKey::ArrowDown => self.hunt.jump(true),
                NamedKey::ArrowUp => self.hunt.jump(false),
                NamedKey::Backspace => {
                    self.hunt.query = drop_last_char(self.hunt.query.as_str());
                    self.board.ask(Act::HuntAll);
                },
                NamedKey::Escape => {
                    self.overlay = Overlay::Closed;
                },
                _ => {},
            },
            Key::Other => {},
        }
    }

    /// Filters the fleet by the query, and keeps the selection among what is left.
    pub fn fleet_refresh_filter(&mut self)
        ensures
            final(self)@ == old(self)@.fleet_refreshed(),
            final(self)@.wf() == old(self)@.wf(),
    {
        self.fleet.refresh();
        self.selected = keep_within(self.selected, self.fleet.shown.len());
    }

    fn tab_of_engine(&self, engine: &str) -> (r: Option<usize>)
        ensures
            index_of(r) == text_index(
                self@.board.tabs.map_values(|t: TabView| t.engine),
                engine@,
                0,
            ),
    {
        let ghost all = self@.board.tabs.map_values(|t: TabView| t.engine);
        let n: usize = self.board.tabs.len();
        let mut i: usize = 0;
        while i < n
            invariant
                i <= n,
                n == self.board.tabs@.len(),
                all == self@.board.tabs.map_values(|t: TabView| t.engine),
                text_index(all, engine@, 0) == text_index(all, engine@, i as int),
            decreases n - i,
        {
            proof {
                assert(all[i as int] == self.board.tabs@[i as int]@.engine);
            }
            if same_text(self.board.tabs[i].engine.as_str(), engine) {
                return Some(i);
            }
            i = i + 1;
        }
        None
    }

    fn fleet_attach_selected(&mut self)
        requires
            old(self)@.wf(),
        ensures
            final(self)@ == old(self)@.fleet_taken(),
            final(self)@.wf(),
    {
        let row: usize = if self.selected < self.fleet.shown.len() {
            proof {
                assert(ints(self.fleet.shown@)[self.selected as int]
                    == self.fleet.shown@[self.selected as int]);
            }
            self.fleet.shown[self.selected]
        } else {
            self.selected
        };
        if row < self.fleet.rows.len() {
            proof {
                assert(self@.fleet.rows[row as int] == self.fleet.rows@[row as int]@);
            }
            let engine = copy_text(self.fleet.rows[row].engine.as_str());
            match self.tab_of_engine(engine.as_str()) {
                Some(i) => self.board.set_active(i),
                None => {
                    if !engine.as_str().is_empty() {
                        self.board.ask(Act::SpawnFleet(row));
                    }
                },
            }
        }
        self.overlay = Overlay::Closed;
    }

    /// Handles a key in the list of the fleet.
    pub fn fleet_key(&mut self, key: &Key)
        requires
            old(self)@.wf(),
        ensures
            final(self)@ == old(self)@.fleet_keyed(key@),
            final(self)@.wf(),
    {
        proof {
            reveal(ShellView::fleet_keyed);
        }
        let n: usize = self.fleet.shown.len();
        match key {
            Key::Named(k) => match k {
                NamedKey::Escape => {
                    self.overlay = Overlay::Closed;
                },
                NamedKey::ArrowDown => {
                    if n > 0 {
                        self.selected = step_down(self.selected, 1, n);
                    }
                },
                NamedKey::ArrowUp => {
                    self.selected = step_up(self.selected, 1);
                },
                NamedKey::PageDown => {
                    if n > 0 {
                        self.selected = step_down(self.selected, 10, n);
                    }
                },
                NamedKey::PageUp => {
                    self.selected = step_up(self.selected, 10);
                },
                NamedKey::Enter => self.fleet_attach_selected(),
                NamedKey::Backspace => {
                    self.fleet.query = drop_last_char(self.fleet.query.as_str());
                    self.selected = 0;
                    self.fleet_refresh_filter();
                },
                _ => {},
            },
            Key::Character(c) => {
                if same_text(c.as_str(), "s") && self.fleet.query.as_str().is_empty() {
                    self.board.ask(Act::RefreshFleet);
                } else {
                    self.fleet.query.append(c.as_str());
                    self.selected = 0;
                    self.fleet_refresh_filter();
                }
            },
            Key::Other => {},
        }
    }

    fn commit_rename(&mut self)
        ensures
            final(self)@ == old(self)@.renamed(),
            final(self)@.wf() == old(self)@.wf(),
    {
        let i: usize = self.board.active;
        if i < self.board.tabs.len() {
            let t = trim(self.rename.as_str());
            let name = if t.as_str().is_empty() {
                None
            } else {
                Some(t)
            };
            let ghost was = self.board.tabs@;
            let ghost n = opt_text(name);
            self.board.tabs[i].name = name;
            proof {
                assert(tab_views(self.board.tabs@) =~= tab_views(was).update(
                    i as int,
                    TabView { name: n, ..was[i as int]@ },
                ));
            }
        }
        self.overlay = Overlay::Closed;
    }

    /// Handles a key in the field for a name.
    pub fn rename_key(&mut self, key: &Key)
        ensures
            final(self)@ == old(self)@.rename_keyed(key@),
            final(self)@.wf() == old(self)@.wf(),
    {
        proof {
            reveal(ShellView::rename_keyed);
        }
        match key {
            Key::Character(c) => self.rename.append(c.as_str()),
            Key::Named(k) => match k {
                NamedKey::Enter => self.commit_rename(),
                NamedKey::Backspace => {
                    self.rename = drop_last_char(self.rename.as_str());
                },
                NamedKey::Escape => {
                    self.overlay = Overlay::Closed;
                },
                _ => {},
            },
            Key::Other => {},
        }
    }

    /// Handles a key in the command palette.
    pub fn palette_key(&mut self, key: &Key, mods: &Mods, now: u64)
        requires
            old(self)@.wf(),
        ensures
            final(self)@ == old(self)@.cmd_keyed(key@, *mods, now),
            final(self)@.wf(),
    {
        proof {
            reveal(ShellView::cmd_keyed);
        }
        let n: usize = self.cmd.shown.len();
        match key {
            Key::Character(c) => {
                self.cmd.query.append(c.as_str());
                self.cmd.refresh();
            },
            Key::Named(k) => match k {
                NamedKey::Enter => {
                    if self.cmd.sel < n {
                        let rows = PALETTE_ROWS;
                        let i: usize = self.cmd.shown[self.cmd.sel];
                        proof {
                            assert(ints(self.cmd.shown@)[self.cmd.sel as int] == i);
                        }
                        if i < rows.len() {
                            self.run_palette_action(rows[i].1, now);
                        }
                    }
                },
                NamedKey::Tab => {
                    if mods.shift {
                        self.cmd.sel = step_before(self.cmd.sel, n);
                    } else if n > 0 {
                        self.cmd.sel = step_behind(self.cmd.sel, n);
                    }
                },
                NamedKey::ArrowDown => {
                    if n > 0 {
                        self.cmd.sel = step_down(self.cmd.sel, 1, n);
                    }
                },
                NamedKey::ArrowUp => {
                    self.cmd.sel = step_up(self.cmd.sel, 1);
                },
                NamedKey::Backspace => {
                    self.cmd.query = drop_last_char(self.cmd.query.as_str());
                    self.cmd.refresh();
                },
                NamedKey::Escape => {
                    self.cmd.query = String::new();
                    self.overlay = Overlay::Closed;
                },
                _ => {},
            },
            Key::Other => {},
        }
    }
}

} // verus!
