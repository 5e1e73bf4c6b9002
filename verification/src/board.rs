//! The open tabs and what is kept of each: which one is looked at, switching, moving and closing
//! them, and the windows that show them where every session has its own.
//!
//! Nothing here touches the outside. What has to be done there (a file written, a pane closed, a
//! window focused) is put on a list, in order, for the window to work off.

use vstd::prelude::*;

use crate::activity::{Seen, Slot};
use crate::notify::notice_views;
use crate::seqs::{ints, move_slot, moved, swap_slot, swapped};
use crate::tabs::{tab_views, Notice, Tab, TabView};
use crate::text::copy_text;
use crate::triage::index_of;

verus! {

/// What a round of reconnects was for.
#[derive(Clone, Copy, Debug, PartialEq, Eq, Structural)]
pub enum Round {
    /// The active tab.
    Active,
    /// Every pane that is down, or every marked one.
    Sweep,
    /// The panes of the machine that is looked into.
    Machine,
    /// The pane with this number, from a list.
    Row(usize),
}

/// Something for the window to do.
#[derive(Clone, Copy, Debug, PartialEq, Eq, Structural)]
pub enum Act {
    /// Write down which tab is active.
    SaveActive,
    /// Write down which tabs are open.
    SaveTabs,
    SaveMuted,
    SavePins,
    SaveFindOptions,
    SaveFindHistory,
    SaveBroadcast,
    SaveScrollbacks,
    SaveGeometry,
    /// Drop the session with this number, keeping what it takes to open it again.
    Close(usize),
    /// Kill the pane of the session with this number.
    Destroy(usize),
    /// Close the window with this number.
    DropWindow(usize),
    /// Bring the window with this number to the front.
    FocusWindow(usize),
    /// Swap two sessions.
    Swap(usize, usize),
    /// Take a session out and put it in at another place.
    Relocate(usize, usize),
    Redraw,
    /// Select the engine that the configuration names.
    DefaultEngine,
    /// Filter the list of sessions to jump to.
    Refilter,
    /// Jump to the selected session of that list.
    JumpTo,
    /// Open the session again that was closed last.
    Reopen,
    /// Open a second session like the active one.
    Duplicate,
    RefreshFleet,
    /// Open a local shell.
    SpawnShell,
    /// Open a session of the selected engine in the directory that was typed.
    SpawnLocal,
    /// Open a session of the engine of this row of the fleet.
    SpawnFleet(usize),
    /// Connect to the machine that was typed.
    Connect,
    /// Find the query in the active session.
    FindAll,
    /// Find the query in all sessions.
    HuntAll,
    /// Scroll the active view by so many lines, up where positive.
    Scroll(i64),
    CopyScrollback,
    ExportScrollback,
    CopyIdentity,
    CopyFleet,
    /// Copy the selected text.
    CopySelection,
    /// Copy the selected text and drop the selection.
    CutSelection,
    /// Copy from one cell to another, both lines counted down from the live screen's first.
    CopySpan(i32, usize, i32, usize),
    /// Select the whole scrollback and copy it.
    SelectAll,
    /// Search for the selected text.
    SearchSelection,
    /// Open what stands under the cell.
    Open(usize, usize),
    Paste,
    PasteRaw,
    /// Send an interrupt to the session with this number.
    Interrupt(usize),
    /// Send the line that was broadcast last to the session with this number.
    Cast(usize),
    /// Try to reconnect the session with this number.
    Retry(usize),
    /// Report how the reconnects went.
    Report(Round),
    /// Send the key that was pressed to the active session.
    Type,
    ZoomIn,
    ZoomOut,
    ZoomReset,
    Fullscreen,
    /// Clear the selection.
    Unselect,
    /// Start a selection in a cell: of characters, of a word, of whole lines.
    Select(usize, usize),
    SelectWord(usize, usize),
    SelectLines(usize, usize),
    /// Let the selection reach up to a cell.
    Extend(usize, usize),
    /// Tell the active session of the mouse: its code, the column, the row, and whether a button
    /// was let go.
    MouseReport(u16, usize, usize, bool),
    /// Tell the active session to put its cursor in a row and a column.
    CursorTo(usize, usize),
    /// Show the pointer as a hand, or as usual.
    Hand(bool),
    /// Scroll to a height of the scroll bar.
    Track(i64),
    /// Wake up again after so many milliseconds.
    Wait(u64),
    /// Have the daemon asked how the connections are.
    SweepConnections,
    /// Leave.
    Exit,
}

/// A message that shows for a moment.
pub struct Flash {
    pub text: String,
    pub at: u64,
}

/// A message as plain data.
#[verifier::ext_equal]
pub struct FlashView {
    pub text: Seq<char>,
    pub at: u64,
}

/// The open tabs and what is kept of each.
pub struct Board {
    pub tabs: Vec<Tab>,
    pub slots: Vec<Slot>,
    /// The tab that is looked at.
    pub active: usize,
    /// The tab that was looked at before.
    pub last: Option<usize>,
    /// Every session has a window of its own.
    pub native: bool,
    /// The tab that each window shows.
    pub wins: Vec<usize>,
    /// The window that is looked at.
    pub win: usize,
    /// What is left for the window to do, in order.
    pub todo: Vec<Act>,
    pub flash: Option<Flash>,
    /// What is left to announce.
    pub notices: Vec<Notice>,
    /// Nothing is announced.
    pub dnd: bool,
    /// The bars are hidden.
    pub focus: bool,
    /// After how long a silent session counts as waiting, in milliseconds.
    pub quiet_after: u64,
    /// The tab under the pointer.
    pub hover: Option<usize>,
    /// The tab that is being dragged, and whether it has changed its place since it was pressed.
    pub drag: Option<usize>,
    pub dragged: bool,
    /// Where the preview of the tab under the pointer was drawn: its corner and its size.
    pub tip: Option<(usize, usize, usize, usize)>,
}

/// The open tabs as plain data.
#[verifier::ext_equal]
pub struct BoardView {
    pub tabs: Seq<TabView>,
    pub slots: Seq<Slot>,
    pub active: usize,
    pub last: Option<usize>,
    pub native: bool,
    pub wins: Seq<usize>,
    pub win: usize,
    pub todo: Seq<Act>,
    pub flash: Option<FlashView>,
    pub notices: Seq<(Seq<char>, Seq<char>)>,
    pub dnd: bool,
    pub focus: bool,
    pub quiet_after: u64,
    pub hover: Option<usize>,
    pub drag: Option<usize>,
    pub dragged: bool,
    pub tip: Option<(usize, usize, usize, usize)>,
}

pub open spec fn flash_view(f: Option<Flash>) -> Option<FlashView> {
    match f {
        Some(m) => Some(FlashView { text: m.text@, at: m.at }),
        None => None,
    }
}

impl View for Board {
    type V = BoardView;

    open spec fn view(&self) -> BoardView {
        BoardView {
            tabs: tab_views(self.tabs@),
            slots: self.slots@,
            active: self.active,
            last: self.last,
            native: self.native,
            wins: self.wins@,
            win: self.win,
            todo: self.todo@,
            flash: flash_view(self.flash),
            notices: notice_views(self.notices@),
            dnd: self.dnd,
            focus: self.focus,
            quiet_after: self.quiet_after,
            hover: self.hover,
            drag: self.drag,
            dragged: self.dragged,
            tip: self.tip,
        }
    }
}

/// The number of the last of `n` things, or zero where there is none.
pub open spec fn last_of(n: nat) -> usize {
    if n == 0 {
        0
    } else {
        (n - 1) as usize
    }
}

/// The smaller of two numbers.
pub open spec fn at_most(a: usize, b: usize) -> usize {
    if a <= b {
        a
    } else {
        b
    }
}

fn at_most_of(a: usize, b: usize) -> (r: usize)
    ensures
        r == at_most(a, b),
{
    if a <= b {
        a
    } else {
        b
    }
}

/// The first window that shows a tab.
pub open spec fn window_of(wins: Seq<usize>, tab: usize, from: int) -> Option<int>
    decreases wins.len() - from,
{
    if from < 0 || from >= wins.len() {
        None
    } else if wins[from] == tab {
        Some(from)
    } else {
        window_of(wins, tab, from + 1)
    }
}

fn find_window(wins: &Vec<usize>, tab: usize) -> (r: Option<usize>)
    ensures
        index_of(r) == window_of(wins@, tab, 0),
{
    let mut i: usize = 0;
    while i < wins.len()
        invariant
            i <= wins@.len(),
            window_of(wins@, tab, 0) == window_of(wins@, tab, i as int),
        decreases wins@.len() - i,
    {
        if wins[i] == tab {
            return Some(i);
        }
        i = i + 1;
    }
    None
}

/// The windows without the one with number `c`, those that show a later tab than `c` now showing
/// the tab before it.
pub open spec fn windows_without(wins: Seq<usize>, c: int) -> Seq<usize> {
    wins.remove(c).map_values(
        |t: usize|
            if t > c {
                (t - 1) as usize
            } else {
                t
            },
    )
}

impl BoardView {
    /// The slots belong to the tabs, and the active tab is one of them.
    pub open spec fn wf(self) -> bool {
        &&& self.slots.len() == self.tabs.len()
        &&& self.tabs.len() <= usize::MAX
        &&& self.active < self.tabs.len() || (self.tabs.len() == 0 && self.active == 0)
    }

    /// With one more thing to do.
    pub open spec fn asks(self, a: Act) -> BoardView {
        BoardView { todo: self.todo.push(a), ..self }
    }

    /// With a message.
    pub open spec fn says(self, text: Seq<char>, now: u64) -> BoardView {
        BoardView { flash: Some(FlashView { text, at: now }), ..self }
    }

    /// What was observed of the sessions.
    pub open spec fn seen(self) -> Seq<Seen> {
        self.tabs.map_values(|t: TabView| t.seen)
    }

    /// Whether a tab may not be closed.
    pub open spec fn pinned(self, i: int) -> bool {
        0 <= i < self.slots.len() && self.slots[i].pinned
    }

    /// With the active tab taken from the window that is looked at.
    pub open spec fn aliased(self) -> BoardView {
        if self.wins.len() == 0 {
            self
        } else {
            BoardView {
                active: at_most(
                    self.wins[at_most(self.win, last_of(self.wins.len())) as int],
                    last_of(self.tabs.len()),
                ),
                ..self
            }
        }
    }

    /// With another tab active.
    pub open spec fn focused(self, i: usize) -> BoardView {
        let b = BoardView {
            last: if i != self.active && self.active < self.tabs.len() {
                Some(self.active)
            } else {
                self.last
            },
            active: at_most(i, last_of(self.tabs.len())),
            ..self
        }.asks(Act::SaveActive);
        if self.native {
            match window_of(b.wins, b.active, 0) {
                Some(h) => BoardView { win: h as usize, ..b }.aliased().asks(
                    Act::FocusWindow(h as usize),
                ).asks(Act::Redraw),
                None => b,
            }
        } else {
            b
        }
    }

    /// With the tab active again that was so before.
    pub open spec fn flipped(self) -> BoardView {
        match self.last {
            Some(p) => {
                let b = BoardView { last: None, ..self };
                if p < self.tabs.len() {
                    b.focused(p)
                } else {
                    b
                }
            },
            None => self,
        }
    }

    /// With the next tab active, or the one before, round the ends.
    pub open spec fn turned(self, forward: bool) -> BoardView {
        if self.tabs.len() == 0 {
            self
        } else {
            let n = self.tabs.len() as int;
            self.focused(
                if forward {
                    ((self.active + 1) % n) as usize
                } else {
                    ((self.active + n - 1) % n) as usize
                },
            )
        }
    }

    /// With the active tab moved one place; at an end it stays.
    pub open spec fn shifted(self, right: bool) -> BoardView {
        let a = self.active as int;
        let b = if right {
            a + 1
        } else {
            a - 1
        };
        if 0 <= b < self.tabs.len() && a < self.tabs.len() {
            BoardView {
                tabs: swapped(self.tabs, a, b),
                slots: swapped(self.slots, a, b),
                active: b as usize,
                last: None,
                ..self
            }.asks(Act::Swap(a as usize, b as usize)).asks(Act::SaveTabs)
        } else {
            self
        }
    }

    /// Where the active tab stands after a tab was taken out and put in elsewhere.
    pub open spec fn active_after(self, from: int, to: int) -> usize {
        let a = self.active as int;
        if a == from {
            to as usize
        } else if from < a <= to {
            (a - 1) as usize
        } else if to <= a < from {
            (a + 1) as usize
        } else {
            self.active
        }
    }

    /// With a tab dragged to another place.
    pub open spec fn reordered(self, from: int, to: int) -> BoardView {
        if 0 <= from < self.tabs.len() && 0 <= to < self.tabs.len() {
            BoardView {
                tabs: moved(self.tabs, from, to),
                slots: moved(self.slots, from, to),
                active: self.active_after(from, to),
                last: None,
                ..self
            }.asks(Act::Relocate(from as usize, to as usize))
        } else {
            self
        }
    }

    /// Without the window with number `c`.
    pub open spec fn unwindowed(self, c: int) -> BoardView {
        if !self.native || c < 0 || c >= self.wins.len() {
            self
        } else {
            let wins = windows_without(self.wins, c);
            let win = if c < self.win {
                (self.win - 1) as usize
            } else {
                self.win
            };
            BoardView { wins, win: at_most(win, last_of(wins.len())), ..self }.aliased().asks(
                Act::DropWindow(c as usize),
            ).asks(Act::Redraw)
        }
    }

    /// Without the tab with number `i`.
    pub open spec fn without(self, i: int) -> BoardView {
        let tabs = self.tabs.remove(i);
        BoardView {
            tabs,
            slots: self.slots.remove(i),
            active: if self.active > i {
                (self.active - 1) as usize
            } else {
                at_most(self.active, last_of(tabs.len()))
            },
            last: None,
            hover: None,
            drag: None,
            tip: None,
            ..self
        }.asks(Act::Close(i as usize)).unwindowed(i)
    }

    /// With the tab with number `i` closed, unless it is pinned.
    pub open spec fn closed(self, i: int, now: u64) -> BoardView {
        if i < 0 || i >= self.tabs.len() {
            self
        } else if self.pinned(i) {
            self.says("🔒 pinned — prefix A to unpin first"@, now)
        } else {
            self.without(i).asks(Act::SavePins).asks(Act::SaveTabs)
        }
    }

    /// Without the tabs listed, the last of the list first.
    pub open spec fn without_all(self, list: Seq<int>) -> BoardView
        decreases list.len(),
    {
        if list.len() == 0 {
            self
        } else {
            self.without(list.last()).without_all(list.drop_last())
        }
    }
}

impl Board {
    /// Leaves something for the window to do.
    pub fn ask(&mut self, a: Act)
        ensures
            final(self)@ == old(self)@.asks(a),
    {
        self.todo.push(a);
    }

    /// Shows a message.
    pub fn say(&mut self, text: String, now: u64)
        ensures
            final(self)@ == old(self)@.says(text@, now),
    {
        self.flash = Some(Flash { text, at: now });
    }

    /// Notes the tab under the pointer.
    pub fn set_hover(&mut self, hover: Option<usize>)
        ensures
            final(self)@ == (BoardView { hover, ..old(self)@ }),
    {
        self.hover = hover;
    }

    /// Notes the tab that is being dragged, and whether it has changed its place.
    pub fn set_drag(&mut self, drag: Option<usize>, dragged: bool)
        ensures
            final(self)@ == (BoardView { drag, dragged, ..old(self)@ }),
    {
        self.drag = drag;
        self.dragged = dragged;
    }

    /// Notes where a preview was drawn.
    pub fn set_tip(&mut self, tip: Option<(usize, usize, usize, usize)>)
        ensures
            final(self)@ == (BoardView { tip, ..old(self)@ }),
    {
        self.tip = tip;
    }

    fn last_tab(&self) -> (r: usize)
        ensures
            r == last_of(self@.tabs.len()),
    {
        let n: usize = self.tabs.len();
        if n == 0 {
            0
        } else {
            n - 1
        }
    }

    /// Whether a tab may not be closed.
    pub fn is_pinned(&self, i: usize) -> (r: bool)
        ensures
            r == self@.pinned(i as int),
    {
        i < self.slots.len() && self.slots[i].pinned
    }

    /// What was observed of the sessions.
    pub fn observed(&self) -> (r: Vec<Seen>)
        ensures
            r@ == self@.seen(),
    {
        let mut out: Vec<Seen> = Vec::new();
        let mut i: usize = 0;
        while i < self.tabs.len()
            invariant
                i <= self.tabs@.len(),
                out@ == self@.seen().take(i as int),
            decreases self.tabs@.len() - i,
        {
            out.push(self.tabs[i].seen);
            i = i + 1;
            proof {
                assert(out@ =~= self@.seen().take(i as int));
            }
        }
        proof {
            assert(self@.seen().take(i as int) =~= self@.seen());
        }
        out
    }

    /// Takes the active tab from the window that is looked at.
    pub fn alias_active(&mut self)
        ensures
            final(self)@ == old(self)@.aliased(),
    {
        let n: usize = self.wins.len();
        if n > 0 {
            let h: usize = at_most_of(self.win, n - 1);
            let last: usize = self.last_tab();
            self.active = at_most_of(self.wins[h], last);
        }
    }

    /// Looks at another tab, and remembers which one it was before.
    pub fn set_active(&mut self, i: usize)
        ensures
            final(self)@ == old(self)@.focused(i),
            old(self)@.wf() ==> final(self)@.wf(),
    {
        if i != self.active && self.active < self.tabs.len() {
            self.last = Some(self.active);
        }
        self.active = at_most_of(i, self.last_tab());
        self.ask(Act::SaveActive);
        if self.native {
            if let Some(h) = find_window(&self.wins, self.active) {
                self.win = h;
                self.alias_active();
                self.ask(Act::FocusWindow(h));
                self.ask(Act::Redraw);
            }
        }
    }

    /// Looks at the tab again that was looked at before.
    pub fn last_window(&mut self)
        ensures
            final(self)@ == old(self)@.flipped(),
            old(self)@.wf() ==> final(self)@.wf(),
    {
        if let Some(p) = self.last {
            self.last = None;
            if p < self.tabs.len() {
                self.set_active(p);
            }
        }
    }

    /// Looks at the next tab, or the one before, round the ends.
    pub fn turn(&mut self, forward: bool)
        requires
            old(self)@.wf(),
        ensures
            final(self)@ == old(self)@.turned(forward),
            final(self)@.wf(),
    {
        let n: usize = self.tabs.len();
        if n > 0 {
            let a: usize = self.active;
            let to: usize = if forward {
                if a + 1 < n {
                    a + 1
                } else {
                    0
                }
            } else if a > 0 {
                a - 1
            } else {
                n - 1
            };
            proof {
                let m = n as int;
                if forward && a + 1 == n {
                    vstd::arithmetic::div_mod::lemma_mod_self_0(m);
                } else if forward {
                    vstd::arithmetic::div_mod::lemma_small_mod((a + 1) as nat, n as nat);
                } else if a > 0 {
                    vstd::arithmetic::div_mod::lemma_mod_add_multiples_vanish(a - 1, m);
                    vstd::arithmetic::div_mod::lemma_small_mod((a - 1) as nat, n as nat);
                    assert(a + m - 1 == m + (a - 1));
                } else {
                    vstd::arithmetic::div_mod::lemma_small_mod((n - 1) as nat, n as nat);
                }
            }
            self.set_active(to);
        }
    }

    /// Moves the active tab one place to the left or the right, with all that is kept of it.
    pub fn move_tab(&mut self, right: bool)
        requires
            old(self)@.wf(),
        ensures
            final(self)@ == old(self)@.shifted(right),
            final(self)@.wf(),
    {
        let n: usize = self.tabs.len();
        let a: usize = self.active;
        let ok = a < n && if right {
            a + 1 < n
        } else {
            a > 0
        };
        if ok {
            let b: usize = if right {
                a + 1
            } else {
                a - 1
            };
            let ghost was = self.tabs@;
            swap_slot(&mut self.tabs, a, b);
            swap_slot(&mut self.slots, a, b);
            proof {
                assert(tab_views(self.tabs@) =~= swapped(tab_views(was), a as int, b as int));
            }
            self.active = b;
            self.last = None;
            self.ask(Act::Swap(a, b));
            self.ask(Act::SaveTabs);
        }
    }

    /// Takes a tab out and puts it in at another place, with all that is kept of it.
    pub fn reorder(&mut self, from: usize, to: usize)
        requires
            old(self)@.wf(),
        ensures
            final(self)@ == old(self)@.reordered(from as int, to as int),
            final(self)@.wf(),
    {
        let n: usize = self.tabs.len();
        if from < n && to < n {
            let a: usize = self.active;
            let ghost was = self.tabs@;
            move_slot(&mut self.tabs, from, to);
            move_slot(&mut self.slots, from, to);
            proof {
                assert(tab_views(self.tabs@) =~= moved(tab_views(was), from as int, to as int));
            }
            self.active = if a == from {
                to
            } else if from < a && a <= to {
                a - 1
            } else if to <= a && a < from {
                a + 1
            } else {
                a
            };
            self.last = None;
            self.ask(Act::Relocate(from, to));
        }
    }

    /// Drops the window of a tab that was closed.
    fn remove_window(&mut self, c: usize)
        ensures
            final(self)@ == old(self)@.unwindowed(c as int),
            old(self)@.wf() ==> final(self)@.wf(),
    {
        if self.native && c < self.wins.len() {
            let ghost was = self@;
            let ghost rest = self.wins@.remove(c as int);
            let dropped = self.wins.remove(c);
            let n: usize = self.wins.len();
            let mut i: usize = 0;
            while i < n
                invariant
                    i <= n,
                    n == self.wins@.len(),
                    rest.len() == n,
                    self@ == (BoardView { wins: self.wins@, ..was }),
                    forall|k: int|
                        0 <= k < i ==> #[trigger] self.wins@[k] == if rest[k] > c {
                            (rest[k] - 1) as usize
                        } else {
                            rest[k]
                        },
                    forall|k: int| i <= k < n ==> #[trigger] self.wins@[k] == rest[k],
                decreases n - i,
            {
                let t: usize = self.wins[i];
                if t > c {
                    self.wins.set(i, t - 1);
                }
                i = i + 1;
            }
            proof {
                assert(self.wins@ =~= windows_without(was.wins, c as int));
            }
            if c < self.win {
                self.win = self.win - 1;
            }
            let last: usize = if n == 0 {
                0
            } else {
                n - 1
            };
            self.win = at_most_of(self.win, last);
            self.alias_active();
            self.ask(Act::DropWindow(c));
            self.ask(Act::Redraw);
        }
    }

    /// Drops a tab with all that is kept of it. The tab that is looked at stays the same, unless it
    /// is the one that goes.
    pub fn drop_tab(&mut self, i: usize)
        requires
            old(self)@.wf(),
            i < old(self)@.tabs.len(),
        ensures
            final(self)@ == old(self)@.without(i as int),
            final(self)@.wf(),
    {
        let ghost was = self.tabs@;
        let gone = self.tabs.remove(i);
        let kept = self.slots.remove(i);
        proof {
            assert(tab_views(self.tabs@) =~= tab_views(was).remove(i as int));
        }
        self.active = if self.active > i {
            self.active - 1
        } else {
            at_most_of(self.active, self.last_tab())
        };
        self.last = None;
        self.hover = None;
        self.drag = None;
        self.tip = None;
        self.ask(Act::Close(i));
        self.remove_window(i);
    }

    /// Closes a tab, unless it is pinned. Returns whether it did.
    pub fn close_tab_at(&mut self, i: usize, now: u64) -> (r: bool)
        requires
            old(self)@.wf(),
        ensures
            final(self)@ == old(self)@.closed(i as int, now),
            final(self)@.wf(),
            r == (i < old(self)@.tabs.len() && !old(self)@.pinned(i as int)),
    {
        if i >= self.tabs.len() {
            return false;
        }
        if self.is_pinned(i) {
            self.say(copy_text("🔒 pinned — prefix A to unpin first"), now);
            return false;
        }
        self.drop_tab(i);
        self.ask(Act::SavePins);
        self.ask(Act::SaveTabs);
        true
    }

    /// Drops the tabs listed, which are in rising order, the last first.
    pub fn drop_tabs(&mut self, list: &Vec<usize>)
        requires
            old(self)@.wf(),
            forall|k: int| 0 <= k < list@.len() ==> #[trigger] list@[k] < old(self)@.tabs.len(),
            forall|j: int, k: int| 0 <= j < k < list@.len() ==> list@[j] < list@[k],
        ensures
            final(self)@ == old(self)@.without_all(ints(list@)),
            final(self)@.wf(),
            final(self)@.tabs.len() == old(self)@.tabs.len() - list@.len(),
            final(self)@.flash == old(self)@.flash,
    {
        let ghost was = self@;
        let ghost all = ints(list@);
        let mut k: usize = list.len();
        proof {
            assert(all.take(k as int) =~= all);
        }
        while k > 0
            invariant
                k <= list@.len(),
                all == ints(list@),
                self@.wf(),
                self@.flash == was.flash,
                self@.tabs.len() == was.tabs.len() - (list@.len() - k),
                self@.without_all(all.take(k as int)) == was.without_all(all),
                forall|j: int| 0 <= j < k ==> #[trigger] list@[j] < self@.tabs.len(),
                forall|i: int, j: int| 0 <= i < j < list@.len() ==> list@[i] < list@[j],
            decreases k,
        {
            k = k - 1;
            proof {
                assert(all.take(k + 1).drop_last() =~= all.take(k as int));
                assert(all.take(k + 1).last() == list@[k as int]);
            }
            self.drop_tab(list[k]);
        }
        proof {
            assert(all.take(0) =~= Seq::empty());
        }
    }
}

} // verus!
