//! The windows, where every session has its own: which one is looked at, opening and closing them
//! with the sessions.

use vstd::prelude::*;

use crate::activity::{fresh, fresh_slot, Slot};
use crate::board::{at_most, last_of, Act, Board, BoardView};
use crate::tabs::{tab_views, Tab, TabView};

verus! {

/// The windows without the one with number `hi`, those that show a later tab than `tab` now showing
/// the tab before it.
pub open spec fn windows_shifted(wins: Seq<usize>, hi: int, tab: int) -> Seq<usize> {
    wins.remove(hi).map_values(
        |t: usize|
            if t > tab {
                (t - 1) as usize
            } else {
                t
            },
    )
}

/// Window after window showing tab after tab.
pub open spec fn in_order(n: nat) -> Seq<usize> {
    Seq::new(n, |i: int| i as usize)
}

/// Closing of the windows from number `from` on, the last first.
pub open spec fn drops(from: nat, to: nat) -> Seq<Act>
    decreases to - from,
{
    if to <= from {
        Seq::empty()
    } else {
        seq![Act::DropWindow((to - 1) as usize)] + drops(from, (to - 1) as nat)
    }
}

impl BoardView {
    /// With a session opened, and looked at.
    pub open spec fn opened(self, t: TabView, s: Slot) -> BoardView {
        BoardView {
            tabs: self.tabs.push(t),
            slots: self.slots.push(s),
            active: self.tabs.len() as usize,
            ..self
        }
    }

    /// How many windows there should be: one for each session, and one where there is none.
    pub open spec fn windows_wanted(self) -> nat {
        if self.tabs.len() < 1 {
            1
        } else {
            self.tabs.len()
        }
    }

    /// With another window looked at, and its session active.
    pub open spec fn window_focused(self, i: int) -> BoardView {
        if i < 0 || i >= self.wins.len() || i == self.win {
            self
        } else {
            let b = BoardView { win: i as usize, ..self };
            let b = if self.wins[i] < self.tabs.len() {
                BoardView { active: self.wins[i], ..b }.asks(Act::SaveActive)
            } else {
                b
            };
            b.aliased().asks(Act::Redraw)
        }
    }

    /// As a window shows it while it is painted: its own session is the active one, or the last
    /// where there are no longer that many.
    pub open spec fn seen_from(self, i: int) -> BoardView {
        if 0 <= i < self.wins.len() {
            BoardView { active: at_most(self.wins[i], last_of(self.tabs.len())), ..self }
        } else {
            self
        }
    }

    /// With a session active again after a window was painted.
    pub open spec fn looked_back(self, was: usize) -> BoardView {
        BoardView { active: at_most(was, last_of(self.tabs.len())), ..self }
    }

    /// With the windows brought in line with the sessions, of which `opened` are new. The first
    /// windows show the session that was active; a window that is opened later is looked at.
    pub open spec fn windows_synced(self, opened: nat) -> BoardView {
        let want = self.windows_wanted();
        if !self.native {
            self
        } else if self.wins.len() == 0 {
            if opened == 0 {
                self
            } else {
                BoardView {
                    wins: in_order(opened),
                    win: at_most(self.active, last_of(opened)),
                    ..self
                }.aliased()
            }
        } else {
            let kept = if self.wins.len() > want {
                want
            } else {
                self.wins.len()
            };
            let n = kept + opened;
            let b = BoardView {
                wins: in_order(n),
                win: at_most(self.win, last_of(n)),
                todo: self.todo + drops(kept, self.wins.len()),
                ..self
            };
            let b = if opened > 0 {
                b.focused(b.active)
            } else {
                b
            };
            b.aliased()
        }
    }

    /// With everything written down, about to leave.
    pub open spec fn left(self) -> BoardView {
        self.asks(Act::SaveScrollbacks).asks(Act::SaveTabs).asks(Act::SaveMuted).asks(
            Act::SavePins,
        ).asks(Act::SaveGeometry).asks(Act::Exit)
    }

    /// With a window and its session closed; the last window takes the whole program with it.
    pub open spec fn window_closed(self, hi: int) -> BoardView {
        if hi < 0 || hi >= self.wins.len() {
            self
        } else if self.wins.len() <= 1 {
            self.left()
        } else {
            let tab = self.wins[hi] as int;
            let wins = windows_shifted(self.wins, hi, tab);
            let b = if tab < self.tabs.len() {
                BoardView {
                    tabs: self.tabs.remove(tab),
                    slots: self.slots.remove(tab),
                    last: None,
                    hover: None,
                    drag: None,
                    tip: None,
                    active: at_most(self.active, last_of((self.tabs.len() - 1) as nat)),
                    ..self
                }.asks(Act::Close(tab as usize))
            } else {
                self
            };
            let win = at_most(b.win, last_of(wins.len()));
            BoardView { wins, win, ..b }.asks(Act::DropWindow(hi as usize)).asks(
                Act::SavePins,
            ).asks(Act::SaveTabs).aliased().asks(Act::FocusWindow(win)).asks(Act::Redraw)
        }
    }
}

impl Board {
    /// Takes in a session that was opened, and looks at it.
    pub fn add_tab(&mut self, tab: Tab, pinned: bool, now: u64)
        requires
            old(self)@.wf(),
            old(self)@.tabs.len() < usize::MAX,
        ensures
            final(self)@ == old(self)@.opened(tab@, Slot { pinned, ..fresh(now) }),
            final(self)@.wf(),
    {
        let ghost was = self.tabs@;
        let ghost t = tab@;
        self.active = self.tabs.len();
        self.tabs.push(tab);
        let mut s = fresh_slot(now);
        s.pinned = pinned;
        self.slots.push(s);
        proof {
            assert(tab_views(self.tabs@) =~= tab_views(was).push(t));
        }
    }

    /// Makes the session of a window the active one, for as long as that window is painted. Returns
    /// the one that was active; see [`Board::look_back`].
    pub fn look_into(&mut self, i: usize) -> (was: usize)
        requires
            old(self)@.wf(),
        ensures
            final(self)@ == old(self)@.seen_from(i as int),
            final(self)@.wf(),
            was == old(self)@.active,
    {
        let was: usize = self.active;
        if i < self.wins.len() {
            let n: usize = self.tabs.len();
            self.active = if n == 0 {
                0
            } else if self.wins[i] < n {
                self.wins[i]
            } else {
                n - 1
            };
        }
        was
    }

    /// Makes the session active again that was it before [`Board::look_into`].
    pub fn look_back(&mut self, was: usize)
        requires
            old(self)@.wf(),
        ensures
            final(self)@ == old(self)@.looked_back(was),
            final(self)@.wf(),
    {
        let n: usize = self.tabs.len();
        self.active = if n == 0 {
            0
        } else if was < n {
            was
        } else {
            n - 1
        };
    }

    /// Looks at another window.
    pub fn focus_host(&mut self, i: usize)
        ensures
            final(self)@ == old(self)@.window_focused(i as int),
            old(self)@.wf() ==> final(self)@.wf(),
    {
        if i < self.wins.len() && i != self.win {
            self.win = i;
            let t: usize = self.wins[i];
            if t < self.tabs.len() {
                self.active = t;
                self.ask(Act::SaveActive);
            }
            self.alias_active();
            self.ask(Act::Redraw);
        }
    }

    /// How many windows are missing.
    pub fn windows_missing(&self) -> (r: usize)
        ensures
            r == if self@.native && self@.wins.len() < self@.windows_wanted() {
                self@.windows_wanted() - self@.wins.len()
            } else {
                0
            },
    {
        let n: usize = self.tabs.len();
        let want: usize = if n < 1 {
            1
        } else {
            n
        };
        if self.native && self.wins.len() < want {
            want - self.wins.len()
        } else {
            0
        }
    }

    /// Brings the windows in line with the sessions, after so many were opened.
    pub fn sync_hosts(&mut self, opened: usize)
        requires
            old(self)@.wf(),
            old(self)@.wins.len() + opened <= usize::MAX,
        ensures
            final(self)@ == old(self)@.windows_synced(opened as nat),
            final(self)@.wf(),
    {
        if !self.native {
            return;
        }
        let ghost was = self@;
        let count: usize = self.tabs.len();
        let want: usize = if count < 1 {
            1
        } else {
            count
        };
        let had: usize = self.wins.len();
        if had == 0 {
            if opened > 0 {
                self.number_windows(opened);
                self.win =
                if self.active <= opened - 1 {
                    self.active
                } else {
                    opened - 1
                };
                self.alias_active();
            }
            return;
        }
        let kept: usize = if had > want {
            want
        } else {
            had
        };
        let n: usize = kept + opened;
        self.drop_windows(kept, had);
        self.number_windows(n);
        if self.win > n - 1 {
            self.win = n - 1;
        }
        if opened > 0 {
            let a: usize = self.active;
            self.set_active(a);
        }
        self.alias_active();
    }

    fn drop_windows(&mut self, from: usize, to: usize)
        ensures
            final(self)@ == (BoardView {
                todo: old(self)@.todo + drops(from as nat, to as nat),
                ..old(self)@
            }),
    {
        let ghost was = self@;
        let mut k: usize = to;
        proof {
            assert(was.todo + drops(from as nat, to as nat) =~= self@.todo + drops(
                from as nat,
                k as nat,
            ));
        }
        while k > from
            invariant
                k <= to,
                self@ == (BoardView { todo: self@.todo, ..was }),
                was.todo + drops(from as nat, to as nat) == self@.todo + drops(
                    from as nat,
                    k as nat,
                ),
            decreases k,
        {
            let ghost before = self@.todo;
            k = k - 1;
            self.ask(Act::DropWindow(k));
            proof {
                assert(drops(from as nat, (k + 1) as nat) == seq![Act::DropWindow(k)] + drops(
                    from as nat,
                    k as nat,
                ));
                assert(before + drops(from as nat, (k + 1) as nat) =~= self@.todo + drops(
                    from as nat,
                    k as nat,
                ));
            }
        }
        proof {
            assert(self@.todo + drops(from as nat, k as nat) =~= self@.todo);
        }
    }

    fn number_windows(&mut self, n: usize)
        ensures
            final(self)@ == (BoardView { wins: in_order(n as nat), ..old(self)@ }),
    {
        let ghost was = self@;
        let mut v: Vec<usize> = Vec::new();
        let mut i: usize = 0;
        while i < n
            invariant
                i <= n,
                v@ == in_order(i as nat),
            decreases n - i,
        {
            v.push(i);
            proof {
                assert(v@ =~= in_order((i + 1) as nat));
            }
            i = i + 1;
        }
        self.wins = v;
    }

    /// Has everything written down and leaves.
    pub fn leave(&mut self)
        ensures
            final(self)@ == old(self)@.left(),
            final(self)@.wf() == old(self)@.wf(),
    {
        self.ask(Act::SaveScrollbacks);
        self.ask(Act::SaveTabs);
        self.ask(Act::SaveMuted);
        self.ask(Act::SavePins);
        self.ask(Act::SaveGeometry);
        self.ask(Act::Exit);
    }

    fn forget_window(&mut self, hi: usize, tab: usize)
        requires
            hi < old(self)@.wins.len(),
        ensures
            final(self)@ == (BoardView {
                wins: windows_shifted(old(self)@.wins, hi as int, tab as int),
                ..old(self)@
            }),
    {
        let ghost was = self@;
        let ghost rest = self.wins@.remove(hi as int);
        let gone: usize = self.wins.remove(hi);
        let n: usize = self.wins.len();
        let mut i: usize = 0;
        while i < n
            invariant
                i <= n,
                n == self.wins@.len(),
                rest.len() == n,
                self@ == (BoardView { wins: self.wins@, ..was }),
                forall|k: int|
                    0 <= k < i ==> #[trigger] self.wins@[k] == if rest[k] > tab {
                        (rest[k] - 1) as usize
                    } else {
                        rest[k]
                    },
                forall|k: int| i <= k < n ==> #[trigger] self.wins@[k] == rest[k],
            decreases n - i,
        {
            let t: usize = self.wins[i];
            if t > tab {
                self.wins.set(i, t - 1);
            }
            i = i + 1;
        }
        proof {
            assert(self.wins@ =~= windows_shifted(was.wins, hi as int, tab as int));
        }
    }

    /// Closes a window and its session; the last window takes the whole program with it.
    pub fn close_native_tab(&mut self, hi: usize)
        requires
            old(self)@.wf(),
        ensures
            final(self)@ == old(self)@.window_closed(hi as int),
            final(self)@.wf(),
    {
        let n: usize = self.wins.len();
        if hi >= n {
            return;
        }
        if n <= 1 {
            self.leave();
            return;
        }
        let tab: usize = self.wins[hi];
        if tab < self.tabs.len() {
            let ghost was = self.tabs@;
            let gone = self.tabs.remove(tab);
            let kept = self.slots.remove(tab);
            proof {
                assert(tab_views(self.tabs@) =~= tab_views(was).remove(tab as int));
            }
            self.last = None;
            self.hover = None;
            self.drag = None;
            self.tip = None;
            let m: usize = self.tabs.len();
            if m == 0 {
                self.active = 0;
            } else if self.active > m - 1 {
                self.active = m - 1;
            }
            self.ask(Act::Close(tab));
        }
        self.forget_window(hi, tab);
        if self.win > n - 2 {
            self.win = n - 2;
        }
        self.ask(Act::DropWindow(hi));
        self.ask(Act::SavePins);
        self.ask(Act::SaveTabs);
        self.alias_active();
        let win: usize = self.win;
        self.ask(Act::FocusWindow(win));
        self.ask(Act::Redraw);
    }
}

/// Where every session has its own window, there is one for each, in order, and the window that is
/// looked at shows the active session.
pub proof fn law_windows_follow(b: BoardView, opened: nat)
    requires
        b.wf(),
        b.native,
        0 < b.wins.len() <= b.tabs.len() + opened,
        opened + b.wins.len() == b.windows_wanted(),
        b.tabs.len() < usize::MAX,
    ensures
        b.windows_synced(opened).wins == in_order(b.tabs.len()),
        b.windows_synced(opened).win == b.windows_synced(opened).active,
        opened > 0 ==> b.windows_synced(opened).active == b.active,
{
    let s = b.windows_synced(opened);
    if opened > 0 {
        lemma_window_in_order(b.tabs.len(), b.active, 0);
    }
}

proof fn lemma_window_in_order(n: nat, tab: usize, from: int)
    requires
        0 <= from <= tab < n <= usize::MAX,
    ensures
        crate::board::window_of(in_order(n), tab, from) == Some(tab as int),
    decreases tab - from,
{
    if from < tab {
        lemma_window_in_order(n, tab, from + 1);
    }
}

/// Painting a window leaves the board as it was: looking into it changes nothing but which session
/// is active, and looking back undoes that.
pub proof fn law_looking_changes_nothing(b: BoardView, i: int)
    requires
        b.wf(),
    ensures
        b.seen_from(i).wf(),
        b.seen_from(i).looked_back(b.active) == b,
{
}

} // verus!
