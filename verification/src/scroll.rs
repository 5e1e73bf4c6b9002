//! Scrolling the active view through its scrollback.

use vstd::prelude::*;

use crate::board::{Act, Board, BoardView};
use crate::tabs::{tab_views, TabView};

verus! {

/// A number of lines above the live screen, kept within a scrollback of `depth` lines.
pub open spec fn within(n: int, depth: u32) -> int {
    if n < 0 {
        0
    } else if n > depth {
        depth as int
    } else {
        n
    }
}

impl BoardView {
    /// With the active tab's data changed.
    pub open spec fn with_active(self, t: TabView) -> BoardView {
        BoardView { tabs: self.tabs.update(self.active as int, t), ..self }
    }

    /// With the active view moved up by so many lines, as far as the scrollback goes.
    pub open spec fn scrolled_by(self, lines: int) -> BoardView {
        if self.active < self.tabs.len() {
            let t = self.tabs[self.active as int];
            let to = within(t.offset + lines, t.depth);
            self.with_active(TabView { offset: to as u32, ..t }).asks(
                Act::Scroll((to - t.offset) as i64),
            )
        } else {
            self
        }
    }

    /// With the active view held where it is, or following the output.
    pub open spec fn held(self, on: bool) -> BoardView {
        if self.active < self.tabs.len() {
            self.with_active(TabView { scrolled: on, ..self.tabs[self.active as int] })
        } else {
            self
        }
    }

    /// With the active view following again where it stands at the live screen.
    pub open spec fn settled(self) -> BoardView {
        if self.active < self.tabs.len() && self.tabs[self.active as int].offset == 0 {
            self.held(false)
        } else {
            self
        }
    }

    /// With the active view at the live screen, following.
    pub open spec fn at_bottom(self) -> BoardView {
        if self.active < self.tabs.len() {
            self.scrolled_by(-(self.tabs[self.active as int].offset as int)).held(false)
        } else {
            self
        }
    }

    /// With the active view at the oldest line, held.
    pub open spec fn at_top(self) -> BoardView {
        if self.active < self.tabs.len() {
            let t = self.tabs[self.active as int];
            self.scrolled_by(t.depth - t.offset).held(true)
        } else {
            self
        }
    }

    /// With a line of the scrollback at the top of the active view, as far as it goes, held.
    pub open spec fn at_line(self, line: int) -> BoardView {
        if self.active < self.tabs.len() {
            let t = self.tabs[self.active as int];
            self.scrolled_by(within(-line, t.depth) - t.offset).held(true)
        } else {
            self
        }
    }
}

impl Board {
    /// Scrolls the active view up by so many lines, down where negative.
    pub fn scroll_active(&mut self, lines: i64)
        ensures
            final(self)@ == old(self)@.scrolled_by(lines as int),
            final(self)@.wf() == old(self)@.wf(),
    {
        let i: usize = self.active;
        if i < self.tabs.len() {
            let from: i128 = self.tabs[i].offset as i128;
            let depth: i128 = self.tabs[i].depth as i128;
            let want: i128 = from + lines as i128;
            let to: i128 = if want < 0 {
                0
            } else if want > depth {
                depth
            } else {
                want
            };
            let ghost was = self.tabs@;
            self.tabs[i].offset = to as u32;
            proof {
                assert(tab_views(self.tabs@) =~= tab_views(was).update(
                    i as int,
                    TabView { offset: to as u32, ..was[i as int]@ },
                ));
            }
            self.ask(Act::Scroll((to - from) as i64));
        }
    }

    /// Holds the active view where it is, or lets it follow the output.
    pub fn hold(&mut self, on: bool)
        ensures
            final(self)@ == old(self)@.held(on),
            final(self)@.wf() == old(self)@.wf(),
    {
        let i: usize = self.active;
        if i < self.tabs.len() {
            let ghost was = self.tabs@;
            self.tabs[i].scrolled = on;
            proof {
                assert(tab_views(self.tabs@) =~= tab_views(was).update(
                    i as int,
                    TabView { scrolled: on, ..was[i as int]@ },
                ));
            }
        }
    }

    /// Lets the active view follow again where it stands at the live screen.
    pub fn unpin_if_at_bottom(&mut self)
        ensures
            final(self)@ == old(self)@.settled(),
            final(self)@.wf() == old(self)@.wf(),
    {
        let i: usize = self.active;
        if i < self.tabs.len() && self.tabs[i].offset == 0 {
            self.hold(false);
        }
    }

    /// Goes back to the live screen and follows the output.
    pub fn scroll_to_bottom(&mut self)
        ensures
            final(self)@ == old(self)@.at_bottom(),
            final(self)@.wf() == old(self)@.wf(),
    {
        let i: usize = self.active;
        if i < self.tabs.len() {
            let n: i64 = self.tabs[i].offset as i64;
            self.scroll_active(-n);
            self.hold(false);
        }
    }

    /// Goes to the oldest line and stays there.
    pub fn scroll_to_top(&mut self)
        ensures
            final(self)@ == old(self)@.at_top(),
            final(self)@.wf() == old(self)@.wf(),
    {
        let i: usize = self.active;
        if i < self.tabs.len() {
            let n: i64 = self.tabs[i].depth as i64 - self.tabs[i].offset as i64;
            self.scroll_active(n);
            self.hold(true);
        }
    }

    /// Brings a line to the top of the active view, as far as the scrollback goes, and stays there.
    pub fn scroll_to_line(&mut self, line: i32)
        ensures
            final(self)@ == old(self)@.at_line(line as int),
            final(self)@.wf() == old(self)@.wf(),
    {
        let i: usize = self.active;
        if i < self.tabs.len() {
            let depth: i64 = self.tabs[i].depth as i64;
            let up: i64 = -(line as i64);
            let to: i64 = if up < 0 {
                0
            } else if up > depth {
                depth
            } else {
                up
            };
            let n: i64 = to - self.tabs[i].offset as i64;
            self.scroll_active(n);
            self.hold(true);
        }
    }
}

/// The view never leaves the scrollback.
pub proof fn law_view_stays_inside(b: BoardView, lines: int)
    requires
        b.active < b.tabs.len(),
    ensures
        b.scrolled_by(lines).tabs[b.active as int].offset <= b.tabs[b.active as int].depth,
{
}

/// Scrolling up and down again comes back, where the scrollback reaches that far.
pub proof fn law_scroll_back(b: BoardView, lines: int)
    requires
        b.active < b.tabs.len(),
        b.tabs[b.active as int].offset <= b.tabs[b.active as int].depth,
        0 <= b.tabs[b.active as int].offset + lines <= b.tabs[b.active as int].depth,
    ensures
        b.scrolled_by(lines).scrolled_by(-lines).tabs == b.tabs,
{
    assert(b.scrolled_by(lines).scrolled_by(-lines).tabs =~= b.tabs);
}

} // verus!
