//! A turn of the window's loop: what is due, how soon the next turn comes, and how the window is
//! left.

use vstd::prelude::*;

use crate::activity::{badges_fading, detect_content_change, showing};
use crate::board::{at_most, last_of, Act, BoardView};
use crate::shell::{Overlay, Shell, ShellView};
use crate::text::copy_text;

verus! {

/// How long the fleet is shown before the daemon is asked again, in milliseconds.
pub const POLL_MS: u64 = 3000;

impl BoardView {
    /// Whether a bell or a recovery of some tab still shows.
    pub open spec fn badged(self, now: u64) -> bool {
        exists|i: int|
            0 <= i < self.slots.len() && (showing((#[trigger] self.slots[i]).bell_until, now)
                || showing(self.slots[i].recover_until, now))
    }

    /// Whether some tab shows something else than was last drawn.
    pub open spec fn changed(self, shown: Seq<(usize, u64)>) -> bool {
        exists|i: int|
            0 <= i < shown.len() && (((#[trigger] shown[i]).0 != self.slots[i].drawn_len
                || shown[i].1 != self.slots[i].drawn_sig))
    }
}

impl ShellView {
    /// Whether something moves, so that frames have to follow each other quickly.
    pub open spec fn animating(self, now: u64) -> bool {
        let b = self.board;
        self.overlay != Overlay::Closed || self.copy.on || self.menu is Some || b.tip is Some
            || b.hover is Some || b.flash is Some || self.live_busy || b.badged(now)
    }

    /// With the daemon asked for the fleet, where that is shown and has not been asked for a while.
    pub open spec fn polled(self, now: u64) -> ShellView {
        if self.overlay == Overlay::Fleet && now >= self.fleet_polled + POLL_MS {
            ShellView { fleet_polled: now, ..self }.asks(Act::RefreshFleet)
        } else {
            self
        }
    }

    /// With the active tab closed, in its window where it has its own, unless it is pinned.
    pub open spec fn active_closed(self, now: u64) -> ShellView {
        let s = ShellView { close_active: false, ..self };
        let b = s.board;
        let hi = at_most(b.win, last_of(b.wins.len())) as int;
        let s = if b.native && b.wins.len() > 0 {
            if b.pinned(b.wins[hi] as int) {
                s.says("🔒 pinned — prefix A to unpin first"@, now)
            } else {
                s.on(b.window_closed(hi))
            }
        } else {
            s.on(b.closed(b.active as int, now))
        };
        s.asks(Act::Redraw)
    }

    /// After the start of a turn, and whether the turn goes on.
    pub open spec fn turn_begun(self, now: u64) -> (ShellView, bool) {
        if self.quit {
            (self.asks(Act::Exit), false)
        } else {
            let s = self.polled(now);
            if s.close_active {
                (s.active_closed(now), false)
            } else {
                (s, true)
            }
        }
    }

    /// After the end of a turn: the next one comes soon where something moves, else after a while;
    /// a frame is due where something moves or changed.
    pub open spec fn turn_ended(self, shown: Seq<(usize, u64)>, now: u64) -> ShellView {
        let hot = self.animating(now);
        let s = self.asks(Act::SweepConnections);
        let s = if hot {
            s.asks(Act::Redraw)
        } else {
            let t = s.on(s.board.drawn(shown));
            if self.board.changed(shown) {
                t.asks(Act::Redraw)
            } else {
                t
            }
        };
        s.asks(
            Act::Wait(
                if hot {
                    16
                } else {
                    120
                },
            ),
        )
    }

    /// After the user closed a window: its session goes with it, and the last window takes the
    /// whole program along.
    pub open spec fn window_left(self, hi: Option<usize>) -> ShellView {
        if self.board.native {
            match hi {
                Some(i) => self.on(self.board.window_closed(i as int)),
                None => self,
            }
        } else {
            self.on(self.board.left())
        }
    }

    /// After the window took another size.
    pub open spec fn sized(self, width: usize, height: usize) -> ShellView {
        let s = ShellView {
            metrics: crate::geometry::Metrics { width, height, ..self.metrics },
            ..self
        };
        if width > 0 && height > 0 {
            s.asks(Act::SaveGeometry).asks(Act::Redraw)
        } else {
            s
        }
    }
}

impl Shell {
    /// Whether something moves, so that frames have to follow each other quickly.
    pub fn has_live_animation(&self, now: u64) -> (r: bool)
        ensures
            r == self@.animating(now),
    {
        self.overlay != Overlay::Closed || self.copy.on || self.menu.is_some()
            || self.board.tip.is_some() || self.board.hover.is_some() || self.board.flash.is_some()
            || self.live_busy || badges_fading(&self.board.slots, now)
    }

    fn poll_fleet(&mut self, now: u64)
        ensures
            final(self)@ == old(self)@.polled(now),
            final(self)@.wf() == old(self)@.wf(),
    {
        if self.overlay == Overlay::Fleet && now >= self.fleet_polled && now - self.fleet_polled
            >= POLL_MS {
            self.fleet_polled = now;
            self.board.ask(Act::RefreshFleet);
        }
    }

    fn close_now(&mut self, now: u64)
        requires
            old(self)@.wf(),
        ensures
            final(self)@ == old(self)@.active_closed(now),
            final(self)@.wf(),
    {
        self.close_active = false;
        let n: usize = self.board.wins.len();
        if self.board.native && n > 0 {
            let hi: usize = if self.board.win <= n - 1 {
                self.board.win
            } else {
                n - 1
            };
            let tab: usize = self.board.wins[hi];
            if self.board.is_pinned(tab) {
                self.board.say(copy_text("🔒 pinned — prefix A to unpin first"), now);
            } else {
                self.board.close_native_tab(hi);
            }
        } else {
            let i: usize = self.board.active;
            let done = self.board.close_tab_at(i, now);
        }
        self.board.ask(Act::Redraw);
    }

    /// Starts a turn: leaves if that was asked for, asks the daemon for the fleet, closes the
    /// active tab if that was asked for. Returns whether the turn goes on.
    pub fn begin_turn(&mut self, now: u64) -> (r: bool)
        requires
            old(self)@.wf(),
        ensures
            (final(self)@, r) == old(self)@.turn_begun(now),
            final(self)@.wf(),
    {
        if self.quit {
            self.board.ask(Act::Exit);
            return false;
        }
        self.poll_fleet(now);
        if self.close_active {
            self.close_now(now);
            return false;
        }
        true
    }

    fn note_shown(&mut self, shown: &Vec<(usize, u64)>) -> (r: bool)
        requires
            old(self)@.wf(),
            shown@.len() == old(self)@.board.tabs.len(),
        ensures
            final(self)@ == old(self)@.on(old(self)@.board.drawn(shown@)),
            final(self)@.wf(),
            r == old(self)@.board.changed(shown@),
    {
        let ghost was = self.board@;
        let r = detect_content_change(&mut self.board.slots, shown);
        proof {
            assert(self.board@ =~= was.drawn(shown@));
        }
        r
    }

    /// Ends a turn, given what the sessions show: the lengths of their scrollbacks and the
    /// signatures of their screens.
    pub fn end_turn(&mut self, shown: &Vec<(usize, u64)>, now: u64)
        requires
            old(self)@.wf(),
            shown@.len() == old(self)@.board.tabs.len(),
        ensures
            final(self)@ == old(self)@.turn_ended(shown@, now),
            final(self)@.wf(),
    {
        let hot = self.has_live_animation(now);
        self.board.ask(Act::SweepConnections);
        let due = if hot {
            true
        } else {
            self.note_shown(shown)
        };
        if due {
            self.board.ask(Act::Redraw);
        }
        let ms: u64 = if hot {
            16
        } else {
            120
        };
        self.board.ask(Act::Wait(ms));
    }

    /// Handles the closing of a window by the user, with its number where every session has its
    /// own.
    pub fn close_requested(&mut self, hi: Option<usize>)
        requires
            old(self)@.wf(),
        ensures
            final(self)@ == old(self)@.window_left(hi),
            final(self)@.wf(),
    {
        if self.board.native {
            if let Some(i) = hi {
                self.board.close_native_tab(i);
            }
        } else {
            self.board.leave();
        }
    }

    /// Handles a new size of the window.
    pub fn resized(&mut self, width: usize, height: usize)
        ensures
            final(self)@ == old(self)@.sized(width, height),
            final(self)@.wf() == old(self)@.wf(),
    {
        self.metrics.width = width;
        self.metrics.height = height;
        if width > 0 && height > 0 {
            self.board.ask(Act::SaveGeometry);
            self.board.ask(Act::Redraw);
        }
    }
}

/// What is shown is reported as changed once: after it was noted, the same is no change.
pub proof fn law_change_is_seen_once(b: BoardView, shown: Seq<(usize, u64)>)
    requires
        shown.len() == b.slots.len(),
    ensures
        !b.drawn(shown).changed(shown),
{
}

/// A pinned session is not closed by the close command, whether it has its own window or not.
pub proof fn law_close_spares_pinned(s: ShellView, now: u64)
    requires
        s.wf(),
        !s.quit,
        s.close_active,
        s.board.tabs.len() > 0,
        s.board.native && s.board.wins.len() > 0 ==> s.board.pinned(
            s.board.wins[at_most(s.board.win, last_of(s.board.wins.len())) as int] as int,
        ),
        !(s.board.native && s.board.wins.len() > 0) ==> s.board.pinned(s.board.active as int),
    ensures
        s.turn_begun(now).0.board.tabs == s.board.tabs,
        !s.turn_begun(now).0.close_active,
{
}

} // verus!
