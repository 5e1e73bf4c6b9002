//! What the commands do to the open tabs: jumping to the tab that needs a look, muting and pinning,
//! interrupting, reconnecting and closing many at once.

use vstd::prelude::*;
use vstd::string::*;

use crate::activity::{activity_flags, all_news, read, silent, silent_for, stepped, News, Slot};
use crate::board::{Act, Board, BoardView, Round};
use crate::machines::{
    law_next_host_is_another, machine, machine_name, next_host_index, next_host_tab,
};
use crate::notify::{announce, announced, notice_views, Kind};
use crate::seqs::{indices_set, ints, lemma_set_indices, set_indices};
use crate::tabs::{identity_at, tab_identity, TabView};
use crate::text::{copy_text, dec, decimal, trim, trimmed};
use crate::triage::{below, bulk_targets, find_next_set, grid_targets, next_set, strs};
use crate::words::{clip_dots, clipped, down_texts, fmt_reconnect_summary, reconnect_said};

verus! {

/// An ending for more than one.
pub open spec fn plural(n: int) -> Seq<char> {
    if n == 1 {
        Seq::empty()
    } else {
        "s"@
    }
}

/// A text with a number in it, and an ending where the number is not one.
pub open spec fn counted(front: Seq<char>, n: int, noun: Seq<char>) -> Seq<char> {
    front + dec(n as nat) + noun + plural(n)
}

/// A text with a number in it, and an ending where the number is not one.
pub fn count_text(front: &str, n: usize, noun: &str) -> (r: String)
    ensures
        r@ == counted(front@, n as int, noun@),
{
    let mut s = copy_text(front);
    s.append(decimal(n as u64).as_str());
    s.append(noun);
    if n != 1 {
        s.append("s");
    } else {
        proof {
            assert(s@ + Seq::<char>::empty() =~= s@);
        }
    }
    s
}

/// The events of one kind, one for each tab listed.
pub open spec fn events_of(kind: Kind, list: Seq<int>) -> Seq<(Kind, usize)> {
    list.map_values(|i: int| (kind, i as usize))
}

/// What a pass finds, as events in the order they are told.
pub open spec fn events_in(all: Seq<News>) -> Seq<(Kind, usize)> {
    events_of(Kind::Bell, set_indices(all.map_values(|n: News| n.bell))) + events_of(
        Kind::Recover,
        set_indices(all.map_values(|n: News| n.recovered)),
    ) + events_of(Kind::Down, set_indices(all.map_values(|n: News| n.down))) + events_of(
        Kind::Busy,
        set_indices(all.map_values(|n: News| n.busy)),
    )
}

impl BoardView {
    pub open spec fn down_mask(self) -> Seq<bool> {
        self.tabs.map_values(|t: TabView| t.down())
    }

    /// Which tabs but the active one are pinned.
    pub open spec fn pin_mask(self) -> Seq<bool> {
        Seq::new(self.slots.len(), |i: int| i != self.active && self.slots[i].pinned)
    }

    pub open spec fn mark_mask(self) -> Seq<bool> {
        self.slots.map_values(|s: Slot| s.mark)
    }

    pub open spec fn unmuted_mask(self) -> Seq<bool> {
        self.slots.map_values(|s: Slot| !s.muted)
    }

    pub open spec fn target_mask(self) -> Seq<bool> {
        self.slots.map_values(|s: Slot| s.target)
    }

    pub open spec fn quiet_mask(self, now: u64) -> Seq<bool> {
        crate::activity::quiet_mask(
            self.slots,
            self.seen(),
            self.active as int,
            now,
            self.quiet_after,
        )
    }

    /// What a pass finds of each tab.
    pub open spec fn news(self, now: u64) -> Seq<News> {
        all_news(self.slots, self.seen(), self.active as int, now)
    }

    /// Which tabs grew in the background.
    pub open spec fn busy_mask(self, now: u64) -> Seq<bool> {
        self.news(now).map_values(|n: News| n.grew)
    }

    /// After a pass over all tabs: each is sampled, and what happened is told, unless nothing is to
    /// be.
    #[verifier::opaque]
    pub open spec fn pulsed(self, now: u64) -> BoardView {
        BoardView {
            slots: Seq::new(
                self.slots.len(),
                |i: int| stepped(self.slots[i], self.seen()[i], i == self.active, now),
            ),
            notices: if self.dnd {
                self.notices
            } else {
                self.notices + announced(self.tabs, events_in(self.news(now)))
            },
            ..self
        }
    }

    /// With the tab found active, or a message where there is none.
    pub open spec fn sent_to(self, found: Option<int>, none: Seq<char>, now: u64) -> BoardView {
        match found {
            Some(i) => self.focused(i as usize),
            None => if self.tabs.len() == 0 {
                self
            } else {
                self.says(none, now)
            },
        }
    }

    /// With the next tab active that just printed something.
    #[verifier::opaque]
    pub open spec fn at_next_busy(self, now: u64) -> BoardView {
        self.pulsed(now).sent_to(
            next_set(self.busy_mask(now), self.active as int, 1),
            "no other busy tab"@,
            now,
        )
    }

    /// With a message in front of the tab's name, where one was found.
    pub open spec fn noted(self, found: Option<int>, word: Seq<char>, now: u64) -> BoardView {
        match found {
            Some(i) => self.says(word + identity_at(self.tabs, i), now),
            None => self,
        }
    }

    /// With the next quiet tab active.
    #[verifier::opaque]
    pub open spec fn at_next_quiet(self, now: u64) -> BoardView {
        let found = next_set(self.quiet_mask(now), self.active as int, 1);
        self.noted(found, "quiet — "@, now).sent_to(found, "no other quiet tab"@, now)
    }

    /// With the next other pinned tab active.
    #[verifier::opaque]
    pub open spec fn at_next_pinned(self, now: u64) -> BoardView {
        let found = next_set(self.pin_mask(), self.active as int, 1);
        self.noted(found, "pinned — "@, now).sent_to(found, "no other pinned tab"@, now)
    }

    /// Which tab is down, and why.
    pub open spec fn down_note(self, i: int) -> Seq<char> {
        let why = clipped(trimmed(self.tabs[i].reason()), 26);
        if why.len() == 0 {
            "down — "@ + identity_at(self.tabs, i)
        } else {
            "down — "@ + identity_at(self.tabs, i) + " ("@ + why + ")"@
        }
    }

    /// With the next tab active whose pane is down.
    #[verifier::opaque]
    pub open spec fn at_next_down(self, now: u64) -> BoardView {
        let found = next_set(self.down_mask(), self.active as int, 1);
        match found {
            Some(i) => self.says(self.down_note(i), now),
            None => self,
        }.sent_to(found, "no other down tab"@, now)
    }

    pub open spec fn host_names(self) -> Seq<Seq<char>> {
        self.tabs.map_values(|t: TabView| t.host)
    }

    /// With the first tab active of the next machine.
    #[verifier::opaque]
    pub open spec fn at_next_host(self, now: u64) -> BoardView {
        match next_host_tab(self.host_names(), self.active as int) {
            Some(i) => self.says("host "@ + self.tabs[i].host, now).focused(i as usize),
            None => self.says("no other host"@, now),
        }
    }

    /// With a slot changed.
    pub open spec fn with_slot(self, i: int, s: Slot) -> BoardView {
        BoardView { slots: self.slots.update(i, s), ..self }
    }

    /// With a tab muted, or no longer.
    pub open spec fn mute_turned(self, i: int) -> BoardView {
        if 0 <= i < self.slots.len() {
            self.with_slot(i, Slot { muted: !self.slots[i].muted, ..self.slots[i] })
        } else {
            self
        }
    }

    /// With the active tab muted, or no longer, and a message.
    #[verifier::opaque]
    pub open spec fn active_mute_turned(self, now: u64) -> BoardView {
        let i = self.active as int;
        if i < self.tabs.len() {
            self.mute_turned(i).says(
                self.tabs[i].head() + if self.slots[i].muted {
                    " unmuted"@
                } else {
                    " MUTED"@
                },
                now,
            )
        } else {
            self
        }
    }

    /// With a tab pinned, or no longer, and a message.
    #[verifier::opaque]
    pub open spec fn pin_turned(self, i: int, now: u64) -> BoardView {
        if 0 <= i < self.tabs.len() {
            self.with_slot(i, Slot { pinned: !self.slots[i].pinned, ..self.slots[i] }).says(
                self.tabs[i].head() + if self.slots[i].pinned {
                    " unpinned"@
                } else {
                    " PINNED 🔒"@
                },
                now,
            ).asks(Act::SavePins)
        } else {
            self
        }
    }

    /// With a tab marked, or no longer.
    pub open spec fn mark_turned(self, i: int) -> BoardView {
        if 0 <= i < self.slots.len() {
            self.with_slot(i, Slot { mark: !self.slots[i].mark, ..self.slots[i] })
        } else {
            self
        }
    }

    /// Without marks.
    pub open spec fn unmarked(self) -> BoardView {
        BoardView {
            slots: self.slots.map_values(|s: Slot| Slot { mark: false, ..s }),
            ..self
        }
    }

    /// With a broadcast going to these tabs.
    pub open spec fn aimed(self, mask: Seq<bool>) -> BoardView {
        BoardView {
            slots: Seq::new(
                self.slots.len(),
                |i: int| Slot { target: i < mask.len() && mask[i], ..self.slots[i] },
            ),
            ..self
        }
    }

    /// With a broadcast going to all tabs, or to none.
    pub open spec fn aimed_all(self, on: bool) -> BoardView {
        BoardView {
            slots: self.slots.map_values(|s: Slot| Slot { target: on, ..s }),
            ..self
        }
    }

    /// With nothing announced from now on, or again.
    #[verifier::opaque]
    pub open spec fn dnd_turned(self, now: u64) -> BoardView {
        BoardView { dnd: !self.dnd, ..self }.says(
            if self.dnd {
                "notifications restored"@
            } else {
                "do-not-disturb ON"@
            },
            now,
        )
    }

    /// With the bars hidden, or shown again.
    #[verifier::opaque]
    pub open spec fn focus_turned(self, now: u64) -> BoardView {
        BoardView { focus: !self.focus, ..self }.says(
            if self.focus {
                "chrome"@
            } else {
                "focus"@
            },
            now,
        ).asks(Act::Redraw)
    }

    /// With everything read.
    #[verifier::opaque]
    pub open spec fn all_read(self, now: u64) -> BoardView {
        BoardView {
            slots: Seq::new(self.slots.len(), |i: int| read(self.slots[i], self.seen()[i])),
            ..self
        }.says("marked all tabs read"@, now)
    }

    /// With an interrupt for each tab listed.
    pub open spec fn interrupting(self, list: Seq<int>) -> BoardView {
        BoardView {
            todo: self.todo + list.map_values(|i: int| Act::Interrupt(i as usize)),
            ..self
        }
    }

    /// With a reconnect for each tab listed, and a report.
    pub open spec fn retrying(self, list: Seq<int>, round: Round) -> BoardView {
        BoardView {
            todo: self.todo + list.map_values(|i: int| Act::Retry(i as usize)),
            ..self
        }.asks(Act::Report(round))
    }

    /// With the active session interrupted.
    #[verifier::opaque]
    pub open spec fn interrupted(self, now: u64) -> BoardView {
        if self.active < self.tabs.len() {
            self.asks(Act::Interrupt(self.active)).says(
                self.tabs[self.active as int].head() + " interrupted (Ctrl-C)"@,
                now,
            )
        } else {
            self
        }
    }

    /// With interrupts for the tabs listed, or a message that there are none.
    pub open spec fn halted(self, list: Seq<int>, none: Seq<char>, now: u64) -> BoardView {
        if list.len() == 0 {
            self.says(none, now)
        } else {
            self.interrupting(list).says(
                counted("sent Ctrl-C to "@, list.len() as int, " session"@),
                now,
            )
        }
    }

    /// With every session interrupted that is not muted.
    #[verifier::opaque]
    pub open spec fn fleet_halted(self, now: u64) -> BoardView {
        self.halted(
            set_indices(self.unmuted_mask()),
            "no sessions to interrupt (all muted)"@,
            now,
        )
    }

    /// With the marked sessions interrupted, else all that are not muted.
    #[verifier::opaque]
    pub open spec fn marked_halted(self, now: u64) -> BoardView {
        self.unmarked().halted(
            bulk_targets(self.mark_mask(), Some(self.unmuted_mask())),
            "no sessions to interrupt"@,
            now,
        )
    }

    /// With a reconnect of the active session, where it is down.
    #[verifier::opaque]
    pub open spec fn active_retried(self, now: u64) -> BoardView {
        let i = self.active as int;
        if i >= self.tabs.len() {
            self
        } else if self.tabs[i].down() {
            self.asks(Act::Retry(self.active)).asks(Act::Report(Round::Active))
        } else {
            self.says(self.tabs[i].engine + " is fine"@, now)
        }
    }

    /// With a reconnect of every pane that is down.
    #[verifier::opaque]
    pub open spec fn fleet_retried(self, now: u64) -> BoardView {
        let list = set_indices(self.down_mask());
        if list.len() == 0 {
            self.says("no down panes — fleet is healthy"@, now)
        } else {
            self.retrying(list, Round::Sweep)
        }
    }

    /// With a reconnect of the marked panes, else of every one that is down.
    #[verifier::opaque]
    pub open spec fn marked_retried(self, now: u64) -> BoardView {
        let list = bulk_targets(self.mark_mask(), Some(self.down_mask()));
        let b = self.unmarked();
        if list.len() == 0 {
            b.says("no marked or down panes to reconnect"@, now)
        } else {
            b.retrying(list, Round::Sweep)
        }
    }

    /// With a reconnect of one pane, where it is down.
    #[verifier::opaque]
    pub open spec fn row_retried(self, i: int) -> BoardView {
        if 0 <= i < self.tabs.len() && self.tabs[i].down() {
            self.asks(Act::Retry(i as usize)).asks(Act::Report(Round::Row(i as usize)))
        } else {
            self
        }
    }

    /// Which tabs a sweep of the silent ones closes. A mute is no protection; a pin is, and so is
    /// being looked at.
    pub open spec fn silent_mask(self, now: u64) -> Seq<bool> {
        Seq::new(
            self.slots.len(),
            |i: int|
                silent(self.slots[i], self.seen()[i], i == self.active, now, self.quiet_after),
        )
    }

    /// With the silent tabs closed.
    #[verifier::opaque]
    pub open spec fn swept(self, now: u64) -> BoardView {
        let list = set_indices(self.silent_mask(now));
        if list.len() == 0 {
            self.says("no quiet tabs to close"@, now)
        } else {
            self.without_all(list).asks(Act::SaveTabs).asks(Act::SavePins).says(
                counted("closed "@, list.len() as int, " quiet tab"@),
                now,
            )
        }
    }

    /// The marked tabs that may be closed.
    pub open spec fn doomed_mask(self) -> Seq<bool> {
        self.slots.map_values(|s: Slot| s.mark && !s.pinned)
    }

    /// With the marked tabs closed, except the pinned ones.
    #[verifier::opaque]
    pub open spec fn marked_closed(self, now: u64) -> BoardView {
        let b = self.unmarked();
        let list = set_indices(self.doomed_mask());
        if set_indices(self.mark_mask()).len() == 0 {
            b.says("no marked tiles to close — Space to mark"@, now)
        } else if list.len() == 0 {
            b.says("nothing closed (all marked were pinned)"@, now)
        } else {
            b.without_all(list).asks(Act::SavePins).asks(Act::SaveTabs).says(
                counted("closed "@, list.len() as int, " session"@),
                now,
            )
        }
    }

    /// With the active tab's pane killed and the tab closed, pinned or not.
    #[verifier::opaque]
    pub open spec fn destroyed(self, now: u64) -> BoardView {
        if self.active < self.tabs.len() {
            let t = self.tabs[self.active as int];
            self.asks(Act::Destroy(self.active)).says(
                if t.seen.pty {
                    "closed "@ + t.head()
                } else {
                    "killed "@ + t.kind + " pane "@ + t.head()
                },
                now,
            ).without(self.active as int).asks(Act::SaveTabs)
        } else {
            self
        }
    }
}

fn push_events(out: &mut Vec<(Kind, usize)>, kind: Kind, list: &Vec<usize>)
    ensures
        final(out)@ == old(out)@ + events_of(kind, ints(list@)),
{
    let ghost had = out@;
    let ghost want = events_of(kind, ints(list@));
    let mut i: usize = 0;
    proof {
        assert(had + want.take(0) =~= had);
    }
    while i < list.len()
        invariant
            i <= list@.len(),
            want == events_of(kind, ints(list@)),
            out@ == had + want.take(i as int),
        decreases list@.len() - i,
    {
        out.push((kind, list[i]));
        i = i + 1;
        proof {
            assert(out@ =~= had + want.take(i as int));
        }
    }
    proof {
        assert(want.take(i as int) =~= want);
    }
}

impl Board {
    /// A pass over all tabs: samples each, and announces what happened in the background. Returns
    /// which tabs grew.
    pub fn pulse(&mut self, now: u64) -> (r: Vec<bool>)
        requires
            old(self)@.wf(),
        ensures
            final(self)@ == old(self)@.pulsed(now),
            final(self)@.wf(),
            r@ == old(self)@.busy_mask(now),
    {
        proof {
            reveal(BoardView::pulsed);
        }
        let ghost was = self@;
        let seen = self.observed();
        let p = activity_flags(&mut self.slots, &seen, self.active, now);
        proof {
            assert(self.slots@ =~= was.pulsed(now).slots);
        }
        if !self.dnd {
            let mut events: Vec<(Kind, usize)> = Vec::new();
            push_events(&mut events, Kind::Bell, &p.bells);
            push_events(&mut events, Kind::Recover, &p.recovered);
            push_events(&mut events, Kind::Down, &p.fallen);
            push_events(&mut events, Kind::Busy, &p.busy);
            proof {
                assert(events@ =~= events_in(was.news(now)));
            }
            let mut more = announce(&self.tabs, &events);
            let ghost had = notice_views(self.notices@);
            let ghost new = notice_views(more@);
            self.notices.append(&mut more);
            proof {
                assert(notice_views(self.notices@) =~= had + new);
            }
        }
        p.grew
    }

    fn send_to(&mut self, found: Option<usize>, none: &str, now: u64)
        requires
            old(self)@.wf(),
        ensures
            final(self)@ == old(self)@.sent_to(crate::triage::index_of(found), none@, now),
            final(self)@.wf(),
    {
        match found {
            Some(i) => self.set_active(i),
            None => if self.tabs.len() > 0 {
                self.say(copy_text(none), now);
            },
        }
    }

    fn note(&mut self, found: Option<usize>, word: &str, now: u64)
        ensures
            final(self)@ == old(self)@.noted(crate::triage::index_of(found), word@, now),
            final(self)@.wf() == old(self)@.wf(),
    {
        if let Some(i) = found {
            let mut s = copy_text(word);
            s.append(tab_identity(&self.tabs, i).as_str());
            self.say(s, now);
        }
    }

    /// Looks at the next tab that just printed something.
    pub fn next_busy(&mut self, now: u64)
        requires
            old(self)@.wf(),
        ensures
            final(self)@ == old(self)@.at_next_busy(now),
            final(self)@.wf(),
    {
        proof {
            reveal(BoardView::at_next_busy);
            reveal(BoardView::pulsed);
        }
        let flags = self.pulse(now);
        let found = find_next_set(flags.as_slice(), self.active);
        self.send_to(found, "no other busy tab", now);
    }

    /// Which tabs wait for the user.
    pub fn quiet_tabs(&self, now: u64) -> (r: Vec<bool>)
        requires
            self@.wf(),
        ensures
            r@ == self@.quiet_mask(now),
    {
        let seen = self.observed();
        crate::activity::quiet_tabs(&self.slots, &seen, self.active, now, self.quiet_after)
    }

    /// Looks at the next tab that waits for the user.
    pub fn next_quiet(&mut self, now: u64)
        requires
            old(self)@.wf(),
        ensures
            final(self)@ == old(self)@.at_next_quiet(now),
            final(self)@.wf(),
    {
        proof {
            reveal(BoardView::at_next_quiet);
        }
        let mask = self.quiet_tabs(now);
        let found = find_next_set(mask.as_slice(), self.active);
        self.note(found, "quiet — ", now);
        self.send_to(found, "no other quiet tab", now);
    }

    /// Looks at the next pinned tab.
    pub fn next_pinned(&mut self, now: u64)
        requires
            old(self)@.wf(),
        ensures
            final(self)@ == old(self)@.at_next_pinned(now),
            final(self)@.wf(),
    {
        proof {
            reveal(BoardView::at_next_pinned);
        }
        let mask = self.pins();
        let found = find_next_set(mask.as_slice(), self.active);
        self.note(found, "pinned — ", now);
        self.send_to(found, "no other pinned tab", now);
    }

    /// Looks at the next tab whose pane is down, and says why it is.
    pub fn next_down(&mut self, now: u64)
        requires
            old(self)@.wf(),
        ensures
            final(self)@ == old(self)@.at_next_down(now),
            final(self)@.wf(),
    {
        proof {
            reveal(BoardView::at_next_down);
        }
        let mask = self.downs();
        let found = find_next_set(mask.as_slice(), self.active);
        if let Some(i) = found {
            let why = trim(self.tabs[i].reason());
            let why = clip_dots(why.as_str(), 26);
            let mut s = copy_text("down — ");
            s.append(tab_identity(&self.tabs, i).as_str());
            if !why.as_str().is_empty() {
                s.append(" (");
                s.append(why.as_str());
                s.append(")");
            }
            self.say(s, now);
        }
        self.send_to(found, "no other down tab", now);
    }

    /// Looks at the first tab of the next machine.
    pub fn next_host(&mut self, now: u64)
        requires
            old(self)@.wf(),
        ensures
            final(self)@ == old(self)@.at_next_host(now),
            final(self)@.wf(),
    {
        proof {
            reveal(BoardView::at_next_host);
        }
        let mut hosts: Vec<&str> = Vec::new();
        let mut i: usize = 0;
        while i < self.tabs.len()
            invariant
                i <= self.tabs@.len(),
                strs(hosts@) == self@.host_names().take(i as int),
            decreases self.tabs@.len() - i,
        {
            let ghost had = strs(hosts@);
            hosts.push(self.tabs[i].host.as_str());
            proof {
                assert(strs(hosts@) =~= had.push(self.tabs@[i as int]@.host));
                assert(self@.host_names().take(i + 1) =~= had.push(self.tabs@[i as int]@.host));
            }
            i = i + 1;
        }
        proof {
            assert(self@.host_names().take(i as int) =~= self@.host_names());
        }
        let found = next_host_index(hosts.as_slice(), self.active);
        match found {
            Some(i) => {
                proof {
                    law_next_host_is_another(self@.host_names(), self.active as int);
                }
                let s = copy_text("host ").concat(self.tabs[i].host.as_str());
                self.say(s, now);
                self.set_active(i);
            },
            None => self.say(copy_text("no other host"), now),
        }
    }

    /// Which panes are down.
    pub fn downs(&self) -> (r: Vec<bool>)
        ensures
            r@ == self@.down_mask(),
    {
        let mut out: Vec<bool> = Vec::new();
        let mut i: usize = 0;
        while i < self.tabs.len()
            invariant
                i <= self.tabs@.len(),
                out@ == self@.down_mask().take(i as int),
            decreases self.tabs@.len() - i,
        {
            out.push(self.tabs[i].is_down());
            i = i + 1;
            proof {
                assert(out@ =~= self@.down_mask().take(i as int));
            }
        }
        proof {
            assert(self@.down_mask().take(i as int) =~= self@.down_mask());
        }
        out
    }

    /// Which tabs but the active one are pinned.
    pub fn pins(&self) -> (r: Vec<bool>)
        ensures
            r@ == self@.pin_mask(),
    {
        let mut out: Vec<bool> = Vec::new();
        let mut i: usize = 0;
        while i < self.slots.len()
            invariant
                i <= self.slots@.len(),
                out@ == self@.pin_mask().take(i as int),
            decreases self.slots@.len() - i,
        {
            out.push(i != self.active && self.slots[i].pinned);
            i = i + 1;
            proof {
                assert(out@ =~= self@.pin_mask().take(i as int));
            }
        }
        proof {
            assert(self@.pin_mask().take(i as int) =~= self@.pin_mask());
        }
        out
    }

    /// Which tabs are marked.
    pub fn marks(&self) -> (r: Vec<bool>)
        ensures
            r@ == self@.mark_mask(),
    {
        let mut out: Vec<bool> = Vec::new();
        let mut i: usize = 0;
        while i < self.slots.len()
            invariant
                i <= self.slots@.len(),
                out@ == self@.mark_mask().take(i as int),
            decreases self.slots@.len() - i,
        {
            out.push(self.slots[i].mark);
            i = i + 1;
            proof {
                assert(out@ =~= self@.mark_mask().take(i as int));
            }
        }
        proof {
            assert(self@.mark_mask().take(i as int) =~= self@.mark_mask());
        }
        out
    }

    /// Which tabs are not muted.
    pub fn unmuted(&self) -> (r: Vec<bool>)
        ensures
            r@ == self@.unmuted_mask(),
    {
        let mut out: Vec<bool> = Vec::new();
        let mut i: usize = 0;
        while i < self.slots.len()
            invariant
                i <= self.slots@.len(),
                out@ == self@.unmuted_mask().take(i as int),
            decreases self.slots@.len() - i,
        {
            out.push(!self.slots[i].muted);
            i = i + 1;
            proof {
                assert(out@ =~= self@.unmuted_mask().take(i as int));
            }
        }
        proof {
            assert(self@.unmuted_mask().take(i as int) =~= self@.unmuted_mask());
        }
        out
    }

    /// Which tabs a broadcast goes to.
    pub fn targets(&self) -> (r: Vec<bool>)
        ensures
            r@ == self@.target_mask(),
    {
        let mut out: Vec<bool> = Vec::new();
        let mut i: usize = 0;
        while i < self.slots.len()
            invariant
                i <= self.slots@.len(),
                out@ == self@.target_mask().take(i as int),
            decreases self.slots@.len() - i,
        {
            out.push(self.slots[i].target);
            i = i + 1;
            proof {
                assert(out@ =~= self@.target_mask().take(i as int));
            }
        }
        proof {
            assert(self@.target_mask().take(i as int) =~= self@.target_mask());
        }
        out
    }

    /// Which marked tabs may be closed.
    pub fn doomed(&self) -> (r: Vec<bool>)
        ensures
            r@ == self@.doomed_mask(),
    {
        let mut out: Vec<bool> = Vec::new();
        let mut i: usize = 0;
        while i < self.slots.len()
            invariant
                i <= self.slots@.len(),
                out@ == self@.doomed_mask().take(i as int),
            decreases self.slots@.len() - i,
        {
            out.push(self.slots[i].mark && !self.slots[i].pinned);
            i = i + 1;
            proof {
                assert(out@ =~= self@.doomed_mask().take(i as int));
            }
        }
        proof {
            assert(self@.doomed_mask().take(i as int) =~= self@.doomed_mask());
        }
        out
    }

    /// Drops all marks.
    pub fn clear_marks(&mut self)
        ensures
            final(self)@ == old(self)@.unmarked(),
            final(self)@.wf() == old(self)@.wf(),
    {
        let ghost was = self@;
        let ghost want = was.unmarked();
        let n: usize = self.slots.len();
        let mut i: usize = 0;
        while i < n
            invariant
                i <= n,
                n == self.slots@.len(),
                n == was.slots.len(),
                want == was.unmarked(),
                self@ == (BoardView { slots: self.slots@, ..was }),
                forall|k: int| 0 <= k < i ==> #[trigger] self.slots@[k] == want.slots[k],
                forall|k: int| i <= k < n ==> #[trigger] self.slots@[k] == was.slots[k],
            decreases n - i,
        {
            let mut t = self.slots[i];
            t.mark = false;
            self.slots.set(i, t);
            i = i + 1;
        }
        proof {
            assert(self.slots@ =~= want.slots);
        }
    }

    /// Lets a broadcast go to these tabs and no others.
    pub fn aim(&mut self, mask: &Vec<bool>)
        ensures
            final(self)@ == old(self)@.aimed(mask@),
            final(self)@.wf() == old(self)@.wf(),
    {
        let ghost was = self@;
        let ghost want = was.aimed(mask@);
        let n: usize = self.slots.len();
        let mut i: usize = 0;
        while i < n
            invariant
                i <= n,
                n == self.slots@.len(),
                n == was.slots.len(),
                want == was.aimed(mask@),
                self@ == (BoardView { slots: self.slots@, ..was }),
                forall|k: int| 0 <= k < i ==> #[trigger] self.slots@[k] == want.slots[k],
                forall|k: int| i <= k < n ==> #[trigger] self.slots@[k] == was.slots[k],
            decreases n - i,
        {
            let mut t = self.slots[i];
            t.target = i < mask.len() && mask[i];
            self.slots.set(i, t);
            i = i + 1;
        }
        proof {
            assert(self.slots@ =~= want.slots);
        }
    }

    /// Lets a broadcast go to all tabs, or to none.
    pub fn aim_all(&mut self, on: bool)
        ensures
            final(self)@ == old(self)@.aimed_all(on),
            final(self)@.wf() == old(self)@.wf(),
    {
        let ghost was = self@;
        let ghost want = was.aimed_all(on);
        let n: usize = self.slots.len();
        let mut i: usize = 0;
        while i < n
            invariant
                i <= n,
                n == self.slots@.len(),
                n == was.slots.len(),
                want == was.aimed_all(on),
                self@ == (BoardView { slots: self.slots@, ..was }),
                forall|k: int| 0 <= k < i ==> #[trigger] self.slots@[k] == want.slots[k],
                forall|k: int| i <= k < n ==> #[trigger] self.slots@[k] == was.slots[k],
            decreases n - i,
        {
            let mut t = self.slots[i];
            t.target = on;
            self.slots.set(i, t);
            i = i + 1;
        }
        proof {
            assert(self.slots@ =~= want.slots);
        }
    }

    /// Mutes a tab, or lets it be heard again.
    pub fn toggle_mute_at(&mut self, i: usize)
        ensures
            final(self)@ == old(self)@.mute_turned(i as int),
            final(self)@.wf() == old(self)@.wf(),
    {
        if i < self.slots.len() {
            let mut t = self.slots[i];
            t.muted = !t.muted;
            self.slots.set(i, t);
        }
    }

    /// Mutes the active tab, or lets it be heard again.
    pub fn toggle_mute_active(&mut self, now: u64)
        requires
            old(self)@.wf(),
        ensures
            final(self)@ == old(self)@.active_mute_turned(now),
            final(self)@.wf(),
    {
        proof {
            reveal(BoardView::active_mute_turned);
        }
        let i: usize = self.active;
        if i < self.tabs.len() {
            let state = if self.slots[i].muted {
                " unmuted"
            } else {
                " MUTED"
            };
            let s = copy_text(self.tabs[i].head()).concat(state);
            self.toggle_mute_at(i);
            self.say(s, now);
        }
    }

    /// Protects a tab from being closed, or no longer.
    pub fn toggle_pin_at(&mut self, i: usize, now: u64)
        requires
            old(self)@.wf(),
        ensures
            final(self)@ == old(self)@.pin_turned(i as int, now),
            final(self)@.wf(),
    {
        proof {
            reveal(BoardView::pin_turned);
        }
        if i < self.tabs.len() {
            let mut t = self.slots[i];
            let state = if t.pinned {
                " unpinned"
            } else {
                " PINNED 🔒"
            };
            let s = copy_text(self.tabs[i].head()).concat(state);
            t.pinned = !t.pinned;
            self.slots.set(i, t);
            self.say(s, now);
            self.ask(Act::SavePins);
        }
    }

    /// Marks a tab in the fleet grid, or no longer.
    pub fn toggle_mark_at(&mut self, i: usize)
        ensures
            final(self)@ == old(self)@.mark_turned(i as int),
            final(self)@.wf() == old(self)@.wf(),
    {
        if i < self.slots.len() {
            let mut t = self.slots[i];
            t.mark = !t.mark;
            self.slots.set(i, t);
        }
    }

    /// Lets nothing be announced, or again.
    pub fn toggle_dnd(&mut self, now: u64)
        ensures
            final(self)@ == old(self)@.dnd_turned(now),
            final(self)@.wf() == old(self)@.wf(),
    {
        proof {
            reveal(BoardView::dnd_turned);
        }
        self.dnd = !self.dnd;
        let s = if self.dnd {
            "do-not-disturb ON"
        } else {
            "notifications restored"
        };
        self.say(copy_text(s), now);
    }

    /// Hides the bars, or shows them again.
    pub fn toggle_focus(&mut self, now: u64)
        ensures
            final(self)@ == old(self)@.focus_turned(now),
            final(self)@.wf() == old(self)@.wf(),
    {
        proof {
            reveal(BoardView::focus_turned);
        }
        self.focus = !self.focus;
        let s = if self.focus {
            "focus"
        } else {
            "chrome"
        };
        self.say(copy_text(s), now);
        self.ask(Act::Redraw);
    }

    /// Marks everything read.
    pub fn mark_all_read(&mut self, now: u64)
        requires
            old(self)@.wf(),
        ensures
            final(self)@ == old(self)@.all_read(now),
            final(self)@.wf(),
    {
        proof {
            reveal(BoardView::all_read);
        }
        let seen = self.observed();
        crate::activity::mark_all_read(&mut self.slots, &seen);
        self.say(copy_text("marked all tabs read"), now);
    }

    fn ask_interrupts(&mut self, list: &Vec<usize>)
        ensures
            final(self)@ == old(self)@.interrupting(ints(list@)),
            final(self)@.wf() == old(self)@.wf(),
    {
        let ghost was = self@;
        let ghost want = ints(list@).map_values(|i: int| Act::Interrupt(i as usize));
        let mut i: usize = 0;
        proof {
            assert(was.todo + want.take(0) =~= was.todo);
        }
        while i < list.len()
            invariant
                i <= list@.len(),
                want == ints(list@).map_values(|i: int| Act::Interrupt(i as usize)),
                self@ == (BoardView { todo: was.todo + want.take(i as int), ..was }),
            decreases list@.len() - i,
        {
            self.ask(Act::Interrupt(list[i]));
            i = i + 1;
            proof {
                assert(self@.todo =~= was.todo + want.take(i as int));
            }
        }
        proof {
            assert(want.take(i as int) =~= want);
        }
    }

    /// Has the panes listed reconnected, and a report on how that went.
    pub fn ask_retries(&mut self, list: &Vec<usize>, round: Round)
        ensures
            final(self)@ == old(self)@.retrying(ints(list@), round),
            final(self)@.wf() == old(self)@.wf(),
    {
        let ghost was = self@;
        let ghost want = ints(list@).map_values(|i: int| Act::Retry(i as usize));
        let mut i: usize = 0;
        proof {
            assert(was.todo + want.take(0) =~= was.todo);
        }
        while i < list.len()
            invariant
                i <= list@.len(),
                want == ints(list@).map_values(|i: int| Act::Retry(i as usize)),
                self@ == (BoardView { todo: was.todo + want.take(i as int), ..was }),
            decreases list@.len() - i,
        {
            self.ask(Act::Retry(list[i]));
            i = i + 1;
            proof {
                assert(self@.todo =~= was.todo + want.take(i as int));
            }
        }
        proof {
            assert(want.take(i as int) =~= want);
        }
        self.ask(Act::Report(round));
    }

    /// Interrupts the active session.
    pub fn interrupt_active(&mut self, now: u64)
        ensures
            final(self)@ == old(self)@.interrupted(now),
            final(self)@.wf() == old(self)@.wf(),
    {
        proof {
            reveal(BoardView::interrupted);
        }
        let i: usize = self.active;
        if i < self.tabs.len() {
            let s = copy_text(self.tabs[i].head()).concat(" interrupted (Ctrl-C)");
            self.ask(Act::Interrupt(i));
            self.say(s, now);
        }
    }

    fn halt(&mut self, list: &Vec<usize>, none: &str, now: u64)
        ensures
            final(self)@ == old(self)@.halted(ints(list@), none@, now),
            final(self)@.wf() == old(self)@.wf(),
    {
        if list.len() == 0 {
            self.say(copy_text(none), now);
        } else {
            self.ask_interrupts(list);
            self.say(count_text("sent Ctrl-C to ", list.len(), " session"), now);
        }
    }

    /// Interrupts every session that is not muted.
    pub fn interrupt_fleet(&mut self, now: u64)
        ensures
            final(self)@ == old(self)@.fleet_halted(now),
            final(self)@.wf() == old(self)@.wf(),
    {
        proof {
            reveal(BoardView::fleet_halted);
        }
        let mask = self.unmuted();
        let list = indices_set(mask.as_slice());
        self.halt(&list, "no sessions to interrupt (all muted)", now);
    }

    /// Interrupts the marked sessions, or all that are not muted where none is marked.
    pub fn interrupt_marked(&mut self, now: u64)
        ensures
            final(self)@ == old(self)@.marked_halted(now),
            final(self)@.wf() == old(self)@.wf(),
    {
        proof {
            reveal(BoardView::marked_halted);
        }
        let marks = self.marks();
        let mask = self.unmuted();
        let list = grid_targets(marks.as_slice(), Some(mask.as_slice()));
        self.clear_marks();
        self.halt(&list, "no sessions to interrupt", now);
    }

    /// Reconnects the active session, where it is down.
    pub fn reconnect_active(&mut self, now: u64)
        ensures
            final(self)@ == old(self)@.active_retried(now),
            final(self)@.wf() == old(self)@.wf(),
    {
        proof {
            reveal(BoardView::active_retried);
        }
        let i: usize = self.active;
        if i < self.tabs.len() {
            if self.tabs[i].is_down() {
                self.ask(Act::Retry(i));
                self.ask(Act::Report(Round::Active));
            } else {
                let s = copy_text(self.tabs[i].engine.as_str()).concat(" is fine");
                self.say(s, now);
            }
        }
    }

    /// Reconnects every pane that is down.
    pub fn reconnect_all_down(&mut self, now: u64)
        ensures
            final(self)@ == old(self)@.fleet_retried(now),
            final(self)@.wf() == old(self)@.wf(),
    {
        proof {
            reveal(BoardView::fleet_retried);
        }
        let mask = self.downs();
        let list = indices_set(mask.as_slice());
        if list.len() == 0 {
            self.say(copy_text("no down panes — fleet is healthy"), now);
        } else {
            self.ask_retries(&list, Round::Sweep);
        }
    }

    /// Reconnects the marked panes, or every one that is down where none is marked.
    pub fn reconnect_marked(&mut self, now: u64)
        ensures
            final(self)@ == old(self)@.marked_retried(now),
            final(self)@.wf() == old(self)@.wf(),
    {
        proof {
            reveal(BoardView::marked_retried);
        }
        let marks = self.marks();
        let mask = self.downs();
        let list = grid_targets(marks.as_slice(), Some(mask.as_slice()));
        self.clear_marks();
        if list.len() == 0 {
            self.say(copy_text("no marked or down panes to reconnect"), now);
        } else {
            self.ask_retries(&list, Round::Sweep);
        }
    }

    /// Reconnects one pane, where it is down.
    pub fn reconnect_row(&mut self, i: usize)
        ensures
            final(self)@ == old(self)@.row_retried(i as int),
            final(self)@.wf() == old(self)@.wf(),
    {
        proof {
            reveal(BoardView::row_retried);
        }
        if i < self.tabs.len() && self.tabs[i].is_down() {
            self.ask(Act::Retry(i));
            self.ask(Act::Report(Round::Row(i)));
        }
    }

    fn silents(&self, now: u64) -> (r: Vec<bool>)
        requires
            self@.wf(),
        ensures
            r@ == self@.silent_mask(now),
    {
        let mut out: Vec<bool> = Vec::new();
        let mut i: usize = 0;
        while i < self.slots.len()
            invariant
                i <= self.slots@.len(),
                self@.wf(),
                out@ == self@.silent_mask(now).take(i as int),
            decreases self.slots@.len() - i,
        {
            out.push(
                silent_for(&self.slots[i], &self.tabs[i].seen, i == self.active, now, self.quiet_after),
            );
            proof {
                assert(self@.seen()[i as int] == self.tabs@[i as int].seen);
                assert(out@ =~= self@.silent_mask(now).take(i + 1));
            }
            i = i + 1;
        }
        proof {
            assert(self@.silent_mask(now).take(i as int) =~= self@.silent_mask(now));
        }
        out
    }

    /// Closes every tab whose session has been silent for so long that it is done.
    pub fn close_quiet_tabs(&mut self, now: u64)
        requires
            old(self)@.wf(),
        ensures
            final(self)@ == old(self)@.swept(now),
            final(self)@.wf(),
    {
        proof {
            reveal(BoardView::swept);
        }
        let mask = self.silents(now);
        let list = indices_set(mask.as_slice());
        let n: usize = list.len();
        if n == 0 {
            self.say(copy_text("no quiet tabs to close"), now);
            return;
        }
        proof {
            lemma_listed(list@, mask@);
        }
        self.drop_tabs(&list);
        self.ask(Act::SaveTabs);
        self.ask(Act::SavePins);
        self.say(count_text("closed ", n, " quiet tab"), now);
    }

    /// Closes the marked tabs, except the pinned ones.
    pub fn close_marked(&mut self, now: u64)
        requires
            old(self)@.wf(),
        ensures
            final(self)@ == old(self)@.marked_closed(now),
            final(self)@.wf(),
    {
        proof {
            reveal(BoardView::marked_closed);
        }
        let marks = self.marks();
        let marked = grid_targets(marks.as_slice(), None);
        let mask = self.doomed();
        let list = indices_set(mask.as_slice());
        let n: usize = list.len();
        self.clear_marks();
        proof {
            assert(ints(marked@).len() == marked@.len());
            assert(ints(list@).len() == list@.len());
            lemma_listed(list@, mask@);
        }
        if marked.len() == 0 {
            self.say(copy_text("no marked tiles to close — Space to mark"), now);
        } else if n == 0 {
            self.say(copy_text("nothing closed (all marked were pinned)"), now);
        } else {
            self.drop_tabs(&list);
            self.ask(Act::SavePins);
            self.ask(Act::SaveTabs);
            self.say(count_text("closed ", n, " session"), now);
        }
    }

    /// Kills the pane of the active tab and closes the tab.
    pub fn destroy_active(&mut self, now: u64)
        requires
            old(self)@.wf(),
        ensures
            final(self)@ == old(self)@.destroyed(now),
            final(self)@.wf(),
    {
        proof {
            reveal(BoardView::destroyed);
        }
        let i: usize = self.active;
        if i < self.tabs.len() {
            let s = if self.tabs[i].seen.pty {
                copy_text("closed ").concat(self.tabs[i].head())
            } else {
                let mut t = copy_text("killed ");
                t.append(self.tabs[i].kind.as_str());
                t.append(" pane ");
                t.append(self.tabs[i].head());
                t
            };
            self.ask(Act::Destroy(i));
            self.say(s, now);
            self.drop_tab(i);
            self.ask(Act::SaveTabs);
        }
    }
}

proof fn lemma_listed(list: Seq<usize>, mask: Seq<bool>)
    requires
        ints(list) == set_indices(mask),
    ensures
        forall|k: int| 0 <= k < list.len() ==> #[trigger] list[k] < mask.len() && mask[list[k] as int],
        forall|j: int, k: int| 0 <= j < k < list.len() ==> list[j] < list[k],
{
    lemma_set_indices(mask);
    assert forall|k: int| 0 <= k < list.len() implies #[trigger] list[k] < mask.len()
        && mask[list[k] as int] by {
        assert(ints(list)[k] == list[k]);
    }
    assert forall|j: int, k: int| 0 <= j < k < list.len() implies list[j] < list[k] by {
        assert(ints(list)[j] == list[j]);
        assert(ints(list)[k] == list[k]);
    }
}

impl BoardView {
    /// With the name of the active session copied.
    #[verifier::opaque]
    pub open spec fn identity_copied(self, now: u64) -> BoardView {
        if self.active < self.tabs.len() {
            self.asks(Act::CopyIdentity).says(
                "copied "@ + self.tabs[self.active as int].identity(),
                now,
            )
        } else {
            self
        }
    }

    /// With the summary of the whole fleet copied.
    #[verifier::opaque]
    pub open spec fn fleet_copied(self, now: u64) -> BoardView {
        if self.tabs.len() == 0 {
            self.says("no sessions to summarize"@, now)
        } else {
            self.asks(Act::CopyFleet).says(
                "copied "@ + dec(self.tabs.len()) + " sessions to clipboard"@,
                now,
            )
        }
    }
}

impl Board {
    /// Copies the name of the active session.
    pub fn copy_identity(&mut self, now: u64)
        ensures
            final(self)@ == old(self)@.identity_copied(now),
            final(self)@.wf() == old(self)@.wf(),
    {
        proof {
            reveal(BoardView::identity_copied);
        }
        let i: usize = self.active;
        if i < self.tabs.len() {
            let s = copy_text("copied ").concat(self.tabs[i].identity().as_str());
            self.ask(Act::CopyIdentity);
            self.say(s, now);
        }
    }

    /// Copies the summary of the whole fleet.
    pub fn copy_fleet(&mut self, now: u64)
        ensures
            final(self)@ == old(self)@.fleet_copied(now),
            final(self)@.wf() == old(self)@.wf(),
    {
        proof {
            reveal(BoardView::fleet_copied);
        }
        let n: usize = self.tabs.len();
        if n == 0 {
            self.say(copy_text("no sessions to summarize"), now);
        } else {
            let mut s = copy_text("copied ");
            s.append(decimal(n as u64).as_str());
            s.append(" sessions to clipboard");
            self.ask(Act::CopyFleet);
            self.say(s, now);
        }
    }
}

/// How one reconnect went.
pub struct Outcome {
    pub tab: usize,
    pub ok: bool,
    /// Why it failed, in the words of the connection.
    pub reason: String,
    /// What kind of failure it was.
    pub kind: String,
}

/// How one reconnect went, as plain data.
#[verifier::ext_equal]
pub struct OutcomeView {
    pub tab: usize,
    pub ok: bool,
    pub reason: Seq<char>,
    pub kind: Seq<char>,
}

impl View for Outcome {
    type V = OutcomeView;

    open spec fn view(&self) -> OutcomeView {
        OutcomeView { tab: self.tab, ok: self.ok, reason: self.reason@, kind: self.kind@ }
    }
}

pub open spec fn outcomes(v: Seq<Outcome>) -> Seq<OutcomeView> {
    v.map_values(|o: Outcome| o@)
}

/// How many reconnects went well.
pub open spec fn reached(v: Seq<OutcomeView>) -> nat
    decreases v.len(),
{
    if v.len() == 0 {
        0
    } else {
        reached(v.drop_last()) + (if v.last().ok {
            1nat
        } else {
            0
        })
    }
}

/// What is said of each pane that is still down: its machine, and why.
pub open spec fn failures(tabs: Seq<TabView>, v: Seq<OutcomeView>) -> Seq<Seq<char>>
    decreases v.len(),
{
    if v.len() == 0 {
        Seq::empty()
    } else if v.last().ok {
        failures(tabs, v.drop_last())
    } else {
        let o = v.last();
        failures(tabs, v.drop_last()).push(
            machine(
                if o.tab < tabs.len() {
                    tabs[o.tab as int].host
                } else {
                    Seq::empty()
                },
            ) + ": "@ + if o.reason.len() == 0 {
                o.kind
            } else {
                o.reason
            },
        )
    }
}

impl BoardView {
    /// With a report on how a round of reconnects went. `host` is the machine that is looked into.
    pub open spec fn reported(
        self,
        round: Round,
        v: Seq<OutcomeView>,
        host: Seq<char>,
        now: u64,
    ) -> BoardView {
        let ok = reached(v);
        match round {
            Round::Active => if self.active < self.tabs.len() {
                self.says(
                    self.tabs[self.active as int].engine + if ok > 0 {
                        " reconnected"@
                    } else {
                        " still unreachable — will keep retrying"@
                    },
                    now,
                )
            } else {
                self
            },
            Round::Sweep => self.says(reconnect_said(ok, failures(self.tabs, v)), now),
            Round::Machine => {
                let line = host + ": "@ + dec(ok) + " reconnected"@;
                self.says(
                    if v.len() > ok {
                        line + ", "@ + dec((v.len() - ok) as nat) + " still down"@
                    } else {
                        line
                    },
                    now,
                )
            },
            Round::Row(i) => self.says(
                if ok > 0 {
                    "reconnecting — "@ + identity_at(self.tabs, i as int)
                } else {
                    "reconnect failed — "@ + identity_at(self.tabs, i as int)
                },
                now,
            ),
        }
    }
}

impl Board {
    fn count_reached(v: &Vec<Outcome>) -> (r: usize)
        ensures
            r == reached(outcomes(v@)),
            r <= v@.len(),
    {
        let mut n: usize = 0;
        let mut i: usize = 0;
        while i < v.len()
            invariant
                i <= v@.len(),
                n <= i,
                n == reached(outcomes(v@).take(i as int)),
            decreases v@.len() - i,
        {
            proof {
                assert(outcomes(v@).take(i + 1).drop_last() =~= outcomes(v@).take(i as int));
            }
            if v[i].ok {
                n = n + 1;
            }
            i = i + 1;
        }
        proof {
            assert(outcomes(v@).take(i as int) =~= outcomes(v@));
        }
        n
    }

    fn list_failures(&self, v: &Vec<Outcome>) -> (r: Vec<(String, String)>)
        ensures
            down_texts(r@) == failures(self@.tabs, outcomes(v@)),
    {
        let mut out: Vec<(String, String)> = Vec::new();
        let mut i: usize = 0;
        proof {
            assert(down_texts(out@) =~= Seq::empty());
        }
        while i < v.len()
            invariant
                i <= v@.len(),
                down_texts(out@) == failures(self@.tabs, outcomes(v@).take(i as int)),
            decreases v@.len() - i,
        {
            proof {
                assert(outcomes(v@).take(i + 1).drop_last() =~= outcomes(v@).take(i as int));
            }
            let o = &v[i];
            if !o.ok {
                let host = copy_text(
                    machine_name(
                        if o.tab < self.tabs.len() {
                            self.tabs[o.tab].host.as_str()
                        } else {
                            ""
                        },
                    ),
                );
                proof {
                    reveal_strlit("");
                    assert(""@ =~= Seq::<char>::empty());
                }
                let why = copy_text(
                    if o.reason.as_str().is_empty() {
                        o.kind.as_str()
                    } else {
                        o.reason.as_str()
                    },
                );
                let ghost had = down_texts(out@);
                let ghost t = host@ + ": "@ + why@;
                out.push((host, why));
                proof {
                    assert(down_texts(out@) =~= had.push(t));
                }
            }
            i = i + 1;
        }
        proof {
            assert(outcomes(v@).take(i as int) =~= outcomes(v@));
        }
        out
    }

    /// Reports how a round of reconnects went.
    pub fn report(&mut self, round: Round, v: &Vec<Outcome>, host: &str, now: u64)
        ensures
            final(self)@ == old(self)@.reported(round, outcomes(v@), host@, now),
            final(self)@.wf() == old(self)@.wf(),
    {
        let ok: usize = Self::count_reached(v);
        match round {
            Round::Active => {
                let i: usize = self.active;
                if i < self.tabs.len() {
                    let s = copy_text(self.tabs[i].engine.as_str()).concat(
                        if ok > 0 {
                            " reconnected"
                        } else {
                            " still unreachable — will keep retrying"
                        },
                    );
                    self.say(s, now);
                }
            },
            Round::Sweep => {
                let still = self.list_failures(v);
                self.say(fmt_reconnect_summary(ok, still.as_slice()), now);
            },
            Round::Machine => {
                let mut s = copy_text(host);
                s.append(": ");
                s.append(decimal(ok as u64).as_str());
                s.append(" reconnected");
                if v.len() > ok {
                    s.append(", ");
                    s.append(decimal((v.len() - ok) as u64).as_str());
                    s.append(" still down");
                }
                self.say(s, now);
            },
            Round::Row(i) => {
                let s = copy_text(
                    if ok > 0 {
                        "reconnecting — "
                    } else {
                        "reconnect failed — "
                    },
                ).concat(tab_identity(&self.tabs, i).as_str());
                self.say(s, now);
            },
        }
    }
}

/// Whether one list of tabs holds another's tab at a place, with what is kept of it.
pub open spec fn same_tab(a: BoardView, i: int, b: BoardView, j: int) -> bool {
    0 <= i < a.tabs.len() && 0 <= j < b.tabs.len() && a.tabs[i] == b.tabs[j] && a.slots[i] == b.slots[j]
}

/// Moving the active tab takes everything kept of it along, and it stays the active one.
pub proof fn law_shift_follows(b: BoardView, right: bool)
    requires
        b.wf(),
        b.tabs.len() > 0,
    ensures
        b.shifted(right).wf(),
        same_tab(b.shifted(right), b.shifted(right).active as int, b, b.active as int),
{
}

/// Moving a tab there and back leaves the tabs, and what is kept of them, as they were.
pub proof fn law_shift_back(b: BoardView, right: bool)
    requires
        b.wf(),
        b.shifted(right) != b,
    ensures
        b.shifted(right).shifted(!right).tabs == b.tabs,
        b.shifted(right).shifted(!right).slots == b.slots,
        b.shifted(right).shifted(!right).active == b.active,
{
    assert(b.shifted(right).shifted(!right).tabs =~= b.tabs);
    assert(b.shifted(right).shifted(!right).slots =~= b.slots);
}

/// Dragging a tab takes everything kept of it along, and the active tab stays the active one.
pub proof fn law_drag_follows(b: BoardView, from: int, to: int)
    requires
        b.wf(),
        0 <= from < b.tabs.len(),
        0 <= to < b.tabs.len(),
    ensures
        b.reordered(from, to).wf(),
        same_tab(b.reordered(from, to), to, b, from),
        same_tab(b.reordered(from, to), b.reordered(from, to).active as int, b, b.active as int),
{
}

/// Closing another tab leaves the one that is looked at in view, with what is kept of it.
pub proof fn law_closing_keeps_the_watched(b: BoardView, i: int)
    requires
        b.wf(),
        !b.native,
        0 <= i < b.tabs.len(),
        i != b.active,
    ensures
        b.without(i).wf(),
        same_tab(b.without(i), b.without(i).active as int, b, b.active as int),
{
}

/// Closing many tabs, none of them the one that is looked at, leaves that one in view, where
/// [`reanchor_active_after_batch`](crate::triage::reanchor_active_after_batch) puts it.
pub proof fn law_batch_keeps_the_watched(b: BoardView, list: Seq<int>)
    requires
        b.wf(),
        !b.native,
        forall|k: int| 0 <= k < list.len() ==> 0 <= #[trigger] list[k] < b.tabs.len(),
        forall|j: int, k: int| 0 <= j < k < list.len() ==> list[j] < list[k],
        !list.contains(b.active as int),
        b.tabs.len() > 0,
    ensures
        b.without_all(list).wf(),
        same_tab(b.without_all(list), b.without_all(list).active as int, b, b.active as int),
        b.without_all(list).active == b.active - below(
            list.map_values(|i: int| i as usize),
            b.active,
        ),
    decreases list.len(),
{
    let idx = list.map_values(|i: int| i as usize);
    if list.len() > 0 {
        let i = list.last();
        let front = list.drop_last();
        assert(list.contains(list[list.len() - 1]));
        let c = b.without(i);
        law_closing_keeps_the_watched(b, i);
        assert(idx.drop_last() =~= front.map_values(|i: int| i as usize));
        assert forall|k: int| 0 <= k < front.len() implies 0 <= #[trigger] front[k] < c.tabs.len() by {
            assert(front[k] == list[k]);
        }
        if front.contains(c.active as int) {
            let k = front.index_of(c.active as int);
            assert(list[k] == c.active);
            assert(list.contains(list[k]));
            assert(list[k] < i);
            assert(false);
        }
        law_batch_keeps_the_watched(c, front);
        if b.active > i {
            lemma_below_all(front.map_values(|i: int| i as usize), c.active, b.active);
        }
    }
}

/// Counted below a number or below the next one, a list without that number gives the same.
proof fn lemma_below_all(list: Seq<usize>, a: usize, b: usize)
    requires
        a + 1 == b,
        !list.contains(a),
    ensures
        below(list, a) == below(list, b),
    decreases list.len(),
{
    if list.len() > 0 {
        assert(list.contains(list[list.len() - 1]));
        assert forall|x: usize| list.drop_last().contains(x) implies list.contains(x) by {
            let k = list.drop_last().index_of(x);
            assert(list[k] == x);
        }
        lemma_below_all(list.drop_last(), a, b);
    }
}

/// A sweep of the silent tabs closes neither a pinned tab nor the one that is looked at.
pub proof fn law_sweep_spares(b: BoardView, now: u64, i: int)
    requires
        b.wf(),
        0 <= i < b.tabs.len(),
        b.slots[i].pinned || i == b.active,
    ensures
        !set_indices(b.silent_mask(now)).contains(i),
{
    lemma_set_indices(b.silent_mask(now));
    if set_indices(b.silent_mask(now)).contains(i) {
        let k = set_indices(b.silent_mask(now)).index_of(i);
        assert(set_indices(b.silent_mask(now))[k] == i);
    }
}

/// Closing the marked tabs closes no pinned one.
pub proof fn law_pins_hold(b: BoardView, i: int)
    requires
        b.wf(),
        0 <= i < b.tabs.len(),
        b.slots[i].pinned,
    ensures
        !set_indices(b.doomed_mask()).contains(i),
        forall|now: u64| (#[trigger] b.closed(i, now)).tabs == b.tabs,
{
    lemma_set_indices(b.doomed_mask());
    if set_indices(b.doomed_mask()).contains(i) {
        let k = set_indices(b.doomed_mask()).index_of(i);
        assert(set_indices(b.doomed_mask())[k] == i);
    }
}

/// A pinned tab is not closed: it stays where it is, with what is kept of it.
pub proof fn law_pinned_stays_open(b: BoardView, i: int, now: u64)
    requires
        b.pinned(i),
        b.wf(),
    ensures
        b.closed(i, now).tabs == b.tabs,
        b.closed(i, now).slots == b.slots,
        b.closed(i, now).todo == b.todo,
{
}

/// Flipping between two tabs twice comes back.
pub proof fn law_flip_twice(b: BoardView)
    requires
        b.wf(),
        !b.native,
        b.last matches Some(p) && p < b.tabs.len() && p != b.active,
    ensures
        b.flipped().flipped().active == b.active,
        b.flipped().flipped().last == b.last,
{
}

/// Nothing is told while nothing is to be.
pub proof fn law_dnd_is_silent(b: BoardView, now: u64)
    requires
        b.dnd,
    ensures
        b.pulsed(now).notices == b.notices,
{
    reveal(BoardView::pulsed);
}

/// Pressing the key for muting, pinning or marking twice leaves the slots as they were.
pub proof fn law_toggles_undo(b: BoardView, i: int, now: u64)
    requires
        b.wf(),
    ensures
        b.mute_turned(i).mute_turned(i).slots == b.slots,
        b.mark_turned(i).mark_turned(i).slots == b.slots,
        b.pin_turned(i, now).pin_turned(i, now).slots == b.slots,
{
    reveal(BoardView::pin_turned);
    assert(b.mute_turned(i).mute_turned(i).slots =~= b.slots);
    assert(b.mark_turned(i).mark_turned(i).slots =~= b.slots);
    assert(b.pin_turned(i, now).pin_turned(i, now).slots =~= b.slots);
}

} // verus!
