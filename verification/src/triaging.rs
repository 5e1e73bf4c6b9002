//! What the keys do in the overlays over the whole fleet: the machines, a line to broadcast, the
//! sessions to triage, the fleet grid.

use vstd::prelude::*;
use vstd::string::*;

use crate::activity::Slot;
use crate::board::{at_most, last_of, Act, Board, BoardView, Round};
use crate::finding::{kept, keep_within, nth};
use crate::keys::{Key, KeyView, Mods, NamedKey};
use crate::machines::{host_engine_breakdown, machine, machines, session_indices_for_host, tabs_on};
use crate::seqs::{firsts, indices_set, ints, lemma_set_indices, set_indices};
use crate::shell::{CastView, Overlay, PeekView, Shell, ShellView};
use crate::tabs::{agent_rows, agent_tabs, identity_at, one_based, tab_identity, Tab, TabView};
use crate::text::{
    chars_of, copy_text, dec, decimal, drop_last_char, same_text, texts, without_last,
};
use crate::triage::{
    find_next_set, index_of, next_set, next_trouble_index, prev_set, prev_trouble_index,
    recall_index, recall_to,
};
use crate::typing::{row_down, row_up, step_down, step_up};
use crate::words::{prepend_capped, recalled};

verus! {

impl BoardView {
    /// The machines of the open tabs, each once.
    pub open spec fn host_list(self) -> Seq<Seq<char>> {
        firsts(machines(agent_tabs(self.tabs)))
    }

    /// Which tabs are on a machine.
    pub open spec fn host_mask(self, host: Seq<char>) -> Seq<bool> {
        self.tabs.map_values(|t: TabView| machine(t.host) == host)
    }

    /// The tabs on a machine.
    pub open spec fn on_host(self, host: Seq<char>) -> Seq<int> {
        set_indices(self.host_mask(host))
    }

    /// Which tabs on a machine are down.
    pub open spec fn fallen_on(self, host: Seq<char>) -> Seq<bool> {
        self.tabs.map_values(|t: TabView| machine(t.host) == host && t.down())
    }

    /// With a tab active, without remembering the one before.
    pub open spec fn placed(self, i: int) -> BoardView {
        BoardView { active: at_most(i as usize, last_of(self.tabs.len())), ..self }.asks(
            Act::SaveActive,
        )
    }
}

proof fn lemma_tabs_on(pairs: Seq<(usize, &str)>, host: Seq<char>, mask: Seq<bool>)
    requires
        pairs.len() == mask.len(),
        forall|i: int|
            #![trigger pairs[i]]
            #![trigger mask[i]]
            0 <= i < pairs.len() ==> pairs[i].0 == i && mask[i] == (machine(pairs[i].1@) == host),
    ensures
        ints(tabs_on(pairs, host)) == set_indices(mask),
    decreases pairs.len(),
{
    if pairs.len() > 0 {
        let (p, m) = (pairs.drop_last(), mask.drop_last());
        assert forall|i: int| 0 <= i < p.len() implies #[trigger] p[i].0 == i && m[i] == (machine(
            p[i].1@,
        ) == host) by {
            assert(pairs[i].0 == i);
        }
        lemma_tabs_on(p, host, m);
        assert(pairs[pairs.len() - 1].0 == pairs.len() - 1);
        assert(ints(tabs_on(pairs, host)) =~= if mask.last() {
            ints(tabs_on(p, host)).push(pairs.len() - 1)
        } else {
            ints(tabs_on(p, host))
        });
    } else {
        assert(ints(tabs_on(pairs, host)) =~= Seq::empty());
    }
}

impl Board {
    /// The machines of the open tabs, each once.
    pub fn host_names(&self) -> (r: Vec<String>)
        ensures
            texts(r@) == self@.host_list(),
    {
        let rows = agent_rows(&self.tabs);
        let hosts = host_engine_breakdown(rows.as_slice());
        let ghost want = self@.host_list();
        let mut out: Vec<String> = Vec::new();
        let mut i: usize = 0;
        while i < hosts.len()
            invariant
                i <= hosts@.len(),
                hosts@.len() == want.len(),
                forall|j: int| #![trigger hosts@[j]] 0 <= j < hosts@.len() ==> hosts@[j].0@ == want[j],
                texts(out@) == want.take(i as int),
            decreases hosts@.len() - i,
        {
            let ghost had = texts(out@);
            out.push(copy_text(hosts[i].0.as_str()));
            proof {
                assert(texts(out@) =~= had.push(want[i as int]));
                assert(want.take(i + 1) =~= had.push(want[i as int]));
            }
            i = i + 1;
        }
        proof {
            assert(want.take(i as int) =~= want);
        }
        out
    }

    /// The tabs on a machine.
    pub fn host_session_indices(&self, host: &str) -> (r: Vec<usize>)
        ensures
            ints(r@) == self@.on_host(host@),
            forall|k: int| 0 <= k < r@.len() ==> #[trigger] r@[k] < self@.tabs.len(),
    {
        let mut pairs: Vec<(usize, &str)> = Vec::new();
        let mut i: usize = 0;
        while i < self.tabs.len()
            invariant
                i <= self.tabs@.len(),
                pairs@.len() == i,
                forall|k: int|
                    #![trigger pairs@[k]]
                    0 <= k < i ==> pairs@[k].0 == k && pairs@[k].1@ == self.tabs@[k]@.host,
            decreases self.tabs@.len() - i,
        {
            pairs.push((i, self.tabs[i].host.as_str()));
            i = i + 1;
        }
        let r = session_indices_for_host(pairs.as_slice(), host);
        proof {
            let mask = self@.host_mask(host@);
            assert forall|k: int|
                #![trigger pairs@[k]]
                #![trigger mask[k]]
                0 <= k < pairs@.len() implies pairs@[k].0 == k && mask[k] == (machine(pairs@[k].1@)
                == host@) by {
                assert(self@.tabs[k] == self.tabs@[k]@);
            }
            lemma_tabs_on(pairs@, host@, mask);
            lemma_set_indices(mask);
            assert forall|k: int| 0 <= k < r@.len() implies #[trigger] r@[k] < self@.tabs.len() by {
                assert(ints(r@)[k] == r@[k]);
            }
        }
        r
    }

    pub(crate) fn fallen_on(&self, host: &str) -> (r: Vec<usize>)
        ensures
            ints(r@) == set_indices(self@.fallen_on(host@)),
    {
        let ghost want = self@.fallen_on(host@);
        let mut mask: Vec<bool> = Vec::new();
        let mut i: usize = 0;
        while i < self.tabs.len()
            invariant
                i <= self.tabs@.len(),
                want == self@.fallen_on(host@),
                mask@ == want.take(i as int),
            decreases self.tabs@.len() - i,
        {
            let here = same_text(crate::machines::machine_name(self.tabs[i].host.as_str()), host);
            mask.push(here && self.tabs[i].is_down());
            proof {
                assert(self@.tabs[i as int] == self.tabs@[i as int]@);
                assert(mask@ =~= want.take(i + 1));
            }
            i = i + 1;
        }
        proof {
            assert(want.take(i as int) =~= want);
        }
        indices_set(mask.as_slice())
    }

    fn host_targets(&self, host: &str) -> (r: Vec<bool>)
        ensures
            r@ == self@.host_mask(host@),
    {
        let ghost want = self@.host_mask(host@);
        let mut mask: Vec<bool> = Vec::new();
        let mut i: usize = 0;
        while i < self.tabs.len()
            invariant
                i <= self.tabs@.len(),
                want == self@.host_mask(host@),
                mask@ == want.take(i as int),
            decreases self.tabs@.len() - i,
        {
            mask.push(
                same_text(crate::machines::machine_name(self.tabs[i].host.as_str()), host),
            );
            proof {
                assert(self@.tabs[i as int] == self.tabs@[i as int]@);
                assert(mask@ =~= want.take(i + 1));
            }
            i = i + 1;
        }
        proof {
            assert(want.take(i as int) =~= want);
        }
        mask
    }

    /// Looks at a tab without remembering the one before.
    pub fn place(&mut self, i: usize)
        ensures
            final(self)@ == old(self)@.placed(i as int),
            old(self)@.wf() ==> final(self)@.wf(),
    {
        let n: usize = self.tabs.len();
        let last: usize = if n == 0 {
            0
        } else {
            n - 1
        };
        self.active =
        if i <= last {
            i
        } else {
            last
        };
        self.ask(Act::SaveActive);
    }
}

impl ShellView {
    pub open spec fn at_host(self, sel: usize) -> ShellView {
        ShellView { hosts_sel: sel, ..self }
    }

    pub open spec fn out_of_host(self) -> ShellView {
        ShellView { hosts_host: None, hosts_sel: 0, ..self }
    }

    /// With a line to broadcast to these tabs open: the one sent last.
    pub open spec fn casting_to(self, mask: Seq<bool>) -> ShellView {
        ShellView {
            overlay: Overlay::Broadcast,
            cast: CastView { query: self.cast.last, sel: 0, ..self.cast },
            board: self.board.aimed(mask),
            ..self
        }
    }

    /// After a key in the list of machines, or in the list of one machine's sessions.
    #[verifier::opaque]
    pub open spec fn hosts_keyed(self, key: KeyView) -> ShellView {
        let b = self.board;
        let n = match self.hosts_host {
            Some(h) => b.on_host(h).len(),
            None => b.host_list().len(),
        };
        match key {
            KeyView::Named(k) => match k {
                NamedKey::Escape => if self.hosts_host is Some {
                    self.out_of_host()
                } else {
                    self.over(Overlay::Closed)
                },
                NamedKey::ArrowLeft => if self.hosts_host is Some {
                    self.out_of_host()
                } else {
                    self
                },
                NamedKey::ArrowDown => if n > 0 {
                    self.at_host(row_down(self.hosts_sel, 1, n))
                } else {
                    self
                },
                NamedKey::ArrowUp => self.at_host(row_up(self.hosts_sel, 1)),
                NamedKey::PageDown => self.at_host(row_down(self.hosts_sel, 10, n)),
                NamedKey::PageUp => self.at_host(row_up(self.hosts_sel, 10)),
                NamedKey::ArrowRight => match (
                    self.hosts_host,
                    nth(b.host_list(), self.hosts_sel as int),
                ) {
                    (None, Some(h)) => if b.on_host(h).len() > 1 {
                        ShellView { hosts_host: Some(h), hosts_sel: 0, ..self }
                    } else {
                        self
                    },
                    _ => self,
                },
                _ => self,
            },
            _ => self,
        }
    }

    /// After the enter key in the list of machines, or in the list of one machine's sessions.
    #[verifier::opaque]
    pub open spec fn host_taken(self, now: u64) -> ShellView {
        let b = self.board;
        match self.hosts_host {
            Some(h) => match nth(b.on_host(h), self.hosts_sel as int) {
                Some(i) => self.on(b.focused(i as usize)).says(
                    h + " · "@ + dec((i + 1) as nat),
                    now,
                ).over(Overlay::Closed),
                None => self,
            },
            None => match nth(b.host_list(), self.hosts_sel as int) {
                Some(h) => match nth(b.on_host(h), 0) {
                    Some(i) => self.on(b.focused(i as usize)).says("host "@ + h, now).over(
                        Overlay::Closed,
                    ),
                    None => self,
                },
                None => self,
            },
        }
    }

    /// After a letter in the list of one machine's sessions: `r` reconnects those that are down,
    /// `b` opens a line to broadcast to all of them.
    #[verifier::opaque]
    pub open spec fn host_typed(self, c: Seq<char>) -> ShellView {
        match self.hosts_host {
            Some(h) => if c == "r"@ || c == "R"@ {
                self.on(
                    self.board.retrying(set_indices(self.board.fallen_on(h)), Round::Machine),
                )
            } else if c == "b"@ || c == "B"@ {
                self.casting_to(self.board.host_mask(h))
            } else {
                self
            },
            None => self,
        }
    }
}

impl Shell {
    fn hosts_rows(&self) -> (r: usize)
        ensures
            r == match self@.hosts_host {
                Some(h) => self@.board.on_host(h).len(),
                None => self@.board.host_list().len(),
            },
    {
        match &self.hosts_host {
            Some(h) => {
                let v = self.board.host_session_indices(h.as_str());
                proof {
                    assert(ints(v@).len() == v@.len());
                }
                v.len()
            },
            None => {
                let v = self.board.host_names();
                proof {
                    assert(texts(v@).len() == v@.len());
                }
                v.len()
            },
        }
    }

    fn drill_in(&mut self)
        ensures
            final(self)@ == old(self)@.hosts_keyed(KeyView::Named(NamedKey::ArrowRight)),
    {
        proof {
            reveal(ShellView::hosts_keyed);
        }
        if self.hosts_host.is_none() {
            let names = self.board.host_names();
            proof {
                assert(texts(names@).len() == names@.len());
            }
            if self.hosts_sel < names.len() {
                let h = copy_text(names[self.hosts_sel].as_str());
                let list = self.board.host_session_indices(h.as_str());
                proof {
                    assert(ints(list@).len() == list@.len());
                    assert(texts(names@)[self.hosts_sel as int] == h@);
                }
                if list.len() > 1 {
                    self.hosts_host = Some(h);
                    self.hosts_sel = 0;
                }
            }
        }
    }

    fn take_host(&mut self, now: u64)
        requires
            old(self)@.wf(),
        ensures
            final(self)@ == old(self)@.host_taken(now),
            final(self)@.wf(),
    {
        proof {
            reveal(ShellView::host_taken);
        }
        match &self.hosts_host {
            Some(h) => {
                let list = self.board.host_session_indices(h.as_str());
                proof {
                    assert(ints(list@).len() == list@.len());
                }
                if self.hosts_sel < list.len() {
                    let i: usize = list[self.hosts_sel];
                    proof {
                        assert(ints(list@)[self.hosts_sel as int] == i);
                    }
                    let mut s = copy_text(h.as_str());
                    s.append(" · ");
                    s.append(one_based(i).as_str());
                    self.board.set_active(i);
                    self.board.say(s, now);
                    self.overlay = Overlay::Closed;
                }
            },
            None => {
                let names = self.board.host_names();
                proof {
                    assert(texts(names@).len() == names@.len());
                }
                if self.hosts_sel < names.len() {
                    let h = names[self.hosts_sel].as_str();
                    proof {
                        assert(texts(names@)[self.hosts_sel as int] == h@);
                    }
                    let list = self.board.host_session_indices(h);
                    proof {
                        assert(ints(list@).len() == list@.len());
                    }
                    if list.len() > 0 {
                        let i: usize = list[0];
                        proof {
                            assert(ints(list@)[0] == i);
                        }
                        self.board.set_active(i);
                        self.board.say(copy_text("host ").concat(h), now);
                        self.overlay = Overlay::Closed;
                    }
                }
            },
        }
    }

    fn type_host(&mut self, c: &str)
        ensures
            final(self)@ == old(self)@.host_typed(c@),
            final(self)@.wf() == old(self)@.wf(),
    {
        proof {
            reveal(ShellView::host_typed);
        }
        if let Some(h) = &self.hosts_host {
            if same_text(c, "r") || same_text(c, "R") {
                let list = self.board.fallen_on(h.as_str());
                self.board.ask_retries(&list, Round::Machine);
            } else if same_text(c, "b") || same_text(c, "B") {
                let mask = self.board.host_targets(h.as_str());
                self.open_cast_to(&mask);
            }
        }
    }

    fn open_cast_to(&mut self, mask: &Vec<bool>)
        ensures
            final(self)@ == old(self)@.casting_to(mask@),
            final(self)@.wf() == old(self)@.wf(),
    {
        self.board.aim(mask);
        self.cast.query = copy_text(self.cast.last.as_str());
        self.cast.sel = 0;
        self.overlay = Overlay::Broadcast;
    }

    /// Handles a key in the list of machines.
    pub fn hosts_key(&mut self, key: &Key, now: u64)
        requires
            old(self)@.wf(),
        ensures
            final(self)@ == match key@ {
                KeyView::Character(c) => old(self)@.host_typed(c),
                KeyView::Named(NamedKey::Enter) => old(self)@.host_taken(now),
                k => old(self)@.hosts_keyed(k),
            },
            final(self)@.wf(),
    {
        proof {
            reveal(ShellView::hosts_keyed);
        }
        match key {
            Key::Character(c) => self.type_host(c.as_str()),
            Key::Named(k) => match k {
                NamedKey::Enter => self.take_host(now),
                NamedKey::Escape => {
                    if self.hosts_host.is_some() {
                        self.hosts_host = None;
                        self.hosts_sel = 0;
                    } else {
                        self.overlay = Overlay::Closed;
                    }
                },
                NamedKey::ArrowLeft => {
                    if self.hosts_host.is_some() {
                        self.hosts_host = None;
                        self.hosts_sel = 0;
                    }
                },
                NamedKey::ArrowDown => {
                    let n: usize = self.hosts_rows();
                    if n > 0 {
                        self.hosts_sel = step_down(self.hosts_sel, 1, n);
                    }
                },
                NamedKey::ArrowUp => {
                    self.hosts_sel = step_up(self.hosts_sel, 1);
                },
                NamedKey::PageDown => {
                    let n: usize = self.hosts_rows();
                    self.hosts_sel = step_down(self.hosts_sel, 10, n);
                },
                NamedKey::PageUp => {
                    self.hosts_sel = step_up(self.hosts_sel, 10);
                },
                NamedKey::ArrowRight => self.drill_in(),
                _ => {},
            },
            Key::Other => {},
        }
    }
}

/// How many of the tabs listed are alive.
pub open spec fn alive_among(tabs: Seq<TabView>, list: Seq<int>) -> nat
    decreases list.len(),
{
    if list.len() == 0 {
        0
    } else {
        alive_among(tabs, list.drop_last()) + (if tabs[list.last()].seen.alive {
            1nat
        } else {
            0
        })
    }
}

impl BoardView {
    /// With the line that was broadcast sent to the tabs listed.
    pub open spec fn cast_to(self, list: Seq<int>) -> BoardView {
        BoardView { todo: self.todo + list.map_values(|i: int| Act::Cast(i as usize)), ..self }
    }

    /// With a tab taken as a target of the broadcast, or no longer.
    pub open spec fn target_turned(self, i: int) -> BoardView {
        if 0 <= i < self.slots.len() {
            self.with_slot(i, Slot { target: !self.slots[i].target, ..self.slots[i] })
        } else {
            self
        }
    }

    /// Whether a broadcast goes to all tabs.
    pub open spec fn all_aimed(self) -> bool {
        forall|i: int| 0 <= i < self.slots.len() ==> (#[trigger] self.slots[i]).target
    }
}

impl ShellView {
    pub open spec fn with_cast(self, cast: CastView) -> ShellView {
        ShellView { cast, ..self }
    }

    /// How a broadcast to these tabs is confirmed: what a pane that is down was sent waits for it
    /// to come back.
    pub open spec fn cast_note(self, list: Seq<int>) -> Seq<char> {
        let sent = alive_among(self.board.tabs, list);
        if list.len() > sent {
            "broadcast to "@ + dec(sent) + " · "@ + dec((list.len() - sent) as nat)
                + " queued on reconnect"@
        } else {
            "broadcast to "@ + dec(sent)
        }
    }

    /// With the line sent to the targets and remembered; an empty line is not sent.
    pub open spec fn cast_sent(self, now: u64) -> ShellView {
        let c = self.cast;
        let list = set_indices(self.board.target_mask());
        let s = if c.query.len() == 0 {
            self
        } else {
            ShellView {
                cast: CastView {
                    last: c.query,
                    history: recalled(c.history, c.query, 16),
                    ..c
                },
                board: self.board.cast_to(list).says(self.cast_note(list), now).asks(
                    Act::SaveBroadcast,
                ),
                ..self
            }
        };
        s.with_cast(CastView { query: Seq::empty(), recall: None, ..s.cast }).over(Overlay::Closed)
    }

    /// With an older line recalled, or a newer one, round the ends. The newest stands first: the
    /// first step goes to it, or back from the end to the oldest.
    pub open spec fn cast_recalled(self, older: bool) -> ShellView {
        let c = self.cast;
        let n = c.history.len() as int;
        if n == 0 {
            self
        } else {
            let i = recall_to(
                n,
                if older {
                    1
                } else {
                    -1
                },
                c.recall,
            );
            self.with_cast(CastView { recall: Some(i as usize), query: c.history[i], ..c })
        }
    }

    pub open spec fn cast_row(self, sel: usize) -> ShellView {
        self.with_cast(CastView { sel, ..self.cast })
    }

    /// After a key over the line to broadcast.
    #[verifier::opaque]
    pub open spec fn cast_keyed(self, key: KeyView, m: Mods, now: u64) -> ShellView {
        let c = self.cast;
        let b = self.board;
        let n = b.tabs.len();
        match key {
            KeyView::Character(t) => if t == " "@ {
                self.on(
                    if m.shift {
                        b.aimed_all(!b.all_aimed())
                    } else {
                        b.target_turned(c.sel as int)
                    },
                ).with_cast(CastView { recall: None, ..c })
            } else {
                self.with_cast(CastView { query: c.query + t, recall: None, ..c })
            },
            KeyView::Named(k) => match k {
                NamedKey::Enter => self.cast_sent(now),
                NamedKey::ArrowDown => if m.shift {
                    self.cast_recalled(false)
                } else {
                    self.cast_row(row_down(c.sel, 1, n))
                },
                NamedKey::ArrowUp => if m.shift {
                    self.cast_recalled(true)
                } else {
                    self.cast_row(row_up(c.sel, 1))
                },
                NamedKey::Tab => if m.shift {
                    self.cast_row(row_up(c.sel, 1))
                } else {
                    self.cast_row(row_down(c.sel, 1, n))
                },
                NamedKey::PageDown => self.cast_row(row_down(c.sel, 20, n)),
                NamedKey::PageUp => self.cast_row(row_up(c.sel, 20)),
                NamedKey::Backspace => self.with_cast(
                    CastView { query: without_last(c.query), recall: None, ..c },
                ),
                NamedKey::Escape => self.with_cast(CastView { query: Seq::empty(), ..c }).over(
                    Overlay::Closed,
                ),
                _ => self,
            },
            KeyView::Other => self,
        }
    }
}

impl Board {
    fn ask_casts(&mut self, list: &Vec<usize>)
        ensures
            final(self)@ == old(self)@.cast_to(ints(list@)),
    {
        let ghost was = self@;
        let ghost want = ints(list@).map_values(|i: int| Act::Cast(i as usize));
        let mut i: usize = 0;
        proof {
            assert(was.todo + want.take(0) =~= was.todo);
        }
        while i < list.len()
            invariant
                i <= list@.len(),
                want == ints(list@).map_values(|i: int| Act::Cast(i as usize)),
                self@ == (BoardView { todo: was.todo + want.take(i as int), ..was }),
            decreases list@.len() - i,
        {
            self.ask(Act::Cast(list[i]));
            i = i + 1;
            proof {
                assert(self@.todo =~= was.todo + want.take(i as int));
            }
        }
        proof {
            assert(want.take(i as int) =~= want);
        }
    }

    fn count_alive(&self, list: &Vec<usize>) -> (r: usize)
        requires
            forall|k: int| 0 <= k < list@.len() ==> #[trigger] list@[k] < self@.tabs.len(),
        ensures
            r == alive_among(self@.tabs, ints(list@)),
            r <= list@.len(),
    {
        let mut n: usize = 0;
        let mut i: usize = 0;
        while i < list.len()
            invariant
                i <= list@.len(),
                n <= i,
                forall|k: int| 0 <= k < list@.len() ==> #[trigger] list@[k] < self@.tabs.len(),
                n == alive_among(self@.tabs, ints(list@).take(i as int)),
            decreases list@.len() - i,
        {
            proof {
                assert(ints(list@).take(i + 1).drop_last() =~= ints(list@).take(i as int));
                assert(ints(list@).take(i + 1).last() == list@[i as int]);
            }
            if self.tabs[list[i]].seen.alive {
                n = n + 1;
            }
            i = i + 1;
        }
        proof {
            assert(ints(list@).take(i as int) =~= ints(list@));
        }
        n
    }

    fn aimed_at_all(&self) -> (r: bool)
        ensures
            r == self@.all_aimed(),
    {
        let mut i: usize = 0;
        while i < self.slots.len()
            invariant
                i <= self.slots@.len(),
                forall|k: int| 0 <= k < i ==> (#[trigger] self.slots@[k]).target,
            decreases self.slots@.len() - i,
        {
            if !self.slots[i].target {
                proof {
                    assert(!self@.slots[i as int].target);
                }
                return false;
            }
            i = i + 1;
        }
        true
    }

    fn toggle_target_at(&mut self, i: usize)
        ensures
            final(self)@ == old(self)@.target_turned(i as int),
            final(self)@.wf() == old(self)@.wf(),
    {
        if i < self.slots.len() {
            let mut t = self.slots[i];
            t.target = !t.target;
            self.slots.set(i, t);
        }
    }
}

impl Shell {
    #[verifier::rlimit(40)]
    fn send_cast(&mut self, now: u64)
        requires
            old(self)@.wf(),
        ensures
            final(self)@ == old(self)@.cast_sent(now),
            final(self)@.wf(),
    {
        if !self.cast.query.as_str().is_empty() {
            let mask = self.board.targets();
            let list = indices_set(mask.as_slice());
            proof {
                lemma_set_indices(mask@);
                assert(ints(list@).len() == list@.len());
                assert forall|k: int| 0 <= k < list@.len() implies #[trigger] list@[k]
                    < self@.board.tabs.len() by {
                    assert(ints(list@)[k] == list@[k]);
                }
            }
            let sent: usize = self.board.count_alive(&list);
            let mut note = copy_text("broadcast to ");
            note.append(decimal(sent as u64).as_str());
            if list.len() > sent {
                note.append(" · ");
                note.append(decimal((list.len() - sent) as u64).as_str());
                note.append(" queued on reconnect");
            }
            self.board.ask_casts(&list);
            self.board.say(note, now);
            self.cast.last = copy_text(self.cast.query.as_str());
            prepend_capped(&mut self.cast.history, self.cast.query.as_str(), 16);
            self.board.ask(Act::SaveBroadcast);
        }
        self.cast.query = String::new();
        self.cast.recall = None;
        self.overlay = Overlay::Closed;
    }

    fn recall_broadcast(&mut self, older: bool)
        ensures
            final(self)@ == old(self)@.cast_recalled(older),
    {
        let n: usize = self.cast.history.len();
        if n > 0 {
            let delta: isize = if older {
                1
            } else {
                -1
            };
            let i: usize = recall_index(n, delta, self.cast.recall);
            self.cast.recall = Some(i);
            self.cast.query = copy_text(self.cast.history[i].as_str());
        }
    }

    fn type_cast(&mut self, c: &str, mods: &Mods, now: u64)
        requires
            old(self)@.wf(),
        ensures
            final(self)@ == old(self)@.cast_keyed(KeyView::Character(c@), *mods, now),
            final(self)@.wf(),
    {
        proof {
            reveal(ShellView::cast_keyed);
        }
        if same_text(c, " ") {
            if mods.shift {
                let all = self.board.aimed_at_all();
                self.board.aim_all(!all);
            } else {
                let i: usize = self.cast.sel;
                self.board.toggle_target_at(i);
            }
        } else {
            self.cast.query.append(c);
        }
        self.cast.recall = None;
    }

    /// Handles a key over the line to broadcast.
    pub fn cast_key(&mut self, key: &Key, mods: &Mods, now: u64)
        requires
            old(self)@.wf(),
        ensures
            final(self)@ == old(self)@.cast_keyed(key@, *mods, now),
            final(self)@.wf(),
    {
        proof {
            reveal(ShellView::cast_keyed);
        }
        let n: usize = self.board.tabs.len();
        match key {
            Key::Character(c) => self.type_cast(c.as_str(), mods, now),
            Key::Named(k) => match k {
                NamedKey::Enter => self.send_cast(now),
                NamedKey::ArrowDown => {
                    if mods.shift {
                        self.recall_broadcast(false);
                    } else {
                        self.cast.sel = step_down(self.cast.sel, 1, n);
                    }
                },
                NamedKey::ArrowUp => {
                    if mods.shift {
                        self.recall_broadcast(true);
                    } else {
                        self.cast.sel = step_up(self.cast.sel, 1);
                    }
                },
                NamedKey::Tab => {
                    self.cast.sel =
                    if mods.shift {
                        step_up(self.cast.sel, 1)
                    } else {
                        step_down(self.cast.sel, 1, n)
                    };
                },
                NamedKey::PageDown => {
                    self.cast.sel = step_down(self.cast.sel, 20, n);
                },
                NamedKey::PageUp => {
                    self.cast.sel = step_up(self.cast.sel, 20);
                },
                NamedKey::Backspace => {
                    self.cast.query = drop_last_char(self.cast.query.as_str());
                    self.cast.recall = None;
                },
                NamedKey::Escape => {
                    self.cast.query = String::new();
                    self.overlay = Overlay::Closed;
                },
                _ => {},
            },
            Key::Other => {},
        }
    }
}

/// A broadcast reaches exactly the tabs that are its targets.
pub proof fn law_broadcast_reaches_targets(b: BoardView, i: int)
    requires
        0 <= i < b.slots.len(),
    ensures
        set_indices(b.target_mask()).contains(i) <==> b.slots[i].target,
{
    lemma_set_indices(b.target_mask());
    if set_indices(b.target_mask()).contains(i) {
        let k = set_indices(b.target_mask()).index_of(i);
        assert(set_indices(b.target_mask())[k] == i);
    } else {
        assert(!b.target_mask()[i]);
    }
}

/// Recall starts with the line that was broadcast last, or going the other way with the oldest.
/// From there a step back goes to the next older line, and a step forward undoes it.
pub proof fn law_recall_starts_with_the_newest(s: ShellView)
    requires
        0 < s.cast.history.len() <= usize::MAX,
        s.cast.recall matches Some(i) ==> i < s.cast.history.len(),
    ensures
        s.cast.recall is None ==> {
            &&& s.cast_recalled(true).cast.query == s.cast.history[0]
            &&& s.cast_recalled(false).cast.query == s.cast.history.last()
        },
        s.cast.recall matches Some(i) ==> {
            &&& i + 1 < s.cast.history.len() ==> s.cast_recalled(true).cast.query
                == s.cast.history[i + 1]
            &&& s.cast_recalled(true).cast_recalled(false).cast.query == s.cast.history[i as int]
        },
{
    let n = s.cast.history.len() as int;
    if let Some(i) = s.cast.recall {
        if i + 1 < n {
            vstd::arithmetic::div_mod::lemma_small_mod((i + 1) as nat, n as nat);
            vstd::arithmetic::div_mod::lemma_small_mod(i as nat, n as nat);
        } else {
            vstd::arithmetic::div_mod::lemma_mod_self_0(n);
            vstd::arithmetic::div_mod::lemma_mod_add_multiples_vanish(-1, n);
            vstd::arithmetic::div_mod::lemma_small_mod((n - 1) as nat, n as nat);
        }
    }
}

/// Opening a line to broadcast takes all tabs as targets, whatever was left out before.
pub proof fn law_broadcast_opens_to_all(s: ShellView)
    ensures
        s.casting().board.all_aimed(),
{
}

impl ShellView {
    pub open spec fn with_peek(self, peek: PeekView) -> ShellView {
        ShellView { peek, ..self }
    }

    /// With the tabs that the triage query leaves, and the selection and the view among them.
    pub open spec fn peek_refreshed(self, now: u64) -> ShellView {
        let p = self.peek;
        let shown = set_indices(self.board.triage_mask(p.query, now));
        let n = shown.len();
        self.with_peek(
            PeekView {
                shown,
                sel: kept(p.sel, n),
                scroll: if p.scroll < n {
                    p.scroll
                } else if n < 10 {
                    0
                } else {
                    (n - 10) as usize
                },
                ..p
            },
        )
    }

    /// The tab of the selected row.
    pub open spec fn peek_tab(self) -> int {
        let p = self.peek;
        p.shown[at_most(p.sel, last_of(p.shown.len())) as int]
    }

    /// With a row selected further down, and the view following it.
    pub open spec fn peek_down(self, k: int) -> ShellView {
        let p = self.peek;
        let n = p.shown.len();
        let sel = if n > 0 {
            row_down(p.sel, k, n)
        } else {
            p.sel
        };
        self.with_peek(
            PeekView {
                sel,
                scroll: if sel >= p.scroll + 10 {
                    (sel - 9) as usize
                } else {
                    p.scroll
                },
                ..p
            },
        )
    }

    /// With a row selected further up, and the view following it.
    pub open spec fn peek_up(self, k: int) -> ShellView {
        let p = self.peek;
        let sel = if p.shown.len() > 0 {
            row_up(p.sel, k)
        } else {
            p.sel
        };
        self.with_peek(
            PeekView {
                sel,
                scroll: if sel < p.scroll {
                    sel
                } else {
                    p.scroll
                },
                ..p
            },
        )
    }

    /// With the next row selected whose pane is down.
    pub open spec fn peek_at_down(self) -> ShellView {
        let p = self.peek;
        let downs = p.shown.map_values(|i: int| self.board.tabs[i].down());
        match next_set(downs, p.sel as int, 1) {
            Some(i) => self.with_peek(
                PeekView {
                    sel: i as usize,
                    scroll: if i < 9 {
                        0
                    } else {
                        (i - 9) as usize
                    },
                    ..p
                },
            ),
            None => self,
        }
    }

    /// With the selected row's tab closed.
    pub open spec fn peek_closed(self, now: u64) -> ShellView {
        let s = self.on(self.board.closed(self.peek_tab(), now));
        if s.board.tabs.len() == 0 {
            s.over(Overlay::Closed)
        } else {
            let t = s.peek_refreshed(now);
            let n = t.peek.shown.len();
            t.with_peek(
                PeekView {
                    scroll: at_most(
                        t.peek.scroll,
                        if n < 10 {
                            0
                        } else {
                            (n - 10) as usize
                        },
                    ),
                    ..t.peek
                },
            )
        }
    }

    /// After a text typed over the triage list.
    pub open spec fn peek_typed(self, c: Seq<char>, now: u64) -> ShellView {
        let p = self.peek;
        let some = p.shown.len() > 0;
        if p.filtering {
            if c == "/"@ {
                self.with_peek(PeekView { filtering: false, ..p })
            } else {
                self.with_peek(PeekView { query: p.query + c, ..p })
            }
        } else if c == "/"@ {
            self.with_peek(
                PeekView { query: Seq::empty(), filtering: true, sel: 0, scroll: 0, ..p },
            )
        } else if c == "n"@ || c == "N"@ {
            self.peek_at_down()
        } else if !some {
            self
        } else if c == "r"@ || c == "R"@ {
            self.on(self.board.row_retried(self.peek_tab()))
        } else if c == "m"@ || c == "M"@ {
            self.on(self.board.mute_turned(self.peek_tab()).asks(Act::SaveMuted))
        } else if c == "p"@ || c == "P"@ {
            self.on(self.board.pin_turned(self.peek_tab(), now))
        } else if c == "x"@ {
            self.peek_closed(now)
        } else {
            self
        }
    }

    /// After a named key over the triage list.
    pub open spec fn peek_pressed(self, k: NamedKey, m: Mods) -> ShellView {
        let p = self.peek;
        match k {
            NamedKey::Backspace => if p.filtering {
                self.with_peek(
                    PeekView {
                        query: without_last(p.query),
                        filtering: without_last(p.query).len() > 0,
                        ..p
                    },
                )
            } else {
                self
            },
            NamedKey::ArrowDown => if m.shift {
                self
            } else {
                self.peek_down(1)
            },
            NamedKey::Tab => if m.shift {
                self.peek_up(1)
            } else {
                self.peek_down(1)
            },
            NamedKey::ArrowUp => self.peek_up(1),
            NamedKey::PageDown => self.peek_down(10),
            NamedKey::PageUp => self.peek_up(10),
            NamedKey::Enter => if p.shown.len() > 0 {
                self.on(self.board.placed(self.peek_tab())).over(Overlay::Closed)
            } else {
                self
            },
            NamedKey::Escape => if p.filtering {
                self.with_peek(PeekView { query: Seq::empty(), filtering: false, ..p })
            } else {
                self.over(Overlay::Closed)
            },
            _ => self,
        }
    }

    /// After a key over the triage list, which is filtered anew first.
    #[verifier::opaque]
    pub open spec fn peek_keyed(self, key: KeyView, m: Mods, now: u64) -> ShellView {
        let s = self.peek_refreshed(now);
        match key {
            KeyView::Character(c) => s.peek_typed(c, now),
            KeyView::Named(k) => s.peek_pressed(k, m),
            KeyView::Other => s,
        }
    }

    /// Whether the rows of the triage list are open tabs.
    pub open spec fn peek_listed(self) -> bool {
        forall|k: int|
            0 <= k < self.peek.shown.len() ==> 0 <= #[trigger] self.peek.shown[k]
                < self.board.tabs.len()
    }
}

impl Shell {
    /// Filters the triage list by the query, and keeps the selection and the view among what is
    /// left.
    pub fn peek_refresh_filter(&mut self, now: u64)
        requires
            old(self)@.wf(),
        ensures
            final(self)@ == old(self)@.peek_refreshed(now),
            final(self)@.wf(),
            final(self)@.peek_listed(),
    {
        let shown = self.board.triage_shown(self.peek.query.as_str(), now);
        let n: usize = shown.len();
        proof {
            assert(ints(shown@).len() == n);
            lemma_set_indices(self@.board.triage_mask(self@.peek.query, now));
        }
        self.peek.shown = shown;
        self.peek.sel = keep_within(self.peek.sel, n);
        if self.peek.scroll >= n {
            self.peek.scroll =
            if n < 10 {
                0
            } else {
                n - 10
            };
        }
    }

    fn selected_tab(&self) -> (r: usize)
        requires
            self@.peek.shown.len() > 0,
            self@.peek_listed(),
        ensures
            r == self@.peek_tab(),
            r < self@.board.tabs.len(),
    {
        let n: usize = self.peek.shown.len();
        let k: usize = if self.peek.sel <= n - 1 {
            self.peek.sel
        } else {
            n - 1
        };
        proof {
            assert(self@.peek.shown[k as int] == self.peek.shown@[k as int]);
        }
        self.peek.shown[k]
    }

    fn peek_step_down(&mut self, k: usize)
        ensures
            final(self)@ == old(self)@.peek_down(k as int),
    {
        let n: usize = self.peek.shown.len();
        if n > 0 {
            self.peek.sel = step_down(self.peek.sel, k, n);
        }
        let sel: usize = self.peek.sel;
        if sel >= 10 && sel - 10 >= self.peek.scroll {
            self.peek.scroll = sel - 9;
        }
    }

    fn peek_step_up(&mut self, k: usize)
        ensures
            final(self)@ == old(self)@.peek_up(k as int),
    {
        if self.peek.shown.len() > 0 {
            self.peek.sel = step_up(self.peek.sel, k);
        }
        if self.peek.sel < self.peek.scroll {
            self.peek.scroll = self.peek.sel;
        }
    }

    fn peek_next_down(&mut self)
        requires
            old(self)@.peek_listed(),
        ensures
            final(self)@ == old(self)@.peek_at_down(),
    {
        let ghost want = self@.peek.shown.map_values(|i: int| self@.board.tabs[i].down());
        let n: usize = self.peek.shown.len();
        let mut mask: Vec<bool> = Vec::new();
        let mut i: usize = 0;
        while i < n
            invariant
                i <= n,
                n == self.peek.shown@.len(),
                self@.peek_listed(),
                want == self@.peek.shown.map_values(|i: int| self@.board.tabs[i].down()),
                mask@ == want.take(i as int),
            decreases n - i,
        {
            proof {
                assert(self@.peek.shown[i as int] == self.peek.shown@[i as int]);
            }
            let row: usize = self.peek.shown[i];
            mask.push(self.board.tabs[row].is_down());
            proof {
                assert(self@.board.tabs[row as int] == self.board.tabs@[row as int]@);
                assert(mask@ =~= want.take(i + 1));
            }
            i = i + 1;
        }
        proof {
            assert(want.take(n as int) =~= want);
        }
        if let Some(k) = find_next_set(mask.as_slice(), self.peek.sel) {
            self.peek.sel = k;
            self.peek.scroll =
            if k < 9 {
                0
            } else {
                k - 9
            };
        }
    }

    fn peek_close(&mut self, now: u64)
        requires
            old(self)@.wf(),
            old(self)@.peek.shown.len() > 0,
            old(self)@.peek_listed(),
        ensures
            final(self)@ == old(self)@.peek_closed(now),
            final(self)@.wf(),
    {
        let i: usize = self.selected_tab();
        self.board.close_tab_at(i, now);
        if self.board.tabs.len() == 0 {
            self.overlay = Overlay::Closed;
        } else {
            self.peek_refresh_filter(now);
            let n: usize = self.peek.shown.len();
            let most: usize = if n < 10 {
                0
            } else {
                n - 10
            };
            if self.peek.scroll > most {
                self.peek.scroll = most;
            }
        }
    }

    fn type_peek(&mut self, c: &str, now: u64)
        requires
            old(self)@.wf(),
            old(self)@.peek_listed(),
        ensures
            final(self)@ == old(self)@.peek_typed(c@, now),
            final(self)@.wf(),
    {
        if self.peek.filtering {
            if same_text(c, "/") {
                self.peek.filtering = false;
            } else {
                self.peek.query.append(c);
            }
        } else if same_text(c, "/") {
            self.peek.query = String::new();
            self.peek.filtering = true;
            self.peek.sel = 0;
            self.peek.scroll = 0;
        } else if same_text(c, "n") || same_text(c, "N") {
            self.peek_next_down();
        } else if self.peek.shown.len() > 0 {
            let i: usize = self.selected_tab();
            if same_text(c, "r") || same_text(c, "R") {
                self.board.reconnect_row(i);
            } else if same_text(c, "m") || same_text(c, "M") {
                self.board.toggle_mute_at(i);
                self.board.ask(Act::SaveMuted);
            } else if same_text(c, "p") || same_text(c, "P") {
                self.board.toggle_pin_at(i, now);
            } else if same_text(c, "x") {
                self.peek_close(now);
            }
        }
    }

    fn press_peek(&mut self, k: NamedKey, mods: &Mods)
        requires
            old(self)@.wf(),
            old(self)@.peek_listed(),
        ensures
            final(self)@ == old(self)@.peek_pressed(k, *mods),
            final(self)@.wf(),
    {
        match k {
            NamedKey::Backspace => {
                if self.peek.filtering {
                    self.peek.query = drop_last_char(self.peek.query.as_str());
                    if self.peek.query.as_str().is_empty() {
                        self.peek.filtering = false;
                    }
                }
            },
            NamedKey::ArrowDown => {
                if !mods.shift {
                    self.peek_step_down(1);
                }
            },
            NamedKey::Tab => {
                if mods.shift {
                    self.peek_step_up(1);
                } else {
                    self.peek_step_down(1);
                }
            },
            NamedKey::ArrowUp => self.peek_step_up(1),
            NamedKey::PageDown => self.peek_step_down(10),
            NamedKey::PageUp => self.peek_step_up(10),
            NamedKey::Enter => {
                if self.peek.shown.len() > 0 {
                    let i: usize = self.selected_tab();
                    self.board.place(i);
                    self.overlay = Overlay::Closed;
                }
            },
            NamedKey::Escape => {
                if self.peek.filtering {
                    self.peek.query = String::new();
                    self.peek.filtering = false;
                } else {
                    self.overlay = Overlay::Closed;
                }
            },
            _ => {},
        }
    }

    /// Handles a key over the triage list.
    pub fn peek_key(&mut self, key: &Key, mods: &Mods, now: u64)
        requires
            old(self)@.wf(),
        ensures
            final(self)@ == old(self)@.peek_keyed(key@, *mods, now),
            final(self)@.wf(),
    {
        proof {
            reveal(ShellView::peek_keyed);
        }
        self.peek_refresh_filter(now);
        match key {
            Key::Character(c) => self.type_peek(c.as_str(), now),
            Key::Named(k) => self.press_peek(*k, mods),
            Key::Other => {},
        }
    }
}

impl ShellView {
    pub open spec fn at_tile(self, sel: usize) -> ShellView {
        ShellView { grid_sel: sel, ..self }
    }

    /// With a line to broadcast to the marked sessions open, or to all where none is marked. The
    /// marks are used up.
    pub open spec fn casting_marked(self) -> ShellView {
        let b = self.board;
        if set_indices(b.mark_mask()).len() == 0 {
            self.on(b.unmarked()).casting()
        } else {
            self.on(b.unmarked()).casting_to(b.mark_mask())
        }
    }

    /// With the next tile in focus that needs a look, or the one before: a pane that is down, else
    /// one that is busy.
    pub open spec fn at_trouble(self, forward: bool, now: u64) -> ShellView {
        let b = self.board;
        if b.tabs.len() == 0 {
            self
        } else {
            let found = if forward {
                crate::triage::either(
                    next_set(b.down_mask(), self.grid_sel as int, 1),
                    next_set(b.busy_mask(now), self.grid_sel as int, 1),
                )
            } else {
                crate::triage::either(
                    prev_set(b.down_mask(), self.grid_sel as int, 1),
                    prev_set(b.busy_mask(now), self.grid_sel as int, 1),
                )
            };
            let s = self.on(b.pulsed(now));
            match found {
                Some(i) => s.at_tile(i as usize),
                None => s.says("fleet healthy — no down or busy panes"@, now),
            }
        }
    }

    /// With the tile's session muted, or no longer, and a message.
    pub open spec fn tile_muted(self, now: u64) -> ShellView {
        let b = self.board;
        let i = self.grid_sel as int;
        if i < b.slots.len() {
            self.on(
                b.mute_turned(i).asks(Act::SaveMuted).says(
                    identity_at(b.tabs, i) + if b.slots[i].muted {
                        " unmuted"@
                    } else {
                        " muted"@
                    },
                    now,
                ),
            )
        } else {
            self
        }
    }

    /// With the tile's session closed, and the focus on a tile that is left.
    pub open spec fn tile_closed(self, now: u64) -> ShellView {
        let s = self.on(self.board.closed(self.grid_sel as int, now));
        let n = s.board.tabs.len();
        if n == 0 {
            s.over(Overlay::Closed)
        } else {
            s.at_tile(at_most(s.grid_sel, last_of(n)))
        }
    }

    /// With the marked sessions closed.
    pub open spec fn tiles_closed(self, now: u64) -> ShellView {
        let s = self.on(self.board.marked_closed(now));
        if set_indices(self.board.mark_mask()).len() > 0 && s.board.tabs.len() == 0 {
            s.over(Overlay::Closed)
        } else {
            s
        }
    }

    /// After a character typed over the fleet grid.
    pub open spec fn grid_typed(self, c: char, now: u64) -> ShellView {
        let b = self.board;
        if '0' <= c <= '9' {
            let i = c as int - '1' as int;
            if 0 <= i < b.tabs.len() {
                self.at_tile(i as usize)
            } else {
                self
            }
        } else if c == ' ' {
            self.on(b.mark_turned(self.grid_sel as int))
        } else if c == 'b' {
            self.casting_marked()
        } else if c == 'n' {
            self.at_trouble(true, now)
        } else if c == 'N' {
            self.at_trouble(false, now)
        } else if c == 'r' {
            self.on(b.row_retried(self.grid_sel as int))
        } else if c == 'R' {
            self.on(b.marked_retried(now))
        } else if c == 'm' {
            self.tile_muted(now)
        } else if c == 'p' {
            self.on(b.pin_turned(self.grid_sel as int, now))
        } else if c == 'C' {
            self.on(b.marked_halted(now))
        } else if c == 'x' {
            self.tile_closed(now)
        } else if c == 'X' {
            self.tiles_closed(now)
        } else {
            self
        }
    }

    /// How many columns the tiles take.
    pub open spec fn tile_cols(self) -> int {
        self.metrics.tiles(self.board.focus, self.board.tabs.len() as int).cols as int
    }

    /// After a named key over the fleet grid.
    pub open spec fn grid_pressed(self, k: NamedKey, m: Mods) -> ShellView {
        let b = self.board;
        let n = b.tabs.len();
        let sel = self.grid_sel;
        match k {
            NamedKey::ArrowDown => if m.shift {
                self
            } else {
                self.at_tile(row_down(sel, 1, n))
            },
            NamedKey::Tab => if m.shift {
                self.at_tile(row_up(sel, 1))
            } else {
                self.at_tile(row_down(sel, 1, n))
            },
            NamedKey::ArrowUp => self.at_tile(row_up(sel, 1)),
            NamedKey::PageDown => self.at_tile(row_down(sel, self.tile_cols(), n)),
            NamedKey::PageUp => self.at_tile(row_up(sel, self.tile_cols())),
            NamedKey::Enter => if n > 0 {
                self.on(b.placed(sel as int).unmarked()).over(Overlay::Closed)
            } else {
                self.on(b.unmarked())
            },
            NamedKey::Space => self.on(b.mark_turned(sel as int)),
            NamedKey::Escape => self.on(b.unmarked()).over(Overlay::Closed),
            _ => self,
        }
    }

    /// After a key over the fleet grid.
    #[verifier::opaque]
    pub open spec fn grid_keyed(self, key: KeyView, m: Mods, now: u64) -> ShellView {
        match key {
            KeyView::Character(c) => if c.len() > 0 {
                self.grid_typed(c[0], now)
            } else {
                self
            },
            KeyView::Named(k) => self.grid_pressed(k, m),
            KeyView::Other => self,
        }
    }
}

impl Shell {
    fn cast_marked(&mut self)
        ensures
            final(self)@ == old(self)@.casting_marked(),
            final(self)@.wf() == old(self)@.wf(),
    {
        let marks = self.board.marks();
        let list = indices_set(marks.as_slice());
        proof {
            assert(ints(list@).len() == list@.len());
        }
        self.board.clear_marks();
        if list.len() == 0 {
            self.open_broadcast();
        } else {
            self.open_cast_to(&marks);
        }
    }

    fn go_to_trouble(&mut self, forward: bool, now: u64)
        requires
            old(self)@.wf(),
        ensures
            final(self)@ == old(self)@.at_trouble(forward, now),
            final(self)@.wf(),
    {
        if self.board.tabs.len() > 0 {
            let down = self.board.downs();
            let busy = self.board.pulse(now);
            proof {
                assert(busy@.take(down@.len() as int) =~= busy@);
            }
            let found = if forward {
                next_trouble_index(down.as_slice(), busy.as_slice(), self.grid_sel)
            } else {
                prev_trouble_index(down.as_slice(), busy.as_slice(), self.grid_sel)
            };
            match found {
                Some(i) => {
                    self.grid_sel = i;
                },
                None => self.board.say(copy_text("fleet healthy — no down or busy panes"), now),
            }
        }
    }

    fn mute_tile(&mut self, now: u64)
        requires
            old(self)@.wf(),
        ensures
            final(self)@ == old(self)@.tile_muted(now),
            final(self)@.wf(),
    {
        let i: usize = self.grid_sel;
        if i < self.board.slots.len() {
            let state = if self.board.slots[i].muted {
                " unmuted"
            } else {
                " muted"
            };
            let s = tab_identity(&self.board.tabs, i).concat(state);
            self.board.toggle_mute_at(i);
            self.board.ask(Act::SaveMuted);
            self.board.say(s, now);
        }
    }

    fn close_tile(&mut self, now: u64)
        requires
            old(self)@.wf(),
        ensures
            final(self)@ == old(self)@.tile_closed(now),
            final(self)@.wf(),
    {
        let i: usize = self.grid_sel;
        self.board.close_tab_at(i, now);
        let n: usize = self.board.tabs.len();
        if n == 0 {
            self.overlay = Overlay::Closed;
        } else if self.grid_sel > n - 1 {
            self.grid_sel = n - 1;
        }
    }

    fn close_tiles(&mut self, now: u64)
        requires
            old(self)@.wf(),
        ensures
            final(self)@ == old(self)@.tiles_closed(now),
            final(self)@.wf(),
    {
        let marks = self.board.marks();
        let list = indices_set(marks.as_slice());
        proof {
            assert(ints(list@).len() == list@.len());
        }
        self.board.close_marked(now);
        if list.len() > 0 && self.board.tabs.len() == 0 {
            self.overlay = Overlay::Closed;
        }
    }

    fn type_grid(&mut self, c: char, now: u64)
        requires
            old(self)@.wf(),
        ensures
            final(self)@ == old(self)@.grid_typed(c, now),
            final(self)@.wf(),
    {
        let sel: usize = self.grid_sel;
        if '0' <= c && c <= '9' {
            let d: u32 = c as u32 - 48;
            if d >= 1 {
                let i: usize = (d - 1) as usize;
                if i < self.board.tabs.len() {
                    self.grid_sel = i;
                }
            }
        } else if c == ' ' {
            self.board.toggle_mark_at(sel);
        } else if c == 'b' {
            self.cast_marked();
        } else if c == 'n' {
            self.go_to_trouble(true, now);
        } else if c == 'N' {
            self.go_to_trouble(false, now);
        } else if c == 'r' {
            self.board.reconnect_row(sel);
        } else if c == 'R' {
            self.board.reconnect_marked(now);
        } else if c == 'm' {
            self.mute_tile(now);
        } else if c == 'p' {
            self.board.toggle_pin_at(sel, now);
        } else if c == 'C' {
            self.board.interrupt_marked(now);
        } else if c == 'x' {
            self.close_tile(now);
        } else if c == 'X' {
            self.close_tiles(now);
        }
    }

    fn press_grid(&mut self, k: NamedKey, mods: &Mods)
        requires
            old(self)@.wf(),
        ensures
            final(self)@ == old(self)@.grid_pressed(k, *mods),
            final(self)@.wf(),
    {
        let n: usize = self.board.tabs.len();
        let sel: usize = self.grid_sel;
        match k {
            NamedKey::ArrowDown => {
                if !mods.shift {
                    self.grid_sel = step_down(sel, 1, n);
                }
            },
            NamedKey::Tab => {
                self.grid_sel =
                if mods.shift {
                    step_up(sel, 1)
                } else {
                    step_down(sel, 1, n)
                };
            },
            NamedKey::ArrowUp => {
                self.grid_sel = step_up(sel, 1);
            },
            NamedKey::PageDown => {
                let cols: usize = self.metrics.fleet_grid_geom(self.board.focus, n).cols;
                self.grid_sel = step_down(sel, cols, n);
            },
            NamedKey::PageUp => {
                let cols: usize = self.metrics.fleet_grid_geom(self.board.focus, n).cols;
                self.grid_sel = step_up(sel, cols);
            },
            NamedKey::Enter => {
                if n > 0 {
                    self.board.place(sel);
                    self.overlay = Overlay::Closed;
                }
                self.board.clear_marks();
            },
            NamedKey::Space => self.board.toggle_mark_at(sel),
            NamedKey::Escape => {
                self.overlay = Overlay::Closed;
                self.board.clear_marks();
            },
            _ => {},
        }
    }

    /// Handles a key over the fleet grid.
    pub fn grid_key(&mut self, key: &Key, mods: &Mods, now: u64)
        requires
            old(self)@.wf(),
        ensures
            final(self)@ == old(self)@.grid_keyed(key@, *mods, now),
            final(self)@.wf(),
    {
        proof {
            reveal(ShellView::grid_keyed);
        }
        match key {
            Key::Character(c) => {
                let v = chars_of(c.as_str());
                if v.len() > 0 {
                    self.type_grid(v[0], now);
                }
            },
            Key::Named(k) => self.press_grid(*k, mods),
            Key::Other => {},
        }
    }
}

/// Leaving the fleet grid, by diving in or by closing it, drops all marks, so that none can take
/// part in a later sweep.
pub proof fn law_marks_do_not_outlive_the_grid(s: ShellView, m: Mods, i: int)
    requires
        0 <= i < s.board.slots.len(),
    ensures
        !s.grid_pressed(NamedKey::Escape, m).board.slots[i].mark,
        !s.grid_pressed(NamedKey::Enter, m).board.slots[i].mark,
{
}

} // verus!
