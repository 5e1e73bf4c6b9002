//! Announcing what happens in the background: events are gathered and told once for each kind.

use vstd::prelude::*;

use crate::machines::{group_notifications, kinds_of, tabs_of};
use crate::seqs::{firsts, lemma_firsts, listed};
use crate::tabs::{fire, labels_at, notice_text, tab_views, Notice, Tab, TabView};
use crate::text::copy_text;
use crate::words::labels_text;

verus! {

/// A kind of event.
#[derive(Clone, Copy, Debug, PartialEq, Eq, Structural)]
pub enum Kind {
    Bell,
    Recover,
    Down,
    Busy,
}

impl Kind {
    pub open spec fn text(self) -> Seq<char> {
        match self {
            Kind::Bell => "bell"@,
            Kind::Recover => "recover"@,
            Kind::Down => "down"@,
            Kind::Busy => "busy"@,
        }
    }

    /// The name of a kind of event.
    pub fn name(self) -> (r: &'static str)
        ensures
            r@ == self.text(),
    {
        match self {
            Kind::Bell => "bell",
            Kind::Recover => "recover",
            Kind::Down => "down",
            Kind::Busy => "busy",
        }
    }
}

/// The kinds of the events, by name.
pub open spec fn event_names(events: Seq<(Kind, usize)>) -> Seq<Seq<char>> {
    events.map_values(|e: (Kind, usize)| e.0.text())
}

/// The tabs that raised a kind of event, in order.
pub open spec fn raised_by(events: Seq<(Kind, usize)>, name: Seq<char>) -> Seq<usize>
    decreases events.len(),
{
    if events.len() == 0 {
        Seq::empty()
    } else if events.last().0.text() == name {
        raised_by(events.drop_last(), name).push(events.last().1)
    } else {
        raised_by(events.drop_last(), name)
    }
}

/// What is told of the events of one kind.
pub open spec fn told(tabs: Seq<TabView>, events: Seq<(Kind, usize)>, name: Seq<char>) -> Option<
    (Seq<char>, Seq<char>),
> {
    let labels = labels_at(tabs, raised_by(events, name));
    if labels.len() == 0 {
        None
    } else {
        notice_text(name, labels.len(), labels_text(labels))
    }
}

/// What is told of the events of the kinds listed.
pub open spec fn told_all(
    tabs: Seq<TabView>,
    events: Seq<(Kind, usize)>,
    names: Seq<Seq<char>>,
) -> Seq<(Seq<char>, Seq<char>)>
    decreases names.len(),
{
    if names.len() == 0 {
        Seq::empty()
    } else {
        let front = told_all(tabs, events, names.drop_last());
        match told(tabs, events, names.last()) {
            Some(n) => front.push(n),
            None => front,
        }
    }
}

/// The announcements of a frame: one for each kind of event, in the order the kinds first came.
pub open spec fn announced(tabs: Seq<TabView>, events: Seq<(Kind, usize)>) -> Seq<
    (Seq<char>, Seq<char>),
> {
    told_all(tabs, events, firsts(event_names(events)))
}

/// The announcements as plain data.
pub open spec fn notice_views(v: Seq<Notice>) -> Seq<(Seq<char>, Seq<char>)> {
    v.map_values(|n: Notice| (n.title@, n.body@))
}

proof fn lemma_raised(pending: Seq<(String, usize)>, events: Seq<(Kind, usize)>, name: Seq<char>)
    requires
        pending.len() == events.len(),
        forall|i: int|
            #![trigger pending[i]]
            #![trigger events[i]]
            0 <= i < events.len() ==> pending[i].0@ == events[i].0.text() && pending[i].1
                == events[i].1,
    ensures
        tabs_of(pending, name) == raised_by(events, name),
    decreases events.len(),
{
    if events.len() > 0 {
        assert forall|i: int| 0 <= i < events.drop_last().len() implies #[trigger] pending.drop_last()[i].0@
            == events.drop_last()[i].0.text() && pending.drop_last()[i].1
            == events.drop_last()[i].1 by {
            assert(pending[i].0@ == events[i].0.text());
        }
        lemma_raised(pending.drop_last(), events.drop_last(), name);
        assert(pending[events.len() - 1].0@ == events[events.len() - 1].0.text());
    }
}

/// Merges the events of a frame into one announcement for each kind, naming every tab that raised
/// it.
pub fn announce(tabs: &Vec<Tab>, events: &Vec<(Kind, usize)>) -> (r: Vec<Notice>)
    ensures
        notice_views(r@) == announced(tab_views(tabs@), events@),
{
    let mut pending: Vec<(String, usize)> = Vec::new();
    let mut i: usize = 0;
    while i < events.len()
        invariant
            i <= events@.len(),
            pending@.len() == i,
            forall|k: int|
                #![trigger pending@[k]]
                #![trigger events@[k]]
                0 <= k < i ==> pending@[k].0@ == events@[k].0.text() && pending@[k].1
                    == events@[k].1,
        decreases events@.len() - i,
    {
        pending.push((copy_text(events[i].0.name()), events[i].1));
        i = i + 1;
    }
    let ghost names = firsts(event_names(events@));
    proof {
        assert(kinds_of(pending@) =~= event_names(events@));
    }
    let batches = group_notifications(pending.as_slice());
    let mut out: Vec<Notice> = Vec::new();
    let mut j: usize = 0;
    proof {
        assert(notice_views(out@) =~= Seq::empty());
    }
    while j < batches.len()
        invariant
            j <= batches@.len(),
            names == firsts(event_names(events@)),
            kinds_of(pending@) == event_names(events@),
            batches@.len() == names.len(),
            forall|k: int|
                #![trigger batches@[k]]
                0 <= k < batches@.len() ==> batches@[k].0@ == names[k] && batches@[k].1@ == tabs_of(
                    pending@,
                    batches@[k].0@,
                ),
            pending@.len() == events@.len(),
            forall|k: int|
                #![trigger pending@[k]]
                #![trigger events@[k]]
                0 <= k < events@.len() ==> pending@[k].0@ == events@[k].0.text() && pending@[k].1
                    == events@[k].1,
            notice_views(out@) == told_all(tab_views(tabs@), events@, names.take(j as int)),
        decreases batches@.len() - j,
    {
        let b = &batches[j];
        proof {
            lemma_raised(pending@, events@, b.0@);
            assert(names.take(j + 1).drop_last() =~= names.take(j as int));
            assert(names.take(j + 1).last() == b.0@);
        }
        if let Some(n) = fire(b.0.as_str(), tabs, &b.1) {
            let ghost had = notice_views(out@);
            let ghost t = (n.title@, n.body@);
            out.push(n);
            proof {
                assert(notice_views(out@) =~= had.push(t));
            }
        }
        j = j + 1;
    }
    proof {
        assert(names.take(j as int) =~= names);
    }
    out
}

proof fn lemma_told_once(
    tabs: Seq<TabView>,
    events: Seq<(Kind, usize)>,
    names: Seq<Seq<char>>,
)
    ensures
        told_all(tabs, events, names).len() <= names.len(),
    decreases names.len(),
{
    if names.len() > 0 {
        lemma_told_once(tabs, events, names.drop_last());
    }
}

/// However many tabs raise events at once, they are told in at most one announcement for each of
/// the four kinds.
pub proof fn law_one_notice_for_each_kind(tabs: Seq<TabView>, events: Seq<(Kind, usize)>)
    ensures
        announced(tabs, events).len() <= firsts(event_names(events)).len() <= 4,
{
    let all = event_names(events);
    let names = firsts(all);
    lemma_told_once(tabs, events, names);
    lemma_firsts(all);
    assert forall|i: int| 0 <= i < names.len() implies #[trigger] names[i] == "bell"@ || names[i]
        == "recover"@ || names[i] == "down"@ || names[i] == "busy"@ by {
        assert(listed(all, names[i]));
        let j = choose|j: int| 0 <= j < all.len() && all[j] == names[i];
        assert(all[j] == events[j].0.text());
    }
    if names.len() > 4 {
        assert(names[0] != names[1] && names[0] != names[2] && names[0] != names[3] && names[0]
            != names[4]);
        assert(names[1] != names[2] && names[1] != names[3] && names[1] != names[4]);
        assert(names[2] != names[3] && names[2] != names[4] && names[3] != names[4]);
    }
}

} // verus!
