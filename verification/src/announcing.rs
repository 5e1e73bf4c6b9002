//! Laws of what is announced and said: of the events of a pass, and of what the commands did.

use vstd::prelude::*;

use crate::activity::{news, stepped, News, Seen, Slot};
use crate::board::{Act, BoardView, FlashView};
use crate::moves::{counted, events_in, events_of};
use crate::notify::{announced, Kind};
use crate::seqs::{lemma_set_indices, set_indices};
use crate::text::{dec, trimmed};
use crate::triage::next_set;

verus! {

/// Whether a tab asks to announce an event of a kind.
pub open spec fn asks_for(n: News, kind: Kind) -> bool {
    match kind {
        Kind::Bell => n.bell,
        Kind::Recover => n.recovered,
        Kind::Down => n.down,
        Kind::Busy => n.busy,
    }
}

proof fn lemma_events_of(kind: Kind, mask: Seq<bool>, k: Kind, i: usize)
    requires
        mask.len() <= usize::MAX,
    ensures
        events_of(kind, set_indices(mask)).contains((k, i)) <==> k == kind && i < mask.len()
            && mask[i as int],
{
    lemma_set_indices(mask);
    let list = set_indices(mask);
    let ev = events_of(kind, list);
    if ev.contains((k, i)) {
        let x = choose|x: int| 0 <= x < ev.len() && ev[x] == (k, i);
        assert(ev[x] == (kind, list[x] as usize));
        assert(list.contains(list[x]));
    }
    if k == kind && i < mask.len() && mask[i as int] {
        assert(list.contains(i as int));
        let x = choose|x: int| 0 <= x < list.len() && list[x] == i as int;
        assert(ev[x] == (k, i));
    }
}

proof fn lemma_in_either<T>(a: Seq<T>, b: Seq<T>, x: T)
    ensures
        (a + b).contains(x) <==> a.contains(x) || b.contains(x),
{
    let s = a + b;
    if a.contains(x) {
        let i = choose|i: int| 0 <= i < a.len() && a[i] == x;
        assert(s[i] == x);
    }
    if b.contains(x) {
        let i = choose|i: int| 0 <= i < b.len() && b[i] == x;
        assert(s[a.len() + i] == x);
    }
    if s.contains(x) {
        let i = choose|i: int| 0 <= i < s.len() && s[i] == x;
        if i < a.len() {
            assert(a[i] == x);
        } else {
            assert(b[i - a.len()] == x);
        }
    }
}

/// The events of a pass are those that the tabs ask to announce, each of its own kind, and no
/// others.
pub proof fn law_events_of_a_pass(all: Seq<News>, kind: Kind, i: usize)
    requires
        all.len() <= usize::MAX,
    ensures
        events_in(all).contains((kind, i)) <==> i < all.len() && asks_for(all[i as int], kind),
{
    let bells = all.map_values(|n: News| n.bell);
    let backs = all.map_values(|n: News| n.recovered);
    let downs = all.map_values(|n: News| n.down);
    let busy = all.map_values(|n: News| n.busy);
    lemma_events_of(Kind::Bell, bells, kind, i);
    lemma_events_of(Kind::Recover, backs, kind, i);
    lemma_events_of(Kind::Down, downs, kind, i);
    lemma_events_of(Kind::Busy, busy, kind, i);
    let a = events_of(Kind::Bell, set_indices(bells));
    let b = events_of(Kind::Recover, set_indices(backs));
    let c = events_of(Kind::Down, set_indices(downs));
    let d = events_of(Kind::Busy, set_indices(busy));
    lemma_in_either(a, b, (kind, i));
    lemma_in_either(a + b, c, (kind, i));
    lemma_in_either(a + b + c, d, (kind, i));
}

/// A pass announces what the tabs ask for, behind what was announced before, and nothing while
/// nothing is to be disturbed: a bell, a pane that fell or came back, and new output, of a tab that
/// is neither looked at nor muted.
pub proof fn law_pass_announces(b: BoardView, now: u64, i: usize)
    requires
        b.wf(),
        i < b.tabs.len(),
    ensures
        b.dnd ==> b.pulsed(now).notices == b.notices,
        !b.dnd ==> b.pulsed(now).notices == b.notices + announced(b.tabs, events_in(b.news(now))),
        ({
            let ev = events_in(b.news(now));
            let s = b.slots[i as int];
            let o = b.tabs[i as int].seen;
            let heard = i != b.active && !s.muted;
            &&& ev.contains((Kind::Bell, i)) <==> heard && o.rang
            &&& ev.contains((Kind::Down, i)) <==> heard && s.was_alive && !o.alive && !o.pty
            &&& ev.contains((Kind::Recover, i)) <==> heard && s.was_down && o.alive && !o.pty
            &&& ev.contains((Kind::Busy, i)) ==> heard && s.seen is Some && o.history > s.seen->0
        }),
{
    reveal(BoardView::pulsed);
    let all = b.news(now);
    assert(b.seen()[i as int] == b.tabs[i as int].seen);
    assert(all[i as int] == news(
        b.slots[i as int],
        b.tabs[i as int].seen,
        i == b.active,
        now,
    ));
    law_events_of_a_pass(all, Kind::Bell, i);
    law_events_of_a_pass(all, Kind::Down, i);
    law_events_of_a_pass(all, Kind::Recover, i);
    law_events_of_a_pass(all, Kind::Busy, i);
}

/// A recovery that shows goes on showing until its time is over, and holds back the announcement of
/// what comes in meanwhile.
pub proof fn law_recovery_fades(s: Slot, o: Seen, until: u64, now: u64)
    requires
        s.recover_until == Some(until),
        !s.was_down,
    ensures
        until < now ==> stepped(s, o, false, now).recover_until is None,
        until >= now ==> stepped(s, o, false, now).recover_until == Some(until),
        until >= now ==> !news(s, o, false, now).busy,
        until >= now && !s.muted && !s.notified ==> !stepped(s, o, false, now).notified,
        s.muted ==> stepped(s, o, false, now).notified == s.notified,
{
}

/// Whether the last thing said is a text.
pub open spec fn said_last(b: BoardView, text: Seq<char>, now: u64) -> bool {
    b.flash == Some(FlashView { text, at: now })
}

/// What the commands that touch one session say of it.
pub proof fn law_commands_say(b: BoardView, now: u64)
    requires
        b.wf(),
        b.tabs.len() > 0,
    ensures
        ({
            let t = b.tabs[b.active as int];
            &&& said_last(b.interrupted(now), t.head() + " interrupted (Ctrl-C)"@, now)
            &&& b.identity_copied(now).todo == b.todo.push(Act::CopyIdentity)
            &&& said_last(b.identity_copied(now), "copied "@ + t.identity(), now)
            &&& b.fleet_copied(now).todo == b.todo.push(Act::CopyFleet)
            &&& said_last(
                b.fleet_copied(now),
                "copied "@ + dec(b.tabs.len()) + " sessions to clipboard"@,
                now,
            )
            &&& b.slots[b.active as int].muted ==> said_last(
                b.active_mute_turned(now),
                t.head() + " unmuted"@,
                now,
            )
        }),
        counted("a "@, 1, " session"@) == "a "@ + dec(1) + " session"@,
        forall|n: nat|
            n != 1 ==> #[trigger] counted("a "@, n as int, " session"@) == "a "@ + dec(n)
                + " session"@ + "s"@,
{
    reveal(BoardView::interrupted);
    reveal(BoardView::identity_copied);
    reveal(BoardView::fleet_copied);
    reveal(BoardView::active_mute_turned);
    assert(counted("a "@, 1, " session"@) =~= "a "@ + dec(1) + " session"@);
}

/// A jump that finds nothing says so and stays; one that finds a tab names it.
pub proof fn law_jumps_say(b: BoardView, now: u64)
    requires
        b.wf(),
        !b.native,
        b.tabs.len() > 0,
    ensures
        next_set(b.quiet_mask(now), b.active as int, 1) is None ==> said_last(
            b.at_next_quiet(now),
            "no other quiet tab"@,
            now,
        ) && b.at_next_quiet(now).active == b.active,
        next_set(b.pin_mask(), b.active as int, 1) is None ==> said_last(
            b.at_next_pinned(now),
            "no other pinned tab"@,
            now,
        ) && b.at_next_pinned(now).active == b.active,
        next_set(b.down_mask(), b.active as int, 1) is None ==> said_last(
            b.at_next_down(now),
            "no other down tab"@,
            now,
        ) && b.at_next_down(now).active == b.active,
        next_set(b.quiet_mask(now), b.active as int, 1) matches Some(i) ==> 0 <= i < b.tabs.len()
            ==> said_last(b.at_next_quiet(now), "quiet — "@ + b.tabs[i].identity(), now),
        next_set(b.pin_mask(), b.active as int, 1) matches Some(i) ==> 0 <= i < b.tabs.len()
            ==> said_last(b.at_next_pinned(now), "pinned — "@ + b.tabs[i].identity(), now),
        next_set(b.down_mask(), b.active as int, 1) matches Some(i) ==> 0 <= i < b.tabs.len()
            && 0 < trimmed(b.tabs[i].reason()).len() <= 26 ==> said_last(
            b.at_next_down(now),
            "down — "@ + b.tabs[i].identity() + " ("@ + trimmed(b.tabs[i].reason()) + ")"@,
            now,
        ),
{
    reveal(BoardView::at_next_quiet);
    reveal(BoardView::at_next_pinned);
    reveal(BoardView::at_next_down);
}

} // verus!
