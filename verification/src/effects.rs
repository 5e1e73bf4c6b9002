//! What the commands do to the fleet, told from the tabs before and after, and from what they ask
//! the window to do.

use vstd::prelude::*;

use crate::activity::{Seen, Slot};
use crate::board::{window_of, Act, BoardView, Round};
use crate::moves::{reached, same_tab, OutcomeView};
use crate::seqs::{law_move_carries, lemma_set_indices, set_indices};
use crate::triage::{below, bulk_targets, law_next_set, next_set};

verus! {

/// Whether something is asked for on the way from one state to another.
pub open spec fn asked(from: BoardView, to: BoardView, a: Act) -> bool {
    exists|k: int| from.todo.len() <= k < to.todo.len() && #[trigger] to.todo[k] == a
}

/// Whether what was asked for before still is, in its order.
pub open spec fn kept_asking(from: BoardView, to: BoardView) -> bool {
    &&& from.todo.len() <= to.todo.len()
    &&& forall|k: int| 0 <= k < from.todo.len() ==> #[trigger] to.todo[k] == from.todo[k]
}

/// Going to a tab makes it the active one, remembers the one before, and changes no tab.
pub proof fn law_tab_is_gone_to(b: BoardView, i: usize)
    requires
        b.wf(),
        !b.native,
        i < b.tabs.len(),
    ensures
        b.focused(i).active == i,
        i != b.active ==> b.focused(i).last == Some(b.active),
        i == b.active ==> b.focused(i).last == b.last,
        b.focused(i).tabs == b.tabs,
        b.focused(i).slots == b.slots,
        b.focused(i).todo == b.todo.push(Act::SaveActive),
{
}

/// Where every session has a window of its own, the window that shows the tab comes to the front.
pub proof fn law_window_is_gone_to(b: BoardView, i: usize, h: int)
    requires
        b.wf(),
        b.native,
        i < b.tabs.len(),
        0 <= h < b.wins.len() <= usize::MAX,
        b.wins[h] == i,
        forall|k: int| 0 <= k < h ==> #[trigger] b.wins[k] != i,
    ensures
        b.focused(i).active == i,
        b.focused(i).win == h,
        asked(b, b.focused(i), Act::FocusWindow(h as usize)),
{
    lemma_window_of(b.wins, i, 0, h);
    let c = b.focused(i);
    assert(c.todo == b.todo.push(Act::SaveActive).push(Act::FocusWindow(h as usize)).push(Act::Redraw));
    assert(c.todo[b.todo.len() as int + 1] == Act::FocusWindow(h as usize));
}

proof fn lemma_window_of(wins: Seq<usize>, tab: usize, from: int, h: int)
    requires
        0 <= from <= h < wins.len(),
        wins[h] == tab,
        forall|k: int| 0 <= k < h ==> #[trigger] wins[k] != tab,
    ensures
        window_of(wins, tab, from) == Some(h),
    decreases h - from,
{
    if from < h {
        assert(wins[from] != tab);
        lemma_window_of(wins, tab, from + 1, h);
    }
}

/// The next tab is the one to the right, and the first after the last; the one before is the one to
/// the left, and the last before the first.
pub proof fn law_tabs_go_round(b: BoardView)
    requires
        b.wf(),
        !b.native,
        b.tabs.len() > 0,
    ensures
        b.active + 1 < b.tabs.len() ==> b.turned(true).active == b.active + 1,
        b.active + 1 == b.tabs.len() ==> b.turned(true).active == 0,
        b.active > 0 ==> b.turned(false).active == b.active - 1,
        b.active == 0 ==> b.turned(false).active == b.tabs.len() - 1,
        b.turned(true).tabs == b.tabs && b.turned(false).tabs == b.tabs,
{
    let n = b.tabs.len() as int;
    let a = b.active as int;
    if a + 1 < n {
        vstd::arithmetic::div_mod::lemma_small_mod((a + 1) as nat, n as nat);
    } else {
        vstd::arithmetic::div_mod::lemma_mod_self_0(n);
    }
    if a > 0 {
        vstd::arithmetic::div_mod::lemma_mod_add_multiples_vanish(a - 1, n);
        vstd::arithmetic::div_mod::lemma_small_mod((a - 1) as nat, n as nat);
        assert((a + n - 1) % n == a - 1);
    } else {
        vstd::arithmetic::div_mod::lemma_small_mod((n - 1) as nat, n as nat);
    }
}

/// Moving the active tab to the right or to the left exchanges it with its neighbour, and what is
/// kept of both with them; at an end nothing moves.
pub proof fn law_tab_changes_places(b: BoardView, right: bool, k: int)
    requires
        b.wf(),
        b.tabs.len() > 0,
        0 <= k < b.tabs.len(),
    ensures
        ({
            let a = b.active as int;
            let to = if right {
                a + 1
            } else {
                a - 1
            };
            let c = b.shifted(right);
            &&& 0 <= to < b.tabs.len() ==> {
                &&& c.active == to
                &&& same_tab(c, to, b, a) && same_tab(c, a, b, to)
                &&& k != a && k != to ==> same_tab(c, k, b, k)
                &&& asked(b, c, Act::Swap(a as usize, to as usize))
                &&& asked(b, c, Act::SaveTabs)
            }
            &&& !(0 <= to < b.tabs.len()) ==> c == b
        }),
{
    let a = b.active as int;
    let to = if right {
        a + 1
    } else {
        a - 1
    };
    let c = b.shifted(right);
    if 0 <= to < b.tabs.len() {
        let n = b.todo.len() as int;
        assert(c.todo[n] == Act::Swap(a as usize, to as usize));
        assert(c.todo[n + 1] == Act::SaveTabs);
    }
}

/// Dragging a tab to another place takes it there; those in between step aside by one.
pub proof fn law_dragged_tab_arrives(b: BoardView, from: int, to: int, k: int)
    requires
        b.wf(),
        0 <= from < b.tabs.len(),
        0 <= to < b.tabs.len(),
        0 <= k < b.tabs.len(),
    ensures
        ({
            let c = b.reordered(from, to);
            &&& c.tabs.len() == b.tabs.len() && c.slots.len() == b.slots.len()
            &&& same_tab(c, to, b, from)
            &&& from <= k < to ==> same_tab(c, k, b, k + 1)
            &&& to < k <= from ==> same_tab(c, k, b, k - 1)
            &&& (k < from && k < to) || (k > from && k > to) ==> same_tab(c, k, b, k)
            &&& asked(b, c, Act::Relocate(from as usize, to as usize))
        }),
{
    law_move_carries(b.tabs, from, to, k);
    law_move_carries(b.slots, from, to, k);
    let c = b.reordered(from, to);
    assert(c.todo[b.todo.len() as int] == Act::Relocate(from as usize, to as usize));
}

/// Closing a tab that is not pinned takes it out, and no other; its session is dropped, and the
/// tabs are written down.
pub proof fn law_tab_is_closed(b: BoardView, i: int, now: u64, k: int)
    requires
        b.wf(),
        0 <= i < b.tabs.len(),
        !b.slots[i].pinned,
        0 <= k < b.tabs.len() - 1,
    ensures
        ({
            let c = b.closed(i, now);
            &&& c.tabs.len() == b.tabs.len() - 1 && c.slots.len() == b.slots.len() - 1
            &&& k < i ==> same_tab(c, k, b, k)
            &&& k >= i ==> same_tab(c, k, b, k + 1)
            &&& asked(b, c, Act::Close(i as usize))
            &&& asked(b, c, Act::SaveTabs)
            &&& c.flash == b.flash
        }),
{
    let c = b.closed(i, now);
    let w = b.without(i);
    assert(w.todo[b.todo.len() as int] == Act::Close(i as usize));
    assert(c.todo[b.todo.len() as int] == Act::Close(i as usize));
    assert(c.todo[c.todo.len() - 1] == Act::SaveTabs);
}

/// Closing many tabs leaves every other tab, in its order, with what is kept of it; and drops the
/// sessions of those, and of no others.
#[verifier::rlimit(40)]
pub proof fn law_batch_is_closed(b: BoardView, list: Seq<int>, j: int)
    requires
        b.slots.len() == b.tabs.len() <= usize::MAX,
        forall|k: int| 0 <= k < list.len() ==> 0 <= #[trigger] list[k] < b.tabs.len(),
        forall|i: int, k: int| 0 <= i < k < list.len() ==> list[i] < list[k],
        0 <= j < b.tabs.len(),
    ensures
        ({
            let c = b.without_all(list);
            &&& c.tabs.len() == b.tabs.len() - list.len() && c.slots.len() == c.tabs.len()
            &&& kept_asking(b, c)
            &&& asked(b, c, Act::Close(j as usize)) <==> list.contains(j)
            &&& !list.contains(j) ==> same_tab(
                c,
                j - below(list.map_values(|i: int| i as usize), j as usize),
                b,
                j,
            )
        }),
    decreases list.len(),
{
    if list.len() > 0 {
        let i = list.last();
        let front = list.drop_last();
        let c = b.without(i);
        let all = b.without_all(list);
        assert(list.contains(list[list.len() - 1]));
        assert(c.tabs == b.tabs.remove(i) && c.slots == b.slots.remove(i));
        assert forall|k: int| 0 <= k < front.len() implies 0 <= #[trigger] front[k] < c.tabs.len() by {
            assert(front[k] == list[k]);
            assert(list[k] < list[list.len() - 1]);
        }
        assert(kept_asking(b, c));
        assert(c.todo[b.todo.len() as int] == Act::Close(i as usize));
        let idx = list.map_values(|i: int| i as usize);
        let pre = front.map_values(|i: int| i as usize);
        assert(idx.drop_last() =~= pre);
        if c.tabs.len() == 0 {
            assert(front.len() == 0) by {
                if front.len() > 0 {
                    assert(front[0] < c.tabs.len());
                }
            }
            assert(j == i);
            assert(all == c);
            assert(asked(b, all, Act::Close(j as usize)));
        } else {
            let q = if j < i {
                j
            } else if j > i {
                j - 1
            } else if i < c.tabs.len() {
                i
            } else {
                i - 1
            };
            law_batch_is_closed(c, front, q);
            assert(all == c.without_all(front));
            assert(kept_asking(b, all));
            if j == i {
                assert(all.todo[b.todo.len() as int] == Act::Close(i as usize));
                assert(asked(b, all, Act::Close(j as usize)));
            } else {
                if front.contains(j) {
                    let k = front.index_of(j);
                    assert(list[k] == j);
                    assert(list.contains(j));
                }
                if list.contains(j) {
                    let k = list.index_of(j);
                    assert(front[k] == j);
                    assert(front.contains(j));
                    assert(j < i);
                }
                lemma_closed_here(b, i, j);
                if j > i {
                    assert(!front.contains(j - 1)) by {
                        if front.contains(j - 1) {
                            let k = front.index_of(j - 1);
                            assert(front[k] == list[k] && list[k] < i);
                        }
                    }
                    assert(!list.contains(j));
                    assert(!asked(c, all, Act::Close((j - 1) as usize)));
                    lemma_closes_are_listed(c, front, j);
                    lemma_below_next(pre, (j - 1) as usize, j as usize);
                    if asked(b, all, Act::Close(j as usize)) {
                        let k = choose|k: int|
                            b.todo.len() <= k < all.todo.len() && #[trigger] all.todo[k] == Act::Close(
                                j as usize,
                            );
                        if k < c.todo.len() {
                            assert(c.todo[k] == all.todo[k]);
                            assert(asked(b, c, Act::Close(j as usize)));
                        } else {
                            assert(asked(c, all, Act::Close(j as usize)));
                        }
                    }
                } else {
                    if asked(b, all, Act::Close(j as usize)) {
                        let k = choose|k: int|
                            b.todo.len() <= k < all.todo.len() && #[trigger] all.todo[k] == Act::Close(
                                j as usize,
                            );
                        if k < c.todo.len() {
                            assert(c.todo[k] == all.todo[k]);
                            assert(asked(b, c, Act::Close(j as usize)));
                        } else {
                            assert(asked(c, all, Act::Close(j as usize)));
                        }
                    }
                    if asked(c, all, Act::Close(j as usize)) {
                        let k = choose|k: int|
                            c.todo.len() <= k < all.todo.len() && #[trigger] all.todo[k] == Act::Close(
                                j as usize,
                            );
                        assert(b.todo.len() <= k);
                        assert(asked(b, all, Act::Close(j as usize)));
                    }
                }
            }
        }
    } else {
        assert(b.without_all(list) == b);
        assert(!asked(b, b, Act::Close(j as usize)));
    }
}

/// Taking out one tab drops the session of no other.
proof fn lemma_closed_here(b: BoardView, i: int, j: int)
    requires
        0 <= i < b.tabs.len() <= usize::MAX,
        0 <= j < b.tabs.len(),
        j != i,
    ensures
        !asked(b, b.without(i), Act::Close(j as usize)),
        kept_asking(b, b.without(i)),
{
    let c = b.without(i);
    let n = b.todo.len() as int;
    assert(c.todo == b.todo.push(Act::Close(i as usize)) || c.todo == b.todo.push(
        Act::Close(i as usize),
    ).push(Act::DropWindow(i as usize)).push(Act::Redraw));
}

/// The sessions that closing many tabs drops are among those listed.
proof fn lemma_closes_are_listed(b: BoardView, list: Seq<int>, j: int)
    requires
        b.slots.len() == b.tabs.len() <= usize::MAX,
        forall|k: int| 0 <= k < list.len() ==> 0 <= #[trigger] list[k] < b.tabs.len(),
        forall|i: int, k: int| 0 <= i < k < list.len() ==> list[i] < list[k],
        0 <= j <= usize::MAX,
        !list.contains(j),
    ensures
        !asked(b, b.without_all(list), Act::Close(j as usize)),
        kept_asking(b, b.without_all(list)),
    decreases list.len(),
{
    if list.len() > 0 {
        let i = list.last();
        let front = list.drop_last();
        let c = b.without(i);
        let all = b.without_all(list);
        assert(list.contains(list[list.len() - 1]));
        assert forall|k: int| 0 <= k < front.len() implies 0 <= #[trigger] front[k] < c.tabs.len() by {
            assert(front[k] == list[k]);
            assert(list[k] < list[list.len() - 1]);
        }
        if front.contains(j) {
            let k = front.index_of(j);
            assert(list[k] == j);
            assert(list.contains(j));
        }
        lemma_closes_are_listed(c, front, j);
        assert(c.todo == b.todo.push(Act::Close(i as usize)) || c.todo == b.todo.push(
            Act::Close(i as usize),
        ).push(Act::DropWindow(i as usize)).push(Act::Redraw));
        if asked(b, all, Act::Close(j as usize)) {
            let k = choose|k: int|
                b.todo.len() <= k < all.todo.len() && #[trigger] all.todo[k] == Act::Close(j as usize);
            if k < c.todo.len() {
                assert(c.todo[k] == all.todo[k]);
            } else {
                assert(asked(c, all, Act::Close(j as usize)));
            }
        }
    }
}

proof fn lemma_below_next(list: Seq<usize>, a: usize, b: usize)
    requires
        a + 1 == b,
        !list.contains(a),
    ensures
        below(list, a) == below(list, b),
    decreases list.len(),
{
    if list.len() > 0 {
        assert(list.contains(list[list.len() - 1]));
        assert forall|x: usize| list.drop_last().contains(x) implies list.contains(x) by {
            let k = list.drop_last().index_of(x);
            assert(list[k] == x);
        }
        lemma_below_next(list.drop_last(), a, b);
    }
}

/// Which tabs a list of set flags holds: those whose flag is set.
proof fn lemma_listed(mask: Seq<bool>, i: int)
    requires
        0 <= i < mask.len(),
    ensures
        set_indices(mask).contains(i) <==> mask[i],
{
    lemma_set_indices(mask);
    if set_indices(mask).contains(i) {
        let k = set_indices(mask).index_of(i);
        assert(set_indices(mask)[k] == i);
    }
}

/// Whether a session lives and has been silent for as long as makes it count as done: remote,
/// sampled, in the background and not pinned.
pub open spec fn done(s: Slot, o: Seen, watched: bool, now: u64, after: u64) -> bool {
    o.alive && !o.pty && !watched && !s.pinned && s.seen is Some && s.last_output + after <= now
}

/// The sweep of the quiet tabs closes those that are done, muted or not, and leaves every other as
/// it is; where none is, it says so and closes nothing.
pub proof fn law_sweep_closes_the_done(b: BoardView, now: u64, j: int)
    requires
        b.wf(),
        b.quiet_after > 0,
        0 <= j < b.tabs.len(),
        forall|k: int| 0 <= k < b.slots.len() ==> (#[trigger] b.slots[k]).last_output <= now,
    ensures
        ({
            let c = b.swept(now);
            let goes = done(b.slots[j], b.tabs[j].seen, j == b.active, now, b.quiet_after);
            &&& asked(b, c, Act::Close(j as usize)) <==> goes
            &&& !goes ==> exists|k: int| #[trigger] same_tab(c, k, b, j)
            &&& c.tabs.len() < b.tabs.len() ==> asked(b, c, Act::SaveTabs) && asked(b, c, Act::SavePins)
        }),
{
    reveal(BoardView::swept);
    let mask = b.silent_mask(now);
    let list = set_indices(mask);
    lemma_set_indices(mask);
    lemma_listed(mask, j);
    assert(b.seen()[j] == b.tabs[j].seen);
    law_batch_is_closed(b, list, j);
    let c = b.swept(now);
    if list.len() == 0 {
        assert(same_tab(c, j, b, j));
    } else {
        let w = b.without_all(list);
        let n = w.todo.len() as int;
        assert(c.todo == w.todo.push(Act::SaveTabs).push(Act::SavePins));
        assert(c.todo[n] == Act::SaveTabs && c.todo[n + 1] == Act::SavePins);
        lemma_more_asked(b, w, c, Act::Close(j as usize));
        if !list.contains(j) {
            let k = j - below(list.map_values(|i: int| i as usize), j as usize);
            assert(same_tab(w, k, b, j));
            assert(same_tab(c, k, b, j));
        }
    }
}

/// What two more acts ask for beside.
proof fn lemma_more_asked(b: BoardView, w: BoardView, c: BoardView, a: Act)
    requires
        kept_asking(b, w),
        kept_asking(w, c),
        forall|k: int| w.todo.len() <= k < c.todo.len() ==> #[trigger] c.todo[k] != a,
    ensures
        asked(b, c, a) == asked(b, w, a),
{
    if asked(b, w, a) {
        let k = choose|k: int| b.todo.len() <= k < w.todo.len() && #[trigger] w.todo[k] == a;
        assert(c.todo[k] == a);
    }
    if asked(b, c, a) {
        let k = choose|k: int| b.todo.len() <= k < c.todo.len() && #[trigger] c.todo[k] == a;
        assert(k < w.todo.len());
        assert(w.todo[k] == a);
    }
}

/// Closing the marked tabs closes those that are marked and not pinned, and leaves every other as
/// it is but for its mark: no mark is left.
pub proof fn law_marked_are_closed(b: BoardView, now: u64, j: int)
    requires
        b.wf(),
        0 <= j < b.tabs.len(),
    ensures
        ({
            let c = b.marked_closed(now);
            let goes = b.slots[j].mark && !b.slots[j].pinned;
            &&& asked(b, c, Act::Close(j as usize)) <==> goes
            &&& !goes ==> exists|k: int|
                0 <= k < c.tabs.len() && c.tabs[k] == b.tabs[j] && (#[trigger] c.slots[k]) == (Slot {
                    mark: false,
                    ..b.slots[j]
                })
        }),
{
    reveal(BoardView::marked_closed);
    let u = b.unmarked();
    let mask = b.doomed_mask();
    let list = set_indices(mask);
    lemma_set_indices(mask);
    lemma_listed(mask, j);
    let marks = b.mark_mask();
    lemma_set_indices(marks);
    law_batch_is_closed(u, list, j);
    let c = b.marked_closed(now);
    if set_indices(marks).len() == 0 {
        assert(!marks[j]) by {
            if marks[j] {
                assert(set_indices(marks).contains(j));
            }
        }
        assert(c.slots[j] == u.slots[j]);
    } else if list.len() == 0 {
        assert(c.slots[j] == u.slots[j]);
    } else {
        let w = u.without_all(list);
        let n = w.todo.len() as int;
        assert(c.todo == w.todo.push(Act::SavePins).push(Act::SaveTabs));
        assert(c.todo[n] == Act::SavePins && c.todo[n + 1] == Act::SaveTabs);
        lemma_more_asked(u, w, c, Act::Close(j as usize));
        assert(asked(b, c, Act::Close(j as usize)) == asked(u, c, Act::Close(j as usize)));
        if !list.contains(j) {
            let k = j - below(list.map_values(|i: int| i as usize), j as usize);
            assert(same_tab(w, k, u, j));
            assert(c.slots[k] == u.slots[j]);
        }
    }
}

/// What is asked for of each tab listed.
proof fn lemma_each_asked(from: Seq<Act>, list: Seq<int>, f: spec_fn(int) -> Act, i: int)
    requires
        forall|a: int, b: int| #[trigger] f(a) == #[trigger] f(b) && 0 <= a <= usize::MAX && 0 <= b
            <= usize::MAX ==> a == b,
        forall|k: int| 0 <= k < list.len() ==> 0 <= #[trigger] list[k] <= usize::MAX,
        0 <= i <= usize::MAX,
    ensures
        (exists|k: int|
            from.len() <= k < from.len() + list.len() && #[trigger] (from + list.map_values(f))[k]
                == f(i)) <==> list.contains(i),
{
    let all = from + list.map_values(f);
    if list.contains(i) {
        let k = list.index_of(i);
        assert(all[from.len() + k] == f(i));
    }
    if exists|k: int| from.len() <= k < from.len() + list.len() && #[trigger] all[k] == f(i) {
        let k = choose|k: int| from.len() <= k < from.len() + list.len() && #[trigger] all[k] == f(i);
        assert(all[k] == f(list[k - from.len()]));
        assert(list[k - from.len()] == i);
    }
}

/// Interrupting the fleet sends an interrupt to each session that is not muted, and to no other.
pub proof fn law_fleet_is_interrupted(b: BoardView, now: u64, i: int)
    requires
        b.wf(),
        0 <= i < b.tabs.len(),
    ensures
        asked(b, b.fleet_halted(now), Act::Interrupt(i as usize)) <==> !b.slots[i].muted,
        b.fleet_halted(now).tabs == b.tabs,
        b.fleet_halted(now).slots == b.slots,
        b.fleet_halted(now).flash is Some,
{
    reveal(BoardView::fleet_halted);
    let mask = b.unmuted_mask();
    lemma_set_indices(mask);
    lemma_listed(mask, i);
    let list = set_indices(mask);
    lemma_halted(b, list, i);
    let c = b.fleet_halted(now);
    if list.len() == 0 {
        assert(!asked(b, c, Act::Interrupt(i as usize)));
    } else {
        assert(c.todo == b.interrupting(list).todo);
        assert(asked(b, c, Act::Interrupt(i as usize)) == asked(
            b,
            b.interrupting(list),
            Act::Interrupt(i as usize),
        ));
    }
}

proof fn lemma_halted(b: BoardView, list: Seq<int>, i: int)
    requires
        forall|k: int| 0 <= k < list.len() ==> 0 <= #[trigger] list[k] <= usize::MAX,
        0 <= i <= usize::MAX,
    ensures
        asked(b, b.interrupting(list), Act::Interrupt(i as usize)) <==> list.contains(i),
{
    let f = |i: int| Act::Interrupt(i as usize);
    lemma_each_asked(b.todo, list, f, i);
    let c = b.interrupting(list);
    assert(c.todo == b.todo + list.map_values(f));
    if list.contains(i) {
        let k = choose|k: int|
            b.todo.len() <= k < b.todo.len() + list.len() && #[trigger] (b.todo + list.map_values(f))[k]
                == f(i);
        assert(c.todo[k] == Act::Interrupt(i as usize));
    }
    if asked(b, c, Act::Interrupt(i as usize)) {
        let k = choose|k: int|
            b.todo.len() <= k < c.todo.len() && #[trigger] c.todo[k] == Act::Interrupt(i as usize);
        assert((b.todo + list.map_values(f))[k] == f(i));
    }
}

/// Interrupting from the fleet grid sends an interrupt to each marked session, and to no other;
/// where none is marked, to each that is not muted. No mark is left.
pub proof fn law_marked_are_interrupted(b: BoardView, now: u64, i: int)
    requires
        b.wf(),
        0 <= i < b.tabs.len(),
    ensures
        ({
            let c = b.marked_halted(now);
            let some = exists|k: int| 0 <= k < b.slots.len() && (#[trigger] b.slots[k]).mark;
            &&& some ==> (asked(b, c, Act::Interrupt(i as usize)) <==> b.slots[i].mark)
            &&& !some ==> (asked(b, c, Act::Interrupt(i as usize)) <==> !b.slots[i].muted)
            &&& c.slots[i] == (Slot { mark: false, ..b.slots[i] })
            &&& c.tabs == b.tabs
        }),
{
    reveal(BoardView::marked_halted);
    let (m, u) = (b.mark_mask(), b.unmuted_mask());
    lemma_meant(b, m, u, i);
    let list = bulk_targets(m, Some(u));
    let c = b.marked_halted(now);
    let w = b.unmarked();
    lemma_halted(w, list, i);
    assert(w.todo == b.todo);
    assert(asked(b, w.interrupting(list), Act::Interrupt(i as usize)) == asked(
        w,
        w.interrupting(list),
        Act::Interrupt(i as usize),
    ));
    if list.len() == 0 {
        assert(!asked(b, c, Act::Interrupt(i as usize)));
        assert(!list.contains(i));
    } else {
        assert(c.todo == w.interrupting(list).todo);
        assert(asked(b, c, Act::Interrupt(i as usize)) == asked(
            b,
            w.interrupting(list),
            Act::Interrupt(i as usize),
        ));
    }
}

/// What a bulk action means: the marked, or those of the fallback.
proof fn lemma_meant(b: BoardView, m: Seq<bool>, u: Seq<bool>, i: int)
    requires
        m == b.mark_mask(),
        u.len() == m.len() <= usize::MAX,
        0 <= i < m.len(),
    ensures
        ({
            let list = bulk_targets(m, Some(u));
            let some = exists|k: int| 0 <= k < b.slots.len() && (#[trigger] b.slots[k]).mark;
            &&& forall|k: int| 0 <= k < list.len() ==> 0 <= #[trigger] list[k] < m.len()
            &&& some ==> (list.contains(i) <==> m[i])
            &&& !some ==> (list.contains(i) <==> u[i])
        }),
{
    lemma_set_indices(m);
    lemma_set_indices(u);
    lemma_listed(m, i);
    lemma_listed(u, i);
    if exists|k: int| 0 <= k < b.slots.len() && (#[trigger] b.slots[k]).mark {
        let k = choose|k: int| 0 <= k < b.slots.len() && (#[trigger] b.slots[k]).mark;
        assert(m[k]);
        assert(set_indices(m).contains(k));
    } else if set_indices(m).len() > 0 {
        let k = set_indices(m)[0];
        assert(m[k]);
        assert(b.slots[k].mark);
    }
}

proof fn lemma_retried(b: BoardView, list: Seq<int>, round: Round, i: int)
    requires
        forall|k: int| 0 <= k < list.len() ==> 0 <= #[trigger] list[k] <= usize::MAX,
        0 <= i <= usize::MAX,
    ensures
        asked(b, b.retrying(list, round), Act::Retry(i as usize)) <==> list.contains(i),
        b.retrying(list, round).todo.last() == Act::Report(round),
{
    let f = |i: int| Act::Retry(i as usize);
    lemma_each_asked(b.todo, list, f, i);
    let c = b.retrying(list, round);
    let all = b.todo + list.map_values(f);
    assert(c.todo == all.push(Act::Report(round)));
    if list.contains(i) {
        let k = choose|k: int| b.todo.len() <= k < b.todo.len() + list.len() && #[trigger] all[k] == f(i);
        assert(c.todo[k] == Act::Retry(i as usize));
    }
    if asked(b, c, Act::Retry(i as usize)) {
        let k = choose|k: int|
            b.todo.len() <= k < c.todo.len() && #[trigger] c.todo[k] == Act::Retry(i as usize);
        assert(k < all.len());
        assert(all[k] == f(i));
    }
}

/// Reconnecting the fleet retries each remote pane without its connection, and no other, and
/// reports on it at the end; where there is none it says so.
pub proof fn law_fleet_is_reconnected(b: BoardView, now: u64, i: int)
    requires
        b.wf(),
        0 <= i < b.tabs.len(),
    ensures
        ({
            let c = b.fleet_retried(now);
            let (alive, pty) = (b.tabs[i].seen.alive, b.tabs[i].seen.pty);
            &&& asked(b, c, Act::Retry(i as usize)) <==> !alive && !pty
            &&& !alive && !pty ==> c.todo.last() == Act::Report(Round::Sweep)
            &&& c.tabs == b.tabs && c.slots == b.slots
        }),
{
    reveal(BoardView::fleet_retried);
    let mask = b.down_mask();
    lemma_set_indices(mask);
    lemma_listed(mask, i);
    assert(mask[i] == (!b.tabs[i].seen.alive && !b.tabs[i].seen.pty));
    lemma_retried(b, set_indices(mask), Round::Sweep, i);
    if set_indices(mask).len() == 0 {
        assert(!asked(b, b.fleet_retried(now), Act::Retry(i as usize)));
    }
}

/// Reconnecting from the fleet grid retries each marked pane; where none is marked, each that is
/// down. No mark is left.
pub proof fn law_marked_are_reconnected(b: BoardView, now: u64, i: int)
    requires
        b.wf(),
        0 <= i < b.tabs.len(),
    ensures
        ({
            let c = b.marked_retried(now);
            let some = exists|k: int| 0 <= k < b.slots.len() && (#[trigger] b.slots[k]).mark;
            &&& some ==> (asked(b, c, Act::Retry(i as usize)) <==> b.slots[i].mark)
            &&& !some ==> (asked(b, c, Act::Retry(i as usize)) <==> !b.tabs[i].seen.alive
                && !b.tabs[i].seen.pty)
            &&& c.slots[i] == (Slot { mark: false, ..b.slots[i] })
        }),
{
    reveal(BoardView::marked_retried);
    let (m, u) = (b.mark_mask(), b.down_mask());
    lemma_meant(b, m, u, i);
    let list = bulk_targets(m, Some(u));
    let c = b.marked_retried(now);
    let w = b.unmarked();
    lemma_retried(w, list, Round::Sweep, i);
    assert(u[i] == (!b.tabs[i].seen.alive && !b.tabs[i].seen.pty));
    assert(w.todo == b.todo);
    if list.len() == 0 {
        assert(!asked(b, c, Act::Retry(i as usize)));
        assert(!list.contains(i));
    } else {
        assert(asked(b, c, Act::Retry(i as usize)) == asked(w, c, Act::Retry(i as usize)));
    }
}

/// Reconnecting the active session, or one of a list, retries it where it is a remote pane without
/// its connection; a session that is fine is left alone.
pub proof fn law_one_is_reconnected(b: BoardView, now: u64, i: int)
    requires
        b.wf(),
        b.tabs.len() > 0,
        0 <= i < b.tabs.len(),
    ensures
        ({
            let down = |k: int| !b.tabs[k].seen.alive && !b.tabs[k].seen.pty;
            let c = b.active_retried(now);
            let d = b.row_retried(i);
            &&& down(b.active as int) ==> c.todo == b.todo.push(Act::Retry(b.active)).push(
                Act::Report(Round::Active),
            )
            &&& !down(b.active as int) ==> c.todo == b.todo && c.flash is Some
            &&& down(i) ==> d.todo == b.todo.push(Act::Retry(i as usize)).push(
                Act::Report(Round::Row(i as usize)),
            )
            &&& !down(i) ==> d == b
        }),
{
    reveal(BoardView::active_retried);
    reveal(BoardView::row_retried);
}

/// Interrupting the active session sends an interrupt to it alone.
pub proof fn law_active_is_interrupted(b: BoardView, now: u64)
    requires
        b.active < b.tabs.len(),
    ensures
        b.interrupted(now).todo == b.todo.push(Act::Interrupt(b.active)),
        b.interrupted(now).tabs == b.tabs,
{
    reveal(BoardView::interrupted);
}

/// Killing the active session kills its pane and closes its tab, pinned or not.
pub proof fn law_active_is_destroyed(b: BoardView, now: u64, k: int)
    requires
        b.wf(),
        b.active < b.tabs.len(),
        0 <= k < b.tabs.len() - 1,
    ensures
        ({
            let c = b.destroyed(now);
            &&& c.tabs.len() == b.tabs.len() - 1
            &&& k < b.active ==> same_tab(c, k, b, k)
            &&& k >= b.active ==> same_tab(c, k, b, k + 1)
            &&& c.todo[b.todo.len() as int] == Act::Destroy(b.active)
            &&& c.todo[b.todo.len() as int + 1] == Act::Close(b.active)
            &&& c.todo.last() == Act::SaveTabs
        }),
{
    reveal(BoardView::destroyed);
}

/// The jump to the next of something goes to the nearest, to the right and round the end, that is
/// it, and back to where it started only where there is no other.
pub proof fn law_next_is_nearest(flags: Seq<bool>, start: int, at: int, k: int)
    requires
        0 <= start < flags.len(),
        next_set(flags, start, 1) == Some(at),
    ensures
        0 <= at < flags.len() && flags[at],
        start < at ==> (start < k < at ==> !flags[k]),
        at <= start ==> (start < k < flags.len() || 0 <= k < at ==> !flags[k]),
{
    lemma_nearest(flags, start, 1, at);
    let n = flags.len() as int;
    if start < k < n {
        let step = k - start;
        vstd::arithmetic::div_mod::lemma_small_mod(k as nat, n as nat);
        assert((start + step) % n == k);
    } else if 0 <= k < n && k < at && at <= start {
        let step = n + k - start;
        vstd::arithmetic::div_mod::lemma_mod_add_multiples_vanish(k, n);
        vstd::arithmetic::div_mod::lemma_small_mod(k as nat, n as nat);
        assert((start + step) % n == k);
    }
}

proof fn lemma_nearest(flags: Seq<bool>, start: int, from: int, at: int)
    requires
        0 <= start < flags.len(),
        1 <= from,
        next_set(flags, start, from) == Some(at),
    ensures
        0 <= at < flags.len() && flags[at],
        ({
            let n = flags.len() as int;
            let far = if at > start {
                at - start
            } else {
                n + at - start
            };
            &&& from <= far <= n
            &&& forall|s: int| from <= s < far ==> !flags[#[trigger] ((start + s) % n)]
        }),
    decreases flags.len() + 1 - from,
{
    let n = flags.len() as int;
    if from <= n {
        let here = (start + from) % n;
        if start + from < n {
            vstd::arithmetic::div_mod::lemma_small_mod((start + from) as nat, n as nat);
        } else {
            vstd::arithmetic::div_mod::lemma_mod_add_multiples_vanish(start + from - n, n);
            if start + from - n < n {
                vstd::arithmetic::div_mod::lemma_small_mod((start + from - n) as nat, n as nat);
            }
        }
        if !flags[here] {
            lemma_nearest(flags, start, from + 1, at);
        }
    }
}

/// The jump to the next tab that is down, quiet or pinned goes to one that is, and says where there
/// is none.
pub proof fn law_jumps_land(b: BoardView, now: u64, k: int)
    requires
        b.wf(),
        !b.native,
        b.tabs.len() > 0,
        0 <= k < b.tabs.len(),
        b.quiet_after > 0,
        forall|i: int| 0 <= i < b.slots.len() ==> (#[trigger] b.slots[i]).last_output <= now,
    ensures
        ({
            let c = b.at_next_down(now);
            let t = |i: int| b.tabs[i].seen;
            &&& !t(k).alive && !t(k).pty ==> !t(c.active as int).alive && !t(c.active as int).pty
            &&& c.active == b.active || (!t(c.active as int).alive && !t(c.active as int).pty)
            &&& c.flash is Some && c.tabs == b.tabs && c.slots == b.slots
        }),
        ({
            let c = b.at_next_quiet(now);
            let quiet = |i: int|
                done(b.slots[i], b.tabs[i].seen, i == b.active, now, b.quiet_after) && !b.slots[i].muted;
            &&& quiet(k) ==> quiet(c.active as int)
            &&& c.active == b.active || quiet(c.active as int)
            &&& c.flash is Some && c.tabs == b.tabs && c.slots == b.slots
        }),
        ({
            let c = b.at_next_pinned(now);
            &&& k != b.active && b.slots[k].pinned ==> c.active != b.active
                && b.slots[c.active as int].pinned
            &&& c.active == b.active || b.slots[c.active as int].pinned
            &&& c.flash is Some && c.tabs == b.tabs && c.slots == b.slots
        }),
{
    reveal(BoardView::at_next_down);
    reveal(BoardView::at_next_quiet);
    reveal(BoardView::at_next_pinned);
    law_next_set(b.down_mask(), b.active as int, k);
    law_next_set(b.quiet_mask(now), b.active as int, k);
    law_next_set(b.pin_mask(), b.active as int, k);
    assert(forall|i: int| 0 <= i < b.tabs.len() ==> b.seen()[i] == b.tabs[i].seen);
}

/// Muting, pinning and marking turn one flag of one tab, and leave all else.
pub proof fn law_one_flag_turns(b: BoardView, i: int, now: u64, k: int)
    requires
        b.wf(),
        0 <= i < b.tabs.len(),
        0 <= k < b.tabs.len(),
        k != i,
    ensures
        b.mute_turned(i).slots[i] == (Slot { muted: !b.slots[i].muted, ..b.slots[i] }),
        b.pin_turned(i, now).slots[i] == (Slot { pinned: !b.slots[i].pinned, ..b.slots[i] }),
        b.mark_turned(i).slots[i] == (Slot { mark: !b.slots[i].mark, ..b.slots[i] }),
        b.mute_turned(i).slots[k] == b.slots[k],
        b.pin_turned(i, now).slots[k] == b.slots[k],
        b.mark_turned(i).slots[k] == b.slots[k],
        b.mute_turned(i).tabs == b.tabs,
        b.pin_turned(i, now).tabs == b.tabs && asked(b, b.pin_turned(i, now), Act::SavePins),
        b.mark_turned(i).tabs == b.tabs,
{
    reveal(BoardView::pin_turned);
    assert(b.pin_turned(i, now).todo[b.todo.len() as int] == Act::SavePins);
}

/// Do not disturb and focus mode turn on and off, and change nothing else of the tabs.
pub proof fn law_modes_turn(b: BoardView, now: u64)
    ensures
        b.dnd_turned(now).dnd == !b.dnd,
        b.focus_turned(now).focus == !b.focus,
        b.dnd_turned(now).tabs == b.tabs && b.dnd_turned(now).slots == b.slots,
        b.focus_turned(now).tabs == b.tabs && b.focus_turned(now).slots == b.slots,
        b.dnd_turned(now).todo == b.todo,
        b.focus_turned(now).todo == b.todo.push(Act::Redraw),
{
    reveal(BoardView::dnd_turned);
    reveal(BoardView::focus_turned);
}

/// Marking all as read leaves nothing unread in any tab, and no badge.
pub proof fn law_all_is_read(b: BoardView, now: u64, i: int)
    requires
        b.wf(),
        0 <= i < b.tabs.len(),
    ensures
        ({
            let s = b.all_read(now).slots[i];
            s.unread == 0 && s.bell_until is None && s.recover_until is None && s.grew == 0 && s.seen
                == Some(b.tabs[i].seen.history) && s.muted == b.slots[i].muted && s.pinned
                == b.slots[i].pinned
        }),
        b.all_read(now).tabs == b.tabs,
{
    reveal(BoardView::all_read);
    assert(b.seen()[i] == b.tabs[i].seen);
}

/// A pass over the tabs reads the one that is looked at, and counts what every other printed.
pub proof fn law_pass_counts(b: BoardView, now: u64, i: int)
    requires
        b.wf(),
        0 <= i < b.tabs.len(),
    ensures
        ({
            let s = b.slots[i];
            let t = b.pulsed(now).slots[i];
            let h = b.tabs[i].seen.history;
            &&& t.seen == Some(h)
            &&& i == b.active ==> t.unread == 0 && t.grew == 0 && t.last_output == s.last_output
            &&& i != b.active ==> (s.seen matches Some(n) ==> {
                &&& h > n ==> t.last_output == now && t.grew == h - n
                &&& h <= n ==> t.last_output == s.last_output && t.grew == 0
                &&& h > n && !s.muted && s.unread + (h - n) <= usize::MAX ==> t.unread == s.unread + (h
                    - n)
            })
            &&& t.muted == s.muted && t.pinned == s.pinned && t.mark == s.mark && t.target == s.target
        }),
        b.pulsed(now).tabs == b.tabs,
        b.pulsed(now).todo == b.todo,
        b.pulsed(now).active == b.active,
{
    reveal(BoardView::pulsed);
    assert(b.seen()[i] == b.tabs[i].seen);
}

/// As many reconnects are told to have gone well as did.
pub proof fn law_reached_are_counted(v: Seq<OutcomeView>, o: OutcomeView)
    ensures
        reached(Seq::empty()) == 0,
        o.ok ==> reached(v.push(o)) == reached(v) + 1,
        !o.ok ==> reached(v.push(o)) == reached(v),
{
    assert(v.push(o).drop_last() =~= v);
}

} // verus!
