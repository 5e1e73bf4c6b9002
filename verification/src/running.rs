//! Laws of how the window starts, runs and ends: of its sessions' windows, of its turns, of what it
//! announces and of what it finds.

use vstd::prelude::*;

use crate::activity::fresh;
use crate::board::{Act, BoardView, FlashView};
use crate::effects::{asked, kept_asking};
use crate::machines::{lemma_text_index, next_host_tab, text_index};
use crate::moves::same_tab;
use crate::notify::{announced, event_names, raised_by, told, told_all, Kind};
use crate::opening::{offline_note, remote_label, MenuAction, Setup};
use crate::search::{
    cell_of, hits, law_ascii_cells_are_columns, law_hits_are_disjoint, line_finds, line_hits,
};
use crate::seqs::{firsts, listed};
use crate::shell::{Overlay, ShellView};
use crate::tabs::{labels_at, notice_text, tab_views, TabView};
use crate::text::{ascii_lower_char, lowercased, occurs, trimmed};
use crate::windows::drops;
use crate::words::labels_text;
use vstd::utf8::{encode_utf8, is_ascii_chars};

verus! {

/// A machine that cannot be reached is named with the reason, and its name stays in the open field;
/// one that was reached closes the field, and the tabs are written down.
pub proof fn law_connecting(
    s: ShellView,
    error: Option<Seq<char>>,
    engine: Option<Seq<char>>,
    now: u64,
)
    ensures
        ({
            let t = s.connected(error, engine, now);
            let (host, port, session) = s.remote_named();
            let label = remote_label(host, port);
            &&& t.board.tabs == s.board.tabs && t.board.slots == s.board.slots && t.remote == s.remote
            &&& error matches Some(e) ==> t.overlay == s.overlay && t.board.todo == s.board.todo
                && t.board.flash == Some(FlashView { text: "⚠ "@ + label + ": "@ + e, at: now })
            &&& error is None ==> t.overlay == Overlay::Closed && t.board.todo == s.board.todo.push(
                Act::SaveTabs,
            )
            &&& error is None && session is Some ==> t.board.flash == Some(
                FlashView { text: "attached "@ + session->0 + " @ "@ + label + " ✓"@, at: now },
            )
            &&& error is None && session is None && engine is Some ==> t.board.flash == Some(
                FlashView { text: "connecting "@ + engine->0 + " @ "@ + label + " …"@, at: now },
            )
        }),
{
}

/// A session that could not be opened leaves the picker open and says why; one that was opened
/// closes it, and the tabs are written down. One that nothing was typed for fails in silence.
pub proof fn law_opening(s: ShellView, error: Option<Seq<char>>, ok: bool, now: u64)
    ensures
        ({
            let t = s.opened_here(error, now);
            &&& error matches Some(e) ==> t.overlay == s.overlay && t.board.todo == s.board.todo
                && t.board.flash == Some(FlashView { text: "⚠ "@ + e, at: now })
            &&& error is None ==> t.overlay == Overlay::Closed && t.board.todo == s.board.todo.push(
                Act::SaveTabs,
            ) && t.board.flash == s.board.flash
        }),
        ok ==> s.spawned(ok).board.todo == s.board.todo.push(Act::SaveTabs),
        !ok ==> s.spawned(ok) == s,
        s.spawned(ok).overlay == s.overlay,
        s.spawned(ok).board.flash == s.board.flash,
{
}

/// A second session like the active one comes behind the others, is looked at, and is pinned just
/// where that one was; the others stay as they were.
pub proof fn law_second_session(s: ShellView, t: TabView, now: u64, k: int)
    requires
        s.board.slots.len() == s.board.tabs.len() < usize::MAX,
        0 <= k < s.board.tabs.len(),
    ensures
        ({
            let c = s.forked(t, now).board;
            let n = s.board.tabs.len() as int;
            &&& c.tabs.len() == n + 1 && c.slots.len() == n + 1
            &&& c.tabs[n] == t && c.active == n
            &&& c.slots[n].pinned == s.fork_pinned && !c.slots[n].muted && c.slots[n].unread == 0
            &&& same_tab(c, k, s.board, k)
            &&& asked(s.board, c, Act::SavePins) <==> s.fork_pinned
        }),
{
    let c = s.forked(t, now).board;
    if s.fork_pinned {
        assert(c.todo[s.board.todo.len() as int] == Act::SavePins);
    }
}

/// Copying and exporting say how much there was and where it went; a blank scrollback is passed
/// over.
pub proof fn law_scrollback_is_told(s: ShellView, text: Seq<char>, n: nat, path: Seq<char>, now: u64)
    ensures
        trimmed(text).len() == 0 ==> s.scrollback_copied(text, now) == s,
        trimmed(text).len() > 0 ==> s.scrollback_copied(text, now).board.flash == Some(
            FlashView {
                text: "copied "@ + crate::text::dec(encode_utf8(text).len())
                    + " chars of scrollback"@,
                at: now,
            },
        ),
        s.exported(Ok((n, path)), now).board.flash == Some(
            FlashView { text: "wrote "@ + crate::text::dec(n) + " bytes → "@ + path, at: now },
        ),
        s.exported(Err(path), now).board.flash == Some(
            FlashView { text: "⚠ couldn't write export: "@ + path, at: now },
        ),
        s.exported(Ok((n, path)), now).board.todo == s.board.todo,
        s.fullscreened(true, now).board.flash == Some(FlashView { text: "windowed"@, at: now }),
        s.fullscreened(false, now).board.flash == Some(FlashView { text: "fullscreen"@, at: now }),
{
}

/// Each command of the menu bar does what it is called.
pub proof fn law_menu_bar(s: ShellView)
    requires
        s.board.wf(),
        !s.board.native,
    ensures
        s.menu_applied(MenuAction::NewTab).overlay == Overlay::NewSession,
        s.menu_applied(MenuAction::CommandPalette).overlay == Overlay::CommandPalette,
        s.menu_applied(MenuAction::CloseTab).close_active,
        s.menu_applied(MenuAction::CloseTab).board == s.board,
        s.menu_applied(MenuAction::Quit).quit,
        asked(s.board, s.menu_applied(MenuAction::Quit).board, Act::SaveTabs),
        asked(s.board, s.menu_applied(MenuAction::Quit).board, Act::SaveScrollbacks),
        s.menu_applied(MenuAction::ReopenTab).board.todo == s.board.todo.push(Act::Reopen),
        s.board.active + 1 < s.board.tabs.len() ==> s.menu_applied(MenuAction::NextTab).board.active
            == s.board.active + 1,
        s.board.active + 1 == s.board.tabs.len() ==> s.menu_applied(
            MenuAction::NextTab,
        ).board.active == 0,
        s.board.active > 0 ==> s.menu_applied(MenuAction::PrevTab).board.active == s.board.active
            - 1,
        s.board.active == 0 && s.board.tabs.len() > 0 ==> s.menu_applied(
            MenuAction::PrevTab,
        ).board.active == s.board.tabs.len() - 1,
{
    reveal(ShellView::menu_applied);
    let q = s.menu_applied(MenuAction::Quit).board;
    let k = s.board.todo.len() as int;
    assert(q.todo[k] == Act::SaveScrollbacks);
    assert(q.todo[k + 1] == Act::SaveTabs);
    if s.board.tabs.len() > 0 {
        crate::effects::law_tabs_go_round(s.board);
    }
}

/// The window starts with the tabs that were open, the one active that was, and nothing in front of
/// it; of sessions that were not reached it says how many.
pub proof fn law_start(u: Setup, now: u64)
    requires
        u.keys@.len() == u.tabs@.len(),
    ensures
        ({
            let s = u.begun(now);
            &&& s.board.tabs == tab_views(u.tabs@)
            &&& s.board.slots.len() == u.keys@.len()
            &&& u.active < u.tabs@.len() ==> s.board.active == u.active
            &&& 0 < u.tabs@.len() <= u.active ==> s.board.active == u.tabs@.len() - 1
            &&& s.overlay == Overlay::Closed && s.menu is None && !s.copy.on && !s.quit
                && !s.close_active && !s.board.dnd && !s.board.focus
            &&& s.board.todo.len() == 0 && s.board.notices.len() == 0 && s.board.wins.len() == 0
            &&& u.offline == 0 ==> s.board.flash is None
            &&& u.offline > 0 ==> s.board.flash == Some(
                FlashView { text: offline_note(u.offline as nat, u.prefix_chord@), at: now },
            )
            &&& u.quiet_secs <= 1000000 ==> s.board.quiet_after == u.quiet_secs * 1000
            &&& s.cast.last == u.last_broadcast@ && s.port == u.port && s.metrics == u.metrics
                && s.status_bar == u.status_bar && s.board.native == u.native
            &&& s.finder.case_sensitive == u.case_sensitive && s.finder.whole_word == u.whole_word
        }),
        forall|i: int|
            0 <= i < u.tabs@.len() ==> {
                let slot = #[trigger] u.begun(now).board.slots[i];
                slot.last_output == now && slot.unread == 0 && slot.seen == fresh(now).seen
            },
{
    assert(u.tabs@.len() == u.tabs.len());
}

/// Closing the last window leaves the program, with everything written down first.
pub proof fn law_last_window_leaves(b: BoardView)
    requires
        b.wins.len() == 1,
    ensures
        ({
            let c = b.window_closed(0);
            &&& c.tabs == b.tabs && c.slots == b.slots && kept_asking(b, c)
            &&& asked(b, c, Act::SaveScrollbacks) && asked(b, c, Act::SaveTabs) && asked(
                b,
                c,
                Act::SaveMuted,
            ) && asked(b, c, Act::SavePins) && asked(b, c, Act::SaveGeometry)
            &&& c.todo.last() == Act::Exit
        }),
{
    let c = b.window_closed(0);
    let k = b.todo.len() as int;
    assert(c.todo[k] == Act::SaveScrollbacks);
    assert(c.todo[k + 1] == Act::SaveTabs);
    assert(c.todo[k + 2] == Act::SaveMuted);
    assert(c.todo[k + 3] == Act::SavePins);
    assert(c.todo[k + 4] == Act::SaveGeometry);
}

/// Closing one of several windows drops its session, and no other: every other window goes on
/// showing the session that it showed.
pub proof fn law_window_takes_its_session(b: BoardView, hi: int, j: int)
    requires
        b.slots.len() == b.tabs.len() <= usize::MAX,
        1 < b.wins.len() <= usize::MAX,
        0 <= hi < b.wins.len(),
        0 <= j < b.wins.len(),
        j != hi,
        b.wins[hi] < b.tabs.len(),
        b.wins[j] < b.tabs.len(),
        b.wins[j] != b.wins[hi],
    ensures
        ({
            let c = b.window_closed(hi);
            let at = if j < hi {
                j
            } else {
                j - 1
            };
            &&& c.wins.len() == b.wins.len() - 1
            &&& c.tabs.len() == b.tabs.len() - 1 && c.slots.len() == c.tabs.len()
            &&& same_tab(c, c.wins[at] as int, b, b.wins[j] as int)
            &&& asked(b, c, Act::Close(b.wins[hi]))
            &&& asked(b, c, Act::DropWindow(hi as usize))
            &&& asked(b, c, Act::SaveTabs)
            &&& c.win < c.wins.len()
        }),
{
    let c = b.window_closed(hi);
    let k = b.todo.len() as int;
    assert(c.todo[k] == Act::Close(b.wins[hi]));
    assert(c.todo[k + 1] == Act::DropWindow(hi as usize));
    assert(c.todo[k + 3] == Act::SaveTabs);
    let at = if j < hi {
        j
    } else {
        j - 1
    };
    assert(b.wins.remove(hi)[at] == b.wins[j]);
}

/// A window that is looked at brings its own session to the front, and changes no session.
pub proof fn law_window_is_looked_at(b: BoardView, i: int)
    requires
        0 <= i < b.wins.len() <= usize::MAX,
        i != b.win,
        b.wins[i] < b.tabs.len() <= usize::MAX,
    ensures
        b.window_focused(i).win == i,
        b.window_focused(i).active == b.wins[i],
        b.window_focused(i).tabs == b.tabs,
        b.window_focused(i).slots == b.slots,
        b.window_focused(i).wins == b.wins,
        asked(b, b.window_focused(i), Act::SaveActive),
        b.window_focused(i).todo.last() == Act::Redraw,
{
    let c = b.window_focused(i);
    assert(c.todo[b.todo.len() as int] == Act::SaveActive);
}

/// Windows too many are closed from behind, each once.
pub proof fn law_windows_are_dropped(from: nat, to: nat, k: int)
    requires
        from <= to <= usize::MAX,
        0 <= k < to - from,
    ensures
        drops(from, to).len() == to - from,
        drops(from, to)[k] == Act::DropWindow((to - 1 - k) as usize),
    decreases to - from,
{
    lemma_drops_len(from, to);
    if k > 0 {
        law_windows_are_dropped(from, (to - 1) as nat, k - 1);
        assert(drops(from, to)[k] == drops(from, (to - 1) as nat)[k - 1]);
    }
}

proof fn lemma_drops_len(from: nat, to: nat)
    requires
        from <= to,
    ensures
        drops(from, to).len() == to - from,
    decreases to - from,
{
    if from < to {
        lemma_drops_len(from, (to - 1) as nat);
    }
}

/// A turn begins with leaving where that was asked for, and with nothing else; the fleet is asked
/// for only while it is shown, and no more often than every three seconds.
pub proof fn law_turn_begins(s: ShellView, now: u64)
    ensures
        s.quit ==> s.turn_begun(now).0.board.todo == s.board.todo.push(Act::Exit) && !s.turn_begun(
            now,
        ).1,
        !s.quit ==> s.turn_begun(now).1 == !s.close_active,
        !s.quit && !s.close_active && s.overlay == Overlay::Fleet && now >= s.fleet_polled + 3000
            ==> s.turn_begun(now).0.board.todo == s.board.todo.push(Act::RefreshFleet)
            && s.turn_begun(now).0.fleet_polled == now,
        !s.quit && !s.close_active && (s.overlay != Overlay::Fleet || now < s.fleet_polled + 3000)
            ==> s.turn_begun(now).0 == s,
{
}

/// A turn ends with the next one close by while something moves, and further off while nothing
/// does; a frame is asked for just where something moves or some tab shows something else than was
/// drawn.
pub proof fn law_turn_ends(s: ShellView, shown: Seq<(usize, u64)>, now: u64)
    requires
        shown.len() == s.board.slots.len(),
    ensures
        ({
            let t = s.turn_ended(shown, now);
            &&& s.animating(now) ==> t.board.todo.last() == Act::Wait(16)
            &&& !s.animating(now) ==> t.board.todo.last() == Act::Wait(120)
            &&& t.board.todo[s.board.todo.len() as int] == Act::SweepConnections
            &&& asked(s.board, t.board, Act::Redraw) <==> s.animating(now) || exists|i: int|
                0 <= i < shown.len() && ((#[trigger] shown[i]).0 != s.board.slots[i].drawn_len
                    || shown[i].1 != s.board.slots[i].drawn_sig)
            &&& t.board.tabs == s.board.tabs
        }),
        s.animating(now) <==> s.overlay != Overlay::Closed || s.copy.on || s.menu is Some
            || s.board.tip is Some || s.board.hover is Some || s.board.flash is Some || s.live_busy
            || s.board.badged(now),
{
    let t = s.turn_ended(shown, now);
    let k = s.board.todo.len() as int;
    if s.animating(now) || s.board.changed(shown) {
        assert(t.board.todo[k + 1] == Act::Redraw);
    } else {
        assert(t.board.todo.len() == k + 2);
        assert(t.board.todo[k] == Act::SweepConnections);
        assert(t.board.todo[k + 1] == Act::Wait(120));
    }
}

/// A window without a session of its own takes the program with it; a new size is noted, and
/// written down where there is anything to see.
pub proof fn law_window_is_left(s: ShellView, hi: Option<usize>, width: usize, height: usize)
    ensures
        !s.board.native ==> s.window_left(hi).board.todo.last() == Act::Exit,
        s.board.native && hi is None ==> s.window_left(hi) == s,
        s.sized(width, height).metrics.width == width,
        s.sized(width, height).metrics.height == height,
        s.sized(width, height).board.tabs == s.board.tabs,
        width > 0 && height > 0 ==> s.sized(width, height).board.todo == s.board.todo.push(
            Act::SaveGeometry,
        ).push(Act::Redraw),
        width == 0 || height == 0 ==> s.sized(width, height).board == s.board,
{
}

/// One event of one session is announced by one notice, which names the session.
pub proof fn law_one_event(tabs: Seq<TabView>, kind: Kind, i: usize)
    ensures
        i < tabs.len() ==> notice_text(kind.text(), 1, tabs[i as int].label()) is Some && announced(
            tabs,
            seq![(kind, i)],
        ) == seq![notice_text(kind.text(), 1, tabs[i as int].label())->0],
        i >= tabs.len() ==> announced(tabs, seq![(kind, i)]).len() == 0,
{
    let events = seq![(kind, i)];
    let name = kind.text();
    let none = Seq::<(Kind, usize)>::empty();
    assert(events.drop_last() =~= none);
    assert(raised_by(none, name).len() == 0);
    assert(raised_by(events, name) =~= seq![i]);
    let list = seq![i];
    assert(list.drop_last() =~= Seq::<usize>::empty());
    assert(labels_at(tabs, list.drop_last()).len() == 0);
    let names = event_names(events);
    assert(names =~= seq![name]);
    assert(names.drop_last() =~= Seq::<Seq<char>>::empty());
    assert(firsts(names.drop_last()).len() == 0);
    assert(!listed(firsts(names.drop_last()), names.last()));
    let f = firsts(names);
    assert(f =~= seq![name]);
    assert(f.drop_last() =~= Seq::<Seq<char>>::empty());
    assert(told_all(tabs, events, f.drop_last()).len() == 0);
    if i < tabs.len() {
        let label = tabs[i as int].label();
        assert(labels_at(tabs, list) =~= seq![label]);
        assert(labels_text(seq![label]) == label);
        assert(told(tabs, events, name) == notice_text(name, 1, label));
        assert(told_all(tabs, events, f) =~= seq![notice_text(name, 1, label)->0]);
    } else {
        assert(labels_at(tabs, list).len() == 0);
    }
}

/// A notice of a kind of event tells of the sessions that raised it, and of no others.
pub proof fn law_events_are_sorted(events: Seq<(Kind, usize)>, kind: Kind, i: usize)
    ensures
        raised_by(events, kind.text()).contains(i) <==> events.contains((kind, i)),
    decreases events.len(),
{
    reveal_strlit("bell");
    reveal_strlit("busy");
    reveal_strlit("recover");
    reveal_strlit("down");
    assert("bell"@[0] == 'b' && "bell"@[1] == 'e');
    assert("busy"@[0] == 'b' && "busy"@[1] == 'u');
    assert("recover"@[0] == 'r');
    assert("down"@[0] == 'd');
    if events.len() > 0 {
        let front = events.drop_last();
        let (k, t) = events.last();
        law_events_are_sorted(front, kind, i);
        let r = raised_by(events, kind.text());
        let q = raised_by(front, kind.text());
        assert(events[events.len() - 1] == (k, t));
        if front.contains((kind, i)) {
            let x = choose|x: int| 0 <= x < front.len() && front[x] == (kind, i);
            assert(events[x] == (kind, i));
        }
        if events.contains((kind, i)) && (k, t) != (kind, i) {
            let x = choose|x: int| 0 <= x < events.len() && events[x] == (kind, i);
            assert(front[x] == (kind, i));
        }
        assert(k.text() == kind.text() <==> k == kind);
        if k == kind {
            assert(r == q.push(t));
            assert(r[q.len() as int] == t);
            if q.contains(i) {
                let x = choose|x: int| 0 <= x < q.len() && q[x] == i;
                assert(r[x] == i);
            }
            if r.contains(i) && t != i {
                let x = choose|x: int| 0 <= x < r.len() && r[x] == i;
                assert(q[x] == i);
            }
        }
    }
}

/// Paging by machine goes to the next tab of the next machine: no tab of that machine stands
/// between, and where it goes around the end none stands behind.
pub proof fn law_next_host_is_near(hosts: Seq<Seq<char>>, active: int, i: int, k: int)
    requires
        0 <= active < hosts.len(),
        next_host_tab(hosts, active) == Some(i),
        0 <= k < hosts.len(),
        hosts[k] == hosts[i],
    ensures
        0 <= i < hosts.len(),
        i > active ==> k <= active || i <= k,
        i <= active ==> i <= k <= active,
{
    crate::machines::law_next_host_is_another(hosts, active);
    let uniq = firsts(hosts);
    let cur = text_index(uniq, hosts[active], 0).unwrap();
    let target = uniq[(cur + 1) % uniq.len() as int];
    lemma_text_index(hosts, target, active + 1);
    lemma_text_index(hosts, target, 0);
    lemma_index_is_first(hosts, target, active + 1);
    lemma_index_is_first(hosts, target, 0);
}

proof fn lemma_index_is_first(s: Seq<Seq<char>>, t: Seq<char>, from: int)
    requires
        0 <= from,
    ensures
        text_index(s, t, from) matches Some(i) ==> forall|j: int|
            from <= j < i ==> #[trigger] s[j] != t,
    decreases s.len() - from,
{
    if from < s.len() && s[from] != t {
        lemma_index_is_first(s, t, from + 1);
    }
}

/// In a line in ASCII every match shows the query, letter for letter though not in the same case,
/// as wide as the query is, and wherever the query stands first there is one.
pub proof fn law_matches_show_the_query(text: Seq<char>, line: int, query: Seq<char>, m: int)
    requires
        is_ascii_chars(text),
        is_ascii_chars(query),
        query.len() > 0,
        i32::MIN <= line <= i32::MAX,
        text.len() <= usize::MAX,
        0 <= m < line_hits(text, line, query).len(),
    ensures
        ({
            let (l, col, width) = line_hits(text, line, query)[m];
            &&& l == line && width == query.len() && col + width <= text.len()
            &&& forall|j: int|
                0 <= j < query.len() ==> ascii_lower_char(#[trigger] text[col + j])
                    == ascii_lower_char(query[j])
        }),
{
    let low = lowercased(text);
    let q = lowercased(query);
    let h = hits(low, q, 0);
    law_hits_are_disjoint(low, q, 0);
    let k = h[m];
    assert(occurs(low, q, k));
    assert(low.len() == text.len() && q.len() == query.len());
    law_ascii_cells_are_columns(text, k);
    let f = line_finds(text, line, q, query.len());
    assert(f[m] == (line as i32, cell_of(text, 0, k) as usize, query.len() as usize));
    assert forall|j: int| 0 <= j < query.len() implies ascii_lower_char(#[trigger] text[k + j])
        == ascii_lower_char(query[j]) by {
        assert(low[k + j] == ascii_lower_char(text[k + j]));
        assert(q[j] == ascii_lower_char(query[j]));
        assert(low.subrange(k, k + q.len())[j] == low[k + j]);
    }
}

} // verus!
