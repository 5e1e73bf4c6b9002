//! Laws of the small notes in lists, headings and panels.

use vstd::prelude::*;

use crate::board::BoardView;
use crate::geometry::Metrics;
use crate::machines::machine;
use crate::menu::row_height;
use crate::rosters::{first_reason, hit_snippet, machine_tag, queue_note, row_color};
use crate::shell::{Overlay, ShellView};
use crate::strip::{tab_cross, StripView};
use crate::strokes::StrokeView;
use crate::tabs::{labels_at, TabView};
use crate::text::{dec, trimmed};
use crate::triaging::alive_among;
use crate::words::{duration_text, no_match_text};

verus! {

/// That a view is held is told with how far back it is, and nothing is told of one that follows.
pub proof fn law_scroll_note(b: BoardView)
    requires
        b.active < b.tabs.len(),
    ensures
        !b.tabs[b.active as int].scrolled ==> b.scroll_note() == ""@,
        b.tabs[b.active as int].scrolled ==> b.scroll_note() == "  ▾ "@ + dec(
            b.scroll_percent() as nat,
        ) + "% (Esc/b to bottom)"@,
{
}

/// A machine goes by the first six characters of its number, and one without a number is unknown.
pub proof fn law_machine_tags(id: Seq<char>)
    ensures
        id.len() == 0 ==> machine_tag(id) == "unknown"@,
        0 < id.len() <= 6 ==> machine_tag(id) == id,
        id.len() > 6 ==> machine_tag(id) == id.take(6),
{
}

/// What has to wait of a broadcast is told just where anything has to.
pub proof fn law_queue_note(n: nat)
    ensures
        n == 0 ==> queue_note(n) == ""@,
        n > 0 ==> queue_note(n) == " · ⏳"@ + dec(n) + " queued"@,
{
}

/// Which line of the history is recalled is told, counted from one.
pub proof fn law_recall_note(s: ShellView)
    ensures
        s.cast.recall is None ==> s.cast.recall_note() == ""@,
        s.cast.recall is Some && s.cast.history.len() > 0 ==> s.cast.recall_note() == " ⇧↑ "@ + dec(
            (s.cast.recall->0 + 1) as nat,
        ) + "/"@ + dec(s.cast.history.len()),
{
}

/// The full name of a session has its agent behind the name that hides it, and its machine last.
pub proof fn law_full_names(t: TabView)
    ensures
        t.name is None ==> t.full_name() == t.engine,
        t.name matches Some(n) ==> n != t.engine ==> t.full_name() == n + " ("@ + t.engine + ")"@,
        t.host.len() == 0 ==> t.full_label() == t.full_name(),
        t.host.len() > 0 ==> t.full_label() == t.full_name() + "@"@ + t.host,
{
}

/// A line that was found is shown around the match; one that is blank is called so.
pub proof fn law_found_lines(raw: Seq<char>, col: usize, room: int)
    ensures
        trimmed(raw).len() == 0 ==> hit_snippet(raw, col, room) == "(blank line)"@,
        trimmed(raw).len() > 0 && crate::text::trim_back(raw).len() <= room ==> hit_snippet(
            raw,
            col,
            room,
        ) == crate::text::trim_back(raw),
{
}

/// A machine is dark for the reason that the first of its panes knows that is down and knows one.
pub proof fn law_dark_reason(tabs: Seq<TabView>, host: Seq<char>, from: int, k: int)
    requires
        0 <= from <= k <= tabs.len(),
        forall|j: int|
            from <= j < k ==> machine((#[trigger] tabs[j]).host) != host || tabs[j].seen.alive
                || tabs[j].seen.pty || tabs[j].down_reason is None,
    ensures
        k < tabs.len() && machine(tabs[k].host) == host && !tabs[k].seen.alive && !tabs[k].seen.pty
            && tabs[k].down_reason is Some ==> first_reason(tabs, host, from)
            == tabs[k].down_reason,
        k == tabs.len() ==> first_reason(tabs, host, from) is None,
    decreases k - from,
{
    if from < k {
        assert(machine(tabs[from].host) != host || tabs[from].seen.alive || tabs[from].seen.pty
            || tabs[from].down_reason is None);
        law_dark_reason(tabs, host, from + 1, k);
    }
}

/// How long a session has waited is told of one that waits and is not down, in the triage list and
/// in that of a machine's sessions.
pub proof fn law_waiting_is_told(b: BoardView, i: int, now: u64)
    requires
        0 <= i < b.tabs.len(),
    ensures
        b.tabs[i].down() ==> b.wait_tag(i, now) == ""@,
        !b.waits(i, now) ==> b.wait_tag(i, now) == ""@ && b.wait_secs(i, now) is None,
        !b.tabs[i].down() && b.waits(i, now) ==> b.wait_tag(i, now) == " · ⌛"@ + duration_text(
            b.parked(i, now),
        ),
        b.waits(i, now) && b.parked(i, now) <= u64::MAX ==> b.wait_secs(i, now) is Some,
{
}

/// Why a pane is down is told only where it is: in the triage list, on its tile and in the summary.
pub proof fn law_reasons_are_told(t: TabView)
    ensures
        !t.down() ==> t.reason_tag() == ""@ && t.tile_reason() == ""@,
        t.down() && t.reason().len() <= 22 ==> t.reason_tag() == " ○ "@ + t.reason(),
        t.down() && trimmed(t.reason()).len() > 0 ==> t.tile_reason() == " ("@ + trimmed(t.reason())
            + ")"@,
        t.down_reason matches Some(r) ==> 0 < trimmed(r).len() <= 60 ==> t.trouble(60) == trimmed(r),
        t.down_reason is None ==> t.reason() == "reconnecting…"@,
        t.down_reason matches Some(r) ==> t.reason() == r,
{
}

/// Up to ten rows of the triage list are in view; the selected one is white, one that is down red.
pub proof fn law_triage_rows(s: ShellView, i: int)
    requires
        0 <= i < s.board.tabs.len(),
    ensures
        ({
            let n = s.peek.shown.len() as int;
            let top = s.peek.scroll as int;
            &&& top >= n ==> s.peek_rows() == 0
            &&& top < n && n - top <= 10 ==> s.peek_rows() == n - top
            &&& n - top > 10 ==> s.peek_rows() == 10
        }),
        s.board.peek_color(i, true) == (0xffu8, 0xffu8, 0xffu8),
        s.board.tabs[i].down() ==> s.board.peek_color(i, false) == (0xf0u8, 0x6au8, 0x6au8),
        !s.board.tabs[i].down() ==> s.board.peek_color(i, false) == (0x66u8, 0x66u8, 0x66u8),
        row_color(true) == (0xffu8, 0xffu8, 0xffu8),
        row_color(false) == (0x66u8, 0x66u8, 0x66u8),
{
}

/// A search without result in copy mode names what was searched for, where that is not blank.
pub proof fn law_no_match(q: Seq<char>)
    ensures
        trimmed(q).len() == 0 ==> no_match_text(q) == "copy: no match"@,
        0 < trimmed(q).len() <= 40 ==> no_match_text(q) == "copy: no match /"@ + trimmed(q),
{
}

/// The field for a new name shows what is typed, and an explanation while nothing is.
pub proof fn law_rename_field(s: ShellView)
    ensures
        s.rename_panel().len() == 2,
        s.rename.len() == 0 ==> (s.rename_panel()[1] matches StrokeView::Text(t, x, y, c) && t
            == "  rename tab: (type a name, Enter keeps, Esc cancels)  "@),
        s.rename.len() > 0 ==> (s.rename_panel()[1] matches StrokeView::Text(t, x, y, c) && t
            == "  rename tab: "@ + s.rename + " ▏"@),
{
}

/// The picker shows the directory that is typed, and the field for a machine the machine.
pub proof fn law_fields_are_shown(
    s: ShellView,
    engines: Seq<crate::triage::Engine>,
    present: Seq<bool>,
)
    ensures
        s.new_cwd.len() > 0 ==> s.new_session_panel(engines, present)[2].text == "  dir: "@
            + s.new_cwd,
        s.remote_panel(engines)[1].text == "  host[:port] "@ + s.remote,
{
}

/// The tiles fit the window: no more columns than tiles, at least one, and all of them within the
/// window's width.
pub proof fn law_tiles_fit(m: Metrics, hidden: bool, n: int)
    requires
        1 <= n <= usize::MAX,
        m.cell_w > 0,
        m.width >= 16,
        m.cell_w * 12 < usize::MAX,
    ensures
        ({
            let t = m.tiles(hidden, n);
            &&& 1 <= t.cols <= n
            &&& t.cols * t.tw <= m.width - 16
            &&& t.n == n && t.x0 == 8 && t.height == m.height
            &&& t.cols > 1 ==> t.tw >= 12 * m.cell_w
        }),
{
    let unit = m.cell_w * 12;
    let room = m.width - 16;
    let fit = room / unit;
    let cols = m.tile_cols(n);
    vstd::arithmetic::div_mod::lemma_div_pos_is_pos(room, unit);
    assert(1 <= cols <= n);
    vstd::arithmetic::div_mod::lemma_fundamental_div_mod(room, cols);
    vstd::arithmetic::div_mod::lemma_mod_bound(room, cols);
    vstd::arithmetic::div_mod::lemma_div_pos_is_pos(room, cols);
    vstd::arithmetic::div_mod::lemma_div_is_ordered_by_denominator(room, 1, cols);
    assert(room / 1 == room);
    if cols > 1 {
        assert(cols <= fit);
        vstd::arithmetic::div_mod::lemma_fundamental_div_mod(room, unit);
        vstd::arithmetic::div_mod::lemma_mod_bound(room, unit);
        assert(unit * cols <= room) by (nonlinear_arith)
            requires
                cols <= fit,
                unit * fit <= room,
                0 < unit,
        ;
        let q = room / cols;
        assert(q >= unit) by (nonlinear_arith)
            requires
                unit * cols <= room,
                room < cols * q + cols,
                0 < cols,
        ;
    }
}

/// The labels of the tabs listed are told in their order, and tabs that are gone are left out.
pub proof fn law_labels_of_tabs(tabs: Seq<TabView>, list: Seq<usize>, i: usize)
    ensures
        labels_at(tabs, Seq::empty()).len() == 0,
        i < tabs.len() ==> labels_at(tabs, list.push(i)) == labels_at(tabs, list).push(
            tabs[i as int].label(),
        ),
        i >= tabs.len() ==> labels_at(tabs, list.push(i)) == labels_at(tabs, list),
{
    assert(list.push(i).drop_last() =~= list);
}

/// Only the tab under the pointer has a closing mark, at its end.
pub proof fn law_tab_cross(m: Metrics, s: StripView, end: usize, active: bool)
    requires
        s.cross + 2 <= end,
    ensures
        tab_cross(m, s, end as int, active, false).len() == 0,
        tab_cross(m, s, end as int, active, true).len() == 1,
        tab_cross(m, s, end as int, active, true)[0] matches StrokeView::Text(t, x, y, c) && t
            == "×"@ && x == end - s.cross - 2,
{
}

/// A click in the context menu does what the row under the pointer says, and closes the menu
/// whether there is a row or not.
pub proof fn law_menu_click(s: ShellView, now: u64)
    requires
        s.menu is Some,
    ensures
        s.menu_clicked(now).menu is None,
        s.menu->0.action_at(
            row_height(s.metrics.cell_h as int),
            s.mouse.x as int,
            s.mouse.y as int,
        ) is None ==> s.menu_clicked(now).board.tabs == s.board.tabs && s.menu_clicked(
            now,
        ).board.slots == s.board.slots,
        s.menu->0.action_at(
            row_height(s.metrics.cell_h as int),
            s.mouse.x as int,
            s.mouse.y as int,
        ) matches Some(a) ==> s.menu_clicked(now).board.tabs == s.menu_run(a, now).board.tabs,
{
    reveal(ShellView::menu_clicked);
}

/// The session whose last lines are shown is the selected one of the triage list, or of a machine's
/// sessions; any other overlay shows none.
pub proof fn law_previewed_session(s: ShellView, h: Seq<char>)
    ensures
        s.overlay == Overlay::Peek && s.peek.sel < s.peek.shown.len() ==> s.previewed() == Some(
            s.peek.shown[s.peek.sel as int],
        ),
        s.overlay == Overlay::Hosts && s.hosts_host == Some(h) && s.hosts_sel < s.board.on_host(
            h,
        ).len() ==> s.previewed() == Some(s.board.on_host(h)[s.hosts_sel as int]),
        s.overlay == Overlay::Hosts && s.hosts_host is None ==> s.previewed() is None,
        s.overlay == Overlay::Closed || s.overlay == Overlay::Find ==> s.previewed() is None,
{
}

/// A place of the live screen under the pointer is where the view follows the output, and within
/// the session's columns.
pub proof fn law_live_cell(s: ShellView, x: int, y: int, r: int, c: int)
    requires
        s.live_cell(x, y) == Some((r, c)),
    ensures
        s.board.active < s.board.tabs.len(),
        !s.board.tabs[s.board.active as int].scrolled,
        r < s.board.tabs[s.board.active as int].lines,
        c < s.board.tabs[s.board.active as int].cols,
        s.cell(x, y) matches Some(p) && p.0 == r && c <= p.1,
{
}

/// A broadcast is confirmed by how many living sessions got it, and how many have to wait for it.
pub proof fn law_broadcast_is_confirmed(s: ShellView, list: Seq<int>, i: int)
    requires
        0 <= i < s.board.tabs.len(),
    ensures
        alive_among(s.board.tabs, Seq::empty()) == 0,
        s.board.tabs[i].seen.alive ==> alive_among(s.board.tabs, list.push(i)) == alive_among(
            s.board.tabs,
            list,
        ) + 1,
        !s.board.tabs[i].seen.alive ==> alive_among(s.board.tabs, list.push(i)) == alive_among(
            s.board.tabs,
            list,
        ),
        s.cast_note(seq![i]) == (if s.board.tabs[i].seen.alive {
            "broadcast to "@ + dec(1)
        } else {
            "broadcast to "@ + dec(0) + " · "@ + dec(1) + " queued on reconnect"@
        }),
{
    assert(list.push(i).drop_last() =~= list);
    let one = seq![i];
    assert(one.drop_last() =~= Seq::<int>::empty());
    assert(alive_among(s.board.tabs, one.drop_last()) == 0);
    assert(one.last() == i);
}

} // verus!
