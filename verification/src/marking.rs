//! Laws of the marks by which tabs, tiles, rows and panels tell what a session is up to.

use vstd::prelude::*;

use crate::activity::Slot;
use crate::board::BoardView;
use crate::details::{health_lines, silence_text, view_lines};
use crate::finding::kept;
use crate::geometry::{Metrics, Tiles};
use crate::lists::PALETTE_ROWS;
use crate::menu::{ctx_text, CtxAction, MenuView};
use crate::overview::{tile_lines, tile_room};
use crate::paint::Rgb;
use crate::prompts::engine_rows;
use crate::rosters::how_many;
use crate::shell::ShellView;
use crate::strokes::StrokeView;
use crate::tabs::{one_line, session_row, TabView};
use crate::text::{dec, trimmed};
use crate::triage::{law_selection_stays_visible, list_top, Engine};
use crate::words::{clipped, duration_text};

verus! {

/// Whether there is nothing to tell of a tab but what it is.
pub open spec fn plain_tab(b: BoardView, i: int) -> bool {
    !b.tabs[i].down() && !b.ringing(i) && !b.recovering(i) && b.unread(i) == 0 && !b.pinned(i)
        && !b.muted(i)
}

/// The board with one slot changed.
pub open spec fn with_slot_of(b: BoardView, i: int, s: Slot) -> BoardView {
    BoardView { slots: b.slots.update(i, s), ..b }
}

/// Each thing that there is to tell of a tab has a mark of its own on it: a bell, a recovery, the
/// lines that were not read, a pin and the mute.
pub proof fn law_tab_tells(b: BoardView, i: int, frame: u64, now: u64, n: usize)
    requires
        b.slots.len() == b.tabs.len(),
        0 <= i < b.tabs.len(),
        plain_tab(b, i),
        0 < n < 999,
    ensures
        ({
            let s = b.slots[i];
            let rest = b.tabs[i].head() + " "@ + clipped(one_line(b.tabs[i].doing()), 18);
            let rung = with_slot_of(b, i, Slot { bell_until: Some(now), ..s });
            let back = with_slot_of(b, i, Slot { recover_until: Some(now), ..s });
            let news = with_slot_of(b, i, Slot { unread: n, ..s });
            let pinned = with_slot_of(b, i, Slot { pinned: true, ..s });
            let muted = with_slot_of(b, i, Slot { muted: true, ..s });
            &&& rung.tab_front(i, false, frame) == " 🔔  "@ + rest + " "@
            &&& back.tab_front(i, false, frame) == " ↻  "@ + rest + " "@
            &&& news.tab_front(i, false, frame) == " !"@ + dec(n as nat) + " "@ + rest + " "@
            &&& pinned.tab_front(i, false, frame) == " 🔒"@ + rest + " "@
            &&& muted.tab_front(i, false, frame) == "  "@ + rest + " M "@
        }),
{
    reveal_strlit("");
    reveal_strlit(" ");
    reveal_strlit("  ");
    reveal_strlit(" M ");
    reveal_strlit("!");
    reveal_strlit(" !");
    reveal_strlit("🔒");
    reveal_strlit(" 🔒");
    reveal_strlit("🔔 ");
    reveal_strlit(" 🔔  ");
    reveal_strlit("↻ ");
    reveal_strlit(" ↻  ");
    let s = b.slots[i];
    let t = b.tabs[i];
    let rest = t.head() + " "@ + clipped(one_line(t.doing()), 18);
    let rung = with_slot_of(b, i, Slot { bell_until: Some(now), ..s });
    let back = with_slot_of(b, i, Slot { recover_until: Some(now), ..s });
    let news = with_slot_of(b, i, Slot { unread: n, ..s });
    let pinned = with_slot_of(b, i, Slot { pinned: true, ..s });
    let muted = with_slot_of(b, i, Slot { muted: true, ..s });
    assert(rung.tab_front(i, false, frame) =~= " 🔔  "@ + rest + " "@);
    assert(back.tab_front(i, false, frame) =~= " ↻  "@ + rest + " "@);
    assert(news.tab_front(i, false, frame) =~= " !"@ + dec(n as nat) + " "@ + rest + " "@);
    assert(pinned.tab_front(i, false, frame) =~= " 🔒"@ + rest + " "@);
    assert(muted.tab_front(i, false, frame) =~= "  "@ + rest + " M "@);
}

/// The same marks on a tile and in the triage list; of a row that is selected nothing is new.
pub proof fn law_badges(b: BoardView, i: int, now: u64, n: usize)
    requires
        b.slots.len() == b.tabs.len(),
        0 <= i < b.tabs.len(),
        plain_tab(b, i),
        b.tabs[i].pending == 0,
        0 < n < 999,
    ensures
        ({
            let s = b.slots[i];
            let back = with_slot_of(b, i, Slot { recover_until: Some(now), ..s });
            let news = with_slot_of(b, i, Slot { unread: n, ..s });
            let pinned = with_slot_of(b, i, Slot { pinned: true, ..s });
            let muted = with_slot_of(b, i, Slot { muted: true, ..s });
            &&& b.badges(i, false) == ""@ && b.badges(i, true) == ""@
            &&& back.badges(i, false) == " ↻"@ && back.badges(i, true) == " ↻"@
            &&& news.badges(i, false) == " · !"@ + dec(n as nat) && news.badges(i, true) == ""@
            &&& pinned.badges(i, false) == "🔒"@
            &&& muted.badges(i, false) == " M"@
            &&& b.tile_marks(i, true, now) == ""@ && b.tile_front(i, true, now) == ""@
            &&& back.tile_marks(i, true, now) == "↻"@
            &&& pinned.tile_marks(i, true, now) == "🔒"@
            &&& muted.tile_marks(i, true, now) == "M"@ && muted.tile_front(i, true, now) == "M "@
        }),
{
    reveal_strlit("");
    reveal_strlit(" ");
    reveal_strlit("M");
    reveal_strlit("M ");
    let s = b.slots[i];
    let back = with_slot_of(b, i, Slot { recover_until: Some(now), ..s });
    let news = with_slot_of(b, i, Slot { unread: n, ..s });
    let pinned = with_slot_of(b, i, Slot { pinned: true, ..s });
    let muted = with_slot_of(b, i, Slot { muted: true, ..s });
    assert(b.badges(i, false) =~= ""@ && b.badges(i, true) =~= ""@);
    assert(back.badges(i, false) =~= " ↻"@ && back.badges(i, true) =~= " ↻"@);
    assert(news.badges(i, false) =~= " · !"@ + dec(n as nat) && news.badges(i, true) =~= ""@);
    assert(pinned.badges(i, false) =~= "🔒"@);
    assert(muted.badges(i, false) =~= " M"@);
    assert(b.tile_marks(i, true, now) =~= ""@);
    assert(back.tile_marks(i, true, now) =~= "↻"@);
    assert(pinned.tile_marks(i, true, now) =~= "🔒"@);
    assert(muted.tile_marks(i, true, now) =~= "M"@);
    assert(muted.tile_front(i, true, now) =~= "M "@);
}

/// A tile is headed by the session's number, counted from one, its machine, whether it is marked,
/// and what it is called; the one in focus has an arrow.
pub proof fn law_tile_head(b: BoardView, i: int, now: u64)
    requires
        b.slots.len() == b.tabs.len(),
        0 <= i < b.tabs.len(),
        plain_tab(b, i),
        b.tabs[i].pending == 0,
        b.tabs[i].seen.pty,
    ensures
        !b.slots[i].mark ==> b.tile_head(i, true, now) == "  "@ + dec((i + 1) as nat) + "  "@
            + b.tabs[i].head() + " ◄"@ + " "@,
        b.slots[i].mark ==> b.tile_head(i, true, now) == "  "@ + dec((i + 1) as nat) + " ●"@ + "  "@
            + b.tabs[i].head() + " ◄"@ + " "@,
{
    reveal_strlit("");
    let t = b.tabs[i];
    assert(b.tile_marks(i, true, now) =~= ""@);
    assert(t.whereabouts() =~= Seq::<char>::empty());
    if b.slots[i].mark {
        assert(b.tile_head(i, true, now) =~= "  "@ + dec((i + 1) as nat) + " ●"@ + "  "@ + t.head()
            + " ◄"@ + " "@);
    } else {
        assert(b.tile_head(i, true, now) =~= "  "@ + dec((i + 1) as nat) + "  "@ + t.head() + " ◄"@
            + " "@);
    }
}

/// The lines on a tile stand one below the other, up to three, the oldest on top.
pub proof fn law_tile_lines(
    m: Metrics,
    t: Tiles,
    x: int,
    y: int,
    tail: Seq<Seq<char>>,
    fg: Rgb,
    k: int,
)
    requires
        0 <= k < tail.len() <= 3,
    ensures
        tile_lines(m, t, (x, y), tail, fg).len() == tail.len(),
        tile_lines(m, t, (x, y), tail, fg)[tail.len() - 1 - k] matches StrokeView::Text(s, a, b, c)
            && s == clipped(tail[k], tile_room(m, t)) && c == fg,
{
}

/// The preview of a tab starts with its name and what it is doing, and says whether it is live,
/// pinned or muted.
pub proof fn law_tip_head(b: BoardView, i: int)
    requires
        0 <= i < b.tabs.len(),
    ensures
        ({
            let t = b.tabs[i];
            let who = " "@ + t.head() + " · "@ + t.doing() + " · "@;
            &&& t.seen.alive && !b.pinned(i) && !b.muted(i) ==> b.tip_head(i) == who + "● live"@
            &&& !t.seen.alive && !b.pinned(i) && !b.muted(i) ==> b.tip_head(i) == who + "○ down"@
            &&& t.seen.alive && b.pinned(i) && !b.muted(i) ==> b.tip_head(i) == who + "● live"@
                + " · pinned🔒"@
            &&& t.seen.alive && !b.pinned(i) && b.muted(i) ==> b.tip_head(i) == who + "● live"@
                + " · muted"@
        }),
{
    reveal_strlit("");
    let t = b.tabs[i];
    let who = " "@ + t.head() + " · "@ + t.doing() + " · "@;
    if !b.pinned(i) && !b.muted(i) {
        assert(t.seen.alive ==> b.tip_head(i) =~= who + "● live"@);
        assert(!t.seen.alive ==> b.tip_head(i) =~= who + "○ down"@);
    }
}

/// A session's line in the status bar: its machine, its name, what it is doing, how it is
/// connected, and how many lines it has.
pub proof fn law_status_note(t: TabView)
    requires
        t.seen.alive,
    ensures
        t.status_note() == " "@ + t.host + " · "@ + t.head() + " · "@ + t.doing() + " · ["@ + t.kind
            + " "@ + "●"@ + "] · "@ + dec(t.seen.history as nat) + " ln"@,
{
}

/// A session's row in the list of a machine's sessions starts with its mark; it says how long it
/// has waited only where it is not down.
pub proof fn law_session_row(t: TabView, i: int, secs: u64)
    requires
        t.seen.pty,
        t.live_title is None,
        0 <= i,
    ensures
        ({
            let who = " "@ + t.engine + " ("@ + dec((i + 1) as nat) + ")"@ + " · "@ + t.head();
            &&& t.seen.alive ==> session_row(t, i, None) == "●"@ + who
            &&& !t.seen.alive ==> session_row(t, i, None) == "○"@ + who
            &&& t.seen.alive ==> session_row(t, i, Some(secs)) == "●"@ + who + " · ⌛"@
                + duration_text(secs as int)
        }),
{
    let who = " "@ + t.engine + " ("@ + dec((i + 1) as nat) + ")"@ + " · "@ + t.head();
    assert(t.whereabouts() =~= Seq::<char>::empty());
    assert(t.live_part() =~= Seq::<char>::empty());
    assert(t.seen.alive ==> session_row(t, i, None) =~= "●"@ + who);
    assert(!t.seen.alive ==> session_row(t, i, None) =~= "○"@ + who);
    assert(t.seen.alive ==> session_row(t, i, Some(secs)) =~= "●"@ + who + " · ⌛"@ + duration_text(
        secs as int,
    ));
}

/// The panel on a session tells why it is down where that is known, how old it is, how long a
/// living pane has been silent, and what waits to be sent.
pub proof fn law_health(t: TabView, s: Slot, now: u64)
    ensures
        ({
            let l = health_lines(t, s, now);
            let why = t.down_reason is Some && trimmed(t.down_reason->0).len() > 0;
            let age = "  age        "@ + duration_text(t.age_secs as int);
            &&& why ==> l[0] == "  reason     "@ + t.down_reason->0 && l[1] == age
            &&& !why ==> l[0] == age
            &&& !why && t.seen.alive && !t.seen.pty ==> l[1] == "  silence    "@
                + silence_text(s, now)
            &&& t.pending > 0 ==> l.last() == "  queued     ⏳"@ + dec(t.pending as nat)
                + "B staged, flush on reconnect"@
            &&& !why && t.pending == 0 && t.seen.pty ==> l.len() == 1
        }),
        now <= s.last_output ==> silence_text(s, now) == "now"@,
        now >= s.last_output + 1000 && s.seen is Some ==> silence_text(s, now) == "quiet "@
            + duration_text((now - s.last_output) / 1000),
{
}

/// The panel on a session tells whether its view is held, and how it is shielded.
pub proof fn law_view_is_told(b: BoardView, i: int)
    requires
        0 <= i < b.tabs.len(),
    ensures
        b.tabs[i].scrolled ==> view_lines(b, i)[0] == "  view       "@ + "scrolled into history"@,
        !b.tabs[i].scrolled ==> view_lines(b, i)[0] == "  view       "@ + "live follow (bottom)"@,
        !b.pinned(i) && !b.muted(i) ==> view_lines(b, i)[2] == "  protec     "@ + "none"@,
        b.tabs[i].live_title matches Some(t) ==> view_lines(b, i)[3] == "  task       "@ + t,
{
}

/// Where a pane is down, what needs attention stands in red; else in grey.
pub proof fn law_trouble_is_red(s: ShellView, busy: Seq<bool>, now: u64)
    requires
        s.board.triage_text(busy, now).len() > 0,
    ensures
        s.triage_strokes(busy, now).len() == 1,
        s.triage_strokes(busy, now)[0] matches StrokeView::Text(t, x, y, c) && t
            == s.board.triage_text(busy, now) && c == if how_many(s.board.down_mask()) > 0 {
            (0xf0u8, 0x6au8, 0x6au8)
        } else {
            (0x66u8, 0x66u8, 0x66u8)
        },
{
}

/// A row of the context menu says what it is for; the one in focus has a bar behind it; a line
/// between rows says nothing.
pub proof fn law_menu_rows(menu: MenuView, i: int, y: int, row_h: int)
    requires
        0 <= i < menu.items.len(),
    ensures
        ({
            let p = menu.row_strokes(i, y, row_h);
            let a = menu.items[i];
            &&& a == CtxAction::Separator ==> p.len() == 1 && p[0] is Fill
            &&& a != CtxAction::Separator && i == menu.sel ==> p.len() == 2 && p[0] is Fill
            &&& a != CtxAction::Separator && i != menu.sel ==> p.len() == 1
            &&& a != CtxAction::Separator ==> (p.last() matches StrokeView::Text(t, tx, ty, c) && t
                == ctx_text(a))
        }),
        ctx_text(CtxAction::Copy) == "Copy"@,
        ctx_text(CtxAction::Paste) == "Paste"@,
        ctx_text(CtxAction::Interrupt) == "Interrupt (Ctrl-C)"@,
        ctx_text(CtxAction::Reconnect) == "Reconnect"@,
        ctx_text(CtxAction::CloseTab) == "Close Tab"@,
{
}

/// In the list of engines the selected one is lit, and its description stands below the list.
pub proof fn law_engine_rows(
    engines: Seq<Engine>,
    present: Seq<bool>,
    first: int,
    selected: usize,
    i: int,
)
    requires
        0 <= i < engines.len(),
    ensures
        ({
            let p = engine_rows(engines, present, first, selected);
            &&& p[i].lit <==> i == selected
            &&& selected < engines.len() ==> p.len() == engines.len() + 1 && p.last().text
                == "      "@ + engines[selected as int].label@ + " — "@
                    + engines[selected as int].desc@
            &&& selected >= engines.len() ==> p.len() == engines.len()
        }),
{
}

/// In the command palette a row shows the action that it stands for, and the selected one is lit.
pub proof fn law_palette_lines(s: ShellView, k: int)
    requires
        0 <= k < s.cmd.shown.len(),
        k < 12,
    ensures
        s.cmd.panel()[k + 1].lit <==> k == s.cmd.sel,
        s.cmd.panel()[k + 1].text == "  "@ + PALETTE_ROWS@[s.cmd.shown[k]].0@ + "  "@ + (if k
            == s.cmd.sel {
            "◄"@
        } else {
            ""@
        }),
{
}

/// In the list of machines, and in that of the targets of a broadcast, the selected row is in view
/// and stands out.
pub proof fn law_selected_rows(s: ShellView)
    requires
        s.board.tabs.len() > 0,
        s.cast.sel < s.board.tabs.len(),
        s.hosts_sel < s.board.host_list().len(),
    ensures
        ({
            let p = s.cast_panel();
            let at = 1 + s.cast.sel - list_top(s.board.tabs.len() as int, s.cast.sel as int, 20);
            &&& 1 <= at < p.len()
            &&& p[at].color == (0xffu8, 0xffu8, 0xffu8)
            &&& p[at].text == s.board.cast_row(s.cast.sel as int, 0, true).text
        }),
        ({
            let p = s.hosts_panel();
            let n = s.board.host_list().len() as int;
            let at = 1 + s.hosts_sel - list_top(n, s.hosts_sel as int, 20);
            &&& 1 <= at < p.len()
            &&& p[at].lit
            &&& p[at].text == s.board.host_row(
                s.board.host_list()[s.hosts_sel as int],
                0,
                true,
            ).text
        }),
{
    law_selection_stays_visible(s.board.tabs.len() as int, s.cast.sel as int, 20);
    let n = s.board.host_list().len() as int;
    law_selection_stays_visible(n, s.hosts_sel as int, 20);
    assert(kept(s.hosts_sel, s.board.host_list().len()) == s.hosts_sel);
}

/// What stands above the triage list: how many panes are down and how many are back, and that the
/// fleet is healthy where neither is.
pub proof fn law_triage_heading(s: ShellView)
    requires
        !s.peek.filtering,
    ensures
        ({
            let keys =
                "↑/↓ preview · PgUp/Dn page · n down · r reconnect · m mute · p pin · x close · Enter jump · Esc close  "@;
            let down = how_many(s.board.down_mask());
            let back = how_many(s.board.recovery_mask());
            &&& down == 0 && back == 0 ==> s.peek_heading() == "  peek · "@ + "fleet healthy · "@
                + keys
            &&& down > 0 && back == 0 ==> s.peek_heading() == "  peek · "@ + (dec(down)
                + " down · "@) + keys
            &&& down == 0 && back > 0 ==> s.peek_heading() == "  peek · "@ + (dec(back)
                + " reconnected · "@) + keys
        }),
{
}

} // verus!
