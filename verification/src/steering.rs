//! Laws of the keys that steer: through the triage list, the fleet grid, the machines, the context
//! menu and the view, and of the prefix.

use vstd::prelude::*;

use crate::board::{Act, BoardView, FlashView};
use crate::effects::law_tab_is_gone_to;
use crate::gestures::{bare, keyed};
use crate::keys::{KeyView, Mods, NamedKey};
use crate::menu::{item_mask, CtxAction, MenuView};
use crate::shell::{Overlay, ShellView};
use crate::triage::{law_next_set, next_set, prev_set};

verus! {

/// In the triage list the arrow keys go one row down or up and the page keys ten, none of them
/// leaves the list, and the selected row stays in view.
pub proof fn law_triage_walks(s: ShellView, now: u64)
    requires
        s.overlay == Overlay::Peek,
        s.peek_refreshed(now).peek.shown.len() > 0,
        s.board.tabs.len() < 1000000,
        s.peek_refreshed(now).peek.shown.len() <= s.board.tabs.len(),
    ensures
        ({
            let p = s.peek_refreshed(now).peek;
            let n = p.shown.len();
            let k = p.sel as int;
            let pressed = |key: NamedKey| keyed(s, KeyView::Named(key), bare(), now).peek;
            let down = pressed(NamedKey::ArrowDown);
            let up = pressed(NamedKey::ArrowUp);
            let page = pressed(NamedKey::PageDown);
            &&& k + 1 < n ==> down.sel == k + 1
            &&& k + 1 == n ==> down.sel == k
            &&& k > 0 ==> up.sel == k - 1
            &&& k == 0 ==> up.sel == 0
            &&& k + 10 < n ==> page.sel == k + 10
            &&& k + 10 >= n ==> page.sel == n - 1
            &&& pressed(NamedKey::PageUp).sel == if k >= 10 {
                k - 10
            } else {
                0
            }
            &&& pressed(NamedKey::Tab) == down
            &&& p.scroll <= k < p.scroll + 10 ==> down.scroll <= down.sel < down.scroll + 10
                && up.scroll <= up.sel < up.scroll + 10
            &&& down.shown == p.shown && up.shown == p.shown
        }),
{
    reveal(ShellView::overlay_keyed);
    reveal(ShellView::peek_keyed);
}

/// In the triage list n goes to the next row whose pane is down, and stays where there is none.
pub proof fn law_triage_finds_down(s: ShellView, now: u64)
    requires
        s.overlay == Overlay::Peek,
        !s.peek_refreshed(now).peek.filtering,
        0 < s.peek_refreshed(now).peek.shown.len() <= usize::MAX,
        s.peek_refreshed(now).peek.sel < s.peek_refreshed(now).peek.shown.len(),
    ensures
        ({
            let p = s.peek_refreshed(now).peek;
            let t = s.peek_refreshed(now).peek_at_down().peek;
            let down = |k: int| s.board.tabs[p.shown[k]].down();
            &&& (exists|k: int| 0 <= k < p.shown.len() && #[trigger] s.board.tabs[p.shown[k]].down())
                ==> t.sel < p.shown.len() && down(t.sel as int)
            &&& !(exists|k: int| 0 <= k < p.shown.len() && #[trigger] s.board.tabs[p.shown[k]].down())
                ==> t == p
        }),
{
    let u = s.peek_refreshed(now);
    let p = u.peek;
    let downs = p.shown.map_values(|i: int| u.board.tabs[i].down());
    assert forall|k: int| 0 <= k < downs.len() implies #[trigger] downs[k]
        == s.board.tabs[p.shown[k]].down() by {}
    law_next_set(downs, p.sel as int, 0);
    if exists|k: int| 0 <= k < p.shown.len() && #[trigger] s.board.tabs[p.shown[k]].down() {
        let k = choose|k: int| 0 <= k < p.shown.len() && #[trigger] s.board.tabs[p.shown[k]].down();
        assert(downs[k]);
        law_next_set(downs, p.sel as int, k);
    }
}

/// In the fleet grid n goes to the next pane that is down, and where none is to the next that is
/// busy; N goes back; where all is well it says so.
pub proof fn law_grid_finds_trouble(s: ShellView, now: u64, forward: bool)
    requires
        s.board.wf(),
        s.board.tabs.len() > 0,
    ensures
        ({
            let b = s.board;
            let at = s.grid_sel as int;
            let down = if forward {
                next_set(b.down_mask(), at, 1)
            } else {
                prev_set(b.down_mask(), at, 1)
            };
            let busy = if forward {
                next_set(b.busy_mask(now), at, 1)
            } else {
                prev_set(b.busy_mask(now), at, 1)
            };
            let t = s.at_trouble(forward, now);
            &&& down matches Some(i) ==> t.grid_sel == i as usize
            &&& down is None && busy is Some ==> t.grid_sel == busy->0 as usize
            &&& down is None && busy is None ==> t.grid_sel == s.grid_sel && t.board.flash == Some(
                FlashView { text: "fleet healthy — no down or busy panes"@, at: now },
            )
            &&& t.board.tabs == b.tabs
        }),
        s.overlay == Overlay::FleetGrid ==> keyed(s, KeyView::Character(seq!['n']), bare(), now)
            == s.at_trouble(true, now) && keyed(s, KeyView::Character(seq!['N']), bare(), now)
            == s.at_trouble(false, now),
{
    reveal(ShellView::overlay_keyed);
    reveal(ShellView::grid_keyed);
    reveal(BoardView::pulsed);
}

/// In the list of machines the enter key goes to the first tab of the selected machine, the right
/// arrow looks into a machine with more than one session, and the escape key leaves; looking into a
/// machine, enter goes to the selected session, and the left arrow and the escape key go back.
pub proof fn law_machine_list(s: ShellView, now: u64, h: Seq<char>)
    requires
        s.board.wf(),
        !s.board.native,
        s.overlay == Overlay::Hosts,
        forall|k: int|
            0 <= k < s.board.on_host(h).len() ==> 0 <= #[trigger] s.board.on_host(h)[k]
                < s.board.tabs.len(),
    ensures
        s.hosts_host is None && s.hosts_sel < s.board.host_list().len()
            && s.board.host_list()[s.hosts_sel as int] == h && s.board.on_host(h).len() > 0
            ==> s.host_taken(now).overlay == Overlay::Closed && s.host_taken(now).board.active
            == s.board.on_host(h)[0],
        s.hosts_host == Some(h) && s.hosts_sel < s.board.on_host(h).len() ==> s.host_taken(
            now,
        ).overlay == Overlay::Closed && s.host_taken(now).board.active == s.board.on_host(
            h,
        )[s.hosts_sel as int],
        ({
            let esc = keyed(s, KeyView::Named(NamedKey::Escape), bare(), now);
            let left = keyed(s, KeyView::Named(NamedKey::ArrowLeft), bare(), now);
            let right = keyed(s, KeyView::Named(NamedKey::ArrowRight), bare(), now);
            &&& s.hosts_host is None ==> esc.overlay == Overlay::Closed && left == s
            &&& s.hosts_host is Some ==> esc.hosts_host is None && esc.overlay == s.overlay && left
                == esc && right == s
            &&& s.hosts_host is None && s.hosts_sel < s.board.host_list().len()
                && s.board.host_list()[s.hosts_sel as int] == h && s.board.on_host(h).len() > 1
                ==> right.hosts_host == Some(h) && right.hosts_sel == 0
        }),
{
    reveal(ShellView::overlay_keyed);
    reveal(ShellView::hosts_keyed);
    reveal(ShellView::host_taken);
    let list = s.board.on_host(h);
    if list.len() > 0 {
        law_tab_is_gone_to(s.board, list[0] as usize);
    }
    if s.hosts_sel < list.len() {
        law_tab_is_gone_to(s.board, list[s.hosts_sel as int] as usize);
    }
}

/// While the context menu is open, escape closes it, enter does what the row in focus says, the
/// arrows and j and k move the focus, and any other key closes it and goes on.
pub proof fn law_menu_keys(s: ShellView, key: KeyView, now: u64)
    requires
        s.menu is Some,
        s.overlay == Overlay::Closed,
    ensures
        ({
            let m = s.menu->0;
            let esc = s.menu_keyed(KeyView::Named(NamedKey::Escape), now);
            let enter = s.menu_keyed(KeyView::Named(NamedKey::Enter), now);
            let down = s.menu_keyed(KeyView::Named(NamedKey::ArrowDown), now);
            let up = s.menu_keyed(KeyView::Named(NamedKey::ArrowUp), now);
            &&& esc.0.menu is None && esc.1 && esc.0.board == s.board
            &&& enter.0.menu is None && enter.1
            &&& m.sel < m.items.len() ==> enter.0.board == s.menu_run(
                m.items[m.sel as int],
                now,
            ).board
            &&& down == (s.with_menu(Some(m.turned(true))), true)
            &&& up == (s.with_menu(Some(m.turned(false))), true)
            &&& s.menu_keyed(KeyView::Character("j"@), now) == down
            &&& s.menu_keyed(KeyView::Character("k"@), now) == up
            &&& !(key matches KeyView::Named(_)) && key != KeyView::Character("j"@) && key
                != KeyView::Character("k"@) ==> s.menu_keyed(key, now).0.menu is None
                && !s.menu_keyed(key, now).1 && s.menu_keyed(key, now).0.board == s.board
        }),
{
    reveal(ShellView::menu_keyed);
    reveal_strlit("j");
    reveal_strlit("k");
    assert("j"@[0] == 'j' && "k"@[0] == 'k');
}

/// With control or the command key held, plus and equals zoom in, minus zooms out and zero resets;
/// control and enter turn the full screen on and off.
pub proof fn law_zoom_keys(s: ShellView, m: Mods, now: u64)
    requires
        m.control || m.logo,
    ensures
        s.plain_keyed(KeyView::Character("="@), m, None, now) == s.asks(Act::ZoomIn),
        s.plain_keyed(KeyView::Character("+"@), m, None, now) == s.asks(Act::ZoomIn),
        s.plain_keyed(KeyView::Character("-"@), m, None, now) == s.asks(Act::ZoomOut),
        s.plain_keyed(KeyView::Character("0"@), m, None, now) == s.asks(Act::ZoomReset),
        m.control ==> s.plain_keyed(KeyView::Named(NamedKey::Enter), m, None, now) == s.asks(
            Act::Fullscreen,
        ),
{
    reveal(ShellView::plain_keyed);
    reveal_strlit("=");
    reveal_strlit("+");
    reveal_strlit("-");
    reveal_strlit("0");
    assert("="@[0] == '=' && "+"@[0] == '+' && "-"@[0] == '-' && "0"@[0] == '0');
}

/// A view that is held moves by a page of twenty lines or by a single line, and follows again where
/// it reaches the live screen; the escape key goes there at once. The page up key always holds the
/// view.
pub proof fn law_view_keys(s: ShellView)
    requires
        s.board.wf(),
        s.board.tabs.len() > 0,
        s.board.tabs[s.board.active as int].offset <= s.board.tabs[s.board.active as int].depth,
    ensures
        ({
            let a = s.board.active as int;
            let t = s.board.tabs[a];
            let to = |k: NamedKey| s.view_keyed(k)->0.board.tabs[a];
            &&& t.offset + 20 <= t.depth ==> to(NamedKey::PageUp).offset == t.offset + 20
                && to(NamedKey::PageUp).scrolled
            &&& t.offset + 20 > t.depth ==> to(NamedKey::PageUp).offset == t.depth
            &&& t.offset > 20 ==> to(NamedKey::PageDown).offset == t.offset - 20
            &&& t.offset <= 20 ==> to(NamedKey::PageDown).offset == 0
                && !to(NamedKey::PageDown).scrolled
            &&& t.offset < t.depth ==> to(NamedKey::ArrowUp).offset == t.offset + 1
                && to(NamedKey::ArrowUp).scrolled
            &&& t.offset > 1 ==> to(NamedKey::ArrowDown).offset == t.offset - 1
                && to(NamedKey::ArrowDown).scrolled == t.scrolled
            &&& t.offset == 1 ==> to(NamedKey::ArrowDown).offset == 0
                && !to(NamedKey::ArrowDown).scrolled
            &&& to(NamedKey::Escape).offset == 0 && !to(NamedKey::Escape).scrolled
        }),
        s.view_keyed(NamedKey::Home) is None,
        s.view_keyed(NamedKey::Enter) is None,
{
}

/// The prefix is the configured key, the space bar or the backslash, and only with control held; it
/// is noted that it was pressed. Where the backslash stands in for a space bar that the system
/// keeps, this is explained once.
pub proof fn law_prefix(s: ShellView, key: KeyView, m: Mods, now: u64)
    ensures
        s.prefix.pressed(key, m) <==> m.control && (key == KeyView::Character(s.prefix.key) || key
            == KeyView::Character(" "@) || key == KeyView::Character("\\"@)),
        s.prefixed(key, now).prefix.down,
        s.prefixed(key, now).board.tabs == s.board.tabs,
        key == KeyView::Character("\\"@) && s.prefix.claimed && !s.prefix.noticed ==> s.prefixed(
            key,
            now,
        ).prefix.noticed && s.prefixed(key, now).board.flash == Some(
            FlashView { text: s.prefix.notice, at: now },
        ),
        s.prefix.noticed || !s.prefix.claimed || key != KeyView::Character("\\"@) ==> s.prefixed(
            key,
            now,
        ).board == s.board,
{
}

/// In the fleet grid the arrow keys go one tile on or back and the page keys a row of tiles, and
/// none of them leaves the tiles; the escape key closes the grid and leaves no mark.
pub proof fn law_grid_walks(s: ShellView, now: u64)
    requires
        s.overlay == Overlay::FleetGrid,
        s.grid_sel < s.board.tabs.len() <= usize::MAX,
        s.board.tabs.len() < 1000000,
        0 < s.tile_cols() < 1000000,
    ensures
        ({
            let n = s.board.tabs.len();
            let k = s.grid_sel as int;
            let w = s.tile_cols();
            let to = |key: NamedKey| keyed(s, KeyView::Named(key), bare(), now);
            &&& k + 1 < n ==> to(NamedKey::ArrowDown).grid_sel == k + 1 && to(NamedKey::Tab).grid_sel
                == k + 1
            &&& k + 1 == n ==> to(NamedKey::ArrowDown).grid_sel == k
            &&& k > 0 ==> to(NamedKey::ArrowUp).grid_sel == k - 1
            &&& k == 0 ==> to(NamedKey::ArrowUp).grid_sel == 0
            &&& k + w < n ==> to(NamedKey::PageDown).grid_sel == k + w
            &&& k + w >= n ==> to(NamedKey::PageDown).grid_sel == n - 1
            &&& k >= w ==> to(NamedKey::PageUp).grid_sel == k - w
            &&& k < w ==> to(NamedKey::PageUp).grid_sel == 0
            &&& to(NamedKey::Escape).overlay == Overlay::Closed
            &&& forall|j: int|
                0 <= j < s.board.slots.len() ==> !(#[trigger] to(
                    NamedKey::Escape,
                ).board.slots[j]).mark
        }),
{
    reveal(ShellView::overlay_keyed);
    reveal(ShellView::grid_keyed);
}

/// In the context menu the focus goes to the row behind or before, and past a line between rows to
/// the one beyond it.
pub proof fn law_menu_focus(menu: MenuView)
    requires
        menu.sel < menu.items.len() <= usize::MAX,
    ensures
        ({
            let k = menu.sel as int;
            let n = menu.items.len() as int;
            let row = |i: int| 0 <= i < n && menu.items[i] != CtxAction::Separator;
            &&& row(k + 1) ==> menu.turned(true).sel == k + 1
            &&& row(k - 1) ==> menu.turned(false).sel == k - 1
            &&& k + 1 < n && !row(k + 1) && row(k + 2) ==> menu.turned(true).sel == k + 2
            &&& k - 1 >= 0 && !row(k - 1) && row(k - 2) ==> menu.turned(false).sel == k - 2
            &&& k + 1 == n && row(0) ==> menu.turned(true).sel == 0
            &&& k == 0 && row(n - 1) ==> menu.turned(false).sel == n - 1
        }),
{
    reveal_with_fuel(next_set, 3);
    reveal_with_fuel(prev_set, 3);
    let k = menu.sel as int;
    let n = menu.items.len() as int;
    let mask = item_mask(menu.items);
    assert forall|i: int| 0 <= i < n implies #[trigger] mask[i] == (menu.items[i]
        != CtxAction::Separator) by {}
    if k + 1 < n {
        vstd::arithmetic::div_mod::lemma_small_mod((k + 1) as nat, n as nat);
    } else {
        vstd::arithmetic::div_mod::lemma_mod_self_0(n);
    }
    if k + 2 < n {
        vstd::arithmetic::div_mod::lemma_small_mod((k + 2) as nat, n as nat);
    }
    if k >= 1 {
        vstd::arithmetic::div_mod::lemma_small_mod((k - 1) as nat, n as nat);
    } else {
        vstd::arithmetic::div_mod::lemma_mod_add_multiples_vanish(-1, n);
        vstd::arithmetic::div_mod::lemma_small_mod((n - 1) as nat, n as nat);
    }
    if k >= 2 {
        vstd::arithmetic::div_mod::lemma_small_mod((k - 2) as nat, n as nat);
    }
}

} // verus!
