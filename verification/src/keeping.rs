//! An overlay keeps the keys to itself: while one is open, nothing is typed to a session.

use vstd::prelude::*;

use crate::board::{Act, BoardView};
use crate::grid::GridView;
use crate::keys::{shortcut_of, CmdShortcut, KeyView, Mods};
use crate::lists::PaletteAction;
use crate::shell::{Overlay, ShellView};

verus! {

/// Nothing is to be typed.
pub open spec fn untyped(b: BoardView) -> bool {
    forall|i: int| 0 <= i < b.todo.len() ==> #[trigger] b.todo[i] != Act::Type
}

proof fn lemma_without_all(b: BoardView, list: Seq<int>)
    requires
        untyped(b),
    ensures
        untyped(b.without_all(list)),
    decreases list.len(),
{
    if list.len() > 0 {
        lemma_without_all(b.without(list.last()), list.drop_last());
    }
}

proof fn lemma_jumps(b: BoardView, now: u64)
    requires
        untyped(b),
    ensures
        untyped(b.pulsed(now)),
        untyped(b.at_next_busy(now)),
        untyped(b.at_next_quiet(now)),
        untyped(b.at_next_pinned(now)),
        untyped(b.at_next_down(now)),
        untyped(b.at_next_host(now)),
{
    reveal(BoardView::pulsed);
    reveal(BoardView::at_next_busy);
    reveal(BoardView::at_next_quiet);
    reveal(BoardView::at_next_pinned);
    reveal(BoardView::at_next_down);
    reveal(BoardView::at_next_host);
}

proof fn lemma_toggles(b: BoardView, i: int, now: u64)
    requires
        untyped(b),
    ensures
        untyped(b.active_mute_turned(now)),
        untyped(b.pin_turned(i, now)),
        untyped(b.dnd_turned(now)),
        untyped(b.focus_turned(now)),
        untyped(b.all_read(now)),
        untyped(b.identity_copied(now)),
        untyped(b.fleet_copied(now)),
{
    reveal(BoardView::active_mute_turned);
    reveal(BoardView::pin_turned);
    reveal(BoardView::dnd_turned);
    reveal(BoardView::focus_turned);
    reveal(BoardView::all_read);
    reveal(BoardView::identity_copied);
    reveal(BoardView::fleet_copied);
}

proof fn lemma_rounds(b: BoardView, i: int, now: u64)
    requires
        untyped(b),
    ensures
        untyped(b.interrupted(now)),
        untyped(b.fleet_halted(now)),
        untyped(b.marked_halted(now)),
        untyped(b.active_retried(now)),
        untyped(b.fleet_retried(now)),
        untyped(b.marked_retried(now)),
        untyped(b.row_retried(i)),
{
    reveal(BoardView::interrupted);
    reveal(BoardView::fleet_halted);
    reveal(BoardView::marked_halted);
    reveal(BoardView::active_retried);
    reveal(BoardView::fleet_retried);
    reveal(BoardView::marked_retried);
    reveal(BoardView::row_retried);
}

proof fn lemma_sweeps(b: BoardView, now: u64)
    requires
        untyped(b),
    ensures
        untyped(b.swept(now)),
        untyped(b.marked_closed(now)),
        untyped(b.destroyed(now)),
{
    reveal(BoardView::swept);
    reveal(BoardView::marked_closed);
    reveal(BoardView::destroyed);
    lemma_without_all(b, crate::seqs::set_indices(b.silent_mask(now)));
    lemma_without_all(b.unmarked(), crate::seqs::set_indices(b.doomed_mask()));
}

proof fn lemma_performed(s: ShellView, a: PaletteAction, now: u64)
    requires
        untyped(s.board),
    ensures
        untyped(s.performed(a, now).board),
{
    reveal(ShellView::performed);
    lemma_jumps(s.board, now);
    lemma_toggles(s.board, s.board.active as int, now);
    lemma_rounds(s.board, 0, now);
    lemma_sweeps(s.board, now);
}

proof fn lemma_prompts(s: ShellView, key: KeyView, m: Mods, now: u64)
    requires
        untyped(s.board),
    ensures
        untyped(s.jump_keyed(key, m).board),
        untyped(s.new_keyed(key).board),
        untyped(s.remote_keyed(key, m).board),
        untyped(s.rename_keyed(key).board),
{
    reveal(ShellView::jump_keyed);
    reveal(ShellView::new_keyed);
    reveal(ShellView::remote_keyed);
    reveal(ShellView::rename_keyed);
}

proof fn lemma_find(s: ShellView, key: KeyView, m: Mods)
    requires
        untyped(s.board),
    ensures
        untyped(s.find_keyed(key, m).board),
{
    reveal(ShellView::find_keyed);
}

proof fn lemma_hunt(s: ShellView, key: KeyView, m: Mods)
    requires
        untyped(s.board),
    ensures
        untyped(s.hunt_keyed(key, m).board),
{
    reveal(ShellView::hunt_keyed);
}

proof fn lemma_fleet(s: ShellView, key: KeyView)
    requires
        untyped(s.board),
    ensures
        untyped(s.fleet_keyed(key).board),
{
    reveal(ShellView::fleet_keyed);
}

proof fn lemma_hosts(s: ShellView, key: KeyView, c: Seq<char>, now: u64)
    requires
        untyped(s.board),
    ensures
        untyped(s.host_typed(c).board),
        untyped(s.host_taken(now).board),
        untyped(s.hosts_keyed(key).board),
{
    reveal(ShellView::host_typed);
    reveal(ShellView::host_taken);
    reveal(ShellView::hosts_keyed);
}

proof fn lemma_cast(s: ShellView, key: KeyView, m: Mods, now: u64)
    requires
        untyped(s.board),
    ensures
        untyped(s.cast_keyed(key, m, now).board),
{
    reveal(ShellView::cast_keyed);
}

proof fn lemma_commands(s: ShellView, key: KeyView, m: Mods, now: u64)
    requires
        untyped(s.board),
    ensures
        untyped(s.cmd_keyed(key, m, now).board),
{
    reveal(ShellView::cmd_keyed);
    assert forall|a: PaletteAction| untyped(
        #[trigger] s.over(Overlay::Closed).performed(a, now).board,
    ) by {
        lemma_performed(s.over(Overlay::Closed), a, now);
    }
}

proof fn lemma_peek(s: ShellView, key: KeyView, m: Mods, now: u64)
    requires
        untyped(s.board),
    ensures
        untyped(s.peek_keyed(key, m, now).board),
{
    reveal(ShellView::peek_keyed);
    let t = s.peek_refreshed(now);
    lemma_rounds(t.board, t.peek_tab(), now);
    lemma_toggles(t.board, t.peek_tab(), now);
}

proof fn lemma_tiles(s: ShellView, key: KeyView, m: Mods, now: u64)
    requires
        untyped(s.board),
    ensures
        untyped(s.grid_keyed(key, m, now).board),
{
    reveal(ShellView::grid_keyed);
    lemma_jumps(s.board, now);
    lemma_rounds(s.board, s.grid_sel as int, now);
    lemma_toggles(s.board, s.grid_sel as int, now);
    lemma_sweeps(s.board, now);
}

/// While an overlay is open, no key is typed to a session, unless it is a shortcut.
pub proof fn law_overlays_keep_the_keys(
    s: ShellView,
    key: KeyView,
    m: Mods,
    g: Option<GridView>,
    now: u64,
)
    requires
        s.overlay != Overlay::Closed,
        shortcut_of(key, m) == CmdShortcut::Unbound,
        untyped(s.board),
    ensures
        untyped(s.forwarded(key, m, g, now).board),
{
    reveal(ShellView::forwarded);
    reveal(ShellView::overlay_keyed);
    match s.overlay {
        Overlay::Palette | Overlay::NewSession | Overlay::RemoteAttach | Overlay::Rename => {
            lemma_prompts(s, key, m, now);
        },
        Overlay::Find => {
            lemma_find(s, key, m);
        },
        Overlay::FleetSearch => {
            lemma_hunt(s, key, m);
        },
        Overlay::Fleet => {
            lemma_fleet(s, key);
        },
        Overlay::Hosts => {
            let c = match key {
                KeyView::Character(c) => c,
                _ => Seq::empty(),
            };
            lemma_hosts(s, key, c, now);
        },
        Overlay::Broadcast => {
            lemma_cast(s, key, m, now);
        },
        Overlay::CommandPalette => {
            lemma_commands(s, key, m, now);
        },
        Overlay::Peek => {
            lemma_peek(s, key, m, now);
        },
        Overlay::FleetGrid => {
            lemma_tiles(s, key, m, now);
        },
        _ => {},
    }
}

} // verus!
