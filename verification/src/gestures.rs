//! What keys, commands and actions do, told from the window's state before and after.

use vstd::prelude::*;

use crate::activity::Slot;
use crate::board::{Act, BoardView, Round};
use crate::commands::{action_from, bound_from, named, Command, ACTIONS};
use crate::effects::asked;
use crate::finding::{first_from, FinderView, HuntView};
use crate::grid::Find;
use crate::keys::{CmdShortcut, KeyView, Mods, NamedKey};
use crate::lists::{PaletteAction, PALETTE_ROWS};
use crate::machines::machine;
use crate::seqs::{lemma_set_indices, set_indices};
use crate::shell::{Overlay, ShellView};
use crate::tabs::TabView;
use crate::text::trimmed;
use crate::typing::{row_before, row_behind, row_down, row_up};
use crate::words::law_recalled_once;

verus! {

/// A row of a list moves down by so many rows, at most to the last, and up by so many, at most to
/// the first; going round, the row behind the last is the first.
pub proof fn law_rows(sel: usize, k: int, n: nat)
    requires
        sel < n <= usize::MAX,
        0 <= k,
        sel + k <= usize::MAX,
    ensures
        sel + k < n ==> row_down(sel, k, n) == sel + k,
        sel + k >= n ==> row_down(sel, k, n) == n - 1,
        k <= sel ==> row_up(sel, k) == sel - k,
        k > sel ==> row_up(sel, k) == 0,
        sel + 1 < n ==> row_behind(sel, n) == sel + 1,
        sel + 1 == n ==> row_behind(sel, n) == 0,
        sel > 0 ==> row_before(sel, n) == sel - 1,
        sel == 0 ==> row_before(sel, n) == n - 1,
{
}

/// Each row of the command palette says what its action does.
pub proof fn law_palette_rows()
    ensures
        PALETTE_ROWS@.len() == 38,
        PALETTE_ROWS@[0] == ("new session (engine picker)", PaletteAction::NewSession),
        PALETTE_ROWS@[1] == ("attach to a remote pane@host", PaletteAction::RemoteAttach),
        PALETTE_ROWS@[2] == ("jump to a session (palette)", PaletteAction::SessionPalette),
        PALETTE_ROWS@[3] == ("find in current tab", PaletteAction::FindInTab),
        PALETTE_ROWS@[4] == ("search all sessions", PaletteAction::SearchAll),
        PALETTE_ROWS@[5] == ("copy whole scrollback", PaletteAction::CopyScrollback),
        PALETTE_ROWS@[6] == ("export scrollback to .log file", PaletteAction::ExportLog),
        PALETTE_ROWS@[7] == ("copy session identity (engine@host)", PaletteAction::CopyIdentity),
        PALETTE_ROWS@[8] == ("copy whole fleet summary (all tabs)", PaletteAction::CopyFleet),
        PALETTE_ROWS@[9] == ("broadcast a line to all sessions", PaletteAction::Broadcast),
        PALETTE_ROWS@[10] == ("peek at all session tails", PaletteAction::Peek),
        PALETTE_ROWS@[11] == ("fleet grid: live tails of every session", PaletteAction::FleetGrid),
        PALETTE_ROWS@[12] == ("undo close (reopen last)", PaletteAction::UndoClose),
        PALETTE_ROWS@[13] == ("duplicate active tab (fork same engine@host)", PaletteAction::Duplicate),
        PALETTE_ROWS@[14] == ("show session info (kind/host/task)", PaletteAction::SessionInfo),
        PALETTE_ROWS@[15] == ("mark all tabs as read (clear busy + bell badges)", PaletteAction::MarkAllRead),
        PALETTE_ROWS@[16] == ("toggle focus mode (hide tab bar + status)", PaletteAction::ToggleFocus),
        PALETTE_ROWS@[17] == ("pin/unpin active tab (protect from close)", PaletteAction::Pin),
        PALETTE_ROWS@[18] == ("jump to next pinned tab", PaletteAction::NextPinned),
        PALETTE_ROWS@[19] == ("jump to next busy tab (just produced output)", PaletteAction::NextBusy),
        PALETTE_ROWS@[20] == ("jump to next quiet (awaiting-you) tab", PaletteAction::NextQuiet),
        PALETTE_ROWS@[21] == ("jump to next down/reconnecting tab", PaletteAction::NextDown),
        PALETTE_ROWS@[22] == ("mute/unmute active tab (stop busy badge + OS ping)", PaletteAction::MuteActive),
        PALETTE_ROWS@[23] == ("rename active session", PaletteAction::Rename),
        PALETTE_ROWS@[24] == ("jump to next host (page fleet by machine)", PaletteAction::NextHost),
        PALETTE_ROWS@[25] == ("host overview (which machines are up)", PaletteAction::Hosts),
        PALETTE_ROWS@[26] == ("toggle do-not-disturb (mute all OS notifications)", PaletteAction::Dnd),
        PALETTE_ROWS@[27] == ("force reconnect active tab (bypass backoff)", PaletteAction::Reconnect),
        PALETTE_ROWS@[28] == ("force reconnect ALL down panes", PaletteAction::ReconnectAll),
        PALETTE_ROWS@[29] == ("kill active tab's pane (destroy remote session)", PaletteAction::Destroy),
        PALETTE_ROWS@[30] == ("send Ctrl-C to active tab (stop the run)", PaletteAction::Interrupt),
        PALETTE_ROWS@[31] == ("send Ctrl-C to every session (stop the fleet)", PaletteAction::InterruptAll),
        PALETTE_ROWS@[32] == ("close all quiet (done) tabs", PaletteAction::CloseQuiet),
        PALETTE_ROWS@[33] == ("page up (review this tab's scrollback)", PaletteAction::PageUp),
        PALETTE_ROWS@[34] == ("scroll to top (start of the log)", PaletteAction::ScrollTop),
        PALETTE_ROWS@[35] == ("scroll to bottom (back to live)", PaletteAction::ScrollBottom),
        PALETTE_ROWS@[36] == ("show this help", PaletteAction::Help),
        PALETTE_ROWS@[37] == ("quit", PaletteAction::Quit),
{
}

/// Each name of the configuration stands for the action that it names.
pub proof fn law_action_names()
    ensures
        ACTIONS@.len() == 37,
        ACTIONS@[0] == ("palette", PaletteAction::SessionPalette),
        ACTIONS@[1] == ("new_session", PaletteAction::NewSession),
        ACTIONS@[2] == ("remote_attach", PaletteAction::RemoteAttach),
        ACTIONS@[3] == ("quit", PaletteAction::Quit),
        ACTIONS@[4] == ("fleet_grid", PaletteAction::FleetGrid),
        ACTIONS@[5] == ("next_busy", PaletteAction::NextBusy),
        ACTIONS@[6] == ("next_quiet", PaletteAction::NextQuiet),
        ACTIONS@[7] == ("next_down", PaletteAction::NextDown),
        ACTIONS@[8] == ("next_host", PaletteAction::NextHost),
        ACTIONS@[9] == ("hosts", PaletteAction::Hosts),
        ACTIONS@[10] == ("dnd", PaletteAction::Dnd),
        ACTIONS@[11] == ("mute", PaletteAction::MuteActive),
        ACTIONS@[12] == ("interrupt", PaletteAction::Interrupt),
        ACTIONS@[13] == ("pin", PaletteAction::Pin),
        ACTIONS@[14] == ("next_pinned", PaletteAction::NextPinned),
        ACTIONS@[15] == ("reconnect", PaletteAction::Reconnect),
        ACTIONS@[16] == ("reconnect_all", PaletteAction::ReconnectAll),
        ACTIONS@[17] == ("destroy", PaletteAction::Destroy),
        ACTIONS@[18] == ("broadcast", PaletteAction::Broadcast),
        ACTIONS@[19] == ("close_quiet", PaletteAction::CloseQuiet),
        ACTIONS@[20] == ("copy_scrollback", PaletteAction::CopyScrollback),
        ACTIONS@[21] == ("export_scrollback", PaletteAction::ExportLog),
        ACTIONS@[22] == ("copy_identity", PaletteAction::CopyIdentity),
        ACTIONS@[23] == ("copy_fleet", PaletteAction::CopyFleet),
        ACTIONS@[24] == ("peek", PaletteAction::Peek),
        ACTIONS@[25] == ("undo_close", PaletteAction::UndoClose),
        ACTIONS@[26] == ("duplicate", PaletteAction::Duplicate),
        ACTIONS@[27] == ("page_up", PaletteAction::PageUp),
        ACTIONS@[28] == ("scroll_bottom", PaletteAction::ScrollBottom),
        ACTIONS@[29] == ("scroll_top", PaletteAction::ScrollTop),
        ACTIONS@[30] == ("search", PaletteAction::FindInTab),
        ACTIONS@[31] == ("search_all", PaletteAction::SearchAll),
        ACTIONS@[32] == ("help", PaletteAction::Help),
        ACTIONS@[33] == ("session_info", PaletteAction::SessionInfo),
        ACTIONS@[34] == ("mark_all_read", PaletteAction::MarkAllRead),
        ACTIONS@[35] == ("toggle_focus", PaletteAction::ToggleFocus),
        ACTIONS@[36] == ("rename", PaletteAction::Rename),
{
}

/// The first row of the configuration's names with a name is the one that counts.
pub proof fn law_first_name_counts(name: Seq<char>, i: int)
    requires
        0 <= i < ACTIONS@.len(),
        ACTIONS@[i].0@ == name,
        forall|j: int| 0 <= j < i ==> (#[trigger] ACTIONS@[j]).0@ != name,
    ensures
        named(name) == Some(Command::Do(ACTIONS@[i].1)),
{
    lemma_action(name, 0, i);
}

proof fn lemma_action(name: Seq<char>, from: int, i: int)
    requires
        0 <= from <= i < ACTIONS@.len(),
        ACTIONS@[i].0@ == name,
        forall|j: int| 0 <= j < i ==> (#[trigger] ACTIONS@[j]).0@ != name,
    ensures
        action_from(name, from) == Some(ACTIONS@[i].1),
    decreases i - from,
{
    if from < i {
        assert(ACTIONS@[from].0@ != name);
        lemma_action(name, from + 1, i);
    }
}

/// A key behind the prefix stands for what the first row of the configuration for it says.
pub proof fn law_first_binding_counts(rows: Seq<(Seq<char>, Seq<char>)>, key: Seq<char>, i: int)
    requires
        0 <= i < rows.len(),
        rows[i].0 == key,
        forall|j: int| 0 <= j < i ==> (#[trigger] rows[j]).0 != key,
    ensures
        bound_from(rows, key, 0) == Some(rows[i].1),
{
    lemma_binding(rows, key, 0, i);
}

proof fn lemma_binding(rows: Seq<(Seq<char>, Seq<char>)>, key: Seq<char>, from: int, i: int)
    requires
        0 <= from <= i < rows.len(),
        rows[i].0 == key,
        forall|j: int| 0 <= j < i ==> (#[trigger] rows[j]).0 != key,
    ensures
        bound_from(rows, key, from) == Some(rows[i].1),
    decreases i - from,
{
    if from < i {
        assert(rows[from].0 != key);
        lemma_binding(rows, key, from + 1, i);
    }
}

/// A digit behind the prefix goes to that tab, counted from one, and zero to the last; the tab key
/// to the next tab and, with shift, to the one before; whatever the keys are bound to.
pub proof fn law_prefix_digits(s: ShellView, d: char, m: Mods, now: u64)
    requires
        s.wf(),
        !s.board.native,
        '0' <= d <= '9',
    ensures
        ({
            let n = s.board.tabs.len();
            let t = s.command_keyed(KeyView::Character(seq![d]), m, now);
            let i = d as int - '1' as int;
            &&& d != '0' && i < n ==> t.board.active == i
            &&& d != '0' && i >= n ==> t == s
            &&& d == '0' && n > 0 ==> t.board.active == n - 1
            &&& t.board.tabs == s.board.tabs && t.overlay == s.overlay
        }),
        s.command_keyed(KeyView::Named(NamedKey::Tab), m, now).board == s.board.turned(!m.shift),
{
    reveal(ShellView::command_keyed);
}

/// The actions that open something open it, fresh.
pub proof fn law_actions_open(s: ShellView, now: u64, i: int)
    requires
        s.wf(),
    ensures
        s.performed(PaletteAction::NewSession, now).overlay == Overlay::NewSession,
        s.performed(PaletteAction::RemoteAttach, now).overlay == Overlay::RemoteAttach,
        s.performed(PaletteAction::SessionPalette, now).overlay == Overlay::Palette,
        s.performed(PaletteAction::SessionPalette, now).jump.query.len() == 0,
        s.performed(PaletteAction::FindInTab, now).overlay == Overlay::Find,
        s.performed(PaletteAction::FindInTab, now).finder.query.len() == 0,
        s.performed(PaletteAction::SearchAll, now).overlay == Overlay::FleetSearch,
        s.performed(PaletteAction::SearchAll, now).hunt.query.len() == 0,
        s.performed(PaletteAction::Broadcast, now).overlay == Overlay::Broadcast,
        s.performed(PaletteAction::Broadcast, now).cast.query == s.cast.last,
        0 <= i < s.board.slots.len() ==> s.performed(
            PaletteAction::Broadcast,
            now,
        ).board.slots[i].target,
        s.performed(PaletteAction::Peek, now).overlay == Overlay::Peek,
        s.performed(PaletteAction::Peek, now).peek.query.len() == 0,
        s.performed(PaletteAction::FleetGrid, now).overlay == Overlay::FleetGrid,
        s.performed(PaletteAction::SessionInfo, now).overlay == Overlay::Info,
        s.performed(PaletteAction::Rename, now).overlay == Overlay::Rename,
        s.performed(PaletteAction::Hosts, now).overlay == Overlay::Hosts,
        s.performed(PaletteAction::Hosts, now).hosts_host is None,
        s.performed(PaletteAction::Help, now).overlay == Overlay::Help,
        s.last_dirs.len() > 0 ==> s.performed(PaletteAction::NewSession, now).new_cwd
            == s.last_dirs[0],
        s.recent_hosts.len() > 0 ==> s.performed(PaletteAction::RemoteAttach, now).remote
            == s.recent_hosts[0],
        s.board.active < s.board.tabs.len() ==> (s.board.tabs[s.board.active as int].name matches Some(n)
            ==> s.performed(PaletteAction::Rename, now).rename == n),
{
    reveal(ShellView::performed);
}

/// The actions that ask the window for one thing ask for that.
pub proof fn law_actions_ask(s: ShellView, now: u64)
    requires
        s.wf(),
        s.board.tabs.len() > 0,
    ensures
        ({
            let todo = s.board.todo;
            let a = s.board.active;
            &&& s.performed(PaletteAction::CopyScrollback, now).board.todo == todo.push(
                Act::CopyScrollback,
            )
            &&& s.performed(PaletteAction::ExportLog, now).board.todo == todo.push(Act::ExportScrollback)
            &&& s.performed(PaletteAction::CopyIdentity, now).board.todo == todo.push(Act::CopyIdentity)
            &&& s.performed(PaletteAction::CopyFleet, now).board.todo == todo.push(Act::CopyFleet)
            &&& s.performed(PaletteAction::UndoClose, now).board.todo == todo.push(Act::Reopen)
            &&& s.performed(PaletteAction::Duplicate, now).board.todo == todo.push(Act::Duplicate)
            &&& s.performed(PaletteAction::Duplicate, now).fork_pinned == s.board.slots[a as int].pinned
            &&& s.performed(PaletteAction::Interrupt, now).board.todo == todo.push(Act::Interrupt(a))
        }),
{
    reveal(ShellView::performed);
    reveal(BoardView::identity_copied);
    reveal(BoardView::fleet_copied);
    reveal(BoardView::interrupted);
}

/// The actions on the tabs act on the board alone, each as the board says.
pub proof fn law_actions_act(s: ShellView, now: u64)
    ensures
        ({
            let b = s.board;
            let did = |a: PaletteAction, c: BoardView| s.performed(a, now) == (ShellView { board: c, ..s });
            &&& did(PaletteAction::MarkAllRead, b.all_read(now))
            &&& did(PaletteAction::ToggleFocus, b.focus_turned(now))
            &&& did(PaletteAction::Pin, b.pin_turned(b.active as int, now))
            &&& did(PaletteAction::NextPinned, b.at_next_pinned(now))
            &&& did(PaletteAction::NextBusy, b.at_next_busy(now))
            &&& did(PaletteAction::NextQuiet, b.at_next_quiet(now))
            &&& did(PaletteAction::NextDown, b.at_next_down(now))
            &&& did(PaletteAction::MuteActive, b.active_mute_turned(now))
            &&& did(PaletteAction::NextHost, b.at_next_host(now))
            &&& did(PaletteAction::Dnd, b.dnd_turned(now))
            &&& did(PaletteAction::Reconnect, b.active_retried(now))
            &&& did(PaletteAction::ReconnectAll, b.fleet_retried(now))
            &&& did(PaletteAction::Destroy, b.destroyed(now))
            &&& did(PaletteAction::InterruptAll, b.fleet_halted(now))
            &&& did(PaletteAction::CloseQuiet, b.swept(now))
        }),
{
    reveal(ShellView::performed);
}

/// The actions that move the view go a page of twenty lines up, to the oldest line, and to the live
/// screen.
pub proof fn law_actions_scroll(s: ShellView, now: u64)
    requires
        s.wf(),
        s.board.tabs.len() > 0,
        s.board.tabs[s.board.active as int].offset <= s.board.tabs[s.board.active as int].depth,
    ensures
        ({
            let a = s.board.active as int;
            let t = s.board.tabs[a];
            let up = s.performed(PaletteAction::PageUp, now).board.tabs[a];
            let top = s.performed(PaletteAction::ScrollTop, now).board.tabs[a];
            let live = s.performed(PaletteAction::ScrollBottom, now).board.tabs[a];
            &&& up.scrolled && (t.offset + 20 <= t.depth ==> up.offset == t.offset + 20) && (t.offset
                + 20 > t.depth ==> up.offset == t.depth)
            &&& top.scrolled && top.offset == t.depth
            &&& !live.scrolled && live.offset == 0
        }),
{
    reveal(ShellView::performed);
}

/// Leaving writes everything down first, and then leaves.
pub proof fn law_quitting_saves(s: ShellView, now: u64)
    ensures
        s.performed(PaletteAction::Quit, now).quit,
        s.performed(PaletteAction::Quit, now).board.todo == s.board.todo.push(
            Act::SaveScrollbacks,
        ).push(Act::SaveTabs).push(Act::SaveMuted).push(Act::SavePins).push(Act::SaveGeometry),
        s.shortcut(CmdShortcut::Quit, now) == s.performed(PaletteAction::Quit, now),
{
    reveal(ShellView::performed);
    reveal(ShellView::shortcut);
}

/// The shortcuts of the command key do what the actions of the same name do, and walk the tabs.
pub proof fn law_shortcuts_do(s: ShellView, now: u64, i: usize)
    requires
        s.wf(),
        !s.board.native,
    ensures
        s.shortcut(CmdShortcut::NewSession, now) == s.performed(PaletteAction::NewSession, now),
        s.shortcut(CmdShortcut::CloseActive, now) == (ShellView { close_active: true, ..s }),
        s.shortcut(CmdShortcut::NextTab, now).board == s.board.turned(true),
        s.shortcut(CmdShortcut::PrevTab, now).board == s.board.turned(false),
        s.shortcut(CmdShortcut::CommandPalette, now).overlay == Overlay::CommandPalette,
        s.shortcut(CmdShortcut::CommandPalette, now).cmd.query.len() == 0,
        s.shortcut(CmdShortcut::FleetSearch, now).overlay == Overlay::FleetSearch,
        i < s.board.tabs.len() ==> s.shortcut(CmdShortcut::GotoTab(i), now).board.active == i,
        s.board.tabs.len() > 0 && i >= s.board.tabs.len() ==> s.shortcut(
            CmdShortcut::GotoTab(i),
            now,
        ).board.active == s.board.tabs.len() - 1,
        s.shortcut(CmdShortcut::ReopenTab, now).board.todo == s.board.todo.push(Act::Reopen),
        s.shortcut(CmdShortcut::Duplicate, now) == s.performed(PaletteAction::Duplicate, now),
        s.shortcut(CmdShortcut::ReconnectAll, now) == s.performed(PaletteAction::ReconnectAll, now),
        s.shortcut(CmdShortcut::Pin, now) == s.performed(PaletteAction::Pin, now),
        s.shortcut(CmdShortcut::Mute, now) == s.performed(PaletteAction::MuteActive, now),
        s.shortcut(CmdShortcut::Info, now).overlay == Overlay::Info,
        s.shortcut(CmdShortcut::NextQuiet, now) == s.performed(PaletteAction::NextQuiet, now),
        s.shortcut(CmdShortcut::InterruptAll, now) == s.performed(PaletteAction::InterruptAll, now),
        s.shortcut(CmdShortcut::Peek, now).overlay == Overlay::Peek,
        s.shortcut(CmdShortcut::CopyScrollback, now).board.todo == s.board.todo.push(
            Act::CopyScrollback,
        ),
        s.shortcut(CmdShortcut::ExportScrollback, now).board.todo == s.board.todo.push(
            Act::ExportScrollback,
        ),
        s.shortcut(CmdShortcut::Interrupt, now) == s.performed(PaletteAction::Interrupt, now),
        s.shortcut(CmdShortcut::Find, now).overlay == Overlay::Find,
        s.shortcut(CmdShortcut::Unbound, now) == s,
{
    reveal(ShellView::performed);
    reveal(ShellView::shortcut);
}

/// The commands behind the prefix that are no actions: a shell, the fleet, the first tab and the
/// one before, pasting, closing, moving a tab and copy mode.
pub proof fn law_commands_do(s: ShellView, now: u64)
    requires
        s.wf(),
        !s.board.native,
    ensures
        s.commanded(Command::LocalShell, now).board.todo == s.board.todo.push(Act::SpawnShell),
        s.commanded(Command::Fleet, now).overlay == Overlay::Fleet,
        s.commanded(Command::Fleet, now).board.todo == s.board.todo.push(Act::RefreshFleet),
        s.board.tabs.len() > 0 ==> s.commanded(Command::GotoFirst, now).board.active == 0,
        s.board.last matches Some(p) ==> p < s.board.tabs.len() ==> s.commanded(
            Command::LastWindow,
            now,
        ).board.active == p,
        s.commanded(Command::Paste, now).board.todo == s.board.todo.push(Act::Paste),
        s.commanded(Command::MoveLeft, now).board == s.board.shifted(false),
        s.commanded(Command::MoveRight, now).board == s.board.shifted(true),
        s.board.active < s.board.tabs.len() && s.board.slots[s.board.active as int].pinned
            ==> s.commanded(Command::CloseTab, now).board.tabs == s.board.tabs,
        s.board.active < s.board.tabs.len() && !s.board.slots[s.board.active as int].pinned
            ==> s.commanded(Command::CloseTab, now).board.tabs == s.board.tabs.remove(
            s.board.active as int,
        ),
        s.commanded(Command::CommandPalette, now).overlay == Overlay::CommandPalette,
        s.board.active < s.board.tabs.len() && s.board.tabs[s.board.active as int].depth > 0
            ==> s.commanded(Command::CopyMode, now).copy.on && s.commanded(
            Command::CopyMode,
            now,
        ).board.tabs[s.board.active as int].scrolled,
{
    reveal(ShellView::commanded);
}

/// A key over an overlay, without a shortcut in the way.
pub open spec fn keyed(s: ShellView, key: KeyView, m: Mods, now: u64) -> ShellView {
    s.overlay_keyed(key, m, None, now)
}

/// No modifier is held.
pub open spec fn bare() -> Mods {
    Mods { shift: false, control: false, alt: false, logo: false }
}

/// The shift key alone is held.
pub open spec fn shifted() -> Mods {
    Mods { shift: true, control: false, alt: false, logo: false }
}

/// The escape key closes an overlay, and starts nothing: the session list, the picker, the machine
/// field, the searches, the fleet, the name field, the broadcast line, the palette and the grid.
pub proof fn law_escape_closes(s: ShellView, m: Mods, now: u64)
    requires
        s.overlay == Overlay::Palette || s.overlay == Overlay::NewSession || s.overlay
            == Overlay::RemoteAttach || s.overlay == Overlay::Find || s.overlay == Overlay::FleetSearch
            || s.overlay == Overlay::Fleet || s.overlay == Overlay::Rename || s.overlay
            == Overlay::Broadcast || s.overlay == Overlay::CommandPalette || s.overlay
            == Overlay::FleetGrid,
    ensures
        ({
            let t = keyed(s, KeyView::Named(NamedKey::Escape), m, now);
            t.overlay == Overlay::Closed && t.board.todo == s.board.todo && t.board.tabs == s.board.tabs
        }),
{
    reveal(ShellView::overlay_keyed);
    reveal(ShellView::jump_keyed);
    reveal(ShellView::new_keyed);
    reveal(ShellView::remote_keyed);
    reveal(ShellView::find_keyed);
    reveal(ShellView::hunt_keyed);
    reveal(ShellView::fleet_keyed);
    reveal(ShellView::rename_keyed);
    reveal(ShellView::cast_keyed);
    reveal(ShellView::cmd_keyed);
    reveal(ShellView::grid_keyed);
}

/// What is typed goes into the field that is open, behind what is there, and backspace takes the
/// last character away.
pub proof fn law_fields_are_typed(s: ShellView, c: Seq<char>, m: Mods, now: u64)
    requires
        c != " "@,
    ensures
        s.overlay == Overlay::Palette ==> keyed(s, KeyView::Character(c), m, now).jump.query
            == s.jump.query + c,
        s.overlay == Overlay::NewSession ==> keyed(s, KeyView::Character(c), m, now).new_cwd
            == s.new_cwd + c,
        s.overlay == Overlay::RemoteAttach ==> keyed(s, KeyView::Character(c), m, now).remote
            == s.remote + c,
        s.overlay == Overlay::FleetSearch ==> keyed(s, KeyView::Character(c), m, now).hunt.query
            == s.hunt.query + c,
        s.overlay == Overlay::Rename ==> keyed(s, KeyView::Character(c), m, now).rename == s.rename + c,
        s.overlay == Overlay::Broadcast ==> keyed(s, KeyView::Character(c), m, now).cast.query
            == s.cast.query + c,
        s.overlay == Overlay::CommandPalette ==> keyed(s, KeyView::Character(c), m, now).cmd.query
            == s.cmd.query + c,
        s.overlay == Overlay::Find && s.finder.query.len() > 0 ==> keyed(
            s,
            KeyView::Character(c),
            m,
            now,
        ).finder.query == s.finder.query + c,
        s.overlay == Overlay::Fleet && s.fleet.query.len() > 0 ==> keyed(
            s,
            KeyView::Character(c),
            m,
            now,
        ).fleet.query == s.fleet.query + c,
        ({
            let t = keyed(s, KeyView::Named(NamedKey::Backspace), m, now);
            &&& s.overlay == Overlay::Palette && s.jump.query.len() > 0 ==> t.jump.query
                == s.jump.query.drop_last()
            &&& s.overlay == Overlay::NewSession && s.new_cwd.len() > 0 ==> t.new_cwd
                == s.new_cwd.drop_last()
            &&& s.overlay == Overlay::RemoteAttach && s.remote.len() > 0 ==> t.remote
                == s.remote.drop_last()
            &&& s.overlay == Overlay::FleetSearch && s.hunt.query.len() > 0 ==> t.hunt.query
                == s.hunt.query.drop_last()
            &&& s.overlay == Overlay::Rename && s.rename.len() > 0 ==> t.rename == s.rename.drop_last()
            &&& s.overlay == Overlay::Broadcast && s.cast.query.len() > 0 ==> t.cast.query
                == s.cast.query.drop_last()
            &&& s.overlay == Overlay::CommandPalette && s.cmd.query.len() > 0 ==> t.cmd.query
                == s.cmd.query.drop_last()
            &&& s.overlay == Overlay::Find && s.finder.query.len() > 0 ==> t.finder.query
                == s.finder.query.drop_last()
            &&& s.overlay == Overlay::Fleet && s.fleet.query.len() > 0 ==> t.fleet.query
                == s.fleet.query.drop_last()
        }),
{
    reveal(ShellView::overlay_keyed);
    reveal(ShellView::jump_keyed);
    reveal(ShellView::new_keyed);
    reveal(ShellView::remote_keyed);
    reveal(ShellView::find_keyed);
    reveal(ShellView::hunt_keyed);
    reveal(ShellView::fleet_keyed);
    reveal(ShellView::rename_keyed);
    reveal(ShellView::cast_keyed);
    reveal(ShellView::cmd_keyed);
}

/// The enter key does what the overlay is for: it jumps, opens, connects, names the active session,
/// or takes the selected row.
pub proof fn law_enter_takes(s: ShellView, m: Mods, now: u64)
    requires
        s.wf(),
        !s.board.native,
    ensures
        ({
            let t = keyed(s, KeyView::Named(NamedKey::Enter), m, now);
            let b = s.board;
            let a = b.active as int;
            let todo = b.todo;
            &&& s.overlay == Overlay::Palette ==> t.board.todo == todo.push(Act::JumpTo)
            &&& s.overlay == Overlay::NewSession && s.selected < s.engines.len() ==> t.board.todo
                == todo.push(Act::SpawnLocal)
            &&& s.overlay == Overlay::RemoteAttach ==> t.board.todo == todo.push(Act::Connect)
            &&& s.overlay == Overlay::Rename && b.tabs.len() > 0 ==> {
                &&& t.overlay == Overlay::Closed
                &&& trimmed(s.rename).len() > 0 ==> t.board.tabs[a].name == Some(trimmed(s.rename))
                &&& trimmed(s.rename).len() == 0 ==> t.board.tabs[a].name is None
                &&& t.board.tabs[a] == (TabView { name: t.board.tabs[a].name, ..b.tabs[a] })
                &&& forall|k: int|
                    0 <= k < b.tabs.len() && k != a ==> #[trigger] t.board.tabs[k] == b.tabs[k]
                &&& t.board.tabs.len() == b.tabs.len()
            }
            &&& s.overlay == Overlay::FleetSearch && s.hunt.sel < s.hunt.matches.len() ==> {
                let h = s.hunt.matches[s.hunt.sel as int];
                &&& t.overlay == Overlay::Closed
                &&& h.tab < b.tabs.len() ==> t.board.active == h.tab && t.copy.line == h.line
                    && t.copy.col == h.col && t.board.tabs[h.tab as int].scrolled
            }
            &&& s.overlay == Overlay::CommandPalette && s.cmd.sel < s.cmd.shown.len() && 0
                <= s.cmd.shown[s.cmd.sel as int] < PALETTE_ROWS@.len() ==> t == (ShellView {
                overlay: Overlay::Closed,
                ..s
            }).performed(PALETTE_ROWS@[s.cmd.shown[s.cmd.sel as int]].1, now)
        }),
{
    reveal(ShellView::overlay_keyed);
    reveal(ShellView::jump_keyed);
    reveal(ShellView::new_keyed);
    reveal(ShellView::remote_keyed);
    reveal(ShellView::hunt_keyed);
    reveal(ShellView::rename_keyed);
    reveal(ShellView::cmd_keyed);
}

/// A line that is broadcast goes to each target and to no other tab; it is remembered in front of
/// all others, and the field is cleared and closed. An empty line goes nowhere.
pub proof fn law_broadcast_is_sent(s: ShellView, m: Mods, now: u64, i: int)
    requires
        s.wf(),
        s.overlay == Overlay::Broadcast,
        0 <= i < s.board.tabs.len(),
    ensures
        ({
            let t = keyed(s, KeyView::Named(NamedKey::Enter), m, now);
            &&& t.overlay == Overlay::Closed && t.cast.query.len() == 0
            &&& s.cast.query.len() > 0 ==> {
                &&& asked(s.board, t.board, Act::Cast(i as usize)) <==> s.board.slots[i].target
                &&& t.cast.last == s.cast.query
                &&& t.cast.history[0] == s.cast.query
                &&& t.cast.history.len() <= 16
                &&& asked(s.board, t.board, Act::SaveBroadcast)
            }
            &&& s.cast.query.len() == 0 ==> t.board == s.board && t.cast.last == s.cast.last
        }),
{
    reveal(ShellView::overlay_keyed);
    reveal(ShellView::cast_keyed);
    let t = keyed(s, KeyView::Named(NamedKey::Enter), m, now);
    if s.cast.query.len() > 0 {
        law_recalled_once(s.cast.history, s.cast.query, 16);
        let mask = s.board.target_mask();
        let list = set_indices(mask);
        lemma_set_indices(mask);
        let c = s.board.cast_to(list);
        assert(t.board.todo == c.todo.push(Act::SaveBroadcast));
        let n = s.board.todo.len() as int;
        assert(t.board.todo[c.todo.len() as int] == Act::SaveBroadcast);
        if s.board.slots[i].target {
            assert(mask[i]);
            let k = list.index_of(i);
            assert(t.board.todo[n + k] == Act::Cast(i as usize));
        }
        if asked(s.board, t.board, Act::Cast(i as usize)) {
            let k = choose|k: int|
                n <= k < t.board.todo.len() && #[trigger] t.board.todo[k] == Act::Cast(i as usize);
            assert(k < c.todo.len());
            assert(c.todo[k] == Act::Cast(list[k - n] as usize));
            assert(list[k - n] == i);
            assert(mask[i]);
        }
    }
}

/// A blank over the broadcast line takes the tab in focus as a target, or drops it, and no other;
/// with shift it takes all, or drops all where all are taken.
pub proof fn law_targets_turn(s: ShellView, now: u64, k: int)
    requires
        s.wf(),
        s.overlay == Overlay::Broadcast,
        s.cast.sel < s.board.tabs.len(),
        0 <= k < s.board.tabs.len(),
    ensures
        ({
            let i = s.cast.sel as int;
            let one = keyed(s, KeyView::Character(" "@), bare(), now).board.slots;
            let all = keyed(s, KeyView::Character(" "@), shifted(), now).board.slots;
            let had = forall|j: int| 0 <= j < s.board.slots.len() ==> (#[trigger] s.board.slots[j]).target;
            &&& one[i] == (Slot { target: !s.board.slots[i].target, ..s.board.slots[i] })
            &&& k != i ==> one[k] == s.board.slots[k]
            &&& all[k] == (Slot { target: !had, ..s.board.slots[k] })
        }),
{
    reveal(ShellView::overlay_keyed);
    reveal(ShellView::cast_keyed);
}

/// The triage list with a row selected, as the keys find it.
pub open spec fn triage_at(s: ShellView, now: u64, i: int) -> bool {
    let p = s.peek_refreshed(now).peek;
    s.overlay == Overlay::Peek && !p.filtering && p.sel < p.shown.len() && p.shown[p.sel as int] == i && 0
        <= i < s.board.tabs.len()
}

/// The keys of the triage list act on the selected session: enter goes to it, r reconnects it where
/// it is down, m mutes it, p pins it and x closes it; a slash starts a filter.
#[verifier::rlimit(40)]
pub proof fn law_triage_keys(s: ShellView, now: u64, i: int)
    requires
        s.wf(),
        triage_at(s, now, i),
        s.board.tabs.len() < usize::MAX,
    ensures
        ({
            let b = s.board;
            let typed = |c: Seq<char>| keyed(s, KeyView::Character(c), bare(), now);
            let goes = keyed(s, KeyView::Named(NamedKey::Enter), bare(), now);
            let down = !b.tabs[i].seen.alive && !b.tabs[i].seen.pty;
            &&& goes.overlay == Overlay::Closed && goes.board.active == i
            &&& down ==> asked(b, typed("r"@).board, Act::Retry(i as usize))
            &&& !down ==> typed("r"@).board == b
            &&& typed("m"@).board.slots == b.slots.update(
                i,
                Slot { muted: !b.slots[i].muted, ..b.slots[i] },
            )
            &&& typed("m"@).board.todo == b.todo.push(Act::SaveMuted)
            &&& typed("p"@).board.slots == b.slots.update(
                i,
                Slot { pinned: !b.slots[i].pinned, ..b.slots[i] },
            )
            &&& !b.slots[i].pinned ==> typed("x"@).board.tabs == b.tabs.remove(i)
            &&& b.slots[i].pinned ==> typed("x"@).board.tabs == b.tabs
            &&& typed("/"@).peek.filtering && typed("/"@).peek.query.len() == 0
            &&& keyed(s, KeyView::Named(NamedKey::Escape), bare(), now).overlay == Overlay::Closed
        }),
{
    lemma_letters();
    let b = s.board;
    lemma_set_indices(b.triage_mask(s.peek.query, now));
    let r = s.peek_refreshed(now);
    assert(r.peek.shown.len() <= b.tabs.len());
    assert(r.peek_tab() == i);
    assert(r.board == b);
    lemma_triage_typed(s, now, "r"@);
    lemma_triage_typed(s, now, "m"@);
    lemma_triage_typed(s, now, "p"@);
    lemma_triage_typed(s, now, "x"@);
    lemma_triage_typed(s, now, "/"@);
    lemma_triage_pressed(s, now, NamedKey::Enter);
    lemma_triage_pressed(s, now, NamedKey::Escape);
    assert(r.peek_typed("r"@, now).board == b.row_retried(i));
    assert(r.peek_typed("m"@, now).board == b.mute_turned(i).asks(Act::SaveMuted));
    assert(r.peek_typed("p"@, now).board == b.pin_turned(i, now));
    assert(r.peek_typed("x"@, now).board == b.closed(i, now));
    reveal(BoardView::row_retried);
    reveal(BoardView::pin_turned);
    if !b.tabs[i].seen.alive && !b.tabs[i].seen.pty {
        let c = keyed(s, KeyView::Character("r"@), bare(), now).board;
        assert(c.todo[b.todo.len() as int] == Act::Retry(i as usize));
    }
}

proof fn lemma_triage_typed(s: ShellView, now: u64, c: Seq<char>)
    requires
        s.overlay == Overlay::Peek,
    ensures
        keyed(s, KeyView::Character(c), bare(), now) == s.peek_refreshed(now).peek_typed(c, now),
{
    reveal(ShellView::overlay_keyed);
    reveal(ShellView::peek_keyed);
}

proof fn lemma_triage_pressed(s: ShellView, now: u64, k: NamedKey)
    requires
        s.overlay == Overlay::Peek,
    ensures
        keyed(s, KeyView::Named(k), bare(), now) == s.peek_refreshed(now).peek_pressed(k, bare()),
{
    reveal(ShellView::overlay_keyed);
    reveal(ShellView::peek_keyed);
}

/// The letters of the lists are one character each.
proof fn lemma_letters()
    ensures
        "r"@.len() == 1 && "r"@[0] == 'r',
        "R"@.len() == 1 && "R"@[0] == 'R',
        "m"@.len() == 1 && "m"@[0] == 'm',
        "M"@.len() == 1 && "M"@[0] == 'M',
        "p"@.len() == 1 && "p"@[0] == 'p',
        "P"@.len() == 1 && "P"@[0] == 'P',
        "n"@.len() == 1 && "n"@[0] == 'n',
        "N"@.len() == 1 && "N"@[0] == 'N',
        "x"@.len() == 1 && "x"@[0] == 'x',
        "b"@.len() == 1 && "b"@[0] == 'b',
        "B"@.len() == 1 && "B"@[0] == 'B',
        "c"@.len() == 1 && "c"@[0] == 'c',
        "w"@.len() == 1 && "w"@[0] == 'w',
        "s"@.len() == 1 && "s"@[0] == 's',
        "/"@.len() == 1 && "/"@[0] == '/',
        " "@.len() == 1 && " "@[0] == ' ',
{
    reveal_strlit("r");
    reveal_strlit("R");
    reveal_strlit("m");
    reveal_strlit("M");
    reveal_strlit("p");
    reveal_strlit("P");
    reveal_strlit("n");
    reveal_strlit("N");
    reveal_strlit("x");
    reveal_strlit("b");
    reveal_strlit("B");
    reveal_strlit("c");
    reveal_strlit("w");
    reveal_strlit("s");
    reveal_strlit("/");
    reveal_strlit(" ");
}

/// In the fleet grid a digit goes to that tile, a blank marks the one in focus, and enter goes to
/// its session and leaves no mark.
pub proof fn law_grid_moves(s: ShellView, now: u64, d: char)
    requires
        s.wf(),
        s.overlay == Overlay::FleetGrid,
        s.grid_sel < s.board.tabs.len(),
        '1' <= d <= '9',
    ensures
        ({
            let b = s.board;
            let i = s.grid_sel as int;
            let typed = |c: char| keyed(s, KeyView::Character(seq![c]), bare(), now);
            let goes = keyed(s, KeyView::Named(NamedKey::Enter), bare(), now);
            let k = d as int - '1' as int;
            &&& k < b.tabs.len() ==> typed(d).grid_sel == k
            &&& k >= b.tabs.len() ==> typed(d) == s
            &&& typed(' ').board.slots == b.slots.update(i, Slot { mark: !b.slots[i].mark, ..b.slots[i] })
            &&& keyed(s, KeyView::Named(NamedKey::Space), bare(), now) == typed(' ')
            &&& goes.overlay == Overlay::Closed && goes.board.active == i
            &&& forall|j: int| 0 <= j < b.slots.len() ==> !(#[trigger] goes.board.slots[j]).mark
        }),
{
    reveal(ShellView::overlay_keyed);
    reveal(ShellView::grid_keyed);
}

/// In the fleet grid r reconnects the session in focus, m mutes it, p pins it and x closes it.
#[verifier::rlimit(40)]
pub proof fn law_grid_acts(s: ShellView, now: u64)
    requires
        s.wf(),
        s.overlay == Overlay::FleetGrid,
        s.grid_sel < s.board.tabs.len(),
    ensures
        ({
            let b = s.board;
            let i = s.grid_sel as int;
            let typed = |c: char| keyed(s, KeyView::Character(seq![c]), bare(), now);
            let down = !b.tabs[i].seen.alive && !b.tabs[i].seen.pty;
            &&& down ==> asked(b, typed('r').board, Act::Retry(i as usize))
            &&& !down ==> typed('r').board == b
            &&& typed('m').board.slots == b.slots.update(
                i,
                Slot { muted: !b.slots[i].muted, ..b.slots[i] },
            )
            &&& typed('p').board.slots == b.slots.update(
                i,
                Slot { pinned: !b.slots[i].pinned, ..b.slots[i] },
            )
            &&& !b.slots[i].pinned ==> typed('x').board.tabs == b.tabs.remove(i)
            &&& b.slots[i].pinned ==> typed('x').board.tabs == b.tabs
        }),
{
    reveal(ShellView::overlay_keyed);
    reveal(ShellView::grid_keyed);
    let b = s.board;
    let i = s.grid_sel as int;
    let typed = |c: char| keyed(s, KeyView::Character(seq![c]), bare(), now);
    assert(typed('r') == s.grid_typed('r', now));
    assert(typed('m') == s.grid_typed('m', now));
    assert(typed('p') == s.grid_typed('p', now));
    assert(typed('x') == s.grid_typed('x', now));
    reveal(BoardView::row_retried);
    reveal(BoardView::pin_turned);
    if !b.tabs[i].seen.alive && !b.tabs[i].seen.pty {
        let c = typed('r').board;
        assert(c.todo[b.todo.len() as int] == Act::Retry(i as usize));
    }
}

/// In the fleet grid the capitals R, C and X reconnect, interrupt and close the marked sessions.
pub proof fn law_grid_bulk(s: ShellView, now: u64)
    requires
        s.wf(),
        s.overlay == Overlay::FleetGrid,
    ensures
        keyed(s, KeyView::Character(seq!['R']), bare(), now).board == s.board.marked_retried(now),
        keyed(s, KeyView::Character(seq!['C']), bare(), now).board == s.board.marked_halted(now),
        keyed(s, KeyView::Character(seq!['X']), bare(), now).board == s.board.marked_closed(now),
{
    reveal(ShellView::overlay_keyed);
    reveal(ShellView::grid_keyed);
}

/// A broadcast from the fleet grid is aimed at the marked sessions, and at all where none is
/// marked.
pub proof fn law_grid_aims(s: ShellView, now: u64, k: int)
    requires
        s.wf(),
        s.overlay == Overlay::FleetGrid,
        0 <= k < s.board.tabs.len(),
    ensures
        ({
            let t = keyed(s, KeyView::Character(seq!['b']), bare(), now).board.slots;
            let some = exists|j: int| 0 <= j < s.board.slots.len() && (#[trigger] s.board.slots[j]).mark;
            &&& some ==> t[k].target == s.board.slots[k].mark
            &&& !some ==> t[k].target
            &&& !t[k].mark
        }),
{
    reveal(ShellView::overlay_keyed);
    reveal(ShellView::grid_keyed);
    let m = s.board.mark_mask();
    lemma_set_indices(m);
    if exists|j: int| 0 <= j < s.board.slots.len() && (#[trigger] s.board.slots[j]).mark {
        let j = choose|j: int| 0 <= j < s.board.slots.len() && (#[trigger] s.board.slots[j]).mark;
        assert(m[j]);
        assert(set_indices(m).contains(j));
    } else if set_indices(m).len() > 0 {
        let j = set_indices(m)[0];
        assert(m[j] && s.board.slots[j].mark);
    }
}

/// The keys over the sessions of one machine: r reconnects those of them that are down, and no
/// other; b opens a line to broadcast to all of them, and to no other.
pub proof fn law_machine_keys(s: ShellView, now: u64, h: Seq<char>, i: int)
    requires
        s.wf(),
        s.overlay == Overlay::Hosts,
        s.hosts_host == Some(h),
        0 <= i < s.board.tabs.len(),
    ensures
        ({
            let b = s.board;
            let here = machine(b.tabs[i].host) == h;
            let r = keyed(s, KeyView::Character("r"@), bare(), now).board;
            let t = keyed(s, KeyView::Character("b"@), bare(), now);
            &&& asked(b, r, Act::Retry(i as usize)) <==> here && !b.tabs[i].seen.alive
                && !b.tabs[i].seen.pty
            &&& r.todo.last() == Act::Report(Round::Machine)
            &&& t.overlay == Overlay::Broadcast && t.board.slots[i].target == here
        }),
{
    reveal(ShellView::overlay_keyed);
    reveal(ShellView::host_typed);
    lemma_letters();
    let b = s.board;
    let mask = b.fallen_on(h);
    let list = set_indices(mask);
    lemma_set_indices(mask);
    let r = keyed(s, KeyView::Character("r"@), bare(), now).board;
    let n = b.todo.len() as int;
    let f = |i: int| Act::Retry(i as usize);
    assert(r.todo == (b.todo + list.map_values(f)).push(Act::Report(Round::Machine)));
    if mask[i] {
        let k = list.index_of(i);
        assert(r.todo[n + k] == Act::Retry(i as usize));
    }
    if asked(b, r, Act::Retry(i as usize)) {
        let k = choose|k: int| n <= k < r.todo.len() && #[trigger] r.todo[k] == Act::Retry(i as usize);
        assert(k < n + list.len());
        assert(r.todo[k] == f(list[k - n]));
        assert(list[k - n] == i);
        assert(mask[i]);
    }
}

/// The options of the find bar turn while nothing is typed, and search again.
pub proof fn law_find_options(s: ShellView, now: u64)
    requires
        s.overlay == Overlay::Find,
        s.finder.query.len() == 0,
    ensures
        ({
            let c = keyed(s, KeyView::Character("c"@), bare(), now);
            let w = keyed(s, KeyView::Character("w"@), bare(), now);
            &&& c.finder == (FinderView { case_sensitive: !s.finder.case_sensitive, ..s.finder })
            &&& w.finder == (FinderView { whole_word: !s.finder.whole_word, ..s.finder })
            &&& c.board.todo == s.board.todo.push(Act::SaveFindOptions).push(Act::FindAll)
            &&& w.board.todo == c.board.todo
        }),
{
    reveal(ShellView::overlay_keyed);
    reveal(ShellView::find_keyed);
    lemma_letters();
}

/// Stepping through the matches goes to the next, or to the one before, round the ends, and brings
/// its line into view, as far as the scrollback goes.
pub proof fn law_find_steps(s: ShellView, forward: bool)
    requires
        s.wf(),
        s.board.tabs.len() > 0,
        s.finder.index < s.finder.all.len() <= usize::MAX,
        s.board.tabs[s.board.active as int].offset <= s.board.tabs[s.board.active as int].depth,
    ensures
        ({
            let n = s.finder.all.len();
            let k = s.finder.index as int;
            let t = s.find_stepped(forward);
            let a = t.board.tabs[s.board.active as int];
            let line = s.finder.all[t.finder.index as int].0;
            &&& forward && k + 1 < n ==> t.finder.index == k + 1
            &&& forward && k + 1 == n ==> t.finder.index == 0
            &&& !forward && k > 0 ==> t.finder.index == k - 1
            &&& !forward && k == 0 ==> t.finder.index == n - 1
            &&& t.finder.hit == Some(s.finder.all[t.finder.index as int])
            &&& t.finder.all == s.finder.all && t.finder.query == s.finder.query
            &&& a.scrolled
            &&& line >= 0 ==> a.offset == 0
            &&& line < 0 && -line <= a.depth ==> a.offset == -line
            &&& line < 0 && -line > a.depth ==> a.offset == a.depth
        }),
{
    let n = s.finder.all.len() as int;
    let k = s.finder.index as int;
    if forward {
        if k + 1 < n {
            vstd::arithmetic::div_mod::lemma_small_mod((k + 1) as nat, n as nat);
        } else {
            vstd::arithmetic::div_mod::lemma_mod_self_0(n);
        }
    } else if k > 0 {
        vstd::arithmetic::div_mod::lemma_small_mod((k - 1) as nat, n as nat);
    } else {
        vstd::arithmetic::div_mod::lemma_mod_add_multiples_vanish(-1, n);
        vstd::arithmetic::div_mod::lemma_small_mod((n - 1) as nat, n as nat);
    }
}

/// New matches put the focus on the first that is on the line that was in focus or below it, and on
/// the first of all where there is none; nothing is in focus where there is no match.
pub proof fn law_found_keeps_the_place(f: FinderView, all: Seq<Find>)
    requires
        all.len() <= usize::MAX,
    ensures
        ({
            let g = f.found(all);
            let i = g.index as int;
            &&& g.all == all
            &&& all.len() == 0 ==> g.hit is None
            &&& all.len() > 0 ==> i < all.len() && g.hit == Some(all[i])
            &&& f.hit is None ==> i == 0
            &&& all.len() > 0 ==> (f.hit matches Some(h) ==> {
                &&& all[i].0 >= h.0 ==> forall|j: int| 0 <= j < i ==> (#[trigger] all[j]).0 < h.0
                &&& all[i].0 < h.0 ==> i == 0 && forall|j: int|
                    0 <= j < all.len() ==> (#[trigger] all[j]).0 < h.0
            })
        }),
{
    if let Some(h) = f.hit {
        lemma_first_from(all, h.0, 0);
    }
}

proof fn lemma_first_from(all: Seq<Find>, line: i32, from: int)
    requires
        0 <= from <= all.len(),
    ensures
        match first_from(all, line, from) {
            Some(i) => from <= i < all.len() && all[i].0 >= line && forall|j: int|
                from <= j < i ==> (#[trigger] all[j]).0 < line,
            None => forall|j: int| from <= j < all.len() ==> (#[trigger] all[j]).0 < line,
        },
    decreases all.len() - from,
{
    if from < all.len() && all[from].0 < line {
        lemma_first_from(all, line, from + 1);
    }
}

/// The view moves by as many lines as are asked for, within the scrollback, and the window is told
/// by how many; no other tab moves.
pub proof fn law_view_moves(b: BoardView, lines: int, k: int)
    requires
        b.wf(),
        b.tabs.len() > 0,
        0 <= k < b.tabs.len(),
        k != b.active,
        b.tabs[b.active as int].offset <= b.tabs[b.active as int].depth,
    ensures
        ({
            let t = b.tabs[b.active as int];
            let c = b.scrolled_by(lines);
            let u = c.tabs[b.active as int];
            &&& 0 <= t.offset + lines <= t.depth ==> u.offset == t.offset + lines
            &&& t.offset + lines < 0 ==> u.offset == 0
            &&& t.offset + lines > t.depth ==> u.offset == t.depth
            &&& u == (TabView { offset: u.offset, ..t })
            &&& c.tabs[k] == b.tabs[k]
            &&& c.todo == b.todo.push(Act::Scroll((u.offset - t.offset) as i64))
        }),
{
}

/// The selected row of the search over all sessions goes round its matches.
pub proof fn law_hunt_steps(h: HuntView)
    requires
        h.sel < h.matches.len() <= usize::MAX,
    ensures
        h.sel + 1 < h.matches.len() ==> h.stepped(true).sel == h.sel + 1,
        h.sel + 1 == h.matches.len() ==> h.stepped(true).sel == 0,
        h.sel > 0 ==> h.stepped(false).sel == h.sel - 1,
        h.sel == 0 ==> h.stepped(false).sel == h.matches.len() - 1,
        h.stepped(true).matches == h.matches && h.stepped(false).matches == h.matches,
{
    let n = h.matches.len() as int;
    let k = h.sel as int;
    if k + 1 < n {
        vstd::arithmetic::div_mod::lemma_small_mod((k + 1) as nat, n as nat);
    } else {
        vstd::arithmetic::div_mod::lemma_mod_self_0(n);
    }
    if k > 0 {
        vstd::arithmetic::div_mod::lemma_small_mod((k - 1) as nat, n as nat);
    } else {
        vstd::arithmetic::div_mod::lemma_mod_add_multiples_vanish(-1, n);
        vstd::arithmetic::div_mod::lemma_small_mod((n - 1) as nat, n as nat);
    }
}

} // verus!
