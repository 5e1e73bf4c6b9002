//! The commands behind the prefix key.

use vstd::prelude::*;

use crate::board::Act;
use crate::keys::{Key, KeyView, Mods, NamedKey};
use crate::lists::PaletteAction;
use crate::shell::{key_rows, Shell, ShellView};
use crate::text::{chars_of, same_text};

verus! {

/// What a key behind the prefix does.
#[derive(Clone, Copy, Debug, PartialEq, Eq, Structural)]
pub enum Command {
    /// What a row of the command palette does.
    Do(PaletteAction),
    LocalShell,
    Fleet,
    GotoFirst,
    LastWindow,
    Paste,
    CloseTab,
    MoveLeft,
    MoveRight,
    CopyMode,
    CommandPalette,
}

/// The actions by the names that the configuration gives them.
pub const ACTIONS: [(&'static str, PaletteAction); 37] = [
    ("palette", PaletteAction::SessionPalette),
    ("new_session", PaletteAction::NewSession),
    ("remote_attach", PaletteAction::RemoteAttach),
    ("quit", PaletteAction::Quit),
    ("fleet_grid", PaletteAction::FleetGrid),
    ("next_busy", PaletteAction::NextBusy),
    ("next_quiet", PaletteAction::NextQuiet),
    ("next_down", PaletteAction::NextDown),
    ("next_host", PaletteAction::NextHost),
    ("hosts", PaletteAction::Hosts),
    ("dnd", PaletteAction::Dnd),
    ("mute", PaletteAction::MuteActive),
    ("interrupt", PaletteAction::Interrupt),
    ("pin", PaletteAction::Pin),
    ("next_pinned", PaletteAction::NextPinned),
    ("reconnect", PaletteAction::Reconnect),
    ("reconnect_all", PaletteAction::ReconnectAll),
    ("destroy", PaletteAction::Destroy),
    ("broadcast", PaletteAction::Broadcast),
    ("close_quiet", PaletteAction::CloseQuiet),
    ("copy_scrollback", PaletteAction::CopyScrollback),
    ("export_scrollback", PaletteAction::ExportLog),
    ("copy_identity", PaletteAction::CopyIdentity),
    ("copy_fleet", PaletteAction::CopyFleet),
    ("peek", PaletteAction::Peek),
    ("undo_close", PaletteAction::UndoClose),
    ("duplicate", PaletteAction::Duplicate),
    ("page_up", PaletteAction::PageUp),
    ("scroll_bottom", PaletteAction::ScrollBottom),
    ("scroll_top", PaletteAction::ScrollTop),
    ("search", PaletteAction::FindInTab),
    ("search_all", PaletteAction::SearchAll),
    ("help", PaletteAction::Help),
    ("session_info", PaletteAction::SessionInfo),
    ("mark_all_read", PaletteAction::MarkAllRead),
    ("toggle_focus", PaletteAction::ToggleFocus),
    ("rename", PaletteAction::Rename),
];

/// The action with a name, from row `from` on.
pub open spec fn action_from(name: Seq<char>, from: int) -> Option<PaletteAction>
    decreases ACTIONS@.len() - from,
{
    if from < 0 || from >= ACTIONS@.len() {
        None
    } else if ACTIONS@[from].0@ == name {
        Some(ACTIONS@[from].1)
    } else {
        action_from(name, from + 1)
    }
}

/// The command with a name.
pub open spec fn named(name: Seq<char>) -> Option<Command> {
    match action_from(name, 0) {
        Some(a) => Some(Command::Do(a)),
        None => if name == "local_shell"@ {
            Some(Command::LocalShell)
        } else if name == "fleet"@ {
            Some(Command::Fleet)
        } else if name == "goto_tab0"@ {
            Some(Command::GotoFirst)
        } else if name == "last_window"@ {
            Some(Command::LastWindow)
        } else if name == "paste"@ {
            Some(Command::Paste)
        } else if name == "close_tab"@ {
            Some(Command::CloseTab)
        } else if name == "move_left"@ {
            Some(Command::MoveLeft)
        } else if name == "move_right"@ {
            Some(Command::MoveRight)
        } else if name == "copy_mode"@ {
            Some(Command::CopyMode)
        } else if name == "command_palette"@ {
            Some(Command::CommandPalette)
        } else {
            None
        },
    }
}

/// The command with a name.
pub fn command_named(name: &str) -> (r: Option<Command>)
    ensures
        r == named(name@),
{
    let rows = ACTIONS;
    let n: usize = rows.len();
    let mut i: usize = 0;
    while i < n
        invariant
            i <= n,
            n == ACTIONS@.len(),
            rows == ACTIONS,
            action_from(name@, 0) == action_from(name@, i as int),
        decreases n - i,
    {
        if same_text(rows[i].0, name) {
            return Some(Command::Do(rows[i].1));
        }
        i = i + 1;
    }
    if same_text(name, "local_shell") {
        Some(Command::LocalShell)
    } else if same_text(name, "fleet") {
        Some(Command::Fleet)
    } else if same_text(name, "goto_tab0") {
        Some(Command::GotoFirst)
    } else if same_text(name, "last_window") {
        Some(Command::LastWindow)
    } else if same_text(name, "paste") {
        Some(Command::Paste)
    } else if same_text(name, "close_tab") {
        Some(Command::CloseTab)
    } else if same_text(name, "move_left") {
        Some(Command::MoveLeft)
    } else if same_text(name, "move_right") {
        Some(Command::MoveRight)
    } else if same_text(name, "copy_mode") {
        Some(Command::CopyMode)
    } else if same_text(name, "command_palette") {
        Some(Command::CommandPalette)
    } else {
        None
    }
}

/// The name that a key stands for, from row `from` on.
pub open spec fn bound_from(rows: Seq<(Seq<char>, Seq<char>)>, key: Seq<char>, from: int) -> Option<
    Seq<char>,
>
    decreases rows.len() - from,
{
    if from < 0 || from >= rows.len() {
        None
    } else if rows[from].0 == key {
        Some(rows[from].1)
    } else {
        bound_from(rows, key, from + 1)
    }
}

/// The command that a key stands for.
pub open spec fn bound_to(rows: Seq<(Seq<char>, Seq<char>)>, key: Seq<char>) -> Option<Command> {
    match bound_from(rows, key, 0) {
        Some(name) => named(name),
        None => None,
    }
}

fn command_for(rows: &Vec<(String, String)>, key: &str) -> (r: Option<Command>)
    ensures
        r == bound_to(key_rows(rows@), key@),
{
    let mut i: usize = 0;
    while i < rows.len()
        invariant
            i <= rows@.len(),
            bound_from(key_rows(rows@), key@, 0) == bound_from(key_rows(rows@), key@, i as int),
        decreases rows@.len() - i,
    {
        if same_text(rows[i].0.as_str(), key) {
            return command_named(rows[i].1.as_str());
        }
        i = i + 1;
    }
    None
}

/// The digit that a text is, where it is one.
pub open spec fn single_digit(c: Seq<char>) -> Option<int> {
    if c.len() == 1 && '0' <= c[0] <= '9' {
        Some(c[0] as int - '0' as int)
    } else {
        None
    }
}

fn digit_of(c: &str) -> (r: Option<usize>)
    ensures
        match r {
            Some(d) => single_digit(c@) == Some(d as int) && d <= 9,
            None => single_digit(c@) is None,
        },
{
    let v = chars_of(c);
    if v.len() == 1 && '0' <= v[0] && v[0] <= '9' {
        Some((v[0] as u32 - 48) as usize)
    } else {
        None
    }
}

impl ShellView {
    /// After a command.
    #[verifier::opaque]
    pub open spec fn commanded(self, c: Command, now: u64) -> ShellView {
        match c {
            Command::Do(a) => self.performed(a, now),
            Command::LocalShell => self.asks(Act::SpawnShell),
            Command::Fleet => self.surveying(),
            Command::GotoFirst => self.gone_to(0),
            Command::LastWindow => self.on(self.board.flipped()),
            Command::Paste => self.asks(Act::Paste),
            Command::CloseTab => self.closing(now),
            Command::MoveLeft => self.on(self.board.shifted(false)),
            Command::MoveRight => self.on(self.board.shifted(true)),
            Command::CopyMode => {
                let b = self.board;
                ShellView {
                    copy: self.copy.started(b),
                    board: if b.active < b.tabs.len() && b.tabs[b.active as int].depth > 0 {
                        b.held(true)
                    } else {
                        b
                    },
                    ..self
                }
            },
            Command::CommandPalette => self.commanding(),
        }
    }

    /// After a key behind the prefix: a digit goes to that tab, or to the last for a zero, whatever
    /// the keys are bound to; so does the tab key to the next one.
    #[verifier::opaque]
    pub open spec fn command_keyed(self, key: KeyView, m: Mods, now: u64) -> ShellView {
        match key {
            KeyView::Character(c) => match single_digit(c) {
                Some(d) => if d > 0 {
                    self.gone_to(d - 1)
                } else if self.board.tabs.len() > 0 {
                    self.gone_to(self.board.tabs.len() - 1)
                } else {
                    self
                },
                None => match bound_to(self.keymap, c) {
                    Some(k) => self.commanded(k, now),
                    None => self,
                },
            },
            KeyView::Named(NamedKey::Tab) => self.on(self.board.turned(!m.shift)),
            _ => self,
        }
    }
}

impl Shell {
    /// Runs a command.
    pub fn run_command(&mut self, c: Command, now: u64)
        requires
            old(self)@.wf(),
        ensures
            final(self)@ == old(self)@.commanded(c, now),
            final(self)@.wf(),
    {
        proof {
            reveal(ShellView::commanded);
        }
        match c {
            Command::Do(a) => self.perform(a, now),
            Command::LocalShell => self.board.ask(Act::SpawnShell),
            Command::Fleet => self.open_fleet(),
            Command::GotoFirst => self.go_to(0),
            Command::LastWindow => self.board.last_window(),
            Command::Paste => self.board.ask(Act::Paste),
            Command::CloseTab => self.close_active_tab(now),
            Command::MoveLeft => self.board.move_tab(false),
            Command::MoveRight => self.board.move_tab(true),
            Command::CopyMode => self.copy.start(&mut self.board),
            Command::CommandPalette => self.open_commands(),
        }
    }

    /// Handles a key behind the prefix.
    pub fn command_key(&mut self, key: &Key, mods: &Mods, now: u64)
        requires
            old(self)@.wf(),
        ensures
            final(self)@ == old(self)@.command_keyed(key@, *mods, now),
            final(self)@.wf(),
    {
        proof {
            reveal(ShellView::command_keyed);
        }
        match key {
            Key::Character(c) => {
                match digit_of(c.as_str()) {
                    Some(d) => {
                        let n: usize = self.board.tabs.len();
                        if d > 0 {
                            self.go_to(d - 1);
                        } else if n > 0 {
                            self.go_to(n - 1);
                        }
                    },
                    None => {
                        if let Some(k) = command_for(&self.keymap, c.as_str()) {
                            self.run_command(k, now);
                        }
                    },
                }
            },
            Key::Named(n) => {
                if *n == NamedKey::Tab {
                    self.board.turn(!mods.shift);
                }
            },
            Key::Other => {},
        }
    }
}

/// Digits and the tab key cannot be bound to anything else.
pub proof fn law_digits_stay(s: ShellView, t: ShellView, c: Seq<char>, m: Mods, now: u64)
    requires
        single_digit(c) is Some,
        t == (ShellView { keymap: t.keymap, ..s }),
    ensures
        s.command_keyed(KeyView::Character(c), m, now).board == t.command_keyed(
            KeyView::Character(c),
            m,
            now,
        ).board,
        s.command_keyed(KeyView::Named(NamedKey::Tab), m, now).board == t.command_keyed(
            KeyView::Named(NamedKey::Tab),
            m,
            now,
        ).board,
{
    reveal(ShellView::command_keyed);
}

} // verus!
