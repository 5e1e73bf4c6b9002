//! The window's state and its commands: which overlay is open, what has been typed into it, and
//! what each command does.

use vstd::prelude::*;
use vstd::string::*;

use crate::board::{Act, Board, BoardView};
use crate::copying::{CopyMode, CopyView};
use crate::finding::{kept, keep_within, Finder, FinderView, Hunt, HuntView};
use crate::geometry::Metrics;
use crate::keys::CmdShortcut;
use crate::lists::{
    fleet_mask, fleet_shown, fleet_views, palette_mask, palette_shown, FleetRow, FleetRowView,
    PaletteAction,
};
use crate::menu::{CtxMenu, MenuView};
use crate::seqs::{ints, set_indices};
use crate::tabs::{opt_text, TabView};
use crate::text::{copy_text, texts};
use crate::triage::{first_down, first_down_session, strs};

verus! {

/// What lies over the grid.
#[derive(Clone, Copy, Debug, PartialEq, Eq, Structural)]
pub enum Overlay {
    /// Nothing.
    Closed,
    Palette,
    NewSession,
    RemoteAttach,
    Find,
    FleetSearch,
    Fleet,
    Hosts,
    Help,
    Info,
    Rename,
    Broadcast,
    Peek,
    FleetGrid,
    CommandPalette,
}

/// The list of sessions to jump to.
pub struct Jump {
    pub query: String,
    /// How many sessions the query leaves.
    pub shown: usize,
}

#[verifier::ext_equal]
pub struct JumpView {
    pub query: Seq<char>,
    pub shown: usize,
}

impl View for Jump {
    type V = JumpView;

    open spec fn view(&self) -> JumpView {
        JumpView { query: self.query@, shown: self.shown }
    }
}

/// The list of the sessions that the daemon knows of.
pub struct FleetList {
    pub query: String,
    pub rows: Vec<FleetRow>,
    /// The rows that the query leaves.
    pub shown: Vec<usize>,
}

#[verifier::ext_equal]
pub struct FleetListView {
    pub query: Seq<char>,
    pub rows: Seq<FleetRowView>,
    pub shown: Seq<int>,
}

impl View for FleetList {
    type V = FleetListView;

    open spec fn view(&self) -> FleetListView {
        FleetListView {
            query: self.query@,
            rows: fleet_views(self.rows@),
            shown: ints(self.shown@),
        }
    }
}

impl FleetListView {
    /// With the rows that the query leaves.
    pub open spec fn refreshed(self) -> FleetListView {
        FleetListView { shown: set_indices(fleet_mask(self.rows, self.query)), ..self }
    }
}

impl FleetList {
    /// Filters the list by its query.
    pub fn refresh(&mut self)
        ensures
            final(self)@ == old(self)@.refreshed(),
    {
        self.shown = fleet_shown(&self.rows, self.query.as_str());
    }
}

/// A line to send to many sessions.
pub struct Cast {
    pub query: String,
    /// The line that was sent last.
    pub last: String,
    /// The lines that were sent, the latest first.
    pub history: Vec<String>,
    /// Which of them is recalled.
    pub recall: Option<usize>,
    /// The row in focus.
    pub sel: usize,
}

#[verifier::ext_equal]
pub struct CastView {
    pub query: Seq<char>,
    pub last: Seq<char>,
    pub history: Seq<Seq<char>>,
    pub recall: Option<usize>,
    pub sel: usize,
}

impl View for Cast {
    type V = CastView;

    open spec fn view(&self) -> CastView {
        CastView {
            query: self.query@,
            last: self.last@,
            history: texts(self.history@),
            recall: self.recall,
            sel: self.sel,
        }
    }
}

/// The list of all sessions to triage.
pub struct Peek {
    pub query: String,
    /// The query is being typed.
    pub filtering: bool,
    /// The tabs that the query leaves.
    pub shown: Vec<usize>,
    pub sel: usize,
    /// The first row in view.
    pub scroll: usize,
}

#[verifier::ext_equal]
pub struct PeekView {
    pub query: Seq<char>,
    pub filtering: bool,
    pub shown: Seq<int>,
    pub sel: usize,
    pub scroll: usize,
}

impl View for Peek {
    type V = PeekView;

    open spec fn view(&self) -> PeekView {
        PeekView {
            query: self.query@,
            filtering: self.filtering,
            shown: ints(self.shown@),
            sel: self.sel,
            scroll: self.scroll,
        }
    }
}

/// The command palette.
pub struct Commands {
    pub query: String,
    /// The rows that the query leaves.
    pub shown: Vec<usize>,
    pub sel: usize,
}

#[verifier::ext_equal]
pub struct CommandsView {
    pub query: Seq<char>,
    pub shown: Seq<int>,
    pub sel: usize,
}

impl View for Commands {
    type V = CommandsView;

    open spec fn view(&self) -> CommandsView {
        CommandsView { query: self.query@, shown: ints(self.shown@), sel: self.sel }
    }
}

impl CommandsView {
    /// With the rows that the query leaves, and the selection among them.
    pub open spec fn refreshed(self) -> CommandsView {
        let shown = set_indices(palette_mask(self.query));
        CommandsView { shown, sel: kept(self.sel, shown.len()), ..self }
    }

    /// As it is when opened.
    pub open spec fn opened(self) -> CommandsView {
        CommandsView { query: Seq::empty(), sel: 0, ..self }.refreshed()
    }
}

impl Commands {
    /// Filters the rows by the query.
    pub fn refresh(&mut self)
        ensures
            final(self)@ == old(self)@.refreshed(),
    {
        self.shown = palette_shown(self.query.as_str());
        self.sel = keep_within(self.sel, self.shown.len());
    }

    /// Opens the palette with every row.
    pub fn open(&mut self)
        ensures
            final(self)@ == old(self)@.opened(),
    {
        self.query = String::new();
        self.sel = 0;
        self.refresh();
    }
}

/// The key that starts a command.
pub struct Prefix {
    /// It was pressed, and a command follows.
    pub down: bool,
    /// The letter that makes the chord, with the control key.
    pub key: String,
    /// The chord as it is shown.
    pub chord: String,
    /// The system keeps the chord with the space bar for itself.
    pub claimed: bool,
    /// That has been said.
    pub noticed: bool,
    /// What is said of it.
    pub notice: String,
}

#[verifier::ext_equal]
pub struct PrefixView {
    pub down: bool,
    pub key: Seq<char>,
    pub chord: Seq<char>,
    pub claimed: bool,
    pub noticed: bool,
    pub notice: Seq<char>,
}

impl View for Prefix {
    type V = PrefixView;

    open spec fn view(&self) -> PrefixView {
        PrefixView {
            down: self.down,
            key: self.key@,
            chord: self.chord@,
            claimed: self.claimed,
            noticed: self.noticed,
            notice: self.notice@,
        }
    }
}

/// What is known of the pointer. Places are in pixels from the window's corner.
pub struct Pointer {
    pub x: i64,
    pub y: i64,
    /// The left button is held.
    pub held: bool,
    /// The cell that the active session was last told of.
    pub told: Option<(usize, usize)>,
    pub over_link: bool,
    /// The last press: when, where, and how many there were in a row.
    pub press: Option<(u64, i64, i64, u32)>,
    /// The cell where a selection started that is being drawn.
    pub anchor: Option<(usize, usize)>,
    /// Where each tab was drawn in the bar: its left edge, and the place behind it.
    pub rects: Vec<(usize, usize)>,
    /// Where the button for a new tab was drawn: its corner and its size.
    pub new_tab: Option<(usize, usize, usize, usize)>,
}

#[verifier::ext_equal]
pub struct PointerView {
    pub x: i64,
    pub y: i64,
    pub held: bool,
    pub told: Option<(usize, usize)>,
    pub over_link: bool,
    pub press: Option<(u64, i64, i64, u32)>,
    pub anchor: Option<(usize, usize)>,
    pub rects: Seq<(usize, usize)>,
    pub new_tab: Option<(usize, usize, usize, usize)>,
}

impl View for Pointer {
    type V = PointerView;

    open spec fn view(&self) -> PointerView {
        PointerView {
            x: self.x,
            y: self.y,
            held: self.held,
            told: self.told,
            over_link: self.over_link,
            press: self.press,
            anchor: self.anchor,
            rects: self.rects@,
            new_tab: self.new_tab,
        }
    }
}

/// The keys and the commands they stand for, as plain data.
pub open spec fn key_rows(v: Seq<(String, String)>) -> Seq<(Seq<char>, Seq<char>)> {
    v.map_values(|p: (String, String)| (p.0@, p.1@))
}

/// The window's state.
pub struct Shell {
    pub board: Board,
    pub overlay: Overlay,
    /// The row in focus of the lists that share one.
    pub selected: usize,
    pub jump: Jump,
    /// The engines by their names.
    pub engines: Vec<String>,
    /// The directory for a new session.
    pub new_cwd: String,
    /// The directories that sessions were opened in, the latest first.
    pub last_dirs: Vec<String>,
    /// The machine to connect to.
    pub remote: String,
    /// The machines that were connected to, the latest first.
    pub recent_hosts: Vec<String>,
    /// The port for a machine without one.
    pub port: u16,
    pub finder: Finder,
    pub hunt: Hunt,
    pub fleet: FleetList,
    pub hosts_sel: usize,
    /// The machine that is looked into.
    pub hosts_host: Option<String>,
    /// The new name of the active session.
    pub rename: String,
    pub cast: Cast,
    pub peek: Peek,
    /// The tile in focus of the fleet grid.
    pub grid_sel: usize,
    pub cmd: Commands,
    pub copy: CopyMode,
    pub menu: Option<CtxMenu>,
    pub prefix: Prefix,
    /// The keys behind the prefix, and the commands they stand for.
    pub keymap: Vec<(String, String)>,
    pub metrics: Metrics,
    pub mouse: Pointer,
    /// A session's own window has a bar at the bottom.
    pub status_bar: bool,
    /// Some session printed something in the last frame.
    pub live_busy: bool,
    /// When the daemon was last asked for the fleet.
    pub fleet_polled: u64,
    /// The session that is being duplicated is pinned.
    pub fork_pinned: bool,
    pub quit: bool,
    /// The active tab is to be closed.
    pub close_active: bool,
}

/// The window's state as plain data.
pub struct ShellView {
    pub board: BoardView,
    pub overlay: Overlay,
    pub selected: usize,
    pub jump: JumpView,
    pub engines: Seq<Seq<char>>,
    pub new_cwd: Seq<char>,
    pub last_dirs: Seq<Seq<char>>,
    pub remote: Seq<char>,
    pub recent_hosts: Seq<Seq<char>>,
    pub port: u16,
    pub finder: FinderView,
    pub hunt: HuntView,
    pub fleet: FleetListView,
    pub hosts_sel: usize,
    pub hosts_host: Option<Seq<char>>,
    pub rename: Seq<char>,
    pub cast: CastView,
    pub peek: PeekView,
    pub grid_sel: usize,
    pub cmd: CommandsView,
    pub copy: CopyView,
    pub menu: Option<MenuView>,
    pub prefix: PrefixView,
    pub keymap: Seq<(Seq<char>, Seq<char>)>,
    pub metrics: Metrics,
    pub mouse: PointerView,
    pub status_bar: bool,
    pub live_busy: bool,
    pub fleet_polled: u64,
    pub fork_pinned: bool,
    pub quit: bool,
    pub close_active: bool,
}

impl View for Shell {
    type V = ShellView;

    open spec fn view(&self) -> ShellView {
        ShellView {
            board: self.board@,
            overlay: self.overlay,
            selected: self.selected,
            jump: self.jump@,
            engines: texts(self.engines@),
            new_cwd: self.new_cwd@,
            last_dirs: texts(self.last_dirs@),
            remote: self.remote@,
            recent_hosts: texts(self.recent_hosts@),
            port: self.port,
            finder: self.finder@,
            hunt: self.hunt@,
            fleet: self.fleet@,
            hosts_sel: self.hosts_sel,
            hosts_host: opt_text(self.hosts_host),
            rename: self.rename@,
            cast: self.cast@,
            peek: self.peek@,
            grid_sel: self.grid_sel,
            cmd: self.cmd@,
            copy: self.copy@,
            menu: match self.menu {
                Some(m) => Some(m@),
                None => None,
            },
            prefix: self.prefix@,
            keymap: key_rows(self.keymap@),
            metrics: self.metrics,
            mouse: self.mouse@,
            status_bar: self.status_bar,
            live_busy: self.live_busy,
            fleet_polled: self.fleet_polled,
            fork_pinned: self.fork_pinned,
            quit: self.quit,
            close_active: self.close_active,
        }
    }
}

/// The first of a list, or an empty text.
pub open spec fn first_text(s: Seq<Seq<char>>) -> Seq<char> {
    if s.len() == 0 {
        Seq::empty()
    } else {
        s[0]
    }
}

fn first_of(v: &Vec<String>) -> (r: String)
    ensures
        r@ == first_text(texts(v@)),
{
    if v.len() == 0 {
        String::new()
    } else {
        copy_text(v[0].as_str())
    }
}

impl ShellView {
    /// Whether the slots belong to the tabs, and the active tab is one of them.
    pub open spec fn wf(self) -> bool {
        self.board.wf()
    }

    pub open spec fn asks(self, a: Act) -> ShellView {
        ShellView { board: self.board.asks(a), ..self }
    }

    pub open spec fn says(self, text: Seq<char>, now: u64) -> ShellView {
        ShellView { board: self.board.says(text, now), ..self }
    }

    pub open spec fn on(self, board: BoardView) -> ShellView {
        ShellView { board, ..self }
    }

    pub open spec fn over(self, overlay: Overlay) -> ShellView {
        ShellView { overlay, ..self }
    }

    /// With the picker for a new session open: the configured engine, and the directory used last.
    pub open spec fn picking(self) -> ShellView {
        ShellView {
            overlay: Overlay::NewSession,
            new_cwd: first_text(self.last_dirs),
            ..self
        }.asks(Act::DefaultEngine)
    }

    /// With the field for a machine open, and the machine used last in it.
    pub open spec fn attaching(self) -> ShellView {
        ShellView {
            overlay: Overlay::RemoteAttach,
            remote: first_text(self.recent_hosts),
            selected: 0,
            ..self
        }
    }

    /// With the list of sessions to jump to open.
    pub open spec fn jumping(self) -> ShellView {
        ShellView {
            overlay: Overlay::Palette,
            jump: JumpView { query: Seq::empty(), ..self.jump },
            selected: 0,
            ..self
        }.asks(Act::Refilter)
    }

    /// With the line to broadcast open: the one sent last, to all sessions.
    pub open spec fn casting(self) -> ShellView {
        ShellView {
            overlay: Overlay::Broadcast,
            cast: CastView { query: self.cast.last, sel: 0, ..self.cast },
            board: self.board.aimed_all(true),
            ..self
        }
    }

    /// With the triage list open, on the first pane that is down.
    pub open spec fn peeking(self) -> ShellView {
        let n = self.board.tabs.len() as int;
        let (sel, scroll) = match first_down(
            self.board.tabs.map_values(|t: TabView| t.kind),
            self.board.tabs.map_values(|t: TabView| t.seen.alive),
            0,
        ) {
            Some(i) => (
                i,
                if i < 9 {
                    0
                } else if i - 9 <= n - 10 {
                    i - 9
                } else {
                    n - 10
                },
            ),
            None => (0, 0),
        };
        ShellView {
            overlay: Overlay::Peek,
            peek: PeekView {
                query: Seq::empty(),
                filtering: false,
                sel: sel as usize,
                scroll: scroll as usize,
                ..self.peek
            },
            ..self
        }
    }

    /// With the name of the active session open to be changed.
    pub open spec fn renaming(self) -> ShellView {
        let b = self.board;
        ShellView {
            overlay: Overlay::Rename,
            rename: if b.active < b.tabs.len() {
                match b.tabs[b.active as int].name {
                    Some(n) => n,
                    None => Seq::empty(),
                }
            } else {
                Seq::empty()
            },
            ..self
        }
    }

    /// With a second session like the active one asked for, as well protected.
    pub open spec fn forking(self, now: u64) -> ShellView {
        ShellView {
            fork_pinned: self.board.pinned(self.board.active as int),
            ..self
        }.asks(Act::Duplicate).says("duplicated"@, now)
    }

    /// With everything written down, about to leave.
    pub open spec fn quitting(self) -> ShellView {
        ShellView { quit: true, ..self }.asks(Act::SaveScrollbacks).asks(Act::SaveTabs).asks(
            Act::SaveMuted,
        ).asks(Act::SavePins).asks(Act::SaveGeometry)
    }

    /// After an action of the palette.
    #[verifier::opaque]
    pub open spec fn performed(self, a: PaletteAction, now: u64) -> ShellView {
        let b = self.board;
        match a {
            PaletteAction::NewSession => self.picking(),
            PaletteAction::RemoteAttach => self.attaching(),
            PaletteAction::SessionPalette => self.jumping(),
            PaletteAction::FindInTab => ShellView {
                overlay: Overlay::Find,
                finder: self.finder.opened(),
                ..self
            },
            PaletteAction::SearchAll => ShellView {
                overlay: Overlay::FleetSearch,
                hunt: self.hunt.opened(),
                ..self
            },
            PaletteAction::CopyScrollback => self.asks(Act::CopyScrollback),
            PaletteAction::ExportLog => self.asks(Act::ExportScrollback),
            PaletteAction::CopyIdentity => self.on(b.identity_copied(now)),
            PaletteAction::CopyFleet => self.on(b.fleet_copied(now)),
            PaletteAction::Broadcast => self.casting(),
            PaletteAction::Peek => self.peeking(),
            PaletteAction::FleetGrid => ShellView {
                overlay: Overlay::FleetGrid,
                grid_sel: 0,
                ..self
            },
            PaletteAction::UndoClose => self.asks(Act::Reopen),
            PaletteAction::Duplicate => self.forking(now),
            PaletteAction::SessionInfo => self.over(Overlay::Info),
            PaletteAction::MarkAllRead => self.on(b.all_read(now)),
            PaletteAction::ToggleFocus => self.on(b.focus_turned(now)),
            PaletteAction::Pin => self.on(b.pin_turned(b.active as int, now)),
            PaletteAction::NextPinned => self.on(b.at_next_pinned(now)),
            PaletteAction::NextBusy => self.on(b.at_next_busy(now)),
            PaletteAction::NextQuiet => self.on(b.at_next_quiet(now)),
            PaletteAction::NextDown => self.on(b.at_next_down(now)),
            PaletteAction::MuteActive => self.on(b.active_mute_turned(now)),
            PaletteAction::Rename => self.renaming(),
            PaletteAction::PageUp => self.on(b.scrolled_by(20).held(true)),
            PaletteAction::ScrollTop => self.on(b.at_top()),
            PaletteAction::ScrollBottom => self.on(b.at_bottom()),
            PaletteAction::NextHost => self.on(b.at_next_host(now)),
            PaletteAction::Hosts => ShellView {
                overlay: Overlay::Hosts,
                hosts_sel: 0,
                hosts_host: None,
                ..self
            },
            PaletteAction::Dnd => self.on(b.dnd_turned(now)),
            PaletteAction::Reconnect => self.on(b.active_retried(now)),
            PaletteAction::ReconnectAll => self.on(b.fleet_retried(now)),
            PaletteAction::Destroy => self.on(b.destroyed(now)),
            PaletteAction::Interrupt => self.on(b.interrupted(now)),
            PaletteAction::InterruptAll => self.on(b.fleet_halted(now)),
            PaletteAction::CloseQuiet => self.on(b.swept(now)),
            PaletteAction::Help => self.over(Overlay::Help),
            PaletteAction::Quit => self.quitting(),
        }
    }

    /// With the command palette open.
    pub open spec fn commanding(self) -> ShellView {
        ShellView { overlay: Overlay::CommandPalette, cmd: self.cmd.opened(), ..self }
    }

    /// With the list of the fleet open, asked for anew.
    pub open spec fn surveying(self) -> ShellView {
        ShellView {
            overlay: Overlay::Fleet,
            selected: 0,
            fleet: FleetListView { query: Seq::empty(), shown: Seq::empty(), ..self.fleet },
            ..self
        }.asks(Act::RefreshFleet)
    }

    /// With the active tab closed, unless it is pinned.
    pub open spec fn closing(self, now: u64) -> ShellView {
        self.on(self.board.closed(self.board.active as int, now).asks(Act::SavePins))
    }

    /// With a tab active by its number, where it is open.
    pub open spec fn gone_to(self, i: int) -> ShellView {
        if 0 <= i < self.board.tabs.len() {
            self.on(self.board.focused(i as usize))
        } else {
            self
        }
    }

    /// With the next match in focus, or the one before.
    pub open spec fn find_stepped(self, forward: bool) -> ShellView {
        let f = self.finder.stepped(forward);
        ShellView {
            finder: f,
            board: if self.finder.all.len() == 0 {
                self.board
            } else {
                f.shown(self.board)
            },
            ..self
        }
    }

    /// After a shortcut with the command key.
    #[verifier::opaque]
    pub open spec fn shortcut(self, s: CmdShortcut, now: u64) -> ShellView {
        match s {
            CmdShortcut::NewSession => self.picking(),
            CmdShortcut::CloseActive => ShellView { close_active: true, ..self },
            CmdShortcut::Quit => self.quitting(),
            CmdShortcut::NextTab => self.on(self.board.turned(true)),
            CmdShortcut::PrevTab => self.on(self.board.turned(false)),
            CmdShortcut::CommandPalette => self.commanding(),
            CmdShortcut::FleetSearch => self.performed(PaletteAction::SearchAll, now),
            CmdShortcut::GotoTab(i) => if self.board.tabs.len() == 0 {
                self
            } else {
                self.on(
                    self.board.focused(
                        crate::board::at_most(i, crate::board::last_of(self.board.tabs.len())),
                    ),
                )
            },
            CmdShortcut::ReopenTab => self.asks(Act::Reopen),
            CmdShortcut::Duplicate => self.forking(now),
            CmdShortcut::ReconnectAll => self.performed(PaletteAction::ReconnectAll, now),
            CmdShortcut::Pin => self.performed(PaletteAction::Pin, now),
            CmdShortcut::Mute => self.performed(PaletteAction::MuteActive, now),
            CmdShortcut::Info => self.over(Overlay::Info),
            CmdShortcut::NextQuiet => self.performed(PaletteAction::NextQuiet, now),
            CmdShortcut::InterruptAll => self.performed(PaletteAction::InterruptAll, now),
            CmdShortcut::Peek => self.peeking(),
            CmdShortcut::CopyScrollback => self.asks(Act::CopyScrollback),
            CmdShortcut::ExportScrollback => self.asks(Act::ExportScrollback),
            CmdShortcut::Interrupt => self.performed(PaletteAction::Interrupt, now),
            CmdShortcut::Find => self.performed(PaletteAction::FindInTab, now),
            CmdShortcut::FindNext => self.find_stepped(true),
            CmdShortcut::FindPrev => self.find_stepped(false),
            CmdShortcut::Unbound => self,
        }
    }
}

impl Shell {
    /// Opens the picker for a new session, with the directory used last.
    pub fn pick(&mut self)
        ensures
            final(self)@ == old(self)@.picking(),
    {
        self.overlay = Overlay::NewSession;
        self.new_cwd = first_of(&self.last_dirs);
        self.board.ask(Act::DefaultEngine);
    }

    fn attach(&mut self)
        ensures
            final(self)@ == old(self)@.attaching(),
    {
        self.overlay = Overlay::RemoteAttach;
        self.remote = first_of(&self.recent_hosts);
        self.selected = 0;
    }

    fn open_jump(&mut self)
        ensures
            final(self)@ == old(self)@.jumping(),
    {
        self.overlay = Overlay::Palette;
        self.jump.query = String::new();
        self.selected = 0;
        self.board.ask(Act::Refilter);
    }

    /// Opens a line to broadcast to all tabs.
    pub fn open_broadcast(&mut self)
        ensures
            final(self)@ == old(self)@.casting(),
            final(self)@.wf() == old(self)@.wf(),
    {
        self.cast.query = copy_text(self.cast.last.as_str());
        self.board.aim_all(true);
        self.cast.sel = 0;
        self.overlay = Overlay::Broadcast;
    }

    /// Opens the triage list, on the first pane that is down.
    pub fn open_peek(&mut self)
        ensures
            final(self)@ == old(self)@.peeking(),
    {
        let ghost b = self.board@;
        self.overlay = Overlay::Peek;
        self.peek.query = String::new();
        self.peek.filtering = false;
        self.peek.sel = 0;
        self.peek.scroll = 0;
        let mut kinds: Vec<&str> = Vec::new();
        let mut alive: Vec<bool> = Vec::new();
        let ghost want = b.tabs.map_values(|t: TabView| t.kind);
        let ghost live = b.tabs.map_values(|t: TabView| t.seen.alive);
        let n: usize = self.board.tabs.len();
        let mut i: usize = 0;
        while i < n
            invariant
                i <= n,
                n == self.board.tabs@.len(),
                b == self.board@,
                want == b.tabs.map_values(|t: TabView| t.kind),
                live == b.tabs.map_values(|t: TabView| t.seen.alive),
                strs(kinds@) == want.take(i as int),
                alive@ == live.take(i as int),
            decreases n - i,
        {
            let ghost had = strs(kinds@);
            kinds.push(self.board.tabs[i].kind.as_str());
            alive.push(self.board.tabs[i].seen.alive);
            proof {
                assert(strs(kinds@) =~= had.push(self.board.tabs@[i as int]@.kind));
                assert(strs(kinds@) =~= want.take(i + 1));
                assert(alive@ =~= live.take(i + 1));
            }
            i = i + 1;
        }
        proof {
            assert(want.take(n as int) =~= want);
            assert(live.take(n as int) =~= live);
            lemma_first_down(want, live, 0);
        }
        if let Some(k) = first_down_session(kinds.as_slice(), alive.as_slice()) {
            self.peek.sel = k;
            self.peek.scroll =
            if k < 9 {
                0
            } else if k - 9 <= n - 10 {
                k - 9
            } else {
                n - 10
            };
        }
    }

    fn open_rename(&mut self)
        ensures
            final(self)@ == old(self)@.renaming(),
    {
        let i: usize = self.board.active;
        self.rename =
        if i < self.board.tabs.len() {
            match &self.board.tabs[i].name {
                Some(n) => copy_text(n.as_str()),
                None => String::new(),
            }
        } else {
            String::new()
        };
        self.overlay = Overlay::Rename;
    }

    /// Has a second session opened like the active one, as well protected.
    pub fn fork(&mut self, now: u64)
        ensures
            final(self)@ == old(self)@.forking(now),
    {
        self.fork_pinned = self.board.is_pinned(self.board.active);
        self.board.ask(Act::Duplicate);
        self.board.say(copy_text("duplicated"), now);
    }

    /// Has everything written down and leaves.
    pub fn request_quit(&mut self)
        ensures
            final(self)@ == old(self)@.quitting(),
    {
        self.board.ask(Act::SaveScrollbacks);
        self.board.ask(Act::SaveTabs);
        self.board.ask(Act::SaveMuted);
        self.board.ask(Act::SavePins);
        self.board.ask(Act::SaveGeometry);
        self.quit = true;
    }

    /// Does what a row of the palette stands for.
    #[verifier::rlimit(40)]
    pub fn perform(&mut self, a: PaletteAction, now: u64)
        requires
            old(self)@.wf(),
        ensures
            final(self)@ == old(self)@.performed(a, now),
            final(self)@.wf(),
    {
        proof {
            reveal(ShellView::performed);
        }
        match a {
            PaletteAction::NewSession => self.pick(),
            PaletteAction::RemoteAttach => self.attach(),
            PaletteAction::SessionPalette => self.open_jump(),
            PaletteAction::FindInTab => {
                self.overlay = Overlay::Find;
                self.finder.open();
            },
            PaletteAction::SearchAll => {
                self.overlay = Overlay::FleetSearch;
                self.hunt.open();
            },
            PaletteAction::CopyScrollback => self.board.ask(Act::CopyScrollback),
            PaletteAction::ExportLog => self.board.ask(Act::ExportScrollback),
            PaletteAction::CopyIdentity => self.board.copy_identity(now),
            PaletteAction::CopyFleet => self.board.copy_fleet(now),
            PaletteAction::Broadcast => self.open_broadcast(),
            PaletteAction::Peek => self.open_peek(),
            PaletteAction::FleetGrid => {
                self.grid_sel = 0;
                self.overlay = Overlay::FleetGrid;
            },
            PaletteAction::UndoClose => self.board.ask(Act::Reopen),
            PaletteAction::Duplicate => self.fork(now),
            PaletteAction::SessionInfo => {
                self.overlay = Overlay::Info;
            },
            PaletteAction::MarkAllRead => self.board.mark_all_read(now),
            PaletteAction::ToggleFocus => self.board.toggle_focus(now),
            PaletteAction::Pin => {
                let i: usize = self.board.active;
                self.board.toggle_pin_at(i, now);
            },
            PaletteAction::NextPinned => self.board.next_pinned(now),
            PaletteAction::NextBusy => self.board.next_busy(now),
            PaletteAction::NextQuiet => self.board.next_quiet(now),
            PaletteAction::NextDown => self.board.next_down(now),
            PaletteAction::MuteActive => self.board.toggle_mute_active(now),
            PaletteAction::Rename => self.open_rename(),
            PaletteAction::PageUp => {
                self.board.scroll_active(20);
                self.board.hold(true);
            },
            PaletteAction::ScrollTop => self.board.scroll_to_top(),
            PaletteAction::ScrollBottom => self.board.scroll_to_bottom(),
            PaletteAction::NextHost => self.board.next_host(now),
            PaletteAction::Hosts => {
                self.hosts_sel = 0;
                self.hosts_host = None;
                self.overlay = Overlay::Hosts;
            },
            PaletteAction::Dnd => self.board.toggle_dnd(now),
            PaletteAction::Reconnect => self.board.reconnect_active(now),
            PaletteAction::ReconnectAll => self.board.reconnect_all_down(now),
            PaletteAction::Destroy => self.board.destroy_active(now),
            PaletteAction::Interrupt => self.board.interrupt_active(now),
            PaletteAction::InterruptAll => self.board.interrupt_fleet(now),
            PaletteAction::CloseQuiet => self.board.close_quiet_tabs(now),
            PaletteAction::Help => {
                self.overlay = Overlay::Help;
            },
            PaletteAction::Quit => self.request_quit(),
        }
    }

    /// Closes the palette and does what a row of it stands for.
    pub fn run_palette_action(&mut self, a: PaletteAction, now: u64)
        requires
            old(self)@.wf(),
        ensures
            final(self)@ == old(self)@.over(Overlay::Closed).performed(a, now),
            final(self)@.wf(),
    {
        self.overlay = Overlay::Closed;
        self.perform(a, now);
    }

    /// Opens the command palette with all its rows.
    pub fn open_commands(&mut self)
        ensures
            final(self)@ == old(self)@.commanding(),
    {
        self.cmd.open();
        self.overlay = Overlay::CommandPalette;
    }

    /// Opens the list of the fleet.
    pub fn open_fleet(&mut self)
        ensures
            final(self)@ == old(self)@.surveying(),
    {
        self.selected = 0;
        self.fleet.query = String::new();
        self.fleet.shown = Vec::new();
        proof {
            assert(ints(self.fleet.shown@) =~= Seq::empty());
        }
        self.board.ask(Act::RefreshFleet);
        self.overlay = Overlay::Fleet;
    }

    /// Closes the active tab, unless it is pinned.
    pub fn close_active_tab(&mut self, now: u64)
        requires
            old(self)@.wf(),
        ensures
            final(self)@ == old(self)@.closing(now),
            final(self)@.wf(),
    {
        let i: usize = self.board.active;
        self.board.close_tab_at(i, now);
        self.board.ask(Act::SavePins);
    }

    /// Goes to a tab by its number, where there is one.
    pub fn go_to(&mut self, i: usize)
        requires
            old(self)@.wf(),
        ensures
            final(self)@ == old(self)@.gone_to(i as int),
            final(self)@.wf(),
    {
        if i < self.board.tabs.len() {
            self.board.set_active(i);
        }
    }

    /// Goes to the next match of the last search, or the one before.
    pub fn find_jump(&mut self, forward: bool)
        ensures
            final(self)@ == old(self)@.find_stepped(forward),
            final(self)@.wf() == old(self)@.wf(),
    {
        self.finder.jump(forward, &mut self.board);
    }

    /// Does what a shortcut with the command key stands for.
    pub fn run_shortcut(&mut self, s: CmdShortcut, now: u64)
        requires
            old(self)@.wf(),
        ensures
            final(self)@ == old(self)@.shortcut(s, now),
            final(self)@.wf(),
    {
        proof {
            reveal(ShellView::shortcut);
        }
        match s {
            CmdShortcut::NewSession => self.pick(),
            CmdShortcut::CloseActive => {
                self.close_active = true;
            },
            CmdShortcut::Quit => self.request_quit(),
            CmdShortcut::NextTab => self.board.turn(true),
            CmdShortcut::PrevTab => self.board.turn(false),
            CmdShortcut::CommandPalette => self.open_commands(),
            CmdShortcut::FleetSearch => self.perform(PaletteAction::SearchAll, now),
            CmdShortcut::GotoTab(i) => {
                let n: usize = self.board.tabs.len();
                if n > 0 {
                    self.board.set_active(
                        if i <= n - 1 {
                            i
                        } else {
                            n - 1
                        },
                    );
                }
            },
            CmdShortcut::ReopenTab => self.board.ask(Act::Reopen),
            CmdShortcut::Duplicate => self.fork(now),
            CmdShortcut::ReconnectAll => self.perform(PaletteAction::ReconnectAll, now),
            CmdShortcut::Pin => self.perform(PaletteAction::Pin, now),
            CmdShortcut::Mute => self.perform(PaletteAction::MuteActive, now),
            CmdShortcut::Info => {
                self.overlay = Overlay::Info;
            },
            CmdShortcut::NextQuiet => self.perform(PaletteAction::NextQuiet, now),
            CmdShortcut::InterruptAll => self.perform(PaletteAction::InterruptAll, now),
            CmdShortcut::Peek => self.open_peek(),
            CmdShortcut::CopyScrollback => self.board.ask(Act::CopyScrollback),
            CmdShortcut::ExportScrollback => self.board.ask(Act::ExportScrollback),
            CmdShortcut::Interrupt => self.perform(PaletteAction::Interrupt, now),
            CmdShortcut::Find => self.perform(PaletteAction::FindInTab, now),
            CmdShortcut::FindNext => self.find_jump(true),
            CmdShortcut::FindPrev => self.find_jump(false),
            CmdShortcut::Unbound => {},
        }
    }
}

proof fn lemma_first_down(kinds: Seq<Seq<char>>, alive: Seq<bool>, from: int)
    requires
        kinds.len() == alive.len(),
        0 <= from,
    ensures
        first_down(kinds, alive, from) matches Some(i) ==> from <= i < kinds.len(),
    decreases kinds.len() - from,
{
    if from < kinds.len() {
        lemma_first_down(kinds, alive, from + 1);
    }
}

} // verus!
