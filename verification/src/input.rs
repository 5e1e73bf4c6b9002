//! Where a key goes: to the context menu, to a command, to a shortcut, to the open overlay, to copy
//! mode, to the view, or to the active session.

use vstd::prelude::*;
use vstd::string::*;
use vstd::utf8::{encode_utf8, is_ascii_chars, is_ascii_chars_encode_utf8};

use crate::board::{Act, BoardView};
use crate::copying::grid_view;
use crate::grid::{Grid, GridView};
use crate::keys::{
    arrow_bytes, arrow_seq, cmd_shortcut, control_byte, ctrl_byte, extra_named_seq, named_bytes,
    shortcut_of, CmdShortcut, Key, KeyView, Mods, NamedKey,
};
use crate::menu::{CtxAction, MenuView};
use crate::shell::{Overlay, PrefixView, Shell, ShellView};
use crate::text::{copy_text, same_text};

verus! {

/// The bytes that a key sends to a session, where it sends any.
pub open spec fn typed_bytes(key: KeyView, m: Mods) -> Option<Seq<u8>> {
    match key {
        KeyView::Character(c) => if m.control {
            match control_byte(c) {
                Some(b) => Some(seq![b]),
                None => None,
            }
        } else {
            Some(encode_utf8(c))
        },
        KeyView::Named(n) => match n {
            NamedKey::Enter => Some(seq![0x0d]),
            NamedKey::Backspace => Some(seq![0x7f]),
            NamedKey::Tab => if m.shift {
                Some(seq![0x1b, 0x5b, 0x5a])
            } else {
                Some(seq![0x09])
            },
            NamedKey::Escape => Some(seq![0x1b]),
            NamedKey::ArrowUp => Some(arrow_bytes(0x41, m)),
            NamedKey::ArrowDown => Some(arrow_bytes(0x42, m)),
            NamedKey::ArrowRight => Some(arrow_bytes(0x43, m)),
            NamedKey::ArrowLeft => Some(arrow_bytes(0x44, m)),
            NamedKey::Space => Some(seq![0x20]),
            _ => named_bytes(n),
        },
        KeyView::Other => None,
    }
}

fn one_byte(b: u8) -> (r: Vec<u8>)
    ensures
        r@ == seq![b],
{
    let mut v: Vec<u8> = Vec::new();
    v.push(b);
    proof {
        assert(v@ =~= seq![b]);
    }
    v
}

/// Optional bytes as plain data.
pub open spec fn opt_bytes(o: Option<Vec<u8>>) -> Option<Seq<u8>> {
    match o {
        Some(v) => Some(v@),
        None => None,
    }
}

/// The bytes that a key sends to a session, where it sends any.
pub fn key_bytes(key: &Key, mods: &Mods) -> (r: Option<Vec<u8>>)
    ensures
        opt_bytes(r) == typed_bytes(key@, *mods),
{
    match key {
        Key::Character(c) => {
            if mods.control {
                match ctrl_byte(c.as_str()) {
                    Some(b) => Some(one_byte(b)),
                    None => None,
                }
            } else {
                Some(c.as_str().as_bytes_vec())
            }
        },
        Key::Named(n) => match n {
            NamedKey::Enter => Some(one_byte(0x0d)),
            NamedKey::Backspace => Some(one_byte(0x7f)),
            NamedKey::Tab => {
                if mods.shift {
                    let mut v: Vec<u8> = one_byte(0x1b);
                    v.push(0x5b);
                    v.push(0x5a);
                    proof {
                        assert(v@ =~= seq![0x1b, 0x5b, 0x5a]);
                    }
                    Some(v)
                } else {
                    Some(one_byte(0x09))
                }
            },
            NamedKey::Escape => Some(one_byte(0x1b)),
            NamedKey::ArrowUp => Some(arrow_seq(0x41, mods)),
            NamedKey::ArrowDown => Some(arrow_seq(0x42, mods)),
            NamedKey::ArrowRight => Some(arrow_seq(0x43, mods)),
            NamedKey::ArrowLeft => Some(arrow_seq(0x44, mods)),
            NamedKey::Space => Some(one_byte(0x20)),
            _ => extra_named_seq(n),
        },
        Key::Other => None,
    }
}

impl ShellView {
    /// The active session's view is held in the scrollback.
    pub open spec fn scrolled_back(self) -> bool {
        let b = self.board;
        b.active < b.tabs.len() && b.tabs[b.active as int].scrolled
    }

    /// After a key that moves the view, where it is one.
    pub open spec fn view_keyed(self, k: NamedKey) -> Option<ShellView> {
        let b = self.board;
        match k {
            NamedKey::PageUp => Some(self.on(b.scrolled_by(20).held(true).settled())),
            NamedKey::PageDown => Some(self.on(b.scrolled_by(-20).settled())),
            NamedKey::ArrowUp => Some(self.on(b.scrolled_by(1).held(true).settled())),
            NamedKey::ArrowDown => Some(self.on(b.scrolled_by(-1).settled())),
            NamedKey::Escape => Some(self.on(b.at_bottom().settled())),
            _ => None,
        }
    }

    /// After a key for the active session. The command key copies and pastes, the control key
    /// pastes.
    pub open spec fn session_keyed(self, key: KeyView, m: Mods) -> ShellView {
        if self.board.active >= self.board.tabs.len() {
            self
        } else if m.logo && key == KeyView::Character("c"@) {
            self.asks(Act::CutSelection)
        } else if (m.control || m.logo) && key == KeyView::Character("v"@) {
            self.asks(Act::Paste)
        } else if typed_bytes(key, m) is Some {
            self.asks(Act::Type)
        } else {
            self
        }
    }

    /// After a key while the view can be moved: the keys that move it are taken while it is held,
    /// and the page up key always; any other key goes back to the live screen and on to the
    /// session.
    pub open spec fn scroll_keyed(self, key: KeyView, m: Mods) -> ShellView {
        if self.scrolled_back() || key == KeyView::Named(NamedKey::PageUp) {
            let moved = match key {
                KeyView::Named(k) => self.view_keyed(k),
                _ => None,
            };
            match moved {
                Some(s) => s,
                None => self.on(self.board.settled().at_bottom()).session_keyed(key, m),
            }
        } else {
            self.session_keyed(key, m)
        }
    }

    /// After a key without an overlay: the zoom and full screen keys first, then copy mode, then
    /// the keys that move the view, then the session.
    #[verifier::opaque]
    pub open spec fn plain_keyed(
        self,
        key: KeyView,
        m: Mods,
        g: Option<GridView>,
        now: u64,
    ) -> ShellView {
        let held = m.control || m.logo;
        if held && (key == KeyView::Character("="@) || key == KeyView::Character("+"@)) {
            self.asks(Act::ZoomIn)
        } else if held && key == KeyView::Character("-"@) {
            self.asks(Act::ZoomOut)
        } else if held && key == KeyView::Character("0"@) {
            self.asks(Act::ZoomReset)
        } else if m.control && key == KeyView::Named(NamedKey::Enter) {
            self.asks(Act::Fullscreen)
        } else if self.copy.on {
            let (copy, board) = self.copy.keyed(self.board, key, g, now);
            ShellView { copy, board, ..self }
        } else if m.logo && (key == KeyView::Named(NamedKey::ArrowUp) || key == KeyView::Named(
            NamedKey::Home,
        )) {
            self.on(self.board.at_top()).asks(Act::Redraw)
        } else if m.logo && (key == KeyView::Named(NamedKey::ArrowDown) || key == KeyView::Named(
            NamedKey::End,
        )) {
            self.on(self.board.at_bottom()).asks(Act::Redraw)
        } else {
            self.scroll_keyed(key, m)
        }
    }

    /// After a key in the open overlay.
    #[verifier::opaque]
    pub open spec fn overlay_keyed(
        self,
        key: KeyView,
        m: Mods,
        g: Option<GridView>,
        now: u64,
    ) -> ShellView {
        match self.overlay {
            Overlay::Palette => self.jump_keyed(key, m),
            Overlay::NewSession => self.new_keyed(key),
            Overlay::RemoteAttach => self.remote_keyed(key, m),
            Overlay::Find => self.find_keyed(key, m),
            Overlay::FleetSearch => self.hunt_keyed(key, m),
            Overlay::Fleet => self.fleet_keyed(key),
            Overlay::Hosts => match key {
                KeyView::Character(c) => self.host_typed(c),
                KeyView::Named(NamedKey::Enter) => self.host_taken(now),
                k => self.hosts_keyed(k),
            },
            Overlay::Help => self.over(Overlay::Closed),
            Overlay::Info => self.over(Overlay::Closed),
            Overlay::Rename => self.rename_keyed(key),
            Overlay::Broadcast => self.cast_keyed(key, m, now),
            Overlay::Peek => self.peek_keyed(key, m, now),
            Overlay::FleetGrid => self.grid_keyed(key, m, now),
            Overlay::CommandPalette => self.cmd_keyed(key, m, now),
            Overlay::Closed => self.plain_keyed(key, m, g, now),
        }
    }

    /// After a key that is no command: a shortcut comes before the overlay.
    #[verifier::opaque]
    pub open spec fn forwarded(
        self,
        key: KeyView,
        m: Mods,
        g: Option<GridView>,
        now: u64,
    ) -> ShellView {
        let s = shortcut_of(key, m);
        if s == CmdShortcut::Unbound {
            self.overlay_keyed(key, m, g, now)
        } else {
            self.shortcut(s, now)
        }
    }
}

impl Shell {
    fn session_key(&mut self, key: &Key, mods: &Mods)
        ensures
            final(self)@ == old(self)@.session_keyed(key@, *mods),
            final(self)@.wf() == old(self)@.wf(),
    {
        if self.board.active < self.board.tabs.len() {
            if mods.logo && is_text(key, "c") {
                self.board.ask(Act::CutSelection);
            } else if (mods.control || mods.logo) && is_text(key, "v") {
                self.board.ask(Act::Paste);
            } else if key_bytes(key, mods).is_some() {
                self.board.ask(Act::Type);
            }
        }
    }

    fn is_scrolled(&self) -> (r: bool)
        ensures
            r == self@.scrolled_back(),
    {
        self.board.active < self.board.tabs.len() && self.board.tabs[self.board.active].scrolled
    }

    fn view_key(&mut self, k: NamedKey) -> (r: bool)
        ensures
            match old(self)@.view_keyed(k) {
                Some(s) => r && final(self)@ == s,
                None => !r && final(self)@ == old(self)@,
            },
            final(self)@.wf() == old(self)@.wf(),
    {
        match k {
            NamedKey::PageUp => {
                self.board.scroll_active(20);
                self.board.hold(true);
            },
            NamedKey::PageDown => self.board.scroll_active(-20),
            NamedKey::ArrowUp => {
                self.board.scroll_active(1);
                self.board.hold(true);
            },
            NamedKey::ArrowDown => self.board.scroll_active(-1),
            NamedKey::Escape => self.board.scroll_to_bottom(),
            _ => {
                return false;
            },
        }
        self.board.unpin_if_at_bottom();
        true
    }

    fn scroll_key(&mut self, key: &Key, mods: &Mods)
        ensures
            final(self)@ == old(self)@.scroll_keyed(key@, *mods),
            final(self)@.wf() == old(self)@.wf(),
    {
        if self.is_scrolled() || is_key(key, NamedKey::PageUp) {
            if let Key::Named(k) = key {
                if self.view_key(*k) {
                    return;
                }
            }
            self.board.unpin_if_at_bottom();
            self.board.scroll_to_bottom();
        }
        self.session_key(key, mods);
    }

    #[verifier::rlimit(40)]
    fn plain_key(&mut self, key: &Key, mods: &Mods, grid: Option<&Grid>, now: u64)
        requires
            grid matches Some(g) ==> g.wf(),
        ensures
            final(self)@ == old(self)@.plain_keyed(key@, *mods, grid_view(grid), now),
            final(self)@.wf() == old(self)@.wf(),
    {
        proof {
            reveal(ShellView::plain_keyed);
        }
        let held = mods.control || mods.logo;
        if held && (is_text(key, "=") || is_text(key, "+")) {
            self.board.ask(Act::ZoomIn);
        } else if held && is_text(key, "-") {
            self.board.ask(Act::ZoomOut);
        } else if held && is_text(key, "0") {
            self.board.ask(Act::ZoomReset);
        } else if mods.control && is_key(key, NamedKey::Enter) {
            self.board.ask(Act::Fullscreen);
        } else if self.copy.on {
            self.copy.handle_key(&mut self.board, key, grid, now);
        } else if mods.logo && (is_key(key, NamedKey::ArrowUp) || is_key(key, NamedKey::Home)) {
            self.board.scroll_to_top();
            self.board.ask(Act::Redraw);
        } else if mods.logo && (is_key(key, NamedKey::ArrowDown) || is_key(key, NamedKey::End)) {
            self.board.scroll_to_bottom();
            self.board.ask(Act::Redraw);
        } else {
            self.scroll_key(key, mods);
        }
    }

    fn overlay_key(&mut self, key: &Key, mods: &Mods, grid: Option<&Grid>, now: u64)
        requires
            old(self)@.wf(),
            grid matches Some(g) ==> g.wf(),
        ensures
            final(self)@ == old(self)@.overlay_keyed(key@, *mods, grid_view(grid), now),
            final(self)@.wf(),
    {
        proof {
            reveal(ShellView::overlay_keyed);
        }
        match self.overlay {
            Overlay::Palette => self.jump_key(key, mods),
            Overlay::NewSession => self.new_session_key(key),
            Overlay::RemoteAttach => self.remote_key(key, mods),
            Overlay::Find => self.find_key(key, mods),
            Overlay::FleetSearch => self.hunt_key(key, mods),
            Overlay::Fleet => self.fleet_key(key),
            Overlay::Hosts => self.hosts_key(key, now),
            Overlay::Help => {
                self.overlay = Overlay::Closed;
            },
            Overlay::Info => {
                self.overlay = Overlay::Closed;
            },
            Overlay::Rename => self.rename_key(key),
            Overlay::Broadcast => self.cast_key(key, mods, now),
            Overlay::Peek => self.peek_key(key, mods, now),
            Overlay::FleetGrid => self.grid_key(key, mods, now),
            Overlay::CommandPalette => self.palette_key(key, mods, now),
            Overlay::Closed => self.plain_key(key, mods, grid, now),
        }
    }

    /// Handles a key that is no command. `grid` is the grid of the active session, where there is
    /// one.
    pub fn forward_key(&mut self, key: &Key, mods: &Mods, grid: Option<&Grid>, now: u64)
        requires
            old(self)@.wf(),
            grid matches Some(g) ==> g.wf(),
        ensures
            final(self)@ == old(self)@.forwarded(key@, *mods, grid_view(grid), now),
            final(self)@.wf(),
    {
        proof {
            reveal(ShellView::forwarded);
        }
        let s = cmd_shortcut(key, mods);
        if s == CmdShortcut::Unbound {
            self.overlay_key(key, mods, grid, now);
        } else {
            self.run_shortcut(s, now);
        }
    }
}

/// Whether a key types this text.
pub fn is_text(key: &Key, t: &str) -> (r: bool)
    ensures
        r == (key@ == KeyView::Character(t@)),
{
    match key {
        Key::Character(c) => same_text(c.as_str(), t),
        _ => false,
    }
}

/// Whether a key is this one.
pub fn is_key(key: &Key, n: NamedKey) -> (r: bool)
    ensures
        r == (key@ == KeyView::Named(n)),
{
    match key {
        Key::Named(k) => *k == n,
        _ => false,
    }
}

/// A key with the space bar as the text that it types.
pub open spec fn spaced(key: KeyView) -> KeyView {
    if key == KeyView::Named(NamedKey::Space) {
        KeyView::Character(" "@)
    } else {
        key
    }
}

fn normalize_space(key: Key) -> (r: Key)
    ensures
        r@ == spaced(key@),
{
    if is_key(&key, NamedKey::Space) {
        Key::Character(copy_text(" "))
    } else {
        key
    }
}

impl PrefixView {
    /// Whether a key is the prefix: the configured letter, the space bar or the backslash, with the
    /// control key.
    pub open spec fn pressed(self, key: KeyView, m: Mods) -> bool {
        m.control && (key == KeyView::Character(self.key) || key == KeyView::Character(" "@) || key
            == KeyView::Character("\\"@))
    }
}

impl ShellView {
    /// After the prefix. The first time that the backslash stands in for the space bar, which the
    /// system keeps, this is explained.
    pub open spec fn prefixed(self, key: KeyView, now: u64) -> ShellView {
        let p = self.prefix;
        let s = if key == KeyView::Character("\\"@) && p.claimed && !p.noticed {
            ShellView { prefix: PrefixView { noticed: true, ..p }, ..self }.says(p.notice, now)
        } else {
            self
        };
        ShellView { prefix: PrefixView { down: true, ..s.prefix }, ..s }
    }

    /// After a row of the context menu that is about text.
    #[verifier::opaque]
    pub open spec fn menu_text_run(self, a: CtxAction, now: u64) -> ShellView {
        match a {
            CtxAction::Copy => self.asks(Act::CopySelection).says("copied selection"@, now),
            CtxAction::Paste => self.asks(Act::Paste),
            CtxAction::OpenLink => match self.menu {
                Some(m) => self.opened_at(m.mx as int, m.my as int),
                None => self,
            },
            CtxAction::SelectAll => if self.board.active < self.board.tabs.len() {
                self.asks(Act::SelectAll).says("selected + copied entire scrollback"@, now)
            } else {
                self
            },
            CtxAction::SearchSelection => self.asks(Act::SearchSelection),
            _ => self,
        }
    }

    /// After a row of the context menu that is about a session.
    #[verifier::opaque]
    pub open spec fn menu_session_run(self, a: CtxAction, now: u64) -> ShellView {
        match a {
            CtxAction::Interrupt => self.on(self.board.interrupted(now)).says(
                "interrupted"@,
                now,
            ),
            CtxAction::Reconnect => self.on(self.board.active_retried(now)),
            CtxAction::Duplicate => self.forking(now),
            CtxAction::MuteToggle => self.on(self.board.active_mute_turned(now)),
            CtxAction::NewSession => self.picking(),
            CtxAction::CloseTab => self.closing(now),
            _ => self,
        }
    }

    /// After a row of the context menu. A separator does nothing.
    #[verifier::opaque]
    pub open spec fn menu_run(self, a: CtxAction, now: u64) -> ShellView {
        match a {
            CtxAction::Copy
            | CtxAction::Paste
            | CtxAction::OpenLink
            | CtxAction::SelectAll
            | CtxAction::SearchSelection => self.menu_text_run(a, now),
            _ => self.menu_session_run(a, now),
        }
    }

    pub open spec fn with_menu(self, menu: Option<MenuView>) -> ShellView {
        ShellView { menu, ..self }
    }

    /// After a key while the context menu is open, and whether the menu took the key. Any key that
    /// is not the menu's closes it.
    #[verifier::opaque]
    pub open spec fn menu_keyed(self, key: KeyView, now: u64) -> (ShellView, bool) {
        match self.menu {
            Some(m) => if self.overlay != Overlay::Closed {
                (self, false)
            } else if key == KeyView::Named(NamedKey::Escape) {
                (self.with_menu(None), true)
            } else if key == KeyView::Named(NamedKey::Enter) {
                let s = if m.sel < m.items.len() {
                    self.menu_run(m.items[m.sel as int], now)
                } else {
                    self
                };
                (s.with_menu(None), true)
            } else if key == KeyView::Named(NamedKey::ArrowUp) || key == KeyView::Character("k"@) {
                (self.with_menu(Some(m.turned(false))), true)
            } else if key == KeyView::Named(NamedKey::ArrowDown) || key == KeyView::Character("j"@) {
                (self.with_menu(Some(m.turned(true))), true)
            } else {
                (self.with_menu(None), false)
            },
            None => (self, false),
        }
    }

    /// After a key that the context menu did not take.
    pub open spec fn key_taken(
        self,
        key: KeyView,
        m: Mods,
        g: Option<GridView>,
        now: u64,
    ) -> ShellView {
        if self.prefix.pressed(key, m) && self.overlay == Overlay::Closed {
            self.prefixed(key, now)
        } else if self.prefix.down && self.overlay == Overlay::Closed {
            ShellView {
                prefix: PrefixView { down: false, ..self.prefix },
                ..self
            }.command_keyed(key, m, now)
        } else {
            self.forwarded(key, m, g, now)
        }
    }

    /// After a key: the context menu first, then the prefix, then a command, then all else.
    pub open spec fn handled(
        self,
        key: KeyView,
        m: Mods,
        g: Option<GridView>,
        now: u64,
    ) -> ShellView {
        let (s, taken) = self.menu_keyed(key, now);
        if taken {
            s.asks(Act::Redraw)
        } else {
            s.key_taken(spaced(key), m, g, now)
        }
    }
}

impl Shell {
    fn take_prefix(&mut self, key: &Key, now: u64)
        ensures
            final(self)@ == old(self)@.prefixed(key@, now),
            final(self)@.wf() == old(self)@.wf(),
    {
        if is_text(key, "\\") && self.prefix.claimed && !self.prefix.noticed {
            self.prefix.noticed = true;
            self.board.say(copy_text(self.prefix.notice.as_str()), now);
        }
        self.prefix.down = true;
    }

    fn is_prefix(&self, key: &Key, mods: &Mods) -> (r: bool)
        ensures
            r == self@.prefix.pressed(key@, *mods),
    {
        mods.control && (is_text(key, self.prefix.key.as_str()) || is_text(key, " ") || is_text(
            key,
            "\\",
        ))
    }

    fn run_text_action(&mut self, a: CtxAction, now: u64)
        requires
            old(self)@.wf(),
        ensures
            final(self)@ == old(self)@.menu_text_run(a, now),
            final(self)@.wf(),
    {
        proof {
            reveal(ShellView::menu_text_run);
        }
        match a {
            CtxAction::Copy => {
                self.board.ask(Act::CopySelection);
                self.board.say(copy_text("copied selection"), now);
            },
            CtxAction::Paste => self.board.ask(Act::Paste),
            CtxAction::OpenLink => {
                let at = match &self.menu {
                    Some(m) => Some((m.mx, m.my)),
                    None => None,
                };
                if let Some(p) = at {
                    self.mouse_open(p.0, p.1);
                }
            },
            CtxAction::SelectAll => {
                if self.board.active < self.board.tabs.len() {
                    self.board.ask(Act::SelectAll);
                    self.board.say(copy_text("selected + copied entire scrollback"), now);
                }
            },
            CtxAction::SearchSelection => self.board.ask(Act::SearchSelection),
            _ => {},
        }
    }

    fn run_session_action(&mut self, a: CtxAction, now: u64)
        requires
            old(self)@.wf(),
        ensures
            final(self)@ == old(self)@.menu_session_run(a, now),
            final(self)@.wf(),
    {
        proof {
            reveal(ShellView::menu_session_run);
        }
        match a {
            CtxAction::Interrupt => {
                self.board.interrupt_active(now);
                self.board.say(copy_text("interrupted"), now);
            },
            CtxAction::Reconnect => self.board.reconnect_active(now),
            CtxAction::Duplicate => self.fork(now),
            CtxAction::MuteToggle => self.board.toggle_mute_active(now),
            CtxAction::NewSession => self.pick(),
            CtxAction::CloseTab => self.close_active_tab(now),
            _ => {},
        }
    }

    /// Does what a row of the context menu stands for.
    pub fn run_ctx_action(&mut self, a: CtxAction, now: u64)
        requires
            old(self)@.wf(),
        ensures
            final(self)@ == old(self)@.menu_run(a, now),
            final(self)@.wf(),
    {
        proof {
            reveal(ShellView::menu_run);
        }
        match a {
            CtxAction::Copy
            | CtxAction::Paste
            | CtxAction::OpenLink
            | CtxAction::SelectAll
            | CtxAction::SearchSelection => self.run_text_action(a, now),
            _ => self.run_session_action(a, now),
        }
    }

    /// Handles a key while the context menu is open. Returns whether the menu took it.
    pub fn handle_ctx_key(&mut self, key: &Key, now: u64) -> (r: bool)
        requires
            old(self)@.wf(),
        ensures
            (final(self)@, r) == old(self)@.menu_keyed(key@, now),
            final(self)@.wf(),
    {
        proof {
            reveal(ShellView::menu_keyed);
        }
        if self.overlay != Overlay::Closed || self.menu.is_none() {
            return false;
        }
        if is_key(key, NamedKey::Escape) {
            self.menu = None;
            true
        } else if is_key(key, NamedKey::Enter) {
            let act = match &self.menu {
                Some(m) => if m.sel < m.items.len() {
                    Some(m.items[m.sel])
                } else {
                    None
                },
                None => None,
            };
            if let Some(a) = act {
                self.run_ctx_action(a, now);
            }
            self.menu = None;
            true
        } else if is_key(key, NamedKey::ArrowUp) || is_text(key, "k") {
            if let Some(m) = &mut self.menu {
                m.navigate(false);
            }
            true
        } else if is_key(key, NamedKey::ArrowDown) || is_text(key, "j") {
            if let Some(m) = &mut self.menu {
                m.navigate(true);
            }
            true
        } else {
            self.menu = None;
            false
        }
    }

    /// Handles a key. `grid` is the grid of the active session, where there is one.
    pub fn handle_key(&mut self, key: Key, mods: &Mods, grid: Option<&Grid>, now: u64)
        requires
            old(self)@.wf(),
            grid matches Some(g) ==> g.wf(),
        ensures
            final(self)@ == old(self)@.handled(key@, *mods, grid_view(grid), now),
            final(self)@.wf(),
    {
        if self.handle_ctx_key(&key, now) {
            self.board.ask(Act::Redraw);
            return;
        }
        let key = normalize_space(key);
        if self.is_prefix(&key, mods) && self.overlay == Overlay::Closed {
            self.take_prefix(&key, now);
        } else if self.prefix.down && self.overlay == Overlay::Closed {
            self.prefix.down = false;
            self.command_key(&key, mods, now);
        } else {
            self.forward_key(&key, mods, grid, now);
        }
    }
}

/// The prefix is for one key: after it, the prefix is no longer held.
pub proof fn law_prefix_takes_one_key(
    s: ShellView,
    key: KeyView,
    m: Mods,
    g: Option<GridView>,
    now: u64,
)
    requires
        s.prefix.down,
        s.overlay == Overlay::Closed,
        !s.prefix.pressed(key, m),
    ensures
        !s.key_taken(key, m, g, now).prefix.down,
{
    reveal(ShellView::command_keyed);
    reveal(ShellView::commanded);
    reveal(ShellView::performed);
}

/// The key that closes the help, or what is told of a session, does nothing else, unless it is a
/// shortcut.
pub proof fn law_help_swallows_keys(
    s: ShellView,
    key: KeyView,
    m: Mods,
    g: Option<GridView>,
    now: u64,
)
    requires
        s.overlay == Overlay::Help || s.overlay == Overlay::Info,
        shortcut_of(key, m) == CmdShortcut::Unbound,
    ensures
        s.forwarded(key, m, g, now) == s.over(Overlay::Closed),
{
    reveal(ShellView::forwarded);
    reveal(ShellView::overlay_keyed);
}

/// A key typed while the view is held back goes to the session at its live screen.
pub proof fn law_typing_returns_to_live(s: ShellView, c: Seq<char>, m: Mods)
    requires
        s.wf(),
        s.scrolled_back(),
        !m.control,
        !m.logo,
    ensures
        ({
            let t = s.scroll_keyed(KeyView::Character(c), m);
            let tab = t.board.tabs[t.board.active as int];
            tab.offset == 0 && !tab.scrolled && t.board.todo.last() == Act::Type
        }),
{
}

/// What the keys without a text of their own send, byte for byte.
pub proof fn law_named_keys_send(m: Mods)
    ensures
        typed_bytes(KeyView::Named(NamedKey::Enter), m) == Some(seq![0x0du8]),
        typed_bytes(KeyView::Named(NamedKey::Backspace), m) == Some(seq![0x7fu8]),
        typed_bytes(KeyView::Named(NamedKey::Escape), m) == Some(seq![0x1bu8]),
        typed_bytes(KeyView::Named(NamedKey::Space), m) == Some(seq![0x20u8]),
        typed_bytes(KeyView::Named(NamedKey::Home), m) == Some(seq![0x1bu8, 0x5b, 0x48]),
        typed_bytes(KeyView::Named(NamedKey::End), m) == Some(seq![0x1bu8, 0x5b, 0x46]),
        typed_bytes(KeyView::Named(NamedKey::Delete), m) == Some(seq![0x1bu8, 0x5b, 0x33, 0x7e]),
        typed_bytes(KeyView::Named(NamedKey::Insert), m) == Some(seq![0x1bu8, 0x5b, 0x32, 0x7e]),
        typed_bytes(KeyView::Named(NamedKey::F1), m) == Some(seq![0x1bu8, 0x4f, 0x50]),
        typed_bytes(KeyView::Named(NamedKey::F2), m) == Some(seq![0x1bu8, 0x4f, 0x51]),
        typed_bytes(KeyView::Named(NamedKey::F3), m) == Some(seq![0x1bu8, 0x4f, 0x52]),
        typed_bytes(KeyView::Named(NamedKey::F4), m) == Some(seq![0x1bu8, 0x4f, 0x53]),
        typed_bytes(KeyView::Named(NamedKey::F5), m) == Some(seq![0x1bu8, 0x5b, 0x31, 0x35, 0x7e]),
        typed_bytes(KeyView::Named(NamedKey::F6), m) == Some(seq![0x1bu8, 0x5b, 0x31, 0x37, 0x7e]),
        typed_bytes(KeyView::Named(NamedKey::F7), m) == Some(seq![0x1bu8, 0x5b, 0x31, 0x38, 0x7e]),
        typed_bytes(KeyView::Named(NamedKey::F8), m) == Some(seq![0x1bu8, 0x5b, 0x31, 0x39, 0x7e]),
        typed_bytes(KeyView::Named(NamedKey::F9), m) == Some(seq![0x1bu8, 0x5b, 0x32, 0x30, 0x7e]),
        typed_bytes(KeyView::Named(NamedKey::F10), m) == Some(seq![0x1bu8, 0x5b, 0x32, 0x31, 0x7e]),
        typed_bytes(KeyView::Named(NamedKey::F11), m) == Some(seq![0x1bu8, 0x5b, 0x32, 0x33, 0x7e]),
        typed_bytes(KeyView::Named(NamedKey::F12), m) == Some(seq![0x1bu8, 0x5b, 0x32, 0x34, 0x7e]),
        !m.shift ==> typed_bytes(KeyView::Named(NamedKey::Tab), m) == Some(seq![0x09u8]),
        m.shift ==> typed_bytes(KeyView::Named(NamedKey::Tab), m) == Some(seq![0x1bu8, 0x5b, 0x5a]),
        typed_bytes(KeyView::Named(NamedKey::PageUp), m) is None,
        typed_bytes(KeyView::Named(NamedKey::PageDown), m) is None,
        typed_bytes(KeyView::Named(NamedKey::Other), m) is None,
        typed_bytes(KeyView::Other, m) is None,
{
}

/// What the arrow keys send, byte for byte: up, down, right and left end in A, B, C and D. Plain,
/// this is all that follows the bracket; with alt, with control and with both, it follows 1;3, 1;5
/// and 1;7.
pub proof fn law_arrow_keys_send(m: Mods)
    ensures
        !m.control && !m.alt ==> typed_bytes(KeyView::Named(NamedKey::ArrowUp), m) == Some(
            seq![0x1bu8, 0x5b, 0x41],
        ),
        !m.control && m.alt ==> typed_bytes(KeyView::Named(NamedKey::ArrowUp), m) == Some(
            seq![0x1bu8, 0x5b, 0x31, 0x3b, 0x33, 0x41],
        ),
        m.control && !m.alt ==> typed_bytes(KeyView::Named(NamedKey::ArrowUp), m) == Some(
            seq![0x1bu8, 0x5b, 0x31, 0x3b, 0x35, 0x41],
        ),
        m.control && m.alt ==> typed_bytes(KeyView::Named(NamedKey::ArrowUp), m) == Some(
            seq![0x1bu8, 0x5b, 0x31, 0x3b, 0x37, 0x41],
        ),
        !m.control && !m.alt ==> typed_bytes(KeyView::Named(NamedKey::ArrowDown), m) == Some(
            seq![0x1bu8, 0x5b, 0x42],
        ),
        !m.control && m.alt ==> typed_bytes(KeyView::Named(NamedKey::ArrowDown), m) == Some(
            seq![0x1bu8, 0x5b, 0x31, 0x3b, 0x33, 0x42],
        ),
        m.control && !m.alt ==> typed_bytes(KeyView::Named(NamedKey::ArrowDown), m) == Some(
            seq![0x1bu8, 0x5b, 0x31, 0x3b, 0x35, 0x42],
        ),
        m.control && m.alt ==> typed_bytes(KeyView::Named(NamedKey::ArrowDown), m) == Some(
            seq![0x1bu8, 0x5b, 0x31, 0x3b, 0x37, 0x42],
        ),
        !m.control && !m.alt ==> typed_bytes(KeyView::Named(NamedKey::ArrowRight), m) == Some(
            seq![0x1bu8, 0x5b, 0x43],
        ),
        !m.control && m.alt ==> typed_bytes(KeyView::Named(NamedKey::ArrowRight), m) == Some(
            seq![0x1bu8, 0x5b, 0x31, 0x3b, 0x33, 0x43],
        ),
        m.control && !m.alt ==> typed_bytes(KeyView::Named(NamedKey::ArrowRight), m) == Some(
            seq![0x1bu8, 0x5b, 0x31, 0x3b, 0x35, 0x43],
        ),
        m.control && m.alt ==> typed_bytes(KeyView::Named(NamedKey::ArrowRight), m) == Some(
            seq![0x1bu8, 0x5b, 0x31, 0x3b, 0x37, 0x43],
        ),
        !m.control && !m.alt ==> typed_bytes(KeyView::Named(NamedKey::ArrowLeft), m) == Some(
            seq![0x1bu8, 0x5b, 0x44],
        ),
        !m.control && m.alt ==> typed_bytes(KeyView::Named(NamedKey::ArrowLeft), m) == Some(
            seq![0x1bu8, 0x5b, 0x31, 0x3b, 0x33, 0x44],
        ),
        m.control && !m.alt ==> typed_bytes(KeyView::Named(NamedKey::ArrowLeft), m) == Some(
            seq![0x1bu8, 0x5b, 0x31, 0x3b, 0x35, 0x44],
        ),
        m.control && m.alt ==> typed_bytes(KeyView::Named(NamedKey::ArrowLeft), m) == Some(
            seq![0x1bu8, 0x5b, 0x31, 0x3b, 0x37, 0x44],
        ),
{
}

/// Text is sent as it is typed; in ASCII, a byte for each character.
pub proof fn law_text_is_sent(c: Seq<char>, m: Mods)
    requires
        !m.control,
    ensures
        typed_bytes(KeyView::Character(c), m) == Some(encode_utf8(c)),
        is_ascii_chars(c) ==> {
            &&& typed_bytes(KeyView::Character(c), m)->0.len() == c.len()
            &&& forall|i: int|
                0 <= i < c.len() ==> #[trigger] typed_bytes(KeyView::Character(c), m)->0[i]
                    == c[i] as u8
        },
{
    if is_ascii_chars(c) {
        is_ascii_chars_encode_utf8(c);
        assert forall|i: int| 0 <= i < c.len() implies #[trigger] typed_bytes(
            KeyView::Character(c),
            m,
        )->0[i] == c[i] as u8 by {
            assert(c[i] as u8 == encode_utf8(c)[i]);
        }
    }
}

/// The control key with a letter, small or not, sends the number of the letter: 1 for a, up to 26
/// for z. With any other character it sends nothing.
pub proof fn law_control_keys_send(c: char, m: Mods)
    requires
        m.control,
    ensures
        ({
            let r = typed_bytes(KeyView::Character(seq![c]), m);
            &&& 'a' <= c <= 'z' ==> r is Some && r->0.len() == 1 && r->0[0] + 96 == c as int
            &&& 'A' <= c <= 'Z' ==> r is Some && r->0.len() == 1 && r->0[0] + 64 == c as int
            &&& !('a' <= c <= 'z') && !('A' <= c <= 'Z') ==> r is None
        }),
{
}

/// The bytes of a plain key without modifiers reach the active session, and nothing else happens:
/// where no overlay, no menu, no copy mode and no prefix takes the key, and the view is live.
pub proof fn law_keys_reach_the_session(s: ShellView, key: KeyView, g: Option<GridView>, now: u64)
    requires
        s.overlay == Overlay::Closed,
        s.menu is None,
        !s.prefix.down,
        !s.copy.on,
        s.board.active < s.board.tabs.len(),
        !s.board.tabs[s.board.active as int].scrolled,
        key is Character || key == KeyView::Named(NamedKey::Enter) || key == KeyView::Named(
            NamedKey::Backspace,
        ) || key == KeyView::Named(NamedKey::Tab) || key == KeyView::Named(NamedKey::Escape) || key
            == KeyView::Named(NamedKey::ArrowUp) || key == KeyView::Named(NamedKey::ArrowDown)
            || key == KeyView::Named(NamedKey::ArrowLeft) || key == KeyView::Named(
            NamedKey::ArrowRight,
        ),
    ensures
        ({
            let bare = Mods { shift: false, control: false, alt: false, logo: false };
            s.handled(key, bare, g, now) == ShellView {
                board: BoardView { todo: s.board.todo.push(Act::Type), ..s.board },
                ..s
            }
        }),
{
    reveal(ShellView::menu_keyed);
    reveal(ShellView::forwarded);
    reveal(ShellView::overlay_keyed);
    reveal(ShellView::plain_keyed);
}

/// The command key with c copies and with v pastes; the control key with v pastes too.
pub proof fn law_clipboard_keys(s: ShellView, m: Mods)
    requires
        s.board.active < s.board.tabs.len(),
    ensures
        m.logo ==> s.session_keyed(KeyView::Character("c"@), m).board.todo == s.board.todo.push(
            Act::CutSelection,
        ),
        m.logo || m.control ==> s.session_keyed(KeyView::Character("v"@), m).board.todo
            == s.board.todo.push(Act::Paste),
{
    reveal_strlit("c");
    reveal_strlit("v");
    assert("c"@[0] == 'c');
    assert("v"@[0] == 'v');
}

} // verus!
