//! The window: keys, the mouse, overlays and what is painted.

use harness_terminal::activity::Seen;
use harness_terminal::board::{Act, Board};
use harness_terminal::color::{CellColor, NamedColor};
use harness_terminal::frame::Scene;
use harness_terminal::geometry::Metrics;
use harness_terminal::glyph::{Dot, Face, GlyphCache, Raster};
use harness_terminal::grid::{Cell, CursorShape, Grid};
use harness_terminal::input::key_bytes;
use harness_terminal::keys::{Key, Mods, MouseButton, NamedKey};
use harness_terminal::lists::{fleet_shown, palette_shown, words_of, FleetRow, PaletteAction};
use harness_terminal::menu::{ctx_items, ctx_label, CtxAction, CtxMenu};
use harness_terminal::mouse::{pixel_of, MOUSE_MODES, SGR_MODE};
use harness_terminal::opening::{parse_address, MenuAction, Setup};
use harness_terminal::overview::{preview_lines, tally_text};
use harness_terminal::paint::Framebuffer;
use harness_terminal::shell::{Overlay, Shell};
use harness_terminal::strip::note_text;
use harness_terminal::strokes::{paint, Stroke};
use harness_terminal::tabs::Tab;
use harness_terminal::triage::{grid_tile_at, Engine, CHROME_BG, TILE_GAP};

fn tab(kind: &str, host: &str, engine: &str, alive: bool) -> Tab {
    Tab {
        kind: kind.to_string(),
        host: host.to_string(),
        engine: engine.to_string(),
        name: None,
        title: engine.to_string(),
        live_title: None,
        pending: 0,
        retry: None,
        down_reason: None,
        age_secs: 90,
        scrolled: false,
        offset: 0,
        depth: 100,
        lines: 24,
        cols: 80,
        mode: 1,
        seen: Seen {
            rang: false,
            alive,
            pty: kind == "pty",
            history: 10,
        },
    }
}

fn setup(tabs: Vec<Tab>) -> Setup {
    let keys = (0..tabs.len()).map(|i| format!("key{i}")).collect();
    Setup {
        tabs,
        active: 0,
        keys,
        muted: Vec::new(),
        pinned: Vec::new(),
        offline: 0,
        native: false,
        status_bar: true,
        quiet_secs: 30,
        engines: vec!["codex".to_string(), "aider".to_string()],
        last_dirs: vec!["/work".to_string()],
        recent_hosts: vec!["build02".to_string()],
        port: 18473,
        find_history: Vec::new(),
        case_sensitive: false,
        whole_word: false,
        last_broadcast: String::new(),
        broadcasts: Vec::new(),
        prefix_key: "b".to_string(),
        prefix_chord: "Ctrl+b".to_string(),
        prefix_claimed: false,
        prefix_notice: "noticed".to_string(),
        keymap: Vec::new(),
        metrics: Metrics {
            width: 900,
            height: 600,
            font_px: 14,
            cell_w: 9,
            cell_h: 18,
        },
    }
}

fn fleet() -> Vec<Tab> {
    vec![
        tab("pty", "", "shell", true),
        tab("ssh", "build02", "codex", true),
        tab("tmux", "edge1", "aider", false),
        tab("ssh", "build02", "aider", true),
    ]
}

fn shell(tabs: Vec<Tab>) -> Shell {
    Shell::new(setup(tabs), 0)
}

fn said(b: &Board) -> &str {
    match &b.flash {
        Some(f) => f.text.as_str(),
        None => "",
    }
}

const BARE: Mods = Mods {
    shift: false,
    control: false,
    alt: false,
    logo: false,
};

const CTRL: Mods = Mods {
    shift: false,
    control: true,
    alt: false,
    logo: false,
};

const CMD: Mods = Mods {
    shift: false,
    control: false,
    alt: false,
    logo: true,
};

fn press(s: &mut Shell, text: &str, m: Mods) {
    s.handle_key(Key::Character(text.to_string()), &m, None, 1);
}

fn hit(s: &mut Shell, k: NamedKey) {
    s.handle_key(Key::Named(k), &BARE, None, 1);
}

fn bound(rows: &[(&str, &str)]) -> Shell {
    let mut s = setup(fleet());
    s.keymap = rows
        .iter()
        .map(|r| (r.0.to_string(), r.1.to_string()))
        .collect();
    Shell::new(s, 0)
}

/// Letters of one width.
struct Even;

impl Face for Even {
    fn raster(&self, ch: char, px: u32) -> Raster {
        let mut dots = Vec::new();
        if ch != ' ' {
            dots.push(Dot {
                x: 2,
                y: 5,
                cover: 255,
            });
        }
        Raster { w: 8, h: px, dots }
    }
}

fn scene(s: &Shell) -> Scene {
    Scene {
        filtered: (0..s.board.tabs.len()).collect(),
        engines: Vec::new(),
        ordered: Vec::new(),
        present: Vec::new(),
        machine_id: "m1".to_string(),
        connected: true,
        found: Vec::new(),
        history: Vec::new(),
        tail: vec!["last line".to_string()],
        tails: vec![Vec::new(); s.board.tabs.len()],
        hover_history: Vec::new(),
        hover_tail: Vec::new(),
        fg: (200, 200, 200),
        bg: (0, 0, 0),
        accents: Vec::new(),
        frame: 0,
    }
}

fn texts(list: &[Stroke]) -> Vec<&str> {
    list.iter()
        .filter_map(|s| match s {
            Stroke::Text(t, _, _, _) => Some(t.as_str()),
            _ => None,
        })
        .collect()
}

fn page(lines: &[&str], cols: usize) -> Grid {
    let rows = lines
        .iter()
        .map(|l| {
            let mut row: Vec<Cell> = l.chars().map(cell).collect();
            row.resize(cols, cell(' '));
            row
        })
        .collect();
    Grid {
        cols,
        rows: lines.len(),
        offset: 0,
        lines: rows,
        cursor_line: 0,
        cursor_col: 0,
        shape: CursorShape::Block,
    }
}

fn cell(c: char) -> Cell {
    Cell {
        c,
        flags: 0,
        fg: CellColor::Named(NamedColor::Foreground),
        bg: CellColor::Named(NamedColor::Background),
    }
}

/// A key goes to the active session as bytes.
#[test]
fn keys_are_typed() {
    let mut s = shell(fleet());
    press(&mut s, "a", BARE);
    assert_eq!(s.board.todo, vec![Act::Type]);
    assert_eq!(key_bytes(&Key::Character("é".to_string()), &BARE), Some("é".as_bytes().to_vec()));
    assert_eq!(key_bytes(&Key::Character("c".to_string()), &CTRL), Some(vec![3]));
    assert_eq!(key_bytes(&Key::Character("1".to_string()), &CTRL), None);
    assert_eq!(key_bytes(&Key::Named(NamedKey::Enter), &BARE), Some(vec![13]));
    assert_eq!(key_bytes(&Key::Other, &BARE), None);
    let shift = Mods {
        shift: true,
        ..BARE
    };
    assert_eq!(key_bytes(&Key::Named(NamedKey::Tab), &shift), Some(b"\x1b[Z".to_vec()));
}

/// A key typed while the view is held back goes to the live screen.
#[test]
fn typing_returns_to_the_live_screen() {
    let mut s = shell(fleet());
    hit(&mut s, NamedKey::PageUp);
    assert_eq!(s.board.tabs[0].offset, 20);
    assert!(s.board.tabs[0].scrolled);
    press(&mut s, "a", BARE);
    assert_eq!(s.board.tabs[0].offset, 0);
    assert!(!s.board.tabs[0].scrolled);
    assert!(s.board.todo.contains(&Act::Type));
}

/// The prefix takes one key: a digit goes to that tab, a bound key runs its command, and the key
/// after is typed again.
#[test]
fn the_prefix_takes_one_key() {
    let mut s = bound(&[("m", "mute_active"), ("1", "quit")]);
    press(&mut s, "b", CTRL);
    assert!(s.prefix.down);
    press(&mut s, "3", BARE);
    assert!(!s.prefix.down);
    assert_eq!(s.board.active, 2);
    press(&mut s, "b", CTRL);
    press(&mut s, "0", BARE);
    assert_eq!(s.board.active, 3);
    press(&mut s, "b", CTRL);
    press(&mut s, "1", BARE);
    assert_eq!(s.board.active, 0);
    assert!(!s.quit);
    s.board.todo.clear();
    press(&mut s, "m", BARE);
    assert_eq!(s.board.todo, vec![Act::Type]);
}

/// The first time that the backslash stands in for a prefix which is taken, this is explained.
#[test]
fn a_claimed_prefix_is_explained_once() {
    let mut p = setup(fleet());
    p.prefix_claimed = true;
    let mut s = Shell::new(p, 0);
    press(&mut s, "\\", CTRL);
    assert_eq!(said(&s.board), "noticed");
    assert!(s.prefix.noticed && s.prefix.down);
}

/// Shortcuts come before the overlay, and an overlay before the session.
#[test]
fn overlays_swallow_keys() {
    let mut s = shell(fleet());
    s.overlay = Overlay::Help;
    press(&mut s, "x", BARE);
    assert!(s.overlay == Overlay::Closed);
    assert!(s.board.todo.is_empty());
    press(&mut s, "t", CMD);
    assert!(s.overlay == Overlay::NewSession);
    press(&mut s, "q", CMD);
    assert!(s.quit);
}

/// Zoom and full screen come before everything that a session gets.
#[test]
fn zoom_keys_are_taken() {
    let mut s = shell(fleet());
    press(&mut s, "=", CMD);
    press(&mut s, "-", CMD);
    press(&mut s, "0", CTRL);
    s.handle_key(Key::Named(NamedKey::Enter), &CTRL, None, 1);
    assert_eq!(
        s.board.todo,
        vec![Act::ZoomIn, Act::ZoomOut, Act::ZoomReset, Act::Fullscreen]
    );
}

/// A name is given and taken away.
#[test]
fn sessions_are_renamed() {
    let mut s = shell(fleet());
    s.overlay = Overlay::Rename;
    press(&mut s, " build ", BARE);
    hit(&mut s, NamedKey::Enter);
    assert_eq!(s.board.tabs[0].name.as_deref(), Some("build"));
    assert!(s.overlay == Overlay::Closed);
    s.rename = "   ".to_string();
    s.overlay = Overlay::Rename;
    hit(&mut s, NamedKey::Enter);
    assert_eq!(s.board.tabs[0].name, None);
}

/// The find bar steps through the matches, round the ends.
#[test]
fn matches_are_stepped_through() {
    let mut s = shell(fleet());
    s.overlay = Overlay::Find;
    press(&mut s, "fix", BARE);
    assert!(s.board.todo.contains(&Act::FindAll));
    s.found(vec![(-3, 0, 3), (0, 1, 3), (2, 4, 3)]);
    let first = s.finder.hit;
    assert!(first.is_some());
    assert!(s.finder.line().contains("of 3"), "{}", s.finder.line());
    hit(&mut s, NamedKey::Tab);
    assert_ne!(s.finder.hit, first);
    hit(&mut s, NamedKey::ArrowUp);
    assert_eq!(s.finder.hit, first);
    s.found(Vec::new());
    assert_eq!(s.finder.hit, None);
    assert_eq!(s.finder.line(), "  find: fix  (no match)");
}

/// A hit of the search over all sessions is gone to.
#[test]
fn fleet_hits_are_gone_to() {
    let mut s = shell(fleet());
    s.overlay = Overlay::FleetSearch;
    s.hunt.query = "fix".to_string();
    let grids = vec![
        page(&["nothing"], 20),
        page(&["a fix"], 20),
        page(&["", "fix"], 20),
        page(&[""], 20),
    ];
    s.hunted(&grids);
    assert_eq!(s.hunt.matches.len(), 2);
    hit(&mut s, NamedKey::ArrowDown);
    hit(&mut s, NamedKey::Enter);
    assert_eq!(s.board.active, 2);
    assert_eq!((s.copy.line, s.copy.col), (1, 0));
    assert!(s.overlay == Overlay::Closed);
}

/// In copy mode the cursor stays on the grid, marks a span, and copies it.
#[test]
fn copy_mode_selects_and_copies() {
    let mut s = bound(&[("[", "copy_mode")]);
    press(&mut s, "b", CTRL);
    press(&mut s, "[", BARE);
    assert!(s.copy.on);
    let start = (s.copy.line, s.copy.col);
    press(&mut s, "v", BARE);
    assert_eq!(s.copy.anchor, Some(start));
    for _ in 0..500 {
        press(&mut s, "l", BARE);
        press(&mut s, "k", BARE);
    }
    assert_eq!(s.copy.col, 79);
    assert_eq!(s.copy.line, -100);
    assert!(s.copy.banner().contains("[selecting]"));
    hit(&mut s, NamedKey::Enter);
    assert!(!s.copy.on);
    assert!(s.copy.anchor.is_none());
    assert!(s
        .board
        .todo
        .iter()
        .any(|a| matches!(a, Act::CopySpan(_, _, _, _))));
}

/// A broadcast opens to all tabs and goes to exactly its targets.
#[test]
fn a_broadcast_reaches_its_targets() {
    let mut s = shell(fleet());
    s.board.aim_all(false);
    s.open_broadcast();
    assert!(s.board.slots.iter().all(|x| x.target));
    s.board.aim(&vec![false, true, false, true]);
    press(&mut s, "go", BARE);
    s.board.todo.clear();
    hit(&mut s, NamedKey::Enter);
    let cast: Vec<&Act> = s
        .board
        .todo
        .iter()
        .filter(|a| matches!(a, Act::Cast(_)))
        .collect();
    assert_eq!(cast, vec![&Act::Cast(1), &Act::Cast(3)]);
}

/// Leaving the fleet grid drops all marks.
#[test]
fn marks_do_not_outlive_the_grid() {
    let mut s = shell(fleet());
    s.overlay = Overlay::FleetGrid;
    press(&mut s, " ", BARE);
    assert!(s.board.slots.iter().any(|x| x.mark));
    hit(&mut s, NamedKey::Escape);
    assert!(s.overlay == Overlay::Closed);
    assert!(s.board.slots.iter().all(|x| !x.mark));
}

/// The command palette runs the row that is left of its list.
#[test]
fn the_command_palette_runs_a_row() {
    let mut s = shell(fleet());
    s.open_commands();
    press(&mut s, "do not disturb", BARE);
    let left = s.cmd.shown.len();
    assert!(left <= palette_shown("").len());
    s.cmd.query.clear();
    s.cmd.refresh();
    assert_eq!(s.cmd.shown.len(), palette_shown("").len());
    s.run_palette_action(PaletteAction::Dnd, 1);
    assert!(s.board.dnd);
}

/// Every word more leaves fewer sessions, or the same.
#[test]
fn words_narrow_a_list() {
    let s = shell(fleet());
    let all = s.board.triage_shown("", 1);
    let some = s.board.triage_shown("build02", 1);
    let few = s.board.triage_shown("build02 aider", 1);
    assert_eq!(all, vec![0, 1, 2, 3]);
    assert_eq!(some, vec![1, 3]);
    assert_eq!(few, vec![3]);
    assert_eq!(words_of("  a  bc "), vec!["a".to_string(), "bc".to_string()]);
    let rows = vec![FleetRow {
        session_id: "s1".to_string(),
        tmux_pane: "%3".to_string(),
        engine: "codex".to_string(),
        name: "Fix".to_string(),
        live: true,
    }];
    assert_eq!(fleet_shown(&rows, "fix"), vec![0]);
    assert!(fleet_shown(&rows, "zzz").is_empty());
}

/// A press on a tab that is let go over it goes to that tab.
#[test]
fn a_click_on_a_tab_goes_to_it() {
    let mut s = shell(fleet());
    let w = s.tab_widths(&mut GlyphCache::new(Even, None));
    let menu = Vec::new();
    let x = (0..900)
        .find(|&x| s.tab_under(&w, x, 10) == Some(1))
        .expect("the second tab is there");
    assert_eq!(s.tab_under(&w, x, 599), None);
    s.mouse_moved(x, 10, false, &BARE, &w);
    s.mouse_button(MouseButton::Left, true, &BARE, false, false, &w, &menu, 5);
    s.mouse_button(MouseButton::Left, false, &BARE, false, false, &w, &menu, 6);
    assert_eq!(s.board.active, 1);
    assert_eq!(s.board.tabs[1].engine, "codex");
}

/// A session is told of the mouse only if its program has asked for it.
#[test]
fn the_mouse_is_told_where_it_was_asked_for() {
    let mut s = shell(fleet());
    assert_eq!(s.mouse_report_flags(), None);
    s.board.tabs[0].mode = MOUSE_MODES | SGR_MODE;
    assert_eq!(s.mouse_report_flags(), Some(true));
    s.board.tabs[0].mode = 8;
    assert_eq!(s.mouse_report_flags(), None);
    s.board.tabs[0].mode = 8 | SGR_MODE;
    assert_eq!(s.mouse_report_flags(), Some(false));
    let w = Vec::new();
    s.mouse_moved(50, 100, false, &BARE, &w);
    s.board.todo.clear();
    s.mouse_button(MouseButton::Left, true, &BARE, false, false, &w, &w, 5);
    assert!(s
        .board
        .todo
        .iter()
        .any(|a| matches!(a, Act::MouseReport(0, 6, 4, false))), "{:?}", s.board.todo);
    s.board.tabs[0].mode = 0;
    s.board.todo.clear();
    s.mouse_button(MouseButton::Left, true, &BARE, false, false, &w, &w, 50);
    assert!(!s
        .board
        .todo
        .iter()
        .any(|a| matches!(a, Act::MouseReport(_, _, _, _))));
}

/// The wheel moves the view.
#[test]
fn the_wheel_scrolls() {
    let mut s = shell(fleet());
    s.mouse_moved(50, 100, false, &BARE, &Vec::new());
    s.mouse_wheel(true, 3, &BARE);
    assert_eq!(s.board.tabs[0].offset, 3);
    s.mouse_wheel(false, -3, &BARE);
    assert_eq!(s.board.tabs[0].offset, 0);
}

/// The cell under the pointer is one that the grid shows.
#[test]
fn cells_are_found_under_the_pointer() {
    let s = shell(fleet());
    assert_eq!(s.grid_bars(), (36, 18));
    assert_eq!(s.cell_under(0, 35), None);
    assert_eq!(s.cell_under(0, 36), Some((0, 0)));
    assert_eq!(s.cell_under(899, 581), Some((30, 99)));
    assert_eq!(s.cell_under(899, 582), None);
    assert_eq!(s.cell_under(-1, 100), None);
    assert_eq!(pixel_of(-5), 0);
    assert_eq!(pixel_of(7), 7);
}

/// The context menu offers what there is, skips the lines between, and does what its row says.
#[test]
fn the_context_menu_does_what_it_says() {
    let items = ctx_items(true, true, false);
    assert!(items.contains(&CtxAction::OpenLink) && items.contains(&CtxAction::SearchSelection));
    assert!(!ctx_items(false, false, false).contains(&CtxAction::OpenLink));
    assert!(ctx_items(false, false, true).contains(&CtxAction::Reconnect));
    assert_eq!(ctx_label(CtxAction::Paste), "Paste");
    let widths = vec![40; items.len()];
    let mut m = CtxMenu::place(items, &widths, 20, 300, 300, 290, 10);
    assert!(m.px + m.w <= 300);
    for _ in 0..30 {
        m.navigate(true);
        assert!(m.items[m.sel] != CtxAction::Separator);
    }
    let mut s = shell(fleet());
    s.menu = Some(m);
    hit(&mut s, NamedKey::Escape);
    assert!(s.menu.is_none());
    s.run_ctx_action(CtxAction::MuteToggle, 1);
    assert!(s.board.slots[0].muted);
    s.run_ctx_action(CtxAction::Interrupt, 1);
    assert_eq!(said(&s.board), "interrupted");
}

/// A machine is named by its host, its port and its session.
#[test]
fn addresses_are_read() {
    assert_eq!(parse_address("", 9), ("127.0.0.1".to_string(), 9));
    assert_eq!(parse_address("host", 9), ("host".to_string(), 9));
    assert_eq!(parse_address("host:80", 9), ("host".to_string(), 80));
    assert_eq!(parse_address("host:+80", 9), ("host".to_string(), 80));
    assert_eq!(parse_address("host:99999", 9), ("host".to_string(), 9));
    assert_eq!(parse_address("host:", 9), ("host".to_string(), 9));
    let mut s = shell(fleet());
    s.remote = "build02:22/agents".to_string();
    assert_eq!(
        s.remote_named(),
        ("build02".to_string(), 22, Some("agents".to_string()))
    );
    s.overlay = Overlay::RemoteAttach;
    s.connected(Some("refused"), None, 1);
    assert_eq!(said(&s.board), "⚠ build02:22: refused");
    assert!(s.overlay == Overlay::RemoteAttach);
    s.connected(None, None, 1);
    assert_eq!(said(&s.board), "attached agents @ build02:22 ✓");
    assert!(s.overlay == Overlay::Closed);
    s.remote = "build02".to_string();
    s.connected(None, Some("codex"), 1);
    assert_eq!(said(&s.board), "connecting codex @ build02:18473 …");
}

/// What was done outside is told.
#[test]
fn what_was_done_is_told() {
    let mut s = shell(fleet());
    s.opened_here(Some("no such engine"), 1);
    assert_eq!(said(&s.board), "⚠ no such engine");
    s.scrollback_copied("héllo", 1);
    assert_eq!(said(&s.board), "copied 6 chars of scrollback");
    s.board.flash = None;
    s.scrollback_copied(" \n\t\u{3000} ", 1);
    s.scrollback_copied("", 1);
    assert!(s.board.flash.is_none());
    s.board.todo.clear();
    s.spawned(false);
    assert!(s.board.todo.is_empty() && s.board.flash.is_none());
    s.spawned(true);
    assert_eq!(s.board.todo, vec![Act::SaveTabs]);
    s.exported("abc", "/tmp/x.log", 1);
    assert_eq!(said(&s.board), "wrote 3 bytes → /tmp/x.log");
    s.export_failed("denied", 1);
    assert_eq!(said(&s.board), "⚠ couldn't write export: denied");
    s.fullscreened(false, 1);
    assert_eq!(said(&s.board), "fullscreen");
    s.fork_pinned = true;
    s.forked(tab("ssh", "edge1", "codex", true), 1);
    assert_eq!(s.board.tabs.len(), 5);
    assert!(s.board.slots[4].pinned);
    s.apply_menu_action(MenuAction::NextTab);
    s.apply_menu_action(MenuAction::CloseTab);
    assert!(s.close_active);
    s.apply_menu_action(MenuAction::Quit);
    assert!(s.quit);
}

/// What is shown is reported as changed once.
#[test]
fn a_change_is_seen_once() {
    let mut s = shell(fleet());
    let shown = vec![(10, 1), (10, 2), (10, 3), (10, 4)];
    s.end_turn(&shown, 10);
    s.board.todo.clear();
    s.end_turn(&shown, 20);
    assert!(!s.board.todo.contains(&Act::Redraw), "{:?}", s.board.todo);
    let other = vec![(10, 9), (10, 2), (10, 3), (10, 4)];
    s.end_turn(&other, 30);
    assert!(s.board.todo.contains(&Act::Redraw));
}

/// A resized window asks for a grid of that size.
#[test]
fn the_grid_follows_the_window() {
    let mut s = shell(fleet());
    s.resized(450, 300);
    assert_eq!((s.metrics.width, s.metrics.height), (450, 300));
    assert_eq!(s.resize_due(), Some((13, 50)));
    s.board.tabs[0].lines = 13;
    s.board.tabs[0].cols = 50;
    assert_eq!(s.resize_due(), None);
}

/// The bars and what lies over them are painted; in focus mode there are no bars.
#[test]
fn a_frame_is_painted() {
    let mut s = shell(fleet());
    let mut c = GlyphCache::new(Even, None);
    let shown = vec![(10, 1), (10, 2), (10, 3), (10, 4)];
    let busy = s.sample(&shown, 1);
    assert_eq!(busy.len(), 4);
    let sc = scene(&s);
    let under = s.render_under(&mut c, &sc, &busy, 1);
    let all = texts(&under).join("|");
    assert!(all.contains("codex") && all.contains("build02"), "{all}");
    s.overlay = Overlay::Help;
    let over = s.render_over(&mut c, &sc, &busy, 1);
    assert!(!over.is_empty());
    let mut fb = Framebuffer::new(900, 600);
    paint(&mut fb, &mut c, &under, 14);
    assert_eq!(harness_terminal::paint::argb_to_rgb(fb.get(899, 599)), CHROME_BG);
    s.overlay = Overlay::Closed;
    s.board.focus = true;
    s.board.flash = None;
    assert!(s.render_over(&mut c, &sc, &busy, 1).is_empty());
}

/// Each overlay shows what it is about.
#[test]
fn overlays_show_what_they_are_about() {
    let mut s = shell(fleet());
    let mut c = GlyphCache::new(Even, None);
    let busy = vec![false; 4];
    let mut sc = scene(&s);
    sc.ordered = vec![Engine {
        id: "codex".to_string(),
        label: "Codex".to_string(),
        desc: "an agent".to_string(),
        color: 0xff112233,
    }];
    sc.present = vec![true];
    sc.engines = vec![Engine {
        id: "codex".to_string(),
        label: "Codex".to_string(),
        desc: "an agent".to_string(),
        color: 0xff112233,
    }];
    for (o, word) in [
        (Overlay::Palette, "codex"),
        (Overlay::NewSession, "Codex"),
        (Overlay::RemoteAttach, "Codex"),
        (Overlay::Hosts, "build02"),
        (Overlay::Help, "tab"),
        (Overlay::Info, "shell"),
        (Overlay::Broadcast, "codex"),
        (Overlay::Peek, "codex"),
        (Overlay::FleetGrid, "codex"),
    ] {
        s.overlay = o;
        let list = s.render_overlay(&mut c, &sc, &busy, 1);
        let all = texts(&list).join("|").to_lowercase();
        assert!(all.contains(&word.to_lowercase()), "{o:?}: {all}");
    }
}

/// Short notes: a mark and a number, the lines that a preview shows.
#[test]
fn short_notes() {
    assert_eq!(note_text("!", 0), "");
    assert_eq!(note_text("!", 3), "!3 ");
    assert_eq!(tally_text("●", 2), "●2");
    assert_eq!(tally_text("●", 0), "");
    let h = vec!["a".to_string()];
    let t = vec!["b".to_string(), "c".to_string()];
    assert!(!preview_lines(&h, &t).is_empty());
}

/// A tile of the fleet grid is found under its own corner.
#[test]
fn tiles_are_found_under_their_corner() {
    let s = shell(fleet());
    let t = s.metrics.fleet_grid_geom(false, 4);
    assert_eq!(t.n, 4);
    for i in 0..4 {
        let x = t.x0 + (i % t.cols) * (t.tw + TILE_GAP);
        let y = t.y0 + (i / t.cols) * (t.th + TILE_GAP);
        if y + t.th <= t.height {
            assert_eq!(
                grid_tile_at(x, y, t.x0, t.y0, t.tw, t.th, t.cols, t.n, t.height),
                Some(i)
            );
        }
    }
}

/// The tabs of the bar stand one after the other.
#[test]
fn tabs_stand_in_a_row() {
    let mut s = shell(fleet());
    let sc = scene(&s);
    let mut c = GlyphCache::new(Even, None);
    let busy = vec![false; 4];
    s.render_under(&mut c, &sc, &busy, 1);
    s.render_over(&mut c, &sc, &busy, 1);
    assert_eq!(s.mouse.rects.len(), 4);
    for i in 0..4 {
        let (x, end) = s.mouse.rects[i];
        assert!(x < end);
        if i > 0 {
            assert_eq!(s.mouse.rects[i - 1].1, x);
        }
    }
    assert!(s.mouse.new_tab.is_some());
}

/// To paint two lists is to paint the one and then the other.
#[test]
fn lists_are_painted_in_turn() {
    let mut c = GlyphCache::new(Even, None);
    let one = || Stroke::Fill(0, 0, 6, 6, (1, 1, 1));
    let two = || Stroke::Text("ab".to_string(), 1, 14, (9, 9, 9));
    let mut both = Framebuffer::new(20, 20);
    paint(&mut both, &mut c, &vec![one(), two()], 14);
    let mut each = Framebuffer::new(20, 20);
    paint(&mut each, &mut c, &vec![one()], 14);
    paint(&mut each, &mut c, &vec![two()], 14);
    assert_eq!(both.pixels, each.pixels);
    let mut turned = Framebuffer::new(20, 20);
    paint(&mut turned, &mut c, &vec![two(), one()], 14);
    assert_eq!(turned.get(3, 5), harness_terminal::paint::argb(255, 1, 1, 1));
}

/// A pinned session is not closed by the close command.
#[test]
fn the_close_command_spares_the_pinned() {
    let mut s = shell(fleet());
    s.board.toggle_pin_at(0, 1);
    s.close_active = true;
    assert!(!s.begin_turn(2));
    assert_eq!(s.board.tabs.len(), 4);
    assert!(!s.close_active);
    assert_eq!(said(&s.board), "🔒 pinned — prefix A to unpin first");
    s.board.toggle_pin_at(0, 3);
    s.close_active = true;
    s.begin_turn(4);
    assert_eq!(s.board.tabs.len(), 3);
    s.quit = true;
    assert!(!s.begin_turn(5));
    assert!(s.board.todo.contains(&Act::Exit));
}

/// While an overlay is open, no key is typed to a session.
#[test]
fn overlays_keep_the_keys() {
    for o in [
        Overlay::Palette,
        Overlay::NewSession,
        Overlay::RemoteAttach,
        Overlay::Find,
        Overlay::FleetSearch,
        Overlay::Fleet,
        Overlay::Hosts,
        Overlay::Help,
        Overlay::Info,
        Overlay::Rename,
        Overlay::Broadcast,
        Overlay::Peek,
        Overlay::FleetGrid,
        Overlay::CommandPalette,
    ] {
        for c in ["a", "n", "x", " ", "1", "/", "r", "m", "p", "b"] {
            let mut s = shell(fleet());
            s.overlay = o;
            press(&mut s, c, BARE);
            assert!(!s.board.todo.contains(&Act::Type), "{o:?} {c}");
        }
        for k in [
            NamedKey::Enter,
            NamedKey::Escape,
            NamedKey::Tab,
            NamedKey::Backspace,
            NamedKey::PageDown,
        ] {
            let mut s = shell(fleet());
            s.overlay = o;
            hit(&mut s, k);
            assert!(!s.board.todo.contains(&Act::Type), "{o:?} {k:?}");
        }
    }
}

/// What a frame needs to know of the sessions: the lines of the matches in view, and the session that
/// is selected in a list.
#[test]
fn a_frame_asks_for_what_it_shows() {
    let mut s = shell(fleet());
    s.hunt.query = "x".to_string();
    s.hunted(&vec![page(&["x"; 12], 20)]);
    assert_eq!(s.hunt.hits_in_view().len(), 8);
    assert_eq!(s.hunt.hits_in_view()[0].line, 0);
    s.hunt.sel = 11;
    assert_eq!(s.hunt.hits_in_view()[7].line, 11);
    assert_eq!(s.previewed(), None);
    s.open_peek();
    s.peek_refresh_filter(1);
    assert_eq!(s.previewed(), Some(2));
    s.overlay = Overlay::Hosts;
    assert_eq!(s.previewed(), None);
    s.hosts_host = Some("build02".to_string());
    s.hosts_sel = 1;
    assert_eq!(s.previewed(), Some(3));
}

const SHIFT: Mods = Mods {
    shift: true,
    control: false,
    alt: false,
    logo: false,
};

/// Shift and up recalls the line that was broadcast last, and then older ones; shift and down goes to
/// newer ones, and first to the oldest.
#[test]
fn broadcasts_are_recalled() {
    let mut start = setup(fleet());
    start.broadcasts = ["newest", "middle", "oldest"].map(String::from).to_vec();
    let mut s = Shell::new(start, 0);
    s.overlay = Overlay::Broadcast;
    let mut go = |k: NamedKey| {
        s.handle_key(Key::Named(k), &SHIFT, None, 1);
        s.cast.query.clone()
    };
    assert_eq!(go(NamedKey::ArrowUp), "newest");
    assert_eq!(go(NamedKey::ArrowUp), "middle");
    assert_eq!(go(NamedKey::ArrowDown), "newest");
    assert_eq!(go(NamedKey::ArrowUp), "middle");
    assert_eq!(go(NamedKey::ArrowUp), "oldest");
    let mut start = setup(fleet());
    start.broadcasts = ["newest", "middle", "oldest"].map(String::from).to_vec();
    let mut s = Shell::new(start, 0);
    s.overlay = Overlay::Broadcast;
    s.handle_key(Key::Named(NamedKey::ArrowDown), &SHIFT, None, 1);
    assert_eq!(s.cast.query, "oldest");
}

fn copying(g: &Grid) -> Shell {
    let mut s = bound(&[("[", "copy_mode")]);
    press(&mut s, "b", CTRL);
    press(&mut s, "[", BARE);
    s.copy.line = 1;
    s.copy.col = 4;
    s.handle_key(Key::Character("/".to_string()), &BARE, Some(g), 1);
    s
}

/// While a search is typed in copy mode, a second slash does nothing.
#[test]
fn a_second_slash_does_nothing() {
    let g = page(&["alpha", "beta gamma"], 20);
    let mut s = copying(&g);
    assert!(s.copy.searching);
    for c in ["e", "/", "t"] {
        s.handle_key(Key::Character(c.to_string()), &BARE, Some(&g), 1);
    }
    assert_eq!(s.copy.query, "et");
    assert!(s.copy.searching);
}

/// A search in copy mode that finds nothing says so, and leaves the cursor where it stands.
#[test]
fn a_search_in_vain_leaves_the_cursor() {
    let g = page(&["alpha", "beta gamma"], 20);
    let mut s = copying(&g);
    let at = (s.copy.line, s.copy.col);
    s.handle_key(Key::Character("zz".to_string()), &BARE, Some(&g), 1);
    s.handle_key(Key::Named(NamedKey::Enter), &BARE, Some(&g), 1);
    assert_eq!(said(&s.board), "copy: no match /zz");
    assert_eq!((s.copy.line, s.copy.col), at);
}

/// What a window is painted of: the grid or a hint, its bars, and what is open in the window that has
/// the focus, with the rest darkened.
#[test]
fn windows_are_painted_in_layers() {
    let mut c = GlyphCache::new(Even, None);
    let mut s = shell(fleet());
    let busy = vec![false; 4];
    let sc = scene(&s);
    s.overlay = Overlay::Help;
    let there = s.render_layers(&mut c, &sc, &busy, true, 1);
    assert!(there.grid && there.dim && !there.over.is_empty());
    assert!(texts(&there.under).join("|").contains("codex"));
    let away = s.render_layers(&mut c, &sc, &busy, false, 1);
    assert!(away.grid && !away.dim && away.over.is_empty());
    s.overlay = Overlay::Closed;
    let closed = s.render_layers(&mut c, &sc, &busy, true, 1);
    assert!(closed.grid && !closed.dim && closed.over.is_empty());
    s.board.native = true;
    s.status_bar = false;
    assert!(s.render_layers(&mut c, &sc, &busy, true, 1).under.is_empty());
    s.status_bar = true;
    assert!(!s.render_layers(&mut c, &sc, &busy, true, 1).under.is_empty());
    let mut none = shell(Vec::new());
    let sc = scene(&none);
    let empty = none.render_layers(&mut c, &sc, &Vec::new(), true, 1);
    assert!(!empty.grid);
    assert!(texts(&empty.under).join("|").contains("no sessions"));
}

/// A window is painted with its own session active, and then all is as it was.
#[test]
fn looking_into_a_window_changes_nothing() {
    let mut s = shell(fleet());
    s.board.native = true;
    s.board.wins = vec![0, 2, 9];
    s.board.active = 1;
    for (i, want) in [(0, 0), (1, 2), (2, 3), (3, 1)] {
        let was = s.board.look_into(i);
        assert_eq!((was, s.board.active), (1, want));
        s.board.look_back(was);
        assert_eq!(s.board.active, 1);
    }
}

/// Taking back the last letter of a search in copy mode closes its prompt.
#[test]
fn an_emptied_search_is_closed() {
    let g = page(&["alpha", "beta gamma"], 20);
    let mut s = copying(&g);
    s.handle_key(Key::Character("e".to_string()), &BARE, Some(&g), 1);
    s.handle_key(Key::Character("t".to_string()), &BARE, Some(&g), 1);
    s.handle_key(Key::Named(NamedKey::Backspace), &BARE, Some(&g), 1);
    assert!(s.copy.searching);
    s.handle_key(Key::Named(NamedKey::Backspace), &BARE, Some(&g), 1);
    assert!(!s.copy.searching);
    assert!(s.copy.on && s.copy.query.is_empty());
}

/// In copy mode the cursor goes to the start of the next word, and to that of the one before.
#[test]
fn words_are_stepped_over() {
    let g = page(&["one two  three", "four"], 20);
    let mut s = copying(&g);
    s.handle_key(Key::Named(NamedKey::Escape), &BARE, Some(&g), 1);
    assert!(s.copy.on && !s.copy.searching);
    s.copy.line = 0;
    s.copy.col = 0;
    let mut go = |k: &str| {
        s.handle_key(Key::Character(k.to_string()), &BARE, Some(&g), 1);
        (s.copy.line, s.copy.col)
    };
    assert_eq!(go("w"), (0, 4));
    assert_eq!(go("w"), (0, 9));
    assert_eq!(go("b"), (0, 4));
    assert_eq!(go("b"), (0, 0));
    assert_eq!(go("b"), (0, 0));
    assert_eq!(go("w"), (0, 4));
    assert_eq!(go("w"), (0, 9));
    assert_eq!(go("w"), (1, 0));
}

/// In the command palette the tab key goes round the rows, and the arrows stop at the ends.
#[test]
fn the_palette_goes_round() {
    let mut s = shell(fleet());
    s.open_commands();
    let last = s.cmd.shown.len() - 1;
    assert!(last > 0);
    hit(&mut s, NamedKey::ArrowUp);
    assert_eq!(s.cmd.sel, 0);
    s.handle_key(Key::Named(NamedKey::Tab), &SHIFT, None, 1);
    assert_eq!(s.cmd.sel, last);
    hit(&mut s, NamedKey::ArrowDown);
    assert_eq!(s.cmd.sel, last);
    hit(&mut s, NamedKey::Tab);
    assert_eq!(s.cmd.sel, 0);
    hit(&mut s, NamedKey::Tab);
    assert_eq!(s.cmd.sel, 1);
}

/// The preview of a tab is shown beside the bar, and not in focus mode.
#[test]
fn previews_need_a_bar() {
    let mut s = shell(fleet());
    let mut c = GlyphCache::new(Even, None);
    let busy = vec![false; 4];
    let sc = scene(&s);
    s.render_under(&mut c, &sc, &busy, 1);
    s.board.flash = None;
    s.board.hover = Some(1);
    let tip = s.render_over(&mut c, &sc, &busy, 1);
    assert!(texts(&tip).join("|").contains("codex"));
    s.board.focus = true;
    assert!(s.render_over(&mut c, &sc, &busy, 1).is_empty());
}

/// A dragged tab takes a place once the pointer is past the middle of the tab there; where it was
/// moved, letting it go does not switch to it.
#[test]
fn a_dragged_tab_passes_a_middle() {
    let mut s = shell(fleet());
    let mut c = GlyphCache::new(Even, None);
    let w = s.tab_widths(&mut c);
    let menu = Vec::new();
    let sc = scene(&s);
    s.render_under(&mut c, &sc, &vec![false; 4], 1);
    let (start, end) = s.mouse.rects[2];
    let (start, end) = (start as i64, end as i64);
    let first = s.mouse.rects[1].0 as i64 + 2;
    s.mouse_moved(first, 10, false, &BARE, &w);
    s.mouse_button(MouseButton::Left, true, &BARE, false, false, &w, &menu, 5);
    assert_eq!(s.board.drag, Some(1));
    let names = |s: &Shell| -> Vec<String> {
        let tabs = s.board.tabs.iter();
        tabs.map(|t| format!("{}@{}", t.engine, t.host)).collect()
    };
    let were = names(&s);
    s.mouse_moved(start + 2, 10, false, &BARE, &w);
    assert_eq!(names(&s), were);
    assert!(!s.board.dragged);
    s.mouse_moved(end - 2, 10, false, &BARE, &w);
    assert_eq!(names(&s)[2], were[1]);
    assert_eq!(names(&s)[1], were[2]);
    assert!(s.board.dragged);
    let active = s.board.active;
    s.mouse_button(MouseButton::Left, false, &BARE, false, false, &w, &menu, 9);
    assert_eq!(s.board.active, active);
    assert_eq!((s.board.drag, s.board.dragged), (None, false));
}
