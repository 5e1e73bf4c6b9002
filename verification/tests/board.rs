//! The sessions side by side: moving, closing, marking and watching them.

use harness_terminal::activity::{Seen, Slot, BELL_MS, RECOVER_MS};
use harness_terminal::board::{Act, Board, Round};
use harness_terminal::geometry::Metrics;
use harness_terminal::machines::machine_name;
use harness_terminal::moves::Outcome;
use harness_terminal::notify::{announce, Kind};
use harness_terminal::opening::Setup;
use harness_terminal::shell::Shell;
use harness_terminal::status::FLASH_MS;
use harness_terminal::tabs::{
    fleet_summary_text, session_row_label, session_tail_preview, tab_identity, Tab,
};

fn tab(kind: &str, host: &str, engine: &str, alive: bool) -> Tab {
    Tab {
        kind: kind.to_string(),
        host: host.to_string(),
        engine: engine.to_string(),
        name: None,
        title: engine.to_string(),
        live_title: None,
        pending: 0,
        retry: None,
        down_reason: None,
        age_secs: 90,
        scrolled: false,
        offset: 0,
        depth: 100,
        lines: 24,
        cols: 80,
        mode: 1,
        seen: Seen {
            rang: false,
            alive,
            pty: kind == "pty",
            history: 10,
        },
    }
}

fn setup(tabs: Vec<Tab>) -> Setup {
    let keys = (0..tabs.len()).map(|i| format!("key{i}")).collect();
    Setup {
        tabs,
        active: 0,
        keys,
        muted: Vec::new(),
        pinned: Vec::new(),
        offline: 0,
        native: false,
        status_bar: true,
        quiet_secs: 30,
        engines: vec!["codex".to_string(), "aider".to_string()],
        last_dirs: vec!["/work".to_string()],
        recent_hosts: vec!["build02".to_string()],
        port: 18473,
        find_history: Vec::new(),
        case_sensitive: false,
        whole_word: false,
        last_broadcast: String::new(),
        broadcasts: Vec::new(),
        prefix_key: "b".to_string(),
        prefix_chord: "Ctrl+b".to_string(),
        prefix_claimed: false,
        prefix_notice: "noticed".to_string(),
        keymap: Vec::new(),
        metrics: Metrics {
            width: 900,
            height: 600,
            font_px: 14,
            cell_w: 9,
            cell_h: 18,
        },
    }
}

fn fleet() -> Vec<Tab> {
    vec![
        tab("pty", "", "shell", true),
        tab("ssh", "build02", "codex", true),
        tab("tmux", "edge1", "aider", false),
        tab("ssh", "build02", "aider", true),
    ]
}

fn shell(tabs: Vec<Tab>) -> Shell {
    Shell::new(setup(tabs), 0)
}

fn said(b: &Board) -> &str {
    match &b.flash {
        Some(f) => f.text.as_str(),
        None => "",
    }
}

fn engines(b: &Board) -> Vec<&str> {
    b.tabs.iter().map(|t| t.engine.as_str()).collect()
}

fn board() -> Board {
    shell(fleet()).board
}

/// What was saved as muted and as pinned comes back, and sessions that were not reached are told.
#[test]
fn saved_tabs_come_back() {
    let mut s = setup(fleet());
    s.active = 9;
    s.muted = vec!["key1".to_string()];
    s.pinned = vec!["key2".to_string(), "key3".to_string()];
    s.offline = 1;
    let b = Shell::new(s, 5).board;
    assert_eq!(b.active, 3);
    let muted: Vec<bool> = b.slots.iter().map(|s| s.muted).collect();
    let pinned: Vec<bool> = b.slots.iter().map(|s| s.pinned).collect();
    assert_eq!(muted, vec![false, true, false, false]);
    assert_eq!(pinned, vec![false, false, true, true]);
    assert_eq!(
        said(&b),
        "1 session not reached — host down · reconnect via Ctrl+b+r or Ctrl+H r"
    );
    assert_eq!(b.quiet_after, 30_000);
}

/// Moving the active tab takes along what is kept of it; moving it back restores everything.
#[test]
fn a_moved_tab_keeps_what_is_kept_of_it() {
    let mut b = board();
    b.toggle_pin_at(0, 1);
    b.move_tab(true);
    assert_eq!(b.active, 1);
    assert_eq!(engines(&b), vec!["codex", "shell", "aider", "aider"]);
    assert!(b.slots[1].pinned && !b.slots[0].pinned);
    b.move_tab(false);
    assert_eq!(engines(&b), vec!["shell", "codex", "aider", "aider"]);
    assert!(b.slots[0].pinned && !b.slots[1].pinned);
    assert_eq!(b.active, 0);
}

/// Dragging a tab takes along what is kept of it, and the active tab stays the active one.
#[test]
fn a_dragged_tab_keeps_what_is_kept_of_it() {
    let mut b = board();
    b.toggle_mute_at(3);
    b.reorder(3, 0);
    assert_eq!(engines(&b), vec!["aider", "shell", "codex", "aider"]);
    assert_eq!(b.active, 1);
    assert!(b.slots[0].muted);
}

/// Closing another tab leaves the one that is looked at in view; a pinned one is not closed.
#[test]
fn closing_keeps_the_watched() {
    let mut b = board();
    b.set_active(2);
    b.toggle_pin_at(1, 1);
    assert!(!b.close_tab_at(1, 2));
    assert_eq!(b.tabs.len(), 4);
    assert!(b.close_tab_at(0, 2));
    assert_eq!(b.active, 1);
    assert_eq!(b.tabs[b.active].host, "edge1");
    assert!(b.todo.contains(&Act::Close(0)));
    b.drop_tabs(&vec![0, 2]);
    assert_eq!(b.tabs.len(), 1);
    assert_eq!(b.active, 0);
    assert_eq!(b.tabs[0].host, "edge1");
}

/// Flipping between two tabs twice comes back.
#[test]
fn flipping_twice_comes_back() {
    let mut b = board();
    b.set_active(2);
    b.last_window();
    assert_eq!(b.active, 0);
    b.last_window();
    assert_eq!(b.active, 2);
    b.turn(true);
    assert_eq!(b.active, 3);
    b.turn(true);
    assert_eq!(b.active, 0);
    b.turn(false);
    assert_eq!(b.active, 3);
}

/// Output in the background is announced once, until it settles.
#[test]
fn output_is_announced_once() {
    let mut b = board();
    b.pulse(0);
    b.tabs[1].seen.history = 15;
    assert_eq!(b.pulse(1), vec![false, true, false, false]);
    assert_eq!(b.notices.len(), 1);
    assert_eq!(b.notices[0].title, "codex@build02 · busy");
    assert_eq!(b.notices[0].body, "codex@build02 produced new output.");
    assert_eq!(b.slots[1].unread, 5);
    b.tabs[1].seen.history = 16;
    b.pulse(2);
    assert_eq!(b.notices.len(), 1);
    assert_eq!(b.slots[1].unread, 6);
    b.pulse(3);
    b.tabs[1].seen.history = 17;
    b.pulse(4);
    assert_eq!(b.notices.len(), 2);
    b.set_active(1);
    b.pulse(5);
    assert_eq!(b.slots[1].unread, 0);
}

/// A pane that comes back is announced as such, once, and its output with it.
#[test]
fn a_recovery_is_announced_once() {
    let mut b = board();
    b.pulse(0);
    b.tabs[2].seen.alive = true;
    b.tabs[2].seen.history = 40;
    b.pulse(1);
    assert_eq!(b.notices.len(), 1);
    assert_eq!(b.notices[0].title, "aider@edge1 · reconnected");
    assert_eq!(b.slots[2].recover_until, Some(1 + RECOVER_MS));
    b.tabs[2].seen.alive = false;
    b.tabs[2].seen.rang = true;
    b.pulse(2);
    assert_eq!(b.notices.len(), 3);
    assert_eq!(b.notices[1].title, "aider@edge1 — bell");
    assert_eq!(b.notices[2].body, "aider@edge1 disappeared.");
    assert_eq!(b.slots[2].bell_until, Some(2 + BELL_MS));
}

/// A muted tab announces nothing, and no tab does while nothing is to be disturbed.
#[test]
fn muted_tabs_are_silent() {
    let mut b = board();
    b.pulse(0);
    b.toggle_mute_at(1);
    b.tabs[1].seen.history = 15;
    b.pulse(1);
    assert!(b.notices.is_empty());
    assert_eq!(b.slots[1].unread, 0);
    b.toggle_dnd(2);
    assert_eq!(said(&b), "do-not-disturb ON");
    b.tabs[3].seen.history = 99;
    b.pulse(3);
    assert!(b.notices.is_empty());
    b.mark_all_read(4);
    assert_eq!(b.slots[3].unread, 0);
    assert_eq!(said(&b), "marked all tabs read");
}

/// Several events of one kind are told together, in the order the kinds first came.
#[test]
fn events_of_a_kind_are_told_together() {
    let tabs = fleet();
    let all = announce(&tabs, &vec![(Kind::Busy, 1), (Kind::Bell, 0), (Kind::Busy, 3)]);
    assert_eq!(all.len(), 2);
    assert_eq!(all[0].title, "2 sessions busy");
    assert_eq!(all[0].body, "New output from codex@build02, aider@build02.");
    assert_eq!(all[1].body, "Session shell rang the terminal bell.");
    assert!(announce(&tabs, &vec![(Kind::Down, 7)]).is_empty());
}

/// The jumps go to the next tab of their kind and say which, or that there is none.
#[test]
fn jumps_say_where_they_go() {
    let mut b = board();
    b.tabs[2].down_reason = Some("refused".to_string());
    b.next_down(1);
    assert_eq!(b.active, 2);
    assert_eq!(said(&b), "down — aider@edge1 (refused)");
    b.next_host(2);
    assert_eq!(b.active, 0);
    b.next_pinned(3);
    assert_eq!(said(&b), "no other pinned tab");
    b.toggle_pin_at(0, 3);
    b.next_pinned(3);
    assert_eq!((b.active, said(&b)), (0, "no other pinned tab"));
    b.toggle_pin_at(0, 3);
    b.pulse(4);
    b.next_busy(5);
    assert_eq!(said(&b), "no other busy tab");
    b.next_quiet(6);
    assert_eq!(said(&b), "no other quiet tab");
    b.next_quiet(40_000);
    assert_eq!(b.active, 1);
    assert_eq!(said(&b), "quiet — codex@build02");
}

/// A sweep closes the silent tabs, but neither a pinned one nor the one that is looked at.
#[test]
fn a_sweep_spares_the_pinned_and_the_watched() {
    let mut b = board();
    b.close_quiet_tabs(1);
    assert_eq!(said(&b), "no quiet tabs to close");
    b.pulse(1);
    b.set_active(1);
    b.toggle_mute_at(3);
    b.close_quiet_tabs(40_000);
    assert_eq!(said(&b), "closed 1 quiet tab");
    assert_eq!(engines(&b), vec!["shell", "codex", "aider"]);
    assert_eq!(b.active, 1);
}

/// Closing the marked tabs needs marks, and closes no pinned one.
#[test]
fn closing_in_bulk_needs_marks() {
    let mut b = board();
    b.close_marked(1);
    assert_eq!(said(&b), "no marked tiles to close — Space to mark");
    b.toggle_mark_at(1);
    b.toggle_pin_at(1, 2);
    b.close_marked(3);
    assert_eq!(said(&b), "nothing closed (all marked were pinned)");
    b.toggle_mark_at(1);
    b.toggle_mark_at(2);
    b.close_marked(4);
    assert_eq!(said(&b), "closed 1 session");
    assert_eq!(engines(&b), vec!["shell", "codex", "aider"]);
    assert!(b.slots.iter().all(|s| !s.mark));
}

/// Pressing the key for muting, pinning or marking twice leaves the slots as they were.
#[test]
fn toggles_undo_themselves() {
    let mut b = board();
    let was: Vec<Slot> = b.slots.clone();
    b.toggle_mute_at(1);
    b.toggle_mute_at(1);
    b.toggle_pin_at(1, 0);
    assert_eq!(said(&b), "codex PINNED 🔒");
    b.toggle_pin_at(1, 0);
    b.toggle_mark_at(1);
    b.toggle_mark_at(1);
    b.toggle_mark_at(77);
    assert_eq!(b.slots, was);
}

/// A round of reconnects asks for each pane that is down and reports how it went.
#[test]
fn reconnects_are_reported() {
    let mut b = board();
    b.reconnect_active(1);
    assert_eq!(said(&b), "shell is fine");
    b.reconnect_all_down(1);
    assert_eq!(b.todo, vec![Act::Retry(2), Act::Report(Round::Sweep)]);
    let failed = vec![Outcome {
        tab: 2,
        ok: false,
        reason: "refused".to_string(),
        kind: "tmux".to_string(),
    }];
    b.report(Round::Sweep, &failed, "", 2);
    assert_eq!(
        said(&b),
        "reconnect-all: 0 reached, 1 still down — edge1: refused"
    );
    b.report(Round::Machine, &failed, "edge1", 2);
    assert_eq!(said(&b), "edge1: 0 reconnected, 1 still down");
    b.report(Round::Row(2), &failed, "", 2);
    assert_eq!(said(&b), "reconnect failed — aider@edge1");
    b.report(Round::Active, &failed, "", 2);
    assert_eq!(said(&b), "shell still unreachable — will keep retrying");
    b.tabs[2].seen.alive = true;
    b.reconnect_all_down(3);
    assert_eq!(said(&b), "no down panes — fleet is healthy");
}

/// Interrupts go to the active session, to all that are not muted, or to the marked ones.
#[test]
fn interrupts_reach_their_sessions() {
    let mut b = board();
    b.interrupt_active(1);
    assert_eq!(b.todo, vec![Act::Interrupt(0)]);
    b.todo.clear();
    b.toggle_mute_at(0);
    b.interrupt_fleet(2);
    assert_eq!(
        b.todo,
        vec![Act::Interrupt(1), Act::Interrupt(2), Act::Interrupt(3)]
    );
    assert_eq!(said(&b), "sent Ctrl-C to 3 sessions");
    b.todo.clear();
    b.toggle_mark_at(3);
    b.interrupt_marked(3);
    assert_eq!(b.todo, vec![Act::Interrupt(3)]);
}

/// The view never leaves the scrollback, and scrolling up and down again comes back.
#[test]
fn the_view_stays_in_the_scrollback() {
    let mut b = board();
    b.scroll_active(30);
    assert_eq!(b.tabs[0].offset, 30);
    b.scroll_active(-30);
    assert_eq!(b.tabs[0].offset, 0);
    b.scroll_active(1_000_000);
    assert_eq!(b.tabs[0].offset, 100);
    b.scroll_active(i64::MIN);
    assert_eq!(b.tabs[0].offset, 0);
    b.scroll_to_top();
    assert_eq!(b.tabs[0].offset, 100);
    b.scroll_to_bottom();
    assert_eq!(b.tabs[0].offset, 0);
}

/// What the fleet is doing, as a text: machines first, then sessions.
#[test]
fn the_fleet_is_summed_up() {
    let mut tabs = fleet();
    tabs.remove(3);
    tabs[2].down_reason = Some(" refused ".to_string());
    tabs[2].pending = 7;
    tabs[1].live_title = Some("fixing".to_string());
    let lines = [
        "● local · live · shell",
        "● build02 · live · codex",
        "○ edge1 · down · aider",
        "",
        "● shell (1) · shell",
        "● codex (2)@build02 · codex · fixing",
        "○ aider (3)@edge1 · aider · ⏳7B queued · ⚠ refused",
    ];
    assert_eq!(fleet_summary_text(&tabs), lines.join("\n"));
    assert_eq!(
        session_row_label(&tabs, 1, Some(120)),
        "● codex (2)@build02 · codex · ⌛2m · fixing"
    );
    assert_eq!(
        session_row_label(&tabs, 2, None),
        "○ aider (3)@edge1 · aider (refused)"
    );
    assert_eq!(tab_identity(&tabs, 1), "codex@build02");
    assert_eq!(tab_identity(&tabs, 9), "?");
    assert_eq!(
        session_tail_preview(&vec!["  ".to_string(), " ok ".to_string()]).as_deref(),
        Some("ok")
    );
    assert_eq!(session_tail_preview(&vec![" ".to_string()]), None);
    assert_eq!(machine_name(""), "local");
}

/// A copy of the scrollback is named by its session and says where it is from.
#[test]
fn exports_are_named_and_headed() {
    let mut t = tab("ssh", "build 02.x", "co/dex", true);
    assert_eq!(t.export_name(1700), "co_dex-build_02.x-1700.log");
    t.live_title = Some("two\nlines".to_string());
    assert_eq!(
        t.export_text("now", "the text"),
        "# harness-terminal scrollback export\n# session: co/dex@build 02.x  (ssh)\n\
         # task: two lines\n# exported: now\n\nthe text"
    );
}

/// The status line says how the tunnel, the fleet and the active session are, or a message for a while.
#[test]
fn the_status_line_tells_the_state() {
    let mut b = board();
    b.set_active(1);
    b.scroll_active(25);
    b.hold(true);
    assert_eq!(
        b.status_text(true, 0),
        "  ● tunnel up  1 ⚠ down ·  build02 · codex · codex · [ssh ●] · 10 ln  ▾ 25% (Esc/b to bottom)"
    );
    b.say("hello".to_string(), 100);
    assert_eq!(b.status_text(true, 100 + FLASH_MS - 1), "  ⚑ hello");
    b.fade_flash(100 + FLASH_MS);
    assert!(b.flash.is_none());
}

/// Where every session has its own window, there is one for each, and a new session gets one.
#[test]
fn windows_follow_the_sessions() {
    let mut s = setup(fleet());
    s.native = true;
    let mut b = Shell::new(s, 0).board;
    assert_eq!(b.windows_missing(), 4);
    b.sync_hosts(4);
    assert_eq!(b.wins.len(), 4);
    assert_eq!(b.windows_missing(), 0);
    b.focus_host(2);
    assert_eq!(b.active, 2);
    b.add_tab(tab("ssh", "edge1", "codex", true), true, 9);
    assert_eq!(b.windows_missing(), 1);
    assert!(b.slots[4].pinned);
    b.sync_hosts(1);
    let n = b.wins.len();
    b.close_native_tab(0);
    assert_eq!(b.wins.len(), n - 1);
    assert_eq!(b.tabs.len(), 4);
    assert!(b.todo.contains(&Act::Close(0)));
}

/// The title of a window is what its session does, or who it is.
#[test]
fn windows_are_titled_by_their_session() {
    let mut b = board();
    assert_eq!(b.title_of(1), "codex@build02");
    b.tabs[1].live_title = Some("fixing".to_string());
    assert_eq!(b.title_of(1), "fixing — harness-terminal");
    assert_eq!(b.title_of(99), "harness-terminal");
}
