//! The rules over many sessions: machines, marks, colors, lists and what is announced.

use harness_terminal::color::Accent;
use harness_terminal::machines::{
    fleet_host_line, format_engine_mix, group_notifications, host_engine_breakdown, host_tally,
    next_host_index, session_indices_for_host,
};
use harness_terminal::paint::argb_to_rgb;
use harness_terminal::seqs::{indices_set, move_slot, swap_slot};
use harness_terminal::triage::{
    engine_accent, find_next_set, find_prev_set, first_down_session, grid_targets, grid_tile_at,
    host_color, next_trouble_index, prev_trouble_index, reanchor_active_after_batch, recall_index,
    scroll_top, should_busy_nudge, status_accent, Engine, CHROME_BUSY, CHROME_DIM, CHROME_ERR,
    CHROME_QUIET, CHROME_RECOVER,
};

/// Same-kind queued notifications (a multi-tab broadcast) coalesce into ONE batch, in order,
/// instead of one popup per tab.
#[test]
fn group_notifications_coalesces_same_kind() {
    let pending = vec![
        ("busy".to_string(), 0),
        ("busy".to_string(), 2),
        ("busy".to_string(), 5),
    ];
    let batches = group_notifications(&pending);
    assert_eq!(
        batches.len(),
        1,
        "three simltaneous busy events -> one batch"
    );
    assert_eq!(batches[0].0, "busy");
    assert_eq!(batches[0].1, vec![0, 2, 5]);
}

/// Mixed busy and bell events in one frame stay in separate batches so each kind gets its own
/// (title-accurate) popup, but same-kind events still merge across the alternation.
#[test]
fn group_notifications_splits_busy_and_bell() {
    let pending = vec![
        ("busy".to_string(), 1),
        ("bell".to_string(), 2),
        ("busy".to_string(), 3),
    ];
    let batches = group_notifications(&pending);
    assert_eq!(
        batches.len(),
        2,
        "one bucket per kind, even when interleaved"
    );
    assert_eq!(batches[0].0, "busy");
    assert_eq!(batches[0].1, vec![1, 3]);
    assert_eq!(batches[1].0, "bell");
    assert_eq!(batches[1].1, vec![2]);
}

/// A single backgrounded tab going busy stays a single-notification event (no spurious merge
/// or split).
#[test]
fn group_notifications_single_stays_single() {
    let pending = vec![("busy".to_string(), 7)];
    let batches = group_notifications(&pending);
    assert_eq!(batches.len(), 1);
    assert_eq!(batches[0], ("busy".to_string(), vec![7]));
}

/// The recover kind is its own bucket (distinct from busy/bell), so several panes reconnecting
/// in the same frame coalesce into ONE "N sessions reconnected" popup.
#[test]
fn group_notifications_keeps_recover_its_own_kind() {
    let pending = vec![
        ("busy".to_string(), 1),
        ("recover".to_string(), 2),
        ("recover".to_string(), 3),
    ];
    let batches = group_notifications(&pending);
    let recover = batches.iter().find(|(k, _)| k == "recover").unwrap();
    assert_eq!(recover.1, vec![2, 3]);
}

/// Down-edge events from several panes in one frame collapse into a single "down" batch so a
/// whole-fleet drop is one popup, not N osascript launches (same coalescing as busy/recover).
#[test]
fn group_notifications_keeps_down_its_own_kind() {
    let pending = vec![
        ("down".to_string(), 4),
        ("busy".to_string(), 1),
        ("down".to_string(), 7),
    ];
    let batches = group_notifications(&pending);
    let down = batches.iter().find(|(k, _)| k == "down").unwrap();
    assert_eq!(down.1, vec![4, 7]);
    let busy = batches.iter().find(|(k, _)| k == "busy").unwrap();
    assert_eq!(busy.1, vec![1]);
}

/// Peek lands on the first still-down remote pane, skipping live PTYs, and falls back to the
/// top of the list when the fleet is healthy.
#[test]
fn first_down_session_picks_the_down_remote_pane() {
    // Live pty, live ssh, down tunnel, live tmux -> lands on index 2.
    let kinds = ["pty", "ssh", "tunnel", "tmux"];
    let alive = [true, true, false, true];
    assert_eq!(first_down_session(&kinds, &alive), Some(2));
    // A down pty is not a remote pane — ignored, falls back to None.
    let kinds2 = ["pty", "pty"];
    let alive2 = [true, false];
    assert_eq!(first_down_session(&kinds2, &alive2), None);
    // All healthy -> none.
    let kinds3 = ["ssh", "tmux", "tunnel"];
    let alive3 = [true, true, true];
    assert_eq!(first_down_session(&kinds3, &alive3), None);
    // First down remote at index 0 wins even though a later one is also down.
    let kinds4 = ["tmux", "ssh", "tunnel"];
    let alive4 = [false, true, false];
    assert_eq!(first_down_session(&kinds4, &alive4), Some(0));
}

/// Every host gets a stable, in-table color; the same host never changes across calls, and two
/// different hosts can share a color (fine) but the mapping is deterministic.
#[test]
fn host_color_is_deterministic() {
    let a = host_color("build-host");
    assert_eq!(a, host_color("build-host"));
    let b = host_color("10.0.0.4");
    assert_eq!(b, host_color("10.0.0.4"));
    assert_ne!(a, (0, 0, 0), "colors must be visible on black");
}

/// ARGB unpacking extracts RGB in the right order, and known engines resolve to their brand
/// accent while unknown engines fall back to the neutral dim (never black).
#[test]
fn engine_accent_unpacks_argb_and_falls_back() {
    assert_eq!(argb_to_rgb(0xff_9a4dff), (0x9a, 0x4d, 0xff));
    // Aider's accent is purple-ish; it must differ from a randomly-picked unknown's fallback.
    let empty = Vec::new();
    let engines = vec![Engine {
        id: "aider".to_string(),
        label: "Aider".to_string(),
        desc: String::new(),
        color: 0xff_9a4dff,
    }];
    let cl = engine_accent("aider", &empty, &engines);
    assert_eq!(cl, (0x9a, 0x4d, 0xff));
    let unknown = engine_accent("no-such-engine", &empty, &engines);
    assert_ne!(
        unknown,
        (0, 0, 0),
        "unknown-engine fallback must still be visible"
    );
    // A `[theme.accents]` override wins over the built-in brand accent.
    let accents = vec![Accent {
        engine: "aider".to_string(),
        color: (255, 0, 0),
    }];
    assert_eq!(engine_accent("aider", &accents, &engines), (255, 0, 0));
}

/// Broadcast-history recall walks older/newer and wraps around both ends; a cold start lands on
/// the newest line for Shift+Up and the oldest for Shift+Down.
#[test]
fn recall_broadcast_wraps_and_cold_starts() {
    let n = 3;
    // Cold + Up -> newest (index 2), cold + Down -> oldest (index 0).
    assert_eq!(recall_index(n, -1, None), 2);
    assert_eq!(recall_index(n, 1, None), 0);
    // Stepping older from the newest wraps to the oldest.
    assert_eq!(recall_index(n, -1, Some(2)), 1);
    assert_eq!(recall_index(n, -1, Some(0)), 2);
    // Stepping newer from the oldest wraps to the newest.
    assert_eq!(recall_index(n, 1, Some(0)), 1);
    assert_eq!(recall_index(n, 1, Some(2)), 0);
}

/// Mouse hit-testing in the fleet grid mirrors the renderer's tile layout: it picks the tile
/// under a window pixel, and rejects header/gutter, out-of-column, clipped-row, and past-the-end
/// points — so click-to-select can't land on a neighbor or a non-existent session.
#[test]
fn grid_tile_at_matches_render_layout() {
    let (x0, y0, tw, th, cols, n, height) =
        (8usize, 30usize, 100usize, 72usize, 3usize, 8usize, 500usize);
    // Top-left of the first tile.
    assert_eq!(
        grid_tile_at(8, 30, x0, y0, tw, th, cols, n, height),
        Some(0)
    );
    // Bottom-right inside the first tile still maps to tile 0.
    assert_eq!(
        grid_tile_at(8 + 99, 30 + 71, x0, y0, tw, th, cols, n, height),
        Some(0)
    );
    // Second column (stride tw+8), same row.
    assert_eq!(
        grid_tile_at(8 + 108, 30, x0, y0, tw, th, cols, n, height),
        Some(1)
    );
    // Second row (stride th+8), first column -> index 3.
    assert_eq!(
        grid_tile_at(8, 30 + 80, x0, y0, tw, th, cols, n, height),
        Some(3)
    );
    // Right of the last column -> None.
    assert_eq!(
        grid_tile_at(8 + 3 * 108, 30, x0, y0, tw, th, cols, n, height),
        None
    );
    // Header / left gutter -> None.
    assert_eq!(grid_tile_at(4, 30, x0, y0, tw, th, cols, n, height), None);
    assert_eq!(grid_tile_at(8, 20, x0, y0, tw, th, cols, n, height), None);
    // A row whose tile bottom would exceed the window height (clipped in render) -> None.
    let _ = height; // (covered below via an explicit deep row)
    assert_eq!(
        grid_tile_at(8, 30 + 5 * 80, x0, y0, tw, th, cols, n, height),
        None
    );
    // Past the end of the session list (idx 8 with n=8) -> None.
    assert_eq!(
        grid_tile_at(8 + 2 * 108, 30 + 2 * 80, x0, y0, tw, th, cols, n, height),
        None
    );
    // Degenerate: zero columns or zero width -> None (no panic).
    assert_eq!(grid_tile_at(8, 30, x0, y0, 0, th, 0, n, height), None);
}

/// The list viewport never hides the selected row, and rides the bottom edge once the list
/// outgrows the window — so a fleet/palette/broadcast with more entries than fit on screen stays
/// fully reachable by Up/Down (regression for the 20-max fleet list swallowing later sessions).
#[test]
fn scroll_top_keeps_selection_visible_and_slides() {
    // Fits: no scroll.
    assert_eq!(scroll_top(5, 3, 20), 0);
    // Larger than the window: selection rides the bottom edge.
    assert_eq!(scroll_top(30, 0, 20), 0);
    assert_eq!(scroll_top(30, 25, 20), 6);
    assert_eq!(scroll_top(30, 29, 20), 10);
    // Never over-scrolls past the end (total == window).
    assert_eq!(scroll_top(20, 19, 20), 0);
    // Empty / total == 1.
    assert_eq!(scroll_top(0, 0, 20), 0);
    assert_eq!(scroll_top(1, 0, 20), 0);
}

/// Host tally groups by machine in first-seen order with live/total counts, so the fleet
/// summary's ``host · 2/2 live`` snapshot is correct across a multi-machine farm.
#[test]
fn host_tally_groups_by_machine() {
    let tabs = [
        ("build02", true),
        ("edge1", false),
        ("build02", true),
        ("edge1", false),
        ("build02", false),
    ];
    let tally = host_tally(&tabs);
    assert_eq!(
        tally,
        vec![("build02", 2, 3), ("edge1", 0, 2)],
        "engine@host grouping with partial-live counts"
    );
    // Empty fleet → no hosts.
    assert!(host_tally(&[]).is_empty());
}

/// Status accents follow a strict precedence so a dark pane is never mistaken for busy, and the
/// mapping stays scannable: down=red, busy=amber, quiet=blue, reconnecting=green, nothing
/// neutral. Recovering means the pane came back, so it tints even when otherwise quiet.
#[test]
fn status_accent_precedence() {
    // Down always wins over busy / quiet / recovering — a dead pane reads as dead.
    assert_eq!(status_accent(true, true, true, true), Some(CHROME_ERR));
    assert_eq!(status_accent(true, false, false, false), Some(CHROME_ERR));
    // Busy beats quiet, and recovering alone names itself.
    assert_eq!(status_accent(false, true, true, false), Some(CHROME_BUSY));
    assert_eq!(status_accent(false, true, false, false), Some(CHROME_BUSY));
    assert_eq!(status_accent(false, false, true, false), Some(CHROME_QUIET));
    assert_eq!(
        status_accent(false, false, false, true),
        Some(CHROME_RECOVER)
    );
    // Fully idle local session → neutral.
    assert_eq!(status_accent(false, false, false, false), None);
}

/// The fleet-grid `n` triage jump wraps around and prefers a down pane anywhere over a busy one,
/// so a war-room diver hops pane-to-pane through a large fleet's trouble spots.
#[test]
fn next_trouble_index_wraps_and_prioritizes_down() {
    let down = [false, true, false, false];
    let busy = [true, false, false, false];
    // Down at index 1 found even though a busy pane sits earlier in the wrap from index 3.
    assert_eq!(next_trouble_index(&down, &busy, 3), Some(1));
    // Single pane that is down: a wrap lands back on it (the only index) → itself.
    assert_eq!(next_trouble_index(&[true], &[true], 0), Some(0));
    // Down at 0, busy nowhere, start 2 → wraps to 0.
    assert_eq!(
        next_trouble_index(&[true, false, false], &[false, false, false], 2),
        Some(0)
    );
    // No down anywhere → falls back to the nearest busy.
    assert_eq!(
        next_trouble_index(&[false, false, false], &[false, true, false], 2),
        Some(1)
    );
    // Nothing eligible anywhere → None.
    assert_eq!(
        next_trouble_index(&[false, false], &[false, false], 0),
        None
    );
    // Empty fleet → None (never a panic).
    assert_eq!(next_trouble_index(&[], &[], 0), None);
}

/// The fleet-grid `N` backward jump walks opposite the forward one, still wrapping and still
/// preferring a down pane anywhere over a busy one.
#[test]
fn prev_trouble_index_walks_backward_and_prioritizes_down() {
    let down = [true, false, false, false];
    let busy = [false, false, true, false];
    // Backward from index 2 (busy) → the previous down is at 0, not the nearer busy at 2's own
    // slot, and it wraps past index 0.
    assert_eq!(prev_trouble_index(&down, &busy, 2), Some(0));
    // Backward from index 1 → the previous busy is at 2 (wrapping), no down before it.
    assert_eq!(
        prev_trouble_index(&[false, false, false], &[false, false, true], 1),
        Some(2)
    );
    // Backward from 0 → wraps to the last down at 3.
    assert_eq!(
        prev_trouble_index(
            &[false, false, false, true],
            &[false, false, false, false],
            0
        ),
        Some(3)
    );
    // Nothing eligible anywhere → None.
    assert_eq!(
        prev_trouble_index(&[false, false], &[false, false], 1),
        None
    );
    // Empty fleet → None (never a panic).
    assert_eq!(prev_trouble_index(&[], &[], 0), None);
}

/// `prefix+H` pages by host: from a three-host fleet it steps to the first tab of the next
/// distinct host (in first-occurrence order), not the adjacent pane.
#[test]
fn next_host_pages_by_distinct_host_in_first_occurrence_order() {
    // Tab order: a0 a1 (host-a), b0 (host-b), c0 c1 (host-c).
    let hosts = ["host-a", "host-a", "host-b", "host-c", "host-c"];
    // Active on host-a -> next host in first-occurrence order is host-b, first tab = index 2.
    assert_eq!(next_host_index(&hosts, 0), Some(2));
    // Active on index 1 (still host-a) -> same next host.
    assert_eq!(next_host_index(&hosts, 1), Some(2));
    // Active on host-b -> next is host-c, first tab = index 3.
    assert_eq!(next_host_index(&hosts, 2), Some(3));
}

#[test]
fn next_host_wraps_to_first_distinct_host() {
    let hosts = ["host-a", "host-b", "host-c"];
    // Active on the LAST distinct host (host-c) -> wrap to the first host, its first tab.
    assert_eq!(next_host_index(&hosts, 2), Some(0));
}

#[test]
fn next_host_from_later_tab_still_picks_next_not_adjacent() {
    let hosts = ["host-a", "host-b", "host-b", "host-c"];
    // Active on host-b's second tab (index 2) -> next distinct host is host-c (index 3),
    // NOT host-b's adjacent behavior blocking on same-host tabs.
    assert_eq!(next_host_index(&hosts, 2), Some(3));
}

#[test]
fn next_host_is_none_for_single_or_empty_fleet() {
    assert_eq!(next_host_index(&[], 0), None);
    assert_eq!(next_host_index(&["only-host", "only-host"], 0), None);
}

/// Re-anchoring focus after a batch close: the active tab is never itself closed, but a closed
/// tab BELOW it shifts focus down one slot per such close; a closed tab above it does not move
/// it. Exhaustive over all active positions and close subsets.
#[test]
fn reanchor_active_after_batch_is_shifted_only_by_below_closes() {
    let n = 5usize;
    for active in 0..n {
        // Enumerate every non-empty subset of the other 4 tabs being closed.
        let others: Vec<usize> = (0..n).filter(|&i| i != active).collect();
        for mask in 1usize..(1 << others.len()) {
            let closed: Vec<usize> = others
                .iter()
                .enumerate()
                .filter(|(bit, _)| mask & (1 << bit) != 0)
                .map(|(_, &i)| i)
                .collect();
            let expected =
                active.saturating_sub(closed.iter().filter(|&&i| i < active).count());
            assert_eq!(
                reanchor_active_after_batch(active, &closed),
                expected,
                "active={active} closed={closed:?}"
            );
        }
    }
    // Sanity: empty close set leaves the active index untouched.
    assert_eq!(reanchor_active_after_batch(3, &[]), 3);
}

/// `prefix+H` next-host paging: jumps to the first tab of the next DISTINCT host (cycling),
/// preferring a tab after the current one and wrapping to the front only when none exists.
#[test]
fn next_host_index_pages_distinct_hosts_and_wraps() {
    // Distinct hosts, first tab after active.
    assert_eq!(next_host_index(&["a", "b", "c"], 0), Some(1));
    // Active on the last distinct host wraps back to the first host.
    assert_eq!(next_host_index(&["a", "b", "c"], 2), Some(0));
    // Interleaved / repeated hosts: still pages by distinct host, and skips ahead on repeats.
    // host order a,b,b,c; from active a (idx0) -> first tab of b is index 1.
    assert_eq!(next_host_index(&["a", "b", "b", "c"], 0), Some(1));
    // From the second b (idx2) -> c (idx3).
    assert_eq!(next_host_index(&["a", "b", "b", "c"], 2), Some(3));
    // From c (last) wraps to the first tab of a.
    assert_eq!(next_host_index(&["a", "b", "b", "c"], 3), Some(0));
    // One distinct host (even if repeated) has nothing to page to.
    assert_eq!(next_host_index(&["x", "x", "x"], 0), None);
    // Empty tab set has nowhere to go.
    assert_eq!(next_host_index(&[], 0), None);
}

/// A tab move (swap) must keep every tab-parallel vector aligned with its session identity: if
/// slots a/b hold per-session flags (pin, mute, busy, badge...), swapping tabs a/b has to swap
/// those flags with them so they attach to the same session, not the same slot. This is the
/// regression that left pin/mute/busy/badges on the wrong session after prefix-move.
#[test]
fn moving_a_tab_keeps_parallel_state_aligned_with_the_session() {
    // Three parallel vectors, each indexed by slot, whose VALUES are the session identity that
    // was originally at that slot (pin, mute, quiet, badge flags all tag a session).
    // Column 0 = session 0, column 1 = session 1, column 2 = session 2.
    let mut pinned: Vec<usize> = vec![0, 1, 2];
    let mut muted: Vec<usize> = vec![0, 1, 2];
    let mut was_down: Vec<bool> = vec![false, true, false];

    // Move (swap) slot 0 with slot 1 — like `move_tab(1)` on the active tab.
    swap_slot(&mut pinned, 0, 1);
    swap_slot(&mut muted, 0, 1);
    swap_slot(&mut was_down, 0, 1);

    // Whichever slot session 1 (the one originally muted/down at slot 1) lands in must keep its
    // flags: session 1 is muted and down; session 0 is pinned; session 2 is untouched.
    assert_eq!(
        pinned,
        vec![1, 0, 2],
        "pinned flag must follow session 1 to its new slot"
    );
    assert_eq!(muted, vec![1, 0, 2], "mute flag must follow session 1");
    assert_eq!(
        was_down,
        vec![true, false, false],
        "busy/down flag must follow session 1"
    );
    // All three stay aligned slot-for-slot (no flag slid onto another session).
    for i in 0..3 {
        assert_eq!(
            pinned[i] == 1,
            muted[i] == 1,
            "alignment broken at slot {i}"
        );
    }
}

/// Fleet-grid bulk targets: marks win when any are set; otherwise (for non-destructive
/// reconnect/interrupt) the fallback mask applies; close (None fallback) targets nothing on an
/// empty mark set so a stray `X` can never nuke the fleet.
#[test]
fn grid_targets_resolves_marks_then_fallback() {
    let marks = [false, true, false, true, false];
    let fallback = [true, true, true, false, false];
    // Marks win over any fallback.
    assert_eq!(grid_targets(&marks, Some(&fallback)), vec![1, 3]);
    // No marks -> fallback mask applies.
    assert_eq!(
        grid_targets(&[false, false, false, false, false], Some(&fallback)),
        vec![0, 1, 2]
    );
    // No marks + no fallback (close) -> nothing.
    assert_eq!(
        grid_targets(&[false, false, false, false, false], None),
        Vec::<usize>::new()
    );
    // Length mismatches are safe: marks index beyond fallback's shorter length are still taken.
    assert_eq!(
        grid_targets(&[true, true, true], Some(&[false, false])),
        vec![0, 1, 2]
    );
}

/// The busy-nudge coalescing rule: nudge only when there is fresh output AND the tab has not
/// already been notified AND it is not still inside its recovery window (it just got a
/// `recover` toast for the same reconnect). Guards the one-notification-per-reconnect invariant.
#[test]
fn busy_nudge_coalesces_with_recovery() {
    // Fresh output, never notified, not recovering -> nudge.
    assert!(should_busy_nudge(true, false, false));
    // Already notified this settle-window -> no duplicate nudge.
    assert!(!should_busy_nudge(true, true, false));
    // Fresh output but still inside the recovery window -> suppressed (the recover toast covers it).
    assert!(!should_busy_nudge(true, false, true));
    // No fresh output -> nothing regardless.
    assert!(!should_busy_nudge(false, false, false));
    // Already notified AND recovering -> definitely nothing.
    assert!(!should_busy_nudge(true, true, true));
}

/// A drag-reorder (remove/insert) must apply the same relocation to every parallel vector, so a
/// session dragged from `from` to `to` takes its flags along and neighbors shift consistently.
#[test]
fn drag_reorder_keeps_parallel_state_aligned_with_the_session() {
    // Parallel per-slot flags tagged by original session identity.
    let mut pinned: Vec<usize> = (0..4).collect();
    let mut muted: Vec<usize> = (0..4).collect();
    let mut busy: Vec<bool> = vec![false, true, false, true];

    // Drag session at slot 0 to final slot 2 (same remove/insert as `move_tab_from_to(0, 2)`).
    move_slot(&mut pinned, 0, 2);
    move_slot(&mut muted, 0, 2);
    move_slot(&mut busy, 0, 2);

    // Session 0 moved to index 2; sessions 1,2 shifted left; session 3 stays at the end.
    assert_eq!(pinned, vec![1, 2, 0, 3]);
    assert_eq!(muted, vec![1, 2, 0, 3]);
    // Session 1 (busy at old slot 1) is now at index 0; session 3 (busy) stays at index 3.
    assert_eq!(busy, vec![true, false, false, true]);
    // Alignment: identical pinned/muted patterns per column.
    assert_eq!(pinned, muted);

    // Out-of-range relocations are safe no-ops (never panic on stale lengths).
    let mut v = (0..3).collect::<Vec<_>>();
    move_slot(&mut v, 9, 0); // from out of range -> untouched
    assert_eq!(v, vec![0, 1, 2]);
    let mut u = (0..3).collect::<Vec<_>>();
    move_slot(&mut u, 1, 99); // to beyond length -> appends at the end
    assert_eq!(u, vec![0, 2, 1]);
}

/// Per-host aggregation keeps alive/total AND the agent mix split by machine, in first-seen
/// host and engine order, with an empty host normalized to `local` — the data behind the
/// host-overview rows (prefix+.).
#[test]
fn host_engine_breakdown_groups_by_machine_with_agent_mix() {
    let tabs = [
        ("", true, "aider"),
        ("build02", true, "aider"),
        ("build02", false, "codex"),
        ("build02", true, "aider"),
        ("edge1", true, "codex"),
    ];
    let out = host_engine_breakdown(&tabs);
    // First-seen host order, local empty host normalized.
    assert_eq!(out.len(), 3);
    // local: 1 alive / 1 session, one aider.
    assert_eq!(out[0], ("local".into(), 1, 1, vec![("aider".into(), 1)]));
    // build02: 2 alive / 3 sessions, aider×2 + codex×1.
    assert_eq!(out[1].0, "build02");
    assert_eq!((out[1].1, out[1].2), (2, 3));
    assert_eq!(
        out[1].3,
        vec![("aider".to_string(), 2), ("codex".to_string(), 1)]
    );
    // edge1: 1/1, one codex.
    assert_eq!(out[2], ("edge1".into(), 1, 1, vec![("codex".into(), 1)]));
    // Empty iter yields nothing.
    assert!(host_engine_breakdown(&[]).is_empty());
}

/// The hosted mix renders compactly: a lone agent is just its name; repeats fold to a ×count.
#[test]
fn format_engine_mix_is_compact() {
    assert_eq!(format_engine_mix(&[("aider".into(), 1)]), "aider");
    assert_eq!(format_engine_mix(&[]), "");
    assert_eq!(
        format_engine_mix(&[("aider".into(), 2), ("codex".into(), 1)]),
        "aider\u{00d7}2, codex"
    );
    assert_eq!(format_engine_mix(&[("codex".into(), 3)]), "codex\u{00d7}3");
}

/// The copied fleet summary's host line carries the same status + agent mix as the on-screen
/// host overview, ready to paste into a report, with a local empty host normalized.
#[test]
fn fleet_host_line_matches_host_overview_rows() {
    // Fully alive host with a mixed fleet.
    assert_eq!(
        fleet_host_line(
            "build02",
            2,
            2,
            &[("aider".into(), 2), ("codex".into(), 1)]
        ),
        "● build02 · live · aider\u{00d7}2, codex"
    );
    // Partly down host.
    assert_eq!(
        fleet_host_line("edge1", 1, 3, &[("codex".into(), 2)]),
        "◐ edge1 · 1/3 live · codex\u{00d7}2"
    );
    // Fully down host: dimmed-down marker, no live fraction.
    assert_eq!(
        fleet_host_line("edge1", 0, 2, &[("aider".into(), 1)]),
        "○ edge1 · down · aider"
    );
    // Empty host normalized to "local".
    assert_eq!(
        fleet_host_line("", 1, 1, &[("aider".into(), 1)]),
        "● local · live · aider"
    );
}

/// The host-overview drill-in must list exactly the sessions on the selected host, in tab order,
/// with the local/empty host normalized — the data the `→` sub-view navigates.
#[test]
fn session_indices_for_host_lists_that_hosts_sessions_in_tab_order() {
    let tabs = [
        (0, ""), // local aider
        (1, "build02"),
        (2, "build02"),
        (3, ""), // local codex
        (4, "edge1"),
    ];
    // Empty host maps to "local".
    assert_eq!(
        session_indices_for_host(&tabs, "local"),
        vec![0, 3]
    );
    // A specific remote host, in tab order.
    assert_eq!(
        session_indices_for_host(&tabs, "build02"),
        vec![1, 2]
    );
    assert_eq!(session_indices_for_host(&tabs, "edge1"), vec![4]);
    // A host with no sessions is empty.
    assert!(session_indices_for_host(&tabs, "nope").is_empty());
    assert!(session_indices_for_host(&[], "local").is_empty());
}

/// Every element type the tab-parallel vectors use (bool, usize, u64, Instant, Option<Instant>)
/// must survive the swap/remove-insert relocation with its session, not drift to another slot.
/// Guards the move/drag path against a newly-routed vector silently misaligning.
#[test]
fn parallel_swap_and_reorder_keep_every_element_type_aligned() {
    let t0 = std::time::Instant::now();
    let t1 = t0 + std::time::Duration::from_millis(1);
    let t2 = t0 + std::time::Duration::from_millis(2);
    // All "vectors" share a session identity via their slot; values tag the original session.
    let mut muted: Vec<bool> = vec![false, true, false];
    let mut detect_len: Vec<usize> = vec![0, 1, 2];
    let mut content_sig: Vec<u64> = vec![10, 11, 12];
    let mut last_output: Vec<std::time::Instant> = vec![t0, t1, t2];
    let mut recover_until: Vec<Option<std::time::Instant>> = vec![None, Some(t1), None];

    // Swap slots 0 and 1 (like a prefix move of the active tab).
    swap_slot(&mut muted, 0, 1);
    swap_slot(&mut detect_len, 0, 1);
    swap_slot(&mut content_sig, 0, 1);
    swap_slot(&mut last_output, 0, 1);
    swap_slot(&mut recover_until, 0, 1);
    // Session 1 (originally muted, sig 11, t1) moved to slot 0 with all its flags.
    assert_eq!(muted, vec![true, false, false]);
    assert_eq!(detect_len, vec![1, 0, 2]);
    assert_eq!(content_sig, vec![11, 10, 12]);
    assert_eq!(last_output, vec![t1, t0, t2]);
    assert_eq!(recover_until, vec![Some(t1), None, None]);

    // Reorder (remove slot 0 -> insert at 2) like a drag; all stay aligned.
    move_slot(&mut muted, 0, 2);
    move_slot(&mut detect_len, 0, 2);
    move_slot(&mut content_sig, 0, 2);
    move_slot(&mut last_output, 0, 2);
    move_slot(&mut recover_until, 0, 2);
    assert_eq!(muted, vec![false, false, true]);
    assert_eq!(detect_len, vec![0, 2, 1]);
    assert_eq!(content_sig, vec![10, 12, 11]);
    assert_eq!(last_output, vec![t0, t2, t1]);
    assert_eq!(recover_until, vec![None, None, Some(t1)]);
}

#[test]
fn set_flags_are_listed_in_order() {
    assert_eq!(indices_set(&[true, false, true]), vec![0, 2]);
    assert_eq!(indices_set(&[]), Vec::<usize>::new());
}

/// Swapping or moving there and back changes nothing.
#[test]
fn moving_back_restores() {
    let mut v = vec![1, 2, 3, 4];
    swap_slot(&mut v, 0, 3);
    swap_slot(&mut v, 0, 3);
    assert_eq!(v, vec![1, 2, 3, 4]);
    move_slot(&mut v, 0, 2);
    assert_eq!(v, vec![2, 3, 1, 4]);
    move_slot(&mut v, 2, 0);
    assert_eq!(v, vec![1, 2, 3, 4]);
    swap_slot(&mut v, 1, 9);
    assert_eq!(v, vec![1, 2, 3, 4]);
}

/// The search for a set flag goes round, starting behind the place it starts at.
#[test]
fn searches_for_set_flags_go_round() {
    let f = [true, false, true, false];
    assert_eq!(find_next_set(&f, 0), Some(2));
    assert_eq!(find_next_set(&f, 2), Some(0));
    assert_eq!(find_prev_set(&f, 0), Some(2));
    assert_eq!(find_prev_set(&f, 3), Some(2));
    assert_eq!(find_next_set(&[false, false], 1), None);
    assert_eq!(find_prev_set(&[true], 0), Some(0));
}

/// Whatever machine it is, its color can be seen on black.
#[test]
fn machine_colors_are_visible() {
    for h in ["", "local", "a", "build02", "10.0.0.4", "ä"] {
        let c = host_color(h);
        assert!(u32::from(c.0) + u32::from(c.1) + u32::from(c.2) > 100, "{h}: {c:?}");
    }
}

/// An engine that nothing is known of is dim; one without a color of its own takes the table's.
#[test]
fn unknown_engines_are_dim() {
    assert_eq!(engine_accent("x", &Vec::new(), &Vec::new()), CHROME_DIM);
}

/// The selected row is among the rows shown, and the list is never scrolled past its end.
#[test]
fn the_selection_stays_visible() {
    for total in 0..30usize {
        for sel in 0..total {
            let top = scroll_top(total, sel, 7);
            assert!(top <= sel && sel < top + 7);
            assert!(top + 7 <= total || top == 0);
        }
    }
}

/// Paging by machine lands on another machine, wherever there is one.
#[test]
fn paging_lands_on_another_machine() {
    let hosts = ["a", "b", "a", "c", "b"];
    for i in 0..hosts.len() {
        let j = next_host_index(&hosts, i).expect("there are three");
        assert_ne!(hosts[i], hosts[j]);
    }
}

/// The gap behind a tile belongs to no tile, to the right as well as below.
#[test]
fn gaps_between_tiles_are_no_tile() {
    for x in [108, 112, 115] {
        assert_eq!(grid_tile_at(x, 30, 8, 30, 100, 72, 3, 8, 500), None);
    }
    assert_eq!(grid_tile_at(107, 30, 8, 30, 100, 72, 3, 8, 500), Some(0));
    assert_eq!(grid_tile_at(116, 30, 8, 30, 100, 72, 3, 8, 500), Some(1));
    for y in [102, 106, 109] {
        assert_eq!(grid_tile_at(8, y, 8, 30, 100, 72, 3, 8, 500), None);
    }
    assert_eq!(grid_tile_at(8, 110, 8, 30, 100, 72, 3, 8, 500), Some(3));
}

/// Only as many sessions count as there are flags for those that are down.
#[test]
fn spare_busy_flags_do_not_count() {
    assert_eq!(next_trouble_index(&[false, false], &[false, false, true], 0), None);
    assert_eq!(next_trouble_index(&[false, false], &[false, true, true], 0), Some(1));
    assert_eq!(next_trouble_index(&[false, true], &[], 0), Some(1));
    assert_eq!(prev_trouble_index(&[false, false], &[false, false, true], 0), None);
    assert_eq!(prev_trouble_index(&[false, false], &[true, false, true], 1), Some(0));
    assert_eq!(prev_trouble_index(&[false, true], &[], 0), Some(1));
}

/// The machines share out the tabs: each tab is in the list of one of them, and only of one.
#[test]
fn machines_share_out_tabs() {
    let rows = [
        ("", true, "codex"),
        ("build02", true, "aider"),
        ("local", false, "codex"),
        ("edge1", true, "codex"),
        ("build02", false, "codex"),
    ];
    let pairs: Vec<(usize, &str)> = rows.iter().enumerate().map(|(i, r)| (i, r.0)).collect();
    let hosts = host_engine_breakdown(&rows);
    let mut seen = vec![0; rows.len()];
    for (h, _, total, _) in &hosts {
        let list = session_indices_for_host(&pairs, h);
        assert_eq!(list.len(), *total);
        for k in 1..list.len() {
            assert!(list[k - 1] < list[k]);
        }
        for i in list {
            seen[i] += 1;
        }
    }
    assert_eq!(seen, vec![1; rows.len()]);
    assert!(session_indices_for_host(&pairs, "nowhere").is_empty());
    assert!(session_indices_for_host(&pairs, "").is_empty());
}

/// A step back goes where a step forward would go with the sessions in the opposite order.
#[test]
fn stepping_back_mirrors_stepping_forward() {
    let n = 5;
    for bits in 0..(1usize << (2 * n)) {
        let down: Vec<bool> = (0..n).map(|i| bits >> i & 1 == 1).collect();
        let busy: Vec<bool> = (0..n).map(|i| bits >> (n + i) & 1 == 1).collect();
        let (mut d, mut b) = (down.clone(), busy.clone());
        d.reverse();
        b.reverse();
        for start in 0..n {
            let there = next_trouble_index(&d, &b, n - 1 - start).map(|i| n - 1 - i);
            assert_eq!(prev_trouble_index(&down, &busy, start), there);
        }
    }
}
