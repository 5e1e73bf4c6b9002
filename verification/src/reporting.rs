//! Laws of what is reported: to the programs in the sessions, of the reconnects, and by the
//! overlays and the bars.

use vstd::prelude::*;
use vstd::utf8::{encode_utf8, is_ascii_chars, is_ascii_chars_encode_utf8};

use crate::board::{BoardView, FlashView, Round};
use crate::color::Colors;
use crate::details::info_panel;
use crate::finding::HuntView;
use crate::fonts::italic_name;
use crate::frame::Scene;
use crate::geometry::Metrics;
use crate::grid::{marks_of, row_spans, Find, Grid, Selected, UrlSpan};
use crate::keys::{cursor_report, mouse_report};
use crate::machines::{
    agents_on, host_line, host_mark, live_hosts_of, live_on, mix_entry, mix_said, mix_text,
    occurrences, row_tells, tabs_of, AgentTab,
};
use crate::menu::widest;
use crate::moves::{failures, reached, OutcomeView};
use crate::paint::{alpha_of, channels, dimmed, law_channels_of_packed, Bitmap, Image, Pixel, Rgb};
use crate::prompts::engine_mark;
use crate::rosters::how_many;
use crate::seqs::{firsts, listed};
use crate::shell::{Overlay, ShellView};
use crate::strokes::{panel, row_strokes, slot_y, RowView, StrokeView};
use crate::tabs::{agent_tabs, hosts_told, summary_lines, TabView};
use crate::telling::law_alive_on_a_machine;
use crate::text::{dec, law_decimal_tells_the_number, lowercased, trimmed};
use crate::words::{byte_of, joined, reconnect_said};

verus! {

/// The bytes of a text in ASCII.
pub open spec fn bytes_of(s: Seq<char>) -> Seq<u8> {
    s.map_values(|c: char| c as u8)
}

proof fn lemma_bytes(s: Seq<char>)
    requires
        is_ascii_chars(s),
    ensures
        encode_utf8(s) == bytes_of(s),
{
    is_ascii_chars_encode_utf8(s);
    assert(encode_utf8(s) =~= bytes_of(s));
}

proof fn lemma_digits_are_ascii(n: nat)
    ensures
        is_ascii_chars(dec(n)),
{
    law_decimal_tells_the_number(n);
}

/// A program is told of the mouse by an escape, a bracket, a less-than sign, then the code, the
/// column and the row in decimal with semicolons between them, and a small `m` for a release or a
/// large one for anything else.
pub proof fn law_mouse_report(cb: nat, col: nat, row: nat, release: bool)
    ensures
        mouse_report(cb, col, row, release) == seq![0x1bu8, 0x5b, 0x3c] + bytes_of(dec(cb)) + seq![
            0x3bu8,
        ] + bytes_of(dec(col)) + seq![0x3bu8] + bytes_of(dec(row)) + seq![
            if release {
                0x6du8
            } else {
                0x4du8
            },
        ],
{
    reveal_strlit("\u{1b}[<");
    reveal_strlit(";");
    reveal_strlit("m");
    reveal_strlit("M");
    lemma_digits_are_ascii(cb);
    lemma_digits_are_ascii(col);
    lemma_digits_are_ascii(row);
    let end = if release {
        "m"@
    } else {
        "M"@
    };
    let s = "\u{1b}[<"@ + dec(cb) + ";"@ + dec(col) + ";"@ + dec(row) + end;
    assert("\u{1b}[<"@ =~= seq!['\u{1b}', '[', '<']);
    assert(";"@ =~= seq![';']);
    assert("m"@ =~= seq!['m'] && "M"@ =~= seq!['M']);
    assert(is_ascii_chars(s));
    lemma_bytes(s);
    assert(bytes_of(s) =~= seq![0x1bu8, 0x5b, 0x3c] + bytes_of(dec(cb)) + seq![0x3bu8] + bytes_of(
        dec(col),
    ) + seq![0x3bu8] + bytes_of(dec(row)) + seq![
        if release {
            0x6du8
        } else {
            0x4du8
        },
    ]);
}

/// A line editor is told where to put its cursor by an escape, a bracket, the row and the column
/// with a semicolon between them, and an `R`.
pub proof fn law_cursor_report(row: nat, col: nat)
    ensures
        cursor_report(row, col) == seq![0x1bu8, 0x5b] + bytes_of(dec(row)) + seq![0x3bu8] + bytes_of(
            dec(col),
        ) + seq![0x52u8],
{
    reveal_strlit("\u{1b}[");
    reveal_strlit(";");
    reveal_strlit("R");
    lemma_digits_are_ascii(row);
    lemma_digits_are_ascii(col);
    let s = "\u{1b}["@ + dec(row) + ";"@ + dec(col) + "R"@;
    assert("\u{1b}["@ =~= seq!['\u{1b}', '[']);
    assert(";"@ =~= seq![';']);
    assert("R"@ =~= seq!['R']);
    assert(is_ascii_chars(s));
    lemma_bytes(s);
    assert(bytes_of(s) =~= seq![0x1bu8, 0x5b] + bytes_of(dec(row)) + seq![0x3bu8] + bytes_of(
        dec(col),
    ) + seq![0x52u8]);
}

/// In a line in ASCII a character starts at the byte of its own number, and what lies behind the
/// line at its end.
pub proof fn law_bytes_of_columns(line: Seq<char>, col: int)
    requires
        is_ascii_chars(line),
        0 <= col,
    ensures
        byte_of(line, col) == (if col < line.len() {
            col
        } else {
            line.len() as int
        }),
{
    is_ascii_chars_encode_utf8(line);
    if col < line.len() {
        assert(is_ascii_chars(line.take(col)));
        is_ascii_chars_encode_utf8(line.take(col));
    }
}

/// Every pane that is still down is told of, with its machine and the reason that is known; the
/// others are only counted.
pub proof fn law_failures(tabs: Seq<TabView>, v: Seq<OutcomeView>, o: OutcomeView)
    requires
        o.tab < tabs.len(),
        tabs[o.tab as int].host.len() > 0,
    ensures
        o.ok ==> failures(tabs, v.push(o)) == failures(tabs, v) && reached(v.push(o)) == reached(v) + 1,
        !o.ok ==> reached(v.push(o)) == reached(v),
        !o.ok && o.reason.len() > 0 ==> failures(tabs, v.push(o)) == failures(tabs, v).push(
            tabs[o.tab as int].host + ": "@ + o.reason,
        ),
        !o.ok && o.reason.len() == 0 ==> failures(tabs, v.push(o)) == failures(tabs, v).push(
            tabs[o.tab as int].host + ": "@ + o.kind,
        ),
        failures(tabs, Seq::empty()).len() == 0,
{
    assert(v.push(o).drop_last() =~= v);
}

/// What is said after a round of reconnects: of the active session whether it is back, of one from
/// a list whether it comes back, of a machine and of the fleet how many did and how many did not.
pub proof fn law_rounds(b: BoardView, v: Seq<OutcomeView>, host: Seq<char>, i: usize, now: u64)
    requires
        b.active < b.tabs.len(),
    ensures
        ({
            let said = |r: Round, t: Seq<char>|
                b.reported(r, v, host, now).flash == Some(FlashView { text: t, at: now });
            let engine = b.tabs[b.active as int].engine;
            &&& reached(v) > 0 ==> said(Round::Active, engine + " reconnected"@)
            &&& reached(v) == 0 ==> said(
                Round::Active,
                engine + " still unreachable — will keep retrying"@,
            )
            &&& reached(v) > 0 && i < b.tabs.len() ==> said(
                Round::Row(i),
                "reconnecting — "@ + b.tabs[i as int].identity(),
            )
            &&& reached(v) == 0 && i < b.tabs.len() ==> said(
                Round::Row(i),
                "reconnect failed — "@ + b.tabs[i as int].identity(),
            )
            &&& v.len() <= reached(v) ==> said(
                Round::Machine,
                host + ": "@ + dec(reached(v)) + " reconnected"@,
            )
            &&& v.len() > reached(v) ==> said(
                Round::Machine,
                host + ": "@ + dec(reached(v)) + " reconnected"@ + ", "@ + dec(
                    (v.len() - reached(v)) as nat,
                ) + " still down"@,
            )
        }),
        b.reported(Round::Sweep, v, host, now).tabs == b.tabs,
        b.reported(Round::Sweep, v, host, now).todo == b.todo,
{
}

/// A reconnect of the whole fleet tells how many panes were reached; and how many were not, and
/// where, just where there are any.
pub proof fn law_reconnect_text(ok: nat, downs: Seq<Seq<char>>)
    ensures
        downs.len() == 0 ==> reconnect_said(ok, downs) == "reconnect-all: "@ + dec(ok)
            + " reached"@,
        downs.len() > 0 && joined(downs, "; "@).len() <= 48 ==> reconnect_said(ok, downs)
            == "reconnect-all: "@ + dec(ok) + " reached"@ + ", "@ + dec(downs.len())
            + " still down — "@ + joined(downs, "; "@),
{
}

/// A search over all sessions finds nothing where nothing is asked for, and keeps the selection
/// among what it finds.
pub proof fn law_hunting(h: HuntView, grids: Seq<Grid>)
    requires
        h.query.len() == 0,
    ensures
        h.hunted(grids).matches.len() == 0,
        h.hunted(grids).query == h.query,
{
    assert(is_ascii_chars(h.query));
    assert(lowercased(h.query).len() == 0);
}

/// The italic face of a font goes by the font's name with a word behind it, in the same directory
/// and with the same ending.
pub proof fn law_italic_names(dir: Seq<char>, stem: Seq<char>, end: Seq<char>)
    ensures
        italic_name(dir, stem, end, true) == dir + "/"@ + stem + "-Italic"@ + end,
        italic_name(dir, stem, end, false) == dir + "/"@ + stem + "Italic"@ + end,
{
}

/// A window is called by the title that the program in it set, else by the session's name, else by
/// its agent and its machine.
pub proof fn law_window_titles(t: TabView)
    ensures
        t.live_title matches Some(l) ==> t.window_title(true) == l + " — harness-terminal"@
            && t.window_title(false) == l + " — harness-terminal"@,
        t.live_title is None && t.name is Some ==> t.window_title(false) == t.name->0
            && t.window_title(true) == t.name->0 + " — harness-terminal"@,
        t.live_title is None && t.name is None ==> t.window_title(false) == t.engine + "@"@
            + t.host,
{
}

/// Of the agents of a machine each is named once; one that runs alone by its name, and several of a
/// kind with how many there are.
pub proof fn law_agents_are_counted(a: Seq<char>, n: nat)
    requires
        n > 0,
    ensures
        ({
            let s = Seq::new(n, |i: int| a);
            &&& n == 1 ==> mix_said(s) == a
            &&& n > 1 ==> mix_said(s) == a + "×"@ + dec(n)
        }),
{
    let s = Seq::new(n, |i: int| a);
    lemma_one_kind(a, n);
    let f = firsts(s);
    let entries = f.map_values(
        |e: Seq<char>|
            if occurrences(s, e) == 1 {
                e
            } else {
                e + "×"@ + dec(occurrences(s, e))
            },
    );
    assert(f[0] == a);
    assert(entries.len() == 1);
    assert(entries[0] == if n == 1 {
        a
    } else {
        a + "×"@ + dec(n)
    });
}

proof fn lemma_one_kind(a: Seq<char>, n: nat)
    requires
        n > 0,
    ensures
        firsts(Seq::new(n, |i: int| a)) == seq![a],
        occurrences(Seq::new(n, |i: int| a), a) == n,
    decreases n,
{
    let s = Seq::new(n, |i: int| a);
    let front = s.drop_last();
    assert(s.last() == a);
    if n == 1 {
        assert(front =~= Seq::<Seq<char>>::empty());
        assert(firsts(front).len() == 0);
        assert(!listed(firsts(front), a));
        assert(firsts(s) =~= seq![a]);
        assert(occurrences(front, a) == 0);
    } else {
        assert(front =~= Seq::new((n - 1) as nat, |i: int| a));
        lemma_one_kind(a, (n - 1) as nat);
        assert(firsts(front)[0] == a);
        assert(listed(firsts(front), a));
    }
}

/// Putting a pixel changes that one, and no other.
pub proof fn law_put(img: Image, x: int, y: int, p: Pixel, i: int, j: int)
    requires
        img.has(i, j),
    ensures
        i == x && j == y ==> img.put(x, y, p).at(i, j) == p,
        !(i == x && j == y) ==> img.put(x, y, p).at(i, j) == img.at(i, j),
{
}

/// Darkening sends each channel of a color through the levels, and leaves the alpha.
pub proof fn law_dimming(p: Pixel, levels: Seq<u8>)
    requires
        levels.len() == 256,
    ensures
        channels(dimmed(p, levels)) == (
            levels[channels(p).0 as int],
            levels[channels(p).1 as int],
            levels[channels(p).2 as int],
        ),
        alpha_of(dimmed(p, levels)) == alpha_of(p),
{
    let c = channels(p);
    law_channels_of_packed(
        alpha_of(p),
        levels[c.0 as int],
        levels[c.1 as int],
        levels[c.2 as int],
    );
}

/// A palette made of core colors and ANSI colors has each in its place.
pub proof fn law_palettes(c: Colors, core: [Rgb; 5], ansi: [Rgb; 16], i: int)
    requires
        c.made_of(core, ansi),
        0 <= i < 16,
    ensures
        c.fg == core@[0],
        c.bg == core@[1],
        c.selection == core@[2],
        c.cursor == core@[3],
        c.copy_cursor == core@[4],
        c.ansi@[i] == ansi@[i],
        c.accents@.len() == 0,
{
}

/// What is marked in the grid is what was given: the match in focus, all matches, the selection,
/// the cursor of copy mode, and the links of each row.
pub proof fn law_marks(
    find: Option<Find>,
    matches: Seq<Find>,
    sel: Option<Selected>,
    copy: Option<(i32, usize)>,
    links: Seq<Vec<Option<UrlSpan>>>,
    row: int,
)
    requires
        0 <= row < links.len(),
    ensures
        ({
            let k = marks_of(find, matches, sel, copy, links);
            &&& k.find == find && k.matches == matches && k.sel == sel && k.copy == copy
            &&& k.links.len() == links.len() && k.links[row] == row_spans(links[row]@)
        }),
{
}

/// Of the engines in a list the selected one is marked, and else those that are missing.
pub proof fn law_engine_marks(present: bool)
    ensures
        engine_mark(true, present) == "◄"@,
        engine_mark(false, true) == ""@,
        engine_mark(false, false) == "✗"@,
{
}

/// The session's own window says nothing of a local shell's connection, and of a pane's whether it
/// is live or down.
pub proof fn law_native_state(t: TabView)
    ensures
        t.seen.pty ==> t.native_state() == ""@,
        !t.seen.pty && t.seen.alive ==> t.native_state() == "  ● live"@,
        !t.seen.pty && !t.seen.alive && trimmed(t.reason()).len() == 0 ==> t.native_state()
            == "  ○ down"@,
        !t.seen.pty && !t.seen.alive && 0 < trimmed(t.reason()).len() <= 22 ==> t.native_state()
            == "  ○ down ("@ + trimmed(t.reason()) + ")"@,
{
}

/// What a window of its own says of the panes that are down: nothing where there are none, and a
/// number else.
pub proof fn law_dark_text(b: BoardView)
    ensures
        how_many(b.down_mask()) == 0 ==> b.dark_text() == ""@,
        how_many(b.down_mask()) > 2 ==> b.dark_text() == "↓"@ + dec(how_many(b.down_mask())) + " "@,
        b.active >= b.tabs.len() ==> b.window_note() == "no session"@,
        b.active < b.tabs.len() ==> b.window_note() == b.tabs[b.active as int].native_note(),
{
}

/// The banner of copy mode shows the search that is typed, and else whether there is a selection.
pub proof fn law_banner(s: ShellView)
    ensures
        s.copy.searching ==> s.copy.banner() == " COPY SEARCH /"@ + s.copy.query
            + " · Enter jump · Esc cancel "@,
        !s.copy.searching && s.copy.query.len() == 0 && s.copy.anchor is Some ==> s.copy.banner()
            == " COPY MODE · h/j/k/l/w/b move "@ + "[selecting]"@
            + " · / search · Enter copy · Esc quit "@,
        !s.copy.searching && s.copy.query.len() == 0 && s.copy.anchor is None ==> s.copy.banner()
            == " COPY MODE · h/j/k/l/w/b move "@ + "[v=select]"@
            + " · / search · Enter copy · Esc quit "@,
{
}

/// The summary of the fleet has a line for each machine, a blank one, and a line for each session,
/// in their order.
pub proof fn law_summary(tabs: Seq<TabView>, i: int)
    requires
        0 <= i < tabs.len(),
    ensures
        ({
            let l = summary_lines(tabs);
            let n = hosts_told(agent_tabs(tabs)).len() as int;
            &&& l.len() == n + 1 + tabs.len()
            &&& l[n].len() == 0
            &&& l[n + 1 + i] == tabs[i].summary(i)
        }),
{
}

/// A copy of the scrollback starts with what it is: the session, what it was doing, and when it was
/// copied.
pub proof fn law_copy_head(t: TabView, when: Seq<char>)
    requires
        t.host.len() > 0,
        t.live_title is None,
    ensures
        t.export_head(when) == "# harness-terminal scrollback export\n# session: "@ + t.engine
            + "@"@
            + t.host + "  ("@ + t.kind + ")\n# task: "@ + "-"@ + "\n# exported: "@ + when + "\n\n"@,
{
}

/// The preview of a tab stands below the bar and within the window, where it fits.
pub proof fn law_tip_stays_inside(s: ShellView, w: Seq<usize>)
    requires
        widest(w) + 50 <= s.metrics.width,
        s.metrics.cell_h <= 100000,
    ensures
        ({
            let (x, y, pw, ph) = s.tip_box(w);
            &&& pw == widest(w) + 36
            &&& 6 <= x && x + pw + 8 <= s.metrics.width
            &&& y == s.metrics.top(s.board.focus) + 8
        }),
{
}

/// A pointer that leaves the window lets go of the button, and changes nothing else.
pub proof fn law_pointer_lets_go(s: ShellView)
    ensures
        !s.let_go().mouse.held,
        s.let_go().board == s.board,
        s.let_go().overlay == s.overlay,
        s.let_go().mouse.x == s.mouse.x && s.let_go().mouse.y == s.mouse.y,
        s.let_go().mouse.anchor == s.mouse.anchor,
{
}

proof fn lemma_panel_front(m: Metrics, hidden: bool, s: Seq<RowView>)
    requires
        s.len() > 0,
        !s[0].lit,
    ensures
        panel(m, hidden, s).len() > 0,
        panel(m, hidden, s)[0] == StrokeView::Text(
            s[0].text,
            32,
            slot_y(m, hidden, s[0].slot as int) as usize,
            s[0].color,
        ),
    decreases s.len(),
{
    let front = s.drop_last();
    if front.len() == 0 {
        assert(panel(m, hidden, front).len() == 0);
        assert(row_strokes(m, hidden, s.last()).len() == 1);
    } else {
        assert(front[0] == s[0]);
        lemma_panel_front(m, hidden, front);
    }
}

/// Whether what is painted first is a text.
pub open spec fn headed(s: Seq<StrokeView>, text: Seq<char>) -> bool {
    s.len() > 0 && (s[0] matches StrokeView::Text(t, x, y, c) && t == text)
}

/// Every overlay shows its own heading first, and a closed one shows nothing.
pub proof fn law_overlays_are_headed(
    s: ShellView,
    m: Map<u64, Bitmap>,
    scene: Scene,
    busy: Seq<bool>,
    now: u64,
)
    ensures
        ({
            let p = s.overlay_strokes(m, scene, busy, now);
            &&& s.overlay == Overlay::Closed ==> p.len() == 0
            &&& s.overlay == Overlay::Palette ==> headed(p, "🔍 "@ + s.jump.query)
            &&& s.overlay == Overlay::NewSession ==> headed(p, "  new session  "@)
            &&& s.overlay == Overlay::RemoteAttach ==> headed(p, "  attach to pane@host  "@)
            &&& s.overlay == Overlay::Help ==> headed(p, "  harness-terminal keys  "@)
            &&& s.overlay == Overlay::Find ==> headed(p, s.finder.line())
            &&& s.overlay == Overlay::Rename ==> headed(p, "  currently: "@ + s.active_head() + "  "@)
            &&& s.overlay == Overlay::FleetGrid ==> headed(p, s.grid_heading())
            &&& s.overlay == Overlay::Peek ==> headed(p, s.peek_refreshed(now).peek_heading())
            &&& s.overlay == Overlay::Info && s.board.active < s.board.tabs.len() ==> headed(
                p,
                "  "@ + s.board.tabs[s.board.active as int].kind + " · "@
                    + s.board.tabs[s.board.active as int].engine
                    + "  "@,
            )
            &&& s.overlay == Overlay::Broadcast ==> headed(
                p,
                s.cast.heading(
                    how_many(s.board.target_mask()),
                    s.board.tabs.len(),
                    how_many(s.board.queued_mask()),
                ),
            )
        }),
{
    reveal(ShellView::overlay_strokes);
    let (k, hid) = (s.metrics, s.board.focus);
    match s.overlay {
        Overlay::Palette => lemma_panel_front(k, hid, s.jump_panel(scene.filtered@, now)),
        Overlay::NewSession => lemma_panel_front(
            k,
            hid,
            s.new_session_panel(scene.ordered@, scene.present@),
        ),
        Overlay::RemoteAttach => lemma_panel_front(k, hid, s.remote_panel(scene.engines@)),
        Overlay::Help => lemma_panel_front(k, hid, s.help_panel()),
        Overlay::Info => {
            if s.board.active < s.board.tabs.len() {
                lemma_panel_front(k, hid, info_panel(s.board, now));
            }
        },
        Overlay::Broadcast => lemma_panel_front(k, hid, s.cast_panel()),
        _ => {},
    }
}

/// The list of keys has one line for each, one below the other.
pub proof fn law_help_lines(s: ShellView, i: int)
    requires
        0 <= i < s.help_panel().len(),
    ensures
        s.help_panel().len() == 75,
        s.help_panel()[i].slot == i,
        !s.help_panel()[i].lit,
{
}

/// A machine's row shows how it is: an empty mark where no session is alive, a full one where all
/// are, and a half one else.
pub proof fn law_machine_rows(b: BoardView, host: Seq<char>, slot: int, sel: bool)
    ensures
        ({
            let all = agent_tabs(b.tabs);
            let alive = live_on(all, host);
            let total = agents_on(all, host).len();
            let t = b.host_row(host, slot, sel).text;
            &&& t[2] == '○' <==> alive == 0
            &&& t[2] == '●' <==> 0 < alive == total
            &&& b.host_row(host, slot, sel).lit == sel
            &&& sel ==> b.host_row(host, slot, sel).color == (0xffu8, 0xffu8, 0xffu8)
        }),
{
    reveal_strlit("  ");
    reveal_strlit("○");
    reveal_strlit("●");
    reveal_strlit("◐");
    assert("○"@[0] == '○' && "●"@[0] == '●' && "◐"@[0] == '◐');
    let all = agent_tabs(b.tabs);
    let alive = live_on(all, host) as int;
    let total = agents_on(all, host).len() as int;
    let mark = host_mark(alive, total);
    assert(b.host_row(host, slot, sel).text[2] == mark[0]);
}

/// The machines of the living tabs are those on which some tab is alive.
pub proof fn law_live_hosts(tabs: Seq<(&str, bool)>, h: Seq<char>)
    ensures
        listed(live_hosts_of(tabs), h) <==> exists|i: int|
            0 <= i < tabs.len() && (#[trigger] tabs[i]).0@ == h && tabs[i].1,
    decreases tabs.len(),
{
    if tabs.len() > 0 {
        let front = tabs.drop_last();
        let t = tabs.last();
        law_live_hosts(front, h);
        let r = live_hosts_of(tabs);
        let q = live_hosts_of(front);
        assert(tabs[tabs.len() - 1] == t);
        if exists|i: int| 0 <= i < front.len() && (#[trigger] front[i]).0@ == h && front[i].1 {
            let i = choose|i: int|
                0 <= i < front.len() && (#[trigger] front[i]).0@ == h && front[i].1;
            assert(tabs[i] == front[i]);
        }
        if exists|i: int| 0 <= i < tabs.len() && (#[trigger] tabs[i]).0@ == h && tabs[i].1 {
            let i = choose|i: int| 0 <= i < tabs.len() && (#[trigger] tabs[i]).0@ == h && tabs[i].1;
            if i < front.len() {
                assert(front[i] == tabs[i]);
            }
        }
        if t.1 {
            assert(r == q.push(t.0@));
            assert(r[q.len() as int] == t.0@);
            if listed(q, h) {
                let j = choose|j: int| 0 <= j < q.len() && #[trigger] q[j] == h;
                assert(r[j] == h);
            }
            if listed(r, h) && t.0@ != h {
                let j = choose|j: int| 0 <= j < r.len() && #[trigger] r[j] == h;
                assert(q[j] == h);
            }
        }
    }
}

/// A machine's row counts its living sessions before all of them: none are alive just where every
/// tab on it is dead, and all are just where every one is alive.
pub proof fn law_machine_counts(
    row: (String, usize, usize, Vec<(String, usize)>),
    tabs: Seq<AgentTab>,
)
    requires
        row_tells(row, tabs),
    ensures
        row.1 <= row.2,
        row.1 == 0 <==> forall|i: int|
            0 <= i < tabs.len() && (#[trigger] tabs[i]).host == row.0@ ==> !tabs[i].alive,
        row.1 == row.2 <==> forall|i: int|
            0 <= i < tabs.len() && (#[trigger] tabs[i]).host == row.0@ ==> tabs[i].alive,
{
    law_alive_on_a_machine(tabs, row.0@);
}

/// A machine's line in the summary: its mark, its name, its state, and its agents where there are
/// any.
pub proof fn law_machine_line(host: Seq<char>, total: nat, mix: Seq<(String, usize)>)
    requires
        total > 0,
        host.len() > 0,
    ensures
        mix.len() == 0 ==> host_line(host, total as int, total as int, mix) == "●"@ + " "@ + host
            + " · "@ + "live"@,
        mix.len() == 0 ==> host_line(host, 0, total as int, mix) == "○"@ + " "@ + host + " · "@
            + "down"@,
        mix.len() == 1 && mix[0].1 == 1 && mix[0].0@.len() > 0 ==> host_line(
            host,
            total as int,
            total as int,
            mix,
        ) == "●"@ + " "@ + host + " · "@ + "live"@ + " · "@ + mix[0].0@,
        mix.len() == 1 && mix[0].1 > 1 ==> mix_text(mix) == mix[0].0@ + "×"@ + dec(mix[0].1 as nat),
{
    if mix.len() == 1 {
        assert(mix.map_values(|e: (String, usize)| mix_entry(e))[0] == mix_entry(mix[0]));
    }
}

/// The tabs that raised a kind of event are those that are queued with it.
pub proof fn law_queued_tabs(pending: Seq<(String, usize)>, kind: Seq<char>, t: usize)
    ensures
        tabs_of(pending, kind).contains(t) <==> exists|i: int|
            0 <= i < pending.len() && (#[trigger] pending[i]).0@ == kind && pending[i].1 == t,
    decreases pending.len(),
{
    if pending.len() > 0 {
        let front = pending.drop_last();
        let e = pending.last();
        law_queued_tabs(front, kind, t);
        let r = tabs_of(pending, kind);
        let q = tabs_of(front, kind);
        assert(pending[pending.len() - 1] == e);
        if exists|i: int|
            0 <= i < front.len() && (#[trigger] front[i]).0@ == kind && front[i].1 == t {
            let i = choose|i: int|
                0 <= i < front.len() && (#[trigger] front[i]).0@ == kind && front[i].1 == t;
            assert(pending[i] == front[i]);
        }
        if exists|i: int|
            0 <= i < pending.len() && (#[trigger] pending[i]).0@ == kind && pending[i].1 == t {
            let i = choose|i: int|
                0 <= i < pending.len() && (#[trigger] pending[i]).0@ == kind && pending[i].1 == t;
            if i < front.len() {
                assert(front[i] == pending[i]);
            }
        }
        if e.0@ == kind {
            assert(r == q.push(e.1));
            assert(r[q.len() as int] == e.1);
            if q.contains(t) {
                let j = choose|j: int| 0 <= j < q.len() && q[j] == t;
                assert(r[j] == t);
            }
            if r.contains(t) && e.1 != t {
                let j = choose|j: int| 0 <= j < r.len() && r[j] == t;
                assert(q[j] == t);
            }
        }
    }
}

/// Under an overlay lie the bars and the banner of copy mode, or in a session's own window its bar;
/// over it the overlay comes first, then the preview of a tab and the context menu, where they are
/// open.
pub proof fn law_layers(
    s: ShellView,
    m: Map<u64, Bitmap>,
    scene: Scene,
    busy: Seq<bool>,
    now: u64,
)
    ensures
        s.board.active < s.board.tabs.len() && s.board.native && !s.status_bar ==> s.under_strokes(
            m,
            scene,
            busy,
            now,
        ).len() == 0,
        s.board.active < s.board.tabs.len() && !s.board.native && s.board.focus && !s.copy.on
            ==> s.under_strokes(m, scene, busy, now).len() == 0,
        s.board.active >= s.board.tabs.len() ==> s.under_strokes(m, scene, busy, now).len() >= 2,
        s.overlay == Overlay::Closed && s.menu is None && s.board.hover is None ==> s.over_strokes(
            m,
            scene,
            busy,
            now,
        ).len() == 0,
        s.overlay != Overlay::Closed && s.menu is None && s.board.native ==> s.over_strokes(
            m,
            scene,
            busy,
            now,
        ) == s.overlay_strokes(m, scene, busy, now),
{
    reveal(ShellView::overlay_strokes);
    reveal(ShellView::overlay_kept);
    let over = s.overlay_strokes(m, scene, busy, now);
    assert(s.overlay_kept(now).menu == s.menu);
    assert(s.overlay_kept(now).board.hover == s.board.hover);
    assert(over + Seq::<StrokeView>::empty() + Seq::<StrokeView>::empty() =~= over);
}

/// Showing a list keeps it in order and changes no session.
pub proof fn law_showing_changes_no_session(s: ShellView, now: u64)
    ensures
        s.overlay_kept(now).board == s.board,
        s.overlay_kept(now).overlay == s.overlay,
        s.overlay == Overlay::Closed ==> s.overlay_kept(now) == s,
{
    reveal(ShellView::overlay_kept);
}

} // verus!
