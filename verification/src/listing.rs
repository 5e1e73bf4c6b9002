//! Laws of what the lists, the tiles and the panels tell, and of the keys that walk them.

use vstd::prelude::*;

use crate::board::{Act, BoardView};
use crate::details::{info_lines, info_panel, shield, state_text};
use crate::finding::kept;
use crate::gestures::{bare, keyed, shifted};
use crate::keys::{KeyView, Mods, NamedKey};
use crate::lettering::{char_width, law_width_of_joined, width_of};
use crate::machines::{lemma_text_index, text_index};
use crate::menu::{item_height, items_height, placed_menu, row_height, widest, CtxAction};
use crate::overview::{peek_preview, said_lines, tally};
use crate::paint::Bitmap;
use crate::popups::tip_shield;
use crate::prompts::{find_flags, key_for, plural_s};
use crate::rosters::{fitted, fitted_end, hidden_note};
use crate::shell::{Overlay, ShellView};
use crate::tabs::TabView;
use crate::text::{dec, trim_back, trimmed};
use crate::triage::{law_selection_stays_visible, list_top};
use crate::words::duration_text;

verus! {

/// The arrow keys go one row down or up in a list, the page keys a page, and none of them leaves
/// it.
pub proof fn law_list_keys(s: ShellView, m: Mods, now: u64)
    requires
        s.selected < 1000000,
    ensures
        ({
            let down = keyed(s, KeyView::Named(NamedKey::ArrowDown), m, now);
            let up = keyed(s, KeyView::Named(NamedKey::ArrowUp), m, now);
            let n = if s.overlay == Overlay::Palette {
                s.jump.shown as int
            } else if s.overlay == Overlay::Fleet {
                s.fleet.shown.len() as int
            } else {
                s.engines.len() as int
            };
            s.overlay == Overlay::Palette || s.overlay == Overlay::NewSession || s.overlay
                == Overlay::RemoteAttach || s.overlay == Overlay::Fleet ==> {
                &&& s.selected + 1 < n <= usize::MAX ==> down.selected == s.selected + 1
                &&& s.selected + 1 == n ==> down.selected == s.selected
                &&& s.selected > 0 ==> up.selected == s.selected - 1
                &&& s.selected == 0 ==> up.selected == 0
                &&& down.board == s.board && up.board == s.board
            }
        }),
        s.overlay == Overlay::Palette ==> {
            let down = keyed(s, KeyView::Named(NamedKey::PageDown), m, now);
            let up = keyed(s, KeyView::Named(NamedKey::PageUp), m, now);
            &&& s.selected + 12 < s.jump.shown ==> down.selected == s.selected + 12
            &&& s.selected < s.jump.shown <= s.selected + 12 ==> down.selected == s.jump.shown - 1
            &&& s.selected >= 12 ==> up.selected == s.selected - 12
            &&& s.selected < 12 ==> up.selected == 0
        },
        s.overlay == Overlay::Fleet ==> {
            let down = keyed(s, KeyView::Named(NamedKey::PageDown), m, now);
            let up = keyed(s, KeyView::Named(NamedKey::PageUp), m, now);
            &&& s.selected + 10 < s.fleet.shown.len() <= usize::MAX ==> down.selected == s.selected
                + 10
            &&& s.selected >= 10 ==> up.selected == s.selected - 10
            &&& s.selected < 10 ==> up.selected == 0
        },
{
    reveal(ShellView::overlay_keyed);
    reveal(ShellView::jump_keyed);
    reveal(ShellView::new_keyed);
    reveal(ShellView::remote_keyed);
    reveal(ShellView::fleet_keyed);
}

/// In the command palette the arrow keys stop at the ends, and the tab key goes around them.
pub proof fn law_palette_keys(s: ShellView, now: u64)
    requires
        s.overlay == Overlay::CommandPalette,
        s.cmd.sel < s.cmd.shown.len() <= usize::MAX,
        s.cmd.sel < 1000000,
    ensures
        ({
            let n = s.cmd.shown.len();
            let k = s.cmd.sel;
            let down = keyed(s, KeyView::Named(NamedKey::ArrowDown), bare(), now);
            let up = keyed(s, KeyView::Named(NamedKey::ArrowUp), bare(), now);
            let tab = keyed(s, KeyView::Named(NamedKey::Tab), bare(), now);
            let back = keyed(s, KeyView::Named(NamedKey::Tab), shifted(), now);
            &&& k + 1 < n ==> down.cmd.sel == k + 1 && tab.cmd.sel == k + 1
            &&& k + 1 == n ==> down.cmd.sel == k && tab.cmd.sel == 0
            &&& k > 0 ==> up.cmd.sel == k - 1 && back.cmd.sel == k - 1
            &&& k == 0 ==> up.cmd.sel == 0 && back.cmd.sel == n - 1
            &&& down.overlay == s.overlay && up.overlay == s.overlay && tab.overlay == s.overlay
        }),
{
    reveal(ShellView::overlay_keyed);
    reveal(ShellView::cmd_keyed);
}

/// In the field for a machine the tab key goes through the machines that are remembered: to the one
/// behind the one that is typed, or with shift to the one before, round the ends.
pub proof fn law_machines_are_recalled(s: ShellView, now: u64, k: int)
    requires
        s.overlay == Overlay::RemoteAttach,
        0 <= k < s.recent_hosts.len(),
        trimmed(s.remote) == s.recent_hosts[k],
        forall|j: int| 0 <= j < k ==> #[trigger] s.recent_hosts[j] != s.recent_hosts[k],
    ensures
        ({
            let n = s.recent_hosts.len();
            let tab = keyed(s, KeyView::Named(NamedKey::Tab), bare(), now);
            let back = keyed(s, KeyView::Named(NamedKey::Tab), shifted(), now);
            &&& k + 1 < n ==> tab.remote == s.recent_hosts[k + 1]
            &&& k + 1 == n ==> tab.remote == s.recent_hosts[0]
            &&& k > 0 ==> back.remote == s.recent_hosts[k - 1]
            &&& k == 0 ==> back.remote == s.recent_hosts[n - 1]
        }),
{
    reveal(ShellView::overlay_keyed);
    reveal(ShellView::remote_keyed);
    lemma_text_index(s.recent_hosts, trimmed(s.remote), 0);
    lemma_index_at(s.recent_hosts, k, 0);
}

proof fn lemma_index_at(s: Seq<Seq<char>>, k: int, from: int)
    requires
        0 <= from <= k < s.len(),
        forall|j: int| from <= j < k ==> #[trigger] s[j] != s[k],
    ensures
        text_index(s, s[k], from) == Some(k),
    decreases k - from,
{
    if from < k {
        assert(s[from] != s[k]);
        lemma_index_at(s, k, from + 1);
    }
}

/// The enter key in the fleet goes to the first tab with the agent of the selected session; where
/// no tab has it, a session of that agent is opened.
pub proof fn law_fleet_is_taken(s: ShellView, m: Mods, now: u64, k: int)
    requires
        s.board.wf(),
        !s.board.native,
        s.overlay == Overlay::Fleet,
        s.selected < s.fleet.shown.len(),
        0 <= s.fleet.shown[s.selected as int] < s.fleet.rows.len() <= usize::MAX,
        0 <= k <= s.board.tabs.len(),
        forall|j: int|
            0 <= j < k ==> (#[trigger] s.board.tabs[j]).engine
                != s.fleet.rows[s.fleet.shown[s.selected as int]].engine,
    ensures
        ({
            let row = s.fleet.shown[s.selected as int];
            let engine = s.fleet.rows[row].engine;
            let t = keyed(s, KeyView::Named(NamedKey::Enter), m, now);
            &&& t.overlay == Overlay::Closed
            &&& k < s.board.tabs.len() && s.board.tabs[k].engine == engine ==> t.board.active == k
                && t.board.tabs == s.board.tabs
            &&& k == s.board.tabs.len() && engine.len() > 0 ==> t.board.todo == s.board.todo.push(
                Act::SpawnFleet(row as usize),
            )
        }),
{
    reveal(ShellView::overlay_keyed);
    reveal(ShellView::fleet_keyed);
    let row = s.fleet.shown[s.selected as int];
    let engine = s.fleet.rows[row].engine;
    let all = s.board.tabs.map_values(|t: TabView| t.engine);
    assert forall|j: int| 0 <= j < all.len() implies #[trigger] all[j] == s.board.tabs[j].engine by {}
    lemma_text_index(all, engine, 0);
    if k < s.board.tabs.len() && s.board.tabs[k].engine == engine {
        assert(all[k] == engine);
        assert forall|j: int| 0 <= j < k implies #[trigger] all[j] != all[k] by {
            assert(s.board.tabs[j].engine != engine);
        }
        lemma_index_at(all, k, 0);
        crate::effects::law_tab_is_gone_to(s.board, k as usize);
    }
    if k == s.board.tabs.len() {
        if let Some(i) = text_index(all, engine, 0) {
            assert(s.board.tabs[i].engine != engine);
        }
    }
}

/// The up arrow in an empty find bar brings back the query that was run last, and the enter key
/// remembers the one that is run.
pub proof fn law_queries_are_recalled(s: ShellView, now: u64)
    requires
        s.overlay == Overlay::Find,
    ensures
        s.finder.query.len() == 0 && s.finder.history.len() > 0 ==> keyed(
            s,
            KeyView::Named(NamedKey::ArrowUp),
            bare(),
            now,
        ).finder.query == s.finder.history[0],
        s.finder.query.len() > 0 ==> keyed(
            s,
            KeyView::Named(NamedKey::Enter),
            bare(),
            now,
        ).finder.history[0] == s.finder.query,
        s.finder.query.len() == 0 ==> keyed(
            s,
            KeyView::Named(NamedKey::Enter),
            bare(),
            now,
        ).finder.history == s.finder.history,
{
    reveal(ShellView::overlay_keyed);
    reveal(ShellView::find_keyed);
}

/// A selection is kept where its row is still there, and else goes to the last.
pub proof fn law_selection_is_kept(sel: usize, n: nat)
    requires
        0 < n <= usize::MAX,
    ensures
        kept(sel, n) < n,
        sel < n ==> kept(sel, n) == sel,
        sel >= n ==> kept(sel, n) == n - 1,
{
}

/// In the list of sessions to jump to, the selected one is in view and is the only one lit.
pub proof fn law_jump_list(s: ShellView, filtered: Seq<usize>, now: u64, k: int)
    requires
        s.selected < filtered.len(),
        1 <= k < s.jump_panel(filtered, now).len(),
    ensures
        ({
            let p = s.jump_panel(filtered, now);
            let at = 1 + s.selected - list_top(filtered.len() as int, s.selected as int, 12);
            &&& 1 <= at < p.len() <= 13
            &&& p[k].lit <==> k == at
            &&& p[at].text == s.board.jump_row(
                filtered[s.selected as int] as int,
                at,
                true,
                now,
            ).text
            &&& !p[0].lit
        }),
{
    law_selection_stays_visible(filtered.len() as int, s.selected as int, 12);
}

/// A session's flags in that list: down before busy before waiting; then whether it is pinned, then
/// whether it is muted.
pub proof fn law_jump_flags(b: BoardView, i: int, now: u64)
    requires
        0 <= i < b.tabs.len(),
    ensures
        ({
            let f = b.jump_flags(i, now);
            &&& f.len() == 3
            &&& f[0] == '○' <==> !b.tabs[i].seen.alive
            &&& f[0] == '!' <==> b.tabs[i].seen.alive && b.growing(i)
            &&& f[0] == '⌛' <==> b.tabs[i].seen.alive && !b.growing(i) && b.waits(i, now)
            &&& f[1] == '🔒' <==> b.pinned(i)
            &&& f[2] == 'M' <==> b.muted(i)
        }),
{
    reveal_strlit("○");
    reveal_strlit("!");
    reveal_strlit("⌛");
    reveal_strlit(" ");
    reveal_strlit("🔒");
    reveal_strlit("M");
    assert("○"@[0] == '○' && "!"@[0] == '!' && "⌛"@[0] == '⌛' && " "@[0] == ' ' && "🔒"@[0] == '🔒'
        && "M"@[0] == 'M');
}

/// In the list of targets each session has a box, which is checked just where it is a target; how
/// many are down among them is counted.
pub proof fn law_target_boxes(b: BoardView, i: int, slot: int, sel: bool)
    requires
        b.slots.len() == b.tabs.len(),
        0 <= i < b.tabs.len(),
    ensures
        b.cast_row(i, slot, sel).text[2] == '☑' <==> b.slots[i].target,
        b.cast_row(i, slot, sel).text[2] == '☐' <==> !b.slots[i].target,
        b.queued_mask()[i] <==> b.slots[i].target && b.tabs[i].down(),
        b.tabs[i].down_tag().len() > 0 <==> b.tabs[i].down(),
{
    reveal_strlit("");
    reveal_strlit("  ");
    reveal_strlit("☑");
    reveal_strlit("☐");
    reveal_strlit("  ○ down");
    reveal_strlit("  ○ down (");
    assert("☑"@[0] == '☑' && "☐"@[0] == '☐');
    let box_ = crate::rosters::either(b.slots[i].target, "☑"@, "☐"@);
    assert(b.cast_row(i, slot, sel).text[2] == box_[0]);
}

/// What is out of view of a list is counted, above and below, and nothing is said where all is
/// seen.
pub proof fn law_hidden_rows(above: nat, below: nat)
    ensures
        hidden_note(0, 0) == ""@,
        below > 0 ==> hidden_note(0, below as int) == " · ▼"@ + dec(below) + " below"@,
        above > 0 ==> hidden_note(above as int, 0) == " · ▲"@ + dec(above) + " above"@,
        above > 0 && below > 0 ==> hidden_note(above as int, below as int) == " · ▲"@ + dec(above)
            + " ▼"@ + dec(below),
        plural_s(1) == ""@,
        above != 1 ==> plural_s(above) == "s"@,
        tally("!"@, 0) == ""@,
        above > 0 ==> tally("!"@, above as int) == "!"@ + dec(above),
{
}

proof fn lemma_fitted(m: Map<u64, Bitmap>, text: Seq<char>, px: u32, avail: int, from: int)
    requires
        0 <= from <= text.len(),
        width_of(m, text.take(from), px) <= avail,
    ensures
        ({
            let (end, cut) = fitted_end(
                m,
                text,
                px,
                avail,
                width_of(m, text.take(from), px) as int,
                from,
            );
            &&& from <= end <= text.len()
            &&& width_of(m, text.take(end), px) <= avail
            &&& cut ==> end < text.len() && width_of(m, text.take(end + 1), px) > avail
            &&& !cut ==> end == text.len()
        }),
    decreases text.len() - from,
{
    if from < text.len() {
        let next = text.take(from + 1);
        assert(next.drop_last() =~= text.take(from));
        assert(next.last() == text[from]);
        assert(width_of(m, next, px) == width_of(m, text.take(from), px) + char_width(
            m,
            text[from],
            px,
        ));
        if width_of(m, next, px) <= avail {
            lemma_fitted(m, text, px, avail, from + 1);
        }
    }
}

/// A text that fits its room is shown whole; of a wider one as much of the front as fits, and an
/// ellipsis.
pub proof fn law_fitting(m: Map<u64, Bitmap>, text: Seq<char>, px: u32, avail: int)
    requires
        0 <= avail,
    ensures
        width_of(m, text, px) <= avail ==> fitted(m, text, px, avail) == text,
        width_of(m, text, px) > avail ==> exists|end: int|
            0 <= end < text.len() && fitted(m, text, px, avail) == (#[trigger] text.take(end)).push(
                '…',
            ) && width_of(m, text.take(end), px) <= avail && width_of(m, text.take(end + 1), px)
                > avail,
{
    assert(text.take(0) =~= Seq::<char>::empty());
    lemma_fitted(m, text, px, avail, 0);
    let (end, cut) = fitted_end(m, text, px, avail, 0, 0);
    if cut {
        assert(fitted(m, text, px, avail) == text.take(end).push('…'));
        let rest = text.skip(end + 1);
        assert(text =~= text.take(end + 1) + rest);
        law_width_of_joined(m, text.take(end + 1), rest, px);
    } else {
        assert(text.take(end) =~= text);
    }
}

/// The preview of a session shows up to four lines, the last that say anything, none of them blank;
/// what scrolled away comes before what is on the screen.
pub proof fn law_previews(history: Seq<Seq<char>>, tail: Seq<Seq<char>>, k: int)
    requires
        0 <= k < peek_preview(history, tail).len(),
    ensures
        peek_preview(history, tail).len() <= 4,
        peek_preview(history, tail)[k].len() > 0,
        said_lines(history).len() > 0 ==> peek_preview(history, tail).last() == said_lines(
            history,
        ).last(),
        said_lines(history).len() == 0 ==> peek_preview(history, tail).last() == said_lines(
            tail,
        ).last(),
{
    lemma_said(history);
    lemma_said(tail);
    let all = if said_lines(history).len() > 0 {
        said_lines(history)
    } else {
        said_lines(tail)
    };
    let p = peek_preview(history, tail);
    let off = all.len() - p.len();
    assert(p[k] == all[off + k]);
}

/// The lines that say something are those that are not blank, in their order.
pub proof fn law_said_lines(a: Seq<Seq<char>>, line: Seq<char>)
    ensures
        trim_back(line).len() > 0 ==> said_lines(a.push(line)) == said_lines(a).push(
            trim_back(line),
        ),
        trim_back(line).len() == 0 ==> said_lines(a.push(line)) == said_lines(a),
        said_lines(Seq::empty()).len() == 0,
{
    assert(a.push(line).drop_last() =~= a);
}

proof fn lemma_said(lines: Seq<Seq<char>>)
    ensures
        forall|i: int| 0 <= i < said_lines(lines).len() ==> (#[trigger] said_lines(lines)[i]).len() > 0,
    decreases lines.len(),
{
    if lines.len() > 0 {
        lemma_said(lines.drop_last());
        let front = said_lines(lines.drop_last());
        assert forall|i: int| 0 <= i < said_lines(lines).len() implies (#[trigger] said_lines(
            lines,
        )[i]).len() > 0 by {
            if i < front.len() {
                assert(said_lines(lines)[i] == front[i]);
            }
        }
    }
}

/// In the list of keys a command stands with the first key that is bound to it, and by its own name
/// where none is.
pub proof fn law_help_keys(keys: Seq<(Seq<char>, Seq<char>)>, action: Seq<char>, from: int, k: int)
    requires
        0 <= from <= k <= keys.len(),
        forall|j: int| from <= j < k ==> (#[trigger] keys[j]).1 != action,
    ensures
        k < keys.len() && keys[k].1 == action ==> key_for(keys, action, from) == keys[k].0,
        k == keys.len() ==> key_for(keys, action, from) == action,
    decreases k - from,
{
    if from < k {
        assert(keys[from].1 != action);
        law_help_keys(keys, action, from + 1, k);
    }
}

/// The find bar counts from one: which match is in focus, and how many there are.
pub proof fn law_find_bar(s: ShellView)
    requires
        s.finder.query.len() > 0,
    ensures
        s.finder.all.len() == 0 ==> s.finder.line() == "  find: "@ + s.finder.query
            + "  (no match)"@,
        s.finder.index < s.finder.all.len() ==> s.finder.line() == "  find: "@ + s.finder.query
            + "  (match "@ + dec((s.finder.index + 1) as nat) + " of "@ + dec(
            s.finder.all.len(),
        ) + " · Enter/Tab next, Shift+Enter prev, Cmd+G repeat)"@,
        find_flags(true, true) == "  [Aa whole-word]"@,
        find_flags(true, false) == "  [Aa]"@,
        find_flags(false, true) == "  [whole-word]"@,
        find_flags(false, false) == ""@,
{
    if s.finder.index < s.finder.all.len() {
        vstd::arithmetic::div_mod::lemma_small_mod(s.finder.index as nat, s.finder.all.len());
    }
}

/// The widest of some texts is one of them, and none is wider.
pub proof fn law_widest(w: Seq<usize>, k: int)
    requires
        0 <= k < w.len(),
    ensures
        w[k] <= widest(w),
        w.contains(widest(w)),
    decreases w.len(),
{
    let front = w.drop_last();
    if front.len() > 0 {
        law_widest(front, if k < front.len() {
            k
        } else {
            0
        });
        let j = choose|j: int| 0 <= j < front.len() && front[j] == widest(front);
        assert(w[j] == widest(front));
    } else {
        assert(widest(front) == 0);
    }
    assert(w[w.len() - 1] == w.last());
}

/// The context menu stands a little left of and above the pointer, and within the window where it
/// fits.
pub proof fn law_menu_stays_inside(
    items: Seq<CtxAction>,
    widths: Seq<usize>,
    row_h: int,
    vw: int,
    vh: int,
    x: i64,
    y: i64,
)
    requires
        0 <= vw <= usize::MAX,
        0 <= vh <= usize::MAX,
        0 <= row_h,
        widest(widths) + 24 <= vw,
        items_height(items, row_h) <= vh,
    ensures
        ({
            let p = placed_menu(items, widths, row_h, vw, vh, x, y);
            &&& p.px + p.w <= vw && p.py + items_height(items, row_h) <= vh
            &&& p.w == widest(widths) + 24
            &&& 4 <= x && x - 4 + p.w <= vw ==> p.px == x - 4
            &&& 4 <= y && y - 4 + items_height(items, row_h) <= vh ==> p.py == y - 4
            &&& p.items == items && p.sel == 0
        }),
{
    lemma_heights(items, row_h);
}

proof fn lemma_heights(items: Seq<CtxAction>, row_h: int)
    requires
        0 <= row_h,
    ensures
        0 <= items_height(items, row_h),
    decreases items.len(),
{
    if items.len() > 0 {
        lemma_heights(items.drop_last(), row_h);
    }
}

/// A row of the menu is as high as a cell, and at least twenty pixels; a line between rows is half
/// as high; and a menu is as high as its rows.
pub proof fn law_menu_heights(items: Seq<CtxAction>, a: CtxAction, row_h: int)
    requires
        0 <= row_h,
    ensures
        row_height(row_h) >= 20 && row_height(row_h) >= row_h,
        row_h >= 20 ==> row_height(row_h) == row_h,
        items_height(Seq::empty(), row_h) == 0,
        items_height(items.push(a), row_h) == items_height(items, row_h) + item_height(a, row_h),
        a == CtxAction::Separator ==> 2 * item_height(a, row_h) <= row_h <= 2 * item_height(a, row_h)
            + 1,
        a != CtxAction::Separator ==> item_height(a, row_h) == row_h,
{
    assert(items.push(a).drop_last() =~= items);
}

/// How a tab is shielded is told, in the panel on the active session and in the preview of a tab.
pub proof fn law_shields()
    ensures
        shield(false, false) == "none"@,
        shield(true, false) == "pinned 🔒"@,
        shield(false, true) == "muted M"@,
        shield(true, true) == "pinned 🔒 · muted M"@,
        tip_shield(false, false) == ""@,
        tip_shield(true, false) == " · pinned🔒"@,
        tip_shield(false, true) == " · muted"@,
        tip_shield(true, true) == " · pinned🔒 muted"@,
{
}

/// The panel on the active session names it, its machine, its agent and how it is connected, and
/// tells its size last; without a session it is empty.
pub proof fn law_session_panel(b: BoardView, now: u64)
    requires
        b.slots.len() == b.tabs.len(),
    ensures
        b.active >= b.tabs.len() ==> info_panel(b, now).len() == 0,
        b.active < b.tabs.len() ==> {
            let t = b.tabs[b.active as int];
            let p = info_panel(b, now);
            &&& p.len() > 6
            &&& p[1].text == "  name       "@ + t.head()
            &&& p[2].text == "  host       "@ + t.host
            &&& p[3].text == "  engine     "@ + t.engine
            &&& p[4].text == "  transport  "@ + t.kind
            &&& p[5].text == "  state      "@ + state_text(t)
            &&& p.last().text == "  size       "@ + dec(t.lines as nat) + "×"@ + dec(t.cols as nat)
            &&& t.retry is None ==> state_text(t) == "live"@
            &&& t.retry matches Some(r) ==> state_text(t) == "down · "@ + r
        },
{
    if b.active < b.tabs.len() {
        let l = info_lines(b, b.active as int, now);
        let t = b.tabs[b.active as int];
        assert(l[0] == "  name       "@ + t.head());
        assert(l[1] == "  host       "@ + t.host);
        assert(l[2] == "  engine     "@ + t.engine);
        assert(l[3] == "  transport  "@ + t.kind);
        assert(l[4] == "  state      "@ + state_text(t));
        assert(l.last() == "  size       "@ + dec(t.lines as nat) + "×"@ + dec(t.cols as nat));
    }
}

/// A session's mark on its tile: down before news before waiting; the tile in focus has no news and
/// does not wait.
pub proof fn law_tile_marks(b: BoardView, i: int, now: u64)
    requires
        0 <= i < b.tabs.len(),
    ensures
        b.tabs[i].down() ==> b.tile_state(i, false, now) == "○"@ && b.tile_state(i, true, now)
            == "○"@,
        !b.tabs[i].down() ==> b.tile_state(i, true, now) == ""@,
        !b.tabs[i].down() && 0 < b.unread(i) <= 999 ==> b.tile_state(i, false, now) == "!"@ + dec(
            b.unread(i) as nat,
        ),
        !b.tabs[i].down() && b.unread(i) > 999 ==> b.tile_state(i, false, now) == "!"@ + dec(999),
        !b.tabs[i].down() && b.unread(i) == 0 && b.waits(i, now) ==> b.tile_state(i, false, now)
            == "⌛"@ + duration_text(b.parked(i, now)),
        !b.tabs[i].down() && b.unread(i) == 0 && !b.waits(i, now) ==> b.tile_state(i, false, now)
            == ""@,
{
}

/// The color of a tile tells the session's state: red where it is down, orange where it is busy,
/// blue where it waits, green where it is just back; else white in focus and grey out of it.
pub proof fn law_tile_colors(b: BoardView, i: int, busy: bool, now: u64)
    requires
        0 <= i < b.tabs.len(),
    ensures
        ({
            let (red, orange, blue, green) = (
                (0xf0u8, 0x6au8, 0x6au8),
                (0xf2u8, 0xb0u8, 0x4fu8),
                (0x6au8, 0x9fu8, 0xf2u8),
                (0x4fu8, 0xc0u8, 0x7au8),
            );
            let down = b.tabs[i].down();
            let away = b.tile_color(i, false, busy, now);
            let near = b.tile_color(i, true, busy, now);
            &&& down ==> away == red && near == red
            &&& !down && busy ==> away == orange
            &&& !down && !busy && b.waits(i, now) ==> away == blue
            &&& !down && !busy && !b.waits(i, now) && b.recovering(i) ==> away == green
            &&& !down && !busy && !b.waits(i, now) && !b.recovering(i) ==> away == (
                0x66u8,
                0x66u8,
                0x66u8,
            )
            &&& !down && b.recovering(i) ==> near == green
            &&& !down && !b.recovering(i) ==> near == (0xffu8, 0xffu8, 0xffu8)
        }),
{
}

/// The preview of a pane that is down says how the reconnect goes; that of any other says nothing
/// of it. Where there is more than its head, the preview says what a click does.
pub proof fn law_tips(
    b: BoardView,
    i: int,
    history: Seq<Seq<char>>,
    tail: Seq<Seq<char>>,
)
    requires
        0 <= i < b.tabs.len(),
    ensures
        b.tabs[i].outage_lines().len() > 0 <==> b.tabs[i].down(),
        b.tip_lines(i, history, tail)[0] == b.tip_head(i),
        !b.tabs[i].down() && history.len() == 0 && tail.len() == 0 ==> b.tip_lines(
            i,
            history,
            tail,
        ).len() == 1,
        b.tip_lines(i, history, tail).len() > 1 ==> b.tip_lines(i, history, tail).last()
            == " (click → switch to this tab) "@,
        b.growing(i) && history.len() > 0 ==> b.tip_tail(i, history, tail) == history,
        !b.growing(i) ==> b.tip_tail(i, history, tail) == tail,
{
}

} // verus!
