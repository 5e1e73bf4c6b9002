//! What the mouse does, told from where the pointer is and from the window's state before and
//! after.

use vstd::prelude::*;

use crate::activity::Slot;
use crate::board::{Act, BoardView};
use crate::effects::law_tab_is_gone_to;
use crate::geometry::Metrics;
use crate::keys::{Mods, MouseButton};
use crate::menu::{item_mask, menu_items, row_at, CtxAction, MenuView};
use crate::mouse::{inside, label_at, pixel, span_at};
use crate::shell::{Overlay, ShellView};
use crate::triage::{law_next_set, tile_at};

verus! {

/// The cell under a place of the window is the one whose pixels hold it: so many cells from the
/// left edge, and so many below the bar on top.
pub proof fn law_cell_holds_the_place(m: Metrics, top: int, bottom: int, x: int, y: int, r: int, c: int)
    requires
        0 < m.cell_w,
        0 < m.cell_h,
        0 <= top,
        0 <= bottom,
        m.cell_at(top, bottom, x, y) == Some((r, c)),
    ensures
        0 <= r && 0 <= c,
        c * m.cell_w <= x < c * m.cell_w + m.cell_w,
        top + r * m.cell_h <= y < top + r * m.cell_h + m.cell_h,
        y < m.height - bottom,
        c * m.cell_w + m.cell_w <= m.width,
{
    let (w, h) = (m.cell_w as int, m.cell_h as int);
    vstd::arithmetic::div_mod::lemma_fundamental_div_mod(x, w);
    vstd::arithmetic::div_mod::lemma_fundamental_div_mod(y - top, h);
    vstd::arithmetic::div_mod::lemma_mod_bound(x, w);
    vstd::arithmetic::div_mod::lemma_mod_bound(y - top, h);
    vstd::arithmetic::div_mod::lemma_div_pos_is_pos(x, w);
    vstd::arithmetic::div_mod::lemma_div_pos_is_pos(y - top, h);
    assert(w * c == c * w && h * r == r * h) by (nonlinear_arith);
    let n = m.width as int / w;
    vstd::arithmetic::div_mod::lemma_fundamental_div_mod(m.width as int, w);
    vstd::arithmetic::div_mod::lemma_mod_bound(m.width as int, w);
    assert(c * w + w <= w * n) by (nonlinear_arith)
        requires
            c + 1 <= n,
            0 < w,
    ;
}

/// There is a cell at every place between the bars and within the columns, and at no other.
pub proof fn law_places_have_cells(m: Metrics, top: int, bottom: int, x: int, y: int)
    requires
        0 < m.cell_w,
        0 < m.cell_h,
    ensures
        m.cell_at(top, bottom, x, y) is Some <==> 0 <= x && (x / (m.cell_w as int)) < (m.width as int
            / m.cell_w as int) && top <= y < m.height - bottom,
{
}

/// A press on the grid starts a selection in the cell under the pointer: of characters at first, of
/// a word at the second press in a row, and of whole lines at the third.
pub proof fn law_press_selects(s: ShellView, now: u64, r: int, c: int)
    requires
        s.board.active < s.board.tabs.len(),
        s.cell(s.mouse.x as int, s.mouse.y as int) == Some((r, c)),
        0 <= r <= usize::MAX,
        0 <= c <= usize::MAX,
    ensures
        ({
            let t = s.selecting(now);
            let (row, col) = (r as usize, c as usize);
            let near = |n: u32|
                s.mouse.press matches Some(p) && p.0 <= now < p.0 + 250 && p.1 == s.mouse.x && p.2
                    == s.mouse.y && p.3 == n;
            &&& t.mouse.anchor == Some((row, col))
            &&& s.mouse.press is None ==> t.board.todo == s.board.todo.push(Act::Select(row, col))
            &&& near(1) ==> t.board.todo == s.board.todo.push(
                Act::SelectWord(row, col),
            )
            &&& near(2) ==> t.board.todo == s.board.todo.push(
                Act::SelectLines(row, col),
            )
            &&& s.mouse.press matches Some(p) ==> now >= p.0 + 250 ==> t.board.todo == s.board.todo.push(
                Act::Select(row, col),
            )
            &&& t.mouse.press matches Some(p) && p.0 == now && p.1 == s.mouse.x && p.2 == s.mouse.y
        }),
{
    reveal(ShellView::selecting);
}

/// A press beside the grid clears the selection.
pub proof fn law_press_beside_clears(s: ShellView, now: u64)
    requires
        s.board.active < s.board.tabs.len(),
        s.cell(s.mouse.x as int, s.mouse.y as int) is None,
    ensures
        s.selecting(now).board.todo == s.board.todo.push(Act::Unselect),
        s.selecting(now).mouse.anchor is None,
{
    reveal(ShellView::selecting);
}

/// Drawing a selection lets it reach up to the cell under the pointer; letting go copies it, and
/// ends it.
pub proof fn law_selection_is_drawn(s: ShellView, r: int, c: int)
    requires
        s.board.active < s.board.tabs.len(),
        s.cell(s.mouse.x as int, s.mouse.y as int) == Some((r, c)),
    ensures
        s.extending().board.todo == s.board.todo.push(Act::Extend(r as usize, c as usize)),
        s.mouse.anchor is Some ==> s.selected_text().board.todo == s.board.todo.push(
            Act::Extend(r as usize, c as usize),
        ).push(Act::CopySelection),
        s.selected_text().mouse.anchor is None,
{
    reveal(ShellView::extending);
    reveal(ShellView::selected_text);
}

/// Whether a session's program has asked for the mouse, by the bits of its mode: for clicks, drags
/// or all motion, and for reports in the SGR form. What lies over the grid has the mouse first.
pub open spec fn told_of_the_mouse(s: ShellView) -> bool {
    let b = s.board;
    s.overlay == Overlay::Closed && s.menu is None && !s.copy.on && b.active < b.tabs.len() && b.tabs[b.active as int].mode
        & 0x2048 != 0 && b.tabs[b.active as int].mode & 0x20 != 0
}

/// A program that has asked for the mouse is told of a button in the cell under the pointer,
/// counted from one, and of whether it was let go; nothing else happens. The right button alone is
/// the menu's.
pub proof fn law_program_is_told(
    s: ShellView,
    button: MouseButton,
    pressed: bool,
    m: Mods,
    link: bool,
    selection: bool,
    w: Seq<usize>,
    widths: Seq<usize>,
    now: u64,
    r: int,
    c: int,
)
    requires
        told_of_the_mouse(s),
        s.cell(s.mouse.x as int, s.mouse.y as int) == Some((r, c)),
        button != MouseButton::Right || m.control,
        0 <= r < usize::MAX,
        0 <= c < usize::MAX,
    ensures
        ({
            let t = s.buttoned(button, pressed, m, link, selection, w, widths, now);
            let code = (if pressed && button == MouseButton::Left {
                0int
            } else if pressed && button == MouseButton::Middle {
                1
            } else if pressed && button == MouseButton::Right {
                2
            } else {
                3
            }) + (if m.shift {
                4int
            } else {
                0
            }) + (if m.alt {
                8int
            } else {
                0
            }) + (if m.control {
                16int
            } else {
                0
            });
            &&& t.board.todo == s.board.todo.push(
                Act::MouseReport(code as u16, (c + 1) as usize, (r + 1) as usize, !pressed),
            ).push(Act::Redraw)
            &&& t.board.tabs == s.board.tabs && t.overlay == s.overlay && t.mouse.anchor
                == s.mouse.anchor
        }),
{
    reveal(ShellView::reporting);
}

/// A program that has not asked for the mouse is told nothing of a button.
pub proof fn law_program_is_not_told(s: ShellView)
    requires
        !told_of_the_mouse(s),
    ensures
        s.report_cell() is None,
{
    reveal(ShellView::reporting);
}

/// The wheel tells a program that has asked for the mouse; else over the bar it turns through the
/// tabs, and over the grid it moves the view by as many lines, and holds it where it goes up.
pub proof fn law_wheel(s: ShellView, up: bool, lines: int, m: Mods)
    requires
        s.wf(),
        s.board.tabs.len() > 0,
        s.board.tabs[s.board.active as int].offset <= s.board.tabs[s.board.active as int].depth,
        !told_of_the_mouse(s),
    ensures
        ({
            let b = s.board;
            let a = b.active as int;
            let t = s.wheeled(up, lines, m).board;
            let at = b.tabs[a].offset + lines;
            &&& s.mouse.y < s.bars().0 && b.tabs.len() > 1 ==> t == (BoardView {
                todo: b.turned(!up).todo.push(Act::Redraw),
                ..b.turned(!up)
            })
            &&& s.mouse.y >= s.bars().0 ==> {
                &&& 0 <= at <= b.tabs[a].depth ==> t.tabs[a].offset == at
                &&& at < 0 ==> t.tabs[a].offset == 0
                &&& at > b.tabs[a].depth ==> t.tabs[a].offset == b.tabs[a].depth
                &&& lines > 0 ==> t.tabs[a].scrolled
                &&& lines <= 0 && at <= 0 ==> !t.tabs[a].scrolled
                &&& t.active == b.active
            }
        }),
{
    law_program_is_not_told(s);
}

/// The wheel's report: up is 64 and down 65, in the cell under the pointer.
pub proof fn law_wheel_is_told(s: ShellView, up: bool, lines: int, m: Mods, r: int, c: int)
    requires
        told_of_the_mouse(s),
        s.cell(s.mouse.x as int, s.mouse.y as int) == Some((r, c)),
        !m.shift && !m.alt && !m.control,
    ensures
        s.wheeled(up, lines, m).board.todo == s.board.todo.push(
            Act::MouseReport(
                if up {
                    64
                } else {
                    65
                },
                (c + 1) as usize,
                (r + 1) as usize,
                false,
            ),
        ).push(Act::Redraw),
        s.wheeled(up, lines, m).board.tabs == s.board.tabs,
{
    reveal(ShellView::reporting);
}

/// The left button: with alt it calls the text cursor, with control or the command key it opens
/// what is under it; on a tab it takes hold of that tab.
pub proof fn law_left_press(s: ShellView, m: Mods, w: Seq<usize>, now: u64, r: int, c: int, i: int)
    requires
        s.board.active < s.board.tabs.len(),
        !s.board.tabs[s.board.active as int].scrolled,
    ensures
        m.alt && s.cell(s.mouse.x as int, s.mouse.y as int) == Some((r, c)) ==> s.left_pressed(
            m,
            w,
            now,
        ).board.todo == s.board.todo.push(Act::CursorTo((r + 1) as usize, (c + 1) as usize)),
        !m.alt && (m.control || m.logo) && s.cell(s.mouse.x as int, s.mouse.y as int) == Some((r, c)) && r
            < s.board.tabs[s.board.active as int].lines && c < s.board.tabs[s.board.active as int].cols
            ==> s.left_pressed(m, w, now).board.todo == s.board.todo.push(
            Act::Open(r as usize, c as usize),
        ),
        !m.alt && !m.control && !m.logo && !inside(s.mouse.new_tab, pixel(s.mouse.x), pixel(s.mouse.y))
            && s.close_mark_at(s.mouse.x, s.mouse.y) is None && s.tab_at(w, s.mouse.x, s.mouse.y) == Some(
            i,
        ) ==> s.left_pressed(m, w, now).board.drag == Some(i as usize) && s.left_pressed(
            m,
            w,
            now,
        ).board.active == s.board.active,
{
    reveal(ShellView::left_pressed);
    reveal(ShellView::cursor_called);
    reveal(ShellView::opened_at);
    reveal(ShellView::tab_pressed);
}

/// The mark at the end of a tab closes that tab, unless it is pinned; the button at the end of the
/// bar opens the picker.
pub proof fn law_marks_and_buttons(s: ShellView, m: Mods, w: Seq<usize>, now: u64, i: int)
    requires
        s.wf(),
        !m.alt && !m.control && !m.logo,
    ensures
        inside(s.mouse.new_tab, pixel(s.mouse.x), pixel(s.mouse.y)) ==> s.left_pressed(
            m,
            w,
            now,
        ).overlay == Overlay::NewSession,
        !inside(s.mouse.new_tab, pixel(s.mouse.x), pixel(s.mouse.y)) && s.close_mark_at(
            s.mouse.x,
            s.mouse.y,
        ) == Some(i) && 0 <= i < s.board.tabs.len() ==> s.left_pressed(m, w, now).board.tabs
            == if s.board.slots[i].pinned {
            s.board.tabs
        } else {
            s.board.tabs.remove(i)
        },
{
    reveal(ShellView::left_pressed);
    reveal(ShellView::new_tab_pressed);
    reveal(ShellView::mark_pressed);
}

/// The tab under the pointer is the first whose span in the bar holds it.
pub proof fn law_tab_under_the_pointer(rects: Seq<(usize, usize)>, x: int)
    ensures
        match span_at(rects, x, 0) {
            Some(i) => 0 <= i < rects.len() && rects[i].0 <= x < rects[i].1 && forall|j: int|
                0 <= j < i ==> !((#[trigger] rects[j]).0 <= x < rects[j].1),
            None => forall|j: int| 0 <= j < rects.len() ==> !((#[trigger] rects[j]).0 <= x < rects[j].1),
        },
{
    lemma_span(rects, x, 0);
}

proof fn lemma_span(rects: Seq<(usize, usize)>, x: int, from: int)
    requires
        0 <= from <= rects.len(),
    ensures
        match span_at(rects, x, from) {
            Some(i) => from <= i < rects.len() && rects[i].0 <= x < rects[i].1 && forall|j: int|
                from <= j < i ==> !((#[trigger] rects[j]).0 <= x < rects[j].1),
            None => forall|j: int| from <= j < rects.len() ==> !((#[trigger] rects[j]).0 <= x
                < rects[j].1),
        },
    decreases rects.len() - from,
{
    if from < rects.len() && !(rects[from].0 <= x < rects[from].1) {
        lemma_span(rects, x, from + 1);
    }
}

/// A tab that is dragged over another takes its place once the pointer is past that one's middle.
pub proof fn law_drag_needs_the_middle(s: ShellView, w: Seq<usize>, from: usize, to: int)
    requires
        s.wf(),
        s.board.drag == Some(from),
        from < s.board.tabs.len(),
        0 <= to < s.board.tabs.len(),
        to != from,
        s.drawn(),
        s.tab_at(w, s.mouse.x, 4) == Some(to),
        0 <= s.mouse.x < usize::MAX,
    ensures
        ({
            let (a, b) = s.mouse.rects[to];
            let past = 2 * s.mouse.x >= a + b;
            let t = s.dragging(w).board;
            &&& (to > from && past) || (to < from && !past) ==> t.drag == Some(to as usize) && t.dragged
                && t.tabs[to] == s.board.tabs[from as int] && t.slots[to] == s.board.slots[from as int]
            &&& (to > from && !past) || (to < from && past) ==> t == s.board
        }),
{
    reveal(ShellView::dragging);
}

/// The right button opens the menu where none is open and closes it where one is; the middle button
/// pastes, without marks.
pub proof fn law_other_buttons(
    s: ShellView,
    m: Mods,
    link: bool,
    selection: bool,
    w: Seq<usize>,
    widths: Seq<usize>,
    now: u64,
)
    requires
        s.wf(),
        s.board.tabs.len() > 0,
        s.overlay == Overlay::Closed,
        !told_of_the_mouse(s),
    ensures
        ({
            let right = s.buttoned(MouseButton::Right, true, m, link, selection, w, widths, now);
            let middle = s.buttoned(MouseButton::Middle, true, m, link, selection, w, widths, now);
            &&& s.menu is Some ==> right.menu is None
            &&& s.menu is None ==> (right.menu matches Some(menu) && menu.items == menu_items(
                link,
                selection,
                !s.board.tabs[s.board.active as int].seen.alive
                    && !s.board.tabs[s.board.active as int].seen.pty,
            ))
            &&& s.menu is None ==> middle.board.todo == s.board.todo.push(Act::PasteRaw).push(Act::Redraw)
        }),
{
    law_program_is_not_told(s);
    reveal(ShellView::button_used);
    reveal(ShellView::menu_opened);
}

/// The menu offers what applies: a link only over one, the search only with a selection, and to
/// reconnect only what is down; all else always.
pub proof fn law_menu_offers(link: bool, selection: bool, down: bool)
    ensures
        ({
            let v = menu_items(link, selection, down);
            &&& v.contains(CtxAction::OpenLink) == link
            &&& v.contains(CtxAction::SearchSelection) == selection
            &&& v.contains(CtxAction::Reconnect) == down
            &&& v.contains(CtxAction::Copy) && v.contains(CtxAction::Paste) && v.contains(
                CtxAction::SelectAll,
            ) && v.contains(CtxAction::Interrupt) && v.contains(CtxAction::Duplicate) && v.contains(
                CtxAction::MuteToggle,
            ) && v.contains(CtxAction::NewSession) && v.contains(CtxAction::CloseTab)
            &&& v[0] == CtxAction::Copy && v.last() == CtxAction::CloseTab
        }),
{
    let v = menu_items(link, selection, down);
    let k = (if link {
        1int
    } else {
        0
    });
    let l = k + (if selection {
        1int
    } else {
        0
    });
    let n = l + (if down {
        1int
    } else {
        0
    });
    assert(v.len() == 10 + n);
    assert(v[0] == CtxAction::Copy && v[1] == CtxAction::Paste && v[2 + k] == CtxAction::SelectAll);
    assert(link ==> v[2] == CtxAction::OpenLink);
    assert(selection ==> v[3 + k] == CtxAction::SearchSelection);
    assert(v[3 + l] == CtxAction::Separator && v[4 + l] == CtxAction::Interrupt);
    assert(down ==> v[5 + l] == CtxAction::Reconnect);
    assert(v[5 + n] == CtxAction::Duplicate && v[6 + n] == CtxAction::MuteToggle && v[7 + n]
        == CtxAction::Separator && v[8 + n] == CtxAction::NewSession && v[9 + n] == CtxAction::CloseTab);
    assert forall|i: int| 0 <= i < v.len() implies (v[i] == CtxAction::OpenLink ==> link) && (v[i]
        == CtxAction::SearchSelection ==> selection) && (v[i] == CtxAction::Reconnect ==> down) by {}
}

/// The rows of the menu do what they say.
pub proof fn law_menu_rows_do(s: ShellView, now: u64)
    requires
        s.wf(),
        s.board.tabs.len() > 0,
    ensures
        ({
            let b = s.board;
            let a = b.active as int;
            &&& s.menu_run(CtxAction::Copy, now).board.todo == b.todo.push(Act::CopySelection)
            &&& s.menu_run(CtxAction::Paste, now).board.todo == b.todo.push(Act::Paste)
            &&& s.menu_run(CtxAction::SelectAll, now).board.todo == b.todo.push(Act::SelectAll)
            &&& s.menu_run(CtxAction::SearchSelection, now).board.todo == b.todo.push(
                Act::SearchSelection,
            )
            &&& s.menu_run(CtxAction::Interrupt, now).board.todo == b.todo.push(Act::Interrupt(b.active))
            &&& !b.tabs[a].seen.alive && !b.tabs[a].seen.pty ==> s.menu_run(
                CtxAction::Reconnect,
                now,
            ).board.todo.contains(Act::Retry(b.active))
            &&& s.menu_run(CtxAction::Duplicate, now).board.todo == b.todo.push(Act::Duplicate)
            &&& s.menu_run(CtxAction::MuteToggle, now).board.slots == b.slots.update(
                a,
                Slot { muted: !b.slots[a].muted, ..b.slots[a] },
            )
            &&& s.menu_run(CtxAction::NewSession, now).overlay == Overlay::NewSession
            &&& !b.slots[a].pinned ==> s.menu_run(CtxAction::CloseTab, now).board.tabs == b.tabs.remove(a)
            &&& b.slots[a].pinned ==> s.menu_run(CtxAction::CloseTab, now).board.tabs == b.tabs
        }),
{
    reveal(ShellView::menu_run);
    reveal(ShellView::menu_text_run);
    reveal(ShellView::menu_session_run);
    reveal(BoardView::interrupted);
    reveal(BoardView::active_retried);
    reveal(BoardView::active_mute_turned);
    let b = s.board;
    let c = s.menu_run(CtxAction::Reconnect, now).board;
    let a = b.active as int;
    if !b.tabs[a].seen.alive && !b.tabs[a].seen.pty {
        assert(c.todo[b.todo.len() as int] == Act::Retry(b.active));
    }
}

/// The focus of the menu steps to a row that can be selected.
pub proof fn law_menu_steps(menu: MenuView)
    requires
        menu.sel < menu.items.len() <= usize::MAX,
        menu.items[menu.sel as int] != CtxAction::Separator,
    ensures
        ({
            let t = menu.turned(true);
            t.sel < menu.items.len() && t.items == menu.items && menu.items[t.sel as int]
                != CtxAction::Separator
        }),
{
    law_next_set(item_mask(menu.items), menu.sel as int, menu.sel as int);
}

/// A row of the menu is hit by the places it takes: the first row by those from the menu's top on.
pub proof fn law_menu_row_is_hit(items: Seq<CtxAction>, top: int, row_h: int, y: int)
    requires
        items.len() > 0,
        items[0] != CtxAction::Separator,
        0 < row_h,
    ensures
        top <= y < top + row_h ==> row_at(items, top, row_h, y) == Some(items[0]),
        y >= top + row_h ==> row_at(items, top, row_h, y) == row_at(
            items.drop_first(),
            top + row_h,
            row_h,
            y,
        ),
{
}

/// The tab under the pointer is noted, and forgotten when the pointer leaves it.
pub proof fn law_hover(s: ShellView, w: Seq<usize>)
    ensures
        s.hovering(w).board.hover == match s.tab_at(w, s.mouse.x, s.mouse.y) {
            Some(i) => Some(i as usize),
            None => None,
        },
        s.hovering(w).board.tabs == s.board.tabs,
{
    reveal(ShellView::hovering);
}

/// A press counts on from the last one, up to three, where that was less than a quarter of a second
/// and less than four pixels away; else it is the first.
pub proof fn law_presses_in_a_row(s: ShellView, now: u64, t: u64, x: i64, y: i64, n: u32)
    requires
        s.mouse.press == Some((t, x, y, n)),
        t <= now,
        0 < n <= 3,
    ensures
        ({
            let (dx, dy) = (s.mouse.x - x, s.mouse.y - y);
            let near = now - t < 250 && dx * dx + dy * dy < 4 * 4;
            &&& near && n < 3 ==> s.clicks(now) == n + 1
            &&& near && n == 3 ==> s.clicks(now) == 3
            &&& !near ==> s.clicks(now) == 1
        }),
{
    let (dx, dy) = (s.mouse.x - x, s.mouse.y - y);
    let (ex, ey) = (x - s.mouse.x, y - s.mouse.y);
    assert(dx * dx == ex * ex && dy * dy == ey * ey) by (nonlinear_arith)
        requires
            dx == -ex,
            dy == -ey,
    ;
}

/// A press on a tile of the fleet grid brings it into focus; a second one goes to its session and
/// closes the grid. A press beside the tiles does nothing.
pub proof fn law_tile_is_pressed(s: ShellView, now: u64, i: int)
    requires
        0 <= i < s.board.tabs.len() <= usize::MAX,
    ensures
        ({
            let t = s.metrics.tiles(s.board.focus, s.board.tabs.len() as int);
            let at = tile_at(
                pixel(s.mouse.x),
                pixel(s.mouse.y),
                t.x0 as int,
                t.y0 as int,
                t.tw as int,
                t.th as int,
                t.cols as int,
                t.n as int,
                t.height as int,
            );
            let c = s.tile_pressed(now);
            &&& at is None ==> c == s
            &&& at == Some(i) ==> c.grid_sel == i
            &&& at == Some(i) && s.mouse.press is None ==> c.overlay == s.overlay && c.board.active
                == s.board.active
            &&& at == Some(i) && s.clicks(now) >= 2 ==> c.overlay == Overlay::Closed && c.board.active
                == i
        }),
{
    reveal(ShellView::tile_pressed);
}

/// The closing mark of a tab takes its last fourteen pixels, while the pointer is on that tab.
pub proof fn law_closing_mark(s: ShellView, x: i64, y: i64, i: int)
    requires
        0 <= x < usize::MAX,
        s.board.hover is Some,
        s.board.hover->0 < s.mouse.rects.len(),
    ensures
        ({
            let h = s.board.hover->0 as int;
            let end = s.mouse.rects[h].1;
            &&& s.close_mark_at(x, y) == Some(i) ==> i == h && end - 14 <= x < end && 0 <= y
                < s.bars().0
            &&& end - 14 <= x < end && 0 <= y < s.bars().0 ==> s.close_mark_at(x, y) == Some(h)
        }),
{
    reveal(ShellView::close_mark_at);
}

/// Where a label stands in a row of labels that starts at `from`, each with a gap of twelve pixels
/// behind it.
pub open spec fn label_x(w: Seq<usize>, from: int, i: int) -> int
    decreases i,
{
    if i <= 0 {
        from
    } else {
        label_x(w, from, i - 1) + w[i - 1] + 12
    }
}

/// Before the tabs were drawn, the tab under the pointer is the one whose label stands there.
pub proof fn law_label_under_the_pointer(w: Seq<usize>, x: int, end: int, k: int, i: int)
    requires
        0 <= k <= i < w.len(),
        label_at(w, x, end, label_x(w, 6, k), k) == Some(i),
    ensures
        label_x(w, 6, i) <= x < label_x(w, 6, i) + w[i] + 12,
    decreases w.len() - k,
{
    if !(label_x(w, 6, k) <= x < label_x(w, 6, k) + w[k] + 12) {
        assert(label_x(w, 6, k + 1) == label_x(w, 6, k) + w[k] + 12);
        lemma_label_behind(w, x, end, label_x(w, 6, k + 1), k + 1);
        law_label_under_the_pointer(w, x, end, k + 1, i);
    }
}

proof fn lemma_label_behind(w: Seq<usize>, x: int, end: int, cx: int, from: int)
    requires
        0 <= from,
    ensures
        label_at(w, x, end, cx, from) matches Some(i) ==> from <= i < w.len(),
    decreases w.len() - from,
{
    if from < w.len() {
        lemma_label_behind(w, x, end, cx + w[from] + 12, from + 1);
    }
}

/// A press on the preview of a tab goes to that tab and closes the preview; one on the scroll bar
/// holds the view there.
pub proof fn law_preview_is_pressed(s: ShellView, i: usize)
    requires
        s.board.wf(),
        !s.board.native,
        i < s.board.tabs.len(),
    ensures
        s.board.hover == Some(i) ==> s.tip_pressed().board.active == i,
        s.tip_pressed().board.tip is None,
        s.tip_pressed().board.tabs == s.board.tabs,
        s.bar_pressed().board.tabs[s.board.active as int].scrolled,
        s.bar_pressed().board.todo == s.board.todo.push(Act::Track(s.mouse.y)).push(Act::Redraw),
{
    reveal(ShellView::tip_pressed);
    reveal(ShellView::bar_pressed);
    law_tab_is_gone_to(s.board, i);
}

/// A program that asked for motion is told of every new cell once, by one code while the button is
/// held and by another while it is not.
pub proof fn law_motion_is_told(s: ShellView, c: (int, int), m: Mods)
    requires
        0 <= c.0 <= usize::MAX,
        0 <= c.1 <= usize::MAX,
        !m.shift && !m.alt && !m.control,
    ensures
        ({
            let told = Some((c.0 as usize, c.1 as usize));
            let code = if s.mouse.held {
                32u16
            } else {
                35u16
            };
            let t = s.motion_told(c, m);
            &&& s.mouse.told == told ==> t == s
            &&& s.mouse.told != told ==> t.board.todo == s.board.todo.push(
                Act::MouseReport(code, c.0 as usize, c.1 as usize, false),
            )
            &&& t.mouse.told == told && t.motion_told(c, m) == t
        }),
{
    reveal(ShellView::motion_told);
}

/// The pointer turns into a hand where it comes over a link, and back where it leaves it.
pub proof fn law_hand_over_links(s: ShellView, link: bool)
    ensures
        s.linking(link).mouse.over_link == link,
        s.mouse.over_link == link ==> s.linking(link) == s,
        s.mouse.over_link != link ==> s.linking(link).board.todo == s.board.todo.push(
            Act::Hand(link),
        ),
{
    reveal(ShellView::linking);
}

/// What is dragged follows the pointer: a tab, or the end of a selection; nothing does while an
/// overlay is open.
pub proof fn law_drag_follows_the_pointer(s: ShellView, w: Seq<usize>)
    ensures
        s.overlay != Overlay::Closed ==> s.pulled(w) == s,
        s.overlay == Overlay::Closed && s.board.drag is None && s.mouse.anchor is None ==> s.pulled(w)
            == s,
        s.overlay == Overlay::Closed && s.board.drag is None && s.mouse.anchor is Some ==> s.pulled(
            w,
        ).board.todo == s.extending().board.todo.push(Act::Redraw),
        s.overlay == Overlay::Closed && s.board.drag is Some ==> s.pulled(w).board.tabs == s.dragging(
            w,
        ).board.tabs,
{
    reveal(ShellView::pulled);
}

} // verus!
