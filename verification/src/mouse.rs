//! The pointer: what lies under it, and what its buttons and its wheel do.

use alacritty_terminal::term::TermMode;
use vstd::prelude::*;
use vstd::string::*;

use crate::board::{Act, BoardView};
use crate::geometry::{plus, Tiles};
use crate::glyph::{Face, GlyphCache};
use crate::keys::{
    button_code, mouse_modifiers, sgr_button_code, sgr_motion_code, sgr_wheel_code, MouseButton,
    Mods,
};
use crate::lettering::{clamped, covers_all, text_widths, widths_of};
use crate::menu::{
    ctx_items, item_labels, labels_of, menu_items, menu_row_h, placed_menu, row_height, CtxAction,
    CtxMenu,
};
use crate::paint::Bitmap;
use crate::shell::{Overlay, PointerView, Shell, ShellView};
use crate::tabs::{on_one_line, one_line, Tab, TabView};
use crate::text::{copy_text, texts};
use crate::triage::{grid_tile_at, tile_at};
use crate::words::{clip_dots, clipped};

verus! {

/// The modes in which a program wants to be told of the mouse: clicks, motion, dragging.
pub const MOUSE_MODES: u32 = 0x2048;

/// The modes in which it wants to be told of motion too.
pub const MOVE_MODES: u32 = 0x2040;

/// The mode in which it reads reports in the SGR form.
pub const SGR_MODE: u32 = 0x20;

/// `TermMode::intersects` of the terminal emulator: whether some bit of the second value is set in
/// the first.
#[verifier::external_body]
fn mode_has(mode: u32, mask: u32) -> (r: bool)
    ensures
        r == (mode & mask != 0),
{
    TermMode::from_bits_retain(mode).intersects(TermMode::from_bits_retain(mask))
}

impl ShellView {
    /// The heights of the bars above and below the grid.
    pub open spec fn bars(self) -> (int, int) {
        if self.board.native {
            (
                0,
                if self.status_bar {
                    self.metrics.cell_h as int
                } else {
                    0
                },
            )
        } else {
            (self.metrics.top(self.board.focus), self.metrics.bottom(self.board.focus))
        }
    }

    /// The row and the column of the grid at a place of the window.
    pub open spec fn cell(self, x: int, y: int) -> Option<(int, int)> {
        self.metrics.cell_at(self.bars().0, self.bars().1, x, y)
    }

    /// The cell of the live screen under a point, where the active session's view shows it.
    pub open spec fn live_cell(self, x: int, y: int) -> Option<(int, int)> {
        let b = self.board;
        match self.cell(x, y) {
            Some(c) => if b.active < b.tabs.len() && !b.tabs[b.active as int].scrolled && c.0
                < b.tabs[b.active as int].lines && b.tabs[b.active as int].cols > 0 {
                Some(
                    (
                        c.0,
                        if c.1 < b.tabs[b.active as int].cols {
                            c.1
                        } else {
                            b.tabs[b.active as int].cols - 1
                        },
                    ),
                )
            } else {
                None
            },
            None => None,
        }
    }

    /// With what stands under a point opened.
    #[verifier::opaque]
    pub open spec fn opened_at(self, x: int, y: int) -> ShellView {
        match self.live_cell(x, y) {
            Some(c) => self.asks(Act::Open(c.0 as usize, c.1 as usize)),
            None => self,
        }
    }
}

impl Shell {
    /// The heights of the bars above and below the grid.
    pub fn grid_bars(&self) -> (r: (usize, usize))
        ensures
            (r.0 as int, r.1 as int) == self@.bars(),
    {
        if self.board.native {
            (
                0,
                if self.status_bar {
                    self.metrics.cell_h
                } else {
                    0
                },
            )
        } else {
            (
                self.metrics.chrome_top(self.board.focus),
                self.metrics.chrome_bottom(self.board.focus),
            )
        }
    }

    /// The row and the column of the grid at a place of the window.
    pub fn cell_under(&self, x: i64, y: i64) -> (r: Option<(usize, usize)>)
        ensures
            match r {
                Some(c) => self@.cell(x as int, y as int) == Some((c.0 as int, c.1 as int)) && c.0
                    < usize::MAX && c.1 < usize::MAX,
                None => self@.cell(x as int, y as int) is None,
            },
    {
        let (top, bottom) = self.grid_bars();
        self.metrics.mouse_to_cell(top, bottom, x, y)
    }

    /// The cell of the live screen under a point.
    pub fn live_cell_under(&self, x: i64, y: i64) -> (r: Option<(usize, usize)>)
        ensures
            match r {
                Some(c) => self@.live_cell(x as int, y as int) == Some((c.0 as int, c.1 as int)),
                None => self@.live_cell(x as int, y as int) is None,
            },
    {
        let i: usize = self.board.active;
        match self.cell_under(x, y) {
            Some(c) => {
                if i < self.board.tabs.len() && !self.board.tabs[i].scrolled && (c.0 as u64)
                    < self.board.tabs[i].lines as u64 && self.board.tabs[i].cols > 0 {
                    let n: usize = self.board.tabs[i].cols;
                    Some(
                        (
                            c.0,
                            if c.1 < n {
                                c.1
                            } else {
                                n - 1
                            },
                        ),
                    )
                } else {
                    None
                }
            },
            None => None,
        }
    }

    /// Opens what stands under a point.
    pub fn mouse_open(&mut self, x: i64, y: i64)
        ensures
            final(self)@ == old(self)@.opened_at(x as int, y as int),
            final(self)@.wf() == old(self)@.wf(),
    {
        proof {
            reveal(ShellView::opened_at);
        }
        if let Some(c) = self.live_cell_under(x, y) {
            self.board.ask(Act::Open(c.0, c.1));
        }
    }
}

/// A place of the window, which has no pixels before its corner.
pub open spec fn pixel(at: i64) -> int {
    if at < 0 {
        0
    } else {
        clamped(at as int)
    }
}

/// A place of the window, as a number of pixels from its corner.
pub fn pixel_of(at: i64) -> (r: usize)
    ensures
        r == pixel(at),
{
    if at < 0 {
        0
    } else if at as u64 as u128 >= usize::MAX as u128 {
        usize::MAX
    } else {
        at as usize
    }
}

/// Whether a point lies in a rectangle, given by its corner and its size.
pub open spec fn inside(r: Option<(usize, usize, usize, usize)>, x: int, y: int) -> bool {
    match r {
        Some(b) => b.0 <= x < clamped(b.0 + b.2) && b.1 <= y < clamped(b.1 + b.3),
        None => false,
    }
}

fn is_inside(r: Option<(usize, usize, usize, usize)>, x: usize, y: usize) -> (b: bool)
    ensures
        b == inside(r, x as int, y as int),
{
    match r {
        Some(b) => b.0 <= x && x < plus(b.0, b.2) && b.1 <= y && y < plus(b.1, b.3),
        None => false,
    }
}

fn squared(d: i128) -> (r: i128)
    requires
        -4 < d < 4,
    ensures
        r == d * d,
        0 <= r <= 9,
{
    proof {
        assert(0 <= d * d <= 9) by (nonlinear_arith)
            requires
                -4 < d < 4,
        ;
    }
    d * d
}

/// The first of the spans that holds a place.
pub open spec fn span_at(rects: Seq<(usize, usize)>, x: int, from: int) -> Option<int>
    decreases rects.len() - from,
{
    if from < 0 || from >= rects.len() {
        None
    } else if rects[from].0 <= x < rects[from].1 {
        Some(from)
    } else {
        span_at(rects, x, from + 1)
    }
}

fn find_span(rects: &Vec<(usize, usize)>, x: usize) -> (r: Option<usize>)
    ensures
        match r {
            Some(i) => span_at(rects@, x as int, 0) == Some(i as int) && i < rects@.len(),
            None => span_at(rects@, x as int, 0) is None,
        },
{
    let mut i: usize = 0;
    while i < rects.len()
        invariant
            i <= rects@.len(),
            span_at(rects@, x as int, 0) == span_at(rects@, x as int, i as int),
        decreases rects@.len() - i,
    {
        let r = rects[i];
        if r.0 <= x && x < r.1 {
            return Some(i);
        }
        i = i + 1;
    }
    None
}

/// The label that lies at `x` where labels of these widths stand one after the other from `cx` on,
/// each with a gap behind it; none that starts beyond `end`.
pub open spec fn label_at(w: Seq<usize>, x: int, end: int, cx: int, from: int) -> Option<int>
    decreases w.len() - from,
{
    if from < 0 || from >= w.len() {
        None
    } else if cx <= x < cx + w[from] + 12 {
        Some(from)
    } else if cx + w[from] + 12 > end {
        None
    } else {
        label_at(w, x, end, cx + w[from] + 12, from + 1)
    }
}

/// Whether `x` lies in the further half of the label at it; see [`label_at`].
pub open spec fn label_past(w: Seq<usize>, x: int, end: int, cx: int, from: int) -> bool
    decreases w.len() - from,
{
    if from < 0 || from >= w.len() {
        false
    } else if cx <= x < cx + w[from] + 12 {
        2 * (x - cx) >= w[from] + 12
    } else if cx + w[from] + 12 > end {
        false
    } else {
        label_past(w, x, end, cx + w[from] + 12, from + 1)
    }
}

fn is_label_past(w: &Vec<usize>, x: i64, width: usize) -> (r: bool)
    ensures
        r == label_past(w@, x as int, width - 20, 6, 0),
{
    let end: i128 = width as i128 - 20;
    let at: i128 = x as i128;
    let mut cx: i128 = 6;
    let mut i: usize = 0;
    while i < w.len()
        invariant
            i <= w@.len(),
            end == width - 20,
            at == x,
            6 <= cx,
            i == 0 || cx <= end,
            i == 0 ==> cx == 6,
            label_past(w@, x as int, width - 20, 6, 0) == label_past(
                w@,
                x as int,
                width - 20,
                cx as int,
                i as int,
            ),
        decreases w@.len() - i,
    {
        let next: i128 = cx + w[i] as i128 + 12;
        if cx <= at && at < next {
            return 2 * (at - cx) >= w[i] as i128 + 12;
        }
        if next > end {
            return false;
        }
        cx = next;
        i = i + 1;
    }
    false
}

fn find_label(w: &Vec<usize>, x: i64, width: usize) -> (r: Option<usize>)
    ensures
        match r {
            Some(i) => label_at(w@, x as int, width - 20, 6, 0) == Some(i as int),
            None => label_at(w@, x as int, width - 20, 6, 0) is None,
        },
{
    let end: i128 = width as i128 - 20;
    let at: i128 = x as i128;
    let mut cx: i128 = 6;
    let mut i: usize = 0;
    while i < w.len()
        invariant
            i <= w@.len(),
            end == width - 20,
            at == x,
            6 <= cx,
            i == 0 || cx <= end,
            i == 0 ==> cx == 6,
            label_at(w@, x as int, width - 20, 6, 0) == label_at(
                w@,
                x as int,
                width - 20,
                cx as int,
                i as int,
            ),
        decreases w@.len() - i,
    {
        let next: i128 = cx + w[i] as i128 + 12;
        if cx <= at && at < next {
            return Some(i);
        }
        if next > end {
            return None;
        }
        cx = next;
        i = i + 1;
    }
    None
}

fn same_tab(a: Option<usize>, b: Option<usize>) -> (r: bool)
    ensures
        r == (a == b),
{
    match (a, b) {
        (Some(i), Some(k)) => i == k,
        (None, None) => true,
        _ => false,
    }
}

impl TabView {
    /// About what stands on the tab in the bar.
    pub open spec fn rough_label(self) -> Seq<char> {
        " ○ "@ + self.head() + " "@ + clipped(one_line(self.doing()), 18) + " ○ "@
    }
}

impl Tab {
    fn rough_text(&self) -> (r: String)
        ensures
            r@ == self@.rough_label(),
    {
        let mut s = copy_text(" ○ ");
        s.append(self.head());
        s.append(" ");
        s.append(clip_dots(on_one_line(self.doing()).as_str(), 18).as_str());
        s.append(" ○ ");
        s
    }
}

/// About what stands on the tabs in the bar.
pub open spec fn rough_labels(tabs: Seq<TabView>) -> Seq<Seq<char>> {
    tabs.map_values(|t: TabView| t.rough_label())
}

impl ShellView {
    /// The spans of the last frame belong to the tabs there are.
    pub open spec fn drawn(self) -> bool {
        self.mouse.rects.len() == self.board.tabs.len() && self.mouse.rects.len() > 0
    }

    /// How wide the labels of the tabs are about.
    pub open spec fn label_widths(self, m: Map<u64, Bitmap>) -> Seq<usize> {
        widths_of(m, rough_labels(self.board.tabs), self.metrics.font_px)
    }

    /// The tab of the bar at a place: where it was drawn, or before the first frame about where it
    /// will be, given the widths of the labels.
    #[verifier::opaque]
    pub open spec fn tab_at(self, w: Seq<usize>, x: i64, y: i64) -> Option<int> {
        if self.board.focus || y < 0 || y >= self.bars().0 || x < 6 {
            None
        } else if self.drawn() {
            span_at(self.mouse.rects, pixel(x), 0)
        } else {
            label_at(w, x as int, self.metrics.width - 20, 6, 0)
        }
    }

    /// Whether a place in the tab at it lies in the further half.
    pub open spec fn past_middle(self, w: Seq<usize>, x: i64, i: int) -> bool {
        if self.drawn() {
            2 * pixel(x) >= self.mouse.rects[i].0 + self.mouse.rects[i].1
        } else {
            label_past(w, x as int, self.metrics.width - 20, 6, 0)
        }
    }

    /// The tab whose closing mark lies at a place: the end of the tab under the pointer.
    #[verifier::opaque]
    pub open spec fn close_mark_at(self, x: i64, y: i64) -> Option<int> {
        match self.board.hover {
            Some(i) => if 0 <= y < self.bars().0 && i < self.mouse.rects.len() && pixel(x)
                >= self.mouse.rects[i as int].1 - 14 && pixel(x) < self.mouse.rects[i as int].1 {
                Some(i as int)
            } else {
                None
            },
            None => None,
        }
    }

    /// Whether the active session's program is to be told of the mouse, and if so, of motion too.
    /// What lies over the grid has the mouse first.
    #[verifier::opaque]
    pub open spec fn reporting(self) -> Option<bool> {
        let b = self.board;
        if self.overlay != Overlay::Closed || self.menu is Some || self.copy.on || b.active
            >= b.tabs.len() {
            None
        } else {
            let mode = b.tabs[b.active as int].mode;
            if mode & MOUSE_MODES != 0 && mode & SGR_MODE != 0 {
                Some(mode & MOVE_MODES != 0)
            } else {
                None
            }
        }
    }

    /// Where the pointer is on the grid, counted from one as reports are, where the active
    /// session's program is to be told of it.
    pub open spec fn report_cell(self) -> Option<(int, int)> {
        match self.reporting() {
            Some(motion) => match self.cell(self.mouse.x as int, self.mouse.y as int) {
                Some(c) => Some((c.1 + 1, c.0 + 1)),
                None => None,
            },
            None => None,
        }
    }

    pub open spec fn pointing(self, mouse: PointerView) -> ShellView {
        ShellView { mouse, ..self }
    }

    /// How many presses this one makes in a row: one more than the last where that was just now and
    /// near, up to three.
    pub open spec fn clicks(self, now: u64) -> u32 {
        match self.mouse.press {
            Some(p) => {
                let (dx, dy) = (p.1 - self.mouse.x, p.2 - self.mouse.y);
                if p.0 <= now < p.0 + 250 && dx * dx + dy * dy < 16 {
                    if p.3 < 3 {
                        (p.3 + 1) as u32
                    } else {
                        3
                    }
                } else {
                    1
                }
            },
            None => 1,
        }
    }

    /// With the press counted.
    pub open spec fn clicked(self, now: u64) -> ShellView {
        self.pointing(
            PointerView {
                press: Some((now, self.mouse.x, self.mouse.y, self.clicks(now))),
                ..self.mouse
            },
        )
    }

    /// With a selection started under the pointer: of characters, at a second press of a word, at a
    /// third of whole lines. A press beside the grid clears the selection.
    #[verifier::opaque]
    pub open spec fn selecting(self, now: u64) -> ShellView {
        let there = self.board.active < self.board.tabs.len();
        match self.cell(self.mouse.x as int, self.mouse.y as int) {
            Some(c) => {
                let n = self.clicks(now);
                let s = self.clicked(now);
                let s = s.pointing(
                    PointerView { anchor: Some((c.0 as usize, c.1 as usize)), ..s.mouse },
                );
                if !there {
                    s
                } else if n == 2 {
                    s.asks(Act::SelectWord(c.0 as usize, c.1 as usize))
                } else if n == 3 {
                    s.asks(Act::SelectLines(c.0 as usize, c.1 as usize))
                } else {
                    s.asks(Act::Select(c.0 as usize, c.1 as usize))
                }
            },
            None => {
                let s = self.pointing(PointerView { anchor: None, press: None, ..self.mouse });
                if there {
                    s.asks(Act::Unselect)
                } else {
                    s
                }
            },
        }
    }

    /// With the selection reaching up to the pointer.
    #[verifier::opaque]
    pub open spec fn extending(self) -> ShellView {
        match self.cell(self.mouse.x as int, self.mouse.y as int) {
            Some(c) => if self.board.active < self.board.tabs.len() {
                self.asks(Act::Extend(c.0 as usize, c.1 as usize))
            } else {
                self
            },
            None => self,
        }
    }

    /// With the selection that was being drawn finished and copied.
    #[verifier::opaque]
    pub open spec fn selected_text(self) -> ShellView {
        if self.mouse.anchor is Some {
            let s = self.extending();
            s.pointing(PointerView { anchor: None, ..s.mouse }).asks(Act::CopySelection)
        } else {
            self
        }
    }

    /// With the text cursor of a line editor asked to the pointer; only on the live screen.
    #[verifier::opaque]
    pub open spec fn cursor_called(self) -> ShellView {
        let b = self.board;
        match self.cell(self.mouse.x as int, self.mouse.y as int) {
            Some(c) => if b.active < b.tabs.len() && !b.tabs[b.active as int].scrolled {
                self.asks(Act::CursorTo((c.0 + 1) as usize, (c.1 + 1) as usize))
            } else {
                self
            },
            None => self,
        }
    }

    /// With the dragged tab brought to the one under the pointer, once the pointer has crossed the
    /// middle of that one.
    #[verifier::opaque]
    pub open spec fn dragging(self, w: Seq<usize>) -> ShellView {
        match self.board.drag {
            Some(from) => match self.tab_at(w, self.mouse.x, 4) {
                Some(to) => if self.board.tabs.len() >= 2 && to != from && (to > from)
                    == self.past_middle(w, self.mouse.x, to) {
                    self.on(
                        BoardView {
                            drag: Some(to as usize),
                            dragged: true,
                            ..self.board.reordered(from as int, to)
                        },
                    )
                } else {
                    self
                },
                None => self,
            },
            None => self,
        }
    }

    /// With the dragged tab let go: where it has changed its place, it stays there; over itself and
    /// never moved, that is a click, which makes it the active one.
    #[verifier::opaque]
    pub open spec fn dropped(self, w: Seq<usize>) -> ShellView {
        let b = BoardView { drag: None, dragged: false, ..self.board };
        let b = match self.board.drag {
            Some(i) => if !self.board.dragged && self.tab_at(w, self.mouse.x, self.mouse.y) == Some(
                i as int,
            ) {
                b.focused(i)
            } else {
                b
            },
            None => b,
        };
        self.on(b.asks(Act::SaveTabs))
    }

    /// Whether the pointer is on the scroll bar of a session with a scrollback.
    pub open spec fn on_scroll_bar(self) -> bool {
        let b = self.board;
        !b.focus && !b.native && b.active < b.tabs.len() && self.mouse.x >= self.metrics.width - 12
            && b.tabs[b.active as int].depth > 0
    }

    /// With the tile of the fleet grid under the pointer in focus; a second press goes there.
    #[verifier::opaque]
    pub open spec fn tile_pressed(self, now: u64) -> ShellView {
        let b = self.board;
        let t = self.metrics.tiles(b.focus, b.tabs.len() as int);
        match tile_at(
            pixel(self.mouse.x),
            pixel(self.mouse.y),
            t.x0 as int,
            t.y0 as int,
            t.tw as int,
            t.th as int,
            t.cols as int,
            t.n as int,
            t.height as int,
        ) {
            Some(i) => {
                let s = ShellView { grid_sel: i as usize, ..self }.clicked(now);
                let s = if self.clicks(now) >= 2 && i < b.tabs.len() {
                    s.on(s.board.placed(i)).over(Overlay::Closed)
                } else {
                    s
                };
                s.asks(Act::Redraw)
            },
            None => self,
        }
    }

    /// The rows of the context menu.
    pub open spec fn menu_rows(self, link: bool, selection: bool) -> Seq<CtxAction> {
        let b = self.board;
        menu_items(
            link,
            selection,
            b.active < b.tabs.len() && b.tabs[b.active as int].down(),
        )
    }

    /// How wide the rows of the context menu are.
    pub open spec fn menu_widths(
        self,
        m: Map<u64, Bitmap>,
        link: bool,
        selection: bool,
    ) -> Seq<usize> {
        widths_of(m, item_labels(self.menu_rows(link, selection)), self.metrics.font_px)
    }

    /// With the context menu open at the pointer, where there is a session.
    #[verifier::opaque]
    pub open spec fn menu_opened(
        self,
        link: bool,
        selection: bool,
        widths: Seq<usize>,
    ) -> ShellView {
        if self.board.active < self.board.tabs.len() {
            self.with_menu(
                Some(
                    placed_menu(
                        self.menu_rows(link, selection),
                        widths,
                        row_height(self.metrics.cell_h as int),
                        self.metrics.width as int,
                        self.metrics.height as int,
                        self.mouse.x,
                        self.mouse.y,
                    ),
                ),
            )
        } else {
            self
        }
    }

    /// With the row of the context menu under the pointer done, if there is one, and the menu
    /// closed.
    #[verifier::opaque]
    pub open spec fn menu_clicked(self, now: u64) -> ShellView {
        let s = match self.menu {
            Some(menu) => match menu.action_at(
                row_height(self.metrics.cell_h as int),
                self.mouse.x as int,
                self.mouse.y as int,
            ) {
                Some(a) => self.menu_run(a, now),
                None => self,
            },
            None => self,
        };
        s.with_menu(None).asks(Act::Redraw)
    }

    /// With the picker for a new session open, from the button at the end of the bar.
    #[verifier::opaque]
    pub open spec fn new_tab_pressed(self) -> ShellView {
        self.picking().with_menu(None).asks(Act::Redraw)
    }

    /// With a tab closed by its mark.
    #[verifier::opaque]
    pub open spec fn mark_pressed(self, i: int, now: u64) -> ShellView {
        self.on(self.board.closed(i, now)).with_menu(None).asks(Act::Redraw)
    }

    /// With a tab held, to be dragged or let go.
    #[verifier::opaque]
    pub open spec fn tab_pressed(self, i: int) -> ShellView {
        self.on(BoardView { drag: Some(i as usize), dragged: false, ..self.board }).asks(
            Act::Redraw,
        )
    }

    /// With the tab active whose preview was pressed.
    #[verifier::opaque]
    pub open spec fn tip_pressed(self) -> ShellView {
        let b = match self.board.hover {
            Some(i) => self.board.focused(i),
            None => self.board,
        };
        self.on(BoardView { tip: None, ..b }).asks(Act::Redraw)
    }

    /// With the view at the place of the scroll bar that was pressed, held there.
    #[verifier::opaque]
    pub open spec fn bar_pressed(self) -> ShellView {
        self.on(self.board.asks(Act::Track(self.mouse.y)).held(true)).asks(Act::Redraw)
    }

    /// With a selection started.
    #[verifier::opaque]
    pub open spec fn grid_pressed_at(self, now: u64) -> ShellView {
        self.on(BoardView { drag: None, dragged: false, ..self.board }).selecting(now).asks(
            Act::Redraw,
        )
    }

    /// After the left button was pressed where nothing lies over the grid.
    #[verifier::opaque]
    pub open spec fn left_pressed(self, m: Mods, w: Seq<usize>, now: u64) -> ShellView {
        let (x, y) = (self.mouse.x, self.mouse.y);
        if m.alt {
            self.cursor_called()
        } else if m.control || m.logo {
            self.opened_at(x as int, y as int)
        } else if inside(self.mouse.new_tab, pixel(x), pixel(y)) {
            self.new_tab_pressed()
        } else if self.close_mark_at(x, y) is Some {
            self.mark_pressed(self.close_mark_at(x, y).unwrap(), now)
        } else if self.tab_at(w, x, y) is Some {
            self.tab_pressed(self.tab_at(w, x, y).unwrap())
        } else if inside(self.board.tip, pixel(x), pixel(y)) {
            self.tip_pressed()
        } else if self.on_scroll_bar() {
            self.bar_pressed()
        } else {
            self.grid_pressed_at(now)
        }
    }

    /// After a button was pressed or let go that the active session's program was not told of.
    #[verifier::opaque]
    pub open spec fn button_used(
        self,
        button: MouseButton,
        pressed: bool,
        m: Mods,
        link: bool,
        selection: bool,
        w: Seq<usize>,
        widths: Seq<usize>,
        now: u64,
    ) -> ShellView {
        if self.overlay == Overlay::FleetGrid {
            if button == MouseButton::Left && pressed {
                self.tile_pressed(now)
            } else {
                self
            }
        } else if self.overlay != Overlay::Closed {
            self
        } else if button == MouseButton::Right {
            if !pressed {
                self
            } else if self.menu is Some {
                self.with_menu(None).asks(Act::Redraw)
            } else {
                self.menu_opened(link, selection, widths).asks(Act::Redraw)
            }
        } else if self.menu is Some {
            if pressed {
                self.menu_clicked(now)
            } else {
                self
            }
        } else if button == MouseButton::Middle {
            if pressed {
                self.asks(Act::PasteRaw).asks(Act::Redraw)
            } else {
                self
            }
        } else if button != MouseButton::Left {
            self
        } else if pressed {
            self.left_pressed(m, w, now)
        } else if self.board.drag is Some {
            self.dropped(w).asks(Act::Redraw)
        } else {
            self.selected_text().asks(Act::Redraw)
        }
    }

    /// After a button was pressed or let go. The active session's program is told of it where it
    /// asked for that, but the right button without the control key stays with the context menu.
    pub open spec fn buttoned(
        self,
        button: MouseButton,
        pressed: bool,
        m: Mods,
        link: bool,
        selection: bool,
        w: Seq<usize>,
        widths: Seq<usize>,
        now: u64,
    ) -> ShellView {
        let s = if button == MouseButton::Left {
            self.pointing(PointerView { held: pressed, ..self.mouse })
        } else {
            self
        };
        match s.report_cell() {
            Some(c) => if button != MouseButton::Right || m.control {
                s.asks(
                    Act::MouseReport(
                        (button_code(button, pressed) + mouse_modifiers(m)) as u16,
                        c.0 as usize,
                        c.1 as usize,
                        !pressed,
                    ),
                ).asks(Act::Redraw)
            } else {
                s.button_used(button, pressed, m, link, selection, w, widths, now)
            },
            None => s.button_used(button, pressed, m, link, selection, w, widths, now),
        }
    }

    /// After the wheel was turned, up or down, by so many lines. The active session's program is
    /// told of it where it asked for that. Over the bar the wheel turns through the tabs; else it
    /// scrolls.
    pub open spec fn wheeled(self, up: bool, lines: int, m: Mods) -> ShellView {
        let b = self.board;
        match self.report_cell() {
            Some(c) => self.asks(
                Act::MouseReport(
                    ((if up {
                        64int
                    } else {
                        65
                    }) + mouse_modifiers(m)) as u16,
                    c.0 as usize,
                    c.1 as usize,
                    false,
                ),
            ).asks(Act::Redraw),
            None => if self.mouse.y < self.bars().0 && b.tabs.len() > 1 {
                self.on(b.turned(!up)).asks(Act::Redraw)
            } else if lines > 0 {
                self.on(b.scrolled_by(lines).held(true)).asks(Act::Redraw)
            } else {
                self.on(b.scrolled_by(lines).settled()).asks(Act::Redraw)
            },
        }
    }

    /// With the tab under the pointer noted.
    #[verifier::opaque]
    pub open spec fn hovering(self, w: Seq<usize>) -> ShellView {
        let over = match self.tab_at(w, self.mouse.x, self.mouse.y) {
            Some(i) => Some(i as usize),
            None => None,
        };
        if over != self.board.hover {
            self.on(BoardView { hover: over, ..self.board }).asks(Act::Redraw)
        } else {
            self
        }
    }

    /// With the pointer shown as a hand over a link.
    #[verifier::opaque]
    pub open spec fn linking(self, link: bool) -> ShellView {
        if link != self.mouse.over_link {
            self.pointing(PointerView { over_link: link, ..self.mouse }).asks(Act::Hand(link))
        } else {
            self
        }
    }

    /// With the active session's program told of a cell that it was not told of last.
    #[verifier::opaque]
    pub open spec fn motion_told(self, c: (int, int), m: Mods) -> ShellView {
        let told = Some((c.0 as usize, c.1 as usize));
        if self.mouse.told == told {
            self
        } else {
            self.pointing(PointerView { told, ..self.mouse }).asks(
                Act::MouseReport(
                    ((if self.mouse.held {
                        32int
                    } else {
                        35
                    }) + mouse_modifiers(m)) as u16,
                    c.0 as usize,
                    c.1 as usize,
                    false,
                ),
            )
        }
    }

    /// After the pointer moved, with a link under it or not. The active session's program is told
    /// of each new cell where it asked for that.
    pub open spec fn moved_to(self, x: i64, y: i64, link: bool, m: Mods, w: Seq<usize>) -> ShellView {
        let s = self.pointing(PointerView { x, y, ..self.mouse });
        match s.report_cell() {
            Some(c) => if s.reporting() == Some(true) {
                s.motion_told(c, m)
            } else {
                s.moved_over(link, w)
            },
            None => s.moved_over(link, w),
        }
    }

    /// After the pointer moved and the active session's program was not told of it.
    #[verifier::opaque]
    pub open spec fn moved_over(self, link: bool, w: Seq<usize>) -> ShellView {
        self.hovering(w).linking(link).pulled(w)
    }

    /// With what is being dragged brought to the pointer: a tab, or the end of a selection.
    #[verifier::opaque]
    pub open spec fn pulled(self, w: Seq<usize>) -> ShellView {
        if self.overlay != Overlay::Closed {
            self
        } else if self.board.drag is Some {
            self.dragging(w).asks(Act::Redraw)
        } else if self.mouse.anchor is Some {
            self.extending().asks(Act::Redraw)
        } else {
            self
        }
    }

    /// After the pointer left the window, or the window lost the focus: a button may be let go
    /// unseen.
    pub open spec fn let_go(self) -> ShellView {
        self.pointing(PointerView { held: false, ..self.mouse })
    }
}

impl Shell {
    /// How wide the labels of the tabs are about; nothing where the last frame shows where they
    /// are.
    pub fn tab_widths<F: Face>(&self, cache: &mut GlyphCache<F>) -> (r: Vec<usize>)
        requires
            old(cache).wf(),
        ensures
            final(cache).extends(old(cache)),
            covers_all(final(cache)@, rough_labels(self@.board.tabs), self@.metrics.font_px),
            r@ == self@.label_widths(final(cache)@),
    {
        let ghost want = rough_labels(self@.board.tabs);
        let mut out: Vec<String> = Vec::new();
        let n: usize = self.board.tabs.len();
        let mut i: usize = 0;
        while i < n
            invariant
                i <= n,
                n == self.board.tabs@.len(),
                want == rough_labels(self@.board.tabs),
                texts(out@) == want.take(i as int),
            decreases n - i,
        {
            let t = self.board.tabs[i].rough_text();
            let ghost had = texts(out@);
            let ghost line = t@;
            out.push(t);
            proof {
                assert(self@.board.tabs[i as int] == self.board.tabs@[i as int]@);
                assert(want[i as int] == line);
                assert(texts(out@) =~= had.push(line));
                assert(want.take(i + 1) =~= want.take(i as int).push(line));
            }
            i = i + 1;
        }
        proof {
            assert(want.take(i as int) =~= want);
        }
        text_widths(cache, &out, self.metrics.font_px)
    }

    fn is_past_middle(&self, w: &Vec<usize>, x: i64, i: usize) -> (r: bool)
        requires
            self@.drawn() ==> i < self@.mouse.rects.len(),
        ensures
            r == self@.past_middle(w@, x, i as int),
    {
        if self.mouse.rects.len() == self.board.tabs.len() && self.mouse.rects.len() > 0 {
            let r = self.mouse.rects[i];
            2 * pixel_of(x) as u128 >= r.0 as u128 + r.1 as u128
        } else {
            is_label_past(w, x, self.metrics.width)
        }
    }

    /// The tab of the bar at a place.
    pub fn tab_under(&self, w: &Vec<usize>, x: i64, y: i64) -> (r: Option<usize>)
        ensures
            match r {
                Some(i) => self@.tab_at(w@, x, y) == Some(i as int) && (self@.drawn() ==> i
                    < self@.mouse.rects.len()),
                None => self@.tab_at(w@, x, y) is None,
            },
    {
        proof {
            reveal(ShellView::tab_at);
        }
        let top: usize = self.grid_bars().0;
        if self.board.focus || y < 0 || y as i128 >= top as i128 || x < 6 {
            None
        } else if self.mouse.rects.len() == self.board.tabs.len() && self.mouse.rects.len() > 0 {
            find_span(&self.mouse.rects, pixel_of(x))
        } else {
            find_label(w, x, self.metrics.width)
        }
    }

    /// The tab whose closing mark lies at a place.
    pub fn tab_close_at(&self, x: i64, y: i64) -> (r: Option<usize>)
        ensures
            match r {
                Some(i) => self@.close_mark_at(x, y) == Some(i as int),
                None => self@.close_mark_at(x, y) is None,
            },
    {
        proof {
            reveal(ShellView::close_mark_at);
        }
        let top: usize = self.grid_bars().0;
        let at: usize = pixel_of(x);
        match self.board.hover {
            Some(i) => {
                if y >= 0 && (y as i128) < top as i128 && i < self.mouse.rects.len() && at as i128
                    >= self.mouse.rects[i].1 as i128 - 14 && at < self.mouse.rects[i].1 {
                    Some(i)
                } else {
                    None
                }
            },
            None => None,
        }
    }

    /// Whether the active session's program is to be told of the mouse, and if so, of motion too.
    pub fn mouse_report_flags(&self) -> (r: Option<bool>)
        ensures
            r == self@.reporting(),
    {
        proof {
            reveal(ShellView::reporting);
        }
        if self.overlay != Overlay::Closed || self.menu.is_some() || self.copy.on
            || self.board.active >= self.board.tabs.len() {
            return None;
        }
        let mode: u32 = self.board.tabs[self.board.active].mode;
        proof {
            assert(self@.board.tabs[self.board.active as int].mode == mode);
        }
        if mode_has(mode, MOUSE_MODES) && mode_has(mode, SGR_MODE) {
            Some(mode_has(mode, MOVE_MODES))
        } else {
            None
        }
    }

    fn report_place(&self) -> (r: Option<(usize, usize)>)
        ensures
            match r {
                Some(c) => self@.report_cell() == Some((c.0 as int, c.1 as int)),
                None => self@.report_cell() is None,
            },
    {
        match self.mouse_report_flags() {
            Some(_) => match self.cell_under(self.mouse.x, self.mouse.y) {
                Some(c) => Some((c.1 + 1, c.0 + 1)),
                None => None,
            },
            None => None,
        }
    }

    /// Counts the presses in a row.
    pub fn click_count(&mut self, now: u64) -> (r: u32)
        ensures
            r == old(self)@.clicks(now),
            final(self)@ == old(self)@.clicked(now),
            final(self)@.wf() == old(self)@.wf(),
    {
        let n: u32 = match self.mouse.press {
            Some(p) => {
                let dx: i128 = p.1 as i128 - self.mouse.x as i128;
                let dy: i128 = p.2 as i128 - self.mouse.y as i128;
                let near = -4 < dx && dx < 4 && -4 < dy && dy < 4 && squared(dx) + squared(dy) < 16;
                proof {
                    if !(-4 < dx < 4) {
                        assert(dx * dx >= 16) by (nonlinear_arith)
                            requires
                                dx <= -4 || dx >= 4,
                        ;
                    }
                    if !(-4 < dy < 4) {
                        assert(dy * dy >= 16) by (nonlinear_arith)
                            requires
                                dy <= -4 || dy >= 4,
                        ;
                    }
                    assert(dx * dx >= 0) by (nonlinear_arith);
                    assert(dy * dy >= 0) by (nonlinear_arith);
                }
                if p.0 <= now && now - p.0 < 250 && near {
                    if p.3 < 3 {
                        p.3 + 1
                    } else {
                        3
                    }
                } else {
                    1
                }
            },
            None => 1,
        };
        self.mouse.press = Some((now, self.mouse.x, self.mouse.y, n));
        n
    }

    /// Starts a selection under the pointer, or clears it beside the grid.
    pub fn mouse_press(&mut self, now: u64)
        ensures
            final(self)@ == old(self)@.selecting(now),
            final(self)@.wf() == old(self)@.wf(),
    {
        proof {
            reveal(ShellView::selecting);
        }
        let there = self.board.active < self.board.tabs.len();
        match self.cell_under(self.mouse.x, self.mouse.y) {
            Some(c) => {
                let n: u32 = self.click_count(now);
                self.mouse.anchor = Some((c.0, c.1));
                if there {
                    self.board.ask(
                        if n == 2 {
                            Act::SelectWord(c.0, c.1)
                        } else if n == 3 {
                            Act::SelectLines(c.0, c.1)
                        } else {
                            Act::Select(c.0, c.1)
                        },
                    );
                }
            },
            None => {
                self.mouse.anchor = None;
                self.mouse.press = None;
                if there {
                    self.board.ask(Act::Unselect);
                }
            },
        }
    }

    /// Lets the selection reach up to the pointer.
    pub fn mouse_drag(&mut self)
        ensures
            final(self)@ == old(self)@.extending(),
            final(self)@.wf() == old(self)@.wf(),
    {
        proof {
            reveal(ShellView::extending);
        }
        if let Some(c) = self.cell_under(self.mouse.x, self.mouse.y) {
            if self.board.active < self.board.tabs.len() {
                self.board.ask(Act::Extend(c.0, c.1));
            }
        }
    }

    /// Finishes the selection that was being drawn, and copies it.
    pub fn mouse_release(&mut self)
        ensures
            final(self)@ == old(self)@.selected_text(),
            final(self)@.wf() == old(self)@.wf(),
    {
        proof {
            reveal(ShellView::selected_text);
        }
        if self.mouse.anchor.is_some() {
            self.mouse_drag();
            self.mouse.anchor = None;
            self.board.ask(Act::CopySelection);
        }
    }

    /// Asks a line editor to put its cursor under the pointer.
    pub fn mouse_alt_click(&mut self)
        ensures
            final(self)@ == old(self)@.cursor_called(),
            final(self)@.wf() == old(self)@.wf(),
    {
        proof {
            reveal(ShellView::cursor_called);
        }
        let i: usize = self.board.active;
        if let Some(c) = self.cell_under(self.mouse.x, self.mouse.y) {
            if i < self.board.tabs.len() {
                proof {
                    assert(self@.board.tabs[i as int] == self.board.tabs@[i as int]@);
                }
                if !self.board.tabs[i].scrolled {
                    self.board.ask(Act::CursorTo(c.0 + 1, c.1 + 1));
                }
            }
        }
    }

    /// Brings the dragged tab to the one under the pointer.
    pub fn tab_drag(&mut self, w: &Vec<usize>)
        requires
            old(self)@.wf(),
        ensures
            final(self)@ == old(self)@.dragging(w@),
            final(self)@.wf(),
    {
        proof {
            reveal(ShellView::dragging);
        }
        if let Some(from) = self.board.drag {
            if let Some(to) = self.tab_under(w, self.mouse.x, 4) {
                let past = self.is_past_middle(w, self.mouse.x, to);
                if self.board.tabs.len() >= 2 && ((to > from && past) || (to < from && !past)) {
                    self.board.reorder(from, to);
                    self.board.set_drag(Some(to), true);
                }
            }
        }
    }

    /// Lets the dragged tab go.
    pub fn tab_drop(&mut self, w: &Vec<usize>)
        requires
            old(self)@.wf(),
        ensures
            final(self)@ == old(self)@.dropped(w@),
            final(self)@.wf(),
    {
        proof {
            reveal(ShellView::dropped);
        }
        let over = self.tab_under(w, self.mouse.x, self.mouse.y);
        let held = self.board.drag;
        let moved = self.board.dragged;
        self.board.set_drag(None, false);
        if let Some(i) = held {
            if !moved && same_tab(over, Some(i)) {
                self.board.set_active(i);
            }
        }
        self.board.ask(Act::SaveTabs);
    }

    fn over_scroll_bar(&self) -> (r: bool)
        ensures
            r == self@.on_scroll_bar(),
    {
        let i: usize = self.board.active;
        if i < self.board.tabs.len() {
            proof {
                assert(self@.board.tabs[i as int] == self.board.tabs@[i as int]@);
            }
            !self.board.focus && !self.board.native && self.mouse.x as i128
                >= self.metrics.width as i128 - 12 && self.board.tabs[i].depth > 0
        } else {
            false
        }
    }

    /// Puts the focus on the tile of the fleet grid under the pointer; a second press goes there.
    fn press_tile(&mut self, now: u64)
        requires
            old(self)@.wf(),
        ensures
            final(self)@ == old(self)@.tile_pressed(now),
            final(self)@.wf(),
    {
        proof {
            reveal(ShellView::tile_pressed);
        }
        let t: Tiles = self.metrics.fleet_grid_geom(self.board.focus, self.board.tabs.len());
        if let Some(i) = grid_tile_at(
            pixel_of(self.mouse.x),
            pixel_of(self.mouse.y),
            t.x0,
            t.y0,
            t.tw,
            t.th,
            t.cols,
            t.n,
            t.height,
        ) {
            self.grid_sel = i;
            let n: u32 = self.click_count(now);
            if n >= 2 && i < self.board.tabs.len() {
                self.board.place(i);
                self.overlay = Overlay::Closed;
            }
            self.board.ask(Act::Redraw);
        }
    }

    fn context_rows(&self, link: bool, selection: bool) -> (r: Vec<CtxAction>)
        ensures
            r@ == self@.menu_rows(link, selection),
    {
        let i: usize = self.board.active;
        let down = if i < self.board.tabs.len() {
            proof {
                assert(self@.board.tabs[i as int] == self.board.tabs@[i as int]@);
            }
            self.board.tabs[i].is_down()
        } else {
            false
        };
        ctx_items(link, selection, down)
    }

    /// How wide the rows of the context menu are.
    pub fn context_widths<F: Face>(
        &self,
        cache: &mut GlyphCache<F>,
        link: bool,
        selection: bool,
    ) -> (r: Vec<usize>)
        requires
            old(cache).wf(),
        ensures
            final(cache).extends(old(cache)),
            r@ == self@.menu_widths(final(cache)@, link, selection),
    {
        let labels = labels_of(&self.context_rows(link, selection));
        text_widths(cache, &labels, self.metrics.font_px)
    }

    /// Opens the context menu at the pointer.
    pub fn open_context_menu(&mut self, link: bool, selection: bool, widths: &Vec<usize>)
        ensures
            final(self)@ == old(self)@.menu_opened(link, selection, widths@),
            final(self)@.wf() == old(self)@.wf(),
    {
        proof {
            reveal(ShellView::menu_opened);
        }
        if self.board.active < self.board.tabs.len() {
            let items = self.context_rows(link, selection);
            self.menu = Some(
                CtxMenu::place(
                    items,
                    widths,
                    menu_row_h(self.metrics.cell_h),
                    self.metrics.width,
                    self.metrics.height,
                    self.mouse.x,
                    self.mouse.y,
                ),
            );
        }
    }

    fn click_menu(&mut self, now: u64)
        requires
            old(self)@.wf(),
        ensures
            final(self)@ == old(self)@.menu_clicked(now),
            final(self)@.wf(),
    {
        proof {
            reveal(ShellView::menu_clicked);
        }
        let found = match &self.menu {
            Some(menu) => menu.action_at(
                menu_row_h(self.metrics.cell_h),
                self.mouse.x,
                self.mouse.y,
            ),
            None => None,
        };
        if let Some(a) = found {
            self.run_ctx_action(a, now);
        }
        self.menu = None;
        self.board.ask(Act::Redraw);
    }

    fn press_new_tab(&mut self)
        requires
            old(self)@.wf(),
        ensures
            final(self)@ == old(self)@.new_tab_pressed(),
            final(self)@.wf(),
    {
        proof {
            reveal(ShellView::new_tab_pressed);
        }
        self.pick();
        self.menu = None;
        self.board.ask(Act::Redraw);
    }

    fn press_mark(&mut self, i: usize, now: u64)
        requires
            old(self)@.wf(),
        ensures
            final(self)@ == old(self)@.mark_pressed(i as int, now),
            final(self)@.wf(),
    {
        proof {
            reveal(ShellView::mark_pressed);
        }
        let done = self.board.close_tab_at(i, now);
        self.menu = None;
        self.board.ask(Act::Redraw);
    }

    fn press_tab(&mut self, i: usize)
        requires
            old(self)@.wf(),
        ensures
            final(self)@ == old(self)@.tab_pressed(i as int),
            final(self)@.wf(),
    {
        proof {
            reveal(ShellView::tab_pressed);
        }
        self.board.set_drag(Some(i), false);
        self.board.ask(Act::Redraw);
    }

    fn press_tip(&mut self)
        requires
            old(self)@.wf(),
        ensures
            final(self)@ == old(self)@.tip_pressed(),
            final(self)@.wf(),
    {
        proof {
            reveal(ShellView::tip_pressed);
        }
        if let Some(i) = self.board.hover {
            self.board.set_active(i);
        }
        self.board.set_tip(None);
        self.board.ask(Act::Redraw);
    }

    fn press_bar(&mut self)
        requires
            old(self)@.wf(),
        ensures
            final(self)@ == old(self)@.bar_pressed(),
            final(self)@.wf(),
    {
        proof {
            reveal(ShellView::bar_pressed);
        }
        let y: i64 = self.mouse.y;
        self.board.ask(Act::Track(y));
        self.board.hold(true);
        self.board.ask(Act::Redraw);
    }

    fn press_text(&mut self, now: u64)
        requires
            old(self)@.wf(),
        ensures
            final(self)@ == old(self)@.grid_pressed_at(now),
            final(self)@.wf(),
    {
        proof {
            reveal(ShellView::grid_pressed_at);
        }
        self.board.set_drag(None, false);
        self.mouse_press(now);
        self.board.ask(Act::Redraw);
    }

    fn press_left(&mut self, mods: &Mods, w: &Vec<usize>, now: u64)
        requires
            old(self)@.wf(),
        ensures
            final(self)@ == old(self)@.left_pressed(*mods, w@, now),
            final(self)@.wf(),
    {
        proof {
            reveal(ShellView::left_pressed);
        }
        let (x, y): (i64, i64) = (self.mouse.x, self.mouse.y);
        if mods.alt {
            self.mouse_alt_click();
        } else if mods.control || mods.logo {
            self.mouse_open(x, y);
        } else if is_inside(self.mouse.new_tab, pixel_of(x), pixel_of(y)) {
            self.press_new_tab();
        } else if let Some(i) = self.tab_close_at(x, y) {
            self.press_mark(i, now);
        } else if let Some(i) = self.tab_under(w, x, y) {
            self.press_tab(i);
        } else if is_inside(self.board.tip, pixel_of(x), pixel_of(y)) {
            self.press_tip();
        } else if self.over_scroll_bar() {
            self.press_bar();
        } else {
            self.press_text(now);
        }
    }

    #[verifier::rlimit(40)]
    fn use_button(
        &mut self,
        button: MouseButton,
        pressed: bool,
        mods: &Mods,
        link: bool,
        selection: bool,
        w: &Vec<usize>,
        widths: &Vec<usize>,
        now: u64,
    )
        requires
            old(self)@.wf(),
        ensures
            final(self)@ == old(self)@.button_used(
                button,
                pressed,
                *mods,
                link,
                selection,
                w@,
                widths@,
                now,
            ),
            final(self)@.wf(),
    {
        proof {
            reveal(ShellView::button_used);
        }
        if self.overlay == Overlay::FleetGrid {
            if button == MouseButton::Left && pressed {
                self.press_tile(now);
            }
        } else if self.overlay != Overlay::Closed {
        } else if button == MouseButton::Right {
            if pressed {
                if self.menu.is_some() {
                    self.menu = None;
                } else {
                    self.open_context_menu(link, selection, widths);
                }
                self.board.ask(Act::Redraw);
            }
        } else if self.menu.is_some() {
            if pressed {
                self.click_menu(now);
            }
        } else if button == MouseButton::Middle {
            if pressed {
                self.board.ask(Act::PasteRaw);
                self.board.ask(Act::Redraw);
            }
        } else if button != MouseButton::Left {
        } else if pressed {
            self.press_left(mods, w, now);
        } else if self.board.drag.is_some() {
            self.tab_drop(w);
            self.board.ask(Act::Redraw);
        } else {
            self.mouse_release();
            self.board.ask(Act::Redraw);
        }
    }

    /// Handles a button that was pressed or let go, with a link under the pointer or not and some
    /// text selected or not, given how wide the labels of the tabs and the rows of the menu are.
    pub fn mouse_button(
        &mut self,
        button: MouseButton,
        pressed: bool,
        mods: &Mods,
        link: bool,
        selection: bool,
        w: &Vec<usize>,
        widths: &Vec<usize>,
        now: u64,
    )
        requires
            old(self)@.wf(),
        ensures
            final(self)@ == old(self)@.buttoned(
                button,
                pressed,
                *mods,
                link,
                selection,
                w@,
                widths@,
                now,
            ),
            final(self)@.wf(),
    {
        if button == MouseButton::Left {
            self.mouse.held = pressed;
        }
        if button != MouseButton::Right || mods.control {
            if let Some(c) = self.report_place() {
                let cb: u16 = sgr_button_code(button, pressed, mods);
                self.board.ask(Act::MouseReport(cb, c.0, c.1, !pressed));
                self.board.ask(Act::Redraw);
                return;
            }
        }
        self.use_button(button, pressed, mods, link, selection, w, widths, now);
    }

    /// Handles the wheel, turned up or down by so many lines.
    pub fn mouse_wheel(&mut self, up: bool, lines: i64, mods: &Mods)
        requires
            old(self)@.wf(),
        ensures
            final(self)@ == old(self)@.wheeled(up, lines as int, *mods),
            final(self)@.wf(),
    {
        if let Some(c) = self.report_place() {
            let cb: u16 = sgr_wheel_code(up, mods);
            self.board.ask(Act::MouseReport(cb, c.0, c.1, false));
            self.board.ask(Act::Redraw);
            return;
        }
        let top: usize = self.grid_bars().0;
        if (self.mouse.y as i128) < top as i128 && self.board.tabs.len() > 1 {
            self.board.turn(!up);
        } else {
            self.board.scroll_active(lines);
            if lines > 0 {
                self.board.hold(true);
            } else {
                self.board.unpin_if_at_bottom();
            }
        }
        self.board.ask(Act::Redraw);
    }

    fn hover(&mut self, w: &Vec<usize>)
        ensures
            final(self)@ == old(self)@.hovering(w@),
            final(self)@.wf() == old(self)@.wf(),
    {
        proof {
            reveal(ShellView::hovering);
        }
        let over = self.tab_under(w, self.mouse.x, self.mouse.y);
        if !same_tab(over, self.board.hover) {
            self.board.set_hover(over);
            self.board.ask(Act::Redraw);
        }
    }

    fn show_hand(&mut self, link: bool)
        ensures
            final(self)@ == old(self)@.linking(link),
            final(self)@.wf() == old(self)@.wf(),
    {
        proof {
            reveal(ShellView::linking);
        }
        if link != self.mouse.over_link {
            self.mouse.over_link = link;
            self.board.ask(Act::Hand(link));
        }
    }

    fn pull(&mut self, w: &Vec<usize>)
        requires
            old(self)@.wf(),
        ensures
            final(self)@ == old(self)@.pulled(w@),
            final(self)@.wf(),
    {
        proof {
            reveal(ShellView::pulled);
        }
        if self.overlay == Overlay::Closed {
            if self.board.drag.is_some() {
                self.tab_drag(w);
                self.board.ask(Act::Redraw);
            } else if self.mouse.anchor.is_some() {
                self.mouse_drag();
                self.board.ask(Act::Redraw);
            }
        }
    }

    fn move_over(&mut self, link: bool, w: &Vec<usize>)
        requires
            old(self)@.wf(),
        ensures
            final(self)@ == old(self)@.moved_over(link, w@),
            final(self)@.wf(),
    {
        proof {
            reveal(ShellView::moved_over);
        }
        self.hover(w);
        self.show_hand(link);
        self.pull(w);
    }

    fn tell_motion(&mut self, c: (usize, usize), mods: &Mods)
        ensures
            final(self)@ == old(self)@.motion_told((c.0 as int, c.1 as int), *mods),
            final(self)@.wf() == old(self)@.wf(),
    {
        proof {
            reveal(ShellView::motion_told);
        }
        let same = match self.mouse.told {
            Some(p) => p.0 == c.0 && p.1 == c.1,
            None => false,
        };
        if !same {
            self.mouse.told = Some(c);
            let cb: u16 = sgr_motion_code(self.mouse.held, mods);
            self.board.ask(Act::MouseReport(cb, c.0, c.1, false));
        }
    }

    /// Handles a move of the pointer, with a link under it or not, given how wide the labels of the
    /// tabs are.
    pub fn mouse_moved(&mut self, x: i64, y: i64, link: bool, mods: &Mods, w: &Vec<usize>)
        requires
            old(self)@.wf(),
        ensures
            final(self)@ == old(self)@.moved_to(x, y, link, *mods, w@),
            final(self)@.wf(),
    {
        self.mouse.x = x;
        self.mouse.y = y;
        if let Some(true) = self.mouse_report_flags() {
            if let Some(c) = self.report_place() {
                self.tell_motion(c, mods);
                return;
            }
        }
        self.move_over(link, w);
    }

    /// Forgets that a button is held.
    pub fn release_mouse(&mut self)
        ensures
            final(self)@ == old(self)@.let_go(),
            final(self)@.wf() == old(self)@.wf(),
    {
        self.mouse.held = false;
    }
}

/// A press on a tab that is let go over the same tab, without having moved it, makes that tab the
/// active one, and moves none.
pub proof fn law_click_switches(s: ShellView, w: Seq<usize>, i: usize)
    requires
        s.wf(),
        s.board.drag == Some(i),
        !s.board.dragged,
        s.tab_at(w, s.mouse.x, s.mouse.y) == Some(i as int),
        i < s.board.tabs.len(),
        s.board.wins.len() == 0,
    ensures
        s.dropped(w).board.active == i,
        s.dropped(w).board.tabs == s.board.tabs,
        s.dropped(w).board.drag is None,
{
    reveal(ShellView::dropped);
}

/// A tab that was moved and is let go stays where it is, and the active tab stays active.
pub proof fn law_moved_tab_stays(s: ShellView, w: Seq<usize>)
    requires
        s.wf(),
        s.board.drag is Some,
        s.board.dragged,
    ensures
        s.dropped(w).board.active == s.board.active,
        s.dropped(w).board.tabs == s.board.tabs,
        s.dropped(w).board.drag is None,
        !s.dropped(w).board.dragged,
{
    reveal(ShellView::dropped);
}

/// Where the program of the active session has not asked for the mouse, it is told neither of a
/// button nor of a move: both are the window's own.
pub proof fn law_mouse_stays(
    s: ShellView,
    button: MouseButton,
    pressed: bool,
    x: i64,
    y: i64,
    m: Mods,
    link: bool,
    selection: bool,
    w: Seq<usize>,
    widths: Seq<usize>,
    now: u64,
)
    requires
        s.board.active < s.board.tabs.len() ==> s.board.tabs[s.board.active as int].mode
            & MOUSE_MODES == 0,
    ensures
        s.report_cell() is None,
        s.buttoned(button, pressed, m, link, selection, w, widths, now) == s.pointing(
            PointerView {
                held: if button == MouseButton::Left {
                    pressed
                } else {
                    s.mouse.held
                },
                ..s.mouse
            },
        ).button_used(button, pressed, m, link, selection, w, widths, now),
        s.moved_to(x, y, link, m, w) == s.pointing(PointerView { x, y, ..s.mouse }).moved_over(
            link,
            w,
        ),
{
    reveal(ShellView::reporting);
}

} // verus!
