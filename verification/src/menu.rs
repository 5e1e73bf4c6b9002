//! The context menu: its rows, where it stands, and what lies under the pointer.

use vstd::prelude::*;
use vstd::string::*;

use crate::geometry::{less, plus};
use crate::lettering::clamped;
use crate::text::{copy_text, texts};
use crate::triage::{find_next_set, find_prev_set, next_set, prev_set};

verus! {

/// A row of the context menu.
#[derive(Clone, Copy, Debug, PartialEq, Eq, Structural)]
pub enum CtxAction {
    Copy,
    Paste,
    OpenLink,
    SelectAll,
    SearchSelection,
    /// A line between rows, which cannot be selected.
    Separator,
    Interrupt,
    Reconnect,
    Duplicate,
    MuteToggle,
    NewSession,
    CloseTab,
}

/// What a row of the context menu says.
pub open spec fn ctx_text(a: CtxAction) -> Seq<char> {
    match a {
        CtxAction::Copy => "Copy"@,
        CtxAction::Paste => "Paste"@,
        CtxAction::OpenLink => "Open Link"@,
        CtxAction::SelectAll => "Select All"@,
        CtxAction::SearchSelection => "Search for Selection"@,
        CtxAction::Separator => ""@,
        CtxAction::Interrupt => "Interrupt (Ctrl-C)"@,
        CtxAction::Reconnect => "Reconnect"@,
        CtxAction::Duplicate => "Duplicate Session"@,
        CtxAction::MuteToggle => "Mute / Unmute"@,
        CtxAction::NewSession => "New Session"@,
        CtxAction::CloseTab => "Close Tab"@,
    }
}

/// What a row of the context menu says.
pub fn ctx_label(a: CtxAction) -> (r: &'static str)
    ensures
        r@ == ctx_text(a),
{
    match a {
        CtxAction::Copy => "Copy",
        CtxAction::Paste => "Paste",
        CtxAction::OpenLink => "Open Link",
        CtxAction::SelectAll => "Select All",
        CtxAction::SearchSelection => "Search for Selection",
        CtxAction::Separator => "",
        CtxAction::Interrupt => "Interrupt (Ctrl-C)",
        CtxAction::Reconnect => "Reconnect",
        CtxAction::Duplicate => "Duplicate Session",
        CtxAction::MuteToggle => "Mute / Unmute",
        CtxAction::NewSession => "New Session",
        CtxAction::CloseTab => "Close Tab",
    }
}

/// The open context menu.
pub struct CtxMenu {
    /// Its corner.
    pub px: usize,
    pub py: usize,
    pub w: usize,
    pub items: Vec<CtxAction>,
    /// The row in focus.
    pub sel: usize,
    /// Where the pointer was when it opened.
    pub mx: i64,
    pub my: i64,
}

#[verifier::ext_equal]
pub struct MenuView {
    pub px: usize,
    pub py: usize,
    pub w: usize,
    pub items: Seq<CtxAction>,
    pub sel: usize,
    pub mx: i64,
    pub my: i64,
}

impl View for CtxMenu {
    type V = MenuView;

    open spec fn view(&self) -> MenuView {
        MenuView {
            px: self.px,
            py: self.py,
            w: self.w,
            items: self.items@,
            sel: self.sel,
            mx: self.mx,
            my: self.my,
        }
    }
}

/// The rows of the menu: a link, a selection and a pane that is down each bring a row of their own.
pub open spec fn menu_items(link: bool, selection: bool, down: bool) -> Seq<CtxAction> {
    let a = seq![CtxAction::Copy, CtxAction::Paste];
    let a = if link {
        a.push(CtxAction::OpenLink)
    } else {
        a
    };
    let a = a.push(CtxAction::SelectAll);
    let a = if selection {
        a.push(CtxAction::SearchSelection)
    } else {
        a
    };
    let a = a.push(CtxAction::Separator).push(CtxAction::Interrupt);
    let a = if down {
        a.push(CtxAction::Reconnect)
    } else {
        a
    };
    a.push(CtxAction::Duplicate).push(CtxAction::MuteToggle).push(CtxAction::Separator).push(
        CtxAction::NewSession,
    ).push(CtxAction::CloseTab)
}

/// The rows of the menu.
pub fn ctx_items(link: bool, selection: bool, down: bool) -> (r: Vec<CtxAction>)
    ensures
        r@ == menu_items(link, selection, down),
        r@.len() > 0,
        r@[0] == CtxAction::Copy,
{
    let mut a: Vec<CtxAction> = Vec::new();
    a.push(CtxAction::Copy);
    a.push(CtxAction::Paste);
    if link {
        a.push(CtxAction::OpenLink);
    }
    a.push(CtxAction::SelectAll);
    if selection {
        a.push(CtxAction::SearchSelection);
    }
    a.push(CtxAction::Separator);
    a.push(CtxAction::Interrupt);
    if down {
        a.push(CtxAction::Reconnect);
    }
    a.push(CtxAction::Duplicate);
    a.push(CtxAction::MuteToggle);
    a.push(CtxAction::Separator);
    a.push(CtxAction::NewSession);
    a.push(CtxAction::CloseTab);
    proof {
        assert(a@ =~= menu_items(link, selection, down));
    }
    a
}

/// The height of a row.
pub open spec fn row_height(cell_h: int) -> int {
    if cell_h < 20 {
        20
    } else {
        cell_h
    }
}

/// The height of a row of the context menu.
pub fn menu_row_h(cell_h: usize) -> (r: usize)
    ensures
        r == row_height(cell_h as int),
{
    if cell_h < 20 {
        20
    } else {
        cell_h
    }
}

/// The height that a row takes; a line between rows takes half.
pub open spec fn item_height(a: CtxAction, row_h: int) -> int {
    if a == CtxAction::Separator {
        row_h / 2
    } else {
        row_h
    }
}

/// The height of all rows.
pub open spec fn items_height(items: Seq<CtxAction>, row_h: int) -> int
    decreases items.len(),
{
    if items.len() == 0 {
        0
    } else {
        items_height(items.drop_last(), row_h) + item_height(items.last(), row_h)
    }
}

/// The largest of some numbers.
pub open spec fn widest(w: Seq<usize>) -> usize
    decreases w.len(),
{
    if w.len() == 0 {
        0
    } else if w.last() > widest(w.drop_last()) {
        w.last()
    } else {
        widest(w.drop_last())
    }
}

/// The labels of the rows.
pub open spec fn item_labels(items: Seq<CtxAction>) -> Seq<Seq<char>> {
    items.map_values(|a: CtxAction| ctx_text(a))
}

/// The labels of the rows.
pub fn labels_of(items: &Vec<CtxAction>) -> (r: Vec<String>)
    ensures
        texts(r@) == item_labels(items@),
{
    let mut out: Vec<String> = Vec::new();
    let mut i: usize = 0;
    while i < items.len()
        invariant
            i <= items@.len(),
            texts(out@) == item_labels(items@).take(i as int),
        decreases items@.len() - i,
    {
        let ghost had = texts(out@);
        out.push(copy_text(ctx_label(items[i])));
        proof {
            assert(texts(out@) =~= had.push(ctx_text(items@[i as int])));
            assert(item_labels(items@).take(i + 1) =~= had.push(ctx_text(items@[i as int])));
        }
        i = i + 1;
    }
    proof {
        assert(item_labels(items@).take(i as int) =~= item_labels(items@));
    }
    out
}

/// A menu as wide as its widest label with a margin, at the pointer but within the window.
pub open spec fn placed_menu(
    items: Seq<CtxAction>,
    widths: Seq<usize>,
    row_h: int,
    vw: int,
    vh: int,
    x: i64,
    y: i64,
) -> MenuView {
    let w = clamped(widest(widths) + 24);
    let h = clamped(items_height(items, row_h));
    let left = less(
        if x < 0 {
            0
        } else {
            x as int
        },
        4,
    );
    let top = less(
        if y < 0 {
            0
        } else {
            y as int
        },
        4,
    );
    MenuView {
        px: (if left < less(vw, w) {
            left
        } else {
            less(vw, w)
        }) as usize,
        py: (if top < less(vh, h) {
            top
        } else {
            less(vh, h)
        }) as usize,
        w: w as usize,
        items,
        sel: 0,
        mx: x,
        my: y,
    }
}

/// The largest of the widths.
pub fn widest_of(w: &Vec<usize>) -> (r: usize)
    ensures
        r == widest(w@),
{
    let mut m: usize = 0;
    let mut i: usize = 0;
    while i < w.len()
        invariant
            i <= w@.len(),
            m == widest(w@.take(i as int)),
        decreases w@.len() - i,
    {
        proof {
            assert(w@.take(i + 1).drop_last() =~= w@.take(i as int));
        }
        if w[i] > m {
            m = w[i];
        }
        i = i + 1;
    }
    proof {
        assert(w@.take(i as int) =~= w@);
    }
    m
}

/// How high the rows are together.
pub fn height_of(items: &Vec<CtxAction>, row_h: usize) -> (r: usize)
    ensures
        r == clamped(items_height(items@, row_h as int)),
{
    let mut h: usize = 0;
    let mut i: usize = 0;
    while i < items.len()
        invariant
            i <= items@.len(),
            h == clamped(items_height(items@.take(i as int), row_h as int)),
            items_height(items@.take(i as int), row_h as int) >= 0,
        decreases items@.len() - i,
    {
        proof {
            assert(items@.take(i + 1).drop_last() =~= items@.take(i as int));
        }
        let one: usize = if items[i] == CtxAction::Separator {
            row_h / 2
        } else {
            row_h
        };
        h = plus(h, one);
        i = i + 1;
    }
    proof {
        assert(items@.take(i as int) =~= items@);
    }
    h
}

/// Where a coordinate of the pointer puts the corner: a little before it, but so that the whole
/// menu fits.
fn corner(at: i64, size: usize, room: usize) -> (r: usize)
    ensures
        r == ({
            let p = less(
                if at < 0 {
                    0
                } else {
                    at as int
                },
                4,
            );
            if p < less(room as int, size as int) {
                p
            } else {
                less(room as int, size as int)
            }
        }),
{
    let p: u64 = if at < 4 {
        0
    } else {
        (at - 4) as u64
    };
    let most: usize = room.saturating_sub(size);
    if p < most as u64 {
        p as usize
    } else {
        most
    }
}

impl CtxMenu {
    /// Opens a menu at the pointer, within a window of this size.
    pub fn place(
        items: Vec<CtxAction>,
        widths: &Vec<usize>,
        row_h: usize,
        vw: usize,
        vh: usize,
        x: i64,
        y: i64,
    ) -> (m: CtxMenu)
        ensures
            m@ == placed_menu(
                items@,
                widths@,
                row_h as int,
                vw as int,
                vh as int,
                x,
                y,
            ),
    {
        let w: usize = plus(widest_of(widths), 24);
        let h: usize = height_of(&items, row_h);
        CtxMenu { px: corner(x, w, vw), py: corner(y, h, vh), w, items, sel: 0, mx: x, my: y }
    }
}

/// Which rows can be selected.
pub open spec fn item_mask(items: Seq<CtxAction>) -> Seq<bool> {
    items.map_values(|a: CtxAction| a != CtxAction::Separator)
}

/// The row under a height, where the rows from the first of the list on start at `top`.
pub open spec fn row_at(items: Seq<CtxAction>, top: int, row_h: int, y: int) -> Option<CtxAction>
    decreases items.len(),
{
    if items.len() == 0 {
        None
    } else if items[0] == CtxAction::Separator {
        row_at(items.drop_first(), top + row_h / 2, row_h, y)
    } else if top <= y < top + row_h {
        Some(items[0])
    } else {
        row_at(items.drop_first(), top + row_h, row_h, y)
    }
}

impl MenuView {
    /// With the next row in focus, or the one before, round the ends; lines between rows are passed
    /// over.
    pub open spec fn turned(self, forward: bool) -> MenuView {
        let found = if forward {
            next_set(item_mask(self.items), self.sel as int, 1)
        } else {
            prev_set(item_mask(self.items), self.sel as int, 1)
        };
        match found {
            Some(i) => MenuView { sel: i as usize, ..self },
            None => self,
        }
    }

    /// The row under a point.
    pub open spec fn action_at(self, row_h: int, x: int, y: int) -> Option<CtxAction> {
        if x < self.px || x >= self.px + self.w || y < self.py {
            None
        } else {
            row_at(self.items, self.py as int, row_h, y)
        }
    }
}

impl CtxMenu {
    /// Moves the focus to the next row, or the one before, round the ends.
    pub fn navigate(&mut self, forward: bool)
        ensures
            final(self)@ == old(self)@.turned(forward),
    {
        let mut mask: Vec<bool> = Vec::new();
        let ghost want = item_mask(self.items@);
        let n: usize = self.items.len();
        let mut i: usize = 0;
        while i < n
            invariant
                i <= n,
                n == self.items@.len(),
                want == item_mask(self.items@),
                mask@ == want.take(i as int),
            decreases n - i,
        {
            mask.push(self.items[i] != CtxAction::Separator);
            proof {
                assert(mask@ =~= want.take(i + 1));
            }
            i = i + 1;
        }
        proof {
            assert(want.take(n as int) =~= want);
        }
        let found = if forward {
            find_next_set(mask.as_slice(), self.sel)
        } else {
            find_prev_set(mask.as_slice(), self.sel)
        };
        if let Some(i) = found {
            self.sel = i;
        }
    }

    /// The row under a point of the window.
    pub fn action_at(&self, row_h: usize, x: i64, y: i64) -> (r: Option<CtxAction>)
        ensures
            r == self@.action_at(row_h as int, x as int, y as int),
    {
        let (px, py): (i128, i128) = (self.px as i128, self.py as i128);
        let (mx, my): (i128, i128) = (x as i128, y as i128);
        if mx < px || mx >= px + self.w as i128 || my < py {
            return None;
        }
        let mut top: i128 = py;
        let mut i: usize = 0;
        proof {
            assert(self.items@.skip(0) =~= self.items@);
        }
        while i < self.items.len() && top <= my
            invariant
                i <= self.items@.len(),
                my == y,
                py == self.py,
                x >= self.px && x < self.px + self.w && y >= self.py,
                0 <= top <= 0x2_0000_0000_0000_0000,
                row_at(self.items@, py as int, row_h as int, my as int) == row_at(
                    self.items@.skip(i as int),
                    top as int,
                    row_h as int,
                    my as int,
                ),
            decreases self.items@.len() - i,
        {
            proof {
                assert(self.items@.skip(i as int).drop_first() =~= self.items@.skip(i + 1));
                assert(self.items@.skip(i as int)[0] == self.items@[i as int]);
            }
            let a = self.items[i];
            if a == CtxAction::Separator {
                top = top + (row_h / 2) as i128;
            } else {
                if my < top + row_h as i128 {
                    return Some(a);
                }
                top = top + row_h as i128;
            }
            i = i + 1;
        }
        proof {
            lemma_row_below(self.items@.skip(i as int), top as int, row_h as int, my as int);
        }
        None
    }
}

/// Rows that start below a height are not at it.
proof fn lemma_row_below(items: Seq<CtxAction>, top: int, row_h: int, y: int)
    requires
        0 <= row_h,
        y < top || items.len() == 0,
    ensures
        row_at(items, top, row_h, y) is None,
    decreases items.len(),
{
    if items.len() > 0 {
        if items[0] == CtxAction::Separator {
            lemma_row_below(items.drop_first(), top + row_h / 2, row_h, y);
        } else {
            lemma_row_below(items.drop_first(), top + row_h, row_h, y);
        }
    }
}

/// The keyboard never selects a line between rows, and a click never runs one.
pub proof fn law_separators_do_nothing(m: MenuView, forward: bool, row_h: int, x: int, y: int)
    requires
        m.sel < m.items.len() <= usize::MAX,
        m.items[m.sel as int] != CtxAction::Separator,
    ensures
        m.turned(forward).sel < m.items.len(),
        m.turned(forward).items[m.turned(forward).sel as int] != CtxAction::Separator,
        m.action_at(row_h, x, y) != Some(CtxAction::Separator),
{
    lemma_next_is_set(item_mask(m.items), m.sel as int, 1);
    lemma_prev_is_set(item_mask(m.items), m.sel as int, 1);
    lemma_row_is_no_separator(m.items, m.py as int, row_h, y);
}

proof fn lemma_next_is_set(mask: Seq<bool>, start: int, step: int)
    requires
        1 <= step,
    ensures
        next_set(mask, start, step) matches Some(i) ==> 0 <= i < mask.len() && mask[i],
    decreases mask.len() + 1 - step,
{
    if step <= mask.len() {
        lemma_next_is_set(mask, start, step + 1);
    }
}

proof fn lemma_prev_is_set(mask: Seq<bool>, start: int, step: int)
    requires
        1 <= step,
    ensures
        prev_set(mask, start, step) matches Some(i) ==> 0 <= i < mask.len() && mask[i],
    decreases mask.len() + 1 - step,
{
    if step <= mask.len() {
        lemma_prev_is_set(mask, start, step + 1);
    }
}

proof fn lemma_row_is_no_separator(items: Seq<CtxAction>, top: int, row_h: int, y: int)
    ensures
        row_at(items, top, row_h, y) != Some(CtxAction::Separator),
    decreases items.len(),
{
    if items.len() > 0 {
        lemma_row_is_no_separator(items.drop_first(), top + row_h / 2, row_h, y);
        lemma_row_is_no_separator(items.drop_first(), top + row_h, row_h, y);
    }
}

} // verus!
