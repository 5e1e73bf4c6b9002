//! Copy mode: a cursor that walks the scrollback with the keyboard, selects and copies.

use vstd::prelude::*;
use vstd::string::*;

use crate::board::{Act, Board, BoardView};
use crate::grid::{Find, Grid, GridView};
use crate::keys::{Key, KeyView, NamedKey};
use crate::search::{all_matches, grid_hits, line_chars, line_text};
use crate::text::{drop_last_char, same_text, without_last};
use crate::words::{copy_no_match_flash, no_match_text};

verus! {

/// Copy mode.
pub struct CopyMode {
    pub on: bool,
    /// Where the cursor stands: its line, counted down from the screen's first, and its column.
    pub line: i32,
    pub col: usize,
    /// Where the selection starts.
    pub anchor: Option<(i32, usize)>,
    pub query: String,
    /// The query is being typed.
    pub searching: bool,
}

/// Copy mode as plain data.
#[verifier::ext_equal]
pub struct CopyView {
    pub on: bool,
    pub line: i32,
    pub col: usize,
    pub anchor: Option<(i32, usize)>,
    pub query: Seq<char>,
    pub searching: bool,
}

impl View for CopyMode {
    type V = CopyView;

    open spec fn view(&self) -> CopyView {
        CopyView {
            on: self.on,
            line: self.line,
            col: self.col,
            anchor: self.anchor,
            query: self.query@,
            searching: self.searching,
        }
    }
}

/// A number brought between two others.
pub open spec fn between(n: int, lo: int, hi: int) -> int {
    if n < lo {
        lo
    } else if n > hi {
        hi
    } else {
        n
    }
}

/// The line so many lines above the screen's first.
pub open spec fn line_above(n: u32) -> i32 {
    if n <= i32::MAX {
        (-(n as int)) as i32
    } else {
        (-(i32::MAX as int)) as i32
    }
}

/// The screen's last line.
pub open spec fn last_line(lines: u32) -> i32 {
    if lines <= i32::MAX {
        (lines - 1) as i32
    } else {
        i32::MAX
    }
}

fn up_line(n: u32) -> (r: i32)
    ensures
        r == line_above(n),
{
    if n <= i32::MAX as u32 {
        -(n as i32)
    } else {
        -i32::MAX
    }
}

fn bottom_line(lines: u32) -> (r: i32)
    ensures
        r == last_line(lines),
{
    if lines <= i32::MAX as u32 {
        lines as i32 - 1
    } else {
        i32::MAX
    }
}

/// Whether one cell stands before another.
pub open spec fn before(a: (i32, usize), b: (i32, usize)) -> bool {
    a.0 < b.0 || (a.0 == b.0 && a.1 < b.1)
}

/// White space, and what is past the end.
pub open spec fn gap(text: Seq<char>, i: int) -> bool {
    i >= text.len() || text[i] == ' ' || text[i] == '\t' || text[i] == '\n' || text[i] == '\x0c'
        || text[i] == '\r'
}

fn gap_at(text: &Vec<char>, i: usize) -> (r: bool)
    ensures
        r == gap(text@, i as int),
{
    if i >= text.len() {
        return true;
    }
    let c = text[i];
    c == ' ' || c == '\t' || c == '\n' || c == '\x0c' || c == '\r'
}

/// The first place from `i` on where a gap ends or, for `over` false, where one starts.
pub open spec fn skipped(text: Seq<char>, i: int, over: bool) -> int
    decreases text.len() - i,
{
    if i >= text.len() || gap(text, i) != over {
        i
    } else {
        skipped(text, i + 1, over)
    }
}

fn skip(text: &Vec<char>, from: usize, over: bool) -> (r: usize)
    requires
        from <= text@.len(),
    ensures
        r == skipped(text@, from as int, over),
        r <= text@.len(),
{
    let mut i: usize = from;
    while i < text.len() && gap_at(text, i) == over
        invariant
            from <= i <= text@.len(),
            skipped(text@, from as int, over) == skipped(text@, i as int, over),
        decreases text@.len() - i,
    {
        i = i + 1;
    }
    i
}

/// The same backward: the last place up to `i` in front of which there is no gap or, for `over`
/// false, there is one.
pub open spec fn skipped_back(text: Seq<char>, i: int, over: bool) -> int
    decreases i,
{
    if i <= 0 || gap(text, i - 1) != over {
        i
    } else {
        skipped_back(text, i - 1, over)
    }
}

fn skip_back(text: &Vec<char>, from: usize, over: bool) -> (r: usize)
    ensures
        r == skipped_back(text@, from as int, over),
        r <= from,
{
    let mut i: usize = from;
    while i > 0 && gap_at(text, i - 1) == over
        invariant
            i <= from,
            skipped_back(text@, from as int, over) == skipped_back(text@, i as int, over),
        decreases i,
    {
        i = i - 1;
    }
    i
}

/// The first match below a line.
pub open spec fn first_after(all: Seq<Find>, line: i32, from: int) -> Option<int>
    decreases all.len() - from,
{
    if from < 0 || from >= all.len() {
        None
    } else if all[from].0 > line {
        Some(from)
    } else {
        first_after(all, line, from + 1)
    }
}

/// The last match above a line, of the first `n`.
pub open spec fn last_before(all: Seq<Find>, line: i32, n: int) -> Option<int>
    decreases n,
{
    if n <= 0 || n > all.len() {
        None
    } else if all[n - 1].0 < line {
        Some(n - 1)
    } else {
        last_before(all, line, n - 1)
    }
}

/// The match to go to from a line: the nearest further on, round the ends.
pub open spec fn next_match(all: Seq<Find>, line: i32, backwards: bool) -> int {
    if backwards {
        match last_before(all, line, all.len() as int) {
            Some(i) => i,
            None => all.len() - 1,
        }
    } else {
        match first_after(all, line, 0) {
            Some(i) => i,
            None => 0,
        }
    }
}

fn find_match(all: &Vec<Find>, line: i32, backwards: bool) -> (r: usize)
    requires
        all@.len() > 0,
    ensures
        r == next_match(all@, line, backwards),
        r < all@.len(),
{
    let n: usize = all.len();
    if backwards {
        let mut k: usize = n;
        while k > 0
            invariant
                k <= n,
                n == all@.len(),
                backwards,
                last_before(all@, line, n as int) == last_before(all@, line, k as int),
            decreases k,
        {
            if all[k - 1].0 < line {
                return k - 1;
            }
            k = k - 1;
        }
        n - 1
    } else {
        let mut k: usize = 0;
        while k < n
            invariant
                k <= n,
                n == all@.len(),
                !backwards,
                first_after(all@, line, 0) == first_after(all@, line, k as int),
            decreases n - k,
        {
            if all[k].0 > line {
                return k;
            }
            k = k + 1;
        }
        0
    }
}

/// The grid of the active session, where there is one, as plain data.
pub open spec fn grid_view(g: Option<&Grid>) -> Option<GridView> {
    match g {
        Some(g) => Some(g@),
        None => None,
    }
}

impl CopyView {
    /// Left.
    pub open spec fn stopped(self) -> CopyView {
        CopyView { on: false, anchor: None, query: Seq::empty(), searching: false, ..self }
    }

    /// Entered, with the cursor at the view's first cell, where the active session has a
    /// scrollback.
    pub open spec fn started(self, b: BoardView) -> CopyView {
        if b.active < b.tabs.len() && b.tabs[b.active as int].depth > 0 {
            CopyView {
                on: true,
                line: line_above(b.tabs[b.active as int].offset),
                col: 0,
                anchor: None,
                query: Seq::empty(),
                searching: false,
            }
        } else {
            self
        }
    }

    /// With the cursor moved, as far as the grid goes.
    pub open spec fn moved(self, b: BoardView, lines: int, cols: int) -> CopyView {
        if b.active < b.tabs.len() {
            let t = b.tabs[b.active as int];
            CopyView {
                line: between(
                    self.line + lines,
                    line_above(t.depth) as int,
                    last_line(t.lines) as int,
                ) as i32,
                col: between(
                    self.col + cols,
                    0,
                    if t.cols == 0 {
                        0
                    } else {
                        t.cols - 1
                    },
                ) as usize,
                ..self
            }
        } else {
            self
        }
    }

    /// With the cursor at the start of a line.
    pub open spec fn at_start(self, line: i32) -> CopyView {
        CopyView { line, col: 0, ..self }
    }

    /// With the cursor at the next word, or back at the start of the word before.
    pub open spec fn at_word(self, g: Option<GridView>, forward: bool) -> CopyView {
        match g {
            Some(g) => if g.top() <= self.line < g.rows {
                let text = line_chars(g.line(self.line as int));
                let at = if self.col < text.len() {
                    self.col as int
                } else if text.len() == 0 {
                    0
                } else {
                    text.len() - 1
                };
                if forward {
                    let next = skipped(text, skipped(text, skipped(text, at, true), false), true);
                    if next < text.len() {
                        CopyView { col: next as usize, ..self }
                    } else if self.line < g.rows - 1 {
                        self.at_start((self.line + 1) as i32)
                    } else {
                        self
                    }
                } else {
                    CopyView {
                        col: skipped_back(
                            text,
                            skipped_back(text, skipped_back(text, at, false), true),
                            false,
                        ) as usize,
                        ..self
                    }
                }
            } else {
                self
            },
            None => self,
        }
    }

    /// With the cursor at the next match of the query; where it stands, if there is none.
    pub open spec fn at_match(self, g: Option<GridView>, backwards: bool) -> CopyView {
        if self.query.len() == 0 {
            self
        } else {
            match g {
                Some(g) => {
                    let all = grid_hits(g, self.query, g.rows as int);
                    if all.len() == 0 {
                        self
                    } else {
                        let m = all[next_match(all, self.line, backwards)];
                        CopyView { line: m.0, col: m.1, ..self }
                    }
                },
                None => self,
            }
        }
    }

    /// The board after a search: a search without a match says so.
    pub open spec fn told(self, b: BoardView, g: Option<GridView>, now: u64) -> BoardView {
        if self.query.len() == 0 {
            b
        } else {
            match g {
                Some(g) => if grid_hits(g, self.query, g.rows as int).len() == 0 {
                    b.says(no_match_text(self.query), now)
                } else {
                    b
                },
                None => b,
            }
        }
    }

    /// After copying.
    pub open spec fn copied(self, b: BoardView) -> CopyView {
        if self.anchor is None {
            CopyView { on: false, ..self }
        } else if b.active < b.tabs.len() {
            self.stopped()
        } else {
            self
        }
    }

    /// The board after copying: the selection runs from the earlier end to the later.
    pub open spec fn copy_asked(self, b: BoardView) -> BoardView {
        match self.anchor {
            Some(a) => if b.active < b.tabs.len() {
                let c = (self.line, self.col);
                if before(a, c) {
                    b.asks(Act::CopySpan(a.0, a.1, c.0, c.1))
                } else {
                    b.asks(Act::CopySpan(c.0, c.1, a.0, a.1))
                }
            } else {
                b
            },
            None => b,
        }
    }

    /// What a typed text does. While a search is typed it becomes part of the query, but for a
    /// second slash, which does nothing.
    pub open spec fn typed(
        self,
        b: BoardView,
        c: Seq<char>,
        g: Option<GridView>,
        now: u64,
    ) -> (CopyView, BoardView) {
        if self.searching && c == "/"@ {
            (self, b)
        } else if self.searching {
            (CopyView { query: self.query + c, ..self }, b)
        } else if c == " "@ {
            (self.copied(b), self.copy_asked(b))
        } else if c == "/"@ {
            (CopyView { query: Seq::empty(), searching: true, ..self }, b)
        } else if c == "n"@ {
            (self.at_match(g, false), self.told(b, g, now))
        } else if c == "N"@ {
            (self.at_match(g, true), self.told(b, g, now))
        } else if c == "h"@ {
            (self.moved(b, 0, -1), b)
        } else if c == "j"@ {
            (self.moved(b, 1, 0), b)
        } else if c == "k"@ {
            (self.moved(b, -1, 0), b)
        } else if c == "l"@ {
            (self.moved(b, 0, 1), b)
        } else if c == "w"@ {
            (self.at_word(g, true).moved(b, 0, 0), b)
        } else if c == "b"@ {
            (self.at_word(g, false).moved(b, 0, 0), b)
        } else if c == "v"@ {
            (CopyView { anchor: Some((self.line, self.col)), ..self }, b)
        } else if c == "g"@ && b.active < b.tabs.len() {
            (self.at_start(line_above(b.tabs[b.active as int].depth)), b)
        } else if c == "G"@ && b.active < b.tabs.len() {
            (self.at_start(last_line(b.tabs[b.active as int].lines)), b)
        } else if c == "q"@ {
            (self.stopped(), b)
        } else {
            (self, b)
        }
    }

    /// What a named key does.
    pub open spec fn pressed(
        self,
        b: BoardView,
        n: NamedKey,
        g: Option<GridView>,
        now: u64,
    ) -> (CopyView, BoardView) {
        if self.searching {
            match n {
                NamedKey::Backspace => {
                    let query = without_last(self.query);
                    (CopyView { searching: query.len() > 0, query, ..self }, b)
                },
                NamedKey::Enter => {
                    let c = CopyView { searching: false, ..self };
                    (c.at_match(g, false), c.told(b, g, now))
                },
                NamedKey::Escape => (
                    CopyView { query: Seq::empty(), searching: false, ..self },
                    b,
                ),
                _ => (self, b),
            }
        } else {
            match n {
                NamedKey::Enter => (self.copied(b), self.copy_asked(b)),
                NamedKey::Space => (self.copied(b), self.copy_asked(b)),
                NamedKey::ArrowUp => (self.moved(b, -1, 0), b),
                NamedKey::ArrowDown => (self.moved(b, 1, 0), b),
                NamedKey::ArrowLeft => (self.moved(b, 0, -1), b),
                NamedKey::ArrowRight => (self.moved(b, 0, 1), b),
                NamedKey::PageUp => (self.moved(b, -20, 0), b),
                NamedKey::PageDown => (self.moved(b, 20, 0), b),
                NamedKey::Escape => (self.stopped(), b),
                _ => (self, b),
            }
        }
    }

    /// What a key does.
    #[verifier::opaque]
    pub open spec fn keyed(
        self,
        b: BoardView,
        key: KeyView,
        g: Option<GridView>,
        now: u64,
    ) -> (CopyView, BoardView) {
        match key {
            KeyView::Character(c) => self.typed(b, c, g, now),
            KeyView::Named(n) => self.pressed(b, n, g, now),
            KeyView::Other => (self, b),
        }
    }
}

impl CopyMode {
    /// Leaves copy mode.
    pub fn stop(&mut self)
        ensures
            final(self)@ == old(self)@.stopped(),
    {
        self.on = false;
        self.anchor = None;
        self.query = String::new();
        self.searching = false;
    }

    /// Enters copy mode, where the active session has a scrollback; the view is held.
    pub fn start(&mut self, board: &mut Board)
        ensures
            final(self)@ == old(self)@.started(old(board)@),
            final(board)@ == if old(board)@.active < old(board)@.tabs.len() && old(
                board,
            )@.tabs[old(board)@.active as int].depth > 0 {
                old(board)@.held(true)
            } else {
                old(board)@
            },
            final(board)@.wf() == old(board)@.wf(),
    {
        let i: usize = board.active;
        if i < board.tabs.len() && board.tabs[i].depth > 0 {
            self.line = up_line(board.tabs[i].offset);
            self.col = 0;
            self.anchor = None;
            self.query = String::new();
            self.searching = false;
            self.on = true;
            board.hold(true);
        }
    }

    /// Moves the cursor, as far as the grid goes.
    pub fn walk(&mut self, board: &Board, lines: i32, cols: i32)
        ensures
            final(self)@ == old(self)@.moved(board@, lines as int, cols as int),
    {
        let i: usize = board.active;
        if i < board.tabs.len() {
            let t = &board.tabs[i];
            proof {
                assert(board@.tabs[i as int] == board.tabs@[i as int]@);
            }
            let lo: i64 = up_line(t.depth) as i64;
            let hi: i64 = bottom_line(t.lines) as i64;
            let l: i64 = self.line as i64 + lines as i64;
            self.line =
            if l < lo {
                lo as i32
            } else if l > hi {
                hi as i32
            } else {
                l as i32
            };
            let last: i128 = if t.cols == 0 {
                0
            } else {
                t.cols as i128 - 1
            };
            let c: i128 = self.col as i128 + cols as i128;
            self.col =
            if c < 0 {
                0
            } else if c > last {
                last as usize
            } else {
                c as usize
            };
        }
    }

    /// Moves the cursor by a word.
    pub fn walk_word(&mut self, grid: Option<&Grid>, forward: bool)
        requires
            grid matches Some(g) ==> g.wf(),
        ensures
            final(self)@ == old(self)@.at_word(grid_view(grid), forward),
    {
        if let Some(g) = grid {
            let top: i64 = -(g.history() as i64);
            if (self.line as i64) < top || self.line as i64 >= g.rows as i64 {
                return;
            }
            let text = line_text(g, self.line);
            let n: usize = text.len();
            let at: usize = if self.col < n {
                self.col
            } else if n == 0 {
                0
            } else {
                n - 1
            };
            if forward {
                let a: usize = skip(&text, at, true);
                let b: usize = skip(&text, a, false);
                let next: usize = skip(&text, b, true);
                if next < n {
                    self.col = next;
                } else if (self.line as i64) < g.rows as i64 - 1 {
                    self.line = self.line + 1;
                    self.col = 0;
                }
            } else {
                let a: usize = skip_back(&text, at, false);
                let b: usize = skip_back(&text, a, true);
                self.col = skip_back(&text, b, false);
            }
        }
    }

    /// Goes to the next match of the query, round the ends of the scrollback; says so where there
    /// is none.
    pub fn goto(&mut self, board: &mut Board, grid: Option<&Grid>, backwards: bool, now: u64)
        requires
            grid matches Some(g) ==> g.wf(),
        ensures
            final(self)@ == old(self)@.at_match(grid_view(grid), backwards),
            final(board)@ == old(self)@.told(old(board)@, grid_view(grid), now),
            final(board)@.wf() == old(board)@.wf(),
    {
        if self.query.as_str().is_empty() {
            return;
        }
        if let Some(g) = grid {
            let all = all_matches(g, self.query.as_str());
            if all.len() == 0 {
                board.say(copy_no_match_flash(self.query.as_str()), now);
            } else {
                let k: usize = find_match(&all, self.line, backwards);
                let m = all[k];
                self.line = m.0;
                self.col = m.1;
            }
        }
    }

    /// Copies what is selected and leaves copy mode.
    pub fn copy(&mut self, board: &mut Board)
        ensures
            final(self)@ == old(self)@.copied(old(board)@),
            final(board)@ == old(self)@.copy_asked(old(board)@),
            final(board)@.wf() == old(board)@.wf(),
    {
        match self.anchor {
            None => {
                self.on = false;
            },
            Some(a) => {
                if board.active < board.tabs.len() {
                    let c = (self.line, self.col);
                    if a.0 < c.0 || (a.0 == c.0 && a.1 < c.1) {
                        board.ask(Act::CopySpan(a.0, a.1, c.0, c.1));
                    } else {
                        board.ask(Act::CopySpan(c.0, c.1, a.0, a.1));
                    }
                    self.stop();
                }
            },
        }
    }

    fn type_text(&mut self, board: &mut Board, c: &str, grid: Option<&Grid>, now: u64)
        requires
            grid matches Some(g) ==> g.wf(),
        ensures
            (final(self)@, final(board)@) == old(self)@.typed(
                old(board)@,
                c@,
                grid_view(grid),
                now,
            ),
            final(board)@.wf() == old(board)@.wf(),
    {
        if self.searching {
            if !same_text(c, "/") {
                self.query.append(c);
            }
        } else if same_text(c, " ") {
            self.copy(board);
        } else if same_text(c, "/") {
            self.query = String::new();
            self.searching = true;
        } else if same_text(c, "n") {
            self.goto(board, grid, false, now);
        } else if same_text(c, "N") {
            self.goto(board, grid, true, now);
        } else if same_text(c, "h") {
            self.walk(board, 0, -1);
        } else if same_text(c, "j") {
            self.walk(board, 1, 0);
        } else if same_text(c, "k") {
            self.walk(board, -1, 0);
        } else if same_text(c, "l") {
            self.walk(board, 0, 1);
        } else if same_text(c, "w") {
            self.walk_word(grid, true);
            self.walk(board, 0, 0);
        } else if same_text(c, "b") {
            self.walk_word(grid, false);
            self.walk(board, 0, 0);
        } else if same_text(c, "v") {
            self.anchor = Some((self.line, self.col));
        } else if same_text(c, "g") && board.active < board.tabs.len() {
            self.line = up_line(board.tabs[board.active].depth);
            self.col = 0;
        } else if same_text(c, "G") && board.active < board.tabs.len() {
            self.line = bottom_line(board.tabs[board.active].lines);
            self.col = 0;
        } else if same_text(c, "q") {
            self.stop();
        }
    }

    fn press(&mut self, board: &mut Board, n: NamedKey, grid: Option<&Grid>, now: u64)
        requires
            grid matches Some(g) ==> g.wf(),
        ensures
            (final(self)@, final(board)@) == old(self)@.pressed(
                old(board)@,
                n,
                grid_view(grid),
                now,
            ),
            final(board)@.wf() == old(board)@.wf(),
    {
        if self.searching {
            match n {
                NamedKey::Backspace => {
                    self.query = drop_last_char(self.query.as_str());
                    self.searching = !self.query.as_str().is_empty();
                },
                NamedKey::Enter => {
                    self.searching = false;
                    self.goto(board, grid, false, now);
                },
                NamedKey::Escape => {
                    self.query = String::new();
                    self.searching = false;
                },
                _ => {},
            }
        } else {
            match n {
                NamedKey::Enter => self.copy(board),
                NamedKey::Space => self.copy(board),
                NamedKey::ArrowUp => self.walk(board, -1, 0),
                NamedKey::ArrowDown => self.walk(board, 1, 0),
                NamedKey::ArrowLeft => self.walk(board, 0, -1),
                NamedKey::ArrowRight => self.walk(board, 0, 1),
                NamedKey::PageUp => self.walk(board, -20, 0),
                NamedKey::PageDown => self.walk(board, 20, 0),
                NamedKey::Escape => self.stop(),
                _ => {},
            }
        }
    }

    /// Handles a key in copy mode. `grid` is the grid of the active session, where there is one.
    pub fn handle_key(&mut self, board: &mut Board, key: &Key, grid: Option<&Grid>, now: u64)
        requires
            grid matches Some(g) ==> g.wf(),
        ensures
            (final(self)@, final(board)@) == old(self)@.keyed(
                old(board)@,
                key@,
                grid_view(grid),
                now,
            ),
            final(board)@.wf() == old(board)@.wf(),
    {
        proof {
            reveal(CopyView::keyed);
        }
        match key {
            Key::Character(c) => self.type_text(board, c.as_str(), grid, now),
            Key::Named(n) => self.press(board, *n, grid, now),
            Key::Other => {},
        }
    }
}

/// The cursor never leaves the grid of the active session.
pub proof fn law_cursor_stays_inside(c: CopyView, b: BoardView, lines: int, cols: int)
    requires
        b.active < b.tabs.len(),
        b.tabs[b.active as int].cols > 0,
        b.tabs[b.active as int].lines > 0,
    ensures
        ({
            let t = b.tabs[b.active as int];
            let d = c.moved(b, lines, cols);
            line_above(t.depth) <= d.line <= last_line(t.lines) && d.col < t.cols
        }),
{
}

/// Leaving copy mode, whichever way, drops the selection and the query.
pub proof fn law_leaving_forgets(c: CopyView)
    ensures
        !c.stopped().on,
        c.stopped().anchor is None,
        c.stopped().query.len() == 0,
        !c.stopped().searching,
{
}

/// Going on to a match goes to one of those listed: to one on a later line where there is one, and
/// backwards to one on an earlier line where there is one.
pub proof fn law_next_match_is_a_match(all: Seq<Find>, line: i32, backwards: bool)
    requires
        all.len() > 0,
    ensures
        0 <= next_match(all, line, backwards) < all.len(),
        !backwards && (exists|i: int| 0 <= i < all.len() && (#[trigger] all[i]).0 > line)
            ==> all[next_match(all, line, backwards)].0 > line,
        backwards && (exists|i: int| 0 <= i < all.len() && (#[trigger] all[i]).0 < line)
            ==> all[next_match(all, line, backwards)].0 < line,
{
    lemma_first_after(all, line, 0);
    lemma_last_before(all, line, all.len() as int);
}

proof fn lemma_first_after(all: Seq<Find>, line: i32, from: int)
    requires
        0 <= from <= all.len(),
    ensures
        match first_after(all, line, from) {
            Some(i) => from <= i < all.len() && all[i].0 > line,
            None => forall|i: int| from <= i < all.len() ==> (#[trigger] all[i]).0 <= line,
        },
    decreases all.len() - from,
{
    if from < all.len() && all[from].0 <= line {
        lemma_first_after(all, line, from + 1);
    }
}

proof fn lemma_last_before(all: Seq<Find>, line: i32, n: int)
    requires
        0 <= n <= all.len(),
    ensures
        match last_before(all, line, n) {
            Some(i) => 0 <= i < n && all[i].0 < line,
            None => forall|i: int| 0 <= i < n ==> (#[trigger] all[i]).0 >= line,
        },
    decreases n,
{
    if n > 0 && all[n - 1].0 >= line {
        lemma_last_before(all, line, n - 1);
    }
}

/// The keys of copy mode are one character each.
proof fn lemma_copy_keys()
    ensures
        " "@.len() == 1 && " "@[0] == ' ',
        "/"@.len() == 1 && "/"@[0] == '/',
        "n"@.len() == 1 && "n"@[0] == 'n',
        "N"@.len() == 1 && "N"@[0] == 'N',
        "h"@.len() == 1 && "h"@[0] == 'h',
        "j"@.len() == 1 && "j"@[0] == 'j',
        "k"@.len() == 1 && "k"@[0] == 'k',
        "l"@.len() == 1 && "l"@[0] == 'l',
        "w"@.len() == 1 && "w"@[0] == 'w',
        "b"@.len() == 1 && "b"@[0] == 'b',
        "v"@.len() == 1 && "v"@[0] == 'v',
        "g"@.len() == 1 && "g"@[0] == 'g',
        "G"@.len() == 1 && "G"@[0] == 'G',
        "q"@.len() == 1 && "q"@[0] == 'q',
{
    reveal_strlit(" ");
    reveal_strlit("/");
    reveal_strlit("n");
    reveal_strlit("N");
    reveal_strlit("h");
    reveal_strlit("j");
    reveal_strlit("k");
    reveal_strlit("l");
    reveal_strlit("w");
    reveal_strlit("b");
    reveal_strlit("v");
    reveal_strlit("g");
    reveal_strlit("G");
    reveal_strlit("q");
}

/// Whether a key copies.
pub open spec fn copies(key: KeyView) -> bool {
    key == KeyView::Named(NamedKey::Enter) || key == KeyView::Named(NamedKey::Space) || key
        == KeyView::Character(" "@)
}

/// What is copied is what was selected: the cells from where the selection was started to where the
/// cursor stands, both with it, whichever comes first; and copying leaves copy mode.
pub proof fn law_selection_is_copied(
    c: CopyView,
    b: BoardView,
    key: KeyView,
    g: Option<GridView>,
    now: u64,
    a: (i32, usize),
    line: i32,
    col: usize,
)
    requires
        !c.searching,
        c.anchor == Some(a),
        b.active < b.tabs.len(),
        copies(key),
    ensures
        ({
            let (d, to) = c.keyed(b, key, g, now);
            let p = (c.line, c.col);
            &&& !d.on && d.anchor is None
            &&& to == BoardView { todo: to.todo, ..b }
            &&& to.todo.len() == b.todo.len() + 1
            &&& to.todo.drop_last() == b.todo
            &&& to.todo.last() matches Act::CopySpan(l1, c1, l2, c2) && {
                &&& ((l1, c1) == a && (l2, c2) == p) || ((l1, c1) == p && (l2, c2) == a)
                &&& l1 < l2 || (l1 == l2 && c1 <= c2)
                // A cell is in the span just where it lies between the two ends.
                &&& ((l1 < line || (l1 == line && c1 <= col)) && (line < l2 || (line == l2 && col
                    <= c2))) == (((a.0 < line || (a.0 == line && a.1 <= col)) && (line < p.0 || (line
                    == p.0 && col <= p.1))) || ((p.0 < line || (p.0 == line && p.1 <= col)) && (line
                    < a.0 || (line == a.0 && col <= a.1))))
            }
        }),
{
    reveal(CopyView::keyed);
    lemma_copy_keys();
    let to = c.keyed(b, key, g, now).1;
    assert(to.todo.drop_last() =~= b.todo);
}

/// Without a selection nothing is copied; copy mode is left.
pub proof fn law_nothing_selected(
    c: CopyView,
    b: BoardView,
    key: KeyView,
    g: Option<GridView>,
    now: u64,
)
    requires
        !c.searching,
        c.anchor is None,
        copies(key),
    ensures
        !c.keyed(b, key, g, now).0.on,
        c.keyed(b, key, g, now).1 == b,
{
    reveal(CopyView::keyed);
    lemma_copy_keys();
}

/// A selection starts at the cursor, which stays where it is; nothing is asked for.
pub proof fn law_selection_starts(c: CopyView, b: BoardView, g: Option<GridView>, now: u64)
    requires
        !c.searching,
    ensures
        c.keyed(b, KeyView::Character("v"@), g, now) == (
            CopyView { anchor: Some((c.line, c.col)), ..c },
            b,
        ),
{
    reveal(CopyView::keyed);
    lemma_copy_keys();
}

/// Whether a key moves the cursor of copy mode.
pub open spec fn walks(key: KeyView) -> bool {
    key == KeyView::Character("h"@) || key == KeyView::Character("j"@) || key
        == KeyView::Character("k"@) || key == KeyView::Character("l"@) || key == KeyView::Character(
        "w"@,
    ) || key == KeyView::Character("b"@) || key == KeyView::Character("g"@) || key
        == KeyView::Character("G"@) || key == KeyView::Character("n"@) || key
        == KeyView::Character("N"@) || key == KeyView::Named(NamedKey::ArrowUp) || key
        == KeyView::Named(NamedKey::ArrowDown) || key == KeyView::Named(NamedKey::ArrowLeft) || key
        == KeyView::Named(NamedKey::ArrowRight) || key == KeyView::Named(NamedKey::PageUp) || key
        == KeyView::Named(NamedKey::PageDown)
}

/// Moving the cursor keeps the selection's other end and stays in copy mode, and asks for nothing.
pub proof fn law_selection_is_kept(
    c: CopyView,
    b: BoardView,
    key: KeyView,
    g: Option<GridView>,
    now: u64,
)
    requires
        !c.searching,
        walks(key),
    ensures
        ({
            let (d, to) = c.keyed(b, key, g, now);
            &&& d.anchor == c.anchor && d.on == c.on && !d.searching && d.query == c.query
            &&& to.todo == b.todo && to.tabs == b.tabs && to.active == b.active
        }),
{
    reveal(CopyView::keyed);
    lemma_copy_keys();
}

/// The cursor goes one cell left, down, up and right, and a page of twenty lines up and down, as
/// far as the grid of the active session goes; to its first line and to its last.
pub proof fn law_cursor_walks(c: CopyView, b: BoardView, g: Option<GridView>, now: u64)
    requires
        !c.searching,
        b.active < b.tabs.len(),
        ({
            let t = b.tabs[b.active as int];
            &&& 0 < t.cols && 0 < t.lines <= i32::MAX && t.depth <= i32::MAX
            &&& -(t.depth as int) <= c.line < t.lines && c.col < t.cols
        }),
    ensures
        ({
            let t = b.tabs[b.active as int];
            let last = t.lines - 1;
            let first = -(t.depth as int);
            let to = |key: KeyView| c.keyed(b, key, g, now).0;
            let left = to(KeyView::Character("h"@));
            let down = to(KeyView::Character("j"@));
            let up = to(KeyView::Character("k"@));
            let right = to(KeyView::Character("l"@));
            let high = to(KeyView::Named(NamedKey::PageUp));
            let low = to(KeyView::Named(NamedKey::PageDown));
            let top = to(KeyView::Character("g"@));
            let bottom = to(KeyView::Character("G"@));
            &&& left.line == c.line && (c.col > 0 ==> left.col == c.col - 1) && (c.col == 0
                ==> left.col == 0)
            &&& right.line == c.line && (c.col + 1 < t.cols ==> right.col == c.col + 1) && (c.col + 1
                == t.cols ==> right.col == c.col)
            &&& down.col == c.col && (c.line < last ==> down.line == c.line + 1) && (c.line == last
                ==> down.line == c.line)
            &&& up.col == c.col && (c.line > first ==> up.line == c.line - 1) && (c.line == first
                ==> up.line == c.line)
            &&& high.col == c.col && (c.line - 20 >= first ==> high.line == c.line - 20) && (c.line
                - 20 < first ==> high.line == first)
            &&& low.col == c.col && (c.line + 20 <= last ==> low.line == c.line + 20) && (c.line + 20
                > last ==> low.line == last)
            &&& top.line == first && top.col == 0
            &&& bottom.line == last && bottom.col == 0
            &&& to(KeyView::Named(NamedKey::ArrowLeft)) == left
            &&& to(KeyView::Named(NamedKey::ArrowDown)) == down
            &&& to(KeyView::Named(NamedKey::ArrowUp)) == up
            &&& to(KeyView::Named(NamedKey::ArrowRight)) == right
        }),
{
    reveal(CopyView::keyed);
    lemma_copy_keys();
}

/// Copy mode starts at the first cell of the view, with nothing selected, where the session has a
/// scrollback; else it does not start.
pub proof fn law_copy_mode_starts(c: CopyView, b: BoardView)
    requires
        b.active < b.tabs.len(),
        b.tabs[b.active as int].offset <= i32::MAX,
    ensures
        ({
            let t = b.tabs[b.active as int];
            let d = c.started(b);
            &&& t.depth > 0 ==> d.on && d.line == -(t.offset as int) && d.col == 0 && d.anchor is None
                && d.query.len() == 0 && !d.searching
            &&& t.depth == 0 ==> d == c
        }),
{
}

/// Leaving with q or with the escape key forgets the selection and the search; nothing is copied.
pub proof fn law_copy_mode_is_left(c: CopyView, b: BoardView, g: Option<GridView>, now: u64)
    requires
        !c.searching,
    ensures
        ({
            let (d, to) = c.keyed(b, KeyView::Character("q"@), g, now);
            &&& !d.on && d.anchor is None && d.query.len() == 0
            &&& to == b
            &&& c.keyed(b, KeyView::Named(NamedKey::Escape), g, now) == (d, to)
        }),
{
    reveal(CopyView::keyed);
    lemma_copy_keys();
}

/// While a search is typed, what is typed is put behind the query, backspace takes the last
/// character away, escape drops it all, and the cursor stays.
pub proof fn law_search_is_typed(
    c: CopyView,
    b: BoardView,
    t: Seq<char>,
    g: Option<GridView>,
    now: u64,
)
    requires
        c.searching,
        t != "/"@,
    ensures
        c.keyed(b, KeyView::Character(t), g, now).0 == (CopyView { query: c.query + t, ..c }),
        c.query.len() > 1 ==> c.keyed(b, KeyView::Named(NamedKey::Backspace), g, now).0 == (CopyView {
            query: c.query.drop_last(),
            ..c
        }),
        c.query.len() == 1 ==> c.keyed(b, KeyView::Named(NamedKey::Backspace), g, now).0
            == (CopyView { query: Seq::empty(), searching: false, ..c }),
        c.keyed(b, KeyView::Named(NamedKey::Escape), g, now).0 == (CopyView {
            query: Seq::empty(),
            searching: false,
            ..c
        }),
{
    reveal(CopyView::keyed);
    lemma_copy_keys();
    if c.query.len() == 1 {
        assert(without_last(c.query) =~= Seq::empty());
    }
}

/// The match that is gone on to is the nearest further on: forward the first on a later line, and
/// the first of all where there is none; backwards the last on an earlier line, and the last of all
/// where there is none.
pub proof fn law_next_match_is_the_nearest(all: Seq<Find>, line: i32)
    requires
        all.len() > 0,
    ensures
        ({
            let i = next_match(all, line, false);
            &&& 0 <= i < all.len()
            &&& all[i].0 > line ==> forall|j: int| 0 <= j < i ==> (#[trigger] all[j]).0 <= line
            &&& all[i].0 <= line ==> i == 0 && forall|j: int|
                0 <= j < all.len() ==> (#[trigger] all[j]).0 <= line
        }),
        ({
            let i = next_match(all, line, true);
            &&& 0 <= i < all.len()
            &&& all[i].0 < line ==> forall|j: int|
                i < j < all.len() ==> (#[trigger] all[j]).0 >= line
            &&& all[i].0 >= line ==> i == all.len() - 1 && forall|j: int|
                0 <= j < all.len() ==> (#[trigger] all[j]).0 >= line
        }),
{
    lemma_first_after(all, line, 0);
    lemma_last_before(all, line, all.len() as int);
    lemma_first_is_first(all, line, 0);
    lemma_last_is_last(all, line, all.len() as int);
}

proof fn lemma_first_is_first(all: Seq<Find>, line: i32, from: int)
    requires
        0 <= from <= all.len(),
    ensures
        first_after(all, line, from) matches Some(i) ==> forall|j: int|
            from <= j < i ==> (#[trigger] all[j]).0 <= line,
    decreases all.len() - from,
{
    if from < all.len() && all[from].0 <= line {
        lemma_first_is_first(all, line, from + 1);
    }
}

proof fn lemma_last_is_last(all: Seq<Find>, line: i32, n: int)
    requires
        0 <= n <= all.len(),
    ensures
        last_before(all, line, n) matches Some(i) ==> forall|j: int|
            i < j < n ==> (#[trigger] all[j]).0 >= line,
    decreases n,
{
    if n > 0 && all[n - 1].0 >= line {
        lemma_last_is_last(all, line, n - 1);
    }
}

/// A search in copy mode that finds anything leaves the cursor at the start of a match; one that
/// finds nothing leaves it where it stands.
pub proof fn law_search_lands_on_a_match(
    c: CopyView,
    b: BoardView,
    g: GridView,
    now: u64,
    key: KeyView,
)
    requires
        c.query.len() > 0,
        (c.searching && key == KeyView::Named(NamedKey::Enter)) || (!c.searching && (key
            == KeyView::Character("n"@) || key == KeyView::Character("N"@))),
    ensures
        ({
            let all = grid_hits(g, c.query, g.rows as int);
            let (d, to) = c.keyed(b, key, Some(g), now);
            &&& !d.searching && d.query == c.query && d.anchor == c.anchor && d.on == c.on
            &&& all.len() == 0 ==> d.line == c.line && d.col == c.col && to.flash is Some
            &&& all.len() > 0 ==> to == b && exists|i: int|
                0 <= i < all.len() && (#[trigger] all[i]).0 == d.line && all[i].1 == d.col
        }),
{
    reveal(CopyView::keyed);
    lemma_copy_keys();
    let all = grid_hits(g, c.query, g.rows as int);
    if all.len() > 0 {
        law_next_match_is_the_nearest(all, c.line);
        let back = key == KeyView::Character("N"@);
        let i = next_match(all, c.line, back);
        assert(0 <= i < all.len());
        assert(all[i].0 == c.keyed(b, key, Some(g), now).0.line);
    }
}

proof fn lemma_skipped(text: Seq<char>, i: int, over: bool)
    requires
        0 <= i <= text.len(),
    ensures
        ({
            let j = skipped(text, i, over);
            &&& i <= j <= text.len()
            &&& forall|k: int| i <= k < j ==> gap(text, k) == over
            &&& j < text.len() ==> gap(text, j) != over
        }),
    decreases text.len() - i,
{
    if i < text.len() && gap(text, i) == over {
        lemma_skipped(text, i + 1, over);
    }
}

proof fn lemma_skipped_back(text: Seq<char>, i: int, over: bool)
    requires
        0 <= i <= text.len(),
    ensures
        ({
            let j = skipped_back(text, i, over);
            &&& 0 <= j <= i
            &&& forall|k: int| j <= k < i ==> gap(text, k) == over
            &&& j > 0 ==> gap(text, j - 1) != over
        }),
    decreases i,
{
    if i > 0 && gap(text, i - 1) == over {
        lemma_skipped_back(text, i - 1, over);
    }
}

/// The cursor goes to the start of a word further right in its line, and to that of one further
/// left: no character of a word stands right before it, and between the word that it leaves and the
/// one that it reaches there is no other. From the last word of a line it goes to the start of the
/// next line.
pub proof fn law_words_are_walked(c: CopyView, g: GridView)
    requires
        g.wf(),
        g.top() <= c.line < g.rows,
        c.col < g.cols <= usize::MAX,
    ensures
        ({
            let text = line_chars(g.line(c.line as int));
            let next = c.at_word(Some(g), true);
            let back = c.at_word(Some(g), false);
            &&& next.line == c.line && next != c ==> {
                &&& next.col > c.col
                &&& !gap(text, next.col as int)
                &&& gap(text, next.col - 1)
            }
            &&& next.line == c.line || (next.line == c.line + 1 && next.col == 0)
            &&& next.line > c.line ==> forall|i: int|
                c.col < i < text.len() && gap(text, i - 1) && !gap(text, c.col as int) ==> #[trigger] gap(
                    text,
                    i,
                )
            &&& back.line == c.line
            &&& back.col <= c.col
            &&& back.col == 0 || gap(text, back.col - 1)
            &&& back.col > 0 ==> !gap(text, back.col as int)
        }),
{
    let text = line_chars(g.line(c.line as int));
    assert(text.len() == g.cols);
    let at = c.col as int;
    lemma_skipped(text, at, true);
    let a = skipped(text, at, true);
    lemma_skipped(text, a, false);
    let b = skipped(text, a, false);
    lemma_skipped(text, b, true);
    lemma_skipped_back(text, at, false);
    let d = skipped_back(text, at, false);
    lemma_skipped_back(text, d, true);
    let e = skipped_back(text, d, true);
    lemma_skipped_back(text, e, false);
    let f = skipped_back(text, e, false);
    let n = skipped(text, b, true);
    let next = c.at_word(Some(g), true);
    let back = c.at_word(Some(g), false);
    assert(back.col == f);
    if n < text.len() {
        assert(next.col == n);
        assert(gap(text, b));
        assert(gap(text, n - 1));
    }
    if e > 0 {
        assert(!gap(text, e - 1));
        assert(!gap(text, f));
    }
    assert forall|i: int|
        next.line > c.line && c.col < i < text.len() && gap(text, i - 1) && !gap(
            text,
            c.col as int,
        ) implies #[trigger] gap(text, i) by {
        assert(i - 1 >= b);
    }
}

} // verus!
