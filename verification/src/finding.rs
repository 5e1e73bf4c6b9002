//! Searching: the find bar over the active session, and the search over all sessions.

use vstd::prelude::*;

use crate::board::{Board, BoardView};
use crate::grid::{Find, Grid};
use crate::search::{collect_fleet_matches, fleet_hits, FleetMatch};
use crate::text::{lowercase, lowercased, texts};
use crate::triage::{ring_back, ring_on};
use crate::words::{prepend_capped, recalled};

verus! {

/// How many queries are remembered.
pub const REMEMBERED: usize = 16;

/// The find bar.
pub struct Finder {
    pub query: String,
    /// The queries that were run, the latest first.
    pub history: Vec<String>,
    pub case_sensitive: bool,
    pub whole_word: bool,
    /// Every match of the query.
    pub all: Vec<Find>,
    /// Which of them is in focus.
    pub index: usize,
    pub hit: Option<Find>,
}

/// The find bar as plain data.
#[verifier::ext_equal]
pub struct FinderView {
    pub query: Seq<char>,
    pub history: Seq<Seq<char>>,
    pub case_sensitive: bool,
    pub whole_word: bool,
    pub all: Seq<Find>,
    pub index: usize,
    pub hit: Option<Find>,
}

impl View for Finder {
    type V = FinderView;

    open spec fn view(&self) -> FinderView {
        FinderView {
            query: self.query@,
            history: texts(self.history@),
            case_sensitive: self.case_sensitive,
            whole_word: self.whole_word,
            all: self.all@,
            index: self.index,
            hit: self.hit,
        }
    }
}

/// The first match on a line or below it.
pub open spec fn first_from(all: Seq<Find>, line: i32, from: int) -> Option<int>
    decreases all.len() - from,
{
    if from < 0 || from >= all.len() {
        None
    } else if all[from].0 >= line {
        Some(from)
    } else {
        first_from(all, line, from + 1)
    }
}

/// The element at a place, where there is one.
pub open spec fn nth<T>(s: Seq<T>, i: int) -> Option<T> {
    if 0 <= i < s.len() {
        Some(s[i])
    } else {
        None
    }
}

impl FinderView {
    /// As it is when opened.
    pub open spec fn opened(self) -> FinderView {
        FinderView { query: Seq::empty(), hit: None, all: Seq::empty(), index: 0, ..self }
    }

    /// With the matches of the query: in focus is the first on the line that was in focus before or
    /// below it, else the first of all.
    pub open spec fn found(self, all: Seq<Find>) -> FinderView {
        let i = match self.hit {
            Some(h) => match first_from(all, h.0, 0) {
                Some(i) => i,
                None => 0,
            },
            None => 0,
        };
        FinderView { all, index: i as usize, hit: nth(all, i), ..self }
    }

    /// With the next match in focus, or the one before, round the ends.
    pub open spec fn stepped(self, forward: bool) -> FinderView {
        let m = self.all.len() as int;
        if m == 0 {
            self
        } else {
            let i = if forward {
                (self.index + 1) % m
            } else {
                (self.index - 1) % m
            };
            FinderView { index: i as usize, hit: nth(self.all, i), ..self }
        }
    }

    /// With the query remembered.
    pub open spec fn recorded(self) -> FinderView {
        FinderView { history: recalled(self.history, self.query, REMEMBERED as int), ..self }
    }

    /// The board with the match in focus at the top of the view.
    pub open spec fn shown(self, b: BoardView) -> BoardView {
        match self.hit {
            Some(h) => b.at_line(h.0 as int),
            None => b,
        }
    }
}

fn find_first_from(all: &Vec<Find>, line: i32) -> (r: Option<usize>)
    ensures
        match r {
            Some(i) => first_from(all@, line, 0) == Some(i as int) && i < all@.len(),
            None => first_from(all@, line, 0) is None,
        },
{
    let mut i: usize = 0;
    while i < all.len()
        invariant
            i <= all@.len(),
            first_from(all@, line, 0) == first_from(all@, line, i as int),
        decreases all@.len() - i,
    {
        if all[i].0 >= line {
            return Some(i);
        }
        i = i + 1;
    }
    None
}

impl Finder {
    fn focus(&mut self, i: usize)
        ensures
            final(self)@ == (FinderView {
                index: i,
                hit: nth(old(self)@.all, i as int),
                ..old(self)@
            }),
    {
        self.index = i;
        self.hit =
        if i < self.all.len() {
            Some(self.all[i])
        } else {
            None
        };
    }

    /// Opens the bar with nothing in it.
    pub fn open(&mut self)
        ensures
            final(self)@ == old(self)@.opened(),
    {
        self.query = String::new();
        self.all = Vec::new();
        self.hit = None;
        self.index = 0;
    }

    /// Takes the matches of the query and brings the one in focus into view.
    pub fn take(&mut self, all: Vec<Find>, board: &mut Board)
        ensures
            final(self)@ == old(self)@.found(all@),
            final(board)@ == final(self)@.shown(old(board)@),
            final(board)@.wf() == old(board)@.wf(),
    {
        let i: usize = match self.hit {
            Some(h) => match find_first_from(&all, h.0) {
                Some(i) => i,
                None => 0,
            },
            None => 0,
        };
        self.all = all;
        self.focus(i);
        if let Some(h) = self.hit {
            board.scroll_to_line(h.0);
        }
    }

    /// Goes to the next match, or the one before, round the ends.
    pub fn jump(&mut self, forward: bool, board: &mut Board)
        ensures
            final(self)@ == old(self)@.stepped(forward),
            final(board)@ == if old(self)@.all.len() == 0 {
                old(board)@
            } else {
                final(self)@.shown(old(board)@)
            },
            final(board)@.wf() == old(board)@.wf(),
    {
        let m: usize = self.all.len();
        if m > 0 {
            let i: usize = if forward {
                ring_on(m, self.index, 1)
            } else {
                ring_back(m, self.index, 1)
            };
            self.focus(i);
            if let Some(h) = self.hit {
                board.scroll_to_line(h.0);
            }
        }
    }

    /// Remembers the query.
    pub fn record(&mut self)
        ensures
            final(self)@ == old(self)@.recorded(),
    {
        let q = self.query.clone();
        prepend_capped(&mut self.history, q.as_str(), REMEMBERED);
    }
}

/// Whatever is searched for, the match in focus is one of the matches.
pub proof fn law_focus_is_a_match(f: FinderView, all: Seq<Find>, forward: bool)
    requires
        0 < all.len() <= usize::MAX,
    ensures
        f.found(all).hit == Some(all[f.found(all).index as int]),
        f.found(all).index < all.len(),
        f.found(all).stepped(forward).hit == Some(
            all[f.found(all).stepped(forward).index as int],
        ),
        f.found(all).stepped(forward).index < all.len(),
{
    if let Some(h) = f.hit {
        lemma_first_from(all, h.0, 0);
    }
}

proof fn lemma_first_from(all: Seq<Find>, line: i32, from: int)
    requires
        0 <= from,
    ensures
        first_from(all, line, from) matches Some(i) ==> from <= i < all.len(),
    decreases all.len() - from,
{
    if from < all.len() && all[from].0 < line {
        lemma_first_from(all, line, from + 1);
    }
}

/// A step forward and a step back come to the same match.
pub proof fn law_step_back(f: FinderView)
    requires
        f.index < f.all.len() <= usize::MAX,
    ensures
        f.stepped(true).stepped(false).index == f.index,
        f.stepped(false).stepped(true).index == f.index,
{
    let m = f.all.len() as int;
    let i = f.index as int;
    if i + 1 < m {
        vstd::arithmetic::div_mod::lemma_small_mod((i + 1) as nat, m as nat);
    } else {
        vstd::arithmetic::div_mod::lemma_mod_self_0(m);
        vstd::arithmetic::div_mod::lemma_mod_add_multiples_vanish(-1, m);
        vstd::arithmetic::div_mod::lemma_small_mod((m - 1) as nat, m as nat);
    }
    vstd::arithmetic::div_mod::lemma_small_mod(i as nat, m as nat);
    if i > 0 {
        vstd::arithmetic::div_mod::lemma_small_mod((i - 1) as nat, m as nat);
    } else {
        vstd::arithmetic::div_mod::lemma_mod_add_multiples_vanish(-1, m);
        vstd::arithmetic::div_mod::lemma_small_mod((m - 1) as nat, m as nat);
        vstd::arithmetic::div_mod::lemma_mod_self_0(m);
    }
}

/// The search over all sessions.
pub struct Hunt {
    pub query: String,
    pub matches: Vec<FleetMatch>,
    /// Which match is selected.
    pub sel: usize,
}

/// The search over all sessions as plain data.
#[verifier::ext_equal]
pub struct HuntView {
    pub query: Seq<char>,
    pub matches: Seq<FleetMatch>,
    pub sel: usize,
}

impl View for Hunt {
    type V = HuntView;

    open spec fn view(&self) -> HuntView {
        HuntView { query: self.query@, matches: self.matches@, sel: self.sel }
    }
}

/// A selection kept within a list of `n`.
pub open spec fn kept(sel: usize, n: nat) -> usize {
    if sel < n {
        sel
    } else {
        crate::board::last_of(n)
    }
}

/// A selected row, or the last where there are fewer rows.
pub fn keep_within(sel: usize, n: usize) -> (r: usize)
    ensures
        r == kept(sel, n as nat),
{
    if sel < n {
        sel
    } else if n == 0 {
        0
    } else {
        n - 1
    }
}

impl HuntView {
    pub open spec fn opened(self) -> HuntView {
        HuntView { query: Seq::empty(), matches: Seq::empty(), sel: 0 }
    }

    /// With the matches of the query in all sessions.
    pub open spec fn hunted(self, grids: Seq<Grid>) -> HuntView {
        let q = lowercased(self.query);
        let matches = if q.len() == 0 {
            Seq::empty()
        } else {
            fleet_hits(grids, q, grids.len() as int)
        };
        HuntView { matches, sel: kept(self.sel, matches.len()), ..self }
    }

    /// With the next match selected, or the one before, round the ends.
    pub open spec fn stepped(self, forward: bool) -> HuntView {
        let m = self.matches.len() as int;
        if m == 0 {
            self
        } else if forward {
            HuntView { sel: ((self.sel + 1) % m) as usize, ..self }
        } else {
            HuntView { sel: ((self.sel - 1) % m) as usize, ..self }
        }
    }
}

impl Hunt {
    /// Opens the search with nothing in it.
    pub fn open(&mut self)
        ensures
            final(self)@ == old(self)@.opened(),
    {
        self.query = String::new();
        self.matches = Vec::new();
        self.sel = 0;
    }

    /// Searches all sessions for the query.
    pub fn run(&mut self, grids: &Vec<Grid>)
        requires
            forall|i: int| 0 <= i < grids@.len() ==> (#[trigger] grids@[i]).wf(),
        ensures
            final(self)@ == old(self)@.hunted(grids@),
    {
        let q = lowercase(self.query.as_str());
        self.matches =
        if q.as_str().is_empty() {
            Vec::new()
        } else {
            collect_fleet_matches(grids, q.as_str())
        };
        self.sel = keep_within(self.sel, self.matches.len());
    }

    /// Selects the next match, or the one before, round the ends.
    pub fn jump(&mut self, forward: bool)
        ensures
            final(self)@ == old(self)@.stepped(forward),
    {
        let m: usize = self.matches.len();
        if m > 0 {
            self.sel =
            if forward {
                ring_on(m, self.sel, 1)
            } else {
                ring_back(m, self.sel, 1)
            };
        }
    }
}

} // verus!
