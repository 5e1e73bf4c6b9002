//! Laws of what a query matches: in the lists, in a session and in all of them.

use vstd::prelude::*;
use vstd::utf8::is_ascii_chars;

use crate::grid::{Find, Grid, GridView};
use crate::lists::{fleet_mask, palette_mask, FleetRowView, PALETTE_ROWS};
use crate::machines::{machine, tabs_on};
use crate::search::{fleet_hits, grid_hits, line_chars, line_hits, tab_hits, FleetMatch};
use crate::text::{ascii_lower_char, lemma_search, lowercased, occurs};
use crate::triage::below;
use crate::words::{embeds, fuzzy};

verus! {

/// A loose match takes the letters of the query in their order, whatever stands between them and
/// whatever their case: the empty query is matched by everything, every text by itself, and a query
/// that is longer than the text, or has a letter that is not in it, by nothing.
pub proof fn law_loose_match(q: Seq<char>, h: Seq<char>, k: int)
    ensures
        fuzzy(Seq::empty(), h),
        fuzzy(h, h),
        q.len() > h.len() ==> !fuzzy(q, h),
        0 <= k < q.len() && (forall|j: int|
            0 <= j < h.len() ==> ascii_lower_char(#[trigger] h[j]) != ascii_lower_char(q[k]))
            ==> !fuzzy(q, h),
{
    assert(embeds(Seq::empty(), h, Seq::empty()));
    let all = Seq::new(h.len(), |i: int| i);
    assert(embeds(h, h, all));
    if fuzzy(q, h) {
        let at = choose|at: Seq<int>| embeds(q, h, at);
        lemma_climbs(at, h.len() as int, q.len() as int);
        if 0 <= k < q.len() {
            assert(0 <= at[k] < h.len());
            assert(ascii_lower_char(h[at[k]]) == ascii_lower_char(q[k]));
        }
    }
}

proof fn lemma_climbs(at: Seq<int>, n: int, k: int)
    requires
        0 <= k <= at.len(),
        0 <= n,
        forall|i: int| 0 <= i < at.len() ==> 0 <= #[trigger] at[i] < n,
        forall|i: int, j: int| 0 <= i < j < at.len() ==> at[i] < at[j],
    ensures
        k > 0 ==> at[k - 1] >= k - 1,
        k <= n,
    decreases k,
{
    if k > 1 {
        lemma_climbs(at, n, k - 1);
        assert(at[k - 2] < at[k - 1]);
    }
    if k > 0 {
        assert(at[k - 1] < n);
    }
}

/// A loose match stays one when more is written before or behind the text, or when the query loses
/// its last letter.
pub proof fn law_loose_match_goes_on(q: Seq<char>, h: Seq<char>, front: Seq<char>, back: Seq<char>)
    requires
        fuzzy(q, h),
    ensures
        fuzzy(q, front + h + back),
        q.len() > 0 ==> fuzzy(q.drop_last(), h),
{
    let at = choose|at: Seq<int>| embeds(q, h, at);
    let n = front.len() as int;
    let more = front + h + back;
    let to = at.map_values(|i: int| i + n);
    assert forall|i: int| 0 <= i < to.len() implies 0 <= #[trigger] to[i] < more.len()
        && ascii_lower_char(more[to[i]]) == ascii_lower_char(q[i]) by {
        assert(to[i] == at[i] + n);
        assert(more[at[i] + n] == h[at[i]]);
    }
    assert forall|i: int, j: int| 0 <= i < j < to.len() implies to[i] < to[j] by {
        assert(at[i] < at[j]);
    }
    assert(embeds(q, more, to));
    if q.len() > 0 {
        let less = at.drop_last();
        assert forall|i: int| 0 <= i < less.len() implies 0 <= #[trigger] less[i] < h.len()
            && ascii_lower_char(h[less[i]]) == ascii_lower_char(q.drop_last()[i]) by {
            assert(less[i] == at[i]);
        }
        assert(embeds(q.drop_last(), h, less));
    }
}

/// An empty query leaves every action of the palette, and one that is an action's own name leaves
/// that one.
pub proof fn law_palette_is_narrowed(i: int)
    requires
        0 <= i < PALETTE_ROWS@.len(),
    ensures
        palette_mask(Seq::empty())[i],
        palette_mask(PALETTE_ROWS@[i].0@)[i],
{
    assert(is_ascii_chars(Seq::<char>::empty()));
    assert(lowercased(Seq::<char>::empty()).len() == 0);
    let low = lowercased(PALETTE_ROWS@[i].0@);
    law_loose_match(low, low, 0);
}

/// Whether a query stands somewhere in a text, whatever the case.
pub open spec fn stands_in(text: Seq<char>, query: Seq<char>) -> bool {
    exists|j: int| occurs(lowercased(text), lowercased(query), j)
}

/// A query leaves the sessions of the fleet that have it in their number, their pane, their agent
/// or their name, whatever the case, and no others; an empty one leaves all.
pub proof fn law_fleet_is_narrowed(rows: Seq<FleetRowView>, query: Seq<char>, i: int)
    requires
        0 <= i < rows.len(),
    ensures
        fleet_mask(rows, Seq::empty())[i],
        lowercased(query).len() > 0 ==> (fleet_mask(rows, query)[i] <==> stands_in(
            rows[i].session_id,
            query,
        ) || stands_in(rows[i].tmux_pane, query) || stands_in(rows[i].engine, query) || stands_in(
            rows[i].name,
            query,
        )),
{
    assert(is_ascii_chars(Seq::<char>::empty()));
    assert(lowercased(Seq::<char>::empty()).len() == 0);
    let q = lowercased(query);
    lemma_search(lowercased(rows[i].session_id), q, 0);
    lemma_search(lowercased(rows[i].tmux_pane), q, 0);
    lemma_search(lowercased(rows[i].engine), q, 0);
    lemma_search(lowercased(rows[i].name), q, 0);
}

/// The matches in a session are the matches in its lines, in the scrollback and on the screen, and
/// no others.
pub proof fn law_matches_are_in_lines(g: GridView, query: Seq<char>, upto: int, f: Find)
    ensures
        grid_hits(g, query, upto).contains(f) <==> exists|l: int|
            g.top() <= l < upto && (#[trigger] line_hits(line_chars(g.line(l)), l, query)).contains(f),
    decreases upto - g.top(),
{
    let low = lowercased(query);
    let all = grid_hits(g, query, upto);
    if upto > g.top() {
        law_matches_are_in_lines(g, query, upto - 1, f);
        let front = grid_hits(g, query, upto - 1);
        let here = line_hits(line_chars(g.line(upto - 1)), upto - 1, query);
        assert(all == front + here);
        if front.contains(f) {
            let x = choose|x: int| 0 <= x < front.len() && front[x] == f;
            assert(all[x] == f);
        }
        if here.contains(f) {
            let x = choose|x: int| 0 <= x < here.len() && here[x] == f;
            assert(all[front.len() + x] == f);
        }
        if all.contains(f) {
            let x = choose|x: int| 0 <= x < all.len() && all[x] == f;
            if x < front.len() {
                assert(front[x] == f);
            } else {
                assert(here[x - front.len()] == f);
                assert(line_hits(line_chars(g.line(upto - 1)), upto - 1, query).contains(f));
            }
        }
        if exists|l: int|
            g.top() <= l < upto && (#[trigger] line_hits(line_chars(g.line(l)), l, query)).contains(
                f,
            ) {
            let l = choose|l: int|
                g.top() <= l < upto && (#[trigger] line_hits(
                    line_chars(g.line(l)),
                    l,
                    query,
                )).contains(f);
            if l < upto - 1 {
                assert(front.contains(f));
            } else {
                assert(here.contains(f));
            }
        }
    }
}

/// A search over all sessions finds what a search in each of them finds, with the session's number,
/// and nothing else.
pub proof fn law_fleet_matches(grids: Seq<Grid>, query: Seq<char>, n: int, m: FleetMatch)
    requires
        0 <= n <= grids.len() <= usize::MAX,
    ensures
        fleet_hits(grids, query, n).contains(m) <==> m.tab < n && exists|k: int|
            0 <= k < grid_hits(grids[m.tab as int]@, query, grids[m.tab as int]@.rows as int).len() && (
            #[trigger] grid_hits(
                grids[m.tab as int]@,
                query,
                grids[m.tab as int]@.rows as int,
            )[k]).0 == m.line && grid_hits(
                grids[m.tab as int]@,
                query,
                grids[m.tab as int]@.rows as int,
            )[k].1 == m.col,
    decreases n,
{
    let all = fleet_hits(grids, query, n);
    if n > 0 {
        law_fleet_matches(grids, query, n - 1, m);
        let front = fleet_hits(grids, query, n - 1);
        let g = grids[n - 1]@;
        let here = tab_hits(g, n - 1, query);
        let found = grid_hits(g, query, g.rows as int);
        assert(all == front + here);
        assert forall|x: int| 0 <= x < here.len() implies #[trigger] here[x] == (FleetMatch {
            tab: (n - 1) as usize,
            line: found[x].0,
            col: found[x].1,
        }) by {}
        if front.contains(m) {
            let x = choose|x: int| 0 <= x < front.len() && front[x] == m;
            assert(all[x] == m);
        }
        if here.contains(m) {
            let x = choose|x: int| 0 <= x < here.len() && here[x] == m;
            assert(all[front.len() + x] == m);
            assert(found[x].0 == m.line && found[x].1 == m.col);
        }
        if all.contains(m) {
            let x = choose|x: int| 0 <= x < all.len() && all[x] == m;
            if x < front.len() {
                assert(front[x] == m);
            } else {
                assert(here[x - front.len()] == m);
                assert(here.contains(m));
            }
        }
        if m.tab == n - 1 && exists|k: int|
            0 <= k < found.len() && (#[trigger] found[k]).0 == m.line && found[k].1 == m.col {
            let k = choose|k: int|
                0 <= k < found.len() && (#[trigger] found[k]).0 == m.line && found[k].1 == m.col;
            assert(here[k] == m);
            assert(here.contains(m));
        }
    }
}

/// The tabs of a machine are those that run on it, in their order.
pub proof fn law_tabs_on_a_machine(tabs: Seq<(usize, &str)>, host: Seq<char>, t: usize)
    ensures
        tabs_on(tabs, host).contains(t) <==> exists|i: int|
            0 <= i < tabs.len() && (#[trigger] tabs[i]).0 == t && machine(tabs[i].1@) == host,
    decreases tabs.len(),
{
    if tabs.len() > 0 {
        let front = tabs.drop_last();
        let e = tabs.last();
        law_tabs_on_a_machine(front, host, t);
        let r = tabs_on(tabs, host);
        let q = tabs_on(front, host);
        assert(tabs[tabs.len() - 1] == e);
        if exists|i: int|
            0 <= i < front.len() && (#[trigger] front[i]).0 == t && machine(front[i].1@) == host {
            let i = choose|i: int|
                0 <= i < front.len() && (#[trigger] front[i]).0 == t && machine(front[i].1@) == host;
            assert(tabs[i] == front[i]);
        }
        if exists|i: int|
            0 <= i < tabs.len() && (#[trigger] tabs[i]).0 == t && machine(tabs[i].1@) == host {
            let i = choose|i: int|
                0 <= i < tabs.len() && (#[trigger] tabs[i]).0 == t && machine(tabs[i].1@) == host;
            if i < front.len() {
                assert(front[i] == tabs[i]);
            }
        }
        if machine(e.1@) == host {
            assert(r == q.push(e.0));
            assert(r[q.len() as int] == e.0);
            if q.contains(t) {
                let j = choose|j: int| 0 <= j < q.len() && q[j] == t;
                assert(r[j] == t);
            }
            if r.contains(t) && e.0 != t {
                let j = choose|j: int| 0 <= j < r.len() && r[j] == t;
                assert(q[j] == t);
            }
        }
    }
}

/// A tab that was closed in front of the active one counts, and one at it or behind it does not.
pub proof fn law_closed_in_front(closed: Seq<usize>, c: usize, active: usize)
    ensures
        below(Seq::empty(), active) == 0,
        c < active ==> below(closed.push(c), active) == below(closed, active) + 1,
        c >= active ==> below(closed.push(c), active) == below(closed, active),
{
    assert(closed.push(c).drop_last() =~= closed);
}

} // verus!
