//! Triage of a fleet of sessions: who is down, busy or quiet, which machine has which agents, and
//! where to look next.

use vstd::prelude::*;
use vstd::string::*;
use vstd::utf8::*;

use crate::color::{accents_of, Accent};
use crate::paint::{argb_to_rgb, channels, Rgb};
use crate::seqs::{indices_set, ints, lemma_set_indices, set_indices};
use crate::text::{same_text, texts};

verus! {

/// Text on the window's own surfaces.
pub const CHROME_FG: (u8, u8, u8) = (0xcc, 0xcc, 0xcc);

pub const CHROME_DIM: (u8, u8, u8) = (0x66, 0x66, 0x66);

/// A pane that went dark.
pub const CHROME_ERR: (u8, u8, u8) = (0xf0, 0x6a, 0x6a);

/// A session that is producing output.
pub const CHROME_BUSY: (u8, u8, u8) = (0xf2, 0xb0, 0x4f);

/// A session that has gone quiet and waits.
pub const CHROME_QUIET: (u8, u8, u8) = (0x6a, 0x9f, 0xf2);

/// A session that just came back.
pub const CHROME_RECOVER: (u8, u8, u8) = (0x4f, 0xc0, 0x7a);

pub const WHITE: (u8, u8, u8) = (0xff, 0xff, 0xff);

/// The bars' own surface.
pub const CHROME_BG: (u8, u8, u8) = (0x12, 0x13, 0x1c);

/// Behind the active tab and a selected row.
pub const CHROME_ACTIVE_BG: (u8, u8, u8) = (0x27, 0x29, 0x36);

/// The hairline between a bar and the grid.
pub const CHROME_HAIR: (u8, u8, u8) = (0x22, 0x24, 0x31);

/// The upper edge of the raised active tab.
pub const CHROME_SHEET_HI: (u8, u8, u8) = (0x34, 0x37, 0x45);

/// Behind an inactive tab under the pointer.
pub const CHROME_HOVER: (u8, u8, u8) = (0x1c, 0x1e, 0x28);

/// The color of a session's state: down before busy before quiet before recovering; nothing for a
/// session that is none of these.
pub open spec fn state_color(is_down: bool, busy: bool, quiet: bool, recovering: bool) -> Option<Rgb> {
    if is_down {
        Some(CHROME_ERR)
    } else if busy {
        Some(CHROME_BUSY)
    } else if quiet {
        Some(CHROME_QUIET)
    } else if recovering {
        Some(CHROME_RECOVER)
    } else {
        None
    }
}

/// The color of a session's state; see [`state_color`].
pub fn status_accent(is_down: bool, busy: bool, quiet: bool, recovering: bool) -> (r: Option<Rgb>)
    ensures
        r == state_color(is_down, busy, quiet, recovering),
{
    if is_down {
        Some(CHROME_ERR)
    } else if busy {
        Some(CHROME_BUSY)
    } else if quiet {
        Some(CHROME_QUIET)
    } else if recovering {
        Some(CHROME_RECOVER)
    } else {
        None
    }
}

/// An agent engine: what it is called, and its brand color as a packed pixel.
#[derive(Debug, PartialEq, Eq)]
pub struct Engine {
    pub id: String,
    pub label: String,
    pub desc: String,
    pub color: u32,
}

/// The color of the first pair for a name.
pub open spec fn color_for(rows: Seq<(Seq<char>, Rgb)>, name: Seq<char>) -> Option<Rgb>
    decreases rows.len(),
{
    if rows.len() == 0 {
        None
    } else if rows[0].0 == name {
        Some(rows[0].1)
    } else {
        color_for(rows.drop_first(), name)
    }
}

/// The brand colors of the engines.
pub open spec fn brands(engines: Seq<Engine>) -> Seq<(Seq<char>, Rgb)> {
    engines.map_values(|e: Engine| (e.id@, channels(e.color)))
}

/// The tint of an engine: what the theme says, else its brand color, else a neutral grey.
pub open spec fn accent_of(name: Seq<char>, accents: Seq<Accent>, engines: Seq<Engine>) -> Rgb {
    match color_for(accents_of(accents), name) {
        Some(c) => c,
        None => match color_for(brands(engines), name) {
            Some(c) => c,
            None => CHROME_DIM,
        },
    }
}

/// The tint of an engine: what the theme says, else its brand color, else a neutral grey.
pub fn engine_accent(engine: &str, accents: &Vec<Accent>, engines: &Vec<Engine>) -> (c: Rgb)
    ensures
        c == accent_of(engine@, accents@, engines@),
{
    let mut i: usize = 0;
    let ghost a = accents_of(accents@);
    let ghost b = brands(engines@);
    proof {
        assert(a.skip(0) =~= a);
        assert(b.skip(0) =~= b);
    }
    while i < accents.len()
        invariant
            i <= accents@.len(),
            a == accents_of(accents@),
            color_for(a, engine@) == color_for(a.skip(i as int), engine@),
        decreases accents@.len() - i,
    {
        proof {
            assert(a.skip(i as int).drop_first() =~= a.skip(i + 1));
        }
        if same_text(accents[i].engine.as_str(), engine) {
            return accents[i].color;
        }
        i = i + 1;
    }
    let mut k: usize = 0;
    while k < engines.len()
        invariant
            k <= engines@.len(),
            b == brands(engines@),
            color_for(b, engine@) == color_for(b.skip(k as int), engine@),
            color_for(accents_of(accents@), engine@) is None,
        decreases engines@.len() - k,
    {
        proof {
            assert(b.skip(k as int).drop_first() =~= b.skip(k + 1));
        }
        if same_text(engines[k].id.as_str(), engine) {
            return argb_to_rgb(engines[k].color);
        }
        k = k + 1;
    }
    CHROME_DIM
}

/// Colors for machines, all readable on black.
pub const HOST_COLORS: [(u8, u8, u8); 32] = [
    (0xe0, 0x5b, 0x5b),
    (0xe0, 0x8b, 0x5b),
    (0xe0, 0xb8, 0x5b),
    (0xbf, 0xe0, 0x5b),
    (0x8b, 0xe0, 0x5b),
    (0x5b, 0xe0, 0x8b),
    (0x5b, 0xe0, 0xbf),
    (0x5b, 0xdd, 0xe0),
    (0x5b, 0xa8, 0xe0),
    (0x5b, 0x74, 0xe0),
    (0x8b, 0x5b, 0xe0),
    (0xbf, 0x5b, 0xe0),
    (0xe0, 0x5b, 0xd0),
    (0xe0, 0x5b, 0x9b),
    (0x9b, 0x7b, 0x5b),
    (0x9b, 0x9b, 0x5b),
    (0x5b, 0x9b, 0x7b),
    (0x5b, 0x7b, 0x9b),
    (0x7b, 0x5b, 0x9b),
    (0x9b, 0x5b, 0x7b),
    (0xf7, 0x9e, 0x8b),
    (0xf7, 0xbe, 0x8b),
    (0xd9, 0xf7, 0x8b),
    (0xa7, 0xf7, 0x8b),
    (0x8b, 0xf7, 0xa7),
    (0x8b, 0xf7, 0xd9),
    (0x8b, 0xdd, 0xf7),
    (0x8b, 0xa7, 0xf7),
    (0xa7, 0x8b, 0xf7),
    (0xd9, 0x8b, 0xf7),
    (0xf7, 0x8b, 0xd9),
    (0xf7, 0x8b, 0xa7),
];

/// The 32-bit FNV-1a hash of bytes.
pub open spec fn fnv32(bytes: Seq<u8>) -> u32
    decreases bytes.len(),
{
    if bytes.len() == 0 {
        0x811c_9dc5
    } else {
        (((fnv32(bytes.drop_last()) ^ bytes.last() as u32) as int * 0x0100_0193)
            % 0x1_0000_0000) as u32
    }
}

/// The color of a machine, by its name alone.
pub open spec fn host_hue(host: Seq<char>) -> Rgb {
    HOST_COLORS@[((fnv32(encode_utf8(host)) / 16) % 32) as int]
}

/// The color of a machine, by its name alone.
pub fn host_color(host: &str) -> (c: Rgb)
    ensures
        c == host_hue(host@),
{
    let bytes = host.as_bytes();
    let mut h: u32 = 0x811c_9dc5;
    let mut i: usize = 0;
    while i < bytes.len()
        invariant
            i <= bytes@.len(),
            h == fnv32(bytes@.take(i as int)),
        decreases bytes@.len() - i,
    {
        proof {
            assert(bytes@.take(i + 1).drop_last() =~= bytes@.take(i as int));
        }
        h = (h ^ bytes[i] as u32).wrapping_mul(0x0100_0193);
        i = i + 1;
    }
    proof {
        assert(bytes@.take(i as int) =~= bytes@);
    }
    HOST_COLORS[((h / 16) % 32) as usize]
}

/// Every machine's color can be seen on black.
pub proof fn law_host_colors_are_visible(i: int)
    requires
        0 <= i < 32,
    ensures
        HOST_COLORS@[i].0 >= 0x5b,
        HOST_COLORS@[i].1 >= 0x5b,
        HOST_COLORS@[i].2 >= 0x5b,
{
    assert(HOST_COLORS@.len() == 32);
}

/// The entry of a list of `n` that recall goes to: from the current one a step on, around the ends;
/// with none current, backward means the last and forward the first.
pub open spec fn recall_to(n: int, delta: int, cur: Option<usize>) -> int {
    match cur {
        Some(i) => (i + delta) % n,
        None => if delta < 0 {
            n - 1
        } else {
            0
        },
    }
}

/// The entry of a list of `n` that recall goes to; see [`recall_to`].
pub fn recall_index(n: usize, delta: isize, cur: Option<usize>) -> (r: usize)
    requires
        0 < n,
    ensures
        r == recall_to(n as int, delta as int, cur),
        r < n,
{
    match cur {
        Some(i) => {
            let t: i128 = i as i128 + delta as i128;
            let m: i128 = n as i128;
            if t >= 0 {
                (t % m) as usize
            } else {
                // The remainder below zero, brought back into the list.
                let back: i128 = (-1 - t) % m;
                proof {
                    let (a, b) = (-1 - t as int, m as int);
                    let (q, r) = (a / b, a % b);
                    vstd::arithmetic::div_mod::lemma_fundamental_div_mod(a, b);
                    assert(-1 - a == (-q - 1) * b + (b - 1 - r)) by (nonlinear_arith)
                        requires
                            a == b * q + r,
                    ;
                    vstd::arithmetic::div_mod::lemma_fundamental_div_mod_converse(
                        -1 - a,
                        b,
                        -q - 1,
                        b - 1 - r,
                    );
                }
                (m - 1 - back) as usize
            }
        },
        None => if delta < 0 {
            n - 1
        } else {
            0
        },
    }
}

/// The gap between two tiles.
pub const TILE_GAP: usize = 8;

/// The tile of a grid under a point. Tiles of `tw` by `th` pixels stand in `cols` columns from
/// (`x0`, `y0`) on, with a gap behind each, which belongs to no tile; `n` are there, and a row that
/// does not fit the height is not.
pub open spec fn tile_at(
    x: int,
    y: int,
    x0: int,
    y0: int,
    tw: int,
    th: int,
    cols: int,
    n: int,
    height: int,
) -> Option<int> {
    if x < x0 || y < y0 || cols == 0 || tw == 0 {
        None
    } else {
        let c = (x - x0) / (tw + TILE_GAP);
        let r = (y - y0) / (th + TILE_GAP);
        let gap = (x - x0) % (tw + TILE_GAP) >= tw || (y - y0) % (th + TILE_GAP) >= th;
        if gap || c >= cols || y0 + r * (th + TILE_GAP) + th > height || r * cols + c >= n {
            None
        } else {
            Some(r * cols + c)
        }
    }
}

/// The session whose tile of the fleet grid lies under a point; see [`tile_at`].
pub fn grid_tile_at(
    x: usize,
    y: usize,
    x0: usize,
    y0: usize,
    tw: usize,
    th: usize,
    cols: usize,
    n: usize,
    height: usize,
) -> (r: Option<usize>)
    ensures
        match r {
            Some(i) => tile_at(
                x as int,
                y as int,
                x0 as int,
                y0 as int,
                tw as int,
                th as int,
                cols as int,
                n as int,
                height as int,
            ) == Some(i as int),
            None => tile_at(
                x as int,
                y as int,
                x0 as int,
                y0 as int,
                tw as int,
                th as int,
                cols as int,
                n as int,
                height as int,
            ) is None,
        },
{
    if x < x0 || y < y0 || cols == 0 || tw == 0 {
        return None;
    }
    let sx: u128 = tw as u128 + 8;
    let sy: u128 = th as u128 + 8;
    let c: u128 = (x - x0) as u128 / sx;
    let r: u128 = (y - y0) as u128 / sy;
    proof {
        assert(0 <= c <= x - x0) by (nonlinear_arith)
            requires
                c == (x - x0) / (sx as int),
                x >= x0,
                sx >= 8,
        ;
        assert(0 <= r <= y - y0 && 0 <= r * sy <= y - y0) by (nonlinear_arith)
            requires
                r == (y - y0) / (sy as int),
                y >= y0,
                sy >= 8,
        ;
        assert(0 <= r * cols <= 0xffff_ffff_ffff_ffff * 0xffff_ffff_ffff_ffff) by (nonlinear_arith)
            requires
                0 <= r <= 0xffff_ffff_ffff_ffff,
                0 <= cols <= 0xffff_ffff_ffff_ffff,
        ;
    }
    if (x - x0) as u128 % sx >= tw as u128 || (y - y0) as u128 % sy >= th as u128 {
        return None;
    }
    if c >= cols as u128 {
        return None;
    }
    if y0 as u128 + r * sy + th as u128 > height as u128 {
        return None;
    }
    let i: u128 = r * cols as u128 + c;
    if i >= n as u128 {
        None
    } else {
        Some(i as usize)
    }
}

/// The first set flag at the distances `step`, `step + 1` and so on up to the length, counted on
/// from `start` around the end.
pub open spec fn next_set(flags: Seq<bool>, start: int, step: int) -> Option<int>
    decreases flags.len() + 1 - step,
{
    if step > flags.len() || flags.len() == 0 {
        None
    } else if flags[(start + step) % flags.len() as int] {
        Some((start + step) % flags.len() as int)
    } else {
        next_set(flags, start, step + 1)
    }
}

/// The same backward.
pub open spec fn prev_set(flags: Seq<bool>, start: int, step: int) -> Option<int>
    decreases flags.len() + 1 - step,
{
    if step > flags.len() || flags.len() == 0 {
        None
    } else if flags[(start - step) % flags.len() as int] {
        Some((start - step) % flags.len() as int)
    } else {
        prev_set(flags, start, step + 1)
    }
}

/// The first of two where there is one.
pub open spec fn either(a: Option<int>, b: Option<int>) -> Option<int> {
    match a {
        Some(_) => a,
        None => b,
    }
}

/// The place `step` behind `start` in a ring of `n`.
pub fn ring_on(n: usize, start: usize, step: usize) -> (i: usize)
    requires
        0 < n,
        step <= n,
    ensures
        i == (start + step) % n as int,
        i < n,
{
    let s: usize = start % n;
    proof {
        vstd::arithmetic::div_mod::lemma_mod_adds(start as int, step as int, n as int);
        vstd::arithmetic::div_mod::lemma_add_mod_noop(start as int, step as int, n as int);
        vstd::arithmetic::div_mod::lemma_add_mod_noop(s as int, step as int, n as int);
        vstd::arithmetic::div_mod::lemma_small_mod(s as nat, n as nat);
        assert((start + step) % n as int == (s + step) % n as int);
    }
    if step < n - s {
        proof {
            vstd::arithmetic::div_mod::lemma_small_mod((s + step) as nat, n as nat);
        }
        s + step
    } else {
        proof {
            vstd::arithmetic::div_mod::lemma_mod_add_multiples_vanish(s + step - n, n as int);
            vstd::arithmetic::div_mod::lemma_small_mod((s + step - n) as nat, n as nat);
        }
        step - (n - s)
    }
}

/// The place `step` in front of `start` in a ring of `n`.
pub fn ring_back(n: usize, start: usize, step: usize) -> (i: usize)
    requires
        0 < n,
        step <= n,
    ensures
        i == (start - step) % n as int,
        i < n,
{
    let i: usize = ring_on(n, start, n - step);
    proof {
        vstd::arithmetic::div_mod::lemma_mod_add_multiples_vanish(start - step, n as int);
    }
    i
}

/// The next set flag, from `start` on around the end.
pub fn find_next_set(flags: &[bool], start: usize) -> (r: Option<usize>)
    ensures
        match r {
            Some(i) => next_set(flags@, start as int, 1) == Some(i as int) && i < flags@.len(),
            None => next_set(flags@, start as int, 1) is None,
        },
{
    let n: usize = flags.len();
    let mut step: usize = 0;
    while step < n
        invariant
            step <= n,
            n == flags@.len(),
            next_set(flags@, start as int, 1) == next_set(flags@, start as int, step + 1),
        decreases n - step,
    {
        let i: usize = ring_on(n, start, step + 1);
        if flags[i] {
            return Some(i);
        }
        step = step + 1;
    }
    None
}

/// The next set flag, from `start` back around the front.
pub fn find_prev_set(flags: &[bool], start: usize) -> (r: Option<usize>)
    ensures
        match r {
            Some(i) => prev_set(flags@, start as int, 1) == Some(i as int) && i < flags@.len(),
            None => prev_set(flags@, start as int, 1) is None,
        },
{
    let n: usize = flags.len();
    let mut step: usize = 0;
    while step < n
        invariant
            step <= n,
            n == flags@.len(),
            prev_set(flags@, start as int, 1) == prev_set(flags@, start as int, step + 1),
        decreases n - step,
    {
        let i: usize = ring_back(n, start, step + 1);
        if flags[i] {
            return Some(i);
        }
        step = step + 1;
    }
    None
}

/// An index as a plain integer.
pub open spec fn index_of(r: Option<usize>) -> Option<int> {
    match r {
        Some(i) => Some(i as int),
        None => None,
    }
}

/// The next session that needs attention, from `start` on around the end: the nearest that is down,
/// else the nearest that is busy. There are as many sessions as flags in `down`; what `busy` holds
/// beyond them does not count.
pub fn next_trouble_index(down: &[bool], busy: &[bool], start: usize) -> (r: Option<usize>)
    requires
        next_set(down@, start as int, 1) is Some || down@.len() <= busy@.len(),
    ensures
        index_of(r) == either(
            next_set(down@, start as int, 1),
            next_set(busy@.take(down@.len() as int), start as int, 1),
        ),
{
    match find_next_set(down, start) {
        Some(i) => Some(i),
        None => find_next_set(vstd::slice::slice_subrange(busy, 0, down.len()), start),
    }
}

/// The same backward.
pub fn prev_trouble_index(down: &[bool], busy: &[bool], start: usize) -> (r: Option<usize>)
    requires
        prev_set(down@, start as int, 1) is Some || down@.len() <= busy@.len(),
    ensures
        index_of(r) == either(
            prev_set(down@, start as int, 1),
            prev_set(busy@.take(down@.len() as int), start as int, 1),
        ),
{
    match find_prev_set(down, start) {
        Some(i) => Some(i),
        None => find_prev_set(vstd::slice::slice_subrange(busy, 0, down.len()), start),
    }
}

/// What the search finds is set; and where any flag is set, it finds one.
pub proof fn law_next_set(flags: Seq<bool>, start: int, k: int)
    ensures
        match next_set(flags, start, 1) {
            Some(i) => 0 <= i < flags.len() && flags[i],
            None => !(0 <= k < flags.len() && flags[k]),
        },
{
    lemma_next_set(flags, start, 1, k);
    if 0 <= k < flags.len() {
        let n = flags.len() as int;
        let d = (k - start) % n;
        let step = if d == 0 {
            n
        } else {
            d
        };
        assert((start + step) % n == k) by {
            vstd::arithmetic::div_mod::lemma_add_mod_noop_right(start, k - start, n);
            vstd::arithmetic::div_mod::lemma_small_mod(k as nat, n as nat);
            vstd::arithmetic::div_mod::lemma_mod_add_multiples_vanish(start + d, n);
            assert(start + (k - start) == k);
        }
    }
}

proof fn lemma_next_set(flags: Seq<bool>, start: int, step: int, k: int)
    requires
        1 <= step,
    ensures
        match next_set(flags, start, step) {
            Some(i) => 0 <= i < flags.len() && flags[i],
            None => forall|s: int|
                step <= s <= flags.len() ==> !flags[#[trigger] ((start + s) % flags.len() as int)],
        },
    decreases flags.len() + 1 - step,
{
    if step > flags.len() || flags.len() == 0 {
    } else if flags[(start + step) % flags.len() as int] {
    } else {
        lemma_next_set(flags, start, step + 1, k);
    }
}

/// A place in a row of `n`, counted from the other end.
pub open spec fn from_behind(i: Option<int>, n: int) -> Option<int> {
    match i {
        Some(i) => Some(n - 1 - i),
        None => None,
    }
}

/// Stepping back through the sessions that need attention mirrors stepping forward: it goes where a
/// step forward would go with the sessions in the opposite order.
pub proof fn law_back_mirrors_forward(down: Seq<bool>, busy: Seq<bool>, start: int)
    requires
        down.len() == busy.len(),
    ensures
        ({
            let n = down.len() as int;
            either(prev_set(down, start, 1), prev_set(busy, start, 1)) == from_behind(
                either(
                    next_set(down.reverse(), n - 1 - start, 1),
                    next_set(busy.reverse(), n - 1 - start, 1),
                ),
                n,
            )
        }),
{
    lemma_back_mirrors(down, start, 1);
    lemma_back_mirrors(busy, start, 1);
}

proof fn lemma_back_mirrors(flags: Seq<bool>, start: int, step: int)
    ensures
        prev_set(flags, start, step) == from_behind(
            next_set(flags.reverse(), flags.len() - 1 - start, step),
            flags.len() as int,
        ),
    decreases flags.len() + 1 - step,
{
    let n = flags.len() as int;
    if step > n || n == 0 {
    } else {
        let x = start - step;
        let y = n - 1 - start + step;
        vstd::arithmetic::div_mod::lemma_fundamental_div_mod(x, n);
        assert(y == -(x / n) * n + (n - 1 - x % n)) by (nonlinear_arith)
            requires
                x == n * (x / n) + x % n,
                y == n - 1 - x,
        ;
        vstd::arithmetic::div_mod::lemma_fundamental_div_mod_converse(
            y,
            n,
            -(x / n),
            n - 1 - x % n,
        );
        assert(flags.reverse()[y % n] == flags[x % n]);
        lemma_back_mirrors(flags, start, step + 1);
    }
}

/// A pane that is down is always preferred to one that is merely busy.
pub proof fn law_down_outranks_busy(down: Seq<bool>, busy: Seq<bool>, start: int, k: int)
    requires
        0 <= k < down.len(),
        down[k],
    ensures
        either(next_set(down, start, 1), next_set(busy, start, 1)) == next_set(down, start, 1),
        next_set(down, start, 1) is Some,
        down[next_set(down, start, 1).unwrap()],
{
    law_next_set(down, start, k);
}

/// The first row shown of a list of `total`, with room for `rows`: as few rows are skipped as let
/// the selected one be seen.
pub open spec fn list_top(total: int, selected: int, rows: int) -> int {
    let last = if total == 0 {
        0
    } else {
        total - 1
    };
    let hi = if selected < last {
        selected
    } else {
        last
    };
    let by_bottom = if hi >= rows {
        hi - rows + 1
    } else {
        0
    };
    let most = if total < rows {
        0
    } else {
        total - rows
    };
    if by_bottom < most {
        by_bottom
    } else {
        most
    }
}

/// The first row shown of a list; see [`list_top`].
pub fn scroll_top(total: usize, selected: usize, rows: usize) -> (r: usize)
    requires
        rows > 0 || total < usize::MAX,
    ensures
        r == list_top(total as int, selected as int, rows as int),
{
    let last: usize = total.saturating_sub(1);
    let hi: usize = if selected < last {
        selected
    } else {
        last
    };
    let by_bottom: usize = if hi >= rows {
        hi - rows + 1
    } else {
        0
    };
    let most: usize = total.saturating_sub(rows);
    if by_bottom < most {
        by_bottom
    } else {
        most
    }
}

/// The selected row of a list is among those shown, and the list is never scrolled past its end.
pub proof fn law_selection_stays_visible(total: int, selected: int, rows: int)
    requires
        0 < rows,
        0 <= selected < total,
    ensures
        list_top(total, selected, rows) <= selected < list_top(total, selected, rows) + rows,
        0 <= list_top(total, selected, rows),
        total >= rows ==> list_top(total, selected, rows) + rows <= total,
{
}

/// Whether a freshly grown tab in the background asks for a nudge: not when it already gave one,
/// and not while its recovery is being announced.
pub fn should_busy_nudge(grew: bool, already_notified: bool, in_recovery: bool) -> (r: bool)
    ensures
        r == (grew && !already_notified && !in_recovery),
{
    grew && !already_notified && !in_recovery
}

/// How many of the closed tabs stood in front of the active one.
pub open spec fn below(closed: Seq<usize>, active: usize) -> nat
    decreases closed.len(),
{
    if closed.len() == 0 {
        0
    } else {
        below(closed.drop_last(), active) + (if closed.last() < active {
            1nat
        } else {
            0
        })
    }
}

/// Where the active tab stands after other tabs were closed: each one in front of it moves it down
/// by one.
pub fn reanchor_active_after_batch(active: usize, closed: &[usize]) -> (r: usize)
    ensures
        r == (if below(closed@, active) <= active {
            active - below(closed@, active)
        } else {
            0
        }),
{
    let mut n: usize = 0;
    let mut i: usize = 0;
    while i < closed.len()
        invariant
            i <= closed@.len(),
            n <= i,
            n == below(closed@.take(i as int), active),
        decreases closed@.len() - i,
    {
        proof {
            assert(closed@.take(i + 1).drop_last() =~= closed@.take(i as int));
        }
        if closed[i] < active {
            n = n + 1;
        }
        i = i + 1;
    }
    proof {
        assert(closed@.take(i as int) =~= closed@);
    }
    active.saturating_sub(n)
}

/// The sessions a bulk action of the fleet grid means: those marked, else those of the fallback,
/// else none.
pub open spec fn bulk_targets(marks: Seq<bool>, fallback: Option<Seq<bool>>) -> Seq<int> {
    if set_indices(marks).len() > 0 {
        set_indices(marks)
    } else {
        match fallback {
            Some(m) => set_indices(m),
            None => Seq::empty(),
        }
    }
}

/// The sessions a bulk action of the fleet grid means; see [`bulk_targets`].
pub fn grid_targets(marks: &[bool], fallback: Option<&[bool]>) -> (r: Vec<usize>)
    ensures
        ints(r@) == bulk_targets(
            marks@,
            match fallback {
                Some(m) => Some(m@),
                None => None,
            },
        ),
{
    let marked = indices_set(marks);
    if marked.len() > 0 {
        return marked;
    }
    match fallback {
        Some(mask) => indices_set(mask),
        None => {
            let none: Vec<usize> = Vec::new();
            proof {
                assert(ints(none@) =~= Seq::<int>::empty());
            }
            none
        },
    }
}

/// Without marks and without a fallback nothing is meant, so that closing in bulk never closes what
/// was not marked.
pub proof fn law_close_needs_marks(marks: Seq<bool>, i: int)
    requires
        bulk_targets(marks, None).contains(i),
    ensures
        0 <= i < marks.len(),
        marks[i],
{
    lemma_set_indices(marks);
    let k = bulk_targets(marks, None).index_of(i);
    assert(bulk_targets(marks, None)[k] == i);
}

/// Where anything is marked, the marked sessions are meant and no others, whatever the fallback is.
pub proof fn law_marks_win(marks: Seq<bool>, fallback: Option<Seq<bool>>, i: int)
    requires
        exists|k: int| 0 <= k < marks.len() && #[trigger] marks[k],
    ensures
        bulk_targets(marks, fallback).contains(i) == (0 <= i < marks.len() && marks[i]),
{
    lemma_set_indices(marks);
    let k = choose|k: int| 0 <= k < marks.len() && #[trigger] marks[k];
    assert(set_indices(marks).contains(k));
    if bulk_targets(marks, fallback).contains(i) {
        let j = bulk_targets(marks, fallback).index_of(i);
        assert(bulk_targets(marks, fallback)[j] == i);
    }
}

/// The first session that is a remote pane and down.
pub open spec fn first_down(kinds: Seq<Seq<char>>, alive: Seq<bool>, from: int) -> Option<int>
    decreases kinds.len() - from,
{
    if from < 0 || from >= kinds.len() || from >= alive.len() {
        None
    } else if kinds[from] != "pty"@ && !alive[from] {
        Some(from)
    } else {
        first_down(kinds, alive, from + 1)
    }
}

/// The kinds as plain texts.
pub open spec fn strs(s: Seq<&str>) -> Seq<Seq<char>> {
    s.map_values(|t: &str| t@)
}

/// The first session that is a remote pane and down: where the peek list opens.
pub fn first_down_session(kinds: &[&str], alive: &[bool]) -> (r: Option<usize>)
    ensures
        index_of(r) == first_down(strs(kinds@), alive@, 0),
{
    let mut i: usize = 0;
    while i < kinds.len() && i < alive.len()
        invariant
            i <= kinds@.len(),
            i <= alive@.len(),
            first_down(strs(kinds@), alive@, 0) == first_down(strs(kinds@), alive@, i as int),
        decreases kinds@.len() - i,
    {
        if !same_text(kinds[i], "pty") && !alive[i] {
            return Some(i);
        }
        i = i + 1;
    }
    None
}

} // verus!
