//! What each tab has been doing: fresh output, bells, panes that went down or came back, and tabs
//! that have gone quiet. One pass over all tabs a frame keeps it up to date and says what to
//! announce.
//!
//! Times are milliseconds on a clock that only goes forward.

use vstd::prelude::*;

use crate::seqs::{indices_set, ints, set_indices};
use crate::triage::should_busy_nudge;

verus! {

/// How long a bell shows.
pub const BELL_MS: u64 = 5000;

/// How long a recovery shows.
pub const RECOVER_MS: u64 = 8000;

/// What is kept of one tab.
#[derive(Clone, Copy, Debug, PartialEq, Eq, Structural)]
pub struct Slot {
    /// No badge and no notification for its output.
    pub muted: bool,
    /// Protected from being closed.
    pub pinned: bool,
    /// The length of its scrollback when last sampled; nothing before the first sample.
    pub seen: Option<usize>,
    /// How much it grew since the sample before.
    pub grew: usize,
    /// The lines that came since the tab was last looked at.
    pub unread: usize,
    /// When it last grew in the background.
    pub last_output: u64,
    /// Whether its output has been announced since it last settled.
    pub notified: bool,
    /// Marked in the fleet grid.
    pub mark: bool,
    pub bell_until: Option<u64>,
    pub was_down: bool,
    pub was_alive: bool,
    pub recover_until: Option<u64>,
    /// Whether a broadcast goes to it.
    pub target: bool,
    /// The length and the signature of what was last drawn.
    pub drawn_len: usize,
    pub drawn_sig: u64,
}

/// The slot of a tab that was just opened.
pub open spec fn fresh(now: u64) -> Slot {
    Slot {
        muted: false,
        pinned: false,
        seen: None,
        grew: 0,
        unread: 0,
        last_output: now,
        notified: false,
        mark: false,
        bell_until: None,
        was_down: false,
        was_alive: false,
        recover_until: None,
        target: true,
        drawn_len: 0,
        drawn_sig: 0,
    }
}

/// The slot of a tab that was just opened. It counts as having been active now, so that it is not
/// quiet at once, and a pane restored dead does not announce itself.
pub fn fresh_slot(now: u64) -> (s: Slot)
    ensures
        s == fresh(now),
{
    Slot {
        muted: false,
        pinned: false,
        seen: None,
        grew: 0,
        unread: 0,
        last_output: now,
        notified: false,
        mark: false,
        bell_until: None,
        was_down: false,
        was_alive: false,
        recover_until: None,
        target: true,
        drawn_len: 0,
        drawn_sig: 0,
    }
}

/// What is observed of a session in a frame.
#[derive(Clone, Copy, Debug, PartialEq, Eq, Structural)]
pub struct Seen {
    /// It rang since the frame before.
    pub rang: bool,
    pub alive: bool,
    /// A local shell, which has no connection to lose.
    pub pty: bool,
    /// The length of its scrollback.
    pub history: usize,
}

/// A remote pane without its connection.
pub open spec fn down(s: Seen) -> bool {
    !s.alive && !s.pty
}

/// Whether a pane is down: remote, and without its connection.
pub fn is_down(s: &Seen) -> (r: bool)
    ensures
        r == down(*s),
{
    !s.alive && !s.pty
}

/// A time so much later, as far as the clock goes.
pub open spec fn later(now: u64, ms: u64) -> u64 {
    if now + ms <= u64::MAX {
        (now + ms) as u64
    } else {
        u64::MAX
    }
}

/// A time that has not passed.
pub open spec fn unexpired(t: Option<u64>, now: u64) -> Option<u64> {
    match t {
        Some(until) if until < now => None,
        _ => t,
    }
}

fn keep_unexpired(t: Option<u64>, now: u64) -> (r: Option<u64>)
    ensures
        r == unexpired(t, now),
{
    match t {
        Some(until) => if until < now {
            None
        } else {
            t
        },
        None => None,
    }
}

/// What one tab asks to announce.
#[derive(Clone, Copy, Debug, PartialEq, Eq, Structural)]
pub struct News {
    pub bell: bool,
    pub recovered: bool,
    pub down: bool,
    /// It grew in the background.
    pub grew: bool,
    /// Its growth is to be announced.
    pub busy: bool,
}

/// What becomes of a slot when bells and connections are looked at. A bell and a recovery show for
/// a while; only a remote pane can go down or come back.
pub open spec fn polled(s: Slot, o: Seen, now: u64) -> Slot {
    let back = s.was_down && o.alive && !o.pty;
    Slot {
        bell_until: unexpired(
            if o.rang {
                Some(later(now, BELL_MS))
            } else {
                s.bell_until
            },
            now,
        ),
        recover_until: unexpired(
            if back {
                Some(later(now, RECOVER_MS))
            } else {
                s.recover_until
            },
            now,
        ),
        was_down: !o.alive,
        was_alive: o.alive,
        ..s
    }
}

/// What becomes of a slot when its output is looked at. The tab being watched is read; any other
/// gathers what came as unread, unless it is muted.
pub open spec fn sampled(s: Slot, o: Seen, watched: bool, now: u64) -> Slot {
    if watched {
        Slot { seen: Some(o.history), notified: false, grew: 0, unread: 0, ..s }
    } else {
        let more = growth(s, o);
        Slot {
            seen: Some(o.history),
            grew: more as usize,
            unread: if s.muted {
                s.unread
            } else if s.unread + more < usize::MAX {
                (s.unread + more) as usize
            } else {
                usize::MAX
            },
            last_output: if more > 0 {
                now
            } else {
                s.last_output
            },
            notified: if s.muted {
                s.notified
            } else {
                more > 0 && (s.notified || s.recover_until is None)
            },
            ..s
        }
    }
}

/// How much a tab grew since its last sample.
pub open spec fn growth(s: Slot, o: Seen) -> int {
    match s.seen {
        Some(n) if o.history > n => o.history - n,
        _ => 0,
    }
}

/// The slot after a frame's pass.
pub open spec fn stepped(s: Slot, o: Seen, watched: bool, now: u64) -> Slot {
    sampled(polled(s, o, now), o, watched, now)
}

/// What a tab asks to announce in a frame. Only a tab in the background that is not muted does; its
/// output is announced once until it settles or is looked at, and not while its recovery is.
pub open spec fn news(s: Slot, o: Seen, watched: bool, now: u64) -> News {
    let heard = !watched && !s.muted;
    let p = polled(s, o, now);
    let grew = !watched && growth(p, o) > 0;
    News {
        bell: o.rang && heard,
        recovered: s.was_down && o.alive && !o.pty && heard,
        down: s.was_alive && down(o) && heard,
        grew,
        busy: heard && grew && !p.notified && p.recover_until is None,
    }
}

/// One tab's part of a frame's pass.
pub fn step(s: &Slot, o: &Seen, watched: bool, now: u64) -> (r: (Slot, News))
    ensures
        r.0 == stepped(*s, *o, watched, now),
        r.1 == news(*s, *o, watched, now),
{
    let heard = !watched && !s.muted;
    let back = s.was_down && o.alive && !o.pty;
    let fell = s.was_alive && !o.alive && !o.pty;
    let mut t = *s;
    t.bell_until =
    keep_unexpired(
        if o.rang {
            Some(now.saturating_add(BELL_MS))
        } else {
            s.bell_until
        },
        now,
    );
    t.recover_until =
    keep_unexpired(
        if back {
            Some(now.saturating_add(RECOVER_MS))
        } else {
            s.recover_until
        },
        now,
    );
    t.was_down = !o.alive;
    t.was_alive = o.alive;
    let mut n = News {
        bell: o.rang && heard,
        recovered: back && heard,
        down: fell && heard,
        grew: false,
        busy: false,
    };
    if watched {
        t.seen = Some(o.history);
        t.notified = false;
        t.grew = 0;
        t.unread = 0;
        return (t, n);
    }
    let more: usize = match t.seen {
        Some(k) => if o.history > k {
            o.history - k
        } else {
            0
        },
        None => 0,
    };
    let grew = more > 0;
    t.seen = Some(o.history);
    t.grew = more;
    if grew {
        t.last_output = now;
    }
    n.grew = grew;
    if !t.muted {
        t.unread = t.unread.saturating_add(more);
        n.busy = should_busy_nudge(grew, t.notified, t.recover_until.is_some());
        t.notified = grew && (t.notified || t.recover_until.is_none());
    }
    (t, n)
}

/// What all tabs ask to announce.
pub open spec fn all_news(slots: Seq<Slot>, seen: Seq<Seen>, active: int, now: u64) -> Seq<News> {
    Seq::new(slots.len(), |i: int| news(slots[i], seen[i], i == active, now))
}

/// What a frame's pass found.
pub struct Pulse {
    /// Which tabs grew in the background.
    pub grew: Vec<bool>,
    pub bells: Vec<usize>,
    pub recovered: Vec<usize>,
    pub fallen: Vec<usize>,
    pub busy: Vec<usize>,
}

/// A frame's pass over all tabs: samples each, lets old badges fade, and lists what to announce.
pub fn activity_flags(slots: &mut Vec<Slot>, seen: &Vec<Seen>, active: usize, now: u64) -> (p: Pulse)
    requires
        old(slots)@.len() == seen@.len(),
    ensures
        final(slots)@.len() == old(slots)@.len(),
        forall|i: int|
            0 <= i < final(slots)@.len() ==> #[trigger] final(slots)@[i] == stepped(
                old(slots)@[i],
                seen@[i],
                i == active,
                now,
            ),
        p.grew@ == all_news(old(slots)@, seen@, active as int, now).map_values(|n: News| n.grew),
        ints(p.bells@) == set_indices(
            all_news(old(slots)@, seen@, active as int, now).map_values(|n: News| n.bell),
        ),
        ints(p.recovered@) == set_indices(
            all_news(old(slots)@, seen@, active as int, now).map_values(|n: News| n.recovered),
        ),
        ints(p.fallen@) == set_indices(
            all_news(old(slots)@, seen@, active as int, now).map_values(|n: News| n.down),
        ),
        ints(p.busy@) == set_indices(
            all_news(old(slots)@, seen@, active as int, now).map_values(|n: News| n.busy),
        ),
{
    let ghost was = slots@;
    let ghost all = all_news(was, seen@, active as int, now);
    let mut grew: Vec<bool> = Vec::new();
    let mut bells: Vec<bool> = Vec::new();
    let mut recovered: Vec<bool> = Vec::new();
    let mut fallen: Vec<bool> = Vec::new();
    let mut busy: Vec<bool> = Vec::new();
    let n: usize = slots.len();
    let mut i: usize = 0;
    while i < n
        invariant
            i <= n,
            n == slots@.len(),
            n == was.len(),
            n == seen@.len(),
            all == all_news(was, seen@, active as int, now),
                forall|k: int|
                0 <= k < i ==> #[trigger] slots@[k] == stepped(was[k], seen@[k], k == active, now),
            forall|k: int| i <= k < n ==> #[trigger] slots@[k] == was[k],
            grew@ == all.take(i as int).map_values(|n: News| n.grew),
            bells@ == all.take(i as int).map_values(|n: News| n.bell),
            recovered@ == all.take(i as int).map_values(|n: News| n.recovered),
            fallen@ == all.take(i as int).map_values(|n: News| n.down),
            busy@ == all.take(i as int).map_values(|n: News| n.busy),
        decreases n - i,
    {
        let (t, w) = step(&slots[i], &seen[i], i == active, now);
        proof {
            assert(w == all[i as int]);
        }
        slots.set(i, t);
        grew.push(w.grew);
        bells.push(w.bell);
        recovered.push(w.recovered);
        fallen.push(w.down);
        busy.push(w.busy);
        proof {
            let (a, b) = (all.take(i as int), all.take(i + 1));
            assert(b.map_values(|n: News| n.grew) =~= a.map_values(|n: News| n.grew).push(w.grew));
            assert(b.map_values(|n: News| n.bell) =~= a.map_values(|n: News| n.bell).push(w.bell));
            assert(b.map_values(|n: News| n.recovered) =~= a.map_values(
                |n: News| n.recovered,
            ).push(w.recovered));
            assert(b.map_values(|n: News| n.down) =~= a.map_values(|n: News| n.down).push(w.down));
            assert(b.map_values(|n: News| n.busy) =~= a.map_values(|n: News| n.busy).push(w.busy));
        }
        i = i + 1;
    }
    proof {
        assert(all.take(i as int) =~= all);
    }
    Pulse {
        grew,
        bells: indices_set(bells.as_slice()),
        recovered: indices_set(recovered.as_slice()),
        fallen: indices_set(fallen.as_slice()),
        busy: indices_set(busy.as_slice()),
    }
}

/// A muted tab, and the tab being watched, announce nothing.
pub proof fn law_muted_and_watched_stay_silent(s: Slot, o: Seen, watched: bool, now: u64)
    requires
        watched || s.muted,
    ensures
        !news(s, o, watched, now).bell,
        !news(s, o, watched, now).recovered,
        !news(s, o, watched, now).down,
        !news(s, o, watched, now).busy,
{
}

/// A recovery and the output that comes with it are announced once: as a recovery.
pub proof fn law_recovery_is_announced_once(s: Slot, o: Seen, watched: bool, now: u64)
    requires
        news(s, o, watched, now).recovered,
    ensures
        !news(s, o, watched, now).busy,
{
}

/// Output that goes on is announced once: after it was, the next sample that grew again announces
/// nothing.
pub proof fn law_busy_is_announced_once(s: Slot, o: Seen, later: Seen, now: u64, then: u64)
    requires
        news(s, o, false, now).busy,
    ensures
        !news(stepped(s, o, false, now), later, false, then).busy,
{
}

/// Looking at a tab clears its unread count.
pub proof fn law_watching_reads(s: Slot, o: Seen, now: u64)
    ensures
        stepped(s, o, true, now).unread == 0,
        stepped(s, o, true, now).seen == Some(o.history),
{
}

/// What is unread only grows while a tab is in the background.
pub proof fn law_unread_lingers(s: Slot, o: Seen, now: u64)
    ensures
        stepped(s, o, false, now).unread >= s.unread,
{
}

/// A tab whose session is alive but has been silent for so long that it is done, or waits: remote,
/// sampled, and neither watched nor shielded.
pub open spec fn silent(s: Slot, o: Seen, watched: bool, now: u64, after: u64) -> bool {
    o.alive && !o.pty && !watched && !s.pinned && s.seen is Some && idle(s, now) >= after
}

/// How long a tab has been silent.
pub open spec fn idle(s: Slot, now: u64) -> int {
    if now < s.last_output {
        0
    } else {
        now - s.last_output
    }
}

/// A silent tab that is not muted either: it waits for the user.
pub open spec fn quiet(s: Slot, o: Seen, watched: bool, now: u64, after: u64) -> bool {
    silent(s, o, watched, now, after) && !s.muted
}

/// How long a tab has been silent.
pub fn idle_ms(s: &Slot, now: u64) -> (r: u64)
    ensures
        r == idle(*s, now),
{
    now.saturating_sub(s.last_output)
}

/// Whether a tab is silent; see [`silent`].
pub fn silent_for(s: &Slot, o: &Seen, watched: bool, now: u64, after: u64) -> (r: bool)
    ensures
        r == silent(*s, *o, watched, now, after),
{
    o.alive && !o.pty && !watched && !s.pinned && s.seen.is_some() && idle_ms(s, now) >= after
}

/// Whether a tab waits for the user; see [`quiet`].
pub fn quiet_for(s: &Slot, o: &Seen, watched: bool, now: u64, after: u64) -> (r: bool)
    ensures
        r == quiet(*s, *o, watched, now, after),
{
    silent_for(s, o, watched, now, after) && !s.muted
}

/// Which tabs are quiet.
pub open spec fn quiet_mask(
    slots: Seq<Slot>,
    seen: Seq<Seen>,
    active: int,
    now: u64,
    after: u64,
) -> Seq<bool> {
    Seq::new(slots.len(), |i: int| quiet(slots[i], seen[i], i == active, now, after))
}

/// Which tabs are quiet.
pub fn quiet_tabs(
    slots: &Vec<Slot>,
    seen: &Vec<Seen>,
    active: usize,
    now: u64,
    after: u64,
) -> (r: Vec<bool>)
    requires
        slots@.len() == seen@.len(),
    ensures
        r@ == quiet_mask(slots@, seen@, active as int, now, after),
{
    let mut out: Vec<bool> = Vec::new();
    let mut i: usize = 0;
    while i < slots.len()
        invariant
            i <= slots@.len(),
            slots@.len() == seen@.len(),
            out@.len() == i,
            forall|k: int|
                0 <= k < i ==> #[trigger] out@[k] == quiet_mask(
                    slots@,
                    seen@,
                    active as int,
                    now,
                    after,
                )[k],
        decreases slots@.len() - i,
    {
        out.push(quiet_for(&slots[i], &seen[i], i == active, now, after));
        i = i + 1;
    }
    proof {
        assert(out@ =~= quiet_mask(slots@, seen@, active as int, now, after));
    }
    out
}

/// The longest that one of the first `n` quiet tabs has been silent.
pub open spec fn longest_quiet(
    slots: Seq<Slot>,
    seen: Seq<Seen>,
    active: int,
    now: u64,
    after: u64,
    n: int,
) -> int
    decreases n,
{
    if n <= 0 {
        0
    } else {
        let rest = longest_quiet(slots, seen, active, now, after, n - 1);
        if quiet(slots[n - 1], seen[n - 1], n - 1 == active, now, after) && idle(
            slots[n - 1],
            now,
        ) > rest {
            idle(slots[n - 1], now)
        } else {
            rest
        }
    }
}

/// How many tabs are quiet, and the longest that one has been.
pub fn quiet_flags(
    slots: &Vec<Slot>,
    seen: &Vec<Seen>,
    active: usize,
    now: u64,
    after: u64,
) -> (r: (usize, u64))
    requires
        slots@.len() == seen@.len(),
    ensures
        r.0 == set_indices(quiet_mask(slots@, seen@, active as int, now, after)).len(),
        r.1 == longest_quiet(slots@, seen@, active as int, now, after, slots@.len() as int),
{
    let mask = quiet_tabs(slots, seen, active, now, after);
    let list = indices_set(mask.as_slice());
    let mut most: u64 = 0;
    let mut i: usize = 0;
    while i < slots.len()
        invariant
            i <= slots@.len(),
            slots@.len() == seen@.len(),
            mask@ == quiet_mask(slots@, seen@, active as int, now, after),
            most == longest_quiet(slots@, seen@, active as int, now, after, i as int),
        decreases slots@.len() - i,
    {
        if mask[i] {
            let d: u64 = idle_ms(&slots[i], now);
            if d > most {
                most = d;
            }
        }
        i = i + 1;
    }
    proof {
        assert(list@.len() == ints(list@).len());
    }
    (list.len(), most)
}

/// A slot as if it had been read.
pub open spec fn read(s: Slot, o: Seen) -> Slot {
    Slot {
        seen: Some(o.history),
        grew: 0,
        unread: 0,
        notified: false,
        bell_until: None,
        recover_until: None,
        ..s
    }
}

/// Marks every tab read: what came so far no longer counts, and badges that still show go. Output
/// from now on counts as before.
pub fn mark_all_read(slots: &mut Vec<Slot>, seen: &Vec<Seen>)
    requires
        old(slots)@.len() == seen@.len(),
    ensures
        final(slots)@ == Seq::new(old(slots)@.len(), |i: int| read(old(slots)@[i], seen@[i])),
{
    let ghost was = slots@;
    let n: usize = slots.len();
    let mut i: usize = 0;
    while i < n
        invariant
            i <= n,
            n == slots@.len(),
            n == was.len(),
            n == seen@.len(),
            forall|k: int| 0 <= k < i ==> #[trigger] slots@[k] == read(was[k], seen@[k]),
            forall|k: int| i <= k < n ==> #[trigger] slots@[k] == was[k],
        decreases n - i,
    {
        let mut t = slots[i];
        t.seen = Some(seen[i].history);
        t.grew = 0;
        t.unread = 0;
        t.notified = false;
        t.bell_until = None;
        t.recover_until = None;
        slots.set(i, t);
        i = i + 1;
    }
    proof {
        assert(slots@ =~= Seq::new(was.len(), |i: int| read(was[i], seen@[i])));
    }
}

/// After all is marked read, a tab that neither rings nor prints announces neither, and has nothing
/// unread.
pub proof fn law_marked_read_is_silent(s: Slot, o: Seen, later: Seen, now: u64)
    requires
        later.history == o.history,
        !later.rang,
    ensures
        read(s, o).unread == 0,
        !news(read(s, o), later, false, now).busy,
        !news(read(s, o), later, false, now).bell,
        stepped(read(s, o), later, false, now).unread == 0,
{
}

/// A pane that went down, or came back, is announced once: as long as it stays as it is, the next
/// sample announces neither.
pub proof fn law_turns_are_announced_once(
    s: Slot,
    o: Seen,
    later: Seen,
    watched: bool,
    now: u64,
    then: u64,
)
    requires
        later.alive == o.alive,
    ensures
        !news(stepped(s, o, watched, now), later, watched, then).down,
        !news(stepped(s, o, watched, now), later, watched, then).recovered,
{
}

/// The tab that is looked at never counts as quiet.
pub proof fn law_watched_is_never_quiet(s: Slot, o: Seen, now: u64, after: u64)
    ensures
        !quiet(s, o, true, now, after),
        !silent(s, o, true, now, after),
{
}

/// Whether a badge still shows.
pub open spec fn showing(t: Option<u64>, now: u64) -> bool {
    match t {
        Some(until) => until > now,
        None => false,
    }
}

/// Whether a bell or a recovery of some tab still shows.
pub fn badges_fading(slots: &Vec<Slot>, now: u64) -> (r: bool)
    ensures
        r == exists|i: int|
            0 <= i < slots@.len() && (showing((#[trigger] slots@[i]).bell_until, now) || showing(
                slots@[i].recover_until,
                now,
            )),
{
    let mut i: usize = 0;
    while i < slots.len()
        invariant
            i <= slots@.len(),
            forall|k: int|
                0 <= k < i ==> !showing((#[trigger] slots@[k]).bell_until, now) && !showing(
                    slots@[k].recover_until,
                    now,
                ),
        decreases slots@.len() - i,
    {
        let bell = match slots[i].bell_until {
            Some(t) => t > now,
            None => false,
        };
        let back = match slots[i].recover_until {
            Some(t) => t > now,
            None => false,
        };
        if bell || back {
            proof {
                assert(showing(slots@[i as int].bell_until, now) || showing(
                    slots@[i as int].recover_until,
                    now,
                ));
            }
            return true;
        }
        i = i + 1;
    }
    false
}

/// Whether a tab shows something else than was last drawn, by the length of its scrollback and the
/// signature of its screen. Keeps what it was given, so that the same content is reported once.
pub fn detect_content_change(slots: &mut Vec<Slot>, shown: &Vec<(usize, u64)>) -> (r: bool)
    requires
        old(slots)@.len() == shown@.len(),
    ensures
        r == exists|i: int|
            0 <= i < shown@.len() && (((#[trigger] shown@[i]).0 != old(slots)@[i].drawn_len
                || shown@[i].1 != old(slots)@[i].drawn_sig)),
        final(slots)@ == Seq::new(
            old(slots)@.len(),
            |i: int| Slot { drawn_len: shown@[i].0, drawn_sig: shown@[i].1, ..old(slots)@[i] },
        ),
{
    let ghost was = slots@;
    let mut changed = false;
    let n: usize = slots.len();
    let mut i: usize = 0;
    while i < n
        invariant
            i <= n,
            n == slots@.len(),
            n == was.len(),
            n == shown@.len(),
            changed == exists|k: int|
                0 <= k < i && ((#[trigger] shown@[k]).0 != was[k].drawn_len || shown@[k].1
                    != was[k].drawn_sig),
            forall|k: int|
                0 <= k < i ==> #[trigger] slots@[k] == (Slot {
                    drawn_len: shown@[k].0,
                    drawn_sig: shown@[k].1,
                    ..was[k]
                }),
            forall|k: int| i <= k < n ==> #[trigger] slots@[k] == was[k],
        decreases n - i,
    {
        let (len, sig) = shown[i];
        let mut t = slots[i];
        if t.drawn_len != len || t.drawn_sig != sig {
            changed = true;
            t.drawn_len = len;
            t.drawn_sig = sig;
        }
        slots.set(i, t);
        i = i + 1;
    }
    proof {
        assert(slots@ =~= Seq::new(
            was.len(),
            |i: int| Slot { drawn_len: shown@[i].0, drawn_sig: shown@[i].1, ..was[i] },
        ));
    }
    changed
}

/// Output keeps a tab awake: one that grew in the background in a pass is neither silent nor quiet
/// until so much time has gone by since that pass.
pub proof fn law_output_keeps_awake(
    s: Slot,
    o: Seen,
    n: usize,
    then: u64,
    later: Seen,
    watched: bool,
    now: u64,
    after: u64,
)
    requires
        s.seen == Some(n),
        o.history > n,
        then <= now < then + after,
    ensures
        !silent(stepped(s, o, false, then), later, watched, now, after),
        !quiet(stepped(s, o, false, then), later, watched, now, after),
{
}

/// A tab that did not grow, and the tab that is watched, keep the time of their last output through
/// a pass; a tab that grew has the time of the pass.
pub proof fn law_last_output(s: Slot, o: Seen, now: u64)
    ensures
        stepped(s, o, true, now).last_output == s.last_output,
        s.seen is None ==> stepped(s, o, false, now).last_output == s.last_output,
        s.seen matches Some(n) ==> o.history <= n ==> stepped(s, o, false, now).last_output
            == s.last_output,
        s.seen matches Some(n) ==> o.history > n ==> stepped(s, o, false, now).last_output == now,
{
}

/// Silence is noticed: a remote session that lives, is neither watched nor pinned, and has printed
/// nothing for so long is silent, and quiet too unless it is muted; any other is neither.
pub proof fn law_silence_is_noticed(s: Slot, o: Seen, watched: bool, now: u64, after: u64)
    requires
        s.seen is Some,
        s.last_output <= now,
        after > 0,
    ensures
        silent(s, o, watched, now, after) <==> o.alive && !o.pty && !watched && !s.pinned
            && s.last_output + after <= now,
        quiet(s, o, watched, now, after) <==> o.alive && !o.pty && !watched && !s.pinned && !s.muted
            && s.last_output + after <= now,
{
}

/// A tab that is sampled for the first time has not grown, whatever it shows: it has nothing new to
/// read, and announces no output.
pub proof fn law_first_sample_is_no_output(s: Slot, o: Seen, now: u64)
    requires
        s.seen is None,
    ensures
        stepped(s, o, false, now).grew == 0,
        stepped(s, o, false, now).unread == s.unread,
        stepped(s, o, false, now).seen == Some(o.history),
        !news(s, o, false, now).grew,
        !news(s, o, false, now).busy,
{
}

/// What a tab printed in the background between two samples is what it grew by, and is added to
/// what is unread; a muted tab gathers nothing.
pub proof fn law_output_is_counted(s: Slot, o: Seen, n: usize, now: u64)
    requires
        s.seen == Some(n),
    ensures
        ({
            let t = stepped(s, o, false, now);
            let more = if o.history > n {
                o.history - n
            } else {
                0
            };
            &&& t.grew == more
            &&& t.seen == Some(o.history)
            &&& news(s, o, false, now).grew <==> o.history > n
            &&& s.muted ==> t.unread == s.unread
            &&& !s.muted && s.unread + more <= usize::MAX ==> t.unread == s.unread + more
            &&& !s.muted && s.unread + more > usize::MAX ==> t.unread == usize::MAX
        }),
{
}

/// Output in the background is announced when it begins: at the first growth since the tab settled,
/// was looked at or was opened, while no recovery shows. After a pass without growth it counts as
/// begun anew.
pub proof fn law_busy_is_announced(s: Slot, o: Seen, n: usize, now: u64)
    requires
        s.seen == Some(n),
        !s.muted,
    ensures
        o.history > n && !s.notified && s.recover_until is None && !(s.was_down && o.alive && !o.pty)
            ==> news(s, o, false, now).busy && stepped(s, o, false, now).notified,
        o.history > n && s.notified ==> !news(s, o, false, now).busy && stepped(
            s,
            o,
            false,
            now,
        ).notified,
        o.history <= n ==> !news(s, o, false, now).busy && !stepped(s, o, false, now).notified,
        !stepped(s, o, true, now).notified,
{
}

/// A bell in the background is announced, unless the tab is muted, and shows for five seconds; one
/// that rang before shows until its time is over.
pub proof fn law_bell_shows(s: Slot, o: Seen, watched: bool, now: u64)
    requires
        now + 8000 <= u64::MAX,
    ensures
        news(s, o, watched, now).bell <==> o.rang && !watched && !s.muted,
        o.rang ==> stepped(s, o, watched, now).bell_until == Some((now + 5000) as u64),
        !o.rang && s.bell_until is None ==> stepped(s, o, watched, now).bell_until is None,
        !o.rang ==> (s.bell_until matches Some(t) ==> stepped(s, o, watched, now).bell_until == if t
            < now {
            None
        } else {
            s.bell_until
        }),
{
}

/// A remote pane that lost its connection between two passes is announced as down in the second,
/// and one that got it back as recovered, which shows for eight seconds; a local shell is neither.
pub proof fn law_turns_are_announced(s: Slot, a: Seen, b: Seen, then: u64, now: u64)
    requires
        !s.muted,
        then <= now,
        now + 8000 <= u64::MAX,
    ensures
        ({
            let t = stepped(s, a, false, then);
            let n = news(t, b, false, now);
            &&& n.down <==> a.alive && !b.alive && !b.pty
            &&& n.recovered <==> !a.alive && b.alive && !b.pty
            &&& n.recovered ==> stepped(t, b, false, now).recover_until == Some(
                (now + 8000) as u64,
            )
        }),
{
}

/// A pass leaves alone what the user set: whether a tab is muted, pinned, marked or a target, and
/// what was last drawn of it.
pub proof fn law_pass_leaves_settings(s: Slot, o: Seen, watched: bool, now: u64)
    ensures
        ({
            let t = stepped(s, o, watched, now);
            &&& t.muted == s.muted
            &&& t.pinned == s.pinned
            &&& t.mark == s.mark
            &&& t.target == s.target
            &&& t.drawn_len == s.drawn_len
            &&& t.drawn_sig == s.drawn_sig
        }),
{
}

/// Marking all as read leaves alone what the user set, and when a tab last printed.
pub proof fn law_reading_leaves_settings(s: Slot, o: Seen)
    ensures
        ({
            let t = read(s, o);
            &&& t.unread == 0 && t.grew == 0 && t.bell_until is None && t.recover_until is None
            &&& t.seen == Some(o.history)
            &&& t.muted == s.muted && t.pinned == s.pinned && t.mark == s.mark && t.target == s.target
            &&& t.last_output == s.last_output
            &&& t.was_down == s.was_down && t.was_alive == s.was_alive
        }),
{
}

/// A tab that was just opened is neither quiet nor unread, no badge shows, and a broadcast goes to
/// it.
pub proof fn law_fresh_tab(o: Seen, opened: u64, now: u64, after: u64)
    requires
        opened <= now,
    ensures
        !quiet(fresh(opened), o, false, now, after),
        fresh(opened).unread == 0,
        !fresh(opened).muted && !fresh(opened).pinned && !fresh(opened).mark && fresh(opened).target,
        fresh(opened).bell_until is None && fresh(opened).recover_until is None,
        fresh(opened).last_output == opened,
        !news(fresh(opened), o, false, now).down,
        !news(fresh(opened), o, false, now).recovered,
{
}

/// The longest silence that is told is that of a quiet tab, and no quiet tab has been silent for
/// longer; where no tab is quiet it is none.
pub proof fn law_longest_silence(
    slots: Seq<Slot>,
    seen: Seq<Seen>,
    active: int,
    now: u64,
    after: u64,
    n: int,
)
    requires
        0 <= n <= slots.len(),
        slots.len() == seen.len(),
    ensures
        ({
            let most = longest_quiet(slots, seen, active, now, after, n);
            &&& forall|i: int|
                0 <= i < n && quiet(#[trigger] slots[i], seen[i], i == active, now, after)
                    ==> now - slots[i].last_output <= most
            &&& most > 0 ==> exists|i: int|
                0 <= i < n && quiet(#[trigger] slots[i], seen[i], i == active, now, after) && now
                    - slots[i].last_output == most
            &&& most >= 0
        }),
    decreases n,
{
    if n > 0 {
        law_longest_silence(slots, seen, active, now, after, n - 1);
        let rest = longest_quiet(slots, seen, active, now, after, n - 1);
        let most = longest_quiet(slots, seen, active, now, after, n);
        if most == rest && most > 0 {
            let i = choose|i: int|
                0 <= i < n - 1 && quiet(#[trigger] slots[i], seen[i], i == active, now, after) && now
                    - slots[i].last_output == rest;
            assert(quiet(slots[i], seen[i], i == active, now, after));
        } else if most > 0 {
            assert(quiet(slots[n - 1], seen[n - 1], n - 1 == active, now, after));
        }
    }
}

} // verus!
