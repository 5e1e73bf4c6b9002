//! What is known of the active session.

use vstd::prelude::*;
use vstd::string::*;

use crate::activity::{idle, idle_ms, Slot};
use crate::board::{Board, BoardView};
use crate::machines::{machine, machine_name};
use crate::prompts::{plural_end, plural_s};
use crate::rosters::{either, how_many, pick_text};
use crate::seqs::ints;
use crate::strokes::{put_row, rows, said, Row, RowView};
use crate::tabs::TabView;
use crate::text::{add_line, copy_text, dec, decimal, texts, trim, trimmed};
use crate::triage::{CHROME_DIM, WHITE};
use crate::words::{duration_text, fmt_duration};

verus! {

/// A line if there is something to say.
pub open spec fn maybe(b: bool, line: Seq<char>) -> Seq<Seq<char>> {
    if b {
        seq![line]
    } else {
        Seq::empty()
    }
}

/// Lines one below the other, from the slot `first` on.
pub open spec fn listed_rows(lines: Seq<Seq<char>>, first: int) -> Seq<RowView> {
    Seq::new(lines.len(), |i: int| said(lines[i], first + i, CHROME_DIM))
}

fn list_rows(out: &mut Vec<Row>, lines: Vec<String>, first: usize)
    requires
        first + lines@.len() <= usize::MAX,
    ensures
        rows(final(out)@) == rows(old(out)@) + listed_rows(texts(lines@), first as int),
{
    let ghost had = rows(out@);
    let ghost want = listed_rows(texts(lines@), first as int);
    let mut i: usize = 0;
    proof {
        assert(rows(out@) =~= had + want.take(0));
    }
    while i < lines.len()
        invariant
            i <= lines@.len(),
            first + lines@.len() <= usize::MAX,
            want == listed_rows(texts(lines@), first as int),
            rows(out@) == had + want.take(i as int),
        decreases lines@.len() - i,
    {
        put_row(out, copy_text(lines[i].as_str()), first + i, CHROME_DIM, false);
        proof {
            assert(texts(lines@)[i as int] == lines@[i as int]@);
            assert(rows(out@) =~= had + want.take(i + 1));
        }
        i = i + 1;
    }
    proof {
        assert(want.take(i as int) =~= want);
    }
}

/// How long a session has been silent.
pub open spec fn silence_text(s: Slot, now: u64) -> Seq<char> {
    if idle(s, now) == 0 || s.seen is None {
        "now"@
    } else {
        "quiet "@ + duration_text(idle(s, now) / 1000)
    }
}

fn silence_of(s: &Slot, now: u64) -> (r: String)
    ensures
        r@ == silence_text(*s, now),
{
    let ms: u64 = idle_ms(s, now);
    if ms == 0 || s.seen.is_none() {
        copy_text("now")
    } else {
        copy_text("quiet ").concat(fmt_duration(ms / 1000).as_str())
    }
}

/// How a tab is shielded.
pub open spec fn shield(pinned: bool, muted: bool) -> Seq<char> {
    if pinned && muted {
        "pinned 🔒 · muted M"@
    } else if pinned {
        "pinned 🔒"@
    } else if muted {
        "muted M"@
    } else {
        "none"@
    }
}

/// Whether a session is connected, or how the reconnect goes.
pub open spec fn state_text(t: TabView) -> Seq<char> {
    match t.retry {
        Some(r) => "down · "@ + r,
        None => "live"@,
    }
}

/// What a session is and how it is connected.
pub open spec fn who_lines(t: TabView) -> Seq<Seq<char>> {
    seq![
        "  name       "@ + t.head(),
        "  host       "@ + t.host,
        "  engine     "@ + t.engine,
        "  transport  "@ + t.kind,
        "  state      "@ + state_text(t),
    ]
}

/// Why a session is down, how old it is, how long it has been silent, and what waits to be sent.
pub open spec fn health_lines(t: TabView, s: Slot, now: u64) -> Seq<Seq<char>> {
    maybe(
        t.down_reason is Some && trimmed(t.down_reason->0).len() > 0,
        "  reason     "@ + t.down_reason->0,
    ) + seq!["  age        "@ + duration_text(t.age_secs as int)] + maybe(
        t.seen.alive && !t.seen.pty,
        "  silence    "@ + silence_text(s, now),
    ) + maybe(t.pending > 0, "  queued     ⏳"@ + dec(t.pending as nat)
        + "B staged, flush on reconnect"@)
}

/// How many sessions there are on a tab's machine, and how many of them are down.
pub open spec fn fleet_line(b: BoardView, host: Seq<char>) -> Seq<char> {
    "  fleet      "@ + dec(b.on_host(host).len() as nat) + " session"@
        + plural_s(b.on_host(host).len()) + " on "@ + host + " · "@
        + dec(how_many(b.fallen_on(host)) as nat) + " down"@
}

/// What is seen of a session, what shields it, what it does, and its size.
pub open spec fn view_lines(b: BoardView, i: int) -> Seq<Seq<char>> {
    let t = b.tabs[i];
    seq![
        "  view       "@ + either(t.scrolled, "scrolled into history"@, "live follow (bottom)"@),
        fleet_line(b, machine(t.host)),
        "  protec     "@ + shield(b.pinned(i), b.muted(i)),
    ] + maybe(t.live_title is Some, "  task       "@ + t.live_title->0) + seq![
        "  size       "@ + dec(t.lines as nat) + "×"@ + dec(t.cols as nat),
    ]
}

/// What is known of a tab, line by line.
pub open spec fn info_lines(b: BoardView, i: int, now: u64) -> Seq<Seq<char>> {
    who_lines(b.tabs[i]) + health_lines(b.tabs[i], b.slots[i], now) + view_lines(b, i)
}

/// The lines of the panel on the active session.
pub open spec fn info_panel(b: BoardView, now: u64) -> Seq<RowView> {
    if b.active < b.tabs.len() {
        let t = b.tabs[b.active as int];
        seq![said("  "@ + t.kind + " · "@ + t.engine + "  "@, 0, WHITE)] + listed_rows(
            info_lines(b, b.active as int, now),
            1,
        )
    } else {
        Seq::empty()
    }
}

impl Board {
    fn dark_count(&self, host: &str) -> (n: usize)
        ensures
            n == how_many(self@.fallen_on(host@)),
    {
        let list = self.fallen_on(host);
        proof {
            assert(ints(list@).len() == list@.len());
        }
        list.len()
    }

    fn fleet_text(&self, host: &str) -> (r: String)
        ensures
            r@ == fleet_line(self@, host@),
    {
        let same = self.host_session_indices(host);
        let dark: usize = self.dark_count(host);
        proof {
            assert(ints(same@).len() == same@.len());
        }
        let mut s = copy_text("  fleet      ");
        s.append(decimal(same.len() as u64).as_str());
        s.append(" session");
        s.append(plural_end(same.len()));
        s.append(" on ");
        s.append(host);
        s.append(" · ");
        s.append(decimal(dark as u64).as_str());
        s.append(" down");
        s
    }

    fn who_text(&self, i: usize) -> (r: Vec<String>)
        requires
            i < self@.tabs.len(),
        ensures
            texts(r@) == who_lines(self@.tabs[i as int]),
            r@.len() == 5,
    {
        let t = &self.tabs[i];
        let mut out: Vec<String> = Vec::new();
        proof {
            assert(self@.tabs[i as int] == t@);
        }
        let state = match &t.retry {
            Some(r) => copy_text("down · ").concat(r.as_str()),
            None => copy_text("live"),
        };

        let mut s = copy_text("  name       ");
        s.append(t.head());
        add_line(&mut out, s);
        let mut s = copy_text("  host       ");
        s.append(t.host.as_str());
        add_line(&mut out, s);
        let mut s = copy_text("  engine     ");
        s.append(t.engine.as_str());
        add_line(&mut out, s);
        let mut s = copy_text("  transport  ");
        s.append(t.kind.as_str());
        add_line(&mut out, s);
        let mut s = copy_text("  state      ");
        s.append(state.as_str());
        add_line(&mut out, s);
        proof {
            assert(texts(out@).len() == out@.len());
            assert(texts(out@) =~= who_lines(self@.tabs[i as int]));
        }
        out
    }

    fn add_health(&self, out: &mut Vec<String>, i: usize, now: u64)
        requires
            self@.wf(),
            i < self@.tabs.len(),
        ensures
            texts(final(out)@) == texts(old(out)@) + health_lines(
                self@.tabs[i as int],
                self@.slots[i as int],
                now,
            ),
            final(out)@.len() <= old(out)@.len() + 4,
    {
        let t = &self.tabs[i];
        let ghost had = texts(out@);
        proof {
            assert(self@.tabs[i as int] == t@);
            assert(texts(out@).len() == out@.len());
        }
        if let Some(why) = &t.down_reason {
            if !trim(why.as_str()).as_str().is_empty() {
                add_line(out, copy_text("  reason     ").concat(why.as_str()));
            }
        }
        add_line(out, copy_text("  age        ").concat(fmt_duration(t.age_secs).as_str()));
        if t.seen.alive && !t.seen.pty {
            let quiet = silence_of(&self.slots[i], now);
            add_line(out, copy_text("  silence    ").concat(quiet.as_str()));
        }
        if t.pending > 0 {
            let mut s = copy_text("  queued     ⏳");
            s.append(decimal(t.pending as u64).as_str());
            s.append("B staged, flush on reconnect");
            add_line(out, s);
        }
        proof {
            assert(texts(out@).len() == out@.len());
            assert(texts(out@) =~= had + health_lines(
                self@.tabs[i as int],
                self@.slots[i as int],
                now,
            ));
        }
    }

    fn add_view(&self, out: &mut Vec<String>, i: usize)
        requires
            i < self@.tabs.len(),
        ensures
            texts(final(out)@) == texts(old(out)@) + view_lines(self@, i as int),
            final(out)@.len() <= old(out)@.len() + 5,
    {
        let t = &self.tabs[i];
        let ghost had = texts(out@);
        proof {
            assert(self@.tabs[i as int] == t@);
            assert(texts(out@).len() == out@.len());
        }
        let view = pick_text(t.scrolled, "scrolled into history", "live follow (bottom)");
        add_line(out, copy_text("  view       ").concat(view));
        add_line(out, self.fleet_text(machine_name(t.host.as_str())));
        let guard = match (self.is_pinned(i), self.is_muted(i)) {
            (true, true) => "pinned 🔒 · muted M",
            (true, false) => "pinned 🔒",
            (false, true) => "muted M",
            (false, false) => "none",
        };
        add_line(out, copy_text("  protec     ").concat(guard));
        if let Some(task) = &t.live_title {
            add_line(out, copy_text("  task       ").concat(task.as_str()));
        }
        let mut s = copy_text("  size       ");
        s.append(decimal(t.lines as u64).as_str());
        s.append("×");
        s.append(decimal(t.cols as u64).as_str());
        add_line(out, s);
        proof {
            assert(texts(out@).len() == out@.len());
            assert(texts(out@) =~= had + view_lines(self@, i as int));
        }
    }

    fn info_text(&self, i: usize, now: u64) -> (r: Vec<String>)
        requires
            self@.wf(),
            i < self@.tabs.len(),
        ensures
            texts(r@) == info_lines(self@, i as int, now),
            r@.len() <= 20,
    {
        let mut out = self.who_text(i);
        self.add_health(&mut out, i, now);
        self.add_view(&mut out, i);
        out
    }

    /// The lines of the panel on the active session.
    pub fn render_info(&self, now: u64) -> (r: Vec<Row>)
        requires
            self@.wf(),
        ensures
            rows(r@) == info_panel(self@, now),
    {
        let mut out: Vec<Row> = Vec::new();
        let i: usize = self.active;
        if i < self.tabs.len() {
            let t = &self.tabs[i];
            proof {
                assert(self@.tabs[i as int] == t@);
            }
            let mut s = copy_text("  ");
            s.append(t.kind.as_str());
            s.append(" · ");
            s.append(t.engine.as_str());
            s.append("  ");
            put_row(&mut out, s, 0, WHITE, false);
            let lines = self.info_text(i, now);
            list_rows(&mut out, lines, 1);
        }
        proof {
            assert(rows(out@) =~= info_panel(self@, now));
        }
        out
    }
}

} // verus!
