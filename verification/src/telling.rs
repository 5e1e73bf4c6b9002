//! Laws of the texts that tell of sessions and machines.
use vstd::prelude::*;

use crate::color::{accents_of, Accent};
use crate::machines::{agents_on, host_mark, host_state, live_on, machine, occurrences, AgentTab};
use crate::opening::{address, char_index, digits_value, port_value};
use crate::paint::{channels, Rgb};
use crate::seqs::listed;
use crate::tabs::{first_said, notice_text, one_line, plain_char, TabView};
use crate::text::{
    dec, digit, is_space, law_decimal_tells_the_number, lemma_search, search, trim_back, trim_front,
    trimmed,
};
use crate::triage::{accent_of, brands, color_for, first_down, fnv32, recall_to, tile_at, Engine};
use crate::words::{
    clipped, duration_text, ends_word, joined, labels_text, padded, remote_target, without_slashes,
    word_start, word_stop,
};

verus! {

/// A duration is told in its largest whole unit, by how many of them it fills.
pub proof fn law_durations(secs: int, k: int)
    requires
        0 <= k,
    ensures
        k < 60 && secs == k ==> duration_text(secs) == dec(k as nat) + "s"@,
        1 <= k < 60 && k * 60 <= secs < (k + 1) * 60 ==> duration_text(secs) == dec(k as nat)
            + "m"@,
        1 <= k < 24 && k * 3600 <= secs < (k + 1) * 3600 ==> duration_text(secs) == dec(k as nat)
            + "h"@,
        1 <= k && k * 86400 <= secs < (k + 1) * 86400 ==> duration_text(secs) == dec(k as nat)
            + "d"@,
{
}

/// Parts are joined by what stands between them, and by nothing else: nothing is joined to an empty
/// text, one part to itself, and two lists with one separator between what each is joined to.
pub proof fn law_joined(a: Seq<Seq<char>>, b: Seq<Seq<char>>, one: Seq<char>, sep: Seq<char>)
    requires
        a.len() > 0,
        b.len() > 0,
    ensures
        joined(Seq::empty(), sep).len() == 0,
        joined(seq![one], sep) == one,
        joined(a + b, sep) == joined(a, sep) + sep + joined(b, sep),
    decreases b.len(),
{
    let all = a + b;
    assert(all.last() == b.last());
    if b.len() == 1 {
        assert(all.drop_last() =~= a);
    } else {
        law_joined(a, b.drop_last(), one, sep);
        assert(all.drop_last() =~= a + b.drop_last());
        assert(joined(all, sep) =~= joined(a, sep) + sep + joined(b, sep));
    }
}

/// A text that fits is not cut; of a longer one the first `max` characters stay, and an ellipsis
/// stands for the rest.
pub proof fn law_clip_keeps_the_front(s: Seq<char>, max: int)
    requires
        0 <= max,
    ensures
        s.len() <= max ==> clipped(s, max) == s,
        s.len() > max ==> {
            &&& clipped(s, max).len() == max + 1
            &&& clipped(s, max)[max] == '…'
            &&& forall|i: int| 0 <= i < max ==> #[trigger] clipped(s, max)[i] == s[i]
        },
{
}

/// Filling up keeps the text, adds nothing but spaces behind it, and adds no more than are missing.
pub proof fn law_padding(s: Seq<char>, n: int)
    ensures
        padded(s, n).len() >= n,
        padded(s, n).len() == n || padded(s, n) == s,
        forall|i: int| 0 <= i < s.len() ==> #[trigger] padded(s, n)[i] == s[i],
        forall|i: int| s.len() <= i < padded(s, n).len() ==> #[trigger] padded(s, n)[i] == ' ',
{
    assert(s.len() >= n ==> padded(s, n) =~= s);
}

/// A word around a column reaches as far as no white space, bracket or quote stands, and no
/// further.
pub proof fn law_word_around(bytes: Seq<u8>, col: int)
    requires
        0 <= col < bytes.len(),
    ensures
        0 <= word_start(bytes, col) <= col <= word_stop(bytes, col) <= bytes.len(),
        forall|i: int|
            word_start(bytes, col) <= i < word_stop(bytes, col) ==> !ends_word(#[trigger] bytes[i]),
        word_start(bytes, col) > 0 ==> ends_word(bytes[word_start(bytes, col) - 1]),
        word_stop(bytes, col) < bytes.len() ==> ends_word(bytes[word_stop(bytes, col)]),
        forall|b: u8|
            ends_word(b) <==> b == ' ' as u8 || b == '\t' as u8 || b == '\n' as u8 || b == 0x0c || b
                == '\r' as u8 || b == '(' as u8 || b == ')' as u8 || b == '"' as u8 || b == '\'' as u8
                || b == '<' as u8 || b == '>' as u8 || b == '[' as u8 || b == ']' as u8,
{
    lemma_word_start(bytes, col);
    lemma_word_stop(bytes, col);
}

proof fn lemma_word_start(bytes: Seq<u8>, col: int)
    requires
        0 <= col <= bytes.len(),
    ensures
        0 <= word_start(bytes, col) <= col,
        forall|i: int| word_start(bytes, col) <= i < col ==> !ends_word(#[trigger] bytes[i]),
        word_start(bytes, col) > 0 ==> ends_word(bytes[word_start(bytes, col) - 1]),
    decreases col,
{
    if 0 < col && !ends_word(bytes[col - 1]) {
        lemma_word_start(bytes, col - 1);
    }
}

proof fn lemma_word_stop(bytes: Seq<u8>, col: int)
    requires
        0 <= col <= bytes.len(),
    ensures
        col <= word_stop(bytes, col) <= bytes.len(),
        forall|i: int| col <= i < word_stop(bytes, col) ==> !ends_word(#[trigger] bytes[i]),
        word_stop(bytes, col) < bytes.len() ==> ends_word(bytes[word_stop(bytes, col)]),
    decreases bytes.len() - col,
{
    if col < bytes.len() && !ends_word(bytes[col]) {
        lemma_word_stop(bytes, col + 1);
    }
}

/// Whether a text is not empty and has no white space at its ends.
pub open spec fn tight(s: Seq<char>) -> bool {
    s.len() > 0 && !is_space(s[0]) && !is_space(s.last())
}

proof fn lemma_tight(s: Seq<char>)
    requires
        tight(s),
    ensures
        trimmed(s) == s,
{
    assert(trim_front(s) == s);
    assert(trim_back(s) == s);
}

/// Whether a character does not stand in a text.
pub open spec fn lacks(s: Seq<char>, c: char) -> bool {
    forall|i: int| 0 <= i < s.len() ==> #[trigger] s[i] != c
}

proof fn lemma_lacks(s: Seq<char>, c: char, from: int)
    requires
        lacks(s, c),
        0 <= from,
    ensures
        search(s, seq![c], from) is None,
        char_index(s, c, from) is None,
    decreases s.len() - from,
{
    lemma_search(s, seq![c], from);
    if let Some(i) = search(s, seq![c], from) {
        assert(s.subrange(i, i + 1)[0] == seq![c][0]);
    }
    if from < s.len() {
        lemma_lacks(s, c, from + 1);
    }
}

proof fn lemma_first_place(a: Seq<char>, c: char, b: Seq<char>, from: int)
    requires
        lacks(a, c),
        0 <= from <= a.len(),
    ensures
        search(a + seq![c] + b, seq![c], from) == Some(a.len() as int),
        char_index(a + seq![c] + b, c, from) == Some(a.len() as int),
    decreases a.len() - from,
{
    let s = a + seq![c] + b;
    if from == a.len() {
        assert(s[from] == c);
        assert(s.subrange(from, from + 1) =~= seq![c]);
    } else {
        assert(s[from] == a[from]);
        assert(s.subrange(from, from + 1)[0] != seq![c][0]);
        lemma_first_place(a, c, b, from + 1);
    }
}

/// `host/session` names a machine and a session there; a machine alone, with a slash behind it or
/// not, names no session.
pub proof fn law_remote_target(host: Seq<char>, session: Seq<char>)
    requires
        tight(host),
        tight(session),
        lacks(host, '/'),
    ensures
        remote_target(host + seq!['/'] + session) == (host, Some(session)),
        remote_target(host) == (host, None::<Seq<char>>),
        remote_target(host + seq!['/']) == (host, None::<Seq<char>>),
{
    let n = host.len() as int;
    let both = host + seq!['/'] + session;
    assert(both[0] == host[0] && both.last() == session.last());
    lemma_tight(both);
    lemma_tight(host);
    lemma_tight(session);
    lemma_first_place(host, '/', session, 0);
    assert(both.take(n) =~= host);
    assert(both.skip(n + 1) =~= session);
    lemma_lacks(host, '/', 0);
    assert(host.last() == host[n - 1]);
    assert(without_slashes(host) == host);
    let slash = host + seq!['/'];
    assert(slash =~= host + seq!['/'] + Seq::<char>::empty());
    assert(slash[0] == host[0] && slash.last() == '/');
    assert(!is_space('/'));
    lemma_tight(slash);
    lemma_first_place(host, '/', Seq::empty(), 0);
    assert(slash.skip(n + 1) =~= Seq::<char>::empty());
    assert(trimmed(Seq::<char>::empty()).len() == 0);
    assert(slash.drop_last() =~= host);
    assert(without_slashes(slash) == without_slashes(host));
}

proof fn lemma_digits(n: nat)
    ensures
        digits_value(dec(n)) == Some(n),
    decreases n,
{
    if n < 10 {
        assert(dec(n) =~= seq![digit(n)]);
        assert(dec(n).drop_last() =~= Seq::<char>::empty());
        assert(digits_value(dec(n).drop_last()) == Some(0nat));
    } else {
        lemma_digits(n / 10);
        assert(dec(n).drop_last() =~= dec(n / 10));
        assert(dec(n).last() == digit(n % 10));
        assert(n / 10 * 10 + n % 10 == n);
    }
}

/// `host:port` names a machine and a port there, `host` alone the port that is usual, and nothing
/// at all this machine. A number too large for a port is passed over.
pub proof fn law_address(host: Seq<char>, n: nat, usual: u16)
    requires
        host.len() > 0,
        lacks(host, ':'),
    ensures
        n <= 65535 ==> address(host + seq![':'] + dec(n), usual) == (host, n as u16),
        n > 65535 ==> address(host + seq![':'] + dec(n), usual) == (host, usual),
        address(host, usual) == (host, usual),
        address(Seq::empty(), usual) == ("127.0.0.1"@, usual),
{
    let s = host + seq![':'] + dec(n);
    let k = host.len() as int;
    lemma_first_place(host, ':', dec(n), 0);
    lemma_lacks(host, ':', 0);
    assert(s.take(k) =~= host);
    assert(s.skip(k + 1) =~= dec(n));
    lemma_digits(n);
    law_decimal_tells_the_number(n);
    assert('0' <= dec(n)[0]);
    assert(dec(n)[0] != '+');
    assert(port_value(dec(n)) == (if n <= 65535 {
        Some(n as u16)
    } else {
        None::<u16>
    }));
}

/// A session goes by the name that was given to it, and by its agent where none was; its machine
/// follows behind an `@`, unless it has none.
pub proof fn law_sessions_are_named(t: TabView)
    ensures
        t.name matches Some(n) ==> t.identity() == n + "@"@ + t.host,
        t.name is None ==> t.identity() == t.engine + "@"@ + t.host,
        t.host.len() > 0 ==> t.label() == t.identity(),
        t.host.len() == 0 ==> t.identity() == t.label() + "@"@,
        t.live_title matches Some(d) ==> t.doing() == d,
        t.live_title is None ==> t.doing() == t.title,
{
    assert(t.host.len() == 0 ==> t.head() + "@"@ + t.host =~= t.head() + "@"@);
}

/// A session's line starts with a full mark while it is alive and with an empty one while it is
/// not, and tells where its connection failed only where it is down.
pub proof fn law_summary_marks(t: TabView, i: int)
    requires
        0 <= i,
    ensures
        t.summary(i).len() > 0,
        t.summary(i)[0] == '●' <==> t.seen.alive,
        t.summary(i)[0] == '○' <==> !t.seen.alive,
        t.down() <==> !t.seen.alive && !t.seen.pty,
{
    reveal_strlit("●");
    reveal_strlit("○");
    assert("●"@[0] == '●' && "○"@[0] == '○');
    assert(t.mark().len() == 1);
    assert(t.summary(i)[0] == t.mark()[0]);
}

/// What is announced of one session names it, and what is announced of several says how many.
pub proof fn law_notices(n: nat, list: Seq<char>)
    requires
        n != 1,
    ensures
        notice_text("bell"@, 1, list) == Some(
            (list + " — bell"@, "Session "@ + list + " rang the terminal bell."@),
        ),
        notice_text("bell"@, n, list) == Some(
            (dec(n) + " sessions — bell"@, "Fleet bells: "@ + list + "."@),
        ),
        notice_text("busy"@, 1, list) == Some(
            (list + " · busy"@, list + " produced new output."@),
        ),
        notice_text("busy"@, n, list) == Some(
            (dec(n) + " sessions busy"@, "New output from "@ + list + "."@),
        ),
        notice_text("recover"@, 1, list) == Some(
            (list + " · reconnected"@, list + " is back online."@),
        ),
        notice_text("recover"@, n, list) == Some(
            (dec(n) + " sessions reconnected"@, "Back online: "@ + list + "."@),
        ),
        notice_text("down"@, 1, list) == Some((list + " · went down"@, list + " disappeared."@)),
        notice_text("down"@, n, list) == Some(
            (dec(n) + " sessions went down"@, "Connections lost: "@ + list + "."@),
        ),
{
    reveal_strlit("bell");
    reveal_strlit("busy");
    reveal_strlit("recover");
    reveal_strlit("down");
    assert("bell"@[0] == 'b' && "bell"@[1] == 'e');
    assert("busy"@[0] == 'b' && "busy"@[1] == 'u');
    assert("recover"@[0] == 'r');
    assert("down"@[0] == 'd');
}

/// Up to three sessions are listed by name, with commas between them; more are counted.
pub proof fn law_labels(labels: Seq<Seq<char>>)
    ensures
        labels.len() == 1 ==> labels_text(labels) == labels[0],
        labels.len() == 2 ==> labels_text(labels) == labels[0] + ", "@ + labels[1],
        labels.len() == 3 ==> labels_text(labels) == labels[0] + ", "@ + labels[1] + ", "@
            + labels[2],
        labels.len() > 3 ==> labels_text(labels) == "all "@ + dec(labels.len()) + " sessions"@,
{
    reveal_with_fuel(joined, 3);
    if labels.len() == 2 {
        assert(labels.drop_last()[0] == labels[0]);
    }
    if labels.len() == 3 {
        assert(labels.drop_last().len() == 2);
        assert(labels.drop_last().last() == labels[1]);
        assert(labels.drop_last().drop_last()[0] == labels[0]);
    }
}

/// How often a text stands in a list: not at all exactly where it is not listed, and in two lists
/// as often as in both together.
pub proof fn law_occurrences(a: Seq<Seq<char>>, b: Seq<Seq<char>>, t: Seq<char>)
    ensures
        occurrences(a, t) > 0 <==> listed(a, t),
        occurrences(seq![t], t) == 1,
        occurrences(a + b, t) == occurrences(a, t) + occurrences(b, t),
    decreases a.len() + b.len(),
{
    let one = seq![t];
    assert(one.drop_last() =~= Seq::<Seq<char>>::empty());
    assert(occurrences(one.drop_last(), t) == 0);
    assert(one.last() == t);
    if a.len() > 0 {
        law_occurrences(a.drop_last(), Seq::empty(), t);
        if listed(a.drop_last(), t) {
            let i = choose|i: int| 0 <= i < a.drop_last().len() && #[trigger] a.drop_last()[i] == t;
            assert(a[i] == t);
        }
        if listed(a, t) && a.last() != t {
            let i = choose|i: int| 0 <= i < a.len() && #[trigger] a[i] == t;
            assert(a.drop_last()[i] == t);
        }
        if a.last() == t {
            assert(a[a.len() - 1] == t);
        }
    }
    if b.len() > 0 {
        law_occurrences(a, b.drop_last(), t);
        assert((a + b).drop_last() =~= a + b.drop_last());
        assert((a + b).last() == b.last());
    } else {
        assert(a + b =~= a);
    }
}

/// Of a machine no session is alive exactly where every one of its tabs is dead, and all are
/// exactly where every one of its tabs is alive.
pub proof fn law_alive_on_a_machine(tabs: Seq<AgentTab>, host: Seq<char>)
    ensures
        live_on(tabs, host) <= agents_on(tabs, host).len(),
        live_on(tabs, host) == 0 <==> forall|i: int|
            0 <= i < tabs.len() && (#[trigger] tabs[i]).host == host ==> !tabs[i].alive,
        live_on(tabs, host) == agents_on(tabs, host).len() <==> forall|i: int|
            0 <= i < tabs.len() && (#[trigger] tabs[i]).host == host ==> tabs[i].alive,
    decreases tabs.len(),
{
    if tabs.len() > 0 {
        let front = tabs.drop_last();
        law_alive_on_a_machine(front, host);
        assert forall|i: int| 0 <= i < front.len() implies #[trigger] front[i] == tabs[i] by {}
        assert(tabs[tabs.len() - 1] == tabs.last());
        if forall|i: int|
            0 <= i < front.len() && (#[trigger] front[i]).host == host ==> !front[i].alive {
            assert forall|i: int|
                0 <= i < front.len() && (#[trigger] tabs[i]).host == host implies !tabs[i].alive by {
                assert(front[i] == tabs[i]);
            }
        }
        if forall|i: int|
            0 <= i < front.len() && (#[trigger] front[i]).host == host ==> front[i].alive {
            assert forall|i: int|
                0 <= i < front.len() && (#[trigger] tabs[i]).host == host implies tabs[i].alive by {
                assert(front[i] == tabs[i]);
            }
        }
    }
}

/// A machine without a living session is down, one without a dead one is live, and of any other the
/// living ones are told with all that there are.
pub proof fn law_machines_are_told(alive: nat, total: nat)
    requires
        alive <= total,
    ensures
        alive == 0 ==> host_mark(alive as int, total as int) == "○"@ && host_state(
            alive as int,
            total as int,
        ) == "down"@,
        0 < alive == total ==> host_mark(alive as int, total as int) == "●"@ && host_state(
            alive as int,
            total as int,
        ) == "live"@,
        0 < alive < total ==> host_mark(alive as int, total as int) == "◐"@ && host_state(
            alive as int,
            total as int,
        ) == dec(alive) + "/"@ + dec(total) + " live"@,
        machine(Seq::empty()) == "local"@,
        forall|h: Seq<char>| h.len() > 0 ==> #[trigger] machine(h) == h,
{
}

/// The name of a copy's file is made of letters, digits, dashes, underscores and dots alone, and
/// ends in `.log`.
pub proof fn law_file_names_are_plain(t: TabView, stamp: nat, i: int)
    requires
        0 <= i < t.export_name(stamp).len(),
    ensures
        plain_char(t.export_name(stamp)[i], true),
        t.export_name(stamp)[i] != '/',
        t.export_name(stamp)[i] != ' ',
        t.export_name(stamp).skip(t.export_name(stamp).len() - 4) == seq!['.', 'l', 'o', 'g'],
{
    reveal_strlit("-");
    reveal_strlit(".log");
    assert("-"@[0] == '-');
    assert(".log"@ =~= seq!['.', 'l', 'o', 'g']);
    law_decimal_tells_the_number(stamp);
    let name = t.export_name(stamp);
    assert(name.skip(name.len() - 4) =~= ".log"@);
    let base = crate::tabs::plain(t.head(), false);
    let host = crate::tabs::plain(t.host, true);
    assert forall|k: int| 0 <= k < base.len() implies plain_char(#[trigger] base[k], true) by {}
    assert forall|k: int| 0 <= k < host.len() implies plain_char(#[trigger] host[k], true) by {}
    let d = dec(stamp);
    assert forall|k: int| 0 <= k < d.len() implies plain_char(#[trigger] d[k], true) by {}
    let m = if t.seen.pty || t.host.len() == 0 {
        base
    } else {
        base + "-"@ + host
    };
    assert(name == m + "-"@ + d + ".log"@);
    assert forall|k: int| 0 <= k < m.len() implies plain_char(#[trigger] m[k], true) by {
        if k < base.len() {
            assert(m[k] == base[k]);
        } else if k > base.len() {
            assert(m[k] == host[k - base.len() - 1]);
        }
    }
    if i < m.len() {
        assert(name[i] == m[i]);
    } else if i == m.len() {
    } else if i < m.len() + 1 + d.len() {
        assert(name[i] == d[i - m.len() - 1]);
    } else {
        assert(name[i] == ".log"@[i - m.len() - 1 - d.len()]);
    }
}

/// On one line no line ends are left, and every other character stays in its place.
pub proof fn law_one_line(s: Seq<char>)
    ensures
        one_line(s).len() == s.len(),
        lacks(one_line(s), '\n'),
        forall|i: int|
            0 <= i < s.len() && s[i] != '\n' ==> #[trigger] one_line(s)[i] == s[i],
        lacks(s, '\n') ==> one_line(s) == s,
{
    assert(lacks(s, '\n') ==> one_line(s) =~= s);
}

/// The first line that is not blank is what is said, and nothing is where all are blank.
pub proof fn law_first_said(lines: Seq<Seq<char>>, k: int)
    requires
        0 <= k <= lines.len(),
        forall|i: int| 0 <= i < k ==> trimmed(#[trigger] lines[i]).len() == 0,
    ensures
        k < lines.len() && trimmed(lines[k]).len() > 0 ==> first_said(lines) == Some(
            trimmed(lines[k]),
        ),
        k == lines.len() ==> first_said(lines) is None,
    decreases k,
{
    if k > 0 {
        let rest = lines.drop_first();
        assert(trimmed(lines[0]).len() == 0);
        assert forall|i: int| 0 <= i < k - 1 implies trimmed(#[trigger] rest[i]).len() == 0 by {
            assert(rest[i] == lines[i + 1]);
        }
        law_first_said(rest, k - 1);
        if k < lines.len() {
            assert(rest[k - 1] == lines[k]);
        }
    }
}

proof fn lemma_color_for(rows: Seq<(Seq<char>, Rgb)>, name: Seq<char>)
    ensures
        match color_for(rows, name) {
            Some(c) => exists|i: int|
                0 <= i < rows.len() && (#[trigger] rows[i]).0 == name && rows[i].1 == c && forall|
                    j: int,
                |
                    0 <= j < i ==> (#[trigger] rows[j]).0 != name,
            None => forall|i: int| 0 <= i < rows.len() ==> (#[trigger] rows[i]).0 != name,
        },
    decreases rows.len(),
{
    if rows.len() > 0 && rows[0].0 != name {
        let rest = rows.drop_first();
        lemma_color_for(rest, name);
        match color_for(rest, name) {
            Some(c) => {
                let i = choose|i: int|
                    0 <= i < rest.len() && (#[trigger] rest[i]).0 == name && rest[i].1 == c && forall|
                        j: int,
                    |
                        0 <= j < i ==> (#[trigger] rest[j]).0 != name;
                assert(rows[i + 1] == rest[i]);
                assert forall|j: int| 0 <= j < i + 1 implies (#[trigger] rows[j]).0 != name by {
                    if j > 0 {
                        assert(rest[j - 1] == rows[j]);
                    }
                }
            },
            None => {
                assert forall|i: int| 0 <= i < rows.len() implies (#[trigger] rows[i]).0
                    != name by {
                    if i > 0 {
                        assert(rest[i - 1] == rows[i]);
                    }
                }
            },
        }
    }
}

/// An engine is tinted as the theme says first; where the theme says nothing of it, in the color of
/// its brand; and where it is no known engine either, in grey.
pub proof fn law_accents(name: Seq<char>, accents: Seq<Accent>, engines: Seq<Engine>, k: int)
    requires
        0 <= k,
    ensures
        k < accents.len() && accents[k].engine@ == name && (forall|j: int|
            0 <= j < k ==> (#[trigger] accents[j]).engine@ != name) ==> accent_of(
            name,
            accents,
            engines,
        ) == accents[k].color,
        k < engines.len() && engines[k].id@ == name && (forall|j: int|
            0 <= j < k ==> (#[trigger] engines[j]).id@ != name) && (forall|j: int|
            0 <= j < accents.len() ==> (#[trigger] accents[j]).engine@ != name) ==> accent_of(
            name,
            accents,
            engines,
        ) == channels(engines[k].color),
        (forall|j: int| 0 <= j < engines.len() ==> (#[trigger] engines[j]).id@ != name) && (forall|
            j: int,
        |
            0 <= j < accents.len() ==> (#[trigger] accents[j]).engine@ != name) ==> accent_of(
            name,
            accents,
            engines,
        ) == (0x66u8, 0x66u8, 0x66u8),
{
    let a = accents_of(accents);
    let b = brands(engines);
    assert forall|j: int| 0 <= j < a.len() implies (#[trigger] a[j]) == (
        accents[j].engine@,
        accents[j].color,
    ) by {}
    assert forall|j: int| 0 <= j < b.len() implies (#[trigger] b[j]) == (
        engines[j].id@,
        channels(engines[j].color),
    ) by {}
    lemma_color_for(a, name);
    lemma_color_for(b, name);
    if k < accents.len() && accents[k].engine@ == name {
        assert(a[k].0 == name);
    }
    if k < engines.len() && engines[k].id@ == name {
        assert(b[k].0 == name);
    }
}

/// The hash that a machine's color is taken from starts at its offset and takes in one byte after
/// the other.
pub proof fn law_hash_of_bytes(bytes: Seq<u8>, b: u8)
    ensures
        fnv32(Seq::empty()) == 2166136261u32,
        fnv32(bytes.push(b)) as int == ((fnv32(bytes) ^ b as u32) as int * 16777619)
            % 0x1_0000_0000,
{
    assert(bytes.push(b).drop_last() =~= bytes);
    assert(bytes.push(b).last() == b);
    let x = (fnv32(bytes) ^ b as u32) as int * 16777619;
    assert(0 <= x % 0x1_0000_0000 < 0x1_0000_0000);
}

/// Recall goes one entry on or back, from the last to the first and from the first to the last;
/// with none recalled yet it starts with the last backward and with the first forward.
pub proof fn law_recall_goes_round(n: int, i: usize)
    requires
        i < n,
    ensures
        recall_to(n, 1, Some(i)) == (if i + 1 == n {
            0
        } else {
            i + 1
        }),
        recall_to(n, -1, Some(i)) == (if i == 0 {
            n - 1
        } else {
            i - 1
        }),
        recall_to(n, 1, None) == 0,
        recall_to(n, -1, None) == n - 1,
{
    if i + 1 == n {
        vstd::arithmetic::div_mod::lemma_mod_self_0(n);
    } else {
        vstd::arithmetic::div_mod::lemma_small_mod((i + 1) as nat, n as nat);
    }
    if i == 0 {
        vstd::arithmetic::div_mod::lemma_mod_add_multiples_vanish(-1, n);
        vstd::arithmetic::div_mod::lemma_small_mod((n - 1) as nat, n as nat);
    } else {
        vstd::arithmetic::div_mod::lemma_small_mod((i - 1) as nat, n as nat);
    }
}

/// A point belongs to the tile that it lies in, and to none where it lies in a gap, beside the
/// tiles, behind the last one or in a row that the window cuts.
pub proof fn law_tiles(
    x: int,
    y: int,
    x0: int,
    y0: int,
    tw: int,
    th: int,
    cols: int,
    n: int,
    height: int,
    r: int,
    c: int,
)
    requires
        0 < tw,
        0 <= th,
        0 < cols,
        0 <= r,
        0 <= c < cols,
    ensures
        ({
            let inside = x0 + c * (tw + 8) <= x < x0 + c * (tw + 8) + tw && y0 + r * (th + 8) <= y
                < y0 + r * (th + 8) + th;
            let there = y0 + r * (th + 8) + th <= height && r * cols + c < n;
            let found = tile_at(x, y, x0, y0, tw, th, cols, n, height);
            &&& inside && there ==> found == Some(r * cols + c)
            &&& inside && !there ==> found is None
            &&& found == Some(r * cols + c) ==> inside && there
        }),
{
    let (w, h) = (tw + 8, th + 8);
    let inside = x0 + c * w <= x < x0 + c * w + tw && y0 + r * h <= y < y0 + r * h + th;
    assert(0 <= c * w && 0 <= r * h) by (nonlinear_arith)
        requires
            0 <= c,
            0 <= r,
            0 < w,
            0 < h,
    ;
    if inside {
        let (px, py) = (x - x0 - c * w, y - y0 - r * h);
        assert(x - x0 == c * w + px);
        assert(y - y0 == r * h + py);
        vstd::arithmetic::div_mod::lemma_fundamental_div_mod_converse(x - x0, w, c, px);
        vstd::arithmetic::div_mod::lemma_fundamental_div_mod_converse(y - y0, h, r, py);
    }
    let found = tile_at(x, y, x0, y0, tw, th, cols, n, height);
    if found == Some(r * cols + c) {
        let c1 = (x - x0) / w;
        let r1 = (y - y0) / h;
        vstd::arithmetic::div_mod::lemma_fundamental_div_mod(x - x0, w);
        vstd::arithmetic::div_mod::lemma_fundamental_div_mod(y - y0, h);
        vstd::arithmetic::div_mod::lemma_div_pos_is_pos(x - x0, w);
        vstd::arithmetic::div_mod::lemma_div_pos_is_pos(y - y0, h);
        vstd::arithmetic::div_mod::lemma_mod_bound(x - x0, w);
        vstd::arithmetic::div_mod::lemma_mod_bound(y - y0, h);
        vstd::arithmetic::div_mod::lemma_fundamental_div_mod_converse(r * cols + c, cols, r, c);
        vstd::arithmetic::div_mod::lemma_fundamental_div_mod_converse(
            r1 * cols + c1,
            cols,
            r1,
            c1,
        );
        assert(w * c1 == c1 * w && h * r1 == r1 * h) by (nonlinear_arith);
    }
}

/// The first session that is down is the first of all that is not alive and no local shell.
pub proof fn law_first_down(kinds: Seq<Seq<char>>, alive: Seq<bool>, from: int, k: int)
    requires
        kinds.len() == alive.len(),
        0 <= from <= k <= kinds.len(),
        forall|i: int| from <= i < k ==> (#[trigger] kinds[i]) == "pty"@ || alive[i],
    ensures
        k < kinds.len() && kinds[k] != "pty"@ && !alive[k] ==> first_down(kinds, alive, from)
            == Some(k),
        k == kinds.len() ==> first_down(kinds, alive, from) is None,
    decreases k - from,
{
    if from < k {
        assert(kinds[from] == "pty"@ || alive[from]);
        law_first_down(kinds, alive, from + 1, k);
    }
}

} // verus!
