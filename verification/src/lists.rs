//! The lists that are typed into: the command palette, the fleet and the sessions to triage, and
//! what a query leaves of each.

use vstd::prelude::*;
use vstd::string::*;
use vstd::utf8::is_ascii_chars;

use crate::activity::{quiet, quiet_for};
use crate::board::{Board, BoardView};
use crate::seqs::{indices_set, ints, set_indices};
use crate::tabs::{Tab, TabView};
use crate::text::{
    ascii_lowered, chars_of, contains, contains_text, is_space, law_contains, lowercase, lowercased,
    same_text, space, string_from, texts, trim, trim_front, trimmed,
};
use crate::words::{fuzzy, fuzzy_match};

verus! {

/// What a row of the command palette does.
#[derive(Clone, Copy, Debug, PartialEq, Eq, Structural)]
pub enum PaletteAction {
    NewSession,
    RemoteAttach,
    SessionPalette,
    FindInTab,
    SearchAll,
    CopyScrollback,
    ExportLog,
    CopyIdentity,
    CopyFleet,
    Broadcast,
    Peek,
    FleetGrid,
    UndoClose,
    Duplicate,
    SessionInfo,
    MarkAllRead,
    ToggleFocus,
    Pin,
    NextPinned,
    NextBusy,
    NextQuiet,
    NextDown,
    MuteActive,
    Rename,
    PageUp,
    ScrollTop,
    ScrollBottom,
    NextHost,
    Hosts,
    Dnd,
    Reconnect,
    ReconnectAll,
    Destroy,
    Interrupt,
    InterruptAll,
    CloseQuiet,
    Help,
    Quit,
}

/// The rows of the command palette, in order.
pub const PALETTE_ROWS: [(&'static str, PaletteAction); 38] = [
    ("new session (engine picker)", PaletteAction::NewSession),
    ("attach to a remote pane@host", PaletteAction::RemoteAttach),
    ("jump to a session (palette)", PaletteAction::SessionPalette),
    ("find in current tab", PaletteAction::FindInTab),
    ("search all sessions", PaletteAction::SearchAll),
    ("copy whole scrollback", PaletteAction::CopyScrollback),
    ("export scrollback to .log file", PaletteAction::ExportLog),
    ("copy session identity (engine@host)", PaletteAction::CopyIdentity),
    ("copy whole fleet summary (all tabs)", PaletteAction::CopyFleet),
    ("broadcast a line to all sessions", PaletteAction::Broadcast),
    ("peek at all session tails", PaletteAction::Peek),
    ("fleet grid: live tails of every session", PaletteAction::FleetGrid),
    ("undo close (reopen last)", PaletteAction::UndoClose),
    ("duplicate active tab (fork same engine@host)", PaletteAction::Duplicate),
    ("show session info (kind/host/task)", PaletteAction::SessionInfo),
    ("mark all tabs as read (clear busy + bell badges)", PaletteAction::MarkAllRead),
    ("toggle focus mode (hide tab bar + status)", PaletteAction::ToggleFocus),
    ("pin/unpin active tab (protect from close)", PaletteAction::Pin),
    ("jump to next pinned tab", PaletteAction::NextPinned),
    ("jump to next busy tab (just produced output)", PaletteAction::NextBusy),
    ("jump to next quiet (awaiting-you) tab", PaletteAction::NextQuiet),
    ("jump to next down/reconnecting tab", PaletteAction::NextDown),
    ("mute/unmute active tab (stop busy badge + OS ping)", PaletteAction::MuteActive),
    ("rename active session", PaletteAction::Rename),
    ("jump to next host (page fleet by machine)", PaletteAction::NextHost),
    ("host overview (which machines are up)", PaletteAction::Hosts),
    ("toggle do-not-disturb (mute all OS notifications)", PaletteAction::Dnd),
    ("force reconnect active tab (bypass backoff)", PaletteAction::Reconnect),
    ("force reconnect ALL down panes", PaletteAction::ReconnectAll),
    ("kill active tab's pane (destroy remote session)", PaletteAction::Destroy),
    ("send Ctrl-C to active tab (stop the run)", PaletteAction::Interrupt),
    ("send Ctrl-C to every session (stop the fleet)", PaletteAction::InterruptAll),
    ("close all quiet (done) tabs", PaletteAction::CloseQuiet),
    ("page up (review this tab's scrollback)", PaletteAction::PageUp),
    ("scroll to top (start of the log)", PaletteAction::ScrollTop),
    ("scroll to bottom (back to live)", PaletteAction::ScrollBottom),
    ("show this help", PaletteAction::Help),
    ("quit", PaletteAction::Quit),
];

/// Which rows of the palette a query leaves: those in which its characters occur in order.
pub open spec fn palette_mask(query: Seq<char>) -> Seq<bool> {
    Seq::new(
        PALETTE_ROWS@.len(),
        |i: int|
            lowercased(query).len() == 0 || fuzzy(lowercased(query), lowercased(PALETTE_ROWS@[i].0@)),
    )
}

/// The rows of the palette that a query leaves.
pub fn palette_shown(query: &str) -> (r: Vec<usize>)
    ensures
        ints(r@) == set_indices(palette_mask(query@)),
{
    let q = lowercase(query);
    let mut mask: Vec<bool> = Vec::new();
    let rows = PALETTE_ROWS;
    let n: usize = rows.len();
    let mut i: usize = 0;
    while i < n
        invariant
            i <= n,
            n == PALETTE_ROWS@.len(),
            rows == PALETTE_ROWS,
            q@ == lowercased(query@),
            mask@ == palette_mask(query@).take(i as int),
        decreases n - i,
    {
        let low = lowercase(rows[i].0);
        mask.push(q.as_str().is_empty() || fuzzy_match(q.as_str(), low.as_str()));
        proof {
            assert(mask@ =~= palette_mask(query@).take(i + 1));
        }
        i = i + 1;
    }
    proof {
        assert(palette_mask(query@).take(i as int) =~= palette_mask(query@));
    }
    indices_set(mask.as_slice())
}

/// A session that the daemon knows of.
pub struct FleetRow {
    pub session_id: String,
    pub tmux_pane: String,
    pub engine: String,
    pub name: String,
    pub live: bool,
}

/// A session that the daemon knows of, as plain data.
#[verifier::ext_equal]
pub struct FleetRowView {
    pub session_id: Seq<char>,
    pub tmux_pane: Seq<char>,
    pub engine: Seq<char>,
    pub name: Seq<char>,
    pub live: bool,
}

impl View for FleetRow {
    type V = FleetRowView;

    open spec fn view(&self) -> FleetRowView {
        FleetRowView {
            session_id: self.session_id@,
            tmux_pane: self.tmux_pane@,
            engine: self.engine@,
            name: self.name@,
            live: self.live,
        }
    }
}

pub open spec fn fleet_views(rows: Seq<FleetRow>) -> Seq<FleetRowView> {
    rows.map_values(|r: FleetRow| r@)
}

/// Which sessions of the fleet a query leaves: those that hold it, whatever the case.
pub open spec fn fleet_mask(rows: Seq<FleetRowView>, query: Seq<char>) -> Seq<bool> {
    let q = lowercased(query);
    rows.map_values(
        |r: FleetRowView|
            q.len() == 0 || contains_text(lowercased(r.session_id), q) || contains_text(
                lowercased(r.tmux_pane),
                q,
            ) || contains_text(lowercased(r.engine), q) || contains_text(lowercased(r.name), q),
    )
}

fn holds(text: &str, q: &str) -> (r: bool)
    ensures
        r == contains_text(lowercased(text@), q@),
{
    let low = lowercase(text);
    contains(low.as_str(), q)
}

/// The sessions of the fleet that a query leaves.
pub fn fleet_shown(rows: &Vec<FleetRow>, query: &str) -> (r: Vec<usize>)
    ensures
        ints(r@) == set_indices(fleet_mask(fleet_views(rows@), query@)),
{
    let q = lowercase(query);
    let ghost want = fleet_mask(fleet_views(rows@), query@);
    let mut mask: Vec<bool> = Vec::new();
    let mut i: usize = 0;
    while i < rows.len()
        invariant
            i <= rows@.len(),
            q@ == lowercased(query@),
            want == fleet_mask(fleet_views(rows@), query@),
            mask@ == want.take(i as int),
        decreases rows@.len() - i,
    {
        let r = &rows[i];
        let keep = q.as_str().is_empty() || holds(r.session_id.as_str(), q.as_str()) || holds(
            r.tmux_pane.as_str(),
            q.as_str(),
        ) || holds(r.engine.as_str(), q.as_str()) || holds(r.name.as_str(), q.as_str());
        mask.push(keep);
        proof {
            assert(fleet_views(rows@)[i as int] == r@);
            assert(mask@ =~= want.take(i + 1));
        }
        i = i + 1;
    }
    proof {
        assert(want.take(i as int) =~= want);
    }
    indices_set(mask.as_slice())
}

/// How long the first word of a text is, where it starts with one.
pub open spec fn word_len(s: Seq<char>) -> int
    decreases s.len(),
{
    if s.len() == 0 || is_space(s[0]) {
        0
    } else {
        1 + word_len(s.drop_first())
    }
}

proof fn lemma_word_len(s: Seq<char>)
    ensures
        0 <= word_len(s) <= s.len(),
        s.len() > 0 && !is_space(s[0]) ==> word_len(s) > 0,
    decreases s.len(),
{
    if s.len() > 0 && !is_space(s[0]) {
        lemma_word_len(s.drop_first());
    }
}

proof fn lemma_trim_front(s: Seq<char>)
    ensures
        trim_front(s).len() <= s.len(),
        trim_front(s).len() > 0 ==> !is_space(trim_front(s)[0]),
    decreases s.len(),
{
    if s.len() > 0 && is_space(s[0]) {
        lemma_trim_front(s.drop_first());
    }
}

/// The words of a text, parted by white space.
pub open spec fn split_words(s: Seq<char>) -> Seq<Seq<char>>
    decreases s.len(),
    via split_words_ends
{
    let t = trim_front(s);
    if t.len() == 0 {
        Seq::empty()
    } else {
        seq![t.take(word_len(t))] + split_words(t.skip(word_len(t)))
    }
}

#[via_fn]
proof fn split_words_ends(s: Seq<char>) {
    lemma_trim_front(s);
    lemma_word_len(trim_front(s));
}

/// The words of a text, parted by white space.
pub fn words_of(s: &str) -> (r: Vec<String>)
    ensures
        texts(r@) == split_words(s@),
{
    let v = chars_of(s);
    let n: usize = v.len();
    let mut out: Vec<String> = Vec::new();
    let mut i: usize = 0;
    proof {
        assert(v@.skip(0) =~= v@);
        assert(texts(out@) + split_words(v@.skip(0)) =~= split_words(s@));
    }
    loop
        invariant
            i <= n,
            n == v@.len(),
            v@ == s@,
            texts(out@) + split_words(v@.skip(i as int)) == split_words(s@),
        decreases n - i,
    {
        let start: usize = past_space(&v, i);
        proof {
            lemma_trim_front(v@.skip(i as int));
            lemma_word_len(v@.skip(start as int));
        }
        if start >= n {
            proof {
                assert(trim_front(v@.skip(i as int)).len() == 0);
                assert(texts(out@) =~= split_words(s@));
            }
            return out;
        }
        let end: usize = past_word(&v, start);
        let w = string_from(&v, start, end);
        let ghost had = texts(out@);
        let ghost t = w@;
        out.push(w);
        proof {
            let rest = v@.skip(start as int);
            assert(v@.skip(end as int) =~= rest.skip(end - start));
            assert(t =~= rest.take(end - start));
            assert(texts(out@) =~= had.push(t));
            assert(split_words(v@.skip(i as int)) == seq![t] + split_words(v@.skip(end as int)));
            assert(texts(out@) + split_words(v@.skip(end as int)) =~= had + split_words(
                v@.skip(i as int),
            ));
        }
        i = end;
    }
}

fn past_space(v: &Vec<char>, from: usize) -> (r: usize)
    requires
        from <= v@.len(),
    ensures
        from <= r <= v@.len(),
        v@.skip(r as int) == trim_front(v@.skip(from as int)),
{
    let mut i: usize = from;
    while i < v.len() && space(v[i])
        invariant
            from <= i <= v@.len(),
            trim_front(v@.skip(i as int)) == trim_front(v@.skip(from as int)),
        decreases v@.len() - i,
    {
        proof {
            assert(v@.skip(i as int).drop_first() =~= v@.skip(i + 1));
        }
        i = i + 1;
    }
    i
}

fn past_word(v: &Vec<char>, from: usize) -> (r: usize)
    requires
        from <= v@.len(),
    ensures
        from <= r <= v@.len(),
        r - from == word_len(v@.skip(from as int)),
{
    let mut i: usize = from;
    while i < v.len() && !space(v[i])
        invariant
            from <= i <= v@.len(),
            i - from + word_len(v@.skip(i as int)) == word_len(v@.skip(from as int)),
        decreases v@.len() - i,
    {
        proof {
            assert(v@.skip(i as int).drop_first() =~= v@.skip(i + 1));
        }
        i = i + 1;
    }
    i
}

impl TabView {
    /// Whether the session's machine, agent, name or kind holds a text in small letters.
    pub open spec fn mentions(self, tok: Seq<char>) -> bool {
        contains_text(lowercased(self.host), tok) || contains_text(lowercased(self.engine), tok) || (
        self.name matches Some(n) && contains_text(lowercased(n), tok)) || contains_text(
            lowercased(self.kind),
            tok,
        )
    }
}

impl Tab {
    /// Whether the session's machine, agent, name or kind holds a text in small letters.
    pub fn matches_filter(&self, tok: &str) -> (r: bool)
        ensures
            r == self@.mentions(tok@),
    {
        holds(self.host.as_str(), tok) || holds(self.engine.as_str(), tok) || (match &self.name {
            Some(n) => holds(n.as_str(), tok),
            None => false,
        }) || holds(self.kind.as_str(), tok)
    }
}

impl BoardView {
    /// Whether a tab is what a word of the triage query asks for.
    pub open spec fn answers(self, i: int, tok: Seq<char>, now: u64) -> bool {
        let t = self.tabs[i];
        if tok == "down"@ {
            t.down()
        } else if tok == "up"@ {
            !t.seen.pty && t.seen.alive
        } else if tok == "busy"@ {
            self.slots[i].grew > 0
        } else if tok == "quiet"@ {
            quiet(self.slots[i], t.seen, i == self.active, now, self.quiet_after)
        } else {
            t.mentions(tok)
        }
    }

    /// Which tabs the triage query leaves: those that answer every word of it.
    pub open spec fn triage_mask(self, query: Seq<char>, now: u64) -> Seq<bool> {
        let toks = split_words(lowercased(trimmed(query)));
        Seq::new(
            self.tabs.len(),
            |i: int|
                forall|k: int| 0 <= k < toks.len() ==> #[trigger] self.answers(i, toks[k], now),
        )
    }
}

impl Board {
    fn answers(&self, i: usize, tok: &str, now: u64) -> (r: bool)
        requires
            self@.wf(),
            i < self@.tabs.len(),
        ensures
            r == self@.answers(i as int, tok@, now),
    {
        let t = &self.tabs[i];
        if same_text(tok, "down") {
            t.is_down()
        } else if same_text(tok, "up") {
            !t.seen.pty && t.seen.alive
        } else if same_text(tok, "busy") {
            self.slots[i].grew > 0
        } else if same_text(tok, "quiet") {
            quiet_for(&self.slots[i], &t.seen, i == self.active, now, self.quiet_after)
        } else {
            t.matches_filter(tok)
        }
    }

    fn answers_all(&self, i: usize, toks: &Vec<String>, now: u64) -> (r: bool)
        requires
            self@.wf(),
            i < self@.tabs.len(),
        ensures
            r == (forall|k: int|
                0 <= k < toks@.len() ==> #[trigger] self@.answers(i as int, texts(toks@)[k], now)),
    {
        let mut k: usize = 0;
        while k < toks.len()
            invariant
                k <= toks@.len(),
                self@.wf(),
                i < self@.tabs.len(),
                forall|j: int|
                    0 <= j < k ==> #[trigger] self@.answers(i as int, texts(toks@)[j], now),
            decreases toks@.len() - k,
        {
            if !self.answers(i, toks[k].as_str(), now) {
                proof {
                    assert(!self@.answers(i as int, texts(toks@)[k as int], now));
                }
                return false;
            }
            proof {
                assert(self@.answers(i as int, texts(toks@)[k as int], now));
            }
            k = k + 1;
        }
        true
    }

    /// The tabs that the triage query leaves.
    pub fn triage_shown(&self, query: &str, now: u64) -> (r: Vec<usize>)
        requires
            self@.wf(),
        ensures
            ints(r@) == set_indices(self@.triage_mask(query@, now)),
    {
        let bare = trim(query);
        let toks = words_of(lowercase(bare.as_str()).as_str());
        let ghost want = self@.triage_mask(query@, now);
        let mut mask: Vec<bool> = Vec::new();
        let mut i: usize = 0;
        while i < self.tabs.len()
            invariant
                i <= self.tabs@.len(),
                self@.wf(),
                texts(toks@) == split_words(lowercased(trimmed(query@))),
                want == self@.triage_mask(query@, now),
                mask@ == want.take(i as int),
            decreases self.tabs@.len() - i,
        {
            let keep = self.answers_all(i, &toks, now);
            mask.push(keep);
            proof {
                assert(texts(toks@).len() == toks@.len());
                assert(want[i as int] == keep);
                assert(mask@ =~= want.take(i + 1));
            }
            i = i + 1;
        }
        proof {
            assert(want.take(i as int) =~= want);
        }
        indices_set(mask.as_slice())
    }
}

/// Every word more leaves fewer tabs, or the same: a tab that a query leaves is left by each query
/// that has no other words.
pub proof fn law_words_narrow(b: BoardView, i: int, more: Seq<char>, less: Seq<char>, now: u64)
    requires
        0 <= i < b.tabs.len(),
        b.triage_mask(more, now)[i],
        forall|k: int|
            0 <= k < split_words(lowercased(trimmed(less))).len() ==> split_words(
                lowercased(trimmed(more)),
            ).contains(#[trigger] split_words(lowercased(trimmed(less)))[k]),
    ensures
        b.triage_mask(less, now)[i],
{
    let few = split_words(lowercased(trimmed(less)));
    let many = split_words(lowercased(trimmed(more)));
    assert forall|k: int| 0 <= k < few.len() implies #[trigger] b.answers(i, few[k], now) by {
        assert(many.contains(few[k]));
        let j = choose|j: int| 0 <= j < many.len() && many[j] == few[k];
        assert(b.answers(i, many[j], now));
    }
}

/// Whether a text is one word.
pub open spec fn one_word(w: Seq<char>) -> bool {
    w.len() > 0 && forall|i: int| 0 <= i < w.len() ==> !is_space(#[trigger] w[i])
}

proof fn lemma_whole_word(w: Seq<char>)
    requires
        forall|i: int| 0 <= i < w.len() ==> !is_space(#[trigger] w[i]),
    ensures
        word_len(w) == w.len(),
    decreases w.len(),
{
    if w.len() > 0 {
        assert forall|i: int| 0 <= i < w.len() - 1 implies !is_space(
            #[trigger] w.drop_first()[i],
        ) by {
            assert(!is_space(w[i + 1]));
        }
        lemma_whole_word(w.drop_first());
    }
}

/// A text without white space is the one word of it; two texts parted by a blank have the words of
/// the one and then those of the other, where the first is a word.
pub proof fn law_words_are_parted(w: Seq<char>, rest: Seq<char>)
    requires
        one_word(w),
    ensures
        split_words(w) == seq![w],
        split_words(w + seq![' '] + rest) == seq![w] + split_words(seq![' '] + rest),
        split_words(seq![' '] + rest) == split_words(rest),
        split_words(Seq::empty()) == Seq::<Seq<char>>::empty(),
{
    lemma_whole_word(w);
    assert(trim_front(w) == w);
    assert(w.take(w.len() as int) =~= w);
    assert(w.skip(w.len() as int) =~= Seq::empty());
    assert(trim_front(Seq::empty()) =~= Seq::<char>::empty());
    assert(split_words(Seq::empty()) =~= Seq::<Seq<char>>::empty());
    assert(split_words(w) =~= seq![w]);
    let b = seq![' '] + rest;
    assert(b.drop_first() =~= rest);
    assert(b[0] == ' ');
    assert(trim_front(b) == trim_front(rest));
    let t = w + seq![' '] + rest;
    assert(t[0] == w[0]);
    assert(trim_front(t) == t);
    lemma_word_in_front(w, rest);
    assert(t.take(w.len() as int) =~= w);
    assert(t.skip(w.len() as int) =~= b);
}

proof fn lemma_word_in_front(w: Seq<char>, rest: Seq<char>)
    requires
        forall|i: int| 0 <= i < w.len() ==> !is_space(#[trigger] w[i]),
    ensures
        word_len(w + seq![' '] + rest) == w.len(),
    decreases w.len(),
{
    let t = w + seq![' '] + rest;
    if w.len() > 0 {
        assert forall|i: int| 0 <= i < w.len() - 1 implies !is_space(
            #[trigger] w.drop_first()[i],
        ) by {
            assert(!is_space(w[i + 1]));
        }
        lemma_word_in_front(w.drop_first(), rest);
        assert(t.drop_first() =~= w.drop_first() + seq![' '] + rest);
        assert(t[0] == w[0]);
    } else {
        assert(t[0] == ' ');
    }
}

/// The four words that ask for a state are words.
proof fn lemma_state_words()
    ensures
        one_word("down"@),
        one_word("up"@),
        one_word("busy"@),
        one_word("quiet"@),
        "down"@.len() == 4 && "up"@.len() == 2 && "busy"@.len() == 4 && "quiet"@.len() == 5,
        "down"@[0] == 'd' && "busy"@[0] == 'b',
{
    reveal_strlit("down");
    reveal_strlit("up");
    reveal_strlit("busy");
    reveal_strlit("quiet");
}

/// What the words of the triage query that ask for a state leave, typed in small letters or not:
/// the remote panes without their connection, those with it, the tabs that grew in the last pass,
/// and those that wait for the user. No tab is both down and up, and a local shell is neither.
pub proof fn law_states_are_told_apart(b: BoardView, q: Seq<char>, i: int, now: u64)
    requires
        b.wf(),
        0 <= i < b.tabs.len(),
        is_ascii_chars(trimmed(q)),
    ensures
        ({
            let (t, s) = (b.tabs[i].seen, b.slots[i]);
            let w = ascii_lowered(trimmed(q));
            let left = b.triage_mask(q, now)[i];
            &&& b.triage_mask(q, now).len() == b.tabs.len()
            &&& w == "down"@ ==> (left <==> !t.alive && !t.pty)
            &&& w == "up"@ ==> (left <==> t.alive && !t.pty)
            &&& w == "busy"@ ==> (left <==> s.grew > 0)
            &&& w == "quiet"@ && s.last_output <= now && b.quiet_after > 0 ==> (left <==> t.alive
                && !t.pty && i != b.active && !s.pinned && !s.muted && s.seen is Some
                && s.last_output + b.quiet_after <= now)
            &&& w.len() == 0 ==> left
        }),
{
    lemma_state_words();
    let w = ascii_lowered(trimmed(q));
    let toks = split_words(lowercased(trimmed(q)));
    assert(lowercased(trimmed(q)) == w);
    if one_word(w) {
        law_words_are_parted(w, Seq::empty());
        assert(toks == seq![w]);
        assert(toks[0] == w);
        assert(b.triage_mask(q, now)[i] <==> b.answers(i, w, now)) by {
            if b.answers(i, w, now) {
                assert forall|k: int| 0 <= k < toks.len() implies #[trigger] b.answers(
                    i,
                    toks[k],
                    now,
                ) by {}
            } else {
                assert(!b.answers(i, toks[0], now));
            }
        }
    }
    if w.len() == 0 {
        assert(w =~= Seq::empty());
        law_words_are_parted("up"@, Seq::empty());
        assert(toks.len() == 0);
    }
}

/// A word of the triage query that asks for no state leaves the tabs whose machine, agent, name or
/// kind holds it, whatever the case of its letters.
pub proof fn law_names_are_searched(b: BoardView, w: Seq<char>, i: int, now: u64)
    requires
        0 <= i < b.tabs.len(),
        one_word(w),
        is_ascii_chars(w),
        ascii_lowered(w) == w,
        w != "down"@ && w != "up"@ && w != "busy"@ && w != "quiet"@,
    ensures
        ({
            let t = b.tabs[i];
            let holds = |text: Seq<char>|
                exists|k: int|
                    0 <= k && k + w.len() <= lowercased(text).len() && #[trigger] lowercased(
                        text,
                    ).subrange(k, k + w.len()) == w;
            b.triage_mask(w, now)[i] <==> holds(t.host) || holds(t.engine) || holds(t.kind) || (
            t.name matches Some(n) && holds(n))
        }),
{
    let toks = split_words(lowercased(trimmed(w)));
    assert(trimmed(w) == w) by {
        assert(!is_space(w[0]) && !is_space(w[w.len() - 1]));
    }
    law_words_are_parted(w, Seq::empty());
    assert(toks[0] == w);
    assert(b.triage_mask(w, now)[i] <==> b.answers(i, w, now)) by {
        if b.answers(i, w, now) {
            assert forall|k: int| 0 <= k < toks.len() implies #[trigger] b.answers(
                i,
                toks[k],
                now,
            ) by {}
        } else {
            assert(!b.answers(i, toks[0], now));
        }
    }
    let t = b.tabs[i];
    law_contains(lowercased(t.host), w);
    law_contains(lowercased(t.engine), w);
    law_contains(lowercased(t.kind), w);
    if let Some(n) = t.name {
        law_contains(lowercased(n), w);
    }
}

/// Two words leave the tabs that each of them leaves alone.
pub proof fn law_words_add_up(b: BoardView, v: Seq<char>, w: Seq<char>, i: int, now: u64)
    requires
        0 <= i < b.tabs.len(),
        one_word(v),
        one_word(w),
        is_ascii_chars(v),
        is_ascii_chars(w),
    ensures
        b.triage_mask(v + seq![' '] + w, now)[i] <==> b.triage_mask(v, now)[i] && b.triage_mask(
            w,
            now,
        )[i],
{
    let (lv, lw) = (ascii_lowered(v), ascii_lowered(w));
    let both = v + seq![' '] + w;
    assert(!is_space(v[0]) && !is_space(v[v.len() - 1]));
    assert(!is_space(w[0]) && !is_space(w[w.len() - 1]));
    assert(both[0] == v[0] && both[both.len() - 1] == w[w.len() - 1]);
    assert(trimmed(v) == v && trimmed(w) == w && trimmed(both) == both);
    assert(is_ascii_chars(both));
    assert(ascii_lowered(both) =~= lv + seq![' '] + lw);
    assert(one_word(lv)) by {
        assert forall|k: int| 0 <= k < lv.len() implies !is_space(#[trigger] lv[k]) by {
            assert(!is_space(v[k]));
        }
    }
    assert(one_word(lw)) by {
        assert forall|k: int| 0 <= k < lw.len() implies !is_space(#[trigger] lw[k]) by {
            assert(!is_space(w[k]));
        }
    }
    law_words_are_parted(lv, lw);
    law_words_are_parted(lw, Seq::empty());
    let toks = split_words(lowercased(trimmed(both)));
    assert(toks =~= seq![lv, lw]);
    let one = split_words(lowercased(trimmed(v)));
    let two = split_words(lowercased(trimmed(w)));
    assert(one =~= seq![lv]);
    assert(two =~= seq![lw]);
    assert(toks[0] == lv && toks[1] == lw && one[0] == lv && two[0] == lw);
    if b.triage_mask(both, now)[i] {
        assert(b.answers(i, toks[0], now) && b.answers(i, toks[1], now));
    } else {
        if b.triage_mask(v, now)[i] && b.triage_mask(w, now)[i] {
            assert(b.answers(i, one[0], now) && b.answers(i, two[0], now));
        }
    }
}

} // verus!
