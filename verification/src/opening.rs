//! Starting up, and what comes back from outside: sessions that were opened, machines that were
//! connected to, files that were written.

use vstd::prelude::*;
use vstd::string::*;
use vstd::utf8::encode_utf8;

use crate::activity::{fresh, fresh_slot, Slot};
use crate::board::{at_most, last_of, Act, Board, BoardView, Flash, FlashView};
use crate::copying::{CopyMode, CopyView};
use crate::finding::{Finder, FinderView, Hunt, HuntView};
use crate::geometry::Metrics;
use crate::prompts::{plural_end, plural_s};
use crate::shell::{
    key_rows, Cast, CastView, Commands, CommandsView, FleetList, FleetListView, Jump, JumpView,
    Overlay, Peek, PeekView, Pointer, PointerView, Prefix, PrefixView, Shell, ShellView,
};
use crate::status::holds;
use crate::seqs::listed;
use crate::tabs::{opt_text, tab_views, Tab, TabView};
use crate::text::{
    chars_of, copy_text, dec, decimal, is_blank, string_from, texts, trim, trimmed,
};
use crate::words::{parse_remote_attach, remote_target};

verus! {

/// Where a character first stands in a text.
pub open spec fn char_index(s: Seq<char>, c: char, from: int) -> Option<int>
    decreases s.len() - from,
{
    if from < 0 || from >= s.len() {
        None
    } else if s[from] == c {
        Some(from)
    } else {
        char_index(s, c, from + 1)
    }
}

fn find_char(v: &Vec<char>, c: char) -> (r: Option<usize>)
    ensures
        match r {
            Some(i) => char_index(v@, c, 0) == Some(i as int) && i < v@.len(),
            None => char_index(v@, c, 0) is None,
        },
{
    let mut i: usize = 0;
    while i < v.len()
        invariant
            i <= v@.len(),
            char_index(v@, c, 0) == char_index(v@, c, i as int),
        decreases v@.len() - i,
    {
        if v[i] == c {
            return Some(i);
        }
        i = i + 1;
    }
    None
}

/// The number that some digits make, if they are digits.
pub open spec fn digits_value(s: Seq<char>) -> Option<nat>
    decreases s.len(),
{
    if s.len() == 0 {
        Some(0)
    } else {
        match digits_value(s.drop_last()) {
            Some(n) => if '0' <= s.last() <= '9' {
                Some(n * 10 + (s.last() as nat - '0' as nat) as nat)
            } else {
                None
            },
            None => None,
        }
    }
}

/// A port number: digits, with a plus sign before them or not, that make no more than 65535.
pub open spec fn port_value(s: Seq<char>) -> Option<u16> {
    let d = if s.len() > 0 && s[0] == '+' {
        s.skip(1)
    } else {
        s
    };
    match digits_value(d) {
        Some(n) => if d.len() > 0 && n <= u16::MAX {
            Some(n as u16)
        } else {
            None
        },
        None => None,
    }
}

proof fn lemma_digits_fail(s: Seq<char>, i: int)
    requires
        0 <= i <= s.len(),
        digits_value(s.take(i)) is None,
    ensures
        digits_value(s) is None,
    decreases s.len() - i,
{
    if i < s.len() {
        assert(s.take(i + 1).drop_last() =~= s.take(i));
        lemma_digits_fail(s, i + 1);
    } else {
        assert(s.take(i) =~= s);
    }
}

proof fn lemma_digits_grow(s: Seq<char>, i: int)
    requires
        0 <= i <= s.len(),
        digits_value(s.take(i)) is Some,
        digits_value(s) is Some,
    ensures
        digits_value(s.take(i)).unwrap() <= digits_value(s).unwrap(),
    decreases s.len() - i,
{
    if i < s.len() {
        assert(s.take(i + 1).drop_last() =~= s.take(i));
        if digits_value(s.take(i + 1)) is None {
            lemma_digits_fail(s, i + 1);
        }
        lemma_digits_grow(s, i + 1);
    } else {
        assert(s.take(i) =~= s);
    }
}

fn parse_port(v: &Vec<char>, from: usize) -> (r: Option<u16>)
    requires
        from <= v@.len(),
    ensures
        r == port_value(v@.skip(from as int)),
{
    let ghost text = v@.skip(from as int);
    let start: usize = if from < v.len() && v[from] == '+' {
        from + 1
    } else {
        from
    };
    let ghost d = v@.skip(start as int);
    proof {
        if start > from {
            assert(text[0] == '+');
            assert(d =~= text.skip(1));
        } else if text.len() > 0 {
            assert(text[0] == v@[from as int]);
        }
    }
    if start >= v.len() {
        return None;
    }
    let mut n: u32 = 0;
    let mut i: usize = start;
    proof {
        assert(d.take(0) =~= Seq::empty());
    }
    while i < v.len()
        invariant
            start <= i <= v@.len(),
            start < v@.len(),
            d == v@.skip(start as int),
            text == v@.skip(from as int),
            port_value(text) == (match digits_value(d) {
                Some(n) => if d.len() > 0 && n <= u16::MAX {
                    Some(n as u16)
                } else {
                    None
                },
                None => None,
            }),
            n <= u16::MAX,
            digits_value(d.take(i - start)) == Some(n as nat),
        decreases v@.len() - i,
    {
        let c = v[i];
        proof {
            assert(d.take(i + 1 - start).drop_last() =~= d.take(i - start));
            assert(d.take(i + 1 - start).last() == c);
        }
        if c < '0' || c > '9' {
            proof {
                lemma_digits_fail(d, i + 1 - start);
            }
            return None;
        }
        n = n * 10 + (c as u32 - '0' as u32);
        if n > 65535 {
            proof {
                if digits_value(d) is Some {
                    lemma_digits_grow(d, i + 1 - start);
                }
            }
            return None;
        }
        i = i + 1;
    }
    proof {
        assert(d.take(i - start) =~= d);
    }
    Some(n as u16)
}

/// The machine and the port that an address names: this machine where it is empty, and `port` where
/// it names none that is one.
pub open spec fn address(addr: Seq<char>, port: u16) -> (Seq<char>, u16) {
    if addr.len() == 0 {
        ("127.0.0.1"@, port)
    } else {
        match char_index(addr, ':', 0) {
            Some(i) => (
                addr.take(i),
                match port_value(addr.skip(i + 1)) {
                    Some(p) => p,
                    None => port,
                },
            ),
            None => (addr, port),
        }
    }
}

/// The machine and the port that an address names.
pub fn parse_address(addr: &str, port: u16) -> (r: (String, u16))
    ensures
        (r.0@, r.1) == address(addr@, port),
{
    if addr.is_empty() {
        return (copy_text("127.0.0.1"), port);
    }
    let v = chars_of(addr);
    let n: usize = v.len();
    match find_char(&v, ':') {
        Some(i) => {
            proof {
                assert(i < n);
            }
            let host = string_from(&v, 0, i);
            proof {
                assert(host@ =~= addr@.take(i as int));
            }
            let p: u16 = match parse_port(&v, i + 1) {
                Some(p) => p,
                None => port,
            };
            (host, p)
        },
        None => (copy_text(addr), port),
    }
}

/// What a machine to connect to is called.
pub open spec fn remote_label(host: Seq<char>, port: u16) -> Seq<char> {
    (if host.len() == 0 {
        "?"@
    } else {
        host
    }) + ":"@ + dec(port as nat)
}

fn label_of(host: &str, port: u16) -> (r: String)
    ensures
        r@ == remote_label(host@, port),
{
    let mut s = if host.is_empty() {
        copy_text("?")
    } else {
        copy_text(host)
    };
    s.append(":");
    s.append(decimal(port as u64).as_str());
    s
}

impl ShellView {
    /// The machine that was typed: its name, its port, and the session there to attach to, if one
    /// is named.
    pub open spec fn remote_named(self) -> (Seq<char>, u16, Option<Seq<char>>) {
        let (addr, session) = remote_target(self.remote);
        let (host, port) = address(addr, self.port);
        (host, port, session)
    }

    /// After the attempt to connect to the machine that was typed: with an error the field stays
    /// open.
    pub open spec fn connected(
        self,
        error: Option<Seq<char>>,
        engine: Option<Seq<char>>,
        now: u64,
    ) -> ShellView {
        let (host, port, session) = self.remote_named();
        let label = remote_label(host, port);
        match error {
            Some(e) => self.says("⚠ "@ + label + ": "@ + e, now),
            None => self.says(
                match session {
                    Some(name) => "attached "@ + name + " @ "@ + label + " ✓"@,
                    None => "connecting "@ + (match engine {
                        Some(e) => e,
                        None => "engine"@,
                    }) + " @ "@ + label + " …"@,
                },
                now,
            ).asks(Act::SaveTabs).over(Overlay::Closed),
        }
    }

    /// After the attempt to open a session here: with an error the picker stays open.
    pub open spec fn opened_here(self, error: Option<Seq<char>>, now: u64) -> ShellView {
        match error {
            Some(e) => self.says("⚠ "@ + e, now),
            None => self.asks(Act::SaveTabs).over(Overlay::Closed),
        }
    }

    /// After the attempt to open a session that nothing was typed for: a failure is passed over.
    pub open spec fn spawned(self, ok: bool) -> ShellView {
        if ok {
            self.asks(Act::SaveTabs)
        } else {
            self
        }
    }

    /// After a second session like the active one was opened: it is as well protected.
    pub open spec fn forked(self, t: TabView, now: u64) -> ShellView {
        let s = self.on(
            self.board.opened(t, Slot { pinned: self.fork_pinned, ..fresh(now) }),
        );
        if self.fork_pinned {
            s.asks(Act::SavePins)
        } else {
            s
        }
    }

    /// After the window went to full screen, or came back from it.
    pub open spec fn fullscreened(self, was: bool, now: u64) -> ShellView {
        self.says(
            if was {
                "windowed"@
            } else {
                "fullscreen"@
            },
            now,
        )
    }

    /// After the scrollback was copied: how many bytes it has is said, where it is not blank.
    pub open spec fn scrollback_copied(self, text: Seq<char>, now: u64) -> ShellView {
        if trimmed(text).len() == 0 {
            self
        } else {
            self.says("copied "@ + dec(encode_utf8(text).len()) + " chars of scrollback"@, now)
        }
    }

    /// After the scrollback was written to a file: of so many bytes and where, or why not.
    pub open spec fn exported(
        self,
        done: Result<(nat, Seq<char>), Seq<char>>,
        now: u64,
    ) -> ShellView {
        self.says(
            match done {
                Ok(f) => "wrote "@ + dec(f.0) + " bytes → "@ + f.1,
                Err(e) => "⚠ couldn't write export: "@ + e,
            },
            now,
        )
    }
}

/// A text view of what may have been said.
pub open spec fn opt_str(o: Option<&str>) -> Option<Seq<char>> {
    match o {
        Some(s) => Some(s@),
        None => None,
    }
}

impl Shell {
    /// The machine that was typed: its name, its port, and the session there to attach to, if one
    /// is named.
    pub fn remote_named(&self) -> (r: (String, u16, Option<String>))
        ensures
            (r.0@, r.1, opt_text(r.2)) == self@.remote_named(),
    {
        let (addr, session) = parse_remote_attach(self.remote.as_str());
        let (host, port) = parse_address(addr.as_str(), self.port);
        (host, port, session)
    }

    /// Takes in how the attempt to connect went.
    #[verifier::rlimit(40)]
    pub fn connected(&mut self, error: Option<&str>, engine: Option<&str>, now: u64)
        ensures
            final(self)@ == old(self)@.connected(opt_str(error), opt_str(engine), now),
            final(self)@.wf() == old(self)@.wf(),
    {
        let (host, port, session) = self.remote_named();
        let label = label_of(host.as_str(), port);
        if let Some(e) = error {
            let mut s = copy_text("⚠ ");
            s.append(label.as_str());
            s.append(": ");
            s.append(e);
            self.board.say(s, now);
            return;
        }
        let text = match &session {
            Some(name) => {
                let mut s = copy_text("attached ");
                s.append(name.as_str());
                s.append(" @ ");
                s.append(label.as_str());
                s.append(" ✓");
                s
            },
            None => {
                let mut s = copy_text("connecting ");
                s.append(
                    match engine {
                        Some(e) => e,
                        None => "engine",
                    },
                );
                s.append(" @ ");
                s.append(label.as_str());
                s.append(" …");
                s
            },
        };
        self.board.say(text, now);
        self.board.ask(Act::SaveTabs);
        self.overlay = Overlay::Closed;
    }

    /// The directory that was typed for a new session, if one was.
    pub fn typed_dir(&self) -> (r: Option<String>)
        ensures
            opt_text(r) == if trimmed(self@.new_cwd).len() == 0 {
                None
            } else {
                Some(trimmed(self@.new_cwd))
            },
    {
        let t = trim(self.new_cwd.as_str());
        if t.as_str().is_empty() {
            None
        } else {
            Some(t)
        }
    }

    /// Takes in how the attempt to open a session here went.
    pub fn opened_here(&mut self, error: Option<&str>, now: u64)
        ensures
            final(self)@ == old(self)@.opened_here(opt_str(error), now),
            final(self)@.wf() == old(self)@.wf(),
    {
        match error {
            Some(e) => {
                let s = copy_text("⚠ ").concat(e);
                self.board.say(s, now);
            },
            None => {
                self.board.ask(Act::SaveTabs);
                self.overlay = Overlay::Closed;
            },
        }
    }

    /// Takes in how the attempt to open a session that nothing was typed for went.
    pub fn spawned(&mut self, ok: bool)
        ensures
            final(self)@ == old(self)@.spawned(ok),
            final(self)@.wf() == old(self)@.wf(),
    {
        if ok {
            self.board.ask(Act::SaveTabs);
        }
    }

    /// Takes in a second session like the active one.
    pub fn forked(&mut self, tab: Tab, now: u64)
        requires
            old(self)@.wf(),
            old(self)@.board.tabs.len() < usize::MAX,
        ensures
            final(self)@ == old(self)@.forked(tab@, now),
            final(self)@.wf(),
    {
        let pinned = self.fork_pinned;
        self.board.add_tab(tab, pinned, now);
        if pinned {
            self.board.ask(Act::SavePins);
        }
    }

    /// Says that the window went to full screen, or came back from it.
    pub fn fullscreened(&mut self, was: bool, now: u64)
        ensures
            final(self)@ == old(self)@.fullscreened(was, now),
            final(self)@.wf() == old(self)@.wf(),
    {
        let s = if was {
            copy_text("windowed")
        } else {
            copy_text("fullscreen")
        };
        self.board.say(s, now);
    }

    /// Says that the scrollback was copied; of a blank one, which is not, nothing.
    pub fn scrollback_copied(&mut self, text: &str, now: u64)
        ensures
            final(self)@ == old(self)@.scrollback_copied(text@, now),
            final(self)@.wf() == old(self)@.wf(),
    {
        if is_blank(text) {
            return;
        }
        let mut s = copy_text("copied ");
        s.append(decimal(text.as_bytes().len() as u64).as_str());
        s.append(" chars of scrollback");
        self.board.say(s, now);
    }

    /// Says that the scrollback was written to a file.
    pub fn exported(&mut self, text: &str, path: &str, now: u64)
        ensures
            final(self)@ == old(self)@.exported(Ok((encode_utf8(text@).len(), path@)), now),
            final(self)@.wf() == old(self)@.wf(),
    {
        let mut s = copy_text("wrote ");
        s.append(decimal(text.as_bytes().len() as u64).as_str());
        s.append(" bytes → ");
        s.append(path);
        self.board.say(s, now);
    }

    /// Says that the scrollback could not be written.
    pub fn export_failed(&mut self, error: &str, now: u64)
        ensures
            final(self)@ == old(self)@.exported(Err(error@), now),
            final(self)@.wf() == old(self)@.wf(),
    {
        let s = copy_text("⚠ couldn't write export: ").concat(error);
        self.board.say(s, now);
    }
}

impl TabView {
    /// The name of the session's window, as long as its program has set no title.
    pub open spec fn window_name(self) -> Seq<char> {
        match self.name {
            Some(n) => n,
            None => self.engine + "@"@ + self.host,
        }
    }

    /// The title of the window that shows the session.
    pub open spec fn window_title(self, native: bool) -> Seq<char> {
        match self.live_title {
            Some(t) => t + " — harness-terminal"@,
            None => if native {
                self.window_name() + " — harness-terminal"@
            } else {
                self.window_name()
            },
        }
    }
}

impl Tab {
    fn window_title(&self, native: bool) -> (r: String)
        ensures
            r@ == self@.window_title(native),
    {
        match &self.live_title {
            Some(t) => copy_text(t.as_str()).concat(" — harness-terminal"),
            None => {
                let mut s = match &self.name {
                    Some(n) => copy_text(n.as_str()),
                    None => {
                        let mut s = copy_text(self.engine.as_str());
                        s.append("@");
                        s.append(self.host.as_str());
                        s
                    },
                };
                if native {
                    s.append(" — harness-terminal");
                }
                s
            },
        }
    }
}

impl Board {
    /// The title of the window that shows a tab.
    pub fn title_of(&self, tab: usize) -> (r: String)
        ensures
            r@ == if tab < self@.tabs.len() {
                self@.tabs[tab as int].window_title(self@.native)
            } else {
                "harness-terminal"@
            },
    {
        if tab < self.tabs.len() {
            proof {
                assert(self@.tabs[tab as int] == self.tabs@[tab as int]@);
            }
            self.tabs[tab].window_title(self.native)
        } else {
            copy_text("harness-terminal")
        }
    }
}

/// What is said at the start of the sessions that were not reached.
pub open spec fn offline_note(n: nat, chord: Seq<char>) -> Seq<char> {
    dec(n) + " session"@ + plural_s(n) + " not reached — host down · reconnect via "@ + chord
        + "+r or Ctrl+H r"@
}

fn offline_text(n: usize, chord: &str) -> (r: String)
    ensures
        r@ == offline_note(n as nat, chord@),
{
    let mut s = decimal(n as u64);
    s.append(" session");
    s.append(plural_end(n));
    s.append(" not reached — host down · reconnect via ");
    s.append(chord);
    s.append("+r or Ctrl+H r");
    s
}

/// The slots of tabs that are restored: muted and pinned by the keys that were saved.
pub open spec fn restored(
    keys: Seq<Seq<char>>,
    muted: Seq<Seq<char>>,
    pinned: Seq<Seq<char>>,
    now: u64,
) -> Seq<Slot> {
    Seq::new(
        keys.len(),
        |i: int|
            Slot {
                muted: listed(muted, keys[i]),
                pinned: listed(pinned, keys[i]),
                ..fresh(now)
            },
    )
}

fn restore_slots(
    keys: &Vec<String>,
    muted: &Vec<String>,
    pinned: &Vec<String>,
    now: u64,
) -> (r: Vec<Slot>)
    ensures
        r@ == restored(texts(keys@), texts(muted@), texts(pinned@), now),
{
    let ghost want = restored(texts(keys@), texts(muted@), texts(pinned@), now);
    let mut out: Vec<Slot> = Vec::new();
    let mut i: usize = 0;
    while i < keys.len()
        invariant
            i <= keys@.len(),
            want == restored(texts(keys@), texts(muted@), texts(pinned@), now),
            out@ == want.take(i as int),
        decreases keys@.len() - i,
    {
        proof {
            assert(texts(keys@)[i as int] == keys@[i as int]@);
        }
        let mut s = fresh_slot(now);
        s.muted = holds(muted, keys[i].as_str());
        s.pinned = holds(pinned, keys[i].as_str());
        out.push(s);
        proof {
            assert(out@ =~= want.take(i + 1));
        }
        i = i + 1;
    }
    proof {
        assert(want.take(i as int) =~= want);
    }
    out
}

/// What the window starts with.
pub struct Setup {
    pub tabs: Vec<Tab>,
    /// The tab that was active last.
    pub active: usize,
    /// The keys by which tabs are saved, one for each tab.
    pub keys: Vec<String>,
    /// The keys of the tabs that were muted, and of those that were pinned.
    pub muted: Vec<String>,
    pub pinned: Vec<String>,
    /// How many sessions were not reached.
    pub offline: usize,
    pub native: bool,
    pub status_bar: bool,
    /// After how many seconds a silent session counts as waiting.
    pub quiet_secs: u64,
    pub engines: Vec<String>,
    pub last_dirs: Vec<String>,
    pub recent_hosts: Vec<String>,
    pub port: u16,
    pub find_history: Vec<String>,
    pub case_sensitive: bool,
    pub whole_word: bool,
    pub last_broadcast: String,
    pub broadcasts: Vec<String>,
    pub prefix_key: String,
    pub prefix_chord: String,
    pub prefix_claimed: bool,
    pub prefix_notice: String,
    pub keymap: Vec<(String, String)>,
    pub metrics: Metrics,
}

impl Setup {
    /// The window as it starts.
    pub open spec fn begun(self, now: u64) -> ShellView {
        let board = BoardView {
            tabs: tab_views(self.tabs@),
            slots: restored(texts(self.keys@), texts(self.muted@), texts(self.pinned@), now),
            active: at_most(self.active, last_of(self.tabs@.len())),
            last: None,
            native: self.native,
            wins: Seq::empty(),
            win: 0,
            todo: Seq::empty(),
            flash: if self.offline > 0 {
                let text = offline_note(self.offline as nat, self.prefix_chord@);
                Some(FlashView { text, at: now })
            } else {
                None
            },
            notices: Seq::empty(),
            dnd: false,
            focus: false,
            quiet_after: if self.quiet_secs <= u64::MAX / 1000 {
                (self.quiet_secs * 1000) as u64
            } else {
                u64::MAX
            },
            hover: None,
            drag: None,
            dragged: false,
            tip: None,
        };
        ShellView {
            board,
            overlay: Overlay::Closed,
            selected: 0,
            jump: JumpView { query: Seq::empty(), shown: 0 },
            engines: texts(self.engines@),
            new_cwd: Seq::empty(),
            last_dirs: texts(self.last_dirs@),
            remote: Seq::empty(),
            recent_hosts: texts(self.recent_hosts@),
            port: self.port,
            finder: FinderView {
                query: Seq::empty(),
                history: texts(self.find_history@),
                case_sensitive: self.case_sensitive,
                whole_word: self.whole_word,
                all: Seq::empty(),
                index: 0,
                hit: None,
            },
            hunt: HuntView { query: Seq::empty(), matches: Seq::empty(), sel: 0 },
            fleet: FleetListView { query: Seq::empty(), rows: Seq::empty(), shown: Seq::empty() },
            hosts_sel: 0,
            hosts_host: None,
            rename: Seq::empty(),
            cast: CastView {
                query: Seq::empty(),
                last: self.last_broadcast@,
                history: texts(self.broadcasts@),
                recall: None,
                sel: 0,
            },
            peek: PeekView {
                query: Seq::empty(),
                filtering: false,
                shown: Seq::empty(),
                sel: 0,
                scroll: 0,
            },
            grid_sel: 0,
            cmd: CommandsView { query: Seq::empty(), shown: Seq::empty(), sel: 0 },
            copy: CopyView {
                on: false,
                line: 0,
                col: 0,
                anchor: None,
                query: Seq::empty(),
                searching: false,
            },
            menu: None,
            prefix: PrefixView {
                down: false,
                key: self.prefix_key@,
                chord: self.prefix_chord@,
                claimed: self.prefix_claimed,
                noticed: false,
                notice: self.prefix_notice@,
            },
            keymap: key_rows(self.keymap@),
            metrics: self.metrics,
            mouse: PointerView {
                x: 0,
                y: 0,
                held: false,
                told: None,
                over_link: false,
                press: None,
                anchor: None,
                rects: Seq::empty(),
                new_tab: None,
            },
            status_bar: self.status_bar,
            live_busy: false,
            fleet_polled: now,
            fork_pinned: false,
            quit: false,
            close_active: false,
        }
    }
}

impl Shell {
    /// The window as it starts: the saved tabs with what was kept of them, and nothing open.
    pub fn new(setup: Setup, now: u64) -> (r: Shell)
        requires
            setup.keys@.len() == setup.tabs@.len(),
        ensures
            r@.wf(),
            r@ == setup.begun(now),
    {
        let n: usize = setup.tabs.len();
        let slots = restore_slots(&setup.keys, &setup.muted, &setup.pinned, now);
        let last: usize = if n == 0 {
            0
        } else {
            n - 1
        };
        let active: usize = if setup.active <= last {
            setup.active
        } else {
            last
        };
        let flash = if setup.offline > 0 {
            Some(Flash { text: offline_text(setup.offline, setup.prefix_chord.as_str()), at: now })
        } else {
            None
        };
        let quiet_after: u64 = if setup.quiet_secs <= u64::MAX / 1000 {
            setup.quiet_secs * 1000
        } else {
            u64::MAX
        };
        let board = Board {
            tabs: setup.tabs,
            slots,
            active,
            last: None,
            native: setup.native,
            wins: Vec::new(),
            win: 0,
            todo: Vec::new(),
            flash,
            notices: Vec::new(),
            dnd: false,
            focus: false,
            quiet_after,
            hover: None,
            drag: None,
            dragged: false,
            tip: None,
        };
        let r = Shell {
            board,
            overlay: Overlay::Closed,
            selected: 0,
            jump: Jump { query: String::new(), shown: 0 },
            engines: setup.engines,
            new_cwd: String::new(),
            last_dirs: setup.last_dirs,
            remote: String::new(),
            recent_hosts: setup.recent_hosts,
            port: setup.port,
            finder: Finder {
                query: String::new(),
                history: setup.find_history,
                case_sensitive: setup.case_sensitive,
                whole_word: setup.whole_word,
                all: Vec::new(),
                index: 0,
                hit: None,
            },
            hunt: Hunt { query: String::new(), matches: Vec::new(), sel: 0 },
            fleet: FleetList { query: String::new(), rows: Vec::new(), shown: Vec::new() },
            hosts_sel: 0,
            hosts_host: None,
            rename: String::new(),
            cast: Cast {
                query: String::new(),
                last: setup.last_broadcast,
                history: setup.broadcasts,
                recall: None,
                sel: 0,
            },
            peek: Peek {
                query: String::new(),
                filtering: false,
                shown: Vec::new(),
                sel: 0,
                scroll: 0,
            },
            grid_sel: 0,
            cmd: Commands { query: String::new(), shown: Vec::new(), sel: 0 },
            copy: CopyMode {
                on: false,
                line: 0,
                col: 0,
                anchor: None,
                query: String::new(),
                searching: false,
            },
            menu: None,
            prefix: Prefix {
                down: false,
                key: setup.prefix_key,
                chord: setup.prefix_chord,
                claimed: setup.prefix_claimed,
                noticed: false,
                notice: setup.prefix_notice,
            },
            keymap: setup.keymap,
            metrics: setup.metrics,
            mouse: Pointer {
                x: 0,
                y: 0,
                held: false,
                told: None,
                over_link: false,
                press: None,
                anchor: None,
                rects: Vec::new(),
                new_tab: None,
            },
            status_bar: setup.status_bar,
            live_busy: false,
            fleet_polled: now,
            fork_pinned: false,
            quit: false,
            close_active: false,
        };
        proof {
            let want = setup.begun(now);
            assert(r@.board =~= want.board);
            assert(r@.fleet =~= want.fleet);
            assert(r@.peek =~= want.peek);
            assert(r@.cmd =~= want.cmd);
            assert(r@.finder =~= want.finder);
            assert(r@.hunt =~= want.hunt);
            assert(r@.mouse =~= want.mouse);
        }
        r
    }
}

/// The commands of the system's menu bar.
#[derive(Clone, Copy, Debug, PartialEq, Eq, Structural)]
pub enum MenuAction {
    NewTab,
    CloseTab,
    Quit,
    ReopenTab,
    NextTab,
    PrevTab,
    CommandPalette,
}

impl ShellView {
    /// After a command of the system's menu bar.
    #[verifier::opaque]
    pub open spec fn menu_applied(self, a: MenuAction) -> ShellView {
        match a {
            MenuAction::NewTab => self.picking(),
            MenuAction::CloseTab => ShellView { close_active: true, ..self },
            MenuAction::Quit => self.quitting(),
            MenuAction::ReopenTab => self.asks(Act::Reopen),
            MenuAction::NextTab => self.on(self.board.turned(true)),
            MenuAction::PrevTab => self.on(self.board.turned(false)),
            MenuAction::CommandPalette => self.commanding(),
        }
    }
}

impl Shell {
    /// Does what a command of the system's menu bar stands for.
    #[verifier::rlimit(40)]
    pub fn apply_menu_action(&mut self, a: MenuAction)
        requires
            old(self)@.wf(),
        ensures
            final(self)@ == old(self)@.menu_applied(a),
            final(self)@.wf(),
    {
        proof {
            reveal(ShellView::menu_applied);
        }
        match a {
            MenuAction::NewTab => self.pick(),
            MenuAction::CloseTab => {
                self.close_active = true;
            },
            MenuAction::Quit => self.request_quit(),
            MenuAction::ReopenTab => self.board.ask(Act::Reopen),
            MenuAction::NextTab => self.board.turn(true),
            MenuAction::PrevTab => self.board.turn(false),
            MenuAction::CommandPalette => self.open_commands(),
        }
    }
}

/// What was saved comes back: a tab is muted at the start exactly if its key was saved as muted,
/// and pinned exactly if its key was saved as pinned.
pub proof fn law_restored(
    keys: Seq<Seq<char>>,
    muted: Seq<Seq<char>>,
    pinned: Seq<Seq<char>>,
    now: u64,
    i: int,
)
    requires
        0 <= i < keys.len(),
    ensures
        restored(keys, muted, pinned, now)[i].muted == muted.contains(keys[i]),
        restored(keys, muted, pinned, now)[i].pinned == pinned.contains(keys[i]),
{
    let k = keys[i];
    if listed(muted, k) {
        let j = choose|j: int| 0 <= j < muted.len() && #[trigger] muted[j] == k;
        assert(muted.contains(k));
    }
    if listed(pinned, k) {
        let j = choose|j: int| 0 <= j < pinned.len() && #[trigger] pinned[j] == k;
        assert(pinned.contains(k));
    }
}

} // verus!
