//! The sessions as the window knows them, and what it says about each: names, labels, summaries and
//! notifications.

use vstd::prelude::*;
use vstd::string::*;

use crate::activity::Seen;
use crate::machines::{
    agents, agents_on, fleet_host_line, host_engine_breakdown, host_mark, host_state,
    lemma_mix_said, live_on, machine, machine_name, machines, mix_said, AgentTab,
};
use crate::seqs::firsts;
use crate::text::{chars_of, copy_text, dec, decimal, same_text, string_of, texts, trim, trimmed};
use crate::words::{
    clip_dots, clipped, duration_text, fmt_duration, join, join_labels, joined, labels_text,
};

verus! {

/// An optional text as plain data.
pub open spec fn opt_text(o: Option<String>) -> Option<Seq<char>> {
    match o {
        Some(s) => Some(s@),
        None => None,
    }
}

/// A session as the window knows it.
pub struct Tab {
    /// How it is connected; `pty` for a local shell.
    pub kind: String,
    /// The machine it runs on; empty for this one.
    pub host: String,
    /// The agent it runs.
    pub engine: String,
    /// The name the user gave it.
    pub name: Option<String>,
    /// The title it was opened with.
    pub title: String,
    /// The title the program in it set.
    pub live_title: Option<String>,
    /// Bytes typed while it was down, to be sent when it is back.
    pub pending: usize,
    /// How the reconnect goes.
    pub retry: Option<String>,
    /// Why it is down.
    pub down_reason: Option<String>,
    pub age_secs: u64,
    /// The view is held in the scrollback.
    pub scrolled: bool,
    /// How many lines above the live screen the view stands.
    pub offset: u32,
    /// How many lines the scrollback holds.
    pub depth: u32,
    /// The size of the screen.
    pub lines: u32,
    pub cols: usize,
    /// The modes that its program has set, as the terminal emulator keeps them.
    pub mode: u32,
    pub seen: Seen,
}

/// A session as plain data.
#[verifier::ext_equal]
pub struct TabView {
    pub kind: Seq<char>,
    pub host: Seq<char>,
    pub engine: Seq<char>,
    pub name: Option<Seq<char>>,
    pub title: Seq<char>,
    pub live_title: Option<Seq<char>>,
    pub pending: nat,
    pub retry: Option<Seq<char>>,
    pub down_reason: Option<Seq<char>>,
    pub age_secs: nat,
    pub scrolled: bool,
    pub offset: u32,
    pub depth: u32,
    pub lines: u32,
    pub cols: usize,
    pub mode: u32,
    pub seen: Seen,
}

impl View for Tab {
    type V = TabView;

    open spec fn view(&self) -> TabView {
        TabView {
            kind: self.kind@,
            host: self.host@,
            engine: self.engine@,
            name: opt_text(self.name),
            title: self.title@,
            live_title: opt_text(self.live_title),
            pending: self.pending as nat,
            retry: opt_text(self.retry),
            down_reason: opt_text(self.down_reason),
            age_secs: self.age_secs as nat,
            scrolled: self.scrolled,
            offset: self.offset,
            depth: self.depth,
            lines: self.lines,
            cols: self.cols,
            mode: self.mode,
            seen: self.seen,
        }
    }
}

impl TabView {
    /// What the session is called: the user's name for it, else its agent.
    pub open spec fn head(self) -> Seq<char> {
        match self.name {
            Some(n) => n,
            None => self.engine,
        }
    }

    /// What runs where.
    pub open spec fn identity(self) -> Seq<char> {
        self.head() + "@"@ + self.host
    }

    /// What a notification calls it: with the machine, where there is one.
    pub open spec fn label(self) -> Seq<char> {
        if self.host.len() == 0 {
            self.head()
        } else {
            self.head() + "@"@ + self.host
        }
    }

    /// A remote pane without its connection.
    pub open spec fn down(self) -> bool {
        !self.seen.alive && !self.seen.pty
    }

    /// Why it is down.
    pub open spec fn reason(self) -> Seq<char> {
        match self.down_reason {
            Some(r) => r,
            None => "reconnecting…"@,
        }
    }

    /// What it is doing: the title its program set, else the one it was opened with.
    pub open spec fn doing(self) -> Seq<char> {
        match self.live_title {
            Some(t) => t,
            None => self.title,
        }
    }

    /// The machine behind the name of a session that is not a local shell.
    pub open spec fn whereabouts(self) -> Seq<char> {
        if self.seen.pty {
            Seq::empty()
        } else {
            "@"@ + self.host
        }
    }
}

impl Tab {
    /// What the session is called: the user's name for it, else its agent.
    pub fn head(&self) -> (r: &str)
        ensures
            r@ == self@.head(),
    {
        match &self.name {
            Some(n) => n.as_str(),
            None => self.engine.as_str(),
        }
    }

    /// What runs where, such as `aider@build02`.
    pub fn identity(&self) -> (r: String)
        ensures
            r@ == self@.identity(),
    {
        let mut s = copy_text(self.head());
        s.append("@");
        s.append(self.host.as_str());
        s
    }

    /// What a notification calls it: with the machine, where there is one.
    pub fn notify_label(&self) -> (r: String)
        ensures
            r@ == self@.label(),
    {
        if self.host.as_str().is_empty() {
            copy_text(self.head())
        } else {
            self.identity()
        }
    }

    /// A remote pane without its connection.
    pub fn is_down(&self) -> (r: bool)
        ensures
            r == self@.down(),
    {
        !self.seen.alive && !self.seen.pty
    }

    /// Why it is down.
    pub fn reason(&self) -> (r: &str)
        ensures
            r@ == self@.reason(),
    {
        match &self.down_reason {
            Some(s) => s.as_str(),
            None => "reconnecting…",
        }
    }

    /// What it is doing: the title its program set, else the one it was opened with.
    pub fn doing(&self) -> (r: &str)
        ensures
            r@ == self@.doing(),
    {
        match &self.live_title {
            Some(t) => t.as_str(),
            None => self.title.as_str(),
        }
    }

    /// The machine behind the name of a session that is not a local shell.
    pub fn whereabouts(&self) -> (r: String)
        ensures
            r@ == self@.whereabouts(),
    {
        if self.seen.pty {
            String::new()
        } else {
            let mut s = copy_text("@");
            s.append(self.host.as_str());
            s
        }
    }
}

/// The tabs as plain data.
pub open spec fn tab_views(tabs: Seq<Tab>) -> Seq<TabView> {
    tabs.map_values(|t: Tab| t@)
}

/// The name of a tab by its number, and a question mark for a tab that is gone.
pub open spec fn identity_at(tabs: Seq<TabView>, i: int) -> Seq<char> {
    if 0 <= i < tabs.len() {
        tabs[i].identity()
    } else {
        "?"@
    }
}

/// The name of a tab by its number.
pub fn tab_identity(tabs: &Vec<Tab>, i: usize) -> (r: String)
    ensures
        r@ == identity_at(tab_views(tabs@), i as int),
{
    if i < tabs.len() {
        tabs[i].identity()
    } else {
        copy_text("?")
    }
}

/// The labels of the tabs listed, leaving out those that are gone.
pub open spec fn labels_at(tabs: Seq<TabView>, list: Seq<usize>) -> Seq<Seq<char>>
    decreases list.len(),
{
    if list.len() == 0 {
        Seq::empty()
    } else {
        let front = labels_at(tabs, list.drop_last());
        if list.last() < tabs.len() {
            front.push(tabs[list.last() as int].label())
        } else {
            front
        }
    }
}

fn collect_labels(tabs: &Vec<Tab>, list: &Vec<usize>) -> (r: Vec<String>)
    ensures
        texts(r@) == labels_at(tab_views(tabs@), list@),
{
    let mut out: Vec<String> = Vec::new();
    let mut k: usize = 0;
    proof {
        assert(texts(out@) =~= Seq::empty());
    }
    while k < list.len()
        invariant
            k <= list@.len(),
            texts(out@) == labels_at(tab_views(tabs@), list@.take(k as int)),
        decreases list@.len() - k,
    {
        proof {
            assert(list@.take(k + 1).drop_last() =~= list@.take(k as int));
        }
        let i: usize = list[k];
        if i < tabs.len() {
            let ghost had = texts(out@);
            let s = tabs[i].notify_label();
            let ghost t = s@;
            out.push(s);
            proof {
                assert(texts(out@) =~= had.push(t));
            }
        }
        k = k + 1;
    }
    proof {
        assert(list@.take(k as int) =~= list@);
    }
    out
}

/// A notification's title and body.
pub struct Notice {
    pub title: String,
    pub body: String,
}

/// What a notification of a kind says of `n` sessions listed as `list`.
pub open spec fn notice_text(kind: Seq<char>, n: nat, list: Seq<char>) -> Option<(
    Seq<char>,
    Seq<char>,
)> {
    if kind == "bell"@ {
        Some(
            if n == 1 {
                (list + " — bell"@, "Session "@ + list + " rang the terminal bell."@)
            } else {
                (dec(n) + " sessions — bell"@, "Fleet bells: "@ + list + "."@)
            },
        )
    } else if kind == "busy"@ {
        Some(
            if n == 1 {
                (list + " · busy"@, list + " produced new output."@)
            } else {
                (dec(n) + " sessions busy"@, "New output from "@ + list + "."@)
            },
        )
    } else if kind == "recover"@ {
        Some(
            if n == 1 {
                (list + " · reconnected"@, list + " is back online."@)
            } else {
                (dec(n) + " sessions reconnected"@, "Back online: "@ + list + "."@)
            },
        )
    } else if kind == "down"@ {
        Some(
            if n == 1 {
                (list + " · went down"@, list + " disappeared."@)
            } else {
                (dec(n) + " sessions went down"@, "Connections lost: "@ + list + "."@)
            },
        )
    } else {
        None
    }
}

fn around(a: &str, b: &str, c: &str) -> (r: String)
    ensures
        r@ == a@ + b@ + c@,
{
    let mut s = copy_text(a);
    s.append(b);
    s.append(c);
    s
}

fn say(n: usize, list: &str, one: &str, one_body: (&str, &str), many: &str, many_body: &str) -> (r: Notice)
    ensures
        n == 1 ==> r.title@ == list@ + one@ && r.body@ == one_body.0@ + list@ + one_body.1@,
        n != 1 ==> r.title@ == dec(n as nat) + many@ && r.body@ == many_body@ + list@ + "."@,
{
    if n == 1 {
        let title = copy_text(list).concat(one);
        Notice { title, body: around(one_body.0, list, one_body.1) }
    } else {
        Notice { title: decimal(n as u64).concat(many), body: around(many_body, list, ".") }
    }
}

/// The notification for a batch of events of one kind, or nothing where no tab is left to name.
pub fn fire(kind: &str, tabs: &Vec<Tab>, list: &Vec<usize>) -> (r: Option<Notice>)
    ensures
        ({
            let labels = labels_at(tab_views(tabs@), list@);
            let want = if labels.len() == 0 {
                None
            } else {
                notice_text(kind@, labels.len(), labels_text(labels))
            };
            match r {
                Some(n) => want == Some((n.title@, n.body@)),
                None => want is None,
            }
        }),
{
    let labels = collect_labels(tabs, list);
    let n: usize = labels.len();
    let ghost all = labels_at(tab_views(tabs@), list@);
    proof {
        assert(texts(labels@).len() == n);
    }
    if n == 0 {
        return None;
    }
    let named = join_labels(labels.as_slice());
    let l = named.as_str();
    proof {
        reveal_strlit("");
        assert(""@ =~= Seq::<char>::empty());
        assert(""@ + l@ =~= l@);
    }
    if same_text(kind, "bell") {
        Some(
            say(
                n,
                l,
                " — bell",
                ("Session ", " rang the terminal bell."),
                " sessions — bell",
                "Fleet bells: ",
            ),
        )
    } else if same_text(kind, "busy") {
        Some(
            say(
                n,
                l,
                " · busy",
                ("", " produced new output."),
                " sessions busy",
                "New output from ",
            ),
        )
    } else if same_text(kind, "recover") {
        Some(
            say(
                n,
                l,
                " · reconnected",
                ("", " is back online."),
                " sessions reconnected",
                "Back online: ",
            ),
        )
    } else if same_text(kind, "down") {
        Some(
            say(
                n,
                l,
                " · went down",
                ("", " disappeared."),
                " sessions went down",
                "Connections lost: ",
            ),
        )
    } else {
        None
    }
}

/// The tabs as the machines see them.
pub open spec fn agent_tabs(tabs: Seq<TabView>) -> Seq<AgentTab> {
    tabs.map_values(
        |t: TabView| AgentTab { host: machine(t.host), alive: t.seen.alive, engine: t.engine },
    )
}

/// A machine's line in the fleet summary.
pub open spec fn host_told(tabs: Seq<AgentTab>, host: Seq<char>) -> Seq<char> {
    let alive = live_on(tabs, host) as int;
    let total = agents_on(tabs, host).len() as int;
    let mix = mix_said(agents_on(tabs, host));
    let head = host_mark(alive, total) + " "@ + machine(host) + " · "@ + host_state(alive, total);
    if mix.len() == 0 {
        head
    } else {
        head + " · "@ + mix
    }
}

/// The machines' lines in the fleet summary.
pub open spec fn hosts_told(tabs: Seq<AgentTab>) -> Seq<Seq<char>> {
    firsts(machines(tabs)).map_values(|h: Seq<char>| host_told(tabs, h))
}

impl TabView {
    /// The mark of a session: alive or not.
    pub open spec fn mark(self) -> Seq<char> {
        if self.seen.alive {
            "●"@
        } else {
            "○"@
        }
    }

    /// The title its program set, behind a dot.
    pub open spec fn live_part(self) -> Seq<char> {
        match self.live_title {
            Some(t) => " · "@ + t,
            None => Seq::empty(),
        }
    }

    /// Why it is down, in at most `max` characters; a blank reason says that it reconnects.
    pub open spec fn trouble(self, max: int) -> Seq<char> {
        match self.down_reason {
            Some(r) => if trimmed(r).len() > 0 {
                clipped(trimmed(r), max)
            } else {
                clipped("reconnecting…"@, max)
            },
            None => clipped("reconnecting…"@, max),
        }
    }

    /// What the fleet summary says of the session with number `i`.
    pub open spec fn summary(self, i: int) -> Seq<char> {
        let line = self.mark() + " "@ + self.engine + " ("@ + dec((i + 1) as nat) + ")"@
            + self.whereabouts() + " · "@ + self.head() + self.live_part();
        let line = if self.pending > 0 {
            line + " · ⏳"@ + dec(self.pending) + "B queued"@
        } else {
            line
        };
        if self.down() {
            line + " · ⚠ "@ + self.trouble(60)
        } else {
            line
        }
    }
}

impl Tab {
    fn mark(&self) -> (r: &'static str)
        ensures
            r@ == self@.mark(),
    {
        if self.seen.alive {
            "●"
        } else {
            "○"
        }
    }

    /// Why it is down, in at most `max` characters.
    pub fn trouble(&self, max: usize) -> (r: String)
        ensures
            r@ == self@.trouble(max as int),
    {
        match &self.down_reason {
            Some(s) => {
                let t = trim(s.as_str());
                if !t.as_str().is_empty() {
                    clip_dots(t.as_str(), max)
                } else {
                    clip_dots("reconnecting…", max)
                }
            },
            None => clip_dots("reconnecting…", max),
        }
    }

    fn numbered(&self, i: usize) -> (r: String)
        ensures
            r@ == self@.mark() + " "@ + self@.engine + " ("@ + dec((i + 1) as nat) + ")"@
                + self@.whereabouts() + " · "@ + self@.head(),
    {
        let mut line = copy_text(self.mark());
        line.append(" ");
        line.append(self.engine.as_str());
        line.append(" (");
        line.append(one_based(i).as_str());
        line.append(")");
        line.append(self.whereabouts().as_str());
        line.append(" · ");
        line.append(self.head());
        line
    }

    /// What the fleet summary says of the session with number `i`.
    pub fn summary(&self, i: usize) -> (r: String)
        ensures
            r@ == self@.summary(i as int),
    {
        let mut line = self.numbered(i);
        match &self.live_title {
            Some(t) => {
                let part = copy_text(" · ").concat(t.as_str());
                line.append(part.as_str());
            },
            None => {
                proof {
                    assert(line@ + Seq::<char>::empty() =~= line@);
                }
            },
        }
        if self.pending > 0 {
            line.append(" · ⏳");
            line.append(decimal(self.pending as u64).as_str());
            line.append("B queued");
        }
        if self.is_down() {
            line.append(" · ⚠ ");
            line.append(self.trouble(60).as_str());
        }
        line
    }
}

/// The number of a tab as shown, counted from one.
pub fn one_based(i: usize) -> (r: String)
    ensures
        r@ == dec((i + 1) as nat),
{
    if i < usize::MAX {
        decimal((i + 1) as u64)
    } else {
        wide_decimal(i as u128 + 1)
    }
}

/// The decimal digits of a number.
pub fn wide_decimal(n: u128) -> (r: String)
    ensures
        r@ == dec(n as nat),
    decreases n,
{
    if n <= u64::MAX as u128 {
        decimal(n as u64)
    } else {
        let mut s = wide_decimal(n / 10);
        s.append(decimal((n % 10) as u64).as_str());
        proof {
            let front = dec((n / 10) as nat);
            assert(dec(n as nat) == front.push(crate::text::digit((n % 10) as nat)));
            assert(dec((n % 10) as nat) =~= seq![crate::text::digit((n % 10) as nat)]);
            assert(s@ =~= dec(n as nat));
        }
        s
    }
}

/// The lines of the fleet summary: one for each machine, a blank one, one for each session.
pub open spec fn summary_lines(tabs: Seq<TabView>) -> Seq<Seq<char>> {
    hosts_told(agent_tabs(tabs)).push(Seq::empty()) + Seq::new(
        tabs.len(),
        |i: int| tabs[i].summary(i),
    )
}

/// What the whole fleet is doing, as one text.
pub open spec fn fleet_text(tabs: Seq<TabView>) -> Seq<char> {
    joined(summary_lines(tabs), "\n"@)
}

/// The open tabs by machine, with their state and agent.
pub fn agent_rows(tabs: &Vec<Tab>) -> (r: Vec<(&str, bool, &str)>)
    ensures
        agents(r@) == agent_tabs(tab_views(tabs@)),
{
    let mut rows: Vec<(&str, bool, &str)> = Vec::new();
    let mut i: usize = 0;
    while i < tabs.len()
        invariant
            i <= tabs@.len(),
            rows@.len() == i,
            forall|j: int|
                #![trigger rows@[j]]
                0 <= j < i ==> rows@[j].0@ == tabs@[j]@.host && rows@[j].1 == tabs@[j]@.seen.alive
                    && rows@[j].2@ == tabs@[j]@.engine,
        decreases tabs@.len() - i,
    {
        rows.push((tabs[i].host.as_str(), tabs[i].seen.alive, tabs[i].engine.as_str()));
        i = i + 1;
    }
    proof {
        assert(agents(rows@) =~= agent_tabs(tab_views(tabs@)));
    }
    rows
}

/// What the whole fleet is doing: a line for each machine, then a line for each session.
pub fn fleet_summary_text(tabs: &Vec<Tab>) -> (r: String)
    ensures
        r@ == fleet_text(tab_views(tabs@)),
{
    let rows = agent_rows(tabs);
    let ghost all = agent_tabs(tab_views(tabs@));
    let ghost views = tab_views(tabs@);
    let hosts = host_engine_breakdown(rows.as_slice());
    let mut lines: Vec<String> = Vec::new();
    let mut i: usize = 0;
    while i < hosts.len()
        invariant
            i <= hosts@.len(),
            hosts@.len() == firsts(machines(all)).len(),
            forall|j: int|
                #![trigger hosts@[j]]
                0 <= j < hosts@.len() ==> hosts@[j].0@ == firsts(machines(all))[j]
                    && crate::machines::row_tells(hosts@[j], all),
            texts(lines@) == hosts_told(all).take(i as int),
        decreases hosts@.len() - i,
    {
        let ghost had = texts(lines@);
        let row = &hosts[i];
        proof {
            lemma_mix_said(row.3@, agents_on(all, row.0@));
        }
        let s = fleet_host_line(row.0.as_str(), row.1, row.2, row.3.as_slice());
        let ghost t = s@;
        lines.push(s);
        proof {
            assert(t == host_told(all, row.0@));
            assert(texts(lines@) =~= had.push(t));
            assert(hosts_told(all).take(i + 1) =~= had.push(t));
        }
        i = i + 1;
    }
    proof {
        assert(hosts_told(all).take(i as int) =~= hosts_told(all));
    }
    lines.push(String::new());
    proof {
        assert(texts(lines@) =~= hosts_told(all).push(Seq::empty()));
    }
    let ghost front = texts(lines@);
    let ghost sessions = Seq::new(views.len(), |k: int| views[k].summary(k));
    let mut k: usize = 0;
    proof {
        assert(front + sessions.take(0) =~= front);
    }
    while k < tabs.len()
        invariant
            k <= tabs@.len(),
            views == tab_views(tabs@),
            sessions == Seq::new(views.len(), |k: int| views[k].summary(k)),
            texts(lines@) == front + sessions.take(k as int),
        decreases tabs@.len() - k,
    {
        let ghost had = texts(lines@);
        let s = tabs[k].summary(k);
        let ghost t = s@;
        lines.push(s);
        proof {
            assert(t == sessions[k as int]);
            assert(texts(lines@) =~= had.push(t));
            assert(front + sessions.take(k + 1) =~= had.push(t));
        }
        k = k + 1;
    }
    proof {
        assert(sessions.take(k as int) =~= sessions);
        assert(texts(lines@) == summary_lines(views));
    }
    join(lines.as_slice(), "\n")
}

/// A session's row in the list of a machine's sessions. `idle` is how many seconds it has been
/// parked, where it waits for the user.
pub open spec fn session_row(t: TabView, i: int, idle: Option<u64>) -> Seq<char> {
    let line = t.mark() + " "@ + t.engine + " ("@ + dec((i + 1) as nat) + ")"@ + t.whereabouts()
        + " · "@ + t.head();
    let why = clipped(trimmed(t.reason()), 18);
    let line = if t.down() && why.len() > 0 {
        line + " ("@ + why + ")"@
    } else {
        line
    };
    let line = if !t.down() && idle is Some {
        line + " · ⌛"@ + duration_text(idle->0 as int)
    } else {
        line
    };
    line + t.live_part()
}

/// A session's row in the list of a machine's sessions, empty for a session that is gone.
pub fn session_row_label(tabs: &Vec<Tab>, i: usize, idle: Option<u64>) -> (r: String)
    ensures
        r@ == if i < tabs@.len() {
            session_row(tabs@[i as int]@, i as int, idle)
        } else {
            Seq::empty()
        },
{
    if i >= tabs.len() {
        return String::new();
    }
    let t = &tabs[i];
    let mut line = t.numbered(i);
    if t.is_down() {
        let why = trim(t.reason());
        let why = clip_dots(why.as_str(), 18);
        if !why.as_str().is_empty() {
            line.append(" (");
            line.append(why.as_str());
            line.append(")");
        }
    } else if let Some(d) = idle {
        line.append(" · ⌛");
        line.append(fmt_duration(d).as_str());
    }
    match &t.live_title {
        Some(s) => {
            let part = copy_text(" · ").concat(s.as_str());
            line.append(part.as_str());
        },
        None => {
            proof {
                assert(line@ + Seq::<char>::empty() =~= line@);
            }
        },
    }
    line
}

/// The first line that is not blank, trimmed.
pub open spec fn first_said(lines: Seq<Seq<char>>) -> Option<Seq<char>>
    decreases lines.len(),
{
    if lines.len() == 0 {
        None
    } else if trimmed(lines[0]).len() > 0 {
        Some(trimmed(lines[0]))
    } else {
        first_said(lines.drop_first())
    }
}

/// The first line that is not blank, trimmed: what a session is doing, from its newest lines.
pub fn session_tail_preview(lines: &Vec<String>) -> (r: Option<String>)
    ensures
        opt_text(r) == first_said(texts(lines@)),
{
    let mut i: usize = 0;
    proof {
        assert(texts(lines@).skip(0) =~= texts(lines@));
    }
    while i < lines.len()
        invariant
            i <= lines@.len(),
            first_said(texts(lines@)) == first_said(texts(lines@).skip(i as int)),
        decreases lines@.len() - i,
    {
        let t = trim(lines[i].as_str());
        proof {
            assert(texts(lines@).skip(i as int)[0] == lines@[i as int]@);
            assert(texts(lines@).skip(i as int).drop_first() =~= texts(lines@).skip(i + 1));
        }
        if !t.as_str().is_empty() {
            return Some(t);
        }
        i = i + 1;
    }
    None
}

/// A character that a file's name may hold.
pub open spec fn plain_char(c: char, dots: bool) -> bool {
    ('a' <= c <= 'z') || ('A' <= c <= 'Z') || ('0' <= c <= '9') || c == '-' || c == '_' || (dots && c
        == '.')
}

/// A text with every other character replaced by an underscore.
pub open spec fn plain(s: Seq<char>, dots: bool) -> Seq<char> {
    s.map_values(
        |c: char|
            if plain_char(c, dots) {
                c
            } else {
                '_'
            },
    )
}

fn plain_text(s: &str, dots: bool) -> (r: String)
    ensures
        r@ == plain(s@, dots),
{
    let v = chars_of(s);
    let mut out: Vec<char> = Vec::new();
    let mut i: usize = 0;
    while i < v.len()
        invariant
            i <= v@.len(),
            v@ == s@,
            out@ == plain(s@, dots).take(i as int),
        decreases v@.len() - i,
    {
        let c = v[i];
        let ok = ('a' <= c && c <= 'z') || ('A' <= c && c <= 'Z') || ('0' <= c && c <= '9') || c == '-'
            || c == '_' || (dots && c == '.');
        out.push(
            if ok {
                c
            } else {
                '_'
            },
        );
        proof {
            assert(out@ =~= plain(s@, dots).take(i + 1));
        }
        i = i + 1;
    }
    proof {
        assert(plain(s@, dots).take(i as int) =~= plain(s@, dots));
    }
    string_of(&out)
}

impl TabView {
    /// The name of the file for a copy of the scrollback made at `stamp`.
    pub open spec fn export_name(self, stamp: nat) -> Seq<char> {
        let base = plain(self.head(), false);
        let base = if self.seen.pty || self.host.len() == 0 {
            base
        } else {
            base + "-"@ + plain(self.host, true)
        };
        base + "-"@ + dec(stamp) + ".log"@
    }

    /// The task in the head of a copy: the title its program set, on one line.
    pub open spec fn task(self) -> Seq<char> {
        match self.live_title {
            Some(t) => if trimmed(one_line(t)).len() == 0 {
                "-"@
            } else {
                one_line(t)
            },
            None => "-"@,
        }
    }

    /// The head of a copy: what it is and when it was made.
    pub open spec fn export_head(self, when: Seq<char>) -> Seq<char> {
        "# harness-terminal scrollback export\n# session: "@ + self.engine + "@"@
            + machine(self.host)
            + "  ("@ + self.kind + ")\n# task: "@ + self.task() + "\n# exported: "@ + when + "\n\n"@
    }
}

/// A text with its line ends turned into spaces.
pub open spec fn one_line(s: Seq<char>) -> Seq<char> {
    s.map_values(
        |c: char|
            if c == '\n' {
                ' '
            } else {
                c
            },
    )
}

/// The text on one line.
pub fn on_one_line(s: &str) -> (r: String)
    ensures
        r@ == one_line(s@),
{
    let v = chars_of(s);
    let mut out: Vec<char> = Vec::new();
    let mut i: usize = 0;
    while i < v.len()
        invariant
            i <= v@.len(),
            v@ == s@,
            out@ == one_line(s@).take(i as int),
        decreases v@.len() - i,
    {
        out.push(
            if v[i] == '\n' {
                ' '
            } else {
                v[i]
            },
        );
        proof {
            assert(out@ =~= one_line(s@).take(i + 1));
        }
        i = i + 1;
    }
    proof {
        assert(one_line(s@).take(i as int) =~= one_line(s@));
    }
    string_of(&out)
}

impl Tab {
    /// The name of the file for a copy of the scrollback, such as
    /// `aider-build02-1700000000000.log`.
    pub fn export_name(&self, stamp: u64) -> (r: String)
        ensures
            r@ == self@.export_name(stamp as nat),
    {
        let mut s = plain_text(self.head(), false);
        if !self.seen.pty && !self.host.as_str().is_empty() {
            s.append("-");
            s.append(plain_text(self.host.as_str(), true).as_str());
        }
        s.append("-");
        s.append(decimal(stamp).as_str());
        s.append(".log");
        s
    }

    /// A copy of the scrollback with a head that says what it is and when it was made.
    pub fn export_text(&self, when: &str, scrollback: &str) -> (r: String)
        ensures
            r@ == self@.export_head(when@) + scrollback@,
    {
        let task = match &self.live_title {
            Some(t) => {
                let line = on_one_line(t.as_str());
                if trim(line.as_str()).as_str().is_empty() {
                    copy_text("-")
                } else {
                    line
                }
            },
            None => copy_text("-"),
        };
        let mut s = copy_text("# harness-terminal scrollback export\n# session: ");
        s.append(self.engine.as_str());
        s.append("@");
        s.append(machine_name(self.host.as_str()));
        s.append("  (");
        s.append(self.kind.as_str());
        s.append(")\n# task: ");
        s.append(task.as_str());
        s.append("\n# exported: ");
        s.append(when);
        s.append("\n\n");
        s.append(scrollback);
        s
    }
}

} // verus!
