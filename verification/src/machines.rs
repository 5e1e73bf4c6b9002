//! Sessions grouped: by the machine they run on, by the agent they run, and by the kind of event
//! they raised.

use vstd::prelude::*;
use vstd::string::*;

use crate::seqs::{firsts, lemma_firsts, listed};
use crate::text::{copy_text, dec, decimal, same_text, texts};
use crate::triage::{index_of, strs};
use crate::words::{join, joined};

verus! {

/// The first place at or behind `from` where a text stands in a list.
pub open spec fn text_index(s: Seq<Seq<char>>, t: Seq<char>, from: int) -> Option<int>
    decreases s.len() - from,
{
    if from < 0 || from >= s.len() {
        None
    } else if s[from] == t {
        Some(from)
    } else {
        text_index(s, t, from + 1)
    }
}

/// What [`text_index`] finds is there; and it finds what is there.
pub proof fn lemma_text_index(s: Seq<Seq<char>>, t: Seq<char>, from: int)
    requires
        0 <= from,
    ensures
        match text_index(s, t, from) {
            Some(i) => from <= i < s.len() && s[i] == t,
            None => forall|i: int| from <= i < s.len() ==> #[trigger] s[i] != t,
        },
    decreases s.len() - from,
{
    if from < s.len() && s[from] != t {
        lemma_text_index(s, t, from + 1);
    }
}

/// How often a text stands in a list.
pub open spec fn occurrences(s: Seq<Seq<char>>, t: Seq<char>) -> nat
    decreases s.len(),
{
    if s.len() == 0 {
        0
    } else {
        occurrences(s.drop_last(), t) + (if s.last() == t {
            1nat
        } else {
            0
        })
    }
}

proof fn lemma_occurrences(s: Seq<Seq<char>>, t: Seq<char>)
    ensures
        occurrences(s, t) <= s.len(),
        !listed(s, t) ==> occurrences(s, t) == 0,
    decreases s.len(),
{
    if s.len() > 0 {
        lemma_occurrences(s.drop_last(), t);
        if !listed(s, t) {
            assert(s[s.len() - 1] != t);
            assert forall|i: int| 0 <= i < s.drop_last().len() implies #[trigger] s.drop_last()[i]
                != t by {
                assert(s[i] != t);
            }
        }
    }
}

/// Whether a list of names and numbers says how often each text stands in `s`, in the order of
/// their first occurrence.
pub open spec fn counts(mix: Seq<(String, usize)>, s: Seq<Seq<char>>) -> bool {
    &&& mix.len() == firsts(s).len()
    &&& forall|j: int|
        #![trigger mix[j]]
        0 <= j < mix.len() ==> mix[j].0@ == firsts(s)[j] && mix[j].1 == occurrences(s, mix[j].0@)
}

/// Counts one more occurrence of a name.
fn count_name(mix: &mut Vec<(String, usize)>, name: &str, Ghost(s): Ghost<Seq<Seq<char>>>)
    requires
        counts(old(mix)@, s),
        s.len() < usize::MAX,
    ensures
        counts(final(mix)@, s.push(name@)),
{
    let ghost more = s.push(name@);
    proof {
        assert(more.drop_last() =~= s);
        lemma_occurrences(s, name@);
    }
    let n: usize = mix.len();
    let mut j: usize = 0;
    while j < n
        invariant
            j <= n,
            n == mix@.len(),
            counts(mix@, s),
            more == s.push(name@),
            more.drop_last() == s,
            s.len() < usize::MAX,
            occurrences(s, name@) <= s.len(),
            forall|k: int| 0 <= k < j ==> (#[trigger] mix@[k]).0@ != name@,
        decreases n - j,
    {
        if same_text(mix[j].0.as_str(), name) {
            let (t, c) = mix.remove(j);
            let ghost was = mix@.insert(j as int, (t, c));
            mix.insert(j, (t, c + 1));
            proof {
                lemma_firsts(s);
                assert(firsts(s)[j as int] == name@);
                assert(listed(firsts(s), name@));
                assert(firsts(more) == firsts(s));
                assert forall|k: int|
                    #![trigger mix@[k]]
                    0 <= k < mix@.len() implies mix@[k].0@ == firsts(more)[k] && mix@[k].1
                    == occurrences(more, mix@[k].0@) by {
                    assert(was[k].0@ == firsts(s)[k]);
                    if k != j {
                        assert(mix@[k] == was[k]);
                        assert(firsts(s)[k] != firsts(s)[j as int]);
                    }
                }
            }
            return ;
        }
        j = j + 1;
    }
    let ghost was = mix@;
    mix.push((copy_text(name), 1));
    proof {
        assert(!listed(firsts(s), name@)) by {
            if listed(firsts(s), name@) {
                let k = choose|k: int| 0 <= k < firsts(s).len() && #[trigger] firsts(s)[k] == name@;
                assert(was[k].0@ == name@);
            }
        }
        lemma_firsts(s);
        assert(!listed(s, name@)) by {
            if listed(s, name@) {
                let k = choose|k: int| 0 <= k < s.len() && #[trigger] s[k] == name@;
                assert(listed(firsts(s), s[k]));
            }
        }
        assert forall|k: int|
            #![trigger mix@[k]]
            0 <= k < mix@.len() implies mix@[k].0@ == firsts(more)[k] && mix@[k].1 == occurrences(
            more,
            mix@[k].0@,
        ) by {
            if k < was.len() {
                assert(mix@[k] == was[k]);
            }
        }
    }
}

/// The machines of the tabs.
pub open spec fn hosts_of(tabs: Seq<(&str, bool)>) -> Seq<Seq<char>> {
    tabs.map_values(|t: (&str, bool)| t.0@)
}

/// The machines of the tabs that are alive.
pub open spec fn live_hosts_of(tabs: Seq<(&str, bool)>) -> Seq<Seq<char>>
    decreases tabs.len(),
{
    if tabs.len() == 0 {
        Seq::empty()
    } else if tabs.last().1 {
        live_hosts_of(tabs.drop_last()).push(tabs.last().0@)
    } else {
        live_hosts_of(tabs.drop_last())
    }
}

proof fn lemma_live_hosts(tabs: Seq<(&str, bool)>, h: Seq<char>)
    ensures
        occurrences(live_hosts_of(tabs), h) <= occurrences(hosts_of(tabs), h) <= tabs.len(),
    decreases tabs.len(),
{
    if tabs.len() > 0 {
        lemma_live_hosts(tabs.drop_last(), h);
        assert(hosts_of(tabs).drop_last() =~= hosts_of(tabs.drop_last()));
        let l = live_hosts_of(tabs.drop_last()).push(tabs.last().0@);
        assert(l.drop_last() =~= live_hosts_of(tabs.drop_last()));
    }
}

/// Each machine with the number of its sessions that are alive and of all, in the order of their
/// first occurrence.
pub fn host_tally<'a>(tabs: &[(&'a str, bool)]) -> (r: Vec<(&'a str, usize, usize)>)
    ensures
        r@.len() == firsts(hosts_of(tabs@)).len(),
        forall|j: int|
            #![trigger r@[j]]
            0 <= j < r@.len() ==> r@[j].0@ == firsts(hosts_of(tabs@))[j] && r@[j].1 == occurrences(
                live_hosts_of(tabs@),
                r@[j].0@,
            ) && r@[j].2 == occurrences(hosts_of(tabs@), r@[j].0@),
{
    let mut out: Vec<(&'a str, usize, usize)> = Vec::new();
    let mut i: usize = 0;
    while i < tabs.len()
        invariant
            i <= tabs@.len(),
            out@.len() == firsts(hosts_of(tabs@.take(i as int))).len(),
            forall|j: int|
                #![trigger out@[j]]
                0 <= j < out@.len() ==> out@[j].0@ == firsts(hosts_of(tabs@.take(i as int)))[j]
                    && out@[j].1 == occurrences(live_hosts_of(tabs@.take(i as int)), out@[j].0@)
                    && out@[j].2 == occurrences(hosts_of(tabs@.take(i as int)), out@[j].0@),
        decreases tabs@.len() - i,
    {
        let (host, alive) = tabs[i];
        let ghost pre = tabs@.take(i as int);
        let ghost now = tabs@.take(i + 1);
        let ghost was = out@;
        proof {
            assert(now.drop_last() =~= pre);
            assert(now.last() == tabs@[i as int]);
            assert(hosts_of(now).drop_last() =~= hosts_of(pre));
            assert(hosts_of(now).last() == host@);
            let l = live_hosts_of(pre).push(host@);
            assert(l.drop_last() =~= live_hosts_of(pre));
            lemma_firsts(hosts_of(pre));
            lemma_live_hosts(pre, host@);
        }
        let n: usize = out.len();
        let mut j: usize = 0;
        while j < n && !same_text(out[j].0, host)
            invariant
                j <= n,
                n == out@.len(),
                forall|k: int| 0 <= k < j ==> (#[trigger] out@[k]).0@ != host@,
            decreases n - j,
        {
            j = j + 1;
        }
        if j < n {
            let (h, a, t) = out[j];
            out.set(
                j,
                (
                    h,
                    if alive {
                        a + 1
                    } else {
                        a
                    },
                    t + 1,
                ),
            );
            proof {
                assert(firsts(hosts_of(pre))[j as int] == host@);
                assert(listed(firsts(hosts_of(pre)), host@));
                assert(firsts(hosts_of(now)) == firsts(hosts_of(pre)));
                assert forall|k: int|
                    #![trigger out@[k]]
                    0 <= k < out@.len() implies out@[k].0@ == firsts(hosts_of(now))[k]
                    && out@[k].1 == occurrences(live_hosts_of(now), out@[k].0@) && out@[k].2
                    == occurrences(hosts_of(now), out@[k].0@) by {
                    assert(was[k].0@ == firsts(hosts_of(pre))[k]);
                    if k != j {
                        assert(out@[k] == was[k]);
                        assert(firsts(hosts_of(pre))[k] != firsts(hosts_of(pre))[j as int]);
                    }
                }
            }
        } else {
            out.push(
                (
                    host,
                    if alive {
                        1
                    } else {
                        0
                    },
                    1,
                ),
            );
            proof {
                let f = firsts(hosts_of(pre));
                assert(!listed(f, host@)) by {
                    if listed(f, host@) {
                        let k = choose|k: int| 0 <= k < f.len() && #[trigger] f[k] == host@;
                        assert(was[k].0@ == host@);
                    }
                }
                assert(!listed(hosts_of(pre), host@)) by {
                    if listed(hosts_of(pre), host@) {
                        let k = choose|k: int|
                            0 <= k < hosts_of(pre).len() && #[trigger] hosts_of(pre)[k] == host@;
                        assert(listed(f, hosts_of(pre)[k]));
                    }
                }
                lemma_occurrences(hosts_of(pre), host@);
                assert forall|k: int|
                    #![trigger out@[k]]
                    0 <= k < out@.len() implies out@[k].0@ == firsts(hosts_of(now))[k]
                    && out@[k].1 == occurrences(live_hosts_of(now), out@[k].0@) && out@[k].2
                    == occurrences(hosts_of(now), out@[k].0@) by {
                    if k < was.len() {
                        assert(out@[k] == was[k]);
                        assert(was[k].0@ == f[k]);
                    }
                }
            }
        }
        i = i + 1;
    }
    proof {
        assert(tabs@.take(i as int) =~= tabs@);
    }
    out
}

/// The name a machine is shown by: a session without one runs here.
pub open spec fn machine(host: Seq<char>) -> Seq<char> {
    if host.len() == 0 {
        "local"@
    } else {
        host
    }
}

/// The name a machine is shown by.
pub fn machine_name<'a>(host: &'a str) -> (r: &'a str)
    ensures
        r@ == machine(host@),
{
    if host.is_empty() {
        "local"
    } else {
        host
    }
}

/// A tab as plain data: its machine by the shown name, whether it is alive, and its agent.
#[verifier::ext_equal]
pub struct AgentTab {
    pub host: Seq<char>,
    pub alive: bool,
    pub engine: Seq<char>,
}

/// The tabs as plain data.
pub open spec fn agents(tabs: Seq<(&str, bool, &str)>) -> Seq<AgentTab> {
    tabs.map_values(
        |t: (&str, bool, &str)| AgentTab { host: machine(t.0@), alive: t.1, engine: t.2@ },
    )
}

/// The machines of the tabs.
pub open spec fn machines(tabs: Seq<AgentTab>) -> Seq<Seq<char>> {
    tabs.map_values(|t: AgentTab| t.host)
}

/// How many tabs of a machine are alive.
pub open spec fn live_on(tabs: Seq<AgentTab>, host: Seq<char>) -> nat
    decreases tabs.len(),
{
    if tabs.len() == 0 {
        0
    } else {
        live_on(tabs.drop_last(), host) + (if tabs.last().host == host && tabs.last().alive {
            1nat
        } else {
            0
        })
    }
}

/// The agents of a machine's tabs, in the order of the tabs.
pub open spec fn agents_on(tabs: Seq<AgentTab>, host: Seq<char>) -> Seq<Seq<char>>
    decreases tabs.len(),
{
    if tabs.len() == 0 {
        Seq::empty()
    } else if tabs.last().host == host {
        agents_on(tabs.drop_last(), host).push(tabs.last().engine)
    } else {
        agents_on(tabs.drop_last(), host)
    }
}

/// Whether a row tells of a machine how many of its tabs are alive, how many there are, and how
/// many run which agent.
pub open spec fn row_tells(
    row: (String, usize, usize, Vec<(String, usize)>),
    tabs: Seq<AgentTab>,
) -> bool {
    &&& row.1 == live_on(tabs, row.0@)
    &&& row.2 == agents_on(tabs, row.0@).len()
    &&& counts(row.3@, agents_on(tabs, row.0@))
}

proof fn lemma_on(tabs: Seq<AgentTab>, host: Seq<char>)
    ensures
        live_on(tabs, host) <= agents_on(tabs, host).len() <= tabs.len(),
        !listed(machines(tabs), host) ==> agents_on(tabs, host).len() == 0,
    decreases tabs.len(),
{
    if tabs.len() > 0 {
        let front = tabs.drop_last();
        lemma_on(front, host);
        if !listed(machines(tabs), host) {
            assert(machines(tabs)[tabs.len() - 1] != host);
            assert forall|i: int| 0 <= i < machines(front).len() implies #[trigger] machines(
                front,
            )[i] != host by {
                assert(machines(tabs)[i] != host);
            }
        }
    }
}

/// Each machine with the number of its sessions that are alive, of all, and of each agent; machines
/// and agents in the order of their first occurrence.
pub fn host_engine_breakdown(tabs: &[(&str, bool, &str)]) -> (r: Vec<
    (String, usize, usize, Vec<(String, usize)>),
>)
    ensures
        r@.len() == firsts(machines(agents(tabs@))).len(),
        forall|j: int|
            #![trigger r@[j]]
            0 <= j < r@.len() ==> r@[j].0@ == firsts(machines(agents(tabs@)))[j] && row_tells(
                r@[j],
                agents(tabs@),
            ),
{
    let mut out: Vec<(String, usize, usize, Vec<(String, usize)>)> = Vec::new();
    let ghost all = agents(tabs@);
    let mut i: usize = 0;
    while i < tabs.len()
        invariant
            i <= tabs@.len(),
            all == agents(tabs@),
            out@.len() == firsts(machines(all.take(i as int))).len(),
            forall|j: int|
                #![trigger out@[j]]
                0 <= j < out@.len() ==> out@[j].0@ == firsts(machines(all.take(i as int)))[j]
                    && row_tells(out@[j], all.take(i as int)),
        decreases tabs@.len() - i,
    {
        let (raw, alive, engine) = tabs[i];
        let host = machine_name(raw);
        let ghost pre = all.take(i as int);
        let ghost now = all.take(i + 1);
        let ghost was = out@;
        proof {
            assert(now.drop_last() =~= pre);
            assert(now.last() == all[i as int]);
            assert(machines(now).drop_last() =~= machines(pre));
            assert(machines(now).last() == host@);
            lemma_firsts(machines(pre));
            lemma_on(pre, host@);
        }
        let n: usize = out.len();
        let mut j: usize = 0;
        while j < n && !same_text(out[j].0.as_str(), host)
            invariant
                j <= n,
                n == out@.len(),
                forall|k: int| 0 <= k < j ==> (#[trigger] out@[k]).0@ != host@,
            decreases n - j,
        {
            j = j + 1;
        }
        if j < n {
            let (h, a, t, mix) = out.remove(j);
            let mut mix2 = mix;
            count_name(&mut mix2, engine, Ghost(agents_on(pre, host@)));
            out.insert(
                j,
                (
                    h,
                    if alive {
                        a + 1
                    } else {
                        a
                    },
                    t + 1,
                    mix2,
                ),
            );
            proof {
                assert(firsts(machines(pre))[j as int] == host@);
                assert(listed(firsts(machines(pre)), host@));
                assert(firsts(machines(now)) == firsts(machines(pre)));
                assert forall|k: int|
                    #![trigger out@[k]]
                    0 <= k < out@.len() implies out@[k].0@ == firsts(machines(now))[k]
                    && row_tells(out@[k], now) by {
                    assert(was[k].0@ == firsts(machines(pre))[k]);
                    if k != j {
                        assert(out@[k] == was[k]);
                        assert(firsts(machines(pre))[k] != firsts(machines(pre))[j as int]);
                    }
                }
            }
        } else {
            let mut mix: Vec<(String, usize)> = Vec::new();
            count_name(&mut mix, engine, Ghost(Seq::empty()));
            out.push(
                (
                    copy_text(host),
                    if alive {
                        1
                    } else {
                        0
                    },
                    1,
                    mix,
                ),
            );
            proof {
                let f = firsts(machines(pre));
                assert(!listed(f, host@)) by {
                    if listed(f, host@) {
                        let k = choose|k: int| 0 <= k < f.len() && #[trigger] f[k] == host@;
                        assert(was[k].0@ == host@);
                    }
                }
                assert(!listed(machines(pre), host@)) by {
                    if listed(machines(pre), host@) {
                        let k = choose|k: int|
                            0 <= k < machines(pre).len() && #[trigger] machines(pre)[k] == host@;
                        assert(listed(f, machines(pre)[k]));
                    }
                }
                assert(agents_on(pre, host@) =~= Seq::empty());
                assert forall|k: int|
                    #![trigger out@[k]]
                    0 <= k < out@.len() implies out@[k].0@ == firsts(machines(now))[k]
                    && row_tells(out@[k], now) by {
                    if k < was.len() {
                        assert(out@[k] == was[k]);
                        assert(was[k].0@ == f[k]);
                    }
                }
            }
        }
        i = i + 1;
    }
    proof {
        assert(all.take(i as int) =~= all);
    }
    out
}

/// An agent and its number, which one alone does not show.
pub open spec fn mix_entry(e: (String, usize)) -> Seq<char> {
    if e.1 == 1 {
        e.0@
    } else {
        e.0@ + "×"@ + dec(e.1 as nat)
    }
}

/// The agents of a machine in one line.
pub open spec fn mix_text(mix: Seq<(String, usize)>) -> Seq<char> {
    joined(mix.map_values(|e: (String, usize)| mix_entry(e)), ", "@)
}

/// The agents of a list in one line, each with how often it stands there.
pub open spec fn mix_said(s: Seq<Seq<char>>) -> Seq<char> {
    joined(
        firsts(s).map_values(
            |e: Seq<char>|
                if occurrences(s, e) == 1 {
                    e
                } else {
                    e + "×"@ + dec(occurrences(s, e))
                },
        ),
        ", "@,
    )
}

/// A list that counts the agents says what they are.
pub proof fn lemma_mix_said(mix: Seq<(String, usize)>, s: Seq<Seq<char>>)
    requires
        counts(mix, s),
    ensures
        mix_text(mix) == mix_said(s),
{
    let a = mix.map_values(|e: (String, usize)| mix_entry(e));
    let b = firsts(s).map_values(
        |e: Seq<char>|
            if occurrences(s, e) == 1 {
                e
            } else {
                e + "×"@ + dec(occurrences(s, e))
            },
    );
    assert forall|j: int| 0 <= j < a.len() implies a[j] == b[j] by {
        assert(mix[j].0@ == firsts(s)[j]);
    }
    assert(a =~= b);
}

/// The agents of a machine in one line, such as `aider×2, codex`.
pub fn format_engine_mix(mix: &[(String, usize)]) -> (r: String)
    ensures
        r@ == mix_text(mix@),
{
    let mut parts: Vec<String> = Vec::new();
    let ghost want = mix@.map_values(|e: (String, usize)| mix_entry(e));
    let mut i: usize = 0;
    while i < mix.len()
        invariant
            i <= mix@.len(),
            want == mix@.map_values(|e: (String, usize)| mix_entry(e)),
            texts(parts@) == want.take(i as int),
        decreases mix@.len() - i,
    {
        let mut s = copy_text(mix[i].0.as_str());
        if mix[i].1 != 1 {
            s.append("×");
            s.append(decimal(mix[i].1 as u64).as_str());
        }
        let ghost had = texts(parts@);
        let ghost t = s@;
        parts.push(s);
        proof {
            assert(texts(parts@) =~= had.push(t));
            assert(texts(parts@) =~= want.take(i + 1));
        }
        i = i + 1;
    }
    proof {
        assert(want.take(i as int) =~= want);
    }
    join(&parts, ", ")
}

/// The mark of a machine: none, all or some of its sessions alive.
pub open spec fn host_mark(alive: int, total: int) -> Seq<char> {
    if alive == 0 {
        "○"@
    } else if alive == total {
        "●"@
    } else {
        "◐"@
    }
}

/// The state of a machine in words.
pub open spec fn host_state(alive: int, total: int) -> Seq<char> {
    if alive == 0 {
        "down"@
    } else if alive < total {
        dec(alive as nat) + "/"@ + dec(total as nat) + " live"@
    } else {
        "live"@
    }
}

/// A machine's line in the fleet summary.
pub open spec fn host_line(
    host: Seq<char>,
    alive: int,
    total: int,
    mix: Seq<(String, usize)>,
) -> Seq<char> {
    let head = host_mark(alive, total) + " "@ + machine(host) + " · "@ + host_state(alive, total);
    if mix_text(mix).len() == 0 {
        head
    } else {
        head + " · "@ + mix_text(mix)
    }
}

/// A machine's line in the fleet summary, such as `● build02 · live · aider×2, codex`.
pub fn fleet_host_line(host: &str, alive: usize, total: usize, mix: &[(String, usize)]) -> (r: String)
    ensures
        r@ == host_line(host@, alive as int, total as int, mix@),
{
    let mut s = copy_text(
        if alive == 0 {
            "○"
        } else if alive == total {
            "●"
        } else {
            "◐"
        },
    );
    s.append(" ");
    s.append(machine_name(host));
    s.append(" · ");
    let state = if alive == 0 {
        copy_text("down")
    } else if alive < total {
        let mut t = decimal(alive as u64);
        t.append("/");
        t.append(decimal(total as u64).as_str());
        t.append(" live");
        t
    } else {
        copy_text("live")
    };
    s.append(state.as_str());
    let m = format_engine_mix(mix);
    if !m.as_str().is_empty() {
        s.append(" · ");
        s.append(m.as_str());
    }
    s
}

/// The tabs of a machine, in order.
pub open spec fn tabs_on(tabs: Seq<(usize, &str)>, host: Seq<char>) -> Seq<usize>
    decreases tabs.len(),
{
    if tabs.len() == 0 {
        Seq::empty()
    } else if machine(tabs.last().1@) == host {
        tabs_on(tabs.drop_last(), host).push(tabs.last().0)
    } else {
        tabs_on(tabs.drop_last(), host)
    }
}

/// The tabs of a machine, in order; a session without a machine's name runs on `local`.
pub fn session_indices_for_host(tabs: &[(usize, &str)], host: &str) -> (r: Vec<usize>)
    ensures
        r@ == tabs_on(tabs@, host@),
{
    let mut out: Vec<usize> = Vec::new();
    let mut i: usize = 0;
    while i < tabs.len()
        invariant
            i <= tabs@.len(),
            out@ == tabs_on(tabs@.take(i as int), host@),
        decreases tabs@.len() - i,
    {
        proof {
            assert(tabs@.take(i + 1).drop_last() =~= tabs@.take(i as int));
        }
        if same_text(machine_name(tabs[i].1), host) {
            out.push(tabs[i].0);
        }
        i = i + 1;
    }
    proof {
        assert(tabs@.take(i as int) =~= tabs@);
    }
    out
}

/// Whether two lists tell of the same tabs: the one their machines, states and agents, the other
/// their places and machines.
pub open spec fn same_tabs(rows: Seq<(&str, bool, &str)>, pairs: Seq<(usize, &str)>) -> bool {
    &&& rows.len() == pairs.len()
    &&& forall|i: int|
        #![trigger pairs[i]]
        #![trigger rows[i]]
        0 <= i < pairs.len() ==> pairs[i].0 == i && pairs[i].1@ == rows[i].0@
}

proof fn lemma_tabs_of_machine(
    rows: Seq<(&str, bool, &str)>,
    pairs: Seq<(usize, &str)>,
    host: Seq<char>,
)
    requires
        same_tabs(rows, pairs),
    ensures
        tabs_on(pairs, host).len() == agents_on(agents(rows), host).len(),
        forall|k: int|
            0 <= k < tabs_on(pairs, host).len() ==> (#[trigger] tabs_on(pairs, host)[k])
                < rows.len() && machine(rows[tabs_on(pairs, host)[k] as int].0@) == host,
        forall|j: int, k: int|
            0 <= j < k < tabs_on(pairs, host).len() ==> tabs_on(pairs, host)[j] < tabs_on(
                pairs,
                host,
            )[k],
        forall|i: int|
            #![trigger rows[i]]
            0 <= i < rows.len() && machine(rows[i].0@) == host ==> tabs_on(pairs, host).contains(
                i as usize,
            ),
    decreases pairs.len(),
{
    if pairs.len() > 0 {
        let (fr, fp) = (rows.drop_last(), pairs.drop_last());
        let last = rows.len() - 1;
        assert forall|i: int|
            #![trigger fp[i]]
            #![trigger fr[i]]
            0 <= i < fp.len() implies fp[i].0 == i && fp[i].1@ == fr[i].0@ by {
            assert(fp[i] == pairs[i] && fr[i] == rows[i]);
        }
        lemma_tabs_of_machine(fr, fp, host);
        assert(agents(rows).drop_last() =~= agents(fr));
        assert(pairs[last].0 == last && pairs[last].1@ == rows[last].0@);
        let (old, all) = (tabs_on(fp, host), tabs_on(pairs, host));
        assert forall|k: int| 0 <= k < all.len() implies (#[trigger] all[k]) < rows.len()
            && machine(rows[all[k] as int].0@) == host by {
            if k < old.len() {
                assert(all[k] == old[k]);
                assert(fr[old[k] as int] == rows[old[k] as int]);
            }
        }
        assert forall|i: int|
            #![trigger rows[i]]
            0 <= i < rows.len() && machine(rows[i].0@) == host implies all.contains(i as usize) by {
            if i < last {
                assert(fr[i] == rows[i]);
                let k = old.index_of(i as usize);
                assert(all[k] == i as usize);
            } else {
                assert(all[all.len() - 1] == i as usize);
            }
        }
    }
}

/// The machines share out the tabs. Whatever the machine, its list of tabs ascends and is as long
/// as the breakdown says. The lists of the machines in the breakdown hold every tab, and no tab
/// stands in two of them. Any other machine has no tab, and no machine is without a name.
pub proof fn law_machines_share_out_tabs(
    rows: Seq<(&str, bool, &str)>,
    pairs: Seq<(usize, &str)>,
)
    requires
        same_tabs(rows, pairs),
    ensures
        forall|h: Seq<char>|
            (#[trigger] tabs_on(pairs, h)).len() == agents_on(agents(rows), h).len(),
        forall|h: Seq<char>, j: int, k: int|
            0 <= j < k < tabs_on(pairs, h).len() ==> (#[trigger] tabs_on(pairs, h)[j])
                < #[trigger] tabs_on(pairs, h)[k],
        forall|h: Seq<char>, k: int|
            0 <= k < tabs_on(pairs, h).len() ==> (#[trigger] tabs_on(pairs, h)[k]) < rows.len(),
        forall|i: int|
            0 <= i < rows.len() ==> exists|m: int|
                0 <= m < firsts(machines(agents(rows))).len() && tabs_on(
                    pairs,
                    #[trigger] firsts(machines(agents(rows)))[m],
                ).contains(#[trigger] pairs[i].0),
        forall|g: Seq<char>, h: Seq<char>, i: usize|
            (#[trigger] tabs_on(pairs, g).contains(i)) && (#[trigger] tabs_on(pairs, h).contains(i))
                ==> g == h,
        forall|h: Seq<char>|
            !listed(firsts(machines(agents(rows))), h) ==> (#[trigger] tabs_on(pairs, h)).len()
                == 0,
        tabs_on(pairs, Seq::<char>::empty()).len() == 0,
{
    let all = machines(agents(rows));
    let hs = firsts(all);
    lemma_firsts(all);
    assert forall|h: Seq<char>| (#[trigger] tabs_on(pairs, h)).len() == agents_on(
        agents(rows),
        h,
    ).len() by {
        lemma_tabs_of_machine(rows, pairs, h);
    }
    assert forall|h: Seq<char>, j: int, k: int|
        0 <= j < k < tabs_on(pairs, h).len() implies (#[trigger] tabs_on(pairs, h)[j])
        < #[trigger] tabs_on(pairs, h)[k] by {
        lemma_tabs_of_machine(rows, pairs, h);
    }
    assert forall|h: Seq<char>, k: int| 0 <= k < tabs_on(pairs, h).len() implies (
    #[trigger] tabs_on(pairs, h)[k]) < rows.len() by {
        lemma_tabs_of_machine(rows, pairs, h);
    }
    assert forall|i: int| 0 <= i < rows.len() implies exists|m: int|
        0 <= m < hs.len() && tabs_on(pairs, #[trigger] hs[m]).contains(#[trigger] pairs[i].0) by {
        let h = machine(rows[i].0@);
        assert(all[i] == h);
        assert(listed(hs, all[i]));
        let m = choose|m: int| 0 <= m < hs.len() && #[trigger] hs[m] == h;
        lemma_tabs_of_machine(rows, pairs, h);
        assert(pairs[i].0 == i);
        assert(tabs_on(pairs, hs[m]).contains(pairs[i].0));
    }
    assert forall|g: Seq<char>, h: Seq<char>, i: usize|
        (#[trigger] tabs_on(pairs, g).contains(i)) && (#[trigger] tabs_on(pairs, h).contains(
            i,
        )) implies g == h by {
        lemma_tabs_of_machine(rows, pairs, g);
        lemma_tabs_of_machine(rows, pairs, h);
        let (a, b) = (tabs_on(pairs, g).index_of(i), tabs_on(pairs, h).index_of(i));
        assert(tabs_on(pairs, g)[a] == i && tabs_on(pairs, h)[b] == i);
    }
    assert forall|h: Seq<char>| !listed(hs, h) implies (#[trigger] tabs_on(pairs, h)).len()
        == 0 by {
        lemma_tabs_of_machine(rows, pairs, h);
        if tabs_on(pairs, h).len() > 0 {
            let i = tabs_on(pairs, h)[0] as int;
            assert(all[i] == h);
            assert(listed(hs, all[i]));
        }
    }
    lemma_tabs_of_machine(rows, pairs, Seq::empty());
    reveal_strlit("local");
    if tabs_on(pairs, Seq::<char>::empty()).len() > 0 {
        let i = tabs_on(pairs, Seq::<char>::empty())[0] as int;
        assert(machine(rows[i].0@).len() == 0);
    }
}

/// The tab to go to for the next machine: the first of that machine behind the active tab, else the
/// first of all. The machines follow each other in the order of their first tab, around the end.
pub open spec fn next_host_tab(hosts: Seq<Seq<char>>, active: int) -> Option<int> {
    let uniq = firsts(hosts);
    if uniq.len() < 2 || active >= hosts.len() {
        None
    } else {
        let cur = text_index(uniq, hosts[active], 0).unwrap();
        let target = uniq[(cur + 1) % uniq.len() as int];
        match text_index(hosts, target, active + 1) {
            Some(i) => Some(i),
            None => text_index(hosts, target, 0),
        }
    }
}

fn find_text(s: &[&str], t: &str, from: usize) -> (r: Option<usize>)
    ensures
        index_of(r) == text_index(strs(s@), t@, from as int),
{
    let mut i: usize = from;
    while i < s.len()
        invariant
            from <= i,
            text_index(strs(s@), t@, from as int) == text_index(strs(s@), t@, i as int),
        decreases s@.len() - i,
    {
        if same_text(s[i], t) {
            return Some(i);
        }
        i = i + 1;
    }
    None
}

/// The tab to go to for the next machine; nothing where there is no other. See [`next_host_tab`].
pub fn next_host_index(hosts: &[&str], active: usize) -> (r: Option<usize>)
    ensures
        index_of(r) == next_host_tab(strs(hosts@), active as int),
{
    let ghost all = strs(hosts@);
    let mut uniq: Vec<&str> = Vec::new();
    let mut i: usize = 0;
    while i < hosts.len()
        invariant
            i <= hosts@.len(),
            all == strs(hosts@),
            strs(uniq@) == firsts(all.take(i as int)),
        decreases hosts@.len() - i,
    {
        let ghost was = uniq@;
        proof {
            assert(all.take(i + 1).drop_last() =~= all.take(i as int));
        }
        let seen = find_text(uniq.as_slice(), hosts[i], 0);
        proof {
            lemma_text_index(strs(uniq@), hosts@[i as int]@, 0);
        }
        if seen.is_none() {
            uniq.push(hosts[i]);
            proof {
                assert(strs(uniq@) =~= strs(was).push(all[i as int]));
            }
        } else {
            proof {
                assert(listed(strs(uniq@), all[i as int]));
            }
        }
        i = i + 1;
    }
    proof {
        assert(all.take(i as int) =~= all);
        lemma_firsts(all);
    }
    let n: usize = uniq.len();
    if n < 2 || active >= hosts.len() {
        return None;
    }
    proof {
        assert(listed(firsts(all), all[active as int]));
        lemma_text_index(firsts(all), all[active as int], 0);
    }
    let cur: usize = find_text(uniq.as_slice(), hosts[active], 0).unwrap();
    let at: usize = if cur + 1 == n {
        0
    } else {
        cur + 1
    };
    proof {
        if cur + 1 == n {
            assert((cur + 1) % n as int == 0);
        } else {
            vstd::arithmetic::div_mod::lemma_small_mod((cur + 1) as nat, n as nat);
        }
    }
    let target = uniq[at];
    match find_text(hosts, target, active + 1) {
        Some(k) => Some(k),
        None => find_text(hosts, target, 0),
    }
}

/// Paging by machine always lands on another machine, and finds one wherever there are two.
pub proof fn law_next_host_is_another(hosts: Seq<Seq<char>>, active: int)
    requires
        0 <= active < hosts.len(),
    ensures
        firsts(hosts).len() >= 2 ==> next_host_tab(hosts, active) is Some,
        next_host_tab(hosts, active) matches Some(i) ==> 0 <= i < hosts.len() && hosts[i]
            != hosts[active],
{
    let uniq = firsts(hosts);
    lemma_firsts(hosts);
    if uniq.len() >= 2 {
        let n = uniq.len() as int;
        assert(listed(uniq, hosts[active]));
        lemma_text_index(uniq, hosts[active], 0);
        let cur = text_index(uniq, hosts[active], 0).unwrap();
        let at = (cur + 1) % n;
        if cur + 1 < n {
            vstd::arithmetic::div_mod::lemma_small_mod((cur + 1) as nat, n as nat);
        } else {
            assert(cur + 1 == n);
            vstd::arithmetic::div_mod::lemma_mod_self_0(n);
        }
        assert(at != cur);
        let target = uniq[at];
        assert(uniq[at] != uniq[cur]);
        assert(listed(hosts, uniq[at]));
        lemma_text_index(hosts, target, active + 1);
        lemma_text_index(hosts, target, 0);
    }
}

/// The kinds of queued events.
pub open spec fn kinds_of(pending: Seq<(String, usize)>) -> Seq<Seq<char>> {
    pending.map_values(|p: (String, usize)| p.0@)
}

/// The tabs that raised a kind of event, in the order they were queued.
pub open spec fn tabs_of(pending: Seq<(String, usize)>, kind: Seq<char>) -> Seq<usize>
    decreases pending.len(),
{
    if pending.len() == 0 {
        Seq::empty()
    } else if pending.last().0@ == kind {
        tabs_of(pending.drop_last(), kind).push(pending.last().1)
    } else {
        tabs_of(pending.drop_last(), kind)
    }
}

/// Whether the batches hold each kind once, in the order of their first occurrence, with every tab
/// that raised it.
pub open spec fn batched(batches: Seq<(String, Vec<usize>)>, pending: Seq<(String, usize)>) -> bool {
    &&& batches.len() == firsts(kinds_of(pending)).len()
    &&& forall|j: int|
        #![trigger batches[j]]
        0 <= j < batches.len() ==> batches[j].0@ == firsts(kinds_of(pending))[j] && batches[j].1@
            == tabs_of(pending, batches[j].0@)
}

proof fn lemma_tabs_of(pending: Seq<(String, usize)>, kind: Seq<char>)
    requires
        !listed(kinds_of(pending), kind),
    ensures
        tabs_of(pending, kind).len() == 0,
    decreases pending.len(),
{
    if pending.len() > 0 {
        let front = pending.drop_last();
        assert(kinds_of(pending)[pending.len() - 1] != kind);
        assert forall|i: int| 0 <= i < kinds_of(front).len() implies #[trigger] kinds_of(front)[i]
            != kind by {
            assert(kinds_of(pending)[i] != kind);
        }
        lemma_tabs_of(front, kind);
    }
}

/// Queued events in batches, one for each kind: an event in many tabs at once becomes one
/// notification.
pub fn group_notifications(pending: &[(String, usize)]) -> (r: Vec<(String, Vec<usize>)>)
    ensures
        batched(r@, pending@),
{
    let mut out: Vec<(String, Vec<usize>)> = Vec::new();
    let mut i: usize = 0;
    while i < pending.len()
        invariant
            i <= pending@.len(),
            batched(out@, pending@.take(i as int)),
        decreases pending@.len() - i,
    {
        let kind = pending[i].0.as_str();
        let tab: usize = pending[i].1;
        let ghost pre = pending@.take(i as int);
        let ghost now = pending@.take(i + 1);
        let ghost was = out@;
        proof {
            assert(now.drop_last() =~= pre);
            assert(now.last() == pending@[i as int]);
            assert(kinds_of(now).drop_last() =~= kinds_of(pre));
            assert(kinds_of(now).last() == kind@);
            lemma_firsts(kinds_of(pre));
        }
        let n: usize = out.len();
        let mut j: usize = 0;
        while j < n && !same_text(out[j].0.as_str(), kind)
            invariant
                j <= n,
                n == out@.len(),
                forall|k: int| 0 <= k < j ==> (#[trigger] out@[k]).0@ != kind@,
            decreases n - j,
        {
            j = j + 1;
        }
        if j < n {
            let (name, tabs) = out.remove(j);
            let mut tabs2 = tabs;
            tabs2.push(tab);
            out.insert(j, (name, tabs2));
            proof {
                assert(firsts(kinds_of(pre))[j as int] == kind@);
                assert(listed(firsts(kinds_of(pre)), kind@));
                assert(firsts(kinds_of(now)) == firsts(kinds_of(pre)));
                assert forall|k: int|
                    #![trigger out@[k]]
                    0 <= k < out@.len() implies out@[k].0@ == firsts(kinds_of(now))[k]
                    && out@[k].1@ == tabs_of(now, out@[k].0@) by {
                    assert(was[k].0@ == firsts(kinds_of(pre))[k]);
                    if k != j {
                        assert(out@[k] == was[k]);
                        assert(firsts(kinds_of(pre))[k] != firsts(kinds_of(pre))[j as int]);
                    }
                }
            }
        } else {
            let mut tabs: Vec<usize> = Vec::new();
            tabs.push(tab);
            let ghost first = tabs@;
            out.push((copy_text(kind), tabs));
            proof {
                let f = firsts(kinds_of(pre));
                assert(!listed(f, kind@)) by {
                    if listed(f, kind@) {
                        let k = choose|k: int| 0 <= k < f.len() && #[trigger] f[k] == kind@;
                        assert(was[k].0@ == kind@);
                    }
                }
                assert(!listed(kinds_of(pre), kind@)) by {
                    if listed(kinds_of(pre), kind@) {
                        let k = choose|k: int|
                            0 <= k < kinds_of(pre).len() && #[trigger] kinds_of(pre)[k] == kind@;
                        assert(listed(f, kinds_of(pre)[k]));
                    }
                }
                lemma_tabs_of(pre, kind@);
                assert(first =~= tabs_of(now, kind@));
                assert forall|k: int|
                    #![trigger out@[k]]
                    0 <= k < out@.len() implies out@[k].0@ == firsts(kinds_of(now))[k]
                    && out@[k].1@ == tabs_of(now, out@[k].0@) by {
                    if k < was.len() {
                        assert(out@[k] == was[k]);
                        assert(was[k].0@ == f[k]);
                    }
                }
            }
        }
        i = i + 1;
    }
    proof {
        assert(pending@.take(i as int) =~= pending@);
    }
    out
}

} // verus!
