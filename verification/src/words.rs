//! Words and labels: what the window says, and how it reads what is typed or clicked.

use vstd::prelude::*;
use vstd::string::*;
use vstd::utf8::*;

use crate::text::{
    ascii_lower_char, chars_of, copy_text, dec, decimal, find_from, lower_char, same_text, search,
    string_from, texts, trim, trimmed,
};

verus! {

/// The parts one after the other, with `sep` between them.
pub open spec fn joined(parts: Seq<Seq<char>>, sep: Seq<char>) -> Seq<char>
    decreases parts.len(),
{
    if parts.len() == 0 {
        Seq::empty()
    } else if parts.len() == 1 {
        parts[0]
    } else {
        joined(parts.drop_last(), sep) + sep + parts.last()
    }
}

/// The parts one after the other, with `sep` between them.
pub fn join(parts: &[String], sep: &str) -> (r: String)
    ensures
        r@ == joined(texts(parts@), sep@),
{
    let mut out: String = String::new();
    let mut i: usize = 0;
    while i < parts.len()
        invariant
            i <= parts@.len(),
            out@ == joined(texts(parts@).take(i as int), sep@),
        decreases parts@.len() - i,
    {
        proof {
            let t = texts(parts@);
            assert(t.take(i + 1).drop_last() =~= t.take(i as int));
        }
        if i > 0 {
            out.append(sep);
            out.append(parts[i].as_str());
        } else {
            out = copy_text(parts[i].as_str());
        }
        i = i + 1;
    }
    proof {
        assert(texts(parts@).take(i as int) =~= texts(parts@));
    }
    out
}

/// A duration in its largest whole unit.
pub open spec fn duration_text(secs: int) -> Seq<char> {
    if secs < 60 {
        dec(secs as nat) + "s"@
    } else if secs < 3600 {
        dec((secs / 60) as nat) + "m"@
    } else if secs < 86400 {
        dec((secs / 3600) as nat) + "h"@
    } else {
        dec((secs / 86400) as nat) + "d"@
    }
}

/// A duration in its largest whole unit: seconds, minutes, hours or days.
pub fn fmt_duration(secs: u64) -> (r: String)
    ensures
        r@ == duration_text(secs as int),
{
    if secs < 60 {
        decimal(secs).concat("s")
    } else if secs < 3600 {
        decimal(secs / 60).concat("m")
    } else if secs < 86400 {
        decimal(secs / 3600).concat("h")
    } else {
        decimal(secs / 86400).concat("d")
    }
}

/// The text, cut after `max` characters and marked with an ellipsis where it is longer.
pub open spec fn clipped(s: Seq<char>, max: int) -> Seq<char> {
    if s.len() <= max {
        s
    } else {
        s.take(max).push('…')
    }
}

/// Cuts a text after `max` characters, with an ellipsis where something was cut. Counts characters,
/// not bytes, so that none is split.
pub fn clip_dots(s: &str, max: usize) -> (r: String)
    ensures
        r@ == clipped(s@, max as int),
{
    let v = chars_of(s);
    if v.len() <= max {
        copy_text(s)
    } else {
        let mut out = string_from(&v, 0, max);
        out.push('…');
        proof {
            assert(out@ =~= s@.take(max as int).push('…'));
        }
        out
    }
}

/// A text filled up with spaces to `n` characters.
pub open spec fn padded(s: Seq<char>, n: int) -> Seq<char> {
    s + Seq::new(
        (if s.len() < n {
            n - s.len()
        } else {
            0
        }) as nat,
        |i: int| ' ',
    )
}

/// Fills a text up with spaces to `n` characters.
pub fn pad(s: &str, n: usize) -> (r: String)
    ensures
        r@ == padded(s@, n as int),
{
    let v = chars_of(s);
    let mut out = copy_text(s);
    let mut i: usize = v.len();
    proof {
        assert(out@ =~= padded(s@, v@.len() as int));
    }
    while i < n
        invariant
            v@ == s@,
            v@.len() <= i,
            out@ == padded(s@, i as int),
            i == v@.len() || i <= n,
        decreases n - i,
    {
        out.push(' ');
        i = i + 1;
        proof {
            assert(out@ =~= padded(s@, i as int));
        }
    }
    proof {
        assert(out@ =~= padded(s@, n as int));
    }
    out
}

/// A clipped text holds at most one character more than the bound, the ellipsis.
pub proof fn law_clip_is_bounded(s: Seq<char>, max: int)
    requires
        0 <= max,
    ensures
        clipped(s, max).len() <= max + 1,
        clipped(s, max).take(if s.len() < max {
            s.len() as int
        } else {
            max
        }) == s.take(if s.len() < max {
            s.len() as int
        } else {
            max
        }),
{
    if s.len() > max {
        assert(clipped(s, max).take(max) =~= s.take(max));
    }
}

/// What copy mode says of a search without result.
pub open spec fn no_match_text(query: Seq<char>) -> Seq<char> {
    let q = clipped(trimmed(query), 40);
    if q.len() == 0 {
        "copy: no match"@
    } else {
        "copy: no match /"@ + q
    }
}

/// What copy mode says of a search without result: it names the query, unless that is blank.
pub fn copy_no_match_flash(query: &str) -> (r: String)
    ensures
        r@ == no_match_text(query@),
{
    let bare = trim(query);
    let q = clip_dots(bare.as_str(), 40);
    if q.as_str().is_empty() {
        copy_text("copy: no match")
    } else {
        copy_text("copy: no match /").concat(q.as_str())
    }
}

/// A host and why it is down.
pub open spec fn down_texts(still: Seq<(String, String)>) -> Seq<Seq<char>> {
    still.map_values(|p: (String, String)| p.0@ + ": "@ + p.1@)
}

/// What a reconnect of the whole fleet says, from what it says of each host that is still down.
pub open spec fn reconnect_said(ok: nat, downs: Seq<Seq<char>>) -> Seq<char> {
    let base = "reconnect-all: "@ + dec(ok) + " reached"@;
    if downs.len() == 0 {
        base
    } else {
        base + ", "@ + dec(downs.len()) + " still down — "@ + clipped(joined(downs, "; "@), 48)
    }
}

/// What a reconnect of the whole fleet says.
pub open spec fn reconnect_text(ok: nat, still: Seq<(String, String)>) -> Seq<char> {
    reconnect_said(ok, down_texts(still))
}

/// One line on a reconnect of the whole fleet: how many panes came back and, where some did not,
/// which hosts and why, clipped to stay short.
pub fn fmt_reconnect_summary(ok: usize, still: &[(String, String)]) -> (r: String)
    ensures
        r@ == reconnect_text(ok as nat, still@),
{
    let mut base = copy_text("reconnect-all: ");
    base.append(decimal(ok as u64).as_str());
    base.append(" reached");
    if still.len() == 0 {
        return base;
    }
    let mut parts: Vec<String> = Vec::new();
    let mut i: usize = 0;
    while i < still.len()
        invariant
            i <= still@.len(),
            texts(parts@) == down_texts(still@).take(i as int),
        decreases still@.len() - i,
    {
        let mut s = copy_text(still[i].0.as_str());
        s.append(": ");
        s.append(still[i].1.as_str());
        let ghost had = texts(parts@);
        let ghost t = s@;
        parts.push(s);
        proof {
            assert(texts(parts@) =~= had.push(t));
            assert(texts(parts@) =~= down_texts(still@).take(i + 1));
        }
        i = i + 1;
    }
    proof {
        assert(down_texts(still@).take(i as int) =~= down_texts(still@));
    }
    let all = join(&parts, "; ");
    let detail = clip_dots(all.as_str(), 48);
    base.append(", ");
    base.append(decimal(still.len() as u64).as_str());
    base.append(" still down — ");
    base.append(detail.as_str());
    base
}

/// Session labels in a notification: a few by name, more by their number.
pub open spec fn labels_text(labels: Seq<Seq<char>>) -> Seq<char> {
    if labels.len() <= 3 {
        joined(labels, ", "@)
    } else {
        "all "@ + dec(labels.len()) + " sessions"@
    }
}

/// Joins session labels for a notification; a whole fleet is only counted.
pub fn join_labels(labels: &[String]) -> (r: String)
    ensures
        r@ == labels_text(texts(labels@)),
{
    if labels.len() <= 3 {
        join(labels, ", ")
    } else {
        let mut s = copy_text("all ");
        s.append(decimal(labels.len() as u64).as_str());
        s.append(" sessions");
        s
    }
}

/// Whether every character of `q` stands in `h`, in order though not side by side, ASCII case
/// aside: `at` says where.
pub open spec fn embeds(q: Seq<char>, h: Seq<char>, at: Seq<int>) -> bool {
    &&& at.len() == q.len()
    &&& forall|i: int| 0 <= i < at.len() ==> 0 <= #[trigger] at[i] < h.len()
    &&& forall|i: int, j: int| 0 <= i < j < at.len() ==> at[i] < at[j]
    &&& forall|i: int|
        0 <= i < at.len() ==> ascii_lower_char(h[#[trigger] at[i]]) == ascii_lower_char(q[i])
}

/// Whether `q` is a subsequence of `h`, ASCII case aside.
pub open spec fn fuzzy(q: Seq<char>, h: Seq<char>) -> bool {
    exists|at: Seq<int>| embeds(q, h, at)
}

/// Where the characters of `q` stand in `h`.
spec fn places(q: Seq<char>, h: Seq<char>) -> Seq<int> {
    choose|at: Seq<int>| embeds(q, h, at)
}

proof fn lemma_fuzzy_step(q: Seq<char>, h: Seq<char>, k: int, i: int)
    requires
        0 <= k < q.len(),
        0 <= i < h.len(),
        fuzzy(q.take(k), h.take(i)),
        !fuzzy(q.take(k + 1), h.take(i)),
    ensures
        ascii_lower_char(h[i]) == ascii_lower_char(q[k]) ==> fuzzy(q.take(k + 1), h.take(i + 1))
            && (k + 1 < q.len() ==> !fuzzy(q.take(k + 2), h.take(i + 1))),
        ascii_lower_char(h[i]) != ascii_lower_char(q[k]) ==> fuzzy(q.take(k), h.take(i + 1))
            && !fuzzy(q.take(k + 1), h.take(i + 1)),
{
    let at = places(q.take(k), h.take(i));
    assert(embeds(q.take(k), h.take(i + 1), at));
    if ascii_lower_char(h[i]) == ascii_lower_char(q[k]) {
        assert(embeds(q.take(k + 1), h.take(i + 1), at.push(i)));
        if k + 1 < q.len() && fuzzy(q.take(k + 2), h.take(i + 1)) {
            let a2 = places(q.take(k + 2), h.take(i + 1));
            let cut = a2.take(k + 1);
            assert(a2[k] < a2[k + 1]);
            assert(embeds(q.take(k + 1), h.take(i), cut)) by {
                assert forall|j: int| 0 <= j < cut.len() implies 0 <= #[trigger] cut[j]
                    < h.take(i).len() && ascii_lower_char(h.take(i)[cut[j]]) == ascii_lower_char(
                    q.take(k + 1)[j],
                ) by {
                    assert(cut[j] == a2[j]);
                    assert(a2[j] <= a2[k]);
                    assert(q.take(k + 2)[j] == q.take(k + 1)[j]);
                }
            }
            assert(false);
        }
    } else {
        if fuzzy(q.take(k + 1), h.take(i + 1)) {
            let a2 = places(q.take(k + 1), h.take(i + 1));
            assert(a2[k] != i) by {
                if a2[k] == i {
                    assert(h.take(i + 1)[a2[k]] == h[i]);
                    assert(q.take(k + 1)[k] == q[k]);
                }
            }
            assert(embeds(q.take(k + 1), h.take(i), a2)) by {
                assert forall|j: int| 0 <= j < a2.len() implies 0 <= #[trigger] a2[j] < h.take(
                    i,
                ).len() by {
                    assert(a2[j] <= a2[k]);
                }
            }
            assert(false);
        }
    }
}

proof fn lemma_fuzzy_in_longer(q: Seq<char>, h: Seq<char>, i: int)
    requires
        0 <= i <= h.len(),
        fuzzy(q, h.take(i)),
    ensures
        fuzzy(q, h),
{
    let at = places(q, h.take(i));
    assert(embeds(q, h, at));
}

/// Whether each character of the query occurs in `hay`, in order but not necessarily side by side,
/// ASCII case aside. An empty query matches everything.
pub fn fuzzy_match(query: &str, hay: &str) -> (r: bool)
    ensures
        r == fuzzy(query@, hay@),
{
    let q = chars_of(query);
    let h = chars_of(hay);
    proof {
        assert(embeds(Seq::<char>::empty(), h@.take(0), Seq::<int>::empty()));
        assert(q@.take(0) =~= Seq::<char>::empty());
        if q@.len() == 0 {
            assert(q@ =~= Seq::<char>::empty());
            assert(embeds(q@, h@, Seq::<int>::empty()));
        } else {
            if fuzzy(q@.take(1), h@.take(0)) {
                let at = places(q@.take(1), h@.take(0));
                assert(0 <= at[0] < h@.take(0).len());
            }
        }
    }
    if q.len() == 0 {
        return true;
    }
    let n: usize = q.len();
    let mut k: usize = 0;
    let mut i: usize = 0;
    while i < h.len()
        invariant
            i <= h@.len(),
            k < n,
            n == q@.len(),
            q@ == query@,
            h@ == hay@,
            fuzzy(q@.take(k as int), h@.take(i as int)),
            !fuzzy(q@.take(k + 1), h@.take(i as int)),
        decreases h@.len() - i,
    {
        proof {
            lemma_fuzzy_step(q@, h@, k as int, i as int);
        }
        if lower_char(h[i]) == lower_char(q[k]) {
            if k + 1 == n {
                proof {
                    assert(q@.take(k + 1) =~= q@);
                    lemma_fuzzy_in_longer(q@, h@, i + 1);
                }
                return true;
            }
            k = k + 1;
        }
        i = i + 1;
    }
    proof {
        assert(h@.take(i as int) =~= h@);
        if fuzzy(q@, h@) {
            let at = places(q@, h@);
            assert(embeds(q@.take(k + 1), h@, at.take(k + 1)));
        }
    }
    false
}

/// `s` without the slashes behind.
pub open spec fn without_slashes(s: Seq<char>) -> Seq<char>
    decreases s.len(),
{
    if s.len() > 0 && s.last() == '/' {
        without_slashes(s.drop_last())
    } else {
        s
    }
}

/// What `host[:port][/session]` means: the address, and the session to attach to where one is
/// named. A slash with nothing behind it names none and is no part of the address.
pub open spec fn remote_target(raw: Seq<char>) -> (Seq<char>, Option<Seq<char>>) {
    let t = trimmed(raw);
    match search(t, seq!['/'], 0) {
        Some(p) if trimmed(t.skip(p + 1)).len() > 0 => (
            trimmed(t.take(p)),
            Some(trimmed(t.skip(p + 1))),
        ),
        _ => (trimmed(without_slashes(t)), None),
    }
}

/// Splits `host[:port][/session]` into the address and the session to attach to.
pub fn parse_remote_attach(raw: &str) -> (r: (String, Option<String>))
    ensures
        r.0@ == remote_target(raw@).0,
        match r.1 {
            Some(s) => remote_target(raw@).1 == Some(s@),
            None => remote_target(raw@).1 is None,
        },
{
    let t = trim(raw);
    let v = chars_of(t.as_str());
    let mut slash: Vec<char> = Vec::new();
    slash.push('/');
    proof {
        assert(slash@ =~= seq!['/']);
    }
    let at = find_from(&v, &slash, 0);
    if let Some(p) = at {
        let rest = string_from(&v, p + 1, v.len());
        proof {
            assert(rest@ =~= v@.skip(p + 1));
        }
        let session = trim(rest.as_str());
        if !session.as_str().is_empty() {
            let head = string_from(&v, 0, p);
            proof {
                assert(head@ =~= v@.take(p as int));
            }
            return (trim(head.as_str()), Some(session));
        }
    }
    let mut n: usize = v.len();
    proof {
        assert(v@.take(n as int) =~= v@);
    }
    while n > 0 && v[n - 1] == '/'
        invariant
            n <= v@.len(),
            without_slashes(v@.take(n as int)) == without_slashes(v@),
        decreases n,
    {
        proof {
            assert(v@.take(n as int).drop_last() =~= v@.take(n - 1));
        }
        n = n - 1;
    }
    let bare = string_from(&v, 0, n);
    proof {
        assert(bare@ =~= v@.take(n as int));
    }
    (trim(bare.as_str()), None)
}

/// Whether a byte ends a word: white space, a bracket or a quote.
pub open spec fn ends_word(b: u8) -> bool {
    b == 0x20 || b == 0x09 || b == 0x0a || b == 0x0c || b == 0x0d || b == 0x28 || b == 0x29 || b
        == 0x22 || b == 0x27 || b == 0x3c || b == 0x3e || b == 0x5b || b == 0x5d
}

fn word_end_byte(b: u8) -> (r: bool)
    ensures
        r == ends_word(b),
{
    b == 0x20 || b == 0x09 || b == 0x0a || b == 0x0c || b == 0x0d || b == 0x28 || b == 0x29 || b
        == 0x22 || b == 0x27 || b == 0x3c || b == 0x3e || b == 0x5b || b == 0x5d
}

/// Where the word that reaches up to `col` starts.
pub open spec fn word_start(bytes: Seq<u8>, col: int) -> int
    decreases col,
{
    if 0 < col <= bytes.len() && !ends_word(bytes[col - 1]) {
        word_start(bytes, col - 1)
    } else {
        col
    }
}

/// Where the word that reaches from `col` on ends.
pub open spec fn word_stop(bytes: Seq<u8>, col: int) -> int
    decreases bytes.len() - col,
{
    if 0 <= col < bytes.len() && !ends_word(bytes[col]) {
        word_stop(bytes, col + 1)
    } else {
        col
    }
}

/// Right behind an ASCII byte a character starts, or the text ends.
proof fn lemma_after_ascii(bytes: Seq<u8>, i: int)
    requires
        valid_utf8(bytes),
        0 <= i < bytes.len(),
        bytes[i] < 0x80,
    ensures
        is_char_boundary(bytes, i + 1),
    decreases bytes.len(),
{
    let n = length_of_first_scalar(bytes);
    let rest = pop_first_scalar(bytes);
    if i < n {
        assert(n == 1);
        reveal_with_fuel(is_char_boundary, 2);
    } else {
        assert(rest[i - n] == bytes[i]);
        lemma_after_ascii(rest, i - n);
        assert(is_char_boundary(rest, i + 1 - n));
    }
}

/// The word around byte `col` of a line: the run of bytes on both sides up to white space, a
/// bracket or a quote. A column past the end means the end. Empty where nothing is on either side.
pub fn expand_click_word(line: &str, col: usize) -> (r: &str)
    ensures
        ({
            let b = encode_utf8(line@);
            let c = if col < b.len() {
                col as int
            } else {
                b.len() as int
            };
            encode_utf8(r@) == b.subrange(word_start(b, c), word_stop(b, c))
        }),
{
    let bytes = line.as_bytes();
    let ghost b = encode_utf8(line@);
    let at: usize = if col < bytes.len() {
        col
    } else {
        bytes.len()
    };
    let mut start: usize = at;
    while start > 0 && !word_end_byte(bytes[start - 1])
        invariant
            bytes@ == b,
            start <= at <= b.len(),
            word_start(b, at as int) == word_start(b, start as int),
        decreases start,
    {
        start = start - 1;
    }
    let mut end: usize = at;
    while end < bytes.len() && !word_end_byte(bytes[end])
        invariant
            bytes@ == b,
            at <= end <= b.len(),
            word_stop(b, at as int) == word_stop(b, end as int),
        decreases b.len() - end,
    {
        end = end + 1;
    }
    proof {
        encode_utf8_valid_utf8(line@);
        is_char_boundary_start_end_of_seq(b);
        if start > 0 {
            lemma_after_ascii(b, start - 1);
        }
        valid_utf8_split(b, start as int);
        let rest = b.subrange(start as int, b.len() as int);
        is_char_boundary_start_end_of_seq(rest);
        if end < b.len() {
            assert(rest[end - start] == b[end as int]);
            is_char_boundary_iff_is_leading_byte(rest, end - start);
            assert(is_leading_byte_width_1(rest[end - start]));
        }
    }
    let (_, tail) = line.split_at(start);
    let (word, _) = tail.split_at(end - start);
    proof {
        assert(encode_utf8(word@) =~= b.subrange(start as int, end as int));
    }
    word
}

/// Where the character with number `col` of a line starts in its bytes, or where the line ends.
pub open spec fn byte_of(line: Seq<char>, col: int) -> int {
    if col < line.len() {
        encode_utf8(line.take(col)).len() as int
    } else {
        encode_utf8(line).len() as int
    }
}

/// What is opened by a click on a cell of a line: the link that was found there, else the word
/// around the cell, which may be empty.
pub fn click_target(url: Option<&str>, line: &str, col: usize) -> (r: String)
    ensures
        match url {
            Some(u) => u@.len() > 0 ==> r@ == u@,
            None => true,
        },
        url is None || url->0@.len() == 0 ==> ({
            let b = encode_utf8(line@);
            let c = byte_of(line@, col as int);
            encode_utf8(r@) == if c < b.len() {
                b.subrange(word_start(b, c), word_stop(b, c))
            } else {
                b.subrange(word_start(b, b.len() as int), word_stop(b, b.len() as int))
            }
        }),
{
    if let Some(u) = url {
        if !u.is_empty() {
            return copy_text(u);
        }
    }
    let v = chars_of(line);
    let at: usize = if col < v.len() {
        let front = string_from(&v, 0, col);
        proof {
            assert(front@ =~= line@.take(col as int));
        }
        front.as_str().as_bytes().len()
    } else {
        line.as_bytes().len()
    };
    copy_text(expand_click_word(line, at))
}

/// The list without one text.
pub open spec fn without_text(s: Seq<Seq<char>>, q: Seq<char>) -> Seq<Seq<char>> {
    s.filter(other_than(q))
}

/// Whether a text is not `q`.
pub open spec fn other_than(q: Seq<char>) -> spec_fn(Seq<char>) -> bool {
    |t: Seq<char>| t != q
}

/// The list with a text put in front, older copies of it dropped, and at most `cap` kept. An empty
/// text changes nothing.
pub open spec fn recalled(s: Seq<Seq<char>>, q: Seq<char>, cap: int) -> Seq<Seq<char>> {
    if q.len() == 0 {
        s
    } else {
        let all = seq![q] + without_text(s, q);
        if all.len() <= cap {
            all
        } else {
            all.take(cap)
        }
    }
}

/// Puts a query in front of a most-recent-first list, so that each stands there once and at most
/// `cap` are kept. An empty query changes nothing.
pub fn prepend_capped(hist: &mut Vec<String>, q: &str, cap: usize)
    ensures
        texts(final(hist)@) == recalled(texts(old(hist)@), q@, cap as int),
{
    if q.is_empty() {
        return ;
    }
    let ghost was = texts(hist@);
    let mut out: Vec<String> = Vec::new();
    out.push(copy_text(q));
    proof {
        assert(texts(out@) =~= seq![q@]);
    }
    let mut i: usize = 0;
    while i < hist.len()
        invariant
            i <= hist@.len(),
            was == texts(hist@),
            texts(out@) == seq![q@] + without_text(was.take(i as int), q@),
        decreases hist@.len() - i,
    {
        let ghost had = texts(out@);
        proof {
            reveal(Seq::filter);
            assert(was.take(i + 1).drop_last() =~= was.take(i as int));
        }
        if !same_text(hist[i].as_str(), q) {
            out.push(copy_text(hist[i].as_str()));
            proof {
                assert(texts(out@) =~= had.push(was[i as int]));
                assert(texts(out@) =~= seq![q@] + without_text(was.take(i + 1), q@));
            }
        }
        i = i + 1;
    }
    proof {
        assert(was.take(i as int) =~= was);
    }
    let ghost all = texts(out@);
    if out.len() > cap {
        let ghost full = out@;
        out.truncate(cap);
        proof {
            assert(out@ =~= full.take(cap as int));
            assert(texts(out@) =~= all.take(cap as int));
        }
    }
    *hist = out;
}

/// A recalled query stands in front and nowhere else, and the list never outgrows its cap.
pub proof fn law_recalled_once(s: Seq<Seq<char>>, q: Seq<char>, cap: int)
    requires
        q.len() > 0,
        cap > 0,
    ensures
        recalled(s, q, cap).len() <= cap,
        recalled(s, q, cap)[0] == q,
        forall|i: int| 0 < i < recalled(s, q, cap).len() ==> recalled(s, q, cap)[i] != q,
{
    let rest = without_text(s, q);
    let p = other_than(q);
    s.lemma_filter_len(p);
    assert forall|i: int| 0 < i < recalled(s, q, cap).len() implies recalled(s, q, cap)[i] != q by {
        assert(recalled(s, q, cap)[i] == rest[i - 1]);
        assert(rest.contains(rest[i - 1]));
        lemma_kept(s, p, i - 1);
    }
}

proof fn lemma_kept(s: Seq<Seq<char>>, p: spec_fn(Seq<char>) -> bool, i: int)
    requires
        0 <= i < s.filter(p).len(),
    ensures
        p(s.filter(p)[i]),
    decreases s.len(),
{
    reveal(Seq::filter);
    if s.len() > 0 {
        if i < s.drop_last().filter(p).len() {
            lemma_kept(s.drop_last(), p, i);
        }
    }
}

/// Where the shown part of a long line starts: half the window in front of the column, but no
/// further right than the window fits.
pub open spec fn snippet_start(len: int, col: int, window: int) -> int {
    let c = if col < len - 1 {
        col
    } else {
        len - 1
    };
    let s = if c < window / 2 {
        0
    } else {
        c - window / 2
    };
    if s + window > len {
        len - window
    } else {
        s
    }
}

/// The part of a line around a column, in at most `max` characters, with an ellipsis on each side
/// that was cut.
pub open spec fn snippet(row: Seq<char>, col: int, max: int) -> Seq<char> {
    if row.len() <= max {
        row
    } else if max <= 0 {
        Seq::empty()
    } else if max == 1 {
        seq!['…']
    } else {
        let s = snippet_start(row.len() as int, col, max - 2);
        let body = row.subrange(s, s + max - 2);
        let front = if s > 0 {
            seq!['…'] + body
        } else {
            body
        };
        if s + max - 2 < row.len() {
            front.push('…')
        } else {
            front
        }
    }
}

/// The part of a line around column `col`, in at most `max` characters, with an ellipsis on each
/// side that was cut; so a match in the middle of a long line is seen. A line that fits stays
/// whole.
pub fn focus_snippet(row: &str, col: usize, max: usize) -> (r: String)
    ensures
        r@ == snippet(row@, col as int, max as int),
{
    let v = chars_of(row);
    if v.len() <= max {
        return copy_text(row);
    }
    if max == 0 {
        return String::new();
    }
    if max == 1 {
        let mut dots: String = String::new();
        dots.push('…');
        proof {
            assert(dots@ =~= seq!['…']);
        }
        return dots;
    }
    let last: usize = v.len() - 1;
    let c: usize = if col < last {
        col
    } else {
        last
    };
    let window: usize = max - 2;
    let half: usize = window / 2;
    let mut start: usize = c.saturating_sub(half);
    if start > v.len() - window {
        start = v.len() - window;
    }
    let end: usize = start + window;
    let mut s: String = String::new();
    let mut i: usize = start;
    if start > 0 {
        s.push('…');
    }
    let ghost lead = s@;
    while i < end
        invariant
            start <= i <= end <= v@.len(),
            s@ == lead + v@.subrange(start as int, i as int),
        decreases end - i,
    {
        s.push(v[i]);
        proof {
            assert(v@.subrange(start as int, i + 1) =~= v@.subrange(start as int, i as int).push(
                v@[i as int],
            ));
            assert(s@ =~= lead + v@.subrange(start as int, i + 1));
        }
        i = i + 1;
    }
    if end < v.len() {
        s.push('…');
    }
    proof {
        assert(s@ =~= snippet(row@, col as int, max as int));
    }
    s
}

/// A snippet keeps to its bound.
pub proof fn law_snippet_fits(row: Seq<char>, col: int, max: int)
    requires
        0 <= col,
        0 <= max,
    ensures
        snippet(row, col, max).len() <= max,
{
}

/// A snippet with room for it shows the character it is centered on.
pub proof fn law_snippet_shows_column(row: Seq<char>, col: int, max: int)
    requires
        0 <= col < row.len(),
        3 <= max,
    ensures
        snippet(row, col, max).contains(row[col]),
{
    if row.len() <= max {
        assert(snippet(row, col, max)[col] == row[col]);
    } else {
        let s = snippet_start(row.len() as int, col, max - 2);
        let at = col - s + (if s > 0 {
            1int
        } else {
            0
        });
        assert(snippet(row, col, max)[at] == row[col]);
    }
}

} // verus!
