//! Facts about sequences that several parts of the library share: what comes first, what is kept,
//! and what moving or swapping slots does.

use vstd::prelude::*;

verus! {

/// Whether a text is among those listed.
pub open spec fn listed(s: Seq<Seq<char>>, t: Seq<char>) -> bool {
    exists|i: int| 0 <= i < s.len() && #[trigger] s[i] == t
}

/// The texts of a list without repetition, in the order of their first occurrence.
pub open spec fn firsts(s: Seq<Seq<char>>) -> Seq<Seq<char>>
    decreases s.len(),
{
    if s.len() == 0 {
        s
    } else {
        let front = firsts(s.drop_last());
        if listed(front, s.last()) {
            front
        } else {
            front.push(s.last())
        }
    }
}

/// What stands in [`firsts`] stands there once, comes from the list, and nothing of the list is
/// missing.
pub proof fn lemma_firsts(s: Seq<Seq<char>>)
    ensures
        forall|i: int, j: int| 0 <= i < j < firsts(s).len() ==> firsts(s)[i] != firsts(s)[j],
        forall|i: int| 0 <= i < firsts(s).len() ==> listed(s, #[trigger] firsts(s)[i]),
        forall|i: int| 0 <= i < s.len() ==> listed(firsts(s), #[trigger] s[i]),
        firsts(s).len() <= s.len(),
    decreases s.len(),
{
    if s.len() > 0 {
        let front = s.drop_last();
        let old = firsts(front);
        lemma_firsts(front);
        assert forall|i: int| 0 <= i < firsts(s).len() implies listed(
            s,
            #[trigger] firsts(s)[i],
        ) by {
            if i < old.len() {
                assert(listed(front, old[i]));
                let k = choose|k: int| 0 <= k < front.len() && #[trigger] front[k] == old[i];
                assert(s[k] == old[i]);
            } else {
                assert(s[s.len() - 1] == firsts(s)[i]);
            }
        }
        assert forall|i: int| 0 <= i < s.len() implies listed(firsts(s), #[trigger] s[i]) by {
            if i < front.len() {
                assert(listed(old, front[i]));
                let k = choose|k: int| 0 <= k < old.len() && #[trigger] old[k] == front[i];
                assert(firsts(s)[k] == s[i]);
            } else if listed(old, s.last()) {
            } else {
                assert(firsts(s)[old.len() as int] == s[i]);
            }
        }
        assert forall|i: int, j: int| 0 <= i < j < firsts(s).len() implies firsts(s)[i]
            != firsts(s)[j] by {
            if j == old.len() {
                assert(old[i] == firsts(s)[i]);
            }
        }
    }
}

/// The indices at which a mask is set, in order.
pub open spec fn set_indices(mask: Seq<bool>) -> Seq<int>
    decreases mask.len(),
{
    if mask.len() == 0 {
        Seq::empty()
    } else {
        let front = set_indices(mask.drop_last());
        if mask.last() {
            front.push(mask.len() - 1)
        } else {
            front
        }
    }
}

/// The indices of a list as plain integers.
pub open spec fn ints(v: Seq<usize>) -> Seq<int> {
    v.map_values(|i: usize| i as int)
}

/// The indices at which a mask is set, in order.
pub fn indices_set(mask: &[bool]) -> (r: Vec<usize>)
    ensures
        ints(r@) == set_indices(mask@),
{
    let mut out: Vec<usize> = Vec::new();
    let mut i: usize = 0;
    while i < mask.len()
        invariant
            i <= mask@.len(),
            ints(out@) == set_indices(mask@.take(i as int)),
        decreases mask@.len() - i,
    {
        proof {
            assert(mask@.take(i + 1).drop_last() =~= mask@.take(i as int));
        }
        if mask[i] {
            let ghost had = ints(out@);
            out.push(i);
            proof {
                assert(ints(out@) =~= had.push(i as int));
            }
        }
        i = i + 1;
    }
    proof {
        assert(mask@.take(i as int) =~= mask@);
    }
    out
}

/// Exactly the set positions are listed.
pub proof fn lemma_set_indices(mask: Seq<bool>)
    ensures
        forall|k: int|
            0 <= k < set_indices(mask).len() ==> 0 <= #[trigger] set_indices(mask)[k] < mask.len()
                && mask[set_indices(mask)[k]],
        forall|i: int| 0 <= i < mask.len() && #[trigger] mask[i] ==> set_indices(mask).contains(i),
        forall|j: int, k: int|
            0 <= j < k < set_indices(mask).len() ==> set_indices(mask)[j] < set_indices(mask)[k],
        set_indices(mask).len() <= mask.len(),
    decreases mask.len(),
{
    if mask.len() > 0 {
        let front = mask.drop_last();
        let old = set_indices(front);
        let all = set_indices(mask);
        lemma_set_indices(front);
        assert forall|i: int| 0 <= i < mask.len() && #[trigger] mask[i] implies all.contains(i) by {
            if i < front.len() {
                assert(front[i]);
                let k = old.index_of(i);
                assert(all[k] == i);
            } else {
                assert(all[all.len() - 1] == i);
            }
        }
    }
}

/// The sequence with two places swapped; a place outside changes nothing.
pub open spec fn swapped<T>(s: Seq<T>, a: int, b: int) -> Seq<T> {
    if a != b && 0 <= a < s.len() && 0 <= b < s.len() {
        s.update(a, s[b]).update(b, s[a])
    } else {
        s
    }
}

/// Swaps two slots of a tab-parallel vector, so that what belongs to a session follows it.
pub fn swap_slot<T>(v: &mut Vec<T>, a: usize, b: usize)
    ensures
        final(v)@ == swapped(old(v)@, a as int, b as int),
{
    if a != b && a < v.len() && b < v.len() {
        let (lo, hi) = if a < b {
            (a, b)
        } else {
            (b, a)
        };
        let ghost was = v@;
        let y = v.remove(hi);
        let x = v.remove(lo);
        v.insert(lo, y);
        v.insert(hi, x);
        proof {
            assert(v@ =~= swapped(was, a as int, b as int));
        }
    }
}

/// The sequence with the element at `from` taken out and put back so that it stands at `to`, or
/// last where `to` is past the end. A `from` outside changes nothing.
pub open spec fn moved<T>(s: Seq<T>, from: int, to: int) -> Seq<T> {
    if 0 <= from < s.len() {
        let rest = s.remove(from);
        rest.insert(
            if to < rest.len() {
                to
            } else {
                rest.len() as int
            },
            s[from],
        )
    } else {
        s
    }
}

/// Moves a slot of a tab-parallel vector; see [`moved`].
pub fn move_slot<T>(v: &mut Vec<T>, from: usize, to: usize)
    ensures
        final(v)@ == moved(old(v)@, from as int, to as int),
{
    if from < v.len() {
        let x = v.remove(from);
        let at: usize = if to < v.len() {
            to
        } else {
            v.len()
        };
        v.insert(at, x);
    }
}

/// Swapping twice changes nothing.
pub proof fn law_swap_twice<T>(s: Seq<T>, a: int, b: int)
    ensures
        swapped(swapped(s, a, b), a, b) == s,
{
    assert(swapped(swapped(s, a, b), a, b) =~= s);
}

/// Moving an element there and back changes nothing.
pub proof fn law_move_back<T>(s: Seq<T>, from: int, to: int)
    requires
        0 <= from < s.len(),
        0 <= to < s.len(),
    ensures
        moved(moved(s, from, to), to, from) == s,
{
    assert(moved(moved(s, from, to), to, from) =~= s);
}

/// Two parallel sequences stay aligned when both are swapped the same way: each element stands
/// beside the one it stood beside before.
pub proof fn law_swap_keeps_alignment<S, T>(s: Seq<S>, t: Seq<T>, a: int, b: int)
    requires
        s.len() == t.len(),
    ensures
        swapped(s, a, b).len() == s.len(),
        swapped(t, a, b).len() == t.len(),
        forall|i: int|
            0 <= i < s.len() ==> exists|j: int|
                0 <= j < s.len() && #[trigger] swapped(s, a, b)[i] == s[j] && swapped(t, a, b)[i]
                    == t[j],
{
    assert forall|i: int| 0 <= i < s.len() implies exists|j: int|
        0 <= j < s.len() && #[trigger] swapped(s, a, b)[i] == s[j] && swapped(t, a, b)[i]
            == t[j] by {
        let j = if a != b && 0 <= a < s.len() && 0 <= b < s.len() {
            if i == a {
                b
            } else if i == b {
                a
            } else {
                i
            }
        } else {
            i
        };
        assert(swapped(s, a, b)[i] == s[j] && swapped(t, a, b)[i] == t[j]);
    }
}

/// The same for a move.
pub proof fn law_move_keeps_alignment<S, T>(s: Seq<S>, t: Seq<T>, from: int, to: int)
    requires
        s.len() == t.len(),
        0 <= to,
    ensures
        moved(s, from, to).len() == s.len(),
        moved(t, from, to).len() == t.len(),
        forall|i: int|
            0 <= i < s.len() ==> exists|j: int|
                0 <= j < s.len() && #[trigger] moved(s, from, to)[i] == s[j] && moved(
                    t,
                    from,
                    to,
                )[i] == t[j],
{
    assert forall|i: int| 0 <= i < s.len() implies exists|j: int|
        0 <= j < s.len() && #[trigger] moved(s, from, to)[i] == s[j] && moved(t, from, to)[i]
            == t[j] by {
        if 0 <= from < s.len() {
            let at = if to < s.len() - 1 {
                to
            } else {
                s.len() - 1
            };
            let j = if i == at {
                from
            } else if i < at {
                if i < from {
                    i
                } else {
                    i + 1
                }
            } else {
                if i - 1 < from {
                    i - 1
                } else {
                    i
                }
            };
            assert(moved(s, from, to)[i] == s[j] && moved(t, from, to)[i] == t[j]);
        } else {
            assert(moved(s, from, to)[i] == s[i] && moved(t, from, to)[i] == t[i]);
        }
    }
}

/// A swap exchanges the two places and leaves every other one as it is.
pub proof fn law_swap_exchanges<T>(s: Seq<T>, a: int, b: int, i: int)
    requires
        0 <= a < s.len(),
        0 <= b < s.len(),
        0 <= i < s.len(),
    ensures
        swapped(s, a, b)[a] == s[b],
        swapped(s, a, b)[b] == s[a],
        i != a && i != b ==> swapped(s, a, b)[i] == s[i],
        swapped(s, a, b).len() == s.len(),
{
}

/// A move brings the element to its new place; those that it passes step one place toward where it
/// came from, and all others stay.
pub proof fn law_move_carries<T>(s: Seq<T>, from: int, to: int, i: int)
    requires
        0 <= from < s.len(),
        0 <= to < s.len(),
        0 <= i < s.len(),
    ensures
        moved(s, from, to).len() == s.len(),
        moved(s, from, to)[to] == s[from],
        from <= i < to ==> moved(s, from, to)[i] == s[i + 1],
        to < i <= from ==> moved(s, from, to)[i] == s[i - 1],
        i < from && i < to ==> moved(s, from, to)[i] == s[i],
        i > from && i > to ==> moved(s, from, to)[i] == s[i],
{
}

} // verus!
