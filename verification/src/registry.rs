//! The shared collection of live agents, and population control.
//!
//! Culling is two passes: a hard removal of agents at or below the death
//! floor, and a soft population cap that keeps only the strongest agents,
//! ranked by energy with ties broken by original order.

use vstd::prelude::*;
use crate::node::Node;

verus! {

/// Agents at or below this energy are removed by the death cull.
pub const DEATH_FLOOR: u64 = 5_000;

/// Population size above which the cap cull fires.
pub const POPULATION_CEILING: usize = 120;

/// How many agents the cap cull keeps.
pub const POPULATION_KEEP: usize = 80;

/// Population size above which an evolution pass is skipped outright.
pub const OVERPOPULATION_SKIP: usize = 400;

/// An agent survives the death cull while its energy is above the floor.
pub open spec fn above_death_floor() -> spec_fn(Node) -> bool {
    |n: Node| n.energy.level > DEATH_FLOOR
}

/// The index of the first agent with maximal energy in `s[from..]`.
pub open spec fn argmax_from(s: Seq<Node>, from: int) -> int
    recommends
        0 <= from < s.len(),
    decreases s.len() - from,
{
    if from >= s.len() - 1 {
        from
    } else {
        let rest = argmax_from(s, from + 1);
        if s[from].energy.level >= s[rest].energy.level {
            from
        } else {
            rest
        }
    }
}

/// The `k` strongest agents of `s`, energy descending, ties by original
/// order: pick the first maximum, then recurse on what is left.
pub open spec fn select_top(s: Seq<Node>, k: nat) -> Seq<Node>
    decreases k,
{
    if k == 0 || s.len() == 0 {
        Seq::empty()
    } else {
        let i = argmax_from(s, 0);
        seq![s[i]] + select_top(s.remove(i), (k - 1) as nat)
    }
}

/// `argmax_from` returns the first index of the maximum of `s[from..]`.
pub proof fn lemma_argmax_from(s: Seq<Node>, from: int)
    requires
        0 <= from < s.len(),
    ensures
        from <= argmax_from(s, from) < s.len(),
        forall|k: int|
            from <= k < s.len() ==> (#[trigger] s[k]).energy.level <= s[argmax_from(
                s,
                from,
            )].energy.level,
        forall|k: int|
            from <= k < argmax_from(s, from) ==> (#[trigger] s[k]).energy.level < s[argmax_from(
                s,
                from,
            )].energy.level,
    decreases s.len() - from,
{
    if from < s.len() - 1 {
        lemma_argmax_from(s, from + 1);
    }
}

/// Drop every agent whose energy is at or below the death floor; the
/// survivors keep their order.
pub fn death_cull(nodes: &mut Vec<Node>)
    ensures
        final(nodes)@ =~= old(nodes)@.filter(above_death_floor()),
        final(nodes)@.len() <= old(nodes)@.len(),
{
    let mut src = nodes.split_off(0);
    proof {
        assert(nodes@ =~= Seq::<Node>::empty());
        broadcast use vstd::prelude::Seq::lemma_filter_len;

    }
    let ghost orig = src@;
    let ghost mut i: int = 0;
    while src.len() > 0
        invariant
            0 <= i <= orig.len(),
            src@ =~= orig.skip(i),
            nodes@.len() <= i,
            nodes@ =~= orig.take(i).filter(above_death_floor()),
        decreases src@.len(),
    {
        let n = src.remove(0);
        proof {
            assert(n == orig[i]);
            assert(src@ =~= orig.skip(i + 1));
        }
        if n.energy.level > DEATH_FLOOR {
            nodes.push(n);
        }
        proof {
            i = i + 1;
            assert(orig.take(i).drop_last() =~= orig.take(i - 1));
            assert(orig.take(i).last() == orig[i - 1]);
            reveal_with_fuel(Seq::filter, 2);
        }
    }
    proof {
        assert(i == orig.len());
        assert(orig.take(orig.len() as int) =~= orig);
        assert(orig =~= old(nodes)@);
    }
}

/// The number selected: all of `s`, up to `k`.
pub proof fn lemma_select_top_len(s: Seq<Node>, k: nat)
    ensures
        select_top(s, k).len() == if k <= s.len() {
            k as int
        } else {
            s.len() as int
        },
    decreases k,
{
    if k > 0 && s.len() > 0 {
        lemma_argmax_from(s, 0);
        lemma_select_top_len(s.remove(argmax_from(s, 0)), (k - 1) as nat);
    }
}

/// What the cap cull keeps is ordered strongest first.
pub proof fn lemma_select_top_sorted(s: Seq<Node>, k: nat)
    ensures
        forall|a: int, b: int|
            0 <= a < b < select_top(s, k).len() ==> (#[trigger] select_top(s, k)[a]).energy.level
                >= (#[trigger] select_top(s, k)[b]).energy.level,
    decreases k,
{
    if k > 0 && s.len() > 0 {
        let i = argmax_from(s, 0);
        lemma_argmax_from(s, 0);
        let rest = s.remove(i);
        lemma_select_top_sorted(rest, (k - 1) as nat);
        lemma_select_top_members(rest, (k - 1) as nat);
        let out = select_top(s, k);
        let sub = select_top(rest, (k - 1) as nat);
        assert forall|a: int, b: int| 0 <= a < b < out.len() implies (
        #[trigger] out[a]).energy.level >= (#[trigger] out[b]).energy.level by {
            assert(out[0] == s[i]);
            assert(out[b] == sub[b - 1]);
            if a == 0 {
                assert(exists|w: int| 0 <= w < rest.len() && rest[w] == #[trigger] sub[b - 1]);
                let w = choose|w: int| 0 <= w < rest.len() && rest[w] == sub[b - 1];
                if w < i {
                    assert(rest[w] == s[w]);
                } else {
                    assert(rest[w] == s[w + 1]);
                }
            } else {
                assert(out[a] == sub[a - 1]);
                assert(sub[a - 1].energy.level >= sub[b - 1].energy.level);
            }
        }
    }
}

/// Everything selected was in the collection.
pub proof fn lemma_select_top_members(s: Seq<Node>, k: nat)
    ensures
        forall|a: int|
            0 <= a < select_top(s, k).len() ==> (exists|w: int|
                0 <= w < s.len() && s[w] == #[trigger] select_top(s, k)[a]),
    decreases k,
{
    if k > 0 && s.len() > 0 {
        let i = argmax_from(s, 0);
        lemma_argmax_from(s, 0);
        let rest = s.remove(i);
        lemma_select_top_members(rest, (k - 1) as nat);
        let out = select_top(s, k);
        assert forall|a: int| 0 <= a < out.len() implies (exists|w: int|
            0 <= w < s.len() && s[w] == #[trigger] out[a]) by {
            if a == 0 {
                assert(s[i] == out[0]);
            } else {
                let sub = select_top(rest, (k - 1) as nat);
                assert(out[a] == sub[a - 1]);
                let w = choose|w: int| 0 <= w < rest.len() && rest[w] == sub[a - 1];
                if w < i {
                    assert(s[w] == out[a]);
                } else {
                    assert(s[w + 1] == out[a]);
                }
            }
        }
    }
}

/// The position of the first strongest agent.
fn first_strongest(nodes: &Vec<Node>) -> (best: usize)
    requires
        nodes@.len() > 0,
    ensures
        best as int == argmax_from(nodes@, 0),
{
    let mut best: usize = 0;
    let mut c: usize = 1;
    while c < nodes.len()
        invariant
            best < c <= nodes@.len(),
            forall|j: int|
                0 <= j < c ==> (#[trigger] nodes@[j]).energy.level <= nodes@[best as int].energy.level,
            forall|j: int|
                0 <= j < best ==> (#[trigger] nodes@[j]).energy.level < nodes@[best as int].energy.level,
        decreases nodes@.len() - c,
    {
        if nodes[c].energy.level > nodes[best].energy.level {
            best = c;
        }
        c = c + 1;
    }
    proof {
        lemma_argmax_from(nodes@, 0);
        let a = argmax_from(nodes@, 0);
        if best < a {
            assert(nodes@[best as int].energy.level < nodes@[a].energy.level);
        }
        if a < best {
            assert(nodes@[a].energy.level < nodes@[best as int].energy.level);
        }
    }
    best
}

/// When the population exceeds `ceiling`, keep only the `keep` strongest
/// agents, energy descending with ties broken by original order; otherwise
/// leave the collection alone.
pub fn cap_cull(nodes: &mut Vec<Node>, ceiling: usize, keep: usize)
    requires
        keep <= ceiling,
    ensures
        old(nodes)@.len() <= ceiling ==> final(nodes)@ == old(nodes)@,
        old(nodes)@.len() > ceiling ==> final(nodes)@ =~= select_top(old(nodes)@, keep as nat)
            && final(nodes)@.len() == keep,
{
    if nodes.len() <= ceiling {
        return ;
    }
    let mut src = nodes.split_off(0);
    proof {
        assert(nodes@ =~= Seq::<Node>::empty());
        assert(src@ =~= old(nodes)@);
    }
    let ghost orig = src@;
    let mut r: usize = 0;
    while r < keep
        invariant
            r <= keep,
            keep <= ceiling,
            orig.len() > ceiling,
            src@.len() == orig.len() - r,
            nodes@.len() == r,
            nodes@ + select_top(src@, (keep - r) as nat) =~= select_top(orig, keep as nat),
        decreases keep - r,
    {
        let ghost s_before = src@;
        let ghost n_before = nodes@;
        let best = first_strongest(&src);
        proof {
            lemma_argmax_from(s_before, 0);
        }
        let picked = src.remove(best);
        nodes.push(picked);
        r = r + 1;
        proof {
            assert(select_top(s_before, (keep - r + 1) as nat) =~= seq![s_before[best as int]]
                + select_top(src@, (keep - r) as nat));
            assert(nodes@ + select_top(src@, (keep - r) as nat) =~= n_before + select_top(
                s_before,
                (keep - r + 1) as nat,
            ));
        }
    }
    proof {
        assert(select_top(src@, 0) =~= Seq::<Node>::empty());
        assert(nodes@ =~= nodes@ + select_top(src@, 0));
        assert(orig =~= old(nodes)@);
    }
}

/// Everything that survives a filter was in the collection.
pub proof fn lemma_filter_members(s: Seq<Node>, pred: spec_fn(Node) -> bool)
    ensures
        forall|a: int|
            0 <= a < s.filter(pred).len() ==> (exists|w: int|
                0 <= w < s.len() && s[w] == #[trigger] s.filter(pred)[a]),
    decreases s.len(),
{
    reveal_with_fuel(Seq::filter, 2);
    if s.len() > 0 {
        lemma_filter_members(s.drop_last(), pred);
        let f = s.filter(pred);
        let fd = s.drop_last().filter(pred);
        assert forall|a: int| 0 <= a < f.len() implies (exists|w: int|
            0 <= w < s.len() && s[w] == #[trigger] f[a]) by {
            if a < fd.len() {
                let w = choose|w: int| 0 <= w < s.drop_last().len() && s.drop_last()[w] == fd[a];
                assert(s[w] == f[a]);
            } else {
                assert(f[a] == s.last());
                assert(s[s.len() - 1] == f[a]);
            }
        }
    }
}

/// An agent at or below the death floor is absent after the death cull.
pub proof fn lemma_death_cull_excludes(s: Seq<Node>, n: Node)
    requires
        n.energy.level <= DEATH_FLOOR,
    ensures
        !s.filter(above_death_floor()).contains(n),
{
    broadcast use vstd::prelude::Seq::lemma_filter_pred;

    let f = s.filter(above_death_floor());
    if f.contains(n) {
        let i = choose|i: int| 0 <= i < f.len() && f[i] == n;
        assert(above_death_floor()(f[i]));
    }
}

} // verus!
