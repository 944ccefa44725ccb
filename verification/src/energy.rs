//! The Resource Cell: a guarded scalar energy level owned by one agent.
//!
//! Levels are milli-units. Operations clamp rather than fail: consuming
//! floors at zero, restoring caps at [`ENERGY_CAP`]. Flows elsewhere may
//! push a level above the cap on purpose; the cap is restore policy, not an
//! invariant of the cell.

use vstd::prelude::*;
use vstd::string::StringExecFns;
use crate::fixmath::min_int;
use crate::node::Node;
use crate::rng::draw_below;
use crate::numfmt::milli_str;
use crate::numfmt::push_milli;

verus! {

/// The level a cell holds after draining `amount`: floored at zero.
pub open spec fn consumed_level(level: nat, amount: nat) -> int {
    if amount >= level {
        0int
    } else {
        level - amount
    }
}

/// The level a cell holds after a restore of `amount`: capped at
/// [`ENERGY_CAP`].
pub open spec fn restored_level(level: nat, amount: nat) -> int {
    min_int(ENERGY_CAP as int, level + amount as int)
}

/// A cell that starts at or under the cap stays within `[0, cap]` under
/// both operations; a restore lands within the band from any level at all.
pub proof fn lemma_cell_ops_in_range(level: nat, amount: nat)
    ensures
        level <= ENERGY_CAP ==> 0 <= consumed_level(level, amount) <= ENERGY_CAP,
        0 <= restored_level(level, amount) <= ENERGY_CAP,
{
}

/// The level every cell starts at: one hundred units.
pub const ENERGY_START: u64 = 100_000;

/// The ceiling `restore` honours: one hundred units.
pub const ENERGY_CAP: u64 = 100_000;

/// A mutable energy level tagged with its owner's name.
#[derive(Debug)]
pub struct Energy {
    pub level: u64,
    pub node_name: String,
}

impl Clone for Energy {
    /// A copy with the same level and owner.
    fn clone(&self) -> (r: Self)
        ensures
            r.level == self.level,
            r.node_name@ == self.node_name@,
    {
        Energy { level: self.level, node_name: self.node_name.clone() }
    }
}

impl Energy {
    /// A fresh cell at the starting level.
    pub fn new(name: &str) -> (e: Energy)
        ensures
            e.level == ENERGY_START,
            e.node_name@ == name@,
    {
        Energy { level: ENERGY_START, node_name: name.to_owned() }
    }

    /// Drain `amount`, flooring at zero.
    pub fn consume(&mut self, amount: u64)
        ensures
            final(self).level == consumed_level(old(self).level as nat, amount as nat),
            final(self).node_name == old(self).node_name,
    {
        self.level = self.level.saturating_sub(amount);
    }

    /// Add `amount`, capping the result at [`ENERGY_CAP`]; a level already
    /// above the cap is pulled down to it.
    pub fn restore(&mut self, amount: u64)
        ensures
            final(self).level == restored_level(old(self).level as nat, amount as nat),
            final(self).node_name == old(self).node_name,
    {
        let raised = self.level.saturating_add(amount);
        self.level = if raised > ENERGY_CAP {
            ENERGY_CAP
        } else {
            raised
        };
    }

    /// Whether the cell is drained.
    pub fn is_exhausted(&self) -> (b: bool)
        ensures
            b == (self.level == 0),
    {
        self.level == 0
    }

    /// The owner's name and the level with two decimal places.
    pub fn status(&self) -> (s: String)
        ensures
            s@ == self.node_name@ + ": "@ + milli_str(self.level as nat),
    {
        let mut s = self.node_name.clone();
        s.append(": ");
        push_milli(&mut s, self.level);
        s
    }
}

/// Ambient energy maintenance across the whole population.
pub struct EnergySystem;

/// `b` is `a` with at most the energy level changed.
pub open spec fn same_but_level(a: Node, b: Node) -> bool {
    b == (Node { energy: Energy { level: b.energy.level, node_name: a.energy.node_name }, ..a })
}

/// The energy levels of a population, in order.
pub open spec fn levels_of(s: Seq<Node>) -> Seq<u64> {
    s.map_values(|n: Node| n.energy.level)
}

/// Agent `i` after its natural recovery of three tenths of a unit.
pub open spec fn regenerated(s: Seq<Node>, i: int) -> Seq<Node>
    recommends
        0 <= i < s.len(),
{
    s.update(
        i,
        Node {
            energy: Energy {
                level: restored_level(s[i].energy.level as nat, 300) as u64,
                node_name: s[i].energy.node_name,
            },
            ..s[i]
        },
    )
}

/// The conditional aid from `giver` to `receiver`: a tenth of the giver's
/// energy, at most ten units, moves only while the giver holds more than
/// thirty units; the receiver's gain is capped by the cell's restore
/// ceiling.
pub open spec fn aided(s: Seq<Node>, giver: int, receiver: int) -> Seq<Node>
    recommends
        0 <= giver < s.len(),
        0 <= receiver < s.len(),
        giver != receiver,
{
    if s[giver].energy.level <= 30_000 {
        s
    } else {
        let t = min_int(10_000, s[giver].energy.level as int / 10);
        let s1 = s.update(
            giver,
            Node {
                energy: Energy {
                    level: (s[giver].energy.level - t) as u64,
                    node_name: s[giver].energy.node_name,
                },
                ..s[giver]
            },
        );
        s1.update(
            receiver,
            Node {
                energy: Energy {
                    level: restored_level(s1[receiver].energy.level as nat, t as nat) as u64,
                    node_name: s1[receiver].energy.node_name,
                },
                ..s1[receiver]
            },
        )
    }
}

/// Aid conserves energy exactly while the receiver stays at or under the
/// restore cap.
pub proof fn lemma_aid_conserves(s: Seq<Node>, giver: int, receiver: int)
    requires
        0 <= giver < s.len(),
        0 <= receiver < s.len(),
        giver != receiver,
        s[receiver].energy.level + min_int(10_000, s[giver].energy.level as int / 10)
            <= ENERGY_CAP,
    ensures
        aided(s, giver, receiver)[giver].energy.level + aided(s, giver, receiver)[
            receiver
        ].energy.level == s[giver].energy.level + s[receiver].energy.level,
{
}

/// Agent `i`'s turn of the maintenance pass: recovery, then aid to the
/// picked weak peer (`pick == -1` means no peer was weak).
pub open spec fn maintenance_step(s: Seq<Node>, i: int, pick: int) -> Seq<Node> {
    let r = regenerated(s, i);
    if pick == -1 {
        r
    } else {
        aided(r, i, pick)
    }
}

/// The whole maintenance pass: every agent takes its turn in order.
pub open spec fn maintenance_pass(s: Seq<Node>, picks: Seq<int>, k: nat) -> Seq<Node>
    decreases k,
{
    if k == 0 {
        s
    } else {
        maintenance_step(maintenance_pass(s, picks, (k - 1) as nat), k - 1, picks[k - 1])
    }
}

/// Each turn's pick is a peer that was weak in the opening snapshot, and a
/// turn goes without aid exactly when no peer was weak then.
pub open spec fn valid_picks(snapshot: Seq<u64>, picks: Seq<int>) -> bool {
    &&& picks.len() == snapshot.len()
    &&& forall|i: int|
        0 <= i < picks.len() ==> if (exists|j: int|
            0 <= j < snapshot.len() && j != i && snapshot[j] < 20_000) {
            0 <= #[trigger] picks[i] < snapshot.len() && picks[i] != i
                && snapshot[picks[i]] < 20_000
        } else {
            picks[i] == -1
        }
}

impl EnergySystem {
    /// Natural recovery plus peer aid: in order, every agent regains three
    /// tenths of a unit (capped) and then, if any peer was weak (under
    /// twenty units) in the opening snapshot, aids one such peer with a
    /// tenth of its energy, at most ten units, while it holds more than
    /// thirty. The final state is exactly [`maintenance_pass`] for the
    /// drawn picks.
    pub fn tick(nodes: &mut Vec<Node>)
        ensures
            final(nodes)@.len() == old(nodes)@.len(),
            forall|i: int|
                0 <= i < final(nodes)@.len() ==> same_but_level(
                    old(nodes)@[i],
                    #[trigger] final(nodes)@[i],
                ),
            (exists|picks: Seq<int>|
                valid_picks(levels_of(old(nodes)@), picks) && final(nodes)@
                    == #[trigger] maintenance_pass(old(nodes)@, picks, old(nodes)@.len() as nat)),
    {
        let mut snapshot: Vec<u64> = Vec::new();
        let mut i: usize = 0;
        while i < nodes.len()
            invariant
                i <= nodes@.len(),
                nodes@ == old(nodes)@,
                snapshot@.len() == i,
                forall|j: int| 0 <= j < i ==> snapshot@[j] == (#[trigger] nodes@[j]).energy.level,
            decreases nodes@.len() - i,
        {
            snapshot.push(nodes[i].energy.level);
            i = i + 1;
        }
        proof {
            assert(snapshot@ =~= levels_of(old(nodes)@));
        }
        let total = nodes.len();
        let ghost mut picks: Seq<int> = Seq::empty();
        let mut k: usize = 0;
        while k < total
            invariant
                k <= total,
                total == nodes@.len(),
                snapshot@.len() == total,
                snapshot@ == levels_of(old(nodes)@),
                nodes@.len() == old(nodes)@.len(),
                picks.len() == k,
                forall|i2: int|
                    0 <= i2 < k ==> if (exists|j: int|
                        0 <= j < snapshot@.len() && j != i2 && snapshot@[j] < 20_000) {
                        0 <= #[trigger] picks[i2] < snapshot@.len() && picks[i2] != i2
                            && snapshot@[picks[i2]] < 20_000
                    } else {
                        picks[i2] == -1
                    },
                nodes@ == maintenance_pass(old(nodes)@, picks, k as nat),
                forall|j: int|
                    0 <= j < nodes@.len() ==> same_but_level(old(nodes)@[j], #[trigger] nodes@[j]),
            decreases total - k,
        {
            let ghost before_turn = nodes@;
            let ghost picks_before = picks;
            nodes[k].energy.restore(300);
            proof {
                assert(nodes@ =~= regenerated(before_turn, k as int));
            }
            let mut weak: Vec<usize> = Vec::new();
            let mut j: usize = 0;
            while j < total
                invariant
                    j <= total,
                    total == nodes@.len(),
                    snapshot@.len() == total,
                    k < total,
                    forall|w: int| 0 <= w < weak@.len() ==> (#[trigger] weak@[w]) < total,
                    forall|w: int| 0 <= w < weak@.len() ==> (#[trigger] weak@[w]) != k,
                    forall|w: int|
                        0 <= w < weak@.len() ==> snapshot@[#[trigger] weak@[w] as int] < 20_000,
                    weak@.len() == 0 ==> forall|j2: int|
                        0 <= j2 < j ==> !(j2 != k && (#[trigger] snapshot@[j2]) < 20_000),
                decreases total - j,
            {
                if j != k && snapshot[j] < 20_000 {
                    weak.push(j);
                }
                j = j + 1;
            }
            if weak.len() > 0 {
                let pick = draw_below(weak.len() as u64) as usize;
                let target = weak[pick];
                let ghost regained = nodes@;
                help_transfer(nodes, k, target);
                proof {
                    assert(nodes@ =~= aided(regained, k as int, target as int));
                    picks = picks.push(target as int);
                    assert(exists|j2: int|
                        0 <= j2 < snapshot@.len() && j2 != k && snapshot@[j2] < 20_000) by {
                        assert(snapshot@[weak@[0] as int] < 20_000 && weak@[0] != k);
                    }
                }
            } else {
                proof {
                    picks = picks.push(-1);
                }
            }
            k = k + 1;
            proof {
                assert(picks.take(k - 1) =~= picks_before);
                lemma_maintenance_pass_prefix(old(nodes)@, picks, (k - 1) as nat);
                assert(maintenance_pass(old(nodes)@, picks, (k - 1) as nat) == maintenance_pass(
                    old(nodes)@,
                    picks_before,
                    (k - 1) as nat,
                ));
                assert(maintenance_pass(old(nodes)@, picks_before, (k - 1) as nat) == before_turn);
                assert(nodes@ == maintenance_step(before_turn, k - 1, picks[k - 1]));
                assert(nodes@ == maintenance_pass(old(nodes)@, picks, k as nat));
            }
        }
        proof {
            assert(valid_picks(levels_of(old(nodes)@), picks));
            assert(final(nodes)@ == maintenance_pass(
                old(nodes)@,
                picks,
                old(nodes)@.len() as nat,
            ));
        }
    }
}

/// The pass up to `k` reads only the first `k` picks.
pub proof fn lemma_maintenance_pass_prefix(s: Seq<Node>, picks: Seq<int>, k: nat)
    requires
        k <= picks.len(),
    ensures
        maintenance_pass(s, picks, k) == maintenance_pass(s, picks.take(k as int), k),
    decreases k,
{
    if k > 0 {
        lemma_maintenance_pass_prefix(s, picks, (k - 1) as nat);
        assert(picks.take(k as int).take(k - 1) =~= picks.take(k - 1));
        lemma_maintenance_pass_prefix(s, picks.take(k as int), (k - 1) as nat);
        assert(maintenance_pass(s, picks.take(k - 1), (k - 1) as nat) == maintenance_pass(
            s,
            picks,
            (k - 1) as nat,
        ));
        assert(picks.take(k as int)[k - 1] == picks[k - 1]);
    }
}

/// Pass a tenth of the giver's energy, at most ten units, from `giver` to
/// `receiver`, provided the giver holds more than thirty units; the giver
/// loses exactly what leaves, the receiver gains it up to the restore cap.
pub fn help_transfer(nodes: &mut Vec<Node>, giver: usize, receiver: usize)
    requires
        giver < old(nodes)@.len(),
        receiver < old(nodes)@.len(),
        giver != receiver,
    ensures
        final(nodes)@.len() == old(nodes)@.len(),
        forall|j: int|
            0 <= j < final(nodes)@.len() && j != giver && j != receiver ==> final(nodes)@[j] == old(
                nodes,
            )@[j],
        same_but_level(old(nodes)@[giver as int], final(nodes)@[giver as int]),
        same_but_level(old(nodes)@[receiver as int], final(nodes)@[receiver as int]),
        old(nodes)@[giver as int].energy.level <= 30_000 ==> final(nodes)@ == old(nodes)@,
        old(nodes)@[giver as int].energy.level > 30_000 ==> ({
            let g = old(nodes)@[giver as int].energy.level;
            let t = min_int(10_000, g as int / 10);
            &&& final(nodes)@[giver as int].energy.level == g - t
            &&& final(nodes)@[receiver as int].energy.level == min_int(
                ENERGY_CAP as int,
                old(nodes)@[receiver as int].energy.level + t,
            )
        }),
        final(nodes)@ == aided(old(nodes)@, giver as int, receiver as int),
{
    let giver_level = nodes[giver].energy.level;
    if giver_level > 30_000 {
        let tenth = giver_level / 10;
        let transfer = if tenth > 10_000 {
            10_000
        } else {
            tenth
        };
        nodes[giver].energy.consume(transfer);
        nodes[receiver].energy.restore(transfer);
    }
    proof {
        if old(nodes)@[giver as int].energy.level <= 30_000 {
            assert(nodes@ =~= old(nodes)@);
        } else {
            assert(nodes@ =~= aided(old(nodes)@, giver as int, receiver as int));
        }
    }
}

} // verus!
