//! The background evolution pass: per-agent metabolism, then one agent —
//! scored by energy, experience and altruism with a random nudge — gets a
//! trait boost and a token reward.

use vstd::prelude::*;
use crate::energy::Energy;
use crate::fixmath::max_int;
use crate::fixmath::min_int;
use crate::node::Node;
use crate::rng::draw_range;
use crate::rng::draw_signed;

verus! {

/// What metabolism costs: five units scaled by the efficiency shortfall,
/// never below half a unit.
pub open spec fn metabolic_cost(efficiency: nat) -> int {
    5 * max_int(1_000 - efficiency, 100)
}

/// One agent after its metabolism: the cost is paid, half the resilience
/// recovered (capped), experience grows when the result is strong, and
/// efficiency erodes when it is drained.
pub open spec fn metabolized(n: Node) -> Node {
    let drained = if metabolic_cost(n.efficiency as nat) >= n.energy.level {
        0int
    } else {
        n.energy.level - metabolic_cost(n.efficiency as nat)
    };
    let level = min_int(100_000, drained + n.resilience as int / 2);
    Node {
        energy: Energy { level: level as u64, node_name: n.energy.node_name },
        experience: if level > 50_000 {
            min_int(u64::MAX as int, n.experience + 200) as u64
        } else {
            n.experience
        },
        efficiency: if level < 10_000 {
            max_int(n.efficiency * 950 / 1_000, 100) as u64
        } else {
            n.efficiency
        },
        ..n
    }
}

/// Work one agent's metabolism: pay the efficiency-dependent cost, recover
/// half the resilience, gain experience when strong, lose efficiency when
/// drained.
pub fn evolve_metabolism(node: &mut Node)
    requires
        old(node).wf(),
    ensures
        final(node).wf(),
        *final(node) == metabolized(*old(node)),
{
    let shortfall = 1_000 - node.efficiency;
    let floor_shortfall = if shortfall > 100 {
        shortfall
    } else {
        100
    };
    let consumption = 5 * floor_shortfall;
    node.energy.consume(consumption);
    node.energy.restore(node.resilience / 2);
    let level = node.energy.level;
    if level > 50_000 {
        node.experience = node.experience.saturating_add(200);
    }
    if level < 10_000 {
        let reduced = node.efficiency * 950 / 1_000;
        node.efficiency = if reduced > 100 {
            reduced
        } else {
            100
        };
    }
}

/// The evolution pass across the whole population.
pub struct EnergyEvolution;

/// `b` is `a` with at most energy, traits, experience and wallet changed:
/// identity, chains, links and connections are untouched.
pub open spec fn evolved_frame(a: Node, b: Node) -> bool {
    b == (Node {
        energy: Energy { level: b.energy.level, node_name: a.energy.node_name },
        efficiency: b.efficiency,
        altruism: b.altruism,
        resilience: b.resilience,
        experience: b.experience,
        wallet: b.wallet,
        ..a
    })
}

/// The winner after its boost: leaders over nine tenths efficiency pay a
/// small fatigue first, then efficiency, altruism and resilience rise by
/// the drawn amounts (capped at their bands) and ten tokens are credited.
pub open spec fn boosted(n: Node, eff_gain: u64, alt_gain: u64, res_gain: u64) -> Node {
    let fatigued = if n.efficiency > 900 {
        n.efficiency * 980 as int / 1_000
    } else {
        n.efficiency as int
    };
    Node {
        efficiency: min_int(1_000, fatigued + eff_gain) as u64,
        altruism: min_int(1_000, n.altruism + alt_gain) as u64,
        resilience: min_int(1_500, n.resilience + res_gain) as u64,
        wallet: crate::wallet::Wallet {
            balance: min_int(u64::MAX as int, n.wallet.balance + 10_000) as u64,
        },
        ..n
    }
}

/// The whole pass: everyone metabolised, and one winner boosted on top.
pub open spec fn evolution_pass(
    before: Seq<Node>,
    after: Seq<Node>,
    best: int,
    eff_gain: u64,
    alt_gain: u64,
    res_gain: u64,
) -> bool {
    &&& 0 <= best < before.len()
    &&& 20 <= eff_gain < 70
    &&& 10 <= alt_gain < 40
    &&& 20 <= res_gain < 60
    &&& after.len() == before.len()
    &&& (forall|j: int|
        0 <= j < before.len() && j != best ==> #[trigger] after[j] == metabolized(before[j]))
    &&& after[best] == boosted(metabolized(before[best]), eff_gain, alt_gain, res_gain)
}

impl EnergyEvolution {
    /// Metabolism for everyone, then one agent — the best by a randomly
    /// perturbed score over energy, experience and altruism — receives
    /// trait boosts (leaders pay a small fatigue on efficiency first) and
    /// a ten-token reward.
    pub fn evolve(nodes: &mut Vec<Node>)
        requires
            forall|j: int| 0 <= j < old(nodes)@.len() ==> (#[trigger] old(nodes)@[j]).wf(),
        ensures
            final(nodes)@.len() == old(nodes)@.len(),
            forall|j: int| 0 <= j < final(nodes)@.len() ==> (#[trigger] final(nodes)@[j]).wf(),
            forall|j: int|
                0 <= j < final(nodes)@.len() ==> evolved_frame(
                    old(nodes)@[j],
                    #[trigger] final(nodes)@[j],
                ),
            old(nodes)@.len() == 0 ==> final(nodes)@ == old(nodes)@,
            old(nodes)@.len() > 0 ==> (exists|best: int, eg: u64, ag: u64, rg: u64|
                #[trigger] evolution_pass(old(nodes)@, final(nodes)@, best, eg, ag, rg)),
    {
        let total = nodes.len();
        let mut i: usize = 0;
        while i < total
            invariant
                i <= total,
                total == nodes@.len(),
                nodes@.len() == old(nodes)@.len(),
                forall|j: int| 0 <= j < old(nodes)@.len() ==> (#[trigger] old(nodes)@[j]).wf(),
                forall|j: int| 0 <= j < nodes@.len() ==> (#[trigger] nodes@[j]).wf(),
                forall|j: int|
                    0 <= j < nodes@.len() ==> evolved_frame(old(nodes)@[j], #[trigger] nodes@[j]),
                forall|j: int| 0 <= j < i ==> #[trigger] nodes@[j] == metabolized(old(nodes)@[j]),
                forall|j: int| i <= j < total ==> #[trigger] nodes@[j] == old(nodes)@[j],
            decreases total - i,
        {
            evolve_metabolism(&mut nodes[i]);
            i = i + 1;
        }
        if total == 0 {
            return ;
        }
        let ghost metabolised_all = nodes@;
        let mut best: usize = 0;
        let mut best_score: i128 = i128::MIN;
        let mut c: usize = 0;
        while c < total
            invariant
                c <= total,
                total == nodes@.len(),
                best < total,
                nodes@ == metabolised_all,
            decreases total - c,
        {
            let n = &nodes[c];
            let jitter = draw_signed(5_000);
            let score: i128 = (n.energy.level as i128) * 3 / 10 + (n.experience as i128) * 6 / 10
                + (n.altruism as i128) * 20 + (jitter as i128);
            if score > best_score {
                best_score = score;
                best = c;
            }
            c = c + 1;
        }
        if nodes[best].efficiency > 900 {
            let fatigued = nodes[best].efficiency * 980 / 1_000;
            nodes[best].efficiency = fatigued;
        }
        let eff_gain = draw_range(20, 70);
        let raised_eff = nodes[best].efficiency + eff_gain;
        nodes[best].efficiency = if raised_eff > 1_000 {
            1_000
        } else {
            raised_eff
        };
        let alt_gain = draw_range(10, 40);
        let raised_alt = nodes[best].altruism + alt_gain;
        nodes[best].altruism = if raised_alt > 1_000 {
            1_000
        } else {
            raised_alt
        };
        let res_gain = draw_range(20, 60);
        let raised_res = nodes[best].resilience + res_gain;
        nodes[best].resilience = if raised_res > 1_500 {
            1_500
        } else {
            raised_res
        };
        nodes[best].wallet.reward(10_000);
        proof {
            assert(nodes@[best as int] == boosted(
                metabolized(old(nodes)@[best as int]),
                eff_gain,
                alt_gain,
                res_gain,
            ));
            assert(evolution_pass(old(nodes)@, nodes@, best as int, eff_gain, alt_gain, res_gain));
        }
    }
}

} // verus!
