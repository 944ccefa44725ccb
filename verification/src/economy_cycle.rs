//! The periodic economy pass: global decay, wallet upkeep, peer aid for the
//! weak, and a fund-backed subsidy when the whole network runs low.

use vstd::prelude::*;
use crate::economy::NetworkFund;
use crate::energy::Energy;
use crate::fixmath::max_int;
use crate::fixmath::min_int;
use crate::fixmath::mul_div;
use crate::node::Node;
use crate::rng::draw_below;
use crate::wallet::Wallet;

verus! {

/// Energy every agent loses at the top of the pass.
pub const ECONOMY_DECAY: u64 = 2_000;

/// No agent leaves the pass below this level.
pub const ECONOMY_FLOOR: u64 = 5_000;

/// Levels below this mark an agent as weak and call for peer aid.
pub const WEAK_THRESHOLD: u64 = 20_000;

/// A mean energy below this triggers the fund subsidy.
pub const SUBSIDY_THRESHOLD: u64 = 25_000;

/// What the subsidy credits each agent.
pub const SUBSIDY_AMOUNT: u64 = 10_000;

/// What the subsidy costs the fund, and the least the fund must hold.
pub const SUBSIDY_COST: u64 = 5_000;

/// The energy an agent is left with after decay: the level less the fixed
/// decay (floored at zero), scaled by its efficiency (itself floored at a
/// tenth), and never below the survival floor.
pub open spec fn decayed_level(level: nat, efficiency: nat) -> int {
    max_int(
        ECONOMY_FLOOR as int,
        (if ECONOMY_DECAY <= level {
            level - ECONOMY_DECAY
        } else {
            0int
        }) * max_int(efficiency as int, 100) / 1_000,
    )
}

/// One agent after its decay step: the decayed, floored energy and the
/// half-unit wallet upkeep charged exactly when the balance covers it.
pub open spec fn decayed_node(n: Node) -> Node {
    Node {
        energy: Energy {
            level: decayed_level(n.energy.level as nat, n.efficiency as nat) as u64,
            node_name: n.energy.node_name,
        },
        wallet: Wallet {
            balance: if n.wallet.balance > 500 {
                (n.wallet.balance - 500) as u64
            } else {
                n.wallet.balance
            },
        },
        ..n
    }
}

/// Apply decay, efficiency scaling and the survival floor to one agent,
/// and charge the small wallet upkeep when the balance covers it.
pub fn decay_step(node: &mut Node)
    requires
        old(node).efficiency <= 1_000,
    ensures
        *final(node) == decayed_node(*old(node)),
        final(node).energy.level >= ECONOMY_FLOOR,
{
    let after_decay = node.energy.level.saturating_sub(ECONOMY_DECAY);
    let eff = if node.efficiency > 100 {
        node.efficiency
    } else {
        100
    };
    let scaled = mul_div(after_decay, eff, 1_000);
    node.energy.level = if scaled < ECONOMY_FLOOR {
        ECONOMY_FLOOR
    } else {
        scaled
    };
    proof {
        assert(after_decay * eff <= after_decay * 1_000) by (nonlinear_arith)
            requires
                eff <= 1_000,
                after_decay >= 0,
        ;
        assert(after_decay * 1_000 < u64::MAX as int * 1_000) by (nonlinear_arith)
            requires
                after_decay < u64::MAX as int,
        ;
    }
    let balance = node.wallet.get_balance();
    if balance > 500 {
        let _spent = node.wallet.spend(500);
    }
}

/// The aid around one weak agent, given the chosen helper: when the helper
/// is someone else, holds over forty units of energy and over ten of
/// balance, it transfers exactly five units of energy and two of balance to
/// the weak agent; otherwise nothing changes.
pub open spec fn weak_aid(s: Seq<Node>, weak: int, helper: int) -> Seq<Node>
    recommends
        0 <= weak < s.len(),
        0 <= helper < s.len(),
{
    if helper == weak || s[helper].energy.level <= 40_000 || s[helper].wallet.balance <= 10_000 {
        s
    } else {
        let donor = Node {
            energy: Energy {
                level: (s[helper].energy.level - 5_000) as u64,
                node_name: s[helper].energy.node_name,
            },
            wallet: Wallet { balance: (s[helper].wallet.balance - 2_000) as u64 },
            ..s[helper]
        };
        let given = s.update(helper, donor);
        let receiver = Node {
            energy: Energy {
                level: min_int(u64::MAX as int, given[weak].energy.level + 5_000) as u64,
                node_name: given[weak].energy.node_name,
            },
            wallet: Wallet {
                balance: min_int(u64::MAX as int, given[weak].wallet.balance + 2_000) as u64,
            },
            ..given[weak]
        };
        given.update(weak, receiver)
    }
}

/// Aid from one chosen helper: exactly the [`weak_aid`] effect.
pub fn help_weak_node_with(nodes: &mut Vec<Node>, weak: usize, helper: usize)
    requires
        weak < old(nodes)@.len(),
        helper < old(nodes)@.len(),
    ensures
        final(nodes)@.len() == old(nodes)@.len(),
        final(nodes)@ == weak_aid(old(nodes)@, weak as int, helper as int),
        helper == weak || old(nodes)@[helper as int].energy.level <= 40_000 || old(
            nodes,
        )@[helper as int].wallet.balance <= 10_000 ==> final(nodes)@ == old(nodes)@,
{
    if helper == weak {
        return ;
    }
    let helper_balance = nodes[helper].wallet.get_balance();
    let helper_level = nodes[helper].energy.level;
    if helper_level > 40_000 && helper_balance > 10_000 {
        nodes[helper].energy.level = helper_level - 5_000;
        let _spent = nodes[helper].wallet.spend(2_000);
        let ghost given = nodes@;
        let weak_level = nodes[weak].energy.level;
        nodes[weak].energy.level = weak_level.saturating_add(5_000);
        nodes[weak].wallet.deposit(2_000);
        proof {
            assert(nodes@ =~= weak_aid(old(nodes)@, weak as int, helper as int));
        }
    }
    proof {
        if !(helper != weak && old(nodes)@[helper as int].energy.level > 40_000 && old(
            nodes,
        )@[helper as int].wallet.balance > 10_000) {
            assert(nodes@ =~= old(nodes)@);
        }
    }
}

/// Aid for a weak agent from one randomly chosen helper: the [`weak_aid`]
/// effect for some helper index.
pub fn help_weak_node(nodes: &mut Vec<Node>, weak: usize)
    requires
        weak < old(nodes)@.len(),
    ensures
        final(nodes)@.len() == old(nodes)@.len(),
        (exists|h: int|
            0 <= h < old(nodes)@.len() && final(nodes)@ == #[trigger] weak_aid(
                old(nodes)@,
                weak as int,
                h,
            )),
        forall|j: int|
            0 <= j < final(nodes)@.len() ==> (#[trigger] final(nodes)@[j]) == (Node {
                energy: Energy {
                    level: final(nodes)@[j].energy.level,
                    node_name: old(nodes)@[j].energy.node_name,
                },
                wallet: final(nodes)@[j].wallet,
                ..old(nodes)@[j]
            }),
        forall|j: int|
            0 <= j < final(nodes)@.len() ==> (#[trigger] final(nodes)@[j]).energy.level >= min_int(
                old(nodes)@[j].energy.level as int,
                35_000,
            ),
{
    let helper = draw_below(nodes.len() as u64) as usize;
    help_weak_node_with(nodes, weak, helper);
    proof {
        assert(nodes@ == weak_aid(old(nodes)@, weak as int, helper as int));
    }
}

/// Every agent lifted by the flat subsidy.
pub open spec fn subsidized(s: Seq<Node>) -> Seq<Node> {
    Seq::new(
        s.len(),
        |j: int|
            Node {
                energy: Energy {
                    level: min_int(u64::MAX as int, s[j].energy.level + SUBSIDY_AMOUNT) as u64,
                    node_name: s[j].energy.node_name,
                },
                ..s[j]
            },
    )
}

/// The first `k` turns of the economy pass for the given helper choices:
/// each turn decays one agent, measures its level for the mean, and — when
/// the decayed level is weak — applies [`weak_aid`] with that turn's
/// helper. The pair is the population and the running sum of measurements.
pub open spec fn economy_pass(s: Seq<Node>, helpers: Seq<int>, k: nat) -> (Seq<Node>, int)
    decreases k,
{
    if k == 0 || k > s.len() {
        (s, 0)
    } else {
        let prev = economy_pass(s, helpers, (k - 1) as nat);
        let decayed = prev.0.update(k - 1, decayed_node(prev.0[k - 1]));
        let measured = decayed[k - 1].energy.level as int;
        let stepped = if measured < WEAK_THRESHOLD {
            weak_aid(decayed, k - 1, helpers[k - 1])
        } else {
            decayed
        };
        (stepped, prev.1 + measured)
    }
}

/// The pass up to `k` reads only the first `k` helper choices.
pub proof fn lemma_economy_pass_prefix(s: Seq<Node>, helpers: Seq<int>, k: nat)
    requires
        k <= helpers.len(),
    ensures
        economy_pass(s, helpers, k) == economy_pass(s, helpers.take(k as int), k),
    decreases k,
{
    if k > 0 {
        lemma_economy_pass_prefix(s, helpers, (k - 1) as nat);
        assert(helpers.take(k as int).take(k - 1) =~= helpers.take(k - 1));
        lemma_economy_pass_prefix(s, helpers.take(k as int), (k - 1) as nat);
        assert(helpers.take(k as int)[k - 1] == helpers[k - 1]);
    }
}

/// One full economy pass: the population equals [`economy_pass`] for some
/// helper choices, followed by the subsidy exactly when the mean measured
/// energy is low and the fund can cover it.
pub open spec fn economy_outcome(
    before: Seq<Node>,
    fund_before: u64,
    after: Seq<Node>,
    fund_after: u64,
    helpers: Seq<int>,
) -> bool {
    &&& helpers.len() == before.len()
    &&& (forall|i: int| 0 <= i < helpers.len() ==> 0 <= #[trigger] helpers[i] < before.len())
    &&& ({
        let pass = economy_pass(before, helpers, before.len() as nat);
        let avg = pass.1 / max_int(before.len() as int, 1);
        &&& (avg < SUBSIDY_THRESHOLD && fund_before > SUBSIDY_COST ==> after == subsidized(pass.0)
            && fund_after == fund_before - SUBSIDY_COST)
        &&& (!(avg < SUBSIDY_THRESHOLD && fund_before > SUBSIDY_COST) ==> after == pass.0
            && fund_after == fund_before)
    })
}

/// The whole-population economy pass.
pub struct EconomyCycle;

impl EconomyCycle {
    /// One pass: decay and upkeep for every agent, peer aid for each agent
    /// that ends its decay weak, then a flat subsidy to everyone, paid by
    /// the fund, exactly when the mean measured energy is under the subsidy
    /// threshold and the fund holds more than its cost. The shell runs this
    /// on its cadence; the final state is [`economy_outcome`] for the drawn
    /// helpers.
    pub fn run(nodes: &mut Vec<Node>, fund: &mut NetworkFund)
        requires
            forall|j: int| 0 <= j < old(nodes)@.len() ==> (#[trigger] old(nodes)@[j]).efficiency <= 1_000,
        ensures
            final(nodes)@.len() == old(nodes)@.len(),
            forall|j: int|
                0 <= j < final(nodes)@.len() ==> (#[trigger] final(nodes)@[j]) == (Node {
                    energy: final(nodes)@[j].energy,
                    wallet: final(nodes)@[j].wallet,
                    ..old(nodes)@[j]
                }),
            forall|j: int|
                0 <= j < final(nodes)@.len() ==> (#[trigger] final(nodes)@[j]).energy.level
                    >= ECONOMY_FLOOR,
            (exists|helpers: Seq<int>|
                #[trigger] economy_outcome(
                    old(nodes)@,
                    old(fund).total,
                    final(nodes)@,
                    final(fund).total,
                    helpers,
                )),
    {
        let total = nodes.len();
        let mut total_energy: u128 = 0;
        let ghost mut helpers: Seq<int> = Seq::empty();
        let mut i: usize = 0;
        while i < total
            invariant
                i <= total,
                total == nodes@.len(),
                nodes@.len() == old(nodes)@.len(),
                forall|j: int|
                    0 <= j < old(nodes)@.len() ==> (#[trigger] old(nodes)@[j]).efficiency
                        <= 1_000,
                total_energy <= i * (u64::MAX as int),
                helpers.len() == i,
                forall|j: int| 0 <= j < i ==> 0 <= #[trigger] helpers[j] < old(nodes)@.len(),
                nodes@ == economy_pass(old(nodes)@, helpers, i as nat).0,
                total_energy as int == economy_pass(old(nodes)@, helpers, i as nat).1,
                forall|j: int|
                    0 <= j < nodes@.len() ==> (#[trigger] nodes@[j]) == (Node {
                        energy: nodes@[j].energy,
                        wallet: nodes@[j].wallet,
                        ..old(nodes)@[j]
                    }),
                forall|j: int|
                    0 <= j < i ==> (#[trigger] nodes@[j]).energy.level >= ECONOMY_FLOOR,
            decreases total - i,
        {
            let ghost before_turn = nodes@;
            let ghost helpers_before = helpers;
            decay_step(&mut nodes[i]);
            proof {
                assert(nodes@ =~= before_turn.update(i as int, decayed_node(before_turn[i as int])));
            }
            let measured = nodes[i].energy.level;
            total_energy = total_energy + measured as u128;
            let weak_now = measured < WEAK_THRESHOLD;
            let ghost after_decay = nodes@;
            if weak_now {
                help_weak_node(nodes, i);
                proof {
                    let h = choose|h: int|
                        0 <= h < after_decay.len() && nodes@ == weak_aid(after_decay, i as int, h);
                    helpers = helpers_before.push(h);
                }
            } else {
                proof {
                    helpers = helpers_before.push(0);
                }
            }
            i = i + 1;
            proof {
                assert(helpers.take(i - 1) =~= helpers_before);
                lemma_economy_pass_prefix(old(nodes)@, helpers, (i - 1) as nat);
                assert(economy_pass(old(nodes)@, helpers, (i - 1) as nat) == economy_pass(
                    old(nodes)@,
                    helpers_before,
                    (i - 1) as nat,
                ));
                assert(nodes@ == economy_pass(old(nodes)@, helpers, i as nat).0);
                assert(total_energy as int == economy_pass(old(nodes)@, helpers, i as nat).1);
            }
        }
        let active: u64 = if total == 0 {
            1
        } else {
            total as u64
        };
        proof {
            assert(total_energy / (active as u128) <= u64::MAX) by (nonlinear_arith)
                requires
                    total_energy <= total * (u64::MAX as int),
                    active >= 1,
                    active >= total,
            ;
        }
        let avg_energy = (total_energy / (active as u128)) as u64;
        let ghost pass0 = nodes@;
        if avg_energy < SUBSIDY_THRESHOLD && fund.get_balance() > SUBSIDY_COST {
            let mut k: usize = 0;
            while k < total
                invariant
                    k <= total,
                    total == nodes@.len(),
                    nodes@.len() == old(nodes)@.len(),
                    pass0.len() == total,
                    forall|j: int| k <= j < total ==> nodes@[j] == pass0[j],
                    forall|j: int| 0 <= j < k ==> nodes@[j] == subsidized(pass0)[j],
                    forall|j: int|
                        0 <= j < nodes@.len() ==> (#[trigger] nodes@[j]) == (Node {
                            energy: nodes@[j].energy,
                            wallet: nodes@[j].wallet,
                            ..old(nodes)@[j]
                        }),
                    forall|j: int|
                        0 <= j < pass0.len() ==> (#[trigger] pass0[j]).energy.level
                            >= ECONOMY_FLOOR,
                decreases total - k,
            {
                let level = nodes[k].energy.level;
                nodes[k].energy.level = level.saturating_add(SUBSIDY_AMOUNT);
                k = k + 1;
            }
            let _drawn = fund.draw(SUBSIDY_COST);
            proof {
                assert(nodes@ =~= subsidized(pass0));
            }
        }
        proof {
            assert(economy_outcome(
                old(nodes)@,
                old(fund).total,
                nodes@,
                fund.total,
                helpers,
            ));
        }
    }
}

} // verus!
