//! The coordinator: it observes the population, chooses an action, carries
//! it out, records the outcome, and tunes its own reactivity.
//!
//! Reactivity ("aggressiveness") is a milli-unit scalar. Each cycle clamps
//! it inside [`LEARN_MIN`], [`LEARN_MAX`] while learning, then adjusts it by
//! the recent outcome average; over a whole cycle it never leaves the band
//! [`BAND_MIN`], [`BAND_MAX`].

use vstd::prelude::*;
use crate::clock::now_seconds;
use crate::fixmath::clamp_int;
use crate::fixmath::min_int;
use crate::memory::BrainEvent;
use crate::memory::Memory;
use crate::memory::newest_first;
use crate::memory::events_view;
use crate::memory::sum_results;
use crate::node::Node;
use crate::interaction::NetworkBus;
use crate::rng::draw_range;
use crate::fixmath::shift_clamp;

verus! {

/// Lower clamp while learning from feedback.
pub const LEARN_MIN: u64 = 200;

/// Upper clamp while learning from feedback.
pub const LEARN_MAX: u64 = 3_000;

/// The lowest reactivity any full cycle can leave behind.
pub const BAND_MIN: u64 = 100;

/// The highest reactivity any full cycle can leave behind: the learning
/// ceiling raised by the strongest single adjustment.
pub const BAND_MAX: u64 = 3_450;

/// How many rewards the rolling history holds.
pub const REWARD_HISTORY_LIMIT: usize = 200;

/// One agent's share of a population snapshot.
#[derive(Debug)]
pub struct NodeEnergyInfo {
    pub name: String,
    pub energy: u64,
    pub experience: u64,
}

/// A population snapshot: per-agent readings and their mean energy.
#[derive(Debug)]
pub struct BrainState {
    pub nodes: Vec<NodeEnergyInfo>,
    pub summary_avg_energy: u64,
}

/// A point-in-time projection of the coordinator for outside readers.
#[derive(Debug)]
pub struct BrainSnapshot {
    pub aggressiveness: u64,
    pub avg_recent_result: u64,
    pub recent_memory: Vec<BrainEvent>,
    pub last_update: i64,
}

/// The coordinator's own state.
#[derive(Debug)]
pub struct Brain {
    pub memory: Memory,
    pub aggressiveness: u64,
    pub reward_history: Vec<u64>,
    pub tick_counter: u64,
}

/// The sum of a list of milli-unit rewards.
pub open spec fn sum_u64(s: Seq<u64>) -> int
    decreases s.len(),
{
    if s.len() == 0 {
        0
    } else {
        sum_u64(s.drop_last()) + s.last()
    }
}

/// The reward history after taking one more reward: the new value is
/// appended and the oldest entry leaves once the limit is passed.
pub open spec fn history_after(h: Seq<u64>, reward: u64) -> Seq<u64> {
    let h1 = h.push(reward);
    if h1.len() > REWARD_HISTORY_LIMIT {
        h1.drop_first()
    } else {
        h1
    }
}

/// Reactivity after learning from the rolling average `avg`: scaled up a
/// little when rewards run high, down a little otherwise, clamped to the
/// learning band.
pub open spec fn learned_aggressiveness(a: nat, avg: int) -> int {
    clamp_int(
        if avg > 700 {
            a * 1_020 as int / 1_000
        } else {
            a * 980 as int / 1_000
        },
        LEARN_MIN as int,
        LEARN_MAX as int,
    )
}

/// Reactivity after the cycle's self-regulation: raised hard when the
/// recent outcomes are poor, eased off when they are good, and gently
/// raised otherwise. No clamp is applied here.
pub open spec fn adjusted_aggressiveness(a: nat, recent_avg: nat) -> int {
    if recent_avg < 400 {
        a * 1_150 as int / 1_000
    } else if recent_avg > 800 {
        a * 900 as int / 1_000
    } else {
        a * 1_020 as int / 1_000
    }
}

/// Sustained poor outcomes push reactivity strictly upward.
pub proof fn lemma_low_reward_raises(a: nat, recent_avg: nat)
    requires
        a >= 7,
        recent_avg < 400,
    ensures
        adjusted_aggressiveness(a, recent_avg) > a,
{
}

/// Sustained good outcomes pull reactivity strictly downward.
pub proof fn lemma_high_reward_lowers(a: nat, recent_avg: nat)
    requires
        a >= 10,
        recent_avg > 800,
    ensures
        adjusted_aggressiveness(a, recent_avg) < a,
{
}

/// Learning never leaves the learning band, whatever the average.
pub proof fn lemma_learning_in_band(a: nat, avg: int)
    ensures
        LEARN_MIN <= learned_aggressiveness(a, avg) <= LEARN_MAX,
{
}

/// One adjustment applied inside the learning band stays inside the wider
/// cycle band.
pub proof fn lemma_adjustment_in_band(a: nat, recent_avg: nat)
    requires
        LEARN_MIN <= a <= LEARN_MAX,
    ensures
        BAND_MIN <= adjusted_aggressiveness(a, recent_avg) <= BAND_MAX,
{
}

impl Brain {
    /// A fresh coordinator: neutral reactivity, empty history, and event
    /// memory bounded at one hundred recent and ten thousand long-term
    /// entries kept for a week.
    pub fn new() -> (b: Brain)
        ensures
            b.memory.wf(),
            b.memory.short@ =~= Seq::<BrainEvent>::empty(),
            b.memory.long@ =~= Seq::<BrainEvent>::empty(),
            b.memory.max_short == 100,
            b.memory.max_long == 10_000,
            b.memory.retention_time == 604_800,
            b.aggressiveness == 1_000,
            b.reward_history@ =~= Seq::<u64>::empty(),
            b.tick_counter == 0,
    {
        Brain {
            memory: Memory::new(100, 10_000, 604_800),
            aggressiveness: 1_000,
            reward_history: Vec::new(),
            tick_counter: 0,
        }
    }

    /// Fold one reward into the rolling history and re-learn reactivity
    /// from the new rolling average.
    pub fn learn_from_feedback(&mut self, reward: u64)
        ensures
            *final(self) == (Brain {
                aggressiveness: final(self).aggressiveness,
                reward_history: final(self).reward_history,
                ..*old(self)
            }),
            final(self).reward_history@ =~= history_after(old(self).reward_history@, reward),
            final(self).aggressiveness == learned_aggressiveness(
                old(self).aggressiveness as nat,
                sum_u64(history_after(old(self).reward_history@, reward)) / history_after(
                    old(self).reward_history@,
                    reward,
                ).len() as int,
            ),
            LEARN_MIN <= final(self).aggressiveness <= LEARN_MAX,
    {
        self.reward_history.push(reward);
        if self.reward_history.len() > REWARD_HISTORY_LIMIT {
            let _oldest = self.reward_history.remove(0);
            proof {
                assert(self.reward_history@ =~= old(self).reward_history@.push(
                    reward,
                ).drop_first());
            }
        }
        let ghost h2 = history_after(old(self).reward_history@, reward);
        proof {
            assert(self.reward_history@ =~= h2);
        }
        let len = self.reward_history.len();
        let mut acc: u128 = 0;
        let mut i: usize = 0;
        while i < len
            invariant
                i <= len,
                len == self.reward_history@.len(),
                self.reward_history@ == h2,
                acc == sum_u64(h2.take(i as int)),
                acc <= i * (u64::MAX as int),
            decreases len - i,
        {
            acc = acc + self.reward_history[i] as u128;
            i = i + 1;
            proof {
                assert(h2.take(i as int).drop_last() =~= h2.take(i - 1));
                assert(h2.take(i as int).last() == h2[i - 1]);
            }
        }
        proof {
            assert(h2.take(h2.len() as int) =~= h2);
            assert(acc / (len as u128) <= u64::MAX) by (nonlinear_arith)
                requires
                    acc <= len * (u64::MAX as int),
                    len >= 1,
            ;
        }
        let avg = (acc / (len as u128)) as u64;
        let scaled = if avg > 700 {
            crate::fixmath::mul_div(self.aggressiveness, 1_020, 1_000)
        } else {
            crate::fixmath::mul_div(self.aggressiveness, 980, 1_000)
        };
        self.aggressiveness = crate::fixmath::clamp_u64(scaled, LEARN_MIN, LEARN_MAX);
    }
}

/// The index of the first agent with minimal energy in `s[from..]`.
pub open spec fn argmin_first_from(s: Seq<Node>, from: int) -> int
    recommends
        0 <= from < s.len(),
    decreases s.len() - from,
{
    if from >= s.len() - 1 {
        from
    } else {
        let rest = argmin_first_from(s, from + 1);
        if s[from].energy.level <= s[rest].energy.level {
            from
        } else {
            rest
        }
    }
}

/// The index of the last agent with maximal energy in `s[from..]`.
pub open spec fn argmax_last_from(s: Seq<Node>, from: int) -> int
    recommends
        0 <= from < s.len(),
    decreases s.len() - from,
{
    if from >= s.len() - 1 {
        from
    } else {
        let rest = argmax_last_from(s, from + 1);
        if s[from].energy.level > s[rest].energy.level {
            from
        } else {
            rest
        }
    }
}

/// `argmin_first_from` returns the first index of the minimum.
pub proof fn lemma_argmin_first(s: Seq<Node>, from: int)
    requires
        0 <= from < s.len(),
    ensures
        from <= argmin_first_from(s, from) < s.len(),
        forall|k: int|
            from <= k < s.len() ==> (#[trigger] s[k]).energy.level >= s[argmin_first_from(
                s,
                from,
            )].energy.level,
        forall|k: int|
            from <= k < argmin_first_from(s, from) ==> (#[trigger] s[k]).energy.level
                > s[argmin_first_from(s, from)].energy.level,
    decreases s.len() - from,
{
    if from < s.len() - 1 {
        lemma_argmin_first(s, from + 1);
    }
}

/// `argmax_last_from` returns the last index of the maximum.
pub proof fn lemma_argmax_last(s: Seq<Node>, from: int)
    requires
        0 <= from < s.len(),
    ensures
        from <= argmax_last_from(s, from) < s.len(),
        forall|k: int|
            from <= k < s.len() ==> (#[trigger] s[k]).energy.level <= s[argmax_last_from(
                s,
                from,
            )].energy.level,
        forall|k: int|
            argmax_last_from(s, from) < k < s.len() ==> (#[trigger] s[k]).energy.level
                < s[argmax_last_from(s, from)].energy.level,
    decreases s.len() - from,
{
    if from < s.len() - 1 {
        lemma_argmax_last(s, from + 1);
    }
}

/// The position of the first weakest agent.
fn weakest_index(nodes: &Vec<Node>) -> (lo: usize)
    requires
        nodes@.len() > 0,
    ensures
        lo < nodes@.len(),
        lo as int == argmin_first_from(nodes@, 0),
{
    let mut best: usize = 0;
    let mut c: usize = 1;
    while c < nodes.len()
        invariant
            best < c <= nodes@.len(),
            forall|j: int|
                0 <= j < c ==> (#[trigger] nodes@[j]).energy.level >= nodes@[best as int].energy.level,
            forall|j: int|
                0 <= j < best ==> (#[trigger] nodes@[j]).energy.level > nodes@[best as int].energy.level,
        decreases nodes@.len() - c,
    {
        if nodes[c].energy.level < nodes[best].energy.level {
            best = c;
        }
        c = c + 1;
    }
    proof {
        lemma_argmin_first(nodes@, 0);
        let a = argmin_first_from(nodes@, 0);
        if best < a {
            assert(nodes@[best as int].energy.level > nodes@[a].energy.level);
        }
        if a < best {
            assert(nodes@[a].energy.level > nodes@[best as int].energy.level);
        }
    }
    best
}

/// The position of the last strongest agent.
fn strongest_index(nodes: &Vec<Node>) -> (hi: usize)
    requires
        nodes@.len() > 0,
    ensures
        hi < nodes@.len(),
        hi as int == argmax_last_from(nodes@, 0),
{
    let mut best: usize = 0;
    let mut c: usize = 1;
    while c < nodes.len()
        invariant
            best < c <= nodes@.len(),
            forall|j: int|
                0 <= j < c ==> (#[trigger] nodes@[j]).energy.level <= nodes@[best as int].energy.level,
            forall|j: int|
                best < j < c ==> (#[trigger] nodes@[j]).energy.level < nodes@[best as int].energy.level,
        decreases nodes@.len() - c,
    {
        if nodes[c].energy.level >= nodes[best].energy.level {
            best = c;
        }
        c = c + 1;
    }
    proof {
        lemma_argmax_last(nodes@, 0);
        let a = argmax_last_from(nodes@, 0);
        if best < a {
            assert(nodes@[a].energy.level < nodes@[best as int].energy.level);
        }
        if a < best {
            assert(nodes@[best as int].energy.level < nodes@[a].energy.level);
        }
    }
    best
}

/// The energy gap below which redistribution does nothing.
pub const REDISTRIBUTION_GAP: u64 = 5_000;

/// What one redistribution does, given the weakest level `l` and the
/// strongest level `h` with `h >= l + REDISTRIBUTION_GAP`: a quarter of the
/// gap moves from the strongest to the weakest.
pub open spec fn redistribution_levels(l: nat, h: nat) -> (int, int) {
    let delta = (h - l) / 4;
    (h - delta, l + delta)
}

/// What the help action does to the population: nothing below two agents
/// or below the gap; otherwise a quarter of the gap moves from the last
/// strongest to the first weakest, conserving their total, and everyone
/// else is untouched.
pub open spec fn redistributed_nodes(before: Seq<Node>, after: Seq<Node>) -> bool {
    &&& after.len() == before.len()
    &&& (before.len() < 2 ==> after == before)
    &&& (before.len() >= 2 ==> ({
        let lo = argmin_first_from(before, 0);
        let hi = argmax_last_from(before, 0);
        let l = before[lo].energy.level as nat;
        let h = before[hi].energy.level as nat;
        &&& (h < l + REDISTRIBUTION_GAP ==> after == before)
        &&& (h >= l + REDISTRIBUTION_GAP ==> ({
            let levels = redistribution_levels(l, h);
            &&& lo != hi
            &&& after[hi].energy.level == levels.0
            &&& after[lo].energy.level == levels.1
            &&& after[hi].energy.level + after[lo].energy.level == l + h
            &&& crate::energy::same_but_level(before[hi], after[hi])
            &&& crate::energy::same_but_level(before[lo], after[lo])
            &&& (forall|j: int|
                0 <= j < before.len() && j != lo && j != hi ==> after[j] == before[j])
        }))
    }))
}

/// A `redistribution` event naming the donor and the receiver and carrying
/// the transferred amount was appended to the log as of some moment.
pub open spec fn redistribution_recorded(
    m0: Memory,
    m1: Memory,
    donor: Seq<char>,
    receiver: Seq<char>,
    amount: nat,
) -> bool {
    exists|now: i64, ts: int|
        #[trigger] crate::memory::added_at(
            m0,
            m1,
            crate::memory::BrainEventView {
                timestamp: ts,
                action: "redistribution"@,
                context: donor + " -> "@ + receiver,
                result: amount,
            },
            now,
        )
}

impl Brain {
    /// Move a quarter of the energy gap from the strongest agent to the
    /// weakest when the gap is wide enough, and record a `redistribution`
    /// event naming both. The strongest is the last agent attaining the
    /// maximum, the weakest the first attaining the minimum; the transfer
    /// happens only while the donor covers it, which the gap guarantees.
    pub fn redistribute_energy(
        &mut self,
        nodes: &mut Vec<Node>,
        _fund: &crate::economy::NetworkFund,
        _avg_energy: u64,
    )
        ensures
            *final(self) == (Brain { memory: final(self).memory, ..*old(self) }),
            old(self).memory.wf() ==> final(self).memory.wf(),
            final(self).memory.max_short == old(self).memory.max_short,
            final(self).memory.max_long == old(self).memory.max_long,
            final(self).memory.retention_time == old(self).memory.retention_time,
            redistributed_nodes(old(nodes)@, final(nodes)@),
            old(nodes)@.len() < 2 ==> *final(self) == *old(self),
            old(nodes)@.len() >= 2 ==> ({
                let lo = argmin_first_from(old(nodes)@, 0);
                let hi = argmax_last_from(old(nodes)@, 0);
                let l = old(nodes)@[lo].energy.level as nat;
                let h = old(nodes)@[hi].energy.level as nat;
                &&& (h < l + REDISTRIBUTION_GAP ==> *final(self) == *old(self))
                &&& (h >= l + REDISTRIBUTION_GAP ==> redistribution_recorded(
                    old(self).memory,
                    final(self).memory,
                    old(nodes)@[hi].name@,
                    old(nodes)@[lo].name@,
                    ((h - l) / 4) as nat,
                ))
            }),
            (exists|evs: Seq<crate::memory::BrainEventView>|
                #[trigger] crate::memory::events_recorded(
                    old(self).memory,
                    final(self).memory,
                    evs,
                ) && evs.len() <= 1 && (forall|k: int|
                    0 <= k < evs.len() ==> (#[trigger] evs[k]).action == "redistribution"@)),
    {
        if nodes.len() < 2 {
            proof {
                assert(crate::memory::events_recorded(
                    old(self).memory,
                    self.memory,
                    Seq::<crate::memory::BrainEventView>::empty(),
                ));
            }
            return ;
        }
        let lo = weakest_index(nodes);
        let hi = strongest_index(nodes);
        let l = nodes[lo].energy.level;
        let h = nodes[hi].energy.level;
        proof {
            lemma_argmin_first(nodes@, 0);
            lemma_argmax_last(nodes@, 0);
        }
        proof {
            assert(old(nodes)@[hi as int].energy.level >= old(nodes)@[lo as int].energy.level);
        }
        if h - l < REDISTRIBUTION_GAP {
            proof {
                assert(crate::memory::events_recorded(
                    old(self).memory,
                    self.memory,
                    Seq::<crate::memory::BrainEventView>::empty(),
                ));
            }
            return ;
        }
        proof {
            if lo == hi {
                assert(l == h);
            }
        }
        let delta = (h - l) / 4;
        if h >= delta {
            nodes[hi].energy.level = h - delta;
            nodes[lo].energy.level = l + delta;
        }
        let mut context = nodes[hi].name.clone();
        context.append(" -> ");
        context.append(nodes[lo].name.as_str());
        let event = BrainEvent::new("redistribution", context.as_str(), delta);
        let ghost event_snapshot = event@;
        let ghost memory_before = self.memory;
        self.memory.add_event(event);
        proof {
            let now = choose|now: i64|
                crate::memory::added_at(memory_before, self.memory, event_snapshot, now);
            assert(crate::memory::added_at(
                memory_before,
                self.memory,
                crate::memory::BrainEventView {
                    timestamp: event_snapshot.timestamp,
                    action: "redistribution"@,
                    context: old(nodes)@[hi as int].name@ + " -> "@ + old(nodes)@[lo as int].name@,
                    result: delta as nat,
                },
                now,
            ));
            crate::memory::lemma_events_recorded_single(
                memory_before,
                self.memory,
                event_snapshot,
                now,
            );
            let chain = seq![event_snapshot];
            assert(chain[0].action == "redistribution"@);
            assert(crate::memory::events_recorded(old(self).memory, self.memory, chain));
        }
    }
}

/// The total energy of a population.
pub open spec fn sum_levels(s: Seq<Node>) -> int
    decreases s.len(),
{
    if s.len() == 0 {
        0
    } else {
        sum_levels(s.drop_last()) + s.last().energy.level
    }
}

impl Brain {
    /// A read-only projection of the population: one entry per agent and
    /// the mean energy (zero for an empty population, truncated division).
    pub fn snapshot(nodes: &Vec<Node>) -> (state: BrainState)
        ensures
            state.nodes@.len() == nodes@.len(),
            forall|i: int|
                0 <= i < nodes@.len() ==> ({
                    &&& (#[trigger] state.nodes@[i]).name@ == nodes@[i].name@
                    &&& state.nodes@[i].energy == nodes@[i].energy.level
                    &&& state.nodes@[i].experience == nodes@[i].experience
                }),
            state.summary_avg_energy == if nodes@.len() == 0 {
                0int
            } else {
                sum_levels(nodes@) / nodes@.len() as int
            },
    {
        let mut infos: Vec<NodeEnergyInfo> = Vec::new();
        let mut acc: u128 = 0;
        let mut i: usize = 0;
        while i < nodes.len()
            invariant
                i <= nodes@.len(),
                infos@.len() == i,
                forall|j: int|
                    0 <= j < i ==> ({
                        &&& (#[trigger] infos@[j]).name@ == nodes@[j].name@
                        &&& infos@[j].energy == nodes@[j].energy.level
                        &&& infos@[j].experience == nodes@[j].experience
                    }),
                acc == sum_levels(nodes@.take(i as int)),
                acc <= i * (u64::MAX as int),
            decreases nodes@.len() - i,
        {
            let n = &nodes[i];
            infos.push(
                NodeEnergyInfo {
                    name: n.name.clone(),
                    energy: n.energy.level,
                    experience: n.experience,
                },
            );
            acc = acc + n.energy.level as u128;
            i = i + 1;
            proof {
                assert(nodes@.take(i as int).drop_last() =~= nodes@.take(i - 1));
                assert(nodes@.take(i as int).last() == nodes@[i - 1]);
            }
        }
        proof {
            assert(nodes@.take(nodes@.len() as int) =~= nodes@);
        }
        let len = nodes.len();
        let avg: u64 = if len == 0 {
            0
        } else {
            proof {
                assert(acc / (len as u128) <= u64::MAX) by (nonlinear_arith)
                    requires
                        acc <= len * (u64::MAX as int),
                        len >= 1,
                ;
            }
            (acc / (len as u128)) as u64
        };
        BrainState { nodes: infos, summary_avg_energy: avg }
    }
}

impl BrainSnapshot {
    /// A point-in-time projection of a coordinator: its reactivity, the
    /// mean of its last ten outcomes, its ten newest events, and the
    /// moment the projection was taken.
    pub fn from_brain(brain: &Brain) -> (snap: BrainSnapshot)
        ensures
            snap.aggressiveness == brain.aggressiveness,
            events_view(snap.recent_memory@) =~= newest_first(brain.memory.short_view(), 10),
            snap.avg_recent_result == ({
                let lastn = newest_first(brain.memory.short_view(), 10);
                if lastn.len() == 0 {
                    0int
                } else {
                    sum_results(lastn) / lastn.len() as int
                }
            }),
    {
        let recent_memory = brain.memory.get_recent(10);
        let avg_recent_result = brain.memory.average_result(10);
        BrainSnapshot {
            aggressiveness: brain.aggressiveness,
            avg_recent_result,
            recent_memory,
            last_update: now_seconds(),
        }
    }
}

/// `b` is `a` after one tick: only the energy level and altruism may have
/// changed, and the altruism stays in its band.
pub open spec fn ticked_frame(a: Node, b: Node) -> bool {
    &&& b == (Node {
        energy: crate::energy::Energy {
            level: b.energy.level,
            node_name: a.energy.node_name,
        },
        altruism: b.altruism,
        ..a
    })
    &&& b.altruism <= 1_000
}

/// `bonus` applied to a surviving agent: its level rises by the bonus,
/// capped at one hundred and twenty units.
pub open spec fn bonus_applied(n: Node, bonus: u64) -> Node {
    Node {
        energy: crate::energy::Energy {
            level: min_int(120_000, n.energy.level + bonus) as u64,
            node_name: n.energy.node_name,
        },
        ..n
    }
}

/// One whole evolution pass: every agent ticked in place, the dead culled,
/// this pass's children appended, the population cap enforced by ranked
/// selection, and every survivor given a capped bonus.
pub open spec fn evolution_outcome(
    before: Seq<Node>,
    after: Seq<Node>,
    ticked: Seq<Node>,
    kids: Seq<Node>,
    bonuses: Seq<u64>,
) -> bool {
    &&& ticked.len() == before.len()
    &&& (forall|j: int|
        0 <= j < before.len() ==> ticked_frame(before[j], #[trigger] ticked[j]))
    &&& (forall|j: int| 0 <= j < kids.len() ==> (#[trigger] kids[j]).wf())
    &&& ({
        let pool = ticked.filter(crate::registry::above_death_floor()) + kids;
        let kept = if pool.len() > POPULATION_CEILING {
            crate::registry::select_top(pool, POPULATION_KEEP as nat)
        } else {
            pool
        };
        &&& after.len() == kept.len()
        &&& bonuses.len() == kept.len()
        &&& (forall|j: int| 0 <= j < bonuses.len() ==> 5_000 <= #[trigger] bonuses[j] < 15_000)
        &&& (forall|j: int|
            0 <= j < kept.len() ==> #[trigger] after[j] == bonus_applied(kept[j], bonuses[j]))
    })
}

impl Brain {
    /// One evolution pass: every live agent ticks against its peers (the
    /// shell fans these out with bounded concurrency and timeouts; here
    /// they run in sequence), the children are gathered, the dead are
    /// culled, the children join, the population cap is enforced, and the
    /// survivors get a capped energy bonus. A population over
    /// [`OVERPOPULATION_SKIP`] is left alone.
    pub fn evolve_network(&self, nodes: &mut Vec<Node>, bus: &mut NetworkBus)
        requires
            forall|j: int| 0 <= j < old(nodes)@.len() ==> (#[trigger] old(nodes)@[j]).wf(),
            crate::node::distinct_names(old(nodes)@),
        ensures
            final(bus).capacity == old(bus).capacity,
            old(nodes)@.len() == 0 || old(nodes)@.len() > OVERPOPULATION_SKIP ==> final(nodes)@
                == old(nodes)@ && final(bus).queue@ == old(bus).queue@,
            0 < old(nodes)@.len() <= OVERPOPULATION_SKIP ==> final(nodes)@.len()
                <= POPULATION_CEILING as int,
            forall|j: int| 0 <= j < final(nodes)@.len() ==> (#[trigger] final(nodes)@[j]).wf(),
            0 < old(nodes)@.len() <= OVERPOPULATION_SKIP ==> (exists|
                ticked: Seq<Node>,
                kids: Seq<Node>,
                bonuses: Seq<u64>,
            |
                #[trigger] evolution_outcome(old(nodes)@, final(nodes)@, ticked, kids, bonuses)),
    {
        let total = nodes.len();
        if total == 0 {
            return ;
        }
        if total > OVERPOPULATION_SKIP {
            return ;
        }
        let mut children: Vec<Node> = Vec::new();
        let mut i: usize = 0;
        while i < total
            invariant
                i <= total,
                total == nodes@.len(),
                nodes@.len() == old(nodes)@.len(),
                forall|j: int| 0 <= j < nodes@.len() ==> (#[trigger] nodes@[j]).wf(),
                forall|j: int|
                    0 <= j < nodes@.len() ==> ticked_frame(old(nodes)@[j], #[trigger] nodes@[j]),
                forall|j: int|
                    0 <= j < nodes@.len() ==> (#[trigger] nodes@[j]).name@ == old(
                        nodes,
                    )@[j].name@,
                crate::node::distinct_names(old(nodes)@),
                forall|j: int| 0 <= j < children@.len() ==> (#[trigger] children@[j]).wf(),
                bus.capacity == old(bus).capacity,
            decreases total - i,
        {
            let mut peers: Vec<String> = Vec::new();
            let mut j: usize = 0;
            while j < total
                invariant
                    j <= total,
                    i < total,
                    total == nodes@.len(),
                    nodes@.len() == old(nodes)@.len(),
                    forall|k: int|
                        0 <= k < nodes@.len() ==> (#[trigger] nodes@[k]).name@ == old(
                            nodes,
                        )@[k].name@,
                    crate::node::distinct_names(old(nodes)@),
                    forall|p: int|
                        0 <= p < peers@.len() ==> (#[trigger] peers@[p])@ != nodes@[i as int].name@,
                decreases total - j,
            {
                if j != i && nodes[j].energy.level > 0 {
                    let peer_name = nodes[j].name.clone();
                    proof {
                        assert(old(nodes)@[j as int].name@ != old(nodes)@[i as int].name@);
                    }
                    peers.push(peer_name);
                }
                j = j + 1;
            }
            let child_opt = nodes[i].tick_node(&peers, bus, 0);
            if let Some(child) = child_opt {
                children.push(child);
            }
            i = i + 1;
        }
        let ghost ticked = nodes@;
        let ghost kids = children@;
        let ghost pre_cull = nodes@;
        crate::registry::death_cull(nodes);
        proof {
            crate::registry::lemma_filter_members(pre_cull, crate::registry::above_death_floor());
            assert forall|j: int| 0 <= j < nodes@.len() implies (#[trigger] nodes@[j]).wf() by {
                assert(nodes@[j] == pre_cull.filter(crate::registry::above_death_floor())[j]);
                let w = choose|w: int|
                    0 <= w < pre_cull.len() && pre_cull[w] == pre_cull.filter(
                        crate::registry::above_death_floor(),
                    )[j];
                assert(pre_cull[w].wf());
            }
        }
        let ghost with_children = nodes@ + children@;
        nodes.append(&mut children);
        proof {
            assert(nodes@ =~= with_children);
            assert(forall|j: int|
                0 <= j < with_children.len() ==> (#[trigger] with_children[j]).wf());
        }
        let ghost pre_cap = nodes@;
        crate::registry::cap_cull(nodes, POPULATION_CEILING, POPULATION_KEEP);
        proof {
            if pre_cap.len() > POPULATION_CEILING {
                crate::registry::lemma_select_top_members(pre_cap, POPULATION_KEEP as nat);
                assert forall|j: int| 0 <= j < nodes@.len() implies (#[trigger] nodes@[j]).wf()
                by {
                    assert(nodes@[j] == crate::registry::select_top(
                        pre_cap,
                        POPULATION_KEEP as nat,
                    )[j]);
                    let w = choose|w: int|
                        0 <= w < pre_cap.len() && pre_cap[w] == crate::registry::select_top(
                            pre_cap,
                            POPULATION_KEEP as nat,
                        )[j];
                    assert(pre_cap[w].wf());
                }
            }
        }
        let ghost kept = nodes@;
        proof {
            let pool = ticked.filter(crate::registry::above_death_floor()) + kids;
            assert(pre_cap =~= pool);
            if pool.len() > POPULATION_CEILING {
                assert(kept =~= crate::registry::select_top(pool, POPULATION_KEEP as nat));
            } else {
                assert(kept =~= pool);
            }
        }
        let ghost mut bonuses: Seq<u64> = Seq::empty();
        let survivors = nodes.len();
        let mut k: usize = 0;
        while k < survivors
            invariant
                k <= survivors,
                survivors == nodes@.len(),
                kept.len() == survivors,
                nodes@.len() <= POPULATION_CEILING || nodes@.len() <= old(nodes)@.len(),
                forall|j: int| 0 <= j < nodes@.len() ==> (#[trigger] nodes@[j]).wf(),
                bonuses.len() == k,
                forall|j: int| 0 <= j < k ==> 5_000 <= #[trigger] bonuses[j] < 15_000,
                forall|j: int|
                    0 <= j < k ==> #[trigger] nodes@[j] == bonus_applied(kept[j], bonuses[j]),
                forall|j: int| k <= j < survivors ==> #[trigger] nodes@[j] == kept[j],
            decreases survivors - k,
        {
            let bonus = draw_range(5_000, 15_000);
            let lifted = nodes[k].energy.level.saturating_add(bonus);
            nodes[k].energy.level = if lifted > 120_000 {
                120_000
            } else {
                lifted
            };
            proof {
                bonuses = bonuses.push(bonus);
                assert(nodes@[k as int] == bonus_applied(kept[k as int], bonus));
            }
            k = k + 1;
        }
        proof {
            assert(evolution_outcome(old(nodes)@, nodes@, ticked, kids, bonuses));
        }
    }
}

/// Population ceiling honoured by the evolution pass.
pub const POPULATION_CEILING: usize = crate::registry::POPULATION_CEILING;

/// Population kept by the evolution pass when it culls.
pub const POPULATION_KEEP: usize = crate::registry::POPULATION_KEEP;

/// Population size beyond which the evolution pass declines to run.
pub const OVERPOPULATION_SKIP: usize = crate::registry::OVERPOPULATION_SKIP;

/// The mean of the newest ten recorded results, zero when the window is
/// empty; exactly what [`Memory::average_result`] reports for ten.
pub open spec fn recent_average(m: Memory) -> int {
    let lastn = newest_first(m.short_view(), 10);
    if lastn.len() == 0 {
        0int
    } else {
        sum_results(lastn) / lastn.len() as int
    }
}

/// `b` is `a` raised by one of the cycle's half-to-two-unit nudges.
pub open spec fn lifted_one(a: Node, b: Node) -> bool {
    &&& b == (Node {
        energy: crate::energy::Energy {
            level: b.energy.level,
            node_name: a.energy.node_name,
        },
        ..a
    })
    &&& min_int(u64::MAX as int, a.energy.level + 500) <= b.energy.level
    &&& b.energy.level <= min_int(u64::MAX as int, a.energy.level + 1_999)
}

/// Every agent nudged upward, nothing else changed.
pub open spec fn each_lifted(before: Seq<Node>, after: Seq<Node>) -> bool {
    &&& after.len() == before.len()
    &&& (forall|j: int| 0 <= j < before.len() ==> lifted_one(before[j], #[trigger] after[j]))
}

/// What one evolution pass leaves behind: exactly the promise of
/// [`Brain::evolve_network`].
pub open spec fn evolution_result(before: Seq<Node>, after: Seq<Node>) -> bool {
    &&& (before.len() == 0 || before.len() > OVERPOPULATION_SKIP ==> after == before)
    &&& (0 < before.len() <= OVERPOPULATION_SKIP ==> after.len() <= POPULATION_CEILING
        && (exists|ticked: Seq<Node>, kids: Seq<Node>, bonuses: Seq<u64>|
            #[trigger] evolution_outcome(before, after, ticked, kids, bonuses)))
    &&& (forall|j: int| 0 <= j < after.len() ==> (#[trigger] after[j]).wf())
}

/// `a3` is `a2` after the optional random perturbation: unchanged, or
/// shifted by up to a twentieth and clamped.
pub open spec fn wobbled(a2: int, a3: int) -> bool {
    ||| a3 == a2
    ||| (exists|w: int|
        -50 <= w < 50 && a3 == #[trigger] clamp_int(a2 + w, BAND_MIN as int, 2_000))
}

/// The periodic impulse: reactivity moves a tenth of the way toward one,
/// then is clamped.
pub open spec fn impulse_corrected(a: int) -> int {
    clamp_int(
        if a <= 1_000 {
            a + (1_000 - a) / 10
        } else {
            a - (a - 1_000) / 10
        },
        LEARN_MIN as int,
        2_000,
    )
}

/// Everything one coordinator cycle does, given the drawn outcome `metric`,
/// the recent average `recent` read mid-cycle from `mid_memory`, and the
/// recorded event runs `evs1` (up to the feedback event) and `post` (after
/// it): the analyze event carries the population mean, the feedback event
/// the metric; the reward history takes the metric; reactivity is the
/// learned value re-adjusted by the recent average, possibly perturbed,
/// then impulse-corrected on the cycle's cadence; and the population shows
/// exactly one of the three actions' effects, with the metric in that
/// action's range.
pub open spec fn cycle_outcome(
    before: Brain,
    after: Brain,
    nodes_before: Seq<Node>,
    nodes_after: Seq<Node>,
    metric: u64,
    recent: u64,
    mid_memory: Memory,
    evs1: Seq<crate::memory::BrainEventView>,
    post: Seq<crate::memory::BrainEventView>,
) -> bool {
    let avg = sum_levels(nodes_before) / nodes_before.len() as int;
    let hist = history_after(before.reward_history@, metric);
    let a1 = learned_aggressiveness(before.aggressiveness as nat, sum_u64(hist) / hist.len() as int);
    let a2 = adjusted_aggressiveness(a1 as nat, recent as nat);
    &&& 500 <= metric < 1_000
    &&& after.reward_history@ == hist
    &&& after.tick_counter == before.tick_counter
    &&& crate::memory::events_recorded(before.memory, mid_memory, evs1)
    &&& 2 <= evs1.len() <= 3
    &&& evs1[0].action == "analyze"@
    &&& evs1[0].context == "mean network energy"@
    &&& evs1[0].result == avg as nat
    &&& evs1.last().action == "feedback"@
    &&& evs1.last().context == "action outcome"@
    &&& evs1.last().result == metric as nat
    &&& (evs1.len() == 3 ==> evs1[1].action == "redistribution"@)
    &&& recent as int == recent_average(mid_memory)
    &&& crate::memory::events_recorded(mid_memory, after.memory, post)
    &&& post.len() == (if before.tick_counter % 10 == 0 {
        2int
    } else {
        1int
    })
    &&& post[0].action == "feedback"@
    &&& post[0].result == a2 as nat
    &&& (before.tick_counter % 10 == 0 ==> post[1].action == "reflect"@)
    &&& (exists|a3: int|
        #[trigger] wobbled(a2, a3) && after.aggressiveness == if before.tick_counter % 5 == 0 {
            impulse_corrected(a3)
        } else {
            a3
        })
    &&& ({
        ||| (700 <= metric && (exists|mid: Seq<Node>|
            #[trigger] each_lifted(nodes_before, mid) && evolution_result(mid, nodes_after)))
        ||| (700 <= metric && redistributed_nodes(nodes_before, nodes_after))
        ||| (metric < 800 && each_lifted(nodes_before, nodes_after))
    })
}

impl Brain {
    /// One full coordinator cycle over a non-empty population: scan,
    /// analyse (an `analyze` event carrying the mean energy), decide by a
    /// weighted random draw among evolve, help and rest, act, record a
    /// `feedback` event, learn from the outcome, and self-regulate.
    /// Whatever reactivity the cycle started with, it ends inside
    /// [`BAND_MIN`], [`BAND_MAX`]. An empty population skips the cycle.
    #[verifier::rlimit(60)]
    pub fn run_cycle(
        &mut self,
        nodes: &mut Vec<Node>,
        fund: &mut crate::economy::NetworkFund,
        bus: &mut NetworkBus,
    )
        requires
            forall|j: int| 0 <= j < old(nodes)@.len() ==> (#[trigger] old(nodes)@[j]).wf(),
            crate::node::distinct_names(old(nodes)@),
            old(self).memory.wf(),
        ensures
            final(self).tick_counter == old(self).tick_counter,
            final(self).memory.max_short == old(self).memory.max_short,
            final(self).memory.max_long == old(self).memory.max_long,
            final(self).memory.wf(),
            *final(fund) == *old(fund),
            old(nodes)@.len() == 0 ==> *final(self) == *old(self) && final(nodes)@ == old(
                nodes,
            )@ && final(bus).queue@ == old(bus).queue@,
            old(nodes)@.len() > 0 ==> BAND_MIN <= final(self).aggressiveness <= BAND_MAX,
            final(nodes)@.len() <= old(nodes)@.len() || final(nodes)@.len()
                <= POPULATION_CEILING as int,
            forall|j: int| 0 <= j < final(nodes)@.len() ==> (#[trigger] final(nodes)@[j]).wf(),
            old(nodes)@.len() > 0 ==> (exists|
                metric: u64,
                recent: u64,
                mid_memory: Memory,
                evs1: Seq<crate::memory::BrainEventView>,
                post: Seq<crate::memory::BrainEventView>,
            |
                #[trigger] cycle_outcome(
                    *old(self),
                    *final(self),
                    old(nodes)@,
                    final(nodes)@,
                    metric,
                    recent,
                    mid_memory,
                    evs1,
                    post,
                )),
    {
        let total = nodes.len();
        if total == 0 {
            return ;
        }
        let mut acc: u128 = 0;
        let mut i: usize = 0;
        while i < total
            invariant
                i <= total,
                total == nodes@.len(),
                nodes@ == old(nodes)@,
                acc == sum_levels(nodes@.take(i as int)),
                acc <= i * (u64::MAX as int),
            decreases total - i,
        {
            acc = acc + nodes[i].energy.level as u128;
            i = i + 1;
            proof {
                assert(nodes@.take(i as int).drop_last() =~= nodes@.take(i - 1));
                assert(nodes@.take(i as int).last() == nodes@[i - 1]);
            }
        }
        proof {
            assert(nodes@.take(total as int) =~= nodes@);
            assert(acc / (total as u128) <= u64::MAX) by (nonlinear_arith)
                requires
                    acc <= total * (u64::MAX as int),
                    total >= 1,
            ;
        }
        let avg_energy = (acc / (total as u128)) as u64;
        let ghost m0 = self.memory;
        let analyze_event = BrainEvent::new("analyze", "mean network energy", avg_energy);
        let ghost ev_analyze = analyze_event@;
        self.memory.add_event(analyze_event);
        let ghost m_a = self.memory;
        proof {
            let now = choose|now: i64| crate::memory::added_at(m0, m_a, ev_analyze, now);
            crate::memory::lemma_events_recorded_single(m0, m_a, ev_analyze, now);
        }
        let evolve_chance = crate::fixmath::clamp_u64(avg_energy / 100, 100, 900);
        let decide_draw = crate::rng::draw_below(1_000);
        let result_metric: u64;
        let ghost mut evs_mid: Seq<crate::memory::BrainEventView> = Seq::empty();
        if decide_draw < evolve_chance {
            let mut k: usize = 0;
            let nudge_total = nodes.len();
            while k < nudge_total
                invariant
                    k <= nudge_total,
                    nudge_total == nodes@.len(),
                    nodes@.len() == old(nodes)@.len(),
                    forall|j: int| 0 <= j < nodes@.len() ==> (#[trigger] nodes@[j]).wf(),
                    forall|j: int| 0 <= j < k ==> lifted_one(old(nodes)@[j], #[trigger] nodes@[j]),
                    forall|j: int| k <= j < nodes@.len() ==> #[trigger] nodes@[j] == old(nodes)@[j],
                    forall|j: int|
                        0 <= j < nodes@.len() ==> (#[trigger] nodes@[j]).name@ == old(
                            nodes,
                        )@[j].name@,
                    crate::node::distinct_names(old(nodes)@),
                decreases nudge_total - k,
            {
                let lift = crate::rng::draw_range(500, 2_000);
                let lifted = nodes[k].energy.level.saturating_add(lift);
                nodes[k].energy.level = lifted;
                k = k + 1;
            }
            let ghost mid_nodes = nodes@;
            proof {
                assert(each_lifted(old(nodes)@, mid_nodes));
                assert(crate::node::distinct_names(nodes@));
            }
            self.evolve_network(nodes, bus);
            proof {
                assert(evolution_result(mid_nodes, nodes@));
            }
            result_metric = crate::rng::draw_range(700, 1_000);
        } else if avg_energy > 40_000 {
            let ghost brain_before_help = *self;
            self.redistribute_energy(nodes, fund, avg_energy);
            proof {
                evs_mid = choose|evs: Seq<crate::memory::BrainEventView>|
                    crate::memory::events_recorded(brain_before_help.memory, self.memory, evs)
                        && evs.len() <= 1 && (forall|k2: int|
                        0 <= k2 < evs.len() ==> (#[trigger] evs[k2]).action == "redistribution"@);
            }
            result_metric = crate::rng::draw_range(700, 1_000);
        } else {
            let mut k: usize = 0;
            let nudge_total = nodes.len();
            while k < nudge_total
                invariant
                    k <= nudge_total,
                    nudge_total == nodes@.len(),
                    nodes@.len() == old(nodes)@.len(),
                    forall|j: int| 0 <= j < nodes@.len() ==> (#[trigger] nodes@[j]).wf(),
                    forall|j: int| 0 <= j < k ==> lifted_one(old(nodes)@[j], #[trigger] nodes@[j]),
                    forall|j: int| k <= j < nodes@.len() ==> #[trigger] nodes@[j] == old(nodes)@[j],
                decreases nudge_total - k,
            {
                let lift = crate::rng::draw_range(500, 2_000);
                let lifted = nodes[k].energy.level.saturating_add(lift);
                nodes[k].energy.level = lifted;
                k = k + 1;
            }
            proof {
                assert(each_lifted(old(nodes)@, nodes@));
            }
            result_metric = crate::rng::draw_range(500, 800);
        }
        let ghost m_b = self.memory;
        let feedback_event = BrainEvent::new("feedback", "action outcome", result_metric);
        let ghost ev_feedback = feedback_event@;
        self.memory.add_event(feedback_event);
        let ghost m_c = self.memory;
        let ghost evs1 = seq![ev_analyze] + evs_mid + seq![ev_feedback];
        proof {
            let now = choose|now: i64| crate::memory::added_at(m_b, m_c, ev_feedback, now);
            crate::memory::lemma_events_recorded_single(m_b, m_c, ev_feedback, now);
            crate::memory::lemma_events_recorded_concat(
                m0,
                m_a,
                m_b,
                seq![ev_analyze],
                evs_mid,
            );
            crate::memory::lemma_events_recorded_concat(
                m0,
                m_b,
                m_c,
                seq![ev_analyze] + evs_mid,
                seq![ev_feedback],
            );
            assert(evs1[0] == ev_analyze);
            assert(evs1.last() == ev_feedback);
            assert(evs1.len() == 3 ==> evs1[1] == evs_mid[0]);
        }
        self.learn_from_feedback(result_metric);
        let ghost a1 = self.aggressiveness as int;
        let recent_avg = self.memory.average_result(10);
        let ghost mid_memory = self.memory;
        proof {
            assert(mid_memory == m_c);
            assert(recent_avg as int == recent_average(mid_memory));
        }
        if recent_avg < 400 {
            self.aggressiveness = crate::fixmath::mul_div(self.aggressiveness, 1_150, 1_000);
        } else if recent_avg > 800 {
            self.aggressiveness = crate::fixmath::mul_div(self.aggressiveness, 900, 1_000);
        } else {
            self.aggressiveness = crate::fixmath::mul_div(self.aggressiveness, 1_020, 1_000);
        }
        let ghost a2 = self.aggressiveness as int;
        proof {
            assert(180 <= self.aggressiveness <= 3_450);
            assert(a2 == adjusted_aggressiveness(a1 as nat, recent_avg as nat));
        }
        let note_context: &str = if recent_avg < 400 {
            "reactivity raised"
        } else if recent_avg > 800 {
            "reactivity lowered"
        } else {
            "holding course"
        };
        let note = BrainEvent::new("feedback", note_context, self.aggressiveness);
        let ghost ev_note = note@;
        self.memory.add_event(note);
        let ghost m_d = self.memory;
        proof {
            let now = choose|now: i64| crate::memory::added_at(mid_memory, m_d, ev_note, now);
            crate::memory::lemma_events_recorded_single(mid_memory, m_d, ev_note, now);
        }
        if crate::rng::draw_below(1_000) < 200 {
            let wobble = crate::rng::draw_signed(50);
            self.aggressiveness = crate::fixmath::shift_clamp(
                self.aggressiveness,
                wobble,
                BAND_MIN,
                2_000,
            );
        }
        let ghost a3 = self.aggressiveness as int;
        proof {
            assert(wobbled(a2, a3));
        }
        let ghost mut post: Seq<crate::memory::BrainEventView> = seq![ev_note];
        if self.tick_counter % 10 == 0 {
            let reflect_note = BrainEvent::new("reflect", "cycle self-review", self.aggressiveness);
            let ghost ev_reflect = reflect_note@;
            self.memory.add_event(reflect_note);
            proof {
                let now = choose|now: i64|
                    crate::memory::added_at(m_d, self.memory, ev_reflect, now);
                crate::memory::lemma_events_recorded_single(m_d, self.memory, ev_reflect, now);
                crate::memory::lemma_events_recorded_concat(
                    mid_memory,
                    m_d,
                    self.memory,
                    seq![ev_note],
                    seq![ev_reflect],
                );
                post = seq![ev_note, ev_reflect];
                assert(post =~= seq![ev_note] + seq![ev_reflect]);
            }
        }
        if self.tick_counter % 5 == 0 {
            let a = self.aggressiveness;
            let toward = if a <= 1_000 {
                a + (1_000 - a) / 10
            } else {
                a - (a - 1_000) / 10
            };
            self.aggressiveness = crate::fixmath::clamp_u64(toward, LEARN_MIN, 2_000);
        }
        proof {
            assert(self.tick_counter % 5 == 0 ==> self.aggressiveness as int
                == impulse_corrected(a3));
            assert(self.tick_counter % 5 != 0 ==> self.aggressiveness as int == a3);
            assert(cycle_outcome(
                *old(self),
                *self,
                old(nodes)@,
                nodes@,
                result_metric,
                recent_avg,
                mid_memory,
                evs1,
                post,
            ));
        }
    }
}

/// A redistribution conserves energy: what the strongest agent loses, the
/// weakest gains, exactly.
pub proof fn lemma_redistribution_conserves(l: nat, h: nat)
    requires
        h >= l,
    ensures
        redistribution_levels(l, h).0 + redistribution_levels(l, h).1 == l + h,
{
}

} // verus!
