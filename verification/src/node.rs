//! An autonomous agent: energy, scalar traits, record chains, a wallet, and
//! the per-tick behaviour that drives the simulation.
//!
//! Traits are milli-unit scalars: efficiency and altruism live in `[0, 1]`,
//! resilience in `[0, 1.5]`, experience grows without bound. The tick is a
//! state transition from the agent plus its surroundings (peer names and
//! the message bus) to the next agent state and an optional child.

use vstd::prelude::*;
use vstd::string::StringExecFns;
use crate::chain::Chain;
use crate::chain::ChainView;
use crate::energy::Energy;
use crate::interaction::Message;
use crate::interaction::MessageType;
use crate::interaction::NetworkBus;
use crate::fixmath::clamp_int;
use crate::fixmath::min_int;
use crate::fixmath::mul_div;
use crate::fixmath::shift_clamp;
use crate::clock::now_millis;
use crate::numfmt::dec_str;
use crate::numfmt::hex_str;
use crate::numfmt::push_dec;
use crate::numfmt::u64_to_hex_string;
use crate::rng::draw_below;
use crate::rng::draw_range;
use crate::rng::draw_range_inclusive;
use crate::rng::draw_signed;
use crate::rng::random_u64;
use crate::synapse::Synapse;
use crate::synapse::SynapseChain;
use crate::wallet::Wallet;

verus! {

/// Energy drained from an agent at the start of every tick.
pub const DECAY_PER_TICK: u64 = 1_000;

/// Energy above which a ticking agent reproduces.
pub const REPLICATION_THRESHOLD: u64 = 1_000;

/// Energy a parent pays on reproduction; zero by configuration, which
/// leaves growth bounded only by the population cull.
pub const REPRODUCTION_COST: u64 = 0;

/// Largest signed drift applied to a child's altruism.
pub const MUTATION_RATE: u64 = 50;

/// Ceiling on resilience.
pub const RESILIENCE_CAP: u64 = 1_500;

/// The mathematical content of one agent.
#[verifier::ext_equal]
pub ghost struct NodeView {
    pub name: Seq<char>,
    pub energy: nat,
    pub efficiency: nat,
    pub altruism: nat,
    pub resilience: nat,
    pub experience: nat,
    pub data_chain: ChainView,
    pub key_chain: ChainView,
    pub synapses: Seq<Synapse>,
    pub connections: Seq<Seq<char>>,
    pub balance: nat,
}

/// One agent of the population.
#[derive(Debug)]
pub struct Node {
    pub name: String,
    pub energy: Energy,
    pub efficiency: u64,
    pub altruism: u64,
    pub resilience: u64,
    pub experience: u64,
    pub data_chain: Chain,
    pub key_chain: Chain,
    pub synapse_chain: SynapseChain,
    pub connections: Vec<String>,
    pub wallet: Wallet,
}

impl View for Node {
    type V = NodeView;

    open spec fn view(&self) -> NodeView {
        NodeView {
            name: self.name@,
            energy: self.energy.level as nat,
            efficiency: self.efficiency as nat,
            altruism: self.altruism as nat,
            resilience: self.resilience as nat,
            experience: self.experience as nat,
            data_chain: self.data_chain@,
            key_chain: self.key_chain@,
            synapses: self.synapse_chain.synapses@,
            connections: self.connections@.map_values(|c: String| c@),
            balance: self.wallet.balance as nat,
        }
    }
}

/// A child's starting energy: three tenths of the parent's, plus a bonus.
pub open spec fn child_energy(parent_energy: nat, bonus: int) -> int {
    min_int(u64::MAX as int, parent_energy * 3 / 10 + bonus)
}

/// The name a child receives: the parent's name, a fixed infix, and the
/// creation time in milliseconds.
pub open spec fn child_name(parent: Seq<char>, millis: nat) -> Seq<char> {
    parent + "_child_"@ + dec_str(millis)
}

impl Node {
    /// Trait scalars inside their documented bands, and the energy cell
    /// tagged with this agent's name.
    pub open spec fn wf(self) -> bool {
        &&& self.efficiency <= 1_000
        &&& self.altruism <= 1_000
        &&& self.resilience <= RESILIENCE_CAP
        &&& self.energy.node_name@ == self.name@
    }

    /// A fresh agent: full energy, efficiency one, altruism and resilience
    /// one half, no experience, genesis chains, no links, an empty wallet.
    pub fn new(name: &str) -> (n: Node)
        ensures
            n.wf(),
            n@.name == name@,
            n@.energy == 100_000,
            n@.efficiency == 1_000,
            n@.altruism == 500,
            n@.resilience == 500,
            n@.experience == 0,
            n@.data_chain.name == name@ + "_data"@,
            n@.data_chain.blocks =~= seq![crate::chain::genesis_view()],
            n@.key_chain.name == name@ + "_key"@,
            n@.key_chain.blocks =~= seq![crate::chain::genesis_view()],
            n@.synapses =~= Seq::<Synapse>::empty(),
            n@.connections =~= Seq::<Seq<char>>::empty(),
            n@.balance == 0,
    {
        let mut data_name = name.to_owned();
        data_name.append("_data");
        let mut key_name = name.to_owned();
        key_name.append("_key");
        let n = Node {
            name: name.to_owned(),
            energy: Energy::new(name),
            efficiency: 1_000,
            altruism: 500,
            resilience: 500,
            experience: 0,
            data_chain: Chain::new(data_name.as_str()),
            key_chain: Chain::new(key_name.as_str()),
            synapse_chain: SynapseChain::new(),
            connections: Vec::new(),
            wallet: Wallet::new(),
        };
        proof {
            assert(n@.connections =~= Seq::<Seq<char>>::empty());
        }
        n
    }

    /// A deep copy with the same content, for handing to another task.
    pub fn clone_for_net(&self) -> (r: Node)
        ensures
            r@ == self@,
            r.wf() == self.wf(),
    {
        let r = Node {
            name: self.name.clone(),
            energy: self.energy.clone(),
            efficiency: self.efficiency,
            altruism: self.altruism,
            resilience: self.resilience,
            experience: self.experience,
            data_chain: self.data_chain.clone(),
            key_chain: self.key_chain.clone(),
            synapse_chain: self.synapse_chain.clone(),
            connections: clone_names(&self.connections),
            wallet: self.wallet,
        };
        proof {
            assert(r@ =~= self@);
        }
        r
    }

    /// Nudge altruism by the current energy: up when energy is high, down
    /// when it is low, by one small fixed step, clamped to its band.
    pub fn local_learn(&mut self)
        ensures
            *final(self) == (Node { altruism: final(self).altruism, ..*old(self) }),
            old(self).energy.level > 150_000 ==> final(self).altruism == min_int(
                1_000,
                old(self).altruism + 2,
            ),
            old(self).energy.level < 50_000 ==> final(self).altruism == if old(self).altruism >= 2 {
                old(self).altruism - 2
            } else {
                0int
            },
            50_000 <= old(self).energy.level <= 150_000 ==> final(self).altruism == old(self).altruism,
    {
        let energy = self.energy.level;
        if energy > 150_000 {
            let bumped = self.altruism.saturating_add(2);
            self.altruism = if bumped > 1_000 {
                1_000
            } else {
                bumped
            };
        } else if energy < 50_000 {
            self.altruism = self.altruism.saturating_sub(2);
        }
    }

    /// The child made at `millis` with the given energy bonus and altruism
    /// drift: a fresh agent whose energy is three tenths of the parent's
    /// plus the bonus, and whose altruism is the parent's shifted by the
    /// drift and clamped to its band.
    pub fn spawn_child_at(&self, millis: u64, bonus: u64, mutation: i64) -> (c: Node)
        requires
            self.wf(),
            5_000 <= bonus < 15_000,
            -(MUTATION_RATE as int) <= mutation < MUTATION_RATE as int,
        ensures
            c.wf(),
            c@.name == child_name(self@.name, millis as nat),
            c@.altruism == clamp_int(self@.altruism + mutation, 0, 1_000),
            c@.energy == min_int(u64::MAX as int, self@.energy * 3 / 10 + bonus),
            c@.efficiency == 1_000,
            c@.resilience == 500,
            c@.experience == 0,
            c@.balance == 0,
    {
        let mut name = self.name.clone();
        name.append("_child_");
        push_dec(&mut name, millis);
        let mut c = Node::new(name.as_str());
        c.altruism = shift_clamp(self.altruism, mutation, 0, 1_000);
        let base = mul_div(self.energy.level, 3, 10);
        c.energy.level = base.saturating_add(bonus);
        c
    }

    /// Reproduce now: the bonus and drift are drawn fresh, the name carries
    /// the current time in milliseconds.
    pub fn spawn_child(&self) -> (c: Node)
        requires
            self.wf(),
        ensures
            c.wf(),
            c@.altruism <= 1_000,
            -(MUTATION_RATE as int) <= c@.altruism - self@.altruism <= MUTATION_RATE as int
                || c@.altruism == 0 || c@.altruism == 1_000,
            (exists|b: int|
                5_000 <= b < 15_000 && c@.energy == #[trigger] child_energy(self@.energy, b)),
            (exists|ms: nat| c@.name == child_name(self@.name, ms)),
            c@.efficiency == 1_000,
            c@.resilience == 500,
            c@.experience == 0,
            c@.balance == 0,
    {
        let ms_raw = now_millis();
        let millis: u64 = if ms_raw < 0 {
            0
        } else {
            ms_raw as u64
        };
        let bonus = draw_range(5_000, 15_000);
        let mutation = draw_signed(MUTATION_RATE);
        let c = self.spawn_child_at(millis, bonus, mutation);
        proof {
            assert(5_000 <= bonus < 15_000 && c@.energy == child_energy(
                self@.energy,
                bonus as int,
            ));
            assert(c@.name == child_name(self@.name, millis as nat));
        }
        c
    }

    /// Credit the fixed reward for producing a record.
    pub fn mine_block(&mut self)
        ensures
            *final(self) == (Node { wallet: final(self).wallet, ..*old(self) }),
            final(self).wallet.balance == min_int(
                u64::MAX as int,
                old(self).wallet.balance + 2_000,
            ),
    {
        self.wallet.deposit(2_000);
    }

    /// Two fresh root identifiers, rendered in hexadecimal.
    pub fn mine_data(&self) -> (r: (String, String))
        ensures
            (exists|a: u64| r.0@ == hex_str(a as nat)),
            (exists|b: u64| r.1@ == hex_str(b as nat)),
    {
        let a = random_u64();
        let b = random_u64();
        let data_root = u64_to_hex_string(a);
        let key_root = u64_to_hex_string(b);
        proof {
            assert(data_root@ == hex_str(a as nat));
            assert(key_root@ == hex_str(b as nat));
        }
        (data_root, key_root)
    }

    /// Seal a record into the key chain for the winning validator.
    pub fn finalize_keyblock(&mut self, data_root: String, key_root: String, winner: &str)
        requires
            old(self).key_chain@.blocks.len() < u64::MAX,
        ensures
            *final(self) == (Node { key_chain: final(self).key_chain, ..*old(self) }),
            final(self).key_chain@.name == old(self).key_chain@.name,
            final(self).key_chain@.blocks =~= old(self).key_chain@.blocks.push(
                crate::chain::BlockView {
                    index: old(self).key_chain@.blocks.len(),
                    data_root: data_root@,
                    key_root: key_root@,
                    validator: winner@,
                    hash: crate::chain::block_hash(
                        old(self).key_chain@.blocks.len(),
                        data_root@,
                        key_root@,
                        winner@,
                    ),
                },
            ),
    {
        self.key_chain.add_block(data_root, key_root, winner.to_owned());
    }

    /// One line per record of the data chain.
    pub fn get_chain_summary(&self) -> (lines: Vec<String>)
        ensures
            lines@.len() == self@.data_chain.blocks.len(),
            forall|i: int|
                0 <= i < lines@.len() ==> (#[trigger] lines@[i])@ == "Block "@ + dec_str(
                    self@.data_chain.blocks[i].index,
                ) + ": "@ + self@.data_chain.blocks[i].hash,
    {
        self.data_chain.summary_lines()
    }
}

impl Clone for Node {
    /// A deep copy with the same content.
    fn clone(&self) -> (r: Self)
        ensures
            r@ == self@,
            r.wf() == self.wf(),
    {
        self.clone_for_net()
    }
}

/// Copy a list of names, preserving its content.
fn clone_names(names: &Vec<String>) -> (r: Vec<String>)
    ensures
        r@.map_values(|c: String| c@) =~= names@.map_values(|c: String| c@),
{
    let mut r: Vec<String> = Vec::new();
    let mut i: usize = 0;
    while i < names.len()
        invariant
            i <= names@.len(),
            r@.len() == i,
            forall|j: int| 0 <= j < i ==> (#[trigger] r@[j])@ == names@[j]@,
        decreases names@.len() - i,
    {
        r.push(names[i].clone());
        i = i + 1;
    }
    proof {
        let rm = r@.map_values(|c: String| c@);
        let nm = names@.map_values(|c: String| c@);
        assert forall|j: int| 0 <= j < rm.len() implies #[trigger] rm[j] == nm[j] by {
            assert(r@[j]@ == names@[j]@);
        }
        assert(rm =~= nm);
    }
    r
}

/// The energy credited for one unit of work: the draw scaled up by the
/// worker's efficiency.
pub open spec fn work_reward(d: int, efficiency: nat) -> int {
    d * (1_000 + efficiency) / 1_000
}

impl Node {
    /// Give a tenth of this agent's energy, at most ten units, to a weaker
    /// agent: only when the giver holds at least thirty units and the
    /// target less than twenty. The transfer is exact: what one loses the
    /// other gains.
    pub fn share_energy(&mut self, target: &mut Node)
        ensures
            *final(self) == (Node {
                energy: Energy {
                    level: final(self).energy.level,
                    node_name: old(self).energy.node_name,
                },
                ..*old(self)
            }),
            *final(target) == (Node {
                energy: Energy {
                    level: final(target).energy.level,
                    node_name: old(target).energy.node_name,
                },
                ..*old(target)
            }),
            old(self).energy.level < 30_000 || old(target).energy.level >= 20_000 ==> final(self).energy.level == old(self).energy.level && final(target).energy.level == old(target).energy.level,
            old(self).energy.level >= 30_000 && old(target).energy.level < 20_000 ==> ({
                let t = min_int(10_000, old(self).energy.level as int / 10);
                &&& final(self).energy.level == old(self).energy.level - t
                &&& final(target).energy.level == old(target).energy.level + t
            }),
            final(self).energy.level + final(target).energy.level == old(self).energy.level + old(target).energy.level,
    {
        if self.energy.level < 30_000 {
            return ;
        }
        if target.energy.level < 20_000 {
            let tenth = self.energy.level / 10;
            let transfer = if tenth > 10_000 {
                10_000
            } else {
                tenth
            };
            self.energy.consume(transfer);
            target.energy.restore(transfer);
        }
    }

    /// One step of this agent's life: decay, death check, a random choice
    /// between cooperating (a message on the bus plus a local debit) and
    /// working (an efficiency-scaled energy credit), local learning, and a
    /// reproduction check. Returns the child when one was made, which is
    /// exactly when the closing energy clears the replication threshold.
    pub fn tick_node(
        &mut self,
        peers: &Vec<String>,
        bus: &mut NetworkBus,
        _tick_counter: u64,
    ) -> (child: Option<Node>)
        requires
            old(self).wf(),
            forall|i: int| 0 <= i < peers@.len() ==> (#[trigger] peers@[i])@ != old(self).name@,
        ensures
            final(self).wf(),
            *final(self) == (Node {
                energy: Energy {
                    level: final(self).energy.level,
                    node_name: old(self).energy.node_name,
                },
                altruism: final(self).altruism,
                ..*old(self)
            }),
            final(self).altruism <= 1_000,
            -2 <= final(self).altruism - old(self).altruism <= 2,
            final(bus).capacity == old(bus).capacity,
            old(self).energy.level <= DECAY_PER_TICK ==> final(self).energy.level == 0 && final(self).altruism == old(self).altruism && child is None && final(bus).queue@ == old(bus).queue@,
            old(self).energy.level > DECAY_PER_TICK ==> (child is Some <==> final(self).energy.level > REPLICATION_THRESHOLD),
            old(self).energy.level > DECAY_PER_TICK ==> behaved(
                old(self).energy.level as nat,
                final(self).energy.level as nat,
                old(bus).queue@,
                final(bus).queue@,
                old(bus).capacity as nat,
                old(self).name@,
                peers@.map_values(|p: String| p@),
                old(self).efficiency as nat,
            ),
            child is Some ==> ({
                let c = child.unwrap();
                &&& c.wf()
                &&& c@.efficiency == 1_000
                &&& c@.experience == 0
                &&& c@.balance == 0
                &&& -(MUTATION_RATE as int) <= c@.altruism - final(self)@.altruism <= (
                MUTATION_RATE as int) || c@.altruism == 0 || c@.altruism == 1_000
                &&& (exists|b: int|
                    5_000 <= b < 15_000 && c@.energy == #[trigger] child_energy(
                        final(self)@.energy,
                        b,
                    ))
                &&& (exists|ms: nat| c@.name == child_name(final(self)@.name, ms))
            }),
    {
        let ghost e0 = old(self).energy.level as nat;
        let ghost q0 = old(bus).queue@;
        let ghost cap = old(bus).capacity as nat;
        let ghost sender = old(self).name@;
        let ghost mapped = peers@.map_values(|p: String| p@);
        let ghost eff0 = old(self).efficiency as nat;
        self.energy.consume(DECAY_PER_TICK);
        if self.energy.level == 0 {
            return None;
        }
        let energy_level = self.energy.level;
        let coop_draw = draw_below(1_000);
        if coop_draw < self.altruism && energy_level > 1_000 {
            if peers.len() > 0 {
                let idx = draw_below(peers.len() as u64) as usize;
                if self.name == peers[idx] {
                    return None;
                }
                let msg = Message::new(
                    self.name.as_str(),
                    Some(peers[idx].as_str()),
                    MessageType::EnergyTransfer,
                    5_000,
                    None,
                );
                proof {
                    assert(mapped[idx as int] == peers@[idx as int]@);
                    assert(msg@.to == Some(mapped[idx as int]));
                }
                let _queued = bus.send(msg);
                self.energy.consume(1_000);
                proof {
                    if q0.len() < cap {
                        assert(bus.queue@.last() == msg);
                        assert(bus.queue@.drop_last() =~= q0);
                    }
                    assert(cooperated(q0, bus.queue@, cap, sender, mapped));
                }
            }
        } else {
            let d = draw_range(2_000, 5_000);
            let eff = self.efficiency;
            let reward = mul_div(d, 1_000 + eff, 1_000);
            self.energy.level = self.energy.level.saturating_add(reward);
            proof {
                assert(d * (1_000 + eff) <= 5_000 * 2_000) by (nonlinear_arith)
                    requires
                        d < 5_000,
                        eff <= 1_000,
                ;
                assert(reward == work_reward(d as int, eff0));
                assert(self.energy.level == min_int(
                    u64::MAX as int,
                    (e0 - DECAY_PER_TICK) + work_reward(d as int, eff0),
                ));
            }
        }
        proof {
            assert(behaved(e0, self.energy.level as nat, q0, bus.queue@, cap, sender, mapped, eff0));
        }
        self.local_learn();
        let energy_val = self.energy.level;
        if energy_val > REPLICATION_THRESHOLD {
            let child = self.spawn_child();
            self.energy.consume(REPRODUCTION_COST);
            return Some(child);
        }
        None
    }
}

/// What one surviving tick does to energy and the bus: either nothing
/// happened beyond decay (idle), or a cooperation message went out and its
/// cost was debited, or a work reward was credited.
pub open spec fn behaved(
    e0: nat,
    e_now: nat,
    queue_before: Seq<crate::interaction::Message>,
    queue_after: Seq<crate::interaction::Message>,
    capacity: nat,
    sender: Seq<char>,
    peers: Seq<Seq<char>>,
    efficiency: nat,
) -> bool {
    let e1 = e0 - DECAY_PER_TICK;
    ||| (peers.len() == 0 && e_now == e1 && queue_after == queue_before)
    ||| (e1 > 1_000 && e_now == e1 - 1_000 && cooperated(
        queue_before,
        queue_after,
        capacity,
        sender,
        peers,
    ))
    ||| ((exists|d: int|
        2_000 <= d < 5_000 && e_now == min_int(
            u64::MAX as int,
            e1 + #[trigger] work_reward(d, efficiency),
        )) && queue_after == queue_before)
}

/// One energy-transfer message went out, or the bus was full and refused
/// it: the queue either grew by exactly one transfer of five units from
/// `sender` to one of `peers`, or was already at capacity and is unchanged.
pub open spec fn cooperated(
    queue_before: Seq<crate::interaction::Message>,
    queue_after: Seq<crate::interaction::Message>,
    capacity: nat,
    sender: Seq<char>,
    peers: Seq<Seq<char>>,
) -> bool {
    ||| (queue_before.len() >= capacity && queue_after == queue_before)
    ||| (queue_before.len() < capacity && queue_after.len() == queue_before.len() + 1
        && queue_after.drop_last() == queue_before && ({
        let m = queue_after.last()@;
        &&& m.from == sender
        &&& m.msg_type == MessageType::EnergyTransfer
        &&& m.value == 5_000
        &&& (exists|t: int| 0 <= t < peers.len() && m.to == Some(#[trigger] peers[t]))
    }))
}

impl Node {
    /// Attempt to seal a key record: an exhausted agent declines; otherwise
    /// it pays five units, recovers half a unit, and a random threshold
    /// decides whether it wins. A winner links one more learning unit,
    /// appends the payload to its data chain and the key root to its key
    /// chain, and recovers ten units. The payload is whatever the caller
    /// trained outside; this function is verified for every payload.
    pub fn try_commit_keyblock(
        &mut self,
        _data_root: String,
        key_root: String,
        payload: String,
    ) -> (r: (u64, bool))
        requires
            old(self).wf(),
            old(self).data_chain@.blocks.len() < u64::MAX,
            old(self).key_chain@.blocks.len() < u64::MAX,
        ensures
            final(self).wf(),
            *final(self) == (Node {
                energy: Energy {
                    level: final(self).energy.level,
                    node_name: old(self).energy.node_name,
                },
                data_chain: final(self).data_chain,
                key_chain: final(self).key_chain,
                synapse_chain: final(self).synapse_chain,
                ..*old(self)
            }),
            old(self).energy.level == 0 ==> r == (0u64, false) && *final(self) == *old(self),
            old(self).energy.level > 0 ==> r.1 == true && 1 <= r.0 <= 1_000 && ({
                let e1 = min_int(
                    100_000,
                    (if 5_000 >= old(self).energy.level {
                        0int
                    } else {
                        old(self).energy.level - 5_000
                    }) + 500,
                );
                ||| (final(self).energy.level == e1 && final(self).data_chain@ == old(self)@.data_chain && final(self).key_chain@ == old(self)@.key_chain && final(self).synapse_chain.synapses@ == old(self)@.synapses)
                ||| (final(self).energy.level == min_int(100_000, e1 + 10_000) && committed(
                    old(self)@,
                    final(self)@,
                    key_root@,
                    payload@,
                ))
            }),
    {
        let ghost kr = key_root@;
        let ghost pl = payload@;
        if self.energy.level == 0 {
            return (0, false);
        }
        self.energy.consume(5_000);
        self.energy.restore(500);
        let proof_value = draw_below(500);
        if proof_value > 250 {
            let chain_len = self.data_chain.blocks.len() as u64;
            let ghost pre = *self;
            if chain_len > 0 {
                let weight = draw_below(1_000);
                self.synapse_chain.connect(chain_len - 1, chain_len, weight);
                proof {
                    assert(weight < 1_000 && self.synapse_chain.synapses@
                        == pre.synapse_chain.synapses@.push(
                        Synapse {
                            from_id: (chain_len - 1) as u64,
                            to_id: chain_len,
                            weight,
                        },
                    ));
                }
            }
            self.data_chain.add_block(payload, "key_placeholder".to_owned(), self.name.clone());
            self.key_chain.add_block("data_hash".to_owned(), key_root, self.name.clone());
            self.energy.restore(10_000);
            proof {
                if chain_len > 0 {
                    assert(self.synapse_chain.synapses@.drop_last()
                        =~= old(self).synapse_chain.synapses@);
                }
                assert(committed(old(self)@, self@, kr, pl));
            }
        }
        let commit_value = draw_range_inclusive(1, 1_000);
        (commit_value, true)
    }

    /// Adopt another data chain when it is strictly longer; keep the local
    /// one otherwise.
    pub fn try_merge_chain(&mut self, other: Chain)
        ensures
            *final(self) == (Node { data_chain: final(self).data_chain, ..*old(self) }),
            other@.blocks.len() > old(self).data_chain@.blocks.len() ==> final(self).data_chain@
                == other@,
            other@.blocks.len() <= old(self).data_chain@.blocks.len() ==> final(self).data_chain@
                == old(self).data_chain@,
    {
        if other.blocks.len() > self.data_chain.blocks.len() {
            self.data_chain = other;
        }
    }

    /// Append one synchronisation record per received validator to each
    /// chain, in order, with fixed roots.
    pub fn add_sync_blocks(&mut self, data_validators: &Vec<String>, key_validators: &Vec<String>)
        requires
            old(self).data_chain@.blocks.len() + data_validators@.len() < u64::MAX,
            old(self).key_chain@.blocks.len() + key_validators@.len() < u64::MAX,
        ensures
            *final(self) == (Node {
                data_chain: final(self).data_chain,
                key_chain: final(self).key_chain,
                ..*old(self)
            }),
            final(self).data_chain@.name == old(self).data_chain@.name,
            final(self).key_chain@.name == old(self).key_chain@.name,
            final(self).data_chain@.blocks.len() == old(self).data_chain@.blocks.len()
                + data_validators@.len(),
            final(self).key_chain@.blocks.len() == old(self).key_chain@.blocks.len()
                + key_validators@.len(),
            final(self).data_chain@.blocks.take(old(self).data_chain@.blocks.len() as int) == old(self).data_chain@.blocks,
            forall|j: int|
                0 <= j < data_validators@.len() ==> final(self).data_chain@.blocks[old(self).data_chain@.blocks.len() + j].validator == (#[trigger] data_validators@[j])@,
            old(self).data_chain.wf() ==> final(self).data_chain.wf(),
            old(self).key_chain.wf() ==> final(self).key_chain.wf(),
    {
        let mut i: usize = 0;
        while i < data_validators.len()
            invariant
                i <= data_validators@.len(),
                old(self).data_chain@.blocks.len() + data_validators@.len() < u64::MAX,
                self.data_chain@.blocks.len() == old(self).data_chain@.blocks.len() + i,
                self.data_chain@.blocks.take(old(self).data_chain@.blocks.len() as int) == old(self).data_chain@.blocks,
                self.data_chain@.name == old(self).data_chain@.name,
                forall|j: int|
                    0 <= j < i ==> self.data_chain@.blocks[old(self).data_chain@.blocks.len()
                        + j].validator == (#[trigger] data_validators@[j])@,
                old(self).data_chain.wf() ==> self.data_chain.wf(),
                *self == (Node { data_chain: self.data_chain, ..*old(self) }),
            decreases data_validators@.len() - i,
        {
            self.data_chain.add_block("sync".to_owned(), "sync".to_owned(), data_validators[i].clone());
            i = i + 1;
            proof {
                assert(self.data_chain@.blocks.take(old(self).data_chain@.blocks.len() as int)
                    =~= old(self).data_chain@.blocks);
            }
        }
        let mut k: usize = 0;
        while k < key_validators.len()
            invariant
                k <= key_validators@.len(),
                old(self).key_chain@.blocks.len() + key_validators@.len() < u64::MAX,
                self.key_chain@.blocks.len() == old(self).key_chain@.blocks.len() + k,
                self.key_chain@.name == old(self).key_chain@.name,
                old(self).key_chain.wf() ==> self.key_chain.wf(),
                self.data_chain@.blocks.len() == old(self).data_chain@.blocks.len()
                    + data_validators@.len(),
                self.data_chain@.blocks.take(old(self).data_chain@.blocks.len() as int) == old(self).data_chain@.blocks,
                self.data_chain@.name == old(self).data_chain@.name,
                forall|j: int|
                    0 <= j < data_validators@.len() ==> self.data_chain@.blocks[old(self).data_chain@.blocks.len() + j].validator == (
                    #[trigger] data_validators@[j])@,
                old(self).data_chain.wf() ==> self.data_chain.wf(),
                *self == (Node { data_chain: self.data_chain, key_chain: self.key_chain, ..*old(self) }),
            decreases key_validators@.len() - k,
        {
            self.key_chain.add_block("sync".to_owned(), "sync".to_owned(), key_validators[k].clone());
            k = k + 1;
        }
    }
}

/// A winning commit appended the payload to the data chain, the key root to
/// the key chain, both validated by the agent itself, and linked one more
/// learning unit when there was a previous one.
pub open spec fn committed(
    before: NodeView,
    after: NodeView,
    key_root: Seq<char>,
    payload: Seq<char>,
) -> bool {
    &&& after.data_chain.blocks == before.data_chain.blocks.push(
        crate::chain::BlockView {
            index: before.data_chain.blocks.len(),
            data_root: payload,
            key_root: "key_placeholder"@,
            validator: before.name,
            hash: crate::chain::block_hash(
                before.data_chain.blocks.len(),
                payload,
                "key_placeholder"@,
                before.name,
            ),
        },
    )
    &&& after.data_chain.name == before.data_chain.name
    &&& after.key_chain.blocks == before.key_chain.blocks.push(
        crate::chain::BlockView {
            index: before.key_chain.blocks.len(),
            data_root: "data_hash"@,
            key_root: key_root,
            validator: before.name,
            hash: crate::chain::block_hash(
                before.key_chain.blocks.len(),
                "data_hash"@,
                key_root,
                before.name,
            ),
        },
    )
    &&& after.key_chain.name == before.key_chain.name
    &&& (before.data_chain.blocks.len() > 0 ==> after.synapses.len() == before.synapses.len() + 1
        && after.synapses.drop_last() == before.synapses && after.synapses.last().from_id
        == before.data_chain.blocks.len() - 1 && after.synapses.last().to_id
        == before.data_chain.blocks.len() && after.synapses.last().weight < 1_000)
    &&& (before.data_chain.blocks.len() == 0 ==> after.synapses == before.synapses)
}

/// No two agents share a name.
pub open spec fn distinct_names(s: Seq<Node>) -> bool {
    forall|i: int, j: int|
        0 <= i < s.len() && 0 <= j < s.len() && i != j ==> (#[trigger] s[i]).name@ != (
        #[trigger] s[j]).name@
}

} // verus!
