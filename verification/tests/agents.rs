use organism::economy::NetworkFund;
use organism::economy_cycle::decay_step;
use organism::economy_cycle::help_weak_node_with;
use organism::economy_cycle::EconomyCycle;
use organism::energy::help_transfer;
use organism::energy::EnergySystem;
use organism::energy_evolution::evolve_metabolism;
use organism::interaction::NetworkBus;
use organism::node::Node;
use organism::registry::cap_cull;
use organism::registry::death_cull;

fn agent(name: &str, level: u64) -> Node {
    let mut n = Node::new(name);
    n.energy.level = level;
    n
}

#[test]
fn node_new_defaults() {
    let n = Node::new("n0");
    assert_eq!(n.name, "n0");
    assert_eq!(n.energy.level, 100_000);
    assert_eq!(n.efficiency, 1_000);
    assert_eq!(n.altruism, 500);
    assert_eq!(n.resilience, 500);
    assert_eq!(n.experience, 0);
    assert_eq!(n.wallet.balance, 0);
    assert_eq!(n.data_chain.name, "n0_data");
    assert_eq!(n.key_chain.name, "n0_key");
    assert_eq!(n.data_chain.blocks.len(), 1);
    assert_eq!(n.data_chain.blocks[0].hash, "genesis_hash");
    assert!(n.synapse_chain.synapses.is_empty());
    assert!(n.connections.is_empty());
}

#[test]
fn local_learn_moves_altruism_with_energy() {
    let mut high = agent("h", 160_000);
    high.local_learn();
    assert_eq!(high.altruism, 502);

    let mut low = agent("l", 40_000);
    low.local_learn();
    assert_eq!(low.altruism, 498);

    let mut mid = agent("m", 100_000);
    mid.local_learn();
    assert_eq!(mid.altruism, 500);
}

#[test]
fn spawn_child_energy_and_altruism_are_exact() {
    let parent = agent("p", 100_000);
    let child = parent.spawn_child_at(7, 10_000, 25);
    assert_eq!(child.name, "p_child_7");
    assert_eq!(child.energy.level, 40_000);
    assert_eq!(child.altruism, 525);
    assert_eq!(child.efficiency, 1_000);
    assert_eq!(child.experience, 0);
    assert_eq!(child.wallet.balance, 0);
}

#[test]
fn spawn_child_altruism_clamps_to_band() {
    let mut parent = agent("p", 50_000);
    parent.altruism = 10;
    let child = parent.spawn_child_at(1, 5_000, -49);
    assert_eq!(child.altruism, 0);
    parent.altruism = 990;
    let child2 = parent.spawn_child_at(2, 5_000, 49);
    assert_eq!(child2.altruism, 1_000);
}

#[test]
fn spawn_child_draws_stay_in_band() {
    let parent = agent("p", 100_000);
    for _ in 0..20 {
        let child = parent.spawn_child();
        assert!(child.energy.level >= 35_000);
        assert!(child.energy.level < 45_000);
        let diff = child.altruism as i64 - parent.altruism as i64;
        assert!(-50 <= diff && diff < 50);
        assert!(child.name.starts_with("p_child_"));
    }
}

#[test]
fn share_energy_conserves_total() {
    let mut a = agent("a", 50_000);
    let mut b = agent("b", 10_000);
    a.share_energy(&mut b);
    assert_eq!(a.energy.level, 45_000);
    assert_eq!(b.energy.level, 15_000);
    assert_eq!(a.energy.level + b.energy.level, 60_000);
}

#[test]
fn share_energy_refuses_weak_giver() {
    let mut a = agent("a", 20_000);
    let mut b = agent("b", 10_000);
    a.share_energy(&mut b);
    assert_eq!(a.energy.level, 20_000);
    assert_eq!(b.energy.level, 10_000);
}

#[test]
fn share_energy_skips_strong_target() {
    let mut a = agent("a", 50_000);
    let mut b = agent("b", 30_000);
    a.share_energy(&mut b);
    assert_eq!(a.energy.level, 50_000);
    assert_eq!(b.energy.level, 30_000);
}

#[test]
fn help_transfer_moves_a_capped_tenth() {
    let mut nodes = vec![agent("a", 50_000), agent("b", 5_000)];
    help_transfer(&mut nodes, 0, 1);
    assert_eq!(nodes[0].energy.level, 45_000);
    assert_eq!(nodes[1].energy.level, 10_000);
    let mut rich = vec![agent("a", 200_000), agent("b", 5_000)];
    help_transfer(&mut rich, 0, 1);
    assert_eq!(rich[0].energy.level, 190_000);
    assert_eq!(rich[1].energy.level, 15_000);
}

#[test]
fn energy_system_tick_restores_and_aids() {
    let mut nodes = vec![agent("a", 50_000), agent("b", 10_000)];
    EnergySystem::tick(&mut nodes);
    assert_eq!(nodes[0].energy.level, 45_270);
    assert_eq!(nodes[1].energy.level, 15_330);
}

#[test]
fn decay_step_leaves_ninety_eight_at_full_efficiency() {
    let mut n = agent("a", 100_000);
    decay_step(&mut n);
    assert_eq!(n.energy.level, 98_000);
}

#[test]
fn decay_step_enforces_survival_floor() {
    let mut n = agent("a", 3_000);
    decay_step(&mut n);
    assert_eq!(n.energy.level, 5_000);
}

#[test]
fn decay_step_scales_by_efficiency() {
    let mut n = agent("a", 100_000);
    n.efficiency = 500;
    decay_step(&mut n);
    assert_eq!(n.energy.level, 49_000);
}

#[test]
fn economy_pass_decays_five_full_agents_to_ninety_eight() {
    let mut nodes: Vec<Node> = (0..5).map(|i| agent(&format!("n{}", i), 100_000)).collect();
    let mut fund = NetworkFund::new();
    EconomyCycle::run(&mut nodes, &mut fund);
    assert_eq!(nodes.len(), 5);
    for n in &nodes {
        assert_eq!(n.energy.level, 98_000);
    }
    assert_eq!(fund.total, 0);
}

#[test]
fn economy_pass_pays_subsidy_from_fund() {
    let mut nodes = vec![agent("a", 10_000), agent("b", 10_000)];
    let mut fund = NetworkFund::new();
    fund.add(10_000);
    EconomyCycle::run(&mut nodes, &mut fund);
    assert_eq!(nodes[0].energy.level, 18_000);
    assert_eq!(nodes[1].energy.level, 18_000);
    assert_eq!(fund.total, 5_000);
}

#[test]
fn help_weak_node_transfers_energy_and_balance() {
    let mut nodes = vec![agent("w", 10_000), agent("h", 50_000)];
    nodes[1].wallet.balance = 20_000;
    help_weak_node_with(&mut nodes, 0, 1);
    assert_eq!(nodes[1].energy.level, 45_000);
    assert_eq!(nodes[1].wallet.balance, 18_000);
    assert_eq!(nodes[0].energy.level, 15_000);
    assert_eq!(nodes[0].wallet.balance, 2_000);
    assert_eq!(nodes[0].energy.level + nodes[1].energy.level, 60_000);
    assert_eq!(nodes[0].wallet.balance + nodes[1].wallet.balance, 20_000);
}

#[test]
fn help_weak_node_refuses_poor_or_weak_helpers() {
    let mut low_energy = vec![agent("w", 10_000), agent("h", 30_000)];
    low_energy[1].wallet.balance = 20_000;
    help_weak_node_with(&mut low_energy, 0, 1);
    assert_eq!(low_energy[1].energy.level, 30_000);
    assert_eq!(low_energy[1].wallet.balance, 20_000);

    let mut low_balance = vec![agent("w", 10_000), agent("h", 50_000)];
    low_balance[1].wallet.balance = 5_000;
    help_weak_node_with(&mut low_balance, 0, 1);
    assert_eq!(low_balance[1].energy.level, 50_000);

    let mut selfish = vec![agent("w", 50_000)];
    selfish[0].wallet.balance = 20_000;
    help_weak_node_with(&mut selfish, 0, 0);
    assert_eq!(selfish[0].energy.level, 50_000);
}

#[test]
fn death_cull_drops_agents_at_the_floor() {
    let mut nodes = vec![agent("a", 4_000), agent("b", 10_000), agent("c", 5_000)];
    death_cull(&mut nodes);
    assert_eq!(nodes.len(), 1);
    assert_eq!(nodes[0].name, "b");
}

#[test]
fn cap_cull_keeps_strongest_with_ties_by_original_order() {
    let mut nodes = vec![
        agent("a", 5_000),
        agent("b", 9_000),
        agent("c", 9_000),
        agent("d", 7_000),
    ];
    cap_cull(&mut nodes, 3, 2);
    assert_eq!(nodes.len(), 2);
    assert_eq!(nodes[0].name, "b");
    assert_eq!(nodes[1].name, "c");
}

#[test]
fn cap_cull_under_ceiling_changes_nothing() {
    let mut nodes = vec![agent("a", 5_000), agent("b", 9_000)];
    cap_cull(&mut nodes, 3, 2);
    assert_eq!(nodes.len(), 2);
    assert_eq!(nodes[0].name, "a");
}

#[test]
fn evolve_metabolism_is_exact() {
    let mut n = agent("a", 10_000);
    evolve_metabolism(&mut n);
    assert_eq!(n.energy.level, 9_750);
    assert_eq!(n.experience, 0);
    assert_eq!(n.efficiency, 950);
}

#[test]
fn evolve_metabolism_rewards_the_strong() {
    let mut n = agent("a", 80_000);
    evolve_metabolism(&mut n);
    assert_eq!(n.energy.level, 79_750);
    assert_eq!(n.experience, 200);
    assert_eq!(n.efficiency, 1_000);
}

#[test]
fn tick_death_leaves_no_further_outcome() {
    let mut n = agent("a", 1_000);
    let peers: Vec<String> = vec![String::from("b")];
    let mut bus = NetworkBus::new(8);
    let child = n.tick_node(&peers, &mut bus, 0);
    assert!(child.is_none());
    assert_eq!(n.energy.level, 0);
    assert_eq!(n.altruism, 500);
    assert!(bus.queue.is_empty());
}

#[test]
fn tick_replicates_above_the_threshold() {
    let mut n = agent("a", 50_000);
    n.altruism = 0;
    let peers: Vec<String> = vec![String::from("b")];
    let mut bus = NetworkBus::new(8);
    let child = n.tick_node(&peers, &mut bus, 0);
    let child = child.expect("a strong worker must replicate");
    assert!(n.energy.level > 1_000);
    assert!(child.energy.level >= 5_000);
    assert!(child.name.starts_with("a_child_"));
    assert!(child.altruism < 50);
}

#[test]
fn mine_block_rewards_two_tokens() {
    let mut n = agent("a", 10_000);
    n.mine_block();
    assert_eq!(n.wallet.balance, 2_000);
}

#[test]
fn clone_for_net_copies_everything() {
    let mut n = agent("a", 42_000);
    n.wallet.balance = 77;
    n.experience = 5;
    let c = n.clone_for_net();
    assert_eq!(c.name, n.name);
    assert_eq!(c.energy.level, 42_000);
    assert_eq!(c.wallet.balance, 77);
    assert_eq!(c.experience, 5);
    assert_eq!(c.data_chain.blocks.len(), n.data_chain.blocks.len());
}

#[test]
fn try_merge_chain_adopts_only_longer_chains() {
    let mut n = agent("a", 10_000);
    let mut longer = organism::chain::Chain::new("other");
    longer.add_block(String::from("d"), String::from("k"), String::from("v"));
    n.try_merge_chain(longer);
    assert_eq!(n.data_chain.blocks.len(), 2);
    assert_eq!(n.data_chain.name, "other");

    let shorter = organism::chain::Chain::new("short");
    n.try_merge_chain(shorter);
    assert_eq!(n.data_chain.name, "other");
}

#[test]
fn add_sync_blocks_appends_per_validator() {
    let mut n = agent("a", 10_000);
    let dv = vec![String::from("v1"), String::from("v2")];
    let kv = vec![String::from("v3")];
    n.add_sync_blocks(&dv, &kv);
    assert_eq!(n.data_chain.blocks.len(), 3);
    assert_eq!(n.key_chain.blocks.len(), 2);
    assert_eq!(n.data_chain.blocks[1].validator, "v1");
    assert_eq!(n.data_chain.blocks[2].validator, "v2");
    assert_eq!(n.data_chain.blocks[1].data_root, "sync");
    assert_eq!(n.key_chain.blocks[1].validator, "v3");
}

#[test]
fn try_commit_keyblock_declines_when_exhausted() {
    let mut n = agent("a", 0);
    let r = n.try_commit_keyblock(String::from("dr"), String::from("kr"), String::from("p"));
    assert_eq!(r, (0, false));
    assert_eq!(n.data_chain.blocks.len(), 1);
}

#[test]
fn try_commit_keyblock_reports_a_commit_value() {
    let mut n = agent("a", 50_000);
    let before_data = n.data_chain.blocks.len();
    let before_key = n.key_chain.blocks.len();
    let (value, joined) = n.try_commit_keyblock(
        String::from("dr"),
        String::from("kr"),
        String::from("payload"),
    );
    assert!(joined);
    assert!(1 <= value && value <= 1_000);
    let grew = n.data_chain.blocks.len() - before_data;
    assert_eq!(n.key_chain.blocks.len() - before_key, grew);
    assert!(grew <= 1);
    if grew == 1 {
        assert_eq!(n.data_chain.blocks[before_data].data_root, "payload");
        assert_eq!(n.key_chain.blocks[before_key].key_root, "kr");
        assert_eq!(n.synapse_chain.synapses.len(), 1);
    }
}
