use organism::block::Block;
use organism::brain::Brain;
use organism::brain::BrainSnapshot;
use organism::chain::Chain;
use organism::economy::NetworkFund;
use organism::hashing::md5_hex;
use organism::hashing::sha256_hex;
use organism::interaction::handle_message;
use organism::interaction::Message;
use organism::interaction::MessageType;
use organism::interaction::NetworkBus;
use organism::node::Node;
use organism::numfmt::u64_to_hex_string;
use organism::numfmt::u64_to_string;

fn agent(name: &str, level: u64) -> Node {
    let mut n = Node::new(name);
    n.energy.level = level;
    n
}

#[test]
fn decimal_rendering_matches_std() {
    assert_eq!(u64_to_string(0), "0");
    assert_eq!(u64_to_string(4_807), format!("{}", 4_807));
    assert_eq!(u64_to_string(u64::MAX), format!("{}", u64::MAX));
}

#[test]
fn hex_rendering_matches_std() {
    assert_eq!(u64_to_hex_string(0), "0");
    assert_eq!(u64_to_hex_string(0xdead_beef), format!("{:x}", 0xdead_beefu64));
    assert_eq!(u64_to_hex_string(u64::MAX), format!("{:x}", u64::MAX));
}

#[test]
fn md5_hex_matches_the_crate() {
    let hex = md5_hex("hello");
    assert_eq!(hex, format!("{:x}", md5::compute("hello".as_bytes())));
    assert_eq!(hex.len(), 32);
}

#[test]
fn sha256_hex_matches_the_crate() {
    let hex = sha256_hex("hello");
    let expected = {
        let digest = <sha2::Sha256 as sha2::Digest>::digest("hello".as_bytes());
        let mut s = String::new();
        for b in digest.as_slice() {
            s.push_str(&format!("{:02x}", b));
        }
        s
    };
    assert_eq!(hex, expected);
    assert_eq!(hex.len(), 64);
}

#[test]
fn chain_starts_from_genesis() {
    let c = Chain::new("c");
    assert_eq!(c.blocks.len(), 1);
    assert_eq!(c.blocks[0].index, 0);
    assert_eq!(c.blocks[0].validator, "system");
    assert_eq!(c.last_hash(), "genesis_hash");
}

#[test]
fn chain_add_block_stamps_the_md5_of_its_fields() {
    let mut c = Chain::new("c");
    c.add_block(String::from("droot"), String::from("kroot"), String::from("val"));
    let b = &c.blocks[1];
    assert_eq!(b.index, 1);
    let expected = format!("{:x}", md5::compute("1drootkrootval".as_bytes()));
    assert_eq!(b.hash, expected);
    assert_eq!(c.last_hash(), expected);
}

#[test]
fn chain_summary_lines_name_each_record() {
    let mut c = Chain::new("c");
    c.add_block(String::from("d"), String::from("k"), String::from("v"));
    let lines = c.summary_lines();
    assert_eq!(lines.len(), 2);
    assert_eq!(lines[0], "Block 0: genesis_hash");
    assert!(lines[1].starts_with("Block 1: "));
}

#[test]
fn sealed_block_hash_matches_the_sha_crate() {
    let b = Block::new_at(
        4,
        String::from("ph"),
        String::from("dr"),
        String::from("kr"),
        String::from("val"),
        -5,
    );
    let digest = <sha2::Sha256 as sha2::Digest>::digest("4ph-5drkr".as_bytes());
    let mut expected = String::new();
    for byte in digest.as_slice() {
        expected.push_str(&format!("{:02x}", byte));
    }
    assert_eq!(b.hash, expected);
    assert_eq!(b.timestamp, -5);
    assert_eq!(b.validator, "val");
}

#[test]
fn bus_is_fifo_and_bounded() {
    let mut bus = NetworkBus::new(2);
    assert!(bus.send(Message::new("a", None, MessageType::HelpRequest, 0, None)));
    assert!(bus.send(Message::new("b", None, MessageType::HelpRequest, 0, None)));
    assert!(!bus.send(Message::new("c", None, MessageType::HelpRequest, 0, None)));
    assert_eq!(bus.receive().unwrap().from, "a");
    assert_eq!(bus.receive().unwrap().from, "b");
    assert!(bus.receive().is_none());
}

#[test]
fn energy_transfer_message_restores_the_cell() {
    let mut n = agent("a", 10_000);
    let mut bus = NetworkBus::new(4);
    let msg = Message::new("b", Some("a"), MessageType::EnergyTransfer, 5_000, None);
    handle_message(&mut n, msg, &mut bus);
    assert_eq!(n.energy.level, 15_000);
    assert!(bus.queue.is_empty());
}

#[test]
fn help_request_is_answered_by_the_strong_and_willing() {
    let mut n = agent("a", 40_000);
    n.altruism = 600;
    let mut bus = NetworkBus::new(4);
    let msg = Message::new("b", Some("c"), MessageType::HelpRequest, 0, None);
    handle_message(&mut n, msg, &mut bus);
    assert_eq!(bus.queue.len(), 1);
    assert_eq!(bus.queue[0].from, "a");
    assert_eq!(bus.queue[0].value, 5_000);
    assert!(matches!(bus.queue[0].msg_type, MessageType::EnergyTransfer));
}

#[test]
fn help_request_is_ignored_by_the_unwilling() {
    let mut n = agent("a", 40_000);
    n.altruism = 400;
    let mut bus = NetworkBus::new(4);
    let msg = Message::new("b", Some("c"), MessageType::HelpRequest, 0, None);
    handle_message(&mut n, msg, &mut bus);
    assert!(bus.queue.is_empty());
    assert_eq!(n.energy.level, 40_000);
}

#[test]
fn brain_new_defaults() {
    let b = Brain::new();
    assert_eq!(b.aggressiveness, 1_000);
    assert!(b.reward_history.is_empty());
    assert_eq!(b.tick_counter, 0);
    assert_eq!(b.memory.max_short, 100);
    assert_eq!(b.memory.max_long, 10_000);
    assert_eq!(b.memory.retention_time, 604_800);
}

#[test]
fn feedback_learning_moves_reactivity_exactly() {
    let mut b = Brain::new();
    b.learn_from_feedback(800);
    assert_eq!(b.aggressiveness, 1_020);
    let mut c = Brain::new();
    c.learn_from_feedback(500);
    assert_eq!(c.aggressiveness, 980);
}

#[test]
fn feedback_learning_clamps_to_its_band() {
    let mut b = Brain::new();
    b.aggressiveness = 200;
    b.learn_from_feedback(0);
    assert_eq!(b.aggressiveness, 200);
    let mut c = Brain::new();
    c.aggressiveness = 3_000;
    c.learn_from_feedback(1_000);
    assert_eq!(c.aggressiveness, 3_000);
}

#[test]
fn feedback_history_is_bounded() {
    let mut b = Brain::new();
    for _ in 0..250 {
        b.learn_from_feedback(750);
    }
    assert_eq!(b.reward_history.len(), 200);
}

#[test]
fn redistribution_moves_a_quarter_of_the_gap() {
    let mut brain = Brain::new();
    let mut nodes = vec![agent("low", 10_000), agent("high", 30_000)];
    let fund = NetworkFund::new();
    brain.redistribute_energy(&mut nodes, &fund, 20_000);
    assert_eq!(nodes[1].energy.level, 25_000);
    assert_eq!(nodes[0].energy.level, 15_000);
    assert_eq!(nodes[0].energy.level + nodes[1].energy.level, 40_000);
    assert_eq!(brain.memory.short.len(), 1);
    assert_eq!(brain.memory.short[0].action, "redistribution");
    assert_eq!(brain.memory.short[0].context, "high -> low");
    assert_eq!(brain.memory.short[0].result, 5_000);
}

#[test]
fn redistribution_skips_narrow_gaps() {
    let mut brain = Brain::new();
    let mut nodes = vec![agent("low", 10_000), agent("high", 13_000)];
    let fund = NetworkFund::new();
    brain.redistribute_energy(&mut nodes, &fund, 11_500);
    assert_eq!(nodes[0].energy.level, 10_000);
    assert_eq!(nodes[1].energy.level, 13_000);
    assert!(brain.memory.short.is_empty());
}

#[test]
fn evolve_network_respects_the_population_cap() {
    let brain = Brain::new();
    let mut nodes: Vec<Node> = (0..130).map(|i| Node::new(&format!("n{}", i))).collect();
    let mut bus = NetworkBus::new(1_000);
    brain.evolve_network(&mut nodes, &mut bus);
    assert_eq!(nodes.len(), 80);
    for n in &nodes {
        assert!(n.energy.level > 5_000);
    }
}

#[test]
fn evolve_network_leaves_an_overpopulated_registry_alone() {
    let brain = Brain::new();
    let mut nodes: Vec<Node> = (0..401).map(|i| Node::new(&format!("n{}", i))).collect();
    let mut bus = NetworkBus::new(8);
    brain.evolve_network(&mut nodes, &mut bus);
    assert_eq!(nodes.len(), 401);
    assert!(bus.queue.is_empty());
}

#[test]
fn run_cycle_keeps_reactivity_in_its_band() {
    let mut brain = Brain::new();
    let mut nodes: Vec<Node> = (0..5).map(|i| Node::new(&format!("n{}", i))).collect();
    let mut fund = NetworkFund::new();
    let mut bus = NetworkBus::new(1_000);
    for _ in 0..15 {
        brain.run_cycle(&mut nodes, &mut fund, &mut bus);
        assert!(100 <= brain.aggressiveness && brain.aggressiveness <= 3_450);
    }
}

#[test]
fn snapshot_reports_exact_mean_energy() {
    let nodes = vec![agent("a", 10_000), agent("b", 30_000)];
    let state = Brain::snapshot(&nodes);
    assert_eq!(state.summary_avg_energy, 20_000);
    assert_eq!(state.nodes.len(), 2);
    assert_eq!(state.nodes[0].name, "a");
    assert_eq!(state.nodes[0].energy, 10_000);
    assert_eq!(state.nodes[1].energy, 30_000);
}

#[test]
fn brain_snapshot_projects_recent_state() {
    let mut brain = Brain::new();
    brain.memory.add_event_at(
        organism::memory::BrainEvent {
            timestamp: 0,
            action: String::from("analyze"),
            context: String::from("c"),
            result: 600,
        },
        10,
    );
    let snap = BrainSnapshot::from_brain(&brain);
    assert_eq!(snap.aggressiveness, 1_000);
    assert_eq!(snap.avg_recent_result, 600);
    assert_eq!(snap.recent_memory.len(), 1);
    assert_eq!(snap.recent_memory[0].action, "analyze");
}

#[test]
fn mine_data_returns_hex_roots() {
    let n = agent("a", 10_000);
    let (d, k) = n.mine_data();
    assert!(!d.is_empty());
    assert!(!k.is_empty());
    assert!(d.chars().all(|c| c.is_ascii_hexdigit()));
    assert!(k.chars().all(|c| c.is_ascii_hexdigit()));
}

#[test]
fn finalize_keyblock_appends_for_the_winner() {
    let mut n = agent("a", 10_000);
    n.finalize_keyblock(String::from("dr"), String::from("kr"), "winner");
    assert_eq!(n.key_chain.blocks.len(), 2);
    assert_eq!(n.key_chain.blocks[1].validator, "winner");
    assert_eq!(n.key_chain.blocks[1].data_root, "dr");
}

#[test]
fn chain_summary_via_node() {
    let n = agent("a", 10_000);
    let lines = n.get_chain_summary();
    assert_eq!(lines.len(), 1);
    assert_eq!(lines[0], "Block 0: genesis_hash");
}
