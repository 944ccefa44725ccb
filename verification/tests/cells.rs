use organism::economy::NetworkFund;
use organism::energy::Energy;
use organism::memory::BrainEvent;
use organism::memory::Memory;
use organism::wallet::Wallet;

fn event_at(result: u64, timestamp: i64) -> BrainEvent {
    BrainEvent {
        timestamp,
        action: String::from("test"),
        context: String::from("ctx"),
        result,
    }
}

#[test]
fn energy_new_starts_full() {
    let e = Energy::new("n0");
    assert_eq!(e.level, 100_000);
    assert_eq!(e.node_name, "n0");
    assert!(!e.is_exhausted());
}

#[test]
fn consume_floors_at_zero() {
    let mut e = Energy::new("n0");
    e.consume(250_000);
    assert_eq!(e.level, 0);
    assert!(e.is_exhausted());
}

#[test]
fn consume_subtracts_exactly() {
    let mut e = Energy::new("n0");
    e.consume(1_500);
    assert_eq!(e.level, 98_500);
}

#[test]
fn restore_caps_at_hundred() {
    let mut e = Energy::new("n0");
    e.consume(10_000);
    e.restore(25_000);
    assert_eq!(e.level, 100_000);
}

#[test]
fn restore_pulls_overcap_level_down() {
    let mut e = Energy::new("n0");
    e.level = 110_000;
    e.restore(0);
    assert_eq!(e.level, 100_000);
}

#[test]
fn status_renders_two_decimals() {
    let mut e = Energy::new("n0");
    e.level = 98_765;
    assert_eq!(e.status(), "n0: 98.76");
}

#[test]
fn wallet_deposit_and_withdraw() {
    let mut w = Wallet::new();
    assert_eq!(w.get_balance(), 0);
    w.deposit(5_000);
    assert_eq!(w.get_balance(), 5_000);
    assert!(w.withdraw(2_000));
    assert_eq!(w.get_balance(), 3_000);
}

#[test]
fn wallet_refuses_overdraft() {
    let mut w = Wallet::new();
    w.deposit(1_000);
    assert!(!w.withdraw(1_500));
    assert_eq!(w.get_balance(), 1_000);
    assert!(!w.spend(1_001));
    assert_eq!(w.get_balance(), 1_000);
}

#[test]
fn fund_add_and_draw() {
    let mut f = NetworkFund::new();
    f.add(7_000);
    assert_eq!(f.get_balance(), 7_000);
    assert!(f.draw(5_000));
    assert_eq!(f.get_balance(), 2_000);
    assert!(!f.draw(5_000));
    assert_eq!(f.get_balance(), 2_000);
}

#[test]
fn memory_short_window_is_size_bounded() {
    let mut m = Memory::new(3, 10, 1_000_000);
    for i in 0..5u64 {
        m.add_event_at(event_at(500, 0), i as i64);
    }
    assert_eq!(m.short.len(), 3);
    assert_eq!(m.short[0].timestamp, 2);
    assert_eq!(m.short[2].timestamp, 4);
}

#[test]
fn memory_short_window_is_age_bounded() {
    let mut m = Memory::new(10, 10, 1_000);
    m.add_event_at(event_at(500, 0), 0);
    m.add_event_at(event_at(500, 0), 10);
    m.add_event_at(event_at(500, 0), 2_000);
    assert_eq!(m.short.len(), 1);
    assert_eq!(m.short[0].timestamp, 2_000);
}

#[test]
fn memory_long_admits_only_high_results() {
    let mut m = Memory::new(10, 10, 1_000_000);
    m.add_event_at(event_at(900, 0), 1);
    m.add_event_at(event_at(500, 0), 2);
    m.add_event_at(event_at(801, 0), 3);
    assert_eq!(m.long.len(), 2);
    for e in &m.long {
        assert!(e.result > 800);
    }
}

#[test]
fn memory_long_never_holds_low_results_after_eviction() {
    let mut m = Memory::new(10, 10, 1_000_000);
    m.add_event_at(event_at(900, 0), 1);
    m.add_event_at(event_at(100, 0), 2);
    for e in &m.long {
        assert!(e.result > 300);
    }
    assert_eq!(m.long.len(), 1);
    assert_eq!(m.long[0].result, 900);
}

#[test]
fn memory_long_is_size_bounded() {
    let mut m = Memory::new(50, 2, 1_000_000);
    m.add_event_at(event_at(900, 0), 1);
    m.add_event_at(event_at(910, 0), 2);
    m.add_event_at(event_at(920, 0), 3);
    assert_eq!(m.long.len(), 2);
    assert_eq!(m.long[0].result, 910);
    assert_eq!(m.long[1].result, 920);
}

#[test]
fn average_result_is_exact() {
    let mut m = Memory::new(10, 10, 1_000_000);
    m.add_event_at(event_at(600, 0), 1);
    m.add_event_at(event_at(800, 0), 2);
    assert_eq!(m.average_result(10), 700);
    assert_eq!(m.average_result(1), 800);
    assert_eq!(Memory::new(10, 10, 1).average_result(10), 0);
}

#[test]
fn get_recent_returns_newest_first() {
    let mut m = Memory::new(10, 10, 1_000_000);
    m.add_event_at(event_at(100, 0), 1);
    m.add_event_at(event_at(200, 0), 2);
    m.add_event_at(event_at(300, 0), 3);
    let r = m.get_recent(2);
    assert_eq!(r.len(), 2);
    assert_eq!(r[0].result, 300);
    assert_eq!(r[1].result, 200);
}

#[test]
fn get_long_returns_newest_first() {
    let mut m = Memory::new(10, 10, 1_000_000);
    m.add_event_at(event_at(900, 0), 1);
    m.add_event_at(event_at(950, 0), 2);
    let r = m.get_long(5);
    assert_eq!(r.len(), 2);
    assert_eq!(r[0].result, 950);
    assert_eq!(r[1].result, 900);
}

#[test]
fn combined_memory_is_sorted_by_time_descending() {
    let mut m = Memory::new(10, 10, 1_000_000);
    m.add_event_at(event_at(900, 0), 5);
    m.add_event_at(event_at(400, 0), 9);
    m.add_event_at(event_at(850, 0), 7);
    let r = m.get_combined_memory(6);
    assert!(r.len() >= 3);
    for pair in r.windows(2) {
        assert!(pair[0].timestamp >= pair[1].timestamp);
    }
}
