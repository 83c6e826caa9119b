use hft_engine::engine::{run_simulation, Simulation, TickStamps, TICKS};
use hft_engine::stats::summary_stats;
use hft_engine::types::{Side, Timestamp, Trade};
use uuid::Uuid;

fn stamps_for(ticks: usize) -> Vec<TickStamps> {
    (0..ticks)
        .map(|k| TickStamps {
            bid_id: 3 * k as u128 + 1,
            ask_id: 3 * k as u128 + 2,
            momentum_id: 3 * k as u128 + 3,
            now: Timestamp { seconds: 1_000 + k as i64, nanos: 0 },
        })
        .collect()
}

fn replay(ticks: usize) -> Simulation {
    let mut sim = Simulation::new();
    sim.run(&stamps_for(ticks));
    sim
}

#[test]
fn new_simulation_is_empty() {
    let sim = Simulation::new();
    assert!(sim.tape.is_empty());
    assert!(sim.book.bids.is_empty());
    assert!(sim.book.asks.is_empty());
    assert_eq!(TICKS, 100);
}

#[test]
fn first_tick_crosses_the_two_quotes() {
    let mut sim = Simulation::new();
    let stamps = stamps_for(1)[0];
    sim.step(stamps);
    assert_eq!(
        sim.tape,
        vec![Trade {
            buy_order_id: 1,
            sell_order_id: 2,
            price: 10_000,
            quantity: 10_000,
            timestamp: stamps.now,
            initiator: Side::Sell,
        }]
    );
    assert!(sim.book.bids.is_empty());
    assert!(sim.book.asks.is_empty());
}

#[test]
fn momentum_joins_once_five_trades_are_on_the_tape() {
    let sim = replay(5);
    assert_eq!(sim.tape.len(), 5);
    assert!(sim.book.asks.is_empty());

    let sim = replay(6);
    assert_eq!(sim.tape.len(), 6);
    assert_eq!(sim.book.asks.len(), 1);
    let resting = sim.book.asks[0];
    assert_eq!(resting.id, 18);
    assert_eq!(resting.side, Side::Sell);
    assert_eq!(resting.price, 9_999);
    assert_eq!(resting.quantity, 5_000);
}

#[test]
fn momentum_order_follows_the_quotes_of_its_tick() {
    let sim = replay(8);
    let seen: Vec<(u128, u128, u64, u64, Side)> = sim
        .tape
        .iter()
        .skip(6)
        .map(|t| (t.buy_order_id, t.sell_order_id, t.price, t.quantity, t.initiator))
        .collect();
    assert_eq!(
        seen,
        vec![
            (19, 18, 9_999, 5_000, Side::Buy),
            (19, 20, 10_000, 5_000, Side::Sell),
            (22, 20, 10_000, 5_000, Side::Buy),
            (22, 21, 9_999, 5_000, Side::Buy),
        ]
    );
    assert!(sim.book.bids.is_empty());
    let asks: Vec<(u128, u64, u64)> =
        sim.book.asks.iter().map(|o| (o.id, o.price, o.quantity)).collect();
    assert_eq!(asks, vec![(23, 10_000, 10_000), (24, 9_999, 5_000)]);
}

#[test]
fn reference_run_with_fixed_stamps() {
    let sim = replay(100);
    assert_eq!(sim.tape.len(), 209);
    let summary = summary_stats(&sim.tape).unwrap();
    assert_eq!(summary.trade_count, 209);
    assert_eq!(summary.total_volume, 1_230_000);
    assert_eq!(summary.notional, 12_299_755_000);
    assert_eq!(summary.vwap, 9_999);
    assert_eq!(sim.tape.iter().filter(|t| t.initiator == Side::Buy).count(), 202);
    assert_eq!(sim.tape.iter().map(|t| t.price).min(), Some(9_998));
    assert_eq!(sim.tape.iter().map(|t| t.price).max(), Some(10_000));
    assert!(sim.book.bids.is_empty());
    assert_eq!(sim.book.asks.len(), 2);
}

#[test]
fn same_stamps_give_the_same_tape() {
    let first = replay(100);
    let second = replay(100);
    assert_eq!(first.tape, second.tape);
    assert_eq!(first.book.bids, second.book.bids);
    assert_eq!(first.book.asks, second.book.asks);
    assert_eq!(format!("{:?}", first.tape), format!("{:?}", second.tape));
}

#[test]
fn run_is_one_step_per_stamp() {
    let stamps = stamps_for(12);
    let mut stepped = Simulation::new();
    for s in &stamps {
        stepped.step(*s);
    }
    let mut ran = Simulation::new();
    ran.run(&stamps);
    assert_eq!(stepped.tape, ran.tape);
    assert_eq!(stepped.book.asks, ran.book.asks);

    let mut halves = Simulation::new();
    halves.run(&stamps[..5]);
    halves.run(&stamps[5..]);
    assert_eq!(halves.tape, ran.tape);
}

#[test]
fn trades_bear_the_time_of_their_tick() {
    let sim = replay(20);
    for pair in sim.tape.windows(2) {
        assert!(pair[0].timestamp.seconds <= pair[1].timestamp.seconds);
    }
    assert_eq!(sim.tape[0].timestamp, Timestamp { seconds: 1_000, nanos: 0 });
    assert_eq!(sim.tape.last().unwrap().timestamp, Timestamp { seconds: 1_019, nanos: 0 });
}

#[test]
fn reference_run_with_the_system_clock() {
    let tape = run_simulation();
    assert_eq!(tape.len(), 209);
    let fixed = replay(100);
    for (drawn, expected) in tape.iter().zip(fixed.tape.iter()) {
        assert_eq!(drawn.price, expected.price);
        assert_eq!(drawn.quantity, expected.quantity);
        assert_eq!(drawn.initiator, expected.initiator);
        assert_ne!(drawn.buy_order_id, drawn.sell_order_id);
        assert_eq!(Uuid::from_u128(drawn.buy_order_id).get_version_num(), 4);
        assert_eq!(Uuid::from_u128(drawn.sell_order_id).get_version_num(), 4);
        assert!(drawn.timestamp.seconds > 0);
        assert!(drawn.timestamp.nanos < 1_000_000_000);
    }
}

#[test]
fn every_tick_of_the_standard_run_can_be_made() {
    let mut sim = Simulation::new();
    for stamps in stamps_for(100) {
        assert!(sim.can_step());
        sim.step(stamps);
        assert!(sim.book.bids.iter().chain(sim.book.asks.iter()).all(|o| o.quantity > 0));
    }
    assert!(sim.can_step());
    assert_eq!(sim.tape.len(), 209);
}

#[test]
fn a_tick_cannot_be_made_with_strategies_that_are_not_well_formed() {
    let mut sim = Simulation::new();
    sim.maker.spread = sim.maker.mid + 1;
    assert!(!sim.can_step());
    let mut sim = Simulation::new();
    sim.momentum.window = 0;
    assert!(!sim.can_step());
}
