use chrono::Utc;
use hft_engine::order_book::OrderBook;
use hft_engine::types::{Order, OrderType, Side, Timestamp, Trade, PRICE_SCALE, QUANTITY_SCALE};
use uuid::Uuid;

fn ticks(price: f64) -> u64 {
    (price * PRICE_SCALE as f64).round() as u64
}

fn lots(quantity: f64) -> u64 {
    (quantity * QUANTITY_SCALE as f64).round() as u64
}

fn in_units(price: u64) -> f64 {
    price as f64 / PRICE_SCALE as f64
}

fn in_whole(quantity: u64) -> f64 {
    quantity as f64 / QUANTITY_SCALE as f64
}

fn clock() -> Timestamp {
    let now = Utc::now();
    Timestamp { seconds: now.timestamp(), nanos: now.timestamp_subsec_nanos() }
}

fn at(seconds: i64) -> Timestamp {
    Timestamp { seconds, nanos: 0 }
}

fn limit(id: u128, side: Side, price: f64, quantity: f64) -> Order {
    Order {
        id,
        timestamp: at(0),
        side,
        price: ticks(price),
        quantity: lots(quantity),
        order_type: OrderType::Limit,
    }
}

fn queue(orders: &std::collections::VecDeque<Order>) -> Vec<Order> {
    orders.iter().copied().collect()
}

#[test]
fn test_limit_order_matching() {
    let mut book = OrderBook::new();

    let ask = Order {
        id: Uuid::new_v4().as_u128(),
        timestamp: clock(),
        side: Side::Sell,
        price: ticks(100.0),
        quantity: lots(1.0),
        order_type: OrderType::Limit,
    };
    book.insert_order(ask);

    let bid = Order {
        id: Uuid::new_v4().as_u128(),
        timestamp: clock(),
        side: Side::Buy,
        price: ticks(101.0),
        quantity: lots(1.0),
        order_type: OrderType::Limit,
    };
    let trades = book.insert_order(bid);

    assert_eq!(trades.len(), 1);
    let trade = &trades[0];
    assert_eq!(in_units(trade.price), 100.0);
    assert_eq!(in_whole(trade.quantity), 1.0);
}

#[test]
fn test_partial_fill() {
    let mut book = OrderBook::new();

    let ask = Order {
        id: Uuid::new_v4().as_u128(),
        timestamp: clock(),
        side: Side::Sell,
        price: ticks(100.0),
        quantity: lots(2.0),
        order_type: OrderType::Limit,
    };
    book.insert_order(ask);

    let bid = Order {
        id: Uuid::new_v4().as_u128(),
        timestamp: clock(),
        side: Side::Buy,
        price: ticks(101.0),
        quantity: lots(1.0),
        order_type: OrderType::Limit,
    };
    let trades = book.insert_order(bid);

    assert_eq!(trades.len(), 1);
    assert_eq!(in_whole(trades[0].quantity), 1.0);
}

#[test]
fn fixed_point_scales() {
    assert_eq!(ticks(100.0), 10_000);
    assert_eq!(ticks(14.01), 1_401);
    assert_eq!(lots(0.5), 5_000);
    assert_eq!(lots(1.0), 10_000);
}

#[test]
fn new_book_is_empty() {
    let book = OrderBook::new();
    assert!(book.bids.is_empty());
    assert!(book.asks.is_empty());
}

#[test]
fn insert_into_empty_book_rests_unchanged() {
    let mut book = OrderBook::new();
    let bid = limit(1, Side::Buy, 100.0, 1.0);
    let trades = book.insert_order_at(bid, at(5));
    assert!(trades.is_empty());
    assert_eq!(queue(&book.bids), vec![bid]);
    assert!(book.asks.is_empty());

    let mut book = OrderBook::new();
    let ask = limit(2, Side::Sell, 100.0, 1.0);
    let trades = book.insert_order_at(ask, at(5));
    assert!(trades.is_empty());
    assert_eq!(queue(&book.asks), vec![ask]);
    assert!(book.bids.is_empty());
}

#[test]
fn insert_without_opposite_joins_the_tail() {
    let mut book = OrderBook::new();
    let first = limit(1, Side::Buy, 100.0, 1.0);
    let second = limit(2, Side::Buy, 101.0, 2.0);
    let third = limit(3, Side::Buy, 99.0, 3.0);
    assert!(book.insert_order_at(first, at(1)).is_empty());
    assert!(book.insert_order_at(second, at(2)).is_empty());
    assert!(book.insert_order_at(third, at(3)).is_empty());
    assert_eq!(queue(&book.bids), vec![first, second, third]);
    assert!(book.asks.is_empty());
}

#[test]
fn full_cross() {
    let mut book = OrderBook::new();
    let ask = limit(10, Side::Sell, 100.0, 1.0);
    let bid = limit(20, Side::Buy, 101.0, 1.0);
    assert!(book.insert_order_at(ask, at(1)).is_empty());
    let trades = book.insert_order_at(bid, at(2));
    assert_eq!(
        trades,
        vec![Trade {
            buy_order_id: 20,
            sell_order_id: 10,
            price: ticks(100.0),
            quantity: lots(1.0),
            timestamp: at(2),
            initiator: Side::Buy,
        }]
    );
    assert!(book.bids.is_empty());
    assert!(book.asks.is_empty());
}

#[test]
fn partial_fill_leaves_the_rest_of_the_ask() {
    let mut book = OrderBook::new();
    let ask = limit(10, Side::Sell, 100.0, 2.0);
    let bid = limit(20, Side::Buy, 101.0, 1.0);
    book.insert_order_at(ask, at(1));
    let trades = book.insert_order_at(bid, at(2));
    assert_eq!(trades.len(), 1);
    assert_eq!(trades[0].quantity, lots(1.0));
    assert_eq!(trades[0].price, ticks(100.0));
    assert_eq!(queue(&book.asks), vec![Order { quantity: lots(1.0), ..ask }]);
    assert!(book.bids.is_empty());
}

#[test]
fn no_cross() {
    let mut book = OrderBook::new();
    let ask = limit(10, Side::Sell, 100.0, 1.0);
    let bid = limit(20, Side::Buy, 99.0, 1.0);
    book.insert_order_at(ask, at(1));
    let trades = book.insert_order_at(bid, at(2));
    assert!(trades.is_empty());
    assert_eq!(queue(&book.bids), vec![bid]);
    assert_eq!(queue(&book.asks), vec![ask]);
}

#[test]
fn sell_crosses_resting_bid_at_the_bid_price() {
    let mut book = OrderBook::new();
    let bid = limit(1, Side::Buy, 101.0, 1.0);
    let ask = limit(2, Side::Sell, 100.0, 3.0);
    book.insert_order_at(bid, at(1));
    let trades = book.insert_order_at(ask, at(7));
    assert_eq!(
        trades,
        vec![Trade {
            buy_order_id: 1,
            sell_order_id: 2,
            price: ticks(101.0),
            quantity: lots(1.0),
            timestamp: at(7),
            initiator: Side::Sell,
        }]
    );
    assert!(book.bids.is_empty());
    assert_eq!(queue(&book.asks), vec![Order { quantity: lots(2.0), ..ask }]);
}

#[test]
fn equal_prices_cross() {
    let mut book = OrderBook::new();
    book.insert_order_at(limit(1, Side::Buy, 100.0, 1.0), at(1));
    let trades = book.insert_order_at(limit(2, Side::Sell, 100.0, 1.0), at(2));
    assert_eq!(trades.len(), 1);
    assert_eq!(trades[0].price, ticks(100.0));
    assert_eq!(trades[0].initiator, Side::Sell);
    assert!(book.bids.is_empty());
    assert!(book.asks.is_empty());
}

#[test]
fn sweep_takes_resting_orders_front_first() {
    let mut book = OrderBook::new();
    let a = limit(1, Side::Sell, 100.0, 1.0);
    let b = limit(2, Side::Sell, 100.5, 2.0);
    let c = limit(3, Side::Sell, 101.0, 4.0);
    book.insert_order_at(a, at(1));
    book.insert_order_at(b, at(1));
    book.insert_order_at(c, at(1));
    let bid = limit(9, Side::Buy, 101.0, 4.5);
    let trades = book.insert_order_at(bid, at(3));
    let prices: Vec<u64> = trades.iter().map(|t| t.price).collect();
    let quantities: Vec<u64> = trades.iter().map(|t| t.quantity).collect();
    let sellers: Vec<u128> = trades.iter().map(|t| t.sell_order_id).collect();
    assert_eq!(prices, vec![ticks(100.0), ticks(100.5), ticks(101.0)]);
    assert_eq!(quantities, vec![lots(1.0), lots(2.0), lots(1.5)]);
    assert_eq!(sellers, vec![1, 2, 3]);
    assert!(trades.iter().all(|t| t.buy_order_id == 9 && t.initiator == Side::Buy));
    assert!(trades.iter().all(|t| t.timestamp == at(3)));
    assert_eq!(queue(&book.asks), vec![Order { quantity: lots(2.5), ..c }]);
    assert!(book.bids.is_empty());
}

#[test]
fn sweep_stops_at_the_first_price_that_does_not_cross() {
    let mut book = OrderBook::new();
    let a = limit(1, Side::Sell, 100.0, 1.0);
    let b = limit(2, Side::Sell, 102.0, 1.0);
    book.insert_order_at(a, at(1));
    book.insert_order_at(b, at(1));
    let bid = limit(9, Side::Buy, 101.0, 3.0);
    let trades = book.insert_order_at(bid, at(2));
    assert_eq!(trades.len(), 1);
    assert_eq!(trades[0].quantity, lots(1.0));
    assert_eq!(queue(&book.asks), vec![b]);
    assert_eq!(queue(&book.bids), vec![Order { quantity: lots(2.0), ..bid }]);
}

#[test]
fn priority_is_arrival_order_not_price() {
    let mut book = OrderBook::new();
    let dear = limit(1, Side::Sell, 105.0, 1.0);
    let cheap = limit(2, Side::Sell, 100.0, 1.0);
    book.insert_order_at(dear, at(1));
    book.insert_order_at(cheap, at(1));
    let bid = limit(3, Side::Buy, 101.0, 1.0);
    let trades = book.insert_order_at(bid, at(2));
    assert!(trades.is_empty());
    assert_eq!(queue(&book.asks), vec![dear, cheap]);
    assert_eq!(queue(&book.bids), vec![bid]);

    let high = limit(4, Side::Buy, 106.0, 1.5);
    let trades = book.insert_order_at(high, at(3));
    assert_eq!(trades.len(), 2);
    assert_eq!(trades[0].sell_order_id, 1);
    assert_eq!(trades[0].price, ticks(105.0));
    assert_eq!(trades[1].sell_order_id, 2);
    assert_eq!(trades[1].price, ticks(100.0));
    assert_eq!(trades[1].quantity, lots(0.5));
}

#[test]
fn order_without_quantity_neither_trades_nor_rests() {
    let mut book = OrderBook::new();
    let ask = limit(1, Side::Sell, 100.0, 1.0);
    book.insert_order_at(ask, at(1));
    let trades = book.insert_order_at(limit(2, Side::Buy, 101.0, 0.0), at(2));
    assert!(trades.is_empty());
    assert!(book.bids.is_empty());
    assert_eq!(queue(&book.asks), vec![ask]);

    let trades = book.insert_order_at(limit(3, Side::Sell, 100.0, 0.0), at(3));
    assert!(trades.is_empty());
    assert_eq!(queue(&book.asks), vec![ask]);
}

#[test]
fn market_kind_is_matched_by_its_price() {
    let mut book = OrderBook::new();
    book.insert_order_at(limit(1, Side::Sell, 100.0, 1.0), at(1));
    let order = Order { order_type: OrderType::Market, ..limit(2, Side::Buy, 99.0, 1.0) };
    let trades = book.insert_order_at(order, at(2));
    assert!(trades.is_empty());
    assert_eq!(queue(&book.bids), vec![order]);
}

#[test]
fn traded_quantity_is_conserved() {
    let mut book = OrderBook::new();
    book.insert_order_at(limit(1, Side::Buy, 100.0, 1.25), at(1));
    book.insert_order_at(limit(2, Side::Buy, 100.0, 0.75), at(1));
    let ask = limit(3, Side::Sell, 99.0, 1.5);
    let trades = book.insert_order_at(ask, at(2));
    let traded: u64 = trades.iter().map(|t| t.quantity).sum();
    assert_eq!(traded, lots(1.5));
    let resting: u64 = book.bids.iter().map(|o| o.quantity).sum();
    assert_eq!(resting, lots(0.5));
    assert!(book.asks.is_empty());
    assert!(book.bids.iter().all(|o| o.quantity > 0));
}

#[test]
fn insert_order_stamps_trades_with_the_system_clock() {
    let mut book = OrderBook::new();
    let before = Utc::now();
    book.insert_order(limit(1, Side::Sell, 100.0, 1.0));
    let trades = book.insert_order(limit(2, Side::Buy, 100.0, 1.0));
    let after = Utc::now();
    assert_eq!(trades.len(), 1);
    let stamp = trades[0].timestamp;
    assert!(stamp.nanos < 1_000_000_000);
    let read = chrono::DateTime::from_timestamp(stamp.seconds, stamp.nanos).unwrap();
    assert!(before <= read && read <= after);
    assert_eq!(trades[0].buy_order_id, 2);
    assert_eq!(trades[0].sell_order_id, 1);
}
