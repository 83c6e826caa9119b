//! The two order generators: a market maker that quotes both sides every
//! tick, and a momentum trader that follows the recent drift of trade prices.

use vstd::prelude::*;
use crate::stamps::{fresh_id, is_clock_reading, is_random_uuid, system_time};
use crate::types::{Order, OrderId, OrderType, Price, Quantity, Side, Timestamp, Trade};

verus! {

/// Price around which the market maker quotes: 100.00.
pub const REFERENCE_PRICE: Price = 10_000;

/// Distance of each market-maker quote from the reference price: none.
pub const MAKER_SPREAD: Price = 0;

/// Quantity of each market-maker quote: 1.0000.
pub const MAKER_QUANTITY: Quantity = 10_000;

/// Number of most recent trades the momentum trader looks back over.
pub const MOMENTUM_WINDOW: usize = 5;

/// Distance of a momentum order's price from the last trade price: 0.01.
pub const MOMENTUM_OFFSET: Price = 1;

/// Quantity of a momentum order: 0.5000.
pub const MOMENTUM_QUANTITY: Quantity = 5_000;

/// Quotes a buy at `mid - spread` and a sell at `mid + spread`, each for
/// `quantity`, every time it is asked.
#[derive(Debug, Clone, Copy, PartialEq, Eq, Structural)]
pub struct MarketMaker {
    pub mid: Price,
    pub spread: Price,
    pub quantity: Quantity,
}

/// Once `window` trades have been made, sends one order in the direction the
/// price moved over the last `window` trades, priced `offset` beyond the last
/// trade so that it crosses.
#[derive(Debug, Clone, Copy, PartialEq, Eq, Structural)]
pub struct MomentumTrader {
    pub window: usize,
    pub offset: Price,
    pub quantity: Quantity,
}

impl MarketMaker {
    /// Both quotes are prices: the spread does not reach below zero or above
    /// the largest price.
    pub open spec fn wf(&self) -> bool {
        self.spread <= self.mid && self.mid + self.spread <= u64::MAX
    }

    pub open spec fn bid_price(&self) -> int {
        self.mid - self.spread
    }

    pub open spec fn ask_price(&self) -> int {
        self.mid + self.spread
    }

    /// The orders of one tick: the buy first, then the sell.
    pub open spec fn orders(&self, bid_id: OrderId, ask_id: OrderId, now: Timestamp) -> Seq<Order> {
        seq![
            Order {
                id: bid_id,
                timestamp: now,
                side: Side::Buy,
                price: self.bid_price() as Price,
                quantity: self.quantity,
                order_type: OrderType::Limit,
            },
            Order {
                id: ask_id,
                timestamp: now,
                side: Side::Sell,
                price: self.ask_price() as Price,
                quantity: self.quantity,
                order_type: OrderType::Limit,
            },
        ]
    }

    /// The standard maker: it quotes `MAKER_QUANTITY` on both sides of
    /// `REFERENCE_PRICE`, `MAKER_SPREAD` away from it.
    pub fn new() -> (maker: Self)
        ensures
            maker == (MarketMaker {
                mid: REFERENCE_PRICE,
                spread: MAKER_SPREAD,
                quantity: MAKER_QUANTITY,
            }),
            maker.wf(),
    {
        MarketMaker { mid: REFERENCE_PRICE, spread: MAKER_SPREAD, quantity: MAKER_QUANTITY }
    }

    /// Whether both quotes are prices.
    pub fn is_valid(&self) -> (valid: bool)
        ensures
            valid == self.wf(),
    {
        self.spread <= self.mid && self.mid <= u64::MAX - self.spread
    }

    /// The two quotes of a tick, with the given identifiers and time.
    pub fn generate_orders_with(&self, bid_id: OrderId, ask_id: OrderId, now: Timestamp) -> (orders:
        Vec<Order>)
        requires
            self.wf(),
        ensures
            orders@ == self.orders(bid_id, ask_id, now),
    {
        let mut orders: Vec<Order> = Vec::new();
        orders.push(
            Order {
                id: bid_id,
                timestamp: now,
                side: Side::Buy,
                price: self.mid - self.spread,
                quantity: self.quantity,
                order_type: OrderType::Limit,
            },
        );
        orders.push(
            Order {
                id: ask_id,
                timestamp: now,
                side: Side::Sell,
                price: self.mid + self.spread,
                quantity: self.quantity,
                order_type: OrderType::Limit,
            },
        );
        assert(orders@ =~= self.orders(bid_id, ask_id, now));
        orders
    }

    /// The two quotes of a tick, with fresh random identifiers and the time
    /// of the system clock.
    pub fn generate_orders(&self) -> (orders: Vec<Order>)
        requires
            self.wf(),
        ensures
            exists|bid_id: OrderId, ask_id: OrderId, now: Timestamp|
                #![trigger self.orders(bid_id, ask_id, now)]
                {
                    &&& is_random_uuid(bid_id)
                    &&& is_random_uuid(ask_id)
                    &&& is_clock_reading(now)
                    &&& orders@ == self.orders(bid_id, ask_id, now)
                },
    {
        let now = system_time();
        let bid_id = fresh_id();
        let ask_id = fresh_id();
        self.generate_orders_with(bid_id, ask_id, now)
    }
}

impl MomentumTrader {
    /// The window holds at least one trade.
    pub open spec fn wf(&self) -> bool {
        self.window >= 1
    }

    /// Price of the most recent trade.
    pub open spec fn newest(tape: Seq<Trade>) -> Price {
        tape.last().price
    }

    /// Price of the oldest trade within the window.
    pub open spec fn oldest(&self, tape: Seq<Trade>) -> Price {
        tape[tape.len() - self.window].price
    }

    /// Buy if the price rose over the window, sell if it fell or stood still.
    pub open spec fn direction(&self, tape: Seq<Trade>) -> Side {
        if Self::newest(tape) > self.oldest(tape) {
            Side::Buy
        } else {
            Side::Sell
        }
    }

    /// The last trade price, moved by `offset` in the direction of the order.
    pub open spec fn target_price(&self, tape: Seq<Trade>) -> int {
        match self.direction(tape) {
            Side::Buy => Self::newest(tape) + self.offset,
            Side::Sell => Self::newest(tape) - self.offset,
        }
    }

    /// The price of the order that `tape` calls for, if it calls for one, is
    /// a price: neither negative nor above the largest price.
    pub open spec fn can_quote(&self, tape: Seq<Trade>) -> bool {
        tape.len() >= self.window ==> 0 <= self.target_price(tape) <= u64::MAX
    }

    /// The orders that `tape` calls for: none while it holds fewer trades than
    /// the window, one afterwards.
    pub open spec fn orders(&self, tape: Seq<Trade>, id: OrderId, now: Timestamp) -> Seq<Order> {
        if tape.len() < self.window {
            Seq::empty()
        } else {
            seq![
                Order {
                    id,
                    timestamp: now,
                    side: self.direction(tape),
                    price: self.target_price(tape) as Price,
                    quantity: self.quantity,
                    order_type: OrderType::Limit,
                },
            ]
        }
    }

    /// The standard trader: it looks back over `MOMENTUM_WINDOW` trades and
    /// sends `MOMENTUM_QUANTITY`, `MOMENTUM_OFFSET` beyond the last price.
    pub fn new() -> (trader: Self)
        ensures
            trader == (MomentumTrader {
                window: MOMENTUM_WINDOW,
                offset: MOMENTUM_OFFSET,
                quantity: MOMENTUM_QUANTITY,
            }),
            trader.wf(),
    {
        MomentumTrader {
            window: MOMENTUM_WINDOW,
            offset: MOMENTUM_OFFSET,
            quantity: MOMENTUM_QUANTITY,
        }
    }

    /// Whether the trader is well formed and the order that the tape calls
    /// for, if it calls for one, has a price.
    pub fn can_generate(&self, trades: &[Trade]) -> (possible: bool)
        ensures
            possible == (self.wf() && self.can_quote(trades@)),
    {
        let count = trades.len();
        if self.window == 0 {
            return false;
        }
        if count < self.window {
            return true;
        }
        let newest: Price = trades[count - 1].price;
        let oldest: Price = trades[count - self.window].price;
        if newest > oldest {
            newest <= u64::MAX - self.offset
        } else {
            newest >= self.offset
        }
    }

    /// The orders that the tape so far calls for, with the given identifier
    /// and time.
    pub fn generate_orders_with(&self, trades: &[Trade], id: OrderId, now: Timestamp) -> (orders:
        Vec<Order>)
        requires
            self.wf(),
            self.can_quote(trades@),
        ensures
            orders@ == self.orders(trades@, id, now),
    {
        let count = trades.len();
        let mut orders: Vec<Order> = Vec::new();
        if count < self.window {
            assert(orders@ =~= self.orders(trades@, id, now));
            return orders;
        }
        let newest: Price = trades[count - 1].price;
        let oldest: Price = trades[count - self.window].price;
        let order = if newest > oldest {
            Order {
                id,
                timestamp: now,
                side: Side::Buy,
                price: newest + self.offset,
                quantity: self.quantity,
                order_type: OrderType::Limit,
            }
        } else {
            Order {
                id,
                timestamp: now,
                side: Side::Sell,
                price: newest - self.offset,
                quantity: self.quantity,
                order_type: OrderType::Limit,
            }
        };
        orders.push(order);
        assert(orders@ =~= self.orders(trades@, id, now));
        orders
    }

    /// The orders that the tape so far calls for, with a fresh random
    /// identifier and the time of the system clock. The trader itself does
    /// not change.
    pub fn generate_orders(&mut self, trades: &[Trade]) -> (orders: Vec<Order>)
        requires
            old(self).wf(),
            old(self).can_quote(trades@),
        ensures
            *final(self) == *old(self),
            trades@.len() < old(self).window ==> orders@ == Seq::<Order>::empty(),
            trades@.len() >= old(self).window ==> exists|id: OrderId, now: Timestamp|
                #![trigger old(self).orders(trades@, id, now)]
                {
                    &&& is_random_uuid(id)
                    &&& is_clock_reading(now)
                    &&& orders@ == old(self).orders(trades@, id, now)
                },
    {
        if trades.len() < self.window {
            return Vec::new();
        }
        let id = fresh_id();
        let now = system_time();
        self.generate_orders_with(trades, id, now)
    }
}

/// While the tape holds fewer trades than the window, the momentum trader
/// sends nothing.
pub proof fn lemma_momentum_waits(
    trader: MomentumTrader,
    tape: Seq<Trade>,
    id: OrderId,
    now: Timestamp,
)
    requires
        tape.len() < trader.window,
    ensures
        trader.orders(tape, id, now) == Seq::<Order>::empty(),
{
}

/// The last `window` prices of `tape` are strictly increasing.
pub open spec fn rising_over(tape: Seq<Trade>, window: int) -> bool {
    forall|i: int, j: int|
        tape.len() - window <= i < j < tape.len() ==> (#[trigger] tape[i]).price < (
        #[trigger] tape[j]).price
}

/// After a window of at least two trades with strictly increasing prices, the
/// momentum trader sends exactly one order: a buy, `offset` above the last
/// trade price.
pub proof fn lemma_momentum_buys_on_rise(
    trader: MomentumTrader,
    tape: Seq<Trade>,
    id: OrderId,
    now: Timestamp,
)
    requires
        trader.window >= 2,
        tape.len() >= trader.window,
        rising_over(tape, trader.window as int),
    ensures
        trader.orders(tape, id, now) == seq![
            Order {
                id,
                timestamp: now,
                side: Side::Buy,
                price: (MomentumTrader::newest(tape) + trader.offset) as Price,
                quantity: trader.quantity,
                order_type: OrderType::Limit,
            },
        ],
{
    let first = tape.len() - trader.window;
    let last = tape.len() - 1;
    assert(tape[first].price < tape[last].price);
}

} // verus!
