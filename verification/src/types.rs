//! The entities shared by the book, the strategies and the tick loop.

use vstd::prelude::*;

verus! {

/// Identifier of an order: the 128 bits of a UUID.
pub type OrderId = u128;

/// A price in ticks; one tick is a hundredth of a currency unit.
pub type Price = u64;

/// A quantity in lots; one lot is a ten-thousandth of a unit of the instrument.
pub type Quantity = u64;

/// Number of ticks in one currency unit.
pub const PRICE_SCALE: u64 = 100;

/// Number of lots in one unit of the instrument.
pub const QUANTITY_SCALE: u64 = 10_000;

/// A point in time: whole seconds since the Unix epoch and the nanoseconds
/// elapsed since the last whole second.
#[derive(Debug, Clone, Copy, PartialEq, Eq, Structural)]
pub struct Timestamp {
    pub seconds: i64,
    pub nanos: u32,
}

/// Kind of an order. The book compares prices only, so a `Market` order is
/// carried through and matched by its price like a `Limit` order.
#[derive(Debug, Clone, Copy, PartialEq, Eq, Structural)]
pub enum OrderType {
    Limit,
    Market,
}

#[derive(Debug, Clone, Copy, PartialEq, Eq, Structural)]
pub enum Side {
    Buy,
    Sell,
}

/// A request to trade. `quantity` is what remains to be filled.
#[derive(Debug, Clone, Copy, PartialEq, Eq, Structural)]
pub struct Order {
    pub id: OrderId,
    pub timestamp: Timestamp,
    pub side: Side,
    pub price: Price,
    pub quantity: Quantity,
    pub order_type: OrderType,
}

/// One match between an arriving order and a resting one. `initiator` is the
/// side of the order that arrived.
#[derive(Debug, Clone, Copy, PartialEq, Eq, Structural)]
pub struct Trade {
    pub buy_order_id: OrderId,
    pub sell_order_id: OrderId,
    pub price: Price,
    pub quantity: Quantity,
    pub timestamp: Timestamp,
    pub initiator: Side,
}

impl Side {
    /// The side an order of this side trades against.
    pub open spec fn opposite(self) -> Side {
        match self {
            Side::Buy => Side::Sell,
            Side::Sell => Side::Buy,
        }
    }
}

impl Order {
    /// This order with `quantity` left to fill.
    pub open spec fn with_quantity(self, quantity: Quantity) -> Order {
        Order {
            id: self.id,
            timestamp: self.timestamp,
            side: self.side,
            price: self.price,
            quantity,
            order_type: self.order_type,
        }
    }
}

} // verus!
