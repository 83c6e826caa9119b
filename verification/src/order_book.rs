//! The matching engine: two first-in-first-out queues of resting orders.

use std::collections::VecDeque;
use vstd::prelude::*;
use crate::stamps::{is_clock_reading, system_time};
use crate::stats::{lemma_sums_prepend, total_volume};
use crate::types::{Order, Quantity, Side, Timestamp, Trade};

verus! {

/// Resting orders, oldest first on each side. Matching only ever looks at the
/// front of a queue: priority within a side is arrival order, not price.
pub struct OrderBook {
    pub bids: VecDeque<Order>,
    pub asks: VecDeque<Order>,
}

/// The two queues of a book as sequences, front first.
pub struct BookView {
    pub bids: Seq<Order>,
    pub asks: Seq<Order>,
}

impl View for OrderBook {
    type V = BookView;

    open spec fn view(&self) -> BookView {
        BookView { bids: self.bids@, asks: self.asks@ }
    }
}

/// What one arriving order does to the queue it trades against.
pub struct Matching {
    /// The trades, in the order they were matched.
    pub trades: Seq<Trade>,
    /// The arriving order with what is left of its quantity.
    pub remainder: Order,
    /// The queue after the matched orders were reduced or removed.
    pub resting: Seq<Order>,
}

/// The price condition: a buy crosses a resting order priced at or below it,
/// a sell one priced at or above it.
pub open spec fn crosses(incoming: Order, resting: Order) -> bool {
    match incoming.side {
        Side::Buy => incoming.price >= resting.price,
        Side::Sell => incoming.price <= resting.price,
    }
}

/// The quantity exchanged when `incoming` meets `resting`.
pub open spec fn fill_quantity(incoming: Order, resting: Order) -> Quantity {
    if incoming.quantity <= resting.quantity {
        incoming.quantity
    } else {
        resting.quantity
    }
}

/// The trade made when `incoming` meets `resting`: at the resting order's
/// price, initiated by the arriving side.
pub open spec fn trade_between(incoming: Order, resting: Order, now: Timestamp) -> Trade {
    Trade {
        buy_order_id: match incoming.side {
            Side::Buy => incoming.id,
            Side::Sell => resting.id,
        },
        sell_order_id: match incoming.side {
            Side::Buy => resting.id,
            Side::Sell => incoming.id,
        },
        price: resting.price,
        quantity: fill_quantity(incoming, resting),
        timestamp: now,
        initiator: incoming.side,
    }
}

/// The queue `resting` after its front order gave up `filled`: the front
/// leaves once nothing remains of it.
pub open spec fn after_fill(resting: Seq<Order>, filled: Quantity) -> Seq<Order>
    recommends
        resting.len() > 0,
        filled <= resting[0].quantity,
{
    if resting[0].quantity == filled {
        resting.drop_first()
    } else {
        resting.update(0, resting[0].with_quantity((resting[0].quantity - filled) as Quantity))
    }
}

/// Matches `incoming` against the front of `resting` for as long as the queue
/// is not empty, the price condition holds and `incoming` has quantity left.
pub open spec fn match_against(incoming: Order, resting: Seq<Order>, now: Timestamp) -> Matching
    decreases resting.len(), incoming.quantity,
{
    if resting.len() == 0 || incoming.quantity == 0 || !crosses(incoming, resting[0]) {
        Matching { trades: Seq::empty(), remainder: incoming, resting }
    } else {
        let filled = fill_quantity(incoming, resting[0]);
        let rest = match_against(
            incoming.with_quantity((incoming.quantity - filled) as Quantity),
            after_fill(resting, filled),
            now,
        );
        Matching {
            trades: seq![trade_between(incoming, resting[0], now)] + rest.trades,
            remainder: rest.remainder,
            resting: rest.resting,
        }
    }
}

/// The queue of `own` side after what is left of an order joined its tail;
/// an order with nothing left does not rest.
pub open spec fn enqueue(own: Seq<Order>, remainder: Order) -> Seq<Order> {
    if remainder.quantity > 0 {
        own.push(remainder)
    } else {
        own
    }
}

impl BookView {
    /// Every resting order has quantity left.
    pub open spec fn wf(self) -> bool {
        all_positive(self.bids) && all_positive(self.asks)
    }

    /// Every resting order is priced between `low` and `high`.
    pub open spec fn prices_within(self, low: int, high: int) -> bool {
        prices_within(self.bids, low, high) && prices_within(self.asks, low, high)
    }

    /// The queue that an order of `side` rests in.
    pub open spec fn own(self, side: Side) -> Seq<Order> {
        match side {
            Side::Buy => self.bids,
            Side::Sell => self.asks,
        }
    }

    /// The queue that an order of `side` trades against.
    pub open spec fn opposite(self, side: Side) -> Seq<Order> {
        self.own(side.opposite())
    }

    /// The trades that inserting `order` at time `now` produces.
    pub open spec fn trades_on_insert(self, order: Order, now: Timestamp) -> Seq<Trade> {
        match_against(order, self.opposite(order.side), now).trades
    }

    /// The book after `order` was inserted at time `now`.
    pub open spec fn after_insert(self, order: Order, now: Timestamp) -> BookView {
        let matching = match_against(order, self.opposite(order.side), now);
        match order.side {
            Side::Buy => BookView {
                bids: enqueue(self.bids, matching.remainder),
                asks: matching.resting,
            },
            Side::Sell => BookView {
                bids: matching.resting,
                asks: enqueue(self.asks, matching.remainder),
            },
        }
    }
}

/// Every order of `orders` is priced between `low` and `high`.
pub open spec fn prices_within(orders: Seq<Order>, low: int, high: int) -> bool {
    forall|i: int| 0 <= i < orders.len() ==> low <= (#[trigger] orders[i]).price <= high
}

/// Every trade of `trades` is priced between `low` and `high`.
pub open spec fn trade_prices_within(trades: Seq<Trade>, low: int, high: int) -> bool {
    forall|i: int| 0 <= i < trades.len() ==> low <= (#[trigger] trades[i]).price <= high
}

/// Every order of `orders` has quantity left.
pub open spec fn all_positive(orders: Seq<Order>) -> bool {
    forall|i: int| 0 <= i < orders.len() ==> (#[trigger] orders[i]).quantity > 0
}

/// Sum of the quantities left of `orders`, in lots.
pub open spec fn resting_quantity(orders: Seq<Order>) -> nat
    decreases orders.len(),
{
    if orders.len() == 0 {
        0
    } else {
        orders[0].quantity as nat + resting_quantity(orders.drop_first())
    }
}

/// Matching neither makes nor loses quantity: what was traded is missing
/// from the arriving order, and as much is missing from the queue.
pub proof fn lemma_match_conserves(incoming: Order, resting: Seq<Order>, now: Timestamp)
    ensures
        ({
            let m = match_against(incoming, resting, now);
            &&& total_volume(m.trades) + m.remainder.quantity == incoming.quantity
            &&& total_volume(m.trades) + resting_quantity(m.resting) == resting_quantity(resting)
        }),
    decreases resting.len(), incoming.quantity,
{
    if resting.len() == 0 || incoming.quantity == 0 || !crosses(incoming, resting[0]) {
    } else {
        let filled = fill_quantity(incoming, resting[0]);
        let left = incoming.with_quantity((incoming.quantity - filled) as Quantity);
        let next = after_fill(resting, filled);
        lemma_match_conserves(left, next, now);
        lemma_sums_prepend(
            trade_between(incoming, resting[0], now),
            match_against(left, next, now).trades,
        );
        if resting[0].quantity != filled {
            assert(next.drop_first() =~= resting.drop_first());
        }
    }
}

/// Matching changes nothing of the arriving order but its quantity, which
/// never grows, and it stops only when the queue is empty, the arriving order
/// is exhausted, or the order now at the front does not cross. Every trade
/// bears the given time, is initiated by the arriving side and names the
/// arriving order on that side.
pub proof fn lemma_match_outcome(incoming: Order, resting: Seq<Order>, now: Timestamp)
    ensures
        ({
            let m = match_against(incoming, resting, now);
            &&& m.remainder == incoming.with_quantity(m.remainder.quantity)
            &&& m.remainder.quantity <= incoming.quantity
            &&& m.resting.len() <= resting.len()
            &&& (m.resting.len() == 0 || m.remainder.quantity == 0 || !crosses(
                m.remainder,
                m.resting[0],
            ))
            &&& forall|i: int|
                0 <= i < m.trades.len() ==> {
                    let t = #[trigger] m.trades[i];
                    &&& t.timestamp == now
                    &&& t.initiator == incoming.side
                    &&& t.quantity <= incoming.quantity
                    &&& match incoming.side {
                        Side::Buy => t.buy_order_id == incoming.id,
                        Side::Sell => t.sell_order_id == incoming.id,
                    }
                }
        }),
    decreases resting.len(), incoming.quantity,
{
    if resting.len() == 0 || incoming.quantity == 0 || !crosses(incoming, resting[0]) {
    } else {
        let filled = fill_quantity(incoming, resting[0]);
        let left = incoming.with_quantity((incoming.quantity - filled) as Quantity);
        lemma_match_outcome(left, after_fill(resting, filled), now);
        let m = match_against(incoming, resting, now);
        let rest = match_against(left, after_fill(resting, filled), now);
        assert forall|i: int| 0 <= i < m.trades.len() implies {
            let t = #[trigger] m.trades[i];
            &&& t.timestamp == now
            &&& t.initiator == incoming.side
            &&& t.quantity <= incoming.quantity
            &&& match incoming.side {
                Side::Buy => t.buy_order_id == incoming.id,
                Side::Sell => t.sell_order_id == incoming.id,
            }
        } by {
            if i > 0 {
                assert(m.trades[i] == rest.trades[i - 1]);
            }
        }
    }
}

/// Matching against a queue of orders that all have quantity left leaves
/// such a queue.
pub proof fn lemma_match_keeps_positive(incoming: Order, resting: Seq<Order>, now: Timestamp)
    requires
        all_positive(resting),
    ensures
        all_positive(match_against(incoming, resting, now).resting),
    decreases resting.len(), incoming.quantity,
{
    if resting.len() == 0 || incoming.quantity == 0 || !crosses(incoming, resting[0]) {
    } else {
        let filled = fill_quantity(incoming, resting[0]);
        let next = after_fill(resting, filled);
        assert forall|i: int| 0 <= i < next.len() implies (#[trigger] next[i]).quantity > 0 by {
            if resting[0].quantity == filled {
                assert(next[i] == resting[i + 1]);
            } else if i > 0 {
                assert(next[i] == resting[i]);
            }
        }
        lemma_match_keeps_positive(
            incoming.with_quantity((incoming.quantity - filled) as Quantity),
            next,
            now,
        );
    }
}

/// The identifier of the resting order in a trade that `side` initiated.
pub open spec fn resting_id(trade: Trade, side: Side) -> u128 {
    match side {
        Side::Buy => trade.sell_order_id,
        Side::Sell => trade.buy_order_id,
    }
}

/// Time priority, and the resting order sets the price: the trades are made
/// with the orders of the queue in queue order, front first, each at the
/// price of its resting order, which the arriving order crosses. Every trade
/// but the last takes all of its resting order.
pub proof fn lemma_match_follows_queue(incoming: Order, resting: Seq<Order>, now: Timestamp)
    ensures
        ({
            let m = match_against(incoming, resting, now);
            &&& m.trades.len() <= resting.len()
            &&& forall|i: int|
                0 <= i < m.trades.len() ==> {
                    let t = #[trigger] m.trades[i];
                    &&& t.price == resting[i].price
                    &&& resting_id(t, incoming.side) == resting[i].id
                    &&& crosses(incoming, resting[i])
                    &&& t.quantity <= resting[i].quantity
                    &&& i < m.trades.len() - 1 ==> t.quantity == resting[i].quantity
                }
        }),
    decreases resting.len(), incoming.quantity,
{
    if resting.len() == 0 || incoming.quantity == 0 || !crosses(incoming, resting[0]) {
    } else {
        let filled = fill_quantity(incoming, resting[0]);
        let left = incoming.with_quantity((incoming.quantity - filled) as Quantity);
        let next = after_fill(resting, filled);
        lemma_match_follows_queue(left, next, now);
        let m = match_against(incoming, resting, now);
        let rest = match_against(left, next, now);
        assert forall|i: int| 0 <= i < m.trades.len() implies {
            let t = #[trigger] m.trades[i];
            &&& t.price == resting[i].price
            &&& resting_id(t, incoming.side) == resting[i].id
            &&& crosses(incoming, resting[i])
            &&& t.quantity <= resting[i].quantity
            &&& i < m.trades.len() - 1 ==> t.quantity == resting[i].quantity
        } by {
            if i > 0 {
                assert(m.trades[i] == rest.trades[i - 1]);
                assert(next[i - 1] == resting[i]);
            }
        }
    }
}

/// No resting order changes its price, and every trade is made at the price
/// of one: bounds on the prices of the queue hold of the trades and of the
/// queue afterwards.
pub proof fn lemma_match_prices(
    incoming: Order,
    resting: Seq<Order>,
    now: Timestamp,
    low: int,
    high: int,
)
    requires
        prices_within(resting, low, high),
    ensures
        prices_within(match_against(incoming, resting, now).resting, low, high),
        trade_prices_within(match_against(incoming, resting, now).trades, low, high),
    decreases resting.len(), incoming.quantity,
{
    if resting.len() == 0 || incoming.quantity == 0 || !crosses(incoming, resting[0]) {
    } else {
        let filled = fill_quantity(incoming, resting[0]);
        let next = after_fill(resting, filled);
        let left = incoming.with_quantity((incoming.quantity - filled) as Quantity);
        assert forall|i: int| 0 <= i < next.len() implies low <= (#[trigger] next[i]).price
            <= high by {
            if resting[0].quantity == filled {
                assert(next[i] == resting[i + 1]);
            } else if i > 0 {
                assert(next[i] == resting[i]);
            } else {
                assert(next[0].price == resting[0].price);
            }
        }
        lemma_match_prices(left, next, now, low, high);
        let m = match_against(incoming, resting, now);
        let rest = match_against(left, next, now);
        assert forall|i: int| 0 <= i < m.trades.len() implies low <= (#[trigger] m.trades[i]).price
            <= high by {
            if i > 0 {
                assert(m.trades[i] == rest.trades[i - 1]);
            } else {
                assert(m.trades[0].price == resting[0].price);
            }
        }
    }
}

/// An order that finds nothing on the opposite side makes no trade and, if it
/// has quantity, joins the tail of its own queue unchanged.
pub proof fn lemma_insert_unopposed(book: BookView, order: Order, now: Timestamp)
    requires
        book.opposite(order.side).len() == 0,
        order.quantity > 0,
    ensures
        book.trades_on_insert(order, now) == Seq::<Trade>::empty(),
        book.after_insert(order, now).own(order.side) == book.own(order.side).push(order),
        book.after_insert(order, now).opposite(order.side) == book.opposite(order.side),
{
}

/// An order without quantity makes no trade and leaves the book as it was.
pub proof fn lemma_insert_nothing(book: BookView, order: Order, now: Timestamp)
    requires
        order.quantity == 0,
    ensures
        book.trades_on_insert(order, now) == Seq::<Trade>::empty(),
        book.after_insert(order, now) == book,
{
}

/// An order whose price does not reach the front of the opposite queue makes
/// no trade and rests in full; the opposite queue is untouched.
pub proof fn lemma_insert_no_cross(book: BookView, order: Order, now: Timestamp)
    requires
        book.opposite(order.side).len() > 0,
        !crosses(order, book.opposite(order.side)[0]),
        order.quantity > 0,
    ensures
        book.trades_on_insert(order, now) == Seq::<Trade>::empty(),
        book.after_insert(order, now).own(order.side) == book.own(order.side).push(order),
        book.after_insert(order, now).opposite(order.side) == book.opposite(order.side),
{
}

/// Insertion keeps the book well formed: no order rests without quantity.
pub proof fn lemma_insert_keeps_wf(book: BookView, order: Order, now: Timestamp)
    requires
        book.wf(),
    ensures
        book.after_insert(order, now).wf(),
{
    let after = book.after_insert(order, now);
    lemma_match_keeps_positive(order, book.opposite(order.side), now);
    assert(all_positive(book.own(order.side)));
    assert(all_positive(after.bids));
    assert(all_positive(after.asks));
}

/// Bounds on the prices in the book and on the price of the arriving order
/// hold of the book after the insertion; the trades are priced within the
/// bounds of the book alone.
pub proof fn lemma_insert_prices(book: BookView, order: Order, now: Timestamp, low: int, high: int)
    requires
        book.prices_within(low, high),
        low <= order.price <= high,
    ensures
        book.after_insert(order, now).prices_within(low, high),
        trade_prices_within(book.trades_on_insert(order, now), low, high),
{
    lemma_match_prices(order, book.opposite(order.side), now, low, high);
    lemma_match_outcome(order, book.opposite(order.side), now);
}

/// Runs `match_against` on a queue in place.
fn match_queue(queue: &mut VecDeque<Order>, order: Order, now: Timestamp) -> (out: (
    Vec<Trade>,
    Order,
))
    ensures
        out.0@ == match_against(order, old(queue)@, now).trades,
        out.1 == match_against(order, old(queue)@, now).remainder,
        final(queue)@ == match_against(order, old(queue)@, now).resting,
{
    let mut trades: Vec<Trade> = Vec::new();
    let mut incoming = order;
    while queue.len() > 0 && incoming.quantity > 0 && price_crosses(&incoming, &queue[0])
        invariant
            match_against(order, old(queue)@, now).trades == trades@ + match_against(
                incoming,
                queue@,
                now,
            ).trades,
            match_against(order, old(queue)@, now).remainder == match_against(
                incoming,
                queue@,
                now,
            ).remainder,
            match_against(order, old(queue)@, now).resting == match_against(
                incoming,
                queue@,
                now,
            ).resting,
        decreases queue@.len(), incoming.quantity,
    {
        let ghost before = queue@;
        let ghost arriving = incoming;
        let front = queue[0];
        let filled = if incoming.quantity <= front.quantity {
            incoming.quantity
        } else {
            front.quantity
        };
        trades.push(
            Trade {
                buy_order_id: match incoming.side {
                    Side::Buy => incoming.id,
                    Side::Sell => front.id,
                },
                sell_order_id: match incoming.side {
                    Side::Buy => front.id,
                    Side::Sell => incoming.id,
                },
                price: front.price,
                quantity: filled,
                timestamp: now,
                initiator: incoming.side,
            },
        );
        incoming.quantity = incoming.quantity - filled;
        queue.pop_front();
        if front.quantity > filled {
            let mut reduced = front;
            reduced.quantity = front.quantity - filled;
            queue.push_front(reduced);
        }
        proof {
            assert(queue@ =~= after_fill(before, filled));
            assert(incoming == arriving.with_quantity((arriving.quantity - filled) as Quantity));
            let rest = match_against(incoming, queue@, now);
            assert(match_against(arriving, before, now).trades == seq![
                trade_between(arriving, before[0], now),
            ] + rest.trades);
            assert(trades@ + rest.trades =~= trades@.drop_last() + (seq![
                trade_between(arriving, before[0], now),
            ] + rest.trades));
        }
    }
    (trades, incoming)
}

/// Whether `incoming` meets the price of `resting`.
fn price_crosses(incoming: &Order, resting: &Order) -> (b: bool)
    ensures
        b == crosses(*incoming, *resting),
{
    match incoming.side {
        Side::Buy => incoming.price >= resting.price,
        Side::Sell => incoming.price <= resting.price,
    }
}

impl OrderBook {
    /// An empty book.
    pub fn new() -> (book: Self)
        ensures
            book@.bids == Seq::<Order>::empty(),
            book@.asks == Seq::<Order>::empty(),
            book@.wf(),
    {
        OrderBook { bids: VecDeque::new(), asks: VecDeque::new() }
    }

    /// Inserts `order`, stamping every trade it causes with `now`.
    ///
    /// The order is matched against the front of the opposite queue while it
    /// crosses; what is left of it, if anything, joins the tail of its own
    /// queue. Returns the trades in the order they were matched.
    pub fn insert_order_at(&mut self, order: Order, now: Timestamp) -> (trades: Vec<Trade>)
        ensures
            trades@ == old(self)@.trades_on_insert(order, now),
            final(self)@ == old(self)@.after_insert(order, now),
            old(self)@.wf() ==> final(self)@.wf(),
    {
        proof {
            if self@.wf() {
                lemma_insert_keeps_wf(self@, order, now);
            }
        }
        match order.side {
            Side::Buy => {
                let (trades, remainder) = match_queue(&mut self.asks, order, now);
                if remainder.quantity > 0 {
                    self.bids.push_back(remainder);
                }
                trades
            },
            Side::Sell => {
                let (trades, remainder) = match_queue(&mut self.bids, order, now);
                if remainder.quantity > 0 {
                    self.asks.push_back(remainder);
                }
                trades
            },
        }
    }

    /// Inserts `order` at the time the system clock shows when it is called.
    ///
    /// Which time that is cannot be known beforehand; whatever it is, the
    /// book and the trades are those of `insert_order_at` for it.
    pub fn insert_order(&mut self, order: Order) -> (trades: Vec<Trade>)
        ensures
            exists|now: Timestamp|
                #![trigger old(self)@.trades_on_insert(order, now)]
                {
                    &&& is_clock_reading(now)
                    &&& trades@ == old(self)@.trades_on_insert(order, now)
                    &&& final(self)@ == old(self)@.after_insert(order, now)
                },
            old(self)@.wf() ==> final(self)@.wf(),
    {
        let now = system_time();
        self.insert_order_at(order, now)
    }
}

} // verus!
