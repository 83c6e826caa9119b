//! The tick loop: each tick the market maker quotes, the momentum trader
//! reacts to the tape of the ticks before, and their orders go to the book in
//! that order.

use vstd::prelude::*;
use crate::order_book::{
    lemma_insert_keeps_wf,
    lemma_insert_prices,
    prices_within,
    trade_prices_within,
    BookView,
    OrderBook,
};
use crate::stamps::{fresh_id, is_clock_reading, is_random_uuid, system_time};
use crate::strategy::{
    MarketMaker,
    MomentumTrader,
    MAKER_QUANTITY,
    MAKER_SPREAD,
    MOMENTUM_OFFSET,
    MOMENTUM_QUANTITY,
    MOMENTUM_WINDOW,
    REFERENCE_PRICE,
};
use crate::types::{Order, OrderId, Timestamp, Trade};

verus! {

/// Number of ticks of the standard run.
pub const TICKS: usize = 100;

/// What one tick takes from outside: an identifier for each order that may be
/// sent, and the time.
#[derive(Debug, Clone, Copy, PartialEq, Eq, Structural)]
pub struct TickStamps {
    pub bid_id: OrderId,
    pub ask_id: OrderId,
    pub momentum_id: OrderId,
    pub now: Timestamp,
}

/// A market in progress: the book, the two strategies and the tape of all
/// trades so far.
pub struct Simulation {
    pub book: OrderBook,
    pub maker: MarketMaker,
    pub momentum: MomentumTrader,
    pub tape: Vec<Trade>,
}

pub struct SimulationView {
    pub book: BookView,
    pub maker: MarketMaker,
    pub momentum: MomentumTrader,
    pub tape: Seq<Trade>,
}

impl View for Simulation {
    type V = SimulationView;

    open spec fn view(&self) -> SimulationView {
        SimulationView {
            book: self.book@,
            maker: self.maker,
            momentum: self.momentum,
            tape: self.tape@,
        }
    }
}

/// The book after `orders` were inserted one after the other at time `now`,
/// and the trades this made, in the order they were made.
pub open spec fn submit_all(book: BookView, orders: Seq<Order>, now: Timestamp) -> (
    BookView,
    Seq<Trade>,
)
    decreases orders.len(),
{
    if orders.len() == 0 {
        (book, Seq::empty())
    } else {
        let before = submit_all(book, orders.drop_last(), now);
        (
            before.0.after_insert(orders.last(), now),
            before.1 + before.0.trades_on_insert(orders.last(), now),
        )
    }
}

impl TickStamps {
    /// The identifiers are random UUIDs and the time is a clock reading.
    pub open spec fn is_drawn(self) -> bool {
        &&& is_random_uuid(self.bid_id)
        &&& is_random_uuid(self.ask_id)
        &&& is_random_uuid(self.momentum_id)
        &&& is_clock_reading(self.now)
    }
}

impl SimulationView {
    /// An empty book, the standard strategies, an empty tape.
    pub open spec fn initial() -> SimulationView {
        SimulationView {
            book: BookView { bids: Seq::empty(), asks: Seq::empty() },
            maker: MarketMaker {
                mid: REFERENCE_PRICE,
                spread: MAKER_SPREAD,
                quantity: MAKER_QUANTITY,
            },
            momentum: MomentumTrader {
                window: MOMENTUM_WINDOW,
                offset: MOMENTUM_OFFSET,
                quantity: MOMENTUM_QUANTITY,
            },
            tape: Seq::empty(),
        }
    }

    /// Both strategies are well formed.
    pub open spec fn wf(self) -> bool {
        self.maker.wf() && self.momentum.wf()
    }

    /// The orders of one tick: the market maker's, then the momentum trader's,
    /// which sees the tape as it stood before the tick.
    pub open spec fn orders_of_tick(self, stamps: TickStamps) -> Seq<Order> {
        self.maker.orders(stamps.bid_id, stamps.ask_id, stamps.now) + self.momentum.orders(
            self.tape,
            stamps.momentum_id,
            stamps.now,
        )
    }

    /// The state after one tick.
    pub open spec fn tick(self, stamps: TickStamps) -> SimulationView {
        let submitted = submit_all(self.book, self.orders_of_tick(stamps), stamps.now);
        SimulationView {
            book: submitted.0,
            maker: self.maker,
            momentum: self.momentum,
            tape: self.tape + submitted.1,
        }
    }

    /// The state after one tick for each element of `stamps`, in order.
    pub open spec fn run(self, stamps: Seq<TickStamps>) -> SimulationView
        decreases stamps.len(),
    {
        if stamps.len() == 0 {
            self
        } else {
            self.run(stamps.drop_last()).tick(stamps.last())
        }
    }

    /// The next tick can be made: the strategies are well formed and the
    /// price of the momentum order, if one is due, is a price.
    pub open spec fn can_tick(self) -> bool {
        self.wf() && self.momentum.can_quote(self.tape)
    }

    /// Every tick of a run over `stamps` can be made.
    pub open spec fn can_run(self, stamps: Seq<TickStamps>) -> bool {
        forall|k: int| 0 <= k < stamps.len() ==> (#[trigger] self.run(stamps.take(k))).can_tick()
    }

    /// Every price in play lies between `low` and `high`: those of the
    /// resting orders, of the trades on the tape and of the maker's quotes.
    pub open spec fn prices_within(self, low: int, high: int) -> bool {
        &&& self.book.prices_within(low, high)
        &&& trade_prices_within(self.tape, low, high)
        &&& low <= self.maker.bid_price()
        &&& self.maker.ask_price() <= high
    }

    /// Room for `ticks` more ticks: the strategies are well formed, and every
    /// price in play is far enough from zero and from the largest price that
    /// `ticks` momentum orders in a row, each one offset further, stay prices.
    pub open spec fn has_headroom(self, ticks: nat) -> bool {
        &&& self.wf()
        &&& self.prices_within(ticks * self.momentum.offset, u64::MAX - ticks * self.momentum.offset)
    }
}

/// Bounds on the prices of the book and of the orders submitted hold of the
/// book afterwards and of the trades made.
pub proof fn lemma_submit_prices(
    book: BookView,
    orders: Seq<Order>,
    now: Timestamp,
    low: int,
    high: int,
)
    requires
        book.prices_within(low, high),
        prices_within(orders, low, high),
    ensures
        submit_all(book, orders, now).0.prices_within(low, high),
        trade_prices_within(submit_all(book, orders, now).1, low, high),
    decreases orders.len(),
{
    if orders.len() > 0 {
        let earlier = orders.drop_last();
        assert forall|i: int| 0 <= i < earlier.len() implies low <= (#[trigger] earlier[i]).price
            <= high by {
            assert(earlier[i] == orders[i]);
        }
        lemma_submit_prices(book, earlier, now, low, high);
        let before = submit_all(book, earlier, now);
        lemma_insert_prices(before.0, orders.last(), now, low, high);
        let made = before.0.trades_on_insert(orders.last(), now);
        let all = before.1 + made;
        assert forall|i: int| 0 <= i < all.len() implies low <= (#[trigger] all[i]).price
            <= high by {
            if i < before.1.len() {
                assert(all[i] == before.1[i]);
            } else {
                assert(all[i] == made[i - before.1.len()]);
            }
        }
    }
}

/// Submitting orders to a well-formed book leaves a well-formed book.
pub proof fn lemma_submit_keeps_wf(book: BookView, orders: Seq<Order>, now: Timestamp)
    requires
        book.wf(),
    ensures
        submit_all(book, orders, now).0.wf(),
    decreases orders.len(),
{
    if orders.len() > 0 {
        lemma_submit_keeps_wf(book, orders.drop_last(), now);
        lemma_insert_keeps_wf(submit_all(book, orders.drop_last(), now).0, orders.last(), now);
    }
}

/// What a run leaves alone: the strategies stay as they are, the tape only
/// grows at its end, and a well-formed book stays well formed.
pub proof fn lemma_run_frame(state: SimulationView, stamps: Seq<TickStamps>)
    ensures
        state.run(stamps).maker == state.maker,
        state.run(stamps).momentum == state.momentum,
        state.tape.is_prefix_of(state.run(stamps).tape),
        state.book.wf() ==> state.run(stamps).book.wf(),
    decreases stamps.len(),
{
    if stamps.len() > 0 {
        let before = state.run(stamps.drop_last());
        lemma_run_frame(state, stamps.drop_last());
        if state.book.wf() {
            lemma_submit_keeps_wf(before.book, before.orders_of_tick(stamps.last()), stamps.last().now);
        }
        assert(before.tape.is_prefix_of(before.tick(stamps.last()).tape));
    }
}

/// A state with room for one tick more than `ticks` lets the momentum trader
/// quote, and after that tick has room for `ticks`.
pub proof fn lemma_tick_headroom(state: SimulationView, stamps: TickStamps, ticks: nat)
    requires
        state.has_headroom(ticks + 1),
    ensures
        state.wf(),
        state.momentum.can_quote(state.tape),
        state.tick(stamps).has_headroom(ticks),
{
    let offset = state.momentum.offset as int;
    let low = ticks * offset;
    let high = u64::MAX - ticks * offset;
    assert((ticks + 1) * offset == low + offset) by (nonlinear_arith)
        requires
            low == ticks * offset,
    ;
    assert(0 <= low) by (nonlinear_arith)
        requires
            low == ticks * offset,
            0 <= offset,
    ;
    let tape = state.tape;
    if tape.len() >= state.momentum.window {
        assert(low + offset <= tape[tape.len() - 1].price <= high - offset);
    }
    let orders = state.orders_of_tick(stamps);
    assert forall|i: int| 0 <= i < orders.len() implies low <= (#[trigger] orders[i]).price
        <= high by {
        let quotes = state.maker.orders(stamps.bid_id, stamps.ask_id, stamps.now);
        if i >= quotes.len() {
            assert(orders[i] == state.momentum.orders(tape, stamps.momentum_id, stamps.now)[i
                - quotes.len()]);
        } else {
            assert(orders[i] == quotes[i]);
        }
    }
    assert(state.book.prices_within(low, high)) by {
        assert forall|i: int| 0 <= i < state.book.bids.len() implies low <= (
        #[trigger] state.book.bids[i]).price <= high by {}
        assert forall|i: int| 0 <= i < state.book.asks.len() implies low <= (
        #[trigger] state.book.asks[i]).price <= high by {}
    }
    lemma_submit_prices(state.book, orders, stamps.now, low, high);
    let submitted = submit_all(state.book, orders, stamps.now);
    let after = state.tape + submitted.1;
    assert forall|i: int| 0 <= i < after.len() implies low <= (#[trigger] after[i]).price
        <= high by {
        if i < tape.len() {
            assert(after[i] == tape[i]);
        } else {
            assert(after[i] == submitted.1[i - tape.len()]);
        }
    }
}

/// A state with room for all the ticks of a run and `spare` more has room for
/// `spare` ticks after the run.
pub proof fn lemma_run_headroom(state: SimulationView, stamps: Seq<TickStamps>, spare: nat)
    requires
        state.has_headroom(stamps.len() + spare),
    ensures
        state.run(stamps).has_headroom(spare),
    decreases stamps.len(),
{
    if stamps.len() > 0 {
        lemma_run_headroom(state, stamps.drop_last(), spare + 1);
        lemma_tick_headroom(state.run(stamps.drop_last()), stamps.last(), spare);
    }
}

/// A state with room for as many ticks as `stamps` has elements can make
/// every tick of the run over `stamps`.
pub proof fn lemma_headroom_lets_run(state: SimulationView, stamps: Seq<TickStamps>)
    requires
        state.has_headroom(stamps.len()),
    ensures
        state.can_run(stamps),
{
    assert forall|k: int| 0 <= k < stamps.len() implies (#[trigger] state.run(
        stamps.take(k),
    )).can_tick() by {
        let spare = (stamps.len() - k - 1) as nat;
        lemma_run_headroom(state, stamps.take(k), spare + 1);
        lemma_tick_headroom(state.run(stamps.take(k)), stamps[k], spare);
    }
}

/// A run over two stretches of stamps is a run over the first followed by a
/// run over the second.
pub proof fn lemma_run_in_two(
    state: SimulationView,
    first: Seq<TickStamps>,
    second: Seq<TickStamps>,
)
    ensures
        state.run(first + second) == state.run(first).run(second),
    decreases second.len(),
{
    if second.len() == 0 {
        assert(first + second =~= first);
    } else {
        lemma_run_in_two(state, first, second.drop_last());
        assert((first + second).drop_last() =~= first + second.drop_last());
    }
}

/// The initial state has room for as many ticks as the reference price is
/// ticks away from zero.
pub proof fn lemma_initial_headroom(ticks: nat)
    requires
        ticks <= REFERENCE_PRICE,
    ensures
        SimulationView::initial().has_headroom(ticks),
{
}

/// A run is a function of the state it starts from and of the stamps it is
/// given: two runs that agree on these agree on everything afterwards, the
/// tape included.
pub proof fn lemma_run_deterministic(
    first: SimulationView,
    second: SimulationView,
    first_stamps: Seq<TickStamps>,
    second_stamps: Seq<TickStamps>,
)
    requires
        first == second,
        first_stamps == second_stamps,
    ensures
        first.run(first_stamps) == second.run(second_stamps),
        first.run(first_stamps).tape == second.run(second_stamps).tape,
{
}

impl Simulation {
    /// An empty book, the standard strategies and an empty tape.
    pub fn new() -> (sim: Self)
        ensures
            sim@ == SimulationView::initial(),
    {
        Simulation {
            book: OrderBook::new(),
            maker: MarketMaker::new(),
            momentum: MomentumTrader::new(),
            tape: Vec::new(),
        }
    }

    /// Whether the next tick can be made.
    pub fn can_step(&self) -> (possible: bool)
        ensures
            possible == self@.can_tick(),
    {
        self.maker.is_valid() && self.momentum.can_generate(self.tape.as_slice())
    }

    /// One tick: the market maker's orders, then the momentum trader's, go to
    /// the book in that order, and the trades they make go to the tape.
    pub fn step(&mut self, stamps: TickStamps)
        requires
            old(self)@.can_tick(),
        ensures
            final(self)@ == old(self)@.tick(stamps),
    {
        let ghost start = self@;
        let mut orders = self.maker.generate_orders_with(stamps.bid_id, stamps.ask_id, stamps.now);
        let mut reaction = self.momentum.generate_orders_with(
            self.tape.as_slice(),
            stamps.momentum_id,
            stamps.now,
        );
        orders.append(&mut reaction);
        assert(orders@ == start.orders_of_tick(stamps));
        let mut i: usize = 0;
        while i < orders.len()
            invariant
                0 <= i <= orders@.len(),
                self.maker == start.maker,
                self.momentum == start.momentum,
                self.book@ == submit_all(start.book, orders@.take(i as int), stamps.now).0,
                self.tape@ == start.tape + submit_all(
                    start.book,
                    orders@.take(i as int),
                    stamps.now,
                ).1,
            decreases orders@.len() - i,
        {
            proof {
                let next = orders@.take(i + 1);
                assert(next.drop_last() =~= orders@.take(i as int));
                assert(next.last() == orders@[i as int]);
            }
            let mut trades = self.book.insert_order_at(orders[i], stamps.now);
            self.tape.append(&mut trades);
            i = i + 1;
        }
        proof {
            assert(orders@.take(orders@.len() as int) =~= orders@);
        }
    }

    /// One tick for each element of `stamps`, in order.
    ///
    /// Each tick must be possible when its turn comes. A state that
    /// `has_headroom` for the length of `stamps` is sure to allow them all
    /// (`lemma_headroom_lets_run`); the initial state has room for
    /// `REFERENCE_PRICE` ticks.
    pub fn run(&mut self, stamps: &[TickStamps])
        requires
            old(self)@.can_run(stamps@),
        ensures
            final(self)@ == old(self)@.run(stamps@),
    {
        let ghost start = self@;
        let mut i: usize = 0;
        while i < stamps.len()
            invariant
                0 <= i <= stamps@.len(),
                self@ == start.run(stamps@.take(i as int)),
                start.can_run(stamps@),
            decreases stamps@.len() - i,
        {
            proof {
                let next = stamps@.take(i + 1);
                assert(next.drop_last() =~= stamps@.take(i as int));
                assert(next.last() == stamps@[i as int]);
                assert(start.run(stamps@.take(i as int)).can_tick());
            }
            self.step(stamps[i]);
            i = i + 1;
        }
        proof {
            assert(stamps@.take(stamps@.len() as int) =~= stamps@);
        }
    }
}

/// The standard run: `TICKS` ticks from the initial state, each with fresh
/// random identifiers and the time of the system clock. Returns the tape.
///
/// Identifiers and times cannot be known beforehand; whatever they are, the
/// tape is the one that `Simulation::run` makes of them.
pub fn run_simulation() -> (tape: Vec<Trade>)
    ensures
        exists|stamps: Seq<TickStamps>|
            #![trigger SimulationView::initial().run(stamps)]
            {
                &&& stamps.len() == TICKS
                &&& forall|i: int| 0 <= i < stamps.len() ==> (#[trigger] stamps[i]).is_drawn()
                &&& tape@ == SimulationView::initial().run(stamps).tape
            },
{
    let mut sim = Simulation::new();
    let ghost mut drawn: Seq<TickStamps> = Seq::empty();
    let mut tick: usize = 0;
    proof {
        lemma_initial_headroom(TICKS as nat);
    }
    while tick < TICKS
        invariant
            0 <= tick <= TICKS,
            drawn.len() == tick,
            forall|i: int| 0 <= i < drawn.len() ==> (#[trigger] drawn[i]).is_drawn(),
            sim@ == SimulationView::initial().run(drawn),
            sim@.has_headroom((TICKS - tick) as nat),
        decreases TICKS - tick,
    {
        let stamps = TickStamps {
            bid_id: fresh_id(),
            ask_id: fresh_id(),
            momentum_id: fresh_id(),
            now: system_time(),
        };
        proof {
            lemma_tick_headroom(sim@, stamps, (TICKS - tick - 1) as nat);
            assert(drawn.push(stamps).drop_last() =~= drawn);
            drawn = drawn.push(stamps);
        }
        sim.step(stamps);
        tick = tick + 1;
    }
    sim.tape
}

} // verus!
