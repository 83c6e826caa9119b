//! What a chart of a trade tape is drawn from: the extent of the price axis,
//! the height of the volume axis and the volume bars of each initiating side.

use vstd::prelude::*;
use crate::types::{Price, Quantity, Side, Trade};

verus! {

/// `price` is the price of one of `trades`.
pub open spec fn is_price_of(trades: Seq<Trade>, price: Price) -> bool {
    exists|i: int| 0 <= i < trades.len() && (#[trigger] trades[i]).price == price
}

/// `quantity` is the quantity of one of `trades`.
pub open spec fn is_quantity_of(trades: Seq<Trade>, quantity: Quantity) -> bool {
    exists|i: int| 0 <= i < trades.len() && (#[trigger] trades[i]).quantity == quantity
}

/// Position and quantity of each trade of `trades` that `side` initiated, in
/// tape order.
pub open spec fn volume_bars(trades: Seq<Trade>, side: Side) -> Seq<(usize, Quantity)>
    decreases trades.len(),
{
    if trades.len() == 0 {
        Seq::empty()
    } else if trades.last().initiator == side {
        volume_bars(trades.drop_last(), side).push(
            ((trades.len() - 1) as usize, trades.last().quantity),
        )
    } else {
        volume_bars(trades.drop_last(), side)
    }
}

/// The lowest and the highest price on the tape; `None` for an empty tape.
pub fn price_range(trades: &[Trade]) -> (range: Option<(Price, Price)>)
    ensures
        range is None <==> trades@.len() == 0,
        range matches Some((low, high)) ==> {
            &&& is_price_of(trades@, low)
            &&& is_price_of(trades@, high)
            &&& forall|i: int| 0 <= i < trades@.len() ==> low <= (#[trigger] trades@[i]).price <= high
        },
{
    if trades.len() == 0 {
        return None;
    }
    let mut low: Price = trades[0].price;
    let mut high: Price = trades[0].price;
    let mut i: usize = 1;
    while i < trades.len()
        invariant
            1 <= i <= trades@.len(),
            is_price_of(trades@, low),
            is_price_of(trades@, high),
            forall|k: int| 0 <= k < i ==> low <= (#[trigger] trades@[k]).price <= high,
        decreases trades@.len() - i,
    {
        let price: Price = trades[i].price;
        if price < low {
            low = price;
        }
        if price > high {
            high = price;
        }
        i = i + 1;
    }
    Some((low, high))
}

/// The largest quantity on the tape; 0 for an empty tape.
pub fn max_quantity(trades: &[Trade]) -> (largest: Quantity)
    ensures
        forall|i: int| 0 <= i < trades@.len() ==> (#[trigger] trades@[i]).quantity <= largest,
        trades@.len() == 0 ==> largest == 0,
        trades@.len() > 0 ==> is_quantity_of(trades@, largest),
{
    let mut largest: Quantity = 0;
    let mut i: usize = 0;
    while i < trades.len()
        invariant
            0 <= i <= trades@.len(),
            forall|k: int| 0 <= k < i ==> (#[trigger] trades@[k]).quantity <= largest,
            i == 0 ==> largest == 0,
            i > 0 ==> is_quantity_of(trades@, largest),
        decreases trades@.len() - i,
    {
        let quantity: Quantity = trades[i].quantity;
        if quantity > largest || i == 0 {
            largest = quantity;
        }
        i = i + 1;
    }
    largest
}

/// The volume bars of the trades that `side` initiated.
pub fn volume_series(trades: &[Trade], side: Side) -> (bars: Vec<(usize, Quantity)>)
    ensures
        bars@ == volume_bars(trades@, side),
{
    let mut bars: Vec<(usize, Quantity)> = Vec::new();
    let mut i: usize = 0;
    while i < trades.len()
        invariant
            0 <= i <= trades@.len(),
            bars@ == volume_bars(trades@.take(i as int), side),
        decreases trades@.len() - i,
    {
        proof {
            let next = trades@.take(i + 1);
            assert(next.drop_last() =~= trades@.take(i as int));
            assert(next.last() == trades@[i as int]);
        }
        if trades[i].initiator == side {
            bars.push((i, trades[i].quantity));
        }
        i = i + 1;
    }
    proof {
        assert(trades@.take(trades@.len() as int) =~= trades@);
    }
    bars
}

} // verus!
