//! Summary figures of a trade tape: count, volume, notional and the
//! volume-weighted average price.

use vstd::prelude::*;
use crate::order_book::trade_prices_within;
use crate::types::{Price, Trade};

verus! {

/// Sum of the quantities of `trades`, in lots.
pub open spec fn total_volume(trades: Seq<Trade>) -> nat
    decreases trades.len(),
{
    if trades.len() == 0 {
        0
    } else {
        total_volume(trades.drop_last()) + trades.last().quantity as nat
    }
}

/// Sum of price times quantity over `trades`, in ticks times lots.
pub open spec fn total_notional(trades: Seq<Trade>) -> nat
    decreases trades.len(),
{
    if trades.len() == 0 {
        0
    } else {
        total_notional(trades.drop_last()) + (trades.last().price * trades.last().quantity) as nat
    }
}

/// Volume-weighted average price in whole ticks: notional divided by volume,
/// rounded down, and 0 for a tape without volume.
pub open spec fn vwap(trades: Seq<Trade>) -> nat {
    if total_volume(trades) == 0 {
        0
    } else {
        total_notional(trades) / total_volume(trades)
    }
}

/// The figures reported at the end of a run.
#[derive(Debug, Clone, Copy, PartialEq, Eq, Structural)]
pub struct Summary {
    pub trade_count: usize,
    /// In lots.
    pub total_volume: u128,
    /// In ticks times lots.
    pub notional: u128,
    /// In whole ticks, rounded down.
    pub vwap: Price,
}

/// The first `n` trades weigh no more than all of them.
pub proof fn lemma_prefix_sums(trades: Seq<Trade>, n: int)
    requires
        0 <= n <= trades.len(),
    ensures
        total_volume(trades.take(n)) <= total_volume(trades),
        total_notional(trades.take(n)) <= total_notional(trades),
    decreases trades.len(),
{
    if n == trades.len() {
        assert(trades.take(n) =~= trades);
    } else {
        lemma_prefix_sums(trades.drop_last(), n);
        assert(trades.drop_last().take(n) =~= trades.take(n));
    }
}

/// Putting a trade in front of a tape adds its quantity to the volume and
/// its price times its quantity to the notional.
pub proof fn lemma_sums_prepend(first: Trade, rest: Seq<Trade>)
    ensures
        total_volume(seq![first] + rest) == first.quantity + total_volume(rest),
        total_notional(seq![first] + rest) == first.price * first.quantity + total_notional(rest),
    decreases rest.len(),
{
    let all = seq![first] + rest;
    assert(all.len() == rest.len() + 1);
    if rest.len() == 0 {
        assert(all.drop_last() =~= Seq::<Trade>::empty());
        assert(all.last() == first);
        assert(total_volume(all.drop_last()) == 0);
        assert(total_notional(all.drop_last()) == 0);
    } else {
        lemma_sums_prepend(first, rest.drop_last());
        assert(all.drop_last() =~= seq![first] + rest.drop_last());
        assert(all.last() == rest.last());
    }
}

/// A tape's volume is at most the largest quantity times its length, and its
/// notional at most the largest price times its volume.
pub proof fn lemma_sum_bounds(trades: Seq<Trade>)
    ensures
        total_volume(trades) <= trades.len() * u64::MAX,
        total_notional(trades) <= u64::MAX * total_volume(trades),
    decreases trades.len(),
{
    if trades.len() > 0 {
        lemma_sum_bounds(trades.drop_last());
        let p = trades.last().price as int;
        let q = trades.last().quantity as int;
        let m = u64::MAX as int;
        let v = total_volume(trades.drop_last()) as int;
        assert(p * q <= m * q) by (nonlinear_arith)
            requires
                0 <= p <= m,
                0 <= q,
        ;
        assert(m * v + m * q == m * (v + q)) by (nonlinear_arith);
        assert((trades.len() - 1) * m + m == trades.len() * m) by (nonlinear_arith);
    }
}

/// The average price of a tape is a price: it fits the type of one.
pub proof fn lemma_vwap_is_price(trades: Seq<Trade>)
    ensures
        vwap(trades) <= u64::MAX,
{
    lemma_sum_bounds(trades);
    let n = total_notional(trades) as int;
    let v = total_volume(trades) as int;
    let m = u64::MAX as int;
    if v > 0 {
        assert(n / v <= m) by (nonlinear_arith)
            requires
                0 <= n <= m * v,
                v > 0,
        ;
    }
}

/// The notional of a tape lies between its volume at the lowest price and
/// its volume at the highest.
pub proof fn lemma_notional_between(trades: Seq<Trade>, low: int, high: int)
    requires
        trade_prices_within(trades, low, high),
    ensures
        low * total_volume(trades) <= total_notional(trades) <= high * total_volume(trades),
    decreases trades.len(),
{
    if trades.len() > 0 {
        let earlier = trades.drop_last();
        assert forall|i: int| 0 <= i < earlier.len() implies low <= (#[trigger] earlier[i]).price
            <= high by {
            assert(earlier[i] == trades[i]);
        }
        lemma_notional_between(earlier, low, high);
        let p = trades.last().price as int;
        let q = trades.last().quantity as int;
        let v = total_volume(earlier) as int;
        assert(low * q <= p * q <= high * q) by (nonlinear_arith)
            requires
                low <= p <= high,
                0 <= q,
        ;
        assert(low * (v + q) == low * v + low * q && high * (v + q) == high * v + high * q)
            by (nonlinear_arith);
        assert(0 <= p * q) by (nonlinear_arith)
            requires
                0 <= p,
                0 <= q,
        ;
        assert(total_volume(trades) == v + q);
        assert(total_notional(trades) == total_notional(earlier) + p * q);
    } else {
        assert(low * 0 == 0 && high * 0 == 0) by (nonlinear_arith);
    }
}

/// The average price of a tape with volume lies between its lowest and its
/// highest price.
pub proof fn lemma_vwap_between(trades: Seq<Trade>, low: int, high: int)
    requires
        trade_prices_within(trades, low, high),
        total_volume(trades) > 0,
    ensures
        low <= vwap(trades) <= high,
{
    lemma_notional_between(trades, low, high);
    let n = total_notional(trades) as int;
    let v = total_volume(trades) as int;
    assert(low <= n / v <= high) by (nonlinear_arith)
        requires
            low * v <= n <= high * v,
            v > 0,
    ;
}

/// Counts the trades, adds up their volume and notional and divides the one
/// by the other.
///
/// Volume always fits; so does the average price. Only the notional of a
/// very long tape of very large trades can exceed 128 bits, and then, and
/// only then, there is no summary.
pub fn summary_stats(trades: &[Trade]) -> (summary: Option<Summary>)
    ensures
        summary is Some <==> total_notional(trades@) <= u128::MAX,
        summary matches Some(s) ==> {
            &&& s.trade_count == trades@.len()
            &&& s.total_volume == total_volume(trades@)
            &&& s.notional == total_notional(trades@)
            &&& s.vwap == vwap(trades@)
        },
{
    let mut volume: u128 = 0;
    let mut notional: u128 = 0;
    let mut i: usize = 0;
    while i < trades.len()
        invariant
            0 <= i <= trades@.len(),
            volume == total_volume(trades@.take(i as int)),
            notional == total_notional(trades@.take(i as int)),
        decreases trades@.len() - i,
    {
        let price: u128 = trades[i].price as u128;
        let quantity: u128 = trades[i].quantity as u128;
        proof {
            let next = trades@.take(i + 1);
            assert(next.drop_last() =~= trades@.take(i as int));
            assert(next.last() == trades@[i as int]);
            lemma_sum_bounds(next);
            lemma_prefix_sums(trades@, i + 1);
            assert(next.len() * u64::MAX <= u64::MAX * u64::MAX) by (nonlinear_arith)
                requires
                    next.len() <= u64::MAX,
            ;
            assert(price * quantity <= u64::MAX * u64::MAX) by (nonlinear_arith)
                requires
                    0 <= price <= u64::MAX,
                    0 <= quantity <= u64::MAX,
            ;
        }
        let amount: u128 = price * quantity;
        if amount > u128::MAX - notional {
            return None;
        }
        volume = volume + quantity;
        notional = notional + amount;
        i = i + 1;
    }
    proof {
        assert(trades@.take(trades@.len() as int) =~= trades@);
        lemma_vwap_is_price(trades@);
    }
    let average: Price = if volume == 0 {
        0
    } else {
        (notional / volume) as u64
    };
    Some(Summary { trade_count: trades.len(), total_volume: volume, notional, vwap: average })
}

} // verus!
