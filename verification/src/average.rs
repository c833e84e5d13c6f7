//! The price aggregator: one price for a round out of what the providers
//! reported.
use crate::{Price, PriceDetail, Timestamp};
use std::collections::VecDeque;
use vstd::arithmetic::div_mod::lemma_fundamental_div_mod_converse;
use vstd::prelude::*;

verus! {

/// Numbers the rounds in which prices are settled.
pub type RoundIndex = u64;

/// A price that a provider reported from one source for one round.
#[derive(Clone, Copy, Debug, PartialEq, Eq, Structural)]
pub struct Observation {
    pub index: RoundIndex,
    pub price: Price,
}

/// Why no price came out of a round.
#[derive(Clone, Copy, Debug, PartialEq, Eq, Structural)]
pub enum AggregationError {
    /// No provider's latest observation is of the round.
    EmptyPriceSet,
}

/// Whether a queue counts for `round`: it has a latest observation, its
/// back, and that is of the round.
pub open spec fn counts_for(round: RoundIndex) -> spec_fn(VecDeque<Observation>) -> bool {
    |queue: VecDeque<Observation>| queue@.len() > 0 && queue@.last().index == round
}

/// The prices that count for `round`: the latest of each queue that counts,
/// in the order of the queues.
pub open spec fn accepted(round: RoundIndex, reports: Seq<VecDeque<Observation>>) -> Seq<Price> {
    reports.filter(counts_for(round)).map_values(
        |queue: VecDeque<Observation>| queue@.last().price,
    )
}

/// One more queue adds its latest price if it counts, and nothing else.
proof fn lemma_accepted_step(round: RoundIndex, reports: Seq<VecDeque<Observation>>)
    requires
        reports.len() > 0,
    ensures
        accepted(round, reports) == (if counts_for(round)(reports.last()) {
            accepted(round, reports.drop_last()).push(reports.last()@.last().price)
        } else {
            accepted(round, reports.drop_last())
        }),
{
    reveal(Seq::filter);
}

/// The sum of prices.
pub open spec fn total(prices: Seq<Price>) -> int
    decreases prices.len(),
{
    if prices.len() == 0 {
        0
    } else {
        total(prices.drop_last()) + prices.last()
    }
}

/// A sum of prices is at most as many times the largest value a price has.
proof fn lemma_total_bounded(prices: Seq<Price>)
    ensures
        0 <= total(prices) <= prices.len() * u128::MAX,
    decreases prices.len(),
{
    if prices.len() > 0 {
        lemma_total_bounded(prices.drop_last());
        assert((prices.len() - 1) * u128::MAX + u128::MAX == prices.len() * u128::MAX)
            by (nonlinear_arith);
    }
}

/// The mean of the prices, rounded toward zero. The sum may exceed 128 bits:
/// it is never formed.
pub fn average(prices: &Vec<Price>) -> (mean: Price)
    requires
        prices.len() > 0,
    ensures
        mean == total(prices@) / (prices.len() as int),
{
    let count = prices.len() as u128;
    let mut quotient: u128 = 0;
    let mut remainder: u128 = 0;
    let mut i: usize = 0;
    while i < prices.len()
        invariant
            i <= prices.len(),
            count == prices.len(),
            count > 0,
            remainder < count,
            quotient * count + remainder == total(prices@.take(i as int)),
        decreases prices.len() - i,
    {
        let price = prices[i];
        let ghost sum = total(prices@.take(i + 1));
        proof {
            assert(prices@.take(i + 1).drop_last() == prices@.take(i as int));
            lemma_total_bounded(prices@.take(i + 1));
            assert(price == count * (price / count) + price % count) by (nonlinear_arith)
                requires
                    count > 0,
            ;
        }
        let carry: u128 = if remainder >= count - price % count {
            1
        } else {
            0
        };
        proof {
            let whole = quotient + price / count + carry;
            let left = remainder + price % count - carry * count;
            assert(whole * count + left == sum) by (nonlinear_arith)
                requires
                    whole == quotient + price / count + carry,
                    left == remainder + price % count - carry * count,
                    quotient * count + remainder + price == sum,
                    price == count * (price / count) + price % count,
            ;
            assert(whole <= u128::MAX) by (nonlinear_arith)
                requires
                    whole * count + left == sum,
                    0 <= left,
                    count > 0,
                    sum <= (i + 1) * u128::MAX,
                    i + 1 <= count,
            ;
        }
        quotient = quotient + price / count + carry;
        remainder = if carry == 1 {
            remainder - (count - price % count)
        } else {
            remainder + price % count
        };
        i += 1;
    }
    proof {
        assert(prices@.take(i as int) == prices@);
        lemma_fundamental_div_mod_converse(
            total(prices@),
            count as int,
            quotient as int,
            remainder as int,
        );
    }
    quotient
}

/// The strategy that settles a round at the mean of the reported prices.
pub struct Average;

impl Average {
    /// Settles `round_index` at the mean of the prices that count for it,
    /// stamped with `now`, the time of the aggregation.
    ///
    /// Each queue in `reports` holds what one provider reported from one
    /// source, oldest first. A queue counts with its latest observation if
    /// that is of the round; older rounds are never averaged in.
    pub fn aggregate_price(
        round_index: &RoundIndex,
        reports: &Vec<VecDeque<Observation>>,
        now: Timestamp,
    ) -> (detail: Result<PriceDetail, AggregationError>)
        ensures
            match detail {
                Ok((price, timestamp)) => {
                    &&& accepted(*round_index, reports@).len() > 0
                    &&& price == total(accepted(*round_index, reports@)) / (accepted(
                        *round_index,
                        reports@,
                    ).len() as int)
                    &&& timestamp == now
                },
                Err(error) => accepted(*round_index, reports@).len() == 0 && error
                    == AggregationError::EmptyPriceSet,
            },
    {
        let mut prices: Vec<Price> = Vec::new();
        let mut i: usize = 0;
        while i < reports.len()
            invariant
                i <= reports.len(),
                prices@ == accepted(*round_index, reports@.take(i as int)),
            decreases reports.len() - i,
        {
            let queue = &reports[i];
            proof {
                assert(reports@.take(i + 1).drop_last() == reports@.take(i as int));
                lemma_accepted_step(*round_index, reports@.take(i + 1));
            }
            if queue.len() > 0 {
                let observation = queue[queue.len() - 1];
                if observation.index == *round_index {
                    prices.push(observation.price);
                }
            }
            i += 1;
        }
        proof {
            assert(reports@.take(i as int) == reports@);
        }
        if prices.len() == 0 {
            return Err(AggregationError::EmptyPriceSet);
        }
        Ok((average(&prices), now))
    }
}

} // verus!
