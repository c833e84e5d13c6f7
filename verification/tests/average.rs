use lending_risk::average::{average, AggregationError, Average, Observation};
use std::collections::VecDeque;

fn queue(observations: &[(u64, u128)]) -> VecDeque<Observation> {
    observations.iter().map(|&(index, price)| Observation { index, price }).collect()
}

#[test]
fn round_mean_leaves_out_other_rounds() {
    let reports = vec![queue(&[(5, 10)]), queue(&[(5, 20)]), queue(&[(4, 999)])];
    assert_eq!(Average::aggregate_price(&5, &reports, 1_000), Ok((15, 1_000)));
}

#[test]
fn no_observation_of_the_round_is_an_error() {
    let reports = vec![queue(&[(4, 10)]), queue(&[(6, 20)]), queue(&[(3, 999)])];
    assert_eq!(Average::aggregate_price(&5, &reports, 1_000), Err(AggregationError::EmptyPriceSet));
}

#[test]
fn no_report_at_all_is_an_error() {
    let reports: Vec<VecDeque<Observation>> = Vec::new();
    assert_eq!(Average::aggregate_price(&5, &reports, 7), Err(AggregationError::EmptyPriceSet));
    let empty = vec![queue(&[]), queue(&[])];
    assert_eq!(Average::aggregate_price(&5, &empty, 7), Err(AggregationError::EmptyPriceSet));
}

#[test]
fn only_the_back_of_a_queue_counts() {
    // The first queue was of round 5 once, but its latest observation is not.
    let reports = vec![queue(&[(5, 100), (6, 300)]), queue(&[(4, 1), (5, 40)])];
    assert_eq!(Average::aggregate_price(&5, &reports, 9), Ok((40, 9)));
    assert_eq!(Average::aggregate_price(&6, &reports, 9), Ok((300, 9)));
}

#[test]
fn timestamp_is_the_time_of_aggregation() {
    let reports = vec![queue(&[(1, 8)])];
    assert_eq!(Average::aggregate_price(&1, &reports, 0), Ok((8, 0)));
    assert_eq!(Average::aggregate_price(&1, &reports, u64::MAX), Ok((8, u64::MAX)));
}

#[test]
fn mean_rounds_toward_zero() {
    assert_eq!(average(&vec![10, 20]), 15);
    assert_eq!(average(&vec![10, 21]), 15);
    assert_eq!(average(&vec![1, 1, 2]), 1);
    assert_eq!(average(&vec![7]), 7);
    assert_eq!(average(&vec![0, 0, 0]), 0);
}

#[test]
fn mean_of_prices_whose_sum_does_not_fit() {
    assert_eq!(average(&vec![u128::MAX, u128::MAX]), u128::MAX);
    assert_eq!(average(&vec![u128::MAX, u128::MAX - 2]), u128::MAX - 1);
    assert_eq!(average(&vec![u128::MAX, 0]), u128::MAX / 2);
    assert_eq!(average(&vec![u128::MAX, 1, 0]), u128::MAX / 3);
    assert_eq!(average(&vec![u128::MAX, 3, 0]), u128::MAX / 3 + 1);
    let reports = vec![queue(&[(2, u128::MAX)]), queue(&[(2, u128::MAX)]), queue(&[(2, 3)])];
    // (2 * (2^128 - 1) + 3) / 3
    assert_eq!(
        Average::aggregate_price(&2, &reports, 1),
        Ok((226854911280625642308916404954512140971, 1))
    );
}

#[test]
fn same_reports_give_the_same_price() {
    let reports = vec![queue(&[(5, 10)]), queue(&[(5, 25)]), queue(&[(5, 1)])];
    let first = Average::aggregate_price(&5, &reports, 3);
    let second = Average::aggregate_price(&5, &reports, 3);
    assert_eq!(first, Ok((12, 3)));
    assert_eq!(first, second);
}
