//! Risk management for an over-collateralized lending pool.
//!
//! The crate prices borrower solvency, derives the interest-rate curve of a
//! pool and picks the positions to liquidate. Every quantity is an integer:
//! balances are whole units of an asset, and prices, rates and values are
//! fixed-point numbers with eighteen decimal places.
use vstd::prelude::*;

pub mod average;
pub mod fixed_point;
pub mod liquidate;
pub mod pallet;
pub mod rate;

verus! {

/// Identifies a tradable asset.
pub type CurrencyId = u32;

/// Identifies a borrower or depositor.
pub type AccountId = u64;

/// An amount of an asset, or a number of pool shares.
pub type Balance = u128;

/// A fixed-point price: the value of one unit of an asset.
pub type Price = u128;

/// Milliseconds since the epoch.
pub type Timestamp = u64;

/// The price of an asset and the moment at which it was settled.
pub type PriceDetail = (Price, Timestamp);

} // verus!
