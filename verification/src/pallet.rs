//! The state of the lending pool that this crate reads and updates.
use crate::fixed_point::Ratio;
use crate::CurrencyId;
use std::collections::BTreeMap;
use vstd::prelude::*;

verus! {

/// What an update of the pool's rates makes known.
#[derive(Clone, Copy, Debug, PartialEq, Eq, Structural)]
pub enum Event {
    /// The per-block base rate, multiplier and jump multiplier, and the kink.
    NewInterestParams(u128, u128, u128, u128),
    /// The utilization of a currency's pool.
    UtilityRateUpdated(CurrencyId, u128),
    /// The borrow rate of a currency.
    BorrowRateUpdated(CurrencyId, u128),
    /// The supply rate of a currency.
    SupplyRateUpdated(CurrencyId, u128),
    /// The exchange rate between a currency's shares and the currency.
    ExchangeRateUpdated(CurrencyId, u128),
}

/// The parameters and rates of every market, and the events not yet handed on.
///
/// A parameter that was never set is absent: nothing here stands for it.
pub struct Pallet {
    pub base_rate_per_block: Option<u128>,
    pub multiplier_per_block: Option<u128>,
    pub jump_multiplier_per_block: Option<u128>,
    pub kink: Option<u128>,
    pub utility_rate: BTreeMap<CurrencyId, u128>,
    pub borrow_rate: BTreeMap<CurrencyId, u128>,
    pub supply_rate: BTreeMap<CurrencyId, u128>,
    pub exchange_rate: BTreeMap<CurrencyId, u128>,
    pub collateral_factor: BTreeMap<CurrencyId, Ratio>,
    pub liquidate_factor: Ratio,
    pub events: Vec<Event>,
}

/// The pool's state as mathematical values.
pub struct PalletView {
    pub base_rate_per_block: Option<u128>,
    pub multiplier_per_block: Option<u128>,
    pub jump_multiplier_per_block: Option<u128>,
    pub kink: Option<u128>,
    pub utility_rate: Map<CurrencyId, u128>,
    pub borrow_rate: Map<CurrencyId, u128>,
    pub supply_rate: Map<CurrencyId, u128>,
    pub exchange_rate: Map<CurrencyId, u128>,
    pub collateral_factor: Map<CurrencyId, Ratio>,
    pub liquidate_factor: Ratio,
    pub events: Seq<Event>,
}

impl View for Pallet {
    type V = PalletView;

    open spec fn view(&self) -> PalletView {
        PalletView {
            base_rate_per_block: self.base_rate_per_block,
            multiplier_per_block: self.multiplier_per_block,
            jump_multiplier_per_block: self.jump_multiplier_per_block,
            kink: self.kink,
            utility_rate: self.utility_rate@,
            borrow_rate: self.borrow_rate@,
            supply_rate: self.supply_rate@,
            exchange_rate: self.exchange_rate@,
            collateral_factor: self.collateral_factor@,
            liquidate_factor: self.liquidate_factor,
            events: self.events@,
        }
    }
}

impl Pallet {
    /// A pool with no market listed and no rate parameter set.
    pub fn new(liquidate_factor: Ratio) -> (pallet: Pallet)
        ensures
            pallet@ == (PalletView {
                base_rate_per_block: None,
                multiplier_per_block: None,
                jump_multiplier_per_block: None,
                kink: None,
                utility_rate: Map::empty(),
                borrow_rate: Map::empty(),
                supply_rate: Map::empty(),
                exchange_rate: Map::empty(),
                collateral_factor: Map::empty(),
                liquidate_factor: liquidate_factor,
                events: Seq::empty(),
            }),
    {
        Pallet {
            base_rate_per_block: None,
            multiplier_per_block: None,
            jump_multiplier_per_block: None,
            kink: None,
            utility_rate: BTreeMap::new(),
            borrow_rate: BTreeMap::new(),
            supply_rate: BTreeMap::new(),
            exchange_rate: BTreeMap::new(),
            collateral_factor: BTreeMap::new(),
            liquidate_factor,
            events: Vec::new(),
        }
    }
}

} // verus!
