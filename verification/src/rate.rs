//! The interest rate model: utilization, the borrow and supply rates of a
//! pool, and the exchange rate between its shares and its currency.
use crate::fixed_point::DECIMAL;
use crate::pallet::{Event, Pallet, PalletView};
use crate::{Balance, CurrencyId};
use vstd::prelude::*;

verus! {

/// The number of blocks in a year, by which yearly rates are divided.
pub const BLOCK_PER_YEAR: u128 = 5256000;

/// Why an update of the rates was given up.
#[derive(Clone, Copy, Debug, PartialEq, Eq, Structural)]
pub enum RateError {
    /// A sum, a difference or a quotient of balances has no value.
    ArithmeticOverflow,
    /// A rate has no value, or a parameter that it needs was never set.
    RateComputationFailed,
    /// The exchange rate has no value: there are no shares, or it does not fit.
    CalcExchangeRateFailed,
    /// Cash and loans together do not fit.
    CalcAccrueInterestFailed,
}

/// What is borrowed from a pool and how many shares of it exist.
#[derive(Clone, Copy, Debug, PartialEq, Eq, Structural)]
pub struct Position {
    pub debit: Balance,
    pub collateral: Balance,
}

/// The part of a pool's liquidity that is lent out, as a fixed-point
/// fraction: none where nothing is borrowed, else the loans divided by cash
/// plus loans less reserves, rounded toward zero. It has no value where cash
/// and loans do not fit or do not exceed the reserves, or where the loans
/// brought to the fixed-point scale do not fit.
pub open spec fn utilization(cash: u128, borrows: u128, reserves: u128) -> Option<u128> {
    if borrows == 0 {
        Some(0u128)
    } else if cash + borrows <= u128::MAX && cash + borrows > reserves && borrows * DECIMAL
        <= u128::MAX {
        Some(((borrows * DECIMAL) / (cash + borrows - reserves)) as u128)
    } else {
        None
    }
}

/// While the reserves do not exceed the cash, no more is lent out than the
/// pool's liquidity: the utilization is at most one.
pub proof fn lemma_utilization_within_one(cash: u128, borrows: u128, reserves: u128)
    requires
        reserves <= cash,
        utilization(cash, borrows, reserves) is Some,
    ensures
        utilization(cash, borrows, reserves)->0 <= DECIMAL,
{
    if borrows > 0 {
        let total = cash + borrows - reserves;
        assert((borrows * DECIMAL) / total <= DECIMAL) by (nonlinear_arith)
            requires
                0 < borrows <= total,
        ;
    }
}

/// The per-block base rate, multiplier and jump multiplier that yearly
/// parameters come to. The multiplier is divided by the kink as well, so
/// that it is the slope up to the kink.
pub open spec fn per_block(
    base_rate_per_year: u128,
    multiplier_per_year: u128,
    jump_multiplier_per_year: u128,
    kink: u128,
) -> Option<(u128, u128, u128)> {
    if kink != 0 && multiplier_per_year * DECIMAL <= u128::MAX && BLOCK_PER_YEAR * kink
        <= u128::MAX {
        Some(
            (
                base_rate_per_year / BLOCK_PER_YEAR,
                ((multiplier_per_year * DECIMAL) / (BLOCK_PER_YEAR * kink)) as u128,
                jump_multiplier_per_year / BLOCK_PER_YEAR,
            ),
        )
    } else {
        None
    }
}

/// The borrow rate up to the kink: the base rate plus the utilization times
/// the multiplier.
pub open spec fn rate_below_kink(util: int, base: int, multiplier: int) -> int {
    util * multiplier / (DECIMAL as int) + base
}

/// The borrow rate beyond the kink: the rate at the kink plus the excess
/// utilization times the jump multiplier.
pub open spec fn rate_above_kink(util: int, base: int, multiplier: int, jump: int, kink: int) -> int {
    rate_below_kink(kink, base, multiplier) + (util - kink) * jump / (DECIMAL as int)
}

/// The borrow rate at a utilization, where every product and sum on the way
/// to it fits in 128 bits.
pub open spec fn borrow_rate(util: u128, base: u128, multiplier: u128, jump: u128, kink: u128) -> Option<
    u128,
> {
    if util <= kink {
        if util * multiplier <= u128::MAX && rate_below_kink(
            util as int,
            base as int,
            multiplier as int,
        ) <= u128::MAX {
            Some(rate_below_kink(util as int, base as int, multiplier as int) as u128)
        } else {
            None
        }
    } else {
        if kink * multiplier <= u128::MAX && rate_below_kink(
            kink as int,
            base as int,
            multiplier as int,
        ) <= u128::MAX && (util - kink) * jump <= u128::MAX && rate_above_kink(
            util as int,
            base as int,
            multiplier as int,
            jump as int,
            kink as int,
        ) <= u128::MAX {
            Some(
                rate_above_kink(
                    util as int,
                    base as int,
                    multiplier as int,
                    jump as int,
                    kink as int,
                ) as u128,
            )
        } else {
            None
        }
    }
}

/// The curve has no step at the kink: there the rule for utilizations up to
/// the kink and the rule for those beyond it give the same rate.
pub proof fn lemma_rate_continuous_at_kink(base: int, multiplier: int, jump: int, kink: int)
    ensures
        rate_above_kink(kink, base, multiplier, jump, kink) == rate_below_kink(
            kink,
            base,
            multiplier,
        ),
{
    assert((kink - kink) * jump == 0) by (nonlinear_arith);
}

/// The supply rate: the borrow rate less the reserve's cut, times the
/// utilization, where the products fit in 128 bits.
pub open spec fn supply_rate(util: u128, borrow_rate: u128, reserve_factor: u128) -> Option<u128> {
    let keep = if reserve_factor <= DECIMAL {
        DECIMAL - reserve_factor
    } else {
        0
    };
    if borrow_rate * keep <= u128::MAX && util * (borrow_rate * keep / (DECIMAL as int))
        <= u128::MAX {
        Some((util * (borrow_rate * keep / (DECIMAL as int)) / (DECIMAL as int)) as u128)
    } else {
        None
    }
}

/// What one share of a pool is worth in its currency: cash plus loans
/// divided by the shares, on the fixed-point scale.
pub open spec fn exchange_rate(total_cash: u128, position: Position) -> Result<u128, RateError> {
    if total_cash + position.debit > u128::MAX {
        Err(RateError::CalcAccrueInterestFailed)
    } else if position.collateral == 0 || (total_cash + position.debit) * DECIMAL > u128::MAX {
        Err(RateError::CalcExchangeRateFailed)
    } else {
        Ok((((total_cash + position.debit) * DECIMAL) / (position.collateral as int)) as u128)
    }
}

/// The utilization and the borrow rate that an update comes to in `state`,
/// or why it is given up.
pub open spec fn borrow_rate_update(
    state: PalletView,
    cash: u128,
    borrows: u128,
    reserves: u128,
) -> Result<(u128, u128), RateError> {
    match utilization(cash, borrows, reserves) {
        None => Err(RateError::ArithmeticOverflow),
        Some(util) => match (
            state.base_rate_per_block,
            state.multiplier_per_block,
            state.jump_multiplier_per_block,
            state.kink,
        ) {
            (Some(base), Some(multiplier), Some(jump), Some(kink)) => match borrow_rate(
                util,
                base,
                multiplier,
                jump,
                kink,
            ) {
                Some(rate) => Ok((util, rate)),
                None => Err(RateError::RateComputationFailed),
            },
            _ => Err(RateError::RateComputationFailed),
        },
    }
}

/// The supply rate that an update comes to in `state`, or why it is given
/// up.
pub open spec fn supply_rate_update(
    state: PalletView,
    currency_id: CurrencyId,
    cash: u128,
    borrows: u128,
    reserves: u128,
    reserve_factor: u128,
) -> Result<u128, RateError> {
    if !state.borrow_rate.contains_key(currency_id) {
        Err(RateError::RateComputationFailed)
    } else {
        match utilization(cash, borrows, reserves) {
            None => Err(RateError::ArithmeticOverflow),
            Some(util) => match supply_rate(
                util,
                state.borrow_rate[currency_id],
                reserve_factor,
            ) {
                Some(rate) => Ok(rate),
                None => Err(RateError::RateComputationFailed),
            },
        }
    }
}

impl Pallet {
    /// The whole part of a fixed-point number.
    pub fn to_decimal(n: Option<u128>) -> (whole: u128)
        requires
            n is Some,
        ensures
            whole == n->0 / DECIMAL,
    {
        n.unwrap() / DECIMAL
    }

    /// The part of a pool's liquidity that is lent out.
    pub fn utilization_rate(cash: Balance, borrows: Balance, reserves: Balance) -> (rate: Result<
        u128,
        RateError,
    >)
        ensures
            match rate {
                Ok(rate) => utilization(cash, borrows, reserves) == Some(rate),
                Err(error) => utilization(cash, borrows, reserves) is None && error
                    == RateError::ArithmeticOverflow,
            },
            borrows == 0 ==> rate == Ok::<u128, RateError>(0u128),
            borrows > 0 && cash + borrows <= reserves ==> rate is Err,
    {
        if borrows == 0 {
            return Ok(0);
        }
        let total = match cash.checked_add(borrows) {
            Some(sum) => match sum.checked_sub(reserves) {
                Some(total) => total,
                None => { return Err(RateError::ArithmeticOverflow); },
            },
            None => { return Err(RateError::ArithmeticOverflow); },
        };
        let scaled = match borrows.checked_mul(DECIMAL) {
            Some(scaled) => scaled,
            None => { return Err(RateError::ArithmeticOverflow); },
        };
        match scaled.checked_div(total) {
            Some(rate) => Ok(rate),
            None => Err(RateError::ArithmeticOverflow),
        }
    }

    /// Records the borrow rate of a currency and makes it known.
    fn insert_borrow_rate(&mut self, currency_id: CurrencyId, rate: u128)
        ensures
            final(self)@ == (PalletView {
                borrow_rate: old(self)@.borrow_rate.insert(currency_id, rate),
                events: old(self)@.events.push(Event::BorrowRateUpdated(currency_id, rate)),
                ..old(self)@
            }),
    {
        self.borrow_rate.insert(currency_id, rate);
        self.events.push(Event::BorrowRateUpdated(currency_id, rate));
    }

    /// Records the supply rate of a currency and makes it known.
    fn insert_supply_rate(&mut self, currency_id: CurrencyId, rate: u128)
        ensures
            final(self)@ == (PalletView {
                supply_rate: old(self)@.supply_rate.insert(currency_id, rate),
                events: old(self)@.events.push(Event::SupplyRateUpdated(currency_id, rate)),
                ..old(self)@
            }),
    {
        self.supply_rate.insert(currency_id, rate);
        self.events.push(Event::SupplyRateUpdated(currency_id, rate));
    }

    /// Sets the rate curve from yearly parameters.
    ///
    /// The per-block parameters and the kink are recorded and made known.
    /// Where they have no value (a kink of zero, a product that does not
    /// fit) nothing changes.
    pub fn update_jump_rate_model(
        &mut self,
        base_rate_per_year: Balance,
        multiplier_per_year: Balance,
        jump_multiplier_per_year: Balance,
        kink: Balance,
    ) -> (result: Result<(), RateError>)
        ensures
            match per_block(base_rate_per_year, multiplier_per_year, jump_multiplier_per_year, kink) {
                Some((base, multiplier, jump)) => result is Ok && final(self)@ == (PalletView {
                    base_rate_per_block: Some(base),
                    multiplier_per_block: Some(multiplier),
                    jump_multiplier_per_block: Some(jump),
                    kink: Some(kink),
                    events: old(self)@.events.push(
                        Event::NewInterestParams(base, multiplier, jump, kink),
                    ),
                    ..old(self)@
                }),
                None => result == Err::<(), RateError>(RateError::ArithmeticOverflow)
                    && final(self)@ == old(self)@,
            },
    {
        let base = base_rate_per_year / BLOCK_PER_YEAR;
        let scaled = match multiplier_per_year.checked_mul(DECIMAL) {
            Some(scaled) => scaled,
            None => { return Err(RateError::ArithmeticOverflow); },
        };
        let blocks = match BLOCK_PER_YEAR.checked_mul(kink) {
            Some(blocks) => blocks,
            None => { return Err(RateError::ArithmeticOverflow); },
        };
        let multiplier = match scaled.checked_div(blocks) {
            Some(multiplier) => multiplier,
            None => {
                proof {
                    assert(BLOCK_PER_YEAR * kink == 0 ==> kink == 0) by (nonlinear_arith);
                }
                return Err(RateError::ArithmeticOverflow);
            },
        };
        proof {
            assert(kink == 0 ==> BLOCK_PER_YEAR * kink == 0) by (nonlinear_arith);
        }
        let jump = jump_multiplier_per_year / BLOCK_PER_YEAR;
        self.base_rate_per_block = Some(base);
        self.multiplier_per_block = Some(multiplier);
        self.jump_multiplier_per_block = Some(jump);
        self.kink = Some(kink);
        self.events.push(Event::NewInterestParams(base, multiplier, jump, kink));
        Ok(())
    }

    /// Brings the utilization and the borrow rate of a currency up to date.
    ///
    /// Both are recorded and made known, the utilization first. Where either
    /// has no value, or the rate curve was never set, nothing changes.
    pub fn update_borrow_rate(
        &mut self,
        currency_id: CurrencyId,
        cash: Balance,
        borrows: Balance,
        reserves: Balance,
    ) -> (result: Result<(), RateError>)
        ensures
            match borrow_rate_update(old(self)@, cash, borrows, reserves) {
                Ok((util, rate)) => result is Ok && final(self)@ == (PalletView {
                    utility_rate: old(self)@.utility_rate.insert(currency_id, util),
                    borrow_rate: old(self)@.borrow_rate.insert(currency_id, rate),
                    events: old(self)@.events.push(
                        Event::UtilityRateUpdated(currency_id, util),
                    ).push(Event::BorrowRateUpdated(currency_id, rate)),
                    ..old(self)@
                }),
                Err(error) => result == Err::<(), RateError>(error) && final(self)@ == old(
                    self,
                )@,
            },
    {
        let util = match Self::utilization_rate(cash, borrows, reserves) {
            Ok(util) => util,
            Err(error) => { return Err(error); },
        };
        let rate = match (
            self.base_rate_per_block,
            self.multiplier_per_block,
            self.jump_multiplier_per_block,
            self.kink,
        ) {
            (Some(base), Some(multiplier), Some(jump), Some(kink)) => {
                match Self::calc_borrow_rate(util, base, multiplier, jump, kink) {
                    Ok(rate) => rate,
                    Err(error) => { return Err(error); },
                }
            },
            _ => { return Err(RateError::RateComputationFailed); },
        };
        self.utility_rate.insert(currency_id, util);
        self.events.push(Event::UtilityRateUpdated(currency_id, util));
        self.insert_borrow_rate(currency_id, rate);
        Ok(())
    }

    /// Brings the supply rate of a currency up to date: its borrow rate less
    /// the reserve's cut, times the utilization.
    ///
    /// The rate is recorded and made known. Where it has no value, or the
    /// currency has no borrow rate yet, nothing changes.
    pub fn update_supply_rate(
        &mut self,
        currency_id: CurrencyId,
        cash: Balance,
        borrows: Balance,
        reserves: Balance,
        reserve_factor_mantissa: Balance,
    ) -> (result: Result<(), RateError>)
        ensures
            match supply_rate_update(
                old(self)@,
                currency_id,
                cash,
                borrows,
                reserves,
                reserve_factor_mantissa,
            ) {
                Ok(rate) => result is Ok && final(self)@ == (PalletView {
                    supply_rate: old(self)@.supply_rate.insert(currency_id, rate),
                    events: old(self)@.events.push(Event::SupplyRateUpdated(currency_id, rate)),
                    ..old(self)@
                }),
                Err(error) => result == Err::<(), RateError>(error) && final(self)@ == old(
                    self,
                )@,
            },
    {
        let one_minus_reserve_factor = DECIMAL.saturating_sub(reserve_factor_mantissa);
        let borrow_rate = match self.borrow_rate.get(&currency_id) {
            Some(rate) => *rate,
            None => { return Err(RateError::RateComputationFailed); },
        };
        let util = match Self::utilization_rate(cash, borrows, reserves) {
            Ok(util) => util,
            Err(error) => { return Err(error); },
        };
        let rate_to_pool = match borrow_rate.checked_mul(one_minus_reserve_factor) {
            Some(product) => Self::to_decimal(Some(product)),
            None => { return Err(RateError::RateComputationFailed); },
        };
        let rate = match util.checked_mul(rate_to_pool) {
            Some(product) => Self::to_decimal(Some(product)),
            None => { return Err(RateError::RateComputationFailed); },
        };
        self.insert_supply_rate(currency_id, rate);
        Ok(())
    }

    /// Brings the exchange rate of a currency's shares up to date from the
    /// pool's cash and position.
    ///
    /// The rate is recorded and made known. Where it has no value nothing
    /// changes.
    pub fn calc_exchange_rate(
        &mut self,
        currency_id: &CurrencyId,
        total_cash: Balance,
        total_position: &Position,
    ) -> (result: Result<(), RateError>)
        ensures
            match exchange_rate(total_cash, *total_position) {
                Ok(rate) => result is Ok && final(self)@ == (PalletView {
                    exchange_rate: old(self)@.exchange_rate.insert(*currency_id, rate),
                    events: old(self)@.events.push(
                        Event::ExchangeRateUpdated(*currency_id, rate),
                    ),
                    ..old(self)@
                }),
                Err(error) => result == Err::<(), RateError>(error) && final(self)@ == old(
                    self,
                )@,
            },
            total_position.collateral == 0 ==> result is Err,
    {
        let cash_plus_borrows = match total_cash.checked_add(total_position.debit) {
            Some(sum) => sum,
            None => { return Err(RateError::CalcAccrueInterestFailed); },
        };
        let rate = match cash_plus_borrows.checked_mul(DECIMAL) {
            Some(scaled) => match scaled.checked_div(total_position.collateral) {
                Some(rate) => rate,
                None => { return Err(RateError::CalcExchangeRateFailed); },
            },
            None => { return Err(RateError::CalcExchangeRateFailed); },
        };
        self.exchange_rate.insert(*currency_id, rate);
        self.events.push(Event::ExchangeRateUpdated(*currency_id, rate));
        Ok(())
    }

    /// The borrow rate at a utilization on the curve with these per-block
    /// parameters.
    pub fn calc_borrow_rate(
        util: u128,
        base_rate_per_block: u128,
        multiplier_per_block: u128,
        jump_multiplier_per_block: u128,
        kink: u128,
    ) -> (rate: Result<u128, RateError>)
        ensures
            match rate {
                Ok(rate) => borrow_rate(
                    util,
                    base_rate_per_block,
                    multiplier_per_block,
                    jump_multiplier_per_block,
                    kink,
                ) == Some(rate),
                Err(error) => borrow_rate(
                    util,
                    base_rate_per_block,
                    multiplier_per_block,
                    jump_multiplier_per_block,
                    kink,
                ) is None && error == RateError::RateComputationFailed,
            },
    {
        let slope_to = if util <= kink {
            util
        } else {
            kink
        };
        let normal_rate = match slope_to.checked_mul(multiplier_per_block) {
            Some(product) => match (product / DECIMAL).checked_add(base_rate_per_block) {
                Some(rate) => rate,
                None => { return Err(RateError::RateComputationFailed); },
            },
            None => { return Err(RateError::RateComputationFailed); },
        };
        if util <= kink {
            return Ok(normal_rate);
        }
        let excess_util = util - kink;
        match excess_util.checked_mul(jump_multiplier_per_block) {
            Some(product) => match (product / DECIMAL).checked_add(normal_rate) {
                Some(rate) => Ok(rate),
                None => Err(RateError::RateComputationFailed),
            },
            None => Err(RateError::RateComputationFailed),
        }
    }
}

} // verus!
