//! The liquidation engine: what every account owes and holds, and which
//! loans are repaid from which collateral.
use crate::fixed_point::{checked, fixed_checked_mul, fixed_checked_mul_int, mul_fixed, Ratio};
use crate::fixed_point::{lemma_mul_fixed_by_ratio, mul_ratio};
use crate::liquidate::valuation::{absorb, holds, lemma_tally, tally, Standing, Valuations};
use crate::pallet::Pallet;
use crate::{AccountId, Balance, CurrencyId, PriceDetail};
use crate::liquidate::dispatch::{
    calls_on, dispatches, lemma_dispatch_unique, lemma_dispatches_alike,
};
use crate::liquidate::order::{ascending, lemma_increasing_is_ascending};
use crate::liquidate::select::{liquidation, LiquidateBorrow};
use std::collections::BTreeMap;
use vstd::prelude::*;
use vstd::std_specs::iter::IteratorSpec;

pub mod cycle;
pub mod dispatch;
pub mod order;
pub mod select;
pub mod valuation;

verus! {

/// One loan of an account, as the ledger holds it.
#[derive(Clone, Copy, Debug, PartialEq, Eq, Structural)]
pub struct BorrowRecord {
    pub currency: CurrencyId,
    pub account: AccountId,
    /// The amount borrowed when the loan was last touched.
    pub principal: Balance,
    /// What is owed now, the interest accrued since then included; `None`
    /// where the ledger could not work it out.
    pub owed: Option<Balance>,
}

/// One deposit of an account, as the ledger holds it.
#[derive(Clone, Copy, Debug, PartialEq, Eq, Structural)]
pub struct DepositRecord {
    pub currency: CurrencyId,
    pub account: AccountId,
    /// The shares of the pool that the deposit is a claim on.
    pub voucher_balance: Balance,
    /// Whether the deposit backs the account's loans.
    pub is_collateral: bool,
}

/// One loan of an account with its value.
#[derive(Clone, Copy, Debug, PartialEq, Eq, Structural)]
pub struct BorrowMisc {
    pub currency: CurrencyId,
    pub amount: Balance,
    pub value: u128,
}

/// One collateral deposit of an account with its value before any discount.
#[derive(Clone, Copy, Debug, PartialEq, Eq, Structural)]
pub struct CollateralMisc {
    pub currency: CurrencyId,
    pub amount: Balance,
    pub value: u128,
}

/// What a loan adds to its account: its value, and its detail.
pub open spec fn borrow_share(record: BorrowRecord, prices: Map<CurrencyId, PriceDetail>) -> Option<
    (u128, BorrowMisc),
> {
    if prices.contains_key(record.currency) && record.owed is Some {
        match checked(mul_fixed(prices[record.currency].0 as int, record.owed->0 as int)) {
            Some(value) => Some(
                (
                    value,
                    BorrowMisc { currency: record.currency, amount: record.principal, value },
                ),
            ),
            None => None,
        }
    } else {
        None
    }
}

/// Whether a loan is of `account`.
pub open spec fn loan_of(account: AccountId) -> spec_fn(BorrowRecord) -> bool {
    |record: BorrowRecord| record.account == account
}

/// What each of the loans adds to its account.
pub open spec fn borrow_shares(
    records: Seq<BorrowRecord>,
    prices: Map<CurrencyId, PriceDetail>,
) -> Seq<Option<(u128, BorrowMisc)>> {
    records.map_values(|record: BorrowRecord| borrow_share(record, prices))
}

/// The standing of `account` by its loans among `records`, in their order.
pub open spec fn account_borrows(
    records: Seq<BorrowRecord>,
    prices: Map<CurrencyId, PriceDetail>,
    account: AccountId,
) -> Standing<BorrowMisc> {
    tally(borrow_shares(records.filter(loan_of(account)), prices))
}

/// One more record changes the standing of its own account and no other.
pub proof fn lemma_account_borrows_step(
    records: Seq<BorrowRecord>,
    prices: Map<CurrencyId, PriceDetail>,
    account: AccountId,
)
    requires
        records.len() > 0,
    ensures
        account_borrows(records, prices, account) == (if records.last().account == account {
            absorb(
                account_borrows(records.drop_last(), prices, account),
                borrow_share(records.last(), prices),
            )
        } else {
            account_borrows(records.drop_last(), prices, account)
        }),
{
    reveal(Seq::filter);
    if records.last().account == account {
        let before = records.drop_last().filter(loan_of(account));
        assert(records.filter(loan_of(account)) == before.push(records.last()));
        assert(borrow_shares(before.push(records.last()), prices).drop_last() == borrow_shares(
            before,
            prices,
        ));
    }
}

/// An account with a loan that cannot be valued is left out of the cycle,
/// wherever the loan stands among the records and whatever the account's
/// other loans are.
pub proof fn lemma_unvalued_loan_drops_account(
    records: Seq<BorrowRecord>,
    prices: Map<CurrencyId, PriceDetail>,
    i: int,
)
    requires
        0 <= i < records.len(),
        borrow_share(records[i], prices) is None,
    ensures
        account_borrows(records, prices, records[i].account) is None,
{
    let own = records.filter(loan_of(records[i].account));
    let shares = borrow_shares(own, prices);
    records.lemma_filter_contains(loan_of(records[i].account), i);
    let j = choose|j: int| 0 <= j < own.len() && own[j] == records[i];
    assert(shares[j] is None);
    lemma_tally(shares);
}

/// What a collateral deposit adds to its account: its value less the
/// discount of its currency, and its detail, which keeps the full value.
pub open spec fn collateral_share(
    deposit: DepositRecord,
    exchange_rate: Map<CurrencyId, u128>,
    collateral_factor: Map<CurrencyId, Ratio>,
    prices: Map<CurrencyId, PriceDetail>,
) -> Option<(u128, CollateralMisc)> {
    let currency = deposit.currency;
    if exchange_rate.contains_key(currency) && prices.contains_key(currency)
        && collateral_factor.contains_key(currency) {
        match checked(mul_fixed(exchange_rate[currency] as int, deposit.voucher_balance as int)) {
            Some(amount) => match checked(mul_fixed(prices[currency].0 as int, amount as int)) {
                Some(value) => match checked(
                    mul_ratio(collateral_factor[currency]@ as int, value as int),
                ) {
                    Some(discounted) => Some(
                        (discounted, CollateralMisc { currency, amount, value }),
                    ),
                    None => None,
                },
                None => None,
            },
            None => None,
        }
    } else {
        None
    }
}

/// Whether a deposit is of `account` and backs its loans.
pub open spec fn collateral_of(account: AccountId) -> spec_fn(DepositRecord) -> bool {
    |deposit: DepositRecord| deposit.account == account && deposit.is_collateral
}

/// What each of the deposits adds to its account.
pub open spec fn collateral_shares(
    deposits: Seq<DepositRecord>,
    exchange_rate: Map<CurrencyId, u128>,
    collateral_factor: Map<CurrencyId, Ratio>,
    prices: Map<CurrencyId, PriceDetail>,
) -> Seq<Option<(u128, CollateralMisc)>> {
    deposits.map_values(
        |deposit: DepositRecord|
            collateral_share(deposit, exchange_rate, collateral_factor, prices),
    )
}

/// The standing of `account` by its collateral among `deposits`, in their
/// order. A deposit that is no collateral changes nothing.
pub open spec fn account_collateral(
    deposits: Seq<DepositRecord>,
    exchange_rate: Map<CurrencyId, u128>,
    collateral_factor: Map<CurrencyId, Ratio>,
    prices: Map<CurrencyId, PriceDetail>,
    account: AccountId,
) -> Standing<CollateralMisc> {
    tally(
        collateral_shares(
            deposits.filter(collateral_of(account)),
            exchange_rate,
            collateral_factor,
            prices,
        ),
    )
}

/// One more deposit changes the standing of its own account if it is
/// collateral, and no other.
pub proof fn lemma_account_collateral_step(
    deposits: Seq<DepositRecord>,
    exchange_rate: Map<CurrencyId, u128>,
    collateral_factor: Map<CurrencyId, Ratio>,
    prices: Map<CurrencyId, PriceDetail>,
    account: AccountId,
)
    requires
        deposits.len() > 0,
    ensures
        account_collateral(deposits, exchange_rate, collateral_factor, prices, account) == (if deposits.last().account
            == account && deposits.last().is_collateral {
            absorb(
                account_collateral(
                    deposits.drop_last(),
                    exchange_rate,
                    collateral_factor,
                    prices,
                    account,
                ),
                collateral_share(deposits.last(), exchange_rate, collateral_factor, prices),
            )
        } else {
            account_collateral(
                deposits.drop_last(),
                exchange_rate,
                collateral_factor,
                prices,
                account,
            )
        }),
{
    reveal(Seq::filter);
    if deposits.last().account == account && deposits.last().is_collateral {
        let before = deposits.drop_last().filter(collateral_of(account));
        assert(deposits.filter(collateral_of(account)) == before.push(deposits.last()));
        assert(collateral_shares(
            before.push(deposits.last()),
            exchange_rate,
            collateral_factor,
            prices,
        ).drop_last() == collateral_shares(before, exchange_rate, collateral_factor, prices));
    }
}

/// An account with a collateral deposit that cannot be valued is left out
/// of the cycle, wherever the deposit stands among the records and whatever
/// else the account holds.
pub proof fn lemma_unvalued_collateral_drops_account(
    deposits: Seq<DepositRecord>,
    exchange_rate: Map<CurrencyId, u128>,
    collateral_factor: Map<CurrencyId, Ratio>,
    prices: Map<CurrencyId, PriceDetail>,
    i: int,
)
    requires
        0 <= i < deposits.len(),
        deposits[i].is_collateral,
        collateral_share(deposits[i], exchange_rate, collateral_factor, prices) is None,
    ensures
        account_collateral(
            deposits,
            exchange_rate,
            collateral_factor,
            prices,
            deposits[i].account,
        ) is None,
{
    let own = deposits.filter(collateral_of(deposits[i].account));
    let shares = collateral_shares(own, exchange_rate, collateral_factor, prices);
    deposits.lemma_filter_contains(collateral_of(deposits[i].account), i);
    let j = choose|j: int| 0 <= j < own.len() && own[j] == deposits[i];
    assert(shares[j] is None);
    lemma_tally(shares);
}

/// What is done about `borrower`, given every account's loans and
/// collateral: nothing for one that is missing from either map.
pub open spec fn calls_due(
    borrows: Map<AccountId, (u128, Vec<BorrowMisc>)>,
    collateral: Map<AccountId, (u128, Vec<CollateralMisc>)>,
    factor: nat,
) -> spec_fn(AccountId) -> Option<LiquidateBorrow> {
    |borrower: AccountId|
        if borrows.contains_key(borrower) && collateral.contains_key(borrower) {
            liquidation(
                borrower,
                borrows[borrower].0,
                borrows[borrower].1@,
                collateral[borrower].0,
                collateral[borrower].1@,
                factor,
            )
        } else {
            None
        }
}

/// What a whole cycle does about `borrower`, given the ledger's records:
/// nothing for an account without a valued loan or without valued
/// collateral, else what `liquidation` says of its totals and details.
pub open spec fn cycle_due(
    records: Seq<BorrowRecord>,
    deposits: Seq<DepositRecord>,
    exchange_rate: Map<CurrencyId, u128>,
    collateral_factor: Map<CurrencyId, Ratio>,
    prices: Map<CurrencyId, PriceDetail>,
    factor: nat,
) -> spec_fn(AccountId) -> Option<LiquidateBorrow> {
    |borrower: AccountId|
        match (
            account_borrows(records, prices, borrower),
            account_collateral(deposits, exchange_rate, collateral_factor, prices, borrower),
        ) {
            (Some((loans_value, loans)), Some((collateral_value, collateral))) => if loans.len()
                > 0 && collateral.len() > 0 {
                liquidation(borrower, loans_value, loans, collateral_value, collateral, factor)
            } else {
                None
            },
            _ => None,
        }
}

/// Running a cycle again on the same records, parameters and prices sends
/// the same calls in the same order.
pub proof fn lemma_cycle_repeats(
    first: Seq<LiquidateBorrow>,
    second: Seq<LiquidateBorrow>,
    records: Seq<BorrowRecord>,
    deposits: Seq<DepositRecord>,
    exchange_rate: Map<CurrencyId, u128>,
    collateral_factor: Map<CurrencyId, Ratio>,
    prices: Map<CurrencyId, PriceDetail>,
    factor: nat,
)
    requires
        dispatches(
            first,
            cycle_due(records, deposits, exchange_rate, collateral_factor, prices, factor),
        ),
        dispatches(
            second,
            cycle_due(records, deposits, exchange_rate, collateral_factor, prices, factor),
        ),
    ensures
        first == second,
{
    lemma_dispatch_unique(
        first,
        second,
        cycle_due(records, deposits, exchange_rate, collateral_factor, prices, factor),
    );
}

impl Pallet {
    /// What one loan adds to its account, or `None` where it cannot be
    /// valued.
    pub fn value_borrow(record: &BorrowRecord, prices: &BTreeMap<CurrencyId, PriceDetail>) -> (share:
        Option<(u128, BorrowMisc)>)
        ensures
            share == borrow_share(*record, prices@),
    {
        let price = match prices.get(&record.currency) {
            Some(price) => price.0,
            None => { return None; },
        };
        let owed = match record.owed {
            Some(owed) => owed,
            None => { return None; },
        };
        match fixed_checked_mul(price, owed) {
            Some(value) => Some(
                (value, BorrowMisc { currency: record.currency, amount: record.principal, value }),
            ),
            None => None,
        }
    }

    /// Values every loan at its currency's price and adds the loans up
    /// account by account.
    ///
    /// An account is in the result exactly if it has a loan, each of its
    /// loans has a price, an amount owed and a value that fits, and so does
    /// their sum. Its total is that sum and its details are its loans in the
    /// order of `records`, each with its principal and its value.
    pub fn transform_account_borrows(
        records: &Vec<BorrowRecord>,
        prices: &BTreeMap<CurrencyId, PriceDetail>,
    ) -> (borrows: BTreeMap<AccountId, (u128, Vec<BorrowMisc>)>)
        ensures
            forall|account: AccountId|
                holds(
                    borrows@,
                    account,
                    #[trigger] account_borrows(records@, prices@, account),
                ),
    {
        let mut valuations: Valuations<BorrowMisc> = Valuations::new();
        let mut i: usize = 0;
        while i < records.len()
            invariant
                i <= records.len(),
                valuations.wf(),
                forall|account: AccountId|
                    valuations.standing(account) == account_borrows(
                        records@.take(i as int),
                        prices@,
                        account,
                    ),
            decreases records.len() - i,
        {
            let record = records[i];
            let share = Self::value_borrow(&record, prices);
            proof {
                assert(records@.take(i + 1).drop_last() == records@.take(i as int));
                assert forall|account: AccountId|
                    account_borrows(records@.take(i + 1), prices@, account) == (if record.account
                        == account {
                        absorb(
                            account_borrows(records@.take(i as int), prices@, account),
                            borrow_share(record, prices@),
                        )
                    } else {
                        account_borrows(records@.take(i as int), prices@, account)
                    }) by {
                    lemma_account_borrows_step(records@.take(i + 1), prices@, account);
                }
            }
            valuations.record(record.account, share);
            i += 1;
        }
        proof {
            assert(records@.take(i as int) == records@);
        }
        let ghost filled = valuations;
        let borrows = valuations.into_valued();
        proof {
            assert forall|account: AccountId|
                holds(
                    borrows@,
                    account,
                    #[trigger] account_borrows(records@, prices@, account),
                ) by {
                assert(filled.standing(account) == account_borrows(records@, prices@, account));
            }
        }
        borrows
    }

    /// What one collateral deposit adds to its account, or `None` where it
    /// cannot be valued.
    pub fn value_collateral(
        &self,
        deposit: &DepositRecord,
        prices: &BTreeMap<CurrencyId, PriceDetail>,
    ) -> (share: Option<(u128, CollateralMisc)>)
        ensures
            share == collateral_share(
                *deposit,
                self.exchange_rate@,
                self.collateral_factor@,
                prices@,
            ),
    {
        let currency = deposit.currency;
        let amount = match self.exchange_rate.get(&currency) {
            Some(rate) => match fixed_checked_mul_int(*rate, deposit.voucher_balance) {
                Some(amount) => amount,
                None => { return None; },
            },
            None => { return None; },
        };
        let value = match prices.get(&currency) {
            Some(price) => match fixed_checked_mul(price.0, amount) {
                Some(value) => value,
                None => { return None; },
            },
            None => { return None; },
        };
        let discounted = match self.collateral_factor.get(&currency) {
            Some(factor) => {
                proof {
                    lemma_mul_fixed_by_ratio(factor@ as int, value as int);
                }
                match fixed_checked_mul(value, factor.into_fixed()) {
                    Some(discounted) => discounted,
                    None => { return None; },
                }
            },
            None => { return None; },
        };
        Some((discounted, CollateralMisc { currency, amount, value }))
    }

    /// Values every collateral deposit and adds the values up account by
    /// account, each less the discount of its currency.
    ///
    /// A deposit is worth its shares times the exchange rate of its currency
    /// times the price. An account is in the result exactly if it has a
    /// collateral deposit and each of them has an exchange rate, a price, a
    /// collateral factor and values that fit, as does their discounted sum.
    /// Its total is that sum; its details are its collateral deposits in the
    /// order of `deposits`, each with its amount and its full value.
    pub fn transform_account_collateral(
        &self,
        deposits: &Vec<DepositRecord>,
        prices: &BTreeMap<CurrencyId, PriceDetail>,
    ) -> (collateral: BTreeMap<AccountId, (u128, Vec<CollateralMisc>)>)
        ensures
            forall|account: AccountId|
                holds(
                    collateral@,
                    account,
                    #[trigger] account_collateral(
                        deposits@,
                        self.exchange_rate@,
                        self.collateral_factor@,
                        prices@,
                        account,
                    ),
                ),
    {
        let mut valuations: Valuations<CollateralMisc> = Valuations::new();
        let mut i: usize = 0;
        while i < deposits.len()
            invariant
                i <= deposits.len(),
                valuations.wf(),
                forall|account: AccountId|
                    valuations.standing(account) == account_collateral(
                        deposits@.take(i as int),
                        self.exchange_rate@,
                        self.collateral_factor@,
                        prices@,
                        account,
                    ),
            decreases deposits.len() - i,
        {
            let deposit = deposits[i];
            proof {
                assert(deposits@.take(i + 1).drop_last() == deposits@.take(i as int));
                assert forall|account: AccountId|
                    account_collateral(
                        deposits@.take(i + 1),
                        self.exchange_rate@,
                        self.collateral_factor@,
                        prices@,
                        account,
                    ) == (if deposit.account == account && deposit.is_collateral {
                        absorb(
                            account_collateral(
                                deposits@.take(i as int),
                                self.exchange_rate@,
                                self.collateral_factor@,
                                prices@,
                                account,
                            ),
                            collateral_share(
                                deposit,
                                self.exchange_rate@,
                                self.collateral_factor@,
                                prices@,
                            ),
                        )
                    } else {
                        account_collateral(
                            deposits@.take(i as int),
                            self.exchange_rate@,
                            self.collateral_factor@,
                            prices@,
                            account,
                        )
                    }) by {
                    lemma_account_collateral_step(
                        deposits@.take(i + 1),
                        self.exchange_rate@,
                        self.collateral_factor@,
                        prices@,
                        account,
                    );
                }
            }
            if deposit.is_collateral {
                let share = self.value_collateral(&deposit, prices);
                valuations.record(deposit.account, share);
            }
            i += 1;
        }
        proof {
            assert(deposits@.take(i as int) == deposits@);
        }
        let ghost filled = valuations;
        let collateral = valuations.into_valued();
        proof {
            assert forall|account: AccountId|
                holds(
                    collateral@,
                    account,
                    #[trigger] account_collateral(
                        deposits@,
                        self.exchange_rate@,
                        self.collateral_factor@,
                        prices@,
                        account,
                    ),
                ) by {
                assert(filled.standing(account) == account_collateral(
                    deposits@,
                    self.exchange_rate@,
                    self.collateral_factor@,
                    prices@,
                    account,
                ));
            }
        }
        collateral
    }

    /// Goes through the accounts that owe anything and lists the calls that
    /// liquidate those under water: at most one for an account, in the order
    /// of the accounts.
    pub fn liquidate_underwater_accounts(
        &self,
        borrows: &BTreeMap<AccountId, (u128, Vec<BorrowMisc>)>,
        collateral: &BTreeMap<AccountId, (u128, Vec<CollateralMisc>)>,
    ) -> (calls: Vec<LiquidateBorrow>)
        ensures
            dispatches(calls@, calls_due(borrows@, collateral@, self.liquidate_factor@)),
    {
        let all = borrows.iter();
        let ghost entries = all.remaining();
        let ghost accounts = entries.map_values(
            |entry: (&AccountId, &(u128, Vec<BorrowMisc>))| *entry.0,
        );
        let ghost due = calls_due(borrows@, collateral@, self.liquidate_factor@);
        proof {
            lemma_increasing_is_ascending(accounts);
        }
        let mut calls: Vec<LiquidateBorrow> = Vec::new();
        for entry in walk: all
            invariant
                walk.seq() == entries,
                accounts == entries.map_values(
                    |entry: (&AccountId, &(u128, Vec<BorrowMisc>))| *entry.0,
                ),
                ascending(accounts),
                due == calls_due(borrows@, collateral@, self.liquidate_factor@),
                forall|i: int|
                    0 <= i < entries.len() ==> borrows@.contains_key(*(#[trigger] entries[i]).0)
                        && borrows@[*entries[i].0] == *entries[i].1,
                forall|i: int, j: int|
                    0 <= i < j < calls.len() ==> (#[trigger] calls[i]).borrower
                        < (#[trigger] calls[j]).borrower,
                forall|i: int|
                    0 <= i < calls.len() ==> due((#[trigger] calls[i]).borrower) == Some(calls[i]),
                forall|i: int, at: int|
                    0 <= i < calls.len() && walk.index() <= at < accounts.len() ==> (
                    #[trigger] calls[i]).borrower < #[trigger] accounts[at],
                forall|at: int|
                    0 <= at < walk.index() && due(#[trigger] accounts[at]) is Some ==> calls_on(
                        calls@,
                        accounts[at],
                    ),
        {
            let borrower = *entry.0;
            let ghost before = calls@;
            let ghost at = walk.index();
            proof {
                assert(entry == entries[at]);
                assert(accounts[at] == borrower);
            }
            let call = match collateral.get(entry.0) {
                Some(held) => self.select_liquidation(borrower, entry.1, held),
                None => None,
            };
            assert(call == due(borrower));
            match call {
                Some(call) => {
                    calls.push(call);
                    proof {
                        assert(calls@[before.len() as int] == call);
                        assert forall|seen: int|
                            0 <= seen < at + 1 && due(#[trigger] accounts[seen]) is Some implies calls_on(
                            calls@,
                            accounts[seen],
                        ) by {
                            if seen < at {
                                assert(calls_on(before, accounts[seen]));
                                let i = choose|i: int|
                                    0 <= i < before.len() && (#[trigger] before[i]).borrower
                                        == accounts[seen];
                                assert(calls@[i] == before[i]);
                            }
                        }
                    }
                },
                None => {},
            }
        }
        proof {
            assert forall|borrower: AccountId| #[trigger] due(borrower) is Some implies calls_on(
                calls@,
                borrower,
            ) by {
                assert(borrows@.contains_key(borrower));
                assert(entries.contains((&borrower, &borrows@[borrower])));
                let at = choose|at: int|
                    0 <= at < entries.len() && entries[at] == (&borrower, &borrows@[borrower]);
                assert(accounts[at] == borrower);
            }
        }
        calls
    }

    /// One cycle: values what every account owes and holds, and lists the
    /// calls that liquidate the accounts under water.
    pub fn liquidate(
        &self,
        records: &Vec<BorrowRecord>,
        deposits: &Vec<DepositRecord>,
        prices: &BTreeMap<CurrencyId, PriceDetail>,
    ) -> (calls: Vec<LiquidateBorrow>)
        ensures
            dispatches(
                calls@,
                cycle_due(
                    records@,
                    deposits@,
                    self.exchange_rate@,
                    self.collateral_factor@,
                    prices@,
                    self.liquidate_factor@,
                ),
            ),
    {
        let borrows = Self::transform_account_borrows(records, prices);
        let collateral = self.transform_account_collateral(deposits, prices);
        let calls = self.liquidate_underwater_accounts(&borrows, &collateral);
        proof {
            let by_maps = calls_due(borrows@, collateral@, self.liquidate_factor@);
            let by_records = cycle_due(
                records@,
                deposits@,
                self.exchange_rate@,
                self.collateral_factor@,
                prices@,
                self.liquidate_factor@,
            );
            assert forall|borrower: AccountId| #[trigger]
                by_maps(borrower) == by_records(borrower) by {
                assert(holds(borrows@, borrower, account_borrows(records@, prices@, borrower)));
                assert(holds(
                    collateral@,
                    borrower,
                    account_collateral(
                        deposits@,
                        self.exchange_rate@,
                        self.collateral_factor@,
                        prices@,
                        borrower,
                    ),
                ));
            }
            lemma_dispatches_alike(calls@, by_maps, by_records);
        }
        calls
    }
}

} // verus!
