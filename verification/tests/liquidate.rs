use lending_risk::fixed_point::{Ratio, DECIMAL};
use lending_risk::liquidate::select::{find_covering, pick_smallest_loan, LiquidateBorrow};
use lending_risk::liquidate::cycle::{next_step, CycleError, CycleStep};
use lending_risk::liquidate::valuation::Valuations;
use lending_risk::liquidate::{BorrowMisc, BorrowRecord, CollateralMisc, DepositRecord};
use lending_risk::pallet::Pallet;
use std::collections::BTreeMap;

const DOT: u32 = 1;
const KSM: u32 = 2;
const USDT: u32 = 3;

const ALICE: u64 = 11;
const BOB: u64 = 22;
const CAROL: u64 = 33;

fn half() -> Pallet {
    Pallet::new(Ratio::from_parts(500_000))
}

/// DOT at 2, KSM at 5, USDT unpriced; every share worth one unit; DOT
/// counts half as collateral, KSM in full.
fn market() -> (Pallet, BTreeMap<u32, (u128, u64)>) {
    let mut pallet = half();
    pallet.exchange_rate.insert(DOT, DECIMAL);
    pallet.exchange_rate.insert(KSM, DECIMAL);
    pallet.exchange_rate.insert(USDT, DECIMAL);
    pallet.collateral_factor.insert(DOT, Ratio::from_parts(500_000));
    pallet.collateral_factor.insert(KSM, Ratio::from_parts(1_000_000));
    pallet.collateral_factor.insert(USDT, Ratio::from_parts(1_000_000));
    let mut prices = BTreeMap::new();
    prices.insert(DOT, (2 * DECIMAL, 10));
    prices.insert(KSM, (5 * DECIMAL, 20));
    (pallet, prices)
}

fn loan(currency: u32, account: u64, principal: u128, owed: u128) -> BorrowRecord {
    BorrowRecord { currency, account, principal, owed: Some(owed) }
}

fn deposit(currency: u32, account: u64, voucher_balance: u128, is_collateral: bool) -> DepositRecord {
    DepositRecord { currency, account, voucher_balance, is_collateral }
}

fn borrowed(currency: u32, amount: u128, value: u128) -> BorrowMisc {
    BorrowMisc { currency, amount, value }
}

fn held(currency: u32, amount: u128, value: u128) -> CollateralMisc {
    CollateralMisc { currency, amount, value }
}

#[test]
fn loan_is_valued_at_its_price() {
    let (_, prices) = market();
    // The value comes from what is owed, the detail keeps the principal.
    assert_eq!(
        Pallet::value_borrow(&loan(DOT, ALICE, 40, 50), &prices),
        Some((100, borrowed(DOT, 40, 100)))
    );
    assert_eq!(
        Pallet::value_borrow(&loan(KSM, ALICE, 3, 3), &prices),
        Some((15, borrowed(KSM, 3, 15)))
    );
}

#[test]
fn loan_value_rounds_toward_zero() {
    let mut prices = BTreeMap::new();
    prices.insert(DOT, (DECIMAL / 3, 0));
    // 0.333... * 10 = 3.33...
    assert_eq!(
        Pallet::value_borrow(&loan(DOT, ALICE, 10, 10), &prices),
        Some((3, borrowed(DOT, 10, 3)))
    );
    prices.insert(KSM, (DECIMAL - 1, 0));
    assert_eq!(
        Pallet::value_borrow(&loan(KSM, ALICE, 1, 1), &prices),
        Some((0, borrowed(KSM, 1, 0)))
    );
}

#[test]
fn loan_without_price_or_balance_has_no_value() {
    let (_, prices) = market();
    assert_eq!(Pallet::value_borrow(&loan(USDT, ALICE, 40, 50), &prices), None);
    let unknown = BorrowRecord { currency: DOT, account: ALICE, principal: 40, owed: None };
    assert_eq!(Pallet::value_borrow(&unknown, &prices), None);
}

#[test]
fn loan_value_that_does_not_fit_is_none() {
    let (_, prices) = market();
    assert_eq!(Pallet::value_borrow(&loan(DOT, ALICE, 1, u128::MAX), &prices), None);
    // The product itself may exceed 128 bits as long as the value fits.
    assert_eq!(
        Pallet::value_borrow(&loan(DOT, ALICE, 1, u128::MAX / 2), &prices),
        Some((u128::MAX - 1, borrowed(DOT, 1, u128::MAX - 1)))
    );
}

#[test]
fn borrows_add_up_per_account() {
    let (_, prices) = market();
    let records = vec![
        loan(DOT, ALICE, 40, 50),
        loan(DOT, BOB, 5, 5),
        loan(KSM, ALICE, 3, 3),
    ];
    let borrows = Pallet::transform_account_borrows(&records, &prices);
    assert_eq!(borrows.len(), 2);
    assert_eq!(
        borrows.get(&ALICE),
        Some(&(115, vec![borrowed(DOT, 40, 100), borrowed(KSM, 3, 15)]))
    );
    assert_eq!(borrows.get(&BOB), Some(&(10, vec![borrowed(DOT, 5, 10)])));
}

#[test]
fn no_records_no_borrows() {
    let (_, prices) = market();
    assert!(Pallet::transform_account_borrows(&Vec::new(), &prices).is_empty());
}

#[test]
fn unpriced_loan_drops_the_whole_account() {
    let (_, prices) = market();
    let records = vec![
        loan(DOT, ALICE, 40, 50),
        loan(USDT, ALICE, 1, 1),
        loan(DOT, BOB, 5, 5),
    ];
    let borrows = Pallet::transform_account_borrows(&records, &prices);
    assert_eq!(borrows.get(&ALICE), None);
    assert_eq!(borrows.get(&BOB), Some(&(10, vec![borrowed(DOT, 5, 10)])));
}

#[test]
fn dropped_account_stays_dropped() {
    let (_, prices) = market();
    // The loan that cannot be valued comes first, good ones follow.
    let records = vec![
        loan(USDT, ALICE, 1, 1),
        loan(DOT, ALICE, 40, 50),
        loan(KSM, ALICE, 3, 3),
    ];
    assert!(Pallet::transform_account_borrows(&records, &prices).is_empty());
}

#[test]
fn total_that_does_not_fit_drops_the_account() {
    let (_, prices) = market();
    let records = vec![
        loan(DOT, ALICE, 1, u128::MAX / 2),
        loan(DOT, ALICE, 1, 1),
        loan(DOT, BOB, 1, u128::MAX / 2),
        loan(DOT, ALICE, 1, 1),
    ];
    let borrows = Pallet::transform_account_borrows(&records, &prices);
    assert_eq!(borrows.get(&ALICE), None);
    assert_eq!(borrows.get(&BOB), Some(&(u128::MAX - 1, vec![borrowed(DOT, 1, u128::MAX - 1)])));
}

#[test]
fn collateral_is_converted_valued_and_discounted() {
    let (mut pallet, prices) = market();
    pallet.exchange_rate.insert(DOT, 15 * DECIMAL / 10);
    // 100 shares at 1.5 are 150 units, at a price of 2 worth 300, counted at a half.
    assert_eq!(
        pallet.value_collateral(&deposit(DOT, ALICE, 100, true), &prices),
        Some((150, held(DOT, 150, 300)))
    );
    assert_eq!(
        pallet.value_collateral(&deposit(KSM, ALICE, 7, true), &prices),
        Some((35, held(KSM, 7, 35)))
    );
}

#[test]
fn collateral_rounds_toward_zero_at_each_step() {
    let (mut pallet, mut prices) = market();
    pallet.exchange_rate.insert(DOT, DECIMAL / 3);
    prices.insert(DOT, (DECIMAL / 2, 0));
    // 10 / 3 = 3 units, worth 3 / 2 = 1, counted as 1 / 2 = 0.
    assert_eq!(
        pallet.value_collateral(&deposit(DOT, ALICE, 10, true), &prices),
        Some((0, held(DOT, 3, 1)))
    );
}

#[test]
fn collateral_without_a_parameter_has_no_value() {
    let (pallet, prices) = market();
    assert_eq!(pallet.value_collateral(&deposit(USDT, ALICE, 100, true), &prices), None);
    assert_eq!(pallet.value_collateral(&deposit(9, ALICE, 100, true), &prices), None);
    let mut unlisted = half();
    unlisted.exchange_rate.insert(DOT, DECIMAL);
    assert_eq!(unlisted.value_collateral(&deposit(DOT, ALICE, 100, true), &prices), None);
    let mut unrated = half();
    unrated.collateral_factor.insert(DOT, Ratio::from_parts(1));
    assert_eq!(unrated.value_collateral(&deposit(DOT, ALICE, 100, true), &prices), None);
}

#[test]
fn collateral_that_does_not_fit_has_no_value() {
    let (mut pallet, prices) = market();
    assert_eq!(pallet.value_collateral(&deposit(DOT, ALICE, u128::MAX, true), &prices), None);
    pallet.exchange_rate.insert(KSM, 2 * DECIMAL);
    assert_eq!(pallet.value_collateral(&deposit(KSM, ALICE, u128::MAX, true), &prices), None);
    assert_eq!(
        pallet.value_collateral(&deposit(DOT, ALICE, u128::MAX / 2, true), &prices),
        Some((u128::MAX / 2, held(DOT, u128::MAX / 2, u128::MAX - 1)))
    );
}

#[test]
fn collateral_adds_up_discounted_per_account() {
    let (pallet, prices) = market();
    let deposits = vec![
        deposit(DOT, ALICE, 100, true),
        deposit(KSM, BOB, 4, true),
        deposit(KSM, ALICE, 7, true),
    ];
    let collateral = pallet.transform_account_collateral(&deposits, &prices);
    assert_eq!(collateral.len(), 2);
    // The total counts DOT at a half; the details keep the full values.
    assert_eq!(
        collateral.get(&ALICE),
        Some(&(135, vec![held(DOT, 100, 200), held(KSM, 7, 35)]))
    );
    assert_eq!(collateral.get(&BOB), Some(&(20, vec![held(KSM, 4, 20)])));
}

#[test]
fn deposits_that_are_no_collateral_are_passed_over() {
    let (pallet, prices) = market();
    let deposits = vec![
        deposit(DOT, ALICE, 100, false),
        deposit(KSM, ALICE, 7, true),
        deposit(USDT, ALICE, 5, false),
        deposit(DOT, BOB, 100, false),
    ];
    let collateral = pallet.transform_account_collateral(&deposits, &prices);
    assert_eq!(collateral.get(&ALICE), Some(&(35, vec![held(KSM, 7, 35)])));
    assert_eq!(collateral.get(&BOB), None);
    assert_eq!(collateral.len(), 1);
}

#[test]
fn unpriced_collateral_drops_the_whole_account() {
    let (pallet, prices) = market();
    let deposits = vec![
        deposit(KSM, ALICE, 7, true),
        deposit(USDT, ALICE, 5, true),
        deposit(KSM, ALICE, 1, true),
        deposit(KSM, BOB, 4, true),
    ];
    let collateral = pallet.transform_account_collateral(&deposits, &prices);
    assert_eq!(collateral.get(&ALICE), None);
    assert_eq!(collateral.get(&BOB), Some(&(20, vec![held(KSM, 4, 20)])));
}

#[test]
fn collateral_total_that_does_not_fit_drops_the_account() {
    let (pallet, mut prices) = market();
    prices.insert(KSM, (DECIMAL, 0));
    let deposits = vec![
        deposit(KSM, ALICE, u128::MAX, true),
        deposit(KSM, ALICE, 1, true),
        deposit(KSM, BOB, u128::MAX, true),
    ];
    let collateral = pallet.transform_account_collateral(&deposits, &prices);
    assert_eq!(collateral.get(&ALICE), None);
    assert_eq!(collateral.get(&BOB), Some(&(u128::MAX, vec![held(KSM, u128::MAX, u128::MAX)])));
}

#[test]
fn smallest_loan_is_the_first_of_least_value() {
    assert_eq!(pick_smallest_loan(&vec![borrowed(DOT, 1, 70), borrowed(KSM, 1, 30)]), 1);
    assert_eq!(pick_smallest_loan(&vec![borrowed(DOT, 1, 30), borrowed(KSM, 1, 70)]), 0);
    assert_eq!(
        pick_smallest_loan(&vec![borrowed(DOT, 1, 50), borrowed(KSM, 1, 30), borrowed(USDT, 1, 30)]),
        1
    );
    assert_eq!(pick_smallest_loan(&vec![borrowed(DOT, 1, 5)]), 0);
    assert_eq!(pick_smallest_loan(&Vec::new()), 0);
}

#[test]
fn covering_collateral_is_the_first_that_suffices() {
    let collateral = vec![held(DOT, 1, 10), held(KSM, 1, 20), held(USDT, 1, 30)];
    assert_eq!(find_covering(&collateral, 15), Some(1));
    assert_eq!(find_covering(&collateral, 20), Some(1));
    assert_eq!(find_covering(&collateral, 21), Some(2));
    assert_eq!(find_covering(&collateral, 0), Some(0));
    assert_eq!(find_covering(&collateral, 31), None);
    assert_eq!(find_covering(&Vec::new(), 0), None);
}

#[test]
fn account_with_collateral_worth_more_is_left_alone() {
    let pallet = half();
    let loans = (99, vec![borrowed(DOT, 99, 99)]);
    let collateral = (100, vec![held(KSM, 200, 200)]);
    assert_eq!(pallet.select_liquidation(ALICE, &loans, &collateral), None);
}

#[test]
fn health_check_compares_strictly() {
    let pallet = half();
    let collateral = (100, vec![held(KSM, 200, 200)]);
    // Only loans worth less than the collateral counts for keep an account
    // from liquidation: at equal worth it is liquidated.
    assert_eq!(
        pallet.select_liquidation(ALICE, &(100, vec![borrowed(DOT, 100, 100)]), &collateral),
        Some(LiquidateBorrow {
            borrower: ALICE,
            loan_currency: DOT,
            repay_amount: 50,
            collateral_currency: KSM,
        })
    );
    assert_eq!(
        pallet.select_liquidation(ALICE, &(99, vec![borrowed(DOT, 100, 100)]), &collateral),
        None
    );
    assert!(pallet
        .select_liquidation(ALICE, &(101, vec![borrowed(DOT, 100, 100)]), &collateral)
        .is_some());
}

#[test]
fn smallest_loan_is_liquidated() {
    let pallet = half();
    let loans = (100, vec![borrowed(DOT, 35, 70), borrowed(KSM, 6, 30)]);
    let collateral = (90, vec![held(USDT, 10, 10), held(DOT, 8, 16)]);
    // Half of the smaller loan's value is 15: the first collateral is too small.
    assert_eq!(
        pallet.select_liquidation(ALICE, &loans, &collateral),
        Some(LiquidateBorrow {
            borrower: ALICE,
            loan_currency: KSM,
            repay_amount: 3,
            collateral_currency: DOT,
        })
    );
    let swapped = (100, vec![borrowed(KSM, 6, 30), borrowed(DOT, 35, 70)]);
    assert_eq!(
        pallet.select_liquidation(ALICE, &swapped, &collateral).map(|call| call.loan_currency),
        Some(KSM)
    );
}

#[test]
fn no_call_without_collateral_that_covers() {
    let pallet = half();
    let loans = (100, vec![borrowed(DOT, 35, 70), borrowed(KSM, 6, 30)]);
    // Under water, but no single collateral is worth half of 30.
    let collateral = (28, vec![held(USDT, 14, 14), held(DOT, 14, 14)]);
    assert_eq!(pallet.select_liquidation(ALICE, &loans, &collateral), None);
    let just = (28, vec![held(USDT, 14, 14), held(DOT, 15, 15)]);
    assert_eq!(
        pallet.select_liquidation(ALICE, &loans, &just).map(|call| call.collateral_currency),
        Some(DOT)
    );
}

#[test]
fn liquidate_factor_bounds_the_repayment() {
    let loans = (100, vec![borrowed(DOT, 41, 81)]);
    let collateral = (50, vec![held(KSM, 20, 20), held(USDT, 100, 100)]);
    let quarter = Pallet::new(Ratio::from_parts(250_000));
    // A quarter of 81 is 20 and a fraction: the first collateral covers it.
    assert_eq!(
        quarter.select_liquidation(BOB, &loans, &collateral),
        Some(LiquidateBorrow {
            borrower: BOB,
            loan_currency: DOT,
            repay_amount: 10,
            collateral_currency: KSM,
        })
    );
    let whole = Pallet::new(Ratio::from_parts(1_000_000));
    assert_eq!(
        whole.select_liquidation(BOB, &loans, &collateral),
        Some(LiquidateBorrow {
            borrower: BOB,
            loan_currency: DOT,
            repay_amount: 41,
            collateral_currency: USDT,
        })
    );
    let none = Pallet::new(Ratio::from_parts(0));
    assert_eq!(
        none.select_liquidation(BOB, &loans, &collateral),
        Some(LiquidateBorrow {
            borrower: BOB,
            loan_currency: DOT,
            repay_amount: 0,
            collateral_currency: KSM,
        })
    );
}

#[test]
fn account_without_loans_is_left_alone() {
    let pallet = half();
    let collateral = (0, vec![held(KSM, 20, 20)]);
    assert_eq!(pallet.select_liquidation(ALICE, &(0, Vec::new()), &collateral), None);
}

#[test]
fn calls_come_in_the_order_of_the_accounts() {
    let pallet = half();
    let mut borrows = BTreeMap::new();
    borrows.insert(CAROL, (50, vec![borrowed(DOT, 20, 50)]));
    borrows.insert(ALICE, (100, vec![borrowed(DOT, 35, 70), borrowed(KSM, 6, 30)]));
    borrows.insert(BOB, (10, vec![borrowed(KSM, 2, 10)]));
    let mut collateral = BTreeMap::new();
    collateral.insert(ALICE, (90, vec![held(USDT, 10, 10), held(DOT, 8, 16)]));
    collateral.insert(BOB, (11, vec![held(USDT, 11, 11)]));
    collateral.insert(CAROL, (50, vec![held(KSM, 25, 25)]));
    let calls = pallet.liquidate_underwater_accounts(&borrows, &collateral);
    assert_eq!(
        calls,
        vec![
            LiquidateBorrow {
                borrower: ALICE,
                loan_currency: KSM,
                repay_amount: 3,
                collateral_currency: DOT,
            },
            LiquidateBorrow {
                borrower: CAROL,
                loan_currency: DOT,
                repay_amount: 10,
                collateral_currency: KSM,
            },
        ]
    );
}

#[test]
fn account_without_collateral_is_passed_over() {
    let pallet = half();
    let mut borrows = BTreeMap::new();
    borrows.insert(ALICE, (100, vec![borrowed(DOT, 35, 70)]));
    borrows.insert(BOB, (100, vec![borrowed(DOT, 35, 70)]));
    let mut collateral = BTreeMap::new();
    collateral.insert(BOB, (90, vec![held(KSM, 35, 35)]));
    collateral.insert(CAROL, (1, vec![held(KSM, 35, 35)]));
    let calls = pallet.liquidate_underwater_accounts(&borrows, &collateral);
    assert_eq!(calls.len(), 1);
    assert_eq!(calls[0].borrower, BOB);
    assert!(pallet.liquidate_underwater_accounts(&borrows, &BTreeMap::new()).is_empty());
    assert!(pallet.liquidate_underwater_accounts(&BTreeMap::new(), &collateral).is_empty());
}

fn ledger() -> (Vec<BorrowRecord>, Vec<DepositRecord>) {
    let records = vec![
        // Carol owes 30 KSM, worth 150.
        loan(KSM, CAROL, 30, 30),
        // Alice owes 100 and 15.
        loan(DOT, ALICE, 40, 50),
        loan(KSM, ALICE, 3, 3),
        // Bob owes 10.
        loan(DOT, BOB, 5, 5),
    ];
    let deposits = vec![
        // Alice holds DOT worth 40, counted as 20, and KSM worth 10.
        deposit(DOT, ALICE, 20, true),
        deposit(KSM, ALICE, 2, true),
        deposit(KSM, ALICE, 1_000, false),
        // Bob holds KSM worth 50.
        deposit(KSM, BOB, 10, true),
        // Carol holds DOT worth 200, counted as 100.
        deposit(DOT, CAROL, 100, true),
    ];
    (records, deposits)
}

#[test]
fn cycle_liquidates_the_accounts_under_water() {
    let (pallet, prices) = market();
    let (records, deposits) = ledger();
    let calls = pallet.liquidate(&records, &deposits, &prices);
    assert_eq!(
        calls,
        vec![
            // Alice: the smaller loan is worth 15, half of it 7; DOT worth 40 covers it.
            LiquidateBorrow {
                borrower: ALICE,
                loan_currency: KSM,
                repay_amount: 1,
                collateral_currency: DOT,
            },
            // Carol: half of 150 is 75; DOT worth 200 covers it.
            LiquidateBorrow {
                borrower: CAROL,
                loan_currency: KSM,
                repay_amount: 15,
                collateral_currency: DOT,
            },
        ]
    );
}

#[test]
fn cycle_run_twice_sends_the_same_calls() {
    let (pallet, prices) = market();
    let (records, deposits) = ledger();
    let first = pallet.liquidate(&records, &deposits, &prices);
    let second = pallet.liquidate(&records, &deposits, &prices);
    assert_eq!(first.len(), 2);
    assert_eq!(first, second);
}

#[test]
fn cycle_passes_over_accounts_it_cannot_value() {
    let (pallet, prices) = market();
    let (mut records, mut deposits) = ledger();
    // One loan of Alice and one collateral of Carol have no price.
    records.push(loan(USDT, ALICE, 1, 1));
    deposits.push(deposit(USDT, CAROL, 1, true));
    assert!(pallet.liquidate(&records, &deposits, &prices).is_empty());
}

#[test]
fn cycle_without_records_sends_nothing() {
    let (pallet, prices) = market();
    assert!(pallet.liquidate(&Vec::new(), &Vec::new(), &prices).is_empty());
    let (records, _) = ledger();
    assert!(pallet.liquidate(&records, &Vec::new(), &prices).is_empty());
}

#[test]
fn valuations_keep_totals_and_details_in_order() {
    let mut valuations: Valuations<u8> = Valuations::new();
    valuations.record(ALICE, Some((5, 1)));
    valuations.record(BOB, Some((7, 2)));
    valuations.record(ALICE, Some((6, 3)));
    let valued = valuations.into_valued();
    assert_eq!(valued.get(&ALICE), Some(&(11, vec![1, 3])));
    assert_eq!(valued.get(&BOB), Some(&(7, vec![2])));
    assert_eq!(valued.len(), 2);
}

#[test]
fn valuations_drop_an_account_for_good() {
    let mut valuations: Valuations<u8> = Valuations::new();
    valuations.record(ALICE, Some((5, 1)));
    valuations.record(ALICE, None);
    valuations.record(ALICE, Some((6, 3)));
    valuations.record(BOB, Some((u128::MAX, 4)));
    valuations.record(BOB, Some((1, 5)));
    valuations.record(BOB, Some((1, 6)));
    valuations.record(CAROL, Some((u128::MAX, 7)));
    valuations.record(CAROL, Some((0, 8)));
    let valued = valuations.into_valued();
    assert_eq!(valued.get(&ALICE), None);
    assert_eq!(valued.get(&BOB), None);
    assert_eq!(valued.get(&CAROL), Some(&(u128::MAX, vec![7, 8])));
}

#[test]
fn cycle_takes_the_lock_first() {
    assert_eq!(next_step(None, None), CycleStep::AcquireLock);
    assert_eq!(next_step(None, Some(true)), CycleStep::AcquireLock);
    assert_eq!(next_step(None, Some(false)), CycleStep::AcquireLock);
}

#[test]
fn cycle_stops_without_the_lock() {
    assert_eq!(next_step(Some(false), None), CycleStep::Stop(CycleError::LockUnavailable));
    assert_eq!(next_step(Some(false), Some(true)), CycleStep::Stop(CycleError::LockUnavailable));
    assert_eq!(next_step(Some(false), Some(false)), CycleStep::Stop(CycleError::LockUnavailable));
}

#[test]
fn cycle_stops_without_a_signer() {
    assert_eq!(next_step(Some(true), None), CycleStep::FindSigner);
    assert_eq!(next_step(Some(true), Some(false)), CycleStep::Stop(CycleError::NoSignerAvailable));
}

#[test]
fn cycle_reads_the_ledger_with_lock_and_signer() {
    assert_eq!(next_step(Some(true), Some(true)), CycleStep::ReadLedger);
}
