//! Which loan of an account is repaid, and from which collateral.
use crate::fixed_point::mul_ratio;
use crate::liquidate::{BorrowMisc, CollateralMisc};
use crate::pallet::Pallet;
use crate::{AccountId, Balance, CurrencyId};
use vstd::prelude::*;

verus! {

/// The order to repay part of a loan of `borrower` and to seize collateral
/// of `collateral_currency` for it.
#[derive(Clone, Copy, Debug, PartialEq, Eq, Structural)]
pub struct LiquidateBorrow {
    pub borrower: AccountId,
    pub loan_currency: CurrencyId,
    pub repay_amount: Balance,
    pub collateral_currency: CurrencyId,
}

/// The place of the loan of least value, the first of them where several
/// have that value; `0` where there is no loan.
pub open spec fn smallest_loan(loans: Seq<BorrowMisc>) -> int
    decreases loans.len(),
{
    if loans.len() <= 1 {
        0
    } else {
        let before = smallest_loan(loans.drop_last());
        if loans.last().value < loans[before].value {
            loans.len() - 1
        } else {
            before
        }
    }
}

/// The place of the first collateral whose value is at least `threshold`.
pub open spec fn first_covering(collateral: Seq<CollateralMisc>, threshold: int) -> Option<int>
    decreases collateral.len(),
{
    if collateral.len() == 0 {
        None
    } else {
        match first_covering(collateral.drop_last(), threshold) {
            Some(place) => Some(place),
            None => if collateral.last().value >= threshold {
                Some(collateral.len() - 1)
            } else {
                None
            },
        }
    }
}

/// What is done about an account that owes `loans_value` in `loans` against
/// collateral that counts for `collateral_value`.
///
/// Nothing, while the loans are worth less than the collateral counts for.
/// Else the smallest loan is picked and the first collateral worth at least
/// `factor` millionths of that loan's value pays for the same share of the
/// loan's amount; where no collateral is worth that much, nothing is done.
pub open spec fn liquidation(
    borrower: AccountId,
    loans_value: u128,
    loans: Seq<BorrowMisc>,
    collateral_value: u128,
    collateral: Seq<CollateralMisc>,
    factor: nat,
) -> Option<LiquidateBorrow> {
    if loans_value < collateral_value || loans.len() == 0 {
        None
    } else {
        let loan = loans[smallest_loan(loans)];
        match first_covering(collateral, mul_ratio(factor as int, loan.value as int)) {
            Some(place) => Some(
                LiquidateBorrow {
                    borrower,
                    loan_currency: loan.currency,
                    repay_amount: mul_ratio(factor as int, loan.amount as int) as u128,
                    collateral_currency: collateral[place].currency,
                },
            ),
            None => None,
        }
    }
}

/// An account whose loans are worth less than its collateral counts for is
/// left alone, whatever its loans and collateral are.
pub proof fn lemma_solvent_is_spared(
    borrower: AccountId,
    loans_value: u128,
    loans: Seq<BorrowMisc>,
    collateral_value: u128,
    collateral: Seq<CollateralMisc>,
    factor: nat,
)
    requires
        loans_value < collateral_value,
    ensures
        liquidation(borrower, loans_value, loans, collateral_value, collateral, factor) is None,
{
}

/// A call that is made repays the given share of the smallest loan and
/// seizes the first collateral that is worth that share of the loan's value.
pub proof fn lemma_liquidation_made(
    borrower: AccountId,
    loans_value: u128,
    loans: Seq<BorrowMisc>,
    collateral_value: u128,
    collateral: Seq<CollateralMisc>,
    factor: nat,
)
    requires
        liquidation(borrower, loans_value, loans, collateral_value, collateral, factor) is Some,
    ensures
        ({
            let call = liquidation(
                borrower,
                loans_value,
                loans,
                collateral_value,
                collateral,
                factor,
            )->0;
            let loan = loans[smallest_loan(loans)];
            &&& loans_value >= collateral_value
            &&& call.borrower == borrower
            &&& call.loan_currency == loan.currency
            &&& call.repay_amount == mul_ratio(factor as int, loan.amount as int) as u128
            &&& forall|i: int| 0 <= i < loans.len() ==> loan.value <= (#[trigger] loans[i]).value
            &&& exists|place: int|
                {
                    &&& 0 <= place < collateral.len()
                    &&& call.collateral_currency == (#[trigger] collateral[place]).currency
                    &&& collateral[place].value >= mul_ratio(factor as int, loan.value as int)
                    &&& forall|i: int|
                        0 <= i < place ==> (#[trigger] collateral[i]).value < mul_ratio(
                            factor as int,
                            loan.value as int,
                        )
                }
        }),
{
    lemma_smallest_loan(loans);
    let loan = loans[smallest_loan(loans)];
    lemma_first_covering(collateral, mul_ratio(factor as int, loan.value as int));
}

/// The smallest loan is a loan, none is worth less, and each loan before it
/// is worth more.
pub proof fn lemma_smallest_loan(loans: Seq<BorrowMisc>)
    requires
        loans.len() > 0,
    ensures
        0 <= smallest_loan(loans) < loans.len(),
        forall|i: int|
            0 <= i < loans.len() ==> loans[smallest_loan(loans)].value <= (#[trigger] loans[i]).value,
        forall|i: int|
            0 <= i < smallest_loan(loans) ==> loans[smallest_loan(loans)].value
                < (#[trigger] loans[i]).value,
    decreases loans.len(),
{
    if loans.len() > 1 {
        let front = loans.drop_last();
        lemma_smallest_loan(front);
        assert forall|i: int| 0 <= i < loans.len() implies loans[smallest_loan(loans)].value <= (
        #[trigger] loans[i]).value by {
            if i < front.len() {
                assert(front[i] == loans[i]);
            }
        }
        assert forall|i: int| 0 <= i < smallest_loan(loans) implies loans[smallest_loan(
            loans,
        )].value < (#[trigger] loans[i]).value by {
            assert(front[i] == loans[i]);
        }
    }
}

/// The collateral found is worth the threshold and is the first that is;
/// where none is found, none is worth it.
pub proof fn lemma_first_covering(collateral: Seq<CollateralMisc>, threshold: int)
    ensures
        match first_covering(collateral, threshold) {
            Some(place) => {
                &&& 0 <= place < collateral.len()
                &&& collateral[place].value >= threshold
                &&& forall|i: int| 0 <= i < place ==> (#[trigger] collateral[i]).value < threshold
            },
            None => forall|i: int|
                0 <= i < collateral.len() ==> (#[trigger] collateral[i]).value < threshold,
        },
    decreases collateral.len(),
{
    if collateral.len() > 0 {
        let front = collateral.drop_last();
        lemma_first_covering(front, threshold);
        match first_covering(collateral, threshold) {
            Some(place) => {
                assert forall|i: int| 0 <= i < place implies (#[trigger] collateral[i]).value
                    < threshold by {
                    assert(front[i] == collateral[i]);
                }
            },
            None => {
                assert forall|i: int| 0 <= i < collateral.len() implies (
                #[trigger] collateral[i]).value < threshold by {
                    if i < front.len() {
                        assert(front[i] == collateral[i]);
                    }
                }
            },
        }
    }
}

/// Finds the loan of least value, the first of them among equals.
pub fn pick_smallest_loan(loans: &Vec<BorrowMisc>) -> (place: usize)
    ensures
        place == smallest_loan(loans@),
{
    let mut place: usize = 0;
    let mut i: usize = 0;
    while i < loans.len()
        invariant
            i <= loans.len(),
            place == smallest_loan(loans@.take(i as int)),
            i > 0 ==> place < i,
        decreases loans.len() - i,
    {
        proof {
            assert(loans@.take(i + 1).drop_last() == loans@.take(i as int));
        }
        if i > 0 && loans[i].value < loans[place].value {
            place = i;
        }
        i += 1;
    }
    proof {
        assert(loans@.take(i as int) == loans@);
    }
    place
}

/// Finds the first collateral whose value is at least `threshold`.
pub fn find_covering(collateral: &Vec<CollateralMisc>, threshold: u128) -> (place: Option<usize>)
    ensures
        match place {
            Some(place) => first_covering(collateral@, threshold as int) == Some(place as int),
            None => first_covering(collateral@, threshold as int) is None,
        },
{
    let mut i: usize = 0;
    while i < collateral.len()
        invariant
            i <= collateral.len(),
            first_covering(collateral@.take(i as int), threshold as int) is None,
        decreases collateral.len() - i,
    {
        if collateral[i].value >= threshold {
            proof {
                lemma_covering_found(collateral@, threshold as int, i as int);
            }
            return Some(i);
        }
        proof {
            assert(collateral@.take(i + 1).drop_last() == collateral@.take(i as int));
        }
        i += 1;
    }
    proof {
        assert(collateral@.take(i as int) == collateral@);
    }
    None
}

impl Pallet {
    /// Decides what is done about one account, given what it owes and what
    /// its collateral counts for.
    pub fn select_liquidation(
        &self,
        borrower: AccountId,
        loans: &(u128, Vec<BorrowMisc>),
        collateral: &(u128, Vec<CollateralMisc>),
    ) -> (call: Option<LiquidateBorrow>)
        ensures
            call == liquidation(
                borrower,
                loans.0,
                loans.1@,
                collateral.0,
                collateral.1@,
                self.liquidate_factor@,
            ),
    {
        if loans.0 < collateral.0 || loans.1.len() == 0 {
            return None;
        }
        let place = pick_smallest_loan(&loans.1);
        proof {
            lemma_smallest_loan(loans.1@);
        }
        let loan = loans.1[place];
        let threshold = self.liquidate_factor.mul_floor(loan.value);
        match find_covering(&collateral.1, threshold) {
            Some(found) => {
                proof {
                    lemma_first_covering(collateral.1@, threshold as int);
                }
                Some(
                    LiquidateBorrow {
                        borrower,
                        loan_currency: loan.currency,
                        repay_amount: self.liquidate_factor.mul_floor(loan.amount),
                        collateral_currency: collateral.1[found].currency,
                    },
                )
            },
            None => None,
        }
    }
}

/// A collateral that is worth the threshold, with none before it that is,
/// is the one found.
proof fn lemma_covering_found(collateral: Seq<CollateralMisc>, threshold: int, place: int)
    requires
        0 <= place < collateral.len(),
        collateral[place].value >= threshold,
        first_covering(collateral.take(place), threshold) is None,
    ensures
        first_covering(collateral, threshold) == Some(place),
    decreases collateral.len(),
{
    if place == collateral.len() - 1 {
        assert(collateral.drop_last() == collateral.take(place));
    } else {
        let front = collateral.drop_last();
        assert(front.take(place) == collateral.take(place));
        lemma_covering_found(front, threshold, place);
    }
}

} // verus!
