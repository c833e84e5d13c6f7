//! The running valuation that both aggregation phases fold their records into.
use crate::AccountId;
use std::collections::{BTreeMap, BTreeSet};
use vstd::prelude::*;

verus! {

/// Where an account stands after some of its records were read: `None` once
/// one of them could not be valued, else the total and the details so far.
pub type Standing<D> = Option<(u128, Seq<D>)>;

/// The standing of an account of which no record was read.
pub open spec fn unseen<D>() -> Standing<D> {
    Some((0u128, Seq::empty()))
}

/// The standing after one more record of the account, which adds `share.0`
/// to the total and `share.1` to the details, or could not be valued.
pub open spec fn absorb<D>(standing: Standing<D>, share: Option<(u128, D)>) -> Standing<D> {
    match (standing, share) {
        (Some((total, details)), Some((amount, detail))) => if total + amount <= u128::MAX {
            Some(((total + amount) as u128, details.push(detail)))
        } else {
            None
        },
        _ => None,
    }
}

/// The standing of an account after records with these shares, in order.
pub open spec fn tally<D>(shares: Seq<Option<(u128, D)>>) -> Standing<D>
    decreases shares.len(),
{
    if shares.len() == 0 {
        unseen()
    } else {
        absorb(tally(shares.drop_last()), shares.last())
    }
}

/// The sum of what the shares add to the total; one without a value adds
/// nothing.
pub open spec fn total_amount<D>(shares: Seq<Option<(u128, D)>>) -> int
    decreases shares.len(),
{
    if shares.len() == 0 {
        0
    } else {
        total_amount(shares.drop_last()) + match shares.last() {
            Some((amount, _)) => amount as int,
            None => 0,
        }
    }
}

/// An account keeps a standing exactly if every one of its records has a
/// value and the values add up to what fits in 128 bits. Its total is then
/// that sum, and its details are those of its records, one for one and in
/// their order.
pub proof fn lemma_tally<D>(shares: Seq<Option<(u128, D)>>)
    ensures
        0 <= total_amount(shares),
        match tally(shares) {
            Some((total, details)) => {
                &&& total == total_amount(shares)
                &&& details.len() == shares.len()
                &&& forall|i: int|
                    0 <= i < shares.len() ==> ((#[trigger] shares[i]) matches Some((_, detail))
                        && detail == details[i])
            },
            None => {
                ||| exists|i: int| 0 <= i < shares.len() && (#[trigger] shares[i]) is None
                ||| total_amount(shares) > u128::MAX
            },
        },
    decreases shares.len(),
{
    if shares.len() > 0 {
        let front = shares.drop_last();
        lemma_tally(front);
        match tally(shares) {
            Some((total, details)) => {
                assert forall|i: int| 0 <= i < shares.len() implies ((
                #[trigger] shares[i]) matches Some((_, detail)) && detail == details[i]) by {
                    if i < front.len() {
                        assert(front[i] == shares[i]);
                    }
                }
            },
            None => {
                if tally(front) is None {
                    if total_amount(front) <= u128::MAX {
                        let i = choose|i: int| 0 <= i < front.len() && (#[trigger] front[i]) is None;
                        assert(shares[i] == front[i]);
                    }
                } else if shares.last() is None {
                    assert(shares[shares.len() - 1] is None);
                }
            },
        }
    }
}

/// Whether `entries` holds `account` as `standing` says: with that total and
/// those details where it has any and was not dropped, and not at all
/// otherwise.
pub open spec fn holds<D>(
    entries: Map<AccountId, (u128, Vec<D>)>,
    account: AccountId,
    standing: Standing<D>,
) -> bool {
    match standing {
        Some((total, details)) => if details.len() > 0 {
            &&& entries.contains_key(account)
            &&& entries[account].0 == total
            &&& entries[account].1@ == details
        } else {
            !entries.contains_key(account)
        },
        None => !entries.contains_key(account),
    }
}

/// The accounts valued so far, and those dropped for the rest of the cycle.
pub struct Valuations<D> {
    pub valued: BTreeMap<AccountId, (u128, Vec<D>)>,
    pub dropped: BTreeSet<AccountId>,
}

impl<D> Valuations<D> {
    /// No account is both valued and dropped, and a valued one has details.
    pub open spec fn wf(&self) -> bool {
        &&& forall|account: AccountId| #[trigger]
            self.valued@.contains_key(account) ==> !self.dropped@.contains(account)
                && self.valued@[account].1@.len() > 0
    }

    /// The standing of `account` after the records taken in so far.
    pub open spec fn standing(&self, account: AccountId) -> Standing<D> {
        if self.dropped@.contains(account) {
            None
        } else if self.valued@.contains_key(account) {
            Some((self.valued@[account].0, self.valued@[account].1@))
        } else {
            unseen()
        }
    }

    /// The valuation before any record: every account is unseen.
    pub fn new() -> (valuations: Valuations<D>)
        ensures
            valuations.wf(),
            forall|account: AccountId| valuations.standing(account) == unseen::<D>(),
    {
        Valuations { valued: BTreeMap::new(), dropped: BTreeSet::new() }
    }

    /// The valued accounts, each with its total and its details.
    pub fn into_valued(self) -> (entries: BTreeMap<AccountId, (u128, Vec<D>)>)
        requires
            self.wf(),
        ensures
            forall|account: AccountId| holds(entries@, account, #[trigger] self.standing(account)),
    {
        self.valued
    }

    /// Takes in one record of `account`: its share of the total and its
    /// detail, or `None` where the record could not be valued. An account
    /// with such a record is dropped and stays so.
    pub fn record(&mut self, account: AccountId, share: Option<(u128, D)>)
        requires
            old(self).wf(),
        ensures
            final(self).wf(),
            final(self).standing(account) == absorb(old(self).standing(account), share),
            forall|other: AccountId|
                other != account ==> final(self).standing(other) == old(self).standing(other),
    {
        if self.dropped.contains(&account) {
            return ;
        }
        let (total, mut details) = match self.valued.remove(&account) {
            Some(entry) => entry,
            None => (0u128, Vec::new()),
        };
        let sum = match share {
            Some((amount, detail)) => {
                details.push(detail);
                total.checked_add(amount)
            },
            None => None,
        };
        match sum {
            Some(total) => {
                self.valued.insert(account, (total, details));
            },
            None => {
                self.dropped.insert(account);
            },
        }
    }
}

} // verus!
