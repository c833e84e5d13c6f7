//! The order in which a map of accounts is walked.
use crate::AccountId;
use vstd::prelude::*;
use vstd::std_specs::btree::increasing_seq;
use vstd::std_specs::cmp::OrdSpec;

verus! {

/// Each account is smaller than every account after it.
pub open spec fn ascending(accounts: Seq<AccountId>) -> bool {
    forall|i: int, j: int| 0 <= i < j < accounts.len() ==> accounts[i] < accounts[j]
}

/// Accounts that a map hands out in increasing order are ascending.
pub proof fn lemma_increasing_is_ascending(accounts: Seq<AccountId>)
    requires
        increasing_seq(accounts),
    ensures
        ascending(accounts),
{
    assert forall|i: int, j: int| 0 <= i < j < accounts.len() implies accounts[i]
        < accounts[j] by {
        assert(accounts[i].cmp_spec(&accounts[j]) is Less);
    }
}

} // verus!
