//! The calls of one cycle, as a sequence fixed by what each account is due.
use crate::liquidate::select::LiquidateBorrow;
use crate::AccountId;
use vstd::prelude::*;

verus! {

/// Whether `calls` holds a call for `borrower`.
pub open spec fn calls_on(calls: Seq<LiquidateBorrow>, borrower: AccountId) -> bool {
    exists|i: int| 0 <= i < calls.len() && (#[trigger] calls[i]).borrower == borrower
}

/// Whether `calls` is what a cycle sends when `due` says what is done about
/// each account: the calls that are due and no others, one for an account at
/// most, in the order of their borrowers.
pub open spec fn dispatches(
    calls: Seq<LiquidateBorrow>,
    due: spec_fn(AccountId) -> Option<LiquidateBorrow>,
) -> bool {
    &&& forall|i: int, j: int|
        0 <= i < j < calls.len() ==> (#[trigger] calls[i]).borrower < (#[trigger] calls[j]).borrower
    &&& forall|i: int| 0 <= i < calls.len() ==> due((#[trigger] calls[i]).borrower) == Some(calls[i])
    &&& forall|borrower: AccountId| #[trigger]
        due(borrower) is Some ==> calls_on(calls, borrower)
}

/// A cycle's calls are a function of what is due: two sequences that the
/// same dues dispatch are the same sequence.
pub proof fn lemma_dispatch_unique(
    first: Seq<LiquidateBorrow>,
    second: Seq<LiquidateBorrow>,
    due: spec_fn(AccountId) -> Option<LiquidateBorrow>,
)
    requires
        dispatches(first, due),
        dispatches(second, due),
    ensures
        first == second,
    decreases first.len(),
{
    if first.len() == 0 {
        if second.len() > 0 {
            assert(due(second[0].borrower) is Some);
            assert(calls_on(first, second[0].borrower));
        }
        assert(first =~= second);
    } else {
        let last = first.last();
        assert(due(last.borrower) is Some);
        assert(calls_on(second, last.borrower));
        let at = choose|i: int| 0 <= i < second.len() && (#[trigger] second[i]).borrower
            == last.borrower;
        if at < second.len() - 1 {
            let beyond = second.last();
            assert(due(beyond.borrower) is Some);
            assert(calls_on(first, beyond.borrower));
            let back = choose|i: int| 0 <= i < first.len() && (#[trigger] first[i]).borrower
                == beyond.borrower;
            assert(second[at].borrower < beyond.borrower);
            if back < first.len() - 1 {
                assert(first[back].borrower < last.borrower);
            }
            assert(false);
        }
        assert(second.last() == last);
        let first_front = first.drop_last();
        let second_front = second.drop_last();
        let rest = |borrower: AccountId|
            if borrower == last.borrower {
                None
            } else {
                due(borrower)
            };
        lemma_front_dispatches(first, due, rest);
        lemma_front_dispatches(second, due, rest);
        lemma_dispatch_unique(first_front, second_front, rest);
        assert(first =~= first_front.push(last));
        assert(second =~= second_front.push(last));
    }
}

/// What dispatches certain dues dispatches any dues that say the same of
/// every account.
pub proof fn lemma_dispatches_alike(
    calls: Seq<LiquidateBorrow>,
    due: spec_fn(AccountId) -> Option<LiquidateBorrow>,
    same: spec_fn(AccountId) -> Option<LiquidateBorrow>,
)
    requires
        dispatches(calls, due),
        forall|borrower: AccountId| #[trigger] due(borrower) == same(borrower),
    ensures
        dispatches(calls, same),
{
    assert forall|i: int| 0 <= i < calls.len() implies same((#[trigger] calls[i]).borrower)
        == Some(calls[i]) by {
        assert(due(calls[i].borrower) == same(calls[i].borrower));
    }
    assert forall|borrower: AccountId| #[trigger] same(borrower) is Some implies calls_on(
        calls,
        borrower,
    ) by {
        assert(due(borrower) == same(borrower));
    }
}

/// Without its last call, a sequence dispatches what is due to the other
/// accounts.
proof fn lemma_front_dispatches(
    calls: Seq<LiquidateBorrow>,
    due: spec_fn(AccountId) -> Option<LiquidateBorrow>,
    rest: spec_fn(AccountId) -> Option<LiquidateBorrow>,
)
    requires
        calls.len() > 0,
        dispatches(calls, due),
        forall|borrower: AccountId|
            #[trigger] rest(borrower) == (if borrower == calls.last().borrower {
                None
            } else {
                due(borrower)
            }),
    ensures
        dispatches(calls.drop_last(), rest),
{
    let front = calls.drop_last();
    let last = calls.last();
    assert forall|i: int, j: int| 0 <= i < j < front.len() implies (#[trigger] front[i]).borrower
        < (#[trigger] front[j]).borrower by {
        assert(front[i] == calls[i] && front[j] == calls[j]);
    }
    assert forall|i: int| 0 <= i < front.len() implies rest((#[trigger] front[i]).borrower)
        == Some(front[i]) by {
        assert(front[i] == calls[i]);
        assert(calls[i].borrower < calls[calls.len() - 1].borrower);
    }
    assert forall|borrower: AccountId| #[trigger] rest(borrower) is Some implies calls_on(
        front,
        borrower,
    ) by {
        assert(due(borrower) is Some);
        assert(calls_on(calls, borrower));
        let i = choose|i: int| 0 <= i < calls.len() && (#[trigger] calls[i]).borrower == borrower;
        assert(front[i] == calls[i]);
    }
}

} // verus!
