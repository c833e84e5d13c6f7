//! What a cycle needs of its surroundings before it reads the ledger.
use vstd::prelude::*;

verus! {

/// Why a cycle did not run. Neither is a fault: the next cycle tries again.
#[derive(Clone, Copy, Debug, PartialEq, Eq, Structural)]
pub enum CycleError {
    /// Another cycle holds the lock.
    LockUnavailable,
    /// No identity is at hand to sign a transaction with.
    NoSignerAvailable,
}

/// What is to be done next to get a cycle going.
#[derive(Clone, Copy, Debug, PartialEq, Eq, Structural)]
pub enum CycleStep {
    /// Try to take the lock that keeps cycles from overlapping.
    AcquireLock,
    /// See whether an identity is at hand to sign with.
    FindSigner,
    /// Read the ledger and liquidate.
    ReadLedger,
    /// Give the cycle up.
    Stop(CycleError),
}

/// The next step, given what is known so far: whether the lock was taken
/// and whether a signer was found, each `None` while it was not tried.
///
/// The lock comes first and the signer second; the ledger is read only once
/// both are there, so that a cycle that cannot act reads nothing.
pub open spec fn step_after(lock: Option<bool>, signer: Option<bool>) -> CycleStep {
    match lock {
        None => CycleStep::AcquireLock,
        Some(false) => CycleStep::Stop(CycleError::LockUnavailable),
        Some(true) => match signer {
            None => CycleStep::FindSigner,
            Some(false) => CycleStep::Stop(CycleError::NoSignerAvailable),
            Some(true) => CycleStep::ReadLedger,
        },
    }
}

/// Says what is to be done next, given what is known so far.
pub fn next_step(lock: Option<bool>, signer: Option<bool>) -> (step: CycleStep)
    ensures
        step == step_after(lock, signer),
{
    match lock {
        None => CycleStep::AcquireLock,
        Some(false) => CycleStep::Stop(CycleError::LockUnavailable),
        Some(true) => match signer {
            None => CycleStep::FindSigner,
            Some(false) => CycleStep::Stop(CycleError::NoSignerAvailable),
            Some(true) => CycleStep::ReadLedger,
        },
    }
}

/// The ledger is read exactly when the lock was taken and a signer found,
/// and a cycle is given up exactly when one of the two was tried in vain.
pub proof fn lemma_ledger_read_last(lock: Option<bool>, signer: Option<bool>)
    ensures
        step_after(lock, signer) == CycleStep::ReadLedger <==> lock == Some(true) && signer
            == Some(true),
        step_after(lock, signer) == CycleStep::Stop(CycleError::LockUnavailable) <==> lock
            == Some(false),
        step_after(lock, signer) == CycleStep::Stop(CycleError::NoSignerAvailable) <==> lock
            == Some(true) && signer == Some(false),
{
}

} // verus!
