//! The contract record shared by loans and leases.
use vstd::prelude::*;

use crate::account::AccountId;

verus! {

/// Which of the two variants a contract is.
#[derive(Clone, Copy, Debug, PartialEq, Eq, Structural)]
pub enum ContractKind {
    /// The principal party borrows `amount` against the collateral and repays
    /// it with interest.
    Loan,
    /// The principal party lets the collateral for `amount` per day.
    Lease,
}

/// Where a contract stands in its lifecycle.
#[derive(Clone, Copy, Debug, PartialEq, Eq, Structural)]
pub enum ContractStatus {
    /// Listed, with the collateral in custody; no counterparty yet.
    Available,
    /// Funded (loan) or rented (lease) by a counterparty.
    Matched,
    /// Repaid; the collateral went back to the principal party.
    Settled,
    /// Claimed after default; the collateral went to the claiming party.
    Defaulted,
    /// Withdrawn before any match; the collateral went back to the principal party.
    Cancelled,
}

/// A non-fungible asset: the registry that records it and its id there.
#[derive(Clone, Copy, Debug, PartialEq, Eq)]
pub struct Collateral {
    pub registry: AccountId,
    pub token_id: u32,
}

/// What the principal party offers when listing a contract.
#[derive(Clone, Copy, Debug, PartialEq, Eq)]
pub struct Terms {
    pub kind: ContractKind,
    pub collateral: Collateral,
    /// The account that receives the counterparty's payments.
    pub beneficiary: AccountId,
    /// The principal (loan) or the rent per day (lease).
    pub amount: u128,
    /// The loan's term or the lease's nominal term, in milliseconds.
    pub duration: u64,
}

/// One loan or lease.
#[derive(Clone, Copy, Debug, PartialEq, Eq)]
pub struct Contract {
    /// Assigned in sequence from zero, never reused.
    pub id: u64,
    pub kind: ContractKind,
    pub collateral: Collateral,
    /// The party that posted the collateral: the borrower of a loan, the
    /// investor of a lease.
    pub principal_party: AccountId,
    /// The party that matched the contract: the investor of a loan, the renter
    /// of a lease.
    pub counterparty: Option<AccountId>,
    pub beneficiary: AccountId,
    /// The principal (loan) or the rent per day (lease).
    pub amount: u128,
    /// The yearly interest rate in whole percent fixed at listing (loans; zero
    /// for leases).
    pub rate: u64,
    /// The term in milliseconds.
    pub duration: u64,
    pub created_at: u64,
    pub matched_at: Option<u64>,
    /// Leases: the time through which rent has been paid.
    pub paid_until: Option<u64>,
    /// Leases: the time of the last rent payment, the first day's included.
    pub last_paid_at: Option<u64>,
    /// Loans: the time of repayment.
    pub settled_at: Option<u64>,
    pub status: ContractStatus,
}

/// Whether a counterparty has joined the contract.
pub open spec fn is_engaged(status: ContractStatus) -> bool {
    status == ContractStatus::Matched || status == ContractStatus::Settled || status
        == ContractStatus::Defaulted
}

/// The invariants of one record.
pub open spec fn record_wf(c: Contract) -> bool {
    &&& c.counterparty.is_some() == is_engaged(c.status)
    &&& c.matched_at.is_some() == is_engaged(c.status)
    &&& c.paid_until.is_some() == (c.kind == ContractKind::Lease && is_engaged(c.status))
    &&& c.last_paid_at.is_some() == (c.kind == ContractKind::Lease && is_engaged(c.status))
    &&& c.settled_at.is_some() == (c.status == ContractStatus::Settled)
    &&& c.status == ContractStatus::Settled ==> c.kind == ContractKind::Loan
    &&& c.kind == ContractKind::Lease ==> c.rate == 0
}

/// The invariants of the whole sequence of records: each record is valid and
/// stands at the index of its id.
pub open spec fn records_wf(records: Seq<Contract>) -> bool {
    &&& records.len() <= u64::MAX
    &&& forall|i: int| 0 <= i < records.len() ==> (#[trigger] records[i]).id == i && record_wf(records[i])
}

/// The record with id `id`, if there is one.
pub open spec fn lookup(records: Seq<Contract>, id: u64) -> Option<Contract> {
    if id < records.len() {
        Some(records[id as int])
    } else {
        None
    }
}

} // verus!
