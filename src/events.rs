//! The notifications that the engine's transitions produce, for the host to emit.
use vstd::prelude::*;

use crate::account::AccountId;
use crate::contract::{Contract, ContractKind};

verus! {

/// A loan was listed.
#[derive(Clone, Copy, Debug, PartialEq, Eq)]
pub struct LoanListed {
    pub borrower: AccountId,
    pub nft_address: AccountId,
    pub token_id: u32,
    pub beneficiary_address: AccountId,
    pub amount: u128,
    pub loan_duration: u64,
    pub loan_id: u64,
}

/// An investor funded a loan.
#[derive(Clone, Copy, Debug, PartialEq, Eq)]
pub struct LoanBorrowed {
    pub investor: AccountId,
    pub loan_id: u64,
    pub nft_address: AccountId,
    pub token_id: u32,
}

/// A borrower repaid a loan and took the collateral back.
#[derive(Clone, Copy, Debug, PartialEq, Eq)]
pub struct LoanRepaid {
    pub borrower: AccountId,
    pub loan_id: u64,
    pub nft_address: AccountId,
    pub token_id: u32,
}

/// A borrower withdrew an unfunded loan.
#[derive(Clone, Copy, Debug, PartialEq, Eq)]
pub struct LoanExpired {
    pub borrower: AccountId,
    pub loan_id: u64,
    pub nft_address: AccountId,
    pub token_id: u32,
}

/// An investor claimed the collateral of an overdue loan.
#[derive(Clone, Copy, Debug, PartialEq, Eq)]
pub struct LoanLiquidated {
    pub investor: AccountId,
    pub loan_id: u64,
    pub nft_address: AccountId,
    pub token_id: u32,
}

/// A lease was listed.
#[derive(Clone, Copy, Debug, PartialEq, Eq)]
pub struct LeaseListed {
    pub investor: AccountId,
    pub nft_address: AccountId,
    pub lease_id: u64,
    pub token_id: u32,
    pub beneficiary_address: AccountId,
    pub daily_rent: u128,
    pub lease_duration: u64,
}

/// A renter took a lease and paid its first day.
#[derive(Clone, Copy, Debug, PartialEq, Eq)]
pub struct LeaseAvailed {
    pub renter: AccountId,
    pub lease_id: u64,
    pub nft_address: AccountId,
    pub token_id: u32,
}

/// A renter paid the rent that had fallen due.
#[derive(Clone, Copy, Debug, PartialEq, Eq)]
pub struct RentPaid {
    pub renter: AccountId,
    pub lease_id: u64,
    pub nft_address: AccountId,
    pub token_id: u32,
    pub rent_amount: u128,
}

/// An investor reclaimed the collateral of a lease in default.
#[derive(Clone, Copy, Debug, PartialEq, Eq)]
pub struct LeaseTermintated {
    pub investor: AccountId,
    pub lease_id: u64,
    pub nft_address: AccountId,
    pub token_id: u32,
}

/// An investor withdrew a lease that nobody rented.
#[derive(Clone, Copy, Debug, PartialEq, Eq)]
pub struct LeaseRemoved {
    pub investor: AccountId,
    pub lease_id: u64,
    pub nft_address: AccountId,
    pub token_id: u32,
}

/// The administrator enabled listing and matching.
#[derive(Clone, Copy, Debug, PartialEq, Eq)]
pub struct Enabled {}

/// The administrator disabled listing and matching.
#[derive(Clone, Copy, Debug, PartialEq, Eq)]
pub struct Disbaled {}

/// The administrator changed the rate that later loans take.
#[derive(Clone, Copy, Debug, PartialEq, Eq)]
pub struct InterestRateChanged {
    pub old_value: u64,
    pub new_value: u64,
}

/// The administrator handed the engine to a new owner.
#[derive(Clone, Copy, Debug, PartialEq, Eq)]
pub struct OwnershipTransferred {
    pub from: AccountId,
    pub to: AccountId,
}

/// What a lifecycle transition reports.
#[derive(Clone, Copy, Debug, PartialEq, Eq)]
pub enum Event {
    LoanListed(LoanListed),
    LeaseListed(LeaseListed),
    LoanBorrowed(LoanBorrowed),
    LeaseAvailed(LeaseAvailed),
    RentPaid(RentPaid),
    LoanRepaid(LoanRepaid),
    LoanLiquidated(LoanLiquidated),
    LeaseTermintated(LeaseTermintated),
    LoanExpired(LoanExpired),
    LeaseRemoved(LeaseRemoved),
}

/// The event of listing `c`.
pub open spec fn listed_event(c: Contract) -> Event {
    match c.kind {
        ContractKind::Loan => Event::LoanListed(
            LoanListed {
                borrower: c.principal_party,
                nft_address: c.collateral.registry,
                token_id: c.collateral.token_id,
                beneficiary_address: c.beneficiary,
                amount: c.amount,
                loan_duration: c.duration,
                loan_id: c.id,
            },
        ),
        ContractKind::Lease => Event::LeaseListed(
            LeaseListed {
                investor: c.principal_party,
                nft_address: c.collateral.registry,
                lease_id: c.id,
                token_id: c.collateral.token_id,
                beneficiary_address: c.beneficiary,
                daily_rent: c.amount,
                lease_duration: c.duration,
            },
        ),
    }
}

/// The event of `party` matching `c`.
pub open spec fn matched_event(c: Contract, party: AccountId) -> Event {
    match c.kind {
        ContractKind::Loan => Event::LoanBorrowed(
            LoanBorrowed {
                investor: party,
                loan_id: c.id,
                nft_address: c.collateral.registry,
                token_id: c.collateral.token_id,
            },
        ),
        ContractKind::Lease => Event::LeaseAvailed(
            LeaseAvailed {
                renter: party,
                lease_id: c.id,
                nft_address: c.collateral.registry,
                token_id: c.collateral.token_id,
            },
        ),
    }
}

/// The event of `party` paying `amount` of rent on `c`.
pub open spec fn rent_event(c: Contract, party: AccountId, amount: u128) -> Event {
    Event::RentPaid(
        RentPaid {
            renter: party,
            lease_id: c.id,
            nft_address: c.collateral.registry,
            token_id: c.collateral.token_id,
            rent_amount: amount,
        },
    )
}

/// The event of settling `c`.
pub open spec fn settled_event(c: Contract) -> Event {
    Event::LoanRepaid(
        LoanRepaid {
            borrower: c.principal_party,
            loan_id: c.id,
            nft_address: c.collateral.registry,
            token_id: c.collateral.token_id,
        },
    )
}

/// The event of `party` claiming the collateral of `c`.
pub open spec fn defaulted_event(c: Contract, party: AccountId) -> Event {
    match c.kind {
        ContractKind::Loan => Event::LoanLiquidated(
            LoanLiquidated {
                investor: party,
                loan_id: c.id,
                nft_address: c.collateral.registry,
                token_id: c.collateral.token_id,
            },
        ),
        ContractKind::Lease => Event::LeaseTermintated(
            LeaseTermintated {
                investor: party,
                lease_id: c.id,
                nft_address: c.collateral.registry,
                token_id: c.collateral.token_id,
            },
        ),
    }
}

/// The event of cancelling `c`.
pub open spec fn cancelled_event(c: Contract) -> Event {
    match c.kind {
        ContractKind::Loan => Event::LoanExpired(
            LoanExpired {
                borrower: c.principal_party,
                loan_id: c.id,
                nft_address: c.collateral.registry,
                token_id: c.collateral.token_id,
            },
        ),
        ContractKind::Lease => Event::LeaseRemoved(
            LeaseRemoved {
                investor: c.principal_party,
                lease_id: c.id,
                nft_address: c.collateral.registry,
                token_id: c.collateral.token_id,
            },
        ),
    }
}

pub fn make_listed_event(c: &Contract) -> (e: Event)
    ensures
        e == listed_event(*c),
{
    match c.kind {
        ContractKind::Loan => Event::LoanListed(
            LoanListed {
                borrower: c.principal_party,
                nft_address: c.collateral.registry,
                token_id: c.collateral.token_id,
                beneficiary_address: c.beneficiary,
                amount: c.amount,
                loan_duration: c.duration,
                loan_id: c.id,
            },
        ),
        ContractKind::Lease => Event::LeaseListed(
            LeaseListed {
                investor: c.principal_party,
                nft_address: c.collateral.registry,
                lease_id: c.id,
                token_id: c.collateral.token_id,
                beneficiary_address: c.beneficiary,
                daily_rent: c.amount,
                lease_duration: c.duration,
            },
        ),
    }
}

pub fn make_matched_event(c: &Contract, party: AccountId) -> (e: Event)
    ensures
        e == matched_event(*c, party),
{
    match c.kind {
        ContractKind::Loan => Event::LoanBorrowed(
            LoanBorrowed {
                investor: party,
                loan_id: c.id,
                nft_address: c.collateral.registry,
                token_id: c.collateral.token_id,
            },
        ),
        ContractKind::Lease => Event::LeaseAvailed(
            LeaseAvailed {
                renter: party,
                lease_id: c.id,
                nft_address: c.collateral.registry,
                token_id: c.collateral.token_id,
            },
        ),
    }
}

pub fn make_defaulted_event(c: &Contract, party: AccountId) -> (e: Event)
    ensures
        e == defaulted_event(*c, party),
{
    match c.kind {
        ContractKind::Loan => Event::LoanLiquidated(
            LoanLiquidated {
                investor: party,
                loan_id: c.id,
                nft_address: c.collateral.registry,
                token_id: c.collateral.token_id,
            },
        ),
        ContractKind::Lease => Event::LeaseTermintated(
            LeaseTermintated {
                investor: party,
                lease_id: c.id,
                nft_address: c.collateral.registry,
                token_id: c.collateral.token_id,
            },
        ),
    }
}

pub fn make_cancelled_event(c: &Contract) -> (e: Event)
    ensures
        e == cancelled_event(*c),
{
    match c.kind {
        ContractKind::Loan => Event::LoanExpired(
            LoanExpired {
                borrower: c.principal_party,
                loan_id: c.id,
                nft_address: c.collateral.registry,
                token_id: c.collateral.token_id,
            },
        ),
        ContractKind::Lease => Event::LeaseRemoved(
            LeaseRemoved {
                investor: c.principal_party,
                lease_id: c.id,
                nft_address: c.collateral.registry,
                token_id: c.collateral.token_id,
            },
        ),
    }
}

} // verus!
