//! The lifecycle of a contract as functions on the sequence of records.
//!
//! Each operation has a plan and a step. The plan validates the request against
//! the records and names the transfers the host must make; validation never
//! depends on a transfer, so a refused request causes none. The step takes the
//! transfers' outcomes and gives the new records and the operation's result: the
//! records change only when every transfer succeeded.
use vstd::prelude::*;

use crate::account::AccountId;
use crate::accrual::{ceil_days, interest_result, DAY_MS};
use crate::contract::{
    lookup, record_wf, records_wf, Collateral, Contract, ContractKind, ContractStatus, Terms,
};
use crate::error::{Error, TransferError};
use crate::events::{
    cancelled_event, defaulted_event, listed_event, matched_event, rent_event, settled_event, Event,
};

verus! {

/// Periods of unpaid rent that a lease tolerates before its investor may claim it.
pub const GRACE_PERIODS: u64 = 3;

/// A payment in the fungible token.
#[derive(Clone, Copy, Debug, PartialEq, Eq)]
pub struct Payment {
    pub from: AccountId,
    pub to: AccountId,
    pub amount: u128,
}

/// A move of a collateral asset.
#[derive(Clone, Copy, Debug, PartialEq, Eq)]
pub struct CollateralMove {
    pub collateral: Collateral,
    pub from: AccountId,
    pub to: AccountId,
}

/// The transfers that settle a loan, in the order they are made.
#[derive(Clone, Copy, Debug, PartialEq, Eq)]
pub struct Settlement {
    pub payment: Payment,
    pub release: CollateralMove,
}

/// The rent that has fallen due on a lease.
#[derive(Clone, Copy, Debug, PartialEq, Eq)]
pub struct RentDue {
    pub payment: Payment,
    /// Whole days paid for; `paid_until` moves on by that many days.
    pub periods: u64,
}

// ---------------------------------------------------------------------------
// List: creates an Available contract once the collateral is in custody
// ---------------------------------------------------------------------------

pub open spec fn new_record(id: u64, terms: Terms, caller: AccountId, rate: u64, now: u64) -> Contract {
    Contract {
        id,
        kind: terms.kind,
        collateral: terms.collateral,
        principal_party: caller,
        counterparty: None,
        beneficiary: terms.beneficiary,
        amount: terms.amount,
        rate: if terms.kind == ContractKind::Loan {
            rate
        } else {
            0
        },
        duration: terms.duration,
        created_at: now,
        matched_at: None,
        paid_until: None,
        last_paid_at: None,
        settled_at: None,
        status: ContractStatus::Available,
    }
}

pub open spec fn listing_plan(
    enabled: bool,
    count: nat,
    terms: Terms,
    caller: AccountId,
    custody: AccountId,
) -> Result<CollateralMove, Error> {
    if !enabled {
        Err(Error::NotEnabled)
    } else if count >= u64::MAX {
        Err(Error::ArithmeticOverflow)
    } else {
        Ok(CollateralMove { collateral: terms.collateral, from: caller, to: custody })
    }
}

pub open spec fn listing_step(
    enabled: bool,
    records: Seq<Contract>,
    terms: Terms,
    caller: AccountId,
    custody: AccountId,
    rate: u64,
    now: u64,
    transfer: Result<(), TransferError>,
) -> (Seq<Contract>, Result<Event, Error>) {
    match listing_plan(enabled, records.len(), terms, caller, custody) {
        Err(e) => (records, Err(e)),
        Ok(_) => match transfer {
            Err(_) => (records, Err(Error::CollateralTransferFailed)),
            Ok(_) => {
                let c = new_record(records.len() as u64, terms, caller, rate, now);
                (records.push(c), Ok(listed_event(c)))
            },
        },
    }
}

// ---------------------------------------------------------------------------
// Match: Available -> Matched once the first payment reached the beneficiary
// ---------------------------------------------------------------------------

pub open spec fn match_plan(
    enabled: bool,
    records: Seq<Contract>,
    id: u64,
    caller: AccountId,
    now: u64,
) -> Result<Payment, Error> {
    if !enabled {
        Err(Error::NotEnabled)
    } else {
        match lookup(records, id) {
            None => Err(Error::NotFound),
            Some(c) => if c.status != ContractStatus::Available {
                Err(Error::InvalidState)
            } else if c.kind == ContractKind::Lease && now + DAY_MS > u64::MAX {
                Err(Error::ArithmeticOverflow)
            } else {
                Ok(Payment { from: caller, to: c.beneficiary, amount: c.amount })
            },
        }
    }
}

pub open spec fn matched_record(c: Contract, caller: AccountId, now: u64) -> Contract {
    Contract {
        counterparty: Some(caller),
        matched_at: Some(now),
        paid_until: if c.kind == ContractKind::Lease {
            Some((now + DAY_MS) as u64)
        } else {
            None
        },
        last_paid_at: if c.kind == ContractKind::Lease {
            Some(now)
        } else {
            None
        },
        status: ContractStatus::Matched,
        ..c
    }
}

pub open spec fn match_step(
    enabled: bool,
    records: Seq<Contract>,
    id: u64,
    caller: AccountId,
    now: u64,
    payment: Result<(), TransferError>,
) -> (Seq<Contract>, Result<Event, Error>) {
    match match_plan(enabled, records, id, caller, now) {
        Err(e) => (records, Err(e)),
        Ok(_) => match payment {
            Err(_) => (records, Err(Error::PaymentTransferFailed)),
            Ok(_) => (
                records.update(id as int, matched_record(records[id as int], caller, now)),
                Ok(matched_event(records[id as int], caller)),
            ),
        },
    }
}

// ---------------------------------------------------------------------------
// Pay rent: Matched -> Matched, paid_until moves by the days paid
// ---------------------------------------------------------------------------

/// Started days since `paid_until`; none while it lies ahead.
pub open spec fn overdue_days(paid_until: u64, now: u64) -> nat {
    if now > paid_until {
        ceil_days((now - paid_until) as nat)
    } else {
        0
    }
}

pub open spec fn rent_plan(records: Seq<Contract>, id: u64, caller: AccountId, now: u64) -> Result<
    RentDue,
    Error,
> {
    match lookup(records, id) {
        None => Err(Error::NotFound),
        Some(c) => if c.counterparty != Some(caller) {
            Err(Error::Unauthorized)
        } else if c.kind != ContractKind::Lease || c.status != ContractStatus::Matched {
            Err(Error::InvalidState)
        } else {
            let days = overdue_days(c.paid_until.unwrap(), now);
            if days * c.amount > u128::MAX || c.paid_until.unwrap() + days * DAY_MS > u64::MAX {
                Err(Error::ArithmeticOverflow)
            } else {
                Ok(
                    RentDue {
                        payment: Payment {
                            from: caller,
                            to: c.beneficiary,
                            amount: (days * c.amount) as u128,
                        },
                        periods: days as u64,
                    },
                )
            }
        },
    }
}

pub open spec fn rent_paid_record(c: Contract, periods: u64, now: u64) -> Contract {
    Contract {
        paid_until: Some((c.paid_until.unwrap() + periods * DAY_MS) as u64),
        last_paid_at: Some(now),
        ..c
    }
}

pub open spec fn rent_step(
    records: Seq<Contract>,
    id: u64,
    caller: AccountId,
    now: u64,
    payment: Result<(), TransferError>,
) -> (Seq<Contract>, Result<Event, Error>) {
    match rent_plan(records, id, caller, now) {
        Err(e) => (records, Err(e)),
        Ok(due) => match payment {
            Err(_) => (records, Err(Error::PaymentTransferFailed)),
            Ok(_) => (
                records.update(id as int, rent_paid_record(records[id as int], due.periods, now)),
                Ok(rent_event(records[id as int], caller, due.payment.amount)),
            ),
        },
    }
}

// ---------------------------------------------------------------------------
// Settle: Matched -> Settled, payment before release
// ---------------------------------------------------------------------------

/// What the borrower owes at `now`: the principal and the interest since the
/// loan was funded.
pub open spec fn loan_debt(c: Contract, now: u64) -> Result<u128, Error> {
    let start = c.matched_at.unwrap();
    if now < start {
        Err(Error::ArithmeticOverflow)
    } else {
        match interest_result(c.amount, c.rate, ceil_days((now - start) as nat) as u64) {
            Err(e) => Err(e),
            Ok(interest) => if c.amount + interest > u128::MAX {
                Err(Error::ArithmeticOverflow)
            } else {
                Ok((c.amount + interest) as u128)
            },
        }
    }
}

pub open spec fn settle_plan(
    records: Seq<Contract>,
    custody: AccountId,
    id: u64,
    caller: AccountId,
    now: u64,
) -> Result<Settlement, Error> {
    match lookup(records, id) {
        None => Err(Error::NotFound),
        Some(c) => if c.principal_party != caller {
            Err(Error::Unauthorized)
        } else if c.kind != ContractKind::Loan || c.status != ContractStatus::Matched {
            Err(Error::InvalidState)
        } else {
            match loan_debt(c, now) {
                Err(e) => Err(e),
                Ok(total) => Ok(
                    Settlement {
                        payment: Payment { from: caller, to: c.counterparty.unwrap(), amount: total },
                        release: CollateralMove { collateral: c.collateral, from: custody, to: caller },
                    },
                ),
            }
        },
    }
}

/// The collateral release of a settlement: made only once the payment succeeded.
pub open spec fn release_after(plan: Settlement, payment: Result<(), TransferError>) -> Option<
    CollateralMove,
> {
    match payment {
        Ok(_) => Some(plan.release),
        Err(_) => None,
    }
}

pub open spec fn settled_record(c: Contract, now: u64) -> Contract {
    Contract { status: ContractStatus::Settled, settled_at: Some(now), ..c }
}

pub open spec fn settle_step(
    records: Seq<Contract>,
    custody: AccountId,
    id: u64,
    caller: AccountId,
    now: u64,
    payment: Result<(), TransferError>,
    release: Result<(), TransferError>,
) -> (Seq<Contract>, Result<Event, Error>) {
    match settle_plan(records, custody, id, caller, now) {
        Err(e) => (records, Err(e)),
        Ok(_) => match payment {
            Err(_) => (records, Err(Error::PaymentTransferFailed)),
            Ok(_) => match release {
                Err(_) => (records, Err(Error::CollateralTransferFailed)),
                Ok(_) => (
                    records.update(id as int, settled_record(records[id as int], now)),
                    Ok(settled_event(records[id as int])),
                ),
            },
        },
    }
}

// ---------------------------------------------------------------------------
// Liquidate: Matched -> Defaulted, the collateral goes to the claimant
// ---------------------------------------------------------------------------

/// The party that may claim the collateral: the investor of a loan (its
/// counterparty), the investor of a lease (its principal party).
pub open spec fn is_claimant(c: Contract, caller: AccountId) -> bool {
    match c.kind {
        ContractKind::Loan => c.counterparty == Some(caller),
        ContractKind::Lease => c.principal_party == caller,
    }
}

/// A lease is in default once its rent is unpaid for longer than the grace
/// window; a loan's claim rests on its term alone.
pub open spec fn in_default(c: Contract, now: u64) -> bool {
    c.kind == ContractKind::Loan || c.paid_until.unwrap() + GRACE_PERIODS * DAY_MS < now
}

pub open spec fn term_over(c: Contract, now: u64) -> bool {
    c.matched_at.unwrap() + c.duration < now
}

pub open spec fn liquidation_plan(
    records: Seq<Contract>,
    custody: AccountId,
    id: u64,
    caller: AccountId,
    now: u64,
) -> Result<CollateralMove, Error> {
    match lookup(records, id) {
        None => Err(Error::NotFound),
        Some(c) => if !is_claimant(c, caller) {
            Err(Error::Unauthorized)
        } else if c.status != ContractStatus::Matched {
            Err(Error::InvalidState)
        } else if !in_default(c, now) {
            Err(Error::NotInDefault)
        } else if !term_over(c, now) {
            Err(Error::TermNotOver)
        } else {
            Ok(CollateralMove { collateral: c.collateral, from: custody, to: caller })
        },
    }
}

pub open spec fn defaulted_record(c: Contract) -> Contract {
    Contract { status: ContractStatus::Defaulted, ..c }
}

pub open spec fn liquidation_step(
    records: Seq<Contract>,
    custody: AccountId,
    id: u64,
    caller: AccountId,
    now: u64,
    release: Result<(), TransferError>,
) -> (Seq<Contract>, Result<Event, Error>) {
    match liquidation_plan(records, custody, id, caller, now) {
        Err(e) => (records, Err(e)),
        Ok(_) => match release {
            Err(_) => (records, Err(Error::CollateralTransferFailed)),
            Ok(_) => (
                records.update(id as int, defaulted_record(records[id as int])),
                Ok(defaulted_event(records[id as int], caller)),
            ),
        },
    }
}

// ---------------------------------------------------------------------------
// Cancel: Available -> Cancelled, the collateral goes back
// ---------------------------------------------------------------------------

pub open spec fn cancel_plan(records: Seq<Contract>, custody: AccountId, id: u64, caller: AccountId) -> Result<
    CollateralMove,
    Error,
> {
    match lookup(records, id) {
        None => Err(Error::NotFound),
        Some(c) => if c.principal_party != caller {
            Err(Error::Unauthorized)
        } else if c.status != ContractStatus::Available {
            Err(Error::InvalidState)
        } else {
            Ok(CollateralMove { collateral: c.collateral, from: custody, to: caller })
        },
    }
}

pub open spec fn cancelled_record(c: Contract) -> Contract {
    Contract { status: ContractStatus::Cancelled, ..c }
}

pub open spec fn cancel_step(
    records: Seq<Contract>,
    custody: AccountId,
    id: u64,
    caller: AccountId,
    release: Result<(), TransferError>,
) -> (Seq<Contract>, Result<Event, Error>) {
    match cancel_plan(records, custody, id, caller) {
        Err(e) => (records, Err(e)),
        Ok(_) => match release {
            Err(_) => (records, Err(Error::CollateralTransferFailed)),
            Ok(_) => (
                records.update(id as int, cancelled_record(records[id as int])),
                Ok(cancelled_event(records[id as int])),
            ),
        },
    }
}

// ---------------------------------------------------------------------------
// Laws
// ---------------------------------------------------------------------------

/// Listing a contract and cancelling it before any match hands the collateral
/// from custody back to the party that listed it, and leaves the contract
/// Cancelled with no counterparty.
pub proof fn list_then_cancel_returns_collateral(
    records: Seq<Contract>,
    terms: Terms,
    caller: AccountId,
    custody: AccountId,
    rate: u64,
    now: u64,
)
    requires
        records_wf(records),
        records.len() < u64::MAX,
    ensures
        ({
            let listed = listing_step(true, records, terms, caller, custody, rate, now, Ok(())).0;
            let id = records.len() as u64;
            let cancelled = cancel_step(listed, custody, id, caller, Ok(()));
            &&& cancel_plan(listed, custody, id, caller) == Ok::<CollateralMove, Error>(
                CollateralMove { collateral: terms.collateral, from: custody, to: caller },
            )
            &&& cancelled.1 is Ok
            &&& cancelled.0[id as int].status == ContractStatus::Cancelled
            &&& cancelled.0[id as int].counterparty.is_none()
            &&& cancelled.0[id as int].principal_party == caller
        }),
{
}

/// A match takes effect only through a successful payment: when the payment
/// fails, the records stay as they were, so an Available contract stays
/// Available with no counterparty.
pub proof fn match_needs_payment(
    enabled: bool,
    records: Seq<Contract>,
    id: u64,
    caller: AccountId,
    now: u64,
    payment: Result<(), TransferError>,
)
    requires
        records_wf(records),
    ensures
        match_step(enabled, records, id, caller, now, payment).1 is Ok ==> payment is Ok,
        payment is Err ==> match_step(enabled, records, id, caller, now, payment).0 == records,
        payment is Err && match_plan(enabled, records, id, caller, now) is Ok ==> match_step(
            enabled,
            records,
            id,
            caller,
            now,
            payment,
        ).1 == Err::<Event, Error>(Error::PaymentTransferFailed),
        payment is Err && id < records.len() && records[id as int].status
            == ContractStatus::Available ==> ({
            let after = match_step(enabled, records, id, caller, now, payment).0;
            after[id as int].status == ContractStatus::Available
                && after[id as int].counterparty.is_none()
        }),
{
}

/// Settling a loan pays its investor, then releases the collateral from custody
/// to the principal party and marks the loan Settled at that time, keeping its
/// parties, amount and collateral; the release is made only after a successful
/// payment, and a failed payment changes nothing. Settling the same id again is
/// refused as InvalidState and changes nothing, whatever the transfers.
pub proof fn settled_loan_stays_settled(
    records: Seq<Contract>,
    custody: AccountId,
    id: u64,
    caller: AccountId,
    now: u64,
    later: u64,
    payment: Result<(), TransferError>,
    release: Result<(), TransferError>,
)
    requires
        records_wf(records),
        settle_plan(records, custody, id, caller, now) is Ok,
    ensures
        ({
            let plan = settle_plan(records, custody, id, caller, now)->Ok_0;
            let c = records[id as int];
            let after = settle_step(records, custody, id, caller, now, Ok(()), Ok(()));
            &&& plan.payment.to == c.counterparty.unwrap()
            &&& plan.release == CollateralMove {
                collateral: c.collateral,
                from: custody,
                to: c.principal_party,
            }
            &&& release_after(plan, Ok(())) == Some(plan.release)
            &&& (payment is Err ==> release_after(plan, payment) is None && settle_step(
                records,
                custody,
                id,
                caller,
                now,
                payment,
                release,
            ).0 == records)
            &&& after.1 is Ok
            &&& after.0 == records.update(id as int, settled_record(c, now))
            &&& after.0[id as int].status == ContractStatus::Settled
            &&& after.0[id as int].settled_at == Some(now)
            &&& after.0[id as int].principal_party == c.principal_party
            &&& after.0[id as int].counterparty == c.counterparty
            &&& after.0[id as int].amount == c.amount
            &&& after.0[id as int].collateral == c.collateral
            &&& settle_plan(after.0, custody, id, caller, later) == Err::<Settlement, Error>(
                Error::InvalidState,
            )
            &&& settle_step(after.0, custody, id, caller, later, payment, release) == (
                after.0,
                Err::<Event, Error>(Error::InvalidState),
            )
        }),
{
}

/// A claim on a contract is refused, whoever makes it, while the nominal term
/// has not elapsed, and for a lease also while the unpaid rent is within the
/// grace window; the records stay as they were.
pub proof fn early_claim_refused(
    records: Seq<Contract>,
    custody: AccountId,
    id: u64,
    caller: AccountId,
    now: u64,
    release: Result<(), TransferError>,
)
    requires
        records_wf(records),
        id < records.len(),
        !term_over(records[id as int], now) || (records[id as int].kind == ContractKind::Lease
            && !in_default(records[id as int], now)),
    ensures
        liquidation_plan(records, custody, id, caller, now) is Err,
        liquidation_step(records, custody, id, caller, now, release).0 == records,
{
}

/// The moves that the lifecycle allows: a status stays, or goes from Available
/// to Matched or Cancelled, or from Matched to Settled or Defaulted.
pub open spec fn allowed_move(from: ContractStatus, to: ContractStatus) -> bool {
    from == to || (from == ContractStatus::Available && (to == ContractStatus::Matched || to
        == ContractStatus::Cancelled)) || (from == ContractStatus::Matched && (to
        == ContractStatus::Settled || to == ContractStatus::Defaulted))
}

/// Whether `after` keeps every record of `before` at its id, each record valid
/// and moved along the lifecycle, and adds only new Available records.
pub open spec fn lifecycle_respected(before: Seq<Contract>, after: Seq<Contract>) -> bool {
    &&& records_wf(after)
    &&& before.len() <= after.len()
    &&& forall|i: int|
        0 <= i < before.len() ==> allowed_move(before[i].status, (#[trigger] after[i]).status)
            && after[i].principal_party == before[i].principal_party && after[i].collateral
            == before[i].collateral && (before[i].counterparty.is_some() ==> after[i].counterparty
            == before[i].counterparty)
    &&& forall|i: int|
        before.len() <= i < after.len() ==> (#[trigger] after[i]).status
            == ContractStatus::Available
}

/// Every step keeps the records valid, never reuses an id, never changes a
/// contract's principal party, collateral or counterparty once set, and moves
/// statuses only along the lifecycle; terminal statuses never change.
pub proof fn steps_respect_lifecycle(
    records: Seq<Contract>,
    enabled: bool,
    terms: Terms,
    custody: AccountId,
    rate: u64,
    id: u64,
    caller: AccountId,
    now: u64,
    first: Result<(), TransferError>,
    second: Result<(), TransferError>,
)
    requires
        records_wf(records),
    ensures
        lifecycle_respected(
            records,
            listing_step(enabled, records, terms, caller, custody, rate, now, first).0,
        ),
        lifecycle_respected(records, match_step(enabled, records, id, caller, now, first).0),
        lifecycle_respected(records, rent_step(records, id, caller, now, first).0),
        lifecycle_respected(
            records,
            settle_step(records, custody, id, caller, now, first, second).0,
        ),
        lifecycle_respected(records, liquidation_step(records, custody, id, caller, now, first).0),
        lifecycle_respected(records, cancel_step(records, custody, id, caller, first).0),
{
    let listed = listing_step(enabled, records, terms, caller, custody, rate, now, first).0;
    assert(lifecycle_respected(records, listed)) by {
        if listed.len() > records.len() {
            assert forall|i: int| 0 <= i < listed.len() implies (#[trigger] listed[i]).id == i
                && record_wf(listed[i]) by {
                if i < records.len() {
                    assert(listed[i] == records[i]);
                }
            }
        }
    }
}

/// Collateral custody: listing moves the asset from the listing party into
/// custody; only the three transitions into a terminal status move it out, each
/// from custody to one party (the principal party on settlement and
/// cancellation, the claimant on default); matching and paying rent move no
/// collateral.
pub proof fn collateral_leaves_custody_only_at_the_end(
    records: Seq<Contract>,
    enabled: bool,
    terms: Terms,
    custody: AccountId,
    id: u64,
    caller: AccountId,
    now: u64,
)
    requires
        records_wf(records),
    ensures
        listing_plan(enabled, records.len(), terms, caller, custody) is Ok ==> listing_plan(
            enabled,
            records.len(),
            terms,
            caller,
            custody,
        )->Ok_0 == (CollateralMove { collateral: terms.collateral, from: caller, to: custody }),
        settle_plan(records, custody, id, caller, now) is Ok ==> ({
            let c = records[id as int];
            &&& c.status == ContractStatus::Matched
            &&& settle_plan(records, custody, id, caller, now)->Ok_0.release == CollateralMove {
                collateral: c.collateral,
                from: custody,
                to: c.principal_party,
            }
        }),
        liquidation_plan(records, custody, id, caller, now) is Ok ==> ({
            let c = records[id as int];
            &&& c.status == ContractStatus::Matched
            &&& is_claimant(c, caller)
            &&& liquidation_plan(records, custody, id, caller, now)->Ok_0 == CollateralMove {
                collateral: c.collateral,
                from: custody,
                to: caller,
            }
        }),
        cancel_plan(records, custody, id, caller) is Ok ==> ({
            let c = records[id as int];
            &&& c.status == ContractStatus::Available
            &&& cancel_plan(records, custody, id, caller)->Ok_0 == CollateralMove {
                collateral: c.collateral,
                from: custody,
                to: c.principal_party,
            }
        }),
{
}

} // verus!
