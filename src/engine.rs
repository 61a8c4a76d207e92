//! The lifecycle engine: owns the registry and the administrative settings, and
//! runs each operation as a plan (what must be transferred) and a step (what the
//! transfers' outcomes make of the records).
use vstd::prelude::*;

use crate::account::AccountId;
use crate::accrual::{calculate_interest, ceil_days, days_elapsed, duration_in_days, DAY_MS};
use crate::contract::{
    lookup, records_wf, Contract, ContractKind, ContractStatus, Terms,
};
use crate::error::{Error, TransferError};
use crate::events::{
    make_cancelled_event, make_defaulted_event, make_listed_event, make_matched_event, Disbaled,
    Enabled, Event, InterestRateChanged, LoanRepaid, OwnershipTransferred, RentPaid,
};
use crate::model::{
    cancel_plan, cancel_step, liquidation_plan, liquidation_step, listing_plan, listing_step,
    loan_debt, match_plan, match_step, release_after, rent_plan, rent_step, settle_plan,
    settle_step, CollateralMove, Payment, RentDue, Settlement, GRACE_PERIODS,
};
use crate::registry::{
    counterparty_log_wf, id_range, ids_of, principal_entries, with_status, ContractRegistry,
    IndexEntry,
};

verus! {

/// The administrative settings: who may change them, the rate that new loans
/// take, and whether listing and matching are open.
#[derive(Clone, Copy, Debug, PartialEq, Eq)]
pub struct Administration {
    pub owner: AccountId,
    pub interest_rate: u64,
    pub enabled: bool,
}

/// Whether `balance`, as the ledger reports it for the payer, covers `payment`;
/// checked before the payment is attempted.
pub fn check_balance(payment: &Payment, balance: u128) -> (r: Result<(), Error>)
    ensures
        balance < payment.amount ==> r == Err::<(), Error>(Error::InsufficientBalance),
        balance >= payment.amount ==> r == Ok::<(), Error>(()),
{
    if balance < payment.amount {
        Err(Error::InsufficientBalance)
    } else {
        Ok(())
    }
}

fn same_party(a: Option<AccountId>, b: AccountId) -> (r: bool)
    ensures
        r == (a == Some(b)),
{
    match a {
        Some(x) => x == b,
        None => false,
    }
}

/// The engine. Every contract's collateral is in the custody account while the
/// contract is Available or Matched.
pub struct ContractEngine {
    admin: Administration,
    custody: AccountId,
    registry: ContractRegistry,
}

impl ContractEngine {
    pub closed spec fn admin(&self) -> Administration {
        self.admin
    }

    /// The account that holds the collateral of open contracts.
    pub closed spec fn custody(&self) -> AccountId {
        self.custody
    }

    pub closed spec fn records(&self) -> Seq<Contract> {
        self.registry.records()
    }

    pub closed spec fn principal_log(&self) -> Seq<IndexEntry> {
        self.registry.principal_log()
    }

    pub closed spec fn counterparty_log(&self) -> Seq<IndexEntry> {
        self.registry.counterparty_log()
    }

    pub closed spec fn wf(&self) -> bool {
        self.registry.wf()
    }

    /// What a well-formed engine guarantees of its records and indexes.
    pub proof fn lemma_wf(&self)
        requires
            self.wf(),
        ensures
            records_wf(self.records()),
            self.principal_log() == principal_entries(self.records()),
            counterparty_log_wf(self.records(), self.counterparty_log()),
    {
        self.registry.lemma_wf();
    }

    /// An engine with no contracts, owned by `owner`, holding collateral in `custody`.
    pub fn new(owner: AccountId, custody: AccountId, interest_rate: u64, enabled: bool) -> (r:
        ContractEngine)
        ensures
            r.wf(),
            r.admin() == (Administration { owner, interest_rate, enabled }),
            r.custody() == custody,
            r.records() == Seq::<Contract>::empty(),
            r.counterparty_log() == Seq::<IndexEntry>::empty(),
    {
        ContractEngine {
            admin: Administration { owner, interest_rate, enabled },
            custody,
            registry: ContractRegistry::new(),
        }
    }

    // -----------------------------------------------------------------------
    // Administration
    // -----------------------------------------------------------------------

    pub fn is_owner(&self, caller: AccountId) -> (r: bool)
        ensures
            r == (caller == self.admin().owner),
    {
        caller == self.admin.owner
    }

    pub fn get_owner(&self) -> (r: AccountId)
        ensures
            r == self.admin().owner,
    {
        self.admin.owner
    }

    pub fn is_enabled(&self) -> (r: bool)
        ensures
            r == self.admin().enabled,
    {
        self.admin.enabled
    }

    pub fn get_interest_rate(&self) -> (r: u64)
        ensures
            r == self.admin().interest_rate,
    {
        self.admin.interest_rate
    }

    /// Hands the engine to `new_owner`; only the owner may.
    pub fn transfer_ownership(&mut self, caller: AccountId, new_owner: AccountId) -> (r: Result<
        OwnershipTransferred,
        Error,
    >)
        ensures
            final(self).records() == old(self).records(),
            final(self).custody() == old(self).custody(),
            final(self).counterparty_log() == old(self).counterparty_log(),
            final(self).principal_log() == old(self).principal_log(),
            final(self).wf() == old(self).wf(),
            caller != old(self).admin().owner ==> r == Err::<OwnershipTransferred, Error>(
                Error::Unauthorized,
            ) && final(self).admin() == old(self).admin(),
            caller == old(self).admin().owner ==> r == Ok::<OwnershipTransferred, Error>(
                OwnershipTransferred { from: caller, to: new_owner },
            ) && final(self).admin() == (Administration { owner: new_owner, ..old(self).admin() }),
    {
        if caller != self.admin.owner {
            return Err(Error::Unauthorized);
        }
        self.admin.owner = new_owner;
        Ok(OwnershipTransferred { from: caller, to: new_owner })
    }

    /// Opens listing and matching; only the owner may.
    pub fn enable(&mut self, caller: AccountId) -> (r: Result<Enabled, Error>)
        ensures
            final(self).records() == old(self).records(),
            final(self).custody() == old(self).custody(),
            final(self).counterparty_log() == old(self).counterparty_log(),
            final(self).principal_log() == old(self).principal_log(),
            final(self).wf() == old(self).wf(),
            caller != old(self).admin().owner ==> r == Err::<Enabled, Error>(Error::Unauthorized)
                && final(self).admin() == old(self).admin(),
            caller == old(self).admin().owner ==> r == Ok::<Enabled, Error>(Enabled {  })
                && final(self).admin() == (Administration { enabled: true, ..old(self).admin() }),
    {
        if caller != self.admin.owner {
            return Err(Error::Unauthorized);
        }
        self.admin.enabled = true;
        Ok(Enabled {  })
    }

    /// Closes listing and matching; open contracts can still be repaid, paid,
    /// claimed and cancelled. Only the owner may.
    pub fn disable(&mut self, caller: AccountId) -> (r: Result<Disbaled, Error>)
        ensures
            final(self).records() == old(self).records(),
            final(self).custody() == old(self).custody(),
            final(self).counterparty_log() == old(self).counterparty_log(),
            final(self).principal_log() == old(self).principal_log(),
            final(self).wf() == old(self).wf(),
            caller != old(self).admin().owner ==> r == Err::<Disbaled, Error>(Error::Unauthorized)
                && final(self).admin() == old(self).admin(),
            caller == old(self).admin().owner ==> r == Ok::<Disbaled, Error>(Disbaled {  })
                && final(self).admin() == (Administration { enabled: false, ..old(self).admin() }),
    {
        if caller != self.admin.owner {
            return Err(Error::Unauthorized);
        }
        self.admin.enabled = false;
        Ok(Disbaled {  })
    }

    /// Sets the rate that loans listed from now on take; listed loans keep
    /// theirs. Only the owner may.
    pub fn set_interest_rate(&mut self, caller: AccountId, interest_rate: u64) -> (r: Result<
        InterestRateChanged,
        Error,
    >)
        ensures
            final(self).records() == old(self).records(),
            final(self).custody() == old(self).custody(),
            final(self).counterparty_log() == old(self).counterparty_log(),
            final(self).principal_log() == old(self).principal_log(),
            final(self).wf() == old(self).wf(),
            caller != old(self).admin().owner ==> r == Err::<InterestRateChanged, Error>(
                Error::Unauthorized,
            ) && final(self).admin() == old(self).admin(),
            caller == old(self).admin().owner ==> r == Ok::<InterestRateChanged, Error>(
                InterestRateChanged {
                    old_value: old(self).admin().interest_rate,
                    new_value: interest_rate,
                },
            ) && final(self).admin() == (Administration {
                interest_rate,
                ..old(self).admin()
            }),
    {
        if caller != self.admin.owner {
            return Err(Error::Unauthorized);
        }
        let previous = self.admin.interest_rate;
        self.admin.interest_rate = interest_rate;
        Ok(InterestRateChanged { old_value: previous, new_value: interest_rate })
    }
}


impl ContractEngine {
    // -----------------------------------------------------------------------
    // List
    // -----------------------------------------------------------------------

    /// The collateral move that listing `terms` needs: from the caller into
    /// custody. Refused while the engine is disabled or every id is taken.
    pub fn plan_listing(&self, caller: AccountId, terms: Terms) -> (r: Result<CollateralMove, Error>)
        requires
            self.wf(),
        ensures
            r == listing_plan(self.admin().enabled, self.records().len(), terms, caller, self.custody()),
    {
        if !self.admin.enabled {
            return Err(Error::NotEnabled);
        }
        if self.registry.len() >= u64::MAX {
            return Err(Error::ArithmeticOverflow);
        }
        Ok(CollateralMove { collateral: terms.collateral, from: caller, to: self.custody })
    }

    /// Lists a contract on `terms` for `caller`, given the outcome of moving the
    /// collateral into custody. The record is created only when that move
    /// succeeded; a loan takes the current interest rate.
    pub fn list_token(
        &mut self,
        caller: AccountId,
        terms: Terms,
        now: u64,
        transfer: Result<(), TransferError>,
    ) -> (r: Result<Event, Error>)
        requires
            old(self).wf(),
        ensures
            final(self).wf(),
            final(self).admin() == old(self).admin(),
            final(self).custody() == old(self).custody(),
            final(self).counterparty_log() == old(self).counterparty_log(),
            (final(self).records(), r) == listing_step(
                old(self).admin().enabled,
                old(self).records(),
                terms,
                caller,
                old(self).custody(),
                old(self).admin().interest_rate,
                now,
                transfer,
            ),
    {
        self.plan_listing(caller, terms)?;
        if transfer.is_err() {
            return Err(Error::CollateralTransferFailed);
        }
        let rate = match terms.kind {
            ContractKind::Loan => self.admin.interest_rate,
            ContractKind::Lease => 0,
        };
        let record = Contract {
            id: 0,
            kind: terms.kind,
            collateral: terms.collateral,
            principal_party: caller,
            counterparty: None,
            beneficiary: terms.beneficiary,
            amount: terms.amount,
            rate,
            duration: terms.duration,
            created_at: now,
            matched_at: None,
            paid_until: None,
            last_paid_at: None,
            settled_at: None,
            status: ContractStatus::Available,
        };
        let id = self.registry.create(record)?;
        let created = Contract { id, ..record };
        Ok(make_listed_event(&created))
    }

    // -----------------------------------------------------------------------
    // Match
    // -----------------------------------------------------------------------

    /// The payment that matching contract `id` needs: the principal (loan) or
    /// the first day's rent (lease), from the caller to the beneficiary.
    pub fn plan_match(&self, id: u64, caller: AccountId, now: u64) -> (r: Result<Payment, Error>)
        requires
            self.wf(),
        ensures
            r == match_plan(self.admin().enabled, self.records(), id, caller, now),
    {
        if !self.admin.enabled {
            return Err(Error::NotEnabled);
        }
        let c = match self.registry.get(id) {
            Some(c) => c,
            None => {
                return Err(Error::NotFound);
            },
        };
        if c.status != ContractStatus::Available {
            return Err(Error::InvalidState);
        }
        if c.kind == ContractKind::Lease && now > u64::MAX - DAY_MS {
            return Err(Error::ArithmeticOverflow);
        }
        Ok(Payment { from: caller, to: c.beneficiary, amount: c.amount })
    }

    /// Matches contract `id` with `caller` as counterparty, given the outcome of
    /// the payment that `plan_match` named. Nothing changes unless the payment
    /// succeeded; then the contract is Matched at `now`, a lease is paid through
    /// `now` plus one day with its last payment at `now`, and the counterparty
    /// index gains a line. A refused payment gives `PaymentTransferFailed`.
    pub fn match_contract(
        &mut self,
        id: u64,
        caller: AccountId,
        now: u64,
        payment: Result<(), TransferError>,
    ) -> (r: Result<Event, Error>)
        requires
            old(self).wf(),
        ensures
            final(self).wf(),
            final(self).admin() == old(self).admin(),
            final(self).custody() == old(self).custody(),
            (final(self).records(), r) == match_step(
                old(self).admin().enabled,
                old(self).records(),
                id,
                caller,
                now,
                payment,
            ),
            r is Ok ==> final(self).counterparty_log() == old(self).counterparty_log().push(
                IndexEntry { party: caller, id },
            ),
            r is Err ==> final(self).counterparty_log() == old(self).counterparty_log(),
    {
        proof {
            self.registry.lemma_wf();
        }
        self.plan_match(id, caller, now)?;
        if payment.is_err() {
            return Err(Error::PaymentTransferFailed);
        }
        let c = self.registry.get(id).unwrap();
        let (paid_until, last_paid_at) = match c.kind {
            ContractKind::Lease => (Some(now + DAY_MS), Some(now)),
            ContractKind::Loan => (None, None),
        };
        let matched = Contract {
            counterparty: Some(caller),
            matched_at: Some(now),
            paid_until,
            last_paid_at,
            status: ContractStatus::Matched,
            ..c
        };
        let _ = self.registry.update(id, matched);
        Ok(make_matched_event(&c, caller))
    }

    // -----------------------------------------------------------------------
    // Pay rent
    // -----------------------------------------------------------------------

    /// The rent due on lease `id`: every day started since `paid_until` at the
    /// daily rent, from the renter to the beneficiary. Only the renter may pay.
    pub fn plan_rent_payment(&self, id: u64, caller: AccountId, now: u64) -> (r: Result<
        RentDue,
        Error,
    >)
        requires
            self.wf(),
        ensures
            r == rent_plan(self.records(), id, caller, now),
    {
        proof {
            self.registry.lemma_wf();
        }
        let c = match self.registry.get(id) {
            Some(c) => c,
            None => {
                return Err(Error::NotFound);
            },
        };
        if !same_party(c.counterparty, caller) {
            return Err(Error::Unauthorized);
        }
        if c.kind != ContractKind::Lease || c.status != ContractStatus::Matched {
            return Err(Error::InvalidState);
        }
        let paid_until = c.paid_until.unwrap();
        let days: u64 = if now > paid_until {
            match days_elapsed(now, paid_until) {
                Ok(d) => d,
                Err(e) => {
                    return Err(e);
                },
            }
        } else {
            0
        };
        let amount = match (days as u128).checked_mul(c.amount) {
            Some(a) => a,
            None => {
                return Err(Error::ArithmeticOverflow);
            },
        };
        assert(days * DAY_MS <= u128::MAX) by (nonlinear_arith)
            requires
                days <= u64::MAX,
        ;
        let advance: u128 = days as u128 * DAY_MS as u128;
        if paid_until as u128 + advance > u64::MAX as u128 {
            return Err(Error::ArithmeticOverflow);
        }
        Ok(RentDue { payment: Payment { from: caller, to: c.beneficiary, amount }, periods: days })
    }

    /// Records a rent payment on lease `id`, given the outcome of the payment
    /// that `plan_rent_payment` named: `paid_until` moves on by exactly the days
    /// paid for and the last payment is at `now`. Nothing changes unless the
    /// payment succeeded.
    pub fn pay_rent(
        &mut self,
        id: u64,
        caller: AccountId,
        now: u64,
        payment: Result<(), TransferError>,
    ) -> (r: Result<Event, Error>)
        requires
            old(self).wf(),
        ensures
            final(self).wf(),
            final(self).admin() == old(self).admin(),
            final(self).custody() == old(self).custody(),
            final(self).counterparty_log() == old(self).counterparty_log(),
            (final(self).records(), r) == rent_step(old(self).records(), id, caller, now, payment),
    {
        proof {
            self.registry.lemma_wf();
        }
        let due = self.plan_rent_payment(id, caller, now)?;
        if payment.is_err() {
            return Err(Error::PaymentTransferFailed);
        }
        let c = self.registry.get(id).unwrap();
        let paid_until = c.paid_until.unwrap() + due.periods * DAY_MS;
        let paid = Contract { paid_until: Some(paid_until), last_paid_at: Some(now), ..c };
        let _ = self.registry.update(id, paid);
        Ok(
            Event::RentPaid(
                RentPaid {
                    renter: caller,
                    lease_id: c.id,
                    nft_address: c.collateral.registry,
                    token_id: c.collateral.token_id,
                    rent_amount: due.payment.amount,
                },
            ),
        )
    }

    // -----------------------------------------------------------------------
    // Settle
    // -----------------------------------------------------------------------

    /// The transfers that repay loan `id` at `now`: the principal and the
    /// interest since funding from the borrower to the investor, then the
    /// collateral from custody back to the borrower. Only the borrower may repay.
    pub fn plan_settlement(&self, id: u64, caller: AccountId, now: u64) -> (r: Result<
        Settlement,
        Error,
    >)
        requires
            self.wf(),
        ensures
            r == settle_plan(self.records(), self.custody(), id, caller, now),
    {
        proof {
            self.registry.lemma_wf();
        }
        let c = match self.registry.get(id) {
            Some(c) => c,
            None => {
                return Err(Error::NotFound);
            },
        };
        if c.principal_party != caller {
            return Err(Error::Unauthorized);
        }
        if c.kind != ContractKind::Loan || c.status != ContractStatus::Matched {
            return Err(Error::InvalidState);
        }
        let total = Self::debt_of(&c, now)?;
        Ok(
            Settlement {
                payment: Payment { from: caller, to: c.counterparty.unwrap(), amount: total },
                release: CollateralMove { collateral: c.collateral, from: self.custody, to: caller },
            },
        )
    }

    /// The collateral release to make after the payment of `plan`: the plan's
    /// release once the payment succeeded, none after a failed payment.
    pub fn release_after_payment(plan: &Settlement, payment: Result<(), TransferError>) -> (r:
        Option<CollateralMove>)
        ensures
            r == release_after(*plan, payment),
    {
        match payment {
            Ok(()) => Some(plan.release),
            Err(_) => None,
        }
    }

    fn debt_of(c: &Contract, now: u64) -> (r: Result<u128, Error>)
        requires
            c.matched_at.is_some(),
        ensures
            r == loan_debt(*c, now),
    {
        let start = c.matched_at.unwrap();
        let interest = calculate_interest(c.amount, c.rate, now, start)?;
        match c.amount.checked_add(interest) {
            Some(total) => Ok(total),
            None => Err(Error::ArithmeticOverflow),
        }
    }

    /// Settles loan `id`, given the outcomes of the two transfers that
    /// `plan_settlement` named. The release is attempted only after the payment
    /// succeeded (`release_after_payment` names it); `release` is read only then.
    /// The loan is Settled at `now` only when both succeeded.
    pub fn settle(
        &mut self,
        id: u64,
        caller: AccountId,
        now: u64,
        payment: Result<(), TransferError>,
        release: Result<(), TransferError>,
    ) -> (r: Result<Event, Error>)
        requires
            old(self).wf(),
        ensures
            final(self).wf(),
            final(self).admin() == old(self).admin(),
            final(self).custody() == old(self).custody(),
            final(self).counterparty_log() == old(self).counterparty_log(),
            (final(self).records(), r) == settle_step(
                old(self).records(),
                old(self).custody(),
                id,
                caller,
                now,
                payment,
                release,
            ),
    {
        proof {
            self.registry.lemma_wf();
        }
        self.plan_settlement(id, caller, now)?;
        if payment.is_err() {
            return Err(Error::PaymentTransferFailed);
        }
        if release.is_err() {
            return Err(Error::CollateralTransferFailed);
        }
        let c = self.registry.get(id).unwrap();
        let settled = Contract { status: ContractStatus::Settled, settled_at: Some(now), ..c };
        let _ = self.registry.update(id, settled);
        Ok(
            Event::LoanRepaid(
                LoanRepaid {
                    borrower: c.principal_party,
                    loan_id: c.id,
                    nft_address: c.collateral.registry,
                    token_id: c.collateral.token_id,
                },
            ),
        )
    }

    // -----------------------------------------------------------------------
    // Liquidate
    // -----------------------------------------------------------------------

    /// The collateral move that claims contract `id` for `caller`: from custody
    /// to the claimant. A loan may be claimed by its investor once its term is
    /// over; a lease by its investor once the rent is unpaid beyond the grace
    /// window and the nominal term is over.
    pub fn plan_liquidation(&self, id: u64, caller: AccountId, now: u64) -> (r: Result<
        CollateralMove,
        Error,
    >)
        requires
            self.wf(),
        ensures
            r == liquidation_plan(self.records(), self.custody(), id, caller, now),
    {
        proof {
            self.registry.lemma_wf();
        }
        let c = match self.registry.get(id) {
            Some(c) => c,
            None => {
                return Err(Error::NotFound);
            },
        };
        let entitled = match c.kind {
            ContractKind::Loan => same_party(c.counterparty, caller),
            ContractKind::Lease => c.principal_party == caller,
        };
        if !entitled {
            return Err(Error::Unauthorized);
        }
        if c.status != ContractStatus::Matched {
            return Err(Error::InvalidState);
        }
        if c.kind == ContractKind::Lease {
            let paid_until = c.paid_until.unwrap();
            if !((paid_until as u128) + (GRACE_PERIODS as u128) * (DAY_MS as u128) < now as u128) {
                return Err(Error::NotInDefault);
            }
        }
        let matched_at = c.matched_at.unwrap();
        if !((matched_at as u128) + (c.duration as u128) < now as u128) {
            return Err(Error::TermNotOver);
        }
        Ok(CollateralMove { collateral: c.collateral, from: self.custody, to: caller })
    }

    /// Claims contract `id` for `caller`, given the outcome of the collateral
    /// move that `plan_liquidation` named. The contract is Defaulted only when
    /// the move succeeded.
    pub fn liquidate(
        &mut self,
        id: u64,
        caller: AccountId,
        now: u64,
        release: Result<(), TransferError>,
    ) -> (r: Result<Event, Error>)
        requires
            old(self).wf(),
        ensures
            final(self).wf(),
            final(self).admin() == old(self).admin(),
            final(self).custody() == old(self).custody(),
            final(self).counterparty_log() == old(self).counterparty_log(),
            (final(self).records(), r) == liquidation_step(
                old(self).records(),
                old(self).custody(),
                id,
                caller,
                now,
                release,
            ),
    {
        proof {
            self.registry.lemma_wf();
        }
        self.plan_liquidation(id, caller, now)?;
        if release.is_err() {
            return Err(Error::CollateralTransferFailed);
        }
        let c = self.registry.get(id).unwrap();
        let defaulted = Contract { status: ContractStatus::Defaulted, ..c };
        let _ = self.registry.update(id, defaulted);
        Ok(make_defaulted_event(&c, caller))
    }

    // -----------------------------------------------------------------------
    // Cancel
    // -----------------------------------------------------------------------

    /// The collateral move that withdraws contract `id`: from custody back to
    /// its principal party, who alone may withdraw it, and only before a match.
    pub fn plan_cancellation(&self, id: u64, caller: AccountId) -> (r: Result<
        CollateralMove,
        Error,
    >)
        requires
            self.wf(),
        ensures
            r == cancel_plan(self.records(), self.custody(), id, caller),
    {
        let c = match self.registry.get(id) {
            Some(c) => c,
            None => {
                return Err(Error::NotFound);
            },
        };
        if c.principal_party != caller {
            return Err(Error::Unauthorized);
        }
        if c.status != ContractStatus::Available {
            return Err(Error::InvalidState);
        }
        Ok(CollateralMove { collateral: c.collateral, from: self.custody, to: caller })
    }

    /// Withdraws contract `id`, given the outcome of the collateral move that
    /// `plan_cancellation` named. The contract is Cancelled only when the move
    /// succeeded.
    pub fn cancel(&mut self, id: u64, caller: AccountId, release: Result<(), TransferError>) -> (r:
        Result<Event, Error>)
        requires
            old(self).wf(),
        ensures
            final(self).wf(),
            final(self).admin() == old(self).admin(),
            final(self).custody() == old(self).custody(),
            final(self).counterparty_log() == old(self).counterparty_log(),
            (final(self).records(), r) == cancel_step(
                old(self).records(),
                old(self).custody(),
                id,
                caller,
                release,
            ),
    {
        proof {
            self.registry.lemma_wf();
        }
        self.plan_cancellation(id, caller)?;
        if release.is_err() {
            return Err(Error::CollateralTransferFailed);
        }
        let c = self.registry.get(id).unwrap();
        let cancelled = Contract { status: ContractStatus::Cancelled, ..c };
        let _ = self.registry.update(id, cancelled);
        Ok(make_cancelled_event(&c))
    }
}


/// Whether rent on `c` is due at `now`: a rented lease paid through a time
/// before `now`.
pub open spec fn rent_due(c: Contract, now: u64) -> bool {
    c.kind == ContractKind::Lease && c.status == ContractStatus::Matched && c.paid_until.unwrap()
        < now
}

impl ContractEngine {
    // -----------------------------------------------------------------------
    // Queries
    // -----------------------------------------------------------------------

    pub fn get_contract(&self, id: u64) -> (r: Result<Contract, Error>)
        requires
            self.wf(),
        ensures
            r == match lookup(self.records(), id) {
                Some(c) => Ok::<Contract, Error>(c),
                None => Err(Error::NotFound),
            },
    {
        match self.registry.get(id) {
            Some(c) => Ok(c),
            None => Err(Error::NotFound),
        }
    }

    /// Every contract, in id order.
    pub fn list_contracts(&self) -> (r: Vec<Contract>)
        requires
            self.wf(),
        ensures
            r@ == self.records(),
    {
        self.registry.all()
    }

    /// The contracts whose ids lie in `start..end`, in id order.
    pub fn list_contracts_paginated(&self, start: u64, end: u64) -> (r: Vec<Contract>)
        requires
            self.wf(),
        ensures
            r@ == id_range(self.records(), start, end),
    {
        self.registry.range(start, end)
    }

    /// The contracts with status `status`, in id order.
    pub fn list_by_status(&self, status: ContractStatus) -> (r: Vec<Contract>)
        requires
            self.wf(),
        ensures
            r@ == with_status(self.records(), status),
    {
        self.registry.with_status(status)
    }

    /// The ids of the contracts that `party` listed, in id order.
    pub fn ids_by_principal(&self, party: AccountId) -> (r: Vec<u64>)
        requires
            self.wf(),
        ensures
            r@ == ids_of(principal_entries(self.records()), party),
    {
        proof {
            self.registry.lemma_wf();
        }
        self.registry.ids_by_principal(party)
    }

    /// The ids of the contracts that `party` matched, in the order of matching.
    pub fn ids_by_counterparty(&self, party: AccountId) -> (r: Vec<u64>)
        requires
            self.wf(),
        ensures
            r@ == ids_of(self.counterparty_log(), party),
    {
        self.registry.ids_by_counterparty(party)
    }

    /// Whether rent on contract `id` is due at `now`.
    pub fn is_rent_due(&self, id: u64, now: u64) -> (r: Result<bool, Error>)
        requires
            self.wf(),
        ensures
            r == match lookup(self.records(), id) {
                Some(c) => Ok::<bool, Error>(rent_due(c, now)),
                None => Err(Error::NotFound),
            },
    {
        proof {
            self.registry.lemma_wf();
        }
        let c = match self.registry.get(id) {
            Some(c) => c,
            None => {
                return Err(Error::NotFound);
            },
        };
        if c.kind == ContractKind::Lease && c.status == ContractStatus::Matched {
            Ok(c.paid_until.unwrap() < now)
        } else {
            Ok(false)
        }
    }

    /// Days started since contract `id` was matched, counted as a lease counts
    /// them; zero before a match.
    pub fn get_lease_duration(&self, id: u64, now: u64) -> (r: Result<u64, Error>)
        requires
            self.wf(),
        ensures
            r == match lookup(self.records(), id) {
                None => Err(Error::NotFound),
                Some(c) => match c.matched_at {
                    None => Ok::<u64, Error>(0),
                    Some(t) => if now < t {
                        Err(Error::ArithmeticOverflow)
                    } else {
                        Ok(ceil_days((now - t) as nat) as u64)
                    },
                },
            },
    {
        let c = match self.registry.get(id) {
            Some(c) => c,
            None => {
                return Err(Error::NotFound);
            },
        };
        match c.matched_at {
            None => Ok(0),
            Some(t) => duration_in_days(now, t),
        }
    }

    /// What the borrower of loan `id` would owe at `now`: principal and interest.
    pub fn current_debt(&self, id: u64, now: u64) -> (r: Result<u128, Error>)
        requires
            self.wf(),
        ensures
            r == match lookup(self.records(), id) {
                None => Err(Error::NotFound),
                Some(c) => if c.kind != ContractKind::Loan || c.status != ContractStatus::Matched {
                    Err(Error::InvalidState)
                } else {
                    loan_debt(c, now)
                },
            },
    {
        proof {
            self.registry.lemma_wf();
        }
        let c = match self.registry.get(id) {
            Some(c) => c,
            None => {
                return Err(Error::NotFound);
            },
        };
        if c.kind != ContractKind::Loan || c.status != ContractStatus::Matched {
            return Err(Error::InvalidState);
        }
        Self::debt_of(&c, now)
    }
}

} // verus!
