use credit_engine::{
    check_balance, AccountId, Collateral, CollateralMove, ContractEngine, ContractKind, ContractStatus, Error,
    Event, LeaseAvailed, LoanBorrowed, LoanListed, Payment, RentPaid, Terms, TransferError,
};

const DAY: u64 = 86_400_000;
const UNIT: u128 = 1_000_000_000_000;

fn account(b: u8) -> AccountId {
    AccountId::new([b; 32])
}

fn owner() -> AccountId {
    account(0xA0)
}

fn custody() -> AccountId {
    account(0xC0)
}

fn borrower() -> AccountId {
    account(1)
}

fn investor() -> AccountId {
    account(2)
}

fn beneficiary() -> AccountId {
    account(3)
}

fn nft() -> AccountId {
    account(9)
}

fn terms(kind: ContractKind, token_id: u32, amount: u128, duration: u64) -> Terms {
    Terms {
        kind,
        collateral: Collateral { registry: nft(), token_id },
        beneficiary: beneficiary(),
        amount,
        duration,
    }
}

fn engine() -> ContractEngine {
    ContractEngine::new(owner(), custody(), 10, true)
}

fn listed_loan(e: &mut ContractEngine, now: u64) -> u64 {
    let ev = e
        .list_token(borrower(), terms(ContractKind::Loan, 7, UNIT, 30 * DAY), now, Ok(()))
        .unwrap();
    match ev {
        Event::LoanListed(l) => l.loan_id,
        other => panic!("unexpected event {:?}", other),
    }
}

fn listed_lease(e: &mut ContractEngine, now: u64) -> u64 {
    let ev = e
        .list_token(investor(), terms(ContractKind::Lease, 8, 1_000, 10 * DAY), now, Ok(()))
        .unwrap();
    match ev {
        Event::LeaseListed(l) => l.lease_id,
        other => panic!("unexpected event {:?}", other),
    }
}

#[test]
fn lib_new_works() {
    let e = ContractEngine::new(owner(), custody(), 10, true);
    assert_eq!(e.is_enabled(), true);
    assert_eq!(e.get_interest_rate(), 10);
}

#[test]
fn lib_enable_works() {
    let mut e = ContractEngine::new(owner(), custody(), 7, false);
    assert_eq!(e.is_enabled(), false);
    assert_eq!(e.get_interest_rate(), 7);
    assert!(e.enable(owner()).is_ok());
    assert_eq!(e.is_enabled(), true);
}

#[test]
fn lib_disable_works() {
    let mut e = ContractEngine::new(owner(), custody(), 7, true);
    assert_eq!(e.is_enabled(), true);
    assert_eq!(e.get_interest_rate(), 7);
    assert!(e.disable(owner()).is_ok());
    assert_eq!(e.is_enabled(), false);
}

#[test]
fn lib_set_interest_rate_works() {
    let mut e = ContractEngine::new(owner(), custody(), 7, true);
    assert_eq!(e.is_enabled(), true);
    assert_eq!(e.get_interest_rate(), 7);
    let changed = e.set_interest_rate(owner(), 8).unwrap();
    assert_eq!(changed.old_value, 7);
    assert_eq!(changed.new_value, 8);
    assert_eq!(e.get_interest_rate(), 8);
}

#[test]
fn administration_requires_owner() {
    let mut e = engine();
    assert_eq!(e.enable(borrower()), Err(Error::Unauthorized));
    assert_eq!(e.disable(borrower()), Err(Error::Unauthorized));
    assert_eq!(e.set_interest_rate(borrower(), 1), Err(Error::Unauthorized));
    assert_eq!(e.transfer_ownership(borrower(), borrower()), Err(Error::Unauthorized));
    assert!(e.is_enabled());
    assert_eq!(e.get_interest_rate(), 10);
    assert!(e.is_owner(owner()));
    assert!(!e.is_owner(borrower()));
    let moved = e.transfer_ownership(owner(), borrower()).unwrap();
    assert_eq!(moved.from, owner());
    assert_eq!(moved.to, borrower());
    assert_eq!(e.get_owner(), borrower());
    assert!(e.disable(borrower()).is_ok());
    assert_eq!(e.disable(owner()), Err(Error::Unauthorized));
}

#[test]
fn listing_while_disabled_is_refused() {
    let mut e = ContractEngine::new(owner(), custody(), 10, false);
    let t = terms(ContractKind::Loan, 1, 1000, 10);
    assert_eq!(e.plan_listing(borrower(), t), Err(Error::NotEnabled));
    assert_eq!(e.list_token(borrower(), t, 0, Ok(())), Err(Error::NotEnabled));
    assert!(e.list_contracts().is_empty());
    e.enable(owner()).unwrap();
    // the collateral was never approved for the engine
    assert_eq!(
        e.list_token(borrower(), t, 0, Err(TransferError::NotApproved)),
        Err(Error::CollateralTransferFailed)
    );
    assert!(e.list_contracts().is_empty());
}

#[test]
fn listing_creates_available_contract() {
    let mut e = engine();
    let t = terms(ContractKind::Loan, 7, UNIT, 30 * DAY);
    assert_eq!(
        e.plan_listing(borrower(), t),
        Ok(CollateralMove { collateral: t.collateral, from: borrower(), to: custody() })
    );
    let ev = e.list_token(borrower(), t, 5, Ok(())).unwrap();
    assert_eq!(
        ev,
        Event::LoanListed(LoanListed {
            borrower: borrower(),
            nft_address: nft(),
            token_id: 7,
            beneficiary_address: beneficiary(),
            amount: UNIT,
            loan_duration: 30 * DAY,
            loan_id: 0,
        })
    );
    let c = e.get_contract(0).unwrap();
    assert_eq!(c.id, 0);
    assert_eq!(c.status, ContractStatus::Available);
    assert_eq!(c.principal_party, borrower());
    assert_eq!(c.counterparty, None);
    assert_eq!(c.rate, 10);
    assert_eq!(c.created_at, 5);
    // ids are assigned in sequence
    assert_eq!(listed_lease(&mut e, 6), 1);
    assert_eq!(e.get_contract(1).unwrap().rate, 0);
    assert_eq!(e.get_contract(2), Err(Error::NotFound));
}

#[test]
fn rate_change_does_not_touch_listed_loans() {
    let mut e = engine();
    let id = listed_loan(&mut e, 0);
    e.set_interest_rate(owner(), 20).unwrap();
    assert_eq!(e.get_contract(id).unwrap().rate, 10);
    let later = listed_loan(&mut e, 0);
    assert_eq!(e.get_contract(later).unwrap().rate, 20);
}

#[test]
fn list_then_cancel_returns_collateral() {
    let mut e = engine();
    let id = listed_loan(&mut e, 0);
    assert_eq!(e.cancel(id, investor(), Ok(())), Err(Error::Unauthorized));
    let plan = e.plan_cancellation(id, borrower()).unwrap();
    assert_eq!(plan.from, custody());
    assert_eq!(plan.to, borrower());
    assert_eq!(plan.collateral.token_id, 7);
    assert!(e.cancel(id, borrower(), Ok(())).is_ok());
    let c = e.get_contract(id).unwrap();
    assert_eq!(c.status, ContractStatus::Cancelled);
    assert_eq!(c.counterparty, None);
    assert_eq!(e.cancel(id, borrower(), Ok(())), Err(Error::InvalidState));
    assert_eq!(e.match_contract(id, investor(), 1, Ok(())), Err(Error::InvalidState));
}

#[test]
fn failed_collateral_return_keeps_contract_open() {
    let mut e = engine();
    let id = listed_lease(&mut e, 0);
    assert_eq!(
        e.cancel(id, investor(), Err(TransferError::Rejected)),
        Err(Error::CollateralTransferFailed)
    );
    assert_eq!(e.get_contract(id).unwrap().status, ContractStatus::Available);
}

#[test]
fn failed_payment_leaves_contract_available() {
    let mut e = engine();
    let id = listed_loan(&mut e, 0);
    assert_eq!(
        e.plan_match(id, investor(), 10),
        Ok(Payment { from: investor(), to: beneficiary(), amount: UNIT })
    );
    assert_eq!(
        e.match_contract(id, investor(), 10, Err(TransferError::Rejected)),
        Err(Error::PaymentTransferFailed)
    );
    assert_eq!(
        e.match_contract(id, investor(), 10, Err(TransferError::InsufficientBalance)),
        Err(Error::PaymentTransferFailed)
    );
    let c = e.get_contract(id).unwrap();
    assert_eq!(c.status, ContractStatus::Available);
    assert_eq!(c.counterparty, None);
    assert_eq!(c.matched_at, None);
    assert!(e.ids_by_counterparty(investor()).is_empty());
}

#[test]
fn matching_records_counterparty() {
    let mut e = engine();
    let id = listed_loan(&mut e, 0);
    let ev = e.match_contract(id, investor(), 10, Ok(())).unwrap();
    assert_eq!(
        ev,
        Event::LoanBorrowed(LoanBorrowed {
            investor: investor(),
            loan_id: id,
            nft_address: nft(),
            token_id: 7,
        })
    );
    let c = e.get_contract(id).unwrap();
    assert_eq!(c.status, ContractStatus::Matched);
    assert_eq!(c.counterparty, Some(investor()));
    assert_eq!(c.matched_at, Some(10));
    assert_eq!(c.paid_until, None);
    assert_eq!(c.last_paid_at, None);
    assert_eq!(e.ids_by_counterparty(investor()), vec![id]);
    assert_eq!(e.ids_by_principal(borrower()), vec![id]);
    assert_eq!(e.match_contract(id, investor(), 11, Ok(())), Err(Error::InvalidState));
    assert_eq!(e.match_contract(99, investor(), 11, Ok(())), Err(Error::NotFound));
}

#[test]
fn matching_while_disabled_is_refused() {
    let mut e = engine();
    let id = listed_loan(&mut e, 0);
    e.disable(owner()).unwrap();
    assert_eq!(e.match_contract(id, investor(), 1, Ok(())), Err(Error::NotEnabled));
    // an open contract can still be withdrawn
    assert!(e.cancel(id, borrower(), Ok(())).is_ok());
}

#[test]
fn loan_settlement_scenario() {
    let mut e = engine();
    let start = 86_400_000;
    let id = listed_loan(&mut e, start);
    e.match_contract(id, investor(), start, Ok(())).unwrap();
    let now = start + 365 * DAY;
    assert_eq!(e.current_debt(id, now), Ok(UNIT + 105_155_781_613));
    assert_eq!(e.plan_settlement(id, investor(), now), Err(Error::Unauthorized));
    let plan = e.plan_settlement(id, borrower(), now).unwrap();
    assert_eq!(plan.payment.from, borrower());
    assert_eq!(plan.payment.to, investor());
    assert_eq!(plan.payment.amount, UNIT + 105_155_781_613);
    assert_eq!(plan.release.from, custody());
    assert_eq!(plan.release.to, borrower());
    // payment before release: a failed payment settles nothing
    assert_eq!(
        ContractEngine::release_after_payment(&plan, Err(TransferError::Rejected)),
        None
    );
    assert_eq!(ContractEngine::release_after_payment(&plan, Ok(())), Some(plan.release));
    assert_eq!(
        e.settle(id, borrower(), now, Err(TransferError::Rejected), Ok(())),
        Err(Error::PaymentTransferFailed)
    );
    assert_eq!(
        e.settle(id, borrower(), now, Ok(()), Err(TransferError::Rejected)),
        Err(Error::CollateralTransferFailed)
    );
    assert_eq!(e.get_contract(id).unwrap().status, ContractStatus::Matched);
    assert!(e.settle(id, borrower(), now, Ok(()), Ok(())).is_ok());
    let c = e.get_contract(id).unwrap();
    assert_eq!(c.status, ContractStatus::Settled);
    assert_eq!(c.settled_at, Some(now));
    assert_eq!(
        e.settle(id, borrower(), now + 1, Ok(()), Ok(())),
        Err(Error::InvalidState)
    );
    assert_eq!(e.current_debt(id, now), Err(Error::InvalidState));
}

#[test]
fn settling_an_unmatched_loan_is_refused() {
    let mut e = engine();
    let id = listed_loan(&mut e, 0);
    assert_eq!(e.settle(id, borrower(), DAY, Ok(()), Ok(())), Err(Error::InvalidState));
    let lease = listed_lease(&mut e, 0);
    e.match_contract(lease, borrower(), 0, Ok(())).unwrap();
    assert_eq!(e.settle(lease, investor(), DAY, Ok(()), Ok(())), Err(Error::InvalidState));
}

#[test]
fn settling_before_funding_time_is_refused() {
    let mut e = engine();
    let id = listed_loan(&mut e, 0);
    e.match_contract(id, investor(), 10 * DAY, Ok(())).unwrap();
    assert_eq!(e.plan_settlement(id, borrower(), DAY), Err(Error::ArithmeticOverflow));
}

#[test]
fn loan_liquidation_waits_for_term() {
    let mut e = engine();
    let id = listed_loan(&mut e, 0);
    e.match_contract(id, investor(), DAY, Ok(())).unwrap();
    assert_eq!(e.liquidate(id, borrower(), 40 * DAY, Ok(())), Err(Error::Unauthorized));
    assert_eq!(e.liquidate(id, investor(), 31 * DAY, Ok(())), Err(Error::TermNotOver));
    assert_eq!(e.get_contract(id).unwrap().status, ContractStatus::Matched);
    let plan = e.plan_liquidation(id, investor(), 31 * DAY + 1).unwrap();
    assert_eq!(plan.to, investor());
    assert_eq!(plan.from, custody());
    assert!(e.liquidate(id, investor(), 31 * DAY + 1, Ok(())).is_ok());
    assert_eq!(e.get_contract(id).unwrap().status, ContractStatus::Defaulted);
    assert_eq!(
        e.liquidate(id, investor(), 32 * DAY, Ok(())),
        Err(Error::InvalidState)
    );
}

#[test]
fn lease_rent_and_default() {
    let mut e = engine();
    let renter = borrower();
    let id = listed_lease(&mut e, 0);
    assert_eq!(
        e.plan_match(id, renter, 0),
        Ok(Payment { from: renter, to: beneficiary(), amount: 1_000 })
    );
    let ev = e.match_contract(id, renter, 0, Ok(())).unwrap();
    assert_eq!(
        ev,
        Event::LeaseAvailed(LeaseAvailed { renter, lease_id: id, nft_address: nft(), token_id: 8 })
    );
    assert_eq!(e.get_contract(id).unwrap().paid_until, Some(DAY));
    assert_eq!(e.get_contract(id).unwrap().last_paid_at, Some(0));
    assert_eq!(e.ids_by_counterparty(renter), vec![id]);
    assert_eq!(e.is_rent_due(id, DAY), Ok(false));
    assert_eq!(e.is_rent_due(id, DAY + 1), Ok(true));
    assert_eq!(e.get_lease_duration(id, 2 * DAY + 5_000), Ok(3));

    // nothing is due before paid_until
    let due = e.plan_rent_payment(id, renter, DAY / 2).unwrap();
    assert_eq!(due.periods, 0);
    assert_eq!(due.payment.amount, 0);

    // two and a half days late: three started days
    let now = 3 * DAY + DAY / 2;
    assert_eq!(e.plan_rent_payment(id, investor(), now), Err(Error::Unauthorized));
    let due = e.plan_rent_payment(id, renter, now).unwrap();
    assert_eq!(due.periods, 3);
    assert_eq!(due.payment.amount, 3_000);
    assert_eq!(due.payment.to, beneficiary());
    assert_eq!(
        e.pay_rent(id, renter, now, Err(TransferError::Rejected)),
        Err(Error::PaymentTransferFailed)
    );
    assert_eq!(e.get_contract(id).unwrap().paid_until, Some(DAY));
    let ev = e.pay_rent(id, renter, now, Ok(())).unwrap();
    assert_eq!(
        ev,
        Event::RentPaid(RentPaid {
            renter,
            lease_id: id,
            nft_address: nft(),
            token_id: 8,
            rent_amount: 3_000,
        })
    );
    assert_eq!(e.get_contract(id).unwrap().paid_until, Some(4 * DAY));
    assert_eq!(e.get_contract(id).unwrap().last_paid_at, Some(now));
    assert_eq!(e.is_rent_due(id, now), Ok(false));

    // within the grace window the investor cannot claim, even after the term
    assert_eq!(e.liquidate(id, renter, 20 * DAY, Ok(())), Err(Error::Unauthorized));
    assert_eq!(e.liquidate(id, investor(), 7 * DAY, Ok(())), Err(Error::NotInDefault));
    // past the grace window but within the nominal term
    assert_eq!(e.liquidate(id, investor(), 7 * DAY + 1, Ok(())), Err(Error::TermNotOver));
    assert_eq!(e.get_contract(id).unwrap().status, ContractStatus::Matched);
    // both elapsed
    let plan = e.plan_liquidation(id, investor(), 10 * DAY + 1).unwrap();
    assert_eq!(plan.to, investor());
    assert!(e.liquidate(id, investor(), 10 * DAY + 1, Ok(())).is_ok());
    assert_eq!(e.get_contract(id).unwrap().status, ContractStatus::Defaulted);
    assert_eq!(e.pay_rent(id, renter, 11 * DAY, Ok(())), Err(Error::InvalidState));
}

#[test]
fn rent_on_a_loan_is_refused() {
    let mut e = engine();
    let id = listed_loan(&mut e, 0);
    e.match_contract(id, investor(), 0, Ok(())).unwrap();
    assert_eq!(e.pay_rent(id, investor(), DAY, Ok(())), Err(Error::InvalidState));
    assert_eq!(e.is_rent_due(id, 10 * DAY), Ok(false));
    assert_eq!(e.pay_rent(5, investor(), DAY, Ok(())), Err(Error::NotFound));
}

#[test]
fn queries_over_contracts() {
    let mut e = engine();
    let a = listed_loan(&mut e, 0);
    let b = listed_lease(&mut e, 0);
    let c = listed_loan(&mut e, 0);
    e.match_contract(c, investor(), 0, Ok(())).unwrap();
    e.match_contract(a, investor(), 0, Ok(())).unwrap();
    assert_eq!(e.list_contracts().len(), 3);
    let page: Vec<u64> = e.list_contracts_paginated(1, 10).iter().map(|c| c.id).collect();
    assert_eq!(page, vec![1, 2]);
    assert!(e.list_contracts_paginated(2, 1).is_empty());
    assert!(e.list_contracts_paginated(5, 9).is_empty());
    let open: Vec<u64> =
        e.list_by_status(ContractStatus::Available).iter().map(|c| c.id).collect();
    assert_eq!(open, vec![b]);
    let matched: Vec<u64> =
        e.list_by_status(ContractStatus::Matched).iter().map(|c| c.id).collect();
    assert_eq!(matched, vec![a, c]);
    assert_eq!(e.ids_by_principal(borrower()), vec![a, c]);
    assert_eq!(e.ids_by_principal(investor()), vec![b]);
    // the counterparty index keeps the order of matching
    assert_eq!(e.ids_by_counterparty(investor()), vec![c, a]);
    assert!(e.ids_by_counterparty(owner()).is_empty());
    assert_eq!(e.get_lease_duration(b, 5), Ok(0));
    assert_eq!(e.get_lease_duration(9, 5), Err(Error::NotFound));
    assert_eq!(e.is_rent_due(9, 5), Err(Error::NotFound));
}

#[test]
fn match_refuses_lease_time_overflow() {
    let mut e = engine();
    let id = listed_lease(&mut e, 0);
    assert_eq!(
        e.match_contract(id, borrower(), u64::MAX - 1, Ok(())),
        Err(Error::ArithmeticOverflow)
    );
    assert_eq!(e.get_contract(id).unwrap().status, ContractStatus::Available);
}

#[test]
fn balance_is_checked_before_paying() {
    let p = Payment { from: investor(), to: beneficiary(), amount: 500 };
    assert_eq!(check_balance(&p, 499), Err(Error::InsufficientBalance));
    assert_eq!(check_balance(&p, 500), Ok(()));
    assert_eq!(check_balance(&p, u128::MAX), Ok(()));
}
