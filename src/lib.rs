//! A collateralized credit engine: a party pledges a non-fungible asset and a
//! counterparty funds a loan or rents the asset against it, with interest or
//! rent accruing by the day until the contract is settled, claimed after
//! default, or cancelled.
pub mod account;
pub mod accrual;
pub mod contract;
pub mod engine;
pub mod error;
pub mod events;
pub mod model;
pub mod registry;

pub use account::AccountId;
pub use accrual::{
    calculate_interest, days_elapsed, divide, duration_in_days, interest_for_days, linear_interest,
    DAY_MS, MS_PER_SECOND, RATE_SCALE, SECONDS_IN_DAYS, SERIES_TERMS,
};
pub use contract::{Collateral, Contract, ContractKind, ContractStatus, Terms};
pub use engine::{check_balance, Administration, ContractEngine};
pub use error::{Error, TransferError};
pub use events::{
    Disbaled, Enabled, Event, InterestRateChanged, LeaseAvailed, LeaseListed, LeaseRemoved,
    LeaseTermintated, LoanBorrowed, LoanExpired, LoanLiquidated, LoanListed, LoanRepaid,
    OwnershipTransferred, RentPaid,
};
pub use model::{CollateralMove, Payment, RentDue, Settlement, GRACE_PERIODS};
pub use registry::{ContractRegistry, IndexEntry};
