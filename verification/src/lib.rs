//! QuorumCredit: microloans that are backed by the stakes of people who vouch for the borrower.

pub mod address;
pub mod admin;
pub mod calls;
pub mod contract;
pub mod env;
pub mod errors;
pub mod flows;
pub mod governance;
pub mod helpers;
pub mod history;
pub mod laws;
pub mod laws_admin;
pub mod laws_calls;
pub mod laws_governance;
pub mod laws_loan;
pub mod laws_pool;
pub mod laws_reads;
pub mod laws_slash;
pub mod laws_terms;
pub mod laws_vouch;
pub mod loan;
pub mod math;
pub mod pool;
pub mod reputation;
pub mod rules;
pub mod slash;
pub mod stakes;
pub mod table;
pub mod types;
pub mod views;
pub mod vouch;
pub mod wellformed;

pub use address::Address;
pub use contract::QuorumCreditContract;
pub use env::{Effect, Env, Event, Payment};
pub use errors::{ContractError, Failure, Trap};
pub use reputation::{ReputationEnv, ReputationNftContract};
pub use types::{
    Config, LoanPoolRecord, LoanRecord, LoanStatus, SlashVoteRecord, TimelockAction,
    TimelockProposal, VouchRecord,
};
