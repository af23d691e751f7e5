//! The records that the contract keeps, and their mathematical views.

use crate::address::Address;
use vstd::prelude::*;

verus! {

pub const DEFAULT_YIELD_BPS: i128 = 200;

pub const DEFAULT_SLASH_BPS: i128 = 5000;

/// No stake is too small to vouch with; an admin can raise the bar.
pub const DEFAULT_MIN_YIELD_STAKE: i128 = 0;

/// 1% of the loan amount.
pub const DEFAULT_REFERRAL_BONUS_BPS: u32 = 100;

/// 1 minute.
pub const MIN_VOUCH_AGE: u64 = 60;

pub const DEFAULT_MAX_VOUCHERS: u32 = 100;

/// No loan is too small; an admin can raise the bar.
pub const DEFAULT_MIN_LOAN_AMOUNT: i128 = 1;

/// 30 days.
pub const DEFAULT_LOAN_DURATION: u64 = 2_592_000;

pub const DEFAULT_MAX_LOAN_TO_STAKE_RATIO: u32 = 150;

/// 24 hours.
pub const DEFAULT_VOUCH_COOLDOWN_SECS: u64 = 86_400;

pub const DEFAULT_MAX_VOUCHERS_PER_BORROWER: u32 = 50;

/// 24 hours.
pub const TIMELOCK_DELAY: u64 = 86_400;

/// 72 hours.
pub const TIMELOCK_EXPIRY: u64 = 259_200;

/// Half of the total vouched stake must approve.
pub const DEFAULT_SLASH_VOTE_QUORUM_BPS: u32 = 5_000;

/// Where a loan stands. `NoLoan` is the status of a borrower who never had a loan.
#[derive(Clone, Copy, Debug, PartialEq, Eq, Structural)]
pub enum LoanStatus {
    NoLoan,
    Active,
    Repaid,
    Defaulted,
}

/// The votes on slashing one borrower.
#[derive(Debug)]
pub struct SlashVoteRecord {
    /// Total stake voting to approve the slash.
    pub approve_stake: i128,
    /// Total stake voting to reject the slash.
    pub reject_stake: i128,
    /// Addresses that have already voted.
    pub voters: Vec<Address>,
    /// True once the slash has been executed.
    pub executed: bool,
}

#[verifier::ext_equal]
pub struct SlashVoteView {
    pub approve_stake: i128,
    pub reject_stake: i128,
    pub voters: Seq<Address>,
    pub executed: bool,
}

impl View for SlashVoteRecord {
    type V = SlashVoteView;

    open spec fn view(&self) -> SlashVoteView {
        SlashVoteView {
            approve_stake: self.approve_stake,
            reject_stake: self.reject_stake,
            voters: self.voters@,
            executed: self.executed,
        }
    }
}

impl Clone for SlashVoteRecord {
    fn clone(&self) -> (copy: Self)
        ensures
            copy@ == self@,
    {
        let voters = self.voters.clone();
        assert(voters@ =~= self.voters@);
        SlashVoteRecord {
            approve_stake: self.approve_stake,
            reject_stake: self.reject_stake,
            voters,
            executed: self.executed,
        }
    }
}

/// All configurable protocol parameters.
#[derive(Debug)]
pub struct Config {
    pub admins: Vec<Address>,
    pub admin_threshold: u32,
    pub token: Address,
    /// Additional tokens accepted for loans and vouches.
    pub allowed_tokens: Vec<Address>,
    pub yield_bps: i128,
    pub slash_bps: i128,
    /// Maximum number of vouches per loan.
    pub max_vouchers: u32,
    pub min_loan_amount: i128,
    pub loan_duration: u64,
    /// The largest loan, in percent of the stake behind it.
    pub max_loan_to_stake_ratio: u32,
    pub grace_period: u64,
    /// The smallest stake of a vouch.
    pub min_yield_stake: i128,
    /// Seconds between two vouch calls of one voucher; 0 for none.
    pub vouch_cooldown_secs: u64,
}

#[verifier::ext_equal]
pub struct ConfigView {
    pub admins: Seq<Address>,
    pub admin_threshold: u32,
    pub token: Address,
    pub allowed_tokens: Seq<Address>,
    pub yield_bps: i128,
    pub slash_bps: i128,
    pub max_vouchers: u32,
    pub min_loan_amount: i128,
    pub loan_duration: u64,
    pub max_loan_to_stake_ratio: u32,
    pub grace_period: u64,
    pub min_yield_stake: i128,
    pub vouch_cooldown_secs: u64,
}

impl View for Config {
    type V = ConfigView;

    open spec fn view(&self) -> ConfigView {
        ConfigView {
            admins: self.admins@,
            admin_threshold: self.admin_threshold,
            token: self.token,
            allowed_tokens: self.allowed_tokens@,
            yield_bps: self.yield_bps,
            slash_bps: self.slash_bps,
            max_vouchers: self.max_vouchers,
            min_loan_amount: self.min_loan_amount,
            loan_duration: self.loan_duration,
            max_loan_to_stake_ratio: self.max_loan_to_stake_ratio,
            grace_period: self.grace_period,
            min_yield_stake: self.min_yield_stake,
            vouch_cooldown_secs: self.vouch_cooldown_secs,
        }
    }
}

impl Clone for Config {
    fn clone(&self) -> (copy: Self)
        ensures
            copy@ == self@,
    {
        let admins = self.admins.clone();
        let allowed_tokens = self.allowed_tokens.clone();
        assert(admins@ =~= self.admins@);
        assert(allowed_tokens@ =~= self.allowed_tokens@);
        Config {
            admins,
            admin_threshold: self.admin_threshold,
            token: self.token,
            allowed_tokens,
            yield_bps: self.yield_bps,
            slash_bps: self.slash_bps,
            max_vouchers: self.max_vouchers,
            min_loan_amount: self.min_loan_amount,
            loan_duration: self.loan_duration,
            max_loan_to_stake_ratio: self.max_loan_to_stake_ratio,
            grace_period: self.grace_period,
            min_yield_stake: self.min_yield_stake,
            vouch_cooldown_secs: self.vouch_cooldown_secs,
        }
    }
}

/// One loan, from disbursement to repayment or default.
#[derive(Debug)]
pub struct LoanRecord {
    pub id: u64,
    pub borrower: Address,
    pub co_borrowers: Vec<Address>,
    /// Total loan principal in stroops.
    pub amount: i128,
    /// Cumulative repayments received so far (principal and yield).
    pub amount_repaid: i128,
    /// Yield owed to vouchers, locked in at disbursement.
    pub total_yield: i128,
    pub status: LoanStatus,
    /// Ledger timestamp.
    pub created_at: u64,
    /// Ledger timestamp.
    pub disbursement_timestamp: u64,
    /// Set once the loan is fully repaid.
    pub repayment_timestamp: Option<u64>,
    /// Repayment deadline (ledger timestamp).
    pub deadline: u64,
    /// Borrower-supplied purpose: the bytes of a text, in any encoding.
    pub loan_purpose: Vec<u8>,
    /// Token used for this loan.
    pub token_address: Address,
}

#[verifier::ext_equal]
pub struct LoanView {
    pub id: u64,
    pub borrower: Address,
    pub co_borrowers: Seq<Address>,
    pub amount: i128,
    pub amount_repaid: i128,
    pub total_yield: i128,
    pub status: LoanStatus,
    pub created_at: u64,
    pub disbursement_timestamp: u64,
    pub repayment_timestamp: Option<u64>,
    pub deadline: u64,
    pub loan_purpose: Seq<u8>,
    pub token_address: Address,
}

impl View for LoanRecord {
    type V = LoanView;

    open spec fn view(&self) -> LoanView {
        LoanView {
            id: self.id,
            borrower: self.borrower,
            co_borrowers: self.co_borrowers@,
            amount: self.amount,
            amount_repaid: self.amount_repaid,
            total_yield: self.total_yield,
            status: self.status,
            created_at: self.created_at,
            disbursement_timestamp: self.disbursement_timestamp,
            repayment_timestamp: self.repayment_timestamp,
            deadline: self.deadline,
            loan_purpose: self.loan_purpose@,
            token_address: self.token_address,
        }
    }
}

impl Clone for LoanRecord {
    fn clone(&self) -> (copy: Self)
        ensures
            copy@ == self@,
    {
        let co_borrowers = self.co_borrowers.clone();
        let loan_purpose = self.loan_purpose.clone();
        assert(co_borrowers@ =~= self.co_borrowers@);
        assert(loan_purpose@ =~= self.loan_purpose@);
        LoanRecord {
            id: self.id,
            borrower: self.borrower,
            co_borrowers,
            amount: self.amount,
            amount_repaid: self.amount_repaid,
            total_yield: self.total_yield,
            status: self.status,
            created_at: self.created_at,
            disbursement_timestamp: self.disbursement_timestamp,
            repayment_timestamp: self.repayment_timestamp,
            deadline: self.deadline,
            loan_purpose,
            token_address: self.token_address,
        }
    }
}

/// One voucher's stake behind one borrower.
#[derive(Clone, Copy, Debug, PartialEq, Eq)]
pub struct VouchRecord {
    pub voucher: Address,
    /// In stroops.
    pub stake: i128,
    /// Ledger timestamp when the vouch was created; immutable after set.
    pub vouch_timestamp: u64,
    /// Token this stake is denominated in.
    pub token: Address,
}

/// A batch of loans that was disbursed together.
#[derive(Debug)]
pub struct LoanPoolRecord {
    pub pool_id: u64,
    pub borrowers: Vec<Address>,
    pub amounts: Vec<i128>,
    pub created_at: u64,
    pub total_disbursed: i128,
}

#[verifier::ext_equal]
pub struct LoanPoolView {
    pub pool_id: u64,
    pub borrowers: Seq<Address>,
    pub amounts: Seq<i128>,
    pub created_at: u64,
    pub total_disbursed: i128,
}

impl View for LoanPoolRecord {
    type V = LoanPoolView;

    open spec fn view(&self) -> LoanPoolView {
        LoanPoolView {
            pool_id: self.pool_id,
            borrowers: self.borrowers@,
            amounts: self.amounts@,
            created_at: self.created_at,
            total_disbursed: self.total_disbursed,
        }
    }
}

impl Clone for LoanPoolRecord {
    fn clone(&self) -> (copy: Self)
        ensures
            copy@ == self@,
    {
        let borrowers = self.borrowers.clone();
        let amounts = self.amounts.clone();
        assert(borrowers@ =~= self.borrowers@);
        assert(amounts@ =~= self.amounts@);
        LoanPoolRecord {
            pool_id: self.pool_id,
            borrowers,
            amounts,
            created_at: self.created_at,
            total_disbursed: self.total_disbursed,
        }
    }
}

/// What a proposal does once it is executed.
#[derive(Debug)]
pub enum TimelockAction {
    Slash(Address),
    SetConfig(Config),
}

#[verifier::ext_equal]
pub enum TimelockActionView {
    Slash(Address),
    SetConfig(ConfigView),
}

impl View for TimelockAction {
    type V = TimelockActionView;

    open spec fn view(&self) -> TimelockActionView {
        match self {
            TimelockAction::Slash(borrower) => TimelockActionView::Slash(*borrower),
            TimelockAction::SetConfig(config) => TimelockActionView::SetConfig(config@),
        }
    }
}

impl Clone for TimelockAction {
    fn clone(&self) -> (copy: Self)
        ensures
            copy@ == self@,
    {
        match self {
            TimelockAction::Slash(borrower) => TimelockAction::Slash(*borrower),
            TimelockAction::SetConfig(config) => TimelockAction::SetConfig(config.clone()),
        }
    }
}

/// An action that waits for its time.
#[derive(Debug)]
pub struct TimelockProposal {
    pub id: u64,
    pub action: TimelockAction,
    pub proposer: Address,
    pub eta: u64,
    pub executed: bool,
    pub cancelled: bool,
}

#[verifier::ext_equal]
pub struct TimelockView {
    pub id: u64,
    pub action: TimelockActionView,
    pub proposer: Address,
    pub eta: u64,
    pub executed: bool,
    pub cancelled: bool,
}

impl View for TimelockProposal {
    type V = TimelockView;

    open spec fn view(&self) -> TimelockView {
        TimelockView {
            id: self.id,
            action: self.action@,
            proposer: self.proposer,
            eta: self.eta,
            executed: self.executed,
            cancelled: self.cancelled,
        }
    }
}

impl Clone for TimelockProposal {
    fn clone(&self) -> (copy: Self)
        ensures
            copy@ == self@,
    {
        TimelockProposal {
            id: self.id,
            action: self.action.clone(),
            proposer: self.proposer,
            eta: self.eta,
            executed: self.executed,
            cancelled: self.cancelled,
        }
    }
}

} // verus!
