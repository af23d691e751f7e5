//! What a call can fail with.

use vstd::prelude::*;

verus! {

/// Errors that a caller is told by code.
#[derive(Clone, Copy, Debug, PartialEq, Eq, Structural)]
pub enum ContractError {
    /// An amount is not positive, the stake behind a loan is too small, or the contract lacks funds.
    InsufficientFunds,
    /// There is no active loan, or no pending proposal, to act on.
    NoActiveLoan,
    /// The contract is paused.
    ContractPaused,
    /// The caller has no right to this record.
    UnauthorizedCaller,
    /// The voucher already vouches for the borrower in this token.
    DuplicateVouch,
    /// The stake is below the configured minimum.
    MinStakeNotMet,
    /// The voucher vouched too short a time ago.
    VouchCooldownActive,
    /// The borrower has as many vouches as may be stored.
    MaxVouchersPerBorrowerExceeded,
    /// The borrower already has an active loan.
    ActiveLoanExists,
    /// The stakes add up to more than an `i128` holds.
    StakeOverflow,
    /// The loan exceeds the configured cap.
    LoanExceedsMaxAmount,
    /// Too few vouchers back the loan.
    InsufficientVouchers,
    /// The contract is already initialised.
    AlreadyInitialized,
    /// The token is not accepted, or is no token.
    InvalidToken,
    /// An all-zeros address.
    ZeroAddress,
    /// The borrower is banned.
    Blacklisted,
    /// The voter has no stake behind the borrower.
    VoucherNotFound,
    /// The voucher has voted already.
    AlreadyVoted,
    /// The slash or the proposal is settled already.
    SlashAlreadyExecuted,
    /// A loan pool has unequal lists.
    PoolLengthMismatch,
    /// A loan pool without borrowers.
    PoolEmpty,
    /// A borrower of the pool already has an active loan.
    PoolBorrowerActiveLoan,
}

/// Failed assertions. The host rolls the call back and hands the caller an error without a code.
#[derive(Clone, Copy, Debug, PartialEq, Eq, Structural)]
pub enum Trap {
    /// The contract has no configuration yet.
    NotInitialized,
    /// An arithmetic operation left the range of its type.
    Overflow,
    /// Every loan id has been handed out.
    LoanIdOverflow,
    /// Every pool id has been handed out.
    PoolIdOverflow,
    /// Every proposal id has been handed out.
    ProposalIdOverflow,
    /// Fewer signers than the admin threshold asks for.
    InsufficientApprovals,
    /// A signer is not among the admins.
    NotAnAdmin,
    /// The admin list is empty.
    NoAdmins,
    /// The admin threshold is zero.
    ZeroAdminThreshold,
    /// The admin threshold exceeds the number of admins.
    AdminThresholdTooHigh,
    /// An admin is listed twice.
    DuplicateAdmin,
    /// The address to remove or replace is not an admin.
    AdminNotFound,
    /// The contract is paused.
    ContractPaused,
    /// A voucher vouches for itself.
    SelfVouch,
    /// The stake is below the configured yield minimum.
    StakeBelowYieldMinimum,
    /// The borrower has as many vouches as a loan may have.
    MaxVouchersPerLoan,
    /// A batch of vouches has unequal lists.
    BatchLengthMismatch,
    /// A batch of vouches is empty.
    BatchEmpty,
    /// There is no vouch of this voucher for this borrower.
    VouchNotFound,
    /// The amount to take out of a vouch is not positive.
    DecreaseNotPositive,
    /// The amount to take out exceeds the stake.
    DecreaseExceedsStake,
    /// Vouches are locked while the borrower's loan is active.
    LoanAlreadyActive,
    /// The loan is smaller than the configured minimum.
    LoanBelowMinimum,
    /// The stake threshold of a loan request is not positive.
    ThresholdNotPositive,
    /// A borrower asks for a second loan.
    BorrowerHasActiveLoan,
    /// The loan is too large for the stake behind it.
    CollateralRatioExceeded,
    /// The borrower never had a loan.
    NoActiveLoan,
    /// A repayment comes after the deadline.
    DeadlinePassed,
    /// A payment is not positive or exceeds what is owed.
    InvalidPayment,
    /// The contract cannot cover a settlement.
    InsufficientYieldBalance,
    /// A loan is claimed as expired before its deadline.
    LoanNotExpired,
    /// A loan is auto-slashed before its deadline.
    DeadlineNotPassed,
    /// A loan is slashed twice.
    AlreadyDefaulted,
    /// The slash treasury is empty.
    NoSlashedFunds,
    /// A negative minimum stake.
    NegativeMinStake,
    /// A negative loan cap.
    NegativeMaxLoanAmount,
    /// A voucher cap of zero.
    ZeroMaxVouchers,
    /// A negative yield rate.
    NegativeYield,
    /// A slash rate outside 1 to 10000.
    SlashBpsOutOfRange,
    /// A minimum loan amount that is not positive.
    MinLoanNotPositive,
    /// A loan duration of zero.
    ZeroLoanDuration,
    /// A collateral ratio of zero.
    ZeroLoanToStakeRatio,
    /// A protocol fee above 10000 basis points.
    FeeTooHigh,
    /// A referral bonus above 10000 basis points.
    BonusTooHigh,
    /// A slash quorum outside 1 to 10000.
    QuorumOutOfRange,
    /// Somebody else's proposal is cancelled.
    NotProposer,
    /// An admin-only view is asked for by somebody else.
    Unauthorized,
    /// A page without room for a record.
    ZeroPageSize,
    /// A reputation contract is initialised twice.
    AlreadyInitialized,
}

impl Trap {
    /// The words that go with a failed assertion.
    pub open spec fn spec_message(self) -> Seq<char> {
        match self {
            Trap::NotInitialized => "not initialized"@,
            Trap::Overflow => "arithmetic overflow"@,
            Trap::LoanIdOverflow => "loan ID overflow"@,
            Trap::PoolIdOverflow => "pool ID overflow"@,
            Trap::ProposalIdOverflow => "proposal ID overflow"@,
            Trap::InsufficientApprovals => "insufficient admin approvals"@,
            Trap::NotAnAdmin => "signer is not a registered admin"@,
            Trap::NoAdmins => "at least one admin is required"@,
            Trap::ZeroAdminThreshold => "admin threshold must be greater than zero"@,
            Trap::AdminThresholdTooHigh => "admin threshold cannot exceed admin count"@,
            Trap::DuplicateAdmin => "duplicate admin"@,
            Trap::AdminNotFound => "admin not found"@,
            Trap::ContractPaused => "contract is paused"@,
            Trap::SelfVouch => "voucher cannot vouch for self"@,
            Trap::StakeBelowYieldMinimum => "stake too small: would produce zero yield due to integer truncation"@,
            Trap::MaxVouchersPerLoan => "maximum vouchers per loan exceeded"@,
            Trap::BatchLengthMismatch => "borrowers and stakes length mismatch"@,
            Trap::BatchEmpty => "batch cannot be empty"@,
            Trap::VouchNotFound => "vouch not found"@,
            Trap::DecreaseNotPositive => "decrease amount must be greater than zero"@,
            Trap::DecreaseExceedsStake => "decrease amount exceeds staked amount"@,
            Trap::LoanAlreadyActive => "loan already active"@,
            Trap::LoanBelowMinimum => "loan amount must meet minimum threshold"@,
            Trap::ThresholdNotPositive => "threshold must be greater than zero"@,
            Trap::BorrowerHasActiveLoan => "borrower already has an active loan"@,
            Trap::CollateralRatioExceeded => "loan amount exceeds maximum collateral ratio"@,
            Trap::NoActiveLoan => "no active loan"@,
            Trap::DeadlinePassed => "loan deadline has passed"@,
            Trap::InvalidPayment => "invalid payment amount"@,
            Trap::InsufficientYieldBalance => "insufficient contract balance for yield distribution"@,
            Trap::LoanNotExpired => "loan has not expired yet"@,
            Trap::DeadlineNotPassed => "loan deadline has not passed"@,
            Trap::AlreadyDefaulted => "already defaulted"@,
            Trap::NoSlashedFunds => "no slashed funds to withdraw"@,
            Trap::NegativeMinStake => "min stake cannot be negative"@,
            Trap::NegativeMaxLoanAmount => "max loan amount cannot be negative"@,
            Trap::ZeroMaxVouchers => "max_vouchers_per_loan must be greater than zero"@,
            Trap::NegativeYield => "yield_bps must be non-negative"@,
            Trap::SlashBpsOutOfRange => "slash_bps must be 1-10000"@,
            Trap::MinLoanNotPositive => "min_loan_amount must be greater than zero"@,
            Trap::ZeroLoanDuration => "loan_duration must be greater than zero"@,
            Trap::ZeroLoanToStakeRatio => "max_loan_to_stake_ratio must be greater than zero"@,
            Trap::FeeTooHigh => "fee_bps must not exceed 10000"@,
            Trap::BonusTooHigh => "bonus_bps must not exceed 10000"@,
            Trap::QuorumOutOfRange => "quorum_bps must be 1-10000"@,
            Trap::NotProposer => "only proposer can cancel"@,
            Trap::Unauthorized => "unauthorized"@,
            Trap::ZeroPageSize => "page_size must be greater than zero"@,
            Trap::AlreadyInitialized => "already initialized"@,
        }
    }

    pub fn message(self) -> (text: &'static str)
        ensures
            text@ == self.spec_message(),
    {
        match self {
            Trap::NotInitialized => "not initialized",
            Trap::Overflow => "arithmetic overflow",
            Trap::LoanIdOverflow => "loan ID overflow",
            Trap::PoolIdOverflow => "pool ID overflow",
            Trap::ProposalIdOverflow => "proposal ID overflow",
            Trap::InsufficientApprovals => "insufficient admin approvals",
            Trap::NotAnAdmin => "signer is not a registered admin",
            Trap::NoAdmins => "at least one admin is required",
            Trap::ZeroAdminThreshold => "admin threshold must be greater than zero",
            Trap::AdminThresholdTooHigh => "admin threshold cannot exceed admin count",
            Trap::DuplicateAdmin => "duplicate admin",
            Trap::AdminNotFound => "admin not found",
            Trap::ContractPaused => "contract is paused",
            Trap::SelfVouch => "voucher cannot vouch for self",
            Trap::StakeBelowYieldMinimum => "stake too small: would produce zero yield due to integer truncation",
            Trap::MaxVouchersPerLoan => "maximum vouchers per loan exceeded",
            Trap::BatchLengthMismatch => "borrowers and stakes length mismatch",
            Trap::BatchEmpty => "batch cannot be empty",
            Trap::VouchNotFound => "vouch not found",
            Trap::DecreaseNotPositive => "decrease amount must be greater than zero",
            Trap::DecreaseExceedsStake => "decrease amount exceeds staked amount",
            Trap::LoanAlreadyActive => "loan already active",
            Trap::LoanBelowMinimum => "loan amount must meet minimum threshold",
            Trap::ThresholdNotPositive => "threshold must be greater than zero",
            Trap::BorrowerHasActiveLoan => "borrower already has an active loan",
            Trap::CollateralRatioExceeded => "loan amount exceeds maximum collateral ratio",
            Trap::NoActiveLoan => "no active loan",
            Trap::DeadlinePassed => "loan deadline has passed",
            Trap::InvalidPayment => "invalid payment amount",
            Trap::InsufficientYieldBalance => "insufficient contract balance for yield distribution",
            Trap::LoanNotExpired => "loan has not expired yet",
            Trap::DeadlineNotPassed => "loan deadline has not passed",
            Trap::AlreadyDefaulted => "already defaulted",
            Trap::NoSlashedFunds => "no slashed funds to withdraw",
            Trap::NegativeMinStake => "min stake cannot be negative",
            Trap::NegativeMaxLoanAmount => "max loan amount cannot be negative",
            Trap::ZeroMaxVouchers => "max_vouchers_per_loan must be greater than zero",
            Trap::NegativeYield => "yield_bps must be non-negative",
            Trap::SlashBpsOutOfRange => "slash_bps must be 1-10000",
            Trap::MinLoanNotPositive => "min_loan_amount must be greater than zero",
            Trap::ZeroLoanDuration => "loan_duration must be greater than zero",
            Trap::ZeroLoanToStakeRatio => "max_loan_to_stake_ratio must be greater than zero",
            Trap::FeeTooHigh => "fee_bps must not exceed 10000",
            Trap::BonusTooHigh => "bonus_bps must not exceed 10000",
            Trap::QuorumOutOfRange => "quorum_bps must be 1-10000",
            Trap::NotProposer => "only proposer can cancel",
            Trap::Unauthorized => "unauthorized",
            Trap::ZeroPageSize => "page_size must be greater than zero",
            Trap::AlreadyInitialized => "already initialized",
        }
    }
}

/// The ways in which a call fails: an error with a code, or a trap. Either way the host
/// discards everything that the call did.
#[derive(Clone, Copy, Debug, PartialEq, Eq, Structural)]
pub enum Failure {
    Contract(ContractError),
    Trap(Trap),
}

} // verus!
