//! Checks and look-ups that the operations share.

use crate::address::{self, Address};
use crate::env::{Env, State};
use crate::errors::{ContractError, Failure, Trap};
use crate::math;
use crate::types::{Config, LoanRecord, LoanStatus, LoanView, VouchRecord};
use vstd::prelude::*;

verus! {

impl State {
    /// The vouches behind a borrower, oldest first.
    pub open spec fn vouches_of(self, borrower: Address) -> Seq<VouchRecord> {
        if self.vouches.contains_key(borrower) {
            self.vouches[borrower]
        } else {
            Seq::empty()
        }
    }

    /// The loan that is filed as the borrower's active one.
    pub open spec fn active_loan(self, borrower: Address) -> Option<LoanView> {
        if self.active_loans.contains_key(borrower) && self.loans.contains_key(
            self.active_loans[borrower],
        ) {
            Some(self.loans[self.active_loans[borrower]])
        } else {
            None
        }
    }

    pub open spec fn has_active_loan(self, borrower: Address) -> bool {
        self.active_loan(borrower) matches Some(loan) && loan.status == LoanStatus::Active
    }

    /// The borrower's latest loan, whatever became of it.
    pub open spec fn latest_loan(self, borrower: Address) -> Option<LoanView> {
        if self.latest_loans.contains_key(borrower) && self.loans.contains_key(
            self.latest_loans[borrower],
        ) {
            Some(self.loans[self.latest_loans[borrower]])
        } else {
            None
        }
    }

    pub open spec fn is_blacklisted(self, borrower: Address) -> bool {
        self.blacklist.contains_key(borrower) && self.blacklist[borrower]
    }

    /// Why a token is refused: only the protocol token and the allowed tokens are accepted.
    pub open spec fn token_failure(self, token: Address) -> Option<Failure> {
        match self.config {
            None => Some(Failure::Trap(Trap::NotInitialized)),
            Some(config) => if token == config.token || config.allowed_tokens.contains(token) {
                None
            } else {
                Some(Failure::Contract(ContractError::InvalidToken))
            },
        }
    }

    /// Why a list of signers is no admin approval: as many signers as the threshold asks for,
    /// and each of them an admin.
    pub open spec fn approval_failure(self, signers: Seq<Address>) -> Option<Failure> {
        match self.config {
            None => Some(Failure::Trap(Trap::NotInitialized)),
            Some(config) => if signers.len() < config.admin_threshold {
                Some(Failure::Trap(Trap::InsufficientApprovals))
            } else if exists|i: int|
                0 <= i < signers.len() && !config.admins.contains(#[trigger] signers[i]) {
                Some(Failure::Trap(Trap::NotAnAdmin))
            } else {
                None
            },
        }
    }

    pub open spec fn pause_failure(self) -> Option<Failure> {
        if self.paused {
            Some(Failure::Contract(ContractError::ContractPaused))
        } else {
            None
        }
    }

    /// The number filed under an address, 0 if there is none.
    pub open spec fn count(counts: Map<Address, u32>, address: Address) -> u32 {
        if counts.contains_key(address) {
            counts[address]
        } else {
            0
        }
    }
}

/// The first admin that is the zero address or that stands earlier in the list.
pub open spec fn admin_list_failure(admins: Seq<Address>) -> Option<Failure>
    decreases admins.len(),
{
    if admins.len() == 0 {
        None
    } else {
        match admin_list_failure(admins.drop_last()) {
            Some(failure) => Some(failure),
            None => if admins.last().is_zero() {
                Some(Failure::Contract(ContractError::ZeroAddress))
            } else if admins.drop_last().contains(admins.last()) {
                Some(Failure::Trap(Trap::DuplicateAdmin))
            } else {
                None
            },
        }
    }
}

/// Why a list of admins with a threshold is refused.
pub open spec fn admin_config_failure(admins: Seq<Address>, threshold: u32) -> Option<Failure> {
    if admins.len() == 0 {
        Some(Failure::Trap(Trap::NoAdmins))
    } else if threshold == 0 {
        Some(Failure::Trap(Trap::ZeroAdminThreshold))
    } else if threshold > admins.len() {
        Some(Failure::Trap(Trap::AdminThresholdTooHigh))
    } else {
        admin_list_failure(admins)
    }
}

/// Returns true if the address is the all-zeros account or contract address.
pub fn is_zero_address(_env: &Env, addr: &Address) -> (zero: bool)
    ensures
        zero == addr.is_zero(),
{
    address::is_zero(addr)
}

pub fn require_not_paused(env: &Env) -> (res: Result<(), ContractError>)
    ensures
        res == (if env@.paused {
            Err::<(), ContractError>(ContractError::ContractPaused)
        } else {
            Ok(())
        }),
{
    if env.paused {
        Err(ContractError::ContractPaused)
    } else {
        Ok(())
    }
}

/// Returns `Err(InsufficientFunds)` if `amount` is not strictly positive.
/// For all numeric inputs that must be above 0 (stakes, loan amounts, thresholds).
pub fn require_positive_amount(_env: &Env, amount: i128) -> (res: Result<(), ContractError>)
    ensures
        res == (if amount <= 0 {
            Err::<(), ContractError>(ContractError::InsufficientFunds)
        } else {
            Ok(())
        }),
{
    if amount <= 0 {
        return Err(ContractError::InsufficientFunds);
    }
    Ok(())
}

/// The protocol parameters, once the contract is initialised.
pub fn config(env: &Env) -> (res: Result<Config, Failure>)
    ensures
        match res {
            Ok(config) => env@.config == Some(config@),
            Err(failure) => env@.config is None && failure == Failure::Trap(Trap::NotInitialized),
        },
{
    match &env.config {
        Some(config) => Ok(config.clone()),
        None => Err(Failure::Trap(Trap::NotInitialized)),
    }
}

/// Adds slashed funds to the treasury.
pub fn add_slash_balance(env: &mut Env, amount: i128) -> (res: Result<(), Failure>)
    ensures
        ({
            let failure = if math::fits(old(env)@.slash_treasury + amount) {
                None
            } else {
                Some(Failure::Trap(Trap::Overflow))
            };
            &&& res == State::verdict(failure, ())
            &&& final(env)@ == old(env)@.unless_failed(
                failure,
                State {
                    slash_treasury: (old(env)@.slash_treasury + amount) as i128,
                    ..old(env)@
                },
            )
        }),
{
    match env.slash_treasury.checked_add(amount) {
        Some(total) => {
            env.slash_treasury = total;
            Ok(())
        },
        None => Err(Failure::Trap(Trap::Overflow)),
    }
}

pub fn has_active_loan(env: &Env, borrower: &Address) -> (active: bool)
    ensures
        active == env@.has_active_loan(*borrower),
{
    match active_loan(env, borrower) {
        Some(loan) => loan.status == LoanStatus::Active,
        None => false,
    }
}

/// The loan filed as the borrower's active one.
pub(crate) fn active_loan<'a>(env: &'a Env, borrower: &Address) -> (loan: Option<&'a LoanRecord>)
    ensures
        match loan {
            Some(loan) => env@.active_loan(*borrower) == Some(loan@),
            None => env@.active_loan(*borrower) is None,
        },
{
    match env.active_loans.get(borrower) {
        Some(id) => env.loans.get(id),
        None => None,
    }
}

/// Hands out the next loan id: ids count up from 1.
pub fn next_loan_id(env: &mut Env) -> (res: Result<u64, Failure>)
    ensures
        ({
            let failure = if old(env)@.loan_counter == u64::MAX {
                Some(Failure::Trap(Trap::LoanIdOverflow))
            } else {
                None
            };
            let id = (old(env)@.loan_counter + 1) as u64;
            &&& res == State::verdict(failure, id)
            &&& final(env)@ == old(env)@.unless_failed(
                failure,
                State { loan_counter: id, ..old(env)@ },
            )
        }),
{
    match env.loan_counter.checked_add(1) {
        Some(id) => {
            env.loan_counter = id;
            Ok(id)
        },
        None => Err(Failure::Trap(Trap::LoanIdOverflow)),
    }
}

pub fn get_active_loan_record(env: &Env, borrower: &Address) -> (res: Result<
    LoanRecord,
    ContractError,
>)
    ensures
        match res {
            Ok(loan) => env@.active_loan(*borrower) == Some(loan@),
            Err(error) => env@.active_loan(*borrower) is None && error
                == ContractError::NoActiveLoan,
        },
{
    match active_loan(env, borrower) {
        Some(loan) => Ok(loan.clone()),
        None => Err(ContractError::NoActiveLoan),
    }
}

pub fn get_latest_loan_record(env: &Env, borrower: &Address) -> (loan: Option<LoanRecord>)
    ensures
        match loan {
            Some(loan) => env@.latest_loan(*borrower) == Some(loan@),
            None => env@.latest_loan(*borrower) is None,
        },
{
    match env.latest_loans.get(borrower) {
        Some(id) => match env.loans.get(id) {
            Some(loan) => Some(loan.clone()),
            None => None,
        },
        None => None,
    }
}

/// The protocol token.
pub fn token(env: &Env) -> (res: Result<Address, Failure>)
    ensures
        res == (match env@.config {
            Some(config) => Ok::<Address, Failure>(config.token),
            None => Err(Failure::Trap(Trap::NotInitialized)),
        }),
{
    match &env.config {
        Some(config) => Ok(config.token),
        None => Err(Failure::Trap(Trap::NotInitialized)),
    }
}

/// Whether the address stands in the list.
pub(crate) fn listed(list: &Vec<Address>, addr: &Address) -> (found: bool)
    ensures
        found == list@.contains(*addr),
{
    let mut i: usize = 0;
    while i < list.len()
        invariant
            i <= list@.len(),
            forall|j: int| 0 <= j < i ==> list@[j] != *addr,
        decreases list@.len() - i,
    {
        if list[i] == *addr {
            assert(list@[i as int] == *addr);
            return true;
        }
        i = i + 1;
    }
    false
}

/// Verifies that `addr` is an accepted token: the protocol token, or one of the allowed tokens.
pub fn require_allowed_token(env: &Env, addr: &Address) -> (res: Result<(), Failure>)
    ensures
        res == State::verdict(env@.token_failure(*addr), ()),
{
    match &env.config {
        Some(config) => if *addr == config.token || listed(&config.allowed_tokens, addr) {
            Ok(())
        } else {
            Err(Failure::Contract(ContractError::InvalidToken))
        },
        None => Err(Failure::Trap(Trap::NotInitialized)),
    }
}

/// Why the signers are no admin approval.
pub(crate) fn approval_failure(env: &Env, admin_signers: &Vec<Address>) -> (failure: Option<
    Failure,
>)
    ensures
        failure == env@.approval_failure(admin_signers@),
{
    match &env.config {
        Some(config) => {
            if admin_signers.len() < config.admin_threshold as usize {
                return Some(Failure::Trap(Trap::InsufficientApprovals));
            }
            let mut i: usize = 0;
            while i < admin_signers.len()
                invariant
                    i <= admin_signers@.len(),
                    forall|j: int| 0 <= j < i ==> config.admins@.contains(admin_signers@[j]),
                    env@.config == Some(config@),
                    admin_signers@.len() >= config.admin_threshold,
                decreases admin_signers@.len() - i,
            {
                if !listed(&config.admins, &admin_signers[i]) {
                    assert(!config@.admins.contains(admin_signers@[i as int]));
                    return Some(Failure::Trap(Trap::NotAnAdmin));
                }
                i = i + 1;
            }
            None
        },
        None => Some(Failure::Trap(Trap::NotInitialized)),
    }
}

/// Requires that enough admins, and only admins, sign the call.
pub fn require_admin_approval(env: &mut Env, admin_signers: &Vec<Address>) -> (res: Result<
    (),
    Failure,
>)
    ensures
        res == State::verdict(old(env)@.approval_failure(admin_signers@), ()),
        final(env)@ == old(env)@.unless_failed(
            old(env)@.approval_failure(admin_signers@),
            old(env)@.authorize_all(admin_signers@),
        ),
{
    match approval_failure(env, admin_signers) {
        Some(failure) => Err(failure),
        None => {
            env.authorize_all(admin_signers);
            Ok(())
        },
    }
}

/// Validates that an address is not a zero address.
pub fn require_valid_address(env: &Env, addr: &Address) -> (res: Result<(), ContractError>)
    ensures
        res == (if addr.is_zero() {
            Err::<(), ContractError>(ContractError::ZeroAddress)
        } else {
            Ok(())
        }),
{
    if is_zero_address(env, addr) {
        Err(ContractError::ZeroAddress)
    } else {
        Ok(())
    }
}

/// Validates that an address implements the token interface. `responds` says whether a call of
/// `balance()` on the address came back.
pub fn require_valid_token(env: &Env, addr: &Address, responds: bool) -> (res: Result<
    (),
    ContractError,
>)
    ensures
        res == (if addr.is_zero() {
            Err::<(), ContractError>(ContractError::ZeroAddress)
        } else if !responds {
            Err(ContractError::InvalidToken)
        } else {
            Ok(())
        }),
{
    match require_valid_address(env, addr) {
        Err(error) => Err(error),
        Ok(()) => if responds {
            Ok(())
        } else {
            Err(ContractError::InvalidToken)
        },
    }
}

/// Requires at least one admin, a threshold that the admins can reach, and admins that are
/// distinct and not zero.
pub fn validate_admin_config(env: &Env, admins: &Vec<Address>, admin_threshold: u32) -> (res: Result<
    (),
    Failure,
>)
    ensures
        res == State::verdict(admin_config_failure(admins@, admin_threshold), ()),
{
    if admins.len() == 0 {
        return Err(Failure::Trap(Trap::NoAdmins));
    }
    if admin_threshold == 0 {
        return Err(Failure::Trap(Trap::ZeroAdminThreshold));
    }
    if admin_threshold as usize > admins.len() {
        return Err(Failure::Trap(Trap::AdminThresholdTooHigh));
    }
    let mut i: usize = 0;
    while i < admins.len()
        invariant
            i <= admins@.len(),
            admin_list_failure(admins@.take(i as int)) is None,
            admins@.len() > 0,
            0 < admin_threshold <= admins@.len(),
        decreases admins@.len() - i,
    {
        let ghost prefix = admins@.take(i + 1);
        proof {
            assert(prefix.drop_last() =~= admins@.take(i as int));
            assert(prefix.last() == admins@[i as int]);
        }
        if is_zero_address(env, &admins[i]) {
            proof {
                lemma_admin_list_failure_stays(admins@, i + 1);
            }
            return Err(Failure::Contract(ContractError::ZeroAddress));
        }
        let mut j: usize = 0;
        while j < i
            invariant
                j <= i < admins@.len(),
                forall|k: int| 0 <= k < j ==> admins@[k] != admins@[i as int],
                prefix == admins@.take(i + 1),
                prefix.drop_last() == admins@.take(i as int),
                prefix.last() == admins@[i as int],
                !admins@[i as int].is_zero(),
                admin_list_failure(admins@.take(i as int)) is None,
                admins@.len() > 0,
                0 < admin_threshold <= admins@.len(),
            decreases i - j,
        {
            if admins[i] == admins[j] {
                proof {
                    assert(prefix.drop_last()[j as int] == prefix.last());
                    lemma_admin_list_failure_stays(admins@, i + 1);
                }
                return Err(Failure::Trap(Trap::DuplicateAdmin));
            }
            j = j + 1;
        }
        i = i + 1;
    }
    assert(admins@.take(i as int) =~= admins@);
    Ok(())
}

/// What is wrong with a part of the list is wrong with the list.
proof fn lemma_admin_list_failure_stays(admins: Seq<Address>, k: int)
    requires
        0 <= k <= admins.len(),
        admin_list_failure(admins.take(k)) is Some,
    ensures
        admin_list_failure(admins) == admin_list_failure(admins.take(k)),
    decreases admins.len() - k,
{
    if k < admins.len() {
        assert(admins.take(k + 1).drop_last() =~= admins.take(k));
        lemma_admin_list_failure_stays(admins, k + 1);
    } else {
        assert(admins.take(k) =~= admins);
    }
}

/// Compute basis points: `amount * bps / 10_000`.
pub fn bps_of(amount: i128, bps: u32) -> (result: i128)
    requires
        math::fits(amount * bps),
    ensures
        result == math::bps(amount as int, bps as int),
{
    amount * bps as i128 / 10_000
}

} // verus!
