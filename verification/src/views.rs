//! Read-only entry points.

use crate::address::Address;
use crate::contract::QuorumCreditContract;
use crate::env::{Env, State};
use crate::errors::{Failure, Trap};
use crate::helpers::{self, get_latest_loan_record, has_active_loan, listed};
use crate::math;
use crate::types::{Config, LoanRecord, LoanStatus, LoanView, VouchRecord};
use crate::vouch::{self, total_stake_in};
use vstd::prelude::*;

verus! {

impl State {
    /// Why a page of loans is not shown.
    pub open spec fn listing_failure(self, caller: Address, page: u32, page_size: u32) -> Option<
        Failure,
    > {
        if self.config is None {
            Some(Failure::Trap(Trap::NotInitialized))
        } else if !self.config->0.admins.contains(caller) {
            Some(Failure::Trap(Trap::Unauthorized))
        } else if page_size == 0 {
            Some(Failure::Trap(Trap::ZeroPageSize))
        } else if page * page_size > u32::MAX {
            Some(Failure::Trap(Trap::Overflow))
        } else {
            None
        }
    }

    /// The borrowers on a page of the list of all borrowers.
    pub open spec fn page(self, page: u32, page_size: u32) -> Seq<Address> {
        let length = self.borrower_list.len() as int;
        let start = vstd::math::min(page * page_size, length);
        self.borrower_list.subrange(start, vstd::math::min(start + page_size, length))
    }

    pub open spec fn has_loan(self) -> spec_fn(Address) -> bool {
        |borrower: Address| self.latest_loan(borrower) is Some
    }

    /// The latest loan of each borrower that has one.
    pub open spec fn loans_of(self, borrowers: Seq<Address>) -> Seq<LoanView> {
        borrowers.filter(self.has_loan()).map_values(
            |borrower: Address| self.latest_loan(borrower)->0,
        )
    }

    pub open spec fn eligibility_failure(self, borrower: Address, threshold: i128, token: Address) -> Option<
        Failure,
    > {
        if threshold > 0 && !self.has_active_loan(borrower) && !math::adds_up(
            vouch::stakes_in(self.vouches_of(borrower), token),
        ) {
            Some(Failure::Trap(Trap::Overflow))
        } else {
            None
        }
    }

    /// The borrower has no active loan, and enough stake in the token behind it.
    pub open spec fn is_eligible(self, borrower: Address, threshold: i128, token: Address) -> bool {
        threshold > 0 && !self.has_active_loan(borrower) && self.stake_in(borrower, token)
            >= threshold
    }
}

/// The records as views.
pub open spec fn views(records: Seq<LoanRecord>) -> Seq<LoanView> {
    records.map_values(|record: LoanRecord| record@)
}

impl QuorumCreditContract {
    pub fn is_initialized(env: &Env) -> (initialized: bool)
        ensures
            initialized == (env@.config is Some),
    {
        env.config.is_some()
    }

    pub fn get_token(env: &Env) -> (res: Result<Address, Failure>)
        ensures
            res == (match env@.config {
                Some(config) => Ok::<Address, Failure>(config.token),
                None => Err(Failure::Trap(Trap::NotInitialized)),
            }),
    {
        helpers::token(env)
    }

    pub fn get_admins(env: &Env) -> (res: Result<Vec<Address>, Failure>)
        ensures
            match res {
                Ok(admins) => env@.config is Some && admins@ == env@.config->0.admins,
                Err(failure) => env@.config is None && failure == Failure::Trap(
                    Trap::NotInitialized,
                ),
            },
    {
        match helpers::config(env) {
            Ok(config) => Ok(config.admins),
            Err(failure) => Err(failure),
        }
    }

    pub fn get_admin_threshold(env: &Env) -> (res: Result<u32, Failure>)
        ensures
            res == (match env@.config {
                Some(config) => Ok::<u32, Failure>(config.admin_threshold),
                None => Err(Failure::Trap(Trap::NotInitialized)),
            }),
    {
        match &env.config {
            Some(config) => Ok(config.admin_threshold),
            None => Err(Failure::Trap(Trap::NotInitialized)),
        }
    }

    /// Returns the current protocol config.
    pub fn get_config(env: &Env) -> (res: Result<Config, Failure>)
        ensures
            match res {
                Ok(config) => env@.config == Some(config@),
                Err(failure) => env@.config is None && failure == Failure::Trap(
                    Trap::NotInitialized,
                ),
            },
    {
        helpers::config(env)
    }

    /// Returns the current maximum vouchers per loan cap.
    pub fn get_max_vouchers_per_loan(env: &Env) -> (res: Result<u32, Failure>)
        ensures
            res == (match env@.config {
                Some(config) => Ok::<u32, Failure>(config.max_vouchers),
                None => Err(Failure::Trap(Trap::NotInitialized)),
            }),
    {
        match &env.config {
            Some(config) => Ok(config.max_vouchers),
            None => Err(Failure::Trap(Trap::NotInitialized)),
        }
    }

    /// Returns the largest loan, in percent of the stake behind it.
    pub fn get_max_loan_to_stake_ratio(env: &Env) -> (res: Result<u32, Failure>)
        ensures
            res == (match env@.config {
                Some(config) => Ok::<u32, Failure>(config.max_loan_to_stake_ratio),
                None => Err(Failure::Trap(Trap::NotInitialized)),
            }),
    {
        match &env.config {
            Some(config) => Ok(config.max_loan_to_stake_ratio),
            None => Err(Failure::Trap(Trap::NotInitialized)),
        }
    }

    pub fn get_slash_treasury(env: &Env) -> (amount: i128)
        ensures
            amount == env@.slash_treasury,
    {
        env.slash_treasury
    }

    pub fn get_slash_treasury_balance(env: &Env) -> (amount: i128)
        ensures
            amount == env@.slash_treasury,
    {
        env.slash_treasury
    }

    pub fn get_paused(env: &Env) -> (paused: bool)
        ensures
            paused == env@.paused,
    {
        env.paused
    }

    /// Returns the current minimum vouch stake (0 means no minimum).
    pub fn get_min_stake(env: &Env) -> (amount: i128)
        ensures
            amount == env@.min_stake,
    {
        env.min_stake
    }

    /// Returns the current maximum loan amount (0 means no cap).
    pub fn get_max_loan_amount(env: &Env) -> (amount: i128)
        ensures
            amount == env@.max_loan_amount,
    {
        env.max_loan_amount
    }

    /// Returns the current minimum voucher count (0 means no minimum).
    pub fn get_min_vouchers(env: &Env) -> (count: u32)
        ensures
            count == env@.min_vouchers,
    {
        env.min_vouchers
    }

    /// Returns the current protocol fee (0 if not set).
    pub fn get_protocol_fee(env: &Env) -> (fee_bps: u32)
        ensures
            fee_bps == env@.protocol_fee_bps,
    {
        env.protocol_fee_bps
    }

    pub fn get_fee_treasury(env: &Env) -> (treasury: Option<Address>)
        ensures
            treasury == env@.fee_treasury,
    {
        env.fee_treasury
    }

    pub fn get_referral_bonus_bps(env: &Env) -> (bonus_bps: u32)
        ensures
            bonus_bps == env@.referral_bonus_bps,
    {
        env.referral_bonus_bps
    }

    pub fn get_referrer(env: &Env, borrower: Address) -> (referrer: Option<Address>)
        ensures
            referrer == (if env@.referrers.contains_key(borrower) {
                Some(env@.referrers[borrower])
            } else {
                None
            }),
    {
        match env.referrers.get(&borrower) {
            Some(referrer) => Some(*referrer),
            None => None,
        }
    }

    pub fn is_whitelisted(env: &Env, voucher: Address) -> (whitelisted: bool)
        ensures
            whitelisted == (env@.whitelist.contains_key(voucher) && env@.whitelist[voucher]),
    {
        match env.whitelist.get(&voucher) {
            Some(whitelisted) => *whitelisted,
            None => false,
        }
    }

    pub fn is_blacklisted(env: &Env, borrower: Address) -> (banned: bool)
        ensures
            banned == env@.is_blacklisted(borrower),
    {
        match env.blacklist.get(&borrower) {
            Some(banned) => *banned,
            None => false,
        }
    }

    /// Where the borrower's latest loan stands.
    pub fn loan_status(env: &Env, borrower: Address) -> (status: LoanStatus)
        ensures
            status == (match env@.latest_loan(borrower) {
                Some(loan) => loan.status,
                None => LoanStatus::NoLoan,
            }),
    {
        match get_latest_loan_record(env, &borrower) {
            Some(loan) => loan.status,
            None => LoanStatus::NoLoan,
        }
    }

    /// Returns the borrower's latest loan.
    pub fn get_loan(env: &Env, borrower: Address) -> (loan: Option<LoanRecord>)
        ensures
            match loan {
                Some(loan) => env@.latest_loan(borrower) == Some(loan@),
                None => env@.latest_loan(borrower) is None,
            },
    {
        get_latest_loan_record(env, &borrower)
    }

    pub fn get_loan_by_id(env: &Env, loan_id: u64) -> (loan: Option<LoanRecord>)
        ensures
            match loan {
                Some(loan) => env@.loans.contains_key(loan_id) && env@.loans[loan_id] == loan@,
                None => !env@.loans.contains_key(loan_id),
            },
    {
        match env.loans.get(&loan_id) {
            Some(loan) => Some(loan.clone()),
            None => None,
        }
    }

    pub fn get_vouches(env: &Env, borrower: Address) -> (vouches: Option<Vec<VouchRecord>>)
        ensures
            match vouches {
                Some(vouches) => env@.vouches.contains_key(borrower) && env@.vouches[borrower]
                    == vouches@,
                None => !env@.vouches.contains_key(borrower),
            },
    {
        match env.vouches.get(&borrower) {
            Some(vouches) => {
                let copy = vouches.clone();
                assert(copy@ =~= vouches@);
                Some(copy)
            },
            None => None,
        }
    }

    /// Read-only eligibility check for frontends. Only stakes in `token` count.
    pub fn is_eligible(env: &Env, borrower: Address, threshold: i128, token: Address) -> (res: Result<
        bool,
        Failure,
    >)
        ensures
            res == State::verdict(
                env@.eligibility_failure(borrower, threshold, token),
                env@.is_eligible(borrower, threshold, token),
            ),
    {
        if threshold <= 0 {
            return Ok(false);
        }
        if has_active_loan(env, &borrower) {
            return Ok(false);
        }
        let none: Vec<VouchRecord> = Vec::new();
        let vouches: &Vec<VouchRecord> = match env.vouches.get(&borrower) {
            Some(vouches) => vouches,
            None => &none,
        };
        assert(vouches@ =~= env@.vouches_of(borrower));
        match total_stake_in(vouches, &token) {
            Some(stake) => Ok(stake >= threshold),
            None => Err(Failure::Trap(Trap::Overflow)),
        }
    }

    /// Returns the reputation score for a borrower. `score` is the borrower's balance at the
    /// reputation contract, if there is one.
    pub fn get_reputation(env: &Env, _borrower: Address, score: u32) -> (reputation: u32)
        ensures
            reputation == (if env@.reputation_nft is Some {
                score
            } else {
                0
            }),
    {
        match env.reputation_nft {
            Some(_) => score,
            None => 0,
        }
    }

    /// Returns the total number of successful repayments for a borrower.
    pub fn repayment_count(env: &Env, borrower: Address) -> (count: u32)
        ensures
            count == State::count(env@.repayment_counts, borrower),
    {
        match env.repayment_counts.get(&borrower) {
            Some(count) => *count,
            None => 0,
        }
    }

    /// Returns the total number of loans disbursed to a borrower.
    pub fn loan_count(env: &Env, borrower: Address) -> (count: u32)
        ensures
            count == State::count(env@.loan_counts, borrower),
    {
        match env.loan_counts.get(&borrower) {
            Some(count) => *count,
            None => 0,
        }
    }

    /// Returns the total number of defaults of a borrower.
    pub fn default_count(env: &Env, borrower: Address) -> (count: u32)
        ensures
            count == State::count(env@.default_counts, borrower),
    {
        match env.default_counts.get(&borrower) {
            Some(count) => *count,
            None => 0,
        }
    }

    /// Admin-only paginated view of all loan records.
    /// Returns the loans of the borrowers on the given page (0-indexed).
    pub fn get_all_loans(env: &Env, caller: Address, page: u32, page_size: u32) -> (res: Result<
        Vec<LoanRecord>,
        Failure,
    >)
        ensures
            match res {
                Ok(loans) => {
                    &&& env@.listing_failure(caller, page, page_size) is None
                    &&& views(loans@) == env@.loans_of(env@.page(page, page_size))
                },
                Err(failure) => env@.listing_failure(caller, page, page_size) == Some(failure),
            },
    {
        match &env.config {
            None => {
                return Err(Failure::Trap(Trap::NotInitialized));
            },
            Some(config) => {
                if !listed(&config.admins, &caller) {
                    return Err(Failure::Trap(Trap::Unauthorized));
                }
            },
        }
        if page_size == 0 {
            return Err(Failure::Trap(Trap::ZeroPageSize));
        }
        let start: u32 = match page.checked_mul(page_size) {
            Some(start) => start,
            None => {
                return Err(Failure::Trap(Trap::Overflow));
            },
        };
        let ghost all = env@.page(page, page_size);
        let mut loans: Vec<LoanRecord> = Vec::new();
        let mut taken: u32 = 0;
        proof {
            reveal(Seq::filter);
            assert(views(loans@) =~= env@.loans_of(all.take(0)));
        }
        let length: usize = env.borrower_list.len();
        while taken < page_size && (start as usize) < length && (taken as usize) < length
            - start as usize
            invariant
                length == env@.borrower_list.len(),
                start == page * page_size,
                all == env@.page(page, page_size),
                taken <= page_size,
                taken <= all.len(),
                views(loans@) == env@.loans_of(all.take(taken as int)),
            decreases page_size - taken,
        {
            let borrower = env.borrower_list[start as usize + taken as usize];
            proof {
                assert(all[taken as int] == borrower);
                math::lemma_filter_step(all, env@.has_loan(), taken as int);
            }
            let ghost before = loans@;
            if let Some(loan) = get_latest_loan_record(env, &borrower) {
                loans.push(loan);
                assert(views(loans@) =~= views(before).push(loan@));
            }
            taken = taken + 1;
            assert(views(loans@) =~= env@.loans_of(all.take(taken as int)));
        }
        assert(all.take(taken as int) =~= all);
        Ok(loans)
    }
}

} // verus!
