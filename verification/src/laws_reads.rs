//! What the calls that only read give back: what the ledger holds, for the address or the number
//! that is asked for.

use crate::address::Address;
use crate::contract::QuorumCreditContract;
use crate::env::{Env, Payment, State};
use crate::errors::{ContractError, Failure, Trap};
use crate::helpers;
use crate::laws_terms;
use crate::math;
use crate::reputation::{ReputationEnv, ReputationNftContract};
use crate::types::{
    Config, LoanPoolRecord, LoanRecord, LoanStatus, SlashVoteRecord, TimelockProposal, VouchRecord,
};
use vstd::prelude::*;

verus! {

/// A contract that is set up gives its configuration back, whole or in part; one that is not says
/// so.
pub proof fn configuration_is_read(env: &Env)
    ensures
        forall|res: bool| #[trigger]
            call_ensures(QuorumCreditContract::is_initialized, (env,), res) ==> (res
                <==> env@.config is Some),
        forall|res: Result<Config, Failure>| #[trigger]
            call_ensures(QuorumCreditContract::get_config, (env,), res) ==> match res {
                Ok(config) => env@.config == Some(config@),
                Err(failure) => env@.config is None && failure == Failure::Trap(
                    Trap::NotInitialized,
                ),
            },
        forall|res: Result<Address, Failure>| #[trigger]
            call_ensures(QuorumCreditContract::get_token, (env,), res) ==> match res {
                Ok(token) => env@.config is Some && token == env@.config->0.token,
                Err(failure) => env@.config is None && failure == Failure::Trap(
                    Trap::NotInitialized,
                ),
            },
        forall|res: Result<Vec<Address>, Failure>| #[trigger]
            call_ensures(QuorumCreditContract::get_admins, (env,), res) ==> match res {
                Ok(admins) => env@.config is Some && admins@ == env@.config->0.admins,
                Err(failure) => env@.config is None && failure == Failure::Trap(
                    Trap::NotInitialized,
                ),
            },
        forall|res: Result<u32, Failure>| #[trigger]
            call_ensures(QuorumCreditContract::get_admin_threshold, (env,), res) ==> match res {
                Ok(threshold) => env@.config is Some && threshold
                    == env@.config->0.admin_threshold,
                Err(failure) => env@.config is None && failure == Failure::Trap(
                    Trap::NotInitialized,
                ),
            },
        forall|res: Result<u32, Failure>| #[trigger]
            call_ensures(QuorumCreditContract::get_max_vouchers_per_loan, (env,), res)
                ==> match res {
                Ok(max) => env@.config is Some && max == env@.config->0.max_vouchers,
                Err(failure) => env@.config is None && failure == Failure::Trap(
                    Trap::NotInitialized,
                ),
            },
        forall|res: Result<u32, Failure>| #[trigger]
            call_ensures(QuorumCreditContract::get_max_loan_to_stake_ratio, (env,), res)
                ==> match res {
                Ok(ratio) => env@.config is Some && ratio == env@.config->0.max_loan_to_stake_ratio,
                Err(failure) => env@.config is None && failure == Failure::Trap(
                    Trap::NotInitialized,
                ),
            },
{
}

/// Each parameter is read as it was set.
pub proof fn parameters_are_read(env: &Env)
    ensures
        forall|res: i128| #[trigger]
            call_ensures(QuorumCreditContract::get_slash_treasury, (env,), res) ==> res
                == env@.slash_treasury,
        forall|res: i128| #[trigger]
            call_ensures(QuorumCreditContract::get_slash_treasury_balance, (env,), res) ==> res
                == env@.slash_treasury,
        forall|res: bool| #[trigger]
            call_ensures(QuorumCreditContract::get_paused, (env,), res) ==> res == env@.paused,
        forall|res: i128| #[trigger]
            call_ensures(QuorumCreditContract::get_min_stake, (env,), res) ==> res
                == env@.min_stake,
        forall|res: i128| #[trigger]
            call_ensures(QuorumCreditContract::get_max_loan_amount, (env,), res) ==> res
                == env@.max_loan_amount,
        forall|res: u32| #[trigger]
            call_ensures(QuorumCreditContract::get_min_vouchers, (env,), res) ==> res
                == env@.min_vouchers,
        forall|res: u32| #[trigger]
            call_ensures(QuorumCreditContract::get_protocol_fee, (env,), res) ==> res
                == env@.protocol_fee_bps,
        forall|res: Option<Address>| #[trigger]
            call_ensures(QuorumCreditContract::get_fee_treasury, (env,), res) ==> res
                == env@.fee_treasury,
        forall|res: u32| #[trigger]
            call_ensures(QuorumCreditContract::get_referral_bonus_bps, (env,), res) ==> res
                == env@.referral_bonus_bps,
        forall|res: u32| #[trigger]
            call_ensures(QuorumCreditContract::get_slash_vote_quorum, (env,), res) ==> res
                == env@.slash_vote_quorum,
        forall|res: u64| #[trigger]
            call_ensures(QuorumCreditContract::get_loan_pool_count, (env,), res) ==> res
                == env@.pool_counter,
{
}

/// A borrower's record: the latest loan and its status, the counts, the ban, the referrer, the
/// votes.
pub proof fn borrower_is_read(env: &Env, borrower: Address)
    ensures
        forall|res: Option<LoanRecord>| #[trigger]
            call_ensures(QuorumCreditContract::get_loan, (env, borrower), res) ==> match res {
                Some(loan) => laws_terms::has_borrowed(env@, borrower) && loan@
                    == env@.loans[env@.latest_loans[borrower]],
                None => !laws_terms::has_borrowed(env@, borrower),
            },
        forall|res: LoanStatus| #[trigger]
            call_ensures(QuorumCreditContract::loan_status, (env, borrower), res) ==> res == (
            if laws_terms::has_borrowed(env@, borrower) {
                env@.loans[env@.latest_loans[borrower]].status
            } else {
                LoanStatus::NoLoan
            }),
        forall|res: u32| #[trigger]
            call_ensures(QuorumCreditContract::repayment_count, (env, borrower), res) ==> res
                == laws_terms::tally(env@.repayment_counts, borrower),
        forall|res: u32| #[trigger]
            call_ensures(QuorumCreditContract::loan_count, (env, borrower), res) ==> res
                == laws_terms::tally(env@.loan_counts, borrower),
        forall|res: u32| #[trigger]
            call_ensures(QuorumCreditContract::default_count, (env, borrower), res) ==> res
                == laws_terms::tally(env@.default_counts, borrower),
        forall|res: bool| #[trigger]
            call_ensures(QuorumCreditContract::is_blacklisted, (env, borrower), res) ==> res
                == laws_terms::banned(env@, borrower),
        forall|res: Option<Address>| #[trigger]
            call_ensures(QuorumCreditContract::get_referrer, (env, borrower), res) ==> match res {
                Some(referrer) => env@.referrers.contains_key(borrower) && referrer
                    == env@.referrers[borrower],
                None => !env@.referrers.contains_key(borrower),
            },
        forall|res: Option<SlashVoteRecord>| #[trigger]
            call_ensures(QuorumCreditContract::get_slash_vote, (env, borrower), res)
                ==> match res {
                Some(vote) => env@.slash_votes.contains_key(borrower) && vote@
                    == env@.slash_votes[borrower],
                None => !env@.slash_votes.contains_key(borrower),
            },
        forall|score: u32, res: u32| #[trigger]
            call_ensures(QuorumCreditContract::get_reputation, (env, borrower, score), res) ==> res
                == (if env@.reputation_nft is Some {
                score
            } else {
                0
            }),
{
    laws_terms::look_ups_read_the_ledger(env@, borrower, env@.loan_counts);
}

/// Loans, pools and proposals are found by their numbers, and by no other.
pub proof fn records_are_read_by_number(env: &Env, id: u64)
    ensures
        forall|res: Option<LoanRecord>| #[trigger]
            call_ensures(QuorumCreditContract::get_loan_by_id, (env, id), res) ==> match res {
                Some(loan) => env@.loans.contains_key(id) && loan@ == env@.loans[id],
                None => !env@.loans.contains_key(id),
            },
        forall|res: Option<LoanPoolRecord>| #[trigger]
            call_ensures(QuorumCreditContract::get_loan_pool, (env, id), res) ==> match res {
                Some(pool) => env@.pools.contains_key(id) && pool@ == env@.pools[id],
                None => !env@.pools.contains_key(id),
            },
        forall|res: Option<TimelockProposal>| #[trigger]
            call_ensures(QuorumCreditContract::get_timelock_proposal, (env, id), res)
                ==> match res {
                Some(proposal) => env@.proposals.contains_key(id) && proposal@ == env@.proposals[id],
                None => !env@.proposals.contains_key(id),
            },
{
}

/// The vouches behind a borrower, who is among them, and what they add up to; and the borrowers
/// that a voucher has backed, and whether it is on the whitelist.
pub proof fn vouches_are_read(env: &Env, voucher: Address, borrower: Address)
    ensures
        forall|res: Option<Vec<VouchRecord>>| #[trigger]
            call_ensures(QuorumCreditContract::get_vouches, (env, borrower), res) ==> match res {
                Some(vouches) => env@.vouches.contains_key(borrower) && vouches@
                    == env@.vouches[borrower],
                None => !env@.vouches.contains_key(borrower),
            },
        forall|res: bool| #[trigger]
            call_ensures(QuorumCreditContract::vouch_exists, (env, voucher, borrower), res) ==> (
            !res <==> laws_terms::is_absent(laws_terms::backing(env@, borrower), voucher)),
        forall|res: Result<i128, ContractError>| #[trigger]
            call_ensures(QuorumCreditContract::total_vouched, (env, borrower), res) ==> ({
                let stakes = laws_terms::backing(env@, borrower).map_values(
                    |vouch: VouchRecord| vouch.stake as int,
                );
                match res {
                    Ok(total) => math::adds_up(stakes) && total == math::sum(stakes),
                    Err(error) => !math::adds_up(stakes) && error == ContractError::StakeOverflow,
                }
            }),
        forall|res: Vec<Address>| #[trigger]
            call_ensures(QuorumCreditContract::voucher_history, (env, voucher), res) ==> res@
                == laws_terms::backed(env@, voucher),
        forall|res: bool| #[trigger]
            call_ensures(QuorumCreditContract::is_whitelisted, (env, voucher), res) ==> (res <==> (
            env@.whitelist.contains_key(voucher) && env@.whitelist[voucher])),
{
    let list = laws_terms::backing(env@, borrower);
    let stakes = list.map_values(|vouch: VouchRecord| vouch.stake as int);
    laws_terms::look_ups_read_the_ledger(env@, borrower, env@.loan_counts);
    laws_terms::look_ups_read_the_ledger(env@, voucher, env@.loan_counts);
    assert(crate::vouch::stakes(list) =~= stakes);
    assert(math::adds_up(stakes) ==> math::fits(math::sum(stakes))) by {
        assert(stakes.take(stakes.len() as int) =~= stakes);
        if math::adds_up(stakes) {
            assert(math::fits(math::sum(stakes.take(stakes.len() as int))));
        }
    }
}

/// Eligibility and the pages of loans are read as the laws on them say.
pub proof fn questions_are_answered(
    env: &Env,
    borrower: Address,
    threshold: i128,
    token: Address,
    page: u32,
    page_size: u32,
)
    ensures
        forall|res: Result<bool, Failure>| #[trigger]
            call_ensures(
                QuorumCreditContract::is_eligible,
                (env, borrower, threshold, token),
                res,
            ) ==> match res {
                Ok(eligible) => env@.eligibility_failure(borrower, threshold, token) is None
                    && eligible == env@.is_eligible(borrower, threshold, token),
                Err(failure) => env@.eligibility_failure(borrower, threshold, token) == Some(
                    failure,
                ),
            },
        forall|res: Result<Vec<LoanRecord>, Failure>| #[trigger]
            call_ensures(
                QuorumCreditContract::get_all_loans,
                (env, borrower, page, page_size),
                res,
            ) ==> match res {
                Ok(loans) => env@.listing_failure(borrower, page, page_size) is None
                    && loans@.map_values(|loan: LoanRecord| loan@) == env@.loans_of(
                    env@.page(page, page_size),
                ),
                Err(failure) => env@.listing_failure(borrower, page, page_size) == Some(failure),
            },
{
    assert forall|res: Result<Vec<LoanRecord>, Failure>| #[trigger]
        call_ensures(
            QuorumCreditContract::get_all_loans,
            (env, borrower, page, page_size),
            res,
        ) implies match res {
        Ok(loans) => env@.listing_failure(borrower, page, page_size) is None && loans@.map_values(
            |loan: LoanRecord| loan@,
        ) == env@.loans_of(env@.page(page, page_size)),
        Err(failure) => env@.listing_failure(borrower, page, page_size) == Some(failure),
    } by {
        if let Ok(loans) = res {
            assert(crate::views::views(loans@) =~= loans@.map_values(|loan: LoanRecord| loan@));
        }
    }
}

/// The checks that the calls share give the answers of the laws on them.
pub proof fn checks_answer(
    env: &Env,
    address: &Address,
    amount: i128,
    rate: u32,
    responds: bool,
    admins: &Vec<Address>,
    threshold: u32,
)
    ensures
        forall|res: bool| #[trigger]
            call_ensures(helpers::is_zero_address, (env, address), res) ==> res
                == address.is_zero(),
        forall|res: Result<(), ContractError>| #[trigger]
            call_ensures(helpers::require_not_paused, (env,), res) ==> if env@.paused {
                res == Err::<(), ContractError>(ContractError::ContractPaused)
            } else {
                res is Ok
            },
        forall|res: Result<(), ContractError>| #[trigger]
            call_ensures(helpers::require_positive_amount, (env, amount), res) ==> if amount > 0 {
                res is Ok
            } else {
                res == Err::<(), ContractError>(ContractError::InsufficientFunds)
            },
        forall|res: bool| #[trigger]
            call_ensures(helpers::has_active_loan, (env, address), res) ==> res
                == laws_terms::owes(env@, *address),
        forall|res: Result<(), Failure>| #[trigger]
            call_ensures(helpers::require_allowed_token, (env, address), res) ==> if env@.config
                is None {
                res == Err::<(), Failure>(Failure::Trap(Trap::NotInitialized))
            } else if laws_terms::accepts(env@, *address) {
                res is Ok
            } else {
                res == Err::<(), Failure>(Failure::Contract(ContractError::InvalidToken))
            },
        forall|res: Result<(), ContractError>| #[trigger]
            call_ensures(helpers::require_valid_address, (env, address), res)
                ==> if address.is_zero() {
                res == Err::<(), ContractError>(ContractError::ZeroAddress)
            } else {
                res is Ok
            },
        forall|res: Result<(), ContractError>| #[trigger]
            call_ensures(helpers::require_valid_token, (env, address, responds), res)
                ==> if address.is_zero() {
                res == Err::<(), ContractError>(ContractError::ZeroAddress)
            } else if responds {
                res is Ok
            } else {
                res == Err::<(), ContractError>(ContractError::InvalidToken)
            },
        forall|res: Result<(), Failure>| #[trigger]
            call_ensures(helpers::validate_admin_config, (env, admins, threshold), res)
                ==> match helpers::admin_config_failure(admins@, threshold) {
                Some(failure) => res == Err::<(), Failure>(failure),
                None => res is Ok,
            },
        forall|res: i128| #[trigger]
            call_ensures(helpers::bps_of, (amount, rate), res) && amount >= 0
                ==> laws_terms::rounded_down(res as int, amount * rate, 10_000),
        forall|numerator: i128, denominator: i128, res: Option<i128>| #[trigger]
            call_ensures(math::portion, (amount, numerator, denominator), res) && amount >= 0
                && numerator >= 0 && denominator > 0 ==> match res {
                Some(q) => laws_terms::rounded_down(
                    q as int,
                    amount * numerator,
                    denominator as int,
                ),
                None => amount * numerator > i128::MAX,
            },
{
    laws_terms::look_ups_read_the_ledger(env@, *address, env@.loan_counts);
    laws_terms::tokens_are_refused_unless_accepted(env@, *address);
    if amount >= 0 {
        laws_terms::basis_points_round_down(amount as int, rate as int);
    }
    assert forall|numerator: i128, denominator: i128, res: Option<i128>| #[trigger]
        call_ensures(math::portion, (amount, numerator, denominator), res) && amount >= 0
            && numerator >= 0 && denominator > 0 implies match res {
        Some(q) => laws_terms::rounded_down(q as int, amount * numerator, denominator as int),
        None => amount * numerator > i128::MAX,
    } by {
        let product = amount * numerator;
        assert(product >= 0) by (nonlinear_arith)
            requires
                product == amount * numerator,
                amount >= 0,
                numerator >= 0,
        ;
        laws_terms::division_rounds_towards_zero(product, denominator as int);
    }
}

/// The look-ups that the calls share give back what the ledger holds.
pub proof fn shared_look_ups_answer(env: &Env, borrower: &Address)
    ensures
        forall|res: Result<Config, Failure>| #[trigger]
            call_ensures(helpers::config, (env,), res) ==> match res {
                Ok(config) => env@.config == Some(config@),
                Err(failure) => env@.config is None && failure == Failure::Trap(
                    Trap::NotInitialized,
                ),
            },
        forall|res: Result<Address, Failure>| #[trigger]
            call_ensures(helpers::token, (env,), res) ==> match res {
                Ok(token) => env@.config is Some && token == env@.config->0.token,
                Err(failure) => env@.config is None && failure == Failure::Trap(
                    Trap::NotInitialized,
                ),
            },
        forall|res: Result<LoanRecord, ContractError>| #[trigger]
            call_ensures(helpers::get_active_loan_record, (env, borrower), res) ==> match res {
                Ok(loan) => laws_terms::on_file(env@, *borrower) && loan@ == laws_terms::filed(
                    env@,
                    *borrower,
                ),
                Err(error) => !laws_terms::on_file(env@, *borrower) && error
                    == ContractError::NoActiveLoan,
            },
        forall|res: Option<LoanRecord>| #[trigger]
            call_ensures(helpers::get_latest_loan_record, (env, borrower), res) ==> match res {
                Some(loan) => laws_terms::has_borrowed(env@, *borrower) && loan@
                    == env@.loans[env@.latest_loans[*borrower]],
                None => !laws_terms::has_borrowed(env@, *borrower),
            },
{
    laws_terms::look_ups_read_the_ledger(env@, *borrower, env@.loan_counts);
}

/// The changes that the calls share: the treasury gains exactly what is added, the next loan's
/// number is one more than the last, and an approval asks for every signature. Each fails only
/// where the number cannot be stored, or the signers do not approve, and then changes nothing.
pub proof fn shared_changes_answer(amount: i128, signers: &Vec<Address>)
    ensures
        forall|env: &mut Env, res: Result<(), Failure>| #[trigger]
            call_ensures(helpers::add_slash_balance, (env, amount), res) ==> {
                let sum = (*env)@.slash_treasury + amount;
                if i128::MIN <= sum <= i128::MAX {
                    &&& res is Ok
                    &&& final(env)@.slash_treasury == sum
                    &&& final(env)@ == State {
                        slash_treasury: final(env)@.slash_treasury,
                        ..(*env)@
                    }
                } else {
                    res == Err::<(), Failure>(Failure::Trap(Trap::Overflow)) && final(env)@ == (
                    *env)@
                }
            },
        forall|env: &mut Env, res: Result<u64, Failure>| #[trigger]
            call_ensures(helpers::next_loan_id, (env,), res) ==> match res {
                Ok(id) => {
                    &&& id == (*env)@.loan_counter + 1
                    &&& final(env)@ == State { loan_counter: id, ..(*env)@ }
                },
                Err(failure) => {
                    &&& (*env)@.loan_counter == u64::MAX
                    &&& failure == Failure::Trap(Trap::LoanIdOverflow)
                    &&& final(env)@ == (*env)@
                },
            },
        forall|env: &mut Env, res: Result<(), Failure>| #[trigger]
            call_ensures(helpers::require_admin_approval, (env, signers), res) ==> {
                &&& res is Ok <==> laws_terms::approved((*env)@, signers@)
                &&& res is Ok ==> final(env)@.effects == (*env)@.effects + laws_terms::signatures(
                    signers@,
                )
                &&& res is Ok ==> final(env)@ == State {
                    effects: final(env)@.effects,
                    ..(*env)@
                }
                &&& res is Err ==> final(env)@ == (*env)@
            },
{
    assert forall|env: &mut Env, res: Result<(), Failure>| #[trigger]
        call_ensures(helpers::require_admin_approval, (env, signers), res) implies {
        &&& res is Ok <==> laws_terms::approved((*env)@, signers@)
        &&& res is Ok ==> final(env)@.effects == (*env)@.effects + laws_terms::signatures(signers@)
        &&& res is Ok ==> final(env)@ == State { effects: final(env)@.effects, ..(*env)@ }
        &&& res is Err ==> final(env)@ == (*env)@
    } by {
        laws_terms::signers_are_refused_unless_they_approve((*env)@, signers@);
        if res is Ok {
            assert(final(env)@.effects =~= (*env)@.effects + laws_terms::signatures(signers@));
        }
    }
}

/// The reputation contract answers and acts as the laws on points say; a second set-up is refused,
/// and the first records the minter.
pub proof fn reputation_calls_answer(reader: &ReputationEnv, address: Address)
    ensures
        forall|res: u32| #[trigger]
            call_ensures(ReputationNftContract::balance, (reader, address), res) ==> res
                == laws_terms::tally(reader@.scores, address),
        forall|env: &mut ReputationEnv, res: Result<(), Failure>| #[trigger]
            call_ensures(ReputationNftContract::initialize, (env, address), res) ==> if (
            *env)@.minter is Some {
                res == Err::<(), Failure>(Failure::Trap(Trap::AlreadyInitialized)) && final(env)@
                    == (*env)@
            } else {
                res is Ok && final(env)@.minter == Some(address) && final(env)@.scores == (
                *env)@.scores
            },
        forall|env: &mut ReputationEnv, res: Result<Address, Failure>| #[trigger]
            call_ensures(ReputationNftContract::mint, (env, address), res) ==> match (
            *env)@.mint_failure(address) {
                Some(failure) => res == Err::<Address, Failure>(failure) && final(env)@ == (
                *env)@,
                None => res == Ok::<Address, Failure>((*env)@.minter->0) && final(env)@ == (
                *env)@.minted(address),
            },
        forall|env: &mut ReputationEnv, res: Result<Address, Failure>| #[trigger]
            call_ensures(ReputationNftContract::burn, (env, address), res) ==> match (
            *env)@.burn_failure() {
                Some(failure) => res == Err::<Address, Failure>(failure) && final(env)@ == (
                *env)@,
                None => res == Ok::<Address, Failure>((*env)@.minter->0) && final(env)@ == (
                *env)@.burnt(address),
            },
{
}

/// What tells the words of two traps apart: how long they are, and some letters.
spec fn outline(text: Seq<char>) -> (nat, char, char) {
    (text.len(), text[0], text[text.len() - 1])
}

spec fn outline_of(trap: Trap) -> (nat, char, char) {
    match trap {
        Trap::NotInitialized => (15, 'n', 'd'),
        Trap::Overflow => (19, 'a', 'w'),
        Trap::LoanIdOverflow => (16, 'l', 'w'),
        Trap::PoolIdOverflow => (16, 'p', 'w'),
        Trap::ProposalIdOverflow => (20, 'p', 'w'),
        Trap::InsufficientApprovals => (28, 'i', 's'),
        Trap::NotAnAdmin => (32, 's', 'n'),
        Trap::NoAdmins => (30, 'a', 'd'),
        Trap::ZeroAdminThreshold => (41, 'a', 'o'),
        Trap::AdminThresholdTooHigh => (41, 'a', 't'),
        Trap::DuplicateAdmin => (15, 'd', 'n'),
        Trap::AdminNotFound => (15, 'a', 'd'),
        Trap::ContractPaused => (18, 'c', 'd'),
        Trap::SelfVouch => (29, 'v', 'f'),
        Trap::StakeBelowYieldMinimum => (67, 's', 'n'),
        Trap::MaxVouchersPerLoan => (34, 'm', 'd'),
        Trap::BatchLengthMismatch => (36, 'b', 'h'),
        Trap::BatchEmpty => (21, 'b', 'y'),
        Trap::VouchNotFound => (15, 'v', 'd'),
        Trap::DecreaseNotPositive => (41, 'd', 'o'),
        Trap::DecreaseExceedsStake => (37, 'd', 't'),
        Trap::LoanAlreadyActive => (19, 'l', 'e'),
        Trap::LoanBelowMinimum => (39, 'l', 'd'),
        Trap::ThresholdNotPositive => (35, 't', 'o'),
        Trap::BorrowerHasActiveLoan => (35, 'b', 'n'),
        Trap::CollateralRatioExceeded => (44, 'l', 'o'),
        Trap::NoActiveLoan => (14, 'n', 'n'),
        Trap::DeadlinePassed => (24, 'l', 'd'),
        Trap::InvalidPayment => (22, 'i', 't'),
        Trap::InsufficientYieldBalance => (52, 'i', 'n'),
        Trap::LoanNotExpired => (24, 'l', 't'),
        Trap::DeadlineNotPassed => (28, 'l', 'd'),
        Trap::AlreadyDefaulted => (17, 'a', 'd'),
        Trap::NoSlashedFunds => (28, 'n', 'w'),
        Trap::NegativeMinStake => (28, 'm', 'e'),
        Trap::NegativeMaxLoanAmount => (34, 'm', 'e'),
        Trap::ZeroMaxVouchers => (47, 'm', 'o'),
        Trap::NegativeYield => (30, 'y', 'e'),
        Trap::SlashBpsOutOfRange => (25, 's', '0'),
        Trap::MinLoanNotPositive => (41, 'm', 'o'),
        Trap::ZeroLoanDuration => (39, 'l', 'o'),
        Trap::ZeroLoanToStakeRatio => (49, 'm', 'o'),
        Trap::FeeTooHigh => (29, 'f', '0'),
        Trap::BonusTooHigh => (31, 'b', '0'),
        Trap::QuorumOutOfRange => (26, 'q', '0'),
        Trap::NotProposer => (24, 'o', 'l'),
        Trap::Unauthorized => (12, 'u', 'd'),
        Trap::ZeroPageSize => (35, 'p', 'o'),
        Trap::AlreadyInitialized => (19, 'a', 'd'),
    }
}

proof fn lemma_outline(trap: Trap)
    ensures
        outline(trap.spec_message()) == outline_of(trap),
{
    match trap {
        Trap::NotInitialized => {
            reveal_strlit("not initialized");
        },
        Trap::Overflow => {
            reveal_strlit("arithmetic overflow");
        },
        Trap::LoanIdOverflow => {
            reveal_strlit("loan ID overflow");
        },
        Trap::PoolIdOverflow => {
            reveal_strlit("pool ID overflow");
        },
        Trap::ProposalIdOverflow => {
            reveal_strlit("proposal ID overflow");
        },
        Trap::InsufficientApprovals => {
            reveal_strlit("insufficient admin approvals");
        },
        Trap::NotAnAdmin => {
            reveal_strlit("signer is not a registered admin");
        },
        Trap::NoAdmins => {
            reveal_strlit("at least one admin is required");
        },
        Trap::ZeroAdminThreshold => {
            reveal_strlit("admin threshold must be greater than zero");
        },
        Trap::AdminThresholdTooHigh => {
            reveal_strlit("admin threshold cannot exceed admin count");
        },
        Trap::DuplicateAdmin => {
            reveal_strlit("duplicate admin");
        },
        Trap::AdminNotFound => {
            reveal_strlit("admin not found");
        },
        Trap::ContractPaused => {
            reveal_strlit("contract is paused");
        },
        Trap::SelfVouch => {
            reveal_strlit("voucher cannot vouch for self");
        },
        Trap::StakeBelowYieldMinimum => {
            reveal_strlit("stake too small: would produce zero yield due to integer truncation");
        },
        Trap::MaxVouchersPerLoan => {
            reveal_strlit("maximum vouchers per loan exceeded");
        },
        Trap::BatchLengthMismatch => {
            reveal_strlit("borrowers and stakes length mismatch");
        },
        Trap::BatchEmpty => {
            reveal_strlit("batch cannot be empty");
        },
        Trap::VouchNotFound => {
            reveal_strlit("vouch not found");
        },
        Trap::DecreaseNotPositive => {
            reveal_strlit("decrease amount must be greater than zero");
        },
        Trap::DecreaseExceedsStake => {
            reveal_strlit("decrease amount exceeds staked amount");
        },
        Trap::LoanAlreadyActive => {
            reveal_strlit("loan already active");
        },
        Trap::LoanBelowMinimum => {
            reveal_strlit("loan amount must meet minimum threshold");
        },
        Trap::ThresholdNotPositive => {
            reveal_strlit("threshold must be greater than zero");
        },
        Trap::BorrowerHasActiveLoan => {
            reveal_strlit("borrower already has an active loan");
        },
        Trap::CollateralRatioExceeded => {
            reveal_strlit("loan amount exceeds maximum collateral ratio");
        },
        Trap::NoActiveLoan => {
            reveal_strlit("no active loan");
        },
        Trap::DeadlinePassed => {
            reveal_strlit("loan deadline has passed");
        },
        Trap::InvalidPayment => {
            reveal_strlit("invalid payment amount");
        },
        Trap::InsufficientYieldBalance => {
            reveal_strlit("insufficient contract balance for yield distribution");
        },
        Trap::LoanNotExpired => {
            reveal_strlit("loan has not expired yet");
        },
        Trap::DeadlineNotPassed => {
            reveal_strlit("loan deadline has not passed");
        },
        Trap::AlreadyDefaulted => {
            reveal_strlit("already defaulted");
        },
        Trap::NoSlashedFunds => {
            reveal_strlit("no slashed funds to withdraw");
        },
        Trap::NegativeMinStake => {
            reveal_strlit("min stake cannot be negative");
        },
        Trap::NegativeMaxLoanAmount => {
            reveal_strlit("max loan amount cannot be negative");
        },
        Trap::ZeroMaxVouchers => {
            reveal_strlit("max_vouchers_per_loan must be greater than zero");
        },
        Trap::NegativeYield => {
            reveal_strlit("yield_bps must be non-negative");
        },
        Trap::SlashBpsOutOfRange => {
            reveal_strlit("slash_bps must be 1-10000");
        },
        Trap::MinLoanNotPositive => {
            reveal_strlit("min_loan_amount must be greater than zero");
        },
        Trap::ZeroLoanDuration => {
            reveal_strlit("loan_duration must be greater than zero");
        },
        Trap::ZeroLoanToStakeRatio => {
            reveal_strlit("max_loan_to_stake_ratio must be greater than zero");
        },
        Trap::FeeTooHigh => {
            reveal_strlit("fee_bps must not exceed 10000");
        },
        Trap::BonusTooHigh => {
            reveal_strlit("bonus_bps must not exceed 10000");
        },
        Trap::QuorumOutOfRange => {
            reveal_strlit("quorum_bps must be 1-10000");
        },
        Trap::NotProposer => {
            reveal_strlit("only proposer can cancel");
        },
        Trap::Unauthorized => {
            reveal_strlit("unauthorized");
        },
        Trap::ZeroPageSize => {
            reveal_strlit("page_size must be greater than zero");
        },
        Trap::AlreadyInitialized => {
            reveal_strlit("already initialized");
        },
    }
}

/// No two traps say the same.
pub proof fn traps_have_words_of_their_own(a: Trap, b: Trap)
    ensures
        a.spec_message() == b.spec_message() <==> a == b,
{
    lemma_outline(a);
    lemma_outline(b);
}

/// An address that is written out is read back as it was.
pub proof fn addresses_survive_serialisation(address: &Address, written: Vec<u8>)
    ensures
        forall|back: Option<Address>|
            call_ensures(Address::to_xdr, (address,), written) && #[trigger] call_ensures(
                Address::from_xdr,
                (&written,),
                back,
            ) ==> back == Some(*address),
        call_ensures(Address::to_xdr, (address,), written) ==> {
            let start = if *address is Account {
                12int
            } else {
                8
            };
            &&& written@.len() == start + 32
            &&& written@.skip(start) == address.bytes()
            &&& written@[3] == 18
            &&& written@[7] == (if *address is Account {
                0u8
            } else {
                1u8
            })
            &&& forall|i: int| 0 <= i < start && i != 3 && i != 7 ==> #[trigger] written@[i] == 0
        },
{
    assert forall|back: Option<Address>|
        call_ensures(Address::to_xdr, (address,), written) && #[trigger] call_ensures(
            Address::from_xdr,
            (&written,),
            back,
        ) implies back == Some(*address) by {
        if back is Some {
            crate::address::xdr_is_unambiguous(*address, back->0);
        }
    }
    if call_ensures(Address::to_xdr, (address,), written) {
        let start = if *address is Account {
            12int
        } else {
            8
        };
        assert(written@.skip(start) =~= address.bytes());
    }
}

/// What a call asks of the host is put at the end of the list, one entry each.
pub proof fn host_is_asked_in_order(
    address: Address,
    addresses: &Vec<Address>,
    token: Address,
    amount: i128,
    payments: &Vec<Payment>,
    now: u64,
    fresh: Env,
)
    ensures
        forall|env: &mut Env| #[trigger]
            call_ensures(Env::authorize, (env, address), ()) ==> final(env)@ == (State {
                effects: (*env)@.effects + seq![laws_terms::signature(address)],
                ..(*env)@
            }),
        forall|env: &mut Env| #[trigger]
            call_ensures(Env::authorize_all, (env, addresses), ()) ==> final(env)@ == (State {
                effects: (*env)@.effects + laws_terms::signatures(addresses@),
                ..(*env)@
            }),
        forall|env: &mut Env| #[trigger]
            call_ensures(Env::collect, (env, token, address, amount), ()) ==> final(env)@ == (
            State {
                effects: (*env)@.effects + seq![
                    laws_terms::transfer(token, address, (*env)@.contract, amount),
                ],
                ..(*env)@
            }),
        forall|env: &mut Env| #[trigger]
            call_ensures(Env::pay, (env, token, address, amount), ()) ==> final(env)@ == (State {
                effects: (*env)@.effects + seq![
                    laws_terms::transfer(token, (*env)@.contract, address, amount),
                ],
                ..(*env)@
            }),
        forall|env: &mut Env| #[trigger]
            call_ensures(Env::pay_all, (env, payments), ()) ==> final(env)@ == (State {
                effects: (*env)@.effects + laws_terms::outgoing(payments@, (*env)@.contract),
                ..(*env)@
            }),
        call_ensures(Env::new, (now, address), fresh) ==> fresh@ == State::genesis(now, address),
{
    assert forall|env: &mut Env| #[trigger]
        call_ensures(Env::authorize_all, (env, addresses), ()) implies final(env)@ == (State {
        effects: (*env)@.effects + laws_terms::signatures(addresses@),
        ..(*env)@
    }) by {
        assert(final(env)@.effects =~= (*env)@.effects + laws_terms::signatures(addresses@));
    }
    assert forall|env: &mut Env| #[trigger]
        call_ensures(Env::pay_all, (env, payments), ()) implies final(env)@ == (State {
        effects: (*env)@.effects + laws_terms::outgoing(payments@, (*env)@.contract),
        ..(*env)@
    }) by {
        assert(final(env)@.effects =~= (*env)@.effects + laws_terms::outgoing(
            payments@,
            (*env)@.contract,
        ));
    }
}

} // verus!
