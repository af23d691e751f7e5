//! The calls themselves answer and act as the laws on their reasons and their ledgers say: what is
//! refused changes nothing, and what is not leaves the ledger that the laws describe.

use crate::address::Address;
use crate::admin::{self, Setting};
use crate::contract::QuorumCreditContract;
use crate::env::{Env, Event, State};
use crate::errors::{ContractError, Failure, Trap};
use crate::helpers;
use crate::laws_admin;
use crate::laws_governance;
use crate::laws_loan;
use crate::laws_slash;
use crate::laws_terms;
use crate::laws_vouch;
use crate::math;
use crate::slash::{self, Reach};
use crate::types::{Config, VouchRecord};
use vstd::prelude::*;

verus! {

/// A call with a reason against it returns that reason and changes nothing; a call with none
/// returns the value and leaves the next ledger.
pub open spec fn answers<T>(
    before: State,
    after: State,
    res: Result<T, Failure>,
    reason: Option<Failure>,
    next: State,
    value: T,
) -> bool {
    match reason {
        Some(failure) => res == Err::<T, Failure>(failure) && after == before,
        None => res == Ok::<T, Failure>(value) && after == next,
    }
}

/// Staking, raising, lowering, taking back and handing over: each call is refused for the reason,
/// and leaves the ledger, that the laws on vouching speak of.
pub proof fn stake_calls_answer(
    voucher: Address,
    borrower: Address,
    amount: i128,
    token: Address,
    to: Address,
    borrowers: Vec<Address>,
    stakes: Vec<i128>,
)
    ensures
        forall|env: &mut Env, res: Result<(), Failure>|
            #[trigger] call_ensures(
                QuorumCreditContract::vouch,
                (env, voucher, borrower, amount, token),
                res,
            ) ==> answers(
                (*env)@,
                final(env)@,
                res,
                (*env)@.vouch_failure(voucher, borrower, amount, token),
                (*env)@.vouched(voucher, borrower, amount, token),
                (),
            ),
        forall|env: &mut Env, res: Result<(), Failure>|
            #[trigger] call_ensures(
                QuorumCreditContract::batch_vouch,
                (env, voucher, borrowers, stakes, token),
                res,
            ) ==> answers(
                (*env)@,
                final(env)@,
                res,
                (*env)@.batch_vouch_failure(voucher, borrowers@, stakes@, token),
                (*env)@.batch_vouched(voucher, borrowers@, stakes@, token),
                (),
            ),
        forall|env: &mut Env, res: Result<(), Failure>|
            #[trigger] call_ensures(
                QuorumCreditContract::increase_stake,
                (env, voucher, borrower, amount),
                res,
            ) ==> answers(
                (*env)@,
                final(env)@,
                res,
                (*env)@.increase_failure(voucher, borrower, amount),
                (*env)@.increased(voucher, borrower, amount),
                (),
            ),
        forall|env: &mut Env, res: Result<(), Failure>|
            #[trigger] call_ensures(
                QuorumCreditContract::decrease_stake,
                (env, voucher, borrower, amount),
                res,
            ) ==> answers(
                (*env)@,
                final(env)@,
                res,
                (*env)@.decrease_failure(voucher, borrower, amount),
                (*env)@.decreased(voucher, borrower, amount),
                (),
            ),
        forall|env: &mut Env, res: Result<(), Failure>|
            #[trigger] call_ensures(
                QuorumCreditContract::withdraw_vouch,
                (env, voucher, borrower),
                res,
            ) ==> answers(
                (*env)@,
                final(env)@,
                res,
                (*env)@.withdraw_failure(voucher, borrower),
                (*env)@.withdrawn(voucher, borrower),
                (),
            ),
        forall|env: &mut Env, res: Result<(), Failure>|
            #[trigger] call_ensures(
                QuorumCreditContract::transfer_vouch,
                (env, voucher, to, borrower),
                res,
            ) ==> answers(
                (*env)@,
                final(env)@,
                res,
                (*env)@.transfer_failure(voucher, to, borrower),
                (*env)@.transferred(voucher, to, borrower),
                (),
            ),
{
}

/// Borrowing, repaying, referring and lending to a pool: each call is refused for the reason, and
/// leaves the ledger, that the laws on loans and pools speak of. A pool's number is the next one.
pub proof fn loan_calls_answer(
    borrower: Address,
    co_borrowers: Vec<Address>,
    amount: i128,
    threshold: i128,
    loan_purpose: Vec<u8>,
    token: Address,
    contract_balance: i128,
    referrer: Address,
    signers: Vec<Address>,
    borrowers: Vec<Address>,
    amounts: Vec<i128>,
)
    ensures
        forall|env: &mut Env, res: Result<(), Failure>|
            #[trigger] call_ensures(
                QuorumCreditContract::request_loan,
                (
                    env,
                    borrower,
                    co_borrowers,
                    amount,
                    threshold,
                    loan_purpose,
                    token,
                    contract_balance,
                ),
                res,
            ) ==> answers(
                (*env)@,
                final(env)@,
                res,
                (*env)@.request_failure(borrower, amount, threshold, token, contract_balance),
                (*env)@.requested(borrower, co_borrowers@, amount, loan_purpose@, token),
                (),
            ),
        forall|env: &mut Env, res: Result<(), Failure>|
            #[trigger] call_ensures(
                QuorumCreditContract::repay,
                (env, borrower, amount, contract_balance),
                res,
            ) ==> answers(
                (*env)@,
                final(env)@,
                res,
                (*env)@.repay_failure(borrower, amount, contract_balance),
                (*env)@.repaid(borrower, amount),
                (),
            ),
        forall|env: &mut Env, res: Result<(), Failure>|
            #[trigger] call_ensures(
                QuorumCreditContract::register_referral,
                (env, borrower, referrer),
                res,
            ) ==> answers(
                (*env)@,
                final(env)@,
                res,
                (if (*env)@.paused {
                    laws_terms::refusal(ContractError::ContractPaused)
                } else {
                    None
                }),
                (*env)@.referred(borrower, referrer),
                (),
            ),
        forall|env: &mut Env, res: Result<u64, Failure>|
            #[trigger] call_ensures(
                QuorumCreditContract::create_loan_pool,
                (env, signers, borrowers, amounts, contract_balance),
                res,
            ) ==> answers(
                (*env)@,
                final(env)@,
                res,
                (*env)@.pool_failure(signers@, borrowers@, amounts@, contract_balance),
                (*env)@.pooled(signers@, borrowers@, amounts@),
                ((*env)@.pool_counter + 1) as u64,
            ),
{
}

/// Slashing, claiming and governing: each call is refused for the reason, and leaves the ledger,
/// that the laws on defaults and governance speak of. A proposal's number is the next one.
pub proof fn default_calls_answer(
    signers: Vec<Address>,
    borrower: Address,
    voucher: Address,
    approve: bool,
    delay_secs: u64,
    proposal_id: u64,
)
    ensures
        forall|env: &mut Env, res: Result<(), Failure>|
            #[trigger] call_ensures(
                QuorumCreditContract::slash,
                (env, signers, borrower),
                res,
            ) ==> answers(
                (*env)@,
                final(env)@,
                res,
                (*env)@.slash_failure(signers@, borrower),
                (*env)@.slashed(signers@, borrower),
                (),
            ),
        forall|env: &mut Env, res: Result<(), Failure>|
            #[trigger] call_ensures(
                QuorumCreditContract::auto_slash,
                (env, borrower),
                res,
            ) ==> answers(
                (*env)@,
                final(env)@,
                res,
                (*env)@.auto_slash_failure(borrower),
                (*env)@.auto_slashed(borrower),
                (),
            ),
        forall|env: &mut Env, res: Result<(), Failure>|
            #[trigger] call_ensures(
                QuorumCreditContract::claim_expired_loan,
                (env, borrower),
                res,
            ) ==> answers(
                (*env)@,
                final(env)@,
                res,
                (*env)@.claim_failure(borrower),
                (*env)@.claimed(borrower),
                (),
            ),
        forall|env: &mut Env, res: Result<(), Failure>|
            #[trigger] call_ensures(
                QuorumCreditContract::vote_slash,
                (env, voucher, borrower, approve),
                res,
            ) ==> answers(
                (*env)@,
                final(env)@,
                res,
                (*env)@.vote_failure(voucher, borrower, approve),
                (*env)@.slash_voted(voucher, borrower, approve),
                (),
            ),
        forall|env: &mut Env, res: Result<u64, Failure>|
            #[trigger] call_ensures(
                QuorumCreditContract::propose_slash,
                (env, voucher, borrower, delay_secs),
                res,
            ) ==> answers(
                (*env)@,
                final(env)@,
                res,
                (*env)@.propose_failure(voucher, delay_secs),
                (*env)@.slash_proposed(voucher, borrower, delay_secs),
                ((*env)@.proposal_counter + 1) as u64,
            ),
        forall|env: &mut Env, res: Result<(), Failure>|
            #[trigger] call_ensures(
                QuorumCreditContract::execute_slash_proposal,
                (env, proposal_id),
                res,
            ) ==> answers(
                (*env)@,
                final(env)@,
                res,
                (*env)@.execution_failure(proposal_id),
                (*env)@.proposal_executed(proposal_id),
                (),
            ),
        forall|env: &mut Env, res: Result<(), Failure>|
            #[trigger] call_ensures(
                QuorumCreditContract::cancel_slash_proposal,
                (env, voucher, proposal_id),
                res,
            ) ==> answers(
                (*env)@,
                final(env)@,
                res,
                (*env)@.cancel_failure(voucher, proposal_id),
                (*env)@.proposal_cancelled(voucher, proposal_id),
                (),
            ),
{
}

/// Setting up and changing the configuration, the admins, the treasury and the code: each call is
/// refused for the reason, and leaves the ledger, that the laws on admin calls speak of.
pub proof fn admin_calls_answer(
    signers: Vec<Address>,
    deployer: Address,
    admins: Vec<Address>,
    threshold: u32,
    token: Address,
    token_responds: bool,
    config: Config,
    admin: Address,
    new_admin: Address,
    wasm_hash: [u8; 32],
)
    ensures
        forall|env: &mut Env, res: Result<(), Failure>|
            #[trigger] call_ensures(
                QuorumCreditContract::initialize,
                (env, deployer, admins, threshold, token, token_responds),
                res,
            ) ==> answers(
                (*env)@,
                final(env)@,
                res,
                (*env)@.initialize_failure(admins@, threshold, token, token_responds),
                (*env)@.initialized(deployer, admins@, threshold, token),
                (),
            ),
        forall|env: &mut Env, res: Result<(), Failure>|
            #[trigger] call_ensures(
                QuorumCreditContract::set_config,
                (env, signers, config),
                res,
            ) ==> answers(
                (*env)@,
                final(env)@,
                res,
                (*env)@.admin_failure(signers@, admin::config_failure(config@)),
                (*env)@.reconfigured(signers@, config@),
                (),
            ),
        forall|env: &mut Env, res: Result<(), Failure>|
            #[trigger] call_ensures(
                QuorumCreditContract::add_admin,
                (env, signers, new_admin),
                res,
            ) ==> answers(
                (*env)@,
                final(env)@,
                res,
                (*env)@.admin_failure(
                    signers@,
                    helpers::admin_config_failure(
                        (*env)@.config->0.admins.push(new_admin),
                        (*env)@.config->0.admin_threshold,
                    ),
                ),
                (*env)@.with_admins(
                    signers@,
                    (*env)@.config->0.admins.push(new_admin),
                    (*env)@.config->0.admin_threshold,
                ),
                (),
            ),
        forall|env: &mut Env, res: Result<(), Failure>|
            #[trigger] call_ensures(
                QuorumCreditContract::remove_admin,
                (env, signers, admin),
                res,
            ) ==> answers(
                (*env)@,
                final(env)@,
                res,
                (*env)@.admin_failure(signers@, (*env)@.removal_failure(admin)),
                (*env)@.with_admins(
                    signers@,
                    (*env)@.config->0.admins.remove_value(admin),
                    (*env)@.config->0.admin_threshold,
                ),
                (),
            ),
        forall|env: &mut Env, res: Result<(), Failure>|
            #[trigger] call_ensures(
                QuorumCreditContract::rotate_admin,
                (env, signers, admin, new_admin),
                res,
            ) ==> answers(
                (*env)@,
                final(env)@,
                res,
                (*env)@.admin_failure(signers@, (*env)@.rotation_failure(admin, new_admin)),
                (*env)@.with_admins(
                    signers@,
                    (*env)@.rotated_admins(admin, new_admin),
                    (*env)@.config->0.admin_threshold,
                ),
                (),
            ),
        forall|env: &mut Env, res: Result<(), Failure>|
            #[trigger] call_ensures(
                QuorumCreditContract::set_admin_threshold,
                (env, signers, threshold),
                res,
            ) ==> answers(
                (*env)@,
                final(env)@,
                res,
                (*env)@.admin_failure(
                    signers@,
                    helpers::admin_config_failure((*env)@.config->0.admins, threshold),
                ),
                (*env)@.with_admins(signers@, (*env)@.config->0.admins, threshold),
                (),
            ),
        forall|env: &mut Env, res: Result<(), Failure>|
            #[trigger] call_ensures(
                QuorumCreditContract::slash_treasury,
                (env, signers, admin),
                res,
            ) ==> answers(
                (*env)@,
                final(env)@,
                res,
                (*env)@.admin_failure(
                    signers@,
                    if (*env)@.slash_treasury > 0 {
                        None
                    } else {
                        laws_terms::trap(Trap::NoSlashedFunds)
                    },
                ),
                (*env)@.treasury_withdrawn(signers@, admin),
                (),
            ),
        forall|env: &mut Env, res: Result<(), Failure>|
            #[trigger] call_ensures(
                QuorumCreditContract::upgrade,
                (env, signers, wasm_hash),
                res,
            ) ==> answers(
                (*env)@,
                final(env)@,
                res,
                (*env)@.approval_failure(signers@),
                (*env)@.upgraded(signers@, wasm_hash),
                (),
            ),
{
}

/// Each setter sets the parameter that it is named after, to the value that it is given, on the
/// terms that the laws on settings speak of.
pub proof fn setters_answer(
    signers: Vec<Address>,
    amount: i128,
    number: u32,
    address: Address,
    yield_bps: Option<i128>,
    slash_bps: Option<i128>,
)
    ensures
        forall|env: &mut Env, res: Result<(), Failure>|
            #[trigger] call_ensures(
                QuorumCreditContract::set_min_stake,
                (env, signers, amount),
                res,
            ) ==> answers(
                (*env)@,
                final(env)@,
                res,
                (*env)@.set_failure(signers@, Setting::MinStake(amount)),
                (*env)@.set(signers@, Setting::MinStake(amount)),
                (),
            ),
        forall|env: &mut Env, res: Result<(), Failure>|
            #[trigger] call_ensures(
                QuorumCreditContract::set_max_loan_amount,
                (env, signers, amount),
                res,
            ) ==> answers(
                (*env)@,
                final(env)@,
                res,
                (*env)@.set_failure(signers@, Setting::MaxLoanAmount(amount)),
                (*env)@.set(signers@, Setting::MaxLoanAmount(amount)),
                (),
            ),
        forall|env: &mut Env, res: Result<(), Failure>|
            #[trigger] call_ensures(
                QuorumCreditContract::set_min_vouchers,
                (env, signers, number),
                res,
            ) ==> answers(
                (*env)@,
                final(env)@,
                res,
                (*env)@.set_failure(signers@, Setting::MinVouchers(number)),
                (*env)@.set(signers@, Setting::MinVouchers(number)),
                (),
            ),
        forall|env: &mut Env, res: Result<(), Failure>|
            #[trigger] call_ensures(
                QuorumCreditContract::set_max_vouchers_per_loan,
                (env, signers, number),
                res,
            ) ==> answers(
                (*env)@,
                final(env)@,
                res,
                (*env)@.set_failure(signers@, Setting::MaxVouchersPerLoan(number)),
                (*env)@.set(signers@, Setting::MaxVouchersPerLoan(number)),
                (),
            ),
        forall|env: &mut Env, res: Result<(), Failure>|
            #[trigger] call_ensures(
                QuorumCreditContract::set_max_loan_to_stake_ratio,
                (env, signers, number),
                res,
            ) ==> answers(
                (*env)@,
                final(env)@,
                res,
                (*env)@.set_failure(signers@, Setting::MaxLoanToStakeRatio(number)),
                (*env)@.set(signers@, Setting::MaxLoanToStakeRatio(number)),
                (),
            ),
        forall|env: &mut Env, res: Result<(), Failure>|
            #[trigger] call_ensures(
                QuorumCreditContract::update_config,
                (env, signers, yield_bps, slash_bps),
                res,
            ) ==> answers(
                (*env)@,
                final(env)@,
                res,
                (*env)@.set_failure(signers@, (Setting::Rates { yield_bps, slash_bps })),
                (*env)@.set(signers@, (Setting::Rates { yield_bps, slash_bps })),
                (),
            ),
        forall|env: &mut Env, res: Result<(), Failure>|
            #[trigger] call_ensures(
                QuorumCreditContract::add_allowed_token,
                (env, signers, address),
                res,
            ) ==> answers(
                (*env)@,
                final(env)@,
                res,
                (*env)@.set_failure(signers@, Setting::AllowToken(address)),
                (*env)@.set(signers@, Setting::AllowToken(address)),
                (),
            ),
        forall|env: &mut Env, res: Result<(), Failure>|
            #[trigger] call_ensures(
                QuorumCreditContract::remove_allowed_token,
                (env, signers, address),
                res,
            ) ==> answers(
                (*env)@,
                final(env)@,
                res,
                (*env)@.set_failure(signers@, Setting::DisallowToken(address)),
                (*env)@.set(signers@, Setting::DisallowToken(address)),
                (),
            ),
        forall|env: &mut Env, res: Result<(), Failure>|
            #[trigger] call_ensures(
                QuorumCreditContract::set_reputation_nft,
                (env, signers, address),
                res,
            ) ==> answers(
                (*env)@,
                final(env)@,
                res,
                (*env)@.set_failure(signers@, Setting::ReputationNft(address)),
                (*env)@.set(signers@, Setting::ReputationNft(address)),
                (),
            ),
        forall|env: &mut Env, res: Result<(), Failure>|
            #[trigger] call_ensures(
                QuorumCreditContract::set_protocol_fee,
                (env, signers, number),
                res,
            ) ==> answers(
                (*env)@,
                final(env)@,
                res,
                (*env)@.set_failure(signers@, Setting::ProtocolFee(number)),
                (*env)@.set(signers@, Setting::ProtocolFee(number)),
                (),
            ),
        forall|env: &mut Env, res: Result<(), Failure>|
            #[trigger] call_ensures(
                QuorumCreditContract::set_fee_treasury,
                (env, signers, address),
                res,
            ) ==> answers(
                (*env)@,
                final(env)@,
                res,
                (*env)@.set_failure(signers@, Setting::FeeTreasury(address)),
                (*env)@.set(signers@, Setting::FeeTreasury(address)),
                (),
            ),
        forall|env: &mut Env, res: Result<(), Failure>|
            #[trigger] call_ensures(
                QuorumCreditContract::set_referral_bonus_bps,
                (env, signers, number),
                res,
            ) ==> answers(
                (*env)@,
                final(env)@,
                res,
                (*env)@.set_failure(signers@, Setting::ReferralBonus(number)),
                (*env)@.set(signers@, Setting::ReferralBonus(number)),
                (),
            ),
        forall|env: &mut Env, res: Result<(), Failure>|
            #[trigger] call_ensures(
                QuorumCreditContract::set_slash_vote_quorum,
                (env, signers, number),
                res,
            ) ==> answers(
                (*env)@,
                final(env)@,
                res,
                (*env)@.set_failure(signers@, Setting::SlashVoteQuorum(number)),
                (*env)@.set(signers@, Setting::SlashVoteQuorum(number)),
                (),
            ),
        forall|env: &mut Env, res: Result<(), Failure>|
            #[trigger] call_ensures(
                QuorumCreditContract::whitelist_voucher,
                (env, signers, address),
                res,
            ) ==> answers(
                (*env)@,
                final(env)@,
                res,
                (*env)@.set_failure(signers@, Setting::Whitelist(address)),
                (*env)@.set(signers@, Setting::Whitelist(address)),
                (),
            ),
        forall|env: &mut Env, res: Result<(), Failure>|
            #[trigger] call_ensures(
                QuorumCreditContract::blacklist,
                (env, signers, address),
                res,
            ) ==> answers(
                (*env)@,
                final(env)@,
                res,
                (*env)@.set_failure(signers@, Setting::Blacklist(address)),
                (*env)@.set(signers@, Setting::Blacklist(address)),
                (),
            ),
        forall|env: &mut Env, res: Result<(), Failure>|
            #[trigger] call_ensures(QuorumCreditContract::pause, (env, signers), res) ==> answers(
                (*env)@,
                final(env)@,
                res,
                (*env)@.set_failure(signers@, Setting::Paused(true)),
                (*env)@.set(signers@, Setting::Paused(true)),
                (),
            ),
        forall|env: &mut Env, res: Result<(), Failure>|
            #[trigger] call_ensures(QuorumCreditContract::unpause, (env, signers), res) ==> answers(
                (*env)@,
                final(env)@,
                res,
                (*env)@.set_failure(signers@, Setting::Paused(false)),
                (*env)@.set(signers@, Setting::Paused(false)),
                (),
            ),
{
}

/// A vote that succeeds has the loan slashed exactly when there is stake and the approving stake
/// alone, this vote's with it if it approves, reaches the quorum. One that leaves the approving
/// stake below the quorum leaves the loan active.
pub proof fn vote_call_slashes_on_approval_alone(
    voucher: Address,
    borrower: Address,
    approve: bool,
    k: int,
)
    ensures
        forall|env: &mut Env, res: Result<(), Failure>| #[trigger]
            call_ensures(QuorumCreditContract::vote_slash, (env, voucher, borrower, approve), res)
                && res is Ok && (*env)@.wf() && laws_terms::is_first(
                laws_terms::backing((*env)@, borrower),
                voucher,
                k,
            ) ==> {
                let stake = laws_terms::backing((*env)@, borrower)[k].stake;
                let total = laws_governance::electorate((*env)@, borrower);
                let approving = laws_governance::ballot((*env)@, borrower).approve_stake + (
                if approve {
                    stake as int
                } else {
                    0
                });
                let reached = total > 0 && approving * 10_000 >= (*env)@.slash_vote_quorum * total;
                &&& final(env)@.slash_votes.contains_key(borrower)
                &&& final(env)@.slash_votes[borrower].approve_stake == approving
                &&& final(env)@.slash_votes[borrower].executed <==> reached
                &&& laws_terms::owes(final(env)@, borrower) <==> !reached
                &&& !reached ==> laws_terms::filed(final(env)@, borrower) == laws_terms::filed(
                    (*env)@,
                    borrower,
                )
            },
{
    assert forall|env: &mut Env, res: Result<(), Failure>| #[trigger]
        call_ensures(QuorumCreditContract::vote_slash, (env, voucher, borrower, approve), res)
            && res is Ok && (*env)@.wf() && laws_terms::is_first(
            laws_terms::backing((*env)@, borrower),
            voucher,
            k,
        ) implies {
        let stake = laws_terms::backing((*env)@, borrower)[k].stake;
        let total = laws_governance::electorate((*env)@, borrower);
        let approving = laws_governance::ballot((*env)@, borrower).approve_stake + (if approve {
            stake as int
        } else {
            0
        });
        let reached = total > 0 && approving * 10_000 >= (*env)@.slash_vote_quorum * total;
        &&& final(env)@.slash_votes.contains_key(borrower)
        &&& final(env)@.slash_votes[borrower].approve_stake == approving
        &&& final(env)@.slash_votes[borrower].executed <==> reached
        &&& laws_terms::owes(final(env)@, borrower) <==> !reached
        &&& !reached ==> laws_terms::filed(final(env)@, borrower) == laws_terms::filed(
            (*env)@,
            borrower,
        )
    } by {
        laws_governance::approving_stake_alone_decides(
            (*env)@,
            voucher,
            borrower,
            approve,
            k,
        );
    }
}

/// The loan that a request has filed is due the configured time from now, neither sooner nor later,
/// and bears the configured yield.
pub proof fn request_call_sets_the_deadline(
    borrower: Address,
    co_borrowers: Vec<Address>,
    amount: i128,
    threshold: i128,
    loan_purpose: Vec<u8>,
    token: Address,
    contract_balance: i128,
)
    ensures
        forall|env: &mut Env, res: Result<(), Failure>| #[trigger]
            call_ensures(
                QuorumCreditContract::request_loan,
                (
                    env,
                    borrower,
                    co_borrowers,
                    amount,
                    threshold,
                    loan_purpose,
                    token,
                    contract_balance,
                ),
                res,
            ) && res is Ok ==> {
                let granted = laws_terms::filed(final(env)@, borrower);
                let config = (*env)@.config->0;
                &&& (*env)@.config is Some
                &&& laws_terms::owes(final(env)@, borrower)
                &&& granted.deadline == (*env)@.now + config.loan_duration
                &&& granted.amount == amount
                &&& amount >= 0 && config.yield_bps >= 0 ==> laws_terms::rounded_down(
                    granted.total_yield as int,
                    amount * config.yield_bps,
                    10_000,
                )
            },
{
    assert forall|env: &mut Env, res: Result<(), Failure>| #[trigger]
        call_ensures(
            QuorumCreditContract::request_loan,
            (
                env,
                borrower,
                co_borrowers,
                amount,
                threshold,
                loan_purpose,
                token,
                contract_balance,
            ),
            res,
        ) && res is Ok implies {
        let granted = laws_terms::filed(final(env)@, borrower);
        let config = (*env)@.config->0;
        &&& (*env)@.config is Some
        &&& laws_terms::owes(final(env)@, borrower)
        &&& granted.deadline == (*env)@.now + config.loan_duration
        &&& granted.amount == amount
        &&& amount >= 0 && config.yield_bps >= 0 ==> laws_terms::rounded_down(
            granted.total_yield as int,
            amount * config.yield_bps,
            10_000,
        )
    } by {
        laws_loan::request_is_granted_exactly_when(
            (*env)@,
            borrower,
            amount,
            threshold,
            token,
            contract_balance,
        );
        laws_loan::loan_has_the_configured_terms(
            (*env)@,
            borrower,
            co_borrowers@,
            amount,
            threshold,
            loan_purpose@,
            token,
            contract_balance,
        );
    }
}

/// The payment that pays a loan off pays the treasury the rate of the amount, rounded down, in the
/// loan's token, wherever that comes to anything; a referrer takes nothing off it.
pub proof fn repay_call_pays_the_treasury(
    borrower: Address,
    payment: i128,
    contract_balance: i128,
)
    ensures
        forall|env: &mut Env, res: Result<(), Failure>| #[trigger]
            call_ensures(
                QuorumCreditContract::repay,
                (env, borrower, payment, contract_balance),
                res,
            ) && res is Ok && (*env)@.wf() && laws_loan::pays_off((*env)@, borrower, payment)
                && (*env)@.fee_treasury is Some && laws_terms::filed((*env)@, borrower).amount
                * (*env)@.protocol_fee_bps >= 10_000 ==> exists|fee: i128|
                laws_terms::rounded_down(
                    fee as int,
                    laws_terms::filed((*env)@, borrower).amount * (*env)@.protocol_fee_bps,
                    10_000,
                ) && final(env)@.effects.contains(
                    #[trigger] laws_terms::transfer(
                        laws_terms::filed((*env)@, borrower).token_address,
                        (*env)@.contract,
                        (*env)@.fee_treasury->0,
                        fee,
                    ),
                ),
{
    assert forall|env: &mut Env, res: Result<(), Failure>| #[trigger]
        call_ensures(
            QuorumCreditContract::repay,
            (env, borrower, payment, contract_balance),
            res,
        ) && res is Ok && (*env)@.wf() && laws_loan::pays_off((*env)@, borrower, payment)
            && (*env)@.fee_treasury is Some && laws_terms::filed((*env)@, borrower).amount * (
        *env)@.protocol_fee_bps >= 10_000 implies exists|fee: i128|
        laws_terms::rounded_down(
            fee as int,
            laws_terms::filed((*env)@, borrower).amount * (*env)@.protocol_fee_bps,
            10_000,
        ) && final(env)@.effects.contains(
            #[trigger] laws_terms::transfer(
                laws_terms::filed((*env)@, borrower).token_address,
                (*env)@.contract,
                (*env)@.fee_treasury->0,
                fee,
            ),
        ) by {
        laws_loan::treasury_is_paid_the_fee((*env)@, borrower, payment, contract_balance);
    }
}

/// A withdrawal takes the caller's own vouch out of the list and no other, wherever it stands, and
/// pays the caller that vouch's stake in that vouch's token.
pub proof fn withdraw_call_returns_the_own_vouch(voucher: Address, borrower: Address)
    ensures
        forall|env: &mut Env, res: Result<(), Failure>| #[trigger]
            call_ensures(QuorumCreditContract::withdraw_vouch, (env, voucher, borrower), res)
                && res is Ok ==> {
                let list = laws_terms::backing((*env)@, borrower);
                let after = laws_terms::backing(final(env)@, borrower);
                exists|k: int| #[trigger]
                    laws_terms::is_first(list, voucher, k) && after == list.take(k) + list.skip(
                        k + 1,
                    ) && final(env)@.effects.contains(
                        laws_terms::transfer(
                            list[k].token,
                            (*env)@.contract,
                            voucher,
                            list[k].stake,
                        ),
                    )
            },
        forall|env: &mut Env, res: Result<(), Failure>, other: Address| #[trigger]
            call_ensures(QuorumCreditContract::withdraw_vouch, (env, voucher, borrower), res)
                && res is Ok && other != borrower ==> #[trigger] laws_terms::backing(
                final(env)@,
                other,
            ) == laws_terms::backing((*env)@, other),
{
    assert forall|env: &mut Env, res: Result<(), Failure>| #[trigger]
        call_ensures(QuorumCreditContract::withdraw_vouch, (env, voucher, borrower), res) && res
            is Ok implies {
        let list = laws_terms::backing((*env)@, borrower);
        let after = laws_terms::backing(final(env)@, borrower);
        exists|k: int| #[trigger]
            laws_terms::is_first(list, voucher, k) && after == list.take(k) + list.skip(k + 1)
                && final(env)@.effects.contains(
                laws_terms::transfer(list[k].token, (*env)@.contract, voucher, list[k].stake),
            )
    } by {
        laws_vouch::withdrawal_returns_the_own_stake((*env)@, voucher, borrower);
        let list = laws_terms::backing((*env)@, borrower);
        let after = laws_terms::backing(final(env)@, borrower);
        let start = (*env)@.effects.len() as int;
        let k = choose|k: int| #[trigger]
            laws_terms::is_first(list, voucher, k) && after == list.take(k) + list.skip(k + 1)
                && final(env)@.effects == (*env)@.effects + seq![
                laws_terms::signature(voucher),
                laws_terms::transfer(list[k].token, (*env)@.contract, voucher, list[k].stake),
                laws_terms::announcement(
                    Event::VouchWithdrawn { voucher, borrower, stake: list[k].stake },
                ),
            ];
        assert(final(env)@.effects[start + 1] == laws_terms::transfer(
            list[k].token,
            (*env)@.contract,
            voucher,
            list[k].stake,
        ));
    }
    assert forall|env: &mut Env, res: Result<(), Failure>, other: Address| #[trigger]
        call_ensures(QuorumCreditContract::withdraw_vouch, (env, voucher, borrower), res) && res
            is Ok && other != borrower implies #[trigger] laws_terms::backing(final(env)@, other)
        == laws_terms::backing((*env)@, other) by {
        laws_vouch::withdrawal_returns_the_own_stake((*env)@, voucher, borrower);
        let before = (*env)@.vouches.remove(borrower);
        let after = final(env)@.vouches.remove(borrower);
        assert(before.contains_key(other) == after.contains_key(other));
        assert(before[other] == after[other]);
    }
}

/// A slash leaves each voucher its stake less the rate of it, rounded down, however large the stake
/// is: where one vouch stands behind the borrower the treasury gains exactly that cut.
pub proof fn slash_call_cuts_the_rate(signers: Vec<Address>, borrower: Address)
    ensures
        forall|env: &mut Env, res: Result<(), Failure>| #[trigger]
            call_ensures(QuorumCreditContract::slash, (env, signers, borrower), res) && res is Ok
                && (*env)@.wf() ==> {
                let list = laws_terms::backing((*env)@, borrower);
                let gain = final(env)@.slash_treasury - (*env)@.slash_treasury;
                let rate = (*env)@.config->0.slash_bps;
                &&& gain == math::sum(
                    list.map_values(|vouch: VouchRecord| slash::cut(vouch.stake, rate)),
                )
                &&& list.len() == 1 ==> laws_terms::rounded_down(
                    gain,
                    list[0].stake * rate,
                    10_000,
                )
            },
{
    assert forall|env: &mut Env, res: Result<(), Failure>| #[trigger]
        call_ensures(QuorumCreditContract::slash, (env, signers, borrower), res) && res is Ok && (
        *env)@.wf() implies {
        let list = laws_terms::backing((*env)@, borrower);
        let gain = final(env)@.slash_treasury - (*env)@.slash_treasury;
        let rate = (*env)@.config->0.slash_bps;
        &&& gain == math::sum(list.map_values(|vouch: VouchRecord| slash::cut(vouch.stake, rate)))
        &&& list.len() == 1 ==> laws_terms::rounded_down(gain, list[0].stake * rate, 10_000)
    } by {
        laws_slash::slash_cuts_every_stake((*env)@, signers@, borrower);
        let list = laws_terms::backing((*env)@, borrower);
        let rate = (*env)@.config->0.slash_bps;
        assert(slash::cuts(list, Reach::EveryToken, rate) =~= list.map_values(
            |vouch: VouchRecord| slash::cut(vouch.stake, rate),
        ));
        if list.len() == 1 {
            assert(list =~= seq![].push(list[0]));
            assert(list[0].stake > 0) by {
                assert((*env)@.vouches.contains_key(borrower));
            }
            laws_terms::signers_are_refused_unless_they_approve((*env)@, signers@);
            laws_admin::configuration_is_accepted_exactly_when((*env)@.config->0);
            laws_slash::cuts_add_up(seq![], list[0], Reach::EveryToken, rate);
        }
    }
}

} // verus!
