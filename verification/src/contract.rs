//! The lending contract's entry points for vouchers, borrowers and governance.

use crate::address::Address;
use crate::env::{Env, State};
use crate::errors::{ContractError, Failure};
use crate::governance;
use crate::helpers::require_not_paused;
use crate::math;
use crate::types::{SlashVoteRecord, TimelockProposal};
use crate::vouch;
use vstd::prelude::*;

verus! {

/// Loans that are backed by the stakes of vouchers.
///
/// A call reads and changes an [`Env`] and leaves in it what the host has to do. A call that
/// fails leaves the `Env` as it was.
pub struct QuorumCreditContract;

impl State {
    /// Who referred a borrower is recorded.
    pub open spec fn referred(self, borrower: Address, referrer: Address) -> State {
        State { referrers: self.referrers.insert(borrower, referrer), ..self }.authorize(borrower)
    }
}

impl QuorumCreditContract {
    /// Stake tokens to vouch for a borrower.
    pub fn vouch(
        env: &mut Env,
        voucher: Address,
        borrower: Address,
        stake: i128,
        token: Address,
    ) -> (res: Result<(), Failure>)
        ensures
            res == State::verdict(old(env)@.vouch_failure(voucher, borrower, stake, token), ()),
            final(env)@ == old(env)@.unless_failed(
                old(env)@.vouch_failure(voucher, borrower, stake, token),
                old(env)@.vouched(voucher, borrower, stake, token),
            ),
    {
        vouch::vouch(env, voucher, borrower, stake, token)
    }

    /// Vouch for several borrowers at once, all or none.
    pub fn batch_vouch(
        env: &mut Env,
        voucher: Address,
        borrowers: Vec<Address>,
        stakes: Vec<i128>,
        token: Address,
    ) -> (res: Result<(), Failure>)
        ensures
            res == State::verdict(
                old(env)@.batch_vouch_failure(voucher, borrowers@, stakes@, token),
                (),
            ),
            final(env)@ == old(env)@.unless_failed(
                old(env)@.batch_vouch_failure(voucher, borrowers@, stakes@, token),
                old(env)@.batch_vouched(voucher, borrowers@, stakes@, token),
            ),
    {
        vouch::batch_vouch(env, voucher, borrowers, stakes, token)
    }

    /// Add more stake to an existing vouch for a borrower.
    pub fn increase_stake(
        env: &mut Env,
        voucher: Address,
        borrower: Address,
        additional: i128,
    ) -> (res: Result<(), Failure>)
        ensures
            res == State::verdict(old(env)@.increase_failure(voucher, borrower, additional), ()),
            final(env)@ == old(env)@.unless_failed(
                old(env)@.increase_failure(voucher, borrower, additional),
                old(env)@.increased(voucher, borrower, additional),
            ),
    {
        vouch::increase_stake(env, voucher, borrower, additional)
    }

    /// Reduce stake from an existing vouch before any active loan exists.
    pub fn decrease_stake(env: &mut Env, voucher: Address, borrower: Address, amount: i128) -> (res:
        Result<(), Failure>)
        ensures
            res == State::verdict(old(env)@.decrease_failure(voucher, borrower, amount), ()),
            final(env)@ == old(env)@.unless_failed(
                old(env)@.decrease_failure(voucher, borrower, amount),
                old(env)@.decreased(voucher, borrower, amount),
            ),
    {
        vouch::decrease_stake(env, voucher, borrower, amount)
    }

    /// Withdraw a vouch before any loan is active, returning the exact stake to the voucher.
    pub fn withdraw_vouch(env: &mut Env, voucher: Address, borrower: Address) -> (res: Result<
        (),
        Failure,
    >)
        ensures
            res == State::verdict(old(env)@.withdraw_failure(voucher, borrower), ()),
            final(env)@ == old(env)@.unless_failed(
                old(env)@.withdraw_failure(voucher, borrower),
                old(env)@.withdrawn(voucher, borrower),
            ),
    {
        vouch::withdraw_vouch(env, voucher, borrower)
    }

    /// Hand a vouch over to another voucher, before a loan is active.
    pub fn transfer_vouch(env: &mut Env, from: Address, to: Address, borrower: Address) -> (res:
        Result<(), Failure>)
        ensures
            res == State::verdict(old(env)@.transfer_failure(from, to, borrower), ()),
            final(env)@ == old(env)@.unless_failed(
                old(env)@.transfer_failure(from, to, borrower),
                old(env)@.transferred(from, to, borrower),
            ),
    {
        vouch::transfer_vouch(env, from, to, borrower)
    }

    /// Whether the voucher vouches for the borrower.
    pub fn vouch_exists(env: &Env, voucher: Address, borrower: Address) -> (found: bool)
        ensures
            found == exists|i: int|
                0 <= i < env@.vouches_of(borrower).len() && (#[trigger] env@.vouches_of(
                    borrower,
                )[i]).voucher == voucher,
    {
        vouch::vouch_exists(env, voucher, borrower)
    }

    /// Returns the total staked amount across all vouchers for a given borrower.
    pub fn total_vouched(env: &Env, borrower: Address) -> (res: Result<i128, ContractError>)
        ensures
            res == (if math::adds_up(vouch::stakes(env@.vouches_of(borrower))) {
                Ok::<i128, ContractError>(
                    math::sum(vouch::stakes(env@.vouches_of(borrower))) as i128,
                )
            } else {
                Err(ContractError::StakeOverflow)
            }),
    {
        vouch::total_vouched(env, borrower)
    }

    /// Returns all borrower addresses that the given voucher has ever backed.
    pub fn voucher_history(env: &Env, voucher: Address) -> (history: Vec<Address>)
        ensures
            history@ == env@.history_of(voucher),
    {
        vouch::voucher_history(env, voucher)
    }

    /// Record who referred a borrower; the referrer shares in the yield of the borrower's loans.
    pub fn register_referral(env: &mut Env, borrower: Address, referrer: Address) -> (res: Result<
        (),
        Failure,
    >)
        ensures
            res == State::verdict(old(env)@.pause_failure(), ()),
            final(env)@ == old(env)@.unless_failed(
                old(env)@.pause_failure(),
                old(env)@.referred(borrower, referrer),
            ),
    {
        if let Err(error) = require_not_paused(env) {
            return Err(Failure::Contract(error));
        }
        env.referrers.insert(borrower, referrer);
        env.authorize(borrower);
        Ok(())
    }

    /// Cast a governance vote on whether `borrower` should be slashed.
    pub fn vote_slash(env: &mut Env, voucher: Address, borrower: Address, approve: bool) -> (res:
        Result<(), Failure>)
        ensures
            res == State::verdict(old(env)@.vote_failure(voucher, borrower, approve), ()),
            final(env)@ == old(env)@.unless_failed(
                old(env)@.vote_failure(voucher, borrower, approve),
                old(env)@.slash_voted(voucher, borrower, approve),
            ),
    {
        governance::vote_slash(env, voucher, borrower, approve)
    }

    /// Returns the current slash vote record for a borrower, if any.
    pub fn get_slash_vote(env: &Env, borrower: Address) -> (vote: Option<SlashVoteRecord>)
        ensures
            match vote {
                Some(vote) => env@.slash_votes.contains_key(borrower) && vote@
                    == env@.slash_votes[borrower],
                None => !env@.slash_votes.contains_key(borrower),
            },
    {
        governance::get_slash_vote(env, borrower)
    }

    pub fn get_slash_vote_quorum(env: &Env) -> (quorum_bps: u32)
        ensures
            quorum_bps == env@.slash_vote_quorum,
    {
        governance::get_slash_vote_quorum(env)
    }

    /// Propose a slash action with a confirmation window (timelock delay).
    pub fn propose_slash(env: &mut Env, proposer: Address, borrower: Address, delay_secs: u64) -> (
    res: Result<u64, Failure>)
        ensures
            res == State::verdict(
                old(env)@.propose_failure(proposer, delay_secs),
                (old(env)@.proposal_counter + 1) as u64,
            ),
            final(env)@ == old(env)@.unless_failed(
                old(env)@.propose_failure(proposer, delay_secs),
                old(env)@.slash_proposed(proposer, borrower, delay_secs),
            ),
    {
        governance::propose_slash(env, proposer, borrower, delay_secs)
    }

    /// Execute a previously proposed slash after the delay has passed.
    pub fn execute_slash_proposal(env: &mut Env, proposal_id: u64) -> (res: Result<(), Failure>)
        ensures
            res == State::verdict(old(env)@.execution_failure(proposal_id), ()),
            final(env)@ == old(env)@.unless_failed(
                old(env)@.execution_failure(proposal_id),
                old(env)@.proposal_executed(proposal_id),
            ),
    {
        governance::execute_slash_proposal(env, proposal_id)
    }

    /// Cancel a pending slash proposal (only the proposer can cancel).
    pub fn cancel_slash_proposal(env: &mut Env, caller: Address, proposal_id: u64) -> (res: Result<
        (),
        Failure,
    >)
        ensures
            res == State::verdict(old(env)@.cancel_failure(caller, proposal_id), ()),
            final(env)@ == old(env)@.unless_failed(
                old(env)@.cancel_failure(caller, proposal_id),
                old(env)@.proposal_cancelled(caller, proposal_id),
            ),
    {
        governance::cancel_slash_proposal(env, caller, proposal_id)
    }

    /// Get a timelock proposal's details.
    pub fn get_timelock_proposal(env: &Env, proposal_id: u64) -> (proposal: Option<
        TimelockProposal,
    >)
        ensures
            match proposal {
                Some(proposal) => env@.proposals.contains_key(proposal_id) && proposal@
                    == env@.proposals[proposal_id],
                None => !env@.proposals.contains_key(proposal_id),
            },
    {
        governance::get_timelock_proposal(env, proposal_id)
    }
}

} // verus!
