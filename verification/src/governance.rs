//! Slashing by vote of the vouchers, and by proposals that wait for their time.

use crate::address::Address;
use crate::env::{Env, Event, State};
use crate::errors::{ContractError, Failure, Trap};
use crate::helpers::{has_active_loan, listed, require_not_paused};
use crate::math;
use crate::slash::{execute_slash, prepare_slash, PreparedSlash};
use crate::types::{
    SlashVoteRecord, SlashVoteView, TimelockAction, TimelockActionView, TimelockProposal,
    TimelockView, VouchRecord, TIMELOCK_EXPIRY,
};
use crate::vouch::{self, position, total_stake};
use vstd::prelude::*;

verus! {

/// Whether the approving stake is a large enough part of all stake.
pub open spec fn quorum_reached(approve_stake: int, total_stake: int, quorum_bps: int) -> bool {
    total_stake > 0 && math::quotient(approve_stake * 10_000, total_stake) >= quorum_bps
}

impl State {
    /// The votes on slashing a borrower.
    pub open spec fn vote_on(self, borrower: Address) -> SlashVoteView {
        if self.slash_votes.contains_key(borrower) {
            self.slash_votes[borrower]
        } else {
            SlashVoteView {
                approve_stake: 0,
                reject_stake: 0,
                voters: Seq::empty(),
                executed: false,
            }
        }
    }

    /// The stake behind a borrower, in all tokens together.
    pub open spec fn total_stake(self, borrower: Address) -> int {
        math::sum(vouch::stakes(self.vouches_of(borrower)))
    }

    /// The votes once a stake is added to one side.
    pub open spec fn approval_after(self, borrower: Address, stake: i128, approve: bool) -> int {
        if approve {
            self.vote_on(borrower).approve_stake + stake
        } else {
            self.vote_on(borrower).approve_stake as int
        }
    }

    pub open spec fn rejection_after(self, borrower: Address, stake: i128, approve: bool) -> int {
        if approve {
            self.vote_on(borrower).reject_stake as int
        } else {
            self.vote_on(borrower).reject_stake + stake
        }
    }

    /// Whether a vote brings the slash about.
    pub open spec fn vote_decides(self, voucher: Address, borrower: Address, approve: bool) -> bool {
        quorum_reached(
            self.approval_after(borrower, self.vouch_of(voucher, borrower)->0.stake, approve),
            self.total_stake(borrower),
            self.slash_vote_quorum as int,
        )
    }

    pub open spec fn vote_failure(
        self,
        voucher: Address,
        borrower: Address,
        approve: bool,
    ) -> Option<Failure> {
        if self.paused {
            self.pause_failure()
        } else if self.vote_on(borrower).executed {
            Some(Failure::Contract(ContractError::SlashAlreadyExecuted))
        } else if !self.has_active_loan(borrower) {
            Some(Failure::Contract(ContractError::NoActiveLoan))
        } else {
            match self.vouch_of(voucher, borrower) {
                None => Some(Failure::Contract(ContractError::VoucherNotFound)),
                Some(vouch) => if !math::adds_up(vouch::stakes(self.vouches_of(borrower))) {
                    Some(Failure::Trap(Trap::Overflow))
                } else if self.vote_on(borrower).voters.contains(voucher) {
                    Some(Failure::Contract(ContractError::AlreadyVoted))
                } else if !math::fits(self.approval_after(borrower, vouch.stake, approve))
                    || !math::fits(self.rejection_after(borrower, vouch.stake, approve)) {
                    Some(Failure::Trap(Trap::Overflow))
                } else if self.total_stake(borrower) > 0 && !math::fits(
                    self.approval_after(borrower, vouch.stake, approve) * 10_000,
                ) {
                    Some(Failure::Trap(Trap::Overflow))
                } else if self.vote_decides(voucher, borrower, approve) {
                    self.execute_slash_failure(borrower)
                } else {
                    None
                },
            }
        }
    }

    /// The vote is counted with the voucher's stake.
    pub open spec fn vote_counted(self, voucher: Address, borrower: Address, approve: bool) -> State {
        let stake = self.vouch_of(voucher, borrower)->0.stake;
        State {
            slash_votes: self.slash_votes.insert(
                borrower,
                SlashVoteView {
                    approve_stake: self.approval_after(borrower, stake, approve) as i128,
                    reject_stake: self.rejection_after(borrower, stake, approve) as i128,
                    voters: self.vote_on(borrower).voters.push(voucher),
                    executed: self.vote_decides(voucher, borrower, approve),
                },
            ),
            ..self
        }.authorize(voucher).publish(Event::SlashVoted { voucher, borrower, approve, stake })
    }

    /// The vote is counted; the vote that reaches the quorum slashes.
    pub open spec fn slash_voted(self, voucher: Address, borrower: Address, approve: bool) -> State {
        let counted = self.vote_counted(voucher, borrower, approve);
        if self.vote_decides(voucher, borrower, approve) {
            counted.slash_executed(borrower)
        } else {
            counted
        }
    }

    pub open spec fn propose_failure(self, proposer: Address, delay_secs: u64) -> Option<Failure> {
        if self.paused {
            self.pause_failure()
        } else if self.config is None {
            Some(Failure::Trap(Trap::NotInitialized))
        } else if !self.config->0.admins.contains(proposer) {
            Some(Failure::Contract(ContractError::UnauthorizedCaller))
        } else if self.proposal_counter == u64::MAX {
            Some(Failure::Trap(Trap::ProposalIdOverflow))
        } else if self.now + delay_secs > u64::MAX {
            Some(Failure::Trap(Trap::Overflow))
        } else {
            None
        }
    }

    /// A proposal is recorded under the next id.
    pub open spec fn slash_proposed(
        self,
        proposer: Address,
        borrower: Address,
        delay_secs: u64,
    ) -> State {
        let id = (self.proposal_counter + 1) as u64;
        let eta = (self.now + delay_secs) as u64;
        State {
            proposals: self.proposals.insert(
                id,
                TimelockView {
                    id,
                    action: TimelockActionView::Slash(borrower),
                    proposer,
                    eta,
                    executed: false,
                    cancelled: false,
                },
            ),
            proposal_counter: id,
            ..self
        }.authorize(proposer).publish(
            Event::SlashProposed { proposal_id: id, proposer, borrower, eta },
        )
    }

    pub open spec fn execution_failure(self, proposal_id: u64) -> Option<Failure> {
        if self.paused {
            self.pause_failure()
        } else if !self.proposals.contains_key(proposal_id) {
            Some(Failure::Contract(ContractError::NoActiveLoan))
        } else {
            let proposal = self.proposals[proposal_id];
            if proposal.executed {
                Some(Failure::Contract(ContractError::SlashAlreadyExecuted))
            } else if proposal.cancelled {
                Some(Failure::Contract(ContractError::NoActiveLoan))
            } else if self.now < proposal.eta {
                Some(Failure::Contract(ContractError::NoActiveLoan))
            } else if proposal.eta + TIMELOCK_EXPIRY > u64::MAX {
                Some(Failure::Trap(Trap::Overflow))
            } else if self.now > proposal.eta + TIMELOCK_EXPIRY {
                Some(Failure::Contract(ContractError::NoActiveLoan))
            } else {
                match proposal.action {
                    TimelockActionView::Slash(borrower) => self.execute_slash_failure(borrower),
                    TimelockActionView::SetConfig(_) => Some(
                        Failure::Contract(ContractError::NoActiveLoan),
                    ),
                }
            }
        }
    }

    pub open spec fn proposal_marked(self, proposal_id: u64) -> State {
        State {
            proposals: self.proposals.insert(
                proposal_id,
                TimelockView { executed: true, ..self.proposals[proposal_id] },
            ),
            ..self
        }
    }

    /// The proposal is marked and its slash carried out.
    pub open spec fn proposal_executed(self, proposal_id: u64) -> State {
        let borrower = self.proposals[proposal_id].action->Slash_0;
        self.proposal_marked(proposal_id).slash_executed(borrower).publish(
            Event::ProposalExecuted { proposal_id, borrower },
        )
    }

    pub open spec fn cancel_failure(self, caller: Address, proposal_id: u64) -> Option<Failure> {
        if !self.proposals.contains_key(proposal_id) {
            Some(Failure::Contract(ContractError::NoActiveLoan))
        } else if caller != self.proposals[proposal_id].proposer {
            Some(Failure::Trap(Trap::NotProposer))
        } else if self.proposals[proposal_id].executed || self.proposals[proposal_id].cancelled {
            Some(Failure::Contract(ContractError::SlashAlreadyExecuted))
        } else {
            None
        }
    }

    pub open spec fn proposal_cancelled(self, caller: Address, proposal_id: u64) -> State {
        State {
            proposals: self.proposals.insert(
                proposal_id,
                TimelockView { cancelled: true, ..self.proposals[proposal_id] },
            ),
            ..self
        }.authorize(caller).publish(Event::ProposalCancelled { proposal_id, caller })
    }
}

/// The votes on slashing a borrower.
fn vote_on(env: &Env, borrower: &Address) -> (vote: SlashVoteRecord)
    ensures
        vote@ == env@.vote_on(*borrower),
{
    match env.slash_votes.get(borrower) {
        Some(vote) => vote.clone(),
        None => SlashVoteRecord {
            approve_stake: 0,
            reject_stake: 0,
            voters: Vec::new(),
            executed: false,
        },
    }
}

/// Cast a governance vote on whether `borrower` should be slashed.
///
/// - Only active vouchers (those with a stake behind the borrower) may vote.
/// - Votes are weighted by the voucher's current stake.
/// - When `approve_stake * 10_000 / total_stake >= quorum_bps`, the slash is executed.
pub fn vote_slash(env: &mut Env, voucher: Address, borrower: Address, approve: bool) -> (res: Result<
    (),
    Failure,
>)
    ensures
        res == State::verdict(old(env)@.vote_failure(voucher, borrower, approve), ()),
        final(env)@ == old(env)@.unless_failed(
            old(env)@.vote_failure(voucher, borrower, approve),
            old(env)@.slash_voted(voucher, borrower, approve),
        ),
{
    if let Err(error) = require_not_paused(env) {
        return Err(Failure::Contract(error));
    }
    let mut vote = vote_on(env, &borrower);
    if vote.executed {
        return Err(Failure::Contract(ContractError::SlashAlreadyExecuted));
    }
    if !has_active_loan(env, &borrower) {
        return Err(Failure::Contract(ContractError::NoActiveLoan));
    }
    let none: Vec<VouchRecord> = Vec::new();
    let vouches: &Vec<VouchRecord> = match env.vouches.get(&borrower) {
        Some(vouches) => vouches,
        None => &none,
    };
    assert(vouches@ =~= env@.vouches_of(borrower));
    let stake: i128 = match position(vouches, &voucher) {
        Some(i) => vouches[i].stake,
        None => {
            return Err(Failure::Contract(ContractError::VoucherNotFound));
        },
    };
    let total: i128 = match total_stake(vouches) {
        Some(total) => total,
        None => {
            return Err(Failure::Trap(Trap::Overflow));
        },
    };
    if listed(&vote.voters, &voucher) {
        return Err(Failure::Contract(ContractError::AlreadyVoted));
    }
    let side: i128 = if approve {
        vote.approve_stake
    } else {
        vote.reject_stake
    };
    let sum: i128 = match side.checked_add(stake) {
        Some(sum) => sum,
        None => {
            return Err(Failure::Trap(Trap::Overflow));
        },
    };
    if approve {
        vote.approve_stake = sum;
    } else {
        vote.reject_stake = sum;
    }
    vote.voters.push(voucher);
    let mut decides: bool = false;
    if total > 0 {
        match math::portion(vote.approve_stake, 10_000, total) {
            Some(approval_bps) => {
                decides = approval_bps >= env.slash_vote_quorum as i128;
            },
            None => {
                return Err(Failure::Trap(Trap::Overflow));
            },
        }
    }
    assert(decides == env@.vote_decides(voucher, borrower, approve));
    let mut slash: Option<PreparedSlash> = None;
    if decides {
        match prepare_slash(env, &borrower) {
            Ok(prepared) => {
                slash = Some(prepared);
            },
            Err(failure) => {
                return Err(failure);
            },
        }
        vote.executed = true;
    }
    let ghost before = env@;
    env.slash_votes.insert(borrower, vote);
    env.authorize(voucher);
    env.publish(Event::SlashVoted { voucher, borrower, approve, stake });
    if let Some(prepared) = slash {
        proof {
            prepared.lemma_fits(before, env@, borrower);
        }
        execute_slash(env, borrower, prepared);
    }
    assert(env@ =~= old(env)@.slash_voted(voucher, borrower, approve));
    Ok(())
}

/// Returns the current slash vote record for a borrower, if any.
pub fn get_slash_vote(env: &Env, borrower: Address) -> (vote: Option<SlashVoteRecord>)
    ensures
        match vote {
            Some(vote) => env@.slash_votes.contains_key(borrower) && vote@
                == env@.slash_votes[borrower],
            None => !env@.slash_votes.contains_key(borrower),
        },
{
    match env.slash_votes.get(&borrower) {
        Some(vote) => Some(vote.clone()),
        None => None,
    }
}

/// Why a quorum is refused: it must be 1 to 10000 basis points.
pub open spec fn quorum_failure(quorum_bps: u32) -> Option<Failure> {
    if 0 < quorum_bps <= 10_000 {
        None
    } else {
        Some(Failure::Trap(Trap::QuorumOutOfRange))
    }
}

/// Set the quorum threshold (in basis points) required to execute a slash.
/// Requires admin approval, which the caller asks for.
pub fn set_slash_vote_quorum(env: &mut Env, quorum_bps: u32) -> (res: Result<(), Failure>)
    ensures
        res == State::verdict(quorum_failure(quorum_bps), ()),
        final(env)@ == old(env)@.unless_failed(
            quorum_failure(quorum_bps),
            State { slash_vote_quorum: quorum_bps, ..old(env)@ },
        ),
{
    if quorum_bps == 0 || quorum_bps > 10_000 {
        return Err(Failure::Trap(Trap::QuorumOutOfRange));
    }
    env.slash_vote_quorum = quorum_bps;
    Ok(())
}

pub fn get_slash_vote_quorum(env: &Env) -> (quorum_bps: u32)
    ensures
        quorum_bps == env@.slash_vote_quorum,
{
    env.slash_vote_quorum
}

/// Propose a slash action with a delay before execution.
/// An admin creates the proposal; it can be executed from its `eta` on. Returns the id.
pub fn propose_slash(env: &mut Env, proposer: Address, borrower: Address, delay_secs: u64) -> (res:
    Result<u64, Failure>)
    ensures
        res == State::verdict(
            old(env)@.propose_failure(proposer, delay_secs),
            (old(env)@.proposal_counter + 1) as u64,
        ),
        final(env)@ == old(env)@.unless_failed(
            old(env)@.propose_failure(proposer, delay_secs),
            old(env)@.slash_proposed(proposer, borrower, delay_secs),
        ),
{
    if let Err(error) = require_not_paused(env) {
        return Err(Failure::Contract(error));
    }
    match &env.config {
        None => {
            return Err(Failure::Trap(Trap::NotInitialized));
        },
        Some(config) => {
            if !listed(&config.admins, &proposer) {
                return Err(Failure::Contract(ContractError::UnauthorizedCaller));
            }
        },
    }
    let id: u64 = match env.proposal_counter.checked_add(1) {
        Some(id) => id,
        None => {
            return Err(Failure::Trap(Trap::ProposalIdOverflow));
        },
    };
    let eta: u64 = match env.now.checked_add(delay_secs) {
        Some(eta) => eta,
        None => {
            return Err(Failure::Trap(Trap::Overflow));
        },
    };
    env.proposals.insert(
        id,
        TimelockProposal {
            id,
            action: TimelockAction::Slash(borrower),
            proposer,
            eta,
            executed: false,
            cancelled: false,
        },
    );
    env.proposal_counter = id;
    env.authorize(proposer);
    env.publish(Event::SlashProposed { proposal_id: id, proposer, borrower, eta });
    assert(env@ =~= old(env)@.slash_proposed(proposer, borrower, delay_secs));
    Ok(id)
}

/// Execute a previously proposed slash action after the delay has passed.
/// Anyone can execute it, up to 72 hours after its `eta`.
pub fn execute_slash_proposal(env: &mut Env, proposal_id: u64) -> (res: Result<(), Failure>)
    ensures
        res == State::verdict(old(env)@.execution_failure(proposal_id), ()),
        final(env)@ == old(env)@.unless_failed(
            old(env)@.execution_failure(proposal_id),
            old(env)@.proposal_executed(proposal_id),
        ),
{
    if let Err(error) = require_not_paused(env) {
        return Err(Failure::Contract(error));
    }
    let proposal = match env.proposals.get(&proposal_id) {
        Some(proposal) => proposal.clone(),
        None => {
            return Err(Failure::Contract(ContractError::NoActiveLoan));
        },
    };
    if proposal.executed {
        return Err(Failure::Contract(ContractError::SlashAlreadyExecuted));
    }
    if proposal.cancelled {
        return Err(Failure::Contract(ContractError::NoActiveLoan));
    }
    if env.now < proposal.eta {
        return Err(Failure::Contract(ContractError::NoActiveLoan));
    }
    match proposal.eta.checked_add(TIMELOCK_EXPIRY) {
        None => {
            return Err(Failure::Trap(Trap::Overflow));
        },
        Some(expiry) => {
            if env.now > expiry {
                return Err(Failure::Contract(ContractError::NoActiveLoan));
            }
        },
    }
    let borrower: Address = match &proposal.action {
        TimelockAction::Slash(borrower) => *borrower,
        TimelockAction::SetConfig(_) => {
            return Err(Failure::Contract(ContractError::NoActiveLoan));
        },
    };
    let prepared = match prepare_slash(env, &borrower) {
        Ok(prepared) => prepared,
        Err(failure) => {
            return Err(failure);
        },
    };
    let ghost before = env@;
    env.proposals.insert(proposal_id, TimelockProposal { executed: true, ..proposal });
    proof {
        prepared.lemma_fits(before, env@, borrower);
    }
    execute_slash(env, borrower, prepared);
    env.publish(Event::ProposalExecuted { proposal_id, borrower });
    assert(env@ =~= old(env)@.proposal_executed(proposal_id));
    Ok(())
}

/// Cancel a pending slash proposal (only the proposer can).
pub fn cancel_slash_proposal(env: &mut Env, caller: Address, proposal_id: u64) -> (res: Result<
    (),
    Failure,
>)
    ensures
        res == State::verdict(old(env)@.cancel_failure(caller, proposal_id), ()),
        final(env)@ == old(env)@.unless_failed(
            old(env)@.cancel_failure(caller, proposal_id),
            old(env)@.proposal_cancelled(caller, proposal_id),
        ),
{
    let proposal = match env.proposals.get(&proposal_id) {
        Some(proposal) => proposal.clone(),
        None => {
            return Err(Failure::Contract(ContractError::NoActiveLoan));
        },
    };
    if caller != proposal.proposer {
        return Err(Failure::Trap(Trap::NotProposer));
    }
    if proposal.executed || proposal.cancelled {
        return Err(Failure::Contract(ContractError::SlashAlreadyExecuted));
    }
    env.proposals.insert(proposal_id, TimelockProposal { cancelled: true, ..proposal });
    env.authorize(caller);
    env.publish(Event::ProposalCancelled { proposal_id, caller });
    assert(env@ =~= old(env)@.proposal_cancelled(caller, proposal_id));
    Ok(())
}

/// Get a timelock proposal by id.
pub fn get_timelock_proposal(env: &Env, proposal_id: u64) -> (proposal: Option<TimelockProposal>)
    ensures
        match proposal {
            Some(proposal) => env@.proposals.contains_key(proposal_id) && proposal@
                == env@.proposals[proposal_id],
            None => !env@.proposals.contains_key(proposal_id),
        },
{
    match env.proposals.get(&proposal_id) {
        Some(proposal) => Some(proposal.clone()),
        None => None,
    }
}

} // verus!
