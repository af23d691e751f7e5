//! What votes and proposals do, told from the ledger before a call and the ledger after it: whose
//! stake counts on which side, when a slash is carried out, and who may delay or stop one.

use crate::address::Address;
use crate::env::{Event, State};
use crate::errors::{ContractError, Trap};
use crate::governance;
use crate::laws_terms;
use crate::math;
use crate::types::{LoanStatus, SlashVoteView, TimelockActionView, TimelockView, VouchRecord};
use crate::vouch;
use vstd::prelude::*;

verus! {

/// The votes on record, none if there is no entry.
pub open spec fn ballot(state: State, borrower: Address) -> SlashVoteView {
    if state.slash_votes.contains_key(borrower) {
        state.slash_votes[borrower]
    } else {
        SlashVoteView { approve_stake: 0, reject_stake: 0, voters: seq![], executed: false }
    }
}

/// All stake behind a borrower.
pub open spec fn electorate(state: State, borrower: Address) -> int {
    math::sum(
        laws_terms::backing(state, borrower).map_values(|vouch: VouchRecord| vouch.stake as int),
    )
}

/// The stake that approves once a stake is cast.
pub open spec fn approving(state: State, borrower: Address, stake: i128, approve: bool) -> int {
    ballot(state, borrower).approve_stake + if approve {
        stake as int
    } else {
        0
    }
}

/// The stake that rejects once a stake is cast.
pub open spec fn rejecting(state: State, borrower: Address, stake: i128, approve: bool) -> int {
    ballot(state, borrower).reject_stake + if approve {
        0
    } else {
        stake as int
    }
}

proof fn lemma_terms(state: State, borrower: Address, stake: i128, approve: bool)
    ensures
        state.vote_on(borrower) == ballot(state, borrower),
        state.total_stake(borrower) == electorate(state, borrower),
        state.approval_after(borrower, stake, approve) == approving(
            state,
            borrower,
            stake,
            approve,
        ),
        state.rejection_after(borrower, stake, approve) == rejecting(
            state,
            borrower,
            stake,
            approve,
        ),
{
    let list = laws_terms::backing(state, borrower);
    laws_terms::look_ups_read_the_ledger(state, borrower, state.loan_counts);
    assert(state.vote_on(borrower).voters =~= ballot(state, borrower).voters);
    assert(vouch::stakes(list) =~= list.map_values(|vouch: VouchRecord| vouch.stake as int));
}

/// The quorum is reached exactly when there is stake and the approving part of it, in basis points,
/// is at least the quorum: what rejects plays no part.
pub proof fn quorum_is_a_part_of_all_stake(approve_stake: int, total_stake: int, quorum_bps: int)
    requires
        approve_stake >= 0,
    ensures
        governance::quorum_reached(approve_stake, total_stake, quorum_bps) <==> total_stake > 0
            && approve_stake * 10_000 >= quorum_bps * total_stake,
{
    if total_stake > 0 {
        let n = approve_stake * 10_000;
        let q = math::quotient(n, total_stake);
        laws_terms::division_rounds_towards_zero(n, total_stake);
        assert(q >= quorum_bps <==> n >= quorum_bps * total_stake) by (nonlinear_arith)
            requires
                q * total_stake <= n < (q + 1) * total_stake,
                total_stake > 0,
        ;
    }
}

/// A vote is counted exactly when the contract runs, the slash is not carried out yet, the borrower
/// owes, the voter has a vouch and has not voted, and the sums can be stored; the vote that reaches
/// the quorum must also find a loan that can be slashed.
pub proof fn vote_is_accepted_exactly_when(
    state: State,
    voucher: Address,
    borrower: Address,
    approve: bool,
    k: int,
)
    requires
        state.wf(),
    ensures
        ({
            let failure = state.vote_failure(voucher, borrower, approve);
            let list = laws_terms::backing(state, borrower);
            let stake = list[k].stake;
            let total = electorate(state, borrower);
            let approval = approving(state, borrower, stake, approve);
            let rejection = rejecting(state, borrower, stake, approve);
            let runs = !state.paused;
            let open = runs && !ballot(state, borrower).executed;
            let owing = open && laws_terms::owes(state, borrower);
            let found = owing && laws_terms::is_first(list, voucher, k);
            let summed = found && math::adds_up(vouch::stakes(list));
            let new = summed && !ballot(state, borrower).voters.contains(voucher);
            let storable = new && approval <= i128::MAX && rejection <= i128::MAX && (total > 0
                ==> approval * 10_000 <= i128::MAX);
            let deciding = total > 0 && approval * 10_000 >= state.slash_vote_quorum * total;
            &&& !runs ==> failure == laws_terms::refusal(ContractError::ContractPaused)
            &&& runs && !open ==> failure == laws_terms::refusal(
                ContractError::SlashAlreadyExecuted,
            )
            &&& open && !owing ==> failure == laws_terms::refusal(ContractError::NoActiveLoan)
            &&& owing && laws_terms::is_absent(list, voucher) ==> failure == laws_terms::refusal(
                ContractError::VoucherNotFound,
            )
            &&& found && !summed ==> failure == laws_terms::trap(Trap::Overflow)
            &&& summed && !new ==> failure == laws_terms::refusal(ContractError::AlreadyVoted)
            &&& new && !storable ==> failure == laws_terms::trap(Trap::Overflow)
            &&& storable && !deciding ==> failure is None
            &&& storable && deciding ==> failure == state.execute_slash_failure(borrower)
        }),
{
    let list = laws_terms::backing(state, borrower);
    laws_terms::look_ups_read_the_ledger(state, borrower, state.loan_counts);
    laws_terms::lemma_absent(list, voucher);
    lemma_terms(state, borrower, 0, approve);
    if laws_terms::is_first(list, voucher, k) {
        laws_terms::lemma_first_is_unique(list, voucher, k);
        let stake = list[k].stake;
        lemma_terms(state, borrower, stake, approve);
        lemma_not_negative(state, voucher, borrower, approve, k);
        quorum_is_a_part_of_all_stake(
            approving(state, borrower, stake, approve),
            electorate(state, borrower),
            state.slash_vote_quorum as int,
        );
    }
}

proof fn lemma_not_negative(
    state: State,
    voucher: Address,
    borrower: Address,
    approve: bool,
    k: int,
)
    requires
        state.wf(),
        laws_terms::is_first(laws_terms::backing(state, borrower), voucher, k),
    ensures
        approving(state, borrower, laws_terms::backing(state, borrower)[k].stake, approve) >= 0,
        rejecting(state, borrower, laws_terms::backing(state, borrower)[k].stake, approve) >= 0,
{
    assert(state.vouches.contains_key(borrower));
    if state.slash_votes.contains_key(borrower) {
        assert(state.governance_wf());
    }
    assert(laws_terms::backing(state, borrower)[k].stake > 0);
}

/// A vote adds the voter's stake to its own side alone, and the voter to those who have voted. The
/// slash is carried out with it exactly when there is stake and the approving stake alone reaches
/// the quorum; a vote that leaves the approving stake below the quorum leaves the loan active, and
/// changes nothing but the votes.
pub proof fn approving_stake_alone_decides(
    state: State,
    voucher: Address,
    borrower: Address,
    approve: bool,
    k: int,
)
    requires
        state.wf(),
        state.vote_failure(voucher, borrower, approve) is None,
        laws_terms::is_first(laws_terms::backing(state, borrower), voucher, k),
    ensures
        ({
            let next = state.slash_voted(voucher, borrower, approve);
            let stake = laws_terms::backing(state, borrower)[k].stake;
            let total = electorate(state, borrower);
            let before = ballot(state, borrower);
            let after = ballot(next, borrower);
            let plain = state.slash_executed(borrower);
            let cast = state.effects + seq![
                laws_terms::signature(voucher),
                laws_terms::announcement(Event::SlashVoted { voucher, borrower, approve, stake }),
            ];
            let reached = total > 0 && after.approve_stake * 10_000 >= state.slash_vote_quorum
                * total;
            &&& next.slash_votes == state.slash_votes.insert(borrower, after)
            &&& after.approve_stake == before.approve_stake + (if approve {
                stake as int
            } else {
                0
            })
            &&& after.reject_stake == before.reject_stake + (if approve {
                0
            } else {
                stake as int
            })
            &&& after.voters == before.voters.push(voucher)
            &&& after.executed <==> reached
            &&& laws_terms::owes(next, borrower) <==> !reached
            &&& reached ==> next.loans[state.active_loans[borrower]].status
                == LoanStatus::Defaulted
            &&& !reached ==> next == State {
                slash_votes: next.slash_votes,
                effects: cast,
                ..state
            }
            &&& reached ==> next == State {
                slash_votes: next.slash_votes,
                effects: cast + plain.effects.skip(state.effects.len() as int),
                ..plain
            }
        }),
{
    let list = laws_terms::backing(state, borrower);
    let stake = list[k].stake;
    vote_is_accepted_exactly_when(state, voucher, borrower, approve, k);
    laws_terms::look_ups_read_the_ledger(state, borrower, state.loan_counts);
    laws_terms::lemma_absent(list, voucher);
    laws_terms::lemma_first_is_unique(list, voucher, k);
    lemma_terms(state, borrower, stake, approve);
    lemma_not_negative(state, voucher, borrower, approve, k);
    quorum_is_a_part_of_all_stake(
        approving(state, borrower, stake, approve),
        electorate(state, borrower),
        state.slash_vote_quorum as int,
    );
    let next = state.slash_voted(voucher, borrower, approve);
    let counted = state.vote_counted(voucher, borrower, approve);
    let plain = state.slash_executed(borrower);
    let cast = state.effects + seq![
        laws_terms::signature(voucher),
        laws_terms::announcement(Event::SlashVoted { voucher, borrower, approve, stake }),
    ];
    assert(counted.effects =~= cast);
    assert(state.loan_wf(state.active_loans[borrower]));
    if state.vote_decides(voucher, borrower, approve) {
        laws_terms::look_ups_read_the_ledger(counted, borrower, state.loan_counts);
        assert(counted.active_loan(borrower) == state.active_loan(borrower));
        assert(counted.vouches_of(borrower) == state.vouches_of(borrower));
        assert(next.effects =~= cast + plain.effects.skip(state.effects.len() as int));
        assert(next == State {
            slash_votes: next.slash_votes,
            effects: cast + plain.effects.skip(state.effects.len() as int),
            ..plain
        });
    }
}

/// A slash is proposed exactly when the contract runs and is set up, an admin proposes, an id is
/// left, and the time of execution can be stored.
pub proof fn proposal_is_accepted_exactly_when(state: State, proposer: Address, delay_secs: u64)
    ensures
        ({
            let failure = state.propose_failure(proposer, delay_secs);
            let runs = !state.paused;
            let set_up = runs && state.config is Some;
            let entitled = set_up && state.config->0.admins.contains(proposer);
            let numbered = entitled && state.proposal_counter < u64::MAX;
            let storable = numbered && state.now + delay_secs <= u64::MAX;
            &&& storable <==> failure is None
            &&& !runs ==> failure == laws_terms::refusal(ContractError::ContractPaused)
            &&& runs && !set_up ==> failure == laws_terms::trap(Trap::NotInitialized)
            &&& set_up && !entitled ==> failure == laws_terms::refusal(
                ContractError::UnauthorizedCaller,
            )
            &&& entitled && !numbered ==> failure == laws_terms::trap(Trap::ProposalIdOverflow)
            &&& numbered && !storable ==> failure == laws_terms::trap(Trap::Overflow)
        }),
{
}

/// A proposal is filed under the next id, open, and due when its delay is over; nothing else
/// changes. The proposer signs.
pub proof fn proposal_is_filed(
    state: State,
    proposer: Address,
    borrower: Address,
    delay_secs: u64,
)
    requires
        state.propose_failure(proposer, delay_secs) is None,
    ensures
        ({
            let next = state.slash_proposed(proposer, borrower, delay_secs);
            let id = next.proposal_counter;
            let filed = next.proposals[id];
            &&& next == State {
                proposals: next.proposals,
                proposal_counter: next.proposal_counter,
                effects: next.effects,
                ..state
            }
            &&& id == state.proposal_counter + 1
            &&& next.proposals == state.proposals.insert(id, filed)
            &&& filed.id == id
            &&& filed.action == TimelockActionView::Slash(borrower)
            &&& filed.proposer == proposer
            &&& filed.eta == state.now + delay_secs
            &&& !filed.executed
            &&& !filed.cancelled
            &&& next.effects == state.effects + seq![
                laws_terms::signature(proposer),
                laws_terms::announcement(
                    Event::SlashProposed { proposal_id: id, proposer, borrower, eta: filed.eta },
                ),
            ]
        }),
{
    let next = state.slash_proposed(proposer, borrower, delay_secs);
    let id = next.proposal_counter;
    assert(next.effects =~= state.effects + seq![
        laws_terms::signature(proposer),
        laws_terms::announcement(
            Event::SlashProposed {
                proposal_id: id,
                proposer,
                borrower,
                eta: next.proposals[id].eta,
            },
        ),
    ]);
}

/// A proposal is executed exactly when the contract runs, the proposal is on file and open, its
/// time has come and not been over for three days, and the loan can be slashed.
pub proof fn execution_is_accepted_exactly_when(state: State, proposal_id: u64)
    ensures
        ({
            let failure = state.execution_failure(proposal_id);
            let proposal = state.proposals[proposal_id];
            let runs = !state.paused;
            let known = runs && state.proposals.contains_key(proposal_id);
            let unexecuted = known && !proposal.executed;
            let open = unexecuted && !proposal.cancelled;
            let due = open && state.now >= proposal.eta;
            let finite = due && proposal.eta + 259_200 <= u64::MAX;
            let fresh = finite && state.now <= proposal.eta + 259_200;
            &&& !runs ==> failure == laws_terms::refusal(ContractError::ContractPaused)
            &&& runs && !known ==> failure == laws_terms::refusal(ContractError::NoActiveLoan)
            &&& known && !unexecuted ==> failure == laws_terms::refusal(
                ContractError::SlashAlreadyExecuted,
            )
            &&& unexecuted && !open ==> failure == laws_terms::refusal(ContractError::NoActiveLoan)
            &&& open && !due ==> failure == laws_terms::refusal(ContractError::NoActiveLoan)
            &&& due && !finite ==> failure == laws_terms::trap(Trap::Overflow)
            &&& finite && !fresh ==> failure == laws_terms::refusal(ContractError::NoActiveLoan)
            &&& fresh ==> match proposal.action {
                TimelockActionView::Slash(borrower) => failure == state.execute_slash_failure(
                    borrower,
                ),
                TimelockActionView::SetConfig(_) => failure == laws_terms::refusal(
                    ContractError::NoActiveLoan,
                ),
            }
        }),
{
}

/// Executing a proposal slashes the borrower that it names, as governance does, and marks the
/// proposal; nothing else changes.
pub proof fn execution_slashes_the_named_borrower(
    state: State,
    proposal_id: u64,
    borrower: Address,
)
    requires
        state.execution_failure(proposal_id) is None,
        state.proposals[proposal_id].action == TimelockActionView::Slash(borrower),
    ensures
        ({
            let next = state.proposal_executed(proposal_id);
            let plain = state.slash_executed(borrower);
            let marked = next.proposals[proposal_id];
            &&& next.proposals == state.proposals.insert(proposal_id, marked)
            &&& marked.executed
            &&& marked == TimelockView { executed: true, ..state.proposals[proposal_id] }
            &&& next == State {
                proposals: next.proposals,
                effects: plain.effects + seq![
                    laws_terms::announcement(Event::ProposalExecuted { proposal_id, borrower }),
                ],
                ..plain
            }
        }),
{
    let next = state.proposal_executed(proposal_id);
    let plain = state.slash_executed(borrower);
    let marked = state.proposal_marked(proposal_id);
    laws_terms::look_ups_read_the_ledger(state, borrower, state.loan_counts);
    laws_terms::look_ups_read_the_ledger(marked, borrower, state.loan_counts);
    assert(next.effects =~= plain.effects + seq![
        laws_terms::announcement(Event::ProposalExecuted { proposal_id, borrower }),
    ]);
}

/// A proposal is cancelled exactly by its proposer while it is open; the proposer signs, and
/// nothing but the mark changes.
pub proof fn cancellation_marks_the_proposal(state: State, caller: Address, proposal_id: u64)
    ensures
        ({
            let failure = state.cancel_failure(caller, proposal_id);
            let next = state.proposal_cancelled(caller, proposal_id);
            let proposal = state.proposals[proposal_id];
            let marked = next.proposals[proposal_id];
            let known = state.proposals.contains_key(proposal_id);
            let own = known && proposal.proposer == caller;
            let open = own && !proposal.executed && !proposal.cancelled;
            &&& open <==> failure is None
            &&& !known ==> failure == laws_terms::refusal(ContractError::NoActiveLoan)
            &&& known && !own ==> failure == laws_terms::trap(Trap::NotProposer)
            &&& own && !open ==> failure == laws_terms::refusal(ContractError::SlashAlreadyExecuted)
            &&& next.proposals == state.proposals.insert(proposal_id, marked)
            &&& marked == TimelockView { cancelled: true, ..proposal }
            &&& next == State {
                proposals: next.proposals,
                effects: state.effects + seq![
                    laws_terms::signature(caller),
                    laws_terms::announcement(Event::ProposalCancelled { proposal_id, caller }),
                ],
                ..state
            }
        }),
{
    let next = state.proposal_cancelled(caller, proposal_id);
    assert(next.effects =~= state.effects + seq![
        laws_terms::signature(caller),
        laws_terms::announcement(Event::ProposalCancelled { proposal_id, caller }),
    ]);
}

/// A quorum is valid from one basis point to all of them.
pub proof fn quorum_is_a_rate(quorum_bps: u32)
    ensures
        governance::quorum_failure(quorum_bps) is None <==> 1 <= quorum_bps <= 10_000,
{
}

} // verus!
