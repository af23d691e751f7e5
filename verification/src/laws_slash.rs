//! What a default does, told from the ledger before a call and the ledger after it: which stakes
//! are cut and by how much, who is paid what is left, and what becomes of the loan.

use crate::address::Address;
use crate::env::{Effect, Event, Payment, State};
use crate::errors::{ContractError, Trap};
use crate::laws_terms;
use crate::math;
use crate::slash::{self, Reach};
use crate::types::{LoanStatus, LoanView, VouchRecord};
use vstd::prelude::*;

verus! {

/// A slash takes the rate of a stake, rounded down, however large the stake and the rate are. What
/// is below 0 mirrors what is above.
pub proof fn cut_is_the_rate_of_the_stake(stake: i128, slash_bps: i128)
    ensures
        stake * slash_bps >= 0 ==> laws_terms::rounded_down(
            slash::cut(stake, slash_bps),
            stake * slash_bps,
            10_000,
        ),
        stake * slash_bps <= 0 ==> laws_terms::rounded_down(
            -slash::cut(stake, slash_bps),
            -(stake * slash_bps),
            10_000,
        ),
{
    laws_terms::division_rounds_towards_zero(stake * slash_bps, 10_000);
}

/// A slash by the admins or past the deadline reaches every token; one by the vouchers only the
/// token that it names.
pub proof fn reach_names_the_tokens(only: Address, token: Address)
    ensures
        Reach::EveryToken.covers(token),
        Reach::OneToken(only).covers(token) <==> token == only,
{
}

/// What a slash takes of a list is what it takes of each vouch within reach, added up.
pub proof fn cuts_add_up(vouches: Seq<VouchRecord>, vouch: VouchRecord, reach: Reach, rate: i128)
    requires
        vouch.stake >= 0,
        rate >= 0,
    ensures
        math::sum(slash::cuts(seq![], reach, rate)) == 0,
        reach.covers(vouch.token) ==> laws_terms::rounded_down(
            math::sum(slash::cuts(vouches.push(vouch), reach, rate)) - math::sum(
                slash::cuts(vouches, reach, rate),
            ),
            vouch.stake * rate,
            10_000,
        ),
        !reach.covers(vouch.token) ==> math::sum(slash::cuts(vouches.push(vouch), reach, rate))
            == math::sum(slash::cuts(vouches, reach, rate)),
{
    let cuts = slash::cuts(vouches, reach, rate);
    let more = slash::cuts(vouches.push(vouch), reach, rate);
    let x = if reach.covers(vouch.token) {
        slash::cut(vouch.stake, rate)
    } else {
        0
    };
    assert(more =~= cuts.push(x));
    laws_terms::sums_grow_by_what_is_added(cuts, x);
    assert(slash::cuts(seq![], reach, rate) =~= seq![]);
    cut_is_the_rate_of_the_stake(vouch.stake, rate);
    assert(vouch.stake * rate >= 0) by (nonlinear_arith)
        requires
            vouch.stake >= 0,
            rate >= 0,
    ;
}

/// What a slash pays back on a list is what it pays back on each vouch, in order: to its voucher
/// and in its token, all of a stake out of reach, and of one within reach what the cut leaves, if
/// anything.
pub proof fn refunds_follow_the_list(
    vouches: Seq<VouchRecord>,
    vouch: VouchRecord,
    reach: Reach,
    rate: i128,
    taken: int,
)
    requires
        vouch.stake >= 0,
        0 <= rate <= 10_000,
        laws_terms::rounded_down(taken, vouch.stake * rate, 10_000),
    ensures
        slash::refunds(seq![], reach, rate) == Seq::<Payment>::empty(),
        ({
            let before = slash::refunds(vouches, reach, rate);
            let after = slash::refunds(vouches.push(vouch), reach, rate);
            let left = vouch.stake - taken;
            &&& 0 <= left <= vouch.stake
            &&& !reach.covers(vouch.token) ==> after == before.push(
                Payment { token: vouch.token, to: vouch.voucher, amount: vouch.stake },
            )
            &&& reach.covers(vouch.token) && left > 0 ==> after == before.push(
                Payment { token: vouch.token, to: vouch.voucher, amount: left as i128 },
            )
            &&& reach.covers(vouch.token) && left == 0 ==> after == before
        }),
{
    let more = vouches.push(vouch);
    let product = vouch.stake * rate;
    assert(0 <= product <= vouch.stake * 10_000) by (nonlinear_arith)
        requires
            product == vouch.stake * rate,
            vouch.stake >= 0,
            0 <= rate <= 10_000,
    ;
    cut_is_the_rate_of_the_stake(vouch.stake, rate);
    laws_terms::rounding_down_is_unambiguous(
        taken,
        slash::cut(vouch.stake, rate),
        product,
        10_000,
    );
    assert(more.drop_last() =~= vouches);
    reveal(Seq::filter);
    let picked = slash::is_refunded(reach, rate);
    assert(more.filter(picked) == (if picked(vouch) {
        vouches.filter(picked).push(vouch)
    } else {
        vouches.filter(picked)
    }));
    let before = slash::refunds(vouches, reach, rate);
    let after = slash::refunds(more, reach, rate);
    if picked(vouch) {
        assert(after =~= before.push(slash::refund(reach, rate)(vouch)));
    } else {
        assert(after =~= before);
    }
    assert(slash::refunds(seq![], reach, rate) =~= Seq::<Payment>::empty());
}

/// A default can be booked exactly when the contract is set up and no number in it is too large
/// to be stored.
pub proof fn default_is_booked_exactly_when(state: State, borrower: Address, reach: Reach)
    ensures
        ({
            let failure = state.default_failure(borrower, reach);
            let list = laws_terms::backing(state, borrower);
            let rate = state.config->0.slash_bps;
            let set_up = state.config is Some;
            let storable = (forall|i: int|
                0 <= i < list.len() && reach.covers((#[trigger] list[i]).token) ==> i128::MIN
                    <= list[i].stake * rate <= i128::MAX && i128::MIN <= list[i].stake - slash::cut(
                    list[i].stake,
                    rate,
                ) <= i128::MAX) && math::adds_up(slash::cuts(list, reach, rate)) && i128::MIN
                <= state.slash_treasury + math::sum(slash::cuts(list, reach, rate)) <= i128::MAX
                && laws_terms::tally(state.default_counts, borrower) < u32::MAX;
            &&& !set_up ==> failure == laws_terms::trap(Trap::NotInitialized)
            &&& set_up && !storable ==> failure == laws_terms::trap(Trap::Overflow)
            &&& set_up && storable ==> failure is None
        }),
{
    laws_terms::look_ups_read_the_ledger(state, borrower, state.default_counts);
}

/// The admins may slash exactly when enough of them sign, the contract runs, the borrower owes,
/// and the default can be booked.
pub proof fn slash_is_accepted_exactly_when(
    state: State,
    signers: Seq<Address>,
    borrower: Address,
)
    ensures
        ({
            let failure = state.slash_failure(signers, borrower);
            let booking = state.default_failure(borrower, Reach::EveryToken);
            let set_up = state.config is Some;
            let enough = set_up && signers.len() >= state.config->0.admin_threshold;
            let approved = enough && laws_terms::approved(state, signers);
            let runs = approved && !state.paused;
            let owing = runs && laws_terms::owes(state, borrower);
            &&& failure is None <==> owing && booking is None
            &&& !set_up ==> failure == laws_terms::trap(Trap::NotInitialized)
            &&& set_up && !enough ==> failure == laws_terms::trap(Trap::InsufficientApprovals)
            &&& enough && !approved ==> failure == laws_terms::trap(Trap::NotAnAdmin)
            &&& approved && !runs ==> failure == laws_terms::trap(Trap::ContractPaused)
            &&& runs && !owing && laws_terms::has_borrowed(state, borrower) ==> failure
                == laws_terms::refusal(ContractError::NoActiveLoan)
            &&& runs && !owing && !laws_terms::has_borrowed(state, borrower) ==> failure
                == laws_terms::trap(Trap::NoActiveLoan)
            &&& owing ==> failure == booking
        }),
{
    laws_terms::look_ups_read_the_ledger(state, borrower, state.default_counts);
    laws_terms::signers_are_refused_unless_they_approve(state, signers);
}

/// Anybody may have a loan slashed exactly when its deadline is past and the default can be
/// booked, and a claim made on it exactly when its deadline is reached.
pub proof fn deadline_decides_exactly_when(state: State, borrower: Address)
    ensures
        ({
            let slash_failure = state.auto_slash_failure(borrower);
            let claim_failure = state.claim_failure(borrower);
            let booking = state.default_failure(borrower, Reach::EveryToken);
            let owing = laws_terms::owes(state, borrower);
            let deadline = laws_terms::filed(state, borrower).deadline;
            let countable = laws_terms::tally(state.default_counts, borrower) < u32::MAX;
            let absent = if laws_terms::has_borrowed(state, borrower) {
                laws_terms::refusal(ContractError::NoActiveLoan)
            } else {
                laws_terms::trap(Trap::NoActiveLoan)
            };
            &&& !owing ==> slash_failure == absent && claim_failure == absent
            &&& owing && state.now <= deadline ==> slash_failure == laws_terms::trap(
                Trap::DeadlineNotPassed,
            )
            &&& owing && state.now > deadline ==> slash_failure == booking
            &&& owing && state.now < deadline ==> claim_failure == laws_terms::trap(
                Trap::LoanNotExpired,
            )
            &&& owing && state.now >= deadline && !countable ==> claim_failure == laws_terms::trap(
                Trap::Overflow,
            )
            &&& owing && state.now >= deadline && countable ==> claim_failure is None
        }),
{
    laws_terms::look_ups_read_the_ledger(state, borrower, state.default_counts);
}

/// Governance may slash exactly when the contract is set up, a loan is on file that has not
/// defaulted, and the default can be booked on the stakes in the loan's token.
pub proof fn governance_slash_is_accepted_exactly_when(state: State, borrower: Address)
    ensures
        ({
            let failure = state.execute_slash_failure(borrower);
            let loan = laws_terms::filed(state, borrower);
            let set_up = state.config is Some;
            let known = set_up && laws_terms::on_file(state, borrower);
            let open = known && loan.status != LoanStatus::Defaulted;
            &&& !set_up ==> failure == laws_terms::trap(Trap::NotInitialized)
            &&& set_up && !known ==> failure == laws_terms::refusal(ContractError::NoActiveLoan)
            &&& known && !open ==> failure == laws_terms::trap(Trap::AlreadyDefaulted)
            &&& open ==> failure == state.default_failure(
                borrower,
                Reach::OneToken(loan.token_address),
            )
        }),
{
    laws_terms::look_ups_read_the_ledger(state, borrower, state.default_counts);
}

/// The loan on file has defaulted and left the active ones, and the default is counted.
pub open spec fn closes_the_loan(state: State, next: State, borrower: Address) -> bool {
    let id = state.active_loans[borrower];
    &&& next.loans == state.loans.insert(id, next.loans[id])
    &&& next.loans[id].status == LoanStatus::Defaulted
    &&& next.loans[id] == LoanView {
        status: LoanStatus::Defaulted,
        ..laws_terms::filed(state, borrower)
    }
    &&& next.active_loans == state.active_loans.remove(borrower)
    &&& laws_terms::tally(next.default_counts, borrower) == laws_terms::tally(
        state.default_counts,
        borrower,
    ) + 1
    &&& next.default_counts.remove(borrower) == state.default_counts.remove(borrower)
}

/// Nothing but what a default is about has changed.
pub open spec fn touches_the_default_only(state: State, next: State) -> bool {
    next == State {
        loans: next.loans,
        active_loans: next.active_loans,
        default_counts: next.default_counts,
        slash_treasury: next.slash_treasury,
        vouches: next.vouches,
        effects: next.effects,
        ..state
    }
}

/// The point that is burnt where reputation is kept.
pub open spec fn burnt_point(state: State, borrower: Address) -> Seq<Effect<Seq<Address>>> {
    match state.reputation_nft {
        Some(nft) => seq![Effect::BurnReputation { nft, from: borrower }],
        None => seq![],
    }
}

proof fn lemma_closed(state: State, borrower: Address)
    requires
        laws_terms::on_file(state, borrower),
        laws_terms::filed(state, borrower).id == state.active_loans[borrower],
        laws_terms::tally(state.default_counts, borrower) < u32::MAX,
    ensures
        closes_the_loan(
            state,
            state.closed_as_default(borrower, laws_terms::filed(state, borrower)),
            borrower,
        ),
{
    let next = state.closed_as_default(borrower, laws_terms::filed(state, borrower));
    assert(next.default_counts.remove(borrower) =~= state.default_counts.remove(borrower));
}

proof fn lemma_on_file(state: State, borrower: Address)
    requires
        state.wf(),
        laws_terms::on_file(state, borrower),
    ensures
        laws_terms::filed(state, borrower).id == state.active_loans[borrower],
{
    assert(state.loan_wf(state.active_loans[borrower]));
}

/// A slash by the admins closes the loan, puts the cuts of all stakes into the treasury, clears the
/// vouches and pays back what is left of each. The admins sign.
pub proof fn slash_cuts_every_stake(state: State, signers: Seq<Address>, borrower: Address)
    requires
        state.wf(),
        state.slash_failure(signers, borrower) is None,
    ensures
        ({
            let next = state.slashed(signers, borrower);
            let list = laws_terms::backing(state, borrower);
            let rate = state.config->0.slash_bps;
            let total = math::sum(slash::cuts(list, Reach::EveryToken, rate));
            &&& touches_the_default_only(state, next)
            &&& closes_the_loan(state, next, borrower)
            &&& next.slash_treasury == state.slash_treasury + total
            &&& next.vouches == state.vouches.remove(borrower)
            &&& next.effects == state.effects + laws_terms::signatures(signers)
                + laws_terms::outgoing(
                slash::refunds(list, Reach::EveryToken, rate),
                state.contract,
            ) + burnt_point(state, borrower) + seq![
                laws_terms::announcement(
                    Event::LoanSlashed {
                        borrower,
                        amount: laws_terms::filed(state, borrower).amount,
                        total_slashed: total as i128,
                    },
                ),
            ]
        }),
{
    slash_is_accepted_exactly_when(state, signers, borrower);
    default_is_booked_exactly_when(state, borrower, Reach::EveryToken);
    laws_terms::look_ups_read_the_ledger(state, borrower, state.default_counts);
    lemma_on_file(state, borrower);
    lemma_closed(state, borrower);
    lemma_nothing_spared(laws_terms::backing(state, borrower));
    let next = state.slashed(signers, borrower);
    let list = laws_terms::backing(state, borrower);
    let rate = state.config->0.slash_bps;
    let signed = state.authorize_all(signers);
    laws_terms::look_ups_read_the_ledger(signed, borrower, state.default_counts);
    assert(signed.total_cut(borrower, Reach::EveryToken) == state.total_cut(
        borrower,
        Reach::EveryToken,
    ));
    assert(next.effects =~= state.effects + laws_terms::signatures(signers) + laws_terms::outgoing(
        slash::refunds(list, Reach::EveryToken, rate),
        state.contract,
    ) + burnt_point(state, borrower) + seq![
        laws_terms::announcement(
            Event::LoanSlashed {
                borrower,
                amount: laws_terms::filed(state, borrower).amount,
                total_slashed: math::sum(slash::cuts(list, Reach::EveryToken, rate)) as i128,
            },
        ),
    ]);
}

/// A slash of every token spares nothing.
proof fn lemma_nothing_spared(vouches: Seq<VouchRecord>)
    ensures
        vouches.filter(slash::is_spared(Reach::EveryToken)).len() == 0,
    decreases vouches.len(),
{
    reveal(Seq::filter);
    if vouches.len() > 0 {
        lemma_nothing_spared(vouches.drop_last());
    }
}

/// A slash past the deadline does to loan, stakes and treasury what one by the admins does, with
/// nobody's signature and no announcement.
pub proof fn late_slash_cuts_every_stake(state: State, borrower: Address)
    requires
        state.wf(),
        state.auto_slash_failure(borrower) is None,
    ensures
        ({
            let next = state.auto_slashed(borrower);
            let list = laws_terms::backing(state, borrower);
            let rate = state.config->0.slash_bps;
            &&& touches_the_default_only(state, next)
            &&& closes_the_loan(state, next, borrower)
            &&& next.slash_treasury == state.slash_treasury + math::sum(
                slash::cuts(list, Reach::EveryToken, rate),
            )
            &&& next.vouches == state.vouches.remove(borrower)
            &&& next.effects == state.effects + laws_terms::outgoing(
                slash::refunds(list, Reach::EveryToken, rate),
                state.contract,
            ) + burnt_point(state, borrower)
        }),
{
    deadline_decides_exactly_when(state, borrower);
    default_is_booked_exactly_when(state, borrower, Reach::EveryToken);
    laws_terms::look_ups_read_the_ledger(state, borrower, state.default_counts);
    lemma_on_file(state, borrower);
    lemma_closed(state, borrower);
    lemma_nothing_spared(laws_terms::backing(state, borrower));
    let next = state.auto_slashed(borrower);
    let list = laws_terms::backing(state, borrower);
    assert(next.effects =~= state.effects + laws_terms::outgoing(
        slash::refunds(list, Reach::EveryToken, state.config->0.slash_bps),
        state.contract,
    ) + burnt_point(state, borrower));
}

/// A slash by governance cuts the stakes in the loan's token alone: vouches in other tokens stay
/// on record as they are. No reputation point is burnt.
pub proof fn governance_slash_cuts_the_loan_token(state: State, borrower: Address)
    requires
        state.wf(),
        state.execute_slash_failure(borrower) is None,
    ensures
        ({
            let next = state.slash_executed(borrower);
            let list = laws_terms::backing(state, borrower);
            let token = laws_terms::filed(state, borrower).token_address;
            let reach = Reach::OneToken(token);
            let rate = state.config->0.slash_bps;
            let total = math::sum(slash::cuts(list, reach, rate));
            let others = list.filter(|vouch: VouchRecord| vouch.token != token);
            &&& touches_the_default_only(state, next)
            &&& closes_the_loan(state, next, borrower)
            &&& next.slash_treasury == state.slash_treasury + total
            &&& next.vouches.remove(borrower) == state.vouches.remove(borrower)
            &&& laws_terms::backing(next, borrower) == others
            &&& next.vouches.contains_key(borrower) <==> others.len() > 0
            &&& next.effects == state.effects + laws_terms::outgoing(
                slash::refunds(list, reach, rate),
                state.contract,
            ) + seq![
                laws_terms::announcement(
                    Event::GovernanceSlashed { borrower, total_slashed: total as i128 },
                ),
            ]
        }),
{
    let list = laws_terms::backing(state, borrower);
    let token = laws_terms::filed(state, borrower).token_address;
    let reach = Reach::OneToken(token);
    let rate = state.config->0.slash_bps;
    let total = math::sum(slash::cuts(list, reach, rate));
    governance_slash_is_accepted_exactly_when(state, borrower);
    default_is_booked_exactly_when(state, borrower, reach);
    laws_terms::look_ups_read_the_ledger(state, borrower, state.default_counts);
    lemma_on_file(state, borrower);
    lemma_closed(state, borrower);
    let next = state.slash_executed(borrower);
    assert(slash::is_spared(reach) =~= (|vouch: VouchRecord| vouch.token != token));
    assert(next.vouches.remove(borrower) =~= state.vouches.remove(borrower));
    assert(laws_terms::backing(next, borrower) =~= list.filter(
        |vouch: VouchRecord| vouch.token != token,
    ));
    assert(next.effects =~= state.effects + laws_terms::outgoing(
        slash::refunds(list, reach, rate),
        state.contract,
    ) + seq![
        laws_terms::announcement(
            Event::GovernanceSlashed { borrower, total_slashed: total as i128 },
        ),
    ]);
}

/// A claim on an expired loan closes it as a default, cuts nothing and pays every stake back whole,
/// to its voucher and in its token. The borrower signs.
pub proof fn claim_returns_every_stake(state: State, borrower: Address)
    requires
        state.wf(),
        state.claim_failure(borrower) is None,
    ensures
        ({
            let next = state.claimed(borrower);
            let list = laws_terms::backing(state, borrower);
            &&& touches_the_default_only(state, next)
            &&& closes_the_loan(state, next, borrower)
            &&& next.slash_treasury == state.slash_treasury
            &&& next.vouches == state.vouches.remove(borrower)
            &&& next.effects == state.effects + seq![laws_terms::signature(borrower)] + Seq::new(
                list.len(),
                |i: int|
                    laws_terms::transfer(
                        list[i].token,
                        state.contract,
                        list[i].voucher,
                        list[i].stake,
                    ),
            )
        }),
{
    deadline_decides_exactly_when(state, borrower);
    laws_terms::look_ups_read_the_ledger(state, borrower, state.default_counts);
    lemma_on_file(state, borrower);
    lemma_closed(state, borrower);
    let next = state.claimed(borrower);
    let list = laws_terms::backing(state, borrower);
    assert(next.effects =~= state.effects + seq![laws_terms::signature(borrower)] + Seq::new(
        list.len(),
        |i: int|
            laws_terms::transfer(
                list[i].token,
                state.contract,
                list[i].voucher,
                list[i].stake,
            ),
    ));
}

} // verus!
