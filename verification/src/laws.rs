//! What the contract promises to vouchers, borrowers and admins.

use crate::address::Address;
use crate::env::{Payment, State};
use crate::errors::{ContractError, Failure};
use crate::loan;
use crate::math;
use crate::slash::{self, Reach};
use crate::types::{LoanStatus, LoanView, VouchRecord};
use crate::vouch;
use crate::wellformed;
use vstd::prelude::*;

verus! {

/// The amounts of payments.
pub open spec fn amounts_of(payments: Seq<Payment>) -> Seq<int> {
    payments.map_values(|payment: Payment| payment.amount as int)
}

// Slashing.

/// A slash takes no more than the stake, and what it takes and what it gives back are the stake.
pub proof fn slash_splits_a_stake(vouch: VouchRecord, reach: Reach, slash_bps: i128)
    requires
        reach.covers(vouch.token),
        vouch.stake > 0,
        0 < slash_bps <= 10_000,
    ensures
        0 <= slash::cut(vouch.stake, slash_bps) <= vouch.stake,
        slash::cut(vouch.stake, slash_bps) + slash::refund(reach, slash_bps)(vouch).amount
            == vouch.stake,
{
    wellformed::lemma_bps_bounds(vouch.stake as int, slash_bps as int);
}

proof fn lemma_refunds_and_cuts(vouches: Seq<VouchRecord>, reach: Reach, slash_bps: i128)
    requires
        forall|i: int| 0 <= i < vouches.len() ==> (#[trigger] vouches[i]).stake > 0,
        0 < slash_bps <= 10_000,
    ensures
        math::sum(amounts_of(slash::refunds(vouches, reach, slash_bps))) + math::sum(
            slash::cuts(vouches, reach, slash_bps),
        ) == math::sum(vouch::stakes(vouches)),
    decreases vouches.len(),
{
    reveal(Seq::filter);
    let refunds = amounts_of(slash::refunds(vouches, reach, slash_bps));
    if vouches.len() == 0 {
        assert(refunds =~= Seq::empty());
    } else {
        let init = vouches.drop_last();
        let last = vouches.last();
        assert forall|i: int| 0 <= i < init.len() implies (#[trigger] init[i]).stake > 0 by {
            assert(init[i] == vouches[i]);
        }
        lemma_refunds_and_cuts(init, reach, slash_bps);
        let earlier = amounts_of(slash::refunds(init, reach, slash_bps));
        wellformed::lemma_bps_bounds(last.stake as int, slash_bps as int);
        let back = slash::refund(reach, slash_bps)(last).amount as int;
        if slash::is_refunded(reach, slash_bps)(last) {
            assert(refunds =~= earlier.push(back));
            assert(earlier.push(back).drop_last() =~= earlier);
        } else {
            assert(refunds =~= earlier);
            assert(back == 0);
        }
        assert(slash::cuts(vouches, reach, slash_bps).drop_last() =~= slash::cuts(
            init,
            reach,
            slash_bps,
        ));
        assert(vouch::stakes(vouches).drop_last() =~= vouch::stakes(init));
    }
}

/// Nothing is lost in a slash: what goes to the treasury and what is paid back are together all
/// the stake behind the borrower.
pub proof fn slash_accounts_for_all_stake(state: State, borrower: Address, reach: Reach)
    requires
        state.wf(),
        state.has_active_loan(borrower),
        state.default_failure(borrower, reach) is None,
    ensures
        ({
            let next = state.defaulted(borrower, state.active_loan(borrower)->0, reach);
            let paid = math::sum(
                amounts_of(
                    slash::refunds(
                        state.vouches_of(borrower),
                        reach,
                        state.config->0.slash_bps,
                    ),
                ),
            );
            &&& (next.slash_treasury - state.slash_treasury) + paid == state.total_stake(borrower)
            &&& next.slash_treasury >= state.slash_treasury
        }),
{
    lemma_refunds_and_cuts(state.vouches_of(borrower), reach, state.config->0.slash_bps);
    wellformed::lemma_cuts_nonnegative(
        state.vouches_of(borrower),
        reach,
        state.config->0.slash_bps,
    );
}

/// A slash by the admins or past the deadline cuts every stake, and no vouch stays on record.
pub proof fn slash_reaches_every_voucher(
    state: State,
    signers: Seq<Address>,
    borrower: Address,
    i: int,
)
    requires
        0 <= i < state.vouches_of(borrower).len(),
    ensures
        ({
            let vouches = state.vouches_of(borrower);
            &&& slash::cuts(vouches, Reach::EveryToken, state.config->0.slash_bps)[i] == slash::cut(
                vouches[i].stake,
                state.config->0.slash_bps,
            )
            &&& state.slashed(signers, borrower).vouches_of(borrower).len() == 0
            &&& state.auto_slashed(borrower).vouches_of(borrower).len() == 0
        }),
{
    let vouches = state.vouches_of(borrower);
    let kept = vouches.filter(slash::is_spared(Reach::EveryToken));
    math::lemma_filter_contains(vouches, slash::is_spared(Reach::EveryToken));
    assert(kept.len() == 0) by {
        if kept.len() > 0 {
            assert(slash::is_spared(Reach::EveryToken)(kept[0]));
        }
    }
}

/// A slash on behalf of governance does not cut vouches in another token than the loan's: they
/// are paid back whole, and stay on record.
pub proof fn governance_spares_other_tokens(state: State, borrower: Address, i: int)
    requires
        state.execute_slash_failure(borrower) is None,
        0 <= i < state.vouches_of(borrower).len(),
        state.vouches_of(borrower)[i].token != state.active_loan(borrower)->0.token_address,
    ensures
        ({
            let reach = Reach::OneToken(state.active_loan(borrower)->0.token_address);
            let vouch = state.vouches_of(borrower)[i];
            &&& slash::cuts(state.vouches_of(borrower), reach, state.config->0.slash_bps)[i] == 0
            &&& slash::refund(reach, state.config->0.slash_bps)(vouch) == (Payment {
                token: vouch.token,
                to: vouch.voucher,
                amount: vouch.stake,
            })
            &&& state.slash_executed(borrower).vouches_of(borrower).contains(vouch)
        }),
{
    let reach = Reach::OneToken(state.active_loan(borrower)->0.token_address);
    lemma_filter_keeps(state.vouches_of(borrower), slash::is_spared(reach), i);
}

/// A filter keeps what it is meant to keep.
proof fn lemma_filter_keeps<A>(s: Seq<A>, pred: spec_fn(A) -> bool, i: int)
    requires
        0 <= i < s.len(),
        pred(s[i]),
    ensures
        s.filter(pred).contains(s[i]),
    decreases s.len(),
{
    reveal(Seq::filter);
    let init = s.drop_last();
    if i == s.len() - 1 {
        assert(s.filter(pred).last() == s[i]);
    } else {
        lemma_filter_keeps(init, pred, i);
        let k = choose|k: int| 0 <= k < init.filter(pred).len() && init.filter(pred)[k] == init[i];
        assert(s.filter(pred)[k] == s[i]);
    }
}

/// Once a loan is slashed it cannot be repaid, slashed again or claimed, and the default is
/// counted.
pub proof fn slashed_loan_is_closed(
    state: State,
    borrower: Address,
    reach: Reach,
    payment: i128,
    contract_balance: i128,
)
    requires
        state.wf(),
        state.has_active_loan(borrower),
        state.default_failure(borrower, reach) is None,
    ensures
        ({
            let next = state.defaulted(borrower, state.active_loan(borrower)->0, reach);
            &&& next.latest_loan(borrower) matches Some(loan) && loan.status
                == LoanStatus::Defaulted
            &&& !next.has_active_loan(borrower)
            &&& !next.paused ==> next.repay_failure(borrower, payment, contract_balance) == Some(
                Failure::Contract(ContractError::NoActiveLoan),
            )
            &&& next.execute_slash_failure(borrower) == Some(
                Failure::Contract(ContractError::NoActiveLoan),
            )
            &&& next.auto_slash_failure(borrower) == Some(
                Failure::Contract(ContractError::NoActiveLoan),
            )
            &&& next.claim_failure(borrower) == Some(
                Failure::Contract(ContractError::NoActiveLoan),
            )
            &&& State::count(next.default_counts, borrower) == State::count(
                state.default_counts,
                borrower,
            ) + 1
        }),
{
    wellformed::lemma_active(state, borrower);
}

// Repayment.

/// A share of the yield is not negative and no more than the yield; a sole voucher gets all of
/// it; a larger stake gets no smaller share.
pub proof fn yield_shares_are_fair(stake: int, other: int, pool: int, total_stake: int)
    requires
        0 <= stake <= other <= total_stake,
        total_stake > 0,
        pool >= 0,
    ensures
        0 <= loan::yield_share(stake, pool, total_stake) <= pool,
        stake == total_stake ==> loan::yield_share(stake, pool, total_stake) == pool,
        loan::yield_share(stake, pool, total_stake) <= loan::yield_share(
            other,
            pool,
            total_stake,
        ),
{
    assert(0 <= pool * stake <= pool * other <= pool * total_stake) by (nonlinear_arith)
        requires
            0 <= stake <= other <= total_stake,
            pool >= 0,
    ;
    assert((pool * total_stake) / total_stake == pool) by (nonlinear_arith)
        requires
            total_stake > 0,
    ;
    assert(0 <= (pool * stake) / total_stake <= (pool * other) / total_stake <= (pool
        * total_stake) / total_stake) by (nonlinear_arith)
        requires
            0 <= pool * stake <= pool * other <= pool * total_stake,
            total_stake > 0,
    ;
}

/// The parts of the yield that go with the vouches.
pub open spec fn shares(vouches: Seq<VouchRecord>, pool: int, total_stake: int) -> Seq<int> {
    vouches.map_values(
        |vouch: VouchRecord| loan::yield_share(vouch.stake as int, pool, total_stake),
    )
}

/// Rounding: the shares of some vouches fall short of their exact part by less than one each.
proof fn lemma_shares(vouches: Seq<VouchRecord>, pool: int, total_stake: int)
    requires
        forall|i: int| 0 <= i < vouches.len() ==> (#[trigger] vouches[i]).stake > 0,
        pool >= 0,
        total_stake > 0,
    ensures
        ({
            let stake = math::sum(vouch::stakes(vouches));
            let paid = math::sum(shares(vouches, pool, total_stake));
            &&& paid * total_stake <= pool * stake
            &&& pool * stake <= paid * total_stake + vouches.len() * (total_stake - 1)
        }),
    decreases vouches.len(),
{
    let stake = math::sum(vouch::stakes(vouches));
    let paid = math::sum(shares(vouches, pool, total_stake));
    let count = vouches.len() as int;
    if vouches.len() == 0 {
        assert(stake == 0 && paid == 0 && count == 0);
        assert(paid * total_stake == 0 && pool * stake == 0 && count * (total_stake - 1) == 0)
            by (nonlinear_arith)
            requires
                paid == 0,
                stake == 0,
                count == 0,
        ;
    } else {
        let init = vouches.drop_last();
        let last = vouches.last();
        assert forall|i: int| 0 <= i < init.len() implies (#[trigger] init[i]).stake > 0 by {
            assert(init[i] == vouches[i]);
        }
        lemma_shares(init, pool, total_stake);
        assert(vouch::stakes(vouches).drop_last() =~= vouch::stakes(init));
        assert(shares(vouches, pool, total_stake).drop_last() =~= shares(init, pool, total_stake));
        let stake0 = math::sum(vouch::stakes(init));
        let paid0 = math::sum(shares(init, pool, total_stake));
        let count0 = init.len() as int;
        let s = last.stake as int;
        let share = loan::yield_share(s, pool, total_stake);
        assert(vouches[vouches.len() - 1].stake > 0);
        assert(pool * s >= 0) by (nonlinear_arith)
            requires
                pool >= 0,
                s > 0,
        ;
        assert(share * total_stake <= pool * s <= share * total_stake + (total_stake - 1))
            by (nonlinear_arith)
            requires
                share == (pool * s) / total_stake,
                total_stake > 0,
        ;
        assert(paid * total_stake == paid0 * total_stake + share * total_stake)
            by (nonlinear_arith)
            requires
                paid == paid0 + share,
        ;
        assert(pool * stake == pool * stake0 + pool * s) by (nonlinear_arith)
            requires
                stake == stake0 + s,
        ;
        assert(count * (total_stake - 1) == count0 * (total_stake - 1) + (total_stake - 1))
            by (nonlinear_arith)
            requires
                count == count0 + 1,
        ;
    }
}

/// What the vouches take out in a loan's token is the stake in it and all shares.
proof fn lemma_payout_amounts(
    vouches: Seq<VouchRecord>,
    token: Address,
    pool: int,
    total_stake: int,
)
    ensures
        math::sum(loan::payout_amounts(vouches, token, pool, total_stake)) == math::sum(
            vouch::stakes_in(vouches, token),
        ) + math::sum(shares(vouches, pool, total_stake)),
    decreases vouches.len(),
{
    if vouches.len() > 0 {
        let init = vouches.drop_last();
        lemma_payout_amounts(init, token, pool, total_stake);
        assert(loan::payout_amounts(vouches, token, pool, total_stake).drop_last()
            =~= loan::payout_amounts(init, token, pool, total_stake));
        assert(vouch::stakes_in(vouches, token).drop_last() =~= vouch::stakes_in(init, token));
        assert(shares(vouches, pool, total_stake).drop_last() =~= shares(init, pool, total_stake));
    }
}

/// The vouchers of a repaid loan share what is left of the yield: never more, and less only by
/// rounding, by less than one stroop for each of them. In the loan's token they get this and
/// their stake.
pub proof fn vouchers_share_the_yield(state: State, loan: LoanView)
    requires
        state.wf(),
        state.yield_pool(loan) >= 0,
        state.total_stake(loan.borrower) > 0,
    ensures
        ({
            let vouches = state.vouches_of(loan.borrower);
            let pool = state.yield_pool(loan);
            let shared = math::sum(shares(vouches, pool, state.total_stake(loan.borrower)));
            &&& state.total_payout(loan) == state.stake_in(loan.borrower, loan.token_address)
                + shared
            &&& shared <= pool
            &&& pool < shared + vouches.len()
        }),
{
    let vouches = state.vouches_of(loan.borrower);
    let pool = state.yield_pool(loan);
    let stake = state.total_stake(loan.borrower);
    let shared = math::sum(shares(vouches, pool, stake));
    let count = vouches.len() as int;
    lemma_payout_amounts(vouches, loan.token_address, pool, stake);
    lemma_shares(vouches, pool, stake);
    assert(shared <= pool) by (nonlinear_arith)
        requires
            shared * stake <= pool * stake,
            stake > 0,
    ;
    assert(count > 0);
    assert(pool - shared < count) by (nonlinear_arith)
        requires
            pool * stake <= shared * stake + count * (stake - 1),
            stake > 0,
            count > 0,
    ;
}

/// The referrer's bonus is taken out of the yield: with the vouchers' shares it never exceeds
/// the stake and the yield.
pub proof fn settlement_stays_within_the_yield(state: State, borrower: Address)
    requires
        state.wf(),
        state.has_active_loan(borrower),
        state.total_stake(borrower) > 0,
    ensures
        ({
            let loan = state.active_loan(borrower)->0;
            &&& 0 <= state.referral_bonus(loan) <= loan.total_yield
            &&& state.total_payout(loan) + state.referral_bonus(loan) <= state.stake_in(
                borrower,
                loan.token_address,
            ) + loan.total_yield
            &&& state.protocol_fee(loan) <= loan.amount
        }),
{
    let loan = state.active_loan(borrower)->0;
    wellformed::lemma_active(state, borrower);
    wellformed::lemma_bps_bounds(loan.amount as int, state.referral_bonus_bps as int);
    wellformed::lemma_bps_bounds(loan.amount as int, state.protocol_fee_bps as int);
    vouchers_share_the_yield(state, loan);
}

/// A payment is booked exactly; the loan is repaid if and only if the payments reach the
/// principal, and then the borrower is free again and the repayment is counted.
pub proof fn payments_are_booked(
    state: State,
    borrower: Address,
    payment: i128,
    contract_balance: i128,
)
    requires
        state.wf(),
        state.repay_failure(borrower, payment, contract_balance) is None,
    ensures
        ({
            let loan = state.active_loan(borrower)->0;
            let next = state.repaid(borrower, payment);
            let after = next.latest_loan(borrower)->0;
            &&& next.latest_loan(borrower) is Some
            &&& after.id == loan.id
            &&& after.amount_repaid == loan.amount_repaid + payment
            &&& (after.status == LoanStatus::Repaid) == (loan.amount_repaid + payment
                >= loan.amount)
            &&& next.has_active_loan(borrower) == (loan.amount_repaid + payment < loan.amount)
            &&& State::count(next.repayment_counts, borrower) == State::count(
                state.repayment_counts,
                borrower,
            ) + if after.status == LoanStatus::Repaid {
                1int
            } else {
                0
            }
        }),
{
    wellformed::lemma_active(state, borrower);
}

/// Two part payments are as good as one of both together, whether they settle the loan or not:
/// the same loans, counts and vouches, and the same payouts, bonus and fee. (A first payment
/// that settles the loan leaves nothing to pay.)
pub proof fn part_payments_add_up(
    state: State,
    borrower: Address,
    first: i128,
    second: i128,
    contract_balance: i128,
)
    requires
        state.wf(),
        first > 0,
        second > 0,
        math::fits(first + second),
        state.repay_failure(borrower, (first + second) as i128, contract_balance) is None,
        state.active_loan(borrower)->0.amount_repaid + first < state.active_loan(borrower)->0.amount,
    ensures
        ({
            let begun = state.repaid(borrower, first);
            let loan = state.active_loan(borrower)->0;
            let later = begun.active_loan(borrower)->0;
            let twice = begun.repaid(borrower, second);
            let once = state.repaid(borrower, (first + second) as i128);
            &&& state.repay_failure(borrower, first, contract_balance) is None
            &&& begun.repay_failure(borrower, second, (contract_balance + first) as i128) is None
            &&& twice == State { effects: twice.effects, ..once }
            &&& begun.voucher_payouts(later) == state.voucher_payouts(loan)
            &&& begun.referral_bonus(later) == state.referral_bonus(loan)
            &&& begun.protocol_fee(later) == state.protocol_fee(loan)
        }),
{
    wellformed::lemma_active(state, borrower);
    let begun = state.repaid(borrower, first);
    let twice = begun.repaid(borrower, second);
    let once = state.repaid(borrower, (first + second) as i128);
    assert(begun.vouches_of(borrower) == state.vouches_of(borrower));
    assert(twice =~= State { effects: twice.effects, ..once });
}

/// The deadline separates repayment and auto-slash: a loan is never open to both.
pub proof fn deadline_separates_repayment_and_slash(
    state: State,
    borrower: Address,
    payment: i128,
    contract_balance: i128,
)
    ensures
        state.repay_failure(borrower, payment, contract_balance) is Some
            || state.auto_slash_failure(borrower) is Some,
{
}

/// A loan is only settled out of funds that the contract has.
pub proof fn settlement_is_funded(
    state: State,
    borrower: Address,
    payment: i128,
    contract_balance: i128,
)
    requires
        state.repay_failure(borrower, payment, contract_balance) is None,
        state.active_loan(borrower)->0.amount_repaid + payment >= state.active_loan(
            borrower,
        )->0.amount,
    ensures
        state.settlement_total(state.active_loan(borrower)->0) <= contract_balance + payment,
{
}

/// Claiming an expired loan pays back all the stake behind the borrower.
pub proof fn claim_pays_all_stake_back(state: State, borrower: Address)
    requires
        state.claim_failure(borrower) is None,
    ensures
        math::sum(amounts_of(slash::stake_payments(state.vouches_of(borrower))))
            == state.total_stake(borrower),
        state.claimed(borrower).vouches_of(borrower).len() == 0,
        state.claimed(borrower).slash_treasury == state.slash_treasury,
{
    let vouches = state.vouches_of(borrower);
    assert(amounts_of(slash::stake_payments(vouches)) =~= vouch::stakes(vouches));
}

} // verus!
