//! Where the tokens go.

use crate::address::Address;
use crate::calls::Call;
use crate::env::{Effect, Payment, State};
use crate::loan;
use crate::math;
use crate::pool;
use crate::slash::{self, Reach};
use crate::types::{LoanView, VouchRecord};
use crate::vouch;
use crate::wellformed;
use vstd::prelude::*;

verus! {

/// What flows into the contract, less what flows out of it, in one token.
pub open spec fn net_inflow(
    effects: Seq<Effect<Seq<Address>>>,
    token: Address,
    contract: Address,
) -> int
    decreases effects.len(),
{
    if effects.len() == 0 {
        0
    } else {
        net_inflow(effects.drop_last(), token, contract) + inflow(effects.last(), token, contract)
    }
}

/// What one effect brings in.
pub open spec fn inflow(effect: Effect<Seq<Address>>, token: Address, contract: Address) -> int {
    match effect {
        Effect::Transfer { token: moved, from, to, amount } => if moved == token {
            (if to == contract {
                amount as int
            } else {
                0
            }) - (if from == contract {
                amount as int
            } else {
                0
            })
        } else {
            0
        },
        _ => 0,
    }
}

impl State {
    /// What the contract holds of a token after a call, less what it held before.
    pub open spec fn flow(self, call: Call, token: Address) -> int {
        net_inflow(self.after(call).effects, token, self.contract) - net_inflow(
            self.effects,
            token,
            self.contract,
        )
    }

    /// The contract does not vouch for the borrower itself: it would pay itself.
    pub open spec fn backed_from_outside(self, borrower: Address) -> bool {
        forall|i: int|
            0 <= i < self.vouches_of(borrower).len() ==> (#[trigger] self.vouches_of(
                borrower,
            )[i]).voucher != self.contract
    }
}

/// The amounts of payments in a token, with 0 for the others.
pub open spec fn paid_in(payments: Seq<Payment>, token: Address) -> Seq<int> {
    payments.map_values(
        |payment: Payment|
            if payment.token == token {
                payment.amount as int
            } else {
                0
            },
    )
}

/// One more effect.
proof fn lemma_emit(state: State, effect: Effect<Seq<Address>>, token: Address)
    ensures
        net_inflow(state.emit(effect).effects, token, state.contract) == net_inflow(
            state.effects,
            token,
            state.contract,
        ) + inflow(effect, token, state.contract),
{
    assert(state.effects.push(effect).drop_last() =~= state.effects);
}

/// Signatures move nothing.
proof fn lemma_authorize_all(state: State, addresses: Seq<Address>, token: Address)
    ensures
        net_inflow(state.authorize_all(addresses).effects, token, state.contract) == net_inflow(
            state.effects,
            token,
            state.contract,
        ),
    decreases addresses.len(),
{
    let signed = state.authorize_all(addresses).effects;
    if addresses.len() == 0 {
        assert(signed =~= state.effects);
    } else {
        lemma_authorize_all(state, addresses.drop_last(), token);
        assert(signed.drop_last() =~= state.authorize_all(addresses.drop_last()).effects);
    }
}

/// Payments to others take out what they add up to.
proof fn lemma_pay_all(state: State, payments: Seq<Payment>, token: Address)
    requires
        forall|i: int| 0 <= i < payments.len() ==> (#[trigger] payments[i]).to != state.contract,
    ensures
        net_inflow(state.pay_all(payments).effects, token, state.contract) == net_inflow(
            state.effects,
            token,
            state.contract,
        ) - math::sum(paid_in(payments, token)),
    decreases payments.len(),
{
    let paid = state.pay_all(payments).effects;
    if payments.len() == 0 {
        assert(paid =~= state.effects);
    } else {
        let init = payments.drop_last();
        assert forall|i: int| 0 <= i < init.len() implies (#[trigger] init[i]).to
            != state.contract by {
            assert(init[i] == payments[i]);
        }
        lemma_pay_all(state, init, token);
        assert(paid.drop_last() =~= state.pay_all(init).effects);
        assert(payments[payments.len() - 1].to != state.contract);
        assert(paid_in(payments, token).drop_last() =~= paid_in(init, token));
    }
}

/// Stake on record is stake in the contract: whatever a voucher stakes, adds, takes out or
/// withdraws, in every token the record changes by what flows in or out.
pub proof fn stake_on_record_is_held(
    state: State,
    call: Call,
    voucher: Address,
    borrower: Address,
    token: Address,
)
    requires
        state.wf(),
        state.failure(call) is None,
        voucher != state.contract,
        match call {
            Call::Vouch { voucher: v, borrower: b, .. } => v == voucher && b == borrower,
            Call::IncreaseStake { voucher: v, borrower: b, .. } => v == voucher && b == borrower,
            Call::DecreaseStake { voucher: v, borrower: b, .. } => v == voucher && b == borrower,
            Call::WithdrawVouch { voucher: v, borrower: b } => v == voucher && b == borrower,
            _ => false,
        },
    ensures
        state.flow(call, token) == state.after(call).stake_in(borrower, token) - state.stake_in(
            borrower,
            token,
        ),
{
    let next = state.after(call);
    let list = state.vouches_of(borrower);
    let amounts = vouch::stakes_in(list, token);
    let left = vouch::stakes_in(next.vouches_of(borrower), token);
    let i = vouch::first_vouch(list, voucher)->0;
    vouch::lemma_first_vouch(list, voucher);
    lemma_emit(state, Effect::RequireAuth(voucher), token);
    let signed = state.authorize(voucher);
    match call {
        Call::Vouch { stake, token: staked, .. } => {
            assert(left.drop_last() =~= amounts);
            let collected = signed.collect(staked, voucher, stake);
            lemma_emit(signed, collected.effects.last(), token);
            lemma_emit(collected, next.effects.last(), token);
            assert(next.effects =~= collected.emit(next.effects.last()).effects);
        },
        Call::IncreaseStake { additional, .. } => {
            math::lemma_sum_update(amounts, i, left[i]);
            assert(left =~= amounts.update(i, left[i]));
            lemma_emit(signed, next.effects.last(), token);
            assert(next.effects =~= signed.emit(next.effects.last()).effects);
        },
        Call::DecreaseStake { amount, .. } => {
            if list[i].stake == amount {
                math::lemma_sum_remove(amounts, i);
                assert(left =~= amounts.remove(i));
            } else {
                math::lemma_sum_update(amounts, i, left[i]);
                assert(left =~= amounts.update(i, left[i]));
            }
            lemma_emit(signed, next.effects.last(), token);
            assert(next.effects =~= signed.emit(next.effects.last()).effects);
        },
        Call::WithdrawVouch { .. } => {
            math::lemma_sum_remove(amounts, i);
            assert(left =~= amounts.remove(i));
            let paid = signed.pay(list[i].token, voucher, list[i].stake);
            lemma_emit(signed, paid.effects.last(), token);
            lemma_emit(paid, next.effects.last(), token);
            assert(next.effects =~= paid.emit(next.effects.last()).effects);
        },
        _ => {},
    }
}

proof fn lemma_pledged_all_flow(
    state: State,
    voucher: Address,
    borrowers: Seq<Address>,
    amounts: Seq<i128>,
    staked: Address,
    token: Address,
)
    requires
        borrowers.len() == amounts.len(),
        voucher != state.contract,
    ensures
        state.pledged_all(voucher, borrowers, amounts, staked).contract == state.contract,
        net_inflow(
            state.pledged_all(voucher, borrowers, amounts, staked).effects,
            token,
            state.contract,
        ) == net_inflow(state.effects, token, state.contract) + if token == staked {
            math::sum(pool::as_ints(amounts))
        } else {
            0
        },
    decreases borrowers.len(),
{
    if borrowers.len() > 0 {
        let init = borrowers.drop_last();
        let sums = amounts.drop_last();
        lemma_pledged_all_flow(state, voucher, init, sums, staked, token);
        let prior = state.pledged_all(voucher, init, sums, staked);
        let next = state.pledged_all(voucher, borrowers, amounts, staked);
        let collected = prior.collect(staked, voucher, amounts.last());
        lemma_emit(prior, collected.effects.last(), token);
        lemma_emit(collected, next.effects.last(), token);
        assert(next.effects =~= collected.emit(next.effects.last()).effects);
        assert(pool::as_ints(amounts).drop_last() =~= pool::as_ints(sums));
    }
}

/// A batch brings in the sum of its stakes.
pub proof fn batch_is_collected(
    state: State,
    voucher: Address,
    borrowers: Seq<Address>,
    stakes: Seq<i128>,
    staked: Address,
    token: Address,
)
    requires
        state.batch_vouch_failure(voucher, borrowers, stakes, staked) is None,
        voucher != state.contract,
    ensures
        state.flow(Call::BatchVouch { voucher, borrowers, stakes, token: staked }, token)
            == if token == staked {
            math::sum(pool::as_ints(stakes))
        } else {
            0
        },
{
    lemma_emit(state, Effect::RequireAuth(voucher), token);
    lemma_pledged_all_flow(state.authorize(voucher), voucher, borrowers, stakes, staked, token);
}

proof fn lemma_disbursed_flow(
    state: State,
    borrower: Address,
    co_borrowers: Seq<Address>,
    amount: i128,
    loan_purpose: Seq<u8>,
    lent: Address,
    token: Address,
)
    requires
        borrower != state.contract,
    ensures
        net_inflow(
            state.disbursed(borrower, co_borrowers, amount, loan_purpose, lent).effects,
            token,
            state.contract,
        ) == net_inflow(state.effects, token, state.contract) - if token == lent {
            amount as int
        } else {
            0
        },
{
    let next = state.disbursed(borrower, co_borrowers, amount, loan_purpose, lent);
    let paid = state.pay(lent, borrower, amount);
    lemma_emit(state, paid.effects.last(), token);
    lemma_emit(paid, next.effects.last(), token);
    assert(next.effects =~= paid.emit(next.effects.last()).effects);
}

/// A loan takes its amount out of the contract, in its token, and nothing else.
pub proof fn loan_is_paid_out(
    state: State,
    borrower: Address,
    co_borrowers: Seq<Address>,
    amount: i128,
    threshold: i128,
    loan_purpose: Seq<u8>,
    lent: Address,
    contract_balance: i128,
    token: Address,
)
    requires
        borrower != state.contract,
    ensures
        state.flow(
            Call::RequestLoan {
                borrower,
                co_borrowers,
                amount,
                threshold,
                loan_purpose,
                token: lent,
                contract_balance,
            },
            token,
        ) == if token == lent {
            -amount
        } else {
            0
        },
{
    lemma_emit(state, Effect::RequireAuth(borrower), token);
    let signed = state.authorize(borrower);
    lemma_authorize_all(signed, co_borrowers, token);
    lemma_disbursed_flow(
        signed.authorize_all(co_borrowers),
        borrower,
        co_borrowers,
        amount,
        loan_purpose,
        lent,
        token,
    );
}

proof fn lemma_disbursed_all_flow(
    state: State,
    borrowers: Seq<Address>,
    amounts: Seq<i128>,
    lent: Address,
    token: Address,
)
    requires
        borrowers.len() == amounts.len(),
        !borrowers.contains(state.contract),
    ensures
        state.disbursed_all(borrowers, amounts, lent).contract == state.contract,
        net_inflow(
            state.disbursed_all(borrowers, amounts, lent).effects,
            token,
            state.contract,
        ) == net_inflow(state.effects, token, state.contract) - if token == lent {
            math::sum(pool::as_ints(amounts))
        } else {
            0
        },
    decreases borrowers.len(),
{
    if borrowers.len() > 0 {
        let init = borrowers.drop_last();
        let sums = amounts.drop_last();
        assert(borrowers.contains(borrowers[borrowers.len() - 1]));
        assert forall|i: int| 0 <= i < init.len() implies init[i] != state.contract by {
            assert(borrowers.contains(borrowers[i]));
        }
        lemma_disbursed_all_flow(state, init, sums, lent, token);
        lemma_disbursed_flow(
            state.disbursed_all(init, sums, lent),
            borrowers.last(),
            Seq::empty(),
            amounts.last(),
            Seq::empty(),
            lent,
            token,
        );
        assert(pool::as_ints(amounts).drop_last() =~= pool::as_ints(sums));
    }
}

/// A pool takes out the total that it records, in the protocol token.
pub proof fn pool_is_paid_out(
    state: State,
    signers: Seq<Address>,
    borrowers: Seq<Address>,
    amounts: Seq<i128>,
    contract_balance: i128,
    token: Address,
)
    requires
        state.pool_failure(signers, borrowers, amounts, contract_balance) is None,
        !borrowers.contains(state.contract),
    ensures
        ({
            let call = Call::CreateLoanPool { signers, borrowers, amounts, contract_balance };
            let pool_id = (state.pool_counter + 1) as u64;
            state.flow(call, token) == if token == state.config->0.token {
                -state.after(call).pools[pool_id].total_disbursed
            } else {
                0
            }
        }),
{
    lemma_authorize_all(state, signers, token);
    lemma_disbursed_all_flow(
        state.authorize_all(signers),
        borrowers,
        amounts,
        state.config->0.token,
        token,
    );
    assert(pool::as_ints(amounts).take(amounts.len() as int) =~= pool::as_ints(amounts));
}

/// What each vouch in a token loses in a slash, with 0 for the others.
pub open spec fn cuts_in(
    vouches: Seq<VouchRecord>,
    reach: Reach,
    slash_bps: i128,
    token: Address,
) -> Seq<int> {
    vouches.map_values(
        |vouch: VouchRecord|
            if vouch.token == token && reach.covers(token) {
                slash::cut(vouch.stake, slash_bps)
            } else {
                0
            },
    )
}

impl State {
    /// What the vouches behind a borrower in a token lose together in a slash.
    pub open spec fn cut_in(self, borrower: Address, reach: Reach, token: Address) -> int {
        math::sum(cuts_in(self.vouches_of(borrower), reach, self.config->0.slash_bps, token))
    }
}

/// What a slash pays back in a token: the stake in it, less the cuts.
proof fn lemma_refunds_in(
    vouches: Seq<VouchRecord>,
    reach: Reach,
    slash_bps: i128,
    token: Address,
)
    requires
        forall|i: int| 0 <= i < vouches.len() ==> (#[trigger] vouches[i]).stake > 0,
        0 < slash_bps <= 10_000,
    ensures
        math::sum(paid_in(slash::refunds(vouches, reach, slash_bps), token)) == math::sum(
            vouch::stakes_in(vouches, token),
        ) - math::sum(cuts_in(vouches, reach, slash_bps, token)),
    decreases vouches.len(),
{
    reveal(Seq::filter);
    let refunds = slash::refunds(vouches, reach, slash_bps);
    let paid = paid_in(refunds, token);
    if vouches.len() == 0 {
        assert(paid =~= Seq::empty());
    } else {
        let init = vouches.drop_last();
        let last = vouches.last();
        assert forall|i: int| 0 <= i < init.len() implies (#[trigger] init[i]).stake > 0 by {
            assert(init[i] == vouches[i]);
        }
        lemma_refunds_in(init, reach, slash_bps, token);
        let earlier = slash::refunds(init, reach, slash_bps);
        let back = slash::refund(reach, slash_bps)(last);
        wellformed::lemma_bps_bounds(last.stake as int, slash_bps as int);
        if slash::is_refunded(reach, slash_bps)(last) {
            assert(refunds =~= earlier.push(back));
            assert(paid.drop_last() =~= paid_in(earlier, token));
        } else {
            assert(refunds =~= earlier);
            assert(last.stake - slash::cut(last.stake, slash_bps) == 0);
        }
        assert(cuts_in(vouches, reach, slash_bps, token).drop_last() =~= cuts_in(
            init,
            reach,
            slash_bps,
            token,
        ));
        assert(vouch::stakes_in(vouches, token).drop_last() =~= vouch::stakes_in(init, token));
    }
}

/// What a default takes out of the contract.
proof fn lemma_defaulted_flow(
    state: State,
    borrower: Address,
    loan: LoanView,
    reach: Reach,
    token: Address,
)
    requires
        state.vouches_wf(),
        state.books_wf(),
        state.config is Some,
        state.backed_from_outside(borrower),
    ensures
        net_inflow(state.defaulted(borrower, loan, reach).effects, token, state.contract)
            == net_inflow(state.effects, token, state.contract) - (state.stake_in(borrower, token)
            - state.cut_in(borrower, reach, token)),
{
    let vouches = state.vouches_of(borrower);
    let slash_bps = state.config->0.slash_bps;
    let refunds = slash::refunds(vouches, reach, slash_bps);
    let refunded = slash::is_refunded(reach, slash_bps);
    assert forall|i: int| 0 <= i < refunds.len() implies (#[trigger] refunds[i]).to
        != state.contract by {
        math::lemma_filter_contains(vouches, refunded);
        assert(vouches.contains(vouches.filter(refunded)[i]));
    }
    lemma_refunds_in(vouches, reach, slash_bps, token);
    lemma_pay_all(state, refunds, token);
    assert(state.defaulted(borrower, loan, reach).effects =~= state.pay_all(refunds).effects);
}

/// The borrower whose loan a call slashes, if it slashes one.
pub open spec fn slashed_by(state: State, call: Call) -> Option<Address> {
    match call {
        Call::Slash { borrower, .. } => Some(borrower),
        Call::AutoSlash { borrower } => Some(borrower),
        Call::VoteSlash { voucher, borrower, approve } => if state.vote_decides(
            voucher,
            borrower,
            approve,
        ) {
            Some(borrower)
        } else {
            None
        },
        Call::ExecuteSlashProposal { proposal_id } => Some(
            state.proposals[proposal_id].action->Slash_0,
        ),
        _ => None,
    }
}

/// Which vouches a call slashes: governance only those in the loan's token.
pub open spec fn reach_of(state: State, call: Call, borrower: Address) -> Reach {
    if call is VoteSlash || call is ExecuteSlashProposal {
        Reach::OneToken(state.active_loan(borrower)->0.token_address)
    } else {
        Reach::EveryToken
    }
}

/// However a loan is slashed, what leaves the contract is the stake behind the borrower, token
/// by token, less the cuts, and the cuts are what the slash treasury gains. Governance cuts the
/// loan's token alone.
pub proof fn slash_pays_out_what_it_leaves(
    state: State,
    call: Call,
    borrower: Address,
    token: Address,
)
    requires
        state.wf(),
        state.failure(call) is None,
        slashed_by(state, call) == Some(borrower),
        state.backed_from_outside(borrower),
    ensures
        ({
            let reach = reach_of(state, call, borrower);
            let gained = state.after(call).slash_treasury - state.slash_treasury;
            let cut = state.cut_in(borrower, reach, token);
            &&& gained == state.total_cut(borrower, reach)
            &&& gained >= 0
            &&& state.flow(call, token) == -(state.stake_in(borrower, token) - cut)
            &&& reach == Reach::OneToken(token) ==> cut == gained
            &&& !reach.covers(token) ==> cut == 0
        }),
{
    let loan = state.active_loan(borrower)->0;
    let next = state.after(call);
    let reach = reach_of(state, call, borrower);
    let vouches = state.vouches_of(borrower);
    let slash_bps = state.config->0.slash_bps;
    wellformed::lemma_cuts_nonnegative(vouches, reach, slash_bps);
    if reach == Reach::OneToken(token) {
        assert(cuts_in(vouches, reach, slash_bps, token) =~= slash::cuts(
            vouches,
            reach,
            slash_bps,
        ));
    }
    if !reach.covers(token) {
        math::lemma_sum_zeros(cuts_in(vouches, reach, slash_bps, token));
    }
    match call {
        Call::Slash { signers, .. } => {
            lemma_authorize_all(state, signers, token);
            let signed = state.authorize_all(signers);
            lemma_defaulted_flow(signed, borrower, loan, reach, token);
            let cut = signed.defaulted(borrower, loan, reach);
            let burnt = cut.reputation_burnt(borrower);
            lemma_emit(cut, burnt.effects.last(), token);
            lemma_emit(burnt, next.effects.last(), token);
        },
        Call::AutoSlash { .. } => {
            lemma_defaulted_flow(state, borrower, loan, reach, token);
            let cut = state.defaulted(borrower, loan, reach);
            lemma_emit(cut, next.effects.last(), token);
        },
        Call::VoteSlash { voucher, approve, .. } => {
            let counted = state.vote_counted(voucher, borrower, approve);
            let signed = state.authorize(voucher);
            lemma_emit(state, Effect::RequireAuth(voucher), token);
            lemma_emit(signed, counted.effects.last(), token);
            assert(counted.effects =~= signed.emit(counted.effects.last()).effects);
            lemma_defaulted_flow(counted, borrower, loan, reach, token);
            lemma_emit(counted.defaulted(borrower, loan, reach), next.effects.last(), token);
        },
        Call::ExecuteSlashProposal { proposal_id } => {
            let marked = state.proposal_marked(proposal_id);
            lemma_defaulted_flow(marked, borrower, loan, reach, token);
            let cut = marked.defaulted(borrower, loan, reach);
            let executed = marked.slash_executed(borrower);
            lemma_emit(cut, executed.effects.last(), token);
            lemma_emit(executed, next.effects.last(), token);
        },
        _ => {},
    }
}

/// Claiming an expired loan takes out all the stake behind the borrower, token by token.
pub proof fn claim_pays_out_the_stake(state: State, borrower: Address, token: Address)
    requires
        state.backed_from_outside(borrower),
    ensures
        state.flow(Call::ClaimExpiredLoan { borrower }, token) == -state.stake_in(borrower, token),
{
    let vouches = state.vouches_of(borrower);
    let payments = slash::stake_payments(vouches);
    let signed = state.authorize(borrower);
    lemma_emit(state, Effect::RequireAuth(borrower), token);
    assert forall|i: int| 0 <= i < payments.len() implies (#[trigger] payments[i]).to
        != state.contract by {
        assert(vouches[i].voucher != state.contract);
    }
    lemma_pay_all(signed, payments, token);
    assert(paid_in(payments, token) =~= vouch::stakes_in(vouches, token));
    assert(state.claimed(borrower).effects =~= signed.pay_all(payments).effects);
}

/// What a settlement pays the vouchers in a token: in the loan's token the stakes in it and all
/// shares of the yield, in another token the stakes in it.
pub proof fn payouts_add_up(
    vouches: Seq<VouchRecord>,
    lent: Address,
    pool: int,
    total_stake: int,
    token: Address,
)
    requires
        loan::payouts_fit(vouches, lent, pool, total_stake),
    ensures
        math::sum(paid_in(loan::payouts(vouches, lent, pool, total_stake), token)) == if token
            == lent {
            math::sum(loan::payout_amounts(vouches, lent, pool, total_stake))
        } else {
            math::sum(vouch::stakes_in(vouches, token))
        },
{
    let stakes = vouches.map_values(loan::payout(lent, pool, total_stake));
    let shares = vouches.filter(loan::in_other_token(lent)).map_values(
        loan::share_payout(lent, pool, total_stake),
    );
    lemma_payouts_in(vouches, lent, pool, total_stake, token);
    math::lemma_sum_concat(paid_in(stakes, token), paid_in(shares, token));
    assert(paid_in(stakes + shares, token) =~= paid_in(stakes, token) + paid_in(shares, token));
}

proof fn lemma_payouts_in(
    vouches: Seq<VouchRecord>,
    lent: Address,
    pool: int,
    total_stake: int,
    token: Address,
)
    requires
        forall|i: int|
            0 <= i < vouches.len() ==> loan::payout_fits(
                #[trigger] vouches[i],
                lent,
                pool,
                total_stake,
            ),
    ensures
        math::sum(
            paid_in(vouches.map_values(loan::payout(lent, pool, total_stake)), token),
        ) + math::sum(
            paid_in(
                vouches.filter(loan::in_other_token(lent)).map_values(
                    loan::share_payout(lent, pool, total_stake),
                ),
                token,
            ),
        ) == if token == lent {
            math::sum(loan::payout_amounts(vouches, lent, pool, total_stake))
        } else {
            math::sum(vouch::stakes_in(vouches, token))
        },
    decreases vouches.len(),
{
    reveal(Seq::filter);
    let payout = loan::payout(lent, pool, total_stake);
    let share_payout = loan::share_payout(lent, pool, total_stake);
    let pred = loan::in_other_token(lent);
    let stakes = vouches.map_values(payout);
    let shares = vouches.filter(pred).map_values(share_payout);
    if vouches.len() == 0 {
        assert(paid_in(stakes, token) =~= Seq::empty());
        assert(paid_in(shares, token) =~= Seq::empty());
    } else {
        let init = vouches.drop_last();
        let last = vouches.last();
        assert forall|i: int| 0 <= i < init.len() implies loan::payout_fits(
            #[trigger] init[i],
            lent,
            pool,
            total_stake,
        ) by {
            assert(init[i] == vouches[i]);
        }
        lemma_payouts_in(init, lent, pool, total_stake, token);
        assert(loan::payout_fits(vouches[vouches.len() - 1], lent, pool, total_stake));
        if total_stake > 0 {
            math::lemma_quotient_fits(pool * last.stake, total_stake);
        }
        assert(paid_in(stakes, token).drop_last() =~= paid_in(init.map_values(payout), token));
        let earlier = init.filter(pred).map_values(share_payout);
        if last.token != lent {
            assert(shares =~= earlier.push(share_payout(last)));
            assert(paid_in(shares, token).drop_last() =~= paid_in(earlier, token));
        } else {
            assert(shares =~= earlier);
        }
        assert(loan::payout_amounts(vouches, lent, pool, total_stake).drop_last()
            =~= loan::payout_amounts(init, lent, pool, total_stake));
        assert(vouch::stakes_in(vouches, token).drop_last() =~= vouch::stakes_in(init, token));
    }
}

/// A repayment brings the payment in; if it settles the loan, the settlement goes out: the
/// vouchers' stakes, each in its token, their shares of the yield, the referrer's bonus and the
/// protocol's fee.
pub proof fn repayment_settles_the_loan(
    state: State,
    borrower: Address,
    payment: i128,
    contract_balance: i128,
    token: Address,
)
    requires
        state.wf(),
        state.repay_failure(borrower, payment, contract_balance) is None,
        borrower != state.contract,
        state.backed_from_outside(borrower),
        state.referrers.contains_key(borrower) ==> state.referrers[borrower] != state.contract,
        state.fee_treasury != Some(state.contract),
    ensures
        ({
            let loan = state.active_loan(borrower)->0;
            let settled = loan.amount_repaid + payment >= loan.amount;
            let paid_out = if !settled {
                0
            } else if token == loan.token_address {
                state.settlement_total(loan)
            } else {
                state.stake_in(borrower, token)
            };
            let paid_in = if token == loan.token_address {
                payment as int
            } else {
                0
            };
            state.flow(Call::Repay { borrower, payment, contract_balance }, token) == paid_in
                - paid_out
        }),
{
    let loan = state.active_loan(borrower)->0;
    let lent = loan.token_address;
    let next = state.repaid(borrower, payment);
    wellformed::lemma_active(state, borrower);
    let signed = state.authorize(borrower);
    let joined = signed.authorize_all(loan.co_borrowers);
    let collected = joined.collect(lent, borrower, payment);
    lemma_emit(state, Effect::RequireAuth(borrower), token);
    lemma_authorize_all(signed, loan.co_borrowers, token);
    lemma_emit(joined, collected.effects.last(), token);
    if loan.amount_repaid + payment >= loan.amount {
        let vouches = state.vouches_of(borrower);
        let payouts = state.voucher_payouts(loan);
        let bonus = state.referral_bonus(loan);
        let fee = state.protocol_fee(loan);
        let others = vouches.filter(loan::in_other_token(lent));
        assert forall|i: int| 0 <= i < payouts.len() implies (#[trigger] payouts[i]).to
            != state.contract by {
            if i < vouches.len() {
                assert(vouches[i].voucher != state.contract);
            } else {
                math::lemma_filter_contains(vouches, loan::in_other_token(lent));
                assert(vouches.contains(others[i - vouches.len()]));
            }
        }
        lemma_pay_all(collected, payouts, token);
        payouts_add_up(
            vouches,
            lent,
            state.yield_pool(loan),
            state.total_stake(borrower),
            token,
        );
        wellformed::lemma_bps_bounds(loan.amount as int, state.referral_bonus_bps as int);
        wellformed::lemma_bps_bounds(loan.amount as int, state.protocol_fee_bps as int);
        let paid = collected.pay_all(payouts);
        let thanked = paid.extras_paid(loan, bonus, 0);
        let charged = paid.extras_paid(loan, bonus, fee);
        let minted = charged.reputation_minted(borrower);
        lemma_emit(paid, thanked.effects.last(), token);
        lemma_emit(thanked, charged.effects.last(), token);
        lemma_emit(charged, minted.effects.last(), token);
        lemma_emit(minted, next.effects.last(), token);
        assert(next.effects =~= minted.emit(next.effects.last()).effects);
    } else {
        assert(next.effects =~= collected.effects);
    }
}

/// No other call moves tokens, but for the withdrawal of the slash treasury.
pub proof fn nothing_else_moves_tokens(state: State, call: Call, token: Address)
    requires
        match call {
            Call::Initialize { .. } => true,
            Call::TransferVouch { .. } => true,
            Call::RegisterReferral { .. } => true,
            Call::VoteSlash { .. } => slashed_by(state, call) is None,
            Call::ProposeSlash { .. } => true,
            Call::CancelSlashProposal { .. } => true,
            Call::SetConfig { .. } => true,
            Call::AddAdmin { .. } => true,
            Call::RemoveAdmin { .. } => true,
            Call::RotateAdmin { .. } => true,
            Call::SetAdminThreshold { .. } => true,
            Call::Adjust { .. } => true,
            Call::Upgrade { .. } => true,
            _ => false,
        },
    ensures
        state.flow(call, token) == 0,
{
    let next = state.after(call);
    match call {
        Call::Initialize { deployer: signer, .. } => {
            lemma_signed_and_published(state, signer, next, token);
        },
        Call::TransferVouch { from: signer, .. } => {
            lemma_signed_and_published(state, signer, next, token);
        },
        Call::RegisterReferral { borrower: signer, .. } => {
            lemma_signed_and_published(state, signer, next, token);
        },
        Call::VoteSlash { voucher: signer, .. } => {
            lemma_signed_and_published(state, signer, next, token);
        },
        Call::ProposeSlash { proposer: signer, .. } => {
            lemma_signed_and_published(state, signer, next, token);
        },
        Call::CancelSlashProposal { caller: signer, .. } => {
            lemma_signed_and_published(state, signer, next, token);
        },
        Call::Upgrade { signers, wasm_hash } => {
            lemma_authorize_all(state, signers, token);
            let signed = state.authorize_all(signers);
            let updated = signed.emit(Effect::UpdateWasm { wasm_hash });
            lemma_emit(signed, updated.effects.last(), token);
            lemma_emit(updated, next.effects.last(), token);
        },
        Call::SetConfig { signers, .. } => {
            lemma_approved_and_published(state, signers, next, token);
        },
        Call::AddAdmin { signers, .. } => {
            lemma_approved_and_published(state, signers, next, token);
        },
        Call::RemoveAdmin { signers, .. } => {
            lemma_approved_and_published(state, signers, next, token);
        },
        Call::RotateAdmin { signers, .. } => {
            lemma_approved_and_published(state, signers, next, token);
        },
        Call::SetAdminThreshold { signers, .. } => {
            lemma_approved_and_published(state, signers, next, token);
        },
        Call::Adjust { signers, .. } => {
            lemma_approved_and_published(state, signers, next, token);
        },
        _ => {},
    }
}

/// A signature and at most one event.
proof fn lemma_signed_and_published(state: State, signer: Address, next: State, token: Address)
    requires
        ({
            let signed = state.authorize(signer).effects;
            next.effects == signed || (next.effects == signed.push(next.effects.last())
                && next.effects.last() is Publish)
        }),
    ensures
        net_inflow(next.effects, token, state.contract) == net_inflow(
            state.effects,
            token,
            state.contract,
        ),
{
    lemma_emit(state, Effect::RequireAuth(signer), token);
    lemma_emit(state.authorize(signer), next.effects.last(), token);
}

/// Signatures and at most one event.
proof fn lemma_approved_and_published(
    state: State,
    signers: Seq<Address>,
    next: State,
    token: Address,
)
    requires
        ({
            let signed = state.authorize_all(signers).effects;
            next.effects == signed || (next.effects == signed.push(next.effects.last())
                && next.effects.last() is Publish)
        }),
    ensures
        net_inflow(next.effects, token, state.contract) == net_inflow(
            state.effects,
            token,
            state.contract,
        ),
{
    lemma_authorize_all(state, signers, token);
    lemma_emit(state.authorize_all(signers), next.effects.last(), token);
}

} // verus!
