//! The stakes on record over any run of calls.

use crate::address::Address;
use crate::calls::{self, Call};
use crate::env::State;
use crate::flows;
use crate::math;
use crate::pool;
use crate::rules;
use crate::slash;
use crate::types::VouchRecord;
use crate::vouch;
use vstd::prelude::*;

verus! {

// Nobody vouches for oneself.

impl State {
    /// No borrower stands among its own vouchers.
    pub open spec fn nobody_backs_oneself(self) -> bool {
        forall|b: Address, i: int|
            0 <= i < self.vouches_of(b).len() ==> (#[trigger] self.vouches_of(b)[i]).voucher != b
    }
}

/// A list that holds nothing but vouchers of another one, and outsiders.
proof fn lemma_one_borrower(state: State, next: State, borrower: Address)
    requires
        state.nobody_backs_oneself(),
        forall|b: Address|
            b != borrower ==> #[trigger] next.vouches_of(b) == state.vouches_of(b),
        forall|i: int|
            0 <= i < next.vouches_of(borrower).len() ==> (#[trigger] next.vouches_of(
                borrower,
            )[i]).voucher != borrower,
    ensures
        next.nobody_backs_oneself(),
{
    assert forall|b: Address, i: int| 0 <= i < next.vouches_of(b).len() implies (
    #[trigger] next.vouches_of(b)[i]).voucher != b by {
        if b != borrower {
            assert(next.vouches_of(b) == state.vouches_of(b));
            assert(state.vouches_of(b)[i].voucher != b);
        }
    }
}

proof fn lemma_pledged(
    state: State,
    voucher: Address,
    borrower: Address,
    stake: i128,
    token: Address,
)
    requires
        state.nobody_backs_oneself(),
        voucher != borrower,
    ensures
        state.pledged(voucher, borrower, stake, token).nobody_backs_oneself(),
{
    let next = state.pledged(voucher, borrower, stake, token);
    let list = state.vouches_of(borrower);
    assert forall|i: int| 0 <= i < next.vouches_of(borrower).len() implies (
    #[trigger] next.vouches_of(borrower)[i]).voucher != borrower by {
        assert(i < list.len() ==> next.vouches_of(borrower)[i] == list[i]);
    }
    lemma_one_borrower(state, next, borrower);
}

proof fn lemma_pledged_all(
    state: State,
    voucher: Address,
    borrowers: Seq<Address>,
    amounts: Seq<i128>,
    token: Address,
    last: u64,
    start: State,
)
    requires
        state.nobody_backs_oneself(),
        borrowers.len() == amounts.len(),
        start.pledges_failure(voucher, borrowers, amounts, token, last) is None,
    ensures
        state.pledged_all(voucher, borrowers, amounts, token).nobody_backs_oneself(),
    decreases borrowers.len(),
{
    if borrowers.len() > 0 {
        let init = borrowers.drop_last();
        let sums = amounts.drop_last();
        lemma_pledged_all(state, voucher, init, sums, token, last, start);
        lemma_pledged(
            state.pledged_all(voucher, init, sums, token),
            voucher,
            borrowers.last(),
            amounts.last(),
            token,
        );
    }
}

proof fn lemma_filtered(
    state: State,
    next: State,
    borrower: Address,
    pred: spec_fn(VouchRecord) -> bool,
)
    requires
        state.nobody_backs_oneself(),
        forall|b: Address|
            b != borrower ==> #[trigger] next.vouches_of(b) == state.vouches_of(b),
        next.vouches_of(borrower) =~= state.vouches_of(borrower).filter(pred),
    ensures
        next.nobody_backs_oneself(),
{
    let list = state.vouches_of(borrower);
    math::lemma_filter_contains(list, pred);
    assert forall|i: int| 0 <= i < next.vouches_of(borrower).len() implies (
    #[trigger] next.vouches_of(borrower)[i]).voucher != borrower by {
        assert(list.contains(list.filter(pred)[i]));
        let j = choose|j: int| 0 <= j < list.len() && list[j] == list.filter(pred)[i];
        assert(state.vouches_of(borrower)[j].voucher != borrower);
    }
    lemma_one_borrower(state, next, borrower);
}

proof fn lemma_same_vouches(state: State, next: State)
    requires
        state.nobody_backs_oneself(),
        next.vouches == state.vouches,
    ensures
        next.nobody_backs_oneself(),
{
    assert forall|b: Address, i: int| 0 <= i < next.vouches_of(b).len() implies (
    #[trigger] next.vouches_of(b)[i]).voucher != b by {
        assert(state.vouches_of(b)[i].voucher != b);
    }
}

/// The call hands a vouch to the very borrower that it is for.
pub open spec fn hands_to_borrower(call: Call) -> bool {
    call matches Call::TransferVouch { to, borrower, .. } && to == borrower
}

/// No call makes a borrower its own voucher, unless a vouch is handed to it.
pub proof fn step_backs_nobody_oneself(state: State, call: Call)
    requires
        state.nobody_backs_oneself(),
        !hands_to_borrower(call),
    ensures
        state.step(call).nobody_backs_oneself(),
{
    if state.failure(call) is None {
        let next = state.after(call);
        match call {
            Call::Vouch { voucher, borrower, stake, token } => {
                let signed = state.authorize(voucher);
                lemma_same_vouches(state, signed);
                lemma_pledged(signed, voucher, borrower, stake, token);
            },
            Call::BatchVouch { voucher, borrowers, stakes, token } => {
                let signed = state.authorize(voucher);
                lemma_same_vouches(state, signed);
                lemma_pledged_all(
                    signed,
                    voucher,
                    borrowers,
                    stakes,
                    token,
                    state.last_vouch_of(voucher),
                    state,
                );
            },
            Call::IncreaseStake { voucher, borrower, .. } => {
                let list = state.vouches_of(borrower);
                vouch::lemma_first_vouch(list, voucher);
                assert forall|i: int| 0 <= i < next.vouches_of(borrower).len() implies (
                #[trigger] next.vouches_of(borrower)[i]).voucher != borrower by {
                    assert(list[i].voucher == next.vouches_of(borrower)[i].voucher);
                    assert(state.vouches_of(borrower)[i].voucher != borrower);
                }
                lemma_one_borrower(state, next, borrower);
            },
            Call::DecreaseStake { voucher, borrower, amount } => {
                let list = state.vouches_of(borrower);
                vouch::lemma_first_vouch(list, voucher);
                let k = vouch::first_vouch(list, voucher)->0;
                let left = next.vouches_of(borrower);
                if list[k].stake == amount {
                    assert(left =~= list.remove(k));
                } else {
                    assert(left =~= list.update(k, left[k]));
                }
                lemma_shortened(state, next, borrower, k);
            },
            Call::WithdrawVouch { voucher, borrower } => {
                let list = state.vouches_of(borrower);
                vouch::lemma_first_vouch(list, voucher);
                let k = vouch::first_vouch(list, voucher)->0;
                assert(next.vouches_of(borrower) =~= list.remove(k));
                lemma_shortened(state, next, borrower, k);
            },
            Call::TransferVouch { from, to, borrower } => {
                if from == to {
                    lemma_same_vouches(state, next);
                } else {
                    lemma_handed_over(state, from, to, borrower);
                }
            },
            Call::Repay { borrower, payment, .. } => {
                let loan = state.active_loan(borrower)->0;
                if loan.amount_repaid + payment >= loan.amount {
                    lemma_one_borrower(state, next, borrower);
                } else {
                    lemma_same_vouches(state, next);
                }
            },
            Call::Slash { borrower, .. } => {
                lemma_filtered(state, next, borrower, slash::is_spared(slash::Reach::EveryToken));
            },
            Call::AutoSlash { borrower } => {
                lemma_filtered(state, next, borrower, slash::is_spared(slash::Reach::EveryToken));
            },
            Call::ClaimExpiredLoan { borrower } => {
                lemma_one_borrower(state, next, borrower);
            },
            Call::CreateLoanPool { signers, borrowers, amounts, .. } => {
                lemma_disbursed_all(
                    state.authorize_all(signers),
                    borrowers,
                    amounts,
                    state.config->0.token,
                );
                lemma_same_vouches(state, next);
            },
            Call::VoteSlash { voucher, borrower, approve } => {
                if state.vote_decides(voucher, borrower, approve) {
                    let token = state.active_loan(borrower)->0.token_address;
                    let reach = slash::Reach::OneToken(token);
                    lemma_filtered(state, next, borrower, slash::is_spared(reach));
                } else {
                    lemma_same_vouches(state, next);
                }
            },
            Call::ExecuteSlashProposal { proposal_id } => {
                let borrower = state.proposals[proposal_id].action->Slash_0;
                let token = state.active_loan(borrower)->0.token_address;
                let reach = slash::Reach::OneToken(token);
                lemma_filtered(state, next, borrower, slash::is_spared(reach));
            },
            _ => {
                lemma_same_vouches(state, next);
            },
        }
    }
}

/// Lending touches no vouch.
proof fn lemma_disbursed_all(
    state: State,
    borrowers: Seq<Address>,
    amounts: Seq<i128>,
    token: Address,
)
    ensures
        state.disbursed_all(borrowers, amounts, token).vouches == state.vouches,
    decreases borrowers.len(),
{
    if borrowers.len() > 0 {
        lemma_disbursed_all(state, borrowers.drop_last(), amounts.drop_last(), token);
    }
}

/// One vouch leaves the list or changes its stake.
proof fn lemma_shortened(state: State, next: State, borrower: Address, k: int)
    requires
        state.nobody_backs_oneself(),
        0 <= k < state.vouches_of(borrower).len(),
        forall|b: Address|
            b != borrower ==> #[trigger] next.vouches_of(b) == state.vouches_of(b),
        ({
            let list = state.vouches_of(borrower);
            let left = next.vouches_of(borrower);
            left == list.remove(k) || (left.len() == list.len() && left == list.update(k, left[k])
                && left[k].voucher == list[k].voucher)
        }),
    ensures
        next.nobody_backs_oneself(),
{
    let list = state.vouches_of(borrower);
    let left = next.vouches_of(borrower);
    assert forall|i: int| 0 <= i < left.len() implies (#[trigger] next.vouches_of(
        borrower,
    )[i]).voucher != borrower by {
        if left == list.remove(k) {
            let j = if i < k {
                i
            } else {
                i + 1
            };
            assert(left[i] == list[j]);
            assert(state.vouches_of(borrower)[j].voucher != borrower);
        } else {
            assert(left[i].voucher == list[i].voucher);
            assert(state.vouches_of(borrower)[i].voucher != borrower);
        }
    }
    lemma_one_borrower(state, next, borrower);
}

/// A vouch goes to somebody who is not the borrower.
proof fn lemma_handed_over(state: State, from: Address, to: Address, borrower: Address)
    requires
        state.nobody_backs_oneself(),
        state.transfer_failure(from, to, borrower) is None,
        from != to,
        to != borrower,
    ensures
        state.transferred(from, to, borrower).nobody_backs_oneself(),
{
    let next = state.transferred(from, to, borrower);
    let list = state.vouches_of(borrower);
    let moved = next.vouches_of(borrower);
    vouch::lemma_first_vouch(list, from);
    let i = vouch::first_vouch(list, from)->0;
    vouch::lemma_first_vouch_in(list, to, list[i].token);
    assert forall|k: int| 0 <= k < moved.len() implies (#[trigger] next.vouches_of(
        borrower,
    )[k]).voucher != borrower by {
        match vouch::first_vouch_in(list, to, list[i].token) {
            Some(j) => {
                let p = if k < i {
                    k
                } else {
                    k + 1
                };
                assert(moved[k].voucher == list[p].voucher);
                assert(state.vouches_of(borrower)[p].voucher != borrower);
            },
            None => {
                assert(state.vouches_of(borrower)[k].voucher != borrower);
            },
        }
    }
    lemma_one_borrower(state, next, borrower);
}

/// Over any run of calls that hands no vouch to its borrower, nobody vouches for oneself.
pub proof fn nobody_ever_backs_oneself(now: u64, contract: Address, calls: Seq<Call>)
    requires
        forall|i: int| 0 <= i < calls.len() ==> !hands_to_borrower(#[trigger] calls[i]),
    ensures
        State::genesis(now, contract).run(calls).nobody_backs_oneself(),
    decreases calls.len(),
{
    if calls.len() > 0 {
        let init = calls.drop_last();
        assert forall|i: int| 0 <= i < init.len() implies !hands_to_borrower(#[trigger] init[i]) by {
            assert(init[i] == calls[i]);
        }
        nobody_ever_backs_oneself(now, contract, init);
        assert(!hands_to_borrower(calls[calls.len() - 1]));
        step_backs_nobody_oneself(State::genesis(now, contract).run(init), calls.last());
    }
}

// The stakes of all borrowers.

/// The stakes on record in a token, of all borrowers together.
pub open spec fn stakes_on_record(vouches: Map<Address, Seq<VouchRecord>>, token: Address) -> int
    decreases vouches.dom().len(),
    when vouches.dom().finite()
{
    if vouches.dom().len() == 0 {
        0
    } else {
        let b = vouches.dom().choose();
        math::sum(vouch::stakes_in(vouches[b], token)) + stakes_on_record(vouches.remove(b), token)
    }
}

impl State {
    /// The stakes on record in a token, of all borrowers together.
    pub open spec fn recorded(self, token: Address) -> int {
        stakes_on_record(self.vouches, token)
    }

    /// What a call brings in, whether it fails or not. Time brings nothing.
    pub open spec fn step_flow(self, call: Call, token: Address) -> int {
        if self.failure(call) is Some || call is NextLedger {
            0
        } else {
            self.flow(call, token)
        }
    }

    /// What several calls bring in, less what they take out.
    pub open spec fn run_flow(self, calls: Seq<Call>, token: Address) -> int
        decreases calls.len(),
    {
        if calls.len() == 0 {
            0
        } else {
            self.run_flow(calls.drop_last(), token) + self.run(calls.drop_last()).step_flow(
                calls.last(),
                token,
            )
        }
    }
}

/// The sum does not depend on the order in which the borrowers are taken.
proof fn lemma_on_record(vouches: Map<Address, Seq<VouchRecord>>, b: Address, token: Address)
    requires
        vouches.dom().finite(),
        vouches.contains_key(b),
    ensures
        stakes_on_record(vouches, token) == math::sum(vouch::stakes_in(vouches[b], token))
            + stakes_on_record(vouches.remove(b), token),
    decreases vouches.dom().len(),
{
    let c = vouches.dom().choose();
    assert(vouches.dom().contains(b));
    assert(vouches.dom().len() > 0);
    assert(vouches.dom().contains(c));
    if b != c {
        lemma_on_record(vouches.remove(c), b, token);
        lemma_on_record(vouches.remove(b), c, token);
        assert(vouches.remove(b).remove(c) =~= vouches.remove(c).remove(b));
    }
}

/// Where one borrower's list changes, the sum changes by that list.
proof fn lemma_record_changes(state: State, next: State, borrower: Address, token: Address)
    requires
        state.vouches.dom().finite(),
        next.vouches.remove(borrower) =~= state.vouches.remove(borrower),
    ensures
        next.vouches.dom().finite(),
        next.recorded(token) - state.recorded(token) == next.stake_in(borrower, token)
            - state.stake_in(borrower, token),
{
    let rest = state.vouches.remove(borrower);
    assert(rest.dom().finite());
    assert(next.vouches.dom() =~= if next.vouches.contains_key(borrower) {
        rest.dom().insert(borrower)
    } else {
        rest.dom()
    });
    lemma_split(state, borrower, token);
    lemma_split(next, borrower, token);
}

proof fn lemma_split(state: State, borrower: Address, token: Address)
    requires
        state.vouches.dom().finite(),
    ensures
        state.recorded(token) == state.stake_in(borrower, token) + stakes_on_record(
            state.vouches.remove(borrower),
            token,
        ),
{
    if state.vouches.contains_key(borrower) {
        lemma_on_record(state.vouches, borrower, token);
    } else {
        assert(state.vouches.remove(borrower) =~= state.vouches);
        assert(vouch::stakes_in(state.vouches_of(borrower), token) =~= Seq::empty());
    }
}

proof fn lemma_pledges_recorded(
    state: State,
    voucher: Address,
    borrowers: Seq<Address>,
    amounts: Seq<i128>,
    staked: Address,
    token: Address,
)
    requires
        state.vouches.dom().finite(),
        borrowers.len() == amounts.len(),
    ensures
        ({
            let next = state.pledged_all(voucher, borrowers, amounts, staked);
            &&& next.vouches.dom().finite()
            &&& next.recorded(token) == state.recorded(token) + if token == staked {
                math::sum(pool::as_ints(amounts))
            } else {
                0
            }
        }),
    decreases borrowers.len(),
{
    if borrowers.len() > 0 {
        let init = borrowers.drop_last();
        let sums = amounts.drop_last();
        let b = borrowers.last();
        lemma_pledges_recorded(state, voucher, init, sums, staked, token);
        let prior = state.pledged_all(voucher, init, sums, staked);
        let next = state.pledged_all(voucher, borrowers, amounts, staked);
        lemma_record_changes(prior, next, b, token);
        assert(vouch::stakes_in(next.vouches_of(b), token).drop_last() =~= vouch::stakes_in(
            prior.vouches_of(b),
            token,
        ));
        assert(pool::as_ints(amounts).drop_last() =~= pool::as_ints(sums));
    }
}

/// The call neither lends nor settles nor slashes, and the contract is not the voucher.
pub open spec fn only_moves_stakes(call: Call, contract: Address) -> bool {
    match call {
        Call::NextLedger { .. } => true,
        Call::Initialize { .. } => true,
        Call::Vouch { voucher, .. } => voucher != contract,
        Call::BatchVouch { voucher, .. } => voucher != contract,
        Call::IncreaseStake { voucher, .. } => voucher != contract,
        Call::DecreaseStake { voucher, .. } => voucher != contract,
        Call::WithdrawVouch { voucher, .. } => voucher != contract,
        Call::TransferVouch { .. } => true,
        Call::RegisterReferral { .. } => true,
        Call::ProposeSlash { .. } => true,
        Call::CancelSlashProposal { .. } => true,
        Call::SetConfig { .. } => true,
        Call::AddAdmin { .. } => true,
        Call::RemoveAdmin { .. } => true,
        Call::RotateAdmin { .. } => true,
        Call::SetAdminThreshold { .. } => true,
        Call::Adjust { .. } => true,
        Call::Upgrade { .. } => true,
        _ => false,
    }
}

/// A call that only moves stakes changes the record by what it moves.
pub proof fn step_records_the_flow(state: State, call: Call, token: Address)
    requires
        state.wf(),
        state.vouches.dom().finite(),
        only_moves_stakes(call, state.contract),
    ensures
        state.step(call).contract == state.contract,
        state.step(call).vouches.dom().finite(),
        state.step(call).recorded(token) == state.recorded(token) + state.step_flow(call, token),
{
    if state.failure(call) is None {
        let next = state.after(call);
        match call {
            Call::Vouch { voucher, borrower, .. } => {
                flows::stake_on_record_is_held(state, call, voucher, borrower, token);
                lemma_record_changes(state, next, borrower, token);
            },
            Call::IncreaseStake { voucher, borrower, .. } => {
                flows::stake_on_record_is_held(state, call, voucher, borrower, token);
                lemma_record_changes(state, next, borrower, token);
            },
            Call::DecreaseStake { voucher, borrower, .. } => {
                flows::stake_on_record_is_held(state, call, voucher, borrower, token);
                lemma_record_changes(state, next, borrower, token);
            },
            Call::WithdrawVouch { voucher, borrower } => {
                flows::stake_on_record_is_held(state, call, voucher, borrower, token);
                lemma_record_changes(state, next, borrower, token);
            },
            Call::BatchVouch { voucher, borrowers, stakes, token: staked } => {
                flows::batch_is_collected(state, voucher, borrowers, stakes, staked, token);
                vouch::lemma_pledged_all(
                    state.authorize(voucher),
                    voucher,
                    borrowers,
                    stakes,
                    staked,
                );
                lemma_pledges_recorded(
                    state.authorize(voucher),
                    voucher,
                    borrowers,
                    stakes,
                    staked,
                    token,
                );
            },
            Call::TransferVouch { from, to, borrower } => {
                flows::nothing_else_moves_tokens(state, call, token);
                if from != to {
                    rules::transfer_keeps_the_stake(state, from, to, borrower, token);
                    lemma_record_changes(state, next, borrower, token);
                }
            },
            Call::NextLedger { .. } => {},
            _ => {
                flows::nothing_else_moves_tokens(state, call, token);
            },
        }
    }
}

/// Over any run of calls that only move stakes, in every token: the stakes on record, of all
/// borrowers together, are what came in less what went out.
pub proof fn stakes_add_up_over_runs(
    now: u64,
    contract: Address,
    calls: Seq<Call>,
    token: Address,
)
    requires
        forall|i: int|
            0 <= i < calls.len() ==> only_moves_stakes(#[trigger] calls[i], contract),
    ensures
        ({
            let start = State::genesis(now, contract);
            &&& start.run(calls).contract == contract
            &&& start.run(calls).vouches.dom().finite()
            &&& start.run(calls).recorded(token) == start.run_flow(calls, token)
        }),
    decreases calls.len(),
{
    let start = State::genesis(now, contract);
    if calls.len() == 0 {
        assert(start.vouches.dom() =~= Set::empty());
    } else {
        let init = calls.drop_last();
        assert forall|i: int| 0 <= i < init.len() implies only_moves_stakes(
            #[trigger] init[i],
            contract,
        ) by {
            assert(init[i] == calls[i]);
        }
        stakes_add_up_over_runs(now, contract, init, token);
        calls::run_keeps_wf(now, contract, init);
        assert(only_moves_stakes(calls[calls.len() - 1], contract));
        step_records_the_flow(start.run(init), calls.last(), token);
    }
}

// A ledger with the protocol token alone.

impl State {
    /// No other token is accepted, and every vouch is in the protocol token.
    pub open spec fn has_one_token(self) -> bool {
        match self.config {
            None => forall|b: Address| !#[trigger] self.vouches.contains_key(b),
            Some(config) => {
                &&& config.allowed_tokens.len() == 0
                &&& forall|b: Address, i: int|
                    0 <= i < self.vouches_of(b).len() ==> (#[trigger] self.vouches_of(
                        b,
                    )[i]).token == config.token
            },
        }
    }
}

/// The contract is set up, time passes, or stake is put in, added, taken out or withdrawn.
pub open spec fn is_staking(call: Call) -> bool {
    call is NextLedger || call is Initialize || call is Vouch || call is BatchVouch
        || call is IncreaseStake || call is DecreaseStake || call is WithdrawVouch
}

proof fn lemma_pledges_in_one_token(
    state: State,
    start: State,
    voucher: Address,
    borrowers: Seq<Address>,
    amounts: Seq<i128>,
    token: Address,
    last: u64,
)
    requires
        state.config is Some,
        state.has_one_token(),
        start.config == state.config,
        borrowers.len() == amounts.len(),
        start.pledges_failure(voucher, borrowers, amounts, token, last) is None,
    ensures
        state.pledged_all(voucher, borrowers, amounts, token).config == state.config,
        state.pledged_all(voucher, borrowers, amounts, token).has_one_token(),
    decreases borrowers.len(),
{
    if borrowers.len() > 0 {
        let init = borrowers.drop_last();
        let sums = amounts.drop_last();
        lemma_pledges_in_one_token(state, start, voucher, init, sums, token, last);
        vouch::lemma_pledged_all(start, voucher, init, sums, token);
        let prior = state.pledged_all(voucher, init, sums, token);
        assert(start.pledged_all(voucher, init, sums, token).token_failure(token) is None);
        lemma_pledged_in_one_token(prior, voucher, borrowers.last(), amounts.last(), token);
    }
}

proof fn lemma_pledged_in_one_token(
    state: State,
    voucher: Address,
    borrower: Address,
    stake: i128,
    token: Address,
)
    requires
        state.config is Some,
        state.has_one_token(),
        state.token_failure(token) is None,
    ensures
        state.pledged(voucher, borrower, stake, token).has_one_token(),
{
    let next = state.pledged(voucher, borrower, stake, token);
    assert forall|b: Address, i: int| 0 <= i < next.vouches_of(b).len() implies (
    #[trigger] next.vouches_of(b)[i]).token == state.config->0.token by {
        if b != borrower || i < state.vouches_of(b).len() {
            assert(next.vouches_of(b)[i] == state.vouches_of(b)[i]);
        }
    }
}

proof fn lemma_still_one_token(state: State, next: State)
    requires
        state.has_one_token(),
        next.vouches == state.vouches,
        next.config == state.config,
    ensures
        next.has_one_token(),
{
    assert forall|b: Address, i: int|
        0 <= i < next.vouches_of(b).len() && state.config is Some implies (
    #[trigger] next.vouches_of(b)[i]).token == state.config->0.token by {
        assert(state.vouches_of(b)[i].token == state.config->0.token);
    }
}

proof fn step_keeps_one_token(state: State, call: Call)
    requires
        state.has_one_token(),
        is_staking(call),
    ensures
        state.step(call).has_one_token(),
{
    if state.failure(call) is None {
        let next = state.after(call);
        match call {
            Call::Vouch { voucher, borrower, stake, token } => {
                lemma_still_one_token(state, state.authorize(voucher));
                lemma_pledged_in_one_token(
                    state.authorize(voucher),
                    voucher,
                    borrower,
                    stake,
                    token,
                );
            },
            Call::BatchVouch { voucher, borrowers, stakes, token } => {
                assert(state.config is Some) by {
                    if state.config is None {
                        lemma_no_pledge(
                            state,
                            voucher,
                            borrowers,
                            stakes,
                            token,
                            state.last_vouch_of(voucher),
                        );
                    }
                }
                lemma_still_one_token(state, state.authorize(voucher));
                lemma_pledges_in_one_token(
                    state.authorize(voucher),
                    state,
                    voucher,
                    borrowers,
                    stakes,
                    token,
                    state.last_vouch_of(voucher),
                );
            },
            Call::IncreaseStake { voucher, borrower, .. } => {
                vouch::lemma_first_vouch(state.vouches_of(borrower), voucher);
                lemma_tokens_kept(state, next, voucher, borrower);
            },
            Call::DecreaseStake { voucher, borrower, .. } => {
                vouch::lemma_first_vouch(state.vouches_of(borrower), voucher);
                lemma_tokens_kept(state, next, voucher, borrower);
            },
            Call::WithdrawVouch { voucher, borrower } => {
                vouch::lemma_first_vouch(state.vouches_of(borrower), voucher);
                lemma_tokens_kept(state, next, voucher, borrower);
            },
            Call::Initialize { .. } => {
                assert forall|b: Address, i: int| 0 <= i < next.vouches_of(b).len() implies (
                #[trigger] next.vouches_of(b)[i]).token == next.config->0.token by {
                    assert(!state.vouches.contains_key(b));
                }
            },
            _ => {
                lemma_still_one_token(state, next);
            },
        }
    }
}

/// Without a configuration every batch is refused.
proof fn lemma_no_pledge(
    state: State,
    voucher: Address,
    borrowers: Seq<Address>,
    amounts: Seq<i128>,
    token: Address,
    last: u64,
)
    requires
        state.config is None,
        borrowers.len() == amounts.len(),
        borrowers.len() > 0,
    ensures
        state.pledges_failure(voucher, borrowers, amounts, token, last) is Some,
{
    let init = borrowers.drop_last();
    let sums = amounts.drop_last();
    vouch::lemma_pledged_all(state, voucher, init, sums, token);
    assert(state.pledged_all(voucher, init, sums, token).token_failure(token) is Some);
}

proof fn lemma_tokens_kept(state: State, next: State, voucher: Address, borrower: Address)
    requires
        state.has_one_token(),
        state.vouch_of(voucher, borrower) is Some,
        next.config == state.config,
        forall|b: Address|
            b != borrower ==> #[trigger] next.vouches_of(b) == state.vouches_of(b),
        ({
            let list = state.vouches_of(borrower);
            let k = vouch::first_vouch(list, voucher)->0;
            let left = next.vouches_of(borrower);
            left =~= list.remove(k) || (left =~= list.update(k, left[k]) && left[k].token
                == list[k].token)
        }),
    ensures
        next.has_one_token(),
{
    let list = state.vouches_of(borrower);
    let left = next.vouches_of(borrower);
    vouch::lemma_first_vouch(list, voucher);
    let k = vouch::first_vouch(list, voucher)->0;
    assert(state.vouches.contains_key(borrower));
    assert(state.config is Some);
    assert forall|b: Address, i: int| 0 <= i < next.vouches_of(b).len() implies (
    #[trigger] next.vouches_of(b)[i]).token == state.config->0.token by {
        if b != borrower {
            assert(next.vouches_of(b) == state.vouches_of(b));
            assert(state.vouches_of(b)[i].token == state.config->0.token);
        } else if left =~= list.remove(k) {
            let j = if i < k {
                i
            } else {
                i + 1
            };
            assert(left[i] == list[j]);
            assert(state.vouches_of(borrower)[j].token == state.config->0.token);
        } else {
            assert(left[i].token == list[i].token);
            assert(state.vouches_of(borrower)[i].token == state.config->0.token);
        }
    }
}

proof fn lemma_one_token_over_runs(now: u64, contract: Address, calls: Seq<Call>)
    requires
        forall|i: int| 0 <= i < calls.len() ==> is_staking(#[trigger] calls[i]),
    ensures
        State::genesis(now, contract).run(calls).has_one_token(),
    decreases calls.len(),
{
    if calls.len() > 0 {
        let init = calls.drop_last();
        assert forall|i: int| 0 <= i < init.len() implies is_staking(#[trigger] init[i]) by {
            assert(init[i] == calls[i]);
        }
        lemma_one_token_over_runs(now, contract, init);
        assert(is_staking(calls[calls.len() - 1]));
        step_keeps_one_token(State::genesis(now, contract).run(init), calls.last());
    }
}

/// Over any run of calls that set the contract up, put stake in, add to it, take it out or
/// withdraw it, whoever the borrower: no list of vouches is stored empty, every stake is
/// positive and in the protocol token, the vouchers are distinct, and the borrower is none of
/// them.
pub proof fn vouches_are_sound_over_runs(
    now: u64,
    contract: Address,
    calls: Seq<Call>,
    borrower: Address,
)
    requires
        forall|i: int| 0 <= i < calls.len() ==> is_staking(#[trigger] calls[i]),
        State::genesis(now, contract).run(calls).vouches.contains_key(borrower),
    ensures
        ({
            let state = State::genesis(now, contract).run(calls);
            let vouches = state.vouches[borrower];
            &&& vouches.len() > 0
            &&& state.config is Some
            &&& forall|i: int|
                0 <= i < vouches.len() ==> {
                    &&& (#[trigger] vouches[i]).stake > 0
                    &&& vouches[i].token == state.config->0.token
                    &&& vouches[i].voucher != borrower
                }
            &&& forall|i: int, j: int|
                0 <= i < j < vouches.len() ==> (#[trigger] vouches[i]).voucher != (
                #[trigger] vouches[j]).voucher
        }),
{
    let state = State::genesis(now, contract).run(calls);
    let vouches = state.vouches[borrower];
    calls::run_keeps_wf(now, contract, calls);
    lemma_one_token_over_runs(now, contract, calls);
    assert forall|i: int| 0 <= i < calls.len() implies !hands_to_borrower(#[trigger] calls[i]) by {
        assert(is_staking(calls[i]));
    }
    nobody_ever_backs_oneself(now, contract, calls);
    assert(state.vouches_of(borrower) == vouches);
    assert forall|i: int| 0 <= i < vouches.len() implies {
        &&& (#[trigger] vouches[i]).stake > 0
        &&& vouches[i].token == state.config->0.token
        &&& vouches[i].voucher != borrower
    } by {
        assert(state.vouches_of(borrower)[i].voucher != borrower);
        assert(state.vouches_of(borrower)[i].token == state.config->0.token);
    }
}

} // verus!
