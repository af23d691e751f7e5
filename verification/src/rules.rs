//! Who can do what, and when.

use crate::address::Address;
use crate::admin::Setting;
use crate::calls::Call;
use crate::env::{Effect, State};
use crate::errors::{ContractError, Failure, Trap};
use crate::governance;
use crate::history;
use crate::loan;
use crate::math;
use crate::reputation::ReputationState;
use crate::types::{LoanStatus, TimelockActionView, VouchRecord, TIMELOCK_EXPIRY};
use crate::vouch;
use crate::wellformed;
use vstd::prelude::*;

verus! {

/// A call that fails changes nothing.
pub proof fn failed_call_changes_nothing(state: State, call: Call)
    requires
        state.failure(call) is Some,
    ensures
        state.step(call) == state,
{
}

// Pausing.

/// While the contract is paused, nobody vouches, borrows, repays, votes or proposes.
pub proof fn pause_stops_the_contract(state: State, call: Call)
    requires
        state.paused,
        call is Vouch || call is BatchVouch || call is IncreaseStake || call is DecreaseStake
            || call is WithdrawVouch || call is TransferVouch || call is RegisterReferral
            || call is RequestLoan || call is Repay || call is VoteSlash || call is ProposeSlash
            || call is ExecuteSlashProposal,
    ensures
        state.failure(call) == Some(Failure::Contract(ContractError::ContractPaused)),
{
}

/// While the contract is paused, the admins neither slash nor lend.
pub proof fn pause_stops_the_admins(state: State, call: Call)
    requires
        state.paused,
        call is Slash || call is CreateLoanPool,
    ensures
        state.failure(call) is Some,
{
}

/// Pausing and unpausing leaves everything as it was, but for the signatures asked for.
pub proof fn unpause_undoes_pause(state: State, signers: Seq<Address>)
    requires
        !state.paused,
        state.approval_failure(signers) is None,
    ensures
        ({
            let paused = state.set(signers, Setting::Paused(true));
            let resumed = paused.set(signers, Setting::Paused(false));
            &&& paused.paused
            &&& paused.set_failure(signers, Setting::Paused(false)) is None
            &&& resumed == State { effects: resumed.effects, ..state }
        }),
{
}

// Admins.

/// The admins of a contract that is initialised can always act together.
pub proof fn admins_are_never_locked_out(state: State)
    requires
        state.wf(),
        state.config is Some,
    ensures
        state.approval_failure(state.config->0.admins) is None,
        state.config->0.admins.len() > 0,
{
    let admins = state.config->0.admins;
    assert forall|i: int| 0 <= i < admins.len() implies admins.contains(#[trigger] admins[i]) by {}
}

/// Fewer signers than the threshold, or a signer who is no admin, is no approval; and every call
/// that is for admins only then fails.
pub proof fn admin_calls_need_approval(state: State, signers: Seq<Address>, call: Call)
    requires
        state.config is None || signers.len() < state.config->0.admin_threshold || exists|i: int|
            0 <= i < signers.len() && !state.config->0.admins.contains(#[trigger] signers[i]),
        match call {
            Call::Slash { signers: s, .. } => s == signers,
            Call::CreateLoanPool { signers: s, .. } => s == signers,
            Call::SlashTreasury { signers: s, .. } => s == signers,
            Call::SetConfig { signers: s, .. } => s == signers,
            Call::AddAdmin { signers: s, .. } => s == signers,
            Call::RemoveAdmin { signers: s, .. } => s == signers,
            Call::RotateAdmin { signers: s, .. } => s == signers,
            Call::SetAdminThreshold { signers: s, .. } => s == signers,
            Call::Adjust { signers: s, .. } => s == signers,
            Call::Upgrade { signers: s, .. } => s == signers,
            _ => false,
        },
    ensures
        state.failure(call) is Some,
        state.step(call) == state,
{
}

/// The contract is initialised once, whatever happens in between.
pub proof fn no_second_initialisation(state: State, calls: Seq<Call>, call: Call)
    requires
        state.wf(),
        state.config is Some,
        call is Initialize,
    ensures
        state.run(calls).failure(call) == Some(
            Failure::Contract(ContractError::AlreadyInitialized),
        ),
{
    history::run_evolves(state, calls);
}

/// The admins of a valid configuration are distinct, and none is the zero address.
pub proof fn admins_are_distinct(admins: Seq<Address>)
    requires
        crate::helpers::admin_list_failure(admins) is None,
    ensures
        admins.no_duplicates(),
        forall|i: int| 0 <= i < admins.len() ==> !(#[trigger] admins[i]).is_zero(),
    decreases admins.len(),
{
    if admins.len() > 0 {
        let init = admins.drop_last();
        let last = admins.len() - 1;
        admins_are_distinct(init);
        assert forall|i: int| 0 <= i < admins.len() implies !(#[trigger] admins[i]).is_zero() by {
            assert(i < last ==> init[i] == admins[i]);
        }
        assert forall|i: int, j: int|
            0 <= i < admins.len() && 0 <= j < admins.len() && i != j implies admins[i]
            != admins[j] by {
            assert(i < last ==> init[i] == admins[i]);
            assert(j < last ==> init[j] == admins[j]);
        }
    }
}

/// A withdrawal empties the slash treasury, and there is no second one.
pub proof fn treasury_is_withdrawn_once(state: State, signers: Seq<Address>, recipient: Address)
    requires
        state.approval_failure(signers) is None,
        state.slash_treasury > 0,
    ensures
        ({
            let call = Call::SlashTreasury { signers, recipient };
            let next = state.after(call);
            &&& state.failure(call) is None
            &&& next.slash_treasury == 0
            &&& next.effects.last() == (Effect::<Seq<Address>>::Transfer {
                token: state.config->0.token,
                from: state.contract,
                to: recipient,
                amount: state.slash_treasury,
            })
            &&& next.failure(call) == Some(Failure::Trap(Trap::NoSlashedFunds))
        }),
{
}

// Vouching.

/// A voucher cannot vouch twice for the same borrower in the same token.
pub proof fn no_second_vouch(
    state: State,
    voucher: Address,
    borrower: Address,
    stake: i128,
    token: Address,
    again: i128,
)
    requires
        state.vouch_failure(voucher, borrower, stake, token) is None,
    ensures
        state.vouched(voucher, borrower, stake, token).vouch_failure(
            voucher,
            borrower,
            again,
            token,
        ) is Some,
        has_no_other_obstacle(state, voucher, borrower, token, again) ==> state.vouched(
            voucher,
            borrower,
            stake,
            token,
        ).vouch_failure(voucher, borrower, again, token) == Some(
            Failure::Contract(ContractError::DuplicateVouch),
        ),
{
    let next = state.vouched(voucher, borrower, stake, token);
    let list = next.vouches_of(borrower);
    assert(list[list.len() - 1].voucher == voucher);
    assert(vouch::has_vouch_in(list, voucher, token));
}

/// A stake that is large enough, from a voucher that does not have to wait.
pub open spec fn has_no_other_obstacle(
    state: State,
    voucher: Address,
    borrower: Address,
    token: Address,
    stake: i128,
) -> bool {
    &&& stake > 0
    &&& stake >= state.min_stake
    &&& stake >= state.config->0.min_yield_stake
    &&& state.config->0.vouch_cooldown_secs == 0
}

/// Until the cooldown has run out a voucher cannot vouch again, for whomever.
pub proof fn cooldown_blocks_the_voucher(
    state: State,
    voucher: Address,
    borrower: Address,
    stake: i128,
    token: Address,
)
    requires
        state.config is Some,
        state.config->0.vouch_cooldown_secs > 0,
        0 < state.last_vouch_of(voucher),
        state.now < state.last_vouch_of(voucher) + state.config->0.vouch_cooldown_secs,
    ensures
        state.vouch_failure(voucher, borrower, stake, token) is Some,
{
}

/// A vouch starts the voucher's cooldown and nobody else's.
pub proof fn cooldown_is_per_voucher(
    state: State,
    voucher: Address,
    borrower: Address,
    stake: i128,
    token: Address,
    other: Address,
)
    requires
        other != voucher,
    ensures
        ({
            let next = state.vouched(voucher, borrower, stake, token);
            &&& next.last_vouch_of(voucher) == state.now
            &&& next.last_vouch_of(other) == state.last_vouch_of(other)
        }),
{
}

/// Once the cooldown has run out the voucher does not have to wait any more.
pub proof fn cooldown_ends(state: State, voucher: Address)
    requires
        state.config is Some,
        state.last_vouch_of(voucher) + state.config->0.vouch_cooldown_secs <= state.now,
    ensures
        state.cooldown_failure(
            state.last_vouch_of(voucher),
            state.config->0.vouch_cooldown_secs,
        ) is None,
{
}

proof fn lemma_batch(
    state: State,
    voucher: Address,
    borrowers: Seq<Address>,
    amounts: Seq<i128>,
    token: Address,
    last: u64,
)
    requires
        borrowers.len() == amounts.len(),
        state.pledges_failure(voucher, borrowers, amounts, token, last) is None,
    ensures
        borrowers.no_duplicates(),
        forall|i: int| 0 <= i < amounts.len() ==> (#[trigger] amounts[i]) > 0,
    decreases borrowers.len(),
{
    if borrowers.len() > 0 {
        let init = borrowers.drop_last();
        let sums = amounts.drop_last();
        let end = borrowers.len() - 1;
        lemma_batch(state, voucher, init, sums, token, last);
        vouch::lemma_pledged_all(state, voucher, init, sums, token);
        let prior = state.pledged_all(voucher, init, sums, token);
        let b = borrowers.last();
        assert(!vouch::has_vouch_in(prior.vouches_of(b), voucher, token));
        assert(!init.contains(b));
        assert forall|i: int| 0 <= i < amounts.len() implies (#[trigger] amounts[i]) > 0 by {
            assert(i < end ==> sums[i] == amounts[i]);
        }
        assert forall|i: int, j: int|
            0 <= i < borrowers.len() && 0 <= j < borrowers.len() && i != j implies borrowers[i]
            != borrowers[j] by {
            assert(i < end ==> init[i] == borrowers[i]);
            assert(j < end ==> init[j] == borrowers[j]);
        }
    }
}

/// A batch that is accepted backs every one of its borrowers, and each of them once.
pub proof fn batch_backs_everybody(
    state: State,
    voucher: Address,
    borrowers: Seq<Address>,
    amounts: Seq<i128>,
    token: Address,
)
    requires
        state.batch_vouch_failure(voucher, borrowers, amounts, token) is None,
    ensures
        borrowers.no_duplicates(),
        forall|i: int|
            0 <= i < borrowers.len() ==> vouch::has_vouch_in(
                state.batch_vouched(voucher, borrowers, amounts, token).vouches_of(
                    #[trigger] borrowers[i],
                ),
                voucher,
                token,
            ),
{
    let next = state.batch_vouched(voucher, borrowers, amounts, token);
    lemma_batch(state, voucher, borrowers, amounts, token, state.last_vouch_of(voucher));
    vouch::lemma_pledged_all(state.authorize(voucher), voucher, borrowers, amounts, token);
    assert forall|i: int| 0 <= i < borrowers.len() implies vouch::has_vouch_in(
        next.vouches_of(#[trigger] borrowers[i]),
        voucher,
        token,
    ) by {
        assert(borrowers.contains(borrowers[i]));
    }
}

/// A vouch is remembered in the voucher's history and stands on record.
pub proof fn vouch_is_on_record(
    state: State,
    voucher: Address,
    borrower: Address,
    stake: i128,
    token: Address,
)
    requires
        state.vouch_failure(voucher, borrower, stake, token) is None,
    ensures
        ({
            let next = state.vouched(voucher, borrower, stake, token);
            &&& next.history_of(voucher).last() == borrower
            &&& next.vouches_of(borrower).last() == (VouchRecord {
                voucher,
                stake,
                vouch_timestamp: state.now,
                token,
            })
            &&& next.total_stake(borrower) == state.total_stake(borrower) + stake
        }),
{
    let next = state.vouched(voucher, borrower, stake, token);
    let list = state.vouches_of(borrower);
    assert(vouch::stakes(next.vouches_of(borrower)).drop_last() =~= vouch::stakes(list));
}

/// A borrower that is banned gets neither vouches nor loans.
pub proof fn blacklisted_borrower_is_refused(
    state: State,
    voucher: Address,
    borrower: Address,
    stake: i128,
    token: Address,
    amount: i128,
    threshold: i128,
    contract_balance: i128,
)
    requires
        state.is_blacklisted(borrower),
        !state.paused,
    ensures
        stake > 0 && voucher != borrower ==> state.vouch_failure(voucher, borrower, stake, token)
            == Some(Failure::Contract(ContractError::Blacklisted)),
        state.vouch_failure(voucher, borrower, stake, token) is Some,
        state.request_failure(borrower, amount, threshold, token, contract_balance) == Some(
            Failure::Contract(ContractError::Blacklisted),
        ),
{
}

/// Withdrawing undoes a vouch: the vouches are as before, and the exact stake is paid back.
/// It is the voucher's first vouch that is withdrawn, so it must not have another one.
pub proof fn withdraw_undoes_vouch(
    state: State,
    voucher: Address,
    borrower: Address,
    stake: i128,
    token: Address,
)
    requires
        state.wf(),
        state.vouch_failure(voucher, borrower, stake, token) is None,
        state.vouch_of(voucher, borrower) is None,
    ensures
        ({
            let vouched = state.vouched(voucher, borrower, stake, token);
            let next = vouched.withdrawn(voucher, borrower);
            &&& vouched.withdraw_failure(voucher, borrower) is None
            &&& next.vouches =~= state.vouches
            &&& next.effects[next.effects.len() - 2] == (Effect::<Seq<Address>>::Transfer {
                token,
                from: state.contract,
                to: voucher,
                amount: stake,
            })
        }),
{
    let vouched = state.vouched(voucher, borrower, stake, token);
    let before = state.vouches_of(borrower);
    let list = vouched.vouches_of(borrower);
    vouch::lemma_first_vouch(before, voucher);
    vouch::lemma_first_vouch(list, voucher);
    let i = vouch::first_vouch(list, voucher)->0;
    assert(list[list.len() - 1].voucher == voucher);
    assert forall|j: int| 0 <= j < before.len() implies (#[trigger] list[j]).voucher
        != voucher by {
        assert(list[j] == before[j]);
    }
    assert(i == before.len());
    assert(list.remove(i) =~= before);
}

/// Taking out what was added leaves the vouches as before.
pub proof fn decrease_undoes_increase(
    state: State,
    voucher: Address,
    borrower: Address,
    amount: i128,
)
    requires
        state.wf(),
        state.increase_failure(voucher, borrower, amount) is None,
        !state.has_active_loan(borrower),
    ensures
        ({
            let more = state.increased(voucher, borrower, amount);
            &&& more.decrease_failure(voucher, borrower, amount) is None
            &&& more.decreased(voucher, borrower, amount).vouches =~= state.vouches
        }),
{
    let more = state.increased(voucher, borrower, amount);
    let before = state.vouches_of(borrower);
    let list = more.vouches_of(borrower);
    vouch::lemma_first_vouch(before, voucher);
    vouch::lemma_first_vouch(list, voucher);
    let i = vouch::first_vouch(before, voucher)->0;
    let j = vouch::first_vouch(list, voucher)->0;
    assert(state.vouches.contains_key(borrower));
    assert forall|k: int| 0 <= k < before.len() implies (#[trigger] list[k]).voucher
        == before[k].voucher by {}
    assert(list[i].voucher == voucher && before[j].voucher == voucher);
    assert(i == j);
    assert(before[i].stake > 0);
    let back = VouchRecord { stake: (list[j].stake - amount) as i128, ..list[j] };
    assert(list.update(j, back) =~= before);
}

/// Handing a vouch over moves stake and makes none, in any token.
pub proof fn transfer_keeps_the_stake(
    state: State,
    from: Address,
    to: Address,
    borrower: Address,
    token: Address,
)
    requires
        state.wf(),
        state.transfer_failure(from, to, borrower) is None,
    ensures
        ({
            let next = state.transferred(from, to, borrower);
            &&& next.stake_in(borrower, token) == state.stake_in(borrower, token)
            &&& next.total_stake(borrower) == state.total_stake(borrower)
        }),
{
    if from != to {
        let list = state.vouches_of(borrower);
        let amounts = vouch::stakes(list);
        let parts = vouch::stakes_in(list, token);
        let next = state.transferred(from, to, borrower);
        let moved = next.vouches_of(borrower);
        vouch::lemma_first_vouch(list, from);
        let i = vouch::first_vouch(list, from)->0;
        vouch::lemma_first_vouch_in(list, to, list[i].token);
        match vouch::first_vouch_in(list, to, list[i].token) {
            Some(j) => {
                let merged = amounts.update(j, amounts[j] + amounts[i]);
                math::lemma_sum_update(amounts, j, amounts[j] + amounts[i]);
                math::lemma_sum_remove(merged, i);
                assert(vouch::stakes(moved) =~= merged.remove(i));
                let part = parts.update(j, parts[j] + parts[i]);
                math::lemma_sum_update(parts, j, parts[j] + parts[i]);
                math::lemma_sum_remove(part, i);
                assert(vouch::stakes_in(moved, token) =~= part.remove(i));
            },
            None => {
                assert(vouch::stakes(moved) =~= amounts);
                assert(vouch::stakes_in(moved, token) =~= parts);
            },
        }
    }
}

// Borrowing.

/// A loan needs a borrower without an active loan and enough stake behind it; then it is active,
/// under a new id, and no second one can be had.
pub proof fn loan_needs_stake(
    state: State,
    borrower: Address,
    co_borrowers: Seq<Address>,
    amount: i128,
    threshold: i128,
    loan_purpose: Seq<u8>,
    token: Address,
    contract_balance: i128,
)
    requires
        state.wf(),
        state.request_failure(borrower, amount, threshold, token, contract_balance) is None,
    ensures
        ({
            let next = state.requested(borrower, co_borrowers, amount, loan_purpose, token);
            let stake = state.stake_in(borrower, token);
            &&& state.is_eligible(borrower, threshold, token)
            &&& amount * 100 <= stake * state.config->0.max_loan_to_stake_ratio
            &&& amount <= contract_balance
            &&& !next.is_eligible(borrower, threshold, token)
            &&& next.has_active_loan(borrower)
            &&& next.active_loan(borrower)->0.amount == amount
            &&& next.active_loan(borrower)->0.total_yield == math::bps(
                amount as int,
                state.config->0.yield_bps as int,
            )
            &&& !state.loans.contains_key(next.active_loan(borrower)->0.id)
            &&& next.request_failure(borrower, amount, threshold, token, contract_balance) == Some(
                Failure::Trap(Trap::BorrowerHasActiveLoan),
            )
        }),
{
    let config = state.config->0;
    let stake = state.stake_in(borrower, token);
    wellformed::lemma_bps_bounds(amount as int, config.yield_bps as int);
    let product = stake * config.max_loan_to_stake_ratio;
    assert(product >= 0) by (nonlinear_arith)
        requires
            stake >= threshold,
            threshold > 0,
            config.max_loan_to_stake_ratio >= 0,
            product == stake * config.max_loan_to_stake_ratio,
    ;
}

/// The vouchers of the vouches in a token.
pub open spec fn vouchers_in(vouches: Seq<VouchRecord>, token: Address) -> Seq<Address> {
    vouches.filter(loan::in_token(token)).map_values(|vouch: VouchRecord| vouch.voucher)
}

proof fn lemma_vouchers_distinct(vouches: Seq<VouchRecord>, token: Address)
    requires
        vouches.len() > 0 ==> wellformed::vouch_list_wf(vouches),
    ensures
        vouchers_in(vouches, token).no_duplicates(),
    decreases vouches.len(),
{
    reveal(Seq::filter);
    if vouches.len() > 0 {
        let init = vouches.drop_last();
        let last = vouches.last();
        let end = vouches.len() - 1;
        assert forall|i: int, j: int| 0 <= i < j < init.len() implies !((
        #[trigger] init[i]).voucher == (#[trigger] init[j]).voucher && init[i].token
            == init[j].token) by {
            assert(init[i] == vouches[i] && init[j] == vouches[j]);
        }
        assert forall|i: int| 0 <= i < init.len() implies (#[trigger] init[i]).stake > 0 by {
            assert(init[i] == vouches[i]);
        }
        lemma_vouchers_distinct(init, token);
        let earlier = vouchers_in(init, token);
        let all = vouchers_in(vouches, token);
        if last.token == token {
            assert(all =~= earlier.push(last.voucher));
            math::lemma_filter_contains(init, loan::in_token(token));
            assert forall|k: int| 0 <= k < earlier.len() implies earlier[k] != last.voucher by {
                let vouch = init.filter(loan::in_token(token))[k];
                assert(init.contains(vouch));
                let i = choose|i: int| 0 <= i < init.len() && init[i] == vouch;
                assert(vouches[i] == vouch && vouches[end] == last);
                assert(loan::in_token(token)(vouch));
            }
        } else {
            assert(all =~= earlier);
        }
    }
}

/// At least `min_vouchers` distinct vouchers back a loan in its token.
pub proof fn loan_needs_distinct_vouchers(
    state: State,
    borrower: Address,
    amount: i128,
    threshold: i128,
    token: Address,
    contract_balance: i128,
)
    requires
        state.wf(),
        state.request_failure(borrower, amount, threshold, token, contract_balance) is None,
    ensures
        vouchers_in(state.vouches_of(borrower), token).no_duplicates(),
        vouchers_in(state.vouches_of(borrower), token).len() >= state.min_vouchers,
{
    lemma_vouchers_distinct(state.vouches_of(borrower), token);
}

/// While a loan is active the stakes behind it are locked, and the borrower gets no other loan.
pub proof fn active_loan_locks_the_stakes(state: State, borrower: Address, call: Call)
    requires
        state.has_active_loan(borrower),
        match call {
            Call::Vouch { borrower: b, .. } => b == borrower,
            Call::DecreaseStake { borrower: b, .. } => b == borrower,
            Call::WithdrawVouch { borrower: b, .. } => b == borrower,
            Call::TransferVouch { borrower: b, from, to } => b == borrower && from != to,
            Call::RequestLoan { borrower: b, .. } => b == borrower,
            _ => false,
        },
    ensures
        state.failure(call) is Some,
{
}

/// A pool lends to nobody who has an active loan, nor twice to anybody.
pub proof fn pool_lends_once(
    state: State,
    signers: Seq<Address>,
    borrowers: Seq<Address>,
    amounts: Seq<i128>,
    contract_balance: i128,
)
    requires
        state.pool_failure(signers, borrowers, amounts, contract_balance) is None,
    ensures
        borrowers.no_duplicates(),
        forall|i: int|
            0 <= i < borrowers.len() ==> !state.has_active_loan(#[trigger] borrowers[i]),
        math::sum(crate::pool::as_ints(amounts)) <= contract_balance,
{
    crate::pool::lemma_pool_borrowers_distinct(state, borrowers, amounts);
    assert forall|i: int| 0 <= i < borrowers.len() implies !state.has_active_loan(
        #[trigger] borrowers[i],
    ) by {
        assert(state.pool_item_failure(borrowers[i], amounts[i], false) is None);
    }
}

/// Every entry of the list of borrowers is on exactly the page that its place says.
pub proof fn pages_cover_the_list(state: State, page_size: u32, i: int)
    requires
        0 < page_size,
        0 <= i < state.borrower_list.len(),
        i <= u32::MAX,
    ensures
        state.page((i / page_size as int) as u32, page_size)[i % page_size as int]
            == state.borrower_list[i],
{
    let page = i / page_size as int;
    let offset = i % page_size as int;
    assert(i == page * page_size + offset && 0 <= offset < page_size && 0 <= page <= i)
        by (nonlinear_arith)
        requires
            page == i / page_size as int,
            offset == i % page_size as int,
            page_size > 0,
            i >= 0,
    ;
}

/// Every entry of a page yields a loan: a page of loans is as long as the page of borrowers, and
/// holds the latest loan of each.
pub proof fn every_page_entry_yields_a_loan(state: State, page: u32, page_size: u32)
    requires
        state.wf(),
    ensures
        ({
            let borrowers = state.page(page, page_size);
            let loans = state.loans_of(borrowers);
            &&& loans.len() == borrowers.len()
            &&& forall|i: int|
                0 <= i < loans.len() ==> state.latest_loan(borrowers[i]) == Some(
                    #[trigger] loans[i],
                )
        }),
{
    let borrowers = state.page(page, page_size);
    let length = state.borrower_list.len() as int;
    assert(page * page_size >= 0) by (nonlinear_arith);
    let start = vstd::math::min(page * page_size, length);
    assert forall|i: int| 0 <= i < borrowers.len() implies state.has_loan()(
        #[trigger] borrowers[i],
    ) by {
        assert(borrowers[i] == state.borrower_list[start + i]);
    }
    math::lemma_filter_all(borrowers, state.has_loan());
}

// Governance.

/// Nobody votes twice: the second vote is refused, for the vote or because it is closed.
pub proof fn no_second_vote(
    state: State,
    voucher: Address,
    borrower: Address,
    approve: bool,
    again: bool,
)
    requires
        state.wf(),
        state.vote_failure(voucher, borrower, approve) is None,
    ensures
        state.slash_voted(voucher, borrower, approve).vote_failure(voucher, borrower, again)
            == Some(
            Failure::Contract(
                if state.vote_decides(voucher, borrower, approve) {
                    ContractError::SlashAlreadyExecuted
                } else {
                    ContractError::AlreadyVoted
                },
            ),
        ),
{
    let next = state.slash_voted(voucher, borrower, approve);
    let voters = state.vote_on(borrower).voters.push(voucher);
    assert(voters[voters.len() - 1] == voucher);
}

/// The vote that reaches the quorum slashes the loan at once: it has defaulted, the vote is
/// closed to everybody, and the loan cannot be repaid.
pub proof fn quorum_slashes(
    state: State,
    voucher: Address,
    borrower: Address,
    approve: bool,
    other: Address,
    payment: i128,
    contract_balance: i128,
)
    requires
        state.wf(),
        state.vote_failure(voucher, borrower, approve) is None,
        state.vote_decides(voucher, borrower, approve),
    ensures
        ({
            let next = state.slash_voted(voucher, borrower, approve);
            &&& next.latest_loan(borrower) matches Some(loan) && loan.status
                == LoanStatus::Defaulted
            &&& next.vote_on(borrower).executed
            &&& next.vote_failure(other, borrower, approve) == Some(
                Failure::Contract(ContractError::SlashAlreadyExecuted),
            )
            &&& next.repay_failure(borrower, payment, contract_balance) == Some(
                Failure::Contract(ContractError::NoActiveLoan),
            )
        }),
{
    wellformed::lemma_active(state, borrower);
}

/// A vote below the quorum leaves the loan active; and a vote against a slash that has no quorum
/// yet never brings it about.
pub proof fn no_slash_without_quorum(
    state: State,
    voucher: Address,
    borrower: Address,
    approve: bool,
)
    requires
        state.wf(),
        state.vote_failure(voucher, borrower, approve) is None,
        !approve ==> !governance::quorum_reached(
            state.vote_on(borrower).approve_stake as int,
            state.total_stake(borrower),
            state.slash_vote_quorum as int,
        ),
        approve ==> !state.vote_decides(voucher, borrower, approve),
    ensures
        ({
            let next = state.slash_voted(voucher, borrower, approve);
            &&& next.has_active_loan(borrower)
            &&& next.active_loan(borrower) == state.active_loan(borrower)
            &&& next.vouches == state.vouches
            &&& next.slash_treasury == state.slash_treasury
            &&& !next.vote_on(borrower).executed
        }),
{
}

/// A vote counts with the voter's stake, on the side that it is for.
pub proof fn votes_are_weighted(state: State, voucher: Address, borrower: Address, approve: bool)
    requires
        state.vote_failure(voucher, borrower, approve) is None,
    ensures
        ({
            let before = state.vote_on(borrower);
            let after = state.slash_voted(voucher, borrower, approve).vote_on(borrower);
            let stake = state.vouch_of(voucher, borrower)->0.stake;
            &&& after.approve_stake + after.reject_stake == before.approve_stake
                + before.reject_stake + stake
            &&& approve ==> after.reject_stake == before.reject_stake
            &&& !approve ==> after.approve_stake == before.approve_stake
            &&& after.voters == before.voters.push(voucher)
        }),
{
}

/// Only an admin proposes a slash, and only the proposer cancels it.
pub proof fn proposals_are_guarded(
    state: State,
    caller: Address,
    delay_secs: u64,
    proposal_id: u64,
)
    ensures
        state.propose_failure(caller, delay_secs) is None ==> state.config is Some
            && state.config->0.admins.contains(caller),
        state.cancel_failure(caller, proposal_id) is None ==> state.proposals[proposal_id].proposer
            == caller,
{
}

/// A proposal is executed no earlier than its time and no later than 72 hours after it, and
/// neither twice nor after it was cancelled.
pub proof fn proposal_is_executed_in_time(state: State, proposal_id: u64)
    requires
        state.execution_failure(proposal_id) is None,
    ensures
        ({
            let proposal = state.proposals[proposal_id];
            let next = state.proposal_executed(proposal_id);
            &&& state.proposals.contains_key(proposal_id)
            &&& proposal.eta <= state.now <= proposal.eta + TIMELOCK_EXPIRY
            &&& !proposal.executed
            &&& !proposal.cancelled
            &&& next.proposals[proposal_id].executed
            &&& next.execution_failure(proposal_id) == Some(
                Failure::Contract(ContractError::SlashAlreadyExecuted),
            )
            &&& next.cancel_failure(proposal.proposer, proposal_id) == Some(
                Failure::Contract(ContractError::SlashAlreadyExecuted),
            )
        }),
{
}

/// A proposal that is cancelled is never executed, nor cancelled again.
pub proof fn cancelled_proposal_is_dead(state: State, caller: Address, proposal_id: u64)
    requires
        state.cancel_failure(caller, proposal_id) is None,
    ensures
        ({
            let next = state.proposal_cancelled(caller, proposal_id);
            &&& next.execution_failure(proposal_id) is Some
            &&& next.cancel_failure(caller, proposal_id) == Some(
                Failure::Contract(ContractError::SlashAlreadyExecuted),
            )
        }),
{
}

/// A proposal goes under a new id and waits for its delay.
pub proof fn proposal_waits_for_its_delay(
    state: State,
    proposer: Address,
    borrower: Address,
    delay_secs: u64,
)
    requires
        state.wf(),
        state.propose_failure(proposer, delay_secs) is None,
        delay_secs > 0,
    ensures
        ({
            let next = state.slash_proposed(proposer, borrower, delay_secs);
            let id = next.proposal_counter;
            &&& !state.proposals.contains_key(id)
            &&& next.proposals.contains_key(id)
            &&& next.proposals[id].action == TimelockActionView::Slash(borrower)
            &&& next.proposals[id].eta == state.now + delay_secs
            &&& next.execution_failure(id) == Some(
                Failure::Contract(ContractError::NoActiveLoan),
            )
        }),
{
}

// Reputation.

/// A point that is minted is burnt again, and no score falls below 0.
pub proof fn burn_undoes_mint(state: ReputationState, address: Address, other: Address)
    requires
        state.mint_failure(address) is None,
        other != address,
    ensures
        state.minted(address).score(address) == state.score(address) + 1,
        state.minted(address).burnt(address).score(address) == state.score(address),
        state.minted(address).score(other) == state.score(other),
        state.burnt(address).score(other) == state.score(other),
        state.burnt(address).score(address) == if state.score(address) == 0 {
            0
        } else {
            state.score(address) - 1
        },
{
}

/// A repaid loan earns the borrower one reputation point, if reputation is kept.
pub proof fn repayment_earns_reputation(
    state: State,
    borrower: Address,
    payment: i128,
    contract_balance: i128,
    nft: Address,
)
    requires
        state.reputation_nft == Some(nft),
        state.repay_failure(borrower, payment, contract_balance) is None,
        state.active_loan(borrower)->0.amount_repaid + payment >= state.active_loan(
            borrower,
        )->0.amount,
    ensures
        state.repaid(borrower, payment).effects.contains(
            Effect::MintReputation { nft, to: borrower },
        ),
{
    let effects = state.repaid(borrower, payment).effects;
    assert(effects[effects.len() - 2] == Effect::<Seq<Address>>::MintReputation {
        nft,
        to: borrower,
    });
}

/// A loan that the admins or its deadline slash costs the borrower one reputation point, if
/// reputation is kept.
pub proof fn slash_costs_reputation(
    state: State,
    signers: Seq<Address>,
    borrower: Address,
    nft: Address,
)
    requires
        state.reputation_nft == Some(nft),
    ensures
        state.slashed(signers, borrower).effects.contains(
            Effect::BurnReputation { nft, from: borrower },
        ),
        state.auto_slashed(borrower).effects.contains(
            Effect::BurnReputation { nft, from: borrower },
        ),
{
    let slashed = state.slashed(signers, borrower).effects;
    assert(slashed[slashed.len() - 2] == Effect::<Seq<Address>>::BurnReputation {
        nft,
        from: borrower,
    });
    let auto_slashed = state.auto_slashed(borrower).effects;
    assert(auto_slashed[auto_slashed.len() - 1] == Effect::<Seq<Address>>::BurnReputation {
        nft,
        from: borrower,
    });
}

} // verus!
