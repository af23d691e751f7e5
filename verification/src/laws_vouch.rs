//! What vouching does, told from the ledger before a call and the ledger after it: who may stake,
//! raise, lower, take back and hand over, and where each stake then is.

use crate::address::Address;
use crate::env::{Effect, Event, State};
use crate::errors::{ContractError, Trap};
use crate::laws_terms;
use crate::types::VouchRecord;
use crate::vouch;
use vstd::prelude::*;

verus! {

/// A voucher may stake again: it never has, nobody has to wait, or the wait is over.
pub open spec fn is_rested(state: State, voucher: Address) -> bool {
    ||| !state.last_vouch.contains_key(voucher)
    ||| state.last_vouch[voucher] == 0
    ||| state.config->0.vouch_cooldown_secs == 0
    ||| state.now >= state.last_vouch[voucher] + state.config->0.vouch_cooldown_secs
}

/// The end of the wait is past the end of time.
pub open spec fn waits_for_ever(state: State, voucher: Address) -> bool {
    &&& state.last_vouch.contains_key(voucher)
    &&& state.last_vouch[voucher] > 0
    &&& state.config->0.vouch_cooldown_secs > 0
    &&& state.last_vouch[voucher] + state.config->0.vouch_cooldown_secs > u64::MAX
}

/// One of the vouches is this voucher's in this token.
pub open spec fn stands_in(vouches: Seq<VouchRecord>, voucher: Address, token: Address) -> bool {
    exists|i: int|
        0 <= i < vouches.len() && (#[trigger] vouches[i]).voucher == voucher && vouches[i].token
            == token
}

/// A stake is taken in exactly when the contract runs, the stake is positive and not behind
/// oneself, the borrower is not banned, the token is accepted, the stake reaches both minima, the
/// voucher is rested and not there in that token yet, there is room in the list, and the borrower
/// owes nothing. Otherwise the first of these that does not hold is the reason given.
pub proof fn vouch_is_accepted_exactly_when(
    state: State,
    voucher: Address,
    borrower: Address,
    stake: i128,
    token: Address,
)
    ensures
        ({
            let failure = state.vouch_failure(voucher, borrower, stake, token);
            let list = laws_terms::backing(state, borrower);
            let config = state.config->0;
            let runs = !state.paused;
            let positive = runs && stake > 0;
            let other = positive && voucher != borrower;
            let welcome = other && !laws_terms::banned(state, borrower);
            let set_up = welcome && state.config is Some;
            let accepted = set_up && laws_terms::accepts(state, token);
            let large = accepted && (state.min_stake <= 0 || stake >= state.min_stake);
            let earning = large && stake >= config.min_yield_stake;
            let finite = earning && !waits_for_ever(state, voucher);
            let rested = finite && is_rested(state, voucher);
            let new = rested && !stands_in(list, voucher, token);
            let room = new && list.len() < state.max_vouchers_per_borrower;
            let room_in_loan = room && list.len() < config.max_vouchers;
            let free = room_in_loan && !laws_terms::owes(state, borrower);
            &&& free <==> failure is None
            &&& !runs ==> failure == laws_terms::refusal(ContractError::ContractPaused)
            &&& runs && !positive ==> failure == laws_terms::refusal(
                ContractError::InsufficientFunds,
            )
            &&& positive && !other ==> failure == laws_terms::trap(Trap::SelfVouch)
            &&& other && !welcome ==> failure == laws_terms::refusal(ContractError::Blacklisted)
            &&& welcome && !set_up ==> failure == laws_terms::trap(Trap::NotInitialized)
            &&& set_up && !accepted ==> failure == laws_terms::refusal(ContractError::InvalidToken)
            &&& accepted && !large ==> failure == laws_terms::refusal(ContractError::MinStakeNotMet)
            &&& large && !earning ==> failure == laws_terms::trap(Trap::StakeBelowYieldMinimum)
            &&& earning && !finite ==> failure == laws_terms::trap(Trap::Overflow)
            &&& finite && !rested ==> failure == laws_terms::refusal(
                ContractError::VouchCooldownActive,
            )
            &&& rested && !new ==> failure == laws_terms::refusal(ContractError::DuplicateVouch)
            &&& new && !room ==> failure == laws_terms::refusal(
                ContractError::MaxVouchersPerBorrowerExceeded,
            )
            &&& room && !room_in_loan ==> failure == laws_terms::trap(Trap::MaxVouchersPerLoan)
            &&& room_in_loan && !free ==> failure == laws_terms::refusal(
                ContractError::ActiveLoanExists,
            )
        }),
{
    laws_terms::look_ups_read_the_ledger(state, borrower, state.loan_counts);
    laws_terms::tokens_are_refused_unless_accepted(state, token);
}

/// A stake joins the end of the borrower's list, dated now, and the borrower the end of the
/// voucher's history; the voucher signs, and hands over exactly the stake in its token.
pub proof fn vouch_adds_one_record(
    state: State,
    voucher: Address,
    borrower: Address,
    stake: i128,
    token: Address,
)
    ensures
        ({
            let next = state.vouched(voucher, borrower, stake, token);
            let record = VouchRecord { voucher, stake, vouch_timestamp: state.now, token };
            &&& next == State {
                vouches: next.vouches,
                voucher_history: next.voucher_history,
                last_vouch: next.last_vouch,
                effects: next.effects,
                ..state
            }
            &&& next.vouches == state.vouches.insert(
                borrower,
                laws_terms::backing(state, borrower) + seq![record],
            )
            &&& next.voucher_history == state.voucher_history.insert(
                voucher,
                laws_terms::backed(state, voucher) + seq![borrower],
            )
            &&& next.last_vouch == state.last_vouch.insert(voucher, state.now)
            &&& next.effects == state.effects + seq![
                laws_terms::signature(voucher),
                laws_terms::transfer(token, voucher, state.contract, stake),
                laws_terms::announcement(Event::VouchAdded { voucher, borrower, stake, token }),
            ]
        }),
{
    let next = state.vouched(voucher, borrower, stake, token);
    let record = VouchRecord { voucher, stake, vouch_timestamp: state.now, token };
    laws_terms::look_ups_read_the_ledger(state, borrower, state.loan_counts);
    laws_terms::look_ups_read_the_ledger(state, voucher, state.loan_counts);
    assert(next.vouches[borrower] =~= laws_terms::backing(state, borrower) + seq![record]);
    assert(next.voucher_history[voucher] =~= laws_terms::backed(state, voucher) + seq![borrower]);
    assert(next.vouches =~= state.vouches.insert(
        borrower,
        laws_terms::backing(state, borrower) + seq![record],
    ));
    assert(next.voucher_history =~= state.voucher_history.insert(
        voucher,
        laws_terms::backed(state, voucher) + seq![borrower],
    ));
    assert(next.effects =~= state.effects + seq![
        laws_terms::signature(voucher),
        laws_terms::transfer(token, voucher, state.contract, stake),
        laws_terms::announcement(Event::VouchAdded { voucher, borrower, stake, token }),
    ]);
}

/// No borrower stands twice in a list.
pub open spec fn is_repetition_free(borrowers: Seq<Address>) -> bool {
    forall|i: int, j: int|
        0 <= i < j < borrowers.len() ==> #[trigger] borrowers[i] != #[trigger] borrowers[j]
}

proof fn lemma_batch_prefix(
    state: State,
    voucher: Address,
    borrowers: Seq<Address>,
    amounts: Seq<i128>,
    token: Address,
)
    requires
        !state.paused,
        borrowers.len() == amounts.len(),
    ensures
        ({
            let failure = state.pledges_failure(
                voucher,
                borrowers,
                amounts,
                token,
                state.last_vouch_of(voucher),
            );
            failure is None <==> is_repetition_free(borrowers) && forall|i: int|
                0 <= i < borrowers.len() ==> (#[trigger] state.vouch_failure(
                    voucher,
                    borrowers[i],
                    amounts[i],
                    token,
                )) is None
        }),
    decreases borrowers.len(),
{
    if borrowers.len() > 0 {
        let n = borrowers.len() - 1;
        let bs = borrowers.drop_last();
        let as_ = amounts.drop_last();
        let last = state.last_vouch_of(voucher);
        lemma_batch_prefix(state, voucher, bs, as_, token);
        vouch::lemma_pledged_all(state, voucher, bs, as_, token);
        let prior = state.pledged_all(voucher, bs, as_, token);
        let b = borrowers[n];
        let alone = state.vouch_failure(voucher, b, amounts[n], token);
        let earlier = state.pledges_failure(voucher, bs, as_, token, last);
        let whole = state.pledges_failure(voucher, borrowers, amounts, token, last);
        assert(prior.vouches_of(b) == prior.vouches_of(b));
        if !bs.contains(b) {
            assert(prior.pledge_failure(voucher, b, amounts[n], token, last, false) == alone);
        } else {
            assert(vouch::has_vouch_in(prior.vouches_of(b), voucher, token));
            assert(prior.pledge_failure(voucher, b, amounts[n], token, last, false) is Some);
            let i = choose|i: int| 0 <= i < bs.len() && bs[i] == b;
            assert(borrowers[i] == borrowers[n]);
        }
        assert forall|i: int| 0 <= i < bs.len() implies bs[i] == borrowers[i] && as_[i]
            == amounts[i] by {}
        if earlier is None && whole is None {
            assert(!bs.contains(b));
            assert forall|i: int, j: int| 0 <= i < j < borrowers.len() implies #[trigger] borrowers[i]
                != #[trigger] borrowers[j] by {
                if j < n {
                    assert(bs[i] != bs[j]);
                } else {
                    assert(bs[i] == borrowers[i]);
                }
            }
            assert forall|i: int| 0 <= i < borrowers.len() implies (#[trigger] state.vouch_failure(
                voucher,
                borrowers[i],
                amounts[i],
                token,
            )) is None by {
                if i < n {
                    assert(state.vouch_failure(voucher, bs[i], as_[i], token) is None);
                }
            }
        }
        if is_repetition_free(borrowers) && (forall|i: int|
            0 <= i < borrowers.len() ==> (#[trigger] state.vouch_failure(
                voucher,
                borrowers[i],
                amounts[i],
                token,
            )) is None) {
            assert(is_repetition_free(bs)) by {
                assert forall|i: int, j: int| 0 <= i < j < bs.len() implies #[trigger] bs[i]
                    != #[trigger] bs[j] by {
                    assert(borrowers[i] != borrowers[j]);
                }
            }
            assert forall|i: int| 0 <= i < bs.len() implies (#[trigger] state.vouch_failure(
                voucher,
                bs[i],
                as_[i],
                token,
            )) is None by {
                assert(state.vouch_failure(voucher, borrowers[i], amounts[i], token) is None);
            }
            assert(state.vouch_failure(voucher, borrowers[n], amounts[n], token) is None);
        }
    }
}

/// A batch is taken in exactly when it is not empty, every borrower comes with an amount, nobody
/// is named twice, and each of its stakes would be taken in alone.
pub proof fn batch_is_accepted_exactly_when(
    state: State,
    voucher: Address,
    borrowers: Seq<Address>,
    amounts: Seq<i128>,
    token: Address,
)
    ensures
        ({
            let failure = state.batch_vouch_failure(voucher, borrowers, amounts, token);
            let runs = !state.paused;
            let paired = runs && borrowers.len() == amounts.len();
            let filled = paired && borrowers.len() > 0;
            let each = forall|i: int|
                0 <= i < borrowers.len() ==> (#[trigger] state.vouch_failure(
                    voucher,
                    borrowers[i],
                    amounts[i],
                    token,
                )) is None;
            &&& failure is None <==> filled && is_repetition_free(borrowers) && each
            &&& !runs ==> failure == laws_terms::refusal(ContractError::ContractPaused)
            &&& runs && !paired ==> failure == laws_terms::trap(Trap::BatchLengthMismatch)
            &&& paired && !filled ==> failure == laws_terms::trap(Trap::BatchEmpty)
        }),
{
    if !state.paused && borrowers.len() == amounts.len() {
        lemma_batch_prefix(state, voucher, borrowers, amounts, token);
    }
}

/// A batch is refused for the reason that its first refused stake has: the reason it has alone,
/// or, for a stake that would be taken in alone, that its borrower was named before.
pub proof fn batch_gives_the_first_reason(
    state: State,
    voucher: Address,
    borrowers: Seq<Address>,
    amounts: Seq<i128>,
    token: Address,
    k: int,
)
    requires
        !state.paused,
        borrowers.len() == amounts.len(),
        0 <= k < borrowers.len(),
        is_repetition_free(borrowers.take(k)),
        forall|i: int|
            0 <= i < k ==> (#[trigger] state.vouch_failure(
                voucher,
                borrowers[i],
                amounts[i],
                token,
            )) is None,
    ensures
        ({
            let failure = state.batch_vouch_failure(voucher, borrowers, amounts, token);
            let alone = state.vouch_failure(voucher, borrowers[k], amounts[k], token);
            let repeated = borrowers.take(k).contains(borrowers[k]);
            &&& !repeated && alone is Some ==> failure == alone
            &&& repeated && alone is None ==> failure == laws_terms::refusal(
                ContractError::DuplicateVouch,
            )
        }),
{
    let bs = borrowers.take(k);
    let as_ = amounts.take(k);
    let last = state.last_vouch_of(voucher);
    assert forall|i: int| 0 <= i < bs.len() implies (#[trigger] state.vouch_failure(
        voucher,
        bs[i],
        as_[i],
        token,
    )) is None by {
        assert(state.vouch_failure(voucher, borrowers[i], amounts[i], token) is None);
    }
    lemma_batch_prefix(state, voucher, bs, as_, token);
    vouch::lemma_pledged_all(state, voucher, bs, as_, token);
    let prior = state.pledged_all(voucher, bs, as_, token);
    let b = borrowers[k];
    let alone = state.vouch_failure(voucher, b, amounts[k], token);
    let there = prior.pledge_failure(voucher, b, amounts[k], token, last, false);
    assert(prior.vouches_of(b) == prior.vouches_of(b));
    let repeated = bs.contains(b);
    assert(!repeated ==> there == alone);
    assert(borrowers.take(k + 1).drop_last() =~= bs);
    assert(amounts.take(k + 1).drop_last() =~= as_);
    assert(state.pledges_failure(voucher, borrowers.take(k + 1), amounts.take(k + 1), token, last)
        == there);
    if there is Some {
        lemma_refused_from(state, voucher, borrowers, amounts, token, last, k + 1);
    }
}

proof fn lemma_refused_from(
    state: State,
    voucher: Address,
    borrowers: Seq<Address>,
    amounts: Seq<i128>,
    token: Address,
    last: u64,
    k: int,
)
    requires
        borrowers.len() == amounts.len(),
        0 <= k <= borrowers.len(),
        state.pledges_failure(voucher, borrowers.take(k), amounts.take(k), token, last) is Some,
    ensures
        state.pledges_failure(voucher, borrowers, amounts, token, last) == state.pledges_failure(
            voucher,
            borrowers.take(k),
            amounts.take(k),
            token,
            last,
        ),
    decreases borrowers.len() - k,
{
    if k < borrowers.len() {
        assert(borrowers.take(k + 1).drop_last() =~= borrowers.take(k));
        assert(amounts.take(k + 1).drop_last() =~= amounts.take(k));
        lemma_refused_from(state, voucher, borrowers, amounts, token, last, k + 1);
    } else {
        assert(borrowers.take(k) =~= borrowers);
        assert(amounts.take(k) =~= amounts);
    }
}

/// From `at` on, the effects take in one stake of a batch: the stake comes in, and the vouch is
/// announced.
pub open spec fn takes_in(
    effects: Seq<Effect<Seq<Address>>>,
    at: int,
    contract: Address,
    record: VouchRecord,
    borrower: Address,
) -> bool {
    &&& effects[at] == laws_terms::transfer(record.token, record.voucher, contract, record.stake)
    &&& effects[at + 1] == laws_terms::announcement(
        Event::VouchAdded {
            voucher: record.voucher,
            borrower,
            stake: record.stake,
            token: record.token,
        },
    )
}

proof fn lemma_batch_after(
    state: State,
    voucher: Address,
    borrowers: Seq<Address>,
    amounts: Seq<i128>,
    token: Address,
)
    requires
        borrowers.len() == amounts.len(),
        is_repetition_free(borrowers),
    ensures
        ({
            let next = state.pledged_all(voucher, borrowers, amounts, token);
            &&& next == State {
                vouches: next.vouches,
                voucher_history: next.voucher_history,
                last_vouch: next.last_vouch,
                effects: next.effects,
                ..state
            }
            &&& forall|i: int|
                0 <= i < borrowers.len() ==> next.vouches.contains_key(#[trigger] borrowers[i])
                    && next.vouches[borrowers[i]] == laws_terms::backing(state, borrowers[i]).push(
                    VouchRecord { voucher, stake: amounts[i], vouch_timestamp: state.now, token },
                )
            &&& forall|b: Address|
                !borrowers.contains(b) ==> #[trigger] laws_terms::backing(next, b)
                    == laws_terms::backing(state, b) && next.vouches.contains_key(b)
                    == state.vouches.contains_key(b)
            &&& laws_terms::backed(next, voucher) == laws_terms::backed(state, voucher) + borrowers
            &&& forall|v: Address|
                v != voucher ==> #[trigger] laws_terms::backed(next, v) == laws_terms::backed(
                    state,
                    v,
                )
            &&& borrowers.len() > 0 ==> next.last_vouch == state.last_vouch.insert(
                voucher,
                state.now,
            )
            &&& next.effects.len() == state.effects.len() + 2 * borrowers.len()
            &&& forall|i: int|
                0 <= i < state.effects.len() ==> #[trigger] next.effects[i] == state.effects[i]
            &&& forall|i: int|
                #![trigger borrowers[i]]
                0 <= i < borrowers.len() ==> takes_in(
                    next.effects,
                    state.effects.len() + 2 * i,
                    state.contract,
                    VouchRecord { voucher, stake: amounts[i], vouch_timestamp: state.now, token },
                    borrowers[i],
                )
        }),
    decreases borrowers.len(),
{
    let next = state.pledged_all(voucher, borrowers, amounts, token);
    if borrowers.len() == 0 {
        assert(laws_terms::backed(state, voucher) + borrowers =~= laws_terms::backed(
            state,
            voucher,
        ));
    } else {
        let n = borrowers.len() - 1;
        let bs = borrowers.drop_last();
        let as_ = amounts.drop_last();
        let b = borrowers[n];
        assert forall|i: int, j: int| 0 <= i < j < bs.len() implies #[trigger] bs[i]
            != #[trigger] bs[j] by {
            assert(borrowers[i] != borrowers[j]);
        }
        lemma_batch_after(state, voucher, bs, as_, token);
        let prior = state.pledged_all(voucher, bs, as_, token);
        assert(!bs.contains(b)) by {
            if bs.contains(b) {
                let i = choose|i: int| 0 <= i < bs.len() && bs[i] == b;
                assert(borrowers[i] == borrowers[n]);
            }
        }
        laws_terms::look_ups_read_the_ledger(prior, b, prior.loan_counts);
        laws_terms::look_ups_read_the_ledger(prior, voucher, prior.loan_counts);
        assert(laws_terms::backing(prior, b) == laws_terms::backing(state, b));
        assert forall|i: int| 0 <= i < borrowers.len() implies next.vouches.contains_key(
            #[trigger] borrowers[i],
        ) && next.vouches[borrowers[i]] == laws_terms::backing(state, borrowers[i]).push(
            VouchRecord { voucher, stake: amounts[i], vouch_timestamp: state.now, token },
        ) by {
            if i < n {
                assert(bs[i] == borrowers[i]);
                assert(bs.contains(bs[i]));
            }
        }
        assert forall|c: Address| !borrowers.contains(c) implies #[trigger] laws_terms::backing(
            next,
            c,
        ) == laws_terms::backing(state, c) && next.vouches.contains_key(c)
            == state.vouches.contains_key(c) by {
            assert(borrowers[n] == b);
            assert(!bs.contains(c)) by {
                if bs.contains(c) {
                    let i = choose|i: int| 0 <= i < bs.len() && bs[i] == c;
                    assert(borrowers[i] == c);
                }
            }
            assert(laws_terms::backing(prior, c) == laws_terms::backing(state, c));
        }
        assert(laws_terms::backed(next, voucher) =~= laws_terms::backed(state, voucher)
            + borrowers);
        assert forall|v: Address| v != voucher implies #[trigger] laws_terms::backed(next, v)
            == laws_terms::backed(state, v) by {
            assert(laws_terms::backed(prior, v) == laws_terms::backed(state, v));
        }
        assert(next.last_vouch =~= state.last_vouch.insert(voucher, state.now));
        assert(next.effects =~= prior.effects + seq![
            laws_terms::transfer(token, voucher, state.contract, amounts[n]),
            laws_terms::announcement(
                Event::VouchAdded { voucher, borrower: b, stake: amounts[n], token },
            ),
        ]);
        assert forall|i: int|
            #![trigger borrowers[i]]
            0 <= i < borrowers.len() implies takes_in(
            next.effects,
            state.effects.len() + 2 * i,
            state.contract,
            VouchRecord { voucher, stake: amounts[i], vouch_timestamp: state.now, token },
            borrowers[i],
        ) by {
            if i < n {
                assert(bs[i] == borrowers[i]);
            }
        }
        assert forall|i: int| 0 <= i < state.effects.len() implies #[trigger] next.effects[i]
            == state.effects[i] by {
            assert(prior.effects[i] == state.effects[i]);
        }
    }
}

/// Each borrower of a batch gains one record with the amount that it came with, dated now; nobody
/// else gains or loses one. The voucher signs once and pays each stake.
pub proof fn batch_adds_one_record_each(
    state: State,
    voucher: Address,
    borrowers: Seq<Address>,
    amounts: Seq<i128>,
    token: Address,
)
    requires
        state.batch_vouch_failure(voucher, borrowers, amounts, token) is None,
    ensures
        ({
            let next = state.batch_vouched(voucher, borrowers, amounts, token);
            let start = state.effects.len() + 1;
            &&& next == State {
                vouches: next.vouches,
                voucher_history: next.voucher_history,
                last_vouch: next.last_vouch,
                effects: next.effects,
                ..state
            }
            &&& forall|i: int|
                0 <= i < borrowers.len() ==> next.vouches.contains_key(#[trigger] borrowers[i])
                    && next.vouches[borrowers[i]] == laws_terms::backing(state, borrowers[i]).push(
                    VouchRecord { voucher, stake: amounts[i], vouch_timestamp: state.now, token },
                )
            &&& forall|b: Address|
                !borrowers.contains(b) ==> #[trigger] laws_terms::backing(next, b)
                    == laws_terms::backing(state, b)
            &&& laws_terms::backed(next, voucher) == laws_terms::backed(state, voucher) + borrowers
            &&& forall|v: Address|
                v != voucher ==> #[trigger] laws_terms::backed(next, v) == laws_terms::backed(
                    state,
                    v,
                )
            &&& next.last_vouch == state.last_vouch.insert(voucher, state.now)
            &&& next.effects.len() == start + 2 * borrowers.len()
            &&& next.effects.take(start as int) == state.effects.push(
                laws_terms::signature(voucher),
            )
            &&& forall|i: int|
                #![trigger borrowers[i]]
                0 <= i < borrowers.len() ==> takes_in(
                    next.effects,
                    start + 2 * i,
                    state.contract,
                    VouchRecord { voucher, stake: amounts[i], vouch_timestamp: state.now, token },
                    borrowers[i],
                )
        }),
{
    batch_is_accepted_exactly_when(state, voucher, borrowers, amounts, token);
    let signed = state.authorize(voucher);
    lemma_batch_after(signed, voucher, borrowers, amounts, token);
    let next = state.batch_vouched(voucher, borrowers, amounts, token);
    assert(next.effects.take(signed.effects.len() as int) =~= signed.effects);
    assert forall|b: Address| !borrowers.contains(b) implies #[trigger] laws_terms::backing(next, b)
        == laws_terms::backing(state, b) by {
        assert(laws_terms::backing(signed, b) == laws_terms::backing(state, b));
    }
    assert forall|v: Address| v != voucher implies #[trigger] laws_terms::backed(next, v)
        == laws_terms::backed(state, v) by {
        assert(laws_terms::backed(signed, v) == laws_terms::backed(state, v));
    }
    assert forall|i: int| 0 <= i < borrowers.len() implies next.vouches.contains_key(
        #[trigger] borrowers[i],
    ) && next.vouches[borrowers[i]] == laws_terms::backing(state, borrowers[i]).push(
        VouchRecord { voucher, stake: amounts[i], vouch_timestamp: state.now, token },
    ) by {
        assert(laws_terms::backing(signed, borrowers[i]) == laws_terms::backing(
            state,
            borrowers[i],
        ));
    }
}

/// A stake is raised exactly when the contract runs, the raise is positive, the voucher has a
/// vouch, its token is still accepted, and the sum can be stored.
pub proof fn increase_is_accepted_exactly_when(
    state: State,
    voucher: Address,
    borrower: Address,
    additional: i128,
    k: int,
)
    ensures
        ({
            let failure = state.increase_failure(voucher, borrower, additional);
            let list = laws_terms::backing(state, borrower);
            let runs = !state.paused;
            let positive = runs && additional > 0;
            let found = positive && laws_terms::is_first(list, voucher, k);
            let set_up = found && state.config is Some;
            let accepted = set_up && laws_terms::accepts(state, list[k].token);
            let storable = accepted && list[k].stake + additional <= i128::MAX;
            &&& storable ==> failure is None
            &&& !runs ==> failure == laws_terms::refusal(ContractError::ContractPaused)
            &&& runs && !positive ==> failure == laws_terms::refusal(
                ContractError::InsufficientFunds,
            )
            &&& positive && laws_terms::is_absent(list, voucher) ==> failure == laws_terms::trap(
                Trap::VouchNotFound,
            )
            &&& found && !set_up ==> failure == laws_terms::trap(Trap::NotInitialized)
            &&& set_up && !accepted ==> failure == laws_terms::refusal(ContractError::InvalidToken)
            &&& accepted && !storable ==> failure == laws_terms::trap(Trap::Overflow)
        }),
{
    let list = laws_terms::backing(state, borrower);
    laws_terms::look_ups_read_the_ledger(state, borrower, state.loan_counts);
    laws_terms::lemma_absent(list, voucher);
    if laws_terms::is_first(list, voucher, k) {
        laws_terms::lemma_first_is_unique(list, voucher, k);
        laws_terms::tokens_are_refused_unless_accepted(state, list[k].token);
    }
}

/// A raise lands on the voucher's own first vouch and on no other; the voucher signs, and hands
/// over the raise in that vouch's token.
pub proof fn increase_raises_the_own_vouch(
    state: State,
    voucher: Address,
    borrower: Address,
    additional: i128,
    k: int,
)
    requires
        state.increase_failure(voucher, borrower, additional) is None,
        laws_terms::is_first(laws_terms::backing(state, borrower), voucher, k),
    ensures
        ({
            let next = state.increased(voucher, borrower, additional);
            let list = laws_terms::backing(state, borrower);
            let after = laws_terms::backing(next, borrower);
            &&& next == State { vouches: next.vouches, effects: next.effects, ..state }
            &&& next.vouches == state.vouches.insert(borrower, after)
            &&& after.len() == list.len()
            &&& forall|j: int| 0 <= j < list.len() && j != k ==> #[trigger] after[j] == list[j]
            &&& after[k].stake == list[k].stake + additional
            &&& after[k].voucher == voucher
            &&& after[k].token == list[k].token
            &&& after[k].vouch_timestamp == list[k].vouch_timestamp
            &&& next.effects == state.effects + seq![
                laws_terms::signature(voucher),
                laws_terms::transfer(list[k].token, voucher, state.contract, additional),
            ]
        }),
{
    let list = laws_terms::backing(state, borrower);
    laws_terms::look_ups_read_the_ledger(state, borrower, state.loan_counts);
    laws_terms::lemma_first_is_unique(list, voucher, k);
    let next = state.increased(voucher, borrower, additional);
    assert(next.effects =~= state.effects + seq![
        laws_terms::signature(voucher),
        laws_terms::transfer(list[k].token, voucher, state.contract, additional),
    ]);
}

/// A stake is lowered exactly when the contract runs, the amount is positive, the borrower owes
/// nothing, the voucher has a vouch of at least the amount, and its token is still accepted.
pub proof fn decrease_is_accepted_exactly_when(
    state: State,
    voucher: Address,
    borrower: Address,
    amount: i128,
    k: int,
)
    ensures
        ({
            let failure = state.decrease_failure(voucher, borrower, amount);
            let list = laws_terms::backing(state, borrower);
            let runs = !state.paused;
            let positive = runs && amount > 0;
            let free = positive && !laws_terms::owes(state, borrower);
            let found = free && laws_terms::is_first(list, voucher, k);
            let covered = found && amount <= list[k].stake;
            let set_up = covered && state.config is Some;
            let accepted = set_up && laws_terms::accepts(state, list[k].token);
            &&& accepted ==> failure is None
            &&& !runs ==> failure == laws_terms::refusal(ContractError::ContractPaused)
            &&& runs && !positive ==> failure == laws_terms::trap(Trap::DecreaseNotPositive)
            &&& positive && !free ==> failure == laws_terms::trap(Trap::LoanAlreadyActive)
            &&& free && laws_terms::is_absent(list, voucher) ==> failure == laws_terms::trap(
                Trap::VouchNotFound,
            )
            &&& found && !covered ==> failure == laws_terms::trap(Trap::DecreaseExceedsStake)
            &&& covered && !set_up ==> failure == laws_terms::trap(Trap::NotInitialized)
            &&& set_up && !accepted ==> failure == laws_terms::refusal(ContractError::InvalidToken)
        }),
{
    let list = laws_terms::backing(state, borrower);
    laws_terms::look_ups_read_the_ledger(state, borrower, state.loan_counts);
    laws_terms::lemma_absent(list, voucher);
    if laws_terms::is_first(list, voucher, k) {
        laws_terms::lemma_first_is_unique(list, voucher, k);
        laws_terms::tokens_are_refused_unless_accepted(state, list[k].token);
    }
}

/// What is taken off leaves the voucher's own first vouch and no other, and is paid to the voucher
/// in that vouch's token. A vouch of which nothing is left leaves the list, and a list of which
/// nothing is left the ledger.
pub proof fn decrease_lowers_the_own_vouch(
    state: State,
    voucher: Address,
    borrower: Address,
    amount: i128,
    k: int,
)
    requires
        state.decrease_failure(voucher, borrower, amount) is None,
        laws_terms::is_first(laws_terms::backing(state, borrower), voucher, k),
    ensures
        ({
            let next = state.decreased(voucher, borrower, amount);
            let list = laws_terms::backing(state, borrower);
            let after = laws_terms::backing(next, borrower);
            &&& next == State { vouches: next.vouches, effects: next.effects, ..state }
            &&& next.vouches.remove(borrower) == state.vouches.remove(borrower)
            &&& next.vouches.contains_key(borrower) <==> after.len() > 0
            &&& amount == list[k].stake ==> after == list.take(k) + list.skip(k + 1)
            &&& amount != list[k].stake ==> {
                &&& after.len() == list.len()
                &&& forall|j: int| 0 <= j < list.len() && j != k ==> #[trigger] after[j] == list[j]
                &&& after[k].stake == list[k].stake - amount
                &&& after[k].voucher == voucher
                &&& after[k].token == list[k].token
                &&& after[k].vouch_timestamp == list[k].vouch_timestamp
            }
            &&& next.effects == state.effects + seq![
                laws_terms::signature(voucher),
                laws_terms::transfer(list[k].token, state.contract, voucher, amount),
            ]
        }),
{
    let list = laws_terms::backing(state, borrower);
    laws_terms::look_ups_read_the_ledger(state, borrower, state.loan_counts);
    laws_terms::lemma_first_is_unique(list, voucher, k);
    let next = state.decreased(voucher, borrower, amount);
    let after = laws_terms::backing(next, borrower);
    assert(next.vouches.remove(borrower) =~= state.vouches.remove(borrower));
    if amount == list[k].stake {
        assert(after =~= list.take(k) + list.skip(k + 1));
    }
    assert(next.effects =~= state.effects + seq![
        laws_terms::signature(voucher),
        laws_terms::transfer(list[k].token, state.contract, voucher, amount),
    ]);
}

/// A vouch is taken back exactly when the contract runs, the borrower owes nothing and has
/// vouches, one of them is the voucher's, and its token is still accepted.
pub proof fn withdrawal_is_accepted_exactly_when(
    state: State,
    voucher: Address,
    borrower: Address,
    k: int,
)
    ensures
        ({
            let failure = state.withdraw_failure(voucher, borrower);
            let list = laws_terms::backing(state, borrower);
            let runs = !state.paused;
            let free = runs && !laws_terms::owes(state, borrower);
            let known = free && state.vouches.contains_key(borrower);
            let found = known && laws_terms::is_first(list, voucher, k);
            let set_up = found && state.config is Some;
            let accepted = set_up && laws_terms::accepts(state, list[k].token);
            &&& accepted ==> failure is None
            &&& !runs ==> failure == laws_terms::refusal(ContractError::ContractPaused)
            &&& runs && !free ==> failure == laws_terms::trap(Trap::LoanAlreadyActive)
            &&& free && !known ==> failure == laws_terms::refusal(ContractError::NoActiveLoan)
            &&& known && laws_terms::is_absent(list, voucher) ==> failure == laws_terms::refusal(
                ContractError::UnauthorizedCaller,
            )
            &&& found && !set_up ==> failure == laws_terms::trap(Trap::NotInitialized)
            &&& set_up && !accepted ==> failure == laws_terms::refusal(ContractError::InvalidToken)
        }),
{
    let list = laws_terms::backing(state, borrower);
    laws_terms::look_ups_read_the_ledger(state, borrower, state.loan_counts);
    laws_terms::lemma_absent(list, voucher);
    if laws_terms::is_first(list, voucher, k) {
        laws_terms::lemma_first_is_unique(list, voucher, k);
        laws_terms::tokens_are_refused_unless_accepted(state, list[k].token);
    }
}

/// A voucher takes back its own vouch, wherever that stands in the list: the record that leaves is
/// under its own name, all others stay as they are and in order, and it is paid that record's
/// stake in that record's token.
pub proof fn withdrawal_returns_the_own_stake(state: State, voucher: Address, borrower: Address)
    requires
        state.withdraw_failure(voucher, borrower) is None,
    ensures
        ({
            let next = state.withdrawn(voucher, borrower);
            let list = laws_terms::backing(state, borrower);
            let after = laws_terms::backing(next, borrower);
            let others = |vouch: VouchRecord| vouch.voucher != voucher;
            &&& next == State { vouches: next.vouches, effects: next.effects, ..state }
            &&& next.vouches.remove(borrower) == state.vouches.remove(borrower)
            &&& next.vouches.contains_key(borrower) <==> after.len() > 0
            &&& after.filter(others) == list.filter(others)
            &&& exists|k: int| #[trigger]
                laws_terms::is_first(list, voucher, k) && after == list.take(k) + list.skip(k + 1)
                    && next.effects == state.effects + seq![
                    laws_terms::signature(voucher),
                    laws_terms::transfer(list[k].token, state.contract, voucher, list[k].stake),
                    laws_terms::announcement(
                        Event::VouchWithdrawn { voucher, borrower, stake: list[k].stake },
                    ),
                ]
        }),
{
    let list = laws_terms::backing(state, borrower);
    laws_terms::look_ups_read_the_ledger(state, borrower, state.loan_counts);
    laws_terms::lemma_absent(list, voucher);
    let k = vouch::first_vouch(list, voucher)->0;
    assert(laws_terms::is_first(list, voucher, k));
    let next = state.withdrawn(voucher, borrower);
    let after = laws_terms::backing(next, borrower);
    assert(next.vouches.remove(borrower) =~= state.vouches.remove(borrower));
    assert(after =~= list.take(k) + list.skip(k + 1));
    assert(next.effects =~= state.effects + seq![
        laws_terms::signature(voucher),
        laws_terms::transfer(list[k].token, state.contract, voucher, list[k].stake),
        laws_terms::announcement(Event::VouchWithdrawn { voucher, borrower, stake: list[k].stake }),
    ]);
    let others = |vouch: VouchRecord| vouch.voucher != voucher;
    lemma_struck_off(list, others, k);
}

/// To strike off an entry that is not picked leaves the picked ones as they are.
proof fn lemma_struck_off(list: Seq<VouchRecord>, pred: spec_fn(VouchRecord) -> bool, k: int)
    requires
        0 <= k < list.len(),
        !pred(list[k]),
    ensures
        (list.take(k) + list.skip(k + 1)).filter(pred) == list.filter(pred),
    decreases list.len(),
{
    let short = list.take(k) + list.skip(k + 1);
    reveal(Seq::filter);
    if k == list.len() - 1 {
        assert(short =~= list.drop_last());
    } else {
        let before = list.drop_last();
        lemma_struck_off(before, pred, k);
        assert(short.drop_last() =~= before.take(k) + before.skip(k + 1));
        assert(short.last() == list.last());
    }
}

/// A vouch changes hands exactly when the contract runs and either nothing is to be done or the
/// borrower owes nothing and has vouches, one of them is the giver's, and the stakes can be added
/// where the taker has a vouch in that token.
pub proof fn transfer_is_accepted_exactly_when(
    state: State,
    from: Address,
    to: Address,
    borrower: Address,
    k: int,
)
    ensures
        ({
            let failure = state.transfer_failure(from, to, borrower);
            let list = laws_terms::backing(state, borrower);
            let runs = !state.paused;
            let moving = runs && from != to;
            let free = moving && !laws_terms::owes(state, borrower);
            let known = free && state.vouches.contains_key(borrower);
            let found = known && laws_terms::is_first(list, from, k);
            let merging = found && stands_in(list, to, list[k].token);
            &&& !runs ==> failure == laws_terms::refusal(ContractError::ContractPaused)
            &&& runs && !moving ==> failure is None
            &&& moving && !free ==> failure == laws_terms::trap(Trap::LoanAlreadyActive)
            &&& free && !known ==> failure == laws_terms::refusal(ContractError::NoActiveLoan)
            &&& known && laws_terms::is_absent(list, from) ==> failure == laws_terms::refusal(
                ContractError::UnauthorizedCaller,
            )
            &&& found && !merging ==> failure is None
            &&& forall|j: int| #[trigger]
                is_first_in(list, to, list[k].token, j) && merging ==> failure == (if i128::MIN
                    <= list[j].stake + list[k].stake <= i128::MAX {
                    None
                } else {
                    laws_terms::trap(Trap::Overflow)
                })
        }),
{
    let list = laws_terms::backing(state, borrower);
    laws_terms::look_ups_read_the_ledger(state, borrower, state.loan_counts);
    laws_terms::lemma_absent(list, from);
    if laws_terms::is_first(list, from, k) {
        laws_terms::lemma_first_is_unique(list, from, k);
        vouch::lemma_first_vouch_in(list, to, list[k].token);
        assert forall|j: int| #[trigger]
            is_first_in(list, to, list[k].token, j) implies vouch::first_vouch_in(
            list,
            to,
            list[k].token,
        ) == Some(j) by {
            lemma_first_in_is_unique(list, to, list[k].token, j);
        }
    }
}

/// The first vouch of a voucher in one token stands at `k`.
pub open spec fn is_first_in(
    vouches: Seq<VouchRecord>,
    voucher: Address,
    token: Address,
    k: int,
) -> bool {
    &&& 0 <= k < vouches.len()
    &&& vouches[k].voucher == voucher
    &&& vouches[k].token == token
    &&& forall|j: int|
        0 <= j < k ==> (#[trigger] vouches[j]).voucher != voucher || vouches[j].token != token
}

proof fn lemma_first_in_is_unique(
    vouches: Seq<VouchRecord>,
    voucher: Address,
    token: Address,
    k: int,
)
    requires
        is_first_in(vouches, voucher, token, k),
    ensures
        vouch::first_vouch_in(vouches, voucher, token) == Some(k),
{
    vouch::lemma_first_vouch_in(vouches, voucher, token);
    assert(vouches[k].voucher == voucher);
    let i = vouch::first_vouch_in(vouches, voucher, token)->0;
    assert(vouches[i].voucher == voucher);
}

/// Where the taker has no vouch in the token of the one that is handed over, the record goes under
/// its name and stays what it is otherwise; all others stay. The giver signs; no token moves.
pub proof fn transfer_renames_the_vouch(
    state: State,
    from: Address,
    to: Address,
    borrower: Address,
    k: int,
)
    requires
        state.transfer_failure(from, to, borrower) is None,
        from != to,
        laws_terms::is_first(laws_terms::backing(state, borrower), from, k),
        !stands_in(
            laws_terms::backing(state, borrower),
            to,
            laws_terms::backing(state, borrower)[k].token,
        ),
    ensures
        ({
            let next = state.transferred(from, to, borrower);
            let list = laws_terms::backing(state, borrower);
            let after = laws_terms::backing(next, borrower);
            &&& next == State {
                vouches: next.vouches,
                voucher_history: next.voucher_history,
                effects: next.effects,
                ..state
            }
            &&& next.vouches == state.vouches.insert(borrower, after)
            &&& after.len() == list.len()
            &&& forall|j: int| 0 <= j < list.len() && j != k ==> #[trigger] after[j] == list[j]
            &&& after[k].voucher == to
            &&& after[k].stake == list[k].stake
            &&& after[k].token == list[k].token
            &&& after[k].vouch_timestamp == list[k].vouch_timestamp
            &&& next.effects == state.effects + seq![
                laws_terms::signature(from),
                laws_terms::announcement(
                    Event::VouchTransferred { from, to, borrower, stake: list[k].stake },
                ),
            ]
        }),
{
    let list = laws_terms::backing(state, borrower);
    laws_terms::look_ups_read_the_ledger(state, borrower, state.loan_counts);
    laws_terms::lemma_first_is_unique(list, from, k);
    vouch::lemma_first_vouch_in(list, to, list[k].token);
    let next = state.transferred(from, to, borrower);
    assert(next.effects =~= state.effects + seq![
        laws_terms::signature(from),
        laws_terms::announcement(
            Event::VouchTransferred { from, to, borrower, stake: list[k].stake },
        ),
    ]);
}

/// Where the taker has a vouch in that token, the stake joins it and the giver's record leaves the
/// list; all others stay. The giver signs; no token moves.
pub proof fn transfer_merges_the_stakes(
    state: State,
    from: Address,
    to: Address,
    borrower: Address,
    k: int,
    j: int,
)
    requires
        state.transfer_failure(from, to, borrower) is None,
        from != to,
        laws_terms::is_first(laws_terms::backing(state, borrower), from, k),
        is_first_in(
            laws_terms::backing(state, borrower),
            to,
            laws_terms::backing(state, borrower)[k].token,
            j,
        ),
    ensures
        ({
            let next = state.transferred(from, to, borrower);
            let list = laws_terms::backing(state, borrower);
            let after = laws_terms::backing(next, borrower);
            let moved = if j < k {
                j
            } else {
                j - 1
            };
            &&& next == State {
                vouches: next.vouches,
                voucher_history: next.voucher_history,
                effects: next.effects,
                ..state
            }
            &&& next.vouches == state.vouches.insert(borrower, after)
            &&& after.len() == list.len() - 1
            &&& forall|i: int| 0 <= i < k && i != j ==> #[trigger] after[i] == list[i]
            &&& forall|i: int|
                k < i < list.len() && i != j ==> after[i - 1] == #[trigger] list[i]
            &&& after[moved].stake == list[j].stake + list[k].stake
            &&& after[moved].voucher == to
            &&& after[moved].token == list[k].token
            &&& after[moved].vouch_timestamp == list[j].vouch_timestamp
            &&& next.effects == state.effects + seq![
                laws_terms::signature(from),
                laws_terms::announcement(
                    Event::VouchTransferred { from, to, borrower, stake: list[k].stake },
                ),
            ]
        }),
{
    let list = laws_terms::backing(state, borrower);
    laws_terms::look_ups_read_the_ledger(state, borrower, state.loan_counts);
    laws_terms::lemma_first_is_unique(list, from, k);
    lemma_first_in_is_unique(list, to, list[k].token, j);
    let next = state.transferred(from, to, borrower);
    assert(next.effects =~= state.effects + seq![
        laws_terms::signature(from),
        laws_terms::announcement(
            Event::VouchTransferred { from, to, borrower, stake: list[k].stake },
        ),
    ]);
}

/// The borrower leaves the giver's history, once, and stands in the taker's: at the end if it was
/// not there. To hand a vouch to oneself takes a signature and changes nothing.
pub proof fn transfer_moves_the_history(
    state: State,
    from: Address,
    to: Address,
    borrower: Address,
)
    ensures
        ({
            let next = state.transferred(from, to, borrower);
            let given = laws_terms::backed(state, from);
            let taken = laws_terms::backed(state, to);
            &&& from == to ==> next == State {
                effects: state.effects + seq![laws_terms::signature(from)],
                ..state
            }
            &&& from != to && !given.contains(borrower) ==> laws_terms::backed(next, from) == given
            &&& from != to ==> forall|i: int|
                0 <= i < given.len() && #[trigger] given[i] == borrower && !given.take(i).contains(
                    borrower,
                ) ==> laws_terms::backed(next, from) == given.take(i) + given.skip(i + 1)
            &&& from != to && taken.contains(borrower) ==> laws_terms::backed(next, to) == taken
            &&& from != to && !taken.contains(borrower) ==> laws_terms::backed(next, to)
                == taken.push(borrower)
            &&& forall|other: Address|
                other != from && other != to ==> #[trigger] laws_terms::backed(next, other)
                    == laws_terms::backed(state, other)
        }),
{
    let next = state.transferred(from, to, borrower);
    let given = laws_terms::backed(state, from);
    laws_terms::look_ups_read_the_ledger(state, from, state.loan_counts);
    laws_terms::look_ups_read_the_ledger(state, to, state.loan_counts);
    if from == to {
        assert(next.effects =~= state.effects + seq![laws_terms::signature(from)]);
    } else {
        assert forall|i: int|
            0 <= i < given.len() && #[trigger] given[i] == borrower && !given.take(i).contains(
                borrower,
            ) implies laws_terms::backed(next, from) == given.take(i) + given.skip(i + 1) by {
            given.index_of_first_ensures(borrower);
            assert(given.contains(borrower));
            let at = given.index_of_first(borrower)->0;
            assert(at == i) by {
                if at < i {
                    assert(given.take(i)[at] == borrower);
                }
            }
            assert(laws_terms::backed(next, from) =~= given.take(i) + given.skip(i + 1));
        }
    }
}

} // verus!
