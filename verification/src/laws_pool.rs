//! What a loan pool does, told from the ledger before the call and the ledger after it: each
//! borrower of the pool gets a loan of its own, on the terms of every other loan.

use crate::address::Address;
use crate::env::{Effect, Event, State};
use crate::errors::{ContractError, Trap};
use crate::laws_loan;
use crate::laws_terms;
use crate::math;
use crate::pool;
use crate::types::{LoanStatus, LoanView};
use vstd::prelude::*;

verus! {

/// One borrower may be in a pool: not banned, with a positive amount, and owing nothing.
pub open spec fn may_be_pooled(state: State, borrower: Address, amount: i128) -> bool {
    !laws_terms::banned(state, borrower) && amount > 0 && !laws_terms::owes(state, borrower)
}

/// Nobody stands twice in the list.
pub open spec fn is_repetition_free(borrowers: Seq<Address>) -> bool {
    forall|i: int, j: int|
        0 <= i < j < borrowers.len() ==> #[trigger] borrowers[i] != #[trigger] borrowers[j]
}

proof fn lemma_items(state: State, borrowers: Seq<Address>, amounts: Seq<i128>)
    requires
        borrowers.len() == amounts.len(),
    ensures
        state.pool_items_failure(borrowers, amounts) is None <==> is_repetition_free(borrowers) && (
        forall|i: int|
            0 <= i < borrowers.len() ==> #[trigger] may_be_pooled(
                state,
                borrowers[i],
                amounts[i],
            )),
    decreases borrowers.len(),
{
    if borrowers.len() > 0 {
        let n = borrowers.len() - 1;
        let bs = borrowers.drop_last();
        let as_ = amounts.drop_last();
        let b = borrowers[n];
        lemma_items(state, bs, as_);
        laws_terms::look_ups_read_the_ledger(state, b, state.loan_counts);
        if bs.contains(b) {
            let i = choose|i: int| 0 <= i < bs.len() && bs[i] == b;
            assert(borrowers[i] == borrowers[n]);
        }
        if state.pool_items_failure(borrowers, amounts) is None {
            assert forall|i: int, j: int| 0 <= i < j < borrowers.len() implies #[trigger] borrowers[i]
                != #[trigger] borrowers[j] by {
                assert(bs[i] == borrowers[i]);
                if j < n {
                    assert(bs[i] != bs[j]);
                } else {
                    assert(bs.contains(bs[i]));
                }
            }
            assert forall|i: int| 0 <= i < borrowers.len() implies #[trigger] may_be_pooled(
                state,
                borrowers[i],
                amounts[i],
            ) by {
                if i < n {
                    assert(may_be_pooled(state, bs[i], as_[i]));
                }
            }
        }
        if is_repetition_free(borrowers) && (forall|i: int|
            0 <= i < borrowers.len() ==> #[trigger] may_be_pooled(
                state,
                borrowers[i],
                amounts[i],
            )) {
            assert forall|i: int, j: int| 0 <= i < j < bs.len() implies #[trigger] bs[i]
                != #[trigger] bs[j] by {
                assert(borrowers[i] != borrowers[j]);
            }
            assert forall|i: int| 0 <= i < bs.len() implies #[trigger] may_be_pooled(
                state,
                bs[i],
                as_[i],
            ) by {
                assert(may_be_pooled(state, borrowers[i], amounts[i]));
            }
            assert(may_be_pooled(state, borrowers[n], amounts[n]));
        }
    }
}

/// A pool is granted exactly when the admins approve, the contract runs, every borrower comes with
/// an amount and there is one, each may be pooled and nobody stands twice, the contract holds the
/// sum, and every loan can be booked.
pub proof fn pool_is_granted_exactly_when(
    state: State,
    signers: Seq<Address>,
    borrowers: Seq<Address>,
    amounts: Seq<i128>,
    contract_balance: i128,
)
    ensures
        ({
            let failure = state.pool_failure(signers, borrowers, amounts, contract_balance);
            let ints = amounts.map_values(|amount: i128| amount as int);
            let config = state.config->0;
            let approved = laws_terms::approved(state, signers);
            let runs = approved && !state.paused;
            let paired = runs && borrowers.len() == amounts.len();
            let filled = paired && borrowers.len() > 0;
            let pooled = filled && is_repetition_free(borrowers) && forall|i: int|
                0 <= i < borrowers.len() ==> #[trigger] may_be_pooled(
                    state,
                    borrowers[i],
                    amounts[i],
                );
            let summed = pooled && math::adds_up(ints);
            let funded = summed && contract_balance >= math::sum(ints);
            let storable = funded && state.now + config.loan_duration <= u64::MAX && forall|i: int|
                0 <= i < borrowers.len() ==> laws_loan::is_storable(
                    #[trigger] amounts[i] * config.yield_bps,
                ) && laws_terms::tally(state.loan_counts, borrowers[i]) < u32::MAX;
            let numbered = storable && state.loan_counter + borrowers.len() <= u64::MAX;
            let filed = numbered && state.pool_counter < u64::MAX;
            &&& filed <==> failure is None
            &&& !approved ==> failure == state.approval_failure(signers)
            &&& approved && !runs ==> failure == laws_terms::refusal(ContractError::ContractPaused)
            &&& runs && !paired ==> failure == laws_terms::refusal(
                ContractError::PoolLengthMismatch,
            )
            &&& paired && !filled ==> failure == laws_terms::refusal(ContractError::PoolEmpty)
            &&& filled && !pooled ==> failure == state.pool_items_failure(borrowers, amounts)
            &&& pooled && !summed ==> failure == laws_terms::trap(Trap::Overflow)
            &&& summed && !funded ==> failure == laws_terms::refusal(
                ContractError::InsufficientFunds,
            )
            &&& funded && !storable ==> failure == laws_terms::trap(Trap::Overflow)
            &&& storable && !numbered ==> failure == laws_terms::trap(Trap::LoanIdOverflow)
            &&& numbered && !filed ==> failure == laws_terms::trap(Trap::PoolIdOverflow)
        }),
{
    let ints = amounts.map_values(|amount: i128| amount as int);
    laws_terms::signers_are_refused_unless_they_approve(state, signers);
    assert(pool::as_ints(amounts) =~= ints);
    if borrowers.len() == amounts.len() {
        lemma_items(state, borrowers, amounts);
    }
    let rate = state.config->0.yield_bps;
    let each = forall|i: int|
        0 <= i < borrowers.len() ==> laws_loan::is_storable(#[trigger] amounts[i] * rate)
            && laws_terms::tally(state.loan_counts, borrowers[i]) < u32::MAX;
    let bookable = forall|i: int|
        0 <= i < borrowers.len() ==> #[trigger] state.is_bookable(borrowers[i], amounts[i]);
    assert(each == bookable) by {
        if each {
            assert forall|i: int| 0 <= i < borrowers.len() implies #[trigger] state.is_bookable(
                borrowers[i],
                amounts[i],
            ) by {
                assert(laws_loan::is_storable(amounts[i] * rate));
            }
        }
        if bookable {
            assert forall|i: int| 0 <= i < borrowers.len() implies laws_loan::is_storable(
                #[trigger] amounts[i] * rate,
            ) && laws_terms::tally(state.loan_counts, borrowers[i]) < u32::MAX by {
                assert(state.is_bookable(borrowers[i], amounts[i]));
            }
        }
    }
}

/// A pool is refused for its first borrower that may not be pooled, with the reason that this one
/// has.
pub proof fn pool_gives_the_first_reason(
    state: State,
    borrowers: Seq<Address>,
    amounts: Seq<i128>,
    k: int,
)
    requires
        borrowers.len() == amounts.len(),
        0 <= k < borrowers.len(),
        is_repetition_free(borrowers.take(k)),
        forall|i: int|
            0 <= i < k ==> #[trigger] may_be_pooled(state, borrowers[i], amounts[i]),
    ensures
        ({
            let failure = state.pool_items_failure(borrowers, amounts);
            let welcome = !laws_terms::banned(state, borrowers[k]);
            let positive = welcome && amounts[k] > 0;
            let free = positive && !laws_terms::owes(state, borrowers[k]) && !borrowers.take(
                k,
            ).contains(borrowers[k]);
            &&& !welcome ==> failure == laws_terms::refusal(ContractError::Blacklisted)
            &&& welcome && !positive ==> failure == laws_terms::refusal(
                ContractError::InsufficientFunds,
            )
            &&& positive && !free ==> failure == laws_terms::refusal(
                ContractError::PoolBorrowerActiveLoan,
            )
        }),
{
    let bs = borrowers.take(k);
    let as_ = amounts.take(k);
    assert forall|i: int| 0 <= i < bs.len() implies #[trigger] may_be_pooled(
        state,
        bs[i],
        as_[i],
    ) by {
        assert(may_be_pooled(state, borrowers[i], amounts[i]));
    }
    lemma_items(state, bs, as_);
    laws_terms::look_ups_read_the_ledger(state, borrowers[k], state.loan_counts);
    assert(borrowers.take(k + 1).drop_last() =~= bs);
    assert(amounts.take(k + 1).drop_last() =~= as_);
    if state.pool_items_failure(borrowers.take(k + 1), amounts.take(k + 1)) is Some {
        lemma_refused_from(state, borrowers, amounts, k + 1);
    }
}

proof fn lemma_refused_from(state: State, borrowers: Seq<Address>, amounts: Seq<i128>, k: int)
    requires
        borrowers.len() == amounts.len(),
        0 <= k <= borrowers.len(),
        state.pool_items_failure(borrowers.take(k), amounts.take(k)) is Some,
    ensures
        state.pool_items_failure(borrowers, amounts) == state.pool_items_failure(
            borrowers.take(k),
            amounts.take(k),
        ),
    decreases borrowers.len() - k,
{
    if k < borrowers.len() {
        assert(borrowers.take(k + 1).drop_last() =~= borrowers.take(k));
        assert(amounts.take(k + 1).drop_last() =~= amounts.take(k));
        lemma_refused_from(state, borrowers, amounts, k + 1);
    } else {
        assert(borrowers.take(k) =~= borrowers);
        assert(amounts.take(k) =~= amounts);
    }
}

/// The loan has the terms of one that is granted on this ledger under this id.
pub open spec fn has_terms(
    state: State,
    loan: LoanView,
    id: int,
    borrower: Address,
    amount: i128,
    token: Address,
) -> bool {
    &&& loan.id == id
    &&& loan.borrower == borrower
    &&& loan.co_borrowers.len() == 0
    &&& loan.amount == amount
    &&& loan.amount_repaid == 0
    &&& amount >= 0 && state.config->0.yield_bps >= 0 ==> laws_terms::rounded_down(
        loan.total_yield as int,
        amount * state.config->0.yield_bps,
        10_000,
    )
    &&& loan.status == LoanStatus::Active
    &&& loan.created_at == state.now
    &&& loan.disbursement_timestamp == state.now
    &&& loan.repayment_timestamp is None
    &&& loan.deadline == state.now + state.config->0.loan_duration
    &&& loan.loan_purpose.len() == 0
    &&& loan.token_address == token
}

/// From `at` on, the effects pay one loan out: the amount leaves for the borrower, and the loan is
/// announced.
pub open spec fn pays_out(
    effects: Seq<Effect<Seq<Address>>>,
    at: int,
    contract: Address,
    loan: LoanView,
) -> bool {
    &&& effects[at] == laws_terms::transfer(
        loan.token_address,
        contract,
        loan.borrower,
        loan.amount,
    )
    &&& effects[at + 1] == laws_terms::announcement(
        Event::LoanDisbursed {
            borrower: loan.borrower,
            amount: loan.amount,
            deadline: loan.deadline,
        },
    )
}

/// The loan at one place of a pool is filed, active, counted and paid out.
pub open spec fn is_lent(
    state: State,
    next: State,
    i: int,
    borrower: Address,
    amount: i128,
    token: Address,
) -> bool {
    let id = (state.loan_counter + 1 + i) as u64;
    &&& next.loans.contains_key(id)
    &&& has_terms(state, next.loans[id], id as int, borrower, amount, token)
    &&& next.active_loans.contains_key(borrower)
    &&& next.active_loans[borrower] == id
    &&& next.latest_loans.contains_key(borrower)
    &&& next.latest_loans[borrower] == id
    &&& laws_terms::tally(next.loan_counts, borrower) == laws_terms::tally(
        state.loan_counts,
        borrower,
    ) + 1
    &&& pays_out(
        next.effects,
        state.effects.len() + 2 * i,
        state.contract,
        next.loans[id],
    )
}

/// A borrower's entries are what they were.
pub open spec fn is_untouched(state: State, next: State, borrower: Address) -> bool {
    &&& next.active_loans.contains_key(borrower) == state.active_loans.contains_key(borrower)
    &&& next.active_loans[borrower] == state.active_loans[borrower]
    &&& next.latest_loans.contains_key(borrower) == state.latest_loans.contains_key(borrower)
    &&& next.latest_loans[borrower] == state.latest_loans[borrower]
    &&& laws_terms::tally(next.loan_counts, borrower) == laws_terms::tally(
        state.loan_counts,
        borrower,
    )
}

#[verifier::rlimit(40)]
proof fn lemma_lent(
    state: State,
    borrowers: Seq<Address>,
    amounts: Seq<i128>,
    token: Address,
)
    requires
        borrowers.len() == amounts.len(),
        state.config is Some,
        is_repetition_free(borrowers),
        state.now + state.config->0.loan_duration <= u64::MAX,
        state.loan_counter + borrowers.len() <= u64::MAX,
        forall|i: int|
            0 <= i < borrowers.len() ==> #[trigger] state.is_bookable(borrowers[i], amounts[i]),
    ensures
        ({
            let next = state.disbursed_all(borrowers, amounts, token);
            &&& next == State {
                loans: next.loans,
                active_loans: next.active_loans,
                latest_loans: next.latest_loans,
                loan_counts: next.loan_counts,
                loan_counter: next.loan_counter,
                borrower_list: state.borrower_list + borrowers,
                effects: next.effects,
                ..state
            }
            &&& next.loan_counter == state.loan_counter + borrowers.len()
            &&& forall|i: int|
                #![trigger borrowers[i]]
                0 <= i < borrowers.len() ==> is_lent(
                    state,
                    next,
                    i,
                    borrowers[i],
                    amounts[i],
                    token,
                )
            &&& forall|b: Address|
                !borrowers.contains(b) ==> #[trigger] is_untouched(state, next, b)
            &&& forall|id: u64|
                !(state.loan_counter < id <= next.loan_counter) ==> (
                #[trigger] next.loans.contains_key(id)) == state.loans.contains_key(id)
                    && next.loans[id] == state.loans[id]
            &&& next.effects.len() == state.effects.len() + 2 * borrowers.len()
            &&& next.effects.take(state.effects.len() as int) == state.effects
        }),
    decreases borrowers.len(),
{
    let next = state.disbursed_all(borrowers, amounts, token);
    if borrowers.len() == 0 {
        assert(state.borrower_list + borrowers =~= state.borrower_list);
        assert(next.effects.take(state.effects.len() as int) =~= state.effects);
    } else {
        let n = borrowers.len() - 1;
        let bs = borrowers.drop_last();
        let as_ = amounts.drop_last();
        let b = borrowers[n];
        assert forall|i: int, j: int| 0 <= i < j < bs.len() implies #[trigger] bs[i]
            != #[trigger] bs[j] by {
            assert(borrowers[i] != borrowers[j]);
        }
        assert forall|i: int| 0 <= i < bs.len() implies #[trigger] state.is_bookable(
            bs[i],
            as_[i],
        ) by {
            assert(state.is_bookable(borrowers[i], amounts[i]));
        }
        lemma_lent(state, bs, as_, token);
        let prior = state.disbursed_all(bs, as_, token);
        assert(!bs.contains(b)) by {
            if bs.contains(b) {
                let i = choose|i: int| 0 <= i < bs.len() && bs[i] == b;
                assert(borrowers[i] == borrowers[n]);
            }
        }
        assert(is_untouched(state, prior, b));
        assert(state.is_bookable(borrowers[n], amounts[n]));
        laws_terms::look_ups_read_the_ledger(state, b, state.loan_counts);
        laws_terms::look_ups_read_the_ledger(prior, b, prior.loan_counts);
        assert(prior.booking_failure(b, amounts[n]) is None);
        laws_loan::disbursement_has_the_configured_terms(
            prior,
            b,
            seq![],
            amounts[n],
            seq![],
            token,
        );
        assert(next == prior.disbursed(b, seq![], amounts[n], seq![], token)) by {
            assert(Seq::<Address>::empty() =~= seq![]);
        }
        assert(state.borrower_list + borrowers =~= (state.borrower_list + bs).push(b));
        assert forall|i: int|
            #![trigger borrowers[i]]
            0 <= i < borrowers.len() implies is_lent(
            state,
            next,
            i,
            borrowers[i],
            amounts[i],
            token,
        ) by {
            if i < n {
                assert(bs[i] == borrowers[i]);
                assert(is_lent(state, prior, i, bs[i], as_[i], token));
                assert(borrowers[i] != borrowers[n]);
                assert(next.loan_counts.remove(b)[borrowers[i]] == prior.loan_counts.remove(
                    b,
                )[borrowers[i]]);
                assert(next.loan_counts.remove(b).contains_key(borrowers[i])
                    == prior.loan_counts.remove(b).contains_key(borrowers[i]));
            } else {
                assert(laws_terms::tally(prior.loan_counts, b) == laws_terms::tally(
                    state.loan_counts,
                    b,
                ));
            }
        }
        assert forall|c: Address| !borrowers.contains(c) implies #[trigger] is_untouched(
            state,
            next,
            c,
        ) by {
            assert(borrowers[n] == b);
            assert(!bs.contains(c)) by {
                if bs.contains(c) {
                    let i = choose|i: int| 0 <= i < bs.len() && bs[i] == c;
                    assert(borrowers[i] == c);
                }
            }
            assert(is_untouched(state, prior, c));
            assert(next.loan_counts.remove(b)[c] == prior.loan_counts.remove(b)[c]);
            assert(next.loan_counts.remove(b).contains_key(c) == prior.loan_counts.remove(
                b,
            ).contains_key(c));
        }
        assert(next.effects.take(state.effects.len() as int) =~= prior.effects.take(
            state.effects.len() as int,
        ));
    }
}

/// Each borrower of a pool gets the amount that it came with, in the protocol's token, as a loan of
/// its own under the next id, without co-borrowers or purpose, on the terms of every loan. The pool
/// is filed under the next pool id with its borrowers, its amounts and their sum. Nobody else's
/// loans change. The signers sign.
pub proof fn pool_lends_to_each(
    state: State,
    signers: Seq<Address>,
    borrowers: Seq<Address>,
    amounts: Seq<i128>,
    contract_balance: i128,
)
    requires
        state.pool_failure(signers, borrowers, amounts, contract_balance) is None,
    ensures
        ({
            let next = state.pooled(signers, borrowers, amounts);
            let signed = State {
                effects: state.effects + laws_terms::signatures(signers),
                ..state
            };
            let id = next.pool_counter;
            let filed = next.pools[id];
            &&& next == State {
                loans: next.loans,
                active_loans: next.active_loans,
                latest_loans: next.latest_loans,
                loan_counts: next.loan_counts,
                loan_counter: next.loan_counter,
                borrower_list: state.borrower_list + borrowers,
                pools: next.pools,
                pool_counter: next.pool_counter,
                effects: next.effects,
                ..state
            }
            &&& next.loan_counter == state.loan_counter + borrowers.len()
            &&& forall|i: int|
                #![trigger borrowers[i]]
                0 <= i < borrowers.len() ==> is_lent(
                    signed,
                    next,
                    i,
                    borrowers[i],
                    amounts[i],
                    state.config->0.token,
                )
            &&& forall|b: Address|
                !borrowers.contains(b) ==> #[trigger] is_untouched(state, next, b)
            &&& forall|old_id: u64|
                !(state.loan_counter < old_id <= next.loan_counter) ==> (
                #[trigger] next.loans.contains_key(old_id)) == state.loans.contains_key(old_id)
                    && next.loans[old_id] == state.loans[old_id]
            &&& next.effects.len() == signed.effects.len() + 2 * borrowers.len()
            &&& next.effects.take(signed.effects.len() as int) == signed.effects
            &&& id == state.pool_counter + 1
            &&& next.pools == state.pools.insert(id, filed)
            &&& filed.pool_id == id
            &&& filed.borrowers == borrowers
            &&& filed.amounts == amounts
            &&& filed.created_at == state.now
            &&& filed.total_disbursed == math::sum(
                amounts.map_values(|amount: i128| amount as int),
            )
        }),
{
    pool_is_granted_exactly_when(state, signers, borrowers, amounts, contract_balance);
    let signed = state.authorize_all(signers);
    let ints = amounts.map_values(|amount: i128| amount as int);
    assert(signed.effects =~= state.effects + laws_terms::signatures(signers));
    assert(signed == (State {
        effects: state.effects + laws_terms::signatures(signers),
        ..state
    }));
    assert forall|i: int| 0 <= i < borrowers.len() implies #[trigger] signed.is_bookable(
        borrowers[i],
        amounts[i],
    ) by {
        assert(laws_loan::is_storable(amounts[i] * state.config->0.yield_bps));
    }
    let token = state.config->0.token;
    lemma_lent(signed, borrowers, amounts, token);
    let lent = signed.disbursed_all(borrowers, amounts, token);
    let next = state.pooled(signers, borrowers, amounts);
    assert(pool::as_ints(amounts) =~= ints);
    assert(math::fits(math::sum(ints.take(ints.len() as int))));
    assert(ints.take(ints.len() as int) =~= ints);
    assert forall|i: int|
        #![trigger borrowers[i]]
        0 <= i < borrowers.len() implies is_lent(
        signed,
        next,
        i,
        borrowers[i],
        amounts[i],
        token,
    ) by {
        assert(is_lent(signed, lent, i, borrowers[i], amounts[i], token));
    }
    assert forall|b: Address| !borrowers.contains(b) implies #[trigger] is_untouched(
        state,
        next,
        b,
    ) by {
        assert(is_untouched(signed, lent, b));
    }
}

} // verus!
