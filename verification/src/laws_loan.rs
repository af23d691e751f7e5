//! What borrowing and repaying do, told from the ledger before a call and the ledger after it: who
//! gets a loan and on which terms, and who gets how much when it is repaid.

use crate::address::Address;
use crate::env::{Effect, Event, State};
use crate::errors::{ContractError, Trap};
use crate::laws_terms;
use crate::loan;
use crate::math;
use crate::types::{LoanStatus, LoanView, VouchRecord};
use crate::vouch;
use vstd::prelude::*;

verus! {

/// An `i128` can hold the number.
pub open spec fn is_storable(x: int) -> bool {
    i128::MIN <= x <= i128::MAX
}

/// What stands behind a borrower in one token, added up.
pub open spec fn collateral(state: State, borrower: Address, token: Address) -> int {
    math::sum(
        laws_terms::backing(state, borrower).map_values(
            |vouch: VouchRecord|
                if vouch.token == token {
                    vouch.stake as int
                } else {
                    0
                },
        ),
    )
}

/// What stands behind a borrower in all tokens, added up.
pub open spec fn total_backing(state: State, borrower: Address) -> int {
    math::sum(
        laws_terms::backing(state, borrower).map_values(|vouch: VouchRecord| vouch.stake as int),
    )
}

proof fn lemma_collateral(state: State, borrower: Address, token: Address)
    ensures
        state.stake_in(borrower, token) == collateral(state, borrower, token),
        state.total_stake(borrower) == total_backing(state, borrower),
{
    let list = laws_terms::backing(state, borrower);
    laws_terms::look_ups_read_the_ledger(state, borrower, state.loan_counts);
    assert(vouch::stakes_in(list, token) =~= list.map_values(
        |vouch: VouchRecord|
            if vouch.token == token {
                vouch.stake as int
            } else {
                0
            },
    ));
    assert(vouch::stakes(list) =~= list.map_values(|vouch: VouchRecord| vouch.stake as int));
}

/// A loan can be booked exactly when the contract is set up, the deadline, the yield and the
/// borrower's count can be stored, and an id is left.
pub proof fn loan_is_bookable_exactly_when(state: State, borrower: Address, amount: i128)
    ensures
        ({
            let failure = state.booking_failure(borrower, amount);
            let config = state.config->0;
            let set_up = state.config is Some;
            let storable = set_up && state.now + config.loan_duration <= u64::MAX && is_storable(
                amount * config.yield_bps,
            ) && laws_terms::tally(state.loan_counts, borrower) < u32::MAX;
            let numbered = storable && state.loan_counter < u64::MAX;
            &&& numbered <==> failure is None
            &&& !set_up ==> failure == laws_terms::trap(Trap::NotInitialized)
            &&& set_up && !storable ==> failure == laws_terms::trap(Trap::Overflow)
            &&& storable && !numbered ==> failure == laws_terms::trap(Trap::LoanIdOverflow)
        }),
{
}

/// A loan is granted exactly when the contract runs, the borrower is not banned and owes nothing,
/// the token is accepted, the amount lies within the limits, the stake in the token reaches the
/// threshold, comes from enough vouchers and covers the amount at the ratio, the contract holds the
/// amount, and the loan can be booked. Otherwise the first of these that does not hold is the
/// reason given.
pub proof fn request_is_granted_exactly_when(
    state: State,
    borrower: Address,
    amount: i128,
    threshold: i128,
    token: Address,
    contract_balance: i128,
)
    ensures
        ({
            let failure = state.request_failure(
                borrower,
                amount,
                threshold,
                token,
                contract_balance,
            );
            let config = state.config->0;
            let list = laws_terms::backing(state, borrower);
            let stake = collateral(state, borrower, token);
            let in_token = list.filter(|vouch: VouchRecord| vouch.token == token);
            let runs = !state.paused;
            let welcome = runs && !laws_terms::banned(state, borrower);
            let set_up = welcome && state.config is Some;
            let accepted = set_up && laws_terms::accepts(state, token);
            let large = accepted && amount >= config.min_loan_amount;
            let posed = large && threshold > 0;
            let small = posed && (state.max_loan_amount <= 0 || amount <= state.max_loan_amount);
            let free = small && !laws_terms::owes(state, borrower);
            let summed = free && math::adds_up(vouch::stakes_in(list, token));
            let backed = summed && stake >= threshold;
            let spread = backed && in_token.len() >= state.min_vouchers;
            let rated = spread && is_storable(stake * config.max_loan_to_stake_ratio);
            let covered = rated && amount * 100 <= stake * config.max_loan_to_stake_ratio;
            let funded = covered && contract_balance >= amount;
            let bookable = funded && state.booking_failure(borrower, amount) is None;
            &&& bookable <==> failure is None
            &&& !runs ==> failure == laws_terms::refusal(ContractError::ContractPaused)
            &&& runs && !welcome ==> failure == laws_terms::refusal(ContractError::Blacklisted)
            &&& welcome && !set_up ==> failure == laws_terms::trap(Trap::NotInitialized)
            &&& set_up && !accepted ==> failure == laws_terms::refusal(ContractError::InvalidToken)
            &&& accepted && !large ==> failure == laws_terms::trap(Trap::LoanBelowMinimum)
            &&& large && !posed ==> failure == laws_terms::trap(Trap::ThresholdNotPositive)
            &&& posed && !small ==> failure == laws_terms::refusal(
                ContractError::LoanExceedsMaxAmount,
            )
            &&& small && !free ==> failure == laws_terms::trap(Trap::BorrowerHasActiveLoan)
            &&& free && !summed ==> failure == laws_terms::trap(Trap::Overflow)
            &&& summed && !backed ==> failure == laws_terms::refusal(
                ContractError::InsufficientFunds,
            )
            &&& backed && !spread ==> failure == laws_terms::refusal(
                ContractError::InsufficientVouchers,
            )
            &&& spread && !rated ==> failure == laws_terms::trap(Trap::Overflow)
            &&& rated && !covered ==> failure == laws_terms::trap(Trap::CollateralRatioExceeded)
            &&& covered && !funded ==> failure == laws_terms::refusal(
                ContractError::InsufficientFunds,
            )
            &&& funded && !bookable ==> failure == state.booking_failure(borrower, amount)
        }),
{
    let list = laws_terms::backing(state, borrower);
    laws_terms::look_ups_read_the_ledger(state, borrower, state.loan_counts);
    laws_terms::tokens_are_refused_unless_accepted(state, token);
    lemma_collateral(state, borrower, token);
    assert(loan::in_token(token) =~= (|vouch: VouchRecord| vouch.token == token));
    if state.config is Some {
        let ratio = state.config->0.max_loan_to_stake_ratio as int;
        let stake = collateral(state, borrower, token);
        let limit = stake * ratio;
        if stake >= threshold && threshold > 0 {
            assert(limit >= 0) by (nonlinear_arith)
                requires
                    limit == stake * ratio,
                    stake >= 0,
                    ratio >= 0,
            ;
            laws_terms::division_rounds_towards_zero(limit, 100);
        }
    }
}

/// A loan that is paid out is active, runs from now for the configured time, bears the configured
/// yield and is filed under the next id. The borrower joins the list, and is paid the amount.
pub proof fn disbursement_has_the_configured_terms(
    state: State,
    borrower: Address,
    co_borrowers: Seq<Address>,
    amount: i128,
    loan_purpose: Seq<u8>,
    token: Address,
)
    requires
        state.booking_failure(borrower, amount) is None,
    ensures
        ({
            let next = state.disbursed(borrower, co_borrowers, amount, loan_purpose, token);
            let granted = laws_terms::filed(next, borrower);
            &&& next == State {
                loans: next.loans,
                active_loans: next.active_loans,
                latest_loans: next.latest_loans,
                loan_counts: next.loan_counts,
                loan_counter: next.loan_counter,
                borrower_list: next.borrower_list,
                effects: next.effects,
                ..state
            }
            &&& laws_terms::owes(next, borrower)
            &&& granted.id == state.loan_counter + 1
            &&& granted.borrower == borrower
            &&& granted.co_borrowers == co_borrowers
            &&& granted.amount == amount
            &&& granted.amount_repaid == 0
            &&& amount >= 0 && state.config->0.yield_bps >= 0 ==> laws_terms::rounded_down(
                granted.total_yield as int,
                amount * state.config->0.yield_bps,
                10_000,
            )
            &&& granted.created_at == state.now
            &&& granted.disbursement_timestamp == state.now
            &&& granted.repayment_timestamp is None
            &&& granted.deadline == state.now + state.config->0.loan_duration
            &&& granted.loan_purpose == loan_purpose
            &&& granted.token_address == token
            &&& next.loan_counter == state.loan_counter + 1
            &&& next.loans == state.loans.insert(next.loan_counter, granted)
            &&& next.active_loans == state.active_loans.insert(borrower, next.loan_counter)
            &&& next.latest_loans == state.latest_loans.insert(borrower, next.loan_counter)
            &&& laws_terms::tally(next.loan_counts, borrower) == laws_terms::tally(
                state.loan_counts,
                borrower,
            ) + 1
            &&& next.loan_counts.remove(borrower) == state.loan_counts.remove(borrower)
            &&& next.borrower_list == state.borrower_list.push(borrower)
            &&& next.effects == state.effects + seq![
                laws_terms::transfer(token, state.contract, borrower, amount),
                laws_terms::announcement(
                    Event::LoanDisbursed { borrower, amount, deadline: granted.deadline },
                ),
            ]
        }),
{
    let next = state.disbursed(borrower, co_borrowers, amount, loan_purpose, token);
    let granted = laws_terms::filed(next, borrower);
    let rate = state.config->0.yield_bps;
    math::lemma_quotient_fits(amount * rate, 10_000);
    if amount >= 0 && rate >= 0 {
        laws_terms::basis_points_round_down(amount as int, rate as int);
    }
    assert(next.loan_counts.remove(borrower) =~= state.loan_counts.remove(borrower));
    assert(next.effects =~= state.effects + seq![
        laws_terms::transfer(token, state.contract, borrower, amount),
        laws_terms::announcement(
            Event::LoanDisbursed { borrower, amount, deadline: granted.deadline },
        ),
    ]);
}

/// The terms of a loan that is granted: its deadline is the present time and the configured
/// duration, however long that is; its yield the configured rate of the amount, rounded down; it is
/// active, and nothing of it repaid. The borrower and all co-borrowers sign, and the borrower is
/// paid the whole amount.
pub proof fn loan_has_the_configured_terms(
    state: State,
    borrower: Address,
    co_borrowers: Seq<Address>,
    amount: i128,
    threshold: i128,
    loan_purpose: Seq<u8>,
    token: Address,
    contract_balance: i128,
)
    requires
        state.request_failure(borrower, amount, threshold, token, contract_balance) is None,
    ensures
        ({
            let next = state.requested(borrower, co_borrowers, amount, loan_purpose, token);
            let granted = laws_terms::filed(next, borrower);
            &&& next == State {
                loans: next.loans,
                active_loans: next.active_loans,
                latest_loans: next.latest_loans,
                loan_counts: next.loan_counts,
                loan_counter: next.loan_counter,
                borrower_list: next.borrower_list,
                effects: next.effects,
                ..state
            }
            &&& laws_terms::owes(next, borrower)
            &&& next.active_loan(borrower) == Some(granted)
            &&& granted.deadline == state.now + state.config->0.loan_duration
            &&& amount >= 0 && state.config->0.yield_bps >= 0 ==> laws_terms::rounded_down(
                granted.total_yield as int,
                amount * state.config->0.yield_bps,
                10_000,
            )
            &&& granted.id == state.loan_counter + 1
            &&& granted.borrower == borrower
            &&& granted.co_borrowers == co_borrowers
            &&& granted.amount == amount
            &&& granted.amount_repaid == 0
            &&& granted.created_at == state.now
            &&& granted.disbursement_timestamp == state.now
            &&& granted.repayment_timestamp is None
            &&& granted.loan_purpose == loan_purpose
            &&& granted.token_address == token
            &&& next.loan_counter == state.loan_counter + 1
            &&& next.loans == state.loans.insert(next.loan_counter, granted)
            &&& next.active_loans == state.active_loans.insert(borrower, next.loan_counter)
            &&& next.latest_loans == state.latest_loans.insert(borrower, next.loan_counter)
            &&& laws_terms::tally(next.loan_counts, borrower) == laws_terms::tally(
                state.loan_counts,
                borrower,
            ) + 1
            &&& next.loan_counts.remove(borrower) == state.loan_counts.remove(borrower)
            &&& next.borrower_list == state.borrower_list.push(borrower)
            &&& next.effects == state.effects + seq![laws_terms::signature(borrower)]
                + laws_terms::signatures(co_borrowers) + seq![
                laws_terms::transfer(token, state.contract, borrower, amount),
                laws_terms::announcement(
                    Event::LoanDisbursed { borrower, amount, deadline: granted.deadline },
                ),
            ]
        }),
{
    let signed = state.authorize(borrower).authorize_all(co_borrowers);
    request_is_granted_exactly_when(state, borrower, amount, threshold, token, contract_balance);
    assert(signed.effects =~= state.effects + seq![laws_terms::signature(borrower)]
        + laws_terms::signatures(co_borrowers));
    assert(signed.booking_failure(borrower, amount) == state.booking_failure(borrower, amount));
    disbursement_has_the_configured_terms(
        signed,
        borrower,
        co_borrowers,
        amount,
        loan_purpose,
        token,
    );
    let next = state.requested(borrower, co_borrowers, amount, loan_purpose, token);
    laws_terms::look_ups_read_the_ledger(next, borrower, next.loan_counts);
}

/// The protocol's fee: with a treasury to take it, the rate of the amount rounded down, for
/// everybody, referred or not; else nothing. What is below 0 mirrors what is above.
pub proof fn fee_is_the_rate_of_the_amount(state: State, loan: LoanView)
    ensures
        state.fee_treasury is Some && loan.amount >= 0 ==> laws_terms::rounded_down(
            state.protocol_fee(loan),
            loan.amount * state.protocol_fee_bps,
            10_000,
        ),
        state.fee_treasury is Some && loan.amount <= 0 ==> laws_terms::rounded_down(
            -state.protocol_fee(loan),
            -(loan.amount * state.protocol_fee_bps),
            10_000,
        ),
        state.fee_treasury is None ==> state.protocol_fee(loan) == 0,
{
    let product = loan.amount * state.protocol_fee_bps;
    assert((loan.amount >= 0 ==> product >= 0) && (loan.amount <= 0 ==> product <= 0))
        by (nonlinear_arith)
        requires
            product == loan.amount * state.protocol_fee_bps,
            state.protocol_fee_bps >= 0,
    ;
    laws_terms::division_rounds_towards_zero(product, 10_000);
}

/// The referrer's bonus: the most whole units that exceed neither the rate of the amount nor the
/// yield; nothing where nobody referred the borrower.
pub proof fn bonus_is_the_rate_of_the_amount(state: State, loan: LoanView)
    requires
        loan.amount >= 0,
    ensures
        ({
            let bonus = state.referral_bonus(loan);
            let product = loan.amount * state.referral_bonus_bps;
            &&& !state.referrers.contains_key(loan.borrower) ==> bonus == 0
            &&& state.referrers.contains_key(loan.borrower) ==> {
                &&& bonus <= loan.total_yield
                &&& bonus * 10_000 <= product
                &&& bonus == loan.total_yield || product < (bonus + 1) * 10_000
            }
        }),
{
    laws_terms::basis_points_round_down(loan.amount as int, state.referral_bonus_bps as int);
}

/// The share of a stake in the yield: in proportion to all stakes together, rounded down.
pub proof fn share_is_in_proportion(stake: int, pool: int, total: int)
    requires
        stake >= 0,
        pool >= 0,
    ensures
        total > 0 ==> laws_terms::rounded_down(
            loan::yield_share(stake, pool, total),
            pool * stake,
            total,
        ),
        total <= 0 ==> loan::yield_share(stake, pool, total) == 0,
{
    assert(pool * stake >= 0) by (nonlinear_arith)
        requires
            pool >= 0,
            stake >= 0,
    ;
    if total > 0 {
        laws_terms::division_rounds_towards_zero(pool * stake, total);
    }
}

/// The loan that is on file is paid off by this payment.
pub open spec fn pays_off(state: State, borrower: Address, payment: i128) -> bool {
    laws_terms::filed(state, borrower).amount_repaid + payment >= laws_terms::filed(
        state,
        borrower,
    ).amount
}

/// A payment is accepted exactly when the contract runs, a loan is on file under the payer's name
/// and active, its deadline is not past, the payment is positive and no more than what is owed of
/// principal and yield, and, if it pays the loan off, the loan can be settled.
pub proof fn payment_is_accepted_exactly_when(
    state: State,
    borrower: Address,
    payment: i128,
    contract_balance: i128,
)
    ensures
        ({
            let failure = state.repay_failure(borrower, payment, contract_balance);
            let loan = laws_terms::filed(state, borrower);
            let owed = loan.amount + loan.total_yield - loan.amount_repaid;
            let settlement = state.settlement_failure(loan, payment, contract_balance);
            let runs = !state.paused;
            let known = runs && laws_terms::on_file(state, borrower);
            let own = known && loan.borrower == borrower;
            let active = own && loan.status == LoanStatus::Active;
            let timely = active && state.now <= loan.deadline;
            let countable = timely && is_storable(loan.amount + loan.total_yield) && is_storable(
                owed,
            );
            let fitting = countable && 0 < payment <= owed;
            let storable = fitting && is_storable(loan.amount_repaid + payment);
            let final_one = storable && pays_off(state, borrower, payment);
            &&& failure is None <==> storable && (final_one ==> settlement is None)
            &&& !runs ==> failure == laws_terms::refusal(ContractError::ContractPaused)
            &&& runs && !known ==> failure == laws_terms::refusal(ContractError::NoActiveLoan)
            &&& known && !own ==> failure == laws_terms::refusal(ContractError::UnauthorizedCaller)
            &&& own && !active ==> failure == laws_terms::refusal(ContractError::NoActiveLoan)
            &&& active && !timely ==> failure == laws_terms::trap(Trap::DeadlinePassed)
            &&& timely && !countable ==> failure == laws_terms::trap(Trap::Overflow)
            &&& countable && !fitting ==> failure == laws_terms::trap(Trap::InvalidPayment)
            &&& fitting && !storable ==> failure == laws_terms::trap(Trap::Overflow)
            &&& final_one ==> failure == settlement
        }),
{
    laws_terms::look_ups_read_the_ledger(state, borrower, state.loan_counts);
}

/// What a vouch draws in the loan's token when the loan is repaid: its share of the yield, and its
/// stake if that is in the same token.
pub open spec fn draws(state: State, loan: LoanView, vouch: VouchRecord) -> int {
    loan::yield_share(
        vouch.stake as int,
        loan.total_yield - state.referral_bonus(loan),
        total_backing(state, loan.borrower),
    ) + if vouch.token == loan.token_address {
        vouch.stake as int
    } else {
        0
    }
}

/// What all vouches, the referrer and the protocol draw together in the loan's token.
pub open spec fn drawn(state: State, loan: LoanView) -> int {
    math::sum(
        laws_terms::backing(state, loan.borrower).map_values(
            |vouch: VouchRecord| draws(state, loan, vouch),
        ),
    ) + state.referral_bonus(loan) + state.protocol_fee(loan)
}

/// A settlement fails only where a number in it cannot be stored, or where the contract with the
/// payment does not hold all that is drawn.
pub proof fn settlement_is_refused_exactly_when(
    state: State,
    loan: LoanView,
    payment: i128,
    contract_balance: i128,
)
    ensures
        ({
            let failure = state.settlement_failure(loan, payment, contract_balance);
            let list = laws_terms::backing(state, loan.borrower);
            let total = total_backing(state, loan.borrower);
            let bonus = state.referral_bonus(loan);
            let pool = loan.total_yield - bonus;
            let amounts = list.map_values(|vouch: VouchRecord| draws(state, loan, vouch));
            let extras_fit = (state.referrers.contains_key(loan.borrower) ==> is_storable(
                loan.amount * state.referral_bonus_bps,
            )) && (state.fee_treasury is Some ==> is_storable(
                loan.amount * state.protocol_fee_bps,
            )) && is_storable(pool);
            let shares_fit = math::adds_up(vouch::stakes(list)) && (forall|i: int|
                0 <= i < list.len() ==> (total > 0 ==> is_storable(
                    pool * (#[trigger] list[i]).stake,
                )) && (list[i].token == loan.token_address ==> is_storable(
                    draws(state, loan, list[i]),
                ))) && math::adds_up(amounts);
            let totals_fit = is_storable(math::sum(amounts) + bonus) && is_storable(
                drawn(state, loan),
            ) && is_storable(contract_balance + payment);
            let fits = extras_fit && shares_fit && totals_fit && laws_terms::tally(
                state.repayment_counts,
                loan.borrower,
            ) < u32::MAX;
            &&& !fits ==> failure == laws_terms::trap(Trap::Overflow)
            &&& fits && contract_balance + payment < drawn(state, loan) ==> failure
                == laws_terms::trap(Trap::InsufficientYieldBalance)
            &&& fits && contract_balance + payment >= drawn(state, loan) ==> failure is None
        }),
{
    let list = laws_terms::backing(state, loan.borrower);
    let total = total_backing(state, loan.borrower);
    let pool = loan.total_yield - state.referral_bonus(loan);
    let amounts = list.map_values(|vouch: VouchRecord| draws(state, loan, vouch));
    laws_terms::look_ups_read_the_ledger(state, loan.borrower, state.repayment_counts);
    lemma_collateral(state, loan.borrower, loan.token_address);
    assert(loan::payout_amounts(list, loan.token_address, pool, total) =~= amounts);
    assert forall|i: int| 0 <= i < list.len() implies loan::payout_fits(
        #[trigger] list[i],
        loan.token_address,
        pool,
        total,
    ) == ((total > 0 ==> is_storable(pool * list[i].stake)) && (list[i].token
        == loan.token_address ==> is_storable(draws(state, loan, list[i])))) by {}
    let each = forall|i: int|
        0 <= i < list.len() ==> (total > 0 ==> is_storable(pool * (#[trigger] list[i]).stake)) && (
        list[i].token == loan.token_address ==> is_storable(draws(state, loan, list[i])));
    let each_fits = forall|i: int|
        0 <= i < list.len() ==> loan::payout_fits(
            #[trigger] list[i],
            loan.token_address,
            pool,
            total,
        );
    assert(each == each_fits) by {
        if each {
            assert forall|i: int| 0 <= i < list.len() implies loan::payout_fits(
                #[trigger] list[i],
                loan.token_address,
                pool,
                total,
            ) by {}
        }
        if each_fits {
            assert forall|i: int| 0 <= i < list.len() implies (total > 0 ==> is_storable(
                pool * (#[trigger] list[i]).stake,
            )) && (list[i].token == loan.token_address ==> is_storable(
                draws(state, loan, list[i]),
            )) by {
                assert(loan::payout_fits(list[i], loan.token_address, pool, total));
            }
        }
    }
}

/// A payment that leaves a part of the principal open is taken from the borrower and booked, and
/// changes nothing else; the borrower and all co-borrowers sign.
pub proof fn part_payment_is_booked(
    state: State,
    borrower: Address,
    payment: i128,
    contract_balance: i128,
)
    requires
        state.wf(),
        state.repay_failure(borrower, payment, contract_balance) is None,
        !pays_off(state, borrower, payment),
    ensures
        ({
            let next = state.repaid(borrower, payment);
            let loan = laws_terms::filed(state, borrower);
            let after = laws_terms::filed(next, borrower);
            &&& next == State { loans: next.loans, effects: next.effects, ..state }
            &&& next.loans == state.loans.insert(state.active_loans[borrower], after)
            &&& after.amount_repaid == loan.amount_repaid + payment
            &&& after == LoanView { amount_repaid: after.amount_repaid, ..loan }
            &&& next.effects == state.effects + seq![laws_terms::signature(borrower)]
                + laws_terms::signatures(loan.co_borrowers) + seq![
                laws_terms::transfer(loan.token_address, borrower, state.contract, payment),
            ]
        }),
{
    let loan = laws_terms::filed(state, borrower);
    laws_terms::look_ups_read_the_ledger(state, borrower, state.loan_counts);
    assert(state.loan_wf(loan.id)) by {
        assert(state.loan_wf(state.active_loans[borrower]));
    }
    let next = state.repaid(borrower, payment);
    assert(next.effects =~= state.effects + seq![laws_terms::signature(borrower)]
        + laws_terms::signatures(loan.co_borrowers) + seq![
        laws_terms::transfer(loan.token_address, borrower, state.contract, payment),
    ]);
}

/// What is paid to a referrer or to the protocol: one payment, if there is anything to pay.
pub open spec fn paid_if_any(token: Address, from: Address, to: Address, amount: int) -> Seq<
    Effect<Seq<Address>>,
> {
    if amount > 0 {
        seq![laws_terms::transfer(token, from, to, amount as i128)]
    } else {
        seq![]
    }
}

/// The payment that pays a loan off closes it as repaid now, counts for the borrower and clears
/// the vouches. The payment comes in; the vouchers, the referrer and the treasury are paid; a
/// reputation point is minted where reputation is kept.
pub proof fn last_payment_settles_the_loan(
    state: State,
    borrower: Address,
    payment: i128,
    contract_balance: i128,
)
    requires
        state.wf(),
        state.repay_failure(borrower, payment, contract_balance) is None,
        pays_off(state, borrower, payment),
    ensures
        ({
            let next = state.repaid(borrower, payment);
            let loan = laws_terms::filed(state, borrower);
            let id = state.active_loans[borrower];
            let closed = next.loans[id];
            let token = loan.token_address;
            &&& next == State {
                loans: next.loans,
                active_loans: next.active_loans,
                repayment_counts: next.repayment_counts,
                vouches: next.vouches,
                effects: next.effects,
                ..state
            }
            &&& next.loans == state.loans.insert(id, closed)
            &&& closed.amount_repaid == loan.amount_repaid + payment
            &&& closed.status == LoanStatus::Repaid
            &&& closed.repayment_timestamp == Some(state.now)
            &&& closed == LoanView {
                amount_repaid: closed.amount_repaid,
                status: closed.status,
                repayment_timestamp: closed.repayment_timestamp,
                ..loan
            }
            &&& next.active_loans == state.active_loans.remove(borrower)
            &&& next.vouches == state.vouches.remove(borrower)
            &&& laws_terms::tally(next.repayment_counts, borrower) == laws_terms::tally(
                state.repayment_counts,
                borrower,
            ) + 1
            &&& next.repayment_counts.remove(borrower) == state.repayment_counts.remove(borrower)
            &&& next.effects == state.effects + (seq![laws_terms::signature(borrower)]
                + laws_terms::signatures(loan.co_borrowers) + seq![
                laws_terms::transfer(token, borrower, state.contract, payment),
            ] + laws_terms::outgoing(state.voucher_payouts(loan), state.contract) + paid_if_any(
                token,
                state.contract,
                state.referrers[borrower],
                state.referral_bonus(loan),
            ) + paid_if_any(
                token,
                state.contract,
                state.fee_treasury->0,
                state.protocol_fee(loan),
            ) + (match state.reputation_nft {
                Some(nft) => seq![Effect::MintReputation { nft, to: borrower }],
                None => seq![],
            }) + seq![
                laws_terms::announcement(Event::LoanRepaid { borrower, amount: loan.amount }),
            ])
        }),
{
    let loan = laws_terms::filed(state, borrower);
    laws_terms::look_ups_read_the_ledger(state, borrower, state.repayment_counts);
    assert(state.loan_wf(state.active_loans[borrower]));
    let next = state.repaid(borrower, payment);
    let token = loan.token_address;
    assert(next.repayment_counts.remove(borrower) =~= state.repayment_counts.remove(borrower));
    let collected = state.effects + (seq![laws_terms::signature(borrower)]
        + laws_terms::signatures(loan.co_borrowers) + seq![
        laws_terms::transfer(token, borrower, state.contract, payment),
    ]);
    assert(state.payment_collected(loan, payment).effects =~= collected);
    let paid = state.payment_collected(loan, payment).pay_all(state.voucher_payouts(loan));
    assert(paid.effects =~= collected + laws_terms::outgoing(
        state.voucher_payouts(loan),
        state.contract,
    ));
    let bonus = paid_if_any(
        token,
        state.contract,
        state.referrers[borrower],
        state.referral_bonus(loan),
    );
    let fee = paid_if_any(
        token,
        state.contract,
        state.fee_treasury->0,
        state.protocol_fee(loan),
    );
    let extra = paid.extras_paid(loan, state.referral_bonus(loan), state.protocol_fee(loan));
    assert(extra.effects =~= paid.effects + bonus + fee);
    let minted = match state.reputation_nft {
        Some(nft) => seq![Effect::MintReputation { nft, to: borrower }],
        None => seq![],
    };
    let rewarded = extra.reputation_minted(borrower);
    assert(rewarded.effects =~= extra.effects + minted);
    let told = rewarded.publish(Event::LoanRepaid { borrower, amount: loan.amount });
    assert(next.effects == told.effects);
    assert(told.effects =~= rewarded.effects + seq![
        laws_terms::announcement(Event::LoanRepaid { borrower, amount: loan.amount }),
    ]);
    assert(next.effects =~= state.effects + (seq![laws_terms::signature(borrower)]
        + laws_terms::signatures(loan.co_borrowers) + seq![
        laws_terms::transfer(token, borrower, state.contract, payment),
    ] + laws_terms::outgoing(state.voucher_payouts(loan), state.contract) + bonus + fee + minted
        + seq![laws_terms::announcement(Event::LoanRepaid { borrower, amount: loan.amount })]));
}

/// Where there is a treasury, the last payment of a loan pays it the protocol's fee in the loan's
/// token, whoever else is paid: a referrer does not lower it.
pub proof fn treasury_is_paid_the_fee(
    state: State,
    borrower: Address,
    payment: i128,
    contract_balance: i128,
)
    requires
        state.wf(),
        state.repay_failure(borrower, payment, contract_balance) is None,
        pays_off(state, borrower, payment),
        state.fee_treasury is Some,
        laws_terms::filed(state, borrower).amount * state.protocol_fee_bps >= 10_000,
    ensures
        ({
            let loan = laws_terms::filed(state, borrower);
            let effects = state.repaid(borrower, payment).effects;
            exists|i: int, fee: i128|
                #![trigger laws_terms::transfer(
                    loan.token_address,
                    state.contract,
                    state.fee_treasury->0,
                    fee,
                ), effects[i]]
                state.effects.len() <= i < effects.len() && laws_terms::rounded_down(
                    fee as int,
                    loan.amount * state.protocol_fee_bps,
                    10_000,
                ) && effects[i] == laws_terms::transfer(
                    loan.token_address,
                    state.contract,
                    state.fee_treasury->0,
                    fee,
                )
        }),
{
    last_payment_settles_the_loan(state, borrower, payment, contract_balance);
    let loan = laws_terms::filed(state, borrower);
    laws_terms::look_ups_read_the_ledger(state, borrower, state.repayment_counts);
    assert(state.loan_wf(state.active_loans[borrower]));
    fee_is_the_rate_of_the_amount(state, loan);
    math::lemma_quotient_fits(loan.amount * state.protocol_fee_bps, 10_000);
    let fee = state.protocol_fee(loan) as i128;
    assert(fee > 0);
    let effects = state.repaid(borrower, payment).effects;
    let token = loan.token_address;
    let before = seq![laws_terms::signature(borrower)] + laws_terms::signatures(
        loan.co_borrowers,
    ) + seq![laws_terms::transfer(token, borrower, state.contract, payment)]
        + laws_terms::outgoing(state.voucher_payouts(loan), state.contract) + paid_if_any(
        token,
        state.contract,
        state.referrers[borrower],
        state.referral_bonus(loan),
    );
    let i = (state.effects.len() + before.len()) as int;
    assert(effects[i] == laws_terms::transfer(
        token,
        state.contract,
        state.fee_treasury->0,
        fee,
    ));
}

/// When a loan is repaid every voucher gets back its stake in its own token and, in the loan's
/// token, the share of the yield that is in proportion to the stake, rounded down: together with
/// the stake where the tokens are the same, else as a payment of its own.
pub proof fn vouchers_get_stake_and_share(
    state: State,
    borrower: Address,
    payment: i128,
    contract_balance: i128,
)
    requires
        state.wf(),
        state.repay_failure(borrower, payment, contract_balance) is None,
        pays_off(state, borrower, payment),
    ensures
        ({
            let loan = laws_terms::filed(state, borrower);
            let list = laws_terms::backing(state, borrower);
            let paid = state.voucher_payouts(loan);
            let pool = loan.total_yield - state.referral_bonus(loan);
            let total = total_backing(state, borrower);
            let others = list.filter(|vouch: VouchRecord| vouch.token != loan.token_address);
            &&& paid.len() == list.len() + others.len()
            &&& forall|i: int|
                #![trigger list[i]]
                0 <= i < list.len() ==> {
                    &&& paid[i].token == list[i].token
                    &&& paid[i].to == list[i].voucher
                    &&& list[i].token == loan.token_address ==> laws_terms::rounded_down(
                        paid[i].amount - list[i].stake,
                        pool * list[i].stake,
                        total,
                    )
                    &&& list[i].token != loan.token_address ==> paid[i].amount == list[i].stake
                }
            &&& forall|i: int|
                #![trigger others[i]]
                0 <= i < others.len() ==> {
                    &&& paid[list.len() + i].token == loan.token_address
                    &&& paid[list.len() + i].to == others[i].voucher
                    &&& laws_terms::rounded_down(
                        paid[list.len() + i].amount as int,
                        pool * others[i].stake,
                        total,
                    )
                }
        }),
{
    let loan = laws_terms::filed(state, borrower);
    let list = laws_terms::backing(state, borrower);
    let paid = state.voucher_payouts(loan);
    let pool = loan.total_yield - state.referral_bonus(loan);
    let total = total_backing(state, borrower);
    let is_other = |vouch: VouchRecord| vouch.token != loan.token_address;
    let others = list.filter(is_other);
    laws_terms::look_ups_read_the_ledger(state, borrower, state.repayment_counts);
    lemma_collateral(state, borrower, loan.token_address);
    assert(state.loan_wf(state.active_loans[borrower]));
    bonus_is_the_rate_of_the_amount(state, loan);
    assert(pool >= 0);
    assert(loan::in_other_token(loan.token_address) =~= is_other);
    assert(paid =~= list.map_values(loan::payout(loan.token_address, pool, total))
        + others.map_values(loan::share_payout(loan.token_address, pool, total)));
    let stakes = vouch::stakes(list);
    assert forall|i: int| 0 <= i < list.len() implies (#[trigger] list[i]).stake > 0
        && loan::payout_fits(list[i], loan.token_address, pool, total) && total > 0 by {
        assert(state.vouches.contains_key(borrower));
        assert forall|j: int| 0 <= j < stakes.len() implies #[trigger] stakes[j] >= 0 by {
            assert(list[j].stake > 0);
        }
        math::lemma_sum_monotone(stakes, 0);
        math::lemma_sum_step(stakes, 0);
        lemma_positive(stakes, i);
    }
    assert forall|i: int|
        #![trigger list[i]]
        0 <= i < list.len() implies {
        &&& paid[i].token == list[i].token
        &&& paid[i].to == list[i].voucher
        &&& list[i].token == loan.token_address ==> laws_terms::rounded_down(
            paid[i].amount - list[i].stake,
            pool * list[i].stake,
            total,
        )
        &&& list[i].token != loan.token_address ==> paid[i].amount == list[i].stake
    } by {
        share_is_in_proportion(list[i].stake as int, pool, total);
    }
    math::lemma_filter_contains(list, is_other);
    assert forall|i: int|
        #![trigger others[i]]
        0 <= i < others.len() implies {
        &&& paid[list.len() + i].token == loan.token_address
        &&& paid[list.len() + i].to == others[i].voucher
        &&& laws_terms::rounded_down(
            paid[list.len() + i].amount as int,
            pool * others[i].stake,
            total,
        )
    } by {
        assert(list.contains(others[i]));
        let j = choose|j: int| 0 <= j < list.len() && list[j] == others[i];
        assert(loan::payout_fits(list[j], loan.token_address, pool, total));
        share_is_in_proportion(others[i].stake as int, pool, total);
        math::lemma_quotient_fits(pool * others[i].stake, total);
    }
}

/// A sum of values of which none is negative and one positive is positive.
proof fn lemma_positive(s: Seq<int>, k: int)
    requires
        0 <= k < s.len(),
        s[k] > 0,
        forall|i: int| 0 <= i < s.len() ==> #[trigger] s[i] >= 0,
    ensures
        math::sum(s) > 0,
    decreases s.len(),
{
    let before = s.drop_last();
    assert forall|i: int| 0 <= i < before.len() implies #[trigger] before[i] >= 0 by {
        assert(s[i] >= 0);
    }
    if k < before.len() {
        lemma_positive(before, k);
        assert(s[s.len() - 1] >= 0);
    } else {
        math::lemma_sum_monotone(before, 0);
        assert(before.take(0) =~= Seq::empty());
    }
}

/// A referral records the referrer under the borrower's name, with the borrower's signature, in
/// place of one that was there.
pub proof fn referral_names_the_referrer(state: State, borrower: Address, referrer: Address)
    ensures
        state.referred(borrower, referrer) == (State {
            referrers: state.referrers.insert(borrower, referrer),
            effects: state.effects + seq![laws_terms::signature(borrower)],
            ..state
        }),
{
    assert(state.referred(borrower, referrer).effects =~= state.effects + seq![
        laws_terms::signature(borrower),
    ]);
}

} // verus!
