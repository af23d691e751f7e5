//! The terms that the laws on single operations are stated in, read straight off the ledger, and
//! what the arithmetic and the look-ups must satisfy.

use crate::address::Address;
use crate::env::{Effect, Event, Payment, State};
use crate::errors::{ContractError, Failure, Trap};
use crate::helpers;
use crate::loan;
use crate::math;
use crate::types::{LoanStatus, LoanView, VouchRecord};
use crate::vouch;
use vstd::prelude::*;

verus! {

// Terms.

/// The vouches stored for a borrower, none if there is no entry.
pub open spec fn backing(state: State, borrower: Address) -> Seq<VouchRecord> {
    if state.vouches.contains_key(borrower) {
        state.vouches[borrower]
    } else {
        seq![]
    }
}

/// The borrowers stored for a voucher, none if there is no entry.
pub open spec fn backed(state: State, voucher: Address) -> Seq<Address> {
    if state.voucher_history.contains_key(voucher) {
        state.voucher_history[voucher]
    } else {
        seq![]
    }
}

/// The borrower has an entry for an active loan, under which a loan is stored.
pub open spec fn on_file(state: State, borrower: Address) -> bool {
    state.active_loans.contains_key(borrower) && state.loans.contains_key(
        state.active_loans[borrower],
    )
}

/// The loan on file.
pub open spec fn filed(state: State, borrower: Address) -> LoanView {
    state.loans[state.active_loans[borrower]]
}

/// The borrower has a loan that is active.
pub open spec fn owes(state: State, borrower: Address) -> bool {
    on_file(state, borrower) && filed(state, borrower).status == LoanStatus::Active
}

/// The borrower has had a loan.
pub open spec fn has_borrowed(state: State, borrower: Address) -> bool {
    state.latest_loans.contains_key(borrower) && state.loans.contains_key(
        state.latest_loans[borrower],
    )
}

/// The number stored for an address, 0 if there is no entry.
pub open spec fn tally(counts: Map<Address, u32>, address: Address) -> int {
    if counts.contains_key(address) {
        counts[address] as int
    } else {
        0
    }
}

pub open spec fn banned(state: State, borrower: Address) -> bool {
    state.blacklist.contains_key(borrower) && state.blacklist[borrower]
}

/// The token is the protocol's or an allowed one.
pub open spec fn accepts(state: State, token: Address) -> bool {
    state.config is Some && (state.config->0.token == token || exists|i: int|
        0 <= i < state.config->0.allowed_tokens.len() && #[trigger] state.config->0.allowed_tokens[i]
            == token)
}

/// As many signers as the threshold, and each of them an admin.
pub open spec fn approved(state: State, signers: Seq<Address>) -> bool {
    &&& state.config is Some
    &&& signers.len() >= state.config->0.admin_threshold
    &&& forall|i: int|
        0 <= i < signers.len() ==> state.config->0.admins.contains(#[trigger] signers[i])
}

/// `q` is `n / d`, rounded down.
pub open spec fn rounded_down(q: int, n: int, d: int) -> bool {
    q * d <= n < (q + 1) * d
}

pub open spec fn trap(trap: Trap) -> Option<Failure> {
    Some(Failure::Trap(trap))
}

pub open spec fn refusal(error: ContractError) -> Option<Failure> {
    Some(Failure::Contract(error))
}

pub open spec fn signature(address: Address) -> Effect<Seq<Address>> {
    Effect::RequireAuth(address)
}

pub open spec fn transfer(token: Address, from: Address, to: Address, amount: i128) -> Effect<
    Seq<Address>,
> {
    Effect::Transfer { token, from, to, amount }
}

pub open spec fn announcement(event: Event<Seq<Address>>) -> Effect<Seq<Address>> {
    Effect::Publish(event)
}

/// One signature after another.
pub open spec fn signatures(addresses: Seq<Address>) -> Seq<Effect<Seq<Address>>> {
    Seq::new(addresses.len(), |i: int| signature(addresses[i]))
}

/// One payment out of the contract after another.
pub open spec fn outgoing(payments: Seq<Payment>, contract: Address) -> Seq<Effect<Seq<Address>>> {
    Seq::new(
        payments.len(),
        |i: int| transfer(payments[i].token, contract, payments[i].to, payments[i].amount),
    )
}

/// The first vouch of a voucher stands at `k`.
pub open spec fn is_first(vouches: Seq<VouchRecord>, voucher: Address, k: int) -> bool {
    &&& 0 <= k < vouches.len()
    &&& vouches[k].voucher == voucher
    &&& forall|j: int| 0 <= j < k ==> (#[trigger] vouches[j]).voucher != voucher
}

/// No vouch of the voucher stands in the list.
pub open spec fn is_absent(vouches: Seq<VouchRecord>, voucher: Address) -> bool {
    forall|j: int| 0 <= j < vouches.len() ==> (#[trigger] vouches[j]).voucher != voucher
}

// Arithmetic.

/// A sum grows by what is added, and starts at 0.
pub proof fn sums_grow_by_what_is_added(s: Seq<int>, x: int)
    ensures
        math::sum(seq![]) == 0,
        math::sum(s.push(x)) == math::sum(s) + x,
{
    assert(s.push(x).drop_last() =~= s);
}

/// Adding up goes wrong at the first sum that an `i128` does not hold, and only there.
pub proof fn adding_up_fails_at_the_first_overflow(s: Seq<int>, x: int)
    ensures
        math::adds_up(seq![]),
        math::adds_up(s.push(x)) <==> math::adds_up(s) && i128::MIN <= math::sum(s) + x
            <= i128::MAX,
        math::fits(x) <==> i128::MIN <= x <= i128::MAX,
{
    let longer = s.push(x);
    assert(seq![].take(0) =~= Seq::<int>::empty());
    sums_grow_by_what_is_added(s, x);
    assert(longer.take(longer.len() as int) =~= longer);
    assert forall|k: int| 0 <= k <= s.len() implies longer.take(k) == s.take(k) by {
        assert(longer.take(k) =~= s.take(k));
    }
    if math::adds_up(longer) {
        assert forall|k: int| 0 <= k <= s.len() implies math::fits(
            #[trigger] math::sum(s.take(k)),
        ) by {
            assert(longer.take(k) == s.take(k));
            assert(math::fits(math::sum(longer.take(k))));
        }
        assert(math::fits(math::sum(longer.take(longer.len() as int))));
    }
    if math::adds_up(s) && math::fits(math::sum(s) + x) {
        assert forall|k: int| 0 <= k <= longer.len() implies math::fits(
            #[trigger] math::sum(longer.take(k)),
        ) by {
            if k <= s.len() {
                assert(longer.take(k) == s.take(k));
                assert(math::fits(math::sum(s.take(k))));
            }
        }
    }
}

/// Division rounds down from 0 upwards, and mirrors below.
pub proof fn division_rounds_towards_zero(a: int, b: int)
    requires
        b > 0,
    ensures
        a >= 0 ==> rounded_down(math::quotient(a, b), a, b),
        a <= 0 ==> rounded_down(-math::quotient(a, b), -a, b),
        math::quotient(-a, b) == -math::quotient(a, b),
{
    let size = if a >= 0 {
        a
    } else {
        -a
    };
    let part = size / b;
    assert(part * b <= size < (part + 1) * b) by (nonlinear_arith)
        requires
            part == size / b,
            b > 0,
    ;
    if a == 0 {
        assert(0int / b == 0) by (nonlinear_arith)
            requires
                b > 0,
        ;
    }
}

/// Basis points of an amount are the ten-thousandth part of the product, rounded down.
pub proof fn basis_points_round_down(amount: int, rate: int)
    requires
        amount >= 0,
        rate >= 0,
    ensures
        rounded_down(math::bps(amount, rate), amount * rate, 10_000),
        math::bps(-amount, rate) == -math::bps(amount, rate),
{
    assert(amount * rate >= 0 && (-amount) * rate == -(amount * rate)) by (nonlinear_arith)
        requires
            amount >= 0,
            rate >= 0,
    ;
    division_rounds_towards_zero(amount * rate, 10_000);
}

/// Only one number is a quotient rounded down.
pub proof fn rounding_down_is_unambiguous(p: int, q: int, n: int, d: int)
    requires
        d > 0,
        rounded_down(p, n, d),
        rounded_down(q, n, d),
    ensures
        p == q,
{
    assert(p < q + 1 && q < p + 1) by (nonlinear_arith)
        requires
            d > 0,
            p * d <= n < (p + 1) * d,
            q * d <= n < (q + 1) * d,
    ;
}

// Look-ups.

/// What is looked up is what is stored.
pub proof fn look_ups_read_the_ledger(state: State, address: Address, counts: Map<Address, u32>)
    ensures
        state.vouches_of(address) == backing(state, address),
        state.history_of(address) == backed(state, address),
        state.active_loan(address) == (if on_file(state, address) {
            Some(filed(state, address))
        } else {
            None
        }),
        state.has_active_loan(address) == owes(state, address),
        state.latest_loan(address) == (if has_borrowed(state, address) {
            Some(state.loans[state.latest_loans[address]])
        } else {
            None
        }),
        State::count(counts, address) == tally(counts, address),
        state.is_blacklisted(address) == banned(state, address),
        state.last_vouch_of(address) == (if state.last_vouch.contains_key(address) {
            state.last_vouch[address]
        } else {
            0
        }),
{
    assert(state.vouches_of(address) =~= backing(state, address));
    assert(state.history_of(address) =~= backed(state, address));
}

/// The stakes of a list are the stakes of its vouches; those in another token count for nothing.
pub proof fn stakes_are_those_on_record(vouches: Seq<VouchRecord>, token: Address)
    ensures
        vouch::stakes(vouches).len() == vouches.len(),
        vouch::stakes_in(vouches, token).len() == vouches.len(),
        forall|i: int|
            0 <= i < vouches.len() ==> #[trigger] vouch::stakes(vouches)[i] == vouches[i].stake,
        forall|i: int|
            0 <= i < vouches.len() ==> #[trigger] vouch::stakes_in(vouches, token)[i] == (
            if vouches[i].token == token {
                vouches[i].stake as int
            } else {
                0
            }),
        forall|v: VouchRecord| #[trigger] loan::in_token(token)(v) == (v.token == token),
        forall|v: VouchRecord| #[trigger] loan::in_other_token(token)(v) == (v.token != token),
{
}

/// The stake behind a borrower is the sum of the stakes on record.
pub proof fn stake_behind_a_borrower(state: State, borrower: Address, token: Address)
    ensures
        state.total_stake(borrower) == math::sum(vouch::stakes(backing(state, borrower))),
        state.stake_in(borrower, token) == math::sum(
            vouch::stakes_in(backing(state, borrower), token),
        ),
{
    look_ups_read_the_ledger(state, borrower, state.loan_counts);
}

/// A voucher's vouch is the first one under its name.
pub proof fn vouch_of_a_voucher(state: State, voucher: Address, borrower: Address)
    ensures
        match state.vouch_of(voucher, borrower) {
            Some(vouch) => exists|k: int| #[trigger]
                is_first(backing(state, borrower), voucher, k) && backing(state, borrower)[k]
                    == vouch,
            None => is_absent(backing(state, borrower), voucher),
        },
{
    look_ups_read_the_ledger(state, borrower, state.loan_counts);
    vouch::lemma_first_vouch(state.vouches_of(borrower), voucher);
    if state.vouch_of(voucher, borrower) is Some {
        let k = vouch::first_vouch(state.vouches_of(borrower), voucher)->0;
        assert(is_first(backing(state, borrower), voucher, k));
    }
}

/// There is only one first vouch.
pub proof fn lemma_first_is_unique(vouches: Seq<VouchRecord>, voucher: Address, k: int)
    requires
        is_first(vouches, voucher, k),
    ensures
        vouch::first_vouch(vouches, voucher) == Some(k),
{
    vouch::lemma_first_vouch(vouches, voucher);
    let i = vouch::first_vouch(vouches, voucher)->0;
    assert(vouches[k].voucher == voucher);
    assert(vouches[i].voucher == voucher);
}

pub proof fn lemma_absent(vouches: Seq<VouchRecord>, voucher: Address)
    ensures
        is_absent(vouches, voucher) <==> vouch::first_vouch(vouches, voucher) is None,
        vouch::first_vouch(vouches, voucher) matches Some(k) ==> is_first(vouches, voucher, k),
{
    vouch::lemma_first_vouch(vouches, voucher);
}

// Checks that the operations share.

/// A token is refused unless it is the protocol's or an allowed one.
pub proof fn tokens_are_refused_unless_accepted(state: State, token: Address)
    ensures
        state.config is None ==> state.token_failure(token) == trap(Trap::NotInitialized),
        state.config is Some && !accepts(state, token) ==> state.token_failure(token) == refusal(
            ContractError::InvalidToken,
        ),
        accepts(state, token) ==> state.token_failure(token) is None,
{
    if state.config is Some {
        let allowed = state.config->0.allowed_tokens;
        assert(allowed.contains(token) <==> exists|i: int|
            0 <= i < allowed.len() && #[trigger] allowed[i] == token);
    }
}

/// Signers are refused unless enough of them sign and each is an admin.
pub proof fn signers_are_refused_unless_they_approve(state: State, signers: Seq<Address>)
    ensures
        state.config is None ==> state.approval_failure(signers) == trap(Trap::NotInitialized),
        state.config is Some && signers.len() < state.config->0.admin_threshold
            ==> state.approval_failure(signers) == trap(Trap::InsufficientApprovals),
        state.config is Some && signers.len() >= state.config->0.admin_threshold && !approved(
            state,
            signers,
        ) ==> state.approval_failure(signers) == trap(Trap::NotAnAdmin),
        approved(state, signers) ==> state.approval_failure(signers) is None,
        state.pause_failure() == (if state.paused {
            refusal(ContractError::ContractPaused)
        } else {
            None
        }),
{
}

/// A list of admins is refused at the first entry that is the zero address or a repetition.
pub proof fn admin_lists_are_refused_at_the_first_fault(
    admins: Seq<Address>,
    next: Address,
    threshold: u32,
)
    ensures
        helpers::admin_list_failure(seq![]) is None,
        helpers::admin_list_failure(admins) is Some ==> helpers::admin_list_failure(
            admins.push(next),
        ) == helpers::admin_list_failure(admins),
        helpers::admin_list_failure(admins) is None && next.is_zero()
            ==> helpers::admin_list_failure(admins.push(next)) == refusal(
            ContractError::ZeroAddress,
        ),
        helpers::admin_list_failure(admins) is None && !next.is_zero() && admins.contains(next)
            ==> helpers::admin_list_failure(admins.push(next)) == trap(Trap::DuplicateAdmin),
        helpers::admin_list_failure(admins) is None && !next.is_zero() && !admins.contains(next)
            ==> helpers::admin_list_failure(admins.push(next)) is None,
        admins.len() == 0 ==> helpers::admin_config_failure(admins, threshold) == trap(
            Trap::NoAdmins,
        ),
        admins.len() > 0 && threshold == 0 ==> helpers::admin_config_failure(admins, threshold)
            == trap(Trap::ZeroAdminThreshold),
        admins.len() > 0 && threshold > admins.len() ==> helpers::admin_config_failure(
            admins,
            threshold,
        ) == trap(Trap::AdminThresholdTooHigh),
        0 < threshold <= admins.len() ==> helpers::admin_config_failure(admins, threshold)
            == helpers::admin_list_failure(admins),
{
    assert(admins.push(next).drop_last() =~= admins);
}

/// The zero address is the one whose bytes are all 0.
pub proof fn zero_address_has_no_other_byte(address: Address)
    ensures
        address.is_zero() <==> (match address {
            Address::Account(key) => forall|i: int| 0 <= i < 32 ==> key@[i] == 0u8,
            Address::Contract(hash) => forall|i: int| 0 <= i < 32 ==> hash@[i] == 0u8,
        }),
{
    match address {
        Address::Account(key) => {
            assert(address.bytes() == key@);
        },
        Address::Contract(hash) => {
            assert(address.bytes() == hash@);
        },
    }
}

// What a call returns and asks of the host.

/// A failure is returned and changes nothing; otherwise the value is returned and the state is
/// the next one.
pub proof fn failures_change_nothing(state: State, next: State, failure: Failure, value: u64)
    ensures
        State::verdict::<u64>(Some(failure), value) == Err::<u64, Failure>(failure),
        State::verdict::<u64>(None, value) == Ok::<u64, Failure>(value),
        State::verdict::<()>(Some(failure), ()) == Err::<(), Failure>(failure),
        State::verdict::<()>(None, ()) == Ok::<(), Failure>(()),
        state.unless_failed(Some(failure), next) == state,
        state.unless_failed(None, next) == next,
{
}

/// What is asked of the host comes last, in order, and touches nothing else.
pub proof fn effects_are_appended(
    state: State,
    address: Address,
    addresses: Seq<Address>,
    token: Address,
    amount: i128,
    payments: Seq<Payment>,
    event: Event<Seq<Address>>,
)
    ensures
        state.authorize(address) == (State {
            effects: state.effects + seq![signature(address)],
            ..state
        }),
        state.authorize_all(addresses) == (State {
            effects: state.effects + signatures(addresses),
            ..state
        }),
        state.collect(token, address, amount) == (State {
            effects: state.effects + seq![transfer(token, address, state.contract, amount)],
            ..state
        }),
        state.pay(token, address, amount) == (State {
            effects: state.effects + seq![transfer(token, state.contract, address, amount)],
            ..state
        }),
        state.pay_all(payments) == (State {
            effects: state.effects + outgoing(payments, state.contract),
            ..state
        }),
        state.publish(event) == (State {
            effects: state.effects + seq![announcement(event)],
            ..state
        }),
{
    assert(state.authorize(address).effects =~= state.effects + seq![signature(address)]);
    assert(state.authorize_all(addresses).effects =~= state.effects + signatures(addresses));
    assert(state.collect(token, address, amount).effects =~= state.effects + seq![
        transfer(token, address, state.contract, amount),
    ]);
    assert(state.pay(token, address, amount).effects =~= state.effects + seq![
        transfer(token, state.contract, address, amount),
    ]);
    assert(state.pay_all(payments).effects =~= state.effects + outgoing(payments, state.contract));
    assert(state.publish(event).effects =~= state.effects + seq![announcement(event)]);
}

/// An empty ledger: nothing is stored, and the parameters that nobody has set are those of a new
/// contract.
pub proof fn empty_ledger_has_the_defaults(now: u64, contract: Address)
    ensures
        ({
            let state = State::genesis(now, contract);
            &&& state.now == now
            &&& state.contract == contract
            &&& state.config is None
            &&& state.deployer is None
            &&& state.fee_treasury is None
            &&& state.reputation_nft is None
            &&& !state.paused
            &&& state.slash_treasury == 0
            &&& state.min_stake == 0
            &&& state.max_loan_amount == 0
            &&& state.min_vouchers == 0
            &&& state.max_vouchers_per_borrower == 50
            &&& state.loan_counter == 0
            &&& state.pool_counter == 0
            &&& state.proposal_counter == 0
            &&& state.protocol_fee_bps == 0
            &&& state.referral_bonus_bps == 100
            &&& state.slash_vote_quorum == 5_000
            &&& state.borrower_list.len() == 0
            &&& state.effects.len() == 0
            &&& forall|b: Address| !#[trigger] state.vouches.contains_key(b)
            &&& forall|b: Address| !#[trigger] state.active_loans.contains_key(b)
            &&& forall|b: Address| !#[trigger] state.latest_loans.contains_key(b)
            &&& forall|b: Address| !#[trigger] state.slash_votes.contains_key(b)
            &&& forall|b: Address| !#[trigger] state.blacklist.contains_key(b)
            &&& forall|id: u64| !#[trigger] state.loans.contains_key(id)
            &&& forall|id: u64| !#[trigger] state.proposals.contains_key(id)
            &&& forall|id: u64| !#[trigger] state.pools.contains_key(id)
        }),
{
}

} // verus!
