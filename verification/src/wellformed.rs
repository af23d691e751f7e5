//! What holds of every state that the contract can reach.

use crate::address::Address;
use crate::admin;
use crate::env::State;
use crate::math;
use crate::pool;
use crate::slash::{self, Reach};
use crate::types::{
    LoanStatus, LoanView, SlashVoteView, VouchRecord,
};
use crate::vouch;
use vstd::prelude::*;

verus! {

/// A list of vouches behind one borrower: it is not empty, every stake is positive, and no
/// voucher is in it twice with the same token.
pub open spec fn vouch_list_wf(vouches: Seq<VouchRecord>) -> bool {
    &&& vouches.len() > 0
    &&& forall|i: int| 0 <= i < vouches.len() ==> (#[trigger] vouches[i]).stake > 0
    &&& forall|i: int, j: int|
        0 <= i < j < vouches.len() ==> !((#[trigger] vouches[i]).voucher == (
        #[trigger] vouches[j]).voucher && vouches[i].token == vouches[j].token)
}

/// Nobody votes twice, and stakes on either side are not negative.
pub open spec fn vote_wf(vote: SlashVoteView) -> bool {
    &&& vote.approve_stake >= 0
    &&& vote.reject_stake >= 0
    &&& vote.voters.no_duplicates()
}

impl State {
    pub open spec fn vouches_wf(self) -> bool {
        forall|b: Address| #[trigger]
            self.vouches.contains_key(b) ==> vouch_list_wf(self.vouches[b])
    }

    /// A loan is filed under its id, owes a positive amount, and is active as long as less than
    /// the principal is repaid and it has not defaulted.
    pub open spec fn loan_wf(self, id: u64) -> bool {
        let loan = self.loans[id];
        &&& loan.id == id
        &&& 1 <= id <= self.loan_counter
        &&& loan.amount > 0
        &&& loan.total_yield >= 0
        &&& 0 <= loan.amount_repaid <= loan.amount + loan.total_yield
        &&& loan.status != LoanStatus::NoLoan
        &&& (loan.status == LoanStatus::Repaid) == (loan.amount_repaid >= loan.amount)
        &&& (loan.status == LoanStatus::Repaid) == (loan.repayment_timestamp is Some)
        &&& loan.status == LoanStatus::Active ==> self.active_loans.contains_key(loan.borrower)
            && self.active_loans[loan.borrower] == id
        &&& self.latest_loans.contains_key(loan.borrower)
        &&& id <= self.latest_loans[loan.borrower]
    }

    /// Every borrower has at most one active loan, and it is the latest.
    pub open spec fn loans_wf(self) -> bool {
        &&& forall|id: u64| #[trigger] self.loans.contains_key(id) ==> self.loan_wf(id)
        &&& forall|b: Address| #[trigger]
            self.active_loans.contains_key(b) ==> {
                &&& self.loans.contains_key(self.active_loans[b])
                &&& self.loans[self.active_loans[b]].borrower == b
                &&& self.loans[self.active_loans[b]].status == LoanStatus::Active
                &&& self.latest_loans.contains_key(b)
                &&& self.latest_loans[b] == self.active_loans[b]
            }
        &&& forall|b: Address| #[trigger]
            self.latest_loans.contains_key(b) ==> {
                &&& self.loans.contains_key(self.latest_loans[b])
                &&& self.loans[self.latest_loans[b]].borrower == b
            }
    }

    /// Every loan of a borrower has been repaid, has defaulted, or is active.
    pub open spec fn counts_wf(self) -> bool {
        forall|b: Address| #[trigger]
            State::count(self.loan_counts, b) == State::count(self.repayment_counts, b)
                + State::count(self.default_counts, b) + if self.active_loans.contains_key(b) {
                1int
            } else {
                0
            }
    }

    /// The parameters are in range and no balance is negative.
    pub open spec fn books_wf(self) -> bool {
        &&& self.config is Some ==> admin::config_failure(self.config->0) is None
        &&& self.slash_treasury >= 0
        &&& self.min_stake >= 0
        &&& self.max_loan_amount >= 0
        &&& self.protocol_fee_bps <= 10_000
        &&& self.referral_bonus_bps <= 10_000
        &&& 1 <= self.slash_vote_quorum <= 10_000
    }

    /// A proposal is filed under its id and is not both executed and cancelled.
    pub open spec fn proposal_wf(self, id: u64) -> bool {
        let proposal = self.proposals[id];
        &&& proposal.id == id
        &&& 1 <= id <= self.proposal_counter
        &&& !(proposal.executed && proposal.cancelled)
    }

    pub open spec fn governance_wf(self) -> bool {
        &&& forall|b: Address| #[trigger]
            self.slash_votes.contains_key(b) ==> vote_wf(self.slash_votes[b])
        &&& forall|id: u64| #[trigger] self.proposals.contains_key(id) ==> self.proposal_wf(id)
    }

    /// A pool is filed under its id and disburses the sum of its amounts.
    pub open spec fn pool_wf(self, id: u64) -> bool {
        let pool = self.pools[id];
        &&& pool.pool_id == id
        &&& 1 <= id <= self.pool_counter
        &&& pool.borrowers.len() == pool.amounts.len()
        &&& pool.total_disbursed == math::sum(pool::as_ints(pool.amounts))
    }

    pub open spec fn pools_wf(self) -> bool {
        forall|id: u64| #[trigger] self.pools.contains_key(id) ==> self.pool_wf(id)
    }

    /// Everybody on the list of borrowers has had a loan.
    pub open spec fn list_wf(self) -> bool {
        forall|i: int|
            0 <= i < self.borrower_list.len() ==> self.latest_loan(
                #[trigger] self.borrower_list[i],
            ) is Some
    }

    /// The contract's invariant.
    pub open spec fn wf(self) -> bool {
        &&& self.vouches_wf()
        &&& self.loans_wf()
        &&& self.list_wf()
        &&& self.counts_wf()
        &&& self.books_wf()
        &&& self.governance_wf()
        &&& self.pools_wf()
    }
}

/// Adding a vouch that is no duplicate keeps the list in order.
proof fn lemma_list_push(vouches: Seq<VouchRecord>, record: VouchRecord)
    requires
        vouches.len() > 0 ==> vouch_list_wf(vouches),
        record.stake > 0,
        !vouch::has_vouch_in(vouches, record.voucher, record.token),
    ensures
        vouch_list_wf(vouches.push(record)),
{
    let list = vouches.push(record);
    assert forall|i: int, j: int| 0 <= i < j < list.len() implies !((#[trigger] list[i]).voucher
        == (#[trigger] list[j]).voucher && list[i].token == list[j].token) by {
        if j == vouches.len() {
            assert(list[i] == vouches[i]);
        } else {
            assert(list[i] == vouches[i] && list[j] == vouches[j]);
        }
    }
}

/// Taking a vouch away keeps the list in order.
proof fn lemma_list_remove(vouches: Seq<VouchRecord>, k: int)
    requires
        vouch_list_wf(vouches),
        0 <= k < vouches.len(),
    ensures
        vouches.remove(k).len() > 0 ==> vouch_list_wf(vouches.remove(k)),
{
    let list = vouches.remove(k);
    assert forall|i: int| 0 <= i < list.len() implies (#[trigger] list[i]).stake > 0 by {
        assert(list[i] == vouches[if i < k {
            i
        } else {
            i + 1
        }]);
    }
    assert forall|i: int, j: int| 0 <= i < j < list.len() implies !((#[trigger] list[i]).voucher
        == (#[trigger] list[j]).voucher && list[i].token == list[j].token) by {
        let p = if i < k {
            i
        } else {
            i + 1
        };
        let q = if j < k {
            j
        } else {
            j + 1
        };
        assert(list[i] == vouches[p] && list[j] == vouches[q]);
    }
}

/// A filtered list of vouches stays in order.
proof fn lemma_list_filter(vouches: Seq<VouchRecord>, pred: spec_fn(VouchRecord) -> bool)
    requires
        vouches.len() > 0 ==> vouch_list_wf(vouches),
    ensures
        vouches.filter(pred).len() > 0 ==> vouch_list_wf(vouches.filter(pred)),
        forall|i: int|
            0 <= i < vouches.filter(pred).len() ==> vouches.contains(
                #[trigger] vouches.filter(pred)[i],
            ),
    decreases vouches.len(),
{
    reveal(Seq::filter);
    if vouches.len() > 0 {
        let init = vouches.drop_last();
        let last = vouches.last();
        assert forall|i: int| 0 <= i < init.len() implies #[trigger] init[i] == vouches[i] by {}
        lemma_list_filter(init, pred);
        let kept = init.filter(pred);
        assert forall|i: int| 0 <= i < kept.len() implies vouches.contains(
            #[trigger] kept[i],
        ) by {
            let k = choose|k: int| 0 <= k < init.len() && init[k] == kept[i];
            assert(vouches[k] == kept[i]);
        }
        assert(vouches[vouches.len() - 1] == last);
        if pred(last) {
            assert(!vouch::has_vouch_in(kept, last.voucher, last.token)) by {
                if vouch::has_vouch_in(kept, last.voucher, last.token) {
                    let i = choose|i: int|
                        0 <= i < kept.len() && (#[trigger] kept[i]).voucher == last.voucher
                            && kept[i].token == last.token;
                    assert(init.contains(kept[i]));
                    let k = choose|k: int| 0 <= k < init.len() && init[k] == kept[i];
                    assert(vouches[k].voucher == vouches[vouches.len() - 1].voucher);
                }
            }
            lemma_list_push(kept, last);
        }
    }
}

/// Replacing one borrower's list by one in order, or by none, keeps the vouches in order.
proof fn lemma_with_vouches(state: State, borrower: Address, list: Seq<VouchRecord>)
    requires
        state.vouches_wf(),
        list.len() > 0 ==> vouch_list_wf(list),
    ensures
        state.with_vouches(borrower, list).vouches_wf(),
{
    let next = state.with_vouches(borrower, list);
    assert forall|b: Address| #[trigger] next.vouches.contains_key(b) implies vouch_list_wf(
        next.vouches[b],
    ) by {
        if b != borrower {
            assert(state.vouches.contains_key(b));
        }
    }
}

/// The empty ledger satisfies the invariant.
pub proof fn genesis_is_wf(now: u64, contract: Address)
    ensures
        State::genesis(now, contract).wf(),
{
}

proof fn lemma_pledged(
    state: State,
    voucher: Address,
    borrower: Address,
    stake: i128,
    token: Address,
    last: u64,
)
    requires
        state.wf(),
        state.pledge_failure(voucher, borrower, stake, token, last, false) is None,
    ensures
        state.pledged(voucher, borrower, stake, token).wf(),
{
    let next = state.pledged(voucher, borrower, stake, token);
    let list = state.vouches_of(borrower);
    let record = VouchRecord { voucher, stake, vouch_timestamp: state.now, token };
    lemma_list_push(list, record);
    assert forall|b: Address| #[trigger] next.vouches.contains_key(b) implies vouch_list_wf(
        next.vouches[b],
    ) by {
        if b != borrower {
            assert(state.vouches.contains_key(b));
        }
    }
    lemma_rest(state, next);
}

/// What does not touch loans, counts, books, votes, proposals or pools keeps their invariants.
proof fn lemma_rest(state: State, next: State)
    requires
        state.loans_wf() && state.counts_wf() && state.books_wf() && state.governance_wf()
            && state.pools_wf(),
        next == (State {
            now: next.now,
            deployer: next.deployer,
            vouches: next.vouches,
            voucher_history: next.voucher_history,
            last_vouch: next.last_vouch,
            blacklist: next.blacklist,
            whitelist: next.whitelist,
            referrers: next.referrers,
            paused: next.paused,
            min_vouchers: next.min_vouchers,
            max_vouchers_per_borrower: next.max_vouchers_per_borrower,
            fee_treasury: next.fee_treasury,
            reputation_nft: next.reputation_nft,
            effects: next.effects,
            borrower_list: next.borrower_list,
            ..state
        }),
    ensures
        next.loans_wf() && next.counts_wf() && next.books_wf() && next.governance_wf()
            && next.pools_wf(),
{
    assert forall|id: u64| #[trigger] next.loans.contains_key(id) implies next.loan_wf(id) by {
        assert(state.loans.contains_key(id));
    }
    assert forall|id: u64| #[trigger] next.proposals.contains_key(id) implies next.proposal_wf(
        id,
    ) by {
        assert(state.proposals.contains_key(id));
    }
    assert forall|id: u64| #[trigger] next.pools.contains_key(id) implies next.pool_wf(id) by {
        assert(state.pools.contains_key(id));
    }
}

/// Vouching keeps the invariant.
pub proof fn vouch_keeps_wf(
    state: State,
    voucher: Address,
    borrower: Address,
    stake: i128,
    token: Address,
)
    requires
        state.wf(),
        state.vouch_failure(voucher, borrower, stake, token) is None,
    ensures
        state.vouched(voucher, borrower, stake, token).wf(),
{
    let signed = state.authorize(voucher);
    lemma_rest(state, signed);
    lemma_pledged(signed, voucher, borrower, stake, token, state.last_vouch_of(voucher));
}

proof fn lemma_pledged_all(
    state: State,
    voucher: Address,
    borrowers: Seq<Address>,
    amounts: Seq<i128>,
    token: Address,
    last: u64,
)
    requires
        state.wf(),
        borrowers.len() == amounts.len(),
        state.pledges_failure(voucher, borrowers, amounts, token, last) is None,
    ensures
        state.pledged_all(voucher, borrowers, amounts, token).wf(),
    decreases borrowers.len(),
{
    if borrowers.len() > 0 {
        lemma_pledged_all(
            state,
            voucher,
            borrowers.drop_last(),
            amounts.drop_last(),
            token,
            last,
        );
        lemma_pledged(
            state.pledged_all(voucher, borrowers.drop_last(), amounts.drop_last(), token),
            voucher,
            borrowers.last(),
            amounts.last(),
            token,
            last,
        );
    }
}

/// Signing for a batch first does not change what is refused.
proof fn lemma_pledges_failure_signed(
    state: State,
    voucher: Address,
    borrowers: Seq<Address>,
    amounts: Seq<i128>,
    token: Address,
    last: u64,
)
    requires
        borrowers.len() == amounts.len(),
    ensures
        state.authorize(voucher).pledges_failure(voucher, borrowers, amounts, token, last)
            == state.pledges_failure(voucher, borrowers, amounts, token, last),
    decreases borrowers.len(),
{
    if borrowers.len() > 0 {
        let signed = state.authorize(voucher);
        lemma_pledges_failure_signed(
            state,
            voucher,
            borrowers.drop_last(),
            amounts.drop_last(),
            token,
            last,
        );
        lemma_pledged_all_signed(
            state,
            voucher,
            borrowers.drop_last(),
            amounts.drop_last(),
            token,
        );
        let a = signed.pledged_all(voucher, borrowers.drop_last(), amounts.drop_last(), token);
        let b = state.pledged_all(voucher, borrowers.drop_last(), amounts.drop_last(), token);
        assert(a.vouches_of(borrowers.last()) == b.vouches_of(borrowers.last()));
        assert(a.pledge_failure(voucher, borrowers.last(), amounts.last(), token, last, false)
            == b.pledge_failure(voucher, borrowers.last(), amounts.last(), token, last, false));
    }
}

proof fn lemma_pledged_all_signed(
    state: State,
    voucher: Address,
    borrowers: Seq<Address>,
    amounts: Seq<i128>,
    token: Address,
)
    requires
        borrowers.len() == amounts.len(),
    ensures
        ({
            let a = state.authorize(voucher).pledged_all(voucher, borrowers, amounts, token);
            let b = state.pledged_all(voucher, borrowers, amounts, token);
            a == State { effects: a.effects, ..b }
        }),
    decreases borrowers.len(),
{
    if borrowers.len() > 0 {
        lemma_pledged_all_signed(
            state,
            voucher,
            borrowers.drop_last(),
            amounts.drop_last(),
            token,
        );
    }
}

/// Vouching for several borrowers keeps the invariant.
pub proof fn batch_vouch_keeps_wf(
    state: State,
    voucher: Address,
    borrowers: Seq<Address>,
    amounts: Seq<i128>,
    token: Address,
)
    requires
        state.wf(),
        state.batch_vouch_failure(voucher, borrowers, amounts, token) is None,
    ensures
        state.batch_vouched(voucher, borrowers, amounts, token).wf(),
{
    let signed = state.authorize(voucher);
    let last = state.last_vouch_of(voucher);
    lemma_rest(state, signed);
    lemma_pledges_failure_signed(state, voucher, borrowers, amounts, token, last);
    lemma_pledged_all(signed, voucher, borrowers, amounts, token, last);
}

/// Adding stake keeps the invariant.
pub proof fn increase_keeps_wf(state: State, voucher: Address, borrower: Address, additional: i128)
    requires
        state.wf(),
        state.increase_failure(voucher, borrower, additional) is None,
    ensures
        state.increased(voucher, borrower, additional).wf(),
{
    let list = state.vouches_of(borrower);
    vouch::lemma_first_vouch(list, voucher);
    let i = vouch::first_vouch(list, voucher)->0;
    let updated = list.update(
        i,
        VouchRecord { stake: (list[i].stake + additional) as i128, ..list[i] },
    );
    lemma_list_update(list, i, updated[i]);
    let next = state.increased(voucher, borrower, additional);
    lemma_with_vouches(state, borrower, updated);
    assert(next.vouches == state.with_vouches(borrower, updated).vouches);
    lemma_rest(state, next);
}

/// Another stake on the same vouch keeps the list in order.
proof fn lemma_list_update(vouches: Seq<VouchRecord>, k: int, record: VouchRecord)
    requires
        vouch_list_wf(vouches),
        0 <= k < vouches.len(),
        record.stake > 0,
        record.voucher == vouches[k].voucher,
        record.token == vouches[k].token,
    ensures
        vouch_list_wf(vouches.update(k, record)),
{
    let list = vouches.update(k, record);
    assert forall|i: int, j: int| 0 <= i < j < list.len() implies !((#[trigger] list[i]).voucher
        == (#[trigger] list[j]).voucher && list[i].token == list[j].token) by {
        assert(vouches[i].voucher == list[i].voucher && vouches[j].voucher == list[j].voucher);
    }
}

/// Taking stake out keeps the invariant.
pub proof fn decrease_keeps_wf(state: State, voucher: Address, borrower: Address, amount: i128)
    requires
        state.wf(),
        state.decrease_failure(voucher, borrower, amount) is None,
    ensures
        state.decreased(voucher, borrower, amount).wf(),
{
    let list = state.vouches_of(borrower);
    vouch::lemma_first_vouch(list, voucher);
    let i = vouch::first_vouch(list, voucher)->0;
    let next = state.decreased(voucher, borrower, amount);
    if list[i].stake == amount {
        lemma_list_remove(list, i);
        lemma_with_vouches(state, borrower, list.remove(i));
    } else {
        let record = VouchRecord { stake: (list[i].stake - amount) as i128, ..list[i] };
        lemma_list_update(list, i, record);
        lemma_with_vouches(state, borrower, list.update(i, record));
    }
    lemma_rest(state, next);
}

/// Withdrawing a vouch keeps the invariant.
pub proof fn withdraw_keeps_wf(state: State, voucher: Address, borrower: Address)
    requires
        state.wf(),
        state.withdraw_failure(voucher, borrower) is None,
    ensures
        state.withdrawn(voucher, borrower).wf(),
{
    let list = state.vouches_of(borrower);
    vouch::lemma_first_vouch(list, voucher);
    let i = vouch::first_vouch(list, voucher)->0;
    lemma_list_remove(list, i);
    lemma_with_vouches(state, borrower, list.remove(i));
    lemma_rest(state, state.withdrawn(voucher, borrower));
}

/// Handing a vouch over keeps the invariant.
pub proof fn transfer_keeps_wf(state: State, from: Address, to: Address, borrower: Address)
    requires
        state.wf(),
        state.transfer_failure(from, to, borrower) is None,
    ensures
        state.transferred(from, to, borrower).wf(),
{
    let next = state.transferred(from, to, borrower);
    if from == to {
        lemma_rest(state, next);
    } else {
        let list = state.vouches_of(borrower);
        vouch::lemma_first_vouch(list, from);
        let i = vouch::first_vouch(list, from)->0;
        vouch::lemma_first_vouch_in(list, to, list[i].token);
        match vouch::first_vouch_in(list, to, list[i].token) {
            Some(j) => {
                let record = VouchRecord {
                    stake: (list[j].stake + list[i].stake) as i128,
                    ..list[j]
                };
                lemma_list_update(list, j, record);
                let merged = list.update(j, record);
                assert(merged[i] == list[i]);
                lemma_list_remove(merged, i);
                assert(merged.remove(i).len() > 0) by {
                    assert(i != j);
                }
            },
            None => {
                let renamed = list.update(i, VouchRecord { voucher: to, ..list[i] });
                assert forall|p: int, q: int| 0 <= p < q < renamed.len() implies !((
                #[trigger] renamed[p]).voucher == (#[trigger] renamed[q]).voucher
                    && renamed[p].token == renamed[q].token) by {
                    assert(list[p].token == renamed[p].token && list[q].token
                        == renamed[q].token);
                    assert(!(list[p].voucher == to && list[p].token == list[i].token));
                    assert(!(list[q].voucher == to && list[q].token == list[i].token));
                }
            },
        }
        let moved = State::vouches_transferred(list, from, to);
        lemma_with_vouches(state, borrower, moved);
        assert(next.vouches == state.with_vouches(borrower, moved).vouches);
        lemma_rest(state, next);
    }
}

/// Basis points of amounts that are not negative.
pub proof fn lemma_bps_bounds(amount: int, rate: int)
    requires
        amount >= 0,
        rate >= 0,
    ensures
        0 <= math::bps(amount, rate) <= amount * rate,
        rate <= 10_000 ==> math::bps(amount, rate) <= amount,
{
    assert(amount * rate >= 0) by (nonlinear_arith)
        requires
            amount >= 0,
            rate >= 0,
    ;
    if rate <= 10_000 {
        assert(amount * rate <= amount * 10_000) by (nonlinear_arith)
            requires
                amount >= 0,
                rate <= 10_000,
        ;
    }
}

/// A borrower without an active loan has no entry among the active loans.
pub proof fn lemma_active(state: State, borrower: Address)
    requires
        state.loans_wf(),
    ensures
        state.has_active_loan(borrower) == state.active_loans.contains_key(borrower),
        state.active_loans.contains_key(borrower) ==> state.active_loan(borrower) == Some(
            state.loans[state.active_loans[borrower]],
        ) && state.loan_wf(state.active_loans[borrower]),
{
}

proof fn lemma_disbursed(
    state: State,
    borrower: Address,
    co_borrowers: Seq<Address>,
    amount: i128,
    loan_purpose: Seq<u8>,
    token: Address,
)
    requires
        state.wf(),
        state.booking_failure(borrower, amount) is None,
        !state.has_active_loan(borrower),
        amount > 0,
    ensures
        state.disbursed(borrower, co_borrowers, amount, loan_purpose, token).wf(),
{
    let next = state.disbursed(borrower, co_borrowers, amount, loan_purpose, token);
    let loan = state.new_loan(borrower, co_borrowers, amount, loan_purpose, token);
    let config = state.config->0;
    lemma_active(state, borrower);
    lemma_bps_bounds(amount as int, config.yield_bps as int);
    assert(!state.loans.contains_key(loan.id));
    assert forall|id: u64| #[trigger] next.loans.contains_key(id) implies next.loan_wf(id) by {
        if id != loan.id {
            assert(state.loans.contains_key(id));
            assert(state.loan_wf(id));
            if state.loans[id].borrower == borrower {
                assert(state.loans[id].status != LoanStatus::Active);
            }
        }
    }
    assert forall|b: Address| #[trigger] next.latest_loans.contains_key(b) implies {
        &&& next.loans.contains_key(next.latest_loans[b])
        &&& next.loans[next.latest_loans[b]].borrower == b
    } by {
        if b != borrower {
            assert(state.latest_loans.contains_key(b));
        }
    }
    assert forall|b: Address| #[trigger] next.active_loans.contains_key(b) implies {
        &&& next.loans.contains_key(next.active_loans[b])
        &&& next.loans[next.active_loans[b]].borrower == b
        &&& next.loans[next.active_loans[b]].status == LoanStatus::Active
        &&& next.latest_loans.contains_key(b)
        &&& next.latest_loans[b] == next.active_loans[b]
    } by {
        if b != borrower {
            assert(state.active_loans.contains_key(b));
        }
    }
    assert forall|b: Address| #[trigger]
        State::count(next.loan_counts, b) == State::count(next.repayment_counts, b) + State::count(
            next.default_counts,
            b,
        ) + if next.active_loans.contains_key(b) {
            1int
        } else {
            0
        } by {
        assert(State::count(state.loan_counts, b) == State::count(state.repayment_counts, b)
            + State::count(state.default_counts, b) + if state.active_loans.contains_key(b) {
            1int
        } else {
            0
        });
    }
    lemma_unrelated(state, next);
}

/// What does not touch books, votes, proposals or pools keeps their invariants.
proof fn lemma_unrelated(state: State, next: State)
    requires
        state.books_wf() && state.governance_wf() && state.pools_wf(),
        next.config == state.config,
        next.slash_treasury >= 0,
        next.min_stake == state.min_stake,
        next.max_loan_amount == state.max_loan_amount,
        next.protocol_fee_bps == state.protocol_fee_bps,
        next.referral_bonus_bps == state.referral_bonus_bps,
        next.slash_vote_quorum == state.slash_vote_quorum,
        next.slash_votes == state.slash_votes,
        next.proposals == state.proposals,
        next.proposal_counter == state.proposal_counter,
        next.pools == state.pools,
        next.pool_counter == state.pool_counter,
    ensures
        next.books_wf() && next.governance_wf() && next.pools_wf(),
{
    assert forall|id: u64| #[trigger] next.proposals.contains_key(id) implies next.proposal_wf(
        id,
    ) by {
        assert(state.proposals.contains_key(id));
    }
    assert forall|id: u64| #[trigger] next.pools.contains_key(id) implies next.pool_wf(id) by {
        assert(state.pools.contains_key(id));
    }
}

/// Disbursing a loan keeps the invariant.
pub proof fn request_keeps_wf(
    state: State,
    borrower: Address,
    co_borrowers: Seq<Address>,
    amount: i128,
    threshold: i128,
    loan_purpose: Seq<u8>,
    token: Address,
    contract_balance: i128,
)
    requires
        state.wf(),
        state.request_failure(borrower, amount, threshold, token, contract_balance) is None,
    ensures
        state.requested(borrower, co_borrowers, amount, loan_purpose, token).wf(),
{
    let signed = state.authorize(borrower).authorize_all(co_borrowers);
    lemma_rest(state, signed);
    lemma_disbursed(signed, borrower, co_borrowers, amount, loan_purpose, token);
}

/// Closing a borrower's active loan, and counting it, keeps loans and counts in order.
proof fn lemma_closed(state: State, next: State, borrower: Address, closed: LoanView)
    requires
        state.loans_wf(),
        state.counts_wf(),
        state.has_active_loan(borrower),
        ({
            let loan = state.active_loan(borrower)->0;
            &&& closed == LoanView {
                status: closed.status,
                amount_repaid: closed.amount_repaid,
                repayment_timestamp: closed.repayment_timestamp,
                ..loan
            }
            &&& loan.amount_repaid <= closed.amount_repaid <= loan.amount + loan.total_yield
            &&& closed.status == LoanStatus::Repaid || closed.status == LoanStatus::Defaulted
            &&& (closed.status == LoanStatus::Repaid) == (closed.amount_repaid >= closed.amount)
            &&& (closed.status == LoanStatus::Repaid) == (closed.repayment_timestamp is Some)
        }),
        next.loans == state.loans.insert(closed.id, closed),
        next.active_loans == state.active_loans.remove(borrower),
        next.latest_loans == state.latest_loans,
        next.loan_counter == state.loan_counter,
        next.loan_counts == state.loan_counts,
        forall|b: Address| #[trigger]
            State::count(next.repayment_counts, b) + State::count(next.default_counts, b)
                == State::count(state.repayment_counts, b) + State::count(state.default_counts, b)
                + if b == borrower {
                1int
            } else {
                0
            },
    ensures
        next.loans_wf(),
        next.counts_wf(),
{
    lemma_active(state, borrower);
    let loan = state.active_loan(borrower)->0;
    assert forall|id: u64| #[trigger] next.loans.contains_key(id) implies next.loan_wf(id) by {
        assert(state.loans.contains_key(id));
        assert(state.loan_wf(id));
        if id != closed.id && state.loans[id].status == LoanStatus::Active {
            assert(state.loans[id].borrower != borrower);
        }
    }
    assert forall|b: Address| #[trigger] next.active_loans.contains_key(b) implies {
        &&& next.loans.contains_key(next.active_loans[b])
        &&& next.loans[next.active_loans[b]].borrower == b
        &&& next.loans[next.active_loans[b]].status == LoanStatus::Active
        &&& next.latest_loans.contains_key(b)
        &&& next.latest_loans[b] == next.active_loans[b]
    } by {
        assert(state.active_loans.contains_key(b));
        assert(state.active_loans[b] != closed.id);
    }
    assert forall|b: Address| #[trigger] next.latest_loans.contains_key(b) implies {
        &&& next.loans.contains_key(next.latest_loans[b])
        &&& next.loans[next.latest_loans[b]].borrower == b
    } by {
        assert(state.latest_loans.contains_key(b));
    }
    assert forall|b: Address| #[trigger]
        State::count(next.loan_counts, b) == State::count(next.repayment_counts, b) + State::count(
            next.default_counts,
            b,
        ) + if next.active_loans.contains_key(b) {
            1int
        } else {
            0
        } by {
        assert(State::count(state.loan_counts, b) == State::count(state.repayment_counts, b)
            + State::count(state.default_counts, b) + if state.active_loans.contains_key(b) {
            1int
        } else {
            0
        });
        assert(State::count(next.repayment_counts, b) + State::count(next.default_counts, b)
            == State::count(state.repayment_counts, b) + State::count(state.default_counts, b)
            + if b == borrower {
            1int
        } else {
            0
        });
    }
}

/// Taking a payment keeps the invariant.
pub proof fn repay_keeps_wf(state: State, borrower: Address, payment: i128, contract_balance: i128)
    requires
        state.wf(),
        state.repay_failure(borrower, payment, contract_balance) is None,
    ensures
        state.repaid(borrower, payment).wf(),
{
    let next = state.repaid(borrower, payment);
    let loan = state.active_loan(borrower)->0;
    lemma_active(state, borrower);
    if loan.amount_repaid + payment >= loan.amount {
        let closed = LoanView {
            amount_repaid: (loan.amount_repaid + payment) as i128,
            status: LoanStatus::Repaid,
            repayment_timestamp: Some(state.now),
            ..loan
        };
        assert forall|b: Address| #[trigger]
            State::count(next.repayment_counts, b) + State::count(next.default_counts, b)
                == State::count(state.repayment_counts, b) + State::count(state.default_counts, b)
                + if b == borrower {
                1int
            } else {
                0
            } by {}
        lemma_closed(state, next, borrower, closed);
        lemma_with_vouches(state, borrower, Seq::empty());
        assert(next.vouches == state.with_vouches(borrower, Seq::empty()).vouches);
        lemma_unrelated(state, next);
    } else {
        assert forall|id: u64| #[trigger] next.loans.contains_key(id) implies next.loan_wf(
            id,
        ) by {
            assert(state.loans.contains_key(id));
            assert(state.loan_wf(id));
        }
        assert forall|b: Address| #[trigger] next.latest_loans.contains_key(b) implies {
            &&& next.loans.contains_key(next.latest_loans[b])
            &&& next.loans[next.latest_loans[b]].borrower == b
        } by {
            assert(state.latest_loans.contains_key(b));
        }
        lemma_unrelated(state, next);
    }
}

/// The cuts of a slash are not negative.
pub proof fn lemma_cuts_nonnegative(vouches: Seq<VouchRecord>, reach: Reach, slash_bps: i128)
    requires
        forall|i: int| 0 <= i < vouches.len() ==> (#[trigger] vouches[i]).stake > 0,
        slash_bps >= 0,
    ensures
        forall|i: int| 0 <= i < vouches.len() ==> slash::cuts(vouches, reach, slash_bps)[i] >= 0,
        math::sum(slash::cuts(vouches, reach, slash_bps)) >= 0,
{
    let amounts = slash::cuts(vouches, reach, slash_bps);
    assert forall|i: int| 0 <= i < vouches.len() implies amounts[i] >= 0 by {
        lemma_bps_bounds(vouches[i].stake as int, slash_bps as int);
    }
    math::lemma_adds_up(amounts);
}

proof fn lemma_defaulted(state: State, borrower: Address, reach: Reach)
    requires
        state.wf(),
        state.has_active_loan(borrower),
        state.default_failure(borrower, reach) is None,
    ensures
        state.defaulted(borrower, state.active_loan(borrower)->0, reach).wf(),
{
    let loan = state.active_loan(borrower)->0;
    let next = state.defaulted(borrower, loan, reach);
    let list = state.vouches_of(borrower);
    let kept = list.filter(slash::is_spared(reach));
    lemma_active(state, borrower);
    lemma_cuts_nonnegative(list, reach, state.config->0.slash_bps);
    lemma_closing_default(state, next, borrower);
    lemma_list_filter(list, slash::is_spared(reach));
    lemma_with_vouches(state, borrower, kept);
    assert(next.vouches == state.with_vouches(borrower, kept).vouches);
    lemma_unrelated(state, next);
}

proof fn lemma_closing_default(state: State, next: State, borrower: Address)
    requires
        state.loans_wf(),
        state.counts_wf(),
        state.has_active_loan(borrower),
        State::count(state.default_counts, borrower) < u32::MAX,
        ({
            let closed = state.closed_as_default(borrower, state.active_loan(borrower)->0);
            &&& next.loans == closed.loans
            &&& next.active_loans == closed.active_loans
            &&& next.latest_loans == closed.latest_loans
            &&& next.loan_counter == closed.loan_counter
            &&& next.loan_counts == closed.loan_counts
            &&& next.repayment_counts == closed.repayment_counts
            &&& next.default_counts == closed.default_counts
        }),
    ensures
        next.loans_wf(),
        next.counts_wf(),
{
    let loan = state.active_loan(borrower)->0;
    lemma_active(state, borrower);
    assert forall|b: Address| #[trigger]
        State::count(next.repayment_counts, b) + State::count(next.default_counts, b)
            == State::count(state.repayment_counts, b) + State::count(state.default_counts, b)
            + if b == borrower {
            1int
        } else {
            0
        } by {}
    lemma_closed(
        state,
        next,
        borrower,
        LoanView { status: LoanStatus::Defaulted, ..loan },
    );
}

/// Slashing by the admins keeps the invariant.
pub proof fn slash_keeps_wf(state: State, signers: Seq<Address>, borrower: Address)
    requires
        state.wf(),
        state.slash_failure(signers, borrower) is None,
    ensures
        state.slashed(signers, borrower).wf(),
{
    let signed = state.authorize_all(signers);
    lemma_rest(state, signed);
    lemma_defaulted(signed, borrower, Reach::EveryToken);
    let loan = state.active_loan(borrower)->0;
    let booked = signed.defaulted(borrower, loan, Reach::EveryToken);
    lemma_rest(booked, state.slashed(signers, borrower));
}

/// Slashing after the deadline keeps the invariant.
pub proof fn auto_slash_keeps_wf(state: State, borrower: Address)
    requires
        state.wf(),
        state.auto_slash_failure(borrower) is None,
    ensures
        state.auto_slashed(borrower).wf(),
{
    lemma_defaulted(state, borrower, Reach::EveryToken);
    lemma_rest(
        state.defaulted(borrower, state.active_loan(borrower)->0, Reach::EveryToken),
        state.auto_slashed(borrower),
    );
}

/// Claiming back the stakes of an expired loan keeps the invariant.
pub proof fn claim_keeps_wf(state: State, borrower: Address)
    requires
        state.wf(),
        state.claim_failure(borrower) is None,
    ensures
        state.claimed(borrower).wf(),
{
    let next = state.claimed(borrower);
    lemma_closing_default(state, next, borrower);
    lemma_with_vouches(state, borrower, Seq::empty());
    assert(next.vouches == state.with_vouches(borrower, Seq::empty()).vouches);
    lemma_unrelated(state, next);
}

proof fn lemma_slash_executed(state: State, borrower: Address)
    requires
        state.wf(),
        state.execute_slash_failure(borrower) is None,
    ensures
        state.slash_executed(borrower).wf(),
{
    lemma_active(state, borrower);
    let loan = state.active_loan(borrower)->0;
    let reach = Reach::OneToken(loan.token_address);
    lemma_defaulted(state, borrower, reach);
    lemma_rest(
        state.defaulted(borrower, loan, reach),
        state.slash_executed(borrower),
    );
}

/// What touches votes and proposals only keeps the rest in order.
proof fn lemma_governance_only(state: State, next: State)
    requires
        state.wf(),
        next.governance_wf(),
        next == (State {
            slash_votes: next.slash_votes,
            proposals: next.proposals,
            proposal_counter: next.proposal_counter,
            effects: next.effects,
            ..state
        }),
    ensures
        next.wf(),
{
    assert forall|id: u64| #[trigger] next.loans.contains_key(id) implies next.loan_wf(id) by {
        assert(state.loans.contains_key(id));
    }
    assert forall|id: u64| #[trigger] next.pools.contains_key(id) implies next.pool_wf(id) by {
        assert(state.pools.contains_key(id));
    }
}

/// A vote that is counted keeps the invariant.
pub proof fn lemma_counted_vote(state: State, voucher: Address, borrower: Address, approve: bool)
    requires
        state.wf(),
        state.vote_failure(voucher, borrower, approve) is None,
    ensures
        state.vote_counted(voucher, borrower, approve).wf(),
{
    let counted = state.vote_counted(voucher, borrower, approve);
    let vote = counted.slash_votes[borrower];
    let prior = state.vote_on(borrower);
    vouch::lemma_first_vouch(state.vouches_of(borrower), voucher);
    assert(vote_wf(prior));
    assert(state.vouch_of(voucher, borrower)->0.stake > 0) by {
        assert(state.vouches.contains_key(borrower));
    }
    assert(vote.voters.no_duplicates()) by {
        assert forall|i: int, j: int|
            0 <= i < vote.voters.len() && 0 <= j < vote.voters.len() && i != j implies
            vote.voters[i] != vote.voters[j] by {
            let n = prior.voters.len();
            if i == n {
                assert(prior.voters[j] == vote.voters[j]);
            } else if j == n {
                assert(prior.voters[i] == vote.voters[i]);
            }
        }
    }
    assert(counted.governance_wf()) by {
        assert forall|id: u64| #[trigger]
            counted.proposals.contains_key(id) implies counted.proposal_wf(id) by {
            assert(state.proposals.contains_key(id));
        }
        assert forall|b: Address| #[trigger] counted.slash_votes.contains_key(b) implies vote_wf(
            counted.slash_votes[b],
        ) by {
            if b != borrower {
                assert(state.slash_votes.contains_key(b));
            }
        }
    }
    lemma_governance_only(state, counted);
}

/// Voting, and the slash that a vote brings about, keep the invariant.
pub proof fn vote_keeps_wf(state: State, voucher: Address, borrower: Address, approve: bool)
    requires
        state.wf(),
        state.vote_failure(voucher, borrower, approve) is None,
    ensures
        state.slash_voted(voucher, borrower, approve).wf(),
{
    let counted = state.vote_counted(voucher, borrower, approve);
    lemma_counted_vote(state, voucher, borrower, approve);
    if state.vote_decides(voucher, borrower, approve) {
        assert(counted.execute_slash_failure(borrower) == state.execute_slash_failure(borrower));
        lemma_slash_executed(counted, borrower);
    }
}

/// Proposing a slash keeps the invariant.
pub proof fn propose_keeps_wf(state: State, proposer: Address, borrower: Address, delay_secs: u64)
    requires
        state.wf(),
        state.propose_failure(proposer, delay_secs) is None,
    ensures
        state.slash_proposed(proposer, borrower, delay_secs).wf(),
{
    let next = state.slash_proposed(proposer, borrower, delay_secs);
    assert forall|id: u64| #[trigger] next.proposals.contains_key(id) implies next.proposal_wf(
        id,
    ) by {
        if id != next.proposal_counter {
            assert(state.proposals.contains_key(id));
            assert(state.proposal_wf(id));
        }
    }
    assert(next.governance_wf());
    lemma_governance_only(state, next);
}

/// A proposal that is marked as executed keeps the invariant.
pub proof fn lemma_marked_proposal(state: State, proposal_id: u64)
    requires
        state.wf(),
        state.execution_failure(proposal_id) is None,
    ensures
        state.proposal_marked(proposal_id).wf(),
{
    let marked = state.proposal_marked(proposal_id);
    assert forall|id: u64| #[trigger]
        marked.proposals.contains_key(id) implies marked.proposal_wf(id) by {
        assert(state.proposals.contains_key(id));
        assert(state.proposal_wf(id));
    }
    assert(marked.governance_wf());
    lemma_governance_only(state, marked);
}

/// Executing a proposal keeps the invariant.
pub proof fn execution_keeps_wf(state: State, proposal_id: u64)
    requires
        state.wf(),
        state.execution_failure(proposal_id) is None,
    ensures
        state.proposal_executed(proposal_id).wf(),
{
    let borrower = state.proposals[proposal_id].action->Slash_0;
    let marked = state.proposal_marked(proposal_id);
    lemma_marked_proposal(state, proposal_id);
    assert(marked.execute_slash_failure(borrower) == state.execute_slash_failure(borrower));
    lemma_slash_executed(marked, borrower);
    lemma_rest(marked.slash_executed(borrower), state.proposal_executed(proposal_id));
}

/// What a call asks the host to do does not matter to the invariant.
pub proof fn lemma_effects_only(state: State, next: State)
    requires
        state.wf(),
        next == (State { effects: next.effects, ..state }),
    ensures
        next.wf(),
{
    lemma_rest(state, next);
}

/// Cancelling a proposal keeps the invariant.
pub proof fn cancel_keeps_wf(state: State, caller: Address, proposal_id: u64)
    requires
        state.wf(),
        state.cancel_failure(caller, proposal_id) is None,
    ensures
        state.proposal_cancelled(caller, proposal_id).wf(),
{
    let next = state.proposal_cancelled(caller, proposal_id);
    assert forall|id: u64| #[trigger] next.proposals.contains_key(id) implies next.proposal_wf(
        id,
    ) by {
        assert(state.proposals.contains_key(id));
        assert(state.proposal_wf(id));
    }
    assert(next.governance_wf());
    lemma_governance_only(state, next);
}

pub proof fn lemma_disbursed_all(
    state: State,
    borrowers: Seq<Address>,
    amounts: Seq<i128>,
    token: Address,
)
    requires
        state.wf(),
        state.config is Some,
        borrowers.len() == amounts.len(),
        borrowers.no_duplicates(),
        state.loan_counter + borrowers.len() <= u64::MAX,
        state.now + state.config->0.loan_duration <= u64::MAX,
        forall|i: int|
            0 <= i < borrowers.len() ==> #[trigger] state.is_bookable(borrowers[i], amounts[i]),
        forall|i: int|
            0 <= i < borrowers.len() ==> #[trigger] state.pool_item_failure(
                borrowers[i],
                amounts[i],
                false,
            ) is None,
    ensures
        state.disbursed_all(borrowers, amounts, token).wf(),
        forall|b: Address|
            !borrowers.contains(b) ==> state.disbursed_all(
                borrowers,
                amounts,
                token,
            ).active_loans.contains_key(b) == #[trigger] state.active_loans.contains_key(b),
    decreases borrowers.len(),
{
    if borrowers.len() > 0 {
        let init = borrowers.drop_last();
        let sums = amounts.drop_last();
        let last = borrowers.len() - 1;
        let prior = state.disbursed_all(init, sums, token);
        assert forall|i: int| 0 <= i < init.len() implies #[trigger] state.is_bookable(
            init[i],
            sums[i],
        ) by {
            assert(state.is_bookable(borrowers[i], amounts[i]));
        }
        assert forall|i: int| 0 <= i < init.len() implies #[trigger] state.pool_item_failure(
            init[i],
            sums[i],
            false,
        ) is None by {
            assert(state.pool_item_failure(borrowers[i], amounts[i], false) is None);
        }
        lemma_disbursed_all(state, init, sums, token);
        pool::lemma_disbursed_all(state, init, sums, token);
        let b = borrowers[last];
        assert(!init.contains(b));
        assert(state.is_bookable(borrowers[last], amounts[last]));
        assert(state.pool_item_failure(borrowers[last], amounts[last], false) is None);
        assert(State::count(prior.loan_counts, b) == State::count(state.loan_counts, b));
        lemma_active(state, b);
        assert(prior.active_loans.contains_key(b) == state.active_loans.contains_key(b));
        lemma_active(prior, b);
        lemma_disbursed(prior, b, Seq::empty(), amounts[last], Seq::empty(), token);
        let next = state.disbursed_all(borrowers, amounts, token);
        assert forall|c: Address| !borrowers.contains(c) implies next.active_loans.contains_key(
            c,
        ) == #[trigger] state.active_loans.contains_key(c) by {
            assert(borrowers[last] != c);
            assert(!init.contains(c)) by {
                if init.contains(c) {
                    let i = choose|i: int| 0 <= i < init.len() && init[i] == c;
                    assert(borrowers[i] == c);
                }
            }
            assert(prior.active_loans.contains_key(c) == state.active_loans.contains_key(c));
        }
    }
}

/// Disbursing a pool keeps the invariant.
pub proof fn pool_keeps_wf(
    state: State,
    signers: Seq<Address>,
    borrowers: Seq<Address>,
    amounts: Seq<i128>,
    contract_balance: i128,
)
    requires
        state.wf(),
        state.pool_failure(signers, borrowers, amounts, contract_balance) is None,
    ensures
        state.pooled(signers, borrowers, amounts).wf(),
{
    let signed = state.authorize_all(signers);
    let token = state.config->0.token;
    lemma_rest(state, signed);
    pool::lemma_pool_borrowers_distinct(state, borrowers, amounts);
    assert forall|i: int| 0 <= i < borrowers.len() implies #[trigger] signed.is_bookable(
        borrowers[i],
        amounts[i],
    ) by {
        assert(state.is_bookable(borrowers[i], amounts[i]));
    }
    assert forall|i: int| 0 <= i < borrowers.len() implies #[trigger] signed.pool_item_failure(
        borrowers[i],
        amounts[i],
        false,
    ) is None by {
        assert(state.pool_item_failure(borrowers[i], amounts[i], false) is None);
    }
    lemma_disbursed_all(signed, borrowers, amounts, token);
    pool::lemma_disbursed_all(signed, borrowers, amounts, token);
    let lent = signed.disbursed_all(borrowers, amounts, token);
    let next = state.pooled(signers, borrowers, amounts);
    assert forall|id: u64| #[trigger] next.loans.contains_key(id) implies next.loan_wf(id) by {
        assert(lent.loans.contains_key(id));
        assert(lent.loan_wf(id));
    }
    assert forall|id: u64| #[trigger] next.proposals.contains_key(id) implies next.proposal_wf(
        id,
    ) by {
        assert(lent.proposals.contains_key(id));
    }
    assert(pool::as_ints(amounts).take(amounts.len() as int) =~= pool::as_ints(amounts));
    assert forall|id: u64| #[trigger] next.pools.contains_key(id) implies next.pool_wf(id) by {
        if id != next.pool_counter {
            assert(state.pools.contains_key(id));
            assert(state.pool_wf(id));
        }
    }
}

/// What touches parameters and lists of addresses only keeps the rest in order.
pub proof fn lemma_parameters_only(state: State, next: State)
    requires
        state.wf(),
        next.books_wf(),
        next == (State {
            now: next.now,
            config: next.config,
            deployer: next.deployer,
            blacklist: next.blacklist,
            whitelist: next.whitelist,
            referrers: next.referrers,
            slash_treasury: next.slash_treasury,
            paused: next.paused,
            min_stake: next.min_stake,
            max_loan_amount: next.max_loan_amount,
            min_vouchers: next.min_vouchers,
            max_vouchers_per_borrower: next.max_vouchers_per_borrower,
            protocol_fee_bps: next.protocol_fee_bps,
            fee_treasury: next.fee_treasury,
            reputation_nft: next.reputation_nft,
            referral_bonus_bps: next.referral_bonus_bps,
            slash_vote_quorum: next.slash_vote_quorum,
            effects: next.effects,
            ..state
        }),
    ensures
        next.wf(),
{
    assert forall|id: u64| #[trigger] next.loans.contains_key(id) implies next.loan_wf(id) by {
        assert(state.loans.contains_key(id));
    }
    assert forall|id: u64| #[trigger] next.proposals.contains_key(id) implies next.proposal_wf(
        id,
    ) by {
        assert(state.proposals.contains_key(id));
    }
    assert forall|id: u64| #[trigger] next.pools.contains_key(id) implies next.pool_wf(id) by {
        assert(state.pools.contains_key(id));
    }
}

} // verus!
