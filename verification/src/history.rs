//! What, once it is so, stays so.

use crate::address::Address;
use crate::calls::{self, Call};
use crate::env::State;
use crate::math;
use crate::pool;
use crate::slash::{self, Reach};
use crate::types::{LoanStatus, LoanView, SlashVoteView, TimelockView, VouchRecord};
use crate::vouch;
use crate::wellformed;
use vstd::prelude::*;

verus! {

/// The terms of a loan never change, payments are never taken back, and a loan that is repaid or
/// has defaulted never changes again.
pub open spec fn loan_evolves(before: LoanView, after: LoanView) -> bool {
    &&& after == LoanView {
        amount_repaid: after.amount_repaid,
        status: after.status,
        repayment_timestamp: after.repayment_timestamp,
        ..before
    }
    &&& before.amount_repaid <= after.amount_repaid
    &&& before.status != LoanStatus::Active ==> after == before
}

/// What a proposal is for never changes, and one that is executed or cancelled stays so.
pub open spec fn proposal_evolves(before: TimelockView, after: TimelockView) -> bool {
    &&& after == TimelockView { executed: after.executed, cancelled: after.cancelled, ..before }
    &&& before.executed || before.cancelled ==> after == before
}

/// Votes are never taken back, and a vote that was carried out is closed.
pub open spec fn vote_evolves(before: SlashVoteView, after: SlashVoteView) -> bool {
    &&& before.approve_stake <= after.approve_stake
    &&& before.reject_stake <= after.reject_stake
    &&& before.voters.is_prefix_of(after.voters)
    &&& before.executed ==> after == before
}

/// The list holds a vouch in this token from this time.
pub open spec fn has_dated(vouches: Seq<VouchRecord>, vouch: VouchRecord) -> bool {
    exists|j: int|
        0 <= j < vouches.len() && (#[trigger] vouches[j]).vouch_timestamp
            == vouch.vouch_timestamp && vouches[j].token == vouch.token
}

impl State {
    /// Every vouch behind the borrower was made since, or has the time and token of a vouch that
    /// was there before.
    pub open spec fn dates_kept(self, later: State, borrower: Address) -> bool {
        forall|i: int|
            0 <= i < later.vouches_of(borrower).len() ==> (#[trigger] later.vouches_of(
                borrower,
            )[i]).vouch_timestamp >= self.now || has_dated(
                self.vouches_of(borrower),
                later.vouches_of(borrower)[i],
            )
    }

    /// Time, ids and counts only go up.
    pub open spec fn counters_evolve(self, later: State) -> bool {
        &&& self.now <= later.now
        &&& self.loan_counter <= later.loan_counter
        &&& self.pool_counter <= later.pool_counter
        &&& self.proposal_counter <= later.proposal_counter
        &&& forall|b: Address| #[trigger]
            State::count(self.loan_counts, b) <= State::count(later.loan_counts, b)
        &&& forall|b: Address| #[trigger]
            State::count(self.repayment_counts, b) <= State::count(later.repayment_counts, b)
        &&& forall|b: Address| #[trigger]
            State::count(self.default_counts, b) <= State::count(later.default_counts, b)
        &&& self.borrower_list.is_prefix_of(later.borrower_list)
    }

    /// What is set once stays: the contract's address, its initialisation, a ban.
    pub open spec fn marks_stay(self, later: State) -> bool {
        &&& self.contract == later.contract
        &&& self.config is Some ==> later.config is Some
        &&& forall|b: Address| #[trigger] self.is_blacklisted(b) ==> later.is_blacklisted(b)
    }

    pub open spec fn loans_evolve(self, later: State) -> bool {
        forall|id: u64| #[trigger]
            self.loans.contains_key(id) ==> later.loans.contains_key(id) && loan_evolves(
                self.loans[id],
                later.loans[id],
            )
    }

    pub open spec fn governance_evolves(self, later: State) -> bool {
        &&& forall|id: u64| #[trigger]
            self.proposals.contains_key(id) ==> later.proposals.contains_key(id)
                && proposal_evolves(self.proposals[id], later.proposals[id])
        &&& forall|b: Address| #[trigger]
            self.slash_votes.contains_key(b) ==> later.slash_votes.contains_key(b) && vote_evolves(
                self.slash_votes[b],
                later.slash_votes[b],
            )
    }

    pub open spec fn pools_stay(self, later: State) -> bool {
        forall|id: u64| #[trigger]
            self.pools.contains_key(id) ==> later.pools.contains_key(id) && later.pools[id]
                == self.pools[id]
    }

    pub open spec fn vouches_keep_dates(self, later: State) -> bool {
        forall|b: Address| #[trigger] self.dates_kept(later, b)
    }

    /// `later` can follow on this state.
    pub open spec fn evolves(self, later: State) -> bool {
        &&& self.counters_evolve(later)
        &&& self.marks_stay(later)
        &&& self.loans_evolve(later)
        &&& self.governance_evolves(later)
        &&& self.pools_stay(later)
        &&& self.vouches_keep_dates(later)
    }
}

/// What stays so over two stretches stays so over both together.
pub proof fn evolves_is_transitive(a: State, b: State, c: State)
    requires
        a.evolves(b),
        b.evolves(c),
    ensures
        a.evolves(c),
{
    assert forall|id: u64| #[trigger] a.loans.contains_key(id) implies c.loans.contains_key(id)
        && loan_evolves(a.loans[id], c.loans[id]) by {
        assert(b.loans.contains_key(id));
    }
    assert forall|id: u64| #[trigger] a.proposals.contains_key(id) implies c.proposals.contains_key(
        id,
    ) && proposal_evolves(a.proposals[id], c.proposals[id]) by {
        assert(b.proposals.contains_key(id));
    }
    assert forall|x: Address| #[trigger]
        a.slash_votes.contains_key(x) implies c.slash_votes.contains_key(x) && vote_evolves(
        a.slash_votes[x],
        c.slash_votes[x],
    ) by {
        assert(b.slash_votes.contains_key(x));
        let u = a.slash_votes[x].voters;
        let v = b.slash_votes[x].voters;
        let w = c.slash_votes[x].voters;
        assert(u =~= w.subrange(0, u.len() as int)) by {
            assert forall|i: int| 0 <= i < u.len() implies u[i] == w[i] by {
                assert(u[i] == v.subrange(0, u.len() as int)[i]);
                assert(v[i] == w.subrange(0, v.len() as int)[i]);
            }
        }
    }
    assert forall|id: u64| #[trigger] a.pools.contains_key(id) implies c.pools.contains_key(id)
        && c.pools[id] == a.pools[id] by {
        assert(b.pools.contains_key(id));
    }
    assert forall|x: Address| #[trigger]
        State::count(a.loan_counts, x) <= State::count(c.loan_counts, x) by {
        assert(State::count(a.loan_counts, x) <= State::count(b.loan_counts, x));
        assert(State::count(b.loan_counts, x) <= State::count(c.loan_counts, x));
    }
    assert forall|x: Address| #[trigger]
        State::count(a.repayment_counts, x) <= State::count(c.repayment_counts, x) by {
        assert(State::count(a.repayment_counts, x) <= State::count(b.repayment_counts, x));
        assert(State::count(b.repayment_counts, x) <= State::count(c.repayment_counts, x));
    }
    assert forall|x: Address| #[trigger]
        State::count(a.default_counts, x) <= State::count(c.default_counts, x) by {
        assert(State::count(a.default_counts, x) <= State::count(b.default_counts, x));
        assert(State::count(b.default_counts, x) <= State::count(c.default_counts, x));
    }
    assert(a.borrower_list =~= c.borrower_list.subrange(0, a.borrower_list.len() as int)) by {
        assert forall|i: int| 0 <= i < a.borrower_list.len() implies a.borrower_list[i]
            == c.borrower_list[i] by {
            assert(a.borrower_list[i] == b.borrower_list.subrange(
                0,
                a.borrower_list.len() as int,
            )[i]);
            assert(b.borrower_list[i] == c.borrower_list.subrange(
                0,
                b.borrower_list.len() as int,
            )[i]);
        }
    }
    assert forall|x: Address| #[trigger] a.is_blacklisted(x) implies c.is_blacklisted(x) by {
        assert(b.is_blacklisted(x));
    }
    assert forall|x: Address| #[trigger] a.dates_kept(c, x) by {
        assert(a.dates_kept(b, x));
        assert(b.dates_kept(c, x));
        let last = c.vouches_of(x);
        assert forall|i: int| 0 <= i < last.len() implies (#[trigger] last[i]).vouch_timestamp
            >= a.now || has_dated(a.vouches_of(x), last[i]) by {
            if last[i].vouch_timestamp < a.now {
                let middle = b.vouches_of(x);
                assert(has_dated(middle, last[i]));
                let j = choose|j: int|
                    0 <= j < middle.len() && (#[trigger] middle[j]).vouch_timestamp
                        == last[i].vouch_timestamp && middle[j].token == last[i].token;
                assert(has_dated(a.vouches_of(x), middle[j]));
                let k = choose|k: int|
                    0 <= k < a.vouches_of(x).len() && (#[trigger] a.vouches_of(
                        x,
                    )[k]).vouch_timestamp == middle[j].vouch_timestamp && a.vouches_of(x)[k].token
                        == middle[j].token;
                assert(a.vouches_of(x)[k].vouch_timestamp == last[i].vouch_timestamp);
            }
        }
    }
}

/// Where vouches do not change, neither do their dates.
proof fn lemma_same_dates(state: State, next: State, borrower: Address)
    requires
        next.vouches_of(borrower) == state.vouches_of(borrower),
    ensures
        state.dates_kept(next, borrower),
{
    let list = state.vouches_of(borrower);
    assert forall|i: int| 0 <= i < list.len() implies has_dated(list, #[trigger] list[i]) by {}
}

/// Where only one borrower's vouches change, only those matter.
proof fn lemma_one_list(state: State, next: State, borrower: Address)
    requires
        forall|b: Address|
            b != borrower ==> #[trigger] next.vouches_of(b) == state.vouches_of(b),
        state.dates_kept(next, borrower),
    ensures
        state.vouches_keep_dates(next),
{
    assert forall|b: Address| #[trigger] state.dates_kept(next, b) by {
        if b != borrower {
            assert(next.vouches_of(b) == state.vouches_of(b));
            lemma_same_dates(state, next, b);
        }
    }
}

/// A list without some vouches keeps the dates.
proof fn lemma_filtered_dates(
    state: State,
    next: State,
    borrower: Address,
    pred: spec_fn(VouchRecord) -> bool,
)
    requires
        next.vouches_of(borrower) == state.vouches_of(borrower).filter(pred),
    ensures
        state.dates_kept(next, borrower),
{
    let list = state.vouches_of(borrower);
    let kept = list.filter(pred);
    math::lemma_filter_contains(list, pred);
    assert forall|i: int| 0 <= i < kept.len() implies has_dated(list, #[trigger] kept[i]) by {
        assert(list.contains(kept[i]));
        let k = choose|k: int| 0 <= k < list.len() && list[k] == kept[i];
        assert(list[k].token == kept[i].token);
    }
}

proof fn lemma_removed_dates(state: State, next: State, borrower: Address, k: int)
    requires
        0 <= k < state.vouches_of(borrower).len(),
        next.vouches_of(borrower) == state.vouches_of(borrower).remove(k),
    ensures
        state.dates_kept(next, borrower),
{
    let list = state.vouches_of(borrower);
    let left = list.remove(k);
    assert forall|i: int| 0 <= i < left.len() implies has_dated(list, #[trigger] left[i]) by {
        let p = if i < k {
            i
        } else {
            i + 1
        };
        assert(left[i] == list[p]);
        assert(list[p].token == left[i].token);
    }
}

proof fn lemma_updated_dates(
    state: State,
    next: State,
    borrower: Address,
    k: int,
    record: VouchRecord,
)
    requires
        0 <= k < state.vouches_of(borrower).len(),
        record.vouch_timestamp == state.vouches_of(borrower)[k].vouch_timestamp,
        record.token == state.vouches_of(borrower)[k].token,
        next.vouches_of(borrower) == state.vouches_of(borrower).update(k, record),
    ensures
        state.dates_kept(next, borrower),
{
    let list = state.vouches_of(borrower);
    let updated = list.update(k, record);
    assert forall|i: int| 0 <= i < updated.len() implies has_dated(list, #[trigger] updated[i]) by {
        assert(list[i].token == updated[i].token);
    }
}

/// What is the same everywhere else stays so.
proof fn lemma_nothing_else(state: State, next: State)
    requires
        next.contract == state.contract,
        state.now <= next.now,
        state.config is Some ==> next.config is Some,
        next.loans == state.loans,
        next.loan_counts == state.loan_counts,
        next.repayment_counts == state.repayment_counts,
        next.default_counts == state.default_counts,
        next.slash_votes == state.slash_votes,
        next.proposals == state.proposals,
        next.pools == state.pools,
        next.borrower_list == state.borrower_list,
        next.loan_counter == state.loan_counter,
        next.pool_counter == state.pool_counter,
        next.proposal_counter == state.proposal_counter,
        forall|b: Address| #[trigger] state.is_blacklisted(b) ==> next.is_blacklisted(b),
        state.vouches_keep_dates(next),
    ensures
        state.evolves(next),
{
    assert(state.borrower_list =~= next.borrower_list.subrange(
        0,
        state.borrower_list.len() as int,
    ));
    assert forall|b: Address| #[trigger] state.slash_votes.contains_key(b) implies vote_evolves(
        state.slash_votes[b],
        next.slash_votes[b],
    ) by {
        let voters = state.slash_votes[b].voters;
        assert(voters =~= voters.subrange(0, voters.len() as int));
    }
}

/// As [`lemma_nothing_else`], where vouches stay the same too.
proof fn lemma_nothing(state: State, next: State)
    requires
        next == (State {
            now: next.now,
            config: next.config,
            deployer: next.deployer,
            blacklist: next.blacklist,
            whitelist: next.whitelist,
            referrers: next.referrers,
            slash_treasury: next.slash_treasury,
            paused: next.paused,
            min_stake: next.min_stake,
            max_loan_amount: next.max_loan_amount,
            min_vouchers: next.min_vouchers,
            max_vouchers_per_borrower: next.max_vouchers_per_borrower,
            protocol_fee_bps: next.protocol_fee_bps,
            fee_treasury: next.fee_treasury,
            reputation_nft: next.reputation_nft,
            referral_bonus_bps: next.referral_bonus_bps,
            slash_vote_quorum: next.slash_vote_quorum,
            voucher_history: next.voucher_history,
            last_vouch: next.last_vouch,
            active_loans: next.active_loans,
            latest_loans: next.latest_loans,
            effects: next.effects,
            ..state
        }),
        state.now <= next.now,
        state.config is Some ==> next.config is Some,
        forall|b: Address| #[trigger] state.is_blacklisted(b) ==> next.is_blacklisted(b),
    ensures
        state.evolves(next),
{
    assert forall|b: Address| #[trigger] state.dates_kept(next, b) by {
        lemma_same_dates(state, next, b);
    }
    lemma_nothing_else(state, next);
}

proof fn lemma_pledged_evolves(
    state: State,
    voucher: Address,
    borrower: Address,
    stake: i128,
    token: Address,
)
    ensures
        state.evolves(state.pledged(voucher, borrower, stake, token)),
{
    let next = state.pledged(voucher, borrower, stake, token);
    let list = state.vouches_of(borrower);
    let longer = next.vouches_of(borrower);
    assert forall|i: int| 0 <= i < longer.len() implies (#[trigger] longer[i]).vouch_timestamp
        >= state.now || has_dated(list, longer[i]) by {
        if i < list.len() {
            assert(list[i] == longer[i]);
            assert(list[i].token == longer[i].token);
        }
    }
    lemma_one_list(state, next, borrower);
    lemma_nothing_else(state, next);
}

proof fn lemma_pledged_all_evolves(
    state: State,
    voucher: Address,
    borrowers: Seq<Address>,
    amounts: Seq<i128>,
    token: Address,
)
    requires
        borrowers.len() == amounts.len(),
    ensures
        state.evolves(state.pledged_all(voucher, borrowers, amounts, token)),
    decreases borrowers.len(),
{
    if borrowers.len() == 0 {
        lemma_nothing(state, state);
    } else {
        let prior = state.pledged_all(
            voucher,
            borrowers.drop_last(),
            amounts.drop_last(),
            token,
        );
        lemma_pledged_all_evolves(
            state,
            voucher,
            borrowers.drop_last(),
            amounts.drop_last(),
            token,
        );
        lemma_pledged_evolves(prior, voucher, borrowers.last(), amounts.last(), token);
        evolves_is_transitive(
            state,
            prior,
            prior.pledged(voucher, borrowers.last(), amounts.last(), token),
        );
    }
}

/// What happens to the vouches of one borrower keeps the dates.
proof fn lemma_vouch_calls_evolve(state: State, call: Call)
    requires
        state.wf(),
        state.failure(call) is None,
        call is IncreaseStake || call is DecreaseStake || call is WithdrawVouch
            || call is TransferVouch,
    ensures
        state.evolves(state.after(call)),
{
    let next = state.after(call);
    match call {
        Call::IncreaseStake { voucher, borrower, additional } => {
            let list = state.vouches_of(borrower);
            vouch::lemma_first_vouch(list, voucher);
            let i = vouch::first_vouch(list, voucher)->0;
            lemma_updated_dates(state, next, borrower, i, next.vouches_of(borrower)[i]);
            lemma_one_list(state, next, borrower);
            lemma_nothing_else(state, next);
        },
        Call::DecreaseStake { voucher, borrower, amount } => {
            let list = state.vouches_of(borrower);
            vouch::lemma_first_vouch(list, voucher);
            let i = vouch::first_vouch(list, voucher)->0;
            if list[i].stake == amount {
                assert(next.vouches_of(borrower) =~= list.remove(i));
                lemma_removed_dates(state, next, borrower, i);
            } else {
                lemma_updated_dates(state, next, borrower, i, next.vouches_of(borrower)[i]);
            }
            lemma_one_list(state, next, borrower);
            lemma_nothing_else(state, next);
        },
        Call::WithdrawVouch { voucher, borrower } => {
            let list = state.vouches_of(borrower);
            vouch::lemma_first_vouch(list, voucher);
            let i = vouch::first_vouch(list, voucher)->0;
            assert(next.vouches_of(borrower) =~= list.remove(i));
            lemma_removed_dates(state, next, borrower, i);
            lemma_one_list(state, next, borrower);
            lemma_nothing_else(state, next);
        },
        Call::TransferVouch { from, to, borrower } => {
            if from == to {
                lemma_nothing(state, next);
            } else {
                let list = state.vouches_of(borrower);
                vouch::lemma_first_vouch(list, from);
                let i = vouch::first_vouch(list, from)->0;
                vouch::lemma_first_vouch_in(list, to, list[i].token);
                match vouch::first_vouch_in(list, to, list[i].token) {
                    Some(j) => {
                        let record = VouchRecord {
                            stake: (list[j].stake + list[i].stake) as i128,
                            ..list[j]
                        };
                        let merged = list.update(j, record);
                        let moved = merged.remove(i);
                        assert(next.vouches_of(borrower) == moved);
                        assert forall|k: int| 0 <= k < moved.len() implies has_dated(
                            list,
                            #[trigger] moved[k],
                        ) by {
                            let p = if k < i {
                                k
                            } else {
                                k + 1
                            };
                            assert(moved[k] == merged[p]);
                            assert(list[p].token == moved[k].token);
                        }
                    },
                    None => {
                        lemma_updated_dates(
                            state,
                            next,
                            borrower,
                            i,
                            next.vouches_of(borrower)[i],
                        );
                    },
                }
                lemma_one_list(state, next, borrower);
                lemma_nothing_else(state, next);
            }
        },
        _ => {},
    }
}

proof fn lemma_disbursed_evolves(
    state: State,
    borrower: Address,
    co_borrowers: Seq<Address>,
    amount: i128,
    loan_purpose: Seq<u8>,
    token: Address,
)
    requires
        state.loans_wf(),
        state.booking_failure(borrower, amount) is None,
    ensures
        state.evolves(state.disbursed(borrower, co_borrowers, amount, loan_purpose, token)),
{
    let next = state.disbursed(borrower, co_borrowers, amount, loan_purpose, token);
    assert forall|b: Address| #[trigger] state.dates_kept(next, b) by {
        lemma_same_dates(state, next, b);
    }
    lemma_lists_evolve(state, next);
    assert forall|id: u64| #[trigger] state.loans.contains_key(id) implies next.loans.contains_key(
        id,
    ) && loan_evolves(state.loans[id], next.loans[id]) by {
        assert(state.loan_wf(id));
    }
}

/// Where votes, proposals and pools stay the same, and borrowers are only added.
proof fn lemma_lists_evolve(state: State, next: State)
    requires
        next.slash_votes == state.slash_votes,
        next.proposals == state.proposals,
        next.pools == state.pools,
        next.borrower_list == state.borrower_list || next.borrower_list
            == state.borrower_list.push(next.borrower_list.last()),
    ensures
        state.governance_evolves(next),
        state.pools_stay(next),
        state.borrower_list.is_prefix_of(next.borrower_list),
{
    assert(state.borrower_list =~= next.borrower_list.subrange(
        0,
        state.borrower_list.len() as int,
    ));
    assert forall|b: Address| #[trigger] state.slash_votes.contains_key(b) implies vote_evolves(
        state.slash_votes[b],
        next.slash_votes[b],
    ) by {
        let voters = state.slash_votes[b].voters;
        assert(voters =~= voters.subrange(0, voters.len() as int));
    }
}

proof fn lemma_disbursed_all_evolves(
    state: State,
    borrowers: Seq<Address>,
    amounts: Seq<i128>,
    token: Address,
)
    requires
        state.wf(),
        state.config is Some,
        borrowers.len() == amounts.len(),
        borrowers.no_duplicates(),
        state.loan_counter + borrowers.len() <= u64::MAX,
        state.now + state.config->0.loan_duration <= u64::MAX,
        forall|i: int|
            0 <= i < borrowers.len() ==> #[trigger] state.is_bookable(borrowers[i], amounts[i]),
        forall|i: int|
            0 <= i < borrowers.len() ==> #[trigger] state.pool_item_failure(
                borrowers[i],
                amounts[i],
                false,
            ) is None,
    ensures
        state.evolves(state.disbursed_all(borrowers, amounts, token)),
    decreases borrowers.len(),
{
    if borrowers.len() == 0 {
        lemma_nothing(state, state);
    } else {
        let init = borrowers.drop_last();
        let sums = amounts.drop_last();
        let last = borrowers.len() - 1;
        let prior = state.disbursed_all(init, sums, token);
        assert forall|i: int| 0 <= i < init.len() implies #[trigger] state.is_bookable(
            init[i],
            sums[i],
        ) by {
            assert(state.is_bookable(borrowers[i], amounts[i]));
        }
        assert forall|i: int| 0 <= i < init.len() implies #[trigger] state.pool_item_failure(
            init[i],
            sums[i],
            false,
        ) is None by {
            assert(state.pool_item_failure(borrowers[i], amounts[i], false) is None);
        }
        lemma_disbursed_all_evolves(state, init, sums, token);
        wellformed::lemma_disbursed_all(state, init, sums, token);
        pool::lemma_disbursed_all(state, init, sums, token);
        let b = borrowers[last];
        assert(!init.contains(b));
        assert(state.is_bookable(borrowers[last], amounts[last]));
        assert(State::count(prior.loan_counts, b) == State::count(state.loan_counts, b));
        lemma_disbursed_evolves(prior, b, Seq::empty(), amounts[last], Seq::empty(), token);
        evolves_is_transitive(state, prior, state.disbursed_all(borrowers, amounts, token));
    }
}

/// The borrower's active loan changes, and nothing else of the loans.
proof fn lemma_one_loan(state: State, next: State, borrower: Address)
    requires
        state.loans_wf(),
        state.has_active_loan(borrower),
        ({
            let loan = state.active_loan(borrower)->0;
            &&& next.loans == state.loans.insert(loan.id, next.loans[loan.id])
            &&& loan_evolves(loan, next.loans[loan.id])
        }),
    ensures
        state.loans_evolve(next),
{
    let loan = state.active_loan(borrower)->0;
    wellformed::lemma_active(state, borrower);
    assert forall|id: u64| #[trigger] state.loans.contains_key(id) implies next.loans.contains_key(
        id,
    ) && loan_evolves(state.loans[id], next.loans[id]) by {
        assert(state.loan_wf(id));
    }
}

proof fn lemma_repaid_evolves(
    state: State,
    borrower: Address,
    payment: i128,
    contract_balance: i128,
)
    requires
        state.wf(),
        state.repay_failure(borrower, payment, contract_balance) is None,
    ensures
        state.evolves(state.repaid(borrower, payment)),
{
    let next = state.repaid(borrower, payment);
    let loan = state.active_loan(borrower)->0;
    wellformed::lemma_active(state, borrower);
    lemma_one_loan(state, next, borrower);
    lemma_lists_evolve(state, next);
    if loan.amount_repaid + payment >= loan.amount {
        assert(next.vouches_of(borrower) =~= Seq::empty());
        lemma_one_list(state, next, borrower);
    } else {
        assert forall|b: Address| #[trigger] state.dates_kept(next, b) by {
            lemma_same_dates(state, next, b);
        }
    }
}

proof fn lemma_defaulted_evolves(state: State, borrower: Address, reach: Reach)
    requires
        state.wf(),
        state.has_active_loan(borrower),
        state.default_failure(borrower, reach) is None,
    ensures
        state.evolves(state.defaulted(borrower, state.active_loan(borrower)->0, reach)),
{
    let loan = state.active_loan(borrower)->0;
    let next = state.defaulted(borrower, loan, reach);
    wellformed::lemma_active(state, borrower);
    lemma_one_loan(state, next, borrower);
    lemma_lists_evolve(state, next);
    let pred = slash::is_spared(reach);
    assert(next.vouches_of(borrower) =~= state.vouches_of(borrower).filter(pred));
    lemma_filtered_dates(state, next, borrower, pred);
    lemma_one_list(state, next, borrower);
}

proof fn lemma_claimed_evolves(state: State, borrower: Address)
    requires
        state.wf(),
        state.claim_failure(borrower) is None,
    ensures
        state.evolves(state.claimed(borrower)),
{
    let next = state.claimed(borrower);
    wellformed::lemma_active(state, borrower);
    lemma_one_loan(state, next, borrower);
    lemma_lists_evolve(state, next);
    assert(next.vouches_of(borrower) =~= Seq::empty());
    lemma_one_list(state, next, borrower);
}

proof fn lemma_slash_executed_evolves(state: State, borrower: Address)
    requires
        state.wf(),
        state.execute_slash_failure(borrower) is None,
    ensures
        state.evolves(state.slash_executed(borrower)),
{
    wellformed::lemma_active(state, borrower);
    let loan = state.active_loan(borrower)->0;
    let reach = Reach::OneToken(loan.token_address);
    lemma_defaulted_evolves(state, borrower, reach);
    let booked = state.defaulted(borrower, loan, reach);
    lemma_nothing(booked, state.slash_executed(borrower));
    evolves_is_transitive(state, booked, state.slash_executed(borrower));
}

/// Where votes or proposals change and nothing else does.
proof fn lemma_governance_only(state: State, next: State)
    requires
        next == (State {
            slash_votes: next.slash_votes,
            proposals: next.proposals,
            proposal_counter: next.proposal_counter,
            effects: next.effects,
            ..state
        }),
        state.proposal_counter <= next.proposal_counter,
        state.governance_evolves(next),
    ensures
        state.evolves(next),
{
    assert forall|b: Address| #[trigger] state.dates_kept(next, b) by {
        lemma_same_dates(state, next, b);
    }
    assert(state.borrower_list =~= next.borrower_list.subrange(
        0,
        state.borrower_list.len() as int,
    ));
}

proof fn lemma_votes_stay(state: State, next: State)
    requires
        next.slash_votes == state.slash_votes,
    ensures
        forall|b: Address| #[trigger]
            state.slash_votes.contains_key(b) ==> next.slash_votes.contains_key(b) && vote_evolves(
                state.slash_votes[b],
                next.slash_votes[b],
            ),
{
    assert forall|b: Address| #[trigger] state.slash_votes.contains_key(b) implies vote_evolves(
        state.slash_votes[b],
        next.slash_votes[b],
    ) by {
        let voters = state.slash_votes[b].voters;
        assert(voters =~= voters.subrange(0, voters.len() as int));
    }
}

proof fn lemma_vote_evolves(state: State, voucher: Address, borrower: Address, approve: bool)
    requires
        state.wf(),
        state.vote_failure(voucher, borrower, approve) is None,
    ensures
        state.evolves(state.slash_voted(voucher, borrower, approve)),
{
    let next = state.slash_voted(voucher, borrower, approve);
    let counted = state.vote_counted(voucher, borrower, approve);
    vouch::lemma_first_vouch(state.vouches_of(borrower), voucher);
    assert(state.vouch_of(voucher, borrower)->0.stake > 0) by {
        assert(state.vouches.contains_key(borrower));
    }
    assert forall|b: Address| #[trigger] state.slash_votes.contains_key(b) implies vote_evolves(
        state.slash_votes[b],
        counted.slash_votes[b],
    ) by {
        let voters = state.slash_votes[b].voters;
        assert(voters =~= counted.slash_votes[b].voters.subrange(0, voters.len() as int));
    }
    lemma_governance_only(state, counted);
    if state.vote_decides(voucher, borrower, approve) {
        wellformed::lemma_counted_vote(state, voucher, borrower, approve);
        assert(counted.execute_slash_failure(borrower) == state.execute_slash_failure(borrower));
        lemma_slash_executed_evolves(counted, borrower);
        evolves_is_transitive(state, counted, next);
    }
}

proof fn lemma_execution_evolves(state: State, proposal_id: u64)
    requires
        state.wf(),
        state.execution_failure(proposal_id) is None,
    ensures
        state.evolves(state.proposal_executed(proposal_id)),
{
    let borrower = state.proposals[proposal_id].action->Slash_0;
    let marked = state.proposal_marked(proposal_id);
    let next = state.proposal_executed(proposal_id);
    lemma_votes_stay(state, marked);
    lemma_governance_only(state, marked);
    wellformed::lemma_marked_proposal(state, proposal_id);
    assert(marked.execute_slash_failure(borrower) == state.execute_slash_failure(borrower));
    lemma_slash_executed_evolves(marked, borrower);
    evolves_is_transitive(state, marked, marked.slash_executed(borrower));
    lemma_nothing(marked.slash_executed(borrower), next);
    evolves_is_transitive(state, marked.slash_executed(borrower), next);
}

proof fn lemma_vouching_evolves(state: State, call: Call)
    requires
        state.failure(call) is None,
        call is Vouch || call is BatchVouch,
    ensures
        state.evolves(state.after(call)),
{
    match call {
        Call::Vouch { voucher, borrower, stake, token } => {
            let signed = state.authorize(voucher);
            lemma_nothing(state, signed);
            lemma_pledged_evolves(signed, voucher, borrower, stake, token);
            evolves_is_transitive(state, signed, state.after(call));
        },
        Call::BatchVouch { voucher, borrowers, stakes, token } => {
            let signed = state.authorize(voucher);
            lemma_nothing(state, signed);
            lemma_pledged_all_evolves(signed, voucher, borrowers, stakes, token);
            evolves_is_transitive(state, signed, state.after(call));
        },
        _ => {},
    }
}

proof fn lemma_request_evolves(state: State, call: Call)
    requires
        state.wf(),
        state.failure(call) is None,
        call is RequestLoan,
    ensures
        state.evolves(state.after(call)),
{
    if let Call::RequestLoan {
        borrower,
        co_borrowers,
        amount,
        threshold,
        loan_purpose,
        token,
        contract_balance,
    } = call {
        let signed = state.authorize(borrower).authorize_all(co_borrowers);
        lemma_nothing(state, signed);
        wellformed::lemma_effects_only(state, signed);
        lemma_disbursed_evolves(signed, borrower, co_borrowers, amount, loan_purpose, token);
        evolves_is_transitive(state, signed, state.after(call));
    }
}

proof fn lemma_slashing_evolves(state: State, call: Call)
    requires
        state.wf(),
        state.failure(call) is None,
        call is Slash || call is AutoSlash,
    ensures
        state.evolves(state.after(call)),
{
    let next = state.after(call);
    match call {
        Call::Slash { signers, borrower } => {
            let signed = state.authorize_all(signers);
            let booked = signed.defaulted(
                borrower,
                state.active_loan(borrower)->0,
                Reach::EveryToken,
            );
            lemma_nothing(state, signed);
            wellformed::lemma_effects_only(state, signed);
            lemma_defaulted_evolves(signed, borrower, Reach::EveryToken);
            evolves_is_transitive(state, signed, booked);
            lemma_nothing(booked, next);
            evolves_is_transitive(state, booked, next);
        },
        Call::AutoSlash { borrower } => {
            let booked = state.defaulted(
                borrower,
                state.active_loan(borrower)->0,
                Reach::EveryToken,
            );
            lemma_defaulted_evolves(state, borrower, Reach::EveryToken);
            lemma_nothing(booked, next);
            evolves_is_transitive(state, booked, next);
        },
        _ => {},
    }
}

proof fn lemma_proposals_evolve(state: State, call: Call)
    requires
        state.wf(),
        state.failure(call) is None,
        call is ProposeSlash || call is CancelSlashProposal,
    ensures
        state.evolves(state.after(call)),
{
    let next = state.after(call);
    assert forall|id: u64| #[trigger]
        state.proposals.contains_key(id) implies next.proposals.contains_key(id)
        && proposal_evolves(state.proposals[id], next.proposals[id]) by {
        assert(state.proposal_wf(id));
    }
    lemma_votes_stay(state, next);
    lemma_governance_only(state, next);
}

proof fn lemma_parameters_evolve(state: State, call: Call)
    requires
        state.failure(call) is None,
        call is NextLedger || call is Initialize || call is RegisterReferral
            || call is SlashTreasury || call is SetConfig || call is AddAdmin
            || call is RemoveAdmin || call is RotateAdmin || call is SetAdminThreshold
            || call is Adjust || call is Upgrade,
    ensures
        state.evolves(state.after(call)),
{
    lemma_nothing(state, state.after(call));
}

/// Whatever a call does, nothing that is final is undone.
pub proof fn step_evolves(state: State, call: Call)
    requires
        state.wf(),
    ensures
        state.evolves(state.step(call)),
{
    if state.failure(call) is Some {
        lemma_nothing(state, state);
    } else {
        match call {
            Call::Vouch { .. } => {
                lemma_vouching_evolves(state, call);
            },
            Call::BatchVouch { .. } => {
                lemma_vouching_evolves(state, call);
            },
            Call::IncreaseStake { .. } => {
                lemma_vouch_calls_evolve(state, call);
            },
            Call::DecreaseStake { .. } => {
                lemma_vouch_calls_evolve(state, call);
            },
            Call::WithdrawVouch { .. } => {
                lemma_vouch_calls_evolve(state, call);
            },
            Call::TransferVouch { .. } => {
                lemma_vouch_calls_evolve(state, call);
            },
            Call::RequestLoan { .. } => {
                lemma_request_evolves(state, call);
            },
            Call::Repay { borrower, payment, contract_balance } => {
                lemma_repaid_evolves(state, borrower, payment, contract_balance);
            },
            Call::Slash { .. } => {
                lemma_slashing_evolves(state, call);
            },
            Call::AutoSlash { .. } => {
                lemma_slashing_evolves(state, call);
            },
            Call::ClaimExpiredLoan { borrower } => {
                lemma_claimed_evolves(state, borrower);
            },
            Call::CreateLoanPool { signers, borrowers, amounts, contract_balance } => {
                lemma_pooled_evolves(state, signers, borrowers, amounts, contract_balance);
            },
            Call::VoteSlash { voucher, borrower, approve } => {
                lemma_vote_evolves(state, voucher, borrower, approve);
            },
            Call::ProposeSlash { .. } => {
                lemma_proposals_evolve(state, call);
            },
            Call::ExecuteSlashProposal { proposal_id } => {
                lemma_execution_evolves(state, proposal_id);
            },
            Call::CancelSlashProposal { .. } => {
                lemma_proposals_evolve(state, call);
            },
            _ => {
                lemma_parameters_evolve(state, call);
            },
        }
    }
}

proof fn lemma_pooled_evolves(
    state: State,
    signers: Seq<Address>,
    borrowers: Seq<Address>,
    amounts: Seq<i128>,
    contract_balance: i128,
)
    requires
        state.wf(),
        state.pool_failure(signers, borrowers, amounts, contract_balance) is None,
    ensures
        state.evolves(state.pooled(signers, borrowers, amounts)),
{
    let signed = state.authorize_all(signers);
    let token = state.config->0.token;
    let next = state.pooled(signers, borrowers, amounts);
    lemma_nothing(state, signed);
    wellformed::lemma_effects_only(state, signed);
    pool::lemma_pool_borrowers_distinct(state, borrowers, amounts);
    assert forall|i: int| 0 <= i < borrowers.len() implies #[trigger] signed.is_bookable(
        borrowers[i],
        amounts[i],
    ) by {
        assert(state.is_bookable(borrowers[i], amounts[i]));
    }
    assert forall|i: int| 0 <= i < borrowers.len() implies #[trigger] signed.pool_item_failure(
        borrowers[i],
        amounts[i],
        false,
    ) is None by {
        assert(state.pool_item_failure(borrowers[i], amounts[i], false) is None);
    }
    lemma_disbursed_all_evolves(signed, borrowers, amounts, token);
    pool::lemma_disbursed_all(signed, borrowers, amounts, token);
    let lent = signed.disbursed_all(borrowers, amounts, token);
    evolves_is_transitive(state, signed, lent);
    assert forall|id: u64| #[trigger] state.pools.contains_key(id) implies next.pools.contains_key(
        id,
    ) && next.pools[id] == state.pools[id] by {
        assert(state.pool_wf(id));
    }
    assert forall|b: Address| #[trigger] state.dates_kept(next, b) by {
        assert(state.dates_kept(lent, b));
        assert(next.vouches_of(b) == lent.vouches_of(b));
    }
    assert forall|b: Address| #[trigger] state.is_blacklisted(b) implies next.is_blacklisted(
        b,
    ) by {
        assert(lent.is_blacklisted(b));
    }
}

/// Over any sequence of calls nothing that is final is undone.
pub proof fn run_evolves(state: State, calls: Seq<Call>)
    requires
        state.wf(),
    ensures
        state.run(calls).wf(),
        state.evolves(state.run(calls)),
    decreases calls.len(),
{
    if calls.len() == 0 {
        lemma_nothing(state, state);
    } else {
        let prior = state.run(calls.drop_last());
        run_evolves(state, calls.drop_last());
        calls::step_keeps_wf(prior, calls.last());
        step_evolves(prior, calls.last());
        evolves_is_transitive(state, prior, state.run(calls));
    }
}

} // verus!
