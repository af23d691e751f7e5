//! Loan pools: several loans that are disbursed together.

use crate::address::Address;
use crate::contract::QuorumCreditContract;
use crate::env::{Env, State};
use crate::errors::{ContractError, Failure, Trap};
use crate::helpers::{approval_failure, has_active_loan, listed, require_not_paused};
use crate::loan::{disburse, loan_count};
use crate::math;
use crate::types::{LoanPoolRecord, LoanPoolView};
use vstd::prelude::*;

verus! {

/// The amounts as integers.
pub open spec fn as_ints(amounts: Seq<i128>) -> Seq<int> {
    amounts.map_values(|amount: i128| amount as int)
}

impl State {
    /// Why a loan of a pool is refused. `repeated` says that the borrower stands earlier in the
    /// pool.
    pub open spec fn pool_item_failure(
        self,
        borrower: Address,
        amount: i128,
        repeated: bool,
    ) -> Option<Failure> {
        if self.is_blacklisted(borrower) {
            Some(Failure::Contract(ContractError::Blacklisted))
        } else if amount <= 0 {
            Some(Failure::Contract(ContractError::InsufficientFunds))
        } else if self.has_active_loan(borrower) || repeated {
            Some(Failure::Contract(ContractError::PoolBorrowerActiveLoan))
        } else {
            None
        }
    }

    /// The first loan of a pool that is refused.
    pub open spec fn pool_items_failure(
        self,
        borrowers: Seq<Address>,
        amounts: Seq<i128>,
    ) -> Option<Failure>
        decreases borrowers.len(),
    {
        if borrowers.len() == 0 {
            None
        } else {
            let earlier = self.pool_items_failure(borrowers.drop_last(), amounts.drop_last());
            if earlier is Some {
                earlier
            } else {
                self.pool_item_failure(
                    borrowers.last(),
                    amounts.last(),
                    borrowers.drop_last().contains(borrowers.last()),
                )
            }
        }
    }

    /// The yield of a loan can be computed, and the borrower's loans can be counted.
    pub open spec fn is_bookable(self, borrower: Address, amount: i128) -> bool {
        math::fits(amount * self.config->0.yield_bps) && State::count(self.loan_counts, borrower)
            < u32::MAX
    }

    /// Why the loans of a pool cannot be booked.
    pub open spec fn pool_booking_failure(
        self,
        borrowers: Seq<Address>,
        amounts: Seq<i128>,
    ) -> Option<Failure> {
        if self.now + self.config->0.loan_duration > u64::MAX || !(forall|i: int|
            0 <= i < borrowers.len() ==> #[trigger] self.is_bookable(borrowers[i], amounts[i])) {
            Some(Failure::Trap(Trap::Overflow))
        } else if self.loan_counter + borrowers.len() > u64::MAX {
            Some(Failure::Trap(Trap::LoanIdOverflow))
        } else if self.pool_counter == u64::MAX {
            Some(Failure::Trap(Trap::PoolIdOverflow))
        } else {
            None
        }
    }

    /// `contract_balance` is what the contract holds of the protocol token.
    pub open spec fn pool_failure(
        self,
        signers: Seq<Address>,
        borrowers: Seq<Address>,
        amounts: Seq<i128>,
        contract_balance: i128,
    ) -> Option<Failure> {
        if self.approval_failure(signers) is Some {
            self.approval_failure(signers)
        } else if self.paused {
            self.pause_failure()
        } else if borrowers.len() != amounts.len() {
            Some(Failure::Contract(ContractError::PoolLengthMismatch))
        } else if borrowers.len() == 0 {
            Some(Failure::Contract(ContractError::PoolEmpty))
        } else if self.pool_items_failure(borrowers, amounts) is Some {
            self.pool_items_failure(borrowers, amounts)
        } else if !math::adds_up(as_ints(amounts)) {
            Some(Failure::Trap(Trap::Overflow))
        } else if contract_balance < math::sum(as_ints(amounts)) {
            Some(Failure::Contract(ContractError::InsufficientFunds))
        } else {
            self.pool_booking_failure(borrowers, amounts)
        }
    }

    /// One loan after another, without co-borrowers or purpose.
    pub open spec fn disbursed_all(
        self,
        borrowers: Seq<Address>,
        amounts: Seq<i128>,
        token: Address,
    ) -> State
        decreases borrowers.len(),
    {
        if borrowers.len() == 0 {
            self
        } else {
            self.disbursed_all(borrowers.drop_last(), amounts.drop_last(), token).disbursed(
                borrowers.last(),
                Seq::empty(),
                amounts.last(),
                Seq::empty(),
                token,
            )
        }
    }

    /// All loans are disbursed in the protocol token and the pool is recorded.
    pub open spec fn pooled(
        self,
        signers: Seq<Address>,
        borrowers: Seq<Address>,
        amounts: Seq<i128>,
    ) -> State {
        let pool_id = (self.pool_counter + 1) as u64;
        let lent = self.authorize_all(signers).disbursed_all(
            borrowers,
            amounts,
            self.config->0.token,
        );
        State {
            pools: self.pools.insert(
                pool_id,
                LoanPoolView {
                    pool_id,
                    borrowers,
                    amounts,
                    created_at: self.now,
                    total_disbursed: math::sum(as_ints(amounts)) as i128,
                },
            ),
            pool_counter: pool_id,
            ..lent
        }
    }
}

/// What is refused of a part of a pool is refused of the pool.
proof fn lemma_pool_items_failure_stays(
    state: State,
    borrowers: Seq<Address>,
    amounts: Seq<i128>,
    k: int,
)
    requires
        borrowers.len() == amounts.len(),
        0 <= k <= borrowers.len(),
        state.pool_items_failure(borrowers.take(k), amounts.take(k)) is Some,
    ensures
        state.pool_items_failure(borrowers, amounts) == state.pool_items_failure(
            borrowers.take(k),
            amounts.take(k),
        ),
    decreases borrowers.len() - k,
{
    if k < borrowers.len() {
        assert(borrowers.take(k + 1).drop_last() =~= borrowers.take(k));
        assert(amounts.take(k + 1).drop_last() =~= amounts.take(k));
        lemma_pool_items_failure_stays(state, borrowers, amounts, k + 1);
    } else {
        assert(borrowers.take(k) =~= borrowers);
        assert(amounts.take(k) =~= amounts);
    }
}

/// A pool that passes has distinct borrowers.
pub proof fn lemma_pool_borrowers_distinct(state: State, borrowers: Seq<Address>, amounts: Seq<i128>)
    requires
        borrowers.len() == amounts.len(),
        state.pool_items_failure(borrowers, amounts) is None,
    ensures
        borrowers.no_duplicates(),
        forall|i: int|
            0 <= i < borrowers.len() ==> #[trigger] state.pool_item_failure(
                borrowers[i],
                amounts[i],
                false,
            ) is None,
    decreases borrowers.len(),
{
    if borrowers.len() > 0 {
        lemma_pool_borrowers_distinct(state, borrowers.drop_last(), amounts.drop_last());
        let last = borrowers.len() - 1;
        assert forall|i: int| 0 <= i < borrowers.len() implies #[trigger] state.pool_item_failure(
            borrowers[i],
            amounts[i],
            false,
        ) is None by {
            if i < last {
                assert(state.pool_item_failure(
                    borrowers.drop_last()[i],
                    amounts.drop_last()[i],
                    false,
                ) is None);
            }
        }
        assert forall|i: int, j: int|
            0 <= i < borrowers.len() && 0 <= j < borrowers.len() && i != j implies borrowers[i]
            != borrowers[j] by {
            assert(i < last ==> borrowers.drop_last()[i] == borrowers[i]);
            assert(j < last ==> borrowers.drop_last()[j] == borrowers[j]);
        }
    }
}

/// What lending to several borrowers changes, besides the loans.
pub proof fn lemma_disbursed_all(
    state: State,
    borrowers: Seq<Address>,
    amounts: Seq<i128>,
    token: Address,
)
    requires
        borrowers.len() == amounts.len(),
        state.loan_counter + borrowers.len() <= u64::MAX,
    ensures
        ({
            let next = state.disbursed_all(borrowers, amounts, token);
            &&& next == State {
                loans: next.loans,
                active_loans: next.active_loans,
                latest_loans: next.latest_loans,
                loan_counts: next.loan_counts,
                loan_counter: (state.loan_counter + borrowers.len()) as u64,
                borrower_list: state.borrower_list + borrowers,
                effects: next.effects,
                ..state
            }
            &&& forall|b: Address|
                !borrowers.contains(b) ==> #[trigger] State::count(next.loan_counts, b)
                    == State::count(state.loan_counts, b)
        }),
    decreases borrowers.len(),
{
    let next = state.disbursed_all(borrowers, amounts, token);
    if borrowers.len() == 0 {
        assert(state.borrower_list + borrowers =~= state.borrower_list);
    } else {
        let prior = state.disbursed_all(borrowers.drop_last(), amounts.drop_last(), token);
        lemma_disbursed_all(state, borrowers.drop_last(), amounts.drop_last(), token);
        assert(state.borrower_list + borrowers =~= (state.borrower_list
            + borrowers.drop_last()).push(borrowers.last()));
        assert forall|b: Address| !borrowers.contains(b) implies #[trigger] State::count(
            next.loan_counts,
            b,
        ) == State::count(state.loan_counts, b) by {
            assert(borrowers[borrowers.len() - 1] != b);
            assert(!borrowers.drop_last().contains(b)) by {
                if borrowers.drop_last().contains(b) {
                    let i = choose|i: int|
                        0 <= i < borrowers.drop_last().len() && borrowers.drop_last()[i] == b;
                    assert(borrowers[i] == b);
                }
            }
            assert(State::count(prior.loan_counts, b) == State::count(state.loan_counts, b));
        }
    }
}

fn pool_items_failure(env: &Env, borrowers: &Vec<Address>, amounts: &Vec<i128>) -> (failure: Option<
    Failure,
>)
    requires
        borrowers@.len() == amounts@.len(),
    ensures
        failure == env@.pool_items_failure(borrowers@, amounts@),
{
    let mut earlier: Vec<Address> = Vec::new();
    let mut i: usize = 0;
    while i < borrowers.len()
        invariant
            i <= borrowers@.len(),
            borrowers@.len() == amounts@.len(),
            earlier@ == borrowers@.take(i as int),
            env@.pool_items_failure(borrowers@.take(i as int), amounts@.take(i as int)) is None,
        decreases borrowers@.len() - i,
    {
        proof {
            assert(borrowers@.take(i + 1).drop_last() =~= borrowers@.take(i as int));
            assert(amounts@.take(i + 1).drop_last() =~= amounts@.take(i as int));
            if env@.pool_items_failure(borrowers@.take(i + 1), amounts@.take(i + 1)) is Some {
                lemma_pool_items_failure_stays(env@, borrowers@, amounts@, i + 1);
            }
        }
        let banned: bool = match env.blacklist.get(&borrowers[i]) {
            Some(banned) => *banned,
            None => false,
        };
        if banned {
            return Some(Failure::Contract(ContractError::Blacklisted));
        }
        if amounts[i] <= 0 {
            return Some(Failure::Contract(ContractError::InsufficientFunds));
        }
        if has_active_loan(env, &borrowers[i]) || listed(&earlier, &borrowers[i]) {
            return Some(Failure::Contract(ContractError::PoolBorrowerActiveLoan));
        }
        earlier.push(borrowers[i]);
        i = i + 1;
        assert(earlier@ =~= borrowers@.take(i as int));
    }
    assert(borrowers@.take(i as int) =~= borrowers@);
    assert(amounts@.take(i as int) =~= amounts@);
    None
}

/// Adds up the amounts; `None` where that overflows.
fn total_amount(amounts: &Vec<i128>) -> (total: Option<i128>)
    ensures
        match total {
            Some(total) => math::adds_up(as_ints(amounts@)) && total == math::sum(
                as_ints(amounts@),
            ),
            None => !math::adds_up(as_ints(amounts@)),
        },
{
    let ghost ints = as_ints(amounts@);
    let mut total: i128 = 0;
    let mut i: usize = 0;
    assert(math::sum(ints.take(0)) == 0);
    while i < amounts.len()
        invariant
            i <= amounts@.len(),
            ints == as_ints(amounts@),
            total == math::sum(ints.take(i as int)),
            forall|k: int| 0 <= k <= i ==> math::fits(#[trigger] math::sum(ints.take(k))),
        decreases amounts@.len() - i,
    {
        proof {
            math::lemma_sum_step(ints, i as int);
        }
        match total.checked_add(amounts[i]) {
            Some(next) => {
                total = next;
            },
            None => {
                assert(!math::fits(math::sum(ints.take(i + 1))));
                return None;
            },
        }
        i = i + 1;
    }
    assert(ints.take(i as int) =~= ints);
    Some(total)
}

fn pool_booking_failure(env: &Env, borrowers: &Vec<Address>, amounts: &Vec<i128>) -> (failure:
    Option<Failure>)
    requires
        env@.config is Some,
        borrowers@.len() == amounts@.len(),
    ensures
        failure == env@.pool_booking_failure(borrowers@, amounts@),
{
    let (loan_duration, yield_bps): (u64, i128) = match &env.config {
        Some(config) => (config.loan_duration, config.yield_bps),
        None => (0, 0),
    };
    if env.now.checked_add(loan_duration).is_none() {
        return Some(Failure::Trap(Trap::Overflow));
    }
    let mut i: usize = 0;
    while i < borrowers.len()
        invariant
            i <= borrowers@.len(),
            borrowers@.len() == amounts@.len(),
            env@.config is Some,
            yield_bps == env@.config->0.yield_bps,
            env@.now + env@.config->0.loan_duration <= u64::MAX,
            forall|k: int|
                0 <= k < i ==> #[trigger] env@.is_bookable(borrowers@[k], amounts@[k]),
        decreases borrowers@.len() - i,
    {
        if amounts[i].checked_mul(yield_bps).is_none() || loan_count(env, &borrowers[i])
            == u32::MAX {
            assert(!env@.is_bookable(borrowers@[i as int], amounts@[i as int]));
            return Some(Failure::Trap(Trap::Overflow));
        }
        i = i + 1;
    }
    if u64::MAX - env.loan_counter < borrowers.len() as u64 {
        return Some(Failure::Trap(Trap::LoanIdOverflow));
    }
    if env.pool_counter == u64::MAX {
        return Some(Failure::Trap(Trap::PoolIdOverflow));
    }
    None
}

impl QuorumCreditContract {
    /// Admin function: atomically disburse a batch of small loans to multiple borrowers.
    /// Returns the pool's id. `contract_balance` is what the contract holds of the protocol
    /// token.
    pub fn create_loan_pool(
        env: &mut Env,
        admin_signers: Vec<Address>,
        borrowers: Vec<Address>,
        amounts: Vec<i128>,
        contract_balance: i128,
    ) -> (res: Result<u64, Failure>)
        ensures
            res == State::verdict(
                old(env)@.pool_failure(
                    admin_signers@,
                    borrowers@,
                    amounts@,
                    contract_balance,
                ),
                (old(env)@.pool_counter + 1) as u64,
            ),
            final(env)@ == old(env)@.unless_failed(
                old(env)@.pool_failure(
                    admin_signers@,
                    borrowers@,
                    amounts@,
                    contract_balance,
                ),
                old(env)@.pooled(admin_signers@, borrowers@, amounts@),
            ),
    {
        if let Some(failure) = approval_failure(env, &admin_signers) {
            return Err(failure);
        }
        if let Err(error) = require_not_paused(env) {
            return Err(Failure::Contract(error));
        }
        if borrowers.len() != amounts.len() {
            return Err(Failure::Contract(ContractError::PoolLengthMismatch));
        }
        if borrowers.len() == 0 {
            return Err(Failure::Contract(ContractError::PoolEmpty));
        }
        if let Some(failure) = pool_items_failure(env, &borrowers, &amounts) {
            return Err(failure);
        }
        let total_disbursed: i128 = match total_amount(&amounts) {
            Some(total) => total,
            None => {
                return Err(Failure::Trap(Trap::Overflow));
            },
        };
        if contract_balance < total_disbursed {
            return Err(Failure::Contract(ContractError::InsufficientFunds));
        }
        if let Some(failure) = pool_booking_failure(env, &borrowers, &amounts) {
            return Err(failure);
        }
        let token: Address = match &env.config {
            Some(config) => config.token,
            None => {
                return Err(Failure::Trap(Trap::NotInitialized));
            },
        };
        env.authorize_all(&admin_signers);
        let ghost start = env@;
        proof {
            lemma_pool_borrowers_distinct(old(env)@, borrowers@, amounts@);
            assert forall|k: int| 0 <= k < borrowers@.len() implies #[trigger] start.is_bookable(
                borrowers@[k],
                amounts@[k],
            ) by {
                assert(old(env)@.is_bookable(borrowers@[k], amounts@[k]));
            }
        }
        let mut i: usize = 0;
        while i < borrowers.len()
            invariant
                i <= borrowers@.len(),
                borrowers@.len() == amounts@.len(),
                borrowers@.no_duplicates(),
                start.config is Some,
                start.pool_booking_failure(borrowers@, amounts@) is None,
                env@ == start.disbursed_all(
                    borrowers@.take(i as int),
                    amounts@.take(i as int),
                    token,
                ),
            decreases borrowers@.len() - i,
        {
            proof {
                lemma_disbursed_all(
                    start,
                    borrowers@.take(i as int),
                    amounts@.take(i as int),
                    token,
                );
                assert(!borrowers@.take(i as int).contains(borrowers@[i as int]));
                assert(start.is_bookable(borrowers@[i as int], amounts@[i as int]));
                assert(State::count(env@.loan_counts, borrowers@[i as int]) == State::count(
                    start.loan_counts,
                    borrowers@[i as int],
                ));
                assert(borrowers@.take(i + 1).drop_last() =~= borrowers@.take(i as int));
                assert(amounts@.take(i + 1).drop_last() =~= amounts@.take(i as int));
            }
            let nobody: Vec<Address> = Vec::new();
            let purpose: Vec<u8> = Vec::new();
            assert(nobody@ =~= Seq::empty());
            assert(purpose@ =~= Seq::empty());
            disburse(env, borrowers[i], nobody, amounts[i], purpose, token);
            i = i + 1;
        }
        proof {
            assert(borrowers@.take(i as int) =~= borrowers@);
            assert(amounts@.take(i as int) =~= amounts@);
            lemma_disbursed_all(start, borrowers@, amounts@, token);
        }
        let pool_id: u64 = env.pool_counter + 1;
        let created_at: u64 = env.now;
        env.pools.insert(
            pool_id,
            LoanPoolRecord { pool_id, borrowers, amounts, created_at, total_disbursed },
        );
        env.pool_counter = pool_id;
        assert(env@ =~= old(env)@.pooled(admin_signers@, borrowers@, amounts@));
        Ok(pool_id)
    }

    /// Returns a loan pool by id.
    pub fn get_loan_pool(env: &Env, pool_id: u64) -> (pool: Option<LoanPoolRecord>)
        ensures
            match pool {
                Some(pool) => env@.pools.contains_key(pool_id) && pool@ == env@.pools[pool_id],
                None => !env@.pools.contains_key(pool_id),
            },
    {
        match env.pools.get(&pool_id) {
            Some(pool) => Some(pool.clone()),
            None => None,
        }
    }

    /// Returns the number of loan pools.
    pub fn get_loan_pool_count(env: &Env) -> (count: u64)
        ensures
            count == env@.pool_counter,
    {
        env.pool_counter
    }
}

} // verus!
