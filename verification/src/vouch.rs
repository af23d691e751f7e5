//! Staking behind a borrower, and taking the stake back while no loan is active.

use crate::address::Address;
use crate::env::{Env, Event, State};
use crate::errors::{ContractError, Failure, Trap};
use crate::helpers::{
    has_active_loan, listed, require_allowed_token, require_not_paused, require_positive_amount,
};
use crate::math;
use crate::types::VouchRecord;
use vstd::prelude::*;

verus! {

/// Where the first vouch of a voucher stands in a list.
pub open spec fn first_vouch(vouches: Seq<VouchRecord>, voucher: Address) -> Option<int> {
    vouches.map_values(|vouch: VouchRecord| vouch.voucher).index_of_first(voucher)
}

/// Where the first vouch of a voucher in one token stands in a list.
pub open spec fn first_vouch_in(
    vouches: Seq<VouchRecord>,
    voucher: Address,
    token: Address,
) -> Option<int> {
    vouches.map_values(|vouch: VouchRecord| (vouch.voucher, vouch.token)).index_of_first(
        (voucher, token),
    )
}

/// The list holds a vouch of this voucher in this token.
pub open spec fn has_vouch_in(vouches: Seq<VouchRecord>, voucher: Address, token: Address) -> bool {
    exists|i: int|
        0 <= i < vouches.len() && (#[trigger] vouches[i]).voucher == voucher && vouches[i].token
            == token
}

/// The stakes of a list.
pub open spec fn stakes(vouches: Seq<VouchRecord>) -> Seq<int> {
    vouches.map_values(|vouch: VouchRecord| vouch.stake as int)
}

/// The stakes of a list, with 0 in place of those in another token.
pub open spec fn stakes_in(vouches: Seq<VouchRecord>, token: Address) -> Seq<int> {
    vouches.map_values(
        |vouch: VouchRecord|
            if vouch.token == token {
                vouch.stake as int
            } else {
                0
            },
    )
}

/// What [`first_vouch`] finds.
pub proof fn lemma_first_vouch(vouches: Seq<VouchRecord>, voucher: Address)
    ensures
        match first_vouch(vouches, voucher) {
            Some(i) => {
                &&& 0 <= i < vouches.len()
                &&& vouches[i].voucher == voucher
                &&& forall|j: int| 0 <= j < i ==> (#[trigger] vouches[j]).voucher != voucher
            },
            None => forall|j: int|
                0 <= j < vouches.len() ==> (#[trigger] vouches[j]).voucher != voucher,
        },
{
    let vouchers = vouches.map_values(|vouch: VouchRecord| vouch.voucher);
    vouchers.index_of_first_ensures(voucher);
    assert forall|j: int| 0 <= j < vouches.len() implies (#[trigger] vouches[j]).voucher
        == vouchers[j] by {}
}

/// What [`first_vouch_in`] finds.
pub proof fn lemma_first_vouch_in(vouches: Seq<VouchRecord>, voucher: Address, token: Address)
    ensures
        match first_vouch_in(vouches, voucher, token) {
            Some(i) => {
                &&& 0 <= i < vouches.len()
                &&& vouches[i].voucher == voucher
                &&& vouches[i].token == token
                &&& forall|j: int|
                    0 <= j < i ==> !((#[trigger] vouches[j]).voucher == voucher && vouches[j].token
                        == token)
            },
            None => !has_vouch_in(vouches, voucher, token),
        },
{
    let pairs = vouches.map_values(|vouch: VouchRecord| (vouch.voucher, vouch.token));
    pairs.index_of_first_ensures((voucher, token));
    assert forall|j: int| 0 <= j < vouches.len() implies pairs[j] == ((
    #[trigger] vouches[j]).voucher, vouches[j].token) by {}
}

/// Where the first vouch of a voucher in one token stands.
fn position_in(vouches: &Vec<VouchRecord>, voucher: &Address, token: &Address) -> (found: Option<
    usize,
>)
    ensures
        match found {
            Some(i) => i < vouches@.len() && first_vouch_in(vouches@, *voucher, *token) == Some(
                i as int,
            ),
            None => first_vouch_in(vouches@, *voucher, *token) is None,
        },
{
    proof {
        lemma_first_vouch_in(vouches@, *voucher, *token);
    }
    let mut i: usize = 0;
    while i < vouches.len()
        invariant
            i <= vouches@.len(),
            forall|j: int|
                0 <= j < i ==> !((#[trigger] vouches@[j]).voucher == *voucher && vouches@[j].token
                    == *token),
        decreases vouches@.len() - i,
    {
        if vouches[i].voucher == *voucher && vouches[i].token == *token {
            proof {
                lemma_first_vouch_in(vouches@, *voucher, *token);
                let k = first_vouch_in(vouches@, *voucher, *token)->0;
                assert(vouches@[i as int].voucher == *voucher);
                assert(vouches@[k].voucher == *voucher);
            }
            return Some(i);
        }
        i = i + 1;
    }
    None
}

/// Where the first vouch of a voucher stands.
pub(crate) fn position(vouches: &Vec<VouchRecord>, voucher: &Address) -> (found: Option<usize>)
    ensures
        match found {
            Some(i) => i < vouches@.len() && first_vouch(vouches@, *voucher) == Some(i as int),
            None => first_vouch(vouches@, *voucher) is None,
        },
{
    proof {
        lemma_first_vouch(vouches@, *voucher);
    }
    let mut i: usize = 0;
    while i < vouches.len()
        invariant
            i <= vouches@.len(),
            forall|j: int| 0 <= j < i ==> (#[trigger] vouches@[j]).voucher != *voucher,
        decreases vouches@.len() - i,
    {
        if vouches[i].voucher == *voucher {
            proof {
                lemma_first_vouch(vouches@, *voucher);
                let k = first_vouch(vouches@, *voucher)->0;
                assert(vouches@[i as int].voucher == *voucher);
                assert(vouches@[k].voucher == *voucher);
            }
            return Some(i);
        }
        i = i + 1;
    }
    None
}

impl State {
    pub open spec fn last_vouch_of(self, voucher: Address) -> u64 {
        if self.last_vouch.contains_key(voucher) {
            self.last_vouch[voucher]
        } else {
            0
        }
    }

    /// The borrowers that a voucher has backed, oldest first.
    pub open spec fn history_of(self, voucher: Address) -> Seq<Address> {
        if self.voucher_history.contains_key(voucher) {
            self.voucher_history[voucher]
        } else {
            Seq::empty()
        }
    }

    /// The state with another list of vouches behind a borrower; an empty list is not stored.
    pub open spec fn with_vouches(self, borrower: Address, vouches: Seq<VouchRecord>) -> State {
        State {
            vouches: if vouches.len() == 0 {
                self.vouches.remove(borrower)
            } else {
                self.vouches.insert(borrower, vouches)
            },
            ..self
        }
    }

    /// Why a voucher must wait: the cooldown runs from its last vouch, if it ever vouched.
    pub open spec fn cooldown_failure(self, last: u64, cooldown: u64) -> Option<Failure> {
        if cooldown == 0 || last == 0 {
            None
        } else if last + cooldown > u64::MAX {
            Some(Failure::Trap(Trap::Overflow))
        } else if self.now < last + cooldown {
            Some(Failure::Contract(ContractError::VouchCooldownActive))
        } else {
            None
        }
    }

    /// Why a stake behind a borrower is refused. `last` is the time of the voucher's last vouch
    /// call; `repeated` says that the borrower was backed before in the same call.
    pub open spec fn pledge_failure(
        self,
        voucher: Address,
        borrower: Address,
        stake: i128,
        token: Address,
        last: u64,
        repeated: bool,
    ) -> Option<Failure> {
        let vouches = self.vouches_of(borrower);
        if stake <= 0 {
            Some(Failure::Contract(ContractError::InsufficientFunds))
        } else if voucher == borrower {
            Some(Failure::Trap(Trap::SelfVouch))
        } else if self.is_blacklisted(borrower) {
            Some(Failure::Contract(ContractError::Blacklisted))
        } else if self.token_failure(token) is Some {
            self.token_failure(token)
        } else if self.min_stake > 0 && stake < self.min_stake {
            Some(Failure::Contract(ContractError::MinStakeNotMet))
        } else if stake < self.config->0.min_yield_stake {
            Some(Failure::Trap(Trap::StakeBelowYieldMinimum))
        } else if self.cooldown_failure(last, self.config->0.vouch_cooldown_secs) is Some {
            self.cooldown_failure(last, self.config->0.vouch_cooldown_secs)
        } else if repeated || has_vouch_in(vouches, voucher, token) {
            Some(Failure::Contract(ContractError::DuplicateVouch))
        } else if vouches.len() >= self.max_vouchers_per_borrower {
            Some(Failure::Contract(ContractError::MaxVouchersPerBorrowerExceeded))
        } else if vouches.len() >= self.config->0.max_vouchers {
            Some(Failure::Trap(Trap::MaxVouchersPerLoan))
        } else if self.has_active_loan(borrower) {
            Some(Failure::Contract(ContractError::ActiveLoanExists))
        } else {
            None
        }
    }

    /// A stake is taken in and recorded.
    pub open spec fn pledged(
        self,
        voucher: Address,
        borrower: Address,
        stake: i128,
        token: Address,
    ) -> State {
        State {
            vouches: self.vouches.insert(
                borrower,
                self.vouches_of(borrower).push(
                    VouchRecord { voucher, stake, vouch_timestamp: self.now, token },
                ),
            ),
            voucher_history: self.voucher_history.insert(
                voucher,
                self.history_of(voucher).push(borrower),
            ),
            last_vouch: self.last_vouch.insert(voucher, self.now),
            ..self
        }.collect(token, voucher, stake).publish(
            Event::VouchAdded { voucher, borrower, stake, token },
        )
    }

    pub open spec fn vouch_failure(
        self,
        voucher: Address,
        borrower: Address,
        stake: i128,
        token: Address,
    ) -> Option<Failure> {
        if self.paused {
            self.pause_failure()
        } else {
            self.pledge_failure(
                voucher,
                borrower,
                stake,
                token,
                self.last_vouch_of(voucher),
                false,
            )
        }
    }

    pub open spec fn vouched(
        self,
        voucher: Address,
        borrower: Address,
        stake: i128,
        token: Address,
    ) -> State {
        self.authorize(voucher).pledged(voucher, borrower, stake, token)
    }

    /// One stake after another.
    pub open spec fn pledged_all(
        self,
        voucher: Address,
        borrowers: Seq<Address>,
        amounts: Seq<i128>,
        token: Address,
    ) -> State
        decreases borrowers.len(),
    {
        if borrowers.len() == 0 {
            self
        } else {
            self.pledged_all(voucher, borrowers.drop_last(), amounts.drop_last(), token).pledged(
                voucher,
                borrowers.last(),
                amounts.last(),
                token,
            )
        }
    }

    /// The first stake of a batch that is refused, each on top of those before it.
    pub open spec fn pledges_failure(
        self,
        voucher: Address,
        borrowers: Seq<Address>,
        amounts: Seq<i128>,
        token: Address,
        last: u64,
    ) -> Option<Failure>
        decreases borrowers.len(),
    {
        if borrowers.len() == 0 {
            None
        } else {
            let earlier = self.pledges_failure(
                voucher,
                borrowers.drop_last(),
                amounts.drop_last(),
                token,
                last,
            );
            if earlier is Some {
                earlier
            } else {
                self.pledged_all(
                    voucher,
                    borrowers.drop_last(),
                    amounts.drop_last(),
                    token,
                ).pledge_failure(
                    voucher,
                    borrowers.last(),
                    amounts.last(),
                    token,
                    last,
                    false,
                )
            }
        }
    }

    pub open spec fn batch_vouch_failure(
        self,
        voucher: Address,
        borrowers: Seq<Address>,
        amounts: Seq<i128>,
        token: Address,
    ) -> Option<Failure> {
        if self.paused {
            self.pause_failure()
        } else if borrowers.len() != amounts.len() {
            Some(Failure::Trap(Trap::BatchLengthMismatch))
        } else if borrowers.len() == 0 {
            Some(Failure::Trap(Trap::BatchEmpty))
        } else {
            self.pledges_failure(
                voucher,
                borrowers,
                amounts,
                token,
                self.last_vouch_of(voucher),
            )
        }
    }

    pub open spec fn batch_vouched(
        self,
        voucher: Address,
        borrowers: Seq<Address>,
        amounts: Seq<i128>,
        token: Address,
    ) -> State {
        self.authorize(voucher).pledged_all(voucher, borrowers, amounts, token)
    }

    /// The voucher's first vouch for a borrower.
    pub open spec fn vouch_of(self, voucher: Address, borrower: Address) -> Option<VouchRecord> {
        match first_vouch(self.vouches_of(borrower), voucher) {
            Some(i) => Some(self.vouches_of(borrower)[i]),
            None => None,
        }
    }

    pub open spec fn increase_failure(
        self,
        voucher: Address,
        borrower: Address,
        additional: i128,
    ) -> Option<Failure> {
        if self.paused {
            self.pause_failure()
        } else if additional <= 0 {
            Some(Failure::Contract(ContractError::InsufficientFunds))
        } else {
            match self.vouch_of(voucher, borrower) {
                None => Some(Failure::Trap(Trap::VouchNotFound)),
                Some(vouch) => if self.token_failure(vouch.token) is Some {
                    self.token_failure(vouch.token)
                } else if !math::fits(vouch.stake + additional) {
                    Some(Failure::Trap(Trap::Overflow))
                } else {
                    None
                },
            }
        }
    }

    /// More stake goes onto the voucher's first vouch, in that vouch's token.
    pub open spec fn increased(
        self,
        voucher: Address,
        borrower: Address,
        additional: i128,
    ) -> State {
        let vouches = self.vouches_of(borrower);
        let i = first_vouch(vouches, voucher)->0;
        State {
            vouches: self.vouches.insert(
                borrower,
                vouches.update(
                    i,
                    VouchRecord { stake: (vouches[i].stake + additional) as i128, ..vouches[i] },
                ),
            ),
            ..self
        }.authorize(voucher).collect(vouches[i].token, voucher, additional)
    }

    pub open spec fn decrease_failure(
        self,
        voucher: Address,
        borrower: Address,
        amount: i128,
    ) -> Option<Failure> {
        if self.paused {
            self.pause_failure()
        } else if amount <= 0 {
            Some(Failure::Trap(Trap::DecreaseNotPositive))
        } else if self.has_active_loan(borrower) {
            Some(Failure::Trap(Trap::LoanAlreadyActive))
        } else {
            match self.vouch_of(voucher, borrower) {
                None => Some(Failure::Trap(Trap::VouchNotFound)),
                Some(vouch) => if amount > vouch.stake {
                    Some(Failure::Trap(Trap::DecreaseExceedsStake))
                } else {
                    self.token_failure(vouch.token)
                },
            }
        }
    }

    /// Stake leaves the voucher's first vouch; a vouch without stake is struck off.
    pub open spec fn decreased(self, voucher: Address, borrower: Address, amount: i128) -> State {
        let vouches = self.vouches_of(borrower);
        let i = first_vouch(vouches, voucher)->0;
        self.with_vouches(
            borrower,
            if vouches[i].stake == amount {
                vouches.remove(i)
            } else {
                vouches.update(
                    i,
                    VouchRecord { stake: (vouches[i].stake - amount) as i128, ..vouches[i] },
                )
            },
        ).authorize(voucher).pay(vouches[i].token, voucher, amount)
    }

    pub open spec fn withdraw_failure(self, voucher: Address, borrower: Address) -> Option<
        Failure,
    > {
        if self.paused {
            self.pause_failure()
        } else if self.has_active_loan(borrower) {
            Some(Failure::Trap(Trap::LoanAlreadyActive))
        } else if !self.vouches.contains_key(borrower) {
            Some(Failure::Contract(ContractError::NoActiveLoan))
        } else {
            match self.vouch_of(voucher, borrower) {
                None => Some(Failure::Contract(ContractError::UnauthorizedCaller)),
                Some(vouch) => self.token_failure(vouch.token),
            }
        }
    }

    /// The voucher's first vouch is struck off and its exact stake paid back.
    pub open spec fn withdrawn(self, voucher: Address, borrower: Address) -> State {
        let vouches = self.vouches_of(borrower);
        let i = first_vouch(vouches, voucher)->0;
        self.with_vouches(borrower, vouches.remove(i)).authorize(voucher).pay(
            vouches[i].token,
            voucher,
            vouches[i].stake,
        ).publish(Event::VouchWithdrawn { voucher, borrower, stake: vouches[i].stake })
    }

    pub open spec fn transfer_failure(
        self,
        from: Address,
        to: Address,
        borrower: Address,
    ) -> Option<Failure> {
        if self.paused {
            self.pause_failure()
        } else if from == to {
            None
        } else if self.has_active_loan(borrower) {
            Some(Failure::Trap(Trap::LoanAlreadyActive))
        } else if !self.vouches.contains_key(borrower) {
            Some(Failure::Contract(ContractError::NoActiveLoan))
        } else {
            match self.vouch_of(from, borrower) {
                None => Some(Failure::Contract(ContractError::UnauthorizedCaller)),
                Some(given) => match first_vouch_in(
                    self.vouches_of(borrower),
                    to,
                    given.token,
                ) {
                    Some(j) => if !math::fits(self.vouches_of(borrower)[j].stake + given.stake) {
                        Some(Failure::Trap(Trap::Overflow))
                    } else {
                        None
                    },
                    None => None,
                },
            }
        }
    }

    /// The list of vouches after `from` hands its first vouch to `to`: merged into a vouch that
    /// `to` has already in the same token, else renamed. A stake stays in the token that it is
    /// denominated in.
    pub open spec fn vouches_transferred(
        vouches: Seq<VouchRecord>,
        from: Address,
        to: Address,
    ) -> Seq<VouchRecord> {
        let i = first_vouch(vouches, from)->0;
        match first_vouch_in(vouches, to, vouches[i].token) {
            Some(j) => vouches.update(
                j,
                VouchRecord {
                    stake: (vouches[j].stake + vouches[i].stake) as i128,
                    ..vouches[j]
                },
            ).remove(i),
            None => vouches.update(i, VouchRecord { voucher: to, ..vouches[i] }),
        }
    }

    /// The histories after a transfer: the borrower leaves that of `from`, and joins that of
    /// `to` unless it is there.
    pub open spec fn histories_transferred(
        self,
        from: Address,
        to: Address,
        borrower: Address,
    ) -> Map<Address, Seq<Address>> {
        let given = if self.history_of(from).contains(borrower) {
            self.voucher_history.insert(from, self.history_of(from).remove_value(borrower))
        } else {
            self.voucher_history
        };
        if self.history_of(to).contains(borrower) {
            given
        } else {
            given.insert(to, self.history_of(to).push(borrower))
        }
    }

    /// A vouch changes hands. Handing it to oneself does nothing.
    pub open spec fn transferred(self, from: Address, to: Address, borrower: Address) -> State {
        if from == to {
            self.authorize(from)
        } else {
            let vouches = self.vouches_of(borrower);
            State {
                vouches: self.vouches.insert(
                    borrower,
                    State::vouches_transferred(vouches, from, to),
                ),
                voucher_history: self.histories_transferred(from, to, borrower),
                ..self
            }.authorize(from).publish(
                Event::VouchTransferred {
                    from,
                    to,
                    borrower,
                    stake: self.vouch_of(from, borrower)->0.stake,
                },
            )
        }
    }
}

fn last_vouch_of(env: &Env, voucher: &Address) -> (last: u64)
    ensures
        last == env@.last_vouch_of(*voucher),
{
    match env.last_vouch.get(voucher) {
        Some(last) => *last,
        None => 0,
    }
}

/// Whether the list holds a vouch of this voucher in this token.
fn vouched_in(vouches: &Vec<VouchRecord>, voucher: &Address, token: &Address) -> (found: bool)
    ensures
        found == has_vouch_in(vouches@, *voucher, *token),
{
    let mut i: usize = 0;
    while i < vouches.len()
        invariant
            i <= vouches@.len(),
            forall|j: int|
                0 <= j < i ==> !((#[trigger] vouches@[j]).voucher == *voucher && vouches@[j].token
                    == *token),
        decreases vouches@.len() - i,
    {
        if vouches[i].voucher == *voucher && vouches[i].token == *token {
            assert(vouches@[i as int].voucher == *voucher);
            return true;
        }
        i = i + 1;
    }
    false
}

fn cooldown_failure(env: &Env, last: u64, cooldown: u64) -> (failure: Option<Failure>)
    ensures
        failure == env@.cooldown_failure(last, cooldown),
{
    if cooldown == 0 || last == 0 {
        return None;
    }
    match last.checked_add(cooldown) {
        None => Some(Failure::Trap(Trap::Overflow)),
        Some(end) => if env.now < end {
            Some(Failure::Contract(ContractError::VouchCooldownActive))
        } else {
            None
        },
    }
}

/// Every reason to refuse a stake, in the order in which they are reported.
fn pledge_failure(
    env: &Env,
    voucher: Address,
    borrower: Address,
    stake: i128,
    token: Address,
    last: u64,
    repeated: bool,
) -> (failure: Option<Failure>)
    ensures
        failure == env@.pledge_failure(voucher, borrower, stake, token, last, repeated),
{
    if let Err(error) = require_positive_amount(env, stake) {
        return Some(Failure::Contract(error));
    }
    if voucher == borrower {
        return Some(Failure::Trap(Trap::SelfVouch));
    }
    let banned: bool = match env.blacklist.get(&borrower) {
        Some(banned) => *banned,
        None => false,
    };
    if banned {
        return Some(Failure::Contract(ContractError::Blacklisted));
    }
    if let Err(failure) = require_allowed_token(env, &token) {
        return Some(failure);
    }
    if env.min_stake > 0 && stake < env.min_stake {
        return Some(Failure::Contract(ContractError::MinStakeNotMet));
    }
    match &env.config {
        None => Some(Failure::Trap(Trap::NotInitialized)),
        Some(config) => {
            if stake < config.min_yield_stake {
                return Some(Failure::Trap(Trap::StakeBelowYieldMinimum));
            }
            if let Some(failure) = cooldown_failure(env, last, config.vouch_cooldown_secs) {
                return Some(failure);
            }
            let mut count: usize = 0;
            if let Some(vouches) = env.vouches.get(&borrower) {
                if vouched_in(vouches, &voucher, &token) {
                    return Some(Failure::Contract(ContractError::DuplicateVouch));
                }
                count = vouches.len();
            }
            if repeated {
                return Some(Failure::Contract(ContractError::DuplicateVouch));
            }
            if count >= env.max_vouchers_per_borrower as usize {
                return Some(Failure::Contract(ContractError::MaxVouchersPerBorrowerExceeded));
            }
            if count >= config.max_vouchers as usize {
                return Some(Failure::Trap(Trap::MaxVouchersPerLoan));
            }
            if has_active_loan(env, &borrower) {
                return Some(Failure::Contract(ContractError::ActiveLoanExists));
            }
            None
        },
    }
}

/// Takes the stake in and records it.
fn pledge(env: &mut Env, voucher: Address, borrower: Address, stake: i128, token: Address)
    ensures
        final(env)@ == old(env)@.pledged(voucher, borrower, stake, token),
{
    let mut history: Vec<Address> = match env.voucher_history.remove(&voucher) {
        Some(history) => history,
        None => Vec::new(),
    };
    history.push(borrower);
    assert(history@ =~= old(env)@.history_of(voucher).push(borrower));
    env.voucher_history.insert(voucher, history);
    let mut vouches: Vec<VouchRecord> = match env.vouches.remove(&borrower) {
        Some(vouches) => vouches,
        None => Vec::new(),
    };
    let vouch_timestamp: u64 = env.now;
    let record = VouchRecord { voucher, stake, vouch_timestamp, token };
    vouches.push(record);
    assert(vouches@ =~= old(env)@.vouches_of(borrower).push(record));
    env.vouches.insert(borrower, vouches);
    env.last_vouch.insert(voucher, vouch_timestamp);
    env.collect(token, voucher, stake);
    env.publish(Event::VouchAdded { voucher, borrower, stake, token });
    assert(env@ =~= old(env)@.pledged(voucher, borrower, stake, token));
}

/// Stake tokens to vouch for a borrower.
///
/// Sybil resistance is enforced here and at the loan request: each voucher must lock at least
/// `min_stake`, and at least `min_vouchers` vouchers must back the borrower before a loan is
/// disbursed.
pub fn vouch(
    env: &mut Env,
    voucher: Address,
    borrower: Address,
    stake: i128,
    token: Address,
) -> (res: Result<(), Failure>)
    ensures
        res == State::verdict(old(env)@.vouch_failure(voucher, borrower, stake, token), ()),
        final(env)@ == old(env)@.unless_failed(
            old(env)@.vouch_failure(voucher, borrower, stake, token),
            old(env)@.vouched(voucher, borrower, stake, token),
        ),
{
    if let Err(error) = require_not_paused(env) {
        return Err(Failure::Contract(error));
    }
    let last: u64 = last_vouch_of(env, &voucher);
    if let Some(failure) = pledge_failure(env, voucher, borrower, stake, token, last, false) {
        return Err(failure);
    }
    env.authorize(voucher);
    pledge(env, voucher, borrower, stake, token);
    Ok(())
}

/// What a batch leaves alone, and that every borrower of it is vouched for.
pub proof fn lemma_pledged_all(
    state: State,
    voucher: Address,
    borrowers: Seq<Address>,
    amounts: Seq<i128>,
    token: Address,
)
    requires
        borrowers.len() == amounts.len(),
    ensures
        ({
            let next = state.pledged_all(voucher, borrowers, amounts, token);
            &&& next == State {
                vouches: next.vouches,
                voucher_history: next.voucher_history,
                last_vouch: next.last_vouch,
                effects: next.effects,
                ..state
            }
            &&& forall|b: Address|
                #![trigger next.vouches_of(b)]
                if borrowers.contains(b) {
                    has_vouch_in(next.vouches_of(b), voucher, token)
                } else {
                    next.vouches_of(b) == state.vouches_of(b)
                }
        }),
    decreases borrowers.len(),
{
    if borrowers.len() > 0 {
        let prior = state.pledged_all(
            voucher,
            borrowers.drop_last(),
            amounts.drop_last(),
            token,
        );
        lemma_pledged_all(state, voucher, borrowers.drop_last(), amounts.drop_last(), token);
        let next = state.pledged_all(voucher, borrowers, amounts, token);
        let last = borrowers.last();
        assert forall|b: Address|
            #![trigger next.vouches_of(b)]
            if borrowers.contains(b) {
                has_vouch_in(next.vouches_of(b), voucher, token)
            } else {
                next.vouches_of(b) == state.vouches_of(b)
            } by {
            if b == last {
                let list = next.vouches_of(b);
                assert(borrowers[borrowers.len() - 1] == b);
                assert(list[list.len() - 1].voucher == voucher);
            } else {
                assert(next.vouches_of(b) == prior.vouches_of(b));
                if borrowers.contains(b) {
                    let i = choose|i: int| 0 <= i < borrowers.len() && borrowers[i] == b;
                    assert(borrowers.drop_last()[i] == b);
                } else {
                    assert(!borrowers.drop_last().contains(b)) by {
                        if borrowers.drop_last().contains(b) {
                            let i = choose|i: int|
                                0 <= i < borrowers.drop_last().len() && borrowers.drop_last()[i]
                                    == b;
                            assert(borrowers[i] == b);
                        }
                    }
                }
            }
        }
    }
}

/// What is refused of a part of a batch is refused of the batch.
proof fn lemma_pledges_failure_stays(
    state: State,
    voucher: Address,
    borrowers: Seq<Address>,
    amounts: Seq<i128>,
    token: Address,
    last: u64,
    k: int,
)
    requires
        borrowers.len() == amounts.len(),
        0 <= k <= borrowers.len(),
        state.pledges_failure(voucher, borrowers.take(k), amounts.take(k), token, last) is Some,
    ensures
        state.pledges_failure(voucher, borrowers, amounts, token, last) == state.pledges_failure(
            voucher,
            borrowers.take(k),
            amounts.take(k),
            token,
            last,
        ),
    decreases borrowers.len() - k,
{
    if k < borrowers.len() {
        assert(borrowers.take(k + 1).drop_last() =~= borrowers.take(k));
        assert(amounts.take(k + 1).drop_last() =~= amounts.take(k));
        lemma_pledges_failure_stays(state, voucher, borrowers, amounts, token, last, k + 1);
    } else {
        assert(borrowers.take(k) =~= borrowers);
        assert(amounts.take(k) =~= amounts);
    }
}

/// Vouch for several borrowers at once, all or none.
pub fn batch_vouch(
    env: &mut Env,
    voucher: Address,
    borrowers: Vec<Address>,
    stakes: Vec<i128>,
    token: Address,
) -> (res: Result<(), Failure>)
    ensures
        res == State::verdict(
            old(env)@.batch_vouch_failure(voucher, borrowers@, stakes@, token),
            (),
        ),
        final(env)@ == old(env)@.unless_failed(
            old(env)@.batch_vouch_failure(voucher, borrowers@, stakes@, token),
            old(env)@.batch_vouched(voucher, borrowers@, stakes@, token),
        ),
{
    if let Err(error) = require_not_paused(env) {
        return Err(Failure::Contract(error));
    }
    if borrowers.len() != stakes.len() {
        return Err(Failure::Trap(Trap::BatchLengthMismatch));
    }
    if borrowers.len() == 0 {
        return Err(Failure::Trap(Trap::BatchEmpty));
    }
    let last: u64 = last_vouch_of(env, &voucher);
    let mut earlier: Vec<Address> = Vec::new();
    let mut i: usize = 0;
    while i < borrowers.len()
        invariant
            i <= borrowers@.len(),
            borrowers@.len() == stakes@.len(),
            borrowers@.len() > 0,
            earlier@ == borrowers@.take(i as int),
            !env@.paused,
            env@ == old(env)@,
            last == env@.last_vouch_of(voucher),
            env@.pledges_failure(
                voucher,
                borrowers@.take(i as int),
                stakes@.take(i as int),
                token,
                last,
            ) is None,
        decreases borrowers@.len() - i,
    {
        let repeated: bool = listed(&earlier, &borrowers[i]);
        proof {
            lemma_pledged_all(
                env@,
                voucher,
                borrowers@.take(i as int),
                stakes@.take(i as int),
                token,
            );
            let prior = env@.pledged_all(
                voucher,
                borrowers@.take(i as int),
                stakes@.take(i as int),
                token,
            );
            let b = borrowers@[i as int];
            assert(borrowers@.take(i + 1).drop_last() =~= borrowers@.take(i as int));
            assert(stakes@.take(i + 1).drop_last() =~= stakes@.take(i as int));
            assert(has_vouch_in(prior.vouches_of(b), voucher, token) == (repeated || has_vouch_in(
                env@.vouches_of(b),
                voucher,
                token,
            )));
            assert(prior.pledge_failure(voucher, b, stakes@[i as int], token, last, false)
                == env@.pledge_failure(voucher, b, stakes@[i as int], token, last, repeated));
        }
        if let Some(failure) = pledge_failure(
            env,
            voucher,
            borrowers[i],
            stakes[i],
            token,
            last,
            repeated,
        ) {
            proof {
                lemma_pledges_failure_stays(
                    env@,
                    voucher,
                    borrowers@,
                    stakes@,
                    token,
                    last,
                    i + 1,
                );
            }
            return Err(failure);
        }
        earlier.push(borrowers[i]);
        i = i + 1;
        assert(earlier@ =~= borrowers@.take(i as int));
    }
    assert(borrowers@.take(i as int) =~= borrowers@);
    assert(stakes@.take(i as int) =~= stakes@);
    env.authorize(voucher);
    let ghost start = env@;
    i = 0;
    while i < borrowers.len()
        invariant
            i <= borrowers@.len(),
            borrowers@.len() == stakes@.len(),
            env@ == start.pledged_all(
                voucher,
                borrowers@.take(i as int),
                stakes@.take(i as int),
                token,
            ),
        decreases borrowers@.len() - i,
    {
        assert(borrowers@.take(i + 1).drop_last() =~= borrowers@.take(i as int));
        assert(stakes@.take(i + 1).drop_last() =~= stakes@.take(i as int));
        pledge(env, voucher, borrowers[i], stakes[i], token);
        i = i + 1;
    }
    assert(borrowers@.take(i as int) =~= borrowers@);
    assert(stakes@.take(i as int) =~= stakes@);
    Ok(())
}

/// Where the voucher's first vouch for a borrower stands.
fn find_vouch(env: &Env, voucher: &Address, borrower: &Address) -> (found: Option<
    (usize, VouchRecord),
>)
    ensures
        match found {
            Some((i, vouch)) => {
                &&& env@.vouches.contains_key(*borrower)
                &&& i < env@.vouches_of(*borrower).len()
                &&& first_vouch(env@.vouches_of(*borrower), *voucher) == Some(i as int)
                &&& vouch == env@.vouches_of(*borrower)[i as int]
                &&& env@.vouch_of(*voucher, *borrower) == Some(vouch)
            },
            None => {
                &&& first_vouch(env@.vouches_of(*borrower), *voucher) is None
                &&& env@.vouch_of(*voucher, *borrower) is None
            },
        },
{
    match env.vouches.get(borrower) {
        Some(vouches) => match position(vouches, voucher) {
            Some(i) => Some((i, vouches[i])),
            None => None,
        },
        None => {
            proof {
                lemma_first_vouch(env@.vouches_of(*borrower), *voucher);
            }
            None
        },
    }
}

/// Where the voucher's first vouch for a borrower in one token stands.
fn find_vouch_in(env: &Env, voucher: &Address, borrower: &Address, token: &Address) -> (found:
    Option<(usize, VouchRecord)>)
    ensures
        match found {
            Some((i, vouch)) => {
                &&& i < env@.vouches_of(*borrower).len()
                &&& first_vouch_in(env@.vouches_of(*borrower), *voucher, *token) == Some(i as int)
                &&& vouch == env@.vouches_of(*borrower)[i as int]
            },
            None => first_vouch_in(env@.vouches_of(*borrower), *voucher, *token) is None,
        },
{
    match env.vouches.get(borrower) {
        Some(vouches) => match position_in(vouches, voucher, token) {
            Some(i) => Some((i, vouches[i])),
            None => None,
        },
        None => {
            proof {
                lemma_first_vouch_in(env@.vouches_of(*borrower), *voucher, *token);
            }
            None
        },
    }
}

/// Stores the list of vouches behind a borrower; an empty list is struck off.
pub(crate) fn store_vouches(env: &mut Env, borrower: Address, vouches: Vec<VouchRecord>)
    ensures
        final(env)@ == old(env)@.with_vouches(borrower, vouches@),
{
    if vouches.len() == 0 {
        let _ = env.vouches.remove(&borrower);
    } else {
        env.vouches.insert(borrower, vouches);
    }
    assert(env@ =~= old(env)@.with_vouches(borrower, vouches@));
}

/// Takes the list of vouches behind a borrower out of the table.
pub(crate) fn take_vouches(env: &mut Env, borrower: &Address) -> (vouches: Vec<VouchRecord>)
    ensures
        vouches@ == old(env)@.vouches_of(*borrower),
        final(env)@ == (State { vouches: old(env)@.vouches.remove(*borrower), ..old(env)@ }),
{
    let taken = env.vouches.remove(borrower);
    assert(env@ =~= State { vouches: old(env)@.vouches.remove(*borrower), ..old(env)@ });
    match taken {
        Some(vouches) => vouches,
        None => Vec::new(),
    }
}

/// Add more stake to an existing vouch for a borrower.
pub fn increase_stake(
    env: &mut Env,
    voucher: Address,
    borrower: Address,
    additional: i128,
) -> (res: Result<(), Failure>)
    ensures
        res == State::verdict(old(env)@.increase_failure(voucher, borrower, additional), ()),
        final(env)@ == old(env)@.unless_failed(
            old(env)@.increase_failure(voucher, borrower, additional),
            old(env)@.increased(voucher, borrower, additional),
        ),
{
    if let Err(error) = require_not_paused(env) {
        return Err(Failure::Contract(error));
    }
    if let Err(error) = require_positive_amount(env, additional) {
        return Err(Failure::Contract(error));
    }
    match find_vouch(env, &voucher, &borrower) {
        None => Err(Failure::Trap(Trap::VouchNotFound)),
        Some((i, vouch)) => {
            if let Err(failure) = require_allowed_token(env, &vouch.token) {
                return Err(failure);
            }
            match vouch.stake.checked_add(additional) {
                None => Err(Failure::Trap(Trap::Overflow)),
                Some(stake) => {
                    let mut vouches = take_vouches(env, &borrower);
                    vouches.set(i, VouchRecord { stake, ..vouch });
                    env.vouches.insert(borrower, vouches);
                    env.authorize(voucher);
                    env.collect(vouch.token, voucher, additional);
                    assert(env@ =~= old(env)@.increased(voucher, borrower, additional));
                    Ok(())
                },
            }
        },
    }
}

/// Reduce stake from an existing vouch before any active loan exists.
pub fn decrease_stake(env: &mut Env, voucher: Address, borrower: Address, amount: i128) -> (res:
    Result<(), Failure>)
    ensures
        res == State::verdict(old(env)@.decrease_failure(voucher, borrower, amount), ()),
        final(env)@ == old(env)@.unless_failed(
            old(env)@.decrease_failure(voucher, borrower, amount),
            old(env)@.decreased(voucher, borrower, amount),
        ),
{
    if let Err(error) = require_not_paused(env) {
        return Err(Failure::Contract(error));
    }
    if amount <= 0 {
        return Err(Failure::Trap(Trap::DecreaseNotPositive));
    }
    if has_active_loan(env, &borrower) {
        return Err(Failure::Trap(Trap::LoanAlreadyActive));
    }
    match find_vouch(env, &voucher, &borrower) {
        None => Err(Failure::Trap(Trap::VouchNotFound)),
        Some((i, vouch)) => {
            if amount > vouch.stake {
                return Err(Failure::Trap(Trap::DecreaseExceedsStake));
            }
            if let Err(failure) = require_allowed_token(env, &vouch.token) {
                return Err(failure);
            }
            let stake: i128 = vouch.stake - amount;
            let mut vouches = take_vouches(env, &borrower);
            if stake == 0 {
                let _ = vouches.remove(i);
            } else {
                vouches.set(i, VouchRecord { stake, ..vouch });
            }
            store_vouches(env, borrower, vouches);
            env.authorize(voucher);
            env.pay(vouch.token, voucher, amount);
            assert(env@ =~= old(env)@.decreased(voucher, borrower, amount));
            Ok(())
        },
    }
}

/// Withdraw a vouch before any loan is active, returning the exact stake to the voucher.
pub fn withdraw_vouch(env: &mut Env, voucher: Address, borrower: Address) -> (res: Result<
    (),
    Failure,
>)
    ensures
        res == State::verdict(old(env)@.withdraw_failure(voucher, borrower), ()),
        final(env)@ == old(env)@.unless_failed(
            old(env)@.withdraw_failure(voucher, borrower),
            old(env)@.withdrawn(voucher, borrower),
        ),
{
    if let Err(error) = require_not_paused(env) {
        return Err(Failure::Contract(error));
    }
    if has_active_loan(env, &borrower) {
        return Err(Failure::Trap(Trap::LoanAlreadyActive));
    }
    if !env.vouches.contains_key(&borrower) {
        return Err(Failure::Contract(ContractError::NoActiveLoan));
    }
    match find_vouch(env, &voucher, &borrower) {
        None => Err(Failure::Contract(ContractError::UnauthorizedCaller)),
        Some((i, vouch)) => {
            if let Err(failure) = require_allowed_token(env, &vouch.token) {
                return Err(failure);
            }
            let mut vouches = take_vouches(env, &borrower);
            let _ = vouches.remove(i);
            store_vouches(env, borrower, vouches);
            env.authorize(voucher);
            env.pay(vouch.token, voucher, vouch.stake);
            env.publish(Event::VouchWithdrawn { voucher, borrower, stake: vouch.stake });
            assert(env@ =~= old(env)@.withdrawn(voucher, borrower));
            Ok(())
        },
    }
}

/// Strikes the borrower off the history of `from` and adds it to that of `to`.
fn transfer_histories(env: &mut Env, from: Address, to: Address, borrower: Address)
    requires
        from != to,
    ensures
        final(env)@ == (State {
            voucher_history: old(env)@.histories_transferred(from, to, borrower),
            ..old(env)@
        }),
{
    let ghost start = env@;
    if let Some(mut given) = env.voucher_history.remove(&from) {
        let mut i: usize = 0;
        while i < given.len() && given[i] != borrower
            invariant
                i <= given@.len(),
                forall|j: int| 0 <= j < i ==> given@[j] != borrower,
            decreases given@.len() - i,
        {
            i = i + 1;
        }
        proof {
            given@.index_of_first_ensures(borrower);
        }
        if i < given.len() {
            assert(given@[i as int] == borrower);
            let _ = given.remove(i);
            assert(given@ == start.history_of(from).remove_value(borrower));
        }
        env.voucher_history.insert(from, given);
    }
    let ghost middle = env@;
    assert(middle.voucher_history =~= (if start.history_of(from).contains(borrower) {
        start.voucher_history.insert(from, start.history_of(from).remove_value(borrower))
    } else {
        start.voucher_history
    }));
    let mut taken: Vec<Address> = match env.voucher_history.remove(&to) {
        Some(taken) => taken,
        None => Vec::new(),
    };
    assert(taken@ == start.history_of(to));
    if listed(&taken, &borrower) {
        env.voucher_history.insert(to, taken);
        assert(env@ =~= middle);
    } else {
        taken.push(borrower);
        env.voucher_history.insert(to, taken);
    }
    assert(env@ =~= State {
        voucher_history: start.histories_transferred(from, to, borrower),
        ..start
    });
}

/// Hand a vouch over to another voucher, before a loan is active.
pub fn transfer_vouch(env: &mut Env, from: Address, to: Address, borrower: Address) -> (res: Result<
    (),
    Failure,
>)
    ensures
        res == State::verdict(old(env)@.transfer_failure(from, to, borrower), ()),
        final(env)@ == old(env)@.unless_failed(
            old(env)@.transfer_failure(from, to, borrower),
            old(env)@.transferred(from, to, borrower),
        ),
{
    if let Err(error) = require_not_paused(env) {
        return Err(Failure::Contract(error));
    }
    if from == to {
        env.authorize(from);
        return Ok(());
    }
    if has_active_loan(env, &borrower) {
        return Err(Failure::Trap(Trap::LoanAlreadyActive));
    }
    if !env.vouches.contains_key(&borrower) {
        return Err(Failure::Contract(ContractError::NoActiveLoan));
    }
    match find_vouch(env, &from, &borrower) {
        None => Err(Failure::Contract(ContractError::UnauthorizedCaller)),
        Some((i, given)) => {
            let target = find_vouch_in(env, &to, &borrower, &given.token);
            let ghost before = env@.vouches_of(borrower);
            let mut vouches: Vec<VouchRecord> = Vec::new();
            match target {
                Some((j, taken)) => match taken.stake.checked_add(given.stake) {
                    None => {
                        return Err(Failure::Trap(Trap::Overflow));
                    },
                    Some(stake) => {
                        vouches = take_vouches(env, &borrower);
                        vouches.set(j, VouchRecord { stake, ..taken });
                        let _ = vouches.remove(i);
                    },
                },
                None => {
                    vouches = take_vouches(env, &borrower);
                    vouches.set(i, VouchRecord { voucher: to, ..given });
                },
            }
            assert(vouches@ =~= State::vouches_transferred(before, from, to));
            env.vouches.insert(borrower, vouches);
            transfer_histories(env, from, to, borrower);
            env.authorize(from);
            env.publish(
                Event::VouchTransferred { from, to, borrower, stake: given.stake },
            );
            assert(env@ =~= old(env)@.transferred(from, to, borrower));
            Ok(())
        },
    }
}

/// Whether the voucher vouches for the borrower.
pub fn vouch_exists(env: &Env, voucher: Address, borrower: Address) -> (found: bool)
    ensures
        found == exists|i: int|
            0 <= i < env@.vouches_of(borrower).len() && (#[trigger] env@.vouches_of(
                borrower,
            )[i]).voucher == voucher,
{
    proof {
        lemma_first_vouch(env@.vouches_of(borrower), voucher);
    }
    find_vouch(env, &voucher, &borrower).is_some()
}

/// Adds up the stakes of a list; `None` where that overflows.
pub(crate) fn total_stake(vouches: &Vec<VouchRecord>) -> (total: Option<i128>)
    ensures
        match total {
            Some(total) => math::adds_up(stakes(vouches@)) && total == math::sum(stakes(vouches@)),
            None => !math::adds_up(stakes(vouches@)),
        },
{
    let ghost amounts = stakes(vouches@);
    let mut total: i128 = 0;
    let mut i: usize = 0;
    assert(math::sum(amounts.take(0)) == 0);
    while i < vouches.len()
        invariant
            i <= vouches@.len(),
            amounts == stakes(vouches@),
            total == math::sum(amounts.take(i as int)),
            forall|k: int| 0 <= k <= i ==> math::fits(#[trigger] math::sum(amounts.take(k))),
        decreases vouches@.len() - i,
    {
        proof {
            math::lemma_sum_step(amounts, i as int);
        }
        match total.checked_add(vouches[i].stake) {
            Some(next) => {
                total = next;
            },
            None => {
                assert(!math::fits(math::sum(amounts.take(i + 1))));
                return None;
            },
        }
        i = i + 1;
    }
    assert(amounts.take(i as int) =~= amounts);
    Some(total)
}

/// Adds up the stakes of a list that are in `token`; `None` where that overflows.
pub(crate) fn total_stake_in(vouches: &Vec<VouchRecord>, token: &Address) -> (total: Option<i128>)
    ensures
        match total {
            Some(total) => math::adds_up(stakes_in(vouches@, *token)) && total == math::sum(
                stakes_in(vouches@, *token),
            ),
            None => !math::adds_up(stakes_in(vouches@, *token)),
        },
{
    let ghost amounts = stakes_in(vouches@, *token);
    let mut total: i128 = 0;
    let mut i: usize = 0;
    assert(math::sum(amounts.take(0)) == 0);
    while i < vouches.len()
        invariant
            i <= vouches@.len(),
            amounts == stakes_in(vouches@, *token),
            total == math::sum(amounts.take(i as int)),
            forall|k: int| 0 <= k <= i ==> math::fits(#[trigger] math::sum(amounts.take(k))),
        decreases vouches@.len() - i,
    {
        proof {
            math::lemma_sum_step(amounts, i as int);
        }
        if vouches[i].token == *token {
            match total.checked_add(vouches[i].stake) {
                Some(next) => {
                    total = next;
                },
                None => {
                    assert(!math::fits(math::sum(amounts.take(i + 1))));
                    return None;
                },
            }
        }
        i = i + 1;
    }
    assert(amounts.take(i as int) =~= amounts);
    Some(total)
}

/// Returns the total staked amount across all vouchers for a given borrower.
pub fn total_vouched(env: &Env, borrower: Address) -> (res: Result<i128, ContractError>)
    ensures
        res == (if math::adds_up(stakes(env@.vouches_of(borrower))) {
            Ok::<i128, ContractError>(math::sum(stakes(env@.vouches_of(borrower))) as i128)
        } else {
            Err(ContractError::StakeOverflow)
        }),
{
    match env.vouches.get(&borrower) {
        Some(vouches) => match total_stake(vouches) {
            Some(total) => Ok(total),
            None => Err(ContractError::StakeOverflow),
        },
        None => {
            let ghost none = stakes(env@.vouches_of(borrower));
            assert(none =~= Seq::<int>::empty());
            assert(math::adds_up(none));
            Ok(0)
        },
    }
}

/// Returns all borrower addresses that the given voucher has ever backed.
pub fn voucher_history(env: &Env, voucher: Address) -> (history: Vec<Address>)
    ensures
        history@ == env@.history_of(voucher),
{
    match env.voucher_history.get(&voucher) {
        Some(history) => {
            let copy = history.clone();
            assert(copy@ =~= history@);
            copy
        },
        None => Vec::new(),
    }
}

} // verus!
