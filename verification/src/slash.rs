//! What becomes of the stakes when a loan defaults.

use crate::address::Address;
use crate::contract::QuorumCreditContract;
use crate::env::{Effect, Env, Event, Payment, State};
use crate::errors::{ContractError, Failure, Trap};
use crate::helpers::{
    active_loan, add_slash_balance, approval_failure, get_active_loan_record,
    get_latest_loan_record,
};
use crate::math;
use crate::types::{LoanRecord, LoanStatus, LoanView, VouchRecord};
use crate::vouch::{store_vouches, take_vouches};
use vstd::prelude::*;

verus! {

/// Which vouches a slash cuts: those in every token, or those in one token alone.
#[derive(Clone, Copy, Debug, PartialEq, Eq)]
pub enum Reach {
    EveryToken,
    OneToken(Address),
}

impl Reach {
    /// A vouch in this token is cut.
    pub open spec fn covers(self, token: Address) -> bool {
        match self {
            Reach::EveryToken => true,
            Reach::OneToken(only) => token == only,
        }
    }

    fn cuts(&self, token: &Address) -> (cut: bool)
        ensures
            cut == self.covers(*token),
    {
        match self {
            Reach::EveryToken => true,
            Reach::OneToken(only) => *token == *only,
        }
    }
}

/// Whether a slash leaves a vouch alone.
pub open spec fn is_spared(reach: Reach) -> spec_fn(VouchRecord) -> bool {
    |vouch: VouchRecord| !reach.covers(vouch.token)
}

/// What a stake loses.
pub open spec fn cut(stake: i128, slash_bps: i128) -> int {
    math::bps(stake as int, slash_bps as int)
}

/// What each vouch loses; vouches that are spared lose nothing.
pub open spec fn cuts(vouches: Seq<VouchRecord>, reach: Reach, slash_bps: i128) -> Seq<int> {
    vouches.map_values(
        |vouch: VouchRecord|
            if reach.covers(vouch.token) {
                cut(vouch.stake, slash_bps)
            } else {
                0
            },
    )
}

/// Whether a slash pays anything back on a vouch.
pub open spec fn is_refunded(reach: Reach, slash_bps: i128) -> spec_fn(VouchRecord) -> bool {
    |vouch: VouchRecord|
        !reach.covers(vouch.token) || vouch.stake - cut(vouch.stake, slash_bps) > 0
}

/// What a slash pays back on a vouch, in the vouch's token: all of a stake that is spared, else
/// what the cut leaves.
pub open spec fn refund(reach: Reach, slash_bps: i128) -> spec_fn(VouchRecord) -> Payment {
    |vouch: VouchRecord|
        Payment {
            token: vouch.token,
            to: vouch.voucher,
            amount: if reach.covers(vouch.token) {
                (vouch.stake - cut(vouch.stake, slash_bps)) as i128
            } else {
                vouch.stake
            },
        }
}

/// All that a slash pays back.
pub open spec fn refunds(vouches: Seq<VouchRecord>, reach: Reach, slash_bps: i128) -> Seq<
    Payment,
> {
    vouches.filter(is_refunded(reach, slash_bps)).map_values(refund(reach, slash_bps))
}

/// No computation of a slash leaves the range of an `i128`.
pub open spec fn cuts_fit(vouches: Seq<VouchRecord>, reach: Reach, slash_bps: i128) -> bool {
    &&& forall|i: int|
        0 <= i < vouches.len() && reach.covers((#[trigger] vouches[i]).token) ==> math::fits(
            vouches[i].stake * slash_bps,
        ) && math::fits(vouches[i].stake - cut(vouches[i].stake, slash_bps))
    &&& math::adds_up(cuts(vouches, reach, slash_bps))
}

impl State {
    /// The failure of an operation that needs an active loan.
    pub open spec fn inactive_failure(self, borrower: Address) -> Failure {
        if self.latest_loan(borrower) is None {
            Failure::Trap(Trap::NoActiveLoan)
        } else {
            Failure::Contract(ContractError::NoActiveLoan)
        }
    }

    /// What all vouches behind a borrower lose together when the loan is slashed.
    pub open spec fn total_cut(self, borrower: Address, reach: Reach) -> int {
        math::sum(cuts(self.vouches_of(borrower), reach, self.config->0.slash_bps))
    }

    /// Why a default cannot be booked.
    pub open spec fn default_failure(self, borrower: Address, reach: Reach) -> Option<Failure> {
        match self.config {
            None => Some(Failure::Trap(Trap::NotInitialized)),
            Some(config) => if cuts_fit(
                self.vouches_of(borrower),
                reach,
                config.slash_bps,
            ) && math::fits(self.slash_treasury + self.total_cut(borrower, reach)) && State::count(
                self.default_counts,
                borrower,
            ) < u32::MAX {
                None
            } else {
                Some(Failure::Trap(Trap::Overflow))
            },
        }
    }

    /// The loan is closed as defaulted and counted.
    pub open spec fn closed_as_default(self, borrower: Address, loan: LoanView) -> State {
        State {
            loans: self.loans.insert(loan.id, LoanView { status: LoanStatus::Defaulted, ..loan }),
            active_loans: self.active_loans.remove(borrower),
            default_counts: self.default_counts.insert(
                borrower,
                (State::count(self.default_counts, borrower) + 1) as u32,
            ),
            ..self
        }
    }

    /// The stakes within reach are cut: the cuts go to the treasury, the rest is paid back, each
    /// in its own token. Stakes that are spared are paid back whole, and their vouches stay on
    /// record.
    pub open spec fn defaulted(self, borrower: Address, loan: LoanView, reach: Reach) -> State {
        let vouches = self.vouches_of(borrower);
        State {
            slash_treasury: (self.slash_treasury + self.total_cut(borrower, reach)) as i128,
            ..self.closed_as_default(borrower, loan)
        }.with_vouches(borrower, vouches.filter(is_spared(reach))).pay_all(
            refunds(vouches, reach, self.config->0.slash_bps),
        )
    }

    /// One reputation point is burnt, if reputation is kept.
    pub open spec fn reputation_burnt(self, borrower: Address) -> State {
        match self.reputation_nft {
            Some(nft) => self.emit(Effect::BurnReputation { nft, from: borrower }),
            None => self,
        }
    }

    pub open spec fn execute_slash_failure(self, borrower: Address) -> Option<Failure> {
        if self.config is None {
            Some(Failure::Trap(Trap::NotInitialized))
        } else {
            match self.active_loan(borrower) {
                None => Some(Failure::Contract(ContractError::NoActiveLoan)),
                Some(loan) => if loan.status == LoanStatus::Defaulted {
                    Some(Failure::Trap(Trap::AlreadyDefaulted))
                } else {
                    self.default_failure(borrower, Reach::OneToken(loan.token_address))
                },
            }
        }
    }

    /// The loan is slashed on behalf of governance: only the stakes in its token are cut.
    pub open spec fn slash_executed(self, borrower: Address) -> State {
        let loan = self.active_loan(borrower)->0;
        let reach = Reach::OneToken(loan.token_address);
        self.defaulted(borrower, loan, reach).publish(
            Event::GovernanceSlashed {
                borrower,
                total_slashed: self.total_cut(borrower, reach) as i128,
            },
        )
    }

    pub open spec fn slash_failure(self, signers: Seq<Address>, borrower: Address) -> Option<
        Failure,
    > {
        if self.approval_failure(signers) is Some {
            self.approval_failure(signers)
        } else if self.paused {
            Some(Failure::Trap(Trap::ContractPaused))
        } else if !self.has_active_loan(borrower) {
            Some(self.inactive_failure(borrower))
        } else {
            self.default_failure(borrower, Reach::EveryToken)
        }
    }

    /// The admins slash the loan: every stake behind the borrower is cut.
    pub open spec fn slashed(self, signers: Seq<Address>, borrower: Address) -> State {
        let loan = self.active_loan(borrower)->0;
        self.authorize_all(signers).defaulted(borrower, loan, Reach::EveryToken).reputation_burnt(
            borrower,
        ).publish(
            Event::LoanSlashed {
                borrower,
                amount: loan.amount,
                total_slashed: self.total_cut(borrower, Reach::EveryToken) as i128,
            },
        )
    }

    pub open spec fn auto_slash_failure(self, borrower: Address) -> Option<Failure> {
        if !self.has_active_loan(borrower) {
            Some(self.inactive_failure(borrower))
        } else if self.now <= self.active_loan(borrower)->0.deadline {
            Some(Failure::Trap(Trap::DeadlineNotPassed))
        } else {
            self.default_failure(borrower, Reach::EveryToken)
        }
    }

    /// The loan is slashed past its deadline: every stake behind the borrower is cut.
    pub open spec fn auto_slashed(self, borrower: Address) -> State {
        self.defaulted(
            borrower,
            self.active_loan(borrower)->0,
            Reach::EveryToken,
        ).reputation_burnt(borrower)
    }

    pub open spec fn claim_failure(self, borrower: Address) -> Option<Failure> {
        if !self.has_active_loan(borrower) {
            Some(self.inactive_failure(borrower))
        } else if self.now < self.active_loan(borrower)->0.deadline {
            Some(Failure::Trap(Trap::LoanNotExpired))
        } else if State::count(self.default_counts, borrower) == u32::MAX {
            Some(Failure::Trap(Trap::Overflow))
        } else {
            None
        }
    }

    /// Every stake is paid back whole, each in its own token.
    pub open spec fn claimed(self, borrower: Address) -> State {
        self.authorize(borrower).closed_as_default(
            borrower,
            self.active_loan(borrower)->0,
        ).with_vouches(borrower, Seq::empty()).pay_all(stake_payments(self.vouches_of(borrower)))
    }
}

/// Every stake, to be paid back in its own token.
pub open spec fn stake_payments(vouches: Seq<VouchRecord>) -> Seq<Payment> {
    vouches.map_values(
        |vouch: VouchRecord|
            Payment { token: vouch.token, to: vouch.voucher, amount: vouch.stake },
    )
}

/// What a slash does to a list of vouches.
struct SlashPlan {
    total: i128,
    payments: Vec<Payment>,
    kept: Vec<VouchRecord>,
}

/// Works out a slash; `None` where that overflows.
fn plan_slash(vouches: &Vec<VouchRecord>, reach: Reach, slash_bps: i128) -> (plan: Option<
    SlashPlan,
>)
    ensures
        match plan {
            Some(plan) => {
                &&& cuts_fit(vouches@, reach, slash_bps)
                &&& plan.total == math::sum(cuts(vouches@, reach, slash_bps))
                &&& plan.payments@ == refunds(vouches@, reach, slash_bps)
                &&& plan.kept@ == vouches@.filter(is_spared(reach))
            },
            None => !cuts_fit(vouches@, reach, slash_bps),
        },
{
    let ghost amounts = cuts(vouches@, reach, slash_bps);
    let mut total: i128 = 0;
    let mut payments: Vec<Payment> = Vec::new();
    let mut kept: Vec<VouchRecord> = Vec::new();
    let mut i: usize = 0;
    proof {
        reveal(Seq::filter);
        assert(math::sum(amounts.take(0)) == 0);
        assert(payments@ =~= refunds(vouches@.take(0), reach, slash_bps));
        assert(kept@ =~= vouches@.take(0).filter(is_spared(reach)));
    }
    while i < vouches.len()
        invariant
            i <= vouches@.len(),
            amounts == cuts(vouches@, reach, slash_bps),
            total == math::sum(amounts.take(i as int)),
            forall|k: int| 0 <= k <= i ==> math::fits(#[trigger] math::sum(amounts.take(k))),
            forall|k: int|
                0 <= k < i && reach.covers((#[trigger] vouches@[k]).token) ==> math::fits(
                    vouches@[k].stake * slash_bps,
                ) && math::fits(vouches@[k].stake - cut(vouches@[k].stake, slash_bps)),
            payments@ == refunds(vouches@.take(i as int), reach, slash_bps),
            kept@ == vouches@.take(i as int).filter(is_spared(reach)),
        decreases vouches@.len() - i,
    {
        let vouch = vouches[i];
        proof {
            math::lemma_sum_step(amounts, i as int);
            math::lemma_filter_step(vouches@, is_refunded(reach, slash_bps), i as int);
            math::lemma_filter_step(vouches@, is_spared(reach), i as int);
        }
        if reach.cuts(&vouch.token) {
            match math::portion(vouch.stake, slash_bps, 10_000) {
                None => {
                    return None;
                },
                Some(slashed) => {
                    match vouch.stake.checked_sub(slashed) {
                        None => {
                            return None;
                        },
                        Some(remaining) => {
                            if remaining > 0 {
                                payments.push(
                                    Payment {
                                        token: vouch.token,
                                        to: vouch.voucher,
                                        amount: remaining,
                                    },
                                );
                            }
                        },
                    }
                    match total.checked_add(slashed) {
                        None => {
                            assert(!math::fits(math::sum(amounts.take(i + 1))));
                            return None;
                        },
                        Some(next) => {
                            total = next;
                        },
                    }
                },
            }
        } else {
            payments.push(
                Payment { token: vouch.token, to: vouch.voucher, amount: vouch.stake },
            );
            kept.push(vouch);
        }
        i = i + 1;
        assert(payments@ =~= refunds(vouches@.take(i as int), reach, slash_bps));
    }
    assert(amounts.take(i as int) =~= amounts);
    assert(vouches@.take(i as int) =~= vouches@);
    Some(SlashPlan { total, payments, kept })
}

/// Works out the default of a borrower's loan.
fn plan_default(env: &Env, borrower: &Address, reach: Reach) -> (res: Result<
    SlashPlan,
    Failure,
>)
    ensures
        match res {
            Ok(plan) => {
                let vouches = env@.vouches_of(*borrower);
                &&& env@.default_failure(*borrower, reach) is None
                &&& plan.total == env@.total_cut(*borrower, reach)
                &&& plan.payments@ == refunds(vouches, reach, env@.config->0.slash_bps)
                &&& plan.kept@ == vouches.filter(is_spared(reach))
            },
            Err(failure) => env@.default_failure(*borrower, reach) == Some(failure),
        },
{
    let slash_bps: i128 = match &env.config {
        Some(config) => config.slash_bps,
        None => {
            return Err(Failure::Trap(Trap::NotInitialized));
        },
    };
    let none: Vec<VouchRecord> = Vec::new();
    let vouches: &Vec<VouchRecord> = match env.vouches.get(borrower) {
        Some(vouches) => vouches,
        None => &none,
    };
    match plan_slash(vouches, reach, slash_bps) {
        Some(plan) => {
            if env.slash_treasury.checked_add(plan.total).is_none() || default_count(env, borrower)
                == u32::MAX {
                return Err(Failure::Trap(Trap::Overflow));
            }
            Ok(plan)
        },
        None => Err(Failure::Trap(Trap::Overflow)),
    }
}

fn default_count(env: &Env, borrower: &Address) -> (count: u32)
    ensures
        count == State::count(env@.default_counts, *borrower),
{
    match env.default_counts.get(borrower) {
        Some(count) => *count,
        None => 0,
    }
}

/// Closes a loan as defaulted.
fn close_as_default(env: &mut Env, borrower: Address, loan: LoanRecord)
    requires
        State::count(old(env)@.default_counts, borrower) < u32::MAX,
    ensures
        final(env)@ == old(env)@.closed_as_default(borrower, loan@),
{
    let count: u32 = default_count(env, &borrower);
    env.default_counts.insert(borrower, count + 1);
    let _ = env.active_loans.remove(&borrower);
    let id: u64 = loan.id;
    let closed = LoanRecord { status: LoanStatus::Defaulted, ..loan };
    env.loans.insert(id, closed);
    assert(env@ =~= old(env)@.closed_as_default(borrower, loan@));
}

/// Carries a default out.
fn apply_default(
    env: &mut Env,
    borrower: Address,
    loan: LoanRecord,
    plan: SlashPlan,
    Ghost(reach): Ghost<Reach>,
)
    requires
        old(env)@.default_failure(borrower, reach) is None,
        plan.total == old(env)@.total_cut(borrower, reach),
        plan.payments@ == refunds(
            old(env)@.vouches_of(borrower),
            reach,
            old(env)@.config->0.slash_bps,
        ),
        plan.kept@ == old(env)@.vouches_of(borrower).filter(is_spared(reach)),
    ensures
        final(env)@ == old(env)@.defaulted(borrower, loan@, reach),
{
    let _ = add_slash_balance(env, plan.total);
    close_as_default(env, borrower, loan);
    store_vouches(env, borrower, plan.kept);
    env.pay_all(&plan.payments);
    assert(env@ =~= old(env)@.defaulted(borrower, loan@, reach));
}

fn burn_reputation(env: &mut Env, borrower: Address)
    ensures
        final(env)@ == old(env)@.reputation_burnt(borrower),
{
    if let Some(nft) = env.reputation_nft {
        env.emit(Effect::BurnReputation { nft, from: borrower });
    }
}

/// The borrower's loan, if it is active.
fn slashable_loan(env: &Env, borrower: &Address) -> (res: Result<LoanRecord, Failure>)
    ensures
        match res {
            Ok(loan) => env@.has_active_loan(*borrower) && env@.active_loan(*borrower) == Some(
                loan@,
            ),
            Err(failure) => !env@.has_active_loan(*borrower) && failure == env@.inactive_failure(
                *borrower,
            ),
        },
{
    if let Some(loan) = active_loan(env, borrower) {
        if loan.status == LoanStatus::Active {
            return Ok(loan.clone());
        }
    }
    match get_latest_loan_record(env, borrower) {
        Some(_) => Err(Failure::Contract(ContractError::NoActiveLoan)),
        None => Err(Failure::Trap(Trap::NoActiveLoan)),
    }
}

/// A slash on behalf of governance that is worked out and can be carried out.
pub(crate) struct PreparedSlash {
    loan: LoanRecord,
    plan: SlashPlan,
}

impl PreparedSlash {
    /// The slash was worked out on this borrower's loan and vouches.
    pub(crate) closed spec fn fits(self, state: State, borrower: Address) -> bool {
        let vouches = state.vouches_of(borrower);
        let reach = Reach::OneToken(self.loan.token_address);
        &&& state.execute_slash_failure(borrower) is None
        &&& state.active_loan(borrower) == Some(self.loan@)
        &&& self.plan.total == state.total_cut(borrower, reach)
        &&& self.plan.payments@ == refunds(vouches, reach, state.config->0.slash_bps)
        &&& self.plan.kept@ == vouches.filter(is_spared(reach))
    }

    /// Only the loan, the vouches and the treasury matter for a slash.
    pub(crate) proof fn lemma_fits(self, before: State, after: State, borrower: Address)
        requires
            self.fits(before, borrower),
            after == (State {
                slash_votes: after.slash_votes,
                proposals: after.proposals,
                effects: after.effects,
                ..before
            }),
        ensures
            self.fits(after, borrower),
    {
    }
}

/// Works out the slash of the borrower's loan on behalf of governance.
pub(crate) fn prepare_slash(env: &Env, borrower: &Address) -> (res: Result<PreparedSlash, Failure>)
    ensures
        match res {
            Ok(prepared) => env@.execute_slash_failure(*borrower) is None && prepared.fits(
                env@,
                *borrower,
            ),
            Err(failure) => env@.execute_slash_failure(*borrower) == Some(failure),
        },
{
    if env.config.is_none() {
        return Err(Failure::Trap(Trap::NotInitialized));
    }
    let loan = match get_active_loan_record(env, borrower) {
        Ok(loan) => loan,
        Err(error) => {
            return Err(Failure::Contract(error));
        },
    };
    if loan.status == LoanStatus::Defaulted {
        return Err(Failure::Trap(Trap::AlreadyDefaulted));
    }
    match plan_default(env, borrower, Reach::OneToken(loan.token_address)) {
        Err(failure) => Err(failure),
        Ok(plan) => Ok(PreparedSlash { loan, plan }),
    }
}

/// Slashes the borrower's loan on behalf of governance.
pub(crate) fn execute_slash(env: &mut Env, borrower: Address, prepared: PreparedSlash)
    requires
        prepared.fits(old(env)@, borrower),
    ensures
        final(env)@ == old(env)@.slash_executed(borrower),
{
    let PreparedSlash { loan, plan } = prepared;
    let total_slashed: i128 = plan.total;
    let ghost reach = Reach::OneToken(loan.token_address);
    apply_default(env, borrower, loan, plan, Ghost(reach));
    env.publish(Event::GovernanceSlashed { borrower, total_slashed });
}

impl QuorumCreditContract {
    /// Admin marks a loan defaulted; `slash_bps` of each voucher's stake is slashed.
    pub fn slash(env: &mut Env, admin_signers: Vec<Address>, borrower: Address) -> (res: Result<
        (),
        Failure,
    >)
        ensures
            res == State::verdict(old(env)@.slash_failure(admin_signers@, borrower), ()),
            final(env)@ == old(env)@.unless_failed(
                old(env)@.slash_failure(admin_signers@, borrower),
                old(env)@.slashed(admin_signers@, borrower),
            ),
    {
        if let Some(failure) = approval_failure(env, &admin_signers) {
            return Err(failure);
        }
        if env.paused {
            return Err(Failure::Trap(Trap::ContractPaused));
        }
        let loan = match slashable_loan(env, &borrower) {
            Ok(loan) => loan,
            Err(failure) => {
                return Err(failure);
            },
        };
        match plan_default(env, &borrower, Reach::EveryToken) {
            Err(failure) => Err(failure),
            Ok(plan) => {
                let amount: i128 = loan.amount;
                let total_slashed: i128 = plan.total;
                env.authorize_all(&admin_signers);
                apply_default(env, borrower, loan, plan, Ghost(Reach::EveryToken));
                burn_reputation(env, borrower);
                env.publish(Event::LoanSlashed { borrower, amount, total_slashed });
                Ok(())
            },
        }
    }

    /// Callable by anyone after the loan deadline has passed.
    /// Applies the standard slash penalty.
    pub fn auto_slash(env: &mut Env, borrower: Address) -> (res: Result<(), Failure>)
        ensures
            res == State::verdict(old(env)@.auto_slash_failure(borrower), ()),
            final(env)@ == old(env)@.unless_failed(
                old(env)@.auto_slash_failure(borrower),
                old(env)@.auto_slashed(borrower),
            ),
    {
        let loan = match slashable_loan(env, &borrower) {
            Ok(loan) => loan,
            Err(failure) => {
                return Err(failure);
            },
        };
        if env.now <= loan.deadline {
            return Err(Failure::Trap(Trap::DeadlineNotPassed));
        }
        match plan_default(env, &borrower, Reach::EveryToken) {
            Err(failure) => Err(failure),
            Ok(plan) => {
                apply_default(env, borrower, loan, plan, Ghost(Reach::EveryToken));
                burn_reputation(env, borrower);
                Ok(())
            },
        }
    }

    /// Allows vouchers to claim back their stake if the loan has expired without repayment or
    /// slash. Requires the borrower's authorisation: it acknowledges that the loan has lapsed.
    pub fn claim_expired_loan(env: &mut Env, borrower: Address) -> (res: Result<(), Failure>)
        ensures
            res == State::verdict(old(env)@.claim_failure(borrower), ()),
            final(env)@ == old(env)@.unless_failed(
                old(env)@.claim_failure(borrower),
                old(env)@.claimed(borrower),
            ),
    {
        let loan = match slashable_loan(env, &borrower) {
            Ok(loan) => loan,
            Err(failure) => {
                return Err(failure);
            },
        };
        if env.now < loan.deadline {
            return Err(Failure::Trap(Trap::LoanNotExpired));
        }
        if default_count(env, &borrower) == u32::MAX {
            return Err(Failure::Trap(Trap::Overflow));
        }
        let vouches = take_vouches(env, &borrower);
        let mut payments: Vec<Payment> = Vec::new();
        let mut i: usize = 0;
        while i < vouches.len()
            invariant
                i <= vouches@.len(),
                payments@ == stake_payments(vouches@.take(i as int)),
            decreases vouches@.len() - i,
        {
            let vouch = vouches[i];
            payments.push(
                Payment { token: vouch.token, to: vouch.voucher, amount: vouch.stake },
            );
            i = i + 1;
            assert(payments@ =~= stake_payments(vouches@.take(i as int)));
        }
        assert(vouches@.take(i as int) =~= vouches@);
        env.authorize(borrower);
        close_as_default(env, borrower, loan);
        env.pay_all(&payments);
        assert(env@ =~= old(env)@.claimed(borrower));
        Ok(())
    }
}

} // verus!
