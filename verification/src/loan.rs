//! Disbursing loans and taking repayments.

use crate::address::Address;
use crate::contract::QuorumCreditContract;
use crate::env::{Effect, Env, Event, Payment, State};
use crate::errors::{ContractError, Failure, Trap};
use crate::helpers::{
    bps_of, get_active_loan_record, has_active_loan, next_loan_id, require_allowed_token,
    require_not_paused,
};
use crate::math;
use crate::types::{LoanRecord, LoanStatus, LoanView, VouchRecord};
use crate::vouch::{self, total_stake, total_stake_in};
use vstd::prelude::*;

verus! {

/// Whether a vouch is in this token.
pub open spec fn in_token(token: Address) -> spec_fn(VouchRecord) -> bool {
    |vouch: VouchRecord| vouch.token == token
}

/// A stake's part of the yield, in proportion to the stake.
pub open spec fn yield_share(stake: int, pool: int, total_stake: int) -> int {
    if total_stake > 0 {
        math::quotient(pool * stake, total_stake)
    } else {
        0
    }
}

/// Whether a vouch is in another token.
pub open spec fn in_other_token(token: Address) -> spec_fn(VouchRecord) -> bool {
    |vouch: VouchRecord| vouch.token != token
}

/// What a voucher gets in its own token when the loan is repaid: its stake and, if that is the
/// loan's token, its part of the yield.
pub open spec fn payout(token: Address, pool: int, total_stake: int) -> spec_fn(
    VouchRecord,
) -> Payment {
    |vouch: VouchRecord|
        Payment {
            token: vouch.token,
            to: vouch.voucher,
            amount: if vouch.token == token {
                (vouch.stake + yield_share(vouch.stake as int, pool, total_stake)) as i128
            } else {
                vouch.stake
            },
        }
}

/// The part of the yield on a vouch in another token, which is in the loan's token.
pub open spec fn share_payout(token: Address, pool: int, total_stake: int) -> spec_fn(
    VouchRecord,
) -> Payment {
    |vouch: VouchRecord|
        Payment {
            token,
            to: vouch.voucher,
            amount: yield_share(vouch.stake as int, pool, total_stake) as i128,
        }
}

/// The payouts of all vouches: the stakes, and the parts of the yield that go with stakes in
/// another token.
pub open spec fn payouts(
    vouches: Seq<VouchRecord>,
    token: Address,
    pool: int,
    total_stake: int,
) -> Seq<Payment> {
    vouches.map_values(payout(token, pool, total_stake)) + vouches.filter(
        in_other_token(token),
    ).map_values(share_payout(token, pool, total_stake))
}

/// What each vouch takes out in the loan's token.
pub open spec fn payout_amounts(
    vouches: Seq<VouchRecord>,
    token: Address,
    pool: int,
    total_stake: int,
) -> Seq<int> {
    vouches.map_values(
        |vouch: VouchRecord|
            yield_share(vouch.stake as int, pool, total_stake) + if vouch.token == token {
                vouch.stake as int
            } else {
                0
            },
    )
}

/// The computations on one vouch stay in the range of an `i128`.
pub open spec fn payout_fits(
    vouch: VouchRecord,
    token: Address,
    pool: int,
    total_stake: int,
) -> bool {
    &&& total_stake > 0 ==> math::fits(pool * vouch.stake)
    &&& vouch.token == token ==> math::fits(
        vouch.stake + yield_share(vouch.stake as int, pool, total_stake),
    )
}

/// No computation of the payouts leaves the range of an `i128`.
pub open spec fn payouts_fit(
    vouches: Seq<VouchRecord>,
    token: Address,
    pool: int,
    total_stake: int,
) -> bool {
    &&& forall|i: int|
        0 <= i < vouches.len() ==> payout_fits(#[trigger] vouches[i], token, pool, total_stake)
    &&& math::adds_up(payout_amounts(vouches, token, pool, total_stake))
}

impl State {
    /// The stake behind a borrower in one token.
    pub open spec fn stake_in(self, borrower: Address, token: Address) -> int {
        math::sum(vouch::stakes_in(self.vouches_of(borrower), token))
    }

    /// Why a loan of this amount cannot be booked.
    pub open spec fn booking_failure(self, borrower: Address, amount: i128) -> Option<Failure> {
        match self.config {
            None => Some(Failure::Trap(Trap::NotInitialized)),
            Some(config) => if self.now + config.loan_duration > u64::MAX {
                Some(Failure::Trap(Trap::Overflow))
            } else if !math::fits(amount * config.yield_bps) {
                Some(Failure::Trap(Trap::Overflow))
            } else if State::count(self.loan_counts, borrower) == u32::MAX {
                Some(Failure::Trap(Trap::Overflow))
            } else if self.loan_counter == u64::MAX {
                Some(Failure::Trap(Trap::LoanIdOverflow))
            } else {
                None
            },
        }
    }

    /// The record of a loan that is disbursed now.
    pub open spec fn new_loan(
        self,
        borrower: Address,
        co_borrowers: Seq<Address>,
        amount: i128,
        loan_purpose: Seq<u8>,
        token: Address,
    ) -> LoanView {
        LoanView {
            id: (self.loan_counter + 1) as u64,
            borrower,
            co_borrowers,
            amount,
            amount_repaid: 0,
            total_yield: math::bps(amount as int, self.config->0.yield_bps as int) as i128,
            status: LoanStatus::Active,
            created_at: self.now,
            disbursement_timestamp: self.now,
            repayment_timestamp: None,
            deadline: (self.now + self.config->0.loan_duration) as u64,
            loan_purpose,
            token_address: token,
        }
    }

    /// A loan is recorded and paid out.
    pub open spec fn disbursed(
        self,
        borrower: Address,
        co_borrowers: Seq<Address>,
        amount: i128,
        loan_purpose: Seq<u8>,
        token: Address,
    ) -> State {
        let loan = self.new_loan(borrower, co_borrowers, amount, loan_purpose, token);
        State {
            loans: self.loans.insert(loan.id, loan),
            active_loans: self.active_loans.insert(borrower, loan.id),
            latest_loans: self.latest_loans.insert(borrower, loan.id),
            loan_counts: self.loan_counts.insert(
                borrower,
                (State::count(self.loan_counts, borrower) + 1) as u32,
            ),
            loan_counter: loan.id,
            borrower_list: self.borrower_list.push(borrower),
            ..self
        }.pay(token, borrower, amount).publish(
            Event::LoanDisbursed { borrower, amount, deadline: loan.deadline },
        )
    }

    pub open spec fn request_failure(
        self,
        borrower: Address,
        amount: i128,
        threshold: i128,
        token: Address,
        contract_balance: i128,
    ) -> Option<Failure> {
        let vouches = self.vouches_of(borrower);
        let stake = self.stake_in(borrower, token);
        if self.paused {
            self.pause_failure()
        } else if self.is_blacklisted(borrower) {
            Some(Failure::Contract(ContractError::Blacklisted))
        } else if self.token_failure(token) is Some {
            self.token_failure(token)
        } else if amount < self.config->0.min_loan_amount {
            Some(Failure::Trap(Trap::LoanBelowMinimum))
        } else if threshold <= 0 {
            Some(Failure::Trap(Trap::ThresholdNotPositive))
        } else if self.max_loan_amount > 0 && amount > self.max_loan_amount {
            Some(Failure::Contract(ContractError::LoanExceedsMaxAmount))
        } else if self.has_active_loan(borrower) {
            Some(Failure::Trap(Trap::BorrowerHasActiveLoan))
        } else if !math::adds_up(vouch::stakes_in(vouches, token)) {
            Some(Failure::Trap(Trap::Overflow))
        } else if stake < threshold {
            Some(Failure::Contract(ContractError::InsufficientFunds))
        } else if vouches.filter(in_token(token)).len() < self.min_vouchers {
            Some(Failure::Contract(ContractError::InsufficientVouchers))
        } else if !math::fits(stake * self.config->0.max_loan_to_stake_ratio) {
            Some(Failure::Trap(Trap::Overflow))
        } else if amount > math::quotient(stake * self.config->0.max_loan_to_stake_ratio, 100) {
            Some(Failure::Trap(Trap::CollateralRatioExceeded))
        } else if contract_balance < amount {
            Some(Failure::Contract(ContractError::InsufficientFunds))
        } else {
            self.booking_failure(borrower, amount)
        }
    }

    pub open spec fn requested(
        self,
        borrower: Address,
        co_borrowers: Seq<Address>,
        amount: i128,
        loan_purpose: Seq<u8>,
        token: Address,
    ) -> State {
        self.authorize(borrower).authorize_all(co_borrowers).disbursed(
            borrower,
            co_borrowers,
            amount,
            loan_purpose,
            token,
        )
    }

    /// The referrer's part of the yield of a loan: basis points of the amount, and no more than
    /// the yield.
    pub open spec fn referral_bonus(self, loan: LoanView) -> int {
        if self.referrers.contains_key(loan.borrower) {
            let bonus = math::bps(loan.amount as int, self.referral_bonus_bps as int);
            if bonus < loan.total_yield {
                bonus
            } else {
                loan.total_yield as int
            }
        } else {
            0
        }
    }

    /// The protocol's fee on a loan, if there is a treasury to take it.
    pub open spec fn protocol_fee(self, loan: LoanView) -> int {
        if self.fee_treasury is Some {
            math::bps(loan.amount as int, self.protocol_fee_bps as int)
        } else {
            0
        }
    }

    /// What is left of the yield for the vouchers.
    pub open spec fn yield_pool(self, loan: LoanView) -> int {
        loan.total_yield - self.referral_bonus(loan)
    }

    /// What each voucher of a repaid loan gets.
    pub open spec fn voucher_payouts(self, loan: LoanView) -> Seq<Payment> {
        payouts(
            self.vouches_of(loan.borrower),
            loan.token_address,
            self.yield_pool(loan),
            self.total_stake(loan.borrower),
        )
    }

    /// What the vouchers of a repaid loan get together in the loan's token.
    pub open spec fn total_payout(self, loan: LoanView) -> int {
        math::sum(
            payout_amounts(
                self.vouches_of(loan.borrower),
                loan.token_address,
                self.yield_pool(loan),
                self.total_stake(loan.borrower),
            ),
        )
    }

    /// All that leaves the contract in the loan's token when a loan is settled.
    pub open spec fn settlement_total(self, loan: LoanView) -> int {
        self.total_payout(loan) + self.referral_bonus(loan) + self.protocol_fee(loan)
    }

    /// No computation of a settlement leaves the range of its type.
    pub open spec fn settlement_fits(
        self,
        loan: LoanView,
        payment: i128,
        contract_balance: i128,
    ) -> bool {
        let vouches = self.vouches_of(loan.borrower);
        &&& self.referrers.contains_key(loan.borrower) ==> math::fits(
            loan.amount * self.referral_bonus_bps,
        )
        &&& self.fee_treasury is Some ==> math::fits(loan.amount * self.protocol_fee_bps)
        &&& math::fits(self.yield_pool(loan))
        &&& math::adds_up(vouch::stakes(vouches))
        &&& payouts_fit(
            vouches,
            loan.token_address,
            self.yield_pool(loan),
            self.total_stake(loan.borrower),
        )
        &&& math::fits(self.total_payout(loan) + self.referral_bonus(loan))
        &&& math::fits(self.settlement_total(loan))
        &&& math::fits(contract_balance + payment)
        &&& State::count(self.repayment_counts, loan.borrower) < u32::MAX
    }

    pub open spec fn settlement_failure(
        self,
        loan: LoanView,
        payment: i128,
        contract_balance: i128,
    ) -> Option<Failure> {
        if !self.settlement_fits(loan, payment, contract_balance) {
            Some(Failure::Trap(Trap::Overflow))
        } else if contract_balance + payment < self.settlement_total(loan) {
            Some(Failure::Trap(Trap::InsufficientYieldBalance))
        } else {
            None
        }
    }

    /// `contract_balance` is what the contract holds of the loan's token before the payment.
    pub open spec fn repay_failure(
        self,
        borrower: Address,
        payment: i128,
        contract_balance: i128,
    ) -> Option<Failure> {
        if self.paused {
            self.pause_failure()
        } else {
            match self.active_loan(borrower) {
                None => Some(Failure::Contract(ContractError::NoActiveLoan)),
                Some(loan) => if borrower != loan.borrower {
                    Some(Failure::Contract(ContractError::UnauthorizedCaller))
                } else if loan.status != LoanStatus::Active {
                    Some(Failure::Contract(ContractError::NoActiveLoan))
                } else if self.now > loan.deadline {
                    Some(Failure::Trap(Trap::DeadlinePassed))
                } else if !math::fits(loan.amount + loan.total_yield) || !math::fits(
                    loan.amount + loan.total_yield - loan.amount_repaid,
                ) {
                    Some(Failure::Trap(Trap::Overflow))
                } else if payment <= 0 || payment > loan.amount + loan.total_yield
                    - loan.amount_repaid {
                    Some(Failure::Trap(Trap::InvalidPayment))
                } else if !math::fits(loan.amount_repaid + payment) {
                    Some(Failure::Trap(Trap::Overflow))
                } else if loan.amount_repaid + payment >= loan.amount {
                    self.settlement_failure(loan, payment, contract_balance)
                } else {
                    None
                },
            }
        }
    }

    /// The borrower, and all co-borrowers, sign; the payment comes in.
    pub open spec fn payment_collected(self, loan: LoanView, payment: i128) -> State {
        self.authorize(loan.borrower).authorize_all(loan.co_borrowers).collect(
            loan.token_address,
            loan.borrower,
            payment,
        )
    }

    /// The referrer and the protocol get theirs.
    pub open spec fn extras_paid(self, loan: LoanView, bonus: int, fee: int) -> State {
        let paid = if bonus > 0 {
            self.pay(loan.token_address, self.referrers[loan.borrower], bonus as i128)
        } else {
            self
        };
        if fee > 0 {
            paid.pay(loan.token_address, self.fee_treasury->0, fee as i128)
        } else {
            paid
        }
    }

    /// One reputation point is minted, if reputation is kept.
    pub open spec fn reputation_minted(self, borrower: Address) -> State {
        match self.reputation_nft {
            Some(nft) => self.emit(Effect::MintReputation { nft, to: borrower }),
            None => self,
        }
    }

    /// The loan is closed as repaid: stakes and yield are paid out, and the vouches are struck
    /// off.
    pub open spec fn settled(self, loan: LoanView, payment: i128) -> State {
        State {
            loans: self.loans.insert(
                loan.id,
                LoanView {
                    amount_repaid: (loan.amount_repaid + payment) as i128,
                    status: LoanStatus::Repaid,
                    repayment_timestamp: Some(self.now),
                    ..loan
                },
            ),
            active_loans: self.active_loans.remove(loan.borrower),
            repayment_counts: self.repayment_counts.insert(
                loan.borrower,
                (State::count(self.repayment_counts, loan.borrower) + 1) as u32,
            ),
            ..self
        }.with_vouches(loan.borrower, Seq::empty()).payment_collected(loan, payment).pay_all(self.voucher_payouts(loan)).extras_paid(
            loan,
            self.referral_bonus(loan),
            self.protocol_fee(loan),
        ).reputation_minted(loan.borrower).publish(
            Event::LoanRepaid { borrower: loan.borrower, amount: loan.amount },
        )
    }

    /// A payment is booked. The loan is repaid once the payments reach the principal.
    pub open spec fn repaid(self, borrower: Address, payment: i128) -> State {
        let loan = self.active_loan(borrower)->0;
        if loan.amount_repaid + payment >= loan.amount {
            self.settled(loan, payment)
        } else {
            State {
                loans: self.loans.insert(
                    loan.id,
                    LoanView {
                        amount_repaid: (loan.amount_repaid + payment) as i128,
                        ..loan
                    },
                ),
                ..self
            }.payment_collected(loan, payment)
        }
    }
}

/// The number of vouches in a token.
fn count_in(vouches: &Vec<VouchRecord>, token: &Address) -> (count: usize)
    ensures
        count == vouches@.filter(in_token(*token)).len(),
{
    let mut count: usize = 0;
    let mut i: usize = 0;
    proof {
        reveal(Seq::filter);
        assert(vouches@.take(0).filter(in_token(*token)) =~= Seq::empty());
    }
    while i < vouches.len()
        invariant
            count <= i <= vouches@.len(),
            count == vouches@.take(i as int).filter(in_token(*token)).len(),
        decreases vouches@.len() - i,
    {
        proof {
            math::lemma_filter_step(vouches@, in_token(*token), i as int);
        }
        if vouches[i].token == *token {
            count = count + 1;
        }
        i = i + 1;
    }
    assert(vouches@.take(i as int) =~= vouches@);
    count
}

pub(crate) fn loan_count(env: &Env, borrower: &Address) -> (count: u32)
    ensures
        count == State::count(env@.loan_counts, *borrower),
{
    match env.loan_counts.get(borrower) {
        Some(count) => *count,
        None => 0,
    }
}

fn repayment_count(env: &Env, borrower: &Address) -> (count: u32)
    ensures
        count == State::count(env@.repayment_counts, *borrower),
{
    match env.repayment_counts.get(borrower) {
        Some(count) => *count,
        None => 0,
    }
}

fn booking_failure(env: &Env, borrower: &Address, amount: i128) -> (failure: Option<Failure>)
    ensures
        failure == env@.booking_failure(*borrower, amount),
{
    match &env.config {
        None => Some(Failure::Trap(Trap::NotInitialized)),
        Some(config) => {
            if env.now.checked_add(config.loan_duration).is_none() {
                return Some(Failure::Trap(Trap::Overflow));
            }
            if amount.checked_mul(config.yield_bps).is_none() {
                return Some(Failure::Trap(Trap::Overflow));
            }
            if loan_count(env, borrower) == u32::MAX {
                return Some(Failure::Trap(Trap::Overflow));
            }
            if env.loan_counter == u64::MAX {
                return Some(Failure::Trap(Trap::LoanIdOverflow));
            }
            None
        },
    }
}

/// Records a loan and pays it out.
pub(crate) fn disburse(
    env: &mut Env,
    borrower: Address,
    co_borrowers: Vec<Address>,
    amount: i128,
    loan_purpose: Vec<u8>,
    token: Address,
)
    requires
        old(env)@.booking_failure(borrower, amount) is None,
    ensures
        final(env)@ == old(env)@.disbursed(
            borrower,
            co_borrowers@,
            amount,
            loan_purpose@,
            token,
        ),
{
    let now: u64 = env.now;
    let (deadline, total_yield): (u64, i128) = match &env.config {
        Some(config) => (now + config.loan_duration, amount * config.yield_bps / 10_000),
        None => (0, 0),
    };
    let id: u64 = match next_loan_id(env) {
        Ok(id) => id,
        Err(_) => 0,
    };
    let loan = LoanRecord {
        id,
        borrower,
        co_borrowers,
        amount,
        amount_repaid: 0,
        total_yield,
        status: LoanStatus::Active,
        created_at: now,
        disbursement_timestamp: now,
        repayment_timestamp: None,
        deadline,
        loan_purpose,
        token_address: token,
    };
    assert(loan@ =~= old(env)@.new_loan(borrower, co_borrowers@, amount, loan_purpose@, token));
    let count: u32 = loan_count(env, &borrower);
    env.loans.insert(id, loan);
    env.active_loans.insert(borrower, id);
    env.latest_loans.insert(borrower, id);
    env.loan_counts.insert(borrower, count + 1);
    env.borrower_list.push(borrower);
    env.pay(token, borrower, amount);
    env.publish(Event::LoanDisbursed { borrower, amount, deadline });
    assert(env@ =~= old(env)@.disbursed(borrower, co_borrowers@, amount, loan_purpose@, token));
}

fn request_failure(
    env: &Env,
    borrower: &Address,
    amount: i128,
    threshold: i128,
    token: &Address,
    contract_balance: i128,
) -> (failure: Option<Failure>)
    ensures
        failure == env@.request_failure(*borrower, amount, threshold, *token, contract_balance),
{
    if let Err(error) = require_not_paused(env) {
        return Some(Failure::Contract(error));
    }
    let banned: bool = match env.blacklist.get(borrower) {
        Some(banned) => *banned,
        None => false,
    };
    if banned {
        return Some(Failure::Contract(ContractError::Blacklisted));
    }
    if let Err(failure) = require_allowed_token(env, token) {
        return Some(failure);
    }
    let (min_loan_amount, ratio): (i128, u32) = match &env.config {
        Some(config) => (config.min_loan_amount, config.max_loan_to_stake_ratio),
        None => {
            return Some(Failure::Trap(Trap::NotInitialized));
        },
    };
    if amount < min_loan_amount {
        return Some(Failure::Trap(Trap::LoanBelowMinimum));
    }
    if threshold <= 0 {
        return Some(Failure::Trap(Trap::ThresholdNotPositive));
    }
    if env.max_loan_amount > 0 && amount > env.max_loan_amount {
        return Some(Failure::Contract(ContractError::LoanExceedsMaxAmount));
    }
    if has_active_loan(env, borrower) {
        return Some(Failure::Trap(Trap::BorrowerHasActiveLoan));
    }
    let none: Vec<VouchRecord> = Vec::new();
    let vouches: &Vec<VouchRecord> = match env.vouches.get(borrower) {
        Some(vouches) => vouches,
        None => &none,
    };
    match total_stake_in(vouches, token) {
        None => Some(Failure::Trap(Trap::Overflow)),
        Some(stake) => {
            if stake < threshold {
                return Some(Failure::Contract(ContractError::InsufficientFunds));
            }
            if count_in(vouches, token) < env.min_vouchers as usize {
                return Some(Failure::Contract(ContractError::InsufficientVouchers));
            }
            match math::portion(stake, ratio as i128, 100) {
                None => Some(Failure::Trap(Trap::Overflow)),
                Some(max_allowed_loan) => {
                    if amount > max_allowed_loan {
                        return Some(Failure::Trap(Trap::CollateralRatioExceeded));
                    }
                    if contract_balance < amount {
                        return Some(Failure::Contract(ContractError::InsufficientFunds));
                    }
                    booking_failure(env, borrower, amount)
                },
            }
        },
    }
}

impl QuorumCreditContract {
    /// Disburse a microloan if the total vouched stake meets the threshold.
    /// `contract_balance` is what the contract holds of `token`.
    pub fn request_loan(
        env: &mut Env,
        borrower: Address,
        co_borrowers: Vec<Address>,
        amount: i128,
        threshold: i128,
        loan_purpose: Vec<u8>,
        token: Address,
        contract_balance: i128,
    ) -> (res: Result<(), Failure>)
        ensures
            res == State::verdict(
                old(env)@.request_failure(borrower, amount, threshold, token, contract_balance),
                (),
            ),
            final(env)@ == old(env)@.unless_failed(
                old(env)@.request_failure(borrower, amount, threshold, token, contract_balance),
                old(env)@.requested(borrower, co_borrowers@, amount, loan_purpose@, token),
            ),
    {
        if let Some(failure) = request_failure(
            env,
            &borrower,
            amount,
            threshold,
            &token,
            contract_balance,
        ) {
            return Err(failure);
        }
        env.authorize(borrower);
        env.authorize_all(&co_borrowers);
        disburse(env, borrower, co_borrowers, amount, loan_purpose, token);
        Ok(())
    }
}

/// What repayment pays on a list of vouches.
struct PayoutPlan {
    /// In the loan's token.
    total: i128,
    payments: Vec<Payment>,
}

/// Works out the payouts of a repaid loan; `None` where that overflows.
fn plan_payouts(
    vouches: &Vec<VouchRecord>,
    token: Address,
    pool: i128,
    total_stake: i128,
) -> (plan: Option<PayoutPlan>)
    ensures
        match plan {
            Some(plan) => {
                &&& payouts_fit(vouches@, token, pool as int, total_stake as int)
                &&& plan.total == math::sum(
                    payout_amounts(vouches@, token, pool as int, total_stake as int),
                )
                &&& plan.payments@ == payouts(vouches@, token, pool as int, total_stake as int)
            },
            None => !payouts_fit(vouches@, token, pool as int, total_stake as int),
        },
{
    let ghost amounts = payout_amounts(vouches@, token, pool as int, total_stake as int);
    let ghost stake_payment = payout(token, pool as int, total_stake as int);
    let ghost share_payment = share_payout(token, pool as int, total_stake as int);
    let mut total: i128 = 0;
    let mut payments: Vec<Payment> = Vec::new();
    let mut shares: Vec<Payment> = Vec::new();
    let mut i: usize = 0;
    proof {
        reveal(Seq::filter);
        assert(math::sum(amounts.take(0)) == 0);
        assert(payments@ =~= vouches@.take(0).map_values(stake_payment));
        assert(shares@ =~= vouches@.take(0).filter(in_other_token(token)).map_values(
            share_payment,
        ));
    }
    while i < vouches.len()
        invariant
            i <= vouches@.len(),
            amounts == payout_amounts(vouches@, token, pool as int, total_stake as int),
            stake_payment == payout(token, pool as int, total_stake as int),
            share_payment == share_payout(token, pool as int, total_stake as int),
            total == math::sum(amounts.take(i as int)),
            forall|k: int| 0 <= k <= i ==> math::fits(#[trigger] math::sum(amounts.take(k))),
            forall|k: int|
                0 <= k < i ==> payout_fits(
                    #[trigger] vouches@[k],
                    token,
                    pool as int,
                    total_stake as int,
                ),
            payments@ == vouches@.take(i as int).map_values(stake_payment),
            shares@ == vouches@.take(i as int).filter(in_other_token(token)).map_values(
                share_payment,
            ),
        decreases vouches@.len() - i,
    {
        let vouch = vouches[i];
        proof {
            math::lemma_sum_step(amounts, i as int);
            math::lemma_filter_step(vouches@, in_other_token(token), i as int);
        }
        let mut share: i128 = 0;
        if total_stake > 0 {
            match math::portion(pool, vouch.stake, total_stake) {
                None => {
                    assert(!payout_fits(
                        vouches@[i as int],
                        token,
                        pool as int,
                        total_stake as int,
                    ));
                    return None;
                },
                Some(part) => {
                    share = part;
                },
            }
        }
        let mut amount: i128 = share;
        if vouch.token == token {
            match vouch.stake.checked_add(share) {
                None => {
                    assert(!payout_fits(
                        vouches@[i as int],
                        token,
                        pool as int,
                        total_stake as int,
                    ));
                    return None;
                },
                Some(both) => {
                    amount = both;
                },
            }
            payments.push(Payment { token, to: vouch.voucher, amount });
        } else {
            payments.push(
                Payment { token: vouch.token, to: vouch.voucher, amount: vouch.stake },
            );
            shares.push(Payment { token, to: vouch.voucher, amount: share });
        }
        match total.checked_add(amount) {
            None => {
                assert(!math::fits(math::sum(amounts.take(i + 1))));
                return None;
            },
            Some(next) => {
                total = next;
            },
        }
        i = i + 1;
        assert(payments@ =~= vouches@.take(i as int).map_values(stake_payment));
        assert(shares@ =~= vouches@.take(i as int).filter(in_other_token(token)).map_values(
            share_payment,
        ));
    }
    assert(amounts.take(i as int) =~= amounts);
    assert(vouches@.take(i as int) =~= vouches@);
    payments.append(&mut shares);
    Some(PayoutPlan { total, payments })
}

/// All that the settlement of a loan pays out.
struct Settlement {
    payouts: PayoutPlan,
    bonus: i128,
    fee: i128,
}

/// The referrer's bonus; `None` where that overflows.
fn referral_bonus(env: &Env, loan: &LoanRecord) -> (bonus: Option<i128>)
    ensures
        match bonus {
            Some(bonus) => {
                &&& env@.referrers.contains_key(loan.borrower) ==> math::fits(
                    loan.amount * env@.referral_bonus_bps,
                )
                &&& bonus == env@.referral_bonus(loan@)
            },
            None => env@.referrers.contains_key(loan.borrower) && !math::fits(
                loan.amount * env@.referral_bonus_bps,
            ),
        },
{
    if !env.referrers.contains_key(&loan.borrower) {
        return Some(0);
    }
    if loan.amount.checked_mul(env.referral_bonus_bps as i128).is_none() {
        return None;
    }
    let bonus: i128 = bps_of(loan.amount, env.referral_bonus_bps);
    if bonus < loan.total_yield {
        Some(bonus)
    } else {
        Some(loan.total_yield)
    }
}

/// The protocol's fee; `None` where that overflows.
fn protocol_fee(env: &Env, loan: &LoanRecord) -> (fee: Option<i128>)
    ensures
        match fee {
            Some(fee) => {
                &&& env@.fee_treasury is Some ==> math::fits(loan.amount * env@.protocol_fee_bps)
                &&& fee == env@.protocol_fee(loan@)
            },
            None => env@.fee_treasury is Some && !math::fits(
                loan.amount * env@.protocol_fee_bps,
            ),
        },
{
    if env.fee_treasury.is_none() {
        return Some(0);
    }
    if loan.amount.checked_mul(env.protocol_fee_bps as i128).is_none() {
        return None;
    }
    Some(bps_of(loan.amount, env.protocol_fee_bps))
}

/// Works out the settlement of a loan; `None` where that overflows.
fn settlement_amounts(env: &Env, loan: &LoanRecord) -> (settlement: Option<(Settlement, i128)>)
    ensures
        ({
            let vouches = env@.vouches_of(loan.borrower);
            let stake = env@.total_stake(loan.borrower);
            let fit = {
                &&& env@.referrers.contains_key(loan.borrower) ==> math::fits(
                    loan.amount * env@.referral_bonus_bps,
                )
                &&& env@.fee_treasury is Some ==> math::fits(loan.amount * env@.protocol_fee_bps)
                &&& math::fits(env@.yield_pool(loan@))
                &&& math::adds_up(vouch::stakes(vouches))
                &&& payouts_fit(vouches, loan.token_address, env@.yield_pool(loan@), stake)
                &&& math::fits(env@.total_payout(loan@) + env@.referral_bonus(loan@))
                &&& math::fits(env@.settlement_total(loan@))
            };
            match settlement {
                Some((settlement, total)) => {
                    &&& fit
                    &&& settlement.bonus == env@.referral_bonus(loan@)
                    &&& settlement.fee == env@.protocol_fee(loan@)
                    &&& settlement.payouts.payments@ == env@.voucher_payouts(loan@)
                    &&& total == env@.settlement_total(loan@)
                },
                None => !fit,
            }
        }),
{
    let bonus: i128 = match referral_bonus(env, loan) {
        Some(bonus) => bonus,
        None => {
            return None;
        },
    };
    let fee: i128 = match protocol_fee(env, loan) {
        Some(fee) => fee,
        None => {
            return None;
        },
    };
    let pool: i128 = match loan.total_yield.checked_sub(bonus) {
        Some(pool) => pool,
        None => {
            return None;
        },
    };
    let none: Vec<VouchRecord> = Vec::new();
    let vouches: &Vec<VouchRecord> = match env.vouches.get(&loan.borrower) {
        Some(vouches) => vouches,
        None => &none,
    };
    assert(vouches@ =~= env@.vouches_of(loan.borrower));
    let stake: i128 = match total_stake(vouches) {
        Some(stake) => stake,
        None => {
            return None;
        },
    };
    match plan_payouts(vouches, loan.token_address, pool, stake) {
        None => None,
        Some(payouts) => match payouts.total.checked_add(bonus) {
            None => None,
            Some(subtotal) => match subtotal.checked_add(fee) {
                None => None,
                Some(total) => Some((Settlement { payouts, bonus, fee }, total)),
            },
        },
    }
}

/// Works out the settlement of a loan and checks that the contract can cover it.
fn plan_settlement(
    env: &Env,
    loan: &LoanRecord,
    payment: i128,
    contract_balance: i128,
) -> (res: Result<Settlement, Failure>)
    ensures
        match res {
            Ok(settlement) => {
                &&& env@.settlement_failure(loan@, payment, contract_balance) is None
                &&& settlement.bonus == env@.referral_bonus(loan@)
                &&& settlement.fee == env@.protocol_fee(loan@)
                &&& settlement.payouts.payments@ == env@.voucher_payouts(loan@)
            },
            Err(failure) => env@.settlement_failure(loan@, payment, contract_balance) == Some(
                failure,
            ),
        },
{
    match settlement_amounts(env, loan) {
        None => Err(Failure::Trap(Trap::Overflow)),
        Some((settlement, total)) => match contract_balance.checked_add(payment) {
            None => Err(Failure::Trap(Trap::Overflow)),
            Some(funds) => {
                if repayment_count(env, &loan.borrower) == u32::MAX {
                    return Err(Failure::Trap(Trap::Overflow));
                }
                if funds < total {
                    return Err(Failure::Trap(Trap::InsufficientYieldBalance));
                }
                Ok(settlement)
            },
        },
    }
}

fn collect_payment(env: &mut Env, loan: &LoanRecord, payment: i128)
    ensures
        final(env)@ == old(env)@.payment_collected(loan@, payment),
{
    env.authorize(loan.borrower);
    env.authorize_all(&loan.co_borrowers);
    env.collect(loan.token_address, loan.borrower, payment);
}

fn pay_extras(env: &mut Env, loan: &LoanRecord, bonus: i128, fee: i128)
    requires
        bonus > 0 ==> old(env)@.referrers.contains_key(loan.borrower),
        fee > 0 ==> old(env)@.fee_treasury is Some,
    ensures
        final(env)@ == old(env)@.extras_paid(loan@, bonus as int, fee as int),
{
    if bonus > 0 {
        if let Some(referrer) = env.referrers.get(&loan.borrower) {
            let referrer = *referrer;
            env.pay(loan.token_address, referrer, bonus);
        }
    }
    if fee > 0 {
        if let Some(treasury) = env.fee_treasury {
            env.pay(loan.token_address, treasury, fee);
        }
    }
}

fn mint_reputation(env: &mut Env, borrower: Address)
    ensures
        final(env)@ == old(env)@.reputation_minted(borrower),
{
    if let Some(nft) = env.reputation_nft {
        env.emit(Effect::MintReputation { nft, to: borrower });
    }
}

/// Closes a loan as repaid.
fn settle(env: &mut Env, loan: LoanRecord, payment: i128, settlement: Settlement)
    requires
        math::fits(loan.amount_repaid + payment),
        State::count(old(env)@.repayment_counts, loan.borrower) < u32::MAX,
        settlement.bonus == old(env)@.referral_bonus(loan@),
        settlement.fee == old(env)@.protocol_fee(loan@),
        settlement.payouts.payments@ == old(env)@.voucher_payouts(loan@),
    ensures
        final(env)@ == old(env)@.settled(loan@, payment),
{
    let count: u32 = repayment_count(env, &loan.borrower);
    let closed = LoanRecord {
        amount_repaid: loan.amount_repaid + payment,
        status: LoanStatus::Repaid,
        repayment_timestamp: Some(env.now),
        ..loan.clone()
    };
    env.loans.insert(loan.id, closed);
    let _ = env.active_loans.remove(&loan.borrower);
    env.repayment_counts.insert(loan.borrower, count + 1);
    let _ = env.vouches.remove(&loan.borrower);
    collect_payment(env, &loan, payment);
    env.pay_all(&settlement.payouts.payments);
    pay_extras(env, &loan, settlement.bonus, settlement.fee);
    mint_reputation(env, loan.borrower);
    env.publish(Event::LoanRepaid { borrower: loan.borrower, amount: loan.amount });
    assert(env@ =~= old(env)@.settled(loan@, payment));
}

impl QuorumCreditContract {
    /// Borrower repays all or part of the loan.
    ///
    /// `payment` is the amount being paid in this call (in stroops). It must be at least 1
    /// stroop and cannot exceed the outstanding balance. When the cumulative `amount_repaid`
    /// reaches `amount`, the loan is marked fully repaid and each voucher receives its stake
    /// back plus a proportional share of the yield. `contract_balance` is what the contract
    /// holds of the loan's token before the payment.
    pub fn repay(env: &mut Env, borrower: Address, payment: i128, contract_balance: i128) -> (res:
        Result<(), Failure>)
        ensures
            res == State::verdict(
                old(env)@.repay_failure(borrower, payment, contract_balance),
                (),
            ),
            final(env)@ == old(env)@.unless_failed(
                old(env)@.repay_failure(borrower, payment, contract_balance),
                old(env)@.repaid(borrower, payment),
            ),
    {
        if let Err(error) = require_not_paused(env) {
            return Err(Failure::Contract(error));
        }
        let loan = match get_active_loan_record(env, &borrower) {
            Ok(loan) => loan,
            Err(error) => {
                return Err(Failure::Contract(error));
            },
        };
        if borrower != loan.borrower {
            return Err(Failure::Contract(ContractError::UnauthorizedCaller));
        }
        if loan.status != LoanStatus::Active {
            return Err(Failure::Contract(ContractError::NoActiveLoan));
        }
        if env.now > loan.deadline {
            return Err(Failure::Trap(Trap::DeadlinePassed));
        }
        let owed: i128 = match loan.amount.checked_add(loan.total_yield) {
            Some(owed) => owed,
            None => {
                return Err(Failure::Trap(Trap::Overflow));
            },
        };
        let outstanding: i128 = match owed.checked_sub(loan.amount_repaid) {
            Some(outstanding) => outstanding,
            None => {
                return Err(Failure::Trap(Trap::Overflow));
            },
        };
        if payment <= 0 || payment > outstanding {
            return Err(Failure::Trap(Trap::InvalidPayment));
        }
        let amount_repaid: i128 = match loan.amount_repaid.checked_add(payment) {
            Some(amount_repaid) => amount_repaid,
            None => {
                return Err(Failure::Trap(Trap::Overflow));
            },
        };
        if amount_repaid >= loan.amount {
            match plan_settlement(env, &loan, payment, contract_balance) {
                Err(failure) => Err(failure),
                Ok(settlement) => {
                    settle(env, loan, payment, settlement);
                    Ok(())
                },
            }
        } else {
            let updated = LoanRecord { amount_repaid, ..loan.clone() };
            env.loans.insert(loan.id, updated);
            collect_payment(env, &loan, payment);
            assert(env@ =~= old(env)@.repaid(borrower, payment));
            Ok(())
        }
    }
}

} // verus!
