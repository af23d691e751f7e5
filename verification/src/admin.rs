//! What only the admins can do.

use crate::address::Address;
use crate::contract::QuorumCreditContract;
use crate::env::{Effect, Env, Event, State};
use crate::errors::{ContractError, Failure, Trap};
use crate::governance;
use crate::helpers::{
    self, approval_failure, listed, require_admin_approval, require_valid_token,
    validate_admin_config,
};
use crate::types::{
    Config, ConfigView, DEFAULT_LOAN_DURATION, DEFAULT_MAX_LOAN_TO_STAKE_RATIO,
    DEFAULT_MAX_VOUCHERS, DEFAULT_MIN_LOAN_AMOUNT, DEFAULT_MIN_YIELD_STAKE, DEFAULT_SLASH_BPS,
    DEFAULT_VOUCH_COOLDOWN_SECS, DEFAULT_YIELD_BPS,
};
use vstd::prelude::*;

verus! {

/// The configuration that the contract starts with.
pub open spec fn initial_config(admins: Seq<Address>, admin_threshold: u32, token: Address) -> ConfigView {
    ConfigView {
        admins,
        admin_threshold,
        token,
        allowed_tokens: Seq::empty(),
        yield_bps: DEFAULT_YIELD_BPS,
        slash_bps: DEFAULT_SLASH_BPS,
        max_vouchers: DEFAULT_MAX_VOUCHERS,
        min_loan_amount: DEFAULT_MIN_LOAN_AMOUNT,
        loan_duration: DEFAULT_LOAN_DURATION,
        max_loan_to_stake_ratio: DEFAULT_MAX_LOAN_TO_STAKE_RATIO,
        grace_period: 0,
        min_yield_stake: DEFAULT_MIN_YIELD_STAKE,
        vouch_cooldown_secs: DEFAULT_VOUCH_COOLDOWN_SECS,
    }
}

/// Why a configuration is refused.
pub open spec fn config_failure(config: ConfigView) -> Option<Failure> {
    if config.yield_bps < 0 {
        Some(Failure::Trap(Trap::NegativeYield))
    } else if config.slash_bps <= 0 || config.slash_bps > 10_000 {
        Some(Failure::Trap(Trap::SlashBpsOutOfRange))
    } else if config.max_vouchers == 0 {
        Some(Failure::Trap(Trap::ZeroMaxVouchers))
    } else if config.min_loan_amount <= 0 {
        Some(Failure::Trap(Trap::MinLoanNotPositive))
    } else if config.loan_duration == 0 {
        Some(Failure::Trap(Trap::ZeroLoanDuration))
    } else if config.max_loan_to_stake_ratio == 0 {
        Some(Failure::Trap(Trap::ZeroLoanToStakeRatio))
    } else {
        helpers::admin_config_failure(config.admins, config.admin_threshold)
    }
}

/// Why new rates are refused; a rate that is not given stays as it is.
pub open spec fn rates_failure(yield_bps: Option<i128>, slash_bps: Option<i128>) -> Option<Failure> {
    if yield_bps is Some && yield_bps->0 < 0 {
        Some(Failure::Trap(Trap::NegativeYield))
    } else if slash_bps is Some && (slash_bps->0 <= 0 || slash_bps->0 > 10_000) {
        Some(Failure::Trap(Trap::SlashBpsOutOfRange))
    } else {
        None
    }
}

/// A failure with this reason unless the condition holds.
pub open spec fn trap_unless(condition: bool, trap: Trap) -> Option<Failure> {
    if condition {
        None
    } else {
        Some(Failure::Trap(trap))
    }
}

/// A parameter that the admins set, with its new value.
pub enum Setting {
    MinStake(i128),
    MaxLoanAmount(i128),
    MinVouchers(u32),
    MaxVouchersPerLoan(u32),
    MaxLoanToStakeRatio(u32),
    Rates { yield_bps: Option<i128>, slash_bps: Option<i128> },
    AllowToken(Address),
    DisallowToken(Address),
    ReputationNft(Address),
    ProtocolFee(u32),
    FeeTreasury(Address),
    ReferralBonus(u32),
    SlashVoteQuorum(u32),
    Whitelist(Address),
    Blacklist(Address),
    Paused(bool),
}

impl Setting {
    /// Why the value is refused.
    pub open spec fn failure(self) -> Option<Failure> {
        match self {
            Setting::MinStake(amount) => trap_unless(amount >= 0, Trap::NegativeMinStake),
            Setting::MaxLoanAmount(amount) => trap_unless(
                amount >= 0,
                Trap::NegativeMaxLoanAmount,
            ),
            Setting::MaxVouchersPerLoan(max) => trap_unless(max > 0, Trap::ZeroMaxVouchers),
            Setting::MaxLoanToStakeRatio(ratio) => trap_unless(
                ratio > 0,
                Trap::ZeroLoanToStakeRatio,
            ),
            Setting::Rates { yield_bps, slash_bps } => rates_failure(yield_bps, slash_bps),
            Setting::ProtocolFee(fee_bps) => trap_unless(fee_bps <= 10_000, Trap::FeeTooHigh),
            Setting::ReferralBonus(bonus_bps) => trap_unless(
                bonus_bps <= 10_000,
                Trap::BonusTooHigh,
            ),
            Setting::SlashVoteQuorum(quorum_bps) => governance::quorum_failure(quorum_bps),
            _ => None,
        }
    }
}

impl State {
    /// The state with a parameter set.
    pub open spec fn with_setting(self, setting: Setting) -> State {
        let config = self.config->0;
        match setting {
            Setting::MinStake(amount) => State { min_stake: amount, ..self },
            Setting::MaxLoanAmount(amount) => State { max_loan_amount: amount, ..self },
            Setting::MinVouchers(count) => State { min_vouchers: count, ..self },
            Setting::MaxVouchersPerLoan(max) => self.with_config(
                ConfigView { max_vouchers: max, ..config },
            ),
            Setting::MaxLoanToStakeRatio(ratio) => self.with_config(
                ConfigView { max_loan_to_stake_ratio: ratio, ..config },
            ),
            Setting::Rates { yield_bps, slash_bps } => self.with_config(
                ConfigView {
                    yield_bps: match yield_bps {
                        Some(rate) => rate,
                        None => config.yield_bps,
                    },
                    slash_bps: match slash_bps {
                        Some(rate) => rate,
                        None => config.slash_bps,
                    },
                    ..config
                },
            ),
            Setting::AllowToken(token) => self.with_config(
                ConfigView { allowed_tokens: self.tokens_with(token), ..config },
            ),
            Setting::DisallowToken(token) => self.with_config(
                ConfigView { allowed_tokens: config.allowed_tokens.remove_value(token), ..config },
            ),
            Setting::ReputationNft(nft) => State { reputation_nft: Some(nft), ..self },
            Setting::ProtocolFee(fee_bps) => State { protocol_fee_bps: fee_bps, ..self },
            Setting::FeeTreasury(treasury) => State { fee_treasury: Some(treasury), ..self },
            Setting::ReferralBonus(bonus_bps) => State { referral_bonus_bps: bonus_bps, ..self },
            Setting::SlashVoteQuorum(quorum_bps) => State {
                slash_vote_quorum: quorum_bps,
                ..self
            },
            Setting::Whitelist(voucher) => State {
                whitelist: self.whitelist.insert(voucher, true),
                ..self
            },
            Setting::Blacklist(borrower) => State {
                blacklist: self.blacklist.insert(borrower, true),
                ..self
            },
            Setting::Paused(paused) => State { paused, ..self },
        }
    }

    pub open spec fn set_failure(self, signers: Seq<Address>, setting: Setting) -> Option<Failure> {
        self.admin_failure(signers, setting.failure())
    }

    /// The admins sign, and the parameter is set.
    pub open spec fn set(self, signers: Seq<Address>, setting: Setting) -> State {
        self.with_setting(setting).authorize_all(signers)
    }

    pub open spec fn initialize_failure(
        self,
        admins: Seq<Address>,
        admin_threshold: u32,
        token: Address,
        token_responds: bool,
    ) -> Option<Failure> {
        if self.config is Some {
            Some(Failure::Contract(ContractError::AlreadyInitialized))
        } else if helpers::admin_config_failure(admins, admin_threshold) is Some {
            helpers::admin_config_failure(admins, admin_threshold)
        } else if token.is_zero() {
            Some(Failure::Contract(ContractError::ZeroAddress))
        } else if !token_responds {
            Some(Failure::Contract(ContractError::InvalidToken))
        } else {
            None
        }
    }

    pub open spec fn initialized(
        self,
        deployer: Address,
        admins: Seq<Address>,
        admin_threshold: u32,
        token: Address,
    ) -> State {
        State {
            deployer: Some(deployer),
            config: Some(initial_config(admins, admin_threshold, token)),
            ..self
        }.authorize(deployer).publish(
            Event::Initialized { deployer, admins, admin_threshold, token },
        )
    }

    /// An admin call fails for want of approval before anything else.
    pub open spec fn admin_failure(self, signers: Seq<Address>, failure: Option<Failure>) -> Option<
        Failure,
    > {
        if self.approval_failure(signers) is Some {
            self.approval_failure(signers)
        } else {
            failure
        }
    }

    pub open spec fn with_config(self, config: ConfigView) -> State {
        State { config: Some(config), ..self }
    }

    /// Another configuration takes effect; a change of admins is published.
    pub open spec fn reconfigured(self, signers: Seq<Address>, config: ConfigView) -> State {
        let next = self.with_config(config).authorize_all(signers);
        if self.config->0.admins == config.admins {
            next
        } else {
            next.publish(
                Event::AdminsChanged {
                    old_admins: self.config->0.admins,
                    new_admins: config.admins,
                },
            )
        }
    }

    /// Other admins, or another threshold, take effect.
    pub open spec fn with_admins(
        self,
        signers: Seq<Address>,
        admins: Seq<Address>,
        admin_threshold: u32,
    ) -> State {
        self.reconfigured(signers, ConfigView { admins, admin_threshold, ..self.config->0 })
    }

    pub open spec fn removal_failure(self, admin: Address) -> Option<Failure> {
        let admins = self.config->0.admins;
        if !admins.contains(admin) {
            Some(Failure::Trap(Trap::AdminNotFound))
        } else {
            helpers::admin_config_failure(
                admins.remove_value(admin),
                self.config->0.admin_threshold,
            )
        }
    }

    /// The admins with one in the place of another.
    pub open spec fn rotated_admins(self, old_admin: Address, new_admin: Address) -> Seq<Address> {
        let admins = self.config->0.admins;
        admins.update(admins.index_of_first(old_admin)->0, new_admin)
    }

    pub open spec fn rotation_failure(self, old_admin: Address, new_admin: Address) -> Option<
        Failure,
    > {
        if !self.config->0.admins.contains(old_admin) {
            Some(Failure::Trap(Trap::AdminNotFound))
        } else {
            helpers::admin_config_failure(
                self.rotated_admins(old_admin, new_admin),
                self.config->0.admin_threshold,
            )
        }
    }

    /// The accepted tokens with one more, unless it is accepted already.
    pub open spec fn tokens_with(self, token: Address) -> Seq<Address> {
        let config = self.config->0;
        if token == config.token || config.allowed_tokens.contains(token) {
            config.allowed_tokens
        } else {
            config.allowed_tokens.push(token)
        }
    }

    /// The slashed funds leave the treasury.
    pub open spec fn treasury_withdrawn(self, signers: Seq<Address>, recipient: Address) -> State {
        State { slash_treasury: 0, ..self }.authorize_all(signers).pay(
            self.config->0.token,
            recipient,
            self.slash_treasury,
        )
    }

    pub open spec fn upgraded(self, signers: Seq<Address>, wasm_hash: [u8; 32]) -> State {
        self.authorize_all(signers).emit(Effect::UpdateWasm { wasm_hash }).publish(
            Event::Upgraded { wasm_hash },
        )
    }
}

/// Admin approval, and then whatever else speaks against the call.
fn approve(env: &mut Env, admin_signers: &Vec<Address>, failure: Option<Failure>) -> (res: Result<
    (),
    Failure,
>)
    ensures
        res == State::verdict(old(env)@.admin_failure(admin_signers@, failure), ()),
        final(env)@ == old(env)@.unless_failed(
            old(env)@.admin_failure(admin_signers@, failure),
            old(env)@.authorize_all(admin_signers@),
        ),
        res is Ok ==> old(env)@.config is Some,
{
    match failure {
        None => require_admin_approval(env, admin_signers),
        Some(failure) => match approval_failure(env, admin_signers) {
            Some(unapproved) => Err(unapproved),
            None => Err(failure),
        },
    }
}

fn trap_if_not(condition: bool, trap: Trap) -> (failure: Option<Failure>)
    ensures
        failure == trap_unless(condition, trap),
{
    if condition {
        None
    } else {
        Some(Failure::Trap(trap))
    }
}

/// Whether two lists hold the same addresses in the same order.
fn same_list(a: &Vec<Address>, b: &Vec<Address>) -> (same: bool)
    ensures
        same == (a@ == b@),
{
    if a.len() != b.len() {
        return false;
    }
    let mut i: usize = 0;
    while i < a.len()
        invariant
            i <= a@.len() == b@.len(),
            forall|j: int| 0 <= j < i ==> a@[j] == b@[j],
        decreases a@.len() - i,
    {
        if a[i] != b[i] {
            assert(a@[i as int] != b@[i as int]);
            return false;
        }
        i = i + 1;
    }
    assert(a@ =~= b@);
    true
}

/// Puts another configuration into effect.
fn reconfigure(env: &mut Env, admin_signers: &Vec<Address>, config: Config)
    requires
        old(env)@.config is Some,
    ensures
        final(env)@ == old(env)@.reconfigured(admin_signers@, config@),
{
    env.authorize_all(admin_signers);
    let new_admins = config.admins.clone();
    assert(new_admins@ =~= config.admins@);
    let previous = env.config.take();
    env.config = Some(config);
    if let Some(previous) = previous {
        if !same_list(&previous.admins, &new_admins) {
            env.publish(Event::AdminsChanged { old_admins: previous.admins, new_admins });
        }
    }
    assert(env@ =~= old(env)@.reconfigured(admin_signers@, config@));
}

fn check_config(env: &Env, config: &Config) -> (failure: Option<Failure>)
    ensures
        failure == config_failure(config@),
{
    if config.yield_bps < 0 {
        return Some(Failure::Trap(Trap::NegativeYield));
    }
    if config.slash_bps <= 0 || config.slash_bps > 10_000 {
        return Some(Failure::Trap(Trap::SlashBpsOutOfRange));
    }
    if config.max_vouchers == 0 {
        return Some(Failure::Trap(Trap::ZeroMaxVouchers));
    }
    if config.min_loan_amount <= 0 {
        return Some(Failure::Trap(Trap::MinLoanNotPositive));
    }
    if config.loan_duration == 0 {
        return Some(Failure::Trap(Trap::ZeroLoanDuration));
    }
    if config.max_loan_to_stake_ratio == 0 {
        return Some(Failure::Trap(Trap::ZeroLoanToStakeRatio));
    }
    match validate_admin_config(env, &config.admins, config.admin_threshold) {
        Ok(()) => None,
        Err(failure) => Some(failure),
    }
}

/// Puts other admins, or another threshold, into effect if they are valid.
fn change_admins(
    env: &mut Env,
    admin_signers: &Vec<Address>,
    config: Config,
    admins: Vec<Address>,
    admin_threshold: u32,
) -> (res: Result<(), Failure>)
    requires
        old(env)@.config == Some(config@),
    ensures
        res == State::verdict(helpers::admin_config_failure(admins@, admin_threshold), ()),
        final(env)@ == old(env)@.unless_failed(
            helpers::admin_config_failure(admins@, admin_threshold),
            old(env)@.with_admins(admin_signers@, admins@, admin_threshold),
        ),
{
    match validate_admin_config(env, &admins, admin_threshold) {
        Err(failure) => Err(failure),
        Ok(()) => {
            let changed = Config { admins, admin_threshold, ..config };
            assert(changed@ =~= ConfigView { admins: admins@, admin_threshold, ..config@ });
            reconfigure(env, admin_signers, changed);
            Ok(())
        },
    }
}

/// The configuration and the admins in it, for an approved call.
fn approved_config(env: &Env, admin_signers: &Vec<Address>) -> (res: Result<Config, Failure>)
    ensures
        match res {
            Ok(config) => env@.approval_failure(admin_signers@) is None && env@.config == Some(
                config@,
            ),
            Err(failure) => env@.approval_failure(admin_signers@) == Some(failure),
        },
{
    if let Some(failure) = approval_failure(env, admin_signers) {
        return Err(failure);
    }
    helpers::config(env)
}

/// Where an address stands in a list.
fn index_of(list: &Vec<Address>, addr: &Address) -> (found: Option<usize>)
    ensures
        match found {
            Some(i) => i < list@.len() && list@.contains(*addr) && list@.index_of_first(*addr)
                == Some(i as int),
            None => !list@.contains(*addr) && list@.index_of_first(*addr) is None,
        },
{
    proof {
        list@.index_of_first_ensures(*addr);
    }
    let mut i: usize = 0;
    while i < list.len()
        invariant
            i <= list@.len(),
            forall|j: int| 0 <= j < i ==> list@[j] != *addr,
        decreases list@.len() - i,
    {
        if list[i] == *addr {
            proof {
                list@.index_of_first_ensures(*addr);
                assert(list@[i as int] == *addr);
            }
            return Some(i);
        }
        i = i + 1;
    }
    None
}

impl QuorumCreditContract {
    /// One-time setup. `token_responds` says whether a call of `balance()` on the token came
    /// back.
    pub fn initialize(
        env: &mut Env,
        deployer: Address,
        admins: Vec<Address>,
        admin_threshold: u32,
        token: Address,
        token_responds: bool,
    ) -> (res: Result<(), Failure>)
        ensures
            res == State::verdict(
                old(env)@.initialize_failure(admins@, admin_threshold, token, token_responds),
                (),
            ),
            final(env)@ == old(env)@.unless_failed(
                old(env)@.initialize_failure(admins@, admin_threshold, token, token_responds),
                old(env)@.initialized(deployer, admins@, admin_threshold, token),
            ),
    {
        if env.config.is_some() {
            return Err(Failure::Contract(ContractError::AlreadyInitialized));
        }
        if let Err(failure) = validate_admin_config(env, &admins, admin_threshold) {
            return Err(failure);
        }
        if let Err(error) = require_valid_token(env, &token, token_responds) {
            return Err(Failure::Contract(error));
        }
        let published = admins.clone();
        assert(published@ =~= admins@);
        let config = Config {
            admins,
            admin_threshold,
            token,
            allowed_tokens: Vec::new(),
            yield_bps: DEFAULT_YIELD_BPS,
            slash_bps: DEFAULT_SLASH_BPS,
            max_vouchers: DEFAULT_MAX_VOUCHERS,
            min_loan_amount: DEFAULT_MIN_LOAN_AMOUNT,
            loan_duration: DEFAULT_LOAN_DURATION,
            max_loan_to_stake_ratio: DEFAULT_MAX_LOAN_TO_STAKE_RATIO,
            grace_period: 0,
            min_yield_stake: DEFAULT_MIN_YIELD_STAKE,
            vouch_cooldown_secs: DEFAULT_VOUCH_COOLDOWN_SECS,
        };
        assert(config@ =~= initial_config(admins@, admin_threshold, token));
        env.deployer = Some(deployer);
        env.config = Some(config);
        env.authorize(deployer);
        env.publish(
            Event::Initialized { deployer, admins: published, admin_threshold, token },
        );
        assert(env@ =~= old(env)@.initialized(deployer, admins@, admin_threshold, token));
        Ok(())
    }

    /// Admin updates configurable protocol parameters.
    pub fn set_config(env: &mut Env, admin_signers: Vec<Address>, config: Config) -> (res: Result<
        (),
        Failure,
    >)
        ensures
            res == State::verdict(
                old(env)@.admin_failure(admin_signers@, config_failure(config@)),
                (),
            ),
            final(env)@ == old(env)@.unless_failed(
                old(env)@.admin_failure(admin_signers@, config_failure(config@)),
                old(env)@.reconfigured(admin_signers@, config@),
            ),
    {
        if let Some(failure) = approval_failure(env, &admin_signers) {
            return Err(failure);
        }
        if let Some(failure) = check_config(env, &config) {
            return Err(failure);
        }
        reconfigure(env, &admin_signers, config);
        Ok(())
    }

    /// Admin updates the yield and slash rates that are given.
    pub fn update_config(
        env: &mut Env,
        admin_signers: Vec<Address>,
        yield_bps: Option<i128>,
        slash_bps: Option<i128>,
    ) -> (res: Result<(), Failure>)
        ensures
            res == State::verdict(old(env)@.set_failure(admin_signers@, (Setting::Rates { yield_bps, slash_bps })), ()),
            final(env)@ == old(env)@.unless_failed(
                old(env)@.set_failure(admin_signers@, (Setting::Rates { yield_bps, slash_bps })),
                old(env)@.set(admin_signers@, (Setting::Rates { yield_bps, slash_bps })),
            ),
    {
        let mut config = match approved_config(env, &admin_signers) {
            Ok(config) => config,
            Err(failure) => {
                return Err(failure);
            },
        };
        if let Some(rate) = yield_bps {
            if rate < 0 {
                return Err(Failure::Trap(Trap::NegativeYield));
            }
            config.yield_bps = rate;
        }
        if let Some(rate) = slash_bps {
            if rate <= 0 || rate > 10_000 {
                return Err(Failure::Trap(Trap::SlashBpsOutOfRange));
            }
            config.slash_bps = rate;
        }
        env.config = Some(config);
        env.authorize_all(&admin_signers);
        Ok(())
    }

    /// Admin adds an admin.
    pub fn add_admin(env: &mut Env, admin_signers: Vec<Address>, new_admin: Address) -> (res: Result<
        (),
        Failure,
    >)
        ensures
            ({
                let admins = old(env)@.config->0.admins.push(new_admin);
                let threshold = old(env)@.config->0.admin_threshold;
                let failure = old(env)@.admin_failure(
                    admin_signers@,
                    helpers::admin_config_failure(admins, threshold),
                );
                &&& res == State::verdict(failure, ())
                &&& final(env)@ == old(env)@.unless_failed(
                    failure,
                    old(env)@.with_admins(admin_signers@, admins, threshold),
                )
            }),
    {
        let config = match approved_config(env, &admin_signers) {
            Ok(config) => config,
            Err(failure) => {
                return Err(failure);
            },
        };
        let mut admins = config.admins.clone();
        assert(admins@ =~= config.admins@);
        admins.push(new_admin);
        let threshold: u32 = config.admin_threshold;
        change_admins(env, &admin_signers, config, admins, threshold)
    }

    /// Admin removes an admin. At least one admin, and as many as the threshold, must stay.
    pub fn remove_admin(env: &mut Env, admin_signers: Vec<Address>, admin_to_remove: Address) -> (res:
        Result<(), Failure>)
        ensures
            res == State::verdict(
                old(env)@.admin_failure(
                    admin_signers@,
                    old(env)@.removal_failure(admin_to_remove),
                ),
                (),
            ),
            final(env)@ == old(env)@.unless_failed(
                old(env)@.admin_failure(
                    admin_signers@,
                    old(env)@.removal_failure(admin_to_remove),
                ),
                old(env)@.with_admins(
                    admin_signers@,
                    old(env)@.config->0.admins.remove_value(admin_to_remove),
                    old(env)@.config->0.admin_threshold,
                ),
            ),
    {
        let config = match approved_config(env, &admin_signers) {
            Ok(config) => config,
            Err(failure) => {
                return Err(failure);
            },
        };
        match index_of(&config.admins, &admin_to_remove) {
            None => Err(Failure::Trap(Trap::AdminNotFound)),
            Some(i) => {
                let mut admins = config.admins.clone();
                assert(admins@ =~= config.admins@);
                let _ = admins.remove(i);
                let threshold: u32 = config.admin_threshold;
                change_admins(env, &admin_signers, config, admins, threshold)
            },
        }
    }

    /// Admin puts a new admin in the place of an old one.
    pub fn rotate_admin(
        env: &mut Env,
        admin_signers: Vec<Address>,
        old_admin: Address,
        new_admin: Address,
    ) -> (res: Result<(), Failure>)
        ensures
            res == State::verdict(
                old(env)@.admin_failure(
                    admin_signers@,
                    old(env)@.rotation_failure(old_admin, new_admin),
                ),
                (),
            ),
            final(env)@ == old(env)@.unless_failed(
                old(env)@.admin_failure(
                    admin_signers@,
                    old(env)@.rotation_failure(old_admin, new_admin),
                ),
                old(env)@.with_admins(
                    admin_signers@,
                    old(env)@.rotated_admins(old_admin, new_admin),
                    old(env)@.config->0.admin_threshold,
                ),
            ),
    {
        let config = match approved_config(env, &admin_signers) {
            Ok(config) => config,
            Err(failure) => {
                return Err(failure);
            },
        };
        match index_of(&config.admins, &old_admin) {
            None => Err(Failure::Trap(Trap::AdminNotFound)),
            Some(i) => {
                let mut admins = config.admins.clone();
                assert(admins@ =~= config.admins@);
                admins.set(i, new_admin);
                let threshold: u32 = config.admin_threshold;
                change_admins(env, &admin_signers, config, admins, threshold)
            },
        }
    }

    /// Admin sets how many admins must sign.
    pub fn set_admin_threshold(env: &mut Env, admin_signers: Vec<Address>, new_threshold: u32) -> (
    res: Result<(), Failure>)
        ensures
            ({
                let admins = old(env)@.config->0.admins;
                let failure = old(env)@.admin_failure(
                    admin_signers@,
                    helpers::admin_config_failure(admins, new_threshold),
                );
                &&& res == State::verdict(failure, ())
                &&& final(env)@ == old(env)@.unless_failed(
                    failure,
                    old(env)@.with_admins(admin_signers@, admins, new_threshold),
                )
            }),
    {
        let config = match approved_config(env, &admin_signers) {
            Ok(config) => config,
            Err(failure) => {
                return Err(failure);
            },
        };
        let admins = config.admins.clone();
        assert(admins@ =~= config.admins@);
        change_admins(env, &admin_signers, config, admins, new_threshold)
    }

    /// Admin withdraws accumulated slashed funds to a recipient address.
    pub fn slash_treasury(env: &mut Env, admin_signers: Vec<Address>, recipient: Address) -> (res:
        Result<(), Failure>)
        ensures
            ({
                let failure = old(env)@.admin_failure(
                    admin_signers@,
                    trap_unless(old(env)@.slash_treasury > 0, Trap::NoSlashedFunds),
                );
                &&& res == State::verdict(failure, ())
                &&& final(env)@ == old(env)@.unless_failed(
                    failure,
                    old(env)@.treasury_withdrawn(admin_signers@, recipient),
                )
            }),
    {
        let failure = trap_if_not(env.slash_treasury > 0, Trap::NoSlashedFunds);
        if let Err(failure) = approve(env, &admin_signers, failure) {
            return Err(failure);
        }
        match helpers::token(env) {
            Ok(token) => {
                let amount: i128 = env.slash_treasury;
                env.slash_treasury = 0;
                env.pay(token, recipient, amount);
                Ok(())
            },
            Err(failure) => Err(failure),
        }
    }

    /// Admin sets the minimum stake amount required per vouch (in stroops).
    pub fn set_min_stake(env: &mut Env, admin_signers: Vec<Address>, amount: i128) -> (res: Result<
        (),
        Failure,
    >)
        ensures
            res == State::verdict(old(env)@.set_failure(admin_signers@, Setting::MinStake(amount)), ()),
            final(env)@ == old(env)@.unless_failed(
                old(env)@.set_failure(admin_signers@, Setting::MinStake(amount)),
                old(env)@.set(admin_signers@, Setting::MinStake(amount)),
            ),
    {
        let failure = trap_if_not(amount >= 0, Trap::NegativeMinStake);
        if let Err(failure) = approve(env, &admin_signers, failure) {
            return Err(failure);
        }
        env.min_stake = amount;
        Ok(())
    }

    /// Admin sets the maximum individual loan amount (in stroops).
    pub fn set_max_loan_amount(env: &mut Env, admin_signers: Vec<Address>, amount: i128) -> (res:
        Result<(), Failure>)
        ensures
            res == State::verdict(old(env)@.set_failure(admin_signers@, Setting::MaxLoanAmount(amount)), ()),
            final(env)@ == old(env)@.unless_failed(
                old(env)@.set_failure(admin_signers@, Setting::MaxLoanAmount(amount)),
                old(env)@.set(admin_signers@, Setting::MaxLoanAmount(amount)),
            ),
    {
        let failure = trap_if_not(amount >= 0, Trap::NegativeMaxLoanAmount);
        if let Err(failure) = approve(env, &admin_signers, failure) {
            return Err(failure);
        }
        env.max_loan_amount = amount;
        Ok(())
    }

    /// Admin sets the minimum number of distinct vouchers required.
    pub fn set_min_vouchers(env: &mut Env, admin_signers: Vec<Address>, count: u32) -> (res: Result<
        (),
        Failure,
    >)
        ensures
            res == State::verdict(old(env)@.set_failure(admin_signers@, Setting::MinVouchers(count)), ()),
            final(env)@ == old(env)@.unless_failed(
                old(env)@.set_failure(admin_signers@, Setting::MinVouchers(count)),
                old(env)@.set(admin_signers@, Setting::MinVouchers(count)),
            ),
    {
        if let Err(failure) = approve(env, &admin_signers, None) {
            return Err(failure);
        }
        env.min_vouchers = count;
        Ok(())
    }

    /// Admin sets the maximum number of vouchers allowed per loan.
    /// Prevents unbounded voucher lists that could exhaust ledger gas in repay and slash loops.
    pub fn set_max_vouchers_per_loan(env: &mut Env, admin_signers: Vec<Address>, max: u32) -> (res:
        Result<(), Failure>)
        ensures
            res == State::verdict(old(env)@.set_failure(admin_signers@, Setting::MaxVouchersPerLoan(max)), ()),
            final(env)@ == old(env)@.unless_failed(
                old(env)@.set_failure(admin_signers@, Setting::MaxVouchersPerLoan(max)),
                old(env)@.set(admin_signers@, Setting::MaxVouchersPerLoan(max)),
            ),
    {
        let failure = trap_if_not(max > 0, Trap::ZeroMaxVouchers);
        if let Err(failure) = approve(env, &admin_signers, failure) {
            return Err(failure);
        }
        if let Some(config) = env.config.take() {
            env.config = Some(Config { max_vouchers: max, ..config });
        }
        Ok(())
    }

    /// Admin sets the largest loan, in percent of the stake behind it.
    pub fn set_max_loan_to_stake_ratio(env: &mut Env, admin_signers: Vec<Address>, ratio: u32) -> (
    res: Result<(), Failure>)
        ensures
            res == State::verdict(old(env)@.set_failure(admin_signers@, Setting::MaxLoanToStakeRatio(ratio)), ()),
            final(env)@ == old(env)@.unless_failed(
                old(env)@.set_failure(admin_signers@, Setting::MaxLoanToStakeRatio(ratio)),
                old(env)@.set(admin_signers@, Setting::MaxLoanToStakeRatio(ratio)),
            ),
    {
        let failure = trap_if_not(ratio > 0, Trap::ZeroLoanToStakeRatio);
        if let Err(failure) = approve(env, &admin_signers, failure) {
            return Err(failure);
        }
        if let Some(config) = env.config.take() {
            env.config = Some(Config { max_loan_to_stake_ratio: ratio, ..config });
        }
        Ok(())
    }

    /// Admin accepts another token for vouches and loans.
    pub fn add_allowed_token(env: &mut Env, admin_signers: Vec<Address>, token: Address) -> (res:
        Result<(), Failure>)
        ensures
            res == State::verdict(old(env)@.set_failure(admin_signers@, Setting::AllowToken(token)), ()),
            final(env)@ == old(env)@.unless_failed(
                old(env)@.set_failure(admin_signers@, Setting::AllowToken(token)),
                old(env)@.set(admin_signers@, Setting::AllowToken(token)),
            ),
    {
        if let Err(failure) = approve(env, &admin_signers, None) {
            return Err(failure);
        }
        if let Some(mut config) = env.config.take() {
            if token != config.token && !listed(&config.allowed_tokens, &token) {
                config.allowed_tokens.push(token);
            }
            env.config = Some(config);
        }
        Ok(())
    }

    /// Admin strikes a token off the accepted ones. The protocol token is always accepted.
    pub fn remove_allowed_token(env: &mut Env, admin_signers: Vec<Address>, token: Address) -> (res:
        Result<(), Failure>)
        ensures
            res == State::verdict(old(env)@.set_failure(admin_signers@, Setting::DisallowToken(token)), ()),
            final(env)@ == old(env)@.unless_failed(
                old(env)@.set_failure(admin_signers@, Setting::DisallowToken(token)),
                old(env)@.set(admin_signers@, Setting::DisallowToken(token)),
            ),
    {
        if let Err(failure) = approve(env, &admin_signers, None) {
            return Err(failure);
        }
        if let Some(mut config) = env.config.take() {
            if let Some(i) = index_of(&config.allowed_tokens, &token) {
                let _ = config.allowed_tokens.remove(i);
            }
            env.config = Some(config);
        }
        Ok(())
    }

    /// Admin sets the reputation NFT contract address.
    pub fn set_reputation_nft(env: &mut Env, admin_signers: Vec<Address>, nft_contract: Address) -> (
    res: Result<(), Failure>)
        ensures
            res == State::verdict(old(env)@.set_failure(admin_signers@, Setting::ReputationNft(nft_contract)), ()),
            final(env)@ == old(env)@.unless_failed(
                old(env)@.set_failure(admin_signers@, Setting::ReputationNft(nft_contract)),
                old(env)@.set(admin_signers@, Setting::ReputationNft(nft_contract)),
            ),
    {
        if let Err(failure) = approve(env, &admin_signers, None) {
            return Err(failure);
        }
        env.reputation_nft = Some(nft_contract);
        Ok(())
    }

    /// Admin sets the protocol fee on repaid loans (in basis points of the amount).
    pub fn set_protocol_fee(env: &mut Env, admin_signers: Vec<Address>, fee_bps: u32) -> (res: Result<
        (),
        Failure,
    >)
        ensures
            res == State::verdict(old(env)@.set_failure(admin_signers@, Setting::ProtocolFee(fee_bps)), ()),
            final(env)@ == old(env)@.unless_failed(
                old(env)@.set_failure(admin_signers@, Setting::ProtocolFee(fee_bps)),
                old(env)@.set(admin_signers@, Setting::ProtocolFee(fee_bps)),
            ),
    {
        let failure = trap_if_not(fee_bps <= 10_000, Trap::FeeTooHigh);
        if let Err(failure) = approve(env, &admin_signers, failure) {
            return Err(failure);
        }
        env.protocol_fee_bps = fee_bps;
        Ok(())
    }

    /// Admin sets the recipient of protocol fees.
    pub fn set_fee_treasury(env: &mut Env, admin_signers: Vec<Address>, treasury: Address) -> (res:
        Result<(), Failure>)
        ensures
            res == State::verdict(old(env)@.set_failure(admin_signers@, Setting::FeeTreasury(treasury)), ()),
            final(env)@ == old(env)@.unless_failed(
                old(env)@.set_failure(admin_signers@, Setting::FeeTreasury(treasury)),
                old(env)@.set(admin_signers@, Setting::FeeTreasury(treasury)),
            ),
    {
        if let Err(failure) = approve(env, &admin_signers, None) {
            return Err(failure);
        }
        env.fee_treasury = Some(treasury);
        Ok(())
    }

    /// Admin sets the referral bonus (in basis points of the loan amount).
    pub fn set_referral_bonus_bps(env: &mut Env, admin_signers: Vec<Address>, bonus_bps: u32) -> (
    res: Result<(), Failure>)
        ensures
            res == State::verdict(old(env)@.set_failure(admin_signers@, Setting::ReferralBonus(bonus_bps)), ()),
            final(env)@ == old(env)@.unless_failed(
                old(env)@.set_failure(admin_signers@, Setting::ReferralBonus(bonus_bps)),
                old(env)@.set(admin_signers@, Setting::ReferralBonus(bonus_bps)),
            ),
    {
        let failure = trap_if_not(bonus_bps <= 10_000, Trap::BonusTooHigh);
        if let Err(failure) = approve(env, &admin_signers, failure) {
            return Err(failure);
        }
        env.referral_bonus_bps = bonus_bps;
        Ok(())
    }

    /// Admin sets the part of the stake that must approve a slash (in basis points).
    pub fn set_slash_vote_quorum(env: &mut Env, admin_signers: Vec<Address>, quorum_bps: u32) -> (
    res: Result<(), Failure>)
        ensures
            res == State::verdict(old(env)@.set_failure(admin_signers@, Setting::SlashVoteQuorum(quorum_bps)), ()),
            final(env)@ == old(env)@.unless_failed(
                old(env)@.set_failure(admin_signers@, Setting::SlashVoteQuorum(quorum_bps)),
                old(env)@.set(admin_signers@, Setting::SlashVoteQuorum(quorum_bps)),
            ),
    {
        if let Some(failure) = approval_failure(env, &admin_signers) {
            return Err(failure);
        }
        if let Err(failure) = governance::set_slash_vote_quorum(env, quorum_bps) {
            return Err(failure);
        }
        env.authorize_all(&admin_signers);
        Ok(())
    }

    /// Admin puts a voucher on the whitelist.
    pub fn whitelist_voucher(env: &mut Env, admin_signers: Vec<Address>, voucher: Address) -> (res:
        Result<(), Failure>)
        ensures
            res == State::verdict(old(env)@.set_failure(admin_signers@, Setting::Whitelist(voucher)), ()),
            final(env)@ == old(env)@.unless_failed(
                old(env)@.set_failure(admin_signers@, Setting::Whitelist(voucher)),
                old(env)@.set(admin_signers@, Setting::Whitelist(voucher)),
            ),
    {
        if let Err(failure) = approve(env, &admin_signers, None) {
            return Err(failure);
        }
        env.whitelist.insert(voucher, true);
        Ok(())
    }

    /// Admin bans a borrower for good.
    pub fn blacklist(env: &mut Env, admin_signers: Vec<Address>, borrower: Address) -> (res: Result<
        (),
        Failure,
    >)
        ensures
            res == State::verdict(old(env)@.set_failure(admin_signers@, Setting::Blacklist(borrower)), ()),
            final(env)@ == old(env)@.unless_failed(
                old(env)@.set_failure(admin_signers@, Setting::Blacklist(borrower)),
                old(env)@.set(admin_signers@, Setting::Blacklist(borrower)),
            ),
    {
        if let Err(failure) = approve(env, &admin_signers, None) {
            return Err(failure);
        }
        env.blacklist.insert(borrower, true);
        Ok(())
    }

    /// Admin upgrades the contract's code.
    pub fn upgrade(env: &mut Env, admin_signers: Vec<Address>, new_wasm_hash: [u8; 32]) -> (res:
        Result<(), Failure>)
        ensures
            res == State::verdict(old(env)@.approval_failure(admin_signers@), ()),
            final(env)@ == old(env)@.unless_failed(
                old(env)@.approval_failure(admin_signers@),
                old(env)@.upgraded(admin_signers@, new_wasm_hash),
            ),
    {
        if let Err(failure) = approve(env, &admin_signers, None) {
            return Err(failure);
        }
        env.emit(Effect::UpdateWasm { wasm_hash: new_wasm_hash });
        env.publish(Event::Upgraded { wasm_hash: new_wasm_hash });
        Ok(())
    }

    /// Pause the contract.
    pub fn pause(env: &mut Env, admin_signers: Vec<Address>) -> (res: Result<(), Failure>)
        ensures
            res == State::verdict(old(env)@.set_failure(admin_signers@, Setting::Paused(true)), ()),
            final(env)@ == old(env)@.unless_failed(
                old(env)@.set_failure(admin_signers@, Setting::Paused(true)),
                old(env)@.set(admin_signers@, Setting::Paused(true)),
            ),
    {
        if let Err(failure) = approve(env, &admin_signers, None) {
            return Err(failure);
        }
        env.paused = true;
        Ok(())
    }

    /// Unpause the contract.
    pub fn unpause(env: &mut Env, admin_signers: Vec<Address>) -> (res: Result<(), Failure>)
        ensures
            res == State::verdict(old(env)@.set_failure(admin_signers@, Setting::Paused(false)), ()),
            final(env)@ == old(env)@.unless_failed(
                old(env)@.set_failure(admin_signers@, Setting::Paused(false)),
                old(env)@.set(admin_signers@, Setting::Paused(false)),
            ),
    {
        if let Err(failure) = approve(env, &admin_signers, None) {
            return Err(failure);
        }
        env.paused = false;
        Ok(())
    }
}

} // verus!
