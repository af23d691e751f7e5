//! What the admins' calls do, told from the ledger before a call and the ledger after it; and what
//! the views and the reputation contract give back.

use crate::address::Address;
use crate::admin::{self, Setting};
use crate::env::{Effect, Event, State};
use crate::errors::{ContractError, Failure, Trap};
use crate::helpers;
use crate::laws_terms;
use crate::math;
use crate::reputation::ReputationState;
use crate::types::{ConfigView, LoanView, VouchRecord};
use crate::vouch;
use vstd::prelude::*;

verus! {

/// The first entry that is the address stands at `k`.
pub open spec fn is_first_at(list: Seq<Address>, address: Address, k: int) -> bool {
    &&& 0 <= k < list.len()
    &&& list[k] == address
    &&& forall|j: int| 0 <= j < k ==> #[trigger] list[j] != address
}

/// The list without its entry at `k`.
pub open spec fn without(list: Seq<Address>, k: int) -> Seq<Address> {
    list.take(k) + list.skip(k + 1)
}

proof fn lemma_first_at(list: Seq<Address>, address: Address, k: int)
    requires
        is_first_at(list, address, k),
    ensures
        list.contains(address),
        list.index_of_first(address) == Some(k),
        list.remove_value(address) == without(list, k),
{
    list.index_of_first_ensures(address);
    let i = list.index_of_first(address)->0;
    assert(list[k] == address);
    assert(i == k);
    assert(list.remove(k) =~= without(list, k));
    assert(list.index_of(address) == list.index_of(address));
    assert(list.remove_value(address) =~= without(list, k));
}

/// An admin call is refused for want of set-up, of signatures or of admins among the signers, in
/// this order, before anything else is looked at.
pub proof fn approval_comes_first(state: State, signers: Seq<Address>, other: Option<Failure>)
    ensures
        ({
            let failure = state.admin_failure(signers, other);
            let set_up = state.config is Some;
            let enough = set_up && signers.len() >= state.config->0.admin_threshold;
            let approved = enough && (forall|i: int|
                0 <= i < signers.len() ==> state.config->0.admins.contains(#[trigger] signers[i]));
            &&& !set_up ==> failure == laws_terms::trap(Trap::NotInitialized)
            &&& set_up && !enough ==> failure == laws_terms::trap(Trap::InsufficientApprovals)
            &&& enough && !approved ==> failure == laws_terms::trap(Trap::NotAnAdmin)
            &&& approved ==> failure == other
        }),
{
    laws_terms::signers_are_refused_unless_they_approve(state, signers);
}

/// A parameter is set exactly when the admins approve and its value is in range.
pub proof fn setting_is_accepted_exactly_when(
    state: State,
    signers: Seq<Address>,
    setting: Setting,
)
    ensures
        ({
            let failure = state.set_failure(signers, setting);
            let (in_range, reason) = match setting {
                Setting::MinStake(amount) => (amount >= 0, Trap::NegativeMinStake),
                Setting::MaxLoanAmount(amount) => (amount >= 0, Trap::NegativeMaxLoanAmount),
                Setting::MaxVouchersPerLoan(max) => (max >= 1, Trap::ZeroMaxVouchers),
                Setting::MaxLoanToStakeRatio(ratio) => (ratio >= 1, Trap::ZeroLoanToStakeRatio),
                Setting::Rates { yield_bps: Some(rate), slash_bps } => if rate < 0 {
                    (false, Trap::NegativeYield)
                } else {
                    (
                        slash_bps is None || 1 <= slash_bps->0 <= 10_000,
                        Trap::SlashBpsOutOfRange,
                    )
                },
                Setting::Rates { yield_bps: None, slash_bps } => (
                    slash_bps is None || 1 <= slash_bps->0 <= 10_000,
                    Trap::SlashBpsOutOfRange,
                ),
                Setting::ProtocolFee(fee_bps) => (fee_bps <= 10_000, Trap::FeeTooHigh),
                Setting::ReferralBonus(bonus_bps) => (bonus_bps <= 10_000, Trap::BonusTooHigh),
                Setting::SlashVoteQuorum(quorum_bps) => (
                    1 <= quorum_bps <= 10_000,
                    Trap::QuorumOutOfRange,
                ),
                _ => (true, Trap::NotInitialized),
            };
            &&& failure is None <==> laws_terms::approved(state, signers) && in_range
            &&& laws_terms::approved(state, signers) && !in_range ==> failure == laws_terms::trap(
                reason,
            )
            &&& !laws_terms::approved(state, signers) ==> failure == state.approval_failure(signers)
        }),
{
    laws_terms::signers_are_refused_unless_they_approve(state, signers);
}

/// Setting one of the contract's own parameters gives it that value and changes no other; the
/// signers sign.
pub proof fn setting_sets_one_parameter(state: State, signers: Seq<Address>, setting: Setting)
    ensures
        ({
            let signed = State {
                effects: state.effects + laws_terms::signatures(signers),
                ..state
            };
            let next = state.set(signers, setting);
            match setting {
                Setting::MinStake(amount) => next == State { min_stake: amount, ..signed },
                Setting::MaxLoanAmount(amount) => next == State {
                    max_loan_amount: amount,
                    ..signed
                },
                Setting::MinVouchers(count) => next == State { min_vouchers: count, ..signed },
                Setting::ReputationNft(nft) => next == State {
                    reputation_nft: Some(nft),
                    ..signed
                },
                Setting::ProtocolFee(fee_bps) => next == State {
                    protocol_fee_bps: fee_bps,
                    ..signed
                },
                Setting::FeeTreasury(treasury) => next == State {
                    fee_treasury: Some(treasury),
                    ..signed
                },
                Setting::ReferralBonus(bonus_bps) => next == State {
                    referral_bonus_bps: bonus_bps,
                    ..signed
                },
                Setting::SlashVoteQuorum(quorum_bps) => next == State {
                    slash_vote_quorum: quorum_bps,
                    ..signed
                },
                Setting::Whitelist(voucher) => next == State {
                    whitelist: state.whitelist.insert(voucher, true),
                    ..signed
                },
                Setting::Blacklist(borrower) => next == State {
                    blacklist: state.blacklist.insert(borrower, true),
                    ..signed
                },
                Setting::Paused(paused) => next == State { paused, ..signed },
                _ => next == State { config: next.config, ..signed },
            }
        }),
{
    let next = state.set(signers, setting);
    assert(next.effects =~= state.effects + laws_terms::signatures(signers));
}

/// Setting a parameter of the configuration gives it that value and leaves the rest of the
/// configuration as it is. A rate that is not given stays.
pub proof fn setting_sets_one_entry_of_the_configuration(
    state: State,
    signers: Seq<Address>,
    setting: Setting,
)
    requires
        state.config is Some,
    ensures
        ({
            let next = state.set(signers, setting);
            let before = state.config->0;
            let after = next.config->0;
            &&& next.config is Some
            &&& match setting {
                Setting::MaxVouchersPerLoan(max) => after == ConfigView {
                    max_vouchers: max,
                    ..before
                },
                Setting::MaxLoanToStakeRatio(ratio) => after == ConfigView {
                    max_loan_to_stake_ratio: ratio,
                    ..before
                },
                Setting::Rates { yield_bps, slash_bps } => {
                    &&& after == ConfigView {
                        yield_bps: after.yield_bps,
                        slash_bps: after.slash_bps,
                        ..before
                    }
                    &&& yield_bps is Some ==> after.yield_bps == yield_bps->0
                    &&& yield_bps is None ==> after.yield_bps == before.yield_bps
                    &&& slash_bps is Some ==> after.slash_bps == slash_bps->0
                    &&& slash_bps is None ==> after.slash_bps == before.slash_bps
                },
                Setting::AllowToken(token) => {
                    &&& after == ConfigView { allowed_tokens: after.allowed_tokens, ..before }
                    &&& laws_terms::accepts(next, token)
                    &&& laws_terms::accepts(state, token) ==> after.allowed_tokens
                        == before.allowed_tokens
                    &&& !laws_terms::accepts(state, token) ==> after.allowed_tokens
                        == before.allowed_tokens + seq![token]
                },
                Setting::DisallowToken(token) => {
                    &&& after == ConfigView { allowed_tokens: after.allowed_tokens, ..before }
                    &&& !before.allowed_tokens.contains(token) ==> after.allowed_tokens
                        == before.allowed_tokens
                    &&& forall|k: int| #[trigger]
                        is_first_at(before.allowed_tokens, token, k) ==> after.allowed_tokens
                            == without(before.allowed_tokens, k)
                },
                _ => next.config == state.config,
            }
        }),
{
    let next = state.set(signers, setting);
    let before = state.config->0;
    let after = next.config->0;
    match setting {
        Setting::AllowToken(token) => {
            laws_terms::tokens_are_refused_unless_accepted(state, token);
            laws_terms::tokens_are_refused_unless_accepted(next, token);
            assert(laws_terms::accepts(state, token) <==> token == before.token
                || before.allowed_tokens.contains(token));
            if !laws_terms::accepts(state, token) {
                assert(after.allowed_tokens =~= before.allowed_tokens + seq![token]);
                assert(next.config->0.allowed_tokens[before.allowed_tokens.len() as int] == token);
            } else if before.allowed_tokens.contains(token) {
                let i = choose|i: int|
                    0 <= i < before.allowed_tokens.len() && before.allowed_tokens[i] == token;
                assert(next.config->0.allowed_tokens[i] == token);
            }
            assert(laws_terms::accepts(next, token));
        },
        Setting::DisallowToken(token) => {
            before.allowed_tokens.index_of_first_ensures(token);
            assert forall|k: int| #[trigger]
                is_first_at(before.allowed_tokens, token, k) implies after.allowed_tokens
                == without(before.allowed_tokens, k) by {
                lemma_first_at(before.allowed_tokens, token, k);
            }
        },
        _ => {},
    }
}

/// A configuration is refused for the first value that is out of range, and then for its admins.
pub proof fn configuration_is_accepted_exactly_when(config: ConfigView)
    ensures
        ({
            let failure = admin::config_failure(config);
            let yielding = config.yield_bps >= 0;
            let slashing = yielding && 1 <= config.slash_bps <= 10_000;
            let vouched = slashing && config.max_vouchers >= 1;
            let lending = vouched && config.min_loan_amount >= 1;
            let lasting = lending && config.loan_duration >= 1;
            let backed = lasting && config.max_loan_to_stake_ratio >= 1;
            &&& !yielding ==> failure == laws_terms::trap(Trap::NegativeYield)
            &&& yielding && !slashing ==> failure == laws_terms::trap(Trap::SlashBpsOutOfRange)
            &&& slashing && !vouched ==> failure == laws_terms::trap(Trap::ZeroMaxVouchers)
            &&& vouched && !lending ==> failure == laws_terms::trap(Trap::MinLoanNotPositive)
            &&& lending && !lasting ==> failure == laws_terms::trap(Trap::ZeroLoanDuration)
            &&& lasting && !backed ==> failure == laws_terms::trap(Trap::ZeroLoanToStakeRatio)
            &&& backed ==> failure == helpers::admin_config_failure(
                config.admins,
                config.admin_threshold,
            )
        }),
{
}

/// A new configuration takes the place of the old one whole, and nothing else changes. The signers
/// sign, and a change of admins is announced with the old and the new ones.
pub proof fn configuration_is_replaced(
    state: State,
    signers: Seq<Address>,
    config: ConfigView,
    admins: Seq<Address>,
    threshold: u32,
)
    requires
        state.config is Some,
    ensures
        ({
            let old_admins = state.config->0.admins;
            let signed = state.effects + laws_terms::signatures(signers);
            let next = state.reconfigured(signers, config);
            let led = state.with_admins(signers, admins, threshold);
            &&& next == State { config: Some(config), effects: next.effects, ..state }
            &&& next.effects == signed + (if config.admins == old_admins {
                seq![]
            } else {
                seq![
                    laws_terms::announcement(
                        Event::AdminsChanged { old_admins, new_admins: config.admins },
                    ),
                ]
            })
            &&& led == State {
                config: Some(
                    ConfigView { admins, admin_threshold: threshold, ..state.config->0 },
                ),
                effects: led.effects,
                ..state
            }
            &&& led.effects == signed + (if admins == old_admins {
                seq![]
            } else {
                seq![
                    laws_terms::announcement(
                        Event::AdminsChanged { old_admins, new_admins: admins },
                    ),
                ]
            })
        }),
{
    let old_admins = state.config->0.admins;
    let signed = state.effects + laws_terms::signatures(signers);
    assert(state.authorize_all(signers).effects =~= signed);
    let next = state.reconfigured(signers, config);
    let led = state.with_admins(signers, admins, threshold);
    if config.admins == old_admins {
        assert(next.effects =~= signed + seq![]);
    } else {
        assert(next.effects =~= signed + seq![
            laws_terms::announcement(
                Event::AdminsChanged { old_admins, new_admins: config.admins },
            ),
        ]);
    }
    if admins == old_admins {
        assert(led.effects =~= signed + seq![]);
    } else {
        assert(led.effects =~= signed + seq![
            laws_terms::announcement(Event::AdminsChanged { old_admins, new_admins: admins }),
        ]);
    }
}

/// To remove or to replace somebody who is no admin is refused. Otherwise the admins that are left,
/// or those with the new one in the old one's place, must be valid.
pub proof fn admins_are_removed_and_replaced_in_place(
    state: State,
    old_admin: Address,
    new_admin: Address,
    k: int,
)
    requires
        state.config is Some,
    ensures
        ({
            let admins = state.config->0.admins;
            let threshold = state.config->0.admin_threshold;
            let removal = state.removal_failure(old_admin);
            let rotation = state.rotation_failure(old_admin, new_admin);
            let rotated = state.rotated_admins(old_admin, new_admin);
            &&& !admins.contains(old_admin) ==> removal == laws_terms::trap(Trap::AdminNotFound)
                && rotation == laws_terms::trap(Trap::AdminNotFound)
            &&& is_first_at(admins, old_admin, k) ==> {
                &&& admins.remove_value(old_admin) == without(admins, k)
                &&& removal == helpers::admin_config_failure(without(admins, k), threshold)
                &&& rotation == helpers::admin_config_failure(rotated, threshold)
                &&& rotated.len() == admins.len()
                &&& rotated[k] == new_admin
                &&& forall|j: int|
                    0 <= j < admins.len() && j != k ==> #[trigger] rotated[j] == admins[j]
            }
        }),
{
    if is_first_at(state.config->0.admins, old_admin, k) {
        lemma_first_at(state.config->0.admins, old_admin, k);
    }
}

/// The contract is set up exactly once, with valid admins and a token that is not the zero address
/// and responds.
pub proof fn initialisation_is_accepted_exactly_when(
    state: State,
    admins: Seq<Address>,
    threshold: u32,
    token: Address,
    token_responds: bool,
)
    ensures
        ({
            let failure = state.initialize_failure(admins, threshold, token, token_responds);
            let valid = helpers::admin_config_failure(admins, threshold);
            let new = state.config is None;
            let led = new && valid is None;
            let named = led && !token.is_zero();
            let responding = named && token_responds;
            &&& responding <==> failure is None
            &&& !new ==> failure == laws_terms::refusal(ContractError::AlreadyInitialized)
            &&& new && !led ==> failure == valid
            &&& led && !named ==> failure == laws_terms::refusal(ContractError::ZeroAddress)
            &&& named && !responding ==> failure == laws_terms::refusal(
                ContractError::InvalidToken,
            )
        }),
{
}

/// A contract that is set up has the admins, the threshold and the token that were given, no other
/// token, and the rates and limits of a new contract: 2 % yield, half the stake slashed, 100
/// vouchers, loans from 1 up, 30 days to repay, 150 % of the stake, no grace period, no minimum
/// stake for yield, a day between vouches. The deployer signs.
pub proof fn initialisation_sets_the_defaults(
    state: State,
    deployer: Address,
    admins: Seq<Address>,
    threshold: u32,
    token: Address,
)
    ensures
        ({
            let next = state.initialized(deployer, admins, threshold, token);
            let config = next.config->0;
            &&& next == State {
                deployer: Some(deployer),
                config: Some(config),
                effects: state.effects + seq![
                    laws_terms::signature(deployer),
                    laws_terms::announcement(
                        Event::Initialized {
                            deployer,
                            admins,
                            admin_threshold: threshold,
                            token,
                        },
                    ),
                ],
                ..state
            }
            &&& config.admins == admins
            &&& config.admin_threshold == threshold
            &&& config.token == token
            &&& config.allowed_tokens.len() == 0
            &&& config.yield_bps == 200
            &&& config.slash_bps == 5_000
            &&& config.max_vouchers == 100
            &&& config.min_loan_amount == 1
            &&& config.loan_duration == 2_592_000
            &&& config.max_loan_to_stake_ratio == 150
            &&& config.grace_period == 0
            &&& config.min_yield_stake == 0
            &&& config.vouch_cooldown_secs == 86_400
        }),
{
    let next = state.initialized(deployer, admins, threshold, token);
    assert(next.effects =~= state.effects + seq![
        laws_terms::signature(deployer),
        laws_terms::announcement(
            Event::Initialized { deployer, admins, admin_threshold: threshold, token },
        ),
    ]);
}

/// Withdrawing the treasury pays all of it to the recipient, in the protocol's token, and leaves it
/// empty; upgrading names the code and changes nothing on the ledger. The signers sign. An empty
/// treasury is not withdrawn.
pub proof fn treasury_and_code_leave_the_rest(
    state: State,
    signers: Seq<Address>,
    recipient: Address,
    wasm_hash: [u8; 32],
    filled: bool,
    reason: Trap,
)
    ensures
        state.treasury_withdrawn(signers, recipient) == (State {
            slash_treasury: 0,
            effects: state.effects + laws_terms::signatures(signers) + seq![
                laws_terms::transfer(
                    state.config->0.token,
                    state.contract,
                    recipient,
                    state.slash_treasury,
                ),
            ],
            ..state
        }),
        state.upgraded(signers, wasm_hash) == (State {
            effects: state.effects + laws_terms::signatures(signers) + seq![
                Effect::UpdateWasm { wasm_hash },
                laws_terms::announcement(Event::Upgraded { wasm_hash }),
            ],
            ..state
        }),
        admin::trap_unless(filled, reason) == (if filled {
            None
        } else {
            laws_terms::trap(reason)
        }),
{
    assert(state.treasury_withdrawn(signers, recipient).effects =~= state.effects
        + laws_terms::signatures(signers) + seq![
        laws_terms::transfer(
            state.config->0.token,
            state.contract,
            recipient,
            state.slash_treasury,
        ),
    ]);
    assert(state.upgraded(signers, wasm_hash).effects =~= state.effects + laws_terms::signatures(
        signers,
    ) + seq![
        Effect::UpdateWasm { wasm_hash },
        laws_terms::announcement(Event::Upgraded { wasm_hash }),
    ]);
}

// Views.

/// A borrower is eligible exactly when the threshold is positive, nothing is owed, and the stake in
/// the token reaches the threshold. The question fails only where the stakes cannot be added.
pub proof fn eligibility_is_decided_by_the_stake(
    state: State,
    borrower: Address,
    threshold: i128,
    token: Address,
)
    ensures
        ({
            let list = laws_terms::backing(state, borrower);
            let stakes = list.map_values(
                |vouch: VouchRecord|
                    if vouch.token == token {
                        vouch.stake as int
                    } else {
                        0
                    },
            );
            let failure = state.eligibility_failure(borrower, threshold, token);
            let asked = threshold > 0 && !laws_terms::owes(state, borrower);
            &&& state.is_eligible(borrower, threshold, token) <==> asked && math::sum(stakes)
                >= threshold
            &&& asked && !math::adds_up(stakes) ==> failure == laws_terms::trap(Trap::Overflow)
            &&& !asked || math::adds_up(stakes) ==> failure is None
        }),
{
    let list = laws_terms::backing(state, borrower);
    laws_terms::look_ups_read_the_ledger(state, borrower, state.loan_counts);
    assert(vouch::stakes_in(list, token) =~= list.map_values(
        |vouch: VouchRecord|
            if vouch.token == token {
                vouch.stake as int
            } else {
                0
            },
    ));
}

/// The list of loans is shown to admins alone, on pages that are not empty by size and can be
/// numbered. The entry `i` of a page is the one of the whole list that stands `i` places after the
/// page's start; a page holds as many as are left, up to its size.
pub proof fn pages_cut_the_list(
    state: State,
    caller: Address,
    page: u32,
    page_size: u32,
    i: int,
)
    ensures
        ({
            let failure = state.listing_failure(caller, page, page_size);
            let shown = state.page(page, page_size);
            let start = page * page_size;
            let left = state.borrower_list.len() - start;
            let set_up = state.config is Some;
            let entitled = set_up && state.config->0.admins.contains(caller);
            let sized = entitled && page_size > 0;
            &&& !set_up ==> failure == laws_terms::trap(Trap::NotInitialized)
            &&& set_up && !entitled ==> failure == laws_terms::trap(Trap::Unauthorized)
            &&& entitled && !sized ==> failure == laws_terms::trap(Trap::ZeroPageSize)
            &&& sized && start > u32::MAX ==> failure == laws_terms::trap(Trap::Overflow)
            &&& sized && start <= u32::MAX ==> failure is None
            &&& left <= 0 ==> shown.len() == 0
            &&& 0 < left <= page_size ==> shown.len() == left
            &&& left > page_size ==> shown.len() == page_size
            &&& 0 <= i < shown.len() ==> shown[i] == state.borrower_list[start + i]
        }),
{
    let start = page * page_size;
    assert(start >= 0) by (nonlinear_arith)
        requires
            start == page * page_size,
            page >= 0,
            page_size >= 0,
    ;
}

/// The loans of a list of borrowers are, in order, the latest loan of each who has borrowed.
pub proof fn loans_follow_the_borrowers(state: State, borrowers: Seq<Address>, next: Address)
    ensures
        state.loans_of(seq![]) == Seq::<LoanView>::empty(),
        state.loans_of(borrowers.push(next)) == state.loans_of(borrowers) + (
        if laws_terms::has_borrowed(state, next) {
            seq![state.loans[state.latest_loans[next]]]
        } else {
            seq![]
        }),
{
    let more = borrowers.push(next);
    assert(more.drop_last() =~= borrowers);
    reveal(Seq::filter);
    assert(state.loans_of(seq![]) =~= Seq::<LoanView>::empty());
    laws_terms::look_ups_read_the_ledger(state, next, state.loan_counts);
    assert(state.loans_of(more) =~= state.loans_of(borrowers) + (if laws_terms::has_borrowed(
        state,
        next,
    ) {
        seq![state.loans[state.latest_loans[next]]]
    } else {
        seq![]
    }));
}

// Reputation.

/// A score is what is stored, 0 if there is no entry. Minting adds one point, burning takes one off
/// down to 0, each for the address that is named and nobody else; both need a minter.
pub proof fn points_come_and_go_one_by_one(
    state: ReputationState,
    address: Address,
    next: ReputationState,
    failure: Failure,
)
    ensures
        state.score(address) == laws_terms::tally(state.scores, address),
        state.minter is None ==> state.mint_failure(address) == laws_terms::trap(
            Trap::NotInitialized,
        ) && state.burn_failure() == laws_terms::trap(Trap::NotInitialized),
        state.minter is Some && laws_terms::tally(state.scores, address) == u32::MAX
            ==> state.mint_failure(address) == laws_terms::trap(Trap::Overflow),
        state.minter is Some && laws_terms::tally(state.scores, address) < u32::MAX
            ==> state.mint_failure(address) is None,
        state.minter is Some ==> state.burn_failure() is None,
        state.mint_failure(address) is None ==> laws_terms::tally(
            state.minted(address).scores,
            address,
        ) == laws_terms::tally(state.scores, address) + 1,
        state.minted(address).scores.remove(address) == state.scores.remove(address),
        state.minted(address).minter == state.minter,
        laws_terms::tally(state.scores, address) > 0 ==> laws_terms::tally(
            state.burnt(address).scores,
            address,
        ) == laws_terms::tally(state.scores, address) - 1,
        laws_terms::tally(state.scores, address) == 0 ==> laws_terms::tally(
            state.burnt(address).scores,
            address,
        ) == 0,
        state.burnt(address).scores.remove(address) == state.scores.remove(address),
        state.burnt(address).minter == state.minter,
        state.unless_failed(Some(failure), next) == state,
        state.unless_failed(None, next) == next,
{
    assert(state.minted(address).scores.remove(address) =~= state.scores.remove(address));
    assert(state.burnt(address).scores.remove(address) =~= state.scores.remove(address));
}

} // verus!
