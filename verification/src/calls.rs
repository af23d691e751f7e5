//! Every call that changes the ledger, and what holds along any sequence of calls.

use crate::address::Address;
use crate::admin::{self, Setting};
use crate::env::State;
use crate::errors::{Failure, Trap};
use crate::helpers;
use crate::types::ConfigView;
use crate::wellformed;
use vstd::prelude::*;

verus! {

/// A call with its arguments. `NextLedger` is the host's: time passes, and the effects of the
/// last call have been performed.
pub enum Call {
    NextLedger { now: u64 },
    Initialize {
        deployer: Address,
        admins: Seq<Address>,
        admin_threshold: u32,
        token: Address,
        token_responds: bool,
    },
    Vouch { voucher: Address, borrower: Address, stake: i128, token: Address },
    BatchVouch {
        voucher: Address,
        borrowers: Seq<Address>,
        stakes: Seq<i128>,
        token: Address,
    },
    IncreaseStake { voucher: Address, borrower: Address, additional: i128 },
    DecreaseStake { voucher: Address, borrower: Address, amount: i128 },
    WithdrawVouch { voucher: Address, borrower: Address },
    TransferVouch { from: Address, to: Address, borrower: Address },
    RegisterReferral { borrower: Address, referrer: Address },
    RequestLoan {
        borrower: Address,
        co_borrowers: Seq<Address>,
        amount: i128,
        threshold: i128,
        loan_purpose: Seq<u8>,
        token: Address,
        contract_balance: i128,
    },
    Repay { borrower: Address, payment: i128, contract_balance: i128 },
    Slash { signers: Seq<Address>, borrower: Address },
    AutoSlash { borrower: Address },
    ClaimExpiredLoan { borrower: Address },
    CreateLoanPool {
        signers: Seq<Address>,
        borrowers: Seq<Address>,
        amounts: Seq<i128>,
        contract_balance: i128,
    },
    VoteSlash { voucher: Address, borrower: Address, approve: bool },
    ProposeSlash { proposer: Address, borrower: Address, delay_secs: u64 },
    ExecuteSlashProposal { proposal_id: u64 },
    CancelSlashProposal { caller: Address, proposal_id: u64 },
    SlashTreasury { signers: Seq<Address>, recipient: Address },
    SetConfig { signers: Seq<Address>, config: ConfigView },
    AddAdmin { signers: Seq<Address>, new_admin: Address },
    RemoveAdmin { signers: Seq<Address>, admin: Address },
    RotateAdmin { signers: Seq<Address>, old_admin: Address, new_admin: Address },
    SetAdminThreshold { signers: Seq<Address>, new_threshold: u32 },
    Adjust { signers: Seq<Address>, setting: Setting },
    Upgrade { signers: Seq<Address>, wasm_hash: [u8; 32] },
}

impl State {
    /// Why a call fails.
    pub open spec fn failure(self, call: Call) -> Option<Failure> {
        match call {
            Call::NextLedger { now } => None,
            Call::Initialize { deployer, admins, admin_threshold, token, token_responds } =>
                self.initialize_failure(admins, admin_threshold, token, token_responds),
            Call::Vouch { voucher, borrower, stake, token } => self.vouch_failure(
                voucher,
                borrower,
                stake,
                token,
            ),
            Call::BatchVouch { voucher, borrowers, stakes, token } => self.batch_vouch_failure(
                voucher,
                borrowers,
                stakes,
                token,
            ),
            Call::IncreaseStake { voucher, borrower, additional } => self.increase_failure(
                voucher,
                borrower,
                additional,
            ),
            Call::DecreaseStake { voucher, borrower, amount } => self.decrease_failure(
                voucher,
                borrower,
                amount,
            ),
            Call::WithdrawVouch { voucher, borrower } => self.withdraw_failure(voucher, borrower),
            Call::TransferVouch { from, to, borrower } => self.transfer_failure(
                from,
                to,
                borrower,
            ),
            Call::RegisterReferral { borrower, referrer } => self.pause_failure(),
            Call::RequestLoan {
                borrower,
                co_borrowers,
                amount,
                threshold,
                loan_purpose,
                token,
                contract_balance,
            } => self.request_failure(borrower, amount, threshold, token, contract_balance),
            Call::Repay { borrower, payment, contract_balance } => self.repay_failure(
                borrower,
                payment,
                contract_balance,
            ),
            Call::Slash { signers, borrower } => self.slash_failure(signers, borrower),
            Call::AutoSlash { borrower } => self.auto_slash_failure(borrower),
            Call::ClaimExpiredLoan { borrower } => self.claim_failure(borrower),
            Call::CreateLoanPool { signers, borrowers, amounts, contract_balance } =>
                self.pool_failure(signers, borrowers, amounts, contract_balance),
            Call::VoteSlash { voucher, borrower, approve } => self.vote_failure(
                voucher,
                borrower,
                approve,
            ),
            Call::ProposeSlash { proposer, borrower, delay_secs } => self.propose_failure(
                proposer,
                delay_secs,
            ),
            Call::ExecuteSlashProposal { proposal_id } => self.execution_failure(proposal_id),
            Call::CancelSlashProposal { caller, proposal_id } => self.cancel_failure(
                caller,
                proposal_id,
            ),
            Call::SlashTreasury { signers, recipient } => self.admin_failure(
                signers,
                admin::trap_unless(self.slash_treasury > 0, Trap::NoSlashedFunds),
            ),
            Call::SetConfig { signers, config } => self.admin_failure(
                signers,
                admin::config_failure(config),
            ),
            Call::AddAdmin { signers, new_admin } => self.admin_failure(
                signers,
                helpers::admin_config_failure(
                    self.config->0.admins.push(new_admin),
                    self.config->0.admin_threshold,
                ),
            ),
            Call::RemoveAdmin { signers, admin } => self.admin_failure(
                signers,
                self.removal_failure(admin),
            ),
            Call::RotateAdmin { signers, old_admin, new_admin } => self.admin_failure(
                signers,
                self.rotation_failure(old_admin, new_admin),
            ),
            Call::SetAdminThreshold { signers, new_threshold } => self.admin_failure(
                signers,
                helpers::admin_config_failure(self.config->0.admins, new_threshold),
            ),
            Call::Adjust { signers, setting } => self.set_failure(signers, setting),
            Call::Upgrade { signers, wasm_hash } => self.approval_failure(signers),
        }
    }

    /// The state after a call that does not fail.
    pub open spec fn after(self, call: Call) -> State {
        match call {
            Call::NextLedger { now } => State {
                now: if now > self.now {
                    now
                } else {
                    self.now
                },
                effects: Seq::empty(),
                ..self
            },
            Call::Initialize { deployer, admins, admin_threshold, token, token_responds } =>
                self.initialized(deployer, admins, admin_threshold, token),
            Call::Vouch { voucher, borrower, stake, token } => self.vouched(
                voucher,
                borrower,
                stake,
                token,
            ),
            Call::BatchVouch { voucher, borrowers, stakes, token } => self.batch_vouched(
                voucher,
                borrowers,
                stakes,
                token,
            ),
            Call::IncreaseStake { voucher, borrower, additional } => self.increased(
                voucher,
                borrower,
                additional,
            ),
            Call::DecreaseStake { voucher, borrower, amount } => self.decreased(
                voucher,
                borrower,
                amount,
            ),
            Call::WithdrawVouch { voucher, borrower } => self.withdrawn(voucher, borrower),
            Call::TransferVouch { from, to, borrower } => self.transferred(from, to, borrower),
            Call::RegisterReferral { borrower, referrer } => self.referred(borrower, referrer),
            Call::RequestLoan {
                borrower,
                co_borrowers,
                amount,
                threshold,
                loan_purpose,
                token,
                contract_balance,
            } => self.requested(borrower, co_borrowers, amount, loan_purpose, token),
            Call::Repay { borrower, payment, contract_balance } => self.repaid(borrower, payment),
            Call::Slash { signers, borrower } => self.slashed(signers, borrower),
            Call::AutoSlash { borrower } => self.auto_slashed(borrower),
            Call::ClaimExpiredLoan { borrower } => self.claimed(borrower),
            Call::CreateLoanPool { signers, borrowers, amounts, contract_balance } => self.pooled(
                signers,
                borrowers,
                amounts,
            ),
            Call::VoteSlash { voucher, borrower, approve } => self.slash_voted(
                voucher,
                borrower,
                approve,
            ),
            Call::ProposeSlash { proposer, borrower, delay_secs } => self.slash_proposed(
                proposer,
                borrower,
                delay_secs,
            ),
            Call::ExecuteSlashProposal { proposal_id } => self.proposal_executed(proposal_id),
            Call::CancelSlashProposal { caller, proposal_id } => self.proposal_cancelled(
                caller,
                proposal_id,
            ),
            Call::SlashTreasury { signers, recipient } => self.treasury_withdrawn(
                signers,
                recipient,
            ),
            Call::SetConfig { signers, config } => self.reconfigured(signers, config),
            Call::AddAdmin { signers, new_admin } => self.with_admins(
                signers,
                self.config->0.admins.push(new_admin),
                self.config->0.admin_threshold,
            ),
            Call::RemoveAdmin { signers, admin } => self.with_admins(
                signers,
                self.config->0.admins.remove_value(admin),
                self.config->0.admin_threshold,
            ),
            Call::RotateAdmin { signers, old_admin, new_admin } => self.with_admins(
                signers,
                self.rotated_admins(old_admin, new_admin),
                self.config->0.admin_threshold,
            ),
            Call::SetAdminThreshold { signers, new_threshold } => self.with_admins(
                signers,
                self.config->0.admins,
                new_threshold,
            ),
            Call::Adjust { signers, setting } => self.set(signers, setting),
            Call::Upgrade { signers, wasm_hash } => self.upgraded(signers, wasm_hash),
        }
    }

    /// The state after a call, whether it fails or not.
    pub open spec fn step(self, call: Call) -> State {
        self.unless_failed(self.failure(call), self.after(call))
    }

    /// The state after several calls.
    pub open spec fn run(self, calls: Seq<Call>) -> State
        decreases calls.len(),
    {
        if calls.len() == 0 {
            self
        } else {
            self.run(calls.drop_last()).step(calls.last())
        }
    }
}

/// Every call keeps the invariant.
pub proof fn step_keeps_wf(state: State, call: Call)
    requires
        state.wf(),
    ensures
        state.step(call).wf(),
{
    if state.failure(call) is None {
        let next = state.after(call);
        match call {
            Call::Vouch { voucher, borrower, stake, token } => {
                wellformed::vouch_keeps_wf(state, voucher, borrower, stake, token);
            },
            Call::BatchVouch { voucher, borrowers, stakes, token } => {
                wellformed::batch_vouch_keeps_wf(state, voucher, borrowers, stakes, token);
            },
            Call::IncreaseStake { voucher, borrower, additional } => {
                wellformed::increase_keeps_wf(state, voucher, borrower, additional);
            },
            Call::DecreaseStake { voucher, borrower, amount } => {
                wellformed::decrease_keeps_wf(state, voucher, borrower, amount);
            },
            Call::WithdrawVouch { voucher, borrower } => {
                wellformed::withdraw_keeps_wf(state, voucher, borrower);
            },
            Call::TransferVouch { from, to, borrower } => {
                wellformed::transfer_keeps_wf(state, from, to, borrower);
            },
            Call::RequestLoan {
                borrower,
                co_borrowers,
                amount,
                threshold,
                loan_purpose,
                token,
                contract_balance,
            } => {
                wellformed::request_keeps_wf(
                    state,
                    borrower,
                    co_borrowers,
                    amount,
                    threshold,
                    loan_purpose,
                    token,
                    contract_balance,
                );
            },
            Call::Repay { borrower, payment, contract_balance } => {
                wellformed::repay_keeps_wf(state, borrower, payment, contract_balance);
            },
            Call::Slash { signers, borrower } => {
                wellformed::slash_keeps_wf(state, signers, borrower);
            },
            Call::AutoSlash { borrower } => {
                wellformed::auto_slash_keeps_wf(state, borrower);
            },
            Call::ClaimExpiredLoan { borrower } => {
                wellformed::claim_keeps_wf(state, borrower);
            },
            Call::CreateLoanPool { signers, borrowers, amounts, contract_balance } => {
                wellformed::pool_keeps_wf(state, signers, borrowers, amounts, contract_balance);
            },
            Call::VoteSlash { voucher, borrower, approve } => {
                wellformed::vote_keeps_wf(state, voucher, borrower, approve);
            },
            Call::ProposeSlash { proposer, borrower, delay_secs } => {
                wellformed::propose_keeps_wf(state, proposer, borrower, delay_secs);
            },
            Call::ExecuteSlashProposal { proposal_id } => {
                wellformed::execution_keeps_wf(state, proposal_id);
            },
            Call::CancelSlashProposal { caller, proposal_id } => {
                wellformed::cancel_keeps_wf(state, caller, proposal_id);
            },
            _ => {
                assert(next.books_wf());
                wellformed::lemma_parameters_only(state, next);
            },
        }
    }
}

/// Whatever is called, in whatever order: a ledger that starts empty satisfies the invariant.
pub proof fn run_keeps_wf(now: u64, contract: Address, calls: Seq<Call>)
    ensures
        State::genesis(now, contract).run(calls).wf(),
    decreases calls.len(),
{
    if calls.len() == 0 {
        wellformed::genesis_is_wf(now, contract);
    } else {
        run_keeps_wf(now, contract, calls.drop_last());
        step_keeps_wf(State::genesis(now, contract).run(calls.drop_last()), calls.last());
    }
}

} // verus!
