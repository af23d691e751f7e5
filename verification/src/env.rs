//! The contract's world as plain values: the ledger's clock, everything in storage, and what the
//! call under way asks the host to do.

use crate::address::Address;
use crate::errors::Failure;
use crate::table::Table;
use crate::types::{
    Config, ConfigView, LoanPoolRecord, LoanPoolView, LoanRecord, LoanView, SlashVoteRecord,
    SlashVoteView, TimelockProposal, TimelockView, VouchRecord,
    DEFAULT_MAX_VOUCHERS_PER_BORROWER, DEFAULT_REFERRAL_BONUS_BPS, DEFAULT_SLASH_VOTE_QUORUM_BPS,
};
use vstd::prelude::*;

verus! {

/// What is published for observers. `L` is how a list of addresses is written.
#[derive(Debug, PartialEq, Eq)]
pub enum Event<L> {
    Initialized { deployer: Address, admins: L, admin_threshold: u32, token: Address },
    AdminsChanged { old_admins: L, new_admins: L },
    Upgraded { wasm_hash: [u8; 32] },
    VouchAdded { voucher: Address, borrower: Address, stake: i128, token: Address },
    VouchWithdrawn { voucher: Address, borrower: Address, stake: i128 },
    VouchTransferred { from: Address, to: Address, borrower: Address, stake: i128 },
    LoanDisbursed { borrower: Address, amount: i128, deadline: u64 },
    LoanRepaid { borrower: Address, amount: i128 },
    LoanSlashed { borrower: Address, amount: i128, total_slashed: i128 },
    SlashVoted { voucher: Address, borrower: Address, approve: bool, stake: i128 },
    GovernanceSlashed { borrower: Address, total_slashed: i128 },
    SlashProposed { proposal_id: u64, proposer: Address, borrower: Address, eta: u64 },
    ProposalExecuted { proposal_id: u64, borrower: Address },
    ProposalCancelled { proposal_id: u64, caller: Address },
}

/// What a call asks the host to do. The host performs the effects in order; if one of them fails
/// the whole call is undone.
#[derive(Debug, PartialEq, Eq)]
pub enum Effect<L> {
    /// The address must have authorised the call.
    RequireAuth(Address),
    /// Move tokens.
    Transfer { token: Address, from: Address, to: Address, amount: i128 },
    /// Mint one reputation point.
    MintReputation { nft: Address, to: Address },
    /// Burn one reputation point.
    BurnReputation { nft: Address, from: Address },
    /// Replace the contract's code.
    UpdateWasm { wasm_hash: [u8; 32] },
    Publish(Event<L>),
}

/// Tokens that the contract pays out.
#[derive(Clone, Copy, Debug, PartialEq, Eq)]
pub struct Payment {
    pub token: Address,
    pub to: Address,
    pub amount: i128,
}

impl View for Event<Vec<Address>> {
    type V = Event<Seq<Address>>;

    open spec fn view(&self) -> Event<Seq<Address>> {
        match *self {
            Event::Initialized { deployer, admins, admin_threshold, token } => Event::Initialized {
                deployer,
                admins: admins@,
                admin_threshold,
                token,
            },
            Event::AdminsChanged { old_admins, new_admins } => Event::AdminsChanged {
                old_admins: old_admins@,
                new_admins: new_admins@,
            },
            Event::Upgraded { wasm_hash } => Event::Upgraded { wasm_hash },
            Event::VouchAdded { voucher, borrower, stake, token } => Event::VouchAdded {
                voucher,
                borrower,
                stake,
                token,
            },
            Event::VouchWithdrawn { voucher, borrower, stake } => Event::VouchWithdrawn {
                voucher,
                borrower,
                stake,
            },
            Event::VouchTransferred { from, to, borrower, stake } => Event::VouchTransferred {
                from,
                to,
                borrower,
                stake,
            },
            Event::LoanDisbursed { borrower, amount, deadline } => Event::LoanDisbursed {
                borrower,
                amount,
                deadline,
            },
            Event::LoanRepaid { borrower, amount } => Event::LoanRepaid { borrower, amount },
            Event::LoanSlashed { borrower, amount, total_slashed } => Event::LoanSlashed {
                borrower,
                amount,
                total_slashed,
            },
            Event::SlashVoted { voucher, borrower, approve, stake } => Event::SlashVoted {
                voucher,
                borrower,
                approve,
                stake,
            },
            Event::GovernanceSlashed { borrower, total_slashed } => Event::GovernanceSlashed {
                borrower,
                total_slashed,
            },
            Event::SlashProposed { proposal_id, proposer, borrower, eta } => Event::SlashProposed {
                proposal_id,
                proposer,
                borrower,
                eta,
            },
            Event::ProposalExecuted { proposal_id, borrower } => Event::ProposalExecuted {
                proposal_id,
                borrower,
            },
            Event::ProposalCancelled { proposal_id, caller } => Event::ProposalCancelled {
                proposal_id,
                caller,
            },
        }
    }
}

impl View for Effect<Vec<Address>> {
    type V = Effect<Seq<Address>>;

    open spec fn view(&self) -> Effect<Seq<Address>> {
        match *self {
            Effect::RequireAuth(address) => Effect::RequireAuth(address),
            Effect::Transfer { token, from, to, amount } => Effect::Transfer {
                token,
                from,
                to,
                amount,
            },
            Effect::MintReputation { nft, to } => Effect::MintReputation { nft, to },
            Effect::BurnReputation { nft, from } => Effect::BurnReputation { nft, from },
            Effect::UpdateWasm { wasm_hash } => Effect::UpdateWasm { wasm_hash },
            Effect::Publish(event) => Effect::Publish(event@),
        }
    }
}

/// The ledger as one call sees it. Any mix of entries is a legal value: what a table holds for
/// one key is read on its own, as it is in storage.
pub struct Env {
    /// Ledger timestamp.
    pub now: u64,
    /// The contract's own address.
    pub contract: Address,
    pub config: Option<Config>,
    pub deployer: Option<Address>,
    /// Loan id to loan.
    pub loans: Table<u64, LoanRecord>,
    /// Borrower to active loan id.
    pub active_loans: Table<Address, u64>,
    /// Borrower to latest loan id.
    pub latest_loans: Table<Address, u64>,
    /// Borrower to the vouches behind it.
    pub vouches: Table<Address, Vec<VouchRecord>>,
    /// Voucher to the borrowers that it has backed.
    pub voucher_history: Table<Address, Vec<Address>>,
    /// Voucher to the time of its last vouch.
    pub last_vouch: Table<Address, u64>,
    /// Borrower to number of successful repayments.
    pub repayment_counts: Table<Address, u32>,
    /// Borrower to number of loans disbursed.
    pub loan_counts: Table<Address, u32>,
    /// Borrower to number of defaults.
    pub default_counts: Table<Address, u32>,
    /// Borrowers that are permanently banned.
    pub blacklist: Table<Address, bool>,
    /// Vouchers on the whitelist.
    pub whitelist: Table<Address, bool>,
    /// Borrower to referrer.
    pub referrers: Table<Address, Address>,
    /// Borrower to the votes on slashing it.
    pub slash_votes: Table<Address, SlashVoteRecord>,
    /// Proposal id to proposal.
    pub proposals: Table<u64, TimelockProposal>,
    /// Pool id to pool.
    pub pools: Table<u64, LoanPoolRecord>,
    /// All borrowers who have ever received a loan, one entry per loan.
    pub borrower_list: Vec<Address>,
    /// Accumulated slashed funds.
    pub slash_treasury: i128,
    pub paused: bool,
    /// Minimum stake per vouch (0 = no minimum).
    pub min_stake: i128,
    /// Maximum individual loan size (0 = no cap).
    pub max_loan_amount: i128,
    /// Minimum number of vouchers behind a loan (0 = no minimum).
    pub min_vouchers: u32,
    /// Maximum number of vouches stored per borrower.
    pub max_vouchers_per_borrower: u32,
    /// The last loan id handed out.
    pub loan_counter: u64,
    /// The last pool id handed out.
    pub pool_counter: u64,
    /// The last proposal id handed out.
    pub proposal_counter: u64,
    pub protocol_fee_bps: u32,
    /// Recipient of collected protocol fees.
    pub fee_treasury: Option<Address>,
    pub reputation_nft: Option<Address>,
    pub referral_bonus_bps: u32,
    pub slash_vote_quorum: u32,
    /// What the call asks the host to do.
    pub effects: Vec<Effect<Vec<Address>>>,
}

/// The mathematical view of [`Env`].
#[verifier::ext_equal]
pub struct State {
    pub now: u64,
    pub contract: Address,
    pub config: Option<ConfigView>,
    pub deployer: Option<Address>,
    pub loans: Map<u64, LoanView>,
    pub active_loans: Map<Address, u64>,
    pub latest_loans: Map<Address, u64>,
    pub vouches: Map<Address, Seq<VouchRecord>>,
    pub voucher_history: Map<Address, Seq<Address>>,
    pub last_vouch: Map<Address, u64>,
    pub repayment_counts: Map<Address, u32>,
    pub loan_counts: Map<Address, u32>,
    pub default_counts: Map<Address, u32>,
    pub blacklist: Map<Address, bool>,
    pub whitelist: Map<Address, bool>,
    pub referrers: Map<Address, Address>,
    pub slash_votes: Map<Address, SlashVoteView>,
    pub proposals: Map<u64, TimelockView>,
    pub pools: Map<u64, LoanPoolView>,
    pub borrower_list: Seq<Address>,
    pub slash_treasury: i128,
    pub paused: bool,
    pub min_stake: i128,
    pub max_loan_amount: i128,
    pub min_vouchers: u32,
    pub max_vouchers_per_borrower: u32,
    pub loan_counter: u64,
    pub pool_counter: u64,
    pub proposal_counter: u64,
    pub protocol_fee_bps: u32,
    pub fee_treasury: Option<Address>,
    pub reputation_nft: Option<Address>,
    pub referral_bonus_bps: u32,
    pub slash_vote_quorum: u32,
    pub effects: Seq<Effect<Seq<Address>>>,
}

impl View for Env {
    type V = State;

    open spec fn view(&self) -> State {
        State {
            now: self.now,
            contract: self.contract,
            config: match self.config {
                Some(config) => Some(config@),
                None => None,
            },
            deployer: self.deployer,
            loans: self.loans@,
            active_loans: self.active_loans@,
            latest_loans: self.latest_loans@,
            vouches: self.vouches@,
            voucher_history: self.voucher_history@,
            last_vouch: self.last_vouch@,
            repayment_counts: self.repayment_counts@,
            loan_counts: self.loan_counts@,
            default_counts: self.default_counts@,
            blacklist: self.blacklist@,
            whitelist: self.whitelist@,
            referrers: self.referrers@,
            slash_votes: self.slash_votes@,
            proposals: self.proposals@,
            pools: self.pools@,
            borrower_list: self.borrower_list@,
            slash_treasury: self.slash_treasury,
            paused: self.paused,
            min_stake: self.min_stake,
            max_loan_amount: self.max_loan_amount,
            min_vouchers: self.min_vouchers,
            max_vouchers_per_borrower: self.max_vouchers_per_borrower,
            loan_counter: self.loan_counter,
            pool_counter: self.pool_counter,
            proposal_counter: self.proposal_counter,
            protocol_fee_bps: self.protocol_fee_bps,
            fee_treasury: self.fee_treasury,
            reputation_nft: self.reputation_nft,
            referral_bonus_bps: self.referral_bonus_bps,
            slash_vote_quorum: self.slash_vote_quorum,
            effects: self.effects@.map_values(|effect: Effect<Vec<Address>>| effect@),
        }
    }
}

impl State {
    /// An empty ledger with the defaults of the optional parameters.
    pub open spec fn genesis(now: u64, contract: Address) -> State {
        State {
            now,
            contract,
            config: None,
            deployer: None,
            loans: Map::empty(),
            active_loans: Map::empty(),
            latest_loans: Map::empty(),
            vouches: Map::empty(),
            voucher_history: Map::empty(),
            last_vouch: Map::empty(),
            repayment_counts: Map::empty(),
            loan_counts: Map::empty(),
            default_counts: Map::empty(),
            blacklist: Map::empty(),
            whitelist: Map::empty(),
            referrers: Map::empty(),
            slash_votes: Map::empty(),
            proposals: Map::empty(),
            pools: Map::empty(),
            borrower_list: Seq::empty(),
            slash_treasury: 0,
            paused: false,
            min_stake: 0,
            max_loan_amount: 0,
            min_vouchers: 0,
            max_vouchers_per_borrower: DEFAULT_MAX_VOUCHERS_PER_BORROWER,
            loan_counter: 0,
            pool_counter: 0,
            proposal_counter: 0,
            protocol_fee_bps: 0,
            fee_treasury: None,
            reputation_nft: None,
            referral_bonus_bps: DEFAULT_REFERRAL_BONUS_BPS,
            slash_vote_quorum: DEFAULT_SLASH_VOTE_QUORUM_BPS,
            effects: Seq::empty(),
        }
    }

    /// What a call returns: the failure if there is one, else the value.
    pub open spec fn verdict<T>(failure: Option<Failure>, value: T) -> Result<T, Failure> {
        match failure {
            Some(failure) => Err(failure),
            None => Ok(value),
        }
    }

    /// The state after a call: a call that fails leaves everything as it was.
    pub open spec fn unless_failed(self, failure: Option<Failure>, next: State) -> State {
        match failure {
            Some(_) => self,
            None => next,
        }
    }

    pub open spec fn emit(self, effect: Effect<Seq<Address>>) -> State {
        State { effects: self.effects.push(effect), ..self }
    }

    pub open spec fn emit_all(self, effects: Seq<Effect<Seq<Address>>>) -> State {
        State { effects: self.effects + effects, ..self }
    }

    pub open spec fn authorize(self, address: Address) -> State {
        self.emit(Effect::RequireAuth(address))
    }

    pub open spec fn authorize_all(self, addresses: Seq<Address>) -> State {
        self.emit_all(addresses.map_values(|address: Address| Effect::RequireAuth(address)))
    }

    /// Tokens come in from `from`.
    pub open spec fn collect(self, token: Address, from: Address, amount: i128) -> State {
        self.emit(Effect::Transfer { token, from, to: self.contract, amount })
    }

    /// Tokens go out to `to`.
    pub open spec fn pay(self, token: Address, to: Address, amount: i128) -> State {
        self.emit(Effect::Transfer { token, from: self.contract, to, amount })
    }

    /// Several payments, one after another.
    pub open spec fn pay_all(self, payments: Seq<Payment>) -> State {
        self.emit_all(
            payments.map_values(
                |payment: Payment|
                    Effect::Transfer {
                        token: payment.token,
                        from: self.contract,
                        to: payment.to,
                        amount: payment.amount,
                    },
            ),
        )
    }

    pub open spec fn publish(self, event: Event<Seq<Address>>) -> State {
        self.emit(Effect::Publish(event))
    }
}

impl Env {
    /// An empty ledger.
    pub fn new(now: u64, contract: Address) -> (env: Env)
        ensures
            env@ == State::genesis(now, contract),
    {
        let env = Env {
            now,
            contract,
            config: None,
            deployer: None,
            loans: Table::new(),
            active_loans: Table::new(),
            latest_loans: Table::new(),
            vouches: Table::new(),
            voucher_history: Table::new(),
            last_vouch: Table::new(),
            repayment_counts: Table::new(),
            loan_counts: Table::new(),
            default_counts: Table::new(),
            blacklist: Table::new(),
            whitelist: Table::new(),
            referrers: Table::new(),
            slash_votes: Table::new(),
            proposals: Table::new(),
            pools: Table::new(),
            borrower_list: Vec::new(),
            slash_treasury: 0,
            paused: false,
            min_stake: 0,
            max_loan_amount: 0,
            min_vouchers: 0,
            max_vouchers_per_borrower: DEFAULT_MAX_VOUCHERS_PER_BORROWER,
            loan_counter: 0,
            pool_counter: 0,
            proposal_counter: 0,
            protocol_fee_bps: 0,
            fee_treasury: None,
            reputation_nft: None,
            referral_bonus_bps: DEFAULT_REFERRAL_BONUS_BPS,
            slash_vote_quorum: DEFAULT_SLASH_VOTE_QUORUM_BPS,
            effects: Vec::new(),
        };
        assert(env@ =~= State::genesis(now, contract));
        env
    }

    pub fn emit(&mut self, effect: Effect<Vec<Address>>)
        ensures
            final(self)@ == old(self)@.emit(effect@),
    {
        self.effects.push(effect);
        assert(self@ =~= old(self)@.emit(effect@));
    }

    pub fn authorize(&mut self, address: Address)
        ensures
            final(self)@ == old(self)@.authorize(address),
    {
        self.emit(Effect::RequireAuth(address));
    }

    pub fn authorize_all(&mut self, addresses: &Vec<Address>)
        ensures
            final(self)@ == old(self)@.authorize_all(addresses@),
    {
        let mut i: usize = 0;
        assert(self@ =~= old(self)@.authorize_all(addresses@.take(0)));
        while i < addresses.len()
            invariant
                i <= addresses@.len(),
                self@ == old(self)@.authorize_all(addresses@.take(i as int)),
            decreases addresses@.len() - i,
        {
            self.authorize(addresses[i]);
            i = i + 1;
            assert(self@ =~= old(self)@.authorize_all(addresses@.take(i as int)));
        }
        assert(addresses@.take(i as int) =~= addresses@);
    }

    pub fn collect(&mut self, token: Address, from: Address, amount: i128)
        ensures
            final(self)@ == old(self)@.collect(token, from, amount),
    {
        let to = self.contract;
        self.emit(Effect::Transfer { token, from, to, amount });
    }

    pub fn pay(&mut self, token: Address, to: Address, amount: i128)
        ensures
            final(self)@ == old(self)@.pay(token, to, amount),
    {
        let from = self.contract;
        self.emit(Effect::Transfer { token, from, to, amount });
    }

    pub fn pay_all(&mut self, payments: &Vec<Payment>)
        ensures
            final(self)@ == old(self)@.pay_all(payments@),
    {
        let mut i: usize = 0;
        assert(self@ =~= old(self)@.pay_all(payments@.take(0)));
        while i < payments.len()
            invariant
                i <= payments@.len(),
                self@ == old(self)@.pay_all(payments@.take(i as int)),
            decreases payments@.len() - i,
        {
            self.pay(payments[i].token, payments[i].to, payments[i].amount);
            i = i + 1;
            assert(self@ =~= old(self)@.pay_all(payments@.take(i as int)));
        }
        assert(payments@.take(i as int) =~= payments@);
    }

    pub fn publish(&mut self, event: Event<Vec<Address>>)
        ensures
            final(self)@ == old(self)@.publish(event@),
    {
        self.emit(Effect::Publish(event));
    }
}

} // verus!
