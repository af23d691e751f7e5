use quorum_credit::reputation::{ReputationEnv, ReputationNftContract};
use quorum_credit::types::DEFAULT_MAX_VOUCHERS;
use quorum_credit::{
    Address, Config, ContractError, Effect, Env, Event, Failure, LoanStatus, QuorumCreditContract,
    TimelockAction, TimelockProposal, Trap, VouchRecord,
};

/// A ledger with token balances and a reputation contract around the lending contract.
struct World {
    env: Env,
    admin: Address,
    token: Address,
    contract: Address,
    balances: Vec<(Address, Address, i128)>,
    nft: ReputationEnv,
    events: Vec<Event<Vec<Address>>>,
    signed: Vec<Address>,
    next_address: u8,
}

fn account(n: u8) -> Address {
    Address::Account([n; 32])
}

impl World {
    /// An empty ledger: nothing is initialised.
    fn empty() -> World {
        let contract = Address::Contract([1; 32]);
        World {
            env: Env::new(0, contract),
            admin: account(1),
            token: Address::Contract([2; 32]),
            contract,
            balances: Vec::new(),
            nft: ReputationEnv::new(),
            events: Vec::new(),
            signed: Vec::new(),
            next_address: 10,
        }
    }

    /// A contract that is initialised by one admin and holds `funds`.
    fn funded(funds: i128) -> World {
        let mut w = World::empty();
        let deployer = w.address();
        let (admin, token) = (w.admin, w.token);
        w.call(|env| {
            QuorumCreditContract::initialize(env, deployer, vec![admin], 1, token, true)
        })
        .unwrap();
        let contract = w.contract;
        w.mint(token, contract, funds);
        w.env.now = 120;
        w
    }

    fn address(&mut self) -> Address {
        self.next_address += 1;
        account(self.next_address)
    }

    fn admins(&self) -> Vec<Address> {
        vec![self.admin]
    }

    fn balance(&self, token: Address, owner: Address) -> i128 {
        for (t, o, amount) in self.balances.iter() {
            if *t == token && *o == owner {
                return *amount;
            }
        }
        0
    }

    fn mint(&mut self, token: Address, owner: Address, amount: i128) {
        for entry in self.balances.iter_mut() {
            if entry.0 == token && entry.1 == owner {
                entry.2 += amount;
                return;
            }
        }
        self.balances.push((token, owner, amount));
    }

    fn holdings(&self) -> i128 {
        self.balance(self.token, self.contract)
    }

    fn perform(&mut self) {
        for effect in std::mem::take(&mut self.env.effects) {
            match effect {
                Effect::RequireAuth(address) => self.signed.push(address),
                Effect::Transfer { token, from, to, amount } => {
                    assert!(amount >= 0 && self.balance(token, from) >= amount);
                    self.mint(token, from, -amount);
                    self.mint(token, to, amount);
                }
                Effect::MintReputation { to, .. } => {
                    assert_eq!(ReputationNftContract::mint(&mut self.nft, to), Ok(self.contract));
                }
                Effect::BurnReputation { from, .. } => {
                    assert_eq!(ReputationNftContract::burn(&mut self.nft, from), Ok(self.contract));
                }
                Effect::UpdateWasm { .. } => {}
                Effect::Publish(event) => self.events.push(event),
            }
        }
    }

    fn call<T>(&mut self, f: impl FnOnce(&mut Env) -> Result<T, Failure>) -> Result<T, Failure> {
        let result = f(&mut self.env);
        if result.is_ok() {
            self.perform();
        } else {
            assert!(self.env.effects.is_empty());
        }
        result
    }

    fn try_vouch(
        &mut self,
        voucher: Address,
        borrower: Address,
        stake: i128,
        token: Address,
    ) -> Result<(), Failure> {
        self.call(|env| QuorumCreditContract::vouch(env, voucher, borrower, stake, token))
    }

    /// Vouch with freshly minted tokens.
    fn vouch(&mut self, voucher: Address, borrower: Address, stake: i128) {
        let token = self.token;
        self.mint(token, voucher, stake);
        self.try_vouch(voucher, borrower, stake, token).unwrap();
    }

    fn try_loan(&mut self, borrower: Address, amount: i128, threshold: i128) -> Result<(), Failure> {
        let token = self.token;
        let holdings = self.holdings();
        self.call(|env| {
            QuorumCreditContract::request_loan(
                env,
                borrower,
                Vec::new(),
                amount,
                threshold,
                b"test loan".to_vec(),
                token,
                holdings,
            )
        })
    }

    fn loan(&mut self, borrower: Address, amount: i128, threshold: i128) {
        self.try_loan(borrower, amount, threshold).unwrap();
    }

    fn try_repay(&mut self, borrower: Address, payment: i128) -> Result<(), Failure> {
        let holdings = self.holdings();
        self.call(|env| QuorumCreditContract::repay(env, borrower, payment, holdings))
    }

    fn try_vote(&mut self, voucher: Address, borrower: Address, approve: bool) -> Result<(), Failure> {
        self.call(|env| QuorumCreditContract::vote_slash(env, voucher, borrower, approve))
    }

    fn status(&self, borrower: Address) -> LoanStatus {
        QuorumCreditContract::loan_status(&self.env, borrower)
    }

    fn allow(&mut self, token: Address) {
        let admins = self.admins();
        self.call(|env| QuorumCreditContract::add_allowed_token(env, admins, token)).unwrap();
    }

    fn with_reputation() -> World {
        let mut w = World::funded(10_000_000);
        let contract = w.contract;
        ReputationNftContract::initialize(&mut w.nft, contract).unwrap();
        let admins = w.admins();
        w.call(|env| {
            QuorumCreditContract::set_reputation_nft(env, admins, Address::Contract([3; 32]))
        })
        .unwrap();
        w
    }

    fn reputation(&self, borrower: Address) -> u32 {
        let score = ReputationNftContract::balance(&self.nft, borrower);
        QuorumCreditContract::get_reputation(&self.env, borrower, score)
    }

    fn set_cooldown(&mut self, secs: u64) {
        let mut cfg = QuorumCreditContract::get_config(&self.env).unwrap();
        cfg.vouch_cooldown_secs = secs;
        let admins = self.admins();
        self.call(|env| QuorumCreditContract::set_config(env, admins, cfg)).unwrap();
    }
}

fn contract_error<T>(error: ContractError) -> Result<T, Failure> {
    Err(Failure::Contract(error))
}

fn trap<T>(trap: Trap) -> Result<T, Failure> {
    Err(Failure::Trap(trap))
}

/// Panics with the words of the trap, as the host does.
fn expect_ok<T>(result: Result<T, Failure>) -> T {
    match result {
        Ok(value) => value,
        Err(Failure::Trap(trap)) => panic!("{}", trap.message()),
        Err(Failure::Contract(error)) => panic!("{:?}", error),
    }
}

// Requests for loans.

#[test]
fn test_request_loan_below_threshold_rejected() {
    let mut w = World::funded(10_000_000);
    let (voucher, borrower) = (w.address(), w.address());
    let token = w.token;
    w.mint(token, voucher, 1_000_000);

    // Vouch with 100_000 stake but request loan with threshold of 500_000
    w.try_vouch(voucher, borrower, 100_000, token).unwrap();

    let result = w.try_loan(borrower, 100_000, 500_000);
    assert_eq!(result, contract_error(ContractError::InsufficientFunds));
}

#[test]
#[should_panic]
fn test_request_loan_zero_threshold_rejected() {
    let mut w = World::funded(10_000_000);
    let (voucher, borrower) = (w.address(), w.address());
    w.vouch(voucher, borrower, 100_000);
    expect_ok(w.try_loan(borrower, 100_000, 0));
}

#[test]
#[should_panic(expected = "borrower already has an active loan")]
fn test_request_loan_panics_when_loan_already_active() {
    let mut w = World::funded(10_000_000);
    let (borrower, voucher) = (w.address(), w.address());
    w.vouch(voucher, borrower, 1_000_000);

    // First loan succeeds.
    expect_ok(w.try_loan(borrower, 100_000, 500_000));

    // Second loan without repaying must panic.
    expect_ok(w.try_loan(borrower, 100_000, 500_000));
}

#[test]
fn test_active_loan_exists_after_first_request() {
    let mut w = World::funded(10_000_000);
    let (borrower, voucher) = (w.address(), w.address());
    w.vouch(voucher, borrower, 1_000_000);
    w.loan(borrower, 100_000, 500_000);

    let loan = QuorumCreditContract::get_loan(&w.env, borrower).expect("loan should exist");
    assert!(loan.status == LoanStatus::Active, "loan should be active");

    let result = w.try_loan(borrower, 100_000, 500_000);
    assert!(result.is_err(), "second loan request must be rejected");
}

#[test]
fn test_get_loan_returns_none_for_address_with_no_loan() {
    let mut w = World::funded(10_000_000);
    let fresh = w.address();
    let result = QuorumCreditContract::get_loan(&w.env, fresh);
    assert!(result.is_none(), "get_loan should return None for an address with no loan record");
}

#[test]
fn test_get_loan_returns_none_for_multiple_fresh_addresses() {
    let mut w = World::funded(10_000_000);
    for _ in 0..20 {
        let fresh = w.address();
        assert!(
            QuorumCreditContract::get_loan(&w.env, fresh).is_none(),
            "get_loan should return None for any address with no loan history"
        );
    }
}

// Several vouchers.

#[test]
fn test_three_partial_stakes_sum_meets_threshold_and_loan_succeeds() {
    let mut w = World::funded(10_000_000);
    let token = w.token;
    let borrower = w.address();
    let (voucher_a, voucher_b, voucher_c) = (w.address(), w.address(), w.address());

    // Each voucher contributes a partial stake; none alone meets the 500_000 threshold.
    w.vouch(voucher_a, borrower, 200_000);
    w.vouch(voucher_b, borrower, 150_000);
    w.vouch(voucher_c, borrower, 150_000);

    let total = QuorumCreditContract::total_vouched(&w.env, borrower).unwrap();
    assert_eq!(total, 500_000, "total_vouched should be 200_000 + 150_000 + 150_000");

    assert_eq!(
        QuorumCreditContract::is_eligible(&w.env, borrower, 500_000, token),
        Ok(true),
        "borrower should be eligible when combined stake meets threshold"
    );

    w.loan(borrower, 100_000, 500_000);

    let loan =
        QuorumCreditContract::get_loan(&w.env, borrower).expect("loan should exist after request");
    assert_eq!(loan.amount, 100_000);
    assert_eq!(loan.status, LoanStatus::Active);
}

#[test]
fn test_get_vouches_returns_none_for_address_with_no_vouches() {
    let mut w = World::funded(10_000_000);
    let fresh = w.address();
    let result = QuorumCreditContract::get_vouches(&w.env, fresh);
    assert!(result.is_none(), "get_vouches should return None for an address with no vouches");
}

#[test]
fn test_three_partial_stakes_below_threshold_rejects_loan() {
    let mut w = World::funded(10_000_000);
    let borrower = w.address();
    let (voucher_a, voucher_b, voucher_c) = (w.address(), w.address(), w.address());

    w.vouch(voucher_a, borrower, 100_000);
    w.vouch(voucher_b, borrower, 100_000);
    w.vouch(voucher_c, borrower, 100_000);

    let total = QuorumCreditContract::total_vouched(&w.env, borrower).unwrap();
    assert_eq!(total, 300_000);

    let result = w.try_loan(borrower, 100_000, 500_000);
    assert!(result.is_err(), "loan should be rejected when combined stake < threshold");
}

// Whole lifecycles.

#[test]
fn test_full_loan_lifecycle_initialize_vouch_request_repay() {
    let mut w = World::funded(0);
    w.env.now = 0;
    let token = w.token;
    assert!(QuorumCreditContract::is_initialized(&w.env), "Contract should be initialized");

    let (borrower, voucher1, voucher2) = (w.address(), w.address(), w.address());
    w.mint(token, voucher1, 10_000);
    w.mint(token, voucher2, 10_000);
    w.mint(token, borrower, 1_000);

    w.try_vouch(voucher1, borrower, 5_000, token).unwrap();
    w.try_vouch(voucher2, borrower, 5_000, token).unwrap();
    assert!(
        QuorumCreditContract::vouch_exists(&w.env, voucher1, borrower),
        "Voucher1 vouch should exist"
    );
    assert!(
        QuorumCreditContract::vouch_exists(&w.env, voucher2, borrower),
        "Voucher2 vouch should exist"
    );

    let total_vouched = QuorumCreditContract::total_vouched(&w.env, borrower);
    assert_eq!(total_vouched, Ok(10_000), "Total vouched should be 10,000");

    let loan_amount = 5_000;
    let threshold = 5_000;
    let holdings = w.holdings();
    w.call(|env| {
        QuorumCreditContract::request_loan(
            env,
            borrower,
            Vec::new(),
            loan_amount,
            threshold,
            b"Business expansion".to_vec(),
            token,
            holdings,
        )
    })
    .unwrap();
    assert_eq!(w.status(borrower), LoanStatus::Active, "Loan status should be Active");

    let loan = QuorumCreditContract::get_loan(&w.env, borrower).expect("Loan should exist");
    assert_eq!(loan.amount, loan_amount, "Loan amount should match");
    assert_eq!(loan.status, LoanStatus::Active, "Loan status should be Active");
    assert_eq!(loan.borrower, borrower, "Borrower should match");
    assert_eq!(loan.loan_purpose, b"Business expansion");

    assert_eq!(
        w.balance(token, borrower),
        1_000 + loan_amount,
        "Borrower should have received loan amount"
    );

    let repayment_amount = loan.amount + loan.total_yield;
    w.try_repay(borrower, repayment_amount).unwrap();
    assert_eq!(w.status(borrower), LoanStatus::Repaid, "Loan status should be Repaid");

    let loan = QuorumCreditContract::get_loan(&w.env, borrower).expect("Loan should exist");
    assert_eq!(loan.status, LoanStatus::Repaid, "Loan status should be Repaid");
    assert!(loan.repayment_timestamp.is_some(), "Repayment timestamp should be set");

    assert!(w.balance(token, voucher1) > 5_000, "Voucher1 should have received stake plus yield");
    assert!(w.balance(token, voucher2) > 5_000, "Voucher2 should have received stake plus yield");
    assert_eq!(w.balance(token, voucher1), 10_050);

    assert!(
        !QuorumCreditContract::vouch_exists(&w.env, voucher1, borrower),
        "Voucher1 vouch should be cleared"
    );
    assert!(
        !QuorumCreditContract::vouch_exists(&w.env, voucher2, borrower),
        "Voucher2 vouch should be cleared"
    );

    assert_eq!(
        QuorumCreditContract::repayment_count(&w.env, borrower),
        1,
        "Repayment count should be 1"
    );
    assert_eq!(QuorumCreditContract::loan_count(&w.env, borrower), 1, "Loan count should be 1");
}

#[test]
fn test_full_lifecycle_with_multiple_vouchers_and_partial_repayment() {
    let mut w = World::funded(0);
    w.env.now = 0;
    let token = w.token;
    let borrower = w.address();
    let (voucher1, voucher2, voucher3) = (w.address(), w.address(), w.address());
    w.mint(token, voucher1, 10_000);
    w.mint(token, voucher2, 10_000);
    w.mint(token, voucher3, 10_000);
    w.mint(token, borrower, 1_000);

    w.try_vouch(voucher1, borrower, 3_000, token).unwrap();
    w.try_vouch(voucher2, borrower, 4_000, token).unwrap();
    w.try_vouch(voucher3, borrower, 3_000, token).unwrap();
    assert_eq!(
        QuorumCreditContract::total_vouched(&w.env, borrower),
        Ok(10_000),
        "Total vouched should be 10,000"
    );

    w.loan(borrower, 5_000, 5_000);
    assert_eq!(w.status(borrower), LoanStatus::Active, "Loan status should be Active");

    let partial_payment = 2_500;
    w.try_repay(borrower, partial_payment).unwrap();
    assert_eq!(w.status(borrower), LoanStatus::Active, "Loan status should still be Active");

    let loan = QuorumCreditContract::get_loan(&w.env, borrower).expect("Loan should exist");
    assert_eq!(
        loan.amount_repaid, partial_payment,
        "Amount repaid should match partial payment"
    );

    let remaining = loan.amount + loan.total_yield - partial_payment;
    w.try_repay(borrower, remaining).unwrap();
    assert_eq!(w.status(borrower), LoanStatus::Repaid, "Loan status should be Repaid");

    assert!(w.balance(token, voucher1) > 7_000, "Voucher1 should have received stake plus yield");
    assert!(w.balance(token, voucher2) > 6_000, "Voucher2 should have received stake plus yield");
    assert!(w.balance(token, voucher3) > 7_000, "Voucher3 should have received stake plus yield");
}

#[test]
fn test_full_lifecycle_with_referral() {
    let mut w = World::funded(0);
    w.env.now = 0;
    let token = w.token;
    let (borrower, referrer, voucher) = (w.address(), w.address(), w.address());
    w.mint(token, voucher, 10_000);
    w.mint(token, borrower, 1_000);
    w.mint(token, referrer, 1_000);

    w.call(|env| QuorumCreditContract::register_referral(env, borrower, referrer)).unwrap();
    assert_eq!(
        QuorumCreditContract::get_referrer(&w.env, borrower),
        Some(referrer),
        "Referrer should be set"
    );

    w.try_vouch(voucher, borrower, 10_000, token).unwrap();
    w.loan(borrower, 5_000, 5_000);
    assert_eq!(w.status(borrower), LoanStatus::Active, "Loan status should be Active");

    let loan = QuorumCreditContract::get_loan(&w.env, borrower).expect("Loan should exist");
    w.try_repay(borrower, loan.amount + loan.total_yield).unwrap();
    assert_eq!(w.status(borrower), LoanStatus::Repaid, "Loan status should be Repaid");

    assert!(w.balance(token, referrer) > 1_000, "Referrer should have received bonus");
    assert_eq!(w.balance(token, referrer), 1_050);
    assert_eq!(w.balance(token, voucher), 10_050);
}

// Votes on a slash.

#[test]
fn test_vote_slash_quorum_reached_executes_slash() {
    let mut w = World::funded(10_000_000);
    let (borrower, voucher_a, voucher_b) = (w.address(), w.address(), w.address());
    w.vouch(voucher_a, borrower, 600_000);
    w.vouch(voucher_b, borrower, 400_000);
    w.loan(borrower, 100_000, 500_000);

    // voucher_a approves (60% is above the 50% default quorum), the slash fires immediately
    w.try_vote(voucher_a, borrower, true).unwrap();
    assert_eq!(w.status(borrower), LoanStatus::Defaulted);
    assert_eq!(QuorumCreditContract::get_slash_treasury_balance(&w.env), 500_000);
    let vote = QuorumCreditContract::get_slash_vote(&w.env, borrower).unwrap();
    assert!(vote.executed);
}

#[test]
fn test_vote_slash_quorum_reached_on_second_vote() {
    let mut w = World::funded(10_000_000);
    let borrower = w.address();
    let (voucher_a, voucher_b, voucher_c) = (w.address(), w.address(), w.address());
    w.vouch(voucher_a, borrower, 300_000);
    w.vouch(voucher_b, borrower, 300_000);
    w.vouch(voucher_c, borrower, 400_000);
    w.loan(borrower, 100_000, 500_000);

    w.try_vote(voucher_a, borrower, true).unwrap();
    assert_eq!(w.status(borrower), LoanStatus::Active);

    w.try_vote(voucher_b, borrower, true).unwrap();
    assert_eq!(w.status(borrower), LoanStatus::Defaulted);
}

#[test]
fn test_vote_slash_reject_does_not_slash() {
    let mut w = World::funded(10_000_000);
    let (borrower, voucher_a) = (w.address(), w.address());
    w.vouch(voucher_a, borrower, 600_000);
    w.loan(borrower, 100_000, 500_000);

    w.try_vote(voucher_a, borrower, false).unwrap();

    assert_eq!(w.status(borrower), LoanStatus::Active);
    let vote = QuorumCreditContract::get_slash_vote(&w.env, borrower).unwrap();
    assert!(!vote.executed);
    assert_eq!(vote.reject_stake, 600_000);
}

#[test]
fn test_vote_slash_double_vote_rejected() {
    let mut w = World::funded(10_000_000);
    let (borrower, voucher_a, voucher_b) = (w.address(), w.address(), w.address());
    w.vouch(voucher_a, borrower, 300_000);
    w.vouch(voucher_b, borrower, 700_000);
    w.loan(borrower, 100_000, 500_000);

    w.try_vote(voucher_b, borrower, false).unwrap();

    let result = w.try_vote(voucher_b, borrower, true);
    assert_eq!(result, contract_error(ContractError::AlreadyVoted));
}

#[test]
fn test_vote_slash_non_voucher_rejected() {
    let mut w = World::funded(10_000_000);
    let (borrower, voucher_a, outsider) = (w.address(), w.address(), w.address());
    w.vouch(voucher_a, borrower, 600_000);
    w.loan(borrower, 100_000, 500_000);

    let result = w.try_vote(outsider, borrower, true);
    assert_eq!(result, contract_error(ContractError::VoucherNotFound));
}

#[test]
fn test_vote_slash_no_active_loan_rejected() {
    let mut w = World::funded(10_000_000);
    let (borrower, voucher_a) = (w.address(), w.address());
    w.vouch(voucher_a, borrower, 600_000);

    let result = w.try_vote(voucher_a, borrower, true);
    assert_eq!(result, contract_error(ContractError::NoActiveLoan));
}

#[test]
fn test_vote_slash_after_execution_rejected() {
    let mut w = World::funded(10_000_000);
    let (borrower, voucher_a, voucher_b) = (w.address(), w.address(), w.address());
    w.vouch(voucher_a, borrower, 600_000);
    w.vouch(voucher_b, borrower, 400_000);
    w.loan(borrower, 100_000, 500_000);

    w.try_vote(voucher_a, borrower, true).unwrap();

    let result = w.try_vote(voucher_b, borrower, true);
    assert_eq!(result, contract_error(ContractError::SlashAlreadyExecuted));
}

#[test]
fn test_set_slash_vote_quorum_changes_threshold() {
    let mut w = World::funded(10_000_000);
    let (borrower, voucher_a, voucher_b) = (w.address(), w.address(), w.address());

    let admins = w.admins();
    w.call(|env| QuorumCreditContract::set_slash_vote_quorum(env, admins, 8_000)).unwrap();
    assert_eq!(QuorumCreditContract::get_slash_vote_quorum(&w.env), 8_000);

    w.vouch(voucher_a, borrower, 600_000);
    w.vouch(voucher_b, borrower, 400_000);
    w.loan(borrower, 100_000, 500_000);

    w.try_vote(voucher_a, borrower, true).unwrap();
    assert_eq!(w.status(borrower), LoanStatus::Active, "60% should not reach 80% quorum");

    w.try_vote(voucher_b, borrower, true).unwrap();
    assert_eq!(w.status(borrower), LoanStatus::Defaulted);
}

#[test]
fn test_slash_mixed_token_vouches_returns_non_loan_token() {
    let mut w = World::funded(10_000_000);
    let (token, contract) = (w.token, w.contract);
    let (borrower, voucher_a, voucher_b) = (w.address(), w.address(), w.address());

    // A second token, accepted for vouches
    let token2 = Address::Contract([9; 32]);
    w.allow(token2);

    // Fund contract with both tokens
    w.mint(token, contract, 10_000_000);
    w.mint(token2, contract, 10_000_000);

    // voucher_a stakes in token1 (loan token), voucher_b in token2
    w.vouch(voucher_a, borrower, 600_000);
    w.mint(token2, voucher_b, 400_000);
    w.try_vouch(voucher_b, borrower, 400_000, token2).unwrap();

    w.loan(borrower, 100_000, 500_000);
    w.try_vote(voucher_a, borrower, true).unwrap();
    assert_eq!(w.status(borrower), LoanStatus::Defaulted);

    // voucher_a's remaining stake (50% of 600_000) is returned
    assert_eq!(w.balance(token, voucher_a), 300_000);

    // voucher_b's full stake is returned (non-loan token not slashed)
    assert_eq!(w.balance(token2, voucher_b), 400_000);

    // voucher_b's token2 vouch remains
    let vouches = QuorumCreditContract::get_vouches(&w.env, borrower).unwrap();
    assert_eq!(vouches.len(), 1);
    assert_eq!(vouches[0].token, token2);
    assert_eq!(vouches[0].stake, 400_000);
}

#[test]
fn test_vote_slash_auto_executes_when_quorum_reached() {
    let mut w = World::funded(50_000_000);
    let borrower = w.address();
    let (voucher_a, voucher_b, voucher_c) = (w.address(), w.address(), w.address());
    w.vouch(voucher_a, borrower, 400_000);
    w.vouch(voucher_b, borrower, 350_000);
    w.vouch(voucher_c, borrower, 250_000);
    w.loan(borrower, 200_000, 800_000);

    w.try_vote(voucher_a, borrower, true).unwrap();
    assert_eq!(
        w.status(borrower),
        LoanStatus::Active,
        "40% approve should not reach 50% quorum"
    );

    w.try_vote(voucher_b, borrower, true).unwrap();
    assert_eq!(
        w.status(borrower),
        LoanStatus::Defaulted,
        "loan should be Defaulted after quorum reached"
    );

    let expected_slashed =
        400_000_i128 * 5000 / 10_000 + 350_000_i128 * 5000 / 10_000 + 250_000_i128 * 5000 / 10_000;
    assert_eq!(
        QuorumCreditContract::get_slash_treasury_balance(&w.env),
        expected_slashed,
        "slash treasury should hold 50% of all voucher stakes"
    );

    let vote = QuorumCreditContract::get_slash_vote(&w.env, borrower).unwrap();
    assert!(vote.executed, "vote record should be marked executed");
    assert_eq!(
        vote.approve_stake,
        400_000 + 350_000,
        "approve_stake should reflect both votes"
    );

    assert!(
        w.events.contains(&Event::GovernanceSlashed { borrower, total_slashed: expected_slashed }),
        "gov/slashed event should be emitted"
    );
}

#[test]
fn test_vote_slash_auto_execute_increments_default_count() {
    let mut w = World::funded(50_000_000);
    let (borrower, voucher_a, voucher_b) = (w.address(), w.address(), w.address());
    w.vouch(voucher_a, borrower, 600_000);
    w.vouch(voucher_b, borrower, 400_000);
    w.loan(borrower, 200_000, 800_000);

    assert_eq!(QuorumCreditContract::default_count(&w.env, borrower), 0);
    w.try_vote(voucher_a, borrower, true).unwrap();
    assert_eq!(
        QuorumCreditContract::default_count(&w.env, borrower),
        1,
        "default_count should be 1 after auto-slash"
    );
}

#[test]
fn test_vote_slash_auto_execute_returns_remaining_stake_to_vouchers() {
    let mut w = World::funded(50_000_000);
    let token = w.token;
    let (borrower, voucher_a, voucher_b) = (w.address(), w.address(), w.address());
    w.vouch(voucher_a, borrower, 600_000);
    w.vouch(voucher_b, borrower, 400_000);
    w.loan(borrower, 200_000, 800_000);

    w.try_vote(voucher_a, borrower, true).unwrap();
    assert_eq!(
        w.balance(token, voucher_a),
        300_000,
        "voucher_a should receive back 50% of 600_000"
    );
    assert_eq!(
        w.balance(token, voucher_b),
        200_000,
        "voucher_b should receive back 50% of 400_000"
    );
}

#[test]
fn test_vote_slash_auto_execute_removes_active_loan() {
    let mut w = World::funded(50_000_000);
    let (borrower, voucher_a, voucher_b) = (w.address(), w.address(), w.address());
    w.vouch(voucher_a, borrower, 600_000);
    w.vouch(voucher_b, borrower, 400_000);
    w.loan(borrower, 200_000, 800_000);

    w.try_vote(voucher_a, borrower, true).unwrap();
    let result = w.try_repay(borrower, 200_000);
    assert!(result.is_err(), "repay should fail after loan is auto-slashed");
    assert_eq!(result, contract_error(ContractError::NoActiveLoan));
}

// Slashing by the admins.

#[test]
fn test_slash_panics_when_called_by_non_admin() {
    let mut w = World::funded(10_000_000);
    let (borrower, voucher, non_admin) = (w.address(), w.address(), w.address());
    w.vouch(voucher, borrower, 1_000_000);
    w.loan(borrower, 100_000, 500_000);

    let result = w.call(|env| QuorumCreditContract::slash(env, vec![non_admin], borrower));
    assert!(result.is_err(), "slash must be rejected when called by a non-admin address");
    assert_eq!(result, trap(Trap::NotAnAdmin));
}

#[test]
fn test_slash_succeeds_when_called_by_admin() {
    let mut w = World::funded(10_000_000);
    let (borrower, voucher) = (w.address(), w.address());
    w.vouch(voucher, borrower, 1_000_000);
    w.loan(borrower, 100_000, 500_000);

    let admins = w.admins();
    w.call(|env| QuorumCreditContract::slash(env, admins, borrower)).unwrap();

    let loan = QuorumCreditContract::get_loan(&w.env, borrower).expect("loan should exist");
    assert!(
        loan.status == LoanStatus::Defaulted,
        "loan should be marked defaulted after slash"
    );
}

// Eligibility by token.

#[test]
fn test_is_eligible_filters_by_token() {
    let mut w = World::funded(10_000_000);
    let (token, contract) = (w.token, w.contract);
    let (borrower, voucher) = (w.address(), w.address());
    let usdc = Address::Contract([9; 32]);
    w.allow(usdc);
    w.mint(token, contract, 10_000_000);
    w.mint(usdc, contract, 10_000_000);

    // Vouch 1M in USDC (not the loan token)
    w.mint(usdc, voucher, 1_000_000);
    w.try_vouch(voucher, borrower, 1_000_000, usdc).unwrap();

    assert_eq!(
        QuorumCreditContract::is_eligible(&w.env, borrower, 500_000, token),
        Ok(false),
        "borrower should not be eligible for XLM loan with only USDC vouches"
    );
    assert_eq!(
        QuorumCreditContract::is_eligible(&w.env, borrower, 500_000, usdc),
        Ok(true),
        "borrower should be eligible for USDC loan with 1M USDC vouches"
    );
}

#[test]
fn test_is_eligible_mixed_tokens_counts_only_matching() {
    let mut w = World::funded(10_000_000);
    let (token, contract) = (w.token, w.contract);
    let (borrower, voucher_a, voucher_b) = (w.address(), w.address(), w.address());
    let token2 = Address::Contract([9; 32]);
    w.allow(token2);
    w.mint(token, contract, 10_000_000);
    w.mint(token2, contract, 10_000_000);

    w.vouch(voucher_a, borrower, 300_000);
    w.mint(token2, voucher_b, 400_000);
    w.try_vouch(voucher_b, borrower, 400_000, token2).unwrap();

    assert_eq!(
        QuorumCreditContract::is_eligible(&w.env, borrower, 500_000, token),
        Ok(false),
        "token1 eligibility should only count token1 vouches"
    );
    assert_eq!(
        QuorumCreditContract::is_eligible(&w.env, borrower, 500_000, token2),
        Ok(false),
        "token2 eligibility should only count token2 vouches"
    );
    assert_eq!(
        QuorumCreditContract::is_eligible(&w.env, borrower, 300_000, token),
        Ok(true),
        "borrower should be eligible for token1 loan at 300k threshold"
    );
    assert_eq!(
        QuorumCreditContract::is_eligible(&w.env, borrower, 400_000, token2),
        Ok(true),
        "borrower should be eligible for token2 loan at 400k threshold"
    );
}

// Yield, fees and reputation.

#[test]
fn test_vouch_at_min_yield_stake_earns_nonzero_yield() {
    let mut w = World::funded(10_000_000);
    let token = w.token;
    let (borrower, voucher) = (w.address(), w.address());
    w.mint(token, voucher, 10_000_000);

    w.try_vouch(voucher, borrower, 1_000_000, token).unwrap();
    w.loan(borrower, 100_000, 1_000_000);
    w.try_repay(borrower, 100_000).unwrap();

    let initial_balance: i128 = 10_000_000;
    let final_balance = w.balance(token, voucher);
    assert!(
        final_balance > initial_balance,
        "voucher yield was zero for min_yield_stake; got balance {}",
        final_balance
    );
}

#[test]
fn test_vouch_49_strops_truncates_yield_to_zero() {
    let mut w = World::funded(100_000);
    let token = w.token;
    let (borrower, voucher) = (w.address(), w.address());
    let stake = 49i128;
    let loan_amount = 10i128;
    let threshold = 49i128;

    w.mint(token, voucher, stake);
    let initial_balance = w.balance(token, voucher);
    assert_eq!(initial_balance, stake, "voucher should have exactly stake amount");

    w.try_vouch(voucher, borrower, stake, token).unwrap();

    let total_vouched = QuorumCreditContract::total_vouched(&w.env, borrower).unwrap();
    assert_eq!(total_vouched, stake, "total_vouched should equal vouch stake");

    assert_eq!(QuorumCreditContract::is_eligible(&w.env, borrower, threshold, token), Ok(true));

    let holdings = w.holdings();
    w.call(|env| {
        QuorumCreditContract::request_loan(
            env,
            borrower,
            Vec::new(),
            loan_amount,
            threshold,
            b"test purpose".to_vec(),
            token,
            holdings,
        )
    })
    .unwrap();

    let loan = QuorumCreditContract::get_loan(&w.env, borrower).expect("loan should exist");
    let expected_yield = loan_amount * 200 / 10_000;
    assert_eq!(loan.total_yield, expected_yield, "total_yield should truncate to 0");
    assert_eq!(loan.amount, loan_amount);

    w.try_repay(borrower, loan_amount).unwrap();

    let repaid_loan =
        QuorumCreditContract::get_loan(&w.env, borrower).expect("loan should exist after repay");
    assert_eq!(repaid_loan.status, LoanStatus::Repaid, "loan should be marked repaid");

    let final_balance = w.balance(token, voucher);
    assert_eq!(
        final_balance, initial_balance,
        "voucher should receive stake back + 0 yield (truncation); got {} expected {}",
        final_balance, initial_balance
    );

    assert!(QuorumCreditContract::get_vouches(&w.env, borrower).is_none());
}

#[test]
fn test_repay_collects_protocol_fee() {
    let mut w = World::funded(10_000_000);
    let token = w.token;
    let (borrower, voucher, fee_treasury) = (w.address(), w.address(), w.address());

    let admins = w.admins();
    w.call(|env| QuorumCreditContract::set_protocol_fee(env, admins.clone(), 500)).unwrap();
    let admins = w.admins();
    w.call(|env| QuorumCreditContract::set_fee_treasury(env, admins, fee_treasury)).unwrap();

    w.vouch(voucher, borrower, 1_000_000);
    w.loan(borrower, 100_000, 500_000);
    w.mint(token, borrower, 102_000);
    w.try_repay(borrower, 102_000).unwrap();

    // 100_000 * 500 / 10_000
    assert_eq!(w.balance(token, fee_treasury), 5_000);
    // The stake and the whole yield of 2_000
    assert_eq!(w.balance(token, voucher), 1_002_000);
}

#[test]
fn test_repay_no_fee_when_not_configured() {
    let mut w = World::funded(10_000_000);
    let token = w.token;
    let (borrower, voucher, fee_treasury) = (w.address(), w.address(), w.address());

    let admins = w.admins();
    w.call(|env| QuorumCreditContract::set_fee_treasury(env, admins, fee_treasury)).unwrap();

    w.vouch(voucher, borrower, 1_000_000);
    w.loan(borrower, 100_000, 500_000);
    w.mint(token, borrower, 102_000);
    w.try_repay(borrower, 102_000).unwrap();

    assert_eq!(w.balance(token, fee_treasury), 0);
    assert_eq!(w.balance(token, voucher), 1_002_000);
}

#[test]
fn test_repay_mints_reputation() {
    let mut w = World::with_reputation();
    let (borrower, voucher) = (w.address(), w.address());
    assert_eq!(w.reputation(borrower), 0);

    w.vouch(voucher, borrower, 1_000_000);
    w.loan(borrower, 500_000, 1_000_000);
    w.try_repay(borrower, 500_000).unwrap();

    assert_eq!(w.reputation(borrower), 1);
    assert_eq!(ReputationNftContract::balance(&w.nft, borrower), 1);
}

#[test]
fn test_slash_burns_reputation() {
    let mut w = World::with_reputation();
    let token = w.token;
    let (borrower, voucher) = (w.address(), w.address());
    w.vouch(voucher, borrower, 1_000_000);
    w.loan(borrower, 500_000, 1_000_000);
    w.try_repay(borrower, 500_000).unwrap();
    assert_eq!(ReputationNftContract::balance(&w.nft, borrower), 1);

    let (borrower2, voucher2) = (w.address(), w.address());
    w.mint(token, voucher2, 2_000_000);

    ReputationNftContract::mint(&mut w.nft, borrower2).unwrap();
    assert_eq!(ReputationNftContract::balance(&w.nft, borrower2), 1);

    w.try_vouch(voucher2, borrower2, 1_000_000, token).unwrap();
    w.loan(borrower2, 500_000, 1_000_000);
    let admins = w.admins();
    w.call(|env| QuorumCreditContract::slash(env, admins, borrower2)).unwrap();

    assert_eq!(w.reputation(borrower2), 0);
    assert_eq!(ReputationNftContract::balance(&w.nft, borrower2), 0);
}

// Loan pools.

#[test]
fn test_create_loan_pool_success() {
    let mut w = World::funded(10_000_000);
    w.env.now = 1_000_000;
    let token = w.token;
    let (borrower1, borrower2) = (w.address(), w.address());
    let (voucher1, voucher2) = (w.address(), w.address());
    w.mint(token, voucher1, 10_000_000);
    w.mint(token, voucher2, 10_000_000);
    w.try_vouch(voucher1, borrower1, 2_000_000, token).unwrap();
    w.try_vouch(voucher2, borrower2, 2_000_000, token).unwrap();

    let (admins, holdings) = (w.admins(), w.holdings());
    let pool_id = w
        .call(|env| {
            QuorumCreditContract::create_loan_pool(
                env,
                admins,
                vec![borrower1, borrower2],
                vec![500_000, 300_000],
                holdings,
            )
        })
        .unwrap();
    assert_eq!(pool_id, 1);

    let pool = QuorumCreditContract::get_loan_pool(&w.env, pool_id).unwrap();
    assert_eq!(pool.pool_id, 1);
    assert_eq!(pool.total_disbursed, 800_000);
    assert_eq!(pool.borrowers.len(), 2);

    assert_eq!(QuorumCreditContract::get_loan(&w.env, borrower1).unwrap().amount, 500_000);
    assert_eq!(QuorumCreditContract::get_loan(&w.env, borrower2).unwrap().amount, 300_000);
    assert_eq!(w.balance(token, borrower1), 500_000);
    assert_eq!(w.balance(token, borrower2), 300_000);
}

#[test]
fn test_create_loan_pool_increments_pool_id() {
    let mut w = World::funded(10_000_000);
    let token = w.token;
    assert_eq!(QuorumCreditContract::get_loan_pool_count(&w.env), 0);

    for expected in 1..3 {
        let (borrower, voucher) = (w.address(), w.address());
        w.mint(token, voucher, 10_000_000);
        w.try_vouch(voucher, borrower, 2_000_000, token).unwrap();
        let (admins, holdings) = (w.admins(), w.holdings());
        let pool_id = w.call(|env| {
            QuorumCreditContract::create_loan_pool(
                env,
                admins,
                vec![borrower],
                vec![500_000],
                holdings,
            )
        });
        assert_eq!(pool_id, Ok(expected));
    }

    assert_eq!(QuorumCreditContract::get_loan_pool_count(&w.env), 2);
}

#[test]
fn test_create_loan_pool_length_mismatch_rejected() {
    let mut w = World::funded(10_000_000);
    let (borrower, admins, holdings) = (w.address(), w.admins(), w.holdings());
    let result = w.call(|env| {
        QuorumCreditContract::create_loan_pool(env, admins, vec![borrower], vec![], holdings)
    });
    assert_eq!(result, contract_error(ContractError::PoolLengthMismatch));
}

#[test]
fn test_create_loan_pool_empty_rejected() {
    let mut w = World::funded(10_000_000);
    let (admins, holdings) = (w.admins(), w.holdings());
    let result = w.call(|env| {
        QuorumCreditContract::create_loan_pool(env, admins, vec![], vec![], holdings)
    });
    assert_eq!(result, contract_error(ContractError::PoolEmpty));
}

#[test]
fn test_create_loan_pool_rejects_active_loan_borrower() {
    let mut w = World::funded(10_000_000);
    let (borrower, voucher) = (w.address(), w.address());
    w.vouch(voucher, borrower, 2_000_000);
    w.loan(borrower, 500_000, 2_000_000);

    let (admins, holdings) = (w.admins(), w.holdings());
    let result = w.call(|env| {
        QuorumCreditContract::create_loan_pool(
            env,
            admins,
            vec![borrower],
            vec![500_000],
            holdings,
        )
    });
    assert_eq!(result, contract_error(ContractError::PoolBorrowerActiveLoan));
}

#[test]
fn test_get_loan_pool_unknown_returns_none() {
    let w = World::funded(10_000_000);
    assert!(QuorumCreditContract::get_loan_pool(&w.env, 999).is_none());
}

// The cap on vouchers.

#[test]
fn test_get_max_vouchers_per_loan_returns_default() {
    let w = World::funded(10_000_000);
    assert_eq!(
        QuorumCreditContract::get_max_vouchers_per_loan(&w.env),
        Ok(DEFAULT_MAX_VOUCHERS)
    );
}

#[test]
fn test_set_max_vouchers_per_loan_and_get() {
    let mut w = World::funded(10_000_000);
    let admins = w.admins();
    w.call(|env| QuorumCreditContract::set_max_vouchers_per_loan(env, admins, 5)).unwrap();
    assert_eq!(QuorumCreditContract::get_max_vouchers_per_loan(&w.env), Ok(5));
}

#[test]
fn test_vouch_rejected_when_cap_reached() {
    let mut w = World::funded(10_000_000);
    let token = w.token;
    let borrower = w.address();
    let admins = w.admins();
    w.call(|env| QuorumCreditContract::set_max_vouchers_per_loan(env, admins, 2)).unwrap();

    for _ in 0..2 {
        let voucher = w.address();
        w.vouch(voucher, borrower, 1_000_000);
    }

    let extra = w.address();
    w.mint(token, extra, 1_000_000);
    let result = w.try_vouch(extra, borrower, 1_000_000, token);
    assert!(result.is_err());
    assert_eq!(result, trap(Trap::MaxVouchersPerLoan));
}

#[test]
#[should_panic(expected = "max_vouchers_per_loan must be greater than zero")]
fn test_set_max_vouchers_per_loan_zero_rejected() {
    let mut w = World::funded(10_000_000);
    let admins = w.admins();
    expect_ok(w.call(|env| QuorumCreditContract::set_max_vouchers_per_loan(env, admins, 0)));
}

// The cooldown between vouches.

#[test]
fn test_vouch_cooldown_blocks_second_vouch_within_window() {
    let mut w = World::funded(10_000_000);
    w.env.now = 1_000_000;
    let token = w.token;
    w.set_cooldown(3_600);

    let (voucher, borrower1, borrower2) = (w.address(), w.address(), w.address());
    w.mint(token, voucher, 2_000_000);
    w.try_vouch(voucher, borrower1, 1_000_000, token).unwrap();

    let result = w.try_vouch(voucher, borrower2, 1_000_000, token);
    assert_eq!(result, contract_error(ContractError::VouchCooldownActive));
}

#[test]
fn test_vouch_cooldown_allows_vouch_after_window_expires() {
    let mut w = World::funded(10_000_000);
    w.env.now = 1_000_000;
    let token = w.token;
    w.set_cooldown(3_600);

    let (voucher, borrower1, borrower2) = (w.address(), w.address(), w.address());
    w.mint(token, voucher, 2_000_000);
    w.try_vouch(voucher, borrower1, 1_000_000, token).unwrap();

    w.env.now += 3_601;

    w.try_vouch(voucher, borrower2, 1_000_000, token).unwrap();
    assert!(QuorumCreditContract::vouch_exists(&w.env, voucher, borrower2));
}

#[test]
fn test_vouch_cooldown_active_rejects_second_vouch() {
    let mut w = World::funded(10_000_000);
    let token = w.token;
    let (voucher, borrower1, borrower2) = (w.address(), w.address(), w.address());
    w.mint(token, voucher, 2_000_000);
    w.try_vouch(voucher, borrower1, 1_000_000, token).unwrap();

    // Within the 24-hour cooldown
    let result = w.try_vouch(voucher, borrower2, 1_000_000, token);
    assert_eq!(result, contract_error(ContractError::VouchCooldownActive));
}

#[test]
fn test_vouch_cooldown_expires_allows_second_vouch() {
    let mut w = World::funded(10_000_000);
    let token = w.token;
    let (voucher, borrower1, borrower2) = (w.address(), w.address(), w.address());
    w.mint(token, voucher, 2_000_000);
    w.try_vouch(voucher, borrower1, 1_000_000, token).unwrap();

    let cooldown_secs = 24 * 60 * 60;
    w.env.now = 120 + cooldown_secs + 1;
    w.try_vouch(voucher, borrower2, 1_000_000, token).unwrap();

    let vouches1 = QuorumCreditContract::get_vouches(&w.env, borrower1).unwrap();
    let vouches2 = QuorumCreditContract::get_vouches(&w.env, borrower2).unwrap();
    assert_eq!(vouches1.len(), 1);
    assert_eq!(vouches2.len(), 1);
}

#[test]
fn test_vouch_cooldown_is_per_voucher() {
    let mut w = World::funded(10_000_000);
    let token = w.token;
    let (voucher1, voucher2, borrower) = (w.address(), w.address(), w.address());
    w.mint(token, voucher1, 1_000_000);
    w.mint(token, voucher2, 1_000_000);

    w.try_vouch(voucher1, borrower, 1_000_000, token).unwrap();
    w.try_vouch(voucher2, borrower, 1_000_000, token).unwrap();

    let vouches = QuorumCreditContract::get_vouches(&w.env, borrower).unwrap();
    assert_eq!(vouches.len(), 2);
}

// Vouches on record.

#[test]
fn test_total_vouched_overflow() {
    let mut w = World::funded(0);
    let token = w.token;
    let (borrower, voucher1, voucher2) = (w.address(), w.address(), w.address());
    w.env.vouches.insert(
        borrower,
        vec![
            VouchRecord { voucher: voucher1, stake: i128::MAX - 1000, vouch_timestamp: 0, token },
            VouchRecord { voucher: voucher2, stake: 2000, vouch_timestamp: 0, token },
        ],
    );
    let result = QuorumCreditContract::total_vouched(&w.env, borrower);
    assert_eq!(result, Err(ContractError::StakeOverflow));
    assert_eq!(
        QuorumCreditContract::is_eligible(&w.env, borrower, 1, token),
        trap(Trap::Overflow)
    );
    assert_eq!(w.try_loan(borrower, 100, 1), trap(Trap::Overflow));
}

#[test]
fn test_total_vouched_no_overflow() {
    let mut w = World::funded(0);
    let token = w.token;
    let (borrower, voucher1, voucher2) = (w.address(), w.address(), w.address());
    w.env.vouches.insert(
        borrower,
        vec![
            VouchRecord { voucher: voucher1, stake: 1_000_000, vouch_timestamp: 0, token },
            VouchRecord { voucher: voucher2, stake: 2_500_000, vouch_timestamp: 0, token },
        ],
    );
    assert_eq!(QuorumCreditContract::total_vouched(&w.env, borrower), Ok(3_500_000));
}

#[test]
fn test_duplicate_vouch_from_same_voucher_rejected() {
    let mut w = World::funded(0);
    w.env.now = 0;
    let token = w.token;
    let (voucher, borrower) = (w.address(), w.address());
    w.mint(token, voucher, 3_000);
    w.try_vouch(voucher, borrower, 1000, token).unwrap();
    assert_eq!(
        w.try_vouch(voucher, borrower, 2000, token),
        contract_error(ContractError::DuplicateVouch)
    );
}

#[test]
fn test_vouch_blacklisted_borrower() {
    let mut w = World::funded(0);
    let token = w.token;
    let (voucher, borrower) = (w.address(), w.address());
    let stake = 1_000_000;
    let admins = w.admins();
    w.call(|env| QuorumCreditContract::blacklist(env, admins, borrower)).unwrap();
    let result = w.try_vouch(voucher, borrower, stake, token);
    assert_eq!(result, contract_error(ContractError::Blacklisted));
    assert!(QuorumCreditContract::is_blacklisted(&w.env, borrower));
    assert!(!QuorumCreditContract::is_blacklisted(&w.env, voucher));
    assert_eq!(w.try_loan(borrower, 100, 1), contract_error(ContractError::Blacklisted));
    let (admins, holdings) = (w.admins(), w.holdings());
    let result = w.call(|env| {
        QuorumCreditContract::create_loan_pool(env, admins, vec![borrower], vec![1], holdings)
    });
    assert_eq!(result, contract_error(ContractError::Blacklisted));
}

#[test]
fn vouch_takes_the_stake_in_and_records_it() {
    let mut w = World::funded(0);
    let token = w.token;
    let (voucher, borrower) = (w.address(), w.address());
    w.vouch(voucher, borrower, 700);
    assert_eq!(w.balance(token, voucher), 0);
    assert_eq!(w.holdings(), 700);
    assert_eq!(w.signed.last(), Some(&voucher));
    assert_eq!(
        QuorumCreditContract::get_vouches(&w.env, borrower).unwrap(),
        vec![VouchRecord { voucher, stake: 700, vouch_timestamp: 120, token }]
    );
    assert_eq!(QuorumCreditContract::voucher_history(&w.env, voucher), vec![borrower]);
    assert_eq!(
        w.events.last(),
        Some(&Event::VouchAdded { voucher, borrower, stake: 700, token })
    );
}

#[test]
fn vouch_is_refused_for_each_reason() {
    let mut w = World::empty();
    let token = w.token;
    let (voucher, borrower, stranger) = (w.address(), w.address(), w.address());
    assert_eq!(w.try_vouch(voucher, borrower, 5, token), trap(Trap::NotInitialized));

    let mut w = World::funded(0);
    assert_eq!(
        w.try_vouch(voucher, borrower, 0, token),
        contract_error(ContractError::InsufficientFunds)
    );
    assert_eq!(
        w.try_vouch(voucher, borrower, -1, token),
        contract_error(ContractError::InsufficientFunds)
    );
    assert_eq!(w.try_vouch(voucher, voucher, 5, token), trap(Trap::SelfVouch));
    assert_eq!(
        w.try_vouch(voucher, borrower, 5, stranger),
        contract_error(ContractError::InvalidToken)
    );

    let admins = w.admins();
    w.call(|env| QuorumCreditContract::set_min_stake(env, admins, 100)).unwrap();
    assert_eq!(QuorumCreditContract::get_min_stake(&w.env), 100);
    assert_eq!(
        w.try_vouch(voucher, borrower, 99, token),
        contract_error(ContractError::MinStakeNotMet)
    );

    let mut cfg = QuorumCreditContract::get_config(&w.env).unwrap();
    cfg.min_yield_stake = 200;
    let admins = w.admins();
    w.call(|env| QuorumCreditContract::set_config(env, admins, cfg)).unwrap();
    assert_eq!(
        w.try_vouch(voucher, borrower, 199, token),
        trap(Trap::StakeBelowYieldMinimum)
    );

    w.env.last_vouch.insert(voucher, u64::MAX);
    assert_eq!(w.try_vouch(voucher, borrower, 200, token), trap(Trap::Overflow));
    let _ = w.env.last_vouch.remove(&voucher);

    w.vouch(voucher, borrower, 200);
    w.env.max_vouchers_per_borrower = 1;
    assert_eq!(
        w.try_vouch(stranger, borrower, 200, token),
        contract_error(ContractError::MaxVouchersPerBorrowerExceeded)
    );
    w.env.max_vouchers_per_borrower = 50;
    w.loan(borrower, 100, 200);
    assert_eq!(
        w.try_vouch(stranger, borrower, 200, token),
        contract_error(ContractError::ActiveLoanExists)
    );
    w.env.paused = true;
    assert_eq!(
        w.try_vouch(stranger, borrower, 200, token),
        contract_error(ContractError::ContractPaused)
    );
}

#[test]
fn batch_vouch_backs_all_borrowers_or_none() {
    let mut w = World::funded(0);
    let token = w.token;
    let (voucher, b1, b2) = (w.address(), w.address(), w.address());
    w.mint(token, voucher, 1_000);
    let mut batch = |w: &mut World, borrowers: Vec<Address>, stakes: Vec<i128>| {
        w.call(|env| QuorumCreditContract::batch_vouch(env, voucher, borrowers, stakes, token))
    };
    assert_eq!(batch(&mut w, vec![b1], vec![1, 2]), trap(Trap::BatchLengthMismatch));
    assert_eq!(batch(&mut w, vec![], vec![]), trap(Trap::BatchEmpty));
    assert_eq!(
        batch(&mut w, vec![b1, b1], vec![1, 2]),
        contract_error(ContractError::DuplicateVouch)
    );
    assert_eq!(
        batch(&mut w, vec![b1, b2], vec![1, 0]),
        contract_error(ContractError::InsufficientFunds)
    );
    assert!(!QuorumCreditContract::vouch_exists(&w.env, voucher, b1));
    assert_eq!(w.balance(token, voucher), 1_000);

    batch(&mut w, vec![b1, b2], vec![100, 200]).unwrap();
    assert_eq!(QuorumCreditContract::total_vouched(&w.env, b1), Ok(100));
    assert_eq!(QuorumCreditContract::total_vouched(&w.env, b2), Ok(200));
    assert_eq!(w.balance(token, voucher), 700);
    assert_eq!(QuorumCreditContract::voucher_history(&w.env, voucher), vec![b1, b2]);
    // The whole batch was one call for the cooldown.
    assert_eq!(
        batch(&mut w, vec![account(90)], vec![1]),
        contract_error(ContractError::VouchCooldownActive)
    );
}

#[test]
fn increase_and_decrease_cancel_out() {
    let mut w = World::funded(0);
    let token = w.token;
    let (voucher, borrower) = (w.address(), w.address());
    w.vouch(voucher, borrower, 700);
    let before = QuorumCreditContract::get_vouches(&w.env, borrower);
    w.mint(token, voucher, 50);
    w.call(|env| QuorumCreditContract::increase_stake(env, voucher, borrower, 50)).unwrap();
    assert_eq!(QuorumCreditContract::total_vouched(&w.env, borrower), Ok(750));
    assert_eq!(w.holdings(), 750);
    w.call(|env| QuorumCreditContract::decrease_stake(env, voucher, borrower, 50)).unwrap();
    assert_eq!(QuorumCreditContract::get_vouches(&w.env, borrower), before);
    assert_eq!(w.holdings(), 700);

    // Taking out all of it strikes the vouch off.
    w.call(|env| QuorumCreditContract::decrease_stake(env, voucher, borrower, 700)).unwrap();
    assert_eq!(QuorumCreditContract::get_vouches(&w.env, borrower), None);
    assert_eq!(w.balance(token, voucher), 750);
}

#[test]
fn stake_changes_are_refused_for_each_reason() {
    let mut w = World::funded(0);
    let (voucher, borrower, stranger) = (w.address(), w.address(), w.address());
    let increase = |w: &mut World, who: Address, amount: i128| {
        w.call(|env| QuorumCreditContract::increase_stake(env, who, borrower, amount))
    };
    let decrease = |w: &mut World, who: Address, amount: i128| {
        w.call(|env| QuorumCreditContract::decrease_stake(env, who, borrower, amount))
    };
    assert_eq!(increase(&mut w, voucher, 1), trap(Trap::VouchNotFound));
    assert_eq!(decrease(&mut w, voucher, 1), trap(Trap::VouchNotFound));
    w.vouch(voucher, borrower, 700);
    assert_eq!(increase(&mut w, stranger, 1), trap(Trap::VouchNotFound));
    assert_eq!(
        increase(&mut w, voucher, 0),
        contract_error(ContractError::InsufficientFunds)
    );
    assert_eq!(increase(&mut w, voucher, i128::MAX), trap(Trap::Overflow));
    assert_eq!(decrease(&mut w, voucher, 0), trap(Trap::DecreaseNotPositive));
    assert_eq!(decrease(&mut w, voucher, 701), trap(Trap::DecreaseExceedsStake));
    w.loan(borrower, 100, 700);
    assert_eq!(decrease(&mut w, voucher, 1), trap(Trap::LoanAlreadyActive));
    w.env.paused = true;
    assert_eq!(increase(&mut w, voucher, 1), contract_error(ContractError::ContractPaused));
    assert_eq!(decrease(&mut w, voucher, 1), contract_error(ContractError::ContractPaused));
}

#[test]
fn stake_in_a_token_that_is_no_longer_accepted_is_stuck() {
    let mut w = World::funded(0);
    let (voucher, borrower) = (w.address(), w.address());
    let token2 = Address::Contract([9; 32]);
    w.allow(token2);
    w.mint(token2, voucher, 100);
    w.try_vouch(voucher, borrower, 100, token2).unwrap();
    let admins = w.admins();
    w.call(|env| QuorumCreditContract::remove_allowed_token(env, admins, token2)).unwrap();
    for result in [
        w.call(|env| QuorumCreditContract::increase_stake(env, voucher, borrower, 1)),
        w.call(|env| QuorumCreditContract::decrease_stake(env, voucher, borrower, 1)),
        w.call(|env| QuorumCreditContract::withdraw_vouch(env, voucher, borrower)),
    ] {
        assert_eq!(result, contract_error(ContractError::InvalidToken));
    }
}

#[test]
fn withdraw_returns_the_exact_stake() {
    let mut w = World::funded(0);
    let token = w.token;
    let (voucher, other, borrower) = (w.address(), w.address(), w.address());
    assert_eq!(
        w.call(|env| QuorumCreditContract::withdraw_vouch(env, voucher, borrower)),
        contract_error(ContractError::NoActiveLoan)
    );
    w.vouch(other, borrower, 300);
    let before = QuorumCreditContract::get_vouches(&w.env, borrower);
    assert_eq!(
        w.call(|env| QuorumCreditContract::withdraw_vouch(env, voucher, borrower)),
        contract_error(ContractError::UnauthorizedCaller)
    );
    w.vouch(voucher, borrower, 700);
    w.call(|env| QuorumCreditContract::withdraw_vouch(env, voucher, borrower)).unwrap();
    assert_eq!(w.balance(token, voucher), 700);
    assert_eq!(QuorumCreditContract::get_vouches(&w.env, borrower), before);
    assert_eq!(
        w.events.last(),
        Some(&Event::VouchWithdrawn { voucher, borrower, stake: 700 })
    );
    w.loan(borrower, 100, 300);
    assert_eq!(
        w.call(|env| QuorumCreditContract::withdraw_vouch(env, other, borrower)),
        trap(Trap::LoanAlreadyActive)
    );
}

#[test]
fn transfer_moves_a_vouch_and_its_history() {
    let mut w = World::funded(0);
    let (from, to, borrower) = (w.address(), w.address(), w.address());
    let transfer = |w: &mut World, from: Address, to: Address| {
        w.call(|env| QuorumCreditContract::transfer_vouch(env, from, to, borrower))
    };
    assert_eq!(transfer(&mut w, from, to), contract_error(ContractError::NoActiveLoan));
    w.vouch(from, borrower, 700);
    assert_eq!(transfer(&mut w, to, from), contract_error(ContractError::UnauthorizedCaller));
    transfer(&mut w, from, from).unwrap();
    transfer(&mut w, from, to).unwrap();
    assert!(!QuorumCreditContract::vouch_exists(&w.env, from, borrower));
    assert!(QuorumCreditContract::vouch_exists(&w.env, to, borrower));
    assert_eq!(QuorumCreditContract::voucher_history(&w.env, from), vec![]);
    assert_eq!(QuorumCreditContract::voucher_history(&w.env, to), vec![borrower]);

    // Into a vouch that is there already.
    w.env.now += 100_000;
    w.vouch(from, borrower, 300);
    transfer(&mut w, from, to).unwrap();
    assert_eq!(QuorumCreditContract::total_vouched(&w.env, borrower), Ok(1_000));
    assert_eq!(QuorumCreditContract::get_vouches(&w.env, borrower).unwrap().len(), 1);
    w.loan(borrower, 100, 700);
    assert_eq!(transfer(&mut w, to, from), trap(Trap::LoanAlreadyActive));
}

#[test]
fn transfer_that_overflows_is_refused() {
    let mut w = World::funded(0);
    let token = w.token;
    let (from, to, borrower) = (w.address(), w.address(), w.address());
    w.env.vouches.insert(
        borrower,
        vec![
            VouchRecord { voucher: from, stake: i128::MAX, vouch_timestamp: 0, token },
            VouchRecord { voucher: to, stake: 1, vouch_timestamp: 0, token },
        ],
    );
    assert_eq!(
        w.call(|env| QuorumCreditContract::transfer_vouch(env, from, to, borrower)),
        trap(Trap::Overflow)
    );
}

// Loans.

#[test]
fn loan_records_its_terms() {
    let mut w = World::funded(10_000_000);
    w.env.now = 5_000;
    let token = w.token;
    let (borrower, helper, voucher) = (w.address(), w.address(), w.address());
    w.vouch(voucher, borrower, 1_000_000);
    let holdings = w.holdings();
    w.call(|env| {
        QuorumCreditContract::request_loan(
            env,
            borrower,
            vec![helper],
            100_000,
            1_000_000,
            b"seed".to_vec(),
            token,
            holdings,
        )
    })
    .unwrap();
    let loan = QuorumCreditContract::get_loan(&w.env, borrower).unwrap();
    assert_eq!(loan.id, 1);
    assert_eq!(loan.co_borrowers, vec![helper]);
    assert_eq!(loan.total_yield, 2_000);
    assert_eq!(loan.created_at, 5_000);
    assert_eq!(loan.disbursement_timestamp, 5_000);
    assert_eq!(loan.deadline, 5_000 + 30 * 24 * 60 * 60);
    assert_eq!(loan.repayment_timestamp, None);
    assert_eq!(loan.loan_purpose, b"seed");
    assert_eq!(w.signed[w.signed.len() - 2..], [borrower, helper]);
    assert_eq!(QuorumCreditContract::get_loan_by_id(&w.env, 1).unwrap().amount, 100_000);
    assert!(QuorumCreditContract::get_loan_by_id(&w.env, 2).is_none());
    assert_eq!(QuorumCreditContract::is_eligible(&w.env, borrower, 1, token), Ok(false));
    assert_eq!(
        w.events.last(),
        Some(&Event::LoanDisbursed { borrower, amount: 100_000, deadline: loan.deadline })
    );
}

#[test]
fn loan_is_refused_for_each_reason() {
    let mut w = World::funded(1_000);
    let (borrower, voucher) = (w.address(), w.address());
    w.vouch(voucher, borrower, 1_000);

    let mut cfg = QuorumCreditContract::get_config(&w.env).unwrap();
    cfg.min_loan_amount = 10;
    let admins = w.admins();
    w.call(|env| QuorumCreditContract::set_config(env, admins, cfg)).unwrap();
    assert_eq!(w.try_loan(borrower, 9, 1), trap(Trap::LoanBelowMinimum));
    assert_eq!(w.try_loan(borrower, 10, 0), trap(Trap::ThresholdNotPositive));

    let admins = w.admins();
    w.call(|env| QuorumCreditContract::set_max_loan_amount(env, admins, 500)).unwrap();
    assert_eq!(QuorumCreditContract::get_max_loan_amount(&w.env), 500);
    assert_eq!(
        w.try_loan(borrower, 501, 1),
        contract_error(ContractError::LoanExceedsMaxAmount)
    );
    w.env.max_loan_amount = 0;

    let admins = w.admins();
    w.call(|env| QuorumCreditContract::set_min_vouchers(env, admins, 2)).unwrap();
    assert_eq!(QuorumCreditContract::get_min_vouchers(&w.env), 2);
    assert_eq!(
        w.try_loan(borrower, 100, 1),
        contract_error(ContractError::InsufficientVouchers)
    );
    w.env.min_vouchers = 1;

    // 150% of the stake
    assert_eq!(w.try_loan(borrower, 1_501, 1), trap(Trap::CollateralRatioExceeded));
    let token = w.token;
    let request = |w: &mut World, amount: i128, balance: i128| {
        w.call(|env| {
            QuorumCreditContract::request_loan(
                env,
                borrower,
                vec![],
                amount,
                1,
                vec![0xff, 0xfe],
                token,
                balance,
            )
        })
    };
    assert_eq!(
        request(&mut w, 1_500, 1_499),
        contract_error(ContractError::InsufficientFunds)
    );
    w.env.now = u64::MAX;
    assert_eq!(request(&mut w, 100, 1_000), trap(Trap::Overflow));
    w.env.now = 120;
    w.env.loan_counts.insert(borrower, u32::MAX);
    assert_eq!(request(&mut w, 100, 1_000), trap(Trap::Overflow));
    let _ = w.env.loan_counts.remove(&borrower);
    w.env.loan_counter = u64::MAX;
    assert_eq!(request(&mut w, 100, 1_000), trap(Trap::LoanIdOverflow));
    w.env.loan_counter = 0;
    request(&mut w, 1_500, 1_500).unwrap();
    // A purpose is kept byte for byte.
    let loan = QuorumCreditContract::get_loan(&w.env, borrower).unwrap();
    assert_eq!(loan.loan_purpose, vec![0xff, 0xfe]);
    w.env.paused = true;
    assert_eq!(
        request(&mut w, 100, 1_000),
        contract_error(ContractError::ContractPaused)
    );
}

#[test]
fn collateral_product_that_overflows_is_refused() {
    let mut w = World::funded(0);
    let token = w.token;
    let (borrower, voucher) = (w.address(), w.address());
    w.env.vouches.insert(
        borrower,
        vec![VouchRecord { voucher, stake: i128::MAX, vouch_timestamp: 0, token }],
    );
    assert_eq!(w.try_loan(borrower, 1, 1), trap(Trap::Overflow));
}

#[test]
fn repayment_is_refused_for_each_reason() {
    let mut w = World::funded(10_000);
    let (borrower, voucher, other) = (w.address(), w.address(), w.address());
    assert_eq!(w.try_repay(borrower, 1), contract_error(ContractError::NoActiveLoan));
    w.vouch(voucher, borrower, 1_000);
    w.loan(borrower, 500, 1_000);
    assert_eq!(w.try_repay(borrower, 0), trap(Trap::InvalidPayment));
    // 500 and a yield of 10
    assert_eq!(w.try_repay(borrower, 511), trap(Trap::InvalidPayment));
    w.env.active_loans.insert(other, 1);
    assert_eq!(w.try_repay(other, 1), contract_error(ContractError::UnauthorizedCaller));
    let _ = w.env.active_loans.remove(&other);
    let deadline = QuorumCreditContract::get_loan(&w.env, borrower).unwrap().deadline;
    w.env.now = deadline + 1;
    assert_eq!(w.try_repay(borrower, 1), trap(Trap::DeadlinePassed));
    w.env.now = deadline;
    // The stake of 1_000 and the yield of 10 cannot be paid out of 1_009.
    let result = w.call(|env| QuorumCreditContract::repay(env, borrower, 500, 509));
    assert_eq!(result, trap(Trap::InsufficientYieldBalance));
    let result = w.call(|env| QuorumCreditContract::repay(env, borrower, 500, i128::MAX));
    assert_eq!(result, trap(Trap::Overflow));
    w.env.paused = true;
    assert_eq!(w.try_repay(borrower, 1), contract_error(ContractError::ContractPaused));
    w.env.paused = false;
    w.try_repay(borrower, 500).unwrap();
    assert_eq!(w.try_repay(borrower, 1), contract_error(ContractError::NoActiveLoan));
}

#[test]
fn part_payments_add_up_to_one() {
    let mut w = World::funded(10_000);
    let (borrower, voucher) = (w.address(), w.address());
    w.vouch(voucher, borrower, 1_000);
    w.loan(borrower, 500, 1_000);
    w.try_repay(borrower, 100).unwrap();
    w.try_repay(borrower, 150).unwrap();
    let loan = QuorumCreditContract::get_loan(&w.env, borrower).unwrap();
    assert_eq!(loan.amount_repaid, 250);
    assert_eq!(loan.status, LoanStatus::Active);
    assert_eq!(QuorumCreditContract::repayment_count(&w.env, borrower), 0);
}

#[test]
fn yield_is_shared_in_proportion_and_rounded_down() {
    let mut w = World::funded(10_000);
    let token = w.token;
    let (borrower, a, b, c) = (w.address(), w.address(), w.address(), w.address());
    w.vouch(a, borrower, 1_000);
    w.vouch(b, borrower, 1_000);
    w.vouch(c, borrower, 1_000);
    w.loan(borrower, 500, 3_000);
    // The yield of 10 is 3 for each of them, and 1 stays.
    let before = w.holdings();
    w.mint(token, borrower, 10);
    w.try_repay(borrower, 510).unwrap();
    for voucher in [a, b, c] {
        assert_eq!(w.balance(token, voucher), 1_003);
    }
    assert_eq!(w.holdings(), before + 510 - 3_009);
    let loan = QuorumCreditContract::get_loan(&w.env, borrower).unwrap();
    assert_eq!(loan.repayment_timestamp, Some(120));
    assert_eq!(w.events.last(), Some(&Event::LoanRepaid { borrower, amount: 500 }));
}

#[test]
fn referral_bonus_is_no_more_than_the_yield() {
    let mut w = World::funded(10_000);
    let token = w.token;
    let (borrower, referrer, voucher) = (w.address(), w.address(), w.address());
    let admins = w.admins();
    w.call(|env| QuorumCreditContract::set_referral_bonus_bps(env, admins, 10_000)).unwrap();
    assert_eq!(QuorumCreditContract::get_referral_bonus_bps(&w.env), 10_000);
    w.call(|env| QuorumCreditContract::register_referral(env, borrower, referrer)).unwrap();
    w.vouch(voucher, borrower, 1_000);
    w.loan(borrower, 500, 1_000);
    w.try_repay(borrower, 500).unwrap();
    assert_eq!(w.balance(token, referrer), 10);
    assert_eq!(w.balance(token, voucher), 1_000);
}

#[test]
fn repayment_pays_every_voucher_in_its_own_token() {
    let mut w = World::funded(10_000);
    let token = w.token;
    let (borrower, a, b) = (w.address(), w.address(), w.address());
    let token2 = Address::Contract([9; 32]);
    w.allow(token2);
    w.vouch(a, borrower, 1_000);
    w.mint(token2, b, 400);
    w.try_vouch(b, borrower, 400, token2).unwrap();
    w.loan(borrower, 500, 1_000);
    w.try_repay(borrower, 500).unwrap();
    // The yield of 10 is shared by stake: 10 * 1_000 / 1_400 and 10 * 400 / 1_400.
    assert_eq!(w.balance(token, a), 1_007);
    assert_eq!(w.balance(token2, b), 400);
    assert_eq!(w.balance(token, b), 2);
    assert_eq!(QuorumCreditContract::get_vouches(&w.env, borrower), None);
    assert_eq!(w.holdings(), 10_000 - 9);
}

#[test]
fn admin_slash_cuts_every_stake() {
    for past_deadline in [false, true] {
        let mut w = World::funded(10_000);
        let token = w.token;
        let (borrower, a, b) = (w.address(), w.address(), w.address());
        let token2 = Address::Contract([9; 32]);
        w.allow(token2);
        w.vouch(a, borrower, 1_000);
        w.mint(token2, b, 400);
        w.try_vouch(b, borrower, 400, token2).unwrap();
        w.loan(borrower, 500, 1_000);
        if past_deadline {
            w.env.now = QuorumCreditContract::get_loan(&w.env, borrower).unwrap().deadline + 1;
            w.call(|env| QuorumCreditContract::auto_slash(env, borrower)).unwrap();
        } else {
            let admins = w.admins();
            w.call(|env| QuorumCreditContract::slash(env, admins, borrower)).unwrap();
        }
        assert_eq!(w.balance(token, a), 500);
        assert_eq!(w.balance(token2, b), 200);
        assert_eq!(QuorumCreditContract::get_slash_treasury(&w.env), 700);
        assert_eq!(QuorumCreditContract::get_vouches(&w.env, borrower), None);
    }
}

#[test]
fn transfer_never_changes_the_token_of_a_stake() {
    let mut w = World::funded(0);
    let token = w.token;
    let (from, to, borrower) = (w.address(), w.address(), w.address());
    let token2 = Address::Contract([9; 32]);
    w.allow(token2);
    w.vouch(to, borrower, 300);
    w.mint(token2, from, 700);
    w.try_vouch(from, borrower, 700, token2).unwrap();
    w.call(|env| QuorumCreditContract::transfer_vouch(env, from, to, borrower)).unwrap();
    let vouches = QuorumCreditContract::get_vouches(&w.env, borrower).unwrap();
    assert_eq!(vouches.len(), 2);
    assert_eq!((vouches[0].voucher, vouches[0].stake, vouches[0].token), (to, 300, token));
    assert_eq!((vouches[1].voucher, vouches[1].stake, vouches[1].token), (to, 700, token2));

    // Another vouch in the second token is merged into the one that is there.
    w.env.now += 100_000;
    w.mint(token2, from, 50);
    w.try_vouch(from, borrower, 50, token2).unwrap();
    w.call(|env| QuorumCreditContract::transfer_vouch(env, from, to, borrower)).unwrap();
    let vouches = QuorumCreditContract::get_vouches(&w.env, borrower).unwrap();
    assert_eq!(vouches.len(), 2);
    assert_eq!((vouches[1].voucher, vouches[1].stake, vouches[1].token), (to, 750, token2));
}

#[test]
fn two_payments_settle_as_one_does() {
    let settle = |payments: &[i128]| {
        let mut w = World::funded(10_000);
        let token = w.token;
        let (borrower, a, b) = (w.address(), w.address(), w.address());
        w.vouch(a, borrower, 600);
        w.vouch(b, borrower, 400);
        w.loan(borrower, 500, 1_000);
        for payment in payments {
            w.try_repay(borrower, *payment).unwrap();
        }
        let loan = QuorumCreditContract::get_loan(&w.env, borrower).unwrap();
        assert_eq!(loan.status, LoanStatus::Repaid);
        assert_eq!(QuorumCreditContract::repayment_count(&w.env, borrower), 1);
        assert_eq!(QuorumCreditContract::get_vouches(&w.env, borrower), None);
        (loan.amount_repaid, w.balance(token, a), w.balance(token, b), w.holdings())
    };
    assert_eq!(settle(&[500]), (500, 606, 404, 9_990));
    assert_eq!(settle(&[120, 380]), settle(&[500]));
}

#[test]
fn stakes_on_record_are_what_came_in() {
    let mut w = World::funded(0);
    let token = w.token;
    let (a, b, x, y) = (w.address(), w.address(), w.address(), w.address());
    w.vouch(a, x, 500);
    w.vouch(b, x, 300);
    w.env.now += 100_000;
    w.vouch(a, y, 200);
    w.mint(token, b, 40);
    w.call(|env| QuorumCreditContract::increase_stake(env, b, x, 40)).unwrap();
    w.call(|env| QuorumCreditContract::decrease_stake(env, a, x, 100)).unwrap();
    w.call(|env| QuorumCreditContract::withdraw_vouch(env, a, y)).unwrap();
    assert_eq!(QuorumCreditContract::total_vouched(&w.env, x), Ok(740));
    assert_eq!(QuorumCreditContract::total_vouched(&w.env, y), Ok(0));
    assert_eq!(w.holdings(), 740);
    assert!(!QuorumCreditContract::vouch_exists(&w.env, x, x));
    assert_eq!(w.try_vouch(x, x, 1, token), trap(Trap::SelfVouch));
}

#[test]
fn a_repaid_borrower_can_borrow_again_under_a_new_id() {
    let mut w = World::funded(10_000);
    let (borrower, voucher) = (w.address(), w.address());
    w.vouch(voucher, borrower, 1_000);
    w.loan(borrower, 500, 1_000);
    w.try_repay(borrower, 500).unwrap();
    w.env.now += 100_000;
    w.vouch(voucher, borrower, 1_000);
    w.loan(borrower, 400, 1_000);
    let loan = QuorumCreditContract::get_loan(&w.env, borrower).unwrap();
    assert_eq!((loan.id, loan.amount), (2, 400));
    assert_eq!(
        QuorumCreditContract::get_loan_by_id(&w.env, 1).unwrap().status,
        LoanStatus::Repaid
    );
    assert_eq!(QuorumCreditContract::loan_count(&w.env, borrower), 2);
}

// Slashing.

#[test]
fn slash_splits_the_stake_exactly() {
    let mut w = World::with_reputation();
    let token = w.token;
    let (borrower, a, b) = (w.address(), w.address(), w.address());
    let admins = w.admins();
    w.call(|env| QuorumCreditContract::update_config(env, admins, None, Some(3_333))).unwrap();
    w.vouch(a, borrower, 1_000);
    w.vouch(b, borrower, 7);
    w.loan(borrower, 500, 1_000);
    let before = w.holdings();
    let admins = w.admins();
    w.call(|env| QuorumCreditContract::slash(env, admins, borrower)).unwrap();
    // 1_000 * 3_333 / 10_000 and 7 * 3_333 / 10_000
    assert_eq!(QuorumCreditContract::get_slash_treasury(&w.env), 333 + 2);
    assert_eq!(w.balance(token, a), 667);
    assert_eq!(w.balance(token, b), 5);
    assert_eq!(w.holdings(), before - 672);
    assert_eq!(QuorumCreditContract::default_count(&w.env, borrower), 1);
    assert!(QuorumCreditContract::get_vouches(&w.env, borrower).is_none());
    assert_eq!(
        w.events.last(),
        Some(&Event::LoanSlashed { borrower, amount: 500, total_slashed: 335 })
    );
    // No second slash.
    let admins = w.admins();
    assert_eq!(
        w.call(|env| QuorumCreditContract::slash(env, admins, borrower)),
        contract_error(ContractError::NoActiveLoan)
    );
}

#[test]
fn a_full_slash_pays_nothing_back() {
    let mut w = World::funded(10_000);
    let token = w.token;
    let (borrower, voucher) = (w.address(), w.address());
    let admins = w.admins();
    w.call(|env| QuorumCreditContract::update_config(env, admins, None, Some(10_000))).unwrap();
    w.vouch(voucher, borrower, 1_000);
    w.loan(borrower, 500, 1_000);
    let admins = w.admins();
    w.call(|env| QuorumCreditContract::slash(env, admins, borrower)).unwrap();
    assert_eq!(w.balance(token, voucher), 0);
    assert_eq!(QuorumCreditContract::get_slash_treasury(&w.env), 1_000);
}

#[test]
fn slash_is_refused_for_each_reason() {
    let mut w = World::funded(10_000);
    let (borrower, voucher) = (w.address(), w.address());
    let admins = w.admins();
    assert_eq!(
        w.call(|env| QuorumCreditContract::slash(env, vec![], borrower)),
        trap(Trap::InsufficientApprovals)
    );
    assert_eq!(
        w.call(|env| QuorumCreditContract::slash(env, admins.clone(), borrower)),
        trap(Trap::NoActiveLoan)
    );
    w.vouch(voucher, borrower, 1_000);
    w.loan(borrower, 500, 1_000);
    w.env.slash_treasury = i128::MAX;
    assert_eq!(
        w.call(|env| QuorumCreditContract::slash(env, admins.clone(), borrower)),
        trap(Trap::Overflow)
    );
    w.env.slash_treasury = 0;
    w.env.default_counts.insert(borrower, u32::MAX);
    assert_eq!(
        w.call(|env| QuorumCreditContract::slash(env, admins.clone(), borrower)),
        trap(Trap::Overflow)
    );
    w.env.paused = true;
    assert_eq!(
        w.call(|env| QuorumCreditContract::slash(env, admins, borrower)),
        trap(Trap::ContractPaused)
    );
}

#[test]
fn auto_slash_waits_for_the_deadline() {
    let mut w = World::funded(10_000);
    let token = w.token;
    let (borrower, voucher) = (w.address(), w.address());
    let auto_slash = |w: &mut World| {
        w.call(|env| QuorumCreditContract::auto_slash(env, borrower))
    };
    assert_eq!(auto_slash(&mut w), trap(Trap::NoActiveLoan));
    w.vouch(voucher, borrower, 1_000);
    w.loan(borrower, 500, 1_000);
    let deadline = QuorumCreditContract::get_loan(&w.env, borrower).unwrap().deadline;
    w.env.now = deadline;
    assert_eq!(auto_slash(&mut w), trap(Trap::DeadlineNotPassed));
    w.env.now = deadline + 1;
    auto_slash(&mut w).unwrap();
    assert_eq!(w.status(borrower), LoanStatus::Defaulted);
    assert_eq!(w.balance(token, voucher), 500);
    assert_eq!(QuorumCreditContract::get_slash_treasury(&w.env), 500);
    assert_eq!(auto_slash(&mut w), contract_error(ContractError::NoActiveLoan));
}

#[test]
fn expired_loan_gives_all_stake_back() {
    let mut w = World::funded(10_000);
    let token = w.token;
    let (borrower, a, b) = (w.address(), w.address(), w.address());
    let claim = |w: &mut World| {
        w.call(|env| QuorumCreditContract::claim_expired_loan(env, borrower))
    };
    assert_eq!(claim(&mut w), trap(Trap::NoActiveLoan));
    w.vouch(a, borrower, 1_000);
    w.vouch(b, borrower, 500);
    w.loan(borrower, 500, 1_000);
    let deadline = QuorumCreditContract::get_loan(&w.env, borrower).unwrap().deadline;
    w.env.now = deadline - 1;
    assert_eq!(claim(&mut w), trap(Trap::LoanNotExpired));
    w.env.now = deadline;
    claim(&mut w).unwrap();
    assert_eq!(w.balance(token, a), 1_000);
    assert_eq!(w.balance(token, b), 500);
    assert_eq!(w.status(borrower), LoanStatus::Defaulted);
    assert_eq!(w.signed.last(), Some(&borrower));
    assert_eq!(QuorumCreditContract::default_count(&w.env, borrower), 1);
    assert_eq!(QuorumCreditContract::get_slash_treasury(&w.env), 0);
    assert_eq!(claim(&mut w), contract_error(ContractError::NoActiveLoan));
}

#[test]
fn treasury_is_emptied_once() {
    let mut w = World::funded(10_000);
    let token = w.token;
    let (borrower, voucher, recipient) = (w.address(), w.address(), w.address());
    let admins = w.admins();
    let withdraw = |w: &mut World| {
        let admins = w.admins();
        w.call(|env| QuorumCreditContract::slash_treasury(env, admins, recipient))
    };
    assert_eq!(withdraw(&mut w), trap(Trap::NoSlashedFunds));
    w.vouch(voucher, borrower, 1_000);
    w.loan(borrower, 500, 1_000);
    w.call(|env| QuorumCreditContract::slash(env, admins, borrower)).unwrap();
    withdraw(&mut w).unwrap();
    assert_eq!(w.balance(token, recipient), 500);
    assert_eq!(QuorumCreditContract::get_slash_treasury(&w.env), 0);
    assert_eq!(withdraw(&mut w), trap(Trap::NoSlashedFunds));
}

#[test]
fn vote_overflow_and_pause_are_refused() {
    let mut w = World::funded(10_000);
    let token = w.token;
    let (borrower, voucher) = (w.address(), w.address());
    w.vouch(voucher, borrower, 1_000);
    w.loan(borrower, 500, 1_000);
    w.env.vouches.insert(
        borrower,
        vec![VouchRecord { voucher, stake: i128::MAX, vouch_timestamp: 0, token }],
    );
    assert_eq!(w.try_vote(voucher, borrower, true), trap(Trap::Overflow));
    w.env.paused = true;
    assert_eq!(
        w.try_vote(voucher, borrower, true),
        contract_error(ContractError::ContractPaused)
    );
}

// Proposals.

#[test]
fn proposal_is_executed_in_its_window_and_once() {
    let mut w = World::funded(10_000);
    let (borrower, voucher) = (w.address(), w.address());
    let admin = w.admin;
    w.vouch(voucher, borrower, 1_000);
    w.loan(borrower, 500, 1_000);
    let id = w
        .call(|env| QuorumCreditContract::propose_slash(env, admin, borrower, 1_000))
        .unwrap();
    assert_eq!(id, 1);
    let proposal = QuorumCreditContract::get_timelock_proposal(&w.env, id).unwrap();
    assert_eq!((proposal.id, proposal.eta, proposal.proposer), (1, 1_120, admin));
    assert!(matches!(proposal.action, TimelockAction::Slash(b) if b == borrower));
    let execute = |w: &mut World| {
        w.call(|env| QuorumCreditContract::execute_slash_proposal(env, id))
    };
    w.env.now = 1_119;
    assert_eq!(execute(&mut w), contract_error(ContractError::NoActiveLoan));
    w.env.now = 1_120 + 72 * 60 * 60 + 1;
    assert_eq!(execute(&mut w), contract_error(ContractError::NoActiveLoan));
    w.env.now = 1_120 + 72 * 60 * 60;
    w.env.paused = true;
    assert_eq!(execute(&mut w), contract_error(ContractError::ContractPaused));
    w.env.paused = false;
    execute(&mut w).unwrap();
    assert_eq!(w.status(borrower), LoanStatus::Defaulted);
    assert_eq!(
        w.events[w.events.len() - 2..],
        [
            Event::GovernanceSlashed { borrower, total_slashed: 500 },
            Event::ProposalExecuted { proposal_id: 1, borrower },
        ]
    );
    assert_eq!(execute(&mut w), contract_error(ContractError::SlashAlreadyExecuted));
    assert_eq!(
        w.call(|env| QuorumCreditContract::cancel_slash_proposal(env, admin, id)),
        contract_error(ContractError::SlashAlreadyExecuted)
    );
}

#[test]
fn cancelled_proposal_is_never_executed() {
    let mut w = World::funded(10_000);
    let (borrower, voucher, stranger) = (w.address(), w.address(), w.address());
    let admin = w.admin;
    w.vouch(voucher, borrower, 1_000);
    w.loan(borrower, 500, 1_000);
    let id =
        w.call(|env| QuorumCreditContract::propose_slash(env, admin, borrower, 0)).unwrap();
    let cancel = |w: &mut World, caller: Address, id: u64| {
        w.call(|env| QuorumCreditContract::cancel_slash_proposal(env, caller, id))
    };
    assert_eq!(cancel(&mut w, admin, 7), contract_error(ContractError::NoActiveLoan));
    assert_eq!(cancel(&mut w, stranger, id), trap(Trap::NotProposer));
    cancel(&mut w, admin, id).unwrap();
    assert_eq!(
        cancel(&mut w, admin, id),
        contract_error(ContractError::SlashAlreadyExecuted)
    );
    assert_eq!(
        w.call(|env| QuorumCreditContract::execute_slash_proposal(env, id)),
        contract_error(ContractError::NoActiveLoan)
    );
    assert_eq!(w.status(borrower), LoanStatus::Active);
}

#[test]
fn proposals_are_refused_for_each_reason() {
    let mut w = World::funded(10_000);
    let (borrower, stranger) = (w.address(), w.address());
    let admin = w.admin;
    let propose = |w: &mut World, who: Address, delay: u64| {
        w.call(|env| QuorumCreditContract::propose_slash(env, who, borrower, delay))
    };
    assert_eq!(
        propose(&mut w, stranger, 0),
        contract_error(ContractError::UnauthorizedCaller)
    );
    assert_eq!(propose(&mut w, admin, u64::MAX), trap(Trap::Overflow));
    w.env.proposal_counter = u64::MAX;
    assert_eq!(propose(&mut w, admin, 0), trap(Trap::ProposalIdOverflow));
    w.env.proposal_counter = 0;
    assert_eq!(
        w.call(|env| QuorumCreditContract::execute_slash_proposal(env, 1)),
        contract_error(ContractError::NoActiveLoan)
    );
    let config = QuorumCreditContract::get_config(&w.env).unwrap();
    w.env.proposals.insert(
        5,
        TimelockProposal {
            id: 5,
            action: TimelockAction::SetConfig(config),
            proposer: admin,
            eta: 0,
            executed: false,
            cancelled: false,
        },
    );
    assert_eq!(
        w.call(|env| QuorumCreditContract::execute_slash_proposal(env, 5)),
        contract_error(ContractError::NoActiveLoan)
    );
    w.env.paused = true;
    assert_eq!(
        propose(&mut w, admin, 0),
        contract_error(ContractError::ContractPaused)
    );
}

#[test]
fn a_loan_that_has_defaulted_is_not_slashed_again() {
    let mut w = World::funded(10_000);
    let (borrower, voucher) = (w.address(), w.address());
    let admin = w.admin;
    w.vouch(voucher, borrower, 1_000);
    w.loan(borrower, 500, 1_000);
    let id =
        w.call(|env| QuorumCreditContract::propose_slash(env, admin, borrower, 0)).unwrap();
    let mut loan = w.env.loans.remove(&1).unwrap();
    loan.status = LoanStatus::Defaulted;
    w.env.loans.insert(1, loan);
    assert_eq!(
        w.call(|env| QuorumCreditContract::execute_slash_proposal(env, id)),
        trap(Trap::AlreadyDefaulted)
    );
}

// Pools.

#[test]
fn pool_is_refused_for_each_reason() {
    let mut w = World::funded(1_000);
    let (a, b) = (w.address(), w.address());
    let pool = |w: &mut World, borrowers: Vec<Address>, amounts: Vec<i128>| {
        let (admins, holdings) = (w.admins(), w.holdings());
        w.call(|env| {
            QuorumCreditContract::create_loan_pool(env, admins, borrowers, amounts, holdings)
        })
    };
    assert_eq!(
        pool(&mut w, vec![a, b], vec![600, 401]),
        contract_error(ContractError::InsufficientFunds)
    );
    assert_eq!(
        pool(&mut w, vec![a, b], vec![600, 0]),
        contract_error(ContractError::InsufficientFunds)
    );
    assert_eq!(
        pool(&mut w, vec![a, a], vec![1, 1]),
        contract_error(ContractError::PoolBorrowerActiveLoan)
    );
    assert_eq!(
        pool(&mut w, vec![a, b], vec![i128::MAX, 1]),
        trap(Trap::Overflow)
    );
    w.env.loan_counter = u64::MAX - 1;
    assert_eq!(pool(&mut w, vec![a, b], vec![1, 1]), trap(Trap::LoanIdOverflow));
    w.env.loan_counter = 0;
    w.env.pool_counter = u64::MAX;
    assert_eq!(pool(&mut w, vec![a, b], vec![1, 1]), trap(Trap::PoolIdOverflow));
    w.env.pool_counter = 0;
    w.env.now = u64::MAX;
    assert_eq!(pool(&mut w, vec![a, b], vec![1, 1]), trap(Trap::Overflow));
    w.env.now = 120;
    w.env.paused = true;
    assert_eq!(
        pool(&mut w, vec![a, b], vec![1, 1]),
        contract_error(ContractError::ContractPaused)
    );
    w.env.paused = false;
    assert_eq!(pool(&mut w, vec![a, b], vec![600, 400]), Ok(1));
    assert_eq!(w.holdings(), 0);
    assert_eq!(QuorumCreditContract::loan_count(&w.env, a), 1);
    assert_eq!(w.status(b), LoanStatus::Active);
}

// Admins.

#[test]
fn initialisation_is_checked() {
    let (deployer, a, b) = (account(5), account(6), account(7));
    let token = Address::Contract([2; 32]);
    let zero = Address::Account([0; 32]);
    let init = |admins: Vec<Address>, threshold: u32, token: Address, responds: bool| {
        let mut w = World::empty();
        w.call(|env| {
            QuorumCreditContract::initialize(env, deployer, admins, threshold, token, responds)
        })
    };
    assert_eq!(init(vec![], 1, token, true), trap(Trap::NoAdmins));
    assert_eq!(init(vec![a], 0, token, true), trap(Trap::ZeroAdminThreshold));
    assert_eq!(init(vec![a], 2, token, true), trap(Trap::AdminThresholdTooHigh));
    assert_eq!(init(vec![a, b, a], 2, token, true), trap(Trap::DuplicateAdmin));
    assert_eq!(
        init(vec![a, zero], 2, token, true),
        contract_error(ContractError::ZeroAddress)
    );
    assert_eq!(
        init(vec![a], 1, Address::Contract([0; 32]), true),
        contract_error(ContractError::ZeroAddress)
    );
    assert_eq!(
        init(vec![a], 1, token, false),
        contract_error(ContractError::InvalidToken)
    );
    assert_eq!(init(vec![a, b], 2, token, true), Ok(()));

    let mut w = World::funded(0);
    let result =
        w.call(|env| QuorumCreditContract::initialize(env, deployer, vec![a], 1, token, true));
    assert_eq!(result, contract_error(ContractError::AlreadyInitialized));
    assert_eq!(QuorumCreditContract::get_token(&w.env), Ok(w.token));
    assert_eq!(QuorumCreditContract::get_admin_threshold(&w.env), Ok(1));
    assert!(matches!(w.events[0], Event::Initialized { admin_threshold: 1, .. }));
}

#[test]
fn views_of_an_empty_ledger_fail() {
    let w = World::empty();
    assert!(!QuorumCreditContract::is_initialized(&w.env));
    assert_eq!(QuorumCreditContract::get_token(&w.env), trap(Trap::NotInitialized));
    assert_eq!(QuorumCreditContract::get_admins(&w.env), trap(Trap::NotInitialized));
    assert_eq!(QuorumCreditContract::get_admin_threshold(&w.env), trap(Trap::NotInitialized));
    assert!(QuorumCreditContract::get_config(&w.env).is_err());
    assert_eq!(
        QuorumCreditContract::get_max_loan_to_stake_ratio(&w.env),
        trap(Trap::NotInitialized)
    );
}

#[test]
fn admins_are_added_removed_and_rotated() {
    let mut w = World::funded(0);
    let (a, b, c) = (w.admin, account(6), account(7));
    w.call(|env| QuorumCreditContract::add_admin(env, vec![a], b)).unwrap();
    assert_eq!(QuorumCreditContract::get_admins(&w.env), Ok(vec![a, b]));
    assert_eq!(
        w.events.last(),
        Some(&Event::AdminsChanged { old_admins: vec![a], new_admins: vec![a, b] })
    );
    assert_eq!(
        w.call(|env| QuorumCreditContract::add_admin(env, vec![a], b)),
        trap(Trap::DuplicateAdmin)
    );
    assert_eq!(
        w.call(|env| QuorumCreditContract::add_admin(env, vec![a], Address::Account([0; 32]))),
        contract_error(ContractError::ZeroAddress)
    );
    w.call(|env| QuorumCreditContract::set_admin_threshold(env, vec![a], 2)).unwrap();
    assert_eq!(
        w.call(|env| QuorumCreditContract::pause(env, vec![a])),
        trap(Trap::InsufficientApprovals)
    );
    assert_eq!(
        w.call(|env| QuorumCreditContract::set_admin_threshold(env, vec![a, b], 3)),
        trap(Trap::AdminThresholdTooHigh)
    );
    assert_eq!(
        w.call(|env| QuorumCreditContract::remove_admin(env, vec![a, b], b)),
        trap(Trap::AdminThresholdTooHigh)
    );
    w.call(|env| QuorumCreditContract::rotate_admin(env, vec![a, b], b, c)).unwrap();
    assert_eq!(QuorumCreditContract::get_admins(&w.env), Ok(vec![a, c]));
    assert_eq!(
        w.call(|env| QuorumCreditContract::rotate_admin(env, vec![a, c], b, c)),
        trap(Trap::AdminNotFound)
    );
    assert_eq!(
        w.call(|env| QuorumCreditContract::rotate_admin(env, vec![a, c], a, c)),
        trap(Trap::DuplicateAdmin)
    );
    w.call(|env| QuorumCreditContract::set_admin_threshold(env, vec![a, c], 1)).unwrap();
    w.call(|env| QuorumCreditContract::remove_admin(env, vec![c], a)).unwrap();
    assert_eq!(QuorumCreditContract::get_admins(&w.env), Ok(vec![c]));
    assert_eq!(
        w.call(|env| QuorumCreditContract::remove_admin(env, vec![c], a)),
        trap(Trap::AdminNotFound)
    );
    assert_eq!(
        w.call(|env| QuorumCreditContract::remove_admin(env, vec![c], c)),
        trap(Trap::NoAdmins)
    );
}

#[test]
fn parameters_are_checked() {
    let mut w = World::funded(0);
    let admins = w.admins();
    let a = || admins.clone();
    type Contract = QuorumCreditContract;
    assert_eq!(
        w.call(|env| Contract::set_min_stake(env, a(), -1)),
        trap(Trap::NegativeMinStake)
    );
    assert_eq!(
        w.call(|env| Contract::set_max_loan_amount(env, a(), -1)),
        trap(Trap::NegativeMaxLoanAmount)
    );
    assert_eq!(
        w.call(|env| Contract::set_max_loan_to_stake_ratio(env, a(), 0)),
        trap(Trap::ZeroLoanToStakeRatio)
    );
    w.call(|env| Contract::set_max_loan_to_stake_ratio(env, a(), 200)).unwrap();
    assert_eq!(Contract::get_max_loan_to_stake_ratio(&w.env), Ok(200));
    assert_eq!(
        w.call(|env| Contract::set_protocol_fee(env, a(), 10_001)),
        trap(Trap::FeeTooHigh)
    );
    w.call(|env| Contract::set_protocol_fee(env, a(), 10_000)).unwrap();
    assert_eq!(Contract::get_protocol_fee(&w.env), 10_000);
    assert_eq!(
        w.call(|env| Contract::set_referral_bonus_bps(env, a(), 10_001)),
        trap(Trap::BonusTooHigh)
    );
    assert_eq!(
        w.call(|env| Contract::set_slash_vote_quorum(env, a(), 0)),
        trap(Trap::QuorumOutOfRange)
    );
    assert_eq!(
        w.call(|env| Contract::set_slash_vote_quorum(env, a(), 10_001)),
        trap(Trap::QuorumOutOfRange)
    );
    assert_eq!(
        w.call(|env| Contract::update_config(env, a(), Some(-1), None)),
        trap(Trap::NegativeYield)
    );
    assert_eq!(
        w.call(|env| Contract::update_config(env, a(), Some(1), Some(0))),
        trap(Trap::SlashBpsOutOfRange)
    );
    w.call(|env| Contract::update_config(env, a(), Some(7), None)).unwrap();
    let cfg = Contract::get_config(&w.env).unwrap();
    assert_eq!((cfg.yield_bps, cfg.slash_bps), (7, 5_000));

    let try_config = |w: &mut World, change: fn(&mut Config)| {
        let mut cfg = Contract::get_config(&w.env).unwrap();
        change(&mut cfg);
        w.call(|env| Contract::set_config(env, a(), cfg))
    };
    assert_eq!(try_config(&mut w, |c| c.yield_bps = -1), trap(Trap::NegativeYield));
    assert_eq!(try_config(&mut w, |c| c.slash_bps = 10_001), trap(Trap::SlashBpsOutOfRange));
    assert_eq!(try_config(&mut w, |c| c.max_vouchers = 0), trap(Trap::ZeroMaxVouchers));
    assert_eq!(try_config(&mut w, |c| c.min_loan_amount = 0), trap(Trap::MinLoanNotPositive));
    assert_eq!(try_config(&mut w, |c| c.loan_duration = 0), trap(Trap::ZeroLoanDuration));
    assert_eq!(
        try_config(&mut w, |c| c.max_loan_to_stake_ratio = 0),
        trap(Trap::ZeroLoanToStakeRatio)
    );
    assert_eq!(try_config(&mut w, |c| c.admins = vec![]), trap(Trap::NoAdmins));
    let events = w.events.len();
    assert_eq!(try_config(&mut w, |c| c.grace_period = 9), Ok(()));
    assert_eq!(w.events.len(), events);
    assert_eq!(try_config(&mut w, |c| c.admins.push(account(9))), Ok(()));
    assert!(matches!(w.events.last(), Some(Event::AdminsChanged { .. })));

    w.call(|env| Contract::whitelist_voucher(env, a(), account(3))).unwrap();
    assert!(Contract::is_whitelisted(&w.env, account(3)));
    assert!(!Contract::is_whitelisted(&w.env, account(4)));
    w.call(|env| Contract::set_fee_treasury(env, a(), account(3))).unwrap();
    assert_eq!(Contract::get_fee_treasury(&w.env), Some(account(3)));
}

#[test]
fn pausing_stops_and_unpausing_resumes() {
    let mut w = World::funded(0);
    let token = w.token;
    let (voucher, borrower) = (w.address(), w.address());
    let admins = w.admins();
    w.call(|env| QuorumCreditContract::pause(env, admins.clone())).unwrap();
    assert!(QuorumCreditContract::get_paused(&w.env));
    w.mint(token, voucher, 100);
    assert_eq!(
        w.try_vouch(voucher, borrower, 100, token),
        contract_error(ContractError::ContractPaused)
    );
    assert_eq!(
        w.call(|env| QuorumCreditContract::register_referral(env, borrower, voucher)),
        contract_error(ContractError::ContractPaused)
    );
    w.call(|env| QuorumCreditContract::unpause(env, admins)).unwrap();
    assert!(!QuorumCreditContract::get_paused(&w.env));
    w.try_vouch(voucher, borrower, 100, token).unwrap();
}

#[test]
fn upgrade_asks_for_new_code() {
    let mut w = World::funded(0);
    let admins = w.admins();
    assert_eq!(QuorumCreditContract::upgrade(&mut w.env, admins, [8; 32]), Ok(()));
    assert_eq!(
        w.env.effects,
        vec![
            Effect::RequireAuth(w.admin),
            Effect::UpdateWasm { wasm_hash: [8; 32] },
            Effect::Publish(Event::Upgraded { wasm_hash: [8; 32] }),
        ]
    );
    let stranger = account(77);
    w.env.effects.clear();
    assert_eq!(
        QuorumCreditContract::upgrade(&mut w.env, vec![stranger], [8; 32]),
        trap(Trap::NotAnAdmin)
    );
}

#[test]
fn loans_are_listed_page_by_page() {
    let mut w = World::funded(10_000);
    let admin = w.admin;
    let mut borrowers = Vec::new();
    for amount in 1..4 {
        let borrower = w.address();
        let (admins, holdings) = (w.admins(), w.holdings());
        w.call(|env| {
            QuorumCreditContract::create_loan_pool(
                env,
                admins,
                vec![borrower],
                vec![amount],
                holdings,
            )
        })
        .unwrap();
        borrowers.push(borrower);
    }
    let page = |w: &World, caller: Address, page: u32, size: u32| {
        QuorumCreditContract::get_all_loans(&w.env, caller, page, size)
            .map(|loans| loans.iter().map(|loan| loan.amount).collect::<Vec<i128>>())
    };
    assert_eq!(page(&w, admin, 0, 2), Ok(vec![1, 2]));
    assert_eq!(page(&w, admin, 1, 2), Ok(vec![3]));
    assert_eq!(page(&w, admin, 2, 2), Ok(vec![]));
    assert_eq!(page(&w, admin, 0, u32::MAX), Ok(vec![1, 2, 3]));
    assert_eq!(page(&w, borrowers[0], 0, 2), trap(Trap::Unauthorized));
    assert_eq!(page(&w, admin, 0, 0), trap(Trap::ZeroPageSize));
    assert_eq!(page(&w, admin, 2, u32::MAX), trap(Trap::Overflow));
    assert_eq!(page(&World::empty(), admin, 0, 2), trap(Trap::NotInitialized));
}

#[test]
fn one_voucher_with_two_tokens_counts_once() {
    let mut w = World::funded(10_000);
    let (a, b, borrower) = (w.address(), w.address(), w.address());
    let token2 = Address::Contract([9; 32]);
    w.allow(token2);
    let admins = w.admins();
    w.call(|env| QuorumCreditContract::set_min_vouchers(env, admins, 2)).unwrap();
    w.vouch(a, borrower, 1_000);
    w.env.now += 100_000;
    w.mint(token2, a, 1_000);
    w.try_vouch(a, borrower, 1_000, token2).unwrap();
    assert_eq!(
        w.try_loan(borrower, 100, 1_000),
        contract_error(ContractError::InsufficientVouchers)
    );
    w.vouch(b, borrower, 1_000);
    w.loan(borrower, 100, 1_000);
    assert_eq!(w.holdings(), 10_000 + 2_000 - 100);
}

#[test]
fn a_batch_and_a_pool_move_the_sum_of_their_amounts() {
    let mut w = World::funded(10_000);
    let token = w.token;
    let (voucher, x, y) = (w.address(), w.address(), w.address());
    w.mint(token, voucher, 300);
    w.call(|env| {
        QuorumCreditContract::batch_vouch(env, voucher, vec![x, y], vec![100, 200], token)
    })
    .unwrap();
    assert_eq!(w.holdings(), 10_300);
    let (admins, holdings) = (w.admins(), w.holdings());
    w.call(|env| {
        QuorumCreditContract::create_loan_pool(env, admins, vec![x, y], vec![40, 60], holdings)
    })
    .unwrap();
    assert_eq!(w.holdings(), 10_200);
    assert_eq!(QuorumCreditContract::get_loan_pool(&w.env, 1).unwrap().total_disbursed, 100);
}
