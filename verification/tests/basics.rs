use quorum_credit::helpers;
use quorum_credit::math;
use quorum_credit::reputation::{ReputationEnv, ReputationNftContract};
use quorum_credit::table::Table;
use quorum_credit::{Address, ContractError, Env, Failure, Trap};

fn env() -> Env {
    Env::new(0, Address::Contract([1; 32]))
}

fn account(n: u8) -> Address {
    Address::Account([n; 32])
}

#[test]
fn zero_addresses_are_recognised() {
    assert!(helpers::is_zero_address(&env(), &Address::Account([0; 32])));
    assert!(helpers::is_zero_address(&env(), &Address::Contract([0; 32])));
    let mut key = [0; 32];
    key[31] = 1;
    assert!(!helpers::is_zero_address(&env(), &Address::Account(key)));
    assert!(!helpers::is_zero_address(&env(), &Address::Contract([1; 32])));
    assert_eq!(
        helpers::require_valid_address(&env(), &Address::Contract([0; 32])),
        Err(ContractError::ZeroAddress)
    );
    assert_eq!(helpers::require_valid_address(&env(), &account(1)), Ok(()));
}

#[test]
fn accounts_and_contracts_with_the_same_bytes_differ() {
    assert_ne!(Address::Account([1; 32]), Address::Contract([1; 32]));
    assert_eq!(account(1), account(1));
    assert_ne!(account(1), account(2));
}

#[test]
fn tokens_are_validated() {
    assert_eq!(helpers::require_valid_token(&env(), &account(1), true), Ok(()));
    assert_eq!(
        helpers::require_valid_token(&env(), &account(1), false),
        Err(ContractError::InvalidToken)
    );
    assert_eq!(
        helpers::require_valid_token(&env(), &account(0), true),
        Err(ContractError::ZeroAddress)
    );
}

#[test]
fn basis_points_round_towards_zero() {
    assert_eq!(helpers::bps_of(100_000, 500), 5_000);
    assert_eq!(helpers::bps_of(49, 200), 0);
    assert_eq!(helpers::bps_of(50, 200), 1);
    assert_eq!(helpers::bps_of(-99, 200), -1);
    assert_eq!(helpers::bps_of(7, 10_000), 7);
}

#[test]
fn portions_are_checked_for_overflow() {
    assert_eq!(math::portion(10, 3, 4), Some(7));
    assert_eq!(math::portion(-10, 3, 4), Some(-7));
    assert_eq!(math::portion(i128::MAX, 2, 4), None);
}

#[test]
fn amounts_must_be_positive() {
    assert_eq!(helpers::require_positive_amount(&env(), 1), Ok(()));
    assert_eq!(
        helpers::require_positive_amount(&env(), 0),
        Err(ContractError::InsufficientFunds)
    );
}

#[test]
fn paused_contract_is_reported() {
    let mut env = env();
    assert_eq!(helpers::require_not_paused(&env), Ok(()));
    env.paused = true;
    assert_eq!(helpers::require_not_paused(&env), Err(ContractError::ContractPaused));
}

#[test]
fn loan_ids_count_up_from_one() {
    let mut env = env();
    assert_eq!(helpers::next_loan_id(&mut env), Ok(1));
    assert_eq!(helpers::next_loan_id(&mut env), Ok(2));
    env.loan_counter = u64::MAX;
    assert_eq!(helpers::next_loan_id(&mut env), Err(Failure::Trap(Trap::LoanIdOverflow)));
    assert_eq!(env.loan_counter, u64::MAX);
}

#[test]
fn slash_balance_grows_and_does_not_overflow() {
    let mut env = env();
    helpers::add_slash_balance(&mut env, 40).unwrap();
    helpers::add_slash_balance(&mut env, 2).unwrap();
    assert_eq!(env.slash_treasury, 42);
    assert_eq!(
        helpers::add_slash_balance(&mut env, i128::MAX),
        Err(Failure::Trap(Trap::Overflow))
    );
    assert_eq!(env.slash_treasury, 42);
}

#[test]
fn an_empty_ledger_has_no_loans_and_no_config() {
    let env = env();
    assert!(!helpers::has_active_loan(&env, &account(1)));
    assert!(matches!(
        helpers::get_active_loan_record(&env, &account(1)),
        Err(ContractError::NoActiveLoan)
    ));
    assert!(helpers::get_latest_loan_record(&env, &account(1)).is_none());
    assert!(matches!(helpers::config(&env), Err(Failure::Trap(Trap::NotInitialized))));
    assert_eq!(helpers::token(&env), Err(Failure::Trap(Trap::NotInitialized)));
    assert_eq!(
        helpers::require_allowed_token(&env, &account(1)),
        Err(Failure::Trap(Trap::NotInitialized))
    );
    let mut env = env;
    assert_eq!(
        helpers::require_admin_approval(&mut env, &vec![]),
        Err(Failure::Trap(Trap::NotInitialized))
    );
}

#[test]
fn admin_lists_are_validated_in_order() {
    let check = |admins: Vec<Address>, threshold: u32| {
        helpers::validate_admin_config(&env(), &admins, threshold)
    };
    assert_eq!(check(vec![account(1), account(2)], 2), Ok(()));
    // The first problem in the list is the one reported.
    assert_eq!(
        check(vec![account(1), account(1), account(0)], 1),
        Err(Failure::Trap(Trap::DuplicateAdmin))
    );
    assert_eq!(
        check(vec![account(1), account(0), account(1)], 1),
        Err(Failure::Contract(ContractError::ZeroAddress))
    );
}

#[test]
fn table_holds_one_value_per_key() {
    let mut table: Table<u64, u64> = Table::new();
    assert_eq!(table.get(&1), None);
    table.insert(1, 10);
    table.insert(2, 20);
    table.insert(1, 11);
    assert_eq!(table.get(&1), Some(&11));
    assert_eq!(table.get(&2), Some(&20));
    assert!(table.contains_key(&2));
    assert_eq!(table.remove(&1), Some(11));
    assert_eq!(table.remove(&1), None);
    assert_eq!(table.get(&1), None);
    assert_eq!(table.get(&2), Some(&20));
}

#[test]
fn traps_have_their_words() {
    assert_eq!(Trap::SelfVouch.message(), "voucher cannot vouch for self");
    assert_eq!(Trap::LoanIdOverflow.message(), "loan ID overflow");
    assert_eq!(Trap::InvalidPayment.message(), "invalid payment amount");
}

#[test]
fn reputation_is_minted_and_burnt() {
    let (minter, borrower) = (account(1), account(2));
    let mut scores = ReputationEnv::new();
    assert_eq!(
        ReputationNftContract::mint(&mut scores, borrower),
        Err(Failure::Trap(Trap::NotInitialized))
    );
    assert_eq!(
        ReputationNftContract::burn(&mut scores, borrower),
        Err(Failure::Trap(Trap::NotInitialized))
    );
    ReputationNftContract::initialize(&mut scores, minter).unwrap();
    assert_eq!(
        ReputationNftContract::initialize(&mut scores, borrower),
        Err(Failure::Trap(Trap::AlreadyInitialized))
    );
    assert_eq!(ReputationNftContract::mint(&mut scores, borrower), Ok(minter));
    assert_eq!(ReputationNftContract::balance(&scores, borrower), 1);
    assert_eq!(ReputationNftContract::balance(&scores, minter), 0);
    assert_eq!(ReputationNftContract::burn(&mut scores, borrower), Ok(minter));
    assert_eq!(ReputationNftContract::burn(&mut scores, borrower), Ok(minter));
    assert_eq!(ReputationNftContract::balance(&scores, borrower), 0);
    scores.scores.insert(borrower, u32::MAX);
    assert_eq!(
        ReputationNftContract::mint(&mut scores, borrower),
        Err(Failure::Trap(Trap::Overflow))
    );
}

#[test]
fn addresses_are_serialised_as_the_host_does() {
    let mut account = [7; 32];
    account[0] = 1;
    let mut contract = [9; 32];
    contract[31] = 2;
    let env = soroban_sdk::Env::default();
    for address in [Address::Account(account), Address::Contract(contract), account_zero()] {
        let xdr = address.to_xdr();
        let bytes = soroban_sdk::Bytes::from_slice(&env, &xdr);
        let hosted: soroban_sdk::Address =
            soroban_sdk::xdr::FromXdr::from_xdr(&env, &bytes).unwrap();
        let again = soroban_sdk::xdr::ToXdr::to_xdr(hosted, &env);
        assert_eq!(again.iter().collect::<Vec<u8>>(), xdr);
        assert_eq!(Address::from_xdr(&xdr), Some(address));
    }
}

fn account_zero() -> Address {
    Address::Account([0; 32])
}

#[test]
fn bytes_that_are_no_address_are_refused() {
    assert_eq!(Address::from_xdr(&vec![]), None);
    assert_eq!(Address::from_xdr(&vec![0; 40]), None);
    let mut xdr = Address::Contract([5; 32]).to_xdr();
    xdr.push(0);
    assert_eq!(Address::from_xdr(&xdr), None);
    let mut xdr = Address::Account([5; 32]).to_xdr();
    xdr[7] = 1;
    assert_eq!(Address::from_xdr(&xdr), None);
}
