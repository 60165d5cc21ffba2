use state_machine::balances::Pallet;

#[test]
fn init_balances() {
    let mut ballances = Pallet::new();

    assert_eq!(ballances.balance(&String::from("alice")), 0);
    assert_eq!(ballances.balance(&String::from("bob")), 0);

    ballances.set_balance(&String::from("alice"), 100);

    assert_eq!(ballances.balance(&String::from("alice")), 100);
    assert_eq!(ballances.balance(&String::from("bob")), 0);
}

#[test]
fn transfer_without_balance() {
    let mut ballances = Pallet::new();

    let result = ballances.transfer(String::from("alice"), String::from("bob"), 100);

    assert!(result.is_err_and(|e| e.message() == "Balance not enough for the transfer"));
}

#[test]
fn transfer_balance() {
    let mut ballances = Pallet::new();
    let transfer_result = ballances.transfer(String::from("alice"), String::from("bob"), 100);
    assert!(transfer_result.is_err_and(|e| e.message() == "Balance not enough for the transfer"));

    ballances.set_balance(&String::from("alice"), 100);
    assert_eq!(ballances.balance(&String::from("alice")), 100);
    assert_eq!(ballances.balance(&String::from("bob")), 0);

    let transfer_result =
        ballances.transfer(String::from("alice"), String::from("bob").clone(), 100);
    assert!(transfer_result.is_ok());
    assert_eq!(ballances.balance(&String::from("alice")), 0);
    assert_eq!(ballances.balance(&String::from("bob")), 100);
}

#[test]
fn set_balance_overwrites() {
    let mut balances = Pallet::new();

    balances.set_balance(&String::from("alice"), 100);
    assert_eq!(balances.balance(&String::from("alice")), 100);

    balances.set_balance(&String::from("alice"), 42);
    assert_eq!(balances.balance(&String::from("alice")), 42);
}

#[test]
fn transfer_insufficient_funds_mutates_nothing() {
    let mut balances = Pallet::new();
    balances.set_balance(&String::from("alice"), 10);
    balances.set_balance(&String::from("bob"), 7);

    let result = balances.transfer(String::from("alice"), String::from("bob"), 11);

    assert_eq!(
        result,
        Err(state_machine::support::DispatchError::InsufficientFunds)
    );
    assert_eq!(balances.balance(&String::from("alice")), 10);
    assert_eq!(balances.balance(&String::from("bob")), 7);
}

#[test]
fn transfer_overflow_mutates_nothing() {
    let mut balances = Pallet::new();
    balances.set_balance(&String::from("alice"), 10);
    balances.set_balance(&String::from("bob"), u128::MAX);

    let result = balances.transfer(String::from("alice"), String::from("bob"), 5);

    assert_eq!(result, Err(state_machine::support::DispatchError::Overflow));
    assert!(result.is_err_and(|e| e.message() == "Overflow to add balance"));
    assert_eq!(balances.balance(&String::from("alice")), 10);
    assert_eq!(balances.balance(&String::from("bob")), u128::MAX);
}

#[test]
fn transfer_round_trip_restores_balances() {
    let mut balances = Pallet::new();
    balances.set_balance(&String::from("alice"), 100);
    balances.set_balance(&String::from("bob"), 40);

    let there = balances.transfer(String::from("alice"), String::from("bob"), 25);
    assert!(there.is_ok());
    assert_eq!(balances.balance(&String::from("alice")), 75);
    assert_eq!(balances.balance(&String::from("bob")), 65);

    let back = balances.transfer(String::from("bob"), String::from("alice"), 25);
    assert!(back.is_ok());
    assert_eq!(balances.balance(&String::from("alice")), 100);
    assert_eq!(balances.balance(&String::from("bob")), 40);
}

#[test]
fn transfer_to_self_keeps_balance() {
    let mut balances = Pallet::new();
    balances.set_balance(&String::from("alice"), 100);

    let result = balances.transfer(String::from("alice"), String::from("alice"), 60);

    assert!(result.is_ok());
    assert_eq!(balances.balance(&String::from("alice")), 100);
}
