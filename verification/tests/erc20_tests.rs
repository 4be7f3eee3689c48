use hero_dex::erc20::Erc20;

#[test]
fn new_works() {
    let contract = Erc20::new(1, 777);
    assert_eq!(contract.total_supply(), 777);
}

#[test]
fn balance_works() {
    let contract = Erc20::new(1, 777);
    assert_eq!(contract.balance_of(1), 777);
    assert_eq!(contract.balance_of(0), 0);
}

#[test]
fn transfer_works() {
    let mut erc20 = Erc20::new(1, 100);
    assert_eq!(erc20.balance_of(0), 0);
    assert_eq!(erc20.transfer(1, 0, 10), Ok(()));
    assert_eq!(erc20.balance_of(0), 10);
    assert_eq!(2, erc20.transfer_events.len());
}

#[test]
fn transfer_from_works() {
    let mut erc20 = Erc20::new(1, 100);
    assert_eq!(erc20.balance_of(1), 100);
    erc20.approve(1, 1, 20).unwrap();
    erc20.transfer_from(1, 1, 0, 10).unwrap();
    assert_eq!(erc20.balance_of(0), 10);
}

#[test]
fn allowances_works() {
    let mut erc20 = Erc20::new(1, 100);
    assert_eq!(erc20.balance_of(1), 100);
    erc20.approve(1, 1, 200).unwrap();
    assert_eq!(erc20.allowance(1, 1), 200);
    erc20.transfer_from(1, 1, 0, 50).unwrap();
    assert_eq!(erc20.balance_of(0), 50);
    assert_eq!(erc20.allowance(1, 1), 150);

    assert!(erc20.transfer_from(1, 1, 0, 100).is_err());
    assert_eq!(erc20.balance_of(0), 50);
    assert_eq!(erc20.allowance(1, 1), 150);
}

#[test]
fn transfer_more_than_balance_fails() {
    let mut erc20 = Erc20::new(1, 100);
    assert_eq!(erc20.transfer(1, 2, 101), Err(hero_dex::erc20::Error::InsufficientBalance));
    assert_eq!(erc20.balance_of(1), 100);
    assert_eq!(erc20.balance_of(2), 0);
}

#[test]
fn transfer_from_without_allowance_fails() {
    let mut erc20 = Erc20::new(1, 100);
    assert_eq!(
        erc20.transfer_from(2, 1, 2, 10),
        Err(hero_dex::erc20::Error::InsufficientAllowance)
    );
    assert_eq!(erc20.balance_of(1), 100);
}
