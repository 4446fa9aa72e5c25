use cowbet::contract::validate_sent_sufficient_coin;
use cowbet::msg::Coin;
use cowbet::ContractError;

fn coin(amount: u128, denom: &str) -> Coin {
    Coin { denom: denom.to_string(), amount }
}

fn coins(amount: u128, denom: &str) -> Vec<Coin> {
    vec![coin(amount, denom)]
}

#[test]
fn assert_sent_sufficient_coin_works() {
    match validate_sent_sufficient_coin(&vec![], Some(coin(0, "token"))) {
        Ok(()) => {}
        Err(e) => panic!("Unexpected error: {:?}", e),
    };

    match validate_sent_sufficient_coin(&vec![], Some(coin(5, "token"))) {
        Ok(()) => panic!("Should have raised insufficient funds error"),
        Err(ContractError::InsufficientFundsSent {}) => {}
        Err(e) => panic!("Unexpected error: {:?}", e),
    };

    match validate_sent_sufficient_coin(&coins(10, "smokin"), Some(coin(5, "token"))) {
        Ok(()) => panic!("Should have raised insufficient funds error"),
        Err(ContractError::InsufficientFundsSent {}) => {}
        Err(e) => panic!("Unexpected error: {:?}", e),
    };

    match validate_sent_sufficient_coin(&coins(10, "token"), Some(coin(5, "token"))) {
        Ok(()) => {}
        Err(e) => panic!("Unexpected error: {:?}", e),
    };

    let sent_coins = vec![coin(2, "smokin"), coin(5, "token"), coin(1, "earth")];
    match validate_sent_sufficient_coin(&sent_coins, Some(coin(5, "token"))) {
        Ok(()) => {}
        Err(e) => panic!("Unexpected error: {:?}", e),
    };
}

#[test]
fn no_requirement_accepts_anything() {
    assert!(validate_sent_sufficient_coin(&vec![], None).is_ok());
    assert!(validate_sent_sufficient_coin(&coins(3, "token"), None).is_ok());
}
