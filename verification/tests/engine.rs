use cowbet::contract::{
    bet_amount, bet_tokens, cast_bet, create_vault, end_deposits, execute, instantiate, query,
    query_vault, token_balance, withdraw_bet_rewards, DEFAULT_END_HEIGHT_BLOCKS, MAX_DESC_LENGTH,
    MIN_DESC_LENGTH,
};
use cowbet::msg::{
    Coin, ExecuteMsg, ExecuteResponse, InstantiateMsg, QueryMsg, QueryResponse,
};
use cowbet::state::{ContractState, VaultStatus};
use cowbet::ContractError;

fn coin(amount: u128, denom: &str) -> Coin {
    Coin { denom: denom.to_string(), amount }
}

fn fresh(denom: &str) -> ContractState {
    instantiate(InstantiateMsg { denom: denom.to_string() }, "owner".to_string())
}

fn deposit(st: &mut ContractState, who: &str, amount: u128) {
    bet_tokens(st, who.to_string(), vec![coin(amount, "utoken")]).unwrap();
}

#[test]
fn instantiate_sets_config() {
    let st = fresh("utoken");
    assert_eq!(st.config.denom, "utoken");
    assert_eq!(st.config.owner, "owner");
    assert_eq!(st.config.vault_count, 0);
    assert_eq!(st.config.bet_tokens, 0);
    assert!(st.bank.is_empty());
    assert!(st.vaults.is_empty());
}

#[test]
fn deposit_credits_balance_and_total() {
    let mut st = fresh("utoken");
    deposit(&mut st, "alice", 1000);
    assert_eq!(token_balance(&st, &"alice".to_string()).token_balance, 1000);
    assert_eq!(st.config.bet_tokens, 1000);
    deposit(&mut st, "alice", 500);
    assert_eq!(token_balance(&st, &"alice".to_string()).token_balance, 1500);
    deposit(&mut st, "bob", 7);
    assert_eq!(token_balance(&st, &"bob".to_string()).token_balance, 7);
    assert_eq!(st.config.bet_tokens, 1507);
}

#[test]
fn deposit_rejects_wrong_or_missing_funds() {
    let mut st = fresh("utoken");
    let r = bet_tokens(&mut st, "alice".to_string(), vec![]);
    assert!(matches!(r, Err(ContractError::InsufficientFundsSent {})));
    let r = bet_tokens(&mut st, "alice".to_string(), vec![coin(100, "other")]);
    assert!(matches!(r, Err(ContractError::InsufficientFundsSent {})));
    let r = bet_tokens(&mut st, "alice".to_string(), vec![coin(0, "utoken")]);
    assert!(matches!(r, Err(ContractError::InsufficientFundsSent {})));
    assert_eq!(st.config.bet_tokens, 0);
}

#[test]
fn deposit_takes_first_coin_of_denomination() {
    let mut st = fresh("utoken");
    let funds = vec![coin(9, "earth"), coin(25, "utoken"), coin(100, "utoken")];
    bet_tokens(&mut st, "alice".to_string(), funds).unwrap();
    assert_eq!(token_balance(&st, &"alice".to_string()).token_balance, 25);
}

#[test]
fn deposit_overflow_is_reported() {
    let mut st = fresh("utoken");
    deposit(&mut st, "alice", u128::MAX);
    let r = bet_tokens(&mut st, "bob".to_string(), vec![coin(1, "utoken")]);
    assert!(matches!(r, Err(ContractError::OverflowError {})));
    assert_eq!(st.config.bet_tokens, u128::MAX);
}

#[test]
fn withdraw_without_account_fails() {
    let mut st = fresh("utoken");
    let r = withdraw_bet_rewards(&mut st, "ghost".to_string(), Some(1));
    assert!(matches!(r, Err(ContractError::VaultNoBet {})));
}

#[test]
fn deposit_then_withdraw_same_amount_restores_balance() {
    let mut st = fresh("utoken");
    deposit(&mut st, "alice", 300);
    deposit(&mut st, "alice", 500);
    let before = token_balance(&st, &"alice".to_string()).token_balance;
    let total_before = st.config.bet_tokens;
    deposit(&mut st, "alice", 123);
    let t = withdraw_bet_rewards(&mut st, "alice".to_string(), Some(123)).unwrap();
    assert_eq!(t.amount, 123);
    assert_eq!(t.to, "alice");
    assert_eq!(t.denom, "utoken");
    assert_eq!(token_balance(&st, &"alice".to_string()).token_balance, before);
    assert_eq!(st.config.bet_tokens, total_before);
}

#[test]
fn withdraw_defaults_to_full_balance() {
    let mut st = fresh("utoken");
    deposit(&mut st, "alice", 450);
    let t = withdraw_bet_rewards(&mut st, "alice".to_string(), None).unwrap();
    assert_eq!(t.amount, 450);
    assert_eq!(token_balance(&st, &"alice".to_string()).token_balance, 0);
    assert_eq!(st.config.bet_tokens, 0);
}

#[test]
fn create_vault_assigns_sequential_ids() {
    let mut st = fresh("utoken");
    let r1 = create_vault(
        &mut st,
        "alice".to_string(),
        "first vault".to_string(),
        None,
        Some(50),
        10,
    )
    .unwrap();
    let r2 = create_vault(
        &mut st,
        "bob".to_string(),
        "second vault".to_string(),
        None,
        Some(60),
        10,
    )
    .unwrap();
    assert_eq!(r1.vault_id, 1);
    assert_eq!(r2.vault_id, 2);
    assert_eq!(st.config.vault_count, 2);
    let v = query_vault(&st, 1).unwrap();
    assert_eq!(v.creator, "alice");
    assert_eq!(v.status, VaultStatus::DepositsOpen);
    assert_eq!(v.end_height, Some(50));
    assert_eq!(v.start_height, None);
    assert_eq!(v.description, "first vault");
}

#[test]
fn create_vault_defaults_end_height() {
    let mut st = fresh("utoken");
    let r = create_vault(&mut st, "alice".to_string(), "windowless".to_string(), None, None, 10)
        .unwrap();
    let v = query_vault(&st, r.vault_id).unwrap();
    assert_eq!(v.end_height, Some(10 + DEFAULT_END_HEIGHT_BLOCKS));
}

#[test]
fn create_vault_rejects_past_end_height() {
    let mut st = fresh("utoken");
    // An end height equal to the current height is already "in the past".
    let r = create_vault(&mut st, "a".to_string(), "good words".to_string(), None, Some(10), 10);
    assert!(matches!(r, Err(ContractError::VaultCannotEndInPast {})));
    let r = create_vault(&mut st, "a".to_string(), "good words".to_string(), None, Some(3), 10);
    assert!(matches!(r, Err(ContractError::VaultCannotEndInPast {})));
    // Rejected whatever the other arguments are, even a bad description.
    let r = create_vault(&mut st, "b".to_string(), "x".to_string(), Some(1), Some(10), 10);
    assert!(matches!(r, Err(ContractError::VaultCannotEndInPast {})));
    assert_eq!(st.config.vault_count, 0);
}

#[test]
fn create_vault_checks_description_bounds() {
    let mut st = fresh("utoken");
    let min = MIN_DESC_LENGTH as usize;
    let max = MAX_DESC_LENGTH as usize;
    let r = create_vault(&mut st, "a".to_string(), "x".repeat(min - 1), None, Some(99), 10);
    assert!(matches!(
        r,
        Err(ContractError::DescriptionTooShort { min_desc_length: MIN_DESC_LENGTH })
    ));
    let r = create_vault(&mut st, "a".to_string(), "x".repeat(max + 1), None, Some(99), 10);
    assert!(matches!(
        r,
        Err(ContractError::DescriptionTooLong { max_desc_length: MAX_DESC_LENGTH })
    ));
    assert!(create_vault(&mut st, "a".to_string(), "x".repeat(min), None, Some(99), 10).is_ok());
    assert!(create_vault(&mut st, "a".to_string(), "x".repeat(max), None, Some(99), 10).is_ok());
}

#[test]
fn cast_bet_validates_vault_and_vote() {
    let mut st = fresh("utoken");
    deposit(&mut st, "alice", 100);
    let r = cast_bet(&mut st, "alice".to_string(), 0, "yes".to_string(), 10);
    assert!(matches!(r, Err(ContractError::VaultDoesNotExist {})));
    let r = cast_bet(&mut st, "alice".to_string(), 1, "yes".to_string(), 10);
    assert!(matches!(r, Err(ContractError::VaultDoesNotExist {})));
    create_vault(&mut st, "alice".to_string(), "a fair bet".to_string(), None, Some(50), 10)
        .unwrap();
    let r = cast_bet(&mut st, "alice".to_string(), 1, "maybe".to_string(), 10);
    assert!(matches!(r, Err(ContractError::InvalidBetEvent {})));
    let r = cast_bet(&mut st, "alice".to_string(), 1, "yes".to_string(), 101);
    assert!(matches!(r, Err(ContractError::VaultInsufficientAmt {})));
    assert!(cast_bet(&mut st, "alice".to_string(), 1, "yes".to_string(), 100).is_ok());
}

#[test]
fn cast_bet_rejects_every_status_but_deposits_open() {
    for status in [VaultStatus::Closed, VaultStatus::InProgress, VaultStatus::Finished] {
        let mut st = fresh("utoken");
        deposit(&mut st, "alice", 100);
        create_vault(&mut st, "alice".to_string(), "some vault".to_string(), None, Some(50), 10)
            .unwrap();
        st.vaults[0].status = status;
        let r = cast_bet(&mut st, "alice".to_string(), 1, "yes".to_string(), 10);
        assert!(matches!(r, Err(ContractError::VaultNotOpenForDeposits {})));
    }
}

#[test]
fn cast_bet_tracks_totals_per_side() {
    let mut st = fresh("utoken");
    deposit(&mut st, "alice", 1000);
    deposit(&mut st, "bob", 800);
    create_vault(&mut st, "alice".to_string(), "two sides".to_string(), None, Some(50), 10)
        .unwrap();
    cast_bet(&mut st, "alice".to_string(), 1, "yes".to_string(), 400).unwrap();
    cast_bet(&mut st, "bob".to_string(), 1, "no".to_string(), 300).unwrap();
    cast_bet(&mut st, "bob".to_string(), 1, "yes".to_string(), 100).unwrap();
    let v = &st.vaults[0];
    assert_eq!(v.yes_votes, 500);
    assert_eq!(v.no_votes, 300);
    assert_eq!(v.voters.len(), 3);
    assert_eq!(v.voter_info.len(), 3);
    // The side totals always add up to the weights over the vote list.
    let total: u128 = v.voter_info.iter().map(|w| w.weight).sum();
    assert_eq!(v.yes_votes + v.no_votes, total);
}

#[test]
fn full_stake_blocks_any_withdrawal() {
    let mut st = fresh("utoken");
    deposit(&mut st, "alice", 750);
    create_vault(&mut st, "alice".to_string(), "all in here".to_string(), None, Some(50), 10)
        .unwrap();
    cast_bet(&mut st, "alice".to_string(), 1, "yes".to_string(), 750).unwrap();
    let r = withdraw_bet_rewards(&mut st, "alice".to_string(), Some(1));
    assert!(matches!(r, Err(ContractError::ExcessiveWithdraw { max_amount: 0 })));
    let r = withdraw_bet_rewards(&mut st, "alice".to_string(), Some(750));
    assert!(matches!(r, Err(ContractError::ExcessiveWithdraw { max_amount: 0 })));
    assert_eq!(token_balance(&st, &"alice".to_string()).token_balance, 750);
}

#[test]
fn ceiling_uses_largest_stake_not_the_sum() {
    let mut st = fresh("utoken");
    deposit(&mut st, "alice", 1000);
    create_vault(&mut st, "a".to_string(), "first vault".to_string(), None, Some(50), 10).unwrap();
    create_vault(&mut st, "a".to_string(), "second vault".to_string(), None, Some(50), 10)
        .unwrap();
    cast_bet(&mut st, "alice".to_string(), 1, "yes".to_string(), 300).unwrap();
    cast_bet(&mut st, "alice".to_string(), 2, "no".to_string(), 400).unwrap();
    // Locked ceiling is max(300, 400) = 400, not 700.
    let r = withdraw_bet_rewards(&mut st, "alice".to_string(), Some(601));
    assert!(matches!(r, Err(ContractError::ExcessiveWithdraw { max_amount: 600 })));
    let t = withdraw_bet_rewards(&mut st, "alice".to_string(), Some(600)).unwrap();
    assert_eq!(t.amount, 600);
}

#[test]
fn restake_replaces_prior_stake_on_same_vault() {
    let mut st = fresh("utoken");
    deposit(&mut st, "alice", 500);
    create_vault(&mut st, "a".to_string(), "replayable".to_string(), None, Some(50), 10).unwrap();
    cast_bet(&mut st, "alice".to_string(), 1, "yes".to_string(), 400).unwrap();
    cast_bet(&mut st, "alice".to_string(), 1, "no".to_string(), 100).unwrap();
    // The account holds one stake per vault: the replacement lifts the
    // ceiling from 400 to 100.
    let r = withdraw_bet_rewards(&mut st, "alice".to_string(), Some(401));
    assert!(matches!(r, Err(ContractError::ExcessiveWithdraw { max_amount: 400 })));
    let t = withdraw_bet_rewards(&mut st, "alice".to_string(), Some(400)).unwrap();
    assert_eq!(t.amount, 400);
    // Both votes still count in the vault's totals.
    assert_eq!(st.vaults[0].yes_votes, 400);
    assert_eq!(st.vaults[0].no_votes, 100);
}

#[test]
fn largest_stake_helper_reports_maximum() {
    let mut st = fresh("utoken");
    deposit(&mut st, "alice", 1000);
    create_vault(&mut st, "a".to_string(), "first vault".to_string(), None, Some(50), 10).unwrap();
    create_vault(&mut st, "a".to_string(), "second vault".to_string(), None, Some(50), 10)
        .unwrap();
    cast_bet(&mut st, "alice".to_string(), 1, "yes".to_string(), 250).unwrap();
    cast_bet(&mut st, "alice".to_string(), 2, "no".to_string(), 90).unwrap();
    let row = st.bank.iter().find(|row| row.0 == "alice").unwrap();
    assert_eq!(bet_amount(&row.1), 250);
}

#[test]
fn end_deposits_checks_creator_status_and_window() {
    let mut st = fresh("utoken");
    deposit(&mut st, "alice", 100);
    create_vault(&mut st, "alice".to_string(), "guarded one".to_string(), Some(20), Some(30), 10)
        .unwrap();
    let r = end_deposits(&mut st, "alice".to_string(), 2, 30);
    assert!(matches!(r, Err(ContractError::VaultDoesNotExist {})));
    let r = end_deposits(&mut st, "mallory".to_string(), 1, 30);
    match r {
        Err(ContractError::VaultNotCreator { sender, creator }) => {
            assert_eq!(sender, "mallory");
            assert_eq!(creator, "alice");
        }
        other => panic!("Unexpected result: {:?}", other),
    }
    let r = end_deposits(&mut st, "alice".to_string(), 1, 15);
    assert!(matches!(
        r,
        Err(ContractError::VaultDepositPeriodNotStarted { start_height: 20 })
    ));
    let r = end_deposits(&mut st, "alice".to_string(), 1, 25);
    assert!(matches!(
        r,
        Err(ContractError::VaultDepositPeriodNotExpired { expire_height: 30 })
    ));
    end_deposits(&mut st, "alice".to_string(), 1, 30).unwrap();
    assert_eq!(st.vaults[0].status, VaultStatus::Finished);
    // A finished vault cannot be closed again.
    let r = end_deposits(&mut st, "alice".to_string(), 1, 31);
    assert!(matches!(r, Err(ContractError::VaultNotOpenForDeposits {})));
}

#[test]
fn end_deposits_releases_every_stake() {
    let mut st = fresh("utoken");
    deposit(&mut st, "alice", 600);
    deposit(&mut st, "bob", 900);
    create_vault(&mut st, "carol".to_string(), "shared vault".to_string(), None, Some(40), 10)
        .unwrap();
    cast_bet(&mut st, "alice".to_string(), 1, "yes".to_string(), 600).unwrap();
    cast_bet(&mut st, "bob".to_string(), 1, "no".to_string(), 900).unwrap();
    assert!(matches!(
        withdraw_bet_rewards(&mut st, "alice".to_string(), Some(1)),
        Err(ContractError::ExcessiveWithdraw { max_amount: 0 })
    ));
    end_deposits(&mut st, "carol".to_string(), 1, 40).unwrap();
    // Stakes are released; balances were never touched by the release.
    let t = withdraw_bet_rewards(&mut st, "alice".to_string(), Some(600)).unwrap();
    assert_eq!(t.amount, 600);
    let t = withdraw_bet_rewards(&mut st, "bob".to_string(), None).unwrap();
    assert_eq!(t.amount, 900);
}

#[test]
fn scenario_full_vault_lifecycle() {
    let current_height: u64 = 100;
    let mut st = fresh("utoken");
    deposit(&mut st, "A", 1000);
    let created = create_vault(
        &mut st,
        "A".to_string(),
        "the big question".to_string(),
        None,
        Some(current_height + 10),
        current_height,
    )
    .unwrap();
    assert_eq!(created.vault_id, 1);
    cast_bet(&mut st, "A".to_string(), 1, "yes".to_string(), 400).unwrap();
    // Locked ceiling 400: withdrawing 700 fails with max_amount 600.
    let r = withdraw_bet_rewards(&mut st, "A".to_string(), Some(700));
    assert!(matches!(r, Err(ContractError::ExcessiveWithdraw { max_amount: 600 })));
    // At the end height the creator closes the window and the stake is
    // released.
    end_deposits(&mut st, "A".to_string(), 1, current_height + 10).unwrap();
    let t = withdraw_bet_rewards(&mut st, "A".to_string(), Some(1000)).unwrap();
    assert_eq!(t.amount, 1000);
    assert_eq!(token_balance(&st, &"A".to_string()).token_balance, 0);
}

#[test]
fn execute_routes_every_message() {
    let mut st = fresh("utoken");
    let r = execute(
        &mut st,
        10,
        "alice".to_string(),
        vec![coin(500, "utoken")],
        ExecuteMsg::BetTokens {},
    )
    .unwrap();
    assert!(matches!(r, ExecuteResponse::Default {}));
    let r = execute(
        &mut st,
        10,
        "alice".to_string(),
        vec![],
        ExecuteMsg::CreateVault {
            description: "routed vault".to_string(),
            start_height: None,
            end_height: Some(50),
        },
    )
    .unwrap();
    match r {
        ExecuteResponse::VaultCreated { data } => assert_eq!(data.vault_id, 1),
        other => panic!("Unexpected response: {:?}", other),
    }
    let r = execute(
        &mut st,
        10,
        "alice".to_string(),
        vec![],
        ExecuteMsg::CastBet { vault_id: 1, vote: "no".to_string(), weight: 200 },
    )
    .unwrap();
    assert!(matches!(r, ExecuteResponse::Default {}));
    let r = execute(
        &mut st,
        50,
        "alice".to_string(),
        vec![],
        ExecuteMsg::EndDeposits { vault_id: 1 },
    )
    .unwrap();
    assert!(matches!(r, ExecuteResponse::Default {}));
    let r = execute(
        &mut st,
        50,
        "alice".to_string(),
        vec![],
        ExecuteMsg::WithdrawRewards { amount: Some(500) },
    )
    .unwrap();
    match r {
        ExecuteResponse::Transfer { instruction } => {
            assert_eq!(instruction.amount, 500);
            assert_eq!(instruction.to, "alice");
            assert_eq!(instruction.denom, "utoken");
        }
        other => panic!("Unexpected response: {:?}", other),
    }
}

#[test]
fn query_answers_config_balance_and_vault() {
    let mut st = fresh("utoken");
    deposit(&mut st, "alice", 42);
    create_vault(&mut st, "bob".to_string(), "on display".to_string(), Some(5), Some(90), 1)
        .unwrap();
    match query(&st, QueryMsg::Config {}).unwrap() {
        QueryResponse::Config { config } => {
            assert_eq!(config.denom, "utoken");
            assert_eq!(config.owner, "owner");
            assert_eq!(config.vault_count, 1);
            assert_eq!(config.bet_tokens, 42);
        }
        other => panic!("Unexpected response: {:?}", other),
    }
    match query(&st, QueryMsg::TokenBet { address: "alice".to_string() }).unwrap() {
        QueryResponse::TokenBet { balance } => assert_eq!(balance.token_balance, 42),
        other => panic!("Unexpected response: {:?}", other),
    }
    match query(&st, QueryMsg::TokenBet { address: "nobody".to_string() }).unwrap() {
        QueryResponse::TokenBet { balance } => assert_eq!(balance.token_balance, 0),
        other => panic!("Unexpected response: {:?}", other),
    }
    match query(&st, QueryMsg::Vault { vault_id: 1 }).unwrap() {
        QueryResponse::Vault { vault } => {
            assert_eq!(vault.creator, "bob");
            assert_eq!(vault.status, VaultStatus::DepositsOpen);
            assert_eq!(vault.start_height, Some(5));
            assert_eq!(vault.end_height, Some(90));
            assert_eq!(vault.description, "on display");
        }
        other => panic!("Unexpected response: {:?}", other),
    }
    let r = query(&st, QueryMsg::Vault { vault_id: 2 });
    assert!(matches!(r, Err(ContractError::VaultDoesNotExist {})));
}

#[test]
fn balance_always_covers_largest_stake() {
    let mut st = fresh("utoken");
    deposit(&mut st, "alice", 1000);
    create_vault(&mut st, "a".to_string(), "first vault".to_string(), None, Some(50), 10).unwrap();
    create_vault(&mut st, "a".to_string(), "second vault".to_string(), None, Some(60), 10)
        .unwrap();
    cast_bet(&mut st, "alice".to_string(), 1, "yes".to_string(), 800).unwrap();
    cast_bet(&mut st, "alice".to_string(), 2, "no".to_string(), 999).unwrap();
    withdraw_bet_rewards(&mut st, "alice".to_string(), Some(1)).unwrap();
    end_deposits(&mut st, "a".to_string(), 1, 50).unwrap();
    for row in &st.bank {
        let largest = row.1.bet_tokens.iter().map(|s| s.1).max().unwrap_or(0);
        assert!(row.1.token_balance >= largest);
    }
}
