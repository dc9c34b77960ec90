use marketplace::types::Share;
use marketplace::vault::{split_withdrawal, Contract, VaultError, Withdrawal};

fn s(text: &str) -> String {
    text.to_string()
}

fn near_vault() -> Contract {
    Contract::init(s("collection.near"), None, s("treasury.near"), s("admin.near"))
}

fn token_vault() -> Contract {
    Contract::init(s("collection.near"), Some(s("usdt.near")), s("treasury.near"), s("admin.near"))
}

#[test]
fn a_new_vault_is_empty() {
    let vault = token_vault();
    assert_eq!(vault.owner_contract, "collection.near");
    assert_eq!(vault.ft_contract, Some(s("usdt.near")));
    assert_eq!(vault.amount, 0);
    assert_eq!(vault.treasury, "treasury.near");
    assert_eq!(vault.admin, "admin.near");
    assert_eq!(vault.owned_fts.len(), 0);
}

#[test]
fn native_deposits_add_up() {
    let mut vault = near_vault();
    vault.deposit_near(10).unwrap();
    vault.deposit_near(5).unwrap();
    assert_eq!(vault.amount, 15);
    assert_eq!(vault.deposit_near(u128::MAX), Err(VaultError::ArithmeticOverflow));
    assert_eq!(vault.amount, 15);
}

#[test]
fn a_token_vault_takes_no_native_deposits() {
    let mut vault = token_vault();
    assert_eq!(vault.deposit_near(10), Err(VaultError::NearDepositsClosed));
    assert_eq!(vault.amount, 0);
}

#[test]
fn a_withdrawal_is_split_by_the_burn_fee() {
    assert_eq!(split_withdrawal(1000, 10), Some((900, 50, 50)));
    assert_eq!(split_withdrawal(1000, 0), Some((1000, 0, 0)));
    assert_eq!(split_withdrawal(1000, 100), Some((0, 500, 500)));
    assert_eq!(split_withdrawal(999, 5), Some((950, 24, 24)));
    assert_eq!(split_withdrawal(0, 50), Some((0, 0, 0)));
    assert_eq!(split_withdrawal(1000, 101), None);
    assert_eq!(split_withdrawal(u128::MAX, 2), None);
    assert_eq!(split_withdrawal(u128::MAX, 1), Some((u128::MAX - u128::MAX / 100, u128::MAX / 200, u128::MAX / 200)));
}

#[test]
fn withdrawing_empties_the_vault() {
    let mut vault = near_vault();
    vault.deposit_near(1000).unwrap();
    let out = vault.withdraw(&s("collection.near"), 10).unwrap();
    assert_eq!(out, Withdrawal { to_owner: 900, to_owner_contract: 50, to_treasury: 50, owned: vec![] });
    assert_eq!(vault.amount, 0);
    let out = vault.withdraw(&s("collection.near"), 10).unwrap();
    assert_eq!(out, Withdrawal { to_owner: 0, to_owner_contract: 0, to_treasury: 0, owned: vec![] });
}

#[test]
fn only_the_owning_contract_withdraws() {
    let mut vault = near_vault();
    vault.deposit_near(1000).unwrap();
    assert_eq!(vault.withdraw(&s("eve.near"), 10), Err(VaultError::OwnerContractOnly));
    assert_eq!(vault.withdraw(&s("collection.near"), 101), Err(VaultError::ArithmeticOverflow));
    assert_eq!(vault.amount, 1000);
}

#[test]
fn the_vaults_own_token_adds_to_what_it_collected() {
    let mut vault = token_vault();
    assert_eq!(vault.ft_on_transfer(&s("usdt.near"), &s("admin.near"), 7), Ok(0));
    assert_eq!(vault.ft_on_transfer(&s("usdt.near"), &s("admin.near"), 8), Ok(0));
    assert_eq!(vault.amount, 15);
    assert_eq!(vault.owned_fts.len(), 0);
    assert_eq!(
        vault.ft_on_transfer(&s("usdt.near"), &s("admin.near"), u128::MAX),
        Err(VaultError::ArithmeticOverflow)
    );
    assert_eq!(vault.amount, 15);
}

#[test]
fn other_tokens_are_kept_on_account_up_to_three() {
    let mut vault = token_vault();
    vault.ft_on_transfer(&s("a.near"), &s("admin.near"), 1).unwrap();
    vault.ft_on_transfer(&s("b.near"), &s("admin.near"), 2).unwrap();
    vault.ft_on_transfer(&s("a.near"), &s("admin.near"), 10).unwrap();
    vault.ft_on_transfer(&s("c.near"), &s("admin.near"), 3).unwrap();
    assert_eq!(vault.ft_on_transfer(&s("d.near"), &s("admin.near"), 4), Err(VaultError::TooManyTokens));
    vault.ft_on_transfer(&s("c.near"), &s("admin.near"), 30).unwrap();
    assert_eq!(vault.owned_fts.get(&s("a.near")), Some(&11));
    assert_eq!(vault.owned_fts.get(&s("b.near")), Some(&2));
    assert_eq!(vault.owned_fts.get(&s("c.near")), Some(&33));
    assert_eq!(vault.owned_fts.get(&s("d.near")), None);
    assert_eq!(vault.amount, 0);
    assert_eq!(
        vault.ft_on_transfer(&s("a.near"), &s("admin.near"), u128::MAX),
        Err(VaultError::ArithmeticOverflow)
    );
    let out = vault.withdraw(&s("collection.near"), 0).unwrap();
    assert_eq!(
        out.owned,
        vec![
            Share { account_id: s("a.near"), amount: 11 },
            Share { account_id: s("b.near"), amount: 2 },
            Share { account_id: s("c.near"), amount: 33 },
        ]
    );
    assert_eq!(vault.owned_fts.len(), 3);
}

#[test]
fn a_report_of_tokens_is_checked() {
    let mut vault = token_vault();
    assert_eq!(vault.ft_on_transfer(&s("usdt.near"), &s("eve.near"), 7), Err(VaultError::AdminOnly));
    let mut odd = Contract::init(s("collection.near"), Some(s("admin.near")), s("treasury.near"), s("admin.near"));
    assert_eq!(odd.ft_on_transfer(&s("admin.near"), &s("admin.near"), 7), Err(VaultError::NotCrossContract));
    let mut native = near_vault();
    assert_eq!(native.ft_on_transfer(&s("usdt.near"), &s("admin.near"), 7), Err(VaultError::NoTokenContract));
    assert_eq!(vault.amount, 0);
}
