use collateral_vault::collateral_vault::{update_collateralizable_contracts, update_supported_tokens};
use collateral_vault::errors::CollateralVaultError;
use collateral_vault::pricing::{amount_before_fee, amount_with_fee, percentage_of, WITHDRAWAL_FEE_BASIS_POINTS};
use collateral_vault::pubkey::Pubkey;
use collateral_vault::registry::{
    add_or_remove_supported_tokens, collateralizable_contract_add, init_tokens_registry_and_collateralizable_contracts,
    AddOrRemoveCollateralizableContract, AddOrRemoveSupportedTokens, OpType,
    SupportedTokenRegistryAndCollateralizbleContracts,
};
use collateral_vault::accounts::{CollateralToken, CollateralizableContracts, TokenRegistry};

fn key(b: u8) -> Pubkey {
    Pubkey { bytes: [b; 32] }
}

fn registry(entries: Vec<(Pubkey, CollateralToken)>) -> TokenRegistry {
    TokenRegistry { token_registry_bump: 254, governance: key(1), collateral_tokens: entries }
}

fn keys_of(r: &TokenRegistry) -> Vec<[u8; 32]> {
    r.collateral_tokens.iter().map(|(k, _)| k.bytes).collect()
}

#[test]
fn percentage_of_rounds_down() {
    assert_eq!(percentage_of(10_000, 50).unwrap(), 50);
    assert_eq!(percentage_of(199, 50).unwrap(), 0);
    assert_eq!(percentage_of(200, 50).unwrap(), 1);
    assert_eq!(percentage_of(0, 50).unwrap(), 0);
}

#[test]
fn amount_with_fee_adds_half_percent() {
    assert_eq!(WITHDRAWAL_FEE_BASIS_POINTS, 50);
    assert_eq!(amount_with_fee(1_000, 50).unwrap(), 1_005);
    assert_eq!(amount_with_fee(995, 50).unwrap(), 999);
    assert_eq!(amount_with_fee(0, 50).unwrap(), 0);
}

#[test]
fn amount_before_fee_takes_fee_out() {
    assert_eq!(amount_before_fee(1_005, 50).unwrap(), 1_000);
    assert_eq!(amount_before_fee(1_000, 50).unwrap(), 995);
    assert_eq!(amount_before_fee(1, 50).unwrap(), 0);
    assert_eq!(amount_before_fee(1_000, 0).unwrap(), 1_000);
}

#[test]
fn fee_round_trips_within_one() {
    for x in [0u128, 1, 7, 199, 200, 995, 1_000, 123_456_789] {
        let back = amount_before_fee(amount_with_fee(x, 50).unwrap(), 50).unwrap();
        assert!(back == x || back + 1 == x, "{} -> {}", x, back);
        let y = amount_with_fee(amount_before_fee(x, 50).unwrap(), 50).unwrap();
        assert!(y <= x);
    }
}

#[test]
fn init_creates_empty_registries() {
    let mut ctx = SupportedTokenRegistryAndCollateralizbleContracts {
        admin: key(1),
        tokens_registry: registry(vec![(key(9), CollateralToken { user_cumulative_balance: 3, is_enabled: true })]),
        collateralizable_contracts: CollateralizableContracts { collaterizable_contracts_bump: 0, governance: key(1), collaterizable_contracts: vec![key(8)] },
        tokens_registry_bump: 250,
        collateralizable_contracts_bump: 251,
    };
    init_tokens_registry_and_collateralizable_contracts(&mut ctx).unwrap();
    assert!(ctx.tokens_registry.collateral_tokens.is_empty());
    assert!(ctx.collateralizable_contracts.collaterizable_contracts.is_empty());
    assert_eq!(ctx.tokens_registry.token_registry_bump, 250);
    assert_eq!(ctx.collateralizable_contracts.collaterizable_contracts_bump, 251);
    assert_eq!(ctx.tokens_registry.governance.bytes, [1; 32]);
    assert_eq!(ctx.collateralizable_contracts.governance.bytes, [1; 32]);
}

#[test]
fn only_the_governance_owner_changes_the_registries() {
    let t = CollateralToken { user_cumulative_balance: 0, is_enabled: true };
    let mut ctx = AddOrRemoveSupportedTokens { admin: key(2), tokens_registry: registry(vec![(key(5), t)]) };
    assert_eq!(update_supported_tokens(&mut ctx, key(6), OpType::Add), Err(CollateralVaultError::UnauthorizedGovernance));
    assert_eq!(update_supported_tokens(&mut ctx, key(5), OpType::Remove), Err(CollateralVaultError::UnauthorizedGovernance));
    assert_eq!(keys_of(&ctx.tokens_registry), vec![[5; 32]]);
    let mut ctx = AddOrRemoveCollateralizableContract {
        admin: key(2),
        collateralizable_contracts: CollateralizableContracts { collaterizable_contracts_bump: 3, governance: key(1), collaterizable_contracts: vec![key(4)] },
    };
    assert_eq!(update_collateralizable_contracts(&mut ctx, key(6), OpType::Add), Err(CollateralVaultError::UnauthorizedGovernance));
    assert_eq!(collateralizable_contract_add(&mut ctx, key(4), OpType::Remove), Err(CollateralVaultError::UnauthorizedGovernance));
    assert_eq!(contract_keys(&ctx.collateralizable_contracts), vec![[4; 32]]);
}

#[test]
fn adding_a_token_enables_it_once() {
    let mut ctx = AddOrRemoveSupportedTokens { admin: key(1), tokens_registry: registry(vec![]) };
    add_or_remove_supported_tokens(&mut ctx, key(5), OpType::Add).unwrap();
    add_or_remove_supported_tokens(&mut ctx, key(5), OpType::Add).unwrap();
    assert_eq!(ctx.tokens_registry.collateral_tokens.len(), 1);
    assert_eq!(ctx.tokens_registry.collateral_tokens[0].1, CollateralToken { user_cumulative_balance: 0, is_enabled: true });
    assert!(ctx.tokens_registry.verify_token_enabled(&key(5)).is_ok());
}

#[test]
fn removing_a_token_keeps_the_order_of_the_rest() {
    let t = CollateralToken { user_cumulative_balance: 0, is_enabled: true };
    let mut ctx = AddOrRemoveSupportedTokens { admin: key(1), tokens_registry: registry(vec![(key(1), t), (key(2), t), (key(3), t)]) };
    add_or_remove_supported_tokens(&mut ctx, key(1), OpType::Remove).unwrap();
    assert_eq!(keys_of(&ctx.tokens_registry), vec![[2; 32], [3; 32]]);
    add_or_remove_supported_tokens(&mut ctx, key(7), OpType::Remove).unwrap();
    assert_eq!(keys_of(&ctx.tokens_registry), vec![[2; 32], [3; 32]]);
}

#[test]
fn adding_then_removing_a_token_restores_the_registry() {
    let t = CollateralToken { user_cumulative_balance: 4, is_enabled: false };
    let mut ctx = AddOrRemoveSupportedTokens { admin: key(1), tokens_registry: registry(vec![(key(1), t)]) };
    update_supported_tokens(&mut ctx, key(2), OpType::Add).unwrap();
    update_supported_tokens(&mut ctx, key(2), OpType::Remove).unwrap();
    assert_eq!(keys_of(&ctx.tokens_registry), vec![[1; 32]]);
    assert_eq!(ctx.tokens_registry.collateral_tokens[0].1, t);
}

#[test]
fn verify_token_enabled_refusals() {
    let r = registry(vec![(key(1), CollateralToken { user_cumulative_balance: 0, is_enabled: false })]);
    assert_eq!(r.verify_token_enabled(&key(2)), Err(CollateralVaultError::TokenNotSupported));
    assert_eq!(r.verify_token_enabled(&key(1)), Err(CollateralVaultError::TokenNotAllowed));
}

fn contract_keys(c: &CollateralizableContracts) -> Vec<[u8; 32]> {
    c.collaterizable_contracts.iter().map(|k| k.bytes).collect()
}

#[test]
fn removing_a_contract_moves_the_last_into_its_place() {
    let mut ctx = AddOrRemoveCollateralizableContract {
        admin: key(1),
        collateralizable_contracts: CollateralizableContracts {
            collaterizable_contracts_bump: 3, governance: key(1),
            collaterizable_contracts: vec![key(1), key(2), key(3)],
        },
    };
    collateralizable_contract_add(&mut ctx, key(1), OpType::Remove).unwrap();
    assert_eq!(contract_keys(&ctx.collateralizable_contracts), vec![[3; 32], [2; 32]]);
    collateralizable_contract_add(&mut ctx, key(2), OpType::Remove).unwrap();
    assert_eq!(contract_keys(&ctx.collateralizable_contracts), vec![[3; 32]]);
    collateralizable_contract_add(&mut ctx, key(9), OpType::Remove).unwrap();
    assert_eq!(contract_keys(&ctx.collateralizable_contracts), vec![[3; 32]]);
}

#[test]
fn adding_then_removing_a_contract_restores_the_list() {
    let mut ctx = AddOrRemoveCollateralizableContract {
        admin: key(1),
        collateralizable_contracts: CollateralizableContracts { collaterizable_contracts_bump: 3, governance: key(1), collaterizable_contracts: vec![key(4), key(5)] },
    };
    update_collateralizable_contracts(&mut ctx, key(6), OpType::Add).unwrap();
    update_collateralizable_contracts(&mut ctx, key(6), OpType::Add).unwrap();
    assert_eq!(contract_keys(&ctx.collateralizable_contracts), vec![[4; 32], [5; 32], [6; 32]]);
    update_collateralizable_contracts(&mut ctx, key(6), OpType::Remove).unwrap();
    assert_eq!(contract_keys(&ctx.collateralizable_contracts), vec![[4; 32], [5; 32]]);
}
