use collateral_vault::accounts::{AccountsBalance, CollateralBalance, CollateralReservations, CollateralToken, TokenRegistry};
use collateral_vault::actions::VaultAction;
use collateral_vault::errors::CollateralVaultError;
use collateral_vault::pubkey::Pubkey;
use collateral_vault::withdraws::{claim_collateral_funds, withdraw, ClaimCollateral, Withdraw};

fn key(b: u8) -> Pubkey {
    Pubkey { bytes: [b; 32] }
}

fn balance(available: u64, reserved: u64) -> AccountsBalance {
    AccountsBalance { collateral_balance: CollateralBalance { available, reserved }, bump_accounts_balance: 7, padding: [0; 7] }
}

fn registry(cumulative: u64) -> TokenRegistry {
    TokenRegistry {
        token_registry_bump: 1, governance: key(1),
        collateral_tokens: vec![
            (key(8), CollateralToken { user_cumulative_balance: 1, is_enabled: true }),
            (key(3), CollateralToken { user_cumulative_balance: cumulative, is_enabled: true }),
        ],
    }
}

fn withdraw_ctx(available: u64, vault: u64, cumulative: u64) -> Withdraw {
    Withdraw {
        withdrawer: key(1),
        token_address: key(3),
        token_decimals: 9,
        withdrawer_ata: key(11),
        tokens_registry: registry(cumulative),
        account_balance_pda: balance(available, 40),
        bank_token_vault: key(4),
        bank_token_vault_ata: key(14),
        bank_token_vault_ata_amount: vault,
        actions: vec![],
    }
}

fn only_transfer(actions: &[VaultAction]) -> (u64, [u8; 32], [u8; 32], [u8; 32], u8) {
    assert_eq!(actions.len(), 1);
    match &actions[0] {
        VaultAction::TransferChecked(t) => (t.amount, t.from.bytes, t.to.bytes, t.authority.bytes, t.decimals),
        other => panic!("unexpected action {:?}", other),
    }
}

#[test]
fn withdraw_pays_out_less_the_fee() {
    let mut ctx = withdraw_ctx(1_000, 5_000, 3_000);
    assert_eq!(withdraw(&mut ctx, 1_000), Ok(()));
    assert_eq!(ctx.account_balance_pda.collateral_balance, CollateralBalance { available: 0, reserved: 40 });
    assert_eq!(ctx.tokens_registry.collateral_tokens[1].1.user_cumulative_balance, 2_000);
    assert_eq!(ctx.tokens_registry.collateral_tokens[0].1.user_cumulative_balance, 1);
    assert_eq!(only_transfer(&ctx.actions), (995, [14; 32], [11; 32], [4; 32], 9));
}

#[test]
fn withdraw_part_of_the_available_collateral() {
    let mut ctx = withdraw_ctx(1_000, 5_000, 3_000);
    assert_eq!(withdraw(&mut ctx, 400), Ok(()));
    assert_eq!(ctx.account_balance_pda.collateral_balance.available, 600);
    assert_eq!(only_transfer(&ctx.actions).0, 398);
}

#[test]
fn withdraw_refusals_change_nothing() {
    let mut ctx = withdraw_ctx(1_000, 5_000, 3_000);
    assert_eq!(withdraw(&mut ctx, 0), Err(CollateralVaultError::ZeroAmount));
    assert_eq!(withdraw(&mut ctx, 1_001), Err(CollateralVaultError::InsufficientCollateral));
    let mut ctx = withdraw_ctx(1_000, 999, 3_000);
    assert_eq!(withdraw(&mut ctx, 1_000), Err(CollateralVaultError::InsufficientVaultBalance));
    let mut ctx = withdraw_ctx(1_000, 5_000, 10);
    assert_eq!(withdraw(&mut ctx, 1_000), Err(CollateralVaultError::TokenOverflowError));
    assert!(ctx.actions.is_empty());
    assert_eq!(ctx.account_balance_pda.collateral_balance.available, 1_000);
}

fn claim_ctx() -> ClaimCollateral {
    ClaimCollateral {
        collateralizable_contract: key(2),
        destination_ata: key(12),
        collateral_reservations: CollateralReservations {
            reserving_contract: key(2),
            account_address: key(1),
            token_address: key(3),
            withdrawal_fee: 50,
            token_amount: 1_000,
            claimable_collateral: 995,
        },
        token_address: key(3),
        token_decimals: 6,
        account_address: key(1),
        tokens_registry: registry(5_000),
        account_balance_pda: balance(0, 1_000),
        bank_token_vault: key(4),
        bank_token_vault_ata: key(14),
        close_reservation_to: None,
        actions: vec![],
    }
}

#[test]
fn partial_claim_keeps_the_rest_reserved() {
    let mut ctx = claim_ctx();
    assert_eq!(claim_collateral_funds(&mut ctx, 500, false), Ok((497, 495)));
    assert_eq!(ctx.account_balance_pda.collateral_balance, CollateralBalance { available: 0, reserved: 497 });
    assert_eq!(ctx.collateral_reservations.token_amount, 497);
    assert_eq!(ctx.collateral_reservations.claimable_collateral, 495);
    assert_eq!(ctx.tokens_registry.collateral_tokens[1].1.user_cumulative_balance, 4_497);
    assert!(ctx.close_reservation_to.is_none());
    assert_eq!(only_transfer(&ctx.actions), (500, [14; 32], [12; 32], [4; 32], 6));
}

#[test]
fn full_claim_closes_the_reservation() {
    let mut ctx = claim_ctx();
    assert_eq!(claim_collateral_funds(&mut ctx, 995, false), Ok((0, 0)));
    assert_eq!(ctx.account_balance_pda.collateral_balance, CollateralBalance { available: 0, reserved: 0 });
    assert_eq!(ctx.tokens_registry.collateral_tokens[1].1.user_cumulative_balance, 4_000);
    assert_eq!(ctx.close_reservation_to.unwrap().bytes, [2; 32]);
    assert_eq!(only_transfer(&ctx.actions).0, 995);
}

#[test]
fn claim_with_release_gives_the_rest_back() {
    let mut ctx = claim_ctx();
    assert_eq!(claim_collateral_funds(&mut ctx, 500, true), Ok((497, 495)));
    assert_eq!(ctx.account_balance_pda.collateral_balance, CollateralBalance { available: 497, reserved: 0 });
    assert_eq!(ctx.tokens_registry.collateral_tokens[1].1.user_cumulative_balance, 4_497);
    assert_eq!(ctx.close_reservation_to.unwrap().bytes, [2; 32]);
}

#[test]
fn claim_refusals_change_nothing() {
    let mut ctx = claim_ctx();
    assert_eq!(claim_collateral_funds(&mut ctx, 0, false), Err(CollateralVaultError::ClaimAmountZero));
    assert_eq!(claim_collateral_funds(&mut ctx, 996, false), Err(CollateralVaultError::InsufficientCollateral));
    ctx.collateralizable_contract = key(9);
    assert_eq!(claim_collateral_funds(&mut ctx, 5, false), Err(CollateralVaultError::UnauthorizedCollateralizableContract));
    let mut ctx = claim_ctx();
    ctx.token_address = key(9);
    assert_eq!(claim_collateral_funds(&mut ctx, 5, false), Err(CollateralVaultError::TokenNotSupported));
    let mut ctx = claim_ctx();
    ctx.account_address = key(9);
    assert_eq!(claim_collateral_funds(&mut ctx, 5, false), Err(CollateralVaultError::WrongAccountAddress));
    let mut ctx = claim_ctx();
    ctx.tokens_registry.collateral_tokens[1].1.user_cumulative_balance = 100;
    assert_eq!(claim_collateral_funds(&mut ctx, 500, false), Err(CollateralVaultError::TokenOverflowError));
    assert!(ctx.actions.is_empty());
    assert_eq!(ctx.account_balance_pda.collateral_balance.reserved, 1_000);
    assert_eq!(ctx.collateral_reservations.token_amount, 1_000);
}
