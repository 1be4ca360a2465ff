use collateral_vault::accounts::{
    AccountCollateralizableAllowance, AccountsBalance, CollateralBalance, CollateralReservations,
    CollateralReservationsNonce, CollateralToken, CollateralizableContracts, TokenRegistry,
};
use collateral_vault::collateral::{
    modify_allowance_amount, modify_collateral_reservations, modify_collateralizable_token_allowance, pool_collateral,
    release_all_collateral, reserve_claimable_collateral, reserve_collateral, reserve_collateral_internal,
    transfer_collateral, ModifyCollateralReservations, ModifyCollateralizableTokenAllowance, PoolCollateral,
    ReleaseAllCollateral, ReserveCollateral, TransferCollateral,
};
use collateral_vault::errors::CollateralVaultError;
use collateral_vault::pubkey::Pubkey;

fn key(b: u8) -> Pubkey {
    Pubkey { bytes: [b; 32] }
}

fn balance(available: u64, reserved: u64) -> AccountsBalance {
    AccountsBalance { collateral_balance: CollateralBalance { available, reserved }, bump_accounts_balance: 7, padding: [0; 7] }
}

fn allowance(a: u64) -> AccountCollateralizableAllowance {
    AccountCollateralizableAllowance { current_allowance: a, bump_account_collateralizable: 3, padding: [0; 7] }
}

fn empty_reservation() -> CollateralReservations {
    CollateralReservations {
        reserving_contract: key(0),
        account_address: key(0),
        token_address: key(0),
        withdrawal_fee: 0,
        token_amount: 0,
        claimable_collateral: 0,
    }
}

const ACCOUNT: u8 = 1;
const CONTRACT: u8 = 2;
const TOKEN: u8 = 3;

fn reserve_ctx(available: u64, allowed: u64) -> ReserveCollateral {
    ReserveCollateral {
        account_address: key(ACCOUNT),
        reserving_contract: key(CONTRACT),
        token_address: key(TOKEN),
        tokens_registry: TokenRegistry {
            token_registry_bump: 1, governance: key(1),
            collateral_tokens: vec![(key(TOKEN), CollateralToken { user_cumulative_balance: 5_000, is_enabled: true })],
        },
        collateralizable_contracts: CollateralizableContracts { collaterizable_contracts_bump: 1, governance: key(1), collaterizable_contracts: vec![key(CONTRACT)] },
        account_balance_pda: balance(available, 0),
        account_collateralizable_allowance: allowance(allowed),
        collateral_reservations_nonce: CollateralReservationsNonce { nonce: 41 },
        collateral_reservations: empty_reservation(),
    }
}

#[test]
fn reserve_collateral_moves_available_to_reserved() {
    let mut ctx = reserve_ctx(1_000, 2_000);
    let (claimable, id) = reserve_collateral(&mut ctx, key(ACCOUNT), 1_000).unwrap();
    assert_eq!(claimable, 995);
    assert_eq!(id, 42);
    assert_eq!(ctx.collateral_reservations_nonce.nonce, 42);
    assert_eq!(ctx.account_balance_pda.collateral_balance, CollateralBalance { available: 0, reserved: 1_000 });
    assert_eq!(ctx.account_collateralizable_allowance.current_allowance, 1_000);
    let r = ctx.collateral_reservations;
    assert_eq!(r.reserving_contract.bytes, [CONTRACT; 32]);
    assert_eq!(r.account_address.bytes, [ACCOUNT; 32]);
    assert_eq!(r.token_address.bytes, [TOKEN; 32]);
    assert_eq!(r.withdrawal_fee, 50);
    assert_eq!(r.token_amount, 1_000);
    assert_eq!(r.claimable_collateral, 995);
}

#[test]
fn reserve_collateral_refusals_change_nothing() {
    let mut ctx = reserve_ctx(1_000, 2_000);
    assert_eq!(reserve_collateral(&mut ctx, key(ACCOUNT), 1), Err(CollateralVaultError::ClaimableAmountZero));
    assert_eq!(reserve_collateral(&mut ctx, key(ACCOUNT), 1_001), Err(CollateralVaultError::InsufficientCollateral));
    let mut ctx = reserve_ctx(5_000, 1_000);
    assert_eq!(reserve_collateral(&mut ctx, key(ACCOUNT), 1_000), Err(CollateralVaultError::InsufficientAllowance));
    assert_eq!(ctx.account_collateralizable_allowance.current_allowance, 1_000);
    assert_eq!(ctx.account_balance_pda.collateral_balance.available, 5_000);
    assert_eq!(ctx.collateral_reservations_nonce.nonce, 41);
    let mut ctx = reserve_ctx(5_000, 9_000);
    ctx.collateralizable_contracts.collaterizable_contracts.clear();
    assert_eq!(reserve_collateral(&mut ctx, key(ACCOUNT), 1_000), Err(CollateralVaultError::UnapprovedCollateralizableContract));
    let mut ctx = reserve_ctx(5_000, 9_000);
    ctx.tokens_registry.collateral_tokens[0].1.is_enabled = false;
    assert_eq!(reserve_collateral(&mut ctx, key(ACCOUNT), 1_000), Err(CollateralVaultError::TokenNotAllowed));
    ctx.tokens_registry.collateral_tokens.clear();
    assert_eq!(reserve_collateral(&mut ctx, key(ACCOUNT), 1_000), Err(CollateralVaultError::TokenNotSupported));
}

#[test]
fn a_contract_reserving_its_own_collateral_needs_no_allowance() {
    let mut ctx = reserve_ctx(1_000, 0);
    ctx.reserving_contract = key(ACCOUNT);
    ctx.collateralizable_contracts.collaterizable_contracts.clear();
    assert!(reserve_collateral(&mut ctx, key(ACCOUNT), 500).is_ok());
    assert_eq!(ctx.account_collateralizable_allowance.current_allowance, 0);
    assert_eq!(ctx.account_balance_pda.collateral_balance, CollateralBalance { available: 500, reserved: 500 });
}

#[test]
fn reserve_claimable_collateral_adds_the_fee() {
    let mut ctx = reserve_ctx(1_000, 2_000);
    let (total, id) = reserve_claimable_collateral(&mut ctx, key(ACCOUNT), 995).unwrap();
    assert_eq!(total, 999);
    assert_eq!(id, 42);
    assert_eq!(ctx.account_balance_pda.collateral_balance, CollateralBalance { available: 1, reserved: 999 });
    assert_eq!(ctx.collateral_reservations.claimable_collateral, 995);
    assert_eq!(ctx.collateral_reservations.token_amount, 999);
}

#[test]
fn reserve_collateral_internal_needs_claimable_within_reserved() {
    let mut ctx = reserve_ctx(1_000, 2_000);
    assert_eq!(reserve_collateral_internal(&mut ctx, key(ACCOUNT), 10, 11), Err(CollateralVaultError::InsufficientCollateral));
    assert_eq!(reserve_collateral_internal(&mut ctx, key(ACCOUNT), 10, 0), Err(CollateralVaultError::ClaimableAmountZero));
    assert_eq!(reserve_collateral_internal(&mut ctx, key(ACCOUNT), 10, 10), Ok(42));
}

fn reservation(token_amount: u128, claimable: u128) -> CollateralReservations {
    CollateralReservations {
        reserving_contract: key(CONTRACT),
        account_address: key(ACCOUNT),
        token_address: key(TOKEN),
        withdrawal_fee: 50,
        token_amount,
        claimable_collateral: claimable,
    }
}

#[test]
fn release_all_collateral_gives_it_back() {
    let mut ctx = ReleaseAllCollateral {
        reserving_contract: key(CONTRACT),
        token_address: key(TOKEN),
        account_address: key(ACCOUNT),
        collateral_reservations: reservation(1_000, 995),
        account_balance_pda: balance(10, 1_000),
        close_reservation_to: None,
    };
    assert_eq!(release_all_collateral(&mut ctx), Ok(1_000));
    assert_eq!(ctx.account_balance_pda.collateral_balance, CollateralBalance { available: 1_010, reserved: 0 });
    assert_eq!(ctx.close_reservation_to.unwrap().bytes, [CONTRACT; 32]);
}

#[test]
fn release_all_collateral_checks_the_reservation() {
    let base = || ReleaseAllCollateral {
        reserving_contract: key(CONTRACT),
        token_address: key(TOKEN),
        account_address: key(ACCOUNT),
        collateral_reservations: reservation(1_000, 995),
        account_balance_pda: balance(10, 1_000),
        close_reservation_to: None,
    };
    let mut ctx = base();
    ctx.reserving_contract = key(9);
    assert_eq!(release_all_collateral(&mut ctx), Err(CollateralVaultError::UnapprovedCollateralizableContract));
    let mut ctx = base();
    ctx.token_address = key(9);
    assert_eq!(release_all_collateral(&mut ctx), Err(CollateralVaultError::TokenNotSupported));
    let mut ctx = base();
    ctx.account_address = key(9);
    assert_eq!(release_all_collateral(&mut ctx), Err(CollateralVaultError::WrongAccountAddress));
    assert!(ctx.close_reservation_to.is_none());
    assert_eq!(ctx.account_balance_pda.collateral_balance, CollateralBalance { available: 10, reserved: 1_000 });
}

fn modify_ctx(available: u64, reserved: u64, token_amount: u128, allowed: u64) -> ModifyCollateralReservations {
    ModifyCollateralReservations {
        reserving_contract: key(CONTRACT),
        account_address: key(ACCOUNT),
        tokens_registry: TokenRegistry {
            token_registry_bump: 1, governance: key(1),
            collateral_tokens: vec![(key(TOKEN), CollateralToken { user_cumulative_balance: 0, is_enabled: true })],
        },
        collateralizable_contracts: CollateralizableContracts { collaterizable_contracts_bump: 1, governance: key(1), collaterizable_contracts: vec![key(CONTRACT)] },
        collateral_reservations: reservation(token_amount, 1),
        account_balance_pda: balance(available, reserved),
        account_collateralizable_allowance: allowance(allowed),
    }
}

#[test]
fn shrinking_a_reservation_frees_collateral() {
    let mut ctx = modify_ctx(0, 1_000, 1_000, 0);
    assert_eq!(modify_collateral_reservations(&mut ctx, -400), Ok((600, 597)));
    assert_eq!(ctx.account_balance_pda.collateral_balance, CollateralBalance { available: 400, reserved: 600 });
    assert_eq!(ctx.collateral_reservations.token_amount, 600);
    assert_eq!(ctx.collateral_reservations.claimable_collateral, 597);
}

#[test]
fn growing_a_reservation_uses_allowance() {
    let mut ctx = modify_ctx(1_000, 1_000, 1_000, 600);
    assert_eq!(modify_collateral_reservations(&mut ctx, 500), Ok((1_500, 1_492)));
    assert_eq!(ctx.account_balance_pda.collateral_balance, CollateralBalance { available: 500, reserved: 1_500 });
    assert_eq!(ctx.account_collateralizable_allowance.current_allowance, 100);
}

#[test]
fn modify_collateral_reservations_refusals() {
    let mut ctx = modify_ctx(1_000, 1_000, 0, 600);
    assert_eq!(modify_collateral_reservations(&mut ctx, 5), Err(CollateralVaultError::CollateralReservationNotFound));
    let mut ctx = modify_ctx(1_000, 1_000, 1_000, 600);
    assert_eq!(modify_collateral_reservations(&mut ctx, 0), Ok((1_000, 1)));
    assert_eq!(modify_collateral_reservations(&mut ctx, -1_000), Err(CollateralVaultError::InsufficientCollateral));
    assert_eq!(modify_collateral_reservations(&mut ctx, 1_000), Err(CollateralVaultError::InsufficientAllowance));
    let mut ctx = modify_ctx(100, 1_000, 1_000, 600);
    assert_eq!(modify_collateral_reservations(&mut ctx, 101), Err(CollateralVaultError::InsufficientCollateral));
    // Growing by exactly what is available is accepted.
    assert_eq!(modify_collateral_reservations(&mut ctx, 100), Ok((1_100, 1_094)));
    assert_eq!(ctx.account_balance_pda.collateral_balance, CollateralBalance { available: 0, reserved: 1_100 });
    // A growth with a disabled token is refused before anything else.
    let mut ctx = modify_ctx(100, 1_000, 1_000, 600);
    ctx.tokens_registry.collateral_tokens[0].1.is_enabled = false;
    assert_eq!(modify_collateral_reservations(&mut ctx, 100), Err(CollateralVaultError::TokenNotAllowed));
    let mut ctx = modify_ctx(0, 1, 1, 0);
    assert_eq!(modify_collateral_reservations(&mut ctx, 0), Ok((1, 1)));
    let mut ctx = modify_ctx(0, 2, 2, 0);
    assert_eq!(modify_collateral_reservations(&mut ctx, -1), Err(CollateralVaultError::ClaimableAmountZero));
    assert_eq!(ctx.account_balance_pda.collateral_balance, CollateralBalance { available: 0, reserved: 2 });
    let mut ctx = modify_ctx(1_000, 1_000, 1_000, 600);
    ctx.reserving_contract = key(9);
    assert_eq!(modify_collateral_reservations(&mut ctx, 5), Err(CollateralVaultError::UnauthorizedCollateralizableContract));
}

fn pool_ctx(user: u64, contract: u64, allowed: u64) -> PoolCollateral {
    PoolCollateral {
        reserving_contract: key(CONTRACT),
        account_address: key(ACCOUNT),
        token_address: key(TOKEN),
        tokens_registry: TokenRegistry {
            token_registry_bump: 1, governance: key(1),
            collateral_tokens: vec![(key(TOKEN), CollateralToken { user_cumulative_balance: 0, is_enabled: true })],
        },
        collateralizable_contracts: CollateralizableContracts { collaterizable_contracts_bump: 1, governance: key(1), collaterizable_contracts: vec![key(CONTRACT)] },
        account_balance_pda_user: balance(user, 0),
        account_balance_pda_contract: balance(contract, 0),
        account_collateralizable_allowance: allowance(allowed),
    }
}

#[test]
fn pooling_moves_collateral_to_the_contract() {
    let mut ctx = pool_ctx(1_000, 5, 700);
    assert_eq!(pool_collateral(&mut ctx, 600), Ok(()));
    assert_eq!(ctx.account_balance_pda_user.collateral_balance.available, 400);
    assert_eq!(ctx.account_balance_pda_contract.collateral_balance.available, 605);
    assert_eq!(ctx.account_collateralizable_allowance.current_allowance, 100);
    let total = ctx.account_balance_pda_user.collateral_balance.available + ctx.account_balance_pda_contract.collateral_balance.available;
    assert_eq!(total, 1_005);
}

#[test]
fn pooling_refusals_change_nothing() {
    let mut ctx = pool_ctx(600, 5, 700);
    assert_eq!(pool_collateral(&mut ctx, 600), Err(CollateralVaultError::InsufficientCollateral));
    assert_eq!(ctx.account_collateralizable_allowance.current_allowance, 700);
    assert_eq!(ctx.account_balance_pda_user.collateral_balance.available, 600);
    let mut ctx = pool_ctx(1_000, 5, 600);
    assert_eq!(pool_collateral(&mut ctx, 600), Err(CollateralVaultError::InsufficientAllowance));
}

#[test]
fn transfer_collateral_between_accounts() {
    let mut ctx = TransferCollateral {
        caller: key(1),
        destination: key(2),
        token_address: key(TOKEN),
        account_balance_pda_from: balance(100, 9),
        account_balance_pda_to: balance(1, 0),
    };
    assert_eq!(transfer_collateral(&mut ctx, 99), Ok(()));
    assert_eq!(ctx.account_balance_pda_from.collateral_balance, CollateralBalance { available: 1, reserved: 9 });
    assert_eq!(ctx.account_balance_pda_to.collateral_balance, CollateralBalance { available: 100, reserved: 0 });
    assert_eq!(transfer_collateral(&mut ctx, 1), Err(CollateralVaultError::InsufficientCollateral));
    assert_eq!(transfer_collateral(&mut ctx, 0), Ok(()));
    ctx.destination = key(1);
    assert_eq!(transfer_collateral(&mut ctx, 50), Ok(()));
    assert_eq!(ctx.account_balance_pda_from.collateral_balance.available, 1);
}

#[test]
fn allowance_changes_saturate() {
    assert_eq!(modify_allowance_amount(10, 5), 15);
    assert_eq!(modify_allowance_amount(u64::MAX - 1, 5), u64::MAX);
    assert_eq!(modify_allowance_amount(10, -4), 6);
    assert_eq!(modify_allowance_amount(10, -11), 0);
    assert_eq!(modify_allowance_amount(10, i64::MIN), 0);
    assert_eq!(modify_allowance_amount(10, 0), 10);
    // Changing by an amount and back gives the allowance back when nothing saturates.
    assert_eq!(modify_allowance_amount(modify_allowance_amount(10, 7), -7), 10);
}

#[test]
fn modify_collateralizable_token_allowance_changes_it() {
    let mut ctx = ModifyCollateralizableTokenAllowance {
        caller: key(ACCOUNT),
        collateralizable_contract: key(CONTRACT),
        token_address: key(TOKEN),
        collateralizable_contracts: CollateralizableContracts { collaterizable_contracts_bump: 1, governance: key(1), collaterizable_contracts: vec![key(CONTRACT)] },
        account_collateralizable_allowance: allowance(10),
    };
    assert_eq!(modify_collateralizable_token_allowance(&mut ctx, 0), Ok(()));
    assert_eq!(ctx.account_collateralizable_allowance.current_allowance, 10);
    assert_eq!(modify_collateralizable_token_allowance(&mut ctx, -3), Ok(()));
    assert_eq!(ctx.account_collateralizable_allowance.current_allowance, 7);
    assert_eq!(modify_collateralizable_token_allowance(&mut ctx, 5), Ok(()));
    assert_eq!(ctx.account_collateralizable_allowance.current_allowance, 12);
    ctx.collateralizable_contract = key(9);
    assert_eq!(modify_collateralizable_token_allowance(&mut ctx, 5), Err(CollateralVaultError::UnapprovedCollateralizableContract));
    // An unapproved contract's allowance can still be lowered, down to zero.
    assert_eq!(modify_collateralizable_token_allowance(&mut ctx, -20), Ok(()));
    assert_eq!(ctx.account_collateralizable_allowance.current_allowance, 0);
}
