use vstd::prelude::*;

use crate::collateral::{
    pool_collateral as pool, pool_error, pooled_state, release_all_collateral, release_error, release_fits,
    released_state, reserve_error, reserve_fits, reserved_state, total_with_fee_of, pool_fits, claimable_of,
    PoolCollateral, ReleaseAllCollateral, ReserveCollateral,
};
use crate::deposits::{
    approvals, approvals_reached, deposit_plus_approve, deposit_to_account, deposits, deposits_reached,
    only_enabled_collateral_tokens,
    tokens_enabled_error, DepositAndApprove, DepositView,
};
use crate::errors::CollateralVaultError;
use crate::pricing::{amount_with_fee_fits, WITHDRAWAL_FEE_BASIS_POINTS};
use crate::pubkey::Pubkey;
use crate::registry::{
    add_or_remove_supported_tokens, collateralizable_contract_add, contracts_after_update,
    init_tokens_registry_and_collateralizable_contracts, tokens_after_update, AddOrRemoveCollateralizableContract,
    AddOrRemoveSupportedTokens, OpType, SupportedTokenRegistryAndCollateralizbleContracts,
};

verus! {

/// Creates the token registry and the registry of approved contracts, both
/// empty, with the signing admin as their governance owner.
pub fn init_tokens_and_collateralizable_registry(ctx: &mut SupportedTokenRegistryAndCollateralizbleContracts) -> (r:
    Result<(), CollateralVaultError>)
    ensures
        r is Ok,
        final(ctx).tokens_registry.governance == old(ctx).admin,
        final(ctx).collateralizable_contracts.governance == old(ctx).admin,
        final(ctx).tokens_registry.collateral_tokens@.len() == 0,
        final(ctx).tokens_registry.token_registry_bump == old(ctx).tokens_registry_bump,
        final(ctx).collateralizable_contracts.collaterizable_contracts@.len() == 0,
        final(ctx).collateralizable_contracts.collaterizable_contracts_bump == old(ctx).collateralizable_contracts_bump,
{
    match init_tokens_registry_and_collateralizable_contracts(ctx) {
        Ok(()) => {},
        Err(e) => return Err(e),
    }
    Ok(())
}

/// Adds a supported collateral token, or removes one; only the governance
/// owner may.
pub fn update_supported_tokens(ctx: &mut AddOrRemoveSupportedTokens, token_address: Pubkey, operation_type: OpType) -> (r:
    Result<(), CollateralVaultError>)
    ensures
        old(ctx).admin@ != old(ctx).tokens_registry.governance@ ==> r == Err::<(), CollateralVaultError>(
            CollateralVaultError::UnauthorizedGovernance,
        ) && final(ctx).tokens_registry.collateral_tokens@ == old(ctx).tokens_registry.collateral_tokens@,
        old(ctx).admin@ == old(ctx).tokens_registry.governance@ ==> r is Ok
            && final(ctx).tokens_registry.collateral_tokens@ == tokens_after_update(
            old(ctx).tokens_registry.collateral_tokens@,
            token_address,
            operation_type,
        ),
        final(ctx).tokens_registry.token_registry_bump == old(ctx).tokens_registry.token_registry_bump,
        final(ctx).tokens_registry.governance == old(ctx).tokens_registry.governance,
{
    match add_or_remove_supported_tokens(ctx, token_address, operation_type) {
        Ok(()) => {},
        Err(e) => return Err(e),
    }
    Ok(())
}

/// Approves a collateralizable contract, or withdraws its approval; only the
/// governance owner may.
pub fn update_collateralizable_contracts(
    ctx: &mut AddOrRemoveCollateralizableContract,
    collateralizable_contract_address: Pubkey,
    operation_type: OpType,
) -> (r: Result<(), CollateralVaultError>)
    ensures
        old(ctx).admin@ != old(ctx).collateralizable_contracts.governance@ ==> r == Err::<(), CollateralVaultError>(
            CollateralVaultError::UnauthorizedGovernance,
        ) && final(ctx).collateralizable_contracts.collaterizable_contracts@
            == old(ctx).collateralizable_contracts.collaterizable_contracts@,
        old(ctx).admin@ == old(ctx).collateralizable_contracts.governance@ ==> r is Ok
            && final(ctx).collateralizable_contracts.collaterizable_contracts@ == contracts_after_update(
            old(ctx).collateralizable_contracts.collaterizable_contracts@,
            collateralizable_contract_address,
            operation_type,
        ),
        final(ctx).collateralizable_contracts.collaterizable_contracts_bump
            == old(ctx).collateralizable_contracts.collaterizable_contracts_bump,
        final(ctx).collateralizable_contracts.governance == old(ctx).collateralizable_contracts.governance,
{
    match collateralizable_contract_add(ctx, collateralizable_contract_address, operation_type) {
        Ok(()) => {},
        Err(e) => return Err(e),
    }
    Ok(())
}

/// The outcome of depositing `token_amounts[i]` of each `token_addresses[i]` for
/// the caller and then approving `contract` for each amount, once every token is
/// known to be enabled.
pub open spec fn deposit_plus_approve_outcome(
    ctx: DepositAndApprove,
    token_addresses: Seq<Pubkey>,
    token_amounts: Seq<u64>,
    contract: Pubkey,
) -> Result<DepositView, CollateralVaultError> {
    if !ctx.collateralizable_contracts.keys().contains(contract@) {
        Err(CollateralVaultError::UnapprovedCollateralizableContract)
    } else if token_addresses.len() != token_amounts.len() {
        Err(CollateralVaultError::MismatchedTokenAddressesAndAmountsLength)
    } else {
        match deposits(ctx, ctx.state(), ctx.caller, ctx.caller, token_addresses, token_amounts) {
            Err(e) => Err(e),
            Ok(s1) => approvals(ctx, s1, ctx.caller, contract, token_addresses, token_amounts),
        }
    }
}

/// The changing part of the accounts once a refused deposit and approval has
/// run: as it was where the contract is not approved or the lists differ in
/// length, else after the deposits and approvals before the refused one.
pub open spec fn deposit_plus_approve_reached(
    ctx: DepositAndApprove,
    token_addresses: Seq<Pubkey>,
    token_amounts: Seq<u64>,
    contract: Pubkey,
) -> DepositView {
    if !ctx.collateralizable_contracts.keys().contains(contract@) || token_addresses.len() != token_amounts.len() {
        ctx.state()
    } else {
        match deposits(ctx, ctx.state(), ctx.caller, ctx.caller, token_addresses, token_amounts) {
            Err(_) => deposits_reached(ctx, ctx.state(), ctx.caller, ctx.caller, token_addresses, token_amounts),
            Ok(s1) => approvals_reached(ctx, s1, ctx.caller, contract, token_addresses, token_amounts),
        }
    }
}

/// Deposits collateral for the caller and approves a contract for it, once every
/// token is a supported and enabled collateral token.
pub fn deposit_and_approve(
    ctx: &mut DepositAndApprove,
    token_addresses: Vec<Pubkey>,
    token_amounts: Vec<u64>,
    collateralizable_contract_address_to_approve: Pubkey,
) -> (r: Result<(), CollateralVaultError>)
    ensures
        final(ctx).same_setting(*old(ctx)),
        match tokens_enabled_error(old(ctx).tokens_registry.collateral_tokens@, token_addresses@) {
            Some(e) => r == Err::<(), CollateralVaultError>(e) && final(ctx).state() == old(ctx).state(),
            None => match deposit_plus_approve_outcome(
                *old(ctx),
                token_addresses@,
                token_amounts@,
                collateralizable_contract_address_to_approve,
            ) {
                Ok(s) => r is Ok && final(ctx).state() == s,
                Err(e) => r == Err::<(), CollateralVaultError>(e) && final(ctx).state()
                    == deposit_plus_approve_reached(
                    *old(ctx),
                    token_addresses@,
                    token_amounts@,
                    collateralizable_contract_address_to_approve,
                ),
            },
        },
{
    match only_enabled_collateral_tokens(ctx, &token_addresses) {
        Ok(()) => {},
        Err(e) => return Err(e),
    }
    match deposit_plus_approve(ctx, &token_addresses, token_amounts, collateralizable_contract_address_to_approve) {
        Ok(()) => {},
        Err(e) => return Err(e),
    }
    Ok(())
}

/// Deposits collateral for `account_address`, paid by the caller, once every
/// token is a supported and enabled collateral token.
pub fn deposit_to_account_ext(
    ctx: &mut DepositAndApprove,
    account_address: Pubkey,
    token_addresses: Vec<Pubkey>,
    token_amounts: Vec<u64>,
) -> (r: Result<(), CollateralVaultError>)
    ensures
        final(ctx).same_setting(*old(ctx)),
        match tokens_enabled_error(old(ctx).tokens_registry.collateral_tokens@, token_addresses@) {
            Some(e) => r == Err::<(), CollateralVaultError>(e) && final(ctx).state() == old(ctx).state(),
            None => if token_addresses@.len() != token_amounts@.len() {
                r == Err::<(), CollateralVaultError>(CollateralVaultError::MismatchedTokenAddressesAndAmountsLength)
                    && final(ctx).state() == old(ctx).state()
            } else {
                match deposits(
                    *old(ctx),
                    old(ctx).state(),
                    old(ctx).caller,
                    account_address,
                    token_addresses@,
                    token_amounts@,
                ) {
                    Ok(s) => r is Ok && final(ctx).state() == s,
                    Err(e) => r == Err::<(), CollateralVaultError>(e) && final(ctx).state() == deposits_reached(
                        *old(ctx),
                        old(ctx).state(),
                        old(ctx).caller,
                        account_address,
                        token_addresses@,
                        token_amounts@,
                    ),
                }
            },
        },
{
    match only_enabled_collateral_tokens(ctx, &token_addresses) {
        Ok(()) => {},
        Err(e) => return Err(e),
    }
    match deposit_to_account(ctx, account_address, &token_addresses, &token_amounts) {
        Ok(()) => {},
        Err(e) => return Err(e),
    }
    Ok(())
}

/// Reserves `amount` of an account's collateral for the signing contract.
pub fn reserve_collateral_ext(ctx: &mut ReserveCollateral, account_address: Pubkey, amount: u64) -> (r: Result<
    (),
    CollateralVaultError,
>)
    requires
        reserve_fits(*old(ctx), amount, claimable_of(amount)),
    ensures
        match reserve_error(*old(ctx), amount, claimable_of(amount)) {
            Some(e) => r == Err::<(), CollateralVaultError>(e) && *final(ctx) == *old(ctx),
            None => r is Ok && reserved_state(*old(ctx), *final(ctx), account_address, amount, claimable_of(amount)),
        },
{
    match crate::collateral::reserve_collateral(ctx, account_address, amount) {
        Ok(_) => {},
        Err(e) => return Err(e),
    }
    Ok(())
}

/// Releases all of a reservation back to the account. Returns the amount released.
pub fn release_all_collateral_ext(ctx: &mut ReleaseAllCollateral) -> (r: Result<u128, CollateralVaultError>)
    requires
        release_fits(*old(ctx)),
    ensures
        match release_error(*old(ctx)) {
            Some(e) => r == Err::<u128, CollateralVaultError>(e) && *final(ctx) == *old(ctx),
            None => r == Ok::<u128, CollateralVaultError>(old(ctx).collateral_reservations.token_amount)
                && released_state(*old(ctx), *final(ctx)),
        },
{
    let total_collateral_released = match release_all_collateral(ctx) {
        Ok(v) => v,
        Err(e) => return Err(e),
    };
    Ok(total_collateral_released)
}

/// Reserves what the signing contract needs to claim `claimable_amount`, fee
/// included. Returns the total reserved and the reservation's id.
pub fn reserve_claimable_collateral(
    ctx: &mut ReserveCollateral,
    account_address: Pubkey,
    claimable_amount: u128,
) -> (r: Result<(u64, u64), CollateralVaultError>)
    requires
        amount_with_fee_fits(claimable_amount, WITHDRAWAL_FEE_BASIS_POINTS as u128),
        reserve_fits(*old(ctx), total_with_fee_of(claimable_amount), claimable_amount as u64),
    ensures
        match reserve_error(*old(ctx), total_with_fee_of(claimable_amount), claimable_amount as u64) {
            Some(e) => r == Err::<(u64, u64), CollateralVaultError>(e) && *final(ctx) == *old(ctx),
            None => r == Ok::<(u64, u64), CollateralVaultError>(
                (total_with_fee_of(claimable_amount), (old(ctx).collateral_reservations_nonce.nonce + 1) as u64),
            ) && reserved_state(
                *old(ctx),
                *final(ctx),
                account_address,
                total_with_fee_of(claimable_amount),
                claimable_amount as u64,
            ),
        },
{
    let (total_amount_reserved, reservation_id) = match crate::collateral::reserve_claimable_collateral(
        ctx,
        account_address,
        claimable_amount,
    ) {
        Ok(v) => v,
        Err(e) => return Err(e),
    };
    Ok((total_amount_reserved, reservation_id))
}

/// Takes `amount` of an account's available collateral into the signing
/// contract's balance.
pub fn pool_collateral(ctx: &mut PoolCollateral, amount: u128) -> (r: Result<(), CollateralVaultError>)
    requires
        pool_fits(*old(ctx), amount),
    ensures
        match pool_error(*old(ctx), amount) {
            Some(e) => r == Err::<(), CollateralVaultError>(e) && *final(ctx) == *old(ctx),
            None => r is Ok && pooled_state(*old(ctx), *final(ctx), amount),
        },
{
    match pool(ctx, amount) {
        Ok(()) => {},
        Err(e) => return Err(e),
    }
    Ok(())
}

} // verus!
