use vstd::prelude::*;

use crate::accounts::{AccountsBalance, CollateralReservations, TokenRegistry};
use crate::actions::{TokenTransfer, VaultAction};
use crate::errors::CollateralVaultError;
use crate::pricing::{
    amount_with_fee, amount_with_fee_fits, percentage_of, spec_amount_before_fee, spec_amount_with_fee, spec_percentage_of,
    WITHDRAWAL_FEE_BASIS_POINTS,
};
use crate::pubkey::Pubkey;
use crate::registry::{
    apply_cumulative_change, cumulative_after, cumulative_error, plan_cumulative_change, signed_change,
};

verus! {

// ---------------------------------------------------------------------------
// Withdrawing available collateral
// ---------------------------------------------------------------------------

/// The accounts of the instruction by which an account withdraws some of its
/// available collateral.
pub struct Withdraw {
    /// The account that withdraws, and signs.
    pub withdrawer: Pubkey,
    /// The token's mint.
    pub token_address: Pubkey,
    /// The decimals of the token's mint.
    pub token_decimals: u8,
    /// The withdrawer's token account for the token.
    pub withdrawer_ata: Pubkey,
    pub tokens_registry: TokenRegistry,
    /// The balance of `withdrawer` in `token_address`.
    pub account_balance_pda: AccountsBalance,
    /// The authority of the vault's token accounts.
    pub bank_token_vault: Pubkey,
    /// The vault's token account for the token.
    pub bank_token_vault_ata: Pubkey,
    /// What `bank_token_vault_ata` holds.
    pub bank_token_vault_ata_amount: u64,
    /// The transfers and other work the instruction hands on, in order.
    pub actions: Vec<VaultAction>,
}

/// Why withdrawing `amount` is refused by its first checks, if it is: a zero
/// amount, more than the account has available, or more than the vault holds.
pub open spec fn validate_withdraw_error(ctx: Withdraw, amount: u128) -> Option<CollateralVaultError> {
    if amount == 0 {
        Some(CollateralVaultError::ZeroAmount)
    } else if amount > ctx.account_balance_pda.collateral_balance.available {
        Some(CollateralVaultError::InsufficientCollateral)
    } else if (ctx.bank_token_vault_ata_amount as u128) < amount {
        Some(CollateralVaultError::InsufficientVaultBalance)
    } else {
        None
    }
}

/// Why withdrawing `amount` is refused, if it is.
pub open spec fn withdraw_error(ctx: Withdraw, amount: u128) -> Option<CollateralVaultError> {
    match validate_withdraw_error(ctx, amount) {
        Some(e) => Some(e),
        None => cumulative_error(
            ctx.tokens_registry.collateral_tokens@,
            ctx.token_address@,
            signed_change(false, amount as u64),
        ),
    }
}

/// The transfer that pays out a withdrawal of `amount`: the amount less the
/// withdrawal fee, from the vault to the withdrawer.
pub open spec fn withdraw_transfer(ctx: Withdraw, amount: u128) -> TokenTransfer {
    TokenTransfer {
        from: ctx.bank_token_vault_ata,
        to: ctx.withdrawer_ata,
        mint: ctx.token_address,
        authority: ctx.bank_token_vault,
        amount: (amount - spec_percentage_of(amount as int, WITHDRAWAL_FEE_BASIS_POINTS as int)) as u64,
        decimals: ctx.token_decimals,
    }
}

/// The accounts after an accepted withdrawal of `amount`.
pub open spec fn withdrawn_state(old: Withdraw, new: Withdraw, amount: u128) -> bool {
    &&& new.account_balance_pda.collateral_balance.available == old.account_balance_pda.collateral_balance.available
        - amount
    &&& new.account_balance_pda.collateral_balance.reserved == old.account_balance_pda.collateral_balance.reserved
    &&& new.account_balance_pda.bump_accounts_balance == old.account_balance_pda.bump_accounts_balance
    &&& new.account_balance_pda.padding == old.account_balance_pda.padding
    &&& new.tokens_registry.collateral_tokens@ == cumulative_after(
        old.tokens_registry.collateral_tokens@,
        old.token_address@,
        signed_change(false, amount as u64),
    )
    &&& new.tokens_registry.token_registry_bump == old.tokens_registry.token_registry_bump
    &&& new.tokens_registry.governance == old.tokens_registry.governance
    &&& new.actions@ == old.actions@.push(VaultAction::TransferChecked(withdraw_transfer(old, amount)))
    &&& new.withdrawer == old.withdrawer
    &&& new.token_address == old.token_address
    &&& new.token_decimals == old.token_decimals
    &&& new.withdrawer_ata == old.withdrawer_ata
    &&& new.bank_token_vault == old.bank_token_vault
    &&& new.bank_token_vault_ata == old.bank_token_vault_ata
    &&& new.bank_token_vault_ata_amount == old.bank_token_vault_ata_amount
}

/// A withdrawal pays out the amount less the 0.5% fee: the payout and the fee
/// add up to the amount, and the payout never exceeds it.
pub proof fn lemma_withdraw_pays_amount_less_fee(ctx: Withdraw, amount: u128)
    requires
        validate_withdraw_error(ctx, amount) is None,
    ensures
        withdraw_transfer(ctx, amount).amount + spec_percentage_of(amount as int, WITHDRAWAL_FEE_BASIS_POINTS as int)
            == amount,
        withdraw_transfer(ctx, amount).amount <= amount,
{
    crate::pricing::lemma_percentage_of_bounded(amount as nat, WITHDRAWAL_FEE_BASIS_POINTS as nat);
}

impl Withdraw {
    /// Checks that `amount` is not zero, that the withdrawer has it available,
    /// and that the vault holds it.
    pub fn validate_withdraw(&self, amount: u128) -> (r: Result<(), CollateralVaultError>)
        ensures
            match validate_withdraw_error(*self, amount) {
                Some(e) => r == Err::<(), CollateralVaultError>(e),
                None => r is Ok,
            },
    {
        if !(amount > 0) {
            return Err(CollateralVaultError::ZeroAmount);
        }
        let available_withdrawable_amount = self.account_balance_pda.collateral_balance.available as u128;
        if !(amount <= available_withdrawable_amount) {
            return Err(CollateralVaultError::InsufficientCollateral);
        }
        let vault_balance = self.bank_token_vault_ata_amount as u128;
        if !(vault_balance >= amount) {
            return Err(CollateralVaultError::InsufficientVaultBalance);
        }
        Ok(())
    }

    /// Checks the withdrawal and hands on the transfer of `amount`, less the
    /// withdrawal fee, from the vault to the withdrawer.
    pub fn initiate_withdraw(&mut self, amount: u128) -> (r: Result<(), CollateralVaultError>)
        ensures
            match validate_withdraw_error(*old(self), amount) {
                Some(e) => r == Err::<(), CollateralVaultError>(e) && *final(self) == *old(self),
                None => r is Ok && final(self).actions@ == old(self).actions@.push(
                    VaultAction::TransferChecked(withdraw_transfer(*old(self), amount)),
                ) && final(self).account_balance_pda == old(self).account_balance_pda && final(self).tokens_registry
                    == old(self).tokens_registry && final(self).withdrawer == old(self).withdrawer
                    && final(self).token_address == old(self).token_address && final(self).token_decimals
                    == old(self).token_decimals && final(self).withdrawer_ata == old(self).withdrawer_ata
                    && final(self).bank_token_vault == old(self).bank_token_vault && final(self).bank_token_vault_ata
                    == old(self).bank_token_vault_ata && final(self).bank_token_vault_ata_amount
                    == old(self).bank_token_vault_ata_amount,
            },
    {
        match self.validate_withdraw(amount) {
            Ok(()) => {},
            Err(e) => return Err(e),
        }
        let withdraw_fee = match percentage_of(amount, WITHDRAWAL_FEE_BASIS_POINTS as u128) {
            Ok(fee) => fee,
            Err(e) => return Err(e),
        };
        proof {
            crate::pricing::lemma_percentage_of_bounded(amount as nat, WITHDRAWAL_FEE_BASIS_POINTS as nat);
        }
        let final_amount = amount - withdraw_fee;
        self.actions.push(
            VaultAction::TransferChecked(
                TokenTransfer {
                    from: self.bank_token_vault_ata,
                    to: self.withdrawer_ata,
                    mint: self.token_address,
                    authority: self.bank_token_vault,
                    amount: final_amount as u64,
                    decimals: self.token_decimals,
                },
            ),
        );
        Ok(())
    }
}

/// Withdraws `amount` of the withdrawer's available collateral: the vault pays
/// it out less the withdrawal fee, and the token's cumulative balance drops by it.
pub fn withdraw(ctx: &mut Withdraw, amount: u128) -> (r: Result<(), CollateralVaultError>)
    ensures
        match withdraw_error(*old(ctx), amount) {
            Some(e) => r == Err::<(), CollateralVaultError>(e) && *final(ctx) == *old(ctx),
            None => r is Ok && withdrawn_state(*old(ctx), *final(ctx), amount),
        },
{
    match ctx.validate_withdraw(amount) {
        Ok(()) => {},
        Err(e) => return Err(e),
    }
    let plan = match plan_cumulative_change(&ctx.tokens_registry.collateral_tokens, &ctx.token_address, false, amount as u64) {
        Ok(plan) => plan,
        Err(e) => return Err(e),
    };
    match ctx.initiate_withdraw(amount) {
        Ok(()) => {},
        Err(e) => return Err(e),
    }
    ctx.account_balance_pda.collateral_balance.available = ctx.account_balance_pda.collateral_balance.available
        - amount as u64;
    apply_cumulative_change(
        &mut ctx.tokens_registry.collateral_tokens,
        plan,
        Ghost(ctx.token_address@),
        Ghost(signed_change(false, amount as u64)),
    );
    Ok(())
}

// ---------------------------------------------------------------------------
// Claiming reserved collateral
// ---------------------------------------------------------------------------

/// The accounts of the instruction by which a collateralizable contract claims
/// collateral it reserved.
pub struct ClaimCollateral {
    /// The contract that made the reservation, and signs.
    pub collateralizable_contract: Pubkey,
    /// The token account that receives what is claimed.
    pub destination_ata: Pubkey,
    pub collateral_reservations: CollateralReservations,
    /// The token's mint.
    pub token_address: Pubkey,
    /// The decimals of the token's mint.
    pub token_decimals: u8,
    /// The account whose collateral is claimed.
    pub account_address: Pubkey,
    pub tokens_registry: TokenRegistry,
    /// The balance of `account_address` in `token_address`.
    pub account_balance_pda: AccountsBalance,
    /// The authority of the vault's token accounts.
    pub bank_token_vault: Pubkey,
    /// The vault's token account for the token.
    pub bank_token_vault_ata: Pubkey,
    /// The account that receives the reservation account's lamports once it is
    /// closed; `None` while it stays open.
    pub close_reservation_to: Option<Pubkey>,
    /// The transfers and other work the instruction hands on, in order.
    pub actions: Vec<VaultAction>,
}

/// What stays claimable of the reservation after claiming `amount_to_receive`.
pub open spec fn remaining_claimable(ctx: ClaimCollateral, amount_to_receive: u64) -> int {
    ctx.collateral_reservations.claimable_collateral - amount_to_receive
}

/// What stays reserved after the claim: nothing once nothing stays claimable,
/// otherwise what stays claimable with the reservation's fee added.
pub open spec fn remaining_reserved(ctx: ClaimCollateral, amount_to_receive: u64) -> int {
    let rest = remaining_claimable(ctx, amount_to_receive);
    if rest == 0 {
        0
    } else {
        spec_amount_with_fee(rest, ctx.collateral_reservations.withdrawal_fee as int)
    }
}

/// What the claim takes out of the reservation, fee included.
pub open spec fn claim_amount_with_fee(ctx: ClaimCollateral, amount_to_receive: u64) -> int {
    if remaining_claimable(ctx, amount_to_receive) == 0 {
        ctx.collateral_reservations.token_amount as int
    } else {
        ctx.collateral_reservations.token_amount - remaining_reserved(ctx, amount_to_receive)
    }
}

/// Whether the claim ends the reservation: on request, or once nothing stays claimable.
pub open spec fn claim_releases(ctx: ClaimCollateral, amount_to_receive: u64, release_remainder: bool) -> bool {
    release_remainder || remaining_claimable(ctx, amount_to_receive) == 0
}

/// Why `initiate_claim` refuses its claim, if it does.
pub open spec fn initiate_claim_error(ctx: ClaimCollateral, amount_to_receive: u64, release_remainder: bool) -> Option<
    CollateralVaultError,
> {
    if amount_to_receive == 0 {
        Some(CollateralVaultError::ClaimAmountZero)
    } else if (ctx.collateral_reservations.claimable_collateral as u64) < amount_to_receive {
        Some(CollateralVaultError::InsufficientCollateral)
    } else {
        match cumulative_error(
            ctx.tokens_registry.collateral_tokens@,
            ctx.token_address@,
            -claim_amount_with_fee(ctx, amount_to_receive),
        ) {
            Some(e) => Some(e),
            None => if claim_releases(ctx, amount_to_receive, release_remainder) {
                if ctx.collateral_reservations.token_amount > u64::MAX {
                    Some(CollateralVaultError::IntegerConversionFailed)
                } else if remaining_reserved(ctx, amount_to_receive) > u64::MAX {
                    Some(CollateralVaultError::IntegerConversionFailed)
                } else {
                    None
                }
            } else if claim_amount_with_fee(ctx, amount_to_receive) > u64::MAX {
                Some(CollateralVaultError::IntegerConversionFailed)
            } else {
                None
            },
        }
    }
}

/// Whether a claim that passes its first checks runs without overflow or
/// underflow, and takes out at least what it pays.
pub open spec fn claim_fits(ctx: ClaimCollateral, amount_to_receive: u64, release_remainder: bool) -> bool {
    let validated = amount_to_receive != 0 && (ctx.collateral_reservations.claimable_collateral as u64)
        >= amount_to_receive;
    let rest = remaining_claimable(ctx, amount_to_receive);
    let with_fee = claim_amount_with_fee(ctx, amount_to_receive);
    let balance = ctx.account_balance_pda.collateral_balance;
    validated ==> {
        &&& rest != 0 ==> amount_with_fee_fits(rest as u128, ctx.collateral_reservations.withdrawal_fee as u128)
        &&& rest != 0 ==> ctx.collateral_reservations.token_amount >= remaining_reserved(ctx, amount_to_receive)
        &&& crate::pubkey::first_index(crate::accounts::token_keys(ctx.tokens_registry.collateral_tokens@), ctx.token_address@)
            != -1 ==> with_fee <= u64::MAX
        &&& cumulative_error(ctx.tokens_registry.collateral_tokens@, ctx.token_address@, -with_fee) is None ==> {
            if claim_releases(ctx, amount_to_receive, release_remainder) {
                &&& ctx.collateral_reservations.token_amount <= u64::MAX ==> balance.reserved
                    >= ctx.collateral_reservations.token_amount
                &&& ctx.collateral_reservations.token_amount <= u64::MAX && remaining_reserved(ctx, amount_to_receive)
                    <= u64::MAX ==> balance.available + remaining_reserved(ctx, amount_to_receive) <= u64::MAX
            } else {
                with_fee <= u64::MAX ==> balance.reserved >= with_fee
            }
        }
        &&& initiate_claim_error(ctx, amount_to_receive, release_remainder) is None ==> with_fee >= amount_to_receive
    }
}

/// The transfer that pays out a claim of `amount_to_receive`, from the vault to
/// the destination.
pub open spec fn claim_transfer(ctx: ClaimCollateral, amount_to_receive: u64) -> TokenTransfer {
    TokenTransfer {
        from: ctx.bank_token_vault_ata,
        to: ctx.destination_ata,
        mint: ctx.token_address,
        authority: ctx.bank_token_vault,
        amount: amount_to_receive,
        decimals: ctx.token_decimals,
    }
}

/// The accounts after an accepted claim.
pub open spec fn claimed_state(old: ClaimCollateral, new: ClaimCollateral, amount_to_receive: u64, release_remainder: bool) -> bool {
    let rest = remaining_claimable(old, amount_to_receive);
    let reserved_rest = remaining_reserved(old, amount_to_receive);
    let with_fee = claim_amount_with_fee(old, amount_to_receive);
    let balance = old.account_balance_pda.collateral_balance;
    &&& new.tokens_registry.collateral_tokens@ == cumulative_after(
        old.tokens_registry.collateral_tokens@,
        old.token_address@,
        -with_fee,
    )
    &&& new.tokens_registry.token_registry_bump == old.tokens_registry.token_registry_bump
    &&& new.tokens_registry.governance == old.tokens_registry.governance
    &&& if claim_releases(old, amount_to_receive, release_remainder) {
        &&& new.account_balance_pda.collateral_balance.reserved == balance.reserved
            - old.collateral_reservations.token_amount
        &&& new.account_balance_pda.collateral_balance.available == balance.available + reserved_rest
        &&& new.close_reservation_to == Some(old.collateral_reservations_closer())
        &&& new.collateral_reservations == old.collateral_reservations
    } else {
        &&& new.account_balance_pda.collateral_balance.reserved == balance.reserved - with_fee
        &&& new.account_balance_pda.collateral_balance.available == balance.available
        &&& new.close_reservation_to == old.close_reservation_to
        &&& new.collateral_reservations.claimable_collateral == rest
        &&& new.collateral_reservations.token_amount == reserved_rest
        &&& new.collateral_reservations.reserving_contract == old.collateral_reservations.reserving_contract
        &&& new.collateral_reservations.account_address == old.collateral_reservations.account_address
        &&& new.collateral_reservations.token_address == old.collateral_reservations.token_address
        &&& new.collateral_reservations.withdrawal_fee == old.collateral_reservations.withdrawal_fee
    }
    &&& new.account_balance_pda.bump_accounts_balance == old.account_balance_pda.bump_accounts_balance
    &&& new.account_balance_pda.padding == old.account_balance_pda.padding
    &&& new.actions@ == old.actions@.push(VaultAction::TransferChecked(claim_transfer(old, amount_to_receive)))
    &&& new.collateralizable_contract == old.collateralizable_contract
    &&& new.destination_ata == old.destination_ata
    &&& new.token_address == old.token_address
    &&& new.token_decimals == old.token_decimals
    &&& new.account_address == old.account_address
    &&& new.bank_token_vault == old.bank_token_vault
    &&& new.bank_token_vault_ata == old.bank_token_vault_ata
}

impl ClaimCollateral {
    /// The account that receives the lamports of a closed reservation: the
    /// contract that claims.
    pub open spec fn collateral_reservations_closer(self) -> Pubkey {
        self.collateralizable_contract
    }

    /// Checks that `amount_to_receive` is not zero and still claimable.
    pub fn validate_claim_collateral(&self, amount_to_receive: u64) -> (r: Result<(), CollateralVaultError>)
        ensures
            amount_to_receive == 0 ==> r == Err::<(), CollateralVaultError>(CollateralVaultError::ClaimAmountZero),
            amount_to_receive != 0 && (self.collateral_reservations.claimable_collateral as u64) < amount_to_receive
                ==> r == Err::<(), CollateralVaultError>(CollateralVaultError::InsufficientCollateral),
            amount_to_receive != 0 && (self.collateral_reservations.claimable_collateral as u64) >= amount_to_receive
                ==> r is Ok,
    {
        if !(amount_to_receive > 0) {
            return Err(CollateralVaultError::ClaimAmountZero);
        }
        let claimable_token_amount = self.collateral_reservations.claimable_collateral as u64;
        if !(claimable_token_amount >= amount_to_receive) {
            return Err(CollateralVaultError::InsufficientCollateral);
        }
        Ok(())
    }

    /// Hands on the transfer of `amount` from the vault to the destination.
    pub fn transfer_tokens(&mut self, amount: u128) -> (r: Result<(), CollateralVaultError>)
        ensures
            amount > u64::MAX ==> r == Err::<(), CollateralVaultError>(CollateralVaultError::IntegerConversionFailed)
                && *final(self) == *old(self),
            amount <= u64::MAX ==> r is Ok && final(self).actions@ == old(self).actions@.push(
                VaultAction::TransferChecked(claim_transfer(*old(self), amount as u64)),
            ) && final(self).collateral_reservations == old(self).collateral_reservations
                && final(self).tokens_registry == old(self).tokens_registry && final(self).account_balance_pda
                == old(self).account_balance_pda && final(self).close_reservation_to == old(self).close_reservation_to
                && final(self).collateralizable_contract == old(self).collateralizable_contract
                && final(self).destination_ata == old(self).destination_ata && final(self).token_address
                == old(self).token_address && final(self).token_decimals == old(self).token_decimals
                && final(self).account_address == old(self).account_address && final(self).bank_token_vault
                == old(self).bank_token_vault && final(self).bank_token_vault_ata == old(self).bank_token_vault_ata,
    {
        if amount > u64::MAX as u128 {
            return Err(CollateralVaultError::IntegerConversionFailed);
        }
        self.actions.push(
            VaultAction::TransferChecked(
                TokenTransfer {
                    from: self.bank_token_vault_ata,
                    to: self.destination_ata,
                    mint: self.token_address,
                    authority: self.bank_token_vault,
                    amount: amount as u64,
                    decimals: self.token_decimals,
                },
            ),
        );
        Ok(())
    }

    /// Claims `amount_to_receive` of the reservation for the destination. The
    /// reservation keeps what stays claimable with its fee, unless the claim
    /// ends it; then the rest goes back to the account's available collateral
    /// and the reservation closes. Returns what stays reserved and claimable.
    pub fn initiate_claim(&mut self, amount_to_receive: u64, release_remainder: bool) -> (r: Result<
        (u128, u128),
        CollateralVaultError,
    >)
        requires
            claim_fits(*old(self), amount_to_receive, release_remainder),
        ensures
            match initiate_claim_error(*old(self), amount_to_receive, release_remainder) {
                Some(e) => r == Err::<(u128, u128), CollateralVaultError>(e) && *final(self) == *old(self),
                None => r == Ok::<(u128, u128), CollateralVaultError>(
                    (
                        remaining_reserved(*old(self), amount_to_receive) as u128,
                        remaining_claimable(*old(self), amount_to_receive) as u128,
                    ),
                ) && claimed_state(*old(self), *final(self), amount_to_receive, release_remainder),
            },
    {
        match self.validate_claim_collateral(amount_to_receive) {
            Ok(()) => {},
            Err(e) => return Err(e),
        }
        let mut release_remainder = release_remainder;
        let token_amount = self.collateral_reservations.token_amount;
        let claimable_token_amount = self.collateral_reservations.claimable_collateral;
        let remaining_claimable_collateral = claimable_token_amount - amount_to_receive as u128;
        let remaining_reserved_collateral: u128;
        let claim_amount_with_fee: u128;
        if remaining_claimable_collateral == 0 {
            release_remainder = true;
            remaining_reserved_collateral = 0;
            claim_amount_with_fee = token_amount;
        } else {
            remaining_reserved_collateral = match amount_with_fee(
                remaining_claimable_collateral,
                self.collateral_reservations.withdrawal_fee as u128,
            ) {
                Ok(v) => v,
                Err(e) => return Err(e),
            };
            claim_amount_with_fee = token_amount - remaining_reserved_collateral;
        }
        // The registry's cumulative balance drops by what leaves the reservation.
        let found = crate::registry::find_token(&self.tokens_registry.collateral_tokens, &self.token_address);
        let plan = if found.is_some() {
            match plan_cumulative_change(
                &self.tokens_registry.collateral_tokens,
                &self.token_address,
                false,
                claim_amount_with_fee as u64,
            ) {
                Ok(plan) => plan,
                Err(e) => return Err(e),
            }
        } else {
            None
        };
        let mut balance = self.account_balance_pda.collateral_balance;
        if release_remainder {
            if token_amount > u64::MAX as u128 {
                return Err(CollateralVaultError::IntegerConversionFailed);
            }
            if remaining_reserved_collateral > u64::MAX as u128 {
                return Err(CollateralVaultError::IntegerConversionFailed);
            }
            balance.reserved = balance.reserved - token_amount as u64;
            balance.available = balance.available + remaining_reserved_collateral as u64;
        } else {
            if claim_amount_with_fee > u64::MAX as u128 {
                return Err(CollateralVaultError::IntegerConversionFailed);
            }
            balance.reserved = balance.reserved - claim_amount_with_fee as u64;
        }
        apply_cumulative_change(
            &mut self.tokens_registry.collateral_tokens,
            plan,
            Ghost(self.token_address@),
            Ghost(-claim_amount_with_fee),
        );
        self.account_balance_pda.collateral_balance = balance;
        if release_remainder {
            self.close_reservation_to = Some(self.collateralizable_contract);
        } else {
            self.collateral_reservations.claimable_collateral = remaining_claimable_collateral;
            self.collateral_reservations.token_amount = remaining_reserved_collateral;
        }
        let _claim_fee = claim_amount_with_fee - amount_to_receive as u128;
        match self.transfer_tokens(amount_to_receive as u128) {
            Ok(()) => {},
            Err(e) => return Err(e),
        }
        Ok((remaining_reserved_collateral, remaining_claimable_collateral))
    }
}

/// Why a claim is refused, if it is: the signer, the token or the account is not
/// the reservation's, or `initiate_claim` refuses it.
pub open spec fn claim_error(ctx: ClaimCollateral, amount_to_receive: u64, release_remainder: bool) -> Option<
    CollateralVaultError,
> {
    if ctx.collateralizable_contract@ != ctx.collateral_reservations.reserving_contract@ {
        Some(CollateralVaultError::UnauthorizedCollateralizableContract)
    } else if ctx.token_address@ != ctx.collateral_reservations.token_address@ {
        Some(CollateralVaultError::TokenNotSupported)
    } else if ctx.account_address@ != ctx.collateral_reservations.account_address@ {
        Some(CollateralVaultError::WrongAccountAddress)
    } else {
        initiate_claim_error(ctx, amount_to_receive, release_remainder)
    }
}

/// Whether the claim passes the checks before `initiate_claim`: the signer, the
/// token and the account are the reservation's.
pub open spec fn claim_matches_reservation(ctx: ClaimCollateral) -> bool {
    &&& ctx.collateralizable_contract@ == ctx.collateral_reservations.reserving_contract@
    &&& ctx.token_address@ == ctx.collateral_reservations.token_address@
    &&& ctx.account_address@ == ctx.collateral_reservations.account_address@
}

/// Claims `amount_to_receive` of a reservation on behalf of the contract that
/// made it. Returns what stays reserved and what stays claimable.
pub fn claim_collateral_funds(ctx: &mut ClaimCollateral, amount_to_receive: u64, release_remainder: bool) -> (r: Result<
    (u128, u128),
    CollateralVaultError,
>)
    requires
        claim_matches_reservation(*old(ctx)) ==> claim_fits(*old(ctx), amount_to_receive, release_remainder),
    ensures
        match claim_error(*old(ctx), amount_to_receive, release_remainder) {
            Some(e) => r == Err::<(u128, u128), CollateralVaultError>(e) && *final(ctx) == *old(ctx),
            None => r == Ok::<(u128, u128), CollateralVaultError>(
                (
                    remaining_reserved(*old(ctx), amount_to_receive) as u128,
                    remaining_claimable(*old(ctx), amount_to_receive) as u128,
                ),
            ) && claimed_state(*old(ctx), *final(ctx), amount_to_receive, release_remainder),
        },
{
    if !ctx.collateralizable_contract.key_eq(&ctx.collateral_reservations.reserving_contract) {
        return Err(CollateralVaultError::UnauthorizedCollateralizableContract);
    }
    if !ctx.token_address.key_eq(&ctx.collateral_reservations.token_address) {
        return Err(CollateralVaultError::TokenNotSupported);
    }
    if !ctx.account_address.key_eq(&ctx.collateral_reservations.account_address) {
        return Err(CollateralVaultError::WrongAccountAddress);
    }
    ctx.initiate_claim(amount_to_receive, release_remainder)
}

/// A claim takes out of the account's collateral exactly what leaves the
/// reservation, fee included.
pub proof fn lemma_claim_takes_amount_with_fee(
    old: ClaimCollateral,
    new: ClaimCollateral,
    amount_to_receive: u64,
    release_remainder: bool,
)
    requires
        claimed_state(old, new, amount_to_receive, release_remainder),
    ensures
        crate::collateral::total_collateral(old.account_balance_pda.collateral_balance) - crate::collateral::total_collateral(
            new.account_balance_pda.collateral_balance,
        ) == claim_amount_with_fee(old, amount_to_receive),
{
}


/// An accepted claim hands on exactly one transfer, and it pays exactly
/// `amount_to_receive` from the vault's token account to the destination,
/// whether or not the claim releases the rest of the reservation.
pub proof fn lemma_claim_pays_amount_to_receive(
    old: ClaimCollateral,
    new: ClaimCollateral,
    amount_to_receive: u64,
    release_remainder: bool,
)
    requires
        claimed_state(old, new, amount_to_receive, release_remainder),
    ensures
        new.actions@.len() == old.actions@.len() + 1,
        new.actions@.take(old.actions@.len() as int) == old.actions@,
        new.actions@.last() == VaultAction::TransferChecked(
            (TokenTransfer {
                from: old.bank_token_vault_ata,
                to: old.destination_ata,
                mint: old.token_address,
                authority: old.bank_token_vault,
                amount: amount_to_receive,
                decimals: old.token_decimals,
            }),
        ),
{
    assert(new.actions@.take(old.actions@.len() as int) =~= old.actions@);
}

proof fn lemma_with_fee_grows_by_at_least(c: int, a: int, f: int)
    requires
        0 <= a <= c,
        f >= 0,
    ensures
        a + spec_amount_with_fee(c - a, f) <= spec_amount_with_fee(c, f),
{
    assert((c - a) * f <= c * f) by (nonlinear_arith)
        requires
            0 <= a <= c,
            f >= 0,
    ;
    assert(((c - a) * f) / 10_000 <= (c * f) / 10_000) by (nonlinear_arith)
        requires
            0 <= (c - a) * f <= c * f,
    ;
}

/// An accepted claim never moves more than the reservation held: what it pays
/// out plus what it gives back to the account's available collateral is at most
/// the reservation's token amount, for a reservation whose claimable amount is
/// its token amount less the fee.
pub proof fn lemma_claim_never_exceeds_reservation(
    old: ClaimCollateral,
    new: ClaimCollateral,
    amount_to_receive: u64,
    release_remainder: bool,
)
    requires
        initiate_claim_error(old, amount_to_receive, release_remainder) is None,
        claimed_state(old, new, amount_to_receive, release_remainder),
        old.collateral_reservations.claimable_collateral == spec_amount_before_fee(
            old.collateral_reservations.token_amount as int,
            old.collateral_reservations.withdrawal_fee as int,
        ),
    ensures
        new.actions@.len() > 0,
        match new.actions@.last() {
            VaultAction::TransferChecked(t) => t.amount + new.account_balance_pda.collateral_balance.available
                - old.account_balance_pda.collateral_balance.available <= old.collateral_reservations.token_amount,
            _ => false,
        },
{
    let r = old.collateral_reservations;
    let t = r.token_amount;
    let f = r.withdrawal_fee as int;
    let c = r.claimable_collateral;
    let a = amount_to_receive as int;
    crate::pricing::lemma_amount_before_fee_bounded(t as nat, f as nat);
    crate::pricing::lemma_with_fee_of_before_fee(t as nat, f as nat);
    assert(new.actions@.last() == VaultAction::TransferChecked(claim_transfer(old, amount_to_receive)));
    if claim_releases(old, amount_to_receive, release_remainder) {
        assert(t <= u64::MAX);
        assert(c <= t);
        assert(a <= c);
        let rest = c - a;
        if rest != 0 {
            lemma_with_fee_grows_by_at_least(c as int, a, f);
        }
    } else {
        assert(remaining_claimable(old, amount_to_receive) != 0);
    }
}

/// An accepted withdrawal of `amount` lowers the cumulative deposits that the
/// registry records for the token by exactly `amount`, whatever the account's
/// balance, and leaves every other entry and every key as it was.
pub proof fn lemma_withdraw_lowers_cumulative_by_amount(old: Withdraw, new: Withdraw, amount: u128)
    requires
        withdraw_error(old, amount) is None,
        withdrawn_state(old, new, amount),
    ensures
        new.tokens_registry.collateral_tokens@.len() == old.tokens_registry.collateral_tokens@.len(),
        forall|k: int|
            0 <= k < old.tokens_registry.collateral_tokens@.len() ==> (#[trigger] new.tokens_registry.collateral_tokens@[k]).0
                == old.tokens_registry.collateral_tokens@[k].0,
        ({
            let j = crate::pubkey::first_index(
                crate::accounts::token_keys(old.tokens_registry.collateral_tokens@),
                old.token_address@,
            );
            &&& j != -1 ==> new.tokens_registry.collateral_tokens@[j].1.user_cumulative_balance
                == old.tokens_registry.collateral_tokens@[j].1.user_cumulative_balance - amount
            &&& forall|k: int|
                0 <= k < old.tokens_registry.collateral_tokens@.len() && k != j
                    ==> #[trigger] new.tokens_registry.collateral_tokens@[k] == old.tokens_registry.collateral_tokens@[k]
        }),
{
    let tokens = old.tokens_registry.collateral_tokens@;
    crate::pubkey::lemma_first_index_absent(crate::accounts::token_keys(tokens), old.token_address@);
}

/// A withdrawal that passes its first checks is refused for the cumulative
/// deposits exactly when the registry records less than `amount` for the token.
pub proof fn lemma_withdraw_refused_only_below_amount(ctx: Withdraw, amount: u128)
    requires
        validate_withdraw_error(ctx, amount) is None,
    ensures
        ({
            let tokens = ctx.tokens_registry.collateral_tokens@;
            let j = crate::pubkey::first_index(crate::accounts::token_keys(tokens), ctx.token_address@);
            &&& (j == -1 || tokens[j].1.user_cumulative_balance >= amount) ==> withdraw_error(ctx, amount) is None
            &&& (j != -1 && tokens[j].1.user_cumulative_balance < amount) ==> withdraw_error(ctx, amount) == Some(
                CollateralVaultError::TokenOverflowError,
            )
        }),
{
}

} // verus!
