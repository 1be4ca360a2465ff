use vstd::prelude::*;

use crate::accounts::{
    AccountCollateralizableAllowance, AccountsBalance, CollateralBalance, CollateralReservations,
    CollateralReservationsNonce, CollateralizableContracts, TokenRegistry,
};
use crate::errors::CollateralVaultError;
use crate::pricing::{
    amount_before_fee, amount_before_fee_fits, amount_with_fee, amount_with_fee_fits, lemma_amount_before_fee_bounded,
    spec_amount_before_fee, spec_amount_with_fee, WITHDRAWAL_FEE_BASIS_POINTS,
};
use crate::pubkey::Pubkey;
use crate::registry::{contains_key, token_enabled_error};

verus! {

// ---------------------------------------------------------------------------
// Allowances of collateralizable contracts
// ---------------------------------------------------------------------------

/// Why a collateralizable contract may not use `amount` of an account's collateral,
/// if it may not: it is not approved, or the account allowed it no more than `amount`.
/// A contract acting on its own account needs neither.
pub open spec fn allowance_error(
    approved: Seq<Seq<u8>>,
    current_allowance: u64,
    account_address: Seq<u8>,
    reserving_contract: Seq<u8>,
    amount: u128,
) -> Option<CollateralVaultError> {
    if account_address == reserving_contract {
        None
    } else if !approved.contains(reserving_contract) {
        Some(CollateralVaultError::UnapprovedCollateralizableContract)
    } else if current_allowance as u128 <= amount {
        Some(CollateralVaultError::InsufficientAllowance)
    } else {
        None
    }
}

/// The allowance left once a contract used `amount` of it.
pub open spec fn allowance_after_use(
    current_allowance: u64,
    account_address: Seq<u8>,
    reserving_contract: Seq<u8>,
    amount: u128,
) -> u64 {
    if account_address == reserving_contract {
        current_allowance
    } else {
        (current_allowance - amount) as u64
    }
}

/// Checks that `reserving_contract` may use `amount` of `account_address`'s
/// collateral and takes `amount` off its allowance.
pub fn require_collateralizable_and_decrease_approved_amount(
    collateralizable_contracts: &CollateralizableContracts,
    allowance: &mut AccountCollateralizableAllowance,
    account_address: &Pubkey,
    reserving_contract: &Pubkey,
    amount: u128,
) -> (r: Result<(), CollateralVaultError>)
    ensures
        match allowance_error(
            collateralizable_contracts.keys(),
            old(allowance).current_allowance,
            account_address@,
            reserving_contract@,
            amount,
        ) {
            Some(e) => r == Err::<(), CollateralVaultError>(e) && *final(allowance) == *old(allowance),
            None => r is Ok && final(allowance).current_allowance == allowance_after_use(
                old(allowance).current_allowance,
                account_address@,
                reserving_contract@,
                amount,
            ) && final(allowance).bump_account_collateralizable == old(allowance).bump_account_collateralizable
                && final(allowance).padding == old(allowance).padding,
        },
{
    if account_address.key_eq(reserving_contract) {
        return Ok(());
    }
    if !contains_key(&collateralizable_contracts.collaterizable_contracts, reserving_contract) {
        return Err(CollateralVaultError::UnapprovedCollateralizableContract);
    }
    let approved_amount = allowance.current_allowance as u128;
    if !(approved_amount > amount) {
        return Err(CollateralVaultError::InsufficientAllowance);
    }
    allowance.current_allowance = (approved_amount - amount) as u64;
    Ok(())
}

/// The allowance after changing `current` by `by_amount`, saturating at zero
/// and at the largest `u64`.
pub open spec fn modified_allowance(current: u64, by_amount: i64) -> u64 {
    if current + by_amount > u64::MAX {
        u64::MAX
    } else if current + by_amount < 0 {
        0
    } else {
        (current + by_amount) as u64
    }
}

/// Changes `current` by `by_amount`: an increase that would overflow gives the
/// largest `u64`, a decrease below zero gives zero.
pub fn modify_allowance_amount(current: u64, by_amount: i64) -> (r: u64)
    ensures
        r == modified_allowance(current, by_amount),
{
    if by_amount > 0 {
        let increase = by_amount as u64;
        if current > u64::MAX - increase {
            u64::MAX
        } else {
            current + increase
        }
    } else {
        let decrease: u64 = if by_amount == i64::MIN {
            9_223_372_036_854_775_808u64
        } else {
            (-by_amount) as u64
        };
        if decrease > current {
            0
        } else {
            current - decrease
        }
    }
}

// ---------------------------------------------------------------------------
// Moving available collateral between accounts
// ---------------------------------------------------------------------------

/// Why `amount` of available collateral cannot move out of `from`, if it cannot.
/// Nothing moves when source and destination are one account, or for a zero amount.
pub open spec fn transfer_error(same_account: bool, from: CollateralBalance, amount: u128) -> Option<
    CollateralVaultError,
> {
    if same_account || amount == 0 {
        None
    } else if from.available as u128 <= amount {
        Some(CollateralVaultError::InsufficientCollateral)
    } else {
        None
    }
}

/// Whether the transfer, if it goes ahead, leaves the destination without overflow.
pub open spec fn transfer_fits(same_account: bool, from: CollateralBalance, to: CollateralBalance, amount: u128) -> bool {
    transfer_error(same_account, from, amount) is None && !same_account && amount != 0 ==> to.available + amount
        <= u64::MAX
}

/// The two balances after `amount` of available collateral moved from `from`
/// to `to`; nothing moves within one account or for a zero amount.
pub open spec fn moved_state(
    same_account: bool,
    amount: u128,
    old_from: AccountsBalance,
    old_to: AccountsBalance,
    new_from: AccountsBalance,
    new_to: AccountsBalance,
) -> bool {
    if same_account || amount == 0 {
        new_from == old_from && new_to == old_to
    } else {
        &&& new_from.collateral_balance.available == old_from.collateral_balance.available - amount
        &&& new_to.collateral_balance.available == old_to.collateral_balance.available + amount
        &&& new_from.collateral_balance.reserved == old_from.collateral_balance.reserved
        &&& new_to.collateral_balance.reserved == old_to.collateral_balance.reserved
        &&& new_from.bump_accounts_balance == old_from.bump_accounts_balance
        &&& new_to.bump_accounts_balance == old_to.bump_accounts_balance
        &&& new_from.padding == old_from.padding
        &&& new_to.padding == old_to.padding
    }
}

/// Moves `amount` of available collateral from `from` to `to`, which are
/// different accounts unless `same_account`.
fn move_available(
    same_account: bool,
    from: &mut AccountsBalance,
    to: &mut AccountsBalance,
    amount: u128,
) -> (r: Result<(), CollateralVaultError>)
    requires
        transfer_fits(same_account, old(from).collateral_balance, old(to).collateral_balance, amount),
    ensures
        match transfer_error(same_account, old(from).collateral_balance, amount) {
            Some(e) => r == Err::<(), CollateralVaultError>(e) && *final(from) == *old(from) && *final(to) == *old(to),
            None => r is Ok && moved_state(same_account, amount, *old(from), *old(to), *final(from), *final(to)),
        },
{
    if same_account || amount == 0 {
        return Ok(());
    }
    if !(from.collateral_balance.available as u128 > amount) {
        return Err(CollateralVaultError::InsufficientCollateral);
    }
    let moved = amount as u64;
    to.collateral_balance.available = to.collateral_balance.available + moved;
    from.collateral_balance.available = from.collateral_balance.available - moved;
    Ok(())
}

// ---------------------------------------------------------------------------
// Reserving collateral
// ---------------------------------------------------------------------------

/// The accounts of the instructions by which a collateralizable contract
/// reserves an account's collateral.
pub struct ReserveCollateral {
    /// The account whose collateral is reserved.
    pub account_address: Pubkey,
    /// The contract that reserves it, and signs.
    pub reserving_contract: Pubkey,
    pub token_address: Pubkey,
    pub tokens_registry: TokenRegistry,
    pub collateralizable_contracts: CollateralizableContracts,
    /// The balance of `account_address` in `token_address`.
    pub account_balance_pda: AccountsBalance,
    /// What `account_address` allows `reserving_contract` to use of `token_address`.
    pub account_collateralizable_allowance: AccountCollateralizableAllowance,
    pub collateral_reservations_nonce: CollateralReservationsNonce,
    /// The reservation that the instruction fills in.
    pub collateral_reservations: CollateralReservations,
}

/// Why a reservation of `reserved_collateral`, of which `claimable_collateral`
/// can be claimed, is refused, if it is.
pub open spec fn reserve_error(ctx: ReserveCollateral, reserved_collateral: u64, claimable_collateral: u64) -> Option<
    CollateralVaultError,
> {
    match token_enabled_error(ctx.tokens_registry.collateral_tokens@, ctx.token_address@) {
        Some(e) => Some(e),
        None => if claimable_collateral == 0 {
            Some(CollateralVaultError::ClaimableAmountZero)
        } else {
            match allowance_error(
                ctx.collateralizable_contracts.keys(),
                ctx.account_collateralizable_allowance.current_allowance,
                ctx.account_address@,
                ctx.reserving_contract@,
                reserved_collateral as u128,
            ) {
                Some(e) => Some(e),
                None => if ctx.account_balance_pda.collateral_balance.available < reserved_collateral {
                    Some(CollateralVaultError::InsufficientCollateral)
                } else if reserved_collateral < claimable_collateral {
                    Some(CollateralVaultError::InsufficientCollateral)
                } else {
                    None
                },
            }
        },
    }
}

/// Whether an accepted reservation runs without overflow: of the reserved balance
/// and of the reservation counter.
pub open spec fn reserve_fits(ctx: ReserveCollateral, reserved_collateral: u64, claimable_collateral: u64) -> bool {
    reserve_error(ctx, reserved_collateral, claimable_collateral) is None ==> {
        &&& ctx.account_balance_pda.collateral_balance.reserved + reserved_collateral <= u64::MAX
        &&& ctx.collateral_reservations_nonce.nonce < u64::MAX
    }
}

/// The accounts after an accepted reservation.
pub open spec fn reserved_state(
    old: ReserveCollateral,
    new: ReserveCollateral,
    account_address: Pubkey,
    reserved_collateral: u64,
    claimable_collateral: u64,
) -> bool {
    &&& new.account_balance_pda.collateral_balance.available == old.account_balance_pda.collateral_balance.available
        - reserved_collateral
    &&& new.account_balance_pda.collateral_balance.reserved == old.account_balance_pda.collateral_balance.reserved
        + reserved_collateral
    &&& new.account_balance_pda.bump_accounts_balance == old.account_balance_pda.bump_accounts_balance
    &&& new.account_balance_pda.padding == old.account_balance_pda.padding
    &&& new.account_collateralizable_allowance.current_allowance == allowance_after_use(
        old.account_collateralizable_allowance.current_allowance,
        old.account_address@,
        old.reserving_contract@,
        reserved_collateral as u128,
    )
    &&& new.account_collateralizable_allowance.bump_account_collateralizable
        == old.account_collateralizable_allowance.bump_account_collateralizable
    &&& new.account_collateralizable_allowance.padding == old.account_collateralizable_allowance.padding
    &&& new.collateral_reservations_nonce.nonce == old.collateral_reservations_nonce.nonce + 1
    &&& new.collateral_reservations == CollateralReservations {
        reserving_contract: old.reserving_contract,
        account_address,
        token_address: old.token_address,
        withdrawal_fee: WITHDRAWAL_FEE_BASIS_POINTS,
        token_amount: reserved_collateral as u128,
        claimable_collateral: claimable_collateral as u128,
    }
    &&& new.account_address == old.account_address
    &&& new.reserving_contract == old.reserving_contract
    &&& new.token_address == old.token_address
    &&& new.tokens_registry == old.tokens_registry
    &&& new.collateralizable_contracts == old.collateralizable_contracts
}

impl ReserveCollateral {
    /// The token registry.
    pub fn get_tokens_registry(&self) -> (r: &TokenRegistry)
        ensures
            *r == self.tokens_registry,
    {
        &self.tokens_registry
    }

    /// The approved collateralizable contracts.
    pub fn get_collateralizable_contracts(&self) -> (r: &CollateralizableContracts)
        ensures
            *r == self.collateralizable_contracts,
    {
        &self.collateralizable_contracts
    }

    /// What the account allows the reserving contract to use.
    pub fn get_account_collateralizable_allowance(&self) -> (r: &AccountCollateralizableAllowance)
        ensures
            *r == self.account_collateralizable_allowance,
    {
        &self.account_collateralizable_allowance
    }

    /// The account whose collateral is used.
    pub fn get_account_address(&self) -> (r: Pubkey)
        ensures
            r == self.account_address,
    {
        self.account_address
    }

    /// The contract that uses it.
    pub fn get_reserving_contract_address(&self) -> (r: Pubkey)
        ensures
            r == self.reserving_contract,
    {
        self.reserving_contract
    }

    /// The balances collateral moves between: the account's, twice, as a
    /// reservation keeps it within one account.
    pub fn get_account_balance_pdas(&self) -> (r: (&AccountsBalance, &AccountsBalance))
        ensures
            *r.0 == self.account_balance_pda,
            *r.1 == self.account_balance_pda,
    {
        (&self.account_balance_pda, &self.account_balance_pda)
    }

    /// Checks that `token_address` is a supported and enabled collateral token.
    pub fn verify_token_enabled(&self, token_address: &Pubkey) -> (r: Result<(), CollateralVaultError>)
        ensures
            match token_enabled_error(self.tokens_registry.collateral_tokens@, token_address@) {
                Some(e) => r == Err::<(), CollateralVaultError>(e),
                None => r is Ok,
            },
    {
        self.tokens_registry.verify_token_enabled(token_address)
    }

    /// Checks that the reserving contract may use `amount` of the account's
    /// collateral and takes `amount` off its allowance.
    pub fn require_collateralizable_and_decrease_approved_amount(&mut self, amount: u128) -> (r: Result<
        (),
        CollateralVaultError,
    >)
        ensures
            match allowance_error(
                old(self).collateralizable_contracts.keys(),
                old(self).account_collateralizable_allowance.current_allowance,
                old(self).account_address@,
                old(self).reserving_contract@,
                amount,
            ) {
                Some(e) => r == Err::<(), CollateralVaultError>(e) && *final(self) == *old(self),
                None => r is Ok && final(self).account_collateralizable_allowance.current_allowance
                    == allowance_after_use(
                    old(self).account_collateralizable_allowance.current_allowance,
                    old(self).account_address@,
                    old(self).reserving_contract@,
                    amount,
                ) && final(self).account_collateralizable_allowance.bump_account_collateralizable
                    == old(self).account_collateralizable_allowance.bump_account_collateralizable
                    && final(self).account_collateralizable_allowance.padding
                    == old(self).account_collateralizable_allowance.padding && final(self).account_address
                    == old(self).account_address && final(self).reserving_contract == old(self).reserving_contract
                    && final(self).token_address == old(self).token_address && final(self).tokens_registry
                    == old(self).tokens_registry && final(self).collateralizable_contracts
                    == old(self).collateralizable_contracts && final(self).account_balance_pda
                    == old(self).account_balance_pda && final(self).collateral_reservations_nonce
                    == old(self).collateral_reservations_nonce && final(self).collateral_reservations
                    == old(self).collateral_reservations,
            },
    {
        require_collateralizable_and_decrease_approved_amount(
            &self.collateralizable_contracts,
            &mut self.account_collateralizable_allowance,
            &self.account_address,
            &self.reserving_contract,
            amount,
        )
    }
}

/// Reserves `reserved_collateral` of the account's available collateral for the
/// reserving contract, of which it may claim `claimable_collateral`, and returns
/// the new reservation's id.
pub fn reserve_collateral_internal(
    ctx: &mut ReserveCollateral,
    account_address: Pubkey,
    reserved_collateral: u64,
    claimable_collateral: u64,
) -> (r: Result<u64, CollateralVaultError>)
    requires
        reserve_fits(*old(ctx), reserved_collateral, claimable_collateral),
    ensures
        match reserve_error(*old(ctx), reserved_collateral, claimable_collateral) {
            Some(e) => r == Err::<u64, CollateralVaultError>(e) && *final(ctx) == *old(ctx),
            None => r == Ok::<u64, CollateralVaultError>((old(ctx).collateral_reservations_nonce.nonce + 1) as u64)
                && reserved_state(*old(ctx), *final(ctx), account_address, reserved_collateral, claimable_collateral),
        },
{
    match ctx.verify_token_enabled(&ctx.token_address) {
        Ok(()) => {},
        Err(e) => return Err(e),
    }
    if !(claimable_collateral > 0) {
        return Err(CollateralVaultError::ClaimableAmountZero);
    }
    let mut allowance = ctx.account_collateralizable_allowance;
    match require_collateralizable_and_decrease_approved_amount(
        &ctx.collateralizable_contracts,
        &mut allowance,
        &ctx.account_address,
        &ctx.reserving_contract,
        reserved_collateral as u128,
    ) {
        Ok(()) => {},
        Err(e) => return Err(e),
    }
    let available_amount = ctx.account_balance_pda.collateral_balance.available;
    if !(available_amount >= reserved_collateral) {
        return Err(CollateralVaultError::InsufficientCollateral);
    }
    if !(reserved_collateral >= claimable_collateral) {
        return Err(CollateralVaultError::InsufficientCollateral);
    }
    ctx.account_collateralizable_allowance = allowance;
    ctx.account_balance_pda.collateral_balance.available = ctx.account_balance_pda.collateral_balance.available
        - reserved_collateral;
    ctx.account_balance_pda.collateral_balance.reserved = ctx.account_balance_pda.collateral_balance.reserved
        + reserved_collateral;
    let withdrawal_fee = WITHDRAWAL_FEE_BASIS_POINTS;
    let reservation_id = ctx.collateral_reservations_nonce.nonce + 1;
    ctx.collateral_reservations_nonce.nonce = ctx.collateral_reservations_nonce.nonce + 1;
    ctx.collateral_reservations = CollateralReservations {
        reserving_contract: ctx.reserving_contract,
        account_address,
        token_address: ctx.token_address,
        withdrawal_fee,
        token_amount: reserved_collateral as u128,
        claimable_collateral: claimable_collateral as u128,
    };
    Ok(reservation_id)
}

/// The claimable part of a reservation of `amount`: what is left once the
/// withdrawal fee on it is taken out.
pub open spec fn claimable_of(amount: u64) -> u64 {
    spec_amount_before_fee(amount as int, WITHDRAWAL_FEE_BASIS_POINTS as int) as u64
}

/// Reserves `amount` of the account's collateral, of which the reserving contract
/// may claim what is left after the withdrawal fee. Returns the claimable amount
/// and the reservation's id.
pub fn reserve_collateral(ctx: &mut ReserveCollateral, account_address: Pubkey, amount: u64) -> (r: Result<
    (u64, u64),
    CollateralVaultError,
>)
    requires
        reserve_fits(*old(ctx), amount, claimable_of(amount)),
    ensures
        claimable_of(amount) as int == spec_amount_before_fee(amount as int, WITHDRAWAL_FEE_BASIS_POINTS as int),
        match reserve_error(*old(ctx), amount, claimable_of(amount)) {
            Some(e) => r == Err::<(u64, u64), CollateralVaultError>(e) && *final(ctx) == *old(ctx),
            None => r == Ok::<(u64, u64), CollateralVaultError>(
                (claimable_of(amount), (old(ctx).collateral_reservations_nonce.nonce + 1) as u64),
            ) && reserved_state(*old(ctx), *final(ctx), account_address, amount, claimable_of(amount)),
        },
{
    proof {
        lemma_amount_before_fee_bounded(amount as nat, WITHDRAWAL_FEE_BASIS_POINTS as nat);
    }
    match ctx.verify_token_enabled(&ctx.token_address) {
        Ok(()) => {},
        Err(e) => return Err(e),
    }
    let claimable_amount = match amount_before_fee(amount as u128, WITHDRAWAL_FEE_BASIS_POINTS as u128) {
        Ok(v) => v as u64,
        Err(e) => return Err(e),
    };
    let reservation_id = match reserve_collateral_internal(ctx, account_address, amount, claimable_amount) {
        Ok(id) => id,
        Err(e) => return Err(e),
    };
    Ok((claimable_amount, reservation_id))
}

/// The total to reserve so that `claimable_amount` can be claimed: the amount
/// with the withdrawal fee added, cut to 64 bits.
pub open spec fn total_with_fee_of(claimable_amount: u128) -> u64 {
    spec_amount_with_fee(claimable_amount as int, WITHDRAWAL_FEE_BASIS_POINTS as int) as u128 as u64
}

/// Reserves what the reserving contract needs to claim `claimable_amount`, fee
/// included. Returns the total reserved and the reservation's id.
pub fn reserve_claimable_collateral(
    ctx: &mut ReserveCollateral,
    account_address: Pubkey,
    claimable_amount: u128,
) -> (r: Result<(u64, u64), CollateralVaultError>)
    requires
        amount_with_fee_fits(claimable_amount, WITHDRAWAL_FEE_BASIS_POINTS as u128),
        reserve_fits(*old(ctx), total_with_fee_of(claimable_amount), claimable_amount as u64),
    ensures
        match reserve_error(*old(ctx), total_with_fee_of(claimable_amount), claimable_amount as u64) {
            Some(e) => r == Err::<(u64, u64), CollateralVaultError>(e) && *final(ctx) == *old(ctx),
            None => r == Ok::<(u64, u64), CollateralVaultError>(
                (total_with_fee_of(claimable_amount), (old(ctx).collateral_reservations_nonce.nonce + 1) as u64),
            ) && reserved_state(
                *old(ctx),
                *final(ctx),
                account_address,
                total_with_fee_of(claimable_amount),
                claimable_amount as u64,
            ),
        },
{
    let total_amount_reserved = match amount_with_fee(claimable_amount, WITHDRAWAL_FEE_BASIS_POINTS as u128) {
        Ok(v) => v as u64,
        Err(e) => return Err(e),
    };
    let reservation_id = match reserve_collateral_internal(
        ctx,
        account_address,
        total_amount_reserved,
        claimable_amount as u64,
    ) {
        Ok(id) => id,
        Err(e) => return Err(e),
    };
    Ok((total_amount_reserved, reservation_id))
}


/// The available plus the reserved collateral of a balance.
pub open spec fn total_collateral(balance: CollateralBalance) -> int {
    balance.available + balance.reserved
}

/// An accepted reservation moves collateral from available to reserved: the
/// account's total stays the same, and the reservation holds what moved.
pub proof fn lemma_reserve_keeps_total(
    old: ReserveCollateral,
    new: ReserveCollateral,
    account_address: Pubkey,
    reserved_collateral: u64,
    claimable_collateral: u64,
)
    requires
        reserved_state(old, new, account_address, reserved_collateral, claimable_collateral),
    ensures
        total_collateral(new.account_balance_pda.collateral_balance) == total_collateral(
            old.account_balance_pda.collateral_balance,
        ),
        new.account_balance_pda.collateral_balance.reserved - old.account_balance_pda.collateral_balance.reserved
            == new.collateral_reservations.token_amount,
{
}

/// An accepted reservation never lets the reserving contract claim more than is reserved.
pub proof fn lemma_reserve_claimable_within_reserved(
    ctx: ReserveCollateral,
    new: ReserveCollateral,
    account_address: Pubkey,
    reserved_collateral: u64,
    claimable_collateral: u64,
)
    requires
        reserve_error(ctx, reserved_collateral, claimable_collateral) is None,
        reserved_state(ctx, new, account_address, reserved_collateral, claimable_collateral),
    ensures
        0 < new.collateral_reservations.claimable_collateral <= new.collateral_reservations.token_amount,
{
}

/// A token that governance disabled or removed takes no new reservations.
pub proof fn lemma_disabled_token_refuses_reservations(
    ctx: ReserveCollateral,
    reserved_collateral: u64,
    claimable_collateral: u64,
)
    requires
        token_enabled_error(ctx.tokens_registry.collateral_tokens@, ctx.token_address@) is Some,
    ensures
        reserve_error(ctx, reserved_collateral, claimable_collateral) == token_enabled_error(
            ctx.tokens_registry.collateral_tokens@,
            ctx.token_address@,
        ),
        reserve_error(ctx, reserved_collateral, claimable_collateral) is Some,
{
}

/// Each accepted reservation gets the next id, so ids never repeat.
pub proof fn lemma_reservation_ids_increase(
    old: ReserveCollateral,
    new: ReserveCollateral,
    account_address: Pubkey,
    reserved_collateral: u64,
    claimable_collateral: u64,
)
    requires
        reserved_state(old, new, account_address, reserved_collateral, claimable_collateral),
    ensures
        new.collateral_reservations_nonce.nonce == old.collateral_reservations_nonce.nonce + 1,
        new.collateral_reservations_nonce.nonce > old.collateral_reservations_nonce.nonce,
{
}

// ---------------------------------------------------------------------------
// Releasing a reservation
// ---------------------------------------------------------------------------

/// The accounts of the instruction that releases all of a reservation.
pub struct ReleaseAllCollateral {
    /// The contract that made the reservation, and signs.
    pub reserving_contract: Pubkey,
    pub token_address: Pubkey,
    pub account_address: Pubkey,
    pub collateral_reservations: CollateralReservations,
    /// The balance of `account_address` in `token_address`.
    pub account_balance_pda: AccountsBalance,
    /// The account that receives the reservation account's lamports once it is
    /// closed; `None` while it stays open.
    pub close_reservation_to: Option<Pubkey>,
}

/// Why a release is refused, if it is: the signer, the token or the account is
/// not the reservation's.
pub open spec fn release_error(ctx: ReleaseAllCollateral) -> Option<CollateralVaultError> {
    if ctx.reserving_contract@ != ctx.collateral_reservations.reserving_contract@ {
        Some(CollateralVaultError::UnapprovedCollateralizableContract)
    } else if ctx.token_address@ != ctx.collateral_reservations.token_address@ {
        Some(CollateralVaultError::TokenNotSupported)
    } else if ctx.account_address@ != ctx.collateral_reservations.account_address@ {
        Some(CollateralVaultError::WrongAccountAddress)
    } else {
        None
    }
}

/// Whether an accepted release runs without overflow or underflow of the balance.
pub open spec fn release_fits(ctx: ReleaseAllCollateral) -> bool {
    release_error(ctx) is None ==> {
        &&& ctx.account_balance_pda.collateral_balance.available + (ctx.collateral_reservations.token_amount as u64)
            <= u64::MAX
        &&& ctx.account_balance_pda.collateral_balance.reserved >= ctx.collateral_reservations.token_amount as u64
    }
}

/// The accounts after an accepted release.
pub open spec fn released_state(old: ReleaseAllCollateral, new: ReleaseAllCollateral) -> bool {
    let amount = old.collateral_reservations.token_amount as u64;
    &&& new.account_balance_pda.collateral_balance.available == old.account_balance_pda.collateral_balance.available
        + amount
    &&& new.account_balance_pda.collateral_balance.reserved == old.account_balance_pda.collateral_balance.reserved
        - amount
    &&& new.account_balance_pda.bump_accounts_balance == old.account_balance_pda.bump_accounts_balance
    &&& new.account_balance_pda.padding == old.account_balance_pda.padding
    &&& new.close_reservation_to == Some(old.reserving_contract)
    &&& new.collateral_reservations == old.collateral_reservations
    &&& new.reserving_contract == old.reserving_contract
    &&& new.token_address == old.token_address
    &&& new.account_address == old.account_address
}

/// Gives all the collateral of a reservation back to the account and closes the
/// reservation. Returns the amount released.
pub fn release_all_collateral(ctx: &mut ReleaseAllCollateral) -> (r: Result<u128, CollateralVaultError>)
    requires
        release_fits(*old(ctx)),
    ensures
        match release_error(*old(ctx)) {
            Some(e) => r == Err::<u128, CollateralVaultError>(e) && *final(ctx) == *old(ctx),
            None => r == Ok::<u128, CollateralVaultError>(old(ctx).collateral_reservations.token_amount)
                && released_state(*old(ctx), *final(ctx)),
        },
{
    if !ctx.reserving_contract.key_eq(&ctx.collateral_reservations.reserving_contract) {
        return Err(CollateralVaultError::UnapprovedCollateralizableContract);
    }
    if !ctx.token_address.key_eq(&ctx.collateral_reservations.token_address) {
        return Err(CollateralVaultError::TokenNotSupported);
    }
    if !ctx.account_address.key_eq(&ctx.collateral_reservations.account_address) {
        return Err(CollateralVaultError::WrongAccountAddress);
    }
    let total_released_collateral = ctx.collateral_reservations.token_amount;
    let released = total_released_collateral as u64;
    ctx.account_balance_pda.collateral_balance.available = ctx.account_balance_pda.collateral_balance.available
        + released;
    ctx.account_balance_pda.collateral_balance.reserved = ctx.account_balance_pda.collateral_balance.reserved
        - released;
    ctx.close_reservation_to = Some(ctx.reserving_contract);
    Ok(total_released_collateral)
}

/// A release moves collateral from reserved back to available: the account's
/// total stays the same.
pub proof fn lemma_release_keeps_total(old: ReleaseAllCollateral, new: ReleaseAllCollateral)
    requires
        released_state(old, new),
    ensures
        total_collateral(new.account_balance_pda.collateral_balance) == total_collateral(
            old.account_balance_pda.collateral_balance,
        ),
{
}

// ---------------------------------------------------------------------------
// Modifying a reservation
// ---------------------------------------------------------------------------

/// The accounts of the instruction by which a collateralizable contract grows or
/// shrinks one of its reservations.
pub struct ModifyCollateralReservations {
    /// The contract that made the reservation, and signs.
    pub reserving_contract: Pubkey,
    /// The account whose collateral is reserved.
    pub account_address: Pubkey,
    pub tokens_registry: TokenRegistry,
    pub collateralizable_contracts: CollateralizableContracts,
    pub collateral_reservations: CollateralReservations,
    /// The balance of `account_address` in the reservation's token.
    pub account_balance_pda: AccountsBalance,
    /// What `account_address` allows `reserving_contract` to use of the reservation's token.
    pub account_collateralizable_allowance: AccountCollateralizableAllowance,
}

/// The reserved amount after changing a reservation of `old_amount` by `by_amount`.
pub open spec fn modified_reservation(old_amount: u128, by_amount: i128) -> int {
    old_amount + by_amount
}

/// Why a change of a reservation by `by_amount` is refused, if it is.
pub open spec fn modify_error(ctx: ModifyCollateralReservations, by_amount: i128) -> Option<CollateralVaultError> {
    let old_amount = ctx.collateral_reservations.token_amount;
    if old_amount == 0 {
        Some(CollateralVaultError::CollateralReservationNotFound)
    } else if by_amount == 0 {
        None
    } else if ctx.reserving_contract@ != ctx.collateral_reservations.reserving_contract@ {
        Some(CollateralVaultError::UnauthorizedCollateralizableContract)
    } else {
        let step = if by_amount < 0 {
            if -by_amount >= old_amount {
                Some(CollateralVaultError::InsufficientCollateral)
            } else {
                None
            }
        } else {
            match token_enabled_error(
                ctx.tokens_registry.collateral_tokens@,
                ctx.collateral_reservations.token_address@,
            ) {
                Some(e) => Some(e),
                None => match allowance_error(
                    ctx.collateralizable_contracts.keys(),
                    ctx.account_collateralizable_allowance.current_allowance,
                    ctx.account_address@,
                    ctx.reserving_contract@,
                    by_amount as u128,
                ) {
                    Some(e) => Some(e),
                    None => if ctx.account_balance_pda.collateral_balance.available < by_amount {
                        Some(CollateralVaultError::InsufficientCollateral)
                    } else {
                        None
                    },
                },
            }
        };
        match step {
            Some(e) => Some(e),
            None => if spec_amount_before_fee(
                modified_reservation(old_amount, by_amount),
                ctx.collateral_reservations.withdrawal_fee as int,
            ) == 0 {
                Some(CollateralVaultError::ClaimableAmountZero)
            } else {
                None
            },
        }
    }
}

/// Whether a change by `by_amount` runs without overflow or underflow once its
/// checks have passed: the signer's, and for a growth the token's, the
/// allowance's and the available collateral's.
pub open spec fn modify_fits(ctx: ModifyCollateralReservations, by_amount: i128) -> bool {
    let old_amount = ctx.collateral_reservations.token_amount;
    let balance = ctx.account_balance_pda.collateral_balance;
    let passed_first = old_amount != 0 && by_amount != 0 && ctx.reserving_contract@
        == ctx.collateral_reservations.reserving_contract@;
    &&& (passed_first && by_amount < 0 ==> by_amount != i128::MIN)
    &&& (passed_first && by_amount < 0 && -by_amount < old_amount ==> {
        &&& balance.available + ((-by_amount) as u128 as u64) <= u64::MAX
        &&& balance.reserved >= ((-by_amount) as u128 as u64)
        &&& amount_before_fee_fits(
            modified_reservation(old_amount, by_amount) as u128,
            ctx.collateral_reservations.withdrawal_fee as u128,
        )
    })
    &&& (passed_first && by_amount > 0 && token_enabled_error(
        ctx.tokens_registry.collateral_tokens@,
        ctx.collateral_reservations.token_address@,
    ) is None && allowance_error(
        ctx.collateralizable_contracts.keys(),
        ctx.account_collateralizable_allowance.current_allowance,
        ctx.account_address@,
        ctx.reserving_contract@,
        by_amount as u128,
    ) is None && balance.available >= by_amount ==> {
        &&& modified_reservation(old_amount, by_amount) <= u128::MAX
        &&& balance.reserved + by_amount <= u64::MAX
        &&& amount_before_fee_fits(
            modified_reservation(old_amount, by_amount) as u128,
            ctx.collateral_reservations.withdrawal_fee as u128,
        )
    })
}

/// The accounts after an accepted change by a non-zero `by_amount`.
pub open spec fn modified_state(old: ModifyCollateralReservations, new: ModifyCollateralReservations, by_amount: i128) -> bool {
    let reserved = modified_reservation(old.collateral_reservations.token_amount, by_amount);
    let claimable = spec_amount_before_fee(reserved, old.collateral_reservations.withdrawal_fee as int);
    &&& new.collateral_reservations.token_amount == reserved
    &&& new.collateral_reservations.claimable_collateral == claimable
    &&& new.collateral_reservations.reserving_contract == old.collateral_reservations.reserving_contract
    &&& new.collateral_reservations.account_address == old.collateral_reservations.account_address
    &&& new.collateral_reservations.token_address == old.collateral_reservations.token_address
    &&& new.collateral_reservations.withdrawal_fee == old.collateral_reservations.withdrawal_fee
    &&& if by_amount < 0 {
        let moved = (-by_amount) as u128 as u64;
        &&& new.account_balance_pda.collateral_balance.available == old.account_balance_pda.collateral_balance.available
            + moved
        &&& new.account_balance_pda.collateral_balance.reserved == old.account_balance_pda.collateral_balance.reserved
            - moved
        &&& new.account_collateralizable_allowance == old.account_collateralizable_allowance
    } else {
        &&& new.account_balance_pda.collateral_balance.available == old.account_balance_pda.collateral_balance.available
            - by_amount
        &&& new.account_balance_pda.collateral_balance.reserved == old.account_balance_pda.collateral_balance.reserved
            + by_amount
        &&& new.account_collateralizable_allowance.current_allowance == allowance_after_use(
            old.account_collateralizable_allowance.current_allowance,
            old.account_address@,
            old.reserving_contract@,
            by_amount as u128,
        )
        &&& new.account_collateralizable_allowance.bump_account_collateralizable
            == old.account_collateralizable_allowance.bump_account_collateralizable
        &&& new.account_collateralizable_allowance.padding == old.account_collateralizable_allowance.padding
    }
    &&& new.account_balance_pda.bump_accounts_balance == old.account_balance_pda.bump_accounts_balance
    &&& new.account_balance_pda.padding == old.account_balance_pda.padding
    &&& new.reserving_contract == old.reserving_contract
    &&& new.account_address == old.account_address
    &&& new.tokens_registry == old.tokens_registry
    &&& new.collateralizable_contracts == old.collateralizable_contracts
}

/// Grows (positive `by_amount`) or shrinks (negative) a reservation, moving the
/// difference between the account's available and reserved collateral, and sets
/// its claimable amount anew. Returns the reserved and the claimable amount.
pub fn modify_collateral_reservations(ctx: &mut ModifyCollateralReservations, by_amount: i128) -> (r: Result<
    (u128, u128),
    CollateralVaultError,
>)
    requires
        modify_fits(*old(ctx), by_amount),
    ensures
        match modify_error(*old(ctx), by_amount) {
            Some(e) => r == Err::<(u128, u128), CollateralVaultError>(e) && *final(ctx) == *old(ctx),
            None => if by_amount == 0 {
                r == Ok::<(u128, u128), CollateralVaultError>(
                    (old(ctx).collateral_reservations.token_amount, old(ctx).collateral_reservations.claimable_collateral),
                ) && *final(ctx) == *old(ctx)
            } else {
                r == Ok::<(u128, u128), CollateralVaultError>(
                    (final(ctx).collateral_reservations.token_amount, final(ctx).collateral_reservations.claimable_collateral),
                ) && modified_state(*old(ctx), *final(ctx), by_amount)
            },
        },
{
    let old_reserved_amount = ctx.collateral_reservations.token_amount;
    if !(old_reserved_amount > 0) {
        return Err(CollateralVaultError::CollateralReservationNotFound);
    }
    if by_amount == 0 {
        return Ok((ctx.collateral_reservations.token_amount, ctx.collateral_reservations.claimable_collateral));
    }
    if !ctx.reserving_contract.key_eq(&ctx.collateral_reservations.reserving_contract) {
        return Err(CollateralVaultError::UnauthorizedCollateralizableContract);
    }
    let reserved_collateral: u128;
    let mut balance = ctx.account_balance_pda.collateral_balance;
    let mut allowance = ctx.account_collateralizable_allowance;
    if by_amount < 0 {
        let by_amount_positive = (-by_amount) as u128;
        if !(by_amount_positive < old_reserved_amount) {
            return Err(CollateralVaultError::InsufficientCollateral);
        }
        reserved_collateral = old_reserved_amount - by_amount_positive;
        let moved = by_amount_positive as u64;
        balance.available = balance.available + moved;
        balance.reserved = balance.reserved - moved;
    } else {
        let by_amount_positive = by_amount as u128;
        match ctx.tokens_registry.verify_token_enabled(&ctx.collateral_reservations.token_address) {
            Ok(()) => {},
            Err(e) => return Err(e),
        }
        match require_collateralizable_and_decrease_approved_amount(
            &ctx.collateralizable_contracts,
            &mut allowance,
            &ctx.account_address,
            &ctx.reserving_contract,
            by_amount_positive,
        ) {
            Ok(()) => {},
            Err(e) => return Err(e),
        }
        let available = balance.available as u128;
        if !(available >= by_amount_positive) {
            return Err(CollateralVaultError::InsufficientCollateral);
        }
        reserved_collateral = old_reserved_amount + by_amount_positive;
        let moved = by_amount_positive as u64;
        balance.available = balance.available - moved;
        balance.reserved = balance.reserved + moved;
    }
    let claimable_collateral = match amount_before_fee(
        reserved_collateral,
        ctx.collateral_reservations.withdrawal_fee as u128,
    ) {
        Ok(v) => v,
        Err(e) => return Err(e),
    };
    if !(claimable_collateral > 0) {
        return Err(CollateralVaultError::ClaimableAmountZero);
    }
    ctx.account_balance_pda.collateral_balance = balance;
    ctx.account_collateralizable_allowance = allowance;
    ctx.collateral_reservations.token_amount = reserved_collateral;
    ctx.collateral_reservations.claimable_collateral = claimable_collateral;
    Ok((reserved_collateral, claimable_collateral))
}

/// A change of a reservation moves collateral between available and reserved by
/// exactly the change of the reservation (for changes that fit in 64 bits):
/// the account's total stays the same.
pub proof fn lemma_modify_keeps_total(
    old: ModifyCollateralReservations,
    new: ModifyCollateralReservations,
    by_amount: i128,
)
    requires
        modified_state(old, new, by_amount),
        by_amount != 0,
        -u64::MAX <= by_amount <= u64::MAX,
    ensures
        total_collateral(new.account_balance_pda.collateral_balance) == total_collateral(
            old.account_balance_pda.collateral_balance,
        ),
        new.account_balance_pda.collateral_balance.reserved - old.account_balance_pda.collateral_balance.reserved
            == new.collateral_reservations.token_amount - old.collateral_reservations.token_amount,
{
}

// ---------------------------------------------------------------------------
// Pooling and transferring collateral
// ---------------------------------------------------------------------------

/// The accounts of the instruction by which a collateralizable contract takes
/// collateral of an account into its own balance.
pub struct PoolCollateral {
    pub reserving_contract: Pubkey,
    pub account_address: Pubkey,
    pub token_address: Pubkey,
    pub tokens_registry: TokenRegistry,
    pub collateralizable_contracts: CollateralizableContracts,
    /// The balance of `account_address` in `token_address`.
    pub account_balance_pda_user: AccountsBalance,
    /// The balance of `reserving_contract` in `token_address`.
    pub account_balance_pda_contract: AccountsBalance,
    /// What `account_address` allows `reserving_contract` to use of `token_address`.
    pub account_collateralizable_allowance: AccountCollateralizableAllowance,
}

/// Why pooling `amount` is refused, if it is.
pub open spec fn pool_error(ctx: PoolCollateral, amount: u128) -> Option<CollateralVaultError> {
    match token_enabled_error(ctx.tokens_registry.collateral_tokens@, ctx.token_address@) {
        Some(e) => Some(e),
        None => match allowance_error(
            ctx.collateralizable_contracts.keys(),
            ctx.account_collateralizable_allowance.current_allowance,
            ctx.account_address@,
            ctx.reserving_contract@,
            amount,
        ) {
            Some(e) => Some(e),
            None => transfer_error(
                ctx.account_address@ == ctx.reserving_contract@,
                ctx.account_balance_pda_user.collateral_balance,
                amount,
            ),
        },
    }
}

/// Whether pooling `amount`, once the token and the allowance are accepted,
/// leaves the contract's balance without overflow.
pub open spec fn pool_fits(ctx: PoolCollateral, amount: u128) -> bool {
    pool_error(ctx, amount) is None ==> transfer_fits(
        ctx.account_address@ == ctx.reserving_contract@,
        ctx.account_balance_pda_user.collateral_balance,
        ctx.account_balance_pda_contract.collateral_balance,
        amount,
    )
}

/// The accounts after pooling `amount`.
pub open spec fn pooled_state(old: PoolCollateral, new: PoolCollateral, amount: u128) -> bool {
    &&& new.account_collateralizable_allowance.current_allowance == allowance_after_use(
        old.account_collateralizable_allowance.current_allowance,
        old.account_address@,
        old.reserving_contract@,
        amount,
    )
    &&& new.account_collateralizable_allowance.bump_account_collateralizable
        == old.account_collateralizable_allowance.bump_account_collateralizable
    &&& new.account_collateralizable_allowance.padding == old.account_collateralizable_allowance.padding
    &&& moved_state(
        old.account_address@ == old.reserving_contract@,
        amount,
        old.account_balance_pda_user,
        old.account_balance_pda_contract,
        new.account_balance_pda_user,
        new.account_balance_pda_contract,
    )
    &&& new.reserving_contract == old.reserving_contract
    &&& new.account_address == old.account_address
    &&& new.token_address == old.token_address
    &&& new.tokens_registry == old.tokens_registry
    &&& new.collateralizable_contracts == old.collateralizable_contracts
}

impl PoolCollateral {
    /// The token registry.
    pub fn get_tokens_registry(&self) -> (r: &TokenRegistry)
        ensures
            *r == self.tokens_registry,
    {
        &self.tokens_registry
    }

    /// The approved collateralizable contracts.
    pub fn get_collateralizable_contracts(&self) -> (r: &CollateralizableContracts)
        ensures
            *r == self.collateralizable_contracts,
    {
        &self.collateralizable_contracts
    }

    /// What the account allows the reserving contract to use.
    pub fn get_account_collateralizable_allowance(&self) -> (r: &AccountCollateralizableAllowance)
        ensures
            *r == self.account_collateralizable_allowance,
    {
        &self.account_collateralizable_allowance
    }

    /// The account whose collateral is used.
    pub fn get_account_address(&self) -> (r: Pubkey)
        ensures
            r == self.account_address,
    {
        self.account_address
    }

    /// The contract that uses it.
    pub fn get_reserving_contract_address(&self) -> (r: Pubkey)
        ensures
            r == self.reserving_contract,
    {
        self.reserving_contract
    }

    /// The balances collateral moves between: the account's and the contract's.
    pub fn get_account_balance_pdas(&self) -> (r: (&AccountsBalance, &AccountsBalance))
        ensures
            *r.0 == self.account_balance_pda_user,
            *r.1 == self.account_balance_pda_contract,
    {
        (&self.account_balance_pda_user, &self.account_balance_pda_contract)
    }

    /// Checks that the reserving contract may use `amount` of the account's
    /// collateral and takes `amount` off its allowance.
    pub fn require_collateralizable_and_decrease_approved_amount(&mut self, amount: u128) -> (r: Result<
        (),
        CollateralVaultError,
    >)
        ensures
            match allowance_error(
                old(self).collateralizable_contracts.keys(),
                old(self).account_collateralizable_allowance.current_allowance,
                old(self).account_address@,
                old(self).reserving_contract@,
                amount,
            ) {
                Some(e) => r == Err::<(), CollateralVaultError>(e) && *final(self) == *old(self),
                None => r is Ok && final(self).account_collateralizable_allowance.current_allowance
                    == allowance_after_use(
                    old(self).account_collateralizable_allowance.current_allowance,
                    old(self).account_address@,
                    old(self).reserving_contract@,
                    amount,
                ) && final(self).account_collateralizable_allowance.bump_account_collateralizable
                    == old(self).account_collateralizable_allowance.bump_account_collateralizable
                    && final(self).account_collateralizable_allowance.padding
                    == old(self).account_collateralizable_allowance.padding && final(self).account_address
                    == old(self).account_address && final(self).reserving_contract == old(self).reserving_contract
                    && final(self).token_address == old(self).token_address && final(self).tokens_registry
                    == old(self).tokens_registry && final(self).collateralizable_contracts
                    == old(self).collateralizable_contracts && final(self).account_balance_pda_user
                    == old(self).account_balance_pda_user && final(self).account_balance_pda_contract
                    == old(self).account_balance_pda_contract,
            },
    {
        require_collateralizable_and_decrease_approved_amount(
            &self.collateralizable_contracts,
            &mut self.account_collateralizable_allowance,
            &self.account_address,
            &self.reserving_contract,
            amount,
        )
    }

    /// Checks that `token_address` is a supported and enabled collateral token.
    pub fn verify_token_enabled(&self, token_address: &Pubkey) -> (r: Result<(), CollateralVaultError>)
        ensures
            match token_enabled_error(self.tokens_registry.collateral_tokens@, token_address@) {
                Some(e) => r == Err::<(), CollateralVaultError>(e),
                None => r is Ok,
            },
    {
        self.tokens_registry.verify_token_enabled(token_address)
    }

    /// Moves `amount` of available collateral from the account to the reserving
    /// contract.
    pub fn transfer_collateral(&mut self, amount: u128) -> (r: Result<(), CollateralVaultError>)
        requires
            transfer_fits(
                old(self).account_address@ == old(self).reserving_contract@,
                old(self).account_balance_pda_user.collateral_balance,
                old(self).account_balance_pda_contract.collateral_balance,
                amount,
            ),
        ensures
            match transfer_error(
                old(self).account_address@ == old(self).reserving_contract@,
                old(self).account_balance_pda_user.collateral_balance,
                amount,
            ) {
                Some(e) => r == Err::<(), CollateralVaultError>(e) && *final(self) == *old(self),
                None => r is Ok && moved_state(
                    old(self).account_address@ == old(self).reserving_contract@,
                    amount,
                    old(self).account_balance_pda_user,
                    old(self).account_balance_pda_contract,
                    final(self).account_balance_pda_user,
                    final(self).account_balance_pda_contract,
                ) && final(self).account_collateralizable_allowance == old(self).account_collateralizable_allowance
                    && final(self).reserving_contract == old(self).reserving_contract && final(self).account_address
                    == old(self).account_address && final(self).token_address == old(self).token_address
                    && final(self).tokens_registry == old(self).tokens_registry && final(self).collateralizable_contracts
                    == old(self).collateralizable_contracts,
            },
    {
        let same = self.account_address.key_eq(&self.reserving_contract);
        move_available(same, &mut self.account_balance_pda_user, &mut self.account_balance_pda_contract, amount)
    }
}

/// Takes `amount` of the account's available collateral into the reserving
/// contract's balance, using up as much of its allowance.
pub fn pool_collateral(ctx: &mut PoolCollateral, amount: u128) -> (r: Result<(), CollateralVaultError>)
    requires
        pool_fits(*old(ctx), amount),
    ensures
        match pool_error(*old(ctx), amount) {
            Some(e) => r == Err::<(), CollateralVaultError>(e) && *final(ctx) == *old(ctx),
            None => r is Ok && pooled_state(*old(ctx), *final(ctx), amount),
        },
{
    match ctx.verify_token_enabled(&ctx.token_address) {
        Ok(()) => {},
        Err(e) => return Err(e),
    }
    let mut allowance = ctx.account_collateralizable_allowance;
    match require_collateralizable_and_decrease_approved_amount(
        &ctx.collateralizable_contracts,
        &mut allowance,
        &ctx.account_address,
        &ctx.reserving_contract,
        amount,
    ) {
        Ok(()) => {},
        Err(e) => return Err(e),
    }
    match ctx.transfer_collateral(amount) {
        Ok(()) => {},
        Err(e) => return Err(e),
    }
    ctx.account_collateralizable_allowance = allowance;
    Ok(())
}

/// Pooling moves collateral between the two balances without creating or
/// destroying any.
pub proof fn lemma_pool_conserves(old: PoolCollateral, new: PoolCollateral, amount: u128)
    requires
        pooled_state(old, new, amount),
    ensures
        total_collateral(new.account_balance_pda_user.collateral_balance) + total_collateral(
            new.account_balance_pda_contract.collateral_balance,
        ) == total_collateral(old.account_balance_pda_user.collateral_balance) + total_collateral(
            old.account_balance_pda_contract.collateral_balance,
        ),
{
}

/// The accounts of the instruction by which the caller moves some of its
/// available collateral to another account.
pub struct TransferCollateral {
    pub caller: Pubkey,
    pub destination: Pubkey,
    pub token_address: Pubkey,
    /// The balance of `caller` in `token_address`.
    pub account_balance_pda_from: AccountsBalance,
    /// The balance of `destination` in `token_address`.
    pub account_balance_pda_to: AccountsBalance,
}

impl TransferCollateral {
    /// Moves `amount` of available collateral from the caller to the destination.
    pub fn transfer_collateral(&mut self, amount: u128) -> (r: Result<(), CollateralVaultError>)
        requires
            transfer_fits(
                old(self).caller@ == old(self).destination@,
                old(self).account_balance_pda_from.collateral_balance,
                old(self).account_balance_pda_to.collateral_balance,
                amount,
            ),
        ensures
            final(self).caller == old(self).caller,
            final(self).destination == old(self).destination,
            final(self).token_address == old(self).token_address,
            match transfer_error(
                old(self).caller@ == old(self).destination@,
                old(self).account_balance_pda_from.collateral_balance,
                amount,
            ) {
                Some(e) => r == Err::<(), CollateralVaultError>(e) && *final(self) == *old(self),
                None => r is Ok && moved_state(
                    old(self).caller@ == old(self).destination@,
                    amount,
                    old(self).account_balance_pda_from,
                    old(self).account_balance_pda_to,
                    final(self).account_balance_pda_from,
                    final(self).account_balance_pda_to,
                ),
            },
    {
        let same = self.caller.key_eq(&self.destination);
        move_available(same, &mut self.account_balance_pda_from, &mut self.account_balance_pda_to, amount)
    }
}

/// Moves `amount` of the caller's available collateral to the destination.
pub fn transfer_collateral(ctx: &mut TransferCollateral, amount: u128) -> (r: Result<(), CollateralVaultError>)
    requires
        transfer_fits(
            old(ctx).caller@ == old(ctx).destination@,
            old(ctx).account_balance_pda_from.collateral_balance,
            old(ctx).account_balance_pda_to.collateral_balance,
            amount,
        ),
    ensures
        match transfer_error(
            old(ctx).caller@ == old(ctx).destination@,
            old(ctx).account_balance_pda_from.collateral_balance,
            amount,
        ) {
            Some(e) => r == Err::<(), CollateralVaultError>(e) && *final(ctx) == *old(ctx),
            None => r is Ok && moved_state(
                old(ctx).caller@ == old(ctx).destination@,
                amount,
                old(ctx).account_balance_pda_from,
                old(ctx).account_balance_pda_to,
                final(ctx).account_balance_pda_from,
                final(ctx).account_balance_pda_to,
            ) && final(ctx).caller == old(ctx).caller && final(ctx).destination == old(ctx).destination
                && final(ctx).token_address == old(ctx).token_address,
        },
{
    ctx.transfer_collateral(amount)
}

/// Moving available collateral between two accounts neither creates nor destroys any.
pub proof fn lemma_transfer_conserves(
    same_account: bool,
    amount: u128,
    old_from: AccountsBalance,
    old_to: AccountsBalance,
    new_from: AccountsBalance,
    new_to: AccountsBalance,
)
    requires
        moved_state(same_account, amount, old_from, old_to, new_from, new_to),
    ensures
        total_collateral(new_from.collateral_balance) + total_collateral(new_to.collateral_balance) == total_collateral(
            old_from.collateral_balance,
        ) + total_collateral(old_to.collateral_balance),
{
}

/// The reservation's own contract can always shrink a reservation while
/// something stays reserved and claimable: such a change is accepted whatever
/// the token registry says, the token being disabled or no longer listed included.
pub proof fn lemma_shrink_accepted_whatever_the_token(ctx: ModifyCollateralReservations, by_amount: i128)
    requires
        ctx.collateral_reservations.token_amount > 0,
        by_amount < 0,
        ctx.reserving_contract@ == ctx.collateral_reservations.reserving_contract@,
        -by_amount < ctx.collateral_reservations.token_amount,
        spec_amount_before_fee(
            ctx.collateral_reservations.token_amount + by_amount,
            ctx.collateral_reservations.withdrawal_fee as int,
        ) > 0,
    ensures
        modify_error(ctx, by_amount) is None,
{
}

/// Whether a shrink is accepted, and with which error it is refused, does not
/// depend on the token registry.
pub proof fn lemma_shrink_ignores_the_registry(
    ctx: ModifyCollateralReservations,
    registry: TokenRegistry,
    by_amount: i128,
)
    requires
        by_amount < 0,
    ensures
        modify_error((ModifyCollateralReservations { tokens_registry: registry, ..ctx }), by_amount) == modify_error(
            ctx,
            by_amount,
        ),
{
}

// ---------------------------------------------------------------------------
// Allowances set by the account
// ---------------------------------------------------------------------------

/// The accounts of the instruction by which an account changes what a
/// collateralizable contract may use of one of its tokens.
pub struct ModifyCollateralizableTokenAllowance {
    /// The account that grants the allowance, and signs.
    pub caller: Pubkey,
    pub collateralizable_contract: Pubkey,
    pub token_address: Pubkey,
    pub collateralizable_contracts: CollateralizableContracts,
    /// What `caller` allows `collateralizable_contract` to use of `token_address`.
    pub account_collateralizable_allowance: AccountCollateralizableAllowance,
}

impl ModifyCollateralizableTokenAllowance {
    /// Changes the allowance by `by_amount`, saturating at zero and at the largest
    /// `u64`; an increase needs an approved contract.
    pub fn authorized_modify_collateralizable_token_allowance(&mut self, by_amount: i64) -> (r: Result<
        (),
        CollateralVaultError,
    >)
        ensures
            if by_amount > 0 && !old(self).collateralizable_contracts.keys().contains(
                old(self).collateralizable_contract@,
            ) {
                r == Err::<(), CollateralVaultError>(CollateralVaultError::UnapprovedCollateralizableContract)
                    && *final(self) == *old(self)
            } else {
                &&& r is Ok
                &&& final(self).account_collateralizable_allowance.current_allowance == modified_allowance(
                    old(self).account_collateralizable_allowance.current_allowance,
                    by_amount,
                )
                &&& final(self).account_collateralizable_allowance.bump_account_collateralizable
                    == old(self).account_collateralizable_allowance.bump_account_collateralizable
                &&& final(self).account_collateralizable_allowance.padding
                    == old(self).account_collateralizable_allowance.padding
                &&& final(self).caller == old(self).caller
                &&& final(self).collateralizable_contract == old(self).collateralizable_contract
                &&& final(self).token_address == old(self).token_address
                &&& final(self).collateralizable_contracts == old(self).collateralizable_contracts
            },
    {
        if by_amount > 0 && !contains_key(
            &self.collateralizable_contracts.collaterizable_contracts,
            &self.collateralizable_contract,
        ) {
            return Err(CollateralVaultError::UnapprovedCollateralizableContract);
        }
        let new_allowance = modify_allowance_amount(self.account_collateralizable_allowance.current_allowance, by_amount);
        self.account_collateralizable_allowance.current_allowance = new_allowance;
        Ok(())
    }
}

/// Changes what the caller allows the collateralizable contract to use by
/// `by_amount`, saturating at zero and at the largest `u64`; an increase needs
/// an approved contract, a decrease does not.
pub fn modify_collateralizable_token_allowance(
    ctx: &mut ModifyCollateralizableTokenAllowance,
    by_amount: i64,
) -> (r: Result<(), CollateralVaultError>)
    ensures
        if by_amount > 0 && !old(ctx).collateralizable_contracts.keys().contains(old(ctx).collateralizable_contract@) {
            r == Err::<(), CollateralVaultError>(CollateralVaultError::UnapprovedCollateralizableContract)
                && *final(ctx) == *old(ctx)
        } else {
            &&& r is Ok
            &&& final(ctx).account_collateralizable_allowance.current_allowance == modified_allowance(
                old(ctx).account_collateralizable_allowance.current_allowance,
                by_amount,
            )
            &&& final(ctx).account_collateralizable_allowance.bump_account_collateralizable
                == old(ctx).account_collateralizable_allowance.bump_account_collateralizable
            &&& final(ctx).account_collateralizable_allowance.padding
                == old(ctx).account_collateralizable_allowance.padding
            &&& final(ctx).caller == old(ctx).caller
            &&& final(ctx).collateralizable_contract == old(ctx).collateralizable_contract
            &&& final(ctx).token_address == old(ctx).token_address
            &&& final(ctx).collateralizable_contracts == old(ctx).collateralizable_contracts
        },
{
    ctx.authorized_modify_collateralizable_token_allowance(by_amount)
}

/// Changing an allowance by an amount and then by its opposite gives it back,
/// as long as neither change saturates.
pub proof fn lemma_allowance_change_undone(current: u64, by_amount: i64)
    requires
        by_amount != i64::MIN,
        0 <= current + by_amount <= u64::MAX,
    ensures
        modified_allowance(modified_allowance(current, by_amount), (-by_amount) as i64) == current,
{
}

} // verus!
