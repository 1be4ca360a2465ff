use vstd::prelude::*;

verus! {

/// Every way an instruction of the vault can be refused.
///
/// The first group are the vault's own errors; the last groups are the errors that
/// the account layer raises while the vault reads its accounts.
#[derive(Debug, Clone, Copy, PartialEq, Eq, Structural)]
pub enum CollateralVaultError {
    AlreadySupportedToken,
    TokenNotAllowed,
    TokenNotSupported,
    CollateralizableContractNotFound,
    UnapprovedCollateralizableContract,
    MismatchedTokenAddressesAndAmountsLength,
    TokenOverflowError,
    PDAAccountNotFound,
    InvalidRemainingMints,
    MismatchedTokenVaults,
    MismatchedTokenAccounts,
    CollateralReservationNotFound,
    InsufficientCollateral,
    ClaimableAmountZero,
    ZeroAmount,
    TokenMintNotFound,
    MismatchedAllowancePDA,
    InsufficientVaultBalance,
    ClaimAmountZero,
    UnauthorizedCollateralizableContract,
    WrongAccountAddress,
    InsufficientAllowance,
    /// A `u128` amount did not fit in the `u64` it had to be converted to.
    IntegerConversionFailed,
    /// The account is owned by the system program and holds no lamports.
    AccountNotInitialized,
    /// The account is not owned by the vault program.
    AccountOwnedByWrongProgram,
    /// The account data is shorter than a discriminator.
    AccountDiscriminatorNotFound,
    /// The account data starts with another account type's discriminator.
    AccountDiscriminatorMismatch,
    /// The account data is too short for the account type.
    AccountDidNotDeserialize,
    /// The data of a token mint is malformed.
    InvalidAccountData,
    /// The token mint is not initialized.
    UninitializedAccount,
    /// No program derived address exists for the given seeds.
    NoViableProgramAddress,
    /// The signer of a governance instruction is not the registry's owner.
    UnauthorizedGovernance,
}

} // verus!
