use vstd::prelude::*;
use vstd::bytes::{spec_u64_from_le_bytes, spec_u64_to_le_bytes, u64_from_le_bytes, u64_to_le_bytes};

use crate::errors::CollateralVaultError;
use crate::pubkey::Pubkey;

verus! {

/// The most tokens the token registry has room for.
pub const MAX_TOKENS: usize = 20;

/// Bytes of an `AccountsBalance` after its discriminator.
pub const ACCOUNTS_BALANCE_SPACE: usize = 24;

/// Bytes of an `AccountCollateralizableAllowance` after its discriminator.
pub const ACCOUNT_COLLATERALIZABLE_ALLOWANCE_SPACE: usize = 16;

/// Bytes of the token registry account after its discriminator:
/// bump, governance owner, vector length and room for `MAX_TOKENS` entries of 41 bytes.
pub const TOKEN_REGISTRY_SPACE: usize = 1 + 32 + 4 + 20 * (32 + 8 + 1);

/// The first 8 bytes of every `AccountsBalance` account.
pub const ACCOUNTS_BALANCE_DISCRIMINATOR: [u8; 8] = [221, 138, 153, 186, 233, 167, 111, 27];

/// The first 8 bytes of every `AccountCollateralizableAllowance` account.
pub const ACCOUNT_COLLATERALIZABLE_ALLOWANCE_DISCRIMINATOR: [u8; 8] = [90, 51, 8, 29, 212, 146, 0, 67];

/// A collateral token the vault supports.
#[derive(Clone, Copy, Debug, PartialEq, Eq, Structural)]
pub struct CollateralToken {
    /// The sum of what users hold of this token in the vault.
    pub user_cumulative_balance: u64,
    pub is_enabled: bool,
}

/// What an account holds of one token: free to use, and reserved.
#[derive(Clone, Copy, Debug, PartialEq, Eq, Structural)]
pub struct CollateralBalance {
    pub available: u64,
    pub reserved: u64,
}

/// The balance of one account in one token, kept at a program derived address.
#[derive(Clone, Copy, Debug)]
pub struct AccountsBalance {
    pub collateral_balance: CollateralBalance,
    pub bump_accounts_balance: u8,
    pub padding: [u8; 7],
}

/// What an account allows one collateralizable contract to use of one token.
#[derive(Clone, Copy, Debug)]
pub struct AccountCollateralizableAllowance {
    pub current_allowance: u64,
    pub bump_account_collateralizable: u8,
    pub padding: [u8; 7],
}

/// The authorities that oversee the vault's token balances.
pub struct BankVaultAuthority {
    pub trusted_authorities: Vec<Pubkey>,
    pub bank_vault_authority_bump: u8,
}

/// A token mint together with its collateral settings.
#[derive(Clone, Copy, Debug)]
pub struct TokenEntry {
    pub token_mint: Pubkey,
    pub collateral_token: CollateralToken,
}

/// The counter from which reservation ids are drawn.
#[derive(Clone, Copy, Debug)]
pub struct CollateralReservationsNonce {
    pub nonce: u64,
}

/// The supported collateral tokens, in the order they were added.
pub struct TokenRegistry {
    pub token_registry_bump: u8,
    /// The governance owner, the only signer that may change the registry:
    /// the admin that created it.
    pub governance: Pubkey,
    pub collateral_tokens: Vec<(Pubkey, CollateralToken)>,
}

/// The collateralizable contracts that governance approved.
pub struct CollateralizableContracts {
    pub collaterizable_contracts_bump: u8,
    /// The governance owner, the only signer that may change the list: the
    /// admin that created it.
    pub governance: Pubkey,
    pub collaterizable_contracts: Vec<Pubkey>,
}

/// A reservation of an account's collateral by a collateralizable contract.
#[derive(Clone, Copy, Debug)]
pub struct CollateralReservations {
    pub reserving_contract: Pubkey,
    pub account_address: Pubkey,
    pub token_address: Pubkey,
    pub withdrawal_fee: u16,
    /// The collateral reserved, fee included.
    pub token_amount: u128,
    /// What the reserving contract may still claim, fee excluded.
    pub claimable_collateral: u128,
}

/// The token addresses of registry entries, in order.
pub open spec fn token_keys(tokens: Seq<(Pubkey, CollateralToken)>) -> Seq<Seq<u8>> {
    tokens.map_values(|e: (Pubkey, CollateralToken)| e.0@)
}

/// The bytes of each key, in order.
pub open spec fn key_views(keys: Seq<Pubkey>) -> Seq<Seq<u8>> {
    keys.map_values(|k: Pubkey| k@)
}

/// No key occurs twice.
pub open spec fn no_duplicates(keys: Seq<Seq<u8>>) -> bool {
    forall|i: int, j: int| 0 <= i < j < keys.len() ==> keys[i] != keys[j]
}

impl TokenRegistry {
    /// The token addresses of the registry, in order.
    pub open spec fn keys(&self) -> Seq<Seq<u8>> {
        token_keys(self.collateral_tokens@)
    }
}

impl CollateralizableContracts {
    /// The approved contract addresses, in order.
    pub open spec fn keys(&self) -> Seq<Seq<u8>> {
        key_views(self.collaterizable_contracts@)
    }
}

/// The bytes that store `balance`: its discriminator, then each field little-endian.
pub open spec fn accounts_balance_bytes(balance: AccountsBalance) -> Seq<u8> {
    ACCOUNTS_BALANCE_DISCRIMINATOR@
        + spec_u64_to_le_bytes(balance.collateral_balance.available)
        + spec_u64_to_le_bytes(balance.collateral_balance.reserved)
        + seq![balance.bump_accounts_balance]
        + balance.padding@
}

/// The bytes that store `allowance`: its discriminator, then each field little-endian.
pub open spec fn allowance_bytes(allowance: AccountCollateralizableAllowance) -> Seq<u8> {
    ACCOUNT_COLLATERALIZABLE_ALLOWANCE_DISCRIMINATOR@
        + spec_u64_to_le_bytes(allowance.current_allowance)
        + seq![allowance.bump_account_collateralizable]
        + allowance.padding@
}

/// Why `data` cannot be read as an account of the type with `discriminator` and
/// `space` bytes of fields, if it cannot.
pub open spec fn account_data_error(data: Seq<u8>, discriminator: Seq<u8>, space: nat) -> Option<
    CollateralVaultError,
> {
    if data.len() < 8 {
        Some(CollateralVaultError::AccountDiscriminatorNotFound)
    } else if data.subrange(0, 8) != discriminator {
        Some(CollateralVaultError::AccountDiscriminatorMismatch)
    } else if data.len() < 8 + space {
        Some(CollateralVaultError::AccountDidNotDeserialize)
    } else {
        None
    }
}

/// The `AccountsBalance` fields that `data` holds, when it holds one.
pub open spec fn accounts_balance_read(data: Seq<u8>, balance: AccountsBalance) -> bool {
    &&& balance.collateral_balance.available == spec_u64_from_le_bytes(data.subrange(8, 16))
    &&& balance.collateral_balance.reserved == spec_u64_from_le_bytes(data.subrange(16, 24))
    &&& balance.bump_accounts_balance == data[24]
    &&& balance.padding@ == data.subrange(25, 32)
}

/// The `AccountCollateralizableAllowance` fields that `data` holds, when it holds one.
pub open spec fn allowance_read(data: Seq<u8>, allowance: AccountCollateralizableAllowance) -> bool {
    &&& allowance.current_allowance == spec_u64_from_le_bytes(data.subrange(8, 16))
    &&& allowance.bump_account_collateralizable == data[16]
    &&& allowance.padding@ == data.subrange(17, 24)
}

/// Two balances with the same fields.
pub open spec fn same_balance(a: AccountsBalance, b: AccountsBalance) -> bool {
    &&& a.collateral_balance == b.collateral_balance
    &&& a.bump_accounts_balance == b.bump_accounts_balance
    &&& a.padding@ == b.padding@
}

/// Two allowances with the same fields.
pub open spec fn same_allowance(a: AccountCollateralizableAllowance, b: AccountCollateralizableAllowance) -> bool {
    &&& a.current_allowance == b.current_allowance
    &&& a.bump_account_collateralizable == b.bump_account_collateralizable
    &&& a.padding@ == b.padding@
}

pub(crate) fn take_bytes(data: &Vec<u8>, start: usize, len: usize) -> (out: Vec<u8>)
    requires
        start + len <= data@.len(),
    ensures
        out@ == data@.subrange(start as int, start + len),
{
    let n = data.len();
    let mut out: Vec<u8> = Vec::new();
    let mut i: usize = 0;
    while i < len
        invariant
            0 <= i <= len,
            n == data@.len(),
            start + len <= n,
            out@ == data@.subrange(start as int, start + i),
        decreases len - i,
    {
        out.push(data[start + i]);
        i = i + 1;
        assert(out@ =~= data@.subrange(start as int, start + i));
    }
    out
}

pub(crate) fn append_bytes(out: &mut Vec<u8>, bytes: &Vec<u8>)
    ensures
        final(out)@ == old(out)@ + bytes@,
{
    let mut i: usize = 0;
    let ghost start = out@;
    while i < bytes.len()
        invariant
            0 <= i <= bytes@.len(),
            out@ == start + bytes@.take(i as int),
        decreases bytes@.len() - i,
    {
        out.push(bytes[i]);
        i = i + 1;
        assert(out@ =~= start + bytes@.take(i as int));
    }
    assert(bytes@.take(bytes@.len() as int) =~= bytes@);
}

fn array8_to_vec(a: &[u8; 8]) -> (v: Vec<u8>)
    ensures
        v@ == a@,
{
    let mut v: Vec<u8> = Vec::new();
    let mut i: usize = 0;
    while i < 8
        invariant
            0 <= i <= 8,
            a@.len() == 8,
            v@ == a@.take(i as int),
        decreases 8 - i,
    {
        v.push(a[i]);
        i = i + 1;
        assert(v@ =~= a@.take(i as int));
    }
    assert(a@.take(8) =~= a@);
    v
}

fn array7_to_vec(a: &[u8; 7]) -> (v: Vec<u8>)
    ensures
        v@ == a@,
{
    let mut v: Vec<u8> = Vec::new();
    let mut i: usize = 0;
    while i < 7
        invariant
            0 <= i <= 7,
            a@.len() == 7,
            v@ == a@.take(i as int),
        decreases 7 - i,
    {
        v.push(a[i]);
        i = i + 1;
        assert(v@ =~= a@.take(i as int));
    }
    assert(a@.take(7) =~= a@);
    v
}

fn padding_at(data: &Vec<u8>, start: usize) -> (p: [u8; 7])
    requires
        start + 7 <= data@.len(),
    ensures
        p@ == data@.subrange(start as int, start + 7),
{
    let n = data.len();
    assert(start + 7 <= n);
    let p = [
        data[start],
        data[start + 1],
        data[start + 2],
        data[start + 3],
        data[start + 4],
        data[start + 5],
        data[start + 6],
    ];
    assert(p@ =~= data@.subrange(start as int, start + 7));
    p
}

/// Whether the first 8 bytes of `data` are `discriminator`.
fn has_discriminator(data: &Vec<u8>, discriminator: &[u8; 8]) -> (b: bool)
    requires
        data@.len() >= 8,
    ensures
        b == (data@.subrange(0, 8) == discriminator@),
{
    let mut i: usize = 0;
    while i < 8
        invariant
            0 <= i <= 8,
            data@.len() >= 8,
            discriminator@.len() == 8,
            forall|j: int| 0 <= j < i ==> data@[j] == discriminator@[j],
        decreases 8 - i,
    {
        if data[i] != discriminator[i] {
            assert(data@.subrange(0, 8)[i as int] != discriminator@[i as int]);
            return false;
        }
        i = i + 1;
    }
    assert(data@.subrange(0, 8) =~= discriminator@);
    true
}

/// Checks that `data` starts with `discriminator` and holds `space` bytes after it.
fn check_account_data(data: &Vec<u8>, discriminator: &[u8; 8], space: usize) -> (r: Result<(), CollateralVaultError>)
    requires
        space <= usize::MAX - 8,
    ensures
        match account_data_error(data@, discriminator@, space as nat) {
            Some(e) => r == Err::<(), CollateralVaultError>(e),
            None => r is Ok,
        },
{
    if data.len() < 8 {
        return Err(CollateralVaultError::AccountDiscriminatorNotFound);
    }
    if !has_discriminator(data, discriminator) {
        return Err(CollateralVaultError::AccountDiscriminatorMismatch);
    }
    if data.len() < 8 + space {
        return Err(CollateralVaultError::AccountDidNotDeserialize);
    }
    Ok(())
}

impl AccountsBalance {
    /// An empty balance: nothing available, nothing reserved.
    pub fn new_empty() -> (b: AccountsBalance)
        ensures
            b.collateral_balance.available == 0,
            b.collateral_balance.reserved == 0,
            b.bump_accounts_balance == 0,
            b.padding@ == seq![0u8, 0u8, 0u8, 0u8, 0u8, 0u8, 0u8],
    {
        let b = AccountsBalance {
            collateral_balance: CollateralBalance { available: 0, reserved: 0 },
            bump_accounts_balance: 0,
            padding: [0u8; 7],
        };
        assert(b.padding@ =~= seq![0u8, 0u8, 0u8, 0u8, 0u8, 0u8, 0u8]);
        b
    }

    /// The bytes that store this balance in its account.
    pub fn to_account_data(&self) -> (data: Vec<u8>)
        ensures
            data@ == accounts_balance_bytes(*self),
            data@.len() == 8 + ACCOUNTS_BALANCE_SPACE,
    {
        let mut data = array8_to_vec(&ACCOUNTS_BALANCE_DISCRIMINATOR);
        append_bytes(&mut data, &u64_to_le_bytes(self.collateral_balance.available));
        append_bytes(&mut data, &u64_to_le_bytes(self.collateral_balance.reserved));
        data.push(self.bump_accounts_balance);
        append_bytes(&mut data, &array7_to_vec(&self.padding));
        assert(data@ =~= accounts_balance_bytes(*self));
        data
    }

    /// Reads a balance from the data of its account.
    pub fn from_account_data(data: &Vec<u8>) -> (r: Result<AccountsBalance, CollateralVaultError>)
        ensures
            match account_data_error(data@, ACCOUNTS_BALANCE_DISCRIMINATOR@, ACCOUNTS_BALANCE_SPACE as nat) {
                Some(e) => r == Err::<AccountsBalance, CollateralVaultError>(e),
                None => r matches Ok(b) && accounts_balance_read(data@, b),
            },
    {
        match check_account_data(data, &ACCOUNTS_BALANCE_DISCRIMINATOR, ACCOUNTS_BALANCE_SPACE) {
            Ok(()) => {},
            Err(e) => return Err(e),
        }
        let available = u64_from_le_bytes(take_bytes(data, 8, 8).as_slice());
        let reserved = u64_from_le_bytes(take_bytes(data, 16, 8).as_slice());
        let bump = data[24];
        let padding = padding_at(data, 25);
        Ok(AccountsBalance {
            collateral_balance: CollateralBalance { available, reserved },
            bump_accounts_balance: bump,
            padding,
        })
    }
}

impl AccountCollateralizableAllowance {
    /// An empty allowance: nothing allowed.
    pub fn new_empty() -> (a: AccountCollateralizableAllowance)
        ensures
            a.current_allowance == 0,
            a.bump_account_collateralizable == 0,
            a.padding@ == seq![0u8, 0u8, 0u8, 0u8, 0u8, 0u8, 0u8],
    {
        let a = AccountCollateralizableAllowance {
            current_allowance: 0,
            bump_account_collateralizable: 0,
            padding: [0u8; 7],
        };
        assert(a.padding@ =~= seq![0u8, 0u8, 0u8, 0u8, 0u8, 0u8, 0u8]);
        a
    }

    /// The bytes that store this allowance in its account.
    pub fn to_account_data(&self) -> (data: Vec<u8>)
        ensures
            data@ == allowance_bytes(*self),
            data@.len() == 8 + ACCOUNT_COLLATERALIZABLE_ALLOWANCE_SPACE,
    {
        let mut data = array8_to_vec(&ACCOUNT_COLLATERALIZABLE_ALLOWANCE_DISCRIMINATOR);
        append_bytes(&mut data, &u64_to_le_bytes(self.current_allowance));
        data.push(self.bump_account_collateralizable);
        append_bytes(&mut data, &array7_to_vec(&self.padding));
        assert(data@ =~= allowance_bytes(*self));
        data
    }

    /// Reads an allowance from the data of its account.
    pub fn from_account_data(data: &Vec<u8>) -> (r: Result<AccountCollateralizableAllowance, CollateralVaultError>)
        ensures
            match account_data_error(
                data@,
                ACCOUNT_COLLATERALIZABLE_ALLOWANCE_DISCRIMINATOR@,
                ACCOUNT_COLLATERALIZABLE_ALLOWANCE_SPACE as nat,
            ) {
                Some(e) => r == Err::<AccountCollateralizableAllowance, CollateralVaultError>(e),
                None => r matches Ok(a) && allowance_read(data@, a),
            },
    {
        match check_account_data(
            data,
            &ACCOUNT_COLLATERALIZABLE_ALLOWANCE_DISCRIMINATOR,
            ACCOUNT_COLLATERALIZABLE_ALLOWANCE_SPACE,
        ) {
            Ok(()) => {},
            Err(e) => return Err(e),
        }
        let current_allowance = u64_from_le_bytes(take_bytes(data, 8, 8).as_slice());
        let bump = data[16];
        let padding = padding_at(data, 17);
        Ok(AccountCollateralizableAllowance {
            current_allowance,
            bump_account_collateralizable: bump,
            padding,
        })
    }
}

/// Reading back the bytes of a balance, followed by anything, gives the same balance.
pub proof fn lemma_accounts_balance_roundtrip(balance: AccountsBalance, rest: Seq<u8>)
    ensures
        ({
            let data = accounts_balance_bytes(balance) + rest;
            &&& account_data_error(data, ACCOUNTS_BALANCE_DISCRIMINATOR@, ACCOUNTS_BALANCE_SPACE as nat) is None
            &&& forall|b: AccountsBalance| accounts_balance_read(data, b) ==> same_balance(b, balance)
        }),
{
    vstd::bytes::lemma_auto_spec_u64_to_from_le_bytes();
    let data = accounts_balance_bytes(balance) + rest;
    let a = spec_u64_to_le_bytes(balance.collateral_balance.available);
    let r = spec_u64_to_le_bytes(balance.collateral_balance.reserved);
    assert(ACCOUNTS_BALANCE_DISCRIMINATOR@.len() == 8);
    assert(balance.padding@.len() == 7);
    assert(data.subrange(0, 8) =~= ACCOUNTS_BALANCE_DISCRIMINATOR@);
    assert(data.subrange(8, 16) =~= a);
    assert(data.subrange(16, 24) =~= r);
    assert(data.subrange(25, 32) =~= balance.padding@);
    assert(data[24] == balance.bump_accounts_balance);
}

/// Reading back the bytes of an allowance, followed by anything, gives the same allowance.
pub proof fn lemma_allowance_roundtrip(allowance: AccountCollateralizableAllowance, rest: Seq<u8>)
    ensures
        ({
            let data = allowance_bytes(allowance) + rest;
            &&& account_data_error(
                data,
                ACCOUNT_COLLATERALIZABLE_ALLOWANCE_DISCRIMINATOR@,
                ACCOUNT_COLLATERALIZABLE_ALLOWANCE_SPACE as nat,
            ) is None
            &&& forall|a: AccountCollateralizableAllowance| allowance_read(data, a) ==> same_allowance(a, allowance)
        }),
{
    vstd::bytes::lemma_auto_spec_u64_to_from_le_bytes();
    let data = allowance_bytes(allowance) + rest;
    let c = spec_u64_to_le_bytes(allowance.current_allowance);
    assert(ACCOUNT_COLLATERALIZABLE_ALLOWANCE_DISCRIMINATOR@.len() == 8);
    assert(allowance.padding@.len() == 7);
    assert(data.subrange(0, 8) =~= ACCOUNT_COLLATERALIZABLE_ALLOWANCE_DISCRIMINATOR@);
    assert(data.subrange(8, 16) =~= c);
    assert(data.subrange(17, 24) =~= allowance.padding@);
    assert(data[16] == allowance.bump_account_collateralizable);
}

} // verus!
