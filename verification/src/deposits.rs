use vstd::prelude::*;
use vstd::bytes::{spec_u64_from_le_bytes, spec_u64_to_le_bytes};

use crate::accounts::{
    account_data_error, accounts_balance_read, allowance_read, append_bytes, take_bytes, AccountCollateralizableAllowance,
    token_keys, AccountsBalance, CollateralToken, CollateralizableContracts, TokenRegistry, ACCOUNTS_BALANCE_DISCRIMINATOR,
    ACCOUNTS_BALANCE_SPACE, ACCOUNT_COLLATERALIZABLE_ALLOWANCE_DISCRIMINATOR, ACCOUNT_COLLATERALIZABLE_ALLOWANCE_SPACE,
};
use crate::actions::{actions_view, ActionView, TokenTransfer, VaultAction};
use crate::collateral::{modified_allowance, modify_allowance_amount};
use crate::errors::CollateralVaultError;
use crate::pubkey::{first_index, is_first_index, lemma_first_index_absent, lemma_first_index_is, Pubkey};
use crate::registry::{
    apply_cumulative_change, contains_key, cumulative_after, cumulative_error, plan_cumulative_change, signed_change,
    token_enabled_error,
};
use crate::solana::{
    associated_token_lookup, associated_token_seeds, find_program_address, get_associated_token_address,
    mint_data_error, program_address, unpack_mint_decimals, ASSOCIATED_TOKEN_PROGRAM_ID, TOKEN_PROGRAM_ID,
};

verus! {

/// The first seed of every balance account's address: the bytes of "account_balance_pda".
pub const ACCOUNT_BALANCE_SEED: [u8; 19] = [
    97, 99, 99, 111, 117, 110, 116, 95, 98, 97, 108, 97, 110, 99, 101, 95, 112, 100, 97,
];

/// An account handed to an instruction beside its named accounts.
pub struct AccountState {
    pub key: Pubkey,
    /// The program that owns the account.
    pub owner: Pubkey,
    pub lamports: u64,
    pub data: Vec<u8>,
}

/// An `AccountState` with its keys and data as sequences of bytes.
pub struct AccountView {
    pub key: Seq<u8>,
    pub owner: Seq<u8>,
    pub lamports: u64,
    pub data: Seq<u8>,
}

impl View for AccountState {
    type V = AccountView;

    open spec fn view(&self) -> AccountView {
        AccountView { key: self.key@, owner: self.owner@, lamports: self.lamports, data: self.data@ }
    }
}

/// The accounts of the instructions by which an account deposits collateral
/// and approves a collateralizable contract.
pub struct DepositAndApprove {
    /// The vault program's own address.
    pub program_id: Pubkey,
    /// The account that deposits, pays and signs.
    pub caller: Pubkey,
    pub tokens_registry: TokenRegistry,
    pub collateralizable_contracts: CollateralizableContracts,
    /// The authority of the vault's token accounts.
    pub bank_token_vault: Pubkey,
    /// The lamports that keep a new balance account rent exempt.
    pub balance_account_rent: u64,
    /// The lamports that keep a new allowance account rent exempt.
    pub allowance_account_rent: u64,
    /// The balance and allowance accounts, the token mints and the token
    /// accounts the instruction works with.
    pub remaining_accounts: Vec<AccountState>,
    /// The work the instruction hands to other programs, in order.
    pub actions: Vec<VaultAction>,
}

/// What a deposit or an approval changes: the registry entries, the remaining
/// accounts and the work handed on.
pub struct DepositView {
    pub tokens: Seq<(Pubkey, CollateralToken)>,
    pub accounts: Seq<AccountView>,
    pub actions: Seq<ActionView>,
}

impl DepositAndApprove {
    /// The part of the accounts that deposits and approvals change.
    pub open spec fn state(&self) -> DepositView {
        DepositView {
            tokens: self.tokens_registry.collateral_tokens@,
            accounts: self.remaining_accounts@.map_values(|a: AccountState| a@),
            actions: actions_view(self.actions@),
        }
    }

    /// The parts that deposits and approvals leave as they are.
    pub open spec fn same_setting(&self, other: DepositAndApprove) -> bool {
        &&& self.program_id == other.program_id
        &&& self.caller == other.caller
        &&& self.tokens_registry.token_registry_bump == other.tokens_registry.token_registry_bump
        &&& self.tokens_registry.governance == other.tokens_registry.governance
        &&& self.collateralizable_contracts == other.collateralizable_contracts
        &&& self.bank_token_vault == other.bank_token_vault
        &&& self.balance_account_rent == other.balance_account_rent
        &&& self.allowance_account_rent == other.allowance_account_rent
    }
}

/// The keys of the accounts, in order.
pub open spec fn account_keys(accounts: Seq<AccountView>) -> Seq<Seq<u8>> {
    accounts.map_values(|a: AccountView| a.key)
}

/// `n` zero bytes.
pub open spec fn zeros(n: nat) -> Seq<u8> {
    Seq::new(n, |i: int| 0u8)
}

/// The system program's address: 32 zero bytes.
pub open spec fn system_program_id() -> Seq<u8> {
    zeros(32)
}

/// An account with no data or no lamports has yet to be created.
pub open spec fn needs_creation(account: AccountView) -> bool {
    account.data.len() == 0 || account.lamports == 0
}

/// The data of a new balance account: nothing available, nothing reserved.
pub open spec fn empty_balance_data() -> Seq<u8> {
    ACCOUNTS_BALANCE_DISCRIMINATOR@ + spec_u64_to_le_bytes(0) + spec_u64_to_le_bytes(0) + zeros(8)
}

/// The data of a new allowance account: nothing allowed.
pub open spec fn empty_allowance_data() -> Seq<u8> {
    ACCOUNT_COLLATERALIZABLE_ALLOWANCE_DISCRIMINATOR@ + spec_u64_to_le_bytes(0) + zeros(8)
}

/// The account once it exists: an account yet to be created becomes an account
/// of the vault program holding `rent` lamports and `new_data`.
pub open spec fn prepared_account(account: AccountView, program_id: Seq<u8>, rent: u64, new_data: Seq<u8>) -> AccountView {
    if needs_creation(account) {
        AccountView { key: account.key, owner: program_id, lamports: rent, data: new_data }
    } else {
        account
    }
}

/// Why `account` cannot be read as an account of the vault program of the type
/// with `discriminator` and `space` bytes of fields, if it cannot.
pub open spec fn account_read_error(account: AccountView, program_id: Seq<u8>, discriminator: Seq<u8>, space: nat) -> Option<
    CollateralVaultError,
> {
    if account.owner == system_program_id() && account.lamports == 0 {
        Some(CollateralVaultError::AccountNotInitialized)
    } else if account.owner != program_id {
        Some(CollateralVaultError::AccountOwnedByWrongProgram)
    } else {
        account_data_error(account.data, discriminator, space)
    }
}

/// The seeds of the address of `user`'s balance account for `token`.
pub open spec fn balance_seeds(user: Seq<u8>, token: Seq<u8>) -> Seq<Seq<u8>> {
    seq![ACCOUNT_BALANCE_SEED@, user, token]
}

/// The seeds of the address of what `account` allows `contract` to use of `token`.
pub open spec fn allowance_seeds(account: Seq<u8>, contract: Seq<u8>, token: Seq<u8>) -> Seq<Seq<u8>> {
    seq![account, contract, token]
}

/// Where the account at the program derived address for `seeds` stands among
/// `accounts`, with that address and its bump seed; `not_found` when it is not there.
pub open spec fn pda_lookup(
    program_id: Seq<u8>,
    accounts: Seq<AccountView>,
    seeds: Seq<Seq<u8>>,
    not_found: CollateralVaultError,
) -> Result<(int, Seq<u8>, u8), CollateralVaultError> {
    match program_address(seeds, program_id) {
        None => Err(CollateralVaultError::NoViableProgramAddress),
        Some((address, bump)) => {
            let i = first_index(account_keys(accounts), address);
            if i == -1 {
                Err(not_found)
            } else {
                Ok((i, address, bump))
            }
        },
    }
}

/// The creation of the account at `address`, paid by the caller and signed with
/// `seeds` and the bump seed.
pub open spec fn create_action(
    ctx: DepositAndApprove,
    address: Seq<u8>,
    rent: u64,
    space: u64,
    seeds: Seq<Seq<u8>>,
    bump: u8,
) -> ActionView {
    ActionView::CreateAccount {
        payer: ctx.caller@,
        new_account: address,
        lamports: rent,
        space,
        owner: ctx.program_id@,
        seeds: seeds.push(seq![bump]),
    }
}

/// The creation of `account` if it is yet to be created, and nothing otherwise.
pub open spec fn creation_if_needed(
    ctx: DepositAndApprove,
    account: AccountView,
    rent: u64,
    space: u64,
    seeds: Seq<Seq<u8>>,
    bump: u8,
) -> Seq<ActionView> {
    if needs_creation(account) {
        seq![create_action(ctx, account.key, rent, space, seeds, bump)]
    } else {
        seq![]
    }
}

/// The end of a deposit of `amount` of `token`, once the balance account is
/// written (`accounts`, after `creation`) and the mint read (`decimals`): the
/// vault's and the source's associated token accounts for the token must be
/// among the accounts; the vault's is created if need be, and `amount` moves to
/// it from the source's.
pub open spec fn deposit_transfer(
    ctx: DepositAndApprove,
    s: DepositView,
    accounts: Seq<AccountView>,
    creation: Seq<ActionView>,
    source: Pubkey,
    token: Pubkey,
    amount: u64,
    decimals: u8,
) -> Result<DepositView, CollateralVaultError> {
    match associated_token_lookup(ctx.bank_token_vault@, token@) {
        None => Err(CollateralVaultError::NoViableProgramAddress),
        Some((vault_ata, _)) => if first_index(account_keys(accounts), vault_ata) == -1 {
            Err(CollateralVaultError::MismatchedTokenVaults)
        } else {
            match associated_token_lookup(source@, token@) {
                None => Err(CollateralVaultError::NoViableProgramAddress),
                Some((source_ata, _)) => if first_index(account_keys(accounts), source_ata) == -1 {
                    Err(CollateralVaultError::MismatchedTokenAccounts)
                } else {
                    Ok(
                        DepositView {
                            tokens: cumulative_after(s.tokens, token@, amount as int),
                            accounts,
                            actions: s.actions + creation + seq![
                                ActionView::CreateAssociatedTokenAccount {
                                    payer: ctx.caller@,
                                    associated_token: vault_ata,
                                    authority: ctx.bank_token_vault@,
                                    mint: token@,
                                },
                                ActionView::TransferChecked {
                                    from: source_ata,
                                    to: vault_ata,
                                    mint: token@,
                                    authority: ctx.caller@,
                                    amount,
                                    decimals,
                                },
                            ],
                        },
                    )
                },
            }
        },
    }
}

/// The outcome of depositing `amount` of `token` for `account`, paid from the
/// token account of `source`, when the changing part of the accounts is `s`.
///
/// The token's cumulative balance grows by `amount`; the balance account at the
/// program derived address of the account and token is created if need be, and
/// its available collateral grows by `amount`; the vault's token account is
/// created if need be; and `amount` moves from the source's token account to the vault's.
pub open spec fn deposit_step(
    ctx: DepositAndApprove,
    s: DepositView,
    source: Pubkey,
    account: Pubkey,
    token: Pubkey,
    amount: u64,
) -> Result<DepositView, CollateralVaultError> {
    match cumulative_error(s.tokens, token@, amount as int) {
        Some(e) => Err(e),
        None => match pda_lookup(
            ctx.program_id@,
            s.accounts,
            balance_seeds(account@, token@),
            CollateralVaultError::PDAAccountNotFound,
        ) {
            Err(e) => Err(e),
            Ok((i, address, bump)) => {
                let acc = prepared_account(s.accounts[i], ctx.program_id@, ctx.balance_account_rent, empty_balance_data());
                match account_read_error(
                    acc,
                    ctx.program_id@,
                    ACCOUNTS_BALANCE_DISCRIMINATOR@,
                    ACCOUNTS_BALANCE_SPACE as nat,
                ) {
                    Some(e) => Err(e),
                    None => {
                        let available = spec_u64_from_le_bytes(acc.data.subrange(8, 16));
                        if available + amount > u64::MAX {
                            Err(CollateralVaultError::TokenOverflowError)
                        } else {
                            let written = AccountView {
                                key: acc.key,
                                owner: acc.owner,
                                lamports: acc.lamports,
                                data: ACCOUNTS_BALANCE_DISCRIMINATOR@ + spec_u64_to_le_bytes(
                                    (available + amount) as u64,
                                ) + acc.data.skip(16),
                            };
                            let accounts = s.accounts.update(i, written);
                            let m = first_index(account_keys(accounts), token@);
                            if m == -1 {
                                Err(CollateralVaultError::TokenMintNotFound)
                            } else {
                                match mint_data_error(accounts[m].data) {
                                    Some(e) => Err(e),
                                    None => deposit_transfer(
                                        ctx,
                                        s,
                                        accounts,
                                        creation_if_needed(
                                            ctx,
                                            s.accounts[i],
                                            ctx.balance_account_rent,
                                            (8 + ACCOUNTS_BALANCE_SPACE) as u64,
                                            balance_seeds(account@, token@),
                                            bump,
                                        ),
                                        source,
                                        token,
                                        amount,
                                        accounts[m].data[44],
                                    ),
                                }
                            }
                        }
                    },
                }
            },
        },
    }
}

/// The outcome of changing what `account` allows `contract` to use of `token` by
/// `by_amount` (saturating), when the changing part of the accounts is `s`.
/// The allowance account is created if need be, and written only if the
/// allowance changes.
pub open spec fn allowance_step(
    ctx: DepositAndApprove,
    s: DepositView,
    account: Pubkey,
    contract: Pubkey,
    token: Pubkey,
    by_amount: i64,
) -> Result<DepositView, CollateralVaultError> {
    match pda_lookup(
        ctx.program_id@,
        s.accounts,
        allowance_seeds(account@, contract@, token@),
        CollateralVaultError::MismatchedAllowancePDA,
    ) {
        Err(e) => Err(e),
        Ok((i, address, bump)) => {
            let acc = prepared_account(s.accounts[i], ctx.program_id@, ctx.allowance_account_rent, empty_allowance_data());
            match account_read_error(
                acc,
                ctx.program_id@,
                ACCOUNT_COLLATERALIZABLE_ALLOWANCE_DISCRIMINATOR@,
                ACCOUNT_COLLATERALIZABLE_ALLOWANCE_SPACE as nat,
            ) {
                Some(e) => Err(e),
                None => {
                    let current = spec_u64_from_le_bytes(acc.data.subrange(8, 16));
                    let new_allowance = modified_allowance(current, by_amount);
                    let data = if new_allowance != current {
                        ACCOUNT_COLLATERALIZABLE_ALLOWANCE_DISCRIMINATOR@ + spec_u64_to_le_bytes(new_allowance)
                            + acc.data.skip(16)
                    } else {
                        acc.data
                    };
                    Ok(
                        DepositView {
                            tokens: s.tokens,
                            accounts: s.accounts.update(
                                i,
                                AccountView { key: acc.key, owner: acc.owner, lamports: acc.lamports, data },
                            ),
                            actions: s.actions + creation_if_needed(
                                ctx,
                                s.accounts[i],
                                ctx.allowance_account_rent,
                                (8 + ACCOUNT_COLLATERALIZABLE_ALLOWANCE_SPACE) as u64,
                                allowance_seeds(account@, contract@, token@),
                                bump,
                            ),
                        },
                    )
                },
            }
        },
    }
}

/// The outcome of depositing `amounts[i]` of `tokens[i]` for `account`, in order,
/// from the first refusal on refused.
pub open spec fn deposits(
    ctx: DepositAndApprove,
    s: DepositView,
    source: Pubkey,
    account: Pubkey,
    tokens: Seq<Pubkey>,
    amounts: Seq<u64>,
) -> Result<DepositView, CollateralVaultError>
    decreases tokens.len(),
{
    if tokens.len() == 0 || amounts.len() == 0 {
        Ok(s)
    } else {
        match deposits(ctx, s, source, account, tokens.drop_last(), amounts.drop_last()) {
            Err(e) => Err(e),
            Ok(s1) => deposit_step(ctx, s1, source, account, tokens.last(), amounts.last()),
        }
    }
}

/// The changing part of the accounts once the deposits have run: after every
/// deposit, or, where one is refused, after the deposits before it.
pub open spec fn deposits_reached(
    ctx: DepositAndApprove,
    s: DepositView,
    source: Pubkey,
    account: Pubkey,
    tokens: Seq<Pubkey>,
    amounts: Seq<u64>,
) -> DepositView
    decreases tokens.len(),
{
    if tokens.len() == 0 || amounts.len() == 0 {
        s
    } else {
        match deposits(ctx, s, source, account, tokens.drop_last(), amounts.drop_last()) {
            Err(_) => deposits_reached(ctx, s, source, account, tokens.drop_last(), amounts.drop_last()),
            Ok(s1) => match deposit_step(ctx, s1, source, account, tokens.last(), amounts.last()) {
                Ok(s2) => s2,
                Err(_) => s1,
            },
        }
    }
}

/// A deposit amount as the signed change of an allowance: its two's-complement
/// reading as an `i64`, so that amounts above the largest `i64` lower the allowance.
pub open spec fn amount_as_allowance_change(amount: u64) -> i64 {
    if amount <= i64::MAX {
        amount as i64
    } else {
        (amount - 18_446_744_073_709_551_616int) as i64
    }
}

/// The outcome of changing, in order, what `account` allows `contract` to use of
/// each `tokens[i]` by `amounts[i]`, from the first refusal on refused.
pub open spec fn approvals(
    ctx: DepositAndApprove,
    s: DepositView,
    account: Pubkey,
    contract: Pubkey,
    tokens: Seq<Pubkey>,
    amounts: Seq<u64>,
) -> Result<DepositView, CollateralVaultError>
    decreases amounts.len(),
{
    if amounts.len() == 0 {
        Ok(s)
    } else {
        match approvals(ctx, s, account, contract, tokens, amounts.drop_last()) {
            Err(e) => Err(e),
            Ok(s1) => allowance_step(
                ctx,
                s1,
                account,
                contract,
                tokens[amounts.len() - 1],
                amount_as_allowance_change(amounts.last()),
            ),
        }
    }
}

/// The changing part of the accounts once the approvals have run: after every
/// approval, or, where one is refused, after the approvals before it.
pub open spec fn approvals_reached(
    ctx: DepositAndApprove,
    s: DepositView,
    account: Pubkey,
    contract: Pubkey,
    tokens: Seq<Pubkey>,
    amounts: Seq<u64>,
) -> DepositView
    decreases amounts.len(),
{
    if amounts.len() == 0 {
        s
    } else {
        match approvals(ctx, s, account, contract, tokens, amounts.drop_last()) {
            Err(_) => approvals_reached(ctx, s, account, contract, tokens, amounts.drop_last()),
            Ok(s1) => match allowance_step(
                ctx,
                s1,
                account,
                contract,
                tokens[amounts.len() - 1],
                amount_as_allowance_change(amounts.last()),
            ) {
                Ok(s2) => s2,
                Err(_) => s1,
            },
        }
    }
}

/// The first refusal among `tokens` as collateral, in order.
pub open spec fn tokens_enabled_error(registry: Seq<(Pubkey, CollateralToken)>, tokens: Seq<Pubkey>) -> Option<
    CollateralVaultError,
>
    decreases tokens.len(),
{
    if tokens.len() == 0 {
        None
    } else {
        match tokens_enabled_error(registry, tokens.drop_last()) {
            Some(e) => Some(e),
            None => token_enabled_error(registry, tokens.last()@),
        }
    }
}

// ---------------------------------------------------------------------------
// Helpers on bytes and accounts
// ---------------------------------------------------------------------------

fn slice_to_vec(s: &[u8]) -> (v: Vec<u8>)
    ensures
        v@ == s@,
{
    let mut v: Vec<u8> = Vec::new();
    let mut i: usize = 0;
    while i < s.len()
        invariant
            0 <= i <= s@.len(),
            v@ == s@.take(i as int),
        decreases s@.len() - i,
    {
        v.push(s[i]);
        i = i + 1;
        assert(v@ =~= s@.take(i as int));
    }
    assert(s@.take(s@.len() as int) =~= s@);
    v
}

proof fn lemma_byte_vec_deep_view(v: Vec<u8>)
    ensures
        v.deep_view() == v@,
{
    assert(v.deep_view() =~= v@);
}

/// The seeds `a`, `b`, `c` as a list.
fn three_seeds(a: Vec<u8>, b: Vec<u8>, c: Vec<u8>) -> (seeds: Vec<Vec<u8>>)
    ensures
        seeds.deep_view() == seq![a@, b@, c@],
{
    let ghost (av, bv, cv) = (a@, b@, c@);
    proof {
        lemma_byte_vec_deep_view(a);
        lemma_byte_vec_deep_view(b);
        lemma_byte_vec_deep_view(c);
    }
    let mut seeds: Vec<Vec<u8>> = Vec::new();
    seeds.push(a);
    seeds.push(b);
    seeds.push(c);
    assert(seeds.deep_view() =~= seq![av, bv, cv]);
    seeds
}

/// The seeds with the bump seed added last.
fn seeds_with_bump(seeds: Vec<Vec<u8>>, bump: u8) -> (r: Vec<Vec<u8>>)
    ensures
        r.deep_view() == seeds.deep_view().push(seq![bump]),
{
    let mut r = seeds;
    let mut b: Vec<u8> = Vec::new();
    b.push(bump);
    proof {
        lemma_byte_vec_deep_view(b);
    }
    let ghost before = r.deep_view();
    r.push(b);
    assert(r.deep_view() =~= before.push(seq![bump]));
    r
}

/// The position of the first account whose key is `key`, if any.
pub fn find_account(accounts: &Vec<AccountState>, key: &Pubkey) -> (r: Option<usize>)
    ensures
        match r {
            Some(i) => i == first_index(account_keys(accounts@.map_values(|a: AccountState| a@)), key@),
            None => first_index(account_keys(accounts@.map_values(|a: AccountState| a@)), key@) == -1,
        },
{
    let ghost keys = account_keys(accounts@.map_values(|a: AccountState| a@));
    let mut i: usize = 0;
    while i < accounts.len()
        invariant
            0 <= i <= accounts@.len(),
            keys == account_keys(accounts@.map_values(|a: AccountState| a@)),
            forall|j: int| 0 <= j < i ==> keys[j] != key@,
        decreases accounts@.len() - i,
    {
        if accounts[i].key.key_eq(key) {
            proof {
                lemma_first_index_is(keys, key@, i as int);
            }
            return Some(i);
        }
        i = i + 1;
    }
    proof {
        lemma_first_index_absent(keys, key@);
    }
    None
}

/// The associated token account of `wallet` for `mint`; `None` when no bump seed
/// gives one, where the outside derivation would panic.
fn associated_token_account(wallet: &Pubkey, mint: &Pubkey) -> (r: Option<Pubkey>)
    ensures
        match associated_token_lookup(wallet@, mint@) {
            Some((address, _)) => r matches Some(k) && k@ == address,
            None => r is None,
        },
{
    let token_program = Pubkey { bytes: TOKEN_PROGRAM_ID };
    let seeds = three_seeds(wallet.to_vec(), token_program.to_vec(), mint.to_vec());
    let associated_token_program = Pubkey { bytes: ASSOCIATED_TOKEN_PROGRAM_ID };
    match find_program_address(&seeds, &associated_token_program) {
        Some(_) => Some(get_associated_token_address(wallet, mint)),
        None => None,
    }
}

/// Checks that `account` is initialized and owned by the vault program.
fn check_account_owner(account: &AccountState, program_id: &Pubkey) -> (r: Result<(), CollateralVaultError>)
    ensures
        account@.owner == system_program_id() && account.lamports == 0 ==> r == Err::<(), CollateralVaultError>(
            CollateralVaultError::AccountNotInitialized,
        ),
        !(account@.owner == system_program_id() && account.lamports == 0) && account@.owner != program_id@ ==> r
            == Err::<(), CollateralVaultError>(CollateralVaultError::AccountOwnedByWrongProgram),
        !(account@.owner == system_program_id() && account.lamports == 0) && account@.owner == program_id@ ==> r is Ok,
{
    let system = Pubkey { bytes: [0u8; 32] };
    assert(system@ =~= system_program_id());
    if account.owner.key_eq(&system) && account.lamports == 0 {
        return Err(CollateralVaultError::AccountNotInitialized);
    }
    if !account.owner.key_eq(program_id) {
        return Err(CollateralVaultError::AccountOwnedByWrongProgram);
    }
    Ok(())
}

/// The account as it is once it exists: an account yet to be created becomes an
/// account of the vault program holding `rent` lamports and `new_data`.
fn prepare_account(account: &AccountState, program_id: &Pubkey, rent: u64, new_data: Vec<u8>) -> (r: AccountState)
    ensures
        r@ == prepared_account(account@, program_id@, rent, new_data@),
{
    if account.data.len() == 0 || account.lamports == 0 {
        AccountState { key: account.key, owner: *program_id, lamports: rent, data: new_data }
    } else {
        let n = account.data.len();
        let data = take_bytes(&account.data, 0, n);
        assert(data@ =~= account.data@);
        AccountState { key: account.key, owner: account.owner, lamports: account.lamports, data }
    }
}

/// The data of `account` with the 8 bytes after the discriminator replaced by `value`.
fn with_amount_written(discriminator: &[u8; 8], value: u64, data: &Vec<u8>) -> (r: Vec<u8>)
    requires
        data@.len() >= 16,
    ensures
        r@ == discriminator@ + spec_u64_to_le_bytes(value) + data@.skip(16),
{
    let mut r = slice_to_vec(discriminator.as_slice());
    append_bytes(&mut r, &vstd::bytes::u64_to_le_bytes(value));
    let n = data.len();
    append_bytes(&mut r, &take_bytes(data, 16, n - 16));
    assert(data@.subrange(16, n as int) =~= data@.skip(16));
    r
}

// ---------------------------------------------------------------------------
// The balance and allowance accounts
// ---------------------------------------------------------------------------

/// Finds the balance account of `user` for `token_address` among the remaining
/// accounts and reads it, as it is once it exists: an account yet to be created
/// is taken as a new, empty balance account, and its creation is returned.
/// Returns the balance, the account's position, the account and its creation.
pub fn create_or_get_account_balance_pda(ctx: &DepositAndApprove, user: Pubkey, token_address: Pubkey) -> (r: Result<
    (AccountsBalance, usize, AccountState, Option<VaultAction>),
    CollateralVaultError,
>)
    ensures
        match pda_lookup(
            ctx.program_id@,
            ctx.state().accounts,
            balance_seeds(user@, token_address@),
            CollateralVaultError::PDAAccountNotFound,
        ) {
            Err(e) => r == Err::<(AccountsBalance, usize, AccountState, Option<VaultAction>), CollateralVaultError>(e),
            Ok((i, address, bump)) => {
                let acc = prepared_account(
                    ctx.state().accounts[i],
                    ctx.program_id@,
                    ctx.balance_account_rent,
                    empty_balance_data(),
                );
                match account_read_error(
                    acc,
                    ctx.program_id@,
                    ACCOUNTS_BALANCE_DISCRIMINATOR@,
                    ACCOUNTS_BALANCE_SPACE as nat,
                ) {
                    Some(e) => r == Err::<
                        (AccountsBalance, usize, AccountState, Option<VaultAction>),
                        CollateralVaultError,
                    >(e),
                    None => r matches Ok((balance, index, account, creation)) && index == i && account@ == acc
                        && accounts_balance_read(acc.data, balance) && match creation {
                        Some(c) => needs_creation(ctx.state().accounts[i]) && c@ == create_action(
                            *ctx,
                            address,
                            ctx.balance_account_rent,
                            (8 + ACCOUNTS_BALANCE_SPACE) as u64,
                            balance_seeds(user@, token_address@),
                            bump,
                        ),
                        None => !needs_creation(ctx.state().accounts[i]),
                    },
                }
            },
        },
{
    let seeds = three_seeds(slice_to_vec(ACCOUNT_BALANCE_SEED.as_slice()), user.to_vec(), token_address.to_vec());
    let (account_balance_pda, account_pda_bump) = match find_program_address(&seeds, &ctx.program_id) {
        Some(found) => found,
        None => return Err(CollateralVaultError::NoViableProgramAddress),
    };
    let index = match find_account(&ctx.remaining_accounts, &account_balance_pda) {
        Some(i) => i,
        None => return Err(CollateralVaultError::PDAAccountNotFound),
    };
    let pda_account_balance = &ctx.remaining_accounts[index];
    proof {
        lemma_first_index_absent(account_keys(ctx.state().accounts), account_balance_pda@);
    }
    let freshly_created = pda_account_balance.data.len() == 0 || pda_account_balance.lamports == 0;
    let empty = AccountsBalance::new_empty();
    let new_data = empty.to_account_data();
    assert(new_data@ =~= empty_balance_data());
    let prepared = prepare_account(pda_account_balance, &ctx.program_id, ctx.balance_account_rent, new_data);
    let creation = if freshly_created {
        Some(
            VaultAction::CreateAccount {
                payer: ctx.caller,
                new_account: account_balance_pda,
                lamports: ctx.balance_account_rent,
                space: (8 + ACCOUNTS_BALANCE_SPACE) as u64,
                owner: ctx.program_id,
                seeds: seeds_with_bump(seeds, account_pda_bump),
            },
        )
    } else {
        None
    };
    match check_account_owner(&prepared, &ctx.program_id) {
        Ok(()) => {},
        Err(e) => return Err(e),
    }
    let balance = match AccountsBalance::from_account_data(&prepared.data) {
        Ok(b) => b,
        Err(e) => return Err(e),
    };
    Ok((balance, index, prepared, creation))
}

/// Finds the account that holds what `account_address` allows
/// `collateralizable_contract_address` to use of `token_address` and reads it, as
/// it is once it exists: an account yet to be created is taken as a new, empty
/// allowance, and its creation is returned. Returns the allowance, the account's
/// position, the account and its creation.
pub fn account_collateralizable_token_allowance(
    ctx: &DepositAndApprove,
    account_address: Pubkey,
    collateralizable_contract_address: Pubkey,
    token_address: Pubkey,
) -> (r: Result<(AccountCollateralizableAllowance, usize, AccountState, Option<VaultAction>), CollateralVaultError>)
    ensures
        match pda_lookup(
            ctx.program_id@,
            ctx.state().accounts,
            allowance_seeds(account_address@, collateralizable_contract_address@, token_address@),
            CollateralVaultError::MismatchedAllowancePDA,
        ) {
            Err(e) => r == Err::<
                (AccountCollateralizableAllowance, usize, AccountState, Option<VaultAction>),
                CollateralVaultError,
            >(e),
            Ok((i, address, bump)) => {
                let acc = prepared_account(
                    ctx.state().accounts[i],
                    ctx.program_id@,
                    ctx.allowance_account_rent,
                    empty_allowance_data(),
                );
                match account_read_error(
                    acc,
                    ctx.program_id@,
                    ACCOUNT_COLLATERALIZABLE_ALLOWANCE_DISCRIMINATOR@,
                    ACCOUNT_COLLATERALIZABLE_ALLOWANCE_SPACE as nat,
                ) {
                    Some(e) => r == Err::<
                        (AccountCollateralizableAllowance, usize, AccountState, Option<VaultAction>),
                        CollateralVaultError,
                    >(e),
                    None => r matches Ok((allowance, index, account, creation)) && index == i && account@ == acc
                        && allowance_read(acc.data, allowance) && match creation {
                        Some(c) => needs_creation(ctx.state().accounts[i]) && c@ == create_action(
                            *ctx,
                            address,
                            ctx.allowance_account_rent,
                            (8 + ACCOUNT_COLLATERALIZABLE_ALLOWANCE_SPACE) as u64,
                            allowance_seeds(account_address@, collateralizable_contract_address@, token_address@),
                            bump,
                        ),
                        None => !needs_creation(ctx.state().accounts[i]),
                    },
                }
            },
        },
{
    let seeds = three_seeds(account_address.to_vec(), collateralizable_contract_address.to_vec(), token_address.to_vec());
    let (allowance_pda, allowance_bump) = match find_program_address(&seeds, &ctx.program_id) {
        Some(found) => found,
        None => return Err(CollateralVaultError::NoViableProgramAddress),
    };
    let index = match find_account(&ctx.remaining_accounts, &allowance_pda) {
        Some(i) => i,
        None => return Err(CollateralVaultError::MismatchedAllowancePDA),
    };
    let pda_account = &ctx.remaining_accounts[index];
    proof {
        lemma_first_index_absent(account_keys(ctx.state().accounts), allowance_pda@);
    }
    let freshly_created = pda_account.data.len() == 0 || pda_account.lamports == 0;
    let empty = AccountCollateralizableAllowance::new_empty();
    let new_data = empty.to_account_data();
    assert(new_data@ =~= empty_allowance_data());
    let prepared = prepare_account(pda_account, &ctx.program_id, ctx.allowance_account_rent, new_data);
    let creation = if freshly_created {
        Some(
            VaultAction::CreateAccount {
                payer: ctx.caller,
                new_account: allowance_pda,
                lamports: ctx.allowance_account_rent,
                space: (8 + ACCOUNT_COLLATERALIZABLE_ALLOWANCE_SPACE) as u64,
                owner: ctx.program_id,
                seeds: seeds_with_bump(seeds, allowance_bump),
            },
        )
    } else {
        None
    };
    match check_account_owner(&prepared, &ctx.program_id) {
        Ok(()) => {},
        Err(e) => return Err(e),
    }
    let allowance = match AccountCollateralizableAllowance::from_account_data(&prepared.data) {
        Ok(a) => a,
        Err(e) => return Err(e),
    };
    Ok((allowance, index, prepared, creation))
}


// ---------------------------------------------------------------------------
// Deposits and approvals
// ---------------------------------------------------------------------------

proof fn lemma_keys_after_update(accounts: Seq<AccountView>, i: int, written: AccountView)
    requires
        0 <= i < accounts.len(),
        written.key == accounts[i].key,
    ensures
        account_keys(accounts.update(i, written)) == account_keys(accounts),
{
    assert(account_keys(accounts.update(i, written)) =~= account_keys(accounts));
}

/// Deposits `amount` of `token_address` for `account_address`, paid from the token
/// account of `transfer_source` (see `deposit_step`).
pub fn deposit(
    ctx: &mut DepositAndApprove,
    transfer_source: Pubkey,
    account_address: Pubkey,
    token_address: Pubkey,
    amount: u64,
) -> (r: Result<(), CollateralVaultError>)
    ensures
        final(ctx).same_setting(*old(ctx)),
        match deposit_step(*old(ctx), old(ctx).state(), transfer_source, account_address, token_address, amount) {
            Ok(s) => r is Ok && final(ctx).state() == s,
            Err(e) => r == Err::<(), CollateralVaultError>(e) && final(ctx).state() == old(ctx).state(),
        },
{
    let ghost s0 = ctx.state();
    let plan = match plan_cumulative_change(&ctx.tokens_registry.collateral_tokens, &token_address, true, amount) {
        Ok(plan) => plan,
        Err(e) => return Err(e),
    };
    let (account_balance, index, prepared, creation) = match create_or_get_account_balance_pda(
        ctx,
        account_address,
        token_address,
    ) {
        Ok(found) => found,
        Err(e) => return Err(e),
    };
    if account_balance.collateral_balance.available > u64::MAX - amount {
        return Err(CollateralVaultError::TokenOverflowError);
    }
    let new_available = account_balance.collateral_balance.available + amount;
    let new_data = with_amount_written(&ACCOUNTS_BALANCE_DISCRIMINATOR, new_available, &prepared.data);
    let written = AccountState { key: prepared.key, owner: prepared.owner, lamports: prepared.lamports, data: new_data };
    let ghost accounts1 = s0.accounts.update(index as int, written@);
    proof {
        lemma_keys_after_update(s0.accounts, index as int, written@);
    }
    let mint_index = match find_account(&ctx.remaining_accounts, &token_address) {
        Some(m) => m,
        None => return Err(CollateralVaultError::TokenMintNotFound),
    };
    let token_decimals = if mint_index == index {
        unpack_mint_decimals(&written.data)
    } else {
        unpack_mint_decimals(&ctx.remaining_accounts[mint_index].data)
    };
    let token_decimals = match token_decimals {
        Ok(d) => d,
        Err(e) => return Err(e),
    };
    let programs_token_vault_ata = match associated_token_account(&ctx.bank_token_vault, &token_address) {
        Some(ata) => ata,
        None => return Err(CollateralVaultError::NoViableProgramAddress),
    };
    if find_account(&ctx.remaining_accounts, &programs_token_vault_ata).is_none() {
        return Err(CollateralVaultError::MismatchedTokenVaults);
    }
    let callers_token_ata = match associated_token_account(&transfer_source, &token_address) {
        Some(ata) => ata,
        None => return Err(CollateralVaultError::NoViableProgramAddress),
    };
    if find_account(&ctx.remaining_accounts, &callers_token_ata).is_none() {
        return Err(CollateralVaultError::MismatchedTokenAccounts);
    }
    // Every check passed: make the changes.
    apply_cumulative_change(
        &mut ctx.tokens_registry.collateral_tokens,
        plan,
        Ghost(token_address@),
        Ghost(signed_change(true, amount)),
    );
    let ghost before_set = ctx.remaining_accounts@;
    ctx.remaining_accounts.set(index, written);
    assert(ctx.remaining_accounts@.map_values(|a: AccountState| a@) =~= accounts1);
    let ghost actions0 = ctx.actions@;
    match creation {
        Some(c) => ctx.actions.push(c),
        None => {},
    }
    ctx.actions.push(
        VaultAction::CreateAssociatedTokenAccount {
            payer: ctx.caller,
            associated_token: programs_token_vault_ata,
            authority: ctx.bank_token_vault,
            mint: token_address,
        },
    );
    ctx.actions.push(
        VaultAction::TransferChecked(
            TokenTransfer {
                from: callers_token_ata,
                to: programs_token_vault_ata,
                mint: token_address,
                authority: ctx.caller,
                amount,
                decimals: token_decimals,
            },
        ),
    );
    proof {
        let i = index as int;
        let expected = s0.actions + creation_if_needed(
            *old(ctx),
            s0.accounts[i],
            ctx.balance_account_rent,
            (8 + ACCOUNTS_BALANCE_SPACE) as u64,
            balance_seeds(account_address@, token_address@),
            match program_address(balance_seeds(account_address@, token_address@), ctx.program_id@) {
                Some((a, b)) => b,
                None => 0u8,
            },
        ) + seq![
            ActionView::CreateAssociatedTokenAccount {
                payer: ctx.caller@,
                associated_token: programs_token_vault_ata@,
                authority: ctx.bank_token_vault@,
                mint: token_address@,
            },
            ActionView::TransferChecked {
                from: callers_token_ata@,
                to: programs_token_vault_ata@,
                mint: token_address@,
                authority: ctx.caller@,
                amount,
                decimals: token_decimals,
            },
        ];
        assert(actions_view(ctx.actions@) =~= expected);
    }
    Ok(())
}

/// Changes what `account_address` allows `collateralizable_contract_address` to use
/// of `token_address` by `by_amount`, saturating at zero and at the largest `u64`
/// (see `allowance_step`).
pub fn authorized_modify_collateralizable_token_allowance(
    ctx: &mut DepositAndApprove,
    account_address: Pubkey,
    collateralizable_contract_address: Pubkey,
    token_address: Pubkey,
    by_amount: i64,
) -> (r: Result<(), CollateralVaultError>)
    ensures
        final(ctx).same_setting(*old(ctx)),
        match allowance_step(
            *old(ctx),
            old(ctx).state(),
            account_address,
            collateralizable_contract_address,
            token_address,
            by_amount,
        ) {
            Ok(s) => r is Ok && final(ctx).state() == s,
            Err(e) => r == Err::<(), CollateralVaultError>(e) && final(ctx).state() == old(ctx).state(),
        },
{
    let ghost s0 = ctx.state();
    let (allowance, index, prepared, creation) = match account_collateralizable_token_allowance(
        ctx,
        account_address,
        collateralizable_contract_address,
        token_address,
    ) {
        Ok(found) => found,
        Err(e) => return Err(e),
    };
    let current_allowance = allowance.current_allowance;
    let new_allowance = modify_allowance_amount(current_allowance, by_amount);
    let data = if new_allowance != current_allowance {
        with_amount_written(&ACCOUNT_COLLATERALIZABLE_ALLOWANCE_DISCRIMINATOR, new_allowance, &prepared.data)
    } else {
        prepared.data
    };
    let written = AccountState { key: prepared.key, owner: prepared.owner, lamports: prepared.lamports, data };
    let ghost accounts1 = s0.accounts.update(index as int, written@);
    ctx.remaining_accounts.set(index, written);
    assert(ctx.remaining_accounts@.map_values(|a: AccountState| a@) =~= accounts1);
    let ghost actions0 = ctx.actions@;
    match creation {
        Some(c) => {
            ctx.actions.push(c);
            assert(actions_view(ctx.actions@) =~= actions_view(actions0).push(c@));
        },
        None => {},
    }
    proof {
        let (i, address, bump) = pda_lookup(
            ctx.program_id@,
            s0.accounts,
            allowance_seeds(account_address@, collateralizable_contract_address@, token_address@),
            CollateralVaultError::MismatchedAllowancePDA,
        )->Ok_0;
        assert(s0.accounts[i].key == address);
        assert(actions_view(ctx.actions@) =~= actions_view(actions0) + creation_if_needed(
            *old(ctx),
            s0.accounts[i],
            ctx.allowance_account_rent,
            (8 + ACCOUNT_COLLATERALIZABLE_ALLOWANCE_SPACE) as u64,
            allowance_seeds(account_address@, collateralizable_contract_address@, token_address@),
            bump,
        ));
    }
    Ok(())
}

/// A refused deposit in a list refuses every longer prefix of the list.
proof fn lemma_deposits_refusal_persists(
    ctx: DepositAndApprove,
    s: DepositView,
    source: Pubkey,
    account: Pubkey,
    tokens: Seq<Pubkey>,
    amounts: Seq<u64>,
    k: int,
    m: int,
    e: CollateralVaultError,
)
    requires
        0 <= k <= m <= tokens.len(),
        tokens.len() == amounts.len(),
        deposits(ctx, s, source, account, tokens.take(k), amounts.take(k)) == Err::<DepositView, CollateralVaultError>(e),
    ensures
        deposits(ctx, s, source, account, tokens.take(m), amounts.take(m)) == Err::<DepositView, CollateralVaultError>(e),
    decreases m - k,
{
    if m > k {
        lemma_deposits_refusal_persists(ctx, s, source, account, tokens, amounts, k, m - 1, e);
        assert(tokens.take(m).drop_last() =~= tokens.take(m - 1));
        assert(amounts.take(m).drop_last() =~= amounts.take(m - 1));
    }
}

/// Where the deposit at position `k` is refused, the deposits reach the state
/// after the first `k` of them, however many follow.
proof fn lemma_deposits_reached_after_refusal(
    ctx: DepositAndApprove,
    s: DepositView,
    source: Pubkey,
    account: Pubkey,
    tokens: Seq<Pubkey>,
    amounts: Seq<u64>,
    k: int,
    m: int,
    reached: DepositView,
)
    requires
        0 <= k < m <= tokens.len(),
        tokens.len() == amounts.len(),
        deposits(ctx, s, source, account, tokens.take(k), amounts.take(k)) == Ok::<DepositView, CollateralVaultError>(
            reached,
        ),
        deposit_step(ctx, reached, source, account, tokens[k], amounts[k]) is Err,
    ensures
        deposits_reached(ctx, s, source, account, tokens.take(m), amounts.take(m)) == reached,
    decreases m - k,
{
    assert(tokens.take(m).drop_last() =~= tokens.take(m - 1));
    assert(amounts.take(m).drop_last() =~= amounts.take(m - 1));
    if m > k + 1 {
        lemma_deposits_reached_after_refusal(ctx, s, source, account, tokens, amounts, k, m - 1, reached);
        assert(tokens.take(k + 1).drop_last() =~= tokens.take(k));
        assert(amounts.take(k + 1).drop_last() =~= amounts.take(k));
        let e = deposit_step(ctx, reached, source, account, tokens[k], amounts[k])->Err_0;
        lemma_deposits_refusal_persists(ctx, s, source, account, tokens, amounts, k + 1, m - 1, e);
    }
}

/// The outcome of the deposits depends on the setting only through the parts
/// that deposits leave as they are.
proof fn lemma_deposit_step_setting(
    a: DepositAndApprove,
    b: DepositAndApprove,
    s: DepositView,
    source: Pubkey,
    account: Pubkey,
    token: Pubkey,
    amount: u64,
)
    requires
        a.same_setting(b),
    ensures
        deposit_step(a, s, source, account, token, amount) == deposit_step(b, s, source, account, token, amount),
{
}

proof fn lemma_allowance_step_setting(
    a: DepositAndApprove,
    b: DepositAndApprove,
    s: DepositView,
    account: Pubkey,
    contract: Pubkey,
    token: Pubkey,
    by_amount: i64,
)
    requires
        a.same_setting(b),
    ensures
        allowance_step(a, s, account, contract, token, by_amount) == allowance_step(
            b,
            s,
            account,
            contract,
            token,
            by_amount,
        ),
{
}

/// Deposits `token_amounts[i]` of each `token_addresses[i]` for `account_address`,
/// in order, paid by the caller.
pub fn deposit_to_account(
    ctx: &mut DepositAndApprove,
    account_address: Pubkey,
    token_addresses: &Vec<Pubkey>,
    token_amounts: &Vec<u64>,
) -> (r: Result<(), CollateralVaultError>)
    ensures
        final(ctx).same_setting(*old(ctx)),
        token_addresses@.len() != token_amounts@.len() ==> r == Err::<(), CollateralVaultError>(
            CollateralVaultError::MismatchedTokenAddressesAndAmountsLength,
        ) && final(ctx).state() == old(ctx).state(),
        token_addresses@.len() == token_amounts@.len() ==> match deposits(
            *old(ctx),
            old(ctx).state(),
            old(ctx).caller,
            account_address,
            token_addresses@,
            token_amounts@,
        ) {
            Ok(s) => r is Ok && final(ctx).state() == s,
            Err(e) => r == Err::<(), CollateralVaultError>(e) && final(ctx).state() == deposits_reached(
                *old(ctx),
                old(ctx).state(),
                old(ctx).caller,
                account_address,
                token_addresses@,
                token_amounts@,
            ),
        },
{
    let ghost ctx0 = *ctx;
    let msg_sender = ctx.caller;
    if token_addresses.len() != token_amounts.len() {
        return Err(CollateralVaultError::MismatchedTokenAddressesAndAmountsLength);
    }
    let n = token_addresses.len();
    let mut i: usize = 0;
    assert(token_addresses@.take(0) =~= Seq::<Pubkey>::empty());
    while i < n
        invariant
            0 <= i <= n,
            n == token_addresses@.len(),
            n == token_amounts@.len(),
            msg_sender == ctx0.caller,
            ctx0 == *old(ctx),
            ctx.same_setting(ctx0),
            deposits(ctx0, ctx0.state(), msg_sender, account_address, token_addresses@.take(i as int), token_amounts@.take(i as int))
                == Ok::<DepositView, CollateralVaultError>(ctx.state()),
        decreases n - i,
    {
        let ghost before = *ctx;
        let result = deposit(ctx, msg_sender, account_address, token_addresses[i], token_amounts[i]);
        proof {
            lemma_deposit_step_setting(before, ctx0, before.state(), msg_sender, account_address, token_addresses@[i as int], token_amounts@[i as int]);
            assert(token_addresses@.take(i + 1).drop_last() =~= token_addresses@.take(i as int));
            assert(token_amounts@.take(i + 1).drop_last() =~= token_amounts@.take(i as int));
        }
        match result {
            Ok(()) => {},
            Err(e) => {
                proof {
                    lemma_deposits_refusal_persists(
                        ctx0,
                        ctx0.state(),
                        msg_sender,
                        account_address,
                        token_addresses@,
                        token_amounts@,
                        i + 1,
                        n as int,
                        e,
                    );
                    lemma_deposits_reached_after_refusal(
                        ctx0,
                        ctx0.state(),
                        msg_sender,
                        account_address,
                        token_addresses@,
                        token_amounts@,
                        i as int,
                        n as int,
                        before.state(),
                    );
                    assert(token_addresses@.take(n as int) =~= token_addresses@);
                    assert(token_amounts@.take(n as int) =~= token_amounts@);
                }
                return Err(e);
            },
        }
        i = i + 1;
    }
    assert(token_addresses@.take(n as int) =~= token_addresses@);
    assert(token_amounts@.take(n as int) =~= token_amounts@);
    Ok(())
}

/// The two's-complement reading of a deposit amount as a change of allowance.
pub fn to_allowance_change(amount: u64) -> (r: i64)
    ensures
        r == amount_as_allowance_change(amount),
{
    if amount <= 9_223_372_036_854_775_807u64 {
        amount as i64
    } else {
        -((u64::MAX - amount) as i64) - 1
    }
}

/// A refused approval in a list refuses every longer prefix of the list.
proof fn lemma_approvals_refusal_persists(
    ctx: DepositAndApprove,
    s: DepositView,
    account: Pubkey,
    contract: Pubkey,
    tokens: Seq<Pubkey>,
    amounts: Seq<u64>,
    k: int,
    m: int,
    e: CollateralVaultError,
)
    requires
        0 <= k <= m <= amounts.len(),
        approvals(ctx, s, account, contract, tokens, amounts.take(k)) == Err::<DepositView, CollateralVaultError>(e),
    ensures
        approvals(ctx, s, account, contract, tokens, amounts.take(m)) == Err::<DepositView, CollateralVaultError>(e),
    decreases m - k,
{
    if m > k {
        lemma_approvals_refusal_persists(ctx, s, account, contract, tokens, amounts, k, m - 1, e);
        assert(amounts.take(m).drop_last() =~= amounts.take(m - 1));
    }
}

/// Where the approval at position `k` is refused, the approvals reach the state
/// after the first `k` of them, however many follow.
proof fn lemma_approvals_reached_after_refusal(
    ctx: DepositAndApprove,
    s: DepositView,
    account: Pubkey,
    contract: Pubkey,
    tokens: Seq<Pubkey>,
    amounts: Seq<u64>,
    k: int,
    m: int,
    reached: DepositView,
)
    requires
        0 <= k < m <= amounts.len(),
        approvals(ctx, s, account, contract, tokens, amounts.take(k)) == Ok::<DepositView, CollateralVaultError>(
            reached,
        ),
        allowance_step(ctx, reached, account, contract, tokens[k], amount_as_allowance_change(amounts[k])) is Err,
    ensures
        approvals_reached(ctx, s, account, contract, tokens, amounts.take(m)) == reached,
    decreases m - k,
{
    assert(amounts.take(m).drop_last() =~= amounts.take(m - 1));
    if m > k + 1 {
        lemma_approvals_reached_after_refusal(ctx, s, account, contract, tokens, amounts, k, m - 1, reached);
        assert(amounts.take(k + 1).drop_last() =~= amounts.take(k));
        let e = allowance_step(ctx, reached, account, contract, tokens[k], amount_as_allowance_change(amounts[k]))->Err_0;
        lemma_approvals_refusal_persists(ctx, s, account, contract, tokens, amounts, k + 1, m - 1, e);
    }
}

/// Deposits `token_amounts[i]` of each `token_addresses[i]` for the caller, then
/// changes by each amount what the caller allows the approved contract
/// `collateralizable_contract_address_to_approve` to use of that token.
pub fn deposit_plus_approve(
    ctx: &mut DepositAndApprove,
    token_addresses: &Vec<Pubkey>,
    token_amounts: Vec<u64>,
    collateralizable_contract_address_to_approve: Pubkey,
) -> (r: Result<(), CollateralVaultError>)
    ensures
        final(ctx).same_setting(*old(ctx)),
        !old(ctx).collateralizable_contracts.keys().contains(collateralizable_contract_address_to_approve@) ==> r
            == Err::<(), CollateralVaultError>(CollateralVaultError::UnapprovedCollateralizableContract)
            && final(ctx).state() == old(ctx).state(),
        old(ctx).collateralizable_contracts.keys().contains(collateralizable_contract_address_to_approve@)
            && token_addresses@.len() != token_amounts@.len() ==> r == Err::<(), CollateralVaultError>(
            CollateralVaultError::MismatchedTokenAddressesAndAmountsLength,
        ) && final(ctx).state() == old(ctx).state(),
        old(ctx).collateralizable_contracts.keys().contains(collateralizable_contract_address_to_approve@)
            && token_addresses@.len() == token_amounts@.len() ==> match deposits(
            *old(ctx),
            old(ctx).state(),
            old(ctx).caller,
            old(ctx).caller,
            token_addresses@,
            token_amounts@,
        ) {
            Err(e) => r == Err::<(), CollateralVaultError>(e) && final(ctx).state() == deposits_reached(
                *old(ctx),
                old(ctx).state(),
                old(ctx).caller,
                old(ctx).caller,
                token_addresses@,
                token_amounts@,
            ),
            Ok(s1) => match approvals(
                *old(ctx),
                s1,
                old(ctx).caller,
                collateralizable_contract_address_to_approve,
                token_addresses@,
                token_amounts@,
            ) {
                Err(e) => r == Err::<(), CollateralVaultError>(e) && final(ctx).state() == approvals_reached(
                    *old(ctx),
                    s1,
                    old(ctx).caller,
                    collateralizable_contract_address_to_approve,
                    token_addresses@,
                    token_amounts@,
                ),
                Ok(s2) => r is Ok && final(ctx).state() == s2,
            },
        },
{
    let ghost ctx0 = *ctx;
    if !contains_key(
        &ctx.collateralizable_contracts.collaterizable_contracts,
        &collateralizable_contract_address_to_approve,
    ) {
        return Err(CollateralVaultError::UnapprovedCollateralizableContract);
    }
    let msg_sender = ctx.caller;
    match deposit_to_account(ctx, msg_sender, token_addresses, &token_amounts) {
        Ok(()) => {},
        Err(e) => return Err(e),
    }
    let ghost s1 = ctx.state();
    let ghost ctx1 = *ctx;
    let n = token_amounts.len();
    let mut i: usize = 0;
    assert(token_amounts@.take(0) =~= Seq::<u64>::empty());
    while i < n
        invariant
            0 <= i <= n,
            n == token_amounts@.len(),
            n == token_addresses@.len(),
            msg_sender == ctx0.caller,
            ctx0 == *old(ctx),
            ctx0.collateralizable_contracts.keys().contains(collateralizable_contract_address_to_approve@),
            deposits(ctx0, ctx0.state(), ctx0.caller, ctx0.caller, token_addresses@, token_amounts@)
                == Ok::<DepositView, CollateralVaultError>(s1),
            ctx.same_setting(ctx0),
            ctx1.same_setting(ctx0),
            approvals(
                ctx0,
                s1,
                msg_sender,
                collateralizable_contract_address_to_approve,
                token_addresses@,
                token_amounts@.take(i as int),
            ) == Ok::<DepositView, CollateralVaultError>(ctx.state()),
        decreases n - i,
    {
        let ghost before = *ctx;
        let by_amount = to_allowance_change(token_amounts[i]);
        let result = authorized_modify_collateralizable_token_allowance(
            ctx,
            msg_sender,
            collateralizable_contract_address_to_approve,
            token_addresses[i],
            by_amount,
        );
        proof {
            lemma_allowance_step_setting(
                before,
                ctx0,
                before.state(),
                msg_sender,
                collateralizable_contract_address_to_approve,
                token_addresses@[i as int],
                by_amount,
            );
            assert(token_amounts@.take(i + 1).drop_last() =~= token_amounts@.take(i as int));
        }
        match result {
            Ok(()) => {},
            Err(e) => {
                proof {
                    lemma_approvals_refusal_persists(
                        ctx0,
                        s1,
                        msg_sender,
                        collateralizable_contract_address_to_approve,
                        token_addresses@,
                        token_amounts@,
                        i + 1,
                        n as int,
                        e,
                    );
                    lemma_approvals_reached_after_refusal(
                        ctx0,
                        s1,
                        msg_sender,
                        collateralizable_contract_address_to_approve,
                        token_addresses@,
                        token_amounts@,
                        i as int,
                        n as int,
                        before.state(),
                    );
                    assert(token_amounts@.take(n as int) =~= token_amounts@);
                }
                return Err(e);
            },
        }
        i = i + 1;
    }
    assert(token_amounts@.take(n as int) =~= token_amounts@);
    Ok(())
}

impl DepositAndApprove {
    /// Checks that `token_address` is a supported and enabled collateral token.
    pub fn verify_token_enabled(&self, token_address: Pubkey) -> (r: Result<(), CollateralVaultError>)
        ensures
            match token_enabled_error(self.tokens_registry.collateral_tokens@, token_address@) {
                Some(e) => r == Err::<(), CollateralVaultError>(e),
                None => r is Ok,
            },
    {
        self.tokens_registry.verify_token_enabled(&token_address)
    }
}

proof fn lemma_tokens_enabled_refusal_persists(
    registry: Seq<(Pubkey, CollateralToken)>,
    tokens: Seq<Pubkey>,
    k: int,
    m: int,
    e: CollateralVaultError,
)
    requires
        0 <= k <= m <= tokens.len(),
        tokens_enabled_error(registry, tokens.take(k)) == Some(e),
    ensures
        tokens_enabled_error(registry, tokens.take(m)) == Some(e),
    decreases m - k,
{
    if m > k {
        lemma_tokens_enabled_refusal_persists(registry, tokens, k, m - 1, e);
        assert(tokens.take(m).drop_last() =~= tokens.take(m - 1));
    }
}

/// Checks that every token of `token_addresses` is a supported and enabled
/// collateral token; refuses with the first that is not.
pub fn only_enabled_collateral_tokens(ctx: &DepositAndApprove, token_addresses: &Vec<Pubkey>) -> (r: Result<
    (),
    CollateralVaultError,
>)
    ensures
        match tokens_enabled_error(ctx.tokens_registry.collateral_tokens@, token_addresses@) {
            Some(e) => r == Err::<(), CollateralVaultError>(e),
            None => r is Ok,
        },
{
    let ghost registry = ctx.tokens_registry.collateral_tokens@;
    let n = token_addresses.len();
    let mut i: usize = 0;
    assert(token_addresses@.take(0) =~= Seq::<Pubkey>::empty());
    while i < n
        invariant
            0 <= i <= n,
            n == token_addresses@.len(),
            registry == ctx.tokens_registry.collateral_tokens@,
            tokens_enabled_error(registry, token_addresses@.take(i as int)) is None,
        decreases n - i,
    {
        let result = ctx.verify_token_enabled(token_addresses[i]);
        proof {
            assert(token_addresses@.take(i + 1).drop_last() =~= token_addresses@.take(i as int));
        }
        match result {
            Ok(()) => {},
            Err(e) => {
                proof {
                    lemma_tokens_enabled_refusal_persists(registry, token_addresses@, i + 1, n as int, e);
                    assert(token_addresses@.take(n as int) =~= token_addresses@);
                }
                return Err(e);
            },
        }
        i = i + 1;
    }
    assert(token_addresses@.take(n as int) =~= token_addresses@);
    Ok(())
}


/// What an accepted deposit leaves in the balance account: the account reads as
/// a balance again, its available collateral is what it was (nothing for a new
/// account) plus the deposit, and its reserved collateral is as it was.
pub proof fn lemma_deposit_credits_balance(
    ctx: DepositAndApprove,
    s: DepositView,
    source: Pubkey,
    account: Pubkey,
    token: Pubkey,
    amount: u64,
)
    requires
        deposit_step(ctx, s, source, account, token, amount) is Ok,
    ensures
        ({
            let s2 = deposit_step(ctx, s, source, account, token, amount)->Ok_0;
            let i = pda_lookup(
                ctx.program_id@,
                s.accounts,
                balance_seeds(account@, token@),
                CollateralVaultError::PDAAccountNotFound,
            )->Ok_0.0;
            let old_data = s.accounts[i].data;
            let fresh = needs_creation(s.accounts[i]);
            let available_before = if fresh { 0 } else { spec_u64_from_le_bytes(old_data.subrange(8, 16)) as int };
            let reserved_before = if fresh { 0 } else { spec_u64_from_le_bytes(old_data.subrange(16, 24)) as int };
            &&& 0 <= i < s2.accounts.len()
            &&& account_data_error(
                s2.accounts[i].data,
                ACCOUNTS_BALANCE_DISCRIMINATOR@,
                ACCOUNTS_BALANCE_SPACE as nat,
            ) is None
            &&& spec_u64_from_le_bytes(s2.accounts[i].data.subrange(8, 16)) == available_before + amount
            &&& spec_u64_from_le_bytes(s2.accounts[i].data.subrange(16, 24)) == reserved_before
            &&& s2.accounts[i].owner == ctx.program_id@
        }),
{
    vstd::bytes::lemma_auto_spec_u64_to_from_le_bytes();
    let (i, address, bump) = pda_lookup(
        ctx.program_id@,
        s.accounts,
        balance_seeds(account@, token@),
        CollateralVaultError::PDAAccountNotFound,
    )->Ok_0;
    let acc = prepared_account(s.accounts[i], ctx.program_id@, ctx.balance_account_rent, empty_balance_data());
    let available = spec_u64_from_le_bytes(acc.data.subrange(8, 16));
    let v = (available + amount) as u64;
    let data = ACCOUNTS_BALANCE_DISCRIMINATOR@ + spec_u64_to_le_bytes(v) + acc.data.skip(16);
    assert(ACCOUNTS_BALANCE_DISCRIMINATOR@.len() == 8);
    assert(spec_u64_to_le_bytes(v).len() == 8);
    assert(data.subrange(0, 8) =~= ACCOUNTS_BALANCE_DISCRIMINATOR@);
    assert(data.subrange(8, 16) =~= spec_u64_to_le_bytes(v));
    assert(data.subrange(16, 24) =~= acc.data.subrange(16, 24));
    if needs_creation(s.accounts[i]) {
        assert(acc.data.subrange(8, 16) =~= spec_u64_to_le_bytes(0));
        assert(acc.data.subrange(16, 24) =~= spec_u64_to_le_bytes(0));
    }
}


/// The sum of the amounts listed for `token`.
pub open spec fn listed_total(tokens: Seq<Pubkey>, amounts: Seq<u64>, token: Seq<u8>) -> int
    decreases tokens.len(),
{
    if tokens.len() == 0 || amounts.len() == 0 {
        0
    } else {
        listed_total(tokens.drop_last(), amounts.drop_last(), token) + if tokens.last()@ == token {
            amounts.last() as int
        } else {
            0
        }
    }
}

/// The cumulative deposits that the registry entries record for `token`: those
/// of its first entry.
pub open spec fn cumulative_of(tokens: Seq<(Pubkey, CollateralToken)>, token: Seq<u8>) -> int {
    tokens[first_index(token_keys(tokens), token)].1.user_cumulative_balance as int
}

/// The available collateral that a balance account holds: nothing before it is created.
pub open spec fn available_in(account: AccountView) -> int {
    if needs_creation(account) {
        0
    } else {
        spec_u64_from_le_bytes(account.data.subrange(8, 16)) as int
    }
}

/// The address of `account`'s balance account for `token`.
pub open spec fn balance_address(program_id: Seq<u8>, account: Seq<u8>, token: Seq<u8>) -> Seq<u8> {
    match program_address(balance_seeds(account, token), program_id) {
        Some((address, _)) => address,
        None => Seq::empty(),
    }
}

proof fn lemma_token_keys_after_cumulative(tokens: Seq<(Pubkey, CollateralToken)>, token: Seq<u8>, delta: int)
    ensures
        token_keys(cumulative_after(tokens, token, delta)) == token_keys(tokens),
{
    assert(token_keys(cumulative_after(tokens, token, delta)) =~= token_keys(tokens));
}

/// One accepted deposit of `amount` of `deposited`, seen from the balance account
/// and the registry entry of `token`: each grows by `amount` when the two tokens
/// are one, and stays as it was when their balance accounts differ. The keys of
/// the accounts and of the registry entries stay as they were.
proof fn lemma_deposit_step_for_token(
    ctx: DepositAndApprove,
    s: DepositView,
    source: Pubkey,
    account: Pubkey,
    deposited: Pubkey,
    amount: u64,
    token: Pubkey,
)
    requires
        deposit_step(ctx, s, source, account, deposited, amount) is Ok,
        ctx.balance_account_rent > 0,
        pda_lookup(ctx.program_id@, s.accounts, balance_seeds(account@, token@), CollateralVaultError::PDAAccountNotFound)
            is Ok,
        deposited@ != token@ ==> balance_address(ctx.program_id@, account@, deposited@) != balance_address(
            ctx.program_id@,
            account@,
            token@,
        ),
    ensures
        ({
            let s2 = deposit_step(ctx, s, source, account, deposited, amount)->Ok_0;
            let i = pda_lookup(
                ctx.program_id@,
                s.accounts,
                balance_seeds(account@, token@),
                CollateralVaultError::PDAAccountNotFound,
            )->Ok_0.0;
            let added = if deposited@ == token@ { amount as int } else { 0 };
            &&& account_keys(s2.accounts) == account_keys(s.accounts)
            &&& s2.accounts.len() == s.accounts.len()
            &&& token_keys(s2.tokens) == token_keys(s.tokens)
            &&& available_in(s2.accounts[i]) == available_in(s.accounts[i]) + added
            &&& first_index(token_keys(s.tokens), token@) != -1 ==> cumulative_of(s2.tokens, token@) == cumulative_of(
                s.tokens,
                token@,
            ) + added
        }),
{
    vstd::bytes::lemma_auto_spec_u64_to_from_le_bytes();
    let keys = account_keys(s.accounts);
    let (iu, au, bump) = pda_lookup(
        ctx.program_id@,
        s.accounts,
        balance_seeds(account@, deposited@),
        CollateralVaultError::PDAAccountNotFound,
    )->Ok_0;
    let (it, at, bt) = pda_lookup(
        ctx.program_id@,
        s.accounts,
        balance_seeds(account@, token@),
        CollateralVaultError::PDAAccountNotFound,
    )->Ok_0;
    lemma_first_index_absent(keys, au);
    lemma_first_index_absent(keys, at);
    assert(keys[iu] == s.accounts[iu].key);
    assert(keys[it] == s.accounts[it].key);
    let acc = prepared_account(s.accounts[iu], ctx.program_id@, ctx.balance_account_rent, empty_balance_data());
    let available = spec_u64_from_le_bytes(acc.data.subrange(8, 16));
    let v = (available + amount) as u64;
    let written = AccountView {
        key: acc.key,
        owner: acc.owner,
        lamports: acc.lamports,
        data: ACCOUNTS_BALANCE_DISCRIMINATOR@ + spec_u64_to_le_bytes(v) + acc.data.skip(16),
    };
    lemma_keys_after_update(s.accounts, iu, written);
    lemma_token_keys_after_cumulative(s.tokens, deposited@, amount as int);
    if deposited@ == token@ {
        assert(balance_seeds(account@, deposited@) == balance_seeds(account@, token@));
        assert(iu == it);
        assert(ACCOUNTS_BALANCE_DISCRIMINATOR@.len() == 8);
        assert(spec_u64_to_le_bytes(v).len() == 8);
        assert(written.data.subrange(8, 16) =~= spec_u64_to_le_bytes(v));
        if needs_creation(s.accounts[iu]) {
            assert(acc.data.subrange(8, 16) =~= spec_u64_to_le_bytes(0));
        }
        assert(!needs_creation(written));
    } else {
        assert(au == balance_address(ctx.program_id@, account@, deposited@));
        assert(at == balance_address(ctx.program_id@, account@, token@));
        assert(iu != it);
    }
    let ju = first_index(token_keys(s.tokens), deposited@);
    let jt = first_index(token_keys(s.tokens), token@);
    lemma_first_index_absent(token_keys(s.tokens), deposited@);
    lemma_first_index_absent(token_keys(s.tokens), token@);
    if ju != -1 && jt != -1 && deposited@ != token@ {
        assert(token_keys(s.tokens)[ju] == deposited@);
        assert(token_keys(s.tokens)[jt] == token@);
        assert(ju != jt);
    }
}

/// Accepted deposits credit each token with the sum of the amounts listed for
/// it: the balance account of `account` for `token` and the cumulative deposits
/// that the registry records for `token` (where it has an entry) both grow by
/// exactly that sum, so listing a token twice does what listing it once with the
/// summed amount does. This holds where distinct tokens have distinct balance
/// accounts, and where new accounts are created with some rent.
pub proof fn lemma_deposits_credit_listed_total(
    ctx: DepositAndApprove,
    s: DepositView,
    source: Pubkey,
    account: Pubkey,
    tokens: Seq<Pubkey>,
    amounts: Seq<u64>,
    token: Pubkey,
)
    requires
        tokens.len() == amounts.len(),
        deposits(ctx, s, source, account, tokens, amounts) is Ok,
        ctx.balance_account_rent > 0,
        pda_lookup(ctx.program_id@, s.accounts, balance_seeds(account@, token@), CollateralVaultError::PDAAccountNotFound)
            is Ok,
        forall|k: int|
            0 <= k < tokens.len() && #[trigger] tokens[k]@ != token@ ==> balance_address(
                ctx.program_id@,
                account@,
                tokens[k]@,
            ) != balance_address(ctx.program_id@, account@, token@),
    ensures
        ({
            let s2 = deposits(ctx, s, source, account, tokens, amounts)->Ok_0;
            let i = pda_lookup(
                ctx.program_id@,
                s.accounts,
                balance_seeds(account@, token@),
                CollateralVaultError::PDAAccountNotFound,
            )->Ok_0.0;
            &&& account_keys(s2.accounts) == account_keys(s.accounts)
            &&& s2.accounts.len() == s.accounts.len()
            &&& token_keys(s2.tokens) == token_keys(s.tokens)
            &&& available_in(s2.accounts[i]) == available_in(s.accounts[i]) + listed_total(tokens, amounts, token@)
            &&& first_index(token_keys(s.tokens), token@) != -1 ==> cumulative_of(s2.tokens, token@) == cumulative_of(
                s.tokens,
                token@,
            ) + listed_total(tokens, amounts, token@)
        }),
    decreases tokens.len(),
{
    if tokens.len() > 0 {
        let t1 = tokens.drop_last();
        let a1 = amounts.drop_last();
        assert forall|k: int| 0 <= k < t1.len() && #[trigger] t1[k]@ != token@ implies balance_address(
            ctx.program_id@,
            account@,
            t1[k]@,
        ) != balance_address(ctx.program_id@, account@, token@) by {
            assert(t1[k] == tokens[k]);
        }
        lemma_deposits_credit_listed_total(ctx, s, source, account, t1, a1, token);
        let s1 = deposits(ctx, s, source, account, t1, a1)->Ok_0;
        assert(tokens[tokens.len() - 1] == tokens.last());
        lemma_deposit_step_for_token(ctx, s1, source, account, tokens.last(), amounts.last(), token);
    }
}


proof fn lemma_no_refusal_passes(registry: Seq<(Pubkey, CollateralToken)>, tokens: Seq<Pubkey>)
    requires
        forall|k: int| 0 <= k < tokens.len() ==> (#[trigger] token_enabled_error(registry, tokens[k]@)) is None,
    ensures
        tokens_enabled_error(registry, tokens) is None,
    decreases tokens.len(),
{
    if tokens.len() > 0 {
        let t1 = tokens.drop_last();
        assert forall|k: int| 0 <= k < t1.len() implies (#[trigger] token_enabled_error(registry, t1[k]@)) is None by {
            assert(t1[k] == tokens[k]);
        }
        lemma_no_refusal_passes(registry, t1);
        assert(token_enabled_error(registry, tokens[tokens.len() - 1]@) is None);
    }
}

proof fn lemma_first_refusal_at(registry: Seq<(Pubkey, CollateralToken)>, tokens: Seq<Pubkey>, k: int)
    requires
        0 <= k < tokens.len(),
        token_enabled_error(registry, tokens[k]@) is Some,
        forall|j: int| 0 <= j < k ==> (#[trigger] token_enabled_error(registry, tokens[j]@)) is None,
    ensures
        tokens_enabled_error(registry, tokens) == token_enabled_error(registry, tokens[k]@),
    decreases tokens.len(),
{
    let t1 = tokens.drop_last();
    if k == tokens.len() - 1 {
        assert forall|j: int| 0 <= j < t1.len() implies (#[trigger] token_enabled_error(registry, t1[j]@)) is None by {
            assert(t1[j] == tokens[j]);
        }
        lemma_no_refusal_passes(registry, t1);
    } else {
        assert forall|j: int| 0 <= j < k implies (#[trigger] token_enabled_error(registry, t1[j]@)) is None by {
            assert(t1[j] == tokens[j]);
        }
        assert(t1[k] == tokens[k]);
        lemma_first_refusal_at(registry, t1, k);
    }
}

/// The check that every listed token is a supported and enabled collateral
/// token refuses exactly when some listed token, at any position, is refused,
/// and then with the refusal of the first such token.
pub proof fn lemma_tokens_enabled_refuses_the_first_refused_token(
    registry: Seq<(Pubkey, CollateralToken)>,
    tokens: Seq<Pubkey>,
)
    ensures
        (forall|k: int| 0 <= k < tokens.len() ==> (#[trigger] token_enabled_error(registry, tokens[k]@)) is None)
            ==> tokens_enabled_error(registry, tokens) is None,
        forall|k: int|
            0 <= k < tokens.len() && (#[trigger] token_enabled_error(registry, tokens[k]@)) is Some && (forall|j: int|
                0 <= j < k ==> token_enabled_error(registry, tokens[j]@) is None) ==> tokens_enabled_error(
                registry,
                tokens,
            ) == token_enabled_error(registry, tokens[k]@),
{
    if forall|k: int| 0 <= k < tokens.len() ==> (#[trigger] token_enabled_error(registry, tokens[k]@)) is None {
        lemma_no_refusal_passes(registry, tokens);
    }
    assert forall|k: int|
        0 <= k < tokens.len() && (#[trigger] token_enabled_error(registry, tokens[k]@)) is Some && (forall|j: int|
            0 <= j < k ==> token_enabled_error(registry, tokens[j]@) is None) implies tokens_enabled_error(
        registry,
        tokens,
    ) == token_enabled_error(registry, tokens[k]@) by {
        lemma_first_refusal_at(registry, tokens, k);
    }
}

/// An accepted approval adds `by_amount` to what the allowance account held
/// (nothing for an account yet to be created), saturating at zero and at the
/// largest `u64`: the allowance written depends on the allowance read.
pub proof fn lemma_approval_adds_to_the_allowance(
    ctx: DepositAndApprove,
    s: DepositView,
    account: Pubkey,
    contract: Pubkey,
    token: Pubkey,
    by_amount: i64,
)
    requires
        allowance_step(ctx, s, account, contract, token, by_amount) is Ok,
    ensures
        ({
            let s2 = allowance_step(ctx, s, account, contract, token, by_amount)->Ok_0;
            let i = pda_lookup(
                ctx.program_id@,
                s.accounts,
                allowance_seeds(account@, contract@, token@),
                CollateralVaultError::MismatchedAllowancePDA,
            )->Ok_0.0;
            let before = if needs_creation(s.accounts[i]) {
                0
            } else {
                spec_u64_from_le_bytes(s.accounts[i].data.subrange(8, 16)) as int
            };
            let sum = before + by_amount;
            &&& 0 <= i < s2.accounts.len()
            &&& s2.accounts[i].data.len() >= 16
            &&& spec_u64_from_le_bytes(s2.accounts[i].data.subrange(8, 16)) == if sum > u64::MAX {
                u64::MAX as int
            } else if sum < 0 {
                0
            } else {
                sum
            }
        }),
{
    vstd::bytes::lemma_auto_spec_u64_to_from_le_bytes();
    let (i, address, bump) = pda_lookup(
        ctx.program_id@,
        s.accounts,
        allowance_seeds(account@, contract@, token@),
        CollateralVaultError::MismatchedAllowancePDA,
    )->Ok_0;
    let acc = prepared_account(s.accounts[i], ctx.program_id@, ctx.allowance_account_rent, empty_allowance_data());
    let current = spec_u64_from_le_bytes(acc.data.subrange(8, 16));
    let new_allowance = modified_allowance(current, by_amount);
    if needs_creation(s.accounts[i]) {
        assert(acc.data.subrange(8, 16) =~= spec_u64_to_le_bytes(0));
    }
    if new_allowance != current {
        let data = ACCOUNT_COLLATERALIZABLE_ALLOWANCE_DISCRIMINATOR@ + spec_u64_to_le_bytes(new_allowance)
            + acc.data.skip(16);
        assert(ACCOUNT_COLLATERALIZABLE_ALLOWANCE_DISCRIMINATOR@.len() == 8);
        assert(spec_u64_to_le_bytes(new_allowance).len() == 8);
        assert(data.subrange(8, 16) =~= spec_u64_to_le_bytes(new_allowance));
    }
}

} // verus!
