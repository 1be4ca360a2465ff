use collateral_vault::accounts::{
    AccountsBalance, CollateralToken, CollateralizableContracts, TokenRegistry, ACCOUNTS_BALANCE_DISCRIMINATOR,
    ACCOUNT_COLLATERALIZABLE_ALLOWANCE_DISCRIMINATOR,
};
use collateral_vault::actions::VaultAction;
use collateral_vault::collateral_vault::{deposit_and_approve, deposit_to_account_ext};
use collateral_vault::deposits::{
    create_or_get_account_balance_pda, deposit, only_enabled_collateral_tokens, to_allowance_change, AccountState,
    DepositAndApprove, ACCOUNT_BALANCE_SEED,
};
use collateral_vault::errors::CollateralVaultError;
use collateral_vault::pubkey::Pubkey;

type SolKey = anchor_lang::prelude::Pubkey;

const PROGRAM: u8 = 7;
const CALLER: u8 = 1;
const CONTRACT: u8 = 2;
const TOKEN: u8 = 3;
const VAULT: u8 = 4;

fn key(b: u8) -> Pubkey {
    Pubkey { bytes: [b; 32] }
}

fn sol(b: u8) -> SolKey {
    SolKey::new_from_array([b; 32])
}

fn balance_pda(user: u8, token: u8) -> (Pubkey, u8) {
    let (k, bump) = SolKey::find_program_address(&[b"account_balance_pda", &[user; 32], &[token; 32]], &sol(PROGRAM));
    (Pubkey { bytes: k.to_bytes() }, bump)
}

fn allowance_pda(account: u8, contract: u8, token: u8) -> (Pubkey, u8) {
    let (k, bump) = SolKey::find_program_address(&[&[account; 32], &[contract; 32], &[token; 32]], &sol(PROGRAM));
    (Pubkey { bytes: k.to_bytes() }, bump)
}

fn ata(wallet: u8, mint: u8) -> Pubkey {
    let k = anchor_spl::associated_token::get_associated_token_address(&sol(wallet), &sol(mint));
    Pubkey { bytes: k.to_bytes() }
}

fn mint_data(decimals: u8, initialized: u8) -> Vec<u8> {
    let mut d = vec![0u8; 82];
    d[36] = 100;
    d[44] = decimals;
    d[45] = initialized;
    d
}

fn empty_account(k: Pubkey) -> AccountState {
    AccountState { key: k, owner: key(0), lamports: 0, data: vec![] }
}

fn account(k: Pubkey, data: Vec<u8>) -> AccountState {
    AccountState { key: k, owner: key(9), lamports: 5, data }
}

fn ctx() -> DepositAndApprove {
    DepositAndApprove {
        program_id: key(PROGRAM),
        caller: key(CALLER),
        tokens_registry: TokenRegistry {
            token_registry_bump: 1, governance: key(1),
            collateral_tokens: vec![(key(TOKEN), CollateralToken { user_cumulative_balance: 10, is_enabled: true })],
        },
        collateralizable_contracts: CollateralizableContracts { collaterizable_contracts_bump: 1, governance: key(1), collaterizable_contracts: vec![key(CONTRACT)] },
        bank_token_vault: key(VAULT),
        balance_account_rent: 1_000_000,
        allowance_account_rent: 900_000,
        remaining_accounts: vec![
            account(key(TOKEN), mint_data(6, 1)),
            empty_account(balance_pda(CALLER, TOKEN).0),
            account(ata(VAULT, TOKEN), vec![1, 2, 3]),
            account(ata(CALLER, TOKEN), vec![4, 5, 6]),
            empty_account(allowance_pda(CALLER, CONTRACT, TOKEN).0),
        ],
        actions: vec![],
    }
}

fn le(x: u64) -> Vec<u8> {
    x.to_le_bytes().to_vec()
}

fn balance_data(available: u64) -> Vec<u8> {
    let mut d = ACCOUNTS_BALANCE_DISCRIMINATOR.to_vec();
    d.extend(le(available));
    d.extend(le(0));
    d.extend([0u8; 8]);
    d
}

#[test]
fn discriminators_are_the_account_type_hashes() {
    let h = anchor_lang::solana_program::hash::hash(b"account:AccountsBalance");
    assert_eq!(&h.to_bytes()[..8], &ACCOUNTS_BALANCE_DISCRIMINATOR);
    let h = anchor_lang::solana_program::hash::hash(b"account:AccountCollateralizableAllowance");
    assert_eq!(&h.to_bytes()[..8], &ACCOUNT_COLLATERALIZABLE_ALLOWANCE_DISCRIMINATOR);
    assert_eq!(&ACCOUNT_BALANCE_SEED, b"account_balance_pda");
}

#[test]
fn balance_round_trips_through_account_data() {
    let b = AccountsBalance {
        collateral_balance: collateral_vault::accounts::CollateralBalance { available: 0x0102030405060708, reserved: 77 },
        bump_accounts_balance: 250,
        padding: [1, 2, 3, 4, 5, 6, 7],
    };
    let mut data = b.to_account_data();
    assert_eq!(data.len(), 32);
    assert_eq!(&data[8..16], &0x0102030405060708u64.to_le_bytes());
    data.extend([9, 9, 9]);
    let back = AccountsBalance::from_account_data(&data).unwrap();
    assert_eq!(back.collateral_balance, b.collateral_balance);
    assert_eq!(back.bump_accounts_balance, 250);
    assert_eq!(back.padding, [1, 2, 3, 4, 5, 6, 7]);
    assert_eq!(AccountsBalance::from_account_data(&data[..7].to_vec()).err(), Some(CollateralVaultError::AccountDiscriminatorNotFound));
    assert_eq!(AccountsBalance::from_account_data(&data[..31].to_vec()).err(), Some(CollateralVaultError::AccountDidNotDeserialize));
    data[0] ^= 1;
    assert_eq!(AccountsBalance::from_account_data(&data).err(), Some(CollateralVaultError::AccountDiscriminatorMismatch));
}

#[test]
fn balance_account_is_found_at_its_program_address() {
    let c = ctx();
    let (b, index, prepared, creation) = create_or_get_account_balance_pda(&c, key(CALLER), key(TOKEN)).unwrap();
    assert_eq!(index, 1);
    assert_eq!(b.collateral_balance.available, 0);
    assert_eq!(prepared.owner.bytes, [PROGRAM; 32]);
    assert_eq!(prepared.lamports, 1_000_000);
    let (pda, bump) = balance_pda(CALLER, TOKEN);
    match creation {
        Some(VaultAction::CreateAccount { payer, new_account, lamports, space, owner, seeds }) => {
            assert_eq!(payer.bytes, [CALLER; 32]);
            assert_eq!(new_account.bytes, pda.bytes);
            assert_eq!(lamports, 1_000_000);
            assert_eq!(space, 32);
            assert_eq!(owner.bytes, [PROGRAM; 32]);
            assert_eq!(seeds, vec![b"account_balance_pda".to_vec(), vec![CALLER; 32], vec![TOKEN; 32], vec![bump]]);
        },
        other => panic!("unexpected {:?}", other),
    }
    let mut c = ctx();
    c.remaining_accounts.remove(1);
    assert_eq!(create_or_get_account_balance_pda(&c, key(CALLER), key(TOKEN)).err(), Some(CollateralVaultError::PDAAccountNotFound));
}

#[test]
fn deposit_creates_the_balance_and_transfers() {
    let mut c = ctx();
    assert_eq!(deposit(&mut c, key(CALLER), key(CALLER), key(TOKEN), 250), Ok(()));
    assert_eq!(c.tokens_registry.collateral_tokens[0].1.user_cumulative_balance, 260);
    let acc = &c.remaining_accounts[1];
    assert_eq!(acc.data, balance_data(250));
    assert_eq!(acc.owner.bytes, [PROGRAM; 32]);
    assert_eq!(acc.lamports, 1_000_000);
    assert_eq!(c.actions.len(), 3);
    assert!(matches!(c.actions[0], VaultAction::CreateAccount { .. }));
    match &c.actions[1] {
        VaultAction::CreateAssociatedTokenAccount { payer, associated_token, authority, mint } => {
            assert_eq!(payer.bytes, [CALLER; 32]);
            assert_eq!(associated_token.bytes, ata(VAULT, TOKEN).bytes);
            assert_eq!(authority.bytes, [VAULT; 32]);
            assert_eq!(mint.bytes, [TOKEN; 32]);
        },
        other => panic!("unexpected {:?}", other),
    }
    match &c.actions[2] {
        VaultAction::TransferChecked(t) => {
            assert_eq!(t.from.bytes, ata(CALLER, TOKEN).bytes);
            assert_eq!(t.to.bytes, ata(VAULT, TOKEN).bytes);
            assert_eq!(t.authority.bytes, [CALLER; 32]);
            assert_eq!(t.amount, 250);
            assert_eq!(t.decimals, 6);
        },
        other => panic!("unexpected {:?}", other),
    }
    // A second deposit adds to the existing balance and creates nothing.
    assert_eq!(deposit(&mut c, key(CALLER), key(CALLER), key(TOKEN), 100), Ok(()));
    assert_eq!(c.remaining_accounts[1].data, balance_data(350));
    assert_eq!(c.tokens_registry.collateral_tokens[0].1.user_cumulative_balance, 360);
    assert_eq!(c.actions.len(), 5);
    assert!(matches!(c.actions[3], VaultAction::CreateAssociatedTokenAccount { .. }));
}

#[test]
fn deposit_refusals_change_nothing() {
    let mut c = ctx();
    c.remaining_accounts.remove(0);
    assert_eq!(deposit(&mut c, key(CALLER), key(CALLER), key(TOKEN), 250), Err(CollateralVaultError::TokenMintNotFound));
    assert!(c.actions.is_empty());
    assert!(c.remaining_accounts[0].data.is_empty());
    assert_eq!(c.tokens_registry.collateral_tokens[0].1.user_cumulative_balance, 10);
    let mut c = ctx();
    c.remaining_accounts[0].data = mint_data(6, 0);
    assert_eq!(deposit(&mut c, key(CALLER), key(CALLER), key(TOKEN), 250), Err(CollateralVaultError::UninitializedAccount));
    c.remaining_accounts[0].data = mint_data(6, 2);
    assert_eq!(deposit(&mut c, key(CALLER), key(CALLER), key(TOKEN), 250), Err(CollateralVaultError::InvalidAccountData));
    let mut c = ctx();
    c.remaining_accounts.remove(2);
    assert_eq!(deposit(&mut c, key(CALLER), key(CALLER), key(TOKEN), 250), Err(CollateralVaultError::MismatchedTokenVaults));
    let mut c = ctx();
    c.remaining_accounts.remove(3);
    assert_eq!(deposit(&mut c, key(CALLER), key(CALLER), key(TOKEN), 250), Err(CollateralVaultError::MismatchedTokenAccounts));
    let mut c = ctx();
    c.tokens_registry.collateral_tokens[0].1.user_cumulative_balance = u64::MAX;
    assert_eq!(deposit(&mut c, key(CALLER), key(CALLER), key(TOKEN), 1), Err(CollateralVaultError::TokenOverflowError));
    let mut c = ctx();
    c.remaining_accounts[1] = AccountState { key: balance_pda(CALLER, TOKEN).0, owner: key(9), lamports: 5, data: balance_data(1) };
    assert_eq!(deposit(&mut c, key(CALLER), key(CALLER), key(TOKEN), 1), Err(CollateralVaultError::AccountOwnedByWrongProgram));
}

#[test]
fn deposit_and_approve_sets_the_allowance() {
    let mut c = ctx();
    assert_eq!(deposit_and_approve(&mut c, vec![key(TOKEN)], vec![250], key(CONTRACT)), Ok(()));
    let allowance = &c.remaining_accounts[4];
    let mut expected = ACCOUNT_COLLATERALIZABLE_ALLOWANCE_DISCRIMINATOR.to_vec();
    expected.extend(le(250));
    expected.extend([0u8; 8]);
    assert_eq!(allowance.data, expected);
    assert_eq!(allowance.lamports, 900_000);
    assert_eq!(c.remaining_accounts[1].data, balance_data(250));
    // Balance creation, vault account, transfer, allowance creation.
    assert_eq!(c.actions.len(), 4);
    match &c.actions[3] {
        VaultAction::CreateAccount { new_account, space, .. } => {
            assert_eq!(new_account.bytes, allowance_pda(CALLER, CONTRACT, TOKEN).0.bytes);
            assert_eq!(*space, 24);
        },
        other => panic!("unexpected {:?}", other),
    }
}

#[test]
fn deposit_and_approve_refusals() {
    let mut c = ctx();
    assert_eq!(deposit_and_approve(&mut c, vec![key(TOKEN)], vec![250], key(9)), Err(CollateralVaultError::UnapprovedCollateralizableContract));
    assert_eq!(deposit_and_approve(&mut c, vec![key(8)], vec![250], key(CONTRACT)), Err(CollateralVaultError::TokenNotSupported));
    assert_eq!(
        deposit_and_approve(&mut c, vec![key(TOKEN)], vec![250, 1], key(CONTRACT)),
        Err(CollateralVaultError::MismatchedTokenAddressesAndAmountsLength)
    );
    assert!(c.actions.is_empty());
    c.tokens_registry.collateral_tokens[0].1.is_enabled = false;
    assert_eq!(only_enabled_collateral_tokens(&c, &vec![key(TOKEN)]), Err(CollateralVaultError::TokenNotAllowed));
    assert_eq!(deposit_to_account_ext(&mut c, key(CALLER), vec![key(TOKEN)], vec![1]), Err(CollateralVaultError::TokenNotAllowed));
}

#[test]
fn a_deposit_above_the_largest_i64_lowers_the_allowance() {
    assert_eq!(to_allowance_change(5), 5);
    assert_eq!(to_allowance_change(u64::MAX), -1);
    assert_eq!(to_allowance_change(1u64 << 63), i64::MIN);
    let mut c = ctx();
    c.tokens_registry.collateral_tokens[0].1.user_cumulative_balance = 0;
    assert_eq!(deposit_and_approve(&mut c, vec![key(TOKEN)], vec![u64::MAX], key(CONTRACT)), Ok(()));
    let mut expected = ACCOUNT_COLLATERALIZABLE_ALLOWANCE_DISCRIMINATOR.to_vec();
    expected.extend(le(0));
    expected.extend([0u8; 8]);
    assert_eq!(c.remaining_accounts[4].data, expected);
}

#[test]
fn deposit_to_account_credits_another_account() {
    let mut c = ctx();
    c.remaining_accounts.push(empty_account(balance_pda(CONTRACT, TOKEN).0));
    assert_eq!(deposit_to_account_ext(&mut c, key(CONTRACT), vec![key(TOKEN)], vec![40]), Ok(()));
    assert_eq!(c.remaining_accounts[5].data, balance_data(40));
    assert!(c.remaining_accounts[1].data.is_empty());
}

#[test]
fn a_refused_deposit_keeps_the_deposits_before_it() {
    let mut c = ctx();
    // The second token is enabled but its mint is not among the accounts.
    c.tokens_registry.collateral_tokens.push((key(8), CollateralToken { user_cumulative_balance: 0, is_enabled: true }));
    c.remaining_accounts.push(empty_account(balance_pda(CALLER, 8).0));
    assert_eq!(
        deposit_to_account_ext(&mut c, key(CALLER), vec![key(TOKEN), key(8)], vec![30, 40]),
        Err(CollateralVaultError::TokenMintNotFound)
    );
    assert_eq!(c.remaining_accounts[1].data, balance_data(30));
    assert_eq!(c.tokens_registry.collateral_tokens[0].1.user_cumulative_balance, 40);
    assert_eq!(c.tokens_registry.collateral_tokens[1].1.user_cumulative_balance, 0);
    assert!(c.remaining_accounts[5].data.is_empty());
    assert_eq!(c.actions.len(), 3);
}

#[test]
fn listing_a_token_twice_deposits_the_sum() {
    let mut twice = ctx();
    assert_eq!(deposit_to_account_ext(&mut twice, key(CALLER), vec![key(TOKEN), key(TOKEN)], vec![30, 40]), Ok(()));
    let mut once = ctx();
    assert_eq!(deposit_to_account_ext(&mut once, key(CALLER), vec![key(TOKEN)], vec![70]), Ok(()));
    assert_eq!(twice.remaining_accounts[1].data, balance_data(70));
    assert_eq!(twice.remaining_accounts[1].data, once.remaining_accounts[1].data);
    assert_eq!(twice.tokens_registry.collateral_tokens[0].1.user_cumulative_balance, 80);
    assert_eq!(once.tokens_registry.collateral_tokens[0].1.user_cumulative_balance, 80);
}
