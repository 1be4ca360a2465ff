use vstd::prelude::*;

use crate::accounts::{key_views, no_duplicates, token_keys, CollateralToken, CollateralizableContracts, TokenRegistry};
use crate::errors::CollateralVaultError;
use crate::pubkey::{first_index, is_first_index, lemma_first_index_absent, lemma_first_index_is, Pubkey};

verus! {

/// Whether an administrative update adds or removes an entry.
#[derive(Clone, Copy, Debug, PartialEq, Eq, Structural)]
pub enum OpType {
    Add,
    Remove,
}

/// The accounts of the instruction that creates both registries.
pub struct SupportedTokenRegistryAndCollateralizbleContracts {
    pub admin: Pubkey,
    pub tokens_registry: TokenRegistry,
    pub collateralizable_contracts: CollateralizableContracts,
    /// The bump seed of the token registry's address.
    pub tokens_registry_bump: u8,
    /// The bump seed of the contract registry's address.
    pub collateralizable_contracts_bump: u8,
}

/// The accounts of the instruction that adds or removes a supported token.
pub struct AddOrRemoveSupportedTokens {
    pub admin: Pubkey,
    pub tokens_registry: TokenRegistry,
}

/// The accounts of the instruction that adds or removes an approved contract.
pub struct AddOrRemoveCollateralizableContract {
    pub admin: Pubkey,
    pub collateralizable_contracts: CollateralizableContracts,
}

/// The position of the first entry of `tokens` for `token`, if any.
pub fn find_token(tokens: &Vec<(Pubkey, CollateralToken)>, token: &Pubkey) -> (r: Option<usize>)
    ensures
        match r {
            Some(i) => i == first_index(token_keys(tokens@), token@),
            None => first_index(token_keys(tokens@), token@) == -1,
        },
{
    let ghost keys = token_keys(tokens@);
    let mut i: usize = 0;
    while i < tokens.len()
        invariant
            0 <= i <= tokens@.len(),
            keys == token_keys(tokens@),
            forall|j: int| 0 <= j < i ==> keys[j] != token@,
        decreases tokens@.len() - i,
    {
        if tokens[i].0.key_eq(token) {
            proof {
                lemma_first_index_is(keys, token@, i as int);
            }
            return Some(i);
        }
        i = i + 1;
    }
    proof {
        lemma_first_index_absent(keys, token@);
    }
    None
}

/// The position of the first occurrence of `key` in `keys`, if any.
pub fn find_key(keys: &Vec<Pubkey>, key: &Pubkey) -> (r: Option<usize>)
    ensures
        match r {
            Some(i) => i == first_index(key_views(keys@), key@),
            None => first_index(key_views(keys@), key@) == -1,
        },
{
    let ghost views = key_views(keys@);
    let mut i: usize = 0;
    while i < keys.len()
        invariant
            0 <= i <= keys@.len(),
            views == key_views(keys@),
            forall|j: int| 0 <= j < i ==> views[j] != key@,
        decreases keys@.len() - i,
    {
        if keys[i].key_eq(key) {
            proof {
                lemma_first_index_is(views, key@, i as int);
            }
            return Some(i);
        }
        i = i + 1;
    }
    proof {
        lemma_first_index_absent(views, key@);
    }
    None
}

/// Whether `contracts` holds `contract`.
pub fn contains_key(contracts: &Vec<Pubkey>, contract: &Pubkey) -> (b: bool)
    ensures
        b == key_views(contracts@).contains(contract@),
        b == (first_index(key_views(contracts@), contract@) != -1),
{
    proof {
        lemma_first_index_absent(key_views(contracts@), contract@);
    }
    match find_key(contracts, contract) {
        Some(i) => {
            assert(key_views(contracts@)[i as int] == contract@);
            true
        },
        None => false,
    }
}

/// Why `token` cannot be used as collateral under `tokens`, if it cannot:
/// it is not supported, or it is supported but disabled.
pub open spec fn token_enabled_error(tokens: Seq<(Pubkey, CollateralToken)>, token: Seq<u8>) -> Option<
    CollateralVaultError,
> {
    let i = first_index(token_keys(tokens), token);
    if i == -1 {
        Some(CollateralVaultError::TokenNotSupported)
    } else if !tokens[i].1.is_enabled {
        Some(CollateralVaultError::TokenNotAllowed)
    } else {
        None
    }
}

impl TokenRegistry {
    /// Checks that `token_address` is a supported and enabled collateral token.
    pub fn verify_token_enabled(&self, token_address: &Pubkey) -> (r: Result<(), CollateralVaultError>)
        ensures
            match token_enabled_error(self.collateral_tokens@, token_address@) {
                Some(e) => r == Err::<(), CollateralVaultError>(e),
                None => r is Ok,
            },
    {
        match find_token(&self.collateral_tokens, token_address) {
            Some(i) => {
                if !self.collateral_tokens[i].1.is_enabled {
                    return Err(CollateralVaultError::TokenNotAllowed);
                }
                Ok(())
            },
            None => Err(CollateralVaultError::TokenNotSupported),
        }
    }
}

/// The registry entries after adding or removing `token`: adding appends it,
/// enabled and with nothing deposited, unless it is there already; removing
/// takes out its first entry, if it has one.
pub open spec fn tokens_after_update(
    tokens: Seq<(Pubkey, CollateralToken)>,
    token: Pubkey,
    op_type: OpType,
) -> Seq<(Pubkey, CollateralToken)> {
    let i = first_index(token_keys(tokens), token@);
    match op_type {
        OpType::Add => if i == -1 {
            tokens.push((token, CollateralToken { user_cumulative_balance: 0, is_enabled: true }))
        } else {
            tokens
        },
        OpType::Remove => if i == -1 {
            tokens
        } else {
            tokens.remove(i)
        },
    }
}

/// The approved contracts after adding or removing `contract`: adding appends it
/// unless it is there already; removing moves the last contract into its place.
pub open spec fn contracts_after_update(contracts: Seq<Pubkey>, contract: Pubkey, op_type: OpType) -> Seq<
    Pubkey,
> {
    let i = first_index(key_views(contracts), contract@);
    match op_type {
        OpType::Add => if i == -1 {
            contracts.push(contract)
        } else {
            contracts
        },
        OpType::Remove => if i == -1 {
            contracts
        } else {
            contracts.update(i, contracts.last()).drop_last()
        },
    }
}

/// Creates both registries empty, with the bump seeds of their addresses and
/// the admin that creates them as their governance owner.
pub fn init_tokens_registry_and_collateralizable_contracts(
    ctx: &mut SupportedTokenRegistryAndCollateralizbleContracts,
) -> (r: Result<(), CollateralVaultError>)
    ensures
        r is Ok,
        final(ctx).tokens_registry.collateral_tokens@ == Seq::<(Pubkey, CollateralToken)>::empty(),
        final(ctx).tokens_registry.token_registry_bump == old(ctx).tokens_registry_bump,
        final(ctx).collateralizable_contracts.collaterizable_contracts@ == Seq::<Pubkey>::empty(),
        final(ctx).collateralizable_contracts.collaterizable_contracts_bump
            == old(ctx).collateralizable_contracts_bump,
        final(ctx).tokens_registry.governance == old(ctx).admin,
        final(ctx).collateralizable_contracts.governance == old(ctx).admin,
        final(ctx).admin == old(ctx).admin,
        final(ctx).tokens_registry_bump == old(ctx).tokens_registry_bump,
        final(ctx).collateralizable_contracts_bump == old(ctx).collateralizable_contracts_bump,
{
    ctx.tokens_registry.collateral_tokens = Vec::new();
    ctx.tokens_registry.token_registry_bump = ctx.tokens_registry_bump;
    ctx.collateralizable_contracts.collaterizable_contracts = Vec::new();
    ctx.collateralizable_contracts.collaterizable_contracts_bump = ctx.collateralizable_contracts_bump;
    ctx.tokens_registry.governance = ctx.admin;
    ctx.collateralizable_contracts.governance = ctx.admin;
    Ok(())
}

/// Adds `token_address` to the supported tokens, or removes it; only the
/// registry's governance owner may.
pub fn add_or_remove_supported_tokens(
    ctx: &mut AddOrRemoveSupportedTokens,
    token_address: Pubkey,
    op_type: OpType,
) -> (r: Result<(), CollateralVaultError>)
    ensures
        old(ctx).admin@ != old(ctx).tokens_registry.governance@ ==> r == Err::<(), CollateralVaultError>(
            CollateralVaultError::UnauthorizedGovernance,
        ) && final(ctx).tokens_registry.collateral_tokens@ == old(ctx).tokens_registry.collateral_tokens@,
        old(ctx).admin@ == old(ctx).tokens_registry.governance@ ==> r is Ok
            && final(ctx).tokens_registry.collateral_tokens@ == tokens_after_update(
            old(ctx).tokens_registry.collateral_tokens@,
            token_address,
            op_type,
        ),
        final(ctx).tokens_registry.token_registry_bump == old(ctx).tokens_registry.token_registry_bump,
        final(ctx).tokens_registry.governance == old(ctx).tokens_registry.governance,
        final(ctx).admin == old(ctx).admin,
{
    if !ctx.admin.key_eq(&ctx.tokens_registry.governance) {
        return Err(CollateralVaultError::UnauthorizedGovernance);
    }
    match op_type {
        OpType::Add => {
            let tokens_exist = find_token(&ctx.tokens_registry.collateral_tokens, &token_address);
            if tokens_exist.is_none() {
                ctx.tokens_registry.collateral_tokens.push(
                    (token_address, CollateralToken { user_cumulative_balance: 0, is_enabled: true }),
                );
            }
        },
        OpType::Remove => {
            let token_index = find_token(&ctx.tokens_registry.collateral_tokens, &token_address);
            if let Some(index) = token_index {
                proof {
                    lemma_first_index_absent(ctx.tokens_registry.keys(), token_address@);
                }
                ctx.tokens_registry.collateral_tokens.remove(index);
            }
        },
    }
    Ok(())
}

/// Adds `collateralizable_contract_address` to the approved contracts, or
/// removes it; only the list's governance owner may.
pub fn collateralizable_contract_add(
    ctx: &mut AddOrRemoveCollateralizableContract,
    collateralizable_contract_address: Pubkey,
    op_type: OpType,
) -> (r: Result<(), CollateralVaultError>)
    ensures
        old(ctx).admin@ != old(ctx).collateralizable_contracts.governance@ ==> r == Err::<(), CollateralVaultError>(
            CollateralVaultError::UnauthorizedGovernance,
        ) && final(ctx).collateralizable_contracts.collaterizable_contracts@
            == old(ctx).collateralizable_contracts.collaterizable_contracts@,
        old(ctx).admin@ == old(ctx).collateralizable_contracts.governance@ ==> r is Ok
            && final(ctx).collateralizable_contracts.collaterizable_contracts@ == contracts_after_update(
            old(ctx).collateralizable_contracts.collaterizable_contracts@,
            collateralizable_contract_address,
            op_type,
        ),
        final(ctx).collateralizable_contracts.collaterizable_contracts_bump
            == old(ctx).collateralizable_contracts.collaterizable_contracts_bump,
        final(ctx).collateralizable_contracts.governance == old(ctx).collateralizable_contracts.governance,
        final(ctx).admin == old(ctx).admin,
{
    if !ctx.admin.key_eq(&ctx.collateralizable_contracts.governance) {
        return Err(CollateralVaultError::UnauthorizedGovernance);
    }
    match op_type {
        OpType::Add => {
            if !contains_key(&ctx.collateralizable_contracts.collaterizable_contracts, &collateralizable_contract_address) {
                ctx.collateralizable_contracts.collaterizable_contracts.push(collateralizable_contract_address);
            }
        },
        OpType::Remove => {
            if contains_key(&ctx.collateralizable_contracts.collaterizable_contracts, &collateralizable_contract_address) {
                let index = match find_key(
                    &ctx.collateralizable_contracts.collaterizable_contracts,
                    &collateralizable_contract_address,
                ) {
                    Some(index) => index,
                    None => return Err(CollateralVaultError::CollateralizableContractNotFound),
                };
                proof {
                    lemma_first_index_absent(ctx.collateralizable_contracts.keys(), collateralizable_contract_address@);
                }
                let last = ctx.collateralizable_contracts.collaterizable_contracts.len() - 1;
                if index != last {
                    let moved = ctx.collateralizable_contracts.collaterizable_contracts[last];
                    ctx.collateralizable_contracts.collaterizable_contracts.set(index, moved);
                } else {
                    proof {
                        let s = old(ctx).collateralizable_contracts.collaterizable_contracts@;
                        assert(s.update(index as int, s.last()) =~= s);
                    }
                }
                ctx.collateralizable_contracts.collaterizable_contracts.pop();
            }
        },
    }
    Ok(())
}

/// Adding a token that was not supported and then removing it gives back the registry.
pub proof fn lemma_token_add_then_remove(tokens: Seq<(Pubkey, CollateralToken)>, token: Pubkey)
    requires
        first_index(token_keys(tokens), token@) == -1,
    ensures
        tokens_after_update(tokens_after_update(tokens, token, OpType::Add), token, OpType::Remove) == tokens,
{
    let added = tokens_after_update(tokens, token, OpType::Add);
    lemma_first_index_absent(token_keys(tokens), token@);
    assert(token_keys(added) =~= token_keys(tokens).push(token@));
    assert(is_first_index(token_keys(added), token@, tokens.len() as int));
    lemma_first_index_is(token_keys(added), token@, tokens.len() as int);
    assert(added.remove(tokens.len() as int) =~= tokens);
}

/// After adding a token, the registry supports it; after removing a token from
/// a registry without duplicates, it does not. Neither creates a duplicate.
pub proof fn lemma_token_update_membership(tokens: Seq<(Pubkey, CollateralToken)>, token: Pubkey)
    ensures
        token_keys(tokens_after_update(tokens, token, OpType::Add)).contains(token@),
        no_duplicates(token_keys(tokens)) ==> no_duplicates(
            token_keys(tokens_after_update(tokens, token, OpType::Add)),
        ),
        no_duplicates(token_keys(tokens)) ==> !token_keys(
            tokens_after_update(tokens, token, OpType::Remove),
        ).contains(token@),
        no_duplicates(token_keys(tokens)) ==> no_duplicates(
            token_keys(tokens_after_update(tokens, token, OpType::Remove)),
        ),
{
    let keys = token_keys(tokens);
    lemma_first_index_absent(keys, token@);
    let i = first_index(keys, token@);
    let added = tokens_after_update(tokens, token, OpType::Add);
    if i == -1 {
        assert(token_keys(added) =~= keys.push(token@));
        assert(token_keys(added)[tokens.len() as int] == token@);
    } else {
        assert(token_keys(added)[i] == token@);
    }
    let removed = tokens_after_update(tokens, token, OpType::Remove);
    if i != -1 {
        assert(token_keys(removed) =~= keys.remove(i));
        if no_duplicates(keys) {
            assert forall|j: int| 0 <= j < token_keys(removed).len() implies token_keys(removed)[j] != token@ by {
                if j < i {
                    assert(keys[j] != token@);
                } else {
                    assert(keys[j + 1] != keys[i]);
                }
            }
            assert forall|a: int, b: int| 0 <= a < b < token_keys(removed).len() implies token_keys(removed)[a]
                != token_keys(removed)[b] by {
                let a2 = if a < i { a } else { a + 1 };
                let b2 = if b < i { b } else { b + 1 };
                assert(keys[a2] != keys[b2]);
            }
        }
    } else {
        assert(removed == tokens);
    }
}

/// Adding a contract that was not approved and then removing it gives back the list.
pub proof fn lemma_contract_add_then_remove(contracts: Seq<Pubkey>, contract: Pubkey)
    requires
        first_index(key_views(contracts), contract@) == -1,
    ensures
        contracts_after_update(contracts_after_update(contracts, contract, OpType::Add), contract, OpType::Remove)
            == contracts,
{
    let added = contracts_after_update(contracts, contract, OpType::Add);
    lemma_first_index_absent(key_views(contracts), contract@);
    assert(key_views(added) =~= key_views(contracts).push(contract@));
    assert(is_first_index(key_views(added), contract@, contracts.len() as int));
    lemma_first_index_is(key_views(added), contract@, contracts.len() as int);
    assert(added.update(contracts.len() as int, added.last()).drop_last() =~= contracts);
}

/// After adding a contract, it is approved; after removing a contract from a list
/// without duplicates, it is not. Neither creates a duplicate.
pub proof fn lemma_contract_update_membership(contracts: Seq<Pubkey>, contract: Pubkey)
    ensures
        key_views(contracts_after_update(contracts, contract, OpType::Add)).contains(contract@),
        no_duplicates(key_views(contracts)) ==> no_duplicates(
            key_views(contracts_after_update(contracts, contract, OpType::Add)),
        ),
        no_duplicates(key_views(contracts)) ==> !key_views(
            contracts_after_update(contracts, contract, OpType::Remove),
        ).contains(contract@),
        no_duplicates(key_views(contracts)) ==> no_duplicates(
            key_views(contracts_after_update(contracts, contract, OpType::Remove)),
        ),
{
    let keys = key_views(contracts);
    lemma_first_index_absent(keys, contract@);
    let i = first_index(keys, contract@);
    let added = contracts_after_update(contracts, contract, OpType::Add);
    if i == -1 {
        assert(key_views(added) =~= keys.push(contract@));
        assert(key_views(added)[contracts.len() as int] == contract@);
    } else {
        assert(key_views(added)[i] == contract@);
    }
    let removed = contracts_after_update(contracts, contract, OpType::Remove);
    if i != -1 {
        let n = contracts.len() - 1;
        let rk = key_views(removed);
        assert(rk =~= keys.update(i, keys[n]).drop_last());
        if no_duplicates(keys) {
            assert forall|j: int| 0 <= j < rk.len() implies rk[j] != contract@ by {
                if j == i {
                    if n != i {
                        assert(keys[i] != keys[n]);
                    }
                } else {
                    if j < i {
                        assert(keys[j] != keys[i]);
                    } else {
                        assert(keys[i] != keys[j]);
                    }
                }
            }
            assert forall|a: int, b: int| 0 <= a < b < rk.len() implies rk[a] != rk[b] by {
                let a2 = if a == i { n } else { a };
                let b2 = if b == i { n } else { b };
                assert(a2 != b2);
                if a2 < b2 {
                    assert(keys[a2] != keys[b2]);
                } else {
                    assert(keys[b2] != keys[a2]);
                }
            }
        }
    } else {
        assert(removed == contracts);
    }
}


/// The change `increase` or decrease of `amount` as a signed number.
pub open spec fn signed_change(increase: bool, amount: u64) -> int {
    if increase {
        amount as int
    } else {
        -(amount as int)
    }
}

/// Why the cumulative balance of `token` cannot change by `delta`, if it cannot:
/// it would leave the range of a `u64`. A token without an entry has none to change.
pub open spec fn cumulative_error(tokens: Seq<(Pubkey, CollateralToken)>, token: Seq<u8>, delta: int) -> Option<
    CollateralVaultError,
> {
    let i = first_index(token_keys(tokens), token);
    if i != -1 && !(0 <= tokens[i].1.user_cumulative_balance + delta <= u64::MAX) {
        Some(CollateralVaultError::TokenOverflowError)
    } else {
        None
    }
}

/// The registry entries once the cumulative balance of the first entry of
/// `token`, if any, changed by `delta`.
pub open spec fn cumulative_after(tokens: Seq<(Pubkey, CollateralToken)>, token: Seq<u8>, delta: int) -> Seq<
    (Pubkey, CollateralToken),
> {
    let i = first_index(token_keys(tokens), token);
    if i == -1 {
        tokens
    } else {
        tokens.update(
            i,
            (
                tokens[i].0,
                CollateralToken {
                    user_cumulative_balance: (tokens[i].1.user_cumulative_balance + delta) as u64,
                    is_enabled: tokens[i].1.is_enabled,
                },
            ),
        )
    }
}

/// Works out the change of the cumulative balance of `token` without making it:
/// the entry to change and its new balance, or `None` when `token` has no entry.
pub(crate) fn plan_cumulative_change(
    tokens: &Vec<(Pubkey, CollateralToken)>,
    token: &Pubkey,
    increase: bool,
    amount: u64,
) -> (r: Result<Option<(usize, u64)>, CollateralVaultError>)
    ensures
        match cumulative_error(tokens@, token@, signed_change(increase, amount)) {
            Some(e) => r == Err::<Option<(usize, u64)>, CollateralVaultError>(e),
            None => r matches Ok(plan) && planned_change(tokens@, token@, signed_change(increase, amount), plan),
        },
{
    match find_token(tokens, token) {
        None => Ok(None),
        Some(i) => {
            let current = tokens[i].1.user_cumulative_balance;
            if increase {
                if current > u64::MAX - amount {
                    return Err(CollateralVaultError::TokenOverflowError);
                }
                Ok(Some((i, current + amount)))
            } else {
                if current < amount {
                    return Err(CollateralVaultError::TokenOverflowError);
                }
                Ok(Some((i, current - amount)))
            }
        },
    }
}

/// `plan` makes the change of the cumulative balance of `token` by `delta`.
pub open spec fn planned_change(
    tokens: Seq<(Pubkey, CollateralToken)>,
    token: Seq<u8>,
    delta: int,
    plan: Option<(usize, u64)>,
) -> bool {
    match plan {
        None => first_index(token_keys(tokens), token) == -1,
        Some((i, v)) => i == first_index(token_keys(tokens), token) && v == tokens[i as int].1.user_cumulative_balance
            + delta && i < tokens.len(),
    }
}

/// Makes a change of a cumulative balance that `plan_cumulative_change` worked out.
pub(crate) fn apply_cumulative_change(
    tokens: &mut Vec<(Pubkey, CollateralToken)>,
    plan: Option<(usize, u64)>,
    Ghost(token): Ghost<Seq<u8>>,
    Ghost(delta): Ghost<int>,
)
    requires
        planned_change(old(tokens)@, token, delta, plan),
    ensures
        final(tokens)@ == cumulative_after(old(tokens)@, token, delta),
{
    match plan {
        None => {},
        Some((i, v)) => {
            let (key, entry) = tokens[i];
            tokens.set(i, (key, CollateralToken { user_cumulative_balance: v, is_enabled: entry.is_enabled }));
        },
    }
}

} // verus!
