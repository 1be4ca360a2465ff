use vstd::prelude::*;

use crate::pubkey::Pubkey;

verus! {

/// A token transfer that checks the mint's decimals.
#[derive(Clone, Copy, Debug)]
pub struct TokenTransfer {
    /// The token account that pays.
    pub from: Pubkey,
    /// The token account that receives.
    pub to: Pubkey,
    pub mint: Pubkey,
    /// The owner of `from`, who signs.
    pub authority: Pubkey,
    pub amount: u64,
    pub decimals: u8,
}

/// Work that an instruction hands to other programs, in the order it is to be done.
#[derive(Debug)]
pub enum VaultAction {
    /// Create `new_account` at a program derived address, funded with `lamports`
    /// by `payer`, with `space` bytes of data, owned by `owner`, signed with `seeds` (the bump seed last).
    CreateAccount { payer: Pubkey, new_account: Pubkey, lamports: u64, space: u64, owner: Pubkey, seeds: Vec<Vec<u8>> },
    /// Create the associated token account of `authority` for `mint` unless it exists.
    CreateAssociatedTokenAccount { payer: Pubkey, associated_token: Pubkey, authority: Pubkey, mint: Pubkey },
    /// Transfer tokens.
    TransferChecked(TokenTransfer),
}


/// A `VaultAction` with each key and seed as its bytes.
pub enum ActionView {
    CreateAccount { payer: Seq<u8>, new_account: Seq<u8>, lamports: u64, space: u64, owner: Seq<u8>, seeds: Seq<Seq<u8>> },
    CreateAssociatedTokenAccount { payer: Seq<u8>, associated_token: Seq<u8>, authority: Seq<u8>, mint: Seq<u8> },
    TransferChecked { from: Seq<u8>, to: Seq<u8>, mint: Seq<u8>, authority: Seq<u8>, amount: u64, decimals: u8 },
}

impl View for VaultAction {
    type V = ActionView;

    open spec fn view(&self) -> ActionView {
        match self {
            VaultAction::CreateAccount { payer, new_account, lamports, space, owner, seeds } => ActionView::CreateAccount {
                payer: payer@,
                new_account: new_account@,
                lamports: *lamports,
                space: *space,
                owner: owner@,
                seeds: seeds.deep_view(),
            },
            VaultAction::CreateAssociatedTokenAccount { payer, associated_token, authority, mint } => {
                ActionView::CreateAssociatedTokenAccount {
                    payer: payer@,
                    associated_token: associated_token@,
                    authority: authority@,
                    mint: mint@,
                }
            },
            VaultAction::TransferChecked(t) => ActionView::TransferChecked {
                from: t.from@,
                to: t.to@,
                mint: t.mint@,
                authority: t.authority@,
                amount: t.amount,
                decimals: t.decimals,
            },
        }
    }
}

/// The views of a list of actions.
pub open spec fn actions_view(actions: Seq<VaultAction>) -> Seq<ActionView> {
    actions.map_values(|a: VaultAction| a@)
}

} // verus!
