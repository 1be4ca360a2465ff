use vstd::prelude::*;

pub mod errors;
pub mod pricing;
pub mod pubkey;
pub mod accounts;
pub mod registry;
pub mod collateral;
pub mod actions;
pub mod withdraws;
pub mod solana;
pub mod deposits;
pub mod collateral_vault;
