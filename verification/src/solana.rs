use vstd::prelude::*;

use anchor_lang::solana_program::program_pack::Pack;

use crate::errors::CollateralVaultError;
use crate::pubkey::Pubkey;

verus! {

/// The program derived address of `program_id` for `seeds`, with its bump seed,
/// as Solana's `Pubkey::try_find_program_address` computes it; `None` when no
/// bump seed gives an address off the curve, or the seeds are too many or too long.
pub uninterp spec fn program_address(seeds: Seq<Seq<u8>>, program_id: Seq<u8>) -> Option<(Seq<u8>, u8)>;

/// The address of the classic token program,
/// `TokenkegQfeZyiNwAJbNbGKPFXCWuBvf9Ss623VQ5DA`.
pub const TOKEN_PROGRAM_ID: [u8; 32] = [
    6, 221, 246, 225, 215, 101, 161, 147, 217, 203, 225, 70, 206, 235, 121, 172, 28, 180, 133, 237, 95, 91, 55, 145,
    58, 140, 245, 133, 126, 255, 0, 169,
];

/// The address of the associated token account program,
/// `ATokenGPvbdGVxr1b2hvZbsiqW5xWH25efTNsLJA8knL`.
pub const ASSOCIATED_TOKEN_PROGRAM_ID: [u8; 32] = [
    140, 151, 37, 143, 78, 36, 137, 241, 187, 61, 16, 41, 20, 142, 13, 131, 11, 90, 19, 153, 218, 255, 16, 132, 4,
    142, 123, 216, 219, 233, 248, 89,
];

/// The seeds of the associated token account of `wallet` for `mint`: the wallet,
/// the classic token program and the mint.
pub open spec fn associated_token_seeds(wallet: Seq<u8>, mint: Seq<u8>) -> Seq<Seq<u8>> {
    seq![wallet, TOKEN_PROGRAM_ID@, mint]
}

/// The associated token account of `wallet` for `mint` under the classic token
/// program, with its bump seed: the program derived address of the associated
/// token account program for its seeds; `None` when there is none.
pub open spec fn associated_token_lookup(wallet: Seq<u8>, mint: Seq<u8>) -> Option<(Seq<u8>, u8)> {
    program_address(associated_token_seeds(wallet, mint), ASSOCIATED_TOKEN_PROGRAM_ID@)
}

/// Whether the 4-byte option tag at `at` in `data` reads as `None` (0) or `Some` (1).
pub open spec fn option_tag_valid(data: Seq<u8>, at: int) -> bool {
    &&& data[at] == 0 || data[at] == 1
    &&& data[at + 1] == 0
    &&& data[at + 2] == 0
    &&& data[at + 3] == 0
}

/// Why `data` is not an initialized token mint, if it is not: a mint is 82 bytes,
/// its two authorities are optional keys with a 4-byte tag (at 0 and at 46), and
/// its initialized flag (at 45) is 0 or 1, and must be 1.
pub open spec fn mint_data_error(data: Seq<u8>) -> Option<CollateralVaultError> {
    if data.len() != 82 || !option_tag_valid(data, 0) || data[45] > 1 || !option_tag_valid(data, 46) {
        Some(CollateralVaultError::InvalidAccountData)
    } else if data[45] == 0 {
        Some(CollateralVaultError::UninitializedAccount)
    } else {
        None
    }
}

/// Calls `Pubkey::try_find_program_address` of `solana_program`.
///
/// Claims: the result is the name `program_address` of the seeds and the program
/// id, a function of them alone.
#[verifier::external_body]
pub(crate) fn find_program_address(seeds: &Vec<Vec<u8>>, program_id: &Pubkey) -> (r: Option<(Pubkey, u8)>)
    ensures
        match r {
            Some((key, bump)) => program_address(seeds.deep_view(), program_id@) == Some((key@, bump)),
            None => program_address(seeds.deep_view(), program_id@) is None,
        },
{
    let seed_slices: Vec<&[u8]> = seeds.iter().map(|s| s.as_slice()).collect();
    let program = anchor_lang::prelude::Pubkey::new_from_array(program_id.bytes);
    match anchor_lang::prelude::Pubkey::try_find_program_address(&seed_slices, &program) {
        Some((key, bump)) => Some((Pubkey { bytes: key.to_bytes() }, bump)),
        None => None,
    }
}

/// Calls `get_associated_token_address` of `spl_associated_token_account`
/// (through `anchor_spl::associated_token`).
///
/// Claims, as its source shows: the result is the address that
/// `Pubkey::find_program_address` gives for the seeds wallet, classic token
/// program and mint under the associated token account program. That function
/// panics where `try_find_program_address` finds no address, so such inputs are
/// left out.
#[verifier::external_body]
pub(crate) fn get_associated_token_address(wallet: &Pubkey, mint: &Pubkey) -> (r: Pubkey)
    requires
        associated_token_lookup(wallet@, mint@) is Some,
    ensures
        r@ == associated_token_lookup(wallet@, mint@)->Some_0.0,
{
    let wallet = anchor_lang::prelude::Pubkey::new_from_array(wallet.bytes);
    let mint = anchor_lang::prelude::Pubkey::new_from_array(mint.bytes);
    let ata = anchor_spl::associated_token::get_associated_token_address(&wallet, &mint);
    Pubkey { bytes: ata.to_bytes() }
}

/// Calls `Mint::unpack` of `spl_token` (through `anchor_spl::token`) and keeps
/// the mint's decimals.
///
/// Claims, as the source of `Mint::unpack_from_slice` and `Pack::unpack` shows:
/// the data is refused with `InvalidAccountData` unless it is 82 bytes with valid
/// option tags and an initialized flag of 0 or 1, and with `UninitializedAccount`
/// when that flag is 0; otherwise the decimals are the byte at 44.
#[verifier::external_body]
pub(crate) fn unpack_mint_decimals(data: &Vec<u8>) -> (r: Result<u8, CollateralVaultError>)
    ensures
        match mint_data_error(data@) {
            Some(e) => r == Err::<u8, CollateralVaultError>(e),
            None => r == Ok::<u8, CollateralVaultError>(data@[44]),
        },
{
    match anchor_spl::token::spl_token::state::Mint::unpack(data.as_slice()) {
        Ok(mint) => Ok(mint.decimals),
        Err(anchor_lang::solana_program::program_error::ProgramError::UninitializedAccount) => {
            Err(CollateralVaultError::UninitializedAccount)
        },
        Err(_) => Err(CollateralVaultError::InvalidAccountData),
    }
}

} // verus!
