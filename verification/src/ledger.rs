//! What the host ledger and its token program compute for the library:
//! derived addresses, and the contents of token mints and token accounts.
//!
//! The three functions at the end call the outside crates. Their contracts
//! are taken on trust; all they say is that the result depends on the
//! arguments alone.
use vstd::prelude::*;
use vstd::string::StrSliceExecFns;
use vstd::string::StringSliceAdditionalSpecFns;
use vstd::slice::slice_to_vec;
use solana_program::program_pack::Pack;
use solana_program::pubkey::Pubkey;
use spl_token::state::Account;
use spl_token::state::Mint;
use crate::address::Address;
use crate::error::StakingError;

verus! {

/// The address that the ledger derives for a program from a list of seeds,
/// and the bump seed that it had to append, if it finds one.
pub uninterp spec fn derived_address(seeds: Seq<Seq<u8>>, program_id: Seq<u8>) -> Option<
    (Seq<u8>, u8),
>;

/// What the token program reads from the data of a mint: the mint
/// authority if there is one, the supply, the decimals, and whether the
/// mint is initialized. Nothing if the data are no initialized mint.
pub uninterp spec fn unpacked_mint(data: Seq<u8>) -> Option<(Option<Seq<u8>>, u64, u8, bool)>;

/// What the token program reads from the data of a token account: its
/// mint, its owner and the amount it holds. Nothing if the data are no
/// initialized token account.
pub uninterp spec fn unpacked_account(data: Seq<u8>) -> Option<(Seq<u8>, Seq<u8>, u64)>;

/// What the logic reads of a token mint.
#[derive(Clone, Copy, Debug, PartialEq, Eq)]
pub struct MintInfo {
    pub mint_authority: Option<Address>,
    pub supply: u64,
    pub decimals: u8,
    pub is_initialized: bool,
}

impl MintInfo {
    /// The mint as plain values.
    pub open spec fn plain(self) -> (Option<Seq<u8>>, u64, u8, bool) {
        (
            match self.mint_authority {
                Some(authority) => Some(authority@),
                None => None,
            },
            self.supply,
            self.decimals,
            self.is_initialized,
        )
    }
}

/// What the logic reads of a token account.
#[derive(Clone, Copy, Debug, PartialEq, Eq)]
pub struct TokenAccount {
    pub mint: Address,
    pub owner: Address,
    pub amount: u64,
}

impl TokenAccount {
    /// The account as plain values.
    pub open spec fn plain(self) -> (Seq<u8>, Seq<u8>, u64) {
        (self.mint@, self.owner@, self.amount)
    }
}

/// An optional mint as plain values.
pub open spec fn mint_plain(mint: Option<MintInfo>) -> Option<(Option<Seq<u8>>, u64, u8, bool)> {
    match mint {
        Some(mint) => Some(mint.plain()),
        None => None,
    }
}

/// An optional token account as plain values.
pub open spec fn account_plain(account: Option<TokenAccount>) -> Option<(Seq<u8>, Seq<u8>, u64)> {
    match account {
        Some(account) => Some(account.plain()),
        None => None,
    }
}

/// An optional address with its bump seed as plain values.
pub open spec fn found_plain(found: Option<(Address, u8)>) -> Option<(Seq<u8>, u8)> {
    match found {
        Some((address, bump)) => Some((address@, bump)),
        None => None,
    }
}

/// The seeds of a derived address: a tag, then the bytes of each key.
pub open spec fn seeds_of(tag: Seq<u8>, keys: Seq<Address>) -> Seq<Seq<u8>> {
    seq![tag] + Seq::new(keys.len(), |i: int| keys[i]@)
}

/// The bytes of each seed.
pub open spec fn seed_bytes(seeds: Seq<Vec<u8>>) -> Seq<Seq<u8>> {
    Seq::new(seeds.len(), |i: int| seeds[i]@)
}

/// The bump seed of a derived address, provided that the address is the
/// one given.
pub open spec fn matched(found: Option<(Seq<u8>, u8)>, address: Seq<u8>, mismatch: StakingError)
    -> Result<u8, StakingError> {
    match found {
        Some((derived, bump)) if derived == address => Ok(bump),
        _ => Err(mismatch),
    }
}

/// Checks a derived address against the address of an account: returns
/// the bump seed if they are equal, and `mismatch` if they are not or
/// nothing was derived.
pub fn match_address(
    found: Option<(Address, u8)>,
    address: &Address,
    mismatch: StakingError,
) -> (result: Result<u8, StakingError>)
    ensures
        result == matched(found_plain(found), address@, mismatch),
{
    match found {
        Some((derived, bump)) => {
            if derived.same(address) {
                Ok(bump)
            } else {
                Err(mismatch)
            }
        },
        None => Err(mismatch),
    }
}

/// The address derived for the program from `tag` and `keys`.
pub fn derive_address(tag: &str, keys: &Vec<Address>, program_id: &Address) -> (found: Option<
    (Address, u8),
>)
    ensures
        found_plain(found) == derived_address(seeds_of(tag.spec_bytes(), keys@), program_id@),
{
    let mut seeds: Vec<Vec<u8>> = Vec::new();
    seeds.push(tag.as_bytes_vec());
    let mut i: usize = 0;
    while i < keys.len()
        invariant
            i <= keys@.len(),
            seeds@.len() == i + 1,
            seeds@[0]@ == tag.spec_bytes(),
            forall|j: int| 0 <= j < i ==> (#[trigger] seeds@[j + 1])@ == keys@[j]@,
        decreases keys@.len() - i,
    {
        seeds.push(slice_to_vec(keys[i].bytes.as_slice()));
        i += 1;
    }
    assert(seed_bytes(seeds@) =~= seeds_of(tag.spec_bytes(), keys@)) by {
        assert forall|j: int| 0 <= j < seeds@.len() implies seed_bytes(seeds@)[j] == seeds_of(
            tag.spec_bytes(),
            keys@,
        )[j] by {
            if j > 0 {
                assert(seeds@[(j - 1) + 1]@ == keys@[j - 1]@);
            }
        }
    }
    find_program_address(&seeds, program_id)
}

/// Calls `Pubkey::try_find_program_address` of `solana_program`, which
/// hashes the seeds, a bump seed and the program's address until the hash
/// is no point of the curve. The contract claims only that the outcome is
/// a function of the seeds and the program's address.
#[verifier::external_body]
pub(crate) fn find_program_address(seeds: &Vec<Vec<u8>>, program_id: &Address) -> (found: Option<
    (Address, u8),
>)
    ensures
        found_plain(found) == derived_address(seed_bytes(seeds@), program_id@),
{
    let parts: Vec<&[u8]> = seeds.iter().map(|seed| seed.as_slice()).collect();
    let program = Pubkey::new_from_array(program_id.bytes);
    Pubkey::try_find_program_address(&parts, &program).map(
        |(key, bump)| (Address { bytes: key.to_bytes() }, bump),
    )
}

/// Calls `Mint::unpack` of `spl_token`, which reads the fixed layout of a
/// mint and rejects data of another length, with an invalid field or not
/// initialized. The contract claims only that the outcome is a function
/// of the data.
#[verifier::external_body]
pub(crate) fn unpack_mint(data: &[u8]) -> (mint: Option<MintInfo>)
    ensures
        mint_plain(mint) == unpacked_mint(data@),
{
    match Mint::unpack(data) {
        Ok(mint) => Some(
            MintInfo {
                mint_authority: Option::from(mint.mint_authority).map(
                    |key: Pubkey| Address { bytes: key.to_bytes() },
                ),
                supply: mint.supply,
                decimals: mint.decimals,
                is_initialized: mint.is_initialized,
            },
        ),
        Err(_) => None,
    }
}

/// Calls `Account::unpack` of `spl_token`, which reads the fixed layout of
/// a token account and rejects data of another length, with an invalid
/// field or not initialized. The contract claims only that the outcome is
/// a function of the data.
#[verifier::external_body]
pub(crate) fn unpack_account(data: &[u8]) -> (account: Option<TokenAccount>)
    ensures
        account_plain(account) == unpacked_account(data@),
{
    match Account::unpack(data) {
        Ok(account) => Some(
            TokenAccount {
                mint: Address { bytes: account.mint.to_bytes() },
                owner: Address { bytes: account.owner.to_bytes() },
                amount: account.amount,
            },
        ),
        Err(_) => None,
    }
}

} // verus!
