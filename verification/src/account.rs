//! The accounts of the program: where each one lives, who may speak for
//! an endpoint, and what makes a token account or an NFT mint acceptable.
use vstd::prelude::*;
use vstd::string::StringSliceAdditionalSpecFns;
use crate::address::Address;
use crate::error::StakingError;
use crate::ledger::account_plain;
use crate::ledger::derive_address;
use crate::ledger::derived_address;
use crate::ledger::found_plain;
use crate::ledger::match_address;
use crate::ledger::matched;
use crate::ledger::mint_plain;
use crate::ledger::seeds_of;
use crate::ledger::unpack_account;
use crate::ledger::unpack_mint;
use crate::ledger::unpacked_account;
use crate::ledger::unpacked_mint;
use crate::ledger::MintInfo;
use crate::ledger::TokenAccount;

pub use crate::beneficiary::Beneficiary;
pub use crate::pool::Settings;
pub use crate::stake::Stake;

verus! {

/// The owner of the reward pool's token account.
#[derive(Clone, Copy, Debug, PartialEq, Eq)]
pub struct PoolAuthority {}

/// The token account that pays out yield.
#[derive(Clone, Copy, Debug, PartialEq, Eq)]
pub struct RewardPool {}

impl Settings {
    /// The seeds of the settings account.
    pub open spec fn seeds() -> Seq<Seq<u8>> {
        seeds_of("settings".spec_bytes(), Seq::empty())
    }

    /// The address of the settings account and its bump seed.
    pub fn program_address(program_id: &Address) -> (found: Option<(Address, u8)>)
        ensures
            found_plain(found) == derived_address(Self::seeds(), program_id@),
    {
        let keys: Vec<Address> = Vec::new();
        assert(keys@ =~= Seq::<Address>::empty());
        derive_address("settings", &keys, program_id)
    }

    /// The bump seed of the settings account if `address` is its address,
    /// else `InvalidSettingsAccount`.
    pub fn verify_program_address(address: &Address, program_id: &Address) -> (result: Result<
        u8,
        StakingError,
    >)
        ensures
            result == matched(
                derived_address(Self::seeds(), program_id@),
                address@,
                StakingError::InvalidSettingsAccount,
            ),
    {
        match_address(
            Self::program_address(program_id),
            address,
            StakingError::InvalidSettingsAccount,
        )
    }
}

impl PoolAuthority {
    /// The seeds of the pool authority.
    pub open spec fn seeds() -> Seq<Seq<u8>> {
        seeds_of("poolauthority".spec_bytes(), Seq::empty())
    }

    /// The address of the pool authority and its bump seed.
    pub fn program_address(program_id: &Address) -> (found: Option<(Address, u8)>)
        ensures
            found_plain(found) == derived_address(Self::seeds(), program_id@),
    {
        let keys: Vec<Address> = Vec::new();
        assert(keys@ =~= Seq::<Address>::empty());
        derive_address("poolauthority", &keys, program_id)
    }

    /// The bump seed of the pool authority if `address` is its address,
    /// else `InvalidPoolAuthorityAccount`.
    pub fn verify_program_address(address: &Address, program_id: &Address) -> (result: Result<
        u8,
        StakingError,
    >)
        ensures
            result == matched(
                derived_address(Self::seeds(), program_id@),
                address@,
                StakingError::InvalidPoolAuthorityAccount,
            ),
    {
        match_address(
            Self::program_address(program_id),
            address,
            StakingError::InvalidPoolAuthorityAccount,
        )
    }
}

impl RewardPool {
    /// The seeds of the reward pool.
    pub open spec fn seeds() -> Seq<Seq<u8>> {
        seeds_of("rewardpool".spec_bytes(), Seq::empty())
    }

    /// The address of the reward pool and its bump seed.
    pub fn program_address(program_id: &Address) -> (found: Option<(Address, u8)>)
        ensures
            found_plain(found) == derived_address(Self::seeds(), program_id@),
    {
        let keys: Vec<Address> = Vec::new();
        assert(keys@ =~= Seq::<Address>::empty());
        derive_address("rewardpool", &keys, program_id)
    }

    /// The bump seed of the reward pool if `address` is its address, else
    /// `InvalidRewardPoolAccount`.
    pub fn verify_program_address(address: &Address, program_id: &Address) -> (result: Result<
        u8,
        StakingError,
    >)
        ensures
            result == matched(
                derived_address(Self::seeds(), program_id@),
                address@,
                StakingError::InvalidRewardPoolAccount,
            ),
    {
        match_address(
            Self::program_address(program_id),
            address,
            StakingError::InvalidRewardPoolAccount,
        )
    }
}

impl Beneficiary {
    /// The seeds of the record of `authority`.
    pub open spec fn seeds(authority: Address) -> Seq<Seq<u8>> {
        seeds_of("beneficiary".spec_bytes(), seq![authority])
    }

    /// The address of the record of `authority` and its bump seed.
    pub fn program_address(authority: &Address, program_id: &Address) -> (found: Option<
        (Address, u8),
    >)
        ensures
            found_plain(found) == derived_address(Self::seeds(*authority), program_id@),
    {
        let mut keys: Vec<Address> = Vec::new();
        keys.push(*authority);
        assert(keys@ =~= seq![*authority]);
        derive_address("beneficiary", &keys, program_id)
    }

    /// The bump seed of the record of `authority` if `address` is its
    /// address, else `InvalidBeneficiaryAccount`.
    pub fn verify_program_address(
        address: &Address,
        authority: &Address,
        program_id: &Address,
    ) -> (result: Result<u8, StakingError>)
        ensures
            result == matched(
                derived_address(Self::seeds(*authority), program_id@),
                address@,
                StakingError::InvalidBeneficiaryAccount,
            ),
    {
        match_address(
            Self::program_address(authority, program_id),
            address,
            StakingError::InvalidBeneficiaryAccount,
        )
    }
}

impl Stake {
    /// The seeds of the fund that holds what `staker` staked with
    /// `endpoint`.
    pub open spec fn fund_seeds(endpoint: Address, staker: Address) -> Seq<Seq<u8>> {
        seeds_of("stake fund".spec_bytes(), seq![endpoint, staker])
    }

    /// The seeds of the position of `staker` with `endpoint`.
    pub open spec fn seeds(endpoint: Address, staker: Address) -> Seq<Seq<u8>> {
        seeds_of("stake".spec_bytes(), seq![endpoint, staker])
    }

    /// The address of the staker's fund and its bump seed.
    pub fn fund_address(
        endpoint: &Address,
        staker: &Address,
        program_id: &Address,
    ) -> (found: Option<(Address, u8)>)
        ensures
            found_plain(found) == derived_address(
                Self::fund_seeds(*endpoint, *staker),
                program_id@,
            ),
    {
        let mut keys: Vec<Address> = Vec::new();
        keys.push(*endpoint);
        keys.push(*staker);
        assert(keys@ =~= seq![*endpoint, *staker]);
        derive_address("stake fund", &keys, program_id)
    }

    /// The bump seed of the staker's fund if `address` is its address,
    /// else `InvalidStakeFundAccount`.
    pub fn verify_fund_address(
        address: &Address,
        endpoint: &Address,
        staker: &Address,
        program_id: &Address,
    ) -> (result: Result<u8, StakingError>)
        ensures
            result == matched(
                derived_address(Self::fund_seeds(*endpoint, *staker), program_id@),
                address@,
                StakingError::InvalidStakeFundAccount,
            ),
    {
        match_address(
            Self::fund_address(endpoint, staker, program_id),
            address,
            StakingError::InvalidStakeFundAccount,
        )
    }

    /// The address of the staker's position and its bump seed.
    pub fn program_address(
        endpoint: &Address,
        staker: &Address,
        program_id: &Address,
    ) -> (found: Option<(Address, u8)>)
        ensures
            found_plain(found) == derived_address(Self::seeds(*endpoint, *staker), program_id@),
    {
        let mut keys: Vec<Address> = Vec::new();
        keys.push(*endpoint);
        keys.push(*staker);
        assert(keys@ =~= seq![*endpoint, *staker]);
        derive_address("stake", &keys, program_id)
    }

    /// The bump seed of the staker's position if `address` is its address,
    /// else `InvalidStakeAccount`.
    pub fn verify_program_address(
        address: &Address,
        endpoint: &Address,
        staker: &Address,
        program_id: &Address,
    ) -> (result: Result<u8, StakingError>)
        ensures
            result == matched(
                derived_address(Self::seeds(*endpoint, *staker), program_id@),
                address@,
                StakingError::InvalidStakeAccount,
            ),
    {
        match_address(
            Self::program_address(endpoint, staker, program_id),
            address,
            StakingError::InvalidStakeAccount,
        )
    }
}

/// Whether what was read of a mint is an NFT: an initialized mint with a
/// supply of one, no decimals and no mint authority.
pub open spec fn nft_accepted(mint: Option<(Option<Seq<u8>>, u64, u8, bool)>) -> bool {
    mint matches Some((authority, supply, decimals, initialized)) && initialized && decimals == 0
        && supply == 1 && authority.is_none()
}

/// Accepts what was read of a mint if it is an NFT, and rejects anything
/// else, also the lack of a mint, with `NFTOwnerNotNFT`.
pub fn check_nft_mint(mint: Option<MintInfo>) -> (result: Result<MintInfo, StakingError>)
    ensures
        result.is_ok() <==> nft_accepted(mint_plain(mint)),
        result matches Ok(accepted) ==> mint == Some(accepted),
        result matches Err(e) ==> e == StakingError::NFTOwnerNotNFT,
{
    match mint {
        Some(mint) => {
            if !mint.is_initialized {
                Err(StakingError::NFTOwnerNotNFT)
            } else if mint.decimals != 0 {
                Err(StakingError::NFTOwnerNotNFT)
            } else if mint.supply != 1 {
                Err(StakingError::NFTOwnerNotNFT)
            } else if mint.mint_authority.is_some() {
                Err(StakingError::NFTOwnerNotNFT)
            } else {
                Ok(mint)
            }
        },
        None => Err(StakingError::NFTOwnerNotNFT),
    }
}

/// Reads the data of an account as a mint and accepts it if it is an NFT.
pub fn is_nft_mint(data: &[u8]) -> (result: Result<MintInfo, StakingError>)
    ensures
        result.is_ok() <==> nft_accepted(unpacked_mint(data@)),
        result matches Ok(accepted) ==> Some(accepted.plain()) == unpacked_mint(data@),
        result matches Err(e) ==> e == StakingError::NFTOwnerNotNFT,
{
    check_nft_mint(unpack_mint(data))
}

/// What the check of a token account against a token and, if one is
/// given, an owner comes to.
pub open spec fn associated(
    account: Option<(Seq<u8>, Seq<u8>, u64)>,
    token: Seq<u8>,
    owner: Option<Seq<u8>>,
) -> Result<(Seq<u8>, Seq<u8>, u64), StakingError> {
    match account {
        None => Err(StakingError::AssociatedInvalidAccount),
        Some(account) => if account.0 != token {
            Err(StakingError::AssociatedInvalidToken)
        } else if owner.is_some() && account.1 != owner.unwrap() {
            Err(StakingError::AssociatedInvalidOwner)
        } else {
            Ok(account)
        },
    }
}

/// An optional address as plain bytes.
pub open spec fn key_plain(key: Option<Address>) -> Option<Seq<u8>> {
    match key {
        Some(key) => Some(key@),
        None => None,
    }
}

/// Checks what was read of a token account: it must exist, hold the token
/// `token` and, if an owner is given, belong to that owner.
pub fn check_associated(
    account: Option<TokenAccount>,
    token: &Address,
    owner: Option<Address>,
) -> (result: Result<TokenAccount, StakingError>)
    ensures
        result.is_ok() <==> associated(account_plain(account), token@, key_plain(owner)).is_ok(),
        result matches Ok(accepted) ==> account == Some(accepted),
        result matches Err(e) ==> associated(account_plain(account), token@, key_plain(owner))
            == Err::<(Seq<u8>, Seq<u8>, u64), StakingError>(e),
{
    match account {
        None => Err(StakingError::AssociatedInvalidAccount),
        Some(account) => {
            if !account.mint.same(token) {
                return Err(StakingError::AssociatedInvalidToken);
            }
            match owner {
                Some(owner) => {
                    if !account.owner.same(&owner) {
                        return Err(StakingError::AssociatedInvalidOwner);
                    }
                },
                None => {},
            }
            Ok(account)
        },
    }
}

/// Reads the data of an account as a token account and checks that it
/// holds the token `token` and, if an owner is given, belongs to it.
pub fn verify_associated(data: &[u8], token: &Address, owner: Option<Address>) -> (result: Result<
    TokenAccount,
    StakingError,
>)
    ensures
        result matches Ok(accepted) ==> associated(
            unpacked_account(data@),
            token@,
            key_plain(owner),
        ) == Ok::<(Seq<u8>, Seq<u8>, u64), StakingError>(accepted.plain()),
        result matches Err(e) ==> associated(unpacked_account(data@), token@, key_plain(owner))
            == Err::<(Seq<u8>, Seq<u8>, u64), StakingError>(e),
{
    check_associated(unpack_account(data), token, owner)
}

/// Who owns an endpoint. A basic authority is a wallet that signs for
/// itself. An NFT authority is a mint: whoever holds its one token owns
/// the endpoint.
#[derive(Clone, Copy, Debug, PartialEq, Eq)]
pub enum Authority {
    /// An address that can sign.
    Basic(Address),
    /// The mint of an NFT whose holder signs.
    NFT(Address),
}

impl Authority {
    /// The address that the authority names.
    pub open spec fn key(self) -> Address {
        match self {
            Authority::Basic(key) => key,
            Authority::NFT(key) => key,
        }
    }

    /// What the check of an account against the authority comes to, given
    /// the account's address and what was read of its data as a mint. The
    /// authority must name an address, and that of the account; an NFT
    /// authority also needs the account to be an NFT mint.
    pub open spec fn verified(
        self,
        account: Seq<u8>,
        mint: Option<(Option<Seq<u8>>, u64, u8, bool)>,
    ) -> Result<(), StakingError> {
        if self.key()@ == Address::zero_bytes() {
            Err(StakingError::InvalidAuthorityType)
        } else if self.key()@ != account {
            Err(StakingError::AuthorityKeysDoNotMatch)
        } else if self is NFT && !nft_accepted(mint) {
            Err(StakingError::NFTOwnerNotNFT)
        } else {
            Ok(())
        }
    }

    /// Whether the owner account and the signer speak for the authority,
    /// given what was read of the owner account's data as a token account.
    /// For a basic authority the owner and the signer are the authority
    /// itself. For an NFT authority the owner account is a token account
    /// that holds the one token of the mint and belongs to the signer.
    pub open spec fn signed(
        self,
        owner: Seq<u8>,
        held: Option<(Seq<u8>, Seq<u8>, u64)>,
        signer: Seq<u8>,
        is_signer: bool,
    ) -> bool {
        match self {
            Authority::Basic(key) => key@ == owner && owner == signer && is_signer,
            Authority::NFT(mint) => held matches Some((held_mint, held_owner, amount))
                && held_mint == mint@ && amount == 1 && held_owner == signer && is_signer,
        }
    }

    /// Checks an account against the authority, given the account's
    /// address and what was read of its data as a mint.
    pub fn verify_mint(&self, account: &Address, mint: Option<MintInfo>) -> (result: Result<
        (),
        StakingError,
    >)
        ensures
            result == self.verified(account@, mint_plain(mint)),
    {
        match self {
            Authority::Basic(key) => {
                if key.is_zero() {
                    Err(StakingError::InvalidAuthorityType)
                } else if !key.same(account) {
                    Err(StakingError::AuthorityKeysDoNotMatch)
                } else {
                    Ok(())
                }
            },
            Authority::NFT(key) => {
                if key.is_zero() {
                    Err(StakingError::InvalidAuthorityType)
                } else if !key.same(account) {
                    Err(StakingError::AuthorityKeysDoNotMatch)
                } else {
                    match check_nft_mint(mint) {
                        Ok(_) => Ok(()),
                        Err(e) => Err(e),
                    }
                }
            },
        }
    }

    /// Verifies that an account, given by its address and its data,
    /// matches the authority's type.
    pub fn verify(&self, account: &Address, data: &[u8]) -> (result: Result<(), StakingError>)
        ensures
            result == self.verified(account@, unpacked_mint(data@)),
    {
        match self {
            Authority::Basic(_) => self.verify_mint(account, None),
            Authority::NFT(_) => self.verify_mint(account, unpack_mint(data)),
        }
    }

    /// Whether the owner account and the signer speak for the authority,
    /// given what was read of the owner account's data as a token account.
    pub fn has_signed_account(
        &self,
        owner: &Address,
        held: Option<TokenAccount>,
        signer: &Address,
        is_signer: bool,
    ) -> (signed: bool)
        ensures
            signed == self.signed(owner@, account_plain(held), signer@, is_signer),
    {
        match self {
            Authority::Basic(key) => key.same(owner) && owner.same(signer) && is_signer,
            Authority::NFT(mint) => match held {
                Some(held) => held.mint.same(mint) && held.amount == 1 && held.owner.same(signer)
                    && is_signer,
                None => false,
            },
        }
    }

    /// Verifies that the owner account, given by its address and its data,
    /// and the signer provided a valid signature for the authority.
    pub fn has_signed(
        &self,
        owner: &Address,
        data: &[u8],
        signer: &Address,
        is_signer: bool,
    ) -> (signed: bool)
        ensures
            signed == self.signed(owner@, unpacked_account(data@), signer@, is_signer),
    {
        match self {
            Authority::Basic(_) => self.has_signed_account(owner, None, signer, is_signer),
            Authority::NFT(_) => self.has_signed_account(
                owner,
                unpack_account(data),
                signer,
                is_signer,
            ),
        }
    }
}

/// The entity that stakers stake against to share yield.
#[derive(Clone, Copy, Debug, PartialEq, Eq)]
pub struct Endpoint {
    /// The time at which the endpoint was registered.
    pub creation_date: i64,
    /// The total amount staked with the endpoint.
    pub total_stake: u64,
    /// The owner of the endpoint.
    pub owner: Authority,
    /// The authority of the primary beneficiary.
    pub primary: Address,
    /// The authority of the secondary beneficiary.
    pub secondary: Address,
}

impl Endpoint {
    /// An endpoint registered at the time `now`, with nothing staked.
    pub fn new(
        now: i64,
        owner: Authority,
        primary: Address,
        secondary: Address,
    ) -> (endpoint: Endpoint)
        ensures
            endpoint == (Endpoint { creation_date: now, total_stake: 0, owner, primary, secondary }),
    {
        Endpoint { creation_date: now, total_stake: 0, owner, primary, secondary }
    }
}

} // verus!
