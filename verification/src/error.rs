//! The reasons for which the library rejects a request.
use vstd::prelude::*;

verus! {

/// Why a request was rejected. Each reason has a code, counted from zero in
/// the order of declaration.
#[derive(Clone, Copy, Debug, PartialEq, Eq, Structural)]
pub enum StakingError {
    /// The authority did not sign.
    MissingAuthoritySignature,
    /// The program was initialized before.
    ProgramAlreadyInitialized,
    /// The program was not initialized yet.
    ProgramNotInitialized,
    /// The settings account is not the expected one.
    InvalidSettingsAccount,
    /// The reward pool account is not the expected one.
    InvalidRewardPoolAccount,
    /// The pool authority account is not the expected one.
    InvalidPoolAuthorityAccount,
    /// The token is not a valid token mint.
    TokenNotSPLToken,
    /// The owner given as an NFT is not a valid NFT mint.
    NFTOwnerNotNFT,
    /// The endpoint account exists already.
    EndpointAccountAlreadyExists,
    /// The stake account is not the expected one.
    InvalidStakeAccount,
    /// The stake fund account is not the expected one.
    InvalidStakeFundAccount,
    /// The endpoint account is not a valid one.
    InvalidEndpointAccount,
    /// The staker did not sign.
    MissingStakeSignature,
    /// The token account belongs to another owner.
    AssociatedInvalidOwner,
    /// The token account holds another token.
    AssociatedInvalidToken,
    /// The token account cannot be read.
    AssociatedInvalidAccount,
    /// The stake account cannot be read.
    StakerInvalidStakeAccount,
    /// The staker cannot cover the amount to stake.
    StakerBalanceTooLow,
    /// The stake would end up between zero and the minimum.
    StakerMinimumBalanceNotMet,
    /// More is unstaked than is staked.
    StakerWithdrawingTooMuch,
    /// Nothing is unbonding.
    WithdrawNothingtowithdraw,
    /// The unbonding time has not passed yet.
    WithdrawUnbondingTimeNotOverYet,
    /// The beneficiary account is not the expected one.
    InvalidBeneficiaryAccount,
    /// The token is not the one the pool accepts.
    InvalidToken,
    /// The primary beneficiary has no authority.
    PrimaryAuthorityCannotBeEmpty,
    /// The authority has no key.
    InvalidAuthorityType,
    /// The authority's key is not that of the account.
    AuthorityKeysDoNotMatch,
    /// The secondary authority's key is not that of the account.
    SecondaryAuthorityKeysDoNotMatch,
    /// A checked computation left the range of its integer type.
    ArithmeticOverflow,
}

impl StakingError {
    /// The number of reasons.
    pub const COUNT: u32 = 29;

    /// The code of this reason.
    pub open spec fn code_of(self) -> nat {
        match self {
            StakingError::MissingAuthoritySignature => 0,
            StakingError::ProgramAlreadyInitialized => 1,
            StakingError::ProgramNotInitialized => 2,
            StakingError::InvalidSettingsAccount => 3,
            StakingError::InvalidRewardPoolAccount => 4,
            StakingError::InvalidPoolAuthorityAccount => 5,
            StakingError::TokenNotSPLToken => 6,
            StakingError::NFTOwnerNotNFT => 7,
            StakingError::EndpointAccountAlreadyExists => 8,
            StakingError::InvalidStakeAccount => 9,
            StakingError::InvalidStakeFundAccount => 10,
            StakingError::InvalidEndpointAccount => 11,
            StakingError::MissingStakeSignature => 12,
            StakingError::AssociatedInvalidOwner => 13,
            StakingError::AssociatedInvalidToken => 14,
            StakingError::AssociatedInvalidAccount => 15,
            StakingError::StakerInvalidStakeAccount => 16,
            StakingError::StakerBalanceTooLow => 17,
            StakingError::StakerMinimumBalanceNotMet => 18,
            StakingError::StakerWithdrawingTooMuch => 19,
            StakingError::WithdrawNothingtowithdraw => 20,
            StakingError::WithdrawUnbondingTimeNotOverYet => 21,
            StakingError::InvalidBeneficiaryAccount => 22,
            StakingError::InvalidToken => 23,
            StakingError::PrimaryAuthorityCannotBeEmpty => 24,
            StakingError::InvalidAuthorityType => 25,
            StakingError::AuthorityKeysDoNotMatch => 26,
            StakingError::SecondaryAuthorityKeysDoNotMatch => 27,
            StakingError::ArithmeticOverflow => 28,
        }
    }

    /// The code under which the host sees this reason.
    pub fn code(&self) -> (code: u32)
        ensures
            code == self.code_of(),
            code < Self::COUNT,
    {
        match self {
            StakingError::MissingAuthoritySignature => 0,
            StakingError::ProgramAlreadyInitialized => 1,
            StakingError::ProgramNotInitialized => 2,
            StakingError::InvalidSettingsAccount => 3,
            StakingError::InvalidRewardPoolAccount => 4,
            StakingError::InvalidPoolAuthorityAccount => 5,
            StakingError::TokenNotSPLToken => 6,
            StakingError::NFTOwnerNotNFT => 7,
            StakingError::EndpointAccountAlreadyExists => 8,
            StakingError::InvalidStakeAccount => 9,
            StakingError::InvalidStakeFundAccount => 10,
            StakingError::InvalidEndpointAccount => 11,
            StakingError::MissingStakeSignature => 12,
            StakingError::AssociatedInvalidOwner => 13,
            StakingError::AssociatedInvalidToken => 14,
            StakingError::AssociatedInvalidAccount => 15,
            StakingError::StakerInvalidStakeAccount => 16,
            StakingError::StakerBalanceTooLow => 17,
            StakingError::StakerMinimumBalanceNotMet => 18,
            StakingError::StakerWithdrawingTooMuch => 19,
            StakingError::WithdrawNothingtowithdraw => 20,
            StakingError::WithdrawUnbondingTimeNotOverYet => 21,
            StakingError::InvalidBeneficiaryAccount => 22,
            StakingError::InvalidToken => 23,
            StakingError::PrimaryAuthorityCannotBeEmpty => 24,
            StakingError::InvalidAuthorityType => 25,
            StakingError::AuthorityKeysDoNotMatch => 26,
            StakingError::SecondaryAuthorityKeysDoNotMatch => 27,
            StakingError::ArithmeticOverflow => 28,
        }
    }

    /// The reason with the given code, if there is one.
    pub fn from_code(code: u32) -> (reason: Option<StakingError>)
        ensures
            reason.is_some() <==> code < Self::COUNT,
            reason matches Some(e) ==> e.code_of() == code,
    {
        match code {
            0 => Some(StakingError::MissingAuthoritySignature),
            1 => Some(StakingError::ProgramAlreadyInitialized),
            2 => Some(StakingError::ProgramNotInitialized),
            3 => Some(StakingError::InvalidSettingsAccount),
            4 => Some(StakingError::InvalidRewardPoolAccount),
            5 => Some(StakingError::InvalidPoolAuthorityAccount),
            6 => Some(StakingError::TokenNotSPLToken),
            7 => Some(StakingError::NFTOwnerNotNFT),
            8 => Some(StakingError::EndpointAccountAlreadyExists),
            9 => Some(StakingError::InvalidStakeAccount),
            10 => Some(StakingError::InvalidStakeFundAccount),
            11 => Some(StakingError::InvalidEndpointAccount),
            12 => Some(StakingError::MissingStakeSignature),
            13 => Some(StakingError::AssociatedInvalidOwner),
            14 => Some(StakingError::AssociatedInvalidToken),
            15 => Some(StakingError::AssociatedInvalidAccount),
            16 => Some(StakingError::StakerInvalidStakeAccount),
            17 => Some(StakingError::StakerBalanceTooLow),
            18 => Some(StakingError::StakerMinimumBalanceNotMet),
            19 => Some(StakingError::StakerWithdrawingTooMuch),
            20 => Some(StakingError::WithdrawNothingtowithdraw),
            21 => Some(StakingError::WithdrawUnbondingTimeNotOverYet),
            22 => Some(StakingError::InvalidBeneficiaryAccount),
            23 => Some(StakingError::InvalidToken),
            24 => Some(StakingError::PrimaryAuthorityCannotBeEmpty),
            25 => Some(StakingError::InvalidAuthorityType),
            26 => Some(StakingError::AuthorityKeysDoNotMatch),
            27 => Some(StakingError::SecondaryAuthorityKeysDoNotMatch),
            28 => Some(StakingError::ArithmeticOverflow),
            _ => None,
        }
    }
}

/// Different reasons have different codes.
pub proof fn lemma_codes_distinct(a: StakingError, b: StakingError)
    requires
        a.code_of() == b.code_of(),
    ensures
        a == b,
{
}

} // verus!
