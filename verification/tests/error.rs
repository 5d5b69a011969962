use staking::error::StakingError;

#[test]
fn codes_count_from_zero() {
    assert_eq!(StakingError::MissingAuthoritySignature.code(), 0);
    assert_eq!(StakingError::ProgramNotInitialized.code(), 2);
    assert_eq!(StakingError::NFTOwnerNotNFT.code(), 7);
    assert_eq!(StakingError::StakerBalanceTooLow.code(), 17);
    assert_eq!(StakingError::WithdrawUnbondingTimeNotOverYet.code(), 21);
    assert_eq!(StakingError::SecondaryAuthorityKeysDoNotMatch.code(), 27);
    assert_eq!(StakingError::ArithmeticOverflow.code(), 28);
    assert_eq!(StakingError::COUNT, 29);
}

#[test]
fn codes_round_trip() {
    for code in 0..StakingError::COUNT {
        let reason = StakingError::from_code(code).unwrap();
        assert_eq!(reason.code(), code);
    }
    assert_eq!(StakingError::from_code(29), None);
    assert_eq!(StakingError::from_code(u32::MAX), None);
    assert_eq!(StakingError::from_code(19), Some(StakingError::StakerWithdrawingTooMuch));
}
