use staking::account::Beneficiary;
use staking::address::Address;
use staking::error::StakingError;
use staking::fixed::Payout;
use staking::PRECISION;

fn record(staked: u64, reward_debt: u64, holding: u64) -> Beneficiary {
    Beneficiary { authority: Address::new([9; 32]), staked, reward_debt, holding }
}

#[test]
fn holding_value_is_truncated() {
    assert_eq!(record(3, 0, 0).calculate_holding(PRECISION / 2), Ok(1));
    assert_eq!(record(1, 0, 0).calculate_holding(PRECISION - 1), Ok(0));
    assert_eq!(record(1_000, 0, 0).calculate_holding(2_500_000_000_000), Ok(2_500));
    assert_eq!(record(0, 0, 0).calculate_holding(u128::MAX), Ok(0));
    assert_eq!(
        record(7, 0, 0).calculate_payout(PRECISION / 2),
        Ok(Payout { whole: 3, remainder: 500_000_000_000 })
    );
}

#[test]
fn holding_value_overflow_is_rejected() {
    assert_eq!(
        record(2, 0, 0).calculate_holding(u128::MAX),
        Err(StakingError::ArithmeticOverflow)
    );
    assert_eq!(
        record(u64::MAX, 0, 0).calculate_holding(2 * PRECISION),
        Err(StakingError::ArithmeticOverflow)
    );
    assert_eq!(record(u64::MAX, 0, 0).calculate_holding(PRECISION), Ok(u64::MAX));
}

#[test]
fn pay_out_moves_pending_reward_to_holding() {
    let mut b = record(1_000, 100, 7);
    b.pay_out(400, 3 * PRECISION / 2).unwrap();
    assert_eq!(b, record(400, 600, 7 + 1_500 - 100));
}

#[test]
fn pay_out_twice_yields_nothing_more() {
    let mut b = record(1_000, 100, 7);
    let rps = 3 * PRECISION / 2 + 12_345;
    b.pay_out(400, rps).unwrap();
    let once = b;
    b.pay_out(400, rps).unwrap();
    assert_eq!(b, once);
    b.pay_out(400, rps).unwrap();
    assert_eq!(b, once);
}

#[test]
fn pay_out_rejections_keep_the_record() {
    let mut behind = record(1_000, 2_000, 0);
    assert_eq!(behind.pay_out(1_000, PRECISION), Err(StakingError::ArithmeticOverflow));
    assert_eq!(behind, record(1_000, 2_000, 0));

    let mut full = record(1_000, 0, u64::MAX);
    assert_eq!(full.pay_out(1_000, PRECISION), Err(StakingError::ArithmeticOverflow));
    assert_eq!(full, record(1_000, 0, u64::MAX));

    let mut big = record(1, 0, 0);
    assert_eq!(big.pay_out(u64::MAX, 2 * PRECISION), Err(StakingError::ArithmeticOverflow));
    assert_eq!(big, record(1, 0, 0));
}

#[test]
fn new_record_is_empty_of_value() {
    let b = Beneficiary::new(Address::new([4; 32]));
    assert_eq!(b.staked, 0);
    assert_eq!(b.reward_debt, 0);
    assert_eq!(b.holding, 0);
    assert!(!b.is_empty());
    assert!(Beneficiary::new(Address::zero()).is_empty());
    let mut c = record(5, 6, 7);
    assert_eq!(c.take_holding(), 7);
    assert_eq!(c, record(5, 6, 0));
}

#[test]
fn payout_scaled_round_trip() {
    for scaled in [0u128, 1, 999_999_999_999, PRECISION, PRECISION + 1, 123_456_789_012_345_678] {
        let p = Payout::from_scaled(scaled).unwrap();
        assert_eq!(p.whole as u128, scaled / PRECISION);
        assert_eq!(p.remainder as u128, scaled % PRECISION);
        assert_eq!(p.to_scaled(), scaled);
        assert_eq!(Payout::from_scaled(p.to_scaled()), Ok(p));
    }
    assert_eq!(Payout::new(42), Payout { whole: 42, remainder: 0 });
    assert_eq!(Payout::new(42).to_scaled(), 42 * PRECISION);
    assert_eq!(
        Payout::from_scaled((u64::MAX as u128 + 1) * PRECISION),
        Err(StakingError::ArithmeticOverflow)
    );
    assert!(Payout::from_scaled((u64::MAX as u128) * PRECISION + PRECISION - 1).is_ok());
}

#[test]
fn payout_multiplied_and_divided_back() {
    let p = Payout { whole: 10, remainder: 250_000_000_000 };
    assert_eq!(p.checked_mul(3).unwrap().checked_div(3), Ok(p));
    assert_eq!(p.checked_mul(3), Ok(Payout { whole: 30, remainder: 750_000_000_000 }));
    assert_eq!(Payout::new(12).checked_div(4).unwrap().checked_mul(4), Ok(Payout::new(12)));
    assert_eq!(Payout::new(10).checked_div(4), Ok(Payout { whole: 2, remainder: 500_000_000_000 }));
    assert_eq!(Payout::new(10).checked_div(4).unwrap().checked_mul(4), Ok(Payout::new(10)));
    // a third of one unit is not a multiple of the smallest fraction
    let third = Payout::new(1).checked_div(3).unwrap();
    assert_eq!(third, Payout { whole: 0, remainder: 333_333_333_333 });
    assert_eq!(third.checked_mul(3), Ok(Payout { whole: 0, remainder: 999_999_999_999 }));
    assert_eq!(p.checked_div(0), Err(StakingError::ArithmeticOverflow));
    assert_eq!(Payout::new(u64::MAX).checked_mul(2), Err(StakingError::ArithmeticOverflow));
    assert_eq!(Payout::new(u64::MAX).checked_mul(u64::MAX), Err(StakingError::ArithmeticOverflow));
}

#[test]
fn payout_sum_carries_the_remainder() {
    let a = Payout { whole: 1, remainder: 600_000_000_000 };
    let b = Payout { whole: 2, remainder: 700_000_000_000 };
    assert_eq!(a.checked_add(&b), Ok(Payout { whole: 4, remainder: 300_000_000_000 }));
    assert_eq!(
        Payout::new(u64::MAX).checked_add(&Payout::new(1)),
        Err(StakingError::ArithmeticOverflow)
    );
    let mut c = a;
    assert_eq!(c.take_whole(), 1);
    assert_eq!(c, Payout { whole: 0, remainder: 600_000_000_000 });
}
