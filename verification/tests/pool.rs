use staking::account::Settings;
use staking::address::Address;
use staking::error::StakingError;
use staking::pool::accrue;
use staking::pool::Decay;
use staking::BASE_REWARD;
use staking::PRECISION;
use staking::SECONDS_PER_YEAR;

fn base_pool() -> Settings {
    Settings {
        token: Address::new([7; 32]),
        unbonding_duration: 0,

        next_emission_change: SECONDS_PER_YEAR as i64,
        emission: BASE_REWARD as u64,

        reward_per_share: 0,
        last_reward: 0,
        total_stake: 1, // makes math easier,
    }
}

#[test]
pub fn test_settings_update_rewards() {
    let base = base_pool();

    let mut previous: Vec<Settings> = vec![];
    let breakpoints: Vec<(u128, u128)> = vec![
        (0, 0),
        (1, PRECISION * BASE_REWARD / SECONDS_PER_YEAR), // one second
        (86400, PRECISION * BASE_REWARD / SECONDS_PER_YEAR * 86400), // one day
        (
            SECONDS_PER_YEAR - 1,
            PRECISION * BASE_REWARD / SECONDS_PER_YEAR * (SECONDS_PER_YEAR - 1),
        ),
        (
            SECONDS_PER_YEAR,
            PRECISION * BASE_REWARD / SECONDS_PER_YEAR * SECONDS_PER_YEAR,
        ),
        (
            SECONDS_PER_YEAR + 1,
            PRECISION * BASE_REWARD / SECONDS_PER_YEAR * SECONDS_PER_YEAR
                + PRECISION * (BASE_REWARD * 9 / 10) / SECONDS_PER_YEAR,
        ),
        (
            SECONDS_PER_YEAR + 2,
            PRECISION * BASE_REWARD / SECONDS_PER_YEAR * SECONDS_PER_YEAR
                + PRECISION * (BASE_REWARD * 9 / 10) / SECONDS_PER_YEAR * 2,
        ),
        (
            SECONDS_PER_YEAR * 2,
            PRECISION * BASE_REWARD / SECONDS_PER_YEAR * SECONDS_PER_YEAR
                + PRECISION * (BASE_REWARD * 9 / 10) / SECONDS_PER_YEAR * SECONDS_PER_YEAR,
        ),
        (
            SECONDS_PER_YEAR * 3,
            PRECISION * BASE_REWARD / SECONDS_PER_YEAR * SECONDS_PER_YEAR
                + PRECISION * (BASE_REWARD * 9 / 10) / SECONDS_PER_YEAR * SECONDS_PER_YEAR
                + PRECISION * (BASE_REWARD * 9 / 10 * 9 / 10) / SECONDS_PER_YEAR
                    * SECONDS_PER_YEAR,
        ),
        (
            SECONDS_PER_YEAR * 3 + 1,
            PRECISION
                .checked_mul(BASE_REWARD)
                .unwrap()
                .checked_div(SECONDS_PER_YEAR)
                .unwrap()
                .checked_mul(SECONDS_PER_YEAR)
                .unwrap()
                + PRECISION * (BASE_REWARD * 9 / 10) / SECONDS_PER_YEAR * SECONDS_PER_YEAR
                + PRECISION * (BASE_REWARD * 9 / 10 * 9 / 10) / SECONDS_PER_YEAR
                    * SECONDS_PER_YEAR
                + PRECISION * (BASE_REWARD * 9 / 10 * 9 / 10 * 9 / 10) / SECONDS_PER_YEAR,
        ),
    ];

    for (secs, rps) in breakpoints {
        let mut settings = base.clone();

        settings.update_rewards(secs as i64).unwrap();
        assert_eq!(rps, settings.reward_per_share);

        previous.iter_mut().all(|prev| {
            prev.update_rewards(secs as i64).unwrap();
            prev.reward_per_share == rps
        });

        previous.push(settings);
    }
}

#[test]
fn update_in_steps_matches_breakpoints() {
    let mut pool = base_pool();
    let year = SECONDS_PER_YEAR as i64;
    let per_second_first = PRECISION * BASE_REWARD / SECONDS_PER_YEAR;
    let per_second_second = PRECISION * (BASE_REWARD * 9 / 10) / SECONDS_PER_YEAR;
    pool.update_rewards(86_400).unwrap();
    assert_eq!(pool.reward_per_share, per_second_first * 86_400);
    pool.update_rewards(year + 2).unwrap();
    assert_eq!(
        pool.reward_per_share,
        per_second_first * SECONDS_PER_YEAR + per_second_second * 2
    );
    assert_eq!(pool.last_reward, year + 2);
    assert_eq!(pool.next_emission_change, 2 * year);
    assert_eq!(pool.emission, 810_000_000_000);
}

#[test]
fn one_full_period_then_decay_by_three_quarters() {
    let mut pool = base_pool();
    let decay = Decay { numerator: 3, denominator: 4 };
    pool.advance(SECONDS_PER_YEAR as i64, &decay).unwrap();
    assert_eq!(
        pool.reward_per_share,
        PRECISION * 900_000_000_000 / 31_536_000 * 31_536_000
    );
    assert_eq!(pool.reward_per_share, 28_538_812_785_388_127 * 31_536_000);
    assert_eq!(pool.emission, 675_000_000_000);
    assert_eq!(pool.last_reward, 31_536_000);
    assert_eq!(pool.next_emission_change, 2 * 31_536_000);
    pool.advance(31_536_000 + 10, &decay).unwrap();
    assert_eq!(
        pool.reward_per_share,
        28_538_812_785_388_127 * 31_536_000 + PRECISION * 675_000_000_000 / 31_536_000 * 10
    );
}

#[test]
fn advance_before_last_update_changes_nothing() {
    let mut pool = base_pool();
    pool.update_rewards(500).unwrap();
    let snapshot = pool;
    pool.update_rewards(500).unwrap();
    assert_eq!(pool, snapshot);
    pool.update_rewards(499).unwrap();
    assert_eq!(pool, snapshot);
    pool.update_rewards(i64::MIN).unwrap();
    assert_eq!(pool, snapshot);
    pool.advance(0, &Decay { numerator: 1, denominator: 0 }).unwrap();
    assert_eq!(pool, snapshot);
}

#[test]
fn reward_per_share_never_falls() {
    let mut pool = base_pool();
    pool.total_stake = 12_345;
    let mut last = pool.reward_per_share;
    let mut last_time = pool.last_reward;
    for now in [5i64, 3, 100, 100, 31_536_000, 31_535_000, 70_000_000, 1, 200_000_000] {
        pool.update_rewards(now).unwrap();
        assert!(pool.reward_per_share >= last);
        assert!(pool.last_reward >= last_time);
        last = pool.reward_per_share;
        last_time = pool.last_reward;
    }
}

#[test]
fn nothing_accrues_while_nothing_is_staked() {
    let mut pool = base_pool();
    pool.total_stake = 0;
    pool.update_rewards(3 * SECONDS_PER_YEAR as i64 + 5).unwrap();
    assert_eq!(pool.reward_per_share, 0);
    assert_eq!(pool.last_reward, 3 * SECONDS_PER_YEAR as i64 + 5);
    assert_eq!(pool.emission, 656_100_000_000);
    assert_eq!(pool.next_emission_change, 4 * SECONDS_PER_YEAR as i64);
    pool.total_stake = 1;
    pool.update_rewards(3 * SECONDS_PER_YEAR as i64 + 6).unwrap();
    assert_eq!(
        pool.reward_per_share,
        PRECISION * 656_100_000_000 / SECONDS_PER_YEAR
    );
}

#[test]
fn overflow_rejects_and_keeps_the_pool() {
    let mut pool = base_pool();
    pool.reward_per_share = u128::MAX - 5;
    let snapshot = pool;
    assert_eq!(pool.update_rewards(10), Err(StakingError::ArithmeticOverflow));
    assert_eq!(pool, snapshot);

    let mut late = base_pool();
    late.last_reward = i64::MAX - 10;
    late.next_emission_change = i64::MAX - 5;
    let snapshot = late;
    assert_eq!(late.update_rewards(i64::MAX), Err(StakingError::ArithmeticOverflow));
    assert_eq!(late, snapshot);

    let mut odd = base_pool();
    odd.last_reward = 100;
    odd.next_emission_change = 50;
    assert_eq!(odd.update_rewards(200), Err(StakingError::ArithmeticOverflow));

    let mut pool = base_pool();
    assert_eq!(
        pool.advance(SECONDS_PER_YEAR as i64, &Decay { numerator: 1, denominator: 0 }),
        Err(StakingError::ArithmeticOverflow)
    );
    assert_eq!(pool, base_pool());
}

#[test]
fn close_period_moves_to_the_next_period() {
    let mut pool = base_pool();
    pool.update_rewards(1_000).unwrap();
    let closed = pool.close_period(&Decay::standard()).unwrap();
    assert_eq!(closed.last_reward, SECONDS_PER_YEAR as i64);
    assert_eq!(closed.next_emission_change, 2 * SECONDS_PER_YEAR as i64);
    assert_eq!(closed.emission, 810_000_000_000);
    assert_eq!(
        closed.reward_per_share,
        PRECISION * BASE_REWARD / SECONDS_PER_YEAR * SECONDS_PER_YEAR
    );
    assert_eq!(Decay::standard(), Decay { numerator: 9, denominator: 10 });
    assert_eq!(Decay { numerator: 3, denominator: 4 }.apply(1_001), Some(750));
    assert_eq!(Decay { numerator: 3, denominator: 0 }.apply(1_001), None);
    assert_eq!(Decay { numerator: u64::MAX, denominator: 1 }.apply(2), None);
}

#[test]
fn accrue_exact_values() {
    assert_eq!(accrue(5, 900_000_000_000, 1, 1), Some(5 + 28_538_812_785_388_127));
    assert_eq!(accrue(0, 900_000_000_000, 3, 10), Some(9_512_937_595_129_375 * 10));
    assert_eq!(accrue(77, 900_000_000_000, 0, 10), Some(77));
    assert_eq!(accrue(u128::MAX, 900_000_000_000, 1, 1), None);
    assert_eq!(accrue(0, u64::MAX, 1, u128::MAX), None);
    assert_eq!(accrue(0, 0, 1, u128::MAX), Some(0));
}

#[test]
fn new_pool_starts_with_base_reward() {
    let pool = Settings::new(Address::new([3; 32]), 864_000, 1_000).unwrap();
    assert_eq!(pool.token, Address::new([3; 32]));
    assert_eq!(pool.unbonding_duration, 864_000);
    assert_eq!(pool.next_emission_change, 1_000 + 31_536_000);
    assert_eq!(pool.emission, 900_000_000_000);
    assert_eq!(pool.reward_per_share, 0);
    assert_eq!(pool.last_reward, 1_000);
    assert_eq!(pool.total_stake, 0);
    assert_eq!(
        Settings::new(Address::zero(), 0, i64::MAX - 31_535_999),
        Err(StakingError::ArithmeticOverflow)
    );
    assert!(Settings::new(Address::zero(), 0, i64::MAX - 31_536_000).is_ok());
}
