//! The pool shared by all stakers: how much is staked, how much reward one
//! staked unit has earned since the pool began, and the emission schedule
//! that feeds it.
use vstd::prelude::*;
use vstd::arithmetic::mul::lemma_mul_nonnegative;
use vstd::arithmetic::div_mod::lemma_div_pos_is_pos;
use crate::address::Address;
use crate::error::StakingError;
use crate::BASE_REWARD;
use crate::PRECISION;
use crate::SECONDS_PER_YEAR;

verus! {

/// The factor by which the emission shrinks at the end of each period.
#[derive(Clone, Copy, Debug, PartialEq, Eq, Structural)]
pub struct Decay {
    pub numerator: u64,
    pub denominator: u64,
}

impl Decay {
    /// A decay to nine tenths.
    pub open spec fn nine_tenths() -> Decay {
        Decay { numerator: 9, denominator: 10 }
    }

    /// A decay to nine tenths, the schedule that `update_rewards` follows.
    pub fn standard() -> (decay: Decay)
        ensures
            decay == Self::nine_tenths(),
    {
        Decay { numerator: 9, denominator: 10 }
    }

    /// The emission that follows `emission`, rounded down: nothing when
    /// the denominator is zero or the result does not fit.
    pub open spec fn applied(self, emission: u64) -> Option<u64> {
        if self.denominator == 0 || (emission * self.numerator) / (self.denominator as int)
            > u64::MAX {
            None
        } else {
            Some(((emission * self.numerator) / (self.denominator as int)) as u64)
        }
    }

    /// The emission of the period that follows one with `emission`.
    pub fn apply(&self, emission: u64) -> (next: Option<u64>)
        ensures
            next == self.applied(emission),
    {
        if self.denominator == 0 {
            return None;
        }
        assert(emission * self.numerator <= 0xffff_ffff_ffff_ffff * 0xffff_ffff_ffff_ffff)
            by (nonlinear_arith)
            requires
                emission <= 0xffff_ffff_ffff_ffff,
                self.numerator <= 0xffff_ffff_ffff_ffff,
        ;
        let next = (emission as u128 * self.numerator as u128) / self.denominator as u128;
        if next > u64::MAX as u128 {
            None
        } else {
            Some(next as u64)
        }
    }
}

/// The reward that one staked unit earns, scaled by `PRECISION`, while
/// `emission` per period is shared by `total_stake` for `elapsed` seconds.
/// Nothing accrues while nothing is staked.
pub open spec fn accrual(emission: u64, total_stake: u64, elapsed: int) -> int {
    if total_stake == 0 {
        0
    } else {
        (((PRECISION * emission) / (SECONDS_PER_YEAR as int)) / (total_stake as int)) * elapsed
    }
}

/// No reward is taken back as time passes.
pub proof fn lemma_accrual_nonnegative(emission: u64, total_stake: u64, elapsed: int)
    requires
        elapsed >= 0,
    ensures
        accrual(emission, total_stake, elapsed) >= 0,
{
    if total_stake != 0 {
        let product = PRECISION * emission;
        lemma_div_pos_is_pos(product, SECONDS_PER_YEAR as int);
        let per_second = product / (SECONDS_PER_YEAR as int);
        lemma_div_pos_is_pos(per_second, total_stake as int);
        lemma_mul_nonnegative(per_second / (total_stake as int), elapsed);
    }
}

/// Adds to `reward_per_share` what accrues over `elapsed` seconds.
pub fn accrue(
    reward_per_share: u128,
    emission: u64,
    total_stake: u64,
    elapsed: u128,
) -> (sum: Option<u128>)
    ensures
        sum matches Some(s) ==> s == reward_per_share + accrual(
            emission,
            total_stake,
            elapsed as int,
        ),
        sum.is_none() <==> reward_per_share + accrual(emission, total_stake, elapsed as int)
            > u128::MAX,
{
    if total_stake == 0 {
        return Some(reward_per_share);
    }
    let per_second = PRECISION * (emission as u128) / SECONDS_PER_YEAR / (total_stake as u128);
    match per_second.checked_mul(elapsed) {
        None => None,
        Some(reward) => reward_per_share.checked_add(reward),
    }
}

/// The global state of the pool.
#[derive(Clone, Copy, Debug, PartialEq, Eq)]
pub struct Settings {
    /// The token that the pool accepts.
    pub token: Address,
    /// The time, in seconds, for which unstaked funds stay locked.
    pub unbonding_duration: u64,
    /// The time at which the current emission period ends.
    pub next_emission_change: i64,
    /// The amount paid out as yield during the current period.
    pub emission: u64,
    /// The total amount staked.
    pub total_stake: u64,
    /// The yield of one staked unit since the pool began, times `PRECISION`.
    pub reward_per_share: u128,
    /// The time up to which `reward_per_share` is accounted for.
    pub last_reward: i64,
}

impl Settings {
    /// The current period does not end before the last update. A pool
    /// begins so and stays so under every update.
    pub open spec fn wf(self) -> bool {
        self.last_reward <= self.next_emission_change
    }

    /// The pool at the end of its current period: the rest of the period
    /// has accrued, the next period has begun and the emission has decayed.
    /// There is none if the period ended before the last update, or if a
    /// value leaves its range.
    pub open spec fn period_closed(self, decay: Decay) -> Option<Settings> {
        let elapsed = self.next_emission_change - self.last_reward;
        let reward_per_share = self.reward_per_share + accrual(
            self.emission,
            self.total_stake,
            elapsed,
        );
        let next = self.next_emission_change + SECONDS_PER_YEAR;
        if elapsed < 0 || reward_per_share > u128::MAX || next > i64::MAX {
            None
        } else {
            match decay.applied(self.emission) {
                None => None,
                Some(emission) => Some(
                    Settings {
                        reward_per_share: reward_per_share as u128,
                        last_reward: self.next_emission_change,
                        next_emission_change: next as i64,
                        emission,
                        ..self
                    },
                ),
            }
        }
    }

    /// The pool brought up to the time `now`: unchanged if `now` is not
    /// after the last update; else every period that has ended by `now` is
    /// closed in turn, and the time since the last period's end accrues at
    /// the emission then current. There is none if a value leaves its range
    /// on the way.
    pub open spec fn advanced(self, now: i64, decay: Decay) -> Option<Settings>
        decreases now - self.next_emission_change + SECONDS_PER_YEAR,
    {
        if now <= self.last_reward {
            Some(self)
        } else if now >= self.next_emission_change {
            match self.period_closed(decay) {
                None => None,
                Some(next) => next.advanced(now, decay),
            }
        } else {
            let reward_per_share = self.reward_per_share + accrual(
                self.emission,
                self.total_stake,
                now - self.last_reward,
            );
            if reward_per_share > u128::MAX {
                None
            } else {
                Some(Settings { reward_per_share: reward_per_share as u128, last_reward: now, ..self })
            }
        }
    }

    /// A pool that starts to pay out at `start_time`, with nothing staked
    /// yet. It is rejected if its first period would end after the last
    /// representable time.
    pub fn new(token: Address, unbonding_duration: u64, start_time: i64) -> (result: Result<
        Settings,
        StakingError,
    >)
        ensures
            result.is_ok() <==> start_time + SECONDS_PER_YEAR <= i64::MAX,
            result matches Ok(pool) ==> pool.wf() && pool == (Settings {
                token,
                unbonding_duration,
                next_emission_change: (start_time + SECONDS_PER_YEAR) as i64,
                emission: BASE_REWARD as u64,
                total_stake: 0,
                reward_per_share: 0,
                last_reward: start_time,
            }),
            result matches Err(e) ==> e == StakingError::ArithmeticOverflow,
    {
        match start_time.checked_add(SECONDS_PER_YEAR as i64) {
            None => Err(StakingError::ArithmeticOverflow),
            Some(next_emission_change) => Ok(
                Settings {
                    token,
                    unbonding_duration,
                    next_emission_change,
                    emission: BASE_REWARD as u64,
                    total_stake: 0,
                    reward_per_share: 0,
                    last_reward: start_time,
                },
            ),
        }
    }

    /// The pool at the end of its current period, if every value stays in
    /// its range.
    pub fn close_period(&self, decay: &Decay) -> (closed: Option<Settings>)
        ensures
            closed == self.period_closed(*decay),
    {
        let elapsed = self.next_emission_change as i128 - self.last_reward as i128;
        if elapsed < 0 {
            return None;
        }
        let reward_per_share = match accrue(
            self.reward_per_share,
            self.emission,
            self.total_stake,
            elapsed as u128,
        ) {
            None => { return None; },
            Some(sum) => sum,
        };
        let next_emission_change = match self.next_emission_change.checked_add(
            SECONDS_PER_YEAR as i64,
        ) {
            None => { return None; },
            Some(next) => next,
        };
        let emission = match decay.apply(self.emission) {
            None => { return None; },
            Some(emission) => emission,
        };
        Some(
            Settings {
                token: self.token,
                unbonding_duration: self.unbonding_duration,
                next_emission_change,
                emission,
                total_stake: self.total_stake,
                reward_per_share,
                last_reward: self.next_emission_change,
            },
        )
    }

    /// Brings the pool up to the time `now` under the given decay.
    ///
    /// Nothing changes when `now` is not after the last update. Otherwise
    /// the reward per share grows by what has accrued since, period by
    /// period, and the last update becomes `now`, also while nothing is
    /// staked. When a value would leave its range the pool is rejected and
    /// stays as it was.
    pub fn advance(&mut self, now: i64, decay: &Decay) -> (result: Result<(), StakingError>)
        ensures
            old(self).advanced(now, *decay) matches Some(pool) ==> result.is_ok() && *final(self)
                == pool,
            old(self).advanced(now, *decay).is_none() ==> result == Err::<(), StakingError>(
                StakingError::ArithmeticOverflow,
            ) && *final(self) == *old(self),
            now <= old(self).last_reward ==> result.is_ok() && *final(self) == *old(self),
            final(self).reward_per_share >= old(self).reward_per_share,
            final(self).last_reward >= old(self).last_reward,
            result.is_ok() && now > old(self).last_reward ==> final(self).last_reward == now,
            final(self).total_stake == old(self).total_stake,
            final(self).token == old(self).token,
            final(self).unbonding_duration == old(self).unbonding_duration,
            old(self).wf() ==> final(self).wf(),
    {
        if now <= self.last_reward {
            return Ok(());
        }
        proof {
            lemma_advanced_grows(*self, now, *decay);
            if self.wf() {
                lemma_advanced_keeps_wf(*self, now, *decay);
            }
        }
        let mut pool = *self;
        while now >= pool.next_emission_change
            invariant
                pool.advanced(now, *decay) == old(self).advanced(now, *decay),
                now > pool.last_reward || now < pool.next_emission_change,
                *self == *old(self),
            decreases now - pool.next_emission_change + SECONDS_PER_YEAR,
        {
            match pool.close_period(decay) {
                None => {
                    return Err(StakingError::ArithmeticOverflow);
                },
                Some(closed) => {
                    pool = closed;
                },
            }
        }
        if now > pool.last_reward {
            let elapsed = now as i128 - pool.last_reward as i128;
            match accrue(pool.reward_per_share, pool.emission, pool.total_stake, elapsed as u128) {
                None => {
                    return Err(StakingError::ArithmeticOverflow);
                },
                Some(sum) => {
                    pool.reward_per_share = sum;
                    pool.last_reward = now;
                },
            }
        }
        *self = pool;
        Ok(())
    }

    /// Brings the pool up to the time `now`, with the emission shrinking to
    /// nine tenths at the end of each period.
    pub fn update_rewards(&mut self, now: i64) -> (result: Result<(), StakingError>)
        ensures
            old(self).advanced(now, Decay::nine_tenths()) matches Some(pool) ==> result.is_ok()
                && *final(self) == pool,
            old(self).advanced(now, Decay::nine_tenths()).is_none() ==> result == Err::<
                (),
                StakingError,
            >(StakingError::ArithmeticOverflow) && *final(self) == *old(self),
            now <= old(self).last_reward ==> result.is_ok() && *final(self) == *old(self),
            final(self).reward_per_share >= old(self).reward_per_share,
            final(self).last_reward >= old(self).last_reward,
            result.is_ok() && now > old(self).last_reward ==> final(self).last_reward == now,
            final(self).total_stake == old(self).total_stake,
            final(self).token == old(self).token,
            final(self).unbonding_duration == old(self).unbonding_duration,
            old(self).wf() ==> final(self).wf(),
    {
        let decay = Decay::standard();
        self.advance(now, &decay)
    }
}

/// Bringing a pool up to date never lowers its reward per share nor moves
/// its last update back; it leaves the stake, the token and the unbonding
/// duration alone, and an update to a later time ends at that time.
pub proof fn lemma_advanced_grows(pool: Settings, now: i64, decay: Decay)
    ensures
        pool.advanced(now, decay) matches Some(after) ==> {
            &&& after.reward_per_share >= pool.reward_per_share
            &&& after.last_reward >= pool.last_reward
            &&& (now > pool.last_reward ==> after.last_reward == now)
            &&& after.total_stake == pool.total_stake
            &&& after.token == pool.token
            &&& after.unbonding_duration == pool.unbonding_duration
        },
    decreases now - pool.next_emission_change + SECONDS_PER_YEAR,
{
    if now <= pool.last_reward {
    } else if now >= pool.next_emission_change {
        match pool.period_closed(decay) {
            None => {},
            Some(next) => {
                lemma_accrual_nonnegative(
                    pool.emission,
                    pool.total_stake,
                    pool.next_emission_change - pool.last_reward,
                );
                lemma_advanced_grows(next, now, decay);
            },
        }
    } else {
        lemma_accrual_nonnegative(pool.emission, pool.total_stake, now - pool.last_reward);
    }
}

/// An update leaves the end of the current period at or after the last
/// update, so that the time that accrues is never negative.
pub proof fn lemma_advanced_keeps_wf(pool: Settings, now: i64, decay: Decay)
    requires
        pool.wf(),
    ensures
        pool.advanced(now, decay) matches Some(after) ==> after.wf(),
    decreases now - pool.next_emission_change + SECONDS_PER_YEAR,
{
    if now > pool.last_reward && now >= pool.next_emission_change {
        match pool.period_closed(decay) {
            None => {},
            Some(next) => {
                lemma_advanced_keeps_wf(next, now, decay);
            },
        }
    }
}

/// An update to a time that is not after the last update changes nothing.
pub proof fn lemma_advanced_idle(pool: Settings, now: i64, decay: Decay)
    requires
        now <= pool.last_reward,
    ensures
        pool.advanced(now, decay) == Some(pool),
{
}

/// The pool after one update at each of `times`, in their order. There is
/// none if one of the updates is rejected.
pub open spec fn advanced_through(pool: Settings, times: Seq<i64>, decay: Decay) -> Option<
    Settings,
>
    decreases times.len(),
{
    if times.len() == 0 {
        Some(pool)
    } else {
        match advanced_through(pool, times.drop_last(), decay) {
            None => None,
            Some(before) => before.advanced(times.last(), decay),
        }
    }
}

/// Over any sequence of updates, whatever their times and their order,
/// the reward per share never falls and the last update never moves
/// back: what holds after the first `k` updates is at most what holds
/// after all of them.
pub proof fn lemma_reward_per_share_monotonic(
    pool: Settings,
    times: Seq<i64>,
    decay: Decay,
    k: int,
)
    requires
        advanced_through(pool, times, decay).is_some(),
        0 <= k <= times.len(),
    ensures
        advanced_through(pool, times.take(k), decay).is_some(),
        advanced_through(pool, times.take(k), decay).unwrap().reward_per_share
            <= advanced_through(pool, times, decay).unwrap().reward_per_share,
        advanced_through(pool, times.take(k), decay).unwrap().last_reward <= advanced_through(
            pool,
            times,
            decay,
        ).unwrap().last_reward,
    decreases times.len(),
{
    if k == times.len() {
        assert(times.take(k) =~= times);
    } else {
        let before = advanced_through(pool, times.drop_last(), decay).unwrap();
        lemma_reward_per_share_monotonic(pool, times.drop_last(), decay, k);
        assert(times.drop_last().take(k) =~= times.take(k));
        lemma_advanced_grows(before, times.last(), decay);
    }
}

} // verus!
