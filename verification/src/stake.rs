//! The position of one staker with one endpoint, and the bucket in which
//! unstaked funds wait until they may be withdrawn.
use vstd::prelude::*;
use crate::address::Address;
use crate::error::StakingError;
use crate::MINIMUM_STAKE;

verus! {

/// The position of a staker.
#[derive(Clone, Copy, Debug, PartialEq, Eq)]
pub struct Stake {
    /// The time at which the position was opened. It is set once, at the
    /// opening, and is the only field of a new position that is not zero.
    pub creation_date: i64,
    /// The amount staked, before it is divided among the beneficiaries.
    pub total_stake: u64,
    /// The staker's address.
    pub staker: Address,
    /// The time from which the unbonding amount may be withdrawn: zero
    /// until something is unstaked.
    pub unbonding_end: i64,
    /// The amount that was unstaked and not withdrawn yet.
    pub unbonding_amount: u64,
}

impl Stake {
    /// Either nothing is staked or at least the minimum.
    pub open spec fn wf(self) -> bool {
        self.total_stake == 0 || self.total_stake >= MINIMUM_STAKE
    }

    /// The position after `amount` more is staked.
    pub open spec fn deposited(self, amount: u64) -> Result<Stake, StakingError> {
        if self.total_stake + amount < MINIMUM_STAKE {
            Err(StakingError::StakerMinimumBalanceNotMet)
        } else if self.total_stake + amount > u64::MAX {
            Err(StakingError::ArithmeticOverflow)
        } else {
            Ok(Stake { total_stake: (self.total_stake + amount) as u64, ..self })
        }
    }

    /// The position after `amount` is unstaked at the time `now`: the
    /// amount joins the unbonding bucket, and the whole bucket is locked
    /// for `unbonding_duration` from `now`.
    pub open spec fn unstaked(self, amount: u64, now: i64, unbonding_duration: u64) -> Result<
        Stake,
        StakingError,
    > {
        if amount > self.total_stake {
            Err(StakingError::StakerWithdrawingTooMuch)
        } else if amount < self.total_stake && self.total_stake - amount < MINIMUM_STAKE {
            Err(StakingError::StakerMinimumBalanceNotMet)
        } else if self.unbonding_amount + amount > u64::MAX || now + unbonding_duration
            > i64::MAX {
            Err(StakingError::ArithmeticOverflow)
        } else {
            Ok(
                Stake {
                    total_stake: (self.total_stake - amount) as u64,
                    unbonding_amount: (self.unbonding_amount + amount) as u64,
                    unbonding_end: (now + unbonding_duration) as i64,
                    ..self
                },
            )
        }
    }

    /// What a withdrawal at the time `now` pays out, and the position that
    /// it leaves: the bucket is empty, and the lock time records when it
    /// was emptied. The bucket must hold something, and the lock must
    /// have ended.
    pub open spec fn withdrawn(self, now: i64) -> Result<(Stake, u64), StakingError> {
        if self.unbonding_amount == 0 {
            Err(StakingError::WithdrawNothingtowithdraw)
        } else if now < self.unbonding_end {
            Err(StakingError::WithdrawUnbondingTimeNotOverYet)
        } else {
            Ok((Stake { unbonding_amount: 0, unbonding_end: now, ..self }, self.unbonding_amount))
        }
    }

    /// The position of `staker` as it is opened at the time `now`: nothing
    /// staked, nothing unbonding and no lock, so every amount and the lock
    /// time are zero. Only the time of the opening is recorded.
    pub open spec fn opened(staker: Address, now: i64) -> Stake {
        Stake { creation_date: now, total_stake: 0, staker, unbonding_end: 0, unbonding_amount: 0 }
    }

    /// A position opened at the time `now`, with nothing staked, nothing
    /// unbonding and a lock time of zero.
    pub fn new(staker: Address, now: i64) -> (position: Stake)
        ensures
            position == Self::opened(staker, now),
            position.total_stake == 0,
            position.unbonding_amount == 0,
            position.unbonding_end == 0,
            position.creation_date == now,
            position.staker == staker,
            position.wf(),
    {
        Stake { creation_date: now, total_stake: 0, staker, unbonding_end: 0, unbonding_amount: 0 }
    }

    /// Stakes `amount` more. The stake must reach the minimum.
    pub fn deposit(&mut self, amount: u64) -> (result: Result<(), StakingError>)
        ensures
            old(self).deposited(amount) matches Ok(position) ==> result.is_ok() && *final(self)
                == position && final(self).wf(),
            old(self).deposited(amount) matches Err(e) ==> result == Err::<(), StakingError>(e)
                && *final(self) == *old(self),
    {
        if (self.total_stake as u128) + (amount as u128) < MINIMUM_STAKE as u128 {
            return Err(StakingError::StakerMinimumBalanceNotMet);
        }
        match self.total_stake.checked_add(amount) {
            None => Err(StakingError::ArithmeticOverflow),
            Some(total) => {
                self.total_stake = total;
                Ok(())
            },
        }
    }

    /// Unstakes `amount` at the time `now`. What stays staked must be zero
    /// or reach the minimum. The amount joins the unbonding bucket, whose
    /// lock starts anew for all that is in it.
    pub fn unstake(&mut self, amount: u64, now: i64, unbonding_duration: u64) -> (result: Result<
        (),
        StakingError,
    >)
        ensures
            old(self).unstaked(amount, now, unbonding_duration) matches Ok(position)
                ==> result.is_ok() && *final(self) == position && final(self).wf(),
            old(self).unstaked(amount, now, unbonding_duration) matches Err(e) ==> result == Err::<
                (),
                StakingError,
            >(e) && *final(self) == *old(self),
    {
        if amount > self.total_stake {
            return Err(StakingError::StakerWithdrawingTooMuch);
        }
        if amount < self.total_stake && self.total_stake - amount < MINIMUM_STAKE {
            return Err(StakingError::StakerMinimumBalanceNotMet);
        }
        let unbonding_amount = match self.unbonding_amount.checked_add(amount) {
            None => { return Err(StakingError::ArithmeticOverflow); },
            Some(sum) => sum,
        };
        let end = now as i128 + unbonding_duration as i128;
        if end > i64::MAX as i128 {
            return Err(StakingError::ArithmeticOverflow);
        }
        self.total_stake = self.total_stake - amount;
        self.unbonding_amount = unbonding_amount;
        self.unbonding_end = end as i64;
        Ok(())
    }

    /// Withdraws the unbonding bucket at the time `now` and returns the
    /// amount to hand to the staker. The bucket must hold something, and
    /// its lock must have ended.
    pub fn withdraw_unbonded(&mut self, now: i64) -> (result: Result<u64, StakingError>)
        ensures
            old(self).withdrawn(now) matches Ok(done) ==> result == Ok::<u64, StakingError>(done.1)
                && *final(self) == done.0,
            old(self).withdrawn(now) matches Err(e) ==> result == Err::<u64, StakingError>(e)
                && *final(self) == *old(self),
            result matches Ok(amount) ==> amount > 0 && final(self).unbonding_amount == 0
                && final(self).total_stake == old(self).total_stake,
    {
        if self.unbonding_amount == 0 {
            return Err(StakingError::WithdrawNothingtowithdraw);
        }
        if now < self.unbonding_end {
            return Err(StakingError::WithdrawUnbondingTimeNotOverYet);
        }
        let amount = self.unbonding_amount;
        self.unbonding_amount = 0;
        self.unbonding_end = now;
        Ok(amount)
    }
}

/// Unstaking all that is staked is never refused by the minimum rule nor
/// as too much: it succeeds and leaves nothing staked whenever the
/// unbonding bucket and the end of the lock stay in range, and only
/// otherwise is it rejected, as an overflow.
pub proof fn lemma_full_unstake_allowed(position: Stake, now: i64, unbonding_duration: u64)
    ensures
        position.unstaked(position.total_stake, now, unbonding_duration).is_ok() <==> (
        position.unbonding_amount + position.total_stake <= u64::MAX && now + unbonding_duration
            <= i64::MAX),
        position.unstaked(position.total_stake, now, unbonding_duration) matches Err(e) ==> e
            == StakingError::ArithmeticOverflow,
        position.unstaked(position.total_stake, now, unbonding_duration) matches Ok(after) ==> {
            &&& after.total_stake == 0
            &&& after.unbonding_amount == position.unbonding_amount + position.total_stake
            &&& after.unbonding_end == now + unbonding_duration
        },
{
}

/// A new position has nothing to withdraw, at whatever time.
pub proof fn lemma_opened_holds_nothing(staker: Address, now: i64, later: i64)
    ensures
        Stake::opened(staker, now).unbonding_end == 0,
        Stake::opened(staker, now).unbonding_amount == 0,
        Stake::opened(staker, now).total_stake == 0,
        Stake::opened(staker, now).withdrawn(later) == Err::<(Stake, u64), StakingError>(
            StakingError::WithdrawNothingtowithdraw,
        ),
{
}

/// Right after a withdrawal there is nothing left to withdraw.
pub proof fn lemma_withdraw_once(position: Stake, now: i64, later: i64)
    requires
        position.withdrawn(now).is_ok(),
    ensures
        position.withdrawn(now).unwrap().0.withdrawn(later) == Err::<(Stake, u64), StakingError>(
            StakingError::WithdrawNothingtowithdraw,
        ),
{
}

} // verus!
