//! The record of one principal that earns yield: its share of the stake,
//! the value of that share at the last settlement, and the reward that was
//! realized but not handed out yet.
use vstd::prelude::*;
use crate::address::Address;
use crate::error::StakingError;
use crate::fixed::Payout;
use crate::PRECISION;

verus! {

/// What `staked` units have earned since the pool began, in whole units,
/// at the pool's `reward_per_share`. There is none if the product leaves
/// 128 bits or the whole units leave 64 bits.
pub open spec fn holding_value(staked: u64, reward_per_share: u128) -> Option<u64> {
    if staked * reward_per_share > u128::MAX || (staked * reward_per_share) / (PRECISION as int)
        > u64::MAX {
        None
    } else {
        Some(((staked * reward_per_share) / (PRECISION as int)) as u64)
    }
}

/// A principal that receives yield for the amount staked in its name.
#[derive(Clone, Copy, Debug, PartialEq, Eq)]
pub struct Beneficiary {
    /// The authority that owns the record.
    pub authority: Address,
    /// The amount staked for the beneficiary.
    pub staked: u64,
    /// The holding value of `staked` at the last settlement.
    pub reward_debt: u64,
    /// The reward that was realized but not transferred yet.
    pub holding: u64,
}

impl Beneficiary {
    /// The reward that has accrued since the last settlement. There is none
    /// if the holding value cannot be computed or lies below the debt,
    /// which happens only if the pool was not brought up to date first.
    pub open spec fn pending(self, reward_per_share: u128) -> Option<u64> {
        match holding_value(self.staked, reward_per_share) {
            Some(owed) if owed >= self.reward_debt => Some((owed - self.reward_debt) as u64),
            _ => None,
        }
    }

    /// The record after a settlement that leaves `new_stake` staked: the
    /// pending reward has moved to the holding and the debt is the holding
    /// value of the new stake. There is none if a value leaves its range.
    pub open spec fn settled(self, new_stake: u64, reward_per_share: u128) -> Option<Beneficiary> {
        match (self.pending(reward_per_share), holding_value(new_stake, reward_per_share)) {
            (Some(pending), Some(debt)) if self.holding + pending <= u64::MAX => Some(
                Beneficiary {
                    authority: self.authority,
                    staked: new_stake,
                    reward_debt: debt,
                    holding: (self.holding + pending) as u64,
                },
            ),
            _ => None,
        }
    }

    /// A record for `authority` with nothing staked and nothing owed.
    pub fn new(authority: Address) -> (record: Beneficiary)
        ensures
            record == (Beneficiary { authority, staked: 0, reward_debt: 0, holding: 0 }),
    {
        Beneficiary { authority, staked: 0, reward_debt: 0, holding: 0 }
    }

    /// True if the record has no authority.
    pub fn is_empty(&self) -> (empty: bool)
        ensures
            empty == (self.authority@ == Address::zero_bytes()),
    {
        self.authority.is_zero()
    }

    /// What the staked amount has earned since the pool began, with the
    /// fraction of a unit that it has earned beside the whole units.
    pub fn calculate_payout(&self, reward_per_share: u128) -> (result: Result<
        Payout,
        StakingError,
    >)
        ensures
            result.is_ok() <==> holding_value(self.staked, reward_per_share).is_some(),
            result matches Ok(payout) ==> payout.wf() && payout.scaled() == self.staked
                * reward_per_share && Some(payout.whole) == holding_value(
                self.staked,
                reward_per_share,
            ),
            result matches Err(e) ==> e == StakingError::ArithmeticOverflow,
    {
        match (self.staked as u128).checked_mul(reward_per_share) {
            None => Err(StakingError::ArithmeticOverflow),
            Some(scaled) => Payout::from_scaled(scaled),
        }
    }

    /// The total amount owed in theory if the amount staked had been staked
    /// since the pool began, in whole units.
    pub fn calculate_holding(&self, reward_per_share: u128) -> (result: Result<u64, StakingError>)
        ensures
            result.is_ok() <==> holding_value(self.staked, reward_per_share).is_some(),
            result matches Ok(owed) ==> Some(owed) == holding_value(self.staked, reward_per_share),
            result matches Err(e) ==> e == StakingError::ArithmeticOverflow,
    {
        match self.calculate_payout(reward_per_share) {
            Ok(payout) => Ok(payout.whole),
            Err(e) => Err(e),
        }
    }

    /// Settles the record against the pool's reward per share and sets the
    /// amount staked to `new_stake`.
    ///
    /// The reward accrued since the last settlement moves to the holding,
    /// and the debt becomes the holding value of the new stake. When a value
    /// would leave its range, or the holding value lies below the debt, the
    /// settlement is rejected and the record stays as it was.
    pub fn pay_out(&mut self, new_stake: u64, reward_per_share: u128) -> (result: Result<
        (),
        StakingError,
    >)
        ensures
            old(self).settled(new_stake, reward_per_share) matches Some(record) ==> result.is_ok()
                && *final(self) == record,
            old(self).settled(new_stake, reward_per_share).is_none() ==> result == Err::<
                (),
                StakingError,
            >(StakingError::ArithmeticOverflow) && *final(self) == *old(self),
            result.is_ok() ==> final(self).holding >= old(self).holding,
    {
        let owed = match self.calculate_holding(reward_per_share) {
            Ok(owed) => owed,
            Err(e) => { return Err(e); },
        };
        if owed < self.reward_debt {
            return Err(StakingError::ArithmeticOverflow);
        }
        let pending = owed - self.reward_debt;
        let holding = match self.holding.checked_add(pending) {
            Some(holding) => holding,
            None => { return Err(StakingError::ArithmeticOverflow); },
        };
        let target = Beneficiary {
            authority: self.authority,
            staked: new_stake,
            reward_debt: 0,
            holding,
        };
        let debt = match target.calculate_holding(reward_per_share) {
            Ok(debt) => debt,
            Err(e) => { return Err(e); },
        };
        self.staked = new_stake;
        self.reward_debt = debt;
        self.holding = holding;
        Ok(())
    }

    /// Takes the holding out of the record for disbursement.
    pub fn take_holding(&mut self) -> (amount: u64)
        ensures
            amount == old(self).holding,
            *final(self) == (Beneficiary { holding: 0, ..*old(self) }),
    {
        let amount = self.holding;
        self.holding = 0;
        amount
    }
}

/// Right after a settlement nothing is pending: settling again with the
/// same stake and the same reward per share succeeds and changes nothing.
pub proof fn lemma_settle_idempotent(record: Beneficiary, new_stake: u64, reward_per_share: u128)
    requires
        record.settled(new_stake, reward_per_share).is_some(),
    ensures
        record.settled(new_stake, reward_per_share).unwrap().pending(reward_per_share) == Some(
            0u64,
        ),
        record.settled(new_stake, reward_per_share).unwrap().settled(new_stake, reward_per_share)
            == record.settled(new_stake, reward_per_share),
{
}

/// A settlement never lowers the holding.
pub proof fn lemma_settle_keeps_holding(record: Beneficiary, new_stake: u64, reward_per_share: u128)
    requires
        record.settled(new_stake, reward_per_share).is_some(),
    ensures
        record.settled(new_stake, reward_per_share).unwrap().holding >= record.holding,
        record.settled(new_stake, reward_per_share).unwrap().staked == new_stake,
        record.settled(new_stake, reward_per_share).unwrap().authority == record.authority,
{
}

} // verus!
