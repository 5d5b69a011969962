//! The settlements: what a stake, an unstake, a claim, a withdrawal and a
//! change of beneficiaries do to the pool, the endpoint, the position and
//! the records of the beneficiaries.
//!
//! Each settlement either applies as a whole or leaves everything as it
//! was. Transfers are not made here: a settlement returns the amounts to
//! transfer.
use vstd::prelude::*;
use crate::account::Authority;
use crate::account::Endpoint;
use crate::address::Address;
use crate::beneficiary::Beneficiary;
use crate::error::StakingError;
use crate::ledger::derived_address;
use crate::ledger::found_plain;
use crate::ledger::match_address;
use crate::ledger::matched;
use crate::ledger::mint_plain;
use crate::ledger::unpack_mint;
use crate::ledger::MintInfo;
use crate::ledger::unpacked_account;
use crate::ledger::unpacked_mint;
use crate::pool::Decay;
use crate::pool::Settings;
use crate::split::SplitPolicy;
use crate::split::lemma_split_stake_three_way;
use crate::split::split;
use crate::split::split_shares;
use crate::split::split_stake;
use crate::split::stake_split;
use crate::stake::Stake;
use crate::working::WorkingBeneficiary;
use crate::working::role_settled;
use crate::working::settle_roles;
use crate::BASE_REWARD;
use crate::SECONDS_PER_YEAR;

verus! {

/// The transfers that a stake or an unstake asks for.
#[derive(Clone, Copy, Debug, PartialEq, Eq, Structural)]
pub struct StakeReceipt {
    /// The reward to transfer from the reward pool to the staker.
    pub claimed: u64,
    /// The amount to transfer from the staker to the staker's fund.
    pub deposited: u64,
}

/// Everything that a stake or an unstake leaves behind.
pub struct StakeOutcome {
    pub settings: Settings,
    pub endpoint: Endpoint,
    pub stake: Stake,
    pub staker: Beneficiary,
    pub primary: Beneficiary,
    pub secondary: Beneficiary,
    pub receipt: StakeReceipt,
}

/// Everything that a change of beneficiaries leaves behind.
pub struct ChangeOutcome {
    pub settings: Settings,
    pub endpoint: Endpoint,
    pub old_primary: Beneficiary,
    pub old_secondary: Beneficiary,
    pub new_primary: Beneficiary,
    pub new_secondary: Beneficiary,
}

/// The amount that a signed amount stands for: staked if it is not
/// negative, unstaked if it is.
pub open spec fn magnitude(raw_amount: i64) -> u64 {
    if raw_amount >= 0 {
        raw_amount as u64
    } else {
        (-raw_amount) as u64
    }
}

/// The position after the signed amount is staked or unstaked.
pub open spec fn position_after(stake: Stake, raw_amount: i64, now: i64, unbonding_duration: u64)
    -> Result<Stake, StakingError> {
    if raw_amount >= 0 {
        stake.deposited(magnitude(raw_amount))
    } else {
        stake.unstaked(magnitude(raw_amount), now, unbonding_duration)
    }
}

/// A total after the signed amount joined or left it, if it stays in
/// range.
pub open spec fn total_after(total: u64, raw_amount: i64) -> Option<u64> {
    if 0 <= total + raw_amount <= u64::MAX {
        Some((total + raw_amount) as u64)
    } else {
        None
    }
}

/// The roles of a stake: the staker, the primary and the secondary
/// beneficiary, each giving up its share of the old stake and receiving
/// its share of the new one.
pub open spec fn stake_roles(
    staker: Beneficiary,
    primary: Beneficiary,
    secondary: Beneficiary,
    old_stake: u64,
    new_stake: u64,
) -> Seq<WorkingBeneficiary> {
    let old = stake_split(old_stake);
    let new = stake_split(new_stake);
    seq![
        WorkingBeneficiary { beneficiary: staker, add: new.0, sub: old.0 },
        WorkingBeneficiary { beneficiary: primary, add: new.1, sub: old.1 },
        WorkingBeneficiary { beneficiary: secondary, add: new.2, sub: old.2 },
    ]
}

/// The roles of a change of beneficiaries: the old primary and secondary
/// beneficiary give up their shares of the endpoint's stake, the new ones
/// receive them.
pub open spec fn change_roles(
    old_primary: Beneficiary,
    old_secondary: Beneficiary,
    new_primary: Beneficiary,
    new_secondary: Beneficiary,
    endpoint_stake: u64,
) -> Seq<WorkingBeneficiary> {
    let shares = stake_split(endpoint_stake);
    seq![
        WorkingBeneficiary { beneficiary: old_primary, add: 0, sub: shares.1 },
        WorkingBeneficiary { beneficiary: old_secondary, add: 0, sub: shares.2 },
        WorkingBeneficiary { beneficiary: new_primary, add: shares.1, sub: 0 },
        WorkingBeneficiary { beneficiary: new_secondary, add: shares.2, sub: 0 },
    ]
}

/// A record after the holding of `paid` was paid out: without holding if
/// it is the record of the same authority, else as it is.
pub open spec fn after_payout(record: Beneficiary, paid: Beneficiary) -> Beneficiary {
    if record.authority@ == paid.authority@ {
        Beneficiary { holding: 0, ..record }
    } else {
        record
    }
}

/// What a stake or an unstake of the signed amount at the time `now`
/// comes to, for a staker who holds `balance` outside the pool.
///
/// The staker must have signed, and each record must belong to its role.
/// The position must accept the amount. Then the pool is brought up to
/// date, the totals of the pool and of the endpoint follow the position,
/// and the three roles are settled with their shares of the old and the
/// new stake. A staker must cover the amount with the balance and the
/// reward that the settlement realized. The staker's holding is paid out.
pub open spec fn stake_outcome(
    settings: Settings,
    endpoint: Endpoint,
    stake: Stake,
    staker: Beneficiary,
    primary: Beneficiary,
    secondary: Beneficiary,
    signed: bool,
    balance: u64,
    raw_amount: i64,
    now: i64,
) -> Result<StakeOutcome, StakingError> {
    if !signed {
        Err(StakingError::MissingStakeSignature)
    } else if staker.authority@ != stake.staker@ || primary.authority@ != endpoint.primary@
        || secondary.authority@ != endpoint.secondary@ {
        Err(StakingError::InvalidBeneficiaryAccount)
    } else {
        match position_after(stake, raw_amount, now, settings.unbonding_duration) {
            Err(e) => Err(e),
            Ok(position) => match (
                settings.advanced(now, Decay::nine_tenths()),
                total_after(settings.total_stake, raw_amount),
                total_after(endpoint.total_stake, raw_amount),
            ) {
                (Some(pool), Some(pool_total), Some(endpoint_total)) => {
                    let roles = stake_roles(
                        staker,
                        primary,
                        secondary,
                        stake.total_stake,
                        position.total_stake,
                    );
                    match (
                        role_settled(roles, pool.reward_per_share, 0),
                        role_settled(roles, pool.reward_per_share, 1),
                        role_settled(roles, pool.reward_per_share, 2),
                    ) {
                        (Some(s), Some(p), Some(q)) => if raw_amount >= 0 && balance + s.holding
                            < raw_amount {
                            Err(StakingError::StakerBalanceTooLow)
                        } else {
                            Ok(
                                StakeOutcome {
                                    settings: Settings { total_stake: pool_total, ..pool },
                                    endpoint: Endpoint { total_stake: endpoint_total, ..endpoint },
                                    stake: position,
                                    staker: after_payout(s, s),
                                    primary: after_payout(p, s),
                                    secondary: after_payout(q, s),
                                    receipt: StakeReceipt {
                                        claimed: s.holding,
                                        deposited: if raw_amount >= 0 {
                                            magnitude(raw_amount)
                                        } else {
                                            0
                                        },
                                    },
                                },
                            )
                        },
                        _ => Err(StakingError::ArithmeticOverflow),
                    }
                },
                _ => Err(StakingError::ArithmeticOverflow),
            },
        }
    }
}

/// Everything that a stake or an unstake under a policy leaves behind.
pub struct PolicyOutcome {
    pub settings: Settings,
    pub endpoint: Endpoint,
    pub stake: Stake,
    pub records: Seq<Beneficiary>,
    pub receipt: StakeReceipt,
}

/// The roles of a stake under a policy: each record gives up its share of
/// the old stake and receives its share of the new one.
pub open spec fn policy_roles(
    records: Seq<Beneficiary>,
    weights: Seq<u64>,
    old_stake: u64,
    new_stake: u64,
) -> Seq<WorkingBeneficiary> {
    Seq::new(
        records.len(),
        |i: int|
            WorkingBeneficiary {
                beneficiary: records[i],
                add: split_shares(new_stake as nat, weights)[i] as u64,
                sub: split_shares(old_stake as nat, weights)[i] as u64,
            },
    )
}

/// What a stake or an unstake of the signed amount at the time `now`
/// comes to under a split policy and a decay of the emission.
///
/// There is one record per weight of the policy, the staker's first. The
/// rules are those of `stake_outcome`, with the shares of the policy in
/// place of the three fixed ones.
pub open spec fn policy_outcome(
    settings: Settings,
    endpoint: Endpoint,
    stake: Stake,
    records: Seq<Beneficiary>,
    weights: Seq<u64>,
    decay: Decay,
    signed: bool,
    balance: u64,
    raw_amount: i64,
    now: i64,
) -> Result<PolicyOutcome, StakingError> {
    if !signed {
        Err(StakingError::MissingStakeSignature)
    } else if records.len() == 0 || records.len() != weights.len() || records[0].authority@
        != stake.staker@ {
        Err(StakingError::InvalidBeneficiaryAccount)
    } else {
        match position_after(stake, raw_amount, now, settings.unbonding_duration) {
            Err(e) => Err(e),
            Ok(position) => match (
                settings.advanced(now, decay),
                total_after(settings.total_stake, raw_amount),
                total_after(endpoint.total_stake, raw_amount),
            ) {
                (Some(pool), Some(pool_total), Some(endpoint_total)) => {
                    let roles = policy_roles(
                        records,
                        weights,
                        stake.total_stake,
                        position.total_stake,
                    );
                    if !(forall|i: int|
                        0 <= i < roles.len() ==> (#[trigger] role_settled(
                            roles,
                            pool.reward_per_share,
                            i,
                        )).is_some()) {
                        Err(StakingError::ArithmeticOverflow)
                    } else {
                        let paid = role_settled(roles, pool.reward_per_share, 0).unwrap();
                        if raw_amount >= 0 && balance + paid.holding < raw_amount {
                            Err(StakingError::StakerBalanceTooLow)
                        } else {
                            Ok(
                                PolicyOutcome {
                                    settings: Settings { total_stake: pool_total, ..pool },
                                    endpoint: Endpoint { total_stake: endpoint_total, ..endpoint },
                                    stake: position,
                                    records: Seq::new(
                                        records.len(),
                                        |i: int|
                                            after_payout(
                                                role_settled(
                                                    roles,
                                                    pool.reward_per_share,
                                                    i,
                                                ).unwrap(),
                                                paid,
                                            ),
                                    ),
                                    receipt: StakeReceipt {
                                        claimed: paid.holding,
                                        deposited: if raw_amount >= 0 {
                                            magnitude(raw_amount)
                                        } else {
                                            0
                                        },
                                    },
                                },
                            )
                        }
                    }
                },
                _ => Err(StakingError::ArithmeticOverflow),
            },
        }
    }
}

/// The record that a stake settles for the authority `key`: the first of
/// the staker's, the primary and the secondary beneficiary's record that
/// belongs to it.
pub open spec fn stake_record(
    staker: Beneficiary,
    primary: Beneficiary,
    secondary: Beneficiary,
    key: Seq<u8>,
) -> Beneficiary {
    if staker.authority@ == key {
        staker
    } else if primary.authority@ == key {
        primary
    } else {
        secondary
    }
}

/// What falls to the authority `key` of the three shares of a stake: the
/// sum of the shares of the roles that it holds.
pub open spec fn stake_held(
    shares: (u64, u64, u64),
    staker: Beneficiary,
    primary: Beneficiary,
    secondary: Beneficiary,
    key: Seq<u8>,
) -> int {
    (if staker.authority@ == key {
        shares.0 as int
    } else {
        0
    }) + (if primary.authority@ == key {
        shares.1 as int
    } else {
        0
    }) + (if secondary.authority@ == key {
        shares.2 as int
    } else {
        0
    })
}

/// A stake or an unstake changes the position and the totals of the pool
/// and of the endpoint by the signed amount, and it leaves each record
/// with the stake that its authority had before, raised by what falls to
/// the authority of the shares of the new stake and lowered by what fell
/// to it of the shares of the old one. This holds whoever holds the three
/// roles: an authority with several roles has one record, and the shares
/// of all its roles are in it. The shares of the new stake add up to it.
pub proof fn lemma_stake_moves_shares(
    settings: Settings,
    endpoint: Endpoint,
    stake: Stake,
    staker: Beneficiary,
    primary: Beneficiary,
    secondary: Beneficiary,
    signed: bool,
    balance: u64,
    raw_amount: i64,
    now: i64,
)
    requires
        stake_outcome(
            settings,
            endpoint,
            stake,
            staker,
            primary,
            secondary,
            signed,
            balance,
            raw_amount,
            now,
        ).is_ok(),
    ensures
        ({
            let outcome = stake_outcome(
                settings,
                endpoint,
                stake,
                staker,
                primary,
                secondary,
                signed,
                balance,
                raw_amount,
                now,
            ).unwrap();
            let old = stake_split(stake.total_stake);
            let new = stake_split(outcome.stake.total_stake);
            let a = staker.authority@;
            let b = primary.authority@;
            let c = secondary.authority@;
            &&& outcome.stake.total_stake == stake.total_stake + raw_amount
            &&& outcome.settings.total_stake == settings.total_stake + raw_amount
            &&& outcome.endpoint.total_stake == endpoint.total_stake + raw_amount
            &&& new.0 + new.1 + new.2 == outcome.stake.total_stake
            &&& outcome.staker.authority@ == a
            &&& outcome.primary.authority@ == b
            &&& outcome.secondary.authority@ == c
            &&& outcome.staker.staked == stake_record(staker, primary, secondary, a).staked
                + stake_held(new, staker, primary, secondary, a) - stake_held(
                old,
                staker,
                primary,
                secondary,
                a,
            )
            &&& outcome.primary.staked == stake_record(staker, primary, secondary, b).staked
                + stake_held(new, staker, primary, secondary, b) - stake_held(
                old,
                staker,
                primary,
                secondary,
                b,
            )
            &&& outcome.secondary.staked == stake_record(staker, primary, secondary, c).staked
                + stake_held(new, staker, primary, secondary, c) - stake_held(
                old,
                staker,
                primary,
                secondary,
                c,
            )
            &&& outcome.staker.holding == 0
        }),
{
    let position = position_after(stake, raw_amount, now, settings.unbonding_duration).unwrap();
    let roles = stake_roles(staker, primary, secondary, stake.total_stake, position.total_stake);
    let two = roles.drop_last();
    let one = two.drop_last();
    assert(one.drop_last() =~= Seq::<WorkingBeneficiary>::empty());
    assert(two.last() == roles[1]);
    assert(one.last() == roles[0]);
    assert(roles.last() == roles[2]);
    reveal_with_fuel(crate::working::role_total, 4);
    reveal_with_fuel(crate::working::first_record, 4);
    assert(crate::working::first_record(roles, staker.authority@) == Some(
        stake_record(staker, primary, secondary, staker.authority@),
    ));
    assert(crate::working::first_record(roles, primary.authority@) == Some(
        stake_record(staker, primary, secondary, primary.authority@),
    ));
    assert(crate::working::first_record(roles, secondary.authority@) == Some(
        stake_record(staker, primary, secondary, secondary.authority@),
    ));
}

/// The record that a change of beneficiaries settles for the authority
/// `key`: the first of the old primary, the old secondary, the new primary
/// and the new secondary beneficiary's record that belongs to it.
pub open spec fn change_record(
    old_primary: Beneficiary,
    old_secondary: Beneficiary,
    new_primary: Beneficiary,
    new_secondary: Beneficiary,
    key: Seq<u8>,
) -> Beneficiary {
    if old_primary.authority@ == key {
        old_primary
    } else if old_secondary.authority@ == key {
        old_secondary
    } else if new_primary.authority@ == key {
        new_primary
    } else {
        new_secondary
    }
}

/// What falls to the authority `key` of the primary and the secondary
/// share, given who holds the two roles.
pub open spec fn change_held(
    shares: (u64, u64, u64),
    primary: Beneficiary,
    secondary: Beneficiary,
    key: Seq<u8>,
) -> int {
    (if primary.authority@ == key {
        shares.1 as int
    } else {
        0
    }) + (if secondary.authority@ == key {
        shares.2 as int
    } else {
        0
    })
}

/// A change of beneficiaries leaves each record with the stake that its
/// authority had before, raised by the shares of the roles that the
/// authority takes over and lowered by those of the roles that it gives
/// up, whoever holds the four roles. Where the new beneficiaries are the
/// old ones, no stake changes. The totals of the pool and of the endpoint
/// stay as they are.
pub proof fn lemma_change_moves_shares(
    settings: Settings,
    endpoint: Endpoint,
    old_primary: Beneficiary,
    old_secondary: Beneficiary,
    new_primary: Beneficiary,
    new_secondary: Beneficiary,
    signed: bool,
    now: i64,
)
    requires
        change_outcome(
            settings,
            endpoint,
            old_primary,
            old_secondary,
            new_primary,
            new_secondary,
            signed,
            now,
        ).is_ok(),
    ensures
        ({
            let outcome = change_outcome(
                settings,
                endpoint,
                old_primary,
                old_secondary,
                new_primary,
                new_secondary,
                signed,
                now,
            ).unwrap();
            let shares = stake_split(endpoint.total_stake);
            let a = old_primary.authority@;
            let b = old_secondary.authority@;
            let c = new_primary.authority@;
            let d = new_secondary.authority@;
            &&& outcome.settings.total_stake == settings.total_stake
            &&& outcome.endpoint.total_stake == endpoint.total_stake
            &&& outcome.endpoint.primary == new_primary.authority
            &&& outcome.endpoint.secondary == new_secondary.authority
            &&& outcome.old_primary.staked == change_record(
                old_primary,
                old_secondary,
                new_primary,
                new_secondary,
                a,
            ).staked + change_held(shares, new_primary, new_secondary, a) - change_held(
                shares,
                old_primary,
                old_secondary,
                a,
            )
            &&& outcome.old_secondary.staked == change_record(
                old_primary,
                old_secondary,
                new_primary,
                new_secondary,
                b,
            ).staked + change_held(shares, new_primary, new_secondary, b) - change_held(
                shares,
                old_primary,
                old_secondary,
                b,
            )
            &&& outcome.new_primary.staked == change_record(
                old_primary,
                old_secondary,
                new_primary,
                new_secondary,
                c,
            ).staked + change_held(shares, new_primary, new_secondary, c) - change_held(
                shares,
                old_primary,
                old_secondary,
                c,
            )
            &&& outcome.new_secondary.staked == change_record(
                old_primary,
                old_secondary,
                new_primary,
                new_secondary,
                d,
            ).staked + change_held(shares, new_primary, new_secondary, d) - change_held(
                shares,
                old_primary,
                old_secondary,
                d,
            )
            &&& (c == a && d == b ==> {
                &&& outcome.old_primary.staked == old_primary.staked
                &&& outcome.new_primary.staked == old_primary.staked
                &&& outcome.old_secondary.staked == change_record(
                    old_primary,
                    old_secondary,
                    new_primary,
                    new_secondary,
                    b,
                ).staked
                &&& outcome.new_secondary.staked == outcome.old_secondary.staked
            })
        }),
{
    let roles = change_roles(
        old_primary,
        old_secondary,
        new_primary,
        new_secondary,
        endpoint.total_stake,
    );
    crate::pool::lemma_advanced_grows(settings, now, Decay::nine_tenths());
    let three = roles.drop_last();
    let two = three.drop_last();
    let one = two.drop_last();
    assert(one.drop_last() =~= Seq::<WorkingBeneficiary>::empty());
    assert(roles.last() == roles[3]);
    assert(three.last() == roles[2]);
    assert(two.last() == roles[1]);
    assert(one.last() == roles[0]);
    reveal_with_fuel(crate::working::role_total, 5);
    reveal_with_fuel(crate::working::first_record, 5);
    assert(crate::working::first_record(roles, old_primary.authority@) == Some(
        change_record(old_primary, old_secondary, new_primary, new_secondary, old_primary.authority@),
    ));
    assert(crate::working::first_record(roles, old_secondary.authority@) == Some(
        change_record(
            old_primary,
            old_secondary,
            new_primary,
            new_secondary,
            old_secondary.authority@,
        ),
    ));
    assert(crate::working::first_record(roles, new_primary.authority@) == Some(
        change_record(old_primary, old_secondary, new_primary, new_secondary, new_primary.authority@),
    ));
    assert(crate::working::first_record(roles, new_secondary.authority@) == Some(
        change_record(
            old_primary,
            old_secondary,
            new_primary,
            new_secondary,
            new_secondary.authority@,
        ),
    ));
}

/// Under the three-way policy and the decay to nine tenths, a stake with
/// the records of the endpoint's beneficiaries comes to the same under
/// the policy as under the three fixed shares.
pub proof fn lemma_three_way_outcome(
    settings: Settings,
    endpoint: Endpoint,
    stake: Stake,
    staker: Beneficiary,
    primary: Beneficiary,
    secondary: Beneficiary,
    signed: bool,
    balance: u64,
    raw_amount: i64,
    now: i64,
)
    requires
        primary.authority@ == endpoint.primary@,
        secondary.authority@ == endpoint.secondary@,
    ensures
        match (
            stake_outcome(
                settings,
                endpoint,
                stake,
                staker,
                primary,
                secondary,
                signed,
                balance,
                raw_amount,
                now,
            ),
            policy_outcome(
                settings,
                endpoint,
                stake,
                seq![staker, primary, secondary],
                seq![475u64, 475u64, 50u64],
                Decay::nine_tenths(),
                signed,
                balance,
                raw_amount,
                now,
            ),
        ) {
            (Ok(fixed), Ok(general)) => {
                &&& fixed.settings == general.settings
                &&& fixed.endpoint == general.endpoint
                &&& fixed.stake == general.stake
                &&& fixed.receipt == general.receipt
                &&& general.records == seq![fixed.staker, fixed.primary, fixed.secondary]
            },
            (Err(e), Err(f)) => e == f,
            _ => false,
        },
{
    let records = seq![staker, primary, secondary];
    let weights = seq![475u64, 475u64, 50u64];
    if signed && staker.authority@ == stake.staker@ {
        match position_after(stake, raw_amount, now, settings.unbonding_duration) {
            Err(_) => {},
            Ok(position) => {
                lemma_split_stake_three_way(stake.total_stake);
                lemma_split_stake_three_way(position.total_stake);
                let general = policy_roles(
                    records,
                    weights,
                    stake.total_stake,
                    position.total_stake,
                );
                let fixed = stake_roles(
                    staker,
                    primary,
                    secondary,
                    stake.total_stake,
                    position.total_stake,
                );
                assert(general =~= fixed);
                match settings.advanced(now, Decay::nine_tenths()) {
                    None => {},
                    Some(pool) => {
                        let rps = pool.reward_per_share;
                        if role_settled(fixed, rps, 0).is_some() && role_settled(
                            fixed,
                            rps,
                            1,
                        ).is_some() && role_settled(fixed, rps, 2).is_some() {
                            let paid = role_settled(fixed, rps, 0).unwrap();
                            assert(Seq::new(
                                3,
                                |i: int| after_payout(role_settled(general, rps, i).unwrap(), paid),
                            ) =~= seq![
                                after_payout(role_settled(fixed, rps, 0).unwrap(), paid),
                                after_payout(role_settled(fixed, rps, 1).unwrap(), paid),
                                after_payout(role_settled(fixed, rps, 2).unwrap(), paid),
                            ]);
                        }
                    },
                }
            },
        }
    }
}

/// What a claim at the time `now` comes to: the pool brought up to date,
/// the record settled with its stake unchanged and its holding paid out,
/// and the amount paid.
pub open spec fn claim_outcome(settings: Settings, beneficiary: Beneficiary, signed: bool, now: i64)
    -> Result<(Settings, Beneficiary, u64), StakingError> {
    if !signed {
        Err(StakingError::MissingAuthoritySignature)
    } else {
        match settings.advanced(now, Decay::nine_tenths()) {
            None => Err(StakingError::ArithmeticOverflow),
            Some(pool) => match beneficiary.settled(beneficiary.staked, pool.reward_per_share) {
                None => Err(StakingError::ArithmeticOverflow),
                Some(record) => Ok((pool, Beneficiary { holding: 0, ..record }, record.holding)),
            },
        }
    }
}

/// A claim succeeds exactly when the authority signed, the pool can be
/// brought up to date, and the record's pending reward can be computed
/// and fits beside its holding. It then pays the holding and the pending
/// reward, leaves the record with no holding, with its stake as it was
/// and with the holding value of that stake as its debt, and leaves the
/// pool's total as it was.
pub proof fn lemma_claim_pays_pending(
    settings: Settings,
    beneficiary: Beneficiary,
    signed: bool,
    now: i64,
)
    ensures
        claim_outcome(settings, beneficiary, signed, now).is_ok() <==> (signed && (
        settings.advanced(now, Decay::nine_tenths()) matches Some(pool) && (beneficiary.pending(
            pool.reward_per_share,
        ) matches Some(pending) && beneficiary.holding + pending <= u64::MAX))),
        claim_outcome(settings, beneficiary, signed, now) matches Ok(outcome) ==> {
            let pool = settings.advanced(now, Decay::nine_tenths()).unwrap();
            &&& outcome.0 == pool
            &&& outcome.0.total_stake == settings.total_stake
            &&& outcome.0.reward_per_share >= settings.reward_per_share
            &&& outcome.2 == beneficiary.holding + beneficiary.pending(
                pool.reward_per_share,
            ).unwrap()
            &&& outcome.1.holding == 0
            &&& outcome.1.staked == beneficiary.staked
            &&& outcome.1.authority == beneficiary.authority
            &&& Some(outcome.1.reward_debt) == crate::beneficiary::holding_value(
                beneficiary.staked,
                pool.reward_per_share,
            )
        },
        claim_outcome(settings, beneficiary, signed, now) matches Err(e) ==> e == (if signed {
            StakingError::ArithmeticOverflow
        } else {
            StakingError::MissingAuthoritySignature
        }),
{
    crate::pool::lemma_advanced_grows(settings, now, Decay::nine_tenths());
}

/// What a change of the endpoint's beneficiaries at the time `now` comes
/// to. The endpoint's owner must have signed, and the old records must be
/// those of the endpoint's beneficiaries. The pool is brought up to date
/// and the shares of the endpoint's stake move from the old records to
/// the new ones, whose authorities the endpoint then names.
pub open spec fn change_outcome(
    settings: Settings,
    endpoint: Endpoint,
    old_primary: Beneficiary,
    old_secondary: Beneficiary,
    new_primary: Beneficiary,
    new_secondary: Beneficiary,
    signed: bool,
    now: i64,
) -> Result<ChangeOutcome, StakingError> {
    if !signed {
        Err(StakingError::MissingAuthoritySignature)
    } else if old_primary.authority@ != endpoint.primary@ || old_secondary.authority@
        != endpoint.secondary@ {
        Err(StakingError::InvalidBeneficiaryAccount)
    } else {
        match settings.advanced(now, Decay::nine_tenths()) {
            None => Err(StakingError::ArithmeticOverflow),
            Some(pool) => {
                let roles = change_roles(
                    old_primary,
                    old_secondary,
                    new_primary,
                    new_secondary,
                    endpoint.total_stake,
                );
                match (
                    role_settled(roles, pool.reward_per_share, 0),
                    role_settled(roles, pool.reward_per_share, 1),
                    role_settled(roles, pool.reward_per_share, 2),
                    role_settled(roles, pool.reward_per_share, 3),
                ) {
                    (Some(a), Some(b), Some(c), Some(d)) => Ok(
                        ChangeOutcome {
                            settings: pool,
                            endpoint: Endpoint {
                                primary: new_primary.authority,
                                secondary: new_secondary.authority,
                                ..endpoint
                            },
                            old_primary: a,
                            old_secondary: b,
                            new_primary: c,
                            new_secondary: d,
                        },
                    ),
                    _ => Err(StakingError::ArithmeticOverflow),
                }
            },
        }
    }
}

/// What the initialization of the program comes to, given the length of
/// the settings account's data, the address derived for it, and what was
/// read of the token's data as a mint: the pool and the bump seed of its
/// account. The account must be empty and stand at the derived address,
/// and the token must be a mint.
pub open spec fn initialize_outcome(
    settings_len: usize,
    derived: Option<(Seq<u8>, u8)>,
    settings_account: Seq<u8>,
    mint: Option<(Option<Seq<u8>>, u64, u8, bool)>,
    token: Address,
    start_time: i64,
    unbonding_duration: u64,
) -> Result<(Settings, u8), StakingError> {
    if settings_len > 0 {
        Err(StakingError::ProgramAlreadyInitialized)
    } else {
        match matched(derived, settings_account, StakingError::InvalidSettingsAccount) {
            Err(e) => Err(e),
            Ok(seed) => if mint.is_none() {
                Err(StakingError::TokenNotSPLToken)
            } else if start_time + SECONDS_PER_YEAR > i64::MAX {
                Err(StakingError::ArithmeticOverflow)
            } else {
                Ok(
                    (
                        Settings {
                            token,
                            unbonding_duration,
                            next_emission_change: (start_time + SECONDS_PER_YEAR) as i64,
                            emission: BASE_REWARD as u64,
                            total_stake: 0,
                            reward_per_share: 0,
                            last_reward: start_time,
                        },
                        seed,
                    ),
                )
            },
        }
    }
}

/// What the registration of an endpoint comes to, given the outcome of
/// the owner's verification and the addresses derived for the records of
/// the two beneficiaries: the endpoint and the bump seeds of the records.
/// The endpoint's account must have signed and be empty.
pub open spec fn register_outcome(
    owner_verified: Result<(), StakingError>,
    endpoint_signed: bool,
    endpoint_empty: bool,
    primary_seed: Result<u8, StakingError>,
    secondary_seed: Result<u8, StakingError>,
    endpoint: Endpoint,
) -> Result<(Endpoint, u8, u8), StakingError> {
    if owner_verified is Err {
        Err(owner_verified->Err_0)
    } else if !endpoint_signed {
        Err(StakingError::InvalidEndpointAccount)
    } else if !endpoint_empty {
        Err(StakingError::EndpointAccountAlreadyExists)
    } else if primary_seed is Err {
        Err(primary_seed->Err_0)
    } else if secondary_seed is Err {
        Err(secondary_seed->Err_0)
    } else {
        Ok((endpoint, primary_seed->Ok_0, secondary_seed->Ok_0))
    }
}

/// What the opening of a position hands to the host: the new position,
/// the bump seeds of its account and of its fund, and, if the staker has
/// no record yet, the record to create for the staker with the bump seed
/// of its account.
#[derive(Clone, Copy, Debug, PartialEq, Eq)]
pub struct OpenedPosition {
    pub stake: Stake,
    pub stake_seed: u8,
    pub fund_seed: u8,
    pub beneficiary: Option<(Beneficiary, u8)>,
}

/// What the opening of a position at the time `now` comes to, given the
/// outcome of the checks of the accounts.
///
/// The staker must have signed, the token must be the pool's, the
/// endpoint must be a valid one, and the accounts of the position and of
/// its fund must stand at their derived addresses. The new position has
/// nothing staked, nothing unbonding and a lock time of zero. A record
/// with nothing staked and nothing owed is made for the staker only if
/// the staker's account is empty, and then that account must stand at
/// its derived address too; a record that exists is not touched.
pub open spec fn open_outcome(
    staker_signed: bool,
    pool_token: Seq<u8>,
    token: Seq<u8>,
    endpoint_valid: bool,
    stake_seed: Result<u8, StakingError>,
    beneficiary_empty: bool,
    beneficiary_seed: Result<u8, StakingError>,
    fund_seed: Result<u8, StakingError>,
    staker: Address,
    now: i64,
) -> Result<OpenedPosition, StakingError> {
    if !staker_signed {
        Err(StakingError::MissingStakeSignature)
    } else if pool_token != token {
        Err(StakingError::InvalidToken)
    } else if !endpoint_valid {
        Err(StakingError::InvalidEndpointAccount)
    } else if stake_seed is Err {
        Err(stake_seed->Err_0)
    } else if beneficiary_empty && beneficiary_seed is Err {
        Err(beneficiary_seed->Err_0)
    } else if fund_seed is Err {
        Err(fund_seed->Err_0)
    } else {
        Ok(
            OpenedPosition {
                stake: Stake {
                    creation_date: now,
                    total_stake: 0,
                    staker,
                    unbonding_end: 0,
                    unbonding_amount: 0,
                },
                stake_seed: stake_seed->Ok_0,
                fund_seed: fund_seed->Ok_0,
                beneficiary: if beneficiary_empty {
                    Some(
                        (
                            Beneficiary { authority: staker, staked: 0, reward_debt: 0, holding: 0 },
                            beneficiary_seed->Ok_0,
                        ),
                    )
                } else {
                    None
                },
            },
        )
    }
}

/// What the handing over of an endpoint comes to: the present owner must
/// have signed, and the new owner must pass its verification.
pub open spec fn transfer_outcome(owner_signed: bool, new_owner_verified: Result<(), StakingError>)
    -> Result<(), StakingError> {
    if !owner_signed {
        Err(StakingError::MissingAuthoritySignature)
    } else {
        new_owner_verified
    }
}

/// A total after the signed amount joined or left it.
pub fn apply_amount(total: u64, raw_amount: i64) -> (after: Option<u64>)
    ensures
        after == total_after(total, raw_amount),
{
    let sum = total as i128 + raw_amount as i128;
    if sum < 0 || sum > u64::MAX as i128 {
        None
    } else {
        Some(sum as u64)
    }
}

/// The settlements of the program.
pub struct Processor {}

impl Processor {
    /// Decides the setup of the program from the length of the settings
    /// account's data, the outcome of the check of its address and what
    /// was read of the token's data as a mint.
    pub fn initialize(
        settings_len: usize,
        derived: Option<(Address, u8)>,
        settings_account: &Address,
        mint: Option<MintInfo>,
        token: Address,
        start_time: i64,
        unbonding_duration: u64,
    ) -> (result: Result<(Settings, u8), StakingError>)
        ensures
            result == initialize_outcome(
                settings_len,
                found_plain(derived),
                settings_account@,
                mint_plain(mint),
                token,
                start_time,
                unbonding_duration,
            ),
    {
        if settings_len > 0 {
            return Err(StakingError::ProgramAlreadyInitialized);
        }
        let seed = match match_address(
            derived,
            settings_account,
            StakingError::InvalidSettingsAccount,
        ) {
            Ok(seed) => seed,
            Err(e) => { return Err(e); },
        };
        if mint.is_none() {
            return Err(StakingError::TokenNotSPLToken);
        }
        match Settings::new(token, unbonding_duration, start_time) {
            Ok(settings) => Ok((settings, seed)),
            Err(e) => Err(e),
        }
    }

    /// Sets the program up: checks the settings account and the token,
    /// and returns the pool as it begins at `start_time`, with the bump
    /// seed of the settings account.
    pub fn process_initialize(
        program_id: &Address,
        settings_account: &Address,
        settings_len: usize,
        token: Address,
        token_data: &[u8],
        start_time: i64,
        unbonding_duration: u64,
    ) -> (result: Result<(Settings, u8), StakingError>)
        ensures
            result == initialize_outcome(
                settings_len,
                derived_address(Settings::seeds(), program_id@),
                settings_account@,
                unpacked_mint(token_data@),
                token,
                start_time,
                unbonding_duration,
            ),
    {
        Self::initialize(
            settings_len,
            Settings::program_address(program_id),
            settings_account,
            unpack_mint(token_data),
            token,
            start_time,
            unbonding_duration,
        )
    }

    /// Decides the registration of an endpoint from the outcome of the
    /// owner's verification and of the checks of the two beneficiaries'
    /// accounts.
    pub fn register_endpoint(
        owner_verified: Result<(), StakingError>,
        endpoint_signed: bool,
        endpoint_empty: bool,
        primary_seed: Result<u8, StakingError>,
        secondary_seed: Result<u8, StakingError>,
        endpoint: Endpoint,
    ) -> (result: Result<(Endpoint, u8, u8), StakingError>)
        ensures
            result == register_outcome(
                owner_verified,
                endpoint_signed,
                endpoint_empty,
                primary_seed,
                secondary_seed,
                endpoint,
            ),
    {
        match owner_verified {
            Ok(()) => {},
            Err(e) => { return Err(e); },
        }
        if !endpoint_signed {
            return Err(StakingError::InvalidEndpointAccount);
        }
        if !endpoint_empty {
            return Err(StakingError::EndpointAccountAlreadyExists);
        }
        let primary_seed = match primary_seed {
            Ok(seed) => seed,
            Err(e) => { return Err(e); },
        };
        let secondary_seed = match secondary_seed {
            Ok(seed) => seed,
            Err(e) => { return Err(e); },
        };
        Ok((endpoint, primary_seed, secondary_seed))
    }

    /// Registers an endpoint at the time `now`: checks its owner, its
    /// account and the accounts of its two beneficiaries, and returns the
    /// endpoint with the bump seeds of the beneficiaries' records.
    pub fn process_register_endpoint(
        program_id: &Address,
        owner: Authority,
        owner_account: &Address,
        owner_data: &[u8],
        endpoint_signed: bool,
        endpoint_empty: bool,
        primary: &Address,
        primary_account: &Address,
        secondary: &Address,
        secondary_account: &Address,
        now: i64,
    ) -> (result: Result<(Endpoint, u8, u8), StakingError>)
        ensures
            result == register_outcome(
                owner.verified(owner_account@, unpacked_mint(owner_data@)),
                endpoint_signed,
                endpoint_empty,
                matched(
                    derived_address(Beneficiary::seeds(*primary), program_id@),
                    primary_account@,
                    StakingError::InvalidBeneficiaryAccount,
                ),
                matched(
                    derived_address(Beneficiary::seeds(*secondary), program_id@),
                    secondary_account@,
                    StakingError::InvalidBeneficiaryAccount,
                ),
                Endpoint {
                    creation_date: now,
                    total_stake: 0,
                    owner,
                    primary: *primary,
                    secondary: *secondary,
                },
            ),
    {
        Self::register_endpoint(
            owner.verify(owner_account, owner_data),
            endpoint_signed,
            endpoint_empty,
            Beneficiary::verify_program_address(primary_account, primary, program_id),
            Beneficiary::verify_program_address(secondary_account, secondary, program_id),
            Endpoint::new(now, owner, *primary, *secondary),
        )
    }

    /// Decides the opening of a position at the time `now` from the
    /// outcome of the checks of the accounts.
    pub fn initialize_stake(
        staker_signed: bool,
        pool_token: &Address,
        token: &Address,
        endpoint_valid: bool,
        stake_seed: Result<u8, StakingError>,
        beneficiary_empty: bool,
        beneficiary_seed: Result<u8, StakingError>,
        fund_seed: Result<u8, StakingError>,
        staker: Address,
        now: i64,
    ) -> (result: Result<OpenedPosition, StakingError>)
        ensures
            result == open_outcome(
                staker_signed,
                pool_token@,
                token@,
                endpoint_valid,
                stake_seed,
                beneficiary_empty,
                beneficiary_seed,
                fund_seed,
                staker,
                now,
            ),
            result matches Ok(opened) ==> {
                &&& opened.stake.total_stake == 0
                &&& opened.stake.unbonding_amount == 0
                &&& opened.stake.unbonding_end == 0
                &&& opened.stake.creation_date == now
                &&& opened.stake.staker == staker
                &&& opened.beneficiary.is_some() == beneficiary_empty
            },
    {
        if !staker_signed {
            return Err(StakingError::MissingStakeSignature);
        }
        if !pool_token.same(token) {
            return Err(StakingError::InvalidToken);
        }
        if !endpoint_valid {
            return Err(StakingError::InvalidEndpointAccount);
        }
        let stake_seed = match stake_seed {
            Ok(seed) => seed,
            Err(e) => { return Err(e); },
        };
        let beneficiary = if beneficiary_empty {
            match beneficiary_seed {
                Ok(seed) => Some((Beneficiary::new(staker), seed)),
                Err(e) => { return Err(e); },
            }
        } else {
            None
        };
        let fund_seed = match fund_seed {
            Ok(seed) => seed,
            Err(e) => { return Err(e); },
        };
        Ok(OpenedPosition { stake: Stake::new(staker, now), stake_seed, fund_seed, beneficiary })
    }

    /// Opens the position of a staker with an endpoint at the time `now`.
    ///
    /// `endpoint_valid` says whether the endpoint's account holds an
    /// endpoint of the program, `beneficiary_empty` whether the staker's
    /// record does not exist yet. The token and the addresses of the
    /// accounts are checked, and the result holds the new position, with
    /// nothing staked, nothing unbonding and a lock time of zero, the bump
    /// seeds, and the staker's new record where one is to be created. The
    /// pool and the endpoint are not changed.
    pub fn process_initialize_stake(
        program_id: &Address,
        staker_signed: bool,
        settings: &Settings,
        token: &Address,
        endpoint: &Address,
        endpoint_valid: bool,
        staker: &Address,
        stake_account: &Address,
        beneficiary_account: &Address,
        beneficiary_empty: bool,
        fund_account: &Address,
        now: i64,
    ) -> (result: Result<OpenedPosition, StakingError>)
        ensures
            result == open_outcome(
                staker_signed,
                settings.token@,
                token@,
                endpoint_valid,
                matched(
                    derived_address(Stake::seeds(*endpoint, *staker), program_id@),
                    stake_account@,
                    StakingError::InvalidStakeAccount,
                ),
                beneficiary_empty,
                matched(
                    derived_address(Beneficiary::seeds(*staker), program_id@),
                    beneficiary_account@,
                    StakingError::InvalidBeneficiaryAccount,
                ),
                matched(
                    derived_address(Stake::fund_seeds(*endpoint, *staker), program_id@),
                    fund_account@,
                    StakingError::InvalidStakeFundAccount,
                ),
                *staker,
                now,
            ),
            result matches Ok(opened) ==> {
                &&& opened.stake.total_stake == 0
                &&& opened.stake.unbonding_amount == 0
                &&& opened.stake.unbonding_end == 0
                &&& opened.stake.creation_date == now
                &&& opened.stake.staker == *staker
                &&& opened.beneficiary.is_some() == beneficiary_empty
            },
    {
        Self::initialize_stake(
            staker_signed,
            &settings.token,
            token,
            endpoint_valid,
            Stake::verify_program_address(stake_account, endpoint, staker, program_id),
            beneficiary_empty,
            Beneficiary::verify_program_address(beneficiary_account, staker, program_id),
            Stake::verify_fund_address(fund_account, endpoint, staker, program_id),
            *staker,
            now,
        )
    }

    /// Stakes the signed amount if it is not negative, else unstakes it,
    /// at the time `now`.
    ///
    /// `balance` is what the staker holds outside the pool. The three
    /// records must be those of the position's staker and of the
    /// endpoint's primary and secondary beneficiary: a record of another
    /// authority is rejected with `InvalidBeneficiaryAccount`, since its
    /// stake would be changed in the name of a role that it does not
    /// hold. On success the pool, the endpoint, the position and the three
    /// records are updated, and the result says what to transfer: the
    /// reward that the staker had earned, and the amount newly staked. An
    /// unstaked amount joins the position's unbonding bucket. On failure
    /// nothing changes.
    pub fn process_stake(
        settings: &mut Settings,
        endpoint: &mut Endpoint,
        stake: &mut Stake,
        staker_beneficiary: &mut Beneficiary,
        primary_beneficiary: &mut Beneficiary,
        secondary_beneficiary: &mut Beneficiary,
        staker_signed: bool,
        balance: u64,
        raw_amount: i64,
        now: i64,
    ) -> (result: Result<StakeReceipt, StakingError>)
        ensures
            stake_outcome(
                *old(settings),
                *old(endpoint),
                *old(stake),
                *old(staker_beneficiary),
                *old(primary_beneficiary),
                *old(secondary_beneficiary),
                staker_signed,
                balance,
                raw_amount,
                now,
            ) matches Ok(outcome) ==> {
                &&& result == Ok::<StakeReceipt, StakingError>(outcome.receipt)
                &&& *final(settings) == outcome.settings
                &&& *final(endpoint) == outcome.endpoint
                &&& *final(stake) == outcome.stake
                &&& *final(staker_beneficiary) == outcome.staker
                &&& *final(primary_beneficiary) == outcome.primary
                &&& *final(secondary_beneficiary) == outcome.secondary
            },
            stake_outcome(
                *old(settings),
                *old(endpoint),
                *old(stake),
                *old(staker_beneficiary),
                *old(primary_beneficiary),
                *old(secondary_beneficiary),
                staker_signed,
                balance,
                raw_amount,
                now,
            ) matches Err(e) ==> {
                &&& result == Err::<StakeReceipt, StakingError>(e)
                &&& *final(settings) == *old(settings)
                &&& *final(endpoint) == *old(endpoint)
                &&& *final(stake) == *old(stake)
                &&& *final(staker_beneficiary) == *old(staker_beneficiary)
                &&& *final(primary_beneficiary) == *old(primary_beneficiary)
                &&& *final(secondary_beneficiary) == *old(secondary_beneficiary)
            },
            result.is_ok() ==> final(stake).wf() && final(settings).reward_per_share >= old(
                settings,
            ).reward_per_share,
    {
        if !staker_signed {
            return Err(StakingError::MissingStakeSignature);
        }
        if !staker_beneficiary.authority.same(&stake.staker)
            || !primary_beneficiary.authority.same(&endpoint.primary)
            || !secondary_beneficiary.authority.same(&endpoint.secondary) {
            return Err(StakingError::InvalidBeneficiaryAccount);
        }
        let staking = raw_amount >= 0;
        let amount: u64 = if staking {
            raw_amount as u64
        } else {
            (-(raw_amount as i128)) as u64
        };
        let mut position = *stake;
        let moved = if staking {
            position.deposit(amount)
        } else {
            position.unstake(amount, now, settings.unbonding_duration)
        };
        match moved {
            Ok(()) => {},
            Err(e) => { return Err(e); },
        }
        let mut pool = *settings;
        match pool.update_rewards(now) {
            Ok(()) => {},
            Err(e) => { return Err(e); },
        }
        let pool_total = match apply_amount(settings.total_stake, raw_amount) {
            Some(total) => total,
            None => { return Err(StakingError::ArithmeticOverflow); },
        };
        let endpoint_total = match apply_amount(endpoint.total_stake, raw_amount) {
            Some(total) => total,
            None => { return Err(StakingError::ArithmeticOverflow); },
        };
        let old_shares = split_stake(stake.total_stake);
        let new_shares = split_stake(position.total_stake);
        let mut roles: Vec<WorkingBeneficiary> = Vec::new();
        roles.push(
            WorkingBeneficiary {
                beneficiary: *staker_beneficiary,
                add: new_shares.0,
                sub: old_shares.0,
            },
        );
        roles.push(
            WorkingBeneficiary {
                beneficiary: *primary_beneficiary,
                add: new_shares.1,
                sub: old_shares.1,
            },
        );
        roles.push(
            WorkingBeneficiary {
                beneficiary: *secondary_beneficiary,
                add: new_shares.2,
                sub: old_shares.2,
            },
        );
        assert(roles@ =~= stake_roles(
            *staker_beneficiary,
            *primary_beneficiary,
            *secondary_beneficiary,
            stake.total_stake,
            position.total_stake,
        ));
        let records = match settle_roles(&roles, pool.reward_per_share) {
            Ok(records) => records,
            Err(e) => {
                return Err(e);
            },
        };
        let mut staker_record = records[0];
        let mut primary_record = records[1];
        let mut secondary_record = records[2];
        assert(Some(staker_record) == role_settled(roles@, pool.reward_per_share, 0));
        assert(Some(primary_record) == role_settled(roles@, pool.reward_per_share, 1));
        assert(Some(secondary_record) == role_settled(roles@, pool.reward_per_share, 2));
        // the staker may stake again at once what the settlement realized
        if staking && (balance as u128) + (staker_record.holding as u128) < amount as u128 {
            return Err(StakingError::StakerBalanceTooLow);
        }
        let claimed = staker_record.holding;
        if primary_record.authority.same(&staker_record.authority) {
            primary_record.holding = 0;
        }
        if secondary_record.authority.same(&staker_record.authority) {
            secondary_record.holding = 0;
        }
        staker_record.holding = 0;
        pool.total_stake = pool_total;
        *settings = pool;
        endpoint.total_stake = endpoint_total;
        *stake = position;
        *staker_beneficiary = staker_record;
        *primary_beneficiary = primary_record;
        *secondary_beneficiary = secondary_record;
        Ok(StakeReceipt { claimed, deposited: if staking { amount } else { 0 } })
    }

    /// Stakes or unstakes the signed amount at the time `now` under a
    /// split policy and a decay of the emission.
    ///
    /// `records` holds one record per weight of the policy, the staker's
    /// first. On success the pool, the endpoint's total, the position and
    /// the records are updated, and the result says what to transfer. On
    /// failure nothing changes.
    pub fn stake_with_policy(
        settings: &mut Settings,
        endpoint: &mut Endpoint,
        stake: &mut Stake,
        records: &mut Vec<Beneficiary>,
        policy: &SplitPolicy,
        decay: &Decay,
        staker_signed: bool,
        balance: u64,
        raw_amount: i64,
        now: i64,
    ) -> (result: Result<StakeReceipt, StakingError>)
        ensures
            policy_outcome(
                *old(settings),
                *old(endpoint),
                *old(stake),
                old(records)@,
                policy.weights@,
                *decay,
                staker_signed,
                balance,
                raw_amount,
                now,
            ) matches Ok(outcome) ==> {
                &&& result == Ok::<StakeReceipt, StakingError>(outcome.receipt)
                &&& *final(settings) == outcome.settings
                &&& *final(endpoint) == outcome.endpoint
                &&& *final(stake) == outcome.stake
                &&& final(records)@ == outcome.records
            },
            policy_outcome(
                *old(settings),
                *old(endpoint),
                *old(stake),
                old(records)@,
                policy.weights@,
                *decay,
                staker_signed,
                balance,
                raw_amount,
                now,
            ) matches Err(e) ==> {
                &&& result == Err::<StakeReceipt, StakingError>(e)
                &&& *final(settings) == *old(settings)
                &&& *final(endpoint) == *old(endpoint)
                &&& *final(stake) == *old(stake)
                &&& final(records)@ == old(records)@
            },
    {
        if !staker_signed {
            return Err(StakingError::MissingStakeSignature);
        }
        let n = records.len();
        if n == 0 || n != policy.weights.len() {
            return Err(StakingError::InvalidBeneficiaryAccount);
        }
        if !records[0].authority.same(&stake.staker) {
            return Err(StakingError::InvalidBeneficiaryAccount);
        }
        let staking = raw_amount >= 0;
        let amount: u64 = if staking {
            raw_amount as u64
        } else {
            (-(raw_amount as i128)) as u64
        };
        let mut position = *stake;
        let moved = if staking {
            position.deposit(amount)
        } else {
            position.unstake(amount, now, settings.unbonding_duration)
        };
        match moved {
            Ok(()) => {},
            Err(e) => { return Err(e); },
        }
        let mut pool = *settings;
        match pool.advance(now, decay) {
            Ok(()) => {},
            Err(e) => { return Err(e); },
        }
        let pool_total = match apply_amount(settings.total_stake, raw_amount) {
            Some(total) => total,
            None => { return Err(StakingError::ArithmeticOverflow); },
        };
        let endpoint_total = match apply_amount(endpoint.total_stake, raw_amount) {
            Some(total) => total,
            None => { return Err(StakingError::ArithmeticOverflow); },
        };
        let old_shares = match split(stake.total_stake, policy) {
            Some(shares) => shares,
            None => { return Err(StakingError::InvalidBeneficiaryAccount); },
        };
        let new_shares = match split(position.total_stake, policy) {
            Some(shares) => shares,
            None => { return Err(StakingError::InvalidBeneficiaryAccount); },
        };
        let ghost target = policy_roles(
            records@,
            policy.weights@,
            stake.total_stake,
            position.total_stake,
        );
        let mut roles: Vec<WorkingBeneficiary> = Vec::new();
        let mut i: usize = 0;
        while i < n
            invariant
                i <= n,
                n == records@.len(),
                n == old_shares@.len(),
                n == new_shares@.len(),
                target.len() == n,
                roles@.len() == i,
                forall|j: int| 0 <= j < i ==> roles@[j] == #[trigger] target[j],
                forall|j: int|
                    0 <= j < n ==> (#[trigger] target[j]) == (WorkingBeneficiary {
                        beneficiary: records@[j],
                        add: new_shares@[j],
                        sub: old_shares@[j],
                    }),
            decreases n - i,
        {
            roles.push(
                WorkingBeneficiary {
                    beneficiary: records[i],
                    add: new_shares[i],
                    sub: old_shares[i],
                },
            );
            i += 1;
        }
        assert(roles@ =~= target);
        let settled = match settle_roles(&roles, pool.reward_per_share) {
            Ok(settled) => settled,
            Err(e) => { return Err(e); },
        };
        let paid = settled[0];
        assert(Some(paid) == role_settled(target, pool.reward_per_share, 0));
        // the staker may stake again at once what the settlement realized
        if staking && (balance as u128) + (paid.holding as u128) < amount as u128 {
            return Err(StakingError::StakerBalanceTooLow);
        }
        let mut after: Vec<Beneficiary> = Vec::new();
        let mut k: usize = 0;
        while k < n
            invariant
                k <= n,
                n == settled@.len(),
                n == target.len(),
                after@.len() == k,
                forall|j: int|
                    0 <= j < n ==> Some(#[trigger] settled@[j]) == role_settled(
                        target,
                        pool.reward_per_share,
                        j,
                    ),
                forall|j: int|
                    0 <= j < k ==> (#[trigger] after@[j]) == after_payout(
                        role_settled(target, pool.reward_per_share, j).unwrap(),
                        paid,
                    ),
            decreases n - k,
        {
            let mut record = settled[k];
            if record.authority.same(&paid.authority) {
                record.holding = 0;
            }
            after.push(record);
            k += 1;
        }
        assert(after@ =~= Seq::new(
            n as nat,
            |j: int| after_payout(role_settled(target, pool.reward_per_share, j).unwrap(), paid),
        ));
        pool.total_stake = pool_total;
        *settings = pool;
        endpoint.total_stake = endpoint_total;
        *stake = position;
        *records = after;
        Ok(StakeReceipt { claimed: paid.holding, deposited: if staking { amount } else { 0 } })
    }

    /// Withdraws what has finished unbonding at the time `now` and returns
    /// the amount to transfer from the staker's fund to the staker.
    pub fn process_withdraw_unbond(
        stake: &mut Stake,
        staker_signed: bool,
        now: i64,
    ) -> (result: Result<u64, StakingError>)
        ensures
            !staker_signed ==> result == Err::<u64, StakingError>(
                StakingError::MissingStakeSignature,
            ) && *final(stake) == *old(stake),
            staker_signed ==> (old(stake).withdrawn(now) matches Ok(done) ==> result == Ok::<
                u64,
                StakingError,
            >(done.1) && *final(stake) == done.0),
            staker_signed ==> (old(stake).withdrawn(now) matches Err(e) ==> result == Err::<
                u64,
                StakingError,
            >(e) && *final(stake) == *old(stake)),
    {
        if !staker_signed {
            return Err(StakingError::MissingStakeSignature);
        }
        stake.withdraw_unbonded(now)
    }

    /// Settles a record at the time `now` without changing its stake and
    /// returns the reward to transfer from the reward pool to its
    /// authority. On failure nothing changes.
    pub fn process_claim(
        settings: &mut Settings,
        beneficiary: &mut Beneficiary,
        authority_signed: bool,
        now: i64,
    ) -> (result: Result<u64, StakingError>)
        ensures
            claim_outcome(*old(settings), *old(beneficiary), authority_signed, now) matches Ok(
                outcome,
            ) ==> result == Ok::<u64, StakingError>(outcome.2) && *final(settings) == outcome.0
                && *final(beneficiary) == outcome.1,
            claim_outcome(*old(settings), *old(beneficiary), authority_signed, now) matches Err(e)
                ==> result == Err::<u64, StakingError>(e) && *final(settings) == *old(settings)
                && *final(beneficiary) == *old(beneficiary),
            result.is_ok() ==> final(beneficiary).holding == 0 && final(beneficiary).staked == old(
                beneficiary,
            ).staked,
    {
        if !authority_signed {
            return Err(StakingError::MissingAuthoritySignature);
        }
        let mut pool = *settings;
        match pool.update_rewards(now) {
            Ok(()) => {},
            Err(e) => { return Err(e); },
        }
        let mut record = *beneficiary;
        match record.pay_out(record.staked, pool.reward_per_share) {
            Ok(()) => {},
            Err(e) => { return Err(e); },
        }
        let amount = record.take_holding();
        *settings = pool;
        *beneficiary = record;
        Ok(amount)
    }

    /// Decides the handing over of an endpoint from whether its present
    /// owner signed and from the outcome of the new owner's verification.
    pub fn transfer_endpoint(
        endpoint: &mut Endpoint,
        owner_signed: bool,
        new_owner_verified: Result<(), StakingError>,
        new_owner: Authority,
    ) -> (result: Result<(), StakingError>)
        ensures
            result == transfer_outcome(owner_signed, new_owner_verified),
            result.is_ok() ==> *final(endpoint) == (Endpoint { owner: new_owner, ..*old(endpoint) }),
            result.is_err() ==> *final(endpoint) == *old(endpoint),
    {
        if !owner_signed {
            return Err(StakingError::MissingAuthoritySignature);
        }
        if new_owner_verified.is_ok() {
            endpoint.owner = new_owner;
        }
        new_owner_verified
    }

    /// Hands the endpoint to a new owner. The present owner must have
    /// signed, and the new owner must match the recipient account.
    pub fn process_transfer_endpoint(
        endpoint: &mut Endpoint,
        owner: &Address,
        owner_data: &[u8],
        signer: &Address,
        is_signer: bool,
        new_owner: Authority,
        recipient: &Address,
        recipient_data: &[u8],
    ) -> (result: Result<(), StakingError>)
        ensures
            result == transfer_outcome(
                old(endpoint).owner.signed(
                    owner@,
                    unpacked_account(owner_data@),
                    signer@,
                    is_signer,
                ),
                new_owner.verified(recipient@, unpacked_mint(recipient_data@)),
            ),
            result.is_ok() ==> *final(endpoint) == (Endpoint { owner: new_owner, ..*old(endpoint) }),
            result.is_err() ==> *final(endpoint) == *old(endpoint),
    {
        let owner_signed = endpoint.owner.has_signed(owner, owner_data, signer, is_signer);
        let new_owner_verified = new_owner.verify(recipient, recipient_data);
        Self::transfer_endpoint(endpoint, owner_signed, new_owner_verified, new_owner)
    }

    /// Replaces the beneficiaries of an endpoint at the time `now`: the
    /// shares of the endpoint's stake move from the records of the old
    /// beneficiaries to those of the new ones. `owner_signed` says whether
    /// the endpoint's owner signed. The old records must be those of the
    /// endpoint's beneficiaries, else the change is rejected with
    /// `InvalidBeneficiaryAccount`. On failure nothing changes.
    pub fn process_change_beneficiaries(
        settings: &mut Settings,
        endpoint: &mut Endpoint,
        old_primary: &mut Beneficiary,
        old_secondary: &mut Beneficiary,
        new_primary: &mut Beneficiary,
        new_secondary: &mut Beneficiary,
        owner_signed: bool,
        now: i64,
    ) -> (result: Result<(), StakingError>)
        ensures
            change_outcome(
                *old(settings),
                *old(endpoint),
                *old(old_primary),
                *old(old_secondary),
                *old(new_primary),
                *old(new_secondary),
                owner_signed,
                now,
            ) matches Ok(outcome) ==> {
                &&& result.is_ok()
                &&& *final(settings) == outcome.settings
                &&& *final(endpoint) == outcome.endpoint
                &&& *final(old_primary) == outcome.old_primary
                &&& *final(old_secondary) == outcome.old_secondary
                &&& *final(new_primary) == outcome.new_primary
                &&& *final(new_secondary) == outcome.new_secondary
            },
            change_outcome(
                *old(settings),
                *old(endpoint),
                *old(old_primary),
                *old(old_secondary),
                *old(new_primary),
                *old(new_secondary),
                owner_signed,
                now,
            ) matches Err(e) ==> {
                &&& result == Err::<(), StakingError>(e)
                &&& *final(settings) == *old(settings)
                &&& *final(endpoint) == *old(endpoint)
                &&& *final(old_primary) == *old(old_primary)
                &&& *final(old_secondary) == *old(old_secondary)
                &&& *final(new_primary) == *old(new_primary)
                &&& *final(new_secondary) == *old(new_secondary)
            },
    {
        if !owner_signed {
            return Err(StakingError::MissingAuthoritySignature);
        }
        if !old_primary.authority.same(&endpoint.primary) || !old_secondary.authority.same(
            &endpoint.secondary,
        ) {
            return Err(StakingError::InvalidBeneficiaryAccount);
        }
        let mut pool = *settings;
        match pool.update_rewards(now) {
            Ok(()) => {},
            Err(e) => { return Err(e); },
        }
        let shares = split_stake(endpoint.total_stake);
        let mut roles: Vec<WorkingBeneficiary> = Vec::new();
        roles.push(WorkingBeneficiary { beneficiary: *old_primary, add: 0, sub: shares.1 });
        roles.push(WorkingBeneficiary { beneficiary: *old_secondary, add: 0, sub: shares.2 });
        roles.push(WorkingBeneficiary { beneficiary: *new_primary, add: shares.1, sub: 0 });
        roles.push(WorkingBeneficiary { beneficiary: *new_secondary, add: shares.2, sub: 0 });
        assert(roles@ =~= change_roles(
            *old_primary,
            *old_secondary,
            *new_primary,
            *new_secondary,
            endpoint.total_stake,
        ));
        let records = match settle_roles(&roles, pool.reward_per_share) {
            Ok(records) => records,
            Err(e) => { return Err(e); },
        };
        assert(Some(records@[0]) == role_settled(roles@, pool.reward_per_share, 0));
        assert(Some(records@[1]) == role_settled(roles@, pool.reward_per_share, 1));
        assert(Some(records@[2]) == role_settled(roles@, pool.reward_per_share, 2));
        assert(Some(records@[3]) == role_settled(roles@, pool.reward_per_share, 3));
        endpoint.primary = new_primary.authority;
        endpoint.secondary = new_secondary.authority;
        *settings = pool;
        *old_primary = records[0];
        *old_secondary = records[1];
        *new_primary = records[2];
        *new_secondary = records[3];
        Ok(())
    }
}

} // verus!
