//! Settlement of several beneficiaries at once, where some of them may be
//! one and the same principal.
//!
//! Each role of a settlement (the staker, the primary beneficiary, ...)
//! names a record, an amount that joins its stake and an amount that
//! leaves it. Roles held by the same authority share one record: what the
//! roles add and take away is summed up first and the record is settled
//! once.
use vstd::prelude::*;
use crate::address::Address;
use crate::beneficiary::Beneficiary;
use crate::error::StakingError;

verus! {

/// A record that is being settled, with what joins and what leaves its
/// stake.
#[derive(Clone, Copy, Debug, PartialEq, Eq)]
pub struct WorkingBeneficiary {
    pub beneficiary: Beneficiary,
    pub add: u64,
    pub sub: u64,
}

/// The sum of what the roles held by `key` add to its stake (`adding`) or
/// take away from it (otherwise).
pub open spec fn role_total(roles: Seq<WorkingBeneficiary>, key: Seq<u8>, adding: bool) -> nat
    decreases roles.len(),
{
    if roles.len() == 0 {
        0
    } else {
        role_total(roles.drop_last(), key, adding) + if roles.last().beneficiary.authority@
            != key {
            0nat
        } else if adding {
            roles.last().add as nat
        } else {
            roles.last().sub as nat
        }
    }
}

/// The record of the first role that `key` holds, if it holds one.
pub open spec fn first_record(roles: Seq<WorkingBeneficiary>, key: Seq<u8>) -> Option<
    Beneficiary,
>
    decreases roles.len(),
{
    if roles.len() == 0 {
        None
    } else {
        match first_record(roles.drop_last(), key) {
            Some(record) => Some(record),
            None => if roles.last().beneficiary.authority@ == key {
                Some(roles.last().beneficiary)
            } else {
                None
            },
        }
    }
}

/// The stake that the record `record` of the authority `key` is left with,
/// if it stays in range on the way up and on the way down.
pub open spec fn role_stake(roles: Seq<WorkingBeneficiary>, key: Seq<u8>, record: Beneficiary)
    -> Option<u64> {
    let raised = record.staked + role_total(roles, key, true);
    let lowered = role_total(roles, key, false);
    if raised > u64::MAX || raised < lowered {
        None
    } else {
        Some((raised - lowered) as u64)
    }
}

/// The record that role `i` ends up with: the record of the first role of
/// the same authority, settled at `reward_per_share` with a stake changed
/// by all that the roles of this authority add and take away. There is
/// none if the stake or a value of the settlement leaves its range.
pub open spec fn role_settled(roles: Seq<WorkingBeneficiary>, reward_per_share: u128, i: int)
    -> Option<Beneficiary>
    recommends
        0 <= i < roles.len(),
{
    let key = roles[i].beneficiary.authority@;
    match first_record(roles, key) {
        None => None,
        Some(record) => match role_stake(roles, key, record) {
            None => None,
            Some(stake) => record.settled(stake, reward_per_share),
        },
    }
}

/// A total over the first roles is at most the total over all.
pub proof fn lemma_role_total_prefix(
    roles: Seq<WorkingBeneficiary>,
    key: Seq<u8>,
    adding: bool,
    k: int,
)
    requires
        0 <= k <= roles.len(),
    ensures
        role_total(roles.take(k), key, adding) <= role_total(roles, key, adding),
    decreases roles.len() - k,
{
    if k < roles.len() {
        lemma_role_total_prefix(roles, key, adding, k + 1);
        assert(roles.take(k + 1).drop_last() =~= roles.take(k));
    } else {
        assert(roles.take(k) =~= roles);
    }
}

/// An authority that holds no role has no record and no total.
pub proof fn lemma_absent_key(roles: Seq<WorkingBeneficiary>, key: Seq<u8>)
    requires
        forall|j: int| 0 <= j < roles.len() ==> (#[trigger] roles[j]).beneficiary.authority@ != key,
    ensures
        first_record(roles, key).is_none(),
        role_total(roles, key, true) == 0,
        role_total(roles, key, false) == 0,
    decreases roles.len(),
{
    if roles.len() > 0 {
        assert(roles.last() == roles[roles.len() - 1]);
        assert forall|j: int| 0 <= j < roles.drop_last().len() implies (
        #[trigger] roles.drop_last()[j]).beneficiary.authority@ != key by {
            assert(roles.drop_last()[j] == roles[j]);
        }
        lemma_absent_key(roles.drop_last(), key);
    }
}

/// The first record of an authority belongs to that authority, and it is
/// still the first when more roles follow.
pub proof fn lemma_first_record_stays(roles: Seq<WorkingBeneficiary>, key: Seq<u8>, k: int)
    requires
        0 <= k <= roles.len(),
    ensures
        first_record(roles, key) matches Some(record) ==> record.authority@ == key,
        first_record(roles.take(k), key).is_some() ==> first_record(roles, key) == first_record(
            roles.take(k),
            key,
        ),
    decreases roles.len(),
{
    if roles.len() > 0 {
        if k < roles.len() {
            lemma_first_record_stays(roles.drop_last(), key, k);
            assert(roles.drop_last().take(k) =~= roles.take(k));
        } else {
            lemma_first_record_stays(roles.drop_last(), key, k - 1);
            assert(roles.take(k) =~= roles);
        }
    } else {
        assert(roles.take(k) =~= roles);
    }
}

/// Inserts a record for `owner` unless the list holds one already, and
/// returns the place of the owner's record: that of the first record with
/// this authority, or a new last place where `beneficiary` stands with
/// nothing to add and nothing to take away.
pub fn insert_beneficiary(
    beneficiaries: &mut Vec<WorkingBeneficiary>,
    owner: Address,
    beneficiary: Beneficiary,
) -> (idx: usize)
    ensures
        idx < final(beneficiaries)@.len(),
        forall|j: int| 0 <= j < idx ==> (#[trigger] old(beneficiaries)@[j]).beneficiary.authority@
            != owner@,
        idx < old(beneficiaries)@.len() ==> final(beneficiaries)@ == old(beneficiaries)@
            && old(beneficiaries)@[idx as int].beneficiary.authority@ == owner@,
        idx >= old(beneficiaries)@.len() ==> idx == old(beneficiaries)@.len()
            && final(beneficiaries)@ == old(beneficiaries)@.push(
            WorkingBeneficiary { beneficiary, add: 0, sub: 0 },
        ),
{
    let mut i: usize = 0;
    while i < beneficiaries.len()
        invariant
            i <= beneficiaries@.len(),
            beneficiaries@ == old(beneficiaries)@,
            forall|j: int| 0 <= j < i ==> (#[trigger] beneficiaries@[j]).beneficiary.authority@
                != owner@,
        decreases beneficiaries@.len() - i,
    {
        if beneficiaries[i].beneficiary.authority.same(&owner) {
            return i;
        }
        i += 1;
    }
    beneficiaries.push(WorkingBeneficiary { beneficiary, add: 0, sub: 0 });
    i
}

/// The list `working` holds one record per authority among the first `k`
/// roles, each with the totals of its roles so far; `places` says where
/// the record of each role stands, and `origin` names a role for each
/// place.
pub open spec fn tracks(
    working: Seq<WorkingBeneficiary>,
    places: Seq<usize>,
    origin: Seq<int>,
    roles: Seq<WorkingBeneficiary>,
    k: int,
) -> bool {
    &&& 0 <= k <= roles.len()
    &&& places.len() == k
    &&& origin.len() == working.len()
    &&& forall|p: int|
        0 <= p < working.len() ==> {
            let key = (#[trigger] working[p]).beneficiary.authority@;
            &&& first_record(roles.take(k), key) == Some(working[p].beneficiary)
            &&& working[p].add == role_total(roles.take(k), key, true)
            &&& working[p].sub == role_total(roles.take(k), key, false)
        }
    &&& forall|p: int, q: int|
        0 <= p < q < working.len() ==> (#[trigger] working[p]).beneficiary.authority@ != (
        #[trigger] working[q]).beneficiary.authority@
    &&& forall|j: int|
        0 <= j < k ==> (#[trigger] places[j]) < working.len() && working[places[j] as int]
            .beneficiary.authority@ == roles[j].beneficiary.authority@
    &&& forall|p: int|
        0 <= p < working.len() ==> 0 <= (#[trigger] origin[p]) < k
            && roles[origin[p]].beneficiary.authority@ == working[p].beneficiary.authority@
}

/// Settles the records of all roles at `reward_per_share`.
///
/// Each entry of `roles` is one role: its record, what joins the record's
/// stake and what leaves it. The result holds, for each role, the record
/// of its authority after the settlement. Roles of one authority get the
/// same record, settled once with the sum of their changes. If the stake
/// or the settlement of any role leaves its range, everything is rejected.
pub fn settle_roles(roles: &Vec<WorkingBeneficiary>, reward_per_share: u128) -> (result: Result<
    Vec<Beneficiary>,
    StakingError,
>)
    ensures
        result.is_ok() <==> (forall|i: int|
            0 <= i < roles@.len() ==> (#[trigger] role_settled(
                roles@,
                reward_per_share,
                i,
            )).is_some()),
        result matches Ok(records) ==> records@.len() == roles@.len() && (forall|i: int|
            0 <= i < roles@.len() ==> Some(#[trigger] records@[i]) == role_settled(
                roles@,
                reward_per_share,
                i,
            )),
        result matches Err(e) ==> e == StakingError::ArithmeticOverflow,
{
    let n = roles.len();
    let mut working: Vec<WorkingBeneficiary> = Vec::new();
    let mut places: Vec<usize> = Vec::new();
    let ghost mut origin: Seq<int> = Seq::empty();
    let mut k: usize = 0;
    assert(roles@.take(0) =~= Seq::<WorkingBeneficiary>::empty());
    while k < n
        invariant
            n == roles@.len(),
            k <= n,
            tracks(working@, places@, origin, roles@, k as int),
        decreases n - k,
    {
        let role = roles[k];
        let ghost key = role.beneficiary.authority@;
        let ghost before = working@;
        let ghost seen = roles@.take(k as int);
        let ghost next = roles@.take(k + 1);
        let place = insert_beneficiary(&mut working, role.beneficiary.authority, role.beneficiary);
        proof {
            assert(next.drop_last() =~= seen);
            assert(next.last() == role);
            if place >= before.len() {
                assert forall|j: int| 0 <= j < seen.len() implies (
                #[trigger] seen[j]).beneficiary.authority@ != key by {
                    assert(before[places@[j] as int].beneficiary.authority@ == roles@[j]
                        .beneficiary.authority@);
                }
                lemma_absent_key(seen, key);
                origin = origin.push(k as int);
            }
            lemma_role_total_prefix(roles@, key, true, k + 1);
            lemma_role_total_prefix(roles@, key, false, k + 1);
            lemma_first_record_stays(roles@, key, k + 1);
        }
        let mut entry = working[place];
        let ghost stored = entry;
        assert(first_record(next, key) == Some(entry.beneficiary));
        assert(entry.add + role.add == role_total(next, key, true));
        assert(entry.sub + role.sub == role_total(next, key, false));
        entry.add = match entry.add.checked_add(role.add) {
            Some(sum) => sum,
            None => {
                assert(role_settled(roles@, reward_per_share, k as int).is_none());
                return Err(StakingError::ArithmeticOverflow);
            },
        };
        entry.sub = match entry.sub.checked_add(role.sub) {
            Some(sum) => sum,
            None => {
                assert(role_settled(roles@, reward_per_share, k as int).is_none());
                return Err(StakingError::ArithmeticOverflow);
            },
        };
        let ghost grown = working@;
        working.set(place, entry);
        places.push(place);
        proof {
            assert forall|p: int| 0 <= p < working@.len() implies {
                let other = (#[trigger] working@[p]).beneficiary.authority@;
                &&& first_record(next, other) == Some(working@[p].beneficiary)
                &&& working@[p].add == role_total(next, other, true)
                &&& working@[p].sub == role_total(next, other, false)
            } by {
                if p != place {
                    assert(working@[p] == grown[p]);
                    assert(grown[p] == before[p]);
                    if place < before.len() {
                        assert(before[p].beneficiary.authority@ != before[place as int]
                            .beneficiary.authority@);
                    }
                }
            }
            assert forall|p: int, q: int| 0 <= p < q < working@.len() implies (
            #[trigger] working@[p]).beneficiary.authority@ != (
            #[trigger] working@[q]).beneficiary.authority@ by {
                if q < before.len() {
                    assert(before[p].beneficiary.authority@ != before[q].beneficiary.authority@);
                } else {
                    assert(before[p].beneficiary.authority@ != key);
                }
            }
            assert forall|j: int| 0 <= j < k + 1 implies (#[trigger] places@[j]) < working@.len()
                && working@[places@[j] as int].beneficiary.authority@ == roles@[j]
                .beneficiary.authority@ by {
                if j < k {
                    assert(before[places@[j] as int].beneficiary.authority@ == roles@[j]
                        .beneficiary.authority@);
                }
            }
            assert forall|p: int| 0 <= p < working@.len() implies 0 <= (#[trigger] origin[p]) < k
                + 1 && roles@[origin[p]].beneficiary.authority@ == working@[p]
                .beneficiary.authority@ by {
                if p < before.len() {
                    assert(before[p].beneficiary.authority@ == working@[p].beneficiary.authority@);
                }
            }
        }
        k += 1;
    }
    assert(roles@.take(n as int) =~= roles@);
    let mut settled: Vec<Beneficiary> = Vec::new();
    let mut p: usize = 0;
    while p < working.len()
        invariant
            n == roles@.len(),
            tracks(working@, places@, origin, roles@, n as int),
            roles@.take(n as int) == roles@,
            p <= working@.len(),
            settled@.len() == p,
            forall|q: int|
                0 <= q < p ==> {
                    let entry = #[trigger] working@[q];
                    match role_stake(roles@, entry.beneficiary.authority@, entry.beneficiary) {
                        None => false,
                        Some(stake) => Some(settled@[q]) == entry.beneficiary.settled(
                            stake,
                            reward_per_share,
                        ),
                    }
                },
        decreases working@.len() - p,
    {
        let entry = working[p];
        let ghost witness = origin[p as int];
        assert(first_record(roles@, entry.beneficiary.authority@) == Some(entry.beneficiary));
        assert(roles@[witness].beneficiary.authority@ == entry.beneficiary.authority@);
        let raised = match entry.beneficiary.staked.checked_add(entry.add) {
            Some(sum) => sum,
            None => {
                assert(role_settled(roles@, reward_per_share, witness).is_none());
                return Err(StakingError::ArithmeticOverflow);
            },
        };
        let stake = match raised.checked_sub(entry.sub) {
            Some(stake) => stake,
            None => {
                assert(role_settled(roles@, reward_per_share, witness).is_none());
                return Err(StakingError::ArithmeticOverflow);
            },
        };
        let mut record = entry.beneficiary;
        match record.pay_out(stake, reward_per_share) {
            Ok(()) => {},
            Err(e) => {
                assert(role_settled(roles@, reward_per_share, witness).is_none());
                return Err(e);
            },
        }
        settled.push(record);
        p += 1;
    }
    let mut records: Vec<Beneficiary> = Vec::new();
    let mut i: usize = 0;
    while i < n
        invariant
            n == roles@.len(),
            i <= n,
            records@.len() == i,
            tracks(working@, places@, origin, roles@, n as int),
            roles@.take(n as int) == roles@,
            settled@.len() == working@.len(),
            forall|q: int|
                0 <= q < working@.len() ==> {
                    let entry = #[trigger] working@[q];
                    match role_stake(roles@, entry.beneficiary.authority@, entry.beneficiary) {
                        None => false,
                        Some(stake) => Some(settled@[q]) == entry.beneficiary.settled(
                            stake,
                            reward_per_share,
                        ),
                    }
                },
            forall|j: int|
                0 <= j < i ==> Some(#[trigger] records@[j]) == role_settled(
                    roles@,
                    reward_per_share,
                    j,
                ),
        decreases n - i,
    {
        let place = places[i];
        assert(working@[place as int].beneficiary.authority@ == roles@[i as int]
            .beneficiary.authority@);
        records.push(settled[place]);
        i += 1;
    }
    assert forall|i: int| 0 <= i < roles@.len() implies (#[trigger] role_settled(
        roles@,
        reward_per_share,
        i,
    )).is_some() by {
        assert(Some(records@[i]) == role_settled(roles@, reward_per_share, i));
    }
    Ok(records)
}

} // verus!
