//! Division of one staked amount among the beneficiaries of a stake.
//!
//! A policy is a list of weights, one per beneficiary. The beneficiary at
//! index 0 is the primary one (the staker). The shares are cut from the last
//! beneficiary to the second: each takes its weight's part of what is still
//! undivided, rounded down, relative to the weights not yet served. The
//! primary beneficiary takes whatever is left, so nothing leaks.
use vstd::prelude::*;
use vstd::arithmetic::div_mod::lemma_div_is_ordered;
use vstd::arithmetic::div_mod::lemma_div_multiples_vanish_fancy;
use vstd::arithmetic::div_mod::lemma_fundamental_div_mod;
use vstd::arithmetic::mul::lemma_mul_inequality;
use vstd::arithmetic::mul::lemma_mul_is_commutative;
use vstd::arithmetic::mul::lemma_mul_is_distributive_add;

verus! {

/// The sum of a list of weights.
pub open spec fn weight_sum(weights: Seq<u64>) -> nat
    decreases weights.len(),
{
    if weights.len() == 0 {
        0
    } else {
        weight_sum(weights.drop_last()) + weights.last() as nat
    }
}

/// The part of `rest` that a weight `weight` earns among weights that sum
/// to `total`, rounded down; nothing when there is no weight at all.
pub open spec fn portion(rest: nat, weight: nat, total: nat) -> nat {
    if total == 0 {
        0
    } else {
        (rest * weight) / total
    }
}

/// The shares of `amount` under `weights`, one per weight and in their order.
pub open spec fn split_shares(amount: nat, weights: Seq<u64>) -> Seq<nat>
    decreases weights.len(),
{
    if weights.len() == 0 {
        Seq::empty()
    } else if weights.len() == 1 {
        seq![amount]
    } else {
        let cut = portion(amount, weights.last() as nat, weight_sum(weights));
        split_shares((amount - cut) as nat, weights.drop_last()).push(cut)
    }
}

/// The sum of a list of shares.
pub open spec fn share_sum(shares: Seq<nat>) -> nat
    decreases shares.len(),
{
    if shares.len() == 0 {
        0
    } else {
        share_sum(shares.drop_last()) + shares.last()
    }
}

/// A weight's portion never exceeds what is divided, as long as the weight
/// is one of those that make up the total.
pub proof fn lemma_portion_bounded(rest: nat, weight: nat, total: nat)
    requires
        weight <= total,
    ensures
        portion(rest, weight, total) <= rest,
{
    if total > 0 {
        lemma_mul_inequality(weight as int, total as int, rest as int);
        lemma_mul_is_commutative(weight as int, rest as int);
        lemma_mul_is_commutative(total as int, rest as int);
        lemma_div_is_ordered((rest * weight) as int, (rest * total) as int, total as int);
        lemma_div_multiples_vanish_fancy(rest as int, 0, total as int);
    }
}

/// Both the portion and what it leaves behind grow with the amount divided.
pub proof fn lemma_portion_monotonic(low: nat, high: nat, weight: nat, total: nat)
    requires
        low <= high,
        weight <= total,
    ensures
        portion(low, weight, total) <= portion(high, weight, total),
        low - portion(low, weight, total) <= high - portion(high, weight, total),
{
    if total > 0 {
        let t = total as int;
        let extra = (high - low) as int;
        lemma_mul_inequality(low as int, high as int, weight as int);
        lemma_div_is_ordered((low * weight) as int, (high * weight) as int, t);
        // high * weight <= low * weight + extra * total
        lemma_mul_is_distributive_add(weight as int, low as int, extra);
        lemma_mul_is_commutative(weight as int, low as int);
        lemma_mul_is_commutative(weight as int, high as int);
        lemma_mul_is_commutative(weight as int, extra);
        lemma_mul_inequality(weight as int, t, extra);
        lemma_mul_is_commutative(t, extra);
        assert(high * weight <= low * weight + extra * t);
        lemma_div_is_ordered((high * weight) as int, low * weight + extra * t, t);
        // (low * weight + extra * total) / total == (low * weight) / total + extra
        lemma_fundamental_div_mod((low * weight) as int, t);
        let q = ((low * weight) as int) / t;
        let r = ((low * weight) as int) % t;
        assert(low * weight + extra * t == t * (q + extra) + r) by (nonlinear_arith)
            requires
                low * weight == t * q + r,
        ;
        lemma_div_multiples_vanish_fancy(q + extra, r, t);
        lemma_mul_is_commutative(t, q + extra);
    }
}

/// There is one share per weight.
pub proof fn lemma_split_len(amount: nat, weights: Seq<u64>)
    ensures
        split_shares(amount, weights).len() == weights.len(),
    decreases weights.len(),
{
    if weights.len() >= 2 {
        let cut = portion(amount, weights.last() as nat, weight_sum(weights));
        lemma_split_len((amount - cut) as nat, weights.drop_last());
    }
}

/// The shares of any amount add up to exactly that amount.
pub proof fn lemma_split_conserves(amount: nat, weights: Seq<u64>)
    requires
        weights.len() >= 1,
    ensures
        share_sum(split_shares(amount, weights)) == amount,
    decreases weights.len(),
{
    if weights.len() == 1 {
        let one = seq![amount];
        assert(one.drop_last() =~= Seq::<nat>::empty());
        assert(share_sum(one.drop_last()) == 0);
    } else {
        let cut = portion(amount, weights.last() as nat, weight_sum(weights));
        lemma_portion_bounded(amount, weights.last() as nat, weight_sum(weights));
        let head = split_shares((amount - cut) as nat, weights.drop_last());
        lemma_split_conserves((amount - cut) as nat, weights.drop_last());
        assert(head.push(cut).drop_last() =~= head);
    }
}

/// A larger amount gives every beneficiary at least the share that a
/// smaller amount gives it.
pub proof fn lemma_split_monotonic(low: nat, high: nat, weights: Seq<u64>, i: int)
    requires
        low <= high,
        0 <= i < weights.len(),
    ensures
        split_shares(low, weights).len() == weights.len(),
        split_shares(high, weights).len() == weights.len(),
        split_shares(low, weights)[i] <= split_shares(high, weights)[i],
    decreases weights.len(),
{
    lemma_split_len(low, weights);
    lemma_split_len(high, weights);
    if weights.len() >= 2 {
        let w = weights.last() as nat;
        let total = weight_sum(weights);
        lemma_portion_monotonic(low, high, w, total);
        lemma_portion_bounded(low, w, total);
        lemma_portion_bounded(high, w, total);
        if i < weights.len() - 1 {
            let low_rest = (low - portion(low, w, total)) as nat;
            let high_rest = (high - portion(high, w, total)) as nat;
            lemma_split_monotonic(low_rest, high_rest, weights.drop_last(), i);
        }
    }
}

/// How a staked amount is divided: one weight per beneficiary, the primary
/// beneficiary first. A policy needs at least one weight: where there is no
/// beneficiary, nothing can take the amount.
pub struct SplitPolicy {
    pub weights: Vec<u64>,
}

impl SplitPolicy {
    /// A policy for the staker, the endpoint's primary beneficiary and its
    /// secondary beneficiary, at 47.5%, 47.5% and 5%.
    pub fn three_way() -> (policy: SplitPolicy)
        ensures
            policy.weights@ == seq![475u64, 475u64, 50u64],
    {
        let mut weights: Vec<u64> = Vec::new();
        weights.push(475);
        weights.push(475);
        weights.push(50);
        assert(weights@ =~= seq![475u64, 475u64, 50u64]);
        SplitPolicy { weights }
    }

    /// A policy with a fourth beneficiary that collects a fee: 45%, 45%, 5%
    /// and 5%.
    pub fn four_way() -> (policy: SplitPolicy)
        ensures
            policy.weights@ == seq![450u64, 450u64, 50u64, 50u64],
    {
        let mut weights: Vec<u64> = Vec::new();
        weights.push(450);
        weights.push(450);
        weights.push(50);
        weights.push(50);
        assert(weights@ =~= seq![450u64, 450u64, 50u64, 50u64]);
        SplitPolicy { weights }
    }

    /// The number of beneficiaries.
    pub fn arity(&self) -> (n: usize)
        ensures
            n == self.weights@.len(),
    {
        self.weights.len()
    }
}

/// The shares of a list, as numbers.
pub open spec fn shares_of(shares: Seq<u64>) -> Seq<nat> {
    shares.map_values(|share: u64| share as nat)
}

/// Divides `amount` among the beneficiaries of `policy`.
///
/// The result holds one share per weight, in the policy's order. The shares
/// add up to `amount`, and none of them shrinks when `amount` grows. A
/// policy without weights divides nothing: there is no result for it.
pub fn split(amount: u64, policy: &SplitPolicy) -> (shares: Option<Vec<u64>>)
    ensures
        shares.is_some() <==> policy.weights@.len() >= 1,
        shares matches Some(list) ==> {
            &&& list@.len() == policy.weights@.len()
            &&& shares_of(list@) == split_shares(amount as nat, policy.weights@)
            &&& share_sum(shares_of(list@)) == amount
            &&& forall|j: int|
                0 <= j < list@.len() ==> list@[j] as nat == #[trigger] split_shares(
                    amount as nat,
                    policy.weights@,
                )[j]
        },
{
    let n = policy.weights.len();
    if n == 0 {
        return None;
    }
    let ghost target = split_shares(amount as nat, policy.weights@);
    proof {
        lemma_split_len(amount as nat, policy.weights@);
        lemma_split_conserves(amount as nat, policy.weights@);
    }
    let mut shares: Vec<u64> = Vec::new();
    let mut k: usize = 0;
    while k < n
        invariant
            k <= n,
            shares@.len() == k,
        decreases n - k,
    {
        shares.push(0);
        k += 1;
    }
    let mut total: u128 = 0;
    let mut j: usize = 0;
    while j < n
        invariant
            j <= n,
            n == policy.weights@.len(),
            total == weight_sum(policy.weights@.take(j as int)),
            total <= j * 0xffff_ffff_ffff_ffff,
        decreases n - j,
    {
        proof {
            let next = policy.weights@.take(j + 1);
            assert(next.drop_last() =~= policy.weights@.take(j as int));
            assert(next.last() == policy.weights@[j as int]);
        }
        total = total + policy.weights[j] as u128;
        j += 1;
    }
    let mut rest = amount;
    let mut i: usize = n - 1;
    assert(policy.weights@.take(n as int) =~= policy.weights@);
    while i > 0
        invariant
            i < n,
            n == policy.weights@.len(),
            shares@.len() == n,
            target == split_shares(amount as nat, policy.weights@),
            target.len() == n,
            total == weight_sum(policy.weights@.take(i + 1)),
            forall|j: int| i < j < n ==> shares@[j] as nat == #[trigger] target[j],
            forall|j: int|
                0 <= j <= i ==> #[trigger] target[j] == split_shares(
                    rest as nat,
                    policy.weights@.take(i + 1),
                )[j],
        decreases i,
    {
        let weight = policy.weights[i];
        let ghost prefix = policy.weights@.take(i + 1);
        proof {
            assert(prefix.last() == weight);
            assert(prefix.drop_last() =~= policy.weights@.take(i as int));
            lemma_portion_bounded(rest as nat, weight as nat, total as nat);
            assert(rest * weight <= 0xffff_ffff_ffff_ffff * 0xffff_ffff_ffff_ffff)
                by (nonlinear_arith)
                requires
                    rest <= 0xffff_ffff_ffff_ffff,
                    weight <= 0xffff_ffff_ffff_ffff,
            ;
        }
        let cut: u64 = if total == 0 {
            0
        } else {
            ((rest as u128 * weight as u128) / total) as u64
        };
        proof {
            assert(cut as nat == portion(rest as nat, weight as nat, total as nat));
            let head = split_shares((rest - cut) as nat, prefix.drop_last());
            lemma_split_len((rest - cut) as nat, prefix.drop_last());
            assert(split_shares(rest as nat, prefix) == head.push(cut as nat));
            assert forall|j: int| 0 <= j <= i - 1 implies #[trigger] target[j] == head[j] by {
                assert(head.push(cut as nat)[j] == head[j]);
            }
            assert(target[i as int] == cut as nat);
        }
        shares.set(i, cut);
        rest = rest - cut;
        total = total - weight as u128;
        i -= 1;
    }
    shares.set(0, rest);
    assert(shares_of(shares@) =~= target);
    Some(shares)
}

/// The shares of the staker, the primary and the secondary beneficiary of
/// a staked amount: a twentieth for the secondary beneficiary, half of the
/// rest for the primary one, and what is left for the staker.
pub open spec fn stake_split(amount: u64) -> (u64, u64, u64) {
    let secondary = amount / 20;
    let primary = ((amount - secondary) / 2) as u64;
    ((amount - primary - secondary) as u64, primary, secondary)
}

/// What `split_stake` hands to the staker, the primary and the secondary
/// beneficiary is the three-way policy's division of the amount.
pub proof fn lemma_split_stake_three_way(amount: u64)
    ensures
        split_shares(amount as nat, seq![475u64, 475u64, 50u64]) == seq![
            (amount - (amount - amount / 20) / 2 - amount / 20) as nat,
            ((amount - amount / 20) / 2) as nat,
            (amount / 20) as nat,
        ],
{
    let three = seq![475u64, 475u64, 50u64];
    let two = seq![475u64, 475u64];
    let one = seq![475u64];
    assert(three.drop_last() =~= two);
    assert(two.drop_last() =~= one);
    assert(one.drop_last() =~= Seq::<u64>::empty());
    assert(weight_sum(one) == 475) by {
        assert(weight_sum(one.drop_last()) == 0);
    }
    assert(weight_sum(two) == 950);
    assert(weight_sum(three) == 1000);
    let secondary = (amount / 20) as nat;
    assert(portion(amount as nat, 50, 1000) == secondary);
    let rest = (amount - secondary) as nat;
    let primary = (rest / 2) as nat;
    assert(portion(rest, 475, 950) == primary);
    let staker = (rest - primary) as nat;
    assert(split_shares(staker, one) =~= seq![staker]);
    assert(split_shares(rest, two) =~= seq![staker, primary]);
    assert(split_shares(amount as nat, three) =~= seq![staker, primary, secondary]);
}

/// The three shares of a staked amount add up to the amount, and none of
/// them shrinks when the amount grows.
pub proof fn lemma_stake_split_laws(low: u64, high: u64)
    requires
        low <= high,
    ensures
        stake_split(low).0 + stake_split(low).1 + stake_split(low).2 == low,
        stake_split(low).0 <= stake_split(high).0,
        stake_split(low).1 <= stake_split(high).1,
        stake_split(low).2 <= stake_split(high).2,
{
}

/// Divides a staked amount among the staker, the endpoint's primary
/// beneficiary and its secondary beneficiary, at 47.5%, 47.5% and 5%.
/// What rounding leaves over goes to the staker.
pub fn split_stake(amount: u64) -> (shares: (u64, u64, u64))
    ensures
        shares == stake_split(amount),
        shares.2 == amount / 20,
        shares.1 == (amount - amount / 20) / 2,
        shares.0 == amount - shares.1 - shares.2,
        shares.0 + shares.1 + shares.2 == amount,
        split_shares(amount as nat, seq![475u64, 475u64, 50u64]) == seq![
            shares.0 as nat,
            shares.1 as nat,
            shares.2 as nat,
        ],
{
    let secondary = amount / 20;
    let primary = (amount - secondary) / 2;
    proof {
        lemma_split_stake_three_way(amount);
    }
    (amount - primary - secondary, primary, secondary)
}

} // verus!
