//! Scaled-integer amounts: whole token units together with the fraction of
//! a unit that has accrued but cannot be paid out yet.
use vstd::prelude::*;
use vstd::arithmetic::div_mod::lemma_div_multiples_vanish;
use vstd::arithmetic::div_mod::lemma_fundamental_div_mod;
use vstd::arithmetic::div_mod::lemma_fundamental_div_mod_converse;
use vstd::arithmetic::mul::lemma_mul_is_commutative;
use crate::error::StakingError;
use crate::PRECISION;

verus! {

/// The whole units and the remainder, in units of `1 / PRECISION`, that a
/// scaled amount stands for.
pub open spec fn decomposed(scaled: nat) -> (nat, nat) {
    (scaled / (PRECISION as nat), scaled % (PRECISION as nat))
}

/// The scaled amount that whole units and a remainder stand for.
pub open spec fn composed(whole: nat, remainder: nat) -> nat {
    whole * (PRECISION as nat) + remainder
}

/// An amount owed: whole units, and a remainder below one unit that is
/// carried forward until it adds up to a whole unit.
#[derive(Clone, Copy, Debug, PartialEq, Eq, Structural)]
pub struct Payout {
    pub whole: u64,
    pub remainder: u64,
}

impl Payout {
    /// The remainder stays below one unit.
    pub open spec fn wf(self) -> bool {
        self.remainder < PRECISION
    }

    /// The amount in units of `1 / PRECISION`.
    pub open spec fn scaled(self) -> nat {
        composed(self.whole as nat, self.remainder as nat)
    }

    /// A payout of whole units.
    pub fn new(amount: u64) -> (payout: Payout)
        ensures
            payout.wf(),
            payout.whole == amount,
            payout.remainder == 0,
            payout.scaled() == amount * PRECISION,
    {
        Payout { whole: amount, remainder: 0 }
    }

    /// The payout that a scaled amount stands for. It is rejected when its
    /// whole units do not fit.
    pub fn from_scaled(scaled: u128) -> (result: Result<Payout, StakingError>)
        ensures
            result.is_ok() <==> decomposed(scaled as nat).0 <= u64::MAX,
            result matches Ok(payout) ==> payout.wf() && payout.scaled() == scaled && (
            payout.whole as nat,
            payout.remainder as nat,
        ) == decomposed(scaled as nat),
            result matches Err(e) ==> e == StakingError::ArithmeticOverflow,
    {
        let whole = scaled / PRECISION;
        let remainder = scaled % PRECISION;
        if whole > u64::MAX as u128 {
            return Err(StakingError::ArithmeticOverflow);
        }
        proof {
            lemma_fundamental_div_mod(scaled as int, PRECISION as int);
            lemma_mul_is_commutative(whole as int, PRECISION as int);
        }
        Ok(Payout { whole: whole as u64, remainder: remainder as u64 })
    }

    /// The amount in units of `1 / PRECISION`.
    pub fn to_scaled(&self) -> (scaled: u128)
        ensures
            scaled == self.scaled(),
    {
        self.whole as u128 * PRECISION + self.remainder as u128
    }

    /// The payout times `factor`, rejected when it no longer fits.
    pub fn checked_mul(&self, factor: u64) -> (result: Result<Payout, StakingError>)
        ensures
            result.is_ok() <==> decomposed(self.scaled() * factor as nat).0 <= u64::MAX,
            result matches Ok(payout) ==> payout.wf() && payout.scaled() == self.scaled() * factor,
            result matches Err(e) ==> e == StakingError::ArithmeticOverflow,
    {
        match self.to_scaled().checked_mul(factor as u128) {
            Some(product) => Payout::from_scaled(product),
            None => Err(StakingError::ArithmeticOverflow),
        }
    }

    /// The payout divided by `divisor`, rounded down to a multiple of
    /// `1 / PRECISION`. A zero divisor is rejected; nothing else is, as long
    /// as the payout's remainder is below one unit.
    pub fn checked_div(&self, divisor: u64) -> (result: Result<Payout, StakingError>)
        ensures
            result.is_ok() <==> divisor != 0 && decomposed(self.scaled() / (divisor as nat)).0
                <= u64::MAX,
            self.wf() && divisor != 0 ==> result.is_ok(),
            result matches Ok(payout) ==> payout.wf() && payout.scaled() == self.scaled() / (
            divisor as nat),
            result matches Err(e) ==> e == StakingError::ArithmeticOverflow,
    {
        if divisor == 0 {
            return Err(StakingError::ArithmeticOverflow);
        }
        let scaled = self.to_scaled();
        let quotient = scaled / divisor as u128;
        proof {
            if self.wf() {
                vstd::arithmetic::div_mod::lemma_div_is_ordered_by_denominator(
                    scaled as int,
                    1,
                    divisor as int,
                );
                vstd::arithmetic::div_mod::lemma_div_is_ordered(
                    quotient as int,
                    scaled as int,
                    PRECISION as int,
                );
                lemma_decompose_composed(self.whole as nat, self.remainder as nat);
            }
        }
        Payout::from_scaled(quotient)
    }

    /// The sum of two payouts, rejected when it no longer fits. Remainders
    /// that add up to a unit become a whole unit.
    pub fn checked_add(&self, other: &Payout) -> (result: Result<Payout, StakingError>)
        ensures
            result.is_ok() <==> decomposed(self.scaled() + other.scaled()).0 <= u64::MAX,
            result matches Ok(payout) ==> payout.wf() && payout.scaled() == self.scaled()
                + other.scaled(),
            result matches Err(e) ==> e == StakingError::ArithmeticOverflow,
    {
        Payout::from_scaled(self.to_scaled() + other.to_scaled())
    }

    /// Takes the whole units out for disbursement and keeps the remainder.
    pub fn take_whole(&mut self) -> (amount: u64)
        ensures
            amount == old(self).whole,
            final(self).whole == 0,
            final(self).remainder == old(self).remainder,
    {
        let amount = self.whole;
        self.whole = 0;
        amount
    }
}

/// Decoding a scaled amount and encoding it again gives the same amount:
/// nothing is lost between the two forms.
pub proof fn lemma_compose_decomposed(scaled: nat)
    ensures
        decomposed(scaled).1 < PRECISION,
        composed(decomposed(scaled).0, decomposed(scaled).1) == scaled,
{
    lemma_fundamental_div_mod(scaled as int, PRECISION as int);
    lemma_mul_is_commutative((scaled / (PRECISION as nat)) as int, PRECISION as int);
}

/// Encoding whole units and a remainder below one unit, and decoding the
/// result, gives the same whole units and the same remainder.
pub proof fn lemma_decompose_composed(whole: nat, remainder: nat)
    requires
        remainder < PRECISION,
    ensures
        decomposed(composed(whole, remainder)) == (whole, remainder),
{
    lemma_mul_is_commutative(whole as int, PRECISION as int);
    lemma_fundamental_div_mod_converse(
        composed(whole, remainder) as int,
        PRECISION as int,
        whole as int,
        remainder as int,
    );
}

/// Multiplying a scaled amount and dividing it by the same factor gives the
/// amount back.
pub proof fn lemma_mul_then_div(scaled: nat, factor: nat)
    requires
        factor > 0,
    ensures
        (scaled * factor) / factor == scaled,
{
    lemma_div_multiples_vanish(scaled as int, factor as int);
    lemma_mul_is_commutative(scaled as int, factor as int);
}

/// Dividing a scaled amount and multiplying it by the same factor gives the
/// amount back when the factor divides it, and otherwise loses less than
/// the factor.
pub proof fn lemma_div_then_mul(scaled: nat, factor: nat)
    requires
        factor > 0,
    ensures
        scaled % factor == 0 ==> (scaled / factor) * factor == scaled,
        scaled - factor < (scaled / factor) * factor <= scaled,
{
    lemma_fundamental_div_mod(scaled as int, factor as int);
    lemma_mul_is_commutative((scaled / factor) as int, factor as int);
}

} // verus!
