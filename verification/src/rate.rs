//! The mutation rate: which share of a seed's bytes one mutation touches.

use vstd::prelude::*;

verus! {

/// Why a pair of numbers is no mutation rate.
#[derive(Clone, Copy, Debug, PartialEq, Eq, Structural)]
pub enum RateError {
    /// The denominator is zero.
    ZeroDenominator,
    /// The ratio is one or more: a rate must stay below one.
    NotBelowOne,
}

/// A rate as an exact fraction, at least zero and below one.
#[derive(Clone, Copy, Debug)]
pub struct MutationRate {
    numerator: u64,
    denominator: u64,
}

impl MutationRate {
    /// The fraction is below one, and so its denominator is not zero.
    #[verifier::type_invariant]
    spec fn well_formed(self) -> bool {
        self.numerator < self.denominator
    }

    /// The fraction's numerator.
    pub closed spec fn num(self) -> nat {
        self.numerator as nat
    }

    /// The fraction's denominator.
    pub closed spec fn den(self) -> nat {
        self.denominator as nat
    }

    /// The rate `numerator / denominator`, if that is a rate.
    pub fn new(numerator: u64, denominator: u64) -> (made: Result<MutationRate, RateError>)
        ensures
            denominator == 0 ==> made == Err::<MutationRate, RateError>(RateError::ZeroDenominator),
            denominator != 0 && numerator >= denominator ==> made == Err::<
                MutationRate,
                RateError,
            >(RateError::NotBelowOne),
            numerator < denominator ==> made is Ok && made->Ok_0.num() == numerator
                && made->Ok_0.den() == denominator,
    {
        if denominator == 0 {
            Err(RateError::ZeroDenominator)
        } else if numerator >= denominator {
            Err(RateError::NotBelowOne)
        } else {
            Ok(MutationRate { numerator, denominator })
        }
    }

    /// The numerator, which is below the denominator.
    pub fn numerator(&self) -> (n: u64)
        ensures
            n == self.num(),
            self.num() < self.den(),
    {
        proof {
            use_type_invariant(self);
        }
        self.numerator
    }

    /// The denominator, which is above the numerator.
    pub fn denominator(&self) -> (d: u64)
        ensures
            d == self.den(),
            self.num() < self.den(),
    {
        proof {
            use_type_invariant(self);
        }
        self.denominator
    }

    /// How many offsets a mutation selects in a buffer of `len` bytes:
    /// the rate's share of the bytes behind the leading margin, rounded down.
    pub open spec fn share_of(self, len: nat, margin: nat) -> nat {
        if len <= margin {
            0
        } else {
            ((len - margin) * self.num() / (self.den() as int)) as nat
        }
    }

    /// Computes `share_of`. The result is below `len - margin` wherever that
    /// is positive, since the rate is below one.
    pub fn mutation_count(&self, len: usize, margin: usize) -> (count: usize)
        ensures
            count == self.share_of(len as nat, margin as nat),
            len > margin ==> count < len - margin,
            len <= margin ==> count == 0,
    {
        proof {
            use_type_invariant(self);
        }
        if len <= margin {
            return 0;
        }
        let span: u128 = (len - margin) as u128;
        let num: u128 = self.numerator as u128;
        let den: u128 = self.denominator as u128;
        assert(span * num <= span * den && span * num < 0x1_0000_0000_0000_0000 * 0x1_0000_0000_0000_0000
            && (span * num) / (den as int) < span) by (nonlinear_arith)
            requires
                0 < span < 0x1_0000_0000_0000_0000,
                0 <= num < den,
                den < 0x1_0000_0000_0000_0000,
        ;
        let count: u128 = span * num / den;
        count as usize
    }
}

} // verus!
