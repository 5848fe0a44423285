use vstd::prelude::*;

verus! {

/// An exact fraction `numerator / denominator` with a positive denominator.
///
/// Accuracies, pass rates and progress scores are ratios of counts; keeping them
/// as fractions lets every threshold test be decided exactly.
#[derive(Debug, Clone, Copy)]
pub struct Ratio {
    numerator: u64,
    denominator: u64,
}

impl View for Ratio {
    type V = (nat, nat);

    closed spec fn view(&self) -> (nat, nat) {
        (self.numerator as nat, self.denominator as nat)
    }
}

/// `n1 / d1 >= n2 / d2` for positive denominators, by cross-multiplication.
pub open spec fn ratio_at_least(r: (nat, nat), n: nat, d: nat) -> bool {
    r.0 * d >= n * r.1
}

impl Ratio {
    #[verifier::type_invariant]
    closed spec fn positive_denominator(self) -> bool {
        self.denominator > 0
    }

    /// The fraction `numerator / denominator`; the denominator must not be zero.
    pub fn new(numerator: u64, denominator: u64) -> (r: Ratio)
        requires
            denominator > 0,
        ensures
            r@ == (numerator as nat, denominator as nat),
    {
        Ratio { numerator, denominator }
    }

    /// The numerator.
    pub fn numerator(&self) -> (r: u64)
        ensures
            r == self@.0,
    {
        self.numerator
    }

    /// The denominator, which is never zero.
    pub fn denominator(&self) -> (r: u64)
        ensures
            r == self@.1,
            r > 0,
    {
        proof {
            use_type_invariant(self);
        }
        self.denominator
    }

    /// Whether this fraction is at least `n / d`.
    pub fn at_least(&self, n: u64, d: u64) -> (r: bool)
        requires
            d > 0,
        ensures
            r == ratio_at_least(self@, n as nat, d as nat),
    {
        let a: u128 = self.numerator as u128;
        let b: u128 = d as u128;
        let c: u128 = n as u128;
        let e: u128 = self.denominator as u128;
        proof {
            assert(a * b <= u64::MAX * u64::MAX) by (nonlinear_arith)
                requires
                    a <= u64::MAX,
                    b <= u64::MAX,
            ;
            assert(c * e <= u64::MAX * u64::MAX) by (nonlinear_arith)
                requires
                    c <= u64::MAX,
                    e <= u64::MAX,
            ;
        }
        let lhs: u128 = a * b;
        let rhs: u128 = c * e;
        lhs >= rhs
    }
}

} // verus!
