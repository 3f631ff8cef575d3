//! Fixed-point arithmetic in millionths.

use vstd::prelude::*;

verus! {

/// One whole, counted in millionths.
pub const UNIT: u64 = 1_000_000;

/// The fraction `part / whole` in millionths, rounded down; zero where
/// `whole` is zero.
pub open spec fn share_of(part: nat, whole: nat) -> nat {
    if whole == 0 {
        0
    } else {
        part * (UNIT as nat) / whole
    }
}

/// A share of at most the whole is at most one whole.
pub proof fn lemma_share_at_most_unit(part: nat, whole: nat)
    requires
        part <= whole,
    ensures
        share_of(part, whole) <= UNIT,
{
    if whole > 0 {
        assert(part * (UNIT as nat) <= whole * (UNIT as nat)) by (nonlinear_arith)
            requires
                part <= whole,
        ;
        assert(part * (UNIT as nat) / whole <= UNIT as nat) by (nonlinear_arith)
            requires
                part * (UNIT as nat) <= whole * (UNIT as nat),
                whole > 0,
        ;
    }
}

/// Computes [`share_of`] for a part of a whole.
pub fn share(part: usize, whole: usize) -> (r: u64)
    requires
        part <= whole,
    ensures
        r == share_of(part as nat, whole as nat),
        r <= UNIT,
{
    proof {
        lemma_share_at_most_unit(part as nat, whole as nat);
    }
    if whole == 0 {
        0
    } else {
        let scaled: u128 = (part as u128) * (UNIT as u128);
        let q: u128 = scaled / (whole as u128);
        q as u64
    }
}

} // verus!
