//! Emptiness proofs carried by indices and ranges, and the rule for
//! combining two of them.
use vstd::prelude::*;

verus! {

/// Length marker for a range or index known to address a real item.
#[derive(Copy, Clone, Debug, Ord, PartialOrd, Eq, PartialEq, Hash)]
pub struct NonEmpty;

/// Length marker for a range or index of unknown length (it may be empty,
/// or sit at the one-past-the-end position).
#[derive(Copy, Clone, Debug, Ord, PartialOrd, Eq, PartialEq, Hash)]
pub struct Unknown;

/// The meaning of an emptiness marker.
pub trait Emptiness {
    /// `true` when the marker promises a real item.
    spec fn nonempty() -> bool;
}

impl Emptiness for NonEmpty {
    open spec fn nonempty() -> bool {
        true
    }
}

impl Emptiness for Unknown {
    open spec fn nonempty() -> bool {
        false
    }
}

/// Represents the combination of two proofs `Left` and `Right` by a new
/// proof `Sum`: the sum promises a real item when either operand does.
pub trait ProofAdd {
    type Left: Emptiness;
    type Right: Emptiness;
    type Sum: Emptiness;

    /// The sum is `NonEmpty` exactly when one of the operands is.
    proof fn lemma_sum()
        ensures
            Self::Sum::nonempty() == (Self::Left::nonempty() || Self::Right::nonempty()),
    ;
}

impl<Q: Emptiness> ProofAdd for (NonEmpty, Q) {
    type Left = NonEmpty;
    type Right = Q;
    type Sum = NonEmpty;

    proof fn lemma_sum() {
    }
}

impl<Q: Emptiness> ProofAdd for (Unknown, Q) {
    type Left = Unknown;
    type Right = Q;
    type Sum = Q;

    proof fn lemma_sum() {
    }
}

} // verus!
