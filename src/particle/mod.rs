//! Particles: the branded indices and ranges handed out by a container.
//!
//! A *simple* particle is only known to lie within the units of its
//! container; a *perfect* particle also lies on item boundaries.
use core::marker::PhantomData;
use vstd::prelude::*;

pub mod perfect;
pub mod simple;

verus! {

/// The brand of one indexing scope. The lifetime `'id` is invariant, so a
/// particle of one scope cannot be taken for a particle of another.
#[derive(Copy, Clone, Debug, PartialEq, Eq, PartialOrd, Ord, Hash)]
pub struct Id<'id> {
    brand: PhantomData<&'id mut &'id ()>,
}

impl<'id> Id<'id> {
    pub(crate) fn fresh() -> Id<'id> {
        Id { brand: PhantomData }
    }
}

/// The error returned when failing to construct an arbitrary index.
#[derive(Copy, Clone, Debug, Eq, PartialEq, Hash)]
pub enum IndexError {
    /// The provided raw index was out of bounds of the container.
    OutOfBounds,
    /// The provided raw index was in bounds but not on an item border.
    Invalid,
}

} // verus!
