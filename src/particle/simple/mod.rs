//! Simple particles are ones that can be manipulated without communicating
//! with the container; the item is the same as the representational unit,
//! so getting the next item is as simple as a `+1`. Creating and manipulating
//! a simple particle from a perfect one is always safe; however, using one
//! requires either the item to be a trusted unit, or upgrading the particle
//! against the container.
mod index;
mod range;

pub use self::index::Index;
pub use self::range::Range;

