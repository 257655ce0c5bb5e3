//! Perfect particles are ones that must communicate back to the container for
//! changes. This allows them to index into containers that have items of
//! multiple sizes, such as strings: a perfect particle always lies on an
//! item boundary.
mod index;
mod range;

pub use self::index::Index;
pub use self::range::Range;



