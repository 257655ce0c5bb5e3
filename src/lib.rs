//! Sound unchecked indexing with generative lifetimes, for element arrays and
//! for UTF-8 text.
//!
//! - A scope is created with the [`scope`] function (or [`scope_mut`],
//!   [`scope_val`]); inside this scope there is a [`Container`] that has two
//!   roles: it gives out or vets trusted indices and ranges, and it provides
//!   access to the underlying data through them.
//!
//! - The container and its particles are branded with a lifetime parameter
//!   `'id` which is an identity marker. Branded items cannot leave their
//!   scope, and they tie the items uniquely to a particular container. This
//!   makes it possible to trust them.
//!
//! - Particles are freely copyable and do not track the backing data
//!   themselves. All access to the underlying data goes through the
//!   [`Container`].
use vstd::prelude::*;

pub mod emptiness;
pub mod particle;
pub mod traits;
pub mod utf8;
mod container;
mod impls;

pub use crate::container::Container;
pub use crate::emptiness::{NonEmpty, Unknown};
pub use crate::particle::perfect::{Index, Range};
pub use crate::particle::IndexError;
pub use crate::utf8::Character;

use crate::traits::TrustedContainer;

verus! {

/// Create an indexing scope for a borrowed container.
///
/// The closure is passed a container branded with a lifetime `'id` that is
/// unique to this call; indices and ranges branded with `'id` cannot leave
/// the closure.
pub fn scope<'a, A: ?Sized + TrustedContainer, F, Out>(array: &'a A, f: F) -> (r: Out) where
    F: for <'id>FnOnce(Container<'id, &'a A>) -> Out,

    requires
        array.unit_count() <= u32::MAX,
        forall|c: Container<&'a A>| *c.backing() == array ==> f.requires((c,)),
    ensures
        exists|c: Container<&'a A>| *c.backing() == array && f.ensures((c,), r),
{
    f(Container::new(array))
}

/// Create an indexing scope for a mutably borrowed container.
///
/// The closure is passed a container branded with a lifetime `'id` that is
/// unique to this call; indices and ranges branded with `'id` cannot leave
/// the closure. What the closure does to the array is up to it.
pub fn scope_mut<'a, A: ?Sized + TrustedContainer, F, Out>(array: &'a mut A, f: F) -> (r: Out) where
    F: for <'id>FnOnce(Container<'id, &'a mut A>) -> Out,

    requires
        old(array).unit_count() <= u32::MAX,
        forall|c: Container<&'a mut A>|
            {
                &&& c.backing().unit_count() == old(array).unit_count()
                &&& forall|i: int| #[trigger] c.backing().starts_item(i) == old(array).starts_item(i)
            } ==> f.requires((c,)),
    ensures
        exists|c: Container<&'a mut A>|
            {
                &&& c.backing().unit_count() == old(array).unit_count()
                &&& forall|i: int| #[trigger] c.backing().starts_item(i) == old(array).starts_item(i)
                &&& f.ensures((c,), r)
            },
{
    f(Container::new(array))
}

/// Create an indexing scope for an owned container.
///
/// The closure is passed a container branded with a lifetime `'id` that is
/// unique to this call; indices and ranges branded with `'id` cannot leave
/// the closure.
pub fn scope_val<A: TrustedContainer, F, Out>(array: A, f: F) -> (r: Out) where
    F: for <'id>FnOnce(Container<'id, A>) -> Out,

    requires
        array.unit_count() <= u32::MAX,
        forall|c: Container<A>| *c.backing() == array ==> f.requires((c,)),
    ensures
        exists|c: Container<A>| *c.backing() == array && f.ensures((c,), r),
{
    f(Container::new(array))
}

} // verus!
