use crate::emptiness::{Emptiness, NonEmpty, Unknown};
use crate::particle::simple;
use vstd::prelude::*;

verus! {

/// A branded unit offset on an item boundary. `NonEmpty` means that an item
/// starts at the offset; `Unknown` allows the one-past-the-end offset too.
#[derive(Debug, PartialEq, Eq, PartialOrd, Ord, Hash)]
pub struct Index<'id, P: Emptiness = NonEmpty> {
    simple: simple::Index<'id, P>,
}

impl<'id, P: Emptiness> Clone for Index<'id, P> {
    fn clone(&self) -> (r: Self)
        ensures
            r == *self,
    {
        *self
    }
}

impl<'id, P: Emptiness> Copy for Index<'id, P> {
}

impl<'id, P: Emptiness> Index<'id, P> {
    /// The raw unit offset.
    pub closed spec fn offset(self) -> int {
        self.simple.offset()
    }

    /// What holds of every index: a `NonEmpty` one has a unit after it.
    #[verifier::type_invariant]
    pub open spec fn wf(self) -> bool {
        &&& 0 <= self.offset() <= u32::MAX
        &&& P::nonempty() ==> self.offset() < u32::MAX
    }

    pub(crate) fn new(ix: u32) -> (r: Self)
        requires
            P::nonempty() ==> ix < u32::MAX,
        ensures
            r.offset() == ix,
    {
        Index { simple: simple::Index::new(ix) }
    }

    /// This index without the brand.
    pub fn untrusted(self) -> (r: u32)
        ensures
            r == self.offset(),
    {
        self.simple.untrusted()
    }

    /// This index without the emptiness proof.
    pub fn erased(self) -> (r: Index<'id, Unknown>)
        ensures
            r.offset() == self.offset(),
    {
        Index::new(self.simple.untrusted())
    }

    /// This index in simple manipulation mode.
    pub fn simple(self) -> (r: simple::Index<'id, P>)
        ensures
            r.offset() == self.offset(),
    {
        self.simple
    }
}

impl<'id> Index<'id, NonEmpty> {
    /// Compiles only where the index carries a `NonEmpty` proof.
    pub fn observe_proof(self) {
    }
}

} // verus!
