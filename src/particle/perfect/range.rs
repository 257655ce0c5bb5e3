use crate::emptiness::{Emptiness, NonEmpty, ProofAdd, Unknown};
use crate::particle::perfect::Index;
use crate::particle::simple;
use vstd::prelude::*;

verus! {

/// A branded interval `start..end` between two item boundaries.
/// `NonEmpty` means that it holds at least one item.
#[derive(Debug, PartialEq, Eq, Hash)]
pub struct Range<'id, P: Emptiness = Unknown> {
    simple: simple::Range<'id, P>,
}

impl<'id, P: Emptiness> Clone for Range<'id, P> {
    fn clone(&self) -> (r: Self)
        ensures
            r == *self,
    {
        *self
    }
}

impl<'id, P: Emptiness> Copy for Range<'id, P> {
}

/// Constructors
impl<'id> Range<'id, Unknown> {
    /// Create an empty range at the given index.
    pub fn singleton<Q: Emptiness>(index: Index<'id, Q>) -> (r: Self)
        ensures
            r.lo() == index.offset(),
            r.hi() == index.offset(),
    {
        Range::new(index.untrusted(), index.untrusted())
    }

    /// The range between two indices, in whichever order they come.
    pub fn from<Q: Emptiness, S: Emptiness>(a: Index<'id, Q>, b: Index<'id, S>) -> (r: Self)
        ensures
            r.lo() == if a.offset() <= b.offset() { a.offset() } else { b.offset() },
            r.hi() == if a.offset() <= b.offset() { b.offset() } else { a.offset() },
    {
        if a.untrusted() <= b.untrusted() {
            Range::new(a.untrusted(), b.untrusted())
        } else {
            Range::new(b.untrusted(), a.untrusted())
        }
    }
}

impl<'id, P: Emptiness> Range<'id, P> {
    /// The first unit offset.
    pub closed spec fn lo(self) -> int {
        self.simple.lo()
    }

    /// The one-past-the-last unit offset.
    pub closed spec fn hi(self) -> int {
        self.simple.hi()
    }

    /// The bounds `(start, end)`.
    pub open spec fn bounds(self) -> (int, int) {
        (self.lo(), self.hi())
    }

    /// What holds of every range: it is ordered, and not empty where its
    /// proof says so.
    #[verifier::type_invariant]
    pub open spec fn wf(self) -> bool {
        &&& 0 <= self.lo() <= self.hi() <= u32::MAX
        &&& P::nonempty() ==> self.lo() < self.hi()
    }

    pub(crate) fn new(start: u32, end: u32) -> (r: Self)
        requires
            start <= end,
            P::nonempty() ==> start < end,
        ensures
            r.lo() == start,
            r.hi() == end,
    {
        Range { simple: simple::Range::new(start, end) }
    }

    pub(crate) fn from_simple(simple: simple::Range<'id, P>) -> (r: Self)
        ensures
            r.lo() == simple.lo(),
            r.hi() == simple.hi(),
    {
        proof {
            use_type_invariant(&simple);
        }
        Range { simple }
    }

    /// This range without the brand.
    pub fn untrusted(self) -> (r: core::ops::Range<u32>)
        ensures
            r.start == self.lo(),
            r.end == self.hi(),
    {
        self.simple.untrusted()
    }

    /// This range without the emptiness proof.
    pub fn erased(self) -> (r: Range<'id, Unknown>)
        ensures
            r.lo() == self.lo(),
            r.hi() == self.hi(),
    {
        Range::from_simple(self.simple.erased())
    }

    /// This range in simple manipulation mode.
    pub fn simple(self) -> (r: simple::Range<'id, P>)
        ensures
            r.lo() == self.lo(),
            r.hi() == self.hi(),
    {
        self.simple
    }

    /// Try to create a proof that the range is nonempty.
    pub fn nonempty(self) -> (r: Option<Range<'id, NonEmpty>>)
        ensures
            r is Some <==> self.lo() < self.hi(),
            r matches Some(n) ==> n.lo() == self.lo() && n.hi() == self.hi(),
    {
        match self.simple.nonempty() {
            Some(s) => Some(Range::from_simple(s)),
            None => None,
        }
    }

    /// The start index of this range.
    pub fn start(self) -> (r: Index<'id, P>)
        ensures
            r.offset() == self.lo(),
    {
        proof {
            use_type_invariant(&self);
        }
        Index::new(self.simple.start().untrusted())
    }

    /// The end index of this range.
    pub fn end(self) -> (r: Index<'id, Unknown>)
        ensures
            r.offset() == self.hi(),
    {
        Index::new(self.simple.end().untrusted())
    }

    /// The length of this range (in representational units).
    pub fn len(self) -> (r: u32)
        ensures
            r == self.hi() - self.lo(),
    {
        self.simple.len()
    }

    /// Does this range contain no items?
    pub fn is_empty(self) -> (r: bool)
        ensures
            r == (self.lo() >= self.hi()),
    {
        self.simple.is_empty()
    }

    /// Is this index in this range?
    pub fn contains<Q: Emptiness>(self, index: Index<'id, Q>) -> (r: bool)
        ensures
            r == (self.lo() <= index.offset() < self.hi()),
    {
        self.simple.contains(index.simple())
    }

    /// Vet an untrusted index for being in range.
    ///
    /// (Returns a simple index, as it isn't guaranteed on an item boundary.)
    pub fn vet(self, ix: u32) -> (r: Option<simple::Index<'id, NonEmpty>>)
        ensures
            r is Some <==> self.lo() <= ix < self.hi(),
            r matches Some(i) ==> i.offset() == ix,
    {
        self.simple.vet(ix)
    }

    /// Split this range at an index, if that index is in the range or at
    /// its end. The given index starts the second range.
    pub fn split_at<Q: Emptiness>(self, index: Index<'id, Q>) -> (r: Option<
        (Range<'id, Unknown>, Range<'id, Unknown>),
    >)
        ensures
            r is Some <==> self.lo() <= index.offset() <= self.hi(),
            r matches Some(halves) ==> {
                &&& halves.0.lo() == self.lo()
                &&& halves.0.hi() == index.offset()
                &&& halves.1.lo() == index.offset()
                &&& halves.1.hi() == self.hi()
            },
            r matches Some(halves) ==> split_bounds(self.bounds(), index.offset()) == Some(
                (halves.0.bounds(), halves.1.bounds()),
            ),
    {
        match self.simple.split_at(index.simple()) {
            Some((a, b)) => Some((Range::from_simple(a), Range::from_simple(b))),
            None => None,
        }
    }

    /// Join together two adjacent ranges.
    ///
    /// (They must be exactly touching, in left-to-right order.)
    pub fn join<Q: Emptiness>(self, other: Range<'id, Q>) -> (r: Option<
        Range<'id, <(P, Q) as ProofAdd>::Sum>,
    >) where (P, Q): ProofAdd<Left = P, Right = Q>
        ensures
            r is Some <==> self.hi() == other.lo(),
            r matches Some(j) ==> j.lo() == self.lo() && j.hi() == other.hi(),
            r matches Some(j) ==> join_bounds(self.bounds(), other.bounds()) == Some(j.bounds()),
            <(P, Q) as ProofAdd>::Sum::nonempty() == (P::nonempty() || Q::nonempty()),
    {
        match self.simple.join(other.simple) {
            Some(j) => Some(Range::from_simple(j)),
            None => None,
        }
    }

    /// Extend this range to cover both itself and `other`,
    /// including any space inbetween.
    pub fn join_cover<Q: Emptiness>(self, other: Range<'id, Q>) -> (r: Range<
        'id,
        <(P, Q) as ProofAdd>::Sum,
    >) where (P, Q): ProofAdd<Left = P, Right = Q>
        ensures
            r.lo() == if self.lo() <= other.lo() { self.lo() } else { other.lo() },
            r.hi() == if self.hi() >= other.hi() { self.hi() } else { other.hi() },
    {
        Range::from_simple(self.simple.join_cover(other.simple))
    }

    /// Extend this range to cover both itself and `other`, including any
    /// space inbetween; the same as [`Range::join_cover`].
    pub fn join_cover_both<Q: Emptiness>(self, other: Range<'id, Q>) -> (r: Range<
        'id,
        <(P, Q) as ProofAdd>::Sum,
    >) where (P, Q): ProofAdd<Left = P, Right = Q>
        ensures
            r.lo() == if self.lo() <= other.lo() { self.lo() } else { other.lo() },
            r.hi() == if self.hi() >= other.hi() { self.hi() } else { other.hi() },
    {
        self.join_cover(other)
    }

    /// Extend the end of this range to the given index.
    pub fn extend_end<Q: Emptiness>(self, index: Index<'id, Q>) -> (r: Range<'id, P>)
        ensures
            r.lo() == self.lo(),
            r.hi() == if self.hi() >= index.offset() { self.hi() } else { index.offset() },
    {
        Range::from_simple(self.simple.extend_end(index.simple()))
    }

    /// The empty range at the start and end of this range.
    pub fn frontiers(self) -> (r: (Range<'id, Unknown>, Range<'id, Unknown>))
        ensures
            r.0.lo() == self.lo() && r.0.hi() == self.lo(),
            r.1.lo() == self.hi() && r.1.hi() == self.hi(),
    {
        (Range::singleton(self.start()), Range::singleton(self.end()))
    }
}

impl<'id> Range<'id, NonEmpty> {
    /// Compiles only where the range carries a `NonEmpty` proof.
    pub fn observe_proof(self) {
    }
}

/// The bounds of `bounds` split at `at`, where `at` lies within them or
/// at their end.
pub open spec fn split_bounds(bounds: (int, int), at: int) -> Option<((int, int), (int, int))> {
    if bounds.0 <= at <= bounds.1 {
        Some(((bounds.0, at), (at, bounds.1)))
    } else {
        None
    }
}

/// The bounds of two touching intervals joined, the first before the second.
pub open spec fn join_bounds(a: (int, int), b: (int, int)) -> Option<(int, int)> {
    if a.1 == b.0 {
        Some((a.0, b.1))
    } else {
        None
    }
}

/// A `NonEmpty` range starts before it ends, so it is not empty.
pub proof fn lemma_nonempty_range<'id>(r: Range<'id, NonEmpty>)
    requires
        r.wf(),
    ensures
        r.lo() < r.hi(),
{
}

/// Splitting a range at an offset within it or at its end, then joining the
/// two halves, gives back the range.
pub proof fn lemma_split_join<'id, P: Emptiness>(r: Range<'id, P>, at: int)
    requires
        r.wf(),
        r.lo() <= at <= r.hi(),
    ensures
        split_bounds(r.bounds(), at) matches Some(halves) && join_bounds(halves.0, halves.1)
            == Some(r.bounds()),
{
}

} // verus!
