use crate::emptiness::{Emptiness, NonEmpty, ProofAdd, Unknown};
use crate::particle::simple::Index;
use crate::particle::Id;
use core::marker::PhantomData;
use vstd::prelude::*;

verus! {

/// A branded interval of unit offsets, `start..end` with `start <= end`.
/// `NonEmpty` means that it holds at least one unit.
#[derive(Debug, PartialEq, Eq, Hash)]
pub struct Range<'id, P: Emptiness = Unknown> {
    id: Id<'id>,
    start: u32,
    end: u32,
    marker: PhantomData<P>,
}

impl<'id, P: Emptiness> Clone for Range<'id, P> {
    fn clone(&self) -> (r: Self)
        ensures
            r == *self,
    {
        *self
    }
}

impl<'id, P: Emptiness> Copy for Range<'id, P> {
}

/// Constructors
impl<'id> Range<'id, Unknown> {
    /// Create an empty range at the given index.
    pub fn singleton<Q: Emptiness>(index: Index<'id, Q>) -> (r: Self)
        ensures
            r.lo() == index.offset(),
            r.hi() == index.offset(),
    {
        Range::new(index.untrusted(), index.untrusted())
    }

    /// The range from one index to a later one; `None` unless `start` comes
    /// strictly before `end`.
    pub fn try_from<Q: Emptiness>(start: Index<'id, Q>, end: Index<'id, Q>) -> (r: Option<Self>)
        ensures
            r is Some <==> start.offset() < end.offset(),
            r matches Some(g) ==> g.lo() == start.offset() && g.hi() == end.offset(),
    {
        if start.untrusted() < end.untrusted() {
            Some(Range::new(start.untrusted(), end.untrusted()))
        } else {
            None
        }
    }
}

impl<'id, P: Emptiness> Range<'id, P> {
    /// The first unit offset.
    pub closed spec fn lo(self) -> int {
        self.start as int
    }

    /// The one-past-the-last unit offset.
    pub closed spec fn hi(self) -> int {
        self.end as int
    }

    /// What holds of every range: it is ordered, and not empty where its
    /// proof says so.
    #[verifier::type_invariant]
    pub open spec fn wf(self) -> bool {
        &&& 0 <= self.lo() <= self.hi() <= u32::MAX
        &&& P::nonempty() ==> self.lo() < self.hi()
    }

    pub(crate) fn new(start: u32, end: u32) -> (r: Self)
        requires
            start <= end,
            P::nonempty() ==> start < end,
        ensures
            r.lo() == start,
            r.hi() == end,
    {
        Range { id: Id::fresh(), start, end, marker: PhantomData }
    }

    /// This range without the brand.
    pub fn untrusted(self) -> (r: core::ops::Range<u32>)
        ensures
            r.start == self.lo(),
            r.end == self.hi(),
    {
        self.start..self.end
    }

    /// This range without the emptiness proof.
    pub fn erased(self) -> (r: Range<'id, Unknown>)
        ensures
            r.lo() == self.lo(),
            r.hi() == self.hi(),
    {
        proof {
            use_type_invariant(&self);
        }
        Range::new(self.start, self.end)
    }

    /// This range with a proof of non-emptiness.
    pub fn nonempty(self) -> (r: Option<Range<'id, NonEmpty>>)
        ensures
            r is Some <==> self.lo() < self.hi(),
            r matches Some(n) ==> n.lo() == self.lo() && n.hi() == self.hi(),
    {
        if self.start < self.end {
            Some(Range::new(self.start, self.end))
        } else {
            None
        }
    }

    /// The start index of this range.
    pub fn start(self) -> (r: Index<'id, P>)
        ensures
            r.offset() == self.lo(),
    {
        proof {
            use_type_invariant(&self);
        }
        Index::new(self.start)
    }

    /// The end index of this range.
    pub fn end(self) -> (r: Index<'id, Unknown>)
        ensures
            r.offset() == self.hi(),
    {
        Index::new(self.end)
    }

    /// The length of this range (in representational units).
    pub fn len(self) -> (r: u32)
        ensures
            r == self.hi() - self.lo(),
    {
        proof {
            use_type_invariant(&self);
        }
        self.end - self.start
    }

    /// Does this range contain no units?
    pub fn is_empty(self) -> (r: bool)
        ensures
            r == (self.lo() >= self.hi()),
    {
        self.start >= self.end
    }

    /// Is this index in this range?
    pub fn contains<Q: Emptiness>(self, index: Index<'id, Q>) -> (r: bool)
        ensures
            r == (self.lo() <= index.offset() < self.hi()),
    {
        self.start <= index.untrusted() && index.untrusted() < self.end
    }

    /// Vet a raw unit offset for lying within this range.
    pub fn vet(self, ix: u32) -> (r: Option<Index<'id, NonEmpty>>)
        ensures
            r is Some <==> self.lo() <= ix < self.hi(),
            r matches Some(i) ==> i.offset() == ix,
    {
        proof {
            use_type_invariant(&self);
        }
        if self.start <= ix && ix < self.end {
            Some(Index::new(ix))
        } else {
            None
        }
    }

    /// Vet a raw unit offset for lying within this range or at its end.
    pub fn vet_or_end(self, ix: u32) -> (r: Option<Index<'id, Unknown>>)
        ensures
            r is Some <==> self.lo() <= ix <= self.hi(),
            r matches Some(i) ==> i.offset() == ix,
    {
        if self.start <= ix && ix <= self.end {
            Some(Index::new(ix))
        } else {
            None
        }
    }

    /// Vet a sub-range for lying within this range: it must start at a unit
    /// of this range and end no later than this range does.
    pub fn vet_subrange<Q: Emptiness>(self, sub: Range<'id, Q>) -> (r: Option<Range<'id, Q>>)
        ensures
            r is Some <==> (self.lo() <= sub.lo() < self.hi() && sub.hi() <= self.hi()),
            r matches Some(g) ==> g == sub,
    {
        if self.start <= sub.start && sub.start < self.end && sub.end <= self.end {
            Some(sub)
        } else {
            None
        }
    }

    /// Split this range at an index, if that index is in the range or at
    /// its end. The given index starts the second range.
    pub fn split_at<Q: Emptiness>(self, index: Index<'id, Q>) -> (r: Option<
        (Range<'id, Unknown>, Range<'id, Unknown>),
    >)
        ensures
            r is Some <==> self.lo() <= index.offset() <= self.hi(),
            r matches Some(halves) ==> {
                &&& halves.0.lo() == self.lo()
                &&& halves.0.hi() == index.offset()
                &&& halves.1.lo() == index.offset()
                &&& halves.1.hi() == self.hi()
            },
    {
        self.split_at_raw(index.untrusted())
    }

    /// Split this range at a raw unit offset, if that offset is in the range
    /// or at its end. The offset starts the second range.
    pub fn split_at_raw(self, ix: u32) -> (r: Option<(Range<'id, Unknown>, Range<'id, Unknown>)>)
        ensures
            r is Some <==> self.lo() <= ix <= self.hi(),
            r matches Some(halves) ==> {
                &&& halves.0.lo() == self.lo()
                &&& halves.0.hi() == ix
                &&& halves.1.lo() == ix
                &&& halves.1.hi() == self.hi()
            },
    {
        if self.start <= ix && ix <= self.end {
            Some((Range::new(self.start, ix), Range::new(ix, self.end)))
        } else {
            None
        }
    }

    /// The middle index, rounding up (`start + len / 2`).
    pub fn middle_raw(self) -> (r: Index<'id, P>)
        ensures
            r.offset() == self.lo() + (self.hi() - self.lo()) / 2,
            self.lo() <= r.offset() <= self.hi(),
            P::nonempty() ==> r.offset() < self.hi(),
    {
        proof {
            use_type_invariant(&self);
        }
        Index::new(self.start + (self.end - self.start) / 2)
    }

    /// Split the range in half with the middle index in the latter half.
    pub fn split_in_half_raw(self) -> (r: (Range<'id, Unknown>, Range<'id, P>))
        ensures
            r.0.lo() == self.lo(),
            r.0.hi() == self.lo() + (self.hi() - self.lo()) / 2,
            r.1.lo() == r.0.hi(),
            r.1.hi() == self.hi(),
    {
        let mid = self.middle_raw().untrusted();
        (Range::new(self.start, mid), Range::new(mid, self.end))
    }

    /// Join together two adjacent ranges.
    ///
    /// (They must be exactly touching, in left-to-right order.)
    pub fn join<Q: Emptiness>(self, other: Range<'id, Q>) -> (r: Option<
        Range<'id, <(P, Q) as ProofAdd>::Sum>,
    >) where (P, Q): ProofAdd<Left = P, Right = Q>
        ensures
            r is Some <==> self.hi() == other.lo(),
            r matches Some(j) ==> j.lo() == self.lo() && j.hi() == other.hi(),
            <(P, Q) as ProofAdd>::Sum::nonempty() == (P::nonempty() || Q::nonempty()),
    {
        proof {
            use_type_invariant(&self);
            use_type_invariant(&other);
            <(P, Q) as ProofAdd>::lemma_sum();
        }
        if self.end == other.start {
            Some(Range::new(self.start, other.end))
        } else {
            None
        }
    }

    /// Extend this range to cover both itself and `other`,
    /// including any space inbetween.
    pub fn join_cover<Q: Emptiness>(self, other: Range<'id, Q>) -> (r: Range<
        'id,
        <(P, Q) as ProofAdd>::Sum,
    >) where (P, Q): ProofAdd<Left = P, Right = Q>
        ensures
            r.lo() == if self.lo() <= other.lo() { self.lo() } else { other.lo() },
            r.hi() == if self.hi() >= other.hi() { self.hi() } else { other.hi() },
    {
        proof {
            use_type_invariant(&self);
            use_type_invariant(&other);
            <(P, Q) as ProofAdd>::lemma_sum();
        }
        let start = if self.start <= other.start { self.start } else { other.start };
        let end = if self.end >= other.end { self.end } else { other.end };
        Range::new(start, end)
    }

    /// Extend the end of this range to the given index.
    pub fn extend_end<Q: Emptiness>(self, index: Index<'id, Q>) -> (r: Range<'id, P>)
        ensures
            r.lo() == self.lo(),
            r.hi() == if self.hi() >= index.offset() { self.hi() } else { index.offset() },
    {
        proof {
            use_type_invariant(&self);
        }
        let end = if self.end >= index.untrusted() { self.end } else { index.untrusted() };
        Range::new(self.start, end)
    }

    /// Extend the start of this range to the given index.
    pub fn extend_start<Q: Emptiness>(self, index: Index<'id, Q>) -> (r: Range<'id, P>)
        ensures
            r.lo() == if self.lo() <= index.offset() { self.lo() } else { index.offset() },
            r.hi() == self.hi(),
    {
        proof {
            use_type_invariant(&self);
        }
        let start = if self.start <= index.untrusted() { self.start } else { index.untrusted() };
        Range::new(start, self.end)
    }

    /// The empty range at the start and end of this range.
    pub fn frontiers(self) -> (r: (Range<'id, Unknown>, Range<'id, Unknown>))
        ensures
            r.0.lo() == self.lo() && r.0.hi() == self.lo(),
            r.1.lo() == self.hi() && r.1.hi() == self.hi(),
    {
        (Range::new(self.start, self.start), Range::new(self.end, self.end))
    }
}

impl<'id> Range<'id, NonEmpty> {
    /// Compiles only where the range carries a `NonEmpty` proof.
    pub fn observe_proof(self) {
    }
}

} // verus!
