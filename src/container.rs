//! The branded container: the sole gateway from raw offsets to particles,
//! and from particles to the data.
use crate::emptiness::{Emptiness, NonEmpty, Unknown};
use crate::particle::{perfect, simple, Id, IndexError};
use crate::traits::{
    is_item_end, is_item_start, item_end, item_start, lemma_item_end_unique,
    lemma_item_start_unique, on_boundary, TrustedContainer, TrustedContainerMut, TrustedItem,
    TrustedUnit,
};
use vstd::prelude::*;

verus! {

/// A branded container, that allows access only to indices and ranges with
/// the exact same brand in the `'id` parameter.
///
/// The brand is made by a scope ([`crate::scope`] and its siblings): each
/// call of a scope gives its closure a lifetime `'id` that no other call
/// shares, so the particles of one container cannot reach another.
///
/// Every particle that a container hands out is *admitted* by it (see
/// [`Container::admits`]): its offsets lie within the container and, for
/// perfect particles, on item boundaries. Access through a particle needs no
/// further check. Where the brand ties a particle to its container, the
/// compiler enforces admission; the contracts below state it.
pub struct Container<'id, A: TrustedContainer> {
    id: Id<'id>,
    array: A,
}

impl<'id, A: TrustedContainer> Container<'id, A> {
    /// The backing array.
    pub closed spec fn backing(&self) -> &A {
        &self.array
    }

    /// The number of representational units.
    pub open spec fn count(&self) -> int {
        self.backing().unit_count() as int
    }

    /// Offsets are 32-bit: the container has at most `u32::MAX` units.
    #[verifier::type_invariant]
    pub open spec fn wf(&self) -> bool {
        self.count() <= u32::MAX
    }

    /// Offset `i` is an item boundary of the container.
    pub open spec fn boundary(&self, i: int) -> bool {
        on_boundary(self.backing(), i)
    }

    /// `i` is a perfect index of this container.
    pub open spec fn admits<P: Emptiness>(&self, i: perfect::Index<'id, P>) -> bool {
        &&& self.boundary(i.offset())
        &&& P::nonempty() ==> i.offset() < self.count()
    }

    /// `r` is a perfect range of this container.
    pub open spec fn admits_range<P: Emptiness>(&self, r: perfect::Range<'id, P>) -> bool {
        self.boundary(r.lo()) && self.boundary(r.hi())
    }

    /// `i` is a simple index of this container.
    pub open spec fn admits_simple<P: Emptiness>(&self, i: simple::Index<'id, P>) -> bool {
        &&& 0 <= i.offset() <= self.count()
        &&& P::nonempty() ==> i.offset() < self.count()
    }

    /// `r` is a simple range of this container.
    pub open spec fn admits_simple_range<P: Emptiness>(&self, r: simple::Range<'id, P>) -> bool {
        0 <= r.lo() && r.hi() <= self.count()
    }

    pub(crate) fn new(array: A) -> (r: Self)
        requires
            array.unit_count() <= u32::MAX,
        ensures
            *r.backing() == array,
    {
        Container { id: Id::fresh(), array }
    }

    /// This container without the branding.
    pub fn untrusted(&self) -> (r: &A)
        ensures
            *r == *self.backing(),
    {
        &self.array
    }

    /// This container without the branding.
    pub fn into_untrusted(self) -> (r: A)
        ensures
            r == *self.backing(),
    {
        self.array
    }

    /// A container over a reference to this container's array, with the
    /// same brand.
    pub fn as_ref(&self) -> (r: Container<'id, &A>)
        ensures
            **r.backing() == *self.backing(),
    {
        proof {
            use_type_invariant(self);
        }
        Container { id: self.id, array: &self.array }
    }

    /// The length of the container in representational units.
    pub fn len(&self) -> (r: u32)
        ensures
            r == self.count(),
    {
        proof {
            use_type_invariant(self);
        }
        self.array.unit_len()
    }

    /// The length of the container in representational units.
    pub fn unit_len(&self) -> (r: u32)
        ensures
            r == self.count(),
    {
        self.len()
    }

    /// Is this container empty?
    pub fn is_empty(&self) -> (r: bool)
        ensures
            r == (self.count() == 0),
    {
        self.len() == 0
    }

    /// The full range of the container.
    pub fn as_range(&self) -> (r: perfect::Range<'id, Unknown>)
        ensures
            r.lo() == 0,
            r.hi() == self.count(),
            self.admits_range(r),
    {
        proof {
            self.array.lemma_first_unit();
        }
        perfect::Range::new(0, self.len())
    }

    /// The start index of the container.
    pub fn start(&self) -> (r: perfect::Index<'id, Unknown>)
        ensures
            r.offset() == 0,
            self.admits(r),
    {
        proof {
            self.array.lemma_first_unit();
        }
        perfect::Index::new(0)
    }

    /// The end index of the container. (This is the one-past-the-end index.)
    pub fn end(&self) -> (r: perfect::Index<'id, Unknown>)
        ensures
            r.offset() == self.count(),
            self.admits(r),
    {
        perfect::Index::new(self.len())
    }

    /// Vet a raw offset for being an item boundary, including the
    /// one-past-the-end offset.
    pub fn vet(&self, ix: u32) -> (r: Result<perfect::Index<'id, Unknown>, IndexError>)
        where
            A::Item: TrustedItem<A>,
        ensures
            r is Ok <==> self.boundary(ix as int),
            r matches Ok(i) ==> i.offset() == ix && self.admits(i),
            r == Err::<perfect::Index<'id, Unknown>, IndexError>(IndexError::OutOfBounds) <==> ix
                > self.count(),
            r == Err::<perfect::Index<'id, Unknown>, IndexError>(IndexError::Invalid) <==> (ix
                < self.count() && !self.backing().starts_item(ix as int)),
    {
        let len = self.len();
        if ix == len {
            Ok(perfect::Index::new(ix))
        } else if ix < len {
            if <A::Item as TrustedItem<A>>::vet_inbounds(&self.array, ix) {
                Ok(perfect::Index::new(ix))
            } else {
                Err(IndexError::Invalid)
            }
        } else {
            Err(IndexError::OutOfBounds)
        }
    }

    /// Vet a raw offset for being the start of an item.
    pub fn vet_nonempty(&self, ix: u32) -> (r: Result<perfect::Index<'id, NonEmpty>, IndexError>)
        where
            A::Item: TrustedItem<A>,
        ensures
            r is Ok <==> (ix < self.count() && self.backing().starts_item(ix as int)),
            r matches Ok(i) ==> i.offset() == ix && self.admits(i),
            r == Err::<perfect::Index<'id, NonEmpty>, IndexError>(IndexError::OutOfBounds) <==> ix
                >= self.count(),
            r == Err::<perfect::Index<'id, NonEmpty>, IndexError>(IndexError::Invalid) <==> (ix
                < self.count() && !self.backing().starts_item(ix as int)),
    {
        if ix < self.len() {
            if <A::Item as TrustedItem<A>>::vet_inbounds(&self.array, ix) {
                Ok(perfect::Index::new(ix))
            } else {
                Err(IndexError::Invalid)
            }
        } else {
            Err(IndexError::OutOfBounds)
        }
    }

    /// Vet an index for being valid, including the one-past-the-end index.
    pub fn vet_or_end(&self, ix: u32) -> (r: Result<perfect::Index<'id, Unknown>, IndexError>)
        where
            A::Item: TrustedItem<A>,
        ensures
            r is Ok <==> self.boundary(ix as int),
            r matches Ok(i) ==> i.offset() == ix && self.admits(i),
            r == Err::<perfect::Index<'id, Unknown>, IndexError>(IndexError::OutOfBounds) <==> ix
                > self.count(),
            r == Err::<perfect::Index<'id, Unknown>, IndexError>(IndexError::Invalid) <==> (ix
                < self.count() && !self.backing().starts_item(ix as int)),
    {
        if ix == self.len() {
            Ok(self.end())
        } else {
            match self.vet_nonempty(ix) {
                Ok(i) => Ok(i.erased()),
                Err(IndexError::OutOfBounds) => Err(IndexError::OutOfBounds),
                Err(IndexError::Invalid) => Err(IndexError::Invalid),
            }
        }
    }

    /// Vet a raw range `start..end`: both ends independently, the start
    /// first; a range that ends before it starts is `Invalid`.
    pub fn vet_range(&self, start: u32, end: u32) -> (r: Result<
        perfect::Range<'id, Unknown>,
        IndexError,
    >)
        where
            A::Item: TrustedItem<A>,
        ensures
            r is Ok <==> (self.boundary(start as int) && self.boundary(end as int) && start
                <= end),
            r matches Ok(g) ==> g.lo() == start && g.hi() == end && self.admits_range(g),
            r matches Err(e) ==> e == if !self.boundary(start as int) {
                if start > self.count() {
                    IndexError::OutOfBounds
                } else {
                    IndexError::Invalid
                }
            } else if !self.boundary(end as int) {
                if end > self.count() {
                    IndexError::OutOfBounds
                } else {
                    IndexError::Invalid
                }
            } else {
                IndexError::Invalid
            },
    {
        let s = match self.vet(start) {
            Ok(s) => s,
            Err(e) => return Err(e),
        };
        let e = match self.vet(end) {
            Ok(e) => e,
            Err(e) => return Err(e),
        };
        if start <= end {
            Ok(perfect::Range::new(s.untrusted(), e.untrusted()))
        } else {
            Err(IndexError::Invalid)
        }
    }

    /// Upgrade a simple index to a perfect one, if it lies on an item
    /// boundary. The index keeps its proof.
    pub fn vet_simple<P: Emptiness>(&self, index: simple::Index<'id, P>) -> (r: Result<
        perfect::Index<'id, P>,
        IndexError,
    >)
        where
            A::Item: TrustedItem<A>,
        requires
            self.admits_simple(index),
        ensures
            r is Ok <==> self.boundary(index.offset()),
            r matches Ok(i) ==> i.offset() == index.offset() && self.admits(i),
            r matches Err(e) ==> e == IndexError::Invalid,
    {
        proof {
            use_type_invariant(&index);
        }
        match self.vet(index.untrusted()) {
            Ok(_) => Ok(perfect::Index::new(index.untrusted())),
            Err(_) => Err(IndexError::Invalid),
        }
    }

    /// Upgrade a simple range to a perfect one, if both its ends lie on item
    /// boundaries. The range keeps its proof.
    pub fn vet_simple_range<P: Emptiness>(&self, range: simple::Range<'id, P>) -> (r: Result<
        perfect::Range<'id, P>,
        IndexError,
    >)
        where
            A::Item: TrustedItem<A>,
        requires
            self.admits_simple_range(range),
        ensures
            r is Ok <==> (self.boundary(range.lo()) && self.boundary(range.hi())),
            r matches Ok(g) ==> g.lo() == range.lo() && g.hi() == range.hi()
                && self.admits_range(g),
            r matches Err(e) ==> e == IndexError::Invalid,
    {
        proof {
            use_type_invariant(&range);
        }
        match self.vet(range.start().untrusted()) {
            Ok(_) => match self.vet(range.end().untrusted()) {
                Ok(_) => Ok(perfect::Range::from_simple(range)),
                Err(_) => Err(IndexError::Invalid),
            },
            Err(_) => Err(IndexError::Invalid),
        }
    }

    /// Round a simple index down to the start of the item that covers it;
    /// the one-past-the-end index stays. The index keeps its proof.
    pub fn align_simple<P: Emptiness>(&self, index: simple::Index<'id, P>) -> (r: perfect::Index<
        'id,
        P,
    >)
        where
            A::Item: TrustedItem<A>,
        requires
            self.admits_simple(index),
        ensures
            r.offset() == if index.offset() == self.count() {
                index.offset()
            } else {
                item_start(self.backing(), index.offset())
            },
            r.offset() <= index.offset(),
            self.admits(r),
    {
        proof {
            use_type_invariant(&index);
        }
        match self.align(index.untrusted()) {
            Ok(i) => perfect::Index::new(i.untrusted()),
            Err(_) => perfect::Index::new(index.untrusted()),
        }
    }

    /// Split the container around an index: what lies before it, and what
    /// starts at it. The second range keeps the index's proof.
    pub fn split_at<P: Emptiness>(&self, index: perfect::Index<'id, P>) -> (r: (
        perfect::Range<'id, Unknown>,
        perfect::Range<'id, P>,
    ))
        requires
            self.admits(index),
        ensures
            r.0.lo() == 0 && r.0.hi() == index.offset(),
            r.1.lo() == index.offset() && r.1.hi() == self.count(),
            self.admits_range(r.0) && self.admits_range(r.1),
    {
        proof {
            self.array.lemma_first_unit();
        }
        let ix = index.untrusted();
        (perfect::Range::new(0, ix), perfect::Range::new(ix, self.len()))
    }

    /// Split the container after the item that starts at an index: the
    /// first range ends with that item.
    pub fn split_after(&self, index: perfect::Index<'id, NonEmpty>) -> (r: (
        perfect::Range<'id, NonEmpty>,
        perfect::Range<'id, Unknown>,
    ))
        where
            A::Item: TrustedItem<A>,
        requires
            self.admits(index),
        ensures
            r.0.lo() == 0 && r.0.hi() == item_end(self.backing(), index.offset()),
            r.1.lo() == r.0.hi() && r.1.hi() == self.count(),
            self.admits_range(r.0) && self.admits_range(r.1),
    {
        proof {
            self.array.lemma_first_unit();
        }
        let next = self.after_item(index).untrusted();
        (perfect::Range::new(0, next), perfect::Range::new(next, self.len()))
    }

    /// Split the container around a range: what lies before it, and what
    /// lies after it.
    pub fn split_around<P: Emptiness>(&self, range: perfect::Range<'id, P>) -> (r: (
        perfect::Range<'id, Unknown>,
        perfect::Range<'id, Unknown>,
    ))
        requires
            self.admits_range(range),
        ensures
            r.0.lo() == 0 && r.0.hi() == range.lo(),
            r.1.lo() == range.hi() && r.1.hi() == self.count(),
            self.admits_range(r.0) && self.admits_range(r.1),
    {
        proof {
            self.array.lemma_first_unit();
            use_type_invariant(&range);
        }
        (
            perfect::Range::new(0, range.start().untrusted()),
            perfect::Range::new(range.end().untrusted(), self.len()),
        )
    }

    /// The range strictly before an index.
    pub fn before<P: Emptiness>(&self, index: perfect::Index<'id, P>) -> (r: perfect::Range<
        'id,
        Unknown,
    >)
        requires
            self.admits(index),
        ensures
            r.lo() == 0 && r.hi() == index.offset(),
            self.admits_range(r),
    {
        self.split_at(index).0
    }

    /// The range strictly after the item that starts at an index.
    pub fn after(&self, index: perfect::Index<'id, NonEmpty>) -> (r: perfect::Range<'id, Unknown>)
        where
            A::Item: TrustedItem<A>,
        requires
            self.admits(index),
        ensures
            r.lo() == item_end(self.backing(), index.offset()) && r.hi() == self.count(),
            self.admits_range(r),
    {
        self.split_after(index).1
    }

    /// The index right after the item that starts at an index.
    pub fn after_item(&self, index: perfect::Index<'id, NonEmpty>) -> (r: perfect::Index<
        'id,
        Unknown,
    >)
        where
            A::Item: TrustedItem<A>,
        requires
            self.admits(index),
        ensures
            r.offset() == item_end(self.backing(), index.offset()),
            is_item_end(self.backing(), index.offset(), r.offset()),
            self.admits(r),
    {
        proof {
            use_type_invariant(self);
        }
        let next = <A::Item as TrustedItem<A>>::after(&self.array, index.untrusted());
        proof {
            lemma_item_end_unique(&self.array, index.offset(), next as int);
        }
        perfect::Index::new(next)
    }

    /// Step to the next item; `None` at the end of the container.
    pub fn advance(&self, index: perfect::Index<'id, NonEmpty>) -> (r: Option<
        perfect::Index<'id, NonEmpty>,
    >)
        where
            A::Item: TrustedItem<A>,
        requires
            self.admits(index),
        ensures
            r is None <==> item_end(self.backing(), index.offset()) == self.count(),
            r matches Some(n) ==> n.offset() == item_end(self.backing(), index.offset())
                && self.admits(n),
    {
        let next = self.after_item(index).untrusted();
        if next < self.len() {
            Some(perfect::Index::new(next))
        } else {
            None
        }
    }

    /// Step to the previous item; `None` at the start of the container.
    pub fn retreat<P: Emptiness>(&self, index: perfect::Index<'id, P>) -> (r: Option<
        perfect::Index<'id, NonEmpty>,
    >)
        where
            A::Item: TrustedItem<A>,
        requires
            self.admits(index),
        ensures
            r is None <==> index.offset() == 0,
            r matches Some(p) ==> p.offset() == item_start(self.backing(), index.offset() - 1)
                && self.admits(p),
    {
        let ix = index.untrusted();
        if ix == 0 {
            None
        } else {
            let prev = <A::Item as TrustedItem<A>>::align(&self.array, ix - 1);
            proof {
                use_type_invariant(self);
                lemma_item_start_unique(&self.array, ix - 1, prev as int);
            }
            Some(perfect::Index::new(prev))
        }
    }

    /// Round a raw offset down to the start of the item that covers it; the
    /// one-past-the-end offset stays.
    pub fn align(&self, ix: u32) -> (r: Result<perfect::Index<'id, Unknown>, IndexError>)
        where
            A::Item: TrustedItem<A>,
        ensures
            r is Err <==> ix > self.count(),
            r matches Err(e) ==> e == IndexError::OutOfBounds,
            r matches Ok(i) ==> self.admits(i) && i.offset() == if ix == self.count() {
                ix as int
            } else {
                item_start(self.backing(), ix as int)
            },
            r matches Ok(i) ==> (ix < self.count() ==> is_item_start(
                self.backing(),
                ix as int,
                i.offset(),
            )),
    {
        let len = self.len();
        if ix < len {
            let start = <A::Item as TrustedItem<A>>::align(&self.array, ix);
            proof {
                lemma_item_start_unique(&self.array, ix as int, start as int);
            }
            Ok(perfect::Index::new(start))
        } else if ix == len {
            Ok(self.end())
        } else {
            Err(IndexError::OutOfBounds)
        }
    }

    /// Step forward by `n` units, then vet the offset reached.
    pub fn advance_by<P: Emptiness>(&self, index: perfect::Index<'id, P>, n: u32) -> (r: Result<
        perfect::Index<'id, Unknown>,
        IndexError,
    >)
        where
            A::Item: TrustedItem<A>,
        requires
            self.admits(index),
        ensures
            r is Ok <==> self.boundary(index.offset() + n),
            r matches Ok(i) ==> i.offset() == index.offset() + n && self.admits(i),
            r matches Err(e) ==> e == if index.offset() + n > self.count() {
                IndexError::OutOfBounds
            } else {
                IndexError::Invalid
            },
    {
        let ix = index.untrusted();
        if n > self.len() - ix {
            Err(IndexError::OutOfBounds)
        } else {
            self.vet(ix + n)
        }
    }

    /// Step back by `n` units, then vet the offset reached.
    pub fn decrease_by<P: Emptiness>(&self, index: perfect::Index<'id, P>, n: u32) -> (r: Result<
        perfect::Index<'id, Unknown>,
        IndexError,
    >)
        where
            A::Item: TrustedItem<A>,
        requires
            self.admits(index),
        ensures
            r is Ok <==> (n <= index.offset() && self.boundary(index.offset() - n)),
            r matches Ok(i) ==> i.offset() == index.offset() - n && self.admits(i),
            r matches Err(e) ==> e == if n > index.offset() {
                IndexError::OutOfBounds
            } else {
                IndexError::Invalid
            },
    {
        let ix = index.untrusted();
        if n > ix {
            Err(IndexError::OutOfBounds)
        } else {
            self.vet(ix - n)
        }
    }

    // ~~~ Accessors ~~~ //

    /// The item that starts at an index; no check is made.
    pub fn get(&self, index: perfect::Index<'id, NonEmpty>) -> (r: &A::Item)
        requires
            self.admits(index),
        ensures
            self.backing().is_item(index.offset(), r),
    {
        proof {
            use_type_invariant(self);
        }
        self.array.get_unchecked(index.untrusted())
    }

    /// The units of a range; no check is made.
    pub fn slice<P: Emptiness>(&self, range: perfect::Range<'id, P>) -> (r: &A::Slice)
        requires
            self.admits_range(range),
        ensures
            self.backing().is_slice(range.lo(), range.hi(), r),
    {
        proof {
            use_type_invariant(&range);
        }
        self.array.slice_unchecked(range.start().untrusted(), range.end().untrusted())
    }

    /// The units before an index; no check is made.
    pub fn slice_to<P: Emptiness>(&self, index: perfect::Index<'id, P>) -> (r: &A::Slice)
        requires
            self.admits(index),
        ensures
            self.backing().is_slice(0, index.offset(), r),
    {
        self.slice(self.before(index))
    }

    /// The units from an index on; no check is made.
    pub fn slice_from<P: Emptiness>(&self, index: perfect::Index<'id, P>) -> (r: &A::Slice)
        requires
            self.admits(index),
        ensures
            self.backing().is_slice(index.offset(), self.count(), r),
    {
        self.slice(self.split_at(index).1)
    }

    /// All units of the container.
    pub fn slice_all(&self) -> (r: &A::Slice)
        ensures
            self.backing().is_slice(0, self.count(), r),
    {
        self.slice(self.as_range())
    }

    /// The unit at a simple index, where every unit is an item; no check is
    /// made.
    pub fn get_unit(&self, index: simple::Index<'id, NonEmpty>) -> (r: &A::Item)
        where
            A::Item: TrustedUnit<A>,
        requires
            self.admits_simple(index),
        ensures
            self.backing().is_item(index.offset(), r),
    {
        proof {
            use_type_invariant(self);
            <A::Item as TrustedUnit<A>>::lemma_unit(&self.array, index.offset());
        }
        self.array.get_unchecked(index.untrusted())
    }

    /// The units of a simple range, where every unit is an item; no check is
    /// made.
    pub fn slice_units<P: Emptiness>(&self, range: simple::Range<'id, P>) -> (r: &A::Slice)
        where
            A::Item: TrustedUnit<A>,
        requires
            self.admits_simple_range(range),
        ensures
            self.backing().is_slice(range.lo(), range.hi(), r),
    {
        proof {
            use_type_invariant(&range);
            if range.lo() < self.count() {
                <A::Item as TrustedUnit<A>>::lemma_unit(&self.array, range.lo());
            }
            if range.hi() < self.count() {
                <A::Item as TrustedUnit<A>>::lemma_unit(&self.array, range.hi());
            }
        }
        self.array.slice_unchecked(range.start().untrusted(), range.end().untrusted())
    }

    /// Replace the item that starts at an index; no check is made. The item
    /// structure of the container stays, and so do its particles.
    pub fn set(self, index: perfect::Index<'id, NonEmpty>, item: A::Item) -> (r: Self)
        where
            A: TrustedContainerMut,
            A::Item: Sized,
        requires
            self.admits(index),
        ensures
            r.count() == self.count(),
            forall|i: int| #[trigger] r.boundary(i) == self.boundary(i),
            r.backing().is_item(index.offset(), &item),
            forall|j: int, x: &A::Item|
                0 <= j < self.count() && j != index.offset() ==> #[trigger] r.backing().is_item(
                    j,
                    x,
                ) == self.backing().is_item(j, x),
    {
        proof {
            use_type_invariant(&self);
        }
        let Container { id, mut array } = self;
        array.set_unchecked(index.untrusted(), item);
        Container { id, array }
    }
}

/// Particles that consult the container.
impl<'id, P: Emptiness> perfect::Index<'id, P> {
    /// Try to create a proof that this index is nonempty.
    pub fn nonempty_in<A: TrustedContainer>(self, container: &Container<'id, A>) -> (r: Option<
        perfect::Index<'id, NonEmpty>,
    >)
        requires
            container.admits(self),
        ensures
            r is Some <==> self.offset() < container.count(),
            r matches Some(i) ==> i.offset() == self.offset() && container.admits(i),
    {
        proof {
            use_type_invariant(container);
        }
        if self.untrusted() < container.len() {
            Some(perfect::Index::new(self.untrusted()))
        } else {
            None
        }
    }

    /// Try to create a proof that this index is within a range.
    pub fn in_range<Q: Emptiness>(self, range: perfect::Range<'id, Q>) -> (r: Option<
        perfect::Index<'id, NonEmpty>,
    >)
        ensures
            r is Some <==> range.lo() <= self.offset() < range.hi(),
            r matches Some(i) ==> i.offset() == self.offset(),
    {
        proof {
            use_type_invariant(&range);
        }
        if range.contains(self) {
            Some(perfect::Index::new(self.untrusted()))
        } else {
            None
        }
    }
}

impl<'id, P: Emptiness> perfect::Range<'id, P> {
    /// If the raw offset starts an item within this range.
    pub fn contains_in<A: TrustedContainer>(self, ix: u32, container: &Container<'id, A>) -> (r:
        Option<perfect::Index<'id, NonEmpty>>)
        where
            A::Item: TrustedItem<A>,
        requires
            container.admits_range(self),
        ensures
            r is Some <==> (self.lo() <= ix < self.hi() && container.backing().starts_item(
                ix as int,
            )),
            r matches Some(i) ==> i.offset() == ix && container.admits(i),
    {
        if self.start().untrusted() <= ix && ix < self.end().untrusted() {
            match container.vet_nonempty(ix) {
                Ok(i) => Some(i),
                Err(_) => None,
            }
        } else {
            None
        }
    }

    /// The start of the item that covers a raw offset within this range.
    pub fn near_in<A: TrustedContainer>(self, ix: u32, container: &Container<'id, A>) -> (r:
        Option<perfect::Index<'id, NonEmpty>>)
        where
            A::Item: TrustedItem<A>,
        requires
            container.admits_range(self),
        ensures
            r is Some <==> self.lo() <= ix < self.hi(),
            r matches Some(i) ==> {
                &&& i.offset() == item_start(container.backing(), ix as int)
                &&& self.lo() <= i.offset() <= ix
                &&& container.admits(i)
            },
    {
        proof {
            use_type_invariant(container);
        }
        if self.start().untrusted() <= ix && ix < self.end().untrusted() {
            match container.align(ix) {
                Ok(i) => {
                    let near = i.untrusted();
                    proof {
                        let a = container.backing();
                        assert(is_item_start(a, ix as int, near as int));
                        if near < self.lo() {
                            assert(a.starts_item(self.lo()));
                        }
                    }
                    Some(perfect::Index::new(near))
                },
                Err(_) => None,
            }
        } else {
            None
        }
    }

    /// The item that covers the middle unit of this range (its start, where
    /// the range is empty).
    pub fn middle_in<A: TrustedContainer>(self, container: &Container<'id, A>) -> (r:
        perfect::Index<'id, P>)
        where
            A::Item: TrustedItem<A>,
        requires
            container.admits_range(self),
        ensures
            r.offset() == if self.lo() == self.hi() {
                self.lo()
            } else {
                item_start(container.backing(), self.lo() + (self.hi() - self.lo()) / 2)
            },
            self.lo() <= r.offset() <= self.hi(),
            P::nonempty() ==> r.offset() < self.hi(),
            container.admits(r),
    {
        proof {
            use_type_invariant(&self);
        }
        if self.is_empty() {
            self.start()
        } else {
            let mid = self.start().untrusted() + self.len() / 2;
            match self.near_in(mid, container) {
                Some(i) => perfect::Index::new(i.untrusted()),
                None => self.start(),
            }
        }
    }

    /// Split near a raw offset, if it lies in this range or at its end:
    /// the second range starts with the item that covers the offset.
    pub fn split_near_in<A: TrustedContainer>(self, ix: u32, container: &Container<'id, A>) -> (r:
        Option<(perfect::Range<'id, Unknown>, perfect::Range<'id, Unknown>)>)
        where
            A::Item: TrustedItem<A>,
        requires
            container.admits_range(self),
        ensures
            r is Some <==> self.lo() <= ix <= self.hi(),
            r matches Some(halves) ==> {
                let mid = if ix == self.hi() {
                    ix as int
                } else {
                    item_start(container.backing(), ix as int)
                };
                &&& halves.0.lo() == self.lo() && halves.0.hi() == mid
                &&& halves.1.lo() == mid && halves.1.hi() == self.hi()
                &&& container.admits_range(halves.0) && container.admits_range(halves.1)
            },
    {
        if ix == self.end().untrusted() {
            self.split_at(self.end())
        } else {
            match self.near_in(ix, container) {
                Some(mid) => self.split_at(mid),
                None => None,
            }
        }
    }

    /// Split the range in half such that the item that covers
    /// the middle unit index is within the second range.
    pub fn split_near_half_in<A: TrustedContainer>(self, container: &Container<'id, A>) -> (r: (
        perfect::Range<'id, Unknown>,
        perfect::Range<'id, P>,
    ))
        where
            A::Item: TrustedItem<A>,
        requires
            container.admits_range(self),
        ensures
            r.0.lo() == self.lo(),
            r.0.hi() == r.1.lo(),
            r.1.hi() == self.hi(),
            r.1.lo() == if self.lo() == self.hi() {
                self.lo()
            } else {
                item_start(container.backing(), self.lo() + (self.hi() - self.lo()) / 2)
            },
            container.admits_range(r.0) && container.admits_range(r.1),
    {
        proof {
            use_type_invariant(&self);
        }
        let mid = self.middle_in(container);
        (
            perfect::Range::new(self.start().untrusted(), mid.untrusted()),
            perfect::Range::new(mid.untrusted(), self.end().untrusted()),
        )
    }
}

impl<'id> perfect::Range<'id, NonEmpty> {
    /// Increase the range's start to the next item, if the result is still
    /// a non-empty range.
    ///
    /// `true` if stepped successfully, `false` if the range would be empty.
    pub fn advance_in<A: TrustedContainer>(&mut self, container: &Container<'id, A>) -> (r: bool)
        where
            A::Item: TrustedItem<A>,
        requires
            container.admits_range(*old(self)),
        ensures
            r == (item_end(container.backing(), old(self).lo()) < old(self).hi()),
            r ==> final(self).lo() == item_end(container.backing(), old(self).lo()),
            !r ==> final(self).lo() == old(self).lo(),
            final(self).hi() == old(self).hi(),
            container.admits_range(*final(self)),
    {
        proof {
            use_type_invariant(&*self);
        }
        let next = container.after_item(self.start());
        if next.untrusted() < self.end().untrusted() {
            *self = perfect::Range::new(next.untrusted(), self.end().untrusted());
            true
        } else {
            false
        }
    }
}

impl<'id> Container<'id, String> {
    /// This container viewed as a container of a string slice, with the same
    /// brand.
    pub fn project(&self) -> (r: Container<'id, &str>)
        ensures
            r.backing()@ == self.backing()@,
    {
        proof {
            use_type_invariant(self);
        }
        Container { id: self.id, array: self.array.as_str() }
    }
}

} // verus!
