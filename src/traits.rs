//! The item model: how a container's logical items lie on its
//! representational units, and the checks that place a raw offset on them.
use vstd::prelude::*;

verus! {

/// Types that can back a trusted container: it can have particles that are
/// trusted to be in bounds. See also [`TrustedItem`], [`TrustedUnit`].
///
/// Offsets are counted in representational units (for text: bytes); an item
/// (for text: a character) covers one or more units, and the first of them
/// is where the item starts.
pub trait TrustedContainer {
    /// The item type of this container.
    type Item: ?Sized;
    /// The slice type of this container.
    type Slice: ?Sized;

    /// The number of representational units.
    spec fn unit_count(&self) -> nat;

    /// An item starts at unit `i` (meaningful for `0 <= i < unit_count()`).
    spec fn starts_item(&self, i: int) -> bool;

    /// `item` is the item that starts at unit `i`.
    spec fn is_item(&self, i: int, item: &Self::Item) -> bool;

    /// `slice` holds the units `start..end`.
    spec fn is_slice(&self, start: int, end: int, slice: &Self::Slice) -> bool;

    /// The first unit of a non-empty container starts an item.
    proof fn lemma_first_unit(&self)
        ensures
            self.unit_count() > 0 ==> self.starts_item(0),
    ;

    /// The length of the container in representational units.
    fn unit_len(&self) -> (r: u32)
        requires
            self.unit_count() <= u32::MAX,
        ensures
            r == self.unit_count(),
    ;

    /// The item that starts at unit `i`.
    fn get_unchecked(&self, i: u32) -> (r: &Self::Item)
        requires
            i < self.unit_count(),
            self.unit_count() <= u32::MAX,
            self.starts_item(i as int),
        ensures
            self.is_item(i as int, r),
    ;

    /// The units `start..end`, both of them item boundaries.
    fn slice_unchecked(&self, start: u32, end: u32) -> (r: &Self::Slice)
        requires
            start <= end <= self.unit_count(),
            start == self.unit_count() || self.starts_item(start as int),
            end == self.unit_count() || self.starts_item(end as int),
        ensures
            self.is_slice(start as int, end as int, r),
    ;
}

/// A container whose items can be replaced in place.
pub trait TrustedContainerMut: TrustedContainer {
    /// Replace the item that starts at unit `i`; the item structure stays.
    fn set_unchecked(&mut self, i: u32, item: Self::Item)
        where
            Self::Item: Sized,
        requires
            i < (*old(self)).unit_count(),
            (*old(self)).starts_item(i as int),
        ensures
            (*final(self)).unit_count() == (*old(self)).unit_count(),
            forall|j: int| #[trigger] (*final(self)).starts_item(j) == (*old(self)).starts_item(j),
            (*final(self)).is_item(i as int, &item),
            forall|j: int, x: &Self::Item|
                0 <= j < (*old(self)).unit_count() && j != i ==> #[trigger] (*final(self)).is_item(
                    j,
                    x,
                ) == (*old(self)).is_item(j, x),
    ;
}

/// Offset `i` is an item boundary: the start of an item, or the
/// one-past-the-end offset.
pub open spec fn on_boundary<A: ?Sized + TrustedContainer>(a: &A, i: int) -> bool {
    i == a.unit_count() || (0 <= i < a.unit_count() && a.starts_item(i))
}

/// `r` is the offset right after the item that starts at `i`: the next
/// item boundary.
pub open spec fn is_item_end<A: ?Sized + TrustedContainer>(a: &A, i: int, r: int) -> bool {
    &&& i < r <= a.unit_count()
    &&& on_boundary(a, r)
    &&& forall|j: int| i < j < r ==> !#[trigger] a.starts_item(j)
}

/// `r` is the start of the item that covers unit `i`: the last item start
/// at or before `i`.
pub open spec fn is_item_start<A: ?Sized + TrustedContainer>(a: &A, i: int, r: int) -> bool {
    &&& 0 <= r <= i
    &&& a.starts_item(r)
    &&& forall|j: int| r < j <= i ==> !#[trigger] a.starts_item(j)
}

/// The offset right after the item that starts at `i`.
pub open spec fn item_end<A: ?Sized + TrustedContainer>(a: &A, i: int) -> int {
    choose|r: int| is_item_end(a, i, r)
}

/// The start of the item that covers unit `i`.
pub open spec fn item_start<A: ?Sized + TrustedContainer>(a: &A, i: int) -> int {
    choose|r: int| is_item_start(a, i, r)
}

/// There is one item end after each unit of a container.
pub proof fn lemma_item_end_unique<A: ?Sized + TrustedContainer>(a: &A, i: int, r: int)
    requires
        is_item_end(a, i, r),
    ensures
        item_end(a, i) == r,
{
    let s = item_end(a, i);
    assert(is_item_end(a, i, s));
    if s < r {
        assert(!a.starts_item(s));
    } else if r < s {
        assert(!a.starts_item(r));
    }
}

/// There is one item start at or before each unit of a container.
pub proof fn lemma_item_start_unique<A: ?Sized + TrustedContainer>(a: &A, i: int, r: int)
    requires
        is_item_start(a, i, r),
    ensures
        item_start(a, i) == r,
{
    let s = item_start(a, i);
    assert(is_item_start(a, i, s));
    if s < r {
        assert(!a.starts_item(r));
    } else if r < s {
        assert(!a.starts_item(s));
    }
}

/// An item within a [`TrustedContainer`].
///
/// Note that raw indices are _unit_ indices, not item indices. One item (e.g.
/// a character) can be made up of multiple units (e.g. bytes).
pub trait TrustedItem<Array: ?Sized + TrustedContainer<Item = Self>> {
    /// Vet an in-bounds raw unit offset for being the start of an item.
    fn vet_inbounds(array: &Array, i: u32) -> (r: bool)
        requires
            i < array.unit_count(),
        ensures
            r == array.starts_item(i as int),
    ;

    /// The offset right after the item that starts at `i`.
    fn after(array: &Array, i: u32) -> (r: u32)
        requires
            i < array.unit_count(),
            array.unit_count() <= u32::MAX,
            array.starts_item(i as int),
        ensures
            is_item_end(array, i as int, r as int),
    ;

    /// The start of the item that covers the in-bounds unit `i`.
    fn align(array: &Array, i: u32) -> (r: u32)
        requires
            i < array.unit_count(),
        ensures
            is_item_start(array, i as int, r as int),
    ;
}

/// A [`TrustedItem`] where the item is the base unit. Thus, manipulating
/// indices and ranges of the container is as simple as regular arithmetic.
pub trait TrustedUnit<Array: ?Sized + TrustedContainer<Item = Self>>: TrustedItem<Array> {
    /// Every unit starts an item.
    proof fn lemma_unit(array: &Array, i: int)
        requires
            0 <= i < array.unit_count(),
        ensures
            array.starts_item(i),
    ;
}

} // verus!
