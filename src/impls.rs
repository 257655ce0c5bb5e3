//! The item model for element arrays (every element is one unit and one
//! item), and for borrowed containers of any kind.
use crate::traits::{TrustedContainer, TrustedContainerMut, TrustedItem, TrustedUnit};
use vstd::prelude::*;

verus! {

// ~~~ Slices ~~~ //

impl<T> TrustedContainer for [T] {
    type Item = T;
    type Slice = [T];

    open spec fn unit_count(&self) -> nat {
        self@.len()
    }

    open spec fn starts_item(&self, i: int) -> bool {
        true
    }

    open spec fn is_item(&self, i: int, item: &T) -> bool {
        *item == self@[i]
    }

    open spec fn is_slice(&self, start: int, end: int, slice: &[T]) -> bool {
        slice@ == self@.subrange(start, end)
    }

    proof fn lemma_first_unit(&self) {
    }

    fn unit_len(&self) -> (r: u32) {
        self.len() as u32
    }

    fn get_unchecked(&self, i: u32) -> (r: &T) {
        &self[i as usize]
    }

    fn slice_unchecked(&self, start: u32, end: u32) -> (r: &[T]) {
        &self[start as usize..end as usize]
    }
}

impl<T> TrustedContainerMut for [T] {
    fn set_unchecked(&mut self, i: u32, item: T) {
        self[i as usize] = item;
    }
}

impl<T> TrustedItem<[T]> for T {
    fn vet_inbounds(array: &[T], i: u32) -> (r: bool) {
        true
    }

    fn after(array: &[T], i: u32) -> (r: u32) {
        i + 1
    }

    fn align(array: &[T], i: u32) -> (r: u32) {
        i
    }
}

impl<T> TrustedUnit<[T]> for T {
    proof fn lemma_unit(array: &[T], i: int) {
    }
}

// ~~~ Vectors ~~~ //

impl<T> TrustedContainer for Vec<T> {
    type Item = T;
    type Slice = [T];

    open spec fn unit_count(&self) -> nat {
        self@.len()
    }

    open spec fn starts_item(&self, i: int) -> bool {
        true
    }

    open spec fn is_item(&self, i: int, item: &T) -> bool {
        *item == self@[i]
    }

    open spec fn is_slice(&self, start: int, end: int, slice: &[T]) -> bool {
        slice@ == self@.subrange(start, end)
    }

    proof fn lemma_first_unit(&self) {
    }

    fn unit_len(&self) -> (r: u32) {
        self.len() as u32
    }

    fn get_unchecked(&self, i: u32) -> (r: &T) {
        &self[i as usize]
    }

    fn slice_unchecked(&self, start: u32, end: u32) -> (r: &[T]) {
        &self.as_slice()[start as usize..end as usize]
    }
}

impl<T> TrustedContainerMut for Vec<T> {
    fn set_unchecked(&mut self, i: u32, item: T) {
        self[i as usize] = item;
    }
}

impl<T> TrustedItem<Vec<T>> for T {
    fn vet_inbounds(array: &Vec<T>, i: u32) -> (r: bool) {
        true
    }

    fn after(array: &Vec<T>, i: u32) -> (r: u32) {
        i + 1
    }

    fn align(array: &Vec<T>, i: u32) -> (r: u32) {
        i
    }
}

impl<T> TrustedUnit<Vec<T>> for T {
    proof fn lemma_unit(array: &Vec<T>, i: int) {
    }
}

// ~~~ References ~~~ //

impl<'a, A: ?Sized + TrustedContainer> TrustedContainer for &'a A {
    type Item = A::Item;
    type Slice = A::Slice;

    open spec fn unit_count(&self) -> nat {
        (**self).unit_count()
    }

    open spec fn starts_item(&self, i: int) -> bool {
        (**self).starts_item(i)
    }

    open spec fn is_item(&self, i: int, item: &A::Item) -> bool {
        (**self).is_item(i, item)
    }

    open spec fn is_slice(&self, start: int, end: int, slice: &A::Slice) -> bool {
        (**self).is_slice(start, end, slice)
    }

    proof fn lemma_first_unit(&self) {
        (**self).lemma_first_unit();
    }

    fn unit_len(&self) -> (r: u32) {
        (**self).unit_len()
    }

    fn get_unchecked(&self, i: u32) -> (r: &A::Item) {
        (**self).get_unchecked(i)
    }

    fn slice_unchecked(&self, start: u32, end: u32) -> (r: &A::Slice) {
        (**self).slice_unchecked(start, end)
    }
}

impl<'a, A: ?Sized + TrustedContainer> TrustedContainer for &'a mut A {
    type Item = A::Item;
    type Slice = A::Slice;

    open spec fn unit_count(&self) -> nat {
        (**self).unit_count()
    }

    open spec fn starts_item(&self, i: int) -> bool {
        (**self).starts_item(i)
    }

    open spec fn is_item(&self, i: int, item: &A::Item) -> bool {
        (**self).is_item(i, item)
    }

    open spec fn is_slice(&self, start: int, end: int, slice: &A::Slice) -> bool {
        (**self).is_slice(start, end, slice)
    }

    proof fn lemma_first_unit(&self) {
        (**self).lemma_first_unit();
    }

    fn unit_len(&self) -> (r: u32) {
        (**self).unit_len()
    }

    fn get_unchecked(&self, i: u32) -> (r: &A::Item) {
        (**self).get_unchecked(i)
    }

    fn slice_unchecked(&self, start: u32, end: u32) -> (r: &A::Slice) {
        (**self).slice_unchecked(start, end)
    }
}

impl<'a, A: ?Sized + TrustedContainerMut> TrustedContainerMut for &'a mut A {
    fn set_unchecked(&mut self, i: u32, item: A::Item) where A::Item: Sized {
        (**self).set_unchecked(i, item);
    }
}

impl<'a, A: ?Sized + TrustedContainer<Item = I>, I: ?Sized + TrustedItem<A>> TrustedItem<&'a A> for I {
    fn vet_inbounds(array: &&'a A, i: u32) -> (r: bool) {
        I::vet_inbounds(*array, i)
    }

    fn after(array: &&'a A, i: u32) -> (r: u32) {
        I::after(*array, i)
    }

    fn align(array: &&'a A, i: u32) -> (r: u32) {
        I::align(*array, i)
    }
}

impl<'a, A: ?Sized + TrustedContainer<Item = I>, I: ?Sized + TrustedItem<A>> TrustedItem<&'a mut A> for I {
    fn vet_inbounds(array: &&'a mut A, i: u32) -> (r: bool) {
        I::vet_inbounds(&**array, i)
    }

    fn after(array: &&'a mut A, i: u32) -> (r: u32) {
        I::after(&**array, i)
    }

    fn align(array: &&'a mut A, i: u32) -> (r: u32) {
        I::align(&**array, i)
    }
}

impl<'a, A: ?Sized + TrustedContainer<Item = I>, I: TrustedUnit<A>> TrustedUnit<&'a A> for I {
    proof fn lemma_unit(array: &&'a A, i: int) {
        I::lemma_unit(*array, i);
    }
}

impl<'a, A: ?Sized + TrustedContainer<Item = I>, I: TrustedUnit<A>> TrustedUnit<&'a mut A> for I {
    proof fn lemma_unit(array: &&'a mut A, i: int) {
        I::lemma_unit(&**array, i);
    }
}

} // verus!
