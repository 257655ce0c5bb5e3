use windex::{scope, scope_mut, scope_val, IndexError, NonEmpty, Range};

#[test]
fn array_vet_scenario() {
    let data = [10, 20, 30, 40, 50];
    scope(&data[..], |c| {
        assert_eq!(c.vet(5).unwrap(), c.end());
        assert_eq!(c.vet(6), Err(IndexError::OutOfBounds));
        let i4 = c.vet_nonempty(4).unwrap();
        assert!(c.advance(i4).is_none());
        let i0 = c.vet_nonempty(0).unwrap();
        assert!(c.retreat(i0).is_none());
        assert_eq!(c.advance(i0).unwrap().untrusted(), 1);
        assert_eq!(c.retreat(i4).unwrap().untrusted(), 3);
        assert_eq!(*c.get(i4), 50);
    });
}

#[test]
fn array_every_offset_is_a_boundary() {
    let data = [1u8, 2, 3, 4];
    scope(&data[..], |c| {
        for r in 0..=4u32 {
            assert_eq!(c.vet(r).unwrap().untrusted(), r);
        }
        for r in 5..8u32 {
            assert_eq!(c.vet(r), Err(IndexError::OutOfBounds));
        }
        assert_eq!(c.vet_nonempty(4), Err(IndexError::OutOfBounds));
        assert_eq!(c.align(2).unwrap().untrusted(), 2);
        assert_eq!(c.after_item(c.vet_nonempty(2).unwrap()).untrusted(), 3);
    });
}

#[test]
fn empty_container() {
    let data: [u8; 0] = [];
    scope(&data[..], |c| {
        assert!(c.is_empty());
        assert_eq!(c.len(), 0);
        assert_eq!(c.start(), c.end());
        assert_eq!(c.vet(0).unwrap(), c.end());
        assert_eq!(c.vet(1), Err(IndexError::OutOfBounds));
        assert_eq!(c.vet_nonempty(0), Err(IndexError::OutOfBounds));
        assert!(c.as_range().nonempty().is_none());
        assert!(c.as_range().is_empty());
        assert!(c.retreat(c.end()).is_none());
        assert!(c.start().nonempty_in(&c).is_none());
        assert_eq!(c.slice_all().len(), 0);
    });
}

#[test]
fn nonempty_ranges_start_before_their_end() {
    let data = [1, 2, 3, 4, 5];
    scope(&data[..], |c| {
        for s in 0..=5u32 {
            for e in s..=5u32 {
                let r = c.vet_range(s, e).unwrap();
                match r.nonempty() {
                    Some(n) => {
                        assert!(n.start().untrusted() < n.end().untrusted());
                        assert!(!n.is_empty());
                        n.observe_proof();
                    }
                    None => assert_eq!(s, e),
                }
            }
        }
    });
}

#[test]
fn join_needs_touching_ranges() {
    let data = [1, 2, 3, 4, 5, 6];
    scope(&data[..], |c| {
        let a = c.vet_range(0, 2).unwrap();
        let b = c.vet_range(2, 5).unwrap();
        let gap = c.vet_range(3, 5).unwrap();
        let j = a.join(b).unwrap();
        assert_eq!(j.untrusted(), 0..5);
        assert!(a.join(gap).is_none());
        assert!(b.join(a).is_none());
        let a1 = a.nonempty().unwrap();
        let empty = c.vet_range(2, 2).unwrap();
        let j1: Range<'_, NonEmpty> = a1.join(empty).unwrap();
        assert_eq!(j1.untrusted(), 0..2);
        j1.observe_proof();
        let j2: Range<'_, NonEmpty> = empty.join(b.nonempty().unwrap()).unwrap();
        assert_eq!(j2.untrusted(), 2..5);
        let cover = a.join_cover(gap);
        assert_eq!(cover.untrusted(), 0..5);
        assert_eq!(gap.join_cover(a).untrusted(), 0..5);
        assert_eq!(gap.join_cover_both(a).untrusted(), 0..5);
    });
}

#[test]
fn split_then_join_gives_back_the_range() {
    let data = [1, 2, 3, 4, 5, 6, 7];
    scope(&data[..], |c| {
        let r = c.vet_range(2, 6).unwrap();
        for i in 0..=7u32 {
            let idx = c.vet(i).unwrap();
            match r.split_at(idx) {
                Some((a, b)) => {
                    assert!((2..=6).contains(&i));
                    assert_eq!(a.join(b).unwrap(), r);
                }
                None => assert!(i < 2 || i > 6),
            }
        }
    });
}

#[test]
fn container_splits() {
    let data = [1, 2, 3, 4, 5];
    scope(&data[..], |c| {
        let i2 = c.vet_nonempty(2).unwrap();
        let (a, b) = c.split_at(i2);
        assert_eq!((a.untrusted(), b.untrusted()), (0..2, 2..5));
        b.observe_proof();
        let (a, b) = c.split_after(i2);
        assert_eq!((a.untrusted(), b.untrusted()), (0..3, 3..5));
        a.observe_proof();
        let (a, b) = c.split_at(c.end());
        assert_eq!((a.untrusted(), b.untrusted()), (0..5, 5..5));
        assert_eq!(c.slice(a), &data[..]);
        assert_eq!(c.slice(c.vet_range(1, 3).unwrap()), &[2, 3][..]);
    });
}

#[test]
fn index_range_helpers() {
    let data = [1, 2, 3, 4, 5];
    scope(&data[..], |c| {
        let i1 = c.vet(1).unwrap();
        let i3 = c.vet(3).unwrap();
        assert_eq!(Range::from(i3, i1).untrusted(), 1..3);
        assert_eq!(Range::from(i1, i3).untrusted(), 1..3);
        assert_eq!(Range::singleton(i3).untrusted(), 3..3);
        let r = c.vet_range(1, 4).unwrap();
        assert!(r.contains(i3));
        assert!(!r.contains(c.vet(4).unwrap()));
        assert_eq!(i3.in_range(r).unwrap().untrusted(), 3);
        assert!(c.vet(4).unwrap().in_range(r).is_none());
        assert_eq!(r.extend_end(c.end()).untrusted(), 1..5);
        assert_eq!(r.extend_end(i3).untrusted(), 1..4);
        assert_eq!(r.vet(2).unwrap().untrusted(), 2);
        assert!(r.vet(4).is_none());
        let (f, b) = r.frontiers();
        assert_eq!((f.untrusted(), b.untrusted()), (1..1, 4..4));
        assert_eq!(i3.nonempty_in(&c).unwrap().untrusted(), 3);
        assert!(c.end().nonempty_in(&c).is_none());
        assert_eq!(i3.simple().untrusted(), 3);
        assert_eq!(r.simple().untrusted(), 1..4);
        assert_eq!(r.erased(), r);
    });
}

#[test]
fn simple_particles() {
    let data = [10, 20, 30, 40, 50];
    scope(&data[..], |c| {
        let r = c.as_range().simple();
        assert_eq!(r.len(), 5);
        assert_eq!(r.middle_raw().untrusted(), 2);
        let (a, b) = r.split_in_half_raw();
        assert_eq!((a.untrusted(), b.untrusted()), (0..2, 2..5));
        let i = r.vet(3).unwrap();
        assert_eq!(*c.get_unit(i), 40);
        assert_eq!(i.after().untrusted(), 4);
        assert!(r.vet(5).is_none());
        assert_eq!(r.vet_or_end(5).unwrap().untrusted(), 5);
        assert!(r.vet_or_end(6).is_none());
        let inner = r.split_at_raw(1).unwrap().1.split_at_raw(4).unwrap().0;
        assert_eq!(inner.untrusted(), 1..4);
        assert_eq!(c.slice_units(inner), &[20, 30, 40][..]);
        assert!(inner.contains(i));
        assert_eq!(inner.extend_start(r.start()).untrusted(), 0..4);
        assert_eq!(inner.extend_end(r.end()).untrusted(), 1..5);
        assert!(r.split_at_raw(6).is_none());
        let n = inner.nonempty().unwrap();
        assert_eq!(n.join(r.split_at_raw(4).unwrap().1).unwrap().untrusted(), 1..5);
        assert_eq!(n.join_cover(a).untrusted(), 0..4);
        let (f, b) = n.frontiers();
        assert_eq!((f.untrusted(), b.untrusted()), (1..1, 4..4));
        assert_eq!(n.split_at(i).unwrap().1.untrusted(), 3..4);
        assert_eq!(n.start().erased().untrusted(), 1);
        assert_eq!(n.erased().untrusted(), 1..4);
        assert!(!n.is_empty());
    });
}

#[test]
fn owned_vector_is_updated_in_place() {
    let v = vec![1, 2, 3];
    let out = scope_val(v, |c| {
        let i = c.vet_nonempty(1).unwrap();
        let c = c.set(i, 9);
        assert_eq!(*c.get(i), 9);
        c.into_untrusted()
    });
    assert_eq!(out, vec![1, 9, 3]);
}

#[test]
fn mutably_borrowed_vector_is_updated() {
    let mut v = vec![5, 6, 7, 8];
    scope_mut(&mut v, |c| {
        let last = c.retreat(c.end()).unwrap();
        let c = c.set(last, 0);
        assert_eq!(c.untrusted().len(), 4);
    });
    assert_eq!(v, vec![5, 6, 7, 0]);
}

#[test]
fn two_scopes_over_equal_arrays() {
    let a = [1, 2, 3];
    let b = [1, 2, 3];
    let x = scope(&a[..], |c| c.vet(2).unwrap().untrusted());
    let y = scope(&b[..], |c| c.vet(2).unwrap().untrusted());
    assert_eq!(x, y);
}

#[test]
fn simple_subranges_are_vetted() {
    let data = [1, 2, 3, 4, 5, 6];
    scope(&data[..], |c| {
        let outer = c.vet_range(1, 5).unwrap().simple();
        let inner = c.vet_range(2, 4).unwrap().simple();
        assert_eq!(outer.vet_subrange(inner), Some(inner));
        assert_eq!(outer.vet_subrange(outer), Some(outer));
        assert!(outer.vet_subrange(c.vet_range(0, 3).unwrap().simple()).is_none());
        assert!(outer.vet_subrange(c.vet_range(3, 6).unwrap().simple()).is_none());
        assert!(outer.vet_subrange(c.vet_range(5, 5).unwrap().simple()).is_none());
        assert!(inner.vet_subrange(outer).is_none());
    });
}

#[test]
fn mutable_scope_returns_the_closure_result() {
    let mut v = vec![1, 2, 3];
    let n = scope_mut(&mut v, |c| c.len() + c.vet(3).unwrap().untrusted());
    assert_eq!(n, 6);
}
