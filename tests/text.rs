use windex::utf8::is_leading_byte;
use windex::{scope, scope_val, IndexError, Range};

const TEXT: &str = "a\u{2192}\u{4e2d}\u{1f600}";

#[test]
fn text_has_eleven_bytes() {
    assert_eq!(TEXT.len(), 11);
    assert_eq!(TEXT.chars().count(), 4);
}

#[test]
fn text_vet_boundaries() {
    scope(TEXT, |c| {
        assert_eq!(c.len(), 11);
        for r in 0..=12u32 {
            let vetted = c.vet(r);
            if [0u32, 1, 4, 7, 11].contains(&r) {
                assert_eq!(vetted.unwrap().untrusted(), r);
            } else if r < 11 {
                assert_eq!(vetted, Err(IndexError::Invalid));
            } else {
                assert_eq!(vetted, Err(IndexError::OutOfBounds));
            }
        }
        assert_eq!(c.vet(11).unwrap(), c.end());
    });
}

#[test]
fn text_vet_or_end_agrees_with_vet() {
    scope(TEXT, |c| {
        for r in 0..=13u32 {
            assert_eq!(c.vet_or_end(r), c.vet(r));
        }
    });
}

#[test]
fn text_vet_nonempty() {
    scope(TEXT, |c| {
        assert_eq!(c.vet_nonempty(4).unwrap().untrusted(), 4);
        assert_eq!(c.vet_nonempty(5), Err(IndexError::Invalid));
        assert_eq!(c.vet_nonempty(11), Err(IndexError::OutOfBounds));
    });
}

#[test]
fn text_align() {
    scope(TEXT, |c| {
        assert_eq!(c.align(5).unwrap().untrusted(), 4);
        assert_eq!(c.align(6).unwrap().untrusted(), 4);
        assert_eq!(c.align(4).unwrap().untrusted(), 4);
        assert_eq!(c.align(10).unwrap().untrusted(), 7);
        assert_eq!(c.align(2).unwrap().untrusted(), 1);
        assert_eq!(c.align(0).unwrap().untrusted(), 0);
        assert_eq!(c.align(11).unwrap().untrusted(), 11);
        assert_eq!(c.align(12), Err(IndexError::OutOfBounds));
    });
}

#[test]
fn text_after_item() {
    scope(TEXT, |c| {
        let i4 = c.vet_nonempty(4).unwrap();
        assert_eq!(c.after_item(i4).untrusted(), 7);
        let i0 = c.vet_nonempty(0).unwrap();
        assert_eq!(c.after_item(i0).untrusted(), 1);
        let i1 = c.vet_nonempty(1).unwrap();
        assert_eq!(c.after_item(i1).untrusted(), 4);
        let i7 = c.vet_nonempty(7).unwrap();
        assert_eq!(c.after_item(i7).untrusted(), 11);
    });
}

#[test]
fn text_advance_is_after_unless_at_end() {
    scope(TEXT, |c| {
        for r in [0u32, 1, 4, 7] {
            let i = c.vet_nonempty(r).unwrap();
            let next = c.after_item(i);
            match c.advance(i) {
                None => assert_eq!(next, c.end()),
                Some(n) => {
                    assert_ne!(next, c.end());
                    assert_eq!(n.untrusted(), next.untrusted());
                }
            }
        }
        assert!(c.advance(c.vet_nonempty(7).unwrap()).is_none());
        assert_eq!(c.advance(c.vet_nonempty(1).unwrap()).unwrap().untrusted(), 4);
    });
}

#[test]
fn text_retreat() {
    scope(TEXT, |c| {
        assert_eq!(c.retreat(c.end()).unwrap().untrusted(), 7);
        assert_eq!(c.retreat(c.vet(7).unwrap()).unwrap().untrusted(), 4);
        assert_eq!(c.retreat(c.vet(4).unwrap()).unwrap().untrusted(), 1);
        assert_eq!(c.retreat(c.vet(1).unwrap()).unwrap().untrusted(), 0);
        assert!(c.retreat(c.start()).is_none());
    });
}

#[test]
fn text_characters() {
    scope(TEXT, |c| {
        let i4 = c.vet_nonempty(4).unwrap();
        assert_eq!(c.character(i4).as_char(), '\u{4e2d}');
        assert_eq!(c.character(i4).as_str(), "\u{4e2d}");
        assert_eq!(c.get(i4), "\u{4e2d}");
        let i7 = c.vet_nonempty(7).unwrap();
        assert_eq!(c.character(i7).as_char(), '\u{1f600}');
        let i0 = c.vet_nonempty(0).unwrap();
        assert_eq!(c.character(i0).as_char(), 'a');
    });
}

#[test]
fn text_slices() {
    scope(TEXT, |c| {
        let r = c.vet_range(1, 7).unwrap();
        assert_eq!(c.slice(r), "\u{2192}\u{4e2d}");
        let i4 = c.vet(4).unwrap();
        assert_eq!(c.slice_to(i4), "a\u{2192}");
        assert_eq!(c.slice_from(i4), "\u{4e2d}\u{1f600}");
        assert_eq!(c.slice_all(), TEXT);
    });
}

#[test]
fn text_vet_range_errors() {
    scope(TEXT, |c| {
        assert_eq!(c.vet_range(2, 4), Err(IndexError::Invalid));
        assert_eq!(c.vet_range(1, 5), Err(IndexError::Invalid));
        assert_eq!(c.vet_range(12, 4), Err(IndexError::OutOfBounds));
        assert_eq!(c.vet_range(1, 12), Err(IndexError::OutOfBounds));
        assert_eq!(c.vet_range(7, 4), Err(IndexError::Invalid));
        assert_eq!(c.vet_range(4, 4).unwrap().len(), 0);
    });
}

#[test]
fn text_splits() {
    scope(TEXT, |c| {
        let i1 = c.vet_nonempty(1).unwrap();
        let (a, b) = c.split_after(i1);
        assert_eq!(a.untrusted(), 0..4);
        assert_eq!(b.untrusted(), 4..11);
        let (a, b) = c.split_at(i1);
        assert_eq!(a.untrusted(), 0..1);
        assert_eq!(b.untrusted(), 1..11);
        let (a, b) = c.split_around(c.vet_range(1, 4).unwrap());
        assert_eq!(a.untrusted(), 0..1);
        assert_eq!(b.untrusted(), 4..11);
        let i4 = c.vet_nonempty(4).unwrap();
        assert_eq!(c.before(i4).untrusted(), 0..4);
        assert_eq!(c.after(i4).untrusted(), 7..11);
    });
}

#[test]
fn text_steps_by_units() {
    scope(TEXT, |c| {
        let i1 = c.vet(1).unwrap();
        assert_eq!(c.advance_by(i1, 3).unwrap().untrusted(), 4);
        assert_eq!(c.advance_by(i1, 2), Err(IndexError::Invalid));
        assert_eq!(c.advance_by(i1, 10).unwrap(), c.end());
        assert_eq!(c.advance_by(i1, 11), Err(IndexError::OutOfBounds));
        assert_eq!(c.advance_by(i1, u32::MAX), Err(IndexError::OutOfBounds));
        let i7 = c.vet(7).unwrap();
        assert_eq!(c.decrease_by(i7, 3).unwrap().untrusted(), 4);
        assert_eq!(c.decrease_by(i7, 1), Err(IndexError::Invalid));
        assert_eq!(c.decrease_by(i7, 7).unwrap(), c.start());
        assert_eq!(c.decrease_by(i7, 8), Err(IndexError::OutOfBounds));
    });
}

#[test]
fn text_ranges_consult_the_container() {
    scope(TEXT, |c| {
        let r = c.as_range();
        assert_eq!(r.contains_in(4, &c).unwrap().untrusted(), 4);
        assert!(r.contains_in(5, &c).is_none());
        assert!(r.contains_in(11, &c).is_none());
        assert_eq!(r.near_in(5, &c).unwrap().untrusted(), 4);
        assert_eq!(r.near_in(10, &c).unwrap().untrusted(), 7);
        assert!(r.near_in(11, &c).is_none());
        assert_eq!(r.middle_in(&c).untrusted(), 4);
        let (a, b) = r.split_near_in(5, &c).unwrap();
        assert_eq!((a.untrusted(), b.untrusted()), (0..4, 4..11));
        let (a, b) = r.split_near_in(11, &c).unwrap();
        assert_eq!((a.untrusted(), b.untrusted()), (0..11, 11..11));
        assert!(r.split_near_in(12, &c).is_none());
        let (a, b) = r.split_near_half_in(&c);
        assert_eq!((a.untrusted(), b.untrusted()), (0..4, 4..11));
        let inner = c.vet_range(4, 7).unwrap();
        assert!(inner.near_in(2, &c).is_none());
        assert_eq!(inner.middle_in(&c).untrusted(), 4);
    });
}

#[test]
fn text_advance_in_walks_characters() {
    scope(TEXT, |c| {
        let mut r = c.as_range().nonempty().unwrap();
        let mut starts = vec![r.start().untrusted()];
        while r.advance_in(&c) {
            starts.push(r.start().untrusted());
        }
        assert_eq!(starts, vec![0, 1, 4, 7]);
        assert_eq!(r.untrusted(), 7..11);
    });
}

#[test]
fn owned_string_container() {
    let s = String::from("h\u{e9}llo");
    let got = scope_val(s, |c| {
        assert_eq!(c.vet(2), Err(IndexError::Invalid));
        let i = c.vet_nonempty(1).unwrap();
        let ch = c.character(i).as_char();
        let next = c.advance(i).unwrap().untrusted();
        (ch, next, c.into_untrusted())
    });
    assert_eq!(got, ('\u{e9}', 3, String::from("h\u{e9}llo")));
}

#[test]
fn borrowed_string_container() {
    let s = String::from("x\u{1f600}y");
    scope(&s, |c| {
        assert_eq!(c.len(), 6);
        let r: Range<'_> = c.vet_range(1, 5).unwrap();
        assert_eq!(c.slice(r), "\u{1f600}");
        assert_eq!(c.vet(3), Err(IndexError::Invalid));
    });
}

#[test]
fn leading_bytes() {
    assert!(is_leading_byte(0x00));
    assert!(is_leading_byte(0x41));
    assert!(is_leading_byte(0x7f));
    assert!(!is_leading_byte(0x80));
    assert!(!is_leading_byte(0xbf));
    assert!(is_leading_byte(0xc0));
    assert!(is_leading_byte(0xe2));
    assert!(is_leading_byte(0xf0));
    assert!(is_leading_byte(0xff));
}

#[test]
fn text_simple_particles_are_upgraded() {
    scope(TEXT, |c| {
        let whole = c.as_range().simple();
        let mid = whole.vet(5).unwrap();
        assert_eq!(c.vet_simple(mid), Err(IndexError::Invalid));
        assert_eq!(c.align_simple(mid).untrusted(), 4);
        let four = whole.vet(4).unwrap();
        assert_eq!(c.vet_simple(four).unwrap().untrusted(), 4);
        assert_eq!(c.align_simple(whole.end()).untrusted(), 11);
        let (front, back) = whole.split_in_half_raw();
        assert_eq!(front.untrusted(), 0..5);
        assert_eq!(c.vet_simple_range(back), Err(IndexError::Invalid));
        assert_eq!(c.vet_simple_range(front), Err(IndexError::Invalid));
        let (front, back) = whole.split_at_raw(7).unwrap();
        assert_eq!(c.slice(c.vet_simple_range(front).unwrap()), "a\u{2192}\u{4e2d}");
        assert_eq!(c.slice(c.vet_simple_range(back).unwrap()), "\u{1f600}");
    });
}
