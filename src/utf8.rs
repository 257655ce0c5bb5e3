//! The item model for UTF-8 text: units are bytes, items are characters.
use crate::container::Container;
use crate::emptiness::NonEmpty;
use crate::particle::perfect;
use crate::traits::{TrustedContainer, TrustedItem};
use vstd::prelude::*;
use vstd::string::StringSliceAdditionalSpecFns;
use vstd::utf8::{
    decode_utf8, encode_utf8, encode_utf8_decode_utf8, encode_utf8_valid_utf8, is_char_boundary,
    is_char_boundary_iff_not_is_continuation_byte, is_char_boundary_start_end_of_seq,
    is_continuation_byte, length_of_first_scalar, pop_first_scalar, valid_utf8, valid_utf8_split,
};

verus! {

/// `byte` begins the encoding of a character: it is no continuation byte
/// (`0b10xx_xxxx`).
pub fn is_leading_byte(byte: u8) -> (r: bool)
    ensures
        r == !is_continuation_byte(byte),
{
    // Bit magic equivalent to: (byte as i8) >= -0x40
    byte < 0x80 || byte >= 0xc0
}

/// The bytes of text are valid UTF-8.
proof fn lemma_valid(s: &str)
    ensures
        valid_utf8(s.spec_bytes()),
        is_char_boundary(s.spec_bytes(), 0),
        is_char_boundary(s.spec_bytes(), s.spec_bytes().len() as int),
{
    encode_utf8_valid_utf8(s@);
    is_char_boundary_start_end_of_seq(s.spec_bytes());
}

/// Within text, a byte starts a character exactly when it is no
/// continuation byte.
proof fn lemma_boundary_byte(s: &str, i: int)
    requires
        0 <= i < s.spec_bytes().len(),
    ensures
        is_char_boundary(s.spec_bytes(), i) == !is_continuation_byte(s.spec_bytes()[i]),
{
    lemma_valid(s);
    is_char_boundary_iff_not_is_continuation_byte(s.spec_bytes(), i);
}

/// Cutting text at a character boundary keeps the boundaries after the cut.
proof fn lemma_suffix_boundary(b: Seq<u8>, i: int, k: int)
    requires
        valid_utf8(b),
        0 <= i <= b.len(),
        is_char_boundary(b, i),
        0 <= k <= b.len() - i,
    ensures
        valid_utf8(b.subrange(i, b.len() as int)),
        is_char_boundary(b.subrange(i, b.len() as int), k) == is_char_boundary(b, i + k),
{
    let t = b.subrange(i, b.len() as int);
    valid_utf8_split(b, i);
    is_char_boundary_start_end_of_seq(t);
    is_char_boundary_start_end_of_seq(b);
    if k < t.len() {
        is_char_boundary_iff_not_is_continuation_byte(t, k);
        is_char_boundary_iff_not_is_continuation_byte(b, i + k);
    }
}

/// `r` is the byte right after the character that starts at byte `i`: the
/// next character boundary.
pub open spec fn is_char_end(b: Seq<u8>, i: int, r: int) -> bool {
    &&& i < r <= b.len()
    &&& is_char_boundary(b, r)
    &&& forall|j: int| i < j < r ==> !#[trigger] is_char_boundary(b, j)
}

/// `r` is the first byte of the character that covers byte `i`.
pub open spec fn is_char_start(b: Seq<u8>, i: int, r: int) -> bool {
    &&& 0 <= r <= i
    &&& is_char_boundary(b, r)
    &&& forall|j: int| r < j <= i ==> !#[trigger] is_char_boundary(b, j)
}

/// The byte right after the character that starts at byte `i`.
pub open spec fn char_end_of(b: Seq<u8>, i: int) -> int {
    choose|r: int| is_char_end(b, i, r)
}

proof fn lemma_char_end_unique(b: Seq<u8>, i: int, r: int)
    requires
        is_char_end(b, i, r),
    ensures
        char_end_of(b, i) == r,
{
    let s = char_end_of(b, i);
    assert(is_char_end(b, i, s));
    if s < r {
        assert(!is_char_boundary(b, s));
    } else if r < s {
        assert(!is_char_boundary(b, r));
    }
}

/// The end of the character that starts at byte `i`.
fn char_end(s: &str, i: u32) -> (r: u32)
    requires
        i < s.spec_bytes().len(),
        s.spec_bytes().len() <= u32::MAX,
        is_char_boundary(s.spec_bytes(), i as int),
    ensures
        is_char_end(s.spec_bytes(), i as int, r as int),
{
    let bytes = s.as_bytes();
    let len = bytes.len();
    let mut j: usize = i as usize + 1;
    while j < len && !is_leading_byte(bytes[j])
        invariant
            i < j <= len,
            len == bytes@.len(),
            bytes@ == s.spec_bytes(),
            len <= u32::MAX,
            forall|k: int| i < k < j ==> !#[trigger] is_char_boundary(s.spec_bytes(), k),
        decreases len - j,
    {
        proof {
            lemma_boundary_byte(s, j as int);
        }
        j += 1;
    }
    proof {
        lemma_valid(s);
        if j < len {
            lemma_boundary_byte(s, j as int);
        }
    }
    j as u32
}

/// The start of the character that covers byte `i`.
fn char_start(s: &str, i: u32) -> (r: u32)
    requires
        i < s.spec_bytes().len(),
    ensures
        is_char_start(s.spec_bytes(), i as int, r as int),
{
    let bytes = s.as_bytes();
    let mut j: usize = i as usize;
    proof {
        lemma_valid(s);
        lemma_boundary_byte(s, 0);
    }
    while !is_leading_byte(bytes[j])
        invariant
            0 <= j <= i,
            i < bytes@.len(),
            bytes@ == s.spec_bytes(),
            !is_continuation_byte(bytes@[0]),
            forall|k: int| j < k <= i ==> !#[trigger] is_char_boundary(s.spec_bytes(), k),
        decreases j,
    {
        proof {
            lemma_boundary_byte(s, j as int);
        }
        j -= 1;
    }
    proof {
        lemma_boundary_byte(s, j as int);
    }
    j as u32
}

/// The bytes `start..end` of text, both of them character boundaries.
fn text_slice(s: &str, start: u32, end: u32) -> (r: &str)
    requires
        start <= end <= s.unit_count(),
        is_char_boundary(s.spec_bytes(), start as int),
        is_char_boundary(s.spec_bytes(), end as int),
    ensures
        r.spec_bytes() == s.spec_bytes().subrange(start as int, end as int),
{
    proof {
        lemma_valid(s);
        lemma_suffix_boundary(s.spec_bytes(), start as int, (end - start) as int);
    }
    let (_, tail) = s.split_at(start as usize);
    let (r, _) = tail.split_at((end - start) as usize);
    proof {
        assert(r.spec_bytes() =~= s.spec_bytes().subrange(start as int, end as int));
    }
    r
}

impl TrustedContainer for str {
    type Item = str;
    type Slice = str;

    open spec fn unit_count(&self) -> nat {
        self.spec_bytes().len()
    }

    open spec fn starts_item(&self, i: int) -> bool {
        is_char_boundary(self.spec_bytes(), i)
    }

    open spec fn is_item(&self, i: int, item: &str) -> bool {
        item.spec_bytes() == self.spec_bytes().subrange(i, char_end_of(self.spec_bytes(), i))
    }

    open spec fn is_slice(&self, start: int, end: int, slice: &str) -> bool {
        slice.spec_bytes() == self.spec_bytes().subrange(start, end)
    }

    proof fn lemma_first_unit(&self) {
        lemma_valid(self);
    }

    fn unit_len(&self) -> (r: u32) {
        self.len() as u32
    }

    fn get_unchecked(&self, i: u32) -> (r: &str) {
        let end = char_end(self, i);
        proof {
            lemma_valid(self);
            lemma_char_end_unique(self.spec_bytes(), i as int, end as int);
        }
        text_slice(self, i, end)
    }

    fn slice_unchecked(&self, start: u32, end: u32) -> (r: &str) {
        proof {
            lemma_valid(self);
        }
        text_slice(self, start, end)
    }
}

impl TrustedItem<str> for str {
    fn vet_inbounds(array: &str, i: u32) -> (r: bool) {
        proof {
            lemma_boundary_byte(array, i as int);
        }
        is_leading_byte(array.as_bytes()[i as usize])
    }

    fn after(array: &str, i: u32) -> (r: u32) {
        char_end(array, i)
    }

    fn align(array: &str, i: u32) -> (r: u32) {
        char_start(array, i)
    }
}

impl TrustedContainer for String {
    type Item = str;
    type Slice = str;

    open spec fn unit_count(&self) -> nat {
        encode_utf8(self@).len()
    }

    open spec fn starts_item(&self, i: int) -> bool {
        is_char_boundary(encode_utf8(self@), i)
    }

    open spec fn is_item(&self, i: int, item: &str) -> bool {
        item.spec_bytes() == encode_utf8(self@).subrange(i, char_end_of(encode_utf8(self@), i))
    }

    open spec fn is_slice(&self, start: int, end: int, slice: &str) -> bool {
        slice.spec_bytes() == encode_utf8(self@).subrange(start, end)
    }

    proof fn lemma_first_unit(&self) {
        encode_utf8_valid_utf8(self@);
        is_char_boundary_start_end_of_seq(encode_utf8(self@));
    }

    fn unit_len(&self) -> (r: u32) {
        self.as_str().unit_len()
    }

    fn get_unchecked(&self, i: u32) -> (r: &str) {
        <str as TrustedContainer>::get_unchecked(self.as_str(), i)
    }

    fn slice_unchecked(&self, start: u32, end: u32) -> (r: &str) {
        <str as TrustedContainer>::slice_unchecked(self.as_str(), start, end)
    }
}

impl TrustedItem<String> for str {
    fn vet_inbounds(array: &String, i: u32) -> (r: bool) {
        <str as TrustedItem<str>>::vet_inbounds(array.as_str(), i)
    }

    fn after(array: &String, i: u32) -> (r: u32) {
        char_end(array.as_str(), i)
    }

    fn align(array: &String, i: u32) -> (r: u32) {
        char_start(array.as_str(), i)
    }
}

/// There is a character boundary after each character of text.
proof fn lemma_char_end_exists(b: Seq<u8>, i: int)
    requires
        valid_utf8(b),
        0 <= i < b.len(),
    ensures
        is_char_end(b, i, char_end_of(b, i)),
{
    lemma_find_char_end(b, i, i + 1);
}

proof fn lemma_find_char_end(b: Seq<u8>, i: int, j: int)
    requires
        valid_utf8(b),
        0 <= i < j <= b.len(),
        forall|k: int| i < k < j ==> !#[trigger] is_char_boundary(b, k),
    ensures
        exists|r: int| is_char_end(b, i, r),
    decreases b.len() - j,
{
    is_char_boundary_start_end_of_seq(b);
    if is_char_boundary(b, j) {
        assert(is_char_end(b, i, j));
    } else {
        lemma_find_char_end(b, i, j + 1);
    }
}

/// The text of a character of `b` is exactly one character.
proof fn lemma_char_text(b: Seq<u8>, i: int, item: &str)
    requires
        valid_utf8(b),
        0 <= i < b.len(),
        is_char_boundary(b, i),
        item.spec_bytes() == b.subrange(i, char_end_of(b, i)),
    ensures
        item@.len() == 1,
{
    lemma_char_end_exists(b, i);
    let e = char_end_of(b, i);
    let sub = item.spec_bytes();
    encode_utf8_valid_utf8(item@);
    encode_utf8_decode_utf8(item@);
    assert(sub.len() > 0);
    let k = length_of_first_scalar(sub);
    assert(valid_utf8(pop_first_scalar(sub)));
    if k < sub.len() {
        assert(is_char_boundary(pop_first_scalar(sub), 0));
        reveal_with_fuel(is_char_boundary, 2);
        assert(is_char_boundary(sub, k));
        is_char_boundary_iff_not_is_continuation_byte(sub, k);
        assert(sub[k] == b[i + k]);
        is_char_boundary_iff_not_is_continuation_byte(b, i + k);
        assert(!is_char_boundary(b, i + k));
    }
    assert(pop_first_scalar(sub) =~= Seq::<u8>::empty());
    assert(decode_utf8(pop_first_scalar(sub)) =~= Seq::<char>::empty());
}

/// A [`TrustedContainer`] of UTF-8 text, whose items are characters.
pub trait TrustedText: TrustedContainer<Item = str> {
    /// The text of an item is exactly one character.
    proof fn lemma_item_text(&self, i: int, item: &str)
        requires
            0 <= i < self.unit_count(),
            self.starts_item(i),
            self.is_item(i, item),
        ensures
            item@.len() == 1,
    ;
}

impl TrustedText for str {
    proof fn lemma_item_text(&self, i: int, item: &str) {
        lemma_valid(self);
        lemma_char_text(self.spec_bytes(), i, item);
    }
}

impl TrustedText for String {
    proof fn lemma_item_text(&self, i: int, item: &str) {
        encode_utf8_valid_utf8(self@);
        lemma_char_text(encode_utf8(self@), i, item);
    }
}

impl<'a, A: ?Sized + TrustedText> TrustedText for &'a A {
    proof fn lemma_item_text(&self, i: int, item: &str) {
        (**self).lemma_item_text(i, item);
    }
}

impl<'a, A: ?Sized + TrustedText> TrustedText for &'a mut A {
    proof fn lemma_item_text(&self, i: int, item: &str) {
        (**self).lemma_item_text(i, item);
    }
}

/// A utf8 string slice of exactly one codepoint.
pub struct Character<'a> {
    text: &'a str,
}

impl<'a> Character<'a> {
    /// The text of the character.
    pub closed spec fn text(self) -> &'a str {
        self.text
    }

    /// The text is exactly one character.
    #[verifier::type_invariant]
    pub open spec fn wf(self) -> bool {
        self.text()@.len() == 1
    }

    /// The underlying text span.
    pub fn as_str(&self) -> (r: &'a str)
        ensures
            r == self.text(),
    {
        self.text
    }

    /// The character itself.
    pub fn as_char(&self) -> (r: char)
        ensures
            self.text()@ == seq![r],
    {
        proof {
            use_type_invariant(self);
        }
        broadcast use vstd::string::axiom_spec_iter, vstd::string::next_postcondition;

        let mut chars = self.text.chars();
        match chars.next() {
            Some(c) => c,
            None => ' ',
        }
    }
}

impl<'id, A: TrustedText> Container<'id, A> {
    /// The character that starts at an index; no check is made.
    pub fn character(&self, index: perfect::Index<'id, NonEmpty>) -> (r: Character<'_>)
        requires
            self.admits(index),
        ensures
            self.backing().is_item(index.offset(), r.text()),
    {
        let text = self.get(index);
        proof {
            self.backing().lemma_item_text(index.offset(), text);
        }
        Character { text }
    }
}

} // verus!
