//! The fixed-capacity buffers of the calculator: the display, a
//! `heapless::String<32>`; the number being read while an expression is
//! split, a `heapless::String<16>`; and the operators found, a
//! `heapless::Vec<char, 16>`; and where the numbers lie, a
//! `heapless::Vec<(usize, usize), 16>`. Their contents are named by
//! [`text32`], [`text16`], [`chars16`] and [`spans16`]; each trusted function
//! below states what the heapless source does to them. A name for contents
//! cannot be generic, so each instance the calculator uses has its own name
//! and its own wrappers.
use vstd::prelude::*;
use vstd::utf8::is_ascii_chars;

verus! {

/// Capacity in bytes of the display buffer.
pub const TEXT_CAPACITY: usize = 32;

#[verifier::external_type_specification]
#[verifier::external_body]
pub struct ExHeaplessString<const N: usize>(heapless::String<N>);

/// The characters held by a 32-byte heapless string.
pub uninterp spec fn text32(s: heapless::String<32>) -> Seq<char>;

/// `heapless::String::new`: the new string holds no characters.
#[verifier::external_body]
pub(crate) fn text_new() -> (r: heapless::String<32>)
    ensures
        text32(r) == Seq::<char>::empty(),
{
    heapless::String::new()
}

/// `heapless::String::as_str`: the slice shows exactly the held characters.
#[verifier::external_body]
pub(crate) fn text_as_str(s: &heapless::String<32>) -> (r: &str)
    ensures
        r@ == text32(*s),
{
    s.as_str()
}

/// `heapless::String::clear`: afterwards the string is empty.
#[verifier::external_body]
pub(crate) fn text_clear(s: &mut heapless::String<32>)
    ensures
        text32(*final(s)) == Seq::<char>::empty(),
{
    s.clear()
}

/// `heapless::String::push_str`: for ASCII text (one byte per character)
/// the string is appended when the bytes fit the capacity; otherwise the
/// call fails and leaves the string as it was.
#[verifier::external_body]
pub(crate) fn text_push_str(s: &mut heapless::String<32>, t: &str) -> (r: Result<(), ()>)
    requires
        is_ascii_chars(text32(*old(s))),
        is_ascii_chars(t@),
    ensures
        r is Ok <==> text32(*old(s)).len() + t@.len() <= TEXT_CAPACITY,
        r is Ok ==> text32(*final(s)) == text32(*old(s)) + t@,
        r is Err ==> text32(*final(s)) == text32(*old(s)),
{
    s.push_str(t)
}

/// `heapless::String::push`: an ASCII character is appended when one more
/// byte fits; otherwise the call fails and leaves the string as it was.
#[verifier::external_body]
pub(crate) fn text_push(s: &mut heapless::String<32>, c: char) -> (r: Result<(), ()>)
    requires
        is_ascii_chars(text32(*old(s))),
        '\0' <= c <= '\u{7f}',
    ensures
        r is Ok <==> text32(*old(s)).len() + 1 <= TEXT_CAPACITY,
        r is Ok ==> text32(*final(s)) == text32(*old(s)).push(c),
        r is Err ==> text32(*final(s)) == text32(*old(s)),
{
    s.push(c)
}

/// `heapless::String::pop`: removes and returns the last character, or
/// returns `None` on an empty string.
#[verifier::external_body]
pub(crate) fn text_pop(s: &mut heapless::String<32>) -> (r: Option<char>)
    ensures
        text32(*old(s)).len() == 0 ==> r is None && text32(*final(s)) == text32(*old(s)),
        text32(*old(s)).len() > 0 ==> r == Some(text32(*old(s)).last()) && text32(*final(s))
            == text32(*old(s)).drop_last(),
{
    s.pop()
}

#[verifier::external_type_specification]
#[verifier::external_body]
#[verifier::reject_recursive_types(T)]
pub struct ExHeaplessVec<T, const N: usize>(heapless::Vec<T, N>);

/// The characters held by a 16-byte heapless string.
pub uninterp spec fn text16(s: heapless::String<16>) -> Seq<char>;

/// The characters held by a heapless vector of 16 characters.
pub uninterp spec fn chars16(v: heapless::Vec<char, 16>) -> Seq<char>;

/// `heapless::String::new` at capacity 16: the new string holds nothing.
#[verifier::external_body]
pub(crate) fn number_new() -> (r: heapless::String<16>)
    ensures
        text16(r) == Seq::<char>::empty(),
{
    heapless::String::new()
}

/// `heapless::String::push` at capacity 16: an ASCII character is appended
/// when one more byte fits; otherwise the call fails and leaves the string
/// as it was.
#[verifier::external_body]
pub(crate) fn number_push(s: &mut heapless::String<16>, c: char) -> (r: Result<(), ()>)
    requires
        is_ascii_chars(text16(*old(s))),
        '\0' <= c <= '\u{7f}',
    ensures
        r is Ok <==> text16(*old(s)).len() + 1 <= 16,
        r is Ok ==> text16(*final(s)) == text16(*old(s)).push(c),
        r is Err ==> text16(*final(s)) == text16(*old(s)),
{
    s.push(c)
}

/// `heapless::String::clear` at capacity 16: afterwards the string is empty.
#[verifier::external_body]
pub(crate) fn number_clear(s: &mut heapless::String<16>)
    ensures
        text16(*final(s)) == Seq::<char>::empty(),
{
    s.clear()
}

/// `heapless::Vec::new` for 16 characters: the new vector is empty.
#[verifier::external_body]
pub(crate) fn chars_new() -> (r: heapless::Vec<char, 16>)
    ensures
        chars16(r) == Seq::<char>::empty(),
{
    heapless::Vec::new()
}

/// `heapless::Vec::push` for 16 characters: the character is appended while
/// fewer than 16 are held; otherwise it is handed back and the vector is
/// left as it was.
#[verifier::external_body]
pub(crate) fn chars_push(v: &mut heapless::Vec<char, 16>, c: char) -> (r: Result<(), char>)
    ensures
        r is Ok <==> chars16(*old(v)).len() < 16,
        r is Ok ==> chars16(*final(v)) == chars16(*old(v)).push(c),
        r is Err ==> chars16(*final(v)) == chars16(*old(v)),
        r matches Err(x) ==> x == c,
{
    v.push(c)
}

/// `heapless::Vec::as_slice` for 16 characters: the slice shows exactly the
/// held characters.
#[verifier::external_body]
pub(crate) fn chars_as_slice(v: &heapless::Vec<char, 16>) -> (r: &[char])
    ensures
        r@ == chars16(*v),
{
    v.as_slice()
}

/// The index ranges held by a heapless vector of 16 pairs.
pub uninterp spec fn spans16(v: heapless::Vec<(usize, usize), 16>) -> Seq<(usize, usize)>;

/// `heapless::Vec::new` for 16 index ranges: the new vector is empty.
#[verifier::external_body]
pub(crate) fn spans_new() -> (r: heapless::Vec<(usize, usize), 16>)
    ensures
        spans16(r) == Seq::<(usize, usize)>::empty(),
{
    heapless::Vec::new()
}

/// `heapless::Vec::push` for 16 index ranges: the range is appended while
/// fewer than 16 are held; otherwise it is handed back and the vector is
/// left as it was.
#[verifier::external_body]
pub(crate) fn spans_push(v: &mut heapless::Vec<(usize, usize), 16>, x: (usize, usize)) -> (r:
    Result<(), (usize, usize)>)
    ensures
        r is Ok <==> spans16(*old(v)).len() < 16,
        r is Ok ==> spans16(*final(v)) == spans16(*old(v)).push(x),
        r is Err ==> spans16(*final(v)) == spans16(*old(v)),
        r matches Err(y) ==> y == x,
{
    v.push(x)
}

/// `heapless::Vec::as_slice` for 16 index ranges: the slice shows exactly
/// the held ranges.
#[verifier::external_body]
pub(crate) fn spans_as_slice(v: &heapless::Vec<(usize, usize), 16>) -> (r: &[(usize, usize)])
    ensures
        r@ == spans16(*v),
{
    v.as_slice()
}

} // verus!
