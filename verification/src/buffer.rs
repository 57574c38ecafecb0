//! Byte buffers and text primitives that the decoder reads from.
//!
//! The buffer is `bytes::Bytes`, read through its `Buf` methods. Verus sees
//! nothing inside such a value, so what a buffer still holds is given the name
//! [`buf_content`], and each method that the decoder calls stands behind a small
//! function whose contract is believed, not proved.

use bytes::Buf;
use bytes::Bytes;
use vstd::prelude::*;
use vstd::std_specs::iter::IteratorSpec;

verus! {

/// `bytes::Bytes`, declared so that it can stand in signatures. Verus sees
/// nothing inside a value of it.
#[verifier::external_type_specification]
#[verifier::external_body]
pub struct ExBytes(Bytes);

/// The bytes that a buffer has not handed out yet, first unread byte first.
pub uninterp spec fn buf_content(b: Bytes) -> Seq<u8>;

/// The big-endian value of the first two bytes of `s`.
pub open spec fn be16(s: Seq<u8>) -> int
    recommends
        s.len() >= 2,
{
    s[0] as int * 0x100 + s[1] as int
}

/// The big-endian value of the first four bytes of `s`.
pub open spec fn be32(s: Seq<u8>) -> int
    recommends
        s.len() >= 4,
{
    s[0] as int * 0x100_0000 + s[1] as int * 0x1_0000 + s[2] as int * 0x100 + s[3] as int
}

/// `Buf::remaining` of `Bytes`: the number of bytes left to read, which is the
/// length of the buffer.
#[verifier::external_body]
pub(crate) fn buf_remaining(b: &Bytes) -> (r: usize)
    ensures
        r == buf_content(*b).len(),
{
    b.remaining()
}

/// `Buf::get_u8`: hands out the first unread byte and moves past it. The
/// outside function panics on an empty buffer, which `requires` leaves out.
#[verifier::external_body]
pub(crate) fn buf_get_u8(b: &mut Bytes) -> (r: u8)
    requires
        buf_content(*old(b)).len() >= 1,
    ensures
        r == buf_content(*old(b))[0],
        buf_content(*final(b)) == buf_content(*old(b)).skip(1),
{
    b.get_u8()
}

/// `Buf::get_u16`: reads two bytes as a big-endian integer and moves past
/// them. The outside function panics when fewer than two bytes are left.
#[verifier::external_body]
pub(crate) fn buf_get_u16(b: &mut Bytes) -> (r: u16)
    requires
        buf_content(*old(b)).len() >= 2,
    ensures
        r == be16(buf_content(*old(b))),
        buf_content(*final(b)) == buf_content(*old(b)).skip(2),
{
    b.get_u16()
}

/// `Buf::get_u32`: reads four bytes as a big-endian integer and moves past
/// them. The outside function panics when fewer than four bytes are left.
#[verifier::external_body]
pub(crate) fn buf_get_u32(b: &mut Bytes) -> (r: u32)
    requires
        buf_content(*old(b)).len() >= 4,
    ensures
        r == be32(buf_content(*old(b))),
        buf_content(*final(b)) == buf_content(*old(b)).skip(4),
{
    b.get_u32()
}

/// `Buf::copy_to_bytes` of `Bytes`, which is `Bytes::split_to`: the result
/// holds the first `len` unread bytes and the buffer keeps the rest. The outside
/// function panics when `len` exceeds what is left.
#[verifier::external_body]
pub(crate) fn buf_copy_to_bytes(b: &mut Bytes, len: usize) -> (r: Bytes)
    requires
        len <= buf_content(*old(b)).len(),
    ensures
        buf_content(r) == buf_content(*old(b)).take(len as int),
        buf_content(*final(b)) == buf_content(*old(b)).skip(len as int),
{
    b.copy_to_bytes(len)
}

/// `From<Bytes> for Vec<u8>`: the unread bytes of the buffer as a vector.
#[verifier::external_body]
pub(crate) fn buf_into_vec(b: Bytes) -> (r: Vec<u8>)
    ensures
        r@ == buf_content(b),
{
    Vec::from(b)
}

/// `From<Vec<u8>> for Bytes`: a buffer whose unread bytes are those of the
/// vector.
#[verifier::external_body]
pub(crate) fn buf_from_vec(v: Vec<u8>) -> (r: Bytes)
    ensures
        buf_content(r) == v@,
{
    Bytes::from(v)
}

/// `<str as PartialEq>::eq` compares two texts character by character.
pub assume_specification[ <str as PartialEq>::eq ](a: &str, b: &str) -> (r: bool)
    ensures
        r == (a@ == b@),
;

/// Whether two texts are the same.
pub fn text_is(a: &str, b: &str) -> (r: bool)
    ensures
        r == (a@ == b@),
{
    *a == *b
}

/// `String::push` appends one character.
pub assume_specification[ std::string::String::push ](s: &mut std::string::String, c: char)
    ensures
        final(s)@ == old(s)@.push(c),
;

/// Whether `i` is a Unicode scalar value: a code point that is no surrogate.
pub open spec fn is_scalar_value(i: int) -> bool {
    0 <= i <= 0xD7FF || 0xE000 <= i <= 0x10FFFF
}

/// `char::from_u32` gives the character with the code `i` where `i` is a
/// Unicode scalar value, and `None` elsewhere.
pub assume_specification[ char::from_u32 ](i: u32) -> (r: Option<char>)
    ensures
        r == (if is_scalar_value(i as int) {
            Some(i as char)
        } else {
            None::<char>
        }),
;

/// The characters of `s`, in order.
pub fn chars_of(s: &str) -> (v: Vec<char>)
    ensures
        v@ == s@,
{
    let mut rest = s.chars();
    let mut v: Vec<char> = Vec::new();
    loop
        invariant
            v@ + rest.remaining() == s@,
            rest.decrease() is Some,
        ensures
            rest.remaining().len() == 0,
        decreases rest.decrease()->0,
    {
        let ghost before = rest.remaining();
        match rest.next() {
            Some(c) => {
                v.push(c);
                assert(before == seq![c] + before.drop_first());
            },
            None => {
                break;
            },
        }
    }
    assert(v@ + rest.remaining() == v@);
    v
}

/// The string made of the characters `v`, in order.
pub fn string_of(v: &Vec<char>) -> (s: String)
    ensures
        s@ == v@,
{
    let mut s = String::new();
    let mut i: usize = 0;
    while i < v.len()
        invariant
            i <= v.len(),
            s@ == v@.subrange(0, i as int),
        decreases v.len() - i,
    {
        s.push(v[i]);
        i += 1;
    }
    assert(v@.subrange(0, v@.len() as int) == v@);
    s
}

} // verus!
