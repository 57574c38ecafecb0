//! The wire format of a class file: its errors and the reads that every part
//! of the decoder is made of. All integers are big-endian.

use crate::buffer::be16;
use crate::buffer::be32;
use crate::buffer::buf_content;
use crate::buffer::buf_copy_to_bytes;
use crate::buffer::buf_get_u16;
use crate::buffer::buf_get_u32;
use crate::buffer::buf_get_u8;
use crate::buffer::buf_into_vec;
use crate::buffer::buf_remaining;
use crate::buffer::is_scalar_value;
use bytes::Bytes;
use vstd::prelude::*;

verus! {

/// Why a class file was refused.
#[derive(Debug, Clone, Copy, PartialEq, Eq, Structural)]
pub enum ClassError {
    /// The first four bytes are not `0xCAFEBABE`; they are the given value.
    BadMagic(u32),
    /// The input ends before the item that is being read does.
    TruncatedInput,
    /// A constant-pool entry starts with a tag that the format does not have.
    NonexistentConstantPoolTag(u8),
    /// A byte that cannot start or continue a character, or the code of a
    /// character that a string cannot hold.
    MalformedUTF8Codepoint(u32),
    /// A character whose bytes run past the end of its string; the value is its
    /// first byte.
    IncompleteUTF8Codepoint(u32),
    /// An attribute whose name index does not lead to the name of an attribute
    /// that the decoder knows; the value is the index.
    UnknownAttribute(u16),
    /// An attribute in a place where the format does not allow it; the value is
    /// its name index.
    WrongAttributeLocation(u16),
    /// A stack map frame of a type that the format does not have.
    UnknownStackMapFrame(u8),
    /// A verification type with a tag that the format does not have.
    UnknownVerificationType(u8),
}

/// A decoding that failed: why, and how many bytes of the buffer were still
/// unread when the item that could not be read started.
#[derive(Debug, Clone, Copy, PartialEq, Eq, Structural)]
pub struct Failure {
    pub error: ClassError,
    pub left: usize,
}

impl Failure {
    /// The failure of reading the item that `s` starts with.
    pub open spec fn at(error: ClassError, s: Seq<u8>) -> Failure {
        Failure { error, left: s.len() as usize }
    }

    /// This failure, which happened in a part that was split off the front
    /// of a buffer, seen from that buffer, of which `rest` is unread behind the
    /// part.
    pub open spec fn within(self, rest: Seq<u8>) -> Failure {
        Failure { error: self.error, left: (self.left + rest.len()) as usize }
    }

    /// This failure seen from the buffer that the part it happened in was
    /// split off, of which `rest` bytes are unread behind the part.
    pub(crate) fn seen_from(self, rest: usize) -> (r: Failure)
        requires
            self.left + rest <= usize::MAX,
        ensures
            r == (Failure { error: self.error, left: (self.left + rest) as usize }),
    {
        Failure { error: self.error, left: self.left + rest }
    }
}

/// A class file that was refused: why, and at which byte of the file the
/// item starts that could not be read.
#[derive(Debug, Clone, Copy, PartialEq, Eq, Structural)]
pub struct DecodeFailure {
    pub error: ClassError,
    pub offset: usize,
}

/// The first byte of `s` and what follows it.
pub open spec fn take_u8(s: Seq<u8>) -> Result<(u8, Seq<u8>), Failure> {
    if s.len() < 1 {
        Err(Failure::at(ClassError::TruncatedInput, s))
    } else {
        Ok((s[0], s.skip(1)))
    }
}

/// The first two bytes of `s` as one integer, and what follows them.
pub open spec fn take_u16(s: Seq<u8>) -> Result<(u16, Seq<u8>), Failure> {
    if s.len() < 2 {
        Err(Failure::at(ClassError::TruncatedInput, s))
    } else {
        Ok((be16(s) as u16, s.skip(2)))
    }
}

/// The first four bytes of `s` as one integer, and what follows them.
pub open spec fn take_u32(s: Seq<u8>) -> Result<(u32, Seq<u8>), Failure> {
    if s.len() < 4 {
        Err(Failure::at(ClassError::TruncatedInput, s))
    } else {
        Ok((be32(s) as u32, s.skip(4)))
    }
}

/// The first `n` bytes of `s`, and what follows them.
pub open spec fn take_bytes(s: Seq<u8>, n: nat) -> Result<(Seq<u8>, Seq<u8>), Failure> {
    if s.len() < n {
        Err(Failure::at(ClassError::TruncatedInput, s))
    } else {
        Ok((s.take(n as int), s.skip(n as int)))
    }
}

/// The first `n` pairs of bytes of `s`, each as one integer, and what follows
/// them.
pub open spec fn take_u16s(s: Seq<u8>, n: nat) -> Result<(Seq<u16>, Seq<u8>), Failure> {
    if s.len() < 2 * n {
        Err(Failure::at(ClassError::TruncatedInput, s))
    } else {
        Ok((Seq::new(n, |i: int| be16(s.skip(2 * i)) as u16), s.skip(2 * n as int)))
    }
}

/// Reads one byte.
pub fn read_u8(b: &mut Bytes) -> (r: Result<u8, Failure>)
    ensures
        match take_u8(buf_content(*old(b))) {
            Ok((v, rest)) => r == Ok::<u8, Failure>(v) && buf_content(*final(b)) == rest,
            Err(e) => r == Err::<u8, Failure>(e),
        },
{
    let left = buf_remaining(b);
    if left < 1 {
        return Err(Failure { error: ClassError::TruncatedInput, left });
    }
    Ok(buf_get_u8(b))
}

/// Reads two bytes as one integer.
pub fn read_u16(b: &mut Bytes) -> (r: Result<u16, Failure>)
    ensures
        match take_u16(buf_content(*old(b))) {
            Ok((v, rest)) => r == Ok::<u16, Failure>(v) && buf_content(*final(b)) == rest,
            Err(e) => r == Err::<u16, Failure>(e),
        },
{
    let left = buf_remaining(b);
    if left < 2 {
        return Err(Failure { error: ClassError::TruncatedInput, left });
    }
    Ok(buf_get_u16(b))
}

/// Reads four bytes as one integer.
pub fn read_u32(b: &mut Bytes) -> (r: Result<u32, Failure>)
    ensures
        match take_u32(buf_content(*old(b))) {
            Ok((v, rest)) => r == Ok::<u32, Failure>(v) && buf_content(*final(b)) == rest,
            Err(e) => r == Err::<u32, Failure>(e),
        },
{
    let left = buf_remaining(b);
    if left < 4 {
        return Err(Failure { error: ClassError::TruncatedInput, left });
    }
    Ok(buf_get_u32(b))
}

/// Splits the next `n` bytes off as a buffer of their own.
pub fn read_buffer(b: &mut Bytes, n: usize) -> (r: Result<Bytes, Failure>)
    ensures
        match take_bytes(buf_content(*old(b)), n as nat) {
            Ok((v, rest)) => r matches Ok(sub) && buf_content(sub) == v && buf_content(*final(b))
                == rest,
            Err(e) => r matches Err(x) && x == e,
        },
{
    let left = buf_remaining(b);
    if left < n {
        return Err(Failure { error: ClassError::TruncatedInput, left });
    }
    Ok(buf_copy_to_bytes(b, n))
}

/// Reads the next `n` bytes.
pub fn read_bytes(b: &mut Bytes, n: usize) -> (r: Result<Vec<u8>, Failure>)
    ensures
        match take_bytes(buf_content(*old(b)), n as nat) {
            Ok((v, rest)) => r matches Ok(out) && out@ == v && buf_content(*final(b)) == rest,
            Err(e) => r matches Err(x) && x == e,
        },
{
    let sub = read_buffer(b, n)?;
    Ok(buf_into_vec(sub))
}

/// Reads the next `n` pairs of bytes, each as one integer.
pub fn read_u16s(b: &mut Bytes, n: usize) -> (r: Result<Vec<u16>, Failure>)
    ensures
        match take_u16s(buf_content(*old(b)), n as nat) {
            Ok((v, rest)) => r matches Ok(out) && out@ == v && buf_content(*final(b)) == rest,
            Err(e) => r matches Err(x) && x == e,
        },
{
    let ghost s = buf_content(*b);
    let left = buf_remaining(b);
    if left / 2 < n {
        return Err(Failure { error: ClassError::TruncatedInput, left });
    }
    let mut out: Vec<u16> = Vec::new();
    let mut i: usize = 0;
    assert(s.skip(0) == s);
    while i < n
        invariant
            i <= n,
            2 * n <= s.len(),
            buf_content(*b) == s.skip(2 * i),
            out@ == Seq::new(i as nat, |j: int| be16(s.skip(2 * j)) as u16),
        decreases n - i,
    {
        let v = buf_get_u16(b);
        out.push(v);
        assert(s.skip(2 * i).skip(2) == s.skip(2 * (i + 1)));
        i = i + 1;
    }
    Ok(out)
}

/// The text that the bytes `s` encode from index `i` on, in the class file's
/// own encoding of characters. A byte below `0x80` is a character by itself. A
/// byte from `0xC0` to `0xDF` starts a character of two bytes, with the code
/// `(x - 0xC0) * 64 + (y - 0x80)`. A byte from `0xE0` to `0xEF` starts one of
/// three bytes, with the code `(x - 0xE0) * 4096 + (y - 0x80) * 64 + (z - 0x80)`.
/// Each following byte lies from `0x80` to `0xBF`.
pub open spec fn text_from(s: Seq<u8>, i: int) -> Result<Seq<char>, Failure>
    decreases s.len() - i,
{
    if i < 0 || i >= s.len() {
        Ok(Seq::<char>::empty())
    } else {
        match char_at(s, i) {
            Err(e) => Err(Failure { error: e, left: (s.len() - i) as usize }),
            Ok((c, width)) => match text_from(s, i + width) {
                Err(e) => Err(e),
                Ok(rest) => Ok(seq![c] + rest),
            },
        }
    }
}

/// The character that starts at index `i` of `s`, and the number of bytes it
/// takes, which is 1, 2 or 3.
pub open spec fn char_at(s: Seq<u8>, i: int) -> Result<(char, int), ClassError>
    recommends
        0 <= i < s.len(),
{
    let x = s[i];
    if x < 0x80 {
        Ok((x as char, 1))
    } else if 0xC0 <= x < 0xE0 {
        if i + 1 >= s.len() {
            Err(ClassError::IncompleteUTF8Codepoint(x as u32))
        } else if !is_continuation(s[i + 1]) {
            Err(ClassError::MalformedUTF8Codepoint(s[i + 1] as u32))
        } else {
            Ok((((x - 0xC0) * 64 + (s[i + 1] - 0x80)) as char, 2))
        }
    } else if 0xE0 <= x < 0xF0 {
        if i + 2 >= s.len() {
            Err(ClassError::IncompleteUTF8Codepoint(x as u32))
        } else if !is_continuation(s[i + 1]) {
            Err(ClassError::MalformedUTF8Codepoint(s[i + 1] as u32))
        } else if !is_continuation(s[i + 2]) {
            Err(ClassError::MalformedUTF8Codepoint(s[i + 2] as u32))
        } else {
            let code = (x - 0xE0) * 4096 + (s[i + 1] - 0x80) * 64 + (s[i + 2] - 0x80);
            if is_scalar_value(code) {
                Ok((code as char, 3))
            } else {
                Err(ClassError::MalformedUTF8Codepoint(code as u32))
            }
        }
    } else {
        Err(ClassError::MalformedUTF8Codepoint(x as u32))
    }
}

/// Whether `y` can follow the first byte of a character.
pub open spec fn is_continuation(y: u8) -> bool {
    0x80 <= y < 0xC0
}

/// A text fails at a byte of the text.
pub proof fn lemma_text_failure_bound(s: Seq<u8>, i: int)
    requires
        0 <= i <= s.len() <= usize::MAX,
    ensures
        text_from(s, i) matches Err(e) ==> e.left <= s.len() - i,
    decreases s.len() - i,
{
    if i < s.len() {
        match char_at(s, i) {
            Ok((_, width)) => {
                lemma_text_failure_bound(s, i + width);
            },
            Err(_) => {},
        }
    }
}

/// Decodes the text that `data` encodes.
pub fn decode_text(data: &Vec<u8>) -> (r: Result<String, Failure>)
    ensures
        match text_from(data@, 0) {
            Ok(text) => r matches Ok(out) && out@ == text,
            Err(e) => r matches Err(x) && x == e,
        },
{
    let ghost s = data@;
    let mut out = String::new();
    let mut i: usize = 0;
    while i < data.len()
        invariant
            i <= data.len(),
            data@ == s,
            text_from(s, 0) == (match text_from(s, i as int) {
                Ok(rest) => Ok::<Seq<char>, Failure>(out@ + rest),
                Err(e) => Err(e),
            }),
        decreases data.len() - i,
    {
        let ghost before = out@;
        let left = data.len() - i;
        let x = data[i];
        let code: u32;
        let width: usize;
        if x < 0x80 {
            code = x as u32;
            width = 1;
        } else if 0xC0 <= x && x < 0xE0 {
            if data.len() - i < 2 {
                return Err(Failure { error: ClassError::IncompleteUTF8Codepoint(x as u32), left });
            }
            let y = data[i + 1];
            if !(0x80 <= y && y < 0xC0) {
                return Err(Failure { error: ClassError::MalformedUTF8Codepoint(y as u32), left });
            }
            code = (x - 0xC0) as u32 * 64 + (y - 0x80) as u32;
            width = 2;
        } else if 0xE0 <= x && x < 0xF0 {
            if data.len() - i < 3 {
                return Err(Failure { error: ClassError::IncompleteUTF8Codepoint(x as u32), left });
            }
            let y = data[i + 1];
            let z = data[i + 2];
            if !(0x80 <= y && y < 0xC0) {
                return Err(Failure { error: ClassError::MalformedUTF8Codepoint(y as u32), left });
            }
            if !(0x80 <= z && z < 0xC0) {
                return Err(Failure { error: ClassError::MalformedUTF8Codepoint(z as u32), left });
            }
            code = (x - 0xE0) as u32 * 4096 + (y - 0x80) as u32 * 64 + (z - 0x80) as u32;
            width = 3;
        } else {
            return Err(Failure { error: ClassError::MalformedUTF8Codepoint(x as u32), left });
        }
        match char::from_u32(code) {
            Some(c) => {
                out.push(c);
                proof {
                    match text_from(s, i + width) {
                        Ok(rest) => {
                            assert(before + (seq![c] + rest) == before.push(c) + rest);
                        },
                        Err(e) => {},
                    }
                }
            },
            None => {
                return Err(Failure { error: ClassError::MalformedUTF8Codepoint(code), left });
            },
        }
        i = i + width;
    }
    assert(out@ + Seq::<char>::empty() == out@);
    Ok(out)
}

} // verus!
