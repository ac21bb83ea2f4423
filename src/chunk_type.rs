//! The four-byte type tag of a chunk.
//!
//! Each byte of a tag is meant to be an ASCII letter, and the case of each
//! one carries a flag: upper case in the first byte marks a critical chunk,
//! in the second a public one, in the third a conforming (reserved bit
//! valid) one; lower case in the fourth marks a chunk that is safe to copy.

use vstd::prelude::*;
use vstd::utf8::{
    decode_utf8, encode_utf8, encode_utf8_decode_utf8, encode_utf8_valid_utf8, is_ascii_chars,
    is_ascii_chars_encode_utf8, valid_utf8,
};
use vstd::string::StringSliceAdditionalSpecFns;
use crate::text::utf8_to_string;

verus! {

/// `b` is an ASCII capital letter.
pub open spec fn is_upper(b: u8) -> bool {
    0x41 <= b <= 0x5a
}

/// `b` is an ASCII small letter.
pub open spec fn is_lower(b: u8) -> bool {
    0x61 <= b <= 0x7a
}

/// `b` is an ASCII letter of either case.
pub open spec fn is_letter(b: u8) -> bool {
    is_upper(b) || is_lower(b)
}

/// Every byte of `t` is an ASCII letter.
pub open spec fn all_letters(t: Seq<u8>) -> bool {
    forall|i: int| 0 <= i < t.len() ==> #[trigger] is_letter(t[i])
}

/// The tag bytes `t` mark a critical chunk.
pub open spec fn tag_is_critical(t: Seq<u8>) -> bool {
    is_upper(t[0])
}

/// The tag bytes `t` mark a public chunk.
pub open spec fn tag_is_public(t: Seq<u8>) -> bool {
    is_upper(t[1])
}

/// The reserved bit of the tag bytes `t` has its conforming value.
pub open spec fn tag_is_reserved_bit_valid(t: Seq<u8>) -> bool {
    is_upper(t[2])
}

/// The tag bytes `t` mark a chunk that is safe to copy.
pub open spec fn tag_is_safe_to_copy(t: Seq<u8>) -> bool {
    is_lower(t[3])
}

/// The tag bytes `t` form a well-formed tag: all letters, reserved bit valid.
pub open spec fn tag_is_valid(t: Seq<u8>) -> bool {
    all_letters(t) && tag_is_reserved_bit_valid(t)
}

/// The characters of the ASCII bytes `b`, one for each byte.
pub open spec fn ascii_text(b: Seq<u8>) -> Seq<char> {
    Seq::new(b.len(), |i: int| b[i] as char)
}

/// Bytes that are all ASCII letters are valid UTF-8, and spell their letters.
pub proof fn lemma_letters_are_text(b: Seq<u8>)
    requires
        all_letters(b),
    ensures
        valid_utf8(b),
        decode_utf8(b) == ascii_text(b),
{
    let chars = ascii_text(b);
    assert(is_ascii_chars(chars)) by {
        assert forall|i: int| 0 <= i < chars.len() implies '\0' <= #[trigger] chars[i] <= '\u{7f}' by {
            assert(is_letter(b[i]));
        }
    }
    is_ascii_chars_encode_utf8(chars);
    assert forall|i: int| 0 <= i < b.len() implies encode_utf8(chars)[i] == b[i] by {
        assert(is_letter(b[i]));
        assert(chars[i] as u8 == encode_utf8(chars)[i]);
    }
    assert(encode_utf8(chars) =~= b);
    encode_utf8_valid_utf8(chars);
    encode_utf8_decode_utf8(chars);
}

fn byte_is_upper(b: u8) -> (r: bool)
    ensures
        r == is_upper(b),
{
    0x41 <= b && b <= 0x5a
}

fn byte_is_lower(b: u8) -> (r: bool)
    ensures
        r == is_lower(b),
{
    0x61 <= b && b <= 0x7a
}

pub(crate) fn byte_is_letter(b: u8) -> (r: bool)
    ensures
        r == is_letter(b),
{
    byte_is_upper(b) || byte_is_lower(b)
}

/// Why a tag could not be built from text, or rendered as text.
#[derive(Debug, Clone, Copy, PartialEq, Eq, Structural)]
pub enum ChunkTypeError {
    /// One of the first four bytes of the text is not an ASCII letter.
    InvalidCharacter,
    /// The text holds fewer than four bytes.
    TooShort,
    /// The tag's bytes are not valid UTF-8 text.
    EncodingError,
}

/// A four-byte chunk type tag. Any four bytes can be held; whether they form
/// a well-formed tag is asked of `is_valid`.
#[derive(Debug, Clone, Copy, PartialEq, Eq)]
pub struct ChunkType {
    data: [u8; 4],
}

impl View for ChunkType {
    type V = Seq<u8>;

    /// The four bytes of the tag.
    closed spec fn view(&self) -> Seq<u8> {
        self.data@
    }
}

/// A tag is always four bytes long.
pub broadcast proof fn lemma_tag_len(t: ChunkType)
    ensures
        #[trigger] t@.len() == 4,
{
}

/// Each flag of a tag is read from the case of its own byte alone: two tags
/// that agree on that byte agree on the flag, whatever their other bytes and
/// whether or not they are valid.
pub proof fn lemma_flags_read_own_byte(a: ChunkType, b: ChunkType)
    ensures
        a@[0] == b@[0] ==> tag_is_critical(a@) == tag_is_critical(b@),
        a@[1] == b@[1] ==> tag_is_public(a@) == tag_is_public(b@),
        a@[2] == b@[2] ==> tag_is_reserved_bit_valid(a@) == tag_is_reserved_bit_valid(b@),
        a@[3] == b@[3] ==> tag_is_safe_to_copy(a@) == tag_is_safe_to_copy(b@),
{
}

/// Reading back the text that a tag of letters renders to gives the same
/// tag: the text's bytes are the tag's bytes, so `from_text` and `from_str`
/// succeed on it and keep exactly those four.
pub proof fn lemma_render_then_read(t: ChunkType, s: &str)
    requires
        all_letters(t@),
        s@ == ascii_text(t@),
    ensures
        s.spec_bytes() == t@,
        s.spec_bytes().len() >= 4,
        all_letters(s.spec_bytes().subrange(0, 4)),
        s.spec_bytes().subrange(0, 4) == t@,
{
    lemma_letters_are_text(t@);
    let chars = ascii_text(t@);
    assert(is_ascii_chars(chars)) by {
        assert forall|i: int| 0 <= i < chars.len() implies '\0' <= #[trigger] chars[i] <= '\u{7f}' by {
            assert(is_letter(t@[i]));
        }
    }
    is_ascii_chars_encode_utf8(chars);
    assert forall|i: int| 0 <= i < t@.len() implies encode_utf8(chars)[i] == t@[i] by {
        assert(is_letter(t@[i]));
        assert(chars[i] as u8 == encode_utf8(chars)[i]);
    }
    assert(encode_utf8(chars) =~= t@);
    assert(t@.subrange(0, 4) =~= t@);
}

/// A tag with a byte that is not an ASCII letter is never valid, whatever
/// the case of its other bytes.
pub proof fn lemma_non_letter_invalid(t: ChunkType, i: int)
    requires
        0 <= i < 4,
        !is_letter(t@[i]),
    ensures
        !tag_is_valid(t@),
{
    assert(!is_letter(t@[i]));
}

impl ChunkType {
    /// A tag holding `bytes` as they are; this never fails.
    pub fn from_bytes(bytes: [u8; 4]) -> (r: ChunkType)
        ensures
            r@ == bytes@,
    {
        ChunkType { data: bytes }
    }

    /// A tag made of the first four bytes of `s`, which must be ASCII
    /// letters. Bytes after the fourth are ignored.
    pub fn from_text(s: &str) -> (r: Result<ChunkType, ChunkTypeError>)
        ensures
            s.spec_bytes().len() < 4 ==> r == Err::<ChunkType, ChunkTypeError>(
                ChunkTypeError::TooShort,
            ),
            s.spec_bytes().len() >= 4 && !all_letters(s.spec_bytes().subrange(0, 4)) ==> r
                == Err::<ChunkType, ChunkTypeError>(ChunkTypeError::InvalidCharacter),
            r is Ok <==> s.spec_bytes().len() >= 4 && all_letters(s.spec_bytes().subrange(0, 4)),
            r is Ok ==> r->Ok_0@ == s.spec_bytes().subrange(0, 4),
    {
        let b = s.as_bytes();
        if b.len() < 4 {
            return Err(ChunkTypeError::TooShort);
        }
        let mut i: usize = 0;
        while i < 4
            invariant
                0 <= i <= 4,
                b@ == s.spec_bytes(),
                b@.len() >= 4,
                forall|j: int| 0 <= j < i ==> #[trigger] is_letter(b@[j]),
            decreases 4 - i,
        {
            if !byte_is_letter(b[i]) {
                assert(!is_letter(b@.subrange(0, 4)[i as int]));
                return Err(ChunkTypeError::InvalidCharacter);
            }
            i = i + 1;
        }
        let data = [b[0], b[1], b[2], b[3]];
        assert(data@ =~= b@.subrange(0, 4));
        Ok(ChunkType { data })
    }

    /// The four bytes of the tag.
    pub fn bytes(&self) -> (r: [u8; 4])
        ensures
            r@ == self@,
    {
        self.data
    }

    /// All four bytes are ASCII letters and the reserved bit is valid.
    pub fn is_valid(&self) -> (r: bool)
        ensures
            r == tag_is_valid(self@),
    {
        let mut i: usize = 0;
        while i < 4
            invariant
                0 <= i <= 4,
                forall|j: int| 0 <= j < i ==> #[trigger] is_letter(self.data@[j]),
            decreases 4 - i,
        {
            if !byte_is_letter(self.data[i]) {
                return false;
            }
            i = i + 1;
        }
        self.is_reserved_bit_valid()
    }

    /// The first byte is upper case.
    pub fn is_critical(&self) -> (r: bool)
        ensures
            r == tag_is_critical(self@),
    {
        byte_is_upper(self.data[0])
    }

    /// The second byte is upper case.
    pub fn is_public(&self) -> (r: bool)
        ensures
            r == tag_is_public(self@),
    {
        byte_is_upper(self.data[1])
    }

    /// The third byte is upper case.
    pub fn is_reserved_bit_valid(&self) -> (r: bool)
        ensures
            r == tag_is_reserved_bit_valid(self@),
    {
        byte_is_upper(self.data[2])
    }

    /// The fourth byte is lower case.
    pub fn is_safe_to_copy(&self) -> (r: bool)
        ensures
            r == tag_is_safe_to_copy(self@),
    {
        byte_is_lower(self.data[3])
    }

    /// The tag's bytes read as UTF-8 text.
    pub fn to_string(&self) -> (r: Result<String, ChunkTypeError>)
        ensures
            match r {
                Ok(s) => valid_utf8(self@) && s@ == decode_utf8(self@),
                Err(e) => !valid_utf8(self@) && e == ChunkTypeError::EncodingError,
            },
            all_letters(self@) ==> r is Ok && r->Ok_0@ == ascii_text(self@),
    {
        proof {
            if all_letters(self@) {
                lemma_letters_are_text(self@);
            }
        }
        let mut v: Vec<u8> = Vec::new();
        let mut i: usize = 0;
        while i < 4
            invariant
                0 <= i <= 4,
                v@ == self.data@.subrange(0, i as int),
            decreases 4 - i,
        {
            v.push(self.data[i]);
            assert(v@ =~= self.data@.subrange(0, i + 1));
            i = i + 1;
        }
        assert(v@ =~= self@);
        match utf8_to_string(v) {
            Some(s) => Ok(s),
            None => Err(ChunkTypeError::EncodingError),
        }
    }
}

impl From<[u8; 4]> for ChunkType {
    fn from(bytes: [u8; 4]) -> (r: ChunkType)
        ensures
            r@ == bytes@,
    {
        ChunkType { data: bytes }
    }
}

impl vstd::std_specs::convert::FromSpecImpl<[u8; 4]> for ChunkType {
    open spec fn obeys_from_spec() -> bool {
        true
    }

    closed spec fn from_spec(v: [u8; 4]) -> ChunkType {
        ChunkType { data: v }
    }
}

impl std::str::FromStr for ChunkType {
    type Err = ChunkTypeError;

    fn from_str(s: &str) -> (r: Result<ChunkType, ChunkTypeError>)
        ensures
            s.spec_bytes().len() < 4 ==> r == Err::<ChunkType, ChunkTypeError>(
                ChunkTypeError::TooShort,
            ),
            s.spec_bytes().len() >= 4 && !all_letters(s.spec_bytes().subrange(0, 4)) ==> r
                == Err::<ChunkType, ChunkTypeError>(ChunkTypeError::InvalidCharacter),
            r is Ok <==> s.spec_bytes().len() >= 4 && all_letters(s.spec_bytes().subrange(0, 4)),
            r is Ok ==> r->Ok_0@ == s.spec_bytes().subrange(0, 4),
    {
        ChunkType::from_text(s)
    }
}

} // verus!
