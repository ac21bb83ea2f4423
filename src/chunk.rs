//! Chunks: a payload framed by its length, a type tag and a CRC-32.
//!
//! On the wire a chunk is the payload length as a big-endian `u32`, the four
//! tag bytes, the payload, and the big-endian CRC-32 (ISO-HDLC, as in zlib
//! and PNG) of the tag bytes followed by the payload.

use vstd::prelude::*;
use vstd::slice::{slice_subrange, slice_to_vec};
use vstd::utf8::{decode_utf8, valid_utf8};
use crate::chunk_type::{all_letters, byte_is_letter, is_letter, ChunkType, lemma_tag_len};
use crate::text::utf8_to_string;

verus! {

broadcast use lemma_tag_len;

/// The CRC-32/ISO-HDLC checksum of `bytes`.
pub uninterp spec fn crc32_of(bytes: Seq<u8>) -> u32;

/// Relies on `crc::Crc::<u32>::checksum` with the `CRC_32_ISO_HDLC` algorithm:
/// a checksum that depends on the bytes alone.
#[verifier::external_body]
fn crc32(bytes: &[u8]) -> (r: u32)
    ensures
        r == crc32_of(bytes@),
{
    crc::Crc::<u32>::new(&crc::CRC_32_ISO_HDLC).checksum(bytes)
}

/// The big-endian bytes of `x`.
pub open spec fn be32(x: u32) -> Seq<u8> {
    seq![(x >> 24) as u8, (x >> 16) as u8, (x >> 8) as u8, x as u8]
}

/// The number whose big-endian bytes are the first four of `b`.
pub open spec fn be32_value(b: Seq<u8>) -> u32 {
    ((b[0] as u32) << 24) | ((b[1] as u32) << 16) | ((b[2] as u32) << 8) | (b[3] as u32)
}

/// Reading back the bytes of a number gives the number.
pub proof fn lemma_be32_value_of_be32(x: u32)
    ensures
        be32_value(be32(x)) == x,
{
    assert(((((x >> 24) as u8) as u32) << 24) | ((((x >> 16) as u8) as u32) << 16) | ((((
    x >> 8) as u8) as u32) << 8) | ((x as u8) as u32) == x) by (bit_vector);
}

/// Four bytes are the bytes of the number they encode.
pub proof fn lemma_be32_of_be32_value(b: Seq<u8>)
    requires
        b.len() == 4,
    ensures
        be32(be32_value(b)) == b,
{
    let (b0, b1, b2, b3) = (b[0], b[1], b[2], b[3]);
    let x = be32_value(b);
    assert(x == ((b0 as u32) << 24) | ((b1 as u32) << 16) | ((b2 as u32) << 8) | (b3 as u32));
    assert(((x >> 24) as u8) == b0 && ((x >> 16) as u8) == b1 && ((x >> 8) as u8) == b2 && (x as u8) == b3) by (bit_vector)
        requires
            x == ((b0 as u32) << 24) | ((b1 as u32) << 16) | ((b2 as u32) << 8) | (b3 as u32),
    ;
    assert(be32(x) =~= b);
}

fn u32_to_be(x: u32) -> (r: [u8; 4])
    ensures
        r@ == be32(x),
{
    let r = [(x >> 24) as u8, (x >> 16) as u8, (x >> 8) as u8, x as u8];
    assert(r@ =~= be32(x));
    r
}

fn u32_from_be(b: &[u8], at: usize) -> (r: u32)
    requires
        at + 4 <= b@.len(),
    ensures
        r == be32_value(b@.subrange(at as int, at + 4)),
{
    ((b[at] as u32) << 24) | ((b[at + 1] as u32) << 16) | ((b[at + 2] as u32) << 8) | (
    b[at + 3] as u32)
}

/// The fields of a chunk.
pub struct ChunkView {
    pub length: u32,
    pub tag: Seq<u8>,
    pub data: Seq<u8>,
    pub crc: u32,
}

/// The chunk that `new` makes of tag bytes `tag` and payload `data`.
pub open spec fn new_view(tag: Seq<u8>, data: Seq<u8>) -> ChunkView {
    ChunkView { length: data.len() as u32, tag, data, crc: crc32_of(tag + data) }
}

/// The wire form of a chunk.
pub open spec fn frame(c: ChunkView) -> Seq<u8> {
    be32(c.length) + c.tag + c.data + be32(c.crc)
}

/// The smallest frame: length, tag and checksum around an empty payload.
pub const MIN_FRAME_LEN: usize = 12;

/// What reading the frame `b` gives, where `computed` is the checksum of its
/// tag and payload bytes. The declared length is checked before the checksum.
pub open spec fn parse_frame(b: Seq<u8>, computed: u32) -> Result<ChunkView, ChunkError> {
    if b.len() < MIN_FRAME_LEN {
        Err(ChunkError::InsufficientData { available: b.len() as usize })
    } else if !all_letters(b.subrange(4, 8)) {
        Err(ChunkError::InvalidTypeBytes)
    } else if be32_value(b.subrange(0, 4)) as int != b.len() - MIN_FRAME_LEN {
        Err(
            ChunkError::LengthMismatch {
                declared: be32_value(b.subrange(0, 4)),
                actual: (b.len() - MIN_FRAME_LEN) as usize,
            },
        )
    } else if be32_value(b.subrange(b.len() - 4, b.len() as int)) != computed {
        Err(
            ChunkError::ChecksumMismatch {
                declared: be32_value(b.subrange(b.len() - 4, b.len() as int)),
                computed,
            },
        )
    } else {
        Ok(
            ChunkView {
                length: be32_value(b.subrange(0, 4)),
                tag: b.subrange(4, 8),
                data: b.subrange(8, b.len() - 4),
                crc: computed,
            },
        )
    }
}

/// The bytes of frame `b` that its checksum covers: the tag and the payload.
pub open spec fn checksummed(b: Seq<u8>) -> Seq<u8> {
    b.subrange(4, b.len() - 4)
}

/// What reading the bytes `b` as a chunk gives.
pub open spec fn parse(b: Seq<u8>) -> Result<ChunkView, ChunkError> {
    parse_frame(b, crc32_of(checksummed(b)))
}

/// A new chunk's length is the length of its payload.
pub proof fn lemma_new_length(t: ChunkType, d: Seq<u8>)
    requires
        d.len() <= u32::MAX,
    ensures
        new_view(t@, d).length as nat == d.len(),
{
}

/// A new chunk's checksum is a function of its tag bytes and payload: equal
/// inputs give equal checksums.
pub proof fn lemma_crc_determined(t1: ChunkType, d1: Seq<u8>, t2: ChunkType, d2: Seq<u8>)
    requires
        t1@ == t2@,
        d1 == d2,
    ensures
        new_view(t1@, d1).crc == crc32_of(t1@ + d1),
        new_view(t1@, d1).crc == new_view(t2@, d2).crc,
{
}

/// Reading back the wire form of a new chunk whose tag is made of letters
/// gives the same length, tag, payload and checksum.
pub proof fn lemma_round_trip(t: ChunkType, d: Seq<u8>)
    requires
        all_letters(t@),
        d.len() <= u32::MAX,
    ensures
        parse(frame(new_view(t@, d))) == Ok::<ChunkView, ChunkError>(new_view(t@, d)),
{
    let v = new_view(t@, d);
    let b = frame(v);
    let n = b.len();
    assert(n == d.len() + 12);
    lemma_be32_value_of_be32(v.length);
    lemma_be32_value_of_be32(v.crc);
    assert(b.subrange(0, 4) =~= be32(v.length));
    assert(b.subrange(4, 8) =~= t@);
    assert(b.subrange(8, n - 4) =~= d);
    assert(checksummed(b) =~= t@ + d);
    assert(b.subrange(n - 4, n as int) =~= be32(v.crc));
}

/// Changing any one byte of the checksum field in the wire form of a new
/// chunk whose tag is made of letters makes reading it fail on the checksum,
/// not on the length.
pub proof fn lemma_checksum_tamper_detected(t: ChunkType, d: Seq<u8>, i: int, x: u8)
    requires
        all_letters(t@),
        d.len() <= u32::MAX,
        0 <= i < 4,
        x != frame(new_view(t@, d))[d.len() + 8 + i],
    ensures
        parse(frame(new_view(t@, d)).update(d.len() + 8 + i, x)) matches Err(
            ChunkError::ChecksumMismatch { .. },
        ),
{
    let v = new_view(t@, d);
    let b = frame(v);
    let n = b.len();
    let k = d.len() + 8 + i;
    let c = b.update(k, x);
    lemma_be32_value_of_be32(v.length);
    assert(c.subrange(0, 4) =~= be32(v.length));
    assert(c.subrange(4, 8) =~= t@);
    assert(checksummed(c) =~= t@ + d);
    let last = c.subrange(n - 4, n as int);
    assert(b.subrange(n - 4, n as int) =~= be32(v.crc));
    assert(last =~= be32(v.crc).update(i, x));
    lemma_be32_of_be32_value(last);
    assert(last[i] != be32(v.crc)[i]);
    assert(be32_value(last) != v.crc);
}

/// A buffer shorter than the smallest frame is refused as too short.
pub proof fn lemma_short_buffer_refused(b: Seq<u8>)
    requires
        b.len() < MIN_FRAME_LEN,
    ensures
        parse(b) == Err::<ChunkView, ChunkError>(
            ChunkError::InsufficientData { available: b.len() as usize },
        ),
{
}

/// Why bytes could not be read as a chunk, or a payload as text.
#[derive(Debug, Clone, Copy, PartialEq, Eq)]
pub enum ChunkError {
    /// The buffer is shorter than the smallest frame.
    InsufficientData { available: usize },
    /// The tag bytes are not all ASCII letters.
    InvalidTypeBytes,
    /// The declared length is not the number of payload bytes present.
    LengthMismatch { declared: u32, actual: usize },
    /// The declared checksum is not that of the tag and payload.
    ChecksumMismatch { declared: u32, computed: u32 },
    /// The payload is not valid UTF-8 text.
    DataNotText,
}

/// Checks the frame `bytes` against `computed`, the checksum of its tag and
/// payload bytes, and reports the first fault.
pub fn check_frame(bytes: &[u8], computed: u32) -> (r: Result<(), ChunkError>)
    ensures
        match r {
            Ok(_) => parse_frame(bytes@, computed) is Ok,
            Err(e) => parse_frame(bytes@, computed) == Err::<ChunkView, ChunkError>(e),
        },
{
    let n = bytes.len();
    if n < MIN_FRAME_LEN {
        return Err(ChunkError::InsufficientData { available: n });
    }
    let mut i: usize = 4;
    while i < 8
        invariant
            4 <= i <= 8,
            n == bytes@.len(),
            n >= MIN_FRAME_LEN,
            forall|j: int| 4 <= j < i ==> #[trigger] is_letter(bytes@[j]),
        decreases 8 - i,
    {
        if !byte_is_letter(bytes[i]) {
            assert(!is_letter(bytes@.subrange(4, 8)[i - 4]));
            return Err(ChunkError::InvalidTypeBytes);
        }
        i = i + 1;
    }
    assert(all_letters(bytes@.subrange(4, 8)));
    let declared = u32_from_be(bytes, 0);
    let actual = n - MIN_FRAME_LEN;
    if declared as usize != actual {
        return Err(ChunkError::LengthMismatch { declared, actual });
    }
    let declared_crc = u32_from_be(bytes, n - 4);
    if declared_crc != computed {
        return Err(ChunkError::ChecksumMismatch { declared: declared_crc, computed });
    }
    Ok(())
}

/// A chunk: a payload with its length, type tag and checksum.
#[derive(Debug)]
pub struct Chunk {
    data: Vec<u8>,
    length: u32,
    chunk_type: ChunkType,
    crc: u32,
}

impl View for Chunk {
    type V = ChunkView;

    closed spec fn view(&self) -> ChunkView {
        ChunkView { length: self.length, tag: self.chunk_type@, data: self.data@, crc: self.crc }
    }
}

impl Chunk {
    /// The length always counts the payload, and the checksum always covers
    /// the tag and the payload.
    #[verifier::type_invariant]
    closed spec fn inv(&self) -> bool {
        &&& self.data@.len() <= u32::MAX
        &&& self.length as nat == self.data@.len()
        &&& self.crc == crc32_of(self.chunk_type@ + self.data@)
    }

    /// A chunk of type `chunk_type` holding `data`, with its length and
    /// checksum computed. The tag is taken as it is, valid or not.
    pub fn new(chunk_type: ChunkType, data: Vec<u8>) -> (r: Chunk)
        requires
            data@.len() <= u32::MAX,
        ensures
            r@ == new_view(chunk_type@, data@),
    {
        let length = data.len() as u32;
        let tag = chunk_type.bytes();
        let mut covered: Vec<u8> = Vec::new();
        let mut i: usize = 0;
        while i < 4
            invariant
                0 <= i <= 4,
                tag@ == chunk_type@,
                covered@ == tag@.subrange(0, i as int),
            decreases 4 - i,
        {
            covered.push(tag[i]);
            assert(covered@ =~= tag@.subrange(0, i + 1));
            i = i + 1;
        }
        let mut j: usize = 0;
        while j < data.len()
            invariant
                0 <= j <= data@.len(),
                covered@ == tag@ + data@.subrange(0, j as int),
            decreases data@.len() - j,
        {
            covered.push(data[j]);
            assert(covered@ =~= tag@ + data@.subrange(0, j + 1));
            j = j + 1;
        }
        assert(covered@ =~= chunk_type@ + data@);
        let crc = crc32(covered.as_slice());
        Chunk { data, length, chunk_type, crc }
    }

    /// Reads a chunk from `bytes`: at least twelve bytes, four letters as
    /// the tag, a declared length equal to the payload's and a declared
    /// checksum equal to that of the tag and payload.
    pub fn parse(bytes: &[u8]) -> (r: Result<Chunk, ChunkError>)
        ensures
            match r {
                Ok(c) => parse(bytes@) == Ok::<ChunkView, ChunkError>(c@),
                Err(e) => parse(bytes@) == Err::<ChunkView, ChunkError>(e),
            },
    {
        let n = bytes.len();
        if n < MIN_FRAME_LEN {
            return Err(ChunkError::InsufficientData { available: n });
        }
        let covered = slice_subrange(bytes, 4, n - 4);
        let computed = crc32(covered);
        match check_frame(bytes, computed) {
            Err(e) => Err(e),
            Ok(_) => {
                let tag = ChunkType::from_bytes([bytes[4], bytes[5], bytes[6], bytes[7]]);
                let data = slice_to_vec(slice_subrange(bytes, 8, n - 4));
                proof {
                    assert(tag@ =~= bytes@.subrange(4, 8));
                    assert(covered@ =~= tag@ + data@);
                }
                Ok(Chunk { data, length: u32_from_be(bytes, 0), chunk_type: tag, crc: computed })
            },
        }
    }

    /// The number of payload bytes.
    pub fn length(&self) -> (r: u32)
        ensures
            r == self@.length,
            r as nat == self@.data.len(),
    {
        proof {
            use_type_invariant(self);
        }
        self.data.len() as u32
    }

    /// The payload.
    pub fn data(&self) -> (r: &[u8])
        ensures
            r@ == self@.data,
    {
        self.data.as_slice()
    }

    /// The payload read as UTF-8 text.
    pub fn data_as_string(&self) -> (r: Result<String, ChunkError>)
        ensures
            match r {
                Ok(s) => valid_utf8(self@.data) && s@ == decode_utf8(self@.data),
                Err(e) => !valid_utf8(self@.data) && e == ChunkError::DataNotText,
            },
    {
        match utf8_to_string(slice_to_vec(self.data.as_slice())) {
            Some(s) => Ok(s),
            None => Err(ChunkError::DataNotText),
        }
    }

    /// The type tag.
    pub fn chunk_type(&self) -> (r: &ChunkType)
        ensures
            r@ == self@.tag,
    {
        &self.chunk_type
    }

    /// The checksum of the tag and payload.
    pub fn crc(&self) -> (r: u32)
        ensures
            r == self@.crc,
            r == crc32_of(self@.tag + self@.data),
    {
        proof {
            use_type_invariant(self);
        }
        self.crc
    }

    /// The wire form: length, tag, payload and checksum.
    pub fn as_bytes(&self) -> (r: Vec<u8>)
        ensures
            r@ == frame(self@),
    {
        proof {
            use_type_invariant(self);
        }
        let mut out: Vec<u8> = Vec::new();
        let head = u32_to_be(self.length);
        let tag = self.chunk_type.bytes();
        let tail = u32_to_be(self.crc);
        let mut i: usize = 0;
        while i < 4
            invariant
                0 <= i <= 4,
                out@ == head@.subrange(0, i as int),
            decreases 4 - i,
        {
            out.push(head[i]);
            assert(out@ =~= head@.subrange(0, i + 1));
            i = i + 1;
        }
        i = 0;
        while i < 4
            invariant
                0 <= i <= 4,
                out@ == head@ + tag@.subrange(0, i as int),
            decreases 4 - i,
        {
            out.push(tag[i]);
            assert(out@ =~= head@ + tag@.subrange(0, i + 1));
            i = i + 1;
        }
        let mut j: usize = 0;
        while j < self.data.len()
            invariant
                0 <= j <= self.data@.len(),
                out@ == head@ + tag@ + self.data@.subrange(0, j as int),
            decreases self.data@.len() - j,
        {
            out.push(self.data[j]);
            assert(out@ =~= head@ + tag@ + self.data@.subrange(0, j + 1));
            j = j + 1;
        }
        i = 0;
        while i < 4
            invariant
                0 <= i <= 4,
                out@ == head@ + tag@ + self.data@ + tail@.subrange(0, i as int),
            decreases 4 - i,
        {
            out.push(tail[i]);
            assert(out@ =~= head@ + tag@ + self.data@ + tail@.subrange(0, i + 1));
            i = i + 1;
        }
        assert(out@ =~= frame(self@));
        out
    }

    /// The payload as text, as `data_as_string` gives it.
    pub fn to_string(&self) -> (r: Result<String, ChunkError>)
        ensures
            match r {
                Ok(s) => valid_utf8(self@.data) && s@ == decode_utf8(self@.data),
                Err(e) => !valid_utf8(self@.data) && e == ChunkError::DataNotText,
            },
    {
        self.data_as_string()
    }
}

impl<'a> TryFrom<&'a [u8]> for Chunk {
    type Error = ChunkError;

    fn try_from(bytes: &'a [u8]) -> (r: Result<Chunk, ChunkError>)
        ensures
            match r {
                Ok(c) => parse(bytes@) == Ok::<ChunkView, ChunkError>(c@),
                Err(e) => parse(bytes@) == Err::<ChunkView, ChunkError>(e),
            },
    {
        Chunk::parse(bytes)
    }
}

impl<'a> vstd::std_specs::convert::TryFromSpecImpl<&'a [u8]> for Chunk {
    open spec fn obeys_try_from_spec() -> bool {
        false
    }

    open spec fn try_from_spec(v: &'a [u8]) -> Result<Chunk, ChunkError> {
        arbitrary()
    }
}

} // verus!
