//! One chunk: a type tag and its data, read from and written to the byte
//! layout of the PNG format.
//!
//! A chunk lies in a file as a frame of four fields: the length of the data
//! as four bytes, most significant first; the four bytes of the type tag; the
//! data; and the checksum of tag and data, again as four bytes, most
//! significant first.
use crate::big_endian::{
    be_bytes, be_value, lemma_be_bytes_of_value, lemma_be_value_of_bytes, u32_from_be_bytes,
    u32_to_be_bytes,
};
use crate::checksum::{crc32, crc32_of};
use crate::chunk_type::{
    is_tag, lemma_tag_or_invalid_byte, tag_of_bytes, ChunkType, ChunkTypeError,
};
use crate::text::string_from_utf8;
use std::string::FromUtf8Error;
use vstd::prelude::*;
use vstd::slice::{slice_subrange, slice_to_vec};
use vstd::std_specs::convert::TryFromSpecImpl;
use vstd::utf8::*;

verus! {

/// The number of bytes of the type field of a frame.
pub const DATA_TYPE_BYTES: usize = 4;

/// The number of bytes of the checksum field of a frame.
pub const CRC_BYTES: usize = 4;

/// The number of bytes of the length field of a frame.
pub const DATA_LENGTH_BYTES: usize = 4;

/// The number of bytes of a frame besides its data: length, type and
/// checksum.
pub const META_DATA_BYTES: usize = DATA_TYPE_BYTES + CRC_BYTES + DATA_LENGTH_BYTES;

/// Why bytes were refused as a chunk, or a chunk's data as text.
#[derive(Debug, PartialEq, Eq)]
pub enum ChunkError {
    /// The input is shorter than the twelve bytes that a frame without data
    /// takes. Holds the length of the input.
    DataSampleSmall(usize),
    /// The type field is no type tag.
    ParsingChunkType(ChunkTypeError),
    /// The length field announces more data than the input holds after the
    /// type field.
    TruncatedData,
    /// Fewer than four bytes follow the data, so that no checksum can be
    /// read.
    ParsingCrc,
    /// The checksum in the frame is not that of its type and data. Holds the
    /// checksum read, then the checksum computed.
    CrcNotMatching(u32, u32),
    /// The data are not well-formed UTF-8. Holds the error of the decoder.
    NotUtf8(FromUtf8Error),
}

/// What a chunk is: the bytes of its type tag, and its data.
#[verifier::ext_equal]
pub struct ChunkView {
    pub chunk_type: Seq<u8>,
    pub data: Seq<u8>,
}

/// A chunk of a PNG file.
#[derive(Debug)]
pub struct Chunk {
    chunk_type: ChunkType,
    data: Vec<u8>,
}

/// `v` can be the view of a chunk: its type is a tag, and the length of its
/// data fits the four bytes of the length field.
pub open spec fn valid_chunk(v: ChunkView) -> bool {
    &&& is_tag(v.chunk_type)
    &&& v.data.len() <= u32::MAX
}

/// The checksum of a chunk: that of its type bytes followed by its data.
pub open spec fn chunk_crc(v: ChunkView) -> u32 {
    crc32(v.chunk_type + v.data)
}

/// The frame of a chunk that carries `crc` in its checksum field.
pub open spec fn frame(v: ChunkView, crc: u32) -> Seq<u8> {
    be_bytes(v.data.len() as u32) + v.chunk_type + v.data + be_bytes(crc)
}

/// The bytes of a chunk: its frame, with its own checksum.
pub open spec fn serialize(v: ChunkView) -> Seq<u8> {
    frame(v, chunk_crc(v))
}

/// Takes the frame at the start of `bytes` apart, into a chunk and the
/// checksum that the frame carries. The checksum is not examined, and what
/// follows the frame is not looked at.
pub open spec fn parse_frame(bytes: Seq<u8>) -> Result<(ChunkView, u32), ChunkError> {
    if bytes.len() < 12 {
        Err(ChunkError::DataSampleSmall(bytes.len() as usize))
    } else {
        let length = be_value(bytes.subrange(0, 4));
        match tag_of_bytes(bytes.subrange(4, 8)) {
            Err(e) => Err(ChunkError::ParsingChunkType(e)),
            Ok(chunk_type) => if bytes.len() - 8 < length {
                Err(ChunkError::TruncatedData)
            } else if bytes.len() - 8 - length < 4 {
                Err(ChunkError::ParsingCrc)
            } else {
                Ok(
                    (
                        ChunkView { chunk_type, data: bytes.subrange(8, 8 + length) },
                        be_value(bytes.subrange(8 + length, 12 + length)) as u32,
                    ),
                )
            },
        }
    }
}

/// Accepts a chunk read from a frame when the checksum stored in the frame
/// is the checksum computed of the chunk.
pub open spec fn check_crc(v: ChunkView, stored: u32, computed: u32) -> Result<
    ChunkView,
    ChunkError,
> {
    if stored == computed {
        Ok(v)
    } else {
        Err(ChunkError::CrcNotMatching(stored, computed))
    }
}

/// Reads the chunk at the start of `bytes`: takes its frame apart, then
/// holds the checksum of the frame against that of the chunk.
pub open spec fn parse(bytes: Seq<u8>) -> Result<ChunkView, ChunkError> {
    match parse_frame(bytes) {
        Err(e) => Err(e),
        Ok((v, stored)) => check_crc(v, stored, chunk_crc(v)),
    }
}

/// The outcome of reading a chunk, with the chunk taken by its view.
pub open spec fn chunk_result(r: Result<Chunk, ChunkError>) -> Result<ChunkView, ChunkError> {
    match r {
        Ok(chunk) => Ok(chunk@),
        Err(e) => Err(e),
    }
}

/// The outcome of taking a frame apart, with the chunk taken by its view.
pub open spec fn frame_result(r: Result<(Chunk, u32), ChunkError>) -> Result<
    (ChunkView, u32),
    ChunkError,
> {
    match r {
        Ok((chunk, stored)) => Ok((chunk@, stored)),
        Err(e) => Err(e),
    }
}

impl View for Chunk {
    type V = ChunkView;

    closed spec fn view(&self) -> ChunkView {
        ChunkView { chunk_type: self.chunk_type@, data: self.data@ }
    }
}

impl Chunk {
    /// What holds of every chunk: its type is a tag, and its data are no
    /// longer than the length field of a frame can tell.
    #[verifier::type_invariant]
    pub open spec fn well_formed(&self) -> bool {
        valid_chunk(self@)
    }

    /// A chunk of the given type and data. The data must not be longer than
    /// the length field of a frame can tell.
    pub fn new(chunk_type: ChunkType, data: Vec<u8>) -> (chunk: Chunk)
        requires
            data@.len() <= u32::MAX,
        ensures
            chunk@ == (ChunkView { chunk_type: chunk_type@, data: data@ }),
            valid_chunk(chunk@),
    {
        proof {
            use_type_invariant(&chunk_type);
        }
        Chunk { chunk_type, data }
    }

    /// The number of bytes of data.
    pub fn length(&self) -> (n: u32)
        ensures
            n == self@.data.len(),
    {
        proof {
            use_type_invariant(self);
        }
        self.data.len() as u32
    }

    /// The type of the chunk.
    pub fn chunk_type(&self) -> (chunk_type: &ChunkType)
        ensures
            chunk_type@ == self@.chunk_type,
    {
        &self.chunk_type
    }

    /// The data of the chunk.
    pub fn data(&self) -> (data: &[u8])
        ensures
            data@ == self@.data,
    {
        self.data.as_slice()
    }

    /// The data of the chunk as text, when they are well-formed UTF-8.
    pub fn data_as_string(&self) -> (r: Result<String, ChunkError>)
        ensures
            match r {
                Ok(s) => valid_utf8(self@.data) && s@ == decode_utf8(self@.data),
                Err(e) => !valid_utf8(self@.data) && e is NotUtf8,
            },
    {
        match string_from_utf8(slice_to_vec(self.data.as_slice())) {
            Ok(s) => {
                proof {
                    encode_utf8_decode_utf8(s@);
                }
                Ok(s)
            },
            Err(e) => Err(ChunkError::NotUtf8(e)),
        }
    }

    /// The checksum of the chunk, computed of its type and data as they are
    /// now.
    pub fn crc(&self) -> (sum: u32)
        ensures
            sum == chunk_crc(self@),
    {
        let tag = self.chunk_type.bytes();
        let mut covered: Vec<u8> = Vec::new();
        covered.push(tag[0]);
        covered.push(tag[1]);
        covered.push(tag[2]);
        covered.push(tag[3]);
        covered.extend_from_slice(self.data.as_slice());
        assert(covered@ =~= self@.chunk_type + self@.data);
        crc32_of(covered.as_slice())
    }

    /// The frame of the chunk with `crc` in its checksum field.
    pub fn to_frame(&self, crc: u32) -> (bytes: Vec<u8>)
        ensures
            bytes@ == frame(self@, crc),
    {
        let length = u32_to_be_bytes(self.length());
        let tag = self.chunk_type.bytes();
        let sum = u32_to_be_bytes(crc);
        let mut bytes: Vec<u8> = Vec::new();
        bytes.push(length[0]);
        bytes.push(length[1]);
        bytes.push(length[2]);
        bytes.push(length[3]);
        bytes.push(tag[0]);
        bytes.push(tag[1]);
        bytes.push(tag[2]);
        bytes.push(tag[3]);
        bytes.extend_from_slice(self.data.as_slice());
        bytes.push(sum[0]);
        bytes.push(sum[1]);
        bytes.push(sum[2]);
        bytes.push(sum[3]);
        assert(bytes@ =~= frame(self@, crc));
        bytes
    }

    /// The bytes of the chunk: its frame, with the checksum computed afresh.
    pub fn as_bytes(&self) -> (bytes: Vec<u8>)
        ensures
            bytes@ == serialize(self@),
    {
        self.to_frame(self.crc())
    }

    /// Takes the frame at the start of `value` apart, into the chunk and the
    /// checksum that the frame carries, without examining the checksum.
    pub fn from_frame(value: &[u8]) -> (r: Result<(Chunk, u32), ChunkError>)
        ensures
            frame_result(r) == parse_frame(value@),
    {
        let len = value.len();
        if len < META_DATA_BYTES {
            return Err(ChunkError::DataSampleSmall(len));
        }
        let length_field: [u8; 4] = [value[0], value[1], value[2], value[3]];
        assert(length_field@ =~= value@.subrange(0, 4));
        let data_length = u32_from_be_bytes(length_field) as usize;

        let type_field: [u8; 4] = [value[4], value[5], value[6], value[7]];
        assert(type_field@ =~= value@.subrange(4, 8));
        let chunk_type = match ChunkType::try_from(type_field) {
            Ok(chunk_type) => chunk_type,
            Err(e) => {
                return Err(ChunkError::ParsingChunkType(e));
            },
        };

        let data_start = DATA_LENGTH_BYTES + DATA_TYPE_BYTES;
        if len - data_start < data_length {
            return Err(ChunkError::TruncatedData);
        }
        let data_end = data_start + data_length;
        if len - data_end < CRC_BYTES {
            return Err(ChunkError::ParsingCrc);
        }
        let data = slice_to_vec(slice_subrange(value, data_start, data_end));

        let crc_field: [u8; 4] = [
            value[data_end],
            value[data_end + 1],
            value[data_end + 2],
            value[data_end + 3],
        ];
        assert(crc_field@ =~= value@.subrange(data_end as int, data_end + 4));
        let stored = u32_from_be_bytes(crc_field);

        Ok((Chunk { chunk_type, data }, stored))
    }

    /// Accepts the chunk when the checksum `stored` in its frame is the
    /// checksum `computed` of it, and refuses it with both when they differ.
    pub fn check_crc(self, stored: u32, computed: u32) -> (r: Result<Chunk, ChunkError>)
        ensures
            chunk_result(r) == check_crc(self@, stored, computed),
    {
        if stored != computed {
            return Err(ChunkError::CrcNotMatching(stored, computed));
        }
        Ok(self)
    }
}

impl TryFromSpecImpl<&[u8]> for Chunk {
    /// A chunk owns its data, and so is more than its view: no spec function
    /// can name the very chunk that `try_from` returns. What it returns is
    /// stated by its own `ensures`, over the view.
    open spec fn obeys_try_from_spec() -> bool {
        false
    }

    open spec fn try_from_spec(value: &[u8]) -> Result<Self, ChunkError> {
        match parse(value@) {
            Err(e) => Err(e),
            Ok(v) => Ok(choose|chunk: Chunk| chunk@ == v),
        }
    }
}

impl TryFrom<&[u8]> for Chunk {
    type Error = ChunkError;

    /// Reads the chunk at the start of `value`. The bytes that follow its
    /// frame are left alone: they belong to the next chunk.
    fn try_from(value: &[u8]) -> (r: Result<Self, ChunkError>)
        ensures
            chunk_result(r) == parse(value@),
    {
        match Chunk::from_frame(value) {
            Err(e) => Err(e),
            Ok((chunk, stored)) => {
                let computed = chunk.crc();
                chunk.check_crc(stored, computed)
            },
        }
    }
}

/// A chunk that is written and read again is the same chunk: it has the
/// same type, the same data, and so the same checksum. Its bytes are twelve
/// more than its data.
pub proof fn lemma_parse_serialize(v: ChunkView)
    requires
        valid_chunk(v),
    ensures
        serialize(v).len() == 12 + v.data.len(),
        parse(serialize(v)) == Ok::<ChunkView, ChunkError>(v),
        chunk_crc(parse(serialize(v))->Ok_0) == chunk_crc(v),
{
    lemma_frame_round_trip(v, chunk_crc(v));
}

/// A frame is taken apart into the chunk and the checksum that it was made
/// of.
pub proof fn lemma_frame_round_trip(v: ChunkView, crc: u32)
    requires
        valid_chunk(v),
    ensures
        frame(v, crc).len() == 12 + v.data.len(),
        parse_frame(frame(v, crc)) == Ok::<(ChunkView, u32), ChunkError>((v, crc)),
{
    let bytes = frame(v, crc);
    let n = v.data.len() as u32;
    lemma_be_value_of_bytes(n);
    lemma_be_value_of_bytes(crc);
    assert(bytes.subrange(0, 4) =~= be_bytes(n));
    assert(bytes.subrange(4, 8) =~= v.chunk_type);
    assert(bytes.subrange(8, 8 + n) =~= v.data);
    assert(bytes.subrange(8 + n, 12 + n) =~= be_bytes(crc));
}

/// The bytes that follow a frame play no part in reading it: with a frame
/// at its start, a longer input is read as that frame alone is.
pub proof fn lemma_parse_ignores_rest(bytes: Seq<u8>, rest: Seq<u8>)
    requires
        parse_frame(bytes) is Ok,
    ensures
        parse_frame(bytes + rest) == parse_frame(bytes),
        parse(bytes + rest) == parse(bytes),
{
    let all = bytes + rest;
    let n = be_value(bytes.subrange(0, 4));
    assert(all.subrange(0, 4) =~= bytes.subrange(0, 4));
    assert(all.subrange(4, 8) =~= bytes.subrange(4, 8));
    assert(all.subrange(8, 8 + n) =~= bytes.subrange(8, 8 + n));
    assert(all.subrange(8 + n, 12 + n) =~= bytes.subrange(8 + n, 12 + n));
}

/// The bytes that a frame was taken apart from begin with that very frame:
/// what is read is a chunk, and putting it together again gives the bytes
/// that were read.
pub proof fn lemma_frame_of_parsed(bytes: Seq<u8>)
    requires
        parse_frame(bytes) is Ok,
    ensures
        ({
            let (v, stored) = parse_frame(bytes)->Ok_0;
            &&& valid_chunk(v)
            &&& 12 + v.data.len() <= bytes.len()
            &&& frame(v, stored) == bytes.subrange(0, 12 + v.data.len() as int)
        }),
{
    let (v, stored) = parse_frame(bytes)->Ok_0;
    let n = be_value(bytes.subrange(0, 4));
    lemma_tag_or_invalid_byte(bytes.subrange(4, 8));
    lemma_be_bytes_of_value(bytes.subrange(0, 4));
    lemma_be_bytes_of_value(bytes.subrange(8 + n, 12 + n));
    assert(frame(v, stored) =~= bytes.subrange(0, 12 + n));
}

/// The bytes that a chunk was read from begin with the bytes of that chunk:
/// reading takes exactly one frame, and writing gives that frame back.
pub proof fn lemma_serialize_parse(bytes: Seq<u8>)
    ensures
        parse(bytes) matches Ok(v) ==> {
            &&& valid_chunk(v)
            &&& 12 + v.data.len() <= bytes.len()
            &&& serialize(v) == bytes.subrange(0, 12 + v.data.len() as int)
        },
{
    if parse(bytes) is Ok {
        lemma_frame_of_parsed(bytes);
    }
}

/// The checksum of a chunk is determined by its type and its data.
pub proof fn lemma_crc_deterministic(a: ChunkView, b: ChunkView)
    requires
        a.chunk_type == b.chunk_type,
        a.data == b.data,
    ensures
        chunk_crc(a) == chunk_crc(b),
        serialize(a) == serialize(b),
{
}

} // verus!
