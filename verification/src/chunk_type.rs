//! The type tag of a chunk: four ASCII letters, each of which carries one
//! property bit in its case.
use crate::text::{ascii_text, lemma_ascii_is_utf8, string_from_utf8};
use std::str::FromStr;
use vstd::prelude::*;
use vstd::std_specs::cmp::PartialEqSpecImpl;
use vstd::std_specs::convert::TryFromSpecImpl;
use vstd::string::StringSliceAdditionalSpecFns;
use vstd::utf8::*;

verus! {

/// `b` is an ASCII letter, `A`–`Z` or `a`–`z`.
pub open spec fn is_ascii_letter(b: u8) -> bool {
    (0x41 <= b <= 0x5A) || (0x61 <= b <= 0x7A)
}

/// `bytes` can be the bytes of a type tag: four ASCII letters.
pub open spec fn is_tag(bytes: Seq<u8>) -> bool {
    &&& bytes.len() == 4
    &&& forall|i: int| 0 <= i < 4 ==> is_ascii_letter(#[trigger] bytes[i])
}

/// The first of four bytes that is no ASCII letter, if there is one.
pub open spec fn first_non_letter(bytes: Seq<u8>) -> Option<u8>
    recommends
        bytes.len() == 4,
{
    if !is_ascii_letter(bytes[0]) {
        Some(bytes[0])
    } else if !is_ascii_letter(bytes[1]) {
        Some(bytes[1])
    } else if !is_ascii_letter(bytes[2]) {
        Some(bytes[2])
    } else if !is_ascii_letter(bytes[3]) {
        Some(bytes[3])
    } else {
        None
    }
}

/// Bit 5 (`0x20`) of `b` is set. In a tag, this is the bit that carries a
/// property.
pub open spec fn property_bit(b: u8) -> bool {
    b & 0x20 == 0x20
}

/// What four bytes give when taken as a tag: the bytes themselves, or the
/// first byte that rules them out.
pub open spec fn tag_of_bytes(bytes: Seq<u8>) -> Result<Seq<u8>, ChunkTypeError>
    recommends
        bytes.len() == 4,
{
    match first_non_letter(bytes) {
        Some(b) => Err(ChunkTypeError::InvalidByte(b)),
        None => Ok(bytes),
    }
}

/// What the UTF-8 bytes of a text give when the text is taken as a tag.
pub open spec fn tag_of_text(bytes: Seq<u8>) -> Result<Seq<u8>, ChunkTypeError> {
    if bytes.len() != 4 {
        Err(ChunkTypeError::WrongLength)
    } else {
        tag_of_bytes(bytes)
    }
}

/// The outcome of making a tag, with the tag taken by its view.
pub open spec fn tag_result(r: Result<ChunkType, ChunkTypeError>) -> Result<
    Seq<u8>,
    ChunkTypeError,
> {
    match r {
        Ok(tag) => Ok(tag@),
        Err(e) => Err(e),
    }
}

/// Why bytes or a text were refused as a type tag.
#[derive(Debug, Clone, Copy, PartialEq, Eq, Structural)]
pub enum ChunkTypeError {
    /// A byte is no ASCII letter. Holds the first such byte.
    InvalidByte(u8),
    /// A text does not take exactly four bytes.
    WrongLength,
}

/// The type tag of a chunk. Its view is its four bytes.
#[derive(Debug)]
pub struct ChunkType {
    bytes: [u8; 4],
}

impl View for ChunkType {
    type V = Seq<u8>;

    closed spec fn view(&self) -> Seq<u8> {
        self.bytes@
    }
}

impl ChunkType {
    /// What holds of every tag: its bytes are four ASCII letters.
    #[verifier::type_invariant]
    pub open spec fn well_formed(&self) -> bool {
        is_tag(self@)
    }

    /// The tag is critical: the property bit of its first byte is clear.
    pub open spec fn spec_is_critical(&self) -> bool {
        !property_bit(self@[0])
    }

    /// The tag is public in this library's sense: the property bit of its
    /// second byte is clear.
    pub open spec fn spec_is_public(&self) -> bool {
        !property_bit(self@[1])
    }

    /// The reserved bit, the property bit of the third byte, is clear.
    pub open spec fn spec_is_reserved_bit_valid(&self) -> bool {
        !property_bit(self@[2])
    }

    /// The tag is safe to copy: the property bit of its fourth byte is set.
    pub open spec fn spec_is_safe_to_copy(&self) -> bool {
        property_bit(self@[3])
    }

    /// The four bytes of the tag.
    pub fn bytes(&self) -> (bytes: [u8; 4])
        ensures
            bytes@ == self@,
            is_tag(bytes@),
    {
        proof {
            use_type_invariant(self);
        }
        self.bytes
    }

    /// Whether the chunk is critical rather than ancillary.
    pub fn is_critical(&self) -> (b: bool)
        ensures
            b == self.spec_is_critical(),
    {
        let first = self.bytes[0];
        proof {
            lemma_property_bit_mask(first);
        }
        first & 0x20 == 0
    }

    /// Whether the chunk is public. The second byte's bit is read the other
    /// way round than its name in the PNG format suggests: a clear bit
    /// counts as public.
    pub fn is_public(&self) -> (b: bool)
        ensures
            b == self.spec_is_public(),
    {
        let second = self.bytes[1];
        proof {
            lemma_property_bit_mask(second);
        }
        second & 0x20 == 0
    }

    /// Whether the reserved bit is as the format requires it: clear.
    pub fn is_reserved_bit_valid(&self) -> (b: bool)
        ensures
            b == self.spec_is_reserved_bit_valid(),
    {
        let third = self.bytes[2];
        proof {
            lemma_property_bit_mask(third);
        }
        third & 0x20 == 0
    }

    /// Whether the chunk may be copied by an editor that does not know it.
    pub fn is_safe_to_copy(&self) -> (b: bool)
        ensures
            b == self.spec_is_safe_to_copy(),
    {
        let fourth = self.bytes[3];
        proof {
            lemma_property_bit_mask(fourth);
        }
        fourth & 0x20 != 0
    }

    /// Whether the tag is valid. Its bytes are letters by construction, so
    /// this asks for the reserved bit alone.
    pub fn is_valid(&self) -> (b: bool)
        ensures
            b == self.spec_is_reserved_bit_valid(),
    {
        self.is_reserved_bit_valid()
    }

    /// The tag as text: its four letters, case kept.
    pub fn to_string(&self) -> (s: String)
        ensures
            s@ == ascii_text(self@),
            s@.len() == 4,
    {
        proof {
            use_type_invariant(self);
            lemma_ascii_is_utf8(self.bytes@);
        }
        let mut letters: Vec<u8> = Vec::new();
        letters.push(self.bytes[0]);
        letters.push(self.bytes[1]);
        letters.push(self.bytes[2]);
        letters.push(self.bytes[3]);
        assert(letters@ =~= self.bytes@);
        match string_from_utf8(letters) {
            Ok(s) => {
                proof {
                    encode_utf8_decode_utf8(s@);
                }
                s
            },
            Err(_) => vstd::pervasive::unreached(),
        }
    }
}

impl PartialEq for ChunkType {
    /// Two tags are equal when their bytes are.
    fn eq(&self, other: &Self) -> (r: bool) {
        proof {
            if self.bytes@[0] == other.bytes@[0] && self.bytes@[1] == other.bytes@[1]
                && self.bytes@[2] == other.bytes@[2] && self.bytes@[3] == other.bytes@[3] {
                assert(self.bytes@ =~= other.bytes@);
            }
        }
        self.bytes[0] == other.bytes[0] && self.bytes[1] == other.bytes[1] && self.bytes[2]
            == other.bytes[2] && self.bytes[3] == other.bytes[3]
    }
}

impl Eq for ChunkType {

}

impl PartialEqSpecImpl for ChunkType {
    open spec fn obeys_eq_spec() -> bool {
        true
    }

    open spec fn eq_spec(&self, other: &Self) -> bool {
        self@ == other@
    }
}

impl TryFromSpecImpl<[u8; 4]> for ChunkType {
    open spec fn obeys_try_from_spec() -> bool {
        true
    }

    closed spec fn try_from_spec(value: [u8; 4]) -> Result<Self, ChunkTypeError> {
        match first_non_letter(value@) {
            Some(b) => Err(ChunkTypeError::InvalidByte(b)),
            None => Ok(ChunkType { bytes: value }),
        }
    }
}

impl TryFrom<[u8; 4]> for ChunkType {
    type Error = ChunkTypeError;

    /// Makes a tag of four bytes. Succeeds when all four are ASCII letters,
    /// and else names the first that is not.
    fn try_from(value: [u8; 4]) -> (r: Result<Self, ChunkTypeError>)
        ensures
            tag_result(r) == tag_of_bytes(value@),
    {
        let mut i: usize = 0;
        while i < 4
            invariant
                i <= 4,
                forall|j: int| 0 <= j < i ==> is_ascii_letter(#[trigger] value@[j]),
            decreases 4 - i,
        {
            let b = value[i];
            if b < 65 || (b >= 91 && b <= 96) || b > 122 {
                return Err(ChunkTypeError::InvalidByte(b));
            }
            i += 1;
        }
        Ok(ChunkType { bytes: value })
    }
}

impl FromStr for ChunkType {
    type Err = ChunkTypeError;

    /// Makes a tag of a text. The text must take exactly four bytes in
    /// UTF-8, and each must be an ASCII letter: so it is four letters.
    fn from_str(s: &str) -> (r: Result<Self, ChunkTypeError>)
        ensures
            tag_result(r) == tag_of_text(s.spec_bytes()),
    {
        if s.len() != 4 {
            return Err(ChunkTypeError::WrongLength);
        }
        let text = s.as_bytes();
        let bytes: [u8; 4] = [text[0], text[1], text[2], text[3]];
        assert(bytes@ =~= s.spec_bytes());
        ChunkType::try_from(bytes)
    }
}

/// Masking a byte with `0x20` leaves either nothing or the bit itself.
proof fn lemma_property_bit_mask(b: u8)
    ensures
        (b & 0x20 == 0) != property_bit(b),
{
    assert(b & 0x20 == 0 || b & 0x20 == 0x20) by (bit_vector);
}

/// In a letter, the property bit is its case: set in a lower-case letter,
/// clear in an upper-case one.
pub proof fn lemma_property_bit_is_case(b: u8)
    requires
        is_ascii_letter(b),
    ensures
        property_bit(b) <==> 0x61 <= b <= 0x7A,
{
    assert(((0x41 <= b && b <= 0x5A) || (0x61 <= b && b <= 0x7A)) ==> (b & 0x20 == 0x20 <==> (0x61
        <= b && b <= 0x7A))) by (bit_vector);
}

/// Four letters make a tag, and the tag holds those four bytes.
pub proof fn lemma_letters_make_a_tag(bytes: Seq<u8>)
    requires
        is_tag(bytes),
    ensures
        tag_of_bytes(bytes) == Ok::<Seq<u8>, ChunkTypeError>(bytes),
{
}

/// Four bytes of which one is no letter make no tag: they are refused with
/// an invalid byte, which is the first of them that is no letter.
pub proof fn lemma_other_bytes_make_no_tag(bytes: Seq<u8>, i: int)
    requires
        bytes.len() == 4,
        0 <= i < 4,
        !is_ascii_letter(bytes[i]),
    ensures
        tag_of_bytes(bytes) matches Err(ChunkTypeError::InvalidByte(b)) && !is_ascii_letter(b)
            && exists|j: int|
            0 <= j <= i && #[trigger] bytes[j] == b && forall|k: int|
                0 <= k < j ==> is_ascii_letter(#[trigger] bytes[k]),
{
    let j: int = if !is_ascii_letter(bytes[0]) {
        0
    } else if !is_ascii_letter(bytes[1]) {
        1
    } else if !is_ascii_letter(bytes[2]) {
        2
    } else {
        3
    };
    assert(bytes[j] == first_non_letter(bytes)->0);
}

/// Bytes are either accepted as a tag or refused with an invalid byte, and
/// they are accepted exactly when they are four letters.
pub proof fn lemma_tag_or_invalid_byte(bytes: Seq<u8>)
    requires
        bytes.len() == 4,
    ensures
        tag_of_bytes(bytes) is Ok <==> is_tag(bytes),
        tag_of_bytes(bytes) matches Err(e) ==> e is InvalidByte,
{
    if first_non_letter(bytes) is None {
        assert(is_tag(bytes));
    }
}

/// The text of a tag reads back as the same tag.
pub proof fn lemma_text_round_trip(bytes: Seq<u8>)
    requires
        is_tag(bytes),
    ensures
        encode_utf8(ascii_text(bytes)) == bytes,
        tag_of_text(encode_utf8(ascii_text(bytes))) == Ok::<Seq<u8>, ChunkTypeError>(bytes),
{
    lemma_ascii_is_utf8(bytes);
}

} // verus!
