use pngme::chunk::{Chunk, ChunkError, DATA_LENGTH_BYTES, META_DATA_BYTES};
use pngme::chunk_type::{ChunkType, ChunkTypeError};
use std::str::FromStr;

fn testing_chunk() -> Chunk {
    let data_length: u32 = 42;
    let chunk_type = "RuSt".as_bytes();
    let message_bytes = "This is where your secret message will be!".as_bytes();
    let crc: u32 = 2882656334;

    let chunk_data: Vec<u8> = data_length
        .to_be_bytes()
        .iter()
        .chain(chunk_type.iter())
        .chain(message_bytes.iter())
        .chain(crc.to_be_bytes().iter())
        .copied()
        .collect();

    Chunk::try_from(chunk_data.as_ref()).unwrap()
}

fn frame_of(length: u32, chunk_type: &[u8], data: &[u8], crc: u32) -> Vec<u8> {
    length
        .to_be_bytes()
        .iter()
        .chain(chunk_type.iter())
        .chain(data.iter())
        .chain(crc.to_be_bytes().iter())
        .copied()
        .collect()
}

#[test]
fn test_new_chunk() {
    let chunk_type = ChunkType::from_str("RuSt").unwrap();
    let data = "This is where your secret message will be!"
        .as_bytes()
        .to_vec();
    let chunk = Chunk::new(chunk_type, data);
    assert_eq!(chunk.length(), 42);
    assert_eq!(chunk.crc(), 2882656334);
}

#[test]
fn test_chunk_length() {
    let chunk = testing_chunk();
    assert_eq!(chunk.length(), 42);
}

#[test]
fn test_chunk_type() {
    let chunk = testing_chunk();
    assert_eq!(chunk.chunk_type().to_string(), String::from("RuSt"));
}

#[test]
fn test_chunk_string() {
    let chunk = testing_chunk();
    let chunk_string = chunk.data_as_string().unwrap();
    let expected_chunk_string = String::from("This is where your secret message will be!");
    assert_eq!(chunk_string, expected_chunk_string);
}

#[test]
fn test_chunk_crc() {
    let chunk = testing_chunk();
    assert_eq!(chunk.crc(), 2882656334);
}

#[test]
fn test_valid_chunk_from_bytes() {
    let data_length: u32 = 42;
    let chunk_type = "RuSt".as_bytes();
    let message_bytes = "This is where your secret message will be!".as_bytes();
    let crc: u32 = 2882656334;

    let chunk_data: Vec<u8> = data_length
        .to_be_bytes()
        .iter()
        .chain(chunk_type.iter())
        .chain(message_bytes.iter())
        .chain(crc.to_be_bytes().iter())
        .copied()
        .collect();

    let chunk = Chunk::try_from(chunk_data.as_ref()).unwrap();

    let chunk_string = chunk.data_as_string().unwrap();
    let expected_chunk_string = String::from("This is where your secret message will be!");

    assert_eq!(chunk.length(), 42);
    assert_eq!(chunk.chunk_type().to_string(), String::from("RuSt"));
    assert_eq!(chunk_string, expected_chunk_string);
    assert_eq!(chunk.crc(), 2882656334);
}

#[test]
fn test_invalid_chunk_from_bytes() {
    let data_length: u32 = 42;
    let chunk_type = "RuSt".as_bytes();
    let message_bytes = "This is where your secret message will be!".as_bytes();
    let crc: u32 = 2882656333;

    let chunk_data: Vec<u8> = data_length
        .to_be_bytes()
        .iter()
        .chain(chunk_type.iter())
        .chain(message_bytes.iter())
        .chain(crc.to_be_bytes().iter())
        .copied()
        .collect();

    let chunk = Chunk::try_from(chunk_data.as_ref());

    assert!(chunk.is_err());
}

#[test]
pub fn test_chunk_trait_impls() {
    let data_length: u32 = 42;
    let chunk_type = "RuSt".as_bytes();
    let message_bytes = "This is where your secret message will be!".as_bytes();
    let crc: u32 = 2882656334;

    let chunk_data: Vec<u8> = data_length
        .to_be_bytes()
        .iter()
        .chain(chunk_type.iter())
        .chain(message_bytes.iter())
        .chain(crc.to_be_bytes().iter())
        .copied()
        .collect();

    let chunk: Chunk = TryFrom::try_from(chunk_data.as_ref()).unwrap();

    let _chunk_string = format!("{:?}", chunk);
}

#[test]
fn the_frame_sizes_are_those_of_the_format() {
    assert_eq!(DATA_LENGTH_BYTES, 4);
    assert_eq!(META_DATA_BYTES, 12);
}

#[test]
fn a_frame_of_fifty_four_bytes_is_read() {
    let message = "This is where your secret message will be!";
    let bytes = frame_of(42, &[82, 117, 83, 116], message.as_bytes(), 2882656334);
    assert_eq!(bytes.len(), 54);
    let chunk = Chunk::try_from(bytes.as_slice()).unwrap();
    assert_eq!(chunk.length(), 42);
    assert_eq!(chunk.chunk_type().bytes(), [82, 117, 83, 116]);
    assert_eq!(chunk.data(), message.as_bytes());
    assert_eq!(chunk.crc(), 2882656334);
}

#[test]
fn a_checksum_off_by_one_is_reported_with_both_values() {
    let message = "This is where your secret message will be!";
    let bytes = frame_of(42, b"RuSt", message.as_bytes(), 2882656333);
    assert_eq!(
        Chunk::try_from(bytes.as_slice()).unwrap_err(),
        ChunkError::CrcNotMatching(2882656333, 2882656334)
    );
}

#[test]
fn eleven_bytes_are_too_few() {
    let bytes = [0u8; 11];
    assert_eq!(Chunk::try_from(&bytes[..]).unwrap_err(), ChunkError::DataSampleSmall(11));
    assert_eq!(Chunk::try_from(&bytes[..0]).unwrap_err(), ChunkError::DataSampleSmall(0));
    assert_eq!(Chunk::from_frame(&bytes[..7]).unwrap_err(), ChunkError::DataSampleSmall(7));
}

#[test]
fn twelve_bytes_hold_a_chunk_without_data() {
    let bytes = frame_of(0, b"RuSt", &[], 3565422908);
    assert_eq!(bytes.len(), 12);
    let chunk = Chunk::try_from(bytes.as_slice()).unwrap();
    assert_eq!(chunk.length(), 0);
    assert!(chunk.data().is_empty());
    assert_eq!(chunk.chunk_type().to_string(), "RuSt");
    assert_eq!(chunk.crc(), 3565422908);
}

#[test]
fn the_end_chunk_of_every_png_file_is_read() {
    let bytes = [0, 0, 0, 0, 0x49, 0x45, 0x4E, 0x44, 0xAE, 0x42, 0x60, 0x82];
    let chunk = Chunk::try_from(&bytes[..]).unwrap();
    assert_eq!(chunk.chunk_type().to_string(), "IEND");
    assert_eq!(chunk.crc(), 0xAE426082);
    assert_eq!(chunk.as_bytes(), bytes);
}

#[test]
fn a_type_field_that_is_no_tag_is_reported() {
    let bytes = frame_of(0, b"Ru1t", &[], 0);
    assert_eq!(
        Chunk::try_from(bytes.as_slice()).unwrap_err(),
        ChunkError::ParsingChunkType(ChunkTypeError::InvalidByte(b'1'))
    );
    // the type is looked at before the length is held against the input
    let bytes = frame_of(1000, &[0, 1, 2, 3], &[], 0);
    assert_eq!(
        Chunk::try_from(bytes.as_slice()).unwrap_err(),
        ChunkError::ParsingChunkType(ChunkTypeError::InvalidByte(0))
    );
}

#[test]
fn a_tag_with_the_reserved_bit_set_is_still_read() {
    let bytes = frame_of(0, b"Rust", &[], 1090530718);
    let chunk = Chunk::try_from(bytes.as_slice()).unwrap();
    assert!(!chunk.chunk_type().is_valid());
    assert_eq!(chunk.chunk_type().to_string(), "Rust");
}

#[test]
fn a_length_beyond_the_input_is_reported() {
    // five bytes are announced, four follow the type
    let bytes = frame_of(5, b"RuSt", &[], 0);
    assert_eq!(Chunk::try_from(bytes.as_slice()).unwrap_err(), ChunkError::TruncatedData);
    let bytes = frame_of(u32::MAX, b"RuSt", &[1, 2, 3], 0);
    assert_eq!(Chunk::try_from(bytes.as_slice()).unwrap_err(), ChunkError::TruncatedData);
}

#[test]
fn a_checksum_field_cut_short_is_reported() {
    // one byte of data is announced: it takes the first of the last four
    // bytes, and three are left for the checksum
    let bytes = frame_of(1, b"RuSt", &[], 0);
    assert_eq!(Chunk::try_from(bytes.as_slice()).unwrap_err(), ChunkError::ParsingCrc);
    // the input ends with the data
    let bytes = frame_of(4, b"RuSt", &[], 0);
    assert_eq!(Chunk::try_from(bytes.as_slice()).unwrap_err(), ChunkError::ParsingCrc);
}

#[test]
fn what_follows_a_frame_is_left_alone() {
    let mut bytes = frame_of(2, b"RuSt", b"ab", 2494324146);
    let alone = Chunk::try_from(bytes.as_slice()).unwrap();
    bytes.extend_from_slice(&[0xDE, 0xAD, 0xBE, 0xEF, 1, 2, 3]);
    let followed = Chunk::try_from(bytes.as_slice()).unwrap();
    assert_eq!(followed.data(), alone.data());
    assert_eq!(followed.chunk_type(), alone.chunk_type());
    assert_eq!(followed.as_bytes(), &bytes[..14]);
}

#[test]
fn two_chunks_in_a_row_are_read_one_after_the_other() {
    let first = Chunk::new(ChunkType::from_str("RuSt").unwrap(), b"one".to_vec());
    let second = Chunk::new(ChunkType::from_str("ruSt").unwrap(), b"second".to_vec());
    let mut stream = first.as_bytes();
    stream.extend_from_slice(&second.as_bytes());

    let a = Chunk::try_from(stream.as_slice()).unwrap();
    let next = META_DATA_BYTES + a.length() as usize;
    let b = Chunk::try_from(&stream[next..]).unwrap();
    assert_eq!(a.data(), b"one");
    assert_eq!(b.data(), b"second");
    assert_eq!(b.chunk_type().to_string(), "ruSt");
    assert_eq!(next + META_DATA_BYTES + b.length() as usize, stream.len());
}

#[test]
fn the_bytes_of_a_chunk_are_its_four_fields() {
    let chunk = Chunk::new(ChunkType::from_str("RuSt").unwrap(), b"ab".to_vec());
    assert_eq!(
        chunk.as_bytes(),
        vec![0, 0, 0, 2, 82, 117, 83, 116, 97, 98, 148, 172, 93, 178]
    );
    let message = "This is where your secret message will be!";
    let chunk = Chunk::new(ChunkType::from_str("RuSt").unwrap(), message.as_bytes().to_vec());
    let bytes = chunk.as_bytes();
    assert_eq!(bytes.len(), 54);
    assert_eq!(&bytes[..4], &[0, 0, 0, 42]);
    assert_eq!(&bytes[4..8], b"RuSt");
    assert_eq!(&bytes[8..50], message.as_bytes());
    assert_eq!(&bytes[50..], &[171, 209, 216, 78]);
}

#[test]
fn a_frame_carries_the_checksum_it_is_given() {
    let chunk = Chunk::new(ChunkType::from_str("RuSt").unwrap(), vec![7, 8, 9]);
    assert_eq!(
        chunk.to_frame(0x01020304),
        vec![0, 0, 0, 3, 82, 117, 83, 116, 7, 8, 9, 1, 2, 3, 4]
    );
    assert_eq!(chunk.to_frame(chunk.crc()), chunk.as_bytes());
}

#[test]
fn a_frame_is_taken_apart_without_a_look_at_its_checksum() {
    let bytes = [0, 0, 0, 3, 82, 117, 83, 116, 7, 8, 9, 1, 2, 3, 4, 99];
    let (chunk, stored) = Chunk::from_frame(&bytes).unwrap();
    assert_eq!(stored, 0x01020304);
    assert_eq!(chunk.length(), 3);
    assert_eq!(chunk.data(), &[7, 8, 9]);
    assert_eq!(chunk.chunk_type().bytes(), *b"RuSt");
    // the checksum in those bytes is not the right one
    assert!(Chunk::try_from(&bytes[..]).is_err());
}

#[test]
fn a_chunk_is_accepted_when_the_checksums_agree() {
    let chunk = Chunk::new(ChunkType::from_str("RuSt").unwrap(), vec![1]);
    let accepted = chunk.check_crc(17, 17).unwrap();
    assert_eq!(accepted.data(), &[1]);
    assert_eq!(accepted.chunk_type().to_string(), "RuSt");

    let chunk = Chunk::new(ChunkType::from_str("RuSt").unwrap(), vec![1]);
    assert_eq!(chunk.check_crc(17, 18).unwrap_err(), ChunkError::CrcNotMatching(17, 18));
    let chunk = Chunk::new(ChunkType::from_str("RuSt").unwrap(), vec![1]);
    assert_eq!(chunk.check_crc(18, 17).unwrap_err(), ChunkError::CrcNotMatching(18, 17));
}

#[test]
fn a_chunk_written_and_read_again_is_the_same() {
    let samples: [(&str, Vec<u8>); 5] = [
        ("RuSt", vec![]),
        ("ruSt", vec![0]),
        ("IDAT", (0..=255u8).collect()),
        ("tEXt", b"Title\0A picture".to_vec()),
        ("Rust", vec![0xFF; 1000]),
    ];
    for (name, data) in samples {
        let chunk = Chunk::new(ChunkType::from_str(name).unwrap(), data.clone());
        let bytes = chunk.as_bytes();
        assert_eq!(bytes.len(), 12 + data.len());
        let read = Chunk::try_from(bytes.as_slice()).unwrap();
        assert_eq!(read.chunk_type().bytes(), chunk.chunk_type().bytes());
        assert_eq!(read.data(), chunk.data());
        assert_eq!(read.length(), chunk.length());
        assert_eq!(read.crc(), chunk.crc());
        assert_eq!(read.as_bytes(), bytes);
    }
}

#[test]
fn equal_chunks_have_equal_checksums() {
    let a = Chunk::new(ChunkType::from_str("RuSt").unwrap(), b"same".to_vec());
    let b = Chunk::new(ChunkType::try_from(*b"RuSt").unwrap(), vec![b's', b'a', b'm', b'e']);
    assert_eq!(a.crc(), b.crc());
    assert_eq!(a.crc(), a.crc());
    assert_eq!(a.as_bytes(), b.as_bytes());
}

#[test]
fn another_byte_gives_another_checksum() {
    let a = Chunk::new(
        ChunkType::from_str("RuSt").unwrap(),
        b"This is where your secret message will be!".to_vec(),
    );
    let b = Chunk::new(
        ChunkType::from_str("RuSt").unwrap(),
        b"This is where your secret message will be?".to_vec(),
    );
    assert_eq!(a.crc(), 2882656334);
    assert_eq!(b.crc(), 1373562157);
    // the type is under the checksum too
    let c = Chunk::new(ChunkType::from_str("RuSt").unwrap(), vec![]);
    let d = Chunk::new(ChunkType::from_str("Rust").unwrap(), vec![]);
    assert_eq!(c.crc(), 3565422908);
    assert_eq!(d.crc(), 1090530718);
}

#[test]
fn data_that_are_no_text_are_reported() {
    let bytes = frame_of(2, b"ruSt", &[0xFF, 0xFE], 2239438975);
    let chunk = Chunk::try_from(bytes.as_slice()).unwrap();
    assert_eq!(chunk.data(), &[0xFF, 0xFE]);
    match chunk.data_as_string() {
        Err(ChunkError::NotUtf8(e)) => assert_eq!(e.into_bytes(), vec![0xFF, 0xFE]),
        other => panic!("{:?}", other),
    }
}

#[test]
fn data_are_decoded_as_text_of_any_script() {
    let text = "naïve café, 日本語, 🦀";
    let chunk = Chunk::new(ChunkType::from_str("tEXt").unwrap(), text.as_bytes().to_vec());
    assert_eq!(chunk.data_as_string().unwrap(), text);
    let empty = Chunk::new(ChunkType::from_str("tEXt").unwrap(), vec![]);
    assert_eq!(empty.data_as_string().unwrap(), "");
    // a character cut in two
    let cut = Chunk::new(ChunkType::from_str("tEXt").unwrap(), "é".as_bytes()[..1].to_vec());
    assert!(matches!(cut.data_as_string(), Err(ChunkError::NotUtf8(_))));
}
