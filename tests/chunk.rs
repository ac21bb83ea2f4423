use pngme::chunk::{check_frame, Chunk, ChunkError};
use pngme::chunk_type::ChunkType;
use std::convert::TryFrom;
use std::str::FromStr;

fn testing_chunk() -> Chunk {
    let data_length: u32 = 42;
    let chunk_type = "RuSt".as_bytes();
    let message_bytes = "This is where your secret message will be!".as_bytes();
    let crc: u32 = 2882656334;

    let chunk_data: Vec<u8> = data_length
        .to_be_bytes()
        .iter()
        .chain(chunk_type.iter())
        .chain(message_bytes.iter())
        .chain(crc.to_be_bytes().iter())
        .copied()
        .collect();

    Chunk::try_from(chunk_data.as_ref()).unwrap()
}

fn frame_bytes(length: u32, tag: &[u8], payload: &[u8], crc: u32) -> Vec<u8> {
    length
        .to_be_bytes()
        .iter()
        .chain(tag.iter())
        .chain(payload.iter())
        .chain(crc.to_be_bytes().iter())
        .copied()
        .collect()
}

const MESSAGE: &str = "This is where your secret message will be!";

#[test]
fn test_new_chunk() {
    let chunk_type = ChunkType::from_str("RuSt").unwrap();
    let data = "This is where your secret message will be!"
        .as_bytes()
        .to_vec();
    let chunk = Chunk::new(chunk_type, data);
    assert_eq!(chunk.length(), 42);
    assert_eq!(chunk.crc(), 2882656334);
}

#[test]
fn test_chunk_length() {
    let chunk = testing_chunk();
    assert_eq!(chunk.length(), 42);
}

#[test]
fn test_chunk_type() {
    let chunk = testing_chunk();
    assert_eq!(chunk.chunk_type().to_string().unwrap(), String::from("RuSt"));
}

#[test]
fn test_chunk_string() {
    let chunk = testing_chunk();
    let chunk_string = chunk.data_as_string().unwrap();
    let expected_chunk_string = String::from("This is where your secret message will be!");
    assert_eq!(chunk_string, expected_chunk_string);
}

#[test]
fn test_chunk_crc() {
    let chunk = testing_chunk();
    assert_eq!(chunk.crc(), 2882656334);
}

#[test]
fn test_valid_chunk_from_bytes() {
    let data_length: u32 = 42;
    let chunk_type = "RuSt".as_bytes();
    let message_bytes = "This is where your secret message will be!".as_bytes();
    let crc: u32 = 2882656334;

    let chunk_data: Vec<u8> = data_length
        .to_be_bytes()
        .iter()
        .chain(chunk_type.iter())
        .chain(message_bytes.iter())
        .chain(crc.to_be_bytes().iter())
        .copied()
        .collect();

    let chunk = Chunk::try_from(chunk_data.as_ref()).unwrap();

    let chunk_string = chunk.data_as_string().unwrap();
    let expected_chunk_string = String::from("This is where your secret message will be!");

    assert_eq!(chunk.length(), 42);
    assert_eq!(chunk.chunk_type().to_string().unwrap(), String::from("RuSt"));
    assert_eq!(chunk_string, expected_chunk_string);
    assert_eq!(chunk.crc(), 2882656334);
}

#[test]
fn test_invalid_chunk_from_bytes() {
    let data_length: u32 = 42;
    let chunk_type = "RuSt".as_bytes();
    let message_bytes = "This is where your secret message will be!".as_bytes();
    let crc: u32 = 2882656333;

    let chunk_data: Vec<u8> = data_length
        .to_be_bytes()
        .iter()
        .chain(chunk_type.iter())
        .chain(message_bytes.iter())
        .chain(crc.to_be_bytes().iter())
        .copied()
        .collect();

    let chunk = Chunk::try_from(chunk_data.as_ref());

    assert!(chunk.is_err());
}

#[test]
pub fn test_chunk_trait_impls() {
    let data_length: u32 = 42;
    let chunk_type = "RuSt".as_bytes();
    let message_bytes = "This is where your secret message will be!".as_bytes();
    let crc: u32 = 2882656334;

    let chunk_data: Vec<u8> = data_length
        .to_be_bytes()
        .iter()
        .chain(chunk_type.iter())
        .chain(message_bytes.iter())
        .chain(crc.to_be_bytes().iter())
        .copied()
        .collect();

    let chunk: Chunk = TryFrom::try_from(chunk_data.as_ref()).unwrap();

    let _chunk_string = chunk.to_string();
}

#[test]
fn serialized_layout_is_exact() {
    let tag = ChunkType::from_str("RuSt").unwrap();
    let chunk = Chunk::new(tag, MESSAGE.as_bytes().to_vec());
    let expected = frame_bytes(42, b"RuSt", MESSAGE.as_bytes(), 2882656334);
    assert_eq!(chunk.as_bytes(), expected);
    assert_eq!(chunk.as_bytes().len(), 54);
}

#[test]
fn round_trip_keeps_every_field() {
    let payloads: Vec<Vec<u8>> = vec![vec![], vec![0], vec![255, 0, 7, 9, 1], MESSAGE.as_bytes().to_vec()];
    for payload in payloads {
        for text in ["RuSt", "IHDR", "tEXt", "abcd"] {
            let tag = ChunkType::from_str(text).unwrap();
            let chunk = Chunk::new(tag, payload.clone());
            let back = Chunk::try_from(chunk.as_bytes().as_slice()).unwrap();
            assert_eq!(back.length(), chunk.length());
            assert_eq!(back.chunk_type(), chunk.chunk_type());
            assert_eq!(back.data(), chunk.data());
            assert_eq!(back.crc(), chunk.crc());
            assert_eq!(back.length() as usize, payload.len());
        }
    }
}

#[test]
fn checksum_depends_only_on_tag_and_payload() {
    let a = Chunk::new(ChunkType::from_bytes([82, 117, 83, 116]), vec![1, 2, 3]);
    let b = Chunk::new(ChunkType::from_str("RuSt").unwrap(), vec![1, 2, 3]);
    assert_eq!(a.crc(), b.crc());
    let c = Chunk::new(ChunkType::from_str("RuSt").unwrap(), vec![1, 2, 4]);
    assert_ne!(a.crc(), c.crc());
    let d = Chunk::new(ChunkType::from_str("RuST").unwrap(), vec![1, 2, 3]);
    assert_ne!(a.crc(), d.crc());
}

#[test]
fn known_checksum_of_iend() {
    // The empty IEND chunk that ends every PNG file carries AE 42 60 82.
    let chunk = Chunk::new(ChunkType::from_str("IEND").unwrap(), vec![]);
    assert_eq!(chunk.crc(), 0xAE42_6082);
    assert_eq!(chunk.length(), 0);
    assert_eq!(chunk.as_bytes(), vec![0, 0, 0, 0, 73, 69, 78, 68, 0xAE, 0x42, 0x60, 0x82]);
}

#[test]
fn length_is_payload_size() {
    for n in [0usize, 1, 12, 300] {
        let chunk = Chunk::new(ChunkType::from_str("RuSt").unwrap(), vec![7; n]);
        assert_eq!(chunk.length() as usize, n);
        assert_eq!(chunk.data().len(), n);
    }
}

#[test]
fn invalid_tag_can_still_be_wrapped() {
    let tag = ChunkType::from_bytes([82, 117, 49, 116]);
    let chunk = Chunk::new(tag, vec![1, 2]);
    assert_eq!(chunk.chunk_type().bytes(), [82, 117, 49, 116]);
    assert_eq!(chunk.length(), 2);
    // The tag is not made of letters, so its wire form is refused.
    assert_eq!(
        Chunk::try_from(chunk.as_bytes().as_slice()).unwrap_err(),
        ChunkError::InvalidTypeBytes
    );
}

#[test]
fn tampered_checksum_is_a_checksum_mismatch() {
    let bytes = frame_bytes(42, b"RuSt", MESSAGE.as_bytes(), 2882656333);
    assert_eq!(
        Chunk::try_from(bytes.as_slice()).unwrap_err(),
        ChunkError::ChecksumMismatch { declared: 2882656333, computed: 2882656334 }
    );
    let good = frame_bytes(42, b"RuSt", MESSAGE.as_bytes(), 2882656334);
    for k in good.len() - 4..good.len() {
        for x in [0u8, 1, 0x80, 0xFF] {
            let mut bad = good.clone();
            bad[k] ^= x | 1;
            let err = Chunk::try_from(bad.as_slice()).unwrap_err();
            assert!(matches!(err, ChunkError::ChecksumMismatch { computed: 2882656334, .. }));
        }
    }
}

#[test]
fn wrong_declared_length_is_a_length_mismatch() {
    let bytes = frame_bytes(41, b"RuSt", MESSAGE.as_bytes(), 2882656334);
    assert_eq!(
        Chunk::try_from(bytes.as_slice()).unwrap_err(),
        ChunkError::LengthMismatch { declared: 41, actual: 42 }
    );
    // A huge declared length is reported, not trusted.
    let bytes = frame_bytes(u32::MAX, b"RuSt", b"ab", 0);
    assert_eq!(
        Chunk::try_from(bytes.as_slice()).unwrap_err(),
        ChunkError::LengthMismatch { declared: u32::MAX, actual: 2 }
    );
}

#[test]
fn length_checked_before_checksum() {
    // Both fields are wrong: the length is reported.
    let bytes = frame_bytes(40, b"RuSt", MESSAGE.as_bytes(), 1);
    assert_eq!(
        Chunk::try_from(bytes.as_slice()).unwrap_err(),
        ChunkError::LengthMismatch { declared: 40, actual: 42 }
    );
}

#[test]
fn short_buffers_are_insufficient_data() {
    let full = frame_bytes(0, b"IEND", b"", 0xAE42_6082);
    assert!(Chunk::try_from(full.as_slice()).is_ok());
    for n in 0..12 {
        assert_eq!(
            Chunk::try_from(&full[..n]).unwrap_err(),
            ChunkError::InsufficientData { available: n }
        );
    }
}

#[test]
fn non_letter_tag_bytes_are_refused() {
    let bytes = frame_bytes(0, b"Ru1t", b"", 0);
    assert_eq!(Chunk::try_from(bytes.as_slice()).unwrap_err(), ChunkError::InvalidTypeBytes);
}

#[test]
fn binary_payload_is_not_text() {
    let chunk = Chunk::new(ChunkType::from_str("RuSt").unwrap(), vec![0xC3, 0x28]);
    assert_eq!(chunk.data_as_string(), Err(ChunkError::DataNotText));
    assert_eq!(chunk.to_string(), Err(ChunkError::DataNotText));
    assert_eq!(chunk.data(), &[0xC3, 0x28]);
    let chunk = Chunk::new(ChunkType::from_str("RuSt").unwrap(), "héllo".as_bytes().to_vec());
    assert_eq!(chunk.data_as_string().unwrap(), "héllo");
}

#[test]
fn check_frame_with_given_checksum() {
    let bytes = frame_bytes(3, b"abCd", &[1, 2, 3], 0x0102_0304);
    assert_eq!(check_frame(&bytes, 0x0102_0304), Ok(()));
    assert_eq!(
        check_frame(&bytes, 5),
        Err(ChunkError::ChecksumMismatch { declared: 0x0102_0304, computed: 5 })
    );
    assert_eq!(
        check_frame(&bytes[..11], 0x0102_0304),
        Err(ChunkError::InsufficientData { available: 11 })
    );
    let bytes = frame_bytes(2, b"abCd", &[1, 2, 3], 0x0102_0304);
    assert_eq!(
        check_frame(&bytes, 0x0102_0304),
        Err(ChunkError::LengthMismatch { declared: 2, actual: 3 })
    );
}
