use pngme::chunk::Chunk;
use pngme::chunk_type::ChunkType;
use pngme::crc32;
use pngme::errors::ChunkError;

fn record_for(tag: &str, payload: &[u8]) -> Vec<u8> {
    let chunk_type = ChunkType::parse_text(tag).unwrap();
    let chunk = Chunk::new(chunk_type, payload);
    chunk.as_bytes()
}

#[test]
fn round_trip_preserves_chunk() {
    let payload: Vec<u8> = vec![0, 1, 2, 254, 255, 42];
    let chunk_type = ChunkType::parse_text("TeSt").unwrap();
    let chunk = Chunk::new(chunk_type, &payload);
    let bytes = chunk.as_bytes();
    let reparsed = Chunk::parse(&bytes).unwrap();
    assert_eq!(reparsed.chunk_type().bytes(), chunk.chunk_type().bytes());
    assert_eq!(reparsed.length(), chunk.length());
    assert_eq!(reparsed.crc(), chunk.crc());
    assert_eq!(reparsed.as_bytes(), bytes);
}

#[test]
fn round_trip_empty_payload() {
    let chunk_type = ChunkType::parse_text("IEND").unwrap();
    let chunk = Chunk::new(chunk_type, &[]);
    let bytes = chunk.as_bytes();
    assert_eq!(bytes.len(), 12);
    let reparsed = Chunk::parse(&bytes).unwrap();
    assert_eq!(reparsed.length(), 0);
    assert_eq!(reparsed.crc(), chunk.crc());
}

#[test]
fn checksum_is_deterministic() {
    let t = [82u8, 117, 83, 116];
    let p = "payload bytes".as_bytes();
    assert_eq!(crc32::checksum(&t, p), crc32::checksum(&t, p));
    assert_eq!(Chunk::calculate_crc(&t, p), Chunk::calculate_crc(&t, p));
}

#[test]
fn flipping_any_input_bit_changes_the_checksum() {
    let t = [82u8, 117, 83, 116];
    let p = "short msg".as_bytes().to_vec();
    let baseline = pngme::crc32::checksum(&t, &p);
    for byte in 0..4 {
        for bit in 0..8 {
            let mut t2 = t;
            t2[byte] ^= 1 << bit;
            assert_ne!(pngme::crc32::checksum(&t2, &p), baseline);
        }
    }
    for byte in 0..p.len() {
        for bit in 0..8 {
            let mut p2 = p.clone();
            p2[byte] ^= 1 << bit;
            assert_ne!(pngme::crc32::checksum(&t, &p2), baseline);
        }
    }
}

#[test]
fn checksum_matches_known_values() {
    // The canonical CRC-32 check value: CRC32("123456789") = 0xCBF43926.
    let r = Chunk::calculate_crc("1234".as_bytes(), "56789".as_bytes());
    assert_eq!(u32::from_be_bytes(r), 0xCBF43926);
    // The CRC stored in every PNG IEND chunk (empty payload).
    let t = [b'I', b'E', b'N', b'D'];
    assert_eq!(crc32::checksum(&t, &[]), 0xAE426082);
}

#[test]
fn crc_table_matches_reference_entries() {
    let table = crc32::make_crc_table();
    assert_eq!(table.len(), 256);
    assert_eq!(table[0], 0x00000000);
    assert_eq!(table[1], 0x77073096);
    assert_eq!(table[8], 0x0EDB8832);
    assert_eq!(table[255], 0x2D02EF8D);
}

#[test]
fn update_crc_folds_bytes() {
    let table = crc32::make_crc_table();
    // No bytes leave the register unchanged.
    assert_eq!(crc32::update_crc(0xFFFFFFFF, &[], &table), 0xFFFFFFFF);
    // Folding in two halves equals folding the whole message.
    let all = crc32::update_crc(0xFFFFFFFF, "123456789".as_bytes(), &table);
    let half = crc32::update_crc(0xFFFFFFFF, "1234".as_bytes(), &table);
    let rest = crc32::update_crc(half, "56789".as_bytes(), &table);
    assert_eq!(all, rest);
    assert_eq!(all ^ 0xFFFFFFFF, 0xCBF43926);
}

#[test]
fn parse_accepts_exactly_valid_tags() {
    let ok = ChunkType::parse([82, 117, 83, 116]).unwrap();
    assert!(ok.is_valid());
    assert_eq!(ok.bytes(), [82, 117, 83, 116]);
    // A digit among the bytes.
    assert_eq!(ChunkType::parse([82, 117, 83, 49]), Err(ChunkError::InvalidTag));
    // Lowercase reserved byte.
    assert_eq!(ChunkType::parse([82, 117, 115, 116]), Err(ChunkError::InvalidTag));
    // The unchecked constructor still reports validity honestly.
    assert!(!ChunkType::new(82, 117, 115, 116).is_valid());
}

#[test]
fn reserved_bit_rule_rejects_lowercase_third_byte() {
    for tag in ["Rust", "rust", "ABcD", "zzzz"] {
        assert_eq!(ChunkType::parse_text(tag), Err(ChunkError::InvalidTag));
        let b = tag.as_bytes();
        assert_eq!(
            ChunkType::parse([b[0], b[1], b[2], b[3]]),
            Err(ChunkError::InvalidTag)
        );
    }
}

#[test]
fn parse_text_rejects_non_tags() {
    assert_eq!(ChunkType::parse_text(""), Err(ChunkError::InvalidTag));
    assert_eq!(ChunkType::parse_text("RuS"), Err(ChunkError::InvalidTag));
    assert_eq!(ChunkType::parse_text("RuStY"), Err(ChunkError::InvalidTag));
    assert_eq!(ChunkType::parse_text("Ru1t"), Err(ChunkError::InvalidTag));
    assert_eq!(ChunkType::parse_text("Ru\u{e9}t"), Err(ChunkError::InvalidTag));
}

#[test]
fn flipping_any_crc_byte_is_detected() {
    let record = record_for("RuSt", "some hidden text".as_bytes());
    let crc_start = record.len() - 4;
    for pos in crc_start..record.len() {
        for delta in 1..=255u8 {
            let mut tampered = record.clone();
            tampered[pos] = tampered[pos].wrapping_add(delta);
            match Chunk::parse(&tampered) {
                Err(ChunkError::CrcMismatch) => {}
                other => panic!("tampered byte {} gave {:?}", pos, other),
            }
        }
    }
}

#[test]
fn every_truncated_prefix_is_reported() {
    let record = record_for("RuSt", "some hidden text".as_bytes());
    for keep in 0..record.len() {
        let prefix = &record[..keep];
        assert_eq!(
            Chunk::parse(prefix).map(|c| c.crc()),
            Err(ChunkError::Truncated)
        );
    }
    // The full record parses.
    assert!(Chunk::parse(&record).is_ok());
}

#[test]
fn declared_length_beyond_buffer_is_truncated() {
    // Declared payload length 42, but only 2 payload bytes present.
    let mut record: Vec<u8> = Vec::new();
    record.extend_from_slice(&42u32.to_be_bytes());
    record.extend_from_slice("RuSt".as_bytes());
    record.extend_from_slice(&[1, 2]);
    assert_eq!(
        Chunk::parse(&record).map(|c| c.crc()),
        Err(ChunkError::Truncated)
    );
}

#[test]
fn invalid_tag_in_record_is_rejected() {
    let mut record: Vec<u8> = Vec::new();
    record.extend_from_slice(&0u32.to_be_bytes());
    record.extend_from_slice("Rust".as_bytes());
    record.extend_from_slice(&[0, 0, 0, 0]);
    assert_eq!(
        Chunk::parse(&record).map(|c| c.crc()),
        Err(ChunkError::InvalidTag)
    );
}

#[test]
fn trailing_bytes_are_not_consumed() {
    let mut bytes = record_for("RuSt", "first".as_bytes());
    let plain = Chunk::parse(&bytes).unwrap();
    bytes.extend_from_slice(&record_for("IEND", &[]));
    let with_trailer = Chunk::parse(&bytes).unwrap();
    assert_eq!(with_trailer.chunk_type().bytes(), plain.chunk_type().bytes());
    assert_eq!(with_trailer.length(), plain.length());
    assert_eq!(with_trailer.crc(), plain.crc());
}

#[test]
fn secret_message_scenario() {
    let chunk_type = ChunkType::parse_text("RuSt").unwrap();
    let message = "This is where your secret message will be!";
    let chunk = Chunk::new(chunk_type, message.as_bytes());
    assert_eq!(chunk.length() as usize, message.len());
    assert_eq!(chunk.crc(), 2882656334);
    assert_eq!(chunk.data_as_string().unwrap(), message);
}

#[test]
fn case_flag_scenarios() {
    let lower_first = ChunkType::parse_text("ruSt").unwrap();
    assert!(!lower_first.is_critical());
    let b = "Rust".as_bytes();
    let lower_third = ChunkType::new(b[0], b[1], b[2], b[3]);
    assert!(!lower_third.is_valid());
    assert_eq!(ChunkType::parse_text("Rust"), Err(ChunkError::InvalidTag));
}

#[test]
fn non_utf8_payload_is_reported() {
    let chunk_type = ChunkType::parse_text("TeSt").unwrap();
    let chunk = Chunk::new(chunk_type, &[0xFF, 0xFE, 0x41]);
    assert_eq!(chunk.data_as_string(), Err(ChunkError::NotUtf8));
}

#[test]
fn serialized_layout_is_exact() {
    let payload: Vec<u8> = vec![7; 300];
    let chunk_type = ChunkType::parse_text("AbCd").unwrap();
    let chunk = Chunk::new(chunk_type, &payload);
    let bytes = chunk.as_bytes();
    assert_eq!(bytes.len(), 12 + 300);
    assert_eq!(&bytes[0..4], &[0, 0, 1, 44]);
    assert_eq!(&bytes[4..8], "AbCd".as_bytes());
    assert_eq!(&bytes[8..308], &payload[..]);
    assert_eq!(&bytes[308..312], &chunk.crc().to_be_bytes());
}

#[test]
fn to_text_reflects_each_byte() {
    assert_eq!(ChunkType::new(65, 66, 67, 68).to_text(), "ABCD");
    assert_eq!(ChunkType::new(122, 97, 90, 33).to_text(), "zaZ!");
}
