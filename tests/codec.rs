use awesome_avatars::{
    clear_subtype, decode_field, encode_field, has_subtype, lowest_progress_byte,
    lowest_progress_indexes, read_at, read_progress, set_subtype, subtypes_of, write_at,
    write_progress, ByteType, DnaEncoding, DnaField, EncodingError,
};

fn sample_dna() -> Vec<u8> {
    let mut dna = vec![0u8; 32];
    dna[0] = 0x41;
    dna[1] = 0x12;
    dna[2] = 0x01;
    dna[3] = 0x01;
    dna[5] = 0x01;
    dna[21..].copy_from_slice(&[0x21, 0x10, 0x25, 0x23, 0x20, 0x23, 0x21, 0x22, 0x22, 0x22, 0x24]);
    dna
}

#[test]
fn decode_reads_each_v2_field() {
    let dna = sample_dna();
    let v2 = DnaEncoding::V2;
    assert_eq!(decode_field(&dna, v2, DnaField::ItemType), Ok(4));
    assert_eq!(decode_field(&dna, v2, DnaField::ItemSubType), Ok(1));
    assert_eq!(decode_field(&dna, v2, DnaField::ClassType1), Ok(1));
    assert_eq!(decode_field(&dna, v2, DnaField::ClassType2), Ok(2));
    assert_eq!(decode_field(&dna, v2, DnaField::CustomType1), Ok(0));
    assert_eq!(decode_field(&dna, v2, DnaField::RarityTier), Ok(1));
    assert_eq!(decode_field(&dna, v2, DnaField::Quantity), Ok(1));
    assert_eq!(decode_field(&dna, v2, DnaField::CustomType2), Ok(0));
    assert_eq!(decode_field(&dna, v2, DnaField::Spec(0)), Ok(1));
    assert_eq!(decode_field(&dna, v2, DnaField::Progress(0)), Ok(0x21));
    assert_eq!(decode_field(&dna, v2, DnaField::Progress(10)), Ok(0x24));
    assert_eq!(decode_field(&dna, DnaEncoding::V3, DnaField::ItemType), Ok(4));
}

#[test]
fn encode_then_decode_round_trips_and_keeps_other_fields() {
    let mut dna = sample_dna();
    let before = dna.clone();
    assert_eq!(encode_field(&mut dna, DnaEncoding::V2, DnaField::ItemSubType, 3), Ok(()));
    assert_eq!(decode_field(&dna, DnaEncoding::V2, DnaField::ItemSubType), Ok(3));
    assert_eq!(decode_field(&dna, DnaEncoding::V2, DnaField::ItemType), Ok(4));
    assert_eq!(dna[0], 0x43);
    assert_eq!(&dna[1..], &before[1..]);

    assert_eq!(encode_field(&mut dna, DnaEncoding::V2, DnaField::ClassType1, 6), Ok(()));
    assert_eq!(dna[1], 0x62);
    assert_eq!(encode_field(&mut dna, DnaEncoding::V2, DnaField::Quantity, 200), Ok(()));
    assert_eq!(decode_field(&dna, DnaEncoding::V2, DnaField::Quantity), Ok(200));
    assert_eq!(encode_field(&mut dna, DnaEncoding::V2, DnaField::Spec(15), 0xAB), Ok(()));
    assert_eq!(dna[20], 0xAB);
    assert_eq!(decode_field(&dna, DnaEncoding::V2, DnaField::Progress(0)), Ok(0x21));
}

#[test]
fn encode_refuses_a_value_too_wide_for_a_nibble() {
    let mut dna = sample_dna();
    let before = dna.clone();
    assert_eq!(
        encode_field(&mut dna, DnaEncoding::V2, DnaField::RarityTier, 16),
        Err(EncodingError::ValueTooLarge)
    );
    assert_eq!(dna, before);
    assert_eq!(encode_field(&mut dna, DnaEncoding::V2, DnaField::RarityTier, 15), Ok(()));
}

#[test]
fn codec_refuses_wrong_length_and_unknown_fields() {
    let mut short = vec![0u8; 31];
    assert_eq!(
        decode_field(&short, DnaEncoding::V2, DnaField::ItemType),
        Err(EncodingError::WrongLength)
    );
    assert_eq!(
        encode_field(&mut short, DnaEncoding::V2, DnaField::ItemType, 1),
        Err(EncodingError::WrongLength)
    );
    let dna = sample_dna();
    assert_eq!(
        decode_field(&dna, DnaEncoding::V2, DnaField::Spec(16)),
        Err(EncodingError::NoSuchField)
    );
    assert_eq!(
        decode_field(&dna, DnaEncoding::V2, DnaField::Progress(11)),
        Err(EncodingError::NoSuchField)
    );
    assert_eq!(
        decode_field(&dna, DnaEncoding::V1, DnaField::ItemType),
        Err(EncodingError::NoSuchField)
    );
}

#[test]
fn nibbles_read_and_write() {
    assert_eq!(read_at(0x4A, ByteType::High), 0x4);
    assert_eq!(read_at(0x4A, ByteType::Low), 0xA);
    assert_eq!(read_at(0x4A, ByteType::Full), 0x4A);
    assert_eq!(write_at(0x4A, ByteType::High, 0x7), 0x7A);
    assert_eq!(write_at(0x4A, ByteType::Low, 0x1), 0x41);
    assert_eq!(write_at(0x4A, ByteType::Full, 0x99), 0x99);
}

#[test]
fn subtype_bitmask_operations() {
    assert!(has_subtype(0x05, 1));
    assert!(!has_subtype(0x05, 2));
    assert!(has_subtype(0x05, 3));
    assert_eq!(set_subtype(0x01, 2), 0x03);
    assert_eq!(set_subtype(0x03, 2), 0x03);
    assert_eq!(clear_subtype(0x0B, 2), 0x09);
    assert_eq!(clear_subtype(0x09, 2), 0x09);
    assert_eq!(subtypes_of(0x0B), vec![1, 2, 4]);
    assert_eq!(subtypes_of(0x00), Vec::<u8>::new());
    assert_eq!(subtypes_of(0x80), vec![8]);
}

#[test]
fn progress_array_read_write_and_lowest() {
    let mut dna = sample_dna();
    let p = read_progress(&dna);
    assert_eq!(p, vec![0x21, 0x10, 0x25, 0x23, 0x20, 0x23, 0x21, 0x22, 0x22, 0x22, 0x24]);
    assert_eq!(lowest_progress_byte(&p, ByteType::High), 1);
    assert_eq!(lowest_progress_indexes(&p, ByteType::High), vec![1]);
    assert_eq!(lowest_progress_byte(&p, ByteType::Low), 0);
    assert_eq!(lowest_progress_indexes(&p, ByteType::Low), vec![1, 4]);
    assert_eq!(lowest_progress_byte(&p, ByteType::Full), 0x10);

    let q = vec![0x14, 0x12, 0x10, 0x11, 0x20, 0x21, 0x10, 0x15, 0x11, 0x25, 0x13];
    assert_eq!(lowest_progress_indexes(&q, ByteType::High), vec![0, 1, 2, 3, 6, 7, 8, 10]);
    write_progress(&mut dna, &q);
    assert_eq!(read_progress(&dna), q);
    assert_eq!(&dna[..21], &sample_dna()[..21]);
}
