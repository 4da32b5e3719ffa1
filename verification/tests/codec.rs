use byteorder::{BigEndian, ByteOrder as _, LittleEndian};
use idp_tool::decoder::{encode_idp_f32, encode_idp_u16, IDPDecoder};
use idp_tool::error::{ImageError, StreamError};
use idp_tool::pixel::{DecodingResult, PixelType};
use idp_tool::stream::{ByteOrder, SmartReader, SmartWriter};

#[test]
fn u16_image_round_trip() {
    let samples: Vec<u16> = vec![0, 1, 258, 65535, 4660, 43981];
    let bytes = encode_idp_u16(3, 2, &samples);
    let mut dec = IDPDecoder::new(bytes).expect("header should parse");
    assert_eq!(dec.dimensions().unwrap(), (3, 2));
    assert_eq!(dec.pixel_type().unwrap(), PixelType::Short16);
    match dec.read_image().unwrap() {
        DecodingResult::U16(v) => assert_eq!(v, samples),
        DecodingResult::F32(_) => panic!("wrong buffer type"),
    }
}

#[test]
fn f32_image_round_trip() {
    let values: Vec<f32> = vec![0.0, -0.0, 1.5, -273.25, 999.0, 3.1415927];
    let samples: Vec<u32> = values.iter().map(|v| v.to_bits()).collect();
    let bytes = encode_idp_f32(2, 3, &samples);
    let mut dec = IDPDecoder::new(bytes).expect("header should parse");
    assert_eq!(dec.dimensions().unwrap(), (2, 3));
    assert_eq!(dec.pixel_type().unwrap(), PixelType::Float32);
    match dec.read_image().unwrap() {
        DecodingResult::F32(v) => {
            assert_eq!(v, samples);
            for (bits, orig) in v.iter().zip(values.iter()) {
                assert_eq!(f32::from_bits(*bits), *orig);
            }
        },
        DecodingResult::U16(_) => panic!("wrong buffer type"),
    }
}

#[test]
fn invalid_format_pair_is_rejected() {
    let mut w = SmartWriter::wrap(Vec::new(), ByteOrder::LittleEndian);
    w.write_u32(0);
    w.write_u32(1); // unsupported second tag word
    w.write_u32(4);
    w.write_u32(4);
    match IDPDecoder::new(w.data) {
        Err(ImageError::FormatError(_)) => {},
        _ => panic!("expected a format error"),
    }
}

#[test]
fn short_header_is_rejected() {
    match IDPDecoder::new(vec![0, 0, 0]) {
        Err(ImageError::FormatError(_)) => {},
        _ => panic!("expected a format error"),
    }
}

#[test]
fn truncated_payload_is_rejected() {
    let samples: Vec<u16> = vec![7; 9];
    let mut bytes = encode_idp_u16(3, 3, &samples);
    bytes.truncate(bytes.len() - 3);
    let mut dec = IDPDecoder::new(bytes).expect("header should parse");
    match dec.read_image() {
        Err(ImageError::FormatError(_)) => {},
        _ => panic!("expected a format error"),
    }
}

#[test]
fn reader_matches_byteorder_le() {
    let data: Vec<u8> = vec![0x12, 0x34, 0x56, 0x78, 0x9A, 0xBC];
    let mut r = SmartReader::wrap(data.clone(), ByteOrder::LittleEndian);
    assert_eq!(r.read_u16().unwrap(), LittleEndian::read_u16(&data[0..2]));
    assert_eq!(r.read_u32().unwrap(), LittleEndian::read_u32(&data[2..6]));
}

#[test]
fn reader_matches_byteorder_be() {
    let data: Vec<u8> = vec![0x12, 0x34, 0x56, 0x78, 0x9A, 0xBC];
    let mut r = SmartReader::wrap(data.clone(), ByteOrder::BigEndian);
    assert_eq!(r.read_u16().unwrap(), BigEndian::read_u16(&data[0..2]));
    assert_eq!(r.read_u32().unwrap(), BigEndian::read_u32(&data[2..6]));
}

#[test]
fn reader_reads_f32_bits() {
    let mut buf = [0u8; 4];
    LittleEndian::write_f32(&mut buf, -1.25);
    let mut r = SmartReader::wrap(buf.to_vec(), ByteOrder::LittleEndian);
    assert_eq!(r.read_f32_bits().unwrap(), (-1.25f32).to_bits());
}

#[test]
fn writer_matches_byteorder() {
    let mut w = SmartWriter::wrap(Vec::new(), ByteOrder::LittleEndian);
    w.write_u16(0x1234);
    w.write_u32(0x56789ABC);
    w.write_f32_bits(2.5f32.to_bits());
    let mut expect = vec![0u8; 10];
    LittleEndian::write_u16(&mut expect[0..2], 0x1234);
    LittleEndian::write_u32(&mut expect[2..6], 0x56789ABC);
    LittleEndian::write_f32(&mut expect[6..10], 2.5);
    assert_eq!(w.data, expect);

    let mut wb = SmartWriter::wrap(Vec::new(), ByteOrder::BigEndian);
    wb.write_u16(0x1234);
    wb.write_u32(0x56789ABC);
    let mut expect_be = vec![0u8; 6];
    BigEndian::write_u16(&mut expect_be[0..2], 0x1234);
    BigEndian::write_u32(&mut expect_be[2..6], 0x56789ABC);
    assert_eq!(wb.data, expect_be);
}

#[test]
fn truncated_reads_leave_position_alone() {
    let mut r = SmartReader::wrap(vec![0xFF], ByteOrder::LittleEndian);
    assert_eq!(r.read_u16(), Err(StreamError::Truncated));
    assert_eq!(r.read_u32(), Err(StreamError::Truncated));
    assert_eq!(r.pos, 0);
    assert_eq!(r.byte_order(), ByteOrder::LittleEndian);
}
