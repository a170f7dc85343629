use renderer::image::{Color, Image};
use renderer::tga::{decode_raw_tga, decode_tga, encode_tga, ImageType, TGAHeader, TgaError};

fn header_bytes(data_type: u8, width: u16, height: u16, bpp: u8) -> Vec<u8> {
    vec![
        0,
        0,
        data_type,
        0,
        0,
        0,
        0,
        0,
        0,
        0,
        0,
        0,
        (width % 256) as u8,
        (width / 256) as u8,
        (height % 256) as u8,
        (height / 256) as u8,
        bpp,
        0,
    ]
}

#[test]
fn image_type_codes() {
    assert!(ImageType::new(10) == ImageType::RunTrueColor);
    assert!(ImageType::new(2) == ImageType::RawTrueColor);
    assert!(ImageType::new(0) == ImageType::NoImageData);
    assert!(ImageType::new(7) == ImageType::Unknown);
    assert!(ImageType::new(200) == ImageType::Unknown);
}

#[test]
fn image_type_predicates() {
    assert!(ImageType::new(10).is_color());
    assert!(ImageType::new(10).is_encoded());
    assert!(!ImageType::new(10).is_color_mapped());
    assert!(ImageType::new(2).is_color());
    assert!(!ImageType::new(2).is_encoded());
    assert!(ImageType::new(9).is_color_mapped());
    assert!(ImageType::new(11).is_encoded());
    assert!(!ImageType::new(3).is_color());
    assert!(!ImageType::new(0).is_color());
}

#[test]
fn header_parses_little_endian_fields() {
    let mut b = header_bytes(10, 0x1234, 0x0002, 24);
    b[3] = 0x78;
    b[4] = 0x56;
    let h = TGAHeader::from_bytes(&b).unwrap();
    assert_eq!(h.data_type_code, 10);
    assert_eq!(h.width, 0x1234);
    assert_eq!(h.height, 2);
    assert_eq!(h.bits_per_pixel, 24);
    assert_eq!(h.color_map_origin, 0x5678);
    assert_eq!(h.id_length, 0);
}

#[test]
fn header_too_short_is_none() {
    assert!(TGAHeader::from_bytes(&vec![0u8; 17]).is_none());
    assert!(TGAHeader::from_bytes(&Vec::new()).is_none());
}

fn rle_2x2_file() -> Vec<u8> {
    // A 2x2 run-length-encoded true-color file: one run packet
    // repeating (1,2,3) twice, then one raw packet with two distinct
    // pixels.
    let mut b = header_bytes(10, 2, 2, 24);
    b.extend_from_slice(&[0x81, 1, 2, 3]);
    b.extend_from_slice(&[0x01, 4, 5, 6, 7, 8, 9]);
    b
}

#[test]
fn decode_rle_run_and_raw_packets() {
    let img = decode_tga(&rle_2x2_file()).unwrap();
    assert_eq!(img.width, 2);
    assert_eq!(img.height, 2);
    assert_eq!(
        img.data,
        vec![Color(1, 2, 3), Color(1, 2, 3), Color(4, 5, 6), Color(7, 8, 9)]
    );
    for d in &img.zbuffer {
        assert_eq!(*d, i64::MIN);
    }
}

#[test]
fn decode_rle_overshooting_run() {
    // The final run packet may produce more bytes than the image
    // needs; the surplus is ignored.
    let mut b = header_bytes(10, 2, 1, 24);
    b.extend_from_slice(&[0x82, 9, 9, 9]);
    let img = decode_tga(&b).unwrap();
    assert_eq!(img.data, vec![Color(9, 9, 9), Color(9, 9, 9)]);
}

#[test]
fn decode_short_header_is_parse_error() {
    assert!(matches!(decode_tga(&vec![0u8; 10]), Err(TgaError::ParseError)));
    assert!(matches!(decode_tga(&Vec::new()), Err(TgaError::ParseError)));
}

#[test]
fn decode_wrong_type_code_is_unsupported() {
    let mut b = header_bytes(2, 1, 1, 24);
    b.extend_from_slice(&[1, 2, 3]);
    assert!(matches!(decode_tga(&b), Err(TgaError::UnsupportedFormat)));
}

#[test]
fn decode_wrong_depth_is_unsupported() {
    let mut b = header_bytes(10, 1, 1, 32);
    b.extend_from_slice(&[0x80, 1, 2, 3, 4]);
    assert!(matches!(decode_tga(&b), Err(TgaError::UnsupportedFormat)));
}

#[test]
fn decode_truncated_pixel_data_is_parse_error() {
    // The run packet announces a pixel but the buffer ends first.
    let mut b = header_bytes(10, 2, 2, 24);
    b.extend_from_slice(&[0x81, 1, 2]);
    assert!(matches!(decode_tga(&b), Err(TgaError::ParseError)));
    // The packets stop before enough bytes were produced.
    let mut c = header_bytes(10, 2, 2, 24);
    c.extend_from_slice(&[0x81, 1, 2, 3]);
    assert!(matches!(decode_tga(&c), Err(TgaError::ParseError)));
}

#[test]
fn encode_writes_raw_header_and_verbatim_payload() {
    let mut img = Image::new(1, 2);
    img.set_data_buffer(vec![Color(9, 8, 7), Color(6, 5, 4)]);
    let b = encode_tga(&img);
    assert_eq!(
        &b[0..18],
        &[0, 0, 2, 0, 0, 0, 0, 0, 0, 0, 0, 0, 1, 0, 2, 0, 24, 0]
    );
    assert_eq!(&b[18..], &[9, 8, 7, 6, 5, 4]);
}

#[test]
fn decode_raw_reads_payload_verbatim() {
    let mut b = header_bytes(2, 2, 1, 24);
    b.extend_from_slice(&[1, 2, 3, 4, 5, 6]);
    let img = decode_raw_tga(&b).unwrap();
    assert_eq!(img.width, 2);
    assert_eq!(img.height, 1);
    assert_eq!(img.data, vec![Color(1, 2, 3), Color(4, 5, 6)]);
}

#[test]
fn decode_raw_rejects_rle_and_short_payload() {
    assert!(matches!(
        decode_raw_tga(&rle_2x2_file()),
        Err(TgaError::UnsupportedFormat)
    ));
    let mut b = header_bytes(2, 2, 1, 24);
    b.extend_from_slice(&[1, 2, 3]);
    assert!(matches!(decode_raw_tga(&b), Err(TgaError::ParseError)));
}

#[test]
fn tga_round_trip_preserves_pixels() {
    // Decoding an RLE file, re-encoding it (always raw), and decoding
    // that raw file again yields an identical pixel buffer.
    let first = decode_tga(&rle_2x2_file()).unwrap();
    let encoded = encode_tga(&first);
    assert!(encoded.len() > rle_2x2_file().len());
    let second = decode_raw_tga(&encoded).unwrap();
    assert_eq!(second.width, first.width);
    assert_eq!(second.height, first.height);
    assert_eq!(second.data, first.data);
}
