use ekc::wire::{DecodeError, EkcImage};

fn image(width: u32, height: u32) -> EkcImage {
    let n = (width * height * 4) as usize;
    let image_data: Vec<u8> = (0..n).map(|i| (i * 7 % 251) as u8).collect();
    EkcImage { image_data, width, height }
}

#[test]
fn encode_layout_is_length_data_width_height() {
    let img = EkcImage { image_data: vec![1, 2, 3, 4], width: 1, height: 1 };
    let bytes = img.encode();
    assert_eq!(
        bytes,
        vec![4, 0, 0, 0, 0, 0, 0, 0, 1, 2, 3, 4, 1, 0, 0, 0, 1, 0, 0, 0]
    );
}

#[test]
fn encode_writes_wide_dimensions_little_endian() {
    let img = EkcImage { image_data: vec![], width: 0x0102_0304, height: 0x0a0b_0c0d };
    let bytes = img.encode();
    assert_eq!(&bytes[8..], &[4, 3, 2, 1, 0x0d, 0x0c, 0x0b, 0x0a]);
}

#[test]
fn round_trip_various_sizes() {
    for (w, h) in [(1u32, 1u32), (3, 2), (16, 16), (17, 5), (64, 1)] {
        let img = image(w, h);
        let back = EkcImage::decode(&img.encode()).expect("valid image decodes");
        assert_eq!(back.width, w);
        assert_eq!(back.height, h);
        assert_eq!(back.image_data, img.image_data);
    }
}

#[test]
fn decode_rejects_length_mismatch() {
    let img = EkcImage { image_data: vec![0; 12], width: 2, height: 2 };
    assert!(matches!(EkcImage::decode(&img.encode()), Err(DecodeError::SizeMismatch)));
    let img = EkcImage { image_data: vec![0; 20], width: 2, height: 2 };
    assert!(matches!(EkcImage::decode(&img.encode()), Err(DecodeError::SizeMismatch)));
}

#[test]
fn decode_rejects_zero_sized_image() {
    let img = EkcImage { image_data: vec![], width: 0, height: 5 };
    assert!(matches!(EkcImage::decode(&img.encode()), Err(DecodeError::EmptyImage)));
    let img = EkcImage { image_data: vec![], width: 5, height: 0 };
    assert!(matches!(EkcImage::decode(&img.encode()), Err(DecodeError::EmptyImage)));
}

#[test]
fn decode_rejects_truncated_and_trailing_bytes() {
    let bytes = image(2, 2).encode();
    assert!(matches!(EkcImage::decode(&bytes[..bytes.len() - 1]), Err(DecodeError::Malformed)));
    assert!(matches!(EkcImage::decode(&bytes[..5]), Err(DecodeError::Malformed)));
    assert!(matches!(EkcImage::decode(&[]), Err(DecodeError::Malformed)));
    let mut longer = bytes.clone();
    longer.push(0);
    assert!(matches!(EkcImage::decode(&longer), Err(DecodeError::Malformed)));
}

#[test]
fn decode_rejects_huge_declared_length() {
    let mut bytes = vec![0xff; 8];
    bytes.extend_from_slice(&[0; 8]);
    assert!(matches!(EkcImage::decode(&bytes), Err(DecodeError::Malformed)));
}
