use cutis::catalog::standard_catalog;
use cutis::codec::{PngEncoder, PngError};
use cutis::geometry::{bit_depth_size, color_type_multiple, compression_for_percent, ColorModel, CompressionTier, Depth, Metadata};

#[test]
fn encode_png() {
    let enc = PngEncoder();
    enc.encode(&[1, 2, 3, 4]).unwrap();
}

#[test]
fn to_padding_byte_should_work() {
    let metadata = Metadata {
        width: 10,
        height: 10,
        bit_depth: Depth::Sixteen,
        color_type: ColorModel::Rgba,
        compression: CompressionTier::Fast,
    };
    assert_eq!(metadata.byte_to_padding(700), Some(100));
    assert_eq!(metadata.byte_to_padding(800), Some(0));
    assert_eq!(metadata.byte_to_padding(900), None);

    let metadata = Metadata {
        width: 10,
        height: 3,
        bit_depth: Depth::Two,
        color_type: ColorModel::Rgb,
        compression: CompressionTier::Fast,
    };
    assert_eq!(metadata.byte_to_padding(2), None);
}

#[test]
fn small_buffer_round_trips() {
    let enc = PngEncoder();
    let img = enc.encode(&[1, 2, 3, 4]).unwrap();
    let back = enc.decode(&img, 4).unwrap();
    assert_eq!(back, vec![1, 2, 3, 4]);
}

#[test]
fn varied_bytes_round_trip() {
    let enc = PngEncoder();
    let data: Vec<u8> = (0..70000u32).map(|i| (i % 251) as u8).collect();
    let img = enc.encode(&data).unwrap();
    let back = enc.decode(&img, data.len()).unwrap();
    assert_eq!(back, data);
}

#[test]
fn every_catalog_capacity_encodes() {
    let enc = PngEncoder();
    let cat = standard_catalog();
    for entry in &cat.entries {
        let data = vec![7u8; entry.capacity];
        let img = enc.encode(&data).unwrap();
        let back = enc.decode(&img, data.len()).unwrap();
        assert_eq!(back, data);
    }
}

#[test]
fn oversized_buffer_is_rejected() {
    let enc = PngEncoder();
    let data = vec![0u8; 12 * 1024 * 1024 + 1];
    match enc.encode(&data) {
        Err(PngError::TooLarge { len, max }) => {
            assert_eq!(len, 12 * 1024 * 1024 + 1);
            assert_eq!(max, 12 * 1024 * 1024);
        }
        other => panic!("expected TooLarge, got {other:?}"),
    }
}

#[test]
fn exact_fit_has_no_padding_and_fast_tier() {
    let cat = standard_catalog();
    let entry = cat.entries[0];
    assert_eq!(entry.capacity, 16384);
    assert_eq!(entry.profile.byte_to_padding(16384), Some(0));
    assert_eq!(entry.profile.padding_percent(16384), Some(0));
    assert_eq!(compression_for_percent(0), CompressionTier::Fast);
}

#[test]
fn tier_selection_covers_every_ratio() {
    assert_eq!(compression_for_percent(0), CompressionTier::Fast);
    assert_eq!(compression_for_percent(30), CompressionTier::Fast);
    assert_eq!(compression_for_percent(31), CompressionTier::Default);
    assert_eq!(compression_for_percent(70), CompressionTier::Default);
    assert_eq!(compression_for_percent(71), CompressionTier::Best);
    assert_eq!(compression_for_percent(100), CompressionTier::Best);
}

#[test]
fn decode_is_deterministic() {
    let enc = PngEncoder();
    let data = vec![42u8; 5000];
    let img = enc.encode(&data).unwrap();
    let first = enc.decode(&img, 5000).unwrap();
    let second = enc.decode(&img, 5000).unwrap();
    assert_eq!(first, second);
}

#[test]
fn encoded_bytes_are_a_png_container() {
    let enc = PngEncoder();
    let img = enc.encode(&[9, 9, 9]).unwrap();
    assert_eq!(&img[..8], &[137, 80, 78, 71, 13, 10, 26, 10]);
}

#[test]
fn decode_rejects_garbage() {
    let enc = PngEncoder();
    match enc.decode(&[1, 2, 3, 4, 5], 2) {
        Err(PngError::Decoding(_)) => {}
        other => panic!("expected Decoding error, got {other:?}"),
    }
}

#[test]
fn decode_rejects_lengths_past_the_raster() {
    let enc = PngEncoder();
    let img = enc.encode(&[1, 2, 3]).unwrap();
    match enc.decode(&img, 16385) {
        Err(PngError::OutOfBound { size, bound }) => {
            assert_eq!(size, 16385);
            assert_eq!(bound, 16384);
        }
        other => panic!("expected OutOfBound, got {other:?}"),
    }
}

#[test]
fn catalog_is_ordered_and_byte_exact() {
    let cat = standard_catalog();
    assert_eq!(cat.entries.len(), 15);
    let mut prev = 0usize;
    for entry in &cat.entries {
        assert!(entry.capacity > prev);
        assert_eq!(entry.profile.size(), Some(entry.capacity));
        prev = entry.capacity;
    }
    assert_eq!(cat.max_capacity(), 12 * 1024 * 1024);
}

#[test]
fn metadata_default_is_the_largest_square() {
    let m = Metadata::default();
    assert_eq!(m.width, 1024);
    assert_eq!(m.height, 1024);
    assert_eq!(m.size(), Some(8 * 1024 * 1024));
    assert_eq!(bit_depth_size(&m.bit_depth), 16);
    assert_eq!(color_type_multiple(&m.color_type), 4);
}

#[test]
fn selection_picks_first_fitting_entry() {
    let cat = standard_catalog();
    assert_eq!(cat.select(0).unwrap().capacity, 16384);
    assert_eq!(cat.select(16384).unwrap().capacity, 16384);
    assert_eq!(cat.select(16385).unwrap().capacity, 32768);
    assert_eq!(cat.select(12 * 1024 * 1024).unwrap().capacity, 12 * 1024 * 1024);
    assert!(cat.select(12 * 1024 * 1024 + 1).is_none());
}
