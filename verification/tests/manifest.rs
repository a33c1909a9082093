use cutis::codec::PngEncoder;
use cutis::manifest::{Block, FileIndex, IndexError};

fn example_index() -> FileIndex {
    FileIndex {
        name: "test".to_string(),
        size: 1231232312123,
        b3checksum: "adfasdasdfasdfsadf".to_string(),
        blocks: vec![Block {
            index: 1,
            size: 0,
            url: "https://example.org".to_string(),
            b3checksum: "08abfcd110201".to_string(),
        }],
    }
}

#[test]
fn file_index_enc_test() {
    let example = example_index();
    let encoded = example.encode_to_image(&PngEncoder()).unwrap();
    let decoded = FileIndex::decode_from_image(&encoded).unwrap();
    assert_eq!(decoded, example);
}

#[test]
fn wire_form_round_trips() {
    let example = example_index();
    let wire = example.to_wire();
    let back = FileIndex::from_wire(&wire).unwrap();
    assert_eq!(back, example);
}

#[test]
fn wire_form_survives_awkward_strings() {
    let example = FileIndex {
        name: "sp ace;=:\"\\и↑🌍".to_string(),
        size: u64::MAX,
        b3checksum: String::new(),
        blocks: vec![
            Block { index: 0, size: u64::MAX, url: String::new(), b3checksum: "βeta".to_string() },
            Block { index: 1, size: 1, url: "a;b=c".to_string(), b3checksum: "x".to_string() },
        ],
    };
    let wire = example.to_wire();
    let back = FileIndex::from_wire(&wire).unwrap();
    assert_eq!(back, example);
}

#[test]
fn truncated_wire_is_refused() {
    let example = example_index();
    let mut wire = example.to_wire();
    wire.pop();
    assert!(FileIndex::from_wire(&wire).is_none());
    assert!(FileIndex::from_wire(&Vec::new()).is_none());
    let mut extended = example.to_wire();
    extended.push(0);
    assert!(FileIndex::from_wire(&extended).is_none());
}

#[test]
fn non_image_bytes_are_a_codec_error() {
    match FileIndex::decode_from_image(&[0, 1, 2, 3]) {
        Err(IndexError::Codec(_)) => {}
        other => panic!("expected a codec error, got {other:?}"),
    }
}

#[test]
fn tiny_raster_cannot_hold_the_length_prefix() {
    // A handcrafted one-pixel grayscale image: its raster is one byte,
    // too small for the four-byte length prefix.
    let mut bytes: Vec<u8> = Vec::new();
    {
        let mut enc = png::Encoder::new(&mut bytes, 1, 1);
        enc.set_depth(png::BitDepth::Eight);
        enc.set_color(png::ColorType::Grayscale);
        let mut writer = enc.write_header().unwrap();
        writer.write_image_data(&[42]).unwrap();
    }
    match FileIndex::decode_from_image(&bytes) {
        Err(IndexError::TooSmall { len }) => assert_eq!(len, 1),
        other => panic!("expected TooSmall, got {other:?}"),
    }
}

#[test]
fn corrupted_payload_is_refused() {
    let example = example_index();
    let mut wire = example.to_wire();
    // Flip a byte inside a field tag.
    wire[0] ^= 0xff;
    assert!(FileIndex::from_wire(&wire).is_none());
}

#[test]
fn overrunning_length_prefix_is_refused() {
    // A handcrafted 8x1 grayscale image whose raster starts with a length
    // prefix claiming two hundred bytes where only four follow.
    let mut bytes: Vec<u8> = Vec::new();
    {
        let mut enc = png::Encoder::new(&mut bytes, 8, 1);
        enc.set_depth(png::BitDepth::Eight);
        enc.set_color(png::ColorType::Grayscale);
        let mut writer = enc.write_header().unwrap();
        writer.write_image_data(&[0, 0, 0, 200, 1, 2, 3, 4]).unwrap();
    }
    match FileIndex::decode_from_image(&bytes) {
        Err(IndexError::OutOfBounds { wanted, have }) => {
            assert_eq!(wanted, 200);
            assert_eq!(have, 8);
        }
        other => panic!("expected OutOfBounds, got {other:?}"),
    }
}
