use cutis::codec::PngEncoder;
use cutis::digest::block_digest;
use cutis::manifest::{Block, FileIndex};
use cutis::pipeline::{
    build_index, put_with_retry, sort_blocks_by_index, split_blocks, upload_file,
    validate_contiguous, Storage, StorageError, UploadError,
};

/// A storage stand-in that fails a set number of times, then succeeds,
/// handing out numbered locators and counting every call.
struct FlakyStorage {
    failures_left: u32,
    calls: u32,
}

impl Storage for FlakyStorage {
    fn put(&mut self, _data: &Vec<u8>) -> Result<String, StorageError> {
        self.calls += 1;
        if self.failures_left > 0 {
            self.failures_left -= 1;
            Err(StorageError { message: "try again".to_string() })
        } else {
            Ok(format!("store://{}", self.calls))
        }
    }
}

struct BrokenStorage {
    calls: u32,
}

impl Storage for BrokenStorage {
    fn put(&mut self, _data: &Vec<u8>) -> Result<String, StorageError> {
        self.calls += 1;
        Err(StorageError { message: "down".to_string() })
    }
}

#[test]
fn retry_succeeds_after_two_failures() {
    let mut storage = FlakyStorage { failures_left: 2, calls: 0 };
    let (res, attempts) = put_with_retry(&mut storage, &vec![1, 2, 3], 3);
    assert!(res.is_ok());
    assert_eq!(attempts, 3);
    assert_eq!(storage.calls, 3);
}

#[test]
fn retry_gives_up_after_initial_plus_max_retry_attempts() {
    let mut storage = BrokenStorage { calls: 0 };
    let (res, attempts) = put_with_retry(&mut storage, &vec![1, 2, 3], 2);
    assert!(res.is_err());
    assert_eq!(attempts, 3);
    assert_eq!(storage.calls, 3);
}

#[test]
fn upload_fails_overall_when_storage_never_recovers() {
    let mut storage = BrokenStorage { calls: 0 };
    let chunks = split_blocks(&vec![5u8; 10], 4);
    let enc = PngEncoder();
    match upload_file(&mut storage, &enc, "f".to_string(), &chunks, 2) {
        Err(UploadError::Store { index, .. }) => assert_eq!(index, 0),
        other => panic!("expected a store failure, got {other:?}"),
    }
    assert_eq!(storage.calls, 3);
}

#[test]
fn split_blocks_covers_the_input() {
    let data: Vec<u8> = (0..100u8).collect();
    let chunks = split_blocks(&data, 30);
    assert_eq!(chunks.len(), 4);
    assert_eq!(chunks[0].len(), 30);
    assert_eq!(chunks[1].len(), 30);
    assert_eq!(chunks[2].len(), 30);
    assert_eq!(chunks[3].len(), 10);
    let flat: Vec<u8> = chunks.concat();
    assert_eq!(flat, data);
    assert!(split_blocks(&Vec::new(), 30).is_empty());
}

#[test]
fn upload_builds_a_contiguous_manifest() {
    let mut storage = FlakyStorage { failures_left: 0, calls: 0 };
    let data: Vec<u8> = (0..100u8).collect();
    let chunks = split_blocks(&data, 30);
    let enc = PngEncoder();
    let (fi, index_url) =
        upload_file(&mut storage, &enc, "hundred.bin".to_string(), &chunks, 1).unwrap();
    assert_eq!(fi.name, "hundred.bin");
    assert_eq!(fi.size, 100);
    assert_eq!(fi.blocks.len(), 4);
    for (i, b) in fi.blocks.iter().enumerate() {
        assert_eq!(b.index, i as u64);
        assert_eq!(b.b3checksum, block_digest(&chunks[i]));
    }
    assert_eq!(fi.blocks[3].size, 10);
    assert_eq!(fi.b3checksum, block_digest(&data));
    assert!(index_url.starts_with("store://"));
    // four block images and the manifest image
    assert_eq!(storage.calls, 5);
}

fn sample_block(index: u64) -> Block {
    Block {
        index,
        size: 10,
        url: format!("store://{index}"),
        b3checksum: "00".to_string(),
    }
}

#[test]
fn sorting_restores_index_order() {
    let blocks = vec![sample_block(2), sample_block(0), sample_block(1)];
    let sorted = sort_blocks_by_index(blocks);
    let indexes: Vec<u64> = sorted.iter().map(|b| b.index).collect();
    assert_eq!(indexes, vec![0, 1, 2]);
    assert!(validate_contiguous(&sorted));
}

#[test]
fn gaps_and_duplicates_are_refused() {
    let with_gap = vec![sample_block(0), sample_block(2)];
    assert!(!validate_contiguous(&with_gap));
    match build_index("f".to_string(), 20, "s".to_string(), with_gap) {
        Err(UploadError::NotContiguous) => {}
        other => panic!("expected NotContiguous, got {other:?}"),
    }
    let dup = vec![sample_block(0), sample_block(0)];
    assert!(!validate_contiguous(&dup));
}

#[test]
fn size_mismatch_is_refused() {
    let blocks = vec![sample_block(0), sample_block(1)];
    match build_index("f".to_string(), 21, "s".to_string(), blocks) {
        Err(UploadError::SizeMismatch) => {}
        other => panic!("expected SizeMismatch, got {other:?}"),
    }
}

#[test]
fn matching_blocks_build_the_manifest() {
    let blocks = vec![sample_block(0), sample_block(1)];
    let fi = build_index("f".to_string(), 20, "sum".to_string(), blocks).unwrap();
    assert_eq!(fi.size, 20);
    assert_eq!(fi.b3checksum, "sum");
    assert_eq!(fi.blocks.len(), 2);
}

#[test]
fn whole_file_digest_matches_known_vector() {
    // BLAKE3 of the empty input, a published test vector.
    assert_eq!(
        block_digest(&[]),
        "af1349b9f5f9a1a6a0404dea36dcc9499bcb25c9adc112b7cc9a93cae41f3262"
    );
    assert_ne!(block_digest(&[1]), block_digest(&[2]));
    assert_eq!(block_digest(&[1, 2, 3]).len(), 64);
}

/// A storage stand-in that remembers every stored image, so a test can
/// play the reconstruction side too.
struct RecordingStorage {
    images: Vec<Vec<u8>>,
}

impl Storage for RecordingStorage {
    fn put(&mut self, data: &Vec<u8>) -> Result<String, StorageError> {
        self.images.push(data.clone());
        Ok(format!("mem://{}", self.images.len() - 1))
    }
}

#[test]
fn uploaded_images_reconstruct_the_file() {
    let mut storage = RecordingStorage { images: Vec::new() };
    let data: Vec<u8> = (0..40000u32).map(|i| (i % 253) as u8).collect();
    let chunks = split_blocks(&data, 16000);
    let enc = PngEncoder();
    let (fi, index_url) =
        upload_file(&mut storage, &enc, "big.bin".to_string(), &chunks, 0).unwrap();

    // The manifest image is the last stored one; it parses back to the
    // same manifest.
    let index_slot: usize = index_url.strip_prefix("mem://").unwrap().parse().unwrap();
    let restored_index = FileIndex::decode_from_image(&storage.images[index_slot]).unwrap();
    assert_eq!(restored_index, fi);

    // Fetch each block by its locator, decode with its real length, check
    // its digest, and concatenate in index order.
    let mut rebuilt: Vec<u8> = Vec::new();
    for b in &restored_index.blocks {
        let slot: usize = b.url.strip_prefix("mem://").unwrap().parse().unwrap();
        let bytes = enc.decode(&storage.images[slot], b.size as usize).unwrap();
        assert_eq!(block_digest(&bytes), b.b3checksum);
        rebuilt.extend_from_slice(&bytes);
    }
    assert_eq!(rebuilt.len() as u64, restored_index.size);
    assert_eq!(block_digest(&rebuilt), restored_index.b3checksum);
    assert_eq!(rebuilt, data);
}
