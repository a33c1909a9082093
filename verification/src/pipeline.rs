//! The upload pipeline: chunking a file into blocks, digesting and encoding
//! each block, handing images to a storage capability with bounded retry,
//! and assembling the manifest from the collected block records.

use vstd::prelude::*;

use vstd::assert_multisets_equal;

use crate::codec::{PngError, PngEncoder};
use crate::catalog::{spec_max_capacity, spec_standard_entries};
use crate::digest::{FileHasher, blake3_hex, block_digest};
use crate::manifest::{Block, FileIndex, IndexError, spec_framed_index, spec_ser_index};

verus! {

/// A failure reported by the storage capability; opaque to the pipeline,
/// which only counts and reports it.
#[derive(Debug, Clone, PartialEq, Eq)]
pub struct StorageError {
    pub message: String,
}

/// The capability the pipeline stores images through. Implementations own
/// all transport and session concerns; the pipeline treats `put` as a
/// fallible, retryable operation and assumes nothing about its result.
pub trait Storage {
    /// Stores one opaque byte buffer and returns a stable locator for it.
    /// Two calls on the same bytes may return different locators.
    fn put(&mut self, data: &Vec<u8>) -> Result<String, StorageError>;
}

/// Bounded retry around `Storage::put`: one initial attempt and up to
/// `max_retry` further ones, stopping at the first success. Returns the
/// last result and how many attempts were made; a failure is returned only
/// after all allowed attempts are spent.
pub fn put_with_retry<S: Storage>(storage: &mut S, data: &Vec<u8>, max_retry: u64) -> (r: (
    Result<String, StorageError>,
    u64,
))
    requires
        max_retry < u64::MAX,
    ensures
        1 <= r.1 <= max_retry + 1,
        r.0 is Err ==> r.1 == max_retry + 1,
{
    let mut attempt: u64 = 0;
    loop
        invariant
            0 <= attempt <= max_retry,
            max_retry < u64::MAX,
        decreases max_retry - attempt,
    {
        let res = storage.put(data);
        attempt = attempt + 1;
        if res.is_ok() || attempt == max_retry + 1 {
            return (res, attempt);
        }
    }
}

/// The concatenation of a list of byte strings.
pub open spec fn spec_concat(chunks: Seq<Seq<u8>>) -> Seq<u8>
    decreases chunks.len(),
{
    if chunks.len() == 0 {
        Seq::empty()
    } else {
        chunks[0] + spec_concat(chunks.drop_first())
    }
}

/// The views of a list of byte vectors.
pub open spec fn chunk_views(chunks: Seq<Vec<u8>>) -> Seq<Seq<u8>> {
    Seq::new(chunks.len(), |i: int| chunks[i]@)
}

/// Concatenation grows one chunk at a time.
pub proof fn lemma_concat_snoc(chunks: Seq<Seq<u8>>, c: Seq<u8>)
    ensures
        spec_concat(chunks.push(c)) == spec_concat(chunks) + c,
    decreases chunks.len(),
{
    let p = chunks.push(c);
    assert(spec_concat(p) == p[0] + spec_concat(p.drop_first()));
    if chunks.len() == 0 {
        assert(p.drop_first() =~= Seq::<Seq<u8>>::empty());
        assert(p[0] == c);
        assert(spec_concat(chunks) + c =~= c);
        assert(c + Seq::<u8>::empty() =~= c);
    } else {
        assert(p.drop_first() =~= chunks.drop_first().push(c));
        assert(p[0] == chunks[0]);
        lemma_concat_snoc(chunks.drop_first(), c);
        assert(spec_concat(chunks) == chunks[0] + spec_concat(chunks.drop_first()));
        vstd::seq_lib::lemma_concat_associative(
            chunks[0],
            spec_concat(chunks.drop_first()),
            c,
        );
    }
}

/// A concatenation splits at any chunk boundary.
pub proof fn lemma_concat_split(chunks: Seq<Seq<u8>>, k: int)
    requires
        0 <= k <= chunks.len(),
    ensures
        spec_concat(chunks) == spec_concat(chunks.take(k)) + spec_concat(chunks.skip(k)),
    decreases k,
{
    if k == 0 {
        assert(chunks.take(0) =~= Seq::<Seq<u8>>::empty());
        assert(chunks.skip(0) =~= chunks);
        assert(Seq::<u8>::empty() + spec_concat(chunks) =~= spec_concat(chunks));
    } else {
        lemma_concat_split(chunks, k - 1);
        assert(chunks.take(k) =~= chunks.take(k - 1).push(chunks[k - 1]));
        lemma_concat_snoc(chunks.take(k - 1), chunks[k - 1]);
        let rest = chunks.skip(k - 1);
        assert(rest[0] == chunks[k - 1]);
        assert(rest.drop_first() =~= chunks.skip(k));
        assert(spec_concat(rest) == chunks[k - 1] + spec_concat(chunks.skip(k)));
        vstd::seq_lib::lemma_concat_associative(
            spec_concat(chunks.take(k - 1)),
            chunks[k - 1],
            spec_concat(chunks.skip(k)),
        );
    }
}

/// Splits a byte buffer into sequential blocks of at most `block_size`
/// bytes: every block but the last is full, the last is never empty, and
/// in order they concatenate back to the input. An empty input gives no
/// blocks at all.
pub fn split_blocks(data: &Vec<u8>, block_size: usize) -> (r: Vec<Vec<u8>>)
    requires
        block_size >= 1,
    ensures
        spec_concat(chunk_views(r@)) == data@,
        forall|i: int| 0 <= i < r@.len() ==> #[trigger] r@[i]@.len() <= block_size,
        forall|i: int| 0 <= i < r@.len() - 1 ==> #[trigger] r@[i]@.len() == block_size,
        forall|i: int| 0 <= i < r@.len() ==> #[trigger] r@[i]@.len() >= 1,
        data@.len() == 0 ==> r@.len() == 0,
{
    let n = data.len();
    let mut out: Vec<Vec<u8>> = Vec::new();
    let mut pos: usize = 0;
    while pos < n
        invariant
            0 <= pos <= n == data@.len(),
            block_size >= 1,
            spec_concat(chunk_views(out@)) == data@.take(pos as int),
            forall|i: int| 0 <= i < out@.len() ==> #[trigger] out@[i]@.len() == block_size,
            pos == out@.len() * block_size,
        decreases n - pos,
    {
        let end = if n - pos < block_size {
            n
        } else {
            pos + block_size
        };
        let mut chunk: Vec<u8> = Vec::new();
        let mut k: usize = pos;
        while k < end
            invariant
                pos <= k <= end <= n == data@.len(),
                chunk@ == data@.subrange(pos as int, k as int),
            decreases end - k,
        {
            chunk.push(data[k]);
            proof {
                assert(chunk@ =~= data@.subrange(pos as int, (k + 1) as int));
            }
            k = k + 1;
        }
        proof {
            let ghost done = chunk_views(out@);
            lemma_concat_snoc(done, chunk@);
            assert(chunk_views(out@.push(chunk)) =~= done.push(chunk@));
            assert(data@.take(pos as int) + data@.subrange(pos as int, end as int) =~= data@.take(
                end as int,
            ));
        }
        let ghost old_len = out@.len();
        out.push(chunk);
        proof {
            if end == n && n - pos < block_size {
                assert(forall|i: int|
                    0 <= i < out@.len() - 1 ==> #[trigger] out@[i]@.len() == block_size);
            }
        }
        if end == n {
            proof {
                assert(data@.take(n as int) =~= data@);
                assert(forall|i: int|
                    0 <= i < out@.len() ==> #[trigger] out@[i]@.len() >= 1 && out@[i]@.len()
                        <= block_size);
                assert(forall|i: int|
                    0 <= i < out@.len() - 1 ==> #[trigger] out@[i]@.len() == block_size);
            }
            return out;
        }
        proof {
            assert(out@.len() * block_size == old_len * block_size + block_size) by (nonlinear_arith)
                requires
                    out@.len() == old_len + 1,
            ;
        }
        pos = end;
    }
    proof {
        assert(data@.take(n as int) =~= data@);
        assert(forall|i: int|
            0 <= i < out@.len() ==> #[trigger] out@[i]@.len() >= 1 && out@[i]@.len() <= block_size);
    }
    out
}


/// What makes a whole-file upload fail.
#[derive(Debug, PartialEq, Eq)]
pub enum UploadError {
    /// Encoding one block's image failed.
    Encode { index: u64, error: PngError },
    /// Storing one block's image failed after all allowed attempts.
    Store { index: u64, error: StorageError },
    /// The collected blocks are not contiguous from zero.
    NotContiguous,
    /// The collected block sizes do not add up to the file size.
    SizeMismatch,
    /// Framing or encoding the manifest itself failed.
    Index(IndexError),
    /// Storing the manifest image failed after all allowed attempts.
    IndexStore(StorageError),
}

/// The sum of the payload sizes of a list of blocks.
pub open spec fn spec_sum_sizes(blocks: Seq<Block>) -> int
    decreases blocks.len(),
{
    if blocks.len() == 0 {
        0
    } else {
        spec_sum_sizes(blocks.drop_last()) + blocks.last().size
    }
}

/// The sum grows one block at a time.
pub proof fn lemma_sum_snoc(blocks: Seq<Block>, b: Block)
    ensures
        spec_sum_sizes(blocks.push(b)) == spec_sum_sizes(blocks) + b.size,
{
    assert(blocks.push(b).drop_last() =~= blocks);
    assert(blocks.push(b).last() == b);
}

/// Every prefix sums to no more than the whole.
pub proof fn lemma_sum_prefix(blocks: Seq<Block>, k: int)
    requires
        0 <= k <= blocks.len(),
    ensures
        spec_sum_sizes(blocks.take(k)) <= spec_sum_sizes(blocks),
    decreases blocks.len() - k,
{
    if k == blocks.len() {
        assert(blocks.take(k) =~= blocks);
    } else {
        assert(blocks.take(k + 1).drop_last() =~= blocks.take(k));
        assert(blocks.take(k + 1).last() == blocks[k]);
        lemma_sum_prefix(blocks, k + 1);
    }
}

/// Whether each block sits at its own position: `blocks[i].index == i`.
pub open spec fn spec_contiguous(blocks: Seq<Block>) -> bool {
    forall|i: int| 0 <= i < blocks.len() ==> #[trigger] blocks[i].index == i
}

/// Checks that the blocks are contiguous from zero with no gaps and no
/// duplicates: block `i` claims index `i`.
pub fn validate_contiguous(blocks: &Vec<Block>) -> (r: bool)
    ensures
        r == spec_contiguous(blocks@),
{
    let n = blocks.len();
    let mut k: usize = 0;
    while k < n
        invariant
            0 <= k <= n == blocks@.len(),
            forall|i: int| 0 <= i < k ==> #[trigger] blocks@[i].index == i,
        decreases n - k,
    {
        if blocks[k].index != k as u64 {
            return false;
        }
        k = k + 1;
    }
    true
}

/// Orders collected block records by their index. Completion order is
/// arbitrary; this restores storage order without losing or inventing a
/// record.
pub fn sort_blocks_by_index(blocks: Vec<Block>) -> (r: Vec<Block>)
    ensures
        r@.to_multiset() == blocks@.to_multiset(),
        r@.len() == blocks@.len(),
        forall|i: int, j: int| 0 <= i < j < r@.len() ==> #[trigger] r@[i].index <= #[trigger] r@[j].index,
{
    broadcast use vstd::seq_lib::group_to_multiset_ensures;

    let mut rest = blocks;
    let mut out: Vec<Block> = Vec::new();
    while rest.len() > 0
        invariant
            out@.len() + rest@.len() == blocks@.len(),
            out@.to_multiset().add(rest@.to_multiset()) =~= blocks@.to_multiset(),
            forall|i: int, j: int|
                0 <= i < j < out@.len() ==> #[trigger] out@[i].index <= #[trigger] out@[j].index,
            forall|i: int, t: int|
                0 <= i < out@.len() && 0 <= t < rest@.len() ==> #[trigger] out@[i].index
                    <= #[trigger] rest@[t].index,
        decreases rest@.len(),
    {
        let n = rest.len();
        let mut m: usize = 0;
        let mut k: usize = 1;
        while k < n
            invariant
                0 <= m < k <= n == rest@.len(),
                forall|t: int| 0 <= t < k ==> rest@[m as int].index <= #[trigger] rest@[t].index,
            decreases n - k,
        {
            if rest[k].index < rest[m].index {
                m = k;
            }
            k = k + 1;
        }
        let ghost old_out = out@;
        let ghost old_rest = rest@;
        let b = rest.remove(m);
        out.push(b);
        proof {
            old_rest.to_multiset_ensures();
            old_out.to_multiset_ensures();
            assert(old_rest[m as int] == b);
            assert(old_rest.contains(b));
            assert(old_rest.to_multiset().count(b) > 0);
            assert(rest@ == old_rest.remove(m as int));
            assert(out@ == old_out.push(b));
            assert(rest@.to_multiset() =~= old_rest.to_multiset().remove(b));
            assert(out@.to_multiset() =~= old_out.to_multiset().insert(b));
            assert_multisets_equal!(out@.to_multiset().add(rest@.to_multiset()),
                blocks@.to_multiset());
            assert(forall|t: int|
                0 <= t < rest@.len() ==> b.index <= #[trigger] rest@[t].index);
        }
    }
    out
}

/// Builds the manifest once all blocks are collected and ordered: accepts
/// exactly when the blocks are contiguous from zero and their sizes add up
/// to the declared file size.
pub fn build_index(name: String, size: u64, b3checksum: String, blocks: Vec<Block>) -> (r: Result<
    FileIndex,
    UploadError,
>)
    ensures
        (spec_contiguous(blocks@) && spec_sum_sizes(blocks@) == size) <==> r matches Ok(fi),
        r matches Ok(fi) ==> fi == (FileIndex { name, size, b3checksum, blocks }),
        !spec_contiguous(blocks@) ==> r == Err::<FileIndex, UploadError>(
            UploadError::NotContiguous,
        ),
        (spec_contiguous(blocks@) && spec_sum_sizes(blocks@) != size) ==> r == Err::<
            FileIndex,
            UploadError,
        >(UploadError::SizeMismatch),
{
    if !validate_contiguous(&blocks) {
        return Err(UploadError::NotContiguous);
    }
    let n = blocks.len();
    let mut acc: u64 = 0;
    let mut k: usize = 0;
    while k < n
        invariant
            0 <= k <= n == blocks@.len(),
            spec_contiguous(blocks@),
            acc == spec_sum_sizes(blocks@.take(k as int)),
        decreases n - k,
    {
        let sz = blocks[k].size;
        proof {
            assert(blocks@.take((k + 1) as int).drop_last() =~= blocks@.take(k as int));
            assert(blocks@.take((k + 1) as int).last() == blocks@[k as int]);
        }
        acc = match acc.checked_add(sz) {
            Some(v) => v,
            None => {
                proof {
                    lemma_sum_prefix(blocks@, (k + 1) as int);
                    assert(blocks@.take(blocks@.len() as int) =~= blocks@);
                }
                return Err(UploadError::SizeMismatch);
            },
        };
        k = k + 1;
    }
    proof {
        assert(blocks@.take(n as int) =~= blocks@);
    }
    if acc != size {
        return Err(UploadError::SizeMismatch);
    }
    Ok(FileIndex { name, size, b3checksum, blocks })
}


/// The manifest invariants a completed upload guarantees: one block per
/// chunk, indexed contiguously from zero in chunk order, each with the
/// chunk's size and digest; the total size is the file's length and the
/// whole-file digest is the digest of all chunks concatenated in order.
pub open spec fn spec_upload_index_ok(
    name: Seq<char>,
    chunks: Seq<Seq<u8>>,
    fi: crate::manifest::FileIndexV,
) -> bool {
    &&& fi.name == name
    &&& fi.blocks.len() == chunks.len()
    &&& (forall|i: int|
        0 <= i < chunks.len() ==> (#[trigger] fi.blocks[i]).index == i && fi.blocks[i].size
            == chunks[i].len() && fi.blocks[i].b3checksum == blake3_hex(chunks[i]))
    &&& fi.size == spec_concat(chunks).len()
    &&& fi.b3checksum == blake3_hex(spec_concat(chunks))
}

/// What an upload error may say: an encode failure points at a chunk that
/// genuinely exceeds the catalog and carries exactly that oversize error;
/// a store failure points at a real chunk; a manifest-framing failure is
/// either a wire form truly too long for the length prefix or a framed
/// manifest truly past the largest capacity. `NotContiguous` and
/// `SizeMismatch` are ruled out separately.
pub open spec fn spec_upload_err_ok(chunks: Seq<Seq<u8>>, e: UploadError) -> bool {
    match e {
        UploadError::Encode { index, error } => 0 <= index < chunks.len() && chunks[
            index as int
        ].len() > spec_max_capacity(spec_standard_entries()) && error == (PngError::TooLarge {
            len: chunks[index as int].len() as usize,
            max: spec_max_capacity(spec_standard_entries()) as usize,
        }),
        UploadError::Store { index, error } => 0 <= index < chunks.len(),
        UploadError::Index(ie) => match ie {
            IndexError::Oversize { len } => len + 4 > u32::MAX,
            IndexError::Codec(pe) => match pe {
                PngError::TooLarge { len, max } => max == spec_max_capacity(
                    spec_standard_entries(),
                ) && len > max,
                _ => false,
            },
            _ => false,
        },
        _ => true,
    }
}

/// Uploads one file's chunks in index order: digests each chunk and the
/// whole stream, encodes each chunk into an image, stores it with bounded
/// retry, collects the block records, and finally stores the manifest
/// itself as one more image. Returns the manifest and its locator.
#[verifier::loop_isolation(false)]
#[verifier::rlimit(100)]
pub fn upload_file<S: Storage>(
    storage: &mut S,
    encoder: &PngEncoder,
    name: String,
    chunks: &Vec<Vec<u8>>,
    max_retry: u64,
) -> (r: Result<(FileIndex, String), UploadError>)
    requires
        max_retry < u64::MAX,
        chunks@.len() <= u64::MAX,
        spec_concat(chunk_views(chunks@)).len() <= u64::MAX,
    ensures
        r matches Ok(p) ==> spec_upload_index_ok(name@, chunk_views(chunks@), p.0@),
        r matches Err(e) ==> spec_upload_err_ok(chunk_views(chunks@), e),
        r != Err::<(FileIndex, String), UploadError>(UploadError::NotContiguous),
        r != Err::<(FileIndex, String), UploadError>(UploadError::SizeMismatch),
{
    let ghost views = chunk_views(chunks@);
    let n = chunks.len();
    let mut hasher = FileHasher::new();
    let mut blocks: Vec<Block> = Vec::new();
    let mut sum: u64 = 0;
    let mut k: usize = 0;
    while k < n
        invariant
            0 <= k <= n,
            blocks@.len() == k,
            hasher.bytes() == spec_concat(views.take(k as int)),
            sum == spec_concat(views.take(k as int)).len(),
            sum == spec_sum_sizes(blocks@),
            forall|i: int|
                0 <= i < k ==> (#[trigger] blocks@[i]).index == i && blocks@[i].size
                    == views[i].len() && blocks@[i].b3checksum@ == blake3_hex(views[i]),
        decreases n - k,
    {
        let chunk = &chunks[k];
        proof {
            lemma_concat_split(views, k + 1);
            lemma_concat_split(views, k as int);
            assert(views.take((k + 1) as int) =~= views.take(k as int).push(views[k as int]));
            lemma_concat_snoc(views.take(k as int), views[k as int]);
        }
        hasher.update(chunk.as_slice());
        let b3checksum = block_digest(chunk.as_slice());
        let img = match encoder.encode(chunk.as_slice()) {
            Ok(v) => v,
            Err(error) => {
                return Err(UploadError::Encode { index: k as u64, error });
            },
        };
        let (res, _attempts) = put_with_retry(storage, &img, max_retry);
        let url = match res {
            Ok(u) => u,
            Err(error) => {
                return Err(UploadError::Store { index: k as u64, error });
            },
        };
        let size = chunk.len() as u64;
        let ghost old_blocks = blocks@;
        blocks.push(Block { index: k as u64, size, url, b3checksum });
        proof {
            lemma_sum_snoc(old_blocks, blocks@.last());
        }
        sum = sum + size;
        k = k + 1;
    }
    proof {
        assert(views.take(n as int) =~= views);
    }
    let b3checksum = hasher.finalize_hex();
    let fi = match build_index(name, sum, b3checksum, blocks) {
        Ok(fi) => fi,
        Err(e) => {
            return Err(e);
        },
    };
    let index_img = match fi.encode_to_image(encoder) {
        Ok(v) => v,
        Err(e) => {
            proof {
                let ser = spec_ser_index(fi@);
                let framed = spec_framed_index(fi@);
                assert(framed.len() == 4 + ser.len());
                if framed.len() > u32::MAX {
                    assert(e == (IndexError::Oversize { len: ser.len() as usize }));
                } else {
                    assert(e == (IndexError::Codec(
                        (PngError::TooLarge {
                            len: framed.len() as usize,
                            max: spec_max_capacity(spec_standard_entries()) as usize,
                        }),
                    )));
                }
            }
            return Err(UploadError::Index(e));
        },
    };
    let (res, _attempts) = put_with_retry(storage, &index_img, max_retry);
    let index_url = match res {
        Ok(u) => u,
        Err(e) => {
            return Err(UploadError::IndexStore(e));
        },
    };
    proof {
        assert(fi@.blocks =~= Seq::new(views.len(), |i: int| fi@.blocks[i]));
    }
    Ok((fi, index_url))
}

} // verus!
