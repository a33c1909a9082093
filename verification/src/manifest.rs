//! The content index: the record that lets a file be reassembled from its
//! stored blocks, together with its wire format. The format tags each field
//! by name and length-prefixes strings, so it round-trips every field
//! losslessly; parsing it back is proved to undo serialization exactly.

use vstd::prelude::*;

use vstd::utf8::{decode_utf8, encode_utf8, valid_utf8};

use crate::catalog::{spec_max_capacity, spec_selected_capacity, spec_standard_entries};
use crate::codec::{PngEncoder, PngError, decode_raster, png_raster, spec_encode_ok, spec_padded};

verus! {

/// One stored block of the original file: its position, its real payload
/// size in bytes (padding excluded), where the image went, and the digest
/// of the raw block bytes.
#[derive(Clone, Debug, PartialEq, Eq)]
pub struct Block {
    pub index: u64,
    pub size: u64,
    pub url: String,
    pub b3checksum: String,
}

/// The manifest of one uploaded file: name, total size, whole-file digest,
/// and the blocks in index order.
#[derive(Debug, PartialEq, Eq)]
pub struct FileIndex {
    pub name: String,
    pub size: u64,
    /// Digest of the whole raw file.
    pub b3checksum: String,
    pub blocks: Vec<Block>,
}

/// The mathematical value of a block.
pub struct BlockV {
    pub index: u64,
    pub size: u64,
    pub url: Seq<char>,
    pub b3checksum: Seq<char>,
}

/// The mathematical value of a manifest.
pub struct FileIndexV {
    pub name: Seq<char>,
    pub size: u64,
    pub b3checksum: Seq<char>,
    pub blocks: Seq<BlockV>,
}

impl View for Block {
    type V = BlockV;

    open spec fn view(&self) -> BlockV {
        BlockV { index: self.index, size: self.size, url: self.url@, b3checksum: self.b3checksum@ }
    }
}

impl View for FileIndex {
    type V = FileIndexV;

    open spec fn view(&self) -> FileIndexV {
        FileIndexV {
            name: self.name@,
            size: self.size,
            b3checksum: self.b3checksum@,
            blocks: Seq::new(self.blocks@.len(), |i: int| self.blocks@[i]@),
        }
    }
}

/// The eight bytes of `n`, most significant first.
pub open spec fn spec_be64(n: u64) -> Seq<u8> {
    seq![
        ((n >> 56) & 0xff) as u8,
        ((n >> 48) & 0xff) as u8,
        ((n >> 40) & 0xff) as u8,
        ((n >> 32) & 0xff) as u8,
        ((n >> 24) & 0xff) as u8,
        ((n >> 16) & 0xff) as u8,
        ((n >> 8) & 0xff) as u8,
        (n & 0xff) as u8,
    ]
}

/// The value eight big-endian bytes hold.
pub open spec fn spec_be64_val(b: Seq<u8>) -> u64 {
    (((b[0] as u64) << 56) | ((b[1] as u64) << 48) | ((b[2] as u64) << 40) | ((b[3] as u64) << 32)
        | ((b[4] as u64) << 24) | ((b[5] as u64) << 16) | ((b[6] as u64) << 8) | (b[7] as u64)) as u64
}

/// A length-prefixed raw string: the byte count, then the bytes.
pub open spec fn spec_raw(bytes: Seq<u8>) -> Seq<u8> {
    spec_be64(bytes.len() as u64) + bytes
}

/// The byte of the separator after every field.
pub open spec fn semi() -> Seq<u8> {
    seq![59u8]
}

/// The bytes of `i=`.
pub open spec fn tag_index() -> Seq<u8> {
    seq![105u8, 61u8]
}

/// The bytes of `s=`.
pub open spec fn tag_size_short() -> Seq<u8> {
    seq![115u8, 61u8]
}

/// The bytes of `u=`.
pub open spec fn tag_url() -> Seq<u8> {
    seq![117u8, 61u8]
}

/// The bytes of `c=`.
pub open spec fn tag_checksum_short() -> Seq<u8> {
    seq![99u8, 61u8]
}

/// The bytes of `name=`.
pub open spec fn tag_name() -> Seq<u8> {
    seq![110u8, 97u8, 109u8, 101u8, 61u8]
}

/// The bytes of `size=`.
pub open spec fn tag_size() -> Seq<u8> {
    seq![115u8, 105u8, 122u8, 101u8, 61u8]
}

/// The bytes of `b3checksum=`.
pub open spec fn tag_checksum() -> Seq<u8> {
    seq![98u8, 51u8, 99u8, 104u8, 101u8, 99u8, 107u8, 115u8, 117u8, 109u8, 61u8]
}

/// The bytes of `blocks=`.
pub open spec fn tag_blocks() -> Seq<u8> {
    seq![98u8, 108u8, 111u8, 99u8, 107u8, 115u8, 61u8]
}

/// The wire form of one block:
/// `i=<index>;s=<size>;u=<url>;c=<checksum>;`.
#[verifier::opaque]
pub open spec fn spec_ser_block(b: BlockV) -> Seq<u8> {
    tag_index() + spec_be64(b.index) + semi() + tag_size_short() + spec_be64(b.size) + semi()
        + tag_url() + spec_raw(encode_utf8(b.url)) + semi() + tag_checksum_short() + spec_raw(
        encode_utf8(b.b3checksum),
    ) + semi()
}

/// The wire forms of a tail of the block list, concatenated.
pub open spec fn spec_ser_blocks(blocks: Seq<BlockV>) -> Seq<u8>
    decreases blocks.len(),
{
    if blocks.len() == 0 {
        Seq::empty()
    } else {
        spec_ser_block(blocks[0]) + spec_ser_blocks(blocks.drop_first())
    }
}

/// The wire form of a manifest:
/// `name=<name>;size=<size>;b3checksum=<sum>;blocks=<count>;<blocks...>`.
pub open spec fn spec_ser_index(v: FileIndexV) -> Seq<u8> {
    tag_name() + spec_raw(encode_utf8(v.name)) + semi() + tag_size() + spec_be64(v.size) + semi()
        + tag_checksum() + spec_raw(encode_utf8(v.b3checksum)) + semi() + tag_blocks() + spec_be64(
        v.blocks.len() as u64,
    ) + semi() + spec_ser_blocks(v.blocks)
}

/// Consumes a literal prefix.
pub open spec fn spec_expect(lit: Seq<u8>, s: Seq<u8>) -> Option<Seq<u8>> {
    if lit.len() <= s.len() && s.take(lit.len() as int) == lit {
        Some(s.skip(lit.len() as int))
    } else {
        None
    }
}

/// Consumes eight big-endian bytes.
pub open spec fn spec_parse_be64(s: Seq<u8>) -> Option<(u64, Seq<u8>)> {
    if s.len() >= 8 {
        Some((spec_be64_val(s.take(8)), s.skip(8)))
    } else {
        None
    }
}

/// Consumes a length-prefixed raw string.
pub open spec fn spec_parse_raw(s: Seq<u8>) -> Option<(Seq<u8>, Seq<u8>)> {
    match spec_parse_be64(s) {
        Some((n, r)) => if n <= r.len() {
            Some((r.take(n as int), r.skip(n as int)))
        } else {
            None
        },
        None => None,
    }
}

/// Consumes a length-prefixed string that must hold valid text.
pub open spec fn spec_parse_str(s: Seq<u8>) -> Option<(Seq<char>, Seq<u8>)> {
    match spec_parse_raw(s) {
        Some((bs, r)) => if valid_utf8(bs) {
            Some((decode_utf8(bs), r))
        } else {
            None
        },
        None => None,
    }
}

/// Consumes one block record.
#[verifier::opaque]
pub open spec fn spec_parse_block(s: Seq<u8>) -> Option<(BlockV, Seq<u8>)> {
    match spec_expect(tag_index(), s) {
        Some(s) => match spec_parse_be64(s) {
            Some((index, s)) => match spec_expect(semi() + tag_size_short(), s) {
                Some(s) => match spec_parse_be64(s) {
                    Some((size, s)) => match spec_expect(semi() + tag_url(), s) {
                        Some(s) => match spec_parse_str(s) {
                            Some((url, s)) => match spec_expect(semi() + tag_checksum_short(), s) {
                                Some(s) => match spec_parse_str(s) {
                                    Some((b3checksum, s)) => match spec_expect(semi(), s) {
                                        Some(s) => Some(
                                            (BlockV { index, size, url, b3checksum }, s),
                                        ),
                                        None => None,
                                    },
                                    None => None,
                                },
                                None => None,
                            },
                            None => None,
                        },
                        None => None,
                    },
                    None => None,
                },
                None => None,
            },
            None => None,
        },
        None => None,
    }
}

/// Consumes `n` block records.
pub open spec fn spec_parse_blocks(n: int, s: Seq<u8>) -> Option<(Seq<BlockV>, Seq<u8>)>
    decreases n,
{
    if n <= 0 {
        Some((Seq::empty(), s))
    } else {
        match spec_parse_block(s) {
            Some((b, r)) => match spec_parse_blocks(n - 1, r) {
                Some((bs, r2)) => Some((seq![b] + bs, r2)),
                None => None,
            },
            None => None,
        }
    }
}

/// The leading fields of a manifest, before its block list.
pub struct HeaderV {
    pub name: Seq<char>,
    pub size: u64,
    pub b3checksum: Seq<char>,
    pub count: u64,
}

/// Parses the leading fields of a manifest.
pub open spec fn spec_parse_header(s: Seq<u8>) -> Option<(HeaderV, Seq<u8>)> {
    match spec_expect(tag_name(), s) {
        Some(s) => match spec_parse_str(s) {
            Some((name, s)) => match spec_expect(semi() + tag_size(), s) {
                Some(s) => match spec_parse_be64(s) {
                    Some((size, s)) => match spec_expect(semi() + tag_checksum(), s) {
                        Some(s) => match spec_parse_str(s) {
                            Some((b3checksum, s)) => match spec_expect(semi() + tag_blocks(), s) {
                                Some(s) => match spec_parse_be64(s) {
                                    Some((count, s)) => match spec_expect(semi(), s) {
                                        Some(s) => Some(
                                            (HeaderV { name, size, b3checksum, count }, s),
                                        ),
                                        None => None,
                                    },
                                    None => None,
                                },
                                None => None,
                            },
                            None => None,
                        },
                        None => None,
                    },
                    None => None,
                },
                None => None,
            },
            None => None,
        },
        None => None,
    }
}

/// Parses a whole manifest; the input must hold nothing else.
pub open spec fn spec_parse_index(s: Seq<u8>) -> Option<FileIndexV> {
    match spec_parse_header(s) {
        Some((h, s)) => match spec_parse_blocks(h.count as int, s) {
            Some((blocks, r)) => if r.len() == 0 {
                Some(FileIndexV { name: h.name, size: h.size, b3checksum: h.b3checksum, blocks })
            } else {
                None
            },
            None => None,
        },
        None => None,
    }
}

/// Eight big-endian bytes read back as the value they were written from.
pub proof fn lemma_be64_round_trip(n: u64, rest: Seq<u8>)
    ensures
        spec_parse_be64(spec_be64(n) + rest) == Some((n, rest)),
{
    let s = spec_be64(n) + rest;
    assert(s.take(8) =~= spec_be64(n));
    assert(s.skip(8) =~= rest);
    let b0 = ((n >> 56) & 0xff) as u8;
    let b1 = ((n >> 48) & 0xff) as u8;
    let b2 = ((n >> 40) & 0xff) as u8;
    let b3 = ((n >> 32) & 0xff) as u8;
    let b4 = ((n >> 24) & 0xff) as u8;
    let b5 = ((n >> 16) & 0xff) as u8;
    let b6 = ((n >> 8) & 0xff) as u8;
    let b7 = (n & 0xff) as u8;
    assert((((b0 as u64) << 56) | ((b1 as u64) << 48) | ((b2 as u64) << 40) | ((b3 as u64) << 32)
        | ((b4 as u64) << 24) | ((b5 as u64) << 16) | ((b6 as u64) << 8) | (b7 as u64)) == n)
        by (bit_vector)
        requires
            b0 == ((n >> 56) & 0xff) as u8,
            b1 == ((n >> 48) & 0xff) as u8,
            b2 == ((n >> 40) & 0xff) as u8,
            b3 == ((n >> 32) & 0xff) as u8,
            b4 == ((n >> 24) & 0xff) as u8,
            b5 == ((n >> 16) & 0xff) as u8,
            b6 == ((n >> 8) & 0xff) as u8,
            b7 == (n & 0xff) as u8,
    ;
    assert(spec_be64_val(s.take(8)) == n);
}

/// A literal prefix is consumed exactly.
pub proof fn lemma_expect_round_trip(lit: Seq<u8>, rest: Seq<u8>)
    ensures
        spec_expect(lit, lit + rest) == Some(rest),
{
    let s = lit + rest;
    assert(s.take(lit.len() as int) =~= lit);
    assert(s.skip(lit.len() as int) =~= rest);
}

/// A length-prefixed string is consumed exactly.
pub proof fn lemma_raw_round_trip(bytes: Seq<u8>, rest: Seq<u8>)
    requires
        bytes.len() <= u64::MAX,
    ensures
        spec_parse_raw(spec_raw(bytes) + rest) == Some((bytes, rest)),
{
    let s = spec_raw(bytes) + rest;
    assert(s =~= spec_be64(bytes.len() as u64) + (bytes + rest));
    lemma_be64_round_trip(bytes.len() as u64, bytes + rest);
    assert((bytes + rest).take(bytes.len() as int) =~= bytes);
    assert((bytes + rest).skip(bytes.len() as int) =~= rest);
}

/// Text encoded to bytes and length-prefixed comes back as the same text.
pub proof fn lemma_str_round_trip(text: Seq<char>, rest: Seq<u8>)
    requires
        encode_utf8(text).len() <= u64::MAX,
    ensures
        spec_parse_str(spec_raw(encode_utf8(text)) + rest) == Some((text, rest)),
{
    broadcast use vstd::utf8::encode_utf8_valid_utf8;
    broadcast use vstd::utf8::encode_utf8_decode_utf8;

    lemma_raw_round_trip(encode_utf8(text), rest);
}

/// One serialized block parses back to itself.
pub proof fn lemma_block_round_trip(b: BlockV, rest: Seq<u8>)
    requires
        encode_utf8(b.url).len() <= u64::MAX,
        encode_utf8(b.b3checksum).len() <= u64::MAX,
    ensures
        spec_parse_block(spec_ser_block(b) + rest) == Some((b, rest)),
{
    reveal(spec_ser_block);
    reveal(spec_parse_block);
    let url_b = spec_raw(encode_utf8(b.url));
    let sum_b = spec_raw(encode_utf8(b.b3checksum));
    let r5 = semi() + rest;
    let r4 = sum_b + r5;
    let r3 = (semi() + tag_checksum_short()) + r4;
    let r2 = url_b + r3;
    let r1 = (semi() + tag_url()) + r2;
    let r0b = spec_be64(b.size) + r1;
    let r0a = (semi() + tag_size_short()) + r0b;
    let r0 = spec_be64(b.index) + r0a;
    assert(spec_ser_block(b) + rest =~= tag_index() + r0);
    lemma_expect_round_trip(tag_index(), r0);
    lemma_be64_round_trip(b.index, r0a);
    lemma_expect_round_trip(semi() + tag_size_short(), r0b);
    lemma_be64_round_trip(b.size, r1);
    lemma_expect_round_trip(semi() + tag_url(), r2);
    lemma_str_round_trip(b.url, r3);
    lemma_expect_round_trip(semi() + tag_checksum_short(), r4);
    lemma_str_round_trip(b.b3checksum, r5);
    lemma_expect_round_trip(semi(), rest);
    assert(spec_parse_block(spec_ser_block(b) + rest) == Some(
        (BlockV { index: b.index, size: b.size, url: b.url, b3checksum: b.b3checksum }, rest),
    ));
    assert(BlockV { index: b.index, size: b.size, url: b.url, b3checksum: b.b3checksum } == b);
}

/// Whether every block's strings fit the length prefixes.
pub open spec fn blocks_len_ok(blocks: Seq<BlockV>) -> bool {
    forall|i: int|
        0 <= i < blocks.len() ==> encode_utf8(#[trigger] blocks[i].url).len() <= u64::MAX
            && encode_utf8(blocks[i].b3checksum).len() <= u64::MAX
}

/// A serialized block list parses back to itself.
#[verifier::rlimit(100)]
pub proof fn lemma_blocks_round_trip(blocks: Seq<BlockV>, rest: Seq<u8>)
    requires
        blocks_len_ok(blocks),
    ensures
        spec_parse_blocks(blocks.len() as int, spec_ser_blocks(blocks) + rest) == Some(
            (blocks, rest),
        ),
    decreases blocks.len(),
{
    if blocks.len() == 0 {
        assert(spec_ser_blocks(blocks) + rest =~= rest);
        assert(blocks =~= Seq::<BlockV>::empty());
    } else {
        let b = blocks[0];
        let tail = blocks.drop_first();
        assert(encode_utf8(blocks[0].url).len() <= u64::MAX && encode_utf8(
            blocks[0].b3checksum,
        ).len() <= u64::MAX);
        assert(spec_ser_blocks(blocks) == spec_ser_block(b) + spec_ser_blocks(tail));
        vstd::seq_lib::lemma_concat_associative(
            spec_ser_block(b),
            spec_ser_blocks(tail),
            rest,
        );
        lemma_block_round_trip(b, spec_ser_blocks(tail) + rest);
        assert(blocks_len_ok(tail));
        lemma_blocks_round_trip(tail, rest);
        assert(seq![b] + tail =~= blocks);
    }
}

/// Whether a manifest's strings and block count fit the wire format's
/// length prefixes; always true of values held in memory.
pub open spec fn index_len_ok(v: FileIndexV) -> bool {
    &&& encode_utf8(v.name).len() <= u64::MAX
    &&& encode_utf8(v.b3checksum).len() <= u64::MAX
    &&& v.blocks.len() <= u64::MAX
    &&& blocks_len_ok(v.blocks)
}

/// The leading fields of a serialized manifest parse back to themselves,
/// leaving exactly the serialized block list.
pub proof fn lemma_header_round_trip(v: FileIndexV)
    requires
        index_len_ok(v),
    ensures
        (spec_parse_header(spec_ser_index(v)) matches Some(p) && p.0 == (HeaderV {
            name: v.name,
            size: v.size,
            b3checksum: v.b3checksum,
            count: v.blocks.len() as u64,
        }) && p.1 == spec_ser_blocks(v.blocks)),
{
    let name_b = spec_raw(encode_utf8(v.name));
    let sum_b = spec_raw(encode_utf8(v.b3checksum));
    let blocks_b = spec_ser_blocks(v.blocks);
    let r5 = blocks_b;
    let r4b = semi() + r5;
    let r4 = spec_be64(v.blocks.len() as u64) + r4b;
    let r3 = (semi() + tag_blocks()) + r4;
    let r2 = sum_b + r3;
    let r1 = (semi() + tag_checksum()) + r2;
    let r0b = spec_be64(v.size) + r1;
    let r0a = (semi() + tag_size()) + r0b;
    let r0 = name_b + r0a;
    assert(spec_ser_index(v) =~= tag_name() + r0);
    lemma_expect_round_trip(tag_name(), r0);
    lemma_str_round_trip(v.name, r0a);
    lemma_expect_round_trip(semi() + tag_size(), r0b);
    lemma_be64_round_trip(v.size, r1);
    lemma_expect_round_trip(semi() + tag_checksum(), r2);
    lemma_str_round_trip(v.b3checksum, r3);
    lemma_expect_round_trip(semi() + tag_blocks(), r4);
    lemma_be64_round_trip(v.blocks.len() as u64, r4b);
    lemma_expect_round_trip(semi(), r5);
}

/// Round trip: parsing a serialized manifest gives back the manifest.
pub proof fn lemma_index_round_trip(v: FileIndexV)
    requires
        index_len_ok(v),
    ensures
        spec_parse_index(spec_ser_index(v)) == Some(v),
{
    lemma_header_round_trip(v);
    let blocks_b = spec_ser_blocks(v.blocks);
    assert(blocks_b =~= blocks_b + Seq::<u8>::empty());
    lemma_blocks_round_trip(v.blocks, Seq::empty());
    assert(spec_parse_index(spec_ser_index(v)) == Some(
        FileIndexV { name: v.name, size: v.size, b3checksum: v.b3checksum, blocks: v.blocks },
    ));
    assert(FileIndexV { name: v.name, size: v.size, b3checksum: v.b3checksum, blocks: v.blocks }
        == v);
}

fn push_semi(out: &mut Vec<u8>)
    ensures
        final (out)@ == old(out)@ + semi(),
{
    out.push(59);
    proof {
        assert(out@ =~= old(out)@ + semi());
    }
}

fn push_tag_index(out: &mut Vec<u8>)
    ensures
        final (out)@ == old(out)@ + tag_index(),
{
    out.push(105);
    out.push(61);
    proof {
        assert(out@ =~= old(out)@ + tag_index());
    }
}

fn push_tag_size_short(out: &mut Vec<u8>)
    ensures
        final (out)@ == old(out)@ + tag_size_short(),
{
    out.push(115);
    out.push(61);
    proof {
        assert(out@ =~= old(out)@ + tag_size_short());
    }
}

fn push_tag_url(out: &mut Vec<u8>)
    ensures
        final (out)@ == old(out)@ + tag_url(),
{
    out.push(117);
    out.push(61);
    proof {
        assert(out@ =~= old(out)@ + tag_url());
    }
}

fn push_tag_checksum_short(out: &mut Vec<u8>)
    ensures
        final (out)@ == old(out)@ + tag_checksum_short(),
{
    out.push(99);
    out.push(61);
    proof {
        assert(out@ =~= old(out)@ + tag_checksum_short());
    }
}

fn push_tag_name(out: &mut Vec<u8>)
    ensures
        final (out)@ == old(out)@ + tag_name(),
{
    out.push(110);
    out.push(97);
    out.push(109);
    out.push(101);
    out.push(61);
    proof {
        assert(out@ =~= old(out)@ + tag_name());
    }
}

fn push_tag_size(out: &mut Vec<u8>)
    ensures
        final (out)@ == old(out)@ + tag_size(),
{
    out.push(115);
    out.push(105);
    out.push(122);
    out.push(101);
    out.push(61);
    proof {
        assert(out@ =~= old(out)@ + tag_size());
    }
}

fn push_tag_checksum(out: &mut Vec<u8>)
    ensures
        final (out)@ == old(out)@ + tag_checksum(),
{
    out.push(98);
    out.push(51);
    out.push(99);
    out.push(104);
    out.push(101);
    out.push(99);
    out.push(107);
    out.push(115);
    out.push(117);
    out.push(109);
    out.push(61);
    proof {
        assert(out@ =~= old(out)@ + tag_checksum());
    }
}

fn push_tag_blocks(out: &mut Vec<u8>)
    ensures
        final (out)@ == old(out)@ + tag_blocks(),
{
    out.push(98);
    out.push(108);
    out.push(111);
    out.push(99);
    out.push(107);
    out.push(115);
    out.push(61);
    proof {
        assert(out@ =~= old(out)@ + tag_blocks());
    }
}

fn push_be64(out: &mut Vec<u8>, n: u64)
    ensures
        final (out)@ == old(out)@ + spec_be64(n),
{
    proof {
        assert((n >> 56) & 0xff < 256 && (n >> 48) & 0xff < 256 && (n >> 40) & 0xff < 256 && (n
            >> 32) & 0xff < 256 && (n >> 24) & 0xff < 256 && (n >> 16) & 0xff < 256 && (n >> 8)
            & 0xff < 256 && n & 0xff < 256) by (bit_vector);
    }
    out.push(((n >> 56) & 0xff) as u8);
    out.push(((n >> 48) & 0xff) as u8);
    out.push(((n >> 40) & 0xff) as u8);
    out.push(((n >> 32) & 0xff) as u8);
    out.push(((n >> 24) & 0xff) as u8);
    out.push(((n >> 16) & 0xff) as u8);
    out.push(((n >> 8) & 0xff) as u8);
    out.push((n & 0xff) as u8);
    proof {
        assert(out@ =~= old(out)@ + spec_be64(n));
    }
}

fn push_str(out: &mut Vec<u8>, s: &str)
    ensures
        final (out)@ == old(out)@ + spec_raw(encode_utf8(s@)),
        encode_utf8(s@).len() <= usize::MAX,
{
    let bytes = s.as_bytes();
    push_be64(out, bytes.len() as u64);
    out.extend_from_slice(bytes);
    proof {
        assert(out@ =~= old(out)@ + spec_raw(encode_utf8(s@)));
    }
}

/// Appends `spec_ser_blocks` of a growing list one block at a time.
proof fn lemma_ser_blocks_snoc(blocks: Seq<BlockV>, b: BlockV)
    ensures
        spec_ser_blocks(blocks.push(b)) == spec_ser_blocks(blocks) + spec_ser_block(b),
    decreases blocks.len(),
{
    let p = blocks.push(b);
    assert(spec_ser_blocks(p) == spec_ser_block(p[0]) + spec_ser_blocks(p.drop_first()));
    if blocks.len() == 0 {
        assert(p.drop_first() =~= Seq::<BlockV>::empty());
        assert(p[0] == b);
        assert(spec_ser_blocks(Seq::<BlockV>::empty()) == Seq::<u8>::empty());
        assert(spec_ser_block(b) + Seq::<u8>::empty() =~= spec_ser_block(b));
        assert(spec_ser_blocks(blocks) == Seq::<u8>::empty());
        assert(Seq::<u8>::empty() + spec_ser_block(b) =~= spec_ser_block(b));
    } else {
        assert(p.drop_first() =~= blocks.drop_first().push(b));
        assert(p[0] == blocks[0]);
        lemma_ser_blocks_snoc(blocks.drop_first(), b);
        assert(spec_ser_blocks(blocks) == spec_ser_block(blocks[0]) + spec_ser_blocks(
            blocks.drop_first(),
        ));
        vstd::seq_lib::lemma_concat_associative(
            spec_ser_block(blocks[0]),
            spec_ser_blocks(blocks.drop_first()),
            spec_ser_block(b),
        );
    }
}

impl Block {
    /// The wire form of this block.
    #[verifier::rlimit(60)]
    pub fn to_wire_into(&self, out: &mut Vec<u8>)
        ensures
            final (out)@ == old(out)@ + spec_ser_block(self@),
            encode_utf8(self@.url).len() <= u64::MAX,
            encode_utf8(self@.b3checksum).len() <= u64::MAX,
    {
        proof {
            reveal(spec_ser_block);
        }
        push_tag_index(out);
        push_be64(out, self.index);
        push_semi(out);
        push_tag_size_short(out);
        push_be64(out, self.size);
        push_semi(out);
        push_tag_url(out);
        push_str(out, self.url.as_str());
        push_semi(out);
        push_tag_checksum_short(out);
        push_str(out, self.b3checksum.as_str());
        push_semi(out);
        proof {
            assert(out@ =~= old(out)@ + spec_ser_block(self@));
        }
    }
}

impl FileIndex {
    /// Serializes this manifest to its wire form.
    pub fn to_wire(&self) -> (r: Vec<u8>)
        ensures
            r@ == spec_ser_index(self@),
            index_len_ok(self@),
    {
        let mut out: Vec<u8> = Vec::new();
        push_tag_name(&mut out);
        push_str(&mut out, self.name.as_str());
        push_semi(&mut out);
        push_tag_size(&mut out);
        push_be64(&mut out, self.size);
        push_semi(&mut out);
        push_tag_checksum(&mut out);
        push_str(&mut out, self.b3checksum.as_str());
        push_semi(&mut out);
        push_tag_blocks(&mut out);
        push_be64(&mut out, self.blocks.len() as u64);
        push_semi(&mut out);
        let ghost header = out@;
        let n = self.blocks.len();
        let mut k: usize = 0;
        while k < n
            invariant
                n == self.blocks@.len(),
                0 <= k <= n,
                out@ == header + spec_ser_blocks(
                    Seq::new(k as nat, |i: int| self.blocks@[i]@),
                ),
                forall|i: int|
                    0 <= i < k ==> encode_utf8((#[trigger] self.blocks@[i])@.url).len()
                        <= u64::MAX && encode_utf8(self.blocks@[i]@.b3checksum).len() <= u64::MAX,
            decreases n - k,
        {
            let ghost done = Seq::new(k as nat, |i: int| self.blocks@[i]@);
            self.blocks[k].to_wire_into(&mut out);
            proof {
                lemma_ser_blocks_snoc(done, self.blocks@[k as int]@);
                assert(done.push(self.blocks@[k as int]@) =~= Seq::new(
                    (k + 1) as nat,
                    |i: int| self.blocks@[i]@,
                ));
            }
            k = k + 1;
        }
        proof {
            assert(Seq::new(n as nat, |i: int| self.blocks@[i]@) =~= self@.blocks);
            assert(out@ =~= spec_ser_index(self@));
            assert forall|i: int|
                0 <= i < self@.blocks.len() implies encode_utf8(
                (#[trigger] self@.blocks[i]).url,
            ).len() <= u64::MAX && encode_utf8(self@.blocks[i].b3checksum).len() <= u64::MAX by {
                assert(self@.blocks[i] == self.blocks@[i]@);
            }
            assert(index_len_ok(self@));
        }
        out
    }
}


/// Relies on String::from_utf8: accepts exactly the byte strings that are
/// valid text, and returns the text those bytes encode.
#[verifier::external_body]
pub(crate) fn string_from_utf8(bytes: Vec<u8>) -> (r: Option<String>)
    ensures
        r matches Some(s) ==> valid_utf8(bytes@) && s@ == decode_utf8(bytes@),
        r is None ==> !valid_utf8(bytes@),
{
    String::from_utf8(bytes).ok()
}

fn lit_semi() -> (r: Vec<u8>)
    ensures
        r@ == semi(),
{
    let mut v: Vec<u8> = Vec::new();
    push_semi(&mut v);
    proof {
        assert(v@ =~= semi());
    }
    v
}

pub(crate) fn p_expect(buf: &Vec<u8>, i: usize, lit: &Vec<u8>) -> (r: Option<usize>)
    requires
        i <= buf@.len(),
    ensures
        r matches Some(j) ==> i <= j <= buf@.len() && j == i + lit@.len() && spec_expect(
            lit@,
            buf@.skip(i as int),
        ) == Some(buf@.skip(j as int)),
        r is None ==> spec_expect(lit@, buf@.skip(i as int)) is None,
{
    let m = lit.len();
    let blen = buf.len();
    if blen - i < m {
        return None;
    }
    let mut k: usize = 0;
    while k < m
        invariant
            0 <= k <= m == lit@.len(),
            i + m <= buf@.len(),
            buf@.len() == blen,
            forall|t: int| 0 <= t < k ==> buf@[i + t] == lit@[t],
        decreases m - k,
    {
        if buf[i + k] != lit[k] {
            proof {
                let s = buf@.skip(i as int);
                assert(s.take(m as int)[k as int] == buf@[i + k]);
                assert(s.take(m as int) != lit@);
            }
            return None;
        }
        k = k + 1;
    }
    proof {
        let s = buf@.skip(i as int);
        assert(s.take(m as int) =~= lit@);
        assert(s.skip(m as int) =~= buf@.skip((i + m) as int));
    }
    Some(i + m)
}

fn p_be64(buf: &Vec<u8>, i: usize) -> (r: Option<(u64, usize)>)
    requires
        i <= buf@.len(),
    ensures
        r matches Some(p) ==> i <= p.1 <= buf@.len() && spec_parse_be64(buf@.skip(i as int))
            == Some((p.0, buf@.skip(p.1 as int))),
        r is None ==> spec_parse_be64(buf@.skip(i as int)) is None,
{
    if buf.len() - i < 8 {
        return None;
    }
    let n = ((buf[i] as u64) << 56) | ((buf[i + 1] as u64) << 48) | ((buf[i + 2] as u64) << 40) | (
    (buf[i + 3] as u64) << 32) | ((buf[i + 4] as u64) << 24) | ((buf[i + 5] as u64) << 16) | ((buf[i
        + 6] as u64) << 8) | (buf[i + 7] as u64);
    proof {
        let s = buf@.skip(i as int);
        assert(s.take(8)[0] == buf@[i as int] && s.take(8)[1] == buf@[i + 1] && s.take(8)[2]
            == buf@[i + 2] && s.take(8)[3] == buf@[i + 3] && s.take(8)[4] == buf@[i + 4] && s.take(
            8,
        )[5] == buf@[i + 5] && s.take(8)[6] == buf@[i + 6] && s.take(8)[7] == buf@[i + 7]);
        assert(spec_be64_val(s.take(8)) == n);
        assert(s.skip(8) =~= buf@.skip((i + 8) as int));
    }
    Some((n, i + 8))
}

fn p_raw(buf: &Vec<u8>, i: usize) -> (r: Option<(Vec<u8>, usize)>)
    requires
        i <= buf@.len(),
    ensures
        r matches Some(p) ==> i <= p.1 <= buf@.len() && spec_parse_raw(buf@.skip(i as int))
            == Some((p.0@, buf@.skip(p.1 as int))),
        r is None ==> spec_parse_raw(buf@.skip(i as int)) is None,
{
    let (n, j) = match p_be64(buf, i) {
        Some(p) => p,
        None => {
            return None;
        },
    };
    if n > (buf.len() - j) as u64 {
        return None;
    }
    let ln = n as usize;
    let blen = buf.len();
    let mut out: Vec<u8> = Vec::new();
    let mut k: usize = 0;
    while k < ln
        invariant
            0 <= k <= ln,
            j + ln <= buf@.len(),
            buf@.len() == blen,
            out@ == buf@.skip(j as int).take(k as int),
        decreases ln - k,
    {
        out.push(buf[j + k]);
        proof {
            assert(out@ =~= buf@.skip(j as int).take((k + 1) as int));
        }
        k = k + 1;
    }
    proof {
        assert(buf@.skip(j as int).skip(ln as int) =~= buf@.skip((j + ln) as int));
    }
    Some((out, j + ln))
}

fn p_str(buf: &Vec<u8>, i: usize) -> (r: Option<(String, usize)>)
    requires
        i <= buf@.len(),
    ensures
        r matches Some(p) ==> i <= p.1 <= buf@.len() && spec_parse_str(buf@.skip(i as int))
            == Some((p.0@, buf@.skip(p.1 as int))),
        r is None ==> spec_parse_str(buf@.skip(i as int)) is None,
{
    let (bytes, j) = match p_raw(buf, i) {
        Some(p) => p,
        None => {
            return None;
        },
    };
    match string_from_utf8(bytes) {
        Some(s) => Some((s, j)),
        None => None,
    }
}

fn p_block(buf: &Vec<u8>, i: usize) -> (r: Option<(Block, usize)>)
    requires
        i <= buf@.len(),
    ensures
        r matches Some(p) ==> i <= p.1 <= buf@.len() && spec_parse_block(buf@.skip(i as int))
            == Some((p.0@, buf@.skip(p.1 as int))),
        r is None ==> spec_parse_block(buf@.skip(i as int)) is None,
{
    proof {
        reveal(spec_parse_block);
    }
    let mut t_index: Vec<u8> = Vec::new();
    push_tag_index(&mut t_index);
    let mut t_size: Vec<u8> = Vec::new();
    push_semi(&mut t_size);
    push_tag_size_short(&mut t_size);
    let mut t_url: Vec<u8> = Vec::new();
    push_semi(&mut t_url);
    push_tag_url(&mut t_url);
    let mut t_sum: Vec<u8> = Vec::new();
    push_semi(&mut t_sum);
    push_tag_checksum_short(&mut t_sum);
    let t_semi = lit_semi();
    proof {
        assert(t_index@ =~= tag_index());
        assert(t_size@ =~= semi() + tag_size_short());
        assert(t_url@ =~= semi() + tag_url());
        assert(t_sum@ =~= semi() + tag_checksum_short());
    }
    let i1 = match p_expect(buf, i, &t_index) {
        Some(j) => j,
        None => {
            return None;
        },
    };
    let (index, i2) = match p_be64(buf, i1) {
        Some(p) => p,
        None => {
            return None;
        },
    };
    let i3 = match p_expect(buf, i2, &t_size) {
        Some(j) => j,
        None => {
            return None;
        },
    };
    let (size, i4) = match p_be64(buf, i3) {
        Some(p) => p,
        None => {
            return None;
        },
    };
    let i5 = match p_expect(buf, i4, &t_url) {
        Some(j) => j,
        None => {
            return None;
        },
    };
    let (url, i6) = match p_str(buf, i5) {
        Some(p) => p,
        None => {
            return None;
        },
    };
    let i7 = match p_expect(buf, i6, &t_sum) {
        Some(j) => j,
        None => {
            return None;
        },
    };
    let (b3checksum, i8) = match p_str(buf, i7) {
        Some(p) => p,
        None => {
            return None;
        },
    };
    let i9 = match p_expect(buf, i8, &t_semi) {
        Some(j) => j,
        None => {
            return None;
        },
    };
    let b = Block { index, size, url, b3checksum };
    proof {
        reveal(spec_parse_block);
        assert(spec_parse_block(buf@.skip(i as int)) == Some((b@, buf@.skip(i9 as int))));
    }
    Some((b, i9))
}


fn p_header(buf: &Vec<u8>) -> (r: Option<(String, u64, String, u64, usize)>)
    ensures
        r matches Some(p) ==> (spec_parse_header(buf@) matches Some(q) && p.4 <= buf@.len() && q.0
            == (HeaderV { name: p.0@, size: p.1, b3checksum: p.2@, count: p.3 }) && q.1
            == buf@.skip(p.4 as int)),
        r is None ==> spec_parse_header(buf@) is None,
{
    let mut t_name: Vec<u8> = Vec::new();
    push_tag_name(&mut t_name);
    let mut t_size: Vec<u8> = Vec::new();
    push_semi(&mut t_size);
    push_tag_size(&mut t_size);
    let mut t_sum: Vec<u8> = Vec::new();
    push_semi(&mut t_sum);
    push_tag_checksum(&mut t_sum);
    let mut t_blocks: Vec<u8> = Vec::new();
    push_semi(&mut t_blocks);
    push_tag_blocks(&mut t_blocks);
    let t_semi = lit_semi();
    proof {
        assert(t_name@ =~= tag_name());
        assert(t_size@ =~= semi() + tag_size());
        assert(t_sum@ =~= semi() + tag_checksum());
        assert(t_blocks@ =~= semi() + tag_blocks());
        assert(buf@.skip(0) =~= buf@);
    }
    let i1 = match p_expect(buf, 0, &t_name) {
        Some(j) => j,
        None => {
            return None;
        },
    };
    let (name, i2) = match p_str(buf, i1) {
        Some(p) => p,
        None => {
            return None;
        },
    };
    let i3 = match p_expect(buf, i2, &t_size) {
        Some(j) => j,
        None => {
            return None;
        },
    };
    let (size, i4) = match p_be64(buf, i3) {
        Some(p) => p,
        None => {
            return None;
        },
    };
    let i5 = match p_expect(buf, i4, &t_sum) {
        Some(j) => j,
        None => {
            return None;
        },
    };
    let (b3checksum, i6) = match p_str(buf, i5) {
        Some(p) => p,
        None => {
            return None;
        },
    };
    let i7 = match p_expect(buf, i6, &t_blocks) {
        Some(j) => j,
        None => {
            return None;
        },
    };
    let (count, i8) = match p_be64(buf, i7) {
        Some(p) => p,
        None => {
            return None;
        },
    };
    let i9 = match p_expect(buf, i8, &t_semi) {
        Some(j) => j,
        None => {
            return None;
        },
    };
    Some((name, size, b3checksum, count, i9))
}

impl FileIndex {
    /// Parses a manifest from its wire form; `None` for anything that is
    /// not exactly the wire form of one manifest.
    #[verifier::loop_isolation(false)]
    #[verifier::rlimit(100)]
    pub fn from_wire(buf: &Vec<u8>) -> (r: Option<FileIndex>)
        ensures
            r matches Some(fi) ==> spec_parse_index(buf@) == Some(fi@),
            r is None ==> spec_parse_index(buf@) is None,
    {
        let (name, size, b3checksum, count, i9) = match p_header(buf) {
            Some(p) => p,
            None => {
                return None;
            },
        };
        let mut blocks: Vec<Block> = Vec::new();
        let mut pos = i9;
        let mut k: u64 = 0;
        while k < count
            invariant
                0 <= k <= count,
                pos <= buf@.len(),
                blocks@.len() == k,
                spec_parse_blocks((count - k) as int, buf@.skip(pos as int)) is Some
                    ==> spec_parse_blocks(count as int, buf@.skip(i9 as int)) == Some(
                    (
                        Seq::new(blocks@.len(), |t: int| blocks@[t]@) + spec_parse_blocks(
                            (count - k) as int,
                            buf@.skip(pos as int),
                        )->Some_0.0,
                        spec_parse_blocks((count - k) as int, buf@.skip(pos as int))->Some_0.1,
                    ),
                ),
                spec_parse_blocks((count - k) as int, buf@.skip(pos as int)) is None
                    ==> spec_parse_blocks(count as int, buf@.skip(i9 as int)) is None,
            decreases count - k,
        {
            let ghost done = Seq::new(blocks@.len(), |t: int| blocks@[t]@);
            let (b, next) = match p_block(buf, pos) {
                Some(p) => p,
                None => {
                    proof {
                        assert(spec_parse_blocks((count - k) as int, buf@.skip(pos as int))
                            is None);
                        assert(spec_parse_blocks(count as int, buf@.skip(i9 as int)) is None);
                        assert(spec_parse_index(buf@) is None);
                    }
                    return None;
                },
            };
            proof {
                let rest0 = buf@.skip(pos as int);
                let rest1 = buf@.skip(next as int);
                assert(spec_parse_block(rest0) == Some((b@, rest1)));
                let tail_res = spec_parse_blocks((count - k - 1) as int, rest1);
                if tail_res is Some {
                    let bs = tail_res->Some_0.0;
                    let rr = tail_res->Some_0.1;
                    assert(spec_parse_blocks((count - k) as int, rest0) == Some(
                        (seq![b@] + bs, rr),
                    ));
                    assert(done + (seq![b@] + bs) =~= (done + seq![b@]) + bs);
                    assert(done.push(b@) =~= done + seq![b@]);
                } else {
                    assert(spec_parse_blocks((count - k) as int, rest0) is None);
                }
            }
            blocks.push(b);
            proof {
                assert(Seq::new(blocks@.len(), |t: int| blocks@[t]@) =~= done.push(b@));
            }
            pos = next;
            k = k + 1;
        }
        proof {
            assert(spec_parse_blocks(0, buf@.skip(pos as int)) == Some(
                (Seq::<BlockV>::empty(), buf@.skip(pos as int)),
            ));
            assert(Seq::new(blocks@.len(), |t: int| blocks@[t]@) + Seq::<BlockV>::empty()
                =~= Seq::new(blocks@.len(), |t: int| blocks@[t]@));
        }
        if pos != buf.len() {
            proof {
                assert(buf@.skip(pos as int).len() != 0);
            }
            return None;
        }
        let fi = FileIndex { name, size, b3checksum, blocks };
        proof {
            assert(buf@.skip(pos as int).len() == 0);
            assert(spec_parse_index(buf@) == Some(fi@));
        }
        Some(fi)
    }
}


/// What can go wrong while framing a manifest into an image or back.
#[derive(Debug, PartialEq, Eq)]
pub enum IndexError {
    /// The codec refused the framed manifest or the image bytes.
    Codec(PngError),
    /// The manifest's wire form, with its four-byte length prefix, is too
    /// long for the prefix's range.
    Oversize { len: usize },
    /// The decoded raster cannot even hold the length prefix.
    TooSmall { len: usize },
    /// The length prefix points past the end of the decoded raster.
    OutOfBounds { wanted: u64, have: usize },
    /// The raster's payload is not the wire form of a manifest.
    Corrupt,
}

/// The four bytes of `n`, most significant first.
pub open spec fn spec_be32(n: u32) -> Seq<u8> {
    seq![
        ((n >> 24) & 0xff) as u8,
        ((n >> 16) & 0xff) as u8,
        ((n >> 8) & 0xff) as u8,
        (n & 0xff) as u8,
    ]
}

/// The value four big-endian bytes hold.
pub open spec fn spec_be32_val(b: Seq<u8>) -> u32 {
    (((b[0] as u32) << 24) | ((b[1] as u32) << 16) | ((b[2] as u32) << 8) | (b[3] as u32)) as u32
}

/// A manifest's wire form behind its four-byte length prefix: the payload
/// that is handed to the codec.
pub open spec fn spec_framed_index(v: FileIndexV) -> Seq<u8> {
    spec_be32(spec_ser_index(v).len() as u32) + spec_ser_index(v)
}

/// Whether a raster's length prefix points past its end.
pub open spec fn spec_prefix_overrun(raster: Seq<u8>) -> bool {
    raster.len() >= 4 && 4 + spec_be32_val(raster.take(4)) > raster.len()
}

/// The manifest a decoded raster buffer holds: the first four bytes give
/// the wire form's length, the wire form follows, padding is ignored.
pub open spec fn spec_index_from_raster(raster: Seq<u8>) -> Option<FileIndexV> {
    if raster.len() < 4 {
        None
    } else {
        let l = spec_be32_val(raster.take(4)) as int;
        if 4 + l > raster.len() {
            None
        } else {
            spec_parse_index(raster.subrange(4, 4 + l))
        }
    }
}

fn push_be32(out: &mut Vec<u8>, n: u32)
    ensures
        final (out)@ == old(out)@ + spec_be32(n),
{
    proof {
        assert((n >> 24) & 0xff < 256 && (n >> 16) & 0xff < 256 && (n >> 8) & 0xff < 256 && n
            & 0xff < 256) by (bit_vector);
    }
    out.push(((n >> 24) & 0xff) as u8);
    out.push(((n >> 16) & 0xff) as u8);
    out.push(((n >> 8) & 0xff) as u8);
    out.push((n & 0xff) as u8);
    proof {
        assert(out@ =~= old(out)@ + spec_be32(n));
    }
}

/// Four big-endian bytes read back as the value they were written from.
proof fn lemma_be32_val(n: u32)
    ensures
        spec_be32_val(spec_be32(n)) == n,
{
    let b0 = ((n >> 24) & 0xff) as u8;
    let b1 = ((n >> 16) & 0xff) as u8;
    let b2 = ((n >> 8) & 0xff) as u8;
    let b3 = (n & 0xff) as u8;
    assert((((b0 as u32) << 24) | ((b1 as u32) << 16) | ((b2 as u32) << 8) | (b3 as u32)) == n)
        by (bit_vector)
        requires
            b0 == ((n >> 24) & 0xff) as u8,
            b1 == ((n >> 16) & 0xff) as u8,
            b2 == ((n >> 8) & 0xff) as u8,
            b3 == (n & 0xff) as u8,
    ;
}

/// Round trip through the image: the raster that comes back out of an
/// image that encode_to_image wrote holds exactly the manifest it framed.
pub proof fn lemma_index_image_round_trip(v: FileIndexV, image: Seq<u8>)
    requires
        index_len_ok(v),
        spec_ser_index(v).len() <= u32::MAX,
        spec_encode_ok(
            spec_standard_entries(),
            spec_framed_index(v),
            image,
        ),
    ensures
        png_raster(image) matches Some(raster) && spec_index_from_raster(raster) == Some(v),
{
    let framed = spec_framed_index(v);
    let ser = spec_ser_index(v);
    let l = ser.len() as u32;
    reveal(crate::codec::spec_encode_ok);
    let cap = spec_selected_capacity(spec_standard_entries(), framed.len() as int);
    let raster = spec_padded(framed, cap);
    assert(png_raster(image) == Some(raster));
    assert(raster.len() == cap);
    assert(framed.len() == 4 + ser.len());
    assert(raster.take(4) =~= spec_be32(l));
    lemma_be32_val(l);
    assert(4 + l as int <= raster.len());
    assert(raster.subrange(4, 4 + l as int) =~= ser);
    lemma_index_round_trip(v);
}

impl FileIndex {
    /// Frames the manifest's wire form behind a four-byte length prefix
    /// and encodes it into one image through the codec. Succeeds exactly
    /// when the framed bytes fit both the prefix's range and the largest
    /// catalog capacity.
    pub fn encode_to_image(&self, encoder: &PngEncoder) -> (r: Result<Vec<u8>, IndexError>)
        ensures
            spec_ser_index(self@).len() <= usize::MAX,
            r is Ok <==> (spec_framed_index(self@).len() <= u32::MAX && spec_framed_index(
                self@,
            ).len() <= spec_max_capacity(spec_standard_entries())),
            r matches Ok(img) ==> spec_encode_ok(
                spec_standard_entries(),
                spec_framed_index(self@),
                img@,
            ),
            spec_framed_index(self@).len() > u32::MAX ==> r == Err::<Vec<u8>, IndexError>(
                (IndexError::Oversize { len: spec_ser_index(self@).len() as usize }),
            ),
            (spec_framed_index(self@).len() <= u32::MAX && spec_framed_index(self@).len()
                > spec_max_capacity(spec_standard_entries())) ==> r == Err::<Vec<u8>, IndexError>(
                (IndexError::Codec(
                    (PngError::TooLarge {
                        len: spec_framed_index(self@).len() as usize,
                        max: spec_max_capacity(spec_standard_entries()) as usize,
                    }),
                )),
            ),
    {
        let wire = self.to_wire();
        if wire.len() as u64 > 0xffff_ffffu64 - 4 {
            return Err(IndexError::Oversize { len: wire.len() });
        }
        let mut framed: Vec<u8> = Vec::new();
        push_be32(&mut framed, wire.len() as u32);
        framed.extend_from_slice(wire.as_slice());
        proof {
            assert(framed@ =~= spec_framed_index(self@));
        }
        match encoder.encode(framed.as_slice()) {
            Ok(img) => Ok(img),
            Err(e) => Err(IndexError::Codec(e)),
        }
    }

    /// Decodes one image back into the manifest it holds: reads the whole
    /// raster, takes the length prefix, and parses the wire form behind it.
    #[verifier::rlimit(100)]
    pub fn decode_from_image(data: &[u8]) -> (r: Result<FileIndex, IndexError>)
        ensures
            r matches Ok(fi) ==> (png_raster(data@) matches Some(raster)
                && spec_index_from_raster(raster) == Some(fi@)),
            (png_raster(data@) is Some && spec_index_from_raster(png_raster(data@)->Some_0)
                is Some) ==> (r matches Ok(fi) && Some(fi@) == spec_index_from_raster(
                png_raster(data@)->Some_0,
            )),
            png_raster(data@) is None ==> (r matches Err(e) && e matches IndexError::Codec(_)),
            (png_raster(data@) is Some && png_raster(data@)->Some_0.len() < 4) ==> r == Err::<
                FileIndex,
                IndexError,
            >((IndexError::TooSmall { len: png_raster(data@)->Some_0.len() as usize })),
            (png_raster(data@) is Some && spec_prefix_overrun(png_raster(data@)->Some_0)) ==> r
                == Err::<FileIndex, IndexError>(
                (IndexError::OutOfBounds {
                    wanted: spec_be32_val(png_raster(data@)->Some_0.take(4)) as u64,
                    have: png_raster(data@)->Some_0.len() as usize,
                }),
            ),
            (png_raster(data@) is Some && png_raster(data@)->Some_0.len() >= 4
                && !spec_prefix_overrun(png_raster(data@)->Some_0) && spec_index_from_raster(
                png_raster(data@)->Some_0,
            ) is None) ==> r == Err::<FileIndex, IndexError>(IndexError::Corrupt),
    {
        let raster = match decode_raster(data) {
            Ok(v) => v,
            Err(e) => {
                return Err(IndexError::Codec(e));
            },
        };
        if raster.len() < 4 {
            return Err(IndexError::TooSmall { len: raster.len() });
        }
        let l = ((raster[0] as u32) << 24) | ((raster[1] as u32) << 16) | ((raster[2] as u32) << 8)
            | (raster[3] as u32);
        proof {
            let t = raster@.take(4);
            assert(t[0] == raster@[0] && t[1] == raster@[1] && t[2] == raster@[2] && t[3]
                == raster@[3]);
            assert(spec_be32_val(raster@.take(4)) == l);
        }
        if 4 + (l as u64) > raster.len() as u64 {
            return Err(IndexError::OutOfBounds { wanted: l as u64, have: raster.len() });
        }
        let ln = l as usize;
        let rlen = raster.len();
        let mut body: Vec<u8> = Vec::new();
        let mut k: usize = 0;
        while k < ln
            invariant
                0 <= k <= ln,
                4 + ln <= raster@.len(),
                raster@.len() == rlen,
                body@ == raster@.subrange(4, 4 + k as int),
            decreases ln - k,
        {
            body.push(raster[4 + k]);
            proof {
                assert(body@ =~= raster@.subrange(4, 4 + (k + 1) as int));
            }
            k = k + 1;
        }
        match FileIndex::from_wire(&body) {
            Some(fi) => Ok(fi),
            None => Err(IndexError::Corrupt),
        }
    }
}

} // verus!
