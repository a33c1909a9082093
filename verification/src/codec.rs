//! Byte-to-image codec: packs a payload plus zero padding into a raster
//! image of a catalog-selected geometry, and recovers the payload from the
//! image bytes and the payload's real length.

use vstd::prelude::*;

use crate::catalog::{
    Catalog, CatalogEntry, entries_wf, spec_max_capacity, spec_profile_encodable, spec_select,
    spec_selected_capacity, spec_standard_entries, standard_catalog,
};
use crate::geometry::{
    ColorModel, CompressionTier, Depth, Metadata, compression_for_percent, spec_bit_depth_size,
    spec_compression_for_percent, spec_padding_percent, spec_size,
};

verus! {

/// What can go wrong while encoding or decoding.
#[derive(Debug, Clone, PartialEq, Eq)]
pub enum PngError {
    /// The payload exceeds the largest catalog capacity.
    TooLarge { len: usize, max: usize },
    /// The padding computation left the valid range; indicates a broken
    /// catalog, never expected in correct operation.
    Padding { to_padding: Option<usize>, data_len: usize },
    /// Decoding asked for more bytes than the image holds.
    OutOfBound { size: usize, bound: usize },
    /// The image container writer refused the raster; unreachable through
    /// a well-formed catalog, kept defensively.
    Encoding(String),
    /// The image container reader refused the bytes.
    Decoding(String),
}

/// A numeric code for each bit depth, so that the named image function
/// below takes plain values only.
pub open spec fn depth_code(d: Depth) -> int {
    spec_bit_depth_size(d) as int
}

/// A numeric code for each color model. Distinct from the channel count:
/// two models with one channel still write different images.
pub open spec fn color_code(c: ColorModel) -> int {
    match c {
        ColorModel::Grayscale => 0,
        ColorModel::Rgb => 2,
        ColorModel::Indexed => 3,
        ColorModel::GrayscaleAlpha => 4,
        ColorModel::Rgba => 6,
    }
}

/// A numeric code for each compression tier.
pub open spec fn compression_code(c: CompressionTier) -> int {
    match c {
        CompressionTier::Fast => 0,
        CompressionTier::Default => 1,
        CompressionTier::Best => 2,
    }
}

/// The image container bytes that the writer produces for a geometry,
/// compression tier and raster buffer. A pure function of its arguments:
/// the container format is deterministic.
pub uninterp spec fn png_image(
    width: int,
    height: int,
    depth: int,
    color: int,
    compression: int,
    raster: Seq<u8>,
) -> Seq<u8>;

/// What the container reader returns for a byte string under its default
/// size limits: the raster buffer for a well-formed image within those
/// limits, `None` for anything it rejects. Reading is a pure function of
/// the bytes.
pub uninterp spec fn png_raster(image: Seq<u8>) -> Option<Seq<u8>>;

#[verifier::external_type_specification]
#[verifier::external_body]
pub struct ExPngBitDepth(png::BitDepth);

#[verifier::external_type_specification]
#[verifier::external_body]
pub struct ExPngColorType(png::ColorType);

#[verifier::external_type_specification]
#[verifier::external_body]
pub struct ExPngCompression(png::Compression);

/// Relies on png::BitDepth: the same five depths, by name.
#[verifier::external_body]
fn to_png_depth(d: &Depth) -> png::BitDepth {
    match d {
        Depth::One => png::BitDepth::One,
        Depth::Two => png::BitDepth::Two,
        Depth::Four => png::BitDepth::Four,
        Depth::Eight => png::BitDepth::Eight,
        Depth::Sixteen => png::BitDepth::Sixteen,
    }
}

/// Relies on png::ColorType: the same five color models, by name.
#[verifier::external_body]
fn to_png_color(c: &ColorModel) -> png::ColorType {
    match c {
        ColorModel::Grayscale => png::ColorType::Grayscale,
        ColorModel::GrayscaleAlpha => png::ColorType::GrayscaleAlpha,
        ColorModel::Rgb => png::ColorType::Rgb,
        ColorModel::Rgba => png::ColorType::Rgba,
        ColorModel::Indexed => png::ColorType::Indexed,
    }
}

/// Relies on png::Compression: the three tiers used here, by name.
#[verifier::external_body]
fn to_png_compression(c: &CompressionTier) -> png::Compression {
    match c {
        CompressionTier::Fast => png::Compression::Fast,
        CompressionTier::Default => png::Compression::Default,
        CompressionTier::Best => png::Compression::Best,
    }
}

/// Relies on png::Encoder / Writer::write_image_data. For a profile with
/// nonzero dimensions, a depth/color pair the format accepts, no
/// palette-indexed color (no palette is written), rows of whole bytes (the
/// writer sizes its input per row, rounded up to bytes), and a raster of
/// exactly the profile's byte size, writing into an in-memory sink cannot
/// fail and yields the container bytes for that geometry and raster. The
/// container is lossless and the profile's row stays far below the
/// reader's default byte budget, so reading those bytes back yields the
/// same raster.
#[verifier::external_body]
fn png_encode_raster(m: &Metadata, raster: &Vec<u8>) -> (r: Result<Vec<u8>, String>)
    requires
        spec_profile_encodable(*m),
        spec_size(*m) == Some(raster@.len() as int),
    ensures
        r is Ok,
        r matches Ok(v) ==> v@ == png_image(
            m.width as int,
            m.height as int,
            depth_code(m.bit_depth),
            color_code(m.color_type),
            compression_code(m.compression),
            raster@,
        ),
        r matches Ok(v) ==> png_raster(v@) == Some(raster@),
{
    let mut out: Vec<u8> = Vec::new();
    let mut enc = png::Encoder::new(&mut out, m.width, m.height);
    enc.set_depth(to_png_depth(&m.bit_depth));
    enc.set_color(to_png_color(&m.color_type));
    enc.set_compression(to_png_compression(&m.compression));
    let mut writer = enc.write_header().map_err(|e| format!("{e}"))?;
    writer.write_image_data(raster).map_err(|e| format!("{e}"))?;
    writer.finish().map_err(|e| format!("{e}"))?;
    Ok(out)
}

/// Relies on png::Decoder / Reader::next_frame: reading is deterministic in
/// the input bytes, fills a buffer of the size the container's own header
/// announces, and fails exactly on bytes the reader rejects under its
/// default size limits — malformed images, and well-formed ones whose row
/// exceeds the default byte budget (no image a well-formed catalog writes
/// comes near it).
#[verifier::external_body]
fn png_decode_raster(data: &[u8]) -> (r: Result<Vec<u8>, String>)
    ensures
        r matches Ok(v) ==> png_raster(data@) == Some(v@),
        r matches Err(_) ==> png_raster(data@) is None,
{
    let decoder = png::Decoder::new(data);
    let mut reader = decoder.read_info().map_err(|e| format!("{e}"))?;
    let mut buf = vec![0u8; reader.output_buffer_size()];
    let info = reader.next_frame(&mut buf).map_err(|e| format!("{e}"))?;
    buf.truncate(info.buffer_size());
    Ok(buf)
}

/// A payload followed by zero padding up to `cap` bytes.
pub open spec fn spec_padded(data: Seq<u8>, cap: int) -> Seq<u8> {
    data + Seq::new((cap - data.len()) as nat, |i: int| 0u8)
}

/// The profile one catalog entry yields for a payload: its geometry with
/// the compression tier that the payload's padding ratio picks.
pub open spec fn spec_entry_profile(e: CatalogEntry, len: int) -> Metadata {
    let cap = e.capacity as int;
    Metadata {
        compression: spec_compression_for_percent(
            spec_padding_percent(cap - len, cap) as int,
        ),
        ..e.profile
    }
}

/// The profile encode uses for a payload: the selected entry's geometry
/// with the compression tier that its padding ratio picks.
pub open spec fn spec_chosen_profile(entries: Seq<CatalogEntry>, len: int) -> Metadata {
    spec_entry_profile(entries[spec_select(entries, len)->Some_0], len)
}

/// What writing one entry's image promises: the image is the container
/// bytes for the entry's profile (at the payload's tier) over the padded
/// payload, and reading it back yields that padded raster.
#[verifier::opaque]
pub open spec fn spec_entry_encode_ok(entry: CatalogEntry, data: Seq<u8>, image: Seq<u8>) -> bool {
    let m = spec_entry_profile(entry, data.len() as int);
    &&& image == png_image(
        m.width as int,
        m.height as int,
        depth_code(m.bit_depth),
        color_code(m.color_type),
        compression_code(m.compression),
        spec_padded(data, entry.capacity as int),
    )
    &&& png_raster(image) == Some(spec_padded(data, entry.capacity as int))
}

/// Everything encode promises of a successful result: the image is the
/// container bytes for the chosen profile over the padded payload, and
/// reading it back yields that padded raster.
#[verifier::opaque]
pub open spec fn spec_encode_ok(entries: Seq<CatalogEntry>, data: Seq<u8>, image: Seq<u8>) -> bool {
    let cap = spec_selected_capacity(entries, data.len() as int);
    let m = spec_chosen_profile(entries, data.len() as int);
    &&& spec_select(entries, data.len() as int) is Some
    &&& data.len() <= cap
    &&& image == png_image(
        m.width as int,
        m.height as int,
        depth_code(m.bit_depth),
        color_code(m.color_type),
        compression_code(m.compression),
        spec_padded(data, cap),
    )
    &&& png_raster(image) == Some(spec_padded(data, cap))
}

/// What decode returns for given image bytes and real length: the first
/// `len` bytes of the raster the container holds.
pub open spec fn spec_decode(image: Seq<u8>, len: int) -> Option<Seq<u8>> {
    match png_raster(image) {
        Some(raster) => if len <= raster.len() {
            Some(raster.take(len))
        } else {
            None
        },
        None => None,
    }
}

/// A successfully written image for the selected entry meets everything
/// encode promises.
proof fn lemma_encode_ok_assemble(
    entries: Seq<CatalogEntry>,
    data: Seq<u8>,
    entry: CatalogEntry,
    image: Seq<u8>,
)
    requires
        spec_select(entries, data.len() as int) is Some,
        entry == entries[spec_select(entries, data.len() as int)->Some_0],
        data.len() <= entry.capacity,
        spec_entry_encode_ok(entry, data, image),
    ensures
        spec_encode_ok(entries, data, image),
{
    reveal(spec_entry_encode_ok);
    reveal(spec_encode_ok);
    assert(spec_selected_capacity(entries, data.len() as int) == entry.capacity as int);
    assert(spec_chosen_profile(entries, data.len() as int) == spec_entry_profile(
        entry,
        data.len() as int,
    ));
}

/// Packs the payload and its zero padding into the entry's raster and
/// writes the image for it. The error branches are proved unreachable for
/// an encodable entry; they keep the loud failure the padding invariant
/// calls for.
fn encode_selected(entry: CatalogEntry, data: &[u8]) -> (r: Result<Vec<u8>, PngError>)
    requires
        spec_profile_encodable(entry.profile),
        spec_size(entry.profile) == Some(entry.capacity as int),
        data@.len() <= entry.capacity,
    ensures
        r is Ok,
        r matches Ok(v) ==> spec_entry_encode_ok(entry, data@, v@),
{
    let len = data.len();
    let mut profile = entry.profile;
    proof {
        assert(spec_size(profile) == Some(entry.capacity as int));
        assert(crate::geometry::spec_byte_to_padding(profile, len as int) == Some(
            entry.capacity - len as int,
        ));
    }
    let padding = match profile.byte_to_padding(len) {
        Some(p) => p,
        None => {
            proof {
                assert(false);
            }
            return Err(PngError::Padding { to_padding: None, data_len: len });
        },
    };
    let percent = match profile.padding_percent(len) {
        Some(pc) => pc,
        None => {
            proof {
                assert(false);
            }
            return Err(PngError::Padding { to_padding: Some(padding), data_len: len });
        },
    };
    profile.compression = compression_for_percent(percent);
    let mut raster: Vec<u8> = Vec::with_capacity(entry.capacity);
    raster.extend_from_slice(data);
    let mut k: usize = 0;
    while k < padding
        invariant
            0 <= k <= padding,
            raster@ == data@ + Seq::new(k as nat, |i: int| 0u8),
        decreases padding - k,
    {
        raster.push(0);
        proof {
            assert(raster@ =~= data@ + Seq::new((k + 1) as nat, |i: int| 0u8));
        }
        k = k + 1;
    }
    proof {
        assert(raster@ =~= spec_padded(data@, entry.capacity as int));
        assert(profile == spec_entry_profile(entry, data@.len() as int));
        assert(spec_size(profile) == Some(raster@.len() as int));
        assert(spec_profile_encodable(profile)) by {
            reveal(spec_profile_encodable);
        }
    }
    match png_encode_raster(&profile, &raster) {
        Ok(v) => {
            proof {
                reveal(spec_entry_encode_ok);
                assert(spec_entry_encode_ok(entry, data@, v@));
            }
            Ok(v)
        },
        Err(msg) => {
            proof {
                assert(false);
            }
            Err(PngError::Encoding(msg))
        },
    }
}

/// Encodes a payload against an injected catalog. Succeeds exactly when
/// the payload fits the catalog's largest capacity; the only error is
/// `TooLarge`, with the payload's length and that capacity.
pub fn encode_with_catalog(cat: &Catalog, data: &[u8]) -> (r: Result<Vec<u8>, PngError>)
    requires
        cat.wf(),
    ensures
        r is Ok <==> data@.len() <= spec_max_capacity(cat.entries@),
        r matches Ok(v) ==> spec_encode_ok(cat.entries@, data@, v@),
        data@.len() > spec_max_capacity(cat.entries@) ==> r == Err::<Vec<u8>, PngError>(
            (PngError::TooLarge {
                len: data@.len() as usize,
                max: spec_max_capacity(cat.entries@) as usize,
            }),
        ),
{
    let len = data.len();
    let entry = match cat.select(len) {
        Some(e) => e,
        None => {
            return Err(PngError::TooLarge { len, max: cat.max_capacity() });
        },
    };
    match encode_selected(entry, data) {
        Ok(image) => {
            proof {
                lemma_encode_ok_assemble(cat.entries@, data@, entry, image@);
            }
            Ok(image)
        },
        Err(e) => {
            proof {
                assert(false);
            }
            Err(e)
        },
    }
}

/// Decodes the first `data_len` bytes of the raster held by `data`. The
/// result is a pure function of the arguments: the same image bytes and
/// length always yield the same payload.
pub fn decode_image(data: &[u8], data_len: usize) -> (r: Result<Vec<u8>, PngError>)
    ensures
        r matches Ok(v) ==> spec_decode(data@, data_len as int) == Some(v@),
        spec_decode(data@, data_len as int) matches Some(d) ==> (r matches Ok(v) && v@ == d),
        png_raster(data@) is None ==> (r matches Err(e) && e matches PngError::Decoding(_)),
        png_raster(data@) is Some && data_len > png_raster(data@)->Some_0.len() ==> r == Err::<
            Vec<u8>,
            PngError,
        >(
            (PngError::OutOfBound {
                size: data_len,
                bound: png_raster(data@)->Some_0.len() as usize,
            }),
        ),
{
    let buf = match png_decode_raster(data) {
        Ok(b) => b,
        Err(msg) => {
            return Err(PngError::Decoding(msg));
        },
    };
    if buf.len() < data_len {
        return Err(PngError::OutOfBound { size: data_len, bound: buf.len() });
    }
    let mut out: Vec<u8> = Vec::with_capacity(data_len);
    let mut k: usize = 0;
    while k < data_len
        invariant
            0 <= k <= data_len <= buf@.len(),
            spec_decode(data@, data_len as int) == Some(buf@.take(data_len as int)),
            out@ == buf@.take(k as int),
        decreases data_len - k,
    {
        out.push(buf[k]);
        proof {
            assert(out@ =~= buf@.take((k + 1) as int));
        }
        k = k + 1;
    }
    Ok(out)
}

/// Round trip: any payload the encoder accepted decodes back to itself
/// under its own length.
pub proof fn lemma_round_trip(entries: Seq<CatalogEntry>, data: Seq<u8>, image: Seq<u8>)
    requires
        entries_wf(entries),
        spec_encode_ok(entries, data, image),
    ensures
        spec_decode(image, data.len() as int) == Some(data),
{
    reveal(spec_encode_ok);
    let cap = spec_selected_capacity(entries, data.len() as int);
    assert(spec_padded(data, cap).len() == cap);
    assert(spec_padded(data, cap).take(data.len() as int) =~= data);
}

/// Decodes the whole raster buffer an image holds, padding included.
pub fn decode_raster(data: &[u8]) -> (r: Result<Vec<u8>, PngError>)
    ensures
        r matches Ok(v) ==> png_raster(data@) == Some(v@),
        png_raster(data@) matches Some(raster) ==> (r matches Ok(v) && v@ == raster),
        png_raster(data@) is None ==> (r matches Err(e) && e matches PngError::Decoding(_)),
{
    match png_decode_raster(data) {
        Ok(v) => Ok(v),
        Err(msg) => Err(PngError::Decoding(msg)),
    }
}

/// The pure byte-to-image codec over the standard catalog.
pub struct PngEncoder();

impl PngEncoder {
    /// Encode a payload into image container bytes, choosing the geometry
    /// and compression tier from the payload's length. Succeeds exactly
    /// when the payload fits the largest catalog capacity.
    pub fn encode(&self, data: &[u8]) -> (r: Result<Vec<u8>, PngError>)
        ensures
            r is Ok <==> data@.len() <= spec_max_capacity(spec_standard_entries()),
            r matches Ok(v) ==> spec_encode_ok(spec_standard_entries(), data@, v@),
            data@.len() > spec_max_capacity(spec_standard_entries()) ==> r == Err::<
                Vec<u8>,
                PngError,
            >(
                (PngError::TooLarge {
                    len: data@.len() as usize,
                    max: spec_max_capacity(spec_standard_entries()) as usize,
                }),
            ),
    {
        let cat = standard_catalog();
        encode_with_catalog(&cat, data)
    }

    /// Decode the first `data_len` payload bytes back out of image
    /// container bytes; the padding behind them is discarded unread.
    pub fn decode(&self, data: &[u8], data_len: usize) -> (r: Result<Vec<u8>, PngError>)
        ensures
            r matches Ok(v) ==> spec_decode(data@, data_len as int) == Some(v@),
            spec_decode(data@, data_len as int) matches Some(d) ==> (r matches Ok(v) && v@ == d),
            png_raster(data@) is None ==> (r matches Err(e) && e matches PngError::Decoding(_)),
            png_raster(data@) is Some && data_len > png_raster(data@)->Some_0.len() ==> r
                == Err::<Vec<u8>, PngError>(
                (PngError::OutOfBound {
                    size: data_len,
                    bound: png_raster(data@)->Some_0.len() as usize,
                }),
            ),
    {
        decode_image(data, data_len)
    }
}

/// The codec abstraction the rest of the system stores images through: an
/// encoder turns a payload into image container bytes, and recovers the
/// first `data_len` payload bytes from such a container. Implementations
/// say through the two specification functions what they promise.
pub trait Encoder {
    /// What a successful encoding of `data` into `image` means.
    spec fn spec_encode_post(&self, data: Seq<u8>, image: Seq<u8>) -> bool;

    /// Which payload lengths the encoder must accept.
    spec fn spec_accepts(&self, len: int) -> bool;

    /// What decoding `image` at `len` returns, `None` where it must fail.
    spec fn spec_decode_result(&self, image: Seq<u8>, len: int) -> Option<Seq<u8>>;

    /// Encode a payload into an image with padding.
    fn encode(&self, data: &[u8]) -> (r: Result<Vec<u8>, PngError>)
        ensures
            r matches Ok(v) ==> self.spec_encode_post(data@, v@),
            self.spec_accepts(data@.len() as int) ==> r is Ok,
    ;

    /// Decode the real payload back out of an image, given its length
    /// without padding.
    fn decode(&self, data: &[u8], data_len: usize) -> (r: Result<Vec<u8>, PngError>)
        ensures
            r matches Ok(v) ==> self.spec_decode_result(data@, data_len as int) == Some(v@),
            self.spec_decode_result(data@, data_len as int) matches Some(d) ==> (r matches Ok(v)
                && v@ == d),
    ;
}

impl Encoder for PngEncoder {
    open spec fn spec_encode_post(&self, data: Seq<u8>, image: Seq<u8>) -> bool {
        spec_encode_ok(spec_standard_entries(), data, image)
    }

    open spec fn spec_accepts(&self, len: int) -> bool {
        len <= spec_max_capacity(spec_standard_entries())
    }

    open spec fn spec_decode_result(&self, image: Seq<u8>, len: int) -> Option<Seq<u8>> {
        spec_decode(image, len)
    }

    fn encode(&self, data: &[u8]) -> (r: Result<Vec<u8>, PngError>) {
        let cat = standard_catalog();
        encode_with_catalog(&cat, data)
    }

    fn decode(&self, data: &[u8], data_len: usize) -> (r: Result<Vec<u8>, PngError>) {
        decode_image(data, data_len)
    }
}

} // verus!
