//! The geometry catalog: an ordered table of capacities and the profiles
//! that provide them. Profile selection for a payload length is the first
//! entry whose capacity is at least that length.

use vstd::prelude::*;

use crate::geometry::{ColorModel, CompressionTier, Depth, Metadata, spec_size};

verus! {

/// One catalog row: a byte capacity and the profile that realises it.
#[derive(Clone, Copy, Debug, PartialEq, Eq, Structural)]
pub struct CatalogEntry {
    pub capacity: usize,
    pub profile: Metadata,
}

/// An ordered, immutable table of geometry profiles. Injected into the
/// codec so that alternative deployments (and tests) can supply their own.
#[derive(Clone, Debug)]
pub struct Catalog {
    pub entries: Vec<CatalogEntry>,
}

/// Bits in one pixel row of a profile.
pub open spec fn spec_row_bits(m: Metadata) -> int {
    m.width * crate::geometry::spec_bit_depth_size(m.bit_depth)
        * crate::geometry::spec_color_type_multiple(m.color_type)
}

/// Whether the raster container format itself accepts the depth and color
/// model together: sub-byte depths carry only one-channel models, and
/// sixteen-bit samples cannot be palette indices.
pub open spec fn spec_combination_ok(m: Metadata) -> bool {
    &&& !((m.bit_depth == Depth::One || m.bit_depth == Depth::Two || m.bit_depth == Depth::Four)
        && (m.color_type == ColorModel::Rgb || m.color_type == ColorModel::GrayscaleAlpha
        || m.color_type == ColorModel::Rgba))
    &&& !(m.bit_depth == Depth::Sixteen && m.color_type == ColorModel::Indexed)
}

/// A profile the codec can write and read back: both dimensions nonzero, a
/// depth/color pair the container accepts, rows of whole bytes (the writer
/// sizes its input per row, rounded up to bytes), no palette-indexed color
/// (the codec writes no palette), and a pixel row of at most one binary
/// megabyte, far below the container reader's default byte budget.
#[verifier::opaque]
pub open spec fn spec_profile_encodable(m: Metadata) -> bool {
    &&& m.width >= 1
    &&& m.height >= 1
    &&& spec_combination_ok(m)
    &&& m.color_type != ColorModel::Indexed
    &&& spec_row_bits(m) % 8 == 0
    &&& spec_row_bits(m) <= 8388608
}

/// Well-formed table: non-empty, capacities strictly increasing, every
/// stated capacity exactly the byte size of its profile's raster, and every
/// profile one the codec can write and read back.
pub open spec fn entries_wf(s: Seq<CatalogEntry>) -> bool {
    &&& s.len() > 0
    &&& forall|i: int|
        0 <= i < s.len() ==> spec_size(#[trigger] s[i].profile) == Some(s[i].capacity as int)
    &&& forall|i: int| 0 <= i < s.len() ==> spec_profile_encodable(#[trigger] s[i].profile)
    &&& forall|i: int, j: int|
        0 <= i < j < s.len() ==> #[trigger] s[i].capacity < #[trigger] s[j].capacity
}

/// The largest payload a table can hold.
pub open spec fn spec_max_capacity(s: Seq<CatalogEntry>) -> int {
    s.last().capacity as int
}

/// The index of the first entry whose capacity holds `len` bytes.
pub open spec fn spec_select(s: Seq<CatalogEntry>, len: int) -> Option<int> {
    if exists|i: int| 0 <= i < s.len() && #[trigger] s[i].capacity >= len {
        Some(
            choose|i: int|
                0 <= i < s.len() && #[trigger] s[i].capacity >= len && forall|j: int|
                    0 <= j < i ==> #[trigger] s[j].capacity < len,
        )
    } else {
        None
    }
}

/// The capacity that selection gives a payload of `len` bytes.
pub open spec fn spec_selected_capacity(s: Seq<CatalogEntry>, len: int) -> int {
    s[spec_select(s, len)->Some_0].capacity as int
}

impl Catalog {
    pub open spec fn wf(self) -> bool {
        entries_wf(self.entries@)
    }

    pub fn max_capacity(&self) -> (r: usize)
        requires
            self.wf(),
        ensures
            r == spec_max_capacity(self.entries@),
    {
        self.entries[self.entries.len() - 1].capacity
    }

    /// The first entry that fits `len` payload bytes, or `None` when even
    /// the largest capacity is too small.
    pub fn select(&self, len: usize) -> (r: Option<CatalogEntry>)
        requires
            self.wf(),
        ensures
            r is Some <==> len <= spec_max_capacity(self.entries@),
            r matches Some(e) ==> (spec_select(self.entries@, len as int) matches Some(i) && e
                == self.entries@[i]),
            r matches Some(e) ==> e.capacity >= len && spec_size(e.profile) == Some(
                e.capacity as int,
            ) && spec_profile_encodable(e.profile),
    {
        let n = self.entries.len();
        let mut k: usize = 0;
        while k < n
            invariant
                self.wf(),
                n == self.entries@.len(),
                0 <= k <= n,
                forall|j: int| 0 <= j < k ==> #[trigger] self.entries@[j].capacity < len,
            decreases n - k,
        {
            let e = self.entries[k];
            if e.capacity >= len {
                proof {
                    let s = self.entries@;
                    let picked = choose|i: int|
                        0 <= i < s.len() && #[trigger] s[i].capacity >= len && forall|j: int|
                            0 <= j < i ==> #[trigger] s[j].capacity < len;
                    assert(s[k as int].capacity >= len && forall|j: int|
                        0 <= j < k ==> #[trigger] s[j].capacity < len);
                    if picked != k as int {
                        if picked < k as int {
                            assert(s[picked].capacity < len);
                        } else {
                            assert(s[k as int].capacity < len);
                        }
                    }
                }
                return Some(e);
            }
            k = k + 1;
        }
        proof {
            assert(self.entries@.last().capacity < len);
        }
        None
    }
}

/// The rows of the standard catalog, as specification values.
pub open spec fn spec_standard_entries() -> Seq<CatalogEntry> {
    seq![
        spec_entry(16384, 64, 64, Depth::Eight, ColorModel::Rgba),
        spec_entry(32768, 64, 128, Depth::Eight, ColorModel::Rgba),
        spec_entry(65536, 128, 128, Depth::Eight, ColorModel::Rgba),
        spec_entry(131072, 128, 256, Depth::Eight, ColorModel::Rgba),
        spec_entry(262144, 256, 256, Depth::Eight, ColorModel::Rgba),
        spec_entry(524288, 256, 512, Depth::Eight, ColorModel::Rgba),
        spec_entry(1048576, 512, 512, Depth::Eight, ColorModel::Rgba),
        spec_entry(1572864, 512, 1024, Depth::Eight, ColorModel::Rgb),
        spec_entry(2097152, 1024, 1024, Depth::Eight, ColorModel::GrayscaleAlpha),
        spec_entry(2621440, 512, 1280, Depth::Eight, ColorModel::Rgba),
        spec_entry(3145728, 1024, 1024, Depth::Eight, ColorModel::Rgb),
        spec_entry(4194304, 1024, 1024, Depth::Eight, ColorModel::Rgba),
        spec_entry(6291456, 1024, 1024, Depth::Sixteen, ColorModel::Rgb),
        spec_entry(8388608, 1024, 1024, Depth::Sixteen, ColorModel::Rgba),
        spec_entry(12582912, 1024, 1536, Depth::Sixteen, ColorModel::Rgba),
    ]
}

pub open spec fn spec_entry(
    capacity: usize,
    width: u32,
    height: u32,
    bit_depth: Depth,
    color_type: ColorModel,
) -> CatalogEntry {
    CatalogEntry {
        capacity,
        profile: Metadata {
            width,
            height,
            bit_depth,
            color_type,
            compression: CompressionTier::Fast,
        },
    }
}

/// Evaluates a profile's byte size and row size from its field values.
proof fn lemma_size_eval(m: Metadata, w: int, h: int, d: int, c: int, bits: int, row_bits: int)
    requires
        m.width == w,
        m.height == h,
        crate::geometry::spec_bit_depth_size(m.bit_depth) == d,
        crate::geometry::spec_color_type_multiple(m.color_type) == c,
        w * h * d * c == bits,
        w * d * c == row_bits,
        bits % 8 == 0,
    ensures
        spec_size(m) == Some(bits / 8),
        spec_row_bits(m) == row_bits,
{
    assert(crate::geometry::spec_size_bits(m) == w * h * d * c);
    assert(spec_row_bits(m) == w * d * c);
}

/// The standard table is well formed and tops out at 12 MiB.
#[verifier::rlimit(60)]
pub proof fn lemma_standard_entries_wf()
    ensures
        entries_wf(spec_standard_entries()),
        spec_max_capacity(spec_standard_entries()) == 12582912,
{
    let s = spec_standard_entries();
    assert(s.len() == 15);
    lemma_size_eval(s[0].profile, 64, 64, 8, 4, 131072, 2048);
    lemma_size_eval(s[1].profile, 64, 128, 8, 4, 262144, 2048);
    lemma_size_eval(s[2].profile, 128, 128, 8, 4, 524288, 4096);
    lemma_size_eval(s[3].profile, 128, 256, 8, 4, 1048576, 4096);
    lemma_size_eval(s[4].profile, 256, 256, 8, 4, 2097152, 8192);
    lemma_size_eval(s[5].profile, 256, 512, 8, 4, 4194304, 8192);
    lemma_size_eval(s[6].profile, 512, 512, 8, 4, 8388608, 16384);
    lemma_size_eval(s[7].profile, 512, 1024, 8, 3, 12582912, 12288);
    lemma_size_eval(s[8].profile, 1024, 1024, 8, 2, 16777216, 16384);
    lemma_size_eval(s[9].profile, 512, 1280, 8, 4, 20971520, 16384);
    lemma_size_eval(s[10].profile, 1024, 1024, 8, 3, 25165824, 24576);
    lemma_size_eval(s[11].profile, 1024, 1024, 8, 4, 33554432, 32768);
    lemma_size_eval(s[12].profile, 1024, 1024, 16, 3, 50331648, 49152);
    lemma_size_eval(s[13].profile, 1024, 1024, 16, 4, 67108864, 65536);
    lemma_size_eval(s[14].profile, 1024, 1536, 16, 4, 100663296, 65536);
    assert forall|i: int| 0 <= i < s.len() implies spec_size(#[trigger] s[i].profile) == Some(
        s[i].capacity as int,
    ) by {
        assert(spec_size(s[i].profile) == Some(s[i].capacity as int));
    }
    assert forall|i: int| 0 <= i < s.len() implies spec_profile_encodable(
        #[trigger] s[i].profile,
    ) by {
        reveal(spec_profile_encodable);
        assert(spec_row_bits(s[i].profile) % 8 == 0 && spec_row_bits(s[i].profile) <= 8388608);
        assert(spec_combination_ok(s[i].profile));
        assert(s[i].profile.color_type != ColorModel::Indexed);
    }
}

/// The catalog this crate ships: fifteen profiles from a
/// 16 KiB thumbnail up to a 12 MiB image, all 8- or 16-bit with two, three
/// or four channels, each byte-exact.
pub fn standard_catalog() -> (r: Catalog)
    ensures
        r.entries@ == spec_standard_entries(),
        r.wf(),
{
    let e0 = entry(16384, 64, 64, Depth::Eight, ColorModel::Rgba);
    let e1 = entry(32768, 64, 128, Depth::Eight, ColorModel::Rgba);
    let e2 = entry(65536, 128, 128, Depth::Eight, ColorModel::Rgba);
    let e3 = entry(131072, 128, 256, Depth::Eight, ColorModel::Rgba);
    let e4 = entry(262144, 256, 256, Depth::Eight, ColorModel::Rgba);
    let e5 = entry(524288, 256, 512, Depth::Eight, ColorModel::Rgba);
    let e6 = entry(1048576, 512, 512, Depth::Eight, ColorModel::Rgba);
    let e7 = entry(1572864, 512, 1024, Depth::Eight, ColorModel::Rgb);
    let e8 = entry(2097152, 1024, 1024, Depth::Eight, ColorModel::GrayscaleAlpha);
    let e9 = entry(2621440, 512, 1280, Depth::Eight, ColorModel::Rgba);
    let e10 = entry(3145728, 1024, 1024, Depth::Eight, ColorModel::Rgb);
    let e11 = entry(4194304, 1024, 1024, Depth::Eight, ColorModel::Rgba);
    let e12 = entry(6291456, 1024, 1024, Depth::Sixteen, ColorModel::Rgb);
    let e13 = entry(8388608, 1024, 1024, Depth::Sixteen, ColorModel::Rgba);
    let e14 = entry(12582912, 1024, 1536, Depth::Sixteen, ColorModel::Rgba);
    let mut entries: Vec<CatalogEntry> = Vec::new();
    entries.push(e0);
    entries.push(e1);
    entries.push(e2);
    entries.push(e3);
    entries.push(e4);
    entries.push(e5);
    entries.push(e6);
    entries.push(e7);
    entries.push(e8);
    entries.push(e9);
    entries.push(e10);
    entries.push(e11);
    entries.push(e12);
    entries.push(e13);
    entries.push(e14);
    let r = Catalog { entries };
    proof {
        assert(r.entries@ =~= spec_standard_entries());
        lemma_standard_entries_wf();
    }
    r
}

fn entry(capacity: usize, width: u32, height: u32, bit_depth: Depth, color_type: ColorModel) -> (r:
    CatalogEntry)
    ensures
        r == spec_entry(capacity, width, height, bit_depth, color_type),
{
    CatalogEntry {
        capacity,
        profile: Metadata {
            width,
            height,
            bit_depth,
            color_type,
            compression: CompressionTier::Fast,
        },
    }
}

} // verus!

