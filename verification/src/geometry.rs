//! Geometry profiles: the policy records that map a payload length to the
//! dimensions, bit depth and color model of the raster image that will hold
//! it, together with the compression tier chosen from the padding ratio.

use vstd::prelude::*;

verus! {

/// Bits per channel of a raster image.
#[derive(Clone, Copy, Debug, PartialEq, Eq, Structural)]
pub enum Depth {
    One,
    Two,
    Four,
    Eight,
    Sixteen,
}

/// Color model of a raster image; each has a fixed channel count.
#[derive(Clone, Copy, Debug, PartialEq, Eq, Structural)]
pub enum ColorModel {
    Grayscale,
    GrayscaleAlpha,
    Rgb,
    Rgba,
    Indexed,
}

/// Compression effort hint handed to the image container encoder; it never
/// changes the decoded payload.
#[derive(Clone, Copy, Debug, PartialEq, Eq, Structural)]
pub enum CompressionTier {
    Fast,
    Default,
    Best,
}

/// Bits per channel as a number.
pub fn bit_depth_size(bit_depth: &Depth) -> (r: u32)
    ensures
        r == spec_bit_depth_size(*bit_depth),
{
    match bit_depth {
        Depth::One => 1,
        Depth::Two => 2,
        Depth::Four => 4,
        Depth::Eight => 8,
        Depth::Sixteen => 16,
    }
}

pub open spec fn spec_bit_depth_size(bit_depth: Depth) -> u32 {
    match bit_depth {
        Depth::One => 1,
        Depth::Two => 2,
        Depth::Four => 4,
        Depth::Eight => 8,
        Depth::Sixteen => 16,
    }
}

/// Channel count of a color model.
pub fn color_type_multiple(color_type: &ColorModel) -> (r: u32)
    ensures
        r == spec_color_type_multiple(*color_type),
{
    match color_type {
        ColorModel::Indexed => 1,
        ColorModel::Grayscale => 1,
        ColorModel::GrayscaleAlpha => 2,
        ColorModel::Rgb => 3,
        ColorModel::Rgba => 4,
    }
}

pub open spec fn spec_color_type_multiple(color_type: ColorModel) -> u32 {
    match color_type {
        ColorModel::Indexed => 1,
        ColorModel::Grayscale => 1,
        ColorModel::GrayscaleAlpha => 2,
        ColorModel::Rgb => 3,
        ColorModel::Rgba => 4,
    }
}

/// A geometry profile: one image shape the codec can write.
#[derive(Clone, Copy, Debug, PartialEq, Eq, Structural)]
pub struct Metadata {
    pub width: u32,
    pub height: u32,
    pub bit_depth: Depth,
    pub color_type: ColorModel,
    pub compression: CompressionTier,
}

/// Raw bit count of a profile's raster buffer.
pub open spec fn spec_size_bits(m: Metadata) -> int {
    m.width * m.height * spec_bit_depth_size(m.bit_depth) * spec_color_type_multiple(m.color_type)
}

/// Capacity in bytes of a profile, if its bit count is byte-aligned.
pub open spec fn spec_size(m: Metadata) -> Option<int> {
    if spec_size_bits(m) % 8 == 0 {
        Some(spec_size_bits(m) / 8)
    } else {
        None
    }
}

impl Metadata {
    /// The profile used when no catalog entry overrides it.
    pub fn default() -> (r: Metadata)
        ensures
            r == (Metadata {
                width: 1024u32,
                height: 1024u32,
                bit_depth: Depth::Sixteen,
                color_type: ColorModel::Rgba,
                compression: CompressionTier::Fast,
            }),
    {
        Metadata {
            width: 1024,
            height: 1024,
            bit_depth: Depth::Sixteen,
            color_type: ColorModel::Rgba,
            compression: CompressionTier::Fast,
        }
    }

    /// Capacity in bytes of this profile's raster buffer: `None` when the
    /// bit count is not divisible into whole bytes, or when the byte count
    /// would not fit the machine's word.
    pub fn size(&self) -> (r: Option<usize>)
        ensures
            r matches Some(c) ==> spec_size(*self) == Some(c as int),
            r is None ==> (spec_size(*self) is None || (spec_size(*self) matches Some(n) && n
                > usize::MAX)),
    {
        let depth = bit_depth_size(&self.bit_depth) as u128;
        let channels = color_type_multiple(&self.color_type) as u128;
        let w = self.width as u128;
        let h = self.height as u128;
        assert((w * h) * depth * channels <= 0xffff_ffffu128 * 0xffff_ffffu128 * 16 * 4
            && w * h <= 0xffff_ffffu128 * 0xffff_ffffu128 && (w * h) * depth <= 0xffff_ffffu128
            * 0xffff_ffffu128 * 16) by (nonlinear_arith)
            requires
                w <= 0xffff_ffffu128,
                h <= 0xffff_ffffu128,
                depth <= 16,
                channels <= 4,
        ;
        let size = w * h * depth * channels;
        assert(size == spec_size_bits(*self));
        if size % 8 != 0 {
            return None;
        }
        let bytes = size / 8;
        if bytes > usize::MAX as u128 {
            return None;
        }
        Some(bytes as usize)
    }

    /// How many bytes of padding a payload of `data_len` bytes needs to fill
    /// this profile's raster buffer exactly; `None` when the profile has no
    /// whole-byte capacity or the payload does not fit.
    pub fn byte_to_padding(&self, data_len: usize) -> (r: Option<usize>)
        ensures
            r matches Some(p) ==> spec_byte_to_padding(*self, data_len as int) == Some(p as int),
            r is None ==> spec_byte_to_padding(*self, data_len as int) is None,
    {
        let target_size = match self.size() {
            Some(s) => s,
            None => {
                return None;
            },
        };
        if target_size < data_len {
            None
        } else {
            Some(target_size - data_len)
        }
    }

    /// Padding as a whole percentage of capacity, rounded down; `None`
    /// exactly where `byte_to_padding` is `None`.
    pub fn padding_percent(&self, data_len: usize) -> (r: Option<u64>)
        ensures
            spec_byte_to_padding(*self, data_len as int) matches Some(p) ==> r == Some(
                spec_padding_percent(p, spec_size(*self)->Some_0),
            ),
            spec_byte_to_padding(*self, data_len as int) is None ==> r is None,
            r matches Some(pc) ==> 0 <= pc <= 100,
    {
        let padding = match self.byte_to_padding(data_len) {
            Some(p) => p,
            None => {
                return None;
            },
        };
        let target_size = self.size().unwrap();
        if target_size == 0 {
            return Some(0);
        }
        let percent = ((padding as u128) * 100 / (target_size as u128)) as u64;
        proof {
            percent_in_range(padding as int, target_size as int);
        }
        Some(percent)
    }
}

/// Padding needed to fill the profile: `None` when the profile has no
/// whole-byte capacity, the capacity does not fit the machine's word, or
/// the payload is larger than the capacity.
pub open spec fn spec_byte_to_padding(m: Metadata, data_len: int) -> Option<int> {
    match spec_size(m) {
        Some(cap) => if cap >= data_len && cap <= usize::MAX {
            Some(cap - data_len)
        } else {
            None
        },
        None => None,
    }
}

/// Padding over capacity as a whole percentage, rounded down; an empty
/// capacity counts as fully padded at zero percent.
pub open spec fn spec_padding_percent(padding: int, cap: int) -> u64 {
    if cap == 0 {
        0u64
    } else {
        (padding * 100 / cap) as u64
    }
}

proof fn percent_in_range(padding: int, cap: int)
    requires
        0 <= padding <= cap,
        0 < cap,
    ensures
        0 <= padding * 100 / cap <= 100,
{
    assert(0 <= padding * 100 / cap <= 100) by (nonlinear_arith)
        requires
            0 <= padding <= cap,
            0 < cap,
    ;
}

/// The compression tier that a padding percentage selects: mostly-full
/// images compress fast, mostly-padded images are worth more effort.
pub fn compression_for_percent(percent: u64) -> (r: CompressionTier)
    requires
        percent <= 100,
    ensures
        r == spec_compression_for_percent(percent as int),
{
    if percent <= 30 {
        CompressionTier::Fast
    } else if percent <= 70 {
        CompressionTier::Default
    } else {
        CompressionTier::Best
    }
}

/// Total on [0, 100]: every ratio maps to exactly one tier.
pub open spec fn spec_compression_for_percent(percent: int) -> CompressionTier {
    if percent <= 30 {
        CompressionTier::Fast
    } else if percent <= 70 {
        CompressionTier::Default
    } else {
        CompressionTier::Best
    }
}


/// For every payload a profile can hold, the padding ratio lies between
/// zero and one: as a whole percentage, between 0 and 100.
pub proof fn lemma_padding_percent_bounds(m: Metadata, data_len: int)
    requires
        spec_byte_to_padding(m, data_len) is Some,
        data_len >= 0,
    ensures
        0 <= spec_padding_percent(
            spec_byte_to_padding(m, data_len)->Some_0,
            spec_size(m)->Some_0,
        ) <= 100,
{
    let cap = spec_size(m)->Some_0;
    let padding = spec_byte_to_padding(m, data_len)->Some_0;
    if cap != 0 {
        percent_in_range(padding, cap);
    }
}

/// Every ratio in range selects exactly one compression tier, with no gap
/// between the tiers.
pub proof fn lemma_tier_total(percent: int)
    requires
        0 <= percent <= 100,
    ensures
        (spec_compression_for_percent(percent) == CompressionTier::Fast) <==> (0 <= percent <= 30),
        (spec_compression_for_percent(percent) == CompressionTier::Default) <==> (31 <= percent
            <= 70),
        (spec_compression_for_percent(percent) == CompressionTier::Best) <==> (71 <= percent
            <= 100),
{
}

} // verus!
