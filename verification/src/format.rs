//! The catalogue of texel formats: their numeric identities, their
//! classification and the geometry of their blocks.
//!
//! A format's identity is the number that texture containers store in their
//! headers, so the numbers below are fixed. A name reads as: the channels with
//! their bit widths, the numeric interpretation, and the storage unit. `PACKn`
//! says that the texel is stored in units of `n` bits; `BLOCKn` says that the
//! format is block-compressed and one block takes `n` bytes.

use vstd::prelude::*;
use crate::extent::Extent3d;

verus! {

/// The container formats a texture can be read from and written to.
#[derive(Debug, Clone, Copy, PartialEq, Eq, Structural)]
pub enum TexFormatType {
    DDS,
    KTX,
    KMG,
}

/// How the stored bits of a channel are read as a number.
#[derive(Debug, Clone, Copy, PartialEq, Eq, Structural)]
pub enum Numeric {
    /// Unsigned, normalized to `[0, 1]`.
    Unorm,
    /// Signed, normalized to `[-1, 1]`.
    Snorm,
    /// Unsigned integer, read as a real number.
    Uscaled,
    /// Signed integer, read as a real number.
    Sscaled,
    /// Unsigned integer.
    Uint,
    /// Signed integer.
    Sint,
    /// Unsigned, normalized, colour channels in the sRGB colour space.
    Srgb,
    /// Floating point without a sign bit.
    Ufloat,
    /// Floating point with a sign bit.
    Sfloat,
}

/// Texture data format.
#[derive(Debug, Clone, Copy, PartialEq, Eq, Structural)]
pub struct Format(pub u32);

/// Represent the source of a channel.
#[derive(Debug, Clone, Copy, PartialEq, Eq, Structural)]
pub struct Swizzle(pub u32);

/// The sources of the red, green, blue and alpha channels, in this order.
pub type Swizzles = [Swizzle; 4];

impl Swizzle {
    pub const FIRST: u32 = 0;
    pub const RED: u32 = 0;
    pub const CHANNEL_FIRST: u32 = 0;
    pub const GREEN: u32 = 1;
    pub const BLUE: u32 = 2;
    pub const ALPHA: u32 = 3;
    pub const CHANNEL_LAST: u32 = 3;
    pub const ZERO: u32 = 4;
    pub const ONE: u32 = 5;
    pub const LAST: u32 = 5;

    /// A swizzle value passes this test when it lies between the first
    /// channel and the last swizzle value, both included.
    pub open spec fn spec_is_channel(self) -> bool {
        Swizzle::CHANNEL_FIRST <= self.0 <= Swizzle::LAST
    }

    /// Determine whether the Swizzle value represent a channel.
    pub fn is_channel(&self) -> (r: bool)
        ensures
            r == self.spec_is_channel(),
    {
        self.0 >= Swizzle::CHANNEL_FIRST && self.0 <= Swizzle::LAST
    }

    /// The name of a swizzle value, as it is printed.
    pub fn name(&self) -> (s: &'static str)
        ensures
            s@ == spec_swizzle_name(self.0),
    {
        if self.0 == Swizzle::RED {
            "Swizzle::RED"
        } else if self.0 == Swizzle::GREEN {
            "Swizzle::GREEN"
        } else if self.0 == Swizzle::BLUE {
            "Swizzle::BLUE"
        } else if self.0 == Swizzle::ALPHA {
            "Swizzle::ALPHA"
        } else if self.0 == Swizzle::ZERO {
            "Swizzle::ZERO"
        } else if self.0 == Swizzle::ONE {
            "Swizzle::ONE"
        } else {
            "Unknown Swizzle"
        }
    }
}

/// The text that stands for a swizzle value.
pub open spec fn spec_swizzle_name(v: u32) -> Seq<char> {
    if v == Swizzle::RED {
        "Swizzle::RED"@
    } else if v == Swizzle::GREEN {
        "Swizzle::GREEN"@
    } else if v == Swizzle::BLUE {
        "Swizzle::BLUE"@
    } else if v == Swizzle::ALPHA {
        "Swizzle::ALPHA"@
    } else if v == Swizzle::ZERO {
        "Swizzle::ZERO"@
    } else if v == Swizzle::ONE {
        "Swizzle::ONE"@
    } else {
        "Unknown Swizzle"@
    }
}

impl Format {
    pub const UNDEFINED: u32 = 0;
    pub const FIRST: u32 = 1;
    pub const RG4_UNORM_PACK8: u32 = 1;
    pub const RGBA4_UNORM_PACK16: u32 = 2;
    pub const BGRA4_UNORM_PACK16: u32 = 3;
    pub const R5G6B5_UNORM_PACK16: u32 = 4;
    pub const B5G6R5_UNORM_PACK16: u32 = 5;
    pub const RGB5A1_UNORM_PACK16: u32 = 6;
    pub const BGR5A1_UNORM_PACK16: u32 = 7;
    pub const A1RGB5_UNORM_PACK16: u32 = 8;
    pub const R8_UNORM_PACK8: u32 = 9;
    pub const R8_SNORM_PACK8: u32 = 10;
    pub const R8_USCALED_PACK8: u32 = 11;
    pub const R8_SSCALED_PACK8: u32 = 12;
    pub const R8_UINT_PACK8: u32 = 13;
    pub const R8_SINT_PACK8: u32 = 14;
    pub const R8_SRGB_PACK8: u32 = 15;
    pub const RG8_UNORM_PACK8: u32 = 16;
    pub const RG8_SNORM_PACK8: u32 = 17;
    pub const RG8_USCALED_PACK8: u32 = 18;
    pub const RG8_SSCALED_PACK8: u32 = 19;
    pub const RG8_UINT_PACK8: u32 = 20;
    pub const RG8_SINT_PACK8: u32 = 21;
    pub const RG8_SRGB_PACK8: u32 = 22;
    pub const RGB8_UNORM_PACK8: u32 = 23;
    pub const RGB8_SNORM_PACK8: u32 = 24;
    pub const RGB8_USCALED_PACK8: u32 = 25;
    pub const RGB8_SSCALED_PACK8: u32 = 26;
    pub const RGB8_UINT_PACK8: u32 = 27;
    pub const RGB8_SINT_PACK8: u32 = 28;
    pub const RGB8_SRGB_PACK8: u32 = 29;
    pub const BGR8_UNORM_PACK8: u32 = 30;
    pub const BGR8_SNORM_PACK8: u32 = 31;
    pub const BGR8_USCALED_PACK8: u32 = 32;
    pub const BGR8_SSCALED_PACK8: u32 = 33;
    pub const BGR8_UINT_PACK8: u32 = 34;
    pub const BGR8_SINT_PACK8: u32 = 35;
    pub const BGR8_SRGB_PACK8: u32 = 36;
    pub const RGBA8_UNORM_PACK8: u32 = 37;
    pub const RGBA8_SNORM_PACK8: u32 = 38;
    pub const RGBA8_USCALED_PACK8: u32 = 39;
    pub const RGBA8_SSCALED_PACK8: u32 = 40;
    pub const RGBA8_UINT_PACK8: u32 = 41;
    pub const RGBA8_SINT_PACK8: u32 = 42;
    pub const RGBA8_SRGB_PACK8: u32 = 43;
    pub const BGRA8_UNORM_PACK8: u32 = 44;
    pub const BGRA8_SNORM_PACK8: u32 = 45;
    pub const BGRA8_USCALED_PACK8: u32 = 46;
    pub const BGRA8_SSCALED_PACK8: u32 = 47;
    pub const BGRA8_UINT_PACK8: u32 = 48;
    pub const BGRA8_SINT_PACK8: u32 = 49;
    pub const BGRA8_SRGB_PACK8: u32 = 50;
    pub const RGBA8_UNORM_PACK32: u32 = 51;
    pub const RGBA8_SNORM_PACK32: u32 = 52;
    pub const RGBA8_USCALED_PACK32: u32 = 53;
    pub const RGBA8_SSCALED_PACK32: u32 = 54;
    pub const RGBA8_UINT_PACK32: u32 = 55;
    pub const RGBA8_SINT_PACK32: u32 = 56;
    pub const RGBA8_SRGB_PACK32: u32 = 57;
    pub const RGB10A2_UNORM_PACK32: u32 = 58;
    pub const RGB10A2_SNORM_PACK32: u32 = 59;
    pub const RGB10A2_USCALED_PACK32: u32 = 60;
    pub const RGB10A2_SSCALED_PACK32: u32 = 61;
    pub const RGB10A2_UINT_PACK32: u32 = 62;
    pub const RGB10A2_SINT_PACK32: u32 = 63;
    pub const BGR10A2_UNORM_PACK32: u32 = 64;
    pub const BGR10A2_SNORM_PACK32: u32 = 65;
    pub const BGR10A2_USCALED_PACK32: u32 = 66;
    pub const BGR10A2_SSCALED_PACK32: u32 = 67;
    pub const BGR10A2_UINT_PACK32: u32 = 68;
    pub const BGR10A2_SINT_PACK32: u32 = 69;
    pub const R16_UNORM_PACK16: u32 = 70;
    pub const R16_SNORM_PACK16: u32 = 71;
    pub const R16_USCALED_PACK16: u32 = 72;
    pub const R16_SSCALED_PACK16: u32 = 73;
    pub const R16_UINT_PACK16: u32 = 74;
    pub const R16_SINT_PACK16: u32 = 75;
    pub const R16_SFLOAT_PACK16: u32 = 76;
    pub const RG16_UNORM_PACK16: u32 = 77;
    pub const RG16_SNORM_PACK16: u32 = 78;
    pub const RG16_USCALED_PACK16: u32 = 79;
    pub const RG16_SSCALED_PACK16: u32 = 80;
    pub const RG16_UINT_PACK16: u32 = 81;
    pub const RG16_SINT_PACK16: u32 = 82;
    pub const RG16_SFLOAT_PACK16: u32 = 83;
    pub const RGB16_UNORM_PACK16: u32 = 84;
    pub const RGB16_SNORM_PACK16: u32 = 85;
    pub const RGB16_USCALED_PACK16: u32 = 86;
    pub const RGB16_SSCALED_PACK16: u32 = 87;
    pub const RGB16_UINT_PACK16: u32 = 88;
    pub const RGB16_SINT_PACK16: u32 = 89;
    pub const RGB16_SFLOAT_PACK16: u32 = 90;
    pub const RGBA16_UNORM_PACK16: u32 = 91;
    pub const RGBA16_SNORM_PACK16: u32 = 92;
    pub const RGBA16_USCALED_PACK16: u32 = 93;
    pub const RGBA16_SSCALED_PACK16: u32 = 94;
    pub const RGBA16_UINT_PACK16: u32 = 95;
    pub const RGBA16_SINT_PACK16: u32 = 96;
    pub const RGBA16_SFLOAT_PACK16: u32 = 97;
    pub const R32_UINT_PACK32: u32 = 98;
    pub const R32_SINT_PACK32: u32 = 99;
    pub const R32_SFLOAT_PACK32: u32 = 100;
    pub const RG32_UINT_PACK32: u32 = 101;
    pub const RG32_SINT_PACK32: u32 = 102;
    pub const RG32_SFLOAT_PACK32: u32 = 103;
    pub const RGB32_UINT_PACK32: u32 = 104;
    pub const RGB32_SINT_PACK32: u32 = 105;
    pub const RGB32_SFLOAT_PACK32: u32 = 106;
    pub const RGBA32_UINT_PACK32: u32 = 107;
    pub const RGBA32_SINT_PACK32: u32 = 108;
    pub const RGBA32_SFLOAT_PACK32: u32 = 109;
    pub const R64_UINT_PACK64: u32 = 110;
    pub const R64_SINT_PACK64: u32 = 111;
    pub const R64_SFLOAT_PACK64: u32 = 112;
    pub const RG64_UINT_PACK64: u32 = 113;
    pub const RG64_SINT_PACK64: u32 = 114;
    pub const RG64_SFLOAT_PACK64: u32 = 115;
    pub const RGB64_UINT_PACK64: u32 = 116;
    pub const RGB64_SINT_PACK64: u32 = 117;
    pub const RGB64_SFLOAT_PACK64: u32 = 118;
    pub const RGBA64_UINT_PACK64: u32 = 119;
    pub const RGBA64_SINT_PACK64: u32 = 120;
    pub const RGBA64_SFLOAT_PACK64: u32 = 121;
    pub const RG11B10_UFLOAT_PACK32: u32 = 122;
    pub const RGB9E5_UFLOAT_PACK32: u32 = 123;
    pub const D16_UNORM_PACK16: u32 = 124;
    pub const D24_UNORM_PACK32: u32 = 125;
    pub const D32_SFLOAT_PACK32: u32 = 126;
    pub const S8_UINT_PACK8: u32 = 127;
    pub const D16_UNORM_S8_UINT_PACK32: u32 = 128;
    pub const D24_UNORM_S8_UINT_PACK32: u32 = 129;
    pub const D32_SFLOAT_S8_UINT_PACK64: u32 = 130;
    pub const RGB_DXT1_UNORM_BLOCK8: u32 = 131;
    pub const RGB_DXT1_SRGB_BLOCK8: u32 = 132;
    pub const RGBA_DXT1_UNORM_BLOCK8: u32 = 133;
    pub const RGBA_DXT1_SRGB_BLOCK8: u32 = 134;
    pub const RGBA_DXT3_UNORM_BLOCK16: u32 = 135;
    pub const RGBA_DXT3_SRGB_BLOCK16: u32 = 136;
    pub const RGBA_DXT5_UNORM_BLOCK16: u32 = 137;
    pub const RGBA_DXT5_SRGB_BLOCK16: u32 = 138;
    pub const R_ATI1N_UNORM_BLOCK8: u32 = 139;
    pub const R_ATI1N_SNORM_BLOCK8: u32 = 140;
    pub const RG_ATI2N_UNORM_BLOCK16: u32 = 141;
    pub const RG_ATI2N_SNORM_BLOCK16: u32 = 142;
    pub const RGB_BP_UFLOAT_BLOCK16: u32 = 143;
    pub const RGB_BP_SFLOAT_BLOCK16: u32 = 144;
    pub const RGBA_BP_UNORM_BLOCK16: u32 = 145;
    pub const RGBA_BP_SRGB_BLOCK16: u32 = 146;
    pub const RGB_ETC2_UNORM_BLOCK8: u32 = 147;
    pub const RGB_ETC2_SRGB_BLOCK8: u32 = 148;
    pub const RGBA_ETC2_UNORM_BLOCK8: u32 = 149;
    pub const RGBA_ETC2_SRGB_BLOCK8: u32 = 150;
    pub const RGBA_ETC2_UNORM_BLOCK16: u32 = 151;
    pub const RGBA_ETC2_SRGB_BLOCK16: u32 = 152;
    pub const R_EAC_UNORM_BLOCK8: u32 = 153;
    pub const R_EAC_SNORM_BLOCK8: u32 = 154;
    pub const RG_EAC_UNORM_BLOCK16: u32 = 155;
    pub const RG_EAC_SNORM_BLOCK16: u32 = 156;
    pub const RGBA_ASTC_4X4_UNORM_BLOCK16: u32 = 157;
    pub const RGBA_ASTC_4X4_SRGB_BLOCK16: u32 = 158;
    pub const RGBA_ASTC_5X4_UNORM_BLOCK16: u32 = 159;
    pub const RGBA_ASTC_5X4_SRGB_BLOCK16: u32 = 160;
    pub const RGBA_ASTC_5X5_UNORM_BLOCK16: u32 = 161;
    pub const RGBA_ASTC_5X5_SRGB_BLOCK16: u32 = 162;
    pub const RGBA_ASTC_6X5_UNORM_BLOCK16: u32 = 163;
    pub const RGBA_ASTC_6X5_SRGB_BLOCK16: u32 = 164;
    pub const RGBA_ASTC_6X6_UNORM_BLOCK16: u32 = 165;
    pub const RGBA_ASTC_6X6_SRGB_BLOCK16: u32 = 166;
    pub const RGBA_ASTC_8X5_UNORM_BLOCK16: u32 = 167;
    pub const RGBA_ASTC_8X5_SRGB_BLOCK16: u32 = 168;
    pub const RGBA_ASTC_8X6_UNORM_BLOCK16: u32 = 169;
    pub const RGBA_ASTC_8X6_SRGB_BLOCK16: u32 = 170;
    pub const RGBA_ASTC_8X8_UNORM_BLOCK16: u32 = 171;
    pub const RGBA_ASTC_8X8_SRGB_BLOCK16: u32 = 172;
    pub const RGBA_ASTC_10X5_UNORM_BLOCK16: u32 = 173;
    pub const RGBA_ASTC_10X5_SRGB_BLOCK16: u32 = 174;
    pub const RGBA_ASTC_10X6_UNORM_BLOCK16: u32 = 175;
    pub const RGBA_ASTC_10X6_SRGB_BLOCK16: u32 = 176;
    pub const RGBA_ASTC_10X8_UNORM_BLOCK16: u32 = 177;
    pub const RGBA_ASTC_10X8_SRGB_BLOCK16: u32 = 178;
    pub const RGBA_ASTC_10X10_UNORM_BLOCK16: u32 = 179;
    pub const RGBA_ASTC_10X10_SRGB_BLOCK16: u32 = 180;
    pub const RGBA_ASTC_12X10_UNORM_BLOCK16: u32 = 181;
    pub const RGBA_ASTC_12X10_SRGB_BLOCK16: u32 = 182;
    pub const RGBA_ASTC_12X12_UNORM_BLOCK16: u32 = 183;
    pub const RGBA_ASTC_12X12_SRGB_BLOCK16: u32 = 184;
    pub const RGB_PVRTC1_8X8_UNORM_BLOCK32: u32 = 185;
    pub const RGB_PVRTC1_8X8_SRGB_BLOCK32: u32 = 186;
    pub const RGB_PVRTC1_16X8_UNORM_BLOCK32: u32 = 187;
    pub const RGB_PVRTC1_16X8_SRGB_BLOCK32: u32 = 188;
    pub const RGBA_PVRTC1_8X8_UNORM_BLOCK32: u32 = 189;
    pub const RGBA_PVRTC1_8X8_SRGB_BLOCK32: u32 = 190;
    pub const RGBA_PVRTC1_16X8_UNORM_BLOCK32: u32 = 191;
    pub const RGBA_PVRTC1_16X8_SRGB_BLOCK32: u32 = 192;
    pub const RGBA_PVRTC2_4X4_UNORM_BLOCK8: u32 = 193;
    pub const RGBA_PVRTC2_4X4_SRGB_BLOCK8: u32 = 194;
    pub const RGBA_PVRTC2_8X4_UNORM_BLOCK8: u32 = 195;
    pub const RGBA_PVRTC2_8X4_SRGB_BLOCK8: u32 = 196;
    pub const RGB_ETC_UNORM_BLOCK8: u32 = 197;
    pub const RGB_ATC_UNORM_BLOCK8: u32 = 198;
    pub const RGBA_ATCA_UNORM_BLOCK16: u32 = 199;
    pub const RGBA_ATCI_UNORM_BLOCK16: u32 = 200;
    pub const L8_UNORM_PACK8: u32 = 201;
    pub const A8_UNORM_PACK8: u32 = 202;
    pub const LA8_UNORM_PACK8: u32 = 203;
    pub const L16_UNORM_PACK16: u32 = 204;
    pub const A16_UNORM_PACK16: u32 = 205;
    pub const LA16_UNORM_PACK16: u32 = 206;
    pub const BGR8_UNORM_PACK32: u32 = 207;
    pub const BGR8_SRGB_PACK32: u32 = 208;
    pub const RG3B2_UNORM_PACK8: u32 = 209;
    pub const LAST: u32 = 209;

    /// A format is valid when its number lies in the catalogue.
    pub open spec fn spec_is_valid(self) -> bool {
        Format::FIRST <= self.0 <= Format::LAST
    }

    /// Evaluate whether a format value is valid or not.
    pub fn is_valid(&self) -> (r: bool)
        ensures
            r == self.spec_is_valid(),
    {
        self.0 >= Format::FIRST && self.0 <= Format::LAST
    }

    /// The numeric interpretation that the format's name states. A format
    /// that holds depth and stencil is classified by its depth channel. A
    /// number outside the catalogue has none.
    pub open spec fn spec_numeric(self) -> Option<Numeric> {
        let v = self.0;
        if v < Format::FIRST || v > Format::LAST {
            None
        } else if v <= Format::A1RGB5_UNORM_PACK16 {
            Some(Numeric::Unorm)
        } else if v <= Format::RGBA8_SRGB_PACK32 {
            Some(spec_numeric_of_seven((v - Format::R8_UNORM_PACK8) % 7, Numeric::Srgb))
        } else if v <= Format::BGR10A2_SINT_PACK32 {
            Some(spec_numeric_of_seven((v - Format::RGB10A2_UNORM_PACK32) % 6, Numeric::Srgb))
        } else if v <= Format::RGBA16_SFLOAT_PACK16 {
            Some(spec_numeric_of_seven((v - Format::R16_UNORM_PACK16) % 7, Numeric::Sfloat))
        } else if v <= Format::RGBA64_SFLOAT_PACK64 {
            Some(spec_numeric_of_seven((v - Format::R32_UINT_PACK32) % 3 + 4, Numeric::Sfloat))
        } else if v <= Format::RGB9E5_UFLOAT_PACK32 {
            Some(Numeric::Ufloat)
        } else if v == Format::D32_SFLOAT_PACK32 || v == Format::D32_SFLOAT_S8_UINT_PACK64 {
            Some(Numeric::Sfloat)
        } else if v == Format::S8_UINT_PACK8 {
            Some(Numeric::Uint)
        } else if v <= Format::D24_UNORM_S8_UINT_PACK32 {
            Some(Numeric::Unorm)
        } else if v <= Format::RGBA_DXT5_SRGB_BLOCK16 {
            Some(spec_numeric_of_pair((v - Format::RGB_DXT1_UNORM_BLOCK8) % 2, Numeric::Srgb))
        } else if v <= Format::RG_ATI2N_SNORM_BLOCK16 {
            Some(spec_numeric_of_pair((v - Format::R_ATI1N_UNORM_BLOCK8) % 2, Numeric::Snorm))
        } else if v == Format::RGB_BP_UFLOAT_BLOCK16 {
            Some(Numeric::Ufloat)
        } else if v == Format::RGB_BP_SFLOAT_BLOCK16 {
            Some(Numeric::Sfloat)
        } else if v <= Format::RGBA_ETC2_SRGB_BLOCK16 {
            Some(spec_numeric_of_pair((v - Format::RGBA_BP_UNORM_BLOCK16) % 2, Numeric::Srgb))
        } else if v <= Format::RG_EAC_SNORM_BLOCK16 {
            Some(spec_numeric_of_pair((v - Format::R_EAC_UNORM_BLOCK8) % 2, Numeric::Snorm))
        } else if v <= Format::RGBA_PVRTC2_8X4_SRGB_BLOCK8 {
            Some(spec_numeric_of_pair((v - Format::RGBA_ASTC_4X4_UNORM_BLOCK16) % 2, Numeric::Srgb))
        } else if v == Format::BGR8_SRGB_PACK32 {
            Some(Numeric::Srgb)
        } else {
            Some(Numeric::Unorm)
        }
    }

    /// The numeric interpretation of the format, if it is in the catalogue.
    pub fn numeric(&self) -> (r: Option<Numeric>)
        ensures
            r == self.spec_numeric(),
            r.is_some() == self.spec_is_valid(),
    {
        let v: u32 = self.0;
        if v < Format::FIRST || v > Format::LAST {
            None
        } else if v <= Format::A1RGB5_UNORM_PACK16 {
            Some(Numeric::Unorm)
        } else if v <= Format::RGBA8_SRGB_PACK32 {
            Some(numeric_of_seven((v - Format::R8_UNORM_PACK8) % 7, Numeric::Srgb))
        } else if v <= Format::BGR10A2_SINT_PACK32 {
            Some(numeric_of_seven((v - Format::RGB10A2_UNORM_PACK32) % 6, Numeric::Srgb))
        } else if v <= Format::RGBA16_SFLOAT_PACK16 {
            Some(numeric_of_seven((v - Format::R16_UNORM_PACK16) % 7, Numeric::Sfloat))
        } else if v <= Format::RGBA64_SFLOAT_PACK64 {
            Some(numeric_of_seven((v - Format::R32_UINT_PACK32) % 3 + 4, Numeric::Sfloat))
        } else if v <= Format::RGB9E5_UFLOAT_PACK32 {
            Some(Numeric::Ufloat)
        } else if v == Format::D32_SFLOAT_PACK32 || v == Format::D32_SFLOAT_S8_UINT_PACK64 {
            Some(Numeric::Sfloat)
        } else if v == Format::S8_UINT_PACK8 {
            Some(Numeric::Uint)
        } else if v <= Format::D24_UNORM_S8_UINT_PACK32 {
            Some(Numeric::Unorm)
        } else if v <= Format::RGBA_DXT5_SRGB_BLOCK16 {
            Some(numeric_of_pair((v - Format::RGB_DXT1_UNORM_BLOCK8) % 2, Numeric::Srgb))
        } else if v <= Format::RG_ATI2N_SNORM_BLOCK16 {
            Some(numeric_of_pair((v - Format::R_ATI1N_UNORM_BLOCK8) % 2, Numeric::Snorm))
        } else if v == Format::RGB_BP_UFLOAT_BLOCK16 {
            Some(Numeric::Ufloat)
        } else if v == Format::RGB_BP_SFLOAT_BLOCK16 {
            Some(Numeric::Sfloat)
        } else if v <= Format::RGBA_ETC2_SRGB_BLOCK16 {
            Some(numeric_of_pair((v - Format::RGBA_BP_UNORM_BLOCK16) % 2, Numeric::Srgb))
        } else if v <= Format::RG_EAC_SNORM_BLOCK16 {
            Some(numeric_of_pair((v - Format::R_EAC_UNORM_BLOCK8) % 2, Numeric::Snorm))
        } else if v <= Format::RGBA_PVRTC2_8X4_SRGB_BLOCK8 {
            Some(numeric_of_pair((v - Format::RGBA_ASTC_4X4_UNORM_BLOCK16) % 2, Numeric::Srgb))
        } else if v == Format::BGR8_SRGB_PACK32 {
            Some(Numeric::Srgb)
        } else {
            Some(Numeric::Unorm)
        }
    }

    /// The block-compressed formats.
    pub open spec fn spec_is_compressed(self) -> bool {
        Format::RGB_DXT1_UNORM_BLOCK8 <= self.0 <= Format::RGBA_ATCI_UNORM_BLOCK16
    }

    /// Evaluate whether a format is block-compressed.
    pub fn is_compressed(&self) -> (r: bool)
        ensures
            r == self.spec_is_compressed(),
            r ==> self.spec_is_valid() && !self.spec_is_packed() && !self.spec_is_depth()
                && !self.spec_is_stencil(),
    {
        self.0 >= Format::RGB_DXT1_UNORM_BLOCK8 && self.0 <= Format::RGBA_ATCI_UNORM_BLOCK16
    }

    /// The formats compressed with an S3TC algorithm (DXT1, DXT3, DXT5).
    pub open spec fn spec_is_s3tc_compressed(self) -> bool {
        Format::RGB_DXT1_UNORM_BLOCK8 <= self.0 <= Format::RGBA_DXT5_SRGB_BLOCK16
    }

    /// Evaluate whether a format is compressed with an S3TC algorithm.
    pub fn is_s3tc_compressed(&self) -> (r: bool)
        ensures
            r == self.spec_is_s3tc_compressed(),
            r ==> self.spec_is_compressed(),
    {
        self.0 >= Format::RGB_DXT1_UNORM_BLOCK8 && self.0 <= Format::RGBA_DXT5_SRGB_BLOCK16
    }

    pub open spec fn spec_is_srgb(self) -> bool {
        self.spec_numeric() == Some(Numeric::Srgb)
    }

    /// Evaluate whether a format stores sRGB color space values.
    pub fn is_srgb(&self) -> (r: bool)
        ensures
            r == self.spec_is_srgb(),
            r ==> self.spec_is_normalized() && self.spec_is_unsigned(),
    {
        match self.numeric() {
            Some(Numeric::Srgb) => true,
            _ => false,
        }
    }

    pub open spec fn spec_is_unsigned(self) -> bool {
        match self.spec_numeric() {
            Some(Numeric::Unorm) => true,
            Some(Numeric::Uscaled) => true,
            Some(Numeric::Uint) => true,
            Some(Numeric::Srgb) => true,
            Some(Numeric::Ufloat) => true,
            _ => false,
        }
    }

    /// Evaluate whether a format is unsigned.
    pub fn is_unsigned(&self) -> (r: bool)
        ensures
            r == self.spec_is_unsigned(),
    {
        match self.numeric() {
            Some(Numeric::Unorm) => true,
            Some(Numeric::Uscaled) => true,
            Some(Numeric::Uint) => true,
            Some(Numeric::Srgb) => true,
            Some(Numeric::Ufloat) => true,
            _ => false,
        }
    }

    pub open spec fn spec_is_signed(self) -> bool {
        match self.spec_numeric() {
            Some(Numeric::Snorm) => true,
            Some(Numeric::Sscaled) => true,
            Some(Numeric::Sint) => true,
            Some(Numeric::Sfloat) => true,
            _ => false,
        }
    }

    /// Evaluate whether a format is signed.
    pub fn is_signed(&self) -> (r: bool)
        ensures
            r == self.spec_is_signed(),
            self.spec_is_valid() ==> r != self.spec_is_unsigned(),
            !self.spec_is_valid() ==> !r && !self.spec_is_unsigned(),
    {
        match self.numeric() {
            Some(Numeric::Snorm) => true,
            Some(Numeric::Sscaled) => true,
            Some(Numeric::Sint) => true,
            Some(Numeric::Sfloat) => true,
            _ => false,
        }
    }

    pub open spec fn spec_is_integer(self) -> bool {
        match self.spec_numeric() {
            Some(Numeric::Uint) => true,
            Some(Numeric::Sint) => true,
            _ => false,
        }
    }

    /// Evaluate whether the format is an integer format.
    pub fn is_integer(&self) -> (r: bool)
        ensures
            r == self.spec_is_integer(),
            r ==> !self.spec_is_normalized() && !self.spec_is_float(),
    {
        match self.numeric() {
            Some(Numeric::Uint) => true,
            Some(Numeric::Sint) => true,
            _ => false,
        }
    }

    /// Evaluate whether the format is a signed integer format.
    pub fn is_signed_integer(&self) -> (r: bool)
        ensures
            r == (self.spec_is_integer() && self.spec_is_signed()),
            r == (self.spec_numeric() == Some(Numeric::Sint)),
    {
        self.is_integer() && self.is_signed()
    }

    /// Evaluate whether the format is an unsigned integer format.
    pub fn is_unsigned_integer(&self) -> (r: bool)
        ensures
            r == (self.spec_is_integer() && self.spec_is_unsigned()),
            r == (self.spec_numeric() == Some(Numeric::Uint)),
    {
        self.is_integer() && self.is_unsigned()
    }

    pub open spec fn spec_is_float(self) -> bool {
        match self.spec_numeric() {
            Some(Numeric::Ufloat) => true,
            Some(Numeric::Sfloat) => true,
            _ => false,
        }
    }

    /// Evaluate whether the format is an float format.
    pub fn is_float(&self) -> (r: bool)
        ensures
            r == self.spec_is_float(),
            r ==> !self.spec_is_normalized() && !self.spec_is_integer(),
    {
        match self.numeric() {
            Some(Numeric::Ufloat) => true,
            Some(Numeric::Sfloat) => true,
            _ => false,
        }
    }

    pub open spec fn spec_is_normalized(self) -> bool {
        match self.spec_numeric() {
            Some(Numeric::Unorm) => true,
            Some(Numeric::Snorm) => true,
            Some(Numeric::Srgb) => true,
            _ => false,
        }
    }

    /// Evaluate whether the format is normalized.
    pub fn is_normalized(&self) -> (r: bool)
        ensures
            r == self.spec_is_normalized(),
    {
        match self.numeric() {
            Some(Numeric::Unorm) => true,
            Some(Numeric::Snorm) => true,
            Some(Numeric::Srgb) => true,
            _ => false,
        }
    }

    /// Evaluate whether the format is an unsigned normalized format.
    pub fn is_unorm(&self) -> (r: bool)
        ensures
            r == (self.spec_is_normalized() && self.spec_is_unsigned()),
    {
        self.is_normalized() && self.is_unsigned()
    }

    /// Evaluate whether the format is a signed normalized format.
    pub fn is_snorm(&self) -> (r: bool)
        ensures
            r == (self.spec_is_normalized() && self.spec_is_signed()),
            r == (self.spec_numeric() == Some(Numeric::Snorm)),
    {
        self.is_normalized() && self.is_signed()
    }

    /// The formats in which several colour channels share one storage unit.
    pub open spec fn spec_is_packed(self) -> bool {
        let v = self.0;
        ||| Format::RG4_UNORM_PACK8 <= v <= Format::A1RGB5_UNORM_PACK16
        ||| Format::RGBA8_UNORM_PACK32 <= v <= Format::BGR10A2_SINT_PACK32
        ||| v == Format::RG11B10_UFLOAT_PACK32
        ||| v == Format::RGB9E5_UFLOAT_PACK32
        ||| v == Format::BGR8_UNORM_PACK32
        ||| v == Format::BGR8_SRGB_PACK32
        ||| v == Format::RG3B2_UNORM_PACK8
    }

    /// Evaluate whether the format is packed.
    pub fn is_packed(&self) -> (r: bool)
        ensures
            r == self.spec_is_packed(),
            r ==> self.spec_is_valid(),
    {
        let v: u32 = self.0;
        (v >= Format::RG4_UNORM_PACK8 && v <= Format::A1RGB5_UNORM_PACK16)
            || (v >= Format::RGBA8_UNORM_PACK32 && v <= Format::BGR10A2_SINT_PACK32)
            || v == Format::RG11B10_UFLOAT_PACK32
            || v == Format::RGB9E5_UFLOAT_PACK32
            || v == Format::BGR8_UNORM_PACK32
            || v == Format::BGR8_SRGB_PACK32
            || v == Format::RG3B2_UNORM_PACK8
    }

    /// The formats with a depth channel.
    pub open spec fn spec_is_depth(self) -> bool {
        let v = self.0;
        ||| Format::D16_UNORM_PACK16 <= v <= Format::D32_SFLOAT_PACK32
        ||| Format::D16_UNORM_S8_UINT_PACK32 <= v <= Format::D32_SFLOAT_S8_UINT_PACK64
    }

    /// Evaluate whether the format is a depth format.
    pub fn is_depth(&self) -> (r: bool)
        ensures
            r == self.spec_is_depth(),
            r ==> self.spec_is_valid(),
    {
        let v: u32 = self.0;
        (v >= Format::D16_UNORM_PACK16 && v <= Format::D32_SFLOAT_PACK32)
            || (v >= Format::D16_UNORM_S8_UINT_PACK32 && v <= Format::D32_SFLOAT_S8_UINT_PACK64)
    }

    /// The formats with a stencil channel.
    pub open spec fn spec_is_stencil(self) -> bool {
        Format::S8_UINT_PACK8 <= self.0 <= Format::D32_SFLOAT_S8_UINT_PACK64
    }

    /// Evaluate whether the format has a stencil component.
    pub fn is_stencil(&self) -> (r: bool)
        ensures
            r == self.spec_is_stencil(),
            r ==> self.spec_is_valid(),
    {
        self.0 >= Format::S8_UINT_PACK8 && self.0 <= Format::D32_SFLOAT_S8_UINT_PACK64
    }

    /// Evaluate whether the format has depth and stencil components.
    pub fn is_depth_stencil(&self) -> (r: bool)
        ensures
            r == (self.spec_is_depth() && self.spec_is_stencil()),
            r == (Format::D16_UNORM_S8_UINT_PACK32 <= self.0
                <= Format::D32_SFLOAT_S8_UINT_PACK64),
    {
        self.is_depth() && self.is_stencil()
    }

    /// The size in bytes of one block: of one texel for a format that is not
    /// compressed. A number outside the catalogue has size 0.
    pub open spec fn spec_block_size(self) -> nat {
        let v = self.0;
        if v < Format::FIRST || v > Format::LAST {
            0
        } else if v == Format::RG4_UNORM_PACK8 {
            1
        } else if v <= Format::A1RGB5_UNORM_PACK16 {
            2
        } else if v <= Format::R8_SRGB_PACK8 {
            1
        } else if v <= Format::RG8_SRGB_PACK8 {
            2
        } else if v <= Format::BGR8_SRGB_PACK8 {
            3
        } else if v <= Format::BGR10A2_SINT_PACK32 {
            4
        } else if v <= Format::R16_SFLOAT_PACK16 {
            2
        } else if v <= Format::RG16_SFLOAT_PACK16 {
            4
        } else if v <= Format::RGB16_SFLOAT_PACK16 {
            6
        } else if v <= Format::RGBA16_SFLOAT_PACK16 {
            8
        } else if v <= Format::R32_SFLOAT_PACK32 {
            4
        } else if v <= Format::RG32_SFLOAT_PACK32 {
            8
        } else if v <= Format::RGB32_SFLOAT_PACK32 {
            12
        } else if v <= Format::RGBA32_SFLOAT_PACK32 {
            16
        } else if v <= Format::R64_SFLOAT_PACK64 {
            8
        } else if v <= Format::RG64_SFLOAT_PACK64 {
            16
        } else if v <= Format::RGB64_SFLOAT_PACK64 {
            24
        } else if v <= Format::RGBA64_SFLOAT_PACK64 {
            32
        } else if v <= Format::RGB9E5_UFLOAT_PACK32 {
            4
        } else if v == Format::D16_UNORM_PACK16 {
            2
        } else if v <= Format::D32_SFLOAT_PACK32 {
            4
        } else if v == Format::S8_UINT_PACK8 {
            1
        } else if v <= Format::D24_UNORM_S8_UINT_PACK32 {
            4
        } else if v == Format::D32_SFLOAT_S8_UINT_PACK64 {
            8
        } else if v <= Format::RGBA_DXT1_SRGB_BLOCK8 {
            8
        } else if v <= Format::RGBA_DXT5_SRGB_BLOCK16 {
            16
        } else if v <= Format::R_ATI1N_SNORM_BLOCK8 {
            8
        } else if v <= Format::RGBA_BP_SRGB_BLOCK16 {
            16
        } else if v <= Format::RGBA_ETC2_SRGB_BLOCK8 {
            8
        } else if v <= Format::RGBA_ETC2_SRGB_BLOCK16 {
            16
        } else if v <= Format::R_EAC_SNORM_BLOCK8 {
            8
        } else if v <= Format::RGBA_ASTC_12X12_SRGB_BLOCK16 {
            16
        } else if v <= Format::RGBA_PVRTC1_16X8_SRGB_BLOCK32 {
            32
        } else if v <= Format::RGB_ATC_UNORM_BLOCK8 {
            8
        } else if v <= Format::RGBA_ATCI_UNORM_BLOCK16 {
            16
        } else if v <= Format::A8_UNORM_PACK8 {
            1
        } else if v <= Format::A16_UNORM_PACK16 {
            2
        } else if v <= Format::BGR8_SRGB_PACK32 {
            4
        } else {
            1
        }
    }

    /// Return the size in bytes of a block for a format.
    pub fn block_size(&self) -> (r: usize)
        ensures
            r == self.spec_block_size(),
            r <= 32,
            self.spec_is_valid() ==> r >= 1,
    {
        let v: u32 = self.0;
        if v < Format::FIRST || v > Format::LAST {
            0
        } else if v == Format::RG4_UNORM_PACK8 {
            1
        } else if v <= Format::A1RGB5_UNORM_PACK16 {
            2
        } else if v <= Format::R8_SRGB_PACK8 {
            1
        } else if v <= Format::RG8_SRGB_PACK8 {
            2
        } else if v <= Format::BGR8_SRGB_PACK8 {
            3
        } else if v <= Format::BGR10A2_SINT_PACK32 {
            4
        } else if v <= Format::R16_SFLOAT_PACK16 {
            2
        } else if v <= Format::RG16_SFLOAT_PACK16 {
            4
        } else if v <= Format::RGB16_SFLOAT_PACK16 {
            6
        } else if v <= Format::RGBA16_SFLOAT_PACK16 {
            8
        } else if v <= Format::R32_SFLOAT_PACK32 {
            4
        } else if v <= Format::RG32_SFLOAT_PACK32 {
            8
        } else if v <= Format::RGB32_SFLOAT_PACK32 {
            12
        } else if v <= Format::RGBA32_SFLOAT_PACK32 {
            16
        } else if v <= Format::R64_SFLOAT_PACK64 {
            8
        } else if v <= Format::RG64_SFLOAT_PACK64 {
            16
        } else if v <= Format::RGB64_SFLOAT_PACK64 {
            24
        } else if v <= Format::RGBA64_SFLOAT_PACK64 {
            32
        } else if v <= Format::RGB9E5_UFLOAT_PACK32 {
            4
        } else if v == Format::D16_UNORM_PACK16 {
            2
        } else if v <= Format::D32_SFLOAT_PACK32 {
            4
        } else if v == Format::S8_UINT_PACK8 {
            1
        } else if v <= Format::D24_UNORM_S8_UINT_PACK32 {
            4
        } else if v == Format::D32_SFLOAT_S8_UINT_PACK64 {
            8
        } else if v <= Format::RGBA_DXT1_SRGB_BLOCK8 {
            8
        } else if v <= Format::RGBA_DXT5_SRGB_BLOCK16 {
            16
        } else if v <= Format::R_ATI1N_SNORM_BLOCK8 {
            8
        } else if v <= Format::RGBA_BP_SRGB_BLOCK16 {
            16
        } else if v <= Format::RGBA_ETC2_SRGB_BLOCK8 {
            8
        } else if v <= Format::RGBA_ETC2_SRGB_BLOCK16 {
            16
        } else if v <= Format::R_EAC_SNORM_BLOCK8 {
            8
        } else if v <= Format::RGBA_ASTC_12X12_SRGB_BLOCK16 {
            16
        } else if v <= Format::RGBA_PVRTC1_16X8_SRGB_BLOCK32 {
            32
        } else if v <= Format::RGB_ATC_UNORM_BLOCK8 {
            8
        } else if v <= Format::RGBA_ATCI_UNORM_BLOCK16 {
            16
        } else if v <= Format::A8_UNORM_PACK8 {
            1
        } else if v <= Format::A16_UNORM_PACK16 {
            2
        } else if v <= Format::BGR8_SRGB_PACK32 {
            4
        } else {
            1
        }
    }

    /// The width in texels of one block. A format that is not compressed has
    /// blocks of one texel; a number outside the catalogue has width 0.
    pub open spec fn spec_block_width(self) -> nat {
        let v = self.0;
        if v < Format::FIRST || v > Format::LAST {
            0
        } else if v < Format::RGB_DXT1_UNORM_BLOCK8 || v > Format::RGBA_ATCI_UNORM_BLOCK16 {
            1
        } else if v < Format::RGBA_ASTC_4X4_UNORM_BLOCK16 {
            4
        } else if v <= Format::RGBA_ASTC_4X4_SRGB_BLOCK16 {
            4
        } else if v <= Format::RGBA_ASTC_5X5_SRGB_BLOCK16 {
            5
        } else if v <= Format::RGBA_ASTC_6X6_SRGB_BLOCK16 {
            6
        } else if v <= Format::RGBA_ASTC_8X8_SRGB_BLOCK16 {
            8
        } else if v <= Format::RGBA_ASTC_10X10_SRGB_BLOCK16 {
            10
        } else if v <= Format::RGBA_ASTC_12X12_SRGB_BLOCK16 {
            12
        } else if v <= Format::RGB_PVRTC1_8X8_SRGB_BLOCK32 {
            8
        } else if v <= Format::RGB_PVRTC1_16X8_SRGB_BLOCK32 {
            16
        } else if v <= Format::RGBA_PVRTC1_8X8_SRGB_BLOCK32 {
            8
        } else if v <= Format::RGBA_PVRTC1_16X8_SRGB_BLOCK32 {
            16
        } else if v <= Format::RGBA_PVRTC2_4X4_SRGB_BLOCK8 {
            4
        } else if v <= Format::RGBA_PVRTC2_8X4_SRGB_BLOCK8 {
            8
        } else {
            4
        }
    }

    /// The height in texels of one block.
    pub open spec fn spec_block_height(self) -> nat {
        let v = self.0;
        if v < Format::FIRST || v > Format::LAST {
            0
        } else if v < Format::RGB_DXT1_UNORM_BLOCK8 || v > Format::RGBA_ATCI_UNORM_BLOCK16 {
            1
        } else if v < Format::RGBA_ASTC_4X4_UNORM_BLOCK16 {
            4
        } else if v <= Format::RGBA_ASTC_5X4_SRGB_BLOCK16 {
            4
        } else if v <= Format::RGBA_ASTC_6X5_SRGB_BLOCK16 {
            5
        } else if v <= Format::RGBA_ASTC_6X6_SRGB_BLOCK16 {
            6
        } else if v <= Format::RGBA_ASTC_8X5_SRGB_BLOCK16 {
            5
        } else if v <= Format::RGBA_ASTC_8X6_SRGB_BLOCK16 {
            6
        } else if v <= Format::RGBA_ASTC_8X8_SRGB_BLOCK16 {
            8
        } else if v <= Format::RGBA_ASTC_10X5_SRGB_BLOCK16 {
            5
        } else if v <= Format::RGBA_ASTC_10X6_SRGB_BLOCK16 {
            6
        } else if v <= Format::RGBA_ASTC_10X8_SRGB_BLOCK16 {
            8
        } else if v <= Format::RGBA_ASTC_12X10_SRGB_BLOCK16 {
            10
        } else if v <= Format::RGBA_ASTC_12X12_SRGB_BLOCK16 {
            12
        } else if v <= Format::RGBA_PVRTC1_16X8_SRGB_BLOCK32 {
            8
        } else {
            4
        }
    }

    /// The size in texels of one block. Blocks are one texel deep.
    pub open spec fn spec_block_extent(self) -> Extent3d {
        Extent3d {
            width: self.spec_block_width() as u32,
            height: self.spec_block_height() as u32,
            depth: if self.spec_is_valid() { 1u32 } else { 0u32 },
        }
    }

    /// Return the dimensions in texels of the block for a format.
    pub fn block_extent(&self) -> (r: Extent3d)
        ensures
            r == self.spec_block_extent(),
            r.width <= 16 && r.height <= 12 && r.depth <= 1,
            self.spec_is_valid() ==> r.width >= 1 && r.height >= 1 && r.depth == 1,
            self.spec_is_valid() ==> (self.spec_is_compressed() <==> r.width * r.height > 1),
    {
        let v: u32 = self.0;
        if v < Format::FIRST || v > Format::LAST {
            return Extent3d { width: 0, height: 0, depth: 0 };
        }
        if v < Format::RGB_DXT1_UNORM_BLOCK8 || v > Format::RGBA_ATCI_UNORM_BLOCK16 {
            return Extent3d { width: 1, height: 1, depth: 1 };
        }
        let width: u32 = if v < Format::RGBA_ASTC_4X4_UNORM_BLOCK16 {
            4
        } else if v <= Format::RGBA_ASTC_4X4_SRGB_BLOCK16 {
            4
        } else if v <= Format::RGBA_ASTC_5X5_SRGB_BLOCK16 {
            5
        } else if v <= Format::RGBA_ASTC_6X6_SRGB_BLOCK16 {
            6
        } else if v <= Format::RGBA_ASTC_8X8_SRGB_BLOCK16 {
            8
        } else if v <= Format::RGBA_ASTC_10X10_SRGB_BLOCK16 {
            10
        } else if v <= Format::RGBA_ASTC_12X12_SRGB_BLOCK16 {
            12
        } else if v <= Format::RGB_PVRTC1_8X8_SRGB_BLOCK32 {
            8
        } else if v <= Format::RGB_PVRTC1_16X8_SRGB_BLOCK32 {
            16
        } else if v <= Format::RGBA_PVRTC1_8X8_SRGB_BLOCK32 {
            8
        } else if v <= Format::RGBA_PVRTC1_16X8_SRGB_BLOCK32 {
            16
        } else if v <= Format::RGBA_PVRTC2_4X4_SRGB_BLOCK8 {
            4
        } else if v <= Format::RGBA_PVRTC2_8X4_SRGB_BLOCK8 {
            8
        } else {
            4
        };
        let height: u32 = if v < Format::RGBA_ASTC_4X4_UNORM_BLOCK16 {
            4
        } else if v <= Format::RGBA_ASTC_5X4_SRGB_BLOCK16 {
            4
        } else if v <= Format::RGBA_ASTC_6X5_SRGB_BLOCK16 {
            5
        } else if v <= Format::RGBA_ASTC_6X6_SRGB_BLOCK16 {
            6
        } else if v <= Format::RGBA_ASTC_8X5_SRGB_BLOCK16 {
            5
        } else if v <= Format::RGBA_ASTC_8X6_SRGB_BLOCK16 {
            6
        } else if v <= Format::RGBA_ASTC_8X8_SRGB_BLOCK16 {
            8
        } else if v <= Format::RGBA_ASTC_10X5_SRGB_BLOCK16 {
            5
        } else if v <= Format::RGBA_ASTC_10X6_SRGB_BLOCK16 {
            6
        } else if v <= Format::RGBA_ASTC_10X8_SRGB_BLOCK16 {
            8
        } else if v <= Format::RGBA_ASTC_12X10_SRGB_BLOCK16 {
            10
        } else if v <= Format::RGBA_ASTC_12X12_SRGB_BLOCK16 {
            12
        } else if v <= Format::RGBA_PVRTC1_16X8_SRGB_BLOCK32 {
            8
        } else {
            4
        };
        Extent3d { width, height, depth: 1 }
    }

    /// The number of channels of a texel. A number outside the catalogue has
    /// none.
    pub open spec fn spec_component_count(self) -> nat {
        let v = self.0;
        if v < Format::FIRST || v > Format::LAST {
            0
        } else if v == Format::RG4_UNORM_PACK8 {
            2
        } else if v <= Format::BGRA4_UNORM_PACK16 {
            4
        } else if v <= Format::B5G6R5_UNORM_PACK16 {
            3
        } else if v <= Format::A1RGB5_UNORM_PACK16 {
            4
        } else if v <= Format::R8_SRGB_PACK8 {
            1
        } else if v <= Format::RG8_SRGB_PACK8 {
            2
        } else if v <= Format::BGR8_SRGB_PACK8 {
            3
        } else if v <= Format::BGR10A2_SINT_PACK32 {
            4
        } else if v <= Format::RGBA16_SFLOAT_PACK16 {
            ((v - Format::R16_UNORM_PACK16) / 7 + 1) as nat
        } else if v <= Format::RGBA64_SFLOAT_PACK64 {
            ((v - Format::R32_UINT_PACK32) / 3 % 4 + 1) as nat
        } else if v <= Format::RGB9E5_UFLOAT_PACK32 {
            3
        } else if v <= Format::S8_UINT_PACK8 {
            1
        } else if v <= Format::D32_SFLOAT_S8_UINT_PACK64 {
            2
        } else if v <= Format::RGB_DXT1_SRGB_BLOCK8 {
            3
        } else if v <= Format::RGBA_DXT5_SRGB_BLOCK16 {
            4
        } else if v <= Format::R_ATI1N_SNORM_BLOCK8 {
            1
        } else if v <= Format::RG_ATI2N_SNORM_BLOCK16 {
            2
        } else if v <= Format::RGB_BP_SFLOAT_BLOCK16 {
            3
        } else if v <= Format::RGBA_BP_SRGB_BLOCK16 {
            4
        } else if v <= Format::RGB_ETC2_SRGB_BLOCK8 {
            3
        } else if v <= Format::RGBA_ETC2_SRGB_BLOCK16 {
            4
        } else if v <= Format::R_EAC_SNORM_BLOCK8 {
            1
        } else if v <= Format::RG_EAC_SNORM_BLOCK16 {
            2
        } else if v <= Format::RGBA_ASTC_12X12_SRGB_BLOCK16 {
            4
        } else if v <= Format::RGB_PVRTC1_16X8_SRGB_BLOCK32 {
            3
        } else if v <= Format::RGBA_PVRTC2_8X4_SRGB_BLOCK8 {
            4
        } else if v <= Format::RGB_ATC_UNORM_BLOCK8 {
            3
        } else if v <= Format::RGBA_ATCI_UNORM_BLOCK16 {
            4
        } else if v <= Format::A8_UNORM_PACK8 {
            1
        } else if v == Format::LA8_UNORM_PACK8 {
            2
        } else if v <= Format::A16_UNORM_PACK16 {
            1
        } else if v == Format::LA16_UNORM_PACK16 {
            2
        } else {
            3
        }
    }

    /// Return the number of components of a format.
    pub fn component_count(&self) -> (r: usize)
        ensures
            r == self.spec_component_count(),
            r <= 4,
            self.spec_is_valid() ==> r >= 1,
    {
        let v: u32 = self.0;
        if v < Format::FIRST || v > Format::LAST {
            0
        } else if v == Format::RG4_UNORM_PACK8 {
            2
        } else if v <= Format::BGRA4_UNORM_PACK16 {
            4
        } else if v <= Format::B5G6R5_UNORM_PACK16 {
            3
        } else if v <= Format::A1RGB5_UNORM_PACK16 {
            4
        } else if v <= Format::R8_SRGB_PACK8 {
            1
        } else if v <= Format::RG8_SRGB_PACK8 {
            2
        } else if v <= Format::BGR8_SRGB_PACK8 {
            3
        } else if v <= Format::BGR10A2_SINT_PACK32 {
            4
        } else if v <= Format::RGBA16_SFLOAT_PACK16 {
            ((v - Format::R16_UNORM_PACK16) / 7 + 1) as usize
        } else if v <= Format::RGBA64_SFLOAT_PACK64 {
            ((v - Format::R32_UINT_PACK32) / 3 % 4 + 1) as usize
        } else if v <= Format::RGB9E5_UFLOAT_PACK32 {
            3
        } else if v <= Format::S8_UINT_PACK8 {
            1
        } else if v <= Format::D32_SFLOAT_S8_UINT_PACK64 {
            2
        } else if v <= Format::RGB_DXT1_SRGB_BLOCK8 {
            3
        } else if v <= Format::RGBA_DXT5_SRGB_BLOCK16 {
            4
        } else if v <= Format::R_ATI1N_SNORM_BLOCK8 {
            1
        } else if v <= Format::RG_ATI2N_SNORM_BLOCK16 {
            2
        } else if v <= Format::RGB_BP_SFLOAT_BLOCK16 {
            3
        } else if v <= Format::RGBA_BP_SRGB_BLOCK16 {
            4
        } else if v <= Format::RGB_ETC2_SRGB_BLOCK8 {
            3
        } else if v <= Format::RGBA_ETC2_SRGB_BLOCK16 {
            4
        } else if v <= Format::R_EAC_SNORM_BLOCK8 {
            1
        } else if v <= Format::RG_EAC_SNORM_BLOCK16 {
            2
        } else if v <= Format::RGBA_ASTC_12X12_SRGB_BLOCK16 {
            4
        } else if v <= Format::RGB_PVRTC1_16X8_SRGB_BLOCK32 {
            3
        } else if v <= Format::RGBA_PVRTC2_8X4_SRGB_BLOCK8 {
            4
        } else if v <= Format::RGB_ATC_UNORM_BLOCK8 {
            3
        } else if v <= Format::RGBA_ATCI_UNORM_BLOCK16 {
            4
        } else if v <= Format::A8_UNORM_PACK8 {
            1
        } else if v == Format::LA8_UNORM_PACK8 {
            2
        } else if v <= Format::A16_UNORM_PACK16 {
            1
        } else if v == Format::LA16_UNORM_PACK16 {
            2
        } else {
            3
        }
    }
}

/// The interpretation at position `i` of a run of formats that goes through
/// unorm, snorm, uscaled, sscaled, uint and sint, and ends with `last`.
pub open spec fn spec_numeric_of_seven(i: int, last: Numeric) -> Numeric {
    if i == 0 {
        Numeric::Unorm
    } else if i == 1 {
        Numeric::Snorm
    } else if i == 2 {
        Numeric::Uscaled
    } else if i == 3 {
        Numeric::Sscaled
    } else if i == 4 {
        Numeric::Uint
    } else if i == 5 {
        Numeric::Sint
    } else {
        last
    }
}

fn numeric_of_seven(i: u32, last: Numeric) -> (r: Numeric)
    ensures
        r == spec_numeric_of_seven(i as int, last),
{
    if i == 0 {
        Numeric::Unorm
    } else if i == 1 {
        Numeric::Snorm
    } else if i == 2 {
        Numeric::Uscaled
    } else if i == 3 {
        Numeric::Sscaled
    } else if i == 4 {
        Numeric::Uint
    } else if i == 5 {
        Numeric::Sint
    } else {
        last
    }
}

/// The interpretation at position `i` of a run of formats that alternates
/// between unorm and `other`.
pub open spec fn spec_numeric_of_pair(i: int, other: Numeric) -> Numeric {
    if i == 0 {
        Numeric::Unorm
    } else {
        other
    }
}

fn numeric_of_pair(i: u32, other: Numeric) -> (r: Numeric)
    ensures
        r == spec_numeric_of_pair(i as int, other),
{
    if i == 0 {
        Numeric::Unorm
    } else {
        other
    }
}

impl Format {
    /// Which of the channels red, green, blue and alpha, numbered 0 to 3,
    /// each byte of a texel holds, for a format whose bytes are unsigned
    /// channels of their own. Luminance is held where red is.
    pub open spec fn spec_channel_order(self) -> Seq<usize> {
        let v = self.0;
        if Format::BGR8_UNORM_PACK8 <= v <= Format::BGR8_SRGB_PACK8 || Format::BGRA8_UNORM_PACK8
            <= v <= Format::BGRA8_SRGB_PACK8 {
            seq![2usize, 1usize, 0usize, 3usize].subrange(0, self.spec_block_size() as int)
        } else if v == Format::A8_UNORM_PACK8 {
            seq![3usize]
        } else if v == Format::LA8_UNORM_PACK8 {
            seq![0usize, 3usize]
        } else {
            seq![0usize, 1usize, 2usize, 3usize].subrange(0, self.spec_block_size() as int)
        }
    }

    /// The channel that each byte of a texel holds, if the bytes of the
    /// format are unsigned channels of their own.
    pub fn channel_order(&self) -> (r: Option<Vec<usize>>)
        ensures
            r.is_some() == crate::mipmap::spec_has_byte_channels(*self),
            r matches Some(order) ==> order@ == self.spec_channel_order() && order@.len()
                == self.spec_block_size(),
    {
        if !crate::mipmap::has_byte_channels(*self) {
            return None;
        }
        let v: u32 = self.0;
        let size = self.block_size();
        let swapped = (v >= Format::BGR8_UNORM_PACK8 && v <= Format::BGR8_SRGB_PACK8) || (v
            >= Format::BGRA8_UNORM_PACK8 && v <= Format::BGRA8_SRGB_PACK8);
        let mut order: Vec<usize> = Vec::new();
        if v == Format::A8_UNORM_PACK8 {
            order.push(3);
        } else if v == Format::LA8_UNORM_PACK8 {
            order.push(0);
            order.push(3);
        } else {
            let all: [usize; 4] = if swapped {
                [2, 1, 0, 3]
            } else {
                [0, 1, 2, 3]
            };
            let mut k: usize = 0;
            while k < size
                invariant
                    k <= size <= 4,
                    order@ == all@.subrange(0, k as int),
                decreases size - k,
            {
                order.push(all[k]);
                k = k + 1;
                assert(order@ =~= all@.subrange(0, k as int));
            }
            assert(all@ =~= if swapped {
                seq![2usize, 1usize, 0usize, 3usize]
            } else {
                seq![0usize, 1usize, 2usize, 3usize]
            });
        }
        assert(order@ =~= self.spec_channel_order());
        Some(order)
    }
}

} // verus!
