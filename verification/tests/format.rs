use gli_rs::format::Numeric;
use gli_rs::{Extent3d, Format};

struct Row {
    value: u32,
    numeric: Numeric,
    size: usize,
    width: u32,
    height: u32,
    components: usize,
    compressed: bool,
    packed: bool,
    depth: bool,
    stencil: bool,
}

fn catalogue() -> Vec<Row> {
    let mut rows = Vec::new();
    let mut add = |value: u32,
                   numeric: Numeric,
                   size: usize,
                   width: u32,
                   height: u32,
                   components: usize,
                   flags: [bool; 4]| {
        rows.push(Row {
            value,
            numeric,
            size,
            width,
            height,
            components,
            compressed: flags[0],
            packed: flags[1],
            depth: flags[2],
            stencil: flags[3],
        });
    };
    add(Format::RG4_UNORM_PACK8, Numeric::Unorm, 1, 1, 1, 2, [false, true, false, false]);
    add(Format::RGBA4_UNORM_PACK16, Numeric::Unorm, 2, 1, 1, 4, [false, true, false, false]);
    add(Format::BGRA4_UNORM_PACK16, Numeric::Unorm, 2, 1, 1, 4, [false, true, false, false]);
    add(Format::R5G6B5_UNORM_PACK16, Numeric::Unorm, 2, 1, 1, 3, [false, true, false, false]);
    add(Format::B5G6R5_UNORM_PACK16, Numeric::Unorm, 2, 1, 1, 3, [false, true, false, false]);
    add(Format::RGB5A1_UNORM_PACK16, Numeric::Unorm, 2, 1, 1, 4, [false, true, false, false]);
    add(Format::BGR5A1_UNORM_PACK16, Numeric::Unorm, 2, 1, 1, 4, [false, true, false, false]);
    add(Format::A1RGB5_UNORM_PACK16, Numeric::Unorm, 2, 1, 1, 4, [false, true, false, false]);
    add(Format::R8_UNORM_PACK8, Numeric::Unorm, 1, 1, 1, 1, [false, false, false, false]);
    add(Format::R8_SNORM_PACK8, Numeric::Snorm, 1, 1, 1, 1, [false, false, false, false]);
    add(Format::R8_USCALED_PACK8, Numeric::Uscaled, 1, 1, 1, 1, [false, false, false, false]);
    add(Format::R8_SSCALED_PACK8, Numeric::Sscaled, 1, 1, 1, 1, [false, false, false, false]);
    add(Format::R8_UINT_PACK8, Numeric::Uint, 1, 1, 1, 1, [false, false, false, false]);
    add(Format::R8_SINT_PACK8, Numeric::Sint, 1, 1, 1, 1, [false, false, false, false]);
    add(Format::R8_SRGB_PACK8, Numeric::Srgb, 1, 1, 1, 1, [false, false, false, false]);
    add(Format::RG8_UNORM_PACK8, Numeric::Unorm, 2, 1, 1, 2, [false, false, false, false]);
    add(Format::RG8_SNORM_PACK8, Numeric::Snorm, 2, 1, 1, 2, [false, false, false, false]);
    add(Format::RG8_USCALED_PACK8, Numeric::Uscaled, 2, 1, 1, 2, [false, false, false, false]);
    add(Format::RG8_SSCALED_PACK8, Numeric::Sscaled, 2, 1, 1, 2, [false, false, false, false]);
    add(Format::RG8_UINT_PACK8, Numeric::Uint, 2, 1, 1, 2, [false, false, false, false]);
    add(Format::RG8_SINT_PACK8, Numeric::Sint, 2, 1, 1, 2, [false, false, false, false]);
    add(Format::RG8_SRGB_PACK8, Numeric::Srgb, 2, 1, 1, 2, [false, false, false, false]);
    add(Format::RGB8_UNORM_PACK8, Numeric::Unorm, 3, 1, 1, 3, [false, false, false, false]);
    add(Format::RGB8_SNORM_PACK8, Numeric::Snorm, 3, 1, 1, 3, [false, false, false, false]);
    add(Format::RGB8_USCALED_PACK8, Numeric::Uscaled, 3, 1, 1, 3, [false, false, false, false]);
    add(Format::RGB8_SSCALED_PACK8, Numeric::Sscaled, 3, 1, 1, 3, [false, false, false, false]);
    add(Format::RGB8_UINT_PACK8, Numeric::Uint, 3, 1, 1, 3, [false, false, false, false]);
    add(Format::RGB8_SINT_PACK8, Numeric::Sint, 3, 1, 1, 3, [false, false, false, false]);
    add(Format::RGB8_SRGB_PACK8, Numeric::Srgb, 3, 1, 1, 3, [false, false, false, false]);
    add(Format::BGR8_UNORM_PACK8, Numeric::Unorm, 3, 1, 1, 3, [false, false, false, false]);
    add(Format::BGR8_SNORM_PACK8, Numeric::Snorm, 3, 1, 1, 3, [false, false, false, false]);
    add(Format::BGR8_USCALED_PACK8, Numeric::Uscaled, 3, 1, 1, 3, [false, false, false, false]);
    add(Format::BGR8_SSCALED_PACK8, Numeric::Sscaled, 3, 1, 1, 3, [false, false, false, false]);
    add(Format::BGR8_UINT_PACK8, Numeric::Uint, 3, 1, 1, 3, [false, false, false, false]);
    add(Format::BGR8_SINT_PACK8, Numeric::Sint, 3, 1, 1, 3, [false, false, false, false]);
    add(Format::BGR8_SRGB_PACK8, Numeric::Srgb, 3, 1, 1, 3, [false, false, false, false]);
    add(Format::RGBA8_UNORM_PACK8, Numeric::Unorm, 4, 1, 1, 4, [false, false, false, false]);
    add(Format::RGBA8_SNORM_PACK8, Numeric::Snorm, 4, 1, 1, 4, [false, false, false, false]);
    add(Format::RGBA8_USCALED_PACK8, Numeric::Uscaled, 4, 1, 1, 4, [false, false, false, false]);
    add(Format::RGBA8_SSCALED_PACK8, Numeric::Sscaled, 4, 1, 1, 4, [false, false, false, false]);
    add(Format::RGBA8_UINT_PACK8, Numeric::Uint, 4, 1, 1, 4, [false, false, false, false]);
    add(Format::RGBA8_SINT_PACK8, Numeric::Sint, 4, 1, 1, 4, [false, false, false, false]);
    add(Format::RGBA8_SRGB_PACK8, Numeric::Srgb, 4, 1, 1, 4, [false, false, false, false]);
    add(Format::BGRA8_UNORM_PACK8, Numeric::Unorm, 4, 1, 1, 4, [false, false, false, false]);
    add(Format::BGRA8_SNORM_PACK8, Numeric::Snorm, 4, 1, 1, 4, [false, false, false, false]);
    add(Format::BGRA8_USCALED_PACK8, Numeric::Uscaled, 4, 1, 1, 4, [false, false, false, false]);
    add(Format::BGRA8_SSCALED_PACK8, Numeric::Sscaled, 4, 1, 1, 4, [false, false, false, false]);
    add(Format::BGRA8_UINT_PACK8, Numeric::Uint, 4, 1, 1, 4, [false, false, false, false]);
    add(Format::BGRA8_SINT_PACK8, Numeric::Sint, 4, 1, 1, 4, [false, false, false, false]);
    add(Format::BGRA8_SRGB_PACK8, Numeric::Srgb, 4, 1, 1, 4, [false, false, false, false]);
    add(Format::RGBA8_UNORM_PACK32, Numeric::Unorm, 4, 1, 1, 4, [false, true, false, false]);
    add(Format::RGBA8_SNORM_PACK32, Numeric::Snorm, 4, 1, 1, 4, [false, true, false, false]);
    add(Format::RGBA8_USCALED_PACK32, Numeric::Uscaled, 4, 1, 1, 4, [false, true, false, false]);
    add(Format::RGBA8_SSCALED_PACK32, Numeric::Sscaled, 4, 1, 1, 4, [false, true, false, false]);
    add(Format::RGBA8_UINT_PACK32, Numeric::Uint, 4, 1, 1, 4, [false, true, false, false]);
    add(Format::RGBA8_SINT_PACK32, Numeric::Sint, 4, 1, 1, 4, [false, true, false, false]);
    add(Format::RGBA8_SRGB_PACK32, Numeric::Srgb, 4, 1, 1, 4, [false, true, false, false]);
    add(Format::RGB10A2_UNORM_PACK32, Numeric::Unorm, 4, 1, 1, 4, [false, true, false, false]);
    add(Format::RGB10A2_SNORM_PACK32, Numeric::Snorm, 4, 1, 1, 4, [false, true, false, false]);
    add(Format::RGB10A2_USCALED_PACK32, Numeric::Uscaled, 4, 1, 1, 4, [false, true, false, false]);
    add(Format::RGB10A2_SSCALED_PACK32, Numeric::Sscaled, 4, 1, 1, 4, [false, true, false, false]);
    add(Format::RGB10A2_UINT_PACK32, Numeric::Uint, 4, 1, 1, 4, [false, true, false, false]);
    add(Format::RGB10A2_SINT_PACK32, Numeric::Sint, 4, 1, 1, 4, [false, true, false, false]);
    add(Format::BGR10A2_UNORM_PACK32, Numeric::Unorm, 4, 1, 1, 4, [false, true, false, false]);
    add(Format::BGR10A2_SNORM_PACK32, Numeric::Snorm, 4, 1, 1, 4, [false, true, false, false]);
    add(Format::BGR10A2_USCALED_PACK32, Numeric::Uscaled, 4, 1, 1, 4, [false, true, false, false]);
    add(Format::BGR10A2_SSCALED_PACK32, Numeric::Sscaled, 4, 1, 1, 4, [false, true, false, false]);
    add(Format::BGR10A2_UINT_PACK32, Numeric::Uint, 4, 1, 1, 4, [false, true, false, false]);
    add(Format::BGR10A2_SINT_PACK32, Numeric::Sint, 4, 1, 1, 4, [false, true, false, false]);
    add(Format::R16_UNORM_PACK16, Numeric::Unorm, 2, 1, 1, 1, [false, false, false, false]);
    add(Format::R16_SNORM_PACK16, Numeric::Snorm, 2, 1, 1, 1, [false, false, false, false]);
    add(Format::R16_USCALED_PACK16, Numeric::Uscaled, 2, 1, 1, 1, [false, false, false, false]);
    add(Format::R16_SSCALED_PACK16, Numeric::Sscaled, 2, 1, 1, 1, [false, false, false, false]);
    add(Format::R16_UINT_PACK16, Numeric::Uint, 2, 1, 1, 1, [false, false, false, false]);
    add(Format::R16_SINT_PACK16, Numeric::Sint, 2, 1, 1, 1, [false, false, false, false]);
    add(Format::R16_SFLOAT_PACK16, Numeric::Sfloat, 2, 1, 1, 1, [false, false, false, false]);
    add(Format::RG16_UNORM_PACK16, Numeric::Unorm, 4, 1, 1, 2, [false, false, false, false]);
    add(Format::RG16_SNORM_PACK16, Numeric::Snorm, 4, 1, 1, 2, [false, false, false, false]);
    add(Format::RG16_USCALED_PACK16, Numeric::Uscaled, 4, 1, 1, 2, [false, false, false, false]);
    add(Format::RG16_SSCALED_PACK16, Numeric::Sscaled, 4, 1, 1, 2, [false, false, false, false]);
    add(Format::RG16_UINT_PACK16, Numeric::Uint, 4, 1, 1, 2, [false, false, false, false]);
    add(Format::RG16_SINT_PACK16, Numeric::Sint, 4, 1, 1, 2, [false, false, false, false]);
    add(Format::RG16_SFLOAT_PACK16, Numeric::Sfloat, 4, 1, 1, 2, [false, false, false, false]);
    add(Format::RGB16_UNORM_PACK16, Numeric::Unorm, 6, 1, 1, 3, [false, false, false, false]);
    add(Format::RGB16_SNORM_PACK16, Numeric::Snorm, 6, 1, 1, 3, [false, false, false, false]);
    add(Format::RGB16_USCALED_PACK16, Numeric::Uscaled, 6, 1, 1, 3, [false, false, false, false]);
    add(Format::RGB16_SSCALED_PACK16, Numeric::Sscaled, 6, 1, 1, 3, [false, false, false, false]);
    add(Format::RGB16_UINT_PACK16, Numeric::Uint, 6, 1, 1, 3, [false, false, false, false]);
    add(Format::RGB16_SINT_PACK16, Numeric::Sint, 6, 1, 1, 3, [false, false, false, false]);
    add(Format::RGB16_SFLOAT_PACK16, Numeric::Sfloat, 6, 1, 1, 3, [false, false, false, false]);
    add(Format::RGBA16_UNORM_PACK16, Numeric::Unorm, 8, 1, 1, 4, [false, false, false, false]);
    add(Format::RGBA16_SNORM_PACK16, Numeric::Snorm, 8, 1, 1, 4, [false, false, false, false]);
    add(Format::RGBA16_USCALED_PACK16, Numeric::Uscaled, 8, 1, 1, 4, [false, false, false, false]);
    add(Format::RGBA16_SSCALED_PACK16, Numeric::Sscaled, 8, 1, 1, 4, [false, false, false, false]);
    add(Format::RGBA16_UINT_PACK16, Numeric::Uint, 8, 1, 1, 4, [false, false, false, false]);
    add(Format::RGBA16_SINT_PACK16, Numeric::Sint, 8, 1, 1, 4, [false, false, false, false]);
    add(Format::RGBA16_SFLOAT_PACK16, Numeric::Sfloat, 8, 1, 1, 4, [false, false, false, false]);
    add(Format::R32_UINT_PACK32, Numeric::Uint, 4, 1, 1, 1, [false, false, false, false]);
    add(Format::R32_SINT_PACK32, Numeric::Sint, 4, 1, 1, 1, [false, false, false, false]);
    add(Format::R32_SFLOAT_PACK32, Numeric::Sfloat, 4, 1, 1, 1, [false, false, false, false]);
    add(Format::RG32_UINT_PACK32, Numeric::Uint, 8, 1, 1, 2, [false, false, false, false]);
    add(Format::RG32_SINT_PACK32, Numeric::Sint, 8, 1, 1, 2, [false, false, false, false]);
    add(Format::RG32_SFLOAT_PACK32, Numeric::Sfloat, 8, 1, 1, 2, [false, false, false, false]);
    add(Format::RGB32_UINT_PACK32, Numeric::Uint, 12, 1, 1, 3, [false, false, false, false]);
    add(Format::RGB32_SINT_PACK32, Numeric::Sint, 12, 1, 1, 3, [false, false, false, false]);
    add(Format::RGB32_SFLOAT_PACK32, Numeric::Sfloat, 12, 1, 1, 3, [false, false, false, false]);
    add(Format::RGBA32_UINT_PACK32, Numeric::Uint, 16, 1, 1, 4, [false, false, false, false]);
    add(Format::RGBA32_SINT_PACK32, Numeric::Sint, 16, 1, 1, 4, [false, false, false, false]);
    add(Format::RGBA32_SFLOAT_PACK32, Numeric::Sfloat, 16, 1, 1, 4, [false, false, false, false]);
    add(Format::R64_UINT_PACK64, Numeric::Uint, 8, 1, 1, 1, [false, false, false, false]);
    add(Format::R64_SINT_PACK64, Numeric::Sint, 8, 1, 1, 1, [false, false, false, false]);
    add(Format::R64_SFLOAT_PACK64, Numeric::Sfloat, 8, 1, 1, 1, [false, false, false, false]);
    add(Format::RG64_UINT_PACK64, Numeric::Uint, 16, 1, 1, 2, [false, false, false, false]);
    add(Format::RG64_SINT_PACK64, Numeric::Sint, 16, 1, 1, 2, [false, false, false, false]);
    add(Format::RG64_SFLOAT_PACK64, Numeric::Sfloat, 16, 1, 1, 2, [false, false, false, false]);
    add(Format::RGB64_UINT_PACK64, Numeric::Uint, 24, 1, 1, 3, [false, false, false, false]);
    add(Format::RGB64_SINT_PACK64, Numeric::Sint, 24, 1, 1, 3, [false, false, false, false]);
    add(Format::RGB64_SFLOAT_PACK64, Numeric::Sfloat, 24, 1, 1, 3, [false, false, false, false]);
    add(Format::RGBA64_UINT_PACK64, Numeric::Uint, 32, 1, 1, 4, [false, false, false, false]);
    add(Format::RGBA64_SINT_PACK64, Numeric::Sint, 32, 1, 1, 4, [false, false, false, false]);
    add(Format::RGBA64_SFLOAT_PACK64, Numeric::Sfloat, 32, 1, 1, 4, [false, false, false, false]);
    add(Format::RG11B10_UFLOAT_PACK32, Numeric::Ufloat, 4, 1, 1, 3, [false, true, false, false]);
    add(Format::RGB9E5_UFLOAT_PACK32, Numeric::Ufloat, 4, 1, 1, 3, [false, true, false, false]);
    add(Format::D16_UNORM_PACK16, Numeric::Unorm, 2, 1, 1, 1, [false, false, true, false]);
    add(Format::D24_UNORM_PACK32, Numeric::Unorm, 4, 1, 1, 1, [false, false, true, false]);
    add(Format::D32_SFLOAT_PACK32, Numeric::Sfloat, 4, 1, 1, 1, [false, false, true, false]);
    add(Format::S8_UINT_PACK8, Numeric::Uint, 1, 1, 1, 1, [false, false, false, true]);
    add(Format::D16_UNORM_S8_UINT_PACK32, Numeric::Unorm, 4, 1, 1, 2, [false, false, true, true]);
    add(Format::D24_UNORM_S8_UINT_PACK32, Numeric::Unorm, 4, 1, 1, 2, [false, false, true, true]);
    add(Format::D32_SFLOAT_S8_UINT_PACK64, Numeric::Sfloat, 8, 1, 1, 2, [false, false, true, true]);
    add(Format::RGB_DXT1_UNORM_BLOCK8, Numeric::Unorm, 8, 4, 4, 3, [true, false, false, false]);
    add(Format::RGB_DXT1_SRGB_BLOCK8, Numeric::Srgb, 8, 4, 4, 3, [true, false, false, false]);
    add(Format::RGBA_DXT1_UNORM_BLOCK8, Numeric::Unorm, 8, 4, 4, 4, [true, false, false, false]);
    add(Format::RGBA_DXT1_SRGB_BLOCK8, Numeric::Srgb, 8, 4, 4, 4, [true, false, false, false]);
    add(Format::RGBA_DXT3_UNORM_BLOCK16, Numeric::Unorm, 16, 4, 4, 4, [true, false, false, false]);
    add(Format::RGBA_DXT3_SRGB_BLOCK16, Numeric::Srgb, 16, 4, 4, 4, [true, false, false, false]);
    add(Format::RGBA_DXT5_UNORM_BLOCK16, Numeric::Unorm, 16, 4, 4, 4, [true, false, false, false]);
    add(Format::RGBA_DXT5_SRGB_BLOCK16, Numeric::Srgb, 16, 4, 4, 4, [true, false, false, false]);
    add(Format::R_ATI1N_UNORM_BLOCK8, Numeric::Unorm, 8, 4, 4, 1, [true, false, false, false]);
    add(Format::R_ATI1N_SNORM_BLOCK8, Numeric::Snorm, 8, 4, 4, 1, [true, false, false, false]);
    add(Format::RG_ATI2N_UNORM_BLOCK16, Numeric::Unorm, 16, 4, 4, 2, [true, false, false, false]);
    add(Format::RG_ATI2N_SNORM_BLOCK16, Numeric::Snorm, 16, 4, 4, 2, [true, false, false, false]);
    add(Format::RGB_BP_UFLOAT_BLOCK16, Numeric::Ufloat, 16, 4, 4, 3, [true, false, false, false]);
    add(Format::RGB_BP_SFLOAT_BLOCK16, Numeric::Sfloat, 16, 4, 4, 3, [true, false, false, false]);
    add(Format::RGBA_BP_UNORM_BLOCK16, Numeric::Unorm, 16, 4, 4, 4, [true, false, false, false]);
    add(Format::RGBA_BP_SRGB_BLOCK16, Numeric::Srgb, 16, 4, 4, 4, [true, false, false, false]);
    add(Format::RGB_ETC2_UNORM_BLOCK8, Numeric::Unorm, 8, 4, 4, 3, [true, false, false, false]);
    add(Format::RGB_ETC2_SRGB_BLOCK8, Numeric::Srgb, 8, 4, 4, 3, [true, false, false, false]);
    add(Format::RGBA_ETC2_UNORM_BLOCK8, Numeric::Unorm, 8, 4, 4, 4, [true, false, false, false]);
    add(Format::RGBA_ETC2_SRGB_BLOCK8, Numeric::Srgb, 8, 4, 4, 4, [true, false, false, false]);
    add(Format::RGBA_ETC2_UNORM_BLOCK16, Numeric::Unorm, 16, 4, 4, 4, [true, false, false, false]);
    add(Format::RGBA_ETC2_SRGB_BLOCK16, Numeric::Srgb, 16, 4, 4, 4, [true, false, false, false]);
    add(Format::R_EAC_UNORM_BLOCK8, Numeric::Unorm, 8, 4, 4, 1, [true, false, false, false]);
    add(Format::R_EAC_SNORM_BLOCK8, Numeric::Snorm, 8, 4, 4, 1, [true, false, false, false]);
    add(Format::RG_EAC_UNORM_BLOCK16, Numeric::Unorm, 16, 4, 4, 2, [true, false, false, false]);
    add(Format::RG_EAC_SNORM_BLOCK16, Numeric::Snorm, 16, 4, 4, 2, [true, false, false, false]);
    add(Format::RGBA_ASTC_4X4_UNORM_BLOCK16, Numeric::Unorm, 16, 4, 4, 4, [true, false, false, false]);
    add(Format::RGBA_ASTC_4X4_SRGB_BLOCK16, Numeric::Srgb, 16, 4, 4, 4, [true, false, false, false]);
    add(Format::RGBA_ASTC_5X4_UNORM_BLOCK16, Numeric::Unorm, 16, 5, 4, 4, [true, false, false, false]);
    add(Format::RGBA_ASTC_5X4_SRGB_BLOCK16, Numeric::Srgb, 16, 5, 4, 4, [true, false, false, false]);
    add(Format::RGBA_ASTC_5X5_UNORM_BLOCK16, Numeric::Unorm, 16, 5, 5, 4, [true, false, false, false]);
    add(Format::RGBA_ASTC_5X5_SRGB_BLOCK16, Numeric::Srgb, 16, 5, 5, 4, [true, false, false, false]);
    add(Format::RGBA_ASTC_6X5_UNORM_BLOCK16, Numeric::Unorm, 16, 6, 5, 4, [true, false, false, false]);
    add(Format::RGBA_ASTC_6X5_SRGB_BLOCK16, Numeric::Srgb, 16, 6, 5, 4, [true, false, false, false]);
    add(Format::RGBA_ASTC_6X6_UNORM_BLOCK16, Numeric::Unorm, 16, 6, 6, 4, [true, false, false, false]);
    add(Format::RGBA_ASTC_6X6_SRGB_BLOCK16, Numeric::Srgb, 16, 6, 6, 4, [true, false, false, false]);
    add(Format::RGBA_ASTC_8X5_UNORM_BLOCK16, Numeric::Unorm, 16, 8, 5, 4, [true, false, false, false]);
    add(Format::RGBA_ASTC_8X5_SRGB_BLOCK16, Numeric::Srgb, 16, 8, 5, 4, [true, false, false, false]);
    add(Format::RGBA_ASTC_8X6_UNORM_BLOCK16, Numeric::Unorm, 16, 8, 6, 4, [true, false, false, false]);
    add(Format::RGBA_ASTC_8X6_SRGB_BLOCK16, Numeric::Srgb, 16, 8, 6, 4, [true, false, false, false]);
    add(Format::RGBA_ASTC_8X8_UNORM_BLOCK16, Numeric::Unorm, 16, 8, 8, 4, [true, false, false, false]);
    add(Format::RGBA_ASTC_8X8_SRGB_BLOCK16, Numeric::Srgb, 16, 8, 8, 4, [true, false, false, false]);
    add(Format::RGBA_ASTC_10X5_UNORM_BLOCK16, Numeric::Unorm, 16, 10, 5, 4, [true, false, false, false]);
    add(Format::RGBA_ASTC_10X5_SRGB_BLOCK16, Numeric::Srgb, 16, 10, 5, 4, [true, false, false, false]);
    add(Format::RGBA_ASTC_10X6_UNORM_BLOCK16, Numeric::Unorm, 16, 10, 6, 4, [true, false, false, false]);
    add(Format::RGBA_ASTC_10X6_SRGB_BLOCK16, Numeric::Srgb, 16, 10, 6, 4, [true, false, false, false]);
    add(Format::RGBA_ASTC_10X8_UNORM_BLOCK16, Numeric::Unorm, 16, 10, 8, 4, [true, false, false, false]);
    add(Format::RGBA_ASTC_10X8_SRGB_BLOCK16, Numeric::Srgb, 16, 10, 8, 4, [true, false, false, false]);
    add(Format::RGBA_ASTC_10X10_UNORM_BLOCK16, Numeric::Unorm, 16, 10, 10, 4, [true, false, false, false]);
    add(Format::RGBA_ASTC_10X10_SRGB_BLOCK16, Numeric::Srgb, 16, 10, 10, 4, [true, false, false, false]);
    add(Format::RGBA_ASTC_12X10_UNORM_BLOCK16, Numeric::Unorm, 16, 12, 10, 4, [true, false, false, false]);
    add(Format::RGBA_ASTC_12X10_SRGB_BLOCK16, Numeric::Srgb, 16, 12, 10, 4, [true, false, false, false]);
    add(Format::RGBA_ASTC_12X12_UNORM_BLOCK16, Numeric::Unorm, 16, 12, 12, 4, [true, false, false, false]);
    add(Format::RGBA_ASTC_12X12_SRGB_BLOCK16, Numeric::Srgb, 16, 12, 12, 4, [true, false, false, false]);
    add(Format::RGB_PVRTC1_8X8_UNORM_BLOCK32, Numeric::Unorm, 32, 8, 8, 3, [true, false, false, false]);
    add(Format::RGB_PVRTC1_8X8_SRGB_BLOCK32, Numeric::Srgb, 32, 8, 8, 3, [true, false, false, false]);
    add(Format::RGB_PVRTC1_16X8_UNORM_BLOCK32, Numeric::Unorm, 32, 16, 8, 3, [true, false, false, false]);
    add(Format::RGB_PVRTC1_16X8_SRGB_BLOCK32, Numeric::Srgb, 32, 16, 8, 3, [true, false, false, false]);
    add(Format::RGBA_PVRTC1_8X8_UNORM_BLOCK32, Numeric::Unorm, 32, 8, 8, 4, [true, false, false, false]);
    add(Format::RGBA_PVRTC1_8X8_SRGB_BLOCK32, Numeric::Srgb, 32, 8, 8, 4, [true, false, false, false]);
    add(Format::RGBA_PVRTC1_16X8_UNORM_BLOCK32, Numeric::Unorm, 32, 16, 8, 4, [true, false, false, false]);
    add(Format::RGBA_PVRTC1_16X8_SRGB_BLOCK32, Numeric::Srgb, 32, 16, 8, 4, [true, false, false, false]);
    add(Format::RGBA_PVRTC2_4X4_UNORM_BLOCK8, Numeric::Unorm, 8, 4, 4, 4, [true, false, false, false]);
    add(Format::RGBA_PVRTC2_4X4_SRGB_BLOCK8, Numeric::Srgb, 8, 4, 4, 4, [true, false, false, false]);
    add(Format::RGBA_PVRTC2_8X4_UNORM_BLOCK8, Numeric::Unorm, 8, 8, 4, 4, [true, false, false, false]);
    add(Format::RGBA_PVRTC2_8X4_SRGB_BLOCK8, Numeric::Srgb, 8, 8, 4, 4, [true, false, false, false]);
    add(Format::RGB_ETC_UNORM_BLOCK8, Numeric::Unorm, 8, 4, 4, 3, [true, false, false, false]);
    add(Format::RGB_ATC_UNORM_BLOCK8, Numeric::Unorm, 8, 4, 4, 3, [true, false, false, false]);
    add(Format::RGBA_ATCA_UNORM_BLOCK16, Numeric::Unorm, 16, 4, 4, 4, [true, false, false, false]);
    add(Format::RGBA_ATCI_UNORM_BLOCK16, Numeric::Unorm, 16, 4, 4, 4, [true, false, false, false]);
    add(Format::L8_UNORM_PACK8, Numeric::Unorm, 1, 1, 1, 1, [false, false, false, false]);
    add(Format::A8_UNORM_PACK8, Numeric::Unorm, 1, 1, 1, 1, [false, false, false, false]);
    add(Format::LA8_UNORM_PACK8, Numeric::Unorm, 2, 1, 1, 2, [false, false, false, false]);
    add(Format::L16_UNORM_PACK16, Numeric::Unorm, 2, 1, 1, 1, [false, false, false, false]);
    add(Format::A16_UNORM_PACK16, Numeric::Unorm, 2, 1, 1, 1, [false, false, false, false]);
    add(Format::LA16_UNORM_PACK16, Numeric::Unorm, 4, 1, 1, 2, [false, false, false, false]);
    add(Format::BGR8_UNORM_PACK32, Numeric::Unorm, 4, 1, 1, 3, [false, true, false, false]);
    add(Format::BGR8_SRGB_PACK32, Numeric::Srgb, 4, 1, 1, 3, [false, true, false, false]);
    add(Format::RG3B2_UNORM_PACK8, Numeric::Unorm, 1, 1, 1, 3, [false, true, false, false]);
    rows
}

#[test]
fn is_compressed() {
    let test_format = Format(Format::RGB_ETC_UNORM_BLOCK8);
    assert!(test_format.is_compressed());
}

#[test]
fn the_catalogue_has_every_number_from_first_to_last() {
    let rows = catalogue();
    assert_eq!(rows.len(), 209);
    for (i, row) in rows.iter().enumerate() {
        assert_eq!(row.value, i as u32 + 1);
    }
    assert_eq!(Format::FIRST, 1);
    assert_eq!(Format::LAST, 209);
    assert_eq!(Format::UNDEFINED, 0);
}

#[test]
fn formats_classify_as_their_names_say() {
    for row in catalogue() {
        let f = Format(row.value);
        assert!(f.is_valid(), "{}", row.value);
        assert_eq!(f.numeric(), Some(row.numeric), "{}", row.value);
        assert_eq!(f.is_compressed(), row.compressed, "{}", row.value);
        assert_eq!(f.is_packed(), row.packed, "{}", row.value);
        assert_eq!(f.is_depth(), row.depth, "{}", row.value);
        assert_eq!(f.is_stencil(), row.stencil, "{}", row.value);
        assert_eq!(f.is_depth_stencil(), row.depth && row.stencil, "{}", row.value);
        let normalized = matches!(row.numeric, Numeric::Unorm | Numeric::Snorm | Numeric::Srgb);
        let unsigned = matches!(
            row.numeric,
            Numeric::Unorm | Numeric::Uscaled | Numeric::Uint | Numeric::Srgb | Numeric::Ufloat
        );
        let integer = matches!(row.numeric, Numeric::Uint | Numeric::Sint);
        let float = matches!(row.numeric, Numeric::Ufloat | Numeric::Sfloat);
        assert_eq!(f.is_normalized(), normalized, "{}", row.value);
        assert_eq!(f.is_unsigned(), unsigned, "{}", row.value);
        assert_eq!(f.is_signed(), !unsigned, "{}", row.value);
        assert_eq!(f.is_integer(), integer, "{}", row.value);
        assert_eq!(f.is_float(), float, "{}", row.value);
        assert_eq!(f.is_srgb(), row.numeric == Numeric::Srgb, "{}", row.value);
        assert_eq!(f.is_unorm(), normalized && unsigned, "{}", row.value);
        assert_eq!(f.is_snorm(), row.numeric == Numeric::Snorm, "{}", row.value);
        assert_eq!(f.is_signed_integer(), row.numeric == Numeric::Sint, "{}", row.value);
        assert_eq!(f.is_unsigned_integer(), row.numeric == Numeric::Uint, "{}", row.value);
    }
}

#[test]
fn formats_have_the_blocks_that_their_names_say() {
    for row in catalogue() {
        let f = Format(row.value);
        assert_eq!(f.block_size(), row.size, "{}", row.value);
        assert_eq!(
            f.block_extent(),
            Extent3d { width: row.width, height: row.height, depth: 1 },
            "{}",
            row.value
        );
        assert_eq!(f.component_count(), row.components, "{}", row.value);
    }
}

#[test]
fn numbers_outside_the_catalogue_are_in_no_class() {
    for value in [0u32, 210, 211, 1000, u32::MAX] {
        let f = Format(value);
        assert!(!f.is_valid());
        assert_eq!(f.numeric(), None);
        assert!(!f.is_compressed());
        assert!(!f.is_s3tc_compressed());
        assert!(!f.is_srgb());
        assert!(!f.is_unsigned());
        assert!(!f.is_signed());
        assert!(!f.is_integer());
        assert!(!f.is_signed_integer());
        assert!(!f.is_unsigned_integer());
        assert!(!f.is_float());
        assert!(!f.is_normalized());
        assert!(!f.is_unorm());
        assert!(!f.is_snorm());
        assert!(!f.is_packed());
        assert!(!f.is_depth());
        assert!(!f.is_stencil());
        assert!(!f.is_depth_stencil());
        assert_eq!(f.block_size(), 0);
        assert_eq!(f.block_extent(), Extent3d { width: 0, height: 0, depth: 0 });
        assert_eq!(f.component_count(), 0);
    }
}

#[test]
fn s3tc_is_dxt1_dxt3_and_dxt5() {
    for row in catalogue() {
        let s3tc = row.value >= Format::RGB_DXT1_UNORM_BLOCK8
            && row.value <= Format::RGBA_DXT5_SRGB_BLOCK16;
        assert_eq!(Format(row.value).is_s3tc_compressed(), s3tc);
    }
    assert!(Format(Format::RGBA_DXT3_UNORM_BLOCK16).is_s3tc_compressed());
    assert!(!Format(Format::R_ATI1N_UNORM_BLOCK8).is_s3tc_compressed());
}

#[test]
fn some_formats_by_hand() {
    let f = Format(Format::R5G6B5_UNORM_PACK16);
    assert_eq!(f.0, 4);
    assert_eq!(f.block_size(), 2);
    assert_eq!(f.component_count(), 3);
    assert!(f.is_packed() && f.is_unorm());
    let f = Format(Format::RGBA8_UNORM_PACK8);
    assert_eq!(f.0, 37);
    assert_eq!(f.block_size(), 4);
    assert!(!f.is_packed());
    let f = Format(Format::RGBA32_SFLOAT_PACK32);
    assert_eq!(f.block_size(), 16);
    assert!(f.is_float() && f.is_signed());
    let f = Format(Format::D24_UNORM_S8_UINT_PACK32);
    assert!(f.is_depth_stencil());
    assert_eq!(f.component_count(), 2);
    let f = Format(Format::RGBA_ASTC_12X10_SRGB_BLOCK16);
    assert_eq!(f.block_extent(), Extent3d { width: 12, height: 10, depth: 1 });
    assert!(f.is_srgb() && f.is_compressed());
}

#[test]
fn channel_orders() {
    let order = |f: u32| Format(f).channel_order();
    assert_eq!(order(Format::R8_UNORM_PACK8), Some(vec![0]));
    assert_eq!(order(Format::RG8_UINT_PACK8), Some(vec![0, 1]));
    assert_eq!(order(Format::RGB8_SRGB_PACK8), Some(vec![0, 1, 2]));
    assert_eq!(order(Format::RGBA8_UNORM_PACK8), Some(vec![0, 1, 2, 3]));
    assert_eq!(order(Format::BGR8_UNORM_PACK8), Some(vec![2, 1, 0]));
    assert_eq!(order(Format::BGR8_SRGB_PACK8), Some(vec![2, 1, 0]));
    assert_eq!(order(Format::BGRA8_UNORM_PACK8), Some(vec![2, 1, 0, 3]));
    assert_eq!(order(Format::BGRA8_USCALED_PACK8), Some(vec![2, 1, 0, 3]));
    assert_eq!(order(Format::L8_UNORM_PACK8), Some(vec![0]));
    assert_eq!(order(Format::A8_UNORM_PACK8), Some(vec![3]));
    assert_eq!(order(Format::LA8_UNORM_PACK8), Some(vec![0, 3]));
    assert_eq!(order(Format::S8_UINT_PACK8), Some(vec![0]));
    for f in [
        Format::UNDEFINED,
        Format::R8_SNORM_PACK8,
        Format::BGRA8_SINT_PACK8,
        Format::RGBA8_UNORM_PACK32,
        Format::BGR8_UNORM_PACK32,
        Format::R16_UNORM_PACK16,
        Format::RGBA32_SFLOAT_PACK32,
        Format::RGB_DXT1_UNORM_BLOCK8,
        Format::RG3B2_UNORM_PACK8,
        300,
    ] {
        assert_eq!(order(f), None, "{}", f);
    }
    for row in catalogue() {
        let f = Format(row.value);
        let byte_channels = gli_rs::mipmap::has_byte_channels(f);
        assert_eq!(f.channel_order().is_some(), byte_channels);
        if let Some(o) = f.channel_order() {
            assert_eq!(o.len(), row.size);
        }
    }
}
