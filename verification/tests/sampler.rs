use gli_rs::sampler::{
    FSampler1D, FSampler2D, FSampler2DArray, FSampler3D, FSamplerCube, FSamplerCubeArray, Filter,
    Sampler, TexelCoord, Wrap,
};
use gli_rs::{
    ErrorKind, Extent1d, Extent2d, Extent3d, Format, GliTexture, Pool, Texture1D, Texture2D,
    Texture2DArray, Texture3D, TextureAccessible, TextureCube, TextureCubeArray,
};

fn e2(width: u32, height: u32) -> Extent2d {
    Extent2d { width, height }
}

fn bug<T>(r: Result<T, gli_rs::Error>) -> bool {
    match r {
        Err(e) => matches!(e.kind(), ErrorKind::Bug(_)),
        Ok(_) => false,
    }
}

fn linear() -> Filter {
    Filter(Filter::LINEAR)
}

fn nearest() -> Filter {
    Filter(Filter::NEAREST)
}

/// A 2d texture of one byte a texel whose bytes count up from 0.
fn counting(pool: &mut Pool, width: u32, height: u32, levels: usize) -> Texture2D {
    let t = Texture2D::new(pool, Format(Format::R8_UNORM_PACK8), e2(width, height), levels);
    let id = t.raw_texture().buffer_id().unwrap();
    let base: Vec<u8> = (0..(width * height) as usize).map(|i| i as u8).collect();
    assert!(pool.write(id, 0, &base));
    t
}

#[test]
fn sampler2d_test() {
    // A texture of 256 by 256 texels of four bytes, none of them zero.
    let mut pool = Pool::new();
    let texture_loaded =
        Texture2D::new(&mut pool, Format(Format::BGRA8_UNORM_PACK8), e2(256, 256), 1);
    let id = texture_loaded.raw_texture().buffer_id().unwrap();
    assert!(pool.fill(id, 0, texture_loaded.size(), 0x5a));

    assert_eq!(texture_loaded.levels(), 1);

    let test_sampler =
        FSampler2D::new(&texture_loaded, Wrap(Wrap::CLAMP_TO_EDGE), linear(), linear()).unwrap();

    let test_fetch = test_sampler.texel_fetch(&pool, e2(0, 0), 0).unwrap();
    assert_ne!(test_fetch, [0; 4]);

    println!("Test fetch  texel: {:?}", test_fetch);

    // test base level.
    test_sampler.texel_write(&mut pool, e2(255, 255), 0, &[0; 4]).unwrap();
    assert_eq!(test_sampler.texel_fetch(&pool, e2(255, 255), 0).unwrap(), [0; 4]);
}

#[test]
fn sampler2d_memory_test() {
    let mut pool = Pool::new();
    let texture_loaded =
        Texture2D::new(&mut pool, Format(Format::BGRA8_UNORM_PACK8), e2(256, 256), 1);
    let id = texture_loaded.raw_texture().buffer_id().unwrap();

    for _ in 0..10 {
        let sampler =
            FSampler2D::new(&texture_loaded, Wrap(Wrap::CLAMP_TO_EDGE), linear(), linear())
                .unwrap();
        let _ = sampler.texel_fetch(&pool, [0, 0].into(), 0);
    }

    assert_eq!(pool.holders(id), 1);
}

#[test]
fn repeat_fetches_the_texel_one_image_back() {
    let mut pool = Pool::new();
    let t = counting(&mut pool, 4, 4, 1);
    let s = FSampler2D::new(&t, Wrap(Wrap::REPEAT), nearest(), nearest()).unwrap();
    assert_eq!(
        s.texel_fetch(&pool, e2(5, 0), 0).unwrap(),
        s.texel_fetch(&pool, e2(1, 0), 0).unwrap()
    );
    assert_eq!(s.texel_fetch(&pool, e2(5, 0), 0).unwrap(), [1]);
    assert_eq!(s.texel_fetch(&pool, e2(2, 7), 0).unwrap(), [14]);
    assert_eq!(s.texel_fetch(&pool, e2(4, 4), 0).unwrap(), [0]);
    assert_eq!(s.texel_fetch(&pool, e2(3, 3), 0).unwrap(), [15]);
}

#[test]
fn fetch_folds_as_the_wrap_mode_says() {
    let mut pool = Pool::new();
    let t = counting(&mut pool, 4, 4, 1);
    let raw = t.raw_texture();
    let at = |x: i64, y: i64| TexelCoord { x, y, z: 0 };
    let fetch = |pool: &Pool, wrap: u32, x: i64, y: i64| {
        let mut s = Sampler::new(raw, Wrap(wrap), nearest(), nearest()).unwrap();
        s.set_border_color(&[200]).unwrap();
        s.texel_fetch(pool, at(x, y), 0, 0, 0).unwrap()
    };
    assert_eq!(fetch(&pool, Wrap::CLAMP_TO_EDGE, 9, 1), [7]);
    assert_eq!(fetch(&pool, Wrap::CLAMP_TO_EDGE, -2, -2), [0]);
    assert_eq!(fetch(&pool, Wrap::CLAMP_TO_BORDER, 9, 1), [200]);
    assert_eq!(fetch(&pool, Wrap::CLAMP_TO_BORDER, 1, -1), [200]);
    assert_eq!(fetch(&pool, Wrap::CLAMP_TO_BORDER, 1, 2), [9]);
    assert_eq!(fetch(&pool, Wrap::REPEAT, -1, -1), [15]);
    assert_eq!(fetch(&pool, Wrap::MIRROR_REPEAT, 4, 5), [11]);
    assert_eq!(fetch(&pool, Wrap::MIRROR_REPEAT, -1, -2), [4]);
    assert_eq!(fetch(&pool, Wrap::MIRROR_CLAMP_TO_EDGE, -3, 9), [14]);
    assert_eq!(fetch(&pool, Wrap::MIRROR_CLAMP_TO_BORDER, -3, 1), [6]);
    assert_eq!(fetch(&pool, Wrap::MIRROR_CLAMP_TO_BORDER, -5, 1), [200]);
    // The third coordinate is folded too.
    let s = Sampler::new(raw, Wrap(Wrap::CLAMP_TO_BORDER), nearest(), nearest()).unwrap();
    assert_eq!(s.texel_fetch(&pool, TexelCoord { x: 1, y: 1, z: 1 }, 0, 0, 0).unwrap(), [0]);
    let s = Sampler::new(raw, Wrap(Wrap::REPEAT), nearest(), nearest()).unwrap();
    assert_eq!(s.texel_fetch(&pool, TexelCoord { x: 1, y: 1, z: 5 }, 0, 0, 0).unwrap(), [5]);
}

#[test]
fn write_changes_one_texel() {
    let mut pool = Pool::new();
    let t = Texture2D::new(&mut pool, Format(Format::RG8_UNORM_PACK8), e2(2, 2), 2);
    let s = FSampler2D::new(&t, Wrap(Wrap::REPEAT), nearest(), nearest()).unwrap();
    s.texel_write(&mut pool, e2(1, 0), 0, &[7, 8]).unwrap();
    s.texel_write(&mut pool, e2(2, 3), 0, &[5, 6]).unwrap();
    s.texel_write(&mut pool, e2(9, 9), 1, &[3, 4]).unwrap();
    assert_eq!(t.data(&pool).unwrap(), &[0, 0, 7, 8, 5, 6, 0, 0, 3, 4]);
    assert_eq!(s.texel_fetch(&pool, e2(1, 0), 0).unwrap(), [7, 8]);
    // What falls on the border is not written.
    let b = FSampler2D::new(&t, Wrap(Wrap::CLAMP_TO_BORDER), nearest(), nearest()).unwrap();
    b.texel_write(&mut pool, e2(2, 0), 0, &[9, 9]).unwrap();
    assert_eq!(t.data(&pool).unwrap(), &[0, 0, 7, 8, 5, 6, 0, 0, 3, 4]);
    // A texel of another size, and a level that is not shown, are refused.
    assert!(bug(s.texel_write(&mut pool, e2(0, 0), 0, &[1])));
    assert!(bug(s.texel_write(&mut pool, e2(0, 0), 0, &[1, 2, 3])));
    assert!(bug(s.texel_write(&mut pool, e2(0, 0), 2, &[1, 2])));
    assert!(bug(s.texel_fetch(&pool, e2(0, 0), 2)));
    assert_eq!(t.data(&pool).unwrap(), &[0, 0, 7, 8, 5, 6, 0, 0, 3, 4]);
}

#[test]
fn the_border_color_is_a_texel() {
    let mut pool = Pool::new();
    let t = Texture2D::new(&mut pool, Format(Format::RGBA8_UNORM_PACK8), e2(2, 2), 1);
    let mut s = FSampler2D::new(&t, Wrap(Wrap::CLAMP_TO_BORDER), nearest(), nearest()).unwrap();
    assert_eq!(s.texel_fetch(&pool, e2(2, 0), 0).unwrap(), [0, 0, 0, 0]);
    s.set_border_color(&[0, 0, 0, 255]).unwrap();
    assert_eq!(s.texel_fetch(&pool, e2(2, 0), 0).unwrap(), [0, 0, 0, 255]);
    assert_eq!(s.sampler().border_color(), &[0, 0, 0, 255]);
    assert!(bug(s.set_border_color(&[1, 2, 3])));
    assert!(bug(s.set_border_color(&[])));
    assert_eq!(s.sampler().border_color(), &[0, 0, 0, 255]);
}

#[test]
fn what_cannot_be_sampled() {
    let mut pool = Pool::new();
    let t = Texture2D::new(&mut pool, Format(Format::RGBA8_UNORM_PACK8), e2(2, 2), 1);
    assert!(bug(FSampler2D::new(&Texture2D::new_empty(), Wrap(0), nearest(), nearest())));
    assert!(bug(FSampler2D::new(&t, Wrap(6), nearest(), nearest())));
    assert!(bug(FSampler2D::new(&t, Wrap(0), Filter(0), nearest())));
    assert!(bug(FSampler2D::new(&t, Wrap(0), nearest(), Filter(3))));
    let blocks = Texture2D::new(&mut pool, Format(Format::RGB_DXT1_UNORM_BLOCK8), e2(8, 8), 1);
    assert!(!blocks.empty());
    assert!(bug(FSampler2D::new(&blocks, Wrap(0), nearest(), nearest())));
    // A sampler is told when its texture has lost its buffer.
    let s = FSampler2D::new(&t, Wrap(0), nearest(), nearest()).unwrap();
    assert!(pool.release(0));
    assert!(bug(s.texel_fetch(&pool, e2(0, 0), 0)));
    assert!(bug(s.texel_write(&mut pool, e2(0, 0), 0, &[0; 4])));
    assert!(bug(s.clear(&mut pool, &[0; 4])));
    assert!(bug(s.generate_mipmaps(&mut pool, nearest())));
}

#[test]
fn clear_sets_every_texel_that_is_shown() {
    let mut pool = Pool::new();
    let t = Texture2DArray::new(&mut pool, Format(Format::RG8_UNORM_PACK8), e2(2, 2), 2, 2);
    let id = t.raw_texture().buffer_id().unwrap();
    assert_eq!(t.size(), 20);
    assert!(pool.fill(id, 0, 20, 9));
    // The second level of both layers: bytes 8..10 and 18..20.
    let view = Texture2DArray::share_from_subset(&mut pool, &t, 0, 1, 1, 1).unwrap();
    let s = FSampler2DArray::new(&view, Wrap(0), nearest(), nearest()).unwrap();
    s.clear(&mut pool, &[1, 2]).unwrap();
    assert_eq!(
        t.data(&pool).unwrap(),
        &[9, 9, 9, 9, 9, 9, 9, 9, 1, 2, 9, 9, 9, 9, 9, 9, 9, 9, 1, 2]
    );
    let all = FSampler2DArray::new(&t, Wrap(0), nearest(), nearest()).unwrap();
    all.clear(&mut pool, &[3, 4]).unwrap();
    assert_eq!(
        t.data(&pool).unwrap(),
        &[3, 4, 3, 4, 3, 4, 3, 4, 3, 4, 3, 4, 3, 4, 3, 4, 3, 4, 3, 4]
    );
    assert!(bug(all.clear(&mut pool, &[1])));
    assert!(bug(all.clear(&mut pool, &[1, 2, 3, 4])));
}

#[test]
fn every_kind_has_its_coordinates() {
    let mut pool = Pool::new();
    let r8 = Format(Format::R8_UNORM_PACK8);
    let w = Wrap(Wrap::REPEAT);

    let t = Texture1D::new(&mut pool, r8, Extent1d { width: 4 }, 1);
    let s = FSampler1D::new(&t, w, nearest(), nearest()).unwrap();
    s.texel_write(&mut pool, Extent1d { width: 6 }, 0, &[5]).unwrap();
    assert_eq!(t.data(&pool).unwrap(), &[0, 0, 5, 0]);
    assert_eq!(s.texel_fetch(&pool, Extent1d { width: 2 }, 0).unwrap(), [5]);

    let t = Texture3D::new(&mut pool, r8, Extent3d { width: 2, height: 2, depth: 2 }, 1);
    let s = FSampler3D::new(&t, w, nearest(), nearest()).unwrap();
    s.texel_write(&mut pool, Extent3d { width: 1, height: 0, depth: 3 }, 0, &[6]).unwrap();
    assert_eq!(t.data(&pool).unwrap(), &[0, 0, 0, 0, 0, 6, 0, 0]);
    assert_eq!(s.texel_fetch(&pool, Extent3d { width: 1, height: 2, depth: 1 }, 0).unwrap(), [6]);

    let t = Texture2DArray::new(&mut pool, r8, e2(2, 1), 2, 1);
    let s = FSampler2DArray::new(&t, w, nearest(), nearest()).unwrap();
    s.texel_write(&mut pool, e2(1, 0), 1, 0, &[7]).unwrap();
    assert_eq!(t.data(&pool).unwrap(), &[0, 0, 0, 7]);
    assert_eq!(s.texel_fetch(&pool, e2(1, 0), 1, 0).unwrap(), [7]);
    assert!(bug(s.texel_fetch(&pool, e2(1, 0), 2, 0)));

    let t = TextureCube::new(&mut pool, r8, e2(1, 1), 1);
    let s = FSamplerCube::new(&t, w, nearest(), nearest()).unwrap();
    s.texel_write(&mut pool, e2(0, 0), 4, 0, &[8]).unwrap();
    assert_eq!(t.data(&pool).unwrap(), &[0, 0, 0, 0, 8, 0]);
    assert_eq!(s.texel_fetch(&pool, e2(3, 3), 4, 0).unwrap(), [8]);
    assert!(bug(s.texel_fetch(&pool, e2(0, 0), 6, 0)));

    let t = TextureCubeArray::new(&mut pool, r8, e2(1, 1), 2, 1);
    let s = FSamplerCubeArray::new(&t, w, nearest(), nearest()).unwrap();
    s.texel_write(&mut pool, e2(0, 0), 1, 2, 0, &[9]).unwrap();
    assert_eq!(t.data(&pool).unwrap(), &[0, 0, 0, 0, 0, 0, 0, 0, 9, 0, 0, 0]);
    assert_eq!(s.texel_fetch(&pool, e2(0, 0), 1, 2, 0).unwrap(), [9]);
}

#[test]
fn nearest_mipmaps_take_the_texel_at_the_middle() {
    let mut pool = Pool::new();
    let t = counting(&mut pool, 4, 4, 3);
    let s = FSampler2D::new(&t, Wrap(0), nearest(), nearest()).unwrap();
    s.generate_mipmaps(&mut pool, nearest()).unwrap();
    let all = t.data(&pool).unwrap();
    assert_eq!(&all[..16], &(0u8..16).collect::<Vec<u8>>()[..]);
    assert_eq!(&all[16..20], &[5, 7, 13, 15]);
    assert_eq!(&all[20..], &[15]);
}

#[test]
fn linear_mipmaps_take_the_mean() {
    let mut pool = Pool::new();
    let t = counting(&mut pool, 4, 4, 3);
    let s = FSampler2D::new(&t, Wrap(0), nearest(), nearest()).unwrap();
    s.generate_mipmaps(&mut pool, linear()).unwrap();
    let all = t.data(&pool).unwrap();
    assert_eq!(&all[..16], &(0u8..16).collect::<Vec<u8>>()[..]);
    assert_eq!(&all[16..20], &[3, 5, 11, 13]);
    assert_eq!(&all[20..], &[8]);
}

#[test]
fn mipmaps_of_a_range_of_levels() {
    let mut pool = Pool::new();
    let t = counting(&mut pool, 4, 4, 3);
    let id = t.raw_texture().buffer_id().unwrap();
    assert!(pool.write(id, 16, &[100, 101, 102, 103, 104]));
    let s = FSampler2D::new(&t, Wrap(0), nearest(), nearest()).unwrap();
    // From level 1 to level 2: level 1 stays.
    s.generate_mipmaps_detail(&mut pool, 1, 2, nearest()).unwrap();
    assert_eq!(&t.data(&pool).unwrap()[16..], &[100, 101, 102, 103, 103]);
    // From a level to itself nothing is made.
    s.generate_mipmaps_detail(&mut pool, 1, 1, linear()).unwrap();
    assert_eq!(&t.data(&pool).unwrap()[16..], &[100, 101, 102, 103, 103]);
    // From level 0 to level 1: level 2 stays.
    s.generate_mipmaps_detail(&mut pool, 0, 1, nearest()).unwrap();
    assert_eq!(&t.data(&pool).unwrap()[16..], &[5, 7, 13, 15, 103]);
}

#[test]
fn mipmaps_beyond_the_chain_are_refused() {
    let mut pool = Pool::new();
    let t = counting(&mut pool, 4, 4, 2);
    let before = t.data(&pool).unwrap().to_vec();
    let s = FSampler2D::new(&t, Wrap(0), nearest(), nearest()).unwrap();
    assert!(bug(s.generate_mipmaps_detail(&mut pool, 0, 2, nearest())));
    assert!(bug(s.generate_mipmaps_detail(&mut pool, 1, 0, nearest())));
    assert!(bug(s.generate_mipmaps_detail(&mut pool, 2, 2, nearest())));
    assert!(bug(s.generate_mipmaps_detail(&mut pool, 0, usize::MAX, nearest())));
    assert!(bug(s.generate_mipmaps_detail(&mut pool, 0, 1, Filter(0))));
    assert!(bug(s.generate_mipmaps_detail(&mut pool, 0, 1, Filter(3))));
    assert_eq!(t.data(&pool).unwrap(), &before[..]);
}

#[test]
fn the_linear_filter_wants_byte_channels() {
    let mut pool = Pool::new();
    for (format, fits) in [
        (Format::R8_UNORM_PACK8, true),
        (Format::RGBA8_UNORM_PACK8, true),
        (Format::BGR8_SRGB_PACK8, true),
        (Format::RG8_UINT_PACK8, true),
        (Format::LA8_UNORM_PACK8, true),
        (Format::R8_SNORM_PACK8, false),
        (Format::RGBA8_UNORM_PACK32, false),
        (Format::R16_UNORM_PACK16, false),
        (Format::RGBA32_SFLOAT_PACK32, false),
        (Format::R5G6B5_UNORM_PACK16, false),
    ] {
        let t = Texture2D::new(&mut pool, Format(format), e2(2, 2), 2);
        let s = FSampler2D::new(&t, Wrap(0), linear(), linear()).unwrap();
        assert_eq!(s.generate_mipmaps(&mut pool, linear()).is_ok(), fits, "{}", format);
        assert!(s.generate_mipmaps(&mut pool, nearest()).is_ok());
        assert_eq!(gli_rs::mipmap::has_byte_channels(Format(format)), fits);
    }
}

#[test]
fn mipmaps_of_texels_of_several_bytes() {
    let mut pool = Pool::new();
    let t = Texture2D::new(&mut pool, Format(Format::RG8_UNORM_PACK8), e2(2, 2), 2);
    let id = t.raw_texture().buffer_id().unwrap();
    assert!(pool.write(id, 0, &[10, 200, 20, 100, 30, 0, 40, 101]));
    let s = FSampler2D::new(&t, Wrap(0), nearest(), nearest()).unwrap();
    s.generate_mipmaps(&mut pool, linear()).unwrap();
    // (10 + 20 + 30 + 40) / 4 and (200 + 100 + 0 + 101) / 4, halves upwards.
    assert_eq!(&t.data(&pool).unwrap()[8..], &[25, 100]);
    s.generate_mipmaps(&mut pool, nearest()).unwrap();
    assert_eq!(&t.data(&pool).unwrap()[8..], &[40, 101]);
}

#[test]
fn mipmaps_of_odd_lengths() {
    let mut pool = Pool::new();
    let r8 = Format(Format::R8_UNORM_PACK8);
    // Three texels: the middle of the one texel below is the middle texel.
    let t = Texture1D::new(&mut pool, r8, Extent1d { width: 3 }, 2);
    let id = t.raw_texture().buffer_id().unwrap();
    assert!(pool.write(id, 0, &[10, 20, 30]));
    let s = FSampler1D::new(&t, Wrap(0), nearest(), nearest()).unwrap();
    s.generate_mipmaps(&mut pool, linear()).unwrap();
    assert_eq!(t.data(&pool).unwrap(), &[10, 20, 30, 20]);
    s.generate_mipmaps(&mut pool, nearest()).unwrap();
    assert_eq!(t.data(&pool).unwrap(), &[10, 20, 30, 20]);
    // Five texels: the middles of the two texels below lie at 1.25 and 3.75.
    let t = Texture1D::new(&mut pool, r8, Extent1d { width: 5 }, 3);
    let id = t.raw_texture().buffer_id().unwrap();
    assert!(pool.write(id, 0, &[0, 40, 80, 120, 160]));
    let s = FSampler1D::new(&t, Wrap(0), nearest(), nearest()).unwrap();
    s.generate_mipmaps(&mut pool, linear()).unwrap();
    assert_eq!(t.data(&pool).unwrap(), &[0, 40, 80, 120, 160, 30, 130, 80]);
    s.generate_mipmaps(&mut pool, nearest()).unwrap();
    assert_eq!(t.data(&pool).unwrap(), &[0, 40, 80, 120, 160, 40, 120, 120]);
}

#[test]
fn mipmaps_of_a_volume() {
    let mut pool = Pool::new();
    let t = Texture3D::new(
        &mut pool,
        Format(Format::R8_UNORM_PACK8),
        Extent3d { width: 2, height: 2, depth: 2 },
        2,
    );
    let id = t.raw_texture().buffer_id().unwrap();
    assert!(pool.write(id, 0, &[1, 2, 3, 4, 5, 6, 7, 9]));
    let s = FSampler3D::new(&t, Wrap(0), nearest(), nearest()).unwrap();
    s.generate_mipmaps(&mut pool, linear()).unwrap();
    // 37 / 8 is 4.625.
    assert_eq!(&t.data(&pool).unwrap()[8..], &[5]);
    s.generate_mipmaps_detail(&mut pool, 0, 1, nearest()).unwrap();
    assert_eq!(&t.data(&pool).unwrap()[8..], &[9]);
}

#[test]
fn mipmaps_of_layers_and_faces() {
    let mut pool = Pool::new();
    let r8 = Format(Format::R8_UNORM_PACK8);
    // Two cubes of six faces, 2 by 2 texels and two levels: 5 bytes a face.
    let t = TextureCubeArray::new(&mut pool, r8, e2(2, 2), 2, 2);
    let id = t.raw_texture().buffer_id().unwrap();
    for face in 0..12u8 {
        let v = face * 4;
        assert!(pool.write(id, face as usize * 5, &[v, v + 1, v + 2, v + 3, 255]));
    }
    let s = FSamplerCubeArray::new(&t, Wrap(0), nearest(), nearest()).unwrap();
    // Only faces 1 to 2 of the second cube.
    s.generate_mipmaps_detail(&mut pool, 1, 1, 1, 2, 0, 1, nearest()).unwrap();
    let all = t.data(&pool).unwrap();
    for face in 0..12usize {
        let want = if face == 7 || face == 8 { (face * 4 + 3) as u8 } else { 255 };
        assert_eq!(all[face * 5 + 4], want, "{}", face);
    }
    s.generate_mipmaps(&mut pool, linear()).unwrap();
    let all = t.data(&pool).unwrap();
    for face in 0..12usize {
        assert_eq!(all[face * 5 + 4], (face * 4 + 2) as u8, "{}", face);
    }
    assert!(bug(s.generate_mipmaps_detail(&mut pool, 0, 2, 0, 5, 0, 1, nearest())));
    assert!(bug(s.generate_mipmaps_detail(&mut pool, 0, 1, 0, 6, 0, 1, nearest())));

    let c = TextureCube::new(&mut pool, r8, e2(2, 2), 2);
    let id = c.raw_texture().buffer_id().unwrap();
    assert!(pool.fill(id, 0, 30, 6));
    let s = FSamplerCube::new(&c, Wrap(0), nearest(), nearest()).unwrap();
    assert!(pool.write(id, 10, &[1, 1, 1, 1]));
    s.generate_mipmaps_detail(&mut pool, 2, 2, 0, 1, linear()).unwrap();
    assert_eq!(c.data(&pool).unwrap()[14], 1);
    assert_eq!(c.data(&pool).unwrap()[9], 6);

    let a = Texture2DArray::new(&mut pool, r8, e2(2, 2), 2, 2);
    let id = a.raw_texture().buffer_id().unwrap();
    assert!(pool.write(id, 5, &[8, 8, 8, 8, 0]));
    let s = FSampler2DArray::new(&a, Wrap(0), nearest(), nearest()).unwrap();
    s.generate_mipmaps_detail(&mut pool, 1, 1, 0, 1, linear()).unwrap();
    assert_eq!(a.data(&pool).unwrap(), &[0, 0, 0, 0, 0, 8, 8, 8, 8, 8]);
}

#[test]
fn mipmaps_of_a_view_count_from_the_view() {
    let mut pool = Pool::new();
    let t = counting(&mut pool, 4, 4, 3);
    let upper = Texture2D::share_from_subset(&mut pool, &t, 1, 2).unwrap();
    let id = t.raw_texture().buffer_id().unwrap();
    assert!(pool.write(id, 16, &[4, 8, 12, 16, 0]));
    let s = FSampler2D::new(&upper, Wrap(0), nearest(), nearest()).unwrap();
    s.generate_mipmaps(&mut pool, linear()).unwrap();
    let all = t.data(&pool).unwrap();
    assert_eq!(&all[..16], &(0u8..16).collect::<Vec<u8>>()[..]);
    assert_eq!(&all[16..], &[4, 8, 12, 16, 10]);
    assert_eq!(s.texel_fetch(&pool, e2(1, 1), 0).unwrap(), [16]);
    assert_eq!(s.texel_fetch(&pool, e2(0, 0), 1).unwrap(), [10]);
}

#[test]
fn a_sampler_keeps_what_it_was_made_with() {
    let mut pool = Pool::new();
    let t = counting(&mut pool, 2, 2, 1);
    let s = FSampler2D::new(&t, Wrap(Wrap::MIRROR_REPEAT), linear(), nearest()).unwrap();
    assert_eq!(s.sampler().wrap(), Wrap(Wrap::MIRROR_REPEAT));
    assert_eq!(s.sampler().mip_filter(), linear());
    assert_eq!(s.sampler().min_filter(), nearest());
    assert_eq!(s.sampler().border_color(), &[0]);
    assert_eq!(s.sampler().texture().size(), 4);
}
