use gli_rs::target::Target;
use gli_rs::texture::Texture;
use gli_rs::{
    ErrorKind, Extent1d, Extent2d, Extent3d, Format, GliTexture, Pool, Swizzle, Texture1D,
    Texture1DArray, Texture2D, Texture2DArray, Texture3D, TextureAccessible, TextureCube,
    TextureCubeArray,
};

fn rgba8() -> Format {
    Format(Format::RGBA8_UNORM_PACK8)
}

fn r8() -> Format {
    Format(Format::R8_UNORM_PACK8)
}

fn e2(width: u32, height: u32) -> Extent2d {
    Extent2d { width, height }
}

fn zero3() -> Extent3d {
    Extent3d { width: 0, height: 0, depth: 0 }
}

fn numbered(len: usize) -> Vec<u8> {
    (0..len).map(|i| (i % 251) as u8).collect()
}

fn is_bug<T>(r: Result<T, gli_rs::Error>) -> bool {
    match r {
        Err(e) => matches!(e.kind(), ErrorKind::Bug(_)),
        Ok(_) => false,
    }
}

/// A 2d array texture of two layers and three levels whose bytes count up.
fn numbered_array(pool: &mut Pool) -> Texture2DArray {
    let t = Texture2DArray::new(pool, r8(), e2(4, 4), 2, 3);
    assert_eq!(t.size(), 42);
    let id = t.raw_texture().buffer_id().unwrap();
    assert!(pool.write(id, 0, &numbered(42)));
    t
}

#[test]
fn new_texture_is_zeroed() {
    let mut pool = Pool::new();
    let texture = Texture2D::new(&mut pool, rgba8(), e2(4, 4), 1);
    assert!(!texture.empty());
    assert_eq!(texture.levels(), 1);
    assert_eq!(texture.faces(), 1);
    assert_eq!(texture.layers(), 1);
    assert_eq!(texture.size(), 64);
    assert_eq!(texture.size_at_level(0), 64);
    assert_eq!(texture.extent(0), e2(4, 4));
    assert_eq!(texture.format(), rgba8());
    assert_eq!(texture.target(), Target(Target::TARGET_2D));
    assert_eq!((texture.base_layer(), texture.max_layer()), (0, 0));
    assert_eq!((texture.base_face(), texture.max_face()), (0, 0));
    assert_eq!((texture.base_level(), texture.max_level()), (0, 0));
    let data = texture.data(&pool).unwrap();
    assert_eq!(data.len(), 64);
    assert!(data.iter().all(|b| *b == 0));
    assert_eq!(pool.holders(0), 1);
}

#[test]
fn empty_textures_show_nothing() {
    let mut pool = Pool::new();
    let t = Texture2D::new_empty();
    assert!(t.empty());
    assert_eq!((t.layers(), t.faces(), t.levels()), (0, 0, 0));
    assert_eq!(t.size(), 0);
    assert_eq!(t.size_at_level(0), 0);
    assert_eq!(t.extent(0), e2(0, 0));
    assert_eq!(t.format(), Format(Format::UNDEFINED));
    assert_eq!(t.target(), Target(Target::TARGET_2D));
    assert!(is_bug(t.data(&pool)));
    assert!(is_bug(t.clear(&mut pool)));
    assert!(t.release(&mut pool).is_ok());
    assert_eq!(pool.len(), 0);
    assert!(Texture1D::new_empty().empty());
    assert!(Texture1DArray::new_empty().empty());
    assert!(Texture2DArray::new_empty().empty());
    assert!(Texture3D::new_empty().empty());
    assert!(TextureCube::new_empty().empty());
    assert_eq!(TextureCubeArray::new_empty().target(), Target(Target::TARGET_CUBE_ARRAY));
}

#[test]
fn what_is_no_texture_comes_back_empty() {
    let mut pool = Pool::new();
    assert!(Texture2D::new(&mut pool, rgba8(), e2(4, 4), 0).empty());
    assert!(Texture2D::new(&mut pool, rgba8(), e2(4, 4), 4).empty());
    assert!(Texture2D::new(&mut pool, rgba8(), e2(0, 4), 1).empty());
    assert!(Texture2D::new(&mut pool, rgba8(), e2(4, 0), 1).empty());
    assert!(Texture2D::new(&mut pool, Format(0), e2(4, 4), 1).empty());
    assert!(Texture2D::new(&mut pool, Format(999), e2(4, 4), 1).empty());
    assert!(Texture2DArray::new(&mut pool, rgba8(), e2(4, 4), 0, 1).empty());
    assert!(Texture1D::new(&mut pool, rgba8(), Extent1d { width: 0 }, 1).empty());
    assert!(Texture3D::new(&mut pool, rgba8(), Extent3d { width: 2, height: 2, depth: 0 }, 1)
        .empty());
    assert!(Texture2D::new(&mut pool, rgba8(), e2(u32::MAX, u32::MAX), 1).empty());
    assert_eq!(pool.len(), 0);
    assert!(!Texture2D::new(&mut pool, rgba8(), e2(4, 4), 3).empty());
    assert_eq!(pool.len(), 1);
}

#[test]
fn kinds_have_their_shapes() {
    let mut pool = Pool::new();
    let t = Texture1D::new(&mut pool, r8(), Extent1d { width: 8 }, 2);
    assert_eq!((t.layers(), t.faces(), t.levels()), (1, 1, 2));
    assert_eq!(t.extent(1), Extent1d { width: 4 });
    assert_eq!(t.size(), 12);
    assert_eq!(t.target(), Target(Target::TARGET_1D));
    let t = Texture1DArray::new(&mut pool, r8(), Extent1d { width: 8 }, 3, 1);
    assert_eq!((t.layers(), t.faces(), t.levels()), (3, 1, 1));
    assert_eq!(t.size(), 24);
    assert_eq!(t.target(), Target(Target::TARGET_1D_ARRAY));
    let t = Texture2DArray::new(&mut pool, r8(), e2(4, 2), 3, 2);
    assert_eq!((t.layers(), t.faces(), t.levels()), (3, 1, 2));
    assert_eq!(t.size(), 30);
    assert_eq!(t.extent(1), e2(2, 1));
    let t = Texture3D::new(&mut pool, r8(), Extent3d { width: 4, height: 4, depth: 4 }, 3);
    assert_eq!(t.size(), 64 + 8 + 1);
    assert_eq!(t.extent(1), Extent3d { width: 2, height: 2, depth: 2 });
    assert_eq!(t.target(), Target(Target::TARGET_3D));
    let t = TextureCube::new(&mut pool, rgba8(), e2(4, 4), 1);
    assert_eq!((t.layers(), t.faces(), t.levels()), (1, 6, 1));
    assert_eq!(t.size(), 384);
    assert_eq!(t.target(), Target(Target::TARGET_CUBE));
    let t = TextureCubeArray::new(&mut pool, rgba8(), e2(4, 4), 2, 1);
    assert_eq!((t.layers(), t.faces(), t.levels()), (2, 6, 1));
    assert_eq!(t.size(), 768);
    assert_eq!((t.max_layer(), t.max_face(), t.max_level()), (1, 5, 0));
}

#[test]
fn a_complete_mipmap_chain_ends_at_one_texel() {
    let mut pool = Pool::new();
    let t = Texture2D::new_with_mipmap_chain(&mut pool, rgba8(), e2(256, 64));
    assert_eq!(t.levels(), 9);
    assert_eq!(t.extent(0), e2(256, 64));
    assert_eq!(t.extent(6), e2(4, 1));
    assert_eq!(t.extent(8), e2(1, 1));
    assert_eq!(t.extent(9), e2(0, 0));
    assert_eq!(t.size_at_level(8), 4);
    assert_eq!(t.size_at_level(9), 0);
    let t = Texture1D::new_with_mipmap_chain(&mut pool, r8(), Extent1d { width: 5 });
    assert_eq!(t.levels(), 3);
    assert_eq!(t.size(), 5 + 2 + 1);
    let t = Texture3D::new_with_mipmap_chain(
        &mut pool,
        r8(),
        Extent3d { width: 2, height: 2, depth: 16 },
    );
    assert_eq!(t.levels(), 5);
    let t = TextureCubeArray::new_with_mipmap_chain(&mut pool, r8(), e2(4, 4), 2);
    assert_eq!((t.layers(), t.faces(), t.levels()), (2, 6, 3));
    let t = Texture2DArray::new_with_mipmap_chain(&mut pool, r8(), e2(1, 1), 4);
    assert_eq!((t.layers(), t.levels()), (4, 1));
    assert!(Texture2D::new_with_mipmap_chain(&mut pool, r8(), e2(0, 0)).empty());
}

#[test]
fn a_known_texture_of_r5g6b5() {
    // A 2d texture of 256 by 256 texels of two bytes each.
    let mut pool = Pool::new();
    let (width, height) = (256u32, 256u32);
    let format = Format(Format::R5G6B5_UNORM_PACK16);
    let texture = Texture2D::new(&mut pool, format, e2(width, height), 1);
    assert_eq!(texture.levels(), 1);
    assert_eq!(texture.faces(), 1);
    assert_eq!(texture.layers(), 1);
    assert_eq!(texture.extent(0), e2(width, height));
    let image = texture.get_level(&mut pool, 0).unwrap();
    assert_eq!(image.size(), (width * height) as usize * format.block_size());
    assert_eq!(image.size(), 131072);
    assert_eq!(image.extent(), Extent3d { width, height, depth: 1 });
    assert_eq!(image.format(), format);
    assert!(is_bug(texture.get_level(&mut pool, 1)));
}

#[test]
fn from_bytes_takes_the_bytes_as_they_are() {
    let mut pool = Pool::new();
    let t = Texture::from_bytes(
        &mut pool,
        Target(Target::TARGET_2D),
        r8(),
        Extent3d { width: 4, height: 4, depth: 1 },
        1,
        1,
        2,
        numbered(20),
    );
    assert!(!t.empty());
    assert_eq!(t.data(&pool).unwrap(), &numbered(20)[..]);
    assert_eq!(t.image_data(&pool, 0, 0, 1).unwrap(), &[16, 17, 18, 19]);
    // Bytes of another size make no texture.
    let t = Texture::from_bytes(
        &mut pool,
        Target(Target::TARGET_2D),
        r8(),
        Extent3d { width: 4, height: 4, depth: 1 },
        1,
        1,
        2,
        numbered(19),
    );
    assert!(t.empty());
    // Nor does a shape that the target does not admit.
    let t = Texture::from_bytes(
        &mut pool,
        Target(Target::TARGET_2D),
        r8(),
        Extent3d { width: 4, height: 4, depth: 1 },
        2,
        1,
        1,
        numbered(32),
    );
    assert!(t.empty());
    assert_eq!(pool.len(), 1);
}

#[test]
fn images_lie_one_after_the_other() {
    let mut pool = Pool::new();
    let t = numbered_array(&mut pool);
    let raw = t.raw_texture();
    assert_eq!(raw.image_offset(0, 0, 0), Some(0));
    assert_eq!(raw.image_offset(0, 0, 1), Some(16));
    assert_eq!(raw.image_offset(0, 0, 2), Some(20));
    assert_eq!(raw.image_offset(1, 0, 0), Some(21));
    assert_eq!(raw.image_offset(1, 0, 2), Some(41));
    assert_eq!(raw.image_offset(2, 0, 0), None);
    assert_eq!(raw.image_offset(0, 1, 0), None);
    assert_eq!(raw.image_offset(0, 0, 3), None);
    assert_eq!(raw.image_data(&pool, 1, 0, 1).unwrap(), &[37, 38, 39, 40]);
    assert!(is_bug(raw.image_data(&pool, 1, 0, 3)));
}

#[test]
fn share_from_shows_the_same() {
    let mut pool = Pool::new();
    let t = numbered_array(&mut pool);
    let view = Texture2DArray::share_from(&mut pool, &t).unwrap();
    assert_eq!(pool.holders(0), 2);
    assert_eq!((view.layers(), view.faces(), view.levels()), (2, 1, 3));
    assert_eq!(view.data(&pool).unwrap(), t.data(&pool).unwrap());
    assert!(view.raw_texture().shares_with(t.raw_texture()));
    // A kind that does not admit two layers refuses.
    assert!(is_bug(Texture2D::share_from(&mut pool, &t)));
    assert!(is_bug(TextureCube::new_from(&mut pool, &t)));
    assert!(is_bug(Texture1DArray::share_from(&mut pool, &t)));
    assert_eq!(pool.holders(0), 2);
    // The view of an empty texture is empty.
    let none = Texture2D::share_from(&mut pool, &Texture3D::new_empty()).unwrap();
    assert!(none.empty());
    assert_eq!(none.target(), Target(Target::TARGET_2D));
    view.release(&mut pool).unwrap();
    assert_eq!(pool.holders(0), 1);
}

#[test]
fn derived_views_stay_inside_their_source() {
    let mut pool = Pool::new();
    let t = TextureCubeArray::new(&mut pool, r8(), e2(4, 4), 3, 3);
    // Layers 1..2, faces 2..4, levels 1..2 of the whole.
    let view = TextureCubeArray::new_detail(&mut pool, &t, r8(), 1, 2, 2, 4, 1, 2).unwrap();
    assert_eq!((view.base_layer(), view.max_layer()), (1, 2));
    assert_eq!((view.base_face(), view.max_face()), (2, 4));
    assert_eq!((view.base_level(), view.max_level()), (1, 2));
    assert_eq!((view.layers(), view.faces(), view.levels()), (2, 3, 2));
    assert_eq!(view.extent(0), e2(2, 2));
    assert_eq!(view.size(), (4 + 1) * 3 * 2);
    // From the view only what lies inside the view can be derived.
    for (bl, ml, bf, mf, bv, mv) in [
        (0, 2, 2, 4, 1, 2),
        (1, 3, 2, 4, 1, 2),
        (1, 2, 1, 4, 1, 2),
        (1, 2, 2, 5, 1, 2),
        (1, 2, 2, 4, 0, 2),
        (1, 2, 2, 4, 1, 3),
        (2, 1, 2, 4, 1, 2),
        (1, 2, 4, 2, 1, 2),
        (1, 2, 2, 4, 2, 1),
    ] {
        assert!(
            is_bug(TextureCubeArray::new_detail(&mut pool, &view, r8(), bl, ml, bf, mf, bv, mv)),
            "{:?}",
            (bl, ml, bf, mf, bv, mv)
        );
    }
    assert_eq!(pool.holders(0), 2);
    let inner = TextureCubeArray::new_detail(&mut pool, &view, r8(), 2, 2, 3, 4, 2, 2).unwrap();
    assert!(view.base_layer() <= inner.base_layer() && inner.max_layer() <= view.max_layer());
    assert!(view.base_face() <= inner.base_face() && inner.max_face() <= view.max_face());
    assert!(view.base_level() <= inner.base_level() && inner.max_level() <= view.max_level());
    assert!(inner.base_layer() <= inner.max_layer());
    assert!(inner.base_face() <= inner.max_face());
    assert!(inner.base_level() <= inner.max_level());
    assert_eq!(pool.holders(0), 3);
}

#[test]
fn a_format_of_another_block_size_is_refused() {
    let mut pool = Pool::new();
    let t = Texture2D::new(&mut pool, rgba8(), e2(4, 4), 1);
    // Four bytes a texel: these fit.
    for f in [Format::R32_SFLOAT_PACK32, Format::RG16_UINT_PACK16, Format::RGB10A2_UNORM_PACK32] {
        let view = Texture2D::share_from_detail(&mut pool, &t, Format(f), 0, 0, 0, 0, 0, 0).unwrap();
        assert_eq!(view.format(), Format(f));
        assert_eq!(view.size(), 64);
        view.release(&mut pool).unwrap();
    }
    // These do not.
    for f in [
        Format::R8_UNORM_PACK8,
        Format::RGB8_UNORM_PACK8,
        Format::RGBA16_UNORM_PACK16,
        Format::RGB_DXT1_UNORM_BLOCK8,
        Format::UNDEFINED,
        300,
    ] {
        assert!(is_bug(Texture2D::share_from_detail(&mut pool, &t, Format(f), 0, 0, 0, 0, 0, 0)));
    }
    assert_eq!(pool.holders(0), 1);
}

#[test]
fn subsets_count_from_the_bases() {
    let mut pool = Pool::new();
    let t = numbered_array(&mut pool);
    let upper = Texture2DArray::share_from_subset(&mut pool, &t, 1, 1, 1, 2).unwrap();
    assert_eq!((upper.base_layer(), upper.max_layer()), (1, 1));
    assert_eq!((upper.base_level(), upper.max_level()), (1, 2));
    assert_eq!(upper.extent(0), e2(2, 2));
    assert_eq!(upper.size(), 5);
    assert_eq!(upper.data(&pool).unwrap(), &[37, 38, 39, 40, 41]);
    // Level 1 of the subset is level 2 of the whole.
    let top = Texture2DArray::share_from_subset(&mut pool, &upper, 0, 0, 1, 1).unwrap();
    assert_eq!((top.base_level(), top.max_level()), (2, 2));
    assert_eq!((top.base_layer(), top.max_layer()), (1, 1));
    assert_eq!(top.data(&pool).unwrap(), &[41]);
    assert!(is_bug(Texture2DArray::share_from_subset(&mut pool, &upper, 0, 1, 0, 1)));
    assert!(is_bug(Texture2DArray::share_from_subset(&mut pool, &upper, 0, 0, 0, 2)));
    assert!(is_bug(Texture2DArray::share_from_subset(&mut pool, &upper, 0, 0, 1, 0)));
    assert!(is_bug(Texture2DArray::share_from_subset(
        &mut pool,
        &Texture2DArray::new_empty(),
        0,
        0,
        0,
        0
    )));
    let t2 = Texture2D::new(&mut pool, r8(), e2(8, 8), 4);
    let s = Texture2D::share_from_subset(&mut pool, &t2, 2, 3).unwrap();
    assert_eq!(s.extent(0), e2(2, 2));
    assert_eq!(s.levels(), 2);
    let c = TextureCube::new(&mut pool, r8(), e2(2, 2), 2);
    let s = TextureCube::new_from_subset(&mut pool, &c, 1, 4, 1, 1).unwrap();
    assert_eq!((s.base_face(), s.max_face(), s.faces()), (1, 4, 4));
    assert_eq!(s.levels(), 1);
    let ca = TextureCubeArray::new(&mut pool, r8(), e2(2, 2), 2, 1);
    let s = TextureCubeArray::new_from_subset(&mut pool, &ca, 1, 1, 0, 5, 0, 0).unwrap();
    assert_eq!((s.layers(), s.faces()), (1, 6));
    let t3 = Texture3D::new(&mut pool, r8(), Extent3d { width: 4, height: 4, depth: 4 }, 2);
    let s = Texture3D::share_from_subset(&mut pool, &t3, 1, 1).unwrap();
    assert_eq!(s.extent(0), Extent3d { width: 2, height: 2, depth: 2 });
    let t1 = Texture1D::new(&mut pool, r8(), Extent1d { width: 4 }, 2);
    let s = Texture1D::share_from_subset(&mut pool, &t1, 0, 0).unwrap();
    assert_eq!(s.levels(), 1);
    let t1a = Texture1DArray::new(&mut pool, r8(), Extent1d { width: 4 }, 3, 2);
    let s = Texture1DArray::share_from_subset(&mut pool, &t1a, 1, 2, 1, 1).unwrap();
    assert_eq!((s.layers(), s.levels()), (2, 1));
}

#[test]
fn layers_and_faces_are_views() {
    let mut pool = Pool::new();
    let t = numbered_array(&mut pool);
    let layer = t.get_layer(&mut pool, 1).unwrap();
    assert_eq!(layer.target(), Target(Target::TARGET_2D));
    assert_eq!((layer.base_layer(), layer.max_layer()), (1, 1));
    assert_eq!((layer.layers(), layer.faces(), layer.levels()), (1, 1, 3));
    assert_eq!(layer.data(&pool).unwrap(), &numbered(42)[21..42]);
    assert!(is_bug(t.get_layer(&mut pool, 2)));
    assert!(is_bug(Texture2DArray::new_empty().get_layer(&mut pool, 0)));
    assert_eq!(pool.holders(0), 2);

    let cube = TextureCube::new(&mut pool, r8(), e2(2, 2), 1);
    let id = cube.raw_texture().buffer_id().unwrap();
    assert!(pool.write(id, 0, &numbered(24)));
    let face = cube.get_face(&mut pool, 3).unwrap();
    assert_eq!((face.base_face(), face.max_face()), (3, 3));
    assert_eq!(face.data(&pool).unwrap(), &[12, 13, 14, 15]);
    assert!(is_bug(cube.get_face(&mut pool, 6)));

    let cubes = TextureCubeArray::new(&mut pool, r8(), e2(2, 2), 2, 1);
    let id = cubes.raw_texture().buffer_id().unwrap();
    assert!(pool.write(id, 0, &numbered(48)));
    let second = cubes.get_layer(&mut pool, 1).unwrap();
    assert_eq!(second.target(), Target(Target::TARGET_CUBE));
    assert_eq!((second.base_layer(), second.max_layer()), (1, 1));
    assert_eq!(second.faces(), 6);
    assert_eq!(second.data(&pool).unwrap(), &numbered(48)[24..48]);
    let face = second.get_face(&mut pool, 5).unwrap();
    assert_eq!(face.data(&pool).unwrap(), &[44, 45, 46, 47]);

    let lines = Texture1DArray::new(&mut pool, r8(), Extent1d { width: 4 }, 2, 1);
    let line = lines.get_layer(&mut pool, 1).unwrap();
    assert_eq!(line.target(), Target(Target::TARGET_1D));
    assert_eq!(line.extent(0), Extent1d { width: 4 });
}

#[test]
fn a_one_dimensional_view_of_a_flat_level() {
    // The last levels of a texture of 4 by 2 texels are one texel high.
    let mut pool = Pool::new();
    let t = Texture2D::new(&mut pool, r8(), e2(4, 2), 3);
    assert!(is_bug(Texture1D::share_from_detail(&mut pool, &t, r8(), 0, 0, 0, 0, 0, 2)));
    let line = Texture1D::share_from_detail(&mut pool, &t, r8(), 0, 0, 0, 0, 1, 2).unwrap();
    assert_eq!(line.extent(0), Extent1d { width: 2 });
    assert_eq!(line.extent(1), Extent1d { width: 1 });
}

#[test]
fn shared_ptr_test() {
    let mut pool = Pool::new();
    let texture_loaded = numbered_array(&mut pool);
    let id = texture_loaded.raw_texture().buffer_id().unwrap();
    assert_eq!(pool.holders(id), 1);
    {
        let layer = texture_loaded.get_layer(&mut pool, 0).unwrap();
        let base_level_image = layer.get_level(&mut pool, 0).unwrap();
        assert_eq!(pool.holders(id), 3);
        base_level_image.release(&mut pool).unwrap();
        assert_eq!(pool.holders(id), 2);
        layer.release(&mut pool).unwrap();
    }
    assert_eq!(pool.holders(id), 1);
}

#[test]
fn sharing_and_dropping_balance() {
    let mut pool = Pool::new();
    let t = Texture2D::new(&mut pool, r8(), e2(2, 2), 1);
    let id = t.raw_texture().buffer_id().unwrap();
    assert!(pool.write(id, 0, &[1, 2, 3, 4]));
    let n = 7;
    let mut views = Vec::new();
    for i in 0..n {
        views.push(Texture2D::share_from(&mut pool, &t).unwrap());
        assert_eq!(pool.holders(id), i + 2);
    }
    // Drop all but one of the views, and the first texture too.
    let kept = views.pop().unwrap();
    for view in views {
        view.release(&mut pool).unwrap();
    }
    t.release(&mut pool).unwrap();
    assert_eq!(pool.holders(id), 1);
    assert_eq!(kept.data(&pool).unwrap(), &[1, 2, 3, 4]);
    // The last one frees the buffer.
    let stale = Texture2D::share_from(&mut pool, &kept).unwrap();
    stale.release(&mut pool).unwrap();
    let also_stale = Texture2D::share_from(&mut pool, &kept).unwrap();
    kept.release(&mut pool).unwrap();
    assert_eq!(pool.holders(id), 1);
    also_stale.release(&mut pool).unwrap();
    assert_eq!(pool.holders(id), 0);
    assert_eq!(pool.size(id), None);
}

#[test]
fn a_view_that_outlives_its_buffer_is_told_so() {
    let mut pool = Pool::new();
    let t = Texture2D::new(&mut pool, r8(), e2(2, 2), 1);
    let view = Texture2D::share_from(&mut pool, &t).unwrap();
    // Let go twice through the pool, behind the back of the two textures.
    assert!(pool.release(0));
    assert!(pool.release(0));
    assert!(is_bug(view.data(&pool)));
    assert!(is_bug(view.clear(&mut pool)));
    assert!(is_bug(Texture2D::share_from(&mut pool, &view)));
    assert!(is_bug(view.get_level(&mut pool, 0)));
    assert!(is_bug(view.copy(&mut pool, &t, 0, 0, 0, 0, 0, 0)));
    assert!(is_bug(view.equals(&t, &pool)));
    assert!(is_bug(view.release(&mut pool)));
    // A texture is no good in another pool either.
    let mut other = Pool::new();
    assert!(is_bug(t.data(&other)));
    other.adopt(vec![0; 3]);
    assert!(is_bug(t.data(&other)));
    assert!(is_bug(t.clear(&mut other)));
}

#[test]
fn clear_zeroes_the_claimed_bytes() {
    let mut pool = Pool::new();
    let t = numbered_array(&mut pool);
    let first = t.get_layer(&mut pool, 0).unwrap();
    first.clear(&mut pool).unwrap();
    let all = t.data(&pool).unwrap();
    assert!(all[..21].iter().all(|b| *b == 0));
    assert_eq!(&all[21..], &numbered(42)[21..]);
}

#[test]
fn clear_of_a_narrow_view_is_a_run_of_bytes() {
    // Two layers of two levels: 16 + 4 bytes a layer. The view of the second
    // level of both layers claims 8 bytes from byte 16 on.
    let mut pool = Pool::new();
    let t = Texture2DArray::new(&mut pool, r8(), e2(4, 4), 2, 2);
    let id = t.raw_texture().buffer_id().unwrap();
    assert!(pool.write(id, 0, &[7u8; 40]));
    let view = Texture2DArray::share_from_subset(&mut pool, &t, 0, 1, 1, 1).unwrap();
    assert_eq!(view.size(), 8);
    view.clear(&mut pool).unwrap();
    let all = t.data(&pool).unwrap();
    assert!(all[..16].iter().all(|b| *b == 7));
    assert!(all[16..24].iter().all(|b| *b == 0));
    assert!(all[24..].iter().all(|b| *b == 7));
    assert_eq!(view.data(&pool).unwrap(), &[0u8; 8]);
}

#[test]
fn copy_copies_one_image() {
    let mut pool = Pool::new();
    let src = numbered_array(&mut pool);
    let dst = Texture2DArray::new(&mut pool, r8(), e2(4, 4), 2, 3);
    dst.copy(&mut pool, &src, 1, 0, 1, 0, 0, 1).unwrap();
    let all = dst.data(&pool).unwrap();
    assert!(all[..16].iter().all(|b| *b == 0));
    assert_eq!(&all[16..20], &[37, 38, 39, 40]);
    assert!(all[20..].iter().all(|b| *b == 0));
    assert_eq!(src.data(&pool).unwrap(), &numbered(42)[..]);
    // Inside one texture too.
    src.copy(&mut pool, &src, 0, 0, 0, 1, 0, 0).unwrap();
    let all = src.data(&pool).unwrap();
    assert_eq!(&all[21..37], &numbered(42)[..16]);
    assert_eq!(&all[..21], &numbered(42)[..21]);
    // Images of different sizes, and images that are not shown, are refused.
    assert!(is_bug(dst.copy(&mut pool, &src, 0, 0, 0, 0, 0, 1)));
    assert!(is_bug(dst.copy(&mut pool, &src, 2, 0, 0, 0, 0, 0)));
    assert!(is_bug(dst.copy(&mut pool, &src, 0, 0, 0, 0, 1, 0)));
    assert!(is_bug(dst.copy(&mut pool, &src, 0, 0, 3, 0, 0, 3)));
}

#[test]
fn copy_subset_copies_a_box() {
    let mut pool = Pool::new();
    let src = Texture2D::new(&mut pool, r8(), e2(4, 4), 1);
    let id = src.raw_texture().buffer_id().unwrap();
    assert!(pool.write(id, 0, &numbered(16)));
    let dst = Texture2D::new(&mut pool, r8(), e2(4, 4), 1);
    let at = |width: u32, height: u32| Extent3d { width, height, depth: 0 };
    let size = |width: u32, height: u32| Extent3d { width, height, depth: 1 };
    // The box of 2 by 3 texels at (1, 0) goes to (2, 1).
    dst.copy_subset(&mut pool, &src, 0, 0, 0, at(1, 0), 0, 0, 0, at(2, 1), size(2, 3)).unwrap();
    let expect = [
        0, 0, 0, 0,
        0, 0, 1, 2,
        0, 0, 5, 6,
        0, 0, 9, 10,
    ];
    assert_eq!(dst.data(&pool).unwrap(), &expect);
    // A box without texels changes nothing.
    dst.copy_subset(&mut pool, &src, 0, 0, 0, at(0, 0), 0, 0, 0, at(0, 0), size(0, 4)).unwrap();
    dst.copy_subset(&mut pool, &src, 0, 0, 0, at(0, 0), 0, 0, 0, at(0, 0), zero3()).unwrap();
    assert_eq!(dst.data(&pool).unwrap(), &expect);
    // A box that does not lie inside is refused.
    assert!(is_bug(dst.copy_subset(
        &mut pool, &src, 0, 0, 0, at(3, 0), 0, 0, 0, at(0, 0), size(2, 1)
    )));
    assert!(is_bug(dst.copy_subset(
        &mut pool, &src, 0, 0, 0, at(0, 0), 0, 0, 0, at(0, 2), size(1, 3)
    )));
    assert!(is_bug(dst.copy_subset(
        &mut pool, &src, 0, 0, 0, at(0, 0), 0, 0, 0, at(0, 0), Extent3d { width: 1, height: 1, depth: 2 }
    )));
    assert!(is_bug(dst.copy_subset(
        &mut pool, &src, 0, 0, 1, at(0, 0), 0, 0, 0, at(0, 0), size(1, 1)
    )));
    assert_eq!(dst.data(&pool).unwrap(), &expect);
    // Textures with other blocks are refused.
    let wide = Texture2D::new(&mut pool, rgba8(), e2(4, 4), 1);
    assert!(is_bug(wide.copy_subset(
        &mut pool, &src, 0, 0, 0, at(0, 0), 0, 0, 0, at(0, 0), size(1, 1)
    )));
}

#[test]
fn copy_subset_counts_in_blocks() {
    // Blocks of 4 by 4 texels and 8 bytes: 3 by 2 blocks.
    let mut pool = Pool::new();
    let f = Format(Format::RGB_DXT1_UNORM_BLOCK8);
    let src = Texture2D::new(&mut pool, f, e2(12, 8), 1);
    assert_eq!(src.size(), 48);
    let id = src.raw_texture().buffer_id().unwrap();
    assert!(pool.write(id, 0, &numbered(48)));
    let dst = Texture2D::new(&mut pool, f, e2(12, 8), 1);
    let at = |width: u32, height: u32| Extent3d { width, height, depth: 0 };
    // Texel (5, 2) lies in block (1, 0); 9 by 8 texels are 2 by 2 blocks.
    dst.copy_subset(
        &mut pool,
        &src,
        0,
        0,
        0,
        at(5, 2),
        0,
        0,
        0,
        at(0, 0),
        Extent3d { width: 9, height: 8, depth: 1 },
    )
    .unwrap();
    let all = dst.data(&pool).unwrap();
    assert_eq!(&all[0..16], &numbered(48)[8..24]);
    assert!(all[16..24].iter().all(|b| *b == 0));
    assert_eq!(&all[24..40], &numbered(48)[32..48]);
    assert!(all[40..48].iter().all(|b| *b == 0));
}

#[test]
fn copy_subset_in_a_volume() {
    let mut pool = Pool::new();
    let src = Texture3D::new(&mut pool, r8(), Extent3d { width: 2, height: 2, depth: 2 }, 1);
    let id = src.raw_texture().buffer_id().unwrap();
    assert!(pool.write(id, 0, &[1, 2, 3, 4, 5, 6, 7, 8]));
    let dst = Texture3D::new(&mut pool, r8(), Extent3d { width: 2, height: 2, depth: 2 }, 1);
    dst.copy_subset(
        &mut pool,
        &src,
        0,
        0,
        0,
        Extent3d { width: 1, height: 0, depth: 0 },
        0,
        0,
        0,
        Extent3d { width: 0, height: 0, depth: 0 },
        Extent3d { width: 1, height: 2, depth: 2 },
    )
    .unwrap();
    assert_eq!(dst.data(&pool).unwrap(), &[2, 0, 4, 0, 6, 0, 8, 0]);
}

#[test]
fn textures_are_the_same_by_what_they_show() {
    let mut pool = Pool::new();
    let a = numbered_array(&mut pool);
    let b = numbered_array(&mut pool);
    assert!(!a.raw_texture().shares_with(b.raw_texture()));
    assert!(a.equals(&b, &pool).unwrap());
    assert!(a.equals(&a, &pool).unwrap());
    let id = b.raw_texture().buffer_id().unwrap();
    assert!(pool.write(id, 41, &[0]));
    assert!(!a.equals(&b, &pool).unwrap());
    assert!(!b.equals(&a, &pool).unwrap());
    // Two views of one buffer may differ.
    let first = a.get_layer(&mut pool, 0).unwrap();
    let second = a.get_layer(&mut pool, 1).unwrap();
    assert!(first.raw_texture().shares_with(second.raw_texture()));
    assert!(!first.equals(&second, &pool).unwrap());
    // And a view is the same as what it shows.
    let again = a.get_layer(&mut pool, 0).unwrap();
    assert!(first.equals(&again, &pool).unwrap());
    // Another format, another count or another extent is another texture.
    let c = Texture2D::new(&mut pool, r8(), e2(2, 2), 1);
    let d = Texture2D::new(&mut pool, Format(Format::R8_UINT_PACK8), e2(2, 2), 1);
    let e = Texture2D::new(&mut pool, r8(), e2(4, 1), 1);
    let f = Texture2D::new(&mut pool, r8(), e2(2, 2), 2);
    assert!(!c.equals(&d, &pool).unwrap());
    assert!(!c.equals(&e, &pool).unwrap());
    assert!(!c.equals(&f, &pool).unwrap());
    assert!(Texture2D::new_empty().equals(&Texture2D::new_empty(), &pool).unwrap());
    assert!(!c.equals(&Texture2D::new_empty(), &pool).unwrap());
    // Textures of different targets differ.
    let line = Texture::new(
        &mut pool,
        Target(Target::TARGET_2D),
        r8(),
        Extent3d { width: 2, height: 1, depth: 1 },
        1,
        1,
        1,
    );
    let same_line = Texture::new(
        &mut pool,
        Target(Target::TARGET_1D),
        r8(),
        Extent3d { width: 2, height: 1, depth: 1 },
        1,
        1,
        1,
    );
    assert!(!line.equals(&same_line, &pool).unwrap());
    assert!(line.equals(&line, &pool).unwrap());
}

#[test]
fn swizzles_can_be_set() {
    let mut pool = Pool::new();
    let mut t = Texture2D::new(&mut pool, r8(), e2(2, 2), 1);
    let identity = [
        Swizzle(Swizzle::RED),
        Swizzle(Swizzle::GREEN),
        Swizzle(Swizzle::BLUE),
        Swizzle(Swizzle::ALPHA),
    ];
    assert_eq!(t.raw_texture().swizzles(), identity);
    let other = [
        Swizzle(Swizzle::BLUE),
        Swizzle(Swizzle::GREEN),
        Swizzle(Swizzle::RED),
        Swizzle(Swizzle::ONE),
    ];
    t.set_swizzles(other);
    assert_eq!(t.raw_texture().swizzles(), other);
    assert_eq!(t.size(), 4);
    let view = Texture2D::share_from(&mut pool, &t).unwrap();
    assert_eq!(view.raw_texture().swizzles(), other);
    let mut none = Texture2D::new_empty();
    none.set_swizzles(other);
    assert_eq!(none.raw_texture().swizzles(), identity);
}

#[test]
fn raw_textures_go_in_and_out_of_kinds() {
    let mut pool = Pool::new();
    let t = Texture2D::new(&mut pool, r8(), e2(2, 2), 1);
    let raw = t.into_raw();
    assert_eq!(raw.target(), Target(Target::TARGET_2D));
    let raw = match Texture3D::from_raw(raw) {
        Ok(_) => panic!("a 2d texture is no 3d texture"),
        Err(raw) => raw,
    };
    // Under the target of a volume it is taken as a volume.
    let raw = raw.retarget(Target(Target::TARGET_3D));
    assert_eq!(raw.target(), Target(Target::TARGET_3D));
    assert_eq!(raw.size(), 4);
    let volume = Texture3D::from_raw(raw).ok().unwrap();
    assert_eq!(volume.extent(0), Extent3d { width: 2, height: 2, depth: 1 });
    assert_eq!(Texture2D::target_type(), Target(Target::TARGET_2D));
    assert_eq!(TextureCubeArray::target_type(), Target(Target::TARGET_CUBE_ARRAY));
    assert_eq!(pool.holders(0), 1);
}

#[test]
fn store_writes_inside_the_claim() {
    let mut pool = Pool::new();
    let t = numbered_array(&mut pool);
    let second = t.get_layer(&mut pool, 1).unwrap();
    second.store(&mut pool, 16, &[200, 201, 202]).unwrap();
    let all = t.data(&pool).unwrap();
    assert_eq!(&all[..37], &numbered(42)[..37]);
    assert_eq!(&all[37..40], &[200, 201, 202]);
    assert_eq!(&all[40..], &numbered(42)[40..]);
    second.store(&mut pool, 21, &[]).unwrap();
    assert!(is_bug(second.store(&mut pool, 19, &[1, 2, 3])));
    assert!(is_bug(second.store(&mut pool, 22, &[])));
    assert!(is_bug(second.store(&mut pool, usize::MAX, &[1])));
    assert!(is_bug(Texture2D::new_empty().store(&mut pool, 0, &[])));
    assert_eq!(&t.data(&pool).unwrap()[37..40], &[200, 201, 202]);
}

#[test]
fn copy_subset_reads_before_it_writes() {
    // A box copied over itself, one row down: every row gets the row above
    // it as it was.
    let mut pool = Pool::new();
    let t = Texture2D::new(&mut pool, r8(), e2(2, 4), 1);
    let id = t.raw_texture().buffer_id().unwrap();
    assert!(pool.write(id, 0, &[1, 2, 3, 4, 5, 6, 7, 8]));
    let at = |width: u32, height: u32| Extent3d { width, height, depth: 0 };
    t.copy_subset(
        &mut pool,
        &t,
        0,
        0,
        0,
        at(0, 0),
        0,
        0,
        0,
        at(0, 1),
        Extent3d { width: 2, height: 3, depth: 1 },
    )
    .unwrap();
    assert_eq!(t.data(&pool).unwrap(), &[1, 2, 1, 2, 3, 4, 5, 6]);
    // And one texel to the right.
    t.copy_subset(
        &mut pool,
        &t,
        0,
        0,
        0,
        at(0, 0),
        0,
        0,
        0,
        at(1, 0),
        Extent3d { width: 1, height: 4, depth: 1 },
    )
    .unwrap();
    assert_eq!(t.data(&pool).unwrap(), &[1, 1, 1, 1, 3, 3, 5, 5]);
}
