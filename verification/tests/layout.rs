use gli_rs::layout::{blocks, chain, mip, Layout, MAX_LEVELS};
use gli_rs::{Extent3d, Format};

fn ext(width: u32, height: u32, depth: u32) -> Extent3d {
    Extent3d { width, height, depth }
}

#[test]
fn mip_halves_and_stops_at_one() {
    assert_eq!(mip(5, 0), 5);
    assert_eq!(mip(5, 1), 2);
    assert_eq!(mip(5, 2), 1);
    assert_eq!(mip(5, 3), 1);
    assert_eq!(mip(256, 8), 1);
    assert_eq!(mip(256, 7), 2);
    assert_eq!(mip(u32::MAX, 31), 1);
    assert_eq!(mip(u32::MAX, 30), 3);
    assert_eq!(mip(u32::MAX, usize::MAX), 1);
    assert_eq!(mip(0, 0), 1);
    assert_eq!(mip(1, 40), 1);
}

#[test]
fn chain_is_the_logarithm_plus_one() {
    assert_eq!(chain(1), 1);
    assert_eq!(chain(2), 2);
    assert_eq!(chain(3), 2);
    assert_eq!(chain(4), 3);
    assert_eq!(chain(5), 3);
    assert_eq!(chain(256), 9);
    assert_eq!(chain(u32::MAX), 32);
    assert_eq!(chain(0), 1);
    assert_eq!(MAX_LEVELS, 32);
}

#[test]
fn blocks_cover_the_axis() {
    assert_eq!(blocks(8, 4), 2);
    assert_eq!(blocks(9, 4), 3);
    assert_eq!(blocks(1, 4), 1);
    assert_eq!(blocks(10, 12), 1);
    assert_eq!(blocks(7, 1), 7);
    assert_eq!(blocks(u32::MAX, 16), 0x1000_0000);
}

#[test]
fn layout_of_a_mip_chain() {
    let l = Layout::new(Format(Format::RGBA8_UNORM_PACK8), ext(4, 4, 1), 1, 1, 3).unwrap();
    assert_eq!(l.block_size, 4);
    assert_eq!(l.level_size(0), 64);
    assert_eq!(l.level_size(1), 16);
    assert_eq!(l.level_size(2), 4);
    assert_eq!(l.levels_size(0, 3), 84);
    assert_eq!(l.levels_size(1, 3), 20);
    assert_eq!(l.offset(0, 0, 0), 0);
    assert_eq!(l.offset(0, 0, 1), 64);
    assert_eq!(l.offset(0, 0, 2), 80);
    assert_eq!(l.level_extent(1), ext(2, 2, 1));
    assert_eq!(l.level_extent(2), ext(1, 1, 1));
    assert_eq!(l.row_size(0), 16);
    assert_eq!(l.block_place(0, 1, 2, 0), 36);
}

#[test]
fn layout_of_layers_and_faces() {
    let l = Layout::new(Format(Format::R8_UNORM_PACK8), ext(4, 4, 1), 2, 6, 2).unwrap();
    assert_eq!(l.levels_size(0, 2), 20);
    assert_eq!(l.offset(0, 1, 0), 20);
    assert_eq!(l.offset(0, 5, 1), 116);
    assert_eq!(l.offset(1, 0, 0), 120);
    assert_eq!(l.offset(1, 2, 1), 176);
}

#[test]
fn layout_of_compressed_blocks() {
    let l = Layout::new(Format(Format::RGB_DXT1_UNORM_BLOCK8), ext(8, 8, 1), 1, 1, 4).unwrap();
    assert_eq!(l.level_size(0), 32);
    assert_eq!(l.level_size(1), 8);
    assert_eq!(l.level_size(2), 8);
    assert_eq!(l.level_size(3), 8);
    assert_eq!(l.levels_size(0, 4), 56);
    assert_eq!(l.level_blocks(0), ext(2, 2, 1));
    assert_eq!(l.level_blocks(2), ext(1, 1, 1));
    let l = Layout::new(Format(Format::RGBA_ASTC_5X4_UNORM_BLOCK16), ext(11, 9, 1), 1, 1, 1).unwrap();
    assert_eq!(l.level_blocks(0), ext(3, 3, 1));
    assert_eq!(l.level_size(0), 144);
}

#[test]
fn layout_of_a_volume() {
    let l = Layout::new(Format(Format::RG16_SFLOAT_PACK16), ext(4, 2, 3), 1, 1, 3).unwrap();
    assert_eq!(l.level_size(0), 96);
    assert_eq!(l.level_extent(1), ext(2, 1, 1));
    assert_eq!(l.level_size(1), 8);
    assert_eq!(l.level_size(2), 4);
    assert_eq!(l.block_place(0, 3, 1, 2), (2 * 2 + 1) * 16 + 12);
}

#[test]
fn there_is_no_layout_for_what_is_no_texture() {
    let f = Format(Format::RGBA8_UNORM_PACK8);
    assert!(Layout::new(Format(0), ext(4, 4, 1), 1, 1, 1).is_none());
    assert!(Layout::new(Format(210), ext(4, 4, 1), 1, 1, 1).is_none());
    assert!(Layout::new(f, ext(0, 4, 1), 1, 1, 1).is_none());
    assert!(Layout::new(f, ext(4, 0, 1), 1, 1, 1).is_none());
    assert!(Layout::new(f, ext(4, 4, 0), 1, 1, 1).is_none());
    assert!(Layout::new(f, ext(4, 4, 1), 0, 1, 1).is_none());
    assert!(Layout::new(f, ext(4, 4, 1), 1, 0, 1).is_none());
    assert!(Layout::new(f, ext(4, 4, 1), 1, 1, 0).is_none());
    assert!(Layout::new(f, ext(4, 4, 1), 1, 1, 4).is_none());
    assert!(Layout::new(f, ext(4, 4, 1), 1, 1, 3).is_some());
    assert!(Layout::new(f, ext(u32::MAX, u32::MAX, u32::MAX), 1, 1, 1).is_none());
    assert!(Layout::new(f, ext(1, 1, 1), usize::MAX, 1, 1).is_none());
    assert!(Layout::new(f, ext(4, 4, 1), 1, 1, usize::MAX).is_none());
}
