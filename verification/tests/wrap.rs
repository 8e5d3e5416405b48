use gli_rs::sampler::{Filter, Wrap};
use gli_rs::wrap::fold;

#[test]
fn wrap_and_filter_numbers_are_fixed() {
    assert_eq!(Wrap::CLAMP_TO_EDGE, 0);
    assert_eq!(Wrap::CLAMP_TO_BORDER, 1);
    assert_eq!(Wrap::REPEAT, 2);
    assert_eq!(Wrap::MIRROR_REPEAT, 3);
    assert_eq!(Wrap::MIRROR_CLAMP_TO_EDGE, 4);
    assert_eq!(Wrap::MIRROR_CLAMP_TO_BORDER, 5);
    assert_eq!(Wrap::FIRST, 0);
    assert_eq!(Wrap::LAST, 5);
    assert_eq!(Filter::NONE, 0);
    assert_eq!(Filter::NEAREST, 1);
    assert_eq!(Filter::LINEAR, 2);
    assert_eq!(Filter::FIRST, 1);
    assert_eq!(Filter::LAST, 2);
    assert!(Wrap(5).is_valid() && !Wrap(6).is_valid());
    assert!(Filter(1).is_valid() && Filter(2).is_valid());
    assert!(!Filter(0).is_valid() && !Filter(3).is_valid());
    assert!(Wrap(1).is_border() && Wrap(5).is_border());
    assert!(!Wrap(0).is_border() && !Wrap(2).is_border() && !Wrap(3).is_border());
}

#[test]
fn coordinates_inside_fall_on_themselves() {
    for wrap in 0..=7 {
        for coord in 0..4 {
            assert_eq!(fold(Wrap(wrap), coord, 4), Some(coord as u32));
        }
    }
}

#[test]
fn clamp_to_edge_moves_to_the_nearest_texel() {
    let w = Wrap(Wrap::CLAMP_TO_EDGE);
    assert_eq!(fold(w, 7, 4), Some(3));
    assert_eq!(fold(w, 4, 4), Some(3));
    assert_eq!(fold(w, -1, 4), Some(0));
    assert_eq!(fold(w, -3, 4), Some(0));
    assert_eq!(fold(w, i64::MAX, 4), Some(3));
    assert_eq!(fold(w, i64::MIN, 4), Some(0));
    assert_eq!(fold(w, 5, 1), Some(0));
}

#[test]
fn clamp_to_border_shows_the_border_outside() {
    let w = Wrap(Wrap::CLAMP_TO_BORDER);
    assert_eq!(fold(w, 4, 4), None);
    assert_eq!(fold(w, -1, 4), None);
    assert_eq!(fold(w, 3, 4), Some(3));
    assert_eq!(fold(w, i64::MIN, 4), None);
}

#[test]
fn repeat_goes_round() {
    let w = Wrap(Wrap::REPEAT);
    assert_eq!(fold(w, 5, 4), Some(1));
    assert_eq!(fold(w, 4, 4), Some(0));
    assert_eq!(fold(w, 8, 4), Some(0));
    assert_eq!(fold(w, -1, 4), Some(3));
    assert_eq!(fold(w, -4, 4), Some(0));
    assert_eq!(fold(w, -5, 4), Some(3));
    assert_eq!(fold(w, 1_000_001, 4), Some(1));
    assert_eq!(fold(w, i64::MAX, 4), Some(3));
    assert_eq!(fold(w, i64::MIN, 4), Some(0));
    assert_eq!(fold(w, 17, 1), Some(0));
    assert_eq!(fold(w, -7, 3), Some(2));
    for coord in -20i64..20 {
        for images in -3i64..3 {
            assert_eq!(fold(w, coord + images * 5, 5), fold(w, coord, 5));
        }
    }
}

#[test]
fn mirror_repeat_goes_there_and_back() {
    let w = Wrap(Wrap::MIRROR_REPEAT);
    let expect = [3u32, 2, 1, 0, 0, 1, 2, 3, 3, 2, 1, 0, 0, 1, 2, 3];
    for (i, want) in expect.iter().enumerate() {
        assert_eq!(fold(w, i as i64 - 4, 4), Some(*want), "{}", i as i64 - 4);
    }
    assert_eq!(fold(w, i64::MIN, 4), Some(0));
    assert_eq!(fold(w, i64::MAX, 4), Some(0));
    assert_eq!(fold(w, 9, u32::MAX), Some(9));
    assert_eq!(fold(w, -9, u32::MAX), Some(8));
}

#[test]
fn mirror_clamp_mirrors_once() {
    let edge = Wrap(Wrap::MIRROR_CLAMP_TO_EDGE);
    assert_eq!(fold(edge, -1, 4), Some(0));
    assert_eq!(fold(edge, -2, 4), Some(1));
    assert_eq!(fold(edge, -4, 4), Some(3));
    assert_eq!(fold(edge, -7, 4), Some(3));
    assert_eq!(fold(edge, 6, 4), Some(3));
    assert_eq!(fold(edge, i64::MIN, 4), Some(3));
    let border = Wrap(Wrap::MIRROR_CLAMP_TO_BORDER);
    assert_eq!(fold(border, -2, 4), Some(1));
    assert_eq!(fold(border, -4, 4), Some(3));
    assert_eq!(fold(border, -5, 4), None);
    assert_eq!(fold(border, 4, 4), None);
    assert_eq!(fold(border, i64::MIN, 4), None);
}

#[test]
fn nothing_falls_on_an_axis_without_texels() {
    for wrap in 0..=6 {
        assert_eq!(fold(Wrap(wrap), 0, 0), None);
    }
    // A number that names no mode folds nothing.
    assert_eq!(fold(Wrap(6), 4, 4), None);
    assert_eq!(fold(Wrap(6), -1, 4), None);
}
